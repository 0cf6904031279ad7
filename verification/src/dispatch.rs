//! How a session comes from the signaling server to a direct link.
use crate::candidates::{ConnectInfo, ConnectInfoView};
use crate::session::{SessionEvent, SessionEventView};
use crate::signaling::{SignalingEnvelope, SignalingEnvelopeView, SignalingRole};
use crate::text;
use vstd::prelude::*;

verus! {

/// What happens to a session: the user wants another attempt at a direct link, the session is
/// dropped, this end has found out how it can be reached, the server sends something, or the
/// connection to the server is gone.
#[derive(Debug)]
pub enum DispatchEvent {
    Retry,
    HandleDropped,
    LocalReady,
    Signal(SignalingEnvelope),
    Unreadable,
    SignalingGone,
}

#[verifier::ext_equal]
pub enum DispatchEventView {
    Retry,
    HandleDropped,
    LocalReady,
    Signal(SignalingEnvelopeView),
    Unreadable,
    SignalingGone,
}

impl View for DispatchEvent {
    type V = DispatchEventView;

    open spec fn view(&self) -> DispatchEventView {
        match self {
            DispatchEvent::Retry => DispatchEventView::Retry,
            DispatchEvent::HandleDropped => DispatchEventView::HandleDropped,
            DispatchEvent::LocalReady => DispatchEventView::LocalReady,
            DispatchEvent::Signal(a) => DispatchEventView::Signal(a@),
            DispatchEvent::Unreadable => DispatchEventView::Unreadable,
            DispatchEvent::SignalingGone => DispatchEventView::SignalingGone,
        }
    }
}

/// What the session does next: tell the user interface, find out and announce how this end can be
/// reached, forget what was found out, make a direct link to the peer, or stop listening to the
/// server.
#[derive(Debug)]
pub enum DispatchAction {
    Emit(SessionEvent),
    Announce,
    ForgetLocal,
    StartDirectLink { peer: ConnectInfo },
    Stop,
}

#[verifier::ext_equal]
pub enum DispatchActionView {
    Emit(SessionEventView),
    Announce,
    ForgetLocal,
    StartDirectLink { peer: ConnectInfoView },
    Stop,
}

impl View for DispatchAction {
    type V = DispatchActionView;

    open spec fn view(&self) -> DispatchActionView {
        match self {
            DispatchAction::Emit(a) => DispatchActionView::Emit(a@),
            DispatchAction::Announce => DispatchActionView::Announce,
            DispatchAction::ForgetLocal => DispatchActionView::ForgetLocal,
            DispatchAction::StartDirectLink { peer } => DispatchActionView::StartDirectLink {
                peer: peer@,
            },
            DispatchAction::Stop => DispatchActionView::Stop,
        }
    }
}

pub open spec fn action_views(actions: Seq<DispatchAction>) -> Seq<DispatchActionView> {
    actions.map_values(|a: DispatchAction| a@)
}

/// How far a session has come on the way to a direct link.
pub struct DispatchState {
    pub role: SignalingRole,
    pub peer_seen: bool,
    pub connect_info_sent: bool,
    pub local_ready: bool,
    pub peer_direct: Option<ConnectInfo>,
    pub direct_started: bool,
}

#[verifier::ext_equal]
pub struct DispatchStateView {
    pub role: SignalingRole,
    pub peer_seen: bool,
    pub connect_info_sent: bool,
    pub local_ready: bool,
    pub peer_direct: Option<ConnectInfoView>,
    pub direct_started: bool,
}

pub open spec fn opt_info(info: Option<ConnectInfo>) -> Option<ConnectInfoView> {
    match info {
        Some(i) => Some(i@),
        None => None,
    }
}

impl View for DispatchState {
    type V = DispatchStateView;

    open spec fn view(&self) -> DispatchStateView {
        DispatchStateView {
            role: self.role,
            peer_seen: self.peer_seen,
            connect_info_sent: self.connect_info_sent,
            local_ready: self.local_ready,
            peer_direct: opt_info(self.peer_direct),
            direct_started: self.direct_started,
        }
    }
}

/// Is this the first sign of the peer? It counts as seen from now on.
pub fn should_announce_peer(peer_seen: &mut bool) -> (r: bool)
    ensures
        r == !*old(peer_seen),
        *final(peer_seen),
{
    if *peer_seen {
        false
    } else {
        *peer_seen = true;
        true
    }
}

type Step = (DispatchStateView, Seq<DispatchActionView>);

impl DispatchStateView {
    pub open spec fn start(role: SignalingRole) -> Self {
        DispatchStateView {
            role,
            peer_seen: false,
            connect_info_sent: false,
            local_ready: false,
            peer_direct: None,
            direct_started: false,
        }
    }

    /// Everything about the way to a link is as at the start, but whether the peer was seen.
    pub open spec fn forget(self) -> Self {
        DispatchStateView { peer_seen: self.peer_seen, ..Self::start(self.role) }
    }

    /// The first sign of the peer is told.
    pub open spec fn notice_peer(self) -> Step {
        (
            DispatchStateView { peer_seen: true, ..self },
            if self.peer_seen {
                Seq::empty()
            } else {
                seq![DispatchActionView::Emit(SessionEventView::PeerConnected)]
            },
        )
    }

    /// How this end can be reached is found out and announced, once per attempt.
    pub open spec fn announce(self) -> Step {
        (
            DispatchStateView { connect_info_sent: true, ..self },
            if self.connect_info_sent {
                Seq::empty()
            } else {
                seq![DispatchActionView::Announce]
            },
        )
    }

    /// A direct link is made, once per attempt, as soon as both ends are known.
    pub open spec fn start_link(self) -> Step {
        match self.peer_direct {
            Some(peer) if !self.direct_started && self.local_ready => (
                DispatchStateView { direct_started: true, local_ready: false, ..self },
                seq![DispatchActionView::StartDirectLink { peer }],
            ),
            _ => (self, Seq::empty()),
        }
    }

    /// Does the peer make another attempt than the one that is known?
    pub open spec fn is_new_attempt(self, info: ConnectInfoView) -> bool {
        match self.peer_direct {
            Some(known) => known.pairing_token != info.pairing_token || known.cert_hash
                != info.cert_hash,
            None => false,
        }
    }

    /// The peer says how it can be reached. Where it makes a new attempt, this end does too.
    pub open spec fn hear_peer(self, info: ConnectInfoView) -> Step {
        let (s1, a1) = self.notice_peer();
        let again = self.is_new_attempt(info);
        let s2 = if again {
            s1.forget()
        } else {
            s1
        };
        let s3 = DispatchStateView { peer_direct: Some(info), ..s2 };
        let told = seq![
            DispatchActionView::Emit(SessionEventView::PeerCandidatesReceived(info)),
        ];
        let (s4, a4) = if again {
            s3.announce()
        } else {
            (s3, Seq::empty())
        };
        let (s5, a5) = s4.start_link();
        let dropped = if again {
            seq![DispatchActionView::ForgetLocal]
        } else {
            Seq::empty()
        };
        (s5, a1 + dropped + told + a4 + a5)
    }

    /// The server sends something.
    pub open spec fn hear(self, envelope: SignalingEnvelopeView) -> Step {
        match envelope {
            SignalingEnvelopeView::PeerJoined { .. } => {
                let (s1, a1) = self.notice_peer();
                let (s2, a2) = s1.announce();
                (s2, a1 + a2)
            },
            SignalingEnvelopeView::PeerLeft { .. } => (
                Self::start(self.role),
                seq![
                    DispatchActionView::ForgetLocal,
                    DispatchActionView::Emit(SessionEventView::PeerDisconnected),
                ],
            ),
            SignalingEnvelopeView::Error { message } => (
                self,
                seq![DispatchActionView::Emit(SessionEventView::Error(message))],
            ),
            SignalingEnvelopeView::RoomReady { room_code } => {
                let code = match room_code {
                    Some(c) => seq![
                        DispatchActionView::Emit(SessionEventView::RoomCodeAssigned(c)),
                    ],
                    None => Seq::empty(),
                };
                let (s, a) = if self.role == SignalingRole::Guest {
                    self.announce()
                } else {
                    (self, Seq::empty())
                };
                (s, code + seq![DispatchActionView::Emit(SessionEventView::Connected)] + a)
            },
            SignalingEnvelopeView::Signal { payload: Some(info) } if info.is_supported() =>
                self.hear_peer(info),
            _ => (self, Seq::empty()),
        }
    }

    /// Anything that happens to the session.
    pub open spec fn step(self, event: DispatchEventView) -> Step {
        match event {
            DispatchEventView::Retry => {
                let (s, a) = self.forget().announce();
                (s, seq![DispatchActionView::ForgetLocal] + a)
            },
            DispatchEventView::LocalReady => {
                DispatchStateView { local_ready: true, ..self }.start_link()
            },
            DispatchEventView::Signal(envelope) => self.hear(envelope),
            DispatchEventView::Unreadable => (self, Seq::empty()),
            DispatchEventView::HandleDropped | DispatchEventView::SignalingGone => (
                self,
                seq![
                    DispatchActionView::Stop,
                    DispatchActionView::Emit(SessionEventView::SignalingClosed),
                ],
            ),
        }
    }
}

fn push(actions: &mut Vec<DispatchAction>, a: DispatchAction)
    ensures
        action_views(final(actions)@) == action_views(old(actions)@).push(a@),
{
    actions.push(a);
    assert(action_views(actions@) =~= action_views(old(actions)@).push(a@));
}

fn none() -> (r: Vec<DispatchAction>)
    ensures
        action_views(r@) == Seq::<DispatchActionView>::empty(),
{
    let r: Vec<DispatchAction> = Vec::new();
    assert(action_views(r@) =~= Seq::<DispatchActionView>::empty());
    r
}

impl DispatchState {
    pub fn new(role: SignalingRole) -> (r: Self)
        ensures
            r@ == DispatchStateView::start(role),
    {
        DispatchState {
            role,
            peer_seen: false,
            connect_info_sent: false,
            local_ready: false,
            peer_direct: None,
            direct_started: false,
        }
    }

    fn notice_peer(&mut self, actions: &mut Vec<DispatchAction>)
        ensures
            final(self)@ == old(self)@.notice_peer().0,
            action_views(final(actions)@) == action_views(old(actions)@) + old(
                self,
            )@.notice_peer().1,
    {
        if should_announce_peer(&mut self.peer_seen) {
            push(actions, DispatchAction::Emit(SessionEvent::PeerConnected));
        }
        assert(action_views(actions@) =~= action_views(old(actions)@) + old(
            self,
        )@.notice_peer().1);
    }

    fn announce_connect_info_once(&mut self, actions: &mut Vec<DispatchAction>)
        ensures
            final(self)@ == old(self)@.announce().0,
            action_views(final(actions)@) == action_views(old(actions)@) + old(self)@.announce().1,
    {
        if !self.connect_info_sent {
            self.connect_info_sent = true;
            push(actions, DispatchAction::Announce);
        }
        assert(action_views(actions@) =~= action_views(old(actions)@) + old(self)@.announce().1);
    }

    fn start_direct_link_once(&mut self, actions: &mut Vec<DispatchAction>)
        ensures
            final(self)@ == old(self)@.start_link().0,
            action_views(final(actions)@) == action_views(old(actions)@) + old(self)@.start_link().1,
    {
        if !self.direct_started && self.local_ready {
            let peer = match &self.peer_direct {
                Some(peer) => Some(peer.clone()),
                None => None,
            };
            if let Some(peer) = peer {
                self.direct_started = true;
                self.local_ready = false;
                push(actions, DispatchAction::StartDirectLink { peer });
            }
        }
        assert(action_views(actions@) =~= action_views(old(actions)@) + old(self)@.start_link().1);
    }

    fn forget(&mut self)
        ensures
            final(self)@ == old(self)@.forget(),
    {
        self.connect_info_sent = false;
        self.local_ready = false;
        self.peer_direct = None;
        self.direct_started = false;
    }

    fn hear_peer(&mut self, info: ConnectInfo) -> (r: Vec<DispatchAction>)
        ensures
            (final(self)@, action_views(r@)) == old(self)@.hear_peer(info@),
    {
        let ghost before = self@;
        let ghost given = info@;
        let mut actions = none();
        let again = match &self.peer_direct {
            Some(known) => !text::same_text(
                known.pairing_token.as_str(),
                info.pairing_token.as_str(),
            ) || !text::same_text(known.cert_hash.as_str(), info.cert_hash.as_str()),
            None => false,
        };
        self.notice_peer(&mut actions);
        if again {
            self.forget();
            push(&mut actions, DispatchAction::ForgetLocal);
        }
        self.peer_direct = Some(info.clone());
        push(&mut actions, DispatchAction::Emit(SessionEvent::PeerCandidatesReceived(info)));
        if again {
            self.announce_connect_info_once(&mut actions);
        }
        self.start_direct_link_once(&mut actions);
        assert(action_views(actions@) =~= before.hear_peer(given).1);
        actions
    }

    fn hear(&mut self, envelope: SignalingEnvelope) -> (r: Vec<DispatchAction>)
        ensures
            (final(self)@, action_views(r@)) == old(self)@.hear(envelope@),
    {
        let ghost before = self@;
        let ghost given = envelope@;
        let mut actions = none();
        match envelope {
            SignalingEnvelope::PeerJoined { .. } => {
                self.notice_peer(&mut actions);
                self.announce_connect_info_once(&mut actions);
            },
            SignalingEnvelope::PeerLeft { .. } => {
                self.forget();
                self.peer_seen = false;
                push(&mut actions, DispatchAction::ForgetLocal);
                push(&mut actions, DispatchAction::Emit(SessionEvent::PeerDisconnected));
            },
            SignalingEnvelope::Error { message } => {
                push(&mut actions, DispatchAction::Emit(SessionEvent::Error(message)));
            },
            SignalingEnvelope::RoomReady { room_code } => {
                if let Some(code) = room_code {
                    push(&mut actions, DispatchAction::Emit(SessionEvent::RoomCodeAssigned(code)));
                }
                push(&mut actions, DispatchAction::Emit(SessionEvent::Connected));
                if self.role == SignalingRole::Guest {
                    self.announce_connect_info_once(&mut actions);
                }
            },
            SignalingEnvelope::Signal { payload } => {
                if let Some(info) = payload {
                    if info.is_supported() {
                        return self.hear_peer(info);
                    }
                }
            },
            SignalingEnvelope::Hello { .. } => {},
            SignalingEnvelope::Bye => {},
        }
        assert(action_views(actions@) =~= before.hear(given).1);
        actions
    }

    /// Anything that happens to the session, and what it leads to.
    pub fn step(&mut self, event: DispatchEvent) -> (r: Vec<DispatchAction>)
        ensures
            (final(self)@, action_views(r@)) == old(self)@.step(event@),
    {
        let ghost before = self@;
        let ghost given = event@;
        let mut actions = none();
        match event {
            DispatchEvent::Retry => {
                self.forget();
                push(&mut actions, DispatchAction::ForgetLocal);
                self.announce_connect_info_once(&mut actions);
            },
            DispatchEvent::LocalReady => {
                self.local_ready = true;
                self.start_direct_link_once(&mut actions);
            },
            DispatchEvent::Signal(envelope) => {
                return self.hear(envelope);
            },
            DispatchEvent::Unreadable => {},
            DispatchEvent::HandleDropped | DispatchEvent::SignalingGone => {
                push(&mut actions, DispatchAction::Stop);
                push(&mut actions, DispatchAction::Emit(SessionEvent::SignalingClosed));
            },
        }
        assert(action_views(actions@) =~= before.step(given).1);
        actions
    }
}

/// Where the announcement of how this end can be reached goes wrong.
#[derive(Debug, Clone, Copy, PartialEq, Eq, Structural)]
pub enum AnnounceStage {
    Collect,
    SerializeInfo,
    SerializeSignal,
    Send,
}

impl AnnounceStage {
    pub open spec fn words(self) -> Seq<char> {
        match self {
            AnnounceStage::Collect => "候选收集失败："@,
            AnnounceStage::SerializeInfo => "候选信息序列化失败："@,
            AnnounceStage::SerializeSignal => "候选信令序列化失败："@,
            AnnounceStage::Send => "发送候选信息失败："@,
        }
    }
}

/// What the user interface is told where the announcement goes wrong.
pub fn announce_failure(stage: AnnounceStage, error: &str) -> (r: SessionEvent)
    ensures
        r@ == SessionEventView::Error(stage.words() + error@),
{
    let message = match stage {
        AnnounceStage::Collect => text::concat("候选收集失败：", error),
        AnnounceStage::SerializeInfo => text::concat("候选信息序列化失败：", error),
        AnnounceStage::SerializeSignal => text::concat("候选信令序列化失败：", error),
        AnnounceStage::Send => text::concat("发送候选信息失败：", error),
    };
    SessionEvent::Error(message)
}

/// A direct link is started only towards the peer that was last heard of, and after the start
/// nothing is ready for another before this end has announced itself anew.
pub proof fn a_link_starts_once_per_attempt(s: DispatchStateView, event: DispatchEventView)
    ensures
        ({
            let (after, actions) = s.step(event);
            forall|peer: ConnectInfoView|
                actions.contains(DispatchActionView::StartDirectLink { peer }) ==> {
                    &&& after.peer_direct == Some(peer)
                    &&& after.direct_started
                    &&& !after.local_ready
                    &&& (#[trigger] after.start_link()).1.len() == 0
                }
        }),
{
}

/// This end announces itself once per attempt: having done so it does not again before the peer
/// leaves, makes a new attempt, or the user asks for one.
pub proof fn announced_once_per_attempt(s: DispatchStateView, event: DispatchEventView)
    requires
        s.connect_info_sent,
        !(event is Retry),
        match event {
            DispatchEventView::Signal(SignalingEnvelopeView::PeerLeft { .. }) => false,
            DispatchEventView::Signal(SignalingEnvelopeView::Signal { payload: Some(info) }) =>
                !s.is_new_attempt(info),
            _ => true,
        },
    ensures
        s.step(event).0.connect_info_sent,
        !s.step(event).1.contains(DispatchActionView::Announce),
{
}

/// The peer is announced to the user interface once until it leaves.
pub proof fn peer_is_announced_once(s: DispatchStateView, event: DispatchEventView)
    requires
        s.peer_seen,
    ensures
        !s.step(event).1.contains(DispatchActionView::Emit(SessionEventView::PeerConnected)),
        s.step(event).0.peer_seen || s.step(event).1.contains(
            DispatchActionView::Emit(SessionEventView::PeerDisconnected),
        ),
{
    match event {
        DispatchEventView::Signal(SignalingEnvelopeView::PeerLeft { .. }) => {
            assert(s.step(event).1[1] == DispatchActionView::Emit(
                SessionEventView::PeerDisconnected,
            ));
        },
        _ => {},
    }
}

/// Once both ends are known, in whichever order, the link is started.
pub proof fn link_starts_when_both_ends_are_known(s: DispatchStateView, info: ConnectInfoView)
    requires
        info.is_supported(),
        s.peer_direct is None,
        !s.direct_started,
    ensures
        ({
            let heard = DispatchEventView::Signal(
                SignalingEnvelopeView::Signal { payload: Some(info) },
            );
            let start = DispatchActionView::StartDirectLink { peer: info };
            &&& s.local_ready ==> s.step(heard).1.last() == start
            &&& !s.local_ready ==> s.step(heard).0.step(DispatchEventView::LocalReady).1 == seq![
                start,
            ]
        }),
{
}

/// The server's words about the peer and the room reach the user interface: a peer that comes is
/// told once and answered by announcing how this end can be reached; one that leaves is told, and
/// all that was found out for it is forgotten; an error is told as it is and changes nothing.
pub proof fn what_the_server_says_is_told(
    s: DispatchStateView,
    envelope: SignalingEnvelopeView,
    message: Seq<char>,
)
    ensures
        ({
            let (after, actions) = s.step(DispatchEventView::Signal(envelope));
            &&& envelope is PeerJoined ==> {
                &&& after == (DispatchStateView { peer_seen: true, connect_info_sent: true, ..s })
                &&& actions == (if s.peer_seen {
                    Seq::<DispatchActionView>::empty()
                } else {
                    seq![DispatchActionView::Emit(SessionEventView::PeerConnected)]
                }) + (if s.connect_info_sent {
                    Seq::<DispatchActionView>::empty()
                } else {
                    seq![DispatchActionView::Announce]
                })
            }
            &&& envelope is PeerLeft ==> {
                &&& after == (DispatchStateView {
                    role: s.role,
                    peer_seen: false,
                    connect_info_sent: false,
                    local_ready: false,
                    peer_direct: None,
                    direct_started: false,
                })
                &&& actions == seq![
                    DispatchActionView::ForgetLocal,
                    DispatchActionView::Emit(SessionEventView::PeerDisconnected),
                ]
            }
            &&& envelope == (SignalingEnvelopeView::Error { message }) ==> after == s && actions
                == seq![DispatchActionView::Emit(SessionEventView::Error(message))]
            &&& envelope is Hello || envelope is Bye ==> after == s && actions.len() == 0
            &&& envelope == (SignalingEnvelopeView::Signal { payload: None }) ==> after == s
                && actions.len() == 0
        }),
{
}

/// When the room is there, its code, if the server names one, is told first and then that the
/// session is connected; a guest announces itself then, once, and a host waits for a guest.
pub proof fn a_room_that_is_ready_is_told(s: DispatchStateView, code: Option<Seq<char>>)
    ensures
        ({
            let (after, actions) = s.step(
                DispatchEventView::Signal(SignalingEnvelopeView::RoomReady { room_code: code }),
            );
            let told = match code {
                Some(c) => seq![
                    DispatchActionView::Emit(SessionEventView::RoomCodeAssigned(c)),
                    DispatchActionView::Emit(SessionEventView::Connected),
                ],
                None => seq![DispatchActionView::Emit(SessionEventView::Connected)],
            };
            let announces = s.role == SignalingRole::Guest && !s.connect_info_sent;
            &&& announces ==> {
                &&& actions == told.push(DispatchActionView::Announce)
                &&& after == (DispatchStateView { connect_info_sent: true, ..s })
            }
            &&& !announces ==> actions == told && after == s
        }),
{
    let (after, actions) = s.step(
        DispatchEventView::Signal(SignalingEnvelopeView::RoomReady { room_code: code }),
    );
    let told = match code {
        Some(c) => seq![
            DispatchActionView::Emit(SessionEventView::RoomCodeAssigned(c)),
            DispatchActionView::Emit(SessionEventView::Connected),
        ],
        None => seq![DispatchActionView::Emit(SessionEventView::Connected)],
    };
    if s.role == SignalingRole::Guest && !s.connect_info_sent {
        assert(actions =~= told.push(DispatchActionView::Announce));
    } else {
        assert(actions =~= told);
    }
}

/// What the peer announces is told and kept. Where it is of another attempt than the one before, by
/// its token or its certificate, this end starts anew: it forgets what it had found out and
/// announces itself again. One that this end cannot read, by its version, is passed over.
pub proof fn an_announcement_of_the_peer_is_kept(s: DispatchStateView, info: ConnectInfoView)
    ensures
        ({
            let (after, actions) = s.step(
                DispatchEventView::Signal(SignalingEnvelopeView::Signal { payload: Some(info) }),
            );
            let again = s.peer_direct matches Some(known) && (known.pairing_token
                != info.pairing_token || known.cert_hash != info.cert_hash);
            let told = DispatchActionView::Emit(SessionEventView::PeerCandidatesReceived(info));
            let starts = !again && s.local_ready && !s.direct_started;
            &&& info.version != 1 ==> after == s && actions.len() == 0
            &&& info.version == 1 ==> {
                &&& after.peer_direct == Some(info)
                &&& after.peer_seen
                &&& after.role == s.role
                &&& actions == (if s.peer_seen {
                    Seq::<DispatchActionView>::empty()
                } else {
                    seq![DispatchActionView::Emit(SessionEventView::PeerConnected)]
                }) + (if again {
                    seq![DispatchActionView::ForgetLocal, told, DispatchActionView::Announce]
                } else if starts {
                    seq![told, DispatchActionView::StartDirectLink { peer: info }]
                } else {
                    seq![told]
                })
                &&& again ==> after.connect_info_sent && !after.local_ready
                    && !after.direct_started
                &&& !again ==> after.connect_info_sent == s.connect_info_sent
                    && after.direct_started == (s.direct_started || starts) && after.local_ready
                    == (s.local_ready && !starts)
            }
        }),
{
    let (after, actions) = s.step(
        DispatchEventView::Signal(SignalingEnvelopeView::Signal { payload: Some(info) }),
    );
    let again = s.peer_direct matches Some(known) && (known.pairing_token != info.pairing_token
        || known.cert_hash != info.cert_hash);
    let told = DispatchActionView::Emit(SessionEventView::PeerCandidatesReceived(info));
    let starts = !again && s.local_ready && !s.direct_started;
    if info.version == 1 {
        assert(actions =~= (if s.peer_seen {
            Seq::<DispatchActionView>::empty()
        } else {
            seq![DispatchActionView::Emit(SessionEventView::PeerConnected)]
        }) + (if again {
            seq![DispatchActionView::ForgetLocal, told, DispatchActionView::Announce]
        } else if starts {
            seq![told, DispatchActionView::StartDirectLink { peer: info }]
        } else {
            seq![told]
        }));
    }
}

/// Another attempt that the user asks for forgets all about the last one, but not that the peer was
/// seen, and announces this end anew. When this end is ready, the link starts if the peer is known
/// and none was started; else it waits. When the session or the server is gone, nothing more is
/// listened for, and that is told.
pub proof fn retries_and_ends_are_carried_out(s: DispatchStateView)
    ensures
        s.step(DispatchEventView::Retry) == (
            DispatchStateView {
                role: s.role,
                peer_seen: s.peer_seen,
                connect_info_sent: true,
                local_ready: false,
                peer_direct: None,
                direct_started: false,
            },
            seq![DispatchActionView::ForgetLocal, DispatchActionView::Announce],
        ),
        ({
            let (after, actions) = s.step(DispatchEventView::LocalReady);
            match s.peer_direct {
                Some(peer) if !s.direct_started => {
                    &&& actions == seq![DispatchActionView::StartDirectLink { peer }]
                    &&& after == (DispatchStateView {
                        direct_started: true,
                        local_ready: false,
                        ..s
                    })
                },
                _ => {
                    &&& actions.len() == 0
                    &&& after == (DispatchStateView { local_ready: true, ..s })
                },
            }
        }),
        s.step(DispatchEventView::Unreadable) == (s, Seq::<DispatchActionView>::empty()),
        s.step(DispatchEventView::SignalingGone) == (
            s,
            seq![
                DispatchActionView::Stop,
                DispatchActionView::Emit(SessionEventView::SignalingClosed),
            ],
        ),
        s.step(DispatchEventView::HandleDropped) == s.step(DispatchEventView::SignalingGone),
{
    assert(s.step(DispatchEventView::Retry).1 =~= seq![
        DispatchActionView::ForgetLocal,
        DispatchActionView::Announce,
    ]);
}

/// A session starts knowing nothing of the peer, and having done nothing.
pub proof fn a_session_starts_with_nothing(role: SignalingRole)
    ensures
        DispatchStateView::start(role) == (DispatchStateView {
            role,
            peer_seen: false,
            connect_info_sent: false,
            local_ready: false,
            peer_direct: None,
            direct_started: false,
        }),
{
}

/// Two ends that hear of each other, each once it is ready, both start a link to the other, whatever
/// comes first at either end.
pub proof fn two_ends_that_meet_link_up(
    host: DispatchStateView,
    guest: DispatchStateView,
    of_host: ConnectInfoView,
    of_guest: ConnectInfoView,
)
    requires
        host == DispatchStateView::start(SignalingRole::Host),
        guest == DispatchStateView::start(SignalingRole::Guest),
        of_host.version == 1,
        of_guest.version == 1,
    ensures
        ({
            let hears = |info: ConnectInfoView|
                DispatchEventView::Signal(SignalingEnvelopeView::Signal { payload: Some(info) });
            let ready = DispatchEventView::LocalReady;
            &&& host.step(hears(of_guest)).0.step(ready).1.contains(
                DispatchActionView::StartDirectLink { peer: of_guest },
            )
            &&& host.step(ready).0.step(hears(of_guest)).1.contains(
                DispatchActionView::StartDirectLink { peer: of_guest },
            )
            &&& guest.step(hears(of_host)).0.step(ready).1.contains(
                DispatchActionView::StartDirectLink { peer: of_host },
            )
            &&& guest.step(ready).0.step(hears(of_host)).1.contains(
                DispatchActionView::StartDirectLink { peer: of_host },
            )
        }),
{
    let hears = |info: ConnectInfoView|
        DispatchEventView::Signal(SignalingEnvelopeView::Signal { payload: Some(info) });
    let ready = DispatchEventView::LocalReady;
    assert(host.step(hears(of_guest)).0.step(ready).1[0] == (DispatchActionView::StartDirectLink {
        peer: of_guest,
    }));
    assert(host.step(ready).0.step(hears(of_guest)).1[2] == (DispatchActionView::StartDirectLink {
        peer: of_guest,
    }));
    assert(guest.step(hears(of_host)).0.step(ready).1[0] == (DispatchActionView::StartDirectLink {
        peer: of_host,
    }));
    assert(guest.step(ready).0.step(hears(of_host)).1[2] == (DispatchActionView::StartDirectLink {
        peer: of_host,
    }));
}

/// What goes wrong while this end announces itself is told apart by where it does.
pub proof fn stages_of_an_announcement_are_told_apart(a: AnnounceStage, b: AnnounceStage)
    ensures
        a.words() == b.words() <==> a == b,
{
    reveal_strlit("候选收集失败：");
    reveal_strlit("候选信息序列化失败：");
    reveal_strlit("候选信令序列化失败：");
    reveal_strlit("发送候选信息失败：");
    assert("候选收集失败："@.len() == 7);
    assert("候选信息序列化失败："@.len() == 10);
    assert("候选信令序列化失败："@.len() == 10);
    assert("发送候选信息失败："@.len() == 9);
    assert("候选信息序列化失败："@[3] != "候选信令序列化失败："@[3]);
}

}
