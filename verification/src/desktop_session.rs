//! The two ends of a shared desktop: who offers, who watches, who may control.
use crate::remote_desktop::{
    DesktopError, RemoteDesktopConfig, RemoteDesktopControl, RemoteDesktopControlView,
    RemoteDesktopEvent, RemoteDesktopEventView, RemoteDesktopFrame, RemoteDesktopFrameHeader,
    RemoteDesktopFrameHeaderView, RemoteDesktopFrameView, RemoteDesktopOffer,
    RemoteDesktopOfferView, RemoteDesktopPlatform, RemoteDesktopState, RemoteDesktopStateView,
    RemoteDisplay, RemoteDisplayView, RemoteInputEvent, RemoteInputEventView,
};
use crate::{random, remote_desktop, text};
use vstd::prelude::*;

verus! {

/// Why a request about a shared desktop is refused.
#[derive(Debug, Clone, Copy, PartialEq, Eq, Structural)]
pub enum DesktopRefusal {
    Invalid(DesktopError),
    PeerUnsupported,
    OfferInvalid,
    AlreadyActive,
    NothingPending,
    SessionMismatch,
    NotSharing,
    NotAuthorized,
    FrameOfOtherSession,
    PlatformUnsupported,
}

impl DesktopRefusal {
    /// The refusal in words.
    pub open spec fn words(self) -> Seq<char> {
        match self {
            DesktopRefusal::Invalid(e) => e.words(),
            DesktopRefusal::PeerUnsupported => "对端客户端不支持远程桌面"@,
            DesktopRefusal::OfferInvalid => "远程桌面共享参数无效"@,
            DesktopRefusal::AlreadyActive => "已有远程桌面会话"@,
            DesktopRefusal::NothingPending => "没有待处理的远程桌面请求"@,
            DesktopRefusal::SessionMismatch => "远程桌面会话 ID 不匹配"@,
            DesktopRefusal::NotSharing => "当前未共享该远程桌面会话"@,
            DesktopRefusal::NotAuthorized => "远程控制未获授权"@,
            DesktopRefusal::FrameOfOtherSession => "收到非活动会话的远程桌面帧"@,
            DesktopRefusal::PlatformUnsupported => "当前平台不支持远程桌面"@,
        }
    }

    /// The refusal in words.
    pub fn message(&self) -> (r: String)
        ensures
            r@ == self.words(),
    {
        match self {
            DesktopRefusal::Invalid(e) => e.message(),
            DesktopRefusal::PeerUnsupported => "对端客户端不支持远程桌面".to_owned(),
            DesktopRefusal::OfferInvalid => "远程桌面共享参数无效".to_owned(),
            DesktopRefusal::AlreadyActive => "已有远程桌面会话".to_owned(),
            DesktopRefusal::NothingPending => "没有待处理的远程桌面请求".to_owned(),
            DesktopRefusal::SessionMismatch => "远程桌面会话 ID 不匹配".to_owned(),
            DesktopRefusal::NotSharing => "当前未共享该远程桌面会话".to_owned(),
            DesktopRefusal::NotAuthorized => "远程控制未获授权".to_owned(),
            DesktopRefusal::FrameOfOtherSession => "收到非活动会话的远程桌面帧".to_owned(),
            DesktopRefusal::PlatformUnsupported => "当前平台不支持远程桌面".to_owned(),
        }
    }
}

/// What follows on a step: a message to the peer, an event for the user interface, or an event that
/// may be dropped where the user interface lags behind.
#[derive(Debug, PartialEq, Eq)]
pub enum DesktopAction {
    Send(RemoteDesktopControl),
    Emit(RemoteDesktopEvent),
    TryEmit(RemoteDesktopEvent),
}

#[verifier::ext_equal]
pub enum DesktopActionView {
    Send(RemoteDesktopControlView),
    Emit(RemoteDesktopEventView),
    TryEmit(RemoteDesktopEventView),
}

impl View for DesktopAction {
    type V = DesktopActionView;

    open spec fn view(&self) -> DesktopActionView {
        match self {
            DesktopAction::Send(a) => DesktopActionView::Send(a@),
            DesktopAction::Emit(a) => DesktopActionView::Emit(a@),
            DesktopAction::TryEmit(a) => DesktopActionView::TryEmit(a@),
        }
    }
}

/// Where the shared desktop of a link stands.
#[derive(Debug)]
pub struct RemoteDesktopRuntimeState {
    pub state: RemoteDesktopState,
    pub last_input_sequence: u64,
    pub last_frame_id: u64,
}

#[verifier::ext_equal]
pub struct RemoteDesktopRuntimeStateView {
    pub state: RemoteDesktopStateView,
    pub last_input_sequence: u64,
    pub last_frame_id: u64,
}

impl View for RemoteDesktopRuntimeState {
    type V = RemoteDesktopRuntimeStateView;

    open spec fn view(&self) -> RemoteDesktopRuntimeStateView {
        RemoteDesktopRuntimeStateView {
            state: self.state@,
            last_input_sequence: self.last_input_sequence,
            last_frame_id: self.last_frame_id,
        }
    }
}

pub open spec fn action_views(actions: Seq<DesktopAction>) -> Seq<DesktopActionView> {
    actions.map_values(|a: DesktopAction| a@)
}

/// What a step returns: its actions, or why it was refused.
pub open spec fn step_result(r: Result<Vec<DesktopAction>, DesktopRefusal>) -> Result<
    Seq<DesktopActionView>,
    DesktopRefusal,
> {
    match r {
        Ok(actions) => Ok(action_views(actions@)),
        Err(e) => Err(e),
    }
}

/// Held-down keys and buttons are let go.
pub open spec fn release_all() -> DesktopActionView {
    DesktopActionView::Emit(RemoteDesktopEventView::Input(RemoteInputEventView::ReleaseAll))
}

pub open spec fn state_changed(state: RemoteDesktopStateView) -> DesktopActionView {
    DesktopActionView::Emit(RemoteDesktopEventView::StateChanged(state))
}

impl RemoteDesktopStateView {
    /// The session that the state is about.
    pub open spec fn session(self) -> Option<Seq<char>> {
        match self {
            RemoteDesktopStateView::Idle => None,
            RemoteDesktopStateView::OutgoingPending(offer) => Some(offer.session_id),
            RemoteDesktopStateView::IncomingPending(offer) => Some(offer.session_id),
            RemoteDesktopStateView::Sharing { session_id, .. } => Some(session_id),
            RemoteDesktopStateView::Viewing { session_id, .. } => Some(session_id),
        }
    }

    /// Is this end showing its own desktop in the session?
    pub open spec fn shares(self, id: Seq<char>) -> bool {
        self is Sharing && self->Sharing_session_id == id
    }

    /// Is this end watching the peer's desktop in the session?
    pub open spec fn views(self, id: Seq<char>) -> bool {
        self is Viewing && self->Viewing_session_id == id
    }
}

/// Nothing, or what is wrong with an offer.
pub open spec fn offer_refusal(offer: RemoteDesktopOfferView) -> Option<DesktopRefusal> {
    if offer.config.checked() is Err {
        Some(DesktopRefusal::Invalid(offer.config.checked()->Err_0))
    } else if offer.session_id.len() == 0 || offer.display.width == 0 || offer.display.height
        == 0 {
        Some(DesktopRefusal::OfferInvalid)
    } else {
        None
    }
}

type Step = (RemoteDesktopRuntimeStateView, Result<Seq<DesktopActionView>, DesktopRefusal>);

impl RemoteDesktopRuntimeStateView {
    /// No desktop is shared and none was.
    pub open spec fn idle() -> Self {
        RemoteDesktopRuntimeStateView {
            state: RemoteDesktopStateView::Idle,
            last_input_sequence: 0,
            last_frame_id: 0,
        }
    }

    /// The same with another state, in which frames are counted anew.
    pub open spec fn enter(self, state: RemoteDesktopStateView) -> Self {
        RemoteDesktopRuntimeStateView { state, last_frame_id: 0, ..self }
    }

    /// This end offers its desktop.
    pub open spec fn offer(self, offer: RemoteDesktopOfferView, peer_supported: bool) -> Step {
        if !peer_supported {
            (self, Err(DesktopRefusal::PeerUnsupported))
        } else if offer_refusal(offer) is Some {
            (self, Err(offer_refusal(offer)->0))
        } else if !(self.state is Idle) {
            (self, Err(DesktopRefusal::AlreadyActive))
        } else {
            let next = RemoteDesktopStateView::OutgoingPending(offer);
            (
                self.enter(next),
                Ok(
                    seq![
                        DesktopActionView::Send(RemoteDesktopControlView::Offer { offer }),
                        state_changed(next),
                    ],
                ),
            )
        }
    }

    /// This end answers the offer of its peer.
    pub open spec fn answer(self, id: Seq<char>, accepted: bool, reason: Option<Seq<char>>) -> Step {
        match self.state {
            RemoteDesktopStateView::IncomingPending(offer) => {
                if offer.session_id != id {
                    (self, Err(DesktopRefusal::SessionMismatch))
                } else {
                    let next = if accepted {
                        RemoteDesktopStateView::Viewing {
                            session_id: id,
                            can_control: offer.allow_control,
                        }
                    } else {
                        RemoteDesktopStateView::Idle
                    };
                    (
                        self.enter(next),
                        Ok(
                            seq![
                                DesktopActionView::Send(
                                    RemoteDesktopControlView::Answer {
                                        session_id: id,
                                        accepted,
                                        reason,
                                    },
                                ),
                                state_changed(next),
                            ],
                        ),
                    )
                }
            },
            _ => (self, Err(DesktopRefusal::NothingPending)),
        }
    }

    /// This end, which shows its desktop, lets the peer control it or no longer does.
    pub open spec fn set_permission(self, id: Seq<char>, allow_control: bool) -> Step {
        if !self.state.shares(id) {
            (self, Err(DesktopRefusal::NotSharing))
        } else {
            let next = RemoteDesktopStateView::Sharing { session_id: id, allow_control };
            let send = DesktopActionView::Send(
                RemoteDesktopControlView::Permission { session_id: id, allow_control },
            );
            (
                RemoteDesktopRuntimeStateView { state: next, ..self },
                Ok(
                    if allow_control {
                        seq![send, state_changed(next)]
                    } else {
                        seq![send, release_all(), state_changed(next)]
                    },
                ),
            )
        }
    }

    /// What the user interface sees when the session ends.
    pub open spec fn ending(self) -> Seq<DesktopActionView> {
        if self.state is Sharing {
            seq![release_all(), state_changed(RemoteDesktopStateView::Idle)]
        } else {
            seq![state_changed(RemoteDesktopStateView::Idle)]
        }
    }

    /// This end ends the session.
    pub open spec fn stop(self, id: Seq<char>, reason: Seq<char>) -> Step {
        if self.state.session() != Some(id) {
            (self, Err(DesktopRefusal::SessionMismatch))
        } else {
            (
                Self::idle(),
                Ok(
                    seq![
                        DesktopActionView::Send(
                            RemoteDesktopControlView::Stop { session_id: id, reason },
                        ),
                    ] + self.ending(),
                ),
            )
        }
    }

    /// This end, which watches, sends mouse or keyboard input.
    pub open spec fn send_input(
        self,
        id: Seq<char>,
        sequence: u64,
        event: RemoteInputEventView,
    ) -> Result<Seq<DesktopActionView>, DesktopRefusal> {
        if event.checked() is Err {
            Err(DesktopRefusal::Invalid(event.checked()->Err_0))
        } else if !(self.state.views(id) && self.state->can_control) {
            Err(DesktopRefusal::NotAuthorized)
        } else {
            Ok(
                seq![
                    DesktopActionView::Send(
                        RemoteDesktopControlView::Input { session_id: id, sequence, event },
                    ),
                ],
            )
        }
    }

    /// The peer offers its desktop. Where both offer at once, the smaller session identifier wins.
    pub open spec fn hear_offer(self, offer: RemoteDesktopOfferView) -> Step {
        let next = RemoteDesktopStateView::IncomingPending(offer);
        let told = seq![
            DesktopActionView::Emit(RemoteDesktopEventView::IncomingOffer(offer)),
            state_changed(next),
        ];
        if offer_refusal(offer) is Some {
            (self, Err(offer_refusal(offer)->0))
        } else {
            match self.state {
                RemoteDesktopStateView::Idle => (self.enter(next), Ok(told)),
                RemoteDesktopStateView::OutgoingPending(local) if text::text_before(
                    offer.session_id,
                    local.session_id,
                ) => (
                    self.enter(next),
                    Ok(
                        seq![
                            DesktopActionView::Send(
                                RemoteDesktopControlView::Stop {
                                    session_id: local.session_id,
                                    reason: "同时发起共享，已选择较小会话 ID"@,
                                },
                            ),
                        ] + told,
                    ),
                ),
                _ => (
                    self,
                    Ok(
                        seq![
                            DesktopActionView::Send(
                                RemoteDesktopControlView::Answer {
                                    session_id: offer.session_id,
                                    accepted: false,
                                    reason: Some("已有远程桌面会话"@),
                                },
                            ),
                        ],
                    ),
                ),
            }
        }
    }

    /// The peer answers this end's offer. An answer to anything else is ignored.
    pub open spec fn hear_answer(
        self,
        id: Seq<char>,
        accepted: bool,
        reason: Option<Seq<char>>,
    ) -> Step {
        match self.state {
            RemoteDesktopStateView::OutgoingPending(offer) if offer.session_id == id => {
                if accepted {
                    let next = RemoteDesktopStateView::Sharing {
                        session_id: id,
                        allow_control: offer.allow_control,
                    };
                    (
                        self.enter(next),
                        Ok(
                            seq![
                                state_changed(next),
                                DesktopActionView::Emit(
                                    RemoteDesktopEventView::SharingStarted(offer),
                                ),
                            ],
                        ),
                    )
                } else {
                    let next = RemoteDesktopStateView::Idle;
                    let message = match reason {
                        Some(r) => r,
                        None => "对方拒绝观看共享屏幕"@,
                    };
                    (
                        self.enter(next),
                        Ok(
                            seq![
                                state_changed(next),
                                DesktopActionView::Emit(
                                    RemoteDesktopEventView::Error { session_id: Some(id), message },
                                ),
                            ],
                        ),
                    )
                }
            },
            _ => (self, Ok(Seq::empty())),
        }
    }

    /// The peer lets this end, which watches, control or no longer does.
    pub open spec fn hear_permission(self, id: Seq<char>, allow_control: bool) -> Step {
        if !self.state.views(id) {
            (self, Ok(Seq::empty()))
        } else {
            let next = RemoteDesktopStateView::Viewing { session_id: id, can_control: allow_control };
            (
                RemoteDesktopRuntimeStateView { state: next, ..self },
                Ok(seq![state_changed(next)]),
            )
        }
    }

    /// The peer ends the session.
    pub open spec fn hear_stop(self, id: Seq<char>) -> Step {
        if self.state.session() != Some(id) {
            (self, Ok(Seq::empty()))
        } else {
            (Self::idle(), Ok(self.ending()))
        }
    }

    /// May input with this number in this session be carried out?
    pub open spec fn admits_input(self, id: Seq<char>, sequence: u64) -> bool {
        self.state.shares(id) && self.state->Sharing_allow_control && sequence
            > self.last_input_sequence
    }

    /// The peer sends mouse or keyboard input. It is carried out only while control is allowed,
    /// and no input twice.
    pub open spec fn hear_input(
        self,
        id: Seq<char>,
        sequence: u64,
        event: RemoteInputEventView,
    ) -> Step {
        if event.checked() is Err {
            (self, Err(DesktopRefusal::Invalid(event.checked()->Err_0)))
        } else if !self.admits_input(id, sequence) {
            (self, Ok(Seq::empty()))
        } else {
            let input = RemoteDesktopEventView::Input(event);
            (
                RemoteDesktopRuntimeStateView { last_input_sequence: sequence, ..self },
                Ok(
                    seq![
                        if event is PointerMove {
                            DesktopActionView::TryEmit(input)
                        } else {
                            DesktopActionView::Emit(input)
                        },
                    ],
                ),
            )
        }
    }

    /// The peer asks for a whole picture.
    pub open spec fn hear_keyframe_request(self, id: Seq<char>) -> Step {
        if self.state.shares(id) {
            (
                self,
                Ok(seq![DesktopActionView::Emit(RemoteDesktopEventView::KeyframeRequested(id))]),
            )
        } else {
            (self, Ok(Seq::empty()))
        }
    }

    /// A message from the peer.
    pub open spec fn hear(self, message: RemoteDesktopControlView) -> Step {
        match message {
            RemoteDesktopControlView::Offer { offer } => self.hear_offer(offer),
            RemoteDesktopControlView::Answer { session_id, accepted, reason } => self.hear_answer(
                session_id,
                accepted,
                reason,
            ),
            RemoteDesktopControlView::Permission { session_id, allow_control } =>
                self.hear_permission(session_id, allow_control),
            RemoteDesktopControlView::Stop { session_id, .. } => self.hear_stop(session_id),
            RemoteDesktopControlView::Input { session_id, sequence, event } => self.hear_input(
                session_id,
                sequence,
                event,
            ),
            RemoteDesktopControlView::KeyframeRequest { session_id } => self.hear_keyframe_request(
                session_id,
            ),
        }
    }

    /// The header of a frame has come: how long its payload is, nothing where the frame is not
    /// newer than the last one.
    pub open spec fn admit_frame(self, header: RemoteDesktopFrameHeaderView) -> (
        RemoteDesktopRuntimeStateView,
        Result<Option<int>, DesktopRefusal>,
    ) {
        match header.checked() {
            Err(e) => (self, Err(DesktopRefusal::Invalid(e))),
            Ok(n) => {
                if !self.state.views(header.session_id) {
                    (self, Err(DesktopRefusal::FrameOfOtherSession))
                } else if header.frame_id <= self.last_frame_id {
                    (self, Ok(None))
                } else {
                    (
                        RemoteDesktopRuntimeStateView { last_frame_id: header.frame_id, ..self },
                        Ok(Some(n)),
                    )
                }
            },
        }
    }

    /// The link is gone.
    pub open spec fn tear_down(self) -> (RemoteDesktopRuntimeStateView, Seq<DesktopActionView>) {
        (
            RemoteDesktopRuntimeStateView { state: RemoteDesktopStateView::Idle, ..self },
            if self.state is Idle {
                Seq::empty()
            } else {
                self.ending()
            },
        )
    }
}

/// The session that a state is about.
pub fn remote_state_session_id(state: &RemoteDesktopState) -> (r: Option<&str>)
    ensures
        state@.session() == match r {
            Some(id) => Some(id@),
            None => None,
        },
{
    match state {
        RemoteDesktopState::Idle => None,
        RemoteDesktopState::OutgoingPending(offer) => Some(offer.session_id.as_str()),
        RemoteDesktopState::IncomingPending(offer) => Some(offer.session_id.as_str()),
        RemoteDesktopState::Sharing { session_id, .. } => Some(session_id.as_str()),
        RemoteDesktopState::Viewing { session_id, .. } => Some(session_id.as_str()),
    }
}

fn check_offer(offer: &RemoteDesktopOffer) -> (r: Option<DesktopRefusal>)
    ensures
        r == offer_refusal(offer@),
{
    match offer.config.validate() {
        Err(e) => {
            return Some(DesktopRefusal::Invalid(e));
        },
        Ok(_) => {},
    }
    if offer.session_id.as_str().is_empty() || offer.display.width == 0 || offer.display.height
        == 0 {
        return Some(DesktopRefusal::OfferInvalid);
    }
    None
}

/// The offer of a display under this session; nothing where its measures are not valid or the
/// platform cannot share its desktop.
pub open spec fn made_offer(
    session_id: Seq<char>,
    display: RemoteDisplayView,
    config: RemoteDesktopConfig,
    allow_control: bool,
    target_os: Seq<char>,
) -> Option<RemoteDesktopOfferView> {
    match (config.checked(), remote_desktop::platform_of(target_os)) {
        (Ok(_), Some(platform)) => Some(
            RemoteDesktopOfferView { session_id, platform, display, config, allow_control },
        ),
        _ => None,
    }
}

/// An offer to share a display under this identifier.
pub fn offer_under(
    session_id: String,
    display: RemoteDisplay,
    config: RemoteDesktopConfig,
    allow_control: bool,
    target_os: &str,
) -> (r: Result<RemoteDesktopOffer, DesktopRefusal>)
    ensures
        match r {
            Ok(offer) => {
                &&& config.checked() is Ok
                &&& target_os@ == "windows"@ || target_os@ == "macos"@
                &&& offer@ == (RemoteDesktopOfferView {
                    session_id: session_id@,
                    platform: if target_os@ == "windows"@ {
                        RemoteDesktopPlatform::Windows
                    } else {
                        RemoteDesktopPlatform::Macos
                    },
                    display: display@,
                    config,
                    allow_control,
                })
            },
            Err(DesktopRefusal::Invalid(e)) => config.checked()
                == Err::<RemoteDesktopConfig, DesktopError>(e),
            Err(e) => {
                &&& config.checked() is Ok
                &&& target_os@ != "windows"@ && target_os@ != "macos"@
                &&& e == DesktopRefusal::PlatformUnsupported
            },
        },
        made_offer(session_id@, display@, config, allow_control, target_os@) == match r {
            Ok(offer) => Some(offer@),
            Err(_) => None,
        },
{
    match config.validate() {
        Err(e) => {
            return Err(DesktopRefusal::Invalid(e));
        },
        Ok(_) => {},
    }
    match RemoteDesktopPlatform::current(target_os) {
        Some(platform) => Ok(
            RemoteDesktopOffer { session_id, platform, display, config, allow_control },
        ),
        None => Err(DesktopRefusal::PlatformUnsupported),
    }
}

/// An offer to share a display, under a fresh identifier.
pub fn new_offer(
    display: RemoteDisplay,
    config: RemoteDesktopConfig,
    allow_control: bool,
    target_os: &str,
) -> (r: Result<RemoteDesktopOffer, DesktopRefusal>)
    ensures
        r is Ok <==> config.checked() is Ok && (target_os@ == "windows"@ || target_os@
            == "macos"@),
        r matches Ok(offer) ==> {
            &&& random::is_random_id(offer@.session_id)
            &&& offer@.display == display@
            &&& offer@.config == config
            &&& offer@.allow_control == allow_control
            &&& offer@.platform == if target_os@ == "windows"@ {
                RemoteDesktopPlatform::Windows
            } else {
                RemoteDesktopPlatform::Macos
            }
        },
        r matches Err(e) ==> e == match config.checked() {
            Err(c) => DesktopRefusal::Invalid(c),
            Ok(_) => DesktopRefusal::PlatformUnsupported,
        },
        r matches Ok(offer) ==> made_offer(
            offer@.session_id,
            display@,
            config,
            allow_control,
            target_os@,
        ) == Some(offer@),
{
    offer_under(random::random_id(), display, config, allow_control, target_os)
}

impl Default for RemoteDesktopRuntimeState {
    fn default() -> (r: Self)
        ensures
            r@ == RemoteDesktopRuntimeStateView::idle(),
    {
        RemoteDesktopRuntimeState {
            state: RemoteDesktopState::Idle,
            last_input_sequence: 0,
            last_frame_id: 0,
        }
    }
}

fn released() -> (r: DesktopAction)
    ensures
        r@ == release_all(),
{
    DesktopAction::Emit(RemoteDesktopEvent::Input(RemoteInputEvent::ReleaseAll))
}

fn changed(state: RemoteDesktopState) -> (r: DesktopAction)
    ensures
        r@ == state_changed(state@),
{
    DesktopAction::Emit(RemoteDesktopEvent::StateChanged(state))
}

fn one(a: DesktopAction) -> (r: Vec<DesktopAction>)
    ensures
        action_views(r@) == seq![a@],
{
    let mut r: Vec<DesktopAction> = Vec::new();
    r.push(a);
    assert(action_views(r@) =~= seq![a@]);
    r
}

fn two(a: DesktopAction, b: DesktopAction) -> (r: Vec<DesktopAction>)
    ensures
        action_views(r@) == seq![a@, b@],
{
    let mut r: Vec<DesktopAction> = Vec::new();
    r.push(a);
    r.push(b);
    assert(action_views(r@) =~= seq![a@, b@]);
    r
}

fn three(a: DesktopAction, b: DesktopAction, c: DesktopAction) -> (r: Vec<DesktopAction>)
    ensures
        action_views(r@) == seq![a@, b@, c@],
{
    let mut r: Vec<DesktopAction> = Vec::new();
    r.push(a);
    r.push(b);
    r.push(c);
    assert(action_views(r@) =~= seq![a@, b@, c@]);
    r
}

fn nothing() -> (r: Vec<DesktopAction>)
    ensures
        action_views(r@) == Seq::<DesktopActionView>::empty(),
{
    let r: Vec<DesktopAction> = Vec::new();
    assert(action_views(r@) =~= Seq::<DesktopActionView>::empty());
    r
}

impl RemoteDesktopRuntimeState {
    pub fn offer(&mut self, offer: RemoteDesktopOffer, peer_supported: bool) -> (r: Result<
        Vec<DesktopAction>,
        DesktopRefusal,
    >)
        ensures
            (final(self)@, step_result(r)) == old(self)@.offer(offer@, peer_supported),
    {
        if !peer_supported {
            return Err(DesktopRefusal::PeerUnsupported);
        }
        if let Some(e) = check_offer(&offer) {
            return Err(e);
        }
        match self.state {
            RemoteDesktopState::Idle => {},
            _ => {
                return Err(DesktopRefusal::AlreadyActive);
            },
        }
        let next = RemoteDesktopState::OutgoingPending(offer.clone());
        self.state = next.clone();
        self.last_frame_id = 0;
        Ok(two(DesktopAction::Send(RemoteDesktopControl::Offer { offer }), changed(next)))
    }

    pub fn answer(&mut self, session_id: String, accepted: bool, reason: Option<String>) -> (r: Result<
        Vec<DesktopAction>,
        DesktopRefusal,
    >)
        ensures
            (final(self)@, step_result(r)) == old(self)@.answer(
                session_id@,
                accepted,
                text::opt_text(reason),
            ),
    {
        let allow_control = match &self.state {
            RemoteDesktopState::IncomingPending(offer) => {
                if !text::same_text(offer.session_id.as_str(), session_id.as_str()) {
                    return Err(DesktopRefusal::SessionMismatch);
                }
                offer.allow_control
            },
            _ => {
                return Err(DesktopRefusal::NothingPending);
            },
        };
        let next = if accepted {
            RemoteDesktopState::Viewing {
                session_id: session_id.clone(),
                can_control: allow_control,
            }
        } else {
            RemoteDesktopState::Idle
        };
        self.state = next.clone();
        self.last_frame_id = 0;
        Ok(
            two(
                DesktopAction::Send(
                    RemoteDesktopControl::Answer { session_id, accepted, reason },
                ),
                changed(next),
            ),
        )
    }

    /// Is this end showing its desktop in the session?
    pub fn is_sharing(&self, id: &str) -> (r: bool)
        ensures
            r == self@.state.shares(id@),
    {
        match &self.state {
            RemoteDesktopState::Sharing { session_id, .. } => text::same_text(
                session_id.as_str(),
                id,
            ),
            _ => false,
        }
    }

    /// Is this end watching in the session?
    pub fn is_viewing(&self, id: &str) -> (r: bool)
        ensures
            r == self@.state.views(id@),
    {
        match &self.state {
            RemoteDesktopState::Viewing { session_id, .. } => text::same_text(
                session_id.as_str(),
                id,
            ),
            _ => false,
        }
    }

    pub fn set_permission(&mut self, session_id: String, allow_control: bool) -> (r: Result<
        Vec<DesktopAction>,
        DesktopRefusal,
    >)
        ensures
            (final(self)@, step_result(r)) == old(self)@.set_permission(session_id@, allow_control),
    {
        if !self.is_sharing(session_id.as_str()) {
            return Err(DesktopRefusal::NotSharing);
        }
        let next = RemoteDesktopState::Sharing { session_id: session_id.clone(), allow_control };
        self.state = next.clone();
        let send = DesktopAction::Send(
            RemoteDesktopControl::Permission { session_id, allow_control },
        );
        if allow_control {
            Ok(two(send, changed(next)))
        } else {
            Ok(three(send, released(), changed(next)))
        }
    }

    fn ended(&self) -> (r: Vec<DesktopAction>)
        ensures
            action_views(r@) == self@.ending(),
    {
        match self.state {
            RemoteDesktopState::Sharing { .. } => two(released(), changed(RemoteDesktopState::Idle)),
            _ => one(changed(RemoteDesktopState::Idle)),
        }
    }

    fn has_session(&self, id: &str) -> (r: bool)
        ensures
            r == (self@.state.session() == Some(id@)),
    {
        match remote_state_session_id(&self.state) {
            Some(active) => text::same_text(active, id),
            None => false,
        }
    }

    pub fn stop(&mut self, session_id: String, reason: String) -> (r: Result<
        Vec<DesktopAction>,
        DesktopRefusal,
    >)
        ensures
            (final(self)@, step_result(r)) == old(self)@.stop(session_id@, reason@),
    {
        if !self.has_session(session_id.as_str()) {
            return Err(DesktopRefusal::SessionMismatch);
        }
        let mut rest = self.ended();
        let mut actions = one(
            DesktopAction::Send(RemoteDesktopControl::Stop { session_id, reason }),
        );
        let ghost first = action_views(actions@);
        let ghost second = action_views(rest@);
        actions.append(&mut rest);
        assert(action_views(actions@) =~= first + second);
        self.last_frame_id = 0;
        self.last_input_sequence = 0;
        self.state = RemoteDesktopState::Idle;
        Ok(actions)
    }

    pub fn send_input(&self, session_id: String, sequence: u64, event: RemoteInputEvent) -> (r: Result<
        Vec<DesktopAction>,
        DesktopRefusal,
    >)
        ensures
            step_result(r) == self@.send_input(session_id@, sequence, event@),
    {
        match event.validate() {
            Err(e) => {
                return Err(DesktopRefusal::Invalid(e));
            },
            Ok(_) => {},
        }
        let allowed = match &self.state {
            RemoteDesktopState::Viewing { session_id: active, can_control } => *can_control
                && text::same_text(active.as_str(), session_id.as_str()),
            _ => false,
        };
        if !allowed {
            return Err(DesktopRefusal::NotAuthorized);
        }
        Ok(
            one(
                DesktopAction::Send(
                    RemoteDesktopControl::Input { session_id, sequence, event },
                ),
            ),
        )
    }

    fn hear_offer(&mut self, offer: RemoteDesktopOffer) -> (r: Result<
        Vec<DesktopAction>,
        DesktopRefusal,
    >)
        ensures
            (final(self)@, step_result(r)) == old(self)@.hear_offer(offer@),
    {
        if let Some(e) = check_offer(&offer) {
            return Err(e);
        }
        let given_up = match &self.state {
            RemoteDesktopState::Idle => None,
            RemoteDesktopState::OutgoingPending(local) => {
                if text::comes_before(offer.session_id.as_str(), local.session_id.as_str()) {
                    Some(local.session_id.clone())
                } else {
                    return Ok(one(busy(offer.session_id)));
                }
            },
            _ => {
                return Ok(one(busy(offer.session_id)));
            },
        };
        let next = RemoteDesktopState::IncomingPending(offer.clone());
        self.state = next.clone();
        self.last_frame_id = 0;
        let told = DesktopAction::Emit(RemoteDesktopEvent::IncomingOffer(offer));
        match given_up {
            None => Ok(two(told, changed(next))),
            Some(session_id) => {
                let ghost views = seq![told@, state_changed(next@)];
                let stop = DesktopAction::Send(
                    RemoteDesktopControl::Stop {
                        session_id,
                        reason: "同时发起共享，已选择较小会话 ID".to_owned(),
                    },
                );
                let ghost first = stop@;
                let r = three(stop, told, changed(next));
                assert(action_views(r@) =~= seq![first] + views);
                Ok(r)
            },
        }
    }

    fn hear_answer(&mut self, session_id: String, accepted: bool, reason: Option<String>) -> (r: Result<
        Vec<DesktopAction>,
        DesktopRefusal,
    >)
        ensures
            (final(self)@, step_result(r)) == old(self)@.hear_answer(
                session_id@,
                accepted,
                text::opt_text(reason),
            ),
    {
        let offer = match &self.state {
            RemoteDesktopState::OutgoingPending(offer) => {
                if !text::same_text(offer.session_id.as_str(), session_id.as_str()) {
                    return Ok(nothing());
                }
                offer.clone()
            },
            _ => {
                return Ok(nothing());
            },
        };
        self.last_frame_id = 0;
        if accepted {
            let next = RemoteDesktopState::Sharing {
                session_id,
                allow_control: offer.allow_control,
            };
            self.state = next.clone();
            Ok(two(changed(next), DesktopAction::Emit(RemoteDesktopEvent::SharingStarted(offer))))
        } else {
            self.state = RemoteDesktopState::Idle;
            let message = match reason {
                Some(reason) => reason,
                None => "对方拒绝观看共享屏幕".to_owned(),
            };
            Ok(
                two(
                    changed(RemoteDesktopState::Idle),
                    DesktopAction::Emit(
                        RemoteDesktopEvent::Error { session_id: Some(session_id), message },
                    ),
                ),
            )
        }
    }

    fn hear_input(&mut self, session_id: String, sequence: u64, event: RemoteInputEvent) -> (r: Result<
        Vec<DesktopAction>,
        DesktopRefusal,
    >)
        ensures
            (final(self)@, step_result(r)) == old(self)@.hear_input(session_id@, sequence, event@),
    {
        match event.validate() {
            Err(e) => {
                return Err(DesktopRefusal::Invalid(e));
            },
            Ok(_) => {},
        }
        let allowed = match &self.state {
            RemoteDesktopState::Sharing { session_id: active, allow_control } => *allow_control
                && text::same_text(active.as_str(), session_id.as_str()),
            _ => false,
        };
        if !(allowed && sequence > self.last_input_sequence) {
            return Ok(nothing());
        }
        self.last_input_sequence = sequence;
        let droppable = match &event {
            RemoteInputEvent::PointerMove { .. } => true,
            _ => false,
        };
        let input = RemoteDesktopEvent::Input(event);
        if droppable {
            Ok(one(DesktopAction::TryEmit(input)))
        } else {
            Ok(one(DesktopAction::Emit(input)))
        }
    }

    /// A message from the peer.
    pub fn handle_remote_desktop_control(&mut self, message: RemoteDesktopControl) -> (r: Result<
        Vec<DesktopAction>,
        DesktopRefusal,
    >)
        ensures
            (final(self)@, step_result(r)) == old(self)@.hear(message@),
    {
        match message {
            RemoteDesktopControl::Offer { offer } => self.hear_offer(offer),
            RemoteDesktopControl::Answer { session_id, accepted, reason } => self.hear_answer(
                session_id,
                accepted,
                reason,
            ),
            RemoteDesktopControl::Permission { session_id, allow_control } => {
                if !self.is_viewing(session_id.as_str()) {
                    return Ok(nothing());
                }
                let next = RemoteDesktopState::Viewing { session_id, can_control: allow_control };
                self.state = next.clone();
                Ok(one(changed(next)))
            },
            RemoteDesktopControl::Stop { session_id, .. } => {
                if !self.has_session(session_id.as_str()) {
                    return Ok(nothing());
                }
                let actions = self.ended();
                self.last_frame_id = 0;
                self.last_input_sequence = 0;
                self.state = RemoteDesktopState::Idle;
                Ok(actions)
            },
            RemoteDesktopControl::Input { session_id, sequence, event } => self.hear_input(
                session_id,
                sequence,
                event,
            ),
            RemoteDesktopControl::KeyframeRequest { session_id } => {
                if self.is_sharing(session_id.as_str()) {
                    Ok(
                        one(
                            DesktopAction::Emit(RemoteDesktopEvent::KeyframeRequested(session_id)),
                        ),
                    )
                } else {
                    Ok(nothing())
                }
            },
        }
    }

    /// The header of a frame has come: how long its payload is, nothing where the frame is not
    /// newer than the last one.
    pub fn admit_frame(&mut self, header: &RemoteDesktopFrameHeader) -> (r: Result<
        Option<usize>,
        DesktopRefusal,
    >)
        ensures
            final(self)@ == old(self)@.admit_frame(header@).0,
            match (r, old(self)@.admit_frame(header@).1) {
                (Ok(Some(a)), Ok(Some(b))) => a == b,
                (Ok(None), Ok(None)) => true,
                (Err(a), Err(b)) => a == b,
                _ => false,
            },
    {
        let len: usize = match header.validate() {
            Err(e) => {
                return Err(DesktopRefusal::Invalid(e));
            },
            Ok(n) => n,
        };
        if !self.is_viewing(header.session_id.as_str()) {
            return Err(DesktopRefusal::FrameOfOtherSession);
        }
        if header.frame_id <= self.last_frame_id {
            return Ok(None);
        }
        self.last_frame_id = header.frame_id;
        Ok(Some(len))
    }

    /// The link is gone.
    pub fn tear_down(&mut self) -> (r: Vec<DesktopAction>)
        ensures
            (final(self)@, action_views(r@)) == old(self)@.tear_down(),
    {
        let actions = match self.state {
            RemoteDesktopState::Idle => nothing(),
            _ => self.ended(),
        };
        self.state = RemoteDesktopState::Idle;
        actions
    }
}

fn busy(session_id: String) -> (r: DesktopAction)
    ensures
        r@ == DesktopActionView::Send(
            RemoteDesktopControlView::Answer {
                session_id: session_id@,
                accepted: false,
                reason: Some("已有远程桌面会话"@),
            },
        ),
{
    DesktopAction::Send(
        RemoteDesktopControl::Answer {
            session_id,
            accepted: false,
            reason: Some("已有远程桌面会话".to_owned()),
        },
    )
}

/// A frame that was received, and what is told of it; nothing where it is not valid.
pub open spec fn taken_frame(header: RemoteDesktopFrameHeaderView, payload: Seq<u8>) -> Option<
    (RemoteDesktopFrameView, RemoteDesktopEventView),
> {
    let frame = RemoteDesktopFrameView { header, payload };
    if frame.checked() is Ok {
        Some(
            (
                frame,
                RemoteDesktopEventView::FrameAvailable {
                    session_id: header.session_id,
                    frame_id: header.frame_id,
                },
            ),
        )
    } else {
        None
    }
}

/// A frame whose payload has been read, and the event that tells of it. A payload of another
/// length than the header says is an error.
pub fn received_frame(header: RemoteDesktopFrameHeader, payload: Vec<u8>) -> (r: Result<
    (RemoteDesktopFrame, RemoteDesktopEvent),
    DesktopError,
>)
    ensures
        ({
            let frame = RemoteDesktopFrameView { header: header@, payload: payload@ };
            match r {
                Ok((f, e)) => {
                    &&& frame.checked() is Ok
                    &&& f@ == frame
                    &&& e@ == RemoteDesktopEventView::FrameAvailable {
                        session_id: header@.session_id,
                        frame_id: header@.frame_id,
                    }
                },
                Err(e) => frame.checked() == Err::<(), DesktopError>(e),
            }
        }),
        taken_frame(header@, payload@) == match r {
            Ok((f, e)) => Some((f@, e@)),
            Err(_) => None,
        },
{
    let session_id = header.session_id.clone();
    let frame_id: u64 = header.frame_id;
    let frame = RemoteDesktopFrame { header, payload };
    match frame.validate() {
        Err(e) => Err(e),
        Ok(_) => Ok((frame, RemoteDesktopEvent::FrameAvailable { session_id, frame_id })),
    }
}

/// One end offers, the other accepts: then the first shows and the second watches the same session,
/// and both agree on whether the second may control.
pub proof fn accepted_offer_joins_the_two_ends(
    a: RemoteDesktopRuntimeStateView,
    b: RemoteDesktopRuntimeStateView,
    offer: RemoteDesktopOfferView,
)
    requires
        a.state is Idle,
        b.state is Idle,
        offer_refusal(offer) is None,
    ensures
        ({
            let a1 = a.offer(offer, true).0;
            let b1 = b.hear_offer(offer).0;
            let b2 = b1.answer(offer.session_id, true, None).0;
            let a2 = a1.hear_answer(offer.session_id, true, None).0;
            &&& a.offer(offer, true).1 is Ok
            &&& b.hear_offer(offer).1 is Ok
            &&& b1.answer(offer.session_id, true, None).1 is Ok
            &&& a2.state == RemoteDesktopStateView::Sharing {
                session_id: offer.session_id,
                allow_control: offer.allow_control,
            }
            &&& b2.state == RemoteDesktopStateView::Viewing {
                session_id: offer.session_id,
                can_control: offer.allow_control,
            }
        }),
{
}

/// One end offers, the other declines: then both are idle again.
pub proof fn declined_offer_leaves_both_idle(
    a: RemoteDesktopRuntimeStateView,
    b: RemoteDesktopRuntimeStateView,
    offer: RemoteDesktopOfferView,
    reason: Option<Seq<char>>,
)
    requires
        a.state is Idle,
        b.state is Idle,
        offer_refusal(offer) is None,
    ensures
        ({
            let a1 = a.offer(offer, true).0;
            let b1 = b.hear_offer(offer).0;
            &&& b1.answer(offer.session_id, false, reason).0.state is Idle
            &&& a1.hear_answer(offer.session_id, false, reason).0.state is Idle
        }),
{
}

/// Both ends offer at once: the offer with the smaller identifier survives. The end that made the
/// other one now has an incoming offer, the first keeps its own, and the messages by which each
/// tells the other are ignored.
pub proof fn crossing_offers_leave_the_smaller(
    a: RemoteDesktopRuntimeStateView,
    b: RemoteDesktopRuntimeStateView,
    small: RemoteDesktopOfferView,
    large: RemoteDesktopOfferView,
)
    requires
        a.state == RemoteDesktopStateView::OutgoingPending(small),
        b.state == RemoteDesktopStateView::OutgoingPending(large),
        text::text_before(small.session_id, large.session_id),
        offer_refusal(small) is None,
        offer_refusal(large) is None,
    ensures
        ({
            let a1 = a.hear_offer(large).0;
            let b1 = b.hear_offer(small).0;
            &&& a1 == a
            &&& b1.state == RemoteDesktopStateView::IncomingPending(small)
            &&& b.hear_offer(small).1->Ok_0[0] == DesktopActionView::Send(
                RemoteDesktopControlView::Stop {
                    session_id: large.session_id,
                    reason: "同时发起共享，已选择较小会话 ID"@,
                },
            )
            &&& a1.hear_stop(large.session_id) == (a1, Ok::<_, DesktopRefusal>(
                Seq::<DesktopActionView>::empty(),
            ))
            &&& b1.hear_answer(large.session_id, false, Some("已有远程桌面会话"@)) == (
                b1,
                Ok::<_, DesktopRefusal>(Seq::<DesktopActionView>::empty()),
            )
        }),
{
    text::text_order_is_total(small.session_id, large.session_id);
}

/// Input is carried out only while this end shows its desktop and allows control, and what was
/// carried out is not carried out again.
pub proof fn input_is_carried_out_once(
    s: RemoteDesktopRuntimeStateView,
    id: Seq<char>,
    sequence: u64,
    event: RemoteInputEventView,
)
    ensures
        ({
            let (after, r) = s.hear_input(id, sequence, event);
            &&& (r is Ok && r->Ok_0.len() > 0) ==> {
                &&& s.state == RemoteDesktopStateView::Sharing {
                    session_id: id,
                    allow_control: true,
                }
                &&& after.last_input_sequence == sequence > s.last_input_sequence
                &&& forall|earlier: u64, again: RemoteInputEventView|
                    earlier <= sequence && again.checked() is Ok ==> #[trigger] after.hear_input(
                        id,
                        earlier,
                        again,
                    ) == (after, Ok::<_, DesktopRefusal>(Seq::<DesktopActionView>::empty()))
            }
            &&& after.state == s.state
        }),
{
}

/// However the showing of a desktop ends or control is taken back, keys and buttons that the peer
/// holds down are let go.
pub proof fn end_of_control_releases_keys(s: RemoteDesktopRuntimeStateView, reason: Seq<char>)
    requires
        s.state is Sharing,
    ensures
        ({
            let id = s.state->Sharing_session_id;
            &&& s.stop(id, reason).1->Ok_0.contains(release_all())
            &&& s.hear_stop(id).1->Ok_0.contains(release_all())
            &&& s.tear_down().1.contains(release_all())
            &&& s.set_permission(id, false).1->Ok_0.contains(release_all())
            &&& forall|m: RemoteDesktopControlView|
                !((#[trigger] s.hear(m)).0.state is Sharing) ==> s.hear(m).1->Ok_0.contains(
                    release_all(),
                )
        }),
{
    let id = s.state->Sharing_session_id;
    assert(s.ending()[0] == release_all());
    assert(s.stop(id, reason).1->Ok_0[1] == release_all());
    assert(s.hear_stop(id).1->Ok_0[0] == release_all());
    assert(s.tear_down().1[0] == release_all());
    assert(s.set_permission(id, false).1->Ok_0[1] == release_all());
}

/// Each frame is taken at most once: after one is taken, neither it nor an older one of the
/// session is.
pub proof fn frames_are_taken_in_order(
    s: RemoteDesktopRuntimeStateView,
    first: RemoteDesktopFrameHeaderView,
    second: RemoteDesktopFrameHeaderView,
)
    requires
        s.admit_frame(first).1 is Ok,
        s.admit_frame(first).1->Ok_0 is Some,
        second.frame_id <= first.frame_id,
    ensures
        s.admit_frame(first).0.state == s.state,
        !(s.admit_frame(first).0.admit_frame(second).1 is Ok && s.admit_frame(first).0.admit_frame(
            second,
        ).1->Ok_0 is Some),
{
}

/// A request that is refused changes nothing.
pub proof fn refusal_changes_nothing(
    s: RemoteDesktopRuntimeStateView,
    offer: RemoteDesktopOfferView,
    supported: bool,
    id: Seq<char>,
    flag: bool,
    reason: Option<Seq<char>>,
    words: Seq<char>,
    message: RemoteDesktopControlView,
)
    ensures
        s.offer(offer, supported).1 is Err ==> s.offer(offer, supported).0 == s,
        s.answer(id, flag, reason).1 is Err ==> s.answer(id, flag, reason).0 == s,
        s.set_permission(id, flag).1 is Err ==> s.set_permission(id, flag).0 == s,
        s.stop(id, words).1 is Err ==> s.stop(id, words).0 == s,
        s.hear(message).1 is Err ==> s.hear(message).0 == s,
{
}

/// Both ends offer at once: the one with the larger identifier withdraws its own offer and takes up
/// the other, of which its user interface is told; the other end declines and keeps its own.
pub proof fn crossing_offers_are_answered(
    s: RemoteDesktopRuntimeStateView,
    mine: RemoteDesktopOfferView,
    theirs: RemoteDesktopOfferView,
)
    requires
        s.state == RemoteDesktopStateView::OutgoingPending(mine),
        offer_refusal(theirs) is None,
    ensures
        ({
            let (after, r) = s.hear(RemoteDesktopControlView::Offer { offer: theirs });
            let next = RemoteDesktopStateView::IncomingPending(theirs);
            &&& text::text_before(theirs.session_id, mine.session_id) ==> {
                &&& after == (RemoteDesktopRuntimeStateView { state: next, last_frame_id: 0, ..s })
                &&& r == Ok::<_, DesktopRefusal>(
                    seq![
                        DesktopActionView::Send(
                            RemoteDesktopControlView::Stop {
                                session_id: mine.session_id,
                                reason: "同时发起共享，已选择较小会话 ID"@,
                            },
                        ),
                        DesktopActionView::Emit(RemoteDesktopEventView::IncomingOffer(theirs)),
                        DesktopActionView::Emit(RemoteDesktopEventView::StateChanged(next)),
                    ],
                )
            }
            &&& !text::text_before(theirs.session_id, mine.session_id) ==> {
                &&& after == s
                &&& r == Ok::<_, DesktopRefusal>(
                    seq![
                        DesktopActionView::Send(
                            RemoteDesktopControlView::Answer {
                                session_id: theirs.session_id,
                                accepted: false,
                                reason: Some("已有远程桌面会话"@),
                            },
                        ),
                    ],
                )
            }
        }),
{
    let r = s.hear(RemoteDesktopControlView::Offer { offer: theirs }).1->Ok_0;
    if text::text_before(theirs.session_id, mine.session_id) {
        assert(r =~= seq![r[0], r[1], r[2]]);
    }
}

/// Is this what a user interface is told when a desktop goes from one state to another? The last
/// that it is told of the state is the new one, and where the state has not changed it is told of
/// none but this.
pub open spec fn tells_the_state(
    before: RemoteDesktopStateView,
    after: RemoteDesktopStateView,
    actions: Seq<DesktopActionView>,
) -> bool {
    &&& before != after ==> actions.contains(
        DesktopActionView::Emit(RemoteDesktopEventView::StateChanged(after)),
    )
    &&& forall|state: RemoteDesktopStateView| #[trigger]
        actions.contains(DesktopActionView::Emit(RemoteDesktopEventView::StateChanged(state)))
            ==> state == after
}

/// The user interface always knows where the shared desktop stands: whatever changes it is told, and
/// nothing else is.
pub proof fn the_user_interface_knows_the_state(
    s: RemoteDesktopRuntimeStateView,
    message: RemoteDesktopControlView,
    offer: RemoteDesktopOfferView,
    supported: bool,
    id: Seq<char>,
    flag: bool,
    reason: Option<Seq<char>>,
    words: Seq<char>,
)
    ensures
        s.hear(message).1 is Ok ==> tells_the_state(
            s.state,
            s.hear(message).0.state,
            s.hear(message).1->Ok_0,
        ),
        s.offer(offer, supported).1 is Ok ==> tells_the_state(
            s.state,
            s.offer(offer, supported).0.state,
            s.offer(offer, supported).1->Ok_0,
        ),
        s.answer(id, flag, reason).1 is Ok ==> tells_the_state(
            s.state,
            s.answer(id, flag, reason).0.state,
            s.answer(id, flag, reason).1->Ok_0,
        ),
        s.set_permission(id, flag).1 is Ok ==> tells_the_state(
            s.state,
            s.set_permission(id, flag).0.state,
            s.set_permission(id, flag).1->Ok_0,
        ),
        s.stop(id, words).1 is Ok ==> tells_the_state(
            s.state,
            s.stop(id, words).0.state,
            s.stop(id, words).1->Ok_0,
        ),
        tells_the_state(s.state, s.tear_down().0.state, s.tear_down().1),
{
    let heard = s.hear(message).1->Ok_0;
    let stopped = s.stop(id, words).1->Ok_0;
    let next = s.hear(message).0.state;
    assert(s.hear(message).1 is Ok && s.state != next ==> heard[0] == state_changed(next)
        || heard[1] == state_changed(next) || heard[2] == state_changed(next));
    assert(s.stop(id, words).1 is Ok ==> stopped[1] == state_changed(RemoteDesktopStateView::Idle)
        || stopped[2] == state_changed(RemoteDesktopStateView::Idle));
    assert(!(s.state is Idle) ==> s.tear_down().1[0] == state_changed(
        RemoteDesktopStateView::Idle,
    ) || s.tear_down().1[1] == state_changed(RemoteDesktopStateView::Idle));
    lemma_told(s.state, s.hear(message).0.state, s.hear(message).1->Ok_0);
    lemma_told(s.state, s.offer(offer, supported).0.state, s.offer(offer, supported).1->Ok_0);
    lemma_told(s.state, s.answer(id, flag, reason).0.state, s.answer(id, flag, reason).1->Ok_0);
    lemma_told(s.state, s.set_permission(id, flag).0.state, s.set_permission(id, flag).1->Ok_0);
    lemma_told(s.state, s.stop(id, words).0.state, s.stop(id, words).1->Ok_0);
    lemma_told(s.state, s.tear_down().0.state, s.tear_down().1);
}

proof fn lemma_told(
    before: RemoteDesktopStateView,
    after: RemoteDesktopStateView,
    actions: Seq<DesktopActionView>,
)
    ensures
        (before == after || exists|k: int|
            0 <= k < actions.len() && #[trigger] actions[k] == state_changed(after)) && (forall|
            k: int,
        |
            0 <= k < actions.len() && (#[trigger] actions[k]) is Emit && actions[k]->Emit_0
                is StateChanged ==> actions[k] == state_changed(after)) ==> tells_the_state(
            before,
            after,
            actions,
        ),
{
    assert forall|state: RemoteDesktopStateView| #[trigger]
        actions.contains(
            DesktopActionView::Emit(RemoteDesktopEventView::StateChanged(state)),
        ) && (forall|k: int|
            0 <= k < actions.len() && (#[trigger] actions[k]) is Emit && actions[k]->Emit_0
                is StateChanged ==> actions[k] == state_changed(after)) implies state == after by {
        let e = DesktopActionView::Emit(RemoteDesktopEventView::StateChanged(state));
        let k = actions.index_of(e);
        assert(actions[k] == e);
    }
}

/// When the link is gone no desktop is shared any more; where one was, or was on offer, that is
/// told, and what is held down is let go where this end showed its own.
pub proof fn a_lost_link_ends_the_desktop(s: RemoteDesktopRuntimeStateView)
    ensures
        s.tear_down().0.state is Idle,
        s.state is Idle ==> s.tear_down().1.len() == 0,
        s.state is Sharing ==> s.tear_down().1 == seq![
            DesktopActionView::Emit(
                RemoteDesktopEventView::Input(RemoteInputEventView::ReleaseAll),
            ),
            DesktopActionView::Emit(
                RemoteDesktopEventView::StateChanged(RemoteDesktopStateView::Idle),
            ),
        ],
        !(s.state is Idle) && !(s.state is Sharing) ==> s.tear_down().1 == seq![
            DesktopActionView::Emit(
                RemoteDesktopEventView::StateChanged(RemoteDesktopStateView::Idle),
            ),
        ],
{
}

/// A frame is taken exactly where its header is in order, this end watches its session and it is
/// newer than all that were taken; then as many bytes belong to it as its patches say.
pub proof fn newer_frames_of_the_session_are_taken(
    s: RemoteDesktopRuntimeStateView,
    header: RemoteDesktopFrameHeaderView,
)
    ensures
        ({
            let (after, r) = s.admit_frame(header);
            let watched = match s.state {
                RemoteDesktopStateView::Viewing { session_id, .. } => session_id
                    == header.session_id,
                _ => false,
            };
            &&& (r is Ok && r->Ok_0 is Some) <==> header.checked() is Ok && watched
                && header.frame_id > s.last_frame_id
            &&& (r is Ok && r->Ok_0 is Some) ==> {
                &&& r->Ok_0->0 == header.checked()->Ok_0
                &&& after == (RemoteDesktopRuntimeStateView {
                    last_frame_id: header.frame_id,
                    ..s
                })
            }
            &&& r is Err ==> after == s
            &&& r is Err <==> header.checked() is Err || !watched
        }),
{
}

/// An offer is made of the display, the size and the control that were chosen, with the platform that
/// it is made on; only where its measures are valid and the platform can share its desktop.
pub proof fn an_offer_is_what_was_chosen(
    session_id: Seq<char>,
    display: RemoteDisplayView,
    config: RemoteDesktopConfig,
    allow_control: bool,
)
    requires
        config.checked() is Ok,
    ensures
        made_offer(session_id, display, config, allow_control, "windows"@) == Some(
            RemoteDesktopOfferView {
                session_id,
                platform: RemoteDesktopPlatform::Windows,
                display,
                config,
                allow_control,
            },
        ),
        made_offer(session_id, display, config, allow_control, "macos"@) == Some(
            RemoteDesktopOfferView {
                session_id,
                platform: RemoteDesktopPlatform::Macos,
                display,
                config,
                allow_control,
            },
        ),
        made_offer(session_id, display, config, allow_control, "linux"@) is None,
{
    reveal_strlit("windows");
    reveal_strlit("macos");
    reveal_strlit("linux");
    assert("windows"@.len() == 7);
    assert("macos"@[0] != "linux"@[0]);
}

/// A frame is taken exactly where it is valid, as it came, and is told of under its session and number.
pub proof fn a_valid_frame_is_taken_as_it_came(
    header: RemoteDesktopFrameHeaderView,
    payload: Seq<u8>,
)
    ensures
        taken_frame(header, payload) is Some <==> (RemoteDesktopFrameView {
            header,
            payload,
        }).checked() is Ok,
        taken_frame(header, payload) matches Some((frame, event)) ==> {
            &&& frame.header == header
            &&& frame.payload == payload
            &&& event == RemoteDesktopEventView::FrameAvailable {
                session_id: header.session_id,
                frame_id: header.frame_id,
            }
        },
{
}

}
