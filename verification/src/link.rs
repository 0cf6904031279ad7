//! A direct link at work: what each command, message and incident leads to.
use crate::desktop_session::{
    DesktopAction, DesktopActionView, DesktopRefusal, RemoteDesktopRuntimeState,
    RemoteDesktopRuntimeStateView,
};
use crate::direct::{DirectLinkInfo, DirectLinkInfoView};
use crate::p2p_proto::{P2pMessage, P2pMessageView};
use crate::ranges::ChunkRange;
use crate::remote_desktop::{
    RemoteDesktopControl, RemoteDesktopControlView, RemoteDesktopEvent, RemoteDesktopEventView,
    RemoteDesktopFrame, RemoteDesktopFrameView, RemoteDesktopStateView,
};
use crate::session::{DirectCommand, DirectCommandView, SessionEvent, SessionEventView};
use crate::transfer::{TransferManifest, TransferManifestView, TransferStore};
use crate::transfer_session::{
    TransferAction, TransferActionView, TransferState, TransferStateView,
};
use crate::{desktop_session, paths, text, transfer, transfer_session};
use vstd::prelude::*;

verus! {

/// What happens on a direct link: a command, none where the session is gone; a frame to be sent,
/// and what became of one; a message to be written, none where no more will come; a message of the
/// peer; the time for a sign of life; the end of the connection.
#[derive(Debug)]
pub enum LinkEvent {
    Command(Option<DirectCommand>),
    Frame(Option<RemoteDesktopFrame>),
    FrameDone(bool),
    FrameFailed { session_id: String, error: String },
    Outbound(Option<P2pMessage>),
    WriteFailed(String),
    Message(P2pMessage),
    ReadFailed(String),
    PingDue,
    Closed(String),
}

#[verifier::ext_equal]
pub enum LinkEventView {
    Command(Option<DirectCommandView>),
    Frame(Option<RemoteDesktopFrameView>),
    FrameDone(bool),
    FrameFailed { session_id: Seq<char>, error: Seq<char> },
    Outbound(Option<P2pMessageView>),
    WriteFailed(Seq<char>),
    Message(P2pMessageView),
    ReadFailed(Seq<char>),
    PingDue,
    Closed(Seq<char>),
}

impl View for LinkEvent {
    type V = LinkEventView;

    open spec fn view(&self) -> LinkEventView {
        match self {
            LinkEvent::Command(a) => LinkEventView::Command(match *a {
                    Some(x) => Some(x@),
                    None => None,
                }),
            LinkEvent::Frame(a) => LinkEventView::Frame(match *a {
                    Some(x) => Some(x@),
                    None => None,
                }),
            LinkEvent::FrameDone(a) => LinkEventView::FrameDone(*a),
            LinkEvent::FrameFailed { session_id, error } => LinkEventView::FrameFailed {
                session_id: session_id@,
                error: error@,
            },
            LinkEvent::Outbound(a) => LinkEventView::Outbound(match *a {
                    Some(x) => Some(x@),
                    None => None,
                }),
            LinkEvent::WriteFailed(a) => LinkEventView::WriteFailed(a@),
            LinkEvent::Message(a) => LinkEventView::Message(a@),
            LinkEvent::ReadFailed(a) => LinkEventView::ReadFailed(a@),
            LinkEvent::PingDue => LinkEventView::PingDue,
            LinkEvent::Closed(a) => LinkEventView::Closed(a@),
        }
    }
}

/// What a direct link does next: queue or write a message, tell the user interface, save a record,
/// offer or accept a file, send chunks or a frame, close the connection, end the link. Where one of
/// the actions of a step fails, those behind it are left out.
#[derive(Debug)]
pub enum LinkAction {
    Queue(P2pMessage),
    Write(P2pMessage),
    Emit(SessionEvent),
    TryEmit(SessionEvent),
    Save(TransferManifest),
    OfferFile(String),
    AcceptFile { transfer_id: String, save_path: String },
    ConfirmPause(String),
    StartSending { transfer_id: String, completed_chunks: Vec<ChunkRange> },
    StreamFrame(RemoteDesktopFrame),
    CloseSession,
    Stop,
}

#[verifier::ext_equal]
pub enum LinkActionView {
    Queue(P2pMessageView),
    Write(P2pMessageView),
    Emit(SessionEventView),
    TryEmit(SessionEventView),
    Save(TransferManifestView),
    OfferFile(Seq<char>),
    AcceptFile { transfer_id: Seq<char>, save_path: Seq<char> },
    ConfirmPause(Seq<char>),
    StartSending { transfer_id: Seq<char>, completed_chunks: Seq<ChunkRange> },
    StreamFrame(RemoteDesktopFrameView),
    CloseSession,
    Stop,
}

impl View for LinkAction {
    type V = LinkActionView;

    open spec fn view(&self) -> LinkActionView {
        match self {
            LinkAction::Queue(a) => LinkActionView::Queue(a@),
            LinkAction::Write(a) => LinkActionView::Write(a@),
            LinkAction::Emit(a) => LinkActionView::Emit(a@),
            LinkAction::TryEmit(a) => LinkActionView::TryEmit(a@),
            LinkAction::Save(a) => LinkActionView::Save(a@),
            LinkAction::OfferFile(a) => LinkActionView::OfferFile(a@),
            LinkAction::AcceptFile { transfer_id, save_path } => LinkActionView::AcceptFile {
                transfer_id: transfer_id@,
                save_path: save_path@,
            },
            LinkAction::ConfirmPause(a) => LinkActionView::ConfirmPause(a@),
            LinkAction::StartSending {
                transfer_id,
                completed_chunks,
            } => LinkActionView::StartSending {
                transfer_id: transfer_id@,
                completed_chunks: completed_chunks@,
            },
            LinkAction::StreamFrame(a) => LinkActionView::StreamFrame(a@),
            LinkAction::CloseSession => LinkActionView::CloseSession,
            LinkAction::Stop => LinkActionView::Stop,
        }
    }
}

pub open spec fn action_views(actions: Seq<LinkAction>) -> Seq<LinkActionView> {
    actions.map_values(|a: LinkAction| a@)
}

/// A step of the shared desktop as one of the link.
pub open spec fn desktop_lifted(a: DesktopActionView) -> LinkActionView {
    match a {
        DesktopActionView::Send(message) => LinkActionView::Queue(
            P2pMessageView::RemoteDesktop { message },
        ),
        DesktopActionView::Emit(e) => LinkActionView::Emit(SessionEventView::RemoteDesktop(e)),
        DesktopActionView::TryEmit(e) => LinkActionView::TryEmit(SessionEventView::RemoteDesktop(e)),
    }
}

/// A step of the transfers as one of the link.
pub open spec fn transfer_lifted(a: TransferActionView) -> LinkActionView {
    match a {
        TransferActionView::Save(m) => LinkActionView::Save(m),
        TransferActionView::Emit(e) => LinkActionView::Emit(e),
        TransferActionView::Send(m) => LinkActionView::Queue(m),
    }
}

pub open spec fn desktop_all(actions: Seq<DesktopActionView>) -> Seq<LinkActionView> {
    actions.map_values(|a: DesktopActionView| desktop_lifted(a))
}

pub open spec fn transfer_all(actions: Seq<TransferActionView>) -> Seq<LinkActionView> {
    actions.map_values(|a: TransferActionView| transfer_lifted(a))
}

pub open spec fn emitted(e: SessionEventView) -> Seq<LinkActionView> {
    seq![LinkActionView::Emit(e)]
}

/// The user interface is told that something about the shared desktop went wrong.
pub open spec fn desktop_error(message: Seq<char>) -> Seq<LinkActionView> {
    emitted(
        SessionEventView::RemoteDesktop(
            RemoteDesktopEventView::Error { session_id: None, message },
        ),
    )
}

/// The link is lost for this reason and ends.
pub open spec fn lost(reason: Seq<char>) -> Seq<LinkActionView> {
    seq![LinkActionView::Emit(SessionEventView::DirectLinkLost(reason)), LinkActionView::Stop]
}

/// What a command about the shared desktop leads to.
pub open spec fn desktop_outcome(
    r: Result<Seq<DesktopActionView>, DesktopRefusal>,
    prefix: Seq<char>,
) -> Seq<LinkActionView> {
    match r {
        Ok(actions) => desktop_all(actions),
        Err(e) => desktop_error(prefix + e.words()),
    }
}

/// What a step of the transfers leads to.
pub open spec fn transfer_outcome(r: Result<Seq<TransferActionView>, Seq<char>>) -> Seq<
    LinkActionView,
> {
    match r {
        Ok(actions) => transfer_all(actions),
        Err(e) => emitted(SessionEventView::Error(e)),
    }
}

/// A direct link at work.
pub struct LinkState {
    pub peer_remote_desktop: bool,
    pub desktop: RemoteDesktopRuntimeState,
    pub transfers: TransferState,
    pub frame_in_flight: bool,
}

#[verifier::ext_equal]
pub struct LinkStateView {
    pub peer_remote_desktop: bool,
    pub desktop: RemoteDesktopRuntimeStateView,
    pub transfers: TransferStateView,
    pub frame_in_flight: bool,
}

impl View for LinkState {
    type V = LinkStateView;

    open spec fn view(&self) -> LinkStateView {
        LinkStateView {
            peer_remote_desktop: self.peer_remote_desktop,
            desktop: self.desktop@,
            transfers: self.transfers@,
            frame_in_flight: self.frame_in_flight,
        }
    }
}

type Step = (LinkStateView, Seq<LinkActionView>);

impl LinkStateView {
    /// A new link, without transfers and without a shared desktop.
    pub open spec fn start(peer_remote_desktop: bool, store: Seq<char>) -> Self {
        LinkStateView {
            peer_remote_desktop,
            desktop: RemoteDesktopRuntimeStateView::idle(),
            transfers: TransferStateView::empty(store),
            frame_in_flight: false,
        }
    }

    /// What the user interface is told of a new link.
    pub open spec fn opened(info: DirectLinkInfoView) -> Seq<LinkActionView> {
        seq![
            LinkActionView::Emit(SessionEventView::DirectLinkEstablished(info)),
            LinkActionView::Emit(
                SessionEventView::RemoteDesktop(
                    RemoteDesktopEventView::PeerAvailabilityChanged(info.peer_remote_desktop),
                ),
            ),
        ]
    }

    /// May a frame be taken up?
    pub open spec fn wants_frame(self) -> bool {
        !self.frame_in_flight
    }

    /// The link is over: so is a shared desktop.
    pub open spec fn closed(self) -> (Self, Seq<LinkActionView>) {
        (
            LinkStateView { desktop: self.desktop.tear_down().0, ..self },
            desktop_all(self.desktop.tear_down().1),
        )
    }

    pub open spec fn with_desktop(
        self,
        step: (RemoteDesktopRuntimeStateView, Result<Seq<DesktopActionView>, DesktopRefusal>),
        prefix: Seq<char>,
    ) -> Step {
        (LinkStateView { desktop: step.0, ..self }, desktop_outcome(step.1, prefix))
    }

    pub open spec fn with_transfers(
        self,
        step: (TransferStateView, Result<Seq<TransferActionView>, Seq<char>>),
    ) -> Step {
        (LinkStateView { transfers: step.0, ..self }, transfer_outcome(step.1))
    }

    pub open spec fn with_done_transfers(
        self,
        step: (TransferStateView, Seq<TransferActionView>),
    ) -> Step {
        (LinkStateView { transfers: step.0, ..self }, transfer_all(step.1))
    }

    /// A command of the user interface.
    pub open spec fn command(self, command: DirectCommandView) -> Step {
        match command {
            DirectCommandView::Chat(text) => (
                self,
                seq![LinkActionView::Queue(P2pMessageView::Chat { text })],
            ),
            DirectCommandView::OfferFile(path) => (self, seq![LinkActionView::OfferFile(path)]),
            DirectCommandView::AcceptFile { transfer_id, save_path } => (
                self,
                seq![LinkActionView::AcceptFile { transfer_id, save_path }],
            ),
            DirectCommandView::RejectFile { transfer_id, reason } => self.with_done_transfers(
                self.transfers.reject(transfer_id, reason),
            ),
            DirectCommandView::PauseTransfer(id) => {
                let step = self.transfers.update_status(
                    id,
                    crate::transfer::TransferStatus::Paused,
                );
                let (s, actions) = self.with_transfers(step);
                (
                    s,
                    if step.1 is Ok {
                        actions.push(LinkActionView::ConfirmPause(id))
                    } else {
                        actions
                    },
                )
            },
            DirectCommandView::ResumeTransfer(id) => self.with_transfers(self.transfers.resume(id)),
            DirectCommandView::CancelTransfer { transfer_id, reason } => self.with_done_transfers(
                self.transfers.cancel(transfer_id, reason),
            ),
            DirectCommandView::OfferRemoteDesktop(offer) => self.with_desktop(
                self.desktop.offer(offer, self.peer_remote_desktop),
                ""@,
            ),
            DirectCommandView::AnswerRemoteDesktop { session_id, accepted, reason } =>
                self.with_desktop(self.desktop.answer(session_id, accepted, reason), ""@),
            DirectCommandView::SetRemoteDesktopPermission { session_id, allow_control } =>
                self.with_desktop(self.desktop.set_permission(session_id, allow_control), ""@),
            DirectCommandView::StopRemoteDesktop { session_id, reason } => self.with_desktop(
                self.desktop.stop(session_id, reason),
                ""@,
            ),
            DirectCommandView::RemoteInput { session_id, sequence, event } => self.with_desktop(
                (self.desktop, self.desktop.send_input(session_id, sequence, event)),
                ""@,
            ),
            DirectCommandView::RequestRemoteKeyframe(session_id) => (
                self,
                seq![
                    LinkActionView::Queue(
                        P2pMessageView::RemoteDesktop {
                            message: RemoteDesktopControlView::KeyframeRequest { session_id },
                        },
                    ),
                ],
            ),
        }
    }

    /// A message of the peer. Of the name of an offered file `name` is the last component.
    pub open spec fn message(self, message: P2pMessageView, name: Option<Seq<char>>) -> Step {
        match message {
            P2pMessageView::Chat { text } => (self, emitted(SessionEventView::MessageReceived(text))),
            P2pMessageView::Ping => (self, seq![LinkActionView::Queue(P2pMessageView::Pong)]),
            P2pMessageView::Pong => (self, Seq::empty()),
            P2pMessageView::FileOffer { metadata } => self.with_transfers(
                self.transfers.hear_offer(transfer::offer_outcome(metadata, name)),
            ),
            P2pMessageView::FileAccept { transfer_id, completed_chunks } => (
                self,
                seq![LinkActionView::StartSending { transfer_id, completed_chunks }],
            ),
            P2pMessageView::FileResume { transfer_id, completed_chunks } => (
                self,
                seq![LinkActionView::StartSending { transfer_id, completed_chunks }],
            ),
            P2pMessageView::FileReject { transfer_id, reason } => self.with_done_transfers(
                self.transfers.mark_cancelled(transfer_id, reason),
            ),
            P2pMessageView::FileCancel { transfer_id, reason } => self.with_done_transfers(
                self.transfers.mark_cancelled(transfer_id, reason),
            ),
            P2pMessageView::FileAck { transfer_id, chunks } => self.with_transfers(
                self.transfers.hear_ack(transfer_id, chunks),
            ),
            P2pMessageView::FileComplete { transfer_id } => self.with_transfers(
                self.transfers.complete_sent(transfer_id),
            ),
            P2pMessageView::RemoteDesktop { message } => self.with_desktop(
                self.desktop.hear(message),
                "远程桌面协议错误："@,
            ),
            P2pMessageView::Hello { .. } => (self, lost("直连控制流收到重复 Hello"@)),
        }
    }

    /// Anything that happens on the link.
    pub open spec fn step(self, event: LinkEventView, name: Option<Seq<char>>) -> Step {
        match event {
            LinkEventView::Command(Some(command)) => self.command(command),
            LinkEventView::Command(None) => (
                self,
                seq![LinkActionView::CloseSession, LinkActionView::Stop],
            ),
            LinkEventView::Frame(None) => (self, Seq::empty()),
            LinkEventView::Frame(Some(frame)) => {
                if self.desktop.state.shares(frame.header.session_id) {
                    (
                        LinkStateView { frame_in_flight: true, ..self },
                        seq![LinkActionView::StreamFrame(frame)],
                    )
                } else {
                    (self, Seq::empty())
                }
            },
            LinkEventView::FrameDone(done) => (
                if done {
                    LinkStateView { frame_in_flight: false, ..self }
                } else {
                    self
                },
                Seq::empty(),
            ),
            LinkEventView::FrameFailed { session_id, error } => (
                self,
                seq![
                    LinkActionView::Emit(
                        SessionEventView::RemoteDesktop(
                            RemoteDesktopEventView::Error {
                                session_id: Some(session_id),
                                message: "发送远程桌面帧失败："@ + error,
                            },
                        ),
                    ),
                    LinkActionView::Emit(
                        SessionEventView::RemoteDesktop(
                            RemoteDesktopEventView::KeyframeRequested(session_id),
                        ),
                    ),
                ],
            ),
            LinkEventView::Outbound(Some(message)) => (self, seq![LinkActionView::Write(message)]),
            LinkEventView::Outbound(None) => (self, seq![LinkActionView::Stop]),
            LinkEventView::WriteFailed(error) => (self, lost(error)),
            LinkEventView::Message(message) => self.message(message, name),
            LinkEventView::ReadFailed(error) => (self, lost(error)),
            LinkEventView::PingDue => (self, seq![LinkActionView::Write(P2pMessageView::Ping)]),
            LinkEventView::Closed(reason) => (self, lost(reason)),
        }
    }
}

/// Is this a step that the event leads to? It is the only one but for the name of an offered file
/// that is not portable, where the platform decides which of two its last component is.
pub open spec fn leads_to(s: LinkStateView, event: LinkEventView, after: Step) -> bool {
    match event {
        LinkEventView::Message(P2pMessageView::FileOffer { metadata }) => {
            &&& exists|name: Option<Seq<char>>|
                paths::names_the_file(metadata.file_name, name) && after == #[trigger] s.step(
                    event,
                    name,
                )
            &&& paths::is_portable(metadata.file_name) ==> after == s.step(
                event,
                paths::final_component(metadata.file_name),
            )
        },
        _ => after == s.step(event, None),
    }
}

fn no_actions() -> (r: Vec<LinkAction>)
    ensures
        action_views(r@) == Seq::<LinkActionView>::empty(),
{
    let r: Vec<LinkAction> = Vec::new();
    assert(action_views(r@) =~= Seq::<LinkActionView>::empty());
    r
}

fn one(a: LinkAction) -> (r: Vec<LinkAction>)
    ensures
        action_views(r@) == seq![a@],
{
    let mut r: Vec<LinkAction> = Vec::new();
    r.push(a);
    assert(action_views(r@) =~= seq![a@]);
    r
}

fn two(a: LinkAction, b: LinkAction) -> (r: Vec<LinkAction>)
    ensures
        action_views(r@) == seq![a@, b@],
{
    let mut r: Vec<LinkAction> = Vec::new();
    r.push(a);
    r.push(b);
    assert(action_views(r@) =~= seq![a@, b@]);
    r
}

fn lift_desktop(actions: Vec<DesktopAction>) -> (r: Vec<LinkAction>)
    ensures
        action_views(r@) == desktop_all(desktop_session::action_views(actions@)),
{
    let mut r: Vec<LinkAction> = Vec::new();
    let ghost all = actions@;
    let ghost n = actions@.len();
    for a in it: actions
        invariant
            it.seq() == all,
            r@.len() == it.index(),
            forall|i: int| 0 <= i < r@.len() ==> (#[trigger] r@[i])@ == desktop_lifted(all[i]@),
    {
        match a {
            DesktopAction::Send(message) => {
                r.push(LinkAction::Queue(P2pMessage::RemoteDesktop { message }));
            },
            DesktopAction::Emit(e) => {
                r.push(LinkAction::Emit(SessionEvent::RemoteDesktop(e)));
            },
            DesktopAction::TryEmit(e) => {
                r.push(LinkAction::TryEmit(SessionEvent::RemoteDesktop(e)));
            },
        }
    }
    assert(action_views(r@) =~= desktop_all(desktop_session::action_views(all)));
    r
}

/// The actions of a step of the transfers as actions of the link.
pub fn lift_transfer(actions: Vec<TransferAction>) -> (r: Vec<LinkAction>)
    ensures
        action_views(r@) == transfer_all(transfer_session::action_views(actions@)),
{
    let mut r: Vec<LinkAction> = Vec::new();
    let ghost all = actions@;
    for a in it: actions
        invariant
            it.seq() == all,
            r@.len() == it.index(),
            forall|i: int| 0 <= i < r@.len() ==> (#[trigger] r@[i])@ == transfer_lifted(all[i]@),
    {
        match a {
            TransferAction::Save(m) => {
                r.push(LinkAction::Save(m));
            },
            TransferAction::Emit(e) => {
                r.push(LinkAction::Emit(e));
            },
            TransferAction::Send(m) => {
                r.push(LinkAction::Queue(m));
            },
        }
    }
    assert(action_views(r@) =~= transfer_all(transfer_session::action_views(all)));
    r
}

fn desktop_step(r: Result<Vec<DesktopAction>, DesktopRefusal>, prefix: &str) -> (a: Vec<LinkAction>)
    ensures
        action_views(a@) == desktop_outcome(desktop_session::step_result(r), prefix@),
{
    match r {
        Ok(actions) => lift_desktop(actions),
        Err(e) => {
            let words = e.message();
            one(
                LinkAction::Emit(
                    SessionEvent::RemoteDesktop(
                        RemoteDesktopEvent::Error {
                            session_id: None,
                            message: text::concat(prefix, words.as_str()),
                        },
                    ),
                ),
            )
        },
    }
}

/// The actions of a step of the transfers, or the event that tells what went wrong.
pub fn transfer_step(r: Result<Vec<TransferAction>, String>) -> (a: Vec<LinkAction>)
    ensures
        action_views(a@) == transfer_outcome(transfer_session::step_result(r)),
{
    match r {
        Ok(actions) => lift_transfer(actions),
        Err(e) => one(LinkAction::Emit(SessionEvent::Error(e))),
    }
}

fn lose(reason: String) -> (r: Vec<LinkAction>)
    ensures
        action_views(r@) == lost(reason@),
{
    two(LinkAction::Emit(SessionEvent::DirectLinkLost(reason)), LinkAction::Stop)
}

impl LinkState {
    /// A link that has just been made.
    pub fn new(peer_remote_desktop: bool, store: TransferStore) -> (r: Self)
        ensures
            r@ == (LinkStateView {
                peer_remote_desktop,
                desktop: RemoteDesktopRuntimeStateView::idle(),
                transfers: TransferStateView::empty(store@),
                frame_in_flight: false,
            }),
            r@ == LinkStateView::start(peer_remote_desktop, store@),
    {
        LinkState {
            peer_remote_desktop,
            desktop: RemoteDesktopRuntimeState::default(),
            transfers: TransferState::new(store),
            frame_in_flight: false,
        }
    }

    /// What the user interface is told of a new link.
    pub fn opening(info: DirectLinkInfo) -> (r: Vec<LinkAction>)
        ensures
            action_views(r@) == seq![
                LinkActionView::Emit(SessionEventView::DirectLinkEstablished(info@)),
                LinkActionView::Emit(
                    SessionEventView::RemoteDesktop(
                        RemoteDesktopEventView::PeerAvailabilityChanged(
                            info@.peer_remote_desktop,
                        ),
                    ),
                ),
            ],
            action_views(r@) == LinkStateView::opened(info@),
    {
        let available = info.peer_remote_desktop;
        two(
            LinkAction::Emit(SessionEvent::DirectLinkEstablished(info)),
            LinkAction::Emit(
                SessionEvent::RemoteDesktop(RemoteDesktopEvent::PeerAvailabilityChanged(available)),
            ),
        )
    }

    /// May a frame be taken up? Only one is on its way at a time.
    pub fn wants_frame(&self) -> (r: bool)
        ensures
            r == !self@.frame_in_flight,
            r == self@.wants_frame(),
    {
        !self.frame_in_flight
    }

    fn command(&mut self, command: DirectCommand) -> (r: Vec<LinkAction>)
        ensures
            (final(self)@, action_views(r@)) == old(self)@.command(command@),
    {
        proof {
            reveal_strlit("");
            assert forall|s: Seq<char>| #[trigger] (""@ + s) == s by {
                assert(""@ + s =~= s);
            }
        }
        match command {
            DirectCommand::Chat(text) => one(LinkAction::Queue(P2pMessage::Chat { text })),
            DirectCommand::OfferFile(path) => one(LinkAction::OfferFile(path)),
            DirectCommand::AcceptFile { transfer_id, save_path } => one(
                LinkAction::AcceptFile { transfer_id, save_path },
            ),
            DirectCommand::RejectFile { transfer_id, reason } => lift_transfer(
                self.transfers.reject_file_offer(transfer_id, reason),
            ),
            DirectCommand::PauseTransfer(id) => {
                let step = self.transfers.pause_transfer(id.as_str());
                let ok = step.is_ok();
                let mut actions = transfer_step(step);
                if ok {
                    let ghost before = action_views(actions@);
                    let ghost v = id@;
                    actions.push(LinkAction::ConfirmPause(id));
                    assert(action_views(actions@) =~= before.push(LinkActionView::ConfirmPause(v)));
                }
                actions
            },
            DirectCommand::ResumeTransfer(id) => transfer_step(self.transfers.resume_transfer(id)),
            DirectCommand::CancelTransfer { transfer_id, reason } => lift_transfer(
                self.transfers.cancel_transfer(transfer_id, reason),
            ),
            DirectCommand::OfferRemoteDesktop(offer) => desktop_step(
                self.desktop.offer(offer, self.peer_remote_desktop),
                "",
            ),
            DirectCommand::AnswerRemoteDesktop { session_id, accepted, reason } => desktop_step(
                self.desktop.answer(session_id, accepted, reason),
                "",
            ),
            DirectCommand::SetRemoteDesktopPermission { session_id, allow_control } => desktop_step(
                self.desktop.set_permission(session_id, allow_control),
                "",
            ),
            DirectCommand::StopRemoteDesktop { session_id, reason } => desktop_step(
                self.desktop.stop(session_id, reason),
                "",
            ),
            DirectCommand::RemoteInput { session_id, sequence, event } => desktop_step(
                self.desktop.send_input(session_id, sequence, event),
                "",
            ),
            DirectCommand::RequestRemoteKeyframe(session_id) => one(
                LinkAction::Queue(
                    P2pMessage::RemoteDesktop {
                        message: RemoteDesktopControl::KeyframeRequest { session_id },
                    },
                ),
            ),
        }
    }

    fn message(&mut self, message: P2pMessage) -> (r: Vec<LinkAction>)
        ensures
            leads_to(
                old(self)@,
                LinkEventView::Message(message@),
                (final(self)@, action_views(r@)),
            ),
    {
        let ghost before = self@;
        let ghost given = message@;
        match message {
            P2pMessage::Chat { text } => one(LinkAction::Emit(SessionEvent::MessageReceived(text))),
            P2pMessage::Ping => one(LinkAction::Queue(P2pMessage::Pong)),
            P2pMessage::Pong => no_actions(),
            P2pMessage::FileOffer { metadata } => {
                let ghost m = metadata@;
                let step = self.transfers.receive_file_offer(metadata);
                let ghost r = transfer_session::step_result(step);
                let ghost inner = self.transfers@;
                let actions = transfer_step(step);
                proof {
                    let name = choose|name: Option<Seq<char>>|
                        paths::names_the_file(m.file_name, name) && (inner, r)
                            == before.transfers.hear_offer(
                            #[trigger] transfer::offer_outcome(m, name),
                        );
                    assert((self@, action_views(actions@)) == before.step(
                        LinkEventView::Message(given),
                        name,
                    ));
                }
                actions
            },
            P2pMessage::FileAccept { transfer_id, completed_chunks } => one(
                LinkAction::StartSending { transfer_id, completed_chunks },
            ),
            P2pMessage::FileResume { transfer_id, completed_chunks } => one(
                LinkAction::StartSending { transfer_id, completed_chunks },
            ),
            P2pMessage::FileReject { transfer_id, reason } => lift_transfer(
                self.transfers.mark_transfer_cancelled(transfer_id, reason),
            ),
            P2pMessage::FileCancel { transfer_id, reason } => lift_transfer(
                self.transfers.mark_transfer_cancelled(transfer_id, reason),
            ),
            P2pMessage::FileAck { transfer_id, chunks } => transfer_step(
                self.transfers.acknowledge_sent_chunks(transfer_id.as_str(), chunks),
            ),
            P2pMessage::FileComplete { transfer_id } => transfer_step(
                self.transfers.complete_sent_transfer(transfer_id),
            ),
            P2pMessage::RemoteDesktop { message } => desktop_step(
                self.desktop.handle_remote_desktop_control(message),
                "远程桌面协议错误：",
            ),
            P2pMessage::Hello { .. } => lose("直连控制流收到重复 Hello".to_owned()),
        }
    }

    /// Anything that happens on the link, and what it leads to.
    pub fn step(&mut self, event: LinkEvent) -> (r: Vec<LinkAction>)
        ensures
            leads_to(old(self)@, event@, (final(self)@, action_views(r@))),
    {
        match event {
            LinkEvent::Command(Some(command)) => self.command(command),
            LinkEvent::Command(None) => two(LinkAction::CloseSession, LinkAction::Stop),
            LinkEvent::Frame(None) => no_actions(),
            LinkEvent::Frame(Some(frame)) => {
                if self.desktop.is_sharing(frame.header.session_id.as_str()) {
                    self.frame_in_flight = true;
                    one(LinkAction::StreamFrame(frame))
                } else {
                    no_actions()
                }
            },
            LinkEvent::FrameDone(done) => {
                if done {
                    self.frame_in_flight = false;
                }
                no_actions()
            },
            LinkEvent::FrameFailed { session_id, error } => two(
                LinkAction::Emit(
                    SessionEvent::RemoteDesktop(
                        RemoteDesktopEvent::Error {
                            session_id: Some(session_id.clone()),
                            message: text::concat("发送远程桌面帧失败：", error.as_str()),
                        },
                    ),
                ),
                LinkAction::Emit(
                    SessionEvent::RemoteDesktop(RemoteDesktopEvent::KeyframeRequested(session_id)),
                ),
            ),
            LinkEvent::Outbound(Some(message)) => one(LinkAction::Write(message)),
            LinkEvent::Outbound(None) => one(LinkAction::Stop),
            LinkEvent::WriteFailed(error) => lose(error),
            LinkEvent::Message(message) => self.message(message),
            LinkEvent::ReadFailed(error) => lose(error),
            LinkEvent::PingDue => one(LinkAction::Write(P2pMessage::Ping)),
            LinkEvent::Closed(reason) => lose(reason),
        }
    }

    /// The link has ended: what the user interface is told of a desktop that was shared.
    pub fn closing(&mut self) -> (r: Vec<LinkAction>)
        ensures
            final(self)@ == (LinkStateView { desktop: old(self)@.desktop.tear_down().0, ..old(self)@ }),
            action_views(r@) == desktop_all(old(self)@.desktop.tear_down().1),
            (final(self)@, action_views(r@)) == old(self)@.closed(),
    {
        lift_desktop(self.desktop.tear_down())
    }
}

/// Does the event end the link?
pub open spec fn is_end(event: LinkEventView) -> bool {
    match event {
        LinkEventView::Command(None) => true,
        LinkEventView::Outbound(None) => true,
        LinkEventView::WriteFailed(_) => true,
        LinkEventView::ReadFailed(_) => true,
        LinkEventView::Closed(_) => true,
        LinkEventView::Message(P2pMessageView::Hello { .. }) => true,
        _ => false,
    }
}

/// A link ends exactly when the session, the queue or the connection is gone, or when the peer
/// greets a second time. Nothing that goes wrong with a transfer or a desktop ends it.
pub proof fn only_an_end_ends_the_link(
    s: LinkStateView,
    event: LinkEventView,
    after: LinkStateView,
    actions: Seq<LinkActionView>,
)
    requires
        leads_to(s, event, (after, actions)),
    ensures
        actions.contains(LinkActionView::Stop) <==> is_end(event),
{
    if is_end(event) {
        if event is Outbound {
            assert(actions[0] == LinkActionView::Stop);
        } else {
            assert(actions[1] == LinkActionView::Stop);
        }
    } else {
        assert forall|i: int| 0 <= i < actions.len() implies actions[i] != LinkActionView::Stop by {
            lemma_no_stop_inside(s, event, after, actions, i);
        }
    }
}

proof fn lemma_no_stop_inside(
    s: LinkStateView,
    event: LinkEventView,
    after: LinkStateView,
    actions: Seq<LinkActionView>,
    i: int,
)
    requires
        leads_to(s, event, (after, actions)),
        !is_end(event),
        0 <= i < actions.len(),
    ensures
        actions[i] != LinkActionView::Stop,
{
    assert forall|d: Seq<DesktopActionView>, k: int|
        0 <= k < d.len() implies #[trigger] desktop_all(d)[k] != LinkActionView::Stop by {}
    assert forall|t: Seq<TransferActionView>, k: int|
        0 <= k < t.len() implies #[trigger] transfer_all(t)[k] != LinkActionView::Stop by {}
}

/// At most one frame is on its way: the link takes none up before the last one is done with.
pub proof fn one_frame_at_a_time(
    s: LinkStateView,
    frame: RemoteDesktopFrameView,
    after: LinkStateView,
    actions: Seq<LinkActionView>,
)
    requires
        !s.frame_in_flight,
        leads_to(s, LinkEventView::Frame(Some(frame)), (after, actions)),
    ensures
        after.frame_in_flight <==> actions.contains(LinkActionView::StreamFrame(frame)),
        !after.frame_in_flight ==> after == s,
        after.step(LinkEventView::FrameDone(true), None).0.frame_in_flight == false,
{
    if after.frame_in_flight {
        assert(actions[0] == LinkActionView::StreamFrame(frame));
    }
}

/// A sign of life of the peer is answered.
pub proof fn ping_is_answered(s: LinkStateView, after: LinkStateView, actions: Seq<LinkActionView>)
    requires
        leads_to(s, LinkEventView::Message(P2pMessageView::Ping), (after, actions)),
    ensures
        after == s,
        actions == seq![LinkActionView::Queue(P2pMessageView::Pong)],
{
}

/// A new link has no transfers, shares nothing and wants frames; the user interface is told that it is
/// there, and whether the peer can share its desktop.
pub proof fn a_new_link_is_told_and_empty(info: DirectLinkInfoView, store: Seq<char>, id: Seq<char>)
    ensures
        ({
            let s = LinkStateView::start(info.peer_remote_desktop, store);
            let told = LinkStateView::opened(info);
            &&& s.peer_remote_desktop == info.peer_remote_desktop
            &&& s.desktop.state is Idle
            &&& s.wants_frame()
            &&& s.transfers.store == store
            &&& !s.transfers.pending_offers.dom().contains(id)
            &&& !s.transfers.senders.dom().contains(id)
            &&& !s.transfers.receivers.dom().contains(id)
            &&& !s.transfers.cancelled.contains(id)
            &&& told.len() == 2
            &&& told[0] == LinkActionView::Emit(SessionEventView::DirectLinkEstablished(info))
            &&& told[1] == LinkActionView::Emit(
                SessionEventView::RemoteDesktop(
                    RemoteDesktopEventView::PeerAvailabilityChanged(info.peer_remote_desktop),
                ),
            )
        }),
{
}

/// While a frame is on its way no other is taken up, and once it is through the next one is.
pub proof fn frames_are_wanted_one_by_one(s: LinkStateView)
    ensures
        s.frame_in_flight <==> !s.wants_frame(),
        s.step(LinkEventView::FrameDone(true), None).0.wants_frame(),
        s.step(LinkEventView::FrameDone(false), None).0 == s,
{
}

/// At the end of a link nothing is shared any more, and the user interface is told so where something
/// was; transfers stay as they are.
pub proof fn the_end_of_a_link_ends_the_desktop(s: LinkStateView)
    ensures
        ({
            let (t, actions) = s.closed();
            &&& t.desktop.state is Idle
            &&& t.transfers == s.transfers
            &&& t.frame_in_flight == s.frame_in_flight
            &&& s.desktop.state is Idle ==> actions.len() == 0
            &&& !(s.desktop.state is Idle) ==> actions.contains(
                LinkActionView::Emit(
                    SessionEventView::RemoteDesktop(
                        RemoteDesktopEventView::StateChanged(RemoteDesktopStateView::Idle),
                    ),
                ),
            )
        }),
{
    let ending = s.desktop.tear_down().1;
    let (t, actions) = s.closed();
    if !(s.desktop.state is Idle) {
        let n = ending.len() as int;
        assert(actions[n - 1] == desktop_lifted(ending[n - 1]));
        assert(actions.contains(actions[n - 1]));
    }
}

}
