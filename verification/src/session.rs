//! What a session is told and what it tells.
use crate::candidates::{ConnectInfo, ConnectInfoView};
use crate::direct::{DirectLinkInfo, DirectLinkInfoView};
use crate::remote_desktop::{
    RemoteDesktopEvent, RemoteDesktopEventView, RemoteDesktopOffer, RemoteDesktopOfferView,
    RemoteInputEvent, RemoteInputEventView,
};
use crate::signaling::{SignalingEnvelope, SignalingEnvelopeView, SignalingRole};
use crate::text;
use crate::transfer::{
    FileMetadata, FileMetadataView, TransferDirection, TransferManifest, TransferManifestView,
    TransferStatus,
};
use vstd::prelude::*;

verus! {

/// Which end of a session one is. The host brings no room code: the server gives it one.
#[derive(Debug)]
pub enum SessionRole {
    Host,
    Guest { room_code: String },
}

#[verifier::ext_equal]
pub enum SessionRoleView {
    Host,
    Guest { room_code: Seq<char> },
}

impl View for SessionRole {
    type V = SessionRoleView;

    open spec fn view(&self) -> SessionRoleView {
        match self {
            SessionRole::Host => SessionRoleView::Host,
            SessionRole::Guest { room_code } => SessionRoleView::Guest { room_code: room_code@ },
        }
    }
}

impl Clone for SessionRole {
    fn clone(&self) -> (r: Self)
        ensures
            r@ == self@,
    {
        match self {
            SessionRole::Host => SessionRole::Host,
            SessionRole::Guest { room_code } => SessionRole::Guest { room_code: room_code.clone() },
        }
    }
}

/// How far a transfer has come.
#[derive(Debug)]
pub struct FileTransferProgress {
    pub transfer_id: String,
    pub file_name: String,
    pub direction: TransferDirection,
    pub status: TransferStatus,
    pub completed_bytes: u64,
    pub total_bytes: u64,
}

#[verifier::ext_equal]
pub struct FileTransferProgressView {
    pub transfer_id: Seq<char>,
    pub file_name: Seq<char>,
    pub direction: TransferDirection,
    pub status: TransferStatus,
    pub completed_bytes: u64,
    pub total_bytes: u64,
}

impl View for FileTransferProgress {
    type V = FileTransferProgressView;

    open spec fn view(&self) -> FileTransferProgressView {
        FileTransferProgressView {
            transfer_id: self.transfer_id@,
            file_name: self.file_name@,
            direction: self.direction,
            status: self.status,
            completed_bytes: self.completed_bytes,
            total_bytes: self.total_bytes,
        }
    }
}

impl Clone for FileTransferProgress {
    fn clone(&self) -> (r: Self)
        ensures
            r@ == self@,
    {
        FileTransferProgress {
            transfer_id: self.transfer_id.clone(),
            file_name: self.file_name.clone(),
            direction: self.direction,
            status: self.status,
            completed_bytes: self.completed_bytes,
            total_bytes: self.total_bytes,
        }
    }
}

/// What the session tells the user interface. A closed signaling connection leaves a direct link
/// as it is; only it cannot be made anew.
#[derive(Debug)]
pub enum SessionEvent {
    Connected,
    SignalingClosed,
    RoomCodeAssigned(String),
    LocalCandidatesCollected(ConnectInfo),
    PeerCandidatesReceived(ConnectInfo),
    DirectLinkEstablished(DirectLinkInfo),
    DirectLinkFailed(String),
    DirectLinkLost(String),
    PeerConnected,
    PeerDisconnected,
    MessageReceived(String),
    FileOffered(FileMetadata),
    FileProgress(FileTransferProgress),
    FileCompleted { transfer_id: String, file_name: String, path: Option<String> },
    FileFailed { transfer_id: String, file_name: String, message: String },
    FileCancelled { transfer_id: String, file_name: String, reason: String },
    RemoteDesktop(RemoteDesktopEvent),
    Error(String),
}

#[verifier::ext_equal]
pub enum SessionEventView {
    Connected,
    SignalingClosed,
    RoomCodeAssigned(Seq<char>),
    LocalCandidatesCollected(ConnectInfoView),
    PeerCandidatesReceived(ConnectInfoView),
    DirectLinkEstablished(DirectLinkInfoView),
    DirectLinkFailed(Seq<char>),
    DirectLinkLost(Seq<char>),
    PeerConnected,
    PeerDisconnected,
    MessageReceived(Seq<char>),
    FileOffered(FileMetadataView),
    FileProgress(FileTransferProgressView),
    FileCompleted { transfer_id: Seq<char>, file_name: Seq<char>, path: Option<Seq<char>> },
    FileFailed { transfer_id: Seq<char>, file_name: Seq<char>, message: Seq<char> },
    FileCancelled { transfer_id: Seq<char>, file_name: Seq<char>, reason: Seq<char> },
    RemoteDesktop(RemoteDesktopEventView),
    Error(Seq<char>),
}

impl View for SessionEvent {
    type V = SessionEventView;

    open spec fn view(&self) -> SessionEventView {
        match self {
            SessionEvent::Connected => SessionEventView::Connected,
            SessionEvent::SignalingClosed => SessionEventView::SignalingClosed,
            SessionEvent::RoomCodeAssigned(a) => SessionEventView::RoomCodeAssigned(a@),
            SessionEvent::LocalCandidatesCollected(a) => SessionEventView::LocalCandidatesCollected(a@),
            SessionEvent::PeerCandidatesReceived(a) => SessionEventView::PeerCandidatesReceived(a@),
            SessionEvent::DirectLinkEstablished(a) => SessionEventView::DirectLinkEstablished(a@),
            SessionEvent::DirectLinkFailed(a) => SessionEventView::DirectLinkFailed(a@),
            SessionEvent::DirectLinkLost(a) => SessionEventView::DirectLinkLost(a@),
            SessionEvent::PeerConnected => SessionEventView::PeerConnected,
            SessionEvent::PeerDisconnected => SessionEventView::PeerDisconnected,
            SessionEvent::MessageReceived(a) => SessionEventView::MessageReceived(a@),
            SessionEvent::FileOffered(a) => SessionEventView::FileOffered(a@),
            SessionEvent::FileProgress(a) => SessionEventView::FileProgress(a@),
            SessionEvent::FileCompleted {
                transfer_id,
                file_name,
                path,
            } => SessionEventView::FileCompleted {
                transfer_id: transfer_id@,
                file_name: file_name@,
                path: text::opt_text(*path),
            },
            SessionEvent::FileFailed {
                transfer_id,
                file_name,
                message,
            } => SessionEventView::FileFailed {
                transfer_id: transfer_id@,
                file_name: file_name@,
                message: message@,
            },
            SessionEvent::FileCancelled {
                transfer_id,
                file_name,
                reason,
            } => SessionEventView::FileCancelled {
                transfer_id: transfer_id@,
                file_name: file_name@,
                reason: reason@,
            },
            SessionEvent::RemoteDesktop(a) => SessionEventView::RemoteDesktop(a@),
            SessionEvent::Error(a) => SessionEventView::Error(a@),
        }
    }
}

/// What the user interface asks of the direct link.
#[derive(Debug)]
pub enum DirectCommand {
    Chat(String),
    OfferFile(String),
    AcceptFile { transfer_id: String, save_path: String },
    RejectFile { transfer_id: String, reason: String },
    PauseTransfer(String),
    ResumeTransfer(String),
    CancelTransfer { transfer_id: String, reason: String },
    OfferRemoteDesktop(RemoteDesktopOffer),
    AnswerRemoteDesktop { session_id: String, accepted: bool, reason: Option<String> },
    SetRemoteDesktopPermission { session_id: String, allow_control: bool },
    StopRemoteDesktop { session_id: String, reason: String },
    RemoteInput { session_id: String, sequence: u64, event: RemoteInputEvent },
    RequestRemoteKeyframe(String),
}

#[verifier::ext_equal]
pub enum DirectCommandView {
    Chat(Seq<char>),
    OfferFile(Seq<char>),
    AcceptFile { transfer_id: Seq<char>, save_path: Seq<char> },
    RejectFile { transfer_id: Seq<char>, reason: Seq<char> },
    PauseTransfer(Seq<char>),
    ResumeTransfer(Seq<char>),
    CancelTransfer { transfer_id: Seq<char>, reason: Seq<char> },
    OfferRemoteDesktop(RemoteDesktopOfferView),
    AnswerRemoteDesktop { session_id: Seq<char>, accepted: bool, reason: Option<Seq<char>> },
    SetRemoteDesktopPermission { session_id: Seq<char>, allow_control: bool },
    StopRemoteDesktop { session_id: Seq<char>, reason: Seq<char> },
    RemoteInput { session_id: Seq<char>, sequence: u64, event: RemoteInputEventView },
    RequestRemoteKeyframe(Seq<char>),
}

impl View for DirectCommand {
    type V = DirectCommandView;

    open spec fn view(&self) -> DirectCommandView {
        match self {
            DirectCommand::Chat(a) => DirectCommandView::Chat(a@),
            DirectCommand::OfferFile(a) => DirectCommandView::OfferFile(a@),
            DirectCommand::AcceptFile { transfer_id, save_path } => DirectCommandView::AcceptFile {
                transfer_id: transfer_id@,
                save_path: save_path@,
            },
            DirectCommand::RejectFile { transfer_id, reason } => DirectCommandView::RejectFile {
                transfer_id: transfer_id@,
                reason: reason@,
            },
            DirectCommand::PauseTransfer(a) => DirectCommandView::PauseTransfer(a@),
            DirectCommand::ResumeTransfer(a) => DirectCommandView::ResumeTransfer(a@),
            DirectCommand::CancelTransfer {
                transfer_id,
                reason,
            } => DirectCommandView::CancelTransfer {
                transfer_id: transfer_id@,
                reason: reason@,
            },
            DirectCommand::OfferRemoteDesktop(a) => DirectCommandView::OfferRemoteDesktop(a@),
            DirectCommand::AnswerRemoteDesktop {
                session_id,
                accepted,
                reason,
            } => DirectCommandView::AnswerRemoteDesktop {
                session_id: session_id@,
                accepted: *accepted,
                reason: text::opt_text(*reason),
            },
            DirectCommand::SetRemoteDesktopPermission {
                session_id,
                allow_control,
            } => DirectCommandView::SetRemoteDesktopPermission {
                session_id: session_id@,
                allow_control: *allow_control,
            },
            DirectCommand::StopRemoteDesktop {
                session_id,
                reason,
            } => DirectCommandView::StopRemoteDesktop {
                session_id: session_id@,
                reason: reason@,
            },
            DirectCommand::RemoteInput {
                session_id,
                sequence,
                event,
            } => DirectCommandView::RemoteInput {
                session_id: session_id@,
                sequence: *sequence,
                event: event@,
            },
            DirectCommand::RequestRemoteKeyframe(a) => DirectCommandView::RequestRemoteKeyframe(a@),
        }
    }
}

impl SessionRoleView {
    pub open spec fn signaling_role(self) -> SignalingRole {
        match self {
            SessionRoleView::Host => SignalingRole::Host,
            SessionRoleView::Guest { .. } => SignalingRole::Guest,
        }
    }

    /// The greeting with which the session turns to the server.
    pub open spec fn hello(self) -> SignalingEnvelopeView {
        SignalingEnvelopeView::Hello {
            role: self.signaling_role(),
            room_code: match self {
                SessionRoleView::Host => None,
                SessionRoleView::Guest { room_code } => Some(room_code),
            },
        }
    }
}

pub fn signaling_role_for_session(role: &SessionRole) -> (r: SignalingRole)
    ensures
        r == role@.signaling_role(),
{
    match role {
        SessionRole::Host => SignalingRole::Host,
        SessionRole::Guest { .. } => SignalingRole::Guest,
    }
}

/// A session that has not been started.
#[derive(Debug)]
pub struct ChatSession {
    role: SessionRole,
    signaling_url: String,
}

impl ChatSession {
    pub closed spec fn spec_role(self) -> SessionRoleView {
        self.role@
    }

    pub closed spec fn spec_url(self) -> Seq<char> {
        self.signaling_url@
    }

    pub fn new(role: SessionRole, signaling_url: String) -> (r: Self)
        ensures
            r.spec_role() == role@,
            r.spec_url() == signaling_url@,
    {
        ChatSession { role, signaling_url }
    }

    pub fn url(&self) -> (r: &str)
        ensures
            r@ == self.spec_url(),
    {
        self.signaling_url.as_str()
    }

    pub fn signaling_role(&self) -> (r: SignalingRole)
        ensures
            r == self.spec_role().signaling_role(),
    {
        signaling_role_for_session(&self.role)
    }

    /// The greeting with which the session turns to the server.
    pub fn hello(&self) -> (r: SignalingEnvelope)
        ensures
            r@ == self.spec_role().hello(),
    {
        match &self.role {
            SessionRole::Host => SignalingEnvelope::Hello {
                role: SignalingRole::Host,
                room_code: None,
            },
            SessionRole::Guest { room_code } => SignalingEnvelope::Hello {
                role: SignalingRole::Guest,
                room_code: Some(room_code.clone()),
            },
        }
    }
}

/// How far the transfer of a record has come.
pub open spec fn progress_of(manifest: TransferManifestView) -> FileTransferProgressView {
    FileTransferProgressView {
        transfer_id: manifest.metadata.transfer_id,
        file_name: manifest.metadata.file_name,
        direction: manifest.direction,
        status: manifest.status,
        completed_bytes: manifest.completed_bytes() as u64,
        total_bytes: manifest.metadata.file_size,
    }
}

/// The event that tells how far a transfer has come.
pub fn progress_event(manifest: &TransferManifest) -> (r: SessionEvent)
    ensures
        r@ == SessionEventView::FileProgress(progress_of(manifest@)),
{
    SessionEvent::FileProgress(
        FileTransferProgress {
            transfer_id: manifest.metadata.transfer_id.clone(),
            file_name: manifest.metadata.file_name.clone(),
            direction: manifest.direction,
            status: manifest.status,
            completed_bytes: manifest.completed_bytes(),
            total_bytes: manifest.metadata.file_size,
        },
    )
}

/// A host greets the server as a host, without a room; a guest greets it as a guest, with the room
/// that it wants to enter.
pub proof fn a_session_greets_with_its_role_and_room(room: Seq<char>)
    ensures
        SessionRoleView::Host.hello() == (SignalingEnvelopeView::Hello {
            role: SignalingRole::Host,
            room_code: None,
        }),
        (SessionRoleView::Guest { room_code: room }).hello() == (SignalingEnvelopeView::Hello {
            role: SignalingRole::Guest,
            room_code: Some(room),
        }),
        SessionRoleView::Host.signaling_role() == SignalingRole::Host,
        (SessionRoleView::Guest { room_code: room }).signaling_role() == SignalingRole::Guest,
{
}

/// What is told of a transfer is that of its record: the file, its direction and status, all its
/// bytes, and of those that are done no more than there are, counted by whole chunks.
pub proof fn progress_is_that_of_the_record(m: TransferManifestView)
    ensures
        ({
            let p = progress_of(m);
            let done = m.done().len() * m.metadata.chunk_size;
            &&& p.transfer_id == m.metadata.transfer_id
            &&& p.file_name == m.metadata.file_name
            &&& p.direction == m.direction
            &&& p.status == m.status
            &&& p.total_bytes == m.metadata.file_size
            &&& p.completed_bytes <= p.total_bytes
            &&& done <= m.metadata.file_size ==> p.completed_bytes == done
            &&& done > m.metadata.file_size ==> p.completed_bytes == p.total_bytes
        }),
{
    assert(m.done().len() * m.metadata.chunk_size >= 0) by (nonlinear_arith);
}

}
