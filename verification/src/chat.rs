//! The chat as the user sees it: rooms, messages and files.
use crate::connection::ConnectionState;
use crate::frames::{FrameDecoder, FrameDecoderView};
use crate::remote_desktop::{
    RemoteDesktopConfig, RemoteDesktopOffer, RemoteDesktopOfferView, RemoteDesktopState,
    RemoteDesktopStateView, RemoteDisplay, RemoteDisplayView, RemoteInputEvent,
    RemoteInputEventView,
};
use crate::scan_codes::Modifiers;
use crate::session::{
    FileTransferProgress, FileTransferProgressView, SessionRole, SessionRoleView,
};
use crate::settings::{ClientConfig, ClientConfigView, RoleChoice};
use crate::transfer::{FileMetadata, FileMetadataView, TransferDirection, TransferStatus};
use crate::{connection, labels, paths, rooms, settings, text};
use vstd::prelude::*;

verus! {

/// Who a line of the chat is from.
#[derive(Debug, Clone, Copy, PartialEq, Eq, Structural)]
pub enum ChatAuthor {
    Mine,
    Peer,
    System,
}

/// What is shown beside the connection.
#[derive(Debug, Clone, Copy, PartialEq, Eq, Structural)]
pub enum MainView {
    Chat,
    RemoteDesktop,
}

/// A line of the chat.
#[derive(Debug, PartialEq, Eq)]
pub struct ChatLine {
    pub author: ChatAuthor,
    pub text: String,
}

#[verifier::ext_equal]
pub struct ChatLineView {
    pub author: ChatAuthor,
    pub text: Seq<char>,
}

impl View for ChatLine {
    type V = ChatLineView;

    open spec fn view(&self) -> ChatLineView {
        ChatLineView {
            author: self.author,
            text: self.text@,
        }
    }
}

impl Clone for ChatLine {
    fn clone(&self) -> (r: Self)
        ensures
            r@ == self@,
    {
        ChatLine {
            author: self.author,
            text: self.text.clone(),
        }
    }
}

/// A transfer as it is listed.
#[derive(Debug, PartialEq, Eq)]
pub struct TransferLine {
    pub transfer_id: String,
    pub file_name: String,
    pub direction: TransferDirection,
    pub status: TransferStatus,
    pub completed_bytes: u64,
    pub total_bytes: u64,
}

#[verifier::ext_equal]
pub struct TransferLineView {
    pub transfer_id: Seq<char>,
    pub file_name: Seq<char>,
    pub direction: TransferDirection,
    pub status: TransferStatus,
    pub completed_bytes: u64,
    pub total_bytes: u64,
}

impl View for TransferLine {
    type V = TransferLineView;

    open spec fn view(&self) -> TransferLineView {
        TransferLineView {
            transfer_id: self.transfer_id@,
            file_name: self.file_name@,
            direction: self.direction,
            status: self.status,
            completed_bytes: self.completed_bytes,
            total_bytes: self.total_bytes,
        }
    }
}

impl Clone for TransferLine {
    fn clone(&self) -> (r: Self)
        ensures
            r@ == self@,
    {
        TransferLine {
            transfer_id: self.transfer_id.clone(),
            file_name: self.file_name.clone(),
            direction: self.direction,
            status: self.status,
            completed_bytes: self.completed_bytes,
            total_bytes: self.total_bytes,
        }
    }
}

/// For what the input of this machine is opened.
#[derive(Debug, Clone, Copy, PartialEq, Eq, Structural)]
pub enum InjectorPurpose {
    /// The viewer was given control while the screen was shared already.
    Permission,
    /// The screen is about to be shared with a viewer who may control it.
    Capture,
}

/// What the user interface has done for it: things asked of the session, of the screen and of the
/// input of this machine, and choices of files.
#[derive(Debug)]
pub enum UiAction {
    CloseSession,
    DropEvents,
    SaveServer(String),
    StartSession { role: SessionRole, url: String },
    SendText(String),
    SendFile(String),
    AcceptFile { transfer_id: String, path: String },
    RejectFile { transfer_id: String, reason: String },
    PauseTransfer(String),
    ResumeTransfer(String),
    CancelTransfer { transfer_id: String, reason: String },
    RetryDirect,
    AskPermissions { control: bool },
    PickFile,
    PickSavePath(FileMetadata),
    OfferDesktop { display: RemoteDisplay, config: RemoteDesktopConfig, allow_control: bool },
    AnswerDesktop { session_id: String, accepted: bool, reason: Option<String> },
    SetPermission { session_id: String, allow_control: bool },
    WithdrawPermission(String),
    StopDesktop { session_id: String, reason: String },
    SendInput { session_id: String, sequence: u64, event: RemoteInputEvent },
    RequestKeyframe(String),
    StartCapture(RemoteDesktopOffer),
    StopCapture,
    ForceKeyframe,
    OpenInjector { display_id: String, purpose: InjectorPurpose },
    Inject(RemoteInputEvent),
    ReleaseInputs,
    TakeFrame(String),
}

#[verifier::ext_equal]
pub enum UiActionView {
    CloseSession,
    DropEvents,
    SaveServer(Seq<char>),
    StartSession { role: SessionRoleView, url: Seq<char> },
    SendText(Seq<char>),
    SendFile(Seq<char>),
    AcceptFile { transfer_id: Seq<char>, path: Seq<char> },
    RejectFile { transfer_id: Seq<char>, reason: Seq<char> },
    PauseTransfer(Seq<char>),
    ResumeTransfer(Seq<char>),
    CancelTransfer { transfer_id: Seq<char>, reason: Seq<char> },
    RetryDirect,
    AskPermissions { control: bool },
    PickFile,
    PickSavePath(FileMetadataView),
    OfferDesktop { display: RemoteDisplayView, config: RemoteDesktopConfig, allow_control: bool },
    AnswerDesktop { session_id: Seq<char>, accepted: bool, reason: Option<Seq<char>> },
    SetPermission { session_id: Seq<char>, allow_control: bool },
    WithdrawPermission(Seq<char>),
    StopDesktop { session_id: Seq<char>, reason: Seq<char> },
    SendInput { session_id: Seq<char>, sequence: u64, event: RemoteInputEventView },
    RequestKeyframe(Seq<char>),
    StartCapture(RemoteDesktopOfferView),
    StopCapture,
    ForceKeyframe,
    OpenInjector { display_id: Seq<char>, purpose: InjectorPurpose },
    Inject(RemoteInputEventView),
    ReleaseInputs,
    TakeFrame(Seq<char>),
}

impl View for UiAction {
    type V = UiActionView;

    open spec fn view(&self) -> UiActionView {
        match self {
            UiAction::CloseSession => UiActionView::CloseSession,
            UiAction::DropEvents => UiActionView::DropEvents,
            UiAction::SaveServer(a) => UiActionView::SaveServer(a@),
            UiAction::StartSession { role, url } => UiActionView::StartSession {
                role: role@,
                url: url@,
            },
            UiAction::SendText(a) => UiActionView::SendText(a@),
            UiAction::SendFile(a) => UiActionView::SendFile(a@),
            UiAction::AcceptFile { transfer_id, path } => UiActionView::AcceptFile {
                transfer_id: transfer_id@,
                path: path@,
            },
            UiAction::RejectFile { transfer_id, reason } => UiActionView::RejectFile {
                transfer_id: transfer_id@,
                reason: reason@,
            },
            UiAction::PauseTransfer(a) => UiActionView::PauseTransfer(a@),
            UiAction::ResumeTransfer(a) => UiActionView::ResumeTransfer(a@),
            UiAction::CancelTransfer { transfer_id, reason } => UiActionView::CancelTransfer {
                transfer_id: transfer_id@,
                reason: reason@,
            },
            UiAction::RetryDirect => UiActionView::RetryDirect,
            UiAction::AskPermissions { control } => UiActionView::AskPermissions {
                control: *control,
            },
            UiAction::PickFile => UiActionView::PickFile,
            UiAction::PickSavePath(a) => UiActionView::PickSavePath(a@),
            UiAction::OfferDesktop {
                display,
                config,
                allow_control,
            } => UiActionView::OfferDesktop {
                display: display@,
                config: *config,
                allow_control: *allow_control,
            },
            UiAction::AnswerDesktop {
                session_id,
                accepted,
                reason,
            } => UiActionView::AnswerDesktop {
                session_id: session_id@,
                accepted: *accepted,
                reason: text::opt_text(*reason),
            },
            UiAction::SetPermission { session_id, allow_control } => UiActionView::SetPermission {
                session_id: session_id@,
                allow_control: *allow_control,
            },
            UiAction::WithdrawPermission(a) => UiActionView::WithdrawPermission(a@),
            UiAction::StopDesktop { session_id, reason } => UiActionView::StopDesktop {
                session_id: session_id@,
                reason: reason@,
            },
            UiAction::SendInput { session_id, sequence, event } => UiActionView::SendInput {
                session_id: session_id@,
                sequence: *sequence,
                event: event@,
            },
            UiAction::RequestKeyframe(a) => UiActionView::RequestKeyframe(a@),
            UiAction::StartCapture(a) => UiActionView::StartCapture(a@),
            UiAction::StopCapture => UiActionView::StopCapture,
            UiAction::ForceKeyframe => UiActionView::ForceKeyframe,
            UiAction::OpenInjector { display_id, purpose } => UiActionView::OpenInjector {
                display_id: display_id@,
                purpose: *purpose,
            },
            UiAction::Inject(a) => UiActionView::Inject(a@),
            UiAction::ReleaseInputs => UiActionView::ReleaseInputs,
            UiAction::TakeFrame(a) => UiActionView::TakeFrame(a@),
        }
    }
}

/// What the user interface shows and knows: the server and the room, the chat, the files, and the
/// shared desktop. Whether there is a session, whether the screen is captured and whether the input
/// of this machine is open stand for the things themselves.
#[derive(Debug)]
pub struct ChatModel {
    pub server: String,
    pub room_input: String,
    pub active_room: Option<String>,
    pub message_input: String,
    pub messages: Vec<ChatLine>,
    pub pending_offers: Vec<FileMetadata>,
    pub transfers: Vec<TransferLine>,
    pub status: String,
    pub state: ConnectionState,
    pub has_handle: bool,
    pub pending_test_message: Option<String>,
    pub main_view: MainView,
    pub remote_displays: Vec<RemoteDisplay>,
    pub remote_display_index: usize,
    pub remote_peer_supported: bool,
    pub remote_state: RemoteDesktopState,
    pub remote_offer: Option<RemoteDesktopOffer>,
    pub remote_allow_control: bool,
    pub remote_frame_size: Option<(u32, u32)>,
    pub remote_decoder: Option<FrameDecoder>,
    pub capturing: bool,
    pub injecting: bool,
    pub remote_input_sequence: u64,
    pub remote_keyboard_captured: bool,
    pub remote_modifiers: Modifiers,
    pub remote_last_pointer: Option<(u16, u16)>,
}

#[verifier::ext_equal]
pub struct ChatModelView {
    pub server: Seq<char>,
    pub room_input: Seq<char>,
    pub active_room: Option<Seq<char>>,
    pub message_input: Seq<char>,
    pub messages: Seq<ChatLineView>,
    pub pending_offers: Seq<FileMetadataView>,
    pub transfers: Seq<TransferLineView>,
    pub status: Seq<char>,
    pub state: ConnectionState,
    pub has_handle: bool,
    pub pending_test_message: Option<Seq<char>>,
    pub main_view: MainView,
    pub remote_displays: Seq<RemoteDisplayView>,
    pub remote_display_index: usize,
    pub remote_peer_supported: bool,
    pub remote_state: RemoteDesktopStateView,
    pub remote_offer: Option<RemoteDesktopOfferView>,
    pub remote_allow_control: bool,
    pub remote_frame_size: Option<(u32, u32)>,
    pub remote_decoder: Option<FrameDecoderView>,
    pub capturing: bool,
    pub injecting: bool,
    pub remote_input_sequence: u64,
    pub remote_keyboard_captured: bool,
    pub remote_modifiers: Modifiers,
    pub remote_last_pointer: Option<(u16, u16)>,
}

impl View for ChatModel {
    type V = ChatModelView;

    open spec fn view(&self) -> ChatModelView {
        ChatModelView {
            server: self.server@,
            room_input: self.room_input@,
            active_room: text::opt_text(self.active_room),
            message_input: self.message_input@,
            messages: self.messages@.map_values(|x: ChatLine| x@),
            pending_offers: self.pending_offers@.map_values(|x: FileMetadata| x@),
            transfers: self.transfers@.map_values(|x: TransferLine| x@),
            status: self.status@,
            state: self.state,
            has_handle: self.has_handle,
            pending_test_message: text::opt_text(self.pending_test_message),
            main_view: self.main_view,
            remote_displays: self.remote_displays@.map_values(|x: RemoteDisplay| x@),
            remote_display_index: self.remote_display_index,
            remote_peer_supported: self.remote_peer_supported,
            remote_state: self.remote_state@,
            remote_offer: match self.remote_offer {
                Some(x) => Some(x@),
                None => None,
            },
            remote_allow_control: self.remote_allow_control,
            remote_frame_size: self.remote_frame_size,
            remote_decoder: match self.remote_decoder {
                Some(x) => Some(x@),
                None => None,
            },
            capturing: self.capturing,
            injecting: self.injecting,
            remote_input_sequence: self.remote_input_sequence,
            remote_keyboard_captured: self.remote_keyboard_captured,
            remote_modifiers: self.remote_modifiers,
            remote_last_pointer: self.remote_last_pointer,
        }
    }
}

pub open spec fn action_views(actions: Seq<UiAction>) -> Seq<UiActionView> {
    actions.map_values(|a: UiAction| a@)
}

pub fn nothing() -> (r: Vec<UiAction>)
    ensures
        action_views(r@) == Seq::<UiActionView>::empty(),
{
    let r: Vec<UiAction> = Vec::new();
    assert(action_views(r@) =~= Seq::<UiActionView>::empty());
    r
}

pub fn just(action: UiAction) -> (r: Vec<UiAction>)
    ensures
        action_views(r@) == seq![action@],
{
    let mut r: Vec<UiAction> = Vec::new();
    r.push(action);
    assert(action_views(r@) =~= seq![action@]);
    r
}

/// One list of actions after the other.
pub fn joined(first: Vec<UiAction>, second: Vec<UiAction>) -> (r: Vec<UiAction>)
    ensures
        action_views(r@) == action_views(first@) + action_views(second@),
{
    let mut r = first;
    let mut rest = second;
    r.append(&mut rest);
    assert(action_views(r@) =~= action_views(first@) + action_views(second@));
    r
}

impl UiActionView {
    /// What the user is told when the action has failed for this reason; nothing where it may fail
    /// in silence or where its outcome is taken up elsewhere.
    pub open spec fn failure(self, error: Seq<char>) -> Option<Seq<char>> {
        match self {
            UiActionView::SendText(_) => Some("发送失败："@ + error),
            UiActionView::SendFile(_) => Some("发送文件失败："@ + error),
            UiActionView::AcceptFile { .. } => Some("接收文件失败："@ + error),
            UiActionView::RejectFile { .. } => Some("拒绝文件失败："@ + error),
            UiActionView::PauseTransfer(_) => Some("暂停失败："@ + error),
            UiActionView::ResumeTransfer(_) => Some("继续失败："@ + error),
            UiActionView::CancelTransfer { .. } => Some("取消失败："@ + error),
            UiActionView::RetryDirect => Some("重试直连失败："@ + error),
            UiActionView::OfferDesktop { .. } => Some("发起屏幕共享失败："@ + error),
            UiActionView::AnswerDesktop { .. } => Some("处理屏幕共享请求失败："@ + error),
            UiActionView::SetPermission { .. } => Some("更新远程控制权限失败："@ + error),
            UiActionView::StopDesktop { .. } => Some("停止远程桌面失败："@ + error),
            UiActionView::SendInput { .. } => Some("发送远程输入失败："@ + error),
            _ => None,
        }
    }
}

impl UiAction {
    /// What the user is told when the action has failed for this reason.
    pub fn failure(&self, error: &str) -> (r: Option<String>)
        ensures
            text::opt_text(r) == self@.failure(error@),
    {
        match self {
            UiAction::SendText(_) => Some(text::concat("发送失败：", error)),
            UiAction::SendFile(_) => Some(text::concat("发送文件失败：", error)),
            UiAction::AcceptFile { .. } => Some(text::concat("接收文件失败：", error)),
            UiAction::RejectFile { .. } => Some(text::concat("拒绝文件失败：", error)),
            UiAction::PauseTransfer(_) => Some(text::concat("暂停失败：", error)),
            UiAction::ResumeTransfer(_) => Some(text::concat("继续失败：", error)),
            UiAction::CancelTransfer { .. } => Some(text::concat("取消失败：", error)),
            UiAction::RetryDirect => Some(text::concat("重试直连失败：", error)),
            UiAction::OfferDesktop { .. } => Some(text::concat("发起屏幕共享失败：", error)),
            UiAction::AnswerDesktop { .. } => Some(text::concat("处理屏幕共享请求失败：", error)),
            UiAction::SetPermission { .. } => Some(text::concat("更新远程控制权限失败：", error)),
            UiAction::StopDesktop { .. } => Some(text::concat("停止远程桌面失败：", error)),
            UiAction::SendInput { .. } => Some(text::concat("发送远程输入失败：", error)),
            _ => None,
        }
    }
}

/// The names of offers.
pub open spec fn offer_ids(offers: Seq<FileMetadataView>) -> Seq<Seq<char>> {
    offers.map_values(|o: FileMetadataView| o.transfer_id)
}

/// The names of transfers.
pub open spec fn line_ids(lines: Seq<TransferLineView>) -> Seq<Seq<char>> {
    lines.map_values(|l: TransferLineView| l.transfer_id)
}

/// The offers but for those of this name.
pub open spec fn without(offers: Seq<FileMetadataView>, id: Seq<char>) -> Seq<FileMetadataView>
    decreases offers.len(),
{
    if offers.len() == 0 {
        offers
    } else if offers.last().transfer_id == id {
        without(offers.drop_last(), id)
    } else {
        without(offers.drop_last(), id).push(offers.last())
    }
}

/// The offers with this one, in the place of an earlier one of its name or at the end.
pub open spec fn with_offer(offers: Seq<FileMetadataView>, offer: FileMetadataView) -> Seq<
    FileMetadataView,
> {
    match offer_ids(offers).index_of_first(offer.transfer_id) {
        Some(i) => offers.update(i, offer),
        None => offers.push(offer),
    }
}

pub open spec fn line_of(progress: FileTransferProgressView) -> TransferLineView {
    TransferLineView {
        transfer_id: progress.transfer_id,
        file_name: progress.file_name,
        direction: progress.direction,
        status: progress.status,
        completed_bytes: progress.completed_bytes,
        total_bytes: progress.total_bytes,
    }
}

/// The transfers with this one, in the place of an earlier one of its name or at the end.
pub open spec fn with_line(lines: Seq<TransferLineView>, line: TransferLineView) -> Seq<
    TransferLineView,
> {
    match line_ids(lines).index_of_first(line.transfer_id) {
        Some(i) => lines.update(i, line),
        None => lines.push(line),
    }
}

/// The room that a role asks for.
pub open spec fn room_of(role: SessionRoleView) -> Option<Seq<char>> {
    match role {
        SessionRoleView::Host => None,
        SessionRoleView::Guest { room_code } => Some(room_code),
    }
}

/// The address at which a session with this role turns to the server.
pub open spec fn address_of(server: Seq<char>, role: SessionRoleView) -> Result<
    Seq<char>,
    Seq<char>,
> {
    match role {
        SessionRoleView::Host => rooms::host_address(server),
        SessionRoleView::Guest { room_code } => rooms::guest_address(server, room_code),
    }
}

impl ChatModelView {
    /// With the words in the chat, as the program's own.
    pub open spec fn said(self, words: Seq<char>) -> Self {
        ChatModelView {
            messages: self.messages.push(ChatLineView { author: ChatAuthor::System, text: words }),
            ..self
        }
    }

    /// With a status.
    pub open spec fn noted(self, words: Seq<char>) -> Self {
        ChatModelView { status: words, ..self }
    }

    /// With the words as status and in the chat.
    pub open spec fn told(self, words: Seq<char>) -> Self {
        self.noted(words).said(words)
    }

    /// Nothing of a shared desktop is left.
    pub open spec fn freed(self) -> Self {
        ChatModelView {
            capturing: false,
            injecting: false,
            remote_offer: None,
            remote_decoder: None,
            remote_frame_size: None,
            remote_keyboard_captured: false,
            remote_input_sequence: 0,
            remote_modifiers: Modifiers::spec_none(),
            remote_last_pointer: None,
            ..self
        }
    }

    /// What is done so that nothing of a shared desktop is left: the capture ends, and what is held
    /// down for the viewer is released.
    pub open spec fn freeing(self) -> Seq<UiActionView> {
        (if self.capturing {
            seq![UiActionView::StopCapture]
        } else {
            Seq::empty()
        }) + (if self.injecting {
            seq![UiActionView::ReleaseInputs]
        } else {
            Seq::empty()
        })
    }

    /// There is no session.
    pub open spec fn closed(self) -> Self {
        ChatModelView {
            remote_state: RemoteDesktopStateView::Idle,
            remote_peer_supported: false,
            has_handle: false,
            active_room: None,
            state: ConnectionState::Idle,
            ..self.freed()
        }
    }

    pub open spec fn closing(self) -> Seq<UiActionView> {
        self.freeing() + (if self.has_handle {
            seq![UiActionView::CloseSession]
        } else {
            Seq::empty()
        }) + seq![UiActionView::DropEvents]
    }

    /// The user has left the session.
    pub open spec fn disconnected(self) -> Self {
        self.closed().noted("已断开"@).said("连接已断开。"@)
    }

    /// The code of the room, or something in its place.
    pub open spec fn shown_room(self) -> Seq<char> {
        match self.active_room {
            Some(room) => if room.len() > 0 {
                room
            } else {
                "----"@
            },
            None => "----"@,
        }
    }

    /// The server's address is saved, without the white space around it, unless it is blank.
    pub open spec fn saving(self) -> (Self, Seq<UiActionView>) {
        let server = text::white_trimmed(self.server);
        if server.len() == 0 {
            (self.noted("信令服务器地址不能为空"@), Seq::empty())
        } else {
            (ChatModelView { server, ..self }, seq![UiActionView::SaveServer(server)])
        }
    }

    /// The server's address was saved or not.
    pub open spec fn saved(self, outcome: Result<(), Seq<char>>) -> Self {
        match outcome {
            Ok(_) => if self.state == ConnectionState::Idle {
                self.noted("服务器地址已保存"@)
            } else {
                self
            },
            Err(error) => self.noted("保存失败："@ + error),
        }
    }

    /// A session with this role is started, in the place of any other.
    pub open spec fn starting(self, role: SessionRoleView) -> (Self, Seq<UiActionView>) {
        match address_of(self.server, role) {
            Err(error) => (self.told(error), Seq::empty()),
            Ok(url) => {
                let (s, saving) = self.closed().saving();
                (s, self.closing() + saving + seq![UiActionView::StartSession { role, url }])
            },
        }
    }

    /// A session begins, with nothing in the chat and no files.
    pub open spec fn begun(self, room: Option<Seq<char>>) -> Self {
        ChatModelView {
            has_handle: true,
            active_room: room,
            messages: Seq::empty(),
            pending_offers: Seq::empty(),
            transfers: Seq::empty(),
            state: ConnectionState::Connecting,
            ..self
        }
    }

    /// The session was started.
    pub open spec fn started(self, role: SessionRoleView) -> Self {
        let s = self.begun(room_of(role));
        let t = match room_of(role) {
            Some(room) => s.noted("正在加入房间 "@ + room).said(
                "正在加入房间 "@ + room + "，连接信令服务中。"@,
            ),
            None => s.noted("正在创建房间"@).said(
                "正在连接信令服务，等待服务器分配房间号。"@,
            ),
        };
        match self.pending_test_message {
            Some(message) => t.said("将在直连建立后自动发送测试消息："@ + message),
            None => t,
        }
    }

    /// The session could not be started.
    pub open spec fn start_failed(self, error: Seq<char>) -> Self {
        self.noted(error).said("连接失败："@ + error)
    }

    /// The room that was typed is entered.
    pub open spec fn joining(self) -> (Self, Seq<UiActionView>) {
        let room = rooms::normalized(self.room_input);
        let s = ChatModelView { room_input: room, ..self };
        if rooms::is_room(room) {
            s.starting(SessionRoleView::Guest { room_code: room })
        } else {
            (s.said("请输入 4 位数字房间号。"@).noted("房间号需要 4 位数字"@), Seq::empty())
        }
    }

    /// A text is sent and stands in the chat.
    pub open spec fn sending(self, message: Seq<char>) -> (Self, Seq<UiActionView>) {
        if self.has_handle {
            (
                ChatModelView {
                    messages: self.messages.push(
                        ChatLineView { author: ChatAuthor::Mine, text: message },
                    ),
                    ..self
                },
                seq![UiActionView::SendText(message)],
            )
        } else {
            (self.said("请先创建或加入房间。"@), Seq::empty())
        }
    }

    /// What was typed is sent.
    pub open spec fn sending_typed(self) -> (Self, Seq<UiActionView>) {
        let message = text::white_trimmed(self.message_input);
        if message.len() == 0 {
            (self, Seq::empty())
        } else if !self.has_handle {
            (self.said("请先创建或加入房间。"@), Seq::empty())
        } else if self.state != ConnectionState::Direct {
            (self.said("请等待连接房间后再发送消息。"@), Seq::empty())
        } else {
            (ChatModelView { message_input: Seq::empty(), ..self }).sending(message)
        }
    }

    /// A file to send is chosen.
    pub open spec fn choosing_file(self) -> (Self, Seq<UiActionView>) {
        if !self.has_handle {
            (self.said("请先创建或加入房间。"@), Seq::empty())
        } else if self.state != ConnectionState::Direct {
            (self.said("请等待直连建立后再发送文件。"@), Seq::empty())
        } else {
            (self, seq![UiActionView::PickFile])
        }
    }

    /// A file was chosen that goes by this name.
    pub open spec fn file_chosen(self, path: Seq<char>, name: Seq<char>) -> (
        Self,
        Seq<UiActionView>,
    ) {
        if self.has_handle {
            (self.said("准备发送文件："@ + name), seq![UiActionView::SendFile(path)])
        } else {
            (self, Seq::empty())
        }
    }

    /// The offer of this name, if there is one.
    pub open spec fn offer_named(self, id: Seq<char>) -> Option<FileMetadataView> {
        match offer_ids(self.pending_offers).index_of_first(id) {
            Some(i) => Some(self.pending_offers[i]),
            None => None,
        }
    }

    /// An offer is accepted: where to is chosen.
    pub open spec fn accepting(self, id: Seq<char>) -> (Self, Seq<UiActionView>) {
        match self.offer_named(id) {
            Some(offer) => if self.has_handle {
                (self, seq![UiActionView::PickSavePath(offer)])
            } else {
                (self, Seq::empty())
            },
            None => (self, Seq::empty()),
        }
    }

    /// Where to was chosen or not.
    pub open spec fn save_path_chosen(self, offer: FileMetadataView, path: Option<Seq<char>>) -> (
        Self,
        Seq<UiActionView>,
    ) {
        match path {
            Some(path) => (
                (ChatModelView {
                    pending_offers: without(self.pending_offers, offer.transfer_id),
                    ..self
                }).said("开始接收文件："@ + offer.file_name),
                seq![UiActionView::AcceptFile { transfer_id: offer.transfer_id, path }],
            ),
            None => (
                self.said("已取消选择保存位置，可稍后接收或拒绝："@ + offer.file_name),
                Seq::empty(),
            ),
        }
    }

    /// An offer is rejected.
    pub open spec fn rejecting(self, id: Seq<char>) -> (Self, Seq<UiActionView>) {
        match offer_ids(self.pending_offers).index_of_first(id) {
            Some(i) => if self.has_handle {
                (
                    (ChatModelView { pending_offers: self.pending_offers.remove(i), ..self }).said(
                        "已拒绝文件："@ + self.pending_offers[i].file_name,
                    ),
                    seq![
                        UiActionView::RejectFile { transfer_id: id, reason: "用户拒绝接收"@ },
                    ],
                )
            } else {
                (self, Seq::empty())
            },
            None => (self, Seq::empty()),
        }
    }

    /// A transfer has moved on. What is under way is no longer an offer.
    pub open spec fn progressed(self, progress: FileTransferProgressView) -> Self {
        ChatModelView {
            pending_offers: without(self.pending_offers, progress.transfer_id),
            transfers: with_line(self.transfers, line_of(progress)),
            ..self
        }
    }

    /// What the session alone has to do.
    pub open spec fn asking(self, action: UiActionView) -> Seq<UiActionView> {
        if self.has_handle {
            seq![action]
        } else {
            Seq::empty()
        }
    }

    /// A direct link is tried again.
    pub open spec fn retrying(self) -> (Self, Seq<UiActionView>) {
        if self.has_handle {
            (
                (ChatModelView { state: ConnectionState::Paired, ..self }).noted(
                    "正在重试直连"@,
                ).said("正在重新收集候选并尝试直连。"@),
                seq![UiActionView::RetryDirect],
            )
        } else {
            (self.said("请先创建或加入房间。"@), Seq::empty())
        }
    }

    /// The peer has shown itself.
    pub open spec fn peer_seen(self, words: Option<Seq<char>>) -> Self {
        let next = connection::after_peer_activity(self.state, self.has_handle);
        if next == self.state {
            self
        } else {
            let s = (ChatModelView { state: next, ..self }).noted("已对接，正在建立直连"@);
            match words {
                Some(words) => s.said(words),
                None => s,
            }
        }
    }

    /// The model before anything has happened.
    pub open spec fn blank(
        server: Seq<char>,
        room: Seq<char>,
        test_message: Option<Seq<char>>,
        displays: Seq<RemoteDisplayView>,
    ) -> Self {
        ChatModelView {
            server,
            room_input: room,
            active_room: None,
            message_input: Seq::empty(),
            messages: Seq::empty(),
            pending_offers: Seq::empty(),
            transfers: Seq::empty(),
            status: "未连接"@,
            state: ConnectionState::Idle,
            has_handle: false,
            pending_test_message: test_message,
            main_view: MainView::Chat,
            remote_displays: displays,
            remote_display_index: 0,
            remote_peer_supported: false,
            remote_state: RemoteDesktopStateView::Idle,
            remote_offer: None,
            remote_allow_control: false,
            remote_frame_size: None,
            remote_decoder: None,
            capturing: false,
            injecting: false,
            remote_input_sequence: 0,
            remote_keyboard_captured: false,
            remote_modifiers: Modifiers::spec_none(),
            remote_last_pointer: None,
        }
    }

    /// The model with which the program starts: a host with a room opens one at once, though the
    /// server gives it its number, and a guest with a valid room enters it.
    pub open spec fn first(
        config: ClientConfigView,
        stored: Option<Seq<char>>,
        displays: Seq<RemoteDisplayView>,
    ) -> (Self, Seq<UiActionView>) {
        let s = Self::blank(
            settings::first_server(config.server_explicit, config.server, stored),
            config.room,
            config.test_message,
            displays,
        );
        match config.role {
            RoleChoice::Host => if config.room.len() == 0 {
                (s, Seq::empty())
            } else {
                let t = s.said("房间号由服务器分配，已忽略 --room/P2P_SIGNALING_ROOM。"@);
                (ChatModelView { room_input: Seq::empty(), ..t }).starting(SessionRoleView::Host)
            },
            RoleChoice::Guest => if rooms::is_room(config.room) {
                s.starting(SessionRoleView::Guest { room_code: config.room })
            } else {
                (s.noted("已填入房间号，可直接加入"@), Seq::empty())
            },
        }
    }
}

impl ChatModel {
    /// The model and the actions with which the program starts.
    pub fn new(config: ClientConfig, stored: Option<String>, displays: Vec<RemoteDisplay>) -> (r: (
        Self,
        Vec<UiAction>,
    ))
        ensures
            (r.0@, action_views(r.1@)) == ChatModelView::first(
                config@,
                text::opt_text(stored),
                displays@.map_values(|d: RemoteDisplay| d@),
            ),
    {
        let server = settings::initial_server(config.server_explicit, config.server, stored);
        let messages: Vec<ChatLine> = Vec::new();
        let pending_offers: Vec<FileMetadata> = Vec::new();
        let transfers: Vec<TransferLine> = Vec::new();
        assert(messages@.map_values(|x: ChatLine| x@) =~= Seq::<ChatLineView>::empty());
        assert(pending_offers@.map_values(|x: FileMetadata| x@) =~= Seq::<
            FileMetadataView,
        >::empty());
        assert(transfers@.map_values(|x: TransferLine| x@) =~= Seq::<TransferLineView>::empty());
        let mut app = ChatModel {
            server,
            room_input: config.room.clone(),
            active_room: None,
            message_input: String::new(),
            messages,
            pending_offers,
            transfers,
            status: "未连接".to_owned(),
            state: ConnectionState::Idle,
            has_handle: false,
            pending_test_message: config.test_message,
            main_view: MainView::Chat,
            remote_displays: displays,
            remote_display_index: 0,
            remote_peer_supported: false,
            remote_state: RemoteDesktopState::Idle,
            remote_offer: None,
            remote_allow_control: false,
            remote_frame_size: None,
            remote_decoder: None,
            capturing: false,
            injecting: false,
            remote_input_sequence: 0,
            remote_keyboard_captured: false,
            remote_modifiers: Modifiers::none(),
            remote_last_pointer: None,
        };
        let ghost s = ChatModelView::blank(
            settings::first_server(config.server_explicit, config.server@, text::opt_text(stored)),
            config.room@,
            text::opt_text(config.test_message),
            displays@.map_values(|d: RemoteDisplay| d@),
        );
        assert(app@ =~= s);
        let actions = match config.role {
            RoleChoice::Host => {
                if config.room.as_str().is_empty() {
                    nothing()
                } else {
                    app.push_system(
                        "房间号由服务器分配，已忽略 --room/P2P_SIGNALING_ROOM。".to_owned(),
                    );
                    app.room_input = String::new();
                    app.start_session(SessionRole::Host)
                }
            },
            RoleChoice::Guest => {
                if rooms::is_valid_room(config.room.as_str()) {
                    app.start_session(SessionRole::Guest { room_code: config.room })
                } else {
                    app.status = "已填入房间号，可直接加入".to_owned();
                    nothing()
                }
            },
        };
        (app, actions)
    }

    pub fn push_message(&mut self, author: ChatAuthor, text: String)
        ensures
            final(self)@ == (ChatModelView {
                messages: old(self)@.messages.push(ChatLineView { author, text: text@ }),
                ..old(self)@
            }),
    {
        let line = ChatLine { author, text };
        let ghost before = self.messages@;
        self.messages.push(line);
        assert(self.messages@.map_values(|x: ChatLine| x@) =~= before.map_values(
            |x: ChatLine| x@,
        ).push(line@));
    }

    pub fn push_system(&mut self, text: String)
        ensures
            final(self)@ == old(self)@.said(text@),
    {
        self.push_message(ChatAuthor::System, text);
    }

    fn tell(&mut self, words: String)
        ensures
            final(self)@ == old(self)@.told(words@),
    {
        self.status = words.clone();
        self.push_system(words);
    }

    pub fn cleanup_remote_desktop_resources(&mut self) -> (r: Vec<UiAction>)
        ensures
            final(self)@ == old(self)@.freed(),
            action_views(r@) == old(self)@.freeing(),
    {
        let mut r = nothing();
        if self.capturing {
            r = joined(r, just(UiAction::StopCapture));
        }
        if self.injecting {
            r = joined(r, just(UiAction::ReleaseInputs));
        }
        assert(action_views(r@) =~= old(self)@.freeing());
        self.capturing = false;
        self.injecting = false;
        self.remote_offer = None;
        self.remote_decoder = None;
        self.remote_frame_size = None;
        self.remote_keyboard_captured = false;
        self.remote_input_sequence = 0;
        self.remote_modifiers = Modifiers::none();
        self.remote_last_pointer = None;
        r
    }

    fn cleanup_remote_desktop(&mut self) -> (r: Vec<UiAction>)
        ensures
            final(self)@ == (ChatModelView {
                remote_state: RemoteDesktopStateView::Idle,
                remote_peer_supported: false,
                ..old(self)@.freed()
            }),
            action_views(r@) == old(self)@.freeing(),
    {
        let r = self.cleanup_remote_desktop_resources();
        self.remote_state = RemoteDesktopState::Idle;
        self.remote_peer_supported = false;
        r
    }

    pub fn close_current_session(&mut self) -> (r: Vec<UiAction>)
        ensures
            final(self)@ == old(self)@.closed(),
            action_views(r@) == old(self)@.closing(),
    {
        let mut r = self.cleanup_remote_desktop();
        if self.has_handle {
            r = joined(r, just(UiAction::CloseSession));
        }
        r = joined(r, just(UiAction::DropEvents));
        assert(action_views(r@) =~= old(self)@.closing());
        self.has_handle = false;
        self.active_room = None;
        self.state = ConnectionState::Idle;
        r
    }

    pub fn disconnect(&mut self) -> (r: Vec<UiAction>)
        ensures
            final(self)@ == old(self)@.closed().noted("已断开"@).said("连接已断开。"@),
            final(self)@ == old(self)@.disconnected(),
            action_views(r@) == old(self)@.closing(),
    {
        let r = self.close_current_session();
        self.status = "已断开".to_owned();
        self.push_system("连接已断开。".to_owned());
        r
    }

    pub fn save_server(&mut self) -> (r: Vec<UiAction>)
        ensures
            (final(self)@, action_views(r@)) == old(self)@.saving(),
    {
        let server = text::trim(self.server.as_str());
        if server.as_str().is_empty() {
            self.status = "信令服务器地址不能为空".to_owned();
            return nothing();
        }
        self.server = server.clone();
        just(UiAction::SaveServer(server))
    }

    pub fn server_saved(&mut self, outcome: Result<(), String>)
        ensures
            final(self)@ == old(self)@.saved(text::error_text(outcome)),
    {
        match outcome {
            Ok(_) => {
                if self.state == ConnectionState::Idle {
                    self.status = "服务器地址已保存".to_owned();
                }
            },
            Err(error) => {
                self.status = text::concat("保存失败：", error.as_str());
            },
        }
    }

    pub fn create_room(&mut self) -> (r: Vec<UiAction>)
        ensures
            (final(self)@, action_views(r@)) == old(self)@.starting(SessionRoleView::Host),
    {
        self.start_session(SessionRole::Host)
    }

    pub fn join_room(&mut self) -> (r: Vec<UiAction>)
        ensures
            (final(self)@, action_views(r@)) == old(self)@.joining(),
    {
        self.room_input = rooms::normalize_room_input(self.room_input.as_str());
        let room = self.room_input.clone();
        if !rooms::is_valid_room(room.as_str()) {
            self.push_system("请输入 4 位数字房间号。".to_owned());
            self.status = "房间号需要 4 位数字".to_owned();
            return nothing();
        }
        self.start_session(SessionRole::Guest { room_code: room })
    }

    pub fn start_session(&mut self, role: SessionRole) -> (r: Vec<UiAction>)
        ensures
            (final(self)@, action_views(r@)) == old(self)@.starting(role@),
    {
        let address = match &role {
            SessionRole::Host => rooms::build_host_signaling_url(self.server.as_str()),
            SessionRole::Guest { room_code } => rooms::build_signaling_url(
                self.server.as_str(),
                room_code.as_str(),
            ),
        };
        let url = match address {
            Ok(url) => url,
            Err(error) => {
                self.tell(error);
                return nothing();
            },
        };
        let closing = self.close_current_session();
        let saving = self.save_server();
        joined(joined(closing, saving), just(UiAction::StartSession { role, url }))
    }

    fn begin(&mut self, room: Option<String>)
        ensures
            final(self)@ == old(self)@.begun(text::opt_text(room)),
    {
        let messages: Vec<ChatLine> = Vec::new();
        let pending_offers: Vec<FileMetadata> = Vec::new();
        let transfers: Vec<TransferLine> = Vec::new();
        assert(messages@.map_values(|x: ChatLine| x@) =~= Seq::<ChatLineView>::empty());
        assert(pending_offers@.map_values(|x: FileMetadata| x@) =~= Seq::<
            FileMetadataView,
        >::empty());
        assert(transfers@.map_values(|x: TransferLine| x@) =~= Seq::<TransferLineView>::empty());
        self.has_handle = true;
        self.active_room = room;
        self.messages = messages;
        self.pending_offers = pending_offers;
        self.transfers = transfers;
        self.state = ConnectionState::Connecting;
    }

    pub fn session_started(&mut self, role: SessionRole)
        ensures
            final(self)@ == old(self)@.started(role@),
    {
        match role {
            SessionRole::Guest { room_code } => {
                let status = text::concat("正在加入房间 ", room_code.as_str());
                let words = text::concat3(
                    "正在加入房间 ",
                    room_code.as_str(),
                    "，连接信令服务中。",
                );
                self.begin(Some(room_code));
                self.status = status;
                self.push_system(words);
            },
            SessionRole::Host => {
                self.begin(None);
                self.status = "正在创建房间".to_owned();
                self.push_system("正在连接信令服务，等待服务器分配房间号。".to_owned());
            },
        }
        if let Some(message) = &self.pending_test_message {
            let words = text::concat("将在直连建立后自动发送测试消息：", message.as_str());
            self.push_system(words);
        }
    }

    pub fn session_failed(&mut self, error: String)
        ensures
            final(self)@ == old(self)@.start_failed(error@),
    {
        let words = text::concat("连接失败：", error.as_str());
        self.status = error;
        self.push_system(words);
    }

    pub fn send_message(&mut self) -> (r: Vec<UiAction>)
        ensures
            (final(self)@, action_views(r@)) == old(self)@.sending_typed(),
    {
        let message = text::trim(self.message_input.as_str());
        if message.as_str().is_empty() {
            return nothing();
        }
        if !self.has_handle {
            self.push_system("请先创建或加入房间。".to_owned());
            return nothing();
        }
        if !connection::can_send_to_room(self.state, self.has_handle) {
            self.push_system("请等待连接房间后再发送消息。".to_owned());
            return nothing();
        }
        self.message_input = String::new();
        self.send_text_message(message)
    }

    pub fn send_text_message(&mut self, message: String) -> (r: Vec<UiAction>)
        ensures
            (final(self)@, action_views(r@)) == old(self)@.sending(message@),
    {
        if !self.has_handle {
            self.push_system("请先创建或加入房间。".to_owned());
            return nothing();
        }
        self.push_message(ChatAuthor::Mine, message.clone());
        just(UiAction::SendText(message))
    }

    pub fn choose_and_send_file(&mut self) -> (r: Vec<UiAction>)
        ensures
            (final(self)@, action_views(r@)) == old(self)@.choosing_file(),
    {
        if !self.has_handle {
            self.push_system("请先创建或加入房间。".to_owned());
            return nothing();
        }
        if self.state != ConnectionState::Direct {
            self.push_system("请等待直连建立后再发送文件。".to_owned());
            return nothing();
        }
        just(UiAction::PickFile)
    }

    /// The file to send was chosen. It goes by the last component of its path, or else by the whole
    /// path.
    pub fn file_picked(&mut self, path: String) -> (r: Vec<UiAction>)
        ensures
            exists|name: Option<Seq<char>>|
                paths::names_the_file(path@, name) && (final(self)@, action_views(r@)) == old(
                    self,
                )@.file_chosen(path@, #[trigger] labels::spoken_name(path@, name)),
            paths::is_portable(path@) ==> (final(self)@, action_views(r@)) == old(
                self,
            )@.file_chosen(path@, labels::spoken_name(path@, paths::final_component(path@))),
    {
        let name = labels::display_file_name(path.as_str());
        self.named_file_picked(path, name)
    }

    /// The file to send was chosen, and it goes by this name.
    pub fn named_file_picked(&mut self, path: String, name: String) -> (r: Vec<UiAction>)
        ensures
            (final(self)@, action_views(r@)) == old(self)@.file_chosen(path@, name@),
    {
        if !self.has_handle {
            return nothing();
        }
        self.push_system(text::concat("准备发送文件：", name.as_str()));
        just(UiAction::SendFile(path))
    }

    fn find_offer(&self, transfer_id: &str) -> (r: Option<usize>)
        ensures
            match (r, offer_ids(self@.pending_offers).index_of_first(transfer_id@)) {
                (Some(i), Some(k)) => i == k && i < self.pending_offers@.len(),
                (None, None) => true,
                _ => false,
            },
    {
        let ghost ids = offer_ids(self@.pending_offers);
        proof {
            ids.index_of_first_ensures(transfer_id@);
        }
        let mut i: usize = 0;
        while i < self.pending_offers.len()
            invariant
                i <= self.pending_offers@.len(),
                ids == offer_ids(self@.pending_offers),
                forall|j: int| 0 <= j < i ==> #[trigger] ids[j] != transfer_id@,
                match ids.index_of_first(transfer_id@) {
                    Some(k) => {
                        &&& 0 <= k < ids.len()
                        &&& ids[k] == transfer_id@
                        &&& forall|j: int| 0 <= j < k ==> ids[j] != transfer_id@
                    },
                    None => !ids.contains(transfer_id@),
                },
            decreases self.pending_offers@.len() - i,
        {
            if text::same_text(self.pending_offers[i].transfer_id.as_str(), transfer_id) {
                assert(ids[i as int] == transfer_id@);
                assert(ids.contains(transfer_id@));
                return Some(i);
            }
            assert(ids[i as int] != transfer_id@);
            i += 1;
        }
        None
    }

    fn find_line(&self, transfer_id: &str) -> (r: Option<usize>)
        ensures
            match (r, line_ids(self@.transfers).index_of_first(transfer_id@)) {
                (Some(i), Some(k)) => i == k && i < self.transfers@.len(),
                (None, None) => true,
                _ => false,
            },
    {
        let ghost ids = line_ids(self@.transfers);
        proof {
            ids.index_of_first_ensures(transfer_id@);
        }
        let mut i: usize = 0;
        while i < self.transfers.len()
            invariant
                i <= self.transfers@.len(),
                ids == line_ids(self@.transfers),
                forall|j: int| 0 <= j < i ==> #[trigger] ids[j] != transfer_id@,
                match ids.index_of_first(transfer_id@) {
                    Some(k) => {
                        &&& 0 <= k < ids.len()
                        &&& ids[k] == transfer_id@
                        &&& forall|j: int| 0 <= j < k ==> ids[j] != transfer_id@
                    },
                    None => !ids.contains(transfer_id@),
                },
            decreases self.transfers@.len() - i,
        {
            if text::same_text(self.transfers[i].transfer_id.as_str(), transfer_id) {
                assert(ids[i as int] == transfer_id@);
                assert(ids.contains(transfer_id@));
                return Some(i);
            }
            assert(ids[i as int] != transfer_id@);
            i += 1;
        }
        None
    }

    /// The user accepts the offer of this name.
    pub fn accept_file_offer(&mut self, transfer_id: &str) -> (r: Vec<UiAction>)
        ensures
            (final(self)@, action_views(r@)) == old(self)@.accepting(transfer_id@),
    {
        match self.find_offer(transfer_id) {
            Some(i) => {
                if self.has_handle {
                    just(UiAction::PickSavePath(self.pending_offers[i].clone()))
                } else {
                    nothing()
                }
            },
            None => nothing(),
        }
    }

    fn drop_offer(&mut self, transfer_id: &str)
        ensures
            final(self)@ == (ChatModelView {
                pending_offers: without(old(self)@.pending_offers, transfer_id@),
                ..old(self)@
            }),
    {
        let ghost all = self@.pending_offers;
        let mut kept: Vec<FileMetadata> = Vec::new();
        let mut i: usize = 0;
        assert(kept@.map_values(|x: FileMetadata| x@) =~= without(all.take(0), transfer_id@));
        while i < self.pending_offers.len()
            invariant
                i <= self.pending_offers@.len(),
                *self == *old(self),
                all == self@.pending_offers,
                kept@.map_values(|x: FileMetadata| x@) == without(
                    all.take(i as int),
                    transfer_id@,
                ),
            decreases self.pending_offers@.len() - i,
        {
            let ghost before = kept@.map_values(|x: FileMetadata| x@);
            assert(all.take(i + 1).drop_last() =~= all.take(i as int));
            if !text::same_text(self.pending_offers[i].transfer_id.as_str(), transfer_id) {
                kept.push(self.pending_offers[i].clone());
                assert(kept@.map_values(|x: FileMetadata| x@) =~= before.push(all[i as int]));
            }
            i += 1;
        }
        assert(all.take(i as int) =~= all);
        self.pending_offers = kept;
    }

    /// Where the offered file goes was chosen, or not.
    pub fn save_path_picked(&mut self, metadata: FileMetadata, path: Option<String>) -> (r: Vec<
        UiAction,
    >)
        ensures
            (final(self)@, action_views(r@)) == old(self)@.save_path_chosen(
                metadata@,
                text::opt_text(path),
            ),
    {
        match path {
            Some(path) => {
                self.drop_offer(metadata.transfer_id.as_str());
                self.push_system(text::concat("开始接收文件：", metadata.file_name.as_str()));
                just(UiAction::AcceptFile { transfer_id: metadata.transfer_id, path })
            },
            None => {
                self.push_system(
                    text::concat(
                        "已取消选择保存位置，可稍后接收或拒绝：",
                        metadata.file_name.as_str(),
                    ),
                );
                nothing()
            },
        }
    }

    pub fn reject_file_offer(&mut self, transfer_id: String) -> (r: Vec<UiAction>)
        ensures
            (final(self)@, action_views(r@)) == old(self)@.rejecting(transfer_id@),
    {
        if !self.has_handle {
            return nothing();
        }
        let index: usize = match self.find_offer(transfer_id.as_str()) {
            Some(i) => i,
            None => {
                return nothing();
            },
        };
        let ghost before = self@.pending_offers;
        let metadata = self.pending_offers.remove(index);
        assert(self@.pending_offers =~= before.remove(index as int));
        self.push_system(text::concat("已拒绝文件：", metadata.file_name.as_str()));
        just(UiAction::RejectFile { transfer_id, reason: "用户拒绝接收".to_owned() })
    }

    pub fn add_pending_offer(&mut self, metadata: FileMetadata)
        ensures
            final(self)@ == (ChatModelView {
                pending_offers: with_offer(old(self)@.pending_offers, metadata@),
                ..old(self)@
            }),
    {
        let ghost before = self@.pending_offers;
        let ghost given = metadata@;
        match self.find_offer(metadata.transfer_id.as_str()) {
            Some(i) => {
                self.pending_offers.set(i, metadata);
                assert(self@.pending_offers =~= before.update(i as int, given));
            },
            None => {
                self.pending_offers.push(metadata);
                assert(self@.pending_offers =~= before.push(given));
            },
        }
    }

    pub fn update_transfer(&mut self, progress: FileTransferProgress)
        ensures
            final(self)@ == old(self)@.progressed(progress@),
    {
        self.drop_offer(progress.transfer_id.as_str());
        let found = self.find_line(progress.transfer_id.as_str());
        let line = TransferLine {
            transfer_id: progress.transfer_id,
            file_name: progress.file_name,
            direction: progress.direction,
            status: progress.status,
            completed_bytes: progress.completed_bytes,
            total_bytes: progress.total_bytes,
        };
        let ghost before = self@.transfers;
        let ghost given = line@;
        match found {
            Some(i) => {
                self.transfers.set(i, line);
                assert(self@.transfers =~= before.update(i as int, given));
            },
            None => {
                self.transfers.push(line);
                assert(self@.transfers =~= before.push(given));
            },
        }
    }

    pub(crate) fn ask(&self, action: UiAction) -> (r: Vec<UiAction>)
        ensures
            action_views(r@) == self@.asking(action@),
    {
        if self.has_handle {
            just(action)
        } else {
            nothing()
        }
    }

    pub fn pause_transfer(&self, transfer_id: String) -> (r: Vec<UiAction>)
        ensures
            action_views(r@) == self@.asking(UiActionView::PauseTransfer(transfer_id@)),
    {
        self.ask(UiAction::PauseTransfer(transfer_id))
    }

    pub fn resume_transfer(&self, transfer_id: String) -> (r: Vec<UiAction>)
        ensures
            action_views(r@) == self@.asking(UiActionView::ResumeTransfer(transfer_id@)),
    {
        self.ask(UiAction::ResumeTransfer(transfer_id))
    }

    pub fn cancel_transfer(&self, transfer_id: String) -> (r: Vec<UiAction>)
        ensures
            action_views(r@) == self@.asking(
                UiActionView::CancelTransfer { transfer_id: transfer_id@, reason: "用户取消"@ },
            ),
    {
        self.ask(UiAction::CancelTransfer { transfer_id, reason: "用户取消".to_owned() })
    }

    pub fn retry_direct(&mut self) -> (r: Vec<UiAction>)
        ensures
            (final(self)@, action_views(r@)) == old(self)@.retrying(),
    {
        if !self.has_handle {
            self.push_system("请先创建或加入房间。".to_owned());
            return nothing();
        }
        self.state = ConnectionState::Paired;
        self.status = "正在重试直连".to_owned();
        self.push_system("正在重新收集候选并尝试直连。".to_owned());
        just(UiAction::RetryDirect)
    }

    pub fn mark_peer_available(&mut self, words: Option<String>)
        ensures
            final(self)@ == old(self)@.peer_seen(text::opt_text(words)),
    {
        let next = connection::state_after_peer_activity(self.state, self.has_handle);
        if next == self.state {
            return;
        }
        self.state = next;
        self.status = "已对接，正在建立直连".to_owned();
        if let Some(words) = words {
            self.push_system(words);
        }
    }

    /// The room's number, or dashes while there is none.
    pub fn room_label(&self) -> (r: &str)
        ensures
            r@ == match self@.active_room {
                Some(room) => if room.len() > 0 {
                    room
                } else {
                    "----"@
                },
                None => "----"@,
            },
            r@ == self@.shown_room(),
    {
        match &self.active_room {
            Some(room) => if room.as_str().is_empty() {
                "----"
            } else {
                room.as_str()
            },
            None => "----",
        }
    }

    /// The room's number was copied.
    pub fn room_copied(&mut self, room: &str)
        ensures
            final(self)@ == old(self)@.noted("已复制房间号 "@ + room@),
    {
        self.status = text::concat("已复制房间号 ", room);
    }

    /// Something that was asked for has failed.
    pub fn notice(&mut self, words: String)
        ensures
            final(self)@ == old(self)@.told(words@),
    {
        self.tell(words);
    }
}

/// Each offer and each transfer is listed once.
pub open spec fn listed_once(s: ChatModelView) -> bool {
    &&& offer_ids(s.pending_offers).no_duplicates()
    &&& line_ids(s.transfers).no_duplicates()
}

/// Without the offers of a name all others are left, in their order.
pub proof fn lemma_without(offers: Seq<FileMetadataView>, id: Seq<char>)
    ensures
        forall|o: FileMetadataView|
            #[trigger] without(offers, id).contains(o) <==> offers.contains(o) && o.transfer_id != id,
        offer_ids(offers).no_duplicates() ==> offer_ids(without(offers, id)).no_duplicates(),
    decreases offers.len(),
{
    if offers.len() > 0 {
        let front = offers.drop_last();
        let rest = without(front, id);
        lemma_without(front, id);
        let all = without(offers, id);
        assert forall|o: FileMetadataView| #[trigger] all.contains(o) <==> offers.contains(o) && o.transfer_id
            != id by {
            if offers.contains(o) {
                let i = choose|i: int| 0 <= i < offers.len() && offers[i] == o;
                if i < front.len() {
                    assert(front[i] == o);
                    assert(front.contains(o));
                }
            }
            if front.contains(o) {
                let i = choose|i: int| 0 <= i < front.len() && front[i] == o;
                assert(offers[i] == o);
            }
            if rest.contains(o) {
                let i = choose|i: int| 0 <= i < rest.len() && rest[i] == o;
                assert(all[i] == o);
            }
            assert(offers[offers.len() - 1] == offers.last());
            if offers.last().transfer_id != id {
                assert(all[rest.len() as int] == offers.last());
                if all.contains(o) && o != offers.last() {
                    let i = choose|i: int| 0 <= i < all.len() && all[i] == o;
                    assert(rest[i] == o);
                }
            }
        }
        if offer_ids(offers).no_duplicates() {
            assert forall|i: int, j: int| 0 <= i < j < front.len() implies offer_ids(front)[i]
                != offer_ids(front)[j] by {
                assert(offer_ids(offers)[i] != offer_ids(offers)[j]);
            }
            assert(offer_ids(front).no_duplicates());
            assert forall|i: int, j: int| 0 <= i < j < all.len() implies offer_ids(all)[i]
                != offer_ids(all)[j] by {
                if j < rest.len() {
                    assert(offer_ids(rest)[i] != offer_ids(rest)[j]);
                } else {
                    assert(rest.contains(rest[i]));
                    let k = choose|k: int| 0 <= k < front.len() && front[k] == rest[i];
                    assert(offer_ids(offers)[k] != offer_ids(offers)[offers.len() - 1]);
                }
            }
        }
    }
}

/// Whatever is offered, rejected or moves on, each offer and each transfer is listed once, and what
/// is under way is not listed as an offer.
pub proof fn files_are_listed_once(
    s: ChatModelView,
    offer: FileMetadataView,
    progress: FileTransferProgressView,
    id: Seq<char>,
)
    requires
        listed_once(s),
    ensures
        listed_once(
            ChatModelView { pending_offers: with_offer(s.pending_offers, offer), ..s },
        ),
        listed_once(s.progressed(progress)),
        listed_once(s.rejecting(id).0),
        listed_once(s.save_path_chosen(offer, Some(id)).0),
        !offer_ids(s.progressed(progress).pending_offers).contains(progress.transfer_id),
{
    lemma_without(s.pending_offers, progress.transfer_id);
    lemma_without(s.pending_offers, offer.transfer_id);
    let ids = offer_ids(s.pending_offers);
    ids.index_of_first_ensures(offer.transfer_id);
    ids.index_of_first_ensures(id);
    let with = with_offer(s.pending_offers, offer);
    assert forall|i: int, j: int| 0 <= i < j < with.len() implies offer_ids(with)[i] != offer_ids(
        with,
    )[j] by {
        if j < ids.len() {
            assert(ids[i] != ids[j]);
        } else {
            assert(ids.contains(ids[i]));
        }
    }
    let lines = line_ids(s.transfers);
    lines.index_of_first_ensures(progress.transfer_id);
    let moved = with_line(s.transfers, line_of(progress));
    assert forall|i: int, j: int| 0 <= i < j < moved.len() implies line_ids(moved)[i] != line_ids(
        moved,
    )[j] by {
        if j < lines.len() {
            assert(lines[i] != lines[j]);
        } else {
            assert(lines.contains(lines[i]));
        }
    }
    let left = s.progressed(progress).pending_offers;
    if offer_ids(left).contains(progress.transfer_id) {
        let i = choose|i: int|
            0 <= i < offer_ids(left).len() && offer_ids(left)[i] == progress.transfer_id;
        assert(left.contains(left[i]));
    }
    let rejected = s.rejecting(id).0.pending_offers;
    assert forall|i: int, j: int| 0 <= i < j < rejected.len() implies offer_ids(rejected)[i]
        != offer_ids(rejected)[j] by {
        match ids.index_of_first(id) {
            Some(k) => {
                if s.has_handle {
                    let a = if i < k {
                        i
                    } else {
                        i + 1
                    };
                    let b = if j < k {
                        j
                    } else {
                        j + 1
                    };
                    assert(ids[a] != ids[b]);
                } else {
                    assert(ids[i] != ids[j]);
                }
            },
            None => {
                assert(ids[i] != ids[j]);
            },
        }
    }
}

/// A message goes out only over a direct link, is shown as one's own, and leaves the field in which
/// it was typed empty; one that does not go out stays there.
pub proof fn messages_go_over_a_direct_link(s: ChatModelView)
    ensures
        ({
            let (t, actions) = s.sending_typed();
            let message = text::white_trimmed(s.message_input);
            if s.has_handle && s.state == ConnectionState::Direct && message.len() > 0 {
                &&& actions == seq![UiActionView::SendText(message)]
                &&& t.messages.last() == (ChatLineView { author: ChatAuthor::Mine, text: message })
                &&& t.message_input.len() == 0
            } else {
                &&& actions.len() == 0
                &&& t.message_input == s.message_input
            }
        }),
{
}

/// Once a session is closed, nothing of it is left: no room, no shared desktop, no hold on the input
/// of this machine.
pub proof fn a_closed_session_leaves_nothing(s: ChatModelView)
    ensures
        !s.closed().has_handle,
        s.closed().active_room is None,
        s.closed().remote_state is Idle,
        s.closed().freeing() == Seq::<UiActionView>::empty(),
        s.capturing ==> s.closing().contains(UiActionView::StopCapture),
        s.injecting ==> s.closing().contains(UiActionView::ReleaseInputs),
        s.has_handle ==> s.closing().contains(UiActionView::CloseSession),
{
    let all = s.closing();
    let n: int = if s.capturing {
        1
    } else {
        0
    };
    let m: int = if s.injecting {
        1
    } else {
        0
    };
    if s.capturing {
        assert(all[0] == UiActionView::StopCapture);
    }
    if s.injecting {
        assert(all[n] == UiActionView::ReleaseInputs);
    }
    if s.has_handle {
        assert(all[n + m] == UiActionView::CloseSession);
    }
    assert(s.closed().freeing() =~= Seq::<UiActionView>::empty());
}

}
