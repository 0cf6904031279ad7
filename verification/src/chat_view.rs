//! What stands on the pages: which buttons can be pressed and what is written beside them.
use crate::chat::{
    action_views, nothing, ChatAuthor, ChatModel, ChatModelView, TransferLine, TransferLineView,
    UiAction, UiActionView,
};
use crate::connection::ConnectionState;
use crate::remote_desktop::{
    RemoteDesktopOffer, RemoteDesktopOfferView, RemoteDesktopState, RemoteDesktopStateView,
    RemoteDisplay, RemoteDisplayView,
};
use crate::transfer::{FileMetadata, FileMetadataView, TransferStatus};
use crate::{connection, labels, rooms, text};
use vstd::prelude::*;

verus! {

/// What the user can do with a file.
#[derive(Debug, Clone, Copy, PartialEq, Eq, Structural)]
pub enum RowAction {
    Accept,
    Reject,
    Pause,
    Resume,
    Cancel,
}

/// Who wrote a line, for reading; the program's own lines bear no name.
pub open spec fn author_words(author: ChatAuthor) -> Option<Seq<char>> {
    match author {
        ChatAuthor::Mine => Some("我"@),
        ChatAuthor::Peer => Some("对方"@),
        ChatAuthor::System => None,
    }
}

pub fn author_label(author: ChatAuthor) -> (r: Option<&'static str>)
    ensures
        author_words(author) == match r {
            Some(name) => Some(name@),
            None => None,
        },
{
    match author {
        ChatAuthor::Mine => Some("我"),
        ChatAuthor::Peer => Some("对方"),
        ChatAuthor::System => None,
    }
}

/// What is written below a transfer: its direction and state, and how much of it is there.
pub open spec fn row_text(line: TransferLineView) -> Seq<char> {
    labels::direction_words(line.direction) + " · "@ + labels::status_words(line.status) + " · "@
        + labels::bytes_text(line.completed_bytes) + " / "@ + labels::bytes_text(line.total_bytes)
}

/// What can be done with a transfer beside cancelling it.
pub open spec fn row_button(status: TransferStatus) -> Option<RowAction> {
    match status {
        TransferStatus::Paused => Some(RowAction::Resume),
        TransferStatus::Failed => Some(RowAction::Resume),
        TransferStatus::Offered => Some(RowAction::Pause),
        TransferStatus::Accepted => Some(RowAction::Pause),
        TransferStatus::Complete => None,
        TransferStatus::Cancelled => None,
    }
}

pub open spec fn is_cancellable(status: TransferStatus) -> bool {
    status != TransferStatus::Complete && status != TransferStatus::Cancelled
}

/// What is written below a transfer.
pub fn transfer_row_text(line: &TransferLine) -> (r: String)
    ensures
        r@ == row_text(line@),
{
    let mut r = labels::direction_label(line.direction).to_owned();
    r.append(" · ");
    r.append(labels::transfer_status_label(&line.status));
    r.append(" · ");
    let done = labels::format_bytes(line.completed_bytes);
    r.append(done.as_str());
    r.append(" / ");
    let total = labels::format_bytes(line.total_bytes);
    r.append(total.as_str());
    r
}

/// Can the transfer be cancelled, and what else can be done with it?
pub fn transfer_row_actions(status: TransferStatus) -> (r: (bool, Option<RowAction>))
    ensures
        r.0 == is_cancellable(status),
        r.1 == row_button(status),
{
    match status {
        TransferStatus::Paused => (true, Some(RowAction::Resume)),
        TransferStatus::Failed => (true, Some(RowAction::Resume)),
        TransferStatus::Offered => (true, Some(RowAction::Pause)),
        TransferStatus::Accepted => (true, Some(RowAction::Pause)),
        TransferStatus::Complete => (false, None),
        TransferStatus::Cancelled => (false, None),
    }
}

/// What is written below an offer: how large the file is and in how many pieces it comes.
pub open spec fn offer_text(offer: FileMetadataView) -> Seq<char> {
    "待接收 · "@ + labels::bytes_text(offer.file_size) + " · "@ + text::decimal_text(
        offer.total_chunks as nat,
    ) + " 个分段"@
}

pub fn pending_offer_row_text(offer: &FileMetadata) -> (r: String)
    ensures
        r@ == offer_text(offer@),
{
    let size = labels::format_bytes(offer.file_size);
    let count = text::decimal(offer.total_chunks);
    let mut r = text::concat3("待接收 · ", size.as_str(), " · ");
    r.append(count.as_str());
    r.append(" 个分段");
    r
}

/// Two lengths with a cross between them.
pub open spec fn size_text(width: u32, height: u32) -> Seq<char> {
    text::decimal_text(width as nat) + "×"@ + text::decimal_text(height as nat)
}

fn size_label(width: u32, height: u32) -> (r: String)
    ensures
        r@ == size_text(width, height),
{
    let w = text::decimal(width as u64);
    let h = text::decimal(height as u64);
    text::concat3(w.as_str(), "×", h.as_str())
}

/// A display in the list of displays.
pub open spec fn display_text(display: RemoteDisplayView) -> Seq<char> {
    display.name + " ("@ + size_text(display.width, display.height) + ")"@
}

pub fn display_label(display: &RemoteDisplay) -> (r: String)
    ensures
        r@ == display_text(display@),
{
    let size = size_label(display.width, display.height);
    text::concat4(display.name.as_str(), " (", size.as_str(), ")")
}

/// A display that is offered.
pub open spec fn offered_display_text(offer: RemoteDesktopOfferView) -> Seq<char> {
    offer.display.name + " · "@ + size_text(offer.config.width, offer.config.height)
}

fn offered_display_label(offer: &RemoteDesktopOffer) -> (r: String)
    ensures
        r@ == offered_display_text(offer@),
{
    let size = size_label(offer.config.width, offer.config.height);
    text::concat3(offer.display.name.as_str(), " · ", size.as_str())
}

/// The page of the shared desktop.
#[derive(Debug)]
pub enum DesktopPage {
    /// A heading with lines below it; while something is waited for, something turns above it.
    Words { waiting: bool, heading: String, lines: Vec<String> },
    /// An offer of the peer that can be accepted or rejected.
    Question { heading: String, lines: Vec<String> },
    /// The picture in its size below a hint.
    Picture { hint: String, width: u32, height: u32, can_control: bool },
}

#[verifier::ext_equal]
pub enum DesktopPageView {
    Words { waiting: bool, heading: Seq<char>, lines: Seq<Seq<char>> },
    Question { heading: Seq<char>, lines: Seq<Seq<char>> },
    Picture { hint: Seq<char>, width: u32, height: u32, can_control: bool },
}

impl View for DesktopPage {
    type V = DesktopPageView;

    open spec fn view(&self) -> DesktopPageView {
        match self {
            DesktopPage::Words { waiting, heading, lines } => DesktopPageView::Words {
                waiting: *waiting,
                heading: heading@,
                lines: text::texts(lines@),
            },
            DesktopPage::Question { heading, lines } => DesktopPageView::Question {
                heading: heading@,
                lines: text::texts(lines@),
            },
            DesktopPage::Picture { hint, width, height, can_control } => DesktopPageView::Picture {
                hint: hint@,
                width: *width,
                height: *height,
                can_control: *can_control,
            },
        }
    }
}

impl ChatModelView {
    pub open spec fn can_connect(self) -> bool {
        text::white_trimmed(self.server).len() > 0
    }

    pub open spec fn can_join(self) -> bool {
        self.can_connect() && rooms::is_room(self.room_input)
    }

    pub open spec fn can_retry(self) -> bool {
        self.has_handle && self.state == ConnectionState::DirectFailed
    }

    pub open spec fn can_send(self) -> bool {
        self.has_handle && self.state == ConnectionState::Direct
    }

    /// What stands in the empty field for messages.
    pub open spec fn field_hint(self) -> Seq<char> {
        if self.can_send() {
            "输入消息"@
        } else {
            "直连建立后可发送消息"@
        }
    }

    pub open spec fn can_share(self) -> bool {
        self.state == ConnectionState::Direct && self.remote_peer_supported
            && self.remote_displays.len() > 0
    }

    /// Why no screen can be shared, as far as that is told.
    pub open spec fn sharing_hint(self, supported: bool) -> Option<Seq<char>> {
        if !supported {
            Some("当前平台暂不支持共享屏幕"@)
        } else if self.state == ConnectionState::Direct && !self.remote_peer_supported {
            Some("对方客户端不支持远程桌面"@)
        } else {
            None
        }
    }

    /// The name of the chosen display.
    pub open spec fn chosen_display(self) -> Seq<char> {
        if self.remote_display_index < self.remote_displays.len() {
            self.remote_displays[self.remote_display_index as int].name
        } else {
            "无可用显示器"@
        }
    }

    /// What is told of a shared desktop beside the connection; nothing while there is none.
    pub open spec fn desktop_line(self) -> Option<Seq<char>> {
        match self.remote_state {
            RemoteDesktopStateView::Idle => None,
            RemoteDesktopStateView::Sharing { .. } => Some("正在共享本机屏幕"@),
            RemoteDesktopStateView::Viewing { can_control, .. } => Some(
                if can_control {
                    "正在观看，可临时控制"@
                } else {
                    "正在观看，仅查看"@
                },
            ),
            RemoteDesktopStateView::OutgoingPending(_) => Some("等待对方接受共享"@),
            RemoteDesktopStateView::IncomingPending(_) => Some("收到屏幕共享请求"@),
        }
    }

    /// What stands above the picture.
    pub open spec fn picture_hint(self, can_control: bool) -> Seq<char> {
        if !can_control {
            "仅观看"@
        } else if self.remote_keyboard_captured {
            "控制已启用 · 按 Esc 释放键盘"@
        } else {
            "控制已授权 · 点击画面接管键盘"@
        }
    }

    /// The page of the shared desktop.
    pub open spec fn desktop_page(self) -> DesktopPageView {
        match self.remote_state {
            RemoteDesktopStateView::Idle => DesktopPageView::Words {
                waiting: false,
                heading: "远程桌面未启动"@,
                lines: seq!["直连建立后，可从左侧选择显示器并发起共享。"@],
            },
            RemoteDesktopStateView::OutgoingPending(offer) => DesktopPageView::Words {
                waiting: true,
                heading: "等待对方接受共享"@,
                lines: seq![offered_display_text(offer)],
            },
            RemoteDesktopStateView::IncomingPending(offer) => DesktopPageView::Question {
                heading: "对方请求共享屏幕"@,
                lines: seq![
                    offered_display_text(offer) + " · 最高 "@ + text::decimal_text(
                        offer.config.max_fps as nat,
                    ) + " FPS"@,
                    if offer.allow_control {
                        "共享方已允许本次会话临时控制"@
                    } else {
                        "本次会话仅观看"@
                    },
                ],
            },
            RemoteDesktopStateView::Sharing { allow_control, .. } => DesktopPageView::Words {
                waiting: false,
                heading: "正在共享本机屏幕"@,
                lines: seq![
                    if allow_control {
                        "对方已获本次会话临时控制权限"@
                    } else {
                        "对方只能观看；可在左侧随时开启控制"@
                    },
                    "停止共享或直连断开时，授权会立即撤销。"@,
                ],
            },
            RemoteDesktopStateView::Viewing { can_control, .. } => match self.remote_frame_size {
                None => DesktopPageView::Words {
                    waiting: true,
                    heading: "等待远程画面"@,
                    lines: Seq::empty(),
                },
                Some((width, height)) => DesktopPageView::Picture {
                    hint: self.picture_hint(can_control),
                    width,
                    height,
                    can_control,
                },
            },
        }
    }

    /// What the user wants done with a file.
    pub open spec fn row_pressed(self, id: Seq<char>, action: RowAction) -> (
        Self,
        Seq<UiActionView>,
    ) {
        match action {
            RowAction::Accept => self.accepting(id),
            RowAction::Reject => self.rejecting(id),
            RowAction::Pause => (self, self.asking(UiActionView::PauseTransfer(id))),
            RowAction::Resume => (self, self.asking(UiActionView::ResumeTransfer(id))),
            RowAction::Cancel => (
                self,
                self.asking(
                    UiActionView::CancelTransfer { transfer_id: id, reason: "用户取消"@ },
                ),
            ),
        }
    }
}

fn lines_of(first: String) -> (r: Vec<String>)
    ensures
        text::texts(r@) == seq![first@],
{
    let mut r: Vec<String> = Vec::new();
    r.push(first);
    assert(text::texts(r@) =~= seq![first@]);
    r
}

fn two_lines(first: String, second: String) -> (r: Vec<String>)
    ensures
        text::texts(r@) == seq![first@, second@],
{
    let mut r: Vec<String> = Vec::new();
    r.push(first);
    r.push(second);
    assert(text::texts(r@) =~= seq![first@, second@]);
    r
}

impl ChatModel {
    /// Is there a server to turn to?
    pub fn can_connect(&self) -> (r: bool)
        ensures
            r == self@.can_connect(),
    {
        let server = text::trim(self.server.as_str());
        !server.as_str().is_empty()
    }

    /// Can the room that was typed be entered?
    pub fn can_join(&self) -> (r: bool)
        ensures
            r == (self@.can_connect() && rooms::is_room(self@.room_input)),
            r == self@.can_join(),
    {
        self.can_connect() && rooms::is_valid_room(self.room_input.as_str())
    }

    /// Can a direct link be tried again?
    pub fn can_retry(&self) -> (r: bool)
        ensures
            r == (self@.has_handle && self@.state == ConnectionState::DirectFailed),
            r == self@.can_retry(),
    {
        self.has_handle && self.state == ConnectionState::DirectFailed
    }

    /// Can a message or a file be sent?
    pub fn can_send(&self) -> (r: bool)
        ensures
            r == (self@.has_handle && self@.state == ConnectionState::Direct),
            r == self@.can_send(),
    {
        connection::can_send_to_room(self.state, self.has_handle)
    }

    /// What stands in the empty field for messages.
    pub fn message_hint(&self) -> (r: &'static str)
        ensures
            r@ == if self@.has_handle && self@.state == ConnectionState::Direct {
                "输入消息"@
            } else {
                "直连建立后可发送消息"@
            },
            r@ == self@.field_hint(),
    {
        if self.can_send() {
            "输入消息"
        } else {
            "直连建立后可发送消息"
        }
    }

    /// Can the chosen display be shared?
    pub fn can_share(&self) -> (r: bool)
        ensures
            r == self@.can_share(),
    {
        self.state == ConnectionState::Direct && self.remote_peer_supported
            && self.remote_displays.len() > 0
    }

    pub fn sharing_hint(&self, supported: bool) -> (r: Option<&'static str>)
        ensures
            self@.sharing_hint(supported) == match r {
                Some(words) => Some(words@),
                None => None,
            },
    {
        if !supported {
            Some("当前平台暂不支持共享屏幕")
        } else if self.state == ConnectionState::Direct && !self.remote_peer_supported {
            Some("对方客户端不支持远程桌面")
        } else {
            None
        }
    }

    pub fn chosen_display(&self) -> (r: String)
        ensures
            r@ == self@.chosen_display(),
    {
        if self.remote_display_index < self.remote_displays.len() {
            self.remote_displays[self.remote_display_index].name.clone()
        } else {
            "无可用显示器".to_owned()
        }
    }

    pub fn desktop_line(&self) -> (r: Option<&'static str>)
        ensures
            self@.desktop_line() == match r {
                Some(words) => Some(words@),
                None => None,
            },
    {
        match &self.remote_state {
            RemoteDesktopState::Idle => None,
            RemoteDesktopState::Sharing { .. } => Some("正在共享本机屏幕"),
            RemoteDesktopState::Viewing { can_control, .. } => {
                if *can_control {
                    Some("正在观看，可临时控制")
                } else {
                    Some("正在观看，仅查看")
                }
            },
            RemoteDesktopState::OutgoingPending(_) => Some("等待对方接受共享"),
            RemoteDesktopState::IncomingPending(_) => Some("收到屏幕共享请求"),
        }
    }

    fn picture_hint(&self, can_control: bool) -> (r: &'static str)
        ensures
            r@ == self@.picture_hint(can_control),
    {
        if !can_control {
            "仅观看"
        } else if self.remote_keyboard_captured {
            "控制已启用 · 按 Esc 释放键盘"
        } else {
            "控制已授权 · 点击画面接管键盘"
        }
    }

    /// The page of the shared desktop.
    pub fn remote_desktop_view(&self) -> (r: DesktopPage)
        ensures
            r@ == self@.desktop_page(),
    {
        match &self.remote_state {
            RemoteDesktopState::Idle => DesktopPage::Words {
                waiting: false,
                heading: "远程桌面未启动".to_owned(),
                lines: lines_of(
                    "直连建立后，可从左侧选择显示器并发起共享。".to_owned(),
                ),
            },
            RemoteDesktopState::OutgoingPending(offer) => DesktopPage::Words {
                waiting: true,
                heading: "等待对方接受共享".to_owned(),
                lines: lines_of(offered_display_label(offer)),
            },
            RemoteDesktopState::IncomingPending(offer) => {
                let display = offered_display_label(offer);
                let fps = text::decimal(offer.config.max_fps as u64);
                let first = text::concat4(display.as_str(), " · 最高 ", fps.as_str(), " FPS");
                let second = if offer.allow_control {
                    "共享方已允许本次会话临时控制".to_owned()
                } else {
                    "本次会话仅观看".to_owned()
                };
                DesktopPage::Question {
                    heading: "对方请求共享屏幕".to_owned(),
                    lines: two_lines(first, second),
                }
            },
            RemoteDesktopState::Sharing { allow_control, .. } => {
                let first = if *allow_control {
                    "对方已获本次会话临时控制权限".to_owned()
                } else {
                    "对方只能观看；可在左侧随时开启控制".to_owned()
                };
                DesktopPage::Words {
                    waiting: false,
                    heading: "正在共享本机屏幕".to_owned(),
                    lines: two_lines(
                        first,
                        "停止共享或直连断开时，授权会立即撤销。".to_owned(),
                    ),
                }
            },
            RemoteDesktopState::Viewing { can_control, .. } => match self.remote_frame_size {
                None => {
                    let lines: Vec<String> = Vec::new();
                    assert(text::texts(lines@) =~= Seq::<Seq<char>>::empty());
                    DesktopPage::Words {
                        waiting: true,
                        heading: "等待远程画面".to_owned(),
                        lines,
                    }
                },
                Some((width, height)) => DesktopPage::Picture {
                    hint: self.picture_hint(*can_control).to_owned(),
                    width,
                    height,
                    can_control: *can_control,
                },
            },
        }
    }

    /// What is done when the user presses a button beside a file.
    pub fn row_pressed(&mut self, transfer_id: String, action: RowAction) -> (r: Vec<UiAction>)
        ensures
            (final(self)@, action_views(r@)) == old(self)@.row_pressed(transfer_id@, action),
    {
        match action {
            RowAction::Accept => self.accept_file_offer(transfer_id.as_str()),
            RowAction::Reject => self.reject_file_offer(transfer_id),
            RowAction::Pause => self.pause_transfer(transfer_id),
            RowAction::Resume => self.resume_transfer(transfer_id),
            RowAction::Cancel => self.cancel_transfer(transfer_id),
        }
    }
}

/// What the button for sharing does when it can be pressed: it is never turned down for want of a
/// link, of a peer that can view or of a display.
pub proof fn an_enabled_button_shares(s: ChatModelView)
    requires
        s.can_share(),
        s.remote_state is Idle,
        s.has_handle,
        s.remote_display_index < s.remote_displays.len(),
    ensures
        s.sharing_wanted() == (
            s,
            seq![UiActionView::AskPermissions { control: s.remote_allow_control }],
        ),
        s.offering(Ok(()), Ok(())).1.len() == 1,
        s.offering(Ok(()), Ok(())).1[0] is OfferDesktop,
{
}

}
