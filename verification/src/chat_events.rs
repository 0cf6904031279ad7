//! What the session tells, as the user sees it.
use crate::candidates::{CandidateKind, CandidateView, ConnectInfo, ConnectInfoView};
use crate::chat::{
    action_views, nothing, with_offer, ChatAuthor, ChatLineView, ChatModel, ChatModelView, UiAction,
    UiActionView,
};
use crate::connection::ConnectionState;
use crate::session::{SessionEvent, SessionEventView};
use crate::{connection, labels, text};
use vstd::prelude::*;

verus! {

/// Candidates with their addresses as texts.
pub open spec fn addressed(candidates: Seq<CandidateView>, addresses: Seq<Seq<char>>) -> Seq<
    (Seq<char>, CandidateKind),
> {
    Seq::new(
        if candidates.len() < addresses.len() {
            candidates.len()
        } else {
            addresses.len()
        },
        |i: int| (addresses[i], candidates[i].kind),
    )
}

/// How an end can be reached, for reading.
pub open spec fn reachability(
    label: Seq<char>,
    info: ConnectInfoView,
    addresses: Seq<Seq<char>>,
) -> Seq<char> {
    labels::connect_info_text(label, info.role, addressed(info.candidates, addresses))
}

/// The first of the addresses.
pub open spec fn first_address(addresses: Seq<Seq<char>>) -> Seq<char> {
    if addresses.len() > 0 {
        addresses[0]
    } else {
        Seq::empty()
    }
}

/// A path behind a colon.
pub open spec fn path_suffix(path: Option<Seq<char>>) -> Seq<char> {
    match path {
        Some(path) => "："@ + path,
        None => Seq::empty(),
    }
}

impl ChatModelView {
    /// The server has answered.
    pub open spec fn server_answered(self) -> Self {
        let next = connection::after_connected(self.state);
        if next == self.state {
            self
        } else {
            (ChatModelView { state: next, ..self }).noted(
                "已连接信令服务，等待对方加入"@,
            ).said("已连接信令服务。"@)
        }
    }

    /// The server has given the room its number.
    pub open spec fn room_assigned(self, room: Seq<char>) -> Self {
        let s = if self.active_room == Some(room) {
            self
        } else {
            self.said("服务器已分配房间号："@ + room)
        };
        ChatModelView { active_room: Some(room), ..s }
    }

    /// There is a direct link. A message that waited for it goes out.
    pub open spec fn linked(self, address: Seq<char>) -> (Self, Seq<UiActionView>) {
        let words = "直连已建立："@ + address;
        let s = (ChatModelView { state: ConnectionState::Direct, ..self }).told(words);
        match self.pending_test_message {
            Some(message) => (ChatModelView { pending_test_message: None, ..s }).sending(message),
            None => (s, Seq::empty()),
        }
    }

    /// There is no direct link, or no longer.
    pub open spec fn unlinked(self, status: Seq<char>, reason: Seq<char>) -> Self {
        (ChatModelView { state: ConnectionState::DirectFailed, ..self }).noted(status).said(
            status + "："@ + reason,
        )
    }

    /// The peer has left.
    pub open spec fn peer_left(self) -> Self {
        let state = if self.state == ConnectionState::Paired || self.state
            == ConnectionState::Direct || self.state == ConnectionState::DirectFailed {
            ConnectionState::Connected
        } else {
            self.state
        };
        (ChatModelView { state, ..self }).noted("对方已离开，等待重新加入"@).said(
            "对方已离开房间。"@,
        )
    }

    /// The connection to the server is gone. A direct link goes on without it.
    pub open spec fn server_gone(self) -> Self {
        if self.state == ConnectionState::Direct {
            self.said("信令连接已关闭，直连聊天不受影响。"@)
        } else if self.has_handle {
            (ChatModelView {
                has_handle: false,
                active_room: None,
                state: ConnectionState::Idle,
                ..self
            }).noted("信令连接已断开"@).said("信令连接已断开，可重新创建或加入房间。"@)
        } else {
            self
        }
    }

    /// What the session tells, with the addresses in it as texts.
    pub open spec fn session_event(self, event: SessionEventView, addresses: Seq<Seq<char>>) -> (
        Self,
        Seq<UiActionView>,
    ) {
        let none = Seq::<UiActionView>::empty();
        match event {
            SessionEventView::Connected => (self.server_answered(), none),
            SessionEventView::RoomCodeAssigned(room) => (self.room_assigned(room), none),
            SessionEventView::LocalCandidatesCollected(info) => (
                self.said(reachability("本端候选"@, info, addresses)),
                none,
            ),
            SessionEventView::PeerCandidatesReceived(info) => (
                self.peer_seen(None).said(reachability("对端候选"@, info, addresses)),
                none,
            ),
            SessionEventView::DirectLinkEstablished(_) => self.linked(first_address(addresses)),
            SessionEventView::DirectLinkFailed(message) => (
                self.unlinked("直连建立失败"@, message),
                none,
            ),
            SessionEventView::DirectLinkLost(reason) => (
                self.unlinked("直连已断开"@, reason),
                none,
            ),
            SessionEventView::PeerConnected => (
                self.peer_seen(Some("另一客户端已加入房间。"@)),
                none,
            ),
            SessionEventView::PeerDisconnected => (self.peer_left(), none),
            SessionEventView::MessageReceived(message) => {
                let s = self.peer_seen(None);
                (
                    ChatModelView {
                        messages: s.messages.push(
                            ChatLineView { author: ChatAuthor::Peer, text: message },
                        ),
                        ..s
                    },
                    none,
                )
            },
            SessionEventView::FileOffered(offer) => {
                let s = self.peer_seen(None).said(
                    "对方请求发送文件："@ + offer.file_name + " ("@ + labels::bytes_text(
                        offer.file_size,
                    ) + ")"@,
                );
                (
                    ChatModelView { pending_offers: with_offer(s.pending_offers, offer), ..s },
                    none,
                )
            },
            SessionEventView::FileProgress(progress) => (self.progressed(progress), none),
            SessionEventView::FileCompleted { file_name, path, .. } => (
                self.said("文件已完成："@ + file_name + path_suffix(path)),
                none,
            ),
            SessionEventView::FileFailed { file_name, message, .. } => (
                self.said("文件失败："@ + file_name + "，"@ + message),
                none,
            ),
            SessionEventView::FileCancelled { file_name, reason, .. } => (
                self.said("文件已取消："@ + file_name + "，"@ + reason),
                none,
            ),
            SessionEventView::RemoteDesktop(event) => self.desktop_event(event),
            SessionEventView::SignalingClosed => (self.server_gone(), none),
            SessionEventView::Error(message) => (self.told("错误："@ + message), none),
        }
    }
}

fn reach_text(label: &str, info: &ConnectInfo, addresses: &Vec<String>) -> (r: String)
    ensures
        r@ == reachability(label@, info@, text::texts(addresses@)),
{
    let mut list: Vec<(String, CandidateKind)> = Vec::new();
    let mut i: usize = 0;
    while i < info.candidates.len() && i < addresses.len()
        invariant
            i <= info.candidates@.len(),
            i <= addresses@.len(),
            list@.len() == i,
            forall|j: int|
                0 <= j < i ==> (#[trigger] list@[j]).0@ == addresses@[j]@ && list@[j].1
                    == info.candidates@[j]@.kind,
        decreases info.candidates@.len() - i,
    {
        list.push((addresses[i].clone(), info.candidates[i].kind));
        i += 1;
    }
    assert(labels::addressed(list@) =~= addressed(info@.candidates, text::texts(addresses@)));
    labels::format_connect_info(label, info.role, &list)
}

impl ChatModel {
    fn answer_server(&mut self)
        ensures
            final(self)@ == old(self)@.server_answered(),
    {
        let next = connection::state_after_connected_event(self.state);
        if next != self.state {
            self.state = next;
            self.status = "已连接信令服务，等待对方加入".to_owned();
            self.push_system("已连接信令服务。".to_owned());
        }
    }

    fn assign_room(&mut self, room: String)
        ensures
            final(self)@ == old(self)@.room_assigned(room@),
    {
        let known = match &self.active_room {
            Some(known) => text::same_text(known.as_str(), room.as_str()),
            None => false,
        };
        if !known {
            self.push_system(text::concat("服务器已分配房间号：", room.as_str()));
        }
        self.active_room = Some(room);
    }

    fn link(&mut self, address: &str) -> (r: Vec<UiAction>)
        ensures
            (final(self)@, action_views(r@)) == old(self)@.linked(address@),
    {
        self.state = ConnectionState::Direct;
        self.notice(text::concat("直连已建立：", address));
        let mut waiting: Option<String> = None;
        std::mem::swap(&mut waiting, &mut self.pending_test_message);
        match waiting {
            Some(message) => self.send_text_message(message),
            None => nothing(),
        }
    }

    fn unlink(&mut self, status: &str, reason: &str)
        ensures
            final(self)@ == old(self)@.unlinked(status@, reason@),
    {
        self.state = ConnectionState::DirectFailed;
        self.status = status.to_owned();
        self.push_system(text::concat3(status, "：", reason));
    }

    fn lose_peer(&mut self)
        ensures
            final(self)@ == old(self)@.peer_left(),
    {
        if self.state == ConnectionState::Paired || self.state == ConnectionState::Direct
            || self.state == ConnectionState::DirectFailed {
            self.state = ConnectionState::Connected;
        }
        self.status = "对方已离开，等待重新加入".to_owned();
        self.push_system("对方已离开房间。".to_owned());
    }

    fn lose_server(&mut self)
        ensures
            final(self)@ == old(self)@.server_gone(),
    {
        if self.state == ConnectionState::Direct {
            self.push_system("信令连接已关闭，直连聊天不受影响。".to_owned());
        } else if self.has_handle {
            self.has_handle = false;
            self.active_room = None;
            self.state = ConnectionState::Idle;
            self.status = "信令连接已断开".to_owned();
            self.push_system("信令连接已断开，可重新创建或加入房间。".to_owned());
        }
    }

    /// What is done when the session tells something. The addresses in the event are given as texts
    /// too.
    pub fn session_event(&mut self, event: SessionEvent, addresses: &Vec<String>) -> (r: Vec<
        UiAction,
    >)
        ensures
            (final(self)@, action_views(r@)) == old(self)@.session_event(
                event@,
                text::texts(addresses@),
            ),
    {
        match event {
            SessionEvent::Connected => {
                self.answer_server();
            },
            SessionEvent::RoomCodeAssigned(room) => {
                self.assign_room(room);
            },
            SessionEvent::LocalCandidatesCollected(info) => {
                self.push_system(reach_text("本端候选", &info, addresses));
            },
            SessionEvent::PeerCandidatesReceived(info) => {
                self.mark_peer_available(None);
                self.push_system(reach_text("对端候选", &info, addresses));
            },
            SessionEvent::DirectLinkEstablished(_) => {
                if addresses.len() > 0 {
                    return self.link(addresses[0].as_str());
                }
                proof {
                    reveal_strlit("");
                    assert(""@ =~= Seq::<char>::empty());
                }
                return self.link("");
            },
            SessionEvent::DirectLinkFailed(message) => {
                self.unlink("直连建立失败", message.as_str());
            },
            SessionEvent::DirectLinkLost(reason) => {
                self.unlink("直连已断开", reason.as_str());
            },
            SessionEvent::PeerConnected => {
                self.mark_peer_available(Some("另一客户端已加入房间。".to_owned()));
            },
            SessionEvent::PeerDisconnected => {
                self.lose_peer();
            },
            SessionEvent::MessageReceived(message) => {
                self.mark_peer_available(None);
                self.push_message(ChatAuthor::Peer, message);
            },
            SessionEvent::FileOffered(metadata) => {
                self.mark_peer_available(None);
                let size = labels::format_bytes(metadata.file_size);
                let mut words = text::concat4(
                    "对方请求发送文件：",
                    metadata.file_name.as_str(),
                    " (",
                    size.as_str(),
                );
                words.append(")");
                self.push_system(words);
                self.add_pending_offer(metadata);
            },
            SessionEvent::FileProgress(progress) => {
                self.update_transfer(progress);
            },
            SessionEvent::FileCompleted { file_name, path, .. } => {
                let words = match path {
                    Some(path) => {
                        let suffix = text::concat("：", path.as_str());
                        text::concat3("文件已完成：", file_name.as_str(), suffix.as_str())
                    },
                    None => text::concat("文件已完成：", file_name.as_str()),
                };
                assert(words@ =~= "文件已完成："@ + file_name@ + path_suffix(
                    text::opt_text(path),
                ));
                self.push_system(words);
            },
            SessionEvent::FileFailed { file_name, message, .. } => {
                self.push_system(
                    text::concat4(
                        "文件失败：",
                        file_name.as_str(),
                        "，",
                        message.as_str(),
                    ),
                );
            },
            SessionEvent::FileCancelled { file_name, reason, .. } => {
                self.push_system(
                    text::concat4(
                        "文件已取消：",
                        file_name.as_str(),
                        "，",
                        reason.as_str(),
                    ),
                );
            },
            SessionEvent::RemoteDesktop(event) => {
                return self.handle_remote_desktop_event(event);
            },
            SessionEvent::SignalingClosed => {
                self.lose_server();
            },
            SessionEvent::Error(message) => {
                self.notice(text::concat("错误：", message.as_str()));
            },
        }
        nothing()
    }
}

/// A closed connection to the server leaves a direct link as it is; without one the session is
/// over.
pub proof fn a_direct_link_outlives_the_server(s: ChatModelView, addresses: Seq<Seq<char>>)
    ensures
        ({
            let (t, actions) = s.session_event(SessionEventView::SignalingClosed, addresses);
            &&& actions.len() == 0
            &&& s.state == ConnectionState::Direct ==> {
                &&& t.state == ConnectionState::Direct
                &&& t.has_handle == s.has_handle
                &&& t.active_room == s.active_room
            }
            &&& s.state != ConnectionState::Direct ==> !t.has_handle
        }),
{
}

/// An error that the session tells leaves the session as it is.
pub proof fn an_error_is_only_shown(
    s: ChatModelView,
    message: Seq<char>,
    addresses: Seq<Seq<char>>,
)
    ensures
        s.session_event(SessionEventView::Error(message), addresses) == (
            s.told("错误："@ + message),
            Seq::<UiActionView>::empty(),
        ),
        s.told("错误："@ + message).state == s.state,
        s.told("错误："@ + message).has_handle == s.has_handle,
{
}

/// The message that waits for a direct link goes out once: with the first link, and not with the
/// next.
pub proof fn the_waiting_message_goes_out_once(
    s: ChatModelView,
    message: Seq<char>,
    first: Seq<char>,
    second: Seq<char>,
)
    requires
        s.has_handle,
        s.pending_test_message == Some(message),
    ensures
        s.linked(first).1 == seq![UiActionView::SendText(message)],
        s.linked(first).0.linked(second).1.len() == 0,
{
}

}
