//! What the user of one end does and what the user of the other end sees.
use crate::candidates::ConnectInfoView;
use crate::chat::{
    offer_ids, with_line, with_offer, without, ChatAuthor, ChatLineView, ChatModelView,
    InjectorPurpose, MainView, TransferLineView, UiActionView,
};
use crate::chat_commands::command_of;
use crate::chat_events::addressed;
use crate::chat_view::{
    author_words, display_text, is_cancellable, offer_text, row_button, row_text, DesktopPageView,
    RowAction,
};
use crate::connection::ConnectionState;
use crate::frames::FrameDecoderView;
use crate::link::{leads_to, LinkActionView, LinkEventView, LinkStateView};
use crate::p2p_proto::P2pMessageView;
use crate::remote_desktop::{
    RemoteDesktopEventView, RemoteDesktopFrameView, RemoteDesktopOfferView,
    RemoteDesktopStateView, RemoteDisplayView, RemoteInputEventView,
};
use crate::scan_codes::Modifiers;
use crate::session::{FileTransferProgressView, SessionEventView, SessionRoleView};
use crate::settings::{ClientConfigView, RoleChoice};
use crate::transfer::{FileMetadataView, TransferStatus};
use crate::{fit, labels, rooms, text};
use vstd::prelude::*;

verus! {

/// The window that differs in its lines and its status at most.
pub open spec fn only_told(s: ChatModelView, t: ChatModelView) -> bool {
    t == (ChatModelView { messages: t.messages, status: t.status, ..s })
}

/// The window that says one line more and differs in nothing else.
pub open spec fn says_one_line(s: ChatModelView, t: ChatModelView) -> bool {
    &&& t == (ChatModelView { messages: t.messages, ..s })
    &&& t.messages.len() == s.messages.len() + 1
    &&& t.messages.drop_last() == s.messages
    &&& t.messages.last().author == ChatAuthor::System
}

/// Does the text end in this?
pub open spec fn ends_in(words: Seq<char>, end: Seq<char>) -> bool {
    words.len() >= end.len() && words.skip(words.len() - end.len()) == end
}

proof fn lemma_ends_in(front: Seq<char>, end: Seq<char>)
    ensures
        ends_in(front + end, end),
{
    assert((front + end).skip((front + end).len() - end.len()) =~= end);
}

/// What is typed at one end over a direct link stands in both windows: as one's own here, and as
/// the peer's there, with the same words.
pub proof fn a_typed_message_stands_in_both_windows(
    here: ChatModelView,
    there: ChatModelView,
    link: LinkStateView,
    peer_link: LinkStateView,
    arrived: (LinkStateView, Seq<LinkActionView>),
    addresses: Seq<Seq<char>>,
)
    requires
        here.has_handle,
        here.state == ConnectionState::Direct,
        text::white_trimmed(here.message_input).len() > 0,
        leads_to(
            peer_link,
            LinkEventView::Message(
                P2pMessageView::Chat { text: text::white_trimmed(here.message_input) },
            ),
            arrived,
        ),
    ensures
        ({
            let words = text::white_trimmed(here.message_input);
            let (after, actions) = here.sending_typed();
            let command = command_of(actions[0]);
            let (_, sent) = link.step(LinkEventView::Command(command), None);
            let (shown, more) = there.session_event(arrived.1[0]->Emit_0, addresses);
            &&& actions.len() == 1
            &&& command is Some
            &&& sent == seq![LinkActionView::Queue(P2pMessageView::Chat { text: words })]
            &&& arrived.1.len() == 1
            &&& arrived.1[0] is Emit
            &&& after.messages == here.messages.push(
                ChatLineView { author: ChatAuthor::Mine, text: words },
            )
            &&& shown.messages.last() == (ChatLineView { author: ChatAuthor::Peer, text: words })
            &&& shown.messages.drop_last() == there.messages
            &&& more.len() == 0
        }),
{
    let words = text::white_trimmed(here.message_input);
    let (shown, more) = there.session_event(SessionEventView::MessageReceived(words), addresses);
    assert(shown.messages.drop_last() =~= there.messages);
}

/// A message of the peer is shown as theirs and changes nothing else, but that the peer counts as
/// there. Where no direct link is, nothing that is typed goes out, and the user is told why, unless
/// they typed nothing.
pub proof fn messages_are_shown_as_they_come(
    s: ChatModelView,
    message: Seq<char>,
    addresses: Seq<Seq<char>>,
)
    ensures
        ({
            let (t, actions) = s.session_event(
                SessionEventView::MessageReceived(message),
                addresses,
            );
            &&& actions.len() == 0
            &&& t.messages == s.messages.push(
                ChatLineView { author: ChatAuthor::Peer, text: message },
            )
            &&& t == (ChatModelView {
                messages: t.messages,
                status: t.status,
                state: t.state,
                ..s
            })
            &&& s.has_handle && (s.state == ConnectionState::Connecting || s.state
                == ConnectionState::Connected) ==> t.state == ConnectionState::Paired
            &&& !(s.has_handle && (s.state == ConnectionState::Connecting || s.state
                == ConnectionState::Connected)) ==> t.state == s.state && t.status == s.status
        }),
        ({
            let (t, actions) = s.sending_typed();
            let blank = text::white_trimmed(s.message_input).len() == 0;
            &&& blank ==> t == s && actions.len() == 0
            &&& !blank && !(s.has_handle && s.state == ConnectionState::Direct) ==> says_one_line(
                s,
                t,
            ) && actions.len() == 0
        }),
        ({
            let (t, actions) = s.sending(message);
            &&& s.has_handle ==> actions == seq![UiActionView::SendText(message)] && t == (
            ChatModelView {
                messages: s.messages.push(
                    ChatLineView { author: ChatAuthor::Mine, text: message },
                ),
                ..s
            })
            &&& !s.has_handle ==> says_one_line(s, t) && actions.len() == 0
        }),
{
    let t = s.sending_typed().0;
    assert(t.messages.len() > 0 ==> s.messages.push(t.messages.last()).drop_last() == s.messages);
    assert(s.sending(message).0.messages.drop_last() =~= s.messages);
}

/// A file to send is chosen only over a direct link; what was chosen is sent, from the place where it
/// is.
pub proof fn chosen_files_are_sent(s: ChatModelView, path: Seq<char>, name: Seq<char>)
    ensures
        ({
            let (t, actions) = s.choosing_file();
            let linked = s.has_handle && s.state == ConnectionState::Direct;
            &&& linked ==> t == s && actions == seq![UiActionView::PickFile]
            &&& !linked ==> says_one_line(s, t) && actions.len() == 0
        }),
        ({
            let (t, actions) = s.file_chosen(path, name);
            &&& s.has_handle ==> {
                &&& actions == seq![UiActionView::SendFile(path)]
                &&& says_one_line(s, t)
                &&& ends_in(t.messages.last().text, name)
            }
            &&& !s.has_handle ==> t == s && actions.len() == 0
        }),
{
    lemma_ends_in("准备发送文件："@, name);
    assert(s.choosing_file().0.messages.len() > 0 ==> s.messages.push(
        s.choosing_file().0.messages.last(),
    ).drop_last() == s.messages);
    assert(s.file_chosen(path, name).0.messages.len() > 0 ==> s.messages.push(
        s.file_chosen(path, name).0.messages.last(),
    ).drop_last() == s.messages);
}

/// An offer of the peer stands in the window until it is answered, and is listed once by its
/// identifier, the newest of them. Who takes it chooses a place for that very offer; when a place is
/// chosen, that transfer is accepted to that place and the offer is gone; when none is, it stays.
pub proof fn offers_are_answered_by_their_identifier(
    s: ChatModelView,
    offer: FileMetadataView,
    other: FileMetadataView,
    path: Seq<char>,
    addresses: Seq<Seq<char>>,
)
    requires
        offer_ids(s.pending_offers).no_duplicates(),
    ensures
        ({
            let (t, actions) = s.session_event(SessionEventView::FileOffered(offer), addresses);
            &&& actions.len() == 0
            &&& t.pending_offers.contains(offer)
            &&& other.transfer_id != offer.transfer_id ==> (t.pending_offers.contains(other)
                <==> s.pending_offers.contains(other))
            &&& t.offer_named(offer.transfer_id) == Some(offer)
            &&& s.has_handle ==> t.accepting(offer.transfer_id) == (
                t,
                seq![UiActionView::PickSavePath(offer)],
            )
            &&& !s.has_handle ==> t.accepting(offer.transfer_id) == (t, Seq::<UiActionView>::empty())
            &&& t == (ChatModelView {
                pending_offers: t.pending_offers,
                messages: t.messages,
                status: t.status,
                state: t.state,
                ..s
            })
            &&& t.messages.len() == s.messages.len() + 1
        }),
        ({
            let (t, actions) = s.save_path_chosen(offer, Some(path));
            &&& actions == seq![
                UiActionView::AcceptFile { transfer_id: offer.transfer_id, path },
            ]
            &&& t.pending_offers.contains(other) <==> s.pending_offers.contains(other)
                && other.transfer_id != offer.transfer_id
            &&& t == (ChatModelView {
                pending_offers: t.pending_offers,
                messages: t.messages,
                ..s
            })
        }),
        says_one_line(s, s.save_path_chosen(offer, None).0),
        s.save_path_chosen(offer, None).1.len() == 0,
{
    let ids = offer_ids(s.pending_offers);
    let id = offer.transfer_id;
    ids.index_of_first_ensures(id);
    let with = with_offer(s.pending_offers, offer);
    let t = s.session_event(SessionEventView::FileOffered(offer), addresses).0;
    assert(t.pending_offers == with);
    crate::chat::lemma_without(s.pending_offers, id);
    let now = offer_ids(with);
    now.index_of_first_ensures(id);
    match ids.index_of_first(id) {
        Some(i) => {
            assert(with[i] == offer);
            assert(now[i] == id);
            let k = now.index_of_first(id)->0;
            if k != i {
                assert(k < i);
                assert(now[k] == ids[k]);
                assert(ids[k] == id && ids[i] == id);
            }
            if s.pending_offers.contains(other) && other.transfer_id != id {
                let j = s.pending_offers.index_of(other);
                assert(ids[j] == other.transfer_id);
                assert(with[j] == other);
            }
            if with.contains(other) && other.transfer_id != id {
                let j = with.index_of(other);
                assert(s.pending_offers[j] == other);
            }
        },
        None => {
            assert(with[s.pending_offers.len() as int] == offer);
            assert(now[s.pending_offers.len() as int] == id);
            let k = now.index_of_first(id)->0;
            if k < s.pending_offers.len() {
                assert(now[k] == ids[k]);
                assert(ids.contains(id));
            }
            if s.pending_offers.contains(other) {
                let j = s.pending_offers.index_of(other);
                assert(with[j] == other);
            }
            if with.contains(other) && other.transfer_id != id {
                let j = with.index_of(other);
                assert(s.pending_offers[j] == other);
            }
        },
    }
    assert(s.save_path_chosen(offer, None).0.messages.drop_last() =~= s.messages);
}

/// An offer that is declined is gone, and the peer is told for that very transfer; one that is not
/// there cannot be.
pub proof fn declined_offers_are_gone(s: ChatModelView, id: Seq<char>, other: FileMetadataView)
    requires
        offer_ids(s.pending_offers).no_duplicates(),
    ensures
        ({
            let (t, actions) = s.rejecting(id);
            let there = offer_ids(s.pending_offers).contains(id);
            &&& there && s.has_handle ==> {
                &&& actions == seq![
                    UiActionView::RejectFile { transfer_id: id, reason: "用户拒绝接收"@ },
                ]
                &&& t.pending_offers.contains(other) <==> s.pending_offers.contains(other)
                    && other.transfer_id != id
                &&& t == (ChatModelView {
                    pending_offers: t.pending_offers,
                    messages: t.messages,
                    ..s
                })
                &&& t.messages.len() == s.messages.len() + 1
            }
            &&& !(there && s.has_handle) ==> t == s && actions.len() == 0
            &&& !there ==> s.accepting(id) == (s, Seq::<UiActionView>::empty())
        }),
{
    let offers = s.pending_offers;
    let ids = offer_ids(offers);
    ids.index_of_first_ensures(id);
    if let Some(i) = ids.index_of_first(id) {
        let rest = offers.remove(i);
        if offers.contains(other) && other.transfer_id != id {
            let j = offers.index_of(other);
            assert(ids[j] == other.transfer_id);
            let k = if j < i {
                j
            } else {
                j - 1
            };
            assert(rest[k] == other);
        }
        if rest.contains(other) {
            let k = rest.index_of(other);
            let j = if k < i {
                k
            } else {
                k + 1
            };
            assert(offers[j] == other);
            assert(ids[j] != ids[i]);
        }
    }
}

/// How far a transfer has come stands in the window, once for each transfer and as it was told last;
/// what is under way is no offer any more.
pub proof fn progress_is_shown_as_it_comes(
    s: ChatModelView,
    p: FileTransferProgressView,
    other: FileMetadataView,
    addresses: Seq<Seq<char>>,
)
    ensures
        ({
            let (t, actions) = s.session_event(SessionEventView::FileProgress(p), addresses);
            let line = TransferLineView {
                transfer_id: p.transfer_id,
                file_name: p.file_name,
                direction: p.direction,
                status: p.status,
                completed_bytes: p.completed_bytes,
                total_bytes: p.total_bytes,
            };
            &&& actions.len() == 0
            &&& t.transfers.contains(line)
            &&& forall|i: int|
                0 <= i < s.transfers.len() && (#[trigger] s.transfers[i]).transfer_id
                    != p.transfer_id ==> t.transfers[i] == s.transfers[i]
            &&& s.transfers.len() <= t.transfers.len() <= s.transfers.len() + 1
            &&& (exists|i: int|
                0 <= i < s.transfers.len() && (#[trigger] s.transfers[i]).transfer_id
                    == p.transfer_id) ==> t.transfers.len() == s.transfers.len()
            &&& t.pending_offers.contains(other) <==> s.pending_offers.contains(other)
                && other.transfer_id != p.transfer_id
            &&& t == (ChatModelView {
                transfers: t.transfers,
                pending_offers: t.pending_offers,
                ..s
            })
        }),
{
    let ids = crate::chat::line_ids(s.transfers);
    ids.index_of_first_ensures(p.transfer_id);
    crate::chat::lemma_without(s.pending_offers, p.transfer_id);
    let t = s.session_event(SessionEventView::FileProgress(p), addresses).0;
    let line = TransferLineView {
        transfer_id: p.transfer_id,
        file_name: p.file_name,
        direction: p.direction,
        status: p.status,
        completed_bytes: p.completed_bytes,
        total_bytes: p.total_bytes,
    };
    assert(t.transfers == with_line(s.transfers, line));
    match ids.index_of_first(p.transfer_id) {
        Some(i) => {
            assert(t.transfers[i] == line);
            assert(ids[i] == s.transfers[i].transfer_id);
        },
        None => {
            assert(t.transfers[s.transfers.len() as int] == line);
            if exists|i: int|
                0 <= i < s.transfers.len() && (#[trigger] s.transfers[i]).transfer_id
                    == p.transfer_id {
                let i = choose|i: int|
                    0 <= i < s.transfers.len() && (#[trigger] s.transfers[i]).transfer_id
                        == p.transfer_id;
                assert(ids[i] == p.transfer_id);
                assert(ids.contains(p.transfer_id));
            }
        },
    }
}

/// The end of a transfer is told with the name of the file, and with where it is, what went wrong or
/// why it was called off; nothing else in the window changes.
pub proof fn ends_of_transfers_are_told(
    s: ChatModelView,
    id: Seq<char>,
    name: Seq<char>,
    path: Option<Seq<char>>,
    words: Seq<char>,
    addresses: Seq<Seq<char>>,
)
    ensures
        ({
            let (t, actions) = s.session_event(
                SessionEventView::FileCompleted { transfer_id: id, file_name: name, path },
                addresses,
            );
            &&& actions.len() == 0
            &&& says_one_line(s, t)
            &&& path matches Some(place) ==> ends_in(t.messages.last().text, "："@ + place)
            &&& path is None ==> ends_in(t.messages.last().text, name)
        }),
        ({
            let (t, actions) = s.session_event(
                SessionEventView::FileFailed { transfer_id: id, file_name: name, message: words },
                addresses,
            );
            &&& actions.len() == 0
            &&& says_one_line(s, t)
            &&& ends_in(t.messages.last().text, name + "，"@ + words)
        }),
        ({
            let (t, actions) = s.session_event(
                SessionEventView::FileCancelled { transfer_id: id, file_name: name, reason: words },
                addresses,
            );
            &&& actions.len() == 0
            &&& says_one_line(s, t)
            &&& ends_in(t.messages.last().text, name + "，"@ + words)
        }),
{
    assert forall|line: ChatLineView| #[trigger] s.messages.push(line).drop_last() == s.messages by {}
    let done = "文件已完成："@;
    match path {
        Some(place) => {
            lemma_ends_in(done + name, "："@ + place);
        },
        None => {
            lemma_ends_in(done, name);
            assert(done + name + Seq::<char>::empty() =~= done + name);
        },
    }
    lemma_ends_in("文件失败："@, name + "，"@ + words);
    assert("文件失败："@ + (name + "，"@ + words) =~= "文件失败："@ + name + "，"@ + words);
    lemma_ends_in("文件已取消："@, name + "，"@ + words);
    assert("文件已取消："@ + (name + "，"@ + words) =~= "文件已取消："@ + name + "，"@ + words);
}

/// How the connection stands is shown as it changes: the server's answer, a peer that comes, a peer
/// that leaves. Each is told in words, and nothing else changes.
pub proof fn the_connection_is_shown(s: ChatModelView, addresses: Seq<Seq<char>>)
    ensures
        ({
            let (t, actions) = s.session_event(SessionEventView::Connected, addresses);
            &&& actions.len() == 0
            &&& s.state == ConnectionState::Connecting ==> t.state == ConnectionState::Connected
                && t.messages.len() == s.messages.len() + 1
            &&& s.state != ConnectionState::Connecting ==> t == s
            &&& t == (ChatModelView { state: t.state, messages: t.messages, status: t.status, ..s })
        }),
        ({
            let (t, actions) = s.session_event(SessionEventView::PeerConnected, addresses);
            let comes = s.has_handle && (s.state == ConnectionState::Connecting || s.state
                == ConnectionState::Connected);
            &&& actions.len() == 0
            &&& comes ==> t.state == ConnectionState::Paired && t.messages.len()
                == s.messages.len() + 1
            &&& !comes ==> t == s
            &&& t == (ChatModelView { state: t.state, messages: t.messages, status: t.status, ..s })
        }),
        ({
            let (t, actions) = s.session_event(SessionEventView::PeerDisconnected, addresses);
            &&& actions.len() == 0
            &&& t.state == if s.state == ConnectionState::Idle || s.state
                == ConnectionState::Connecting {
                s.state
            } else {
                ConnectionState::Connected
            }
            &&& t.messages.len() == s.messages.len() + 1
            &&& only_told(ChatModelView { state: t.state, ..s }, t)
        }),
{
    assert forall|line: ChatLineView| #[trigger] s.messages.push(line).drop_last() == s.messages by {}
}

/// A link that is made is shown with its address, and the message that waited for it goes out.
pub proof fn a_link_is_shown(
    s: ChatModelView,
    addresses: Seq<Seq<char>>,
    info: crate::direct::DirectLinkInfoView,
)
    ensures
        ({
            let (t, actions) = s.session_event(
                SessionEventView::DirectLinkEstablished(info),
                addresses,
            );
            &&& t.state == ConnectionState::Direct
            &&& t.pending_test_message is None
            &&& s.pending_test_message is None ==> {
                &&& actions.len() == 0
                &&& only_told(ChatModelView { state: ConnectionState::Direct, ..s }, t)
                &&& addresses.len() > 0 ==> ends_in(t.status, addresses[0])
            }
            &&& s.pending_test_message matches Some(message) ==> s.has_handle ==> actions == seq![
                UiActionView::SendText(message),
            ] && t.messages.last() == (ChatLineView { author: ChatAuthor::Mine, text: message })
        }),
{
    if addresses.len() > 0 {
        lemma_ends_in("直连已建立："@, addresses[0]);
    }
}

/// A link that fails or breaks is shown with its reason, and nothing else changes.
pub proof fn a_failed_link_is_shown(s: ChatModelView, words: Seq<char>, addresses: Seq<Seq<char>>)
    ensures
        ({
            let (t, actions) = s.session_event(SessionEventView::DirectLinkFailed(words), addresses);
            &&& actions.len() == 0
            &&& t.state == ConnectionState::DirectFailed
            &&& ends_in(t.messages.last().text, words)
            &&& t.messages.drop_last() == s.messages
            &&& only_told(ChatModelView { state: t.state, ..s }, t)
        }),
        ({
            let (t, actions) = s.session_event(SessionEventView::DirectLinkLost(words), addresses);
            &&& actions.len() == 0
            &&& t.state == ConnectionState::DirectFailed
            &&& ends_in(t.messages.last().text, words)
            &&& t.messages.drop_last() == s.messages
            &&& only_told(ChatModelView { state: t.state, ..s }, t)
        }),
{
    assert forall|line: ChatLineView| #[trigger] s.messages.push(line).drop_last() == s.messages by {}
    lemma_ends_in("直连建立失败"@ + "："@, words);
    lemma_ends_in("直连已断开"@ + "："@, words);
}

/// Errors and the code of the room are shown, and nothing else changes.
pub proof fn errors_and_room_codes_are_shown(s: ChatModelView, words: Seq<char>, addresses: Seq<Seq<char>>)
    ensures
        ({
            let (t, actions) = s.session_event(SessionEventView::Error(words), addresses);
            &&& actions.len() == 0
            &&& only_told(s, t)
            &&& ends_in(t.status, words)
            &&& t.messages.last().text == t.status
            &&& t.messages.drop_last() == s.messages
        }),
        ({
            let (t, actions) = s.session_event(SessionEventView::RoomCodeAssigned(words), addresses);
            &&& actions.len() == 0
            &&& t.active_room == Some(words)
            &&& t == (ChatModelView { active_room: t.active_room, messages: t.messages, ..s })
            &&& s.active_room == Some(words) ==> t == s
            &&& s.active_room != Some(words) ==> ends_in(t.messages.last().text, words)
        }),
{
    assert forall|line: ChatLineView| #[trigger] s.messages.push(line).drop_last() == s.messages by {}
    lemma_ends_in("错误："@, words);
    lemma_ends_in("服务器已分配房间号："@, words);
}

/// When the server is gone a direct link goes on; without one the session is over and can be started
/// anew. A link is tried again only in a session.
pub proof fn a_lost_server_ends_a_session_without_a_link(
    s: ChatModelView,
    addresses: Seq<Seq<char>>,
)
    ensures
        ({
            let (t, actions) = s.session_event(SessionEventView::SignalingClosed, addresses);
            let over = s.state != ConnectionState::Direct && s.has_handle;
            &&& actions.len() == 0
            &&& s.state == ConnectionState::Direct ==> says_one_line(s, t)
            &&& over ==> t.state == ConnectionState::Idle && !t.has_handle && t.active_room is None
                && only_told(
                ChatModelView { state: t.state, has_handle: false, active_room: None, ..s },
                t,
            )
            &&& s.state != ConnectionState::Direct && !s.has_handle ==> t == s
        }),
        ({
            let (t, actions) = s.retrying();
            &&& s.has_handle ==> actions == seq![UiActionView::RetryDirect] && t.state
                == ConnectionState::Paired && only_told(ChatModelView { state: t.state, ..s }, t)
            &&& !s.has_handle ==> actions.len() == 0 && says_one_line(s, t)
        }),
{
    assert forall|line: ChatLineView| #[trigger] s.messages.push(line).drop_last() == s.messages by {}
}

/// A session is started with the role that was chosen, at the address that its server and room make,
/// after what was there before is closed and the server's address is saved. One whose address cannot
/// be made is not started, and the reason is told.
pub proof fn sessions_start_in_the_place_of_others(s: ChatModelView, room: Seq<char>)
    ensures
        ({
            let (t, actions) = s.starting(SessionRoleView::Host);
            match rooms::host_address(s.server) {
                Ok(url) => {
                    &&& actions.last() == (UiActionView::StartSession {
                        role: SessionRoleView::Host,
                        url,
                    })
                    &&& !t.has_handle
                    &&& t.state == ConnectionState::Idle
                    &&& t.remote_state is Idle
                    &&& t.server == text::white_trimmed(s.server) || text::white_trimmed(
                        s.server,
                    ).len() == 0
                    &&& text::white_trimmed(s.server).len() > 0 ==> actions.contains(
                        UiActionView::SaveServer(text::white_trimmed(s.server)),
                    )
                    &&& s.has_handle ==> actions.contains(UiActionView::CloseSession)
                    &&& actions.contains(UiActionView::DropEvents)
                },
                Err(error) => {
                    &&& actions.len() == 0
                    &&& only_told(s, t)
                    &&& t.status == error
                    &&& t.messages.last().text == error
                },
            }
        }),
        ({
            let (t, actions) = s.starting(SessionRoleView::Guest { room_code: room });
            match rooms::guest_address(s.server, room) {
                Ok(url) => actions.last() == (UiActionView::StartSession {
                    role: SessionRoleView::Guest { room_code: room },
                    url,
                }),
                Err(error) => actions.len() == 0 && only_told(s, t) && t.status == error,
            }
        }),
{
    let (t, actions) = s.starting(SessionRoleView::Host);
    let closing = s.closing();
    let n = closing.len() as int;
    if rooms::host_address(s.server) is Ok {
        assert(closing[n - 1] == UiActionView::DropEvents);
        assert(actions[n - 1] == UiActionView::DropEvents);
        if text::white_trimmed(s.server).len() > 0 {
            assert(s.closed().server == s.server);
            assert(actions[n] == UiActionView::SaveServer(text::white_trimmed(s.server)));
        }
        if s.has_handle {
            assert(closing[n - 2] == UiActionView::CloseSession);
            assert(actions[n - 2] == UiActionView::CloseSession);
        }
    }
}

/// What was typed as a room is cut down to its digits and entered if it has four of them; else the
/// user is told and nothing is started. A session that has started shows an empty chat, and a guest
/// its room.
pub proof fn rooms_are_entered_by_four_digits(s: ChatModelView, room: Seq<char>)
    ensures
        ({
            let typed = rooms::normalized(s.room_input);
            let (t, actions) = s.joining();
            &&& t.room_input == typed
            &&& rooms::is_room(typed) ==> (t, actions) == (ChatModelView {
                room_input: typed,
                ..s
            }).starting(SessionRoleView::Guest { room_code: typed })
            &&& !rooms::is_room(typed) ==> actions.len() == 0 && only_told(
                ChatModelView { room_input: typed, ..s },
                t,
            ) && t.messages.len() == s.messages.len() + 1
        }),
        ({
            let t = s.started(SessionRoleView::Guest { room_code: room });
            let h = s.started(SessionRoleView::Host);
            &&& t.has_handle && h.has_handle
            &&& t.state == ConnectionState::Connecting && h.state == ConnectionState::Connecting
            &&& t.active_room == Some(room)
            &&& h.active_room is None
            &&& t.pending_offers.len() == 0 && h.pending_offers.len() == 0
            &&& t.transfers.len() == 0 && h.transfers.len() == 0
            &&& ends_in(t.status, room)
            &&& t.pending_test_message == s.pending_test_message
            &&& t.messages.len() == if s.pending_test_message is Some {
                2nat
            } else {
                1nat
            }
            &&& h.messages.len() == t.messages.len()
            &&& s.pending_test_message matches Some(message) ==> ends_in(
                t.messages.last().text,
                message,
            )
            &&& t == (ChatModelView {
                has_handle: true,
                active_room: t.active_room,
                state: t.state,
                messages: t.messages,
                status: t.status,
                pending_offers: t.pending_offers,
                transfers: t.transfers,
                ..s
            })
        }),
{
    lemma_ends_in("正在加入房间 "@, room);
    if let Some(message) = s.pending_test_message {
        lemma_ends_in("将在直连建立后自动发送测试消息："@, message);
    }
}

/// An address that was saved is told where there is no session; one that was not, with the reason.
/// A session that could not be started is told with the reason.
pub proof fn saving_and_failing_are_told(s: ChatModelView, error: Seq<char>)
    ensures
        ({
            let t = s.saved(Ok(()));
            &&& t == (ChatModelView { status: t.status, ..s })
            &&& s.state != ConnectionState::Idle ==> t == s
        }),
        ({
            let t = s.saved(Err(error));
            &&& t == (ChatModelView { status: t.status, ..s })
            &&& ends_in(t.status, error)
        }),
        ({
            let t = s.start_failed(error);
            &&& only_told(s, t)
            &&& t.status == error
            &&& ends_in(t.messages.last().text, error)
            &&& t.messages.drop_last() == s.messages
        }),
        ({
            let (t, actions) = s.saving();
            let server = text::white_trimmed(s.server);
            &&& server.len() > 0 ==> actions == seq![UiActionView::SaveServer(server)] && t == (
            ChatModelView { server, ..s })
            &&& server.len() == 0 ==> actions.len() == 0 && t == (ChatModelView {
                status: t.status,
                ..s
            })
        }),
{
    lemma_ends_in("保存失败："@, error);
    lemma_ends_in("连接失败："@, error);
    assert(s.start_failed(error).messages.drop_last() =~= s.messages);
}

/// The window opens with nothing in it and no session, for the server that was asked for. A host that
/// names a room opens one at once, of which the server will tell the number; a guest that names a
/// valid room enters it; anyone else waits for the user.
pub proof fn the_window_opens_as_asked(
    config: ClientConfigView,
    stored: Option<Seq<char>>,
    displays: Seq<crate::remote_desktop::RemoteDisplayView>,
)
    ensures
        ({
            let (t, actions) = ChatModelView::first(config, stored, displays);
            let enters = config.role == RoleChoice::Guest && rooms::is_room(config.room);
            let opens = config.role == RoleChoice::Host && config.room.len() > 0;
            &&& t.remote_displays == displays
            &&& t.pending_test_message == config.test_message
            &&& !t.has_handle
            &&& t.state == ConnectionState::Idle
            &&& t.remote_state is Idle
            &&& t.main_view == MainView::Chat
            &&& t.pending_offers.len() == 0
            &&& t.transfers.len() == 0
            &&& t.active_room is None
            &&& !t.capturing && !t.injecting
            &&& !t.remote_allow_control
            &&& !enters && !opens ==> actions.len() == 0 && t.messages.len() == 0 && t.room_input
                == config.room
            &&& enters ==> t.room_input == config.room && forall|k: int|
                0 <= k < actions.len() && (#[trigger] actions[k]) is StartSession ==> actions[k]->role
                    == (SessionRoleView::Guest { room_code: config.room })
            &&& opens ==> t.room_input.len() == 0 && forall|k: int|
                0 <= k < actions.len() && (#[trigger] actions[k]) is StartSession ==> actions[k]->role
                    == SessionRoleView::Host
        }),
{
}

/// A button beside a file does what it says to that very file: it asks the session to pause, go on
/// with or cancel that transfer, or answers that offer. Without a session it does nothing.
pub proof fn buttons_beside_a_file_reach_it(s: ChatModelView, id: Seq<char>)
    ensures
        use_session(s, s.row_pressed(id, RowAction::Pause), UiActionView::PauseTransfer(id)),
        use_session(s, s.row_pressed(id, RowAction::Resume), UiActionView::ResumeTransfer(id)),
        use_session(
            s,
            s.row_pressed(id, RowAction::Cancel),
            UiActionView::CancelTransfer { transfer_id: id, reason: "用户取消"@ },
        ),
        s.row_pressed(id, RowAction::Accept) == s.accepting(id),
        s.row_pressed(id, RowAction::Reject) == s.rejecting(id),
{
}

/// Does the step ask the session for this, where there is one, and change nothing?
pub open spec fn use_session(
    s: ChatModelView,
    step: (ChatModelView, Seq<UiActionView>),
    action: UiActionView,
) -> bool {
    &&& step.0 == s
    &&& s.has_handle ==> step.1 == seq![action]
    &&& !s.has_handle ==> step.1.len() == 0
}

/// What can be paused is under way or on offer, and what can go on was paused or failed; what is
/// over can be neither, nor cancelled.
pub proof fn buttons_fit_the_state_of_a_transfer(status: TransferStatus)
    ensures
        row_button(status) == Some(RowAction::Pause) <==> status == TransferStatus::Offered
            || status == TransferStatus::Accepted,
        row_button(status) == Some(RowAction::Resume) <==> status == TransferStatus::Paused
            || status == TransferStatus::Failed,
        row_button(status) is None <==> status == TransferStatus::Complete || status
            == TransferStatus::Cancelled,
        is_cancellable(status) <==> row_button(status) is Some,
{
}

/// The screen is shared only over a direct link, with a peer that can watch, and one at a time; then
/// the system is asked, for the input too where control is to be given. Else the user is told.
pub proof fn sharing_starts_with_permission(s: ChatModelView)
    ensures
        ({
            let (t, actions) = s.sharing_wanted();
            let can = s.state == ConnectionState::Direct && s.remote_peer_supported
                && s.remote_state is Idle;
            &&& can ==> t == s && actions == seq![
                UiActionView::AskPermissions { control: s.remote_allow_control },
            ]
            &&& !can ==> says_one_line(s, t) && actions.len() == 0
        }),
        s.can_share() <==> s.state == ConnectionState::Direct && s.remote_peer_supported
            && s.remote_displays.len() > 0,
{
    assert forall|line: ChatLineView| #[trigger] s.messages.push(line).drop_last() == s.messages by {}
}

/// The display that was chosen is offered, in the size that fits it and with the control that the
/// user chose, if the system permits the screen and, for control, the input. Else nothing is offered;
/// where the system or the display is the reason, the user is told.
pub proof fn the_chosen_display_is_offered(
    s: ChatModelView,
    screen: Result<(), Seq<char>>,
    input: Result<(), Seq<char>>,
)
    ensures
        ({
            let (t, actions) = s.offering(screen, input);
            let permitted = screen is Ok && (s.remote_allow_control ==> input is Ok);
            let there = s.remote_display_index < s.remote_displays.len();
            let display = s.remote_displays[s.remote_display_index as int];
            &&& permitted && there && s.has_handle ==> {
                &&& actions == seq![
                    UiActionView::OfferDesktop {
                        display,
                        config: fit::fitted(display.width, display.height),
                        allow_control: s.remote_allow_control,
                    },
                ]
                &&& t == (ChatModelView { main_view: MainView::RemoteDesktop, ..s })
            }
            &&& !(permitted && there && s.has_handle) ==> actions.len() == 0
            &&& !(permitted && there) ==> says_one_line(s, t)
            &&& permitted && there && !s.has_handle ==> t == s
        }),
{
    assert forall|line: ChatLineView| #[trigger] s.messages.push(line).drop_last() == s.messages by {}
}

/// An offer of the peer is shown and answered under its session: taken without a reason, declined
/// with one. Without an offer or a session nothing is answered.
pub proof fn the_peers_offer_is_answered(
    s: ChatModelView,
    offer: RemoteDesktopOfferView,
    accepted: bool,
)
    ensures
        ({
            let (t, actions) = s.desktop_event(RemoteDesktopEventView::IncomingOffer(offer));
            let answer = t.answering(accepted);
            &&& actions.len() == 0
            &&& t.remote_offer == Some(offer)
            &&& t.remote_state == RemoteDesktopStateView::IncomingPending(offer)
            &&& t.main_view == MainView::RemoteDesktop
            &&& t == (ChatModelView {
                remote_offer: t.remote_offer,
                remote_state: t.remote_state,
                main_view: t.main_view,
                messages: t.messages,
                ..s
            })
            &&& s.has_handle ==> {
                &&& answer.len() == 1
                &&& answer[0] is AnswerDesktop
                &&& answer[0]->AnswerDesktop_session_id == offer.session_id
                &&& answer[0]->AnswerDesktop_accepted == accepted
                &&& answer[0]->AnswerDesktop_reason is None <==> accepted
            }
            &&& !s.has_handle ==> answer.len() == 0
        }),
        s.remote_offer is None ==> s.answering(accepted).len() == 0,
{
}

/// A viewer is given control of the session that is shared, once the input of this machine is open;
/// it is opened for the display that is shared. Taking control back closes the input first, letting
/// go of what is held down, and always reaches the viewer. Nothing happens where no screen is shared.
pub proof fn control_is_given_with_the_input_open(
    s: ChatModelView,
    id: Seq<char>,
    before: bool,
    offer: RemoteDesktopOfferView,
    error: Seq<char>,
)
    requires
        s.remote_state == (RemoteDesktopStateView::Sharing {
            session_id: id,
            allow_control: before,
        }),
        s.has_handle,
        s.remote_offer == Some(offer),
    ensures
        ({
            let give = UiActionView::SetPermission { session_id: id, allow_control: true };
            let take = UiActionView::SetPermission { session_id: id, allow_control: false };
            let open = UiActionView::OpenInjector {
                display_id: offer.display.id,
                purpose: InjectorPurpose::Permission,
            };
            &&& s.injecting ==> s.permitting(true) == (s, seq![give])
            &&& !s.injecting ==> s.permitting(true) == (s, seq![open])
            &&& s.injector_opened(InjectorPurpose::Permission, Ok(())) == (
                ChatModelView { injecting: true, ..s },
                seq![give],
            )
            &&& says_one_line(
                s,
                s.injector_opened(InjectorPurpose::Permission, Err(error)).0,
            )
            &&& s.injector_opened(InjectorPurpose::Permission, Err(error)).1.len() == 0
            &&& s.permitting(false).0 == (ChatModelView { injecting: false, ..s })
            &&& s.injecting ==> s.permitting(false).1 == seq![UiActionView::ReleaseInputs, take]
            &&& !s.injecting ==> s.permitting(false).1 == seq![take]
        }),
{
    assert forall|line: ChatLineView| #[trigger] s.messages.push(line).drop_last() == s.messages by {}
    assert(s.permitting(false).1 =~= if s.injecting {
        seq![
            UiActionView::ReleaseInputs,
            UiActionView::SetPermission { session_id: id, allow_control: false },
        ]
    } else {
        seq![UiActionView::SetPermission { session_id: id, allow_control: false }]
    });
}

/// Control is a matter of who shares: without a shared screen or a session nothing is given or
/// taken.
pub proof fn without_a_shared_screen_there_is_no_control(s: ChatModelView, allow: bool)
    ensures
        !(s.remote_state is Sharing) || !s.has_handle ==> s.permitting(allow) == (
            s,
            Seq::<UiActionView>::empty(),
        ),
{
}

/// When a screen that was offered is to be shown, whatever was there before is freed and the capture
/// of it starts; where control was offered the input of that display is opened first, and where that
/// fails control is withdrawn and the capture starts all the same.
pub proof fn a_shown_screen_is_captured(
    s: ChatModelView,
    offer: RemoteDesktopOfferView,
    error: Seq<char>,
)
    requires
        s.has_handle,
    ensures
        ({
            let (t, actions) = s.desktop_event(RemoteDesktopEventView::SharingStarted(offer));
            let freed = (if s.capturing {
                seq![UiActionView::StopCapture]
            } else {
                Seq::<UiActionView>::empty()
            }) + (if s.injecting {
                seq![UiActionView::ReleaseInputs]
            } else {
                Seq::<UiActionView>::empty()
            });
            let opened = t.injector_opened(InjectorPurpose::Capture, Ok(()));
            let failed = t.injector_opened(InjectorPurpose::Capture, Err(error));
            &&& t.remote_offer == Some(offer)
            &&& t.main_view == MainView::RemoteDesktop
            &&& t.has_handle
            &&& !t.injecting
            &&& t.remote_input_sequence == 0
            &&& !offer.allow_control ==> t.capturing && actions == freed.push(
                UiActionView::StartCapture(offer),
            )
            &&& offer.allow_control ==> !t.capturing && actions == freed.push(
                UiActionView::OpenInjector {
                    display_id: offer.display.id,
                    purpose: InjectorPurpose::Capture,
                },
            )
            &&& opened == (
                ChatModelView { injecting: true, capturing: true, ..t },
                seq![UiActionView::StartCapture(offer)],
            )
            &&& failed.1 == seq![
                UiActionView::WithdrawPermission(offer.session_id),
                UiActionView::StartCapture(offer),
            ]
            &&& failed.0.capturing
            &&& !failed.0.injecting
            &&& failed.0.messages.len() == t.messages.len() + 1
        }),
{
    let (t, actions) = s.desktop_event(RemoteDesktopEventView::SharingStarted(offer));
    assert(offer.allow_control ==> actions =~= s.freeing().push(actions.last()));
    assert(!offer.allow_control ==> actions =~= s.freeing().push(actions.last()));
}

/// Who starts to watch gets a decoder for that session and waits for its first picture; who goes on
/// watching keeps both. Where it stands is shown as it comes.
pub proof fn watching_starts_with_a_fresh_picture(
    s: ChatModelView,
    id: Seq<char>,
    can_control: bool,
    state: RemoteDesktopStateView,
)
    ensures
        ({
            let watching = RemoteDesktopStateView::Viewing { session_id: id, can_control };
            let (t, actions) = s.desktop_event(RemoteDesktopEventView::StateChanged(watching));
            let goes_on = s.remote_decoder is Some && match s.remote_state {
                RemoteDesktopStateView::Viewing { session_id, .. } => session_id == id,
                _ => false,
            };
            &&& actions.len() == 0
            &&& t.remote_state == watching
            &&& t.main_view == MainView::RemoteDesktop
            &&& goes_on ==> t.remote_decoder == s.remote_decoder && t.remote_frame_size
                == s.remote_frame_size
            &&& !goes_on ==> t.remote_frame_size is None && t.remote_decoder is Some
                && t.remote_decoder->0.session_id == id && t.remote_decoder->0.width == 0
            &&& t == (ChatModelView {
                remote_state: t.remote_state,
                remote_decoder: t.remote_decoder,
                remote_frame_size: t.remote_frame_size,
                main_view: t.main_view,
                ..s
            })
        }),
        state is OutgoingPending || state is IncomingPending || state is Sharing
            ==> s.desktop_event(RemoteDesktopEventView::StateChanged(state)) == (
            ChatModelView { remote_state: state, ..s },
            Seq::<UiActionView>::empty(),
        ),
{
}

/// When no desktop is shared any more, all that was held for one is let go: the capture, the input,
/// the picture, the keyboard, the numbers of inputs.
pub proof fn an_ended_desktop_is_let_go(s: ChatModelView)
    ensures
        ({
            let (t, actions) = s.desktop_event(
                RemoteDesktopEventView::StateChanged(RemoteDesktopStateView::Idle),
            );
            &&& t.remote_state is Idle
            &&& !t.capturing && !t.injecting
            &&& t.remote_offer is None
            &&& t.remote_decoder is None
            &&& t.remote_frame_size is None
            &&& !t.remote_keyboard_captured
            &&& t.remote_input_sequence == 0
            &&& t.remote_modifiers == (Modifiers {
                shift: false,
                ctrl: false,
                alt: false,
                command: false,
                mac_cmd: false,
            })
            &&& t.remote_last_pointer is None
            &&& t == (ChatModelView {
                remote_state: t.remote_state,
                capturing: false,
                injecting: false,
                remote_offer: None,
                remote_decoder: None,
                remote_frame_size: None,
                remote_keyboard_captured: false,
                remote_input_sequence: 0,
                remote_modifiers: t.remote_modifiers,
                remote_last_pointer: None,
                ..s
            })
            &&& actions == (if s.capturing {
                seq![UiActionView::StopCapture]
            } else {
                Seq::<UiActionView>::empty()
            }) + (if s.injecting {
                seq![UiActionView::ReleaseInputs]
            } else {
                Seq::<UiActionView>::empty()
            })
        }),
{
}

/// What the session tells of a shared desktop is acted on: input of the viewer is carried out where
/// the input is open, a frame that has come is taken, a whole picture is made where the screen is
/// captured, an error is told, and whether the peer can watch is kept.
pub proof fn desktop_events_are_acted_on(
    s: ChatModelView,
    event: RemoteInputEventView,
    id: Seq<char>,
    frame_id: u64,
    message: Seq<char>,
    session: Option<Seq<char>>,
    supported: bool,
)
    ensures
        s.desktop_event(RemoteDesktopEventView::Input(event)) == (
            s,
            if s.injecting {
                seq![UiActionView::Inject(event)]
            } else {
                Seq::<UiActionView>::empty()
            },
        ),
        use_session(
            s,
            s.desktop_event(RemoteDesktopEventView::FrameAvailable { session_id: id, frame_id }),
            UiActionView::TakeFrame(id),
        ),
        s.desktop_event(RemoteDesktopEventView::KeyframeRequested(id)) == (
            s,
            if s.capturing {
                seq![UiActionView::ForceKeyframe]
            } else {
                Seq::<UiActionView>::empty()
            },
        ),
        ({
            let (t, actions) = s.desktop_event(
                RemoteDesktopEventView::Error { session_id: session, message },
            );
            &&& actions.len() == 0
            &&& only_told(s, t)
            &&& ends_in(t.status, message)
            &&& t.messages.last().text == t.status
        }),
        ({
            let (t, actions) = s.desktop_event(
                RemoteDesktopEventView::PeerAvailabilityChanged(supported),
            );
            &&& actions.len() == 0
            &&& t.remote_peer_supported == supported
            &&& t == (ChatModelView {
                remote_peer_supported: supported,
                messages: t.messages,
                ..s
            })
            &&& !supported ==> t.messages == s.messages
        }),
        forall|e: RemoteDesktopEventView, addresses: Seq<Seq<char>>| #[trigger]
            s.session_event(SessionEventView::RemoteDesktop(e), addresses) == s.desktop_event(e),
{
    lemma_ends_in("远程桌面错误："@, message);
}

/// Input that cannot be carried out costs the viewer control: the input counts as closed, and the
/// viewer is told so.
pub proof fn failed_input_costs_control(s: ChatModelView, error: Seq<char>, id: Seq<char>, was: bool)
    requires
        s.remote_state == (RemoteDesktopStateView::Sharing { session_id: id, allow_control: was }),
        s.has_handle,
    ensures
        ({
            let (t, actions) = s.injection_failed(error);
            &&& !t.injecting
            &&& actions == seq![
                UiActionView::SetPermission { session_id: id, allow_control: false },
            ]
            &&& only_told(ChatModelView { injecting: false, ..s }, t)
            &&& ends_in(t.status, error)
        }),
{
    lemma_ends_in("远程输入失败："@, error);
    let (t, actions) = s.injection_failed(error);
    assert(actions =~= seq![
        UiActionView::SetPermission { session_id: id, allow_control: false },
    ]);
}

/// A capture that fails ends the session that it is for, and is told. Ending a session names it;
/// without one, or without a shared desktop, there is nothing to end.
pub proof fn a_failed_capture_ends_the_session(s: ChatModelView, error: Seq<char>)
    ensures
        ({
            let (t, actions) = s.capture_failed(error);
            &&& only_told(s, t)
            &&& ends_in(t.status, error)
            &&& actions == s.stopping("屏幕采集失败"@)
        }),
        ({
            let actions = s.stopping(error);
            match s.remote_state {
                RemoteDesktopStateView::Idle => actions.len() == 0,
                RemoteDesktopStateView::Sharing { session_id, .. } => ends(
                    s,
                    actions,
                    session_id,
                    error,
                ),
                RemoteDesktopStateView::Viewing { session_id, .. } => ends(
                    s,
                    actions,
                    session_id,
                    error,
                ),
                RemoteDesktopStateView::OutgoingPending(offer) => ends(
                    s,
                    actions,
                    offer.session_id,
                    error,
                ),
                RemoteDesktopStateView::IncomingPending(offer) => ends(
                    s,
                    actions,
                    offer.session_id,
                    error,
                ),
            }
        }),
{
    lemma_ends_in("屏幕采集失败："@, error);
}

pub open spec fn ends(
    s: ChatModelView,
    actions: Seq<UiActionView>,
    id: Seq<char>,
    reason: Seq<char>,
) -> bool {
    if s.has_handle {
        actions == seq![UiActionView::StopDesktop { session_id: id, reason }]
    } else {
        actions.len() == 0
    }
}

/// A frame goes to the decoder of the session that is watched; the picture has its size from then
/// on. One that cannot be shown leaves the size, and a whole picture is asked for.
pub proof fn frames_are_shown_or_asked_for(
    s: ChatModelView,
    id: Seq<char>,
    frame: RemoteDesktopFrameView,
    error: Seq<char>,
)
    ensures
        ({
            let (t, fault) = s.frame_taken(id, frame);
            let decoder = match s.remote_decoder {
                Some(d) => d,
                None => FrameDecoderView::start(id),
            };
            &&& t.remote_decoder == Some(decoder.apply(frame).0)
            &&& fault == decoder.apply(frame).1
            &&& fault is None ==> t.remote_frame_size == Some(
                (decoder.apply(frame).0.width, decoder.apply(frame).0.height),
            )
            &&& fault is Some ==> t.remote_frame_size == s.remote_frame_size
            &&& t == (ChatModelView {
                remote_decoder: t.remote_decoder,
                remote_frame_size: t.remote_frame_size,
                ..s
            })
        }),
        ({
            let (t, actions) = s.frame_failed(id, error);
            &&& s.has_handle ==> actions == seq![UiActionView::RequestKeyframe(id)]
                && says_one_line(s, t) && ends_in(t.messages.last().text, error)
            &&& !s.has_handle ==> t == s && actions.len() == 0
        }),
{
    lemma_ends_in("远程画面需要关键帧："@, error);
    assert forall|line: ChatLineView| #[trigger] s.messages.push(line).drop_last() == s.messages by {}
}

/// Input on the picture goes to the session that is watched, as it was made and with the next number,
/// if control was given; else nothing is sent.
pub proof fn input_goes_to_the_watched_session(
    s: ChatModelView,
    event: RemoteInputEventView,
    id: Seq<char>,
)
    ensures
        ({
            let (t, actions) = s.steering(event);
            let open = s.has_handle && s.remote_state == (RemoteDesktopStateView::Viewing {
                session_id: id,
                can_control: true,
            });
            &&& open && s.remote_input_sequence < u64::MAX ==> {
                &&& actions == seq![
                    UiActionView::SendInput {
                        session_id: id,
                        sequence: (s.remote_input_sequence + 1) as u64,
                        event,
                    },
                ]
                &&& t == (ChatModelView {
                    remote_input_sequence: (s.remote_input_sequence + 1) as u64,
                    ..s
                })
            }
            &&& open && s.remote_input_sequence == u64::MAX ==> t == s && actions == seq![
                UiActionView::SendInput { session_id: id, sequence: u64::MAX, event },
            ]
        }),
        !(s.has_handle && s.remote_state is Viewing && s.remote_state->Viewing_can_control)
            ==> s.steering(event) == (s, Seq::<UiActionView>::empty()),
{
}

/// A page is turned to as asked; leaving the picture gives the keyboard back, and what is held down
/// there is let go. Giving it back forgets the modifiers.
pub proof fn leaving_the_picture_gives_the_keyboard_back(s: ChatModelView, page: MainView)
    ensures
        ({
            let (t, actions) = s.turned_to(page);
            let leaves = s.main_view != page && s.remote_keyboard_captured;
            &&& t.main_view == page
            &&& leaves ==> !t.remote_keyboard_captured
            &&& leaves ==> actions == s.steering(RemoteInputEventView::ReleaseAll).1
            &&& !leaves ==> actions.len() == 0 && t == (ChatModelView { main_view: page, ..s })
        }),
        ({
            let (t, actions) = s.keyboard_released();
            &&& !t.remote_keyboard_captured
            &&& !t.remote_modifiers.shift && !t.remote_modifiers.ctrl && !t.remote_modifiers.alt
                && !t.remote_modifiers.command && !t.remote_modifiers.mac_cmd
            &&& actions == s.steering(RemoteInputEventView::ReleaseAll).1
            &&& t.remote_input_sequence == s.steering(
                RemoteInputEventView::ReleaseAll,
            ).0.remote_input_sequence
            &&& t == (ChatModelView {
                remote_keyboard_captured: false,
                remote_modifiers: t.remote_modifiers,
                remote_input_sequence: t.remote_input_sequence,
                ..s
            })
        }),
{
}

/// What stands on the page of the shared desktop fits where it stands: a question where an offer
/// waits for an answer, the picture in its size where one is watched and has come, and words
/// otherwise, with a sign of waiting where the peer is to do something. Only a picture that can be
/// controlled is shown as such.
pub proof fn the_page_fits_the_shared_desktop(s: ChatModelView)
    ensures
        s.desktop_page() is Question <==> s.remote_state is IncomingPending,
        s.desktop_page() is Picture <==> s.remote_state is Viewing && s.remote_frame_size is Some,
        s.desktop_page() matches DesktopPageView::Picture { width, height, can_control, .. }
            ==> s.remote_frame_size == Some((width, height)) && can_control
            == s.remote_state->Viewing_can_control,
        s.desktop_page() matches DesktopPageView::Words { waiting, .. } ==> (waiting
            <==> s.remote_state is OutgoingPending || s.remote_state is Viewing),
        s.desktop_line() is None <==> s.remote_state is Idle,
        s.can_connect() <==> text::white_trimmed(s.server).len() > 0,
        s.chosen_display() == if s.remote_display_index < s.remote_displays.len() {
            s.remote_displays[s.remote_display_index as int].name
        } else {
            "无可用显示器"@
        },
{
}

/// When something that was asked for fails, the user is told with the reason, unless it may fail in
/// silence.
pub proof fn failures_are_told_with_their_reason(action: UiActionView, error: Seq<char>)
    ensures
        action.failure(error) matches Some(words) ==> ends_in(words, error),
        action.failure(error) is Some <==> action is RetryDirect || action is OfferDesktop || (
        command_of(action) is Some && !(action is WithdrawPermission)
            && !(action is RequestKeyframe)),
{
    lemma_ends_in("发送失败："@, error);
    lemma_ends_in("发送文件失败："@, error);
    lemma_ends_in("接收文件失败："@, error);
    lemma_ends_in("拒绝文件失败："@, error);
    lemma_ends_in("暂停失败："@, error);
    lemma_ends_in("继续失败："@, error);
    lemma_ends_in("取消失败："@, error);
    lemma_ends_in("重试直连失败："@, error);
    lemma_ends_in("发起屏幕共享失败："@, error);
    lemma_ends_in("处理屏幕共享请求失败："@, error);
    lemma_ends_in("更新远程控制权限失败："@, error);
    lemma_ends_in("停止远程桌面失败："@, error);
    lemma_ends_in("发送远程输入失败："@, error);
}

/// Buttons can be pressed where they do something: a message and a file can be sent exactly where
/// there is a direct link, a link can be tried again where it has failed, and a room can be entered
/// that was typed as four digits, at a server that was named.
pub proof fn enabled_buttons_do_something(s: ChatModelView)
    ensures
        s.can_send() <==> s.choosing_file().1 == seq![UiActionView::PickFile],
        s.can_send() && text::white_trimmed(s.message_input).len() > 0 <==> s.sending_typed().1
            == seq![UiActionView::SendText(text::white_trimmed(s.message_input))],
        s.can_retry() ==> s.retrying().1 == seq![UiActionView::RetryDirect],
        s.can_retry() ==> s.state == ConnectionState::DirectFailed,
        s.has_handle && s.state == ConnectionState::DirectFailed ==> s.can_retry(),
        s.can_join() <==> text::white_trimmed(s.server).len() > 0 && rooms::is_room(s.room_input),
        s.can_join() ==> s.joining() == s.starting(
            SessionRoleView::Guest { room_code: s.room_input },
        ),
        s.field_hint() == "输入消息"@ <==> s.can_send(),
{
    rooms::kept_input_is_stable(s.room_input);
    let none = Seq::<UiActionView>::empty();
    let pick = seq![UiActionView::PickFile];
    let text = seq![UiActionView::SendText(text::white_trimmed(s.message_input))];
    assert(none.len() != pick.len());
    assert(none.len() != text.len());
    reveal_strlit("输入消息");
    reveal_strlit("直连建立后可发送消息");
    assert("输入消息"@.len() != "直连建立后可发送消息"@.len());
}

proof fn lemma_begins(head: Seq<char>, tail: Seq<char>)
    ensures
        head.is_prefix_of(head + tail),
{
    assert((head + tail).subrange(0, head.len() as int) =~= head);
}

/// Beside a file stand its direction, its state, and how much of it is there of how much; beside an
/// offer its size and its pieces; a display goes by its name and its size.
pub proof fn rows_tell_what_they_are_of(
    line: TransferLineView,
    offer: FileMetadataView,
    display: RemoteDisplayView,
)
    ensures
        labels::direction_words(line.direction).is_prefix_of(row_text(line)),
        text::occurs(row_text(line), labels::status_words(line.status)),
        text::occurs(row_text(line), labels::bytes_text(line.completed_bytes) + " / "@),
        ends_in(row_text(line), " / "@ + labels::bytes_text(line.total_bytes)),
        text::occurs(offer_text(offer), labels::bytes_text(offer.file_size)),
        text::occurs(offer_text(offer), text::decimal_text(offer.total_chunks as nat)),
        display.name.is_prefix_of(display_text(display)),
        text::occurs(
            display_text(display),
            text::decimal_text(display.width as nat) + "×"@ + text::decimal_text(
                display.height as nat,
            ),
        ),
{
    let a = labels::direction_words(line.direction);
    let b = labels::status_words(line.status);
    let c = labels::bytes_text(line.completed_bytes);
    let d = labels::bytes_text(line.total_bytes);
    let row = row_text(line);
    assert(row =~= a + (" · "@ + b + " · "@ + c + " / "@ + d));
    lemma_begins(a, " · "@ + b + " · "@ + c + " / "@ + d);
    assert(row =~= (a + " · "@) + b + (" · "@ + c + " / "@ + d));
    text::a_part_occurs(a + " · "@, b, " · "@ + c + " / "@ + d);
    assert(row =~= (a + " · "@ + b + " · "@) + (c + " / "@) + d);
    text::a_part_occurs(a + " · "@ + b + " · "@, c + " / "@, d);
    assert(row =~= (a + " · "@ + b + " · "@ + c) + (" / "@ + d));
    lemma_ends_in(a + " · "@ + b + " · "@ + c, " / "@ + d);
    let size = labels::bytes_text(offer.file_size);
    let pieces = text::decimal_text(offer.total_chunks as nat);
    assert(offer_text(offer) =~= "待接收 · "@ + size + (" · "@ + pieces + " 个分段"@));
    text::a_part_occurs("待接收 · "@, size, " · "@ + pieces + " 个分段"@);
    assert(offer_text(offer) =~= ("待接收 · "@ + size + " · "@) + pieces + " 个分段"@);
    text::a_part_occurs("待接收 · "@ + size + " · "@, pieces, " 个分段"@);
    let measures = text::decimal_text(display.width as nat) + "×"@ + text::decimal_text(
        display.height as nat,
    );
    assert(display_text(display) =~= display.name + (" ("@ + measures + ")"@));
    lemma_begins(display.name, " ("@ + measures + ")"@);
    assert(display_text(display) =~= (display.name + " ("@) + measures + ")"@);
    text::a_part_occurs(display.name + " ("@, measures, ")"@);
}

/// Who wrote a line can be read: the two ends bear different names, and the program bears none.
pub proof fn authors_are_told_apart(a: ChatAuthor, b: ChatAuthor)
    ensures
        author_words(a) == author_words(b) <==> a == b,
        author_words(a) is None <==> a == ChatAuthor::System,
{
    reveal_strlit("我");
    reveal_strlit("对方");
    assert("我"@.len() != "对方"@.len());
}

/// A hint why no screen can be shared is given exactly where the platform cannot or, over a direct
/// link, the peer cannot.
pub proof fn hints_tell_why_sharing_is_not_possible(s: ChatModelView, supported: bool)
    ensures
        s.sharing_hint(supported) is None <==> supported && !(s.state == ConnectionState::Direct
            && !s.remote_peer_supported),
        s.sharing_hint(true) != s.sharing_hint(false),
        s.picture_hint(true) != s.picture_hint(false),
{
    reveal_strlit("当前平台暂不支持共享屏幕");
    reveal_strlit("对方客户端不支持远程桌面");
    reveal_strlit("仅观看");
    reveal_strlit("控制已启用 · 按 Esc 释放键盘");
    reveal_strlit("控制已授权 · 点击画面接管键盘");
    assert("当前平台暂不支持共享屏幕"@[0] != "对方客户端不支持远程桌面"@[0]);
    assert("仅观看"@[0] != "控制已启用 · 按 Esc 释放键盘"@[0]);
    assert("仅观看"@[0] != "控制已授权 · 点击画面接管键盘"@[0]);
}

/// Who leaves the session has none any more: no room, no link, nothing of a shared desktop. What was
/// open is closed, the capture and the input before the session; the chat stays, with a line more.
pub proof fn leaving_closes_everything(s: ChatModelView)
    ensures
        ({
            let t = s.disconnected();
            let actions = s.closing();
            &&& !t.has_handle && t.active_room is None && t.state == ConnectionState::Idle
            &&& t.remote_state is Idle && !t.remote_peer_supported
            &&& !t.capturing && !t.injecting && t.remote_offer is None && t.remote_decoder is None
            &&& t.messages.len() == s.messages.len() + 1
            &&& t.messages.drop_last() == s.messages
            &&& t.pending_offers == s.pending_offers && t.transfers == s.transfers
            &&& t.server == s.server && t.room_input == s.room_input
            &&& actions.last() == UiActionView::DropEvents
            &&& actions.contains(UiActionView::CloseSession) <==> s.has_handle
            &&& actions.contains(UiActionView::StopCapture) <==> s.capturing
            &&& actions.contains(UiActionView::ReleaseInputs) <==> s.injecting
            &&& s.capturing ==> actions[0] == UiActionView::StopCapture
        }),
{
    let actions = s.closing();
    let n = actions.len() as int;
    assert(s.disconnected().messages.drop_last() =~= s.messages);
    assert(s.capturing ==> actions[0] == UiActionView::StopCapture);
    assert(s.injecting ==> actions[if s.capturing {
        1int
    } else {
        0int
    }] == UiActionView::ReleaseInputs);
    assert(s.has_handle ==> actions[n - 2] == UiActionView::CloseSession);
    assert(n <= 4);
    if s.has_handle {
        assert(actions.contains(actions[n - 2]));
    }
    if s.capturing {
        assert(actions.contains(actions[0]));
    }
    if s.injecting {
        assert(actions.contains(
            actions[if s.capturing {
                1int
            } else {
                0int
            }],
        ));
    }
}

/// The room that is shown is the one that the session is in; a capture that ends as it should is no
/// error.
pub proof fn the_room_of_the_session_is_shown(s: ChatModelView, room: Seq<char>, error: Seq<char>)
    ensures
        s.active_room == Some(room) && room.len() > 0 ==> s.shown_room() == room,
        s.active_room is None ==> s.shown_room() == "----"@,
        s.capture_ended(None) == (s, Seq::<UiActionView>::empty()),
        s.capture_ended(Some(error)) == s.capture_failed(error),
{
}

/// How an end can be reached is shown with its role and with each address beside its kind, in the
/// order in which they are known; that of the peer is a sign of it.
pub proof fn ways_to_reach_an_end_are_shown(
    s: ChatModelView,
    info: ConnectInfoView,
    addresses: Seq<Seq<char>>,
    i: int,
)
    requires
        info.candidates.len() == addresses.len(),
        0 <= i < addresses.len(),
    ensures
        ({
            let list = addressed(info.candidates, addresses);
            let (t, a) = s.session_event(SessionEventView::LocalCandidatesCollected(info), addresses);
            let (u, b) = s.session_event(SessionEventView::PeerCandidatesReceived(info), addresses);
            &&& list.len() == addresses.len()
            &&& list[i] == (addresses[i], info.candidates[i].kind)
            &&& a.len() == 0 && b.len() == 0
            &&& says_one_line(s, t)
            &&& t.messages.last().text == labels::connect_info_text("本端候选"@, info.role, list)
            &&& u.messages.last().text == labels::connect_info_text("对端候选"@, info.role, list)
            &&& u == (ChatModelView {
                state: u.state,
                status: u.status,
                messages: u.messages,
                ..s
            })
            &&& u.messages.len() == s.messages.len() + 1
            &&& s.has_handle && (s.state == ConnectionState::Connecting || s.state
                == ConnectionState::Connected) ==> u.state == ConnectionState::Paired
        }),
{
    assert forall|line: ChatLineView| #[trigger] s.messages.push(line).drop_last() == s.messages by {}
}

/// Without a session nothing is captured and no input is opened; what was there before is freed all
/// the same.
pub proof fn without_a_session_nothing_is_captured(s: ChatModelView, offer: RemoteDesktopOfferView)
    requires
        !s.has_handle,
    ensures
        ({
            let (t, actions) = s.capture_wanted(offer);
            &&& !t.capturing && !t.injecting && t.remote_offer is None && t.remote_decoder is None
            &&& actions.contains(UiActionView::StopCapture) <==> s.capturing
            &&& actions.contains(UiActionView::ReleaseInputs) <==> s.injecting
            &&& !actions.contains(UiActionView::StartCapture(offer))
            &&& actions.len() <= 2
        }),
{
    let actions = s.capture_wanted(offer).1;
    if s.capturing {
        assert(actions[0] == UiActionView::StopCapture);
        assert(actions.contains(actions[0]));
    }
    if s.injecting {
        let i = if s.capturing {
            1int
        } else {
            0int
        };
        assert(actions[i] == UiActionView::ReleaseInputs);
        assert(actions.contains(actions[i]));
    }
}

}
