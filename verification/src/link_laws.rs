//! What the two ends of a direct link bring about together: what one end is told to do, and what
//! the other end hears and shows.
use crate::chat::UiActionView;
use crate::chat_commands::command_of;
use crate::link::{leads_to, transfer_all, LinkActionView, LinkEventView, LinkStateView};
use crate::p2p_proto::{FileStreamHeaderView, P2pMessageView};
use crate::paths;
use crate::ranges;
use crate::ranges::ChunkRange;
use crate::remote_desktop::{
    RemoteDesktopControlView, RemoteDesktopEventView, RemoteDesktopFrameView,
    RemoteDesktopOfferView, RemoteDesktopStateView, RemoteInputEventView,
};
use crate::session::{DirectCommandView, FileTransferProgressView, SessionEventView};
use crate::transfer::{
    FileMetadataView, TransferDirection, TransferManifestView, TransferStatus,
};
use crate::transfer_session::{accepted_manifest, TransferActionView, TransferStateView};
use vstd::prelude::*;

verus! {

/// The user interface is told how far the file of this record has come: whole chunks count, but
/// never more than the file has bytes.
pub open spec fn progress_told(m: TransferManifestView) -> LinkActionView {
    let bytes = m.done().len() * m.metadata.chunk_size;
    LinkActionView::Emit(
        SessionEventView::FileProgress(
            FileTransferProgressView {
                transfer_id: m.metadata.transfer_id,
                file_name: m.metadata.file_name,
                direction: m.direction,
                status: m.status,
                completed_bytes: if bytes < m.metadata.file_size {
                    bytes as u64
                } else {
                    m.metadata.file_size
                },
                total_bytes: m.metadata.file_size,
            },
        ),
    )
}

/// An event of the shared desktop is told.
pub open spec fn desktop_told(e: RemoteDesktopEventView) -> LinkActionView {
    LinkActionView::Emit(SessionEventView::RemoteDesktop(e))
}

/// The user interface is told where the shared desktop stands now.
pub open spec fn state_told(state: RemoteDesktopStateView) -> LinkActionView {
    desktop_told(RemoteDesktopEventView::StateChanged(state))
}

/// A message about the shared desktop goes to the peer.
pub open spec fn desktop_sent(message: RemoteDesktopControlView) -> LinkActionView {
    LinkActionView::Queue(P2pMessageView::RemoteDesktop { message })
}

/// The peer hears a message about the shared desktop.
pub open spec fn desktop_heard(message: RemoteDesktopControlView) -> LinkEventView {
    LinkEventView::Message(P2pMessageView::RemoteDesktop { message })
}

/// This end does what it is told.
pub open spec fn ordered(command: DirectCommandView) -> LinkEventView {
    LinkEventView::Command(Some(command))
}

/// What the user sends arrives: the text of the action goes to the peer as it is, and the peer's
/// user interface is told of it as it is. Neither end changes by it.
pub proof fn what_the_user_sends_arrives(
    here: LinkStateView,
    there: LinkStateView,
    text: Seq<char>,
    after: LinkStateView,
    actions: Seq<LinkActionView>,
)
    requires
        leads_to(
            there,
            LinkEventView::Message(P2pMessageView::Chat { text }),
            (after, actions),
        ),
    ensures
        command_of(UiActionView::SendText(text)) is Some,
        here.step(ordered(command_of(UiActionView::SendText(text))->0), None) == (
            here,
            seq![LinkActionView::Queue(P2pMessageView::Chat { text })],
        ),
        after == there,
        actions == seq![LinkActionView::Emit(SessionEventView::MessageReceived(text))],
{
}

/// An action that concerns this end alone, or the session as a whole.
pub open spec fn is_local(action: UiActionView) -> bool {
    match action {
        UiActionView::CloseSession => true,
        UiActionView::DropEvents => true,
        UiActionView::SaveServer(_) => true,
        UiActionView::StartSession { .. } => true,
        UiActionView::RetryDirect => true,
        UiActionView::AskPermissions { .. } => true,
        UiActionView::PickFile => true,
        UiActionView::PickSavePath(_) => true,
        UiActionView::StartCapture(_) => true,
        UiActionView::StopCapture => true,
        UiActionView::ForceKeyframe => true,
        UiActionView::OpenInjector { .. } => true,
        UiActionView::Inject(_) => true,
        UiActionView::ReleaseInputs => true,
        UiActionView::TakeFrame(_) => true,
        _ => false,
    }
}

/// Every action that concerns the link makes a command, but for the offer of a desktop, which gets
/// an identifier first; no other action makes one. Two actions that make the same command are the
/// same, but for the two ways to take control back.
pub proof fn every_action_on_the_link_makes_a_command(action: UiActionView, other: UiActionView)
    ensures
        command_of(action) is Some <==> !is_local(action) && !(action is OfferDesktop),
        command_of(action) is Some && command_of(action) == command_of(other) ==> action == other
            || {
            &&& action is SetPermission || action is WithdrawPermission
            &&& other is SetPermission || other is WithdrawPermission
        },
{
}

/// What a file action of the user makes the link do: a file is offered from the path that was
/// chosen, an offer is taken to the place that was chosen, and the other actions reach the transfer
/// that they name.
pub proof fn file_actions_reach_their_transfer(
    s: LinkStateView,
    id: Seq<char>,
    path: Seq<char>,
    reason: Seq<char>,
)
    ensures
        s.step(ordered(command_of(UiActionView::SendFile(path))->0), None) == (
            s,
            seq![LinkActionView::OfferFile(path)],
        ),
        s.step(ordered(command_of(UiActionView::AcceptFile { transfer_id: id, path })->0), None)
            == (s, seq![LinkActionView::AcceptFile { transfer_id: id, save_path: path }]),
        s.step(ordered(command_of(UiActionView::RejectFile { transfer_id: id, reason })->0), None)
            == s.step(ordered(DirectCommandView::RejectFile { transfer_id: id, reason }), None),
        s.step(ordered(command_of(UiActionView::PauseTransfer(id))->0), None) == s.step(
            ordered(DirectCommandView::PauseTransfer(id)),
            None,
        ),
        s.step(ordered(command_of(UiActionView::ResumeTransfer(id))->0), None) == s.step(
            ordered(DirectCommandView::ResumeTransfer(id)),
            None,
        ),
        s.step(
            ordered(command_of(UiActionView::CancelTransfer { transfer_id: id, reason })->0),
            None,
        ) == s.step(ordered(DirectCommandView::CancelTransfer { transfer_id: id, reason }), None),
{
}

/// What a desktop action of the user makes of the link is what the command of that name does; to
/// withdraw the permission is to set it to no control.
pub proof fn desktop_actions_reach_their_session(
    id: Seq<char>,
    flag: bool,
    reason: Option<Seq<char>>,
    words: Seq<char>,
    sequence: u64,
    event: RemoteInputEventView,
)
    ensures
        command_of(UiActionView::AnswerDesktop { session_id: id, accepted: flag, reason }) == Some(
            DirectCommandView::AnswerRemoteDesktop { session_id: id, accepted: flag, reason },
        ),
        command_of(UiActionView::SetPermission { session_id: id, allow_control: flag }) == Some(
            DirectCommandView::SetRemoteDesktopPermission {
                session_id: id,
                allow_control: flag,
            },
        ),
        command_of(UiActionView::WithdrawPermission(id)) == Some(
            DirectCommandView::SetRemoteDesktopPermission {
                session_id: id,
                allow_control: false,
            },
        ),
        command_of(UiActionView::StopDesktop { session_id: id, reason: words }) == Some(
            DirectCommandView::StopRemoteDesktop { session_id: id, reason: words },
        ),
        command_of(UiActionView::SendInput { session_id: id, sequence, event }) == Some(
            DirectCommandView::RemoteInput { session_id: id, sequence, event },
        ),
        command_of(UiActionView::RequestKeyframe(id)) == Some(
            DirectCommandView::RequestRemoteKeyframe(id),
        ),
{
}

/// The chunks hold the whole file, and one fewer would not.
pub open spec fn chunks_hold_the_file(v: FileMetadataView) -> bool {
    &&& v.file_size <= v.total_chunks * v.chunk_size
    &&& v.total_chunks > 0 ==> (v.total_chunks - 1) * v.chunk_size < v.file_size
}

proof fn lemma_chunks_hold_the_file(v: FileMetadataView)
    requires
        v.chunk_size > 0,
    ensures
        chunks_hold_the_file(v) <==> v.total_chunks == crate::transfer::chunk_count(
            v.file_size as int,
            v.chunk_size as int,
        ),
{
    let n = v.file_size as int;
    let c = v.chunk_size as int;
    let t = v.total_chunks as int;
    let q = n / c;
    vstd::arithmetic::div_mod::lemma_fundamental_div_mod(n, c);
    let r = n % c;
    assert(chunks_hold_the_file(v) <==> t == if r == 0 {
        q
    } else {
        q + 1
    }) by (nonlinear_arith)
        requires
            n == c * q + r,
            0 <= r < c,
            n >= 0,
            t >= 0,
            chunks_hold_the_file(v) <==> n <= t * c && (t > 0 ==> (t - 1) * c < n),
    ;
}

/// A file that is offered is told of at the other end, with all that the offer says, and waits
/// there for an answer. An offer whose numbers do not fit is turned down with an error, and nothing
/// waits.
pub proof fn an_offered_file_waits_at_the_peer(
    sender: TransferStateView,
    peer: LinkStateView,
    m: TransferManifestView,
    after: LinkStateView,
    actions: Seq<LinkActionView>,
)
    requires
        paths::is_plain_name(m.metadata.file_name),
        leads_to(
            peer,
            LinkEventView::Message(P2pMessageView::FileOffer { metadata: m.metadata }),
            (after, actions),
        ),
    ensures
        ({
            let v = m.metadata;
            let (kept, told) = sender.commit_offer(m);
            let fits = 0 < v.chunk_size <= 4194304 && chunks_hold_the_file(v);
            &&& kept.senders == sender.senders.insert(v.transfer_id, m)
            &&& kept.receivers == sender.receivers
            &&& kept.pending_offers == sender.pending_offers
            &&& kept.cancelled == sender.cancelled.remove(v.transfer_id)
            &&& transfer_all(told) == seq![
                progress_told(m),
                LinkActionView::Queue(P2pMessageView::FileOffer { metadata: v }),
            ]
            &&& fits ==> {
                &&& actions == seq![LinkActionView::Emit(SessionEventView::FileOffered(v))]
                &&& after.transfers.pending_offers == peer.transfers.pending_offers.insert(
                    v.transfer_id,
                    v,
                )
                &&& after == (LinkStateView { transfers: after.transfers, ..peer })
                &&& after.transfers == (TransferStateView {
                    pending_offers: after.transfers.pending_offers,
                    ..peer.transfers
                })
            }
            &&& !fits ==> {
                &&& after == peer
                &&& actions.len() == 1
                &&& actions[0] is Emit
                &&& actions[0]->Emit_0 is Error
            }
        }),
{
    paths::lemma_plain_name_is_final(m.metadata.file_name);
    let v = m.metadata;
    assert(FileMetadataView { file_name: v.file_name, ..v } =~= v);
    assert(transfer_all(sender.commit_offer(m).1) =~= seq![
        progress_told(m),
        LinkActionView::Queue(P2pMessageView::FileOffer { metadata: v }),
    ]);
    if v.chunk_size > 0 {
        lemma_chunks_hold_the_file(v);
    }
    let name = paths::final_component(v.file_name);
    let outcome = crate::transfer::offer_outcome(v, name);
    if outcome.1 is Ok {
        assert(actions =~= seq![LinkActionView::Emit(SessionEventView::FileOffered(v))]);
    }
}

/// A file that is taken is asked for at the sender, with the chunks that are already there; an empty
/// one is not. Asking for the first time and asking to go on are answered alike: the sender starts
/// to send that file, but for those chunks.
pub proof fn a_file_that_is_asked_for_is_sent(
    receiver: TransferStateView,
    sender: LinkStateView,
    id: Seq<char>,
    m: TransferManifestView,
    chunks: Seq<ChunkRange>,
    first: (LinkStateView, Seq<LinkActionView>),
    again: (LinkStateView, Seq<LinkActionView>),
)
    requires
        leads_to(
            sender,
            LinkEventView::Message(
                P2pMessageView::FileAccept { transfer_id: id, completed_chunks: chunks },
            ),
            first,
        ),
        leads_to(
            sender,
            LinkEventView::Message(
                P2pMessageView::FileResume { transfer_id: id, completed_chunks: chunks },
            ),
            again,
        ),
    ensures
        first == (
            sender,
            seq![LinkActionView::StartSending { transfer_id: id, completed_chunks: chunks }],
        ),
        again == (
            sender,
            seq![LinkActionView::StartSending { transfer_id: id, completed_chunks: chunks }],
        ),
        ({
            let (kept, told) = receiver.commit_accept(id, m);
            &&& kept.receivers == receiver.receivers.insert(m.metadata.transfer_id, m)
            &&& kept.senders == receiver.senders
            &&& kept.pending_offers == receiver.pending_offers
            &&& kept.cancelled == receiver.cancelled.remove(id)
            &&& transfer_all(told) == if m.metadata.total_chunks == 0 {
                seq![progress_told(m)]
            } else {
                seq![
                    progress_told(m),
                    LinkActionView::Queue(
                        P2pMessageView::FileAccept {
                            transfer_id: id,
                            completed_chunks: m.completed_chunks,
                        },
                    ),
                ]
            }
        }),
{
    let told = receiver.commit_accept(id, m).1;
    if m.metadata.total_chunks == 0 {
        assert(transfer_all(told) =~= seq![progress_told(m)]);
    } else {
        assert(transfer_all(told) =~= seq![
            progress_told(m),
            LinkActionView::Queue(
                P2pMessageView::FileAccept {
                    transfer_id: id,
                    completed_chunks: m.completed_chunks,
                },
            ),
        ]);
    }
}

/// A file that is received and goes on is asked for again, with all the chunks that are there, so
/// that the sender goes on with the rest; one that is sent is offered again. What was paused is so
/// no longer.
pub proof fn a_resumed_transfer_goes_on(
    here: LinkStateView,
    there: LinkStateView,
    id: Seq<char>,
    after: LinkStateView,
    actions: Seq<LinkActionView>,
)
    requires
        here.transfers.receivers.dom().contains(id),
        leads_to(
            there,
            LinkEventView::Message(
                P2pMessageView::FileResume {
                    transfer_id: id,
                    completed_chunks: here.transfers.receivers[id].completed_chunks,
                },
            ),
            (after, actions),
        ),
    ensures
        ({
            let old = here.transfers.receivers[id];
            let m = TransferManifestView { status: TransferStatus::Accepted, ..old };
            &&& here.step(ordered(DirectCommandView::ResumeTransfer(id)), None) == (
                LinkStateView {
                    transfers: TransferStateView {
                        receivers: here.transfers.receivers.insert(id, m),
                        cancelled: here.transfers.cancelled.remove(id),
                        ..here.transfers
                    },
                    ..here
                },
                seq![
                    LinkActionView::Save(m),
                    progress_told(m),
                    LinkActionView::Queue(
                        P2pMessageView::FileResume {
                            transfer_id: id,
                            completed_chunks: old.completed_chunks,
                        },
                    ),
                ],
            )
            &&& after == there
            &&& actions == seq![
                LinkActionView::StartSending {
                    transfer_id: id,
                    completed_chunks: old.completed_chunks,
                },
            ]
        }),
{
    let old = here.transfers.receivers[id];
    let m = TransferManifestView { status: TransferStatus::Accepted, ..old };
    let r = here.step(ordered(DirectCommandView::ResumeTransfer(id)), None);
    assert(r.1 =~= seq![
        LinkActionView::Save(m),
        progress_told(m),
        LinkActionView::Queue(
            P2pMessageView::FileResume {
                transfer_id: id,
                completed_chunks: old.completed_chunks,
            },
        ),
    ]);
}

/// A file that is sent and goes on is offered to the peer again. A transfer that is not known cannot
/// go on, which is told.
pub proof fn a_resumed_sender_offers_again(here: LinkStateView, id: Seq<char>)
    requires
        !here.transfers.receivers.dom().contains(id),
    ensures
        ({
            let old = here.transfers.senders[id];
            let m = TransferManifestView { status: TransferStatus::Offered, ..old };
            let (after, actions) = here.step(ordered(DirectCommandView::ResumeTransfer(id)), None);
            &&& here.transfers.senders.dom().contains(id) ==> {
                &&& after == (LinkStateView {
                    transfers: TransferStateView {
                        senders: here.transfers.senders.insert(id, m),
                        cancelled: here.transfers.cancelled.remove(id),
                        ..here.transfers
                    },
                    ..here
                })
                &&& actions == seq![
                    LinkActionView::Save(m),
                    progress_told(m),
                    LinkActionView::Queue(P2pMessageView::FileOffer { metadata: old.metadata }),
                ]
            }
            &&& !here.transfers.senders.dom().contains(id) ==> {
                &&& after.transfers.senders == here.transfers.senders
                &&& after.transfers.receivers == here.transfers.receivers
                &&& actions == seq![
                    LinkActionView::Emit(SessionEventView::Error("找不到可继续的传输："@ + id)),
                ]
            }
        }),
{
    let old = here.transfers.senders[id];
    let m = TransferManifestView { status: TransferStatus::Offered, ..old };
    let r = here.step(ordered(DirectCommandView::ResumeTransfer(id)), None);
    if here.transfers.senders.dom().contains(id) {
        assert(r.1 =~= seq![
            LinkActionView::Save(m),
            progress_told(m),
            LinkActionView::Queue(P2pMessageView::FileOffer { metadata: old.metadata }),
        ]);
    }
}

/// The state with another record of the transfer, of the file that is sent where there is one of
/// that identifier, else of the one that is received.
pub open spec fn with_manifest(
    s: TransferStateView,
    id: Seq<char>,
    m: TransferManifestView,
) -> TransferStateView {
    if s.senders.dom().contains(id) {
        TransferStateView { senders: s.senders.insert(id, m), ..s }
    } else {
        TransferStateView { receivers: s.receivers.insert(id, m), ..s }
    }
}

/// The record of a transfer.
pub open spec fn manifest_of(s: TransferStateView, id: Seq<char>) -> TransferManifestView {
    if s.senders.dom().contains(id) {
        s.senders[id]
    } else {
        s.receivers[id]
    }
}

pub open spec fn is_known(s: TransferStateView, id: Seq<char>) -> bool {
    s.senders.dom().contains(id) || s.receivers.dom().contains(id)
}

/// A transfer that is paused is marked so and nothing else of its record changes; then the pause is
/// confirmed, by which it does not go on and the peer is told to stop. One that is not known cannot
/// be paused, which is told.
pub proof fn a_paused_transfer_stops_at_both_ends(s: LinkStateView, id: Seq<char>)
    ensures
        ({
            let t = s.transfers;
            let m = TransferManifestView { status: TransferStatus::Paused, ..manifest_of(t, id) };
            let (after, actions) = s.step(ordered(DirectCommandView::PauseTransfer(id)), None);
            let (kept, told) = t.confirm_pause(id);
            &&& is_known(t, id) ==> {
                &&& after == (LinkStateView { transfers: with_manifest(t, id, m), ..s })
                &&& actions == seq![
                    LinkActionView::Save(m),
                    progress_told(m),
                    LinkActionView::ConfirmPause(id),
                ]
            }
            &&& !is_known(t, id) ==> {
                &&& after == s
                &&& actions == seq![
                    LinkActionView::Emit(SessionEventView::Error("找不到传输："@ + id)),
                ]
            }
            &&& kept == (TransferStateView { cancelled: t.cancelled.insert(id), ..t })
            &&& transfer_all(told) == seq![
                LinkActionView::Queue(
                    P2pMessageView::FileCancel { transfer_id: id, reason: "用户暂停"@ },
                ),
            ]
        }),
{
    let t = s.transfers;
    let m = TransferManifestView { status: TransferStatus::Paused, ..manifest_of(t, id) };
    let (after, actions) = s.step(ordered(DirectCommandView::PauseTransfer(id)), None);
    if is_known(t, id) {
        assert(actions =~= seq![
            LinkActionView::Save(m),
            progress_told(m),
            LinkActionView::ConfirmPause(id),
        ]);
    }
    assert(transfer_all(t.confirm_pause(id).1) =~= seq![
        LinkActionView::Queue(
            P2pMessageView::FileCancel { transfer_id: id, reason: "用户暂停"@ },
        ),
    ]);
}

/// What becomes of a transfer that is cancelled at this end or by the peer: it does not go on, no
/// offer of it waits, and where there is a record it says so, is saved and told.
pub open spec fn is_called_off(
    s: LinkStateView,
    id: Seq<char>,
    reason: Seq<char>,
    after: LinkStateView,
    actions: Seq<LinkActionView>,
) -> bool {
    let t = TransferStateView {
        cancelled: s.transfers.cancelled.insert(id),
        pending_offers: s.transfers.pending_offers.remove(id),
        ..s.transfers
    };
    let m = TransferManifestView {
        status: TransferStatus::Cancelled,
        ..manifest_of(s.transfers, id)
    };
    if is_known(s.transfers, id) {
        &&& after == (LinkStateView { transfers: with_manifest(t, id, m), ..s })
        &&& actions == seq![
            LinkActionView::Save(m),
            progress_told(m),
            LinkActionView::Emit(
                SessionEventView::FileCancelled {
                    transfer_id: id,
                    file_name: m.metadata.file_name,
                    reason,
                },
            ),
        ]
    } else {
        &&& after == (LinkStateView { transfers: t, ..s })
        &&& actions == Seq::<LinkActionView>::empty()
    }
}

/// A transfer that one end cancels, or an offer that it declines, is called off at the other end
/// for the reason that was given; whoever cancels calls it off at its own end too.
pub proof fn a_cancelled_transfer_is_called_off_at_both_ends(
    here: LinkStateView,
    there: LinkStateView,
    id: Seq<char>,
    reason: Seq<char>,
    declined: (LinkStateView, Seq<LinkActionView>),
    cancelled: (LinkStateView, Seq<LinkActionView>),
)
    requires
        leads_to(
            there,
            LinkEventView::Message(P2pMessageView::FileReject { transfer_id: id, reason }),
            declined,
        ),
        leads_to(
            there,
            LinkEventView::Message(P2pMessageView::FileCancel { transfer_id: id, reason }),
            cancelled,
        ),
    ensures
        is_called_off(there, id, reason, declined.0, declined.1),
        is_called_off(there, id, reason, cancelled.0, cancelled.1),
        ({
            let (after, actions) = here.step(
                ordered(DirectCommandView::CancelTransfer { transfer_id: id, reason }),
                None,
            );
            &&& actions.len() > 0
            &&& actions.last() == LinkActionView::Queue(
                P2pMessageView::FileCancel { transfer_id: id, reason },
            )
            &&& is_called_off(here, id, reason, after, actions.drop_last())
        }),
        here.step(ordered(DirectCommandView::RejectFile { transfer_id: id, reason }), None) == (
            LinkStateView {
                transfers: TransferStateView {
                    pending_offers: here.transfers.pending_offers.remove(id),
                    ..here.transfers
                },
                ..here
            },
            seq![
                LinkActionView::Emit(
                    SessionEventView::FileCancelled {
                        transfer_id: id,
                        file_name: if here.transfers.pending_offers.dom().contains(id) {
                            here.transfers.pending_offers[id].file_name
                        } else {
                            id
                        },
                        reason,
                    },
                ),
                LinkActionView::Queue(P2pMessageView::FileReject { transfer_id: id, reason }),
            ],
        ),
{
    lemma_called_off(there, id, reason);
    lemma_called_off(here, id, reason);
    let c = here.step(
        ordered(DirectCommandView::CancelTransfer { transfer_id: id, reason }),
        None,
    );
    let marked = here.transfers.mark_cancelled(id, reason).1;
    assert(c.1.drop_last() =~= transfer_all(marked));
    let r = here.step(ordered(DirectCommandView::RejectFile { transfer_id: id, reason }), None);
    assert(r.1 =~= seq![r.1[0], r.1[1]]);
}

proof fn lemma_called_off(s: LinkStateView, id: Seq<char>, reason: Seq<char>)
    ensures
        ({
            let (t, actions) = s.transfers.mark_cancelled(id, reason);
            is_called_off(s, id, reason, LinkStateView { transfers: t, ..s }, transfer_all(actions))
        }),
{
    let (t, actions) = s.transfers.mark_cancelled(id, reason);
    let m = TransferManifestView {
        status: TransferStatus::Cancelled,
        ..manifest_of(s.transfers, id)
    };
    if is_known(s.transfers, id) {
        assert(transfer_all(actions) =~= seq![
            LinkActionView::Save(m),
            progress_told(m),
            LinkActionView::Emit(
                SessionEventView::FileCancelled {
                    transfer_id: id,
                    file_name: m.metadata.file_name,
                    reason,
                },
            ),
        ]);
    } else {
        assert(transfer_all(actions) =~= Seq::<LinkActionView>::empty());
    }
}

/// A chunk that has come is counted and acknowledged to the sender, which counts it too: after that
/// both ends have it among the chunks that are done, and nothing else has changed of what is done.
/// The file is being transferred at both ends.
pub proof fn an_acknowledged_chunk_counts_at_both_ends(
    receiver: TransferStateView,
    sender: LinkStateView,
    id: Seq<char>,
    index: u64,
    after: LinkStateView,
    actions: Seq<LinkActionView>,
)
    requires
        index < u64::MAX,
        receiver.receivers.dom().contains(id),
        sender.transfers.senders.dom().contains(id),
        leads_to(
            sender,
            LinkEventView::Message(
                P2pMessageView::FileAck {
                    transfer_id: id,
                    chunks: seq![ChunkRange { start: index, end: (index + 1) as u64 }],
                },
            ),
            (after, actions),
        ),
    ensures
        ({
            let (kept, r) = receiver.record_chunk(id, index);
            let old = receiver.receivers[id];
            let m = kept.receivers[id];
            let theirs = sender.transfers.senders[id];
            let n = after.transfers.senders[id];
            &&& kept == (TransferStateView { receivers: receiver.receivers.insert(id, m), ..receiver })
            &&& m == (TransferManifestView {
                status: TransferStatus::Accepted,
                completed_chunks: m.completed_chunks,
                ..old
            })
            &&& m.completed_chunks == ranges::shortest(old.done().insert(index as int))
            &&& r is Ok
            &&& transfer_all(r->Ok_0) == seq![
                LinkActionView::Save(m),
                progress_told(m),
                LinkActionView::Queue(
                    P2pMessageView::FileAck {
                        transfer_id: id,
                        chunks: seq![ChunkRange { start: index, end: (index + 1) as u64 }],
                    },
                ),
            ]
            &&& after == (LinkStateView {
                transfers: TransferStateView {
                    senders: sender.transfers.senders.insert(id, n),
                    ..sender.transfers
                },
                ..sender
            })
            &&& n == (TransferManifestView {
                status: TransferStatus::Accepted,
                completed_chunks: n.completed_chunks,
                ..theirs
            })
            &&& n.completed_chunks == ranges::shortest(theirs.done().insert(index as int))
            &&& actions == seq![LinkActionView::Save(n), progress_told(n)]
        }),
{
    let one = seq![ChunkRange { start: index, end: (index + 1) as u64 }];
    let (kept, r) = receiver.record_chunk(id, index);
    let old = receiver.receivers[id];
    let theirs = sender.transfers.senders[id];
    assert(old.done().union(set![index as int]) =~= old.done().insert(index as int));
    assert(ranges::covered(one) =~= set![index as int]) by {
        assert forall|i: int| ranges::covered(one).contains(i) == (i == index) by {
            if i == index {
                assert(one[0].indices().contains(i));
            }
        }
    }
    assert(theirs.done().union(ranges::covered(one)) =~= theirs.done().insert(index as int));
    let m = kept.receivers[id];
    assert(transfer_all(r->Ok_0) =~= seq![
        LinkActionView::Save(m),
        progress_told(m),
        LinkActionView::Queue(P2pMessageView::FileAck { transfer_id: id, chunks: one }),
    ]);
    let n = after.transfers.senders[id];
    assert(actions =~= seq![LinkActionView::Save(n), progress_told(n)]);
}

/// A file that is there whole is complete at both ends: the receiver says so to its own user
/// interface, with the place where it was put, and to the sender, which tells its user interface
/// where the file came from.
pub proof fn a_complete_file_is_complete_at_both_ends(
    receiver: TransferStateView,
    sender: LinkStateView,
    id: Seq<char>,
    path: Seq<char>,
    after: LinkStateView,
    actions: Seq<LinkActionView>,
)
    requires
        receiver.receivers.dom().contains(id),
        sender.transfers.senders.dom().contains(id),
        leads_to(
            sender,
            LinkEventView::Message(P2pMessageView::FileComplete { transfer_id: id }),
            (after, actions),
        ),
    ensures
        ({
            let m = TransferManifestView {
                status: TransferStatus::Complete,
                ..receiver.receivers[id]
            };
            let n = TransferManifestView {
                status: TransferStatus::Complete,
                ..sender.transfers.senders[id]
            };
            let (kept, r) = receiver.complete_received(id, path);
            &&& kept == (TransferStateView { receivers: receiver.receivers.insert(id, m), ..receiver })
            &&& r is Ok
            &&& transfer_all(r->Ok_0) == seq![
                LinkActionView::Save(m),
                progress_told(m),
                LinkActionView::Emit(
                    SessionEventView::FileCompleted {
                        transfer_id: id,
                        file_name: m.metadata.file_name,
                        path: Some(path),
                    },
                ),
                LinkActionView::Queue(P2pMessageView::FileComplete { transfer_id: id }),
            ]
            &&& after == (LinkStateView {
                transfers: TransferStateView {
                    senders: sender.transfers.senders.insert(id, n),
                    ..sender.transfers
                },
                ..sender
            })
            &&& actions == seq![
                LinkActionView::Save(n),
                progress_told(n),
                LinkActionView::Emit(
                    SessionEventView::FileCompleted {
                        transfer_id: id,
                        file_name: n.metadata.file_name,
                        path: n.source_path,
                    },
                ),
            ]
        }),
{
    let r = receiver.complete_received(id, path).1->Ok_0;
    let m = TransferManifestView { status: TransferStatus::Complete, ..receiver.receivers[id] };
    let n = TransferManifestView {
        status: TransferStatus::Complete,
        ..sender.transfers.senders[id]
    };
    assert(transfer_all(r) =~= seq![
        LinkActionView::Save(m),
        progress_told(m),
        transfer_all(r)[2],
        transfer_all(r)[3],
    ]);
    assert(actions =~= seq![LinkActionView::Save(n), progress_told(n), actions[2]]);
}

/// An empty file needs no chunks: once it is made, its end says to its user interface and to the
/// sender that it is there.
pub proof fn an_empty_file_is_complete_at_once(
    s: TransferStateView,
    m: TransferManifestView,
    path: Seq<char>,
)
    ensures
        ({
            let id = m.metadata.transfer_id;
            let (kept, told) = s.commit_empty(m, path);
            &&& kept == (TransferStateView { receivers: s.receivers.insert(id, m), ..s })
            &&& transfer_all(told) == seq![
                progress_told(m),
                LinkActionView::Emit(
                    SessionEventView::FileCompleted {
                        transfer_id: id,
                        file_name: m.metadata.file_name,
                        path: Some(path),
                    },
                ),
                LinkActionView::Queue(P2pMessageView::FileComplete { transfer_id: id }),
            ]
        }),
{
    let told = s.commit_empty(m, path).1;
    assert(transfer_all(told) =~= seq![
        progress_told(m),
        transfer_all(told)[1],
        transfer_all(told)[2],
    ]);
}

/// A transfer that has failed says so in its record, which is saved and told with the reason; where
/// there is no record nothing happens.
pub proof fn a_failed_transfer_is_told(s: TransferStateView, id: Seq<char>, message: Seq<char>)
    ensures
        ({
            let m = TransferManifestView {
                status: TransferStatus::Failed,
                failure: Some(message),
                ..manifest_of(s, id)
            };
            let (after, told) = s.mark_failed(id, message);
            &&& is_known(s, id) ==> {
                &&& after == with_manifest(s, id, m)
                &&& transfer_all(told) == seq![
                    LinkActionView::Save(m),
                    progress_told(m),
                    LinkActionView::Emit(
                        SessionEventView::FileFailed {
                            transfer_id: id,
                            file_name: m.metadata.file_name,
                            message,
                        },
                    ),
                ]
            }
            &&& !is_known(s, id) ==> after == s && told.len() == 0
        }),
{
    let m = TransferManifestView {
        status: TransferStatus::Failed,
        failure: Some(message),
        ..manifest_of(s, id)
    };
    let told = s.mark_failed(id, message).1;
    if is_known(s, id) {
        assert(transfer_all(told) =~= seq![
            LinkActionView::Save(m),
            progress_told(m),
            transfer_all(told)[2],
        ]);
    }
}

/// Messages about transfers that this end does not know change nothing and are told as errors.
pub proof fn what_is_not_known_is_told(
    s: LinkStateView,
    id: Seq<char>,
    chunks: Seq<ChunkRange>,
    path: Seq<char>,
    index: u64,
    acked: (LinkStateView, Seq<LinkActionView>),
    completed: (LinkStateView, Seq<LinkActionView>),
)
    requires
        leads_to(
            s,
            LinkEventView::Message(P2pMessageView::FileAck { transfer_id: id, chunks }),
            acked,
        ),
        leads_to(
            s,
            LinkEventView::Message(P2pMessageView::FileComplete { transfer_id: id }),
            completed,
        ),
    ensures
        !s.transfers.senders.dom().contains(id) ==> {
            let told = seq![
                LinkActionView::Emit(SessionEventView::Error("找不到发送中的文件："@ + id)),
            ];
            &&& acked == (s, told)
            &&& completed == (s, told)
        },
        !s.transfers.receivers.dom().contains(id) ==> {
            &&& s.transfers.record_chunk(id, index) == (
                s.transfers,
                Err::<Seq<TransferActionView>, Seq<char>>("找不到接收中的文件："@ + id),
            )
            &&& s.transfers.complete_received(id, path) == (
                s.transfers,
                Err::<Seq<TransferActionView>, Seq<char>>("找不到接收中的文件："@ + id),
            )
        },
{
}

/// Sending begins with the record of the file, marked as being transferred; it is refused where the
/// file is not known or its place is not.
pub proof fn sending_begins_with_the_record(s: TransferStateView, id: Seq<char>)
    ensures
        ({
            let (after, r) = s.begin_send(id);
            let m = TransferManifestView { status: TransferStatus::Accepted, ..s.senders[id] };
            &&& after.receivers == s.receivers
            &&& after.pending_offers == s.pending_offers
            &&& after.cancelled == s.cancelled.remove(id)
            &&& if s.senders.dom().contains(id) {
                &&& after.senders == s.senders.insert(id, m)
                &&& m.source_path is Some ==> r == Ok::<_, Seq<char>>(m)
                &&& m.source_path is None ==> r == Err::<TransferManifestView, _>(
                    "发送文件缺少源路径"@,
                )
            } else {
                &&& after.senders == s.senders
                &&& r == Err::<TransferManifestView, _>("找不到待发送文件："@ + id)
            }
        }),
{
}

/// A stream of chunks is taken exactly where it brings at least one chunk, all of them in the file,
/// of a file that was accepted and has a place to grow; then it is taken with the record of that
/// file.
pub proof fn streams_bring_chunks_of_accepted_files(
    s: TransferStateView,
    header: FileStreamHeaderView,
)
    ensures
        ({
            let id = header.transfer_id;
            let m = s.receivers[id];
            let taken = header.start_chunk < header.end_chunk && s.receivers.dom().contains(id)
                && header.end_chunk <= m.metadata.total_chunks && m.temp_path is Some;
            &&& taken ==> s.begin_receive(header) == Ok::<_, Seq<char>>(m)
            &&& !taken ==> s.begin_receive(header) is Err
        }),
{
}

/// The hash of a file is checked exactly where it is received and all its chunks are there, but it
/// is not complete yet and its places are known.
pub proof fn whole_files_are_checked_once(s: TransferStateView, id: Seq<char>)
    ensures
        ({
            let m = s.receivers[id];
            let whole = s.receivers.dom().contains(id) && m.status != TransferStatus::Complete
                && m.done().len() >= m.metadata.total_chunks;
            &&& whole && m.temp_path is Some && m.output_path is Some ==> s.ready_to_finalize(id)
                == Ok::<_, Seq<char>>(Some(m))
            &&& !whole ==> s.ready_to_finalize(id) == Ok::<_, Seq<char>>(
                None::<TransferManifestView>,
            )
            &&& whole && !(m.temp_path is Some && m.output_path is Some) ==> s.ready_to_finalize(
                id,
            ) is Err
        }),
{
}

/// A file that is accepted is saved where it was asked for, by way of a growing file. Of one that
/// was received before, by its hash, all chunks are kept; else it starts with none.
pub proof fn an_accepted_file_keeps_what_was_received(
    metadata: FileMetadataView,
    existing: Option<TransferManifestView>,
    output: Seq<char>,
    temp: Seq<char>,
)
    ensures
        ({
            let m = accepted_manifest(metadata, existing, output, temp);
            &&& m.direction == TransferDirection::Receive
            &&& m.status == TransferStatus::Accepted
            &&& m.output_path == Some(output)
            &&& m.temp_path == Some(temp)
            &&& m.metadata.file_hash == metadata.file_hash
            &&& match existing {
                Some(before) => if before.direction == TransferDirection::Receive
                    && before.metadata.file_hash == metadata.file_hash {
                    &&& m.completed_chunks == before.completed_chunks
                    &&& m.metadata == before.metadata
                    &&& m.failure == before.failure
                    &&& m.source_path == before.source_path
                    &&& m.version == before.version
                } else {
                    &&& m.completed_chunks.len() == 0
                    &&& m.metadata == metadata
                    &&& m.failure is None
                    &&& m.source_path is None
                    &&& m.version == 1
                },
                None => {
                    &&& m.completed_chunks.len() == 0
                    &&& m.metadata == metadata
                    &&& m.failure is None
                    &&& m.source_path is None
                    &&& m.version == 1
                },
            }
        }),
{
}

/// The record of a file on offer says where it is, and nothing of it is done.
pub proof fn an_offered_file_has_its_source(metadata: FileMetadataView, source: Seq<char>)
    ensures
        ({
            let m = TransferManifestView::sender(metadata, source);
            &&& m.version == 1
            &&& m.direction == TransferDirection::Send
            &&& m.status == TransferStatus::Offered
            &&& m.metadata == metadata
            &&& m.source_path == Some(source)
            &&& m.output_path is None
            &&& m.temp_path is None
            &&& m.completed_chunks.len() == 0
            &&& m.failure is None
        }),
{
}

/// One end offers its desktop, the other sees the offer and accepts it: the first then shows its
/// desktop under that session and the second watches it, both agree on who may control, each user
/// interface is told, and the first one is told to start.
pub proof fn an_accepted_desktop_is_shown(
    a: LinkStateView,
    b: LinkStateView,
    offer: RemoteDesktopOfferView,
    heard: (LinkStateView, Seq<LinkActionView>),
    answered: (LinkStateView, Seq<LinkActionView>),
    reason: Option<Seq<char>>,
)
    requires
        a.peer_remote_desktop,
        a.desktop.state is Idle,
        b.desktop.state is Idle,
        is_good_offer(offer),
        leads_to(b, desktop_heard(RemoteDesktopControlView::Offer { offer }), heard),
        leads_to(
            a.step(ordered(DirectCommandView::OfferRemoteDesktop(offer)), None).0,
            desktop_heard(
                RemoteDesktopControlView::Answer {
                    session_id: offer.session_id,
                    accepted: true,
                    reason,
                },
            ),
            answered,
        ),
    ensures
        ({
            let id = offer.session_id;
            let offered = a.step(ordered(DirectCommandView::OfferRemoteDesktop(offer)), None);
            let accepted = heard.0.step(
                ordered(
                    DirectCommandView::AnswerRemoteDesktop {
                        session_id: id,
                        accepted: true,
                        reason,
                    },
                ),
                None,
            );
            let shows = RemoteDesktopStateView::Sharing {
                session_id: id,
                allow_control: offer.allow_control,
            };
            let watches = RemoteDesktopStateView::Viewing {
                session_id: id,
                can_control: offer.allow_control,
            };
            &&& offered.0.desktop.state == RemoteDesktopStateView::OutgoingPending(offer)
            &&& offered.1 == seq![
                desktop_sent(RemoteDesktopControlView::Offer { offer }),
                state_told(RemoteDesktopStateView::OutgoingPending(offer)),
            ]
            &&& heard.0.desktop.state == RemoteDesktopStateView::IncomingPending(offer)
            &&& heard.1 == seq![
                desktop_told(RemoteDesktopEventView::IncomingOffer(offer)),
                state_told(RemoteDesktopStateView::IncomingPending(offer)),
            ]
            &&& accepted.0.desktop.state == watches
            &&& accepted.1 == seq![
                desktop_sent(
                    RemoteDesktopControlView::Answer { session_id: id, accepted: true, reason },
                ),
                state_told(watches),
            ]
            &&& answered.0.desktop.state == shows
            &&& answered.1 == seq![
                state_told(shows),
                desktop_told(RemoteDesktopEventView::SharingStarted(offer)),
            ]
            &&& answered.0.desktop.last_frame_id == 0
            &&& accepted.0.desktop.last_frame_id == 0
        }),
{
    let id = offer.session_id;
    lemma_good_offer(offer);
    let offered = a.step(ordered(DirectCommandView::OfferRemoteDesktop(offer)), None);
    let accepted = heard.0.step(
        ordered(
            DirectCommandView::AnswerRemoteDesktop { session_id: id, accepted: true, reason },
        ),
        None,
    );
    assert(offered.1 =~= seq![offered.1[0], offered.1[1]]);
    assert(heard.1 =~= seq![heard.1[0], heard.1[1]]);
    assert(accepted.1 =~= seq![accepted.1[0], accepted.1[1]]);
    assert(answered.1 =~= seq![answered.1[0], answered.1[1]]);
}

/// An offer under a session of its own, of a display with an extent, in a size and at a rate that
/// can be sent.
pub open spec fn is_good_offer(offer: RemoteDesktopOfferView) -> bool {
    &&& offer.session_id.len() > 0
    &&& offer.display.width > 0
    &&& offer.display.height > 0
    &&& 0 < offer.config.width <= 1280
    &&& 0 < offer.config.height <= 720
    &&& 0 < offer.config.max_fps <= 15
}

proof fn lemma_good_offer(offer: RemoteDesktopOfferView)
    ensures
        is_good_offer(offer) <==> crate::desktop_session::offer_refusal(offer) is None,
{
}

/// An offer that is declined leaves both ends without a desktop; each user interface is told, and
/// the one that offered learns the reason, or that there was none.
pub proof fn a_declined_desktop_is_not_shown(
    a: LinkStateView,
    b: LinkStateView,
    offer: RemoteDesktopOfferView,
    answered: (LinkStateView, Seq<LinkActionView>),
    reason: Option<Seq<char>>,
)
    requires
        a.desktop.state == RemoteDesktopStateView::OutgoingPending(offer),
        b.desktop.state == RemoteDesktopStateView::IncomingPending(offer),
        leads_to(
            a,
            desktop_heard(
                RemoteDesktopControlView::Answer {
                    session_id: offer.session_id,
                    accepted: false,
                    reason,
                },
            ),
            answered,
        ),
    ensures
        ({
            let id = offer.session_id;
            let declined = b.step(
                ordered(
                    DirectCommandView::AnswerRemoteDesktop {
                        session_id: id,
                        accepted: false,
                        reason,
                    },
                ),
                None,
            );
            &&& declined.0.desktop.state is Idle
            &&& declined.1 == seq![
                desktop_sent(
                    RemoteDesktopControlView::Answer { session_id: id, accepted: false, reason },
                ),
                state_told(RemoteDesktopStateView::Idle),
            ]
            &&& answered.0.desktop.state is Idle
            &&& answered.1 == seq![
                state_told(RemoteDesktopStateView::Idle),
                desktop_told(
                    RemoteDesktopEventView::Error {
                        session_id: Some(id),
                        message: match reason {
                            Some(words) => words,
                            None => "对方拒绝观看共享屏幕"@,
                        },
                    },
                ),
            ]
        }),
{
    let id = offer.session_id;
    let declined = b.step(
        ordered(
            DirectCommandView::AnswerRemoteDesktop { session_id: id, accepted: false, reason },
        ),
        None,
    );
    assert(declined.1 =~= seq![declined.1[0], declined.1[1]]);
    assert(answered.1 =~= seq![answered.1[0], answered.1[1]]);
}

/// Both ends agree on control after it is given or taken back: then the one that watches may send
/// input exactly if it was given. Taking it back lets go of what is held down.
pub proof fn both_ends_agree_on_control(
    a: LinkStateView,
    b: LinkStateView,
    id: Seq<char>,
    before: bool,
    held: bool,
    allow: bool,
    heard: (LinkStateView, Seq<LinkActionView>),
    sequence: u64,
    event: RemoteInputEventView,
)
    requires
        a.desktop.state == (RemoteDesktopStateView::Sharing {
            session_id: id,
            allow_control: before,
        }),
        b.desktop.state == (RemoteDesktopStateView::Viewing { session_id: id, can_control: held }),
        leads_to(
            b,
            desktop_heard(
                RemoteDesktopControlView::Permission { session_id: id, allow_control: allow },
            ),
            heard,
        ),
        event.checked() is Ok,
    ensures
        ({
            let set = a.step(
                ordered(
                    DirectCommandView::SetRemoteDesktopPermission {
                        session_id: id,
                        allow_control: allow,
                    },
                ),
                None,
            );
            let sent = heard.0.step(
                ordered(DirectCommandView::RemoteInput { session_id: id, sequence, event }),
                None,
            );
            let shows = RemoteDesktopStateView::Sharing { session_id: id, allow_control: allow };
            let watches = RemoteDesktopStateView::Viewing { session_id: id, can_control: allow };
            let asked = desktop_sent(
                RemoteDesktopControlView::Permission { session_id: id, allow_control: allow },
            );
            &&& set.0.desktop.state == shows
            &&& set.1 == if allow {
                seq![asked, state_told(shows)]
            } else {
                seq![
                    asked,
                    desktop_told(RemoteDesktopEventView::Input(RemoteInputEventView::ReleaseAll)),
                    state_told(shows),
                ]
            }
            &&& heard.0.desktop.state == watches
            &&& heard.1 == seq![state_told(watches)]
            &&& sent.1.contains(
                desktop_sent(RemoteDesktopControlView::Input { session_id: id, sequence, event }),
            ) <==> allow
        }),
{
    let set = a.step(
        ordered(
            DirectCommandView::SetRemoteDesktopPermission { session_id: id, allow_control: allow },
        ),
        None,
    );
    let sent = heard.0.step(
        ordered(DirectCommandView::RemoteInput { session_id: id, sequence, event }),
        None,
    );
    if allow {
        assert(set.1 =~= seq![set.1[0], set.1[1]]);
        assert(sent.1[0] == desktop_sent(
            RemoteDesktopControlView::Input { session_id: id, sequence, event },
        ));
    } else {
        assert(set.1 =~= seq![set.1[0], set.1[1], set.1[2]]);
    }
    assert(heard.1 =~= seq![heard.1[0]]);
}

/// Input that is sent is carried out at the other end, as it was made, if that one shows its desktop
/// in the session and allows control, and has not carried out later input. Of moves of the pointer
/// some may be dropped.
pub proof fn input_is_carried_out_at_the_other_end(
    viewer: LinkStateView,
    host: LinkStateView,
    id: Seq<char>,
    can_control: bool,
    sequence: u64,
    event: RemoteInputEventView,
    heard: (LinkStateView, Seq<LinkActionView>),
)
    requires
        viewer.desktop.state == (RemoteDesktopStateView::Viewing { session_id: id, can_control }),
        event.checked() is Ok,
        leads_to(
            host,
            desktop_heard(RemoteDesktopControlView::Input { session_id: id, sequence, event }),
            heard,
        ),
    ensures
        ({
            let told = SessionEventView::RemoteDesktop(RemoteDesktopEventView::Input(event));
            let open = host.desktop.state == (RemoteDesktopStateView::Sharing {
                session_id: id,
                allow_control: true,
            }) && sequence > host.desktop.last_input_sequence;
            let sent = viewer.step(
                ordered(DirectCommandView::RemoteInput { session_id: id, sequence, event }),
                None,
            );
            &&& sent.0 == viewer
            &&& can_control ==> sent.1 == seq![
                desktop_sent(RemoteDesktopControlView::Input { session_id: id, sequence, event }),
            ]
            &&& open ==> {
                &&& heard.0.desktop.last_input_sequence == sequence
                &&& heard.0.desktop.state == host.desktop.state
                &&& heard.1 == seq![
                    if event is PointerMove {
                        LinkActionView::TryEmit(told)
                    } else {
                        LinkActionView::Emit(told)
                    },
                ]
            }
            &&& !open ==> heard == (host, Seq::<LinkActionView>::empty())
        }),
{
    let sent = viewer.step(
        ordered(DirectCommandView::RemoteInput { session_id: id, sequence, event }),
        None,
    );
    if can_control {
        assert(sent.1 =~= seq![sent.1[0]]);
    }
    if heard.1.len() > 0 {
        assert(heard.1 =~= seq![heard.1[0]]);
    } else {
        assert(heard.1 =~= Seq::<LinkActionView>::empty());
    }
    assert(heard.0 =~= LinkStateView { desktop: heard.0.desktop, ..host });
}

/// Either end may end the session: then no desktop is shared at either end, in whatever way it was
/// before, both user interfaces are told, and an end that showed its desktop lets go of what is held
/// down.
pub proof fn a_stopped_desktop_is_gone_at_both_ends(
    a: LinkStateView,
    b: LinkStateView,
    id: Seq<char>,
    reason: Seq<char>,
    heard: (LinkStateView, Seq<LinkActionView>),
)
    requires
        concerns(a.desktop.state, id),
        concerns(b.desktop.state, id),
        leads_to(
            b,
            desktop_heard(RemoteDesktopControlView::Stop { session_id: id, reason }),
            heard,
        ),
    ensures
        ({
            let stopped = a.step(
                ordered(DirectCommandView::StopRemoteDesktop { session_id: id, reason }),
                None,
            );
            &&& stopped.0.desktop.state is Idle
            &&& stopped.0.desktop.last_input_sequence == 0
            &&& stopped.0.desktop.last_frame_id == 0
            &&& stopped.1 == seq![
                desktop_sent(RemoteDesktopControlView::Stop { session_id: id, reason }),
            ] + end_told(a.desktop.state)
            &&& heard.0.desktop.state is Idle
            &&& heard.0.desktop.last_input_sequence == 0
            &&& heard.0.desktop.last_frame_id == 0
            &&& heard.1 == end_told(b.desktop.state)
        }),
{
    let stopped = a.step(
        ordered(DirectCommandView::StopRemoteDesktop { session_id: id, reason }),
        None,
    );
    assert(stopped.1 =~= seq![
        desktop_sent(RemoteDesktopControlView::Stop { session_id: id, reason }),
    ] + end_told(a.desktop.state));
    assert(heard.1 =~= end_told(b.desktop.state));
}

/// Is the state about this session?
pub open spec fn concerns(state: RemoteDesktopStateView, id: Seq<char>) -> bool {
    match state {
        RemoteDesktopStateView::Idle => false,
        RemoteDesktopStateView::OutgoingPending(offer) => offer.session_id == id,
        RemoteDesktopStateView::IncomingPending(offer) => offer.session_id == id,
        RemoteDesktopStateView::Sharing { session_id, .. } => session_id == id,
        RemoteDesktopStateView::Viewing { session_id, .. } => session_id == id,
    }
}

/// The user interface is told that there is no shared desktop any more.
pub open spec fn end_told(state: RemoteDesktopStateView) -> Seq<LinkActionView> {
    if state is Sharing {
        seq![
            desktop_told(RemoteDesktopEventView::Input(RemoteInputEventView::ReleaseAll)),
            state_told(RemoteDesktopStateView::Idle),
        ]
    } else {
        seq![state_told(RemoteDesktopStateView::Idle)]
    }
}

/// What is said of a session that an end is not in changes nothing there: an answer to another
/// offer, permission, an end or input in another session, a request for a picture of it. What this
/// end is asked to do about it is refused and told.
pub proof fn other_sessions_are_left_alone(
    s: LinkStateView,
    id: Seq<char>,
    flag: bool,
    reason: Option<Seq<char>>,
    words: Seq<char>,
    message: RemoteDesktopControlView,
    heard: (LinkStateView, Seq<LinkActionView>),
    command: DirectCommandView,
)
    requires
        !concerns(s.desktop.state, id),
        match message {
            RemoteDesktopControlView::Offer { .. } => false,
            RemoteDesktopControlView::Answer { session_id, .. } => session_id == id,
            RemoteDesktopControlView::Permission { session_id, .. } => session_id == id,
            RemoteDesktopControlView::Stop { session_id, .. } => session_id == id,
            RemoteDesktopControlView::Input { session_id, event, .. } => session_id == id
                && event.checked() is Ok,
            RemoteDesktopControlView::KeyframeRequest { session_id } => session_id == id,
        },
        leads_to(s, desktop_heard(message), heard),
        match command {
            DirectCommandView::AnswerRemoteDesktop { session_id, .. } => session_id == id,
            DirectCommandView::SetRemoteDesktopPermission { session_id, .. } => session_id == id,
            DirectCommandView::StopRemoteDesktop { session_id, .. } => session_id == id,
            DirectCommandView::RemoteInput { session_id, .. } => session_id == id,
            _ => false,
        },
    ensures
        heard == (s, Seq::<LinkActionView>::empty()),
        s.step(ordered(command), None).0 == s,
        s.step(ordered(command), None).1.len() == 1,
        s.step(ordered(command), None).1[0] is Emit,
        s.step(ordered(command), None).1[0]->Emit_0 is RemoteDesktop,
        s.step(ordered(command), None).1[0]->Emit_0->RemoteDesktop_0 is Error,
{
    assert(heard.1 =~= Seq::<LinkActionView>::empty());
    assert(heard.0 =~= s);
}

/// A whole picture is asked for where one is watched, and asked of the user interface that shows it.
pub proof fn a_whole_picture_is_asked_for(
    viewer: LinkStateView,
    host: LinkStateView,
    id: Seq<char>,
    allow: bool,
    heard: (LinkStateView, Seq<LinkActionView>),
)
    requires
        host.desktop.state == (RemoteDesktopStateView::Sharing {
            session_id: id,
            allow_control: allow,
        }),
        leads_to(
            host,
            desktop_heard(RemoteDesktopControlView::KeyframeRequest { session_id: id }),
            heard,
        ),
    ensures
        viewer.step(ordered(DirectCommandView::RequestRemoteKeyframe(id)), None) == (
            viewer,
            seq![desktop_sent(RemoteDesktopControlView::KeyframeRequest { session_id: id })],
        ),
        heard == (host, seq![desktop_told(RemoteDesktopEventView::KeyframeRequested(id))]),
{
    assert(heard.1 =~= seq![heard.1[0]]);
    assert(heard.0 =~= host);
}

/// An end that has a shared desktop, or one on offer, takes no other: it declines the peer's offer
/// and is refused one of its own. An offer that is not in order, or to a peer that cannot watch, is
/// refused too. None of this changes anything.
pub proof fn one_desktop_at_a_time(
    s: LinkStateView,
    offer: RemoteDesktopOfferView,
    heard: (LinkStateView, Seq<LinkActionView>),
)
    requires
        leads_to(s, desktop_heard(RemoteDesktopControlView::Offer { offer }), heard),
    ensures
        ({
            let own = s.step(ordered(DirectCommandView::OfferRemoteDesktop(offer)), None);
            &&& is_good_offer(offer) && (s.desktop.state is Sharing || s.desktop.state is Viewing
                || s.desktop.state is IncomingPending) ==> heard == (
                s,
                seq![
                    desktop_sent(
                        RemoteDesktopControlView::Answer {
                            session_id: offer.session_id,
                            accepted: false,
                            reason: Some("已有远程桌面会话"@),
                        },
                    ),
                ],
            )
            &&& !is_good_offer(offer) ==> {
                &&& heard.0 == s
                &&& heard.1.len() == 1
                &&& heard.1[0] is Emit
                &&& heard.1[0]->Emit_0 is RemoteDesktop
                &&& heard.1[0]->Emit_0->RemoteDesktop_0 is Error
            }
            &&& !(s.peer_remote_desktop && is_good_offer(offer) && s.desktop.state is Idle) ==> {
                &&& own.0 == s
                &&& own.1.len() == 1
                &&& own.1[0] is Emit
                &&& own.1[0]->Emit_0 is RemoteDesktop
                &&& own.1[0]->Emit_0->RemoteDesktop_0 is Error
            }
        }),
{
    lemma_good_offer(offer);
    assert(heard.0 =~= LinkStateView { desktop: heard.0.desktop, ..s });
    if is_good_offer(offer) && heard.1.len() == 1 {
        assert(heard.1 =~= seq![heard.1[0]]);
    }
}

/// A frame goes out if this end shows its desktop in the frame's session, and only then. One that
/// fails is told, and a whole picture is asked for, so that the next one makes up for it.
pub proof fn frames_go_out_of_the_session(
    s: LinkStateView,
    frame: RemoteDesktopFrameView,
    error: Seq<char>,
    id: Seq<char>,
)
    ensures
        ({
            let (after, actions) = s.step(LinkEventView::Frame(Some(frame)), None);
            let shown = match s.desktop.state {
                RemoteDesktopStateView::Sharing { session_id, .. } => session_id
                    == frame.header.session_id,
                _ => false,
            };
            &&& shown ==> actions == seq![LinkActionView::StreamFrame(frame)] && after == (
            LinkStateView { frame_in_flight: true, ..s })
            &&& !shown ==> actions.len() == 0 && after == s
        }),
        s.step(LinkEventView::Frame(None), None) == (s, Seq::<LinkActionView>::empty()),
        s.step(LinkEventView::FrameDone(true), None) == (
            LinkStateView { frame_in_flight: false, ..s },
            Seq::<LinkActionView>::empty(),
        ),
        s.step(LinkEventView::FrameDone(false), None) == (s, Seq::<LinkActionView>::empty()),
        s.step(LinkEventView::FrameFailed { session_id: id, error }, None) == (
            s,
            seq![
                desktop_told(
                    RemoteDesktopEventView::Error {
                        session_id: Some(id),
                        message: "发送远程桌面帧失败："@ + error,
                    },
                ),
                desktop_told(RemoteDesktopEventView::KeyframeRequested(id)),
            ],
        ),
{
}

/// What is queued is written as it is; a sign of life is written when it is due, and what comes back
/// changes nothing. However the link breaks off, the user interface is told why and the link ends;
/// where the session itself is gone, the connection is closed first.
pub proof fn the_link_writes_and_ends(
    s: LinkStateView,
    message: P2pMessageView,
    reason: Seq<char>,
    token: Seq<char>,
    pong: (LinkStateView, Seq<LinkActionView>),
    greeted: (LinkStateView, Seq<LinkActionView>),
)
    requires
        leads_to(s, LinkEventView::Message(P2pMessageView::Pong), pong),
        leads_to(s, LinkEventView::Message(P2pMessageView::Hello { token }), greeted),
    ensures
        s.step(LinkEventView::Outbound(Some(message)), None) == (
            s,
            seq![LinkActionView::Write(message)],
        ),
        s.step(LinkEventView::PingDue, None) == (
            s,
            seq![LinkActionView::Write(P2pMessageView::Ping)],
        ),
        pong == (s, Seq::<LinkActionView>::empty()),
        ({
            let broken = (
                s,
                seq![
                    LinkActionView::Emit(SessionEventView::DirectLinkLost(reason)),
                    LinkActionView::Stop,
                ],
            );
            &&& s.step(LinkEventView::WriteFailed(reason), None) == broken
            &&& s.step(LinkEventView::ReadFailed(reason), None) == broken
            &&& s.step(LinkEventView::Closed(reason), None) == broken
        }),
        greeted == (
            s,
            seq![
                LinkActionView::Emit(
                    SessionEventView::DirectLinkLost("直连控制流收到重复 Hello"@),
                ),
                LinkActionView::Stop,
            ],
        ),
        s.step(LinkEventView::Outbound(None), None) == (s, seq![LinkActionView::Stop]),
        s.step(LinkEventView::Command(None), None) == (
            s,
            seq![LinkActionView::CloseSession, LinkActionView::Stop],
        ),
{
}

}
