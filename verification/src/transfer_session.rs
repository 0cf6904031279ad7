//! The transfers of a link, in both directions.
use crate::p2p_proto::{FileStreamHeader, FileStreamHeaderView, P2pMessage, P2pMessageView};
use crate::paths::FilePath;
use crate::ranges::{ChunkRange, RangeSet};
use crate::session::{
    FileTransferProgress, FileTransferProgressView, SessionEvent, SessionEventView,
};
use crate::text_map::{TextMap, TextSet};
use crate::transfer::{
    FileMetadata, FileMetadataView, TransferDirection, TransferManifest, TransferManifestView,
    TransferStatus, TransferStore,
};
use crate::{ranges, session, text, transfer};
use vstd::prelude::*;
use vstd::set_lib::*;

verus! {

/// What follows on a step: a record to save, an event for the user interface, a message to the
/// peer. Where one fails, those behind it are left out.
#[derive(Debug)]
pub enum TransferAction {
    Save(TransferManifest),
    Emit(SessionEvent),
    Send(P2pMessage),
}

#[verifier::ext_equal]
pub enum TransferActionView {
    Save(TransferManifestView),
    Emit(SessionEventView),
    Send(P2pMessageView),
}

impl View for TransferAction {
    type V = TransferActionView;

    open spec fn view(&self) -> TransferActionView {
        match self {
            TransferAction::Save(a) => TransferActionView::Save(a@),
            TransferAction::Emit(a) => TransferActionView::Emit(a@),
            TransferAction::Send(a) => TransferActionView::Send(a@),
        }
    }
}

pub open spec fn action_views(actions: Seq<TransferAction>) -> Seq<TransferActionView> {
    actions.map_values(|a: TransferAction| a@)
}

/// What a step returns: its actions, or what is wrong.
pub open spec fn step_result(r: Result<Vec<TransferAction>, String>) -> Result<
    Seq<TransferActionView>,
    Seq<char>,
> {
    match r {
        Ok(actions) => Ok(action_views(actions@)),
        Err(e) => Err(e@),
    }
}

pub open spec fn saved(m: TransferManifestView) -> TransferActionView {
    TransferActionView::Save(m)
}

pub open spec fn progressed(m: TransferManifestView) -> TransferActionView {
    TransferActionView::Emit(SessionEventView::FileProgress(session::progress_of(m)))
}

/// The transfers of a link: offers of the peer that are not answered, files that are sent and
/// received, and what was paused or cancelled.
pub struct TransferState {
    pub store: TransferStore,
    pub pending_offers: TextMap<FileMetadata>,
    pub senders: TextMap<TransferManifest>,
    pub receivers: TextMap<TransferManifest>,
    pub cancelled: TextSet,
}

#[verifier::ext_equal]
pub struct TransferStateView {
    pub store: Seq<char>,
    pub pending_offers: Map<Seq<char>, FileMetadataView>,
    pub senders: Map<Seq<char>, TransferManifestView>,
    pub receivers: Map<Seq<char>, TransferManifestView>,
    pub cancelled: Set<Seq<char>>,
}

impl View for TransferState {
    type V = TransferStateView;

    open spec fn view(&self) -> TransferStateView {
        TransferStateView {
            store: self.store@,
            pending_offers: self.pending_offers@,
            senders: self.senders@,
            receivers: self.receivers@,
            cancelled: self.cancelled@,
        }
    }
}

type Step = (TransferStateView, Result<Seq<TransferActionView>, Seq<char>>);

/// The record with another status.
pub open spec fn with_status(m: TransferManifestView, status: TransferStatus) -> TransferManifestView {
    TransferManifestView { status, ..m }
}

/// The record of a failed transfer.
pub open spec fn with_failure(m: TransferManifestView, message: Seq<char>) -> TransferManifestView {
    TransferManifestView { status: TransferStatus::Failed, failure: Some(message), ..m }
}

/// The record after more chunks are done: the shortest list of ranges that holds the old and the
/// new ones.
pub open spec fn also_done(m: TransferManifestView, more: Set<int>) -> TransferManifestView {
    TransferManifestView {
        status: TransferStatus::Accepted,
        completed_chunks: ranges::shortest(m.done().union(more)),
        ..m
    }
}

impl TransferStateView {
    /// A link without transfers.
    pub open spec fn empty(store: Seq<char>) -> Self {
        TransferStateView {
            store,
            pending_offers: Map::empty(),
            senders: Map::empty(),
            receivers: Map::empty(),
            cancelled: Set::empty(),
        }
    }

    /// The record of a transfer in one direction or the other, files that are sent first.
    pub open spec fn record(self, id: Seq<char>) -> Option<TransferManifestView> {
        if self.senders.dom().contains(id) {
            Some(self.senders[id])
        } else if self.receivers.dom().contains(id) {
            Some(self.receivers[id])
        } else {
            None
        }
    }

    /// The same with another record in that place.
    pub open spec fn with_record(self, id: Seq<char>, m: TransferManifestView) -> Self {
        if self.senders.dom().contains(id) {
            TransferStateView { senders: self.senders.insert(id, m), ..self }
        } else {
            TransferStateView { receivers: self.receivers.insert(id, m), ..self }
        }
    }

    /// A file of this end is on offer, its record saved.
    pub open spec fn commit_offer(self, m: TransferManifestView) -> (
        Self,
        Seq<TransferActionView>,
    ) {
        let id = m.metadata.transfer_id;
        (
            TransferStateView {
                senders: self.senders.insert(id, m),
                cancelled: self.cancelled.remove(id),
                ..self
            },
            seq![
                progressed(m),
                TransferActionView::Send(P2pMessageView::FileOffer { metadata: m.metadata }),
            ],
        )
    }

    /// The peer offers a file whose metadata came out as this.
    pub open spec fn hear_offer(
        self,
        outcome: (FileMetadataView, Result<(), Seq<char>>),
    ) -> Step {
        match outcome.1 {
            Err(e) => (self, Err(e)),
            Ok(_) => (
                TransferStateView {
                    pending_offers: self.pending_offers.insert(outcome.0.transfer_id, outcome.0),
                    ..self
                },
                Ok(
                    seq![
                        TransferActionView::Emit(SessionEventView::FileOffered(outcome.0)),
                    ],
                ),
            ),
        }
    }

    /// An accepted file, its record saved. An empty file has nothing to be sent for.
    pub open spec fn commit_accept(self, id: Seq<char>, m: TransferManifestView) -> (
        Self,
        Seq<TransferActionView>,
    ) {
        (
            TransferStateView {
                receivers: self.receivers.insert(m.metadata.transfer_id, m),
                cancelled: self.cancelled.remove(id),
                ..self
            },
            if m.metadata.total_chunks == 0 {
                seq![progressed(m)]
            } else {
                seq![
                    progressed(m),
                    TransferActionView::Send(
                        P2pMessageView::FileAccept {
                            transfer_id: id,
                            completed_chunks: m.completed_chunks,
                        },
                    ),
                ]
            },
        )
    }

    /// An empty file has been made at `path`, its record saved.
    pub open spec fn commit_empty(self, m: TransferManifestView, path: Seq<char>) -> (
        Self,
        Seq<TransferActionView>,
    ) {
        let id = m.metadata.transfer_id;
        (
            TransferStateView { receivers: self.receivers.insert(id, m), ..self },
            seq![
                progressed(m),
                TransferActionView::Emit(
                    SessionEventView::FileCompleted {
                        transfer_id: id,
                        file_name: m.metadata.file_name,
                        path: Some(path),
                    },
                ),
                TransferActionView::Send(P2pMessageView::FileComplete { transfer_id: id }),
            ],
        )
    }

    /// This end declines an offer.
    pub open spec fn reject(self, id: Seq<char>, reason: Seq<char>) -> (
        Self,
        Seq<TransferActionView>,
    ) {
        let file_name = if self.pending_offers.dom().contains(id) {
            self.pending_offers[id].file_name
        } else {
            id
        };
        (
            TransferStateView { pending_offers: self.pending_offers.remove(id), ..self },
            seq![
                TransferActionView::Emit(
                    SessionEventView::FileCancelled { transfer_id: id, file_name, reason },
                ),
                TransferActionView::Send(P2pMessageView::FileReject { transfer_id: id, reason }),
            ],
        )
    }

    /// A transfer gets another status.
    pub open spec fn update_status(self, id: Seq<char>, status: TransferStatus) -> Step {
        match self.record(id) {
            None => (self, Err("找不到传输："@ + id)),
            Some(old) => {
                let m = with_status(old, status);
                (self.with_record(id, m), Ok(seq![saved(m), progressed(m)]))
            },
        }
    }

    /// A paused transfer counts as cancelled until it is resumed.
    pub open spec fn confirm_pause(self, id: Seq<char>) -> (Self, Seq<TransferActionView>) {
        (
            TransferStateView { cancelled: self.cancelled.insert(id), ..self },
            seq![
                TransferActionView::Send(
                    P2pMessageView::FileCancel { transfer_id: id, reason: "用户暂停"@ },
                ),
            ],
        )
    }

    /// A transfer goes on: a file that is received is asked for, one that is sent is offered.
    pub open spec fn resume(self, id: Seq<char>) -> Step {
        let s = TransferStateView { cancelled: self.cancelled.remove(id), ..self };
        if s.receivers.dom().contains(id) {
            let m = with_status(s.receivers[id], TransferStatus::Accepted);
            (
                TransferStateView { receivers: s.receivers.insert(id, m), ..s },
                Ok(
                    seq![
                        saved(m),
                        progressed(m),
                        TransferActionView::Send(
                            P2pMessageView::FileResume {
                                transfer_id: id,
                                completed_chunks: m.completed_chunks,
                            },
                        ),
                    ],
                ),
            )
        } else if s.senders.dom().contains(id) {
            let m = with_status(s.senders[id], TransferStatus::Offered);
            (
                TransferStateView { senders: s.senders.insert(id, m), ..s },
                Ok(
                    seq![
                        saved(m),
                        progressed(m),
                        TransferActionView::Send(P2pMessageView::FileOffer { metadata: m.metadata }),
                    ],
                ),
            )
        } else {
            (s, Err("找不到可继续的传输："@ + id))
        }
    }

    /// A transfer is cancelled, by this end or by the peer.
    pub open spec fn mark_cancelled(self, id: Seq<char>, reason: Seq<char>) -> (
        Self,
        Seq<TransferActionView>,
    ) {
        let s = TransferStateView {
            cancelled: self.cancelled.insert(id),
            pending_offers: self.pending_offers.remove(id),
            ..self
        };
        match s.record(id) {
            None => (s, Seq::empty()),
            Some(old) => {
                let m = with_status(old, TransferStatus::Cancelled);
                (
                    s.with_record(id, m),
                    seq![
                        saved(m),
                        progressed(m),
                        TransferActionView::Emit(
                            SessionEventView::FileCancelled {
                                transfer_id: id,
                                file_name: m.metadata.file_name,
                                reason,
                            },
                        ),
                    ],
                )
            },
        }
    }

    /// This end cancels a transfer and tells the peer.
    pub open spec fn cancel(self, id: Seq<char>, reason: Seq<char>) -> (
        Self,
        Seq<TransferActionView>,
    ) {
        let (s, actions) = self.mark_cancelled(id, reason);
        (
            s,
            actions.push(
                TransferActionView::Send(P2pMessageView::FileCancel { transfer_id: id, reason }),
            ),
        )
    }

    /// A transfer has failed.
    pub open spec fn mark_failed(self, id: Seq<char>, message: Seq<char>) -> (
        Self,
        Seq<TransferActionView>,
    ) {
        match self.record(id) {
            None => (self, Seq::empty()),
            Some(old) => {
                let m = with_failure(old, message);
                (
                    self.with_record(id, m),
                    seq![
                        saved(m),
                        progressed(m),
                        TransferActionView::Emit(
                            SessionEventView::FileFailed {
                                transfer_id: id,
                                file_name: m.metadata.file_name,
                                message,
                            },
                        ),
                    ],
                )
            },
        }
    }

    /// The peer wants a file of this end.
    pub open spec fn begin_send(self, id: Seq<char>) -> (
        Self,
        Result<TransferManifestView, Seq<char>>,
    ) {
        let s = TransferStateView { cancelled: self.cancelled.remove(id), ..self };
        if !s.senders.dom().contains(id) {
            (s, Err("找不到待发送文件："@ + id))
        } else {
            let m = with_status(s.senders[id], TransferStatus::Accepted);
            (
                TransferStateView { senders: s.senders.insert(id, m), ..s },
                if m.source_path is None {
                    Err("发送文件缺少源路径"@)
                } else {
                    Ok(m)
                },
            )
        }
    }

    /// Nothing, or why the transfer must not go on.
    pub open spec fn ensure_not_cancelled(self, id: Seq<char>) -> Result<(), Seq<char>> {
        if self.cancelled.contains(id) {
            Err("传输已暂停或取消："@ + id)
        } else {
            Ok(())
        }
    }

    /// The record of the file that a stream brings chunks of, or why the stream is not taken.
    pub open spec fn begin_receive(self, header: FileStreamHeaderView) -> Result<
        TransferManifestView,
        Seq<char>,
    > {
        let id = header.transfer_id;
        if header.start_chunk >= header.end_chunk {
            Err("文件流分块范围无效"@)
        } else if !self.receivers.dom().contains(id) {
            Err("收到未接受的文件流："@ + id)
        } else if header.end_chunk > self.receivers[id].metadata.total_chunks {
            Err("文件流分块范围越界"@)
        } else if self.receivers[id].temp_path is None {
            Err("接收文件缺少临时路径"@)
        } else {
            Ok(self.receivers[id])
        }
    }

    /// A chunk of a file is there and written.
    pub open spec fn record_chunk(self, id: Seq<char>, index: u64) -> Step {
        if !self.receivers.dom().contains(id) {
            (self, Err("找不到接收中的文件："@ + id))
        } else {
            let m = also_done(self.receivers[id], set![index as int]);
            (
                TransferStateView { receivers: self.receivers.insert(id, m), ..self },
                Ok(
                    seq![
                        saved(m),
                        progressed(m),
                        TransferActionView::Send(
                            P2pMessageView::FileAck {
                                transfer_id: id,
                                chunks: seq![ChunkRange { start: index, end: (index + 1) as u64 }],
                            },
                        ),
                    ],
                ),
            )
        }
    }

    /// The peer has chunks of a file that is sent.
    pub open spec fn hear_ack(self, id: Seq<char>, chunks: Seq<ChunkRange>) -> Step {
        if !self.senders.dom().contains(id) {
            (self, Err("找不到发送中的文件："@ + id))
        } else {
            let m = also_done(self.senders[id], ranges::covered(chunks));
            (
                TransferStateView { senders: self.senders.insert(id, m), ..self },
                Ok(seq![saved(m), progressed(m)]),
            )
        }
    }

    /// An offer of the peer that is to be accepted is no longer pending.
    pub open spec fn taken_up(self, id: Seq<char>) -> (Self, Option<FileMetadataView>) {
        (
            TransferStateView { pending_offers: self.pending_offers.remove(id), ..self },
            if self.pending_offers.dom().contains(id) {
                Some(self.pending_offers[id])
            } else {
                None
            },
        )
    }

    /// A file was received whole: nothing follows where its digest is the one that was told, and
    /// else the transfer has failed.
    pub open spec fn hash_checked(self, id: Seq<char>, expected: Seq<char>, actual: Seq<char>) -> (
        Self,
        Option<Seq<TransferActionView>>,
    ) {
        if actual == expected {
            (self, None)
        } else {
            let (s, actions) = self.mark_failed(id, "文件哈希校验失败"@);
            (s, Some(actions))
        }
    }

    /// Is the file that is received there, so that its hash is to be checked? Nothing where it is
    /// not, or is already complete.
    pub open spec fn ready_to_finalize(self, id: Seq<char>) -> Result<
        Option<TransferManifestView>,
        Seq<char>,
    > {
        if !self.receivers.dom().contains(id) {
            Ok(None)
        } else {
            let m = self.receivers[id];
            if m.status == TransferStatus::Complete || !m.is_complete() {
                Ok(None)
            } else if m.temp_path is None {
                Err("接收文件缺少临时路径"@)
            } else if m.output_path is None {
                Err("接收文件缺少保存路径"@)
            } else {
                Ok(Some(m))
            }
        }
    }

    /// The file that was received is in its place.
    pub open spec fn complete_received(self, id: Seq<char>, path: Seq<char>) -> Step {
        if !self.receivers.dom().contains(id) {
            (self, Err("找不到接收中的文件："@ + id))
        } else {
            let m = with_status(self.receivers[id], TransferStatus::Complete);
            (
                TransferStateView { receivers: self.receivers.insert(id, m), ..self },
                Ok(
                    seq![
                        saved(m),
                        progressed(m),
                        TransferActionView::Emit(
                            SessionEventView::FileCompleted {
                                transfer_id: id,
                                file_name: m.metadata.file_name,
                                path: Some(path),
                            },
                        ),
                        TransferActionView::Send(P2pMessageView::FileComplete { transfer_id: id }),
                    ],
                ),
            )
        }
    }

    /// The peer has the whole file.
    pub open spec fn complete_sent(self, id: Seq<char>) -> Step {
        if !self.senders.dom().contains(id) {
            (self, Err("找不到发送中的文件："@ + id))
        } else {
            let m = with_status(self.senders[id], TransferStatus::Complete);
            (
                TransferStateView { senders: self.senders.insert(id, m), ..self },
                Ok(
                    seq![
                        saved(m),
                        progressed(m),
                        TransferActionView::Emit(
                            SessionEventView::FileCompleted {
                                transfer_id: id,
                                file_name: m.metadata.file_name,
                                path: m.source_path,
                            },
                        ),
                    ],
                ),
            )
        }
    }
}

/// The record that an accepted offer leads to. What was received of the same file before is kept.
pub open spec fn accepted_manifest(
    metadata: FileMetadataView,
    existing: Option<TransferManifestView>,
    output: Seq<char>,
    temp: Seq<char>,
) -> TransferManifestView {
    match existing {
        Some(m) if m.direction == TransferDirection::Receive && m.metadata.file_hash
            == metadata.file_hash => TransferManifestView {
            status: TransferStatus::Accepted,
            output_path: Some(output),
            temp_path: Some(temp),
            ..m
        },
        _ => TransferManifestView::receiver(metadata, output, temp),
    }
}

pub open spec fn opt_manifest(m: Option<TransferManifest>) -> Option<TransferManifestView> {
    match m {
        Some(m) => Some(m@),
        None => None,
    }
}

/// The record that an accepted offer leads to.
pub fn accept_manifest(
    metadata: FileMetadata,
    existing: Option<TransferManifest>,
    save_path: FilePath,
) -> (r: TransferManifest)
    ensures
        r@.temp_path is Some,
        transfer::is_part_path(save_path@, r@.temp_path->0),
        r@ == accepted_manifest(
            metadata@,
            opt_manifest(existing),
            save_path@.text,
            r@.temp_path->0,
        ),
{
    let ghost found = opt_manifest(existing);
    let ghost wanted = metadata@;
    let ghost place = save_path@.text;
    let mut kept: Option<TransferManifest> = None;
    if let Some(existing) = existing {
        if existing.direction == TransferDirection::Receive && text::same_text(
            existing.metadata.file_hash.as_str(),
            metadata.file_hash.as_str(),
        ) {
            kept = Some(existing);
        }
    }
    match kept {
        Some(existing) => {
            let mut m = existing;
            let temp = transfer::part_path(&save_path).to_text();
            let ghost t = temp@;
            m.status = TransferStatus::Accepted;
            m.output_path = Some(save_path.to_text());
            m.temp_path = Some(temp);
            assert(m@ == accepted_manifest(wanted, found, place, t));
            m
        },
        None => {
            let m = TransferManifest::new_receiver(metadata, save_path);
            assert(m@ == accepted_manifest(wanted, found, place, m@.temp_path->0));
            m
        },
    }
}

/// The record of an empty file that is complete, and where the file is to be made.
pub open spec fn made_empty(m: TransferManifestView) -> Option<(TransferManifestView, Seq<char>)> {
    match m.output_path {
        Some(path) => Some((with_status(m, TransferStatus::Complete), path)),
        None => None,
    }
}

/// The chunks that the peer lacks of a file with so many, as the shortest list of ranges.
pub open spec fn lacking(total_chunks: u64, completed: Seq<ChunkRange>) -> Seq<ChunkRange> {
    ranges::shortest(
        set_int_range(0, total_chunks as int).difference(ranges::covered(completed)),
    )
}

/// The record of an empty file that is complete, and where the file is to be made.
pub fn empty_receiver(manifest: TransferManifest) -> (r: Result<(TransferManifest, String), String>)
    ensures
        match r {
            Ok((m, path)) => {
                &&& manifest@.output_path == Some(path@)
                &&& m@ == with_status(manifest@, TransferStatus::Complete)
            },
            Err(e) => manifest@.output_path is None && e@ == "接收文件缺少保存路径"@,
        },
        made_empty(manifest@) == match r {
            Ok((m, path)) => Some((m@, path@)),
            Err(_) => None,
        },
{
    let mut m = manifest;
    let path = match &m.output_path {
        Some(path) => path.clone(),
        None => {
            return Err("接收文件缺少保存路径".to_owned());
        },
    };
    m.status = TransferStatus::Complete;
    Ok((m, path))
}

fn actions2(a: TransferAction, b: TransferAction) -> (r: Vec<TransferAction>)
    ensures
        action_views(r@) == seq![a@, b@],
{
    let mut r: Vec<TransferAction> = Vec::new();
    r.push(a);
    r.push(b);
    assert(action_views(r@) =~= seq![a@, b@]);
    r
}

fn actions3(a: TransferAction, b: TransferAction, c: TransferAction) -> (r: Vec<TransferAction>)
    ensures
        action_views(r@) == seq![a@, b@, c@],
{
    let mut r: Vec<TransferAction> = Vec::new();
    r.push(a);
    r.push(b);
    r.push(c);
    assert(action_views(r@) =~= seq![a@, b@, c@]);
    r
}

fn single(a: TransferAction) -> (r: Vec<TransferAction>)
    ensures
        action_views(r@) == seq![a@],
{
    let mut r: Vec<TransferAction> = Vec::new();
    r.push(a);
    assert(action_views(r@) =~= seq![a@]);
    r
}

fn progress(m: &TransferManifest) -> (r: TransferAction)
    ensures
        r@ == progressed(m@),
{
    TransferAction::Emit(session::progress_event(m))
}

fn unknown(what: &str, id: &str) -> (r: String)
    ensures
        r@ == what@ + id@,
{
    text::concat(what, id)
}

/// What sending a file takes: its record, where it is, and the chunks that the peer lacks.
#[derive(Debug)]
pub struct SendPlan {
    pub manifest: TransferManifest,
    pub source_path: String,
    pub missing: Vec<ChunkRange>,
    pub actions: Vec<TransferAction>,
}

/// What is done before chunks are sent; where the peer lacks none, it is told that all is there.
pub open spec fn opening_actions(m: TransferManifestView, id: Seq<char>, nothing_missing: bool) -> Seq<
    TransferActionView,
> {
    if nothing_missing {
        seq![
            saved(m),
            progressed(m),
            TransferActionView::Send(P2pMessageView::FileComplete { transfer_id: id }),
        ]
    } else {
        seq![saved(m), progressed(m)]
    }
}

impl TransferState {
    pub fn new(store: TransferStore) -> (r: Self)
        ensures
            r@ == TransferStateView::empty(store@),
    {
        TransferState {
            store,
            pending_offers: TextMap::new(),
            senders: TextMap::new(),
            receivers: TextMap::new(),
            cancelled: TextSet::new(),
        }
    }

    pub fn commit_offer(&mut self, manifest: TransferManifest) -> (r: Vec<TransferAction>)
        ensures
            (final(self)@, action_views(r@)) == old(self)@.commit_offer(manifest@),
    {
        let told = progress(&manifest);
        let offer = TransferAction::Send(
            P2pMessage::FileOffer { metadata: manifest.metadata.clone() },
        );
        let id = manifest.metadata.transfer_id.clone();
        self.cancelled.remove(id.as_str());
        self.senders.insert(id, manifest);
        actions2(told, offer)
    }

    /// The peer offers a file.
    pub fn receive_file_offer(&mut self, metadata: FileMetadata) -> (r: Result<
        Vec<TransferAction>,
        String,
    >)
        ensures
            crate::paths::is_portable(metadata@.file_name) ==> (final(self)@, step_result(r))
                == old(self)@.hear_offer(
                transfer::offer_outcome(
                    metadata@,
                    crate::paths::final_component(metadata@.file_name),
                ),
            ),
            exists|name: Option<Seq<char>>|
                crate::paths::names_the_file(metadata@.file_name, name) && (
                    final(self)@,
                    step_result(r),
                ) == old(self)@.hear_offer(#[trigger] transfer::offer_outcome(metadata@, name)),
    {
        let mut metadata = metadata;
        let ghost given = metadata@;
        let ghost before = self@;
        let checked = transfer::validate_offer_metadata(&mut metadata);
        let ghost outcome = (metadata@, text::error_text(checked));
        match checked {
            Err(e) => {
                let r: Result<Vec<TransferAction>, String> = Err(e);
                assert((self@, step_result(r)) == before.hear_offer(outcome));
                return r;
            },
            Ok(_) => {},
        }
        let id = metadata.transfer_id.clone();
        self.pending_offers.insert(id, metadata.clone());
        let r: Result<Vec<TransferAction>, String> = Ok(
            single(TransferAction::Emit(SessionEvent::FileOffered(metadata))),
        );
        assert((self@, step_result(r)) == before.hear_offer(outcome));
        r
    }

    /// The offer that is being accepted; it is pending no longer.
    pub fn begin_accept(&mut self, transfer_id: &str) -> (r: Result<FileMetadata, String>)
        ensures
            final(self)@ == (TransferStateView {
                pending_offers: old(self)@.pending_offers.remove(transfer_id@),
                ..old(self)@
            }),
            match r {
                Ok(m) => old(self)@.pending_offers.dom().contains(transfer_id@) && m@ == old(
                    self,
                )@.pending_offers[transfer_id@],
                Err(e) => !old(self)@.pending_offers.dom().contains(transfer_id@) && e@
                    == "找不到待接收文件："@ + transfer_id@,
            },
            old(self)@.taken_up(transfer_id@) == (
                final(self)@,
                match r {
                    Ok(m) => Some(m@),
                    Err(_) => None,
                },
            ),
    {
        match self.pending_offers.remove(transfer_id) {
            Some(m) => Ok(m),
            None => Err(unknown("找不到待接收文件：", transfer_id)),
        }
    }

    pub fn commit_accept(&mut self, transfer_id: String, manifest: TransferManifest) -> (r: Vec<
        TransferAction,
    >)
        ensures
            (final(self)@, action_views(r@)) == old(self)@.commit_accept(transfer_id@, manifest@),
    {
        let told = progress(&manifest);
        let empty = manifest.metadata.total_chunks == 0;
        let chunks = manifest.completed_chunks.clone();
        let key = manifest.metadata.transfer_id.clone();
        self.cancelled.remove(transfer_id.as_str());
        self.receivers.insert(key, manifest);
        if empty {
            single(told)
        } else {
            actions2(
                told,
                TransferAction::Send(
                    P2pMessage::FileAccept { transfer_id, completed_chunks: chunks },
                ),
            )
        }
    }

    pub fn commit_empty(&mut self, manifest: TransferManifest, path: String) -> (r: Vec<
        TransferAction,
    >)
        ensures
            (final(self)@, action_views(r@)) == old(self)@.commit_empty(manifest@, path@),
    {
        let told = progress(&manifest);
        let id = manifest.metadata.transfer_id.clone();
        let done = TransferAction::Emit(
            SessionEvent::FileCompleted {
                transfer_id: id.clone(),
                file_name: manifest.metadata.file_name.clone(),
                path: Some(path),
            },
        );
        self.receivers.insert(id.clone(), manifest);
        actions3(told, done, TransferAction::Send(P2pMessage::FileComplete { transfer_id: id }))
    }

    pub fn reject_file_offer(&mut self, transfer_id: String, reason: String) -> (r: Vec<
        TransferAction,
    >)
        ensures
            (final(self)@, action_views(r@)) == old(self)@.reject(transfer_id@, reason@),
    {
        let file_name = match self.pending_offers.remove(transfer_id.as_str()) {
            Some(m) => m.file_name,
            None => transfer_id.clone(),
        };
        actions2(
            TransferAction::Emit(
                SessionEvent::FileCancelled {
                    transfer_id: transfer_id.clone(),
                    file_name,
                    reason: reason.clone(),
                },
            ),
            TransferAction::Send(P2pMessage::FileReject { transfer_id, reason }),
        )
    }

    fn find_record(&self, transfer_id: &str) -> (r: Option<TransferManifest>)
        ensures
            opt_manifest(r) == self@.record(transfer_id@),
    {
        match self.senders.get(transfer_id) {
            Some(m) => Some(m.clone()),
            None => match self.receivers.get(transfer_id) {
                Some(m) => Some(m.clone()),
                None => None,
            },
        }
    }

    fn put_record(&mut self, transfer_id: &str, manifest: TransferManifest)
        ensures
            final(self)@ == old(self)@.with_record(transfer_id@, manifest@),
    {
        if self.senders.contains_key(transfer_id) {
            self.senders.insert(transfer_id.to_owned(), manifest);
        } else {
            self.receivers.insert(transfer_id.to_owned(), manifest);
        }
    }

    pub fn update_transfer_status(&mut self, transfer_id: &str, status: TransferStatus) -> (r: Result<
        Vec<TransferAction>,
        String,
    >)
        ensures
            (final(self)@, step_result(r)) == old(self)@.update_status(transfer_id@, status),
    {
        let mut m = match self.find_record(transfer_id) {
            Some(m) => m,
            None => {
                return Err(unknown("找不到传输：", transfer_id));
            },
        };
        m.status = status;
        let told = progress(&m);
        self.put_record(transfer_id, m.clone());
        Ok(actions2(TransferAction::Save(m), told))
    }

    /// This end pauses a transfer: its record is to be saved, and then the pause confirmed.
    pub fn pause_transfer(&mut self, transfer_id: &str) -> (r: Result<Vec<TransferAction>, String>)
        ensures
            (final(self)@, step_result(r)) == old(self)@.update_status(
                transfer_id@,
                TransferStatus::Paused,
            ),
    {
        self.update_transfer_status(transfer_id, TransferStatus::Paused)
    }

    pub fn confirm_pause(&mut self, transfer_id: String) -> (r: Vec<TransferAction>)
        ensures
            (final(self)@, action_views(r@)) == old(self)@.confirm_pause(transfer_id@),
    {
        self.cancelled.insert(transfer_id.clone());
        single(
            TransferAction::Send(
                P2pMessage::FileCancel { transfer_id, reason: "用户暂停".to_owned() },
            ),
        )
    }

    pub fn resume_transfer(&mut self, transfer_id: String) -> (r: Result<
        Vec<TransferAction>,
        String,
    >)
        ensures
            (final(self)@, step_result(r)) == old(self)@.resume(transfer_id@),
    {
        self.cancelled.remove(transfer_id.as_str());
        let receiving = match self.receivers.get(transfer_id.as_str()) {
            Some(m) => Some(m.clone()),
            None => None,
        };
        if let Some(found) = receiving {
            let mut m = found;
            m.status = TransferStatus::Accepted;
            let told = progress(&m);
            let chunks = m.completed_chunks.clone();
            self.receivers.insert(transfer_id.clone(), m.clone());
            return Ok(
                actions3(
                    TransferAction::Save(m),
                    told,
                    TransferAction::Send(
                        P2pMessage::FileResume { transfer_id, completed_chunks: chunks },
                    ),
                ),
            );
        }
        let sending = match self.senders.get(transfer_id.as_str()) {
            Some(m) => Some(m.clone()),
            None => None,
        };
        if let Some(found) = sending {
            let mut m = found;
            m.status = TransferStatus::Offered;
            let told = progress(&m);
            let metadata = m.metadata.clone();
            self.senders.insert(transfer_id, m.clone());
            return Ok(
                actions3(
                    TransferAction::Save(m),
                    told,
                    TransferAction::Send(P2pMessage::FileOffer { metadata }),
                ),
            );
        }
        Err(unknown("找不到可继续的传输：", transfer_id.as_str()))
    }

    pub fn mark_transfer_cancelled(&mut self, transfer_id: String, reason: String) -> (r: Vec<
        TransferAction,
    >)
        ensures
            (final(self)@, action_views(r@)) == old(self)@.mark_cancelled(transfer_id@, reason@),
    {
        self.cancelled.insert(transfer_id.clone());
        self.pending_offers.remove(transfer_id.as_str());
        match self.find_record(transfer_id.as_str()) {
            None => {
                let r: Vec<TransferAction> = Vec::new();
                assert(action_views(r@) =~= Seq::<TransferActionView>::empty());
                r
            },
            Some(found) => {
                let mut m = found;
                m.status = TransferStatus::Cancelled;
                let told = progress(&m);
                let file_name = m.metadata.file_name.clone();
                self.put_record(transfer_id.as_str(), m.clone());
                actions3(
                    TransferAction::Save(m),
                    told,
                    TransferAction::Emit(
                        SessionEvent::FileCancelled { transfer_id, file_name, reason },
                    ),
                )
            },
        }
    }

    pub fn cancel_transfer(&mut self, transfer_id: String, reason: String) -> (r: Vec<
        TransferAction,
    >)
        ensures
            (final(self)@, action_views(r@)) == old(self)@.cancel(transfer_id@, reason@),
    {
        let mut actions = self.mark_transfer_cancelled(transfer_id.clone(), reason.clone());
        let ghost before = action_views(actions@);
        let last = TransferAction::Send(P2pMessage::FileCancel { transfer_id, reason });
        let ghost v = last@;
        actions.push(last);
        assert(action_views(actions@) =~= before.push(v));
        actions
    }

    pub fn mark_transfer_failed(&mut self, transfer_id: String, message: String) -> (r: Vec<
        TransferAction,
    >)
        ensures
            (final(self)@, action_views(r@)) == old(self)@.mark_failed(transfer_id@, message@),
    {
        match self.find_record(transfer_id.as_str()) {
            None => {
                let r: Vec<TransferAction> = Vec::new();
                assert(action_views(r@) =~= Seq::<TransferActionView>::empty());
                r
            },
            Some(found) => {
                let mut m = found;
                m.status = TransferStatus::Failed;
                m.failure = Some(message.clone());
                let told = progress(&m);
                let file_name = m.metadata.file_name.clone();
                self.put_record(transfer_id.as_str(), m.clone());
                actions3(
                    TransferAction::Save(m),
                    told,
                    TransferAction::Emit(
                        SessionEvent::FileFailed { transfer_id, file_name, message },
                    ),
                )
            },
        }
    }

    /// The peer wants the chunks of a file that it does not have yet.
    pub fn send_file_ranges(&mut self, transfer_id: &str, completed_chunks: Vec<ChunkRange>) -> (r: Result<
        SendPlan,
        String,
    >)
        ensures
            final(self)@ == old(self)@.begin_send(transfer_id@).0,
            match (r, old(self)@.begin_send(transfer_id@).1) {
                (Ok(plan), Ok(m)) => {
                    &&& plan.manifest@ == m
                    &&& Some(plan.source_path@) == m.source_path
                    &&& plan.missing@ == ranges::shortest(
                        set_int_range(0, m.metadata.total_chunks as int).difference(
                            ranges::covered(completed_chunks@),
                        ),
                    )
                    &&& plan.missing@ == lacking(m.metadata.total_chunks, completed_chunks@)
                    &&& action_views(plan.actions@) == opening_actions(
                        m,
                        transfer_id@,
                        plan.missing@.len() == 0,
                    )
                },
                (Err(a), Err(b)) => a@ == b,
                _ => false,
            },
    {
        self.cancelled.remove(transfer_id);
        let mut m = match self.senders.get(transfer_id) {
            Some(m) => m.clone(),
            None => {
                return Err(unknown("找不到待发送文件：", transfer_id));
            },
        };
        m.status = TransferStatus::Accepted;
        self.senders.insert(transfer_id.to_owned(), m.clone());
        let source_path = match &m.source_path {
            Some(path) => path.clone(),
            None => {
                return Err("发送文件缺少源路径".to_owned());
            },
        };
        let there = RangeSet::from_ranges(completed_chunks);
        let missing = there.missing_ranges(m.metadata.total_chunks);
        let told = progress(&m);
        let actions = if missing.len() == 0 {
            actions3(
                TransferAction::Save(m.clone()),
                told,
                TransferAction::Send(
                    P2pMessage::FileComplete { transfer_id: transfer_id.to_owned() },
                ),
            )
        } else {
            actions2(TransferAction::Save(m.clone()), told)
        };
        Ok(SendPlan { manifest: m, source_path, missing, actions })
    }

    pub fn ensure_not_cancelled(&self, transfer_id: &str) -> (r: Result<(), String>)
        ensures
            text::error_text(r) == self@.ensure_not_cancelled(transfer_id@),
    {
        if self.cancelled.contains(transfer_id) {
            return Err(unknown("传输已暂停或取消：", transfer_id));
        }
        Ok(())
    }

    /// A stream brings chunks of a file.
    pub fn begin_receive(&self, header: &FileStreamHeader) -> (r: Result<TransferManifest, String>)
        ensures
            match (r, self@.begin_receive(header@)) {
                (Ok(m), Ok(v)) => m@ == v,
                (Err(a), Err(b)) => a@ == b,
                _ => false,
            },
    {
        if header.start_chunk >= header.end_chunk {
            return Err("文件流分块范围无效".to_owned());
        }
        let m = match self.receivers.get(header.transfer_id.as_str()) {
            Some(m) => m.clone(),
            None => {
                return Err(unknown("收到未接受的文件流：", header.transfer_id.as_str()));
            },
        };
        if header.end_chunk > m.metadata.total_chunks {
            return Err("文件流分块范围越界".to_owned());
        }
        if m.temp_path.is_none() {
            return Err("接收文件缺少临时路径".to_owned());
        }
        Ok(m)
    }

    /// A chunk of a file is there and written.
    pub fn record_received_chunk(&mut self, transfer_id: &str, index: u64) -> (r: Result<
        Vec<TransferAction>,
        String,
    >)
        requires
            index < u64::MAX,
        ensures
            (final(self)@, step_result(r)) == old(self)@.record_chunk(transfer_id@, index),
            r is Ok ==> final(self)@.receivers[transfer_id@].done() == old(
                self,
            )@.receivers[transfer_id@].done().insert(index as int),
    {
        let mut m = match self.receivers.get(transfer_id) {
            Some(m) => m.clone(),
            None => {
                return Err(unknown("找不到接收中的文件：", transfer_id));
            },
        };
        let ghost old_m = m@;
        let mut completed = m.completed_set();
        completed.insert(index);
        assert(completed@ =~= old_m.done().union(set![index as int]));
        m.completed_chunks = completed.into_ranges();
        m.status = TransferStatus::Accepted;
        let told = progress(&m);
        self.receivers.insert(transfer_id.to_owned(), m.clone());
        let mut chunks: Vec<ChunkRange> = Vec::new();
        chunks.push(ChunkRange::new(index, index + 1));
        assert(chunks@ =~= seq![ChunkRange { start: index, end: (index + 1) as u64 }]);
        Ok(
            actions3(
                TransferAction::Save(m),
                told,
                TransferAction::Send(
                    P2pMessage::FileAck { transfer_id: transfer_id.to_owned(), chunks },
                ),
            ),
        )
    }

    /// Is the file that is received there, so that its hash is to be checked?
    pub fn ready_to_finalize(&self, transfer_id: &str) -> (r: Result<
        Option<TransferManifest>,
        String,
    >)
        ensures
            match (r, self@.ready_to_finalize(transfer_id@)) {
                (Ok(m), Ok(v)) => opt_manifest(m) == v,
                (Err(a), Err(b)) => a@ == b,
                _ => false,
            },
    {
        let m = match self.receivers.get(transfer_id) {
            Some(m) => m.clone(),
            None => {
                return Ok(None);
            },
        };
        if m.status == TransferStatus::Complete || !m.is_complete() {
            return Ok(None);
        }
        if m.temp_path.is_none() {
            return Err("接收文件缺少临时路径".to_owned());
        }
        if m.output_path.is_none() {
            return Err("接收文件缺少保存路径".to_owned());
        }
        Ok(Some(m))
    }

    /// The hash of a received file has been found out. Where it is not the one that the offer
    /// named, the transfer has failed; else nothing is returned and the file may be moved to its
    /// place.
    pub fn check_hash(&mut self, transfer_id: String, expected: &str, actual: &str) -> (r: Option<
        Vec<TransferAction>,
    >)
        ensures
            if actual@ == expected@ {
                r is None && final(self)@ == old(self)@
            } else {
                r is Some && (final(self)@, action_views(r->0@)) == old(self)@.mark_failed(
                    transfer_id@,
                    "文件哈希校验失败"@,
                )
            },
            old(self)@.hash_checked(transfer_id@, expected@, actual@) == (
                final(self)@,
                match r {
                    Some(actions) => Some(action_views(actions@)),
                    None => None,
                },
            ),
    {
        if text::same_text(actual, expected) {
            return None;
        }
        Some(self.mark_transfer_failed(transfer_id, "文件哈希校验失败".to_owned()))
    }

    /// The file that was received is in its place.
    pub fn complete_received(&mut self, transfer_id: String, path: String) -> (r: Result<
        Vec<TransferAction>,
        String,
    >)
        ensures
            (final(self)@, step_result(r)) == old(self)@.complete_received(transfer_id@, path@),
    {
        let mut m = match self.receivers.get(transfer_id.as_str()) {
            Some(m) => m.clone(),
            None => {
                return Err(unknown("找不到接收中的文件：", transfer_id.as_str()));
            },
        };
        m.status = TransferStatus::Complete;
        let told = progress(&m);
        let file_name = m.metadata.file_name.clone();
        self.receivers.insert(transfer_id.clone(), m.clone());
        let mut actions = actions3(
            TransferAction::Save(m),
            told,
            TransferAction::Emit(
                SessionEvent::FileCompleted {
                    transfer_id: transfer_id.clone(),
                    file_name,
                    path: Some(path),
                },
            ),
        );
        let ghost before = action_views(actions@);
        let last = TransferAction::Send(P2pMessage::FileComplete { transfer_id });
        let ghost v = last@;
        actions.push(last);
        assert(action_views(actions@) =~= before.push(v));
        assert(before.push(v) =~= seq![before[0], before[1], before[2], v]);
        Ok(actions)
    }

    /// The peer has chunks of a file that is sent.
    pub fn acknowledge_sent_chunks(&mut self, transfer_id: &str, chunks: Vec<ChunkRange>) -> (r: Result<
        Vec<TransferAction>,
        String,
    >)
        ensures
            (final(self)@, step_result(r)) == old(self)@.hear_ack(transfer_id@, chunks@),
            r is Ok ==> final(self)@.senders[transfer_id@].done() == old(
                self,
            )@.senders[transfer_id@].done().union(ranges::covered(chunks@)),
    {
        let mut m = match self.senders.get(transfer_id) {
            Some(m) => m.clone(),
            None => {
                return Err(unknown("找不到发送中的文件：", transfer_id));
            },
        };
        let ghost old_m = m@;
        let mut completed = m.completed_set();
        let mut i: usize = 0;
        assert(ranges::covered(chunks@.take(0)) =~= Set::<int>::empty());
        assert(completed@ =~= old_m.done().union(ranges::covered(chunks@.take(0))));
        while i < chunks.len()
            invariant
                i <= chunks@.len(),
                completed@ == old_m.done().union(ranges::covered(chunks@.take(i as int))),
            decreases chunks@.len() - i,
        {
            proof {
                ranges::lemma_covered_push(chunks@.take(i as int), chunks@[i as int]);
                assert(chunks@.take(i + 1) == chunks@.take(i as int).push(chunks@[i as int]));
            }
            completed.insert_range(chunks[i]);
            i += 1;
            assert(completed@ =~= old_m.done().union(ranges::covered(chunks@.take(i as int))));
        }
        assert(chunks@.take(i as int) == chunks@);
        m.completed_chunks = completed.into_ranges();
        m.status = TransferStatus::Accepted;
        let told = progress(&m);
        self.senders.insert(transfer_id.to_owned(), m.clone());
        Ok(actions2(TransferAction::Save(m), told))
    }

    /// The peer has the whole file.
    pub fn complete_sent_transfer(&mut self, transfer_id: String) -> (r: Result<
        Vec<TransferAction>,
        String,
    >)
        ensures
            (final(self)@, step_result(r)) == old(self)@.complete_sent(transfer_id@),
    {
        let mut m = match self.senders.get(transfer_id.as_str()) {
            Some(m) => m.clone(),
            None => {
                return Err(unknown("找不到发送中的文件：", transfer_id.as_str()));
            },
        };
        m.status = TransferStatus::Complete;
        let told = progress(&m);
        let file_name = m.metadata.file_name.clone();
        let path = text::clone_opt(&m.source_path);
        self.senders.insert(transfer_id.clone(), m.clone());
        Ok(
            actions3(
                TransferAction::Save(m),
                told,
                TransferAction::Emit(SessionEvent::FileCompleted { transfer_id, file_name, path }),
            ),
        )
    }
}

/// How far the sending of a file has come when the chunk at `offset` has gone out.
pub open spec fn sent_progress(m: TransferManifestView, offset: u64, len: u64) -> FileTransferProgressView {
    FileTransferProgressView {
        transfer_id: m.metadata.transfer_id,
        file_name: m.metadata.file_name,
        direction: TransferDirection::Send,
        status: TransferStatus::Accepted,
        completed_bytes: transfer::least(offset + len, m.metadata.file_size as int) as u64,
        total_bytes: m.metadata.file_size,
    }
}

/// How far the sending of a file has come when the chunk at `offset` has gone out.
pub fn sent_chunk_event(manifest: &TransferManifest, offset: u64, len: u64) -> (r: SessionEvent)
    requires
        offset + len <= u64::MAX,
    ensures
        r@ == SessionEventView::FileProgress(
            FileTransferProgressView {
                transfer_id: manifest@.metadata.transfer_id,
                file_name: manifest@.metadata.file_name,
                direction: TransferDirection::Send,
                status: TransferStatus::Accepted,
                completed_bytes: transfer::least(
                    offset + len,
                    manifest@.metadata.file_size as int,
                ) as u64,
                total_bytes: manifest@.metadata.file_size,
            },
        ),
        r@ == SessionEventView::FileProgress(sent_progress(manifest@, offset, len)),
{
    let size: u64 = manifest.metadata.file_size;
    let end: u64 = offset + len;
    SessionEvent::FileProgress(
        FileTransferProgress {
            transfer_id: manifest.metadata.transfer_id.clone(),
            file_name: manifest.metadata.file_name.clone(),
            direction: TransferDirection::Send,
            status: TransferStatus::Accepted,
            completed_bytes: if end < size {
                end
            } else {
                size
            },
            total_bytes: size,
        },
    )
}

/// How many bytes chunk `index` has.
pub open spec fn chunk_len(m: FileMetadataView, index: int) -> int {
    let offset = transfer::least(index * m.chunk_size, u64::MAX as int);
    if offset >= m.file_size {
        0
    } else {
        transfer::least(m.file_size - offset, m.chunk_size as int)
    }
}

/// How many bytes a chunk must have; nothing where the file has no such chunk.
pub open spec fn expected_len(m: FileMetadataView, index: u64) -> Option<int> {
    if index < m.total_chunks {
        Some(chunk_len(m, index as int))
    } else {
        None
    }
}

pub fn expected_chunk_len(metadata: &FileMetadata, index: u64) -> (r: Result<usize, String>)
    ensures
        match r {
            Ok(n) => index < metadata.total_chunks && n == chunk_len(metadata@, index as int) as usize,
            Err(e) => index >= metadata.total_chunks && e@ == "chunk "@ + text::decimal_text(
                index as nat,
            ) + " 超出文件范围"@,
        },
        match r {
            Ok(n) => expected_len(metadata@, index) is Some && n == expected_len(
                metadata@,
                index,
            )->0 as usize,
            Err(_) => expected_len(metadata@, index) is None,
        },
{
    if index >= metadata.total_chunks {
        let n = text::decimal(index);
        return Err(text::concat3("chunk ", n.as_str(), " 超出文件范围"));
    }
    let offset: u64 = transfer::chunk_offset(index, metadata.chunk_size);
    let remaining: u64 = if offset < metadata.file_size {
        metadata.file_size - offset
    } else {
        0
    };
    let len: u64 = if remaining < metadata.chunk_size {
        remaining
    } else {
        metadata.chunk_size
    };
    Ok(len as usize)
}

/// A transfer that is paused or cancelled does not go on; one that is resumed, offered, accepted or
/// asked for does.
pub proof fn only_live_transfers_go_on(
    s: TransferStateView,
    id: Seq<char>,
    reason: Seq<char>,
    m: TransferManifestView,
)
    ensures
        s.confirm_pause(id).0.ensure_not_cancelled(id) is Err,
        s.mark_cancelled(id, reason).0.ensure_not_cancelled(id) is Err,
        s.cancel(id, reason).0.ensure_not_cancelled(id) is Err,
        s.resume(id).0.ensure_not_cancelled(id) is Ok,
        s.begin_send(id).0.ensure_not_cancelled(id) is Ok,
        s.commit_accept(id, m).0.ensure_not_cancelled(id) is Ok,
        s.commit_offer(m).0.ensure_not_cancelled(m.metadata.transfer_id) is Ok,
{
}

/// A file that is being received, paused and resumed: nothing of what was received is lost, and the
/// peer is asked for the rest.
pub proof fn resuming_keeps_what_was_received(s: TransferStateView, id: Seq<char>)
    requires
        s.receivers.dom().contains(id),
        !s.senders.dom().contains(id),
    ensures
        ({
            let paused = s.update_status(id, TransferStatus::Paused).0.confirm_pause(id).0;
            let (after, r) = paused.resume(id);
            let m = with_status(s.receivers[id], TransferStatus::Accepted);
            &&& after.receivers[id] == m
            &&& r == Ok::<_, Seq<char>>(
                seq![
                    saved(m),
                    progressed(m),
                    TransferActionView::Send(
                        P2pMessageView::FileResume {
                            transfer_id: id,
                            completed_chunks: s.receivers[id].completed_chunks,
                        },
                    ),
                ],
            )
        }),
{
    let m = s.receivers[id];
    assert(with_status(with_status(m, TransferStatus::Paused), TransferStatus::Accepted)
        =~= with_status(m, TransferStatus::Accepted));
}

/// The chunks of a file follow on each other without gap or overlap and none is empty.
pub proof fn chunks_tile_the_file(m: FileMetadataView, index: int)
    requires
        0 < m.chunk_size,
        m.total_chunks == transfer::chunk_count(m.file_size as int, m.chunk_size as int),
        0 <= index < m.total_chunks,
    ensures
        0 < chunk_len(m, index) <= m.chunk_size,
        m.bytes_for_chunks(index) == index * m.chunk_size,
        m.bytes_for_chunks(index) + chunk_len(m, index) == m.bytes_for_chunks(index + 1),
{
    let c = m.chunk_size as int;
    let n = m.file_size as int;
    let q = n / c;
    vstd::arithmetic::div_mod::lemma_fundamental_div_mod(n, c);
    assert(c * q == q * c) by (nonlinear_arith);
    assert(n % c == 0 ==> index * c <= (q - 1) * c) by (nonlinear_arith)
        requires
            c > 0,
            n % c == 0 ==> index <= q - 1,
    ;
    assert(n % c != 0 ==> index * c <= q * c) by (nonlinear_arith)
        requires
            c > 0,
            n % c != 0 ==> index <= q,
    ;
    assert((q - 1) * c == q * c - c) by (nonlinear_arith);
    assert(0 <= n % c < c);
    assert(index * c < n);
    assert(0 <= index * c) by (nonlinear_arith)
        requires
            c > 0,
            index >= 0,
    ;
    assert((index + 1) * c == index * c + c) by (nonlinear_arith);
}

/// When every chunk has been received the transfer is complete, and all bytes of the file count as
/// done.
pub proof fn all_chunks_make_it_complete(m: TransferManifestView)
    requires
        0 < m.metadata.chunk_size,
        m.metadata.total_chunks == transfer::chunk_count(
            m.metadata.file_size as int,
            m.metadata.chunk_size as int,
        ),
        m.done() == set_int_range(0, m.metadata.total_chunks as int),
    ensures
        m.is_complete(),
        m.completed_bytes() == m.metadata.file_size,
{
    let v = m.metadata;
    vstd::set_lib::lemma_int_range(0, v.total_chunks as int);
    if v.total_chunks > 0 {
        chunks_tile_the_file(v, v.total_chunks - 1);
        let c = v.chunk_size as int;
        let n = v.file_size as int;
        vstd::arithmetic::div_mod::lemma_fundamental_div_mod(n, c);
        let q = n / c;
        assert(c * q == q * c && (q + 1) * c == q * c + c) by (nonlinear_arith);
        assert(v.total_chunks * c >= n);
    } else {
        let c = v.chunk_size as int;
        let n = v.file_size as int;
        vstd::arithmetic::div_mod::lemma_fundamental_div_mod(n, c);
        assert(c * (n / c) == 0) by (nonlinear_arith)
            requires
                n / c == 0,
        ;
        assert(v.total_chunks * c == 0) by (nonlinear_arith)
            requires
                v.total_chunks == 0,
        ;
        vstd::arithmetic::div_mod::lemma_div_pos_is_pos(n, c);
    }
}

/// The sender sends what the receiver lacks and no more: with the chunks that the receiver named
/// and those that are sent, the file is whole.
pub proof fn sent_chunks_complete_the_receiver(m: TransferManifestView, missing: Set<int>)
    requires
        m.done().subset_of(set_int_range(0, m.metadata.total_chunks as int)),
        missing == set_int_range(0, m.metadata.total_chunks as int).difference(m.done()),
    ensures
        m.done().union(missing) == set_int_range(0, m.metadata.total_chunks as int),
        m.done().disjoint(missing),
{
    assert(m.done().union(missing) =~= set_int_range(0, m.metadata.total_chunks as int));
}

/// An offer of the peer can be accepted once, as it was made: what is taken up is what was heard,
/// and it is not there a second time; other offers stay.
pub proof fn an_offer_is_taken_up_once(
    s: TransferStateView,
    m: FileMetadataView,
    other: Seq<char>,
)
    requires
        other != m.transfer_id,
    ensures
        ({
            let heard = s.hear_offer((m, Ok(()))).0;
            let (t, taken) = heard.taken_up(m.transfer_id);
            &&& taken == Some(m)
            &&& t.taken_up(m.transfer_id).1 is None
            &&& t.pending_offers.dom().contains(other) == s.pending_offers.dom().contains(other)
            &&& t.senders == s.senders && t.receivers == s.receivers && t.cancelled == s.cancelled
        }),
{
}

/// A file whose digest is the one that was told is not touched; one with another has failed, and the
/// user is told so.
pub proof fn a_wrong_digest_fails_the_transfer(
    s: TransferStateView,
    id: Seq<char>,
    expected: Seq<char>,
    actual: Seq<char>,
)
    requires
        s.receivers.dom().contains(id),
        !s.senders.dom().contains(id),
    ensures
        ({
            let (t, actions) = s.hash_checked(id, expected, actual);
            &&& actual == expected ==> t == s && actions is None
            &&& actual != expected ==> {
                &&& t.receivers[id].status == TransferStatus::Failed
                &&& t.receivers[id].failure == Some("文件哈希校验失败"@)
                &&& t.receivers[id].completed_chunks == s.receivers[id].completed_chunks
                &&& actions is Some
                &&& actions->0.len() == 3
                &&& actions->0[2] == TransferActionView::Emit(
                    SessionEventView::FileFailed {
                        transfer_id: id,
                        file_name: s.receivers[id].metadata.file_name,
                        message: "文件哈希校验失败"@,
                    },
                )
            }
        }),
{
}

/// The chunks that are sent are those that the peer lacks and no others: whatever shortest list holds
/// just the chunks of the file that are not there is the list that is sent.
pub proof fn what_the_peer_lacks_is_sent(
    total_chunks: u64,
    completed: Seq<ChunkRange>,
    list: Seq<ChunkRange>,
)
    requires
        ranges::canonical(list),
        forall|i: int| #[trigger]
            ranges::covers(list, i) <==> 0 <= i < total_chunks && !ranges::covers(completed, i),
    ensures
        lacking(total_chunks, completed) == list,
{
    let wanted = set_int_range(0, total_chunks as int).difference(ranges::covered(completed));
    assert(ranges::covered(list) =~= wanted) by {
        assert forall|i: int| ranges::covered(list).contains(i) == wanted.contains(i) by {
            assert(ranges::covers(list, i) <==> 0 <= i < total_chunks && !ranges::covers(
                completed,
                i,
            ));
        }
    }
    ranges::lemma_shortest(list);
}

/// An empty file is complete at once, where it is to be saved. What has gone out counts as done up to
/// the end of the file; a chunk must have the bytes that the file has for it, and a chunk beyond the
/// file is none.
pub proof fn lengths_follow_from_the_file(
    m: TransferManifestView,
    path: Seq<char>,
    offset: u64,
    len: u64,
    index: u64,
)
    requires
        offset + len <= m.metadata.file_size,
    ensures
        m.output_path == Some(path) ==> made_empty(m) == Some(
            (TransferManifestView { status: TransferStatus::Complete, ..m }, path),
        ),
        m.output_path is None ==> made_empty(m) is None,
        sent_progress(m, offset, len).completed_bytes == offset + len,
        sent_progress(m, offset, len).total_bytes == m.metadata.file_size,
        sent_progress(m, offset, len).transfer_id == m.metadata.transfer_id,
        sent_progress(m, offset, len).file_name == m.metadata.file_name,
        sent_progress(m, offset, len).direction == TransferDirection::Send,
        sent_progress(m, offset, len).status == TransferStatus::Accepted,
        expected_len(m.metadata, index) is Some <==> index < m.metadata.total_chunks,
        expected_len(m.metadata, index) is Some && (index + 1) * m.metadata.chunk_size
            <= m.metadata.file_size ==> expected_len(m.metadata, index) == Some(
            m.metadata.chunk_size as int,
        ),
{
    let c = m.metadata.chunk_size as int;
    assert((index + 1) * c == index * c + c) by (nonlinear_arith);
    assert(index * c >= 0) by (nonlinear_arith)
        requires
            index >= 0,
            c >= 0,
    ;
}

}
