//! What is known of a file transfer: what the file is, where it goes and how far it has come.
use crate::digest::ContentHash;
use crate::paths::{FilePath, FilePathView};
use crate::ranges::{ChunkRange, RangeSet};
use crate::{digest, paths, random, ranges, text};
use vstd::prelude::*;

verus! {

pub const DEFAULT_CHUNK_SIZE: u64 = 262144;

pub const MAX_CHUNK_SIZE: u64 = 4194304;

/// What the sender says of a file.
#[derive(Debug, PartialEq, Eq)]
pub struct FileMetadata {
    pub transfer_id: String,
    pub file_name: String,
    pub file_size: u64,
    pub chunk_size: u64,
    pub total_chunks: u64,
    pub modified_millis: Option<u64>,
    pub sample_hash: String,
    pub file_hash: String,
}

#[verifier::ext_equal]
pub struct FileMetadataView {
    pub transfer_id: Seq<char>,
    pub file_name: Seq<char>,
    pub file_size: u64,
    pub chunk_size: u64,
    pub total_chunks: u64,
    pub modified_millis: Option<u64>,
    pub sample_hash: Seq<char>,
    pub file_hash: Seq<char>,
}

impl View for FileMetadata {
    type V = FileMetadataView;

    open spec fn view(&self) -> FileMetadataView {
        FileMetadataView {
            transfer_id: self.transfer_id@,
            file_name: self.file_name@,
            file_size: self.file_size,
            chunk_size: self.chunk_size,
            total_chunks: self.total_chunks,
            modified_millis: self.modified_millis,
            sample_hash: self.sample_hash@,
            file_hash: self.file_hash@,
        }
    }
}

impl Clone for FileMetadata {
    fn clone(&self) -> (r: Self)
        ensures
            r@ == self@,
            r == *self,
    {
        FileMetadata {
            transfer_id: self.transfer_id.clone(),
            file_name: self.file_name.clone(),
            file_size: self.file_size,
            chunk_size: self.chunk_size,
            total_chunks: self.total_chunks,
            modified_millis: self.modified_millis,
            sample_hash: self.sample_hash.clone(),
            file_hash: self.file_hash.clone(),
        }
    }
}

/// The smaller of two numbers.
pub open spec fn least(a: int, b: int) -> int {
    if a < b {
        a
    } else {
        b
    }
}

/// How many chunks of `chunk_size` bytes a file of `size` bytes has, the last of them perhaps short.
pub open spec fn chunk_count(size: int, chunk_size: int) -> int {
    if size % chunk_size == 0 {
        size / chunk_size
    } else {
        size / chunk_size + 1
    }
}

/// The product, or the largest number where it does not fit.
pub fn saturating_product(a: u64, b: u64) -> (r: u64)
    ensures
        r == least(a * b, u64::MAX as int),
{
    match a.checked_mul(b) {
        Some(p) => p,
        None => u64::MAX,
    }
}

pub fn count_chunks(size: u64, chunk_size: u64) -> (r: u64)
    requires
        chunk_size > 0,
    ensures
        r == chunk_count(size as int, chunk_size as int),
{
    if size % chunk_size == 0 {
        size / chunk_size
    } else {
        proof {
            assert(chunk_size > 1) by {
                assert(size as int % 1 == 0);
            }
            assert(size / chunk_size < u64::MAX) by (nonlinear_arith)
                requires
                    chunk_size > 1,
            ;
        }
        size / chunk_size + 1
    }
}

impl FileMetadataView {
    /// How many bytes of the file the first `chunks` chunks hold.
    pub open spec fn bytes_for_chunks(self, chunks: int) -> int {
        least(chunks * self.chunk_size, self.file_size as int)
    }
}

impl FileMetadata {
    pub fn bytes_for_chunks(&self, chunks: u64) -> (r: u64)
        ensures
            r == self@.bytes_for_chunks(chunks as int),
    {
        let bytes: u64 = saturating_product(chunks, self.chunk_size);
        if bytes < self.file_size {
            bytes
        } else {
            self.file_size
        }
    }
}

#[derive(Debug, Clone, Copy, PartialEq, Eq, Structural)]
pub enum TransferDirection {
    Send,
    Receive,
}

#[derive(Debug, Clone, Copy, PartialEq, Eq, Structural)]
pub enum TransferStatus {
    Offered,
    Accepted,
    Paused,
    Complete,
    Cancelled,
    Failed,
}

/// The record of a transfer that outlives the session.
#[derive(Debug, PartialEq, Eq)]
pub struct TransferManifest {
    pub version: u32,
    pub direction: TransferDirection,
    pub status: TransferStatus,
    pub metadata: FileMetadata,
    pub source_path: Option<String>,
    pub output_path: Option<String>,
    pub temp_path: Option<String>,
    pub completed_chunks: Vec<ChunkRange>,
    pub failure: Option<String>,
}

#[verifier::ext_equal]
pub struct TransferManifestView {
    pub version: u32,
    pub direction: TransferDirection,
    pub status: TransferStatus,
    pub metadata: FileMetadataView,
    pub source_path: Option<Seq<char>>,
    pub output_path: Option<Seq<char>>,
    pub temp_path: Option<Seq<char>>,
    pub completed_chunks: Seq<ChunkRange>,
    pub failure: Option<Seq<char>>,
}

impl View for TransferManifest {
    type V = TransferManifestView;

    open spec fn view(&self) -> TransferManifestView {
        TransferManifestView {
            version: self.version,
            direction: self.direction,
            status: self.status,
            metadata: self.metadata@,
            source_path: text::opt_text(self.source_path),
            output_path: text::opt_text(self.output_path),
            temp_path: text::opt_text(self.temp_path),
            completed_chunks: self.completed_chunks@,
            failure: text::opt_text(self.failure),
        }
    }
}

impl Clone for TransferManifest {
    fn clone(&self) -> (r: Self)
        ensures
            r@ == self@,
    {
        TransferManifest {
            version: self.version,
            direction: self.direction,
            status: self.status,
            metadata: self.metadata.clone(),
            source_path: text::clone_opt(&self.source_path),
            output_path: text::clone_opt(&self.output_path),
            temp_path: text::clone_opt(&self.temp_path),
            completed_chunks: self.completed_chunks.clone(),
            failure: text::clone_opt(&self.failure),
        }
    }
}

impl TransferManifestView {
    /// The record of a file that is on offer.
    pub open spec fn sender(metadata: FileMetadataView, source: Seq<char>) -> Self {
        TransferManifestView {
            version: 1,
            direction: TransferDirection::Send,
            status: TransferStatus::Offered,
            metadata,
            source_path: Some(source),
            output_path: None,
            temp_path: None,
            completed_chunks: Seq::empty(),
            failure: None,
        }
    }

    /// The record of a file that is to be received by way of `temp`.
    pub open spec fn receiver(
        metadata: FileMetadataView,
        output: Seq<char>,
        temp: Seq<char>,
    ) -> Self {
        TransferManifestView {
            version: 1,
            direction: TransferDirection::Receive,
            status: TransferStatus::Accepted,
            metadata,
            source_path: None,
            output_path: Some(output),
            temp_path: Some(temp),
            completed_chunks: Seq::empty(),
            failure: None,
        }
    }

    /// The chunks that are done.
    pub open spec fn done(self) -> Set<int> {
        ranges::covered(self.completed_chunks)
    }

    /// The bytes that are done.
    pub open spec fn completed_bytes(self) -> int {
        self.metadata.bytes_for_chunks(self.done().len() as int)
    }

    pub open spec fn is_complete(self) -> bool {
        self.status == TransferStatus::Complete || self.done().len() >= self.metadata.total_chunks
    }
}

impl TransferManifest {
    pub fn new_sender(metadata: FileMetadata, source_path: String) -> (r: Self)
        ensures
            r@ == TransferManifestView::sender(metadata@, source_path@),
    {
        TransferManifest {
            version: 1,
            direction: TransferDirection::Send,
            status: TransferStatus::Offered,
            metadata,
            source_path: Some(source_path),
            output_path: None,
            temp_path: None,
            completed_chunks: Vec::new(),
            failure: None,
        }
    }

    pub fn new_receiver(metadata: FileMetadata, output_path: FilePath) -> (r: Self)
        ensures
            r@.temp_path is Some,
            is_part_path(output_path@, r@.temp_path->0),
            r@ == TransferManifestView::receiver(metadata@, output_path@.text, r@.temp_path->0),
    {
        let temp_path = part_path(&output_path).to_text();
        TransferManifest {
            version: 1,
            direction: TransferDirection::Receive,
            status: TransferStatus::Accepted,
            metadata,
            source_path: None,
            output_path: Some(output_path.to_text()),
            temp_path: Some(temp_path),
            completed_chunks: Vec::new(),
            failure: None,
        }
    }

    pub fn completed_set(&self) -> (r: RangeSet)
        ensures
            r@ == self@.done(),
            r.wf(),
    {
        RangeSet::from_ranges(self.completed_chunks.clone())
    }

    pub fn completed_bytes(&self) -> (r: u64)
        ensures
            r == self@.completed_bytes(),
    {
        self.metadata.bytes_for_chunks(self.completed_set().completed_chunks())
    }

    pub fn is_complete(&self) -> (r: bool)
        ensures
            r == self@.is_complete(),
    {
        self.status == TransferStatus::Complete || self.completed_set().completed_chunks()
            >= self.metadata.total_chunks
    }
}

/// A chunk as it goes over the wire.
#[derive(Debug)]
pub struct RawChunk {
    pub index: u64,
    pub offset: u64,
    pub bytes: Vec<u8>,
}

/// Where chunk `index` starts in the file, or the largest number where that does not fit.
pub open spec fn chunk_start(index: u64, chunk_size: u64) -> int {
    least(index * chunk_size, u64::MAX as int)
}

/// Where a chunk is to be written that names this place; nothing where its index names another.
pub open spec fn place_of(index: u64, offset: u64, chunk_size: u64) -> Option<u64> {
    if offset == chunk_start(index, chunk_size) {
        Some(offset)
    } else {
        None
    }
}

/// Where chunk `index` starts in the file, or the largest number where that does not fit.
pub fn chunk_offset(index: u64, chunk_size: u64) -> (r: u64)
    ensures
        r == least(index * chunk_size, u64::MAX as int),
        r == chunk_start(index, chunk_size),
{
    saturating_product(index, chunk_size)
}

/// Where the chunk is to be written; an error where it names another place than its index does.
pub fn checked_offset(chunk: &RawChunk, chunk_size: u64) -> (r: Result<u64, String>)
    ensures
        ({
            let offset = least(chunk.index * chunk_size, u64::MAX as int);
            text::error_text(r) == if offset == chunk.offset {
                Ok::<u64, Seq<char>>(chunk.offset)
            } else {
                Err("chunk "@ + text::decimal_text(chunk.index as nat) + " 偏移不匹配"@)
            }
        }),
        place_of(chunk.index, chunk.offset, chunk_size) == match r {
            Ok(offset) => Some(offset),
            Err(_) => None,
        },
{
    let offset: u64 = chunk_offset(chunk.index, chunk_size);
    if offset != chunk.offset {
        let index = text::decimal(chunk.index);
        return Err(text::concat3("chunk ", index.as_str(), " 偏移不匹配"));
    }
    Ok(offset)
}

/// Where transfer records are kept.
pub struct TransferStore {
    root: String,
}

impl View for TransferStore {
    type V = Seq<char>;

    closed spec fn view(&self) -> Seq<char> {
        self.root@
    }
}

impl Clone for TransferStore {
    fn clone(&self) -> (r: Self)
        ensures
            r@ == self@,
    {
        TransferStore { root: self.root.clone() }
    }
}

impl TransferStore {
    pub fn new(root: String) -> (r: Self)
        ensures
            r@ == root@,
    {
        TransferStore { root }
    }

    /// The store below the directory for local data, where there is one.
    pub fn platform_default(data_dir: Option<String>) -> (r: Result<Self, String>)
        ensures
            r is Ok <==> data_dir is Some,
            r matches Err(e) ==> e@ == "找不到本地数据目录"@,
            data_dir matches Some(dir) ==> !paths::is_verbatim(dir@) ==> exists|a: Seq<char>|
                #![auto]
                paths::is_joined(a, dir@, "p2p-signaling"@) && paths::is_joined(
                    r->Ok_0@,
                    a,
                    "transfers"@,
                ),
    {
        match data_dir {
            None => Err("找不到本地数据目录".to_owned()),
            Some(dir) => {
                proof {
                    reveal_strlit("p2p-signaling");
                    reveal_strlit("transfers");
                }
                let a = paths::join(dir.as_str(), "p2p-signaling");
                let b = paths::join(a.as_str(), "transfers");
                proof {
                    if !paths::is_verbatim(dir@) {
                        paths::lemma_joined_is_not_verbatim(a@, dir@, "p2p-signaling"@);
                    }
                }
                Ok(TransferStore::new(b))
            },
        }
    }

    pub fn root(&self) -> (r: &str)
        ensures
            r@ == self@,
    {
        self.root.as_str()
    }

    /// The file that holds the record of a transfer.
    pub fn manifest_path(&self, transfer_id: &str) -> (r: String)
        ensures
            !paths::is_verbatim(self@) ==> paths::leads_from(
                r@,
                self@,
                transfer_id@ + ".json"@,
            ),
    {
        let name = text::concat(transfer_id, ".json");
        paths::join(self.root.as_str(), name.as_str())
    }
}

/// What becomes of an offer whose path ends in the file name `name`: the metadata with the bare
/// file name, and what is wrong with it.
pub open spec fn offer_outcome(
    m: FileMetadataView,
    name: Option<Seq<char>>,
) -> (FileMetadataView, Result<(), Seq<char>>) {
    if name is None || name->0.len() == 0 {
        (m, Err("文件名不合法："@ + m.file_name))
    } else {
        let named = FileMetadataView { file_name: name->0, ..m };
        if m.chunk_size == 0 || m.chunk_size > MAX_CHUNK_SIZE {
            (named, Err("分块大小不合法："@ + text::decimal_text(m.chunk_size as nat)))
        } else if m.total_chunks != chunk_count(m.file_size as int, m.chunk_size as int) {
            (named, Err("分块数量与文件大小不一致"@))
        } else {
            (named, Ok(()))
        }
    }
}

/// Holds an offer to its own numbers, given the file name that its path ends in.
pub fn check_offer(metadata: &mut FileMetadata, file_name: Option<String>) -> (r: Result<
    (),
    String,
>)
    ensures
        (final(metadata)@, text::error_text(r)) == offer_outcome(
            old(metadata)@,
            text::opt_text(file_name),
        ),
{
    let name = match file_name {
        Some(name) => name,
        None => {
            return Err(text::concat("文件名不合法：", metadata.file_name.as_str()));
        },
    };
    if name.as_str().is_empty() {
        return Err(text::concat("文件名不合法：", metadata.file_name.as_str()));
    }
    metadata.file_name = name;
    if metadata.chunk_size == 0 || metadata.chunk_size > MAX_CHUNK_SIZE {
        let size = text::decimal(metadata.chunk_size);
        return Err(text::concat("分块大小不合法：", size.as_str()));
    }
    if metadata.total_chunks != count_chunks(metadata.file_size, metadata.chunk_size) {
        return Err("分块数量与文件大小不一致".to_owned());
    }
    Ok(())
}

/// Holds the metadata of an offer to its own numbers, so that no chunk size or chunk count makes a
/// file larger than it says, and cuts its file name down to the last component, so that it cannot
/// leave the directory it is saved in.
pub fn validate_offer_metadata(metadata: &mut FileMetadata) -> (r: Result<(), String>)
    ensures
        paths::is_portable(old(metadata)@.file_name) ==> (
            final(metadata)@,
            text::error_text(r),
        ) == offer_outcome(
            old(metadata)@,
            paths::final_component(old(metadata)@.file_name),
        ),
        exists|name: Option<Seq<char>>|
            paths::names_the_file(old(metadata)@.file_name, name) && (
                final(metadata)@,
                text::error_text(r),
            ) == #[trigger] offer_outcome(old(metadata)@, name),
{
    let name = paths::file_name(metadata.file_name.as_str());
    let ghost found = text::opt_text(name);
    let r = check_offer(metadata, name);
    assert((metadata@, text::error_text(r)) == offer_outcome(old(metadata)@, found));
    r
}

/// Is `r` the place beside `path` where the file grows before it is complete? It has the file name
/// of the path with `.part` behind it, or a random one where the path has none.
pub open spec fn is_part_path(path: FilePathView, r: Seq<char>) -> bool {
    !path.is_unusual() ==> match path.file_name() {
        Some(name) => r == path.with_file_name(name + ".part"@).text,
        None => exists|id: Seq<char>|
            random::is_random_id(id) && r == #[trigger] path.with_file_name(id + ".part"@).text,
    }
}

/// The place beside `path` where the file grows before it is complete. A path without a file name
/// is taken for the directory of that place, which gets a name of its own.
pub fn part_path(path: &FilePath) -> (r: FilePath)
    ensures
        is_part_path(path@, r@.text),
        r@.backslashes == path@.backslashes,
{
    let name = match path.file_name() {
        Some(name) => name,
        None => {
            let id = random::random_id();
            proof {
                random::random_id_holds_no_separator(id@);
            }
            id
        },
    };
    let part = text::concat(name.as_str(), ".part");
    proof {
        reveal_strlit(".part");
        if !path@.is_unusual() {
            if path@.file_name() is Some {
                paths::lemma_file_name_is_a_component(path@.backslashes, path@.text);
            }
            assert forall|i: int| 0 <= i < part@.len() implies !paths::parts_at(
                path@.backslashes,
                #[trigger] part@[i],
            ) by {
                if i < name@.len() {
                    assert(part@[i] == name@[i]);
                } else {
                    assert(part@[i] == ".part"@[i - name@.len()]);
                }
            }
        }
    }
    path.with_file_name(part.as_str())
}

/// An optional number as its `Debug` writes it.
pub open spec fn optional_number_text(n: Option<u64>) -> Seq<char> {
    match n {
        Some(v) => "Some("@ + text::decimal_text(v as nat) + ")"@,
        None => "None"@,
    }
}

/// What a transfer is identified by, before it is hashed.
pub open spec fn transfer_seed(
    file_name: Seq<char>,
    file_size: u64,
    modified_millis: Option<u64>,
    sample_hash: Seq<char>,
) -> Seq<char> {
    file_name + ":"@ + text::decimal_text(file_size as nat) + ":"@ + optional_number_text(
        modified_millis,
    ) + ":"@ + sample_hash
}

/// The identifier of a transfer: the same file gets the same one.
pub open spec fn transfer_id(
    file_name: Seq<char>,
    file_size: u64,
    modified_millis: Option<u64>,
    sample_hash: Seq<char>,
) -> Seq<char> {
    let seed = transfer_seed(file_name, file_size, modified_millis, sample_hash);
    "file-"@ + text::hex_text(digest::sha256(vstd::utf8::encode_utf8(seed))).take(24)
}

pub fn transfer_id_for(
    file_name: &str,
    file_size: u64,
    modified_millis: Option<u64>,
    sample_hash: &str,
) -> (r: String)
    ensures
        r@ == transfer_id(file_name@, file_size, modified_millis, sample_hash@),
{
    let size = text::decimal(file_size);
    let modified = match modified_millis {
        Some(v) => {
            let n = text::decimal(v);
            text::concat3("Some(", n.as_str(), ")")
        },
        None => "None".to_owned(),
    };
    let mut seed = text::concat4(file_name, ":", size.as_str(), ":");
    seed.append(modified.as_str());
    seed.append(":");
    seed.append(sample_hash);
    let hash = digest::sha256_hex(seed.as_str().as_bytes());
    let digits = text::chars_of(hash.as_str());
    assert(digits@.subrange(0, 24) == digits@.take(24));
    let head = text::text_of(&digits[0..24]);
    text::concat("file-", head.as_str())
}

/// The metadata of a file, given the name that its path ends in.
pub open spec fn described(
    name: Option<Seq<char>>,
    file_size: u64,
    modified_millis: Option<u64>,
    sample_hash: Seq<char>,
    file_hash: Seq<char>,
) -> FileMetadataView {
    let file_name = if name is Some && name->0.len() > 0 {
        name->0
    } else {
        "unnamed-file"@
    };
    FileMetadataView {
        transfer_id: transfer_id(file_name, file_size, modified_millis, sample_hash),
        file_name,
        file_size,
        chunk_size: DEFAULT_CHUNK_SIZE,
        total_chunks: chunk_count(file_size as int, DEFAULT_CHUNK_SIZE as int) as u64,
        modified_millis,
        sample_hash,
        file_hash,
    }
}

/// The metadata of a file, given the name that its path ends in.
pub fn describe_named(
    name: Option<String>,
    file_size: u64,
    modified_millis: Option<u64>,
    sample_hash: String,
    file_hash: String,
) -> (r: FileMetadata)
    ensures
        r@ == described(
            text::opt_text(name),
            file_size,
            modified_millis,
            sample_hash@,
            file_hash@,
        ),
        r.total_chunks == chunk_count(file_size as int, DEFAULT_CHUNK_SIZE as int),
{
    let file_name = match name {
        Some(name) => {
            if name.as_str().is_empty() {
                "unnamed-file".to_owned()
            } else {
                name
            }
        },
        None => "unnamed-file".to_owned(),
    };
    let total_chunks: u64 = count_chunks(file_size, DEFAULT_CHUNK_SIZE);
    let transfer_id = transfer_id_for(
        file_name.as_str(),
        file_size,
        modified_millis,
        sample_hash.as_str(),
    );
    FileMetadata {
        transfer_id,
        file_name,
        file_size,
        chunk_size: DEFAULT_CHUNK_SIZE,
        total_chunks,
        modified_millis,
        sample_hash,
        file_hash,
    }
}

/// The metadata of the file at `path`.
pub fn describe_file(
    path: &FilePath,
    file_size: u64,
    modified_millis: Option<u64>,
    sample_hash: String,
    file_hash: String,
) -> (r: FileMetadata)
    ensures
        r@ == described(
            path@.file_name(),
            file_size,
            modified_millis,
            sample_hash@,
            file_hash@,
        ),
        paths::is_portable(path@.text) ==> r@ == described(
            paths::final_component(path@.text),
            file_size,
            modified_millis,
            sample_hash@,
            file_hash@,
        ),
{
    describe_named(path.file_name(), file_size, modified_millis, sample_hash, file_hash)
}

/// The metadata of the file at `path`, given what was hashed of its sample and of all of it.
pub fn describe_contents(
    path: &FilePath,
    file_size: u64,
    modified_millis: Option<u64>,
    sample: ContentHash,
    contents: ContentHash,
) -> (r: FileMetadata)
    ensures
        r@ == described(
            path@.file_name(),
            file_size,
            modified_millis,
            text::hex_text(digest::sha256(sample@)),
            text::hex_text(digest::sha256(contents@)),
        ),
        paths::is_portable(path@.text) ==> r@ == described(
            paths::final_component(path@.text),
            file_size,
            modified_millis,
            text::hex_text(digest::sha256(sample@)),
            text::hex_text(digest::sha256(contents@)),
        ),
{
    let sample_hash = sample.finish();
    let file_hash = contents.finish();
    describe_file(path, file_size, modified_millis, sample_hash, file_hash)
}

/// How many bytes at the start, and again at the end, a file is sampled by.
pub const SAMPLE_LEN: u64 = 4096;

/// The parts of a file that its sample holds, each as offset and length.
pub open spec fn sample_parts(file_size: u64) -> Seq<(u64, u64)> {
    if file_size == 0 {
        Seq::empty()
    } else if file_size <= SAMPLE_LEN {
        seq![(0, file_size)]
    } else {
        seq![(0, SAMPLE_LEN), ((file_size - SAMPLE_LEN) as u64, SAMPLE_LEN)]
    }
}

/// The parts of a file that its sample holds, each as offset and length.
pub fn sample_plan(file_size: u64) -> (r: Vec<(u64, u64)>)
    ensures
        r@ == sample_parts(file_size),
{
    let sample_len: u64 = if SAMPLE_LEN < file_size {
        SAMPLE_LEN
    } else {
        file_size
    };
    let mut parts: Vec<(u64, u64)> = Vec::new();
    if sample_len > 0 {
        parts.push((0, sample_len));
    }
    if file_size > sample_len {
        parts.push((file_size - sample_len, sample_len));
    }
    assert(parts@ =~= sample_parts(file_size));
    parts
}

/// All chunks of an accepted offer together hold the file and no more: the last one is neither
/// empty nor too long, and an empty file has none.
pub proof fn accepted_offer_fits_its_file(m: FileMetadataView, name: Option<Seq<char>>)
    requires
        offer_outcome(m, name).1 is Ok,
    ensures
        0 < m.chunk_size <= MAX_CHUNK_SIZE,
        m.bytes_for_chunks(m.total_chunks as int) == m.file_size,
        m.total_chunks == 0 <==> m.file_size == 0,
        m.total_chunks > 0 ==> (m.total_chunks - 1) * m.chunk_size < m.file_size,
        offer_outcome(m, name).0.file_name.len() > 0,
{
    let q = m.file_size as int / m.chunk_size as int;
    let c = m.chunk_size as int;
    vstd::arithmetic::div_mod::lemma_fundamental_div_mod(m.file_size as int, c);
    assert(c * q == q * c && (q + 1) * c == q * c + c && (q - 1) * c == q * c - c)
        by (nonlinear_arith);
    assert(m.file_size > 0 && m.file_size as int % c == 0 ==> q > 0) by {
        if q <= 0 {
            assert(q * c <= 0) by (nonlinear_arith)
                requires
                    q <= 0,
                    c > 0,
            ;
        }
    }
    assert(q >= 0) by {
        vstd::arithmetic::div_mod::lemma_div_pos_is_pos(m.file_size as int, c);
    }
    assert(q > 0 ==> q * c > 0) by (nonlinear_arith)
        requires
            c > 0,
    ;
}

/// The file name of an accepted offer is a single component, whatever path the offer named: it is
/// not empty, stands for no directory and holds no slash, and it holds no backslash where
/// backslashes separate components. A name that Windows takes verbatim is left out: there slashes
/// separate nothing.
pub proof fn accepted_name_stays_in_its_directory(m: FileMetadataView, name: Option<Seq<char>>)
    requires
        paths::names_the_file(m.file_name, name),
        !paths::is_verbatim(m.file_name),
        offer_outcome(m, name).1 is Ok,
    ensures
        ({
            let kept = offer_outcome(m, name).0.file_name;
            &&& Some(kept) == name
            &&& kept.len() > 0
            &&& kept != seq!['.']
            &&& kept != seq!['.', '.']
            &&& !kept.contains('/')
            &&& name == paths::final_component(m.file_name) || !kept.contains('\\')
            &&& paths::is_portable(m.file_name) ==> paths::is_plain_name(kept)
        }),
{
    paths::lemma_named_file_is_one_component(m.file_name, name);
}

/// A file described for sending is accepted by the receiver, under the same name and number of
/// chunks.
pub proof fn described_file_is_accepted(
    name: Seq<char>,
    file_size: u64,
    modified_millis: Option<u64>,
    sample_hash: Seq<char>,
    file_hash: Seq<char>,
)
    requires
        name.len() > 0,
    ensures
        ({
            let m = described(Some(name), file_size, modified_millis, sample_hash, file_hash);
            offer_outcome(m, Some(name)) == (m, Ok::<(), Seq<char>>(()))
        }),
{
    let m = described(Some(name), file_size, modified_millis, sample_hash, file_hash);
    assert(FileMetadataView { file_name: name, ..m } =~= m);
    assert(0 <= chunk_count(file_size as int, DEFAULT_CHUNK_SIZE as int) <= u64::MAX);
}

/// The place where a file grows lies in the directory of the file and goes by the file's name with
/// `.part` behind it. Where slashes alone separate components, and just one stands before the name,
/// its path is that of the file with `.part` behind it.
pub proof fn a_file_grows_beside_its_place(
    path: FilePathView,
    front: Seq<char>,
    file: Seq<char>,
    r: Seq<char>,
)
    requires
        path.text == front + file,
        !path.is_unusual(),
        paths::is_component(path.backslashes, file),
        paths::body_start(path.backslashes, path.text) <= front.len(),
        front.len() == paths::body_start(path.backslashes, path.text) || paths::parts_at(
            path.backslashes,
            front.last(),
        ),
        is_part_path(path, r),
    ensures
        ({
            let dir = paths::trimmed(
                path.backslashes,
                front,
                paths::body_start(path.backslashes, path.text),
            );
            &&& r == paths::joined_text(path.backslashes, dir, file + ".part"@)
            &&& !path.backslashes && (front == dir || (dir.len() > 0 && dir.last() != '/' && front
                == dir.push('/'))) ==> r == path.text + ".part"@
        }),
{
    let start = paths::body_start(path.backslashes, path.text);
    paths::a_file_lies_in_its_directory(path.backslashes, front, file);
    let dir = paths::trimmed(path.backslashes, front, start);
    assert(front + (file + ".part"@) =~= path.text + ".part"@);
    if !path.backslashes && front == dir && front.len() > 0 {
        assert(front.last() == '/') by {
            if front.len() == start {
                assert(path.text[0] == front[0]);
                assert(path.text[1] == file[0]);
                assert(!paths::parts_at(false, file[0]));
            }
        }
    }
}

/// The sampled parts lie in the file.
pub proof fn sample_lies_in_the_file(file_size: u64)
    ensures
        forall|i: int|
            0 <= i < sample_parts(file_size).len() ==> (#[trigger] sample_parts(file_size)[i]).0
                + sample_parts(file_size)[i].1 <= file_size && sample_parts(file_size)[i].1 > 0,
{
}

/// The parts of the contents, one after the other.
pub open spec fn gathered(contents: Seq<u8>, parts: Seq<(u64, u64)>) -> Seq<u8>
    decreases parts.len(),
{
    if parts.len() == 0 {
        Seq::empty()
    } else {
        let (offset, len) = parts.last();
        gathered(contents, parts.drop_last()) + contents.subrange(
            offset as int,
            offset + len,
        )
    }
}

/// The sample of the contents.
pub open spec fn sample_of(contents: Seq<u8>) -> Seq<u8> {
    gathered(contents, sample_parts(contents.len() as u64))
}

/// The metadata of a file with these contents, given the name that its path ends in.
pub open spec fn described_contents(
    name: Option<Seq<char>>,
    modified_millis: Option<u64>,
    contents: Seq<u8>,
) -> FileMetadataView {
    described(
        name,
        contents.len() as u64,
        modified_millis,
        text::hex_text(digest::sha256(sample_of(contents))),
        text::hex_text(digest::sha256(contents)),
    )
}

/// What is told of a file follows from its path, its date and its contents: its name, how long it
/// is, how many chunks it has and the digest of all of it. A receiver on the same platform accepts
/// it as it is told, so that contents that were received are held against the digest of those that
/// were sent; where the name is plain, so does a receiver on another. Of names that would be cut
/// further on Windows this is not said: those that begin with a drive, and those that a verbatim
/// path ends in.
pub proof fn a_described_file_carries_its_digest(
    path: FilePathView,
    modified_millis: Option<u64>,
    contents: Seq<u8>,
)
    requires
        path.is_sound(),
        contents.len() <= u64::MAX,
        path.backslashes ==> !paths::is_verbatim(path.text),
        path.backslashes ==> (path.file_name() matches Some(n) ==> !paths::has_drive(n)),
    ensures
        ({
            let m = described_contents(path.file_name(), modified_millis, contents);
            &&& m.file_name == match path.file_name() {
                Some(name) => name,
                None => "unnamed-file"@,
            }
            &&& m.file_size == contents.len()
            &&& m.chunk_size == DEFAULT_CHUNK_SIZE
            &&& m.total_chunks == chunk_count(contents.len() as int, DEFAULT_CHUNK_SIZE as int)
            &&& m.file_hash == text::hex_text(digest::sha256(contents))
            &&& offer_outcome(m, paths::file_name_in(path.backslashes, m.file_name)) == (
                m,
                Ok::<(), Seq<char>>(()),
            )
            &&& paths::is_plain_name(m.file_name) ==> forall|name: Option<Seq<char>>|
                paths::names_the_file(m.file_name, name) ==> #[trigger] offer_outcome(m, name) == (
                    m,
                    Ok::<(), Seq<char>>(()),
                )
        }),
{
    let m = described_contents(path.file_name(), modified_millis, contents);
    reveal_strlit("unnamed-file");
    assert("unnamed-file"@.len() == 12);
    match path.file_name() {
        Some(name) => {
            if !path.is_unusual() {
                paths::lemma_file_name_is_a_component(path.backslashes, path.text);
            }
        },
        None => {},
    }
    assert(paths::is_component(path.backslashes, m.file_name));
    if m.file_name == "unnamed-file"@ {
        assert(m.file_name[1] == 'n');
    }
    paths::lemma_component_is_its_own_name(path.backslashes, m.file_name);
    assert(m == described(
        Some(m.file_name),
        m.file_size,
        modified_millis,
        m.sample_hash,
        m.file_hash,
    ));
    described_file_is_accepted(
        m.file_name,
        m.file_size,
        modified_millis,
        m.sample_hash,
        m.file_hash,
    );
    if paths::is_plain_name(m.file_name) {
        paths::lemma_plain_name_is_final(m.file_name);
    }
    assert(0 <= chunk_count(contents.len() as int, DEFAULT_CHUNK_SIZE as int) <= u64::MAX);
}

/// A file that has not changed is described alike each time, whatever pieces it is read in: two
/// descriptions of the same path, the same date and the same contents are equal, and so are the
/// identifiers of the transfers.
pub proof fn a_file_is_described_alike(
    path: FilePathView,
    modified_millis: Option<u64>,
    contents: Seq<u8>,
    first_pieces: Seq<Seq<u8>>,
    second_pieces: Seq<Seq<u8>>,
    first: FileMetadataView,
    second: FileMetadataView,
)
    requires
        contents.len() <= u64::MAX,
        first_pieces.flatten() == contents,
        second_pieces.flatten() == contents,
        first == described(
            path.file_name(),
            contents.len() as u64,
            modified_millis,
            text::hex_text(digest::sha256(sample_of(contents))),
            text::hex_text(digest::sha256(first_pieces.flatten())),
        ),
        second == described(
            path.file_name(),
            contents.len() as u64,
            modified_millis,
            text::hex_text(digest::sha256(sample_of(contents))),
            text::hex_text(digest::sha256(second_pieces.flatten())),
        ),
    ensures
        first == second,
        first.transfer_id == second.transfer_id,
        first == described_contents(path.file_name(), modified_millis, contents),
{
}

/// Chunk `index` of the contents; the last one may be short.
pub open spec fn chunk_of(contents: Seq<u8>, chunk_size: u64, index: u64) -> Seq<u8> {
    contents.subrange(
        index * chunk_size,
        least((index + 1) * chunk_size, contents.len() as int),
    )
}

/// A file after bytes were written to it at an offset. What lies between its end and the offset is
/// filled with zeros.
pub open spec fn written(file: Seq<u8>, offset: int, bytes: Seq<u8>) -> Seq<u8> {
    if bytes.len() == 0 {
        file
    } else {
        Seq::new(
            if offset + bytes.len() < file.len() {
                file.len()
            } else {
                (offset + bytes.len()) as nat
            },
            |i: int|
                if offset <= i < offset + bytes.len() {
                    bytes[i - offset]
                } else if i < file.len() {
                    file[i]
                } else {
                    0u8
                },
        )
    }
}

/// An empty file after the chunks of the contents were written to it in this order, each where its
/// index says.
pub open spec fn rebuilt(contents: Seq<u8>, chunk_size: u64, order: Seq<u64>) -> Seq<u8>
    decreases order.len(),
{
    if order.len() == 0 {
        Seq::empty()
    } else {
        let index = order.last();
        written(
            rebuilt(contents, chunk_size, order.drop_last()),
            chunk_start(index, chunk_size),
            chunk_of(contents, chunk_size, index),
        )
    }
}

/// A chunk lies in the contents, and holds the bytes whose place divided by its size is its index.
proof fn lemma_chunk_lies_in_the_file(len: int, chunk_size: u64, index: u64)
    requires
        0 < chunk_size,
        0 <= len <= u64::MAX,
        index < chunk_count(len, chunk_size as int),
    ensures
        0 <= index * chunk_size < len,
        (index + 1) * chunk_size == index * chunk_size + chunk_size,
        forall|i: int|
            0 <= i < len ==> (#[trigger] (i / chunk_size as int) == index <==> index * chunk_size
                <= i < index * chunk_size + chunk_size),
{
    let c = chunk_size as int;
    let k = index as int;
    vstd::arithmetic::div_mod::lemma_fundamental_div_mod(len, c);
    let q = len / c;
    assert(k * c < len) by (nonlinear_arith)
        requires
            c > 0,
            len == c * q + len % c,
            0 <= len % c < c,
            len % c == 0 ==> k <= q - 1,
            len % c != 0 ==> k <= q,
    ;
    assert(0 <= k * c) by (nonlinear_arith)
        requires
            c > 0,
            k >= 0,
    ;
    assert((k + 1) * c == k * c + c) by (nonlinear_arith);
    assert forall|i: int| 0 <= i < len implies (#[trigger] (i / c) == k <==> k * c <= i < k * c
        + c) by {
        vstd::arithmetic::div_mod::lemma_fundamental_div_mod(i, c);
        let p = i / c;
        if p == k {
            assert(c * p == k * c) by (nonlinear_arith)
                requires
                    p == k,
            ;
        } else if p < k {
            assert(c * p + c <= k * c) by (nonlinear_arith)
                requires
                    p + 1 <= k,
                    c > 0,
            ;
        } else {
            assert(k * c + c <= c * p) by (nonlinear_arith)
                requires
                    k + 1 <= p,
                    c > 0,
            ;
        }
    }
}

proof fn lemma_rebuilt(contents: Seq<u8>, chunk_size: u64, order: Seq<u64>)
    requires
        0 < chunk_size,
        contents.len() <= u64::MAX,
        forall|j: int|
            0 <= j < order.len() ==> #[trigger] order[j] < chunk_count(
                contents.len() as int,
                chunk_size as int,
            ),
    ensures
        ({
            let file = rebuilt(contents, chunk_size, order);
            &&& file.len() <= contents.len()
            &&& forall|i: int|
                0 <= i < contents.len() && order.contains(
                    #[trigger] ((i / chunk_size as int) as u64),
                ) ==> i < file.len() && file[i] == contents[i]
        }),
    decreases order.len(),
{
    if order.len() > 0 {
        let front = order.drop_last();
        let k = order.last();
        let c = chunk_size as int;
        let n = contents.len() as int;
        assert forall|j: int| 0 <= j < front.len() implies #[trigger] front[j] < chunk_count(n, c) by {
            assert(front[j] == order[j]);
        }
        assert(order[order.len() - 1] == k);
        lemma_rebuilt(contents, chunk_size, front);
        lemma_chunk_lies_in_the_file(n, chunk_size, k);
        let before = rebuilt(contents, chunk_size, front);
        let file = rebuilt(contents, chunk_size, order);
        let bytes = chunk_of(contents, chunk_size, k);
        assert(bytes.len() > 0);
        assert forall|i: int|
            0 <= i < n && order.contains(#[trigger] ((i / c) as u64)) implies i < file.len()
            && file[i] == contents[i] by {
            let p = i / c;
            vstd::arithmetic::div_mod::lemma_div_pos_is_pos(i, c);
            vstd::arithmetic::div_mod::lemma_div_nonincreasing(i, c);
            if p == k {
                assert(bytes[i - k * chunk_size] == contents[i]);
            } else {
                let j = order.index_of(p as u64);
                assert(front[j] == p as u64);
                assert(front.contains((i / c) as u64));
            }
        }
    }
}

/// The chunks of a file give it back, in whatever order they are written, and however often: once
/// each of them was written, an empty file holds the contents.
pub proof fn chunks_in_any_order_rebuild_the_file(
    contents: Seq<u8>,
    chunk_size: u64,
    order: Seq<u64>,
)
    requires
        0 < chunk_size,
        contents.len() <= u64::MAX,
        forall|j: int|
            0 <= j < order.len() ==> #[trigger] order[j] < chunk_count(
                contents.len() as int,
                chunk_size as int,
            ),
        forall|k: u64|
            k < chunk_count(contents.len() as int, chunk_size as int) ==> #[trigger] order.contains(
                k,
            ),
    ensures
        rebuilt(contents, chunk_size, order) == contents,
{
    let c = chunk_size as int;
    let n = contents.len() as int;
    let file = rebuilt(contents, chunk_size, order);
    lemma_rebuilt(contents, chunk_size, order);
    assert forall|i: int| 0 <= i < n implies i < file.len() && file[i] == contents[i] by {
        vstd::arithmetic::div_mod::lemma_div_pos_is_pos(i, c);
        vstd::arithmetic::div_mod::lemma_div_nonincreasing(i, c);
        vstd::arithmetic::div_mod::lemma_div_is_ordered(i, n, c);
        vstd::arithmetic::div_mod::lemma_fundamental_div_mod(i, c);
        vstd::arithmetic::div_mod::lemma_fundamental_div_mod(n, c);
        let k = (i / c) as u64;
        assert(k < chunk_count(n, c)) by {
            if n % c == 0 && i / c == n / c {
                assert(c * (i / c) == c * (n / c));
            }
        }
        assert(order.contains(k));
    }
    if n > 0 {
        assert(file[n - 1] == contents[n - 1]);
    }
    assert(file =~= contents);
}

/// An offer is taken exactly where it names a file, its chunks are neither empty nor too long, and
/// so many of them just hold the file. It is taken as it is, but for the name, which is the one that
/// its path ends in.
pub proof fn good_offers_are_taken_as_they_are(m: FileMetadataView, name: Seq<char>)
    ensures
        ({
            let (kept, outcome) = offer_outcome(m, Some(name));
            let holds = m.file_size <= m.total_chunks * m.chunk_size && (m.total_chunks == 0
                || (m.total_chunks - 1) * m.chunk_size < m.file_size);
            &&& outcome is Ok <==> name.len() > 0 && 0 < m.chunk_size <= 4194304 && holds
            &&& outcome is Ok ==> kept == (FileMetadataView { file_name: name, ..m })
        }),
        offer_outcome(m, None).1 is Err,
        offer_outcome(m, None).0 == m,
{
    if name.len() > 0 && 0 < m.chunk_size <= 4194304 {
        lemma_chunk_count(m.file_size as int, m.chunk_size as int, m.total_chunks as int);
    }
}

/// So many chunks just hold the file exactly where they are counted right.
proof fn lemma_chunk_count(size: int, c: int, n: int)
    requires
        c > 0,
        size >= 0,
        n >= 0,
    ensures
        n == chunk_count(size, c) <==> size <= n * c && (n == 0 || (n - 1) * c < size),
{
    let q = size / c;
    let r = size % c;
    vstd::arithmetic::div_mod::lemma_fundamental_div_mod(size, c);
    vstd::arithmetic::div_mod::lemma_div_pos_is_pos(size, c);
    assert((n - 1) * c == n * c - c) by (nonlinear_arith);
    assert(c * q == q * c) by (nonlinear_arith);
    if n == q {
        assert(n * c == q * c);
        if n > 0 {
            assert(r == 0 ==> (n - 1) * c < size);
        }
    } else if n == q + 1 {
        assert(n * c == q * c + c) by (nonlinear_arith)
            requires
                n == q + 1,
        ;
    } else if n < q {
        assert(n * c + c <= q * c) by (nonlinear_arith)
            requires
                n + 1 <= q,
                c > 0,
        ;
    } else {
        assert(n * c >= q * c + 2 * c) by (nonlinear_arith)
            requires
                n >= q + 2,
                c > 0,
        ;
    }
}

/// Each chunk starts where the one before it ends, the first at the start of the file; a chunk that
/// names another place than its own is not written.
pub proof fn chunks_lie_one_behind_the_other(index: u64, offset: u64, chunk_size: u64)
    requires
        (index + 1) * chunk_size <= u64::MAX,
        index < u64::MAX,
    ensures
        chunk_start(0, chunk_size) == 0,
        chunk_start((index + 1) as u64, chunk_size) == chunk_start(index, chunk_size) + chunk_size,
        place_of(index, offset, chunk_size) is Some <==> offset == index * chunk_size,
        place_of(index, offset, chunk_size) is Some ==> place_of(index, offset, chunk_size) == Some(
            offset,
        ),
{
    assert((index + 1) * chunk_size == index * chunk_size + chunk_size) by (nonlinear_arith);
    assert(0 * chunk_size == 0);
    assert(index * chunk_size >= 0) by (nonlinear_arith);
}

/// As many bytes are done as the chunks that are done hold: none at first, a chunk's more with each,
/// and the whole file with the last, which may be short.
pub proof fn bytes_are_those_of_the_chunks(m: FileMetadataView, n: int)
    requires
        0 <= n,
        m.chunk_size > 0,
    ensures
        m.bytes_for_chunks(0) == 0,
        (n + 1) * m.chunk_size <= m.file_size ==> m.bytes_for_chunks(n + 1) == m.bytes_for_chunks(n)
            + m.chunk_size,
        m.bytes_for_chunks(n) <= m.file_size,
        m.bytes_for_chunks(chunk_count(m.file_size as int, m.chunk_size as int)) == m.file_size,
{
    let c = m.chunk_size as int;
    let size = m.file_size as int;
    assert((n + 1) * c == n * c + c) by (nonlinear_arith);
    assert(0 * c == 0);
    vstd::arithmetic::div_mod::lemma_div_pos_is_pos(size, c);
    lemma_chunk_count(size, c, chunk_count(size, c));
}

/// A record begins with nothing done: the sender's with where the file is, on offer, and the
/// receiver's with where it goes and grows, under way. A transfer is complete where it is marked so
/// or every chunk is done.
pub proof fn records_begin_with_nothing_done(
    m: FileMetadataView,
    source: Seq<char>,
    output: Seq<char>,
    temp: Seq<char>,
    r: TransferManifestView,
)
    ensures
        ({
            let s = TransferManifestView::sender(m, source);
            let t = TransferManifestView::receiver(m, output, temp);
            &&& s.metadata == m && t.metadata == m
            &&& s.direction == TransferDirection::Send && t.direction == TransferDirection::Receive
            &&& s.status == TransferStatus::Offered && t.status == TransferStatus::Accepted
            &&& s.source_path == Some(source) && s.output_path is None && s.temp_path is None
            &&& t.source_path is None && t.output_path == Some(output) && t.temp_path == Some(temp)
            &&& s.completed_chunks.len() == 0 && t.completed_chunks.len() == 0
            &&& s.failure is None && t.failure is None
            &&& s.version == 1 && t.version == 1
        }),
        r.is_complete() <==> r.status == TransferStatus::Complete || r.done().len()
            >= r.metadata.total_chunks,
        r.completed_bytes() == r.metadata.bytes_for_chunks(r.done().len() as int),
{
}

/// The sample of a file holds its first bytes and its last, four kibibytes of each, or all of it
/// where it has no more than that.
pub proof fn samples_hold_both_ends(contents: Seq<u8>)
    requires
        contents.len() <= u64::MAX,
    ensures
        contents.len() <= 4096 ==> sample_of(contents) == contents,
        contents.len() > 4096 ==> sample_of(contents) == contents.take(4096) + contents.skip(
            contents.len() - 4096,
        ),
{
    let n = contents.len() as int;
    let parts = sample_parts(n as u64);
    reveal_with_fuel(gathered, 3);
    if n == 0 {
        assert(sample_of(contents) =~= contents);
    } else if n <= 4096 {
        assert(parts.drop_last() =~= Seq::empty());
        assert(sample_of(contents) =~= contents);
    } else {
        assert(parts.drop_last() =~= seq![(0u64, 4096u64)]);
        assert(parts.drop_last().drop_last() =~= Seq::empty());
        assert(sample_of(contents) =~= contents.take(4096) + contents.skip(n - 4096));
    }
}

proof fn lemma_optional_number(a: Option<u64>, b: Option<u64>)
    requires
        optional_number_text(a) == optional_number_text(b),
    ensures
        a == b,
{
    reveal_strlit("Some(");
    reveal_strlit("None");
    reveal_strlit(")");
    match (a, b) {
        (Some(m), Some(n)) => {
            let s = text::decimal_text(m as nat);
            let t = text::decimal_text(n as nat);
            let x = optional_number_text(a);
            let y = optional_number_text(b);
            assert(x.len() == 6 + s.len());
            assert(y.len() == 6 + t.len());
            assert(s =~= x.subrange(5, 5 + s.len() as int));
            assert(t =~= y.subrange(5, 5 + t.len() as int));
            text::decimal_tells_numbers_apart(m as nat, n as nat);
        },
        (Some(_), None) => {
            assert(optional_number_text(a)[0] == "Some("@[0]);
            assert("None"@[0] != "Some("@[0]);
        },
        (None, Some(_)) => {
            assert(optional_number_text(b)[0] == "Some("@[0]);
            assert("None"@[0] != "Some("@[0]);
        },
        (None, None) => {},
    }
}

/// The text between a head and a tail.
proof fn lemma_between(head: Seq<char>, a: Seq<char>, b: Seq<char>, tail: Seq<char>)
    requires
        head + a + tail == head + b + tail,
    ensures
        a == b,
{
    let x = head + a + tail;
    let y = head + b + tail;
    assert(x.len() == head.len() + a.len() + tail.len());
    assert(y.len() == head.len() + b.len() + tail.len());
    let start = head.len() as int;
    assert(a =~= x.subrange(start, start + a.len()));
    assert(b =~= y.subrange(start, start + b.len()));
}

/// What a transfer is identified by holds all of it: files that differ in one of name, size, date
/// and sample alone are told apart, before they are hashed.
pub proof fn each_part_of_the_seed_counts(
    name: Seq<char>,
    size: u64,
    modified: Option<u64>,
    sample: Seq<char>,
    other_name: Seq<char>,
    other_size: u64,
    other_modified: Option<u64>,
    other_sample: Seq<char>,
)
    ensures
        name != other_name ==> transfer_seed(name, size, modified, sample) != transfer_seed(
            other_name,
            size,
            modified,
            sample,
        ),
        size != other_size ==> transfer_seed(name, size, modified, sample) != transfer_seed(
            name,
            other_size,
            modified,
            sample,
        ),
        modified != other_modified ==> transfer_seed(name, size, modified, sample) != transfer_seed(
            name,
            size,
            other_modified,
            sample,
        ),
        sample != other_sample ==> transfer_seed(name, size, modified, sample) != transfer_seed(
            name,
            size,
            modified,
            other_sample,
        ),
{
    let none = Seq::<char>::empty();
    let d = text::decimal_text(size as nat);
    let e = text::decimal_text(other_size as nat);
    let o = optional_number_text(modified);
    let p = optional_number_text(other_modified);
    let seed = transfer_seed(name, size, modified, sample);
    let rest = ":"@ + d + ":"@ + o + ":"@ + sample;
    assert(seed =~= none + name + rest);
    assert(transfer_seed(other_name, size, modified, sample) =~= none + other_name + rest);
    if seed == transfer_seed(other_name, size, modified, sample) {
        lemma_between(none, name, other_name, rest);
    }
    let behind = ":"@ + o + ":"@ + sample;
    assert(seed =~= (name + ":"@) + d + behind);
    assert(transfer_seed(name, other_size, modified, sample) =~= (name + ":"@) + e + behind);
    if seed == transfer_seed(name, other_size, modified, sample) {
        lemma_between(name + ":"@, d, e, behind);
        text::decimal_tells_numbers_apart(size as nat, other_size as nat);
    }
    let front = name + ":"@ + d + ":"@;
    assert(seed =~= front + o + (":"@ + sample));
    assert(transfer_seed(name, size, other_modified, sample) =~= front + p + (":"@ + sample));
    if seed == transfer_seed(name, size, other_modified, sample) {
        lemma_between(front, o, p, ":"@ + sample);
        lemma_optional_number(modified, other_modified);
    }
    let head = front + o + ":"@;
    assert(seed =~= head + sample + none);
    assert(transfer_seed(name, size, modified, other_sample) =~= head + other_sample + none);
    if seed == transfer_seed(name, size, modified, other_sample) {
        lemma_between(head, sample, other_sample, none);
    }
}

/// Two transfers go by one identifier exactly where the digests of all that identifies them begin
/// alike; an identifier is a word and twenty-four hexadecimal digits.
pub proof fn identifiers_come_from_the_whole_seed(
    name: Seq<char>,
    size: u64,
    modified: Option<u64>,
    sample: Seq<char>,
    other_name: Seq<char>,
    other_size: u64,
    other_modified: Option<u64>,
    other_sample: Seq<char>,
    seed: Seq<u8>,
    other_seed: Seq<u8>,
)
    requires
        seed == vstd::utf8::encode_utf8(transfer_seed(name, size, modified, sample)),
        other_seed == vstd::utf8::encode_utf8(
            transfer_seed(other_name, other_size, other_modified, other_sample),
        ),
        digest::sha256(seed).len() == 32,
    ensures
        transfer_id(name, size, modified, sample) == transfer_id(
            other_name,
            other_size,
            other_modified,
            other_sample,
        ) <==> text::hex_text(digest::sha256(seed)).take(24) == text::hex_text(
            digest::sha256(other_seed),
        ).take(24),
        transfer_id(name, size, modified, sample).len() == 29,
        "file-"@.is_prefix_of(transfer_id(name, size, modified, sample)),
{
    let a = text::hex_text(digest::sha256(seed)).take(24);
    let b = text::hex_text(digest::sha256(other_seed)).take(24);
    reveal_strlit("file-");
    text::lemma_hex_text_len(digest::sha256(seed));
    assert(("file-"@ + a).skip(5) =~= a);
    assert(("file-"@ + b).skip(5) =~= b);
    assert(("file-"@ + a).subrange(0, 5) =~= "file-"@);
}

}
