use p2p_signaling::candidates::certificate_hash;
use p2p_signaling::digest::{sha256_hex, ContentHash};
use p2p_signaling::paths::FilePath;
use p2p_signaling::ranges::{ChunkRange, RangeSet};
use p2p_signaling::text::bytes_to_hex;
use p2p_signaling::transfer::{
    check_offer, checked_offset, chunk_offset, count_chunks, describe_contents, describe_file,
    describe_named, part_path, sample_plan, transfer_id_for, validate_offer_metadata,
    FileMetadata, RawChunk, TransferDirection, TransferManifest, TransferStatus, TransferStore,
    DEFAULT_CHUNK_SIZE, MAX_CHUNK_SIZE,
};

fn metadata(file_name: &str, file_size: u64, chunk_size: u64, total_chunks: u64) -> FileMetadata {
    FileMetadata {
        transfer_id: "file-test".into(),
        file_name: file_name.into(),
        file_size,
        chunk_size,
        total_chunks,
        modified_millis: None,
        sample_hash: "sample".into(),
        file_hash: "hash".into(),
    }
}

fn part_text(path: &str) -> String {
    part_path(&FilePath::new(path)).to_text()
}

#[test]
fn ranges_merge_and_report_missing_chunks() {
    let mut set = RangeSet::default();
    set.insert(2);
    set.insert(0);
    set.insert(1);
    set.insert_range(ChunkRange::new(5, 7));

    assert_eq!(
        set.ranges(),
        &[ChunkRange::new(0, 3), ChunkRange::new(5, 7)]
    );
    assert_eq!(
        set.missing_ranges(8),
        vec![ChunkRange::new(3, 5), ChunkRange::new(7, 8)]
    );
}

#[test]
fn offer_metadata_validation_rejects_malicious_values() {
    let make = |file_name: &str, file_size: u64, chunk_size: u64, total_chunks: u64| FileMetadata {
        transfer_id: "file-test".into(),
        file_name: file_name.into(),
        file_size,
        chunk_size,
        total_chunks,
        modified_millis: None,
        sample_hash: "sample".into(),
        file_hash: "hash".into(),
    };

    let mut valid = make("a.bin", DEFAULT_CHUNK_SIZE + 1, DEFAULT_CHUNK_SIZE, 2);
    assert!(validate_offer_metadata(&mut valid).is_ok());

    let mut zero_chunk_size = make("a.bin", 10, 0, 1);
    assert!(validate_offer_metadata(&mut zero_chunk_size).is_err());

    let mut oversized_chunk = make("a.bin", 10, MAX_CHUNK_SIZE + 1, 1);
    assert!(validate_offer_metadata(&mut oversized_chunk).is_err());

    let mut mismatched_chunks = make("a.bin", DEFAULT_CHUNK_SIZE, DEFAULT_CHUNK_SIZE, 999);
    assert!(validate_offer_metadata(&mut mismatched_chunks).is_err());

    let mut traversal = make("../../evil.bin", 10, DEFAULT_CHUNK_SIZE, 1);
    assert!(validate_offer_metadata(&mut traversal).is_ok());
    assert_eq!(traversal.file_name, "evil.bin");

    let mut parent_only = make("..", 10, DEFAULT_CHUNK_SIZE, 1);
    assert!(validate_offer_metadata(&mut parent_only).is_err());
}

#[test]
fn ranges_in_any_order_make_one_set() {
    let mut a = RangeSet::new();
    a.insert_range(ChunkRange::new(4, 9));
    a.insert_range(ChunkRange::new(0, 2));
    a.insert_range(ChunkRange::new(2, 4));
    a.insert_range(ChunkRange::new(7, 7));
    let b = RangeSet::from_ranges(vec![ChunkRange::new(3, 9), ChunkRange::new(0, 5)]);
    assert_eq!(a.ranges(), b.ranges());
    assert_eq!(a.ranges(), &[ChunkRange::new(0, 9)]);
    assert_eq!(a.completed_chunks(), 9);
    assert!(a.missing_ranges(9).is_empty());
    assert_eq!(b.into_ranges(), vec![ChunkRange::new(0, 9)]);
    assert!(ChunkRange::new(3, 3).is_empty());
}

#[test]
fn an_empty_file_is_complete_at_once() {
    let described = describe_file(&FilePath::new("/tmp/empty.bin"), 0, None, String::new(), String::new());
    assert_eq!(described.total_chunks, 0);
    assert_eq!(described.file_size, 0);
    let manifest = TransferManifest::new_receiver(described, FilePath::new("/tmp/saved.bin"));
    assert!(manifest
        .completed_set()
        .missing_ranges(manifest.metadata.total_chunks)
        .is_empty());
    assert!(manifest.is_complete());
}

#[test]
fn a_described_file_is_accepted_and_keeps_its_identifier() {
    let first = describe_file(
        &FilePath::new("/tmp/sample.txt"),
        11,
        Some(1_788_888_888_000),
        "5a".into(),
        "c3".into(),
    );
    let second = describe_named(
        Some("sample.txt".into()),
        11,
        Some(1_788_888_888_000),
        "5a".into(),
        "c3".into(),
    );
    assert_eq!(first.transfer_id, second.transfer_id);
    assert_eq!(first.file_name, "sample.txt");
    assert_eq!(first.total_chunks, 1);
    assert_eq!(
        first.transfer_id,
        transfer_id_for("sample.txt", 11, Some(1_788_888_888_000), "5a")
    );
    assert_ne!(
        first.transfer_id,
        transfer_id_for("sample.txt", 12, Some(1_788_888_888_000), "5a")
    );
    let mut offered = first.clone();
    assert!(validate_offer_metadata(&mut offered).is_ok());
    assert_eq!(offered.file_name, "sample.txt");
}

#[test]
fn digests_are_written_in_hexadecimal() {
    assert_eq!(
        sha256_hex(b"abc"),
        "ba7816bf8f01cfea414140de5dae2223b00361a396177a9cb410ff61f20015ad"
    );
    assert_eq!(
        sha256_hex(b""),
        "e3b0c44298fc1c149afbf4c8996fb92427ae41e4649b934ca495991b7852b855"
    );
    assert_eq!(bytes_to_hex(&[0x00, 0x0f, 0xa0, 0xff]), "000fa0ff");
    assert_eq!(
        certificate_hash(b"abc"),
        sha256_hex(b"abc")
    );
}

#[test]
fn names_that_lead_elsewhere_are_cut_to_their_end() {
    let mut deep = metadata("/etc/passwd", 10, DEFAULT_CHUNK_SIZE, 1);
    assert!(validate_offer_metadata(&mut deep).is_ok());
    assert_eq!(deep.file_name, "passwd");
    let mut none = metadata("a.bin", 10, DEFAULT_CHUNK_SIZE, 1);
    assert!(check_offer(&mut none, None).is_err());
    let mut blank = metadata("a.bin", 10, DEFAULT_CHUNK_SIZE, 1);
    assert!(check_offer(&mut blank, Some(String::new())).is_err());
}

#[test]
fn chunks_lie_one_behind_the_other() {
    assert_eq!(chunk_offset(3, 32 * 1024), 98304);
    assert_eq!(chunk_offset(u64::MAX, 2), u64::MAX);
    let chunk = RawChunk { index: 2, offset: 65536, bytes: vec![1] };
    assert_eq!(checked_offset(&chunk, 32 * 1024), Ok(65536));
    let moved = RawChunk { index: 2, offset: 65537, bytes: vec![1] };
    assert!(checked_offset(&moved, 32 * 1024).is_err());
    assert_eq!(count_chunks(70_000, 32 * 1024), 3);
    assert_eq!(count_chunks(0, 32 * 1024), 0);
    assert_eq!(count_chunks(65536, 32 * 1024), 2);
}

#[test]
fn bytes_of_chunks_never_exceed_the_file() {
    let m = metadata("a.bin", 70_000, 32 * 1024, 3);
    assert_eq!(m.bytes_for_chunks(0), 0);
    assert_eq!(m.bytes_for_chunks(2), 65536);
    assert_eq!(m.bytes_for_chunks(3), 70_000);
    let mut manifest = TransferManifest::new_sender(m, "/tmp/a.bin".into());
    assert_eq!(manifest.direction, TransferDirection::Send);
    assert_eq!(manifest.status, TransferStatus::Offered);
    assert_eq!(manifest.completed_bytes(), 0);
    assert!(!manifest.is_complete());
    manifest.completed_chunks = vec![ChunkRange::new(0, 1)];
    assert_eq!(manifest.completed_bytes(), 32768);
    manifest.completed_chunks = vec![ChunkRange::new(0, 3)];
    assert!(manifest.is_complete());
    assert_eq!(manifest.completed_bytes(), 70_000);
}

#[test]
fn records_lie_in_their_store() {
    let store = TransferStore::new("/data/transfers".into());
    assert_eq!(store.root(), "/data/transfers");
    assert_eq!(store.manifest_path("file-1"), "/data/transfers/file-1.json");
    assert!(TransferStore::platform_default(None).is_err());
    let usual = TransferStore::platform_default(Some("/home/u/.local/share".into())).unwrap();
    assert!(usual.root().starts_with("/home/u/.local/share/"));
    assert_eq!(part_text("/tmp/a.bin"), "/tmp/a.bin.part");
}

#[test]
fn samples_lie_in_the_file() {
    assert!(sample_plan(0).is_empty());
    assert_eq!(sample_plan(5000), vec![(0, 4096), (904, 4096)]);
    for size in [1, 4096, 4097, 8192, 8193, 1_000_000] {
        let plan = sample_plan(size);
        assert!(!plan.is_empty());
        for (offset, len) in plan {
            assert!(len > 0);
            assert!(offset + len <= size);
        }
    }
}

/// What is gathered of the parts of a file that its sample holds.
fn sample_of(bytes: &[u8]) -> ContentHash {
    let mut hash = ContentHash::new();
    for (offset, len) in sample_plan(bytes.len() as u64) {
        hash.update(&bytes[offset as usize..(offset + len) as usize]);
    }
    hash
}

/// What is gathered of a file that is read in pieces of some length.
fn contents_of(bytes: &[u8], piece: usize) -> ContentHash {
    let mut hash = ContentHash::new();
    for part in bytes.chunks(piece) {
        hash.update(part);
    }
    hash
}

fn described(path: &str, bytes: &[u8]) -> FileMetadata {
    describe_contents(
        &FilePath::new(path),
        bytes.len() as u64,
        Some(1_788_888_888_000),
        sample_of(bytes),
        contents_of(bytes, 1024),
    )
}

fn chunk_at(bytes: &[u8], index: u64, chunk_size: u64) -> RawChunk {
    let offset = chunk_offset(index, chunk_size);
    let end = (offset + chunk_size).min(bytes.len() as u64);
    RawChunk {
        index,
        offset,
        bytes: bytes[offset as usize..end as usize].to_vec(),
    }
}

#[test]
fn contents_are_hashed_in_pieces() {
    assert_eq!(contents_of(b"abc", 1).finish(), sha256_hex(b"abc"));
    assert_eq!(ContentHash::new().finish(), sha256_hex(b""));
    let bytes: Vec<u8> = (0..3_000_000u32).map(|value| (value % 251) as u8).collect();
    assert_eq!(contents_of(&bytes, 1024 * 1024).finish(), sha256_hex(&bytes));
    assert_eq!(contents_of(&bytes, 77_777).finish(), sha256_hex(&bytes));
}

#[test]
fn metadata_transfer_id_is_stable_for_same_file() {
    let first = described("/tmp/sample.txt", b"hello world");
    let second = described("/tmp/sample.txt", b"hello world");
    assert_eq!(first.transfer_id, second.transfer_id);
    assert_eq!(first.total_chunks, 1);
    assert_eq!(first.file_name, "sample.txt");
    assert_eq!(first.file_hash, sha256_hex(b"hello world"));
    assert_eq!(first.sample_hash, sha256_hex(b"hello world"));
    assert_ne!(
        first.transfer_id,
        described("/tmp/sample.txt", b"hello World").transfer_id
    );
}

#[test]
fn a_long_file_is_sampled_at_its_ends() {
    let bytes: Vec<u8> = (0..70_000u32).map(|value| (value % 251) as u8).collect();
    let described = described("/tmp/source.bin", &bytes);
    let mut ends = bytes[..4096].to_vec();
    ends.extend_from_slice(&bytes[70_000 - 4096..]);
    assert_eq!(described.sample_hash, sha256_hex(&ends));
    assert_eq!(described.file_hash, sha256_hex(&bytes));
    assert_eq!(described.total_chunks, count_chunks(70_000, DEFAULT_CHUNK_SIZE));
}

#[test]
fn zero_byte_file_has_no_chunks_and_counts_as_complete() {
    let metadata = described("/tmp/empty.bin", b"");
    assert_eq!(metadata.total_chunks, 0);
    assert_eq!(metadata.file_size, 0);

    let manifest = TransferManifest::new_receiver(metadata, FilePath::new("/tmp/saved.bin"));
    assert!(manifest
        .completed_set()
        .missing_ranges(manifest.metadata.total_chunks)
        .is_empty());
    assert!(manifest.is_complete());
    assert_eq!(manifest.temp_path.as_deref(), Some("/tmp/saved.bin.part"));
}

#[test]
fn chunks_write_out_of_order_and_rebuild_file_hash() {
    let chunk_size = 32 * 1024;
    let bytes = (0..70_000)
        .map(|value| (value % 251) as u8)
        .collect::<Vec<_>>();
    let second = chunk_at(&bytes, 1, chunk_size);
    let first = chunk_at(&bytes, 0, chunk_size);
    let third = chunk_at(&bytes, 2, chunk_size);

    let mut output: Vec<u8> = Vec::new();
    for chunk in [second, first, third] {
        let offset = checked_offset(&chunk, chunk_size).unwrap() as usize;
        let end = offset + chunk.bytes.len();
        if output.len() < end {
            output.resize(end, 0);
        }
        output[offset..end].copy_from_slice(&chunk.bytes);
    }

    assert_eq!(
        contents_of(&bytes, 1024 * 1024).finish(),
        contents_of(&output, 1024 * 1024).finish()
    );
}

#[test]
fn a_growing_file_lies_beside_its_place() {
    for path in [
        "/tmp/a.bin",
        "a.bin",
        "C:\\dir\\a.bin",
        "/a.bin",
        "./a.bin",
        ".hidden",
        "dir/.hidden",
        "a.tar.gz",
        "文件",
    ] {
        assert_eq!(part_text(path), format!("{path}.part"));
    }
    for path in ["/", "..", "dir/..", ""] {
        let grown = part_text(path);
        let name = grown.rsplit('/').next().unwrap();
        assert_eq!(name.len(), 36 + 5);
        assert!(name.ends_with(".part"));
        assert!(grown.starts_with(path));
    }
}

#[test]
fn names_with_drives_are_cut_to_their_end() {
    let mut drive = metadata("C:/../../evil.bin", 10, DEFAULT_CHUNK_SIZE, 1);
    assert!(validate_offer_metadata(&mut drive).is_ok());
    assert_eq!(drive.file_name, "evil.bin");
    let mut server = metadata("//server/share/evil.bin", 10, DEFAULT_CHUNK_SIZE, 1);
    assert!(validate_offer_metadata(&mut server).is_ok());
    assert_eq!(server.file_name, "evil.bin");
    let mut directory = metadata("a/b/", 10, DEFAULT_CHUNK_SIZE, 1);
    assert!(validate_offer_metadata(&mut directory).is_ok());
    assert_eq!(directory.file_name, "b");
    let mut dots = metadata("a/b/.", 10, DEFAULT_CHUNK_SIZE, 1);
    assert!(validate_offer_metadata(&mut dots).is_ok());
    assert_eq!(dots.file_name, "b");
    let mut root = metadata("/", 10, DEFAULT_CHUNK_SIZE, 1);
    assert!(validate_offer_metadata(&mut root).is_err());
}

#[test]
fn a_store_may_end_in_a_separator() {
    let store = TransferStore::new("/data/transfers/".into());
    assert_eq!(store.manifest_path("file-1"), "/data/transfers/file-1.json");
    let bare = TransferStore::new(String::new());
    assert_eq!(bare.manifest_path("file-1"), "file-1.json");
    let usual = TransferStore::platform_default(Some("/data/".into())).unwrap();
    assert_eq!(usual.root(), "/data/p2p-signaling/transfers");
}

#[test]
fn separators_and_dots_around_a_name_go() {
    for (path, part) in [
        ("/tmp//a.bin", "/tmp/a.bin.part"),
        ("/tmp/a.bin/", "/tmp/a.bin.part"),
        ("/tmp/a.bin/.", "/tmp/a.bin.part"),
        ("/tmp/./a.bin//./", "/tmp/a.bin.part"),
        ("/tmp/12:30.bin", "/tmp/12:30.bin.part"),
        ("//tmp/a.bin", "//tmp/a.bin.part"),
        ("//a.bin", "/a.bin.part"),
        ("/./a.bin", "/a.bin.part"),
        ("././a.bin", "./a.bin.part"),
        ("a.bin/", "a.bin.part"),
        ("../a.bin", "../a.bin.part"),
        ("a/../b", "a/../b.part"),
        ("..a/b.", "..a/b..part"),
        ("x\\/a.bin", "x\\/a.bin.part"),
    ] {
        assert_eq!(part_text(path), part);
        let manifest = TransferManifest::new_receiver(
            metadata("a.bin", 10, DEFAULT_CHUNK_SIZE, 1),
            FilePath::new(path),
        );
        assert_eq!(manifest.output_path.as_deref(), Some(path));
        assert_eq!(manifest.temp_path.as_deref(), Some(part));
    }
}

#[test]
fn a_path_tells_its_file_name() {
    assert_eq!(FilePath::new("/tmp/a.bin/.").file_name().as_deref(), Some("a.bin"));
    assert_eq!(FilePath::new("/tmp/..").file_name(), None);
    assert_eq!(FilePath::new("/tmp/a.bin").with_file_name("b").to_text(), "/tmp/b");
    assert_eq!(FilePath::new("/").with_file_name("b").to_text(), "/b");
}

#[test]
fn identifiers_lead_from_the_store() {
    let store = TransferStore::new("/data/transfers".into());
    assert_eq!(store.manifest_path("../x"), "/data/transfers/../x.json");
    assert_eq!(store.manifest_path("a/b"), "/data/transfers/a/b.json");
    assert_eq!(store.manifest_path("12:30"), "/data/transfers/12:30.json");
    assert_eq!(store.manifest_path(""), "/data/transfers/.json");
    assert_eq!(store.manifest_path("/etc/x"), "/etc/x.json");
}

#[test]
fn a_file_is_described_alike_whatever_its_path() {
    for path in ["/tmp/sample.txt", "C:\\dir\\sample.txt", "x\\y/a:b", "/", "//s/h/f"] {
        let path = FilePath::new(path);
        let bytes = b"hello world";
        let describe = |piece: usize| {
            describe_contents(
                &path,
                11,
                None,
                sample_of(bytes),
                contents_of(bytes, piece),
            )
        };
        let first = describe(1);
        assert_eq!(first, describe(4));
        let mut offered = first.clone();
        assert!(validate_offer_metadata(&mut offered).is_ok());
        assert_eq!(offered, first);
    }
}
