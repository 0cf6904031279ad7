//! The messages of a direct link and how they are framed.
use crate::ranges::ChunkRange;
use crate::remote_desktop::{
    DesktopError, RemoteDesktopControl, RemoteDesktopControlView, RemoteDesktopFrame,
    RemoteDesktopFrameHeader, RemoteDesktopFrameHeaderView, RemoteDesktopFrameView,
    REMOTE_DESKTOP_STREAM_TYPE,
};
use crate::text;
use crate::transfer::{FileMetadata, FileMetadataView};
use vstd::prelude::*;

verus! {

/// The longest message on the control stream.
pub const MAX_FRAME_LEN: usize = 65536;

/// The longest header of a stream of its own.
pub const MAX_STREAM_HEADER_LEN: usize = 4096;

/// What two peers say to each other on the control stream of a direct link.
#[derive(Debug, PartialEq, Eq)]
pub enum P2pMessage {
    Hello { token: String },
    Ping,
    Pong,
    Chat { text: String },
    FileOffer { metadata: FileMetadata },
    FileAccept { transfer_id: String, completed_chunks: Vec<ChunkRange> },
    FileReject { transfer_id: String, reason: String },
    FileResume { transfer_id: String, completed_chunks: Vec<ChunkRange> },
    FileAck { transfer_id: String, chunks: Vec<ChunkRange> },
    FileComplete { transfer_id: String },
    FileCancel { transfer_id: String, reason: String },
    RemoteDesktop { message: RemoteDesktopControl },
}

#[verifier::ext_equal]
pub enum P2pMessageView {
    Hello { token: Seq<char> },
    Ping,
    Pong,
    Chat { text: Seq<char> },
    FileOffer { metadata: FileMetadataView },
    FileAccept { transfer_id: Seq<char>, completed_chunks: Seq<ChunkRange> },
    FileReject { transfer_id: Seq<char>, reason: Seq<char> },
    FileResume { transfer_id: Seq<char>, completed_chunks: Seq<ChunkRange> },
    FileAck { transfer_id: Seq<char>, chunks: Seq<ChunkRange> },
    FileComplete { transfer_id: Seq<char> },
    FileCancel { transfer_id: Seq<char>, reason: Seq<char> },
    RemoteDesktop { message: RemoteDesktopControlView },
}

impl View for P2pMessage {
    type V = P2pMessageView;

    open spec fn view(&self) -> P2pMessageView {
        match self {
            P2pMessage::Hello { token } => P2pMessageView::Hello { token: token@ },
            P2pMessage::Ping => P2pMessageView::Ping,
            P2pMessage::Pong => P2pMessageView::Pong,
            P2pMessage::Chat { text } => P2pMessageView::Chat { text: text@ },
            P2pMessage::FileOffer { metadata } => P2pMessageView::FileOffer { metadata: metadata@ },
            P2pMessage::FileAccept { transfer_id, completed_chunks } => P2pMessageView::FileAccept {
                transfer_id: transfer_id@,
                completed_chunks: completed_chunks@,
            },
            P2pMessage::FileReject { transfer_id, reason } => P2pMessageView::FileReject {
                transfer_id: transfer_id@,
                reason: reason@,
            },
            P2pMessage::FileResume { transfer_id, completed_chunks } => P2pMessageView::FileResume {
                transfer_id: transfer_id@,
                completed_chunks: completed_chunks@,
            },
            P2pMessage::FileAck { transfer_id, chunks } => P2pMessageView::FileAck {
                transfer_id: transfer_id@,
                chunks: chunks@,
            },
            P2pMessage::FileComplete { transfer_id } => P2pMessageView::FileComplete {
                transfer_id: transfer_id@,
            },
            P2pMessage::FileCancel { transfer_id, reason } => P2pMessageView::FileCancel {
                transfer_id: transfer_id@,
                reason: reason@,
            },
            P2pMessage::RemoteDesktop { message } => P2pMessageView::RemoteDesktop {
                message: message@,
            },
        }
    }
}

impl Clone for P2pMessage {
    fn clone(&self) -> (r: Self)
        ensures
            r@ == self@,
    {
        match self {
            P2pMessage::Hello { token } => P2pMessage::Hello { token: token.clone() },
            P2pMessage::Ping => P2pMessage::Ping,
            P2pMessage::Pong => P2pMessage::Pong,
            P2pMessage::Chat { text } => P2pMessage::Chat { text: text.clone() },
            P2pMessage::FileOffer { metadata } => P2pMessage::FileOffer {
                metadata: metadata.clone(),
            },
            P2pMessage::FileAccept { transfer_id, completed_chunks } => P2pMessage::FileAccept {
                transfer_id: transfer_id.clone(),
                completed_chunks: completed_chunks.clone(),
            },
            P2pMessage::FileReject { transfer_id, reason } => P2pMessage::FileReject {
                transfer_id: transfer_id.clone(),
                reason: reason.clone(),
            },
            P2pMessage::FileResume { transfer_id, completed_chunks } => P2pMessage::FileResume {
                transfer_id: transfer_id.clone(),
                completed_chunks: completed_chunks.clone(),
            },
            P2pMessage::FileAck { transfer_id, chunks } => P2pMessage::FileAck {
                transfer_id: transfer_id.clone(),
                chunks: chunks.clone(),
            },
            P2pMessage::FileComplete { transfer_id } => P2pMessage::FileComplete {
                transfer_id: transfer_id.clone(),
            },
            P2pMessage::FileCancel { transfer_id, reason } => P2pMessage::FileCancel {
                transfer_id: transfer_id.clone(),
                reason: reason.clone(),
            },
            P2pMessage::RemoteDesktop { message } => P2pMessage::RemoteDesktop {
                message: message.clone(),
            },
        }
    }
}

/// What precedes the chunks on a stream of its own.
#[derive(Debug, PartialEq, Eq)]
pub struct FileStreamHeader {
    pub transfer_id: String,
    pub start_chunk: u64,
    pub end_chunk: u64,
}

#[verifier::ext_equal]
pub struct FileStreamHeaderView {
    pub transfer_id: Seq<char>,
    pub start_chunk: u64,
    pub end_chunk: u64,
}

impl View for FileStreamHeader {
    type V = FileStreamHeaderView;

    open spec fn view(&self) -> FileStreamHeaderView {
        FileStreamHeaderView {
            transfer_id: self.transfer_id@,
            start_chunk: self.start_chunk,
            end_chunk: self.end_chunk,
        }
    }
}

impl Clone for FileStreamHeader {
    fn clone(&self) -> (r: Self)
        ensures
            r@ == self@,
    {
        FileStreamHeader {
            transfer_id: self.transfer_id.clone(),
            start_chunk: self.start_chunk,
            end_chunk: self.end_chunk,
        }
    }
}

/// What a stream turns out to carry.
#[derive(Debug, PartialEq, Eq)]
pub enum IncomingUniStreamHeader {
    File(FileStreamHeader),
    RemoteDesktop(RemoteDesktopFrameHeader),
}

#[verifier::ext_equal]
pub enum IncomingUniStreamHeaderView {
    File(FileStreamHeaderView),
    RemoteDesktop(RemoteDesktopFrameHeaderView),
}

impl View for IncomingUniStreamHeader {
    type V = IncomingUniStreamHeaderView;

    open spec fn view(&self) -> IncomingUniStreamHeaderView {
        match self {
            IncomingUniStreamHeader::File(a) => IncomingUniStreamHeaderView::File(a@),
            IncomingUniStreamHeader::RemoteDesktop(a) => IncomingUniStreamHeaderView::RemoteDesktop(a@),
        }
    }
}

impl Clone for IncomingUniStreamHeader {
    fn clone(&self) -> (r: Self)
        ensures
            r@ == self@,
    {
        match self {
            IncomingUniStreamHeader::File(a) => IncomingUniStreamHeader::File(a.clone()),
            IncomingUniStreamHeader::RemoteDesktop(a) => IncomingUniStreamHeader::RemoteDesktop(a.clone()),
        }
    }
}

/// What cannot be framed or read.
#[derive(Debug, Clone, Copy, PartialEq, Eq, Structural)]
pub enum FrameError {
    MessageTooLong,
    MessageLength { len: u32 },
    FileHeaderTooLong,
    DesktopHeaderTooLong,
    HeaderLength { len: u32 },
    HeaderSyntax,
    NotAFileStream,
    Desktop(DesktopError),
}

impl FrameError {
    /// The error in words.
    pub open spec fn words(self) -> Seq<char> {
        match self {
            FrameError::MessageTooLong => "直连消息过大"@,
            FrameError::MessageLength { len } => "直连消息长度无效："@ + text::decimal_text(len as nat),
            FrameError::FileHeaderTooLong => "文件流头过大"@,
            FrameError::DesktopHeaderTooLong => "远程桌面流头过大"@,
            FrameError::HeaderLength { len } => "单向流头长度无效："@ + text::decimal_text(len as nat),
            FrameError::HeaderSyntax => "解析单向流头失败"@,
            FrameError::NotAFileStream => "收到远程桌面流而非文件流"@,
            FrameError::Desktop(e) => e.words(),
        }
    }

    /// The error in words.
    pub fn message(&self) -> (r: String)
        ensures
            r@ == self.words(),
    {
        match self {
            FrameError::MessageTooLong => "直连消息过大".to_owned(),
            FrameError::MessageLength { len } => {
                let n = text::decimal(*len as u64);
                text::concat("直连消息长度无效：", n.as_str())
            },
            FrameError::FileHeaderTooLong => "文件流头过大".to_owned(),
            FrameError::DesktopHeaderTooLong => "远程桌面流头过大".to_owned(),
            FrameError::HeaderLength { len } => {
                let n = text::decimal(*len as u64);
                text::concat("单向流头长度无效：", n.as_str())
            },
            FrameError::HeaderSyntax => "解析单向流头失败".to_owned(),
            FrameError::NotAFileStream => "收到远程桌面流而非文件流".to_owned(),
            FrameError::Desktop(e) => e.message(),
        }
    }
}

/// A length as four bytes, the lowest first.
pub open spec fn le32(n: int) -> Seq<u8> {
    seq![
        (n % 256) as u8,
        (n / 256 % 256) as u8,
        (n / 65536 % 256) as u8,
        (n / 16777216 % 256) as u8,
    ]
}

/// The number that four bytes stand for, the lowest first.
pub open spec fn le32_value(b: Seq<u8>) -> int {
    b[0] + 256 * b[1] + 65536 * b[2] + 16777216 * b[3]
}

/// A payload behind its length.
pub open spec fn framed(payload: Seq<u8>) -> Seq<u8> {
    le32(payload.len() as int) + payload
}

/// The bytes that carry a payload; nothing where it is longer than the limit.
pub open spec fn written(payload: Seq<u8>, limit: int) -> Option<Seq<u8>> {
    if payload.len() <= limit {
        Some(framed(payload))
    } else {
        None
    }
}

/// How many bytes the four bytes announce; nothing where that is none or more than the limit.
pub open spec fn announced(prefix: Seq<u8>, limit: int) -> Option<int> {
    if 0 < le32_value(prefix) <= limit {
        Some(le32_value(prefix))
    } else {
        None
    }
}

/// The bytes that carry a frame of the desktop: the header behind its length, and then the payload.
pub open spec fn written_desktop(header: Seq<u8>, desktop: RemoteDesktopFrameView) -> Option<
    Seq<u8>,
> {
    if desktop.checked() is Ok && header.len() <= MAX_STREAM_HEADER_LEN {
        Some(framed(header) + desktop.payload)
    } else {
        None
    }
}

fn frame(payload: &[u8]) -> (r: Vec<u8>)
    requires
        payload@.len() <= 0xffff_ffff,
    ensures
        r@ == framed(payload@),
{
    let n: u32 = payload.len() as u32;
    let mut r: Vec<u8> = Vec::new();
    r.push((n % 256) as u8);
    r.push((n / 256 % 256) as u8);
    r.push((n / 65536 % 256) as u8);
    r.push((n / 16777216 % 256) as u8);
    assert(r@ =~= le32(payload@.len() as int));
    r.extend_from_slice(payload);
    assert(r@ =~= framed(payload@));
    r
}

/// The bytes that carry a message, or an error where it is too long.
pub fn frame_message(payload: &[u8]) -> (r: Result<Vec<u8>, FrameError>)
    ensures
        match r {
            Ok(bytes) => payload@.len() <= MAX_FRAME_LEN && bytes@ == framed(payload@),
            Err(e) => payload@.len() > MAX_FRAME_LEN && e == FrameError::MessageTooLong,
        },
        written(payload@, MAX_FRAME_LEN as int) == match r {
            Ok(bytes) => Some(bytes@),
            Err(_) => None,
        },
{
    if payload.len() > MAX_FRAME_LEN {
        return Err(FrameError::MessageTooLong);
    }
    Ok(frame(payload))
}

/// The bytes that carry the header of a file stream, or an error where it is too long.
pub fn frame_file_header(payload: &[u8]) -> (r: Result<Vec<u8>, FrameError>)
    ensures
        match r {
            Ok(bytes) => payload@.len() <= MAX_STREAM_HEADER_LEN && bytes@ == framed(payload@),
            Err(e) => payload@.len() > MAX_STREAM_HEADER_LEN && e == FrameError::FileHeaderTooLong,
        },
        written(payload@, MAX_STREAM_HEADER_LEN as int) == match r {
            Ok(bytes) => Some(bytes@),
            Err(_) => None,
        },
{
    if payload.len() > MAX_STREAM_HEADER_LEN {
        return Err(FrameError::FileHeaderTooLong);
    }
    Ok(frame(payload))
}

/// The bytes that carry a frame of the desktop, given its serialised header: the frame must be
/// valid and its header short enough.
pub fn frame_desktop(header: &[u8], desktop: &RemoteDesktopFrame) -> (r: Result<
    Vec<u8>,
    FrameError,
>)
    ensures
        match r {
            Ok(bytes) => {
                &&& desktop@.checked() is Ok
                &&& header@.len() <= MAX_STREAM_HEADER_LEN
                &&& bytes@ == framed(header@) + desktop@.payload
            },
            Err(FrameError::Desktop(e)) => desktop@.checked() == Err::<(), DesktopError>(e),
            Err(e) => {
                &&& desktop@.checked() is Ok
                &&& header@.len() > MAX_STREAM_HEADER_LEN
                &&& e == FrameError::DesktopHeaderTooLong
            },
        },
        written_desktop(header@, desktop@) == match r {
            Ok(bytes) => Some(bytes@),
            Err(_) => None,
        },
{
    match desktop.validate() {
        Err(e) => {
            return Err(FrameError::Desktop(e));
        },
        Ok(_) => {},
    }
    if header.len() > MAX_STREAM_HEADER_LEN {
        return Err(FrameError::DesktopHeaderTooLong);
    }
    let mut bytes = frame(header);
    bytes.extend_from_slice(desktop.payload.as_slice());
    assert(bytes@ =~= framed(header@) + desktop@.payload);
    Ok(bytes)
}

fn prefix_value(b: &[u8; 4]) -> (r: u32)
    ensures
        r == le32_value(b@),
{
    b[0] as u32 + 256 * (b[1] as u32) + 65536 * (b[2] as u32) + 16777216 * (b[3] as u32)
}

/// How many bytes of message follow on the four bytes; none and too many are errors.
pub fn message_len(prefix: &[u8; 4]) -> (r: Result<usize, FrameError>)
    ensures
        match r {
            Ok(n) => n == le32_value(prefix@) && 0 < n <= MAX_FRAME_LEN,
            Err(e) => {
                &&& !(0 < le32_value(prefix@) <= MAX_FRAME_LEN)
                &&& e == FrameError::MessageLength { len: le32_value(prefix@) as u32 }
            },
        },
        announced(prefix@, MAX_FRAME_LEN as int) == match r {
            Ok(n) => Some(n as int),
            Err(_) => None,
        },
{
    let len: u32 = prefix_value(prefix);
    if len == 0 || len as u64 > MAX_FRAME_LEN as u64 {
        return Err(FrameError::MessageLength { len });
    }
    Ok(len as usize)
}

/// How many bytes of stream header follow on the four bytes; none and too many are errors.
pub fn stream_header_len(prefix: &[u8; 4]) -> (r: Result<usize, FrameError>)
    ensures
        match r {
            Ok(n) => n == le32_value(prefix@) && 0 < n <= MAX_STREAM_HEADER_LEN,
            Err(e) => {
                &&& !(0 < le32_value(prefix@) <= MAX_STREAM_HEADER_LEN)
                &&& e == FrameError::HeaderLength { len: le32_value(prefix@) as u32 }
            },
        },
        announced(prefix@, MAX_STREAM_HEADER_LEN as int) == match r {
            Ok(n) => Some(n as int),
            Err(_) => None,
        },
{
    let len: u32 = prefix_value(prefix);
    if len == 0 || len as u64 > MAX_STREAM_HEADER_LEN as u64 {
        return Err(FrameError::HeaderLength { len });
    }
    Ok(len as usize)
}

/// What is written is read back: the first four bytes of a framed payload give its length, and the
/// payload follows on them.
pub proof fn framing_gives_back_the_payload(payload: Seq<u8>)
    requires
        payload.len() <= 0xffff_ffff,
    ensures
        framed(payload).take(4) == le32(payload.len() as int),
        le32_value(framed(payload).take(4)) == payload.len(),
        framed(payload).skip(4) == payload,
{
    let n = payload.len() as int;
    assert(framed(payload).take(4) =~= le32(n));
    assert(framed(payload).skip(4) =~= payload);
    assert(n == n % 256 + 256 * (n / 256 % 256) + 65536 * (n / 65536 % 256) + 16777216 * (n
        / 16777216 % 256));
}

/// The text behind a key at the top of a JSON document: nothing where the bytes are no document,
/// nothing inside where the document has no text there.
pub uninterp spec fn json_member(bytes: Seq<u8>, key: Seq<char>) -> Option<Option<Seq<char>>>;

#[verifier::external_type_specification]
#[verifier::external_body]
pub struct ExJsonError(serde_json::Error);

/// `serde_json::from_slice` to a `serde_json::Value`, and the text that `Value::get` and
/// `Value::as_str` find behind the key. Which documents are accepted and what they hold is given a
/// name.
#[verifier::external_body]
fn text_member(bytes: &[u8], key: &str) -> (r: Result<Option<String>, serde_json::Error>)
    ensures
        json_member(bytes@, key@) == match r {
            Ok(t) => Some(text::opt_text(t)),
            Err(_) => None,
        },
{
    let value: serde_json::Value = serde_json::from_slice(bytes)?;
    Ok(value.get(key).and_then(|v| v.as_str()).map(|v| v.to_owned()))
}

/// What the header of a stream says that the stream carries.
#[derive(Debug, Clone, Copy, PartialEq, Eq, Structural)]
pub enum StreamKind {
    File,
    Desktop,
}

/// A stream whose header names the type of desktop frames carries one; any other carries a file.
pub open spec fn kind_of_type(stream_type: Option<Seq<char>>) -> StreamKind {
    if stream_type == Some(REMOTE_DESKTOP_STREAM_TYPE@) {
        StreamKind::Desktop
    } else {
        StreamKind::File
    }
}

pub fn stream_kind(stream_type: Option<String>) -> (r: StreamKind)
    ensures
        r == kind_of_type(text::opt_text(stream_type)),
{
    match stream_type {
        Some(t) => {
            if text::same_text(t.as_str(), REMOTE_DESKTOP_STREAM_TYPE) {
                StreamKind::Desktop
            } else {
                StreamKind::File
            }
        },
        None => StreamKind::File,
    }
}

/// What a stream carries, by the serialised header at its start.
pub fn classify_stream(header: &[u8]) -> (r: Result<StreamKind, FrameError>)
    ensures
        r == match json_member(header@, "streamType"@) {
            Some(t) => Ok::<StreamKind, FrameError>(kind_of_type(t)),
            None => Err(FrameError::HeaderSyntax),
        },
{
    match text_member(header, "streamType") {
        Ok(t) => Ok(stream_kind(t)),
        Err(_) => Err(FrameError::HeaderSyntax),
    }
}

/// The header of a desktop frame is taken only where it is valid.
pub fn desktop_header(header: RemoteDesktopFrameHeader) -> (r: Result<
    IncomingUniStreamHeader,
    FrameError,
>)
    ensures
        match r {
            Ok(h) => header@.checked() is Ok && h@ == IncomingUniStreamHeaderView::RemoteDesktop(
                header@,
            ),
            Err(e) => header@.checked() is Err && e == FrameError::Desktop(
                header@.checked()->Err_0,
            ),
        },
{
    match header.validate() {
        Err(e) => Err(FrameError::Desktop(e)),
        Ok(_) => Ok(IncomingUniStreamHeader::RemoteDesktop(header)),
    }
}

/// The header of a file stream; an error where the stream carries a desktop frame.
pub fn file_header(header: IncomingUniStreamHeader) -> (r: Result<FileStreamHeader, FrameError>)
    ensures
        match r {
            Ok(h) => header@ == IncomingUniStreamHeaderView::File(h@),
            Err(e) => header@ is RemoteDesktop && e == FrameError::NotAFileStream,
        },
{
    match header {
        IncomingUniStreamHeader::File(h) => Ok(h),
        IncomingUniStreamHeader::RemoteDesktop(_) => Err(FrameError::NotAFileStream),
    }
}

/// What one end may write the other end may read: a payload that is not empty and within the limit
/// is announced with its length and follows as it is, and one beyond the limit is neither written
/// nor, were it announced, taken. Messages have 64 kibibytes, headers of streams four.
pub proof fn what_is_written_is_read(payload: Seq<u8>, limit: int)
    requires
        0 <= limit <= 0xffff_ffff,
        payload.len() <= 0xffff_ffff,
    ensures
        payload.len() <= limit <==> written(payload, limit) is Some,
        written(payload, limit) matches Some(bytes) ==> {
            &&& bytes.len() == payload.len() + 4
            &&& bytes.skip(4) == payload
            &&& payload.len() > 0 ==> announced(bytes.take(4), limit) == Some(payload.len() as int)
            &&& payload.len() == 0 ==> announced(bytes.take(4), limit) is None
        },
        payload.len() > limit ==> announced(le32(payload.len() as int), limit) is None,
        MAX_FRAME_LEN == 65536,
        MAX_STREAM_HEADER_LEN == 4096,
{
    framing_gives_back_the_payload(payload);
}

/// A length stands with its lowest byte first.
pub proof fn lengths_begin_with_the_lowest_byte(n: int, b: Seq<u8>)
    requires
        b.len() == 4,
    ensures
        0 <= n < 256 ==> le32(n) == seq![n as u8, 0u8, 0u8, 0u8],
        0 <= n < 65536 ==> le32(n) == seq![(n % 256) as u8, (n / 256) as u8, 0u8, 0u8],
        le32_value(b) % 256 == b[0],
        le32_value(b) / 16777216 == b[3],
{
    if 0 <= n < 65536 {
        assert(n / 65536 == 0);
        assert(n / 16777216 == 0);
        assert(le32(n) =~= seq![(n % 256) as u8, (n / 256) as u8, 0u8, 0u8]);
    }
    if 0 <= n < 256 {
        assert(n / 256 == 0);
        assert(le32(n) =~= seq![n as u8, 0u8, 0u8, 0u8]);
    }
}

/// A stream carries a frame of the desktop exactly where its header says so by name.
pub proof fn streams_are_told_apart_by_name(name: Seq<char>)
    ensures
        kind_of_type(Some(name)) == StreamKind::Desktop <==> name == "desktop-frame"@,
        kind_of_type(None) == StreamKind::File,
{
}

/// A frame of the desktop is written where it is valid and its header short, and only there; the
/// other end reads the header by its announced length and then the payload to its end.
pub proof fn a_written_desktop_frame_is_read(header: Seq<u8>, desktop: RemoteDesktopFrameView)
    ensures
        written_desktop(header, desktop) is Some <==> desktop.checked() is Ok && header.len()
            <= 4096,
        written_desktop(header, desktop) matches Some(bytes) ==> {
            let n = le32_value(bytes.take(4));
            &&& n == header.len()
            &&& bytes.subrange(4, 4 + n) == header
            &&& bytes.skip(4 + n) == desktop.payload
        },
{
    if header.len() <= 4096 {
        framing_gives_back_the_payload(header);
        let bytes = framed(header) + desktop.payload;
        assert(bytes.take(4) =~= framed(header).take(4));
        assert(bytes.subrange(4, 4int + header.len()) =~= framed(header).skip(4));
        assert(bytes.skip(4int + header.len()) =~= desktop.payload);
    }
}

}
