//! The frames of a shared desktop: what is sent of a picture, and what is shown of it.
use crate::remote_desktop::{
    DesktopError, RemoteDesktopFrame, RemoteDesktopFrameHeader, RemoteDesktopFrameHeaderView,
    RemoteDesktopFrameView, RemoteDesktopPatch, MAX_DESKTOP_HEIGHT, MAX_DESKTOP_WIDTH,
    REMOTE_DESKTOP_STREAM_TYPE,
};
use crate::tiles::{Rect, TILE_SIZE};
use crate::{png, remote_desktop, text, tiles};
use vstd::prelude::*;

verus! {

/// A picture as it was captured.
#[derive(Debug)]
pub struct RawFrame {
    pub width: u32,
    pub height: u32,
    pub rgba: Vec<u8>,
}

#[verifier::ext_equal]
pub struct RawFrameView {
    pub width: u32,
    pub height: u32,
    pub rgba: Seq<u8>,
}

impl View for RawFrame {
    type V = RawFrameView;

    open spec fn view(&self) -> RawFrameView {
        RawFrameView {
            width: self.width,
            height: self.height,
            rgba: self.rgba@,
        }
    }
}

impl Clone for RawFrame {
    fn clone(&self) -> (r: Self)
        ensures
            r@ == self@,
    {
        RawFrame {
            width: self.width,
            height: self.height,
            rgba: self.rgba.clone(),
        }
    }
}

/// A picture as it is shown.
#[derive(Debug)]
pub struct DecodedFrame {
    pub width: u32,
    pub height: u32,
    pub rgba: Vec<u8>,
}

#[verifier::ext_equal]
pub struct DecodedFrameView {
    pub width: u32,
    pub height: u32,
    pub rgba: Seq<u8>,
}

impl View for DecodedFrame {
    type V = DecodedFrameView;

    open spec fn view(&self) -> DecodedFrameView {
        DecodedFrameView {
            width: self.width,
            height: self.height,
            rgba: self.rgba@,
        }
    }
}

/// Puts the picture together from the frames that come.
#[derive(Debug)]
pub struct FrameDecoder {
    session_id: String,
    width: u32,
    height: u32,
    last_frame_id: u64,
    rgba: Vec<u8>,
    ready: bool,
}

#[verifier::ext_equal]
pub struct FrameDecoderView {
    pub session_id: Seq<char>,
    pub width: u32,
    pub height: u32,
    pub last_frame_id: u64,
    pub rgba: Seq<u8>,
    pub ready: bool,
}

impl View for FrameDecoder {
    type V = FrameDecoderView;

    closed spec fn view(&self) -> FrameDecoderView {
        FrameDecoderView {
            session_id: self.session_id@,
            width: self.width,
            height: self.height,
            last_frame_id: self.last_frame_id,
            rgba: self.rgba@,
            ready: self.ready,
        }
    }
}

/// Makes frames of the captured pictures: whole ones, or what has changed since the last.
#[derive(Debug)]
pub struct FrameEncoder {
    session_id: String,
    frame_id: u64,
    previous: Vec<u8>,
    width: u32,
    height: u32,
    force_keyframe: bool,
}

#[verifier::ext_equal]
pub struct FrameEncoderView {
    pub session_id: Seq<char>,
    pub frame_id: u64,
    pub previous: Seq<u8>,
    pub width: u32,
    pub height: u32,
    pub force_keyframe: bool,
}

impl View for FrameEncoder {
    type V = FrameEncoderView;

    closed spec fn view(&self) -> FrameEncoderView {
        FrameEncoderView {
            session_id: self.session_id@,
            frame_id: self.frame_id,
            previous: self.previous@,
            width: self.width,
            height: self.height,
            force_keyframe: self.force_keyframe,
        }
    }
}

/// The picture has as many bytes as its size says.
pub open spec fn has_its_pixels(frame: RawFrameView) -> bool {
    frame.rgba.len() == tiles::picture_len(frame.width, frame.height)
}

pub open spec fn blank(width: u32, height: u32) -> Seq<u8> {
    Seq::new(tiles::picture_len(width, height) as nat, |i: int| 0u8)
}

fn blank_picture(len: usize) -> (r: Vec<u8>)
    ensures
        r@ == Seq::new(len as nat, |i: int| 0u8),
{
    let mut r: Vec<u8> = Vec::new();
    let mut i: usize = 0;
    while i < len
        invariant
            i <= len,
            r@.len() == i,
            forall|j: int| 0 <= j < i ==> r@[j] == 0u8,
        decreases len - i,
    {
        r.push(0);
        i += 1;
    }
    assert(r@ =~= Seq::new(len as nat, |i: int| 0u8));
    r
}

/// The number of bytes of a picture of a size whose bytes can be counted.
fn count_bytes(width: u32, height: u32) -> (r: usize)
    requires
        tiles::picture_len(width, height) <= u32::MAX,
    ensures
        r == tiles::picture_len(width, height),
{
    proof {
        assert(width as int * height as int * 4 == height * (4 * width)) by (nonlinear_arith);
        assert(0 <= width as int * height as int) by (nonlinear_arith);
    }
    let pixels: u32 = width * height;
    (pixels * 4) as usize
}

/// An empty picture of a size whose bytes can be counted.
pub fn blank_frame(width: u32, height: u32) -> (r: Vec<u8>)
    requires
        tiles::picture_len(width, height) <= u32::MAX,
    ensures
        r@ == blank(width, height),
        r@.len() == tiles::picture_len(width, height),
{
    let len: usize = count_bytes(width, height);
    blank_picture(len)
}

pub open spec fn rect_of(patch: RemoteDesktopPatch) -> Rect {
    Rect { x: patch.x, y: patch.y, width: patch.width, height: patch.height }
}

/// How many bytes of payload the first `k` patches have.
pub open spec fn payload_offset(patches: Seq<RemoteDesktopPatch>, k: int) -> int
    decreases k,
{
    if k <= 0 {
        0
    } else {
        payload_offset(patches, k - 1) + patches[k - 1].encoded_len
    }
}

/// The bytes of payload that belong to patch `k`.
pub open spec fn patch_bytes(f: RemoteDesktopFrameView, k: int) -> Seq<u8> {
    f.payload.subrange(
        payload_offset(f.header.patches, k),
        payload_offset(f.header.patches, k + 1),
    )
}

proof fn lemma_payload_len(patches: Seq<RemoteDesktopPatch>, width: u32, height: u32)
    requires
        remote_desktop::payload_len(patches, width, height) is Ok,
    ensures
        remote_desktop::payload_len(patches, width, height)->Ok_0 == payload_offset(
            patches,
            patches.len() as int,
        ),
        forall|k: int|
            0 <= k < patches.len() ==> rect_of(#[trigger] patches[k]).lies_in(width, height),
    decreases patches.len(),
{
    if patches.len() > 0 {
        let front = patches.drop_last();
        lemma_payload_len(front, width, height);
        lemma_offset_prefix(front, patches, front.len() as int);
        assert forall|k: int| 0 <= k < patches.len() implies rect_of(
            #[trigger] patches[k],
        ).lies_in(width, height) by {
            if k < front.len() {
                assert(front[k] == patches[k]);
            }
        }
    }
}

proof fn lemma_offset_prefix(a: Seq<RemoteDesktopPatch>, b: Seq<RemoteDesktopPatch>, k: int)
    requires
        k <= a.len() <= b.len(),
        forall|i: int| 0 <= i < a.len() ==> a[i] == b[i],
    ensures
        payload_offset(a, k) == payload_offset(b, k),
    decreases k,
{
    if k > 0 {
        lemma_offset_prefix(a, b, k - 1);
    }
}

proof fn lemma_offset_grows(patches: Seq<RemoteDesktopPatch>, j: int, k: int)
    requires
        0 <= j <= k,
    ensures
        0 <= payload_offset(patches, j) <= payload_offset(patches, k),
    decreases k,
{
    if j < k {
        lemma_offset_grows(patches, j, k - 1);
    } else if k > 0 {
        lemma_offset_grows(patches, j - 1, k - 1);
    }
}

/// What is wrong with a frame that is not shown.
#[derive(Debug, Clone, Copy, PartialEq, Eq, Structural)]
pub enum FrameFault {
    Invalid(DesktopError),
    OtherSession,
    NotIncreasing,
    SizeWithoutKeyframe,
    NoKeyframe,
    Picture,
    PatchSize,
}

/// Why a frame is not shown.
#[derive(Debug)]
pub enum ApplyError {
    Fault(FrameFault),
    Picture(image::ImageError),
}

impl ApplyError {
    pub open spec fn fault(self) -> FrameFault {
        match self {
            ApplyError::Fault(f) => f,
            ApplyError::Picture(_) => FrameFault::Picture,
        }
    }
}

impl FrameFault {
    /// The fault in words; of a patch that is no picture its reader says more.
    pub open spec fn words(self) -> Seq<char> {
        match self {
            FrameFault::Invalid(e) => e.words(),
            FrameFault::OtherSession => "远程桌面帧不属于当前会话"@,
            FrameFault::NotIncreasing => "远程桌面帧序号未递增"@,
            FrameFault::SizeWithoutKeyframe => "远程桌面尺寸变化缺少关键帧"@,
            FrameFault::NoKeyframe => "尚未收到远程桌面关键帧"@,
            FrameFault::Picture => ""@,
            FrameFault::PatchSize => "远程桌面补丁尺寸不匹配"@,
        }
    }

    pub fn message(&self) -> (r: String)
        ensures
            r@ == self.words(),
    {
        match self {
            FrameFault::Invalid(e) => e.message(),
            FrameFault::OtherSession => "远程桌面帧不属于当前会话".to_owned(),
            FrameFault::NotIncreasing => "远程桌面帧序号未递增".to_owned(),
            FrameFault::SizeWithoutKeyframe => "远程桌面尺寸变化缺少关键帧".to_owned(),
            FrameFault::NoKeyframe => "尚未收到远程桌面关键帧".to_owned(),
            FrameFault::Picture => "".to_owned(),
            FrameFault::PatchSize => "远程桌面补丁尺寸不匹配".to_owned(),
        }
    }
}

/// The picture after the first `k` patches have been put in, or up to the first that could not be.
pub open spec fn painted(
    canvas: Seq<u8>,
    f: RemoteDesktopFrameView,
    k: int,
) -> (Seq<u8>, Option<FrameFault>)
    decreases k,
{
    if k <= 0 {
        (canvas, None)
    } else {
        let (before, fault) = painted(canvas, f, k - 1);
        let patch = f.header.patches[k - 1];
        if fault is Some {
            (before, fault)
        } else {
            match png::png_picture(patch_bytes(f, k - 1)) {
                None => (before, Some(FrameFault::Picture)),
                Some((width, height, rgba)) => if width != patch.width || height != patch.height {
                    (before, Some(FrameFault::PatchSize))
                } else {
                    (tiles::pasted(before, f.header.width, rect_of(patch), rgba), None)
                },
            }
        }
    }
}

impl FrameDecoderView {
    pub open spec fn start(session_id: Seq<char>) -> Self {
        FrameDecoderView {
            session_id,
            width: 0,
            height: 0,
            last_frame_id: 0,
            rgba: Seq::empty(),
            ready: false,
        }
    }

    /// Why the frame is not taken up at all.
    pub open spec fn objection(self, f: RemoteDesktopFrameView) -> Option<FrameFault> {
        if f.checked() is Err {
            Some(FrameFault::Invalid(f.checked()->Err_0))
        } else if f.header.session_id != self.session_id {
            Some(FrameFault::OtherSession)
        } else if f.header.frame_id <= self.last_frame_id {
            Some(FrameFault::NotIncreasing)
        } else if (f.header.width != self.width || f.header.height != self.height)
            && !f.header.keyframe {
            Some(FrameFault::SizeWithoutKeyframe)
        } else if !f.header.keyframe && !self.ready {
            Some(FrameFault::NoKeyframe)
        } else {
            None
        }
    }

    /// A keyframe starts with an empty picture of its own size.
    pub open spec fn prepared(self, f: RemoteDesktopFrameView) -> Self {
        if f.header.keyframe {
            FrameDecoderView {
                width: f.header.width,
                height: f.header.height,
                rgba: blank(f.header.width, f.header.height),
                ready: false,
                ..self
            }
        } else {
            self
        }
    }

    /// What the frame makes of the decoder, and why it is not shown.
    pub open spec fn apply(self, f: RemoteDesktopFrameView) -> (Self, Option<FrameFault>) {
        if self.objection(f) is Some {
            (self, self.objection(f))
        } else {
            let s = self.prepared(f);
            let (rgba, fault) = painted(s.rgba, f, f.header.patches.len() as int);
            if fault is Some {
                (FrameDecoderView { rgba, ..s }, fault)
            } else {
                (
                    FrameDecoderView { rgba, last_frame_id: f.header.frame_id, ready: true, ..s },
                    None,
                )
            }
        }
    }
}

impl FrameDecoder {
    /// The picture has as many bytes as its size says.
    #[verifier::type_invariant]
    spec fn sound(self) -> bool {
        self.rgba@.len() == tiles::picture_len(self.width, self.height)
    }

    pub fn new(session_id: String) -> (r: Self)
        ensures
            r@ == FrameDecoderView::start(session_id@),
    {
        FrameDecoder {
            session_id,
            width: 0,
            height: 0,
            last_frame_id: 0,
            rgba: Vec::new(),
            ready: false,
        }
    }

    fn object(&self, frame: &RemoteDesktopFrame) -> (r: Option<FrameFault>)
        ensures
            r == self@.objection(frame@),
    {
        match frame.validate() {
            Err(e) => {
                return Some(FrameFault::Invalid(e));
            },
            Ok(_) => {},
        }
        let header = &frame.header;
        if !text::same_text(header.session_id.as_str(), self.session_id.as_str()) {
            return Some(FrameFault::OtherSession);
        }
        if header.frame_id <= self.last_frame_id {
            return Some(FrameFault::NotIncreasing);
        }
        if (header.width != self.width || header.height != self.height) && !header.keyframe {
            return Some(FrameFault::SizeWithoutKeyframe);
        }
        if !header.keyframe && !self.ready {
            return Some(FrameFault::NoKeyframe);
        }
        None
    }

    /// Takes up a frame and gives the picture.
    pub fn apply(&mut self, frame: RemoteDesktopFrame) -> (r: Result<DecodedFrame, ApplyError>)
        ensures
            final(self)@ == old(self)@.apply(frame@).0,
            match (r, old(self)@.apply(frame@).1) {
                (Err(e), Some(fault)) => e.fault() == fault,
                (Ok(shown), None) => shown@ == (DecodedFrameView {
                    width: final(self)@.width,
                    height: final(self)@.height,
                    rgba: final(self)@.rgba,
                }),
                _ => false,
            },
    {
        proof {
            use_type_invariant(&*self);
        }
        if let Some(fault) = self.object(&frame) {
            return Err(ApplyError::Fault(fault));
        }
        let ghost f = frame@;
        let width: u32 = frame.header.width;
        let height: u32 = frame.header.height;
        let keyframe = frame.header.keyframe;
        proof {
            lemma_payload_len(f.header.patches, width, height);
            assert(height * (4 * width) <= 720 * (4 * 1280)) by (nonlinear_arith)
                requires
                    width <= 1280,
                    height <= 720,
            ;
        }
        let ready = self.ready && !keyframe;
        let mut canvas: Vec<u8> = if keyframe {
            let len: usize = count_bytes(width, height);
            blank_picture(len)
        } else {
            self.rgba.clone()
        };
        let ghost s = self@.prepared(f);
        let ghost patches = f.header.patches;
        assert(canvas@ =~= s.rgba);
        let mut offset: usize = 0;
        let mut i: usize = 0;
        while i < frame.header.patches.len()
            invariant
                f == frame@,
                patches == frame.header.patches@,
                patches == f.header.patches,
                width == f.header.width,
                height == f.header.height,
                keyframe == f.header.keyframe,
                f.checked() is Ok,
                f.payload.len() == payload_offset(patches, patches.len() as int),
                forall|k: int|
                    0 <= k < patches.len() ==> rect_of(#[trigger] patches[k]).lies_in(width, height),
                old(self)@.objection(f) is None,
                s == old(self)@.prepared(f),
                *self == *old(self),
                ready == s.ready,
                s.width == width,
                s.height == height,
                canvas@.len() == tiles::picture_len(width, height),
                i <= patches.len(),
                offset == payload_offset(patches, i as int),
                offset <= f.payload.len(),
                painted(s.rgba, f, i as int) == (canvas@, None::<FrameFault>),
            decreases patches.len() - i,
        {
            let patch = frame.header.patches[i];
            proof {
                lemma_offset_grows(patches, i + 1, patches.len() as int);
                lemma_painted_fault(s.rgba, f, i + 1, patches.len() as int);
            }
            let end: usize = offset + patch.encoded_len as usize;
            let bytes = &frame.payload[offset..end];
            assert(bytes@ == patch_bytes(f, i as int));
            let (w, h, rgba) = match png::decode_png(bytes) {
                Ok(picture) => picture,
                Err(e) => {
                    *self = FrameDecoder {
                        session_id: self.session_id.clone(),
                        width,
                        height,
                        last_frame_id: self.last_frame_id,
                        rgba: canvas,
                        ready,
                    };
                    return Err(ApplyError::Picture(e));
                },
            };
            if w != patch.width || h != patch.height {
                *self = FrameDecoder {
                    session_id: self.session_id.clone(),
                    width,
                    height,
                    last_frame_id: self.last_frame_id,
                    rgba: canvas,
                    ready,
                };
                return Err(ApplyError::Fault(FrameFault::PatchSize));
            }
            let rect = Rect { x: patch.x, y: patch.y, width: patch.width, height: patch.height };
            assert(rect == rect_of(patches[i as int]));
            tiles::copy_patch_into_canvas(&mut canvas, width, height, rect, rgba.as_slice());
            offset = end;
            i += 1;
        }
        let shown = canvas.clone();
        *self = FrameDecoder {
            session_id: self.session_id.clone(),
            width,
            height,
            last_frame_id: frame.header.frame_id,
            rgba: canvas,
            ready: true,
        };
        Ok(DecodedFrame { width, height, rgba: shown })
    }
}

proof fn lemma_painted_fault(canvas: Seq<u8>, f: RemoteDesktopFrameView, k: int, n: int)
    requires
        0 <= k <= n,
    ensures
        painted(canvas, f, k).1 is Some ==> painted(canvas, f, n) == painted(canvas, f, k),
    decreases n,
{
    if k < n {
        lemma_painted_fault(canvas, f, k, n - 1);
    }
}

/// Is the square sent: because the picture is sent whole, or because it has changed?
pub open spec fn is_sent(
    frame: RawFrameView,
    previous: Seq<u8>,
    keyframe: bool,
    k: int,
) -> bool {
    let rect = tiles::grid_rect(frame.width, frame.height, k);
    keyframe || tiles::tile(frame.rgba, frame.width, rect) != tiles::tile(
        previous,
        frame.width,
        rect,
    )
}

/// The PNG file of a square.
pub open spec fn square_bytes(frame: RawFrameView, k: int) -> Seq<u8> {
    let rect = tiles::grid_rect(frame.width, frame.height, k);
    png::png_bytes(tiles::tile(frame.rgba, frame.width, rect), rect.width, rect.height)
}

/// The patches for the first `k` squares.
pub open spec fn sent_patches(
    frame: RawFrameView,
    previous: Seq<u8>,
    keyframe: bool,
    k: int,
) -> Seq<RemoteDesktopPatch>
    decreases k,
{
    if k <= 0 {
        Seq::empty()
    } else {
        let before = sent_patches(frame, previous, keyframe, k - 1);
        let rect = tiles::grid_rect(frame.width, frame.height, k - 1);
        if is_sent(frame, previous, keyframe, k - 1) {
            before.push(
                RemoteDesktopPatch {
                    x: rect.x,
                    y: rect.y,
                    width: rect.width,
                    height: rect.height,
                    encoded_len: square_bytes(frame, k - 1).len() as u32,
                },
            )
        } else {
            before
        }
    }
}

/// The payload for the first `k` squares.
pub open spec fn sent_payload(
    frame: RawFrameView,
    previous: Seq<u8>,
    keyframe: bool,
    k: int,
) -> Seq<u8>
    decreases k,
{
    if k <= 0 {
        Seq::empty()
    } else {
        let before = sent_payload(frame, previous, keyframe, k - 1);
        if is_sent(frame, previous, keyframe, k - 1) {
            before + square_bytes(frame, k - 1)
        } else {
            before
        }
    }
}

/// Why a picture is not sent. That a square makes no file is a case of its own, which no picture
/// of a size that can be shared meets.
#[derive(Debug)]
pub enum EncodeError {
    PixelCount,
    Picture(image::ImageError),
    Invalid(DesktopError),
}

impl EncodeError {
    /// The reason in words; of a picture that makes no file its writer says more.
    pub open spec fn words(self) -> Seq<char> {
        match self {
            EncodeError::PixelCount => "屏幕帧像素长度不匹配"@,
            EncodeError::Picture(_) => ""@,
            EncodeError::Invalid(e) => e.words(),
        }
    }

    pub fn message(&self) -> (r: String)
        ensures
            r@ == self.words(),
    {
        match self {
            EncodeError::PixelCount => "屏幕帧像素长度不匹配".to_owned(),
            EncodeError::Picture(_) => "".to_owned(),
            EncodeError::Invalid(e) => e.message(),
        }
    }
}

impl FrameEncoderView {
    pub open spec fn start(session_id: Seq<char>) -> Self {
        FrameEncoderView {
            session_id,
            frame_id: 0,
            previous: Seq::empty(),
            width: 0,
            height: 0,
            force_keyframe: true,
        }
    }

    /// Is the picture sent whole?
    pub open spec fn is_keyframe(self, frame: RawFrameView) -> bool {
        self.force_keyframe || self.width != frame.width || self.height != frame.height
            || self.previous.len() != frame.rgba.len()
    }

    /// For a whole picture nothing counts as sent before.
    pub open spec fn prepared(self, frame: RawFrameView) -> Self {
        if self.is_keyframe(frame) {
            FrameEncoderView {
                width: frame.width,
                height: frame.height,
                previous: blank(frame.width, frame.height),
                ..self
            }
        } else {
            self
        }
    }

    /// The frame for the picture.
    pub open spec fn frame_for(self, frame: RawFrameView) -> RemoteDesktopFrameView {
        let keyframe = self.is_keyframe(frame);
        let n = tiles::grid_len(frame.width, frame.height);
        RemoteDesktopFrameView {
            header: RemoteDesktopFrameHeaderView {
                stream_type: REMOTE_DESKTOP_STREAM_TYPE@,
                session_id: self.session_id,
                frame_id: (self.frame_id + 1) as u64,
                width: frame.width,
                height: frame.height,
                keyframe,
                patches: sent_patches(frame, self.prepared(frame).previous, keyframe, n),
            },
            payload: sent_payload(frame, self.prepared(frame).previous, keyframe, n),
        }
    }

    /// Why no frame can be made of the picture: the session has no name, or the picture is empty or
    /// larger than a desktop that can be shared.
    pub open spec fn objection(self, frame: RawFrameView) -> Option<DesktopError> {
        if self.session_id.len() == 0 {
            Some(DesktopError::EmptySessionId)
        } else if !(0 < frame.width <= MAX_DESKTOP_WIDTH && 0 < frame.height
            <= MAX_DESKTOP_HEIGHT) {
            Some(DesktopError::Size { width: frame.width, height: frame.height })
        } else {
            None
        }
    }

    /// The encoder after the frame for the picture was made.
    pub open spec fn sent(self, frame: RawFrameView) -> Self {
        FrameEncoderView {
            frame_id: (self.frame_id + 1) as u64,
            previous: frame.rgba,
            force_keyframe: false,
            ..self.prepared(frame)
        }
    }
}

/// Each patch of the frame is the PNG file of what the picture shows there.
pub open spec fn shows(f: RemoteDesktopFrameView, pixels: Seq<u8>) -> bool {
    forall|k: int|
        0 <= k < f.header.patches.len() ==> png::png_picture(#[trigger] patch_bytes(f, k)) == Some(
            (
                f.header.patches[k].width,
                f.header.patches[k].height,
                tiles::tile(pixels, f.header.width, rect_of(f.header.patches[k])),
            ),
        )
}

impl FrameEncoder {
    pub fn new(session_id: String) -> (r: Self)
        ensures
            r@ == FrameEncoderView::start(session_id@),
    {
        FrameEncoder {
            session_id,
            frame_id: 0,
            previous: Vec::new(),
            width: 0,
            height: 0,
            force_keyframe: true,
        }
    }

    /// The next picture is to be sent whole.
    pub fn force_keyframe(&mut self)
        ensures
            final(self)@ == (FrameEncoderView { force_keyframe: true, ..old(self)@ }),
    {
        self.force_keyframe = true;
    }

    /// How many frames were made.
    pub fn frame_count(&self) -> (r: u64)
        ensures
            r == self@.frame_id,
    {
        self.frame_id
    }

    /// The frame for the picture; nothing where nothing has changed. Its squares always make PNG
    /// files, and together they are short enough for a frame.
    pub fn encode(&mut self, frame: &RawFrame) -> (r: Result<Option<RemoteDesktopFrame>, EncodeError>)
        requires
            tiles::picture_len(frame.width, frame.height) <= u32::MAX,
            old(self)@.frame_id < u64::MAX,
        ensures
            ({
                let s = old(self)@;
                let f = s.frame_for(frame@);
                match r {
                    Err(EncodeError::PixelCount) => !has_its_pixels(frame@) && final(self)@ == s,
                    Err(EncodeError::Picture(_)) => false,
                    Err(EncodeError::Invalid(e)) => {
                        &&& has_its_pixels(frame@)
                        &&& f.header.patches.len() > 0
                        &&& s.objection(frame@) == Some(e)
                        &&& f.checked() == Err::<(), DesktopError>(e)
                        &&& final(self)@ == s.sent(frame@)
                    },
                    Ok(None) => {
                        &&& has_its_pixels(frame@)
                        &&& f.header.patches.len() == 0
                        &&& final(self)@ == s.prepared(frame@)
                    },
                    Ok(Some(made)) => {
                        &&& has_its_pixels(frame@)
                        &&& f.header.patches.len() > 0
                        &&& s.objection(frame@) is None
                        &&& f.checked() is Ok
                        &&& made@ == f
                        &&& shows(f, frame@.rgba)
                        &&& final(self)@ == s.sent(frame@)
                    },
                }
            }),
    {
        let expected: usize = count_bytes(frame.width, frame.height);
        if frame.rgba.len() != expected {
            return Err(EncodeError::PixelCount);
        }
        let ghost s = self@;
        let ghost given = frame@;
        let keyframe = self.force_keyframe || self.width != frame.width || self.height
            != frame.height || self.previous.len() != frame.rgba.len();
        if keyframe {
            self.width = frame.width;
            self.height = frame.height;
            self.previous = blank_picture(expected);
        }
        assert(self@ =~= s.prepared(given));
        let width: u32 = frame.width;
        let height: u32 = frame.height;
        let columns: u32 = ((width as u64 + 127) / 128) as u32;
        let rows: u32 = ((height as u64 + 127) / 128) as u32;
        let count: u64 = count_tiles(rows, columns);
        let mut patches: Vec<RemoteDesktopPatch> = Vec::new();
        let mut payload: Vec<u8> = Vec::new();
        let mut k: u64 = 0;
        while k < count
            invariant
                s == old(self)@,
                given == frame@,
                has_its_pixels(given),
                width == given.width,
                height == given.height,
                columns == tiles::tile_count(width),
                rows == tiles::tile_count(height),
                count == tiles::grid_len(width, height),
                k <= count,
                keyframe == s.is_keyframe(given),
                self@ == s.prepared(given),
                self@.previous.len() == given.rgba.len(),
                patches@ == sent_patches(given, self@.previous, keyframe, k as int),
                payload@ == sent_payload(given, self@.previous, keyframe, k as int),
                pieces_fit(given, self@.previous, keyframe, k as int),
            decreases count - k,
        {
            proof {
                tiles::grid_lies_in_the_picture(width, height, k as int);
            }
            let column: u64 = k % (columns as u64);
            let row: u64 = k / (columns as u64);
            let x: u32 = (column * 128) as u32;
            let y: u32 = (row * 128) as u32;
            let rect = Rect {
                x,
                y,
                width: if width - x < TILE_SIZE {
                    width - x
                } else {
                    TILE_SIZE
                },
                height: if height - y < TILE_SIZE {
                    height - y
                } else {
                    TILE_SIZE
                },
            };
            assert(rect == tiles::grid_rect(width, height, k as int));
            if keyframe || !tiles::tile_matches(
                frame.rgba.as_slice(),
                self.previous.as_slice(),
                width,
                height,
                rect,
            ) {
                let tile = tiles::extract_tile(frame.rgba.as_slice(), width, height, rect);
                let encoded = match png::encode_png(tile.as_slice(), rect.width, rect.height) {
                    Ok(bytes) => bytes,
                    Err(e) => {
                        return Err(EncodeError::Picture(e));
                    },
                };
                proof {
                    assert(rect.byte_len() <= 128 * (4 * 128)) by (nonlinear_arith)
                        requires
                            rect.byte_len() == rect.height * (4 * rect.width),
                            rect.width <= 128,
                            rect.height <= 128,
                    ;
                }
                patches.push(
                    RemoteDesktopPatch {
                        x,
                        y,
                        width: rect.width,
                        height: rect.height,
                        encoded_len: encoded.len() as u32,
                    },
                );
                payload.extend_from_slice(encoded.as_slice());
                assert(payload@ =~= sent_payload(given, self@.previous, keyframe, k + 1));
            }
            k += 1;
        }
        if patches.len() == 0 {
            return Ok(None);
        }
        let ghost previous = self@.previous;
        self.frame_id = self.frame_id + 1;
        self.previous = frame.rgba.clone();
        self.force_keyframe = false;
        let made = RemoteDesktopFrame {
            header: RemoteDesktopFrameHeader {
                stream_type: REMOTE_DESKTOP_STREAM_TYPE.to_owned(),
                session_id: self.session_id.clone(),
                frame_id: self.frame_id,
                width,
                height,
                keyframe,
                patches,
            },
            payload,
        };
        assert(self@ =~= s.sent(given));
        assert(made@ =~= s.frame_for(given));
        proof {
            lemma_frame_is_valid(s, given);
        }
        match made.validate() {
            Err(e) => Err(EncodeError::Invalid(e)),
            Ok(_) => {
                proof {
                    lemma_sent_frame_shows(s, given);
                }
                Ok(Some(made))
            },
        }
    }
}

fn count_tiles(rows: u32, columns: u32) -> (r: u64)
    ensures
        r == rows * columns,
{
    proof {
        assert(rows as int * columns as int <= 0xffff_ffff * 0xffff_ffff) by (nonlinear_arith)
            requires
                rows <= 0xffff_ffff,
                columns <= 0xffff_ffff,
        ;
        assert(rows as int * columns as int >= 0) by (nonlinear_arith);
    }
    rows as u64 * columns as u64
}

/// How long the PNG file of a square is at most.
pub const MAX_SQUARE_LEN: usize = 132096;

/// The PNG files of the squares that are sent give the squares back and are not long.
spec fn pieces_fit(frame: RawFrameView, previous: Seq<u8>, keyframe: bool, k: int) -> bool {
    forall|j: int|
        0 <= j < k && is_sent(frame, previous, keyframe, j) ==> {
            let rect = tiles::grid_rect(frame.width, frame.height, j);
            &&& png::png_picture(#[trigger] square_bytes(frame, j)) == Some(
                (rect.width, rect.height, tiles::tile(frame.rgba, frame.width, rect)),
            )
            &&& square_bytes(frame, j).len() <= MAX_SQUARE_LEN
        }
}

/// The patches for the first `k` squares lie in the picture and belong to their payload, which is
/// not long.
proof fn lemma_patches_are_valid(frame: RawFrameView, previous: Seq<u8>, keyframe: bool, k: int)
    requires
        0 <= k <= tiles::grid_len(frame.width, frame.height),
        k <= remote_desktop::MAX_DESKTOP_PATCHES,
        pieces_fit(frame, previous, keyframe, k),
    ensures
        ({
            let n = sent_payload(frame, previous, keyframe, k).len() as int;
            &&& remote_desktop::payload_len(
                sent_patches(frame, previous, keyframe, k),
                frame.width,
                frame.height,
            ) == Ok::<int, DesktopError>(n)
            &&& n <= k * MAX_SQUARE_LEN
        }),
    decreases k,
{
    if k > 0 {
        lemma_patches_are_valid(frame, previous, keyframe, k - 1);
        tiles::grid_lies_in_the_picture(frame.width, frame.height, k - 1);
        let before = sent_patches(frame, previous, keyframe, k - 1);
        let patches = sent_patches(frame, previous, keyframe, k);
        if is_sent(frame, previous, keyframe, k - 1) {
            assert(patches.drop_last() == before);
            assert(square_bytes(frame, k - 1).len() <= MAX_SQUARE_LEN);
            assert(patches.last().lies_in(frame.width, frame.height));
        }
    }
}

/// The frame for a picture is valid unless there is an objection to it.
proof fn lemma_frame_is_valid(s: FrameEncoderView, frame: RawFrameView)
    requires
        pieces_fit(
            frame,
            s.prepared(frame).previous,
            s.is_keyframe(frame),
            tiles::grid_len(frame.width, frame.height),
        ),
    ensures
        s.frame_for(frame).checked() == match s.objection(frame) {
            Some(e) => Err::<(), DesktopError>(e),
            None => Ok(()),
        },
{
    if s.objection(frame) is None {
        let n = tiles::grid_len(frame.width, frame.height);
        assert(n >= 0) by (nonlinear_arith)
            requires
                n == tiles::tile_count(frame.height) * tiles::tile_count(frame.width),
                tiles::tile_count(frame.height) >= 0,
                tiles::tile_count(frame.width) >= 0,
        ;
        tiles::grid_of_a_desktop_is_small(frame.width, frame.height);
        frames_have_few_patches(s, frame);
        lemma_patches_are_valid(frame, s.prepared(frame).previous, s.is_keyframe(frame), n);
    }
}

/// The payload is no shorter than the patches say; it is longer where the length of a file did not
/// fit its number.
proof fn lemma_lengths_fit(frame: RawFrameView, previous: Seq<u8>, keyframe: bool, k: int)
    requires
        0 <= k,
    ensures
        ({
            let patches = sent_patches(frame, previous, keyframe, k);
            let payload = sent_payload(frame, previous, keyframe, k);
            &&& payload_offset(patches, patches.len() as int) <= payload.len()
            &&& payload_offset(patches, patches.len() as int) == payload.len() ==> forall|j: int|
                0 <= j < k && is_sent(frame, previous, keyframe, j) ==> (#[trigger] square_bytes(
                    frame,
                    j,
                )).len() <= u32::MAX
        }),
    decreases k,
{
    if k > 0 {
        lemma_lengths_fit(frame, previous, keyframe, k - 1);
        let before = sent_patches(frame, previous, keyframe, k - 1);
        let patches = sent_patches(frame, previous, keyframe, k);
        if is_sent(frame, previous, keyframe, k - 1) {
            lemma_offset_prefix(before, patches, before.len() as int);
            let n = square_bytes(frame, k - 1).len();
            assert(n <= u32::MAX ==> n as u32 == n);
        }
    }
}

/// Of the first `k` squares each one that is sent has its patch, and the patch its bytes.
proof fn lemma_patches_hold_squares(frame: RawFrameView, previous: Seq<u8>, keyframe: bool, k: int)
    requires
        0 <= k <= tiles::grid_len(frame.width, frame.height),
        pieces_fit(frame, previous, keyframe, k),
        forall|j: int|
            0 <= j < k && is_sent(frame, previous, keyframe, j) ==> (#[trigger] square_bytes(
                frame,
                j,
            )).len() <= u32::MAX,
    ensures
        ({
            let patches = sent_patches(frame, previous, keyframe, k);
            let payload = sent_payload(frame, previous, keyframe, k);
            &&& payload_offset(patches, patches.len() as int) == payload.len()
            &&& forall|m: int|
                0 <= m < patches.len() ==> #[trigger] png::png_picture(
                    payload.subrange(payload_offset(patches, m), payload_offset(patches, m + 1)),
                ) == Some(
                    (
                        patches[m].width,
                        patches[m].height,
                        tiles::tile(frame.rgba, frame.width, rect_of(patches[m])),
                    ),
                )
        }),
    decreases k,
{
    if k > 0 {
        lemma_patches_hold_squares(frame, previous, keyframe, k - 1);
        let before = sent_patches(frame, previous, keyframe, k - 1);
        let old_payload = sent_payload(frame, previous, keyframe, k - 1);
        let patches = sent_patches(frame, previous, keyframe, k);
        let payload = sent_payload(frame, previous, keyframe, k);
        if is_sent(frame, previous, keyframe, k - 1) {
            let bytes = square_bytes(frame, k - 1);
            lemma_offset_prefix(before, patches, before.len() as int);
            assert forall|m: int| 0 <= m < patches.len() implies #[trigger] png::png_picture(
                payload.subrange(payload_offset(patches, m), payload_offset(patches, m + 1)),
            ) == Some(
                (
                    patches[m].width,
                    patches[m].height,
                    tiles::tile(frame.rgba, frame.width, rect_of(patches[m])),
                ),
            ) by {
                if m < before.len() {
                    lemma_offset_prefix(before, patches, m);
                    lemma_offset_prefix(before, patches, m + 1);
                    lemma_offset_grows(before, m, m + 1);
                    lemma_offset_grows(before, m + 1, before.len() as int);
                    assert(payload.subrange(
                        payload_offset(patches, m),
                        payload_offset(patches, m + 1),
                    ) =~= old_payload.subrange(
                        payload_offset(before, m),
                        payload_offset(before, m + 1),
                    ));
                    assert(png::png_picture(
                        old_payload.subrange(
                            payload_offset(before, m),
                            payload_offset(before, m + 1),
                        ),
                    ) == Some(
                        (
                            before[m].width,
                            before[m].height,
                            tiles::tile(frame.rgba, frame.width, rect_of(before[m])),
                        ),
                    ));
                } else {
                    assert(payload.subrange(
                        payload_offset(patches, m),
                        payload_offset(patches, m + 1),
                    ) =~= bytes);
                    let rect = tiles::grid_rect(frame.width, frame.height, k - 1);
                    assert(rect_of(patches[m]) == rect);
                }
            }
        }
    }
}

proof fn lemma_sent_frame_shows(s: FrameEncoderView, frame: RawFrameView)
    requires
        s.frame_for(frame).checked() is Ok,
        pieces_fit(
            frame,
            s.prepared(frame).previous,
            s.is_keyframe(frame),
            tiles::grid_len(frame.width, frame.height),
        ),
    ensures
        shows(s.frame_for(frame), frame.rgba),
{
    let f = s.frame_for(frame);
    let n = tiles::grid_len(frame.width, frame.height);
    let previous = s.prepared(frame).previous;
    let keyframe = s.is_keyframe(frame);
    assert(n >= 0) by {
        let c = tiles::tile_count(frame.width);
        let r = tiles::tile_count(frame.height);
        assert(r * c >= 0) by (nonlinear_arith)
            requires
                r >= 0,
                c >= 0,
        ;
    }
    lemma_payload_len(f.header.patches, f.header.width, f.header.height);
    lemma_lengths_fit(frame, previous, keyframe, n);
    lemma_patches_hold_squares(frame, previous, keyframe, n);
}

/// Does byte `i` of the picture lie in one of the first `k` patches?
spec fn is_patched(f: RemoteDesktopFrameView, k: int, i: int) -> bool {
    exists|m: int|
        0 <= m < k && tiles::in_rect(i, f.header.width, rect_of(#[trigger] f.header.patches[m]))
}

/// Putting in the patches of a picture copies it where they lie and leaves the rest.
proof fn lemma_painting_copies(
    canvas: Seq<u8>,
    f: RemoteDesktopFrameView,
    pixels: Seq<u8>,
    k: int,
)
    requires
        0 <= k <= f.header.patches.len(),
        canvas.len() == tiles::picture_len(f.header.width, f.header.height),
        pixels.len() == canvas.len(),
        shows(f, pixels),
        forall|m: int|
            0 <= m < f.header.patches.len() ==> rect_of(#[trigger] f.header.patches[m]).lies_in(
                f.header.width,
                f.header.height,
            ),
    ensures
        painted(canvas, f, k).1 is None,
        painted(canvas, f, k).0.len() == canvas.len(),
        forall|i: int|
            0 <= i < canvas.len() ==> #[trigger] painted(canvas, f, k).0[i] == if is_patched(
                f,
                k,
                i,
            ) {
                pixels[i]
            } else {
                canvas[i]
            },
    decreases k,
{
    if k > 0 {
        lemma_painting_copies(canvas, f, pixels, k - 1);
        let before = painted(canvas, f, k - 1).0;
        let patch = f.header.patches[k - 1];
        let rect = rect_of(patch);
        assert(png::png_picture(patch_bytes(f, k - 1)) == Some(
            (patch.width, patch.height, tiles::tile(pixels, f.header.width, rect)),
        ));
        tiles::pasting_a_tile_copies_it(before, pixels, f.header.width, f.header.height, rect);
        let after = painted(canvas, f, k).0;
        assert forall|i: int| 0 <= i < canvas.len() implies #[trigger] after[i] == if is_patched(
            f,
            k,
            i,
        ) {
            pixels[i]
        } else {
            canvas[i]
        } by {
            if tiles::in_rect(i, f.header.width, rect) {
                assert(is_patched(f, k, i));
            } else if is_patched(f, k, i) {
                let m = choose|m: int|
                    0 <= m < k && tiles::in_rect(
                        i,
                        f.header.width,
                        rect_of(#[trigger] f.header.patches[m]),
                    );
                assert(m < k - 1);
                assert(is_patched(f, k - 1, i));
            } else {
                assert(!is_patched(f, k - 1, i));
            }
        }
    }
}

/// A square that is sent has its patch.
proof fn lemma_sent_square_has_a_patch(
    frame: RawFrameView,
    previous: Seq<u8>,
    keyframe: bool,
    k: int,
    j: int,
)
    requires
        0 <= j < k,
        is_sent(frame, previous, keyframe, j),
    ensures
        exists|m: int|
            0 <= m < sent_patches(frame, previous, keyframe, k).len() && rect_of(
                #[trigger] sent_patches(frame, previous, keyframe, k)[m],
            ) == tiles::grid_rect(frame.width, frame.height, j),
    decreases k,
{
    let before = sent_patches(frame, previous, keyframe, k - 1);
    let patches = sent_patches(frame, previous, keyframe, k);
    if j < k - 1 {
        lemma_sent_square_has_a_patch(frame, previous, keyframe, k - 1, j);
        let m = choose|m: int|
            0 <= m < before.len() && rect_of(#[trigger] before[m]) == tiles::grid_rect(
                frame.width,
                frame.height,
                j,
            );
        assert(patches[m] == before[m]);
    } else {
        let m = before.len() as int;
        assert(rect_of(patches[m]) == tiles::grid_rect(frame.width, frame.height, j));
    }
}

/// Shows the viewer what the encoder last sent.
pub open spec fn in_step(e: FrameEncoderView, d: FrameDecoderView) -> bool {
    &&& d.session_id == e.session_id
    &&& d.last_frame_id <= e.frame_id
    &&& d.ready
    &&& d.width == e.width
    &&& d.height == e.height
    &&& d.rgba == e.previous
}

/// A frame shows the picture that it was made of. A whole picture does so at every decoder of the
/// session that has not seen a later frame; what has changed does so at a decoder that shows what
/// was sent last. Afterwards the decoder shows what was sent last.
pub proof fn a_frame_shows_its_picture(
    e: FrameEncoderView,
    d: FrameDecoderView,
    frame: RawFrameView,
)
    requires
        e.frame_id < u64::MAX,
        has_its_pixels(frame),
        e.frame_for(frame).checked() is Ok,
        shows(e.frame_for(frame), frame.rgba),
        d.session_id == e.session_id,
        d.last_frame_id <= e.frame_id,
        e.is_keyframe(frame) || in_step(e, d),
    ensures
        d.apply(e.frame_for(frame)).1 is None,
        d.apply(e.frame_for(frame)).0.rgba == frame.rgba,
        d.apply(e.frame_for(frame)).0.width == frame.width,
        d.apply(e.frame_for(frame)).0.height == frame.height,
        in_step(e.sent(frame), d.apply(e.frame_for(frame)).0),
{
    let f = e.frame_for(frame);
    let s = d.prepared(f);
    let previous = e.prepared(frame).previous;
    let keyframe = e.is_keyframe(frame);
    let n = tiles::grid_len(frame.width, frame.height);
    let all = f.header.patches.len() as int;
    assert(f.header.frame_id == e.frame_id + 1);
    assert(d.objection(f) is None);
    lemma_payload_len(f.header.patches, f.header.width, f.header.height);
    lemma_painting_copies(s.rgba, f, frame.rgba, all);
    let after = painted(s.rgba, f, all).0;
    assert forall|i: int| 0 <= i < after.len() implies after[i] == frame.rgba[i] by {
        let k = tiles::grid_covers_the_picture(frame.width, frame.height, i);
        let rect = tiles::grid_rect(frame.width, frame.height, k);
        tiles::grid_lies_in_the_picture(frame.width, frame.height, k);
        if is_sent(frame, previous, keyframe, k) {
            lemma_sent_square_has_a_patch(frame, previous, keyframe, n, k);
            let m = choose|m: int|
                0 <= m < f.header.patches.len() && rect_of(#[trigger] f.header.patches[m]) == rect;
            assert(is_patched(f, all, i));
        } else {
            tiles::equal_tiles_are_equal_inside(
                frame.rgba,
                previous,
                frame.width,
                frame.height,
                rect,
                i,
            );
        }
    }
    assert(after =~= frame.rgba);
}

/// Where nothing is sent the decoder already shows the picture.
pub proof fn silence_means_no_change(e: FrameEncoderView, d: FrameDecoderView, frame: RawFrameView)
    requires
        has_its_pixels(frame),
        e.frame_for(frame).header.patches.len() == 0,
        in_step(e, d),
        frame.width > 0 && frame.height > 0,
    ensures
        d.rgba == frame.rgba,
        e.prepared(frame) == e,
{
    let f = e.frame_for(frame);
    let previous = e.prepared(frame).previous;
    let keyframe = e.is_keyframe(frame);
    let n = tiles::grid_len(frame.width, frame.height);
    assert(tiles::picture_len(frame.width, frame.height) > 0) by (nonlinear_arith)
        requires
            frame.width > 0,
            frame.height > 0,
    ;
    assert forall|i: int| 0 <= i < frame.rgba.len() implies previous[i] == frame.rgba[i]
        && !keyframe by {
        let k = tiles::grid_covers_the_picture(frame.width, frame.height, i);
        let rect = tiles::grid_rect(frame.width, frame.height, k);
        tiles::grid_lies_in_the_picture(frame.width, frame.height, k);
        if is_sent(frame, previous, keyframe, k) {
            lemma_sent_square_has_a_patch(frame, previous, keyframe, n, k);
        }
        tiles::equal_tiles_are_equal_inside(
            frame.rgba,
            previous,
            frame.width,
            frame.height,
            rect,
            i,
        );
    }
    assert(!keyframe && previous[0] == frame.rgba[0]);
    assert(d.rgba =~= frame.rgba);
}

/// A picture that is sent whole has a patch for every square, in the order of the squares, whatever
/// it shows.
pub proof fn a_keyframe_sends_every_square(e: FrameEncoderView, frame: RawFrameView)
    requires
        e.is_keyframe(frame),
    ensures
        ({
            let patches = e.frame_for(frame).header.patches;
            &&& e.frame_for(frame).header.keyframe
            &&& patches.len() == tiles::grid_len(frame.width, frame.height)
            &&& forall|k: int|
                0 <= k < patches.len() ==> rect_of(#[trigger] patches[k]) == tiles::grid_rect(
                    frame.width,
                    frame.height,
                    k,
                )
        }),
{
    let n = tiles::grid_len(frame.width, frame.height);
    assert(n >= 0) by (nonlinear_arith)
        requires
            n == tiles::tile_count(frame.height) * tiles::tile_count(frame.width),
            tiles::tile_count(frame.height) >= 0,
            tiles::tile_count(frame.width) >= 0,
    ;
    lemma_whole_patches(frame, e.prepared(frame).previous, n);
}

proof fn lemma_whole_patches(frame: RawFrameView, previous: Seq<u8>, k: int)
    requires
        0 <= k,
    ensures
        sent_patches(frame, previous, true, k).len() == k,
        forall|m: int|
            0 <= m < k ==> rect_of(#[trigger] sent_patches(frame, previous, true, k)[m])
                == tiles::grid_rect(frame.width, frame.height, m),
    decreases k,
{
    if k > 0 {
        lemma_whole_patches(frame, previous, k - 1);
        let before = sent_patches(frame, previous, true, k - 1);
        assert forall|m: int| 0 <= m < k implies rect_of(
            #[trigger] sent_patches(frame, previous, true, k)[m],
        ) == tiles::grid_rect(frame.width, frame.height, m) by {
            if m < k - 1 {
                assert(sent_patches(frame, previous, true, k)[m] == before[m]);
            }
        }
    }
}

/// The same picture again makes no frame.
pub proof fn an_unchanged_picture_is_not_sent(e: FrameEncoderView, frame: RawFrameView)
    requires
        has_its_pixels(frame),
    ensures
        !e.sent(frame).is_keyframe(frame),
        e.sent(frame).frame_for(frame).header.patches.len() == 0,
        e.sent(frame).prepared(frame) == e.sent(frame),
{
    lemma_no_patches(frame, tiles::grid_len(frame.width, frame.height));
}

proof fn lemma_no_patches(frame: RawFrameView, k: int)
    ensures
        sent_patches(frame, frame.rgba, false, k).len() == 0,
    decreases k,
{
    if k > 0 {
        lemma_no_patches(frame, k - 1);
    }
}

/// A picture of a size that can be shared never takes more patches than a frame may have.
pub proof fn frames_have_few_patches(e: FrameEncoderView, frame: RawFrameView)
    requires
        frame.width <= MAX_DESKTOP_WIDTH,
        frame.height <= MAX_DESKTOP_HEIGHT,
    ensures
        e.frame_for(frame).header.patches.len() <= remote_desktop::MAX_DESKTOP_PATCHES,
{
    let n = tiles::grid_len(frame.width, frame.height);
    tiles::grid_of_a_desktop_is_small(frame.width, frame.height);
    lemma_patch_count(frame, e.prepared(frame).previous, e.is_keyframe(frame), n);
}

proof fn lemma_patch_count(frame: RawFrameView, previous: Seq<u8>, keyframe: bool, k: int)
    ensures
        sent_patches(frame, previous, keyframe, k).len() <= if k > 0 {
            k
        } else {
            0
        },
    decreases k,
{
    if k > 0 {
        lemma_patch_count(frame, previous, keyframe, k - 1);
    }
}

/// Without a keyframe nothing is shown that is not complete: a fresh decoder refuses what has only
/// changed.
pub proof fn a_fresh_decoder_needs_a_keyframe(session_id: Seq<char>, f: RemoteDesktopFrameView)
    requires
        !f.header.keyframe,
    ensures
        FrameDecoderView::start(session_id).apply(f).1 is Some,
        FrameDecoderView::start(session_id).apply(f).0 == FrameDecoderView::start(session_id),
{
}

/// A frame is taken up exactly where it is valid, of this session, newer than the last, and whole
/// unless the picture that it changes is there in its size; one that is not leaves the decoder as it
/// is.
pub proof fn only_fitting_frames_are_taken_up(d: FrameDecoderView, f: RemoteDesktopFrameView)
    ensures
        ({
            let fits = f.checked() is Ok && f.header.session_id == d.session_id
                && f.header.frame_id > d.last_frame_id && (f.header.keyframe || (d.ready
                && f.header.width == d.width && f.header.height == d.height));
            &&& d.objection(f) is None <==> fits
            &&& !fits ==> d.apply(f).0 == d && d.apply(f).1 == d.objection(f) && d.apply(f).1 is Some
            &&& d.apply(f).1 is None ==> {
                &&& fits
                &&& d.apply(f).0.last_frame_id == f.header.frame_id
                &&& d.apply(f).0.ready
                &&& d.apply(f).0.session_id == d.session_id
                &&& d.apply(f).0.width == f.header.width
                &&& d.apply(f).0.height == f.header.height
            }
            &&& fits && d.apply(f).1 is Some ==> d.apply(f).0.last_frame_id == d.last_frame_id && (
            f.header.keyframe ==> !d.apply(f).0.ready)
        }),
{
}

/// Between whole pictures a frame holds the squares that have changed and no others.
pub proof fn unchanged_squares_are_not_sent(e: FrameEncoderView, frame: RawFrameView, m: int)
    requires
        !e.is_keyframe(frame),
        0 <= m < e.frame_for(frame).header.patches.len(),
    ensures
        !e.frame_for(frame).header.keyframe,
        exists|k: int|
            {
                let rect = #[trigger] tiles::grid_rect(frame.width, frame.height, k);
                &&& 0 <= k < tiles::grid_len(frame.width, frame.height)
                &&& rect_of(e.frame_for(frame).header.patches[m]) == rect
                &&& tiles::tile(frame.rgba, frame.width, rect) != tiles::tile(
                    e.previous,
                    frame.width,
                    rect,
                )
            },
{
    lemma_patch_is_of_a_change(
        frame,
        e.previous,
        tiles::grid_len(frame.width, frame.height),
        m,
    );
}

proof fn lemma_patch_is_of_a_change(frame: RawFrameView, previous: Seq<u8>, n: int, m: int)
    requires
        0 <= m < sent_patches(frame, previous, false, n).len(),
    ensures
        exists|k: int|
            {
                let rect = #[trigger] tiles::grid_rect(frame.width, frame.height, k);
                &&& 0 <= k < n
                &&& rect_of(sent_patches(frame, previous, false, n)[m]) == rect
                &&& tiles::tile(frame.rgba, frame.width, rect) != tiles::tile(
                    previous,
                    frame.width,
                    rect,
                )
            },
    decreases n,
{
    if n > 0 {
        let before = sent_patches(frame, previous, false, n - 1);
        if m < before.len() {
            lemma_patch_is_of_a_change(frame, previous, n - 1, m);
            let k = choose|k: int|
                {
                    let rect = #[trigger] tiles::grid_rect(frame.width, frame.height, k);
                    &&& 0 <= k < n - 1
                    &&& rect_of(before[m]) == rect
                    &&& tiles::tile(frame.rgba, frame.width, rect) != tiles::tile(
                        previous,
                        frame.width,
                        rect,
                    )
                };
            let rect = tiles::grid_rect(frame.width, frame.height, k);
            assert(sent_patches(frame, previous, false, n)[m] == before[m]);
        } else {
            let rect = tiles::grid_rect(frame.width, frame.height, n - 1);
            assert(rect_of(sent_patches(frame, previous, false, n)[m]) == rect);
        }
    }
}

/// A picture is sent whole where that was asked for, where nothing was sent before, and where its
/// size has changed, and only then. Frames are numbered one after the other.
pub proof fn whole_pictures_are_sent_where_needed(e: FrameEncoderView, frame: RawFrameView)
    requires
        e.frame_id < u64::MAX,
    ensures
        FrameEncoderView::start(e.session_id).is_keyframe(frame),
        e.force_keyframe ==> e.is_keyframe(frame),
        e.width != frame.width || e.height != frame.height ==> e.is_keyframe(frame),
        e.sent(frame).is_keyframe(frame) == false,
        !e.force_keyframe && e.width == frame.width && e.height == frame.height
            && e.previous.len() == frame.rgba.len() ==> !e.is_keyframe(frame),
        e.frame_for(frame).header.frame_id == e.frame_id + 1,
        e.sent(frame).frame_id == e.frame_id + 1,
        e.sent(frame).previous == frame.rgba,
        e.sent(frame).session_id == e.session_id && e.frame_for(frame).header.session_id
            == e.session_id,
        e.frame_for(frame).header.width == frame.width && e.frame_for(frame).header.height
            == frame.height,
        FrameEncoderView::start(e.session_id).frame_id == 0,
{
}

}
