//! The screen: which displays there are, and pictures of them as they are captured.
use crate::frames::{RawFrame, RawFrameView};
use crate::remote_desktop::{
    RemoteDesktopConfig, RemoteDisplay, RemoteDisplayView, MAX_DESKTOP_HEIGHT, MAX_DESKTOP_WIDTH,
};
use crate::tiles::Rect;
use crate::{frames, text, tiles};
use vstd::arithmetic::div_mod::*;
use vstd::prelude::*;

verus! {

/// Can this client show its desktop?
pub fn is_supported(target_os: &str) -> (r: bool)
    ensures
        r == (target_os@ == "windows"@),
{
    text::same_text(target_os, "windows")
}

/// The text that a sequence of UTF-16 units stands for, with a replacement for what is none.
pub uninterp spec fn utf16_text(units: Seq<u16>) -> Seq<char>;

/// `String::from_utf16_lossy`: the text of UTF-16 units, a replacement character standing for each
/// unit that makes no character.
#[verifier::external_body]
fn from_utf16(units: &[u16]) -> (r: String)
    ensures
        r@ == utf16_text(units@),
{
    String::from_utf16_lossy(units)
}

/// The units before the first zero.
pub open spec fn until_zero(units: Seq<u16>) -> Seq<u16>
    decreases units.len(),
{
    if units.len() == 0 || units[0] == 0 {
        Seq::empty()
    } else {
        seq![units[0]] + until_zero(units.skip(1))
    }
}

proof fn lemma_until_zero(units: Seq<u16>, n: int)
    requires
        0 <= n <= units.len(),
        forall|i: int| 0 <= i < n ==> units[i] != 0,
        n < units.len() ==> units[n] == 0,
    ensures
        until_zero(units) == units.take(n),
    decreases units.len(),
{
    if n > 0 {
        assert forall|i: int| 0 <= i < n - 1 implies units.skip(1)[i] != 0 by {
            assert(units.skip(1)[i] == units[i + 1]);
        }
        lemma_until_zero(units.skip(1), n - 1);
        assert(seq![units[0]] + units.skip(1).take(n - 1) =~= units.take(n));
    } else {
        assert(units.take(0) =~= Seq::<u16>::empty());
    }
}

/// The units of a name that ends in a zero or with the list.
pub fn name_units(value: &[u16]) -> (r: &[u16])
    ensures
        r@ == until_zero(value@),
{
    let mut n: usize = 0;
    while n < value.len() && value[n] != 0
        invariant
            n <= value@.len(),
            forall|i: int| 0 <= i < n ==> value@[i] != 0,
        decreases value@.len() - n,
    {
        n += 1;
    }
    proof {
        lemma_until_zero(value@, n as int);
        assert(value@.subrange(0, n as int) =~= value@.take(n as int));
    }
    &value[0..n]
}

/// A name that ends in a zero or with the list.
pub fn wide_name(value: &[u16]) -> (r: String)
    ensures
        r@ == utf16_text(until_zero(value@)),
{
    from_utf16(name_units(value))
}

/// Where a display lies on the desktop.
#[derive(Debug, Clone, Copy, PartialEq, Eq, Structural)]
pub struct Bounds {
    pub left: i32,
    pub top: i32,
    pub right: i32,
    pub bottom: i32,
}

impl Bounds {
    /// Can the sides be counted?
    pub open spec fn is_measurable(self) -> bool {
        &&& i32::MIN <= self.right - self.left <= i32::MAX
        &&& i32::MIN <= self.bottom - self.top <= i32::MAX
    }
}

/// A length that is not negative.
pub open spec fn extent(low: i32, high: i32) -> int {
    if high - low < 0 {
        0
    } else {
        high - low
    }
}

fn side(low: i32, high: i32) -> (r: u32)
    requires
        i32::MIN <= high - low <= i32::MAX,
    ensures
        r == extent(low, high),
{
    if high - low < 0 {
        0
    } else {
        (high - low) as u32
    }
}

/// The display at an output of a graphics adapter of Windows.
pub fn windows_display(adapter: u32, output: u32, name: &[u16], bounds: Bounds) -> (r: RemoteDisplay)
    requires
        bounds.is_measurable(),
    ensures
        r@ == (RemoteDisplayView {
            id: text::decimal_text(adapter as nat) + ":"@ + text::decimal_text(output as nat),
            name: utf16_text(until_zero(name@)),
            width: extent(bounds.left, bounds.right) as u32,
            height: extent(bounds.top, bounds.bottom) as u32,
        }),
{
    let a = text::decimal(adapter as u64);
    let o = text::decimal(output as u64);
    RemoteDisplay {
        id: text::concat3(a.as_str(), ":", o.as_str()),
        name: wide_name(name),
        width: side(bounds.left, bounds.right),
        height: side(bounds.top, bounds.bottom),
    }
}

/// The display with this number on a Macintosh, the `index`th of the list.
pub open spec fn display_of_macos(
    id: u32,
    main: u32,
    index: u32,
    pixels_wide: u64,
    pixels_high: u64,
) -> RemoteDisplayView {
    RemoteDisplayView {
        id: text::decimal_text(id as nat),
        name: if id == main {
            "主显示器"@
        } else {
            "显示器 "@ + text::decimal_text((index + 1) as nat)
        },
        width: if pixels_wide > u32::MAX {
            u32::MAX
        } else {
            pixels_wide as u32
        },
        height: if pixels_high > u32::MAX {
            u32::MAX
        } else {
            pixels_high as u32
        },
    }
}

/// The display with this number on a Macintosh, the `index`th of the list.
pub fn macos_display(id: u32, main: u32, index: u32, pixels_wide: u64, pixels_high: u64) -> (r: RemoteDisplay)
    ensures
        r@ == (RemoteDisplayView {
            id: text::decimal_text(id as nat),
            name: if id == main {
                "主显示器"@
            } else {
                "显示器 "@ + text::decimal_text((index + 1) as nat)
            },
            width: if pixels_wide > u32::MAX {
                u32::MAX
            } else {
                pixels_wide as u32
            },
            height: if pixels_high > u32::MAX {
                u32::MAX
            } else {
                pixels_high as u32
            },
        }),
        r@ == display_of_macos(id, main, index, pixels_wide, pixels_high),
{
    let name = if id == main {
        "主显示器".to_owned()
    } else {
        let n = text::decimal(index as u64 + 1);
        text::concat("显示器 ", n.as_str())
    };
    RemoteDisplay {
        id: text::decimal(id as u64),
        name,
        width: if pixels_wide > u32::MAX as u64 {
            u32::MAX
        } else {
            pixels_wide as u32
        },
        height: if pixels_high > u32::MAX as u64 {
            u32::MAX
        } else {
            pixels_high as u32
        },
    }
}

/// An output of a graphics adapter of Windows that is part of the desktop.
#[derive(Debug)]
pub struct DisplayOutput {
    pub adapter: u32,
    pub output: u32,
    pub name: Vec<u16>,
    pub bounds: Bounds,
}

/// The display at an output.
pub open spec fn display_at(o: DisplayOutput) -> RemoteDisplayView {
    RemoteDisplayView {
        id: output_id(o),
        name: utf16_text(until_zero(o.name@)),
        width: extent(o.bounds.left, o.bounds.right) as u32,
        height: extent(o.bounds.top, o.bounds.bottom) as u32,
    }
}

/// By what a display is found again: its adapter and its output.
pub open spec fn output_id(o: DisplayOutput) -> Seq<char> {
    text::decimal_text(o.adapter as nat) + ":"@ + text::decimal_text(o.output as nat)
}

/// The displays that can be shared on Windows, in the order of their outputs.
pub fn available_displays(outputs: &Vec<DisplayOutput>) -> (r: Vec<RemoteDisplay>)
    requires
        forall|i: int|
            0 <= i < outputs@.len() ==> (#[trigger] outputs@[i]).bounds.is_measurable(),
    ensures
        r@.len() == outputs@.len(),
        forall|i: int| 0 <= i < r@.len() ==> (#[trigger] r@[i])@ == display_at(outputs@[i]),
{
    let mut r: Vec<RemoteDisplay> = Vec::new();
    let mut i: usize = 0;
    while i < outputs.len()
        invariant
            i <= outputs@.len(),
            r@.len() == i,
            forall|j: int|
                0 <= j < outputs@.len() ==> (#[trigger] outputs@[j]).bounds.is_measurable(),
            forall|j: int| 0 <= j < i ==> (#[trigger] r@[j])@ == display_at(outputs@[j]),
        decreases outputs@.len() - i,
    {
        let o = &outputs[i];
        r.push(windows_display(o.adapter, o.output, o.name.as_slice(), o.bounds));
        i += 1;
    }
    r
}

/// Outputs of different adapters, and different outputs of one adapter, go by different
/// identifiers.
pub proof fn identifiers_tell_outputs_apart(a: DisplayOutput, b: DisplayOutput)
    requires
        output_id(a) == output_id(b),
    ensures
        a.adapter == b.adapter,
        a.output == b.output,
{
    reveal_strlit(":");
    let (m, n) = (text::decimal_text(a.adapter as nat), text::decimal_text(b.adapter as nat));
    let (p, q) = (text::decimal_text(a.output as nat), text::decimal_text(b.output as nat));
    text::lemma_decimal_digits(a.adapter as nat);
    text::lemma_decimal_digits(b.adapter as nat);
    let id = output_id(a);
    assert(id[m.len() as int] == ':');
    assert(id[n.len() as int] == ':');
    if m.len() < n.len() {
        assert(id[m.len() as int] == n[m.len() as int]);
    }
    if n.len() < m.len() {
        assert(id[n.len() as int] == m[n.len() as int]);
    }
    assert(m =~= id.take(m.len() as int));
    assert(n =~= id.take(n.len() as int));
    assert(p =~= id.skip(m.len() as int + 1));
    assert(q =~= id.skip(n.len() as int + 1));
    text::decimal_tells_numbers_apart(a.adapter as nat, b.adapter as nat);
    text::decimal_tells_numbers_apart(a.output as nat, b.output as nat);
}

/// The output whose display goes by this identifier: the first, or the error that tells of its
/// absence.
pub fn find_output(outputs: &Vec<DisplayOutput>, display_id: &str, complaint: &str) -> (r: Result<
    usize,
    String,
>)
    ensures
        match r {
            Ok(i) => {
                &&& i < outputs@.len()
                &&& output_id(outputs@[i as int]) == display_id@
                &&& forall|j: int| 0 <= j < i ==> output_id(#[trigger] outputs@[j]) != display_id@
            },
            Err(words) => {
                &&& forall|j: int|
                    0 <= j < outputs@.len() ==> output_id(#[trigger] outputs@[j]) != display_id@
                &&& words@ == complaint@ + display_id@
            },
        },
{
    let mut i: usize = 0;
    while i < outputs.len()
        invariant
            i <= outputs@.len(),
            forall|j: int| 0 <= j < i ==> output_id(#[trigger] outputs@[j]) != display_id@,
        decreases outputs@.len() - i,
    {
        let a = text::decimal(outputs[i].adapter as u64);
        let o = text::decimal(outputs[i].output as u64);
        let id = text::concat3(a.as_str(), ":", o.as_str());
        if text::same_text(id.as_str(), display_id) {
            return Ok(i);
        }
        i += 1;
    }
    Err(text::concat(complaint, display_id))
}

/// Which byte of a blue-first pixel stands at this offset of a red-first one.
pub open spec fn swapped(offset: int) -> int {
    if offset % 4 == 0 {
        offset + 2
    } else if offset % 4 == 2 {
        offset - 2
    } else {
        offset
    }
}

/// Red-first pixels of blue-first rows, each of which may be longer than its pixels. Where the
/// picture is opaque the fourth byte of each pixel is full.
pub open spec fn rgba_of_bgra(
    width: int,
    height: int,
    row_bytes: int,
    source: Seq<u8>,
    opaque: bool,
) -> Seq<u8> {
    Seq::new(
        (height * (4 * width)) as nat,
        |i: int|
            if opaque && i % 4 == 3 {
                255u8
            } else {
                source[i / (4 * width) * row_bytes + swapped(i % (4 * width))]
            },
    )
}

/// Nothing, or what is wrong with the measures of a captured picture.
pub open spec fn measure_fault(width: int, height: int, row_bytes: int, len: int) -> Option<
    Seq<char>,
> {
    if 4 * width > usize::MAX {
        Some("屏幕行长度溢出"@)
    } else if row_bytes < 4 * width || len < row_bytes * height {
        Some("屏幕像素缓冲尺寸无效"@)
    } else {
        None
    }
}

fn convert_rows(width: usize, height: usize, row_bytes: usize, source: &[u8], opaque: bool) -> (r: Result<
    Vec<u8>,
    String,
>)
    ensures
        match (r, measure_fault(width as int, height as int, row_bytes as int, source@.len() as int)) {
            (Err(e), Some(words)) => e@ == words,
            (Ok(rgba), None) => rgba@ == rgba_of_bgra(
                width as int,
                height as int,
                row_bytes as int,
                source@,
                opaque,
            ),
            _ => false,
        },
{
    let pixel_bytes: usize = match width.checked_mul(4) {
        Some(n) => n,
        None => {
            return Err("屏幕行长度溢出".to_owned());
        },
    };
    let total: usize = source.len();
    let fits = match row_bytes.checked_mul(height) {
        Some(n) => n <= total,
        None => false,
    };
    if row_bytes < pixel_bytes || !fits {
        return Err("屏幕像素缓冲尺寸无效".to_owned());
    }
    let ghost line = 4 * width;
    let mut rgba: Vec<u8> = Vec::new();
    let mut y: usize = 0;
    let mut start: usize = 0;
    assert(0 * line == 0 && 0 * row_bytes == 0);
    while y < height
        invariant
            total == source@.len(),
            pixel_bytes == 4 * width,
            line == 4 * width,
            pixel_bytes <= row_bytes,
            row_bytes * height <= total,
            y <= height,
            start == y * row_bytes,
            rgba@.len() == y * line,
            forall|i: int|
                0 <= i < rgba@.len() ==> #[trigger] rgba@[i] == rgba_of_bgra(
                    width as int,
                    height as int,
                    row_bytes as int,
                    source@,
                    opaque,
                )[i],
        decreases height - y,
    {
        assert((y + 1) * row_bytes == y * row_bytes + row_bytes) by (nonlinear_arith);
        assert((y + 1) * row_bytes <= row_bytes * height) by (nonlinear_arith)
            requires
                y + 1 <= height,
        ;
        assert((y + 1) * line == y * line + line) by (nonlinear_arith);
        assert((y + 1) * line <= height * line) by (nonlinear_arith)
            requires
                y + 1 <= height,
                line >= 0,
        ;
        let mut offset: usize = 0;
        while offset < pixel_bytes
            invariant
                total == source@.len(),
                pixel_bytes == 4 * width,
                line == 4 * width,
                pixel_bytes <= row_bytes,
                y < height,
                start == y * row_bytes,
                start + row_bytes <= total,
                offset <= pixel_bytes,
                offset % 4 == 0,
                rgba@.len() == y * line + offset,
                (y + 1) * line <= height * line,
                (y + 1) * line == y * line + line,
                forall|i: int|
                    0 <= i < rgba@.len() ==> #[trigger] rgba@[i] == rgba_of_bgra(
                        width as int,
                        height as int,
                        row_bytes as int,
                        source@,
                        opaque,
                    )[i],
            decreases pixel_bytes - offset,
        {
            let ghost base = y * line + offset;
            proof {
                lemma_pixel(y as int, line, offset as int, 0);
                lemma_pixel(y as int, line, offset as int, 1);
                lemma_pixel(y as int, line, offset as int, 2);
                lemma_pixel(y as int, line, offset as int, 3);
            }
            let at: usize = start + offset;
            rgba.push(source[at + 2]);
            rgba.push(source[at + 1]);
            rgba.push(source[at]);
            rgba.push(
                if opaque {
                    255
                } else {
                    source[at + 3]
                },
            );
            proof {
                assert forall|i: int| 0 <= i < rgba@.len() implies #[trigger] rgba@[i]
                    == rgba_of_bgra(
                    width as int,
                    height as int,
                    row_bytes as int,
                    source@,
                    opaque,
                )[i] by {
                    if i >= base {
                        assert(i == base || i == base + 1 || i == base + 2 || i == base + 3);
                    }
                }
            }
            offset += 4;
        }
        start = start + row_bytes;
        y += 1;
    }
    assert(rgba@ =~= rgba_of_bgra(width as int, height as int, row_bytes as int, source@, opaque));
    Ok(rgba)
}

/// The place of a byte of a pixel: its row, its offset in the row and in the pixel.
proof fn lemma_pixel(row: int, line: int, offset: int, byte: int)
    requires
        0 <= row,
        0 <= offset,
        0 <= byte < 4,
        offset + 4 <= line,
        line % 4 == 0,
        offset % 4 == 0,
    ensures
        (row * line + offset + byte) / line == row,
        (row * line + offset + byte) % line == offset + byte,
        (row * line + offset + byte) % 4 == byte,
{
    lemma_fundamental_div_mod_converse(row * line + (offset + byte), line, row, offset + byte);
    let q = line / 4;
    assert(row * line == 4 * (row * q)) by (nonlinear_arith)
        requires
            line == 4 * q,
    ;
}

/// The pixels of a captured picture whose rows may be longer than its pixels.
pub fn bgra_rows_to_rgba(width: usize, height: usize, row_bytes: usize, source: &[u8]) -> (r: Result<
    Vec<u8>,
    String,
>)
    ensures
        match (r, measure_fault(width as int, height as int, row_bytes as int, source@.len() as int)) {
            (Err(e), Some(words)) => e@ == words,
            (Ok(rgba), None) => rgba@ == rgba_of_bgra(
                width as int,
                height as int,
                row_bytes as int,
                source@,
                false,
            ),
            _ => false,
        },
{
    convert_rows(width, height, row_bytes, source, false)
}

/// The white cross that marks the pointer, up to its `k`th pair of pixels.
pub open spec fn marked(rgba: Seq<u8>, width: u32, height: u32, x: u32, y: u32, k: int) -> Seq<u8>
    decreases k,
{
    if k <= 0 {
        rgba
    } else {
        let before = marked(rgba, width, height, x, y, k - 1);
        let offset = k - 1;
        let row = if y < height {
            y as int
        } else {
            height - 1
        };
        let column = if x < width {
            x as int
        } else {
            width - 1
        };
        let across = if x + offset < width {
            whitened(before, width, x + offset, row)
        } else {
            before
        };
        if y + offset < height {
            whitened(across, width, column, y + offset)
        } else {
            across
        }
    }
}

pub open spec fn pixel_rect(x: int, y: int) -> Rect {
    Rect { x: x as u32, y: y as u32, width: 1, height: 1 }
}

pub open spec fn white() -> Seq<u8> {
    seq![255u8, 255u8, 255u8, 255u8]
}

/// The picture with a white pixel.
pub open spec fn whitened(rgba: Seq<u8>, width: u32, x: int, y: int) -> Seq<u8> {
    tiles::pasted(rgba, width, pixel_rect(x, y), white())
}

fn whiten(rgba: &mut Vec<u8>, width: u32, height: u32, x: u32, y: u32)
    requires
        x < width,
        y < height,
        old(rgba)@.len() == tiles::picture_len(width, height),
    ensures
        final(rgba)@ == whitened(old(rgba)@, width, x as int, y as int),
        final(rgba)@.len() == old(rgba)@.len(),
{
    let bytes = [255u8, 255u8, 255u8, 255u8];
    assert(bytes@ =~= white());
    tiles::copy_patch_into_canvas(
        rgba,
        width,
        height,
        Rect { x, y, width: 1, height: 1 },
        bytes.as_slice(),
    );
}

/// Marks the pointer by a white cross of twelve pixels to the right and down.
pub fn draw_pointer_marker(rgba: &mut Vec<u8>, width: u32, height: u32, x: u32, y: u32)
    requires
        width > 0,
        height > 0,
        x <= u32::MAX - 12,
        y <= u32::MAX - 12,
        old(rgba)@.len() == tiles::picture_len(width, height),
    ensures
        final(rgba)@ == marked(old(rgba)@, width, height, x, y, 12),
        final(rgba)@.len() == old(rgba)@.len(),
{
    let row: u32 = if y < height {
        y
    } else {
        height - 1
    };
    let column: u32 = if x < width {
        x
    } else {
        width - 1
    };
    let mut offset: u32 = 0;
    while offset < 12
        invariant
            width > 0,
            height > 0,
            x <= u32::MAX - 12,
            y <= u32::MAX - 12,
            row < height,
            column < width,
            row == if y < height {
                y as int
            } else {
                height - 1
            },
            column == if x < width {
                x as int
            } else {
                width - 1
            },
            offset <= 12,
            rgba@.len() == tiles::picture_len(width, height),
            rgba@ == marked(old(rgba)@, width, height, x, y, offset as int),
        decreases 12 - offset,
    {
        if x + offset < width {
            whiten(rgba, width, height, x + offset, row);
        }
        if y + offset < height {
            whiten(rgba, width, height, column, y + offset);
        }
        offset += 1;
    }
}

/// The picture scaled to another size.
pub uninterp spec fn scaled(rgba: Seq<u8>, width: u32, height: u32, to_width: u32, to_height: u32) -> Seq<
    u8,
>;

/// `image::imageops::resize` with the triangle filter, on a picture of four bytes per pixel: the
/// picture in the other size. It is called for pictures that are not empty, into sizes that are
/// not and that can be shared: it panics into some that are much larger. It panics too where a
/// picture of the old width and the new height, with sixteen bytes per pixel, is larger than any
/// vector.
#[verifier::external_body]
fn resize(rgba: Vec<u8>, width: u32, height: u32, to_width: u32, to_height: u32) -> (r: Vec<u8>)
    requires
        rgba@.len() == tiles::picture_len(width, height),
        width > 0,
        height > 0,
        0 < to_width <= MAX_DESKTOP_WIDTH,
        0 < to_height <= MAX_DESKTOP_HEIGHT,
        width * (16 * to_height) <= isize::MAX,
    ensures
        r@ == scaled(rgba@, width, height, to_width, to_height),
        r@.len() == tiles::picture_len(to_width, to_height),
{
    let source = image::RgbaImage::from_raw(width, height, rgba).unwrap();
    image::imageops::resize(
        &source,
        to_width,
        to_height,
        image::imageops::FilterType::Triangle,
    ).into_raw()
}

/// A picture of the screen as the graphics adapter holds it: its size, how long its rows are, its
/// bytes, and where on it the pointer is seen.
#[derive(Debug)]
pub struct ScreenPicture {
    pub width: u32,
    pub height: u32,
    pub row_bytes: usize,
    pub bytes: Vec<u8>,
    pub pointer: Option<(i32, i32)>,
}

/// The pixels in the size in which they are shared, before the pointer is marked.
pub open spec fn shared_pixels(picture: ScreenPicture, config: RemoteDesktopConfig) -> Seq<u8> {
    let pixels = rgba_of_bgra(
        picture.width as int,
        picture.height as int,
        picture.row_bytes as int,
        picture.bytes@,
        true,
    );
    if picture.width == config.width && picture.height == config.height {
        pixels
    } else if picture.width == 0 || picture.height == 0 {
        frames::blank(config.width, config.height)
    } else {
        scaled(pixels, picture.width, picture.height, config.width, config.height)
    }
}

/// The frame that a picture of the screen makes: scaled to the shared size, with the pointer marked
/// where it is on the picture.
pub open spec fn captured(picture: ScreenPicture, config: RemoteDesktopConfig) -> RawFrameView {
    let pixels = shared_pixels(picture, config);
    RawFrameView {
        width: config.width,
        height: config.height,
        rgba: match picture.pointer {
            Some((x, y)) if 0 <= x < picture.width && 0 <= y < picture.height => marked(
                pixels,
                config.width,
                config.height,
                (x * config.width / picture.width as int) as u32,
                (y * config.height / picture.height as int) as u32,
                12,
            ),
            _ => pixels,
        },
    }
}

/// The frame that a picture of the screen makes. While it is scaled, a picture as wide as the screen
/// and as high as the frame is held, with sixteen bytes per pixel.
pub fn copy_acquired_frame(picture: &ScreenPicture, config: RemoteDesktopConfig) -> (r: Result<
    RawFrame,
    String,
>)
    requires
        config.checked() is Ok,
        picture.height > 0 ==> picture.width * (16 * config.height) <= isize::MAX,
    ensures
        match (
            r,
            measure_fault(
                picture.width as int,
                picture.height as int,
                picture.row_bytes as int,
                picture.bytes@.len() as int,
            ),
        ) {
            (Err(e), Some(words)) => e@ == words,
            (Ok(frame), None) => frame@ == captured(*picture, config) && frames::has_its_pixels(
                frame@,
            ),
            _ => false,
        },
{
    let width: u32 = picture.width;
    let height: u32 = picture.height;
    let pixels = match convert_rows(
        width as usize,
        height as usize,
        picture.row_bytes,
        picture.bytes.as_slice(),
        true,
    ) {
        Err(e) => {
            return Err(e);
        },
        Ok(pixels) => pixels,
    };
    proof {
        assert(height * (4 * width) >= 0) by (nonlinear_arith);
        assert(pixels@.len() == tiles::picture_len(width, height));
    }
    let mut rgba: Vec<u8> = if width == config.width && height == config.height {
        pixels
    } else if width == 0 || height == 0 {
        proof {
            assert(config.height * (4 * config.width) <= 720 * (4 * 1280)) by (nonlinear_arith)
                requires
                    config.width <= 1280,
                    config.height <= 720,
            ;
        }
        frames::blank_frame(config.width, config.height)
    } else {
        resize(pixels, width, height, config.width, config.height)
    };
    assert(rgba@ == shared_pixels(*picture, config));
    if let Some((x, y)) = picture.pointer {
        if x >= 0 && y >= 0 && (x as u32) < width && (y as u32) < height {
            let sx: u32 = scale_pointer(x as u32, config.width, width);
            let sy: u32 = scale_pointer(y as u32, config.height, height);
            draw_pointer_marker(&mut rgba, config.width, config.height, sx, sy);
        }
    }
    Ok(RawFrame { width: config.width, height: config.height, rgba })
}

fn scale_pointer(at: u32, to: u32, from: u32) -> (r: u32)
    requires
        at < from,
        0 < to <= 1280,
    ensures
        r == at * to / from as int,
        r < to,
{
    proof {
        assert(at as int * to as int <= (from - 1) * to) by (nonlinear_arith)
            requires
                at <= from - 1,
                to > 0,
        ;
        assert((from - 1) * to < to * from) by (nonlinear_arith)
            requires
                to > 0,
        ;
        lemma_fundamental_div_mod(at * to, from as int);
        let q = at * to / from as int;
        assert(q < to) by (nonlinear_arith)
            requires
                at * to == from * q + (at * to) % (from as int),
                (at * to) % (from as int) >= 0,
                at * to < to * from,
                from > 0,
        ;
        assert(at as int * to as int >= 0) by (nonlinear_arith);
        lemma_div_pos_is_pos(at * to, from as int);
        assert(at as int * to as int <= 0xffff_ffff * 1280) by (nonlinear_arith)
            requires
                0 <= at <= 0xffff_ffff,
                0 <= to <= 1280,
        ;
    }
    (at as u64 * to as u64 / from as u64) as u32
}

/// The place of the pointer on the display, from fractions of 65535.
pub open spec fn display_pixel(low: int, length: int, at: int) -> int {
    low + at * (length - 1) / 65535
}

/// The left and top edge stand for nothing, the last pixel for the whole, and between them the
/// pointer moves with the fraction.
pub proof fn pointer_spans_the_display(low: int, length: int, a: int, b: int)
    requires
        length >= 1,
        0 <= a <= b <= 65535,
    ensures
        display_pixel(low, length, 0) == low,
        display_pixel(low, length, 65535) == low + length - 1,
        low <= display_pixel(low, length, a) <= display_pixel(low, length, b) <= low + length - 1,
{
    let n = length - 1;
    assert(0 * n == 0);
    assert(65535 * n / 65535 == n);
    assert(0 <= a * n <= b * n <= 65535 * n) by (nonlinear_arith)
        requires
            0 <= a <= b <= 65535,
            n >= 0,
    ;
}

/// Division towards zero.
pub open spec fn toward_zero(a: int, b: int) -> int {
    if a >= 0 {
        a / b
    } else {
        -((-a) / b)
    }
}

/// At least one.
pub open spec fn positive(n: int) -> int {
    if n < 1 {
        1
    } else {
        n
    }
}

/// The place of the pointer on the whole desktop in fractions of 65535, from one on the display.
pub open spec fn desktop_fraction(low: i32, high: i32, start: i32, length: i32, at: u16) -> int {
    let pixel = display_pixel(low as int, positive(high - low), at as int);
    toward_zero((pixel - start) * 65535, positive(positive(length as int) - 1))
}

/// Where the desktop begins and how large it is.
#[derive(Debug, Clone, Copy, PartialEq, Eq, Structural)]
pub struct VirtualScreen {
    pub left: i32,
    pub top: i32,
    pub width: i32,
    pub height: i32,
}

fn fraction(low: i32, high: i32, start: i32, length: i32, at: u16) -> (r: i64)
    requires
        i32::MIN <= high - low <= i32::MAX,
    ensures
        r == desktop_fraction(low, high, start, length, at),
{
    let span: i64 = if (high as i64 - low as i64) < 1 {
        1
    } else {
        high as i64 - low as i64
    };
    proof {
        assert(0 <= at * (span - 1) <= 65535 * 0x7fff_ffff) by (nonlinear_arith)
            requires
                0 <= at <= 65535,
                1 <= span <= 0x7fff_ffff,
        ;
    }
    let along: u64 = (at as u64) * ((span - 1) as u64) / 65535;
    let pixel: i64 = low as i64 + along as i64;
    let scaled: i64 = (pixel - start as i64) * 65535;
    let whole: i32 = if length < 1 {
        1
    } else {
        length
    };
    let divisor: u64 = if whole - 1 < 1 {
        1
    } else {
        (whole - 1) as u64
    };
    proof {
        lemma_div_by_positive(if scaled >= 0 { scaled as int } else { -scaled }, divisor as int);
    }
    if scaled >= 0 {
        (scaled as u64 / divisor) as i64
    } else {
        -(((-scaled) as u64 / divisor) as i64)
    }
}

proof fn lemma_div_by_positive(a: int, b: int)
    requires
        a >= 0,
        b >= 1,
    ensures
        0 <= a / b <= a,
{
    lemma_fundamental_div_mod(a, b);
    let q = a / b;
    lemma_div_pos_is_pos(a, b);
    assert(q <= a) by (nonlinear_arith)
        requires
            a == b * q + a % b,
            a % b >= 0,
            b >= 1,
            q >= 0,
    ;
}

/// Where the pointer goes on the whole desktop of Windows. Numbers that do not fit are cut off.
pub fn absolute_pointer(bounds: Bounds, screen: VirtualScreen, x: u16, y: u16) -> (r: (i32, i32))
    requires
        bounds.is_measurable(),
    ensures
        r.0 == desktop_fraction(bounds.left, bounds.right, screen.left, screen.width, x) as i64 as i32,
        r.1 == desktop_fraction(bounds.top, bounds.bottom, screen.top, screen.height, y) as i64 as i32,
{
    let ax: i64 = fraction(bounds.left, bounds.right, screen.left, screen.width, x);
    let ay: i64 = fraction(bounds.top, bounds.bottom, screen.top, screen.height, y);
    (ax as i32, ay as i32)
}

/// A name ends at its first zero, or where the list ends.
pub proof fn names_end_at_a_zero(name: Seq<u16>, rest: Seq<u16>)
    requires
        forall|i: int| 0 <= i < name.len() ==> name[i] != 0,
    ensures
        until_zero(name) == name,
        until_zero(name + seq![0u16] + rest) == name,
{
    let all = name + seq![0u16] + rest;
    lemma_until_zero(name, name.len() as int);
    assert(name.take(name.len() as int) =~= name);
    assert forall|i: int| 0 <= i < name.len() implies all[i] != 0 by {
        assert(all[i] == name[i]);
    }
    assert(all[name.len() as int] == 0);
    lemma_until_zero(all, name.len() as int);
    assert(all.take(name.len() as int) =~= name);
}

/// A display is as wide and as high as its bounds say, and found again by its adapter and output.
pub proof fn displays_have_the_size_of_their_bounds(o: DisplayOutput)
    requires
        o.bounds.is_measurable(),
        o.bounds.left <= o.bounds.right,
        o.bounds.top <= o.bounds.bottom,
    ensures
        display_at(o).width == o.bounds.right - o.bounds.left,
        display_at(o).height == o.bounds.bottom - o.bounds.top,
        display_at(o).id == text::decimal_text(o.adapter as nat) + ":"@ + text::decimal_text(
            o.output as nat,
        ),
{
}

/// A display of a Macintosh goes by its number, has its size, and is called the main one exactly
/// where it is; the others are counted from one.
pub proof fn displays_of_a_macintosh_go_by_their_number(
    id: u32,
    main: u32,
    index: u32,
    wide: u32,
    high: u32,
)
    ensures
        ({
            let d = display_of_macos(id, main, index, wide as u64, high as u64);
            &&& text::number_of(d.id) == id
            &&& d.width == wide
            &&& d.height == high
            &&& d.name == "主显示器"@ <==> id == main
            &&& id != main ==> d.name == "显示器 "@ + text::decimal_text((index + 1) as nat)
        }),
{
    text::decimal_stands_for_the_number(id as nat);
    reveal_strlit("主显示器");
    reveal_strlit("显示器 ");
    let other = "显示器 "@ + text::decimal_text((index + 1) as nat);
    assert(other[0] == "显示器 "@[0]);
    assert("主显示器"@[0] != "显示器 "@[0]);
}

/// A captured picture comes out pixel by pixel: red, green and blue change from last-to-first to
/// first-to-last, each at its row and column, and what pads the rows is left out. The fourth byte is
/// full where the picture is opaque, and stays where it is not.
pub proof fn pixels_stay_where_they_are(
    width: int,
    height: int,
    row_bytes: int,
    source: Seq<u8>,
    opaque: bool,
    x: int,
    y: int,
)
    requires
        0 <= x < width,
        0 <= y < height,
    ensures
        ({
            let rgba = rgba_of_bgra(width, height, row_bytes, source, opaque);
            let to = y * (4 * width) + 4 * x;
            let from = y * row_bytes + 4 * x;
            &&& rgba.len() == height * (4 * width)
            &&& 0 <= to
            &&& to + 4 <= rgba.len()
            &&& rgba[to] == source[from + 2]
            &&& rgba[to + 1] == source[from + 1]
            &&& rgba[to + 2] == source[from]
            &&& rgba[to + 3] == if opaque {
                255u8
            } else {
                source[from + 3]
            }
        }),
{
    let line = 4 * width;
    assert(y * line + line <= height * line) by (nonlinear_arith)
        requires
            y + 1 <= height,
            line > 0,
    ;
    assert(0 <= y * line) by (nonlinear_arith)
        requires
            0 <= y,
            line > 0,
    ;
    lemma_pixel(y, line, 4 * x, 0);
    lemma_pixel(y, line, 4 * x, 1);
    lemma_pixel(y, line, 4 * x, 2);
    lemma_pixel(y, line, 4 * x, 3);
}

/// A captured picture is taken exactly where its rows hold its pixels and its bytes hold its rows.
pub proof fn pictures_hold_their_rows(width: int, height: int, row_bytes: int, len: int)
    requires
        4 * width <= usize::MAX,
    ensures
        measure_fault(width, height, row_bytes, len) is None <==> 4 * width <= row_bytes && row_bytes
            * height <= len,
{
}

/// Does the cross of `k` pixels at a place cover this pixel?
pub open spec fn in_cross(column: int, row: int, x: int, y: int, k: int) -> bool {
    ||| row == y && x <= column < x + k
    ||| column == x && y <= row < y + k
}

/// The pointer is marked by a white cross, to the right of it and below; every other pixel of the
/// picture stays as it is.
pub proof fn the_pointer_is_a_white_cross(
    rgba: Seq<u8>,
    width: u32,
    height: u32,
    x: u32,
    y: u32,
    k: int,
    i: int,
)
    requires
        x < width,
        y < height,
        0 <= k <= 12,
        rgba.len() == tiles::picture_len(width, height),
        0 <= i < rgba.len(),
    ensures
        marked(rgba, width, height, x, y, k).len() == rgba.len(),
        ({
            let row = i / (4 * width);
            let column = i % (4 * width) / 4;
            marked(rgba, width, height, x, y, k)[i] == if in_cross(
                column,
                row,
                x as int,
                y as int,
                k,
            ) {
                255u8
            } else {
                rgba[i]
            }
        }),
    decreases k,
{
    let line = 4 * width;
    let row = i / line;
    let column = i % line / 4;
    lemma_fundamental_div_mod(i, line);
    assert(row < height) by (nonlinear_arith)
        requires
            i == line * row + i % line,
            0 <= i % line,
            i < height * line,
            line > 0,
    ;
    assert(0 <= i % line < line);
    if k > 0 {
        the_pointer_is_a_white_cross(rgba, width, height, x, y, k - 1, i);
        let offset = k - 1;
        let before = marked(rgba, width, height, x, y, k - 1);
        let across = if x + offset < width {
            whitened(before, width, x + offset, y as int)
        } else {
            before
        };
        if x + offset < width {
            lemma_whitened(before, width, x + offset, y as int, i);
        }
        if y + offset < height {
            lemma_whitened(across, width, x as int, y + offset, i);
        }
    }
}

proof fn lemma_whitened(rgba: Seq<u8>, width: u32, x: int, y: int, i: int)
    requires
        0 <= x < width,
        0 <= y <= u32::MAX,
        0 <= i < rgba.len(),
    ensures
        whitened(rgba, width, x, y).len() == rgba.len(),
        whitened(rgba, width, x, y)[i] == if i / (4 * width) == y && i % (4 * width) / 4 == x {
            255u8
        } else {
            rgba[i]
        },
{
    let row = i / (4 * width);
    let offset = i % (4 * width);
    let rect = pixel_rect(x, y);
    if tiles::in_rect(i, width, rect) {
        assert((row - rect.y) * rect.row_len() == 0) by (nonlinear_arith)
            requires
                row - rect.y == 0,
        ;
        assert(0 <= offset - 4 * x < 4);
    }
}

/// A frame has the shared size. A picture of that size keeps its pixels; the pointer is marked where
/// it is seen on the picture, in proportion, and nowhere where it is not.
pub proof fn a_frame_is_the_picture_with_its_pointer(
    picture: ScreenPicture,
    config: RemoteDesktopConfig,
)
    ensures
        ({
            let frame = captured(picture, config);
            let pixels = rgba_of_bgra(
                picture.width as int,
                picture.height as int,
                picture.row_bytes as int,
                picture.bytes@,
                true,
            );
            let same = picture.width == config.width && picture.height == config.height;
            let shown = if same {
                pixels
            } else if picture.width == 0 || picture.height == 0 {
                frames::blank(config.width, config.height)
            } else {
                scaled(pixels, picture.width, picture.height, config.width, config.height)
            };
            &&& frame.width == config.width
            &&& frame.height == config.height
            &&& picture.pointer is None ==> frame.rgba == shown
            &&& picture.pointer matches Some((x, y)) ==> {
                let seen = 0 <= x < picture.width && 0 <= y < picture.height;
                &&& !seen ==> frame.rgba == shown
                &&& seen && same ==> frame.rgba == marked(
                    pixels,
                    config.width,
                    config.height,
                    x as u32,
                    y as u32,
                    12,
                )
                &&& seen && !same ==> frame.rgba == marked(
                    shown,
                    config.width,
                    config.height,
                    (x * config.width / picture.width as int) as u32,
                    (y * config.height / picture.height as int) as u32,
                    12,
                )
            }
        }),
{
    if let Some((x, y)) = picture.pointer {
        if 0 <= x < picture.width && 0 <= y < picture.height {
            vstd::arithmetic::div_mod::lemma_div_multiples_vanish(x as int, picture.width as int);
            vstd::arithmetic::div_mod::lemma_div_multiples_vanish(y as int, picture.height as int);
            assert(x * picture.width == picture.width * x) by (nonlinear_arith);
            assert(y * picture.height == picture.height * y) by (nonlinear_arith);
        }
    }
}

/// On a display that is the whole desktop the pointer goes from the first pixel to the last, and a
/// display that lies further on begins as far on as it lies. Along a display the pointer never goes
/// back.
pub proof fn the_pointer_goes_where_the_viewer_points(
    low: i32,
    high: i32,
    start: i32,
    length: i32,
    a: u16,
    b: u16,
)
    requires
        start <= low < high,
        high - start <= length,
        length > 1,
        high - low <= i32::MAX,
        a <= b,
    ensures
        low == start ==> desktop_fraction(low, high, start, length, 0) == 0,
        low == start && high - low == length ==> desktop_fraction(low, high, start, length, 65535)
            == 65535,
        desktop_fraction(low, high, start, length, 0) == (low - start) * 65535 / (length - 1),
        0 <= desktop_fraction(low, high, start, length, a) <= desktop_fraction(
            low,
            high,
            start,
            length,
            b,
        ) <= 65535,
{
    let n = high - low;
    let d = length - 1;
    pointer_spans_the_display(low as int, n, a as int, b as int);
    pointer_spans_the_display(low as int, n, 0, 65535);
    let p = display_pixel(low as int, n, a as int) - start;
    let q = display_pixel(low as int, n, b as int) - start;
    assert(0 <= p <= q <= d);
    lemma_div_is_ordered(p * 65535, q * 65535, d);
    lemma_div_is_ordered(q * 65535, 65535 * d, d);
    lemma_div_multiples_vanish(65535, d);
    assert(d * 65535 == 65535 * d) by (nonlinear_arith);
    lemma_div_pos_is_pos(p * 65535, d);
    assert(0int / d == 0) by {
        lemma_div_pos_is_pos(0, d);
        lemma_fundamental_div_mod_converse(0, d, 0, 0);
    }
}

}
