//! Rectangles of a picture of four bytes per pixel.
use vstd::arithmetic::div_mod::*;
use vstd::prelude::*;

verus! {

/// The side of the squares that a picture is compared by.
pub const TILE_SIZE: u32 = 128;

/// A rectangle of a picture, in pixels.
#[derive(Debug, Clone, Copy, PartialEq, Eq, Structural)]
pub struct Rect {
    pub x: u32,
    pub y: u32,
    pub width: u32,
    pub height: u32,
}

impl Rect {
    /// Is the rectangle inside a picture of this size, and not empty?
    pub open spec fn lies_in(self, width: u32, height: u32) -> bool {
        &&& self.width > 0
        &&& self.height > 0
        &&& self.x + self.width <= width
        &&& self.y + self.height <= height
    }

    /// How many bytes a row of the rectangle has.
    pub open spec fn row_len(self) -> int {
        4 * self.width
    }

    /// How many bytes the rectangle has.
    pub open spec fn byte_len(self) -> int {
        self.height * self.row_len()
    }
}

/// How many bytes a picture has.
pub open spec fn picture_len(width: u32, height: u32) -> int {
    height * (4 * width)
}

/// Where byte `offset` of row `row` of the rectangle stands in a picture of this width.
pub open spec fn position(width: u32, rect: Rect, row: int, offset: int) -> int {
    (rect.y + row) * (4 * width) + (4 * rect.x + offset)
}

/// Does byte `i` of a picture of this width lie in the rectangle?
pub open spec fn in_rect(i: int, width: u32, rect: Rect) -> bool {
    let row = i / (4 * width);
    let offset = i % (4 * width);
    rect.y <= row < rect.y + rect.height && 4 * rect.x <= offset < 4 * (rect.x + rect.width)
}

/// The bytes of the rectangle, row by row.
pub open spec fn tile(pixels: Seq<u8>, width: u32, rect: Rect) -> Seq<u8> {
    Seq::new(
        rect.byte_len() as nat,
        |k: int| pixels[position(width, rect, k / rect.row_len(), k % rect.row_len())],
    )
}

/// The picture with the rectangle replaced by these bytes.
pub open spec fn pasted(canvas: Seq<u8>, width: u32, rect: Rect, bytes: Seq<u8>) -> Seq<u8> {
    Seq::new(
        canvas.len(),
        |i: int|
            if in_rect(i, width, rect) {
                bytes[(i / (4 * width) - rect.y) * rect.row_len() + (i % (4 * width) - 4 * rect.x)]
            } else {
                canvas[i]
            },
    )
}

/// A row and an offset in it say where a byte stands, and the other way round.
proof fn lemma_row_and_offset(line: int, row: int, offset: int)
    requires
        0 <= offset < line,
        0 <= row,
    ensures
        (row * line + offset) / line == row,
        (row * line + offset) % line == offset,
{
    lemma_fundamental_div_mod_converse(row * line + offset, line, row, offset);
}

proof fn lemma_row_bound(rows: int, line: int, row: int, offset: int)
    requires
        0 <= row < rows,
        0 <= offset < line,
    ensures
        0 <= row * line + offset < rows * line,
{
    assert(row * line + line <= rows * line) by (nonlinear_arith)
        requires
            row + 1 <= rows,
            line > 0,
    ;
    assert(0 <= row * line) by (nonlinear_arith)
        requires
            0 <= row,
            line > 0,
    ;
}

/// A byte of the rectangle stands in the picture, in its row and at its offset.
proof fn lemma_position(width: u32, height: u32, rect: Rect, row: int, offset: int)
    requires
        rect.lies_in(width, height),
        0 <= row < rect.height,
        0 <= offset < rect.row_len(),
    ensures
        0 <= position(width, rect, row, offset) < picture_len(width, height),
        position(width, rect, row, offset) / (4 * width) == rect.y + row,
        position(width, rect, row, offset) % (4 * width) == 4 * rect.x + offset,
        in_rect(position(width, rect, row, offset), width, rect),
{
    lemma_row_and_offset(4 * width, rect.y + row, 4 * rect.x + offset);
    lemma_row_bound(height as int, 4 * width, rect.y + row, 4 * rect.x + offset);
}

/// Pasting the rectangle of one picture into another makes them equal there and changes nothing
/// else.
pub proof fn pasting_a_tile_copies_it(
    canvas: Seq<u8>,
    pixels: Seq<u8>,
    width: u32,
    height: u32,
    rect: Rect,
)
    requires
        rect.lies_in(width, height),
        canvas.len() == picture_len(width, height),
        pixels.len() == picture_len(width, height),
    ensures
        ({
            let after = pasted(canvas, width, rect, tile(pixels, width, rect));
            &&& after.len() == canvas.len()
            &&& forall|i: int|
                0 <= i < after.len() ==> #[trigger] after[i] == if in_rect(i, width, rect) {
                    pixels[i]
                } else {
                    canvas[i]
                }
        }),
{
    let t = tile(pixels, width, rect);
    let after = pasted(canvas, width, rect, t);
    assert forall|i: int| 0 <= i < after.len() implies #[trigger] after[i] == if in_rect(
        i,
        width,
        rect,
    ) {
        pixels[i]
    } else {
        canvas[i]
    } by {
        if in_rect(i, width, rect) {
            lemma_in_rect_is_in_tile(pixels, width, height, rect, i);
        }
    }
}

/// A byte of the picture inside the rectangle is found in the rectangle's bytes.
proof fn lemma_in_rect_is_in_tile(
    pixels: Seq<u8>,
    width: u32,
    height: u32,
    rect: Rect,
    i: int,
)
    requires
        rect.lies_in(width, height),
        0 <= i < picture_len(width, height),
        in_rect(i, width, rect),
    ensures
        ({
            let k = (i / (4 * width) - rect.y) * rect.row_len() + (i % (4 * width) - 4 * rect.x);
            &&& 0 <= k < rect.byte_len()
            &&& tile(pixels, width, rect)[k] == pixels[i]
        }),
{
    let line = 4 * width;
    let row = i / line - rect.y;
    let offset = i % line - 4 * rect.x;
    lemma_row_and_offset(rect.row_len(), row, offset);
    lemma_row_bound(rect.height as int, rect.row_len(), row, offset);
    lemma_fundamental_div_mod(i, line);
    assert(line * (i / line) == (i / line) * line) by (nonlinear_arith);
}

/// Where two pictures have the same bytes in a rectangle, they are equal at each of its places.
pub proof fn equal_tiles_are_equal_inside(
    a: Seq<u8>,
    b: Seq<u8>,
    width: u32,
    height: u32,
    rect: Rect,
    i: int,
)
    requires
        rect.lies_in(width, height),
        0 <= i < picture_len(width, height),
        in_rect(i, width, rect),
        tile(a, width, rect) == tile(b, width, rect),
    ensures
        a[i] == b[i],
{
    lemma_in_rect_is_in_tile(a, width, height, rect, i);
    lemma_in_rect_is_in_tile(b, width, height, rect, i);
}

/// How many squares stand side by side over this length.
pub open spec fn tile_count(length: u32) -> int {
    (length + TILE_SIZE - 1) / TILE_SIZE as int
}

/// The side of the square that starts at `start`, cut off at the end.
pub open spec fn tile_side(length: u32, start: int) -> int {
    if length - start < TILE_SIZE {
        length - start
    } else {
        TILE_SIZE as int
    }
}

/// The squares of a picture, row by row.
pub open spec fn grid_rect(width: u32, height: u32, k: int) -> Rect {
    let x = k % tile_count(width) * TILE_SIZE;
    let y = k / tile_count(width) * TILE_SIZE;
    Rect {
        x: x as u32,
        y: y as u32,
        width: tile_side(width, x) as u32,
        height: tile_side(height, y) as u32,
    }
}

/// How many squares a picture has.
pub open spec fn grid_len(width: u32, height: u32) -> int {
    tile_count(height) * tile_count(width)
}

/// The number of a square gives its column and row.
proof fn lemma_grid_index(width: u32, height: u32, k: int)
    requires
        0 <= k < grid_len(width, height),
    ensures
        0 < tile_count(width),
        0 <= k % tile_count(width) < tile_count(width),
        0 <= k / tile_count(width) < tile_count(height),
        k % tile_count(width) * TILE_SIZE < width,
        k / tile_count(width) * TILE_SIZE < height,
{
    let c = tile_count(width);
    let r = tile_count(height);
    assert(c >= 0 && r >= 0);
    assert(c > 0) by (nonlinear_arith)
        requires
            0 <= k < r * c,
            c >= 0,
    ;
    lemma_fundamental_div_mod(k, c);
    let q = k / c;
    assert(q < r) by (nonlinear_arith)
        requires
            k == c * q + k % c,
            0 <= k % c,
            k < r * c,
            c > 0,
    ;
    assert(0 <= q) by (nonlinear_arith)
        requires
            k == c * q + k % c,
            k % c < c,
            0 <= k,
            c > 0,
    ;
}

/// Every square lies in the picture.
pub proof fn grid_lies_in_the_picture(width: u32, height: u32, k: int)
    requires
        0 <= k < grid_len(width, height),
    ensures
        grid_rect(width, height, k).lies_in(width, height),
        grid_rect(width, height, k).x == k % tile_count(width) * TILE_SIZE,
        grid_rect(width, height, k).y == k / tile_count(width) * TILE_SIZE,
        grid_rect(width, height, k).width <= TILE_SIZE,
        grid_rect(width, height, k).height <= TILE_SIZE,
{
    lemma_grid_index(width, height, k);
}

/// Every byte of the picture lies in one of the squares.
pub proof fn grid_covers_the_picture(width: u32, height: u32, i: int) -> (k: int)
    requires
        0 <= i < picture_len(width, height),
    ensures
        0 <= k < grid_len(width, height),
        in_rect(i, width, grid_rect(width, height, k)),
{
    let line = 4 * width;
    assert(line > 0) by (nonlinear_arith)
        requires
            0 <= i < height * line,
            line >= 0,
    ;
    let row = i / line;
    let offset = i % line;
    lemma_fundamental_div_mod(i, line);
    assert(row < height) by (nonlinear_arith)
        requires
            i == line * row + offset,
            0 <= offset,
            i < height * line,
            line > 0,
    ;
    assert(0 <= row) by (nonlinear_arith)
        requires
            i == line * row + offset,
            offset < line,
            0 <= i,
            line > 0,
    ;
    let c = (offset / 4) / TILE_SIZE as int;
    let r = row / TILE_SIZE as int;
    let n = tile_count(width);
    let k = r * n + c;
    assert(0 <= c < n);
    assert(0 <= r < tile_count(height));
    lemma_row_and_offset(n, r, c);
    lemma_row_bound(tile_count(height), n, r, c);
    assert(grid_rect(width, height, k).x == c * TILE_SIZE);
    assert(grid_rect(width, height, k).y == r * TILE_SIZE);
    k
}

/// A picture of the largest size has sixty squares, a smaller one no more.
pub proof fn grid_of_a_desktop_is_small(width: u32, height: u32)
    requires
        width <= 1280,
        height <= 720,
    ensures
        grid_len(width, height) <= 60,
{
    let c = tile_count(width);
    let r = tile_count(height);
    assert(0 <= c <= 10);
    assert(0 <= r <= 6);
    assert(r * c <= 60) by (nonlinear_arith)
        requires
            0 <= c <= 10,
            0 <= r <= 6,
    ;
}

/// The number of the byte at this row and offset.
fn byte_at(width: u32, height: u32, rect: Rect, row: u32, offset: usize, total: usize) -> (r: usize)
    requires
        rect.lies_in(width, height),
        row < rect.height,
        offset < rect.row_len(),
        total == picture_len(width, height),
    ensures
        r == position(width, rect, row as int, offset as int),
        r < total,
{
    proof {
        lemma_position(width, height, rect, row as int, offset as int);
        lemma_row_bound(height as int, 4 * width, rect.y + row, 0);
        let line = 4 * width;
        assert((rect.y + row) * line >= 0 && (rect.y + row) * line < total);
        assert(line <= total) by (nonlinear_arith)
            requires
                total == height * line,
                height >= 1,
                line >= 0,
        ;
    }
    let line: usize = 4 * (width as usize);
    (rect.y as usize + row as usize) * line + (4 * (rect.x as usize) + offset)
}

/// The bytes of the rectangle, row by row.
pub fn extract_tile(rgba: &[u8], width: u32, height: u32, rect: Rect) -> (r: Vec<u8>)
    requires
        rect.lies_in(width, height),
        rgba@.len() == picture_len(width, height),
    ensures
        r@ == tile(rgba@, width, rect),
{
    let total: usize = rgba.len();
    let mut r: Vec<u8> = Vec::new();
    let ghost len = rect.row_len();
    proof {
        assert(4 * width <= total) by (nonlinear_arith)
            requires
                total == height * (4 * width),
                height >= 1,
        ;
    }
    let row_len: usize = 4 * (rect.width as usize);
    let mut row: u32 = 0;
    assert(0 * len == 0);
    while row < rect.height
        invariant
            total == rgba@.len(),
            rect.lies_in(width, height),
            total == picture_len(width, height),
            len == rect.row_len(),
            row_len == len,
            row <= rect.height,
            r@.len() == row * len,
            forall|k: int|
                0 <= k < r@.len() ==> #[trigger] r@[k] == rgba@[position(
                    width,
                    rect,
                    k / len,
                    k % len,
                )],
        decreases rect.height - row,
    {
        let mut offset: usize = 0;
        while offset < row_len
            invariant
                total == rgba@.len(),
                rect.lies_in(width, height),
                total == picture_len(width, height),
                len == rect.row_len(),
                row_len == len,
                row < rect.height,
                offset <= row_len,
                r@.len() == row * len + offset,
                forall|k: int|
                    0 <= k < r@.len() ==> #[trigger] r@[k] == rgba@[position(
                        width,
                        rect,
                        k / len,
                        k % len,
                    )],
            decreases row_len - offset,
        {
            let i: usize = byte_at(width, height, rect, row, offset, total);
            proof {
                lemma_row_and_offset(len, row as int, offset as int);
            }
            r.push(rgba[i]);
            offset += 1;
        }
        assert((row + 1) * len == row * len + len) by (nonlinear_arith);
        row += 1;
    }
    assert(r@ =~= tile(rgba@, width, rect));
    r
}

/// Have the two pictures the same bytes in the rectangle?
pub fn tile_matches(current: &[u8], previous: &[u8], width: u32, height: u32, rect: Rect) -> (r: bool)
    requires
        rect.lies_in(width, height),
        current@.len() == picture_len(width, height),
        previous@.len() == picture_len(width, height),
    ensures
        r == (tile(current@, width, rect) == tile(previous@, width, rect)),
{
    let total: usize = current.len();
    let ghost len = rect.row_len();
    proof {
        assert(4 * width <= total) by (nonlinear_arith)
            requires
                total == height * (4 * width),
                height >= 1,
        ;
    }
    let row_len: usize = 4 * (rect.width as usize);
    let mut row: u32 = 0;
    assert(0 * len == 0);
    while row < rect.height
        invariant
            total == current@.len(),
            total == previous@.len(),
            rect.lies_in(width, height),
            total == picture_len(width, height),
            len == rect.row_len(),
            row_len == len,
            row <= rect.height,
            forall|k: int|
                0 <= k < row * len ==> #[trigger] tile(current@, width, rect)[k] == tile(
                    previous@,
                    width,
                    rect,
                )[k],
        decreases rect.height - row,
    {
        let mut offset: usize = 0;
        while offset < row_len
            invariant
                total == current@.len(),
                total == previous@.len(),
                rect.lies_in(width, height),
                total == picture_len(width, height),
                len == rect.row_len(),
                row_len == len,
                row < rect.height,
                offset <= row_len,
                forall|k: int|
                    0 <= k < row * len + offset ==> #[trigger] tile(current@, width, rect)[k]
                        == tile(previous@, width, rect)[k],
            decreases row_len - offset,
        {
            let i: usize = byte_at(width, height, rect, row, offset, total);
            proof {
                lemma_row_and_offset(len, row as int, offset as int);
                lemma_row_bound(rect.height as int, len, row as int, offset as int);
            }
            if current[i] != previous[i] {
                let ghost k = row * len + offset;
                assert(tile(current@, width, rect)[k] == current@[i as int]);
                assert(tile(previous@, width, rect)[k] == previous@[i as int]);
                return false;
            }
            offset += 1;
        }
        assert((row + 1) * len == row * len + len) by (nonlinear_arith);
        row += 1;
    }
    assert(tile(current@, width, rect) =~= tile(previous@, width, rect));
    true
}

/// Has the byte been copied when `row` rows of the rectangle and `offset` bytes of the next one
/// have been?
spec fn is_copied(i: int, width: u32, rect: Rect, row: int, offset: int) -> bool {
    in_rect(i, width, rect) && (i / (4 * width) - rect.y < row || (i / (4 * width) - rect.y == row
        && i % (4 * width) - 4 * rect.x < offset))
}

/// Replaces the rectangle of the picture by these bytes.
pub fn copy_patch_into_canvas(
    canvas: &mut Vec<u8>,
    width: u32,
    height: u32,
    rect: Rect,
    bytes: &[u8],
)
    requires
        rect.lies_in(width, height),
        old(canvas)@.len() == picture_len(width, height),
        bytes@.len() == rect.byte_len(),
    ensures
        final(canvas)@ == pasted(old(canvas)@, width, rect, bytes@),
{
    let ghost before = canvas@;
    let ghost goal = pasted(before, width, rect, bytes@);
    let total: usize = canvas.len();
    let ghost len = rect.row_len();
    proof {
        assert(4 * width <= total) by (nonlinear_arith)
            requires
                total == height * (4 * width),
                height >= 1,
        ;
    }
    let row_len: usize = 4 * (rect.width as usize);
    let mut source: usize = 0;
    let mut row: u32 = 0;
    assert(0 * len == 0);
    while row < rect.height
        invariant
            canvas@.len() == total,
            before.len() == total,
            goal == pasted(before, width, rect, bytes@),
            rect.lies_in(width, height),
            total == picture_len(width, height),
            bytes@.len() == rect.byte_len(),
            len == rect.row_len(),
            row_len == len,
            row <= rect.height,
            source == row * len,
            forall|i: int|
                0 <= i < total ==> #[trigger] canvas@[i] == if is_copied(
                    i,
                    width,
                    rect,
                    row as int,
                    0,
                ) {
                    goal[i]
                } else {
                    before[i]
                },
        decreases rect.height - row,
    {
        let mut offset: usize = 0;
        while offset < row_len
            invariant
                canvas@.len() == total,
                before.len() == total,
                goal == pasted(before, width, rect, bytes@),
                rect.lies_in(width, height),
                total == picture_len(width, height),
                bytes@.len() == rect.byte_len(),
                len == rect.row_len(),
                row_len == len,
                row < rect.height,
                offset <= row_len,
                source == row * len + offset,
                forall|i: int|
                    0 <= i < total ==> #[trigger] canvas@[i] == if is_copied(
                        i,
                        width,
                        rect,
                        row as int,
                        offset as int,
                    ) {
                        goal[i]
                    } else {
                        before[i]
                    },
            decreases row_len - offset,
        {
            let at: usize = byte_at(width, height, rect, row, offset, total);
            let ghost now = canvas@;
            proof {
                lemma_position(width, height, rect, row as int, offset as int);
                lemma_row_bound(rect.height as int, len, row as int, offset as int);
            }
            canvas.set(at, bytes[source]);
            proof {
                assert forall|i: int| 0 <= i < total implies #[trigger] canvas@[i] == if is_copied(
                    i,
                    width,
                    rect,
                    row as int,
                    offset + 1,
                ) {
                    goal[i]
                } else {
                    before[i]
                } by {
                    if i != at {
                        assert(canvas@[i] == now[i]);
                        lemma_same_place(width, i, at as int);
                    } else {
                        assert(goal[i] == bytes@[source as int]);
                    }
                }
            }
            offset += 1;
            source += 1;
        }
        assert((row + 1) * len == row * len + len) by (nonlinear_arith);
        proof {
            assert forall|i: int| 0 <= i < total implies is_copied(
                i,
                width,
                rect,
                row as int,
                len,
            ) == #[trigger] is_copied(i, width, rect, row + 1, 0) by {}
        }
        row += 1;
    }
    assert(canvas@ =~= goal) by {
        assert forall|i: int| 0 <= i < total implies canvas@[i] == goal[i] by {
            assert(is_copied(i, width, rect, rect.height as int, 0) == in_rect(i, width, rect));
        }
    }
}

proof fn lemma_same_place(width: u32, i: int, j: int)
    requires
        width > 0,
    ensures
        i / (4 * width) == j / (4 * width) && i % (4 * width) == j % (4 * width) ==> i == j,
{
    lemma_fundamental_div_mod(i, 4 * width);
    lemma_fundamental_div_mod(j, 4 * width);
}

}
