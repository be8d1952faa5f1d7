//! Glyph bitmaps and the copying of one into an atlas page.
//!
//! A bitmap holds four bytes for every texel, row after row. A distance
//! field has one value for every texel; it is stored in the last of the four
//! bytes, and the other three are zero.

use crate::rect::PixelRect;
use vstd::arithmetic::div_mod::lemma_fundamental_div_mod;
use vstd::arithmetic::div_mod::lemma_fundamental_div_mod_converse;
use vstd::prelude::*;

verus! {

/// The place of byte `c` of the texel `(x, y)` in an image that is `width`
/// texels wide.
pub open spec fn texel_index(width: int, x: int, y: int, c: int) -> int {
    (y * width + x) * 4 + c
}

/// The column, row and channel of the byte at `index` of an image that is
/// `width` texels wide.
pub open spec fn texel_at(width: int, index: int) -> (int, int, int) {
    ((index / 4) % width, (index / 4) / width, index % 4)
}

/// A distance field spread over four channels.
pub open spec fn spread_distance(distance: Seq<u8>) -> Seq<u8> {
    Seq::new(
        4 * distance.len(),
        |i: int|
            if i % 4 == 3 {
                distance[i / 4]
            } else {
                0u8
            },
    )
}

/// The image `page`, `size` texels a side, after `source` has been copied
/// onto the texels of `rect`, which it fills: a texel of `rect` takes the
/// texel of `source` at the same offset from the upper left corner, and
/// every other texel stays.
pub open spec fn blit_spec(page: Seq<u8>, size: int, rect: PixelRect, source: Seq<u8>) -> Seq<u8> {
    Seq::new(
        page.len(),
        |i: int|
            {
                let (x, y, c) = texel_at(size, i);
                if rect.contains(x, y) {
                    source[texel_index(rect.spec_width(), x - rect.min_x, y - rect.min_y, c)]
                } else {
                    page[i]
                }
            },
    )
}

/// `texel_at` undoes `texel_index`.
pub proof fn lemma_texel_at_index(width: int, x: int, y: int, c: int)
    requires
        0 <= x < width,
        0 <= y,
        0 <= c < 4,
    ensures
        texel_index(width, x, y, c) >= 0,
        texel_at(width, texel_index(width, x, y, c)) == (x, y, c),
{
    let p = y * width + x;
    assert(0 <= y * width) by (nonlinear_arith)
        requires
            0 <= y,
            0 < width,
    ;
    assert(p * 4 + c == 4 * p + c);
    lemma_fundamental_div_mod_converse(p * 4 + c, 4, p, c);
    assert(y * width == width * y) by (nonlinear_arith);
    lemma_fundamental_div_mod_converse(p, width, y, x);
}

/// `texel_index` undoes `texel_at`.
pub proof fn lemma_texel_index_at(width: int, index: int)
    requires
        0 < width,
        0 <= index,
    ensures
        ({
            let (x, y, c) = texel_at(width, index);
            &&& 0 <= x < width
            &&& 0 <= y
            &&& 0 <= c < 4
            &&& texel_index(width, x, y, c) == index
        }),
{
    let p = index / 4;
    lemma_fundamental_div_mod(index, 4);
    lemma_fundamental_div_mod(p, width);
    assert((p / width) * width == width * (p / width)) by (nonlinear_arith);
    assert(0 <= p / width) by (nonlinear_arith)
        requires
            0 <= p,
            0 < width,
    ;
}

/// A rasterized glyph: `width` by `height` texels of four bytes each.
#[derive(Debug)]
pub struct RasterizedBitmap {
    width: u32,
    height: u32,
    data: Vec<u8>,
}

impl RasterizedBitmap {
    pub closed spec fn spec_width(&self) -> int {
        self.width as int
    }

    pub closed spec fn spec_height(&self) -> int {
        self.height as int
    }

    /// The bytes, row after row.
    pub closed spec fn pixels(&self) -> Seq<u8> {
        self.data@
    }

    /// There are four bytes for every texel.
    pub open spec fn wf(&self) -> bool {
        &&& 0 <= self.spec_width() <= u32::MAX
        &&& 0 <= self.spec_height() <= u32::MAX
        &&& self.pixels().len() == 4 * self.spec_width() * self.spec_height()
    }

    /// The larger of width and height.
    pub open spec fn spec_max_side(&self) -> int {
        if self.spec_width() >= self.spec_height() {
            self.spec_width()
        } else {
            self.spec_height()
        }
    }

    /// A bitmap over `data`, if it holds four bytes for each of the
    /// `width * height` texels.
    pub fn new(width: u32, height: u32, data: Vec<u8>) -> (r: Option<RasterizedBitmap>)
        ensures
            r is Some <==> data@.len() == 4 * width * height,
            r matches Some(b) ==> {
                &&& b.wf()
                &&& b.spec_width() == width
                &&& b.spec_height() == height
                &&& b.pixels() == data@
            },
    {
        assert(0 <= width * height <= u64::MAX) by (nonlinear_arith)
            requires
                0 <= width <= u32::MAX,
                0 <= height <= u32::MAX,
        ;
        let texels: u64 = (width as u64) * (height as u64);
        assert(4 * width * height == 4 * (width * height)) by (nonlinear_arith);
        let wanted: u128 = 4 * (texels as u128);
        if data.len() as u128 == wanted {
            Some(RasterizedBitmap { width, height, data })
        } else {
            None
        }
    }

    /// A bitmap that carries the distance field `distance`, one value for
    /// each of the `width * height` texels, in the distance channel.
    pub fn from_distance_field(width: u32, height: u32, distance: &Vec<u8>) -> (r: Option<
        RasterizedBitmap,
    >)
        requires
            4 * distance@.len() <= usize::MAX,
        ensures
            r is Some <==> distance@.len() == width * height,
            r matches Some(b) ==> {
                &&& b.wf()
                &&& b.spec_width() == width
                &&& b.spec_height() == height
                &&& b.pixels() == spread_distance(distance@)
            },
    {
        assert(0 <= width * height <= u64::MAX) by (nonlinear_arith)
            requires
                0 <= width <= u32::MAX,
                0 <= height <= u32::MAX,
        ;
        let texels: u64 = (width as u64) * (height as u64);
        if distance.len() as u64 != texels {
            return None;
        }
        let n: usize = distance.len();
        let mut data: Vec<u8> = Vec::new();
        let mut i: usize = 0;
        while i < n
            invariant
                n == distance@.len(),
                4 * n <= usize::MAX,
                0 <= i <= n,
                data@.len() == 4 * i,
                forall|j: int|
                    0 <= j < 4 * i ==> #[trigger] data@[j] == spread_distance(distance@)[j],
            decreases n - i,
        {
            let value: u8 = distance[i];
            data.push(0);
            data.push(0);
            data.push(0);
            data.push(value);
            i = i + 1;
        }
        assert(data@ =~= spread_distance(distance@));
        assert(4 * width * height == 4 * (width * height)) by (nonlinear_arith);
        Some(RasterizedBitmap { width, height, data })
    }

    pub fn width(&self) -> (w: u32)
        ensures
            w == self.spec_width(),
    {
        self.width
    }

    pub fn height(&self) -> (h: u32)
        ensures
            h == self.spec_height(),
    {
        self.height
    }

    /// The larger of width and height.
    pub fn max_side(&self) -> (side: u32)
        ensures
            side == self.spec_max_side(),
    {
        if self.width >= self.height {
            self.width
        } else {
            self.height
        }
    }

    /// The bytes, row after row.
    pub fn data(&self) -> (data: &Vec<u8>)
        ensures
            data@ == self.pixels(),
    {
        &self.data
    }
}

/// The bytes of `page` up to the row `rows` of `rect`, and in that row up to
/// its byte `bytes`, taken from `source`; the rest as it was.
spec fn blit_partial(
    page: Seq<u8>,
    size: int,
    rect: PixelRect,
    source: Seq<u8>,
    rows: int,
    bytes: int,
) -> Seq<u8> {
    Seq::new(
        page.len(),
        |i: int|
            {
                let (x, y, c) = texel_at(size, i);
                if rect.contains(x, y) && (y - rect.min_y < rows || (y - rect.min_y == rows && 4 * (
                x - rect.min_x) + c < bytes)) {
                    source[texel_index(rect.spec_width(), x - rect.min_x, y - rect.min_y, c)]
                } else {
                    page[i]
                }
            },
    )
}

/// Copies `source` onto the texels of `rect` on the page `page`, which is
/// `size` texels a side.
pub fn blit(page: &mut Vec<u8>, size: u32, rect: PixelRect, source: &RasterizedBitmap)
    requires
        old(page)@.len() == 4 * size * size,
        rect.within(size as int),
        source.wf(),
        source.spec_width() == rect.spec_width(),
        source.spec_height() == rect.spec_height(),
    ensures
        final(page)@ == blit_spec(old(page)@, size as int, rect, source.pixels()),
{
    let width: usize = (rect.max_x - rect.min_x) as usize;
    let height: usize = (rect.max_y - rect.min_y) as usize;
    let side: usize = size as usize;
    let left: usize = rect.min_x as usize;
    let top: usize = rect.min_y as usize;
    let ghost before = page@;
    let ghost src = source.pixels();
    let total: usize = page.len();
    let available: usize = source.data.len();
    if width == 0 {
        assert(page@ =~= blit_spec(before, size as int, rect, src));
        return ;
    }
    assert(size > 0);
    assert(page@ =~= blit_partial(before, size as int, rect, src, 0, 0));
    let mut row: usize = 0;
    while row < height
        invariant
            before.len() == 4 * size * size,
            page@.len() == before.len(),
            total == before.len(),
            available == src.len(),
            rect.within(size as int),
            size > 0,
            width > 0,
            src == source.pixels(),
            src.len() == 4 * width * height,
            width == rect.spec_width(),
            height == rect.spec_height(),
            side == size,
            left == rect.min_x,
            top == rect.min_y,
            0 <= row <= height,
            page@ == blit_partial(before, size as int, rect, src, row as int, 0),
        decreases height - row,
    {
        proof {
            lemma_row_bounds(size as int, rect, row as int);
            assert(0 <= (top + row) * side) by (nonlinear_arith)
                requires
                    0 <= top + row,
                    0 <= side,
            ;
            assert(0 <= row * width) by (nonlinear_arith)
                requires
                    0 <= row,
                    0 <= width,
            ;
        }
        let target: usize = ((top + row) * side + left) * 4;
        let origin: usize = row * width * 4;
        let mut k: usize = 0;
        while k < 4 * width
            invariant
                before.len() == 4 * size * size,
                page@.len() == before.len(),
                total == before.len(),
                available == src.len(),
                rect.within(size as int),
                size > 0,
                width > 0,
                src == source.pixels(),
                src.len() == 4 * width * height,
                width == rect.spec_width(),
                height == rect.spec_height(),
                side == size,
                left == rect.min_x,
                top == rect.min_y,
                0 <= row < height,
                0 <= k <= 4 * width,
                target == texel_index(size as int, left as int, top + row, 0),
                origin == texel_index(width as int, 0, row as int, 0),
                target + 4 * width <= before.len(),
                origin + 4 * width <= src.len(),
                page@ == blit_partial(before, size as int, rect, src, row as int, k as int),
            decreases 4 * width - k,
        {
            let value: u8 = source.data[origin + k];
            let ghost previous = page@;
            page[target + k] = value;
            proof {
                lemma_blit_step(before, size as int, rect, src, row as int, k as int, previous);
            }
            k = k + 1;
        }
        proof {
            assert(page@ =~= blit_partial(before, size as int, rect, src, row + 1, 0)) by {
                assert forall|i: int| 0 <= i < before.len() implies page@[i] == blit_partial(
                    before,
                    size as int,
                    rect,
                    src,
                    row + 1,
                    0,
                )[i] by {
                    lemma_texel_index_at(size as int, i);
                }
            }
        }
        row = row + 1;
    }
    assert(page@ =~= blit_spec(before, size as int, rect, src));
}

/// The bytes of one row of `rect` lie inside the page and inside a bitmap
/// that fills `rect`.
proof fn lemma_row_bounds(size: int, rect: PixelRect, row: int)
    requires
        size > 0,
        rect.within(size),
        0 <= row < rect.spec_height(),
    ensures
        0 <= texel_index(size, rect.min_x as int, rect.min_y + row, 0),
        texel_index(size, rect.min_x as int, rect.min_y + row, 0) + 4 * rect.spec_width() <= 4
            * size * size,
        0 <= texel_index(rect.spec_width(), 0, row, 0),
        texel_index(rect.spec_width(), 0, row, 0) + 4 * rect.spec_width() <= 4
            * rect.spec_width() * rect.spec_height(),
        texel_index(size, rect.min_x as int, rect.min_y + row, 0) == ((rect.min_y + row) * size
            + rect.min_x) * 4,
        texel_index(rect.spec_width(), 0, row, 0) == row * rect.spec_width() * 4,
{
    let y = rect.min_y + row;
    let w = rect.spec_width();
    let h = rect.spec_height();
    assert(0 <= y * size && (y + 1) * size <= size * size && (y + 1) * size == y * size + size)
        by (nonlinear_arith)
        requires
            0 <= y < size,
    ;
    assert(4 * size * size == 4 * (size * size)) by (nonlinear_arith);
    assert(0 <= row * w && (row + 1) * w <= w * h && (row + 1) * w == row * w + w)
        by (nonlinear_arith)
        requires
            0 <= row < h,
            0 <= w,
    ;
    assert(4 * w * h == 4 * (w * h)) by (nonlinear_arith);
    assert(row * w * 4 == (row * w + 0) * 4) by (nonlinear_arith);
}

/// Writing byte `k` of row `row` takes the copy one byte further.
proof fn lemma_blit_step(
    before: Seq<u8>,
    size: int,
    rect: PixelRect,
    src: Seq<u8>,
    row: int,
    k: int,
    previous: Seq<u8>,
)
    requires
        size > 0,
        rect.within(size),
        before.len() == 4 * size * size,
        0 <= row < rect.spec_height(),
        0 <= k < 4 * rect.spec_width(),
        previous == blit_partial(before, size, rect, src, row, k),
    ensures
        0 <= texel_index(size, rect.min_x as int, rect.min_y + row, 0) + k < before.len(),
        previous.update(
            texel_index(size, rect.min_x as int, rect.min_y + row, 0) + k,
            src[texel_index(rect.spec_width(), 0, row, 0) + k],
        ) == blit_partial(before, size, rect, src, row, k + 1),
{
    lemma_row_bounds(size, rect, row);
    let w = rect.spec_width();
    let d = texel_index(size, rect.min_x as int, rect.min_y + row, 0) + k;
    let x = rect.min_x + k / 4;
    let y = rect.min_y + row;
    let c = k % 4;
    lemma_fundamental_div_mod(k, 4);
    assert(d == texel_index(size, x, y, c)) by (nonlinear_arith)
        requires
            d == ((rect.min_y + row) * size + rect.min_x) * 4 + k,
            k == 4 * (k / 4) + c,
            x == rect.min_x + k / 4,
            y == rect.min_y + row,
    ;
    lemma_texel_at_index(size, x, y, c);
    assert(texel_index(w, 0, row, 0) + k == texel_index(w, x - rect.min_x, row, c))
        by (nonlinear_arith)
        requires
            k == 4 * (k / 4) + c,
            x == rect.min_x + k / 4,
    ;
    let updated = previous.update(d, src[texel_index(w, 0, row, 0) + k]);
    let target = blit_partial(before, size, rect, src, row, k + 1);
    assert forall|i: int| 0 <= i < before.len() implies updated[i] == target[i] by {
        lemma_texel_index_at(size, i);
        let (xi, yi, ci) = texel_at(size, i);
        if i != d && rect.contains(xi, yi) && yi - rect.min_y == row {
            assert(4 * (xi - rect.min_x) + ci != k) by (nonlinear_arith)
                requires
                    i == (yi * size + xi) * 4 + ci,
                    d == ((rect.min_y + row) * size + rect.min_x) * 4 + k,
                    yi - rect.min_y == row,
                    i != d,
            ;
        }
    }
    assert(updated =~= target);
}

} // verus!
