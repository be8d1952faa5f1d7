//! How large a new atlas page is made.
//!
//! A page is a square whose side is a power of two, 1024 texels at least.
//! A glyph that no page has room for gets a new page: the smallest that is
//! at least as large as the glyph's larger side.

use vstd::prelude::*;

verus! {

/// The side of the smallest page.
pub const ATLAS_BASE_SIZE: u32 = 1024;

/// The largest side of a bitmap that a page can be sized for: the largest
/// power of two that an allocator takes as the side of its square.
pub const MAX_GLYPH_SIDE: u32 = 0x4000_0000;

/// `size` is 1024 doubled some number of times.
pub open spec fn is_page_size(size: int) -> bool
    decreases size,
{
    size == 1024 || (size > 1024 && size % 2 == 0 && is_page_size(size / 2))
}

/// The side of the page made for a bitmap whose larger side is `side`.
pub open spec fn page_size_for(side: int) -> int
    decreases side,
{
    if side <= 1024 {
        1024
    } else {
        2 * page_size_for((side + 1) / 2)
    }
}

/// The image of a page of side `size` can be held, and an allocator can be
/// made for it.
pub open spec fn page_size_allowed(size: int) -> bool {
    0 < size <= i32::MAX && 4 * size * size <= usize::MAX
}

/// The largest side that a bitmap may have is a page size.
proof fn lemma_largest_page_size()
    ensures
        is_page_size(MAX_GLYPH_SIDE as int),
{
    reveal_with_fuel(is_page_size, 11);
    assert(is_page_size(0x10_0000));
    assert(is_page_size(0x4000_0000));
}

/// Of two page sizes, the larger is at least twice the smaller.
proof fn lemma_page_sizes_apart(small: int, large: int)
    requires
        is_page_size(small),
        is_page_size(large),
        small < large,
    ensures
        2 * small <= large,
    decreases large,
{
    reveal_with_fuel(is_page_size, 2);
    if small > 1024 {
        lemma_page_sizes_apart(small / 2, large / 2);
    }
}

/// No page size that holds `side` is smaller than `page_size_for(side)`.
proof fn lemma_page_size_least(side: int, size: int)
    requires
        is_page_size(size),
        size >= side,
    ensures
        size >= page_size_for(side),
    decreases side,
{
    if side > 1024 {
        lemma_page_size_least((side + 1) / 2, size / 2);
    }
}

/// The page made for a bitmap whose larger side is `side` has a side that is
/// a power of two, at least 1024 and at least `side`, and no smaller power
/// of two from 1024 up is at least `side`.
pub proof fn lemma_page_size_for(side: int)
    ensures
        is_page_size(page_size_for(side)),
        page_size_for(side) >= 1024,
        page_size_for(side) >= side,
        forall|size: int| is_page_size(size) && size >= side ==> size >= page_size_for(side),
        page_size_for(side) == 1024 || page_size_for(side) < 2 * side,
    decreases side,
{
    if side > 1024 {
        lemma_page_size_for((side + 1) / 2);
    }
    assert forall|size: int| is_page_size(size) && size >= side implies size >= page_size_for(
        side,
    ) by {
        lemma_page_size_least(side, size);
    }
}

/// A page size that holds `side`, while its half would not, is the one made
/// for `side`.
proof fn lemma_page_size_found(side: int, size: int)
    requires
        is_page_size(size),
        size >= side,
        size == 1024 || size / 2 < side,
    ensures
        size == page_size_for(side),
{
    lemma_page_size_for(side);
    if page_size_for(side) < size {
        lemma_page_sizes_apart(page_size_for(side), size);
    }
}

/// A bitmap that a page can be made for has no side above the largest
/// allowed, and its page has a side that is a page size.
pub proof fn lemma_allowed_side(side: int)
    requires
        page_size_allowed(page_size_for(side)),
    ensures
        side <= MAX_GLYPH_SIDE,
        is_page_size(page_size_for(side)),
        1024 <= page_size_for(side) <= MAX_GLYPH_SIDE,
{
    lemma_page_size_for(side);
    lemma_largest_page_size();
    if page_size_for(side) > MAX_GLYPH_SIDE {
        lemma_page_sizes_apart(MAX_GLYPH_SIDE as int, page_size_for(side));
    }
}

/// The side of the page made for a bitmap whose larger side is `side`: none
/// where that page would be larger than an allocator can be made for.
pub fn containing_size(side: u32) -> (size: Option<u32>)
    ensures
        size is Some <==> side <= MAX_GLYPH_SIDE,
        size matches Some(s) ==> s == page_size_for(side as int) && 1024 <= s <= MAX_GLYPH_SIDE,
{
    if side > MAX_GLYPH_SIDE {
        return None;
    }
    let mut size: u32 = ATLAS_BASE_SIZE;
    while size < side
        invariant
            side <= MAX_GLYPH_SIDE,
            is_page_size(size as int),
            1024 <= size <= MAX_GLYPH_SIDE,
            size == 1024 || size / 2 < side,
        decreases MAX_GLYPH_SIDE - size,
    {
        proof {
            lemma_largest_page_size();
            if size > MAX_GLYPH_SIDE / 2 {
                if size < MAX_GLYPH_SIDE {
                    lemma_page_sizes_apart(size as int, MAX_GLYPH_SIDE as int);
                }
            }
        }
        size = size * 2;
    }
    proof {
        lemma_page_size_found(side as int, size as int);
    }
    Some(size)
}

/// Whether a page can be made for a bitmap whose larger side is `side`.
pub fn can_contain(side: u32) -> (r: bool)
    ensures
        r == page_size_allowed(page_size_for(side as int)),
{
    proof {
        lemma_page_size_for(side as int);
    }
    match containing_size(side) {
        Some(size) => {
            let wide: u128 = size as u128;
            assert(0 <= wide * wide <= 0x1000_0000_0000_0000 && 4 * size * size == 4 * (wide
                * wide)) by (nonlinear_arith)
                requires
                    0 <= wide <= 0x4000_0000,
                    wide == size,
            ;
            4 * (wide * wide) <= usize::MAX as u128
        },
        None => {
            proof {
                lemma_largest_page_size();
                lemma_page_sizes_apart(MAX_GLYPH_SIDE as int, page_size_for(side as int));
            }
            false
        },
    }
}

} // verus!
