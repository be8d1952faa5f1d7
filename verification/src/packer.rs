//! The rectangle allocator behind every atlas page.
//!
//! Pages are packed by the `guillotiere` crate. Nothing in this file is
//! proved: it says what the rest of the crate takes on trust about that
//! allocator. No rectangle is ever given back to it, so what it has handed
//! out only grows.

use crate::rect::PixelRect;
use guillotiere::AtlasAllocator;
use vstd::prelude::*;

verus! {

#[verifier::external_type_specification]
#[verifier::external_body]
pub struct ExAtlasAllocator(AtlasAllocator);

/// The rectangles that the allocator has handed out so far.
pub uninterp spec fn allocated(allocator: AtlasAllocator) -> Set<PixelRect>;

/// The side of the square that the allocator was made for.
pub uninterp spec fn allocator_size(allocator: AtlasAllocator) -> int;

/// What `AtlasAllocator::allocate` answers, in the state `allocator`, to a
/// request for `width` by `height` texels.
pub uninterp spec fn next_allocation(allocator: AtlasAllocator, width: int, height: int) -> Option<
    PixelRect,
>;

/// What an allocator for a square of side `size` answers to its first
/// request, for `width` by `height` texels.
pub open spec fn first_allocation(size: int, width: int, height: int) -> Option<PixelRect> {
    if 0 < width <= size && 0 < height <= size {
        Some(PixelRect { min_x: 0, min_y: 0, max_x: width as u32, max_y: height as u32 })
    } else {
        None
    }
}

/// `guillotiere::AtlasAllocator::new` for a square of side `size`: an
/// allocator that has handed out nothing yet. Its whole square is one free
/// rectangle, so a first request is granted in the upper left corner if it
/// is not empty and not larger than the square, and refused otherwise.
#[verifier::external_body]
pub(crate) fn new_allocator(size: u32) -> (allocator: AtlasAllocator)
    requires
        0 < size <= i32::MAX,
    ensures
        allocated(allocator) == Set::<PixelRect>::empty(),
        allocator_size(allocator) == size,
        forall|width: int, height: int| #[trigger]
            next_allocation(allocator, width, height) == first_allocation(
                size as int,
                width,
                height,
            ),
{
    AtlasAllocator::new(guillotiere::size2(size as i32, size as i32))
}

/// `guillotiere::AtlasAllocator::allocate`. An empty request is refused. A
/// rectangle that is handed out has the size asked for, lies inside the
/// square, and has no texel in common with any rectangle handed out before;
/// it joins those. A refusal hands out nothing.
#[verifier::external_body]
pub(crate) fn allocate(allocator: &mut AtlasAllocator, width: u32, height: u32) -> (r: Option<
    PixelRect,
>)
    requires
        width <= i32::MAX,
        height <= i32::MAX,
    ensures
        r == next_allocation(*old(allocator), width as int, height as int),
        allocator_size(*final(allocator)) == allocator_size(*old(allocator)),
        (width == 0 || height == 0) ==> r is None,
        r is None ==> allocated(*final(allocator)) == allocated(*old(allocator)),
        r matches Some(rect) ==> {
            &&& rect.spec_width() == width
            &&& rect.spec_height() == height
            &&& rect.within(allocator_size(*old(allocator)))
            &&& forall|other: PixelRect| #[trigger]
                allocated(*old(allocator)).contains(other) ==> !rect.overlaps(other)
            &&& allocated(*final(allocator)) == allocated(*old(allocator)).insert(rect)
        },
{
    allocator.allocate(guillotiere::size2(width as i32, height as i32)).map(
        |a| PixelRect {
            min_x: a.rectangle.min.x as u32,
            min_y: a.rectangle.min.y as u32,
            max_x: a.rectangle.max.x as u32,
            max_y: a.rectangle.max.y as u32,
        },
    )
}

} // verus!
