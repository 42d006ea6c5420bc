//! Which of the sizes of a photo is fetched.

use vstd::prelude::*;

verus! {

/// The width and the height of one size of a photo, in pixels.
#[derive(Clone, Copy, Debug, PartialEq, Eq, Hash, Structural)]
pub struct PhotoSize {
    pub width: i32,
    pub height: i32,
}

impl PhotoSize {
    /// The number of pixels of the size.
    pub open spec fn area(self) -> int {
        self.width * self.height
    }
}

/// Whether size `i` is the one to fetch: the first of those with the most
/// pixels.
pub open spec fn is_largest(sizes: Seq<PhotoSize>, i: int) -> bool {
    &&& 0 <= i < sizes.len()
    &&& forall|j: int| 0 <= j < sizes.len() ==> (#[trigger] sizes[j]).area() <= sizes[i].area()
    &&& forall|j: int| 0 <= j < i ==> (#[trigger] sizes[j]).area() < sizes[i].area()
}

/// The position of the size with the most pixels, and of the first of them
/// where several have as many; nothing for a photo without sizes.
pub fn largest_photo(sizes: &Vec<PhotoSize>) -> (largest: Option<usize>)
    ensures
        largest is None <==> sizes@.len() == 0,
        largest matches Some(i) ==> is_largest(sizes@, i as int),
{
    if sizes.len() == 0 {
        return None;
    }
    let mut best: usize = 0;
    let mut i: usize = 1;
    while i < sizes.len()
        invariant
            1 <= i <= sizes.len(),
            best < i,
            forall|j: int| 0 <= j < i ==> (#[trigger] sizes@[j]).area() <= sizes@[best as int].area(),
            forall|j: int| 0 <= j < best ==> (#[trigger] sizes@[j]).area() < sizes@[best as int].area(),
        decreases sizes.len() - i,
    {
        if pixels(&sizes[i]) > pixels(&sizes[best]) {
            best = i;
        }
        i = i + 1;
    }
    Some(best)
}

fn pixels(size: &PhotoSize) -> (area: i64)
    ensures
        area == size.area(),
{
    assert(-0x4000_0000_0000_0000 <= size.width * size.height <= 0x4000_0000_0000_0000)
        by (nonlinear_arith)
        requires
            -0x8000_0000 <= size.width <= 0x7fff_ffff,
            -0x8000_0000 <= size.height <= 0x7fff_ffff,
    ;
    size.width as i64 * size.height as i64
}

} // verus!
