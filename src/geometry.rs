use vstd::prelude::*;

verus! {

/// The inclusive range of sizes a parent offers a child.
///
/// Nothing forces `min <= max`: insets larger than the space offered give
/// negative or inverted ranges, which are passed on as they are.
#[derive(Debug, Clone, Copy, PartialEq, Eq, Structural)]
pub struct UIContraints {
    pub min_width: i32,
    pub max_width: i32,
    pub min_height: i32,
    pub max_height: i32,
}

/// A resolved width and height.
#[derive(Debug, Clone, Copy, PartialEq, Eq, Structural)]
pub struct Size {
    pub width: i32,
    pub height: i32,
}

/// A two-dimensional offset: the centre of a node relative to the centre of
/// the space its parent allotted it.
#[derive(Debug, Clone, Copy, PartialEq, Eq, Structural)]
pub struct Offset {
    pub x: i64,
    pub y: i64,
}

/// The rectangle written back for a node: where it sits, how large it is,
/// and a paint order that the layout pass never changes.
#[derive(Debug, Clone, Copy, PartialEq, Eq, Structural)]
pub struct RectTransform {
    pub position: Offset,
    pub size: Size,
    pub depth: i32,
}

impl Default for RectTransform {
    fn default() -> (r: Self)
        ensures
            r.position == (Offset { x: 0, y: 0 }),
            r.size == (Size { width: 0, height: 0 }),
            r.depth == 0,
    {
        RectTransform { position: Offset { x: 0, y: 0 }, size: Size { width: 0, height: 0 }, depth: 0 }
    }
}

impl RectTransform {
    pub open spec fn with_depth_spec(depth: i32) -> RectTransform {
        RectTransform { position: Offset { x: 0, y: 0 }, size: Size { width: 0, height: 0 }, depth }
    }

    /// A rectangle at the origin with no extent and the given paint order.
    pub fn with_depth(depth: i32) -> (r: Self)
        ensures
            r.position == (Offset { x: 0, y: 0 }),
            r.size == (Size { width: 0, height: 0 }),
            r.depth == depth,
            r == Self::with_depth_spec(depth),
    {
        RectTransform { position: Offset { x: 0, y: 0 }, size: Size { width: 0, height: 0 }, depth }
    }

    /// What a renderer places the node at: the centre offset, with the paint
    /// order as the third coordinate.
    pub fn translation(&self) -> (r: (i64, i64, i32))
        ensures
            r == (self.position.x, self.position.y, self.depth),
    {
        (self.position.x, self.position.y, self.depth)
    }
}

/// Half of `x`, rounded toward zero.
pub open spec fn half(x: int) -> int {
    if x >= 0 {
        x / 2
    } else {
        -((-x) / 2)
    }
}

/// Half of `x`, rounded toward zero.
pub fn halve(x: i64) -> (r: i64)
    ensures
        r == half(x as int),
{
    if x >= 0 {
        x / 2
    } else {
        let m: i64 = -(x + 1);
        -(m / 2 + m % 2)
    }
}

/// The limits a root receives: from nothing up to the viewport on each axis.
pub open spec fn viewport_spec(width: int, height: int) -> UIContraints {
    UIContraints { min_width: 0, max_width: width as i32, min_height: 0, max_height: height as i32 }
}

/// The limits a root receives: from nothing up to the viewport on each axis.
pub fn viewport(width: i32, height: i32) -> (r: UIContraints)
    ensures
        r == viewport_spec(width as int, height as int),
        r.min_width == 0 && r.max_width == width,
        r.min_height == 0 && r.max_height == height,
{
    UIContraints { min_width: 0, max_width: width, min_height: 0, max_height: height }
}

} // verus!
