use vstd::prelude::*;

use crate::geometry::{half, halve, Offset, Size, UIContraints};

verus! {

/// Lays children out left to right and takes the full height it is offered.
#[derive(Debug, Clone, Copy, PartialEq, Eq, Structural)]
pub struct Row {
    /// The width the row asks for, before its limits clamp it.
    pub width: i32,
}

/// Fills all the space it is offered; `flex` is its share inside a row.
#[derive(Debug, Clone, Copy, PartialEq, Eq, Structural)]
pub struct Expanded {
    pub flex: u32,
}

/// Insets its children by fixed margins on each side.
#[derive(Debug, Clone, Copy, PartialEq, Eq, Structural)]
pub struct Padding {
    pub top: i32,
    pub bottom: i32,
    pub left: i32,
    pub right: i32,
}

/// The layout strategy of a node.
#[derive(Debug, Clone, Copy, PartialEq, Eq, Structural)]
pub enum UIStyle {
    Row(Row),
    Expanded(Expanded),
    Padding(Padding),
}

/// `x` held to the range of `i32`.
pub open spec fn saturate(x: int) -> int {
    if x < i32::MIN {
        i32::MIN as int
    } else if x > i32::MAX {
        i32::MAX as int
    } else {
        x
    }
}

fn saturating_sub(a: i32, b: i64) -> (r: i32)
    requires
        -0x1_0000_0000 <= b <= 0x1_0000_0000,
    ensures
        r == saturate(a - b),
{
    let d: i64 = a as i64 - b;
    if d < i32::MIN as i64 {
        i32::MIN
    } else if d > i32::MAX as i64 {
        i32::MAX
    } else {
        d as i32
    }
}

/// `target` brought under `max`, then over `min`: the minimum wins when the
/// range is inverted.
pub open spec fn clamp_width(target: int, min: int, max: int) -> int {
    let capped = if target > max {
        max
    } else {
        target
    };
    if capped < min {
        min
    } else {
        capped
    }
}

impl Row {
    /// The row's own size: its width clamped to the limits, and the full
    /// height offered.
    pub open spec fn size_spec(self, c: UIContraints) -> Size {
        Size {
            width: clamp_width(self.width as int, c.min_width as int, c.max_width as int) as i32,
            height: c.max_height,
        }
    }

    pub fn resolve_size(&self, c: UIContraints) -> (r: Size)
        ensures
            r == self.size_spec(c),
    {
        let mut width = self.width;
        if width > c.max_width {
            width = c.max_width;
        }
        if width < c.min_width {
            width = c.min_width;
        }
        Size { width, height: c.max_height }
    }
}

impl Expanded {
    /// An expanded node takes the largest size offered.
    pub open spec fn size_spec(self, c: UIContraints) -> Size {
        Size { width: c.max_width, height: c.max_height }
    }
}

impl Padding {
    /// A padded node reports the largest size offered, whatever its content.
    pub open spec fn size_spec(self, c: UIContraints) -> Size {
        Size { width: c.max_width, height: c.max_height }
    }

    /// The limits handed to each child: both bounds of each axis shrunk by
    /// the two insets of that axis, held to the range of `i32`.
    pub open spec fn child_constraints_spec(self, c: UIContraints) -> UIContraints {
        let horizontal = self.left + self.right;
        let vertical = self.top + self.bottom;
        UIContraints {
            min_width: saturate(c.min_width - horizontal) as i32,
            max_width: saturate(c.max_width - horizontal) as i32,
            min_height: saturate(c.min_height - vertical) as i32,
            max_height: saturate(c.max_height - vertical) as i32,
        }
    }

    pub fn child_constraints(&self, c: UIContraints) -> (r: UIContraints)
        ensures
            r == self.child_constraints_spec(c),
    {
        let horizontal: i64 = self.left as i64 + self.right as i64;
        let vertical: i64 = self.top as i64 + self.bottom as i64;
        UIContraints {
            min_width: saturating_sub(c.min_width, horizontal),
            max_width: saturating_sub(c.max_width, horizontal),
            min_height: saturating_sub(c.min_height, vertical),
            max_height: saturating_sub(c.max_height, vertical),
        }
    }

    /// Where every child is placed, whatever its size.
    pub open spec fn child_offset_spec(self) -> Offset {
        Offset {
            x: (half(-(self.left + self.right)) + self.left) as i64,
            y: (half(-(self.top + self.bottom)) + self.bottom) as i64,
        }
    }

    pub fn child_offset(&self) -> (r: Offset)
        ensures
            r == self.child_offset_spec(),
    {
        let x: i64 = halve(-(self.left as i64 + self.right as i64)) + self.left as i64;
        let y: i64 = halve(-(self.top as i64 + self.bottom as i64)) + self.bottom as i64;
        Offset { x, y }
    }
}

impl UIStyle {
    /// The size a node of this strategy settles on within `c`.
    pub open spec fn size_spec(self, c: UIContraints) -> Size {
        match self {
            UIStyle::Row(r) => r.size_spec(c),
            UIStyle::Expanded(e) => e.size_spec(c),
            UIStyle::Padding(p) => p.size_spec(c),
        }
    }

    pub fn resolve_size(&self, c: UIContraints) -> (r: Size)
        ensures
            r == self.size_spec(c),
    {
        match self {
            UIStyle::Row(r) => r.resolve_size(c),
            UIStyle::Expanded(_) => Size { width: c.max_width, height: c.max_height },
            UIStyle::Padding(_) => Size { width: c.max_width, height: c.max_height },
        }
    }

    /// The share a row gives a child of this strategy: an expanded node's
    /// flex, and one for every other strategy.
    pub open spec fn flex_spec(self) -> nat {
        match self {
            UIStyle::Expanded(e) => e.flex as nat,
            _ => 1,
        }
    }

    pub fn flex_weight(&self) -> (r: u32)
        ensures
            r == self.flex_spec(),
    {
        match self {
            UIStyle::Expanded(e) => e.flex,
            _ => 1,
        }
    }
}

} // verus!
