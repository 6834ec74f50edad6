use crate::geometry::Size;
use vstd::prelude::*;

verus! {

/// The edges of a window that an interactive resize moves, as a set of bits.
#[derive(Debug, Clone, Copy, PartialEq, Eq, Structural)]
pub struct ResizeEdge {
    pub bits: u32,
}

/// No edge.
pub const EDGE_NONE: u32 = 0;
/// The top edge.
pub const EDGE_TOP: u32 = 1;
/// The bottom edge.
pub const EDGE_BOTTOM: u32 = 2;
/// The left edge.
pub const EDGE_LEFT: u32 = 4;
/// The top-left corner.
pub const EDGE_TOP_LEFT: u32 = 5;
/// The bottom-left corner.
pub const EDGE_BOTTOM_LEFT: u32 = 6;
/// The right edge.
pub const EDGE_RIGHT: u32 = 8;
/// The top-right corner.
pub const EDGE_TOP_RIGHT: u32 = 9;
/// The bottom-right corner.
pub const EDGE_BOTTOM_RIGHT: u32 = 10;

/// Whether `v` is one of the values that the `xdg_toplevel.resize_edge`
/// enumeration defines: none, a single edge, or one of the four corners.
pub open spec fn is_edge_value(v: u32) -> bool {
    v == 0 || v == 1 || v == 2 || v == 4 || v == 5 || v == 6 || v == 8 || v == 9 || v == 10
}

/// The edges that an X11 client asks to resize with.
#[derive(Debug, Clone, Copy, PartialEq, Eq, Structural)]
pub enum X11ResizeEdge {
    Bottom,
    BottomLeft,
    BottomRight,
    Left,
    Right,
    Top,
    TopLeft,
    TopRight,
}

/// How a dimension of the window follows the pointer during a resize.
#[derive(Debug, Clone, Copy, PartialEq, Eq, Structural)]
pub enum AxisDrag {
    /// The dimension stays as it was.
    Fixed,
    /// The dimension grows by the pointer's movement.
    Forward,
    /// The dimension grows by the opposite of the pointer's movement.
    Backward,
}

impl ResizeEdge {
    /// Whether the two sets share an edge.
    pub open spec fn spec_intersects(self, other: ResizeEdge) -> bool {
        self.bits & other.bits != 0
    }

    /// Whether the two sets share an edge.
    pub fn intersects(self, other: ResizeEdge) -> (b: bool)
        ensures
            b == self.spec_intersects(other),
    {
        self.bits & other.bits != 0
    }

    /// The union of the two sets.
    pub fn union(self, other: ResizeEdge) -> (r: ResizeEdge)
        ensures
            r.bits == self.bits | other.bits,
    {
        ResizeEdge { bits: self.bits | other.bits }
    }

    /// The edges named by a value of the `xdg_toplevel.resize_edge`
    /// enumeration; a value it does not define is read as no edge.
    pub open spec fn spec_from_xdg(value: u32) -> ResizeEdge {
        ResizeEdge { bits: if is_edge_value(value) { value } else { 0 } }
    }

    /// The `xdg_toplevel.resize_edge` value of these edges; a set of edges
    /// that the enumeration does not name is sent as `none` (0).
    pub open spec fn spec_to_xdg(self) -> u32 {
        if is_edge_value(self.bits) { self.bits } else { 0 }
    }

    /// The edges named by a value of the `xdg_toplevel.resize_edge`
    /// enumeration; a value it does not define is read as no edge.
    pub fn from_xdg(value: u32) -> (r: ResizeEdge)
        ensures
            r == ResizeEdge::spec_from_xdg(value),
    {
        if value == 0 || value == 1 || value == 2 || value == 4 || value == 5 || value == 6
            || value == 8 || value == 9 || value == 10 {
            ResizeEdge { bits: value }
        } else {
            ResizeEdge { bits: EDGE_NONE }
        }
    }

    /// The `xdg_toplevel.resize_edge` value of these edges; a set of edges
    /// that the enumeration does not name is sent as `none` (0).
    pub fn to_xdg(self) -> (v: u32)
        ensures
            v == self.spec_to_xdg(),
    {
        let b = self.bits;
        if b == 0 || b == 1 || b == 2 || b == 4 || b == 5 || b == 6 || b == 8 || b == 9 || b == 10 {
            b
        } else {
            0
        }
    }

    /// The spec value of the edges an X11 resize request names.
    pub open spec fn spec_from_x11(edge: X11ResizeEdge) -> ResizeEdge {
        match edge {
            X11ResizeEdge::Bottom => ResizeEdge { bits: 2 },
            X11ResizeEdge::BottomLeft => ResizeEdge { bits: 6 },
            X11ResizeEdge::BottomRight => ResizeEdge { bits: 10 },
            X11ResizeEdge::Left => ResizeEdge { bits: 4 },
            X11ResizeEdge::Right => ResizeEdge { bits: 8 },
            X11ResizeEdge::Top => ResizeEdge { bits: 1 },
            X11ResizeEdge::TopLeft => ResizeEdge { bits: 5 },
            X11ResizeEdge::TopRight => ResizeEdge { bits: 9 },
        }
    }

    /// The edges an X11 resize request names.
    pub fn from_x11(edge: X11ResizeEdge) -> (r: ResizeEdge)
        ensures
            r == ResizeEdge::spec_from_x11(edge),
    {
        match edge {
            X11ResizeEdge::Bottom => ResizeEdge { bits: EDGE_BOTTOM },
            X11ResizeEdge::BottomLeft => ResizeEdge { bits: EDGE_BOTTOM_LEFT },
            X11ResizeEdge::BottomRight => ResizeEdge { bits: EDGE_BOTTOM_RIGHT },
            X11ResizeEdge::Left => ResizeEdge { bits: EDGE_LEFT },
            X11ResizeEdge::Right => ResizeEdge { bits: EDGE_RIGHT },
            X11ResizeEdge::Top => ResizeEdge { bits: EDGE_TOP },
            X11ResizeEdge::TopLeft => ResizeEdge { bits: EDGE_TOP_LEFT },
            X11ResizeEdge::TopRight => ResizeEdge { bits: EDGE_TOP_RIGHT },
        }
    }

    /// How width and height follow the pointer when these edges are dragged:
    /// a dimension whose edges are not grabbed stays fixed; dragging the left
    /// (or top) edge grows the window against the pointer's movement.
    pub open spec fn spec_axes(self) -> (AxisDrag, AxisDrag) {
        (
            if self.bits & 12 == 0 {
                AxisDrag::Fixed
            } else if self.bits & 4 != 0 {
                AxisDrag::Backward
            } else {
                AxisDrag::Forward
            },
            if self.bits & 3 == 0 {
                AxisDrag::Fixed
            } else if self.bits & 1 != 0 {
                AxisDrag::Backward
            } else {
                AxisDrag::Forward
            },
        )
    }

    /// How width and height follow the pointer when these edges are dragged.
    pub fn axes(self) -> (r: (AxisDrag, AxisDrag))
        ensures
            r == self.spec_axes(),
    {
        let left_right = ResizeEdge { bits: EDGE_LEFT }.union(ResizeEdge { bits: EDGE_RIGHT });
        let top_bottom = ResizeEdge { bits: EDGE_TOP }.union(ResizeEdge { bits: EDGE_BOTTOM });
        assert(4u32 | 8u32 == 12u32) by (bit_vector);
        assert(1u32 | 2u32 == 3u32) by (bit_vector);
        let horizontal = if self.intersects(left_right) {
            if self.intersects(ResizeEdge { bits: EDGE_LEFT }) {
                AxisDrag::Backward
            } else {
                AxisDrag::Forward
            }
        } else {
            AxisDrag::Fixed
        };
        let vertical = if self.intersects(top_bottom) {
            if self.intersects(ResizeEdge { bits: EDGE_TOP }) {
                AxisDrag::Backward
            } else {
                AxisDrag::Forward
            }
        } else {
            AxisDrag::Fixed
        };
        (horizontal, vertical)
    }
}

/// The smallest size a window may be resized to: its minimum size, at least 1.
pub open spec fn min_bound(min: i32) -> int {
    if min >= 1 { min as int } else { 1 }
}

/// The largest size a window may be resized to: its maximum size, where 0
/// means unbounded.
pub open spec fn max_bound(max: i32) -> int {
    if max == 0 { i32::MAX as int } else { max as int }
}

/// `v` clamped to `[lo, hi]`.
pub open spec fn clamp(v: int, lo: int, hi: int) -> int {
    if v < lo { lo } else if v > hi { hi } else { v }
}

/// Whether the size limits of a window can be applied: the bounds of each
/// dimension do not cross.
pub open spec fn limits_consistent(min_size: Size, max_size: Size) -> bool {
    min_bound(min_size.w) <= max_bound(max_size.w) && min_bound(min_size.h) <= max_bound(
        max_size.h,
    )
}

/// Whether the size limits of a window can be applied (see `limits_consistent`).
pub fn size_limits_consistent(min_size: Size, max_size: Size) -> (b: bool)
    ensures
        b == limits_consistent(min_size, max_size),
{
    let min_width = if min_size.w >= 1 { min_size.w } else { 1 };
    let min_height = if min_size.h >= 1 { min_size.h } else { 1 };
    let max_width = if max_size.w == 0 { i32::MAX } else { max_size.w };
    let max_height = if max_size.h == 0 { i32::MAX } else { max_size.h };
    min_width <= max_width && min_height <= max_height
}

/// The size of a window being resized: the requested size clamped to the
/// window's minimum size (at least 1) and maximum size (0 meaning unbounded).
pub open spec fn spec_constrain(requested: Size, min_size: Size, max_size: Size) -> Size {
    Size {
        w: clamp(requested.w as int, min_bound(min_size.w), max_bound(max_size.w)) as i32,
        h: clamp(requested.h as int, min_bound(min_size.h), max_bound(max_size.h)) as i32,
    }
}

fn clamp_i32(v: i32, lo: i32, hi: i32) -> (r: i32)
    requires
        lo <= hi,
    ensures
        r == clamp(v as int, lo as int, hi as int),
{
    if v < lo {
        lo
    } else if v > hi {
        hi
    } else {
        v
    }
}

/// Applies the size limits of a window to the size an interactive resize
/// asks for.
pub fn constrain_size(requested: Size, min_size: Size, max_size: Size) -> (r: Size)
    requires
        limits_consistent(min_size, max_size),
    ensures
        r == spec_constrain(requested, min_size, max_size),
{
    let min_width = if min_size.w >= 1 { min_size.w } else { 1 };
    let min_height = if min_size.h >= 1 { min_size.h } else { 1 };
    let max_width = if max_size.w == 0 { i32::MAX } else { max_size.w };
    let max_height = if max_size.h == 0 { i32::MAX } else { max_size.h };
    Size { w: clamp_i32(requested.w, min_width, max_width), h: clamp_i32(requested.h, min_height, max_height) }
}

/// Information about a resize operation.
#[derive(Debug, Clone, Copy, PartialEq, Eq, Structural)]
pub struct ResizeData {
    /// The edges the surface is being resized with.
    pub edges: ResizeEdge,
    /// The initial window location.
    pub initial_window_location: crate::geometry::Point,
    /// The initial window size (geometry width and height).
    pub initial_window_size: Size,
}

/// State of the resize operation.
#[derive(Debug, Clone, Copy, PartialEq, Eq, Structural)]
pub enum ResizeState {
    /// The surface is not being resized.
    NotResizing,
    /// The surface is currently being resized.
    Resizing(ResizeData),
    /// The resize has finished, and the surface needs to ack the final configure.
    WaitingForFinalAck(ResizeData, u32),
    /// The resize has finished, and the surface needs to commit its final state.
    WaitingForCommit(ResizeData),
}

impl ResizeState {
    /// The state after the surface committed: a resize waiting for that
    /// commit is finished; every other state stays.
    pub open spec fn spec_after_commit(self) -> ResizeState {
        match self {
            ResizeState::WaitingForCommit(_) => ResizeState::NotResizing,
            other => other,
        }
    }

    /// The state after the surface committed.
    pub fn after_commit(self) -> (r: ResizeState)
        ensures
            r == self.spec_after_commit(),
    {
        match self {
            ResizeState::WaitingForCommit(_) => ResizeState::NotResizing,
            other => other,
        }
    }
}

impl Default for ResizeState {
    fn default() -> (r: ResizeState)
        ensures
            r == ResizeState::NotResizing,
    {
        ResizeState::NotResizing
    }
}

/// Converting edges to the wire value and back gives the same edges, for
/// every set of edges the protocol can name; and every wire value the
/// protocol defines survives the way back. The edges of an X11 request are
/// always ones the protocol can name.
pub proof fn lemma_edge_roundtrip(e: ResizeEdge, v: u32, x: X11ResizeEdge)
    ensures
        is_edge_value(e.bits) ==> ResizeEdge::spec_from_xdg(e.spec_to_xdg()) == e,
        is_edge_value(v) ==> ResizeEdge::spec_from_xdg(v).spec_to_xdg() == v,
        ResizeEdge::spec_from_xdg(ResizeEdge::spec_from_x11(x).spec_to_xdg()) == ResizeEdge::spec_from_x11(x),
{
}

/// The size a resize produces respects the window's limits; a size that
/// already respects them is kept; and constraining twice changes nothing.
pub proof fn lemma_constrain_size(requested: Size, min_size: Size, max_size: Size)
    requires
        limits_consistent(min_size, max_size),
    ensures
        ({
            let r = spec_constrain(requested, min_size, max_size);
            &&& min_bound(min_size.w) <= r.w <= max_bound(max_size.w)
            &&& min_bound(min_size.h) <= r.h <= max_bound(max_size.h)
            &&& spec_constrain(r, min_size, max_size) == r
        }),
        (min_bound(min_size.w) <= requested.w <= max_bound(max_size.w) && min_bound(min_size.h)
            <= requested.h <= max_bound(max_size.h)) ==> spec_constrain(requested, min_size, max_size)
            == requested,
{
}

/// How the size follows the pointer, edge by edge: the width grows against
/// the pointer's horizontal movement exactly when the left edge is grabbed,
/// with it when the right edge is grabbed without the left one, and stays
/// otherwise; the height likewise with the top and bottom edges. A set
/// without the left (top) edge never makes the width (height) grow against
/// the pointer.
pub proof fn lemma_axes_follow_edges(e: ResizeEdge)
    ensures
        (e.spec_axes().0 == AxisDrag::Backward) == (e.bits & EDGE_LEFT != 0),
        (e.spec_axes().0 == AxisDrag::Forward) == (e.bits & EDGE_LEFT == 0 && e.bits & EDGE_RIGHT != 0),
        (e.spec_axes().0 == AxisDrag::Fixed) == (e.bits & EDGE_LEFT == 0 && e.bits & EDGE_RIGHT == 0),
        (e.spec_axes().1 == AxisDrag::Backward) == (e.bits & EDGE_TOP != 0),
        (e.spec_axes().1 == AxisDrag::Forward) == (e.bits & EDGE_TOP == 0 && e.bits & EDGE_BOTTOM != 0),
        (e.spec_axes().1 == AxisDrag::Fixed) == (e.bits & EDGE_TOP == 0 && e.bits & EDGE_BOTTOM == 0),
{
    let b = e.bits;
    assert((b & 12u32 == 0) == (b & 4u32 == 0 && b & 8u32 == 0)) by (bit_vector);
    assert((b & 3u32 == 0) == (b & 1u32 == 0 && b & 2u32 == 0)) by (bit_vector);
    assert(b & 4u32 != 0 ==> b & 12u32 != 0) by (bit_vector);
    assert(b & 1u32 != 0 ==> b & 3u32 != 0) by (bit_vector);
}

} // verus!
