//! Editing a pass by dragging its handles on the preview: which values a drag
//! starts from and how the pass follows the pointer, in whole pixels.
use vstd::prelude::*;
use crate::definition::{RectSettings, RoundOptions, TexturePass, TileOptions};

verus! {

/// The handle of a pass that the pointer holds.
#[derive(Debug, Clone, Copy, PartialEq, Eq, Structural, Hash)]
pub enum DragTarget {
    /// The whole rectangle.
    Rect,
    /// An edge: left, right, top, bottom.
    Edge(usize),
    /// A corner: top left, top right, bottom left, bottom right.
    CornerHandle(usize),
    /// The radius of the rounded corners.
    RoundHandle,
    /// The gap between tiles: horizontal, vertical.
    Tile(usize),
}

/// `max(v, lo)`.
pub open spec fn at_least(v: int, lo: int) -> int {
    if v < lo {
        lo
    } else {
        v
    }
}

/// The pass after dragging `target` by `(dx, dy)` pixels from the values
/// `v` that the drag started from.
pub open spec fn dragged(t: DragTarget, p: TexturePass, v: (i32, i32, i32, i32), dx: int, dy: int) -> TexturePass {
    let moved_x = v.0 + dx;
    let moved_y = v.1 + dy;
    let w_left = at_least(v.2 - dx, 1);
    let w_right = at_least(v.2 + dx, 1);
    let h_top = at_least(v.3 - dy, 1);
    let h_bottom = at_least(v.3 + dy, 1);
    match t {
        DragTarget::Rect => TexturePass { feature_x: moved_x as i32, feature_y: moved_y as i32, ..p },
        DragTarget::Edge(0) => TexturePass {
            feature_x: moved_x as i32,
            rect: RectSettings { width: w_left as i32, ..p.rect },
            ..p
        },
        DragTarget::Edge(1) => TexturePass { rect: RectSettings { width: w_right as i32, ..p.rect }, ..p },
        DragTarget::Edge(2) => TexturePass {
            feature_y: moved_y as i32,
            rect: RectSettings { height: h_top as i32, ..p.rect },
            ..p
        },
        DragTarget::Edge(_) => TexturePass { rect: RectSettings { height: h_bottom as i32, ..p.rect }, ..p },
        DragTarget::CornerHandle(0) => TexturePass {
            feature_x: moved_x as i32,
            feature_y: moved_y as i32,
            rect: RectSettings { width: w_left as i32, height: h_top as i32, ..p.rect },
            ..p
        },
        DragTarget::CornerHandle(1) => TexturePass {
            feature_y: moved_y as i32,
            rect: RectSettings { width: w_right as i32, height: h_top as i32, ..p.rect },
            ..p
        },
        DragTarget::CornerHandle(2) => TexturePass {
            feature_x: moved_x as i32,
            rect: RectSettings { width: w_left as i32, height: h_bottom as i32, ..p.rect },
            ..p
        },
        DragTarget::CornerHandle(_) => TexturePass {
            rect: RectSettings { width: w_right as i32, height: h_bottom as i32, ..p.rect },
            ..p
        },
        DragTarget::RoundHandle => {
            let hi = crate::pattern::tdiv(
                if p.rect.width < p.rect.height {
                    p.rect.width as int
                } else {
                    p.rect.height as int
                },
                2,
            );
            TexturePass {
                rect: RectSettings {
                    round: RoundOptions { radius: crate::pattern::clamp(v.0 - dy, 0, hi) as i32, ..p.rect.round },
                    ..p.rect
                },
                ..p
            }
        },
        DragTarget::Tile(0) => TexturePass { tile: TileOptions { x_gap: at_least(v.0 + dx, 0) as i32, ..p.tile }, ..p },
        DragTarget::Tile(_) => TexturePass { tile: TileOptions { y_gap: at_least(v.0 + dy, 0) as i32, ..p.tile }, ..p },
    }
}

/// The drags that are defined, on values that stay within `i32`: the four
/// edges and corners, the two gaps, and a rounding that can be clamped (the
/// smaller side is at least -1).
pub open spec fn drag_defined(t: DragTarget, p: TexturePass, v: (i32, i32, i32, i32), dx: int, dy: int) -> bool {
    let fits = |a: int| i32::MIN <= a <= i32::MAX;
    match t {
        DragTarget::Rect => fits(v.0 + dx) && fits(v.1 + dy),
        DragTarget::Edge(k) => k < 4 && (k == 0 ==> fits(v.0 + dx) && fits(v.2 - dx)) && (k == 1
            ==> fits(v.2 + dx)) && (k == 2 ==> fits(v.1 + dy) && fits(v.3 - dy)) && (k == 3
            ==> fits(v.3 + dy)),
        DragTarget::CornerHandle(k) => k < 4 && fits(v.2 - dx) && fits(v.2 + dx) && fits(v.3 - dy)
            && fits(v.3 + dy) && (k == 0 || k == 2 ==> fits(v.0 + dx)) && (k == 0 || k == 1
            ==> fits(v.1 + dy)),
        DragTarget::RoundHandle => fits(v.0 - dy) && p.rect.width >= -1 && p.rect.height >= -1,
        DragTarget::Tile(k) => k < 2 && (k == 0 ==> fits(v.0 + dx)) && (k == 1 ==> fits(v.0 + dy)),
    }
}

/// The values of a pass that a drag of a handle starts from.
pub open spec fn start_values_of(t: DragTarget, pass: TexturePass) -> (i32, i32, i32, i32) {
    match t {
        DragTarget::RoundHandle => (pass.rect.round.radius, 0, 0, 0),
        DragTarget::Tile(0) => (pass.tile.x_gap, 0, 0, 0),
        DragTarget::Tile(1) => (pass.tile.y_gap, 0, 0, 0),
        _ => (pass.feature_x, pass.feature_y, pass.rect.width, pass.rect.height),
    }
}

/// The handles that a drag can hold.
pub open spec fn valid_target(t: DragTarget) -> bool {
    match t {
        DragTarget::Edge(k) => k < 4,
        DragTarget::CornerHandle(k) => k < 4,
        DragTarget::Tile(k) => k < 2,
        _ => true,
    }
}

/// A drag that has not moved leaves a pass as it was, when the pass's sizes
/// are at least 1, its gaps at least 0 and its radius within half its smaller
/// side.
pub proof fn lemma_still_drag_keeps_pass(t: DragTarget, p: TexturePass)
    requires
        valid_target(t),
        p.rect.width >= 1,
        p.rect.height >= 1,
        p.tile.x_gap >= 0,
        p.tile.y_gap >= 0,
        0 <= p.rect.round.radius,
        2 * p.rect.round.radius <= p.rect.width,
        2 * p.rect.round.radius <= p.rect.height,
    ensures
        drag_defined(t, p, start_values_of(t, p), 0, 0),
        dragged(t, p, start_values_of(t, p), 0, 0) == p,
{
    let side = if p.rect.width < p.rect.height {
        p.rect.width as int
    } else {
        p.rect.height as int
    };
    assert(p.rect.round.radius <= crate::pattern::tdiv(side, 2));
}

/// What a drag sets stays in range: sizes at least 1, gaps at least 0, and
/// the radius between 0 and half the smaller side.
pub proof fn lemma_drag_bounds(t: DragTarget, p: TexturePass, v: (i32, i32, i32, i32), dx: int, dy: int)
    requires
        drag_defined(t, p, v, dx, dy),
    ensures
        ({
            let q = dragged(t, p, v, dx, dy);
            let side = if p.rect.width < p.rect.height {
                p.rect.width as int
            } else {
                p.rect.height as int
            };
            &&& q.rect.width == p.rect.width || q.rect.width >= 1
            &&& q.rect.height == p.rect.height || q.rect.height >= 1
            &&& q.tile.x_gap == p.tile.x_gap || q.tile.x_gap >= 0
            &&& q.tile.y_gap == p.tile.y_gap || q.tile.y_gap >= 0
            &&& q.rect.round.radius == p.rect.round.radius || 0 <= q.rect.round.radius
                <= crate::pattern::tdiv(side, 2)
        }),
{
}

/// Whether the handle holds the left side of the rectangle.
pub open spec fn holds_left(t: DragTarget) -> bool {
    t == DragTarget::Edge(0) || t == DragTarget::CornerHandle(0) || t == DragTarget::CornerHandle(2)
}

/// Whether the handle holds the right side of the rectangle.
pub open spec fn holds_right(t: DragTarget) -> bool {
    t == DragTarget::Edge(1) || t == DragTarget::CornerHandle(1) || t == DragTarget::CornerHandle(3)
}

/// Whether the handle holds the top side of the rectangle.
pub open spec fn holds_top(t: DragTarget) -> bool {
    t == DragTarget::Edge(2) || t == DragTarget::CornerHandle(0) || t == DragTarget::CornerHandle(1)
}

/// Whether the handle holds the bottom side of the rectangle.
pub open spec fn holds_bottom(t: DragTarget) -> bool {
    t == DragTarget::Edge(3) || t == DragTarget::CornerHandle(2) || t == DragTarget::CornerHandle(3)
}

/// An edge or corner handle moves the sides it holds with the pointer and
/// keeps the opposite sides where they were: a held left (top) side moves by
/// `dx` (`dy`) with the right (bottom) side fixed, a held right (bottom) side
/// moves by `dx` (`dy`) with the left (top) side fixed, and a size that would
/// fall below 1 stays at 1. Sides the handle does not hold do not move, and
/// dragging the whole rectangle moves it without resizing it.
pub proof fn lemma_handles_follow_pointer(t: DragTarget, p: TexturePass, dx: int, dy: int)
    requires
        drag_defined(t, p, start_values_of(t, p), dx, dy),
        t is Rect || t is Edge || t is CornerHandle,
    ensures
        ({
            let q = dragged(t, p, start_values_of(t, p), dx, dy);
            let (left, top) = (p.feature_x as int, p.feature_y as int);
            let (right, bottom) = (left + p.rect.width, top + p.rect.height);
            &&& t is Rect ==> q.feature_x == left + dx && q.feature_y == top + dy
                && q.rect.width == p.rect.width && q.rect.height == p.rect.height
            &&& holds_left(t) ==> q.feature_x == left + dx && (p.rect.width - dx >= 1
                ==> q.feature_x + q.rect.width == right) && (p.rect.width - dx < 1
                ==> q.rect.width == 1)
            &&& holds_right(t) ==> q.feature_x == left && (p.rect.width + dx >= 1
                ==> q.feature_x + q.rect.width == right + dx) && (p.rect.width + dx < 1
                ==> q.rect.width == 1)
            &&& holds_top(t) ==> q.feature_y == top + dy && (p.rect.height - dy >= 1
                ==> q.feature_y + q.rect.height == bottom) && (p.rect.height - dy < 1
                ==> q.rect.height == 1)
            &&& holds_bottom(t) ==> q.feature_y == top && (p.rect.height + dy >= 1
                ==> q.feature_y + q.rect.height == bottom + dy) && (p.rect.height + dy < 1
                ==> q.rect.height == 1)
            &&& !(t is Rect) && !holds_left(t) && !holds_right(t) ==> q.feature_x == left
                && q.rect.width == p.rect.width
            &&& !(t is Rect) && !holds_top(t) && !holds_bottom(t) ==> q.feature_y == top
                && q.rect.height == p.rect.height
            &&& q.tile == p.tile && q.pattern == p.pattern && q.rect.round == p.rect.round
        }),
{
}

/// The gap handles move a gap with the pointer (the horizontal one by `dx`,
/// the vertical one by `dy`), never below 0; the round handle grows the
/// radius as the pointer moves up, within 0 and half the smaller side. Nothing
/// else of the pass changes.
pub proof fn lemma_gap_and_round_handles(t: DragTarget, p: TexturePass, dx: int, dy: int)
    requires
        drag_defined(t, p, start_values_of(t, p), dx, dy),
        t is Tile || t is RoundHandle,
    ensures
        ({
            let q = dragged(t, p, start_values_of(t, p), dx, dy);
            let half = crate::pattern::tdiv(
                if p.rect.width < p.rect.height {
                    p.rect.width as int
                } else {
                    p.rect.height as int
                },
                2,
            );
            &&& t == DragTarget::Tile(0) ==> q.tile.x_gap == at_least(p.tile.x_gap + dx, 0)
                && q.tile.y_gap == p.tile.y_gap
            &&& t == DragTarget::Tile(1) ==> q.tile.y_gap == at_least(p.tile.y_gap + dy, 0)
                && q.tile.x_gap == p.tile.x_gap
            &&& t is RoundHandle && 0 <= p.rect.round.radius - dy <= half ==> q.rect.round.radius
                == p.rect.round.radius - dy
            &&& t is RoundHandle && p.rect.round.radius - dy < 0 && half >= 0
                ==> q.rect.round.radius == 0
            &&& t is RoundHandle && p.rect.round.radius - dy > half && half >= 0
                ==> q.rect.round.radius == half
            &&& q.feature_x == p.feature_x && q.feature_y == p.feature_y
            &&& q.rect.width == p.rect.width && q.rect.height == p.rect.height
            &&& q.pattern == p.pattern && q.noise == p.noise
        }),
{
}

impl DragTarget {
    /// The values of the pass that a drag of this handle starts from.
    pub fn start_values(&self, pass: &TexturePass) -> (r: (i32, i32, i32, i32))
        ensures
            r == start_values_of(*self, *pass),
    {
        match self {
            DragTarget::RoundHandle => (pass.rect.round.radius, 0, 0, 0),
            DragTarget::Tile(0) => (pass.tile.x_gap, 0, 0, 0),
            DragTarget::Tile(1) => (pass.tile.y_gap, 0, 0, 0),
            _ => (pass.feature_x, pass.feature_y, pass.rect.width, pass.rect.height),
        }
    }

    /// Follows the pointer: the pass after this handle was dragged by
    /// `(dx, dy)` pixels from `value_start`. Sizes stay at least 1, gaps at
    /// least 0, and the radius within half the smaller side.
    pub fn update_pass(&self, pass: &mut TexturePass, value_start: (i32, i32, i32, i32), dx: i32, dy: i32)
        requires
            drag_defined(*self, *old(pass), value_start, dx as int, dy as int),
        ensures
            *final(pass) == dragged(*self, *old(pass), value_start, dx as int, dy as int),
    {
        let v = value_start;
        match self {
            DragTarget::Rect => {
                pass.feature_x = v.0 + dx;
                pass.feature_y = v.1 + dy;
            },
            DragTarget::Edge(0) => {
                pass.feature_x = v.0 + dx;
                pass.rect.width = max_i32(v.2 - dx, 1);
            },
            DragTarget::Edge(1) => {
                pass.rect.width = max_i32(v.2 + dx, 1);
            },
            DragTarget::Edge(2) => {
                pass.feature_y = v.1 + dy;
                pass.rect.height = max_i32(v.3 - dy, 1);
            },
            DragTarget::Edge(_) => {
                pass.rect.height = max_i32(v.3 + dy, 1);
            },
            DragTarget::CornerHandle(0) => {
                pass.feature_x = v.0 + dx;
                pass.feature_y = v.1 + dy;
                pass.rect.width = max_i32(v.2 - dx, 1);
                pass.rect.height = max_i32(v.3 - dy, 1);
            },
            DragTarget::CornerHandle(1) => {
                pass.feature_y = v.1 + dy;
                pass.rect.width = max_i32(v.2 + dx, 1);
                pass.rect.height = max_i32(v.3 - dy, 1);
            },
            DragTarget::CornerHandle(2) => {
                pass.feature_x = v.0 + dx;
                pass.rect.width = max_i32(v.2 - dx, 1);
                pass.rect.height = max_i32(v.3 + dy, 1);
            },
            DragTarget::CornerHandle(_) => {
                pass.rect.width = max_i32(v.2 + dx, 1);
                pass.rect.height = max_i32(v.3 + dy, 1);
            },
            DragTarget::RoundHandle => {
                let side = if pass.rect.width < pass.rect.height {
                    pass.rect.width
                } else {
                    pass.rect.height
                };
                let hi = crate::pattern::div_trunc(side, 2);
                pass.rect.round.radius = crate::pattern::clamp_i32(v.0 - dy, 0, hi);
            },
            DragTarget::Tile(0) => {
                pass.tile.x_gap = max_i32(v.0 + dx, 0);
            },
            DragTarget::Tile(_) => {
                pass.tile.y_gap = max_i32(v.0 + dy, 0);
            },
        }
    }
}

/// `Ord::max` on `i32`.
fn max_i32(a: i32, b: i32) -> (r: i32)
    ensures
        r == at_least(a as int, b as int),
{
    if a < b {
        b
    } else {
        a
    }
}

/// `active` when the held handle is `target_type`, else `normal`: how a handle
/// is drawn.
pub fn pick_for_target<T: Copy>(target: Option<DragTarget>, target_type: DragTarget, normal: T, active: T) -> (r: T)
    ensures
        r == if target == Some(target_type) {
            active
        } else {
            normal
        },
{
    match target {
        Some(t) => if t == target_type {
            active
        } else {
            normal
        },
        None => normal,
    }
}

} // verus!
