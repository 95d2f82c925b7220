//! Integer lines between two points (Bresenham's algorithm, all octants), as
//! walked by `LineIterator` and `Pattern::set_line`.
use vstd::prelude::*;

verus! {

/// The fixed quantities of a line from `(x1, y1)` to `(x2, y2)`.
pub struct LineParams {
    pub x1: int,
    pub y1: int,
    pub x2: int,
    pub y2: int,
    pub dx: int,
    pub dy: int,
    pub sx: int,
    pub sy: int,
}

/// The point reached so far and the accumulated error term.
pub struct LineState {
    pub x: int,
    pub y: int,
    pub err: int,
}

pub open spec fn iabs(v: int) -> int {
    if v < 0 {
        -v
    } else {
        v
    }
}

pub open spec fn line_params(x1: int, y1: int, x2: int, y2: int) -> LineParams {
    LineParams {
        x1,
        y1,
        x2,
        y2,
        dx: iabs(x2 - x1),
        dy: iabs(y2 - y1),
        sx: if x1 < x2 {
            1
        } else {
            -1
        },
        sy: if y1 < y2 {
            1
        } else {
            -1
        },
    }
}

pub open spec fn line_start(p: LineParams) -> LineState {
    LineState { x: p.x1, y: p.y1, err: p.dx - p.dy }
}

/// One step: move along x when twice the error exceeds `-dy`, along y when it
/// is below `dx` (both conditions read the error before the step).
pub open spec fn line_next(p: LineParams, s: LineState) -> LineState {
    let e2 = 2 * s.err;
    let err1 = if e2 > -p.dy {
        s.err - p.dy
    } else {
        s.err
    };
    let x1 = if e2 > -p.dy {
        s.x + p.sx
    } else {
        s.x
    };
    let err2 = if e2 < p.dx {
        err1 + p.dx
    } else {
        err1
    };
    let y1 = if e2 < p.dx {
        s.y + p.sy
    } else {
        s.y
    };
    LineState { x: x1, y: y1, err: err2 }
}

pub open spec fn line_at_end(p: LineParams, s: LineState) -> bool {
    s.x == p.x2 && s.y == p.y2
}

/// How far the state is from the end, along both axes together.
pub open spec fn line_dist(p: LineParams, s: LineState) -> int {
    iabs(p.x2 - s.x) + iabs(p.y2 - s.y)
}

/// Steps taken along x.
pub open spec fn steps_x(p: LineParams, s: LineState) -> int {
    if p.sx == 1 {
        s.x - p.x1
    } else {
        p.x1 - s.x
    }
}

/// Steps taken along y.
pub open spec fn steps_y(p: LineParams, s: LineState) -> int {
    if p.sy == 1 {
        s.y - p.y1
    } else {
        p.y1 - s.y
    }
}

/// What holds of every state reached from the start: the point lies between
/// the ends, and the error term measures how far it lies off the ideal line.
pub open spec fn line_inv(p: LineParams, s: LineState) -> bool {
    let nx = steps_x(p, s);
    let ny = steps_y(p, s);
    &&& p == line_params(p.x1, p.y1, p.x2, p.y2)
    &&& 0 <= nx <= p.dx
    &&& 0 <= ny <= p.dy
    &&& s.err == p.dx - p.dy + p.dx * ny - p.dy * nx
    &&& -2 * p.dy <= s.err <= 2 * p.dx
}

/// The points visited from state `s` on, the end point included; `fuel`
/// bounds the number of steps and is never the limit when it is at least
/// `line_dist`.
pub open spec fn line_walk(p: LineParams, s: LineState, fuel: nat) -> Seq<(int, int)>
    decreases fuel,
{
    if line_at_end(p, s) || fuel == 0 {
        seq![(s.x, s.y)]
    } else {
        seq![(s.x, s.y)] + line_walk(p, line_next(p, s), (fuel - 1) as nat)
    }
}

/// The points of the line from `(x1, y1)` to `(x2, y2)`, in order, both ends
/// included.
pub open spec fn line_points(x1: int, y1: int, x2: int, y2: int) -> Seq<(int, int)> {
    let p = line_params(x1, y1, x2, y2);
    line_walk(p, line_start(p), (p.dx + p.dy) as nat)
}

/// The walk starts in a state that satisfies its invariant, `dx + dy` steps
/// of distance from the end.
pub proof fn lemma_line_start(x1: int, y1: int, x2: int, y2: int)
    ensures
        line_inv(line_params(x1, y1, x2, y2), line_start(line_params(x1, y1, x2, y2))),
        line_dist(line_params(x1, y1, x2, y2), line_start(line_params(x1, y1, x2, y2))) == line_params(x1, y1, x2, y2).dx + line_params(x1, y1, x2, y2).dy,
{
}

proof fn lemma_line_at_end(p: LineParams, s: LineState)
    requires
        line_inv(p, s),
    ensures
        line_at_end(p, s) <==> (steps_x(p, s) == p.dx && steps_y(p, s) == p.dy),
        line_dist(p, s) == (p.dx - steps_x(p, s)) + (p.dy - steps_y(p, s)),
{
}

/// A step away from the end keeps the invariant and gets closer to the end.
pub proof fn lemma_line_step(p: LineParams, s: LineState)
    requires
        line_inv(p, s),
        !line_at_end(p, s),
    ensures
        line_inv(p, line_next(p, s)),
        line_dist(p, line_next(p, s)) < line_dist(p, s),
{
    lemma_line_at_end(p, s);
    let nx = steps_x(p, s);
    let ny = steps_y(p, s);
    let dx = p.dx;
    let dy = p.dy;
    let e2 = 2 * s.err;
    let t = line_next(p, s);
    if nx == dx && ny < dy {
        assert(dx * (1 + ny - dy) <= 0) by (nonlinear_arith)
            requires
                dx >= 0,
                1 + ny - dy <= 0,
        ;
        assert(s.err == dx * (1 + ny - dy) - dy) by (nonlinear_arith)
            requires
                s.err == dx - dy + dx * ny - dy * nx,
                nx == dx,
        ;
    }
    if ny == dy && nx < dx {
        assert(dy * (dx - nx - 1) >= 0) by (nonlinear_arith)
            requires
                dy >= 0,
                dx - nx - 1 >= 0,
        ;
        assert(s.err == dx + dy * (dx - nx - 1)) by (nonlinear_arith)
            requires
                s.err == dx - dy + dx * ny - dy * nx,
                ny == dy,
        ;
    }
    let xs = e2 > -dy;
    let ys = e2 < dx;
    let nx2 = if xs {
        nx + 1
    } else {
        nx
    };
    let ny2 = if ys {
        ny + 1
    } else {
        ny
    };
    assert(steps_x(p, t) == nx2);
    assert(steps_y(p, t) == ny2);
    assert(t.err == dx - dy + dx * ny2 - dy * nx2) by (nonlinear_arith)
        requires
            s.err == dx - dy + dx * ny - dy * nx,
            t.err == s.err - (if xs {
                dy
            } else {
                0
            }) + (if ys {
                dx
            } else {
                0
            }),
            nx2 == nx + (if xs {
                1int
            } else {
                0
            }),
            ny2 == ny + (if ys {
                1int
            } else {
                0
            }),
    ;
    lemma_line_at_end(p, t);
}

/// Fuel beyond what the walk needs changes nothing.
pub proof fn lemma_line_walk_fuel(p: LineParams, s: LineState, f1: nat, f2: nat)
    requires
        line_inv(p, s),
        f1 >= line_dist(p, s),
        f2 >= line_dist(p, s),
    ensures
        line_walk(p, s, f1) == line_walk(p, s, f2),
    decreases f1,
{
    lemma_line_at_end(p, s);
    if !line_at_end(p, s) {
        lemma_line_step(p, s);
        lemma_line_walk_fuel(p, line_next(p, s), (f1 - 1) as nat, (f2 - 1) as nat);
    }
}

} // verus!

verus! {

/// `|v|` for an `i32` that is not `i32::MIN`.
pub(crate) fn abs_i32(v: i32) -> (r: i32)
    requires
        v != i32::MIN,
    ensures
        r == iabs(v as int),
{
    if v < 0 {
        -v
    } else {
        v
    }
}

/// A line between two points whose coordinate differences, and their
/// absolute values, fit in an `i32`.
pub open spec fn line_fits(x1: int, y1: int, x2: int, y2: int) -> bool {
    &&& -i32::MAX <= x2 - x1 <= i32::MAX
    &&& -i32::MAX <= y2 - y1 <= i32::MAX
}

/// The points of a line between two points, first to last, both included.
pub struct LineIterator {
    current: (i32, i32),
    end: (i32, i32),
    step: (i32, i32),
    dx: i32,
    dy: i32,
    err: i64,
    done: bool,
    start: Ghost<(int, int)>,
}

impl LineIterator {
    pub closed spec fn params(&self) -> LineParams {
        line_params(self.start@.0, self.start@.1, self.end.0 as int, self.end.1 as int)
    }

    pub closed spec fn state(&self) -> LineState {
        LineState { x: self.current.0 as int, y: self.current.1 as int, err: self.err as int }
    }

    #[verifier::type_invariant]
    closed spec fn inv(&self) -> bool {
        let p = self.params();
        &&& line_fits(p.x1, p.y1, p.x2, p.y2)
        &&& self.dx == p.dx
        &&& self.dy == p.dy
        &&& self.step.0 == p.sx
        &&& self.step.1 == p.sy
        &&& !self.done ==> line_inv(p, self.state())
    }

    /// The points still to come.
    pub closed spec fn remaining(&self) -> Seq<(int, int)> {
        if self.done {
            Seq::empty()
        } else {
            line_walk(self.params(), self.state(), line_dist(self.params(), self.state()) as nat)
        }
    }

    pub fn new(start: (i32, i32), end: (i32, i32)) -> (it: Self)
        requires
            line_fits(start.0 as int, start.1 as int, end.0 as int, end.1 as int),
        ensures
            it.remaining() == line_points(start.0 as int, start.1 as int, end.0 as int, end.1 as int),
    {
        let current = start;
        let dx = abs_i32(end.0 - current.0);
        let dy = abs_i32(end.1 - current.1);
        let step = (
            if current.0 < end.0 {
                1
            } else {
                -1
            },
            if current.1 < end.1 {
                1
            } else {
                -1
            },
        );
        proof {
            lemma_line_start(start.0 as int, start.1 as int, end.0 as int, end.1 as int);
        }
        Self {
            current,
            end,
            step,
            dx,
            dy,
            err: dx as i64 - dy as i64,
            done: false,
            start: Ghost((start.0 as int, start.1 as int)),
        }
    }

    /// The next point of the line, or `None` after the last.
    pub fn next(&mut self) -> (r: Option<(i32, i32)>)
        ensures
            match r {
                Some(pt) => old(self).remaining().len() > 0 && old(self).remaining()[0] == (
                    pt.0 as int,
                    pt.1 as int,
                ) && final(self).remaining() == old(self).remaining().drop_first(),
                None => old(self).remaining().len() == 0 && final(self).remaining().len() == 0,
            },
    {
        proof {
            use_type_invariant(&*self);
        }
        if self.done {
            return None;
        }
        let ghost p = self.params();
        let ghost s = self.state();
        let ghost f = line_dist(p, s) as nat;
        let point = self.current;
        if self.current.0 == self.end.0 && self.current.1 == self.end.1 {
            self.done = true;
            assert(old(self).remaining() =~= seq![(point.0 as int, point.1 as int)]);
            return Some(point);
        }
        proof {
            lemma_line_step(p, s);
        }
        let err2: i64 = self.err * 2;
        let mut err: i64 = self.err;
        let mut current = self.current;
        if err2 > -(self.dy as i64) {
            err -= self.dy as i64;
            current.0 += self.step.0;
        }
        if err2 < self.dx as i64 {
            err += self.dx as i64;
            current.1 += self.step.1;
        }
        *self = Self {
            current,
            end: self.end,
            step: self.step,
            dx: self.dx,
            dy: self.dy,
            err,
            done: false,
            start: self.start,
        };
        proof {
            assert(self.state() == line_next(p, s));
            lemma_line_walk_fuel(p, line_next(p, s), (f - 1) as nat, line_dist(p, line_next(p, s)) as nat);
            assert(old(self).remaining().drop_first() =~= self.remaining());
        }
        Some(point)
    }
}

} // verus!

verus! {

/// The invariant together with what makes the walk advance one unit along the
/// longer axis at every step.
pub open spec fn line_inv_full(p: LineParams, s: LineState) -> bool {
    &&& line_inv(p, s)
    &&& p.dx > p.dy ==> 2 * s.err > -p.dy
    &&& p.dy > p.dx ==> 2 * s.err < p.dx
    &&& p.dx == p.dy ==> steps_x(p, s) == steps_y(p, s)
}

/// Steps still to take along the longer axis.
pub open spec fn line_left(p: LineParams, s: LineState) -> int {
    if p.dx >= p.dy {
        p.dx - steps_x(p, s)
    } else {
        p.dy - steps_y(p, s)
    }
}

proof fn lemma_line_step_full(p: LineParams, s: LineState)
    requires
        line_inv_full(p, s),
    ensures
        line_at_end(p, s) <==> line_left(p, s) == 0,
        !line_at_end(p, s) ==> line_inv_full(p, line_next(p, s)) && line_left(p, line_next(p, s))
            == line_left(p, s) - 1,
{
    lemma_line_at_end(p, s);
    let nx = steps_x(p, s);
    let ny = steps_y(p, s);
    let dx = p.dx;
    let dy = p.dy;
    if dx == dy {
        assert(s.err == dx * (ny - nx)) by (nonlinear_arith)
            requires
                s.err == dx - dy + dx * ny - dy * nx,
                dx == dy,
        ;
    }
    if dx > dy && nx == dx && ny < dy {
        assert(dx * (1 + ny - dy) <= 0) by (nonlinear_arith)
            requires
                dx >= 0,
                1 + ny - dy <= 0,
        ;
        assert(s.err == dx * (1 + ny - dy) - dy) by (nonlinear_arith)
            requires
                s.err == dx - dy + dx * ny - dy * nx,
                nx == dx,
        ;
    }
    if dy > dx && ny == dy && nx < dx {
        assert(dy * (dx - nx - 1) >= 0) by (nonlinear_arith)
            requires
                dy >= 0,
                dx - nx - 1 >= 0,
        ;
        assert(s.err == dx + dy * (dx - nx - 1)) by (nonlinear_arith)
            requires
                s.err == dx - dy + dx * ny - dy * nx,
                ny == dy,
        ;
    }
    if !line_at_end(p, s) {
        lemma_line_step(p, s);
        lemma_line_at_end(p, line_next(p, s));
    }
}

proof fn lemma_line_walk_shape(p: LineParams, s: LineState, f: nat)
    requires
        line_inv_full(p, s),
        f >= line_dist(p, s),
    ensures
        line_walk(p, s, f).len() == line_left(p, s) + 1,
        line_walk(p, s, f)[0] == (s.x, s.y),
        line_walk(p, s, f).last() == (p.x2, p.y2),
        forall|i: int|
            0 <= i < line_walk(p, s, f).len() - 1 ==> {
                let a = #[trigger] line_walk(p, s, f)[i];
                let b = line_walk(p, s, f)[i + 1];
                iabs(a.0 - b.0) <= 1 && iabs(a.1 - b.1) <= 1 && a != b
            },
    decreases f,
{
    lemma_line_step_full(p, s);
    lemma_line_at_end(p, s);
    if !line_at_end(p, s) {
        lemma_line_step(p, s);
        let t = line_next(p, s);
        lemma_line_walk_shape(p, t, (f - 1) as nat);
        let w = line_walk(p, s, f);
        let r = line_walk(p, t, (f - 1) as nat);
        assert(w == seq![(s.x, s.y)] + r);
        assert forall|i: int| 0 <= i < w.len() - 1 implies {
            let a = #[trigger] w[i];
            let b = w[i + 1];
            iabs(a.0 - b.0) <= 1 && iabs(a.1 - b.1) <= 1 && a != b
        } by {
            if i > 0 {
                assert(w[i] == r[i - 1]);
                assert(w[i + 1] == r[i]);
            } else {
                assert(w[1] == r[0]);
            }
        }
    }
}

/// The line from `(x1, y1)` to `(x2, y2)`, which `LineIterator::new` yields
/// point by point and `Pattern::set_line` draws, starts at the first point,
/// ends at the second, has one point per unit along its longer axis plus one,
/// and each point is one of the eight neighbours of, and differs from, the
/// point before it.
pub proof fn lemma_line_shape(x1: int, y1: int, x2: int, y2: int)
    ensures
        line_points(x1, y1, x2, y2).len() == (if iabs(x2 - x1) >= iabs(y2 - y1) {
            iabs(x2 - x1)
        } else {
            iabs(y2 - y1)
        }) + 1,
        line_points(x1, y1, x2, y2)[0] == (x1, y1),
        line_points(x1, y1, x2, y2).last() == (x2, y2),
        forall|i: int|
            0 <= i < line_points(x1, y1, x2, y2).len() - 1 ==> {
                let a = #[trigger] line_points(x1, y1, x2, y2)[i];
                let b = line_points(x1, y1, x2, y2)[i + 1];
                iabs(a.0 - b.0) <= 1 && iabs(a.1 - b.1) <= 1 && a != b
            },
{
    let p = line_params(x1, y1, x2, y2);
    lemma_line_start(x1, y1, x2, y2);
    lemma_line_walk_shape(p, line_start(p), (p.dx + p.dy) as nat);
}

} // verus!
