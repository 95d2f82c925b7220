//! A 16 by 16 bit pattern that a texture pass can stamp, optionally mirrored
//! about its vertical center line and scaled up by an integer factor.
use vstd::prelude::*;
use crate::line::{LineState, abs_i32, lemma_line_start, lemma_line_step, lemma_line_walk_fuel, line_dist, line_fits, line_inv, line_next, line_params, line_points, line_walk};

verus! {

/// Rust's integer division (`/`, rounding toward zero) on mathematical integers.
pub open spec fn tdiv(x: int, d: int) -> int {
    if d < 0 {
        -tdiv_pos(x, -d)
    } else {
        tdiv_pos(x, d)
    }
}

/// Division rounding toward zero by a positive divisor.
pub open spec fn tdiv_pos(x: int, d: int) -> int {
    if x >= 0 {
        x / d
    } else {
        -((-x) / d)
    }
}

/// `i32` division, which must not divide by zero or overflow.
pub(crate) fn div_trunc(a: i32, b: i32) -> (r: i32)
    requires
        b != 0,
        !(a == i32::MIN && b == -1),
    ensures
        r == tdiv(a as int, b as int),
{
    if b > 0 {
        a / b
    } else if b == i32::MIN {
        if a == i32::MIN {
            1
        } else {
            0
        }
    } else {
        let nb = -b;
        let q = a / nb;
        assert(q != i32::MIN) by {
            if a < 0 {
                assert((-a) as int / nb as int <= (-a) as int) by (nonlinear_arith)
                    requires
                        nb >= 1,
                        a < 0,
                ;
                if nb >= 2 {
                    assert((-a) as int / nb as int <= (-a) as int / 2) by (nonlinear_arith)
                        requires
                            nb >= 2,
                            a < 0,
                    ;
                }
            }
        }
        -q
    }
}

/// `x.rem_euclid(16)`.
pub(crate) fn wrap16(x: i32) -> (r: i32)
    ensures
        r == x as int % 16,
{
    let r = x % 16;
    if r < 0 {
        r + 16
    } else {
        r
    }
}

/// `x.clamp(lo, hi)`.
pub open spec fn clamp(x: int, lo: int, hi: int) -> int {
    if x < lo {
        lo
    } else if x > hi {
        hi
    } else {
        x
    }
}

pub(crate) fn clamp_i32(x: i32, lo: i32, hi: i32) -> (r: i32)
    requires
        lo <= hi,
    ensures
        r == clamp(x as int, lo as int, hi as int),
{
    if x < lo {
        lo
    } else if x > hi {
        hi
    } else {
        x
    }
}

/// Whether bit `i` of a pattern row is set.
pub open spec fn row_bit(row: u16, i: int) -> bool {
    row & (1u16 << (i as u16)) != 0
}

/// The row with bit `i` set to `value`.
pub open spec fn with_bit(row: u16, i: int, value: bool) -> u16 {
    if value {
        row | (1u16 << (i as u16))
    } else {
        row & !(1u16 << (i as u16))
    }
}

/// The column read for column `cx` of a pattern that may be mirrored.
pub open spec fn mirror_column(mirror: bool, cx: int) -> int {
    if mirror && cx >= 8 {
        15 - cx
    } else {
        cx
    }
}

/// The rows after setting cell `(x, y)` as `Pattern::set_safe` does.
pub open spec fn set_safe_rows(rows: Seq<u16>, mirror: bool, x: int, y: int, value: bool) -> Seq<
    u16,
> {
    if 0 <= x < 16 && 0 <= y < 16 {
        rows.update(y, with_bit(rows[y], mirror_column(mirror, x), value))
    } else {
        rows
    }
}

/// The rows after setting each of the cells in turn.
pub open spec fn draw_points(rows: Seq<u16>, mirror: bool, pts: Seq<(int, int)>, value: bool) -> Seq<
    u16,
>
    decreases pts.len(),
{
    if pts.len() == 0 {
        rows
    } else {
        draw_points(
            set_safe_rows(rows, mirror, pts[0].0, pts[0].1, value),
            mirror,
            pts.drop_first(),
            value,
        )
    }
}

/// A 16 by 16 bit pattern; bit `x` of `rows[y]` is the cell at column `x`,
/// row `y`. Each cell covers `scale` by `scale` pixels.
#[derive(Debug, Clone, Copy, Hash)]
pub struct Pattern {
    pub rows: [u16; 16],
    pub scale: i32,
    pub mirror_x: bool,
}

impl Pattern {
    pub const SIZE: i32 = 16;

    /// The column that is read for column `cx`: with `mirror_x` the right half
    /// shows the left half mirrored.
    pub open spec fn mirror_col(&self, cx: int) -> int {
        mirror_column(self.mirror_x, cx)
    }

    /// The cell at column `cx`, row `cy`, as stored.
    pub open spec fn cell(&self, cx: int, cy: int) -> bool {
        row_bit(self.rows[cy], cx)
    }

    /// The pixel `(x, y)` can be sampled without a division by zero, an
    /// overflow, or an index or shift out of range.
    pub open spec fn can_sample(&self, x: int, y: int) -> bool {
        &&& self.scale != 0
        &&& !(self.scale == -1 && (x == i32::MIN || y == i32::MIN))
        &&& 0 <= tdiv(y, self.scale as int) < 16
        &&& 0 <= self.mirror_col(tdiv(x, self.scale as int)) < 16
    }

    /// Whether pixel `(x, y)` is covered by the pattern.
    pub open spec fn spec_sample(&self, x: int, y: int) -> bool {
        self.cell(self.mirror_col(tdiv(x, self.scale as int)), tdiv(y, self.scale as int))
    }

    #[inline]
    pub fn sample(&self, x: i32, y: i32) -> (r: bool)
        requires
            self.can_sample(x as int, y as int),
        ensures
            r == self.spec_sample(x as int, y as int),
    {
        let mut x = div_trunc(x, self.scale);
        let y = div_trunc(y, self.scale);
        if self.mirror_x && x >= 8 {
            x = 15 - x;
        }
        self.rows[y as usize] & (1 << (x as u16)) != 0
    }

    /// Samples pixel `(x, y)`; pixels outside the scaled pattern are uncovered.
    #[inline]
    pub fn sample_safe(&self, x: i32, y: i32) -> (r: bool)
        requires
            i32::MIN <= 16 * self.scale <= i32::MAX,
        ensures
            r == (0 <= x < 16 * self.scale && 0 <= y < 16 * self.scale && self.spec_sample(
                x as int,
                y as int,
            )),
    {
        if x < 0 || x >= 16 * self.scale || y < 0 || y >= 16 * self.scale {
            return false;
        }
        assert(0 <= tdiv(x as int, self.scale as int) < 16) by (nonlinear_arith)
            requires
                0 <= x < 16 * self.scale,
                self.scale > 0,
                tdiv(x as int, self.scale as int) == x as int / self.scale as int,
        ;
        assert(0 <= tdiv(y as int, self.scale as int) < 16) by (nonlinear_arith)
            requires
                0 <= y < 16 * self.scale,
                self.scale > 0,
                tdiv(y as int, self.scale as int) == y as int / self.scale as int,
        ;
        self.sample(x, y)
    }

    /// Samples with both coordinates clamped to `0..=15`.
    #[inline]
    pub fn sample_clamp(&self, x: i32, y: i32) -> (r: bool)
        requires
            self.can_sample(clamp(x as int, 0, 15), clamp(y as int, 0, 15)),
        ensures
            r == self.spec_sample(clamp(x as int, 0, 15), clamp(y as int, 0, 15)),
    {
        self.sample(clamp_i32(x, 0, 15), clamp_i32(y, 0, 15))
    }

    /// Samples with both coordinates wrapped into `0..16`.
    #[inline]
    pub fn sample_wrap(&self, x: i32, y: i32) -> (r: bool)
        requires
            self.can_sample(x as int % 16, y as int % 16),
        ensures
            r == self.spec_sample(x as int % 16, y as int % 16),
    {
        self.sample(wrap16(x), wrap16(y))
    }

    /// Sets the cell at column `x`, row `y` (in cells, not pixels); with
    /// `mirror_x` a column of the right half sets its mirror in the left half.
    pub fn set(&mut self, x: i32, y: i32, value: bool)
        requires
            0 <= y < 16,
            0 <= old(self).mirror_col(x as int) < 16,
        ensures
            final(self).rows@ == old(self).rows@.update(
                y as int,
                with_bit(old(self).rows[y as int], old(self).mirror_col(x as int), value),
            ),
            final(self).scale == old(self).scale,
            final(self).mirror_x == old(self).mirror_x,
        decreases x,
    {
        if self.mirror_x && x >= 8 {
            self.set(15 - x, y, value);
            return;
        }
        if value {
            self.rows[y as usize] = self.rows[y as usize] | (1 << (x as u16));
        } else {
            self.rows[y as usize] = self.rows[y as usize] & !(1 << (x as u16));
        }
    }

    /// Sets a cell; cells outside `0..16` are ignored.
    pub fn set_safe(&mut self, x: i32, y: i32, value: bool)
        ensures
            (0 <= x < 16 && 0 <= y < 16) ==> final(self).rows@ == old(self).rows@.update(
                y as int,
                with_bit(old(self).rows[y as int], old(self).mirror_col(x as int), value),
            ),
            !(0 <= x < 16 && 0 <= y < 16) ==> final(self).rows == old(self).rows,
            final(self).scale == old(self).scale,
            final(self).mirror_x == old(self).mirror_x,
    {
        if x < 0 || x >= 16 || y < 0 || y >= 16 {
            return;
        }
        self.set(x, y, value);
    }

    /// Sets the cells of the line from `(x1, y1)` to `(x2, y2)`, in cells;
    /// points outside the pattern are skipped.
    pub fn set_line(&mut self, x1: i32, y1: i32, x2: i32, y2: i32, value: bool)
        requires
            line_fits(x1 as int, y1 as int, x2 as int, y2 as int),
        ensures
            final(self).rows@ == draw_points(
                old(self).rows@,
                old(self).mirror_x,
                line_points(x1 as int, y1 as int, x2 as int, y2 as int),
                value,
            ),
            final(self).scale == old(self).scale,
            final(self).mirror_x == old(self).mirror_x,
    {
        let ghost p = line_params(x1 as int, y1 as int, x2 as int, y2 as int);
        let ghost goal = draw_points(
            old(self).rows@,
            old(self).mirror_x,
            line_points(x1 as int, y1 as int, x2 as int, y2 as int),
            value,
        );
        let mut x = x1;
        let mut y = y1;
        let dx = abs_i32(x2 - x);
        let dy = abs_i32(y2 - y);
        let sx: i32 = if x < x2 {
            1
        } else {
            -1
        };
        let sy: i32 = if y < y2 {
            1
        } else {
            -1
        };
        let mut err: i64 = dx as i64 - dy as i64;
        proof {
            lemma_line_start(x1 as int, y1 as int, x2 as int, y2 as int);
        }
        loop
            invariant_except_break
                draw_points(
                    self.rows@,
                    self.mirror_x,
                    line_walk(
                        p,
                        LineState { x: x as int, y: y as int, err: err as int },
                        line_dist(p, LineState { x: x as int, y: y as int, err: err as int }) as nat,
                    ),
                    value,
                ) == goal,
            invariant
                p == line_params(x1 as int, y1 as int, x2 as int, y2 as int),
                line_fits(x1 as int, y1 as int, x2 as int, y2 as int),
                dx == p.dx,
                dy == p.dy,
                sx == p.sx,
                sy == p.sy,
                line_inv(p, LineState { x: x as int, y: y as int, err: err as int }),
                self.scale == old(self).scale,
                self.mirror_x == old(self).mirror_x,
                goal == draw_points(
                    old(self).rows@,
                    old(self).mirror_x,
                    line_points(x1 as int, y1 as int, x2 as int, y2 as int),
                    value,
                ),
            ensures
                self.rows@ == goal,
                self.scale == old(self).scale,
                self.mirror_x == old(self).mirror_x,
            decreases line_dist(p, LineState { x: x as int, y: y as int, err: err as int }),
        {
            let ghost s = LineState { x: x as int, y: y as int, err: err as int };
            let ghost f = line_dist(p, s) as nat;
            let ghost walk = line_walk(p, s, f);
            let ghost before = self.rows@;
            self.set_safe(x, y, value);
            assert(self.rows@ == set_safe_rows(before, self.mirror_x, x as int, y as int, value));
            if x == x2 && y == y2 {
                assert(walk =~= seq![(x as int, y as int)]);
                assert(walk.drop_first() =~= Seq::<(int, int)>::empty());
                assert(draw_points(before, self.mirror_x, walk, value) == draw_points(
                    self.rows@,
                    self.mirror_x,
                    walk.drop_first(),
                    value,
                ));
                assert(draw_points(self.rows@, self.mirror_x, walk.drop_first(), value) == self.rows@);
                break;
            }
            proof {
                lemma_line_step(p, s);
            }
            let err2: i64 = err * 2;
            if err2 > -(dy as i64) {
                err -= dy as i64;
                x += sx;
            }
            if err2 < dx as i64 {
                err += dx as i64;
                y += sy;
            }
            proof {
                let t = LineState { x: x as int, y: y as int, err: err as int };
                assert(t == line_next(p, s));
                lemma_line_walk_fuel(p, t, (f - 1) as nat, line_dist(p, t) as nat);
                assert(walk.drop_first() =~= line_walk(p, t, line_dist(p, t) as nat));
            }
        }
    }

    /// Sets every cell.
    pub fn fill(&mut self)
        ensures
            forall|i: int| 0 <= i < 16 ==> final(self).rows[i] == 0xFFFFu16,
            final(self).scale == old(self).scale,
            final(self).mirror_x == old(self).mirror_x,
    {
        let mut i: usize = 0;
        while i < 16
            invariant
                i <= 16,
                forall|j: int| 0 <= j < i ==> self.rows[j] == 0xFFFFu16,
                self.scale == old(self).scale,
                self.mirror_x == old(self).mirror_x,
            decreases 16 - i,
        {
            self.rows[i] = 0xFFFF;
            i += 1;
        }
    }

    /// Clears every cell.
    pub fn clear(&mut self)
        ensures
            forall|i: int| 0 <= i < 16 ==> final(self).rows[i] == 0u16,
            final(self).scale == old(self).scale,
            final(self).mirror_x == old(self).mirror_x,
    {
        let mut i: usize = 0;
        while i < 16
            invariant
                i <= 16,
                forall|j: int| 0 <= j < i ==> self.rows[j] == 0u16,
                self.scale == old(self).scale,
                self.mirror_x == old(self).mirror_x,
            decreases 16 - i,
        {
            self.rows[i] = 0;
            i += 1;
        }
    }

    /// The bits that `invert` flips: the left half only when mirrored.
    pub open spec fn invert_mask(&self) -> u16 {
        if self.mirror_x {
            0x00FFu16
        } else {
            0xFFFFu16
        }
    }

    /// Flips every cell (of the left half, when mirrored).
    pub fn invert(&mut self)
        ensures
            forall|i: int| 0 <= i < 16 ==> final(self).rows[i] == old(self).rows[i] ^ old(self).invert_mask(),
            final(self).scale == old(self).scale,
            final(self).mirror_x == old(self).mirror_x,
    {
        let mask: u16 = if self.mirror_x {
            0x00FF
        } else {
            0xFFFF
        };
        let mut i: usize = 0;
        while i < 16
            invariant
                i <= 16,
                mask == old(self).invert_mask(),
                forall|j: int| 0 <= j < i ==> self.rows[j] == old(self).rows[j] ^ mask,
                forall|j: int| i <= j < 16 ==> self.rows[j] == old(self).rows[j],
                self.scale == old(self).scale,
                self.mirror_x == old(self).mirror_x,
            decreases 16 - i,
        {
            self.rows[i] = self.rows[i] ^ mask;
            i += 1;
        }
    }

    /// Sets every row to random bits.
    pub fn randomize(&mut self)
        ensures
            final(self).scale == old(self).scale,
            final(self).mirror_x == old(self).mirror_x,
    {
        let mut i: usize = 0;
        while i < 16
            invariant
                i <= 16,
                self.scale == old(self).scale,
                self.mirror_x == old(self).mirror_x,
            decreases 16 - i,
        {
            self.rows[i] = crate::rng::random_u16();
            i += 1;
        }
    }
}

} // verus!

verus! {

proof fn lemma_with_bit(row: u16, i: u16, j: u16, value: bool)
    requires
        i < 16,
        j < 16,
    ensures
        row_bit(with_bit(row, i as int, value), i as int) == value,
        i != j ==> row_bit(with_bit(row, i as int, value), j as int) == row_bit(row, j as int),
{
    if value {
        assert((row | (1u16 << i)) & (1u16 << i) != 0) by (bit_vector)
            requires
                i < 16,
        ;
        assert(i != j ==> (((row | (1u16 << i)) & (1u16 << j) != 0) == (row & (1u16 << j) != 0)))
            by (bit_vector)
            requires
                i < 16,
                j < 16,
        ;
    } else {
        assert((row & !(1u16 << i)) & (1u16 << i) == 0) by (bit_vector)
            requires
                i < 16,
        ;
        assert(i != j ==> (((row & !(1u16 << i)) & (1u16 << j) != 0) == (row & (1u16 << j) != 0)))
            by (bit_vector)
            requires
                i < 16,
                j < 16,
        ;
    }
}

/// Setting a cell changes that cell (the one its column mirrors to) and no
/// other; every pixel of the cell's block then samples as the value set.
pub proof fn lemma_set_then_sample(p: Pattern, q: Pattern, x: int, y: int, value: bool)
    requires
        0 <= y < 16,
        0 <= p.mirror_col(x) < 16,
        q.rows@ == p.rows@.update(y, with_bit(p.rows[y], p.mirror_col(x), value)),
        q.scale == p.scale,
        q.mirror_x == p.mirror_x,
    ensures
        q.cell(p.mirror_col(x), y) == value,
        forall|cx: int, cy: int|
            0 <= cx < 16 && 0 <= cy < 16 && (cx != p.mirror_col(x) || cy != y) ==> #[trigger] q.cell(
                cx,
                cy,
            ) == p.cell(cx, cy),
        forall|px: int, py: int|
            #![trigger q.spec_sample(px, py)]
            q.can_sample(px, py) && tdiv(py, q.scale as int) == y && q.mirror_col(
                tdiv(px, q.scale as int),
            ) == p.mirror_col(x) ==> q.spec_sample(px, py) == value,
{
    let c = p.mirror_col(x);
    lemma_with_bit(p.rows[y], c as u16, c as u16, value);
    assert forall|cx: int, cy: int|
        0 <= cx < 16 && 0 <= cy < 16 && (cx != c || cy != y) implies #[trigger] q.cell(cx, cy)
        == p.cell(cx, cy) by {
        if cy == y {
            lemma_with_bit(p.rows[y], c as u16, cx as u16, value);
        }
    }
}

/// Inverting twice restores the pattern.
pub proof fn lemma_invert_twice(p: Pattern, q: Pattern, r: Pattern)
    requires
        q.mirror_x == p.mirror_x,
        forall|i: int| 0 <= i < 16 ==> q.rows[i] == p.rows[i] ^ p.invert_mask(),
        forall|i: int| 0 <= i < 16 ==> r.rows[i] == q.rows[i] ^ q.invert_mask(),
    ensures
        r.rows@ == p.rows@,
{
    assert forall|i: int| 0 <= i < 16 implies r.rows[i] == p.rows[i] by {
        let a = p.rows[i];
        let m = p.invert_mask();
        assert((a ^ m) ^ m == a) by (bit_vector);
    }
    assert(r.rows@ =~= p.rows@);
}

/// Inverting flips every cell of the left half, and with `mirror_x` off every
/// cell of the right half too; the stored right half of a mirrored pattern,
/// which is never read, stays.
pub proof fn lemma_invert_flips(p: Pattern, q: Pattern)
    requires
        q.mirror_x == p.mirror_x,
        forall|i: int| 0 <= i < 16 ==> q.rows[i] == p.rows[i] ^ p.invert_mask(),
    ensures
        forall|cx: int, cy: int|
            0 <= cx < 16 && 0 <= cy < 16 ==> #[trigger] q.cell(cx, cy) == if cx < 8
                || !p.mirror_x {
                !p.cell(cx, cy)
            } else {
                p.cell(cx, cy)
            },
{
    assert forall|cx: int, cy: int| 0 <= cx < 16 && 0 <= cy < 16 implies #[trigger] q.cell(cx, cy)
        == if cx < 8 || !p.mirror_x {
        !p.cell(cx, cy)
    } else {
        p.cell(cx, cy)
    } by {
        let a = p.rows[cy];
        let i = cx as u16;
        if p.mirror_x {
            assert(i < 8 ==> (((a ^ 0x00FFu16) & (1u16 << i) != 0) == !(a & (1u16 << i) != 0)))
                by (bit_vector);
            assert(8 <= i < 16 ==> (((a ^ 0x00FFu16) & (1u16 << i) != 0) == (a & (1u16 << i)
                != 0))) by (bit_vector);
        } else {
            assert(i < 16 ==> (((a ^ 0xFFFFu16) & (1u16 << i) != 0) == !(a & (1u16 << i) != 0)))
                by (bit_vector);
        }
    }
}

/// A mirrored pattern at scale 1 is symmetric about its vertical center line.
pub proof fn lemma_mirror_symmetric(p: Pattern, x: int, y: int)
    requires
        p.mirror_x,
        p.scale == 1,
        0 <= x < 16,
        0 <= y < 16,
    ensures
        p.can_sample(x, y),
        p.can_sample(15 - x, y),
        p.spec_sample(x, y) == p.spec_sample(15 - x, y),
{
}

/// After `fill` every pixel that can be sampled is covered; after `clear` none is.
pub proof fn lemma_fill_clear(p: Pattern, x: int, y: int)
    requires
        p.can_sample(x, y),
    ensures
        (forall|i: int| 0 <= i < 16 ==> p.rows[i] == 0xFFFFu16) ==> p.spec_sample(x, y),
        (forall|i: int| 0 <= i < 16 ==> p.rows[i] == 0u16) ==> !p.spec_sample(x, y),
{
    let c = p.mirror_col(tdiv(x, p.scale as int)) as u16;
    assert(c < 16 ==> 0xFFFFu16 & (1u16 << c) != 0) by (bit_vector);
    assert(0u16 & (1u16 << c) == 0) by (bit_vector);
}

} // verus!
