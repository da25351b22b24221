use vstd::arithmetic::power::{lemma_pow0, lemma_pow1, lemma_pow_adds, lemma_pow_increases, lemma_pow_positive, pow};
use vstd::prelude::*;

use crate::color::Color;
use crate::grid::Board;

verus! {

/// The viewport as plain values. The on-screen edge of one grid cell is
/// `base * 0.9^outs * 1.1^ins`: zoom steps are kept as counts, so the scale
/// is known exactly as the fraction `scale_num / scale_den`.
pub struct ViewportView {
    pub width: nat,
    pub height: nat,
    pub base: nat,
    pub outs: nat,
    pub ins: nat,
}

/// Numerator of the scale: `base * 9^outs * 11^ins`.
pub open spec fn scale_num(v: ViewportView) -> int {
    v.base * pow(9, v.outs) * pow(11, v.ins)
}

/// Denominator of the scale: `10^(outs + ins)`.
pub open spec fn scale_den(v: ViewportView) -> int {
    pow(10, v.outs + v.ins)
}

/// The viewport after one wheel event: a positive delta zooms out (scale
/// times 0.9), a negative one zooms in (scale times 1.1), zero leaves it.
pub open spec fn after_wheel(v: ViewportView, delta_y: int) -> ViewportView {
    if delta_y > 0 {
        ViewportView { outs: v.outs + 1, ..v }
    } else if delta_y < 0 {
        ViewportView { ins: v.ins + 1, ..v }
    } else {
        v
    }
}

/// Zooming out by one wheel step and back in by one does not restore the
/// scale: it leaves it at 0.99 of what it was.
pub proof fn lemma_zoom_out_then_in(v: ViewportView)
    requires
        v.base > 0,
    ensures
        ({
            let w = after_wheel(after_wheel(v, 10), -10);
            &&& 100 * scale_num(w) * scale_den(v) == 99 * scale_num(v) * scale_den(w)
            &&& scale_num(w) * scale_den(v) != scale_num(v) * scale_den(w)
        }),
{
    let w = after_wheel(after_wheel(v, 10), -10);
    let a = pow(9, v.outs);
    let b = pow(11, v.ins);
    let d = pow(10, v.outs + v.ins);
    assert(w.outs == v.outs + 1 && w.ins == v.ins + 1 && w.base == v.base);
    lemma_pow1(9);
    lemma_pow1(11);
    lemma_pow1(10);
    lemma_pow_adds(9, v.outs, 1);
    lemma_pow_adds(11, v.ins, 1);
    lemma_pow_adds(10, (v.outs + v.ins + 1) as nat, 1);
    lemma_pow_adds(10, v.outs + v.ins, 1);
    assert(pow(9, (v.outs + 1) as nat) == 9 * a);
    assert(pow(11, (v.ins + 1) as nat) == 11 * b);
    assert(pow(10, (v.outs + v.ins + 1) as nat) == 10 * d);
    assert(scale_den(w) == 100 * d);
    lemma_pow_positive(9, v.outs);
    lemma_pow_positive(11, v.ins);
    lemma_pow_positive(10, v.outs + v.ins);
    let base = v.base as int;
    assert(scale_num(w) == 99 * (base * a * b)) by (nonlinear_arith)
        requires
            scale_num(w) == base * (9 * a) * (11 * b),
    ;
    assert(scale_num(w) * d != (base * a * b) * (100 * d)) by (nonlinear_arith)
        requires
            scale_num(w) == 99 * (base * a * b),
            base > 0,
            a > 0,
            b > 0,
            d > 0,
    ;
    assert(100 * scale_num(w) * d == 99 * (base * a * b) * (100 * d)) by (nonlinear_arith)
        requires
            scale_num(w) == 99 * (base * a * b),
    ;
}

/// One step of a redraw: clear the visible area, or fill the square of the
/// grid cell `(x, y)`, whose screen corner is `(x * scale, y * scale)`.
#[derive(Debug, Clone, Copy, PartialEq, Eq, Structural)]
pub enum PaintOp {
    Clear { width: u32, height: u32 },
    Fill { x: i32, y: i32, color: Color },
}

/// Where the fill of cell `(x, y)` stands in a redraw of a `size`-wide grid:
/// after the clear, row by row.
pub open spec fn cell_slot(size: int, x: int, y: int) -> int {
    1 + y * size + x
}

/// `plan` clears the `v.width` by `v.height` surface, then paints every cell
/// of `b` exactly once, row by row, in the cell's current color.
pub open spec fn is_redraw(plan: Seq<PaintOp>, v: ViewportView, b: Board) -> bool {
    let n = b.size_spec();
    &&& plan.len() == 1 + n * n
    &&& plan[0] matches PaintOp::Clear { width, height } && width as nat == v.width && height as nat
        == v.height
    &&& forall|x: int, y: int|
        b.in_bounds(x, y) ==> plan[#[trigger] cell_slot(n, x, y)] == (PaintOp::Fill {
            x: x as i32,
            y: y as i32,
            color: b.pixel(x, y).color,
        })
}

/// The zoom state of the canvas that shows a board.
pub struct Viewport {
    width: u32,
    height: u32,
    base_scale: u64,
    zoom_outs: u64,
    zoom_ins: u64,
}

impl View for Viewport {
    type V = ViewportView;

    closed spec fn view(&self) -> ViewportView {
        ViewportView {
            width: self.width as nat,
            height: self.height as nat,
            base: self.base_scale as nat,
            outs: self.zoom_outs as nat,
            ins: self.zoom_ins as nat,
        }
    }
}

impl Viewport {
    /// The scale is strictly positive.
    pub open spec fn wf(&self) -> bool {
        self@.base > 0
    }

    /// A viewport over a `width` by `height` surface at `initial_scale`
    /// display units per cell, with the first full redraw of `board`.
    pub fn initialize(width: u32, height: u32, initial_scale: u64, board: &Board) -> (r: (
        Viewport,
        Vec<PaintOp>,
    ))
        requires
            initial_scale > 0,
            board.wf(),
        ensures
            r.0.wf(),
            r.0@ == (ViewportView { width: width as nat, height: height as nat, base: initial_scale as nat, outs: 0, ins: 0 }),
            is_redraw(r.1@, r.0@, *board),
    {
        let v = Viewport { width, height, base_scale: initial_scale, zoom_outs: 0, zoom_ins: 0 };
        let plan = v.redraw(board);
        (v, plan)
    }

    /// Clears the surface and paints every cell of `board` at the current
    /// scale.
    pub fn redraw(&self, board: &Board) -> (plan: Vec<PaintOp>)
        requires
            board.wf(),
        ensures
            is_redraw(plan@, self@, *board),
    {
        let n = board.get_size();
        let mut plan: Vec<PaintOp> = Vec::new();
        plan.push(PaintOp::Clear { width: self.width, height: self.height });
        let mut y: i32 = 0;
        while y < n
            invariant
                board.wf(),
                n == board.size_spec(),
                0 <= y <= n,
                plan@.len() == 1 + y * n,
                plan@[0] == (PaintOp::Clear { width: self.width, height: self.height }),
                forall|i: int, j: int|
                    0 <= i < n && 0 <= j < y ==> plan@[#[trigger] cell_slot(n as int, i, j)] == (PaintOp::Fill {
                        x: i as i32,
                        y: j as i32,
                        color: board.pixel(i, j).color,
                    }),
            decreases n - y,
        {
            let mut x: i32 = 0;
            while x < n
                invariant
                    board.wf(),
                    n == board.size_spec(),
                    0 <= y < n,
                    0 <= x <= n,
                    plan@.len() == 1 + y * n + x,
                    plan@[0] == (PaintOp::Clear { width: self.width, height: self.height }),
                    forall|i: int, j: int|
                        0 <= i < n && 0 <= j < y ==> plan@[#[trigger] cell_slot(n as int, i, j)] == (PaintOp::Fill {
                            x: i as i32,
                            y: j as i32,
                            color: board.pixel(i, j).color,
                        }),
                    forall|i: int|
                        0 <= i < x ==> plan@[#[trigger] cell_slot(n as int, i, y as int)] == (PaintOp::Fill {
                            x: i as i32,
                            y: y,
                            color: board.pixel(i, y as int).color,
                        }),
                decreases n - x,
            {
                if let Ok(p) = board.get_pixel(x, y) {
                    proof {
                        assert forall|i: int, j: int| 0 <= i < n && 0 <= j < y implies cell_slot(n as int, i, j)
                            < plan@.len() by {
                            lemma_earlier_row(n as int, i, j, y as int);
                        }
                    }
                    plan.push(PaintOp::Fill { x, y, color: p.color() });
                }
                x = x + 1;
            }
            assert(plan@.len() == 1 + (y + 1) * n) by (nonlinear_arith)
                requires
                    plan@.len() == 1 + y * n + n,
            ;
            y = y + 1;
        }
        plan
    }

    /// The scale as the exact fraction `(scale_num, scale_den)`, or `None`
    /// where either part exceeds `u64::MAX`.
    pub fn scale_ratio(&self) -> (r: Option<(u64, u64)>)
        requires
            self.wf(),
        ensures
            r matches Some((n, d)) ==> n == scale_num(self@) && d == scale_den(self@),
            r is None <==> scale_num(self@) > u64::MAX || scale_den(self@) > u64::MAX,
    {
        let ghost v = self@;
        proof {
            lemma_pow_positive(9, v.outs);
            lemma_pow_positive(11, v.ins);
            lemma_pow_positive(10, v.outs);
            lemma_pow_positive(10, v.ins);
            lemma_pow_adds(10, v.outs, v.ins);
            let (a, b, c, d) = (pow(9, v.outs), pow(11, v.ins), pow(10, v.outs), pow(10, v.ins));
            let base = v.base as int;
            assert(base * a >= 1 && base * a * b >= base * a && c * d >= c && c * d >= d) by (nonlinear_arith)
                requires
                    base >= 1,
                    a >= 1,
                    b >= 1,
                    c >= 1,
                    d >= 1,
            ;
        }
        let nine = checked_scaled_pow(self.base_scale, 9, self.zoom_outs);
        let num = match nine {
            Some(m) => checked_scaled_pow(m, 11, self.zoom_ins),
            None => None,
        };
        let ten = checked_scaled_pow(1, 10, self.zoom_outs);
        let den = match ten {
            Some(m) => checked_scaled_pow(m, 10, self.zoom_ins),
            None => None,
        };
        match (num, den) {
            (Some(n), Some(d)) => Some((n, d)),
            _ => None,
        }
    }

    pub fn width(&self) -> (r: u32)
        ensures
            r as nat == self@.width,
    {
        self.width
    }

    pub fn height(&self) -> (r: u32)
        ensures
            r as nat == self@.height,
    {
        self.height
    }

    /// The scale the viewport started from.
    pub fn base_scale(&self) -> (r: u64)
        ensures
            r as nat == self@.base,
    {
        self.base_scale
    }

    /// How many zoom-out steps were applied.
    pub fn zoom_outs(&self) -> (r: u64)
        ensures
            r as nat == self@.outs,
    {
        self.zoom_outs
    }

    /// How many zoom-in steps were applied.
    pub fn zoom_ins(&self) -> (r: u64)
        ensures
            r as nat == self@.ins,
    {
        self.zoom_ins
    }

    /// Applies one wheel event and redraws: a positive `delta_y` zooms out by
    /// a factor of 0.9, a negative one zooms in by 1.1, zero keeps the scale.
    pub fn on_wheel(&mut self, delta_y: i64, board: &Board) -> (plan: Vec<PaintOp>)
        requires
            old(self).wf(),
            board.wf(),
            delta_y > 0 ==> old(self)@.outs < u64::MAX,
            delta_y < 0 ==> old(self)@.ins < u64::MAX,
        ensures
            final(self).wf(),
            final(self)@ == after_wheel(old(self)@, delta_y as int),
            is_redraw(plan@, final(self)@, *board),
    {
        if delta_y > 0 {
            self.zoom_outs = self.zoom_outs + 1;
        } else if delta_y < 0 {
            self.zoom_ins = self.zoom_ins + 1;
        }
        self.redraw(board)
    }
}

/// `start * b^e`, or `None` where that exceeds `u64::MAX`.
fn checked_scaled_pow(start: u64, b: u64, e: u64) -> (r: Option<u64>)
    requires
        start >= 1,
        b >= 2,
    ensures
        r matches Some(v) ==> v == start * pow(b as int, e as nat),
        r is None <==> start * pow(b as int, e as nat) > u64::MAX,
{
    let mut acc: u64 = start;
    let mut i: u64 = 0;
    proof {
        lemma_pow0(b as int);
    }
    while i < e
        invariant
            start >= 1,
            b >= 2,
            0 <= i <= e,
            acc == start * pow(b as int, i as nat),
        decreases e - i,
    {
        proof {
            lemma_pow1(b as int);
            lemma_pow_adds(b as int, i as nat, 1);
            assert(start * pow(b as int, (i + 1) as nat) == acc * b) by (nonlinear_arith)
                requires
                    acc == start * pow(b as int, i as nat),
                    pow(b as int, (i + 1) as nat) == pow(b as int, i as nat) * b,
            ;
        }
        match acc.checked_mul(b) {
            Some(v) => {
                acc = v;
            },
            None => {
                proof {
                    lemma_pow_increases(b as nat, (i + 1) as nat, e as nat);
                    assert(start * pow(b as int, e as nat) >= start * pow(b as int, (i + 1) as nat))
                        by (nonlinear_arith)
                        requires
                            start >= 1,
                            pow(b as int, e as nat) >= pow(b as int, (i + 1) as nat),
                    ;
                }
                return None;
            },
        }
        i = i + 1;
    }
    Some(acc)
}

proof fn lemma_earlier_row(n: int, i: int, j: int, y: int)
    requires
        0 <= i < n,
        0 <= j < y,
    ensures
        cell_slot(n, i, j) < 1 + y * n,
{
    assert(j * n + i < y * n) by (nonlinear_arith)
        requires
            0 <= i < n,
            0 <= j < y,
    ;
}

} // verus!
