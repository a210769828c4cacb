use vstd::prelude::*;

verus! {

/// Signed 2D cross product of the vectors `(ax, ay)` and `(bx, by)`.
pub open spec fn cross_spec(ax: int, ay: int, bx: int, by: int) -> int {
    ax * by - ay * bx
}

/// Signed dot product of the vectors `(ax, ay)` and `(bx, by)`.
pub open spec fn dot_spec(ax: int, ay: int, bx: int, by: int) -> int {
    ax * bx + ay * by
}

/// The kinds of local defect that contour repair removes.
#[derive(Clone, Copy, Debug, PartialEq, Eq, Structural)]
pub enum Defect {
    /// The middle point does not change the direction of the path:
    /// it lies on the line through its neighbours.
    Collinear,
    /// The path reverses onto itself at the middle point (a zero-width spike).
    Spike,
}

impl Defect {
    /// Whether the middle point `b`, with neighbours `a` and `c`, has this defect.
    pub open spec fn holds(self, a: (int, int), b: (int, int), c: (int, int)) -> bool {
        let ux = b.0 - a.0;
        let uy = b.1 - a.1;
        let vx = c.0 - b.0;
        let vy = c.1 - b.1;
        match self {
            Defect::Collinear => cross_spec(ux, uy, vx, vy) == 0,
            Defect::Spike => cross_spec(ux, uy, vx, vy) == 0 && dot_spec(ux, uy, vx, vy) < 0,
        }
    }
}

/// A defect leaves the doubled area of the triangle it spans at zero.
pub proof fn lemma_defect_flat(kind: Defect, a: (int, int), b: (int, int), c: (int, int))
    requires
        kind.holds(a, b, c),
    ensures
        (b.0 * a.1 - b.1 * a.0) + (c.0 * b.1 - c.1 * b.0) - (c.0 * a.1 - c.1 * a.0) == 0,
{
    let ux = b.0 - a.0;
    let uy = b.1 - a.1;
    let vx = c.0 - b.0;
    let vy = c.1 - b.1;
    assert(cross_spec(ux, uy, vx, vy) == 0);
    assert((b.0 * a.1 - b.1 * a.0) + (c.0 * b.1 - c.1 * b.0) - (c.0 * a.1 - c.1 * a.0)
        == -cross_spec(ux, uy, vx, vy)) by (nonlinear_arith)
        requires
            ux == b.0 - a.0,
            uy == b.1 - a.1,
            vx == c.0 - b.0,
            vy == c.1 - b.1,
    ;
}

/// A point type on which contours are built and repaired.
pub trait LatticePoint: Copy + Sized {
    /// The coordinates of the point as mathematical integers.
    spec fn coords(&self) -> (int, int);

    /// Whether the point lies in the range where the type's arithmetic is exact.
    spec fn in_range(&self) -> bool;

    /// Tests the middle point `p1`, with neighbours `p0` and `p2`, for a defect.
    fn has_defect(kind: Defect, p0: Self, p1: Self, p2: Self) -> (r: bool)
        requires
            p0.in_range(),
            p1.in_range(),
            p2.in_range(),
        ensures
            r == kind.holds(p0.coords(), p1.coords(), p2.coords()),
    ;

    /// The cross and dot products of the edge `p1 -> p2` with the edge `p0 -> p1`, exactly.
    fn turn(p0: Self, p1: Self, p2: Self) -> (r: (i128, i128))
        requires
            p0.in_range(),
            p1.in_range(),
            p2.in_range(),
        ensures
            r.0 == cross_spec(
                p2.coords().0 - p1.coords().0,
                p2.coords().1 - p1.coords().1,
                p1.coords().0 - p0.coords().0,
                p1.coords().1 - p0.coords().1,
            ),
            r.1 == dot_spec(
                p2.coords().0 - p1.coords().0,
                p2.coords().1 - p1.coords().1,
                p1.coords().0 - p0.coords().0,
                p1.coords().1 - p0.coords().1,
            ),
    ;

    /// The coordinates, widened.
    fn wide(p: Self) -> (r: (i128, i128))
        requires
            p.in_range(),
        ensures
            r.0 == p.coords().0,
            r.1 == p.coords().1,
            -0x8000_0000 <= r.0 <= 0x8000_0000,
            -0x8000_0000 <= r.1 <= 0x8000_0000,
    ;

    /// The shoelace term `p1.x * p0.y - p1.y * p0.x`, exactly.
    fn shoelace_term(p1: Self, p0: Self) -> (r: i128)
        requires
            p0.in_range(),
            p1.in_range(),
        ensures
            r == p1.coords().0 * p0.coords().1 - p1.coords().1 * p0.coords().0,
            -0x8000_0000_0000_0000 <= r <= 0x8000_0000_0000_0000,
    ;
}

/// Exact cross and dot products of two vectors whose coordinates are below `2^32` in magnitude.
fn exact_turn(ux: i128, uy: i128, vx: i128, vy: i128) -> (r: (i128, i128))
    requires
        -0x1_0000_0000 <= ux <= 0x1_0000_0000,
        -0x1_0000_0000 <= uy <= 0x1_0000_0000,
        -0x1_0000_0000 <= vx <= 0x1_0000_0000,
        -0x1_0000_0000 <= vy <= 0x1_0000_0000,
    ensures
        r.0 == cross_spec(ux as int, uy as int, vx as int, vy as int),
        r.1 == dot_spec(ux as int, uy as int, vx as int, vy as int),
{
    proof {
        assert(-0x1_0000_0000_0000_0000 <= ux * vy <= 0x1_0000_0000_0000_0000) by (nonlinear_arith)
            requires -0x1_0000_0000 <= ux <= 0x1_0000_0000, -0x1_0000_0000 <= vy <= 0x1_0000_0000;
        assert(-0x1_0000_0000_0000_0000 <= uy * vx <= 0x1_0000_0000_0000_0000) by (nonlinear_arith)
            requires -0x1_0000_0000 <= uy <= 0x1_0000_0000, -0x1_0000_0000 <= vx <= 0x1_0000_0000;
        assert(-0x1_0000_0000_0000_0000 <= ux * vx <= 0x1_0000_0000_0000_0000) by (nonlinear_arith)
            requires -0x1_0000_0000 <= ux <= 0x1_0000_0000, -0x1_0000_0000 <= vx <= 0x1_0000_0000;
        assert(-0x1_0000_0000_0000_0000 <= uy * vy <= 0x1_0000_0000_0000_0000) by (nonlinear_arith)
            requires -0x1_0000_0000 <= uy <= 0x1_0000_0000, -0x1_0000_0000 <= vy <= 0x1_0000_0000;
    }
    (ux * vy - uy * vx, ux * vx + uy * vy)
}

/// Exact `x1 * y0 - y1 * x0` for coordinates below `2^31` in magnitude.
fn exact_shoelace(x1: i128, y1: i128, x0: i128, y0: i128) -> (r: i128)
    requires
        -0x8000_0000 <= x1 <= 0x8000_0000,
        -0x8000_0000 <= y1 <= 0x8000_0000,
        -0x8000_0000 <= x0 <= 0x8000_0000,
        -0x8000_0000 <= y0 <= 0x8000_0000,
    ensures
        r == x1 * y0 - y1 * x0,
        -0x8000_0000_0000_0000 <= r <= 0x8000_0000_0000_0000,
{
    proof {
        assert(-0x4000_0000_0000_0000 <= x1 * y0 <= 0x4000_0000_0000_0000) by (nonlinear_arith)
            requires -0x8000_0000 <= x1 <= 0x8000_0000, -0x8000_0000 <= y0 <= 0x8000_0000;
        assert(-0x4000_0000_0000_0000 <= y1 * x0 <= 0x4000_0000_0000_0000) by (nonlinear_arith)
            requires -0x8000_0000 <= y1 <= 0x8000_0000, -0x8000_0000 <= x0 <= 0x8000_0000;
    }
    x1 * y0 - y1 * x0
}

/// A point of the plain integer lattice.
#[derive(Clone, Copy, Debug, PartialEq, Eq, Structural)]
pub struct IntPoint {
    pub x: i32,
    pub y: i32,
}

impl IntPoint {
    pub fn new(x: i32, y: i32) -> (r: IntPoint)
        ensures
            r.x == x,
            r.y == y,
    {
        IntPoint { x, y }
    }
}

/// Whether the middle point of three lattice points has the given defect.
/// The differences are taken in 64 and the products in 128 bits, so no
/// pair of `i32` coordinates can overflow.
fn int_defect(kind: Defect, ax: i64, ay: i64, bx: i64, by: i64, cx: i64, cy: i64) -> (r: bool)
    requires
        i32::MIN <= ax <= i32::MAX,
        i32::MIN <= ay <= i32::MAX,
        i32::MIN <= bx <= i32::MAX,
        i32::MIN <= by <= i32::MAX,
        i32::MIN <= cx <= i32::MAX,
        i32::MIN <= cy <= i32::MAX,
    ensures
        r == kind.holds((ax as int, ay as int), (bx as int, by as int), (cx as int, cy as int)),
{
    let ux = (bx - ax) as i128;
    let uy = (by - ay) as i128;
    let vx = (cx - bx) as i128;
    let vy = (cy - by) as i128;
    assert(-0x1_0000_0000 <= ux <= 0x1_0000_0000 && -0x1_0000_0000 <= vy <= 0x1_0000_0000);
    assert(-0x1_0000_0000 <= uy <= 0x1_0000_0000 && -0x1_0000_0000 <= vx <= 0x1_0000_0000);
    proof {
        assert(-0x1_0000_0000_0000_0000 <= ux * vy <= 0x1_0000_0000_0000_0000) by (nonlinear_arith)
            requires -0x1_0000_0000 <= ux <= 0x1_0000_0000, -0x1_0000_0000 <= vy <= 0x1_0000_0000;
        assert(-0x1_0000_0000_0000_0000 <= uy * vx <= 0x1_0000_0000_0000_0000) by (nonlinear_arith)
            requires -0x1_0000_0000 <= uy <= 0x1_0000_0000, -0x1_0000_0000 <= vx <= 0x1_0000_0000;
        assert(-0x1_0000_0000_0000_0000 <= ux * vx <= 0x1_0000_0000_0000_0000) by (nonlinear_arith)
            requires -0x1_0000_0000 <= ux <= 0x1_0000_0000, -0x1_0000_0000 <= vx <= 0x1_0000_0000;
        assert(-0x1_0000_0000_0000_0000 <= uy * vy <= 0x1_0000_0000_0000_0000) by (nonlinear_arith)
            requires -0x1_0000_0000 <= uy <= 0x1_0000_0000, -0x1_0000_0000 <= vy <= 0x1_0000_0000;
    }
    let cross = ux * vy - uy * vx;
    match kind {
        Defect::Collinear => cross == 0,
        Defect::Spike => cross == 0 && ux * vx + uy * vy < 0,
    }
}

/// Magnitude of an integer.
pub open spec fn abs(a: int) -> int {
    if a < 0 {
        -a
    } else {
        a
    }
}

/// Integer division rounded toward zero, as Rust's `/` does.
pub open spec fn div_trunc(a: int, b: int) -> int {
    if b < 0 {
        if a <= 0 {
            (-a) / (-b)
        } else {
            -(a / (-b))
        }
    } else if a >= 0 {
        a / b
    } else {
        -((-a) / b)
    }
}

/// `a / b` rounded toward zero.
pub fn div_toward_zero(a: i128, b: i128) -> (r: i128)
    requires
        b != 0,
        i128::MIN < a,
        i128::MIN < b,
    ensures
        r == div_trunc(a as int, b as int),
{
    if b < 0 {
        (-a) / (-b)
    } else {
        a / b
    }
}

impl LatticePoint for IntPoint {
    open spec fn coords(&self) -> (int, int) {
        (self.x as int, self.y as int)
    }

    open spec fn in_range(&self) -> bool {
        true
    }

    fn has_defect(kind: Defect, p0: Self, p1: Self, p2: Self) -> (r: bool) {
        int_defect(kind, p0.x as i64, p0.y as i64, p1.x as i64, p1.y as i64, p2.x as i64, p2.y as i64)
    }

    fn turn(p0: Self, p1: Self, p2: Self) -> (r: (i128, i128)) {
        exact_turn(
            (p2.x as i128) - (p1.x as i128),
            (p2.y as i128) - (p1.y as i128),
            (p1.x as i128) - (p0.x as i128),
            (p1.y as i128) - (p0.y as i128),
        )
    }

    fn shoelace_term(p1: Self, p0: Self) -> (r: i128) {
        exact_shoelace(p1.x as i128, p1.y as i128, p0.x as i128, p0.y as i128)
    }

    fn wide(p: Self) -> (r: (i128, i128)) {
        (p.x as i128, p.y as i128)
    }
}

/// A point of the fixed-point lattice (64-bit coordinates).
#[derive(Clone, Copy, Debug, PartialEq, Eq, Structural)]
pub struct FixVec {
    pub x: i64,
    pub y: i64,
}

/// A fixed-point point tagged with an index.
#[derive(Clone, Copy, Debug, PartialEq, Eq, Structural)]
pub struct IndexPoint {
    pub index: usize,
    pub point: FixVec,
}

impl IndexPoint {
    pub fn new(index: usize, point: FixVec) -> (r: IndexPoint)
        ensures
            r.index == index,
            r.point == point,
    {
        IndexPoint { index, point }
    }
}

/// Coordinates are kept below this magnitude wherever products of coordinate
/// differences are formed.
pub open spec fn fix_bound() -> int {
    0x4000_0000
}

impl FixVec {
    pub fn new(x: i64, y: i64) -> (r: FixVec)
        ensures
            r.x == x,
            r.y == y,
    {
        FixVec { x, y }
    }

    /// The fixed-point value of the whole numbers `x` and `y`.
    pub fn new_number(x: i64, y: i64) -> (r: FixVec)
        requires
            -0x20_0000_0000_0000 <= x < 0x20_0000_0000_0000,
            -0x20_0000_0000_0000 <= y < 0x20_0000_0000_0000,
        ensures
            r.x == x * 1024,
            r.y == y * 1024,
    {
        FixVec { x: x * 1024, y: y * 1024 }
    }

    pub fn zero() -> (r: FixVec)
        ensures
            r.x == 0,
            r.y == 0,
    {
        FixVec { x: 0, y: 0 }
    }

    /// Both coordinates lie strictly between `-2^30` and `2^30`.
    pub open spec fn fits(self) -> bool {
        -fix_bound() < self.x < fix_bound() && -fix_bound() < self.y < fix_bound()
    }
}

/// Cross product of the differences `(ux, uy)` and `(vx, vy)` of bounded points.
pub fn small_cross(ux: i64, uy: i64, vx: i64, vy: i64) -> (r: i64)
    requires
        -0x8000_0000 < ux < 0x8000_0000,
        -0x8000_0000 < uy < 0x8000_0000,
        -0x8000_0000 < vx < 0x8000_0000,
        -0x8000_0000 < vy < 0x8000_0000,
    ensures
        r == cross_spec(ux as int, uy as int, vx as int, vy as int),
        -0x8000_0000_0000_0000 < r,
{
    proof {
        assert(-0x4000_0000_0000_0000 < ux * vy < 0x4000_0000_0000_0000) by (nonlinear_arith)
            requires -0x8000_0000 < ux < 0x8000_0000, -0x8000_0000 < vy < 0x8000_0000;
        assert(-0x4000_0000_0000_0000 < uy * vx < 0x4000_0000_0000_0000) by (nonlinear_arith)
            requires -0x8000_0000 < uy < 0x8000_0000, -0x8000_0000 < vx < 0x8000_0000;
    }
    ux * vy - uy * vx
}

/// Dot product of the differences `(ux, uy)` and `(vx, vy)` of bounded points.
pub fn small_dot(ux: i64, uy: i64, vx: i64, vy: i64) -> (r: i64)
    requires
        -0x8000_0000 < ux < 0x8000_0000,
        -0x8000_0000 < uy < 0x8000_0000,
        -0x8000_0000 < vx < 0x8000_0000,
        -0x8000_0000 < vy < 0x8000_0000,
    ensures
        r == dot_spec(ux as int, uy as int, vx as int, vy as int),
{
    proof {
        assert(-0x4000_0000_0000_0000 < ux * vx < 0x4000_0000_0000_0000) by (nonlinear_arith)
            requires -0x8000_0000 < ux < 0x8000_0000, -0x8000_0000 < vx < 0x8000_0000;
        assert(-0x4000_0000_0000_0000 < uy * vy < 0x4000_0000_0000_0000) by (nonlinear_arith)
            requires -0x8000_0000 < uy < 0x8000_0000, -0x8000_0000 < vy < 0x8000_0000;
    }
    ux * vx + uy * vy
}

impl LatticePoint for FixVec {
    open spec fn coords(&self) -> (int, int) {
        (self.x as int, self.y as int)
    }

    open spec fn in_range(&self) -> bool {
        self.fits()
    }

    fn has_defect(kind: Defect, p0: Self, p1: Self, p2: Self) -> (r: bool) {
        let ux = p1.x - p0.x;
        let uy = p1.y - p0.y;
        let vx = p2.x - p1.x;
        let vy = p2.y - p1.y;
        let cross = small_cross(ux, uy, vx, vy);
        match kind {
            Defect::Collinear => cross == 0,
            Defect::Spike => cross == 0 && small_dot(ux, uy, vx, vy) < 0,
        }
    }

    fn turn(p0: Self, p1: Self, p2: Self) -> (r: (i128, i128)) {
        exact_turn(
            (p2.x - p1.x) as i128,
            (p2.y - p1.y) as i128,
            (p1.x - p0.x) as i128,
            (p1.y - p0.y) as i128,
        )
    }

    fn shoelace_term(p1: Self, p0: Self) -> (r: i128) {
        exact_shoelace(p1.x as i128, p1.y as i128, p0.x as i128, p0.y as i128)
    }

    fn wide(p: Self) -> (r: (i128, i128)) {
        (p.x as i128, p.y as i128)
    }
}

} // verus!
