use vstd::prelude::*;
use crate::point::{Defect, LatticePoint};
use crate::ring::{drop_at, is_subsequence, lemma_ring_area_drop, lemma_ring_area_small, nxt, prv, ring_area};

verus! {

/// The coordinates of a sequence of points.
pub open spec fn coords_of<P: LatticePoint>(s: Seq<P>) -> Seq<(int, int)> {
    Seq::new(s.len(), |a: int| s[a].coords())
}

/// Whether the point at position `a` of the ring `s` has the defect `kind`,
/// judged with its two neighbours in the ring.
pub open spec fn defect_at(kind: Defect, s: Seq<(int, int)>, a: int) -> bool {
    kind.holds(s[prv(a, s.len() as int)], s[a], s[nxt(a, s.len() as int)])
}

/// A ring of at least three points none of which has the defect `kind`.
pub open spec fn is_clean(kind: Defect, s: Seq<(int, int)>) -> bool {
    s.len() >= 3 && forall|a: int| 0 <= a < s.len() ==> !#[trigger] defect_at(kind, s, a)
}

/// Every point of `s` lies in its type's exact range.
pub open spec fn all_in_range<P: LatticePoint>(s: Seq<P>) -> bool {
    forall|j: int| 0 <= j < s.len() ==> #[trigger] s[j].in_range()
}

/// The outcome of repairing a contour.
pub enum Repair<P> {
    /// The contour had no defect.
    Unchanged,
    /// The contour with its defective points taken out.
    Repaired(Vec<P>),
    /// Fewer than three points would remain.
    Degenerate,
}

/// What a repair of `s` for `kind` may return.
pub open spec fn repair_post<P: LatticePoint>(kind: Defect, s: Seq<P>, r: Repair<P>) -> bool {
    match r {
        Repair::Unchanged => is_clean(kind, coords_of(s)),
        Repair::Repaired(out) => {
            &&& !is_clean(kind, coords_of(s))
            &&& is_subsequence(out@, s)
            &&& out@.len() < s.len()
            &&& is_clean(kind, coords_of(out@))
            &&& ring_area(coords_of(out@)) == ring_area(coords_of(s))
            &&& walk_result(kind, s) == Some(out@)
        },
        Repair::Degenerate => {
            &&& !is_clean(kind, coords_of(s))
            &&& ring_area(coords_of(s)) == 0
            &&& walk_result(kind, s) is None
        },
    }
}

/// Whether no point of the ring `pts` has the defect `kind`; a ring of fewer
/// than three points never passes.
pub fn has_no_defects<P: LatticePoint>(pts: &[P], kind: Defect) -> (r: bool)
    requires
        all_in_range(pts@),
    ensures
        r == is_clean(kind, coords_of(pts@)),
{
    let n = pts.len();
    if n < 3 {
        return false;
    }
    let ghost s = coords_of(pts@);
    let mut j: usize = 0;
    while j < n
        invariant
            n == pts@.len(),
            n >= 3,
            s == coords_of(pts@),
            all_in_range(pts@),
            j <= n,
            forall|a: int| 0 <= a < j ==> !#[trigger] defect_at(kind, s, a),
        decreases n - j,
    {
        let p = if j == 0 { n - 1 } else { j - 1 };
        let q = if j + 1 == n { 0 } else { j + 1 };
        if P::has_defect(kind, pts[p], pts[j], pts[q]) {
            assert(defect_at(kind, s, j as int));
            return false;
        }
        j += 1;
    }
    true
}

/// A cell of the linked list over the ring's indices.
#[derive(Clone, Copy)]
pub struct Node {
    pub next: usize,
    pub index: usize,
    pub prev: usize,
}

/// The state of the repair walk: the linked list, the marks of the points
/// checked since their neighbours last changed, the number `n` of live points,
/// the live point the output starts from, the current node, and the number
/// `i` of marked live points.
pub struct Walk {
    pub nodes: Seq<Node>,
    pub marks: Seq<bool>,
    pub n: int,
    pub first: int,
    pub cur: Node,
    pub i: int,
}

/// The walk's start on a ring of `len` points: every point linked to its
/// neighbours, none marked, the walk at point 0.
pub open spec fn init_walk(len: int) -> Walk {
    let nodes = Seq::new(
        len as nat,
        |a: int| Node { next: nxt(a, len) as usize, index: a as usize, prev: prv(a, len) as usize },
    );
    Walk { nodes, marks: Seq::new(len as nat, |a: int| false), n: len, first: 0, cur: nodes[0], i: 0 }
}

/// Clears the mark of node `x`, if it is set.
pub open spec fn unmark(w: Walk, x: int) -> Walk {
    if w.marks[x] {
        Walk { marks: w.marks.update(x, false), i: w.i - 1, ..w }
    } else {
        w
    }
}

/// Takes the current node out of the list, steps back to the node before it,
/// and clears the marks of that node and of its two neighbours.
pub open spec fn unlink(w: Walk) -> Walk {
    let c = w.cur;
    let p = c.prev as int;
    let q = c.next as int;
    let nodes1 = w.nodes.update(p, Node { next: c.next, ..w.nodes[p] });
    let nodes2 = nodes1.update(q, Node { prev: c.prev, ..nodes1[q] });
    let back = nodes2[p];
    let w1 = Walk {
        nodes: nodes2,
        marks: w.marks,
        n: w.n - 1,
        first: if c.index as int == w.first { q } else { w.first },
        cur: back,
        i: w.i,
    };
    unmark(unmark(unmark(w1, back.prev as int), back.next as int), back.index as int)
}

/// One step of the walk over the ring `s`: pass a marked node; take out a
/// node with the defect (`None` when fewer than three points would remain);
/// otherwise mark the node and move on.
pub open spec fn walk_step(kind: Defect, s: Seq<(int, int)>, w: Walk) -> Option<Walk> {
    let c = w.cur;
    if w.marks[c.index as int] {
        Some(Walk { cur: w.nodes[c.next as int], ..w })
    } else if kind.holds(s[c.prev as int], s[c.index as int], s[c.next as int]) {
        if w.n - 1 < 3 {
            None
        } else {
            Some(unlink(w))
        }
    } else {
        Some(Walk { marks: w.marks.update(c.index as int, true), i: w.i + 1, cur: w.nodes[c.next as int], ..w })
    }
}

/// The walk run until every live point is marked, for at most `fuel` steps;
/// `None` when it goes below three points.
#[verifier::opaque]
pub open spec fn walk(kind: Defect, s: Seq<(int, int)>, w: Walk, fuel: nat) -> Option<Walk>
    decreases fuel,
{
    if w.i >= w.n || fuel == 0 {
        Some(w)
    } else {
        match walk_step(kind, s, w) {
            None => None,
            Some(w2) => walk(kind, s, w2, (fuel - 1) as nat),
        }
    }
}

/// The node reached from `start` after following `k` links forward.
pub open spec fn follow(nodes: Seq<Node>, start: int, k: nat) -> int
    decreases k,
{
    if k == 0 {
        start
    } else {
        nodes[follow(nodes, start, (k - 1) as nat)].next as int
    }
}

/// The live points of a finished walk, in list order from `first`.
pub open spec fn walk_points<P>(pts: Seq<P>, w: Walk) -> Seq<P> {
    Seq::new(w.n as nat, |j: int| pts[follow(w.nodes, w.first, j as nat)])
}

/// A number of steps that the walk on `len` points never exceeds.
pub open spec fn walk_fuel(len: int) -> nat {
    (len * (4 * (len + 1)) + len * (len + 1) + 1) as nat
}

/// What the walk leaves of the ring `pts`: `None` when fewer than three
/// points would remain.
pub open spec fn walk_result<P: LatticePoint>(kind: Defect, pts: Seq<P>) -> Option<Seq<P>> {
    if pts.len() < 3 {
        None
    } else {
        match walk(kind, coords_of(pts), init_walk(pts.len() as int), walk_fuel(pts.len() as int)) {
            None => None,
            Some(w) => Some(walk_points(pts, w)),
        }
    }
}

proof fn lemma_walk_unfold(kind: Defect, s: Seq<(int, int)>, w: Walk, fuel: nat)
    requires
        w.i < w.n,
        fuel > 0,
    ensures
        walk(kind, s, w, fuel) == match walk_step(kind, s, w) {
            None => None,
            Some(w2) => walk(kind, s, w2, (fuel - 1) as nat),
        },
{
    reveal_with_fuel(walk, 2);
}

proof fn lemma_walk_done(kind: Defect, s: Seq<(int, int)>, w: Walk, fuel: nat)
    requires
        w.i >= w.n,
    ensures
        walk(kind, s, w, fuel) == Some(w),
{
    reveal_with_fuel(walk, 2);
}

/// A measure of the work left: it falls by at least one at every step.
spec fn potential(len: int, n: int, i: int, d: int) -> int {
    n * (4 * (len + 1)) + (n - i) * (len + 1) + d
}

proof fn lemma_potential_mark(len: int, n: int, i: int, d: int, d2: int)
    requires
        0 <= i < n <= len,
        0 <= d,
        0 <= d2 < n,
    ensures
        potential(len, n, i + 1, d2) + 1 < potential(len, n, i, d),
{
    assert((n - i) * (len + 1) == (n - (i + 1)) * (len + 1) + (len + 1)) by (nonlinear_arith);
}

proof fn lemma_potential_unlink(len: int, n: int, i: int, d: int, i2: int)
    requires
        0 <= i <= n <= len,
        4 <= n,
        0 <= d,
        i - 3 <= i2 <= i,
    ensures
        potential(len, n - 1, i2, 0) + 1 < potential(len, n, i, d),
{
    assert(n * (4 * (len + 1)) == (n - 1) * (4 * (len + 1)) + 4 * (len + 1)) by (nonlinear_arith);
    assert((n - 1 - i2) * (len + 1) <= (n - i) * (len + 1) + 2 * (len + 1)) by (nonlinear_arith)
        requires
            n - 1 - i2 <= n - i + 2,
            len + 1 > 0,
    ;
}

/// Number of positions of `ring` whose node is marked in `v`.
spec fn count_marked(ring: Seq<usize>, v: Seq<bool>) -> nat
    decreases ring.len(),
{
    if ring.len() == 0 {
        0
    } else {
        count_marked(ring.drop_last(), v) + if v[ring.last() as int] {
            1nat
        } else {
            0nat
        }
    }
}

spec fn ascending(ring: Seq<usize>) -> bool {
    forall|a: int, b: int| 0 <= a < b < ring.len() ==> #[trigger] ring[a] < #[trigger] ring[b]
}

proof fn lemma_count_bound(ring: Seq<usize>, v: Seq<bool>)
    ensures
        count_marked(ring, v) <= ring.len(),
    decreases ring.len(),
{
    if ring.len() > 0 {
        lemma_count_bound(ring.drop_last(), v);
    }
}

proof fn lemma_count_full(ring: Seq<usize>, v: Seq<bool>, a: int)
    requires
        count_marked(ring, v) == ring.len(),
        0 <= a < ring.len(),
    ensures
        v[ring[a] as int],
    decreases ring.len(),
{
    lemma_count_bound(ring.drop_last(), v);
    if a < ring.len() - 1 {
        lemma_count_full(ring.drop_last(), v, a);
    }
}

proof fn lemma_count_unmarked(ring: Seq<usize>, v: Seq<bool>) -> (a: int)
    requires
        count_marked(ring, v) < ring.len(),
    ensures
        0 <= a < ring.len(),
        !v[ring[a] as int],
    decreases ring.len(),
{
    if v[ring.last() as int] {
        let a = lemma_count_unmarked(ring.drop_last(), v);
        a
    } else {
        (ring.len() - 1) as int
    }
}

proof fn lemma_count_update_absent(ring: Seq<usize>, v: Seq<bool>, x: int, b: bool)
    requires
        0 <= x < v.len(),
        forall|a: int| 0 <= a < ring.len() ==> #[trigger] ring[a] != x && ring[a] < v.len(),
    ensures
        count_marked(ring, v.update(x, b)) == count_marked(ring, v),
    decreases ring.len(),
{
    if ring.len() > 0 {
        lemma_count_update_absent(ring.drop_last(), v, x, b);
    }
}

proof fn lemma_count_update(ring: Seq<usize>, v: Seq<bool>, k: int, b: bool)
    requires
        ascending(ring),
        0 <= k < ring.len(),
        forall|a: int| 0 <= a < ring.len() ==> #[trigger] ring[a] < v.len(),
    ensures
        count_marked(ring, v.update(ring[k] as int, b)) + (if v[ring[k] as int] { 1int } else { 0int })
            == count_marked(ring, v) + (if b { 1int } else { 0int }),
    decreases ring.len(),
{
    let x = ring[k] as int;
    if k == ring.len() - 1 {
        lemma_count_update_absent(ring.drop_last(), v, x, b);
    } else {
        lemma_count_update(ring.drop_last(), v, k, b);
    }
}

proof fn lemma_count_drop(ring: Seq<usize>, v: Seq<bool>, k: int)
    requires
        0 <= k < ring.len(),
        !v[ring[k] as int],
    ensures
        count_marked(drop_at(ring, k), v) == count_marked(ring, v),
    decreases ring.len(),
{
    if k == ring.len() - 1 {
        assert(drop_at(ring, k) =~= ring.drop_last());
    } else {
        lemma_count_drop(ring.drop_last(), v, k);
        assert(drop_at(ring, k).drop_last() =~= drop_at(ring.drop_last(), k));
    }
}

/// The coordinates of the points that the live positions of `ring` name.
spec fn ring_coords<P: LatticePoint>(pts: Seq<P>, ring: Seq<usize>) -> Seq<(int, int)> {
    Seq::new(ring.len(), |a: int| pts[ring[a] as int].coords())
}

/// Taking a point out of a ring leaves the neighbours of the points that
/// were not next to it as they were.
proof fn lemma_drop_keeps_neighbours(kind: Defect, s: Seq<(int, int)>, c: int, a: int)
    requires
        s.len() >= 4,
        0 <= c < s.len(),
        0 <= a < s.len() - 1,
        a != (if c == 0 { s.len() - 2 } else { c - 1 }),
        a != (if c == s.len() - 1 { 0 } else { c }),
    ensures
        defect_at(kind, drop_at(s, c), a) == defect_at(kind, s, if a < c { a } else { a + 1 }),
{
    let t = drop_at(s, c);
    let n = s.len() as int;
    let o = if a < c { a } else { a + 1 };
    assert(t[a] == s[o]);
    assert(t[prv(a, n - 1)] == s[prv(o, n)]);
    assert(t[nxt(a, n - 1)] == s[nxt(o, n)]);
}

/// `nodes` links the live positions of `ring` into a circular doubly linked list.
#[verifier::opaque]
spec fn linked(nodes: Seq<Node>, ring: Seq<usize>, len: nat) -> bool {
    &&& nodes.len() == len
    &&& ascending(ring)
    &&& forall|a: int| 0 <= a < ring.len() ==> (#[trigger] ring[a]) < len
    &&& forall|a: int|
        0 <= a < ring.len() ==> {
            &&& (#[trigger] nodes[ring[a] as int]).index == ring[a]
            &&& nodes[ring[a] as int].next == ring[nxt(a, ring.len() as int)]
            &&& nodes[ring[a] as int].prev == ring[prv(a, ring.len() as int)]
        }
}

/// Every marked live position is free of the defect.
#[verifier::opaque]
spec fn marks_hold(kind: Defect, s: Seq<(int, int)>, ring: Seq<usize>, v: Seq<bool>) -> bool {
    forall|a: int| 0 <= a < ring.len() && #[trigger] v[ring[a] as int] ==> !defect_at(kind, s, a)
}

/// Position of the node before the one taken out of position `c`, in the shortened ring.
spec fn back_pos(c: int, n: int) -> int {
    if c == 0 {
        n - 2
    } else {
        c - 1
    }
}

proof fn lemma_unlink(
    kind: Defect,
    s: Seq<(int, int)>,
    nodes0: Seq<Node>,
    nodes1: Seq<Node>,
    ring: Seq<usize>,
    v: Seq<bool>,
    c: int,
    len: nat,
)
    requires
        linked(nodes0, ring, len),
        ring.len() >= 4,
        0 <= c < ring.len(),
        s.len() == ring.len(),
        marks_hold(kind, s, ring, v),
        ({
            let n = ring.len() as int;
            let p = ring[prv(c, n)] as int;
            let q = ring[nxt(c, n)] as int;
            nodes1 == nodes0.update(p, Node { next: q as usize, ..nodes0[p] }).update(
                q,
                Node { prev: p as usize, ..nodes0.update(p, Node { next: q as usize, ..nodes0[p] })[q] },
            )
        }),
    ensures
        linked(nodes1, drop_at(ring, c), len),
        ({
            let r = drop_at(ring, c);
            let b = back_pos(c, ring.len() as int);
            forall|a: int|
                0 <= a < r.len() && #[trigger] v[r[a] as int] && a != b && a != nxt(b, r.len() as int)
                    ==> !defect_at(kind, drop_at(s, c), a)
        }),
{
    reveal(linked);
    reveal(marks_hold);
    let n = ring.len() as int;
    let r = drop_at(ring, c);
    let b = back_pos(c, n);
    assert forall|a: int| 0 <= a < r.len() implies {
        &&& (#[trigger] nodes1[r[a] as int]).index == r[a]
        &&& nodes1[r[a] as int].next == r[nxt(a, r.len() as int)]
        &&& nodes1[r[a] as int].prev == r[prv(a, r.len() as int)]
    } by {
        let o = if a < c { a } else { a + 1 };
        assert(r[a] == ring[o]);
        assert(nodes0[ring[o] as int].index == ring[o]);
        if a == b {
            assert(o == prv(c, n));
        } else if a == nxt(b, r.len() as int) {
            assert(o == nxt(c, n));
        } else {
            assert(r[nxt(a, r.len() as int)] == ring[nxt(o, n)]);
            assert(r[prv(a, r.len() as int)] == ring[prv(o, n)]);
        }
    }
    assert forall|a: int|
        0 <= a < r.len() && #[trigger] v[r[a] as int] && a != b && a != nxt(b, r.len() as int)
            implies !defect_at(kind, drop_at(s, c), a) by {
        let o = if a < c { a } else { a + 1 };
        assert(r[a] == ring[o]);
        lemma_drop_keeps_neighbours(kind, s, c, a);
    }
}

proof fn lemma_linked_at(nodes: Seq<Node>, ring: Seq<usize>, len: nat, a: int)
    requires
        linked(nodes, ring, len),
        0 <= a < ring.len(),
    ensures
        ring[a] < len,
        nodes.len() == len,
        nodes[ring[a] as int].index == ring[a],
        nodes[ring[a] as int].next == ring[nxt(a, ring.len() as int)],
        nodes[ring[a] as int].prev == ring[prv(a, ring.len() as int)],
        ring[prv(a, ring.len() as int)] < len,
        ring[nxt(a, ring.len() as int)] < len,
        ascending(ring),
{
    reveal(linked);
    assert(ring[prv(a, ring.len() as int)] < len);
    assert(ring[nxt(a, ring.len() as int)] < len);
}

proof fn lemma_linked_count_update(nodes: Seq<Node>, ring: Seq<usize>, len: nat, v: Seq<bool>, k: int, b: bool)
    requires
        linked(nodes, ring, len),
        v.len() == len,
        0 <= k < ring.len(),
    ensures
        count_marked(ring, v.update(ring[k] as int, b)) + (if v[ring[k] as int] { 1int } else { 0int })
            == count_marked(ring, v) + (if b { 1int } else { 0int }),
{
    reveal(linked);
    lemma_count_update(ring, v, k, b);
}

/// Marking a position after checking it, or unmarking any, keeps the marks sound.
proof fn lemma_marks_update(kind: Defect, s: Seq<(int, int)>, ring: Seq<usize>, v: Seq<bool>, k: int, b: bool, len: nat, nodes: Seq<Node>)
    requires
        linked(nodes, ring, len),
        v.len() == len,
        marks_hold(kind, s, ring, v),
        0 <= k < ring.len(),
        b ==> !defect_at(kind, s, k),
    ensures
        marks_hold(kind, s, ring, v.update(ring[k] as int, b)),
{
    reveal(linked);
    reveal(marks_hold);
    let v1 = v.update(ring[k] as int, b);
    assert forall|a: int| 0 <= a < ring.len() && #[trigger] v1[ring[a] as int] implies !defect_at(kind, s, a) by {
        if a != k {
            assert(ring[a] != ring[k]) by {
                if a < k {
                    assert(ring[a] < ring[k]);
                } else {
                    assert(ring[k] < ring[a]);
                }
            }
        }
    }
}

proof fn lemma_marks_all(kind: Defect, s: Seq<(int, int)>, ring: Seq<usize>, v: Seq<bool>)
    requires
        marks_hold(kind, s, ring, v),
        count_marked(ring, v) == ring.len(),
    ensures
        forall|a: int| 0 <= a < ring.len() ==> !#[trigger] defect_at(kind, s, a),
{
    reveal(marks_hold);
    assert forall|a: int| 0 <= a < ring.len() implies !#[trigger] defect_at(kind, s, a) by {
        lemma_count_full(ring, v, a);
    }
}

/// Sets the mark of the live position `k` (node `x`) to `b`, keeping the count `i`.
fn set_mark(
    validated: &mut Vec<bool>,
    i: &mut usize,
    x: usize,
    b: bool,
    Ghost(nodes): Ghost<Seq<Node>>,
    Ghost(ring): Ghost<Seq<usize>>,
    Ghost(k): Ghost<int>,
    Ghost(len): Ghost<nat>,
)
    requires
        linked(nodes, ring, len),
        old(validated)@.len() == len,
        len <= usize::MAX,
        ring.len() <= len,
        0 <= k < ring.len(),
        ring[k] == x,
        *old(i) == count_marked(ring, old(validated)@),
        b ==> !old(validated)@[x as int],
    ensures
        final(validated)@ == old(validated)@.update(x as int, b),
        *final(i) == count_marked(ring, final(validated)@),
        *final(i) + (if old(validated)@[x as int] { 1int } else { 0int }) == *old(i) + (if b { 1int } else { 0int }),
{
    proof {
        lemma_linked_at(nodes, ring, len, k);
        lemma_linked_count_update(nodes, ring, len, validated@, k, b);
        lemma_count_bound(ring, validated@.update(x as int, b));
    }
    if validated[x] != b {
        if b {
            *i = *i + 1;
        } else {
            *i = *i - 1;
        }
    }
    validated.set(x, b);
}

/// Takes the node at live position `c` out of the list and unmarks the
/// nodes whose neighbours changed; `n` is the number of live nodes left.
fn unlink_node<P: LatticePoint>(
    pts: &[P],
    kind: Defect,
    nodes: &mut Vec<Node>,
    validated: &mut Vec<bool>,
    first: &mut usize,
    node: &mut Node,
    i: &mut usize,
    n: usize,
    Ghost(ring): Ghost<Seq<usize>>,
    Ghost(c): Ghost<int>,
) -> (r: Ghost<(Seq<usize>, int)>)
    requires
        old(validated)@.len() == pts@.len(),
        ring.len() == n + 1,
        3 <= n,
        n + 1 <= pts@.len(),
        linked(old(nodes)@, ring, pts@.len()),
        *old(first) == ring[0],
        0 <= c < n + 1,
        *old(node) == old(nodes)@[ring[c] as int],
        *old(i) == count_marked(ring, old(validated)@),
        marks_hold(kind, ring_coords(pts@, ring), ring, old(validated)@),
        !old(validated)@[ring[c] as int],
    ensures
        r@.0 == drop_at(ring, c),
        r@.1 == back_pos(c, n + 1),
        final(validated)@.len() == pts@.len(),
        linked(final(nodes)@, r@.0, pts@.len()),
        *final(first) == r@.0[0],
        0 <= r@.1 < n,
        *final(node) == final(nodes)@[r@.0[r@.1] as int],
        *final(i) == count_marked(r@.0, final(validated)@),
        marks_hold(kind, ring_coords(pts@, r@.0), r@.0, final(validated)@),
        !final(validated)@[r@.0[r@.1] as int],
        (Walk {
            nodes: final(nodes)@,
            marks: final(validated)@,
            n: n as int,
            first: *final(first) as int,
            cur: *final(node),
            i: *final(i) as int,
        }) == unlink(
            Walk {
                nodes: old(nodes)@,
                marks: old(validated)@,
                n: n + 1,
                first: *old(first) as int,
                cur: *old(node),
                i: *old(i) as int,
            },
        ),
        *old(i) - 3 <= *final(i) <= *old(i),
{
    let len = pts.len();
    let ghost w0 = Walk { nodes: nodes@, marks: validated@, n: n + 1, first: *first as int, cur: *node, i: *i as int };
    let ghost s = ring_coords(pts@, ring);
    proof {
        lemma_linked_at(nodes@, ring, len as nat, c);
    }
    let ghost old_ring = ring;
    let ghost old_nodes = nodes@;
    let ghost old_c = c;
    let mut pn = nodes[node.prev];
    pn.next = node.next;
    nodes.set(node.prev, pn);
    let mut nn = nodes[node.next];
    nn.prev = node.prev;
    nodes.set(node.next, nn);

    proof {
        if old_c != 0 {
            assert(old_ring[0] < old_ring[old_c]);
        }
    }
    if node.index == *first {
        *first = node.next;
    }
    *node = nodes[node.prev];
    proof {
        lemma_unlink(kind, s, old_nodes, nodes@, old_ring, validated@, old_c, len as nat);
        lemma_count_drop(old_ring, validated@, old_c);
    }
    let ghost ring = drop_at(old_ring, old_c);
    let ghost c = back_pos(old_c, n + 1);
    proof {
        assert(ring_coords(pts@, ring) =~= drop_at(s, old_c));
        assert(ring[c] == old_ring[prv(old_c, n + 1)]);
        assert(*node == nodes@[ring[c] as int]);
        assert(ring[0] == *first);
        lemma_linked_at(nodes@, ring, len as nat, c);
    }
    let ghost v0 = validated@;
    let ghost wa = Walk { nodes: nodes@, marks: validated@, n: n as int, first: *first as int, cur: *node, i: *i as int };
    proof {
        let c0 = w0.cur;
        let nodes1 = w0.nodes.update(c0.prev as int, Node { next: c0.next, ..w0.nodes[c0.prev as int] });
        let nodes2 = nodes1.update(c0.next as int, Node { prev: c0.prev, ..nodes1[c0.next as int] });
        assert(nodes@ =~= nodes2);
        assert(wa == Walk {
            nodes: nodes2,
            marks: w0.marks,
            n: w0.n - 1,
            first: if c0.index as int == w0.first { c0.next as int } else { w0.first },
            cur: nodes2[c0.prev as int],
            i: w0.i,
        });
    }
    if validated[node.prev] {
        set_mark(validated, i, node.prev, false, Ghost(nodes@), Ghost(ring), Ghost(prv(c, n as int)), Ghost(len as nat));
    }
    let ghost v1 = validated@;
    let ghost wb = Walk { nodes: nodes@, marks: validated@, n: n as int, first: *first as int, cur: *node, i: *i as int };
    proof {
        assert(forall|y: int| 0 <= y < len && #[trigger] v1[y] ==> v0[y]);
        assert(wb == unmark(wa, wa.cur.prev as int));
    }
    if validated[node.next] {
        set_mark(validated, i, node.next, false, Ghost(nodes@), Ghost(ring), Ghost(nxt(c, n as int)), Ghost(len as nat));
    }
    let ghost v2 = validated@;
    let ghost wc = Walk { nodes: nodes@, marks: validated@, n: n as int, first: *first as int, cur: *node, i: *i as int };
    proof {
        assert(wc == unmark(wb, wb.cur.next as int));
        assert(forall|y: int| 0 <= y < len && #[trigger] v2[y] ==> v1[y]);
        assert(!v2[node.next as int]);
    }
    if validated[node.index] {
        set_mark(validated, i, node.index, false, Ghost(nodes@), Ghost(ring), Ghost(c), Ghost(len as nat));
    }
    proof {
        let wd = Walk { nodes: nodes@, marks: validated@, n: n as int, first: *first as int, cur: *node, i: *i as int };
        assert(wd == unmark(wc, wc.cur.index as int));
        assert(forall|y: int| 0 <= y < len && #[trigger] validated@[y] ==> v2[y]);
        assert(!validated@[node.next as int]);
        assert(!validated@[node.index as int]);
    }
    proof {
        reveal(marks_hold);
        assert forall|a: int|
            0 <= a < n && #[trigger] validated@[ring[a] as int] implies !defect_at(
        kind,
        ring_coords(pts@, ring),
        a,
            ) by {
            lemma_linked_at(nodes@, ring, len as nat, a);
            assert(v2[ring[a] as int]);
            assert(v1[ring[a] as int]);
            assert(v0[ring[a] as int]);
        }
    }
    Ghost((ring, c))
}

/// Takes the points with the defect `kind` out of the ring `pts`, one at a
/// time, judging each point with its current neighbours, until no point has
/// the defect or fewer than three points are left.
#[verifier::rlimit(100)]
pub fn repair<P: LatticePoint>(pts: &[P], kind: Defect) -> (r: Repair<P>)
    requires
        all_in_range(pts@),
    ensures
        repair_post(kind, pts@, r),
{
    if has_no_defects(pts, kind) {
        return Repair::Unchanged;
    }
    let len = pts.len();
    if len < 3 {
        proof {
            lemma_ring_area_small(coords_of(pts@));
        }
        return Repair::Degenerate;
    }
    let mut nodes: Vec<Node> = Vec::with_capacity(len);
    let mut validated: Vec<bool> = Vec::with_capacity(len);
    let mut k: usize = 0;
    while k < len
        invariant
            len == pts@.len(),
            len >= 3,
            k <= len,
            nodes@.len() == k,
            validated@.len() == k,
            forall|a: int|
                0 <= a < k ==> {
                    &&& (#[trigger] nodes@[a]).index == a
                    &&& nodes@[a].next == nxt(a, len as int)
                    &&& nodes@[a].prev == prv(a, len as int)
                },
            forall|a: int| 0 <= a < k ==> !(#[trigger] validated@[a]),
        decreases len - k,
    {
        let prev = if k == 0 { len - 1 } else { k - 1 };
        let next = if k + 1 == len { 0 } else { k + 1 };
        nodes.push(Node { next, index: k, prev });
        validated.push(false);
        k += 1;
    }

    let ghost identity: Seq<usize> = Seq::new(len as nat, |a: int| a as usize);
    let ghost mut ring: Seq<usize> = identity;
    let ghost mut c: int = 0;
    let ghost mut d: int = 0;
    let mut n: usize = len;
    let mut first: usize = 0;
    let mut node: Node = nodes[first];
    let mut i: usize = 0;
    let ghost sc = coords_of(pts@);
    let ghost w_init = init_walk(len as int);
    let ghost mut fuel: nat = walk_fuel(len as int);
    proof {
        assert(nodes@ =~= w_init.nodes);
        assert(validated@ =~= w_init.marks);
        assert(potential(len as int, len as int, 0, 0) < fuel);
        assert(ring_coords(pts@, ring) =~= coords_of(pts@));
        lemma_count_zero(ring, validated@);
        reveal(linked);
        reveal(marks_hold);
        assert(linked(nodes@, ring, len as nat));
        assert(marks_hold(kind, ring_coords(pts@, ring), ring, validated@));
    }
    while i < n
        invariant
            len == pts@.len(),
            all_in_range(pts@),
            validated@.len() == len,
            3 <= n <= len,
            ring.len() == n,
            n == len ==> ring == identity,
            identity == Seq::new(len as nat, |a: int| a as usize),
            linked(nodes@, ring, len as nat),
            first == ring[0],
            0 <= c < n,
            node == nodes@[ring[c] as int],
            i == count_marked(ring, validated@),
            marks_hold(kind, ring_coords(pts@, ring), ring, validated@),
            ring_area(ring_coords(pts@, ring)) == ring_area(coords_of(pts@)),
            !is_clean(kind, coords_of(pts@)),
            sc == coords_of(pts@),
            w_init == init_walk(len as int),
            walk(kind, sc, w_init, walk_fuel(len as int)) == walk(
                kind,
                sc,
                Walk { nodes: nodes@, marks: validated@, n: n as int, first: first as int, cur: node, i: i as int },
                fuel,
            ),
            potential(len as int, n as int, i as int, d) < fuel,
            0 <= d,
            i < n ==> d < n && !validated@[ring[if c + d < n { c + d } else { c + d - n }] as int],
        decreases n, n - i, d,
    {
        let ghost w = Walk { nodes: nodes@, marks: validated@, n: n as int, first: first as int, cur: node, i: i as int };
        let ghost d0 = d;
        proof {
            lemma_linked_at(nodes@, ring, len as nat, c);
            lemma_walk_unfold(kind, sc, w, fuel);
        }
        if validated[node.index] {
            node = nodes[node.next];
            proof {
                assert(walk_step(kind, sc, w) == Some(Walk { nodes: nodes@, marks: validated@, n: n as int, first: first as int, cur: node, i: i as int }));
                fuel = (fuel - 1) as nat;
                assert(d != 0);
                c = nxt(c, n as int);
                d = d - 1;
            }
            continue;
        }
        proof {
            assert(pts@[node.prev as int].in_range());
            assert(pts@[node.index as int].in_range());
            assert(pts@[node.next as int].in_range());
        }
        let p0 = pts[node.prev];
        let p1 = pts[node.index];
        let p2 = pts[node.next];
        if P::has_defect(kind, p0, p1, p2) {
            let ghost s = ring_coords(pts@, ring);
            proof {
                assert(s[prv(c, n as int)] == p0.coords());
                assert(s[nxt(c, n as int)] == p2.coords());
                assert(defect_at(kind, s, c));
                assert(sc[node.prev as int] == p0.coords() && sc[node.index as int] == p1.coords() && sc[node.next as int] == p2.coords());
                lemma_ring_area_drop(s, c);
                crate::point::lemma_defect_flat(kind, s[prv(c, n as int)], s[c], s[nxt(c, n as int)]);
            }
            n -= 1;
            if n < 3 {
                proof {
                    lemma_ring_area_small(drop_at(s, c));
                    assert(walk_step(kind, sc, w) is None);
                }
                return Repair::Degenerate;
            }
            let g = unlink_node(pts, kind, &mut nodes, &mut validated, &mut first, &mut node, &mut i, n, Ghost(ring), Ghost(c));
            proof {
                assert(ring_coords(pts@, g@.0) =~= drop_at(s, c));
                ring = g@.0;
                c = g@.1;
                d = 0;
                assert(walk_step(kind, sc, w) == Some(Walk { nodes: nodes@, marks: validated@, n: n as int, first: first as int, cur: node, i: i as int }));
                lemma_potential_unlink(len as int, n + 1, w.i, d0, i as int);
                fuel = (fuel - 1) as nat;
            }
        } else {
            proof {
                lemma_marks_update(kind, ring_coords(pts@, ring), ring, validated@, c, true, len as nat, nodes@);
                lemma_count_bound(ring, validated@.update(ring[c] as int, true));
            }
            set_mark(&mut validated, &mut i, node.index, true, Ghost(nodes@), Ghost(ring), Ghost(c), Ghost(len as nat));
            node = nodes[node.next];
            proof {
                assert(sc[w.cur.prev as int] == p0.coords() && sc[w.cur.index as int] == p1.coords() && sc[w.cur.next as int] == p2.coords());
                assert(walk_step(kind, sc, w) == Some(Walk { nodes: nodes@, marks: validated@, n: n as int, first: first as int, cur: node, i: i as int }));
                fuel = (fuel - 1) as nat;
                lemma_linked_at(nodes@, ring, len as nat, c);
                c = nxt(c, n as int);
                if i < n {
                    let a = lemma_count_unmarked(ring, validated@);
                    d = if a >= c { a - c } else { a - c + n };
                } else {
                    d = 0;
                }
                lemma_potential_mark(len as int, n as int, w.i, d0, d);
            }
        }
    }

    proof {
        lemma_count_bound(ring, validated@);
        lemma_marks_all(kind, ring_coords(pts@, ring), ring, validated@);
        if n == len {
            assert(ring_coords(pts@, ring) =~= coords_of(pts@));
        }
        lemma_walk_done(kind, sc, Walk { nodes: nodes@, marks: validated@, n: n as int, first: first as int, cur: node, i: i as int }, fuel);
    }
    let ghost w_end = Walk { nodes: nodes@, marks: validated@, n: n as int, first: first as int, cur: node, i: i as int };
    let mut out: Vec<P> = Vec::with_capacity(n);
    let mut node = nodes[first];
    let mut j: usize = 0;
    while j < n
        invariant
            len == pts@.len(),
            3 <= n <= len,
            ring.len() == n,
            linked(nodes@, ring, len as nat),
            j <= n,
            j < n ==> node == nodes@[ring[j as int] as int],
            out@.len() == j,
            forall|a: int| 0 <= a < j ==> out@[a] == pts@[ring[a] as int],
            first == ring[0],
            j < n ==> follow(nodes@, first as int, j as nat) == ring[j as int] as int,
            forall|a: int| 0 <= a < j ==> follow(nodes@, first as int, a as nat) == ring[a] as int,
        decreases n - j,
    {
        proof {
            lemma_linked_at(nodes@, ring, len as nat, j as int);
            if j + 1 < n {
                assert(follow(nodes@, first as int, (j + 1) as nat) == nodes@[follow(nodes@, first as int, j as nat)].next as int);
            }
        }
        out.push(pts[node.index]);
        node = nodes[node.next];
        j += 1;
    }
    proof {
        reveal(linked);
        let idx = Seq::new(n as nat, |a: int| ring[a] as int);
        assert(coords_of(out@) =~= ring_coords(pts@, ring));
        assert(is_subsequence(out@, pts@)) by {
            assert(idx.len() == out@.len());
            assert(forall|a: int, b: int| 0 <= a < b < idx.len() ==> idx[a] < idx[b]);
            assert(forall|a: int| 0 <= a < idx.len() ==> 0 <= idx[a] < pts@.len() && out@[a] == pts@[idx[a]]);
        }
    }
    proof {
        assert(walk_points(pts@, w_end) =~= out@);
    }
    Repair::Repaired(out)
}

proof fn lemma_count_zero(ring: Seq<usize>, v: Seq<bool>)
    requires
        forall|a: int| 0 <= a < ring.len() ==> !v[#[trigger] ring[a] as int],
    ensures
        count_marked(ring, v) == 0,
    decreases ring.len(),
{
    if ring.len() > 0 {
        lemma_count_zero(ring.drop_last(), v);
    }
}

} // verus!
