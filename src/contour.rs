use vstd::prelude::*;
use crate::point::{Defect, LatticePoint};
use crate::repair::{all_in_range, coords_of, has_no_defects, is_clean, repair, walk_result, Repair};
use crate::ring::{is_subsequence, ring_area};

verus! {

/// The points of an optional contour.
pub open spec fn opt_view<P>(r: Option<Vec<P>>) -> Option<Seq<P>> {
    match r {
        Some(v) => Some(v@),
        None => None,
    }
}

/// The contours of an optional shape.
pub open spec fn opt_shape_view<P>(r: Option<Vec<Vec<P>>>) -> Option<Seq<Seq<P>>> {
    match r {
        Some(v) => Some(shape_view(v@)),
        None => None,
    }
}

/// The contours of a shape, each as its sequence of points.
pub open spec fn shape_view<P>(s: Seq<Vec<P>>) -> Seq<Seq<P>> {
    Seq::new(s.len(), |j: int| s[j]@)
}

/// The shapes of a collection, each as its sequence of contours.
pub open spec fn shapes_view<P>(s: Seq<Vec<Vec<P>>>) -> Seq<Seq<Seq<P>>> {
    Seq::new(s.len(), |j: int| shape_view(s[j]@))
}

/// Every point of every contour lies in its type's exact range.
pub open spec fn shape_in_range<P: LatticePoint>(s: Seq<Seq<P>>) -> bool {
    forall|j: int| 0 <= j < s.len() ==> all_in_range(#[trigger] s[j])
}

/// Every point of every shape lies in its type's exact range.
pub open spec fn shapes_in_range<P: LatticePoint>(s: Seq<Seq<Seq<P>>>) -> bool {
    forall|j: int| 0 <= j < s.len() ==> shape_in_range(#[trigger] s[j])
}

/// The contour `c` has no point with the defect `kind` (and at least three points).
pub open spec fn contour_clean<P: LatticePoint>(kind: Defect, c: Seq<P>) -> bool {
    is_clean(kind, coords_of(c))
}

/// Every contour of the shape is clean.
pub open spec fn shape_clean<P: LatticePoint>(kind: Defect, s: Seq<Seq<P>>) -> bool {
    forall|j: int| 0 <= j < s.len() ==> contour_clean(kind, #[trigger] s[j])
}

/// Every shape of the collection is clean.
pub open spec fn shapes_clean<P: LatticePoint>(kind: Defect, s: Seq<Seq<Seq<P>>>) -> bool {
    forall|j: int| 0 <= j < s.len() ==> shape_clean(kind, #[trigger] s[j])
}

/// `out` is `c` with its defective points taken out: a shorter subsequence of
/// `c`, free of the defect, that encloses the same signed area.
pub open spec fn repaired_from<P: LatticePoint>(kind: Defect, c: Seq<P>, out: Seq<P>) -> bool {
    &&& is_subsequence(out, c)
    &&& out.len() < c.len()
    &&& contour_clean(kind, out)
    &&& ring_area(coords_of(out)) == ring_area(coords_of(c))
}

/// The repair of the contour `c`: `c` itself when it is clean, otherwise
/// what the walk leaves of it (`None` when fewer than three points remain).
pub open spec fn repaired_spec<P: LatticePoint>(kind: Defect, c: Seq<P>) -> Option<Seq<P>> {
    if contour_clean(kind, c) {
        Some(c)
    } else {
        walk_result(kind, c)
    }
}

/// What repairing the contour `c` gives: exactly `repaired_spec`. That is `c`
/// itself when it is clean; otherwise a shorter clean subsequence of `c` with
/// the same area, or nothing, which happens only for a ring of zero area.
pub open spec fn contour_outcome<P: LatticePoint>(kind: Defect, c: Seq<P>, r: Option<Seq<P>>) -> bool {
    &&& r == repaired_spec(kind, c)
    &&& match r {
        Some(out) => if contour_clean(kind, c) {
            out == c
        } else {
            repaired_from(kind, c, out)
        },
        None => !contour_clean(kind, c) && ring_area(coords_of(c)) == 0,
    }
}

/// The values present in `s`, in order.
pub open spec fn keep_some<T>(s: Seq<Option<T>>) -> Seq<T>
    decreases s.len(),
{
    if s.len() == 0 {
        Seq::empty()
    } else {
        let r = keep_some(s.drop_last());
        match s.last() {
            Some(x) => r.push(x),
            None => r,
        }
    }
}

/// The repair of the shape `s`: nothing when its outer contour (the first)
/// degenerates; otherwise the repairs of its contours in order, with the
/// holes that degenerate left out.
pub open spec fn shape_repaired_spec<P: LatticePoint>(kind: Defect, s: Seq<Seq<P>>) -> Option<Seq<Seq<P>>> {
    if s.len() > 0 && repaired_spec(kind, s[0]) is None {
        None
    } else {
        Some(keep_some(Seq::new(s.len(), |j: int| repaired_spec(kind, s[j]))))
    }
}

/// What repairing the shape `s` gives: exactly `shape_repaired_spec`.
pub open spec fn shape_outcome<P: LatticePoint>(kind: Defect, s: Seq<Seq<P>>, r: Option<Seq<Seq<P>>>) -> bool {
    r == shape_repaired_spec(kind, s)
}

/// What repairing the collection `s` gives: the repair of each shape in
/// order, with the shapes whose outer contour degenerates left out.
pub open spec fn shapes_outcome<P: LatticePoint>(kind: Defect, s: Seq<Seq<Seq<P>>>, out: Seq<Seq<Seq<P>>>) -> bool {
    out == keep_some(Seq::new(s.len(), |j: int| shape_repaired_spec(kind, s[j])))
}

proof fn lemma_keep_some_push<T>(s: Seq<Option<T>>, o: Option<T>)
    ensures
        keep_some(s.push(o)) == match o {
            Some(x) => keep_some(s).push(x),
            None => keep_some(s),
        },
{
    assert(s.push(o).drop_last() =~= s);
}

proof fn lemma_keep_some_first<T>(s: Seq<Option<T>>)
    requires
        s.len() > 0,
        s[0] is Some,
    ensures
        keep_some(s).len() > 0,
    decreases s.len(),
{
    if s.len() > 1 {
        lemma_keep_some_first(s.drop_last());
    }
}

/// A copy of the points of `c`.
pub fn copy_points<P: LatticePoint>(c: &[P]) -> (r: Vec<P>)
    ensures
        r@ == c@,
{
    let mut out: Vec<P> = Vec::with_capacity(c.len());
    let mut j: usize = 0;
    while j < c.len()
        invariant
            j <= c@.len(),
            out@ =~= c@.subrange(0, j as int),
        decreases c@.len() - j,
    {
        out.push(c[j]);
        j += 1;
    }
    out
}

/// A copy of the contours of a shape.
pub fn copy_shape<P: LatticePoint>(s: &[Vec<P>]) -> (r: Vec<Vec<P>>)
    ensures
        shape_view(r@) == shape_view(s@),
{
    let mut out: Vec<Vec<P>> = Vec::with_capacity(s.len());
    let mut j: usize = 0;
    while j < s.len()
        invariant
            j <= s@.len(),
            shape_view(out@) =~= shape_view(s@).subrange(0, j as int),
        decreases s@.len() - j,
    {
        let c = copy_points(s[j].as_slice());
        proof {
            assert(shape_view(out@.push(c)) =~= shape_view(out@).push(c@));
            assert(shape_view(s@).subrange(0, j + 1) =~= shape_view(s@).subrange(0, j as int).push(s@[j as int]@));
        }
        out.push(c);
        j += 1;
    }
    proof {
        assert(shape_view(out@) =~= shape_view(s@));
    }
    out
}

/// The contour `c` with the points of defect `kind` taken out: `c` itself when
/// it has none, `None` when fewer than three points would remain.
pub fn repaired_contour<P: LatticePoint>(c: &[P], kind: Defect) -> (r: Option<Vec<P>>)
    requires
        all_in_range(c@),
    ensures
        contour_outcome(kind, c@, opt_view(r)),
{
    match repair(c, kind) {
        Repair::Unchanged => Some(copy_points(c)),
        Repair::Repaired(v) => Some(v),
        Repair::Degenerate => None,
    }
}

/// Whether every contour of the shape is clean.
pub fn shape_has_no_defects<P: LatticePoint>(s: &[Vec<P>], kind: Defect) -> (r: bool)
    requires
        shape_in_range(shape_view(s@)),
    ensures
        r == shape_clean(kind, shape_view(s@)),
{
    let mut j: usize = 0;
    while j < s.len()
        invariant
            j <= s@.len(),
            shape_in_range(shape_view(s@)),
            forall|a: int| 0 <= a < j ==> contour_clean(kind, #[trigger] shape_view(s@)[a]),
        decreases s@.len() - j,
    {
        assert(all_in_range(shape_view(s@)[j as int]));
        if !has_no_defects(s[j].as_slice(), kind) {
            return false;
        }
        j += 1;
    }
    true
}

/// Whether every shape of the collection is clean.
pub fn shapes_have_no_defects<P: LatticePoint>(s: &[Vec<Vec<P>>], kind: Defect) -> (r: bool)
    requires
        shapes_in_range(shapes_view(s@)),
    ensures
        r == shapes_clean(kind, shapes_view(s@)),
{
    let mut j: usize = 0;
    while j < s.len()
        invariant
            j <= s@.len(),
            shapes_in_range(shapes_view(s@)),
            forall|a: int| 0 <= a < j ==> shape_clean(kind, #[trigger] shapes_view(s@)[a]),
        decreases s@.len() - j,
    {
        assert(shape_in_range(shapes_view(s@)[j as int]));
        if !shape_has_no_defects(s[j].as_slice(), kind) {
            return false;
        }
        j += 1;
    }
    true
}

/// The shape with every contour repaired; holes that degenerate are left out,
/// and `None` when the outer contour degenerates.
pub fn repaired_shape<P: LatticePoint>(s: &[Vec<P>], kind: Defect) -> (r: Option<Vec<Vec<P>>>)
    requires
        shape_in_range(shape_view(s@)),
    ensures
        shape_outcome(kind, shape_view(s@), opt_shape_view(r)),
{
    let ghost sv = shape_view(s@);
    let ghost mut outs: Seq<Option<Seq<P>>> = Seq::empty();
    let mut contours: Vec<Vec<P>> = Vec::with_capacity(s.len());
    let mut j: usize = 0;
    while j < s.len()
        invariant
            j <= s@.len(),
            sv == shape_view(s@),
            shape_in_range(sv),
            outs.len() == j,
            forall|a: int| 0 <= a < j ==> contour_outcome(kind, sv[a], #[trigger] outs[a]),
            j > 0 ==> outs[0] is Some,
            shape_view(contours@) == keep_some(outs),
        decreases s@.len() - j,
    {
        assert(all_in_range(sv[j as int]));
        let r = repaired_contour(s[j].as_slice(), kind);
        proof {
            lemma_keep_some_push(outs, opt_view(r));
        }
        match r {
            Some(v) => {
                proof {
                    assert(shape_view(contours@.push(v)) =~= shape_view(contours@).push(v@));
                }
                contours.push(v);
            },
            None => {
                if j == 0 {
                    proof {
                        assert(repaired_spec(kind, sv[0]) is None);
                    }
                    return None;
                }
            },
        }
        proof {
            outs = outs.push(opt_view(r));
        }
        j += 1;
    }
    proof {
        assert(outs =~= Seq::new(sv.len(), |a: int| repaired_spec(kind, sv[a])));
    }
    Some(contours)
}

/// The collection with every shape repaired; shapes whose outer contour
/// degenerates are left out.
pub fn repaired_shapes<P: LatticePoint>(s: &[Vec<Vec<P>>], kind: Defect) -> (r: Vec<Vec<Vec<P>>>)
    requires
        shapes_in_range(shapes_view(s@)),
    ensures
        shapes_outcome(kind, shapes_view(s@), shapes_view(r@)),
{
    let ghost sv = shapes_view(s@);
    let ghost mut outs: Seq<Option<Seq<Seq<P>>>> = Seq::empty();
    let mut shapes: Vec<Vec<Vec<P>>> = Vec::with_capacity(s.len());
    let mut j: usize = 0;
    while j < s.len()
        invariant
            j <= s@.len(),
            sv == shapes_view(s@),
            shapes_in_range(sv),
            outs.len() == j,
            forall|a: int| 0 <= a < j ==> shape_outcome(kind, sv[a], #[trigger] outs[a]),
            shapes_view(shapes@) == keep_some(outs),
        decreases s@.len() - j,
    {
        assert(shape_in_range(sv[j as int]));
        let r = repaired_shape(s[j].as_slice(), kind);
        let ghost o = opt_shape_view(r);
        proof {
            lemma_keep_some_push(outs, o);
        }
        match r {
            Some(v) => {
                proof {
                    assert(shapes_view(shapes@.push(v)) =~= shapes_view(shapes@).push(shape_view(v@)));
                }
                shapes.push(v);
            },
            None => {},
        }
        proof {
            outs = outs.push(o);
        }
        j += 1;
    }
    proof {
        assert(outs =~= Seq::new(sv.len(), |a: int| shape_repaired_spec(kind, sv[a])));
    }
    shapes
}

/// A contour left empty stands for no contour.
pub open spec fn nonempty<P>(c: Seq<P>) -> Option<Seq<P>> {
    if c.len() == 0 {
        None
    } else {
        Some(c)
    }
}

/// A shape left empty stands for a discarded shape, unless it was empty before.
pub open spec fn kept_shape<P>(before: Seq<Seq<P>>, after: Seq<Seq<P>>) -> Option<Seq<Seq<P>>> {
    if after.len() == 0 && before.len() > 0 {
        None
    } else {
        Some(after)
    }
}

/// Repairs the contour in place; a contour that degenerates is left empty.
/// Returns whether the contour had a defect.
pub fn repair_contour_in_place<P: LatticePoint>(c: &mut Vec<P>, kind: Defect) -> (changed: bool)
    requires
        all_in_range(old(c)@),
    ensures
        changed == !contour_clean(kind, old(c)@),
        contour_outcome(kind, old(c)@, nonempty(final(c)@)),
{
    match repair(c.as_slice(), kind) {
        Repair::Unchanged => false,
        Repair::Repaired(v) => {
            *c = v;
            true
        },
        Repair::Degenerate => {
            c.clear();
            true
        },
    }
}

/// Repairs every contour of the shape in place. Holes that degenerate are
/// taken out; when the outer contour degenerates the shape is left empty.
/// Returns whether any contour had a defect.
pub fn repair_shape_in_place<P: LatticePoint>(s: &mut Vec<Vec<P>>, kind: Defect) -> (changed: bool)
    requires
        shape_in_range(shape_view(old(s)@)),
    ensures
        changed == !shape_clean(kind, shape_view(old(s)@)),
        !changed ==> final(s)@ == old(s)@,
        changed ==> shape_outcome(kind, shape_view(old(s)@), kept_shape(shape_view(old(s)@), shape_view(final(s)@))),
{
    if shape_has_no_defects(s.as_slice(), kind) {
        return false;
    }
    match repaired_shape(s.as_slice(), kind) {
        Some(v) => {
            proof {
                let sv = shape_view(s@);
                if sv.len() > 0 {
                    let outs = Seq::new(sv.len(), |a: int| repaired_spec(kind, sv[a]));
                    assert(outs[0] is Some);
                    lemma_keep_some_first(outs);
                }
            }
            *s = v;
        },
        None => {
            *s = Vec::new();
        },
    }
    true
}

/// Repairs every shape of the collection in place; shapes whose outer
/// contour degenerates are taken out. Returns whether any contour had a defect.
pub fn repair_shapes_in_place<P: LatticePoint>(s: &mut Vec<Vec<Vec<P>>>, kind: Defect) -> (changed: bool)
    requires
        shapes_in_range(shapes_view(old(s)@)),
    ensures
        changed == !shapes_clean(kind, shapes_view(old(s)@)),
        !changed ==> final(s)@ == old(s)@,
        changed ==> shapes_outcome(kind, shapes_view(old(s)@), shapes_view(final(s)@)),
{
    if shapes_have_no_defects(s.as_slice(), kind) {
        return false;
    }
    *s = repaired_shapes(s.as_slice(), kind);
    true
}

} // verus!
