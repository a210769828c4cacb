use vstd::prelude::*;

verus! {

/// Position before `a` in a ring of `n` positions.
pub open spec fn prv(a: int, n: int) -> int {
    if a == 0 {
        n - 1
    } else {
        a - 1
    }
}

/// Position after `a` in a ring of `n` positions.
pub open spec fn nxt(a: int, n: int) -> int {
    if a + 1 == n {
        0
    } else {
        a + 1
    }
}

/// `s` with the element at position `k` taken out.
pub open spec fn drop_at<T>(s: Seq<T>, k: int) -> Seq<T> {
    Seq::new((s.len() - 1) as nat, |a: int| if a < k { s[a] } else { s[a + 1] })
}

/// Doubled signed area of the triangle spanned by the origin, `p` and `q`
/// (the shoelace term of the edge from `q` to `p`).
pub open spec fn wedge(p: (int, int), q: (int, int)) -> int {
    p.0 * q.1 - p.1 * q.0
}

/// Shoelace sum along the open chain `s[0], s[1], ..., s[len - 1]`.
pub open spec fn chain_area(s: Seq<(int, int)>) -> int
    decreases s.len(),
{
    if s.len() < 2 {
        0
    } else {
        chain_area(s.drop_last()) + wedge(s.last(), s[s.len() - 2])
    }
}

/// Doubled signed area of the closed ring `s` (shoelace formula):
/// positive for a clockwise ring, negative for a counter-clockwise one.
pub open spec fn ring_area(s: Seq<(int, int)>) -> int {
    if s.len() == 0 {
        0
    } else {
        chain_area(s) + wedge(s[0], s.last())
    }
}

/// `r` is `s` with some elements taken out and the rest kept in order.
pub open spec fn is_subsequence<T>(r: Seq<T>, s: Seq<T>) -> bool {
    exists|idx: Seq<int>|
        idx.len() == r.len() && (forall|a: int, b: int|
            0 <= a < b < idx.len() ==> #[trigger] idx[a] < #[trigger] idx[b]) && (forall|a: int|
            0 <= a < idx.len() ==> 0 <= #[trigger] idx[a] < s.len() && r[a] == s[idx[a]])
}

pub proof fn lemma_chain_concat(a: Seq<(int, int)>, b: Seq<(int, int)>)
    requires
        a.len() >= 1,
        b.len() >= 1,
    ensures
        chain_area(a + b) == chain_area(a) + chain_area(b) + wedge(b[0], a.last()),
    decreases b.len(),
{
    if b.len() == 1 {
        assert((a + b).drop_last() =~= a);
    } else {
        lemma_chain_concat(a, b.drop_last());
        assert((a + b).drop_last() =~= a + b.drop_last());
    }
}

/// The area of a ring changes, when one point is taken out, by the doubled
/// area of the triangle that the point formed with its neighbours.
pub proof fn lemma_ring_area_drop(s: Seq<(int, int)>, k: int)
    requires
        s.len() >= 3,
        0 <= k < s.len(),
    ensures
        ({
            let p = s[prv(k, s.len() as int)];
            let x = s[k];
            let q = s[nxt(k, s.len() as int)];
            ring_area(s) - ring_area(drop_at(s, k)) == wedge(x, p) + wedge(q, x) - wedge(q, p)
        }),
{
    let n = s.len() as int;
    let x = seq![s[k]];
    if k == 0 {
        let b = s.subrange(1, n);
        assert(s =~= x + b);
        assert(drop_at(s, k) =~= b);
        lemma_chain_concat(x, b);
        assert(chain_area(x) == 0);
    } else if k == n - 1 {
        let a = s.subrange(0, k);
        assert(s =~= a + x);
        assert(drop_at(s, k) =~= a);
        lemma_chain_concat(a, x);
        assert(chain_area(x) == 0);
    } else {
        let a = s.subrange(0, k);
        let b = s.subrange(k + 1, n);
        assert(s =~= a + (x + b));
        assert(drop_at(s, k) =~= a + b);
        lemma_chain_concat(a, x + b);
        lemma_chain_concat(x, b);
        lemma_chain_concat(a, b);
        assert(chain_area(x) == 0);
    }
}

/// A ring of fewer than three points encloses no area.
pub proof fn lemma_ring_area_small(s: Seq<(int, int)>)
    requires
        s.len() < 3,
    ensures
        ring_area(s) == 0,
{
    reveal_with_fuel(chain_area, 3);
    if s.len() == 2 {
        assert(s.drop_last().len() == 1);
        assert(wedge(s[1], s[0]) + wedge(s[0], s[1]) == 0) by (nonlinear_arith);
    } else if s.len() == 1 {
        assert(wedge(s[0], s[0]) == 0) by (nonlinear_arith);
    }
}

/// `v` wrapped to 64 bits: the value in `[-2^63, 2^63)` that differs from `v`
/// by a multiple of `2^64`, as two's-complement wrapping arithmetic gives.
pub open spec fn wrap64(v: int) -> int {
    v - ((v + 0x8000_0000_0000_0000) / 0x1_0000_0000_0000_0000) * 0x1_0000_0000_0000_0000
}

/// The value in `[-2^63, 2^63)` that differs from `v` by a multiple of `2^64` is `wrap64(v)`.
pub proof fn lemma_wrap64_unique(v: int, w: int, k: int)
    requires
        -0x8000_0000_0000_0000 <= w < 0x8000_0000_0000_0000,
        v == w + k * 0x1_0000_0000_0000_0000,
    ensures
        wrap64(v) == w,
{
    vstd::arithmetic::div_mod::lemma_fundamental_div_mod_converse(
        v + 0x8000_0000_0000_0000,
        0x1_0000_0000_0000_0000,
        k,
        w + 0x8000_0000_0000_0000,
    );
}

/// `wrap64(v)` lies in `[-2^63, 2^63)` and differs from `v` by a multiple of `2^64`.
pub proof fn lemma_wrap64_range(v: int)
    ensures
        -0x8000_0000_0000_0000 <= wrap64(v) < 0x8000_0000_0000_0000,
        v == wrap64(v) + ((v + 0x8000_0000_0000_0000) / 0x1_0000_0000_0000_0000) * 0x1_0000_0000_0000_0000,
{
    vstd::arithmetic::div_mod::lemma_fundamental_div_mod(v + 0x8000_0000_0000_0000, 0x1_0000_0000_0000_0000);
    assert(0 <= (v + 0x8000_0000_0000_0000) % 0x1_0000_0000_0000_0000 < 0x1_0000_0000_0000_0000);
}

/// `v` wrapped to 64 bits.
pub fn wrap_to_i64(v: i128) -> (r: i64)
    requires
        -0x7fff_ffff_ffff_ffff_8000_0000_0000_0000 <= v <= 0x7fff_ffff_ffff_ffff_8000_0000_0000_0000,
    ensures
        r as int == wrap64(v as int),
{
    let m: i128 = 0x1_0000_0000_0000_0000;
    let q = v / m;
    proof {
        if v >= 0 {
            assert(0 <= v - q * m < m);
        } else {
            assert(-m < v - q * m <= 0);
        }
    }
    let rem = v - q * m;
    let w: i128 = if rem >= 0x8000_0000_0000_0000 {
        rem - m
    } else if rem < -0x8000_0000_0000_0000 {
        rem + m
    } else {
        rem
    };
    proof {
        if rem >= 0x8000_0000_0000_0000 {
            lemma_wrap64_unique(v as int, w as int, q + 1);
        } else if rem < -0x8000_0000_0000_0000 {
            lemma_wrap64_unique(v as int, w as int, q - 1);
        } else {
            lemma_wrap64_unique(v as int, w as int, q as int);
        }
    }
    w as i64
}

} // verus!
