//! Zernike mode indices in Noll order.
//!
//! A modal disturbance with `L` coefficients pairs coefficient `i` with the
//! `i`-th mode of the canonical (Noll) ordering. The table is taken from the
//! smallest radial order `N` whose `N(N+1)/2` modes cover the coefficients.
use vstd::prelude::*;

verus! {

/// Number of modes of radial order below `n`: `n(n+1)/2`.
pub open spec fn triangular(n: nat) -> nat {
    n * (n + 1) / 2
}

/// Azimuthal order of the mode at offset `o` within radial order `n`.
///
/// Even orders start with the `m = 0` mode and then carry the pairs
/// `m = 2, 2, 4, 4, ...`; odd orders carry the pairs `m = 1, 1, 3, 3, ...`.
pub open spec fn azimuthal_order(n: nat, o: nat) -> nat {
    if n % 2 == 0 {
        2 * ((o + 1) / 2)
    } else {
        2 * (o / 2) + 1
    }
}

/// The `n + 1` modes `(j, n, m)` of radial order `n`.
pub open spec fn mode_row(n: nat) -> Seq<(nat, nat, nat)> {
    Seq::new(n + 1, |o: int| ((triangular(n) + o + 1) as nat, n, azimuthal_order(n, o as nat)))
}

/// All modes of radial order below `order`, in Noll order.
pub open spec fn modes_upto(order: nat) -> Seq<(nat, nat, nat)>
    decreases order,
{
    if order == 0 {
        Seq::empty()
    } else {
        modes_upto((order - 1) as nat) + mode_row((order - 1) as nat)
    }
}

/// `n` is the smallest radial order whose modes number at least `l`.
pub open spec fn is_minimal_order(l: nat, n: nat) -> bool {
    &&& triangular(n) >= l
    &&& (n == 0 || triangular((n - 1) as nat) < l)
}

/// The first `l` modes of the canonical ordering.
pub open spec fn canonical_modes(l: nat) -> Seq<(nat, nat, nat)> {
    modes_upto(l).take(l as int)
}

/// A stored mode triple, seen as natural numbers.
pub open spec fn triple_view(t: (u32, u32, u32)) -> (nat, nat, nat) {
    (t.0 as nat, t.1 as nat, t.2 as nat)
}

/// The largest number of modes whose Noll indices all fit in a `u32`
/// (the count of modes below radial order 92681).
pub const MAX_MODES: u64 = 4_294_930_221;

pub proof fn lemma_triangular_step(n: nat)
    ensures
        triangular(n + 1) == triangular(n) + n + 1,
{
    assert((n + 1) * (n + 2) == n * (n + 1) + 2 * (n + 1)) by (nonlinear_arith);
}

pub proof fn lemma_triangular_monotonic(a: nat, b: nat)
    requires
        a <= b,
    ensures
        triangular(a) <= triangular(b),
        a <= triangular(a),
    decreases b - a,
{
    if a < b {
        lemma_triangular_step((b - 1) as nat);
        lemma_triangular_monotonic(a, (b - 1) as nat);
    }
    assert(a <= a * (a + 1) / 2) by (nonlinear_arith);
}

/// The modes below radial order `order` number exactly `order(order+1)/2`.
pub proof fn lemma_mode_count(order: nat)
    ensures
        modes_upto(order).len() == triangular(order),
    decreases order,
{
    if order > 0 {
        let p = (order - 1) as nat;
        lemma_mode_count(p);
        lemma_triangular_step(p);
        assert(triangular(order) == triangular(p) + p + 1);
    } else {
        assert(triangular(0) == 0);
    }
}

/// Raising the radial order only appends modes: the table of a lower order
/// is a prefix of the table of a higher one.
pub proof fn lemma_modes_prefix(a: nat, b: nat)
    requires
        a <= b,
    ensures
        modes_upto(a) == modes_upto(b).take(triangular(a) as int),
    decreases b - a,
{
    lemma_mode_count(a);
    lemma_mode_count(b);
    if a < b {
        lemma_modes_prefix(a, (b - 1) as nat);
        lemma_mode_count((b - 1) as nat);
        lemma_triangular_monotonic(a, (b - 1) as nat);
        assert(modes_upto(a) =~= modes_upto(b).take(triangular(a) as int));
    } else {
        assert(modes_upto(a) =~= modes_upto(b).take(triangular(a) as int));
    }
}

/// For every radial order whose modes cover `l` coefficients, the first `l`
/// modes of that order's table are the canonical first `l` modes.
pub proof fn lemma_canonical_prefix(l: nat, order: nat)
    requires
        l <= triangular(order),
    ensures
        canonical_modes(l) == modes_upto(order).take(l as int),
{
    lemma_triangular_monotonic(l, l);
    lemma_mode_count(l);
    lemma_mode_count(order);
    if l <= order {
        lemma_modes_prefix(l, order);
        lemma_triangular_monotonic(l, order);
        assert(canonical_modes(l) =~= modes_upto(order).take(l as int));
    } else {
        lemma_modes_prefix(order, l);
        lemma_triangular_monotonic(order, l);
        assert(canonical_modes(l) =~= modes_upto(order).take(l as int));
    }
}

/// Relies on zernike::jnm: the Noll indices `(j, n, m)` of every mode of
/// radial order below `order`, returned as three parallel vectors.
#[verifier::external_body]
fn noll_indices(order: u32) -> (r: (Vec<u32>, Vec<u32>, Vec<u32>))
    requires
        triangular(order as nat) <= u32::MAX,
    ensures
        r.0.len() == triangular(order as nat),
        r.1.len() == triangular(order as nat),
        r.2.len() == triangular(order as nat),
        forall|i: int|
            0 <= i < r.0.len() ==> (r.0[i] as nat, r.1[i] as nat, r.2[i] as nat)
                == #[trigger] modes_upto(order as nat)[i],
{
    zernike::jnm(order)
}

/// The smallest radial order `n` with `n(n+1)/2 >= l`.
pub fn min_radial_order(l: usize) -> (n: usize)
    ensures
        is_minimal_order(l as nat, n as nat),
{
    let mut n: usize = 0;
    let mut t: u128 = 0;
    while t < l as u128
        invariant
            t == triangular(n as nat),
            n <= l,
            n == 0 || triangular((n - 1) as nat) < l,
        decreases l - n,
    {
        proof {
            lemma_triangular_step(n as nat);
            lemma_triangular_monotonic(n as nat, n as nat);
        }
        n = n + 1;
        t = t + n as u128;
    }
    n
}

/// The mode table of a disturbance with `l` coefficients: the first `l`
/// modes of the canonical ordering, one per coefficient, in order.
pub fn mode_table(l: usize) -> (r: Vec<(u32, u32, u32)>)
    requires
        l <= MAX_MODES,
    ensures
        r.len() == l,
        forall|i: int| 0 <= i < l ==> triple_view(#[trigger] r[i]) == canonical_modes(l as nat)[i],
{
    let order = min_radial_order(l);
    proof {
        if order > 92681 {
            lemma_triangular_monotonic(92681, (order - 1) as nat);
        }
        lemma_triangular_monotonic(order as nat, 92681);
        lemma_canonical_prefix(l as nat, order as nat);
        lemma_mode_count(order as nat);
    }
    let (js, ns, ms) = noll_indices(order as u32);
    let mut r: Vec<(u32, u32, u32)> = Vec::new();
    let mut i: usize = 0;
    while i < l
        invariant
            i <= l,
            l <= js.len(),
            js.len() == ns.len(),
            js.len() == ms.len(),
            r.len() == i,
            forall|k: int|
                0 <= k < js.len() ==> (js[k] as nat, ns[k] as nat, ms[k] as nat)
                    == #[trigger] modes_upto(order as nat)[k],
            forall|k: int| 0 <= k < i ==> triple_view(#[trigger] r[k]) == modes_upto(order as nat)[k],
        decreases l - i,
    {
        r.push((js[i], ns[i], ms[i]));
        i = i + 1;
    }
    r
}

} // verus!
