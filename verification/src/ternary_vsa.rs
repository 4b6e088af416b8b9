//! Ternary hypervectors: binding and bundling.
use vstd::prelude::*;
use rand::rngs::StdRng;
use crate::bridge::sample_below;

verus! {

/// The dimension of the vectors a ternary vector space draws.
#[derive(Debug, Clone, Copy)]
pub struct TernaryVSA {
    pub dim: usize,
}

pub fn new(dim: usize) -> (v: TernaryVSA)
    ensures
        v.dim == dim,
{
    TernaryVSA { dim }
}

/// Every element is -1, 0 or 1.
pub open spec fn ternary(v: Seq<i8>) -> bool {
    forall|i: int| 0 <= i < v.len() ==> #[trigger] v[i] == -1 || v[i] == 0 || v[i] == 1
}

/// The trit a draw from `0..3` stands for: 0 gives -1, 1 gives 0, and
/// anything else gives 1.
pub fn trit_from_draw(d: u8) -> (t: i8)
    ensures
        t == (if d == 0 { -1i8 } else if d == 1 { 0i8 } else { 1i8 }),
{
    match d {
        0 => -1,
        1 => 0,
        _ => 1,
    }
}

/// The sign a draw from `0..2` stands for: 0 gives -1, anything else 1.
pub fn sign_from_draw(d: u8) -> (t: i8)
    ensures
        t == (if d == 0 { -1i8 } else { 1i8 }),
{
    if d == 0 {
        -1
    } else {
        1
    }
}

impl TernaryVSA {
    /// A random vector of `dim` trits, each drawn uniformly from -1, 0, 1.
    pub fn random_vec(&self, rng: &mut StdRng) -> (v: Vec<i8>)
        ensures
            v@.len() == self.dim,
            ternary(v@),
    {
        let mut v: Vec<i8> = Vec::new();
        let mut i: usize = 0;
        while i < self.dim
            invariant
                0 <= i <= self.dim,
                v@.len() == i,
                ternary(v@),
            decreases self.dim - i,
        {
            let d = sample_below(rng, 3);
            v.push(trit_from_draw(d));
            i += 1;
        }
        v
    }

    /// A random vector of `dim` signs, each drawn uniformly from -1, 1.
    pub fn random_bipolar(&self, rng: &mut StdRng) -> (v: Vec<i8>)
        ensures
            v@.len() == self.dim,
            bipolar(v@),
    {
        let mut v: Vec<i8> = Vec::new();
        let mut i: usize = 0;
        while i < self.dim
            invariant
                0 <= i <= self.dim,
                v@.len() == i,
                bipolar(v@),
            decreases self.dim - i,
        {
            let d = sample_below(rng, 2);
            v.push(sign_from_draw(d));
            i += 1;
        }
        v
    }
}

/// The element-wise product of `a` and `b`, as long as the shorter.
pub open spec fn spec_bind(a: Seq<i8>, b: Seq<i8>) -> Seq<i8> {
    let n = if a.len() <= b.len() { a.len() } else { b.len() };
    Seq::new(n, |i: int| (a[i] * b[i]) as i8)
}

/// Every element-wise product of `a` and `b` fits in an `i8`.
pub open spec fn products_fit(a: Seq<i8>, b: Seq<i8>) -> bool {
    forall|i: int| 0 <= i < a.len() && i < b.len() ==> -128 <= #[trigger] a[i] * b[i] <= 127
}

pub fn bind(a: &[i8], b: &[i8]) -> (r: Vec<i8>)
    requires
        products_fit(a@, b@),
    ensures
        r@ == spec_bind(a@, b@),
{
    let n = if a.len() <= b.len() {
        a.len()
    } else {
        b.len()
    };
    let mut r: Vec<i8> = Vec::new();
    let mut i: usize = 0;
    while i < n
        invariant
            0 <= i <= n,
            n == if a@.len() <= b@.len() { a@.len() } else { b@.len() },
            products_fit(a@, b@),
            r@.len() == i,
            forall|k: int| 0 <= k < i ==> #[trigger] r@[k] == (a@[k] * b@[k]) as i8,
        decreases n - i,
    {
        assert(-128 <= a@[i as int] * b@[i as int] <= 127);
        r.push(a[i] * b[i]);
        i += 1;
    }
    assert(r@ =~= spec_bind(a@, b@));
    r
}

/// Unbinding is binding again.
pub fn unbind(a: &[i8], b: &[i8]) -> (r: Vec<i8>)
    requires
        products_fit(a@, b@),
    ensures
        r@ == spec_bind(a@, b@),
{
    bind(a, b)
}

/// Every element is -1 or 1.
pub open spec fn bipolar(v: Seq<i8>) -> bool {
    forall|i: int| 0 <= i < v.len() ==> #[trigger] v[i] == 1 || v[i] == -1
}

/// Unbinding with a bipolar key gives back what was bound with it.
pub proof fn law_unbind_inverts_bind(x: Seq<i8>, y: Seq<i8>)
    requires
        bipolar(y),
        x.len() == y.len(),
        forall|i: int| 0 <= i < x.len() ==> -127 <= #[trigger] x[i] <= 127,
    ensures
        products_fit(x, y),
        products_fit(spec_bind(x, y), y),
        spec_bind(spec_bind(x, y), y) == x,
{
    let b = spec_bind(x, y);
    assert forall|i: int| 0 <= i < x.len() && i < y.len() implies -128 <= #[trigger] x[i] * y[i] <= 127 by {
        if y[i] == 1 {
            assert(x[i] * y[i] == x[i]);
        } else {
            assert(x[i] * y[i] == -x[i]);
        }
    }
    assert forall|i: int| 0 <= i < b.len() && i < y.len() implies -128 <= #[trigger] b[i] * y[i] <= 127 by {
        if y[i] == 1 {
            assert(x[i] * y[i] == x[i]);
            assert(b[i] * y[i] == b[i]);
        } else {
            assert(x[i] * y[i] == -x[i]);
            assert(b[i] * y[i] == -b[i]);
        }
    }
    assert forall|i: int| 0 <= i < x.len() implies #[trigger] spec_bind(b, y)[i] == x[i] by {
        if y[i] == 1 {
            assert(x[i] * y[i] == x[i]);
            assert(b[i] * y[i] == b[i]);
        } else {
            assert(x[i] * y[i] == -x[i]);
            assert(b[i] * y[i] == -b[i]);
        }
    }
    assert(spec_bind(b, y) =~= x);
}

/// The sum of element `i` over `vs` (vectors shorter than `i + 1` add 0).
pub open spec fn column_sum(vs: Seq<Seq<i8>>, i: int) -> int
    decreases vs.len(),
{
    if vs.len() == 0 {
        0
    } else {
        column_sum(vs.drop_last(), i) + if i < vs.last().len() { vs.last()[i] as int } else { 0 }
    }
}

pub open spec fn sign(x: int) -> i8 {
    if x > 0 {
        1i8
    } else if x < 0 {
        -1i8
    } else {
        0i8
    }
}

/// The bundle of `vs`: the sign of each column sum, as long as the first
/// vector; nothing when there is no vector.
pub open spec fn spec_unify(vs: Seq<Seq<i8>>) -> Seq<i8> {
    if vs.len() == 0 {
        seq![]
    } else {
        Seq::new(vs[0].len(), |i: int| sign(column_sum(vs, i)))
    }
}

proof fn lemma_column_sum_bound(vs: Seq<Seq<i8>>, i: int)
    ensures
        -128 * vs.len() <= column_sum(vs, i) <= 127 * vs.len(),
    decreases vs.len(),
{
    if vs.len() > 0 {
        lemma_column_sum_bound(vs.drop_last(), i);
    }
}

pub fn unify(vectors: &[Vec<i8>]) -> (r: Vec<i8>)
    requires
        vectors@.len() > 0 ==> forall|k: int| 0 <= k < vectors@.len() ==> (#[trigger] vectors@[k])@.len() <= vectors@[0]@.len(),
        vectors@.len() <= 0x100_0000,
    ensures
        r@ == spec_unify(vectors@.map_values(|v: Vec<i8>| v@)),
{
    let ghost vs = vectors@.map_values(|v: Vec<i8>| v@);
    if vectors.len() == 0 {
        return Vec::new();
    }
    let dim = vectors[0].len();
    let mut sum: Vec<i32> = Vec::new();
    let mut j: usize = 0;
    while j < dim
        invariant
            0 <= j <= dim,
            sum@.len() == j,
            forall|i: int| 0 <= i < j ==> #[trigger] sum@[i] == 0,
        decreases dim - j,
    {
        sum.push(0);
        j += 1;
    }
    let mut k: usize = 0;
    while k < vectors.len()
        invariant
            0 < vectors@.len() <= 0x100_0000,
            0 <= k <= vectors@.len(),
            dim == vectors@[0]@.len(),
            vs == vectors@.map_values(|v: Vec<i8>| v@),
            forall|m: int| 0 <= m < vectors@.len() ==> (#[trigger] vectors@[m])@.len() <= dim,
            sum@.len() == dim,
            forall|i: int| 0 <= i < dim ==> #[trigger] sum@[i] as int == column_sum(vs.take(k as int), i),
        decreases vectors.len() - k,
    {
        let v = &vectors[k];
        let ghost before = sum@;
        assert(vs.take(k + 1).drop_last() =~= vs.take(k as int));
        assert(vs.take(k + 1).last() == v@);
        let mut i: usize = 0;
        while i < v.len()
            invariant
                0 < vectors@.len() <= 0x100_0000,
                0 <= k < vectors@.len(),
                v@ == vectors@[k as int]@,
                vs == vectors@.map_values(|v: Vec<i8>| v@),
                v@.len() <= dim,
                0 <= i <= v@.len(),
                sum@.len() == dim,
                forall|q: int| 0 <= q < dim ==> #[trigger] before[q] as int == column_sum(vs.take(k as int), q),
                forall|q: int| 0 <= q < i ==> #[trigger] sum@[q] as int == before[q] + v@[q],
                forall|q: int| i <= q < dim ==> #[trigger] sum@[q] == before[q],
            decreases v.len() - i,
        {
            proof {
                lemma_column_sum_bound(vs.take(k as int), i as int);
                assert(vs.take(k as int).len() == k);
                assert(sum@[i as int] == before[i as int]);
                assert(-128 * k <= sum@[i as int] <= 127 * k);
            }
            sum.set(i, sum[i] + v[i] as i32);
            i += 1;
        }
        assert forall|q: int| 0 <= q < dim implies #[trigger] sum@[q] as int == column_sum(vs.take(k + 1), q) by {
            if q < v@.len() {
                assert(sum@[q] as int == before[q] + v@[q]);
            } else {
                assert(sum@[q] == before[q]);
            }
        }
        k += 1;
    }
    assert(vs.take(vectors@.len() as int) =~= vs);
    let mut r: Vec<i8> = Vec::new();
    let mut i: usize = 0;
    while i < dim
        invariant
            0 <= i <= dim,
            dim == vs[0].len(),
            vs.len() > 0,
            sum@.len() == dim,
            forall|q: int| 0 <= q < dim ==> #[trigger] sum@[q] as int == column_sum(vs, q),
            r@.len() == i,
            forall|q: int| 0 <= q < i ==> #[trigger] r@[q] == sign(column_sum(vs, q)),
        decreases dim - i,
    {
        let s = sum[i];
        r.push(if s > 0 {
            1
        } else if s < 0 {
            -1
        } else {
            0
        });
        i += 1;
    }
    assert(r@ =~= spec_unify(vs));
    r
}

} // verus!
