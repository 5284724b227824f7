//! Counting: factorials, Catalan numbers, saturating products, and the
//! order in which permutations are enumerated.
use vstd::prelude::*;

verus! {

/// `n!`.
pub open spec fn factorial_spec(n: nat) -> nat
    decreases n,
{
    if n == 0 {
        1
    } else {
        n * factorial_spec((n - 1) as nat)
    }
}

/// Factorials are positive and grow with their argument.
pub proof fn lemma_factorial_mono(m: nat, n: nat)
    requires
        m <= n,
    ensures
        1 <= factorial_spec(m) <= factorial_spec(n),
    decreases n,
{
    if n == 0 {
    } else if m == n {
        lemma_factorial_mono((n - 1) as nat, (n - 1) as nat);
        assert(n * factorial_spec((n - 1) as nat) >= 1) by (nonlinear_arith)
            requires
                n >= 1,
                factorial_spec((n - 1) as nat) >= 1,
        ;
    } else {
        lemma_factorial_mono(m, (n - 1) as nat);
        let f = factorial_spec((n - 1) as nat);
        assert(n * f >= f) by (nonlinear_arith)
            requires
                n >= 1,
                f >= 1,
        ;
    }
}

/// From three on, `n!` is at least `2n`.
pub proof fn lemma_factorial_ge_double(n: nat)
    requires
        n >= 3,
    ensures
        factorial_spec(n) >= 2 * n,
    decreases n,
{
    if n == 3 {
        assert(factorial_spec(0) == 1);
        assert(factorial_spec(1) == 1);
        assert(factorial_spec(2) == 2);
        assert(factorial_spec(3) == 6);
    } else {
        lemma_factorial_ge_double((n - 1) as nat);
        let f = factorial_spec((n - 1) as nat);
        assert(n * f >= 2 * n) by (nonlinear_arith)
            requires
                f >= 2 * (n - 1),
                n >= 4,
        ;
    }
}

/// `value!`, computed as the product `1 * 2 * ... * value`.
pub fn factorial(value: usize) -> (r: usize)
    requires
        factorial_spec(value as nat) <= usize::MAX,
    ensures
        r == factorial_spec(value as nat),
{
    let mut acc: usize = 1;
    let mut i: usize = 0;
    while i < value
        invariant
            i <= value,
            acc == factorial_spec(i as nat),
            factorial_spec(value as nat) <= usize::MAX,
        decreases value - i,
    {
        i = i + 1;
        proof {
            lemma_factorial_mono(i as nat, value as nat);
        }
        assert(factorial_spec(i as nat) == i * factorial_spec((i - 1) as nat));
        acc = i * acc;
    }
    acc
}

/// `a * b`, or `usize::MAX` where the product does not fit.
pub open spec fn sat_mul_spec(a: int, b: int) -> int {
    if a * b > usize::MAX {
        usize::MAX as int
    } else {
        a * b
    }
}

/// `a * b`, or `usize::MAX` where the product does not fit.
pub fn sat_mul(a: usize, b: usize) -> (r: usize)
    ensures
        r == sat_mul_spec(a as int, b as int),
{
    match a.checked_mul(b) {
        Some(p) => p,
        None => usize::MAX,
    }
}

/// The `n`-th Catalan number.
pub open spec fn catalan_spec(n: nat) -> nat
    decreases n, n + 1,
{
    if n == 0 {
        1
    } else {
        catalan_sum(n, n)
    }
}

/// `catalan(0) * catalan(n - 1) + ... + catalan(l - 1) * catalan(n - l)`.
pub open spec fn catalan_sum(n: nat, l: nat) -> nat
    decreases n, l,
{
    if l == 0 || l > n {
        0
    } else {
        catalan_sum(n, (l - 1) as nat) + catalan_spec((l - 1) as nat) * catalan_spec(
            (n - l) as nat,
        )
    }
}

/// Partial Catalan sums grow with their length.
proof fn lemma_catalan_sum_mono(n: nat, l: nat, m: nat)
    requires
        l <= m <= n,
    ensures
        catalan_sum(n, l) <= catalan_sum(n, m),
    decreases m,
{
    if l < m {
        lemma_catalan_sum_mono(n, l, (m - 1) as nat);
        let a = catalan_spec((m - 1) as nat);
        let b = catalan_spec((n - m) as nat);
        assert(a * b >= 0) by (nonlinear_arith);
    }
}

/// Catalan numbers are positive and grow with their index.
pub proof fn lemma_catalan_mono(m: nat, n: nat)
    requires
        m <= n,
    ensures
        1 <= catalan_spec(m) <= catalan_spec(n),
    decreases n,
{
    if n == 0 {
    } else if m == n {
        lemma_catalan_mono(0, (n - 1) as nat);
        lemma_catalan_sum_mono(n, 1, n);
        assert(catalan_sum(n, 0) == 0);
        assert(catalan_sum(n, 1) == catalan_spec(0) * catalan_spec((n - 1) as nat));
        let c = catalan_spec((n - 1) as nat);
        assert(1 * c == c);
    } else {
        lemma_catalan_mono(m, (n - 1) as nat);
        lemma_catalan_mono(0, (n - 1) as nat);
        lemma_catalan_sum_mono(n, 1, n);
        let c = catalan_spec((n - 1) as nat);
        assert(catalan_sum(n, 0) == 0);
        assert(catalan_sum(n, 1) == catalan_spec(0) * c);
        assert(1 * c == c);
    }
}

/// The Catalan number at `index`, from the recurrence
/// `C(0) = 1`, `C(n) = C(0) C(n-1) + ... + C(n-1) C(0)`.
pub fn catalan(index: usize) -> (r: usize)
    requires
        catalan_spec(index as nat) <= usize::MAX,
    ensures
        r == catalan_spec(index as nat),
{
    let mut values: Vec<usize> = Vec::new();
    values.push(1);
    while values.len() <= index
        invariant
            1 <= values@.len() <= index + 1,
            forall|j: int| 0 <= j < values@.len() ==> #[trigger] values@[j] == catalan_spec(
                j as nat,
            ),
            catalan_spec(index as nat) <= usize::MAX,
        decreases index + 1 - values@.len(),
    {
        let n = values.len();
        proof {
            lemma_catalan_mono(n as nat, index as nat);
        }
        let mut sum: usize = 0;
        let mut left: usize = 0;
        while left < n
            invariant
                1 <= n <= index,
                left <= n,
                values@.len() == n,
                forall|j: int| 0 <= j < n ==> #[trigger] values@[j] == catalan_spec(j as nat),
                sum == catalan_sum(n as nat, left as nat),
                catalan_spec(n as nat) <= usize::MAX,
            decreases n - left,
        {
            proof {
                lemma_catalan_sum_mono(n as nat, (left + 1) as nat, n as nat);
            }
            let p = sat_mul(values[left], values[n - 1 - left]);
            sum = sum + p;
            left = left + 1;
        }
        values.push(sum);
    }
    values[index]
}

/// Every sequence of `s.map_values(|p| [v] + p)`.
pub open spec fn prepend_all<A>(v: A, s: Seq<Seq<A>>) -> Seq<Seq<A>> {
    s.map_values(|p: Seq<A>| seq![v] + p)
}

/// The permutations of `r` in the order of a depth-first enumeration that
/// picks the first remaining element first.
pub open spec fn perms<A>(r: Seq<A>) -> Seq<Seq<A>>
    decreases r.len(), r.len() + 1,
{
    if r.len() == 0 {
        seq![Seq::<A>::empty()]
    } else {
        perm_blocks(r, r.len())
    }
}

/// The permutations of `r` that start with one of `r[0]`, ..., `r[k - 1]`.
pub open spec fn perm_blocks<A>(r: Seq<A>, k: nat) -> Seq<Seq<A>>
    decreases r.len(), k,
{
    if k == 0 || k > r.len() {
        Seq::empty()
    } else {
        perm_blocks(r, (k - 1) as nat) + prepend_all(r[k - 1], perms(r.remove(k - 1)))
    }
}

/// There are `n!` permutations of `n` elements.
pub proof fn lemma_perms_len<A>(r: Seq<A>)
    ensures
        perms(r).len() == factorial_spec(r.len()),
    decreases r.len(), r.len() + 1,
{
    if r.len() > 0 {
        lemma_perm_blocks_len(r, r.len());
    }
}

proof fn lemma_perm_blocks_len<A>(r: Seq<A>, k: nat)
    requires
        1 <= r.len(),
        k <= r.len(),
    ensures
        perm_blocks(r, k).len() == k * factorial_spec((r.len() - 1) as nat),
    decreases r.len(), k,
{
    let f = factorial_spec((r.len() - 1) as nat);
    if k > 0 {
        lemma_perm_blocks_len(r, (k - 1) as nat);
        lemma_perms_len(r.remove(k - 1));
        assert(r.remove(k - 1).len() == r.len() - 1);
        let block = prepend_all(r[k - 1], perms(r.remove(k - 1)));
        assert(block.len() == perms(r.remove(k - 1)).len());
        assert(perm_blocks(r, k) == perm_blocks(r, (k - 1) as nat) + block);
        assert(block.len() == f);
        let km: nat = (k - 1) as nat;
        assert(km * f + f == k * f) by (nonlinear_arith)
            requires
                km + 1 == k,
        ;
    } else {
        assert(0 * f == 0) by (nonlinear_arith);
    }
}

/// How many times `x` occurs in `s`.
pub open spec fn occ<A>(s: Seq<A>, x: A) -> nat
    decreases s.len(),
{
    if s.len() == 0 {
        0
    } else {
        occ(s.drop_last(), x) + if s.last() == x {
            1nat
        } else {
            0nat
        }
    }
}

/// Occurrences add up over a concatenation.
pub proof fn lemma_occ_concat<A>(a: Seq<A>, b: Seq<A>, x: A)
    ensures
        occ(a + b, x) == occ(a, x) + occ(b, x),
    decreases b.len(),
{
    if b.len() == 0 {
        assert(a + b =~= a);
    } else {
        assert((a + b).drop_last() =~= a + b.drop_last());
        lemma_occ_concat(a, b.drop_last(), x);
    }
}

/// Occurrences among sequences that all start with `v`.
pub proof fn lemma_occ_prepend<A>(v: A, s: Seq<Seq<A>>, x: Seq<A>)
    ensures
        occ(prepend_all(v, s), x) == if x.len() > 0 && x[0] == v {
            occ(s, x.drop_first())
        } else {
            0
        },
    decreases s.len(),
{
    if s.len() > 0 {
        assert(prepend_all(v, s).drop_last() =~= prepend_all(v, s.drop_last()));
        lemma_occ_prepend(v, s.drop_last(), x);
        let p = s.last();
        assert(prepend_all(v, s).last() == seq![v] + p);
        if seq![v] + p == x {
            assert(x[0] == v);
            assert(x.drop_first() =~= p);
        }
        if x.len() > 0 && x[0] == v && p == x.drop_first() {
            assert(seq![v] + p =~= x);
        }
    }
}

/// `x` arranges the elements of `r`, each once.
pub open spec fn is_arrangement_of<A>(x: Seq<A>, r: Seq<A>) -> bool {
    &&& x.len() == r.len()
    &&& x.no_duplicates()
    &&& forall|i: int| 0 <= i < x.len() ==> r.contains(#[trigger] x[i])
}

/// Each arrangement of distinct elements is enumerated exactly once.
pub proof fn lemma_perms_unique<A>(r: Seq<A>, x: Seq<A>)
    requires
        r.no_duplicates(),
        is_arrangement_of(x, r),
    ensures
        occ(perms(r), x) == 1,
    decreases r.len(), r.len() + 1,
{
    if r.len() == 0 {
        assert(x =~= Seq::<A>::empty());
        assert(perms(r).drop_last() =~= Seq::<Seq<A>>::empty());
        assert(occ(Seq::<Seq<A>>::empty(), x) == 0);
    } else {
        assert(r.contains(x[0]));
        let j = choose|j: int| 0 <= j < r.len() && r[j] == x[0];
        assert(0 <= j < r.len() && r[j] == x[0]);
        lemma_perm_blocks_unique(r, r.len(), x);
    }
}

proof fn lemma_perm_blocks_unique<A>(r: Seq<A>, k: nat, x: Seq<A>)
    requires
        r.no_duplicates(),
        is_arrangement_of(x, r),
        1 <= r.len(),
        k <= r.len(),
    ensures
        occ(perm_blocks(r, k), x) == if exists|i: int| 0 <= i < k && r[i] == x[0] {
            1nat
        } else {
            0nat
        },
    decreases r.len(), k,
{
    if k == 0 {
    } else {
        let i = k - 1;
        lemma_perm_blocks_unique(r, (k - 1) as nat, x);
        lemma_occ_concat(
            perm_blocks(r, (k - 1) as nat),
            prepend_all(r[i], perms(r.remove(i))),
            x,
        );
        lemma_occ_prepend(r[i], perms(r.remove(i)), x);
        if r[i] == x[0] {
            let rr = r.remove(i);
            let xx = x.drop_first();
            assert(rr.no_duplicates());
            assert forall|j: int| 0 <= j < xx.len() implies rr.contains(#[trigger] xx[j]) by {
                assert(xx[j] == x[j + 1]);
                assert(r.contains(x[j + 1]));
                let m = choose|m: int| 0 <= m < r.len() && r[m] == x[j + 1];
                assert(x[j + 1] != x[0]);
                assert(m != i);
                if m < i {
                    assert(rr[m] == r[m]);
                } else {
                    assert(rr[m - 1] == r[m]);
                }
            }
            lemma_perms_unique(rr, xx);
            assert forall|j: int| 0 <= j < k - 1 implies r[j] != x[0] by {
                assert(r[j] != r[i]);
            }
        }
    }
}

} // verus!
