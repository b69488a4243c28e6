use std::collections::HashSet;
use vstd::arithmetic::div_mod::lemma_add_mod_noop;
use vstd::prelude::*;

verus! {

broadcast use vstd::std_specs::hash::group_hash_axioms;

/// `s` with every value after its first occurrence removed, in first-occurrence order.
pub open spec fn dedup_of(s: Seq<u64>) -> Seq<u64>
    decreases s.len(),
{
    if s.len() == 0 {
        Seq::empty()
    } else {
        let prev = dedup_of(s.drop_last());
        if prev.contains(s.last()) {
            prev
        } else {
            prev.push(s.last())
        }
    }
}

/// Some occurrence of `x` in `s` comes before every occurrence of `y`.
pub open spec fn occurs_before(s: Seq<u64>, x: u64, y: u64) -> bool {
    exists|p: int| 0 <= p < s.len() && s[p] == x && forall|q: int| 0 <= q < s.len() && s[q] == y ==> p < q
}

/// Deduplication keeps exactly the values of its input, holds none of them twice,
/// and lists them in the order in which they first occur in the input.
pub proof fn lemma_dedup_law(s: Seq<u64>)
    ensures
        dedup_of(s).to_set() == s.to_set(),
        dedup_of(s).no_duplicates(),
        forall|i: int, j: int|
            0 <= i < j < dedup_of(s).len() ==> occurs_before(s, #[trigger] dedup_of(s)[i], #[trigger] dedup_of(s)[j]),
{
    lemma_dedup_contains(s);
    assert(dedup_of(s).to_set() =~= s.to_set());
    lemma_dedup_order(s);
}

proof fn lemma_dedup_contains(s: Seq<u64>)
    ensures
        forall|x: u64| #[trigger] dedup_of(s).contains(x) <==> s.contains(x),
        dedup_of(s).no_duplicates(),
    decreases s.len(),
{
    if s.len() > 0 {
        let p = s.drop_last();
        let x = s.last();
        lemma_dedup_contains(p);
        let d = dedup_of(p);
        assert forall|y: u64| #[trigger] s.contains(y) <==> (p.contains(y) || y == x) by {
            if p.contains(y) {
                let j = choose|j: int| 0 <= j < p.len() && p[j] == y;
                assert(s[j] == y);
            }
            if s.contains(y) {
                let j = choose|j: int| 0 <= j < s.len() && s[j] == y;
                if j < p.len() {
                    assert(p[j] == y);
                }
            }
        }
        if !d.contains(x) {
            assert forall|y: u64| #[trigger] d.push(x).contains(y) <==> (d.contains(y) || y == x) by {
                if d.contains(y) {
                    let j = choose|j: int| 0 <= j < d.len() && d[j] == y;
                    assert(d.push(x)[j] == y);
                }
                if y == x {
                    assert(d.push(x)[d.len() as int] == y);
                }
            }
        }
    }
}

proof fn lemma_dedup_order(s: Seq<u64>)
    ensures
        forall|i: int, j: int|
            0 <= i < j < dedup_of(s).len() ==> occurs_before(s, #[trigger] dedup_of(s)[i], #[trigger] dedup_of(s)[j]),
    decreases s.len(),
{
    if s.len() > 0 {
        let p = s.drop_last();
        let x = s.last();
        lemma_dedup_order(p);
        lemma_dedup_contains(p);
        let d = dedup_of(p);
        let r = dedup_of(s);
        assert forall|i: int, j: int| 0 <= i < j < r.len() implies occurs_before(s, #[trigger] r[i], #[trigger] r[j]) by {
            assert(d.contains(r[i]));
            assert(p.contains(r[i]));
            if j < d.len() {
                assert(occurs_before(p, d[i], d[j]));
                let w = choose|w: int|
                    0 <= w < p.len() && p[w] == d[i] && forall|q: int| 0 <= q < p.len() && p[q] == d[j] ==> w < q;
                assert(s[w] == r[i]);
                assert forall|q: int| 0 <= q < s.len() && s[q] == r[j] implies w < q by {
                    if q < p.len() {
                        assert(p[q] == d[j]);
                    }
                }
            } else {
                let w = choose|w: int| 0 <= w < p.len() && p[w] == r[i];
                assert(s[w] == r[i]);
                assert(!d.contains(x));
                assert forall|q: int| 0 <= q < s.len() && s[q] == r[j] implies w < q by {
                    if q < p.len() {
                        assert(p[q] == x);
                        assert(p.contains(x));
                    }
                }
            }
        }
    }
}

/// The distinct values of `values`, each once, in the order in which they first
/// occur. One pass with a membership set: O(n) time and O(n) extra space.
pub fn fast_dedup(values: &[u64]) -> (r: Vec<u64>)
    ensures
        r@ == dedup_of(values@),
        r@.to_set() == values@.to_set(),
        r@.no_duplicates(),
{
    let mut seen: HashSet<u64> = HashSet::with_capacity(values.len());
    let mut out: Vec<u64> = Vec::with_capacity(values.len());
    let mut i: usize = 0;
    while i < values.len()
        invariant
            i <= values@.len(),
            out@ == dedup_of(values@.subrange(0, i as int)),
            forall|x: u64| #[trigger] seen@.contains(x) <==> out@.contains(x),
        decreases values@.len() - i,
    {
        let v = values[i];
        assert(values@.subrange(0, i + 1).drop_last() == values@.subrange(0, i as int));
        let ghost prev = out@;
        if seen.insert(v) {
            out.push(v);
            assert forall|x: u64| out@.contains(x) <==> (prev.contains(x) || x == v) by {
                if prev.contains(x) {
                    let j = choose|j: int| 0 <= j < prev.len() && prev[j] == x;
                    assert(out@[j] == x);
                }
                if x == v {
                    assert(out@[prev.len() as int] == x);
                }
            }
        }
        i = i + 1;
    }
    assert(values@.subrange(0, values@.len() as int) == values@);
    proof {
        lemma_dedup_law(values@);
    }
    out
}

/// 2^64, the modulus of `u64` arithmetic.
pub open spec fn u64_modulus() -> nat {
    0x1_0000_0000_0000_0000
}

/// The Fibonacci sequence: fib(0) = 0, fib(1) = 1, fib(n) = fib(n - 1) + fib(n - 2).
pub open spec fn fib(n: nat) -> nat
    decreases n,
{
    if n == 0 {
        0
    } else if n == 1 {
        1
    } else {
        fib((n - 1) as nat) + fib((n - 2) as nat)
    }
}

/// Consecutive Fibonacci pairs, stepped forward from (fib(0), fib(1)).
spec fn fib_pair(n: nat) -> (nat, nat)
    decreases n,
{
    if n == 0 {
        (0, 1)
    } else {
        let p = fib_pair((n - 1) as nat);
        (p.1, p.0 + p.1)
    }
}

proof fn lemma_fib_pair(n: nat)
    ensures
        fib_pair(n) == (fib(n), fib(n + 1)),
    decreases n,
{
    if n > 0 {
        lemma_fib_pair((n - 1) as nat);
    }
}

proof fn lemma_fib_pair_advance(n: nat)
    ensures
        fib_pair(n + 10) == (
            34 * fib_pair(n).0 + 55 * fib_pair(n).1,
            55 * fib_pair(n).0 + 89 * fib_pair(n).1,
        ),
{
    reveal_with_fuel(fib_pair, 11);
}

proof fn lemma_fib_monotonic(i: nat, j: nat)
    requires
        i <= j,
    ensures
        fib(i) <= fib(j),
    decreases j,
{
    if i < j {
        lemma_fib_monotonic(i, (j - 1) as nat);
        if j >= 2 {
            assert(fib(j) == fib((j - 1) as nat) + fib((j - 2) as nat));
        }
    }
}

/// Up to 90, `fast_fib` returns the Fibonacci number itself, with no wrap-around:
/// fib(0) = 0, fib(1) = 1, and each later value is the sum of the two before it.
pub proof fn lemma_fib_exact(n: nat)
    requires
        n <= 90,
    ensures
        fib(n) % u64_modulus() == fib(n),
        fib(0) == 0,
        fib(1) == 1,
        n >= 2 ==> fib(n) % u64_modulus() == fib((n - 1) as nat) % u64_modulus() + fib((n - 2) as nat) % u64_modulus(),
{
    lemma_fib_pair_advance(0);
    lemma_fib_pair_advance(10);
    lemma_fib_pair_advance(20);
    lemma_fib_pair_advance(30);
    lemma_fib_pair_advance(40);
    lemma_fib_pair_advance(50);
    lemma_fib_pair_advance(60);
    lemma_fib_pair_advance(70);
    lemma_fib_pair_advance(80);
    lemma_fib_pair(90);
    assert(fib(90) == 2880067194370816120);
    lemma_fib_monotonic(n, 90);
    if n >= 2 {
        lemma_fib_monotonic((n - 1) as nat, 90);
        lemma_fib_monotonic((n - 2) as nat, 90);
    }
}

/// Fibonacci number `n`, computed with two rolling accumulators in O(n) time and
/// O(1) space. Values past `u64::MAX` wrap around.
pub fn fast_fib(n: u64) -> (r: u64)
    ensures
        r as int == fib(n as nat) % u64_modulus(),
{
    if n == 0 {
        return 0;
    }
    let mut a: u64 = 0;
    let mut b: u64 = 1;
    let mut i: u64 = 1;
    while i < n
        invariant
            1 <= i <= n,
            a as int == fib((i - 1) as nat) % u64_modulus(),
            b as int == fib(i as nat) % u64_modulus(),
        decreases n - i,
    {
        let next = a.wrapping_add(b);
        proof {
            lemma_add_mod_noop(fib((i - 1) as nat) as int, fib(i as nat) as int, u64_modulus() as int);
            assert(fib((i + 1) as nat) == fib((i - 1) as nat) + fib(i as nat));
        }
        a = b;
        b = next;
        i = i + 1;
    }
    b
}

} // verus!
