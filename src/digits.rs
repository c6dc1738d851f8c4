//! Positional (little-endian) digit sequences: the arithmetic that both the
//! byte codec of `U256` and the radix block decomposition rest on.
use vstd::arithmetic::div_mod::{lemma_fundamental_div_mod, lemma_fundamental_div_mod_converse};
use vstd::arithmetic::power::{lemma_pow_adds, lemma_pow_positive, pow};
use vstd::prelude::*;

verus! {

/// Value of a little-endian digit sequence in the given base.
pub open spec fn digits_value(ds: Seq<int>, base: int) -> int
    decreases ds.len(),
{
    if ds.len() == 0 {
        0
    } else {
        digits_value(ds.drop_last(), base) + ds.last() * pow(base, (ds.len() - 1) as nat)
    }
}

/// Every digit lies in `0 .. base`.
pub open spec fn digits_ok(ds: Seq<int>, base: int) -> bool {
    forall|i: int| 0 <= i < ds.len() ==> 0 <= #[trigger] ds[i] < base
}

/// The digits held by a vector of machine words.
pub open spec fn words_as_digits(v: Seq<u64>) -> Seq<int> {
    v.map_values(|d: u64| d as int)
}

/// The digits held by a byte buffer.
pub open spec fn bytes_as_digits(v: Seq<u8>) -> Seq<int> {
    v.map_values(|d: u8| d as int)
}

/// `2^128`, one past the largest `u128`.
pub open spec fn two_pow_128() -> int {
    u128::MAX as int + 1
}

pub proof fn lemma_value_bound(ds: Seq<int>, base: int)
    requires
        base > 1,
        digits_ok(ds, base),
    ensures
        0 <= digits_value(ds, base) < pow(base, ds.len()),
    decreases ds.len(),
{
    lemma_pow_positive(base, ds.len());
    if ds.len() > 0 {
        let dl = ds.drop_last();
        let n = (ds.len() - 1) as nat;
        assert(digits_ok(dl, base)) by {
            assert forall|i: int| 0 <= i < dl.len() implies 0 <= #[trigger] dl[i] < base by {
                assert(dl[i] == ds[i]);
            }
        }
        lemma_value_bound(dl, base);
        lemma_pow_positive(base, n);
        lemma_pow_adds(base, n, 1);
        reveal_pow_one(base);
        let p = pow(base, n);
        let v = digits_value(dl, base);
        let d = ds.last();
        assert(0 <= d < base);
        assert(0 <= v + d * p < p * base) by (nonlinear_arith)
            requires
                0 <= v < p,
                0 <= d < base,
                p > 0,
        ;
    }
}

proof fn reveal_pow_one(base: int)
    ensures
        pow(base, 1) == base,
{
    reveal(pow);
    assert(pow(base, 0) == 1);
}

/// Splitting a digit sequence at `k`: the upper part counts `base^k` times.
pub proof fn lemma_value_split(ds: Seq<int>, k: int, base: int)
    requires
        0 <= k <= ds.len(),
    ensures
        digits_value(ds, base) == digits_value(ds.subrange(0, k), base) + pow(base, k as nat)
            * digits_value(ds.subrange(k, ds.len() as int), base),
    decreases ds.len(),
{
    if k == ds.len() {
        assert(ds.subrange(0, k) =~= ds);
        assert(digits_value(ds.subrange(k, ds.len() as int), base) == 0);
    } else {
        let dl = ds.drop_last();
        let n = ds.len() - 1;
        lemma_value_split(dl, k, base);
        assert(dl.subrange(0, k) =~= ds.subrange(0, k));
        let hi = ds.subrange(k, ds.len() as int);
        assert(hi.drop_last() =~= dl.subrange(k, dl.len() as int));
        assert(hi.last() == ds.last());
        lemma_pow_adds(base, k as nat, (n - k) as nat);
        let pk = pow(base, k as nat);
        let pr = pow(base, (n - k) as nat);
        let vh = digits_value(hi.drop_last(), base);
        let d = ds.last();
        assert(pk * (vh + d * pr) == pk * vh + d * (pk * pr)) by (nonlinear_arith);
    }
}

/// A leading (least significant) digit followed by the rest.
pub proof fn lemma_value_prepend(ds: Seq<int>, base: int)
    requires
        ds.len() > 0,
    ensures
        digits_value(ds, base) == ds[0] + base * digits_value(ds.subrange(1, ds.len() as int), base),
{
    lemma_value_split(ds, 1, base);
    let first = ds.subrange(0, 1);
    assert(first.drop_last() =~= Seq::<int>::empty());
    assert(first.last() == ds[0]);
    assert(digits_value(first.drop_last(), base) == 0);
    reveal(pow);
    assert(pow(base, 0) == 1);
    assert(pow(base, 1) == base * pow(base, 0));
}

/// Digits in range are determined by their value and their count.
pub proof fn lemma_value_unique(a: Seq<int>, b: Seq<int>, base: int)
    requires
        base > 1,
        a.len() == b.len(),
        digits_ok(a, base),
        digits_ok(b, base),
        digits_value(a, base) == digits_value(b, base),
    ensures
        a == b,
    decreases a.len(),
{
    if a.len() > 0 {
        let n = (a.len() - 1) as nat;
        let al = a.drop_last();
        let bl = b.drop_last();
        assert(digits_ok(al, base)) by {
            assert forall|i: int| 0 <= i < al.len() implies 0 <= #[trigger] al[i] < base by {
                assert(al[i] == a[i]);
            }
        }
        assert(digits_ok(bl, base)) by {
            assert forall|i: int| 0 <= i < bl.len() implies 0 <= #[trigger] bl[i] < base by {
                assert(bl[i] == b[i]);
            }
        }
        lemma_value_bound(al, base);
        lemma_value_bound(bl, base);
        lemma_pow_positive(base, n);
        let p = pow(base, n);
        let v = digits_value(a, base);
        assert(v == a.last() * p + digits_value(al, base));
        assert(v == b.last() * p + digits_value(bl, base));
        lemma_fundamental_div_mod_converse(v, p, a.last(), digits_value(al, base));
        lemma_fundamental_div_mod_converse(v, p, b.last(), digits_value(bl, base));
        lemma_value_unique(al, bl, base);
        assert(a =~= al.push(a.last()));
        assert(b =~= bl.push(b.last()));
    }
}

/// Writes the `count` least significant digits of `x` in `base`.
pub fn digits_of_u128(x: u128, base: u64, count: usize) -> (r: Vec<u64>)
    requires
        2 <= base,
        x < pow(base as int, count as nat),
    ensures
        r@.len() == count,
        digits_ok(words_as_digits(r@), base as int),
        digits_value(words_as_digits(r@), base as int) == x,
{
    let mut r: Vec<u64> = Vec::new();
    let mut rem: u128 = x;
    let mut i: usize = 0;
    proof {
        reveal(pow);
        assert(words_as_digits(r@) =~= Seq::<int>::empty());
    }
    while i < count
        invariant
            2 <= base,
            i <= count,
            r@.len() == i,
            digits_ok(words_as_digits(r@), base as int),
            digits_value(words_as_digits(r@), base as int) + pow(base as int, i as nat) * rem
                == x,
            rem < pow(base as int, (count - i) as nat),
        decreases count - i,
    {
        let d: u64 = (rem % (base as u128)) as u64;
        let q: u128 = rem / (base as u128);
        proof {
            let b = base as int;
            lemma_fundamental_div_mod(rem as int, b);
            let p = pow(b, i as nat);
            lemma_pow_adds(b, i as nat, 1);
            reveal_pow_one(b);
            lemma_pow_adds(b, 1, (count - i - 1) as nat);
            let pr = pow(b, (count - i - 1) as nat);
            assert(rem == b * q + d);
            assert(p * rem == d * p + (p * b) * q) by (nonlinear_arith)
                requires
                    rem == b * q + d,
            ;
            assert(q < pr) by (nonlinear_arith)
                requires
                    rem == b * q + d,
                    rem < b * pr,
                    d >= 0,
                    b > 0,
            ;
        }
        let ghost old_r = r@;
        r.push(d);
        proof {
            let ds = words_as_digits(r@);
            assert(ds.drop_last() =~= words_as_digits(old_r));
            assert forall|j: int| 0 <= j < ds.len() implies 0 <= #[trigger] ds[j] < base as int by {
                if j < old_r.len() {
                    assert(ds[j] == words_as_digits(old_r)[j]);
                }
            }
        }
        rem = q;
        i = i + 1;
    }
    r
}

/// Reads `ds[lo..hi]` as a number in `base`.
pub fn u128_of_digits(ds: &Vec<u64>, lo: usize, hi: usize, base: u64) -> (r: u128)
    requires
        lo <= hi <= ds@.len(),
        2 <= base,
        digits_ok(words_as_digits(ds@), base as int),
        pow(base as int, (hi - lo) as nat) <= two_pow_128(),
    ensures
        r == digits_value(words_as_digits(ds@).subrange(lo as int, hi as int), base as int),
{
    let ghost all = words_as_digits(ds@);
    let mut acc: u128 = 0;
    let mut i: usize = hi;
    proof {
        reveal(pow);
    }
    while i > lo
        invariant
            lo <= i <= hi <= ds@.len(),
            2 <= base,
            all == words_as_digits(ds@),
            digits_ok(all, base as int),
            pow(base as int, (hi - lo) as nat) <= two_pow_128(),
            acc == digits_value(all.subrange(i as int, hi as int), base as int),
            acc < pow(base as int, (hi - i) as nat),
        decreases i,
    {
        let d: u64 = ds[i - 1];
        proof {
            let b = base as int;
            let p = pow(b, (hi - i) as nat);
            lemma_pow_adds(b, (hi - i) as nat, 1);
            reveal_pow_one(b);
            vstd::arithmetic::power::lemma_pow_increases(
                base as nat,
                (hi - i + 1) as nat,
                (hi - lo) as nat,
            );
            assert(all[i - 1] == d as int);
            assert(acc * b + d < p * b) by (nonlinear_arith)
                requires
                    acc < p,
                    d < b,
            ;
            let s = all.subrange(i - 1, hi as int);
            lemma_value_prepend(s, b);
            assert(s.subrange(1, s.len() as int) =~= all.subrange(i as int, hi as int));
            assert(s[0] == d);
            assert(digits_value(s, b) == d + b * acc);
            assert(b * acc == acc * b) by (nonlinear_arith);
        }
        acc = acc * (base as u128) + (d as u128);
        i = i - 1;
    }
    acc
}

} // verus!
