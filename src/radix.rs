//! Block-level evaluation on radix decompositions: each block holds one
//! base-4 digit, least significant first. Carries and borrows are propagated
//! from block to block; the result always keeps the operands' block count.
use crate::digits::{
    digits_of_u128, digits_ok, digits_value, lemma_value_bound, lemma_value_prepend,
    lemma_value_split, lemma_value_unique, words_as_digits,
};
use vstd::arithmetic::div_mod::{
    lemma_add_mod_noop, lemma_fundamental_div_mod_converse, lemma_mul_mod_noop_right,
    lemma_small_mod,
};
use vstd::arithmetic::power::{lemma_pow_adds, lemma_pow_positive, pow};
use vstd::prelude::*;

verus! {

/// The number held by a block sequence.
pub open spec fn blocks_value(b: Seq<u64>) -> int {
    digits_value(words_as_digits(b), 4)
}

/// Every block holds a digit in `0 .. 4`.
pub open spec fn blocks_ok(b: Seq<u64>) -> bool {
    digits_ok(words_as_digits(b), 4)
}

/// The number of distinct values `n` blocks hold.
pub open spec fn blocks_modulus(n: nat) -> int {
    pow(4, n)
}

/// Digit `i` of `v` in base 4.
pub open spec fn digit(v: int, i: nat) -> int {
    (v / pow(4, i)) % 4
}

/// A digit-wise bit operation.
#[derive(Clone, Copy, Debug, PartialEq, Eq, Structural)]
pub enum BitOp {
    And,
    Or,
    Xor,
}

pub open spec fn bit_op_digit(op: BitOp, x: int, y: int) -> int {
    match op {
        BitOp::And => ((x as u64) & (y as u64)) as int,
        BitOp::Or => ((x as u64) | (y as u64)) as int,
        BitOp::Xor => ((x as u64) ^ (y as u64)) as int,
    }
}

/// The `n`-digit number whose digits are `op` of the digits of `a` and `b`.
pub open spec fn bit_op_value(op: BitOp, a: int, b: int, n: nat) -> int {
    digits_value(Seq::new(n, |i: int| bit_op_digit(op, digit(a, i as nat), digit(b, i as nat))), 4)
}

pub proof fn lemma_blocks_bound(b: Seq<u64>)
    requires
        blocks_ok(b),
    ensures
        0 <= blocks_value(b) < blocks_modulus(b.len()),
{
    lemma_value_bound(words_as_digits(b), 4);
}

proof fn lemma_prefix_push(s: Seq<u64>, i: int)
    requires
        0 <= i < s.len(),
    ensures
        blocks_value(s.subrange(0, i + 1)) == blocks_value(s.subrange(0, i)) + s[i] * pow(4, i as nat),
{
    let w = words_as_digits(s.subrange(0, i + 1));
    assert(w.drop_last() =~= words_as_digits(s.subrange(0, i)));
    assert(w.last() == s[i] as int);
}

proof fn lemma_pow_step(i: nat)
    ensures
        pow(4, i + 1) == pow(4, i) * 4,
        pow(4, i) > 0,
{
    lemma_pow_adds(4, i, 1);
    lemma_pow_positive(4, i);
    reveal(pow);
    assert(pow(4, 0) == 1);
    assert(pow(4, 1) == 4 * pow(4, 0));
}

proof fn lemma_push_ok(s: Seq<u64>, d: u64)
    requires
        blocks_ok(s),
        d < 4,
    ensures
        blocks_ok(s.push(d)),
{
    let w = words_as_digits(s.push(d));
    assert forall|j: int| 0 <= j < w.len() implies 0 <= #[trigger] w[j] < 4 by {
        if j < s.len() {
            assert(w[j] == words_as_digits(s)[j]);
        }
    }
}

proof fn lemma_full_prefix(s: Seq<u64>)
    ensures
        s.subrange(0, s.len() as int) == s,
{
    assert(s.subrange(0, s.len() as int) =~= s);
}

/// Block `i` of well-formed blocks is digit `i` of their value.
pub proof fn lemma_block_is_digit(s: Seq<u64>, i: int)
    requires
        blocks_ok(s),
        0 <= i < s.len(),
    ensures
        s[i] == digit(blocks_value(s), i as nat),
{
    let w = words_as_digits(s);
    lemma_value_split(w, i, 4);
    let lo = w.subrange(0, i);
    let hi = w.subrange(i, w.len() as int);
    assert(digits_ok(lo, 4)) by {
        assert forall|j: int| 0 <= j < lo.len() implies 0 <= #[trigger] lo[j] < 4 by {
            assert(lo[j] == w[j]);
        }
    }
    assert(digits_ok(hi.subrange(1, hi.len() as int), 4)) by {
        let t = hi.subrange(1, hi.len() as int);
        assert forall|j: int| 0 <= j < t.len() implies 0 <= #[trigger] t[j] < 4 by {
            assert(t[j] == w[i + 1 + j]);
        }
    }
    lemma_value_bound(lo, 4);
    lemma_value_bound(hi.subrange(1, hi.len() as int), 4);
    lemma_value_prepend(hi, 4);
    lemma_pow_positive(4, i as nat);
    let p = pow(4, i as nat);
    let vh = digits_value(hi, 4);
    lemma_fundamental_div_mod_converse(blocks_value(s), p, vh, digits_value(lo, 4));
    lemma_fundamental_div_mod_converse(
        vh,
        4,
        digits_value(hi.subrange(1, hi.len() as int), 4),
        hi[0],
    );
}

/// `n` blocks holding zero.
pub fn zero_blocks(n: usize) -> (r: Vec<u64>)
    ensures
        r@.len() == n,
        blocks_ok(r@),
        blocks_value(r@) == 0,
{
    proof {
        lemma_pow_positive(4, n as nat);
    }
    digits_of_u128(0, 4, n)
}

/// `n` blocks holding `1` when `b` holds, else `0`.
pub fn bool_blocks(b: bool, n: usize) -> (r: Vec<u64>)
    requires
        n >= 1,
    ensures
        r@.len() == n,
        blocks_ok(r@),
        blocks_value(r@) == (if b { 1int } else { 0int }),
{
    proof {
        lemma_pow_step(0);
        vstd::arithmetic::power::lemma_pow_increases(4, 1, n as nat);
    }
    if b {
        digits_of_u128(1, 4, n)
    } else {
        digits_of_u128(0, 4, n)
    }
}

/// Positional addition with carry propagation, modulo `4^n`.
pub fn add_blocks(a: &Vec<u64>, b: &Vec<u64>) -> (r: Vec<u64>)
    requires
        a@.len() == b@.len(),
        blocks_ok(a@),
        blocks_ok(b@),
    ensures
        r@.len() == a@.len(),
        blocks_ok(r@),
        blocks_value(r@) == (blocks_value(a@) + blocks_value(b@)) % blocks_modulus(a@.len()),
{
    let n = a.len();
    let mut r: Vec<u64> = Vec::new();
    let mut carry: u64 = 0;
    let mut i: usize = 0;
    proof {
        assert(words_as_digits(r@) =~= Seq::<int>::empty());
        assert(words_as_digits(a@.subrange(0, 0)) =~= Seq::<int>::empty());
        assert(words_as_digits(b@.subrange(0, 0)) =~= Seq::<int>::empty());
    }
    while i < n
        invariant
            n == a@.len() == b@.len(),
            blocks_ok(a@),
            blocks_ok(b@),
            i <= n,
            r@.len() == i,
            blocks_ok(r@),
            carry <= 1,
            blocks_value(r@) + carry * pow(4, i as nat) == blocks_value(a@.subrange(0, i as int))
                + blocks_value(b@.subrange(0, i as int)),
        decreases n - i,
    {
        proof {
            assert(words_as_digits(a@)[i as int] == a@[i as int]);
            assert(words_as_digits(b@)[i as int] == b@[i as int]);
        }
        let s: u64 = a[i] + b[i] + carry;
        let d: u64 = s % 4;
        let c: u64 = s / 4;
        proof {
            let p = pow(4, i as nat);
            lemma_pow_step(i as nat);
            lemma_prefix_push(a@, i as int);
            lemma_prefix_push(b@, i as int);
            lemma_prefix_push(r@.push(d), i as int);
            assert(r@.push(d).subrange(0, i as int) =~= r@);
            assert(r@.push(d).subrange(0, i as int + 1) =~= r@.push(d));
            lemma_push_ok(r@, d);
            assert(d + 4 * c == s);
            assert(d * p + c * (p * 4) == p * (s as int)) by (nonlinear_arith)
                requires
                    d + 4 * c == s,
            ;
            assert(p * (s as int) == a@[i as int] * p + b@[i as int] * p + carry * p)
                by (nonlinear_arith)
                requires
                    s == a@[i as int] + b@[i as int] + carry,
            ;
        }
        r.push(d);
        carry = c;
        i = i + 1;
    }
    proof {
        lemma_full_prefix(a@);
        lemma_full_prefix(b@);
        lemma_blocks_bound(r@);
        lemma_fundamental_div_mod_converse(
            blocks_value(a@) + blocks_value(b@),
            pow(4, n as nat),
            carry as int,
            blocks_value(r@),
        );
    }
    r
}

/// Positional subtraction with borrow propagation: the difference modulo
/// `4^n`, and whether a borrow left the top block.
pub fn sub_blocks(a: &Vec<u64>, b: &Vec<u64>) -> (r: (Vec<u64>, bool))
    requires
        a@.len() == b@.len(),
        blocks_ok(a@),
        blocks_ok(b@),
    ensures
        r.0@.len() == a@.len(),
        blocks_ok(r.0@),
        blocks_value(r.0@) == (blocks_value(a@) - blocks_value(b@)) % blocks_modulus(a@.len()),
        r.1 == (blocks_value(a@) < blocks_value(b@)),
{
    let n = a.len();
    let mut r: Vec<u64> = Vec::new();
    let mut borrow: u64 = 0;
    let mut i: usize = 0;
    proof {
        assert(words_as_digits(r@) =~= Seq::<int>::empty());
        assert(words_as_digits(a@.subrange(0, 0)) =~= Seq::<int>::empty());
        assert(words_as_digits(b@.subrange(0, 0)) =~= Seq::<int>::empty());
    }
    while i < n
        invariant
            n == a@.len() == b@.len(),
            blocks_ok(a@),
            blocks_ok(b@),
            i <= n,
            r@.len() == i,
            blocks_ok(r@),
            borrow <= 1,
            blocks_value(r@) == blocks_value(a@.subrange(0, i as int)) - blocks_value(
                b@.subrange(0, i as int),
            ) + borrow * pow(4, i as nat),
        decreases n - i,
    {
        proof {
            assert(words_as_digits(a@)[i as int] == a@[i as int]);
            assert(words_as_digits(b@)[i as int] == b@[i as int]);
        }
        let x: u64 = a[i];
        let y: u64 = b[i] + borrow;
        let d: u64;
        let nb: u64;
        if x >= y {
            d = x - y;
            nb = 0;
        } else {
            d = x + 4 - y;
            nb = 1;
        }
        proof {
            let p = pow(4, i as nat);
            lemma_pow_step(i as nat);
            lemma_prefix_push(a@, i as int);
            lemma_prefix_push(b@, i as int);
            lemma_prefix_push(r@.push(d), i as int);
            assert(r@.push(d).subrange(0, i as int) =~= r@);
            assert(r@.push(d).subrange(0, i as int + 1) =~= r@.push(d));
            lemma_push_ok(r@, d);
            assert(d == x - y + 4 * nb);
            assert(d * p == x * p - b@[i as int] * p - borrow * p + nb * (p * 4))
                by (nonlinear_arith)
                requires
                    d == x - y + 4 * nb,
                    y == b@[i as int] + borrow,
            ;
        }
        r.push(d);
        borrow = nb;
        i = i + 1;
    }
    proof {
        lemma_full_prefix(a@);
        lemma_full_prefix(b@);
        lemma_blocks_bound(r@);
        lemma_blocks_bound(a@);
        lemma_blocks_bound(b@);
        let m = pow(4, n as nat);
        let diff = blocks_value(a@) - blocks_value(b@);
        lemma_fundamental_div_mod_converse(diff, m, -(borrow as int), blocks_value(r@));
    }
    (r, borrow == 1)
}

/// Whether two block sequences hold the same number.
pub fn eq_blocks(a: &Vec<u64>, b: &Vec<u64>) -> (r: bool)
    requires
        a@.len() == b@.len(),
        blocks_ok(a@),
        blocks_ok(b@),
    ensures
        r == (blocks_value(a@) == blocks_value(b@)),
{
    let mut i: usize = 0;
    while i < a.len()
        invariant
            a@.len() == b@.len(),
            blocks_ok(a@),
            blocks_ok(b@),
            i <= a@.len(),
            forall|j: int| 0 <= j < i ==> a@[j] == b@[j],
        decreases a@.len() - i,
    {
        if a[i] != b[i] {
            proof {
                if blocks_value(a@) == blocks_value(b@) {
                    lemma_value_unique(words_as_digits(a@), words_as_digits(b@), 4);
                    assert(words_as_digits(a@)[i as int] == words_as_digits(b@)[i as int]);
                }
            }
            return false;
        }
        i = i + 1;
    }
    proof {
        assert(a@ =~= b@);
    }
    true
}

/// The multiple `d * b` modulo `4^n`, for a single digit `d`.
pub fn scale_blocks(b: &Vec<u64>, d: u64) -> (r: Vec<u64>)
    requires
        blocks_ok(b@),
        d < 4,
    ensures
        r@.len() == b@.len(),
        blocks_ok(r@),
        blocks_value(r@) == (d * blocks_value(b@)) % blocks_modulus(b@.len()),
{
    let mut acc = zero_blocks(b.len());
    let mut k: u64 = 0;
    proof {
        lemma_pow_positive(4, b@.len());
        lemma_small_mod(0, pow(4, b@.len()) as nat);
    }
    while k < d
        invariant
            blocks_ok(b@),
            k <= d < 4,
            acc@.len() == b@.len(),
            blocks_ok(acc@),
            blocks_value(acc@) == (k * blocks_value(b@)) % blocks_modulus(b@.len()),
        decreases d - k,
    {
        let ghost prev = blocks_value(acc@);
        acc = add_blocks(&acc, b);
        proof {
            let m = blocks_modulus(b@.len());
            let v = blocks_value(b@);
            lemma_pow_positive(4, b@.len());
            lemma_blocks_bound(b@);
            lemma_small_mod(v as nat, m as nat);
            lemma_add_mod_noop(k * v, v, m);
            assert(k * v + v == (k + 1) * v) by (nonlinear_arith);
        }
        k = k + 1;
    }
    acc
}

/// The number shifted up by one block, modulo `4^n`.
pub fn shift_up_blocks(a: &Vec<u64>) -> (r: Vec<u64>)
    requires
        a@.len() >= 1,
        blocks_ok(a@),
    ensures
        r@.len() == a@.len(),
        blocks_ok(r@),
        blocks_value(r@) == (4 * blocks_value(a@)) % blocks_modulus(a@.len()),
{
    let n = a.len();
    let mut r: Vec<u64> = Vec::new();
    r.push(0);
    let mut i: usize = 0;
    while i + 1 < n
        invariant
            n == a@.len() >= 1,
            i + 1 <= n,
            r@.len() == i + 1,
            r@[0] == 0,
            forall|j: int| 0 <= j < i ==> #[trigger] r@[j + 1] == a@[j],
        decreases n - i,
    {
        r.push(a[i]);
        i = i + 1;
    }
    proof {
        let w = words_as_digits(r@);
        let wa = words_as_digits(a@);
        let lower = wa.subrange(0, n - 1);
        assert(w.subrange(1, w.len() as int) =~= lower);
        assert(digits_ok(w, 4)) by {
            assert forall|j: int| 0 <= j < w.len() implies 0 <= #[trigger] w[j] < 4 by {
                if j > 0 {
                    assert(r@[(j - 1) + 1] == a@[j - 1]);
                    assert(wa[j - 1] == a@[j - 1]);
                }
            }
        }
        assert(digits_ok(lower, 4)) by {
            assert forall|j: int| 0 <= j < lower.len() implies 0 <= #[trigger] lower[j] < 4 by {
                assert(lower[j] == wa[j]);
            }
        }
        lemma_value_prepend(w, 4);
        lemma_value_bound(lower, 4);
        let vl = digits_value(lower, 4);
        let top = wa[n - 1];
        lemma_value_split(wa, n - 1, 4);
        let t = wa.subrange(n - 1, n as int);
        assert(t.drop_last() =~= Seq::<int>::empty());
        assert(t.last() == top);
        assert(digits_value(t.drop_last(), 4) == 0);
        assert(digits_value(t, 4) == top * pow(4, 0));
        reveal(pow);
        assert(pow(4, 0) == 1);
        assert(wa.subrange(n - 1, wa.len() as int) =~= t);
        lemma_pow_step((n - 1) as nat);
        let p = pow(4, (n - 1) as nat);
        assert(4 * vl < p * 4);
        assert(4 * blocks_value(a@) == top * (p * 4) + 4 * vl) by (nonlinear_arith)
            requires
                blocks_value(a@) == vl + p * top,
        ;
        lemma_fundamental_div_mod_converse(4 * blocks_value(a@), p * 4, top, 4 * vl);
    }
    r
}

/// Positional multiplication modulo `4^n`, by Horner's scheme over the digits
/// of `a` from the most significant down.
pub fn mul_blocks(a: &Vec<u64>, b: &Vec<u64>) -> (r: Vec<u64>)
    requires
        a@.len() == b@.len() >= 1,
        blocks_ok(a@),
        blocks_ok(b@),
    ensures
        r@.len() == a@.len(),
        blocks_ok(r@),
        blocks_value(r@) == (blocks_value(a@) * blocks_value(b@)) % blocks_modulus(a@.len()),
{
    let n = a.len();
    let mut acc = zero_blocks(n);
    let mut i: usize = n;
    let ghost m = blocks_modulus(n as nat);
    let ghost vb = blocks_value(b@);
    proof {
        lemma_pow_positive(4, n as nat);
        assert(words_as_digits(a@.subrange(n as int, n as int)) =~= Seq::<int>::empty());
        lemma_small_mod(0, m as nat);
    }
    while i > 0
        invariant
            n == a@.len() == b@.len() >= 1,
            blocks_ok(a@),
            blocks_ok(b@),
            m == blocks_modulus(n as nat),
            m > 0,
            vb == blocks_value(b@),
            i <= n,
            acc@.len() == n,
            blocks_ok(acc@),
            blocks_value(acc@) == (blocks_value(a@.subrange(i as int, n as int)) * vb) % m,
        decreases i,
    {
        let d: u64 = a[i - 1];
        proof {
            assert(words_as_digits(a@)[i - 1] == a@[i - 1]);
        }
        let shifted = shift_up_blocks(&acc);
        let part = scale_blocks(b, d);
        acc = add_blocks(&shifted, &part);
        proof {
            let v = blocks_value(a@.subrange(i as int, n as int));
            let s = words_as_digits(a@.subrange(i - 1, n as int));
            lemma_value_prepend(s, 4);
            assert(s.subrange(1, s.len() as int) =~= words_as_digits(a@.subrange(i as int, n as int)));
            assert(s[0] == d);
            lemma_mul_mod_noop_right(4, v * vb, m);
            assert(4 * (v * vb) == (4 * v) * vb) by (nonlinear_arith);
            lemma_add_mod_noop((4 * v) * vb, d * vb, m);
            assert((4 * v) * vb + d * vb == (d + 4 * v) * vb) by (nonlinear_arith);
        }
        i = i - 1;
    }
    proof {
        lemma_full_prefix(a@);
        assert(a@.subrange(0, n as int) == a@);
    }
    acc
}

/// Digit-wise bit operation on two block sequences.
pub fn bit_op_blocks(op: BitOp, a: &Vec<u64>, b: &Vec<u64>) -> (r: Vec<u64>)
    requires
        a@.len() == b@.len(),
        blocks_ok(a@),
        blocks_ok(b@),
    ensures
        r@.len() == a@.len(),
        blocks_ok(r@),
        blocks_value(r@) == bit_op_value(op, blocks_value(a@), blocks_value(b@), a@.len()),
        forall|i: int| 0 <= i < a@.len() ==> #[trigger] r@[i] == bit_op_digit(op, a@[i] as int, b@[i] as int),
{
    let mut r: Vec<u64> = Vec::new();
    let mut i: usize = 0;
    while i < a.len()
        invariant
            a@.len() == b@.len(),
            blocks_ok(a@),
            blocks_ok(b@),
            i <= a@.len(),
            r@.len() == i,
            forall|j: int| 0 <= j < i ==> #[trigger] r@[j] == bit_op_digit(op, a@[j] as int, b@[j] as int),
            forall|j: int| 0 <= j < i ==> #[trigger] r@[j] < 4,
        decreases a@.len() - i,
    {
        let x: u64 = a[i];
        let y: u64 = b[i];
        proof {
            assert(words_as_digits(a@)[i as int] == x);
            assert(words_as_digits(b@)[i as int] == y);
        }
        let z: u64 = match op {
            BitOp::And => x & y,
            BitOp::Or => x | y,
            BitOp::Xor => x ^ y,
        };
        proof {
            assert(x & y < 4 && x | y < 4 && x ^ y < 4) by (bit_vector)
                requires
                    x < 4,
                    y < 4,
            ;
        }
        r.push(z);
        i = i + 1;
    }
    proof {
        let n = a@.len();
        let va = blocks_value(a@);
        let vb = blocks_value(b@);
        let expected = Seq::new(n, |j: int| bit_op_digit(op, digit(va, j as nat), digit(vb, j as nat)));
        assert forall|j: int| 0 <= j < n implies #[trigger] words_as_digits(r@)[j] == expected[j] by {
            lemma_block_is_digit(a@, j);
            lemma_block_is_digit(b@, j);
        }
        assert(words_as_digits(r@) =~= expected);
        let w = words_as_digits(r@);
        assert forall|j: int| 0 <= j < w.len() implies 0 <= #[trigger] w[j] < 4 by {
            assert(r@[j] < 4);
        }
    }
    r
}

} // verus!
