//! Big-endian positional numerals over small digits: the value of a digit
//! sequence, bounds, ordering, stripping leading zeros, and the canonical
//! (minimal-width) digit sequence of a value.

use vstd::prelude::*;
use vstd::arithmetic::power::{
    pow, lemma_pow0, lemma_pow1, lemma_pow_adds, lemma_pow_increases, lemma_pow_positive,
};
use vstd::arithmetic::div_mod::{
    lemma_fundamental_div_mod, lemma_fundamental_div_mod_converse_div,
    lemma_fundamental_div_mod_converse_mod, lemma_div_is_strictly_smaller, lemma_div_pos_is_pos,
    lemma_small_div_converse, lemma_small_mod,
};
use vstd::arithmetic::mul::{
    lemma_mul_inequality, lemma_mul_is_associative, lemma_mul_is_commutative,
    lemma_mul_is_distributive_add_other_way, lemma_mul_nonnegative,
};

verus! {

/// Every digit of `s` is below `base`.
pub open spec fn digits_ok(s: Seq<u8>, base: int) -> bool {
    forall|i: int| 0 <= i < s.len() ==> (s[i] as int) < base
}

/// The value of `s` read as a big-endian numeral in the given base.
pub open spec fn seq_val(s: Seq<u8>, base: int) -> int
    decreases s.len(),
{
    if s.len() == 0 {
        0
    } else {
        (s[0] as int) * pow(base, (s.len() - 1) as nat) + seq_val(s.drop_first(), base)
    }
}

pub proof fn lemma_seq_val_nonneg(s: Seq<u8>, base: int)
    requires
        base >= 2,
    ensures
        seq_val(s, base) >= 0,
    decreases s.len(),
{
    if s.len() > 0 {
        lemma_seq_val_nonneg(s.drop_first(), base);
        lemma_pow_positive(base, (s.len() - 1) as nat);
        lemma_mul_nonnegative(s[0] as int, pow(base, (s.len() - 1) as nat));
    }
}

pub proof fn lemma_seq_val_bound(s: Seq<u8>, base: int)
    requires
        base >= 2,
        digits_ok(s, base),
    ensures
        0 <= seq_val(s, base) < pow(base, s.len() as nat),
    decreases s.len(),
{
    lemma_seq_val_nonneg(s, base);
    if s.len() == 0 {
        lemma_pow_positive(base, 0);
    } else {
        let rest = s.drop_first();
        let p = pow(base, (s.len() - 1) as nat);
        lemma_seq_val_bound(rest, base);
        lemma_pow_positive(base, (s.len() - 1) as nat);
        lemma_mul_is_distributive_add_other_way(p, s[0] as int, 1);
        lemma_mul_inequality(s[0] as int + 1, base, p);
        assert(pow(base, s.len() as nat) == base * p) by {
            lemma_pow_adds(base, 1, (s.len() - 1) as nat);
            lemma_pow1(base);
        };
        lemma_mul_is_commutative(base, p);
    }
}

pub proof fn lemma_seq_val_lower(s: Seq<u8>, base: int)
    requires
        base >= 2,
        s.len() > 0,
        s[0] != 0,
    ensures
        seq_val(s, base) >= pow(base, (s.len() - 1) as nat),
    decreases s.len(),
{
    let p = pow(base, (s.len() - 1) as nat);
    lemma_pow_positive(base, (s.len() - 1) as nat);
    lemma_seq_val_nonneg(s.drop_first(), base);
    lemma_mul_inequality(1, s[0] as int, p);
}

pub proof fn lemma_seq_val_push(s: Seq<u8>, d: u8, base: int)
    requires
        base >= 2,
    ensures
        seq_val(s.push(d), base) == seq_val(s, base) * base + d,
    decreases s.len(),
{
    let t = s.push(d);
    if s.len() == 0 {
        assert(t.drop_first() =~= Seq::<u8>::empty());
        lemma_pow0(base);
        assert(t[0] == d);
        assert(seq_val(t.drop_first(), base) == 0);
        assert(seq_val(t, base) == (d as int) * 1 + 0);
    } else {
        assert(t.drop_first() =~= s.drop_first().push(d));
        lemma_seq_val_push(s.drop_first(), d, base);
        let p = pow(base, (s.len() - 1) as nat);
        assert(pow(base, s.len() as nat) == base * p) by {
            lemma_pow_adds(base, 1, (s.len() - 1) as nat);
            lemma_pow1(base);
        };
        // seq_val(t) == s[0] * (base * p) + seq_val(s.drop_first()) * base + d
        // goal:        (s[0] * p + seq_val(s.drop_first())) * base + d
        lemma_mul_is_associative(s[0] as int, base, p);
        lemma_mul_is_commutative(base, p);
        lemma_mul_is_associative(s[0] as int, p, base);
        lemma_mul_is_distributive_add_other_way(
            base,
            (s[0] as int) * p,
            seq_val(s.drop_first(), base),
        );
    }
}

/// One Horner step: pushing a digit multiplies the value by the base and
/// adds the digit, and preserves well-formedness of the digit sequence.
pub proof fn lemma_val_push_chain(s: Seq<u8>, d: u8, base: int)
    requires
        2 <= base <= 256,
        (d as int) < base,
        digits_ok(s, base),
    ensures
        seq_val(s.push(d), base) == seq_val(s, base) * base + d,
        digits_ok(s.push(d), base),
        s.push(d).len() == s.len() + 1,
        s.push(d)[0] == (if s.len() == 0 { d } else { s[0] }),
{
    lemma_seq_val_push(s, d, base);
    assert(forall|i: int| 0 <= i < s.len() ==> s.push(d)[i] == s[i]);
}

/// The digit sequence with leading zeros removed.
pub open spec fn strip_zeros(s: Seq<u8>) -> Seq<u8>
    decreases s.len(),
{
    if s.len() == 0 {
        s
    } else if s[0] == 0 {
        strip_zeros(s.drop_first())
    } else {
        s
    }
}

pub proof fn lemma_strip_zeros_props(s: Seq<u8>, base: int)
    requires
        base >= 2,
    ensures
        seq_val(strip_zeros(s), base) == seq_val(s, base),
        strip_zeros(s).len() <= s.len(),
        strip_zeros(s).len() > 0 ==> strip_zeros(s)[0] != 0,
        digits_ok(s, base) ==> digits_ok(strip_zeros(s), base),
    decreases s.len(),
{
    if s.len() > 0 && s[0] == 0 {
        lemma_strip_zeros_props(s.drop_first(), base);
    }
}

/// Dropping a prefix known to be all zeros leaves the stripped form unchanged.
pub proof fn lemma_strip_zeros_skip(s: Seq<u8>, i: int)
    requires
        0 <= i <= s.len(),
        forall|j: int| 0 <= j < i ==> s[j] == 0,
    ensures
        strip_zeros(s) == strip_zeros(s.subrange(i, s.len() as int)),
    decreases i,
{
    if i > 0 {
        assert(s[0] == 0);
        assert(strip_zeros(s) == strip_zeros(s.drop_first()));
        assert(s.drop_first() =~= s.subrange(1, s.len() as int));
        lemma_strip_zeros_skip(s.drop_first(), i - 1);
        assert(s.drop_first().subrange(i - 1, s.drop_first().len() as int) =~= s.subrange(
            i,
            s.len() as int,
        ));
    } else {
        assert(s.subrange(0, s.len() as int) =~= s);
    }
}

/// A sequence without a leading zero is already in stripped form.
pub proof fn lemma_strip_zeros_id(s: Seq<u8>)
    requires
        s.len() > 0 ==> s[0] != 0,
    ensures
        strip_zeros(s) == s,
{
}

/// Equal-length digit sequences that agree before position `i` and differ
/// there are ordered by their values.
pub proof fn lemma_lex_lt(a: Seq<u8>, b: Seq<u8>, base: int, i: int)
    requires
        base >= 2,
        digits_ok(a, base),
        digits_ok(b, base),
        a.len() == b.len(),
        0 <= i < a.len(),
        forall|j: int| 0 <= j < i ==> a[j] == b[j],
        (a[i] as int) < (b[i] as int),
    ensures
        seq_val(a, base) < seq_val(b, base),
    decreases i,
{
    let p = pow(base, (a.len() - 1) as nat);
    lemma_pow_positive(base, (a.len() - 1) as nat);
    if i == 0 {
        lemma_seq_val_bound(a.drop_first(), base);
        lemma_seq_val_nonneg(b.drop_first(), base);
        lemma_mul_is_distributive_add_other_way(p, a[0] as int, 1);
        lemma_mul_inequality(a[0] as int + 1, b[0] as int, p);
    } else {
        lemma_lex_lt(a.drop_first(), b.drop_first(), base, i - 1);
    }
}

/// Among sequences without leading zeros, a strictly shorter one has the
/// strictly smaller value (provided the longer one is nonempty).
pub proof fn lemma_len_lt(a: Seq<u8>, b: Seq<u8>, base: int)
    requires
        base >= 2,
        digits_ok(a, base),
        a.len() < b.len(),
        b[0] != 0,
    ensures
        seq_val(a, base) < seq_val(b, base),
{
    lemma_seq_val_bound(a, base);
    lemma_seq_val_lower(b, base);
    lemma_pow_increases(base as nat, a.len() as nat, (b.len() - 1) as nat);
}

/// The canonical big-endian digit sequence of a nonnegative value: no leading
/// zeros, empty exactly for zero.
pub open spec fn min_digits(n: int, base: int) -> Seq<u8>
    decreases n via min_digits_decreases
{
    if n <= 0 || base < 2 {
        Seq::empty()
    } else {
        min_digits(n / base, base).push((n % base) as u8)
    }
}

#[via_fn]
proof fn min_digits_decreases(n: int, base: int) {
    if n > 0 && base >= 2 {
        lemma_div_pos_is_pos(n, base);
        lemma_div_is_strictly_smaller(n, base);
    }
}

pub proof fn lemma_min_digits_props(n: int, base: int)
    requires
        2 <= base <= 256,
        n >= 0,
    ensures
        seq_val(min_digits(n, base), base) == n,
        digits_ok(min_digits(n, base), base),
        min_digits(n, base).len() > 0 ==> min_digits(n, base)[0] != 0,
        min_digits(n, base).len() > 0 <==> n > 0,
    decreases n,
{
    if n > 0 {
        let q = n / base;
        let r = n % base;
        lemma_fundamental_div_mod(n, base);
        lemma_div_pos_is_pos(n, base);
        lemma_div_is_strictly_smaller(n, base);
        lemma_min_digits_props(q, base);
        let md = min_digits(n, base);
        let mq = min_digits(q, base);
        assert(0 <= r < base);
        assert(md == mq.push(r as u8));
        assert((r as u8) as int == r);
        lemma_seq_val_push(mq, r as u8, base);
        lemma_mul_is_commutative(q, base);
        assert(seq_val(md, base) == q * base + r);
        assert(digits_ok(md, base)) by {
            assert(forall|i: int|
                0 <= i < mq.len() ==> md[i] == mq[i] && (mq[i] as int) < base);
        };
        if q == 0 {
            lemma_small_div_converse(n, base);
            lemma_small_mod(n as nat, base as nat);
            assert(md[0] == r as u8);
            assert(r == n);
        } else {
            assert(mq.len() > 0);
            assert(md[0] == mq[0]);
        }
    }
}

/// A digit sequence without leading zeros is the canonical sequence of its
/// own value.
pub proof fn lemma_min_digits_of_val(s: Seq<u8>, base: int)
    requires
        2 <= base <= 256,
        digits_ok(s, base),
        s.len() > 0 ==> s[0] != 0,
    ensures
        min_digits(seq_val(s, base), base) == s,
    decreases s.len(),
{
    if s.len() == 0 {
        assert(min_digits(0, base) =~= s);
    } else {
        let t = s.drop_last();
        let d = s.last();
        assert(s =~= t.push(d));
        lemma_seq_val_push(t, d, base);
        let v = seq_val(s, base);
        lemma_seq_val_nonneg(t, base);
        lemma_mul_is_commutative(seq_val(t, base), base);
        lemma_fundamental_div_mod_converse_div(v, base, seq_val(t, base), d as int);
        lemma_fundamental_div_mod_converse_mod(v, base, seq_val(t, base), d as int);
        if s.len() == 1 {
            assert(v == d as int);
            assert(v > 0);
            lemma_min_digits_of_val(t, base);
        } else {
            lemma_seq_val_lower(s, base);
            lemma_pow_positive(base, (s.len() - 1) as nat);
            lemma_min_digits_of_val(t, base);
        }
        assert(min_digits(v, base) =~= min_digits(v / base, base).push((v % base) as u8));
    }
}

/// Compares the values of two stripped digit sequences.
pub fn lt_value(a: &Vec<u8>, b: &Vec<u8>, Ghost(base): Ghost<int>) -> (r: bool)
    requires
        base >= 2,
        digits_ok(a@, base),
        digits_ok(b@, base),
        a@.len() > 0 ==> a@[0] != 0,
        b@.len() > 0 ==> b@[0] != 0,
    ensures
        r == (seq_val(a@, base) < seq_val(b@, base)),
{
    if a.len() < b.len() {
        proof {
            lemma_len_lt(a@, b@, base);
        }
        return true;
    }
    if b.len() < a.len() {
        proof {
            lemma_len_lt(b@, a@, base);
        }
        return false;
    }
    let n = a.len();
    let mut i: usize = 0;
    while i < n
        invariant
            base >= 2,
            digits_ok(a@, base),
            digits_ok(b@, base),
            a@.len() == n,
            b@.len() == n,
            i <= n,
            forall|j: int| 0 <= j < i ==> a@[j] == b@[j],
        decreases n - i,
    {
        let x = a[i];
        let y = b[i];
        if x < y {
            proof {
                lemma_lex_lt(a@, b@, base, i as int);
            }
            return true;
        }
        if y < x {
            proof {
                lemma_lex_lt(b@, a@, base, i as int);
            }
            return false;
        }
        i += 1;
    }
    proof {
        assert(a@ =~= b@);
    }
    false
}

/// Copies `v` with its leading zero digits removed.
pub fn strip_leading_zeros(v: &Vec<u8>) -> (r: Vec<u8>)
    ensures
        r@ == strip_zeros(v@),
{
    let n = v.len();
    let mut i: usize = 0;
    while i < n && v[i] == 0
        invariant
            n == v@.len(),
            i <= n,
            forall|j: int| 0 <= j < i ==> v@[j] == 0,
        decreases n - i,
    {
        i += 1;
    }
    let mut r: Vec<u8> = Vec::new();
    let mut j: usize = i;
    while j < n
        invariant
            n == v@.len(),
            i <= j <= n,
            r@ =~= v@.subrange(i as int, j as int),
        decreases n - j,
    {
        r.push(v[j]);
        assert(r@ =~= v@.subrange(i as int, j + 1));
        j += 1;
    }
    proof {
        lemma_strip_zeros_skip(v@, i as int);
        let tail = v@.subrange(i as int, n as int);
        lemma_strip_zeros_id(tail);
        assert(r@ =~= tail);
    }
    r
}

} // verus!
