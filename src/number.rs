use vstd::prelude::*;
use num::{BigUint, CheckedSub};

verus! {

/// The value of decimal digits, most significant first.
pub open spec fn digits_value(s: Seq<u8>) -> nat
    decreases s.len(),
{
    if s.len() == 0 {
        0
    } else {
        digits_value(s.drop_last()) * 10 + s.last() as nat
    }
}

pub open spec fn all_digits(s: Seq<u8>) -> bool {
    forall|i: int| 0 <= i < s.len() ==> #[trigger] s[i] < 10
}

/// An unsigned integer of any size, as its decimal digits, most significant
/// first, without leading zeros (zero has no digits).
#[derive(Debug, PartialEq, Eq)]
pub struct Number {
    pub digits: Vec<u8>,
}

impl View for Number {
    type V = nat;

    open spec fn view(&self) -> nat {
        digits_value(self.digits@)
    }
}

impl Number {
    pub open spec fn wf(&self) -> bool {
        all_digits(self.digits@) && (self.digits@.len() == 0 || self.digits@[0] != 0)
    }

    pub fn zero() -> (r: Number)
        ensures
            r.wf(),
            r@ == 0,
    {
        Number { digits: Vec::new() }
    }

    pub fn from_u64(n: u64) -> (r: Number)
        ensures
            r.wf(),
            r@ == n,
    {
        let mut rev: Vec<u8> = Vec::new();
        let mut m = n;
        assert(rev@.reverse() =~= Seq::<u8>::empty());
        assert(digits_value(Seq::<u8>::empty()) == 0);
        assert(pow10(0) == 1);
        while m > 0
            invariant
                all_digits(rev@),
                rev@.len() == 0 || rev@[rev@.len() - 1] != 0 || m > 0,
                digits_value(rev@.reverse()) + m * pow10(rev@.len()) == n,
            decreases m,
        {
            let d = (m % 10) as u8;
            let ghost before = rev@;
            rev.push(d);
            proof {
                lemma_value_prepend(before.reverse(), d);
                assert(rev@.reverse() =~= seq![d] + before.reverse());
                assert(pow10(rev@.len()) == 10 * pow10(before.len()));
                assert(m == (m / 10) * 10 + d) by (nonlinear_arith)
                    requires d == m % 10;
                assert((m / 10) * pow10(rev@.len()) == (m / 10) * 10 * pow10(before.len()))
                    by (nonlinear_arith)
                    requires pow10(rev@.len()) == 10 * pow10(before.len());
                assert(m * pow10(before.len()) == ((m / 10) * 10 + d) * pow10(before.len()));
                assert(((m / 10) * 10 + d) * pow10(before.len()) == (m / 10) * 10 * pow10(before.len()) + d * pow10(before.len()))
                    by (nonlinear_arith);
            }
            m = m / 10;
        }
        let mut digits: Vec<u8> = Vec::new();
        let mut i = rev.len();
        while i > 0
            invariant
                i <= rev.len(),
                digits@ =~= rev@.reverse().take(rev@.len() - i),
            decreases i,
        {
            i -= 1;
            digits.push(rev[i]);
        }
        assert(digits@ =~= rev@.reverse());
        Number { digits }
    }
}

pub open spec fn pow10(n: nat) -> nat
    decreases n,
{
    if n == 0 {
        1
    } else {
        10 * pow10((n - 1) as nat)
    }
}

/// Putting a digit in front adds it at the highest place.
pub proof fn lemma_value_prepend(s: Seq<u8>, d: u8)
    ensures
        digits_value(seq![d] + s) == d * pow10(s.len()) + digits_value(s),
    decreases s.len(),
{
    if s.len() == 0 {
        assert(seq![d] + s =~= seq![d]);
        assert(seq![d].drop_last() =~= Seq::<u8>::empty());
        assert(digits_value(Seq::<u8>::empty()) == 0);
        assert(seq![d].last() == d);
        assert(digits_value(seq![d]) == d as nat);
        assert(pow10(0) == 1);
    } else {
        lemma_value_prepend(s.drop_last(), d);
        let t = seq![d] + s;
        assert(t.drop_last() =~= seq![d] + s.drop_last());
        assert(t.last() == s.last());
        let a = d * pow10((s.len() - 1) as nat);
        let b = digits_value(s.drop_last());
        assert(digits_value(t) == (a + b) * 10 + s.last() as nat);
        assert((a + b) * 10 == a * 10 + b * 10) by (nonlinear_arith);
        assert(pow10(s.len()) == 10 * pow10((s.len() - 1) as nat));
        assert(d * pow10(s.len()) == 10 * (d * pow10((s.len() - 1) as nat))) by (nonlinear_arith)
            requires pow10(s.len()) == 10 * pow10((s.len() - 1) as nat);
        assert(digits_value(s) == b * 10 + s.last() as nat);
    }
}

/// The value of two digit sequences one after the other.
pub proof fn lemma_value_append(a: Seq<u8>, b: Seq<u8>)
    ensures
        digits_value(a + b) == digits_value(a) * pow10(b.len()) + digits_value(b),
    decreases b.len(),
{
    if b.len() == 0 {
        assert(a + b =~= a);
        assert(digits_value(b) == 0);
        assert(pow10(0) == 1);
    } else {
        lemma_value_append(a, b.drop_last());
        assert((a + b).drop_last() =~= a + b.drop_last());
        assert((a + b).last() == b.last());
        let x = digits_value(a);
        let p = pow10((b.len() - 1) as nat);
        let y = digits_value(b.drop_last());
        assert((x * p + y) * 10 == x * (10 * p) + y * 10) by (nonlinear_arith);
    }
}

/// Leading zeros do not change the value.
pub proof fn lemma_leading_zero(s: Seq<u8>)
    requires
        s.len() > 0,
        s[0] == 0,
    ensures
        digits_value(s) == digits_value(s.drop_first()),
{
    lemma_value_prepend(s.drop_first(), 0);
    assert(seq![0u8] + s.drop_first() =~= s);
}

/// The digits of `s` from the first that is not zero on: the same value,
/// without leading zeros.
pub fn strip_leading_zeros(s: &Vec<u8>) -> (r: Number)
    requires
        all_digits(s@),
    ensures
        r.wf(),
        r@ == digits_value(s@),
{
    let mut k: usize = 0;
    assert(s@.subrange(0, s@.len() as int) =~= s@);
    while k < s.len() && s[k] == 0
        invariant
            k <= s.len(),
            digits_value(s@) == digits_value(s@.subrange(k as int, s@.len() as int)),
        decreases s.len() - k,
    {
        proof {
            let rest = s@.subrange(k as int, s@.len() as int);
            lemma_leading_zero(rest);
            assert(rest.drop_first() =~= s@.subrange(k + 1, s@.len() as int));
        }
        k += 1;
    }
    let mut digits: Vec<u8> = Vec::new();
    let mut i = k;
    while i < s.len()
        invariant
            k <= i <= s.len(),
            digits@ =~= s@.subrange(k as int, i as int),
        decreases s.len() - i,
    {
        digits.push(s[i]);
        i += 1;
    }
    Number { digits }
}

/// The decimal digits of `n`, most significant first, without leading zeros.
pub open spec fn nat_digits(n: nat) -> Seq<u8>
    decreases n,
{
    if n == 0 {
        Seq::empty()
    } else {
        nat_digits(n / 10).push((n % 10) as u8)
    }
}

/// `n` written in decimal.
pub open spec fn decimal_text(n: nat) -> Seq<char> {
    if n == 0 {
        seq!['0']
    } else {
        nat_digits(n).map_values(|d: u8| ((d as u32) + 48) as char)
    }
}

proof fn lemma_div_mod_10(x: nat, l: nat)
    requires
        l < 10,
    ensures
        (x * 10 + l) / 10 == x,
        (x * 10 + l) % 10 == l,
{
    assert((x * 10 + l) / 10 == x) by (nonlinear_arith)
        requires l < 10;
    assert((x * 10 + l) % 10 == l) by (nonlinear_arith)
        requires l < 10;
}

/// A well-formed number that has digits is positive.
pub proof fn lemma_positive(d: Seq<u8>)
    requires
        all_digits(d),
        d.len() > 0,
        d[0] != 0,
    ensures
        digits_value(d) > 0,
    decreases d.len(),
{
    if d.len() == 1 {
        assert(d.drop_last() =~= Seq::<u8>::empty());
        assert(digits_value(Seq::<u8>::empty()) == 0);
    } else {
        lemma_positive(d.drop_last());
    }
}

/// Well-formed digits are the decimal digits of their value.
pub proof fn lemma_canonical(d: Seq<u8>)
    requires
        all_digits(d),
        d.len() == 0 || d[0] != 0,
    ensures
        d == nat_digits(digits_value(d)),
    decreases d.len(),
{
    if d.len() == 0 {
        assert(d =~= Seq::<u8>::empty());
    } else {
        let p = d.drop_last();
        lemma_canonical(p);
        lemma_positive(d);
        lemma_div_mod_10(digits_value(p), d.last() as nat);
        assert(d =~= p.push(d.last()));
    }
}

impl Number {
    /// The number in decimal, "0" for zero.
    pub fn to_decimal_string(&self) -> (r: String)
        requires
            self.wf(),
        ensures
            r@ == decimal_text(self@),
    {
        proof {
            lemma_canonical(self.digits@);
        }
        let mut r = String::new();
        if self.digits.len() == 0 {
            crate::chars::push_char(&mut r, '0');
            return r;
        }
        proof {
            lemma_positive(self.digits@);
        }
        let mut i: usize = 0;
        while i < self.digits.len()
            invariant
                i <= self.digits.len(),
                self.wf(),
                r@ =~= self.digits@.take(i as int).map_values(|d: u8| ((d as u32) + 48) as char),
            decreases self.digits.len() - i,
        {
            let d = self.digits[i];
            assert(d < 10);
            crate::chars::push_char(&mut r, ((d + 48) as char));
            i += 1;
            assert(r@ =~= self.digits@.take(i as int).map_values(|d: u8| ((d as u32) + 48) as char));
        }
        assert(self.digits@.take(i as int) =~= self.digits@);
        r
    }
}

/// Relies on num-bigint's `BigUint::from_radix_be` and `to_radix_be` (decimal
/// digits, most significant first, each below 10) and on `BigUint` addition.
#[verifier::external_body]
fn big_add(a: &Vec<u8>, b: &Vec<u8>) -> (r: Vec<u8>)
    requires
        all_digits(a@),
        all_digits(b@),
    ensures
        all_digits(r@),
        digits_value(r@) == digits_value(a@) + digits_value(b@),
{
    let x = BigUint::from_radix_be(a, 10).unwrap();
    let y = BigUint::from_radix_be(b, 10).unwrap();
    (x + y).to_radix_be(10)
}

/// Relies on num-bigint's `BigUint::from_radix_be`, `to_radix_be` and
/// `CheckedSub::checked_sub`, which gives `None` exactly when `b > a`.
#[verifier::external_body]
fn big_checked_sub(a: &Vec<u8>, b: &Vec<u8>) -> (r: Option<Vec<u8>>)
    requires
        all_digits(a@),
        all_digits(b@),
    ensures
        r is Some <==> digits_value(a@) >= digits_value(b@),
        r matches Some(d) ==> all_digits(d@) && digits_value(d@) == digits_value(a@) - digits_value(b@),
{
    let x = BigUint::from_radix_be(a, 10).unwrap();
    let y = BigUint::from_radix_be(b, 10).unwrap();
    match x.checked_sub(&y) {
        Some(d) => Some(d.to_radix_be(10)),
        None => None,
    }
}

/// Relies on num-bigint's `BigUint::from_radix_be` and on `Ord for BigUint`,
/// which orders by value.
#[verifier::external_body]
fn big_cmp(a: &Vec<u8>, b: &Vec<u8>) -> (r: core::cmp::Ordering)
    requires
        all_digits(a@),
        all_digits(b@),
    ensures
        r == core::cmp::Ordering::Less <==> digits_value(a@) < digits_value(b@),
        r == core::cmp::Ordering::Equal <==> digits_value(a@) == digits_value(b@),
        r == core::cmp::Ordering::Greater <==> digits_value(a@) > digits_value(b@),
{
    let x = BigUint::from_radix_be(a, 10).unwrap();
    let y = BigUint::from_radix_be(b, 10).unwrap();
    x.cmp(&y)
}

impl Number {
    /// A copy with the same digits.
    pub fn copy(&self) -> (r: Number)
        ensures
            r.digits@ == self.digits@,
    {
        let mut digits: Vec<u8> = Vec::new();
        let mut i: usize = 0;
        while i < self.digits.len()
            invariant
                i <= self.digits.len(),
                digits@ =~= self.digits@.take(i as int),
            decreases self.digits.len() - i,
        {
            digits.push(self.digits[i]);
            i += 1;
        }
        assert(self.digits@.take(i as int) =~= self.digits@);
        Number { digits }
    }

    /// The sum.
    pub fn add(&self, other: &Number) -> (r: Number)
        requires
            self.wf(),
            other.wf(),
        ensures
            r.wf(),
            r@ == self@ + other@,
    {
        strip_leading_zeros(&big_add(&self.digits, &other.digits))
    }

    /// The difference, or zero where `other` is the larger.
    pub fn saturating_sub(&self, other: &Number) -> (r: Number)
        requires
            self.wf(),
            other.wf(),
        ensures
            r.wf(),
            r@ == if self@ >= other@ {
                (self@ - other@) as nat
            } else {
                0nat
            },
    {
        match big_checked_sub(&self.digits, &other.digits) {
            Some(d) => strip_leading_zeros(&d),
            None => Number::zero(),
        }
    }

    /// Compares by value.
    pub fn compare(&self, other: &Number) -> (r: core::cmp::Ordering)
        requires
            self.wf(),
            other.wf(),
        ensures
            r == core::cmp::Ordering::Less <==> self@ < other@,
            r == core::cmp::Ordering::Equal <==> self@ == other@,
            r == core::cmp::Ordering::Greater <==> self@ > other@,
    {
        big_cmp(&self.digits, &other.digits)
    }
}

} // verus!
