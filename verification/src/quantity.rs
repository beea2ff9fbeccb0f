//! Resource quantities: strings such as `200m` or `512Mi`, read as exact
//! decimal numbers.
//!
//! A quantity is held digit by digit, so that it has the very value that its
//! string spells, however long, and two quantities compare exactly.

use vstd::prelude::*;
use crate::error::{Error, ErrorView};
use crate::text::{is_digit, digit_value, count_of, chars_of, string_of};

verus! {

/// The bytes in one binary gigabyte.
pub const GIBI: u128 = 1_073_741_824;

/// Ten to the power `n`.
pub open spec fn pow10(n: nat) -> nat
    decreases n,
{
    if n == 0 {
        1
    } else {
        10 * pow10((n - 1) as nat)
    }
}

/// An exact, non-negative decimal number: `numerator` divided by ten to the
/// power `places`.
pub struct Amount {
    pub numerator: nat,
    pub places: nat,
}

/// `a` is no more than `b`.
pub open spec fn at_most(a: Amount, b: Amount) -> bool {
    a.numerator * pow10(b.places) <= b.numerator * pow10(a.places)
}

/// The whole number `n`.
pub open spec fn whole(n: nat) -> Amount {
    Amount { numerator: n, places: 0 }
}

/// The number that decimal digits spell, the lowest digit first.
pub open spec fn digits_value(s: Seq<u8>) -> nat
    decreases s.len(),
{
    if s.len() == 0 {
        0
    } else {
        digits_value(s.drop_last()) + s.last() as nat * pow10((s.len() - 1) as nat)
    }
}

/// Every element of `s` is a decimal digit.
pub open spec fn all_decimal(s: Seq<u8>) -> bool {
    forall|i: int| 0 <= i < s.len() ==> #[trigger] s[i] <= 9
}

/// An exact, non-negative amount of cores or of bytes.
#[derive(Debug)]
pub struct Quantity {
    /// The decimal digits of the numerator, the lowest first.
    pub digits: Vec<u8>,
    /// How many of the digits stand after the decimal point.
    pub places: u128,
}

impl View for Quantity {
    type V = Amount;

    open spec fn view(&self) -> Amount {
        Amount { numerator: digits_value(self.digits@), places: self.places as nat }
    }
}

impl Clone for Quantity {
    fn clone(&self) -> (r: Self)
        ensures
            r@ == self@,
            r.digits@ == self.digits@,
    {
        let r = Quantity { digits: self.digits.clone(), places: self.places };
        assert(r.digits@ =~= self.digits@);
        r
    }
}

/// A character that can stand in the number of a quantity.
pub open spec fn is_numeral_char(c: char) -> bool {
    is_digit(c) || c == '.'
}

/// The index at which the leading run of digits and points that begins at
/// `from` ends.
pub open spec fn numeral_end(s: Seq<char>, from: int) -> int
    decreases s.len() - from,
{
    if from < 0 || from >= s.len() {
        s.len() as int
    } else if !is_numeral_char(s[from]) {
        from
    } else {
        numeral_end(s, from + 1)
    }
}

/// The number part of a quantity: its leading digits and points.
pub open spec fn number_part(s: Seq<char>) -> Seq<char> {
    s.take(numeral_end(s, 0))
}

/// The unit part of a quantity: what follows the number.
pub open spec fn unit_part(s: Seq<char>) -> Seq<char> {
    s.skip(numeral_end(s, 0))
}

/// A run of digits and points is a decimal number when it holds a digit and at
/// most one point.
pub open spec fn is_numeral(run: Seq<char>) -> bool {
    count_of(run, '.') <= 1 && count_of(run, '.') < run.len()
}

/// The number that the digits of `run` spell when its points are left out.
pub open spec fn mantissa(run: Seq<char>) -> nat
    decreases run.len(),
{
    if run.len() == 0 {
        0
    } else if run.last() == '.' {
        mantissa(run.drop_last())
    } else {
        10 * mantissa(run.drop_last()) + digit_value(run.last())
    }
}

/// How many digits follow the last point of `run`; zero where it has none.
pub open spec fn frac_digits(run: Seq<char>) -> nat
    decreases run.len(),
{
    if run.len() == 0 || run.last() == '.' || count_of(run.drop_last(), '.') == 0 {
        0
    } else {
        frac_digits(run.drop_last()) + 1
    }
}

/// The amount that the decimal number `run` stands for when it is multiplied
/// by `factor` and divided by ten to the power `shift`.
pub open spec fn scaled(run: Seq<char>, factor: nat, shift: nat) -> Amount {
    Amount { numerator: mantissa(run) * factor, places: frac_digits(run) + shift }
}

/// The bytes that one memory unit stands for.
pub open spec fn memory_factor(unit: Seq<char>) -> Option<nat> {
    if unit == Seq::<char>::empty() {
        Some(1)
    } else if unit == seq!['K', 'i'] {
        Some(1024)
    } else if unit == seq!['M', 'i'] {
        Some(1024 * 1024)
    } else if unit == seq!['G', 'i'] {
        Some(1024 * 1024 * 1024)
    } else if unit == seq!['k'] {
        Some(1000)
    } else if unit == seq!['M'] {
        Some(1000 * 1000)
    } else if unit == seq!['G'] {
        Some(1000 * 1000 * 1000)
    } else {
        None
    }
}

/// What a CPU unit does to its number: the factor it multiplies by, and the
/// power of ten it divides by.
pub open spec fn cpu_scale(unit: Seq<char>) -> Option<(nat, nat)> {
    if unit == Seq::<char>::empty() {
        Some((1, 0))
    } else if unit == seq!['m'] {
        Some((1, 3))
    } else if unit == seq!['k'] {
        Some((1000, 0))
    } else {
        None
    }
}

/// The amount of memory that `s` names, in bytes.
pub open spec fn memory_of(s: Seq<char>) -> Result<Amount, ErrorView> {
    if !is_numeral(number_part(s)) {
        Err(ErrorView::InvalidNumber)
    } else {
        match memory_factor(unit_part(s)) {
            None => Err(ErrorView::UnknownUnit(unit_part(s))),
            Some(factor) => Ok(scaled(number_part(s), factor, 0)),
        }
    }
}

/// The amount of CPU that `s` names, in cores.
pub open spec fn cpu_of(s: Seq<char>) -> Result<Amount, ErrorView> {
    if !is_numeral(number_part(s)) {
        Err(ErrorView::InvalidNumber)
    } else {
        match cpu_scale(unit_part(s)) {
            None => Err(ErrorView::UnknownUnit(unit_part(s))),
            Some(scale) => Ok(scaled(number_part(s), scale.0, scale.1)),
        }
    }
}

/// A result that holds a quantity, with the quantity and the error taken by
/// their views.
pub open spec fn amount_outcome(r: Result<Quantity, Error>) -> Result<Amount, ErrorView> {
    match r {
        Ok(q) => Ok(q@),
        Err(e) => Err(e@),
    }
}

pub proof fn lemma_pow10_positive(n: nat)
    ensures
        pow10(n) >= 1,
    decreases n,
{
    if n > 0 {
        lemma_pow10_positive((n - 1) as nat);
    }
}

pub proof fn lemma_pow10_adds(a: nat, b: nat)
    ensures
        pow10(a + b) == pow10(a) * pow10(b),
    decreases a,
{
    if a > 0 {
        lemma_pow10_adds((a - 1) as nat, b);
        assert(pow10(a + b) == 10 * pow10((a + b - 1) as nat));
        assert(10 * (pow10((a - 1) as nat) * pow10(b)) == (10 * pow10((a - 1) as nat)) * pow10(b))
            by (nonlinear_arith);
    } else {
        assert(1 * pow10(b) == pow10(b));
    }
}

/// The lowest `i` digits of `s`, as a number.
pub open spec fn low(s: Seq<u8>, i: nat) -> nat {
    if i <= s.len() {
        digits_value(s.take(i as int))
    } else {
        digits_value(s)
    }
}

/// The digit of `s` at `i`, which is zero beyond its end.
pub open spec fn digit_at(s: Seq<u8>, i: nat) -> nat {
    if i < s.len() {
        s[i as int] as nat
    } else {
        0
    }
}

proof fn lemma_low_step(s: Seq<u8>, i: nat)
    ensures
        low(s, i + 1) == low(s, i) + digit_at(s, i) * pow10(i),
{
    if i < s.len() {
        assert(s.take(i as int + 1).drop_last() =~= s.take(i as int));
    } else if i == s.len() {
        assert(s.take(i as int) =~= s);
    }
}

proof fn lemma_low_bound(s: Seq<u8>, i: nat)
    requires
        all_decimal(s),
    ensures
        low(s, i) < pow10(i),
    decreases i,
{
    if i == 0 {
        assert(s.take(0) =~= Seq::<u8>::empty());
    } else {
        lemma_low_bound(s, (i - 1) as nat);
        lemma_low_step(s, (i - 1) as nat);
        let d = digit_at(s, (i - 1) as nat);
        let p = pow10((i - 1) as nat);
        assert(d <= 9);
        assert(d * p <= 9 * p) by (nonlinear_arith)
            requires
                d <= 9,
        ;
    }
}

/// What a scan of a quantity's number part found.
struct Numeral {
    /// Where the number part ends.
    end: usize,
    /// How many points it holds.
    points: usize,
    /// How many digits follow its last point.
    places: usize,
}

/// Reads the number part of `chars`.
fn scan_number(chars: &Vec<char>) -> (r: Numeral)
    ensures
        r.end == numeral_end(chars@, 0),
        r.end <= chars@.len(),
        forall|k: int| 0 <= k < r.end ==> is_numeral_char(#[trigger] chars@[k]),
        r.points == count_of(number_part(chars@), '.'),
        r.places == frac_digits(number_part(chars@)),
{
    let mut i: usize = 0;
    let mut points: usize = 0;
    let mut places: usize = 0;
    assert(chars@.take(0) =~= Seq::<char>::empty());
    while i < chars.len() && (chars[i] == '.' || ('0' <= chars[i] && chars[i] <= '9'))
        invariant
            i <= chars@.len(),
            numeral_end(chars@, 0) == numeral_end(chars@, i as int),
            forall|k: int| 0 <= k < i ==> is_numeral_char(#[trigger] chars@[k]),
            points == count_of(chars@.take(i as int), '.'),
            points <= i,
            places == frac_digits(chars@.take(i as int)),
            places <= i,
        decreases chars@.len() - i,
    {
        let c: char = chars[i];
        proof {
            assert(chars@.take(i + 1).drop_last() =~= chars@.take(i as int));
            assert(chars@.take(i + 1).last() == c);
        }
        if c == '.' {
            points = points + 1;
            places = 0;
        } else if points > 0 {
            places = places + 1;
        }
        i = i + 1;
    }
    assert(chars@.take(i as int) =~= number_part(chars@));
    Numeral { end: i, points, places }
}

/// The digits of the number part `chars[..end]`, the lowest first.
fn collect_digits(chars: &Vec<char>, end: usize) -> (r: Vec<u8>)
    requires
        end <= chars@.len(),
        forall|k: int| 0 <= k < end ==> is_numeral_char(#[trigger] chars@[k]),
    ensures
        all_decimal(r@),
        digits_value(r@) == mantissa(chars@.take(end as int)),
{
    let ghost run = chars@.take(end as int);
    let mut out: Vec<u8> = Vec::new();
    let mut i: usize = end;
    assert(run.take(end as int) =~= run);
    assert(mantissa(run) * 1 == mantissa(run)) by (nonlinear_arith);
    while i > 0
        invariant
            i <= end <= chars@.len(),
            run == chars@.take(end as int),
            forall|k: int| 0 <= k < end ==> is_numeral_char(#[trigger] chars@[k]),
            all_decimal(out@),
            mantissa(run) == mantissa(run.take(i as int)) * pow10(out@.len()) + digits_value(out@),
        decreases i,
    {
        i = i - 1;
        let c: char = chars[i];
        proof {
            assert(run.take(i + 1).drop_last() =~= run.take(i as int));
            assert(run.take(i + 1).last() == c);
            assert(is_numeral_char(chars@[i as int]));
        }
        if c != '.' {
            let d: u8 = (c as u32 - '0' as u32) as u8;
            let ghost before = out@;
            out.push(d);
            proof {
                let m = mantissa(run.take(i as int));
                let p = pow10(before.len());
                assert(out@.drop_last() =~= before);
                assert(digits_value(out@) == digits_value(before) + d as nat * p);
                assert(d as nat == digit_value(c));
                assert(pow10(out@.len()) == 10 * p);
                assert((10 * m + d as nat) * p == m * (10 * p) + d as nat * p) by (nonlinear_arith);
            }
        }
    }
    assert(run.take(0) =~= Seq::<char>::empty());
    assert(0 * pow10(out@.len()) == 0) by (nonlinear_arith);
    out
}

/// The digits of `factor` times the number that `digits` spell.
fn times(digits: &Vec<u8>, factor: u64) -> (r: Vec<u8>)
    requires
        all_decimal(digits@),
        factor <= 0xffff_ffff,
    ensures
        all_decimal(r@),
        digits_value(r@) == digits_value(digits@) * factor,
{
    let mut out: Vec<u8> = Vec::new();
    let mut carry: u64 = 0;
    let mut i: usize = 0;
    assert(digits@.take(0) =~= Seq::<u8>::empty());
    assert(0 * pow10(0) == 0 && factor * 0 == 0) by (nonlinear_arith);
    while i < digits.len()
        invariant
            i <= digits@.len(),
            out@.len() == i,
            all_decimal(digits@),
            all_decimal(out@),
            factor <= 0xffff_ffff,
            carry <= factor,
            digits_value(out@) + carry * pow10(i as nat) == factor * digits_value(
                digits@.take(i as int),
            ),
        decreases digits@.len() - i,
    {
        let x: u64 = digits[i] as u64;
        assert(x <= 9);
        assert(x * factor <= 9 * 0xffff_ffff) by (nonlinear_arith)
            requires
                x <= 9,
                factor <= 0xffff_ffff,
        ;
        let t: u64 = x * factor + carry;
        let d: u8 = (t % 10) as u8;
        let next: u64 = t / 10;
        let ghost before = out@;
        out.push(d);
        proof {
            let p = pow10(i as nat);
            let v = digits_value(digits@.take(i as int));
            assert(digits@.take(i + 1).drop_last() =~= digits@.take(i as int));
            assert(digits_value(digits@.take(i + 1)) == v + x * p);
            assert(out@.drop_last() =~= before);
            assert(digits_value(out@) == digits_value(before) + d as nat * p);
            assert(pow10((i + 1) as nat) == 10 * p);
            assert(t == 10 * next + d);
            assert(d as nat * p + next * (10 * p) == (x * factor + carry) * p) by (nonlinear_arith)
                requires
                    x * factor + carry == 10 * next + d,
            ;
            assert((x * factor + carry) * p == factor * (x * p) + carry * p) by (nonlinear_arith);
            assert(factor * (v + x * p) == factor * v + factor * (x * p)) by (nonlinear_arith);
            assert(next <= factor) by {
                assert(x * factor <= 9 * factor) by (nonlinear_arith)
                    requires
                        x <= 9,
                ;
            }
        }
        carry = next;
        i = i + 1;
    }
    assert(digits@.take(i as int) =~= digits@);
    let ghost whole_value = digits_value(digits@);
    let ghost total = whole_value * factor;
    assert(factor * whole_value == whole_value * factor) by (nonlinear_arith);
    while carry > 0
        invariant
            all_decimal(out@),
            digits_value(out@) + carry * pow10(out@.len()) == total,
        decreases carry,
    {
        let d: u8 = (carry % 10) as u8;
        let next: u64 = carry / 10;
        let ghost before = out@;
        out.push(d);
        proof {
            let p = pow10(before.len());
            assert(out@.drop_last() =~= before);
            assert(digits_value(out@) == digits_value(before) + d as nat * p);
            assert(pow10(out@.len()) == 10 * p);
            assert(d as nat * p + next * (10 * p) == carry * p) by (nonlinear_arith)
                requires
                    carry == 10 * next + d,
            ;
        }
        carry = next;
    }
    assert(0 * pow10(out@.len()) == 0) by (nonlinear_arith);
    out
}

/// The digits of the number that `digits` spell times ten to the power `by`.
fn shifted(digits: &Vec<u8>, by: u128) -> (r: Vec<u8>)
    requires
        all_decimal(digits@),
    ensures
        all_decimal(r@),
        digits_value(r@) == digits_value(digits@) * pow10(by as nat),
{
    let mut out: Vec<u8> = Vec::new();
    let mut j: u128 = 0;
    while j < by
        invariant
            j <= by,
            out@.len() == j,
            all_decimal(out@),
            digits_value(out@) == 0,
        decreases by - j,
    {
        let ghost before = out@;
        out.push(0);
        proof {
            assert(out@.drop_last() =~= before);
            assert(0 * pow10(before.len()) == 0) by (nonlinear_arith);
        }
        j = j + 1;
    }
    let mut i: usize = 0;
    assert(digits@.take(0) =~= Seq::<u8>::empty());
    assert(pow10(by as nat) * 0 == 0) by (nonlinear_arith);
    while i < digits.len()
        invariant
            i <= digits@.len(),
            out@.len() == by + i,
            all_decimal(digits@),
            all_decimal(out@),
            digits_value(out@) == pow10(by as nat) * digits_value(digits@.take(i as int)),
        decreases digits@.len() - i,
    {
        let d: u8 = digits[i];
        let ghost before = out@;
        out.push(d);
        proof {
            let shift = pow10(by as nat);
            let p = pow10(i as nat);
            let v = digits_value(digits@.take(i as int));
            assert(digits@.take(i + 1).drop_last() =~= digits@.take(i as int));
            assert(digits_value(digits@.take(i + 1)) == v + d as nat * p);
            assert(out@.drop_last() =~= before);
            lemma_pow10_adds(by as nat, i as nat);
            assert(digits_value(out@) == digits_value(before) + d as nat * (shift * p));
            assert(shift * (v + d as nat * p) == shift * v + d as nat * (shift * p))
                by (nonlinear_arith);
        }
        i = i + 1;
    }
    assert(digits@.take(i as int) =~= digits@);
    assert(pow10(by as nat) * digits_value(digits@) == digits_value(digits@) * pow10(by as nat))
        by (nonlinear_arith);
    out
}

/// Tells whether the number that `x` spells is greater than the number that
/// `y` spells.
fn greater(x: &Vec<u8>, y: &Vec<u8>) -> (r: bool)
    requires
        all_decimal(x@),
        all_decimal(y@),
    ensures
        r == (digits_value(x@) > digits_value(y@)),
{
    let n: usize = if x.len() > y.len() {
        x.len()
    } else {
        y.len()
    };
    let mut i: usize = n;
    assert(x@.take(x@.len() as int) =~= x@);
    assert(y@.take(y@.len() as int) =~= y@);
    while i > 0
        invariant
            i <= n,
            n >= x@.len(),
            n >= y@.len(),
            all_decimal(x@),
            all_decimal(y@),
            digits_value(x@) > digits_value(y@) <==> low(x@, i as nat) > low(y@, i as nat),
        decreases i,
    {
        i = i - 1;
        let a: u8 = if i < x.len() {
            x[i]
        } else {
            0
        };
        let b: u8 = if i < y.len() {
            y[i]
        } else {
            0
        };
        proof {
            lemma_low_step(x@, i as nat);
            lemma_low_step(y@, i as nat);
            lemma_low_bound(x@, i as nat);
            lemma_low_bound(y@, i as nat);
            assert(a as nat == digit_at(x@, i as nat));
            assert(b as nat == digit_at(y@, i as nat));
        }
        if a != b {
            proof {
                let p = pow10(i as nat);
                if a > b {
                    assert(a as nat * p >= (b as nat + 1) * p) by (nonlinear_arith)
                        requires
                            a > b,
                    ;
                    assert((b as nat + 1) * p == b as nat * p + p) by (nonlinear_arith);
                } else {
                    assert(b as nat * p >= (a as nat + 1) * p) by (nonlinear_arith)
                        requires
                            b > a,
                    ;
                    assert((a as nat + 1) * p == a as nat * p + p) by (nonlinear_arith);
                }
            }
            return a > b;
        }
    }
    assert(x@.take(0) =~= Seq::<u8>::empty());
    assert(y@.take(0) =~= Seq::<u8>::empty());
    false
}

impl Quantity {
    /// Every digit is a decimal digit.
    pub open spec fn wf(&self) -> bool {
        all_decimal(self.digits@)
    }

    /// The whole number `n` as a quantity.
    pub fn from_whole(n: u128) -> (r: Quantity)
        ensures
            r@ == whole(n as nat),
            r.wf(),
    {
        let mut out: Vec<u8> = Vec::new();
        let mut rest: u128 = n;
        assert(n * pow10(0) == n) by (nonlinear_arith);
        while rest > 0
            invariant
                all_decimal(out@),
                digits_value(out@) + rest * pow10(out@.len()) == n,
            decreases rest,
        {
            let d: u8 = (rest % 10) as u8;
            let next: u128 = rest / 10;
            let ghost before = out@;
            out.push(d);
            proof {
                let p = pow10(before.len());
                assert(out@.drop_last() =~= before);
                assert(digits_value(out@) == digits_value(before) + d as nat * p);
                assert(pow10(out@.len()) == 10 * p);
                assert(d as nat * p + next * (10 * p) == rest * p) by (nonlinear_arith)
                    requires
                        rest == 10 * next + d,
                ;
            }
            rest = next;
        }
        assert(0 * pow10(out@.len()) == 0) by (nonlinear_arith);
        Quantity { digits: out, places: 0 }
    }

    /// Tells whether this quantity is greater than `other`.
    pub fn exceeds(&self, other: &Quantity) -> (r: bool)
        requires
            self.wf(),
            other.wf(),
        ensures
            r == !at_most(self@, other@),
    {
        let mine: Vec<u8> = shifted(&self.digits, other.places);
        let theirs: Vec<u8> = shifted(&other.digits, self.places);
        greater(&mine, &theirs)
    }
}

/// Scales a scanned number by a unit.
fn scale_number(chars: &Vec<char>, n: &Numeral, factor: u64, shift: u8) -> (r: Quantity)
    requires
        n.end <= chars@.len(),
        forall|k: int| 0 <= k < n.end ==> is_numeral_char(#[trigger] chars@[k]),
        n.places == frac_digits(chars@.take(n.end as int)),
        factor <= 0xffff_ffff,
    ensures
        r@ == scaled(chars@.take(n.end as int), factor as nat, shift as nat),
        r.wf(),
{
    let digits: Vec<u8> = collect_digits(chars, n.end);
    let product: Vec<u8> = times(&digits, factor);
    Quantity { digits: product, places: n.places as u128 + shift as u128 }
}

/// The bytes that the unit `chars[from..]` stands for, if it is a memory unit.
fn memory_unit(chars: &Vec<char>, from: usize) -> (r: Option<u64>)
    requires
        from <= chars@.len(),
    ensures
        r is Some <==> memory_factor(chars@.skip(from as int)) is Some,
        r is Some ==> r->0 == memory_factor(chars@.skip(from as int))->0 && r->0 <= 0xffff_ffff,
{
    let len: usize = chars.len() - from;
    let ghost unit = chars@.skip(from as int);
    if len == 0 {
        assert(unit =~= Seq::<char>::empty());
        return Some(1);
    }
    let c: char = chars[from];
    assert(unit[0] == c);
    if len == 1 {
        if c == 'k' {
            assert(unit =~= seq!['k']);
            return Some(1000);
        }
        if c == 'M' {
            assert(unit =~= seq!['M']);
            return Some(1000 * 1000);
        }
        if c == 'G' {
            assert(unit =~= seq!['G']);
            return Some(1000 * 1000 * 1000);
        }
    }
    if len == 2 && chars[from + 1] == 'i' {
        assert(unit[1] == 'i');
        if c == 'K' {
            assert(unit =~= seq!['K', 'i']);
            return Some(1024);
        }
        if c == 'M' {
            assert(unit =~= seq!['M', 'i']);
            return Some(1024 * 1024);
        }
        if c == 'G' {
            assert(unit =~= seq!['G', 'i']);
            return Some(1024 * 1024 * 1024);
        }
    }
    assert(memory_factor(unit) is None) by {
        assert(unit.len() == len);
        assert(seq!['K', 'i'].len() == 2 && seq!['M', 'i'].len() == 2 && seq!['G', 'i'].len() == 2);
        assert(seq!['k'].len() == 1 && seq!['M'].len() == 1 && seq!['G'].len() == 1);
        assert(Seq::<char>::empty().len() == 0);
        assert(seq!['K', 'i'][1] == 'i' && seq!['M', 'i'][1] == 'i' && seq!['G', 'i'][1] == 'i');
        assert(seq!['K', 'i'][0] == 'K' && seq!['M', 'i'][0] == 'M' && seq!['G', 'i'][0] == 'G');
        assert(seq!['k'][0] == 'k' && seq!['M'][0] == 'M' && seq!['G'][0] == 'G');
    }
    None
}

/// Reads a memory quantity such as `512Mi`: a decimal number, then one of the
/// units `Ki`, `Mi`, `Gi` (powers of 1024), `k`, `M`, `G` (powers of 1000), or
/// none for bytes.
pub fn parse_memory(s: &str) -> (r: Result<Quantity, Error>)
    ensures
        amount_outcome(r) == memory_of(s@),
        r is Ok ==> r->Ok_0.wf(),
{
    let chars: Vec<char> = chars_of(s);
    let n: Numeral = scan_number(&chars);
    if n.points > 1 || n.points >= n.end {
        return Err(Error::InvalidNumber);
    }
    match memory_unit(&chars, n.end) {
        None => Err(Error::UnknownUnit(string_of(&chars, n.end, chars.len()))),
        Some(f) => Ok(scale_number(&chars, &n, f, 0)),
    }
}

/// Reads a CPU quantity such as `200m`: a decimal number, then `m` for
/// thousandths of a core, `k` for thousands, or no unit for whole cores.
pub fn parse_cpu(s: &str) -> (r: Result<Quantity, Error>)
    ensures
        amount_outcome(r) == cpu_of(s@),
        r is Ok ==> r->Ok_0.wf(),
{
    let chars: Vec<char> = chars_of(s);
    let n: Numeral = scan_number(&chars);
    if n.points > 1 || n.points >= n.end {
        return Err(Error::InvalidNumber);
    }
    let len: usize = chars.len() - n.end;
    let ghost unit = unit_part(s@);
    if len == 0 {
        assert(unit =~= Seq::<char>::empty());
        return Ok(scale_number(&chars, &n, 1, 0));
    }
    if len == 1 {
        let c: char = chars[n.end];
        assert(unit[0] == c);
        if c == 'm' {
            assert(unit =~= seq!['m']);
            return Ok(scale_number(&chars, &n, 1, 3));
        }
        if c == 'k' {
            assert(unit =~= seq!['k']);
            return Ok(scale_number(&chars, &n, 1000, 0));
        }
    }
    assert(cpu_scale(unit) is None);
    Err(Error::UnknownUnit(string_of(&chars, n.end, chars.len())))
}

} // verus!
