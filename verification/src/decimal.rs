//! Fixed-point decimal numbers with three decimal places.
//!
//! Readings such as a CPU percentage, and figures such as a confidence, are
//! held as a whole number of thousandths, so that every threshold is an exact
//! integer comparison.

use crate::text::{decimal, digit, digit_char, is_digit, push_decimal, slice_chars};
use vstd::prelude::*;

verus! {

/// A decimal number, held as a count of thousandths.
#[derive(Clone, Copy, Debug, PartialEq, Eq, Structural)]
pub struct Decimal {
    pub milli: i64,
}

/// The largest whole part that a parsed numeral may have.
pub const WHOLE_CAP: u64 = 10_000_000_000_000_000;

/// The absolute value of `x`.
pub open spec fn magnitude(x: int) -> nat {
    if x < 0 {
        (-x) as nat
    } else {
        x as nat
    }
}

/// The fraction digits of `frac` thousandths, without trailing zeros, after a
/// decimal point; nothing where `frac` is zero.
pub open spec fn fraction_text(frac: nat) -> Seq<char> {
    if frac == 0 {
        Seq::empty()
    } else if frac % 100 == 0 {
        seq!['.', digit_char(frac / 100)]
    } else if frac % 10 == 0 {
        seq!['.', digit_char(frac / 100), digit_char(frac / 10 % 10)]
    } else {
        seq!['.', digit_char(frac / 100), digit_char(frac / 10 % 10), digit_char(frac % 10)]
    }
}

/// The shortest decimal numeral of `milli` thousandths.
pub open spec fn shortest_text(milli: int) -> Seq<char> {
    let a = magnitude(milli);
    let sign = if milli < 0 {
        seq!['-']
    } else {
        Seq::<char>::empty()
    };
    sign + decimal(a / 1000) + fraction_text(a % 1000)
}

/// `a` thousandths in tenths, rounded to the nearest; a tie goes to the even
/// tenth.
pub open spec fn rounded_tenths(a: nat) -> nat {
    let q = a / 100;
    let r = a % 100;
    if r > 50 || (r == 50 && q % 2 == 1) {
        q + 1
    } else {
        q
    }
}

/// The numeral of `milli` thousandths with one decimal place.
pub open spec fn one_place_text(milli: int) -> Seq<char> {
    let t = rounded_tenths(magnitude(milli));
    let sign = if milli < 0 {
        seq!['-']
    } else {
        Seq::<char>::empty()
    };
    sign + decimal(t / 10) + seq!['.', digit_char(t % 10)]
}

/// The value of the decimal digit `c`; zero for any other character.
pub open spec fn digit_value(c: char) -> nat {
    if is_digit(c) {
        (c as int - '0' as int) as nat
    } else {
        0
    }
}

/// Every character of `s` is a decimal digit.
pub open spec fn all_digits(s: Seq<char>) -> bool {
    forall|i: int| 0 <= i < s.len() ==> is_digit(#[trigger] s[i])
}

/// The number that the digits of `s` spell.
pub open spec fn digits_value(s: Seq<char>) -> nat
    decreases s.len(),
{
    if s.len() == 0 {
        0
    } else {
        digits_value(s.drop_last()) * 10 + digit_value(s.last())
    }
}

/// The index of the first decimal point of `s`, or its length.
pub open spec fn point_index(s: Seq<char>, from: int) -> int
    decreases s.len() - from,
{
    if from < 0 || from >= s.len() {
        s.len() as int
    } else if s[from] == '.' {
        from
    } else {
        point_index(s, from + 1)
    }
}

/// The thousandths that the fraction digits `frac` spell; digits after the
/// third are dropped.
pub open spec fn fraction_value(frac: Seq<char>) -> nat {
    let d0 = if frac.len() > 0 {
        digit_value(frac[0])
    } else {
        0
    };
    let d1 = if frac.len() > 1 {
        digit_value(frac[1])
    } else {
        0
    };
    let d2 = if frac.len() > 2 {
        digit_value(frac[2])
    } else {
        0
    };
    d0 * 100 + d1 * 10 + d2
}

/// `s` without a leading sign.
pub open spec fn unsigned_part(s: Seq<char>) -> Seq<char> {
    if s.len() > 0 && (s[0] == '-' || s[0] == '+') {
        s.drop_first()
    } else {
        s
    }
}

/// The thousandths that the numeral `s` spells: an optional sign, then digits
/// with an optional decimal point among them, and at least one digit. `None`
/// for any other text.
pub open spec fn numeral_value(s: Seq<char>) -> Option<int> {
    let body = unsigned_part(s);
    let p = point_index(body, 0);
    let whole = body.take(p);
    let frac = if p < body.len() {
        body.skip(p + 1)
    } else {
        Seq::<char>::empty()
    };
    if all_digits(whole) && all_digits(frac) && whole.len() + frac.len() > 0 {
        let m = digits_value(whole) * 1000 + fraction_value(frac);
        if s[0] == '-' {
            Some(-m)
        } else {
            Some(m as int)
        }
    } else {
        None
    }
}

/// The thousandths that the numeral `s` spells, where they fit the number
/// type.
pub open spec fn parsed(s: Seq<char>) -> Option<int> {
    match numeral_value(s) {
        Some(m) => if i64::MIN <= m <= i64::MAX {
            Some(m)
        } else {
            None
        },
        None => None,
    }
}

/// The smaller of two numbers.
pub open spec fn least(a: nat, b: nat) -> nat {
    if a <= b {
        a
    } else {
        b
    }
}

/// The number that the digits of `v` spell, capped at `WHOLE_CAP`; `None`
/// where some character is no digit.
fn capped_digits(v: &Vec<char>) -> (r: Option<u64>)
    ensures
        r is Some <==> all_digits(v@),
        r matches Some(n) ==> n as nat == least(digits_value(v@), WHOLE_CAP as nat),
{
    let mut acc: u64 = 0;
    let mut i: usize = 0;
    proof {
        assert(v@.take(0) =~= Seq::<char>::empty());
    }
    while i < v.len()
        invariant
            i <= v.len(),
            all_digits(v@.take(i as int)),
            acc as nat == least(digits_value(v@.take(i as int)), WHOLE_CAP as nat),
        decreases v.len() - i,
    {
        let c = v[i];
        if !(c >= '0' && c <= '9') {
            return None;
        }
        let d: u64 = (c as u64) - ('0' as u64);
        proof {
            assert(v@.take(i + 1).drop_last() =~= v@.take(i as int));
            assert(v@.take(i + 1).last() == c);
            assert(d as nat == digit_value(c));
            assert forall|k: int| 0 <= k < i + 1 implies is_digit(#[trigger] v@.take(i + 1)[k]) by {
                if k < i {
                    assert(v@.take(i as int)[k] == v@.take(i + 1)[k]);
                }
            }
        }
        let next: u64 = acc * 10 + d;
        acc = if next > WHOLE_CAP {
            WHOLE_CAP
        } else {
            next
        };
        i += 1;
    }
    proof {
        assert(v@.take(v.len() as int) =~= v@);
    }
    Some(acc)
}

/// The index of the first decimal point of `v`, or its length.
fn find_point(v: &Vec<char>) -> (p: usize)
    ensures
        p as int == point_index(v@, 0),
        p <= v.len(),
{
    let mut i: usize = 0;
    while i < v.len()
        invariant
            i <= v.len(),
            point_index(v@, 0) == point_index(v@, i as int),
        decreases v.len() - i,
    {
        if v[i] == '.' {
            return i;
        }
        i += 1;
    }
    i
}

/// The value of the digit at index `i` of `v`, or zero past its end.
fn digit_at(v: &Vec<char>, i: usize) -> (d: u64)
    requires
        all_digits(v@),
    ensures
        d < 10,
        d as nat == if i < v.len() {
            digit_value(v@[i as int])
        } else {
            0
        },
{
    if i < v.len() {
        let c = v[i];
        assert(is_digit(v@[i as int]));
        (c as u64) - ('0' as u64)
    } else {
        0
    }
}

impl Decimal {
    /// The number is greater than the whole number `whole`.
    pub open spec fn exceeds(self, whole: int) -> bool {
        self.milli > whole * 1000
    }

    /// The number of `milli` thousandths.
    pub fn from_milli(milli: i64) -> (r: Decimal)
        ensures
            r.milli == milli,
    {
        Decimal { milli }
    }

    /// The whole number `n`.
    pub fn from_whole(n: u32) -> (r: Decimal)
        ensures
            r.milli == n * 1000,
    {
        Decimal { milli: (n as i64) * 1000 }
    }

    /// Whether the number is greater than the whole number `whole`.
    pub fn gt_whole(&self, whole: u32) -> (r: bool)
        ensures
            r == self.exceeds(whole as int),
    {
        self.milli > (whole as i64) * 1000
    }

    /// The absolute value, in thousandths.
    fn abs_milli(&self) -> (a: u64)
        ensures
            a as nat == magnitude(self.milli as int),
    {
        let wide: i128 = self.milli as i128;
        if wide < 0 {
            (-wide) as u64
        } else {
            wide as u64
        }
    }

    /// Appends the shortest decimal numeral of the number to `out`: no
    /// decimal point where the number is whole, no trailing zeros.
    pub fn push_shortest(&self, out: &mut Vec<char>)
        ensures
            final(out)@ == old(out)@ + shortest_text(self.milli as int),
    {
        let a: u64 = self.abs_milli();
        let ghost sign = if self.milli < 0 {
            seq!['-']
        } else {
            Seq::<char>::empty()
        };
        if self.milli < 0 {
            out.push('-');
        }
        assert(out@ =~= old(out)@ + sign);
        push_decimal(out, (a / 1000) as u128);
        let frac: u64 = a % 1000;
        let ghost mid = out@;
        if frac != 0 {
            out.push('.');
            out.push(digit((frac / 100) as u128));
            if frac % 100 != 0 {
                out.push(digit((frac / 10 % 10) as u128));
                if frac % 10 != 0 {
                    out.push(digit((frac % 10) as u128));
                }
            }
        }
        proof {
            assert(out@ =~= mid + fraction_text(frac as nat));
            assert(out@ =~= old(out)@ + shortest_text(self.milli as int));
        }
    }

    /// Appends the numeral of the number with one decimal place to `out`; the
    /// number is rounded to the nearest tenth, a tie to the even one.
    pub fn push_one_place(&self, out: &mut Vec<char>)
        ensures
            final(out)@ == old(out)@ + one_place_text(self.milli as int),
    {
        let a: u64 = self.abs_milli();
        let q: u64 = a / 100;
        let r: u64 = a % 100;
        let t: u64 = if r > 50 || (r == 50 && q % 2 == 1) {
            q + 1
        } else {
            q
        };
        let ghost sign = if self.milli < 0 {
            seq!['-']
        } else {
            Seq::<char>::empty()
        };
        if self.milli < 0 {
            out.push('-');
        }
        assert(out@ =~= old(out)@ + sign);
        push_decimal(out, (t / 10) as u128);
        out.push('.');
        out.push(digit((t % 10) as u128));
        proof {
            assert(out@ =~= old(out)@ + one_place_text(self.milli as int));
        }
    }

    /// The shortest decimal numeral of the number.
    pub fn to_text(&self) -> (r: String)
        ensures
            r@ == shortest_text(self.milli as int),
    {
        let mut out: Vec<char> = Vec::new();
        self.push_shortest(&mut out);
        crate::text::string_of(&out)
    }

    /// The number that the numeral `s` spells, where it is one and the number
    /// fits.
    pub fn parse(s: &Vec<char>) -> (r: Option<Decimal>)
        ensures
            r == match parsed(s@) {
                Some(m) => Some(Decimal { milli: m as i64 }),
                None => None,
            },
    {
        let n: usize = s.len();
        let signed: bool = n > 0 && (s[0] == '-' || s[0] == '+');
        let negative: bool = n > 0 && s[0] == '-';
        let body = if signed {
            slice_chars(s, 1, n)
        } else {
            slice_chars(s, 0, n)
        };
        proof {
            assert(body@ =~= unsigned_part(s@));
        }
        let p: usize = find_point(&body);
        let whole = slice_chars(&body, 0, p);
        let frac = if p < body.len() {
            slice_chars(&body, p + 1, body.len())
        } else {
            Vec::new()
        };
        proof {
            assert(whole@ =~= body@.take(p as int));
            if p < body.len() {
                assert(frac@ =~= body@.skip(p + 1));
            }
        }
        let w = capped_digits(&whole);
        let f = capped_digits(&frac);
        if whole.len() == 0 && frac.len() == 0 {
            return None;
        }
        match (w, f) {
            (Some(wv), Some(_)) => {
                if wv >= WHOLE_CAP {
                    return None;
                }
                let fv: u64 = digit_at(&frac, 0) * 100 + digit_at(&frac, 1) * 10 + digit_at(
                    &frac,
                    2,
                );
                let m: i128 = (wv as i128) * 1000 + (fv as i128);
                let signed_m: i128 = if negative {
                    -m
                } else {
                    m
                };
                if signed_m < i64::MIN as i128 || signed_m > i64::MAX as i128 {
                    None
                } else {
                    Some(Decimal { milli: signed_m as i64 })
                }
            },
            _ => None,
        }
    }
}

/// The number that the numeral `s` spells: an optional plus sign, then at
/// least one digit, where the number is no greater than 4294967295. `None`
/// for any other text.
pub open spec fn parsed_u32(s: Seq<char>) -> Option<u32> {
    let body = if s.len() > 0 && s[0] == '+' {
        s.drop_first()
    } else {
        s
    };
    if body.len() > 0 && all_digits(body) && digits_value(body) <= u32::MAX {
        Some(digits_value(body) as u32)
    } else {
        None
    }
}

/// The number that the numeral `s` spells, where it is one and the number
/// fits.
pub fn parse_u32(s: &Vec<char>) -> (r: Option<u32>)
    ensures
        r == parsed_u32(s@),
{
    let n: usize = s.len();
    let body = if n > 0 && s[0] == '+' {
        slice_chars(s, 1, n)
    } else {
        slice_chars(s, 0, n)
    };
    proof {
        if n > 0 && s@[0] == '+' {
            assert(body@ =~= s@.drop_first());
        } else {
            assert(body@ =~= s@);
        }
    }
    if body.len() == 0 {
        return None;
    }
    match capped_digits(&body) {
        Some(v) => {
            if v <= 0xFFFF_FFFF {
                Some(v as u32)
            } else {
                None
            }
        },
        None => None,
    }
}

/// The character of a digit is a digit with the value of that digit, and no
/// sign or decimal point.
pub proof fn lemma_digit_char(d: nat)
    requires
        d < 10,
    ensures
        is_digit(digit_char(d)),
        digit_value(digit_char(d)) == d,
        digit_char(d) != '.',
        digit_char(d) != '-',
        digit_char(d) != '+',
{
}

/// The decimal numeral of a number is made of digits, at least one, and
/// spells that number.
pub proof fn lemma_decimal_spells(n: nat)
    ensures
        decimal(n).len() > 0,
        all_digits(decimal(n)),
        digits_value(decimal(n)) == n,
    decreases n,
{
    if n < 10 {
        lemma_digit_char(n);
        let one = seq![digit_char(n)];
        assert(one.drop_last() =~= Seq::<char>::empty());
        assert(digits_value(one.drop_last()) == 0);
    } else {
        lemma_decimal_spells(n / 10);
        lemma_digit_char(n % 10);
        let head = decimal(n / 10);
        let all = head.push(digit_char(n % 10));
        assert(all.drop_last() =~= head);
        assert forall|i: int| 0 <= i < all.len() implies is_digit(#[trigger] all[i]) by {
            if i < head.len() {
                assert(all[i] == head[i]);
            }
        }
    }
}

/// Where no decimal point stands before index `p`, and one stands there or
/// the text ends there, the first decimal point is found at `p`.
pub proof fn lemma_point_index(s: Seq<char>, from: int, p: int)
    requires
        0 <= from <= p <= s.len(),
        forall|k: int| from <= k < p ==> #[trigger] s[k] != '.',
        p < s.len() ==> s[p] == '.',
    ensures
        point_index(s, from) == p,
    decreases p - from,
{
    if from < p {
        lemma_point_index(s, from + 1, p);
    }
}

/// Reading the shortest numeral of a number gives the number back.
pub proof fn law_text_round_trip(milli: int)
    ensures
        numeral_value(shortest_text(milli)) == Some(milli),
{
    let a = magnitude(milli);
    let w = a / 1000;
    let f = a % 1000;
    let whole = decimal(w);
    let tail = fraction_text(f);
    let body = whole + tail;
    let s = shortest_text(milli);
    lemma_decimal_spells(w);
    lemma_digit_char(f / 100);
    lemma_digit_char(f / 10 % 10);
    lemma_digit_char(f % 10);
    assert(is_digit(whole[0]));
    assert(body[0] == whole[0]);
    if milli < 0 {
        assert(s =~= seq!['-'] + body);
        assert(s[0] == '-');
        assert(s.drop_first() =~= body);
    } else {
        assert(s =~= body);
    }
    assert(unsigned_part(s) == body);
    let p = whole.len() as int;
    assert forall|k: int| 0 <= k < p implies #[trigger] body[k] != '.' by {
        assert(body[k] == whole[k]);
        assert(is_digit(whole[k]));
    }
    if f != 0 {
        assert(body[p] == tail[0]);
    } else {
        assert(body =~= whole);
    }
    lemma_point_index(body, 0, p);
    assert(body.take(p) =~= whole);
    let frac = if p < body.len() {
        body.skip(p + 1)
    } else {
        Seq::<char>::empty()
    };
    if f == 0 {
        assert(frac =~= Seq::<char>::empty());
    } else if f % 100 == 0 {
        assert(frac =~= seq![digit_char(f / 100)]);
    } else if f % 10 == 0 {
        assert(frac =~= seq![digit_char(f / 100), digit_char(f / 10 % 10)]);
    } else {
        assert(frac =~= seq![digit_char(f / 100), digit_char(f / 10 % 10), digit_char(f % 10)]);
    }
    assert(all_digits(frac));
    assert(fraction_value(frac) == f);
}

/// Parsing what `to_text` wrote gives the number back.
pub proof fn law_parse_reads_what_to_text_writes(d: Decimal)
    ensures
        parsed(shortest_text(d.milli as int)) == Some(d.milli as int),
{
    law_text_round_trip(d.milli as int);
}

} // verus!
