//! Exact decimal fractions. Measurements, wind speeds and attribute values are
//! kept as the digits that the page printed, with the place of the decimal
//! point, so that nothing is lost to rounding before a caller asks for it.

use crate::number::{all_digits, digit_value, digits_value, is_digit, lemma_pow10_monotonic, pow10};
use crate::text::chars_of;
use vstd::prelude::*;

verus! {

/// The number `digits / 10^scale`, negated where `negative` is set.
#[derive(Clone, Copy, Debug, PartialEq, Eq, Structural, Hash)]
pub struct Decimal {
    pub negative: bool,
    pub digits: u64,
    pub scale: u32,
}

/// The index of the first `.` in `s`, or the length of `s` where it has none.
pub open spec fn point_index(s: Seq<char>) -> int
    decreases s.len(),
{
    if s.len() == 0 || s[0] == '.' {
        0
    } else {
        1 + point_index(s.skip(1))
    }
}

/// `s` without a leading sign.
pub open spec fn unsigned_part(s: Seq<char>) -> Seq<char> {
    if s.len() > 0 && (s[0] == '+' || s[0] == '-') {
        s.skip(1)
    } else {
        s
    }
}

/// The digits of `s` before its decimal point.
pub open spec fn whole_digits(s: Seq<char>) -> Seq<char> {
    unsigned_part(s).take(point_index(unsigned_part(s)))
}

/// The digits of `s` after its decimal point.
pub open spec fn fraction_digits(s: Seq<char>) -> Seq<char> {
    let body = unsigned_part(s);
    if point_index(body) < body.len() {
        body.skip(point_index(body) + 1)
    } else {
        Seq::empty()
    }
}

/// The decimal that `s` writes: an optional sign, digits, and optionally a
/// point followed by digits, with at least one digit in all. Text of any other
/// shape, or whose digits do not fit, writes no decimal.
pub open spec fn decimal_of(s: Seq<char>) -> Option<Decimal> {
    let whole = whole_digits(s);
    let fraction = fraction_digits(s);
    if all_digits(whole) && all_digits(fraction) && whole.len() + fraction.len() > 0
        && digits_value(whole + fraction) <= u64::MAX && fraction.len() <= u32::MAX {
        Some(
            Decimal {
                negative: s[0] == '-',
                digits: digits_value(whole + fraction) as u64,
                scale: fraction.len() as u32,
            },
        )
    } else {
        None
    }
}

/// `n / d` rounded to the nearest integer, a half rounded up.
pub open spec fn round_half_up(n: nat, d: nat) -> nat {
    ((2 * n + d) / (2 * d)) as nat
}

/// How far a run of digits has been read.
enum Run {
    /// A character of the run is no digit.
    NotDigits,
    /// All are digits, and the number they write does not fit.
    TooLarge,
    /// All are digits, and they write this number.
    Value(u64),
}

/// Reads the digits of `s` from `from` up to `to`, as a continuation of the
/// digits `prefix`, which wrote `start`.
fn read_run(s: &Vec<char>, from: usize, to: usize, start: Run, Ghost(prefix): Ghost<Seq<char>>) -> (r:
    Run)
    requires
        from <= to <= s.len(),
        !(start is NotDigits),
        start matches Run::Value(v) ==> v == digits_value(prefix),
        start is TooLarge ==> digits_value(prefix) > u64::MAX,
    ensures
        r is NotDigits <==> !all_digits(s@.subrange(from as int, to as int)),
        r matches Run::Value(v) ==> v == digits_value(prefix + s@.subrange(from as int, to as int)),
        r is TooLarge ==> digits_value(prefix + s@.subrange(from as int, to as int)) > u64::MAX,
{
    let ghost run = s@.subrange(from as int, to as int);
    let mut acc: u64 = 0;
    let mut overflow = false;
    match start {
        Run::Value(v) => {
            acc = v;
        },
        _ => {
            overflow = true;
        },
    }
    let mut i: usize = from;
    assert(prefix + run.take(0) == prefix);
    while i < to
        invariant
            from <= i <= to,
            to <= s.len(),
            run == s@.subrange(from as int, to as int),
            all_digits(run.take(i - from)),
            !overflow ==> acc == digits_value(prefix + run.take(i - from)),
            overflow ==> digits_value(prefix + run.take(i - from)) > u64::MAX,
        decreases to - i,
    {
        let c = s[i];
        let ghost before = run.take(i - from);
        let ghost after = run.take(i - from + 1);
        assert((prefix + after).drop_last() == prefix + before);
        assert((prefix + after).last() == c);
        if c < '0' || c > '9' {
            assert(!is_digit(run[i - from]));
            return Run::NotDigits;
        }
        assert forall|j: int| 0 <= j < after.len() implies is_digit(#[trigger] after[j]) by {
            if j < before.len() {
                assert(after[j] == before[j]);
            }
        }
        let d: u64 = (c as u32 - '0' as u32) as u64;
        assert(d == digit_value(c));
        if !overflow {
            let next: u128 = acc as u128 * 10 + d as u128;
            if next > 0xffff_ffff_ffff_ffff {
                overflow = true;
            } else {
                acc = next as u64;
            }
        }
        i += 1;
    }
    assert(run.take(to - from) == run);
    if overflow {
        Run::TooLarge
    } else {
        Run::Value(acc)
    }
}

/// The index of the first `.` of `s` at or after `from`, or the length of `s`.
fn find_point(s: &Vec<char>, from: usize) -> (r: usize)
    requires
        from <= s.len(),
    ensures
        r == from + point_index(s@.skip(from as int)),
        from <= r <= s.len(),
{
    let mut i: usize = from;
    while i < s.len() && s[i] != '.'
        invariant
            from <= i <= s.len(),
            i + point_index(s@.skip(i as int)) == from + point_index(s@.skip(from as int)),
        decreases s.len() - i,
    {
        assert(s@.skip(i as int).skip(1) == s@.skip(i + 1));
        assert(s@.skip(i as int)[0] == s@[i as int]);
        i += 1;
    }
    assert(i < s.len() ==> s@.skip(i as int)[0] == s@[i as int]);
    assert(point_index(s@.skip(i as int)) == 0);
    i
}

impl Decimal {
    /// The decimal is less than zero.
    pub open spec fn below_zero(self) -> bool {
        self.negative && self.digits > 0
    }

    /// The decimal is greater than the whole number `whole`.
    pub open spec fn above(self, whole: nat) -> bool {
        !self.negative && self.digits > whole * pow10(self.scale as nat)
    }

    /// The decimal rounded to `places` digits after the point, a half rounded
    /// away from zero. A decimal with no more digits than that is unchanged.
    pub open spec fn round_to(self, places: nat) -> Decimal {
        if self.scale <= places {
            self
        } else {
            Decimal {
                negative: self.negative,
                digits: round_half_up(
                    self.digits as nat,
                    pow10((self.scale - places) as nat),
                ) as u64,
                scale: places as u32,
            }
        }
    }

    /// The decimal divided by `10^places`, where its scale can grow by that.
    pub open spec fn shift_down(self, places: nat) -> Option<Decimal> {
        if self.scale + places <= u32::MAX {
            Some(
                Decimal {
                    negative: self.negative,
                    digits: self.digits,
                    scale: (self.scale + places) as u32,
                },
            )
        } else {
            None
        }
    }

    /// `whole + self`, for a decimal that is not negative, where the digits fit.
    pub open spec fn plus_whole(self, whole: nat) -> Option<Decimal> {
        if !self.negative && self.digits + whole * pow10(self.scale as nat) <= u64::MAX {
            Some(
                Decimal {
                    negative: false,
                    digits: (self.digits + whole * pow10(self.scale as nat)) as u64,
                    scale: self.scale,
                },
            )
        } else {
            None
        }
    }

    /// Reads a decimal from text.
    pub fn parse(s: &str) -> (r: Option<Decimal>)
        ensures
            r == decimal_of(s@),
    {
        let chars = chars_of(s);
        let negative = chars.len() > 0 && chars[0] == '-';
        let from: usize = if chars.len() > 0 && (chars[0] == '+' || chars[0] == '-') {
            1
        } else {
            0
        };
        let ghost body = unsigned_part(s@);
        assert(chars@.skip(0) == chars@);
        assert(body == chars@.skip(from as int));
        let point = find_point(&chars, from);
        let ghost whole = whole_digits(s@);
        let ghost fraction = fraction_digits(s@);
        assert(whole == chars@.subrange(from as int, point as int));
        assert(Seq::<char>::empty() + whole == whole);
        let first = read_run(&chars, from, point, Run::Value(0), Ghost(Seq::empty()));
        if let Run::NotDigits = first {
            return None;
        }
        let after: usize = if point < chars.len() {
            point + 1
        } else {
            point
        };
        assert(fraction == chars@.subrange(after as int, chars.len() as int));
        let last = read_run(&chars, after, chars.len(), first, Ghost(whole));
        let count = (point - from) + (chars.len() - after);
        match last {
            Run::Value(v) => {
                if count > 0 && chars.len() - after <= 0xffff_ffff {
                    Some(Decimal { negative, digits: v, scale: (chars.len() - after) as u32 })
                } else {
                    None
                }
            },
            _ => None,
        }
    }

    /// Whether the decimal is less than zero.
    pub fn is_below_zero(&self) -> (r: bool)
        ensures
            r == self.below_zero(),
    {
        self.negative && self.digits > 0
    }

    /// Whether the decimal is greater than the whole number `whole`.
    pub fn is_above(&self, whole: u64) -> (r: bool)
        ensures
            r == self.above(whole as nat),
    {
        if self.negative {
            return false;
        }
        let mut bound: u128 = whole as u128;
        let mut k: u32 = 0;
        assert(whole * pow10(0) == whole) by (nonlinear_arith)
            requires
                pow10(0) == 1,
        ;
        while k < self.scale
            invariant
                k <= self.scale,
                bound == whole * pow10(k as nat),
                bound <= u64::MAX,
            decreases self.scale - k,
        {
            bound = bound * 10;
            k += 1;
            assert(bound == whole * pow10(k as nat)) by (nonlinear_arith)
                requires
                    bound == (whole * pow10((k - 1) as nat)) * 10,
                    pow10(k as nat) == 10 * pow10((k - 1) as nat),
            ;
            if bound > 0xffff_ffff_ffff_ffff {
                proof {
                    lemma_pow10_monotonic(k as nat, self.scale as nat);
                    assert(whole * pow10(k as nat) <= whole * pow10(self.scale as nat))
                        by (nonlinear_arith)
                        requires
                            pow10(k as nat) <= pow10(self.scale as nat),
                            whole >= 0,
                    ;
                }
                return false;
            }
        }
        self.digits as u128 > bound
    }

    /// The decimal rounded to `places` digits after the point.
    pub fn rounded(&self, places: u32) -> (r: Decimal)
        ensures
            r == self.round_to(places as nat),
    {
        if self.scale <= places {
            return *self;
        }
        let drop: u32 = self.scale - places;
        let mut divisor: u128 = 1;
        let mut k: u32 = 0;
        while k < drop
            invariant
                k <= drop,
                drop == self.scale - places,
                divisor == pow10(k as nat),
                1 <= divisor <= 0x2_0000_0000_0000_0000,
            decreases drop - k,
        {
            divisor = divisor * 10;
            k += 1;
            assert(divisor == pow10(k as nat));
            if divisor > 0x2_0000_0000_0000_0000 {
                proof {
                    lemma_pow10_monotonic(k as nat, drop as nat);
                    let n = self.digits as nat;
                    let d = pow10(drop as nat);
                    assert(2 * n < d);
                    assert((2 * n + d) / (2 * d) == 0) by (nonlinear_arith)
                        requires
                            0 <= 2 * n < d,
                    ;
                    assert(round_half_up(n, d) == 0);
                    assert(d == pow10((self.scale - places) as nat));
                }
                return Decimal { negative: self.negative, digits: 0, scale: places };
            }
        }
        let doubled: u128 = 2 * (self.digits as u128) + divisor;
        let quotient: u128 = doubled / (2 * divisor);
        proof {
            lemma_pow10_monotonic(1, drop as nat);
            assert(pow10(1) == 10) by {
                assert(pow10(0) == 1);
            }
            let n = self.digits as nat;
            let d = divisor as nat;
            assert((2 * n + d) / (2 * d) <= n) by (nonlinear_arith)
                requires
                    d >= 10,
                    n >= 0,
            ;
        }
        Decimal { negative: self.negative, digits: quotient as u64, scale: places }
    }

    /// The decimal divided by `10^places`, or nothing where the scale would
    /// not fit.
    pub fn shifted_down(&self, places: u32) -> (r: Option<Decimal>)
        ensures
            r == self.shift_down(places as nat),
    {
        if self.scale <= 0xffff_ffff - places {
            Some(Decimal { negative: self.negative, digits: self.digits, scale: self.scale + places })
        } else {
            None
        }
    }

    /// `whole + self` for a decimal that is not negative, or nothing where the
    /// digits would not fit.
    pub fn with_whole(&self, whole: u64) -> (r: Option<Decimal>)
        ensures
            r == self.plus_whole(whole as nat),
    {
        if self.negative {
            return None;
        }
        let mut part: u128 = whole as u128;
        let mut k: u32 = 0;
        assert(whole * pow10(0) == whole) by (nonlinear_arith)
            requires
                pow10(0) == 1,
        ;
        while k < self.scale
            invariant
                k <= self.scale,
                part == whole * pow10(k as nat),
                part <= u64::MAX,
            decreases self.scale - k,
        {
            part = part * 10;
            k += 1;
            assert(part == whole * pow10(k as nat)) by (nonlinear_arith)
                requires
                    part == (whole * pow10((k - 1) as nat)) * 10,
                    pow10(k as nat) == 10 * pow10((k - 1) as nat),
            ;
            if part > 0xffff_ffff_ffff_ffff {
                proof {
                    lemma_pow10_monotonic(k as nat, self.scale as nat);
                    assert(whole * pow10(k as nat) <= whole * pow10(self.scale as nat))
                        by (nonlinear_arith)
                        requires
                            pow10(k as nat) <= pow10(self.scale as nat),
                            whole >= 0,
                    ;
                }
                return None;
            }
        }
        let sum: u128 = part + self.digits as u128;
        if sum > 0xffff_ffff_ffff_ffff {
            None
        } else {
            Some(Decimal { negative: false, digits: sum as u64, scale: self.scale })
        }
    }
}

} // verus!
