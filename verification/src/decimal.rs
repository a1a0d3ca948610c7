//! Fixed-point decimal numbers, as the measurement columns hold them.

use crate::text::{
    all_digits, decimal_text, digit_char, digits_value, first_index, lemma_first_index,
    lemma_value_after_concat, read_digits, split_once, u64_to_string,
};
use vstd::prelude::*;
use vstd::string::{StrSliceExecFns, StringExecFns};

verus! {

/// The largest number of fractional digits a `Decimal` keeps.
pub const MAX_SCALE: u8 = 18;

/// One more than the largest digit string a `Decimal` keeps, read as a number.
pub const DIGITS_LIMIT: u64 = 1_000_000_000_000_000_000;

/// Ten to the power `e`.
pub open spec fn pow10(e: nat) -> nat
    decreases e,
{
    if e == 0 {
        1
    } else {
        10 * pow10((e - 1) as nat)
    }
}

/// A signed decimal number `digits / 10^scale`.
#[derive(Debug, PartialEq, Eq, Clone, Copy)]
pub struct Decimal {
    negative: bool,
    digits: u64,
    scale: u8,
}

/// What a `Decimal` stands for: its sign, its digits read as one number, and
/// how many of them are fractional.
pub struct DecimalView {
    pub negative: bool,
    pub digits: nat,
    pub scale: nat,
}

impl DecimalView {
    /// The magnitude in tenths, rounded to the nearest tenth, a half going up.
    pub open spec fn tenths(self) -> nat {
        if self.scale == 0 {
            self.digits * 10
        } else {
            let unit = pow10((self.scale - 1) as nat);
            (self.digits + unit / 2) / unit
        }
    }

    /// The number with exactly one fractional digit: a minus sign if it is
    /// negative, the whole part, a point, and the rounded tenth.
    pub open spec fn one_decimal_text(self) -> Seq<char> {
        let sign = if self.negative {
            seq!['-']
        } else {
            Seq::<char>::empty()
        };
        sign + decimal_text(self.tenths() / 10) + seq!['.'] + seq![digit_char(self.tenths() % 10)]
    }

    /// Whether the number fits a `Decimal`.
    pub open spec fn representable(self) -> bool {
        self.digits < DIGITS_LIMIT && self.scale <= MAX_SCALE
    }
}

/// What stands after the sign of a numeral: all of it where it has no sign.
pub open spec fn unsigned_part(s: Seq<char>) -> Seq<char> {
    if s.len() > 0 && (s[0] == '-' || s[0] == '+') {
        s.skip(1)
    } else {
        s
    }
}

/// The number that the numeral `s` writes: an optional sign, then digits, then
/// optionally a point and more digits, with a digit or more wherever digits
/// stand. Nothing where `s` is no such numeral.
pub open spec fn numeral(s: Seq<char>) -> Option<DecimalView> {
    let negative = s.len() > 0 && s[0] == '-';
    let body = unsigned_part(s);
    if body.contains('.') {
        let whole = body.take(first_index(body, '.'));
        let fraction = body.skip(first_index(body, '.') + 1);
        if whole.len() > 0 && fraction.len() > 0 && all_digits(whole) && all_digits(fraction) {
            Some(
                DecimalView {
                    negative,
                    digits: digits_value(whole + fraction),
                    scale: fraction.len(),
                },
            )
        } else {
            None
        }
    } else if body.len() > 0 && all_digits(body) {
        Some(DecimalView { negative, digits: digits_value(body), scale: 0 })
    } else {
        None
    }
}

/// The number that the numeral `s` writes, where a `Decimal` can keep it.
pub open spec fn parsed_decimal(s: Seq<char>) -> Option<DecimalView> {
    match numeral(s) {
        Some(number) => if number.representable() {
            Some(number)
        } else {
            None
        },
        None => None,
    }
}

/// The view of an optional decimal.
pub open spec fn decimal_view(number: Option<Decimal>) -> Option<DecimalView> {
    match number {
        Some(d) => Some(d@),
        None => None,
    }
}

impl View for Decimal {
    type V = DecimalView;

    closed spec fn view(&self) -> DecimalView {
        DecimalView {
            negative: self.negative,
            digits: self.digits as nat,
            scale: self.scale as nat,
        }
    }
}

/// The powers of ten up to the eighteenth stay within the digits a `Decimal`
/// keeps.
pub proof fn lemma_pow10_bounds(e: nat)
    requires
        e <= 18,
    ensures
        1 <= pow10(e) <= DIGITS_LIMIT,
        e < 18 ==> pow10(e) * 10 <= DIGITS_LIMIT,
    decreases e,
{
    reveal_with_fuel(pow10, 19);
}

impl Decimal {
    #[verifier::type_invariant]
    spec fn inv(self) -> bool {
        self.digits < DIGITS_LIMIT && self.scale <= MAX_SCALE
    }

    /// The decimal `digits / 10^scale`, negated if `negative`; `None` when it
    /// has too many digits to keep.
    pub fn new(negative: bool, digits: u64, scale: u8) -> (r: Option<Decimal>)
        ensures
            r is Some <==> digits < DIGITS_LIMIT && scale <= MAX_SCALE,
            r matches Some(d) ==> d@ == (DecimalView {
                negative,
                digits: digits as nat,
                scale: scale as nat,
            }),
    {
        if digits < DIGITS_LIMIT && scale <= MAX_SCALE {
            Some(Decimal { negative, digits, scale })
        } else {
            None
        }
    }

    /// Reads a numeral: an optional sign, digits, and optionally a point and
    /// more digits. Nothing where the text is no numeral or writes more than
    /// a `Decimal` keeps.
    pub fn parse(s: &str) -> (r: Option<Decimal>)
        ensures
            decimal_view(r) == parsed_decimal(s@),
    {
        let len = s.unicode_len();
        if len == 0 {
            return None;
        }
        let first = s.get_char(0);
        let negative = first == '-';
        let body = if first == '-' || first == '+' {
            s.substring_char(1, len)
        } else {
            s
        };
        assert(body@ =~= unsigned_part(s@));
        match split_once(body, '.') {
            Some((whole, fraction)) => {
                let places = fraction.unicode_len();
                if whole.unicode_len() == 0 || places == 0 {
                    return None;
                }
                proof {
                    lemma_value_after_concat(0, whole@, fraction@);
                }
                match read_digits(whole, 0, DIGITS_LIMIT) {
                    Some(high) => match read_digits(fraction, high, DIGITS_LIMIT) {
                        Some(digits) => if places <= MAX_SCALE as usize {
                            Decimal::new(negative, digits, places as u8)
                        } else {
                            None
                        },
                        None => None,
                    },
                    None => {
                        proof {
                            if all_digits(whole@) {
                                crate::text::lemma_value_after_grows(
                                    0,
                                    whole@ + fraction@,
                                    whole@.len() as int,
                                );
                                assert((whole@ + fraction@).take(whole@.len() as int) =~= whole@);
                            }
                        }
                        None
                    },
                }
            },
            None => {
                if body.unicode_len() == 0 {
                    return None;
                }
                match read_digits(body, 0, DIGITS_LIMIT) {
                    Some(digits) => Decimal::new(negative, digits, 0),
                    None => None,
                }
            },
        }
    }

    /// The magnitude in tenths, rounded to the nearest tenth.
    pub fn tenths(&self) -> (t: u64)
        ensures
            t == self@.tenths(),
            self@.representable(),
    {
        proof {
            use_type_invariant(self);
        }
        if self.scale == 0 {
            self.digits * 10
        } else {
            let mut unit: u64 = 1;
            let mut i: u8 = 1;
            while i < self.scale
                invariant
                    1 <= i <= self.scale <= MAX_SCALE,
                    unit == pow10((i - 1) as nat),
                decreases self.scale - i,
            {
                proof {
                    lemma_pow10_bounds((i - 1) as nat);
                }
                unit = unit * 10;
                i = i + 1;
            }
            proof {
                lemma_pow10_bounds((self.scale - 1) as nat);
            }
            (self.digits + unit / 2) / unit
        }
    }

    /// The number written with exactly one fractional digit.
    pub fn to_one_decimal(&self) -> (r: String)
        ensures
            r@ == self@.one_decimal_text(),
    {
        let t = self.tenths();
        let mut out = String::new();
        if self.negative {
            proof {
                reveal_strlit("-");
            }
            out.append("-");
        }
        let whole = u64_to_string(t / 10);
        out.append(whole.as_str());
        proof {
            reveal_strlit(".");
        }
        out.append(".");
        let tenth = u64_to_string(t % 10);
        out.append(tenth.as_str());
        assert(out@ =~= self@.one_decimal_text());
        out
    }
}

} // verus!
