//! Text primitives: what the string operations of the standard library that
//! the crate relies on compute, stated over sequences of characters.

use vstd::prelude::*;
use vstd::string::{StrSliceExecFns, StringExecFns};

verus! {

/// Whether `needle` stands in `hay` at the place `at`.
pub open spec fn occurs(hay: Seq<char>, needle: Seq<char>, at: int) -> bool {
    0 <= at && at + needle.len() <= hay.len() && hay.subrange(at, at + needle.len()) == needle
}

/// Whether `needle` occurs in `hay` as a contiguous run of characters.
pub open spec fn has_substring(hay: Seq<char>, needle: Seq<char>) -> bool {
    exists|at: int| occurs(hay, needle, at)
}

/// The lowercase form of a text, as `str::to_lowercase` produces it.
pub uninterp spec fn lowercase(s: Seq<char>) -> Seq<char>;

/// `str::to_lowercase`: the Unicode lowercase mapping of the whole text. It
/// depends on the text alone; the mapping itself is not spelled out here.
#[verifier::external_body]
pub(crate) fn to_lowercase(s: &str) -> (r: String)
    ensures
        r@ == lowercase(s@),
{
    s.to_lowercase()
}

/// The characters of a text, one by one.
pub fn chars_of(s: &str) -> (chars: Vec<char>)
    ensures
        chars@ == s@,
{
    let mut chars: Vec<char> = Vec::new();
    for c in it: s.chars()
        invariant
            it.seq() == s@,
            chars@ == s@.take(it.index() as int),
    {
        chars.push(c);
        assert(s@.take(it.index() + 1) =~= s@.take(it.index() as int).push(c));
    }
    assert(s@.take(s@.len() as int) =~= s@);
    chars
}

/// Whether `needle` stands in `hay` at the place `at`.
fn occurs_at(hay: &Vec<char>, needle: &Vec<char>, at: usize) -> (r: bool)
    requires
        at + needle.len() <= hay.len(),
    ensures
        r == occurs(hay@, needle@, at as int),
{
    let ghost window = hay@.subrange(at as int, at + needle.len());
    let mut j: usize = 0;
    while j < needle.len()
        invariant
            j <= needle.len(),
            at + needle.len() <= hay.len(),
            window == hay@.subrange(at as int, at + needle.len()),
            forall|m: int| 0 <= m < j ==> window[m] == needle@[m],
        decreases needle.len() - j,
    {
        if hay[at + j] != needle[j] {
            assert(window[j as int] != needle@[j as int]);
            return false;
        }
        j = j + 1;
    }
    assert(window =~= needle@);
    true
}

/// Whether `needle` occurs somewhere in `hay`, as `str::contains` tells it
/// for a string pattern.
pub fn contains(hay: &str, needle: &str) -> (r: bool)
    ensures
        r == has_substring(hay@, needle@),
{
    let h = chars_of(hay);
    let n = chars_of(needle);
    if n.len() > h.len() {
        return false;
    }
    let last = h.len() - n.len();
    let mut i: usize = 0;
    loop
        invariant
            h@ == hay@,
            n@ == needle@,
            i <= last,
            last + n.len() == h.len(),
            forall|k: int| 0 <= k < i ==> !occurs(hay@, needle@, k),
        decreases last - i,
    {
        if occurs_at(&h, &n, i) {
            return true;
        }
        if i == last {
            return false;
        }
        i = i + 1;
    }
}

/// Case-insensitive containment: the lowercase form of `needle` occurs in the
/// lowercase form of `hay`.
pub open spec fn contains_ignoring_case(hay: Seq<char>, needle: Seq<char>) -> bool {
    has_substring(lowercase(hay), lowercase(needle))
}

/// Whether `needle` occurs in `hay` when both are compared in lowercase.
pub fn contains_ignore_case(hay: &str, needle: &str) -> (r: bool)
    ensures
        r == contains_ignoring_case(hay@, needle@),
{
    let h = to_lowercase(hay);
    let n = to_lowercase(needle);
    contains(h.as_str(), n.as_str())
}

/// The character that writes the decimal digit `d`.
pub open spec fn digit_char(d: nat) -> char {
    if d == 0 {
        '0'
    } else if d == 1 {
        '1'
    } else if d == 2 {
        '2'
    } else if d == 3 {
        '3'
    } else if d == 4 {
        '4'
    } else if d == 5 {
        '5'
    } else if d == 6 {
        '6'
    } else if d == 7 {
        '7'
    } else if d == 8 {
        '8'
    } else {
        '9'
    }
}

/// The decimal numeral of `n`: no sign, no leading zero but for zero itself.
pub open spec fn decimal_text(n: nat) -> Seq<char>
    decreases n,
{
    if n < 10 {
        seq![digit_char(n)]
    } else {
        decimal_text(n / 10).push(digit_char(n % 10))
    }
}

/// The digit `d` as a text of one character.
fn digit_str(d: u64) -> (r: &'static str)
    requires
        d < 10,
    ensures
        r@ == seq![digit_char(d as nat)],
{
    proof {
        reveal_strlit("0");
        reveal_strlit("1");
        reveal_strlit("2");
        reveal_strlit("3");
        reveal_strlit("4");
        reveal_strlit("5");
        reveal_strlit("6");
        reveal_strlit("7");
        reveal_strlit("8");
        reveal_strlit("9");
    }
    let r = if d == 0 {
        "0"
    } else if d == 1 {
        "1"
    } else if d == 2 {
        "2"
    } else if d == 3 {
        "3"
    } else if d == 4 {
        "4"
    } else if d == 5 {
        "5"
    } else if d == 6 {
        "6"
    } else if d == 7 {
        "7"
    } else if d == 8 {
        "8"
    } else {
        "9"
    };
    assert(r@ =~= seq![digit_char(d as nat)]);
    r
}

/// The number written in decimal digits.
pub fn u64_to_string(n: u64) -> (r: String)
    ensures
        r@ == decimal_text(n as nat),
    decreases n,
{
    if n < 10 {
        String::from_str(digit_str(n))
    } else {
        let mut text = u64_to_string(n / 10);
        text.append(digit_str(n % 10));
        text
    }
}

/// The place of the first `c` in `s`; the length of `s` where it has none.
pub open spec fn first_index(s: Seq<char>, c: char) -> int
    decreases s.len(),
{
    if s.len() == 0 {
        0
    } else if s[0] == c {
        0
    } else {
        1 + first_index(s.skip(1), c)
    }
}

/// `first_index` is the least place that holds `c`, if any place does.
pub proof fn lemma_first_index(s: Seq<char>, c: char)
    ensures
        0 <= first_index(s, c) <= s.len(),
        forall|j: int| 0 <= j < first_index(s, c) ==> s[j] != c,
        first_index(s, c) < s.len() ==> s[first_index(s, c)] == c,
        first_index(s, c) < s.len() <==> s.contains(c),
    decreases s.len(),
{
    if s.len() > 0 && s[0] != c {
        let rest = s.skip(1);
        lemma_first_index(rest, c);
        assert forall|j: int| 0 <= j < first_index(s, c) implies s[j] != c by {
            if j > 0 {
                assert(s[j] == rest[j - 1]);
            }
        }
        if first_index(s, c) < s.len() {
            assert(s[first_index(s, c)] == rest[first_index(rest, c)]);
        }
        if s.contains(c) {
            let k = choose|k: int| 0 <= k < s.len() && s[k] == c;
            assert(rest[k - 1] == c);
        }
    }
}

/// Splits `s` at the first `delimiter`, as `str::split_once` does: nothing
/// where the text does not hold the delimiter, else what stands before its
/// first occurrence and what stands after it.
pub fn split_once<'a>(s: &'a str, delimiter: char) -> (r: Option<(&'a str, &'a str)>)
    ensures
        r is Some <==> s@.contains(delimiter),
        r matches Some((before, after)) ==> before@ == s@.take(first_index(s@, delimiter))
            && after@ == s@.skip(first_index(s@, delimiter) + 1),
{
    let len = s.unicode_len();
    let mut i: usize = 0;
    proof {
        lemma_first_index(s@, delimiter);
    }
    for c in it: s.chars()
        invariant
            it.seq() == s@,
            len == s@.len(),
            i == it.index(),
            forall|j: int| 0 <= j < i ==> s@[j] != delimiter,
    {
        if c == delimiter {
            proof {
                lemma_first_index(s@, delimiter);
                assert(s@[i as int] == delimiter);
                assert(first_index(s@, delimiter) == i);
            }
            return Some((s.substring_char(0, i), s.substring_char(i + 1, len)));
        }
        i = i + 1;
    }
    None
}

/// Whether a character is white space, as `char::is_whitespace` has it.
pub uninterp spec fn is_white_space(c: char) -> bool;

/// `s` without the white space at its start.
pub open spec fn trimmed_start(s: Seq<char>) -> Seq<char>
    decreases s.len(),
{
    if s.len() > 0 && is_white_space(s[0]) {
        trimmed_start(s.skip(1))
    } else {
        s
    }
}

/// `s` without the white space at its end.
pub open spec fn trimmed_end(s: Seq<char>) -> Seq<char>
    decreases s.len(),
{
    if s.len() > 0 && is_white_space(s.last()) {
        trimmed_end(s.drop_last())
    } else {
        s
    }
}

/// `s` without the white space at its start and at its end.
pub open spec fn trimmed(s: Seq<char>) -> Seq<char> {
    trimmed_end(trimmed_start(s))
}

/// `char::is_whitespace`: whether the character has the Unicode property
/// White_Space. It depends on the character alone.
#[verifier::external_body]
pub(crate) fn is_whitespace(c: char) -> (r: bool)
    ensures
        r == is_white_space(c),
{
    c.is_whitespace()
}

/// Where white space runs up to a place that holds none, the text without
/// its leading white space starts there.
pub proof fn lemma_trimmed_start(s: Seq<char>, k: int)
    requires
        0 <= k <= s.len(),
        forall|j: int| 0 <= j < k ==> is_white_space(#[trigger] s[j]),
        k < s.len() ==> !is_white_space(s[k]),
    ensures
        trimmed_start(s) == s.skip(k),
    decreases k,
{
    if k == 0 {
        assert(s.skip(0) =~= s);
    } else {
        let rest = s.skip(1);
        assert(is_white_space(s[0]));
        assert forall|j: int| 0 <= j < k - 1 implies is_white_space(#[trigger] rest[j]) by {
            assert(rest[j] == s[j + 1]);
        }
        lemma_trimmed_start(rest, k - 1);
        assert(rest.skip(k - 1) =~= s.skip(k));
    }
}

/// Where white space runs from a place on to the end and none stands just
/// before it, the text without its trailing white space ends there.
pub proof fn lemma_trimmed_end(s: Seq<char>, m: int)
    requires
        0 <= m <= s.len(),
        forall|j: int| m <= j < s.len() ==> is_white_space(#[trigger] s[j]),
        m > 0 ==> !is_white_space(s[m - 1]),
    ensures
        trimmed_end(s) == s.take(m),
    decreases s.len() - m,
{
    if m == s.len() {
        assert(s.take(m) =~= s);
    } else {
        let rest = s.drop_last();
        assert(is_white_space(s[s.len() - 1]));
        lemma_trimmed_end(rest, m);
        assert(rest.take(m) =~= s.take(m));
    }
}

/// The text without its leading and trailing white space, as `str::trim`
/// gives it.
pub fn trim<'a>(s: &'a str) -> (r: &'a str)
    ensures
        r@ == trimmed(s@),
{
    let len = s.unicode_len();
    let mut start: usize = 0;
    let mut end: usize = 0;
    let mut i: usize = 0;
    for c in it: s.chars()
        invariant
            it.seq() == s@,
            len == s@.len(),
            i == it.index(),
            start <= end <= i,
            forall|j: int| 0 <= j < start ==> is_white_space(#[trigger] s@[j]),
            forall|j: int| end <= j < i ==> is_white_space(#[trigger] s@[j]),
            end == 0 ==> start == 0,
            end > 0 ==> !is_white_space(s@[start as int]) && !is_white_space(s@[end - 1]),
    {
        if !is_whitespace(c) {
            if end == 0 {
                start = i;
            }
            end = i + 1;
        }
        i = i + 1;
    }
    proof {
        if end == 0 {
            lemma_trimmed_start(s@, len as int);
            lemma_trimmed_end(s@.skip(len as int), 0);
            assert(s@.skip(len as int).take(0) =~= s@.subrange(0, 0));
        } else {
            lemma_trimmed_start(s@, start as int);
            let rest = s@.skip(start as int);
            assert forall|j: int| end - start <= j < rest.len() implies is_white_space(
                #[trigger] rest[j],
            ) by {
                assert(rest[j] == s@[j + start]);
            }
            assert(rest[end - start - 1] == s@[end - 1]);
            lemma_trimmed_end(rest, end - start);
            assert(rest.take(end - start) =~= s@.subrange(start as int, end as int));
        }
    }
    s.substring_char(start, end)
}

/// Whether `c` is one of the ten decimal digits.
pub open spec fn is_digit(c: char) -> bool {
    '0' as int <= c as int <= '9' as int
}

/// The number that the digit `c` stands for.
pub open spec fn digit_value(c: char) -> nat {
    (c as int - '0' as int) as nat
}

/// Whether `s` holds decimal digits only.
pub open spec fn all_digits(s: Seq<char>) -> bool {
    forall|i: int| 0 <= i < s.len() ==> is_digit(#[trigger] s[i])
}

/// The number that the digits `s` write when they follow digits that write
/// `before`.
pub open spec fn value_after(before: nat, s: Seq<char>) -> nat
    decreases s.len(),
{
    if s.len() == 0 {
        before
    } else {
        value_after(before, s.drop_last()) * 10 + digit_value(s.last())
    }
}

/// The number that the digits `s` write.
pub open spec fn digits_value(s: Seq<char>) -> nat {
    value_after(0, s)
}

/// What `s` is as an unsigned number of 16 bits: an optional plus sign, then
/// one digit or more, whose value fits.
pub open spec fn parsed_u16(s: Seq<char>) -> Option<u16> {
    let digits = if s.len() > 0 && s[0] == '+' {
        s.skip(1)
    } else {
        s
    };
    if digits.len() > 0 && all_digits(digits) && digits_value(digits) <= u16::MAX {
        Some(digits_value(digits) as u16)
    } else {
        None
    }
}

/// Digits never write less than the digits they begin with.
pub proof fn lemma_value_after_grows(before: nat, s: Seq<char>, k: int)
    requires
        0 <= k <= s.len(),
    ensures
        value_after(before, s.take(k)) <= value_after(before, s),
    decreases s.len(),
{
    if k == s.len() {
        assert(s.take(k) =~= s);
    } else {
        lemma_value_after_grows(before, s.drop_last(), k);
        assert(s.drop_last().take(k) =~= s.take(k));
    }
}

/// Digits after digits write what the two runs write as one.
pub proof fn lemma_value_after_concat(before: nat, a: Seq<char>, b: Seq<char>)
    ensures
        value_after(before, a + b) == value_after(value_after(before, a), b),
    decreases b.len(),
{
    if b.len() == 0 {
        assert(a + b =~= a);
    } else {
        lemma_value_after_concat(before, a, b.drop_last());
        assert((a + b).drop_last() =~= a + b.drop_last());
    }
}

/// The number that the digits of `s` write after digits that write `before`,
/// as long as it stays below `limit`; nothing where `s` holds anything but
/// digits or the number reaches `limit`.
pub fn read_digits(s: &str, before: u64, limit: u64) -> (r: Option<u64>)
    ensures
        r is Some <==> all_digits(s@) && value_after(before as nat, s@) < limit,
        r matches Some(value) ==> value == value_after(before as nat, s@),
{
    if before >= limit {
        proof {
            lemma_value_after_grows(before as nat, s@, 0);
        }
        return None;
    }
    let mut value: u64 = before;
    for c in it: s.chars()
        invariant
            it.seq() == s@,
            all_digits(s@.take(it.index() as int)),
            value == value_after(before as nat, s@.take(it.index() as int)),
            value < limit,
    {
        let ghost i = it.index() as int;
        assert(s@.take(i + 1).drop_last() =~= s@.take(i));
        if c < '0' || c > '9' {
            assert(!is_digit(s@[i]));
            return None;
        }
        let digit: u64 = (c as u64) - ('0' as u64);
        proof {
            lemma_value_after_grows(before as nat, s@, i + 1);
        }
        let next = match value.checked_mul(10) {
            Some(tens) => tens.checked_add(digit),
            None => None,
        };
        match next {
            Some(sum) if sum < limit => {
                value = sum;
            },
            _ => {
                return None;
            },
        }
    }
    assert(s@.take(s@.len() as int) =~= s@);
    Some(value)
}

/// Reads `s` as an unsigned number of 16 bits, as `str::parse` does: decimal
/// digits with an optional plus sign before them. Nothing where the text
/// holds anything else, no digit at all, or a number that does not fit.
pub fn parse_u16(s: &str) -> (r: Option<u16>)
    ensures
        r == parsed_u16(s@),
{
    let len = s.unicode_len();
    if len == 0 {
        return None;
    }
    let digits = if s.get_char(0) == '+' {
        s.substring_char(1, len)
    } else {
        s
    };
    assert(digits@ =~= if s@[0] == '+' {
        s@.skip(1)
    } else {
        s@
    });
    if digits.unicode_len() == 0 {
        return None;
    }
    match read_digits(digits, 0, 65536) {
        Some(value) => Some(value as u16),
        None => None,
    }
}

} // verus!
