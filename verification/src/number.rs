//! Numbers as text: integer literals and their values, the literals of
//! decimal fractions, and the decimal digits of an integer.

use crate::text::{is_digit, prefix_len, scan_prefix, CharClass};
use vstd::prelude::*;

verus! {

/// `String::push` appends the one character to the end of the string.
pub assume_specification[ String::push ](s: &mut String, c: char)
    ensures
        final(s)@ == old(s)@.push(c),
;

/// The number that the digit `c` stands for.
pub open spec fn digit_value(c: char) -> int {
    c as int - '0' as int
}

/// The number that a sequence of digits spells in base ten; 0 for none.
pub open spec fn digits_value(s: Seq<char>) -> int
    decreases s.len(),
{
    if s.len() == 0 {
        0
    } else {
        10 * digits_value(s.drop_last()) + digit_value(s.last())
    }
}

/// Whether every character of `s` is a digit.
pub open spec fn all_digits(s: Seq<char>) -> bool {
    forall|i: int| 0 <= i < s.len() ==> is_digit(#[trigger] s[i])
}

/// Whether `s` begins with a plus or a minus sign.
pub open spec fn has_sign(s: Seq<char>) -> bool {
    s.len() > 0 && (s[0] == '+' || s[0] == '-')
}

/// `s` without the sign that it may begin with.
pub open spec fn unsigned_part(s: Seq<char>) -> Seq<char> {
    if has_sign(s) {
        s.drop_first()
    } else {
        s
    }
}

/// The value of an integer literal: an optional sign, then one digit or
/// more and nothing else. `None` for every other text.
pub open spec fn integer_value(s: Seq<char>) -> Option<int> {
    let body = unsigned_part(s);
    if body.len() > 0 && all_digits(body) {
        if s[0] == '-' {
            Some(-digits_value(body))
        } else {
            Some(digits_value(body))
        }
    } else {
        None
    }
}

/// The value of an integer literal that an `isize` can hold.
pub open spec fn isize_value(s: Seq<char>) -> Option<isize> {
    match integer_value(s) {
        Some(v) => if isize::MIN <= v <= isize::MAX {
            Some(v as isize)
        } else {
            None
        },
        None => None,
    }
}

/// Digits spell a number that is not negative.
pub proof fn lemma_digits_value_nonnegative(s: Seq<char>)
    requires
        all_digits(s),
    ensures
        digits_value(s) >= 0,
    decreases s.len(),
{
    if s.len() > 0 {
        lemma_digits_value_nonnegative(s.drop_last());
    }
}

/// The first `k` digits of a number spell no more than all of them.
pub proof fn lemma_digits_value_grows(s: Seq<char>, k: int)
    requires
        all_digits(s),
        0 <= k <= s.len(),
    ensures
        0 <= digits_value(s.take(k)) <= digits_value(s),
    decreases s.len(),
{
    if k == s.len() {
        assert(s.take(k) == s);
        lemma_digits_value_nonnegative(s);
    } else {
        let front = s.drop_last();
        assert(front.take(k) == s.take(k));
        lemma_digits_value_grows(front, k);
    }
}

/// Reads an integer literal as an `isize`.
pub fn parse_isize(s: &[char]) -> (r: Option<isize>)
    ensures
        r == isize_value(s@),
{
    let n: usize = s.len();
    if n == 0 {
        return None;
    }
    let negative: bool = s[0] == '-';
    let start: usize = if s[0] == '-' || s[0] == '+' {
        1
    } else {
        0
    };
    if start == n {
        return None;
    }
    let ghost body = unsigned_part(s@);
    assert(body == s@.subrange(start as int, n as int));
    let limit: i128 = isize::MAX as i128 + 1;
    let mut acc: i128 = 0;
    let mut i: usize = start;
    while i < n
        invariant
            start <= i <= n,
            n == s.len(),
            body == unsigned_part(s@),
            body == s@.subrange(start as int, n as int),
            limit == isize::MAX + 1,
            all_digits(body.take(i - start)),
            acc == digits_value(body.take(i - start)),
            0 <= acc <= limit,
        decreases n - i,
    {
        let c: char = s[i];
        if !('0' <= c && c <= '9') {
            assert(body[i - start] == c);
            assert(!all_digits(body));
            return None;
        }
        let ghost front = body.take(i - start + 1);
        assert(front.drop_last() == body.take(i - start));
        assert(front.last() == c);
        assert(all_digits(front)) by {
            assert forall|j: int| 0 <= j < front.len() implies is_digit(#[trigger] front[j]) by {
                if j < i - start {
                    assert(front[j] == body.take(i - start)[j]);
                }
            }
        }
        acc = acc * 10 + (c as u32 - '0' as u32) as i128;
        if acc > limit {
            proof {
                if all_digits(body) {
                    lemma_digits_value_grows(body, i - start + 1);
                    assert(digits_value(body) > limit);
                }
            }
            return None;
        }
        i += 1;
    }
    assert(body.take(i - start) == body);
    if negative {
        Some((-acc) as isize)
    } else if acc == limit {
        None
    } else {
        Some(acc as isize)
    }
}

/// The lower-case form of an ASCII capital; every other character as it is.
pub open spec fn ascii_lower(c: char) -> char {
    if 'A' <= c && c <= 'Z' {
        ((c as int) + 32) as char
    } else {
        c
    }
}

/// Whether `s` spells `word`, a text without capitals, in any letter case.
pub open spec fn spells_in_any_case(s: Seq<char>, word: Seq<char>) -> bool {
    &&& s.len() == word.len()
    &&& forall|i: int| 0 <= i < s.len() ==> ascii_lower(#[trigger] s[i]) == word[i]
}

/// Whether `s` names a value that is no number: infinity, or not-a-number.
pub open spec fn is_special(s: Seq<char>) -> bool {
    ||| spells_in_any_case(s, "inf"@)
    ||| spells_in_any_case(s, "infinity"@)
    ||| spells_in_any_case(s, "nan"@)
}

/// Whether `s` is an exponent: the letter `e` in either case, an optional
/// sign, then one digit or more and nothing else.
pub open spec fn is_exponent(s: Seq<char>) -> bool {
    &&& s.len() > 0
    &&& (s[0] == 'e' || s[0] == 'E')
    &&& unsigned_part(s.drop_first()).len() > 0
    &&& all_digits(unsigned_part(s.drop_first()))
}

/// What follows the digits before the point, the point and the digits after
/// it, where `s` begins with such a run; all of `s` where no point follows
/// its leading digits.
pub open spec fn after_fraction(s: Seq<char>) -> Seq<char> {
    let rest = s.skip(prefix_len(s, CharClass::Digit) as int);
    if rest.len() > 0 && rest[0] == '.' {
        rest.skip(1 + prefix_len(rest.drop_first(), CharClass::Digit) as int)
    } else {
        rest
    }
}

/// How many digits stand in `s` before what `after_fraction` leaves.
pub open spec fn mantissa_digits(s: Seq<char>) -> nat {
    let lead = prefix_len(s, CharClass::Digit);
    let rest = s.skip(lead as int);
    if rest.len() > 0 && rest[0] == '.' {
        lead + prefix_len(rest.drop_first(), CharClass::Digit)
    } else {
        lead
    }
}

/// Whether `s` is an unsigned decimal number: digits with at most one point
/// among them, before it, or after them, at least one digit in all, and
/// then nothing or an exponent.
pub open spec fn is_number(s: Seq<char>) -> bool {
    &&& mantissa_digits(s) > 0
    &&& (after_fraction(s).len() == 0 || is_exponent(after_fraction(s)))
}

/// Whether `s` is the literal of a decimal fraction: an optional sign, then
/// `inf`, `infinity` or `nan` in any letter case, or a decimal number.
pub open spec fn is_float_literal(s: Seq<char>) -> bool {
    let body = unsigned_part(s);
    is_special(body) || is_number(body)
}

/// Compares `s` with `word`, a text without capitals, letter case aside.
pub fn matches_in_any_case(s: &[char], word: &str) -> (b: bool)
    ensures
        b == spells_in_any_case(s@, word@),
{
    let mut i: usize = 0;
    let mut same: bool = true;
    let it = word.chars();
    for c in iter: it
        invariant
            iter.seq() == word@,
            i <= s.len(),
            same ==> i == iter.index() && forall|j: int|
                0 <= j < i ==> ascii_lower(#[trigger] s@[j]) == word@[j],
            !same ==> !spells_in_any_case(s@, word@),
    {
        if same {
            if i < s.len() && lower(s[i]) == c {
                i += 1;
            } else {
                assert(i < s.len() ==> ascii_lower(s@[i as int]) != word@[i as int]);
                same = false;
            }
        }
    }
    same && i == s.len()
}

/// Turns an ASCII capital into its lower-case form.
pub fn lower(c: char) -> (l: char)
    ensures
        l == ascii_lower(c),
{
    if 'A' <= c && c <= 'Z' {
        (c as u8 + 32u8) as char
    } else {
        c
    }
}

/// `s` without the sign that it may begin with.
pub fn skip_sign<'a>(s: &'a [char]) -> (body: &'a [char])
    ensures
        body@ == unsigned_part(s@),
{
    if s.len() > 0 && (s[0] == '+' || s[0] == '-') {
        &s[1..s.len()]
    } else {
        s
    }
}

/// Whether `s` is made of digits only.
pub fn only_digits(s: &[char]) -> (b: bool)
    ensures
        b == all_digits(s@),
{
    let k: usize = scan_prefix(s, CharClass::Digit);
    proof {
        crate::text::lemma_prefix_len_bounds(s@, CharClass::Digit);
    }
    k == s.len()
}

/// Tells whether `s` is the literal of a decimal fraction.
pub fn check_float_literal(s: &[char]) -> (b: bool)
    ensures
        b == is_float_literal(s@),
{
    let body: &[char] = skip_sign(s);
    if matches_in_any_case(body, "inf") || matches_in_any_case(body, "infinity")
        || matches_in_any_case(body, "nan") {
        return true;
    }
    let lead: usize = scan_prefix(body, CharClass::Digit);
    proof {
        crate::text::lemma_prefix_len_bounds(body@, CharClass::Digit);
    }
    let rest: &[char] = &body[lead..body.len()];
    let mut digits: usize = lead;
    let mut tail: &[char] = rest;
    if rest.len() > 0 && rest[0] == '.' {
        let fraction: &[char] = &rest[1..rest.len()];
        let more: usize = scan_prefix(fraction, CharClass::Digit);
        proof {
            crate::text::lemma_prefix_len_bounds(fraction@, CharClass::Digit);
        }
        digits = lead + more;
        tail = &rest[1 + more..rest.len()];
    }
    if digits == 0 {
        return false;
    }
    if tail.len() == 0 {
        return true;
    }
    if !(tail[0] == 'e' || tail[0] == 'E') {
        return false;
    }
    let power: &[char] = skip_sign(&tail[1..tail.len()]);
    power.len() > 0 && only_digits(power)
}

/// The digit that stands for `d`, a number below ten.
pub open spec fn digit_char(d: int) -> char {
    (d + '0' as int) as char
}

/// The digits of `n` in base ten, without leading zeros; `0` for zero.
pub open spec fn digits_of(n: nat) -> Seq<char>
    decreases n,
{
    if n < 10 {
        seq![digit_char(n as int)]
    } else {
        digits_of(n / 10).push(digit_char((n % 10) as int))
    }
}

/// `n` written in base ten: a minus sign where it is negative, then the
/// digits of its magnitude.
pub open spec fn decimal(n: int) -> Seq<char> {
    if n < 0 {
        seq!['-'] + digits_of((-n) as nat)
    } else {
        digits_of(n as nat)
    }
}

/// Appends the digits of `n` to `out`.
pub fn push_digits(out: &mut String, n: u128)
    ensures
        final(out)@ == old(out)@ + digits_of(n as nat),
    decreases n,
{
    if n >= 10 {
        push_digits(out, n / 10);
    }
    let d: u8 = (n % 10) as u8;
    out.push((d + 48u8) as char);
}

/// Appends `n` in base ten to `out`.
pub fn push_decimal(out: &mut String, n: isize)
    ensures
        final(out)@ == old(out)@ + decimal(n as int),
{
    let wide: i128 = n as i128;
    if wide < 0 {
        out.push('-');
        push_digits(out, (-wide) as u128);
    } else {
        push_digits(out, wide as u128);
    }
}

} // verus!
