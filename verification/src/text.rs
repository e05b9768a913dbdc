//! Scanning of character sequences: runs of a character class at either end,
//! stripping, splitting at a separator, and the lines of a text.

use vstd::prelude::*;

verus! {

/// A class of characters that a scan runs over.
#[derive(Clone, Copy, Debug, PartialEq, Eq)]
pub enum CharClass {
    /// The characters with the Unicode property `White_Space`.
    Whitespace,
    /// The double quote.
    Quote,
    /// The ten ASCII decimal digits.
    Digit,
    /// Every character but the given one.
    Except(char),
}

/// Whether `c` has the Unicode property `White_Space`.
pub open spec fn is_whitespace(c: char) -> bool {
    ||| ('\u{9}' <= c && c <= '\u{d}')
    ||| c == ' '
    ||| c == '\u{85}'
    ||| c == '\u{a0}'
    ||| c == '\u{1680}'
    ||| ('\u{2000}' <= c && c <= '\u{200a}')
    ||| c == '\u{2028}'
    ||| c == '\u{2029}'
    ||| c == '\u{202f}'
    ||| c == '\u{205f}'
    ||| c == '\u{3000}'
}

/// Whether `c` is one of `0` to `9`.
pub open spec fn is_digit(c: char) -> bool {
    '0' <= c && c <= '9'
}

impl CharClass {
    /// Membership of a character in the class.
    pub open spec fn spec_contains(self, c: char) -> bool {
        match self {
            CharClass::Whitespace => is_whitespace(c),
            CharClass::Quote => c == '"',
            CharClass::Digit => is_digit(c),
            CharClass::Except(other) => c != other,
        }
    }

    #[verifier::when_used_as_spec(spec_contains)]
    pub fn contains(self, c: char) -> (b: bool)
        ensures
            b == self.spec_contains(c),
    {
        match self {
            CharClass::Whitespace => {
                ('\u{9}' <= c && c <= '\u{d}') || c == ' ' || c == '\u{85}' || c == '\u{a0}'
                    || c == '\u{1680}' || ('\u{2000}' <= c && c <= '\u{200a}') || c == '\u{2028}'
                    || c == '\u{2029}' || c == '\u{202f}' || c == '\u{205f}' || c == '\u{3000}'
            },
            CharClass::Quote => c == '"',
            CharClass::Digit => '0' <= c && c <= '9',
            CharClass::Except(other) => c != other,
        }
    }
}

/// The length of the longest prefix of `s` made of characters of `class`.
pub open spec fn prefix_len(s: Seq<char>, class: CharClass) -> nat
    decreases s.len(),
{
    if s.len() > 0 && class.contains(s[0]) {
        1 + prefix_len(s.drop_first(), class)
    } else {
        0
    }
}

/// The length of the longest suffix of `s` made of characters of `class`.
pub open spec fn suffix_len(s: Seq<char>, class: CharClass) -> nat
    decreases s.len(),
{
    if s.len() > 0 && class.contains(s.last()) {
        1 + suffix_len(s.drop_last(), class)
    } else {
        0
    }
}

/// `s` without its leading and its trailing characters of `class`.
pub open spec fn stripped(s: Seq<char>, class: CharClass) -> Seq<char> {
    let rest = s.skip(prefix_len(s, class) as int);
    rest.take(rest.len() - suffix_len(rest, class))
}

/// What stands in `s` before the first `sep`: all of `s` where it holds none.
pub open spec fn before_first(s: Seq<char>, sep: char) -> Seq<char> {
    s.take(prefix_len(s, CharClass::Except(sep)) as int)
}

/// What stands in `s` after the first `sep`, if it holds one.
pub open spec fn after_first(s: Seq<char>, sep: char) -> Option<Seq<char>> {
    let k = prefix_len(s, CharClass::Except(sep));
    if k < s.len() {
        Some(s.skip((k + 1) as int))
    } else {
        None
    }
}

/// The pieces of `text` between its line feeds, in order. A text without a
/// line feed is one line; a carriage return before a line feed stays in its line.
pub open spec fn lines(text: Seq<char>) -> Seq<Seq<char>>
    decreases text.len(),
{
    match after_first(text, '\n') {
        Some(rest) => seq![before_first(text, '\n')] + lines(rest),
        None => seq![text],
    }
}

/// A prefix length is known by what it is: every character before it is of
/// the class, and the character at it, if there is one, is not.
pub proof fn lemma_prefix_len_is(s: Seq<char>, class: CharClass, k: int)
    requires
        0 <= k <= s.len(),
        forall|i: int| 0 <= i < k ==> class.contains(#[trigger] s[i]),
        k < s.len() ==> !class.contains(s[k]),
    ensures
        prefix_len(s, class) == k,
    decreases k,
{
    if k > 0 {
        assert(class.contains(s[0]));
        let rest = s.drop_first();
        assert forall|i: int| 0 <= i < k - 1 implies class.contains(#[trigger] rest[i]) by {
            assert(rest[i] == s[i + 1]);
        }
        lemma_prefix_len_is(rest, class, k - 1);
    }
}

/// The prefix length lies within the sequence, covers characters of the class
/// only, and stops at the first character outside it.
pub proof fn lemma_prefix_len_bounds(s: Seq<char>, class: CharClass)
    ensures
        prefix_len(s, class) <= s.len(),
        forall|i: int| 0 <= i < prefix_len(s, class) ==> class.contains(#[trigger] s[i]),
        prefix_len(s, class) < s.len() ==> !class.contains(s[prefix_len(s, class) as int]),
    decreases s.len(),
{
    if s.len() > 0 && class.contains(s[0]) {
        let rest = s.drop_first();
        lemma_prefix_len_bounds(rest, class);
        assert forall|i: int| 0 <= i < prefix_len(s, class) implies class.contains(
            #[trigger] s[i],
        ) by {
            if i > 0 {
                assert(s[i] == rest[i - 1]);
            }
        }
        if prefix_len(s, class) < s.len() {
            assert(s[prefix_len(s, class) as int] == rest[prefix_len(rest, class) as int]);
        }
    }
}

/// A suffix length is known by what it is: every character of the last `k`
/// is of the class, and the character before them, if there is one, is not.
pub proof fn lemma_suffix_len_is(s: Seq<char>, class: CharClass, k: int)
    requires
        0 <= k <= s.len(),
        forall|i: int| s.len() - k <= i < s.len() ==> class.contains(#[trigger] s[i]),
        k < s.len() ==> !class.contains(s[s.len() - k - 1]),
    ensures
        suffix_len(s, class) == k,
    decreases k,
{
    if k > 0 {
        assert(class.contains(s[s.len() - 1]));
        let rest = s.drop_last();
        assert forall|i: int| rest.len() - (k - 1) <= i < rest.len() implies class.contains(
            #[trigger] rest[i],
        ) by {
            assert(rest[i] == s[i]);
        }
        lemma_suffix_len_is(rest, class, k - 1);
    }
}

/// Counts the leading characters of `s` that are of `class`.
pub fn scan_prefix(s: &[char], class: CharClass) -> (k: usize)
    ensures
        k == prefix_len(s@, class),
{
    let mut k: usize = 0;
    while k < s.len() && class.contains(s[k])
        invariant
            k <= s.len(),
            forall|i: int| 0 <= i < k ==> class.contains(#[trigger] s@[i]),
        decreases s.len() - k,
    {
        k += 1;
    }
    proof {
        lemma_prefix_len_is(s@, class, k as int);
    }
    k
}

/// Counts the trailing characters of `s` that are of `class`.
pub fn scan_suffix(s: &[char], class: CharClass) -> (k: usize)
    ensures
        k == suffix_len(s@, class),
{
    let n: usize = s.len();
    let mut k: usize = 0;
    while k < n && class.contains(s[n - k - 1])
        invariant
            n == s.len(),
            k <= n,
            forall|i: int| n - k <= i < n ==> class.contains(#[trigger] s@[i]),
        decreases n - k,
    {
        k += 1;
    }
    proof {
        lemma_suffix_len_is(s@, class, k as int);
    }
    k
}

/// Strips the characters of `class` from both ends of `s`.
pub fn strip<'a>(s: &'a [char], class: CharClass) -> (out: &'a [char])
    ensures
        out@ == stripped(s@, class),
{
    let lead: usize = scan_prefix(s, class);
    proof {
        lemma_prefix_len_bounds(s@, class);
    }
    let rest: &[char] = &s[lead..s.len()];
    let trail: usize = scan_suffix(rest, class);
    proof {
        lemma_suffix_len_bounds(rest@, class);
    }
    &rest[0..rest.len() - trail]
}

/// The suffix length lies within the sequence.
pub proof fn lemma_suffix_len_bounds(s: Seq<char>, class: CharClass)
    ensures
        suffix_len(s, class) <= s.len(),
    decreases s.len(),
{
    if s.len() > 0 && class.contains(s.last()) {
        lemma_suffix_len_bounds(s.drop_last(), class);
    }
}

/// Splits `s` at its first `sep`: what stands before it, and what stands
/// after it where `s` holds one.
pub fn split_once<'a>(s: &'a [char], sep: char) -> (parts: (&'a [char], Option<&'a [char]>))
    ensures
        parts.0@ == before_first(s@, sep),
        match parts.1 {
            Some(tail) => after_first(s@, sep) == Some(tail@),
            None => after_first(s@, sep) is None,
        },
{
    let k: usize = scan_prefix(s, CharClass::Except(sep));
    proof {
        lemma_prefix_len_bounds(s@, CharClass::Except(sep));
    }
    let head: &[char] = &s[0..k];
    if k < s.len() {
        let tail: &[char] = &s[k + 1..s.len()];
        (head, Some(tail))
    } else {
        (head, None)
    }
}

/// Whether `s` spells the text `word`.
pub fn spells(s: &[char], word: &str) -> (b: bool)
    ensures
        b == (s@ == word@),
{
    let mut i: usize = 0;
    let mut same: bool = true;
    let it = word.chars();
    for c in iter: it
        invariant
            iter.seq() == word@,
            i <= s.len(),
            same ==> i == iter.index() && s@.take(i as int) == word@.take(i as int),
            !same ==> s@ != word@,
    {
        if same {
            if i < s.len() && s[i] == c {
                assert(s@.take(i + 1) == s@.take(i as int).push(s@[i as int]));
                assert(word@.take(i + 1) == word@.take(i as int).push(c));
                i += 1;
            } else {
                assert(i < s.len() ==> s@[i as int] != word@[i as int]);
                same = false;
            }
        }
    }
    proof {
        if same && i == s.len() {
            assert(s@ == s@.take(i as int));
            assert(word@ == word@.take(i as int));
        }
    }
    same && i == s.len()
}

/// The characters of `text`, one by one.
pub fn to_chars(text: &str) -> (out: Vec<char>)
    ensures
        out@ == text@,
{
    let mut out: Vec<char> = Vec::new();
    let it = text.chars();
    for c in iter: it
        invariant
            out@ == iter.seq().take(iter.index()),
    {
        out.push(c);
    }
    out
}

} // verus!
