//! Character-level helpers shared by the probes, the naming rule and the
//! status texts.

use vstd::prelude::*;
use vstd::string::*;

verus! {

/// Whether `c` has the Unicode `White_Space` property: the ASCII controls
/// from tab to carriage return, the space, next line, the no-break spaces,
/// the Ogham space mark, the spaces of fixed width, the line and paragraph
/// separators, the medium mathematical space and the ideographic space.
pub open spec fn unicode_whitespace(c: char) -> bool {
    ||| '\u{9}' <= c <= '\u{d}'
    ||| c == ' '
    ||| c == '\u{85}'
    ||| c == '\u{a0}'
    ||| c == '\u{1680}'
    ||| '\u{2000}' <= c <= '\u{200a}'
    ||| c == '\u{2028}'
    ||| c == '\u{2029}'
    ||| c == '\u{202f}'
    ||| c == '\u{205f}'
    ||| c == '\u{3000}'
}

/// The Unicode lower-case form of a text, as `str::to_lowercase` computes it.
pub uninterp spec fn lowercase(text: Seq<char>) -> Seq<char>;

/// The view of an optional string.
pub open spec fn text_of(s: Option<String>) -> Option<Seq<char>> {
    match s {
        Some(s) => Some(s@),
        None => None,
    }
}

/// Calls `char::is_whitespace`, which says whether a character has the
/// Unicode `White_Space` property. That the property holds of exactly the
/// characters of [`unicode_whitespace`] is taken from the Unicode character
/// database and not proved.
#[verifier::external_body]
pub(crate) fn is_whitespace(c: char) -> (r: bool)
    ensures
        r == unicode_whitespace(c),
{
    c.is_whitespace()
}

/// Calls `str::to_lowercase`. Nothing is proved of the result; it is given
/// the name [`lowercase`].
#[verifier::external_body]
pub(crate) fn to_lowercase(text: &str) -> (lowered: String)
    ensures
        lowered@ == lowercase(text@),
{
    text.to_lowercase()
}

/// Calls `String::push`, which appends one character to the string.
#[verifier::external_body]
pub(crate) fn push_char(s: &mut String, c: char)
    ensures
        final(s)@ == old(s)@.push(c),
{
    s.push(c)
}

/// The characters of a string slice, in order.
pub fn chars_of(s: &str) -> (chars: Vec<char>)
    ensures
        chars@ == s@,
{
    let n = s.unicode_len();
    let mut chars: Vec<char> = Vec::new();
    let mut i: usize = 0;
    while i < n
        invariant
            i <= n,
            n == s@.len(),
            chars@ == s@.subrange(0, i as int),
        decreases n - i,
    {
        chars.push(s.get_char(i));
        i += 1;
        proof {
            assert(chars@ =~= s@.subrange(0, i as int));
        }
    }
    proof {
        assert(s@.subrange(0, n as int) =~= s@);
    }
    chars
}

/// The string made of `chars[from..to]`.
pub fn string_of(chars: &Vec<char>, from: usize, to: usize) -> (s: String)
    requires
        from <= to <= chars.len(),
    ensures
        s@ == chars@.subrange(from as int, to as int),
{
    let mut s = String::new();
    let mut i: usize = from;
    while i < to
        invariant
            from <= i <= to,
            to <= chars.len(),
            s@ == chars@.subrange(from as int, i as int),
        decreases to - i,
    {
        push_char(&mut s, chars[i]);
        i += 1;
        proof {
            assert(s@ =~= chars@.subrange(from as int, i as int));
        }
    }
    s
}

/// `pattern` stands in `text` at position `at`.
pub open spec fn occurs_at(text: Seq<char>, pattern: Seq<char>, at: int) -> bool {
    &&& 0 <= at
    &&& at + pattern.len() <= text.len()
    &&& text.subrange(at, at + pattern.len()) == pattern
}

/// `pattern` stands somewhere in `text`.
pub open spec fn contains(text: Seq<char>, pattern: Seq<char>) -> bool {
    exists|at: int| occurs_at(text, pattern, at)
}

fn matches_at(text: &Vec<char>, pattern: &Vec<char>, at: usize) -> (r: bool)
    requires
        at + pattern.len() <= text.len(),
    ensures
        r == occurs_at(text@, pattern@, at as int),
{
    let mut j: usize = 0;
    while j < pattern.len()
        invariant
            j <= pattern.len(),
            at + pattern.len() <= text.len(),
            forall|k: int| 0 <= k < j ==> text@[at + k] == pattern@[k],
        decreases pattern.len() - j,
    {
        if text[at + j] != pattern[j] {
            proof {
                let window = text@.subrange(at as int, at + pattern.len());
                assert(window[j as int] == text@[at + j]);
            }
            return false;
        }
        j += 1;
    }
    proof {
        assert(text@.subrange(at as int, at + pattern.len()) =~= pattern@);
    }
    true
}

/// Whether `pattern` stands somewhere in `text`.
pub fn contains_text(text: &Vec<char>, pattern: &Vec<char>) -> (found: bool)
    ensures
        found == contains(text@, pattern@),
{
    if pattern.len() > text.len() {
        return false;
    }
    let last: usize = text.len() - pattern.len();
    let mut i: usize = 0;
    loop
        invariant
            i <= last,
            last == text.len() - pattern.len(),
            forall|k: int| 0 <= k < i ==> !occurs_at(text@, pattern@, k),
        decreases last - i,
    {
        if matches_at(text, pattern, i) {
            return true;
        }
        if i == last {
            return false;
        }
        i += 1;
    }
}

/// `text` without the whitespace at its two ends.
pub open spec fn trimmed(text: Seq<char>) -> Seq<char>
    decreases text.len(),
{
    if text.len() == 0 {
        text
    } else if unicode_whitespace(text.first()) {
        trimmed(text.drop_first())
    } else if unicode_whitespace(text.last()) {
        trimmed(text.drop_last())
    } else {
        text
    }
}

/// The bounds of `text` without the whitespace at its two ends.
pub fn trim_bounds(text: &Vec<char>) -> (bounds: (usize, usize))
    ensures
        bounds.0 <= bounds.1 <= text.len(),
        text@.subrange(bounds.0 as int, bounds.1 as int) == trimmed(text@),
{
    let n = text.len();
    let mut a: usize = 0;
    proof {
        assert(text@.subrange(0, n as int) =~= text@);
    }
    while a < n && is_whitespace(text[a])
        invariant
            a <= n,
            n == text.len(),
            trimmed(text@) == trimmed(text@.subrange(a as int, n as int)),
        decreases n - a,
    {
        proof {
            let rest = text@.subrange(a as int, n as int);
            assert(rest.first() == text@[a as int]);
            assert(rest.drop_first() =~= text@.subrange(a + 1, n as int));
        }
        a += 1;
    }
    let mut b: usize = n;
    while b > a && is_whitespace(text[b - 1])
        invariant
            a <= b <= n,
            n == text.len(),
            a < n ==> !unicode_whitespace(text@[a as int]),
            trimmed(text@) == trimmed(text@.subrange(a as int, b as int)),
        decreases b - a,
    {
        proof {
            let rest = text@.subrange(a as int, b as int);
            assert(rest.first() == text@[a as int]);
            assert(rest.last() == text@[b - 1]);
            assert(rest.drop_last() =~= text@.subrange(a as int, b - 1));
        }
        b -= 1;
    }
    proof {
        let rest = text@.subrange(a as int, b as int);
        if a < b {
            assert(rest.first() == text@[a as int]);
            assert(rest.last() == text@[b - 1]);
        }
    }
    (a, b)
}

/// The character of one decimal digit.
pub open spec fn digit(d: nat) -> char {
    if d == 0 {
        '0'
    } else if d == 1 {
        '1'
    } else if d == 2 {
        '2'
    } else if d == 3 {
        '3'
    } else if d == 4 {
        '4'
    } else if d == 5 {
        '5'
    } else if d == 6 {
        '6'
    } else if d == 7 {
        '7'
    } else if d == 8 {
        '8'
    } else {
        '9'
    }
}

/// The decimal numeral of `n`, without leading zeros.
pub open spec fn decimal(n: nat) -> Seq<char>
    decreases n,
{
    if n < 10 {
        seq![digit(n)]
    } else {
        decimal(n / 10).push(digit(n % 10))
    }
}

fn digit_char(d: usize) -> (c: char)
    requires
        d < 10,
    ensures
        c == digit(d as nat),
{
    if d == 0 {
        '0'
    } else if d == 1 {
        '1'
    } else if d == 2 {
        '2'
    } else if d == 3 {
        '3'
    } else if d == 4 {
        '4'
    } else if d == 5 {
        '5'
    } else if d == 6 {
        '6'
    } else if d == 7 {
        '7'
    } else if d == 8 {
        '8'
    } else {
        '9'
    }
}

/// Appends the decimal numeral of `n` to `s`.
pub fn push_decimal(s: &mut String, n: usize)
    ensures
        final(s)@ == old(s)@ + decimal(n as nat),
    decreases n,
{
    if n < 10 {
        push_char(s, digit_char(n));
        proof {
            assert(final(s)@ =~= old(s)@ + decimal(n as nat));
        }
    } else {
        push_decimal(s, n / 10);
        push_char(s, digit_char(n % 10));
        proof {
            assert(s@ =~= old(s)@ + decimal(n as nat));
        }
    }
}

} // verus!
