//! Character classes of the regex crate. The classes `\d`, `\s` and `\w`
//! are Unicode tables; whether a character is in one is asked of the crate,
//! and the shape of every pattern is written out over these answers.

use vstd::prelude::*;

verus! {

/// Whether the regular expression `pattern` has a match in the text that is
/// the one character `c`, as `regex::Regex::is_match` tells it. An
/// expression that the crate refuses has none.
pub uninterp spec fn class_has(pattern: Seq<char>, c: char) -> bool;

/// Compiles `pattern` with `regex::Regex::new` and calls
/// `regex::Regex::is_match` on the one character.
#[verifier::external_body]
pub(crate) fn in_class(pattern: &str, c: char) -> (r: bool)
    ensures
        r == class_has(pattern@, c),
{
    match regex::Regex::new(pattern) {
        Ok(re) => re.is_match(c.encode_utf8(&mut [0u8; 4])),
        Err(_) => false,
    }
}

/// Whether `c` is in the class `\d`.
pub open spec fn is_digit(c: char) -> bool {
    class_has("\\d"@, c)
}

/// Whether `c` is in the class `\s`.
pub open spec fn is_blank(c: char) -> bool {
    class_has("\\s"@, c)
}

/// Whether `c` is in the class `\w`.
pub open spec fn is_word(c: char) -> bool {
    class_has("\\w"@, c)
}

/// Whether the `n` characters of `t` from index `i` on are there and are
/// all in the class `\d`.
pub open spec fn digits_at(t: Seq<char>, i: int, n: int) -> bool {
    0 <= i && i + n <= t.len() && forall|j: int| i <= j < i + n ==> is_digit(#[trigger] t[j])
}

/// Whether the `n` characters of `t` from index `i` on are there and are
/// all in the class `\d`.
pub fn has_digits(t: &Vec<char>, i: usize, n: usize) -> (r: bool)
    ensures
        r == digits_at(t@, i as int, n as int),
{
    if n > t.len() || i > t.len() - n {
        return false;
    }
    let mut j: usize = i;
    while j < i + n
        invariant
            i <= j <= i + n <= t.len(),
            forall|m: int| i <= m < j ==> is_digit(#[trigger] t[m]),
        decreases i + n - j,
    {
        if !in_class("\\d", t[j]) {
            return false;
        }
        j += 1;
    }
    true
}

/// Whether `c` stands in `t` at index `i`.
pub open spec fn char_at(t: Seq<char>, i: int, c: char) -> bool {
    0 <= i < t.len() && t[i] == c
}

/// Whether the character of `t` at index `i` is there and is in the class
/// `\w`.
pub open spec fn word_at(t: Seq<char>, i: int) -> bool {
    0 <= i < t.len() && is_word(t[i])
}

/// Whether index `i` of `t` is a word boundary: a character of the class
/// `\w` on one side, and on the other a character that is not, or an end of
/// the text.
pub open spec fn boundary_at(t: Seq<char>, i: int) -> bool {
    word_at(t, i - 1) != word_at(t, i)
}

/// Whether index `i` of `t` is a word boundary.
pub fn is_boundary(t: &Vec<char>, i: usize) -> (r: bool)
    requires
        i <= t.len(),
    ensures
        r == boundary_at(t@, i as int),
{
    let left = i > 0 && in_class("\\w", t[i - 1]);
    let right = i < t.len() && in_class("\\w", t[i]);
    left != right
}

} // verus!
