//! Keys in kebab case: words in lower case, joined by hyphens.

use vstd::prelude::*;

use crate::fields::{entries, fields_get_index, fields_insert, fields_len, fields_new, put, Entries, Fields};
use crate::pattern::{in_class, is_digit};
use crate::text::{lower, lower_of, replace_char, replaced, to_chars, to_string};

verus! {

/// Whether `c` is one of the letters `A` to `Z`.
pub open spec fn is_upper(c: char) -> bool {
    'A' <= c <= 'Z'
}

/// Whether `c` is one of the letters `a` to `z`.
pub open spec fn is_lower(c: char) -> bool {
    'a' <= c <= 'z'
}

/// Whether a word begins at index `p` of `s` at the end of a run of capital
/// letters: a capital letter, after a capital letter and before a small one.
pub open spec fn ends_acronym(s: Seq<char>, p: int) -> bool {
    1 <= p && p + 1 < s.len() && is_upper(s[p - 1]) && is_upper(s[p]) && is_lower(s[p + 1])
}

/// Whether a word begins at index `p` of `s` with a capital letter after a
/// small letter or a digit.
pub open spec fn begins_word(s: Seq<char>, p: int) -> bool {
    1 <= p < s.len() && (is_lower(s[p - 1]) || is_digit(s[p - 1])) && is_upper(s[p])
}

/// The first `n` characters of `s`, with an underscore before each capital
/// letter that ends a run of capital letters and begins a word.
pub open spec fn acronyms_split(s: Seq<char>, n: int) -> Seq<char>
    decreases n,
{
    if n <= 0 {
        Seq::empty()
    } else if ends_acronym(s, n - 1) {
        acronyms_split(s, n - 1).push('_').push(s[n - 1])
    } else {
        acronyms_split(s, n - 1).push(s[n - 1])
    }
}

/// The first `n` characters of `s`, with an underscore before each capital
/// letter that follows a small letter or a digit.
pub open spec fn words_split(s: Seq<char>, n: int) -> Seq<char>
    decreases n,
{
    if n <= 0 {
        Seq::empty()
    } else if begins_word(s, n - 1) {
        words_split(s, n - 1).push('_').push(s[n - 1])
    } else {
        words_split(s, n - 1).push(s[n - 1])
    }
}

/// A text in snake case: hyphens and spaces become underscores, the words
/// that capital letters mark are set apart by underscores, and the whole is
/// put in lower case.
pub open spec fn underscored(text: Seq<char>) -> Seq<char> {
    let s = replaced(replaced(text, '-', '_'), ' ', '_');
    let a = acronyms_split(s, s.len() as int);
    lower_of(words_split(a, a.len() as int))
}

/// A key in kebab case: the key in snake case, with hyphens for underscores,
/// in lower case.
pub open spec fn field_name(text: Seq<char>) -> Seq<char> {
    lower_of(replaced(underscored(text), '_', '-'))
}

fn upper_letter(c: char) -> (r: bool)
    ensures
        r == is_upper(c),
{
    'A' <= c && c <= 'Z'
}

fn lower_letter(c: char) -> (r: bool)
    ensures
        r == is_lower(c),
{
    'a' <= c && c <= 'z'
}

fn split_acronyms(s: &Vec<char>) -> (r: Vec<char>)
    ensures
        r@ == acronyms_split(s@, s.len() as int),
{
    let mut out: Vec<char> = Vec::new();
    let mut i: usize = 0;
    while i < s.len()
        invariant
            i <= s.len(),
            out@ == acronyms_split(s@, i as int),
        decreases s.len() - i,
    {
        if i >= 1 && i + 1 < s.len() && upper_letter(s[i - 1]) && upper_letter(s[i]) && lower_letter(
            s[i + 1],
        ) {
            out.push('_');
        }
        out.push(s[i]);
        i += 1;
    }
    out
}

fn split_at_words(s: &Vec<char>) -> (r: Vec<char>)
    ensures
        r@ == words_split(s@, s.len() as int),
{
    let mut out: Vec<char> = Vec::new();
    let mut i: usize = 0;
    while i < s.len()
        invariant
            i <= s.len(),
            out@ == words_split(s@, i as int),
        decreases s.len() - i,
    {
        if i >= 1 && upper_letter(s[i]) && (lower_letter(s[i - 1]) || in_class("\\d", s[i - 1])) {
            out.push('_');
        }
        out.push(s[i]);
        i += 1;
    }
    out
}

/// Puts a text in snake case.
pub fn underscore(text: &str) -> (r: String)
    ensures
        r@ == underscored(text@),
{
    let s = replace_char(&replace_char(&to_chars(text), '-', '_'), ' ', '_');
    let a = split_acronyms(&s);
    to_string(&lower(&split_at_words(&a)))
}

/// Puts a key in kebab case.
pub fn as_note_field_name(text: &str) -> (r: String)
    ensures
        r@ == field_name(text@),
{
    let s = underscore(text);
    to_string(&lower(&replace_char(&to_chars(s.as_str()), '_', '-')))
}

/// The first `n` entries of `e` put one by one, each under its key in kebab
/// case, into a mapping. A key that two entries come to share keeps the
/// place of the first and the value of the last.
pub open spec fn keys_normalized(e: Entries, n: int) -> Entries
    decreases n,
{
    if n <= 0 {
        Seq::empty()
    } else {
        put(keys_normalized(e, n - 1), field_name(e[n - 1].0), e[n - 1].1)
    }
}

/// Puts every key of a mapping in kebab case.
pub fn normalize_keys(map: Fields) -> (r: Fields)
    ensures
        entries(r) == keys_normalized(entries(map), entries(map).len() as int),
{
    let mut out = fields_new();
    let n = fields_len(&map);
    let mut i: usize = 0;
    while i < n
        invariant
            i <= n,
            n == entries(map).len(),
            entries(out) == keys_normalized(entries(map), i as int),
        decreases n - i,
    {
        if let Some((key, value)) = fields_get_index(&map, i) {
            fields_insert(&mut out, as_note_field_name(key.as_str()), value.clone());
        }
        i += 1;
    }
    out
}

/// Whether a key holds no capital letter, no underscore and no space.
pub open spec fn is_plain(key: Seq<char>) -> bool {
    forall|i: int|
        0 <= i < key.len() ==> !is_upper(#[trigger] key[i]) && key[i] != '_' && key[i] != ' '
}

/// A text without capital letters has no word to set apart.
pub proof fn lemma_nothing_to_split(s: Seq<char>, n: int)
    requires
        0 <= n <= s.len(),
        forall|i: int| 0 <= i < s.len() ==> !is_upper(#[trigger] s[i]),
    ensures
        acronyms_split(s, n) == s.take(n),
        words_split(s, n) == s.take(n),
    decreases n,
{
    if n > 0 {
        lemma_nothing_to_split(s, n - 1);
        assert(!is_upper(s[n - 1]));
        assert(s.take(n - 1).push(s[n - 1]) =~= s.take(n));
    } else {
        assert(s.take(0) =~= Seq::empty());
    }
}

/// A key in kebab case is left as it is: one that holds no capital letter,
/// no underscore and no space, and that lower-casing leaves unchanged, both
/// as it is and with underscores for its hyphens.
pub proof fn lemma_kebab_case_settled(key: Seq<char>)
    requires
        is_plain(key),
        lower_of(key) == key,
        lower_of(replaced(key, '-', '_')) == replaced(key, '-', '_'),
    ensures
        field_name(key) == key,
{
    let s = replaced(replaced(key, '-', '_'), ' ', '_');
    assert(s =~= replaced(key, '-', '_')) by {
        assert forall|i: int| 0 <= i < key.len() implies s[i] == replaced(key, '-', '_')[i] by {
            assert(key[i] != ' ');
        }
    }
    assert forall|i: int| 0 <= i < s.len() implies !is_upper(#[trigger] s[i]) by {
        assert(!is_upper(key[i]));
    }
    lemma_nothing_to_split(s, s.len() as int);
    assert(s.take(s.len() as int) =~= s);
    assert(replaced(s, '_', '-') =~= key) by {
        assert forall|i: int| 0 <= i < key.len() implies replaced(s, '_', '-')[i] == key[i] by {
            assert(key[i] != '_');
        }
    }
}

} // verus!
