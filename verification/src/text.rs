//! Character sequences: the model on which the parsers and the
//! normalisation stages are stated, and the executable helpers over it.

use vstd::prelude::*;

verus! {

/// `String::push` appends one character at the end of the string.
pub assume_specification[ std::string::String::push ](s: &mut std::string::String, c: char)
    ensures
        final(s)@ == old(s)@.push(c),
;

/// The characters of `s`, in order.
pub fn to_chars(s: &str) -> (r: Vec<char>)
    ensures
        r@ == s@,
{
    let mut out: Vec<char> = Vec::new();
    for c in it: s.chars()
        invariant
            out@ == it.seq().take(it.index() as int),
            it.seq() == s@,
    {
        out.push(c);
    }
    out
}

/// The string made of the characters of `v`, in order.
pub fn to_string(v: &Vec<char>) -> (r: String)
    ensures
        r@ == v@,
{
    let mut out = String::new();
    let mut i: usize = 0;
    while i < v.len()
        invariant
            i <= v.len(),
            out@ == v@.take(i as int),
        decreases v.len() - i,
    {
        out.push(v[i]);
        i += 1;
    }
    out
}


/// Whether `c` has the Unicode property White_Space: the controls from tab
/// to carriage return, the space, next line, the no-break spaces, the
/// spaces of fixed width, the line and paragraph separators, and the
/// ideographic space.
pub open spec fn is_space(c: char) -> bool {
    ('\u{9}' <= c <= '\u{d}') || c == ' ' || c == '\u{85}' || c == '\u{a0}' || c == '\u{1680}' || (
    '\u{2000}' <= c <= '\u{200a}') || c == '\u{2028}' || c == '\u{2029}' || c == '\u{202f}' || c
        == '\u{205f}' || c == '\u{3000}'
}

/// `char::is_whitespace` tells whether the character has the property
/// White_Space.
pub assume_specification[ char::is_whitespace ](c: char) -> (r: bool)
    ensures
        r == is_space(c),
;

/// Whether `p` stands in `t` at index `i`.
pub open spec fn has_at(t: Seq<char>, i: int, p: Seq<char>) -> bool {
    0 <= i && i + p.len() <= t.len() && t.subrange(i, i + p.len()) == p
}

/// The least index from `from` on at which `p` stands in `t`.
pub open spec fn find_at(t: Seq<char>, from: int, p: Seq<char>) -> Option<int>
    decreases t.len() - from + 1,
{
    if from < 0 || from + p.len() > t.len() {
        None
    } else if has_at(t, from, p) {
        Some(from)
    } else {
        find_at(t, from + 1, p)
    }
}

/// What `find_at` gives is the least such index, and `None` means that there
/// is none.
pub proof fn lemma_find_at(t: Seq<char>, from: int, p: Seq<char>)
    requires
        0 <= from,
    ensures
        match find_at(t, from, p) {
            Some(i) => from <= i && has_at(t, i, p) && forall|j: int|
                from <= j < i ==> !has_at(t, j, p),
            None => forall|j: int| from <= j ==> !has_at(t, j, p),
        },
    decreases t.len() - from + 1,
{
    if from + p.len() > t.len() {
    } else if has_at(t, from, p) {
    } else {
        lemma_find_at(t, from + 1, p);
    }
}

/// Whether `p` stands in `t` at index `i`.
pub fn starts_at(t: &Vec<char>, i: usize, p: &Vec<char>) -> (r: bool)
    ensures
        r == has_at(t@, i as int, p@),
{
    if p.len() > t.len() || i > t.len() - p.len() {
        return false;
    }
    let mut j: usize = 0;
    while j < p.len()
        invariant
            j <= p.len(),
            i + p.len() <= t.len(),
            forall|m: int| 0 <= m < j ==> t[i + m] == p[m],
        decreases p.len() - j,
    {
        if t[i + j] != p[j] {
            assert(t@.subrange(i as int, i + p.len())[j as int] == t[i + j]);
            return false;
        }
        j += 1;
    }
    assert(t@.subrange(i as int, i + p.len()) =~= p@);
    true
}

/// The least index from `from` on at which `p` stands in `t`.
pub fn find(t: &Vec<char>, from: usize, p: &Vec<char>) -> (r: Option<usize>)
    ensures
        match r {
            Some(i) => find_at(t@, from as int, p@) == Some(i as int),
            None => find_at(t@, from as int, p@) is None,
        },
{
    let mut i: usize = from;
    while i <= t.len() && p.len() <= t.len() - i
        invariant
            from <= i,
            find_at(t@, from as int, p@) == find_at(t@, i as int, p@),
        decreases t.len() + 1 - i,
    {
        if starts_at(t, i, p) {
            return Some(i);
        }
        if i == t.len() {
            assert(find_at(t@, i + 1, p@) is None);
            return None;
        }
        i += 1;
    }
    None
}

/// Whether `p` stands somewhere in `t`.
pub open spec fn contains_seq(t: Seq<char>, p: Seq<char>) -> bool {
    find_at(t, 0, p) is Some
}

/// The characters of `t` from index `a` up to, not including, index `b`.
pub fn slice(t: &Vec<char>, a: usize, b: usize) -> (r: Vec<char>)
    requires
        a <= b <= t.len(),
    ensures
        r@ == t@.subrange(a as int, b as int),
{
    let mut out: Vec<char> = Vec::new();
    let mut i: usize = a;
    while i < b
        invariant
            a <= i <= b <= t.len(),
            out@ == t@.subrange(a as int, i as int),
        decreases b - i,
    {
        out.push(t[i]);
        i += 1;
    }
    out
}

/// Appends the characters of `src` to `dst`.
pub fn push_all(dst: &mut Vec<char>, src: &Vec<char>)
    ensures
        final(dst)@ == old(dst)@ + src@,
{
    let mut i: usize = 0;
    while i < src.len()
        invariant
            i <= src.len(),
            dst@ == old(dst)@ + src@.take(i as int),
        decreases src.len() - i,
    {
        dst.push(src[i]);
        i += 1;
    }
    assert(src@.take(src.len() as int) =~= src@);
}

/// `a` followed by `b`.
pub fn concat(a: &Vec<char>, b: &Vec<char>) -> (r: Vec<char>)
    ensures
        r@ == a@ + b@,
{
    let mut out: Vec<char> = Vec::new();
    push_all(&mut out, a);
    push_all(&mut out, b);
    out
}

/// Whether the two hold the same characters.
pub fn same(a: &Vec<char>, b: &Vec<char>) -> (r: bool)
    ensures
        r == (a@ == b@),
{
    if a.len() != b.len() {
        return false;
    }
    let r = starts_at(a, 0, b);
    assert(a@.subrange(0, a.len() as int) =~= a@);
    r
}

/// Whether `s` holds the characters of `t`.
pub fn same_str(s: &str, t: &str) -> (r: bool)
    ensures
        r == (s@ == t@),
{
    let a = to_chars(s);
    let b = to_chars(t);
    same(&a, &b)
}

/// `t` without the white space at its start.
pub open spec fn trim_start_of(t: Seq<char>) -> Seq<char>
    decreases t.len(),
{
    if t.len() > 0 && is_space(t[0]) {
        trim_start_of(t.drop_first())
    } else {
        t
    }
}

/// `t` without the white space at its end.
pub open spec fn trim_end_of(t: Seq<char>) -> Seq<char>
    decreases t.len(),
{
    if t.len() > 0 && is_space(t.last()) {
        trim_end_of(t.drop_last())
    } else {
        t
    }
}

/// `t` without the white space at its start and at its end.
pub open spec fn trim_of(t: Seq<char>) -> Seq<char> {
    trim_end_of(trim_start_of(t))
}

/// The number of white-space characters at the start of `t`.
pub fn leading_space(t: &Vec<char>) -> (r: usize)
    ensures
        r <= t.len(),
        trim_start_of(t@) == t@.subrange(r as int, t.len() as int),
{
    let mut i: usize = 0;
    assert(t@.subrange(0, t.len() as int) =~= t@);
    while i < t.len() && t[i].is_whitespace()
        invariant
            i <= t.len(),
            trim_start_of(t@) == trim_start_of(t@.subrange(i as int, t.len() as int)),
        decreases t.len() - i,
    {
        assert(t@.subrange(i as int, t.len() as int).drop_first() =~= t@.subrange(
            i + 1,
            t.len() as int,
        ));
        i += 1;
    }
    i
}

/// The length of `t` without the white space at its end.
pub fn trimmed_end(t: &Vec<char>, from: usize) -> (r: usize)
    requires
        from <= t.len(),
    ensures
        from <= r <= t.len(),
        trim_end_of(t@.subrange(from as int, t.len() as int)) == t@.subrange(from as int, r as int),
{
    let mut i: usize = t.len();
    while i > from && t[i - 1].is_whitespace()
        invariant
            from <= i <= t.len(),
            trim_end_of(t@.subrange(from as int, t.len() as int)) == trim_end_of(
                t@.subrange(from as int, i as int),
            ),
        decreases i,
    {
        assert(t@.subrange(from as int, i as int).drop_last() =~= t@.subrange(
            from as int,
            i - 1,
        ));
        i -= 1;
    }
    i
}

/// `t` without the white space at its start and at its end.
pub fn trim(t: &Vec<char>) -> (r: Vec<char>)
    ensures
        r@ == trim_of(t@),
{
    let a = leading_space(t);
    let b = trimmed_end(t, a);
    slice(t, a, b)
}

/// `t` without the white space at its end.
pub fn trim_end(t: &Vec<char>) -> (r: Vec<char>)
    ensures
        r@ == trim_end_of(t@),
{
    let b = trimmed_end(t, 0);
    assert(t@.subrange(0, t.len() as int) =~= t@);
    slice(t, 0, b)
}


/// The upper-case form of a character, as `char::to_uppercase` gives it:
/// one character or more.
pub uninterp spec fn upper_of(c: char) -> Seq<char>;

/// The lower-case form of a text, as `str::to_lowercase` gives it.
pub uninterp spec fn lower_of(s: Seq<char>) -> Seq<char>;

/// The number that `str::parse::<i64>` reads from a text.
pub uninterp spec fn parsed_int(s: Seq<char>) -> Option<i64>;

/// The decimal digit of a number below ten.
pub open spec fn digit_of(d: int) -> char {
    if d == 0 {
        '0'
    } else if d == 1 {
        '1'
    } else if d == 2 {
        '2'
    } else if d == 3 {
        '3'
    } else if d == 4 {
        '4'
    } else if d == 5 {
        '5'
    } else if d == 6 {
        '6'
    } else if d == 7 {
        '7'
    } else if d == 8 {
        '8'
    } else {
        '9'
    }
}

/// A number written in decimal digits.
pub open spec fn decimal_of(n: nat) -> Seq<char>
    decreases n,
{
    if n < 10 {
        seq![digit_of(n as int)]
    } else {
        decimal_of(n / 10).push(digit_of((n % 10) as int))
    }
}

/// A whole number written in decimal digits, with a minus sign before those
/// of a negative number.
pub open spec fn int_text(i: i64) -> Seq<char> {
    if i < 0 {
        seq!['-'] + decimal_of((-i) as nat)
    } else {
        decimal_of(i as nat)
    }
}

/// Calls `char::to_uppercase` and collects the characters it yields, which
/// are one or more.
#[verifier::external_body]
pub(crate) fn upper(c: char) -> (r: Vec<char>)
    ensures
        r@ == upper_of(c),
        r@.len() >= 1,
{
    c.to_uppercase().collect()
}

/// `str::to_lowercase` gives the lower-case form of the text.
pub assume_specification[ str::to_lowercase ](s: &str) -> (r: std::string::String)
    ensures
        r@ == lower_of(s@),
;

/// Calls `str::parse::<i64>`; a text that is no number gives nothing.
#[verifier::external_body]
pub(crate) fn parse_int(s: &str) -> (r: Option<i64>)
    ensures
        r == parsed_int(s@),
{
    s.parse::<i64>().ok()
}

/// Calls `i64::to_string`, which writes the number in decimal digits, with a
/// minus sign before those of a negative number.
#[verifier::external_body]
pub(crate) fn int_to_string(i: i64) -> (r: String)
    ensures
        r@ == int_text(i),
{
    i.to_string()
}

/// `a` followed by `b`, as a string.
pub fn join2(a: &str, b: &str) -> (r: String)
    ensures
        r@ == a@ + b@,
{
    let mut out = to_chars(a);
    let tail = to_chars(b);
    push_all(&mut out, &tail);
    to_string(&out)
}


/// The least index at which `c` stands in `t`, or `t.len()` if it stands
/// nowhere.
pub open spec fn index_of(t: Seq<char>, c: char) -> int
    decreases t.len(),
{
    if t.len() == 0 {
        0
    } else if t[0] == c {
        0
    } else {
        1 + index_of(t.drop_first(), c)
    }
}

/// `index_of` is within the text, nothing before it is `c`, and where it is
/// an index, `c` stands there.
pub proof fn lemma_index_of(t: Seq<char>, c: char)
    ensures
        0 <= index_of(t, c) <= t.len(),
        forall|j: int| 0 <= j < index_of(t, c) ==> t[j] != c,
        index_of(t, c) < t.len() ==> t[index_of(t, c)] == c,
    decreases t.len(),
{
    if t.len() > 0 && t[0] != c {
        lemma_index_of(t.drop_first(), c);
        assert forall|j: int| 0 <= j < index_of(t, c) implies t[j] != c by {
            if j > 0 {
                assert(t[j] == t.drop_first()[j - 1]);
            }
        }
    }
}

/// An index with nothing equal to `c` before it, which holds `c` or is the
/// end, is what `index_of` gives.
pub proof fn lemma_index_of_at(t: Seq<char>, c: char, i: int)
    requires
        0 <= i <= t.len(),
        forall|j: int| 0 <= j < i ==> t[j] != c,
        i < t.len() ==> t[i] == c,
    ensures
        index_of(t, c) == i,
{
    lemma_index_of(t, c);
}

/// The least index from `from` on at which `c` stands in `t`, or `t.len()`.
pub fn find_char(t: &Vec<char>, from: usize, c: char) -> (r: usize)
    requires
        from <= t.len(),
    ensures
        from <= r <= t.len(),
        r == from + index_of(t@.subrange(from as int, t.len() as int), c),
{
    let mut i: usize = from;
    while i < t.len() && t[i] != c
        invariant
            from <= i <= t.len(),
            forall|j: int| from <= j < i ==> t[j] != c,
        decreases t.len() - i,
    {
        i += 1;
    }
    proof {
        lemma_index_of_at(t@.subrange(from as int, t.len() as int), c, i - from);
    }
    i
}

/// `line` without one carriage return at its end.
pub open spec fn strip_cr(line: Seq<char>) -> Seq<char> {
    if line.len() > 0 && line.last() == '\r' {
        line.drop_last()
    } else {
        line
    }
}

/// The lines of a text, as `str::lines` gives them: the text is cut after
/// each line feed; a line loses its line feed and, with it, one carriage
/// return before it; a text that ends in a line feed has no empty last line.
pub open spec fn lines_of(t: Seq<char>) -> Seq<Seq<char>>
    decreases t.len(),
{
    if t.len() == 0 {
        Seq::empty()
    } else {
        let i = index_of(t, '\n');
        if 0 <= i < t.len() {
            seq![strip_cr(t.subrange(0, i))] + lines_of(t.subrange(i + 1, t.len() as int))
        } else {
            seq![t]
        }
    }
}

/// The character sequences that a vector of texts holds.
pub open spec fn texts_view(v: Seq<Vec<char>>) -> Seq<Seq<char>> {
    Seq::new(v.len(), |i: int| v[i]@)
}

/// The lines of `t`.
pub fn split_lines(t: &Vec<char>) -> (r: Vec<Vec<char>>)
    ensures
        texts_view(r@) == lines_of(t@),
{
    let mut out: Vec<Vec<char>> = Vec::new();
    let mut start: usize = 0;
    assert(t@.subrange(0, t.len() as int) =~= t@);
    assert(texts_view(out@) =~= Seq::empty());
    while start < t.len()
        invariant
            start <= t.len(),
            lines_of(t@) == texts_view(out@) + lines_of(t@.subrange(start as int, t.len() as int)),
        decreases t.len() - start,
    {
        let ghost rest = t@.subrange(start as int, t.len() as int);
        let end = find_char(t, start, '\n');
        let ghost before = texts_view(out@);
        if end < t.len() {
            let mut stop = end;
            if stop > start && t[stop - 1] == '\r' {
                stop = stop - 1;
            }
            let line = slice(t, start, stop);
            assert(rest.subrange(0, end - start) =~= t@.subrange(start as int, end as int));
            assert(line@ == strip_cr(rest.subrange(0, end - start)));
            assert(rest.subrange(end - start + 1, rest.len() as int) =~= t@.subrange(
                end + 1,
                t.len() as int,
            ));
            out.push(line);
            assert(texts_view(out@) =~= before + seq![line@]);
            start = end + 1;
        } else {
            let line = slice(t, start, end);
            out.push(line);
            assert(texts_view(out@) =~= before + seq![rest]);
            start = end;
            assert(t@.subrange(start as int, t.len() as int).len() == 0);
        }
    }
    out
}

/// The texts of `lines` in a row, with `sep` between each two.
pub open spec fn joined(lines: Seq<Seq<char>>, sep: Seq<char>) -> Seq<char>
    decreases lines.len(),
{
    if lines.len() == 0 {
        Seq::empty()
    } else if lines.len() == 1 {
        lines[0]
    } else {
        joined(lines.drop_last(), sep) + sep + lines.last()
    }
}

/// The texts of `lines` in a row, with `sep` between each two.
pub fn join(lines: &Vec<Vec<char>>, sep: &Vec<char>) -> (r: Vec<char>)
    ensures
        r@ == joined(texts_view(lines@), sep@),
{
    let mut out: Vec<char> = Vec::new();
    let mut i: usize = 0;
    while i < lines.len()
        invariant
            i <= lines.len(),
            out@ == joined(texts_view(lines@).take(i as int), sep@),
        decreases lines.len() - i,
    {
        let ghost done = texts_view(lines@).take(i as int);
        let ghost next = texts_view(lines@).take(i + 1);
        assert(next.drop_last() =~= done);
        assert(next.last() == lines[i as int]@);
        if i > 0 {
            push_all(&mut out, sep);
        }
        push_all(&mut out, &lines[i]);
        assert(Seq::<char>::empty() + lines[i as int]@ =~= lines[i as int]@);
        i += 1;
    }
    assert(texts_view(lines@).take(lines.len() as int) =~= texts_view(lines@));
    out
}


/// Appends the characters of `s` to `dst`.
pub fn push_str(dst: &mut Vec<char>, s: &str)
    ensures
        final(dst)@ == old(dst)@ + s@,
{
    let chars = to_chars(s);
    push_all(dst, &chars);
}


/// `t` with every `from` replaced by `to`.
pub open spec fn replaced(t: Seq<char>, from: char, to: char) -> Seq<char> {
    Seq::new(t.len(), |i: int| if t[i] == from { to } else { t[i] })
}

/// `t` with every `from` replaced by `to`.
pub fn replace_char(t: &Vec<char>, from: char, to: char) -> (r: Vec<char>)
    ensures
        r@ == replaced(t@, from, to),
{
    let mut out: Vec<char> = Vec::new();
    let mut i: usize = 0;
    while i < t.len()
        invariant
            i <= t.len(),
            out.len() == i,
            forall|j: int| 0 <= j < i ==> out[j] == (if t[j] == from { to } else { t[j] }),
        decreases t.len() - i,
    {
        out.push(if t[i] == from { to } else { t[i] });
        i += 1;
    }
    assert(out@ =~= replaced(t@, from, to));
    out
}

/// The lower-case form of `t`.
pub fn lower(t: &Vec<char>) -> (r: Vec<char>)
    ensures
        r@ == lower_of(t@),
{
    to_chars(to_string(t).as_str().to_lowercase().as_str())
}

/// The number of characters at the start of `t` that are no white space.
pub open spec fn word_len(t: Seq<char>) -> int
    decreases t.len(),
{
    if t.len() > 0 && !is_space(t[0]) {
        1 + word_len(t.drop_first())
    } else {
        0
    }
}

/// The words of `t`, as `str::split_whitespace` gives them: the runs of
/// characters that are no white space, in their order.
pub open spec fn words_of(t: Seq<char>) -> Seq<Seq<char>>
    decreases t.len(),
{
    let s = trim_start_of(t);
    let n = word_len(s);
    if 0 < n <= s.len() && s.len() <= t.len() {
        seq![s.subrange(0, n)] + words_of(s.subrange(n, s.len() as int))
    } else {
        Seq::empty()
    }
}

/// The number of characters of `t` from `from` on that are no white space.
pub fn word_end(t: &Vec<char>, from: usize) -> (r: usize)
    requires
        from <= t.len(),
    ensures
        from <= r <= t.len(),
        r - from == word_len(t@.subrange(from as int, t.len() as int)),
{
    let mut i: usize = from;
    while i < t.len() && !t[i].is_whitespace()
        invariant
            from <= i <= t.len(),
            word_len(t@.subrange(from as int, t.len() as int)) == (i - from) + word_len(
                t@.subrange(i as int, t.len() as int),
            ),
        decreases t.len() - i,
    {
        assert(t@.subrange(i as int, t.len() as int).drop_first() =~= t@.subrange(
            i + 1,
            t.len() as int,
        ));
        i += 1;
    }
    i
}

/// The words of `t`.
pub fn split_words(t: &Vec<char>) -> (r: Vec<Vec<char>>)
    ensures
        texts_view(r@) == words_of(t@),
{
    let mut out: Vec<Vec<char>> = Vec::new();
    let mut at: usize = 0;
    assert(t@.subrange(0, t.len() as int) =~= t@);
    assert(texts_view(out@) =~= Seq::empty());
    loop
        invariant
            at <= t.len(),
            words_of(t@) == texts_view(out@) + words_of(t@.subrange(at as int, t.len() as int)),
        ensures
            texts_view(out@) == words_of(t@),
        decreases t.len() - at,
    {
        let ghost rest = t@.subrange(at as int, t.len() as int);
        let ghost found = texts_view(out@);
        let rest_vec = slice(t, at, t.len());
        let skip = leading_space(&rest_vec);
        let start = at + skip;
        let end = word_end(t, start);
        assert(rest.subrange(skip as int, rest.len() as int) =~= t@.subrange(
            start as int,
            t.len() as int,
        ));
        if end == start {
            assert(texts_view(out@) + Seq::<Seq<char>>::empty() =~= texts_view(out@));
            break ;
        }
        let word = slice(t, start, end);
        let ghost s = trim_start_of(rest);
        assert(s.subrange(0, end - start) =~= word@);
        assert(s.subrange(end - start, s.len() as int) =~= t@.subrange(end as int, t.len() as int));
        out.push(word);
        assert(texts_view(out@) =~= found + seq![word@]);
        at = end;
    }
    out
}


/// The greatest index up to `upto` at which `p` stands in `t`.
pub open spec fn find_last(t: Seq<char>, upto: int, p: Seq<char>) -> Option<int>
    decreases upto + 1,
{
    if upto < 0 {
        None
    } else if has_at(t, upto, p) {
        Some(upto)
    } else {
        find_last(t, upto - 1, p)
    }
}

/// The greatest index at which `p` stands in `t`.
pub fn rfind(t: &Vec<char>, p: &Vec<char>) -> (r: Option<usize>)
    ensures
        match r {
            Some(i) => find_last(t@, t.len() as int, p@) == Some(i as int) && has_at(
                t@,
                i as int,
                p@,
            ),
            None => find_last(t@, t.len() as int, p@) is None,
        },
{
    let mut i: usize = t.len();
    loop
        invariant
            i <= t.len(),
            find_last(t@, t.len() as int, p@) == find_last(t@, i as int, p@),
        decreases i,
    {
        if starts_at(t, i, p) {
            return Some(i);
        }
        if i == 0 {
            assert(find_last(t@, -1, p@) is None);
            return None;
        }
        i -= 1;
    }
}

/// Whether `c` stands somewhere in `t`.
pub open spec fn has_char(t: Seq<char>, c: char) -> bool {
    index_of(t, c) < t.len()
}

/// Whether `c` stands somewhere in `t`.
pub fn contains_char(t: &Vec<char>, c: char) -> (r: bool)
    ensures
        r == has_char(t@, c),
{
    assert(t@.subrange(0, t.len() as int) =~= t@);
    find_char(t, 0, c) < t.len()
}

/// `t` without the characters `c` at its end.
pub open spec fn without_trailing(t: Seq<char>, c: char) -> Seq<char>
    decreases t.len(),
{
    if t.len() > 0 && t.last() == c {
        without_trailing(t.drop_last(), c)
    } else {
        t
    }
}

/// `t` without the characters `c` at its end.
pub fn strip_trailing(t: &Vec<char>, c: char) -> (r: Vec<char>)
    ensures
        r@ == without_trailing(t@, c),
{
    let mut end: usize = t.len();
    assert(t@.subrange(0, end as int) =~= t@);
    while end > 0 && t[end - 1] == c
        invariant
            end <= t.len(),
            without_trailing(t@, c) == without_trailing(t@.subrange(0, end as int), c),
        decreases end,
    {
        assert(t@.subrange(0, end as int).drop_last() =~= t@.subrange(0, end - 1));
        end -= 1;
    }
    slice(t, 0, end)
}

} // verus!
