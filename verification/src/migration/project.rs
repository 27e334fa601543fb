//! The migrations that only project notes get: the log lines of the first
//! section move into a `## Log` section, and the parent reference is
//! rewritten as a wiki link.

use vstd::prelude::*;
use vstd::string::*;

use crate::datetime::{format_utc, naive_value, parse_naive, utc_text};
use crate::fields::{
    entries, fields_get, fields_get_index, fields_insert, fields_len, fields_remove, lookup, put,
    without, Entries,
};
use crate::types::{NoteView, ValueView, YamlValue, ZettelData};
use crate::pattern::{
    boundary_at, char_at, digits_at, has_digits, in_class, is_blank, is_boundary,
};
use crate::text::{
    find, find_at, find_char, has_at, index_of, int_text, int_to_string, join, join2, joined,
    lemma_find_at, lemma_index_of, lines_of, push_all, push_str, same, same_str, slice,
    split_lines, starts_at, texts_view, to_chars, to_string, trim, trim_of,
};

verus! {

/// Whether a date of the shape `dddd-dd-dd`, with a word boundary on either
/// side, stands in `t` at index `i`.
pub open spec fn date_shaped_at(t: Seq<char>, i: int) -> bool {
    boundary_at(t, i) && digits_at(t, i, 4) && char_at(t, i + 4, '-') && digits_at(t, i + 5, 2)
        && char_at(t, i + 7, '-') && digits_at(t, i + 8, 2) && boundary_at(t, i + 10)
}

/// The least index from `from` on at which a date stands in `t`.
pub open spec fn find_date(t: Seq<char>, from: int) -> Option<int>
    decreases t.len() - from + 1,
{
    if from < 0 || from + 10 > t.len() {
        None
    } else if date_shaped_at(t, from) {
        Some(from)
    } else {
        find_date(t, from + 1)
    }
}

/// The start of the day that a text of the shape `dddd-dd-dd` names, where
/// it names a day of the calendar.
pub open spec fn day_start(date: Seq<char>) -> Option<i64> {
    naive_value(date + " 00:00:00"@, "%Y-%m-%d %H:%M:%S"@)
}

/// What a target date says: the day that its first date names, with the
/// trimmed text before that date as the modifier; or no day, with the whole
/// trimmed text as the modifier, where it holds no date or its first date is
/// no day of the calendar.
pub open spec fn dated(input: Seq<char>) -> (Option<i64>, Seq<char>) {
    let t = trim_of(input);
    match find_date(t, 0) {
        Some(i) => match day_start(t.subrange(i, i + 10)) {
            Some(day) => (Some(day), trim_of(t.subrange(0, i))),
            None => (None, t),
        },
        None => (None, t),
    }
}

/// A target date read: the start of the day it names, if it names one, and
/// its modifier.
#[derive(Debug)]
pub struct DateParseResult {
    pub date: Option<i64>,
    pub before: String,
}

fn date_stands_at(t: &Vec<char>, i: usize) -> (r: bool)
    requires
        i + 10 <= t.len(),
    ensures
        r == date_shaped_at(t@, i as int),
{
    t[i + 4] == '-' && t[i + 7] == '-' && is_boundary(t, i) && is_boundary(t, i + 10)
        && has_digits(t, i, 4) && has_digits(t, i + 5, 2) && has_digits(t, i + 8, 2)
}

fn first_date(t: &Vec<char>) -> (r: Option<usize>)
    ensures
        match r {
            Some(i) => find_date(t@, 0) == Some(i as int) && i + 10 <= t.len(),
            None => find_date(t@, 0) is None,
        },
{
    let mut i: usize = 0;
    while t.len() >= 10 && i <= t.len() - 10
        invariant
            find_date(t@, 0) == find_date(t@, i as int),
        decreases t.len() + 1 - i,
    {
        if date_stands_at(t, i) {
            return Some(i);
        }
        i += 1;
    }
    None
}

/// Reads a target date: its first date, and what stands before it.
pub fn parse_date_string(input: &str) -> (r: DateParseResult)
    ensures
        (r.date, r.before@) == dated(input@),
{
    let t = trim(&to_chars(input));
    if let Some(i) = first_date(&t) {
        let mut day = slice(&t, i, i + 10);
        push_all(&mut day, &to_chars(" 00:00:00"));
        if let Some(start) = parse_naive(to_string(&day).as_str(), "%Y-%m-%d %H:%M:%S") {
            let before = trim(&slice(&t, 0, i));
            return DateParseResult { date: Some(start), before: to_string(&before) };
        }
    }
    DateParseResult { date: None, before: to_string(&t) }
}

/// The list that a next action goes to: the modifier of its target date
/// where that is `now`, `next`, `someday` or `later`, else `now`.
pub open spec fn gtd_bucket(target: Seq<char>) -> Seq<char> {
    let before = dated(target).1;
    if before == "now"@ || before == "next"@ || before == "someday"@ || before == "later"@ {
        before
    } else {
        "now"@
    }
}

/// The list that a next action with the target date `target_date` goes to.
pub fn determine_gtd_list(target_date: &str) -> (r: String)
    ensures
        r@ == gtd_bucket(target_date@),
{
    let result = parse_date_string(target_date);
    let before = result.before.as_str();
    if same_str(before, "now") || same_str(before, "next")
        || same_str(before, "someday") || same_str(before, "later") {
        result.before
    } else {
        String::from_str("now")
    }
}

/// The dates of a task: the day written as `%Y-%m-%d` behind the sign that
/// the modifier asks for. No day, or a modifier without a sign, gives the
/// empty text.
pub open spec fn dates_text(date: Option<i64>, before: Seq<char>) -> Seq<char> {
    match date {
        None => Seq::empty(),
        Some(day) => match utc_text(day, "%Y-%m-%d"@) {
            None => Seq::empty(),
            Some(written) => if before == ""@ || before == "before"@ {
                "\u{1F4C5} "@ + written
            } else if before == "start"@ || before == "after"@ {
                "\u{1F6EB} "@ + written
            } else if before == "on"@ {
                "\u{23F3} "@ + written
            } else {
                Seq::empty()
            },
        },
    }
}

/// The dates of a task whose milestone is `date` with the modifier `before`.
pub fn create_dates_section(date: Option<i64>, before: &str) -> (r: String)
    ensures
        r@ == dates_text(date, before@),
{
    let day = match date {
        Some(d) => d,
        None => {
            return String::new();
        },
    };
    let written = match format_utc(day, "%Y-%m-%d") {
        Some(w) => w,
        None => {
            return String::new();
        },
    };
    if same_str(before, "") || same_str(before, "before") {
        join2("\u{1F4C5} ", written.as_str())
    } else if same_str(before, "start") || same_str(before, "after") {
        join2("\u{1F6EB} ", written.as_str())
    } else if same_str(before, "on") {
        join2("\u{23F3} ", written.as_str())
    } else {
        String::new()
    }
}

/// Whether `t` begins with a time stamp of the shape `dd.dd.dddd dd:dd`
/// followed by ` - `.
pub open spec fn is_log_line(t: Seq<char>) -> bool {
    digits_at(t, 0, 2) && char_at(t, 2, '.') && digits_at(t, 3, 2) && char_at(t, 5, '.')
        && digits_at(t, 6, 4) && char_at(t, 10, ' ') && digits_at(t, 11, 2) && char_at(t, 13, ':')
        && digits_at(t, 14, 2) && has_at(t, 16, " - "@)
}

/// The index at which the run of characters of the class `\s` that ends
/// before index `a` begins.
pub open spec fn blank_run_start(t: Seq<char>, a: int) -> int
    decreases a,
{
    if 0 < a <= t.len() && is_blank(t[a - 1]) {
        blank_run_start(t, a - 1)
    } else {
        a
    }
}

/// The index at which the run of characters of the class `\s` that begins
/// at index `i` ends.
pub open spec fn blank_run_end(t: Seq<char>, i: int) -> int
    decreases t.len() - i,
{
    if 0 <= i < t.len() && is_blank(t[i]) {
        blank_run_end(t, i + 1)
    } else {
        i
    }
}

/// The two phrases of what follows the time stamp of a log line: the text
/// before the first `=>` and the text behind it, each trimmed; the second
/// is empty where there is no `=>`.
pub open spec fn log_phrases(rest: Seq<char>) -> (Seq<char>, Seq<char>) {
    match find_at(rest, 0, "=>"@) {
        Some(a) => (
            trim_of(rest.subrange(0, blank_run_start(rest, a))),
            trim_of(rest.subrange(blank_run_end(rest, a + 2), rest.len() as int)),
        ),
        None => (trim_of(rest), Seq::empty()),
    }
}

/// An entry of the log: its date and time as `%Y-%m-%d %H:%M` writes them,
/// what was, and what came of it.
#[derive(Debug)]
pub struct LogEntry {
    pub date: String,
    pub before: String,
    pub after: String,
}

/// What an entry of the log holds.
pub struct LogLine {
    pub date: Seq<char>,
    pub before: Seq<char>,
    pub after: Seq<char>,
}

impl View for LogEntry {
    type V = LogLine;

    open spec fn view(&self) -> LogLine {
        LogLine { date: self.date@, before: self.before@, after: self.after@ }
    }
}

/// How the time stamp `stamp`, of the shape `dd.dd.dddd dd:dd`, is written
/// in the log, where it names a date and time of the calendar.
pub open spec fn log_date(stamp: Seq<char>) -> Option<Seq<char>> {
    match naive_value(stamp, "%d.%m.%Y %H:%M"@) {
        Some(at) => utc_text(at, "%Y-%m-%d %H:%M"@),
        None => None,
    }
}

/// The entry that a log line gives, where its time stamp names a date and
/// time of the calendar.
pub open spec fn log_entry(t: Seq<char>) -> Option<LogLine> {
    match log_date(t.subrange(0, 16)) {
        Some(date) => Some(
            LogLine {
                date,
                before: log_phrases(t.subrange(19, t.len() as int)).0,
                after: log_phrases(t.subrange(19, t.len() as int)).1,
            },
        ),
        None => None,
    }
}

/// The entries that the lines of a body give, in their order. A line is
/// trimmed before it is read.
pub open spec fn log_entries(lines: Seq<Seq<char>>) -> Seq<LogLine>
    decreases lines.len(),
{
    if lines.len() == 0 {
        Seq::empty()
    } else {
        let t = trim_of(lines.last());
        if is_log_line(t) && log_entry(t) is Some {
            log_entries(lines.drop_last()).push(log_entry(t)->0)
        } else {
            log_entries(lines.drop_last())
        }
    }
}

/// The lines of a body that stay in it, trimmed and in their order: those
/// that are no log lines and are not empty once trimmed.
pub open spec fn kept_lines(lines: Seq<Seq<char>>) -> Seq<Seq<char>>
    decreases lines.len(),
{
    if lines.len() == 0 {
        Seq::empty()
    } else {
        let t = trim_of(lines.last());
        if !is_log_line(t) && t.len() > 0 {
            kept_lines(lines.drop_last()).push(t)
        } else {
            kept_lines(lines.drop_last())
        }
    }
}

fn log_line_shaped(t: &Vec<char>) -> (r: bool)
    ensures
        r == is_log_line(t@),
        r ==> t.len() >= 19,
{
    let mark = to_chars(" - ");
    proof {
        reveal_strlit(" - ");
    }
    t.len() >= 19 && t[2] == '.' && t[5] == '.' && t[10] == ' ' && t[13] == ':' && starts_at(
        t,
        16,
        &mark,
    ) && has_digits(t, 0, 2) && has_digits(t, 3, 2) && has_digits(t, 6, 4) && has_digits(t, 11, 2)
        && has_digits(t, 14, 2)
}

fn run_start(t: &Vec<char>, a: usize) -> (r: usize)
    requires
        a <= t.len(),
    ensures
        r <= a,
        r == blank_run_start(t@, a as int),
{
    let mut i: usize = a;
    while i > 0 && in_class("\\s", t[i - 1])
        invariant
            i <= a <= t.len(),
            blank_run_start(t@, a as int) == blank_run_start(t@, i as int),
        decreases i,
    {
        i -= 1;
    }
    i
}

fn run_end(t: &Vec<char>, from: usize) -> (r: usize)
    requires
        from <= t.len(),
    ensures
        from <= r <= t.len(),
        r == blank_run_end(t@, from as int),
{
    let mut i: usize = from;
    while i < t.len() && in_class("\\s", t[i])
        invariant
            from <= i <= t.len(),
            blank_run_end(t@, from as int) == blank_run_end(t@, i as int),
        decreases t.len() - i,
    {
        i += 1;
    }
    i
}

fn split_phrases(rest: &Vec<char>) -> (r: (Vec<char>, Vec<char>))
    ensures
        (r.0@, r.1@) == log_phrases(rest@),
{
    let arrow = to_chars("=>");
    proof {
        reveal_strlit("=>");
        lemma_find_at(rest@, 0, "=>"@);
    }
    match find(rest, 0, &arrow) {
        Some(a) => {
            let end = rest.len();
            assert(has_at(rest@, a as int, "=>"@));
            let stop = run_start(rest, a);
            let go = run_end(rest, a + 2);
            (trim(&slice(rest, 0, stop)), trim(&slice(rest, go, end)))
        },
        None => (trim(rest), Vec::new()),
    }
}

fn read_log_entry(t: &Vec<char>) -> (r: Option<LogEntry>)
    requires
        t.len() >= 19,
    ensures
        match r {
            Some(e) => log_entry(t@) == Some(e@),
            None => log_entry(t@) is None,
        },
{
    let stamp = to_string(&slice(t, 0, 16));
    let at = match parse_naive(stamp.as_str(), "%d.%m.%Y %H:%M") {
        Some(at) => at,
        None => {
            return None;
        },
    };
    let date = match format_utc(at, "%Y-%m-%d %H:%M") {
        Some(d) => d,
        None => {
            return None;
        },
    };
    let phrases = split_phrases(&slice(t, 19, t.len()));
    Some(LogEntry { date, before: to_string(&phrases.0), after: to_string(&phrases.1) })
}

/// What a sequence of log entries holds.
pub open spec fn entries_view(entries: Seq<LogEntry>) -> Seq<LogLine> {
    Seq::new(entries.len(), |i: int| entries[i]@)
}

/// Reads the lines of `content`: the log entries, and the other lines that
/// are not blank, trimmed.
pub fn extract_log_entries(content: &str) -> (r: (Vec<LogEntry>, Vec<Vec<char>>))
    ensures
        entries_view(r.0@) == log_entries(lines_of(content@)),
        texts_view(r.1@) == kept_lines(lines_of(content@)),
{
    let lines = split_lines(&to_chars(content));
    let ghost all = lines_of(content@);
    let mut entries: Vec<LogEntry> = Vec::new();
    let mut kept: Vec<Vec<char>> = Vec::new();
    let mut i: usize = 0;
    assert(entries_view(entries@) =~= log_entries(all.take(0)));
    assert(texts_view(kept@) =~= kept_lines(all.take(0)));
    while i < lines.len()
        invariant
            i <= lines.len(),
            all == texts_view(lines@),
            entries_view(entries@) == log_entries(all.take(i as int)),
            texts_view(kept@) == kept_lines(all.take(i as int)),
        decreases lines.len() - i,
    {
        let ghost next = all.take(i + 1);
        let ghost found = entries_view(entries@);
        let ghost stay = texts_view(kept@);
        assert(next.drop_last() =~= all.take(i as int));
        assert(next.last() == lines[i as int]@);
        let t = trim(&lines[i]);
        if log_line_shaped(&t) {
            if let Some(e) = read_log_entry(&t) {
                entries.push(e);
                assert(entries_view(entries@) =~= found.push(e@));
            }
        } else if t.len() > 0 {
            kept.push(t);
            assert(texts_view(kept@) =~= stay.push(t@));
        }
        i += 1;
    }
    assert(all.take(lines.len() as int) =~= all);
    (entries, kept)
}

/// What the first task of a log is marked with: its list, the sign of its
/// priority, and its dates.
#[derive(Debug)]
pub struct NextAction {
    pub gtd_list: String,
    pub priority: String,
    pub dates: String,
}

/// What a `NextAction` holds.
pub struct NextActionView {
    pub gtd_list: Seq<char>,
    pub priority: Seq<char>,
    pub dates: Seq<char>,
}

impl View for NextAction {
    type V = NextActionView;

    open spec fn view(&self) -> NextActionView {
        NextActionView { gtd_list: self.gtd_list@, priority: self.priority@, dates: self.dates@ }
    }
}

/// Whether a key holds a hyphen.
pub open spec fn dashed(k: Seq<char>) -> bool {
    index_of(k, '-') < k.len()
}

/// The least index of an entry whose key holds a hyphen, or `e.len()`.
pub open spec fn first_dashed(e: Entries) -> int
    decreases e.len(),
{
    if e.len() == 0 {
        0
    } else if dashed(e[0].0) {
        0
    } else {
        1 + first_dashed(e.drop_first())
    }
}

/// An index whose key holds a hyphen, or the end, with no such key before
/// it, is what `first_dashed` gives.
pub proof fn lemma_first_dashed(e: Entries, i: int)
    requires
        0 <= i <= e.len(),
        forall|j: int| 0 <= j < i ==> !dashed(#[trigger] e[j].0),
        i < e.len() ==> dashed(e[i].0),
    ensures
        first_dashed(e) == i,
    decreases e.len(),
{
    if e.len() > 0 && i > 0 {
        assert(!dashed(e[0].0));
        assert forall|j: int| 0 <= j < i - 1 implies !dashed(#[trigger] e.drop_first()[j].0) by {
            assert(e.drop_first()[j] == e[j + 1]);
        }
        lemma_first_dashed(e.drop_first(), i - 1);
    }
}

/// `first_dashed` is within the entries or their end, and where it is an
/// index, the key there holds a hyphen.
pub proof fn lemma_first_dashed_is(e: Entries)
    ensures
        0 <= first_dashed(e) <= e.len(),
        first_dashed(e) < e.len() ==> dashed(e[first_dashed(e)].0),
    decreases e.len(),
{
    if e.len() > 0 && !dashed(e[0].0) {
        lemma_first_dashed_is(e.drop_first());
        let i = first_dashed(e.drop_first());
        if i < e.drop_first().len() {
            assert(e.drop_first()[i] == e[i + 1]);
        }
    }
}

/// The sign of an importance.
pub open spec fn priority_sign(importance: Seq<char>) -> Option<Seq<char>> {
    if importance == "could"@ {
        Some("\u{23EC}"@)
    } else if importance == "would"@ {
        Some("\u{1F53D}"@)
    } else if importance == "should"@ {
        Some("\u{1F53C}"@)
    } else if importance == "must"@ {
        Some("\u{23EB}"@)
    } else {
        None
    }
}

/// A value as text: a string is itself, a number is written out, anything
/// else is the empty text.
pub open spec fn value_text(v: ValueView) -> Seq<char> {
    match v {
        ValueView::Str(s) => s,
        ValueView::Int(i) => int_text(i),
        _ => Seq::empty(),
    }
}

/// The modifier of a milestone: the action `start` makes it `start`, the
/// actions `end` and `complete` make it `before`, any other leaves the one
/// read from the target date.
pub open spec fn milestone_modifier(action: Seq<char>, before: Seq<char>) -> Seq<char> {
    if action == "start"@ {
        "start"@
    } else if action == "end"@ || action == "complete"@ {
        "before"@
    } else {
        before
    }
}

/// The marks of the next action that the metadata name, and the metadata
/// that are left. The first key with a hyphen is read as importance, hyphen,
/// action, and its value as the target date. Without such a key the marks
/// are the inbox and the sign of `should`. With an importance that has no
/// sign the marks are empty. Otherwise the key is taken out.
pub open spec fn next_action(e: Entries) -> (NextActionView, Entries) {
    let i = first_dashed(e);
    if !(0 <= i < e.len()) {
        (
            NextActionView {
                gtd_list: "#gtd/inbox"@,
                priority: "\u{1F53C}"@,
                dates: Seq::empty(),
            },
            e,
        )
    } else {
        let key = e[i].0;
        let target = value_text(e[i].1);
        let dash = index_of(key, '-');
        let action = key.subrange(dash + 1, key.len() as int);
        match priority_sign(key.subrange(0, dash)) {
            None => (
                NextActionView {
                    gtd_list: Seq::empty(),
                    priority: Seq::empty(),
                    dates: Seq::empty(),
                },
                e,
            ),
            Some(priority) => (
                NextActionView {
                    gtd_list: if action == "wait"@ {
                        "#gtd/wait"@
                    } else {
                        "#gtd/act/"@ + gtd_bucket(target)
                    },
                    priority,
                    dates: dates_text(dated(target).0, milestone_modifier(action, dated(target).1)),
                },
                without(e, key),
            ),
        }
    }
}

/// The key `type` holds no hyphen.
pub proof fn lemma_type_not_dashed()
    ensures
        !dashed("type"@),
{
    reveal_strlit("type");
    crate::text::lemma_index_of_at("type"@, '-', 4);
}

/// Reading the next action leaves a key without a hyphen as it was, and
/// brings no key in.
pub proof fn lemma_next_action_keeps(e: Entries, k: Seq<char>)
    ensures
        !dashed(k) ==> lookup(next_action(e).1, k) == lookup(e, k),
        crate::fields::has_key(next_action(e).1, k) ==> crate::fields::has_key(e, k),
{
    lemma_first_dashed_is(e);
    let i = first_dashed(e);
    if 0 <= i < e.len() {
        crate::fields::lemma_without(e, e[i].0, k);
    }
}

fn text_of_value(v: &YamlValue) -> (r: String)
    ensures
        r@ == value_text(v@),
{
    match v {
        YamlValue::String(s) => s.clone(),
        YamlValue::Int(i) => int_to_string(*i),
        _ => String::new(),
    }
}

fn sign_of(importance: &Vec<char>) -> (r: Option<String>)
    ensures
        match r {
            Some(s) => priority_sign(importance@) == Some(s@),
            None => priority_sign(importance@) is None,
        },
{
    if same(importance, &to_chars("could")) {
        Some(String::from_str("\u{23EC}"))
    } else if same(importance, &to_chars("would")) {
        Some(String::from_str("\u{1F53D}"))
    } else if same(importance, &to_chars("should")) {
        Some(String::from_str("\u{1F53C}"))
    } else if same(importance, &to_chars("must")) {
        Some(String::from_str("\u{23EB}"))
    } else {
        None
    }
}

fn first_dashed_entry(data: &ZettelData) -> (r: Option<(String, String)>)
    ensures
        match r {
            Some((key, target)) => 0 <= first_dashed(data@.metadata) < data@.metadata.len()
                && dashed(key@) && key@ == data@.metadata[first_dashed(data@.metadata)].0
                && target@ == value_text(
                data@.metadata[first_dashed(data@.metadata)].1,
            ),
            None => first_dashed(data@.metadata) == data@.metadata.len(),
        },
{
    let n = fields_len(&data.metadata);
    let mut i: usize = 0;
    while i < n
        invariant
            i <= n,
            n == data@.metadata.len(),
            forall|j: int| 0 <= j < i ==> !dashed(#[trigger] data@.metadata[j].0),
        decreases n - i,
    {
        if let Some((key, value)) = fields_get_index(&data.metadata, i) {
            let chars = to_chars(key.as_str());
            assert(chars@.subrange(0, chars.len() as int) =~= chars@);
            if find_char(&chars, 0, '-') < chars.len() {
                proof {
                    lemma_first_dashed(data@.metadata, i as int);
                }
                return Some((key.clone(), text_of_value(value)));
            }
        }
        i += 1;
    }
    proof {
        lemma_first_dashed(data@.metadata, n as int);
    }
    None
}

/// Reads the marks of the next action from the metadata, and takes the key
/// that named them out.
pub fn get_next_action_properties(data: &mut ZettelData) -> (r: NextAction)
    ensures
        r@ == next_action(old(data)@.metadata).0,
        final(data)@ == (NoteView { metadata: next_action(old(data)@.metadata).1, ..old(data)@ }),
{
    let (key, target) = match first_dashed_entry(data) {
        Some(found) => found,
        None => {
            return NextAction {
                gtd_list: String::from_str("#gtd/inbox"),
                priority: String::from_str("\u{1F53C}"),
                dates: String::new(),
            };
        },
    };
    let chars = to_chars(key.as_str());
    assert(chars@.subrange(0, chars.len() as int) =~= chars@);
    proof {
        lemma_index_of(chars@, '-');
    }
    let dash = find_char(&chars, 0, '-');
    let importance = slice(&chars, 0, dash);
    let action = to_string(&slice(&chars, dash + 1, chars.len()));
    let priority = match sign_of(&importance) {
        Some(p) => p,
        None => {
            return NextAction {
                gtd_list: String::new(),
                priority: String::new(),
                dates: String::new(),
            };
        },
    };
    let gtd_list = if same_str(action.as_str(), "wait") {
        String::from_str("#gtd/wait")
    } else {
        join2("#gtd/act/", determine_gtd_list(target.as_str()).as_str())
    };
    let milestone = parse_date_string(target.as_str());
    let dates = if same_str(action.as_str(), "start") {
        create_dates_section(milestone.date, "start")
    } else if same_str(action.as_str(), "end") || same_str(action.as_str(), "complete") {
        create_dates_section(milestone.date, "before")
    } else {
        create_dates_section(milestone.date, milestone.before.as_str())
    };
    let _ = fields_remove(&mut data.metadata, key.as_str());
    NextAction { gtd_list, priority, dates }
}

/// Whether one of the entries has a second phrase.
pub open spec fn has_task(entries: Seq<LogLine>) -> bool {
    exists|j: int| 0 <= j < entries.len() && (#[trigger] entries[j]).after.len() > 0
}

/// The marks behind a task: ` | `, then the list where there is one, the
/// sign of the priority, and the dates where there are any, a space between
/// each two.
pub open spec fn task_marks(gtd_list: Seq<char>, priority: Seq<char>, dates: Seq<char>) -> Seq<
    char,
> {
    if gtd_list.len() > 0 {
        if dates.len() > 0 {
            " | "@ + gtd_list + " "@ + priority + " "@ + dates
        } else {
            " | "@ + gtd_list + " "@ + priority
        }
    } else if dates.len() > 0 {
        " | "@ + priority + " "@ + dates
    } else {
        " | "@ + priority
    }
}

/// The row of an entry. An entry without a second phrase is a note. One with
/// a second phrase is a task: open and with the list of the next action
/// where it is the first task (`done` is false), closed and without a list
/// where a task came before it.
pub open spec fn log_row(e: LogLine, done: bool, marks: NextActionView) -> Seq<char> {
    if e.after.len() == 0 {
        "- [i] "@ + e.date + " - "@ + e.before + "\n"@
    } else {
        "- ["@ + (if done {
            "x"@
        } else {
            " "@
        }) + "] "@ + e.date + " - "@ + e.before + " => "@ + e.after + task_marks(
            if done {
                Seq::empty()
            } else {
                marks.gtd_list
            },
            marks.priority,
            marks.dates,
        ) + "\n"@
    }
}

/// The log: the rows of the entries, in their order.
pub open spec fn rendered_log(entries: Seq<LogLine>, marks: NextActionView) -> Seq<char>
    decreases entries.len(),
{
    if entries.len() == 0 {
        Seq::empty()
    } else {
        rendered_log(entries.drop_last(), marks) + log_row(
            entries.last(),
            has_task(entries.drop_last()),
            marks,
        )
    }
}

fn marks_of(gtd_list: &str, priority: &str, dates: &str) -> (r: Vec<char>)
    ensures
        r@ == task_marks(gtd_list@, priority@, dates@),
{
    let mut out = to_chars(" | ");
    if gtd_list.unicode_len() > 0 {
        push_str(&mut out, gtd_list);
        push_str(&mut out, " ");
    }
    push_str(&mut out, priority);
    if dates.unicode_len() > 0 {
        push_str(&mut out, " ");
        push_str(&mut out, dates);
    }
    out
}

fn row_of(e: &LogEntry, done: bool, marks: &NextAction) -> (r: Vec<char>)
    ensures
        r@ == log_row(e@, done, marks@),
{
    if e.after.as_str().unicode_len() == 0 {
        let mut row = to_chars("- [i] ");
        push_str(&mut row, e.date.as_str());
        push_str(&mut row, " - ");
        push_str(&mut row, e.before.as_str());
        push_str(&mut row, "\n");
        row
    } else {
        let mut row = to_chars("- [");
        push_str(&mut row, if done { "x" } else { " " });
        push_str(&mut row, "] ");
        push_str(&mut row, e.date.as_str());
        push_str(&mut row, " - ");
        push_str(&mut row, e.before.as_str());
        push_str(&mut row, " => ");
        push_str(&mut row, e.after.as_str());
        let tail = marks_of(
            if done { "" } else { marks.gtd_list.as_str() },
            marks.priority.as_str(),
            marks.dates.as_str(),
        );
        proof {
            reveal_strlit("");
            assert(""@ =~= Seq::<char>::empty());
        }
        push_all(&mut row, &tail);
        push_str(&mut row, "\n");
        row
    }
}

/// Renders the log: a row for each entry, in their order.
pub fn format_log_entries(entries: &Vec<LogEntry>, next_action: &NextAction) -> (r: String)
    ensures
        r@ == rendered_log(entries_view(entries@), next_action@),
{
    let ghost all = entries_view(entries@);
    let mut out: Vec<char> = Vec::new();
    let mut done = false;
    let mut i: usize = 0;
    while i < entries.len()
        invariant
            i <= entries.len(),
            all == entries_view(entries@),
            done == has_task(all.take(i as int)),
            out@ == rendered_log(all.take(i as int), next_action@),
        decreases entries.len() - i,
    {
        let ghost next = all.take(i + 1);
        assert(next.drop_last() =~= all.take(i as int));
        assert(next.last() == entries[i as int]@);
        let row = row_of(&entries[i], done, next_action);
        push_all(&mut out, &row);
        if entries[i].after.as_str().unicode_len() > 0 {
            done = true;
            assert(next[i as int].after.len() > 0);
        } else {
            assert(has_task(next) == has_task(all.take(i as int))) by {
                if has_task(next) {
                    let j = choose|j: int| 0 <= j < next.len() && (#[trigger] next[j]).after.len() > 0;
                    assert(all.take(i as int)[j] == next[j]);
                }
                if has_task(all.take(i as int)) {
                    let j = choose|j: int|
                        0 <= j < i && (#[trigger] all.take(i as int)[j]).after.len() > 0;
                    assert(all.take(i as int)[j] == next[j]);
                }
            }
        }
        i += 1;
    }
    assert(all.take(entries.len() as int) =~= all);
    to_string(&out)
}

/// The note with the log lines of its first section moved into a `## Log`
/// section at its end. The first section keeps its other lines, trimmed,
/// without the blank ones. The marks of the next action are read from the
/// metadata, whether or not there is a log. A note without sections is left
/// as it is.
pub open spec fn loop_log_migrated(n: NoteView) -> NoteView {
    if n.sections.len() == 0 {
        n
    } else {
        let lines = lines_of(n.sections[0].1);
        let marks = next_action(n.metadata);
        let log = rendered_log(log_entries(lines), marks.0);
        let sections = n.sections.update(0, (n.sections[0].0, joined(kept_lines(lines), "\n"@)));
        NoteView {
            metadata: marks.1,
            sections: if log.len() > 0 {
                sections.push(("## Log"@, log))
            } else {
                sections
            },
            ..n
        }
    }
}

/// Moves the log lines of the first section into a `## Log` section.
pub fn migrate_loop_log(data: &mut ZettelData)
    ensures
        final(data)@ == loop_log_migrated(old(data)@),
{
    if data.sections.len() == 0 {
        return ;
    }
    let ghost before = old(data)@.sections;
    let header = data.sections[0].0.clone();
    let (log_entries, remaining) = extract_log_entries(data.sections[0].1.as_str());
    let next_action = get_next_action_properties(data);
    let formatted_log = format_log_entries(&log_entries, &next_action);
    let body = to_string(&join(&remaining, &to_chars("\n")));
    data.sections.set(0, (header, body));
    assert(data@.sections =~= before.update(0, (header@, body@)));
    if formatted_log.as_str().unicode_len() > 0 {
        let ghost updated = data@.sections;
        data.sections.push((String::from_str("## Log"), formatted_log));
        assert(data@.sections =~= updated.push(("## Log"@, formatted_log@)));
    }
}

/// Where the wiki link that opens at index `i` of `t` closes: the index of
/// the first `]]` behind its `[[`, where no line feed stands between them.
pub open spec fn link_close(t: Seq<char>, i: int) -> Option<int> {
    if has_at(t, i, "[["@) {
        match find_at(t, i + 2, "]]"@) {
            Some(j) => if i + 2 <= j && index_of(t.subrange(i + 2, j), '\n') == j - (i + 2) {
                Some(j)
            } else {
                None
            },
            None => None,
        }
    } else {
        None
    }
}

/// The target of the first wiki link of `t` from index `from` on: what
/// stands between its `[[` and its `]]`.
pub open spec fn first_link(t: Seq<char>, from: int) -> Option<Seq<char>>
    decreases t.len() - from + 1,
{
    if from < 0 || from + 4 > t.len() {
        None
    } else {
        match link_close(t, from) {
            Some(j) => Some(t.subrange(from + 2, j)),
            None => first_link(t, from + 1),
        }
    }
}

fn close_of_link(t: &Vec<char>, i: usize) -> (r: Option<usize>)
    requires
        i + 4 <= t.len(),
    ensures
        match r {
            Some(j) => link_close(t@, i as int) == Some(j as int) && i + 2 <= j <= t.len(),
            None => link_close(t@, i as int) is None,
        },
{
    proof {
        reveal_strlit("[[");
        reveal_strlit("]]");
        lemma_find_at(t@, i + 2, "]]"@);
    }
    if !starts_at(t, i, &to_chars("[[")) {
        return None;
    }
    match find(t, i + 2, &to_chars("]]")) {
        Some(j) => {
            let inner = slice(t, i + 2, j);
            assert(inner@.subrange(0, inner.len() as int) =~= inner@);
            if find_char(&inner, 0, '\n') == inner.len() {
                Some(j)
            } else {
                None
            }
        },
        None => None,
    }
}

/// The target of the first wiki link of `t`.
pub fn find_wiki_link(t: &Vec<char>) -> (r: Option<Vec<char>>)
    ensures
        match r {
            Some(link) => first_link(t@, 0) == Some(link@),
            None => first_link(t@, 0) is None,
        },
{
    let mut i: usize = 0;
    while t.len() >= 4 && i <= t.len() - 4
        invariant
            first_link(t@, 0) == first_link(t@, i as int),
        decreases t.len() + 1 - i,
    {
        if let Some(j) = close_of_link(t, i) {
            return Some(slice(t, i + 2, j));
        }
        i += 1;
    }
    None
}

/// The parent as a wiki link: a link to the note itself, by its `id`, names
/// the note's place and title; any other link is written plainly.
pub open spec fn parent_link(link: Seq<char>, id: Seq<char>, title: Seq<char>) -> Seq<char> {
    if link == id {
        "[[zettelkasten/"@ + id + "|"@ + title + "]]"@
    } else {
        "[["@ + link + "]]"@
    }
}

/// The text of the `id` of a note, and its title, each empty where the
/// metadata have none that can be written.
pub open spec fn id_and_title(metadata: Entries) -> (Seq<char>, Seq<char>) {
    (
        match lookup(metadata, "id"@) {
            Some(v) => value_text(v),
            None => Seq::empty(),
        },
        match lookup(metadata, "title"@) {
            Some(ValueView::Str(t)) => t,
            _ => Seq::empty(),
        },
    )
}

/// The note with the string under `parent` of its reference replaced by the
/// first wiki link that it holds, rewritten. A parent that is no string, or
/// holds no wiki link, is left as it is.
pub open spec fn parent_migrated(n: NoteView) -> NoteView {
    match lookup(n.reference, "parent"@) {
        Some(ValueView::Str(parent)) => match first_link(parent, 0) {
            Some(link) => NoteView {
                reference: put(
                    n.reference,
                    "parent"@,
                    ValueView::Str(
                        parent_link(link, id_and_title(n.metadata).0, id_and_title(n.metadata).1),
                    ),
                ),
                ..n
            },
            None => n,
        },
        _ => n,
    }
}

/// Rewrites the parent of the reference as a wiki link.
pub fn migrate_parent_reference(data: &mut ZettelData)
    ensures
        final(data)@ == parent_migrated(old(data)@),
{
    let link = match fields_get(&data.reference, "parent") {
        Some(YamlValue::String(parent)) => match find_wiki_link(&to_chars(parent.as_str())) {
            Some(link) => link,
            None => {
                return ;
            },
        },
        _ => {
            return ;
        },
    };
    let id = match fields_get(&data.metadata, "id") {
        Some(v) => to_chars(text_of_value(v).as_str()),
        None => Vec::new(),
    };
    let title = match fields_get(&data.metadata, "title") {
        Some(YamlValue::String(t)) => to_chars(t.as_str()),
        _ => Vec::new(),
    };
    let parent = if same(&link, &id) {
        let mut p = to_chars("[[zettelkasten/");
        push_all(&mut p, &id);
        push_str(&mut p, "|");
        push_all(&mut p, &title);
        push_str(&mut p, "]]");
        p
    } else {
        let mut p = to_chars("[[");
        push_all(&mut p, &link);
        push_str(&mut p, "]]");
        p
    };
    fields_insert(
        &mut data.reference,
        String::from_str("parent"),
        YamlValue::String(to_string(&parent)),
    );
}

} // verus!
