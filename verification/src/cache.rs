//! The metadata cache: what is kept of each file, how a stale entry is
//! told, and what a refresh has to do. Reading and writing the cache file is
//! left to the caller; the bytes of the file are framed here.

use vstd::prelude::*;
use vstd::string::*;

use crate::fields::{entries, fields_clone, Entries, Fields};
use crate::scanner::{
    all_hold, conditions_view, file_note, metadata_matches, notes_view, parse_note, process_zettel_at,
    processed, FilterView, MetaFilterValue, NoteFile,
};
use crate::text::{decimal_of, digit_of, join, joined, push_str, texts_view, to_chars, to_string};
use crate::types::{NoteView, ZettelData};

verus! {

/// The version of the cache file's format; the first byte of the file.
pub const CACHE_VERSION: u8 = 1;

/// What the cache keeps of a file: the time at which it was last written,
/// in seconds and nanoseconds, and the metadata and reference of its note.
#[derive(Debug)]
pub struct CacheEntry {
    pub mtime_secs: i64,
    pub mtime_nanos: u32,
    pub metadata: Fields,
    pub reference: Fields,
}

/// What a `CacheEntry` holds.
pub struct EntryView {
    pub mtime_secs: i64,
    pub mtime_nanos: u32,
    pub metadata: Entries,
    pub reference: Entries,
}

impl View for CacheEntry {
    type V = EntryView;

    open spec fn view(&self) -> EntryView {
        EntryView {
            mtime_secs: self.mtime_secs,
            mtime_nanos: self.mtime_nanos,
            metadata: entries(self.metadata),
            reference: entries(self.reference),
        }
    }
}

/// The cache: an entry for each path, in the order in which the paths came.
pub type Cache = Vec<(String, CacheEntry)>;

/// The model of the cache.
pub type CacheView = Seq<(Seq<char>, EntryView)>;

/// What a cache holds.
pub open spec fn cache_view(c: Seq<(String, CacheEntry)>) -> CacheView {
    Seq::new(c.len(), |i: int| (c[i].0@, c[i].1@))
}

/// A file that the walk found: its path, and the time at which it was last
/// written where that could be read.
#[derive(Debug)]
pub struct FileStamp {
    pub path: String,
    pub mtime: Option<(i64, u32)>,
}

/// The bytes of a cache file: the version, then the encoded cache.
pub fn cache_bytes(payload: &Vec<u8>) -> (r: Vec<u8>)
    ensures
        r@ == seq![CACHE_VERSION] + payload@,
{
    let mut out: Vec<u8> = Vec::new();
    out.push(CACHE_VERSION);
    let mut i: usize = 0;
    while i < payload.len()
        invariant
            i <= payload.len(),
            out@ == seq![CACHE_VERSION] + payload@.take(i as int),
        decreases payload.len() - i,
    {
        out.push(payload[i]);
        i += 1;
    }
    assert(payload@.take(payload.len() as int) =~= payload@);
    out
}

/// The encoded cache in the bytes of a cache file: what follows the first
/// byte, where that byte is the version. An empty file, or one of another
/// version, holds none.
pub fn cache_payload(bytes: &Vec<u8>) -> (r: Option<Vec<u8>>)
    ensures
        match r {
            Some(p) => bytes.len() > 0 && bytes[0] == CACHE_VERSION && p@ == bytes@.subrange(
                1,
                bytes.len() as int,
            ),
            None => bytes.len() == 0 || bytes[0] != CACHE_VERSION,
        },
{
    if bytes.len() == 0 || bytes[0] != CACHE_VERSION {
        return None;
    }
    let mut out: Vec<u8> = Vec::new();
    let mut i: usize = 1;
    while i < bytes.len()
        invariant
            1 <= i <= bytes.len(),
            out@ == bytes@.subrange(1, i as int),
        decreases bytes.len() - i,
    {
        out.push(bytes[i]);
        i += 1;
    }
    Some(out)
}

/// The least index at which `path` stands in the cache, or its length.
pub open spec fn cache_index(c: CacheView, path: Seq<char>) -> int
    decreases c.len(),
{
    if c.len() == 0 {
        0
    } else if c[0].0 == path {
        0
    } else {
        1 + cache_index(c.drop_first(), path)
    }
}

/// An index at which the path stands, or the end, with no index before it
/// at which it stands, is what `cache_index` gives.
pub proof fn lemma_cache_index(c: CacheView, path: Seq<char>, i: int)
    requires
        0 <= i <= c.len(),
        forall|j: int| 0 <= j < i ==> (#[trigger] c[j]).0 != path,
        i < c.len() ==> c[i].0 == path,
    ensures
        cache_index(c, path) == i,
    decreases c.len(),
{
    if c.len() > 0 && i > 0 {
        assert(c[0].0 != path);
        assert forall|j: int| 0 <= j < i - 1 implies (#[trigger] c.drop_first()[j]).0 != path by {
            assert(c.drop_first()[j] == c[j + 1]);
        }
        lemma_cache_index(c.drop_first(), path, i - 1);
    }
}

/// `cache_index` is within the cache or its end, no entry before it is of
/// the path, and where it is an index, the entry there is.
pub proof fn lemma_cache_index_is(c: CacheView, path: Seq<char>)
    ensures
        0 <= cache_index(c, path) <= c.len(),
        forall|j: int| 0 <= j < cache_index(c, path) ==> (#[trigger] c[j]).0 != path,
        cache_index(c, path) < c.len() ==> c[cache_index(c, path)].0 == path,
    decreases c.len(),
{
    if c.len() > 0 && c[0].0 != path {
        lemma_cache_index_is(c.drop_first(), path);
        assert forall|j: int| 0 <= j < cache_index(c, path) implies (#[trigger] c[j]).0 != path by {
            if j > 0 {
                assert(c[j] == c.drop_first()[j - 1]);
            }
        }
    }
}

/// Whether no path has two entries in the cache.
pub open spec fn paths_distinct(c: CacheView) -> bool {
    forall|i: int, j: int| 0 <= i < j < c.len() ==> (#[trigger] c[i]).0 != (#[trigger] c[j]).0
}

/// What the cache keeps of a path.
pub open spec fn cached(c: CacheView, path: Seq<char>) -> Option<EntryView> {
    if 0 <= cache_index(c, path) < c.len() {
        Some(c[cache_index(c, path)].1)
    } else {
        None
    }
}

/// The index of the entry of `path`.
pub fn cache_find(cache: &Cache, path: &String) -> (r: Option<usize>)
    ensures
        match r {
            Some(i) => i < cache.len() && cache_index(cache_view(cache@), path@) == i,
            None => cache_index(cache_view(cache@), path@) == cache.len(),
        },
{
    let ghost c = cache_view(cache@);
    let mut i: usize = 0;
    while i < cache.len()
        invariant
            i <= cache.len(),
            c == cache_view(cache@),
            forall|j: int| 0 <= j < i ==> (#[trigger] c[j]).0 != path@,
        decreases cache.len() - i,
    {
        if cache[i].0 == *path {
            proof {
                lemma_cache_index(c, path@, i as int);
            }
            return Some(i);
        }
        i += 1;
    }
    proof {
        lemma_cache_index(c, path@, i as int);
    }
    None
}

/// The cache with `entry` under `path`: in place where the path has an
/// entry, else as a new last entry.
pub open spec fn cache_put(c: CacheView, path: Seq<char>, entry: EntryView) -> CacheView {
    if 0 <= cache_index(c, path) < c.len() {
        c.update(cache_index(c, path), (path, entry))
    } else {
        c.push((path, entry))
    }
}

/// A cache in which no path has two entries stays one when an entry is put
/// in.
pub proof fn lemma_cache_put_distinct(c: CacheView, path: Seq<char>, entry: EntryView)
    requires
        paths_distinct(c),
    ensures
        paths_distinct(cache_put(c, path, entry)),
{
    lemma_cache_index_is(c, path);
    let r = cache_put(c, path, entry);
    let k = cache_index(c, path);
    assert forall|i: int, j: int| 0 <= i < j < r.len() implies (#[trigger] r[i]).0 != (
    #[trigger] r[j]).0 by {
        if k < c.len() {
            assert(r[i].0 == c[i].0 && r[j].0 == c[j].0);
        } else if j < c.len() {
            assert(r[i] == c[i] && r[j] == c[j]);
        } else {
            assert(r[i] == c[i]);
        }
    }
}

/// Puts `entry` under `path`. A cache in which no path has two entries
/// stays one.
pub fn cache_insert(cache: &mut Cache, path: String, entry: CacheEntry)
    ensures
        cache_view(final(cache)@) == cache_put(cache_view(old(cache)@), path@, entry@),
        paths_distinct(cache_view(old(cache)@)) ==> paths_distinct(cache_view(final(cache)@)),
{
    proof {
        if paths_distinct(cache_view(old(cache)@)) {
            lemma_cache_put_distinct(cache_view(old(cache)@), path@, entry@);
        }
    }
    match cache_find(cache, &path) {
        Some(i) => {
            cache.set(i, (path, entry));
            assert(cache_view(cache@) =~= cache_put(cache_view(old(cache)@), path@, entry@));
        },
        None => {
            cache.push((path, entry));
            assert(cache_view(cache@) =~= cache_put(cache_view(old(cache)@), path@, entry@));
        },
    }
}

/// The paths of the first `n` entries whose metadata meet the conditions,
/// in the order of the cache.
pub open spec fn matching_paths(c: CacheView, n: int, conditions: Seq<(Seq<char>, FilterView)>) -> Seq<
    Seq<char>,
>
    decreases n,
{
    if n <= 0 {
        Seq::empty()
    } else if all_hold(c[n - 1].1.metadata, conditions) {
        matching_paths(c, n - 1, conditions).push(c[n - 1].0)
    } else {
        matching_paths(c, n - 1, conditions)
    }
}

/// What a list of strings holds.
pub open spec fn strings_view(v: Seq<String>) -> Seq<Seq<char>> {
    Seq::new(v.len(), |i: int| v[i]@)
}

/// How a cached load goes on.
#[derive(Debug)]
pub enum CachedLoad {
    /// The cache is empty: every file is to be walked, parsed and cached.
    Cold,
    /// The cache is trusted: only the files at these paths are to be parsed.
    Warm(Vec<String>),
}

/// Decides how a cached load goes on. An empty cache asks for a cold load.
/// Any other is filtered on its metadata, and only the files whose cached
/// metadata meet the conditions are to be parsed.
pub fn load_cached(cache: &Cache, conditions: &Vec<(String, MetaFilterValue)>) -> (r: CachedLoad)
    ensures
        match r {
            CachedLoad::Cold => cache.len() == 0,
            CachedLoad::Warm(paths) => cache.len() > 0 && strings_view(paths@) == matching_paths(
                cache_view(cache@),
                cache.len() as int,
                conditions_view(conditions@),
            ),
        },
{
    if cache.len() == 0 {
        return CachedLoad::Cold;
    }
    let ghost c = cache_view(cache@);
    let mut paths: Vec<String> = Vec::new();
    let mut i: usize = 0;
    assert(strings_view(paths@) =~= Seq::empty());
    while i < cache.len()
        invariant
            i <= cache.len(),
            c == cache_view(cache@),
            strings_view(paths@) == matching_paths(c, i as int, conditions_view(conditions@)),
        decreases cache.len() - i,
    {
        let ghost done = strings_view(paths@);
        assert(c[i as int] == (cache[i as int].0@, cache[i as int].1@));
        if metadata_matches(&cache[i].1.metadata, conditions) {
            paths.push(cache[i].0.clone());
            assert(strings_view(paths@) =~= done.push(cache[i as int].0@));
        }
        i += 1;
    }
    CachedLoad::Warm(paths)
}

/// A file that was read, and the time at which it was last written where
/// that could be read.
#[derive(Debug)]
pub struct StampedFile {
    pub file: NoteFile,
    pub mtime: Option<(i64, u32)>,
}

/// What the cache keeps of a processed note: its metadata and reference,
/// and the time of the file, or zero where that could not be read.
pub open spec fn entry_of(n: NoteView, mtime: Option<(i64, u32)>) -> EntryView {
    EntryView {
        mtime_secs: match mtime {
            Some(t) => t.0,
            None => 0,
        },
        mtime_nanos: match mtime {
            Some(t) => t.1,
            None => 0,
        },
        metadata: n.metadata,
        reference: n.reference,
    }
}

/// The cache that the first `n` files give after the pipeline.
pub open spec fn cold_cache(files: Seq<StampedFile>, n: int, now: i64) -> CacheView
    decreases n,
{
    if n <= 0 {
        Seq::empty()
    } else {
        cache_put(
            cold_cache(files, n - 1, now),
            files[n - 1].file.path@,
            entry_of(processed(file_note(files[n - 1].file), now), files[n - 1].mtime),
        )
    }
}

/// The notes of the first `n` files after the pipeline whose metadata meet
/// the conditions.
pub open spec fn cold_notes(
    files: Seq<StampedFile>,
    n: int,
    c: Seq<(Seq<char>, FilterView)>,
    now: i64,
) -> Seq<NoteView>
    decreases n,
{
    if n <= 0 {
        Seq::empty()
    } else if all_hold(processed(file_note(files[n - 1].file), now).metadata, c) {
        cold_notes(files, n - 1, c, now).push(processed(file_note(files[n - 1].file), now))
    } else {
        cold_notes(files, n - 1, c, now)
    }
}

/// The cold cache has no path twice.
pub proof fn lemma_cold_cache_distinct(files: Seq<StampedFile>, n: int, now: i64)
    ensures
        paths_distinct(cold_cache(files, n, now)),
    decreases n,
{
    if n > 0 {
        lemma_cold_cache_distinct(files, n - 1, now);
        lemma_cache_put_distinct(
            cold_cache(files, n - 1, now),
            files[n - 1].file.path@,
            entry_of(processed(file_note(files[n - 1].file), now), files[n - 1].mtime),
        );
    }
}

fn entry_for(data: &ZettelData, mtime: Option<(i64, u32)>) -> (r: CacheEntry)
    ensures
        r@ == entry_of(data@, mtime),
{
    let (secs, nanos) = match mtime {
        Some(t) => t,
        None => (0, 0),
    };
    CacheEntry {
        mtime_secs: secs,
        mtime_nanos: nanos,
        metadata: fields_clone(&data.metadata),
        reference: fields_clone(&data.reference),
    }
}

/// The cold load: every file is parsed and goes through the pipeline, with
/// `now` as the time on the clock; each gets an entry in a new cache, and
/// the notes whose metadata meet the conditions are handed back. The new
/// cache has no path twice: of two files at one path the later gives the
/// entry.
pub fn load_cached_cold(
    files: &Vec<StampedFile>,
    conditions: &Vec<(String, MetaFilterValue)>,
    now: i64,
) -> (r: (Cache, Vec<ZettelData>))
    ensures
        cache_view(r.0@) == cold_cache(files@, files.len() as int, now),
        paths_distinct(cache_view(r.0@)),
        notes_view(r.1@) == cold_notes(
            files@,
            files.len() as int,
            conditions_view(conditions@),
            now,
        ),
{
    let mut cache: Cache = Vec::new();
    let mut results: Vec<ZettelData> = Vec::new();
    let mut i: usize = 0;
    assert(cache_view(cache@) =~= Seq::empty());
    assert(notes_view(results@) =~= Seq::empty());
    while i < files.len()
        invariant
            i <= files.len(),
            cache_view(cache@) == cold_cache(files@, i as int, now),
            notes_view(results@) == cold_notes(
                files@,
                i as int,
                conditions_view(conditions@),
                now,
            ),
        decreases files.len() - i,
    {
        let ghost done = notes_view(results@);
        let mut data = parse_note(&files[i].file);
        process_zettel_at(&mut data, now);
        cache_insert(&mut cache, files[i].file.path.clone(), entry_for(&data, files[i].mtime));
        if metadata_matches(&data.metadata, conditions) {
            results.push(data);
            assert(notes_view(results@) =~= done.push(data@));
        }
        i += 1;
    }
    proof {
        lemma_cold_cache_distinct(files@, files.len() as int, now);
    }
    (cache, results)
}

/// Whether a file has to be parsed again: the cache has no entry for its
/// path, or its time could not be read, or its time is not the time of the
/// entry.
pub open spec fn stale(c: CacheView, path: Seq<char>, mtime: Option<(i64, u32)>) -> bool {
    match cached(c, path) {
        None => true,
        Some(e) => match mtime {
            None => true,
            Some(t) => t.0 != e.mtime_secs || t.1 != e.mtime_nanos,
        },
    }
}

/// Whether a file has to be parsed again.
pub fn is_stale(cache: &Cache, file: &FileStamp) -> (r: bool)
    ensures
        r == stale(cache_view(cache@), file.path@, file.mtime),
{
    match cache_find(cache, &file.path) {
        None => true,
        Some(i) => {
            assert(cache_view(cache@)[i as int].1 == cache[i as int].1@);
            match file.mtime {
                None => true,
                Some((secs, nanos)) => secs != cache[i].1.mtime_secs || nanos
                    != cache[i].1.mtime_nanos,
            }
        },
    }
}

/// The path of a file that the walk found.
pub open spec fn path_of(f: FileStamp) -> Seq<char> {
    f.path@
}

/// Whether the walk found a file at `path`.
pub open spec fn listed(files: Seq<FileStamp>, path: Seq<char>) -> bool {
    exists|i: int| 0 <= i < files.len() && path_of(#[trigger] files[i]) == path
}

/// Whether the walk found no path twice.
pub open spec fn files_distinct(files: Seq<FileStamp>) -> bool {
    forall|i: int, j: int|
        0 <= i < j < files.len() ==> path_of(#[trigger] files[i]) != path_of(#[trigger] files[j])
}

/// Whether no path has two entries in the cache.
pub fn has_distinct_paths(cache: &Cache) -> (r: bool)
    ensures
        r == paths_distinct(cache_view(cache@)),
{
    let ghost c = cache_view(cache@);
    let mut j: usize = 0;
    while j < cache.len()
        invariant
            j <= cache.len(),
            c == cache_view(cache@),
            forall|a: int, b: int| 0 <= a < b < j ==> (#[trigger] c[a]).0 != (#[trigger] c[b]).0,
        decreases cache.len() - j,
    {
        let mut i: usize = 0;
        while i < j
            invariant
                i <= j < cache.len(),
                c == cache_view(cache@),
                forall|a: int| 0 <= a < i ==> (#[trigger] c[a]).0 != c[j as int].0,
            decreases j - i,
        {
            if cache[i].0 == cache[j].0 {
                assert(c[i as int].0 == c[j as int].0);
                return false;
            }
            i += 1;
        }
        j += 1;
    }
    true
}

/// Whether the walk found no path twice.
pub fn has_distinct_files(files: &Vec<FileStamp>) -> (r: bool)
    ensures
        r == files_distinct(files@),
{
    let mut j: usize = 0;
    while j < files.len()
        invariant
            j <= files.len(),
            forall|a: int, b: int|
                0 <= a < b < j ==> path_of(#[trigger] files[a]) != path_of(#[trigger] files[b]),
        decreases files.len() - j,
    {
        let mut i: usize = 0;
        while i < j
            invariant
                i <= j < files.len(),
                forall|a: int| 0 <= a < i ==> path_of(#[trigger] files[a]) != path_of(files[j as int]),
            decreases j - i,
        {
            if files[i].path == files[j].path {
                assert(path_of(files[i as int]) == path_of(files[j as int]));
                return false;
            }
            i += 1;
        }
        j += 1;
    }
    true
}

/// The indices of the stale files among the first `n`, in their order.
pub open spec fn stale_files(c: CacheView, files: Seq<FileStamp>, n: int) -> Seq<usize>
    decreases n,
{
    if n <= 0 {
        Seq::empty()
    } else if stale(c, files[n - 1].path@, files[n - 1].mtime) {
        stale_files(c, files, n - 1).push((n - 1) as usize)
    } else {
        stale_files(c, files, n - 1)
    }
}

/// How many of the first `n` files have no entry in the cache.
pub open spec fn new_count(c: CacheView, files: Seq<FileStamp>, n: int) -> int
    decreases n,
{
    if n <= 0 {
        0
    } else if cached(c, files[n - 1].path@) is None {
        new_count(c, files, n - 1) + 1
    } else {
        new_count(c, files, n - 1)
    }
}

/// How many of the first `n` entries of the cache are of a path at which
/// the walk found no file.
pub open spec fn deleted_count(c: CacheView, files: Seq<FileStamp>, n: int) -> int
    decreases n,
{
    if n <= 0 {
        0
    } else if !listed(files, c[n - 1].0) {
        deleted_count(c, files, n - 1) + 1
    } else {
        deleted_count(c, files, n - 1)
    }
}

/// What a refresh has to do: the indices of the files to parse again, and
/// how many files are new, modified and deleted.
#[derive(Debug)]
pub struct RefreshPlan {
    pub stale: Vec<usize>,
    pub n_new: usize,
    pub n_modified: usize,
    pub n_deleted: usize,
}

/// Whether the walk found a file at `path`.
pub fn is_listed(files: &Vec<FileStamp>, path: &String) -> (r: bool)
    ensures
        r == listed(files@, path@),
{
    let mut i: usize = 0;
    while i < files.len()
        invariant
            i <= files.len(),
            forall|j: int| 0 <= j < i ==> path_of(#[trigger] files[j]) != path@,
        decreases files.len() - i,
    {
        if files[i].path == *path {
            assert(path_of(files[i as int]) == path@);
            return true;
        }
        i += 1;
    }
    false
}

/// Compares what the walk found with the cache. The cache has no path
/// twice, and the walk found none twice. A file without an entry is new; an
/// entry without a file is deleted; the stale files are to be parsed again,
/// and those of them that are not new count as modified.
pub fn refresh_cache(cache: &Cache, files: &Vec<FileStamp>) -> (r: RefreshPlan)
    requires
        paths_distinct(cache_view(cache@)),
        files_distinct(files@),
    ensures
        r.stale@ == stale_files(cache_view(cache@), files@, files.len() as int),
        r.n_new == new_count(cache_view(cache@), files@, files.len() as int),
        r.n_deleted == deleted_count(cache_view(cache@), files@, cache.len() as int),
        r.n_modified == if r.stale.len() > r.n_new {
            r.stale.len() - r.n_new
        } else {
            0
        },
        r.n_new + r.n_modified == r.stale.len(),
{
    let ghost c = cache_view(cache@);
    let mut stale_now: Vec<usize> = Vec::new();
    let mut n_new: usize = 0;
    let mut i: usize = 0;
    while i < files.len()
        invariant
            i <= files.len(),
            c == cache_view(cache@),
            n_new <= i,
            n_new <= stale_now.len() <= i,
            stale_now@ == stale_files(c, files@, i as int),
            n_new == new_count(c, files@, i as int),
        decreases files.len() - i,
    {
        if cache_find(cache, &files[i].path).is_none() {
            n_new += 1;
        }
        if is_stale(cache, &files[i]) {
            stale_now.push(i);
        }
        i += 1;
    }
    let mut n_deleted: usize = 0;
    let mut k: usize = 0;
    while k < cache.len()
        invariant
            k <= cache.len(),
            c == cache_view(cache@),
            n_deleted <= k,
            n_deleted == deleted_count(c, files@, k as int),
        decreases cache.len() - k,
    {
        assert(c[k as int].0 == cache[k as int].0@);
        if !is_listed(files, &cache[k].0) {
            n_deleted += 1;
        }
        k += 1;
    }
    let n_modified = if stale_now.len() > n_new {
        stale_now.len() - n_new
    } else {
        0
    };
    RefreshPlan { stale: stale_now, n_new, n_modified, n_deleted }
}

fn digit(d: usize) -> (r: char)
    requires
        d < 10,
    ensures
        r == digit_of(d as int),
{
    if d == 0 {
        '0'
    } else if d == 1 {
        '1'
    } else if d == 2 {
        '2'
    } else if d == 3 {
        '3'
    } else if d == 4 {
        '4'
    } else if d == 5 {
        '5'
    } else if d == 6 {
        '6'
    } else if d == 7 {
        '7'
    } else if d == 8 {
        '8'
    } else {
        '9'
    }
}

/// Writes a number in decimal digits.
pub fn decimal(n: usize) -> (r: Vec<char>)
    ensures
        r@ == decimal_of(n as nat),
    decreases n,
{
    if n < 10 {
        let mut out: Vec<char> = Vec::new();
        out.push(digit(n));
        out
    } else {
        let mut out = decimal(n / 10);
        out.push(digit(n % 10));
        out
    }
}

/// A count with its label, where the count is not zero.
pub open spec fn count_part(n: nat, label: Seq<char>) -> Seq<Seq<char>> {
    if n > 0 {
        seq![decimal_of(n) + label]
    } else {
        Seq::empty()
    }
}

/// The summary of a refresh: the counts that are not zero, as in
/// `3 new, 2 modified, 1 deleted`; the empty text where nothing changed.
pub open spec fn summary_of(n_new: nat, n_modified: nat, n_deleted: nat) -> Seq<char> {
    joined(
        count_part(n_new, " new"@) + count_part(n_modified, " modified"@) + count_part(
            n_deleted,
            " deleted"@,
        ),
        ", "@,
    )
}

fn push_count(parts: &mut Vec<Vec<char>>, n: usize, label: &str)
    ensures
        texts_view(final(parts)@) == texts_view(old(parts)@) + count_part(n as nat, label@),
{
    if n > 0 {
        let mut part = decimal(n);
        push_str(&mut part, label);
        parts.push(part);
    }
    assert(texts_view(parts@) =~= texts_view(old(parts)@) + count_part(n as nat, label@));
}

/// Writes the summary of a refresh.
pub fn refresh_summary(n_new: usize, n_modified: usize, n_deleted: usize) -> (r: String)
    ensures
        r@ == summary_of(n_new as nat, n_modified as nat, n_deleted as nat),
{
    let mut parts: Vec<Vec<char>> = Vec::new();
    assert(texts_view(parts@) =~= Seq::empty());
    push_count(&mut parts, n_new, " new");
    push_count(&mut parts, n_modified, " modified");
    push_count(&mut parts, n_deleted, " deleted");
    assert(texts_view(parts@) =~= count_part(n_new as nat, " new"@) + count_part(
        n_modified as nat,
        " modified"@,
    ) + count_part(n_deleted as nat, " deleted"@));
    to_string(&join(&parts, &to_chars(", ")))
}

/// The entry that a stale file gets: the file is parsed and goes through
/// the pipeline, with `now` as the time on the clock.
pub fn fresh_entry(file: &StampedFile, now: i64) -> (r: (String, CacheEntry))
    ensures
        r.0@ == file.file.path@,
        r.1@ == entry_of(processed(file_note(file.file), now), file.mtime),
{
    let mut data = parse_note(&file.file);
    process_zettel_at(&mut data, now);
    (file.file.path.clone(), entry_for(&data, file.mtime))
}

/// `c` with the first `n` entries of `fresh` put in, in their order.
pub open spec fn with_fresh(c: CacheView, fresh: CacheView, n: int) -> CacheView
    decreases n,
{
    if n <= 0 {
        c
    } else {
        cache_put(with_fresh(c, fresh, n - 1), fresh[n - 1].0, fresh[n - 1].1)
    }
}

/// The entries among the first `n` of `c` at whose paths the walk found a
/// file, in their order.
pub open spec fn retained(c: CacheView, n: int, files: Seq<FileStamp>) -> CacheView
    decreases n,
{
    if n <= 0 {
        Seq::empty()
    } else if listed(files, c[n - 1].0) {
        retained(c, n - 1, files).push(c[n - 1])
    } else {
        retained(c, n - 1, files)
    }
}

/// Whether one of the first `n` entries of `c` is of the path `p`.
pub open spec fn path_among(c: CacheView, n: int, p: Seq<char>) -> bool {
    exists|j: int| 0 <= j < n && (#[trigger] c[j]).0 == p
}

/// A cache in which no path has two entries stays one when fresh entries
/// are put in.
pub proof fn lemma_with_fresh_distinct(c: CacheView, fresh: CacheView, n: int)
    requires
        paths_distinct(c),
    ensures
        paths_distinct(with_fresh(c, fresh, n)),
    decreases n,
{
    if n > 0 {
        lemma_with_fresh_distinct(c, fresh, n - 1);
        lemma_cache_put_distinct(with_fresh(c, fresh, n - 1), fresh[n - 1].0, fresh[n - 1].1);
    }
}

/// What is retained of a cache in which no path has two entries is such a
/// cache, and holds only paths of the entries it was retained from.
pub proof fn lemma_retained_distinct(c: CacheView, n: int, files: Seq<FileStamp>)
    requires
        paths_distinct(c),
        0 <= n <= c.len(),
    ensures
        paths_distinct(retained(c, n, files)),
        forall|i: int|
            0 <= i < retained(c, n, files).len() ==> path_among(
                c,
                n,
                (#[trigger] retained(c, n, files)[i]).0,
            ),
    decreases n,
{
    if n > 0 {
        lemma_retained_distinct(c, n - 1, files);
        let before = retained(c, n - 1, files);
        let r = retained(c, n, files);
        assert forall|i: int| 0 <= i < r.len() implies path_among(c, n, (#[trigger] r[i]).0) by {
            if i < before.len() {
                assert(r[i] == before[i]);
                assert(path_among(c, n - 1, before[i].0));
                let j = choose|j: int| 0 <= j < n - 1 && (#[trigger] c[j]).0 == before[i].0;
                assert(c[j].0 == r[i].0);
            } else {
                assert(c[n - 1].0 == r[i].0);
            }
        }
        assert forall|i: int, j: int| 0 <= i < j < r.len() implies (#[trigger] r[i]).0 != (
        #[trigger] r[j]).0 by {
            if j < before.len() {
                assert(r[i] == before[i] && r[j] == before[j]);
            } else {
                assert(r[i] == before[i]);
                assert(path_among(c, n - 1, before[i].0));
                let m = choose|m: int| 0 <= m < n - 1 && (#[trigger] c[m]).0 == before[i].0;
                assert(c[m].0 != c[n - 1].0);
            }
        }
    }
}

fn copy_entry(e: &CacheEntry) -> (r: CacheEntry)
    ensures
        r@ == e@,
{
    CacheEntry {
        mtime_secs: e.mtime_secs,
        mtime_nanos: e.mtime_nanos,
        metadata: fields_clone(&e.metadata),
        reference: fields_clone(&e.reference),
    }
}

/// Brings the cache up to date: the fresh entries are put in, and the
/// entries of paths at which the walk found no file are dropped. A cache in
/// which no path has two entries stays one.
pub fn apply_refresh(cache: Cache, fresh: &Vec<(String, CacheEntry)>, files: &Vec<FileStamp>) -> (r:
    Cache)
    ensures
        paths_distinct(cache_view(cache@)) ==> paths_distinct(cache_view(r@)),
        cache_view(r@) == retained(
            with_fresh(cache_view(cache@), cache_view(fresh@), fresh.len() as int),
            with_fresh(cache_view(cache@), cache_view(fresh@), fresh.len() as int).len() as int,
            files@,
        ),
{
    let ghost start = cache_view(cache@);
    let ghost f = cache_view(fresh@);
    let mut all = cache;
    let mut i: usize = 0;
    while i < fresh.len()
        invariant
            i <= fresh.len(),
            f == cache_view(fresh@),
            cache_view(all@) == with_fresh(start, f, i as int),
        decreases fresh.len() - i,
    {
        assert(f[i as int] == (fresh[i as int].0@, fresh[i as int].1@));
        cache_insert(&mut all, fresh[i].0.clone(), copy_entry(&fresh[i].1));
        i += 1;
    }
    let ghost merged = cache_view(all@);
    let mut kept: Cache = Vec::new();
    let mut k: usize = 0;
    assert(cache_view(kept@) =~= Seq::empty());
    while k < all.len()
        invariant
            k <= all.len(),
            merged == cache_view(all@),
            cache_view(kept@) == retained(merged, k as int, files@),
        decreases all.len() - k,
    {
        let ghost done = cache_view(kept@);
        assert(merged[k as int] == (all[k as int].0@, all[k as int].1@));
        if is_listed(files, &all[k].0) {
            kept.push((all[k].0.clone(), copy_entry(&all[k].1)));
            assert(cache_view(kept@) =~= done.push(merged[k as int]));
        }
        k += 1;
    }
    proof {
        if paths_distinct(start) {
            lemma_with_fresh_distinct(start, f, fresh.len() as int);
            lemma_retained_distinct(merged, merged.len() as int, files@);
        }
    }
    kept
}

} // verus!
