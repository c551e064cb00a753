//! Directory entries as the listing pages show them, and the bounded name search.

use vstd::prelude::*;
use crate::clock::{calendar_representable, is_local_rendering, st_to_date_and_time, Timestamp};
use crate::namemap::NameMap;
use crate::text::{chars_of, contains, contains_chars};

verus! {

/// Whether an entry is a regular file or something else (shown as a directory).
#[derive(Clone, Copy, Debug)]
pub enum ElementKind {
    File,
    Dir,
}

/// What a listing shows of one entry.
#[derive(Debug)]
pub struct ElementInfo {
    pub kind: ElementKind,
    pub size: u64,
    pub modified: String,
}

/// The abstract value of an [`ElementInfo`].
pub struct ElementView {
    pub kind: ElementKind,
    pub size: u64,
    pub modified: Seq<char>,
}

impl View for ElementInfo {
    type V = ElementView;

    open spec fn view(&self) -> ElementView {
        ElementView { kind: self.kind, size: self.size, modified: self.modified@ }
    }
}

/// The type label of a kind: `"File"` or `"Dir"`.
pub open spec fn el_type_text(k: ElementKind) -> Seq<char> {
    match k {
        ElementKind::File => "File"@,
        ElementKind::Dir => "Dir"@,
    }
}

/// The view of a directory element: size 0 and no modification time.
pub open spec fn dir_view() -> ElementView {
    ElementView { kind: ElementKind::Dir, size: 0, modified: Seq::empty() }
}

/// `e` is the view of a file element of `size` bytes whose modification
/// time is `modified`, rendered in local time.
pub open spec fn is_file_view(e: ElementView, size: u64, modified: Timestamp) -> bool {
    &&& e.kind == ElementKind::File
    &&& e.size == size
    &&& is_local_rendering(e.modified, modified)
}

impl ElementInfo {
    /// The type label, `"File"` or `"Dir"`.
    pub fn el_type(&self) -> (r: &'static str)
        ensures
            r@ == el_type_text(self.kind),
    {
        match self.kind {
            ElementKind::File => "File",
            ElementKind::Dir => "Dir",
        }
    }

    /// A directory element.
    pub fn dir() -> (e: ElementInfo)
        ensures
            e@ == dir_view(),
    {
        ElementInfo { kind: ElementKind::Dir, size: 0, modified: String::new() }
    }
}

/// The element for an entry, given the rendered modification time of a
/// file: a file with its size and that time, or a directory. `None` for a
/// file whose time could not be rendered.
pub fn element_with(is_file: bool, size: u64, rendered: Option<String>) -> (r: Option<ElementInfo>)
    ensures
        !is_file ==> (r matches Some(e) && e@ == dir_view()),
        is_file ==> match rendered {
            Some(m) => r matches Some(e) && e@ == (ElementView { kind: ElementKind::File, size: size, modified: m@ }),
            None => r is None,
        },
{
    if is_file {
        match rendered {
            Some(m) => Some(ElementInfo { kind: ElementKind::File, size: size, modified: m }),
            None => None,
        }
    } else {
        Some(ElementInfo::dir())
    }
}

/// The element for an entry: a file with its size and local modification
/// time, or a directory. `None` when the modification time of a file cannot
/// be rendered.
pub fn element_for(is_file: bool, size: u64, modified: Timestamp) -> (r: Option<ElementInfo>)
    ensures
        !is_file ==> (r matches Some(e) && e@ == dir_view()),
        is_file ==> (r matches Some(e) ==> is_file_view(e@, size, modified)),
        is_file && calendar_representable(modified) ==> r is Some,
{
    if is_file {
        element_with(true, size, st_to_date_and_time(modified))
    } else {
        element_with(false, size, None)
    }
}

/// Entries sorted into directories and files, each keyed by name.
pub struct Catalog {
    pub dirs: NameMap<ElementInfo>,
    pub files: NameMap<ElementInfo>,
}

impl Catalog {
    /// A catalog with no entries.
    pub fn new() -> (c: Catalog)
        ensures
            c.dirs@ == Map::<Seq<char>, ElementView>::empty(),
            c.files@ == Map::<Seq<char>, ElementView>::empty(),
    {
        Catalog { dirs: NameMap::new(), files: NameMap::new() }
    }

    /// Records `e` under `name`: among the files if it is a file, else among
    /// the directories. A name recorded again replaces the earlier element.
    pub fn record(&mut self, name: String, e: ElementInfo)
        ensures
            e.kind == ElementKind::File ==> final(self).files@ == old(self).files@.insert(name@, e@)
                && final(self).dirs@ == old(self).dirs@,
            e.kind == ElementKind::Dir ==> final(self).dirs@ == old(self).dirs@.insert(name@, e@)
                && final(self).files@ == old(self).files@,
    {
        match e.kind {
            ElementKind::File => self.files.insert(name, e),
            ElementKind::Dir => self.dirs.insert(name, e),
        }
    }
}

// ---------------------------------------------------------------------
// Search
// ---------------------------------------------------------------------

/// The lowercase form of `s` (`str::to_lowercase`).
pub uninterp spec fn lowercase_of(s: Seq<char>) -> Seq<char>;

/// `t` holds no ASCII capital letter.
pub open spec fn no_ascii_capitals(t: Seq<char>) -> bool {
    forall|i: int| 0 <= i < t.len() ==> !('A' <= #[trigger] t[i] && t[i] <= 'Z')
}

/// `str::to_lowercase`. Trusted: the result is `lowercase_of` of the argument,
/// a function of the characters alone (Unicode lowercase mapping), and it
/// holds no ASCII capital letter (each maps to its small letter, and no
/// character's lowercase form holds one).
#[verifier::external_body]
fn to_lowercase(s: &str) -> (r: String)
    ensures
        r@ == lowercase_of(s@),
        no_ascii_capitals(r@),
{
    s.to_lowercase()
}

/// The lowercase form of `s`, as entry names and queries are compared: it
/// holds no ASCII capital letter.
pub fn lowercase(s: &str) -> (r: String)
    ensures
        r@ == lowercase_of(s@),
        no_ascii_capitals(r@),
{
    to_lowercase(s)
}

/// A text without ASCII capitals contains no text that holds one.
pub proof fn lemma_capitals_never_occur(t: Seq<char>, p: Seq<char>)
    requires
        no_ascii_capitals(t),
        !no_ascii_capitals(p),
    ensures
        !contains(t, p),
{
    let j = choose|j: int| 0 <= j < p.len() && 'A' <= #[trigger] p[j] && p[j] <= 'Z';
    assert forall|i: int| !crate::text::occurs_at(t, p, i) by {
        if crate::text::occurs_at(t, p, i) {
            assert(t.subrange(i, i + p.len())[j] == p[j]);
            assert(t[i + j] == p[j]);
        }
    }
}

/// The needle of a search query: `None` when the query is blank, else the
/// lowercase form of the whole query.
pub fn search_needle(query: &str) -> (r: Option<String>)
    ensures
        crate::text::trim_ws(query@).len() == 0 ==> r is None,
        crate::text::trim_ws(query@).len() != 0 ==> (r matches Some(n) && n@ == lowercase_of(query@)),
        r matches Some(n) ==> no_ascii_capitals(n@),
{
    let q = chars_of(query);
    let t = crate::text::trim_ws_chars(&q);
    if t.len() == 0 {
        None
    } else {
        Some(lowercase(query))
    }
}

/// Whether an entry name matches a search needle: the lowercase name
/// contains it. The lowercase name holds no ASCII capital, so a needle
/// that holds one matches no name.
pub fn name_matches(name: &str, needle: &str) -> (r: bool)
    ensures
        r == contains(lowercase_of(name@), needle@),
        no_ascii_capitals(lowercase_of(name@)),
        !no_ascii_capitals(needle@) ==> !r,
{
    let lower = lowercase(name);
    proof {
        if !no_ascii_capitals(needle@) {
            lemma_capitals_never_occur(lower@, needle@);
        }
    }
    let a = chars_of(lower.as_str());
    let b = chars_of(needle);
    contains_chars(&a, &b)
}

/// A search stops once this many whole seconds have passed.
pub open spec fn search_time_limit() -> u64 {
    2
}

/// A search stops once it has collected more than this many entries.
pub open spec fn search_entry_limit() -> usize {
    25
}

/// Whether a search that has run `elapsed_secs` whole seconds may go on.
pub fn within_time_limit(elapsed_secs: u64) -> (r: bool)
    ensures
        r == (elapsed_secs <= search_time_limit()),
{
    elapsed_secs <= 2
}

/// The metadata of an entry that a search visits.
pub struct EntryMeta {
    pub is_file: bool,
    pub size: u64,
    pub modified: Timestamp,
}

/// What a search does after a step.
#[derive(Clone, Copy, Debug)]
pub enum SearchControl {
    /// Visit the next matching entry.
    Continue,
    /// The search is over; the catalog holds its results.
    Stop,
    /// The modification time of a file could not be rendered.
    Fault,
}

/// The progress of a search over matching directory entries.
pub struct SearchState {
    /// The lowercase query that entry names must contain.
    pub needle: String,
    /// The number of entries recorded so far.
    pub count: usize,
    /// The entries recorded so far.
    pub found: Catalog,
}

/// The name `k` matches the search needle.
pub open spec fn matches_needle(k: Seq<char>, needle: Seq<char>) -> bool {
    contains(lowercase_of(k), needle)
}

impl SearchState {
    /// Every recorded name matches the needle.
    pub open spec fn results_match(&self) -> bool {
        &&& forall|k: Seq<char>| #[trigger] self.found.dirs@.contains_key(k) ==> matches_needle(k, self.needle@)
        &&& forall|k: Seq<char>| #[trigger] self.found.files@.contains_key(k) ==> matches_needle(k, self.needle@)
    }

    /// A search for `needle` that has recorded nothing.
    pub fn new(needle: String) -> (s: SearchState)
        ensures
            s.needle@ == needle@,
            s.count == 0,
            s.found.dirs@ == Map::<Seq<char>, ElementView>::empty(),
            s.found.files@ == Map::<Seq<char>, ElementView>::empty(),
            s.results_match(),
    {
        SearchState { needle, count: 0, found: Catalog::new() }
    }

    /// Whether the entry called `name` takes part in the search.
    pub fn admits(&self, name: &str) -> (r: bool)
        ensures
            r == matches_needle(name@, self.needle@),
            no_ascii_capitals(lowercase_of(name@)),
            !no_ascii_capitals(self.needle@) ==> !r,
    {
        name_matches(name, self.needle.as_str())
    }

    /// Handles one entry of the walk, visited after `elapsed_secs` whole
    /// seconds, with its metadata or `None` when the metadata could not be
    /// read. An entry whose name does not match is passed over. Past the
    /// time limit, or without metadata, the search stops as it is. Otherwise
    /// the entry is recorded and counted, and the search stops once more
    /// than the entry limit have been counted.
    pub fn step(&mut self, name: String, elapsed_secs: u64, meta: Option<EntryMeta>) -> (c: SearchControl)
        requires
            old(self).count <= search_entry_limit(),
            old(self).results_match(),
        ensures
            final(self).needle@ == old(self).needle@,
            final(self).results_match(),
            final(self).count <= search_entry_limit() + 1,
            !matches_needle(name@, old(self).needle@) ==> c is Continue
                && final(self).count == old(self).count
                && final(self).found.dirs@ == old(self).found.dirs@
                && final(self).found.files@ == old(self).found.files@,
            no_ascii_capitals(lowercase_of(name@)),
            !no_ascii_capitals(old(self).needle@) ==> c is Continue
                && final(self).count == old(self).count
                && final(self).found.dirs@ == old(self).found.dirs@
                && final(self).found.files@ == old(self).found.files@,
            matches_needle(name@, old(self).needle@) && (elapsed_secs > search_time_limit() || meta is None)
                ==> c is Stop
                && final(self).count == old(self).count
                && final(self).found.dirs@ == old(self).found.dirs@
                && final(self).found.files@ == old(self).found.files@,
            meta matches Some(m) ==> (matches_needle(name@, old(self).needle@)
                && elapsed_secs <= search_time_limit() && !m.is_file ==> {
                &&& final(self).count == old(self).count + 1
                &&& final(self).found.dirs@ == old(self).found.dirs@.insert(name@, dir_view())
                &&& final(self).found.files@ == old(self).found.files@
                &&& (c is Stop <==> final(self).count > search_entry_limit())
                &&& !(c is Fault)
            }),
            meta matches Some(m) ==> (matches_needle(name@, old(self).needle@)
                && elapsed_secs <= search_time_limit() && m.is_file ==> {
                ||| {
                    &&& c is Fault
                    &&& final(self).count == old(self).count
                    &&& final(self).found.dirs@ == old(self).found.dirs@
                    &&& final(self).found.files@ == old(self).found.files@
                }
                ||| {
                    &&& final(self).count == old(self).count + 1
                    &&& final(self).found.dirs@ == old(self).found.dirs@
                    &&& final(self).found.files@.dom() == old(self).found.files@.dom().insert(name@)
                    &&& is_file_view(final(self).found.files@[name@], m.size, m.modified)
                    &&& forall|k: Seq<char>| k != name@ && old(self).found.files@.contains_key(k)
                        ==> final(self).found.files@[k] == old(self).found.files@[k]
                    &&& (c is Stop <==> final(self).count > search_entry_limit())
                    &&& !(c is Fault)
                }
            }),
            meta matches Some(m) ==> (matches_needle(name@, old(self).needle@)
                && elapsed_secs <= search_time_limit() && m.is_file
                && calendar_representable(m.modified) ==> !(c is Fault)),
    {
        if !self.admits(name.as_str()) {
            return SearchControl::Continue;
        }
        if !within_time_limit(elapsed_secs) {
            return SearchControl::Stop;
        }
        let m = match meta {
            Some(m) => m,
            None => return SearchControl::Stop,
        };
        let e = match element_for(m.is_file, m.size, m.modified) {
            Some(e) => e,
            None => return SearchControl::Fault,
        };
        self.found.record(name, e);
        self.count = self.count + 1;
        if self.count > 25 {
            SearchControl::Stop
        } else {
            SearchControl::Continue
        }
    }
}

/// Every name that a search records contains its needle, in lowercase.
pub proof fn lemma_search_results_match(s: SearchState, k: Seq<char>)
    requires
        s.results_match(),
        s.found.dirs@.contains_key(k) || s.found.files@.contains_key(k),
    ensures
        contains(lowercase_of(k), s.needle@),
{
}

} // verus!
