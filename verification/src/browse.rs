//! Decisions of the directory browser: which path a request names, how a
//! file is offered, and the cache of rendered `README.md` sources.

use vstd::prelude::*;
use crate::auth::{session_allows, session_ok};
use crate::clock::{calendar_representable, Timestamp};
use crate::listing::{dir_view, element_for, is_file_view, Catalog, ElementView, EntryMeta};
use crate::encoding::{percent_decode_utf8, percent_decoded_text, utf8_or_empty, utf8_text};
use crate::namemap::NameMap;
use crate::text::{lemma_split_on_concat, lemma_split_on_nonempty, lemma_split_on_without, lemma_trim_char_edges, chars_of, push_str, slice_eq, split_chars, split_on, str_eq, string_of, trim_char, trim_char_chars};

verus! {

/// The path that a request names: its URI path, percent-decoded as UTF-8,
/// without leading and trailing `/`. `None` when the decoded bytes are not
/// UTF-8. The path never starts with `/`, so joining it to the served
/// directory extends that directory rather than replacing it.
pub fn request_path(uri_path: &str) -> (r: Option<String>)
    ensures
        match percent_decoded_text(uri_path@) {
            Some(t) => r matches Some(p) && p@ == trim_char(t, '/'),
            None => r is None,
        },
        r matches Some(p) ==> p@.len() == 0 || (p@[0] != '/' && p@.last() != '/'),
{
    proof {
        if let Some(t) = percent_decoded_text(uri_path@) {
            lemma_trim_char_edges(t, '/');
        }
    }
    match percent_decode_utf8(uri_path) {
        Some(decoded) => {
            let c = chars_of(decoded.as_str());
            let t = trim_char_chars(&c, '/');
            Some(string_of(&t))
        },
        None => None,
    }
}

/// The folder, relative to the working directory, that holds the static
/// assets of the application.
pub open spec fn static_prefix() -> Seq<char> {
    "rdl_static"@
}

/// `path` lies in the asset folder: its first `/`-separated piece names it.
pub open spec fn asset_path(path: Seq<char>) -> bool {
    split_on(path, '/')[0] == static_prefix()
}

/// `path` has a `..` piece between its `/` separators: joined to a folder,
/// it can climb out of that folder.
pub open spec fn climbs_out(path: Seq<char>) -> bool {
    split_on(path, '/').contains(".."@)
}

/// A path lies in the asset folder exactly when its first piece, the text
/// before its first `/` (or all of it, without `/`), is `rdl_static`.
pub proof fn lemma_asset_path_by_first_piece(first: Seq<char>, rest: Seq<char>)
    requires
        !first.contains('/'),
    ensures
        asset_path(first) == (first == static_prefix()),
        asset_path(first + seq!['/'] + rest) == (first == static_prefix()),
{
    lemma_split_on_without(first, '/');
    lemma_split_on_concat(first, '/', rest);
    assert((split_on(first, '/') + split_on(rest, '/'))[0] == first);
}

/// A `..` piece anywhere, at the start, in the middle, at the end or alone,
/// makes a path climb out.
pub proof fn lemma_parent_piece_climbs_out(x: Seq<char>, y: Seq<char>)
    ensures
        climbs_out(".."@),
        climbs_out(".."@ + seq!['/'] + y),
        climbs_out(x + seq!['/'] + ".."@),
        climbs_out(x + seq!['/'] + ".."@ + seq!['/'] + y),
{
    let up = ".."@;
    assert(!up.contains('/')) by {
        reveal_strlit("..");
        if up.contains('/') {
            let i = choose|i: int| 0 <= i < up.len() && up[i] == '/';
        }
    }
    lemma_split_on_without(up, '/');
    assert(split_on(up, '/')[0] == up);
    lemma_split_on_concat(up, '/', y);
    assert((split_on(up, '/') + split_on(y, '/'))[0] == up);
    lemma_split_on_concat(x, '/', up);
    lemma_split_on_nonempty(x, '/');
    let sx = split_on(x, '/');
    assert((sx + split_on(up, '/'))[sx.len() as int] == up);
    assert(x + seq!['/'] + up + seq!['/'] + y =~= x + seq!['/'] + (up + seq!['/'] + y));
    lemma_split_on_concat(x, '/', up + seq!['/'] + y);
    assert((sx + split_on(up + seq!['/'] + y, '/'))[sx.len() as int] == up);
}

/// Whether `path` names a static asset: a path in the asset folder.
pub fn is_static_path(path: &str) -> (r: bool)
    ensures
        r == asset_path(path@),
{
    let c = chars_of(path);
    let pieces = split_chars(&c, '/');
    let pre = chars_of("rdl_static");
    proof {
        lemma_split_on_nonempty(c@, '/');
        assert(pieces@.len() == split_on(c@, '/').len());
        assert(pieces@.map_values(|p: Vec<char>| p@)[0] == pieces@[0]@);
    }
    slice_eq(&pieces[0], &pre)
}

/// Whether `path` has a `..` piece.
pub fn climbs_out_of(path: &str) -> (r: bool)
    ensures
        r == climbs_out(path@),
{
    let c = chars_of(path);
    let pieces = split_chars(&c, '/');
    let up = chars_of("..");
    let ghost sp = split_on(c@, '/');
    proof {
        assert(pieces@.len() == sp.len());
    }
    let mut i: usize = 0;
    while i < pieces.len()
        invariant
            i <= pieces.len(),
            up@ == ".."@,
            pieces@.map_values(|p: Vec<char>| p@) == sp,
            sp == split_on(path@, '/'),
            forall|j: int| 0 <= j < i ==> sp[j] != ".."@,
        decreases pieces.len() - i,
    {
        assert(pieces@.map_values(|p: Vec<char>| p@)[i as int] == pieces@[i as int]@);
        if slice_eq(&pieces[i], &up) {
            assert(sp[i as int] == ".."@);
            return true;
        }
        i = i + 1;
    }
    assert(!sp.contains(".."@)) by {
        if sp.contains(".."@) {
            let j = choose|j: int| 0 <= j < sp.len() && sp[j] == ".."@;
            assert(sp[j] != ".."@);
        }
    }
    false
}

/// Which way a request goes before anything is read from disk.
#[derive(Clone, Copy, Debug)]
pub enum Gate {
    /// A static asset of the application.
    Static,
    /// Logging in is required and the request has no valid session: go to the login page.
    Login,
    /// The request may search or browse the served tree.
    Open,
    /// The path climbs out of the folder it would be read from: not found.
    NotFound,
}

/// Where a request for `path` goes when `session` is the verified session
/// cookie's value. A path with a `..` piece reaches nothing: it would leave
/// the asset folder or the served folder. Static assets need no session,
/// except when logging in is required and the served folder shares files
/// with the asset folder (`shares_assets`: the one is, or lies within, the
/// other): then, like every other path, they need a valid session. Without
/// a valid session, a request that needs one goes to the login page.
pub open spec fn gate_of(path: Seq<char>, enabled: bool, session: Option<Seq<char>>, shares_assets: bool) -> Gate {
    let ok = session_ok(enabled, session);
    if climbs_out(path) {
        Gate::NotFound
    } else if asset_path(path) {
        if ok || !(enabled && shares_assets) { Gate::Static } else { Gate::Login }
    } else if ok {
        Gate::Open
    } else {
        Gate::Login
    }
}

/// Routes a request for `path`; `shares_assets` tells whether the served
/// folder and the asset folder overlap.
pub fn gate(path: &str, enabled: bool, session: Option<&str>, shares_assets: bool) -> (r: Gate)
    ensures
        r == gate_of(path@, enabled, match session { Some(v) => Some(v@), None => None }, shares_assets),
{
    let ok = session_allows(enabled, session);
    if climbs_out_of(path) {
        Gate::NotFound
    } else if is_static_path(path) {
        if ok || !(enabled && shares_assets) {
            Gate::Static
        } else {
            Gate::Login
        }
    } else if ok {
        Gate::Open
    } else {
        Gate::Login
    }
}

/// Whatever a request reads, from the asset folder or the served folder,
/// it reads through a path without a `..` piece: it stays in that folder.
pub proof fn lemma_reads_stay_in_folder(path: Seq<char>, enabled: bool, session: Option<Seq<char>>, shares_assets: bool)
    requires
        gate_of(path, enabled, session, shares_assets) is Static || gate_of(path, enabled, session, shares_assets) is Open,
    ensures
        !climbs_out(path),
        gate_of(path, enabled, session, shares_assets) is Static ==> asset_path(path),
{
}

/// When logging in is required, a request without a valid session reads
/// nothing of the served tree: at most a static asset, through a path in
/// the asset folder with no `..` piece, and only while the asset folder
/// and the served folder are apart.
pub proof fn lemma_login_guards_tree(path: Seq<char>, session: Option<Seq<char>>, shares_assets: bool)
    requires
        !session_ok(true, session),
    ensures
        !(gate_of(path, true, session, shares_assets) is Open),
        gate_of(path, true, session, shares_assets) is Static
            ==> asset_path(path) && !climbs_out(path) && !shares_assets,
{
}

/// When logging in is required and the served folder shares files with the
/// asset folder, a request without a valid session reaches nothing,
/// whatever its path: it goes to the login page, or is not found.
pub proof fn lemma_login_guards_served_folder(path: Seq<char>, session: Option<Seq<char>>)
    requires
        !session_ok(true, session),
    ensures
        gate_of(path, true, session, true) is Login || gate_of(path, true, session, true) is NotFound,
{
}

/// A request that passes the session check may browse every path of the
/// served tree that stays in it: a path with no `..` piece outside the
/// asset folder is open.
pub proof fn lemma_session_opens_tree(path: Seq<char>, enabled: bool, session: Option<Seq<char>>, shares_assets: bool)
    requires
        session_ok(enabled, session),
        !climbs_out(path),
        !asset_path(path),
    ensures
        gate_of(path, enabled, session, shares_assets) is Open,
{
}

/// The root of the served folder, the empty path that `/` names, is listed
/// for every request that passes the session check.
pub proof fn lemma_root_is_listed(enabled: bool, session: Option<Seq<char>>, shares_assets: bool)
    requires
        session_ok(enabled, session),
    ensures
        gate_of(Seq::<char>::empty(), enabled, session, shares_assets) is Open,
{
    reveal_strlit("rdl_static");
    reveal_strlit("..");
    let sp = split_on(Seq::<char>::empty(), '/');
    assert(sp =~= seq![Seq::<char>::empty()]);
    assert(sp[0] != static_prefix());
    assert(!sp.contains(".."@)) by {
        if sp.contains(".."@) {
            let j = choose|j: int| 0 <= j < sp.len() && sp[j] == ".."@;
            assert(sp[j].len() == 0);
        }
    }
}

/// When the served folder and the asset folder are apart, a static asset
/// is served whatever the login state.
pub proof fn lemma_assets_open_when_apart(path: Seq<char>, enabled: bool, session: Option<Seq<char>>)
    requires
        asset_path(path),
        !climbs_out(path),
    ensures
        gate_of(path, enabled, session, false) is Static,
{
}

/// What the metadata of a path says it is.
#[derive(Clone, Copy, Debug)]
pub enum EntryKind {
    File,
    Dir,
    Other,
}

/// The answer to a request for a static asset.
#[derive(Clone, Copy, Debug)]
pub enum StaticOutcome {
    NotFound,
    Serve,
    NotImplemented,
}

/// Static assets: a missing path or a directory is not found, a file is
/// served, anything else is not implemented.
pub fn static_outcome(kind: Option<EntryKind>) -> (r: StaticOutcome)
    ensures
        kind is None ==> r is NotFound,
        kind matches Some(k) ==> match k {
            EntryKind::Dir => r is NotFound,
            EntryKind::File => r is Serve,
            EntryKind::Other => r is NotImplemented,
        },
{
    match kind {
        None => StaticOutcome::NotFound,
        Some(EntryKind::Dir) => StaticOutcome::NotFound,
        Some(EntryKind::File) => StaticOutcome::Serve,
        Some(EntryKind::Other) => StaticOutcome::NotImplemented,
    }
}

/// The answer to a request for a path of the served directory tree.
#[derive(Clone, Copy, Debug)]
pub enum BrowseOutcome {
    /// The path cannot be read: an empty listing page.
    EmptyPage,
    /// A file: sent as an attachment.
    Download,
    /// Anything else: its directory listing.
    Listing,
}

/// Served tree: unreadable paths give an empty page, files are downloaded,
/// everything else is listed.
pub fn browse_outcome(kind: Option<EntryKind>) -> (r: BrowseOutcome)
    ensures
        kind is None ==> r is EmptyPage,
        kind matches Some(k) ==> match k {
            EntryKind::File => r is Download,
            _ => r is Listing,
        },
{
    match kind {
        None => BrowseOutcome::EmptyPage,
        Some(EntryKind::File) => BrowseOutcome::Download,
        Some(_) => BrowseOutcome::Listing,
    }
}

/// The final component of a path (`std::path::Path::file_name`).
pub uninterp spec fn path_file_name(p: Seq<char>) -> Option<Seq<char>>;

/// `Path::new(p).file_name()`, as text. Trusted: the result is
/// `path_file_name` of `p`, a function of the characters of `p` alone.
#[verifier::external_body]
pub(crate) fn file_name_of(p: &str) -> (r: Option<String>)
    ensures
        match r {
            Some(n) => path_file_name(p@) == Some(n@),
            None => path_file_name(p@) is None,
        },
{
    std::path::Path::new(p).file_name().map(|n| n.to_string_lossy().into_owned())
}

/// The MIME type that `mime_guess` gives a path, octet-stream when unknown.
pub uninterp spec fn mime_essence(p: Seq<char>) -> Seq<char>;

/// `mime_guess::from_path(p).first_or_octet_stream().essence_str()`.
/// Trusted: the result is `mime_essence` of `p`, a function of `p` alone.
#[verifier::external_body]
pub(crate) fn mime_type_of(p: &str) -> (r: String)
    ensures
        r@ == mime_essence(p@),
{
    mime_guess::from_path(p).first_or_octet_stream().essence_str().to_owned()
}

/// The name that a download offers: the path's final component, else `file.bin`.
pub open spec fn offered_name(name: Option<Seq<char>>) -> Seq<char> {
    match name {
        Some(n) => n,
        None => "file.bin"@,
    }
}

/// `Content-Disposition` of a static asset shown inline.
pub open spec fn inline_disposition_text(name: Option<Seq<char>>) -> Seq<char> {
    "filename=\"file.bin\"; filename*=UTF-8''"@ + offered_name(name) + " "@
}

/// `Content-Disposition` of a file of the served tree.
pub open spec fn attachment_disposition_text(name: Option<Seq<char>>) -> Seq<char> {
    "attachment; filename=\"file.bin\"; filename*=UTF-8''"@ + offered_name(name) + " "@
}

/// The inline `Content-Disposition` for a file whose final path component is `name`.
pub fn inline_disposition_for(name: Option<&str>) -> (r: String)
    ensures
        r@ == inline_disposition_text(match name { Some(n) => Some(n@), None => None }),
{
    let mut v: Vec<char> = Vec::new();
    push_str(&mut v, "filename=\"file.bin\"; filename*=UTF-8''");
    match name {
        Some(n) => push_str(&mut v, n),
        None => push_str(&mut v, "file.bin"),
    }
    push_str(&mut v, " ");
    string_of(&v)
}

/// The attachment `Content-Disposition` for a file whose final path component is `name`.
pub fn attachment_disposition_for(name: Option<&str>) -> (r: String)
    ensures
        r@ == attachment_disposition_text(match name { Some(n) => Some(n@), None => None }),
{
    let mut v: Vec<char> = Vec::new();
    push_str(&mut v, "attachment; filename=\"file.bin\"; filename*=UTF-8''");
    match name {
        Some(n) => push_str(&mut v, n),
        None => push_str(&mut v, "file.bin"),
    }
    push_str(&mut v, " ");
    string_of(&v)
}

/// Headers of a static asset.
pub struct StaticHeaders {
    pub content_type: String,
    pub disposition: String,
}

/// The headers with which the static asset at `path` is served.
pub fn static_headers(path: &str) -> (h: StaticHeaders)
    ensures
        h.content_type@ == mime_essence(path@),
        h.disposition@ == inline_disposition_text(path_file_name(path@)),
{
    let name = file_name_of(path);
    let disposition = match &name {
        Some(n) => inline_disposition_for(Some(n.as_str())),
        None => inline_disposition_for(None),
    };
    StaticHeaders { content_type: mime_type_of(path), disposition }
}

/// The attachment `Content-Disposition` with which the file at `path` is downloaded.
pub fn download_disposition(path: &str) -> (r: String)
    ensures
        r@ == attachment_disposition_text(path_file_name(path@)),
{
    match file_name_of(path) {
        Some(n) => attachment_disposition_for(Some(n.as_str())),
        None => attachment_disposition_for(None),
    }
}

// ---------------------------------------------------------------------
// README cache
// ---------------------------------------------------------------------

/// A cached `README.md`: the modification time it was read at and its text.
pub struct MdInfo {
    pub time: Timestamp,
    pub source: String,
}

/// The abstract value of an [`MdInfo`].
pub struct MdView {
    pub time: Timestamp,
    pub source: Seq<char>,
}

impl View for MdInfo {
    type V = MdView;

    open spec fn view(&self) -> MdView {
        MdView { time: self.time, source: self.source@ }
    }
}

/// Cached `README.md` texts, keyed by the file's path.
pub type MdCache = NameMap<MdInfo>;

/// Whether a directory entry is the directory's `README.md`.
pub fn is_readme(name: &str) -> (r: bool)
    ensures
        r == (name@ == "README.md"@),
{
    str_eq(name, "README.md")
}

/// The cached text for `key` when the file, modified at `modified`, has not
/// changed since it was cached: its modification time is the one the text
/// was cached at. Any other time, earlier or later, means the file was
/// replaced and must be read again.
pub open spec fn readme_hit(cache: Map<Seq<char>, MdView>, key: Seq<char>, modified: Timestamp) -> Option<Seq<char>> {
    if cache.contains_key(key) && cache[key].time == modified {
        Some(cache[key].source)
    } else {
        None
    }
}

/// The text of `README.md` at `key` from the cache, when it is still current.
pub fn cached_readme(cache: &MdCache, key: &String, modified: Timestamp) -> (r: Option<String>)
    ensures
        match r {
            Some(s) => readme_hit(cache@, key@, modified) == Some(s@),
            None => readme_hit(cache@, key@, modified) is None,
        },
{
    match cache.get(key) {
        Some(info) => {
            if modified.secs == info.time.secs && modified.nanos == info.time.nanos {
                Some(info.source.clone())
            } else {
                None
            }
        },
        None => None,
    }
}

/// The text of a `README.md` read as `bytes`: its UTF-8 text, or empty when
/// it is not UTF-8.
pub open spec fn markdown_text(bytes: Seq<u8>) -> Seq<char> {
    match utf8_text(bytes) {
        Some(t) => t,
        None => Seq::empty(),
    }
}

/// Takes the freshly read `bytes` of the `README.md` at `key`, modified at
/// `modified`: caches its text under `key` and returns it.
pub fn store_readme(cache: &mut MdCache, key: String, modified: Timestamp, bytes: &[u8]) -> (r: String)
    ensures
        r@ == markdown_text(bytes@),
        final(cache)@ == old(cache)@.insert(key@, MdView { time: modified, source: r@ }),
{
    let text = utf8_or_empty(bytes);
    let r = text.clone();
    cache.insert(key, MdInfo { time: modified, source: text });
    r
}

/// What to do after visiting a directory entry.
pub struct Visit {
    /// The entry is the directory's `README.md` and the cache does not hold
    /// its current text: read the file and hand its bytes to `load_readme`.
    pub load_readme: bool,
    /// The modification time of a file could not be rendered.
    pub fault: bool,
}

/// A directory listing being built: its entries and the text of its `README.md`.
pub struct DirListing {
    pub catalog: Catalog,
    pub markdown: String,
}

impl DirListing {
    /// A listing with no entries and no `README.md` text.
    pub fn new() -> (l: DirListing)
        ensures
            l.catalog.dirs@ == Map::<Seq<char>, ElementView>::empty(),
            l.catalog.files@ == Map::<Seq<char>, ElementView>::empty(),
            l.markdown@.len() == 0,
    {
        DirListing { catalog: Catalog::new(), markdown: String::new() }
    }

    /// Visits the entry `name`, whose path is `key`, with its metadata or
    /// `None` when the metadata cannot be read (then it is passed over).
    /// A `README.md` takes its text from the cache when the cached text is
    /// current, else asks to be loaded. The entry is then recorded among the
    /// files or the directories.
    pub fn visit(&mut self, cache: &MdCache, name: String, key: &String, meta: &Option<EntryMeta>) -> (v: Visit)
        ensures
            meta is None ==> !v.load_readme && !v.fault
                && final(self).markdown@ == old(self).markdown@
                && final(self).catalog.dirs@ == old(self).catalog.dirs@
                && final(self).catalog.files@ == old(self).catalog.files@,
            meta matches Some(m) ==> {
                &&& (name@ == "README.md"@ && readme_hit(cache@, key@, m.modified) is None) == v.load_readme
                &&& (name@ == "README.md"@ && readme_hit(cache@, key@, m.modified) is Some)
                    ==> final(self).markdown@ == readme_hit(cache@, key@, m.modified)->0
                &&& !(name@ == "README.md"@ && readme_hit(cache@, key@, m.modified) is Some)
                    ==> final(self).markdown@ == old(self).markdown@
                &&& !m.is_file ==> !v.fault
                    && final(self).catalog.dirs@ == old(self).catalog.dirs@.insert(name@, dir_view())
                    && final(self).catalog.files@ == old(self).catalog.files@
                &&& m.is_file && calendar_representable(m.modified) ==> !v.fault
                &&& m.is_file && v.fault ==> final(self).catalog.dirs@ == old(self).catalog.dirs@
                    && final(self).catalog.files@ == old(self).catalog.files@
                &&& m.is_file && !v.fault ==> final(self).catalog.dirs@ == old(self).catalog.dirs@
                    && final(self).catalog.files@.dom() == old(self).catalog.files@.dom().insert(name@)
                    && is_file_view(final(self).catalog.files@[name@], m.size, m.modified)
                    && (forall|k: Seq<char>| k != name@ && old(self).catalog.files@.contains_key(k)
                        ==> final(self).catalog.files@[k] == old(self).catalog.files@[k])
            },
    {
        let m = match meta {
            Some(m) => m,
            None => return Visit { load_readme: false, fault: false },
        };
        let mut load_readme = false;
        if is_readme(name.as_str()) {
            match cached_readme(cache, key, m.modified) {
                Some(text) => self.markdown = text,
                None => load_readme = true,
            }
        }
        match element_for(m.is_file, m.size, m.modified) {
            Some(e) => {
                let ghost ev = e@;
                self.catalog.record(name, e);
                proof {
                    if m.is_file {
                        assert(final(self).catalog.files@.contains_key(name@));
                    }
                }
                Visit { load_readme, fault: false }
            },
            None => Visit { load_readme, fault: true },
        }
    }

    /// Takes the bytes of the `README.md` at `key`, modified at `modified`:
    /// caches its text and makes it the listing's `README.md` text.
    pub fn load_readme(&mut self, cache: &mut MdCache, key: String, modified: Timestamp, bytes: &[u8])
        ensures
            final(self).markdown@ == markdown_text(bytes@),
            final(cache)@ == old(cache)@.insert(key@, MdView { time: modified, source: markdown_text(bytes@) }),
            final(self).catalog.dirs@ == old(self).catalog.dirs@,
            final(self).catalog.files@ == old(self).catalog.files@,
    {
        self.markdown = store_readme(cache, key, modified, bytes);
    }
}

/// A `README.md` text just stored is what the cache serves for that path on
/// every later visit while the file keeps the modification time it was
/// stored with.
pub proof fn lemma_stored_readme_is_served(
    cache: Map<Seq<char>, MdView>,
    key: Seq<char>,
    stored_at: Timestamp,
    text: Seq<char>,
)
    ensures
        readme_hit(cache.insert(key, MdView { time: stored_at, source: text }), key, stored_at)
            == Some(text),
{
}

/// A file whose modification time differs from the one its text was cached
/// with, earlier or later, is never answered from the cache.
pub proof fn lemma_changed_readme_is_reloaded(
    cache: Map<Seq<char>, MdView>,
    key: Seq<char>,
    modified: Timestamp,
)
    requires
        cache.contains_key(key),
        cache[key].time != modified,
    ensures
        readme_hit(cache, key, modified) is None,
{
}

/// Storing the `README.md` of one path leaves what the cache serves for
/// every other path unchanged.
pub proof fn lemma_store_keeps_other_paths(
    cache: Map<Seq<char>, MdView>,
    key: Seq<char>,
    stored: MdView,
    other: Seq<char>,
    modified: Timestamp,
)
    requires
        other != key,
    ensures
        readme_hit(cache.insert(key, stored), other, modified) == readme_hit(cache, other, modified),
{
}

} // verus!
