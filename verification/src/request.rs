//! The request line and `Host` header of a raw HTTP/1.1 request.

use vstd::prelude::*;
use crate::encoding::{percent_decoded_text, url_decode};
use crate::text::{lemma_split_on_concat, lemma_split_on_without, split_chars, split_on, chars_of, is_ws, trim_start_ws, char_is_ws, slice_eq, starts_with, starts_with_chars, string_of, trim_ws, trim_ws_chars};

verus! {

/// The request methods that are understood.
#[allow(non_camel_case_types)]
#[derive(Clone, Copy, Debug, Default)]
pub enum Method {
    #[default]
    GET,
    POST,
    PUT,
    DELETE,
    UPDATE,
}

/// The method that a token names, if any.
pub open spec fn method_of(t: Seq<char>) -> Option<Method> {
    if t == "GET"@ {
        Some(Method::GET)
    } else if t == "POST"@ {
        Some(Method::POST)
    } else if t == "PUT"@ {
        Some(Method::PUT)
    } else if t == "DELETE"@ {
        Some(Method::DELETE)
    } else if t == "UPDATE"@ {
        Some(Method::UPDATE)
    } else {
        None
    }
}

impl Method {
    /// The method named by the characters `t`.
    pub fn parse_chars(t: &[char]) -> (r: Option<Method>)
        ensures
            r == method_of(t@),
    {
        if slice_eq(t, &chars_of("GET")) {
            Some(Method::GET)
        } else if slice_eq(t, &chars_of("POST")) {
            Some(Method::POST)
        } else if slice_eq(t, &chars_of("PUT")) {
            Some(Method::PUT)
        } else if slice_eq(t, &chars_of("DELETE")) {
            Some(Method::DELETE)
        } else if slice_eq(t, &chars_of("UPDATE")) {
            Some(Method::UPDATE)
        } else {
            None
        }
    }

    /// The method named exactly by `s` (case-sensitive), if any.
    pub fn parse(s: &str) -> (r: Option<Method>)
        ensures
            r == method_of(s@),
    {
        let t = chars_of(s);
        Method::parse_chars(&t)
    }
}

// ---------------------------------------------------------------------
// Lines and tokens
// ---------------------------------------------------------------------

/// A line without the `\r` of a `\r\n` line ending.
pub open spec fn strip_cr(l: Seq<char>) -> Seq<char> {
    if l.len() > 0 && l.last() == '\r' {
        l.drop_last()
    } else {
        l
    }
}

/// The lines of `s` (`str::lines`): split at `\n`, a `\r` just before a
/// `\n` dropped, and no final empty line after a closing `\n`.
pub open spec fn lines(s: Seq<char>) -> Seq<Seq<char>> {
    let p = split_on(s, '\n');
    if s.len() == 0 || s.last() == '\n' {
        p.drop_last().map_values(|l: Seq<char>| strip_cr(l))
    } else {
        p.drop_last().map_values(|l: Seq<char>| strip_cr(l)).push(p.last())
    }
}

/// The whitespace-separated tokens of `s` (`str::split_whitespace`).
pub open spec fn ws_tokens(s: Seq<char>) -> Seq<Seq<char>>
    decreases s.len(),
{
    if s.len() == 0 {
        Seq::empty()
    } else if is_ws(s.last()) {
        ws_tokens(s.drop_last())
    } else if s.len() == 1 || is_ws(s[s.len() - 2]) {
        ws_tokens(s.drop_last()).push(seq![s.last()])
    } else {
        let t = ws_tokens(s.drop_last());
        t.update(t.len() - 1, t.last().push(s.last()))
    }
}

/// The value of the last `Host:` header line before the first empty line,
/// starting from `acc`.
pub open spec fn host_scan(ls: Seq<Seq<char>>, acc: Option<Seq<char>>) -> Option<Seq<char>>
    decreases ls.len(),
{
    if ls.len() == 0 || ls[0].len() == 0 {
        acc
    } else {
        let next = if starts_with(ls[0], "Host:"@) {
            Some(trim_ws(ls[0].skip(5)))
        } else {
            acc
        };
        host_scan(ls.drop_first(), next)
    }
}

/// Header lines other than `Host:` lines do not change the host: among the
/// header lines (all non-empty, before the first empty line), inserting a
/// non-empty line that does not start with `Host:`, before or after the
/// `Host:` line, leaves the host as it was.
pub proof fn lemma_other_headers_keep_host(
    pre: Seq<Seq<char>>,
    l: Seq<char>,
    post: Seq<Seq<char>>,
    acc: Option<Seq<char>>,
)
    requires
        forall|i: int| 0 <= i < pre.len() ==> #[trigger] pre[i].len() > 0,
        l.len() > 0,
        !starts_with(l, "Host:"@),
    ensures
        host_scan(pre + seq![l] + post, acc) == host_scan(pre + post, acc),
    decreases pre.len(),
{
    let s = pre + seq![l] + post;
    let t = pre + post;
    if pre.len() == 0 {
        assert(s[0] == l);
        assert(s.drop_first() =~= post);
        assert(t =~= post);
    } else {
        assert(s[0] == pre[0]);
        assert(t[0] == pre[0]);
        assert(pre[0].len() > 0);
        let next = if starts_with(pre[0], "Host:"@) { Some(trim_ws(pre[0].skip(5))) } else { acc };
        let rest = pre.drop_first();
        assert(forall|i: int| 0 <= i < rest.len() ==> #[trigger] rest[i].len() > 0) by {
            assert forall|i: int| 0 <= i < rest.len() implies #[trigger] rest[i].len() > 0 by {
                assert(rest[i] == pre[i + 1]);
            }
        }
        lemma_other_headers_keep_host(rest, l, post, next);
        assert(s.drop_first() =~= rest + seq![l] + post);
        assert(t.drop_first() =~= rest + post);
    }
}

/// A `Host:` line gives the host, its value with surrounding whitespace
/// removed, when it is the last `Host:` line of the headers: what follows
/// it up to the first empty line holds no other `Host:` line, and nothing
/// after the empty line counts.
pub proof fn lemma_last_host_line_gives_host(
    pre: Seq<Seq<char>>,
    h: Seq<char>,
    others: Seq<Seq<char>>,
    tail: Seq<Seq<char>>,
    acc: Option<Seq<char>>,
)
    requires
        forall|i: int| 0 <= i < pre.len() ==> #[trigger] pre[i].len() > 0,
        starts_with(h, "Host:"@),
        forall|i: int| 0 <= i < others.len() ==> (#[trigger] others[i]).len() > 0 && !starts_with(others[i], "Host:"@),
    ensures
        host_scan(pre + seq![h] + others + seq![Seq::<char>::empty()] + tail, acc)
            == Some(trim_ws(h.skip(5))),
    decreases pre.len(),
{
    let s = pre + seq![h] + others + seq![Seq::<char>::empty()] + tail;
    if pre.len() == 0 {
        assert(h.len() > 0) by { reveal_strlit("Host:"); }
        assert(s[0] == h);
        let after = others + seq![Seq::<char>::empty()] + tail;
        assert(s.drop_first() =~= after);
        lemma_non_host_lines_keep_acc(others, tail, Some(trim_ws(h.skip(5))));
    } else {
        assert(s[0] == pre[0]);
        assert(pre[0].len() > 0);
        let next = if starts_with(pre[0], "Host:"@) { Some(trim_ws(pre[0].skip(5))) } else { acc };
        let rest = pre.drop_first();
        assert forall|i: int| 0 <= i < rest.len() implies #[trigger] rest[i].len() > 0 by {
            assert(rest[i] == pre[i + 1]);
        }
        lemma_last_host_line_gives_host(rest, h, others, tail, next);
        assert(s.drop_first() =~= rest + seq![h] + others + seq![Seq::<char>::empty()] + tail);
    }
}

/// Non-empty lines that are not `Host:` lines, then an empty line, leave
/// the host found so far.
proof fn lemma_non_host_lines_keep_acc(others: Seq<Seq<char>>, tail: Seq<Seq<char>>, acc: Option<Seq<char>>)
    requires
        forall|i: int| 0 <= i < others.len() ==> (#[trigger] others[i]).len() > 0 && !starts_with(others[i], "Host:"@),
    ensures
        host_scan(others + seq![Seq::<char>::empty()] + tail, acc) == acc,
    decreases others.len(),
{
    let s = others + seq![Seq::<char>::empty()] + tail;
    if others.len() == 0 {
        assert(s[0] == Seq::<char>::empty());
    } else {
        assert(s[0] == others[0]);
        let rest = others.drop_first();
        assert forall|i: int| 0 <= i < rest.len() implies
            (#[trigger] rest[i]).len() > 0 && !starts_with(rest[i], "Host:"@) by {
            assert(rest[i] == others[i + 1]);
        }
        lemma_non_host_lines_keep_acc(rest, tail, acc);
        assert(s.drop_first() =~= rest + seq![Seq::<char>::empty()] + tail);
    }
}

fn strip_cr_chars(l: &[char]) -> (r: Vec<char>)
    ensures
        r@ == strip_cr(l@),
{
    let n = if l.len() > 0 && l[l.len() - 1] == '\r' { l.len() - 1 } else { l.len() };
    let mut r: Vec<char> = Vec::new();
    let mut i: usize = 0;
    while i < n
        invariant
            n <= l.len(),
            i <= n,
            r@ == l@.take(i as int),
        decreases n - i,
    {
        r.push(l[i]);
        i = i + 1;
        assert(r@ =~= l@.take(i as int));
    }
    assert(l@.take(n as int) =~= strip_cr(l@));
    r
}

/// The lines of `s`.
pub fn lines_chars(s: &[char]) -> (r: Vec<Vec<char>>)
    ensures
        r@.map_values(|l: Vec<char>| l@) == lines(s@),
{
    let pieces = split_chars(s, '\n');
    let ghost p = split_on(s@, '\n');
    proof { crate::text::lemma_split_on_nonempty(s@, '\n'); }
    assert(pieces@.len() == p.len());
    let mut r: Vec<Vec<char>> = Vec::new();
    let last = pieces.len() - 1;
    let mut i: usize = 0;
    while i < last
        invariant
            last + 1 == pieces@.len(),
            pieces@.map_values(|l: Vec<char>| l@) == p,
            i <= last,
            r@.map_values(|l: Vec<char>| l@) == p.take(i as int).map_values(|l: Seq<char>| strip_cr(l)),
        decreases last - i,
    {
        assert(pieces@[i as int]@ == p[i as int]);
        let l = strip_cr_chars(&pieces[i]);
        let ghost old_r = r@.map_values(|l: Vec<char>| l@);
        let ghost lv = l@;
        r.push(l);
        assert(r@.map_values(|l: Vec<char>| l@) =~= old_r.push(lv));
        assert(p.take(i + 1).map_values(|l: Seq<char>| strip_cr(l))
            =~= p.take(i as int).map_values(|l: Seq<char>| strip_cr(l)).push(strip_cr(p[i as int])));
        i = i + 1;
    }
    assert(p.take(last as int) =~= p.drop_last());
    if !(s.len() == 0 || s[s.len() - 1] == '\n') {
        assert(pieces@[last as int]@ == p.last());
        let mut lastp: Vec<char> = Vec::new();
        crate::text::push_chars(&mut lastp, &pieces[last]);
        r.push(lastp);
        assert(r@.map_values(|l: Vec<char>| l@)
            =~= p.drop_last().map_values(|l: Seq<char>| strip_cr(l)).push(p.last()));
    }
    r
}

/// The whitespace-separated tokens of `s`.
pub fn ws_tokens_chars(s: &[char]) -> (r: Vec<Vec<char>>)
    ensures
        r@.map_values(|t: Vec<char>| t@) == ws_tokens(s@),
{
    let mut done: Vec<Vec<char>> = Vec::new();
    let mut cur: Vec<char> = Vec::new();
    let mut i: usize = 0;
    assert(s@.take(0) =~= Seq::<char>::empty());
    while i < s.len()
        invariant
            i <= s.len(),
            cur@.len() > 0 ==> i > 0 && !is_ws(s@[i - 1]),
            cur@.len() == 0 ==> i == 0 || is_ws(s@[i - 1]),
            cur@.len() == 0 ==> done@.map_values(|t: Vec<char>| t@) == ws_tokens(s@.take(i as int)),
            cur@.len() > 0 ==> done@.map_values(|t: Vec<char>| t@).push(cur@) == ws_tokens(s@.take(i as int)),
        decreases s.len() - i,
    {
        let ghost pre = s@.take(i as int);
        let ghost next = s@.take(i + 1);
        assert(next.drop_last() =~= pre);
        assert(next.last() == s@[i as int]);
        if char_is_ws(s[i]) {
            if cur.len() > 0 {
                let piece = cur;
                cur = Vec::new();
                done.push(piece);
                assert(done@.map_values(|t: Vec<char>| t@) =~= ws_tokens(pre));
            }
        } else {
            let ghost old_done = done@.map_values(|t: Vec<char>| t@);
            if cur.len() == 0 {
                assert(i == 0 || pre.last() == s@[i - 1]);
            } else {
                assert(next[next.len() - 2] == s@[i - 1]);
            }
            cur.push(s[i]);
            if cur.len() == 1 {
                assert(cur@ =~= seq![s@[i as int]]);
            } else {
                assert(old_done.push(cur@) =~= ws_tokens(pre).update(
                    ws_tokens(pre).len() - 1, ws_tokens(pre).last().push(s@[i as int])));
            }
        }
        i = i + 1;
    }
    assert(s@.take(s.len() as int) =~= s@);
    if cur.len() > 0 {
        done.push(cur);
    }
    done
}

/// The value of the last `Host:` line among `ls[1..]`, before the first empty line.
fn host_of_lines(ls: &Vec<Vec<char>>) -> (r: Option<Vec<char>>)
    requires
        ls@.len() >= 1,
    ensures
        match host_scan(ls@.map_values(|l: Vec<char>| l@).skip(1), None) {
            Some(h) => r matches Some(v) && v@ == h,
            None => r is None,
        },
{
    let ghost views = ls@.map_values(|l: Vec<char>| l@);
    let mut acc: Option<Vec<char>> = None;
    let mut k: usize = 1;
    let host_prefix = chars_of("Host:");
    while k < ls.len() && ls[k].len() != 0
        invariant
            1 <= k <= ls@.len(),
            views == ls@.map_values(|l: Vec<char>| l@),
            host_prefix@ == "Host:"@,
            host_scan(views.skip(1), None) == host_scan(views.skip(k as int),
                match acc { Some(v) => Some(v@), None => None }),
        decreases ls@.len() - k,
    {
        let line = &ls[k];
        assert(views.skip(k as int)[0] == line@);
        assert(views.skip(k as int).drop_first() =~= views.skip(k + 1));
        if starts_with_chars(line, &host_prefix) {
            proof {
                assert(("Host:"@).len() == 5) by { reveal_strlit("Host:"); }
            }
            let mut rest: Vec<char> = Vec::new();
            let mut j: usize = 5;
            while j < line.len()
                invariant
                    5 <= j <= line@.len(),
                    rest@ == line@.subrange(5, j as int),
                decreases line@.len() - j,
            {
                rest.push(line[j]);
                j = j + 1;
                assert(rest@ =~= line@.subrange(5, j as int));
            }
            assert(rest@ =~= line@.skip(5));
            acc = Some(trim_ws_chars(&rest));
        }
        k = k + 1;
    }
    proof {
        if k < ls@.len() {
            assert(views.skip(k as int)[0] == ls@[k as int]@);
        }
    }
    acc
}

// ---------------------------------------------------------------------
// What a client writes is what the parser reads
// ---------------------------------------------------------------------

/// The name of a method on the request line.
pub open spec fn method_name(m: Method) -> Seq<char> {
    match m {
        Method::GET => "GET"@,
        Method::POST => "POST"@,
        Method::PUT => "PUT"@,
        Method::DELETE => "DELETE"@,
        Method::UPDATE => "UPDATE"@,
    }
}

/// `t` holds no whitespace.
pub open spec fn no_ws(t: Seq<char>) -> bool {
    forall|i: int| 0 <= i < t.len() ==> !is_ws(#[trigger] t[i])
}

proof fn lemma_method_names()
    ensures
        forall|m: Method| #[trigger] method_of(method_name(m)) == Some(m),
        forall|m: Method| method_name(m).len() > 0 && no_ws(#[trigger] method_name(m)),
{
    reveal_strlit("GET");
    reveal_strlit("POST");
    reveal_strlit("PUT");
    reveal_strlit("DELETE");
    reveal_strlit("UPDATE");
    assert("GET"@.len() == 3 && "PUT"@.len() == 3 && "POST"@.len() == 4);
    assert("DELETE"@.len() == 6 && "UPDATE"@.len() == 6);
    assert("GET"@[0] != "PUT"@[0]);
    assert("DELETE"@[0] != "UPDATE"@[0]);
    assert("GET"@ != "POST"@);
    assert("PUT"@ != "POST"@);
    assert("DELETE"@ != "GET"@ && "DELETE"@ != "POST"@ && "DELETE"@ != "PUT"@);
    assert("UPDATE"@ != "GET"@ && "UPDATE"@ != "POST"@ && "UPDATE"@ != "PUT"@);
}

/// Method names are matched case-sensitively in capitals: a text without
/// ASCII capital letters, such as any result of `listing::lowercase`,
/// names no method.
pub proof fn lemma_method_needs_capitals(t: Seq<char>)
    requires
        crate::listing::no_ascii_capitals(t),
    ensures
        method_of(t) is None,
{
    reveal_strlit("GET");
    reveal_strlit("POST");
    reveal_strlit("PUT");
    reveal_strlit("DELETE");
    reveal_strlit("UPDATE");
    if t.len() > 0 {
        assert(!('A' <= t[0] && t[0] <= 'Z'));
    }
    assert(t != "GET"@) by { if t == "GET"@ { assert(t[0] == 'G'); } }
    assert(t != "POST"@) by { if t == "POST"@ { assert(t[0] == 'P'); } }
    assert(t != "PUT"@) by { if t == "PUT"@ { assert(t[0] == 'P'); } }
    assert(t != "DELETE"@) by { if t == "DELETE"@ { assert(t[0] == 'D'); } }
    assert(t != "UPDATE"@) by { if t == "UPDATE"@ { assert(t[0] == 'U'); } }
}

/// A text with a last character that is not whitespace has a token.
proof fn lemma_ws_tokens_nonempty(s: Seq<char>)
    requires
        s.len() > 0,
        !is_ws(s.last()),
    ensures
        ws_tokens(s).len() > 0,
    decreases s.len(),
{
    if s.len() > 1 && !is_ws(s[s.len() - 2]) {
        assert(s.drop_last().last() == s[s.len() - 2]);
        lemma_ws_tokens_nonempty(s.drop_last());
    }
}

/// A nonempty text without whitespace is a single token.
proof fn lemma_ws_tokens_single(x: Seq<char>)
    requires
        x.len() > 0,
        no_ws(x),
    ensures
        ws_tokens(x) == seq![x],
    decreases x.len(),
{
    let x1 = x.drop_last();
    assert(!is_ws(x[x.len() - 1]));
    if x1.len() == 0 {
        assert(seq![x.last()] =~= x);
        assert(ws_tokens(x1) =~= Seq::<Seq<char>>::empty());
        assert(ws_tokens(x) =~= seq![x]);
    } else {
        assert(no_ws(x1)) by {
            assert forall|i: int| 0 <= i < x1.len() implies !is_ws(#[trigger] x1[i]) by {
                assert(x1[i] == x[i]);
            }
        }
        lemma_ws_tokens_single(x1);
        assert(!is_ws(x[x.len() - 2]));
        assert(x1.push(x.last()) =~= x);
        assert(ws_tokens(x) =~= seq![x]);
    }
}

/// Tokens on both sides of a whitespace character are split independently.
proof fn lemma_ws_tokens_concat(x: Seq<char>, c: char, y: Seq<char>)
    requires
        is_ws(c),
    ensures
        ws_tokens(x + seq![c] + y) == ws_tokens(x) + ws_tokens(y),
    decreases y.len(),
{
    let s = x + seq![c] + y;
    if y.len() == 0 {
        assert(s.drop_last() =~= x);
        assert(ws_tokens(y) =~= Seq::<Seq<char>>::empty());
        assert(ws_tokens(x) + ws_tokens(y) =~= ws_tokens(x));
    } else {
        let y1 = y.drop_last();
        let d = y.last();
        assert(s.drop_last() =~= x + seq![c] + y1);
        assert(s.last() == d);
        lemma_ws_tokens_concat(x, c, y1);
        let tx = ws_tokens(x);
        let ty1 = ws_tokens(y1);
        if is_ws(d) {
        } else if y1.len() == 0 {
            assert(s[s.len() - 2] == c);
            assert(y.len() == 1);
            assert(ws_tokens(y1) =~= Seq::<Seq<char>>::empty());
            assert(ws_tokens(y) =~= seq![seq![d]]);
            assert((tx + ty1).push(seq![d]) =~= tx + ws_tokens(y));
        } else if is_ws(y1.last()) {
            assert(s[s.len() - 2] == y1.last());
            assert(y[y.len() - 2] == y1.last());
            assert((tx + ty1).push(seq![d]) =~= tx + ty1.push(seq![d]));
        } else {
            assert(s[s.len() - 2] == y1.last());
            assert(y[y.len() - 2] == y1.last());
            lemma_ws_tokens_nonempty(y1);
            let t = tx + ty1;
            assert(t.update(t.len() - 1, t.last().push(d))
                =~= tx + ty1.update(ty1.len() - 1, ty1.last().push(d)));
        }
    }
}

/// `trim_ws` of a text led by a space is `trim_ws` of the rest.
proof fn lemma_trim_ws_leading_space(h: Seq<char>)
    ensures
        trim_ws(seq![' '] + h) == trim_ws(h),
{
    let s = seq![' '] + h;
    assert(s.drop_first() =~= h);
    assert(is_ws(s[0]));
    assert(trim_start_ws(s) == trim_start_ws(h));
}

/// The text of a request with only a request line and a `Host` header, as
/// an HTTP/1.1 client writes it.
pub open spec fn request_text(m: Method, route: Seq<char>, version: Seq<char>, host: Seq<char>) -> Seq<char> {
    method_name(m) + seq![' '] + route + seq![' '] + version + seq!['\r', '\n'] + "Host: "@ + host
        + seq!['\r', '\n', '\r', '\n']
}

/// Parsing a request written with a known method, a route and version
/// without whitespace, and a host already trimmed and on one line, gives
/// back that method, the decoded route, the version and the host.
pub proof fn lemma_request_roundtrip(m: Method, route: Seq<char>, version: Seq<char>, host: Seq<char>)
    requires
        route.len() > 0,
        version.len() > 0,
        no_ws(route),
        no_ws(version),
        !host.contains('\n'),
        trim_ws(host) == host,
    ensures
        request_of(request_text(m, route, version, host)) == Some(RequestView {
            route: decoded_route(route),
            method: m,
            host: host,
            http_version: version,
        }),
{
    lemma_method_names();
    reveal_strlit("Host: ");
    reveal_strlit("Host:");
    let name = method_name(m);
    let l1 = name + seq![' '] + route + seq![' '] + version;
    let l2 = "Host: "@ + host;
    let text = request_text(m, route, version, host);

    // The request line splits into its three tokens.
    lemma_ws_tokens_single(name);
    lemma_ws_tokens_single(route);
    lemma_ws_tokens_single(version);
    lemma_ws_tokens_concat(route, ' ', version);
    lemma_ws_tokens_concat(name, ' ', route + seq![' '] + version);
    assert(l1 =~= name + seq![' '] + (route + seq![' '] + version));
    assert(ws_tokens(l1) =~= seq![name, route, version]);

    // The text splits into the request line, the header line and an empty line.
    assert(!l1.contains('\n')) by {
        if l1.contains('\n') {
            let i = choose|i: int| 0 <= i < l1.len() && l1[i] == '\n';
            if i < name.len() {
                assert(l1[i] == name[i]);
                assert(!is_ws(name[i]));
            } else if i == name.len() {
            } else if i < name.len() + 1 + route.len() {
                assert(l1[i] == route[i - name.len() - 1]);
                assert(!is_ws(route[i - name.len() - 1]));
            } else if i == name.len() + 1 + route.len() {
            } else {
                assert(l1[i] == version[i - name.len() - 2 - route.len()]);
                assert(!is_ws(version[i - name.len() - 2 - route.len()]));
            }
        }
    }
    assert(!l2.contains('\n')) by {
        if l2.contains('\n') {
            let i = choose|i: int| 0 <= i < l2.len() && l2[i] == '\n';
            if i >= 6 {
                assert(l2[i] == host[i - 6]);
                assert(host.contains('\n'));
            }
        }
    }
    let a = l1.push('\r');
    let b = l2.push('\r');
    let cr = seq!['\r'];
    let empty = Seq::<char>::empty();
    assert(!a.contains('\n')) by {
        if a.contains('\n') {
            let i = choose|i: int| 0 <= i < a.len() && a[i] == '\n';
            assert(l1[i] == '\n');
        }
    }
    assert(!b.contains('\n')) by {
        if b.contains('\n') {
            let i = choose|i: int| 0 <= i < b.len() && b[i] == '\n';
            assert(l2[i] == '\n');
        }
    }
    assert(!cr.contains('\n')) by {
        if cr.contains('\n') {
            let i = choose|i: int| 0 <= i < cr.len() && cr[i] == '\n';
        }
    }
    assert(!empty.contains('\n'));
    assert(text =~= a + seq!['\n'] + (b + seq!['\n'] + (cr + seq!['\n'] + empty)));
    lemma_split_on_concat(cr, '\n', empty);
    lemma_split_on_concat(b, '\n', cr + seq!['\n'] + empty);
    lemma_split_on_concat(a, '\n', b + seq!['\n'] + (cr + seq!['\n'] + empty));
    lemma_split_on_without(a, '\n');
    lemma_split_on_without(b, '\n');
    lemma_split_on_without(cr, '\n');
    lemma_split_on_without(empty, '\n');
    let p = split_on(text, '\n');
    assert(p =~= seq![a, b, cr, empty]);
    assert(text.last() == '\n');
    assert(a.drop_last() =~= l1);
    assert(b.drop_last() =~= l2);
    assert(cr.drop_last() =~= empty);
    let ls = lines(text);
    assert(ls =~= seq![l1, l2, empty]);

    // The header line gives the host.
    assert(l2.take(5) =~= "Host:"@);
    assert(l2.skip(5) =~= seq![' '] + host);
    lemma_trim_ws_leading_space(host);
    let rest = ls.skip(1);
    assert(rest =~= seq![l2, empty]);
    assert(rest.drop_first() =~= seq![empty]);
    assert(host_scan(rest.drop_first(), Some(host)) == Some(host));
    assert(host_scan(rest, None) == Some(host));
}

// ---------------------------------------------------------------------
// Requests
// ---------------------------------------------------------------------

/// The parts of a request before its route is decoded: method, raw route,
/// HTTP version and host.
pub open spec fn raw_request_of(input: Seq<char>) -> Option<(Method, Seq<char>, Seq<char>, Seq<char>)> {
    let ls = lines(input);
    if ls.len() == 0 {
        None
    } else {
        let t = ws_tokens(ls[0]);
        if t.len() < 3 {
            None
        } else {
            match method_of(t[0]) {
                None => None,
                Some(m) => match host_scan(ls.skip(1), None) {
                    None => None,
                    Some(h) => Some((m, t[1], t[2], h)),
                },
            }
        }
    }
}

/// The route after percent-decoding, or empty when the decoded bytes are not UTF-8.
pub open spec fn decoded_route(raw: Seq<char>) -> Seq<char> {
    match percent_decoded_text(raw) {
        Some(t) => t,
        None => Seq::empty(),
    }
}

/// A parsed request.
#[derive(Debug)]
pub struct Request {
    pub route: String,
    pub method: Method,
    pub host: String,
    pub http_version: String,
}

/// The abstract value of a [`Request`].
pub struct RequestView {
    pub route: Seq<char>,
    pub method: Method,
    pub host: Seq<char>,
    pub http_version: Seq<char>,
}

impl View for Request {
    type V = RequestView;

    open spec fn view(&self) -> RequestView {
        RequestView {
            route: self.route@,
            method: self.method,
            host: self.host@,
            http_version: self.http_version@,
        }
    }
}

/// The request that `input` holds: the first line gives the method, the
/// route and the HTTP version as its first three whitespace-separated
/// tokens; the host is the value of the last `Host:` line before the first
/// empty line. The route is percent-decoded.
pub open spec fn request_of(input: Seq<char>) -> Option<RequestView> {
    match raw_request_of(input) {
        Some((m, route, version, host)) => Some(RequestView {
            route: decoded_route(route),
            method: m,
            host: host,
            http_version: version,
        }),
        None => None,
    }
}

impl Request {
    /// Parses the request line and `Host` header of `input`. `None` when
    /// there is no line, the first line has fewer than three tokens, the
    /// method is unknown or no `Host:` line precedes the first empty line.
    pub fn parse(input: &str) -> (r: Option<Request>)
        ensures
            match request_of(input@) {
                Some(v) => r matches Some(q) && q@ == v,
                None => r is None,
            },
    {
        let s = chars_of(input);
        let ls = lines_chars(&s);
        let ghost views = ls@.map_values(|l: Vec<char>| l@);
        if ls.len() == 0 {
            return None;
        }
        assert(views[0] == ls@[0]@);
        let toks = ws_tokens_chars(&ls[0]);
        let ghost tviews = toks@.map_values(|t: Vec<char>| t@);
        if toks.len() < 3 {
            return None;
        }
        assert(tviews[0] == toks@[0]@ && tviews[1] == toks@[1]@ && tviews[2] == toks@[2]@);
        let raw_route = string_of(&toks[1]);
        let route = match url_decode(raw_route.as_str()) {
            Some(t) => t,
            None => String::new(),
        };
        let http_version = string_of(&toks[2]);
        let method = match Method::parse_chars(&toks[0]) {
            Some(m) => m,
            None => return None,
        };
        let host = match host_of_lines(&ls) {
            Some(h) => string_of(&h),
            None => return None,
        };
        Some(Request { route, method, host, http_version })
    }
}

/// The text of request bytes with invalid UTF-8 replaced
/// (`String::from_utf8_lossy`).
pub uninterp spec fn utf8_lossy_text(b: Seq<u8>) -> Seq<char>;

/// `String::from_utf8_lossy`. Trusted: the result is `utf8_lossy_text` of
/// the bytes, a function of the bytes alone, and valid UTF-8 comes back as
/// the text it encodes.
#[verifier::external_body]
fn utf8_lossy(b: &[u8]) -> (r: String)
    ensures
        r@ == utf8_lossy_text(b@),
        crate::encoding::utf8_text(b@) matches Some(t) ==> r@ == t,
{
    String::from_utf8_lossy(b).into_owned()
}

/// Parses the request held by the received bytes, read as UTF-8 with
/// invalid sequences replaced.
pub fn parse_request_bytes(bytes: &[u8]) -> (r: Option<Request>)
    ensures
        match request_of(utf8_lossy_text(bytes@)) {
            Some(v) => r matches Some(q) && q@ == v,
            None => r is None,
        },
{
    let text = utf8_lossy(bytes);
    Request::parse(text.as_str())
}

} // verus!
