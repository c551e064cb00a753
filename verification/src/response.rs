//! Response heads written by the single-threaded file server, and its
//! detection of gzip support in request headers.

use vstd::prelude::*;
use vstd::utf8::encode_utf8;
use crate::browse::{file_name_of, mime_essence, mime_type_of, path_file_name};
use crate::encoding::{str_from_utf8, url_encode, url_encoded, utf8_text};
use crate::clock::civil_fields;
use crate::text::{chars_of, contains, contains_chars, decimal, zero_padded, push_decimal, push_str, starts_with, starts_with_chars, string_of, trim_char, trim_char_chars};
use std::io::Write;

verus! {

// ---------------------------------------------------------------------
// Status line
// ---------------------------------------------------------------------

/// The canonical reason phrase of a status code, if it has one.
pub uninterp spec fn canonical_reason(code: u16) -> Option<Seq<char>>;

/// `hyper::StatusCode::from_u16(code)` followed by `canonical_reason()`.
/// Trusted: the result is `canonical_reason` of the code, a function of the
/// code alone.
#[verifier::external_body]
fn status_reason(code: u16) -> (r: Option<&'static str>)
    requires
        100 <= code <= 999,
    ensures
        match r {
            Some(t) => canonical_reason(code) == Some(t@),
            None => canonical_reason(code) is None,
        },
{
    match hyper::StatusCode::from_u16(code) {
        Ok(s) => s.canonical_reason(),
        Err(_) => None,
    }
}

/// A status as `StatusCode` displays it: the code and its reason phrase.
pub open spec fn status_text(code: u16, reason: Option<Seq<char>>) -> Seq<char> {
    decimal(code as nat) + " "@ + match reason {
        Some(t) => t,
        None => "<unknown status code>"@,
    }
}

/// The head of a plain-text response with the given status text and body.
pub open spec fn response_head_text(status: Seq<char>, body: Seq<char>) -> Seq<char> {
    "HTTP/1.1 "@ + status + "\r\nContent-Type: text/plain; charset=utf-8\r\nContent-Length: "@
        + decimal(encode_utf8(body).len()) + "\r\nConnection: close\r\nCache-Control: max-age=2592000\r\n\r\n"@
}

/// The head of a plain-text response, given the reason phrase of the status.
pub fn response_head_with(code: u16, reason: Option<&str>, body: &str) -> (r: String)
    ensures
        r@ == response_head_text(
            status_text(code, match reason { Some(t) => Some(t@), None => None }),
            body@,
        ),
{
    let mut v: Vec<char> = Vec::new();
    push_str(&mut v, "HTTP/1.1 ");
    let ghost v0 = v@;
    push_decimal(&mut v, code as u64);
    push_str(&mut v, " ");
    match reason {
        Some(t) => push_str(&mut v, t),
        None => push_str(&mut v, "<unknown status code>"),
    }
    let ghost st = status_text(code, match reason { Some(t) => Some(t@), None => None });
    assert(v@ =~= v0 + st);
    push_str(&mut v, "\r\nContent-Type: text/plain; charset=utf-8\r\nContent-Length: ");
    let blen = body.as_bytes().len();
    push_decimal(&mut v, blen as u64);
    push_str(&mut v, "\r\nConnection: close\r\nCache-Control: max-age=2592000\r\n\r\n");
    let r = string_of(&v);
    assert(r@ =~= response_head_text(
        status_text(code, match reason { Some(t) => Some(t@), None => None }), body@));
    r
}

/// The head of a plain-text response with status `code` and the given body.
pub fn response_head(code: u16, body: &str) -> (r: String)
    requires
        100 <= code <= 999,
    ensures
        r@ == response_head_text(status_text(code, canonical_reason(code)), body@),
{
    let reason = status_reason(code);
    response_head_with(code, reason, body)
}

// ---------------------------------------------------------------------
// Static files
// ---------------------------------------------------------------------

/// The English abbreviation of the weekday that lies `days` days after
/// 1970-01-01, a Thursday.
pub open spec fn weekday_name(days: int) -> Seq<char> {
    let w = days % 7;
    if w == 0 { "Thu"@ } else if w == 1 { "Fri"@ } else if w == 2 { "Sat"@ } else if w == 3 { "Sun"@ }
    else if w == 4 { "Mon"@ } else if w == 5 { "Tue"@ } else { "Wed"@ }
}

/// The English abbreviation of month `m` (1 to 12).
pub open spec fn month_name(m: int) -> Seq<char> {
    if m == 1 { "Jan"@ } else if m == 2 { "Feb"@ } else if m == 3 { "Mar"@ } else if m == 4 { "Apr"@ }
    else if m == 5 { "May"@ } else if m == 6 { "Jun"@ } else if m == 7 { "Jul"@ } else if m == 8 { "Aug"@ }
    else if m == 9 { "Sep"@ } else if m == 10 { "Oct"@ } else if m == 11 { "Nov"@ } else { "Dec"@ }
}

/// The HTTP date (IMF-fixdate, `Sun, 06 Nov 1994 08:49:37 GMT`) of a time
/// given in seconds since the Unix epoch, in UTC.
pub open spec fn http_date_text(secs: u64) -> Seq<char> {
    let f = civil_fields(secs as int);
    weekday_name(secs as int / 86400) + ", "@ + zero_padded(f.day as nat, 2) + " "@
        + month_name(f.month as int) + " "@ + zero_padded(f.year as nat, 4) + " "@
        + zero_padded(f.hour as nat, 2) + ":"@ + zero_padded(f.minute as nat, 2) + ":"@
        + zero_padded(f.second as nat, 2) + " GMT"@
}

/// The first time, in seconds since the Unix epoch, that HTTP dates cannot
/// render (the start of the year 10000).
pub open spec fn http_date_limit() -> u64 {
    253402300800
}

/// `httpdate::fmt_http_date(UNIX_EPOCH + secs)`. Trusted: the result is
/// `http_date_text` of `secs`: weekday, two-digit day, month, four-digit
/// year and two-digit time of the UTC calendar date, then `GMT`. It panics
/// from the year 10000 on, which `requires` leaves out.
#[verifier::external_body]
fn http_date(secs: u64) -> (r: String)
    requires
        secs < http_date_limit(),
    ensures
        r@ == http_date_text(secs),
{
    httpdate::fmt_http_date(std::time::UNIX_EPOCH + std::time::Duration::from_secs(secs))
}

/// The name under which a static file is offered: its final path component,
/// else `download.bin`.
pub open spec fn download_name(name: Option<Seq<char>>) -> Seq<char> {
    match name {
        Some(n) => n,
        None => "download.bin"@,
    }
}

/// The head of a static file response.
pub open spec fn static_head_text(
    content_type: Seq<char>,
    name: Option<Seq<char>>,
    body_len: nat,
    date: Seq<char>,
    gzip: bool,
) -> Seq<char> {
    let n = download_name(name);
    "HTTP/1.1 200 OK\r\nContent-Type: "@ + content_type + "; charset=utf-8\r\nContent-Length: "@
        + decimal(body_len) + "\r\nContent-Disposition:  filename=\""@ + n + "\"; filename*=UTF-8''"@
        + url_encoded(encode_utf8(n)) + "\r\nCache-Control: max-age=2592000\r\nLast-Modified: "@ + date
        + "\r\n"@ + (if gzip { "Content-Encoding: gzip\r\nVary: Accept-Encoding\r\n"@ } else { Seq::empty() })
        + "\r\n"@
}

/// The status line and the `Content-Type` line open every static head, with
/// the file's own content type whether or not the body is gzip-encoded.
pub proof fn lemma_static_head_keeps_content_type(
    content_type: Seq<char>,
    name: Option<Seq<char>>,
    body_len: nat,
    date: Seq<char>,
    gzip: bool,
)
    ensures
        starts_with(
            static_head_text(content_type, name, body_len, date, gzip),
            "HTTP/1.1 200 OK\r\nContent-Type: "@ + content_type + "; charset=utf-8\r\n"@,
        ),
{
    let h = static_head_text(content_type, name, body_len, date, gzip);
    let p = "HTTP/1.1 200 OK\r\nContent-Type: "@ + content_type + "; charset=utf-8\r\nContent-Length: "@;
    let q = "HTTP/1.1 200 OK\r\nContent-Type: "@ + content_type + "; charset=utf-8\r\n"@;
    reveal_strlit("; charset=utf-8\r\nContent-Length: ");
    reveal_strlit("; charset=utf-8\r\n");
    assert(q.len() <= p.len());
    assert(p.take(q.len() as int) =~= q);
    assert(h.take(p.len() as int) =~= p);
    assert(h.take(q.len() as int) =~= q);
}

/// The head of a gzip-encoded file is the head of the plain file with the
/// `Content-Encoding: gzip` and `Vary: Accept-Encoding` lines added just
/// before the blank line that ends the head; nothing else differs.
pub proof fn lemma_gzip_head_adds_only_encoding(
    content_type: Seq<char>,
    name: Option<Seq<char>>,
    body_len: nat,
    date: Seq<char>,
)
    ensures
        ({
            let plain = static_head_text(content_type, name, body_len, date, false);
            let gz = static_head_text(content_type, name, body_len, date, true);
            &&& plain.len() >= 2
            &&& plain.skip(plain.len() - 2) == "\r\n"@
            &&& gz == plain.take(plain.len() - 2) + "Content-Encoding: gzip\r\nVary: Accept-Encoding\r\n"@ + "\r\n"@
        }),
{
    let plain = static_head_text(content_type, name, body_len, date, false);
    let gz = static_head_text(content_type, name, body_len, date, true);
    let n = download_name(name);
    let b = "HTTP/1.1 200 OK\r\nContent-Type: "@ + content_type + "; charset=utf-8\r\nContent-Length: "@
        + decimal(body_len) + "\r\nContent-Disposition:  filename=\""@ + n + "\"; filename*=UTF-8''"@
        + url_encoded(encode_utf8(n)) + "\r\nCache-Control: max-age=2592000\r\nLast-Modified: "@ + date
        + "\r\n"@;
    reveal_strlit("\r\n");
    assert(plain =~= b + Seq::<char>::empty() + "\r\n"@);
    assert(plain.take(plain.len() - 2) =~= b);
    assert(plain.skip(plain.len() - 2) =~= "\r\n"@);
    assert(gz =~= b + "Content-Encoding: gzip\r\nVary: Accept-Encoding\r\n"@ + "\r\n"@);
}

/// The head of a static file response, given its content type, final path
/// component, body length and last-modified date.
pub fn static_head_with(content_type: &str, name: Option<&str>, body_len: usize, date: &str, gzip: bool) -> (r: String)
    ensures
        r@ == static_head_text(
            content_type@,
            match name { Some(n) => Some(n@), None => None },
            body_len as nat,
            date@,
            gzip,
        ),
{
    let n: &str = match name {
        Some(n) => n,
        None => "download.bin",
    };
    let mut v: Vec<char> = Vec::new();
    push_str(&mut v, "HTTP/1.1 200 OK\r\nContent-Type: ");
    push_str(&mut v, content_type);
    push_str(&mut v, "; charset=utf-8\r\nContent-Length: ");
    push_decimal(&mut v, body_len as u64);
    push_str(&mut v, "\r\nContent-Disposition:  filename=\"");
    push_str(&mut v, n);
    push_str(&mut v, "\"; filename*=UTF-8''");
    let enc = url_encode(n);
    push_str(&mut v, enc.as_str());
    push_str(&mut v, "\r\nCache-Control: max-age=2592000\r\nLast-Modified: ");
    push_str(&mut v, date);
    push_str(&mut v, "\r\n");
    let ghost before_gzip = v@;
    if gzip {
        push_str(&mut v, "Content-Encoding: gzip\r\nVary: Accept-Encoding\r\n");
    }
    assert(v@ == before_gzip + (if gzip { "Content-Encoding: gzip\r\nVary: Accept-Encoding\r\n"@ } else { Seq::empty() })) by {
        if !gzip {
            assert(v@ =~= before_gzip + Seq::<char>::empty());
        }
    }
    push_str(&mut v, "\r\n");
    let r = string_of(&v);
    assert(r@ =~= static_head_text(
        content_type@, match name { Some(n) => Some(n@), None => None }, body_len as nat, date@, gzip));
    r
}

/// The head with which the static file at `path` is sent, given the length
/// of the body, the file's modification time in seconds since the Unix epoch
/// and whether the body is gzip-encoded.
pub fn static_head(path: &str, body_len: usize, modified_secs: u64, gzip: bool) -> (r: String)
    requires
        modified_secs < http_date_limit(),
    ensures
        r@ == static_head_text(
            mime_essence(path@),
            path_file_name(path@),
            body_len as nat,
            http_date_text(modified_secs),
            gzip,
        ),
{
    let content_type = mime_type_of(path);
    let date = http_date(modified_secs);
    match file_name_of(path) {
        Some(n) => static_head_with(content_type.as_str(), Some(n.as_str()), body_len, date.as_str(), gzip),
        None => static_head_with(content_type.as_str(), None, body_len, date.as_str(), gzip),
    }
}

/// The CRC-32 register after one more bit of input has been shifted out
/// (reflected polynomial 0xEDB88320).
pub open spec fn crc32_bits(c: u32, n: nat) -> u32
    decreases n,
{
    if n == 0 {
        c
    } else {
        crc32_bits(if c & 1 == 1 { (c >> 1u32) ^ 0xEDB8_8320u32 } else { c >> 1u32 }, (n - 1) as nat)
    }
}

/// The CRC-32 register after `data` has been fed to it.
pub open spec fn crc32_update(c: u32, data: Seq<u8>) -> u32
    decreases data.len(),
{
    if data.len() == 0 {
        c
    } else {
        crc32_update(crc32_bits(c ^ (data[0] as u32), 8), data.skip(1))
    }
}

/// The CRC-32 (IEEE 802.3, as gzip uses it) of `data`.
pub open spec fn crc32(data: Seq<u8>) -> u32 {
    crc32_update(0xFFFF_FFFFu32, data) ^ 0xFFFF_FFFFu32
}

/// The raw deflate stream that `libflate`'s default encoder writes for `raw`
/// fed in one piece.
pub uninterp spec fn deflate_stream(raw: Seq<u8>) -> Seq<u8>;

/// A gzip stream as `libflate` frames `raw`: a 10-byte header starting with
/// the magic bytes and the deflate method, then the deflate stream of `raw`,
/// then the CRC-32 of `raw` and its length modulo 2^32, both in
/// little-endian order.
pub open spec fn gzip_framed(r: Seq<u8>, raw: Seq<u8>) -> bool {
    let n = raw.len() % 0x1_0000_0000;
    let c = crc32(raw);
    &&& r.len() >= 18
    &&& r[0] == 0x1f && r[1] == 0x8b && r[2] == 8
    &&& r.subrange(10, r.len() - 8) == deflate_stream(raw)
    &&& r[r.len() - 8] == c % 0x100
    &&& r[r.len() - 7] == (c / 0x100) % 0x100
    &&& r[r.len() - 6] == (c / 0x1_0000) % 0x100
    &&& r[r.len() - 5] == c / 0x100_0000
    &&& r[r.len() - 4] == n % 0x100
    &&& r[r.len() - 3] == (n / 0x100) % 0x100
    &&& r[r.len() - 2] == (n / 0x1_0000) % 0x100
    &&& r[r.len() - 1] == n / 0x100_0000
}

/// gzip encoding with `libflate::gzip::Encoder` into a vector. Trusted: the
/// result is framed as `gzip_framed` states: the default header has no
/// optional fields, the body is the deflate stream of `raw` (a function of
/// `raw` alone, named `deflate_stream`), and the trailer holds the CRC-32
/// (`crc32fast`) and the length. Not stated: the header's modification time,
/// which is the time of the call.
#[verifier::external_body]
fn gzip_encode(raw: &[u8]) -> (r: Vec<u8>)
    ensures
        gzip_framed(r@, raw@),
        r@.subrange(10, r@.len() - 8) == deflate_stream(raw@),
{
    let mut encoder = libflate::gzip::Encoder::new(Vec::new()).unwrap();
    encoder.write_all(raw).unwrap();
    encoder.finish().into_result().unwrap()
}

/// The body of a static file: the file's bytes, gzip-encoded when the
/// client accepts gzip.
pub fn static_body(raw: Vec<u8>, gzip: bool) -> (r: Vec<u8>)
    ensures
        !gzip ==> r@ == raw@,
        gzip ==> gzip_framed(r@, raw@),
        gzip ==> r@.subrange(10, r@.len() - 8) == deflate_stream(raw@),
{
    if gzip {
        gzip_encode(&raw)
    } else {
        raw
    }
}

/// The head of a file sent as an attachment.
pub open spec fn attachment_head_text(name: Seq<char>, size: u64) -> Seq<char> {
    "HTTP/1.1 200 OK\r\nContent-Type: application/octet-stream\r\nContent-Disposition: attachment; filename=\"download.bin\"; filename*=UTF-8''"@
        + url_encoded(encode_utf8(name)) + "\r\nContent-Length: "@ + decimal(size as nat) + "\r\n\r\n"@
}

/// The head of a file sent as an attachment, given its final path component and size.
pub fn attachment_head_with(name: &str, size: u64) -> (r: String)
    ensures
        r@ == attachment_head_text(name@, size),
{
    let mut v: Vec<char> = Vec::new();
    push_str(&mut v, "HTTP/1.1 200 OK\r\nContent-Type: application/octet-stream\r\nContent-Disposition: attachment; filename=\"download.bin\"; filename*=UTF-8''");
    let enc = url_encode(name);
    push_str(&mut v, enc.as_str());
    push_str(&mut v, "\r\nContent-Length: ");
    push_decimal(&mut v, size);
    push_str(&mut v, "\r\n\r\n");
    let r = string_of(&v);
    assert(r@ =~= attachment_head_text(name@, size));
    r
}

/// The head with which the file at `path`, of `size` bytes, is sent as an
/// attachment; `None` when the path has no final component.
pub fn attachment_head(path: &str, size: u64) -> (r: Option<String>)
    ensures
        match path_file_name(path@) {
            Some(n) => r matches Some(h) && h@ == attachment_head_text(n, size),
            None => r is None,
        },
{
    match file_name_of(path) {
        Some(n) => Some(attachment_head_with(n.as_str(), size)),
        None => None,
    }
}

/// Whether to send more of a file of `size` bytes after `offset` bytes went
/// out, the last send having moved `last_sent` bytes (`None` before the first).
pub fn send_more(offset: u64, size: u64, last_sent: Option<usize>) -> (r: bool)
    ensures
        r == (offset < size && last_sent != Some(0usize)),
{
    match last_sent {
        Some(n) => offset < size && n != 0,
        None => offset < size,
    }
}

// ---------------------------------------------------------------------
// Routes
// ---------------------------------------------------------------------

/// Where a route of the file server leads.
pub struct ProtoRoute {
    /// The route climbs out of the served tree with `../`.
    pub forbidden: bool,
    /// The route without leading and trailing `/`.
    pub path: String,
    /// The path names a static asset.
    pub is_static: bool,
}

/// Plans a route: forbidden when it holds `../`; its path is the route
/// without leading and trailing `/`; static when that path starts with `rdlstatic`.
pub fn plan_route(route: &str) -> (r: ProtoRoute)
    ensures
        r.forbidden == contains(route@, "../"@),
        r.path@ == trim_char(route@, '/'),
        r.is_static == starts_with(trim_char(route@, '/'), "rdlstatic"@),
        r.path@.len() == 0 || (r.path@[0] != '/' && r.path@.last() != '/'),
{
    proof { crate::text::lemma_trim_char_edges(route@, '/'); }
    let c = chars_of(route);
    let up = chars_of("../");
    let forbidden = contains_chars(&c, &up);
    let t = trim_char_chars(&c, '/');
    let pre = chars_of("rdlstatic");
    let is_static = starts_with_chars(&t, &pre);
    ProtoRoute { forbidden, path: string_of(&t), is_static }
}

// ---------------------------------------------------------------------
// gzip detection
// ---------------------------------------------------------------------

/// One request header: its name and raw value.
pub struct HeaderField {
    pub name: String,
    pub value: Vec<u8>,
}

/// What the header parser gives of a request: whether it found a path, and the headers.
pub struct RequestHead {
    pub has_path: bool,
    pub headers: Vec<HeaderField>,
}

/// The headers as pairs of name and value.
pub open spec fn header_pairs(hs: Seq<HeaderField>) -> Seq<(Seq<char>, Seq<u8>)> {
    hs.map_values(|h: HeaderField| (h.name@, h.value@))
}

/// The result of `httparse` on a request buffer with room for 32 headers:
/// `None` on a parse error, else whether a path was found and the header
/// slots (all 32 left empty when the headers are incomplete).
pub uninterp spec fn httparse_head(buf: Seq<u8>) -> Option<(bool, Seq<(Seq<char>, Seq<u8>)>)>;

/// `httparse::Request::parse` with 32 header slots. Trusted: the result
/// is `httparse_head` of the buffer, a function of the bytes alone.
#[verifier::external_body]
fn parse_request_head(buf: &[u8]) -> (r: Option<RequestHead>)
    ensures
        match r {
            Some(h) => httparse_head(buf@) == Some((h.has_path, header_pairs(h.headers@))),
            None => httparse_head(buf@) is None,
        },
{
    let mut headers = [httparse::EMPTY_HEADER; 32];
    let mut req = httparse::Request::new(&mut headers);
    match req.parse(buf) {
        Ok(_) => Some(RequestHead {
            has_path: req.path.is_some(),
            headers: req.headers.iter().map(|h| HeaderField { name: h.name.to_string(), value: h.value.to_vec() }).collect(),
        }),
        Err(_) => None,
    }
}

/// The first `Accept-Encoding` header decides: gzip is accepted when its
/// value is UTF-8 text containing `gzip`. Without such a header it is not.
pub open spec fn gzip_in_headers(hs: Seq<(Seq<char>, Seq<u8>)>) -> bool
    decreases hs.len(),
{
    if hs.len() == 0 {
        false
    } else if hs[0].0 == "Accept-Encoding"@ {
        match utf8_text(hs[0].1) {
            Some(t) => contains(t, "gzip"@),
            None => false,
        }
    } else {
        gzip_in_headers(hs.drop_first())
    }
}

/// Headers before the first `Accept-Encoding` header do not matter, and
/// that header decides: its UTF-8 value `x + "gzip" + y` accepts gzip,
/// wherever `gzip` stands in it, whatever follows the header.
pub proof fn lemma_gzip_anywhere_in_value(
    pre: Seq<(Seq<char>, Seq<u8>)>,
    value: Seq<u8>,
    post: Seq<(Seq<char>, Seq<u8>)>,
    x: Seq<char>,
    y: Seq<char>,
)
    requires
        forall|i: int| 0 <= i < pre.len() ==> (#[trigger] pre[i]).0 != "Accept-Encoding"@,
        utf8_text(value) == Some(x + "gzip"@ + y),
    ensures
        gzip_in_headers(pre + seq![("Accept-Encoding"@, value)] + post),
    decreases pre.len(),
{
    let hs = pre + seq![("Accept-Encoding"@, value)] + post;
    if pre.len() == 0 {
        assert(hs[0] == ("Accept-Encoding"@, value));
        let t = x + "gzip"@ + y;
        assert(t.subrange(x.len() as int, (x.len() + ("gzip"@).len()) as int) =~= "gzip"@) by { reveal_strlit("gzip"); }
        assert(crate::text::occurs_at(t, "gzip"@, x.len() as int));
    } else {
        assert(hs[0] == pre[0]);
        let rest = pre.drop_first();
        assert forall|i: int| 0 <= i < rest.len() implies (#[trigger] rest[i]).0 != "Accept-Encoding"@ by {
            assert(rest[i] == pre[i + 1]);
        }
        lemma_gzip_anywhere_in_value(rest, value, post, x, y);
        assert(hs.drop_first() =~= rest + seq![("Accept-Encoding"@, value)] + post);
    }
}

/// Gzip is refused when the first `Accept-Encoding` header's value is not
/// UTF-8, or is UTF-8 text in which `gzip` does not occur, whatever later
/// headers say.
pub proof fn lemma_gzip_refused_without_it(
    pre: Seq<(Seq<char>, Seq<u8>)>,
    value: Seq<u8>,
    post: Seq<(Seq<char>, Seq<u8>)>,
)
    requires
        forall|i: int| 0 <= i < pre.len() ==> (#[trigger] pre[i]).0 != "Accept-Encoding"@,
        match utf8_text(value) {
            Some(t) => forall|x: Seq<char>, y: Seq<char>| t != x + "gzip"@ + y,
            None => true,
        },
    ensures
        !gzip_in_headers(pre + seq![("Accept-Encoding"@, value)] + post),
    decreases pre.len(),
{
    let hs = pre + seq![("Accept-Encoding"@, value)] + post;
    if pre.len() == 0 {
        assert(hs[0] == ("Accept-Encoding"@, value));
        if let Some(t) = utf8_text(value) {
            if contains(t, "gzip"@) {
                let i = choose|i: int| crate::text::occurs_at(t, "gzip"@, i);
                let x = t.take(i);
                let y = t.skip(i + 4);
                assert(("gzip"@).len() == 4) by { reveal_strlit("gzip"); }
                assert(t =~= x + "gzip"@ + y);
            }
        }
    } else {
        assert(hs[0] == pre[0]);
        let rest = pre.drop_first();
        assert forall|i: int| 0 <= i < rest.len() implies (#[trigger] rest[i]).0 != "Accept-Encoding"@ by {
            assert(rest[i] == pre[i + 1]);
        }
        lemma_gzip_refused_without_it(rest, value, post);
        assert(hs.drop_first() =~= rest + seq![("Accept-Encoding"@, value)] + post);
    }
}

/// Without an `Accept-Encoding` header gzip is refused.
pub proof fn lemma_gzip_needs_the_header(hs: Seq<(Seq<char>, Seq<u8>)>)
    requires
        forall|i: int| 0 <= i < hs.len() ==> (#[trigger] hs[i]).0 != "Accept-Encoding"@,
    ensures
        !gzip_in_headers(hs),
    decreases hs.len(),
{
    if hs.len() > 0 {
        let rest = hs.drop_first();
        assert forall|i: int| 0 <= i < rest.len() implies (#[trigger] rest[i]).0 != "Accept-Encoding"@ by {
            assert(rest[i] == hs[i + 1]);
        }
        lemma_gzip_needs_the_header(rest);
    }
}

/// Whether a parsed request accepts gzip: it has a path and its first
/// `Accept-Encoding` header names gzip.
pub fn gzip_accepted(head: &RequestHead) -> (r: bool)
    ensures
        r == (head.has_path && gzip_in_headers(header_pairs(head.headers@))),
{
    if !head.has_path {
        return false;
    }
    let ghost hs = header_pairs(head.headers@);
    let name = chars_of("Accept-Encoding");
    let gz = chars_of("gzip");
    let mut i: usize = 0;
    assert(hs.skip(0) =~= hs);
    while i < head.headers.len()
        invariant
            head.has_path,
            i <= head.headers@.len(),
            hs == header_pairs(head.headers@),
            name@ == "Accept-Encoding"@,
            gz@ == "gzip"@,
            gzip_in_headers(hs) == gzip_in_headers(hs.skip(i as int)),
        decreases head.headers@.len() - i,
    {
        let h = &head.headers[i];
        assert(hs.skip(i as int)[0] == (h.name@, h.value@));
        let n = chars_of(h.name.as_str());
        if crate::text::slice_eq(&n, &name) {
            assert(hs.skip(i as int).len() > 0);
            let found = match str_from_utf8(h.value.as_slice()) {
                Some(t) => {
                    let tc = chars_of(t);
                    contains_chars(&tc, &gz)
                },
                None => false,
            };
            assert(found == match utf8_text(h.value@) {
                Some(t) => contains(t, "gzip"@),
                None => false,
            });
            assert(h.name@ == "Accept-Encoding"@);
            assert(hs.skip(i as int)[0].0 == "Accept-Encoding"@);
            assert(hs.skip(i as int)[0].1 == h.value@);
            assert(gzip_in_headers(hs.skip(i as int)) == found);
            return found;
        }
        assert(hs.skip(i as int).drop_first() =~= hs.skip(i + 1));
        i = i + 1;
    }
    false
}

/// Whether the request in `buf` accepts gzip; `None` when the header parser
/// rejects the buffer.
pub fn gzip_requested(buf: &[u8]) -> (r: Option<bool>)
    ensures
        match httparse_head(buf@) {
            Some((p, hs)) => r == Some(p && gzip_in_headers(hs)),
            None => r is None,
        },
{
    match parse_request_head(buf) {
        Some(h) => Some(gzip_accepted(&h)),
        None => None,
    }
}

} // verus!
