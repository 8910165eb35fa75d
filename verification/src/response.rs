//! Responses: heads, transfer codings, and the tags of immutable tiles.

use vstd::prelude::*;

use crate::auth::{hex_digit, hex_worth};
use crate::double::{at_most_zero, is_weight, only_zeros, writes_at_most_zero};
use crate::json::{
    at, fields_view, fields_view_push, items_view, items_view_push, member, member_is_the_first,
    no_fields, text_v, Fields, Items, Json, JsonV,
};
use crate::request::{header_of, Request};
use crate::text::{
    decimal, first_index, first_index_is_first, number, opt_text, push_char, same, same_but_case,
    same_ignoring_case, split, split_on, strip_prefix, texts, trim, trimmed, without_prefix,
};

verus! {

/// Bodies at or above this are worth compressing, bytes.
pub const GZIP_MIN_BYTES: usize = 4096;

/// The reason phrase of a status.
pub open spec fn reason_of(status: u16) -> Seq<char> {
    match status {
        200 => "OK"@,
        201 => "Created"@,
        400 => "Bad Request"@,
        401 => "Unauthorized"@,
        403 => "Forbidden"@,
        404 => "Not Found"@,
        405 => "Method Not Allowed"@,
        408 => "Request Timeout"@,
        409 => "Conflict"@,
        410 => "Gone"@,
        411 => "Length Required"@,
        413 => "Payload Too Large"@,
        415 => "Unsupported Media Type"@,
        426 => "Upgrade Required"@,
        431 => "Request Header Fields Too Large"@,
        501 => "Not Implemented"@,
        502 => "Bad Gateway"@,
        503 => "Service Unavailable"@,
        504 => "Gateway Timeout"@,
        507 => "Insufficient Storage"@,
        _ => "Internal Server Error"@,
    }
}

/// [`reason_of`].
pub fn reason(status: u16) -> (r: &'static str)
    ensures
        r@ == reason_of(status),
{
    match status {
        200 => "OK",
        201 => "Created",
        400 => "Bad Request",
        401 => "Unauthorized",
        403 => "Forbidden",
        404 => "Not Found",
        405 => "Method Not Allowed",
        408 => "Request Timeout",
        409 => "Conflict",
        410 => "Gone",
        411 => "Length Required",
        413 => "Payload Too Large",
        415 => "Unsupported Media Type",
        426 => "Upgrade Required",
        431 => "Request Header Fields Too Large",
        501 => "Not Implemented",
        502 => "Bad Gateway",
        503 => "Service Unavailable",
        504 => "Gateway Timeout",
        507 => "Insufficient Storage",
        _ => "Internal Server Error",
    }
}

/// A response, ready to be sent.
pub struct Response {
    /// The status.
    pub status: u16,
    /// The content type.
    pub content_type: String,
    /// The `Cache-Control` value.
    pub cache_control: &'static str,
    /// Further header lines, each ended.
    pub extra: String,
    /// The body.
    pub body: Vec<u8>,
}

/// What a [`Response`] holds.
#[verifier::ext_equal]
pub struct ResponseV {
    /// The status.
    pub status: u16,
    /// The content type.
    pub content_type: Seq<char>,
    /// The `Cache-Control` value.
    pub cache_control: Seq<char>,
    /// Further header lines.
    pub extra: Seq<char>,
    /// The body.
    pub body: Seq<u8>,
}

/// The head of a response. `Vary` names both axes in one header on every answer, so that a cache
/// never serves a compressed body to a client that cannot read it.
pub open spec fn head_of(r: ResponseV) -> Seq<char> {
    "HTTP/1.1 "@ + decimal(r.status as nat) + " "@ + reason_of(r.status) + "\r\nContent-Type: "@
        + r.content_type + "\r\nContent-Length: "@ + decimal(r.body.len())
        + "\r\nConnection: close\r\nCache-Control: "@ + r.cache_control
        + "\r\nX-Content-Type-Options: nosniff\r\nReferrer-Policy: no-referrer\r\nVary: Origin, Accept-Encoding\r\n"@
        + r.extra + "\r\n"@
}

impl Response {
    /// What the response holds.
    pub open spec fn view(&self) -> ResponseV {
        ResponseV {
            status: self.status,
            content_type: self.content_type@,
            cache_control: self.cache_control@,
            extra: self.extra@,
            body: self.body@,
        }
    }

    /// [`head_of`].
    pub fn head(&self) -> (r: String)
        ensures
            r@ == head_of(self@),
    {
        let status = number(self.status as u64);
        let len = number(self.body.len() as u64);
        String::from_str("HTTP/1.1 ").concat(status.as_str()).concat(" ").concat(
            reason(self.status),
        ).concat("\r\nContent-Type: ").concat(self.content_type.as_str()).concat(
            "\r\nContent-Length: ",
        ).concat(len.as_str()).concat("\r\nConnection: close\r\nCache-Control: ").concat(
            self.cache_control,
        ).concat(
            "\r\nX-Content-Type-Options: nosniff\r\nReferrer-Policy: no-referrer\r\nVary: Origin, Accept-Encoding\r\n",
        ).concat(self.extra.as_str()).concat("\r\n")
    }
}

/// A response that no cache keeps.
pub open spec fn plain_v(
    status: u16,
    content_type: Seq<char>,
    extra: Seq<char>,
    body: Seq<u8>,
) -> ResponseV {
    ResponseV { status, content_type, cache_control: "no-store"@, extra, body }
}

/// [`plain_v`].
pub fn respond(status: u16, content_type: &str, extra: &str, body: Vec<u8>) -> (r: Response)
    ensures
        r@ == plain_v(status, content_type@, extra@, body@),
{
    Response {
        status,
        content_type: content_type.to_owned(),
        cache_control: "no-store",
        extra: extra.to_owned(),
        body,
    }
}

/// `{"error": message}`.
pub open spec fn error_body_v(message: Seq<char>) -> JsonV {
    JsonV::Object(no_fields().push(("error"@, text_v(message))))
}

/// [`error_body_v`].
pub fn error_body(message: &str) -> (r: Json)
    ensures
        r.view() == error_body_v(message@),
{
    let mut f = Fields::new();
    f.put("error", Json::text(message));
    f.object()
}

// ---------------------------------------------------------------------------------------------
// Compression
// ---------------------------------------------------------------------------------------------

/// The gzip member that `flate2` makes of some bytes at its fastest level.
pub uninterp spec fn gzip_of(bytes: Seq<u8>) -> Option<Seq<u8>>;

/// What `flate2` reads of a gzip member; `None` where the bytes are none.
pub uninterp spec fn gunzip_of(bytes: Seq<u8>) -> Option<Seq<u8>>;

/// `flate2::write::GzEncoder` at `Compression::fast`, its default header (no time, no name), the
/// whole of the bytes written and finished. The coding is not restated, but that the bytes are read
/// back from it; `None` where the encoder reports an error.
#[verifier::external_body]
fn encode_gzip(bytes: &[u8]) -> (r: Option<Vec<u8>>)
    ensures
        match r {
            Some(z) => gzip_of(bytes@) == Some(z@) && gunzip_of(z@) == Some(bytes@),
            None => gzip_of(bytes@) is None,
        },
{
    let mut e = flate2::write::GzEncoder::new(Vec::new(), flate2::Compression::fast());
    std::io::Write::write_all(&mut e, bytes).ok()?;
    e.finish().ok()
}

/// `flate2::read::GzDecoder`, the first member of the bytes read to its end; `None` where it reports
/// an error.
#[verifier::external_body]
fn decode_gzip(bytes: &[u8]) -> (r: Option<Vec<u8>>)
    ensures
        match r {
            Some(b) => gunzip_of(bytes@) == Some(b@),
            None => gunzip_of(bytes@) is None,
        },
{
    let mut out = Vec::new();
    std::io::Read::read_to_end(&mut flate2::read::GzDecoder::new(bytes), &mut out).ok()?;
    Some(out)
}

/// What a client reads of a body: the body itself, or what is packed in it where the head says so.
pub open spec fn read_as(packed: bool, body: Seq<u8>) -> Option<Seq<u8>> {
    if packed {
        gunzip_of(body)
    } else {
        Some(body)
    }
}

/// [`read_as`].
pub fn read_body(packed: bool, body: Vec<u8>) -> (r: Option<Vec<u8>>)
    ensures
        bytes_opt(r) == read_as(packed, body@),
{
    if packed {
        decode_gzip(body.as_slice())
    } else {
        Some(body)
    }
}

/// Header lines and a body under which a client reads `bytes`: they are sent as they are behind the
/// lines `extra`, or packed, and then one more line says so.
pub open spec fn stands_for(
    lines: Seq<char>,
    body: Seq<u8>,
    extra: Seq<char>,
    bytes: Seq<u8>,
) -> bool {
    ||| lines == extra && read_as(false, body) == Some(bytes)
    ||| lines == extra + "Content-Encoding: gzip\r\n"@ && read_as(true, body) == Some(bytes)
}

/// What `coded` is worth to a body of `len` bytes: nothing unless it is shorter.
pub open spec fn worthwhile(coded: Option<Seq<u8>>, len: nat) -> Option<Seq<u8>> {
    match coded {
        Some(z) if z.len() < len => Some(z),
        _ => None,
    }
}

/// What optional bytes hold.
pub open spec fn bytes_opt(v: Option<Vec<u8>>) -> Option<Seq<u8>> {
    match v {
        Some(z) => Some(z@),
        None => None,
    }
}

/// [`worthwhile`].
pub fn keep_shorter(coded: Option<Vec<u8>>, len: usize) -> (r: Option<Vec<u8>>)
    ensures
        bytes_opt(r) == worthwhile(bytes_opt(coded), len as nat),
{
    match coded {
        Some(z) => if z.len() < len {
            Some(z)
        } else {
            None
        },
        None => None,
    }
}

/// Gzip, or `None` where it does not help. The bytes are read back from it.
pub fn gzip(bytes: &[u8]) -> (r: Option<Vec<u8>>)
    ensures
        bytes_opt(r) == worthwhile(gzip_of(bytes@), bytes@.len()),
        r matches Some(z) ==> read_as(true, z@) == Some(bytes@),
{
    keep_shorter(encode_gzip(bytes), bytes.len())
}

/// The header lines and the body that are sent: compressed where the client accepts it, the body
/// is large enough and `coded`, what compressing it gives, is shorter.
pub open spec fn coded_of(
    gzip_ok: bool,
    extra: Seq<char>,
    bytes: Seq<u8>,
    coded: Option<Seq<u8>>,
) -> (Seq<char>, Seq<u8>) {
    match worthwhile(coded, bytes.len()) {
        Some(z) if gzip_ok && bytes.len() >= GZIP_MIN_BYTES => (
            extra + "Content-Encoding: gzip\r\n"@,
            z,
        ),
        _ => (extra, bytes),
    }
}

/// [`coded_of`], with what compressing the bytes gives.
pub fn maybe_gzip(gzip_ok: bool, extra: &str, bytes: Vec<u8>) -> (r: (String, Vec<u8>))
    ensures
        (r.0@, r.1@) == coded_of(gzip_ok, extra@, bytes@, gzip_of(bytes@)),
        stands_for(r.0@, r.1@, extra@, bytes@),
{
    if gzip_ok && bytes.len() >= GZIP_MIN_BYTES {
        if let Some(z) = gzip(bytes.as_slice()) {
            return (String::from_str(extra).concat("Content-Encoding: gzip\r\n"), z);
        }
    }
    (extra.to_owned(), bytes)
}

/// A client that does not accept gzip, and a small body, get the bytes as they are, whatever
/// compressing them would give; and what is sent is never longer than the bytes.
pub proof fn compression_is_only_for_those_who_ask(
    gzip_ok: bool,
    extra: Seq<char>,
    bytes: Seq<u8>,
    coded: Option<Seq<u8>>,
)
    ensures
        !gzip_ok || bytes.len() < GZIP_MIN_BYTES ==> coded_of(gzip_ok, extra, bytes, coded) == (
            extra,
            bytes,
        ),
        coded_of(gzip_ok, extra, bytes, coded).1.len() <= bytes.len(),
{
}

/// The header line that a 401 carries.
pub open spec fn challenge(status: u16) -> Seq<char> {
    if status == 401 {
        "WWW-Authenticate: Bearer\r\n"@
    } else {
        ""@
    }
}

/// The response of an encoded JSON answer.
pub open spec fn json_response_v(
    status: u16,
    bytes: Seq<u8>,
    extra: Seq<char>,
    gzip_ok: bool,
    coded: Option<Seq<u8>>,
) -> ResponseV {
    let (lines, body) = coded_of(gzip_ok, challenge(status) + extra, bytes, coded);
    plain_v(status, "application/json"@, lines, body)
}

/// [`json_response_v`]. The body is the same JSON either way: this chooses a transfer coding,
/// never a representation.
pub fn respond_json_encoded(status: u16, bytes: Vec<u8>, extra: &str, gzip_ok: bool) -> (r:
    Response)
    ensures
        r@ == json_response_v(status, bytes@, extra@, gzip_ok, gzip_of(bytes@)),
        stands_for(r@.extra, r@.body, challenge(status) + extra@, bytes@),
{
    let auth = if status == 401 {
        "WWW-Authenticate: Bearer\r\n"
    } else {
        ""
    };
    let lines = String::from_str(auth).concat(extra);
    let (lines, body) = maybe_gzip(gzip_ok, lines.as_str(), bytes);
    respond(status, "application/json", lines.as_str(), body)
}

/// One parameter of a coding that refuses it: a quality at or below zero.
pub open spec fn refuses(p: Seq<char>) -> bool {
    match without_prefix(trimmed(p), "q="@) {
        Some(q) => writes_at_most_zero(q),
        None => false,
    }
}

/// A parameter that gives a weight refuses the coding exactly where the weight is zero.
pub proof fn only_a_zero_weight_refuses(p: Seq<char>, weight: Seq<char>)
    requires
        trimmed(p) == "q="@ + weight,
        is_weight(weight),
    ensures
        refuses(p) == only_zeros(weight),
{
    let q = "q="@ + weight;
    assert(q.take("q="@.len() as int) =~= "q="@);
    assert(q.skip("q="@.len() as int) =~= weight);
}

/// One member of `Accept-Encoding` that accepts gzip.
pub open spec fn accepts_part(part: Seq<char>) -> bool {
    let p = split_on(part, ';');
    same_but_case(trimmed(p[0]), "gzip"@) && !(exists|j: int|
        1 <= j < p.len() && refuses(#[trigger] p[j]))
}

/// Some member accepts gzip.
pub open spec fn any_accepts(parts: Seq<Seq<char>>) -> bool {
    exists|i: int| 0 <= i < parts.len() && accepts_part(#[trigger] parts[i])
}

/// Whether an `Accept-Encoding` value accepts gzip: some member names it and does not refuse it.
pub open spec fn accepts(value: Option<Seq<char>>) -> bool {
    match value {
        Some(v) => any_accepts(split_on(v, ',')),
        None => false,
    }
}

fn part_accepts(part: &str) -> (r: bool)
    ensures
        r == accepts_part(part@),
{
    let p = split(part, ';');
    let ghost t = texts(p@);
    proof {
        crate::request::split_is_not_empty(part@, ';');
        assert(t[0] == p@[0]@);
    }
    if !same_ignoring_case(trim(p[0]), "gzip") {
        return false;
    }
    let mut j: usize = 1;
    while j < p.len()
        invariant
            t == texts(p@),
            t == split_on(part@, ';'),
            1 <= j <= p@.len(),
            forall|k: int| 1 <= k < j ==> !refuses(#[trigger] t[k]),
        decreases p@.len() - j,
    {
        assert(t[j as int] == p@[j as int]@);
        let refused = match strip_prefix(trim(p[j]), "q=") {
            Some(q) => at_most_zero(q),
            None => false,
        };
        if refused {
            assert(refuses(t[j as int]));
            return false;
        }
        j += 1;
    }
    true
}

/// Does this request say that it can read gzip? A coding offered at zero quality is refused.
pub fn accepts_gzip(req: &Request) -> (r: bool)
    ensures
        r == accepts(header_of(req@.headers, "accept-encoding"@)),
{
    let v = match req.header("accept-encoding") {
        Some(v) => v,
        None => return false,
    };
    let parts = split(v, ',');
    let ghost t = texts(parts@);
    let mut i: usize = 0;
    while i < parts.len()
        invariant
            t == texts(parts@),
            t == split_on(v@, ','),
            header_of(req@.headers, "accept-encoding"@) == Some(v@),
            i <= parts@.len(),
            forall|k: int| 0 <= k < i ==> !accepts_part(#[trigger] t[k]),
        decreases parts@.len() - i,
    {
        assert(t[i as int] == parts@[i as int]@);
        if part_accepts(parts[i]) {
            assert(any_accepts(t));
            return true;
        }
        i += 1;
    }
    false
}

// ---------------------------------------------------------------------------------------------
// Tiles
// ---------------------------------------------------------------------------------------------

/// One bit of the reflected CRC-32 with the IEEE polynomial.
pub open spec fn crc_bit(crc: u32) -> u32 {
    if crc & 1 == 1 {
        (crc >> 1) ^ 0xEDB8_8320
    } else {
        crc >> 1
    }
}

/// `n` bits.
pub open spec fn crc_bits(crc: u32, n: nat) -> u32
    decreases n,
{
    if n == 0 {
        crc
    } else {
        crc_bit(crc_bits(crc, (n - 1) as nat))
    }
}

/// The register behind some bytes.
pub open spec fn crc_register(data: Seq<u8>) -> u32
    decreases data.len(),
{
    if data.len() == 0 {
        0xFFFF_FFFF
    } else {
        crc_bits(crc_register(data.drop_last()) ^ (data.last() as u32), 8)
    }
}

/// The IEEE CRC-32 of some bytes.
pub open spec fn crc32_of(data: Seq<u8>) -> u32 {
    !crc_register(data)
}

/// [`crc32_of`].
pub fn crc32(data: &[u8]) -> (r: u32)
    ensures
        r == crc32_of(data@),
{
    let mut crc: u32 = 0xFFFF_FFFF;
    let mut i: usize = 0;
    assert(data@.take(0) =~= Seq::empty());
    while i < data.len()
        invariant
            i <= data@.len(),
            crc == crc_register(data@.take(i as int)),
        decreases data@.len() - i,
    {
        let start: u32 = crc ^ (data[i] as u32);
        crc = start;
        let mut k: u32 = 0;
        while k < 8
            invariant
                k <= 8,
                crc == crc_bits(start, k as nat),
            decreases 8 - k,
        {
            crc = if crc & 1 == 1 {
                (crc >> 1) ^ 0xEDB8_8320
            } else {
                crc >> 1
            };
            k += 1;
        }
        assert(data@.take(i + 1).drop_last() =~= data@.take(i as int));
        i += 1;
    }
    assert(data@.take(data@.len() as int) =~= data@);
    !crc
}

/// The last `k` hexadecimal digits of `n`.
pub open spec fn hex_fixed(n: nat, k: nat) -> Seq<char>
    decreases k,
{
    if k == 0 {
        Seq::empty()
    } else {
        hex_fixed(n / 16, (k - 1) as nat).push(hex_digit(n as int % 16))
    }
}

fn hex_digits(n: u32, k: u32) -> (r: String)
    ensures
        r@ == hex_fixed(n as nat, k as nat),
    decreases k,
{
    if k == 0 {
        return String::new();
    }
    let mut out = hex_digits(n / 16, k - 1);
    let d: u8 = (n % 16) as u8;
    if d < 10 {
        push_char(&mut out, (48 + d) as char);
    } else {
        push_char(&mut out, (87 + d) as char);
    }
    out
}

/// The tag of some content: its CRC-32 in eight hexadecimal digits, quoted.
pub open spec fn etag_of(content: Seq<u8>) -> Seq<char> {
    "\""@ + hex_fixed(crc32_of(content) as nat, 8) + "\""@
}

fn etag(content: &[u8]) -> (r: String)
    ensures
        r@ == etag_of(content@),
{
    let h = hex_digits(crc32(content), 8);
    String::from_str("\"").concat(h.as_str()).concat("\"")
}

/// The members of `cost` that describe the admission of one read, not the tile.
pub open spec fn read_member(name: Seq<char>) -> bool {
    name == "in_flight_share"@ || name == "in_flight_held"@ || name == "clients"@ || name
        == "client"@ || name == "reserved"@ || name == "fair_share"@
}

/// The members that say how a read went: its timing and its concurrency.
pub open spec fn diagnostic_member(name: Seq<char>) -> bool {
    name == "build_ms"@ || name == "in_flight"@
}

/// A value without what differs between two reads of the same tile: `served_from` removed,
/// timings and concurrency nulled wherever they stand, admission nulled inside `cost`.
pub open spec fn stripped(v: JsonV) -> JsonV
    decreases v, 0nat,
{
    match v {
        JsonV::Object(o) => JsonV::Object(stripped_fields(o, false)),
        JsonV::Array(a) => JsonV::Array(stripped_items(a)),
        other => other,
    }
}

/// [`stripped`], of a `cost` member.
pub open spec fn stripped_cost(v: JsonV) -> JsonV
    decreases v, 0nat,
{
    match v {
        JsonV::Object(o) => JsonV::Object(stripped_fields(o, true)),
        JsonV::Array(a) => JsonV::Array(stripped_items(a)),
        other => other,
    }
}

/// The items of an array, each stripped.
pub open spec fn stripped_items(a: Seq<JsonV>) -> Seq<JsonV>
    decreases a, 0nat,
{
    if a.len() == 0 {
        Seq::empty()
    } else {
        stripped_items(a.drop_last()).push(stripped(a.last()))
    }
}

/// The members of an object, stripped; of a `cost` object, its admission members nulled too.
pub open spec fn stripped_fields(o: Seq<(Seq<char>, JsonV)>, cost: bool) -> Seq<(Seq<char>, JsonV)>
    decreases o, 0nat,
{
    if o.len() == 0 {
        Seq::empty()
    } else {
        let before = stripped_fields(o.drop_last(), cost);
        let name = o.last().0;
        if name == "served_from"@ {
            before
        } else if diagnostic_member(name) || (cost && read_member(name)) {
            before.push((name, JsonV::Null))
        } else if name == "cost"@ {
            before.push((name, stripped_cost(o.last().1)))
        } else {
            before.push((name, stripped(o.last().1)))
        }
    }
}

fn is_diagnostic(name: &str, cost: bool) -> (r: bool)
    ensures
        r == (diagnostic_member(name@) || (cost && read_member(name@))),
{
    same(name, "build_ms") || same(name, "in_flight") || (cost && (same(name, "in_flight_share")
        || same(name, "in_flight_held") || same(name, "clients") || same(name, "client") || same(
        name,
        "reserved",
    ) || same(name, "fair_share")))
}

/// [`stripped`].
pub fn strip_read_diagnostics(v: &Json) -> (r: Json)
    ensures
        r.view() == stripped(v.view()),
    decreases v, 0nat,
{
    match v {
        Json::Object(o) => strip_fields(o, false).object(),
        Json::Array(a) => strip_items(a).array(),
        other => other.copy(),
    }
}

fn strip_cost(v: &Json) -> (r: Json)
    ensures
        r.view() == stripped_cost(v.view()),
    decreases v, 0nat,
{
    match v {
        Json::Object(o) => strip_fields(o, true).object(),
        Json::Array(a) => strip_items(a).array(),
        other => other.copy(),
    }
}

fn strip_items(a: &Vec<Json>) -> (r: Items)
    ensures
        r@ == stripped_items(items_view(a@)),
    decreases a, 0nat,
{
    let mut out = Items::new();
    let mut i: usize = 0;
    assert(a@.take(0) =~= Seq::empty());
    while i < a.len()
        invariant
            i <= a@.len(),
            out@ == stripped_items(items_view(a@.take(i as int))),
        decreases a@.len() - i,
    {
        let x = strip_read_diagnostics(&a[i]);
        proof {
            assert(a@.take(i + 1) =~= a@.take(i as int).push(a@[i as int]));
            items_view_push(a@.take(i as int), a@[i as int]);
            let s = items_view(a@.take(i as int));
            assert(s.push(a@[i as int].view()).drop_last() =~= s);
        }
        out.push(x);
        i += 1;
    }
    assert(a@.take(a@.len() as int) =~= a@);
    out
}

fn strip_fields(o: &Vec<(String, Json)>, cost: bool) -> (r: Fields)
    ensures
        r@ == stripped_fields(fields_view(o@), cost),
    decreases o, 0nat,
{
    let mut out = Fields::new();
    let mut i: usize = 0;
    assert(o@.take(0) =~= Seq::empty());
    while i < o.len()
        invariant
            i <= o@.len(),
            out@ == stripped_fields(fields_view(o@.take(i as int)), cost),
        decreases o@.len() - i,
    {
        let name = o[i].0.as_str();
        proof {
            assert(o@.take(i + 1) =~= o@.take(i as int).push(o@[i as int]));
            fields_view_push(o@.take(i as int), o@[i as int]);
            let s = fields_view(o@.take(i as int));
            assert(s.push((o@[i as int].0@, o@[i as int].1.view())).drop_last() =~= s);
        }
        if !same(name, "served_from") {
            if is_diagnostic(name, cost) {
                out.put(name, Json::Null);
            } else if same(name, "cost") {
                let x = strip_cost(&o[i].1);
                out.put(name, x);
            } else {
                let x = strip_read_diagnostics(&o[i].1);
                out.put(name, x);
            }
        }
        i += 1;
    }
    assert(o@.take(o@.len() as int) =~= o@);
    out
}

/// Some member is the tag, white space around it aside.
pub open spec fn any_is(parts: Seq<Seq<char>>, tag: Seq<char>) -> bool {
    exists|i: int| 0 <= i < parts.len() && trimmed(#[trigger] parts[i]) == tag
}

/// Whether an `If-None-Match` value names a tag.
pub open spec fn matches_tag(value: Option<Seq<char>>, tag: Seq<char>) -> bool {
    match value {
        Some(v) => any_is(split_on(v, ','), tag),
        None => false,
    }
}

fn tag_matches(value: Option<&str>, tag: &str) -> (r: bool)
    ensures
        r == matches_tag(opt_text(value), tag@),
{
    let v = match value {
        Some(v) => v,
        None => return false,
    };
    let parts = split(v, ',');
    let ghost t = texts(parts@);
    let mut i: usize = 0;
    while i < parts.len()
        invariant
            t == texts(parts@),
            t == split_on(v@, ','),
            opt_text(value) == Some(v@),
            i <= parts@.len(),
            forall|k: int| 0 <= k < i ==> trimmed(#[trigger] t[k]) != tag@,
        decreases parts@.len() - i,
    {
        assert(t[i as int] == parts@[i as int]@);
        if same(trim(parts[i]), tag) {
            assert(any_is(t, tag@));
            return true;
        }
        i += 1;
    }
    false
}

/// Whether a tile's answer says that it is sealed.
pub open spec fn sealed(body: JsonV) -> bool {
    match at(body, "sealed"@) {
        Some(JsonV::Bool(b)) => b,
        _ => false,
    }
}

/// [`sealed`].
pub fn is_sealed(body: &Json) -> (r: bool)
    ensures
        r == sealed(body.view()),
{
    match body.get("sealed") {
        Some(Json::Bool(b)) => *b,
        _ => false,
    }
}

/// The response of a tile. A live tile is never given a tag nor kept by a cache. A sealed one is
/// immutable: it carries a tag of `canonical`, its encoding without read diagnostics, and a
/// request that already has it gets a 304 without a body. The tag does not depend on the coding.
pub open spec fn tile_v(
    is_sealed: bool,
    gzip_ok: bool,
    if_none_match: Option<Seq<char>>,
    bytes: Seq<u8>,
    canonical: Seq<u8>,
    coded: Option<Seq<u8>>,
) -> ResponseV {
    if !is_sealed {
        let (lines, body) = coded_of(gzip_ok, ""@, bytes, coded);
        plain_v(200, "application/json"@, lines, body)
    } else {
        let tag = etag_of(canonical);
        let extra = "ETag: "@ + tag + "\r\n"@;
        let (status, lines, body) = if matches_tag(if_none_match, tag) {
            (304u16, extra, Seq::empty())
        } else {
            let (l, b) = coded_of(gzip_ok, extra, bytes, coded);
            (200u16, l, b)
        };
        ResponseV {
            status,
            content_type: "application/json"@,
            cache_control: "public, max-age=31536000, immutable"@,
            extra: lines,
            body,
        }
    }
}

/// [`tile_v`], with what compressing the bytes gives.
pub fn respond_tile(
    is_sealed: bool,
    gzip_ok: bool,
    if_none_match: Option<&str>,
    bytes: Vec<u8>,
    canonical: &[u8],
) -> (r: Response)
    ensures
        r@ == tile_v(
            is_sealed,
            gzip_ok,
            opt_text(if_none_match),
            bytes@,
            canonical@,
            gzip_of(bytes@),
        ),
        r@.status == 200 ==> stands_for(
            r@.extra,
            r@.body,
            if is_sealed {
                "ETag: "@ + etag_of(canonical@) + "\r\n"@
            } else {
                ""@
            },
            bytes@,
        ),
{
    if !is_sealed {
        let (lines, body) = maybe_gzip(gzip_ok, "", bytes);
        return respond(200, "application/json", lines.as_str(), body);
    }
    let tag = etag(canonical);
    let extra = String::from_str("ETag: ").concat(tag.as_str()).concat("\r\n");
    let (status, lines, body): (u16, String, Vec<u8>) = if tag_matches(
        if_none_match,
        tag.as_str(),
    ) {
        (304, extra, Vec::new())
    } else {
        let (l, b) = maybe_gzip(gzip_ok, extra.as_str(), bytes);
        (200, l, b)
    };
    Response {
        status,
        content_type: "application/json".to_owned(),
        cache_control: "public, max-age=31536000, immutable",
        extra: lines,
        body,
    }
}

/// A live tile is never cached, and two reads of a sealed tile whose content agrees carry one tag
/// whatever the client accepts: the second gets a 304 where it names the first's tag alone.
pub proof fn sealed_tiles_revalidate(
    gzip_a: bool,
    gzip_b: bool,
    bytes: Seq<u8>,
    canonical: Seq<u8>,
    coded: Option<Seq<u8>>,
    if_none_match: Option<Seq<char>>,
)
    ensures
        tile_v(false, gzip_a, if_none_match, bytes, canonical, coded).cache_control == "no-store"@,
        tile_v(false, gzip_a, if_none_match, bytes, canonical, coded).status == 200,
        matches_tag(if_none_match, etag_of(canonical)) ==> {
            &&& tile_v(true, gzip_a, if_none_match, bytes, canonical, coded) == tile_v(
                true,
                gzip_b,
                if_none_match,
                bytes,
                canonical,
                coded,
            )
            &&& tile_v(true, gzip_a, if_none_match, bytes, canonical, coded).status == 304
            &&& tile_v(true, gzip_a, if_none_match, bytes, canonical, coded).body.len() == 0
        },
{
}

/// Read diagnostics never reach the tag: what two reads of a tile differ in is gone from what the
/// tag is computed over, and stripping twice is stripping once.
pub proof fn stripping_is_idempotent(v: JsonV)
    ensures
        stripped(stripped(v)) == stripped(v),
        stripped_cost(stripped_cost(v)) == stripped_cost(v),
    decreases v, 1nat,
{
    match v {
        JsonV::Object(o) => {
            stripping_fields_twice(o, false);
            stripping_fields_twice(o, true);
        },
        JsonV::Array(a) => stripping_items_twice(a),
        _ => {},
    }
}

proof fn stripping_items_twice(a: Seq<JsonV>)
    ensures
        stripped_items(stripped_items(a)) == stripped_items(a),
    decreases a, 1nat,
{
    if a.len() > 0 {
        stripping_items_twice(a.drop_last());
        stripping_is_idempotent(a.last());
        let s = stripped_items(a.drop_last());
        assert(s.push(stripped(a.last())).drop_last() =~= s);
    }
}

proof fn stripping_fields_twice(o: Seq<(Seq<char>, JsonV)>, cost: bool)
    ensures
        stripped_fields(stripped_fields(o, cost), cost) == stripped_fields(o, cost),
    decreases o, 1nat,
{
    if o.len() > 0 {
        stripping_fields_twice(o.drop_last(), cost);
        assert(decreases_to!(o => o.last()));
        assert(decreases_to!(o.last() => o.last().1));
        stripping_is_idempotent(o.last().1);
        let s = stripped_fields(o.drop_last(), cost);
        let name = o.last().0;
        assert(s.push((name, JsonV::Null)).drop_last() =~= s);
        assert(s.push((name, stripped_cost(o.last().1))).drop_last() =~= s);
        assert(s.push((name, stripped(o.last().1))).drop_last() =~= s);
    }
}

/// A body is sent packed where that was asked for, it is of four kibibytes at least, and packing has
/// made it shorter; it then says so.
pub proof fn bodies_are_packed_where_it_is_worth_it(
    extra: Seq<char>,
    bytes: Seq<u8>,
    z: Seq<u8>,
)
    ensures
        bytes.len() >= 4096 && z.len() < bytes.len() ==> coded_of(true, extra, bytes, Some(z)) == (
            extra + "Content-Encoding: gzip\r\n"@,
            z,
        ),
        bytes.len() < 4096 || z.len() >= bytes.len() ==> coded_of(true, extra, bytes, Some(z)) == (
            extra,
            bytes,
        ),
        coded_of(true, extra, bytes, None) == (extra, bytes),
{
}

/// An answer keeps its status, is never stored, and is JSON; only one without a token is challenged.
pub proof fn answers_are_json_and_never_stored(
    status: u16,
    bytes: Seq<u8>,
    extra: Seq<char>,
    coded: Option<Seq<u8>>,
)
    ensures
        json_response_v(status, bytes, extra, false, coded).status == status,
        json_response_v(status, bytes, extra, true, coded).status == status,
        json_response_v(status, bytes, extra, false, coded).cache_control == "no-store"@,
        json_response_v(status, bytes, extra, false, coded).content_type == "application/json"@,
        json_response_v(status, bytes, extra, false, coded).body == bytes,
        status == 401 ==> json_response_v(status, bytes, extra, false, coded).extra
            == "WWW-Authenticate: Bearer\r\n"@ + extra,
        status != 401 ==> json_response_v(status, bytes, extra, false, coded).extra == extra,
        at(error_body_v(extra), "error"@) == Some(JsonV::Text(extra)),
{
    reveal_strlit("");
    assert(""@ + extra =~= extra);
    let f = error_body_v(extra)->Object_0;
    member_is_the_first(f, "error"@, 0);
}

/// An answer's head says how long its body is, what it is, and how it may be kept.
pub proof fn a_head_says_what_follows(r: ResponseV) -> (p: (Seq<char>, Seq<char>, Seq<char>))
    ensures
        head_of(r) == "HTTP/1.1 "@ + decimal(r.status as nat) + p.0 + r.content_type
            + "\r\nContent-Length: "@ + decimal(r.body.len()) + p.1 + r.cache_control + p.2 + r.extra
            + "\r\n"@,
        p.0 == " "@ + reason_of(r.status) + "\r\nContent-Type: "@,
        p.1 == "\r\nConnection: close\r\nCache-Control: "@,
{
    let a = " "@ + reason_of(r.status) + "\r\nContent-Type: "@;
    let b = "\r\nConnection: close\r\nCache-Control: "@;
    let c =
        "\r\nX-Content-Type-Options: nosniff\r\nReferrer-Policy: no-referrer\r\nVary: Origin, Accept-Encoding\r\n"@;
    assert("HTTP/1.1 "@ + decimal(r.status as nat) + a =~= "HTTP/1.1 "@ + decimal(r.status as nat)
        + " "@ + reason_of(r.status) + "\r\nContent-Type: "@);
    (a, b, c)
}

/// Packing is accepted where one of what the commas part names it and does not refuse it.
pub proof fn packing_is_accepted_by_name(part: Seq<char>)
    requires
        !part.contains(','),
    ensures
        accepts(Some(part)) == accepts_part(part),
        !part.contains(';') ==> accepts(Some(part)) == same_but_case(trimmed(part), "gzip"@),
        forall|rest: Seq<char>|
            accepts(Some(#[trigger] (part + seq![','] + rest))) == (accepts_part(part) || accepts(
                Some(rest),
            )),
        forall|name: Seq<char>, weight: Seq<char>|
            !name.contains(';') && !weight.contains(';') ==> accepts_part(
                #[trigger] (name + seq![';'] + weight),
            ) == (same_but_case(trimmed(name), "gzip"@) && !refuses(weight)),
        !accepts(None),
{
    first_index_is_first(part, ',');
    assert(split_on(part, ',') == seq![part]);
    assert(accepts(Some(part)) == accepts_part(part)) by {
        assert(seq![part][0] == part);
    }
    if !part.contains(';') {
        first_index_is_first(part, ';');
        assert(split_on(part, ';') == seq![part]);
    }
    assert forall|rest: Seq<char>|
        accepts(Some(#[trigger] (part + seq![','] + rest))) == (accepts_part(part) || accepts(
            Some(rest),
        )) by {
        let s = part + seq![','] + rest;
        first_index_is_first(s, ',');
        assert(s[part.len() as int] == ',');
        let i = first_index(s, ',');
        if i < part.len() {
            assert(part[i] == s[i]);
        }
        assert(s.take(i) =~= part);
        assert(s.skip(i + 1) =~= rest);
        let all = split_on(s, ',');
        let tail = split_on(rest, ',');
        assert(all == seq![part] + tail);
        assert(all[0] == part);
        if any_accepts(all) {
            let k = choose|k: int| 0 <= k < all.len() && accepts_part(#[trigger] all[k]);
            if k > 0 {
                assert(all[k] == tail[k - 1]);
            }
        }
        if any_accepts(tail) {
            let k = choose|k: int| 0 <= k < tail.len() && accepts_part(#[trigger] tail[k]);
            assert(all[k + 1] == tail[k]);
        }
    }
    assert forall|name: Seq<char>, weight: Seq<char>|
        !name.contains(';') && !weight.contains(';') implies accepts_part(
            #[trigger] (name + seq![';'] + weight),
        ) == (same_but_case(trimmed(name), "gzip"@) && !refuses(weight)) by {
        let s = name + seq![';'] + weight;
        first_index_is_first(s, ';');
        assert(s[name.len() as int] == ';');
        let i = first_index(s, ';');
        if i < name.len() {
            assert(name[i] == s[i]);
        }
        assert(s.take(i) =~= name);
        assert(s.skip(i + 1) =~= weight);
        first_index_is_first(weight, ';');
        assert(split_on(weight, ';') == seq![weight]);
        let p = split_on(s, ';');
        assert(p == seq![name] + seq![weight]);
        assert(p.len() == 2 && p[0] == name && p[1] == weight);
    }
}

/// A checksum is written in eight digits that are worth it, between quotes.
pub proof fn a_tag_is_eight_digits(content: Seq<u8>, n: nat, k: nat)
    ensures
        hex_fixed(n, k).len() == k,
        k > 0 ==> 16 * (n / 16) + hex_worth(hex_fixed(n, k).last()) == n,
        k > 0 ==> hex_fixed(n, k).drop_last() == hex_fixed(n / 16, (k - 1) as nat),
        etag_of(content).len() == 10,
        etag_of(content)[0] == '"' && etag_of(content)[9] == '"',
        etag_of(content).subrange(1, 9) == hex_fixed(crc32_of(content) as nat, 8),
    decreases k,
{
    if k > 0 {
        fixed_digits(n / 16, (k - 1) as nat);
        assert(hex_fixed(n, k).drop_last() =~= hex_fixed(n / 16, (k - 1) as nat));
        assert(hex_worth(hex_digit(n as int % 16)) == n as int % 16);
    }
    fixed_digits(crc32_of(content) as nat, 8);
    reveal_strlit("\"");
    assert(etag_of(content).subrange(1, 9) =~= hex_fixed(crc32_of(content) as nat, 8));
}

proof fn fixed_digits(n: nat, k: nat)
    ensures
        hex_fixed(n, k).len() == k,
    decreases k,
{
    if k > 0 {
        fixed_digits(n / 16, (k - 1) as nat);
    }
}

/// What a tile's tag is made of: every member but where it was served from, with nothing in the place
/// of what differs from one reading to the next. Every other value is kept, stripped in its turn.
pub proof fn a_tag_is_of_what_stays(
    o: Seq<(Seq<char>, JsonV)>,
    name: Seq<char>,
    v: JsonV,
    cost: bool,
)
    ensures
        name == "served_from"@ ==> stripped_fields(o.push((name, v)), cost) == stripped_fields(
            o,
            cost,
        ),
        name == "build_ms"@ || name == "in_flight"@ ==> stripped_fields(o.push((name, v)), cost)
            == stripped_fields(o, cost).push((name, JsonV::Null)),
        name == "fair_share"@ || name == "reserved"@ || name == "client"@ || name == "clients"@ || name
            == "in_flight_held"@ || name == "in_flight_share"@ ==> stripped_fields(
            o.push((name, v)),
            true,
        ) == stripped_fields(o, true).push((name, JsonV::Null)),
        name != "served_from"@ && name != "build_ms"@ && name != "in_flight"@ && name != "cost"@
            ==> stripped_fields(o.push((name, v)), false) == stripped_fields(o, false).push(
            (name, stripped(v)),
        ),
        name == "cost"@ ==> stripped_fields(o.push((name, v)), false) == stripped_fields(
            o,
            false,
        ).push((name, stripped_cost(v))),
        stripped(JsonV::Object(o)) == JsonV::Object(stripped_fields(o, false)),
        stripped_cost(JsonV::Object(o)) == JsonV::Object(stripped_fields(o, true)),
        !(v is Object || v is Array) ==> stripped(v) == v && stripped_cost(v) == v,
{
    assert("served_from"@ != "build_ms"@) by {
        reveal_strlit("served_from");
        reveal_strlit("build_ms");
        assert("served_from"@.len() != "build_ms"@.len());
    }
    assert("served_from"@ != "in_flight"@) by {
        reveal_strlit("served_from");
        reveal_strlit("in_flight");
        assert("served_from"@.len() != "in_flight"@.len());
    }
    assert("served_from"@ != "cost"@) by {
        reveal_strlit("served_from");
        reveal_strlit("cost");
        assert("served_from"@.len() != "cost"@.len());
    }
    assert("cost"@ != "build_ms"@) by {
        reveal_strlit("cost");
        reveal_strlit("build_ms");
        assert("cost"@.len() != "build_ms"@.len());
    }
    assert("cost"@ != "in_flight"@) by {
        reveal_strlit("cost");
        reveal_strlit("in_flight");
        assert("cost"@.len() != "in_flight"@.len());
    }
    assert("served_from"@ != "fair_share"@) by {
        reveal_strlit("served_from");
        reveal_strlit("fair_share");
        assert("served_from"@.len() != "fair_share"@.len());
    }
    assert("served_from"@ != "reserved"@) by {
        reveal_strlit("served_from");
        reveal_strlit("reserved");
        assert("served_from"@.len() != "reserved"@.len());
    }
    assert("served_from"@ != "client"@) by {
        reveal_strlit("served_from");
        reveal_strlit("client");
        assert("served_from"@.len() != "client"@.len());
    }
    assert("served_from"@ != "clients"@) by {
        reveal_strlit("served_from");
        reveal_strlit("clients");
        assert("served_from"@.len() != "clients"@.len());
    }
    assert("served_from"@ != "in_flight_held"@) by {
        reveal_strlit("served_from");
        reveal_strlit("in_flight_held");
        assert("served_from"@.len() != "in_flight_held"@.len());
    }
    assert("served_from"@ != "in_flight_share"@) by {
        reveal_strlit("served_from");
        reveal_strlit("in_flight_share");
        assert("served_from"@.len() != "in_flight_share"@.len());
    }
    let p = o.push((name, v));
    assert(p.drop_last() =~= o);
    assert(p.last() == (name, v));
}

/// A tag is matched where it is one of those that the reader holds.
pub proof fn a_tag_is_matched_by_itself(held: Seq<char>, tag: Seq<char>)
    requires
        !held.contains(','),
    ensures
        matches_tag(Some(held), tag) == (trimmed(held) == tag),
        !matches_tag(None, tag),
{
    first_index_is_first(held, ',');
    assert(split_on(held, ',') == seq![held]);
    assert(seq![held][0] == held);
}

/// A sealed tile may be kept for a year and carries its tag; the reader who holds it is sent none. One
/// that is not sealed is sent whole, and never kept.
pub proof fn sealed_tiles_are_kept(
    if_none_match: Option<Seq<char>>,
    bytes: Seq<u8>,
    canonical: Seq<u8>,
    coded: Option<Seq<u8>>,
)
    ensures
        tile_v(true, false, if_none_match, bytes, canonical, coded).cache_control
            == "public, max-age=31536000, immutable"@,
        tile_v(true, false, if_none_match, bytes, canonical, coded).extra == "ETag: "@ + etag_of(
            canonical,
        ) + "\r\n"@,
        tile_v(true, false, None, bytes, canonical, coded).status == 200,
        tile_v(true, false, None, bytes, canonical, coded).body == bytes,
        !matches_tag(if_none_match, etag_of(canonical)) ==> tile_v(
            true,
            false,
            if_none_match,
            bytes,
            canonical,
            coded,
        ).status == 200,
        tile_v(false, false, if_none_match, bytes, canonical, coded).body == bytes,
        tile_v(false, false, if_none_match, bytes, canonical, coded).extra == ""@,
{
}

/// A tile is sealed where it says so.
pub proof fn a_tile_is_sealed_where_it_says_so(o: Seq<(Seq<char>, JsonV)>)
    ensures
        sealed(JsonV::Object(o)) <==> member(o, "sealed"@) == Some(JsonV::Bool(true)),
        !sealed(JsonV::Null),
{
}

} // verus!
