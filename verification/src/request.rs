//! Requests: the head's grammar above the token level, the query, and what a request may do.

use std::time::SystemTime;
use vstd::prelude::*;
use vstd::utf8::{decode_utf8, encode_utf8, valid_utf8};

use crate::auth::{accepted, clock, expired_of, Token};
use crate::text::{
    a_remainder_is_what_else_is_there, a_text_is_cut_at_the_first, begins, first_chars, first_index,
    first_index_is_first, opt_string, opt_text, parse_unsigned, replace, replaced, same,
    same_but_case, same_ignoring_case, split, split_on, split_once, split_once_at, split_once_on,
    split_once_text, strip_prefix, take_chars, texts, trim, trim_end_matches, trim_end_of, trimmed,
    unsigned, utf8, without_prefix,
};

verus! {

/// Largest request head accepted.
pub const MAX_HEAD: usize = 16384;

/// Largest request body accepted.
pub const MAX_BODY: usize = 65536;

/// Most header lines accepted.
pub const MAX_HEADERS: usize = 32;

/// Names with values, as characters.
pub open spec fn pairs(v: Seq<(String, String)>) -> Seq<(Seq<char>, Seq<char>)> {
    v.map_values(|p: (String, String)| (p.0@, p.1@))
}

/// The value of the first pair called `name`.
pub open spec fn value_of(v: Seq<(Seq<char>, Seq<char>)>, name: Seq<char>) -> Option<Seq<char>>
    decreases v.len(),
{
    if v.len() == 0 {
        None
    } else if v[0].0 == name {
        Some(v[0].1)
    } else {
        value_of(v.skip(1), name)
    }
}

/// The value of the first header called `name`, whatever the case of its letters.
pub open spec fn header_of(v: Seq<(Seq<char>, Seq<char>)>, name: Seq<char>) -> Option<Seq<char>>
    decreases v.len(),
{
    if v.len() == 0 {
        None
    } else if same_but_case(v[0].0, name) {
        Some(v[0].1)
    } else {
        header_of(v.skip(1), name)
    }
}

/// [`value_of`].
pub fn find_value<'a>(v: &'a [(String, String)], name: &str) -> (r: Option<&'a str>)
    ensures
        opt_text(r) == value_of(pairs(v@), name@),
{
    let ghost p = pairs(v@);
    let mut i: usize = 0;
    assert(p.skip(0) =~= p);
    while i < v.len()
        invariant
            p == pairs(v@),
            i <= v@.len(),
            value_of(p, name@) == value_of(p.skip(i as int), name@),
        decreases v@.len() - i,
    {
        assert(p.skip(i as int)[0] == (v@[i as int].0@, v@[i as int].1@));
        if same(v[i].0.as_str(), name) {
            return Some(v[i].1.as_str());
        }
        assert(p.skip(i as int).skip(1) =~= p.skip(i + 1));
        i += 1;
    }
    None
}

/// [`header_of`].
pub fn find_header<'a>(v: &'a [(String, String)], name: &str) -> (r: Option<&'a str>)
    ensures
        opt_text(r) == header_of(pairs(v@), name@),
{
    let ghost p = pairs(v@);
    let mut i: usize = 0;
    assert(p.skip(0) =~= p);
    while i < v.len()
        invariant
            p == pairs(v@),
            i <= v@.len(),
            header_of(p, name@) == header_of(p.skip(i as int), name@),
        decreases v@.len() - i,
    {
        assert(p.skip(i as int)[0] == (v@[i as int].0@, v@[i as int].1@));
        if same_ignoring_case(v[i].0.as_str(), name) {
            return Some(v[i].1.as_str());
        }
        assert(p.skip(i as int).skip(1) =~= p.skip(i + 1));
        i += 1;
    }
    None
}

// ---------------------------------------------------------------------------------------------
// Percent decoding
// ---------------------------------------------------------------------------------------------

/// The value of a hexadecimal digit.
pub open spec fn hex_value(b: u8) -> Option<u8> {
    if 48 <= b <= 57 {
        Some((b - 48) as u8)
    } else if 65 <= b <= 70 {
        Some((b - 55) as u8)
    } else if 97 <= b <= 102 {
        Some((b - 87) as u8)
    } else {
        None
    }
}

/// The byte that two characters behind a `%` write: two hexadecimal digits, or one behind a `+`.
pub open spec fn hex_pair(a: u8, b: u8) -> Option<u8> {
    match (hex_value(a), hex_value(b)) {
        (Some(x), Some(y)) => Some((16 * x + y) as u8),
        (None, Some(y)) => if a == 43 {
            Some(y)
        } else {
            None
        },
        _ => None,
    }
}

/// The bytes that percent-encoded bytes stand for; `None` where an escape is malformed.
pub open spec fn percent_bytes(b: Seq<u8>) -> Option<Seq<u8>>
    decreases b.len(),
{
    if b.len() == 0 {
        Some(Seq::empty())
    } else if b[0] == 37 {
        if b.len() < 3 {
            None
        } else {
            match (hex_pair(b[1], b[2]), percent_bytes(b.skip(3))) {
                (Some(x), Some(rest)) => Some(seq![x] + rest),
                _ => None,
            }
        }
    } else {
        match percent_bytes(b.skip(1)) {
            Some(rest) => Some(seq![b[0]] + rest),
            None => None,
        }
    }
}

/// The text that percent-encoded text stands for; `None` where an escape is malformed or the
/// bytes are not UTF-8.
pub open spec fn percent_text(s: Seq<char>) -> Option<Seq<char>> {
    match percent_bytes(encode_utf8(s)) {
        Some(b) => if valid_utf8(b) {
            Some(decode_utf8(b))
        } else {
            None
        },
        None => None,
    }
}

/// [`hex_value`].
pub fn hex_of(b: u8) -> (r: Option<u8>)
    ensures
        r == hex_value(b),
        r matches Some(x) ==> x < 16,
{
    if 48 <= b && b <= 57 {
        Some(b - 48)
    } else if 65 <= b && b <= 70 {
        Some(b - 55)
    } else if 97 <= b && b <= 102 {
        Some(b - 87)
    } else {
        None
    }
}

/// [`percent_text`].
pub fn percent_decode(s: &str) -> (r: Option<String>)
    ensures
        opt_string(r) == percent_text(s@),
{
    let b = s.as_bytes();
    let n = b.len();
    let mut out: Vec<u8> = Vec::new();
    let mut i: usize = 0;
    assert(b@.skip(0) =~= b@);
    while i < n
        invariant
            b@ == encode_utf8(s@),
            n == b@.len(),
            i <= n,
            match percent_bytes(b@.skip(i as int)) {
                Some(rest) => percent_bytes(b@) == Some(out@ + rest),
                None => percent_bytes(b@) is None,
            },
        decreases n - i,
    {
        let ghost rest = b@.skip(i as int);
        if b[i] == 37 {
            if n - i < 3 {
                return None;
            }
            let hi = hex_of(b[i + 1]);
            let lo = hex_of(b[i + 2]);
            let x: u8 = match (hi, lo) {
                (Some(x), Some(y)) => x * 16 + y,
                (None, Some(y)) => {
                    if b[i + 1] != 43 {
                        return None;
                    }
                    y
                },
                _ => return None,
            };
            assert(rest.skip(3) =~= b@.skip(i + 3));
            let ghost before = out@;
            out.push(x);
            proof {
                assert(hex_pair(rest[1], rest[2]) == Some(x));
                if percent_bytes(rest.skip(3)) is Some {
                    let t = percent_bytes(rest.skip(3))->0;
                    assert(before + (seq![x] + t) =~= out@ + t);
                }
            }
            i += 3;
        } else {
            assert(rest.skip(1) =~= b@.skip(i + 1));
            let ghost before = out@;
            out.push(b[i]);
            proof {
                if percent_bytes(rest.skip(1)) is Some {
                    let t = percent_bytes(rest.skip(1))->0;
                    assert(before + (seq![rest[0]] + t) =~= out@ + t);
                }
            }
            i += 1;
        }
    }
    proof {
        assert(b@.skip(n as int) =~= Seq::empty());
        assert(out@ + Seq::<u8>::empty() =~= out@);
    }
    utf8(out)
}

/// Text without a `%` decodes to itself.
pub proof fn plain_text_decodes_to_itself(s: Seq<char>)
    requires
        forall|i: int| 0 <= i < encode_utf8(s).len() ==> encode_utf8(s)[i] != 37,
    ensures
        percent_text(s) == Some(s),
{
    plain_bytes(encode_utf8(s));
    vstd::utf8::encode_utf8_valid_utf8(s);
    vstd::utf8::encode_utf8_decode_utf8(s);
}

proof fn plain_bytes(b: Seq<u8>)
    requires
        forall|i: int| 0 <= i < b.len() ==> b[i] != 37,
    ensures
        percent_bytes(b) == Some(b),
    decreases b.len(),
{
    if b.len() > 0 {
        assert forall|i: int| 0 <= i < b.skip(1).len() implies b.skip(1)[i] != 37 by {
            assert(b.skip(1)[i] == b[i + 1]);
        }
        plain_bytes(b.skip(1));
        assert(seq![b[0]] + b.skip(1) =~= b);
    } else {
        assert(b =~= Seq::empty());
    }
}

// ---------------------------------------------------------------------------------------------
// The query
// ---------------------------------------------------------------------------------------------

/// One `name=value` of a query, both decoded; the value empty without a `=`.
pub open spec fn query_pair(kv: Seq<char>) -> Option<(Seq<char>, Seq<char>)> {
    let (k, v) = match split_once_on(kv, '=') {
        Some((k, v)) => (k, v),
        None => (kv, Seq::empty()),
    };
    match (percent_text(replaced(k, '+', ' ')), percent_text(replaced(v, '+', ' '))) {
        (Some(k), Some(v)) => Some((k, v)),
        _ => None,
    }
}

/// The pairs of some pieces of a query, the empty ones left out; `None` where one is malformed.
pub open spec fn query_pairs(pieces: Seq<Seq<char>>) -> Option<Seq<(Seq<char>, Seq<char>)>>
    decreases pieces.len(),
{
    if pieces.len() == 0 {
        Some(Seq::empty())
    } else {
        match query_pairs(pieces.drop_last()) {
            None => None,
            Some(before) => if pieces.last().len() == 0 {
                Some(before)
            } else {
                match query_pair(pieces.last()) {
                    Some(p) => Some(before.push(p)),
                    None => None,
                }
            },
        }
    }
}

/// The pairs of a query.
pub open spec fn query_of(q: Seq<char>) -> Option<Seq<(Seq<char>, Seq<char>)>> {
    query_pairs(split_on(q, '&'))
}

/// A malformed piece anywhere makes the query malformed.
proof fn malformed_piece(pieces: Seq<Seq<char>>, i: int)
    requires
        0 <= i <= pieces.len(),
        query_pairs(pieces.take(i)) is None,
    ensures
        query_pairs(pieces) is None,
    decreases pieces.len() - i,
{
    if i < pieces.len() {
        assert(pieces.take(i + 1).drop_last() =~= pieces.take(i));
        malformed_piece(pieces, i + 1);
    } else {
        assert(pieces.take(i) =~= pieces);
    }
}

/// [`query_of`].
pub fn parse_query(q: &str) -> (r: Option<Vec<(String, String)>>)
    ensures
        match r {
            Some(v) => query_of(q@) == Some(pairs(v@)),
            None => query_of(q@) is None,
        },
{
    let pieces = split(q, '&');
    let ghost t = texts(pieces@);
    let mut out: Vec<(String, String)> = Vec::new();
    let mut i: usize = 0;
    assert(t.take(0) =~= Seq::empty());
    assert(pairs(out@) =~= Seq::empty());
    while i < pieces.len()
        invariant
            t == texts(pieces@),
            t == split_on(q@, '&'),
            i <= pieces@.len(),
            query_pairs(t.take(i as int)) == Some(pairs(out@)),
        decreases pieces@.len() - i,
    {
        let kv = pieces[i];
        proof {
            assert(t.take(i + 1).drop_last() =~= t.take(i as int));
            assert(t.take(i + 1).last() == kv@);
        }
        if !kv.is_empty() {
            let (k, v) = match split_once(kv, '=') {
                Some((k, v)) => (k, v),
                None => (kv, ""),
            };
            proof {
                reveal_strlit("");
                assert(""@ =~= Seq::<char>::empty());
            }
            let rk = replace(k, '+', ' ');
            let rv = replace(v, '+', ' ');
            let dk = percent_decode(rk.as_str());
            let dv = percent_decode(rv.as_str());
            match (dk, dv) {
                (Some(dk), Some(dv)) => {
                    let ghost before = out@;
                    out.push((dk, dv));
                    assert(pairs(out@) =~= pairs(before).push((dk@, dv@)));
                },
                _ => {
                    proof {
                        assert(query_pairs(t.take(i + 1)) is None);
                        malformed_piece(t, i + 1);
                    }
                    return None;
                },
            }
        }
        i += 1;
    }
    assert(t.take(pieces@.len() as int) =~= t);
    Some(out)
}

// ---------------------------------------------------------------------------------------------
// The head
// ---------------------------------------------------------------------------------------------

/// The parts of a request head.
pub struct Head {
    /// The method.
    pub method: Option<String>,
    /// The request target.
    pub target: Option<String>,
    /// Header names and the raw bytes of their values, in order.
    pub headers: Vec<(String, Vec<u8>)>,
}

/// What a [`Head`] holds.
#[verifier::ext_equal]
pub struct HeadV {
    /// The method.
    pub method: Option<Seq<char>>,
    /// The request target.
    pub target: Option<Seq<char>>,
    /// Header names and the raw bytes of their values.
    pub headers: Seq<(Seq<char>, Seq<u8>)>,
}

impl Head {
    /// What the head holds.
    pub open spec fn view(&self) -> HeadV {
        HeadV {
            method: opt_string(self.method),
            target: opt_string(self.target),
            headers: self.headers@.map_values(|h: (String, Vec<u8>)| (h.0@, h.1@)),
        }
    }
}

/// What `httparse` reads in a head of at most `max` header lines; `None` where the head is
/// malformed, partial or has more.
pub uninterp spec fn head_of(head: Seq<u8>, max: nat) -> Option<HeadV>;

/// `httparse::Request::parse` with room for `max` headers, complete heads only. The grammar of a
/// request head is not restated.
#[verifier::external_body]
fn parse_head(head: &[u8], max: usize) -> (r: Option<Head>)
    ensures
        match r {
            Some(h) => head_of(head@, max as nat) == Some(h@),
            None => head_of(head@, max as nat) is None,
        },
{
    let mut lines = vec![httparse::EMPTY_HEADER; max];
    let mut req = httparse::Request::new(&mut lines);
    match req.parse(head) {
        Ok(httparse::Status::Complete(_)) => Some(Head {
            method: req.method.map(str::to_owned),
            target: req.path.map(str::to_owned),
            headers: req.headers.iter().map(|h| (h.name.to_owned(), h.value.to_vec())).collect(),
        }),
        _ => None,
    }
}

/// A parsed request.
pub struct Request {
    /// The method.
    pub method: String,
    /// The decoded path.
    pub path: String,
    /// The decoded query.
    pub query: Vec<(String, String)>,
    /// The headers whose values are text.
    pub headers: Vec<(String, String)>,
    /// The body.
    pub body: Vec<u8>,
}

/// What a [`Request`] holds.
#[verifier::ext_equal]
pub struct RequestV {
    /// The method.
    pub method: Seq<char>,
    /// The decoded path.
    pub path: Seq<char>,
    /// The decoded query.
    pub query: Seq<(Seq<char>, Seq<char>)>,
    /// The headers whose values are text.
    pub headers: Seq<(Seq<char>, Seq<char>)>,
    /// The body.
    pub body: Seq<u8>,
}

/// The methods that are parsed.
pub open spec fn known_method(m: Seq<char>) -> bool {
    m == "GET"@ || m == "POST"@ || m == "PUT"@ || m == "DELETE"@ || m == "OPTIONS"@
}

/// The headers whose values are UTF-8.
pub open spec fn text_headers(h: Seq<(Seq<char>, Seq<u8>)>) -> Seq<(Seq<char>, Seq<char>)>
    decreases h.len(),
{
    if h.len() == 0 {
        Seq::empty()
    } else {
        let before = text_headers(h.drop_last());
        if valid_utf8(h.last().1) {
            before.push((h.last().0, decode_utf8(h.last().1)))
        } else {
            before
        }
    }
}

/// The request of a head, without its body, or the status that refuses it: 405 for a method that
/// is not known, 400 for a target that does not decode.
pub open spec fn request_of_head(h: HeadV) -> Result<RequestV, u16> {
    match h.method {
        Some(m) if known_method(m) => match h.target {
            None => Err(400),
            Some(t) => {
                let (path, raw) = match split_once_on(t, '?') {
                    Some((p, q)) => (p, q),
                    None => (t, Seq::empty()),
                };
                match (percent_text(path), query_of(raw)) {
                    (Some(path), Some(query)) => Ok(
                        RequestV {
                            method: m,
                            path,
                            query,
                            headers: text_headers(h.headers),
                            body: Seq::empty(),
                        },
                    ),
                    _ => Err(400),
                }
            },
        },
        _ => Err(405),
    }
}

/// The request of a parsed head, or the status that refuses it; 400 where the head did not parse.
pub open spec fn request_of(h: Option<HeadV>) -> Result<RequestV, u16> {
    match h {
        Some(h) => request_of_head(h),
        None => Err(400),
    }
}

/// What a result holds.
pub open spec fn request_result(r: Result<Request, u16>) -> Result<RequestV, u16> {
    match r {
        Ok(x) => Ok(x@),
        Err(e) => Err(e),
    }
}

/// What an optional head holds.
pub open spec fn head_view(h: Option<Head>) -> Option<HeadV> {
    match h {
        Some(h) => Some(h@),
        None => None,
    }
}

/// [`request_of`].
pub fn build_request(parsed: Option<Head>) -> (r: Result<Request, u16>)
    ensures
        request_result(r) == request_of(head_view(parsed)),
{
    let head = match parsed {
        Some(h) => h,
        None => return Err(400),
    };
    let ghost hv = head@;
    let method = match head.method {
        Some(m) => m,
        None => return Err(405),
    };
    let m = method.as_str();
    if !(same(m, "GET") || same(m, "POST") || same(m, "PUT") || same(m, "DELETE") || same(
        m,
        "OPTIONS",
    )) {
        return Err(405);
    }
    let target = match head.target {
        Some(t) => t,
        None => return Err(400),
    };
    let (raw_path, raw_query) = match split_once(target.as_str(), '?') {
        Some((p, q)) => (p, q),
        None => (target.as_str(), ""),
    };
    proof {
        reveal_strlit("");
        assert(""@ =~= Seq::<char>::empty());
    }
    let path = match percent_decode(raw_path) {
        Some(p) => p,
        None => return Err(400),
    };
    let query = match parse_query(raw_query) {
        Some(q) => q,
        None => return Err(400),
    };
    let headers = keep_text_headers(head.headers);
    Ok(Request { method, path, query, headers, body: Vec::new() })
}

fn keep_text_headers(h: Vec<(String, Vec<u8>)>) -> (r: Vec<(String, String)>)
    ensures
        pairs(r@) == text_headers(h@.map_values(|h: (String, Vec<u8>)| (h.0@, h.1@))),
{
    let ghost all = h@.map_values(|h: (String, Vec<u8>)| (h.0@, h.1@));
    let mut out: Vec<(String, String)> = Vec::new();
    let mut i: usize = 0;
    assert(all.take(0) =~= Seq::empty());
    assert(pairs(out@) =~= Seq::empty());
    while i < h.len()
        invariant
            all == h@.map_values(|h: (String, Vec<u8>)| (h.0@, h.1@)),
            i <= h@.len(),
            pairs(out@) == text_headers(all.take(i as int)),
        decreases h@.len() - i,
    {
        proof {
            assert(all.take(i + 1).drop_last() =~= all.take(i as int));
            assert(all.take(i + 1).last() == (h@[i as int].0@, h@[i as int].1@));
        }
        let value = h[i].1.clone();
        assert(value@ =~= h@[i as int].1@);
        if let Some(v) = utf8(value) {
            let ghost before = out@;
            let name = h[i].0.clone();
            out.push((name, v));
            assert(pairs(out@) =~= pairs(before).push((name@, v@)));
        }
        i += 1;
    }
    assert(all.take(h@.len() as int) =~= all);
    out
}

/// The request of a head, or the status that refuses it.
pub fn parse_request(head: &[u8]) -> (r: Result<Request, u16>)
    ensures
        request_result(r) == request_of(head_of(head@, MAX_HEADERS as nat)),
{
    build_request(parse_head(head, MAX_HEADERS))
}

// ---------------------------------------------------------------------------------------------
// Reading a request
// ---------------------------------------------------------------------------------------------

/// What to do with the bytes that have arrived.
pub enum ReadStep {
    /// Read on.
    More,
    /// Answer with this status.
    Refuse(u16),
    /// The request is complete.
    Done(Request),
}

/// What a [`ReadStep`] holds.
#[verifier::ext_equal]
pub enum ReadStepV {
    /// Read on.
    More,
    /// Answer with this status.
    Refuse(u16),
    /// The request is complete.
    Done(RequestV),
}

impl ReadStep {
    /// What the step holds.
    pub open spec fn view(&self) -> ReadStepV {
        match self {
            ReadStep::More => ReadStepV::More,
            ReadStep::Refuse(s) => ReadStepV::Refuse(*s),
            ReadStep::Done(r) => ReadStepV::Done(r@),
        }
    }
}

/// Whether the blank line that ends a head begins at `i`.
pub open spec fn blank_line_at(b: Seq<u8>, i: int) -> bool {
    0 <= i && i + 4 <= b.len() && b[i] == 13 && b[i + 1] == 10 && b[i + 2] == 13 && b[i + 3] == 10
}

/// The length of the head, its blank line included; `None` while it has not ended.
pub open spec fn head_len(b: Seq<u8>) -> Option<nat>
    decreases b.len(),
{
    if blank_line_at(b, 0) {
        Some(4)
    } else if b.len() == 0 {
        None
    } else {
        match head_len(b.skip(1)) {
            Some(n) => Some(n + 1),
            None => None,
        }
    }
}

/// The body length that a request declares; `None` where it is not a number.
pub open spec fn declared_len(r: RequestV) -> Option<nat> {
    match header_of(r.headers, "content-length"@) {
        None => Some(0),
        Some(v) => unsigned(trimmed(v), usize::MAX as nat),
    }
}

/// What follows once the head has parsed as `parsed`: 411 for a transfer coding, 400 for a length
/// that is no number, 413 for one over [`MAX_BODY`]; then the body must arrive whole.
pub open spec fn body_step(parsed: Result<RequestV, u16>, rest: Seq<u8>) -> ReadStepV {
    match parsed {
        Err(s) => ReadStepV::Refuse(s),
        Ok(r) => if header_of(r.headers, "transfer-encoding"@) is Some {
            ReadStepV::Refuse(411)
        } else {
            match declared_len(r) {
                None => ReadStepV::Refuse(400),
                Some(len) => if len > MAX_BODY {
                    ReadStepV::Refuse(413)
                } else if rest.len() < len {
                    ReadStepV::More
                } else {
                    ReadStepV::Done(RequestV { body: rest.take(len as int), ..r })
                },
            }
        },
    }
}

/// What to do with the bytes that have arrived so far: 431 for a head over [`MAX_HEAD`].
pub open spec fn read_step_of(b: Seq<u8>) -> ReadStepV {
    match head_len(b) {
        None => if b.len() > MAX_HEAD {
            ReadStepV::Refuse(431)
        } else {
            ReadStepV::More
        },
        Some(n) => if n > MAX_HEAD {
            ReadStepV::Refuse(431)
        } else {
            body_step(
                request_of(head_of(b.take(n as int), MAX_HEADERS as nat)),
                b.skip(n as int),
            )
        },
    }
}

/// [`head_len`] counts the blank line and no more than what has arrived.
pub proof fn head_len_in_range(b: Seq<u8>)
    ensures
        head_len(b) matches Some(n) ==> 4 <= n <= b.len() && blank_line_at(b, n - 4),
        head_len(b) is None ==> forall|i: int| !blank_line_at(b, i),
    decreases b.len(),
{
    if !blank_line_at(b, 0) && b.len() > 0 {
        let t = b.skip(1);
        head_len_in_range(t);
        if head_len(b) is None {
            assert forall|i: int| !blank_line_at(b, i) by {
                if blank_line_at(b, i) {
                    assert(i > 0);
                    assert(blank_line_at(t, i - 1));
                }
            }
        }
    }
}

/// What a connection can make the server hold is bounded: no more is read once a head and a body
/// of the largest sizes have arrived, and no body is longer than the largest.
pub proof fn requests_are_bounded(b: Seq<u8>)
    ensures
        read_step_of(b) is More ==> b.len() < MAX_HEAD + MAX_BODY,
        read_step_of(b) matches ReadStepV::Done(r) ==> r.body.len() <= MAX_BODY,
{
    head_len_in_range(b);
}

/// [`head_len`].
fn find_head(b: &Vec<u8>) -> (r: Option<usize>)
    ensures
        match r {
            Some(n) => head_len(b@) == Some(n as nat) && n <= b@.len(),
            None => head_len(b@) is None,
        },
{
    let n = b.len();
    let mut i: usize = 0;
    proof {
        head_len_in_range(b@);
        assert(b@.skip(0) =~= b@);
    }
    while i < n
        invariant
            n == b@.len(),
            i <= n,
            match head_len(b@.skip(i as int)) {
                Some(k) => head_len(b@) == Some((k + i) as nat),
                None => head_len(b@) is None,
            },
        decreases n - i,
    {
        let ghost rest = b@.skip(i as int);
        if n - i >= 4 && b[i] == 13 && b[i + 1] == 10 && b[i + 2] == 13 && b[i + 3] == 10 {
            assert(blank_line_at(rest, 0));
            return Some(i + 4);
        }
        assert(!blank_line_at(rest, 0));
        assert(rest.skip(1) =~= b@.skip(i + 1));
        i += 1;
    }
    None
}

/// [`body_step`].
pub fn finish_request(parsed: Result<Request, u16>, rest: Vec<u8>) -> (r: ReadStep)
    ensures
        r@ == body_step(request_result(parsed), rest@),
{
    let mut req = match parsed {
        Err(s) => return ReadStep::Refuse(s),
        Ok(req) => req,
    };
    if req.header("transfer-encoding").is_some() {
        return ReadStep::Refuse(411);
    }
    let len: usize = match req.header("content-length") {
        None => 0,
        Some(v) => match parse_unsigned(trim(v), usize::MAX as u64) {
            Some(n) => n as usize,
            None => return ReadStep::Refuse(400),
        },
    };
    if len > MAX_BODY {
        return ReadStep::Refuse(413);
    }
    if rest.len() < len {
        return ReadStep::More;
    }
    let mut body = rest;
    body.truncate(len);
    assert(body@ =~= rest@.take(len as int));
    req.body = body;
    ReadStep::Done(req)
}

/// [`read_step_of`].
pub fn read_step(bytes: &Vec<u8>) -> (r: ReadStep)
    ensures
        r@ == read_step_of(bytes@),
{
    let n = match find_head(bytes) {
        None => return if bytes.len() > MAX_HEAD {
            ReadStep::Refuse(431)
        } else {
            ReadStep::More
        },
        Some(n) => n,
    };
    if n > MAX_HEAD {
        return ReadStep::Refuse(431);
    }
    let mut head = bytes.clone();
    let rest = head.split_off(n);
    assert(head@ =~= bytes@.take(n as int));
    assert(rest@ =~= bytes@.skip(n as int));
    finish_request(parse_request(head.as_slice()), rest)
}

/// What reading on gave.
pub enum Arrived<'a> {
    /// These bytes; none at the end of the input.
    Read(&'a [u8]),
    /// The read failed, or took too long.
    Failed,
}

/// What an [`Arrived`] holds.
pub enum ArrivedV {
    /// These bytes.
    Read(Seq<u8>),
    /// The read failed.
    Failed,
}

impl<'a> Arrived<'a> {
    /// What it holds.
    pub open spec fn view(&self) -> ArrivedV {
        match self {
            Arrived::Read(b) => ArrivedV::Read(b@),
            Arrived::Failed => ArrivedV::Failed,
        }
    }
}

/// What is done after reading on, where `held` had arrived before: 400 where the input ends early,
/// 408 where it does not come.
pub open spec fn arrival_step(held: Seq<u8>, a: ArrivedV) -> ReadStepV {
    match a {
        ArrivedV::Read(b) => if b.len() == 0 {
            ReadStepV::Refuse(400)
        } else {
            read_step_of(held + b)
        },
        ArrivedV::Failed => ReadStepV::Refuse(408),
    }
}

/// A request that is arriving.
pub struct Incoming {
    bytes: Vec<u8>,
}

impl Incoming {
    /// The bytes that have arrived.
    pub closed spec fn view(&self) -> Seq<u8> {
        self.bytes@
    }

    /// Nothing has arrived.
    pub fn new() -> (r: Incoming)
        ensures
            r@ == Seq::<u8>::empty(),
    {
        Incoming { bytes: Vec::new() }
    }

    /// [`arrival_step`].
    pub fn take(&mut self, a: Arrived) -> (r: ReadStep)
        ensures
            r@ == arrival_step(old(self)@, a@),
            final(self)@ == (match a@ {
                ArrivedV::Read(b) => old(self)@ + b,
                ArrivedV::Failed => old(self)@,
            }),
    {
        match a {
            Arrived::Failed => ReadStep::Refuse(408),
            Arrived::Read(b) => {
                let n = b.len();
                let ghost held = self.bytes@;
                let mut i: usize = 0;
                assert(held + b@.take(0) =~= held);
                while i < n
                    invariant
                        n == b@.len(),
                        i <= n,
                        self.bytes@ == held + b@.take(i as int),
                    decreases n - i,
                {
                    self.bytes.push(b[i]);
                    assert(self.bytes@ =~= held + b@.take(i + 1));
                    i += 1;
                }
                assert(b@.take(n as int) =~= b@);
                if n == 0 {
                    return ReadStep::Refuse(400);
                }
                read_step(&self.bytes)
            },
        }
    }
}

proof fn a_head_stays(b: Seq<u8>, more: Seq<u8>)
    requires
        head_len(b) is Some,
    ensures
        head_len(b + more) == head_len(b),
    decreases b.len(),
{
    if !blank_line_at(b, 0) && b.len() > 0 {
        a_head_stays(b.skip(1), more);
        assert((b + more).skip(1) =~= b.skip(1) + more);
        assert(!blank_line_at(b + more, 0)) by {
            head_len_in_range(b.skip(1));
            assert(b.len() >= 5);
        }
    }
}

/// What is decided of a request stays decided, whatever arrives behind it.
pub proof fn decided_requests_stay(b: Seq<u8>, more: Seq<u8>)
    requires
        !(read_step_of(b) is More),
    ensures
        read_step_of(b + more) == read_step_of(b),
{
    head_len_in_range(b);
    match head_len(b) {
        Some(n) => {
            a_head_stays(b, more);
            assert((b + more).take(n as int) =~= b.take(n as int));
            assert((b + more).skip(n as int) =~= b.skip(n as int) + more);
            if n <= MAX_HEAD {
                if let Ok(r) = request_of(head_of(b.take(n as int), MAX_HEADERS as nat)) {
                    if let Some(len) = declared_len(r) {
                        let rest = b.skip(n as int);
                        if len <= rest.len() {
                            assert((rest + more).take(len as int) =~= rest.take(len as int));
                        }
                    }
                }
            }
        },
        None => {
            head_len_in_range(b + more);
            if let Some(n) = head_len(b + more) {
                if n <= b.len() {
                    assert(blank_line_at(b, n - 4));
                }
            }
        },
    }
}

/// The bytes of some pieces, one behind the other.
pub open spec fn gathered(pieces: Seq<Seq<u8>>) -> Seq<u8>
    decreases pieces.len(),
{
    if pieces.len() == 0 {
        Seq::empty()
    } else {
        pieces[0] + gathered(pieces.skip(1))
    }
}

/// What reading some pieces in turn comes to, where `held` had arrived before: what the first piece
/// that decides it decides.
pub open spec fn read_through(held: Seq<u8>, pieces: Seq<Seq<u8>>) -> ReadStepV
    decreases pieces.len(),
{
    if pieces.len() == 0 {
        ReadStepV::More
    } else {
        let step = arrival_step(held, ArrivedV::Read(pieces[0]));
        if step is More {
            read_through(held + pieces[0], pieces.skip(1))
        } else {
            step
        }
    }
}

/// How a request is cut into pieces on its way makes no difference.
pub proof fn pieces_make_no_difference(held: Seq<u8>, pieces: Seq<Seq<u8>>)
    requires
        read_step_of(held) is More,
        forall|i: int| 0 <= i < pieces.len() ==> (#[trigger] pieces[i]).len() > 0,
    ensures
        read_through(held, pieces) == read_step_of(held + gathered(pieces)),
    decreases pieces.len(),
{
    if pieces.len() == 0 {
        assert(held + gathered(pieces) =~= held);
    } else {
        let next = held + pieces[0];
        let rest = pieces.skip(1);
        assert(held + gathered(pieces) =~= next + gathered(rest));
        if read_step_of(next) is More {
            assert forall|i: int| 0 <= i < rest.len() implies (#[trigger] rest[i]).len() > 0 by {
                assert(rest[i] == pieces[i + 1]);
            }
            pieces_make_no_difference(next, rest);
        } else {
            decided_requests_stay(next, gathered(rest));
        }
    }
}

// ---------------------------------------------------------------------------------------------
// What a request may do
// ---------------------------------------------------------------------------------------------

/// The token in an `Authorization` header: behind `Bearer ` or `bearer `, white space aside.
pub open spec fn bearer_of(headers: Seq<(Seq<char>, Seq<char>)>) -> Option<Seq<char>> {
    match header_of(headers, "authorization"@) {
        None => None,
        Some(v) => match without_prefix(v, "Bearer "@) {
            Some(t) => Some(trimmed(t)),
            None => match without_prefix(v, "bearer "@) {
                Some(t) => Some(trimmed(t)),
                None => None,
            },
        },
    }
}

/// The token that a read may be authorised by: the header's, else the query's.
pub open spec fn offered_token(r: RequestV) -> Option<Seq<char>> {
    match bearer_of(r.headers) {
        Some(b) => Some(b),
        None => value_of(r.query, "token"@),
    }
}

/// A request shows the token: what it carries is accepted. No credential shows nothing.
pub open spec fn shown(credential: Option<Seq<char>>, token: Seq<char>, expired: bool) -> bool {
    credential matches Some(c) && accepted(token, c, expired)
}

/// A header token decides alone, right or wrong: the query counts only where there is none.
pub proof fn the_header_decides_before_the_query(r: RequestV, token: Seq<char>, expired: bool)
    ensures
        bearer_of(r.headers) matches Some(b) ==> shown(offered_token(r), token, expired)
            == accepted(token, b, expired),
        bearer_of(r.headers) is None ==> shown(offered_token(r), token, expired) == (value_of(
            r.query,
            "token"@,
        ) matches Some(q) && accepted(token, q, expired)),
        bearer_of(r.headers) is None && value_of(r.query, "token"@) is None ==> !shown(
            offered_token(r),
            token,
            expired,
        ),
{
}

/// What the header authorises depends on the headers alone, whatever the method, the path, the
/// query and the body; without an `Authorization` header it is nothing.
pub proof fn headers_alone_authorise(a: RequestV, b: RequestV, token: Seq<char>, expired: bool)
    requires
        a.headers == b.headers,
    ensures
        shown(bearer_of(a.headers), token, expired) == shown(bearer_of(b.headers), token, expired),
        header_of(a.headers, "authorization"@) is None ==> !shown(
            bearer_of(a.headers),
            token,
            expired,
        ),
{
}

/// An expired token is shown by nothing.
pub proof fn expired_tokens_are_never_shown(credential: Option<Seq<char>>, token: Seq<char>)
    ensures
        !shown(credential, token, true),
{
}

/// Whether a header value names the host `authority`: the first of a comma-separated list does,
/// the case of letters aside.
pub open spec fn names_host(value: Option<Seq<char>>, authority: Seq<char>) -> bool {
    match value {
        Some(h) => same_but_case(trimmed(split_on(h, ',')[0]), authority),
        None => false,
    }
}

/// A browser `Origin` that names another host than the one addressed. `X-Forwarded-Host` counts
/// only from a loopback peer.
pub open spec fn crosses_origin(
    headers: Seq<(Seq<char>, Seq<char>)>,
    loopback_peer: bool,
) -> bool {
    match header_of(headers, "origin"@) {
        None => false,
        Some(origin) => match split_once_at(trimmed(origin), "://"@) {
            None => true,
            Some((_, authority)) => {
                let a = trim_end_of(authority, '/');
                !((loopback_peer && names_host(header_of(headers, "x-forwarded-host"@), a))
                    || names_host(header_of(headers, "host"@), a))
            },
        },
    }
}

/// A split has at least one piece.
pub proof fn split_is_not_empty(s: Seq<char>, c: char)
    ensures
        split_on(s, c).len() > 0,
{
}

fn host_matches(value: Option<&str>, authority: &str) -> (r: bool)
    ensures
        r == names_host(opt_text(value), authority@),
{
    match value {
        Some(h) => {
            let parts = split(h, ',');
            proof {
                split_is_not_empty(h@, ',');
            }
            assert(texts(parts@)[0] == parts@[0]@);
            same_ignoring_case(trim(parts[0]), authority)
        },
        None => false,
    }
}

impl Request {
    /// What the request holds.
    pub open spec fn view(&self) -> RequestV {
        RequestV {
            method: self.method@,
            path: self.path@,
            query: pairs(self.query@),
            headers: pairs(self.headers@),
            body: self.body@,
        }
    }

    /// The value of the first header called `name`, whatever its case.
    pub fn header(&self, name: &str) -> (r: Option<&str>)
        ensures
            opt_text(r) == header_of(self@.headers, name@),
    {
        find_header(self.headers.as_slice(), name)
    }

    /// The value of the first query parameter called `name`.
    pub fn param(&self, name: &str) -> (r: Option<&str>)
        ensures
            opt_text(r) == value_of(self@.query, name@),
    {
        find_value(self.query.as_slice(), name)
    }

    /// [`bearer_of`].
    pub fn bearer(&self) -> (r: Option<&str>)
        ensures
            opt_text(r) == bearer_of(self@.headers),
    {
        match self.header("authorization") {
            None => None,
            Some(v) => match strip_prefix(v, "Bearer ") {
                Some(t) => Some(trim(t)),
                None => match strip_prefix(v, "bearer ") {
                    Some(t) => Some(trim(t)),
                    None => None,
                },
            },
        }
    }

    /// The header token (only) verifies at `now`.
    pub fn authorized_by_header_at(&self, token: &Token, now: SystemTime) -> (r: bool)
        ensures
            r == shown(bearer_of(self@.headers), token.text(), expired_of(token.expiry(), now)),
    {
        match self.bearer() {
            Some(b) => token.verify_at(b, now),
            None => false,
        }
    }

    /// The header token (only) verifies, at the clock's reading.
    pub fn authorized_by_header(&self, token: &Token) -> (r: bool)
        ensures
            exists|now: SystemTime|
                r == shown(
                    bearer_of(self@.headers),
                    token.text(),
                    #[trigger] expired_of(token.expiry(), now),
                ),
    {
        self.authorized_by_header_at(token, clock())
    }

    /// The header token, or without one the query token, verifies at `now`.
    pub fn authorized_at(&self, token: &Token, now: SystemTime) -> (r: bool)
        ensures
            r == shown(offered_token(self@), token.text(), expired_of(token.expiry(), now)),
    {
        match self.bearer() {
            Some(b) => token.verify_at(b, now),
            None => match self.param("token") {
                Some(q) => token.verify_at(q, now),
                None => false,
            },
        }
    }

    /// The header token, or without one the query token, verifies, at the clock's reading.
    pub fn authorized(&self, token: &Token) -> (r: bool)
        ensures
            exists|now: SystemTime|
                r == shown(
                    offered_token(self@),
                    token.text(),
                    #[trigger] expired_of(token.expiry(), now),
                ),
    {
        self.authorized_at(token, clock())
    }

    /// Only GET reads; everything else changes state.
    pub fn mutating(&self) -> (r: bool)
        ensures
            r == (self@.method != "GET"@),
    {
        !same(self.method.as_str(), "GET")
    }

    /// [`crosses_origin`].
    pub fn cross_origin(&self, loopback_peer: bool) -> (r: bool)
        ensures
            r == crosses_origin(self@.headers, loopback_peer),
    {
        let origin = match self.header("origin") {
            None => return false,
            Some(o) => o,
        };
        let authority = match split_once_text(trim(origin), "://") {
            None => return true,
            Some((_, a)) => trim_end_matches(a, '/'),
        };
        let forwarded = loopback_peer && host_matches(self.header("x-forwarded-host"), authority);
        !(forwarded || host_matches(self.header("host"), authority))
    }
}

/// Who sent a request (audit log fields). `forwarded_for` is as claimed by a loopback proxy, and
/// `origin` as claimed by the client.
pub struct Caller {
    /// The fingerprint of the token, where the header's verified.
    pub token_id: Option<String>,
    /// The peer address with its port.
    pub peer: Option<String>,
    /// The peer address without its port, where `peer` is an address.
    pub peer_ip: Option<String>,
    /// The client that a loopback proxy names.
    pub forwarded_for: Option<String>,
    /// The origin that the client names.
    pub origin: Option<String>,
}

/// What a [`Caller`] holds.
#[verifier::ext_equal]
pub struct CallerV {
    /// The fingerprint of the token.
    pub token_id: Option<Seq<char>>,
    /// The peer address with its port.
    pub peer: Option<Seq<char>>,
    /// The peer address without its port.
    pub peer_ip: Option<Seq<char>>,
    /// The client that a loopback proxy names.
    pub forwarded_for: Option<Seq<char>>,
    /// The origin that the client names.
    pub origin: Option<Seq<char>>,
}

/// The first characters of an optional text.
pub open spec fn opt_first_chars(s: Option<Seq<char>>, n: nat) -> Option<Seq<char>> {
    match s {
        Some(s) => Some(first_chars(s, n)),
        None => None,
    }
}

/// The client that forwarding headers name: `CF-Connecting-IP`, else `X-Forwarded-For`, trusted
/// only from a loopback peer.
pub open spec fn forwarded_of(headers: Seq<(Seq<char>, Seq<char>)>, loopback: bool) -> Option<
    Seq<char>,
> {
    if !loopback {
        None
    } else {
        match header_of(headers, "cf-connecting-ip"@) {
            Some(v) => Some(first_chars(v, 128)),
            None => opt_first_chars(header_of(headers, "x-forwarded-for"@), 128),
        }
    }
}

/// Where a peer is: its address, the part without the port, and whether that is a loopback.
pub struct Peer {
    /// The address with its port.
    pub address: String,
    /// The address without its port.
    pub ip: String,
    /// A loopback address.
    pub loopback: bool,
}

/// What an audit log says of who sent `req`. `token_id` is the token's fingerprint where the
/// header's token verified.
pub fn caller_from(peer: Option<Peer>, req: &Request, token_id: Option<String>) -> (r: Caller)
    ensures
        r@ == (CallerV {
            token_id: opt_string(token_id),
            peer: match peer {
                Some(p) => Some(p.address@),
                None => None,
            },
            peer_ip: match peer {
                Some(p) => Some(p.ip@),
                None => None,
            },
            forwarded_for: forwarded_of(
                req@.headers,
                match peer {
                    Some(p) => p.loopback,
                    None => false,
                },
            ),
            origin: opt_first_chars(header_of(req@.headers, "origin"@), 256),
        }),
{
    let loopback = match &peer {
        Some(p) => p.loopback,
        None => false,
    };
    let forwarded_for = if !loopback {
        None
    } else {
        match req.header("cf-connecting-ip") {
            Some(v) => Some(take_chars(v, 128)),
            None => match req.header("x-forwarded-for") {
                Some(v) => Some(take_chars(v, 128)),
                None => None,
            },
        }
    };
    let origin = match req.header("origin") {
        Some(v) => Some(take_chars(v, 256)),
        None => None,
    };
    let (peer, peer_ip) = match peer {
        Some(p) => (Some(p.address), Some(p.ip)),
        None => (None, None),
    };
    Caller { token_id, peer, peer_ip, forwarded_for, origin }
}

/// The client address that refusals are coalesced by: the first forwarded-for address, else the
/// peer's address without its port, else the peer as given, else `unknown`.
pub open spec fn client_key_of(c: CallerV) -> Seq<char> {
    let first = match c.forwarded_for {
        Some(f) => trimmed(split_on(f, ',')[0]),
        None => Seq::empty(),
    };
    if first.len() > 0 {
        first
    } else {
        match (c.peer, c.peer_ip) {
            (Some(_), Some(ip)) => ip,
            (Some(p), None) => p,
            (None, _) => "unknown"@,
        }
    }
}

impl Caller {
    /// What the caller's fields hold.
    pub open spec fn view(&self) -> CallerV {
        CallerV {
            token_id: opt_string(self.token_id),
            peer: opt_string(self.peer),
            peer_ip: opt_string(self.peer_ip),
            forwarded_for: opt_string(self.forwarded_for),
            origin: opt_string(self.origin),
        }
    }

    /// [`client_key_of`].
    pub fn client_key(&self) -> (r: String)
        ensures
            r@ == client_key_of(self@),
    {
        if let Some(f) = &self.forwarded_for {
            let parts = split(f.as_str(), ',');
            proof {
                split_is_not_empty(f@, ',');
            }
            assert(texts(parts@)[0] == parts@[0]@);
            let first = trim(parts[0]);
            if !first.is_empty() {
                return first.to_owned();
            }
        }
        match &self.peer {
            Some(p) => match &self.peer_ip {
                Some(ip) => ip.clone(),
                None => p.clone(),
            },
            None => "unknown".to_owned(),
        }
    }
}

/// A peer that is no loopback cannot claim to forward for another client.
pub proof fn remote_peers_forward_for_nobody(headers: Seq<(Seq<char>, Seq<char>)>)
    ensures
        forwarded_of(headers, false) is None,
{
}

/// A request without an `Origin` header never crosses origins, and one whose `Origin` is no URL
/// always does.
pub proof fn origin_must_be_a_url(headers: Seq<(Seq<char>, Seq<char>)>, loopback: bool)
    ensures
        header_of(headers, "origin"@) is None ==> !crosses_origin(headers, loopback),
        header_of(headers, "origin"@) matches Some(o) && split_once_at(trimmed(o), "://"@) is None
            ==> crosses_origin(headers, loopback),
        crosses_origin(headers, true) ==> crosses_origin(headers, false),
{
}

/// The value of a parameter is that of the first pair with its name, and there is one wherever there
/// is such a pair.
pub proof fn the_first_pair_counts(v: Seq<(Seq<char>, Seq<char>)>, name: Seq<char>, i: int)
    requires
        0 <= i < v.len(),
        v[i].0 == name,
        forall|j: int| 0 <= j < i ==> (#[trigger] v[j]).0 != name,
    ensures
        value_of(v, name) == Some(v[i].1),
    decreases i,
{
    if i > 0 {
        let t = v.skip(1);
        assert(v[0].0 != name);
        assert(t[i - 1] == v[i]);
        assert forall|j: int| 0 <= j < i - 1 implies (#[trigger] t[j]).0 != name by {
            assert(t[j] == v[j + 1]);
        }
        the_first_pair_counts(t, name, i - 1);
    }
}

/// A name that no pair has is worth nothing.
pub proof fn no_pair_no_value(v: Seq<(Seq<char>, Seq<char>)>, name: Seq<char>)
    requires
        forall|j: int| 0 <= j < v.len() ==> (#[trigger] v[j]).0 != name,
    ensures
        value_of(v, name) is None,
    decreases v.len(),
{
    if v.len() > 0 {
        let t = v.skip(1);
        assert(v[0].0 != name);
        assert forall|j: int| 0 <= j < t.len() implies (#[trigger] t[j]).0 != name by {
            assert(t[j] == v[j + 1]);
        }
        no_pair_no_value(t, name);
    }
}

/// The value of a header is that of the first line with its name, in whatever case, and there is one
/// wherever there is such a line.
pub proof fn the_first_line_counts(v: Seq<(Seq<char>, Seq<char>)>, name: Seq<char>, i: int)
    requires
        0 <= i < v.len(),
        same_but_case(v[i].0, name),
        forall|j: int| 0 <= j < i ==> !same_but_case((#[trigger] v[j]).0, name),
    ensures
        header_of(v, name) == Some(v[i].1),
    decreases i,
{
    if i > 0 {
        let t = v.skip(1);
        assert(!same_but_case(v[0].0, name));
        assert(t[i - 1] == v[i]);
        assert forall|j: int| 0 <= j < i - 1 implies !same_but_case((#[trigger] t[j]).0, name) by {
            assert(t[j] == v[j + 1]);
        }
        the_first_line_counts(t, name, i - 1);
    }
}

/// A header that no line names is not there.
pub proof fn no_line_no_header(v: Seq<(Seq<char>, Seq<char>)>, name: Seq<char>)
    requires
        forall|j: int| 0 <= j < v.len() ==> !same_but_case((#[trigger] v[j]).0, name),
    ensures
        header_of(v, name) is None,
    decreases v.len(),
{
    if v.len() > 0 {
        let t = v.skip(1);
        assert(!same_but_case(v[0].0, name));
        assert forall|j: int| 0 <= j < t.len() implies !same_but_case((#[trigger] t[j]).0, name) by {
            assert(t[j] == v[j + 1]);
        }
        no_line_no_header(t, name);
    }
}

/// What an escape stands for: sixteen times its first digit and its second. Every digit counts as
/// much as its place from `0` or, in either case, from `a`.
pub proof fn an_escape_is_worth_its_digits(x: u8, y: u8)
    requires
        x < 16,
        y < 16,
    ensures
        x < 10 ==> hex_value((48 + x) as u8) == Some(x),
        x >= 10 ==> hex_value((65 + (x - 10)) as u8) == Some(x) && hex_value(
            (97 + (x - 10)) as u8,
        ) == Some(x),
        forall|a: u8, b: u8|
            hex_value(a) == Some(x) && hex_value(b) == Some(y) ==> #[trigger] hex_pair(a, b) == Some(
                (16 * x + y) as u8,
            ),
        forall|a: u8, b: u8| hex_value(b) is None ==> #[trigger] hex_pair(a, b) is None,
        forall|a: u8, b: u8|
            hex_value(a) is None && a != 43 ==> #[trigger] hex_pair(a, b) is None,
{
}

/// What is not a digit is worth nothing.
pub proof fn nothing_else_is_a_digit(b: u8)
    ensures
        hex_value(b) is Some <==> (48 <= b <= 57 || 65 <= b <= 70 || 97 <= b <= 102),
        hex_value(b) matches Some(v) ==> v < 16,
{
}

/// Escapes are read one after another: what is read of two parts is what is read of each, where the
/// first can be read. A lone escape is one byte, and one that is cut off is refused.
pub proof fn escapes_are_read_in_turn(a: Seq<u8>, b: Seq<u8>, x: u8, y: u8, z: u8)
    requires
        percent_bytes(a) is Some,
        x != 37,
    ensures
        percent_bytes(a + b) == (match percent_bytes(b) {
            Some(r) => Some(percent_bytes(a)->0 + r),
            None => None,
        }),
        percent_bytes(seq![x]) == Some(seq![x]),
        percent_bytes(seq![37u8, y, z]) == (match hex_pair(y, z) {
            Some(v) => Some(seq![v]),
            None => None,
        }),
        percent_bytes(seq![37u8]) is None,
        percent_bytes(seq![37u8, y]) is None,
    decreases a.len(),
{
    assert(seq![x].skip(1) =~= Seq::<u8>::empty());
    assert(percent_bytes(Seq::<u8>::empty()) == Some(Seq::<u8>::empty()));
    assert(seq![x] + Seq::<u8>::empty() =~= seq![x]);
    assert(seq![37u8, y, z].skip(3) =~= Seq::<u8>::empty());
    assert forall|v: u8| #[trigger] seq![v] + Seq::<u8>::empty() =~= seq![v] by {}
    if a.len() == 0 {
        assert(a + b =~= b);
        if percent_bytes(b) is Some {
            assert(percent_bytes(a)->0 + percent_bytes(b)->0 =~= percent_bytes(b)->0);
        }
    } else if a[0] == 37 {
        let t = a.skip(3);
        escapes_are_read_in_turn(t, b, x, y, z);
        assert((a + b).skip(3) =~= t + b);
        let v = hex_pair(a[1], a[2])->0;
        if percent_bytes(b) is Some {
            assert(seq![v] + (percent_bytes(t)->0 + percent_bytes(b)->0) =~= (seq![v]
                + percent_bytes(t)->0) + percent_bytes(b)->0);
        }
    } else {
        let t = a.skip(1);
        escapes_are_read_in_turn(t, b, x, y, z);
        assert((a + b).skip(1) =~= t + b);
        if percent_bytes(b) is Some {
            assert(seq![a[0]] + (percent_bytes(t)->0 + percent_bytes(b)->0) =~= (seq![a[0]]
                + percent_bytes(t)->0) + percent_bytes(b)->0);
        }
    }
}

/// A parameter is read from what stands around its first `=`, with blanks for every `+`; one without
/// a `=` is empty. The parameters keep their order, and empty pieces are passed over.
pub proof fn parameters_are_read_as_written(
    k: Seq<char>,
    v: Seq<char>,
    pieces: Seq<Seq<char>>,
    piece: Seq<char>,
)
    requires
        !k.contains('='),
    ensures
        query_pair(k + seq!['='] + v) is Some <==> percent_text(replaced(k, '+', ' ')) is Some
            && percent_text(replaced(v, '+', ' ')) is Some,
        query_pair(k + seq!['='] + v) matches Some(p) ==> Some(p.0) == percent_text(
            replaced(k, '+', ' '),
        ) && Some(p.1) == percent_text(replaced(v, '+', ' ')),
        query_pair(k) matches Some(p) ==> p.1 == Seq::<char>::empty(),
        query_pairs(pieces) matches Some(before) ==> (piece.len() == 0 ==> query_pairs(
            pieces.push(piece),
        ) == Some(before)),
        query_pairs(pieces) matches Some(before) ==> (piece.len() > 0 ==> (query_pair(
            piece,
        ) matches Some(p) ==> query_pairs(pieces.push(piece)) == Some(before.push(p)))),
        piece.len() > 0 && query_pair(piece) is None ==> query_pairs(pieces.push(piece)) is None,
        query_pairs(pieces) is None ==> query_pairs(pieces.push(piece)) is None,
{
    let s = k + seq!['='] + v;
    a_text_is_cut_at_the_first(s, '=');
    assert(s[k.len() as int] == '=');
    let (a, b) = split_once_on(s, '=')->0;
    assert(a.len() == k.len()) by {
        if a.len() < k.len() {
            assert(s[a.len() as int] == '=');
            assert(k[a.len() as int] == '=');
        } else if a.len() > k.len() {
            assert(a[k.len() as int] == s[k.len() as int]);
            assert(a.contains('='));
        }
    }
    assert(a =~= s.take(a.len() as int));
    assert(k =~= s.take(a.len() as int));
    assert(b =~= s.skip(a.len() as int + 1));
    assert(v =~= s.skip(a.len() as int + 1));
    a_text_is_cut_at_the_first(k, '=');
    let e = Seq::<char>::empty();
    assert(replaced(e, '+', ' ') =~= e);
    assert forall|i: int| 0 <= i < encode_utf8(e).len() implies encode_utf8(e)[i] != 37 by {
        assert(encode_utf8(e).len() == 0);
    }
    plain_text_decodes_to_itself(e);
    assert(pieces.push(piece).drop_last() =~= pieces);
}

/// The lines of a head that are text are its headers, in their order; the others are passed over.
pub proof fn lines_of_text_are_headers(h: Seq<(Seq<char>, Seq<u8>)>, name: Seq<char>, value: Seq<u8>)
    ensures
        text_headers(Seq::<(Seq<char>, Seq<u8>)>::empty()) == Seq::<(Seq<char>, Seq<char>)>::empty(),
        valid_utf8(value) ==> text_headers(h.push((name, value))) == text_headers(h).push(
            (name, decode_utf8(value)),
        ),
        !valid_utf8(value) ==> text_headers(h.push((name, value))) == text_headers(h),
{
    assert(h.push((name, value)).drop_last() =~= h);
}

/// What a head asks for: its path is what stands before the first `?` of its target, its parameters
/// are what stands after it, and it has no body yet. A method that is not known is refused as such,
/// and anything that cannot be read as a bad request.
pub proof fn a_head_says_what_is_asked_for(h: HeadV, t: Seq<char>, q: Seq<char>)
    requires
        !t.contains('?'),
    ensures
        request_of_head(h) matches Ok(r) ==> {
            &&& h.method == Some(r.method)
            &&& r.headers == text_headers(h.headers)
            &&& r.body.len() == 0
            &&& h.target == Some(t) ==> percent_text(t) == Some(r.path) && r.query.len() == 0
            &&& h.target == Some(t + seq!['?'] + q) ==> percent_text(t) == Some(r.path) && query_of(q)
                == Some(r.query)
        },
        request_of_head(h) == Err::<RequestV, u16>(405) <==> !(h.method matches Some(m) && (m
            == "GET"@ || m == "POST"@ || m == "PUT"@ || m == "DELETE"@ || m == "OPTIONS"@)),
        request_of_head(h) matches Err(s) ==> s == 405 || s == 400,
        request_of(None) == Err::<RequestV, u16>(400),
{
    let s = t + seq!['?'] + q;
    a_text_is_cut_at_the_first(t, '?');
    a_text_is_cut_at_the_first(s, '?');
    assert(s[t.len() as int] == '?');
    let (a, b) = split_once_on(s, '?')->0;
    assert(a.len() == t.len()) by {
        if a.len() < t.len() {
            assert(s[a.len() as int] == '?');
            assert(t[a.len() as int] == '?');
        } else if a.len() > t.len() {
            assert(a[t.len() as int] == s[t.len() as int]);
            assert(a.contains('?'));
        }
    }
    assert(a =~= s.take(a.len() as int));
    assert(t =~= s.take(a.len() as int));
    assert(b =~= s.skip(a.len() as int + 1));
    assert(q =~= s.skip(a.len() as int + 1));
    let e = Seq::<char>::empty();
    first_index_is_first(e, '&');
    assert(split_on(e, '&') == seq![e]);
    assert(seq![e].drop_last() =~= Seq::<Seq<char>>::empty());
    assert(query_pairs(Seq::<Seq<char>>::empty()) == Some(Seq::<(Seq<char>, Seq<char>)>::empty()));
    assert(query_of(e) == Some(Seq::<(Seq<char>, Seq<char>)>::empty()));
}

/// A head ends with its first blank line.
pub proof fn a_head_ends_with_its_first_blank_line(b: Seq<u8>)
    ensures
        head_len(b) matches Some(n) ==> blank_line_at(b, n - 4) && forall|i: int|
            0 <= i < n - 4 ==> !#[trigger] blank_line_at(b, i),
    decreases b.len(),
{
    head_len_in_range(b);
    if head_len(b) is Some && !blank_line_at(b, 0) {
        let t = b.skip(1);
        a_head_ends_with_its_first_blank_line(t);
        let n = head_len(b)->0;
        assert forall|i: int| 0 <= i < n - 4 implies !#[trigger] blank_line_at(b, i) by {
            if i > 0 {
                assert(blank_line_at(t, i - 1) == blank_line_at(b, i));
            }
        }
    }
}

/// A body is as many bytes as the head declares, from the blank line on; none is declared where
/// there is no such header. A request that is sent in chunks is refused, and so is one of which the
/// length cannot be read or is more than is taken; one that is not all there yet waits.
pub proof fn a_body_follows_its_head(r: RequestV, rest: Seq<u8>)
    ensures
        header_of(r.headers, "transfer-encoding"@) is Some ==> body_step(Ok(r), rest)
            == ReadStepV::Refuse(411),
        header_of(r.headers, "transfer-encoding"@) is None && header_of(
            r.headers,
            "content-length"@,
        ) is None ==> body_step(Ok(r), rest) == ReadStepV::Done(
            RequestV { body: Seq::empty(), ..r },
        ),
        header_of(r.headers, "transfer-encoding"@) is None ==> (header_of(
            r.headers,
            "content-length"@,
        ) matches Some(v) ==> match unsigned(trimmed(v), usize::MAX as nat) {
            None => body_step(Ok(r), rest) == ReadStepV::Refuse(400),
            Some(n) => {
                &&& n > 65536 ==> body_step(Ok(r), rest) == ReadStepV::Refuse(413)
                &&& n <= 65536 && rest.len() < n ==> body_step(Ok(r), rest) is More
                &&& n <= 65536 && rest.len() >= n ==> body_step(Ok(r), rest) == ReadStepV::Done(
                    RequestV { body: rest.subrange(0, n as int), ..r },
                )
            },
        }),
        forall|s: u16| #[trigger] body_step(Err(s), rest) == ReadStepV::Refuse(s),
{
    assert(rest.take(0) =~= Seq::<u8>::empty());
}

/// A head of more than sixteen kibibytes is refused, whether it has ended or not; a shorter one that
/// has not ended waits. A peer that hangs up has sent a bad request, and one that is silent too long
/// is told so.
pub proof fn heads_are_bounded(b: Seq<u8>, held: Seq<u8>)
    ensures
        b.len() > 16384 && (forall|i: int| 0 <= i <= 16380 ==> !#[trigger] blank_line_at(b, i))
            ==> read_step_of(b) == ReadStepV::Refuse(431),
        b.len() <= 16384 && (forall|i: int| !#[trigger] blank_line_at(b, i)) ==> read_step_of(
            b,
        ) is More,
        arrival_step(held, ArrivedV::Failed) == ReadStepV::Refuse(408),
        arrival_step(held, ArrivedV::Read(Seq::empty())) == ReadStepV::Refuse(400),
{
    head_len_in_range(b);
}

/// A bearer's token is what follows the word, without the blanks around it; no other scheme has one.
pub proof fn a_bearer_is_what_follows_the_word(h: Seq<(Seq<char>, Seq<char>)>, t: Seq<char>)
    ensures
        header_of(h, "authorization"@) == Some("Bearer "@ + t) ==> bearer_of(h) == Some(trimmed(t)),
        header_of(h, "authorization"@) == Some("bearer "@ + t) ==> bearer_of(h) == Some(trimmed(t)),
        header_of(h, "authorization"@) is None ==> bearer_of(h) is None,
        header_of(h, "authorization"@) matches Some(v) ==> (bearer_of(h) is Some ==> begins(
            v,
            "Bearer "@,
        ) || begins(v, "bearer "@)),
{
    a_remainder_is_what_else_is_there(t, "Bearer "@);
    a_remainder_is_what_else_is_there(t, "bearer "@);
    reveal_strlit("Bearer ");
    reveal_strlit("bearer ");
    let s = "bearer "@ + t;
    if begins(s, "Bearer "@) {
        assert(s.take(7)[0] == 'b');
        assert("Bearer "@[0] == 'B');
    }
}

/// A request crosses origins unless it names none, or the host that it was sent to is the one that
/// the origin names, in whatever case and with or without a slash at its end. What a proxy says of
/// the host counts only of a peer on this machine.
pub proof fn an_origin_is_the_host_or_crosses(
    h: Seq<(Seq<char>, Seq<char>)>,
    scheme: Seq<char>,
    authority: Seq<char>,
    host: Seq<char>,
)
    requires
        header_of(h, "origin"@) matches Some(o) && split_once_at(trimmed(o), "://"@) == Some(
            (scheme, authority),
        ),
        header_of(h, "host"@) == Some(host),
        !host.contains(','),
    ensures
        crosses_origin(h, false) == !same_but_case(trimmed(host), trim_end_of(authority, '/')),
        header_of(h, "x-forwarded-host"@) is None ==> crosses_origin(h, true) == crosses_origin(
            h,
            false,
        ),
        header_of(h, "x-forwarded-host"@) matches Some(f) ==> (!f.contains(',') ==> crosses_origin(
            h,
            true,
        ) == !(same_but_case(trimmed(host), trim_end_of(authority, '/')) || same_but_case(
            trimmed(f),
            trim_end_of(authority, '/'),
        ))),
{
    first_index_is_first(host, ',');
    assert(split_on(host, ',')[0] == host);
    if let Some(f) = header_of(h, "x-forwarded-host"@) {
        first_index_is_first(f, ',');
        if !f.contains(',') {
            assert(split_on(f, ',')[0] == f);
        }
    }
}

/// For whom a peer on this machine speaks: the first of the two headers that is there says so, cut
/// to as many characters as are kept.
pub proof fn a_proxy_speaks_for_its_client(h: Seq<(Seq<char>, Seq<char>)>)
    ensures
        header_of(h, "cf-connecting-ip"@) matches Some(v) ==> forwarded_of(h, true) == Some(
            first_chars(v, 128),
        ),
        header_of(h, "cf-connecting-ip"@) is None ==> (header_of(
            h,
            "x-forwarded-for"@,
        ) matches Some(v) ==> forwarded_of(h, true) == Some(first_chars(v, 128))),
        header_of(h, "cf-connecting-ip"@) is None && header_of(h, "x-forwarded-for"@) is None
            ==> forwarded_of(h, true) is None,
{
}

/// A client is known by the first address that it is forwarded for, else by its own address, else
/// not at all. The port of a peer makes no difference where its address is known.
pub proof fn a_client_is_known_by_its_address(c: CallerV, first: Seq<char>, port: Seq<char>)
    requires
        !first.contains(','),
    ensures
        trimmed(first).len() > 0 ==> {
            &&& c.forwarded_for == Some(first) ==> client_key_of(c) == trimmed(first)
            &&& forall|others: Seq<char>|
                c.forwarded_for == Some(#[trigger] (first + seq![','] + others)) ==> client_key_of(c)
                    == trimmed(first)
        },
        c.forwarded_for is None && c.peer is Some ==> (c.peer_ip matches Some(ip)
            ==> client_key_of(c) == ip && client_key_of(CallerV { peer: Some(port), ..c }) == ip),
        c.forwarded_for is None && c.peer_ip is None ==> (c.peer matches Some(p) ==> client_key_of(c)
            == p),
        c.forwarded_for is None && c.peer is None ==> client_key_of(c) == "unknown"@,
{
    first_index_is_first(first, ',');
    assert(split_on(first, ',')[0] == first);
    assert forall|others: Seq<char>|
        split_on(#[trigger] (first + seq![','] + others), ',')[0] == first by {
        let s = first + seq![','] + others;
        first_index_is_first(s, ',');
        assert(s[first.len() as int] == ',');
        let i = first_index(s, ',');
        if i < first.len() {
            assert(first[i] == s[i]);
        }
        assert(s.take(i) =~= first);
    }
}

} // verus!
