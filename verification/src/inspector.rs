//! The inspector: a draft field map over given frames, or over a recorded stream, without saving
//! anything.
//!
//! Frames whose class forbids content, and those of a stream whose class does, are served without
//! it and never parsed.

use vstd::prelude::*;

use crate::auth::{hex, hex_digit};
use crate::body::{
    fail_v, invalid_v, json_type, only, only_allowed_members_pass, only_of, refusal_of, says_json,
    CtlResponse, CtlResponseV, Fail,
};
use crate::json::{
    as_uint, at, error_column, error_line, fields_view, find, items_view, items_view_each,
    items_view_push, left_out_members_are_gone, member, member_is_the_first, member_set, no_fields,
    opt_uint_v, other_members_stay, parse_located, parsed, remove_member, text_v, uint_v,
    with_member, without_member, Fields, Items, Json, JsonV,
};
use crate::text::{
    begins, chars_of, decimal, number, opt_text, same, starts_with, strip_prefix, strip_suffix,
    texts, without_prefix, without_suffix,
};

verus! {

/// The most frames of one request or page.
pub const MAX_PARSE_FRAMES: usize = 500;

/// The size of a page that names none.
pub const DEFAULT_PARSE_LIMIT: usize = 100;

/// The most frames that the fit of a recording is summed over.
pub const MAX_FIT_FRAMES: u64 = 100_000;

// ---------------------------------------------------------------------------------------------
// Routing
// ---------------------------------------------------------------------------------------------

/// An action of the inspector.
#[derive(Clone, Copy, Debug, PartialEq, Eq)]
pub enum Action<'a> {
    /// Parse the frames given.
    ParseFrames,
    /// Parse a recording.
    ParseCapture(&'a str),
}

/// What an [`Action`] holds.
pub enum ActionV {
    /// Parse the frames given.
    ParseFrames,
    /// Parse a recording.
    ParseCapture(Seq<char>),
}

impl Action<'_> {
    /// What it holds.
    pub open spec fn view(&self) -> ActionV {
        match self {
            Action::ParseFrames => ActionV::ParseFrames,
            Action::ParseCapture(id) => ActionV::ParseCapture(id@),
        }
    }
}

/// What a path is.
pub open spec fn action_of(path: Seq<char>) -> Option<ActionV> {
    if path == "/api/inspector/parse"@ {
        Some(ActionV::ParseFrames)
    } else {
        match without_prefix(path, "/api/captures/"@) {
            None => None,
            Some(rest) => match without_suffix(rest, "/parse"@) {
                None => None,
                Some(id) => if crate::analyze::is_segment(id) {
                    Some(ActionV::ParseCapture(id))
                } else {
                    None
                },
            },
        }
    }
}

/// What a method and a path are.
pub open spec fn resolved(method: Seq<char>, path: Seq<char>) -> Option<
    Result<ActionV, Option<Seq<char>>>,
> {
    match action_of(path) {
        None => None,
        Some(a) => if method == "POST"@ {
            Some(Ok(a))
        } else {
            Some(Err(Some("POST"@)))
        },
    }
}

/// What a resolved action holds.
pub open spec fn resolved_view(r: Option<Result<Action, Option<&'static str>>>) -> Option<
    Result<ActionV, Option<Seq<char>>>,
> {
    match r {
        None => None,
        Some(Ok(a)) => Some(Ok(a@)),
        Some(Err(allow)) => Some(Err(opt_text(allow))),
    }
}

/// [`resolved`].
pub fn resolve<'a>(method: &str, path: &'a str) -> (r: Option<
    Result<Action<'a>, Option<&'static str>>,
>)
    ensures
        resolved_view(r) == resolved(method@, path@),
{
    let action = if same(path, "/api/inspector/parse") {
        Action::ParseFrames
    } else {
        let rest = match strip_prefix(path, "/api/captures/") {
            Some(rest) => rest,
            None => return None,
        };
        let id = match strip_suffix(rest, "/parse") {
            Some(id) => id,
            None => return None,
        };
        if !crate::analyze::one_segment(id) {
            return None;
        }
        Action::ParseCapture(id)
    };
    Some(
        if same(method, "POST") {
            Ok(action)
        } else {
            Err(Some("POST"))
        },
    )
}

// ---------------------------------------------------------------------------------------------
// Bodies
// ---------------------------------------------------------------------------------------------

/// What a value or its refusal holds.
pub open spec fn refused<T>(r: Result<T, CtlResponse>) -> Result<T, CtlResponseV> {
    match r {
        Ok(x) => Ok(x),
        Err(c) => Err(c@),
    }
}

/// A refusal of a request as it stands.
pub open spec fn invalid(message: Seq<char>) -> CtlResponseV {
    refusal_of(invalid_v(message))
}

/// The members of a body, which must be JSON whatever it holds.
pub open spec fn body_of(content_type: Option<Seq<char>>, body: Seq<u8>) -> Result<
    Seq<(Seq<char>, JsonV)>,
    CtlResponseV,
> {
    if !says_json(content_type) {
        Err(
            refusal_of(
                fail_v(
                    415,
                    "unsupported_media_type"@,
                    "bodies must be Content-Type: application/json"@,
                ),
            ),
        )
    } else {
        match parsed(body) {
            Ok(JsonV::Object(m)) => Ok(m),
            Ok(_) => Err(invalid("the body must be a JSON object"@)),
            Err(_) => Err(
                invalid(
                    "malformed JSON body (line "@ + decimal(error_line(body) as nat)
                        + ", column "@ + decimal(error_column(body) as nat) + ")"@,
                ),
            ),
        }
    }
}

/// What a read body holds.
pub open spec fn body_result(r: Result<Vec<(String, Json)>, CtlResponse>) -> Result<
    Seq<(Seq<char>, JsonV)>,
    CtlResponseV,
> {
    match r {
        Ok(m) => Ok(fields_view(m@)),
        Err(c) => Err(c@),
    }
}

/// [`body_of`].
pub fn parse_body(content_type: Option<&str>, body: &[u8]) -> (r: Result<
    Vec<(String, Json)>,
    CtlResponse,
>)
    ensures
        body_result(r) == body_of(opt_text(content_type), body@),
{
    if !json_type(content_type) {
        return Err(
            Fail::of(
                415,
                "unsupported_media_type",
                "bodies must be Content-Type: application/json",
            ).response(),
        );
    }
    match parse_located(body) {
        Ok(Json::Object(m)) => Ok(m),
        Ok(_) => Err(Fail::invalid("the body must be a JSON object").response()),
        Err((line, column)) => {
            let (l, c) = (number(line as u64), number(column as u64));
            let m = String::from_str("malformed JSON body (line ").concat(l.as_str()).concat(
                ", column ",
            ).concat(c.as_str()).concat(")");
            Err(Fail::new(400, "invalid", m).response())
        },
    }
}

/// Refuses a stray member by name.
pub open spec fn only_members(body: Seq<(Seq<char>, JsonV)>, allowed: Seq<Seq<char>>) -> Result<
    (),
    CtlResponseV,
> {
    match only_of(body, allowed) {
        Ok(_) => Ok(()),
        Err(f) => Err(refusal_of(f)),
    }
}

fn check_members(body: &Vec<(String, Json)>, allowed: &[&str]) -> (r: Result<(), CtlResponse>)
    ensures
        refused(r) == only_members(fields_view(body@), texts(allowed@)),
{
    match only(body, allowed) {
        Ok(_) => Ok(()),
        Err(f) => Err(f.response()),
    }
}

/// The field map of a body; `null` is none.
pub open spec fn field_map_of(body: Seq<(Seq<char>, JsonV)>) -> Option<JsonV> {
    match member(body, "field_map"@) {
        Some(JsonV::Null) => None,
        m => m,
    }
}

/// [`field_map_of`].
pub fn field_map(body: &Vec<(String, Json)>) -> (r: Option<&Json>)
    ensures
        crate::evidence::status_view(r) == field_map_of(fields_view(body@)),
{
    match find(body, "field_map") {
        Some(Json::Null) => None,
        m => m,
    }
}

/// What is said of a field map that does not match the schema: the key that is unknown or
/// missing, never the value submitted.
pub open spec fn schema_message_of(e: Seq<char>) -> Seq<char> {
    if begins(e, "unknown field"@) || begins(e, "missing field"@) {
        e
    } else {
        "a key has the wrong type or value"@
    }
}

/// [`schema_message_of`].
pub fn schema_message(e: &str) -> (r: String)
    ensures
        r@ == schema_message_of(e@),
{
    if starts_with(e, "unknown field") || starts_with(e, "missing field") {
        e.to_owned()
    } else {
        "a key has the wrong type or value".to_owned()
    }
}

/// One thing that is wrong with a field map.
#[derive(Debug)]
pub struct MapError {
    /// Where.
    pub path: String,
    /// What.
    pub message: String,
}

/// What became of the field map of a body.
#[derive(Debug)]
pub enum FieldMapRead {
    /// There is none.
    Absent,
    /// It does not match the schema, in the words of its reader.
    Unreadable(String),
    /// It is wrong in these ways.
    Wrong(Vec<MapError>),
    /// It can be used.
    Ready,
}

/// One thing that is wrong.
pub open spec fn map_error_v(path: Seq<char>, message: Seq<char>) -> JsonV {
    JsonV::Object(
        no_fields().push(("path"@, text_v(path))).push(("message"@, text_v(message))),
    )
}

fn map_error_json(path: &str, message: &str) -> (r: Json)
    ensures
        r.view() == map_error_v(path@, message@),
{
    let mut f = Fields::new();
    f.put("path", Json::text(path));
    f.put("message", Json::text(message));
    f.object()
}

/// The refusal of a field map.
pub open spec fn map_refusal(words: Seq<char>, errors: Seq<JsonV>) -> CtlResponseV {
    CtlResponseV {
        status: 400,
        body: JsonV::Object(
            no_fields().push(("error"@, text_v(words))).push(("code"@, text_v("invalid"@))).push(
                ("errors"@, JsonV::Array(errors)),
            ),
        ),
        allow: None,
    }
}

fn refuse_map(words: &str, errors: Json) -> (r: CtlResponse)
    requires
        errors.view() is Array,
    ensures
        r@ == map_refusal(words@, errors.view()->Array_0),
{
    let mut f = Fields::new();
    f.put("error", Json::text(words));
    f.put("code", Json::text("invalid"));
    f.put("errors", errors);
    CtlResponse { status: 400, body: f.object(), allow: None }
}

/// The things that are wrong.
pub open spec fn map_errors_v(v: Seq<MapError>) -> Seq<JsonV> {
    Seq::new(v.len(), |i: int| map_error_v(v[i].path@, v[i].message@))
}

fn map_errors_json(v: &Vec<MapError>) -> (r: Json)
    ensures
        r.view() == JsonV::Array(map_errors_v(v@)),
{
    let ghost want = map_errors_v(v@);
    let mut out = Items::new();
    let mut i: usize = 0;
    assert(want.take(0) =~= Seq::empty());
    while i < v.len()
        invariant
            want == map_errors_v(v@),
            i <= v@.len(),
            out@ == want.take(i as int),
        decreases v@.len() - i,
    {
        let x = map_error_json(v[i].path.as_str(), v[i].message.as_str());
        assert(want.take(i + 1) =~= want.take(i as int).push(x.view()));
        out.push(x);
        i += 1;
    }
    assert(want.take(v@.len() as int) =~= want);
    out.array()
}

/// Whether there is a field map to parse with, or how it is refused.
pub open spec fn evaluator_of(read: FieldMapRead) -> Result<bool, CtlResponseV> {
    match read {
        FieldMapRead::Absent => Ok(false),
        FieldMapRead::Ready => Ok(true),
        FieldMapRead::Unreadable(e) => Err(
            map_refusal(
                "field_map does not match the field-map schema"@,
                Seq::empty().push(map_error_v(Seq::empty(), schema_message_of(e@))),
            ),
        ),
        FieldMapRead::Wrong(errors) => Err(
            map_refusal("field_map is invalid"@, map_errors_v(errors@)),
        ),
    }
}

/// [`evaluator_of`].
pub fn evaluator(read: &FieldMapRead) -> (r: Result<bool, CtlResponse>)
    ensures
        refused(r) == evaluator_of(*read),
{
    match read {
        FieldMapRead::Absent => Ok(false),
        FieldMapRead::Ready => Ok(true),
        FieldMapRead::Unreadable(e) => {
            let m = schema_message(e.as_str());
            let nowhere = String::new();
            assert(nowhere@ =~= Seq::empty());
            let mut a = Items::new();
            a.push(map_error_json(nowhere.as_str(), m.as_str()));
            Err(refuse_map("field_map does not match the field-map schema", a.array()))
        },
        FieldMapRead::Wrong(errors) => Err(
            refuse_map("field_map is invalid", map_errors_json(errors)),
        ),
    }
}

// ---------------------------------------------------------------------------------------------
// Given frames
// ---------------------------------------------------------------------------------------------

/// The value of a hexadecimal digit.
pub open spec fn hex_char(c: char) -> Option<u8> {
    if '0' <= c <= '9' {
        Some((c as int - 48) as u8)
    } else if 'A' <= c <= 'F' {
        Some((c as int - 55) as u8)
    } else if 'a' <= c <= 'f' {
        Some((c as int - 87) as u8)
    } else {
        None
    }
}

fn hex_digit_value(c: char) -> (r: Option<u8>)
    ensures
        r == hex_char(c),
        r matches Some(x) ==> x < 16,
{
    if '0' <= c && c <= '9' {
        Some((c as u32 - 48) as u8)
    } else if 'A' <= c && c <= 'F' {
        Some((c as u32 - 55) as u8)
    } else if 'a' <= c && c <= 'f' {
        Some((c as u32 - 87) as u8)
    } else {
        None
    }
}

/// The bytes that hexadecimal digits write, two for each.
pub open spec fn hex_bytes(s: Seq<char>) -> Option<Seq<u8>>
    decreases s.len(),
{
    if s.len() == 0 {
        Some(Seq::empty())
    } else if s.len() == 1 {
        None
    } else {
        match (hex_bytes(s.take(s.len() - 2)), hex_char(s[s.len() - 2]), hex_char(s[s.len() - 1])) {
            (Some(b), Some(x), Some(y)) => Some(b.push((16 * x + y) as u8)),
            _ => None,
        }
    }
}

/// What some bytes hold.
pub open spec fn opt_bytes(b: Option<Vec<u8>>) -> Option<Seq<u8>> {
    match b {
        Some(v) => Some(v@),
        None => None,
    }
}

proof fn hex_bytes_fails(s: Seq<char>, n: int)
    requires
        0 <= n <= s.len(),
        n % 2 == s.len() % 2,
        hex_bytes(s.take(n)) is None,
    ensures
        hex_bytes(s) is None,
    decreases s.len(),
{
    if n < s.len() {
        let t = s.take(s.len() - 2);
        assert(t.take(n) =~= s.take(n));
        hex_bytes_fails(t, n);
    } else {
        assert(s.take(n) =~= s);
    }
}

proof fn odd_hex_fails(s: Seq<char>)
    requires
        s.len() % 2 == 1,
    ensures
        hex_bytes(s) is None,
    decreases s.len(),
{
    if s.len() > 1 {
        odd_hex_fails(s.take(s.len() - 2));
    }
}

/// [`hex_bytes`].
pub fn from_hex(s: &str) -> (r: Option<Vec<u8>>)
    ensures
        opt_bytes(r) == hex_bytes(s@),
{
    let v = chars_of(s);
    if v.len() % 2 != 0 {
        proof {
            odd_hex_fails(s@);
        }
        return None;
    }
    let mut out: Vec<u8> = Vec::new();
    let mut i: usize = 0;
    assert(v@.take(0) =~= Seq::empty());
    assert(out@ =~= Seq::empty());
    while i < v.len()
        invariant
            v@ == s@,
            v@.len() % 2 == 0,
            i % 2 == 0,
            i <= v@.len(),
            hex_bytes(v@.take(i as int)) == Some(out@),
        decreases v@.len() - i,
    {
        let ghost t = v@.take(i + 2);
        assert(t.take(t.len() - 2) =~= v@.take(i as int));
        match (hex_digit_value(v[i]), hex_digit_value(v[i + 1])) {
            (Some(x), Some(y)) => {
                out.push(16 * x + y);
            },
            _ => {
                proof {
                    assert(hex_bytes(t) is None);
                    hex_bytes_fails(v@, i + 2);
                }
                return None;
            },
        }
        i += 2;
    }
    assert(v@.take(v@.len() as int) =~= v@);
    Some(out)
}

/// One frame: its bytes, and how many bits of them it is.
#[derive(Debug, PartialEq, Eq)]
pub struct Frame {
    /// The bytes.
    pub bytes: Vec<u8>,
    /// The bits.
    pub bit_len: u32,
}

/// What a [`Frame`] holds.
#[verifier::ext_equal]
pub struct FrameV {
    /// The bytes.
    pub bytes: Seq<u8>,
    /// The bits.
    pub bit_len: u32,
}

impl Frame {
    /// What it holds.
    pub open spec fn view(&self) -> FrameV {
        FrameV { bytes: self.bytes@, bit_len: self.bit_len }
    }
}

/// The place of a frame in the request.
pub open spec fn frame_place(i: nat, rest: Seq<char>) -> Seq<char> {
    "frames["@ + decimal(i) + rest
}

fn refuse_frame(i: usize, rest: &str) -> (r: CtlResponse)
    ensures
        r@ == invalid(frame_place(i as nat, rest@)),
{
    let n = number(i as u64);
    let m = String::from_str("frames[").concat(n.as_str()).concat(rest);
    Fail::new(400, "invalid", m).response()
}

/// The bits of a frame: all of its bytes, or as many as it says.
pub open spec fn bits_of(obj: Seq<(Seq<char>, JsonV)>, bytes: nat, i: nat) -> Result<
    u32,
    CtlResponseV,
> {
    match member(obj, "bit_len"@) {
        None => if bytes * 8 <= u32::MAX {
            Ok((bytes * 8) as u32)
        } else {
            Err(invalid("frame too long"@))
        },
        Some(v) => match as_uint(v) {
            Some(b) => if b > bytes * 8 {
                Err(
                    invalid(
                        frame_place(
                            i,
                            "].bit_len is an integer no larger than 8 × the bytes"@,
                        ),
                    ),
                )
            } else if b <= u32::MAX {
                Ok(b as u32)
            } else {
                Err(invalid("frame too long"@))
            },
            None => Err(
                invalid(
                    frame_place(i, "].bit_len is an integer no larger than 8 × the bytes"@),
                ),
            ),
        },
    }
}

/// One frame of the request.
pub open spec fn frame_of(v: JsonV, i: nat) -> Result<FrameV, CtlResponseV> {
    match v {
        JsonV::Object(obj) => match only_members(obj, seq!["hex"@, "bit_len"@]) {
            Err(c) => Err(c),
            Ok(_) => {
                let bytes = match member(obj, "hex"@) {
                    Some(JsonV::Text(s)) => hex_bytes(s),
                    _ => None,
                };
                match bytes {
                    None => Err(
                        invalid(frame_place(i, "].hex is an even-length hex string"@)),
                    ),
                    Some(bytes) => match bits_of(obj, bytes.len(), i) {
                        Err(c) => Err(c),
                        Ok(bit_len) => Ok(FrameV { bytes, bit_len }),
                    },
                }
            },
        },
        _ => Err(invalid(frame_place(i, "] is an object"@))),
    }
}

/// What a frame or its refusal holds.
pub open spec fn frame_result(r: Result<Frame, CtlResponse>) -> Result<FrameV, CtlResponseV> {
    match r {
        Ok(f) => Ok(f@),
        Err(c) => Err(c@),
    }
}

fn read_frame(v: &Json, i: usize) -> (r: Result<Frame, CtlResponse>)
    ensures
        frame_result(r) == frame_of(v.view(), i as nat),
{
    let obj = match v {
        Json::Object(o) => o,
        _ => return Err(refuse_frame(i, "] is an object")),
    };
    let allowed = ["hex", "bit_len"];
    assert(texts(allowed@) =~= seq!["hex"@, "bit_len"@]);
    match check_members(obj, &allowed) {
        Ok(_) => {},
        Err(c) => return Err(c),
    }
    let bytes = match find(obj, "hex") {
        Some(Json::Text(s)) => from_hex(s.as_str()),
        _ => None,
    };
    let bytes = match bytes {
        Some(b) => b,
        None => return Err(refuse_frame(i, "].hex is an even-length hex string")),
    };
    let max: u128 = bytes.len() as u128 * 8;
    let bit_len: u32 = match find(obj, "bit_len") {
        None => if max <= u32::MAX as u128 {
            max as u32
        } else {
            return Err(Fail::invalid("frame too long").response());
        },
        Some(v) => match v.unsigned() {
            Some(b) => if b as u128 > max {
                return Err(
                    refuse_frame(i, "].bit_len is an integer no larger than 8 × the bytes"),
                );
            } else if b <= u32::MAX as u64 {
                b as u32
            } else {
                return Err(Fail::invalid("frame too long").response());
            },
            None => {
                return Err(
                    refuse_frame(i, "].bit_len is an integer no larger than 8 × the bytes"),
                );
            },
        },
    };
    Ok(Frame { bytes, bit_len })
}

/// The frames of a list; the first that is wrong is named.
pub open spec fn frames_in(items: Seq<JsonV>) -> Result<Seq<FrameV>, CtlResponseV>
    decreases items.len(),
{
    if items.len() == 0 {
        Ok(Seq::empty())
    } else {
        match frames_in(items.drop_last()) {
            Err(c) => Err(c),
            Ok(before) => match frame_of(items.last(), (items.len() - 1) as nat) {
                Err(c) => Err(c),
                Ok(f) => Ok(before.push(f)),
            },
        }
    }
}

proof fn frames_in_fails(items: Seq<JsonV>, n: int)
    requires
        0 <= n <= items.len(),
        frames_in(items.take(n)) is Err,
    ensures
        frames_in(items) == frames_in(items.take(n)),
    decreases items.len(),
{
    if n < items.len() {
        assert(items.drop_last().take(n) =~= items.take(n));
        frames_in_fails(items.drop_last(), n);
    } else {
        assert(items.take(n) =~= items);
    }
}

/// The frames that a request asks to be parsed.
pub open spec fn request_frames_of(body: Seq<(Seq<char>, JsonV)>, read: FieldMapRead) -> Result<
    Seq<FrameV>,
    CtlResponseV,
> {
    match only_members(body, seq!["field_map"@, "frames"@]) {
        Err(c) => Err(c),
        Ok(_) => match evaluator_of(read) {
            Err(c) => Err(c),
            Ok(false) => Err(invalid("field_map is required"@)),
            Ok(true) => match member(body, "frames"@) {
                Some(JsonV::Array(a)) => if 1 <= a.len() <= MAX_PARSE_FRAMES {
                    frames_in(a)
                } else {
                    Err(invalid("frames is a list of 1..=500 {hex, bit_len?} objects"@))
                },
                _ => Err(invalid("frames is a list of 1..=500 {hex, bit_len?} objects"@)),
            },
        },
    }
}

/// What some frames hold.
pub open spec fn frames_view(v: Seq<Frame>) -> Seq<FrameV> {
    v.map_values(|f: Frame| f@)
}

/// What some frames or their refusal hold.
pub open spec fn frames_result(r: Result<Vec<Frame>, CtlResponse>) -> Result<
    Seq<FrameV>,
    CtlResponseV,
> {
    match r {
        Ok(v) => Ok(frames_view(v@)),
        Err(c) => Err(c@),
    }
}

fn read_frames(a: &Vec<Json>) -> (r: Result<Vec<Frame>, CtlResponse>)
    ensures
        frames_result(r) == frames_in(items_view(a@)),
{
    let ghost items = items_view(a@);
    proof {
        items_view_each(a@);
        assert(items.take(0) =~= Seq::empty());
    }
    let mut out: Vec<Frame> = Vec::new();
    assert(frames_view(out@) =~= Seq::empty());
    let mut i: usize = 0;
    while i < a.len()
        invariant
            items == items_view(a@),
            items.len() == a@.len(),
            forall|k: int| 0 <= k < a@.len() ==> items[k] == (#[trigger] a@[k]).view(),
            i <= a@.len(),
            frames_in(items.take(i as int)) == Ok::<Seq<FrameV>, CtlResponseV>(
                frames_view(out@),
            ),
        decreases a@.len() - i,
    {
        let ghost before = out@;
        proof {
            assert(items.take(i + 1).drop_last() =~= items.take(i as int));
            assert(items.take(i + 1).last() == a@[i as int].view());
        }
        match read_frame(&a[i], i) {
            Ok(f) => {
                out.push(f);
                assert(frames_view(out@) =~= frames_view(before).push(f@));
            },
            Err(c) => {
                proof {
                    frames_in_fails(items, i + 1);
                }
                return Err(c);
            },
        }
        i += 1;
    }
    assert(items.take(a@.len() as int) =~= items);
    Ok(out)
}

/// [`request_frames_of`].
pub fn plan_frames(body: &Vec<(String, Json)>, read: &FieldMapRead) -> (r: Result<
    Vec<Frame>,
    CtlResponse,
>)
    ensures
        frames_result(r) == request_frames_of(fields_view(body@), *read),
{
    let allowed = ["field_map", "frames"];
    assert(texts(allowed@) =~= seq!["field_map"@, "frames"@]);
    match check_members(body, &allowed) {
        Ok(_) => {},
        Err(c) => return Err(c),
    }
    match evaluator(read) {
        Ok(true) => {},
        Ok(false) => return Err(Fail::invalid("field_map is required").response()),
        Err(c) => return Err(c),
    }
    if let Some(Json::Array(a)) = find(body, "frames") {
        proof {
            items_view_each(a@);
        }
        if a.len() >= 1 && a.len() <= MAX_PARSE_FRAMES {
            return read_frames(a);
        }
    }
    Err(Fail::invalid("frames is a list of 1..=500 {hex, bit_len?} objects").response())
}

/// A parsed frame, as it is answered.
pub open spec fn parsed_frame_v(f: FrameV, layers: JsonV) -> JsonV {
    JsonV::Object(
        no_fields().push(("bit_len"@, uint_v(f.bit_len as int))).push(
            ("hex"@, text_v(hex(f.bytes))),
        ).push(("layers"@, layers)),
    )
}

/// The frames of an answer.
pub open spec fn parsed_frames_v(v: Seq<Frame>, layers: Seq<Json>) -> Seq<JsonV> {
    Seq::new(v.len(), |i: int| parsed_frame_v(v[i]@, layers[i].view()))
}

/// The answer: each frame with its layers, and how they fit together.
pub fn frames_answer(v: &Vec<Frame>, layers: &Vec<Json>, fit: Json) -> (r: Json)
    requires
        layers@.len() == v@.len(),
    ensures
        r.view() == JsonV::Object(
            no_fields().push(("frames"@, JsonV::Array(parsed_frames_v(v@, layers@)))).push(
                ("fit"@, fit.view()),
            ),
        ),
{
    let ghost want = parsed_frames_v(v@, layers@);
    let mut out = Items::new();
    let mut i: usize = 0;
    assert(want.take(0) =~= Seq::empty());
    while i < v.len()
        invariant
            layers@.len() == v@.len(),
            want == parsed_frames_v(v@, layers@),
            i <= v@.len(),
            out@ == want.take(i as int),
        decreases v@.len() - i,
    {
        let mut f = Fields::new();
        f.put("bit_len", Json::uint(v[i].bit_len as u64));
        f.put("hex", Json::Text(crate::auth::to_hex(v[i].bytes.as_slice())));
        f.put("layers", layers[i].copy());
        let x = f.object();
        assert(want.take(i + 1) =~= want.take(i as int).push(x.view()));
        out.push(x);
        i += 1;
    }
    assert(want.take(v@.len() as int) =~= want);
    let mut f = Fields::new();
    f.put("frames", out.array());
    f.put("fit", fit);
    f.object()
}

// ---------------------------------------------------------------------------------------------
// Recordings
// ---------------------------------------------------------------------------------------------

/// Content may be served over HTTP: the class lets it out, and lets a remote consumer in.
pub fn servable(remote_permitted: bool, content_permitted: bool) -> (r: bool)
    ensures
        r == (remote_permitted && content_permitted),
{
    remote_permitted && content_permitted
}

/// The longest id of a recording.
pub const MAX_ID: usize = 128;

/// A character of an id.
pub open spec fn id_char(c: char) -> bool {
    ('0' <= c <= '9') || ('A' <= c <= 'Z') || ('a' <= c <= 'z') || c == '_' || c == '.' || c == ':'
        || c == '-'
}

/// The id of a recording: up to 128 letters, digits, and `_.:-`.
pub open spec fn capture_id(s: Seq<char>) -> bool {
    1 <= s.len() <= MAX_ID && forall|i: int| 0 <= i < s.len() ==> id_char(#[trigger] s[i])
}

/// [`capture_id`].
pub fn is_capture_id(id: &str) -> (r: bool)
    ensures
        r == capture_id(id@),
{
    let v = chars_of(id);
    if v.len() < 1 || v.len() > MAX_ID {
        return false;
    }
    let mut i: usize = 0;
    while i < v.len()
        invariant
            i <= v@.len(),
            v@ == id@,
            forall|k: int| 0 <= k < i ==> id_char(#[trigger] v@[k]),
        decreases v@.len() - i,
    {
        let c = v[i];
        if !(('0' <= c && c <= '9') || ('A' <= c && c <= 'Z') || ('a' <= c && c <= 'z') || c == '_'
            || c == '.' || c == ':' || c == '-') {
            assert(!id_char(id@[i as int]));
            return false;
        }
        i += 1;
    }
    true
}

/// The page of a recording that a request asks for, and whether it is parsed again.
#[derive(Clone, Copy, Debug, PartialEq, Eq, Structural)]
pub struct CapturePlan {
    /// The first frame.
    pub from: u64,
    /// How many.
    pub limit: u64,
    /// With a field map.
    pub mapped: bool,
}

/// Where a page starts.
pub open spec fn from_of(body: Seq<(Seq<char>, JsonV)>) -> Result<u64, CtlResponseV> {
    match member(body, "from_frame"@) {
        None => Ok(0),
        Some(v) => match as_uint(v) {
            Some(n) => Ok(n),
            None => Err(invalid("from_frame is a non-negative integer"@)),
        },
    }
}

/// The size of a page.
pub open spec fn limit_of(body: Seq<(Seq<char>, JsonV)>) -> Result<u64, CtlResponseV> {
    match member(body, "limit"@) {
        None => Ok(DEFAULT_PARSE_LIMIT as u64),
        Some(v) => match as_uint(v) {
            Some(n) => if 1 <= n <= MAX_PARSE_FRAMES {
                Ok(n)
            } else {
                Err(invalid("limit is an integer in 1..=500"@))
            },
            None => Err(invalid("limit is an integer in 1..=500"@)),
        },
    }
}

/// What a request asks of a recording.
pub open spec fn capture_plan_of(
    id: Seq<char>,
    body: Seq<(Seq<char>, JsonV)>,
    read: FieldMapRead,
    store: bool,
) -> Result<CapturePlan, CtlResponseV> {
    match only_members(body, seq!["field_map"@, "from_frame"@, "limit"@]) {
        Err(c) => Err(c),
        Ok(_) => if !capture_id(id) {
            Err(invalid("capture ids are [A-Za-z0-9_.:-]{1,128}"@))
        } else {
            match evaluator_of(read) {
                Err(c) => Err(c),
                Ok(mapped) => match from_of(body) {
                    Err(c) => Err(c),
                    Ok(from) => match limit_of(body) {
                        Err(c) => Err(c),
                        Ok(limit) => if store {
                            Ok(CapturePlan { from, limit, mapped })
                        } else {
                            Err(
                                refusal_of(
                                    fail_v(
                                        503,
                                        "unavailable"@,
                                        "no decoded-stream capture store on this server"@,
                                    ),
                                ),
                            )
                        },
                    },
                },
            }
        },
    }
}

/// [`capture_plan_of`].
pub fn plan_capture(id: &str, body: &Vec<(String, Json)>, read: &FieldMapRead, store: bool) -> (r:
    Result<CapturePlan, CtlResponse>)
    ensures
        refused(r) == capture_plan_of(id@, fields_view(body@), *read, store),
{
    let allowed = ["field_map", "from_frame", "limit"];
    assert(texts(allowed@) =~= seq!["field_map"@, "from_frame"@, "limit"@]);
    match check_members(body, &allowed) {
        Ok(_) => {},
        Err(c) => return Err(c),
    }
    if !is_capture_id(id) {
        return Err(Fail::invalid("capture ids are [A-Za-z0-9_.:-]{1,128}").response());
    }
    let mapped = match evaluator(read) {
        Ok(m) => m,
        Err(c) => return Err(c),
    };
    let from: u64 = match find(body, "from_frame") {
        None => 0,
        Some(v) => match v.unsigned() {
            Some(n) => n,
            None => return Err(Fail::invalid("from_frame is a non-negative integer").response()),
        },
    };
    let limit: u64 = match find(body, "limit") {
        None => DEFAULT_PARSE_LIMIT as u64,
        Some(v) => match v.unsigned() {
            Some(n) => if n >= 1 && n <= MAX_PARSE_FRAMES as u64 {
                n
            } else {
                return Err(Fail::invalid("limit is an integer in 1..=500").response());
            },
            None => return Err(Fail::invalid("limit is an integer in 1..=500").response()),
        },
    };
    if !store {
        return Err(
            Fail::of(503, "unavailable", "no decoded-stream capture store on this server").response(),
        );
    }
    Ok(CapturePlan { from, limit, mapped })
}

/// What became of opening a recording.
#[derive(Clone, Copy, Debug, PartialEq, Eq, Structural)]
pub enum Opened {
    /// The store failed.
    Failed,
    /// There is no such recording.
    Missing,
    /// It is open.
    At {
        /// The number of the first frame to be read.
        first: u64,
        /// How many frames it has, where the store knows.
        total: Option<u64>,
    },
}

/// The open recording, or how the request is refused.
pub fn opened(o: Opened) -> (r: Result<(u64, Option<u64>), CtlResponse>)
    ensures
        refused(r) == (match o {
            Opened::Failed => Err(
                refusal_of(fail_v(500, "unreadable"@, "the capture could not be opened"@)),
            ),
            Opened::Missing => Err(refusal_of(fail_v(404, "not_found"@, "no such capture"@))),
            Opened::At { first, total } => Ok((first, total)),
        }),
{
    match o {
        Opened::Failed => Err(
            Fail::of(500, "unreadable", "the capture could not be opened").response(),
        ),
        Opened::Missing => Err(Fail::of(404, "not_found", "no such capture").response()),
        Opened::At { first, total } => Ok((first, total)),
    }
}

/// What a recording that is no inspector stream is refused with.
pub fn unreadable() -> (r: CtlResponse)
    ensures
        r@ == refusal_of(
            fail_v(422, "unreadable"@, "the capture is not a readable inspector stream"@),
        ),
{
    Fail::of(422, "unreadable", "the capture is not a readable inspector stream").response()
}

/// The end of a page, or the last number there is.
pub open spec fn page_limit(p: CapturePlan) -> u64 {
    if p.from + p.limit <= u64::MAX {
        (p.from + p.limit) as u64
    } else {
        u64::MAX
    }
}

/// The end of a page in a recording of `total` frames.
pub open spec fn page_end(p: CapturePlan, total: u64) -> u64 {
    if total <= page_limit(p) {
        total
    } else {
        page_limit(p)
    }
}

/// Where the first pass stops: at the end where the store does not know how long the recording
/// is; with a field map at the cap of the fit; else at the end of the page.
pub open spec fn first_stop(p: CapturePlan, total: Option<u64>) -> u64 {
    match total {
        None => u64::MAX,
        Some(t) => if p.mapped {
            if t <= MAX_FIT_FRAMES {
                t
            } else {
                MAX_FIT_FRAMES
            }
        } else {
            page_end(p, t)
        },
    }
}

/// Where the second pass starts and where it stops, where there is one: the page lies past what was
/// read.
pub open spec fn second_pass(p: CapturePlan, total: Option<u64>, end: u64) -> Option<(u64, u64)> {
    match total {
        None => None,
        Some(t) => if end < page_end(p, t) {
            Some(
                (
                    if p.from >= end {
                        p.from
                    } else {
                        end
                    },
                    page_end(p, t),
                ),
            )
        } else {
            None
        },
    }
}

/// How many frames a recording has: as many as its store says, else as many as were read, for then
/// the reading went to its end.
pub open spec fn total_frames(total: Option<u64>, end: u64) -> u64 {
    match total {
        Some(t) => t,
        None => end,
    }
}

/// How many frames of the second pass's page the first served already.
pub open spec fn already_served(p: CapturePlan, end: u64, start: u64) -> u64 {
    let lo = if p.from >= start {
        p.from
    } else {
        start
    };
    if end > lo {
        (end - lo) as u64
    } else {
        0
    }
}

impl CapturePlan {
    /// Where the first pass starts: with a field map at the beginning, for the fit is of the whole
    /// recording.
    pub fn first_open(&self) -> (r: u64)
        ensures
            r == (if self.mapped {
                0
            } else {
                self.from
            }),
    {
        if self.mapped {
            0
        } else {
            self.from
        }
    }

    /// [`page_end`].
    pub fn end_of_page(&self, total: u64) -> (r: u64)
        ensures
            r == page_end(*self, total),
    {
        let limit = if self.from <= u64::MAX - self.limit {
            self.from + self.limit
        } else {
            u64::MAX
        };
        if total <= limit {
            total
        } else {
            limit
        }
    }

    /// [`first_stop`].
    pub fn stop(&self, total: Option<u64>) -> (r: u64)
        ensures
            r == first_stop(*self, total),
    {
        match total {
            None => u64::MAX,
            Some(t) => if self.mapped {
                if t <= MAX_FIT_FRAMES {
                    t
                } else {
                    MAX_FIT_FRAMES
                }
            } else {
                self.end_of_page(t)
            },
        }
    }

    /// [`second_pass`].
    pub fn second(&self, total: Option<u64>, end: u64) -> (r: Option<(u64, u64)>)
        ensures
            r == second_pass(*self, total, end),
    {
        match total {
            None => None,
            Some(t) => {
                let stop = self.end_of_page(t);
                if end < stop {
                    let start = if self.from >= end {
                        self.from
                    } else {
                        end
                    };
                    Some((start, stop))
                } else {
                    None
                }
            },
        }
    }

    /// [`total_frames`].
    pub fn total(&self, total: Option<u64>, end: u64) -> (r: u64)
        ensures
            r == total_frames(total, end),
    {
        match total {
            Some(t) => t,
            None => end,
        }
    }

    /// [`already_served`].
    pub fn skip(&self, end: u64, start: u64) -> (r: u64)
        ensures
            r == already_served(*self, end, start),
    {
        let lo = if self.from >= start {
            self.from
        } else {
            start
        };
        if end > lo {
            end - lo
        } else {
            0
        }
    }
}

/// The numbers from one up to another.
pub open spec fn span(lo: int, hi: int) -> Seq<int> {
    Seq::new(
        if hi > lo {
            (hi - lo) as nat
        } else {
            0
        },
        |i: int| lo + i,
    )
}

/// The frames that a pass from `first` up to `end` serves, by number.
pub open spec fn served(p: CapturePlan, first: u64, end: u64) -> Seq<int> {
    span(
        if p.from >= first {
            p.from as int
        } else {
            first as int
        },
        if end <= p.from + p.limit {
            end as int
        } else {
            p.from + p.limit
        },
    )
}

/// The two passes serve each frame of the page once and in order, wherever the store's index let
/// the second one start.
pub proof fn two_passes_serve_one_page(
    p: CapturePlan,
    total: u64,
    first: u64,
    end: u64,
    start: u64,
    last: u64,
)
    requires
        first <= end,
        second_pass(p, Some(total), end) is Some,
        start <= (second_pass(p, Some(total), end)->0).0,
        end <= last <= (second_pass(p, Some(total), end)->0).1,
        start <= last,
    ensures
        served(p, first, end) + served(p, start, last).skip(
            if already_served(p, end, start) <= served(p, start, last).len() {
                already_served(p, end, start) as int
            } else {
                served(p, start, last).len() as int
            },
        ) == served(p, first, last),
{
    let a = served(p, first, end);
    let b = served(p, start, last);
    let k = if already_served(p, end, start) <= b.len() {
        already_served(p, end, start) as int
    } else {
        b.len() as int
    };
    assert(a + b.skip(k) =~= served(p, first, last));
}

/// A reader of frame records: which are served, which count for the fit, and which are parsed.
#[derive(Clone, Copy, Debug, PartialEq, Eq, Structural)]
pub struct FrameScan {
    /// The number of the next frame.
    pub next: u64,
    /// Where the page starts.
    pub from: u64,
    /// Its size.
    pub limit: u64,
    /// The fit is summed over the frames below this.
    pub fit_cap: u64,
    /// Read no further.
    pub stop: u64,
    /// With a field map.
    pub mapped: bool,
    /// The stream's class lets content out.
    pub stream_ok: bool,
}

/// What is done with a frame record.
#[derive(Clone, Copy, Debug, PartialEq, Eq, Structural)]
pub struct Seen {
    /// It is on the page.
    pub in_page: bool,
    /// It counts for the fit.
    pub in_fit: bool,
    /// Its content may be served.
    pub parseable: bool,
    /// It is parsed.
    pub parse: bool,
}

/// What is done with the next frame record, whose class lets content out or not, and which may
/// have been withheld already.
pub open spec fn seen_of(s: FrameScan, class_ok: bool, gated: bool) -> Seen {
    let in_page = s.from <= s.next < s.from + s.limit;
    let in_fit = s.mapped && s.next < s.fit_cap;
    let parseable = s.stream_ok && class_ok && !gated;
    Seen { in_page, in_fit, parseable, parse: (in_page || in_fit) && s.mapped && parseable }
}

impl FrameScan {
    /// There is another frame to read.
    pub fn wants(&self) -> (r: bool)
        ensures
            r == (self.next < self.stop),
    {
        self.next < self.stop
    }

    /// [`seen_of`] the record just read.
    pub fn see(&mut self, class_ok: bool, gated: bool) -> (r: Seen)
        requires
            old(self).next < old(self).stop,
        ensures
            r == seen_of(*old(self), class_ok, gated),
            *final(self) == (FrameScan { next: (old(self).next + 1) as u64, ..*old(self) }),
    {
        let index = self.next;
        self.next = index + 1;
        let in_page = index >= self.from && index - self.from < self.limit;
        let in_fit = self.mapped && index < self.fit_cap;
        let parseable = self.stream_ok && class_ok && !gated;
        Seen {
            in_page,
            in_fit,
            parseable,
            parse: (in_page || in_fit) && self.mapped && parseable,
        }
    }
}

/// Content fails closed: a frame is parsed and its content served only where the stream's class
/// and its own let it out and it was not withheld.
pub proof fn content_fails_closed(s: FrameScan, class_ok: bool, gated: bool)
    ensures
        seen_of(s, class_ok, gated).parse ==> seen_of(s, class_ok, gated).parseable,
        seen_of(s, class_ok, gated).parseable <==> (s.stream_ok && class_ok && !gated),
{
}

/// What is left of a second pass's page: the frames that the first did not serve.
pub open spec fn unserved(more: Seq<JsonV>, skip: u64) -> Seq<JsonV> {
    more.skip(
        if skip <= more.len() {
            skip as int
        } else {
            more.len() as int
        },
    )
}

/// The page of two passes.
pub fn extend_page(page: Vec<Json>, more: &Vec<Json>, skip: u64) -> (r: Vec<Json>)
    ensures
        items_view(r@) == items_view(page@) + unserved(items_view(more@), skip),
{
    let ghost all = items_view(more@);
    let start: usize = if skip <= more.len() as u64 {
        skip as usize
    } else {
        more.len()
    };
    let mut out = page;
    let mut i: usize = start;
    proof {
        items_view_each(more@);
        assert(all.subrange(start as int, start as int) =~= Seq::empty());
        assert(items_view(out@) =~= items_view(page@) + all.subrange(start as int, start as int));
    }
    while i < more.len()
        invariant
            all == items_view(more@),
            all.len() == more@.len(),
            forall|k: int| 0 <= k < more@.len() ==> all[k] == (#[trigger] more@[k]).view(),
            start <= i <= more@.len(),
            items_view(out@) == items_view(page@) + all.subrange(start as int, i as int),
        decreases more@.len() - i,
    {
        let x = more[i].copy();
        proof {
            items_view_push(out@, x);
            assert(items_view(page@) + all.subrange(start as int, i + 1) =~= (items_view(page@)
                + all.subrange(start as int, i as int)).push(x.view()));
        }
        out.push(x);
        i += 1;
    }
    assert(all.subrange(start as int, more@.len() as int) =~= unserved(all, skip));
    out
}

/// How a stored record is served.
#[derive(Clone, Copy, Debug, PartialEq, Eq, Structural)]
pub enum Serve {
    /// Without its content, and marked as withheld.
    Withheld,
    /// With the layers of this parse.
    Layered,
    /// As it is stored.
    Stored,
}

/// How a stored record is served: withheld where it may not be; with the layers where it was
/// parsed and has content.
pub fn serve_record(parseable: bool, parsed: bool, has_content: bool) -> (r: Serve)
    ensures
        r == (if !parseable {
            Serve::Withheld
        } else if parsed && has_content {
            Serve::Layered
        } else {
            Serve::Stored
        }),
{
    if !parseable {
        Serve::Withheld
    } else if parsed && has_content {
        Serve::Layered
    } else {
        Serve::Stored
    }
}

/// A stored record without its content, marked as withheld.
pub open spec fn withheld_v(record: JsonV) -> JsonV {
    match record {
        JsonV::Object(f) => JsonV::Object(
            with_member(without_member(f, "content"@), "gated"@, JsonV::Bool(true)),
        ),
        _ => JsonV::Null,
    }
}

/// A stored record where it is `shown`, else [`withheld_v`] of it.
pub open spec fn served_v(record: JsonV, shown: bool) -> JsonV {
    if shown {
        record
    } else {
        withheld_v(record)
    }
}

/// [`served_v`].
pub fn served_record(record: Json, shown: bool) -> (r: Json)
    ensures
        r.view() == served_v(record.view(), shown),
{
    if shown {
        return record;
    }
    match record {
        Json::Object(f) => {
            let mut out = Fields { list: remove_member(f, "content") };
            out.set("gated".to_owned(), Json::Bool(true));
            out.object()
        },
        _ => Json::Null,
    }
}

/// A record that is not shown is served without content and says that it is withheld; whatever else
/// it holds is served as it is.
pub proof fn withheld_records_carry_no_content(record: JsonV, other: Seq<char>)
    ensures
        at(withheld_v(record), "content"@) is None,
        record is Object ==> at(withheld_v(record), "gated"@) == Some(JsonV::Bool(true)),
        record is Object && other != "content"@ && other != "gated"@ ==> at(
            withheld_v(record),
            other,
        ) == at(record, other),
{
    if let JsonV::Object(f) = record {
        let w = without_member(f, "content"@);
        left_out_members_are_gone(f, "content"@, other);
        member_set(w, "gated"@, JsonV::Bool(true));
        reveal_strlit("content");
        reveal_strlit("gated");
        assert("content"@.len() == 7 && "gated"@.len() == 5);
        other_members_stay(w, "gated"@, JsonV::Bool(true), "content"@);
        if other != "gated"@ {
            other_members_stay(w, "gated"@, JsonV::Bool(true), other);
        }
    }
}

/// The fit of a recording: it says whether it covers all of it. There is none without a field
/// map.
pub open spec fn fit_v(fit: Option<Seq<(Seq<char>, JsonV)>>, total: u64, cap: u64) -> JsonV {
    match fit {
        None => JsonV::Null,
        Some(f) => JsonV::Object(with_member(f, "truncated"@, JsonV::Bool(total > cap))),
    }
}

/// What an optional summary holds.
pub open spec fn fit_view(fit: Option<Fields>) -> Option<Seq<(Seq<char>, JsonV)>> {
    match fit {
        Some(f) => Some(f@),
        None => None,
    }
}

/// [`fit_v`].
pub fn fit_json(fit: Option<Fields>, total: u64, cap: u64) -> (r: Json)
    ensures
        r.view() == fit_v(fit_view(fit), total, cap),
{
    match fit {
        None => Json::Null,
        Some(f) => {
            let mut f = f;
            f.set("truncated".to_owned(), Json::Bool(total > cap));
            f.object()
        },
    }
}

/// The stream of a recording: its header, and the profile of the inspector where it has one.
pub fn stream_json(
    stream_id: &str,
    content_class: Json,
    message_schema: Json,
    inspector: Option<Json>,
) -> (r: Json)
    ensures
        r.view() == JsonV::Object(
            {
                let f = no_fields().push(("stream_id"@, text_v(stream_id@))).push(
                    ("content_class"@, content_class.view()),
                ).push(("message_schema"@, message_schema.view()));
                match inspector {
                    Some(p) => f.push(("inspector"@, p.view())),
                    None => f,
                }
            },
        ),
{
    let mut f = Fields::new();
    f.put("stream_id", Json::text(stream_id));
    f.put("content_class", content_class);
    f.put("message_schema", message_schema);
    if let Some(p) = inspector {
        f.put("inspector", p);
    }
    f.object()
}

/// Where the next page starts.
pub open spec fn next_page(p: CapturePlan, total: u64) -> Option<u64> {
    if page_limit(p) < total {
        Some(page_limit(p))
    } else {
        None
    }
}

/// The answer of a recording parsed again.
pub fn capture_answer(
    id: &str,
    p: &CapturePlan,
    stream: Json,
    total: u64,
    page: Vec<Json>,
    fit: Json,
) -> (r: Json)
    ensures
        r.view() == JsonV::Object(
            no_fields().push(("capture_id"@, text_v(id@))).push(("stream"@, stream.view())).push(
                ("total_frames"@, uint_v(total as int)),
            ).push(("from_frame"@, uint_v(p.from as int))).push(
                ("limit"@, uint_v(p.limit as int)),
            ).push(("next_from_frame"@, opt_uint_v(next_page(*p, total)))).push(
                ("frames"@, JsonV::Array(items_view(page@))),
            ).push(("fit"@, fit.view())),
        ),
{
    let next = if p.from <= u64::MAX - p.limit {
        p.from + p.limit
    } else {
        u64::MAX
    };
    let mut f = Fields::new();
    f.put("capture_id", Json::text(id));
    f.put("stream", stream);
    f.put("total_frames", Json::uint(total));
    f.put("from_frame", Json::uint(p.from));
    f.put("limit", Json::uint(p.limit));
    f.put(
        "next_from_frame",
        Json::opt_uint(
            if next < total {
                Some(next)
            } else {
                None
            },
        ),
    );
    f.put("frames", Json::Array(page));
    f.put("fit", fit);
    f.object()
}

proof fn hex_digits_are_read_back(n: int)
    requires
        0 <= n < 16,
    ensures
        hex_char(hex_digit(n)) == Some(n as u8),
{
}

/// Bytes that are written in hexadecimal are read back as they were.
pub proof fn hex_is_read_back(b: Seq<u8>)
    ensures
        hex_bytes(hex(b)) == Some(b),
        hex(b).len() == 2 * b.len(),
    decreases b.len(),
{
    if b.len() > 0 {
        let t = b.drop_last();
        let x = b.last();
        hex_is_read_back(t);
        let s = hex(b);
        assert(s.take(s.len() - 2) =~= hex(t));
        hex_digits_are_read_back(x as int / 16);
        hex_digits_are_read_back(x as int % 16);
        assert(b =~= t.push(x));
    } else {
        assert(b =~= Seq::empty());
    }
}

/// What a text of hexadecimal digits, small or capital, writes: two digits a byte, the high one first.
/// A text of another length, or with another character, writes nothing.
pub proof fn two_digits_write_a_byte(s: Seq<char>, c: char, d: char)
    ensures
        hex_bytes(Seq::empty()) == Some(Seq::<u8>::empty()),
        hex_bytes(s.push(c).push(d)) is Some <==> hex_bytes(s) is Some && hex_char(c) is Some
            && hex_char(d) is Some,
        hex_bytes(s.push(c).push(d)) matches Some(b) ==> b.len() == hex_bytes(s)->0.len() + 1
            && b.drop_last() == hex_bytes(s)->0 && b.last() == 16 * hex_char(c)->0 + hex_char(d)->0,
        hex_char(c) matches Some(n) ==> n < 16,
        hex_char(c) is Some <==> ('0' <= c <= '9') || ('a' <= c <= 'f') || ('A' <= c <= 'F'),
{
    let t = s.push(c).push(d);
    assert(t.take(t.len() - 2) =~= s);
    if let Some(b) = hex_bytes(t) {
        assert(b.drop_last() =~= hex_bytes(s)->0);
    }
}

/// The length of a frame: the one given where it is not past its bytes, else all their bits.
pub proof fn frames_are_as_long_as_their_bytes(
    obj: Seq<(Seq<char>, JsonV)>,
    bytes: nat,
    i: nat,
)
    ensures
        bits_of(obj, bytes, i) matches Ok(n) ==> n <= 8 * bytes,
        member(obj, "bit_len"@) is None && 8 * bytes <= u32::MAX ==> (bits_of(
            obj,
            bytes,
            i,
        ) matches Ok(n) && n == 8 * bytes),
        member(obj, "bit_len"@) matches Some(v) ==> (bits_of(obj, bytes, i) matches Ok(n)
            ==> as_uint(v) == Some(n as u64)),
        member(obj, "bit_len"@) matches Some(v) ==> (as_uint(v) matches Some(n) ==> (n <= 8 * bytes
            && n <= u32::MAX ==> bits_of(obj, bytes, i) is Ok)),
{
}

/// The frames of a request are those it writes, one for each, in order; one that is none refuses
/// them all.
pub proof fn frames_are_read_in_order(items: Seq<JsonV>)
    ensures
        frames_in(items) matches Ok(v) ==> v.len() == items.len() && forall|i: int|
            0 <= i < v.len() ==> frame_of(items[i], i as nat) == Ok::<FrameV, CtlResponseV>(
                #[trigger] v[i],
            ),
        (forall|i: int|
            0 <= i < items.len() ==> frame_of(#[trigger] items[i], i as nat) is Ok) ==> frames_in(
            items,
        ) is Ok,
    decreases items.len(),
{
    if items.len() > 0 {
        let t = items.drop_last();
        frames_are_read_in_order(t);
        assert(items[items.len() - 1] == items.last());
        if let Ok(v) = frames_in(items) {
            assert forall|i: int| 0 <= i < v.len() implies frame_of(items[i], i as nat) == Ok::<
                FrameV,
                CtlResponseV,
            >(#[trigger] v[i]) by {
                if i < t.len() {
                    assert(frames_in(t)->Ok_0[i] == v[i]);
                    assert(t[i] == items[i]);
                }
            }
        }
        if forall|i: int| 0 <= i < items.len() ==> frame_of(#[trigger] items[i], i as nat) is Ok {
            assert forall|i: int| 0 <= i < t.len() implies frame_of(
                #[trigger] t[i],
                i as nat,
            ) is Ok by {
                assert(t[i] == items[i]);
            }
            assert(frame_of(items[items.len() - 1], (items.len() - 1) as nat) is Ok);
        }
    }
}

/// A frame is the bytes that its digits write, with its length.
pub proof fn a_frame_is_its_digits(v: JsonV, i: nat)
    ensures
        frame_of(v, i) matches Ok(f) ==> {
            &&& v is Object
            &&& member(v->Object_0, "hex"@) matches Some(JsonV::Text(s)) && hex_bytes(s) == Some(
                f.bytes,
            )
            &&& bits_of(v->Object_0, f.bytes.len(), i) == Ok::<u32, CtlResponseV>(f.bit_len)
        },
        frame_of(v, i) matches Err(c) ==> c.status == 400,
{
    if let JsonV::Object(obj) = v {
        only_allowed_members_pass(obj, seq!["hex"@, "bit_len"@]);
    }
}

/// Frames are parsed with a field map that can be, and between one and five hundred of them.
pub proof fn frames_are_parsed_with_a_map(body: Seq<(Seq<char>, JsonV)>, read: FieldMapRead)
    ensures
        request_frames_of(body, read) matches Ok(v) ==> read is Ready && 1 <= v.len() <= 500 && (
        member(body, "frames"@) matches Some(JsonV::Array(a)) && frames_in(a) == Ok::<
            Seq<FrameV>,
            CtlResponseV,
        >(v)),
        request_frames_of(body, read) matches Err(c) ==> c.status == 400,
{
    only_allowed_members_pass(body, seq!["field_map"@, "frames"@]);
    if let Some(JsonV::Array(a)) = member(body, "frames"@) {
        frames_are_read_in_order(a);
        frames_refuse_as_invalid(a);
    }
}

proof fn frames_refuse_as_invalid(items: Seq<JsonV>)
    ensures
        frames_in(items) matches Err(c) ==> c.status == 400,
    decreases items.len(),
{
    if items.len() > 0 {
        frames_refuse_as_invalid(items.drop_last());
        a_frame_is_its_digits(items.last(), (items.len() - 1) as nat);
    }
}

/// A recording is read from the frame given, or its first, as many frames as given, or a hundred, at
/// most five hundred; with a field map exactly where one is given that can be read.
pub proof fn recordings_are_read_as_asked(
    id: Seq<char>,
    body: Seq<(Seq<char>, JsonV)>,
    read: FieldMapRead,
    store: bool,
)
    ensures
        capture_plan_of(id, body, read, store) matches Ok(p) ==> {
            &&& store
            &&& capture_id(id)
            &&& p.mapped <==> read is Ready
            &&& read is Ready || read is Absent
            &&& member(body, "from_frame"@) is None ==> p.from == 0
            &&& member(body, "from_frame"@) matches Some(v) ==> as_uint(v) == Some(p.from)
            &&& 1 <= p.limit <= 500
            &&& member(body, "limit"@) is None ==> p.limit == 100
            &&& member(body, "limit"@) matches Some(v) ==> as_uint(v) == Some(p.limit)
        },
        capture_plan_of(id, body, read, store) matches Err(c) ==> c.status == 400 || c.status == 503,
{
    only_allowed_members_pass(body, seq!["field_map"@, "from_frame"@, "limit"@]);
}

/// A page ends behind as many frames as it takes, or where the recording does; the first pass reads
/// that far without a field map and with one as far as the fit goes; a second pass reads what is left
/// of the page, and only that; and there is a next page exactly where frames are left.
pub proof fn a_page_ends_with_its_frames(p: CapturePlan, total: u64, end: u64)
    requires
        p.from + p.limit <= u64::MAX,
    ensures
        page_end(p, total) <= total,
        page_end(p, total) <= p.from + p.limit,
        page_end(p, total) == total || page_end(p, total) == p.from + p.limit,
        first_stop(p, None) == u64::MAX,
        !p.mapped ==> first_stop(p, Some(total)) == page_end(p, total),
        p.mapped ==> first_stop(p, Some(total)) <= total && first_stop(p, Some(total)) <= 100_000 && (
        first_stop(p, Some(total)) == total || first_stop(p, Some(total)) == 100_000),
        second_pass(p, Some(total), end) is Some <==> end < page_end(p, total),
        second_pass(p, Some(total), end) matches Some(x) ==> x.0 >= p.from && x.0 >= end && (x.0
            == p.from || x.0 == end) && x.1 == page_end(p, total),
        second_pass(p, None, end) is None,
        next_page(p, total) is Some <==> p.from + p.limit < total,
        next_page(p, total) matches Some(n) ==> n == p.from + p.limit,
        total_frames(Some(total), end) == total,
        total_frames(None, end) == end,
{
}

/// What is done with a frame of a recording: it is on the page where its number is one of the page's,
/// it counts for the fit where there is a field map and its number is below the cap, and it is parsed
/// where it is either, there is a map, and its content may be shown.
pub proof fn frames_are_used_by_their_number(s: FrameScan, class_ok: bool, gated: bool)
    ensures
        ({
            let x = seen_of(s, class_ok, gated);
            &&& x.in_page <==> s.from <= s.next && s.next < s.from + s.limit
            &&& x.in_fit <==> s.mapped && s.next < s.fit_cap
            &&& x.parse <==> s.mapped && s.stream_ok && class_ok && !gated && ((s.from <= s.next
                && s.next < s.from + s.limit) || s.next < s.fit_cap)
        }),
{
}

/// A fit says that it is of a part where there are more frames than it counts; without a map there is
/// none.
pub proof fn a_fit_says_whether_it_is_whole(f: Seq<(Seq<char>, JsonV)>, total: u64, cap: u64)
    ensures
        fit_v(None, total, cap) == JsonV::Null,
        at(fit_v(Some(f), total, cap), "truncated"@) == Some(JsonV::Bool(total > cap)),
{
    member_set(f, "truncated"@, JsonV::Bool(total > cap));
}

/// What a reader finds of a parsed frame: its length, its bytes in hexadecimal, and its layers.
pub proof fn a_parsed_frame_is_served_whole(f: FrameV, layers: JsonV)
    ensures
        at(parsed_frame_v(f, layers), "bit_len"@) == Some(uint_v(f.bit_len as int)),
        at(parsed_frame_v(f, layers), "hex"@) == Some(text_v(hex(f.bytes))),
        at(parsed_frame_v(f, layers), "layers"@) == Some(layers),
{
    let g = parsed_frame_v(f, layers)->Object_0;
    member_is_the_first(g, "bit_len"@, 0);
    assert("bit_len"@ != "hex"@) by {
        reveal_strlit("bit_len");
        reveal_strlit("hex");
        assert("bit_len"@.len() != "hex"@.len());
    }
    member_is_the_first(g, "hex"@, 1);
    assert("bit_len"@ != "layers"@) by {
        reveal_strlit("bit_len");
        reveal_strlit("layers");
        assert("bit_len"@.len() != "layers"@.len());
    }
    assert("hex"@ != "layers"@) by {
        reveal_strlit("hex");
        reveal_strlit("layers");
        assert("hex"@.len() != "layers"@.len());
    }
    member_is_the_first(g, "layers"@, 2);
}

} // verus!
