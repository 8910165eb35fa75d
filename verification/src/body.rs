//! Control bodies: refusals, and reading the members of a JSON object.

use vstd::prelude::*;

use crate::double::Real;
use crate::json::{
    as_real, at, as_uint, error_v, fields_view, fields_view_each, find, member, parse, parse_result,
    parsed, Json, JsonV,
};
use crate::text::{
    debug, debug_text, decimal, number as decimal_number, one_of, opt_text, same_but_case,
    same_ignoring_case, split, split_on, texts, trim, trimmed,
};

verus! {

/// A refused or failed action: status, stable code, message.
#[derive(Debug)]
pub struct Fail {
    /// The HTTP status.
    pub status: u16,
    /// The stable code.
    pub code: &'static str,
    /// What went wrong, in words.
    pub message: String,
}

/// What a [`Fail`] holds.
#[verifier::ext_equal]
pub struct FailV {
    /// The HTTP status.
    pub status: u16,
    /// The stable code.
    pub code: Seq<char>,
    /// What went wrong, in words.
    pub message: Seq<char>,
}

/// The value, or what the refusal holds.
pub open spec fn outcome<T>(r: Result<T, Fail>) -> Result<T, FailV> {
    match r {
        Ok(x) => Ok(x),
        Err(f) => Err(f@),
    }
}

/// What a read holds.
pub open spec fn read_result(r: Result<Json, Fail>) -> Result<JsonV, FailV> {
    match r {
        Ok(j) => Ok(j.view()),
        Err(f) => Err(f@),
    }
}

/// A refusal of the request as it stands.
pub open spec fn invalid_v(message: Seq<char>) -> FailV {
    FailV { status: 400, code: "invalid"@, message }
}

/// A refusal.
pub open spec fn fail_v(status: u16, code: Seq<char>, message: Seq<char>) -> FailV {
    FailV { status, code, message }
}

/// A control response.
pub struct CtlResponse {
    /// The HTTP status.
    pub status: u16,
    /// The answer.
    pub body: Json,
    /// The methods that the path takes, where this one is not among them.
    pub allow: Option<&'static str>,
}

/// What a [`CtlResponse`] holds.
#[verifier::ext_equal]
pub struct CtlResponseV {
    /// The HTTP status.
    pub status: u16,
    /// The answer.
    pub body: JsonV,
    /// The methods that the path takes.
    pub allow: Option<Seq<char>>,
}

impl CtlResponse {
    /// What the response holds.
    pub open spec fn view(&self) -> CtlResponseV {
        CtlResponseV { status: self.status, body: self.body.view(), allow: opt_text(self.allow) }
    }
}

/// The response of a refusal.
pub open spec fn refusal_of(f: FailV) -> CtlResponseV {
    CtlResponseV { status: f.status, body: error_v(f.code, f.message), allow: None }
}

impl Fail {
    /// What the refusal holds.
    pub open spec fn view(&self) -> FailV {
        FailV { status: self.status, code: self.code@, message: self.message@ }
    }

    /// A refusal.
    pub fn new(status: u16, code: &'static str, message: String) -> (r: Fail)
        ensures
            r@ == fail_v(status, code@, message@),
    {
        Fail { status, code, message }
    }

    /// A refusal in fixed words.
    pub fn of(status: u16, code: &'static str, message: &str) -> (r: Fail)
        ensures
            r@ == fail_v(status, code@, message@),
    {
        Fail { status, code, message: message.to_owned() }
    }

    /// A refusal of the request as it stands.
    pub fn invalid(message: &str) -> (r: Fail)
        ensures
            r@ == invalid_v(message@),
    {
        Fail::of(400, "invalid", message)
    }

    /// [`refusal_of`].
    pub fn response(&self) -> (r: CtlResponse)
        ensures
            r@ == refusal_of(self@),
    {
        CtlResponse {
            status: self.status,
            body: Json::error(self.code, self.message.as_str()),
            allow: None,
        }
    }
}

// ---------------------------------------------------------------------------------------------
// The body
// ---------------------------------------------------------------------------------------------

/// ASCII white space.
pub open spec fn is_ascii_white(b: u8) -> bool {
    b == 32 || b == 9 || b == 10 || b == 12 || b == 13
}

/// Nothing but white space.
pub open spec fn blank(body: Seq<u8>) -> bool {
    forall|i: int| 0 <= i < body.len() ==> is_ascii_white(#[trigger] body[i])
}

/// A content type that says JSON, its parameters aside.
pub open spec fn says_json(content_type: Option<Seq<char>>) -> bool {
    match content_type {
        Some(t) => same_but_case(trimmed(split_on(t, ';')[0]), "application/json"@),
        None => false,
    }
}

/// The members of a control body that parsed as `json`, or why it is refused.
pub open spec fn body_members(json: Result<JsonV, Seq<char>>) -> Result<
    Seq<(Seq<char>, JsonV)>,
    FailV,
> {
    match json {
        Ok(JsonV::Object(m)) => Ok(m),
        Ok(_) => Err(invalid_v("the body must be a JSON object"@)),
        Err(e) => Err(invalid_v("malformed JSON body: "@ + e)),
    }
}

/// The members of a control body: none where it is blank, 415 where it is not said to be JSON,
/// 400 where it is not a JSON object.
pub open spec fn body_of(content_type: Option<Seq<char>>, body: Seq<u8>) -> Result<
    Seq<(Seq<char>, JsonV)>,
    FailV,
> {
    if blank(body) {
        Ok(Seq::empty())
    } else if !says_json(content_type) {
        Err(
            fail_v(
                415,
                "unsupported_media_type"@,
                "control bodies must be Content-Type: application/json"@,
            ),
        )
    } else {
        body_members(parsed(body))
    }
}

/// What a read body holds.
pub open spec fn members_result(r: Result<Vec<(String, Json)>, Fail>) -> Result<
    Seq<(Seq<char>, JsonV)>,
    FailV,
> {
    match r {
        Ok(m) => Ok(fields_view(m@)),
        Err(f) => Err(f@),
    }
}

/// [`body_members`].
pub fn read_members(json: Result<Json, String>) -> (r: Result<Vec<(String, Json)>, Fail>)
    ensures
        members_result(r) == body_members(parse_result(json)),
{
    match json {
        Ok(Json::Object(m)) => Ok(m),
        Ok(_) => Err(Fail::invalid("the body must be a JSON object")),
        Err(e) => {
            let m = String::from_str("malformed JSON body: ").concat(e.as_str());
            Err(Fail::new(400, "invalid", m))
        },
    }
}

/// [`says_json`].
pub fn json_type(content_type: Option<&str>) -> (r: bool)
    ensures
        r == says_json(opt_text(content_type)),
{
    match content_type {
        Some(t) => {
            let parts = split(t, ';');
            proof {
                crate::request::split_is_not_empty(t@, ';');
            }
            assert(texts(parts@)[0] == parts@[0]@);
            same_ignoring_case(trim(parts[0]), "application/json")
        },
        None => false,
    }
}

/// [`blank`].
fn is_blank(body: &[u8]) -> (r: bool)
    ensures
        r == blank(body@),
{
    let mut i: usize = 0;
    while i < body.len()
        invariant
            i <= body@.len(),
            forall|k: int| 0 <= k < i ==> is_ascii_white(#[trigger] body@[k]),
        decreases body@.len() - i,
    {
        let b = body[i];
        if !(b == 32 || b == 9 || b == 10 || b == 12 || b == 13) {
            assert(!is_ascii_white(body@[i as int]));
            return false;
        }
        i += 1;
    }
    true
}

/// [`body_of`].
pub fn parse_body(content_type: Option<&str>, body: &[u8]) -> (r: Result<
    Vec<(String, Json)>,
    Fail,
>)
    ensures
        members_result(r) == body_of(opt_text(content_type), body@),
{
    if is_blank(body) {
        return Ok(Vec::new());
    }
    if !json_type(content_type) {
        return Err(
            Fail::of(
                415,
                "unsupported_media_type",
                "control bodies must be Content-Type: application/json",
            ),
        );
    }
    read_members(parse(body))
}

// ---------------------------------------------------------------------------------------------
// Members
// ---------------------------------------------------------------------------------------------

/// Texts with a separator between each two.
pub open spec fn joined(v: Seq<Seq<char>>, sep: Seq<char>) -> Seq<char>
    decreases v.len(),
{
    if v.len() == 0 {
        Seq::empty()
    } else if v.len() == 1 {
        v[0]
    } else {
        joined(v.drop_last(), sep) + sep + v.last()
    }
}

/// [`joined`].
pub fn join(v: &[&str], sep: &str) -> (r: String)
    ensures
        r@ == joined(texts(v@), sep@),
{
    let mut out = String::new();
    let ghost t = texts(v@);
    let mut i: usize = 0;
    assert(t.take(0) =~= Seq::empty());
    while i < v.len()
        invariant
            t == texts(v@),
            i <= v@.len(),
            out@ == joined(t.take(i as int), sep@),
        decreases v@.len() - i,
    {
        proof {
            assert(t.take(i + 1).drop_last() =~= t.take(i as int));
            assert(t.take(i + 1).last() == v@[i as int]@);
        }
        if i > 0 {
            out.append(sep);
        }
        out.append(v[i]);
        proof {
            if i == 0 {
                assert(Seq::<char>::empty() + v@[0]@ =~= v@[0]@);
            }
        }
        i += 1;
    }
    assert(t.take(v@.len() as int) =~= t);
    out
}

/// The first member whose name is not among `allowed`.
pub open spec fn first_unknown(
    body: Seq<(Seq<char>, JsonV)>,
    allowed: Seq<Seq<char>>,
) -> Option<Seq<char>>
    decreases body.len(),
{
    if body.len() == 0 {
        None
    } else if !allowed.contains(body[0].0) {
        Some(body[0].0)
    } else {
        first_unknown(body.skip(1), allowed)
    }
}

/// Refuses a body with a member that is not among `allowed`, naming the first one.
pub open spec fn only_of(body: Seq<(Seq<char>, JsonV)>, allowed: Seq<Seq<char>>) -> Result<
    (),
    FailV,
> {
    match first_unknown(body, allowed) {
        None => Ok(()),
        Some(k) => Err(
            invalid_v(
                "unknown field "@ + debug_text(k) + " (allowed: "@ + (if allowed.len() == 0 {
                    "none"@
                } else {
                    joined(allowed, ", "@)
                }) + ")"@,
            ),
        ),
    }
}

/// [`only_of`].
pub fn only(body: &Vec<(String, Json)>, allowed: &[&str]) -> (r: Result<(), Fail>)
    ensures
        outcome(r) == only_of(fields_view(body@), texts(allowed@)),
{
    let ghost f = fields_view(body@);
    let ghost a = texts(allowed@);
    proof {
        fields_view_each(body@);
        assert(f.skip(0) =~= f);
    }
    let mut i: usize = 0;
    while i < body.len()
        invariant
            f == fields_view(body@),
            a == texts(allowed@),
            f.len() == body@.len(),
            forall|k: int|
                0 <= k < body@.len() ==> f[k] == ((#[trigger] body@[k]).0@, body@[k].1.view()),
            i <= body@.len(),
            first_unknown(f, a) == first_unknown(f.skip(i as int), a),
        decreases body@.len() - i,
    {
        let ghost rest = f.skip(i as int);
        assert(rest[0] == f[i as int]);
        let k = body[i].0.as_str();
        if !one_of(k, allowed) {
            let quoted = debug(k);
            let list = if allowed.len() == 0 {
                "none".to_owned()
            } else {
                join(allowed, ", ")
            };
            let m = String::from_str("unknown field ").concat(quoted.as_str()).concat(
                " (allowed: ",
            ).concat(list.as_str()).concat(")");
            return Err(Fail::new(400, "invalid", m));
        }
        assert(rest.skip(1) =~= f.skip(i + 1));
        i += 1;
    }
    Ok(())
}

/// An optional finite number.
pub open spec fn number_of(body: Seq<(Seq<char>, JsonV)>, key: Seq<char>) -> Result<
    Option<Real>,
    FailV,
> {
    match member(body, key) {
        None => Ok(None),
        Some(v) => match as_real(v) {
            Some(x) => Ok(Some(x)),
            None => Err(invalid_v(key + " must be a finite number"@)),
        },
    }
}

/// [`number_of`].
pub fn number(body: &Vec<(String, Json)>, key: &str) -> (r: Result<Option<Real>, Fail>)
    ensures
        outcome(r) == number_of(fields_view(body@), key@),
{
    match find(body, key) {
        None => Ok(None),
        Some(v) => match v.as_double() {
            Some(x) => Ok(Some(x)),
            None => {
                let m = String::from_str(key).concat(" must be a finite number");
                Err(Fail::new(400, "invalid", m))
            },
        },
    }
}

/// A finite number that must be there.
pub open spec fn required_of(body: Seq<(Seq<char>, JsonV)>, key: Seq<char>) -> Result<
    Real,
    FailV,
> {
    match number_of(body, key) {
        Err(f) => Err(f),
        Ok(Some(x)) => Ok(x),
        Ok(None) => Err(invalid_v(key + " is required"@)),
    }
}

/// [`required_of`].
pub fn required(body: &Vec<(String, Json)>, key: &str) -> (r: Result<Real, Fail>)
    ensures
        outcome(r) == required_of(fields_view(body@), key@),
{
    match number(body, key) {
        Err(f) => Err(f),
        Ok(Some(x)) => Ok(x),
        Ok(None) => {
            let m = String::from_str(key).concat(" is required");
            Err(Fail::new(400, "invalid", m))
        },
    }
}

/// An optional unsigned integer of at most `max`.
pub open spec fn integer_of(body: Seq<(Seq<char>, JsonV)>, key: Seq<char>, max: u64) -> Result<
    Option<u64>,
    FailV,
> {
    match member(body, key) {
        None => Ok(None),
        Some(v) => match as_uint(v) {
            Some(n) if n <= max => Ok(Some(n)),
            _ => Err(invalid_v(key + " must be an integer in 0..="@ + decimal(max as nat))),
        },
    }
}

/// [`integer_of`].
pub fn integer(body: &Vec<(String, Json)>, key: &str, max: u64) -> (r: Result<Option<u64>, Fail>)
    ensures
        outcome(r) == integer_of(fields_view(body@), key@, max),
{
    match find(body, key) {
        None => Ok(None),
        Some(v) => {
            if let Some(n) = v.unsigned() {
                if n <= max {
                    return Ok(Some(n));
                }
            }
            let d = decimal_number(max);
            let m = String::from_str(key).concat(" must be an integer in 0..=").concat(d.as_str());
            Err(Fail::new(400, "invalid", m))
        },
    }
}

/// An optional string, or `null`.
pub open spec fn text_of(body: Seq<(Seq<char>, JsonV)>, key: Seq<char>) -> Result<
    Option<Option<Seq<char>>>,
    FailV,
> {
    match member(body, key) {
        None => Ok(None),
        Some(JsonV::Null) => Ok(Some(None)),
        Some(JsonV::Text(s)) => Ok(Some(Some(s))),
        Some(_) => Err(invalid_v(key + " must be a string or null"@)),
    }
}

/// What a read string holds.
pub open spec fn text_result(r: Result<Option<Option<&str>>, Fail>) -> Result<
    Option<Option<Seq<char>>>,
    FailV,
> {
    match r {
        Ok(None) => Ok(None),
        Ok(Some(s)) => Ok(Some(opt_text(s))),
        Err(f) => Err(f@),
    }
}

/// [`text_of`].
pub fn text<'a>(body: &'a Vec<(String, Json)>, key: &str) -> (r: Result<
    Option<Option<&'a str>>,
    Fail,
>)
    ensures
        text_result(r) == text_of(fields_view(body@), key@),
{
    match find(body, key) {
        None => Ok(None),
        Some(Json::Null) => Ok(Some(None)),
        Some(Json::Text(s)) => Ok(Some(Some(s.as_str()))),
        Some(_) => {
            let m = String::from_str(key).concat(" must be a string or null");
            Err(Fail::new(400, "invalid", m))
        },
    }
}

/// An optional string; `null` is none.
pub open spec fn flat_text_of(body: Seq<(Seq<char>, JsonV)>, key: Seq<char>) -> Result<
    Option<Seq<char>>,
    FailV,
> {
    match text_of(body, key) {
        Ok(Some(Some(s))) => Ok(Some(s)),
        Ok(_) => Ok(None),
        Err(f) => Err(f),
    }
}

/// What a read string holds.
pub open spec fn flat_text_result(r: Result<Option<&str>, Fail>) -> Result<
    Option<Seq<char>>,
    FailV,
> {
    match r {
        Ok(s) => Ok(opt_text(s)),
        Err(f) => Err(f@),
    }
}

/// [`flat_text_of`].
pub fn flat_text<'a>(body: &'a Vec<(String, Json)>, key: &str) -> (r: Result<Option<&'a str>, Fail>)
    ensures
        flat_text_result(r) == flat_text_of(fields_view(body@), key@),
{
    match text(body, key) {
        Ok(Some(s)) => Ok(s),
        Ok(None) => Ok(None),
        Err(f) => Err(f),
    }
}

/// An optional boolean; `null` is none. `words` refuse anything else.
pub open spec fn flag_of(body: Seq<(Seq<char>, JsonV)>, key: Seq<char>, words: Seq<char>) -> Result<
    Option<bool>,
    FailV,
> {
    match member(body, key) {
        None => Ok(None),
        Some(JsonV::Null) => Ok(None),
        Some(JsonV::Bool(b)) => Ok(Some(b)),
        Some(_) => Err(invalid_v(words)),
    }
}

/// [`flag_of`].
pub fn flag(body: &Vec<(String, Json)>, key: &str, words: &str) -> (r: Result<Option<bool>, Fail>)
    ensures
        outcome(r) == flag_of(fields_view(body@), key@, words@),
{
    match find(body, key) {
        None => Ok(None),
        Some(Json::Null) => Ok(None),
        Some(Json::Bool(b)) => Ok(Some(*b)),
        Some(_) => Err(Fail::invalid(words)),
    }
}

/// The member of an object, `null` where there is none.
pub open spec fn at_or_null(v: JsonV, name: Seq<char>) -> JsonV {
    match at(v, name) {
        Some(x) => x,
        None => JsonV::Null,
    }
}

/// [`at_or_null`].
pub fn get_or_null(v: &Json, name: &str) -> (r: Json)
    ensures
        r.view() == at_or_null(v.view(), name@),
{
    match v.get(name) {
        Some(x) => x.copy(),
        None => Json::Null,
    }
}

/// An optional finite number, or `null`.
pub open spec fn nullable_number_of(body: Seq<(Seq<char>, JsonV)>, key: Seq<char>) -> Result<
    Option<Option<Real>>,
    FailV,
> {
    match member(body, key) {
        None => Ok(None),
        Some(JsonV::Null) => Ok(Some(None)),
        Some(v) => match number_of(body, key) {
            Ok(x) => Ok(Some(x)),
            Err(f) => Err(f),
        },
    }
}

/// [`nullable_number_of`].
pub fn nullable_number(body: &Vec<(String, Json)>, key: &str) -> (r: Result<
    Option<Option<Real>>,
    Fail,
>)
    ensures
        outcome(r) == nullable_number_of(fields_view(body@), key@),
{
    match find(body, key) {
        None => Ok(None),
        Some(Json::Null) => Ok(Some(None)),
        Some(_) => match number(body, key) {
            Ok(x) => Ok(Some(x)),
            Err(f) => Err(f),
        },
    }
}

/// Refuses every member.
pub fn no_fields(body: &Vec<(String, Json)>) -> (r: Result<(), Fail>)
    ensures
        outcome(r) == only_of(fields_view(body@), Seq::empty()),
{
    let none: [&str; 0] = [];
    assert(texts(none@) =~= Seq::empty());
    only(body, &none)
}

/// The member of a name is there and writes this number.
pub open spec fn writes(body: Seq<(Seq<char>, JsonV)>, key: Seq<char>, x: Real) -> bool {
    member(body, key) matches Some(v) && as_real(v) == Some(x)
}

/// A number is read exactly where the member is there and writes one; it is absent exactly where
/// the member is; anything else is refused as invalid. A required one is refused where it is absent
/// too, and one that may be null is null where `null` is written.
pub proof fn numbers_are_read_as_written(body: Seq<(Seq<char>, JsonV)>, key: Seq<char>, x: Real)
    ensures
        number_of(body, key) == Ok::<Option<Real>, FailV>(Some(x)) <==> (member(
            body,
            key,
        ) matches Some(v) && as_real(v) == Some(x)),
        number_of(body, key) == Ok::<Option<Real>, FailV>(None) <==> member(body, key) is None,
        number_of(body, key) matches Err(f) ==> f.status == 400,
        required_of(body, key) == Ok::<Real, FailV>(x) <==> (member(body, key) matches Some(v)
            && as_real(v) == Some(x)),
        required_of(body, key) matches Err(f) ==> f.status == 400,
        nullable_number_of(body, key) == Ok::<Option<Option<Real>>, FailV>(Some(Some(x))) <==> (
        member(body, key) matches Some(v) && v != JsonV::Null && as_real(v) == Some(x)),
        nullable_number_of(body, key) == Ok::<Option<Option<Real>>, FailV>(Some(None)) <==> member(
            body,
            key,
        ) == Some(JsonV::Null),
        nullable_number_of(body, key) == Ok::<Option<Option<Real>>, FailV>(None) <==> member(
            body,
            key,
        ) is None,
{
}

/// An integer is read exactly where the member writes one that is not past the bound.
pub proof fn integers_are_read_up_to_their_bound(
    body: Seq<(Seq<char>, JsonV)>,
    key: Seq<char>,
    max: u64,
    n: u64,
)
    ensures
        integer_of(body, key, max) == Ok::<Option<u64>, FailV>(Some(n)) <==> n <= max && (member(
            body,
            key,
        ) matches Some(v) && as_uint(v) == Some(n)),
        integer_of(body, key, max) == Ok::<Option<u64>, FailV>(None) <==> member(body, key) is None,
        integer_of(body, key, max) matches Err(f) ==> f.status == 400,
{
}

/// A text is read exactly where the member is one; `null` is a text that is none; a flag is read
/// exactly where the member is a boolean, and is absent where it is `null`. Anything else is refused
/// as invalid.
pub proof fn texts_and_flags_are_read_as_written(
    body: Seq<(Seq<char>, JsonV)>,
    key: Seq<char>,
    words: Seq<char>,
    text: Seq<char>,
    b: bool,
)
    ensures
        text_of(body, key) == Ok::<Option<Option<Seq<char>>>, FailV>(Some(Some(text))) <==> member(
            body,
            key,
        ) == Some(JsonV::Text(text)),
        text_of(body, key) == Ok::<Option<Option<Seq<char>>>, FailV>(Some(None)) <==> member(
            body,
            key,
        ) == Some(JsonV::Null),
        text_of(body, key) == Ok::<Option<Option<Seq<char>>>, FailV>(None) <==> member(
            body,
            key,
        ) is None,
        flat_text_of(body, key) == Ok::<Option<Seq<char>>, FailV>(Some(text)) <==> member(body, key)
            == Some(JsonV::Text(text)),
        flat_text_of(body, key) == Ok::<Option<Seq<char>>, FailV>(None) <==> member(body, key) is None
            || member(body, key) == Some(JsonV::Null),
        flag_of(body, key, words) == Ok::<Option<bool>, FailV>(Some(b)) <==> member(body, key)
            == Some(JsonV::Bool(b)),
        flag_of(body, key, words) == Ok::<Option<bool>, FailV>(None) <==> member(body, key) is None
            || member(body, key) == Some(JsonV::Null),
        text_of(body, key) matches Err(f) ==> f.status == 400,
        flag_of(body, key, words) matches Err(f) ==> f.status == 400,
{
}

/// A body is let through exactly where every member is allowed.
pub proof fn only_allowed_members_pass(body: Seq<(Seq<char>, JsonV)>, allowed: Seq<Seq<char>>)
    ensures
        only_of(body, allowed) is Ok <==> forall|i: int|
            0 <= i < body.len() ==> allowed.contains((#[trigger] body[i]).0),
        only_of(body, allowed) matches Err(f) ==> f.status == 400,
    decreases body.len(),
{
    if body.len() > 0 {
        let rest = body.skip(1);
        only_allowed_members_pass(rest, allowed);
        if allowed.contains(body[0].0) {
            assert(only_of(rest, allowed) is Ok <==> only_of(body, allowed) is Ok);
            if only_of(body, allowed) is Ok {
                assert forall|i: int| 0 <= i < body.len() implies allowed.contains(
                    (#[trigger] body[i]).0,
                ) by {
                    if i > 0 {
                        assert(rest[i - 1] == body[i]);
                    }
                }
            } else {
                let k = choose|k: int|
                    0 <= k < rest.len() && !allowed.contains((#[trigger] rest[k]).0);
                assert(body[k + 1] == rest[k]);
            }
        }
    }
}

/// How a body is read: white space is no member at all, whatever it is called; anything else has to
/// be called JSON, and has to be an object, whose members they are.
pub proof fn bodies_are_json_objects(
    content_type: Option<Seq<char>>,
    body: Seq<u8>,
    members: Seq<(Seq<char>, JsonV)>,
)
    ensures
        blank(body) ==> body_of(content_type, body) == Ok::<Seq<(Seq<char>, JsonV)>, FailV>(
            Seq::empty(),
        ),
        !blank(body) && !says_json(content_type) ==> (body_of(content_type, body) matches Err(f)
            && f.status == 415),
        !blank(body) && says_json(content_type) ==> (body_of(content_type, body) == Ok::<
            Seq<(Seq<char>, JsonV)>,
            FailV,
        >(members) <==> parsed(body) == Ok::<JsonV, Seq<char>>(JsonV::Object(members))),
        !blank(body) && says_json(content_type) ==> (body_of(content_type, body) matches Err(f)
            ==> f.status == 400),
        body.len() == 0 ==> blank(body),
{
}

} // verus!
