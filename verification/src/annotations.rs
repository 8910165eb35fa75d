//! Authored annotations: durable notes on time and frequency, with a provenance that the server
//! stamps and a client may not supply.

use vstd::prelude::*;

use crate::authored::{
    create_step, find_rate, from_secs, instant_of, next_cursor, next_start, page_size, page_start,
    rate_of, read_size, read_start, tier_of, LiveDevice, Tier,
};
use crate::body::{
    fail_v, flat_text, flat_text_of, invalid_v, no_fields as refuse_fields, number, number_of, only,
    only_allowed_members_pass, only_of, outcome, read_result, required, required_of, text, text_of,
    writes, Fail, FailV,
};
use crate::command::RepoError;
use crate::control::Id;
use crate::dispatch::{applied_result, ok, ok_v, Applied, AppliedV};
use crate::double::{parse_real, text_real, Real};
use crate::json::{
    as_real, at, fields_view, fields_view_each, find, items_view_each, list, list_v, member,
    member_is_the_first, no_fields, opt_real_v, opt_text_v, real_v, seconds_v, text_v, uint_v,
    Fields, Items, Json, JsonV, ToJson,
};
use crate::request::{find_value, pairs, value_of};
use crate::store::{open_of, open_store, store_fail, store_fail_of, stored};
use crate::text::{
    a_remainder_is_what_else_is_there, copy_text, decimal, numbers_are_read_as_they_are_written,
    one_of, opt_string, opt_text, owned, same, strip_prefix, texts, trim, trimmed, unsigned,
    without_prefix,
};

verus! {

/// The size of a page that names none.
pub const DEFAULT_ANNOTATIONS_LIMIT: usize = 200;

/// The largest page.
pub const MAX_ANNOTATIONS_LIMIT: usize = 2000;

/// The largest offset that a cursor may name.
pub const MAX_CURSOR: usize = 1_000_000;

// ---------------------------------------------------------------------------------------------
// Routing
// ---------------------------------------------------------------------------------------------

/// An action of `/api/annotations`.
#[derive(Clone, Copy, Debug, PartialEq, Eq, Structural)]
pub enum Action {
    /// A window's annotations.
    List,
    /// A new one.
    Create,
    /// One.
    Get(Id),
    /// Change one.
    Update(Id),
    /// Delete one.
    Delete(Id),
}

impl Action {
    /// What it is audited as.
    pub open spec fn named(self) -> Seq<char> {
        match self {
            Action::List => "annotations_list"@,
            Action::Create => "annotation_create"@,
            Action::Get(_) => "annotation_get"@,
            Action::Update(_) => "annotation_update"@,
            Action::Delete(_) => "annotation_delete"@,
        }
    }

    /// [`Action::named`].
    pub fn name(self) -> (r: &'static str)
        ensures
            r@ == self.named(),
    {
        match self {
            Action::List => "annotations_list",
            Action::Create => "annotation_create",
            Action::Get(_) => "annotation_get",
            Action::Update(_) => "annotation_update",
            Action::Delete(_) => "annotation_delete",
        }
    }

    /// It changes something.
    pub fn mutating(self) -> (r: bool)
        ensures
            r == !(self is List || self is Get),
    {
        match self {
            Action::List => false,
            Action::Get(_) => false,
            _ => true,
        }
    }
}

/// The text in a path that should be an identity.
pub open spec fn path_id_of(path: Seq<char>) -> Option<Seq<char>> {
    without_prefix(path, "/api/annotations/"@)
}

/// [`path_id_of`].
pub fn path_id(path: &str) -> (r: Option<&str>)
    ensures
        opt_text(r) == path_id_of(path@),
{
    strip_prefix(path, "/api/annotations/")
}

/// What a method and a path are. `id` is what the text of [`path_id_of`] names, where it names one.
pub open spec fn resolved(method: Seq<char>, path: Seq<char>, id: Option<Id>) -> Option<
    Result<Action, Option<Seq<char>>>,
> {
    if path == "/api/annotations"@ {
        Some(
            if method == "GET"@ {
                Ok(Action::List)
            } else if method == "POST"@ {
                Ok(Action::Create)
            } else {
                Err(Some("GET, POST"@))
            },
        )
    } else {
        match without_prefix(path, "/api/annotations/"@) {
            None => None,
            Some(_) => Some(
                match id {
                    None => Err(None),
                    Some(id) => if method == "GET"@ {
                        Ok(Action::Get(id))
                    } else if method == "PUT"@ {
                        Ok(Action::Update(id))
                    } else if method == "DELETE"@ {
                        Ok(Action::Delete(id))
                    } else {
                        Err(Some("GET, PUT, DELETE"@))
                    },
                },
            ),
        }
    }
}

/// What a resolved action holds.
pub open spec fn resolved_view(r: Option<Result<Action, Option<&'static str>>>) -> Option<
    Result<Action, Option<Seq<char>>>,
> {
    match r {
        None => None,
        Some(Ok(a)) => Some(Ok(a)),
        Some(Err(allow)) => Some(Err(opt_text(allow))),
    }
}

/// [`resolved`].
pub fn resolve(method: &str, path: &str, id: Option<Id>) -> (r: Option<
    Result<Action, Option<&'static str>>,
>)
    ensures
        resolved_view(r) == resolved(method@, path@, id),
{
    if same(path, "/api/annotations") {
        return Some(
            if same(method, "GET") {
                Ok(Action::List)
            } else if same(method, "POST") {
                Ok(Action::Create)
            } else {
                Err(Some("GET, POST"))
            },
        );
    }
    match strip_prefix(path, "/api/annotations/") {
        None => None,
        Some(_) => Some(
            match id {
                None => Err(None),
                Some(id) => if same(method, "GET") {
                    Ok(Action::Get(id))
                } else if same(method, "PUT") {
                    Ok(Action::Update(id))
                } else if same(method, "DELETE") {
                    Ok(Action::Delete(id))
                } else {
                    Err(Some("GET, PUT, DELETE"))
                },
            },
        ),
    }
}

// ---------------------------------------------------------------------------------------------
// Rows
// ---------------------------------------------------------------------------------------------

/// What an annotation is.
#[derive(Clone, Copy, Debug, PartialEq, Eq, Structural)]
pub enum AuthoredKind {
    /// A text.
    Text,
    /// A box.
    Box,
    /// A marker.
    Marker,
}

impl AuthoredKind {
    /// Its name.
    pub open spec fn wire(self) -> Seq<char> {
        match self {
            AuthoredKind::Text => "text"@,
            AuthoredKind::Box => "box"@,
            AuthoredKind::Marker => "marker"@,
        }
    }

    /// Its name.
    pub fn as_str(self) -> (r: &'static str)
        ensures
            r@ == self.wire(),
    {
        match self {
            AuthoredKind::Text => "text",
            AuthoredKind::Box => "box",
            AuthoredKind::Marker => "marker",
        }
    }
}

/// The kind of a name.
pub open spec fn kind_of(v: Option<Seq<char>>) -> Result<AuthoredKind, FailV> {
    if v == Some("text"@) {
        Ok(AuthoredKind::Text)
    } else if v == Some("box"@) {
        Ok(AuthoredKind::Box)
    } else if v == Some("marker"@) {
        Ok(AuthoredKind::Marker)
    } else {
        Err(invalid_v("kind must be \"text\", \"box\" or \"marker\""@))
    }
}

/// [`kind_of`].
pub fn kind(v: Option<&str>) -> (r: Result<AuthoredKind, Fail>)
    ensures
        outcome(r) == kind_of(opt_text(v)),
{
    match v {
        Some(s) => if same(s, "text") {
            Ok(AuthoredKind::Text)
        } else if same(s, "box") {
            Ok(AuthoredKind::Box)
        } else if same(s, "marker") {
            Ok(AuthoredKind::Marker)
        } else {
            Err(Fail::invalid("kind must be \"text\", \"box\" or \"marker\""))
        },
        None => Err(Fail::invalid("kind must be \"text\", \"box\" or \"marker\"")),
    }
}

/// Where and by whom a row was authored.
#[derive(Debug)]
pub struct AuthoredProvenance {
    /// The front end that the view named.
    pub device_id: Option<String>,
    /// The view's centre, Hz.
    pub center_hz: Real,
    /// The view's span, Hz.
    pub span_hz: Real,
    /// The front end's rate, Hz, where this run holds it.
    pub sample_rate_hz: Option<Real>,
    /// The view's window on the capture clock, ns.
    pub t_capture: (i64, i64),
    /// The tier that the view was on.
    pub tier: Tier,
    /// When it was authored, ns of the wall clock.
    pub authored_at: i64,
    /// The fingerprint of the token it was authored under.
    pub actor: Option<String>,
    /// A person wrote it.
    pub authored: bool,
}

/// What an [`AuthoredProvenance`] holds.
#[verifier::ext_equal]
pub struct AuthoredProvenanceV {
    /// The front end that the view named.
    pub device_id: Option<Seq<char>>,
    /// The view's centre, Hz.
    pub center_hz: Real,
    /// The view's span, Hz.
    pub span_hz: Real,
    /// The front end's rate, Hz.
    pub sample_rate_hz: Option<Real>,
    /// The view's window, ns.
    pub t_capture: (i64, i64),
    /// The tier.
    pub tier: Tier,
    /// When it was authored, ns.
    pub authored_at: i64,
    /// The fingerprint of the token.
    pub actor: Option<Seq<char>>,
    /// A person wrote it.
    pub authored: bool,
}

impl AuthoredProvenance {
    /// What it holds.
    pub open spec fn view(&self) -> AuthoredProvenanceV {
        AuthoredProvenanceV {
            device_id: opt_string(self.device_id),
            center_hz: self.center_hz,
            span_hz: self.span_hz,
            sample_rate_hz: self.sample_rate_hz,
            t_capture: self.t_capture,
            tier: self.tier,
            authored_at: self.authored_at,
            actor: opt_string(self.actor),
            authored: self.authored,
        }
    }

    /// Another one that holds the same.
    pub fn copy(&self) -> (r: AuthoredProvenance)
        ensures
            r@ == self@,
    {
        AuthoredProvenance {
            device_id: copy_text(&self.device_id),
            center_hz: self.center_hz,
            span_hz: self.span_hz,
            sample_rate_hz: self.sample_rate_hz,
            t_capture: self.t_capture,
            tier: self.tier,
            authored_at: self.authored_at,
            actor: copy_text(&self.actor),
            authored: self.authored,
        }
    }
}

/// An annotation.
#[derive(Debug)]
pub struct AuthoredAnnotation {
    /// Its identity, as text.
    pub id: String,
    /// The collection that it is in.
    pub collection_id: Option<String>,
    /// What it is.
    pub kind: AuthoredKind,
    /// Its lower edge, Hz.
    pub f_lo_hz: Real,
    /// Its upper edge, Hz.
    pub f_hi_hz: Real,
    /// Its start, ns.
    pub t0: i64,
    /// Its end, ns.
    pub t1: i64,
    /// Its label.
    pub label: String,
    /// Its text.
    pub body: Option<String>,
    /// Who first wrote it.
    pub author: Option<String>,
    /// Where it was authored.
    pub provenance: AuthoredProvenance,
    /// When it was created, ns.
    pub created_at: i64,
    /// When it last changed, ns.
    pub updated_at: i64,
}

/// What an [`AuthoredAnnotation`] holds.
#[verifier::ext_equal]
pub struct AuthoredAnnotationV {
    /// Its identity, as text.
    pub id: Seq<char>,
    /// The collection that it is in.
    pub collection_id: Option<Seq<char>>,
    /// What it is.
    pub kind: AuthoredKind,
    /// Its lower edge, Hz.
    pub f_lo_hz: Real,
    /// Its upper edge, Hz.
    pub f_hi_hz: Real,
    /// Its start, ns.
    pub t0: i64,
    /// Its end, ns.
    pub t1: i64,
    /// Its label.
    pub label: Seq<char>,
    /// Its text.
    pub body: Option<Seq<char>>,
    /// Who first wrote it.
    pub author: Option<Seq<char>>,
    /// Where it was authored.
    pub provenance: AuthoredProvenanceV,
    /// When it was created, ns.
    pub created_at: i64,
    /// When it last changed, ns.
    pub updated_at: i64,
}

impl AuthoredAnnotation {
    /// What it holds.
    pub open spec fn view(&self) -> AuthoredAnnotationV {
        AuthoredAnnotationV {
            id: self.id@,
            collection_id: opt_string(self.collection_id),
            kind: self.kind,
            f_lo_hz: self.f_lo_hz,
            f_hi_hz: self.f_hi_hz,
            t0: self.t0,
            t1: self.t1,
            label: self.label@,
            body: opt_string(self.body),
            author: opt_string(self.author),
            provenance: self.provenance@,
            created_at: self.created_at,
            updated_at: self.updated_at,
        }
    }

    /// Another one that holds the same.
    pub fn copy(&self) -> (r: AuthoredAnnotation)
        ensures
            r@ == self@,
    {
        AuthoredAnnotation {
            id: self.id.clone(),
            collection_id: copy_text(&self.collection_id),
            kind: self.kind,
            f_lo_hz: self.f_lo_hz,
            f_hi_hz: self.f_hi_hz,
            t0: self.t0,
            t1: self.t1,
            label: self.label.clone(),
            body: copy_text(&self.body),
            author: copy_text(&self.author),
            provenance: self.provenance.copy(),
            created_at: self.created_at,
            updated_at: self.updated_at,
        }
    }
}

/// A provenance as the API serves it.
pub open spec fn provenance_v(p: AuthoredProvenanceV) -> JsonV {
    JsonV::Object(
        no_fields().push(("device_id"@, opt_text_v(p.device_id))).push(
            ("center_hz"@, real_v(p.center_hz)),
        ).push(("span_hz"@, real_v(p.span_hz))).push(
            ("sample_rate_hz"@, opt_real_v(p.sample_rate_hz)),
        ).push(
            (
                "t_capture"@,
                JsonV::Array(
                    Seq::empty().push(seconds_v(p.t_capture.0)).push(seconds_v(p.t_capture.1)),
                ),
            ),
        ).push(("tier"@, text_v(p.tier.wire()))).push(
            ("authored_s"@, seconds_v(p.authored_at)),
        ).push(("actor"@, opt_text_v(p.actor))).push(("authored"@, JsonV::Bool(p.authored))),
    )
}

fn provenance_json(p: &AuthoredProvenance) -> (r: Json)
    ensures
        r.view() == provenance_v(p@),
{
    let mut t = Items::new();
    t.push(Json::seconds(p.t_capture.0));
    t.push(Json::seconds(p.t_capture.1));
    let mut f = Fields::new();
    f.put("device_id", Json::opt_text(&p.device_id));
    f.put("center_hz", Json::double(p.center_hz));
    f.put("span_hz", Json::double(p.span_hz));
    f.put("sample_rate_hz", Json::opt_double(p.sample_rate_hz));
    f.put("t_capture", t.array());
    f.put("tier", Json::text(p.tier.as_str()));
    f.put("authored_s", Json::seconds(p.authored_at));
    f.put("actor", Json::opt_text(&p.actor));
    f.put("authored", Json::Bool(p.authored));
    f.object()
}

/// An annotation as the API serves it: seconds on the wire, the capture clock and the wall clock
/// under their own names.
pub open spec fn annotation_v(a: AuthoredAnnotationV) -> JsonV {
    JsonV::Object(
        no_fields().push(("id"@, text_v(a.id))).push(
            ("collection_id"@, opt_text_v(a.collection_id)),
        ).push(("kind"@, text_v(a.kind.wire()))).push(("f_lo_hz"@, real_v(a.f_lo_hz))).push(
            ("f_hi_hz"@, real_v(a.f_hi_hz)),
        ).push(("t0_s"@, seconds_v(a.t0))).push(("t1_s"@, seconds_v(a.t1))).push(
            ("label"@, text_v(a.label)),
        ).push(("body"@, opt_text_v(a.body))).push(("author"@, opt_text_v(a.author))).push(
            ("provenance"@, provenance_v(a.provenance)),
        ).push(("created_s"@, seconds_v(a.created_at))).push(
            ("updated_s"@, seconds_v(a.updated_at)),
        ),
    )
}

/// [`annotation_v`].
pub fn annotation_json(a: &AuthoredAnnotation) -> (r: Json)
    ensures
        r.view() == annotation_v(a@),
{
    let mut f = Fields::new();
    f.put("id", Json::text(a.id.as_str()));
    f.put("collection_id", Json::opt_text(&a.collection_id));
    f.put("kind", Json::text(a.kind.as_str()));
    f.put("f_lo_hz", Json::double(a.f_lo_hz));
    f.put("f_hi_hz", Json::double(a.f_hi_hz));
    f.put("t0_s", Json::seconds(a.t0));
    f.put("t1_s", Json::seconds(a.t1));
    f.put("label", Json::text(a.label.as_str()));
    f.put("body", Json::opt_text(&a.body));
    f.put("author", Json::opt_text(&a.author));
    f.put("provenance", provenance_json(&a.provenance));
    f.put("created_s", Json::seconds(a.created_at));
    f.put("updated_s", Json::seconds(a.updated_at));
    f.object()
}

impl ToJson for AuthoredAnnotation {
    open spec fn json_v(self) -> JsonV {
        annotation_v(self@)
    }

    fn to_json(&self) -> (r: Json) {
        annotation_json(self)
    }
}

// ---------------------------------------------------------------------------------------------
// Reads
// ---------------------------------------------------------------------------------------------

/// A parameter, trimmed; a blank one is none.
pub open spec fn query_of(q: Seq<(Seq<char>, Seq<char>)>, key: Seq<char>) -> Option<Seq<char>> {
    match value_of(q, key) {
        Some(v) => if trimmed(v).len() > 0 {
            Some(trimmed(v))
        } else {
            None
        },
        None => None,
    }
}

/// [`query_of`].
pub fn query<'a>(q: &'a Vec<(String, String)>, key: &str) -> (r: Option<&'a str>)
    ensures
        opt_text(r) == query_of(pairs(q@), key@),
{
    match find_value(q.as_slice(), key) {
        Some(v) => {
            let v = trim(v);
            if v.is_empty() {
                None
            } else {
                Some(v)
            }
        },
        None => None,
    }
}

/// A finite number that must be among the parameters.
pub open spec fn query_number_of(q: Seq<(Seq<char>, Seq<char>)>, key: Seq<char>) -> Result<
    Real,
    FailV,
> {
    match query_of(q, key) {
        None => Err(
            invalid_v(
                key
                    + " is required: GET /api/annotations answers a window (f_lo, f_hi, t0, t1)"@,
            ),
        ),
        Some(v) => match text_real(v) {
            Some(x) => Ok(x),
            None => Err(invalid_v(key + " must be a finite number"@)),
        },
    }
}

/// [`query_number_of`].
pub fn query_number(q: &Vec<(String, String)>, key: &str) -> (r: Result<Real, Fail>)
    ensures
        outcome(r) == query_number_of(pairs(q@), key@),
{
    match query(q, key) {
        None => {
            let m = String::from_str(key).concat(
                " is required: GET /api/annotations answers a window (f_lo, f_hi, t0, t1)",
            );
            Err(Fail::new(400, "invalid", m))
        },
        Some(v) => match parse_real(v) {
            Some(x) => Ok(x),
            None => {
                let m = String::from_str(key).concat(" must be a finite number");
                Err(Fail::new(400, "invalid", m))
            },
        },
    }
}

/// A window and a page of it.
#[derive(Clone, Copy, Debug, PartialEq, Eq, Structural)]
pub struct Listing {
    /// The lower edge, Hz.
    pub f_lo: Real,
    /// The upper edge, Hz.
    pub f_hi: Real,
    /// The start, Unix s.
    pub t0: Real,
    /// The end, Unix s.
    pub t1: Real,
    /// The start, ns.
    pub t0_ns: i64,
    /// The end, ns.
    pub t1_ns: i64,
    /// The size of the page.
    pub limit: usize,
    /// Where it starts.
    pub offset: usize,
}

/// The window and page that a list asks for. `t0_ns` and `t1_ns` are the window's ends in
/// nanoseconds.
pub open spec fn listing_of(
    q: Seq<(Seq<char>, Seq<char>)>,
    store: bool,
    t0_ns: i64,
    t1_ns: i64,
) -> Result<Listing, FailV> {
    match (
        query_number_of(q, "f_lo"@),
        query_number_of(q, "f_hi"@),
        query_number_of(q, "t0"@),
        query_number_of(q, "t1"@),
    ) {
        (Err(f), _, _, _) => Err(f),
        (_, Err(f), _, _) => Err(f),
        (_, _, Err(f), _) => Err(f),
        (_, _, _, Err(f)) => Err(f),
        (Ok(f_lo), Ok(f_hi), Ok(t0), Ok(t1)) => if f_hi.below(f_lo) || t1.below(t0) {
            Err(invalid_v("the window needs f_lo <= f_hi and t0 <= t1"@))
        } else {
            match page_size(
                query_of(q, "limit"@),
                DEFAULT_ANNOTATIONS_LIMIT,
                MAX_ANNOTATIONS_LIMIT,
            ) {
                Err(f) => Err(f),
                Ok(limit) => match page_start(query_of(q, "cursor"@), MAX_CURSOR) {
                    Err(f) => Err(f),
                    Ok(offset) => match open_of(store, "no annotation store on this server"@) {
                        Err(f) => Err(f),
                        Ok(_) => match (
                            instant_of("t0"@, t0, t0_ns),
                            instant_of("t1"@, t1, t1_ns),
                        ) {
                            (Err(f), _) => Err(f),
                            (_, Err(f)) => Err(f),
                            (Ok(t0_ns), Ok(t1_ns)) => Ok(
                                Listing { f_lo, f_hi, t0, t1, t0_ns, t1_ns, limit, offset },
                            ),
                        },
                    },
                },
            }
        },
    }
}

/// [`listing_of`].
pub fn plan_list(q: &Vec<(String, String)>, store: bool, t0_ns: i64, t1_ns: i64) -> (r: Result<
    Listing,
    Fail,
>)
    ensures
        outcome(r) == listing_of(pairs(q@), store, t0_ns, t1_ns),
{
    let f_lo = match query_number(q, "f_lo") {
        Ok(x) => x,
        Err(f) => return Err(f),
    };
    let f_hi = match query_number(q, "f_hi") {
        Ok(x) => x,
        Err(f) => return Err(f),
    };
    let t0 = match query_number(q, "t0") {
        Ok(x) => x,
        Err(f) => return Err(f),
    };
    let t1 = match query_number(q, "t1") {
        Ok(x) => x,
        Err(f) => return Err(f),
    };
    if f_hi.lt(f_lo) || t1.lt(t0) {
        return Err(Fail::invalid("the window needs f_lo <= f_hi and t0 <= t1"));
    }
    let limit = match read_size(
        query(q, "limit"),
        DEFAULT_ANNOTATIONS_LIMIT,
        MAX_ANNOTATIONS_LIMIT,
    ) {
        Ok(n) => n,
        Err(f) => return Err(f),
    };
    let offset = match read_start(query(q, "cursor"), MAX_CURSOR) {
        Ok(n) => n,
        Err(f) => return Err(f),
    };
    match open_store(store, "no annotation store on this server") {
        Ok(_) => {},
        Err(f) => return Err(f),
    }
    let t0_ns = match from_secs("t0", t0, t0_ns) {
        Ok(n) => n,
        Err(f) => return Err(f),
    };
    let t1_ns = match from_secs("t1", t1, t1_ns) {
        Ok(n) => n,
        Err(f) => return Err(f),
    };
    Ok(Listing { f_lo, f_hi, t0, t1, t0_ns, t1_ns, limit, offset })
}

/// A page of annotations.
pub open spec fn page_v(l: Listing, rows: Seq<AuthoredAnnotation>, matched: u64) -> JsonV {
    JsonV::Object(
        no_fields().push(
            (
                "window"@,
                JsonV::Object(
                    no_fields().push(("f_lo_hz"@, real_v(l.f_lo))).push(
                        ("f_hi_hz"@, real_v(l.f_hi)),
                    ).push(("t0_s"@, real_v(l.t0))).push(("t1_s"@, real_v(l.t1))),
                ),
            ),
        ).push(("annotations"@, JsonV::Array(list_v(rows)))).push(
            ("count"@, uint_v(rows.len() as int)),
        ).push(("matched"@, uint_v(matched as int))).push(("limit"@, uint_v(l.limit as int))).push(
            (
                "next_cursor"@,
                opt_text_v(next_start(l.offset, rows.len(), matched, MAX_CURSOR)),
            ),
        ),
    )
}

/// [`page_v`], or what the store refused.
pub fn page(l: &Listing, rows: Result<(Vec<AuthoredAnnotation>, u64), RepoError>) -> (r: Result<
    Json,
    Fail,
>)
    ensures
        read_result(r) == (match rows {
            Err(e) => Err(store_fail_of(e, "annotation store"@, "no such annotation"@)),
            Ok((rows, matched)) => Ok(page_v(*l, rows@, matched)),
        }),
{
    match rows {
        Err(e) => Err(store_fail(e, "annotation store", "no such annotation")),
        Ok((rows, matched)) => {
            let mut w = Fields::new();
            w.put("f_lo_hz", Json::double(l.f_lo));
            w.put("f_hi_hz", Json::double(l.f_hi));
            w.put("t0_s", Json::double(l.t0));
            w.put("t1_s", Json::double(l.t1));
            let mut f = Fields::new();
            f.put("window", w.object());
            f.put("annotations", list(&rows));
            f.put("count", Json::uint(rows.len() as u64));
            f.put("matched", Json::uint(matched));
            f.put("limit", Json::uint(l.limit as u64));
            f.put("next_cursor", next_cursor(l.offset, rows.len(), matched, MAX_CURSOR));
            Ok(f.object())
        },
    }
}

/// One annotation, or what the store refused.
pub fn one(store: bool, row: Result<AuthoredAnnotation, RepoError>) -> (r: Result<Json, Fail>)
    ensures
        read_result(r) == (match open_of(store, "no annotation store on this server"@) {
            Err(f) => Err(f),
            Ok(_) => match row {
                Err(e) => Err(store_fail_of(e, "annotation store"@, "no such annotation"@)),
                Ok(a) => Ok(annotation_v(a@)),
            },
        }),
{
    match open_store(store, "no annotation store on this server") {
        Ok(_) => {},
        Err(f) => return Err(f),
    }
    match row {
        Err(e) => Err(store_fail(e, "annotation store", "no such annotation")),
        Ok(a) => Ok(annotation_json(&a)),
    }
}

// ---------------------------------------------------------------------------------------------
// Stamping
// ---------------------------------------------------------------------------------------------

/// What only the server may write.
pub open spec fn server_owned() -> Seq<Seq<char>> {
    seq![
        "provenance"@,
        "author"@,
        "actor"@,
        "authored"@,
        "authored_s"@,
        "created_s"@,
        "updated_s"@,
    ]
}

/// The first member that only the server may write.
pub open spec fn first_owned(body: Seq<(Seq<char>, JsonV)>) -> Option<Seq<char>>
    decreases body.len(),
{
    if body.len() == 0 {
        None
    } else if server_owned().contains(body[0].0) {
        Some(body[0].0)
    } else {
        first_owned(body.skip(1))
    }
}

/// No member is the server's exactly where none is named.
pub proof fn nothing_owned_is_supplied(body: Seq<(Seq<char>, JsonV)>)
    ensures
        first_owned(body) is None ==> forall|i: int|
            0 <= i < body.len() ==> !server_owned().contains((#[trigger] body[i]).0),
    decreases body.len(),
{
    if body.len() > 0 {
        let rest = body.skip(1);
        nothing_owned_is_supplied(rest);
        if first_owned(body) is None {
            assert forall|i: int| 0 <= i < body.len() implies !server_owned().contains(
                (#[trigger] body[i]).0,
            ) by {
                if i > 0 {
                    assert(rest[i - 1] == body[i]);
                }
            }
        }
    }
}

fn find_owned(body: &Vec<(String, Json)>) -> (r: Option<&str>)
    ensures
        opt_text(r) == first_owned(fields_view(body@)),
{
    let names = [
        "provenance",
        "author",
        "actor",
        "authored",
        "authored_s",
        "created_s",
        "updated_s",
    ];
    assert(texts(names@) =~= server_owned());
    let ghost f = fields_view(body@);
    proof {
        fields_view_each(body@);
        assert(f.skip(0) =~= f);
    }
    let mut i: usize = 0;
    while i < body.len()
        invariant
            texts(names@) == server_owned(),
            f == fields_view(body@),
            f.len() == body@.len(),
            forall|k: int|
                0 <= k < body@.len() ==> f[k] == ((#[trigger] body@[k]).0@, body@[k].1.view()),
            i <= body@.len(),
            first_owned(f) == first_owned(f.skip(i as int)),
        decreases body@.len() - i,
    {
        let ghost rest = f.skip(i as int);
        assert(rest[0] == f[i as int]);
        assert(rest.skip(1) =~= f.skip(i + 1));
        let k = body[i].0.as_str();
        if one_of(k, &names) {
            return Some(k);
        }
        i += 1;
    }
    None
}

/// The members of the `view`, where it is an object.
pub open spec fn view_members(body: Seq<(Seq<char>, JsonV)>) -> Seq<(Seq<char>, JsonV)> {
    match member(body, "view"@) {
        Some(JsonV::Object(m)) => m,
        _ => Seq::empty(),
    }
}

/// What a member that only the server may write is refused with.
pub open spec fn owned_fail(k: Seq<char>) -> FailV {
    invalid_v(
        k
            + " is stamped by the server and may not be supplied: send only `view`, the view context you were on"@,
    )
}

/// Refuses a member that only the server may write, in the body or in its view, by name.
pub open spec fn server_owned_of(body: Seq<(Seq<char>, JsonV)>) -> Result<(), FailV> {
    match first_owned(body) {
        Some(k) => Err(owned_fail(k)),
        None => match first_owned(view_members(body)) {
            Some(k) => Err(owned_fail(k)),
            None => Ok(()),
        },
    }
}

fn refuse_owned(k: &str) -> (r: Fail)
    ensures
        r@ == owned_fail(k@),
{
    let m = String::from_str(k).concat(
        " is stamped by the server and may not be supplied: send only `view`, the view context you were on",
    );
    Fail::new(400, "invalid", m)
}

/// [`server_owned_of`].
pub fn refuse_server_owned(body: &Vec<(String, Json)>) -> (r: Result<(), Fail>)
    ensures
        outcome(r) == server_owned_of(fields_view(body@)),
{
    if let Some(k) = find_owned(body) {
        return Err(refuse_owned(k));
    }
    if let Some(Json::Object(m)) = find(body, "view") {
        if let Some(k) = find_owned(m) {
            return Err(refuse_owned(k));
        }
    }
    Ok(())
}

/// The times that a body writes, in nanoseconds.
#[derive(Clone, Copy, Debug, PartialEq, Eq, Structural)]
pub struct Times {
    /// Its `t0_s`.
    pub t0: i64,
    /// Its `t1_s`.
    pub t1: i64,
    /// The start of its view's window.
    pub capture_start: i64,
    /// The end of its view's window.
    pub capture_end: i64,
}

/// The window of a view.
pub open spec fn capture_of(v: Option<JsonV>, times: Times) -> Result<(i64, i64), FailV> {
    match v {
        Some(JsonV::Array(a)) => if a.len() == 2 {
            match (as_real(a[0]), as_real(a[1])) {
                (Some(x), Some(y)) => match (
                    instant_of("view.t_capture"@, x, times.capture_start),
                    instant_of("view.t_capture"@, y, times.capture_end),
                ) {
                    (Err(f), _) => Err(f),
                    (_, Err(f)) => Err(f),
                    (Ok(x), Ok(y)) => Ok((x, y)),
                },
                _ => Err(invalid_v("view.t_capture must be [t0_s, t1_s]"@)),
            }
        } else {
            Err(
                invalid_v("view.t_capture is required: [t0_s, t1_s] on the capture clock"@),
            )
        },
        _ => Err(invalid_v("view.t_capture is required: [t0_s, t1_s] on the capture clock"@)),
    }
}

fn read_capture(v: Option<&Json>, times: &Times) -> (r: Result<(i64, i64), Fail>)
    ensures
        outcome(r) == capture_of(crate::evidence::status_view(v), *times),
{
    if let Some(Json::Array(a)) = v {
        if a.len() == 2 {
            proof {
                items_view_each(a@);
            }
            return match (a[0].as_double(), a[1].as_double()) {
                (Some(x), Some(y)) => {
                    let x = match from_secs("view.t_capture", x, times.capture_start) {
                        Ok(n) => n,
                        Err(f) => return Err(f),
                    };
                    match from_secs("view.t_capture", y, times.capture_end) {
                        Ok(y) => Ok((x, y)),
                        Err(f) => Err(f),
                    }
                },
                _ => Err(Fail::invalid("view.t_capture must be [t0_s, t1_s]")),
            };
        }
        proof {
            items_view_each(a@);
        }
    }
    Err(Fail::invalid("view.t_capture is required: [t0_s, t1_s] on the capture clock"))
}

/// The members of a view.
pub open spec fn view_fields() -> Seq<Seq<char>> {
    seq!["center_hz"@, "span_hz"@, "t_capture"@, "tier"@, "device_id"@]
}

/// The tier of a view.
pub open spec fn view_tier(v: Option<JsonV>) -> Option<Tier> {
    match v {
        Some(JsonV::Text(s)) => tier_of(s),
        _ => None,
    }
}

/// What a view is stamped into: the caller's context, and what the server knows.
pub open spec fn stamp_of(
    view: JsonV,
    live: Seq<LiveDevice>,
    times: Times,
    now: i64,
    actor: Option<Seq<char>>,
) -> Result<AuthoredProvenanceV, FailV> {
    match view {
        JsonV::Object(m) => if only_of(m, view_fields()) is Err {
            Err(
                invalid_v(
                    "view carries only center_hz, span_hz, t_capture, tier, device_id (the server stamps the rest)"@,
                ),
            )
        } else {
            match required_of(m, "center_hz"@) {
                Err(_) => Err(invalid_v("view.center_hz is required"@)),
                Ok(center_hz) => match required_of(m, "span_hz"@) {
                    Err(_) => Err(invalid_v("view.span_hz is required"@)),
                    Ok(span_hz) => match capture_of(member(m, "t_capture"@), times) {
                        Err(f) => Err(f),
                        Ok(t_capture) => match view_tier(member(m, "tier"@)) {
                            None => Err(
                                invalid_v(
                                    "view.tier must be \"live-iq\", \"spectrum-history\" or \"survey-overview\""@,
                                ),
                            ),
                            Some(tier) => match flat_text_of(m, "device_id"@) {
                                Err(_) => Err(
                                    invalid_v("view.device_id must be a string or null"@),
                                ),
                                Ok(device_id) => Ok(
                                    AuthoredProvenanceV {
                                        device_id,
                                        center_hz,
                                        span_hz,
                                        sample_rate_hz: rate_of(live, device_id),
                                        t_capture,
                                        tier,
                                        authored_at: now,
                                        actor,
                                        authored: true,
                                    },
                                ),
                            },
                        },
                    },
                },
            }
        },
        _ => Err(
            invalid_v(
                "view must be an object {center_hz, span_hz, t_capture: [t0, t1], tier, device_id?}"@,
            ),
        ),
    }
}

/// What a stamp or its refusal holds.
pub open spec fn stamp_result(r: Result<AuthoredProvenance, Fail>) -> Result<
    AuthoredProvenanceV,
    FailV,
> {
    match r {
        Ok(p) => Ok(p@),
        Err(f) => Err(f@),
    }
}

/// [`stamp_of`].
pub fn stamp(
    view: &Json,
    live: &Vec<LiveDevice>,
    times: &Times,
    now: i64,
    actor: &Option<String>,
) -> (r: Result<AuthoredProvenance, Fail>)
    ensures
        stamp_result(r) == stamp_of(view.view(), live@, *times, now, opt_string(*actor)),
{
    let m = match view {
        Json::Object(m) => m,
        _ => {
            return Err(
                Fail::invalid(
                    "view must be an object {center_hz, span_hz, t_capture: [t0, t1], tier, device_id?}",
                ),
            );
        },
    };
    let allowed = ["center_hz", "span_hz", "t_capture", "tier", "device_id"];
    assert(texts(allowed@) =~= view_fields());
    if only(m, &allowed).is_err() {
        return Err(
            Fail::invalid(
                "view carries only center_hz, span_hz, t_capture, tier, device_id (the server stamps the rest)",
            ),
        );
    }
    let center_hz = match required(m, "center_hz") {
        Ok(x) => x,
        Err(_) => return Err(Fail::invalid("view.center_hz is required")),
    };
    let span_hz = match required(m, "span_hz") {
        Ok(x) => x,
        Err(_) => return Err(Fail::invalid("view.span_hz is required")),
    };
    let t_capture = match read_capture(find(m, "t_capture"), times) {
        Ok(t) => t,
        Err(f) => return Err(f),
    };
    let tier = match find(m, "tier") {
        Some(Json::Text(s)) => Tier::parse(s.as_str()),
        _ => None,
    };
    let tier = match tier {
        Some(t) => t,
        None => {
            return Err(
                Fail::invalid(
                    "view.tier must be \"live-iq\", \"spectrum-history\" or \"survey-overview\"",
                ),
            );
        },
    };
    let device_id = match flat_text(m, "device_id") {
        Ok(d) => owned(d),
        Err(_) => return Err(Fail::invalid("view.device_id must be a string or null")),
    };
    let sample_rate_hz = find_rate(live, &device_id);
    Ok(
        AuthoredProvenance {
            device_id,
            center_hz,
            span_hz,
            sample_rate_hz,
            t_capture,
            tier,
            authored_at: now,
            actor: copy_text(actor),
            authored: true,
        },
    )
}

/// Every stamp is the server's: who acted, when, and that a person wrote it, whatever the view
/// says; and the rate is that of the front end named, or none.
pub proof fn provenance_is_stamped(
    view: JsonV,
    live: Seq<LiveDevice>,
    times: Times,
    now: i64,
    actor: Option<Seq<char>>,
)
    ensures
        match stamp_of(view, live, times, now, actor) {
            Ok(p) => p.authored && p.authored_at == now && p.actor == actor && p.sample_rate_hz
                == rate_of(live, p.device_id) && (p.device_id is None ==> p.sample_rate_hz is None),
            Err(f) => f.status == 400,
        },
{
}

// ---------------------------------------------------------------------------------------------
// Changes
// ---------------------------------------------------------------------------------------------

/// The kind that a body sets.
pub open spec fn set_kind(body: Seq<(Seq<char>, JsonV)>, a: AuthoredAnnotationV) -> Result<
    AuthoredAnnotationV,
    FailV,
> {
    match text_of(body, "kind"@) {
        Err(f) => Err(f),
        Ok(None) => Ok(a),
        Ok(Some(k)) => match kind_of(k) {
            Err(f) => Err(f),
            Ok(kind) => Ok(AuthoredAnnotationV { kind, ..a }),
        },
    }
}

/// The number that a body sets, or the one that was.
pub open spec fn number_or(body: Seq<(Seq<char>, JsonV)>, key: Seq<char>, x: Real) -> Result<
    Real,
    FailV,
> {
    match number_of(body, key) {
        Err(f) => Err(f),
        Ok(Some(y)) => Ok(y),
        Ok(None) => Ok(x),
    }
}

/// The instant that a body sets, or the one that was.
pub open spec fn instant_or(
    body: Seq<(Seq<char>, JsonV)>,
    key: Seq<char>,
    ns: i64,
    was: i64,
) -> Result<i64, FailV> {
    match number_of(body, key) {
        Err(f) => Err(f),
        Ok(Some(s)) => instant_of(key, s, ns),
        Ok(None) => Ok(was),
    }
}

/// The extent that a body sets.
pub open spec fn set_extent(
    body: Seq<(Seq<char>, JsonV)>,
    a: AuthoredAnnotationV,
    times: Times,
) -> Result<AuthoredAnnotationV, FailV> {
    match number_or(body, "f_lo_hz"@, a.f_lo_hz) {
        Err(f) => Err(f),
        Ok(f_lo_hz) => match number_or(body, "f_hi_hz"@, a.f_hi_hz) {
            Err(f) => Err(f),
            Ok(f_hi_hz) => match instant_or(body, "t0_s"@, times.t0, a.t0) {
                Err(f) => Err(f),
                Ok(t0) => match instant_or(body, "t1_s"@, times.t1, a.t1) {
                    Err(f) => Err(f),
                    Ok(t1) => Ok(AuthoredAnnotationV { f_lo_hz, f_hi_hz, t0, t1, ..a }),
                },
            },
        },
    }
}

/// The texts that a body sets.
pub open spec fn set_texts(body: Seq<(Seq<char>, JsonV)>, a: AuthoredAnnotationV) -> Result<
    AuthoredAnnotationV,
    FailV,
> {
    match text_of(body, "label"@) {
        Err(f) => Err(f),
        Ok(Some(None)) => Err(invalid_v("label must be a non-empty string"@)),
        Ok(l) => {
            let label = match l {
                Some(Some(s)) => trimmed(s),
                _ => a.label,
            };
            match text_of(body, "body"@) {
                Err(f) => Err(f),
                Ok(b) => match text_of(body, "collection_id"@) {
                    Err(f) => Err(f),
                    Ok(c) => Ok(
                        AuthoredAnnotationV {
                            label,
                            body: match b {
                                Some(x) => x,
                                None => a.body,
                            },
                            collection_id: match c {
                                Some(Some(x)) => Some(trimmed(x)),
                                Some(None) => None,
                                None => a.collection_id,
                            },
                            ..a
                        },
                    ),
                },
            }
        },
    }
}

/// The members that a body sets: what it does not name stays.
pub open spec fn set_fields(
    body: Seq<(Seq<char>, JsonV)>,
    a: AuthoredAnnotationV,
    times: Times,
) -> Result<AuthoredAnnotationV, FailV> {
    match set_kind(body, a) {
        Err(f) => Err(f),
        Ok(a) => match set_extent(body, a, times) {
            Err(f) => Err(f),
            Ok(a) => set_texts(body, a),
        },
    }
}

/// What an annotation or its refusal holds.
pub open spec fn annotation_result(r: Result<AuthoredAnnotation, Fail>) -> Result<
    AuthoredAnnotationV,
    FailV,
> {
    match r {
        Ok(a) => Ok(a@),
        Err(f) => Err(f@),
    }
}

/// [`set_fields`].
pub fn apply_fields(body: &Vec<(String, Json)>, a: AuthoredAnnotation, times: &Times) -> (r: Result<
    AuthoredAnnotation,
    Fail,
>)
    ensures
        annotation_result(r) == set_fields(fields_view(body@), a@, *times),
{
    let mut a = a;
    match text(body, "kind") {
        Err(f) => return Err(f),
        Ok(None) => {},
        Ok(Some(k)) => match kind(k) {
            Ok(k) => {
                a.kind = k;
            },
            Err(f) => return Err(f),
        },
    }
    match number(body, "f_lo_hz") {
        Err(f) => return Err(f),
        Ok(None) => {},
        Ok(Some(x)) => {
            a.f_lo_hz = x;
        },
    }
    match number(body, "f_hi_hz") {
        Err(f) => return Err(f),
        Ok(None) => {},
        Ok(Some(x)) => {
            a.f_hi_hz = x;
        },
    }
    match number(body, "t0_s") {
        Err(f) => return Err(f),
        Ok(None) => {},
        Ok(Some(s)) => match from_secs("t0_s", s, times.t0) {
            Ok(t) => {
                a.t0 = t;
            },
            Err(f) => return Err(f),
        },
    }
    match number(body, "t1_s") {
        Err(f) => return Err(f),
        Ok(None) => {},
        Ok(Some(s)) => match from_secs("t1_s", s, times.t1) {
            Ok(t) => {
                a.t1 = t;
            },
            Err(f) => return Err(f),
        },
    }
    match text(body, "label") {
        Err(f) => return Err(f),
        Ok(None) => {},
        Ok(Some(None)) => return Err(Fail::invalid("label must be a non-empty string")),
        Ok(Some(Some(s))) => {
            a.label = trim(s).to_owned();
        },
    }
    match text(body, "body") {
        Err(f) => return Err(f),
        Ok(None) => {},
        Ok(Some(b)) => {
            a.body = owned(b);
        },
    }
    match text(body, "collection_id") {
        Err(f) => return Err(f),
        Ok(None) => {},
        Ok(Some(None)) => {
            a.collection_id = None;
        },
        Ok(Some(Some(c))) => {
            a.collection_id = Some(trim(c).to_owned());
        },
    }
    Ok(a)
}

/// The members of a new annotation.
pub open spec fn create_fields() -> Seq<Seq<char>> {
    seq![
        "id"@,
        "kind"@,
        "f_lo_hz"@,
        "f_hi_hz"@,
        "t0_s"@,
        "t1_s"@,
        "label"@,
        "body"@,
        "collection_id"@,
        "view"@,
    ]
}

/// The members of a change.
pub open spec fn update_fields() -> Seq<Seq<char>> {
    seq![
        "kind"@,
        "f_lo_hz"@,
        "f_hi_hz"@,
        "t0_s"@,
        "t1_s"@,
        "label"@,
        "body"@,
        "collection_id"@,
        "view"@,
    ]
}

/// A text that must be there and not `null`.
pub open spec fn must_have(body: Seq<(Seq<char>, JsonV)>, key: Seq<char>) -> Result<(), FailV> {
    match flat_text_of(body, key) {
        Err(f) => Err(f),
        Ok(None) => Err(invalid_v(key + " is required"@)),
        Ok(Some(_)) => Ok(()),
    }
}

fn must(body: &Vec<(String, Json)>, key: &str) -> (r: Result<(), Fail>)
    ensures
        outcome(r) == must_have(fields_view(body@), key@),
{
    match flat_text(body, key) {
        Err(f) => Err(f),
        Ok(None) => {
            let m = String::from_str(key).concat(" is required");
            Err(Fail::new(400, "invalid", m))
        },
        Ok(Some(_)) => Ok(()),
    }
}

/// What the server brings to a change.
#[derive(Debug)]
pub struct Context {
    /// The front ends that this run holds.
    pub live: Vec<LiveDevice>,
    /// The times that the body writes, in nanoseconds.
    pub times: Times,
    /// The wall clock, ns.
    pub now: i64,
    /// Who acts.
    pub actor: Option<String>,
    /// A new identity.
    pub fresh_id: String,
    /// The identity that the body writes, where it is one.
    pub given_id: Option<String>,
}

/// A required instant.
pub open spec fn required_instant(
    body: Seq<(Seq<char>, JsonV)>,
    key: Seq<char>,
    ns: i64,
) -> Result<i64, FailV> {
    match required_of(body, key) {
        Err(f) => Err(f),
        Ok(s) => instant_of(key, s, ns),
    }
}

fn read_instant(body: &Vec<(String, Json)>, key: &str, ns: i64) -> (r: Result<i64, Fail>)
    ensures
        outcome(r) == required_instant(fields_view(body@), key@, ns),
{
    match required(body, key) {
        Err(f) => Err(f),
        Ok(s) => from_secs(key, s, ns),
    }
}

/// The annotation before the members of its body are applied.
pub open spec fn fresh_of(
    body: Seq<(Seq<char>, JsonV)>,
    provenance: AuthoredProvenanceV,
    c: Context,
) -> Result<AuthoredAnnotationV, FailV> {
    match required_of(body, "f_lo_hz"@) {
        Err(f) => Err(f),
        Ok(f_lo_hz) => match required_of(body, "f_hi_hz"@) {
            Err(f) => Err(f),
            Ok(f_hi_hz) => match required_instant(body, "t0_s"@, c.times.t0) {
                Err(f) => Err(f),
                Ok(t0) => match required_instant(body, "t1_s"@, c.times.t1) {
                    Err(f) => Err(f),
                    Ok(t1) => match flat_text_of(body, "id"@) {
                        Err(f) => Err(f),
                        Ok(id) => if id is Some && c.given_id is None {
                            Err(invalid_v("id must be a UUID"@))
                        } else {
                            Ok(
                                AuthoredAnnotationV {
                                    id: if id is Some {
                                        opt_string(c.given_id)->0
                                    } else {
                                        c.fresh_id@
                                    },
                                    collection_id: None,
                                    kind: AuthoredKind::Text,
                                    f_lo_hz,
                                    f_hi_hz,
                                    t0,
                                    t1,
                                    label: Seq::empty(),
                                    body: None,
                                    author: opt_string(c.actor),
                                    provenance,
                                    created_at: c.now,
                                    updated_at: c.now,
                                },
                            )
                        },
                    },
                },
            },
        },
    }
}

/// The annotation that a body creates.
pub open spec fn new_annotation_of(body: Seq<(Seq<char>, JsonV)>, c: Context) -> Result<
    AuthoredAnnotationV,
    FailV,
> {
    match server_owned_of(body) {
        Err(f) => Err(f),
        Ok(_) => match only_of(body, create_fields()) {
            Err(f) => Err(f),
            Ok(_) => match must_have(body, "kind"@) {
                Err(f) => Err(f),
                Ok(_) => match must_have(body, "label"@) {
                    Err(f) => Err(f),
                    Ok(_) => match member(body, "view"@) {
                        None => Err(
                            invalid_v(
                                "view is required: the view context the annotation was authored on"@,
                            ),
                        ),
                        Some(view) => match stamp_of(
                            view,
                            c.live@,
                            c.times,
                            c.now,
                            opt_string(c.actor),
                        ) {
                            Err(f) => Err(f),
                            Ok(p) => match fresh_of(body, p, c) {
                                Err(f) => Err(f),
                                Ok(a) => set_fields(body, a, c.times),
                            },
                        },
                    },
                },
            },
        },
    }
}

/// [`new_annotation_of`].
pub fn plan_create(body: &Vec<(String, Json)>, c: &Context) -> (r: Result<AuthoredAnnotation, Fail>)
    ensures
        annotation_result(r) == new_annotation_of(fields_view(body@), *c),
{
    match refuse_server_owned(body) {
        Ok(_) => {},
        Err(f) => return Err(f),
    }
    let allowed = [
        "id",
        "kind",
        "f_lo_hz",
        "f_hi_hz",
        "t0_s",
        "t1_s",
        "label",
        "body",
        "collection_id",
        "view",
    ];
    assert(texts(allowed@) =~= create_fields());
    match only(body, &allowed) {
        Ok(_) => {},
        Err(f) => return Err(f),
    }
    match must(body, "kind") {
        Ok(_) => {},
        Err(f) => return Err(f),
    }
    match must(body, "label") {
        Ok(_) => {},
        Err(f) => return Err(f),
    }
    let view = match find(body, "view") {
        Some(v) => v,
        None => {
            return Err(
                Fail::invalid("view is required: the view context the annotation was authored on"),
            );
        },
    };
    let provenance = match stamp(view, &c.live, &c.times, c.now, &c.actor) {
        Ok(p) => p,
        Err(f) => return Err(f),
    };
    let f_lo_hz = match required(body, "f_lo_hz") {
        Ok(x) => x,
        Err(f) => return Err(f),
    };
    let f_hi_hz = match required(body, "f_hi_hz") {
        Ok(x) => x,
        Err(f) => return Err(f),
    };
    let t0 = match read_instant(body, "t0_s", c.times.t0) {
        Ok(t) => t,
        Err(f) => return Err(f),
    };
    let t1 = match read_instant(body, "t1_s", c.times.t1) {
        Ok(t) => t,
        Err(f) => return Err(f),
    };
    let id = match flat_text(body, "id") {
        Err(f) => return Err(f),
        Ok(None) => c.fresh_id.clone(),
        Ok(Some(_)) => match &c.given_id {
            Some(id) => id.clone(),
            None => return Err(Fail::invalid("id must be a UUID")),
        },
    };
    let label = String::new();
    assert(label@ =~= Seq::empty());
    let a = AuthoredAnnotation {
        id,
        collection_id: None,
        kind: AuthoredKind::Text,
        f_lo_hz,
        f_hi_hz,
        t0,
        t1,
        label,
        body: None,
        author: copy_text(&c.actor),
        provenance,
        created_at: c.now,
        updated_at: c.now,
    };
    apply_fields(body, a, &c.times)
}

/// What becomes of a new annotation: it is checked, then must not be there yet, then is stored.
pub open spec fn created_of(
    a: AuthoredAnnotationV,
    valid: Result<(), RepoError>,
    store: bool,
    exists: bool,
    inserted: Result<(), RepoError>,
) -> Result<AppliedV, FailV> {
    match stored(valid, "annotation store"@, "no such annotation"@) {
        Err(f) => Err(f),
        Ok(_) => match open_of(store, "no annotation store on this server"@) {
            Err(f) => Err(f),
            Ok(_) => if exists {
                Err(
                    fail_v(
                        409,
                        "conflict"@,
                        "annotation "@ + a.id + " already exists; update it instead"@,
                    ),
                )
            } else {
                match stored(inserted, "annotation store"@, "no such annotation"@) {
                    Err(f) => Err(f),
                    Ok(_) => Ok(
                        AppliedV {
                            status: 201,
                            body: annotation_v(a),
                            old: JsonV::Null,
                            new: annotation_v(a),
                        },
                    ),
                }
            },
        },
    }
}

/// An annotation that is not inserted is refused, whatever an insertion would give, and none that
/// is there is written over: one is created exactly where it was inserted and the store took it.
pub proof fn created_annotations_were_inserted(
    a: AuthoredAnnotationV,
    valid: Result<(), RepoError>,
    store: bool,
    exists: bool,
    inserted: Result<(), RepoError>,
    other: Result<(), RepoError>,
)
    ensures
        created_of(a, valid, store, exists, inserted) is Ok <==> create_step(
            valid is Ok,
            store,
            Some(exists),
        ) is Insert && inserted is Ok,
        create_step(valid is Ok, store, Some(exists)) is Answer ==> created_of(
            a,
            valid,
            store,
            exists,
            inserted,
        ) == created_of(a, valid, store, exists, other),
        create_step(valid is Ok, store, None) is Answer ==> created_of(
            a,
            valid,
            store,
            exists,
            inserted,
        ) == created_of(a, valid, store, !exists, other),
{
}

/// [`created_of`].
pub fn created(
    a: &AuthoredAnnotation,
    valid: Result<(), RepoError>,
    store: bool,
    exists: bool,
    inserted: Result<(), RepoError>,
) -> (r: Result<Applied, Fail>)
    ensures
        applied_result(r) == created_of(a@, valid, store, exists, inserted),
{
    match valid {
        Ok(_) => {},
        Err(e) => return Err(store_fail(e, "annotation store", "no such annotation")),
    }
    match open_store(store, "no annotation store on this server") {
        Ok(_) => {},
        Err(f) => return Err(f),
    }
    if exists {
        let m = String::from_str("annotation ").concat(a.id.as_str()).concat(
            " already exists; update it instead",
        );
        return Err(Fail::new(409, "conflict", m));
    }
    match inserted {
        Ok(_) => {},
        Err(e) => return Err(store_fail(e, "annotation store", "no such annotation")),
    }
    Ok(
        Applied {
            status: 201,
            body: annotation_json(a),
            old: Json::Null,
            new: annotation_json(a),
        },
    )
}

/// The later of two instants.
pub open spec fn later(a: i64, b: i64) -> i64 {
    if a >= b {
        a
    } else {
        b
    }
}

/// What a body makes of a stored annotation: a new view stamps it again, no view keeps the stamp
/// that it has; the author stays who first wrote it.
pub open spec fn changed_of(
    body: Seq<(Seq<char>, JsonV)>,
    c: Context,
    store: bool,
    row: Result<AuthoredAnnotationV, FailV>,
) -> Result<AuthoredAnnotationV, FailV> {
    match server_owned_of(body) {
        Err(f) => Err(f),
        Ok(_) => match only_of(body, update_fields()) {
            Err(f) => Err(f),
            Ok(_) => match open_of(store, "no annotation store on this server"@) {
                Err(f) => Err(f),
                Ok(_) => match row {
                    Err(f) => Err(f),
                    Ok(row) => match set_fields(body, row, c.times) {
                        Err(f) => Err(f),
                        Ok(next) => match member(body, "view"@) {
                            None => Ok(
                                AuthoredAnnotationV {
                                    updated_at: later(c.now, row.created_at),
                                    ..next
                                },
                            ),
                            Some(view) => match stamp_of(
                                view,
                                c.live@,
                                c.times,
                                c.now,
                                opt_string(c.actor),
                            ) {
                                Err(f) => Err(f),
                                Ok(provenance) => Ok(
                                    AuthoredAnnotationV {
                                        provenance,
                                        updated_at: later(c.now, row.created_at),
                                        ..next
                                    },
                                ),
                            },
                        },
                    },
                },
            },
        },
    }
}

/// What a stored row is, its error answered.
pub open spec fn row_of(r: Result<AuthoredAnnotation, RepoError>) -> Result<
    AuthoredAnnotationV,
    FailV,
> {
    match r {
        Ok(a) => Ok(a@),
        Err(e) => Err(store_fail_of(e, "annotation store"@, "no such annotation"@)),
    }
}

/// [`changed_of`].
pub fn plan_update(
    body: &Vec<(String, Json)>,
    c: &Context,
    store: bool,
    row: Result<AuthoredAnnotation, RepoError>,
) -> (r: Result<AuthoredAnnotation, Fail>)
    ensures
        annotation_result(r) == changed_of(fields_view(body@), *c, store, row_of(row)),
{
    match refuse_server_owned(body) {
        Ok(_) => {},
        Err(f) => return Err(f),
    }
    let allowed = [
        "kind",
        "f_lo_hz",
        "f_hi_hz",
        "t0_s",
        "t1_s",
        "label",
        "body",
        "collection_id",
        "view",
    ];
    assert(texts(allowed@) =~= update_fields());
    match only(body, &allowed) {
        Ok(_) => {},
        Err(f) => return Err(f),
    }
    match open_store(store, "no annotation store on this server") {
        Ok(_) => {},
        Err(f) => return Err(f),
    }
    let row = match row {
        Ok(a) => a,
        Err(e) => return Err(store_fail(e, "annotation store", "no such annotation")),
    };
    let created_at = row.created_at;
    let mut next = match apply_fields(body, row, &c.times) {
        Ok(a) => a,
        Err(f) => return Err(f),
    };
    if let Some(view) = find(body, "view") {
        next.provenance = match stamp(view, &c.live, &c.times, c.now, &c.actor) {
            Ok(p) => p,
            Err(f) => return Err(f),
        };
    }
    next.updated_at = if c.now >= created_at {
        c.now
    } else {
        created_at
    };
    Ok(next)
}

/// What the update of a stored row is answered with.
pub fn updated(before: &AuthoredAnnotation, saved: Result<AuthoredAnnotation, RepoError>) -> (r:
    Result<Applied, Fail>)
    ensures
        applied_result(r) == (match row_of(saved) {
            Err(f) => Err(f),
            Ok(a) => Ok(ok_v(annotation_v(a), annotation_v(before@), annotation_v(a))),
        }),
{
    match saved {
        Err(e) => Err(store_fail(e, "annotation store", "no such annotation")),
        Ok(a) => Ok(ok(annotation_json(&a), annotation_json(before), annotation_json(&a))),
    }
}

/// What the deletion of a row is answered with: the row is deleted only where the body is empty
/// and the store is there.
pub fn deleted(
    body: &Vec<(String, Json)>,
    store: bool,
    row: Result<AuthoredAnnotation, RepoError>,
) -> (r: Result<Applied, Fail>)
    ensures
        applied_result(r) == (match only_of(fields_view(body@), Seq::empty()) {
            Err(f) => Err(f),
            Ok(_) => match open_of(store, "no annotation store on this server"@) {
                Err(f) => Err(f),
                Ok(_) => match row_of(row) {
                    Err(f) => Err(f),
                    Ok(a) => Ok(
                        ok_v(
                            JsonV::Object(no_fields().push(("deleted"@, annotation_v(a)))),
                            annotation_v(a),
                            JsonV::Null,
                        ),
                    ),
                },
            },
        }),
{
    match refuse_fields(body) {
        Ok(_) => {},
        Err(f) => return Err(f),
    }
    match open_store(store, "no annotation store on this server") {
        Ok(_) => {},
        Err(f) => return Err(f),
    }
    match row {
        Err(e) => Err(store_fail(e, "annotation store", "no such annotation")),
        Ok(a) => {
            let mut f = Fields::new();
            f.put("deleted", annotation_json(&a));
            Ok(ok(f.object(), annotation_json(&a), Json::Null))
        },
    }
}

/// A change keeps who first wrote an annotation, when, and which one it is; without a view it
/// keeps the stamp too; and it never moves the time of change before that of creation.
pub proof fn a_change_keeps_the_author(
    body: Seq<(Seq<char>, JsonV)>,
    c: Context,
    row: AuthoredAnnotationV,
)
    ensures
        match changed_of(body, c, true, Ok(row)) {
            Ok(a) => a.author == row.author && a.created_at == row.created_at && a.id == row.id
                && a.updated_at >= row.created_at && (member(body, "view"@) is None
                ==> a.provenance == row.provenance),
            Err(_) => true,
        },
{
}

/// A body that supplies what only the server may write is refused, whatever else it holds.
pub proof fn supplied_provenance_is_refused(
    body: Seq<(Seq<char>, JsonV)>,
    c: Context,
    store: bool,
    row: Result<AuthoredAnnotationV, FailV>,
)
    requires
        first_owned(body) is Some || first_owned(view_members(body)) is Some,
    ensures
        new_annotation_of(body, c) is Err,
        changed_of(body, c, store, row) is Err,
{
}

/// Every annotation is at the path of its name, and all of them at one path; each method does a thing
/// of its own.
pub proof fn annotations_are_at_their_paths(
    method: Seq<char>,
    path: Seq<char>,
    rest: Seq<char>,
    id: Id,
    other: Option<Id>,
)
    ensures
        resolved("GET"@, "/api/annotations"@, other) == Some(
            Ok::<Action, Option<Seq<char>>>(Action::List),
        ),
        resolved("POST"@, "/api/annotations"@, other) == Some(
            Ok::<Action, Option<Seq<char>>>(Action::Create),
        ),
        resolved("GET"@, "/api/annotations/"@ + rest, Some(id)) == Some(
            Ok::<Action, Option<Seq<char>>>(Action::Get(id)),
        ),
        resolved("PUT"@, "/api/annotations/"@ + rest, Some(id)) == Some(
            Ok::<Action, Option<Seq<char>>>(Action::Update(id)),
        ),
        resolved("DELETE"@, "/api/annotations/"@ + rest, Some(id)) == Some(
            Ok::<Action, Option<Seq<char>>>(Action::Delete(id)),
        ),
        resolved(method, "/api/annotations/"@ + rest, None) == Some(
            Err::<Action, Option<Seq<char>>>(None),
        ),
        path_id_of("/api/annotations/"@ + rest) == Some(rest),
        resolved(method, path, other) is None <==> path != "/api/annotations"@ && path_id_of(path)
            is None,
{
    assert("GET"@ != "POST"@) by {
        reveal_strlit("GET");
        reveal_strlit("POST");
        assert("GET"@.len() != "POST"@.len());
    }
    assert("GET"@ != "PUT"@) by {
        reveal_strlit("GET");
        reveal_strlit("PUT");
        assert("GET"@[0] != "PUT"@[0]);
    }
    assert("GET"@ != "DELETE"@) by {
        reveal_strlit("GET");
        reveal_strlit("DELETE");
        assert("GET"@.len() != "DELETE"@.len());
    }
    assert("PUT"@ != "DELETE"@) by {
        reveal_strlit("PUT");
        reveal_strlit("DELETE");
        assert("PUT"@.len() != "DELETE"@.len());
    }
    reveal_strlit("/api/annotations");
    reveal_strlit("/api/annotations/");
    assert(("/api/annotations/"@ + rest).len() > "/api/annotations"@.len());
    a_remainder_is_what_else_is_there(rest, "/api/annotations/"@);
}

/// Every kind has a name of its own.
pub proof fn kinds_have_their_own_names(k: AuthoredKind, s: Seq<char>)
    ensures
        kind_of(Some(k.wire())) == Ok::<AuthoredKind, FailV>(k),
        kind_of(Some(s)) matches Ok(x) ==> s == x.wire(),
        kind_of(None) is Err,
        k is Text <==> k.wire() == "text"@,
        k is Box <==> k.wire() == "box"@,
        k is Marker <==> k.wire() == "marker"@,
{
    assert("text"@ != "box"@) by {
        reveal_strlit("text");
        reveal_strlit("box");
        assert("text"@.len() != "box"@.len());
    }
    assert("text"@ != "marker"@) by {
        reveal_strlit("text");
        reveal_strlit("marker");
        assert("text"@.len() != "marker"@.len());
    }
    assert("box"@ != "marker"@) by {
        reveal_strlit("box");
        reveal_strlit("marker");
        assert("box"@.len() != "marker"@.len());
    }
}

/// An annotation is written as it is.
pub proof fn an_annotation_is_written_as_it_is(a: AuthoredAnnotationV)
    ensures
        at(annotation_v(a), "id"@) == Some(JsonV::Text(a.id)),
        at(annotation_v(a), "collection_id"@) == Some(opt_text_v(a.collection_id)),
        at(annotation_v(a), "kind"@) == Some(JsonV::Text(a.kind.wire())),
        at(annotation_v(a), "f_lo_hz"@) == Some(real_v(a.f_lo_hz)),
        at(annotation_v(a), "f_hi_hz"@) == Some(real_v(a.f_hi_hz)),
        at(annotation_v(a), "t0_s"@) == Some(seconds_v(a.t0)),
        at(annotation_v(a), "t1_s"@) == Some(seconds_v(a.t1)),
        at(annotation_v(a), "label"@) == Some(JsonV::Text(a.label)),
        at(annotation_v(a), "body"@) == Some(opt_text_v(a.body)),
        at(annotation_v(a), "author"@) == Some(opt_text_v(a.author)),
        at(annotation_v(a), "provenance"@) == Some(provenance_v(a.provenance)),
        at(annotation_v(a), "created_s"@) == Some(seconds_v(a.created_at)),
        at(annotation_v(a), "updated_s"@) == Some(seconds_v(a.updated_at)),
{
    let f = annotation_v(a)->Object_0;
    member_is_the_first(f, "id"@, 0);
    assert("id"@ != "collection_id"@) by {
        reveal_strlit("id");
        reveal_strlit("collection_id");
        assert("id"@.len() != "collection_id"@.len());
    }
    member_is_the_first(f, "collection_id"@, 1);
    assert("id"@ != "kind"@) by {
        reveal_strlit("id");
        reveal_strlit("kind");
        assert("id"@.len() != "kind"@.len());
    }
    assert("collection_id"@ != "kind"@) by {
        reveal_strlit("collection_id");
        reveal_strlit("kind");
        assert("collection_id"@.len() != "kind"@.len());
    }
    member_is_the_first(f, "kind"@, 2);
    assert("id"@ != "f_lo_hz"@) by {
        reveal_strlit("id");
        reveal_strlit("f_lo_hz");
        assert("id"@.len() != "f_lo_hz"@.len());
    }
    assert("collection_id"@ != "f_lo_hz"@) by {
        reveal_strlit("collection_id");
        reveal_strlit("f_lo_hz");
        assert("collection_id"@.len() != "f_lo_hz"@.len());
    }
    assert("kind"@ != "f_lo_hz"@) by {
        reveal_strlit("kind");
        reveal_strlit("f_lo_hz");
        assert("kind"@.len() != "f_lo_hz"@.len());
    }
    member_is_the_first(f, "f_lo_hz"@, 3);
    assert("id"@ != "f_hi_hz"@) by {
        reveal_strlit("id");
        reveal_strlit("f_hi_hz");
        assert("id"@.len() != "f_hi_hz"@.len());
    }
    assert("collection_id"@ != "f_hi_hz"@) by {
        reveal_strlit("collection_id");
        reveal_strlit("f_hi_hz");
        assert("collection_id"@.len() != "f_hi_hz"@.len());
    }
    assert("kind"@ != "f_hi_hz"@) by {
        reveal_strlit("kind");
        reveal_strlit("f_hi_hz");
        assert("kind"@.len() != "f_hi_hz"@.len());
    }
    assert("f_lo_hz"@ != "f_hi_hz"@) by {
        reveal_strlit("f_lo_hz");
        reveal_strlit("f_hi_hz");
        assert("f_lo_hz"@[2] != "f_hi_hz"@[2]);
    }
    member_is_the_first(f, "f_hi_hz"@, 4);
    assert("id"@ != "t0_s"@) by {
        reveal_strlit("id");
        reveal_strlit("t0_s");
        assert("id"@.len() != "t0_s"@.len());
    }
    assert("collection_id"@ != "t0_s"@) by {
        reveal_strlit("collection_id");
        reveal_strlit("t0_s");
        assert("collection_id"@.len() != "t0_s"@.len());
    }
    assert("kind"@ != "t0_s"@) by {
        reveal_strlit("kind");
        reveal_strlit("t0_s");
        assert("kind"@[0] != "t0_s"@[0]);
    }
    assert("f_lo_hz"@ != "t0_s"@) by {
        reveal_strlit("f_lo_hz");
        reveal_strlit("t0_s");
        assert("f_lo_hz"@.len() != "t0_s"@.len());
    }
    assert("f_hi_hz"@ != "t0_s"@) by {
        reveal_strlit("f_hi_hz");
        reveal_strlit("t0_s");
        assert("f_hi_hz"@.len() != "t0_s"@.len());
    }
    member_is_the_first(f, "t0_s"@, 5);
    assert("id"@ != "t1_s"@) by {
        reveal_strlit("id");
        reveal_strlit("t1_s");
        assert("id"@.len() != "t1_s"@.len());
    }
    assert("collection_id"@ != "t1_s"@) by {
        reveal_strlit("collection_id");
        reveal_strlit("t1_s");
        assert("collection_id"@.len() != "t1_s"@.len());
    }
    assert("kind"@ != "t1_s"@) by {
        reveal_strlit("kind");
        reveal_strlit("t1_s");
        assert("kind"@[0] != "t1_s"@[0]);
    }
    assert("f_lo_hz"@ != "t1_s"@) by {
        reveal_strlit("f_lo_hz");
        reveal_strlit("t1_s");
        assert("f_lo_hz"@.len() != "t1_s"@.len());
    }
    assert("f_hi_hz"@ != "t1_s"@) by {
        reveal_strlit("f_hi_hz");
        reveal_strlit("t1_s");
        assert("f_hi_hz"@.len() != "t1_s"@.len());
    }
    assert("t0_s"@ != "t1_s"@) by {
        reveal_strlit("t0_s");
        reveal_strlit("t1_s");
        assert("t0_s"@[1] != "t1_s"@[1]);
    }
    member_is_the_first(f, "t1_s"@, 6);
    assert("id"@ != "label"@) by {
        reveal_strlit("id");
        reveal_strlit("label");
        assert("id"@.len() != "label"@.len());
    }
    assert("collection_id"@ != "label"@) by {
        reveal_strlit("collection_id");
        reveal_strlit("label");
        assert("collection_id"@.len() != "label"@.len());
    }
    assert("kind"@ != "label"@) by {
        reveal_strlit("kind");
        reveal_strlit("label");
        assert("kind"@.len() != "label"@.len());
    }
    assert("f_lo_hz"@ != "label"@) by {
        reveal_strlit("f_lo_hz");
        reveal_strlit("label");
        assert("f_lo_hz"@.len() != "label"@.len());
    }
    assert("f_hi_hz"@ != "label"@) by {
        reveal_strlit("f_hi_hz");
        reveal_strlit("label");
        assert("f_hi_hz"@.len() != "label"@.len());
    }
    assert("t0_s"@ != "label"@) by {
        reveal_strlit("t0_s");
        reveal_strlit("label");
        assert("t0_s"@.len() != "label"@.len());
    }
    assert("t1_s"@ != "label"@) by {
        reveal_strlit("t1_s");
        reveal_strlit("label");
        assert("t1_s"@.len() != "label"@.len());
    }
    member_is_the_first(f, "label"@, 7);
    assert("id"@ != "body"@) by {
        reveal_strlit("id");
        reveal_strlit("body");
        assert("id"@.len() != "body"@.len());
    }
    assert("collection_id"@ != "body"@) by {
        reveal_strlit("collection_id");
        reveal_strlit("body");
        assert("collection_id"@.len() != "body"@.len());
    }
    assert("kind"@ != "body"@) by {
        reveal_strlit("kind");
        reveal_strlit("body");
        assert("kind"@[0] != "body"@[0]);
    }
    assert("f_lo_hz"@ != "body"@) by {
        reveal_strlit("f_lo_hz");
        reveal_strlit("body");
        assert("f_lo_hz"@.len() != "body"@.len());
    }
    assert("f_hi_hz"@ != "body"@) by {
        reveal_strlit("f_hi_hz");
        reveal_strlit("body");
        assert("f_hi_hz"@.len() != "body"@.len());
    }
    assert("t0_s"@ != "body"@) by {
        reveal_strlit("t0_s");
        reveal_strlit("body");
        assert("t0_s"@[0] != "body"@[0]);
    }
    assert("t1_s"@ != "body"@) by {
        reveal_strlit("t1_s");
        reveal_strlit("body");
        assert("t1_s"@[0] != "body"@[0]);
    }
    assert("label"@ != "body"@) by {
        reveal_strlit("label");
        reveal_strlit("body");
        assert("label"@.len() != "body"@.len());
    }
    member_is_the_first(f, "body"@, 8);
    assert("id"@ != "author"@) by {
        reveal_strlit("id");
        reveal_strlit("author");
        assert("id"@.len() != "author"@.len());
    }
    assert("collection_id"@ != "author"@) by {
        reveal_strlit("collection_id");
        reveal_strlit("author");
        assert("collection_id"@.len() != "author"@.len());
    }
    assert("kind"@ != "author"@) by {
        reveal_strlit("kind");
        reveal_strlit("author");
        assert("kind"@.len() != "author"@.len());
    }
    assert("f_lo_hz"@ != "author"@) by {
        reveal_strlit("f_lo_hz");
        reveal_strlit("author");
        assert("f_lo_hz"@.len() != "author"@.len());
    }
    assert("f_hi_hz"@ != "author"@) by {
        reveal_strlit("f_hi_hz");
        reveal_strlit("author");
        assert("f_hi_hz"@.len() != "author"@.len());
    }
    assert("t0_s"@ != "author"@) by {
        reveal_strlit("t0_s");
        reveal_strlit("author");
        assert("t0_s"@.len() != "author"@.len());
    }
    assert("t1_s"@ != "author"@) by {
        reveal_strlit("t1_s");
        reveal_strlit("author");
        assert("t1_s"@.len() != "author"@.len());
    }
    assert("label"@ != "author"@) by {
        reveal_strlit("label");
        reveal_strlit("author");
        assert("label"@.len() != "author"@.len());
    }
    assert("body"@ != "author"@) by {
        reveal_strlit("body");
        reveal_strlit("author");
        assert("body"@.len() != "author"@.len());
    }
    member_is_the_first(f, "author"@, 9);
    assert("id"@ != "provenance"@) by {
        reveal_strlit("id");
        reveal_strlit("provenance");
        assert("id"@.len() != "provenance"@.len());
    }
    assert("collection_id"@ != "provenance"@) by {
        reveal_strlit("collection_id");
        reveal_strlit("provenance");
        assert("collection_id"@.len() != "provenance"@.len());
    }
    assert("kind"@ != "provenance"@) by {
        reveal_strlit("kind");
        reveal_strlit("provenance");
        assert("kind"@.len() != "provenance"@.len());
    }
    assert("f_lo_hz"@ != "provenance"@) by {
        reveal_strlit("f_lo_hz");
        reveal_strlit("provenance");
        assert("f_lo_hz"@.len() != "provenance"@.len());
    }
    assert("f_hi_hz"@ != "provenance"@) by {
        reveal_strlit("f_hi_hz");
        reveal_strlit("provenance");
        assert("f_hi_hz"@.len() != "provenance"@.len());
    }
    assert("t0_s"@ != "provenance"@) by {
        reveal_strlit("t0_s");
        reveal_strlit("provenance");
        assert("t0_s"@.len() != "provenance"@.len());
    }
    assert("t1_s"@ != "provenance"@) by {
        reveal_strlit("t1_s");
        reveal_strlit("provenance");
        assert("t1_s"@.len() != "provenance"@.len());
    }
    assert("label"@ != "provenance"@) by {
        reveal_strlit("label");
        reveal_strlit("provenance");
        assert("label"@.len() != "provenance"@.len());
    }
    assert("body"@ != "provenance"@) by {
        reveal_strlit("body");
        reveal_strlit("provenance");
        assert("body"@.len() != "provenance"@.len());
    }
    assert("author"@ != "provenance"@) by {
        reveal_strlit("author");
        reveal_strlit("provenance");
        assert("author"@.len() != "provenance"@.len());
    }
    member_is_the_first(f, "provenance"@, 10);
    assert("id"@ != "created_s"@) by {
        reveal_strlit("id");
        reveal_strlit("created_s");
        assert("id"@.len() != "created_s"@.len());
    }
    assert("collection_id"@ != "created_s"@) by {
        reveal_strlit("collection_id");
        reveal_strlit("created_s");
        assert("collection_id"@.len() != "created_s"@.len());
    }
    assert("kind"@ != "created_s"@) by {
        reveal_strlit("kind");
        reveal_strlit("created_s");
        assert("kind"@.len() != "created_s"@.len());
    }
    assert("f_lo_hz"@ != "created_s"@) by {
        reveal_strlit("f_lo_hz");
        reveal_strlit("created_s");
        assert("f_lo_hz"@.len() != "created_s"@.len());
    }
    assert("f_hi_hz"@ != "created_s"@) by {
        reveal_strlit("f_hi_hz");
        reveal_strlit("created_s");
        assert("f_hi_hz"@.len() != "created_s"@.len());
    }
    assert("t0_s"@ != "created_s"@) by {
        reveal_strlit("t0_s");
        reveal_strlit("created_s");
        assert("t0_s"@.len() != "created_s"@.len());
    }
    assert("t1_s"@ != "created_s"@) by {
        reveal_strlit("t1_s");
        reveal_strlit("created_s");
        assert("t1_s"@.len() != "created_s"@.len());
    }
    assert("label"@ != "created_s"@) by {
        reveal_strlit("label");
        reveal_strlit("created_s");
        assert("label"@.len() != "created_s"@.len());
    }
    assert("body"@ != "created_s"@) by {
        reveal_strlit("body");
        reveal_strlit("created_s");
        assert("body"@.len() != "created_s"@.len());
    }
    assert("author"@ != "created_s"@) by {
        reveal_strlit("author");
        reveal_strlit("created_s");
        assert("author"@.len() != "created_s"@.len());
    }
    assert("provenance"@ != "created_s"@) by {
        reveal_strlit("provenance");
        reveal_strlit("created_s");
        assert("provenance"@.len() != "created_s"@.len());
    }
    member_is_the_first(f, "created_s"@, 11);
    assert("id"@ != "updated_s"@) by {
        reveal_strlit("id");
        reveal_strlit("updated_s");
        assert("id"@.len() != "updated_s"@.len());
    }
    assert("collection_id"@ != "updated_s"@) by {
        reveal_strlit("collection_id");
        reveal_strlit("updated_s");
        assert("collection_id"@.len() != "updated_s"@.len());
    }
    assert("kind"@ != "updated_s"@) by {
        reveal_strlit("kind");
        reveal_strlit("updated_s");
        assert("kind"@.len() != "updated_s"@.len());
    }
    assert("f_lo_hz"@ != "updated_s"@) by {
        reveal_strlit("f_lo_hz");
        reveal_strlit("updated_s");
        assert("f_lo_hz"@.len() != "updated_s"@.len());
    }
    assert("f_hi_hz"@ != "updated_s"@) by {
        reveal_strlit("f_hi_hz");
        reveal_strlit("updated_s");
        assert("f_hi_hz"@.len() != "updated_s"@.len());
    }
    assert("t0_s"@ != "updated_s"@) by {
        reveal_strlit("t0_s");
        reveal_strlit("updated_s");
        assert("t0_s"@.len() != "updated_s"@.len());
    }
    assert("t1_s"@ != "updated_s"@) by {
        reveal_strlit("t1_s");
        reveal_strlit("updated_s");
        assert("t1_s"@.len() != "updated_s"@.len());
    }
    assert("label"@ != "updated_s"@) by {
        reveal_strlit("label");
        reveal_strlit("updated_s");
        assert("label"@.len() != "updated_s"@.len());
    }
    assert("body"@ != "updated_s"@) by {
        reveal_strlit("body");
        reveal_strlit("updated_s");
        assert("body"@.len() != "updated_s"@.len());
    }
    assert("author"@ != "updated_s"@) by {
        reveal_strlit("author");
        reveal_strlit("updated_s");
        assert("author"@.len() != "updated_s"@.len());
    }
    assert("provenance"@ != "updated_s"@) by {
        reveal_strlit("provenance");
        reveal_strlit("updated_s");
        assert("provenance"@.len() != "updated_s"@.len());
    }
    assert("created_s"@ != "updated_s"@) by {
        reveal_strlit("created_s");
        reveal_strlit("updated_s");
        assert("created_s"@[0] != "updated_s"@[0]);
    }
    member_is_the_first(f, "updated_s"@, 12);
}

/// Where an annotation was made is written as it is.
pub proof fn a_provenance_is_written_as_it_is(p: AuthoredProvenanceV)
    ensures
        at(provenance_v(p), "device_id"@) == Some(opt_text_v(p.device_id)),
        at(provenance_v(p), "center_hz"@) == Some(real_v(p.center_hz)),
        at(provenance_v(p), "span_hz"@) == Some(real_v(p.span_hz)),
        at(provenance_v(p), "sample_rate_hz"@) == Some(opt_real_v(p.sample_rate_hz)),
        at(provenance_v(p), "t_capture"@) == Some(
            JsonV::Array(seq![seconds_v(p.t_capture.0), seconds_v(p.t_capture.1)]),
        ),
        at(provenance_v(p), "tier"@) == Some(JsonV::Text(p.tier.wire())),
        at(provenance_v(p), "authored_s"@) == Some(seconds_v(p.authored_at)),
        at(provenance_v(p), "actor"@) == Some(opt_text_v(p.actor)),
        at(provenance_v(p), "authored"@) == Some(JsonV::Bool(p.authored)),
{
    let f = provenance_v(p)->Object_0;
    member_is_the_first(f, "device_id"@, 0);
    assert("device_id"@ != "center_hz"@) by {
        reveal_strlit("device_id");
        reveal_strlit("center_hz");
        assert("device_id"@[0] != "center_hz"@[0]);
    }
    member_is_the_first(f, "center_hz"@, 1);
    assert("device_id"@ != "span_hz"@) by {
        reveal_strlit("device_id");
        reveal_strlit("span_hz");
        assert("device_id"@.len() != "span_hz"@.len());
    }
    assert("center_hz"@ != "span_hz"@) by {
        reveal_strlit("center_hz");
        reveal_strlit("span_hz");
        assert("center_hz"@.len() != "span_hz"@.len());
    }
    member_is_the_first(f, "span_hz"@, 2);
    assert("device_id"@ != "sample_rate_hz"@) by {
        reveal_strlit("device_id");
        reveal_strlit("sample_rate_hz");
        assert("device_id"@.len() != "sample_rate_hz"@.len());
    }
    assert("center_hz"@ != "sample_rate_hz"@) by {
        reveal_strlit("center_hz");
        reveal_strlit("sample_rate_hz");
        assert("center_hz"@.len() != "sample_rate_hz"@.len());
    }
    assert("span_hz"@ != "sample_rate_hz"@) by {
        reveal_strlit("span_hz");
        reveal_strlit("sample_rate_hz");
        assert("span_hz"@.len() != "sample_rate_hz"@.len());
    }
    member_is_the_first(f, "sample_rate_hz"@, 3);
    assert("device_id"@ != "t_capture"@) by {
        reveal_strlit("device_id");
        reveal_strlit("t_capture");
        assert("device_id"@[0] != "t_capture"@[0]);
    }
    assert("center_hz"@ != "t_capture"@) by {
        reveal_strlit("center_hz");
        reveal_strlit("t_capture");
        assert("center_hz"@[0] != "t_capture"@[0]);
    }
    assert("span_hz"@ != "t_capture"@) by {
        reveal_strlit("span_hz");
        reveal_strlit("t_capture");
        assert("span_hz"@.len() != "t_capture"@.len());
    }
    assert("sample_rate_hz"@ != "t_capture"@) by {
        reveal_strlit("sample_rate_hz");
        reveal_strlit("t_capture");
        assert("sample_rate_hz"@.len() != "t_capture"@.len());
    }
    member_is_the_first(f, "t_capture"@, 4);
    assert("device_id"@ != "tier"@) by {
        reveal_strlit("device_id");
        reveal_strlit("tier");
        assert("device_id"@.len() != "tier"@.len());
    }
    assert("center_hz"@ != "tier"@) by {
        reveal_strlit("center_hz");
        reveal_strlit("tier");
        assert("center_hz"@.len() != "tier"@.len());
    }
    assert("span_hz"@ != "tier"@) by {
        reveal_strlit("span_hz");
        reveal_strlit("tier");
        assert("span_hz"@.len() != "tier"@.len());
    }
    assert("sample_rate_hz"@ != "tier"@) by {
        reveal_strlit("sample_rate_hz");
        reveal_strlit("tier");
        assert("sample_rate_hz"@.len() != "tier"@.len());
    }
    assert("t_capture"@ != "tier"@) by {
        reveal_strlit("t_capture");
        reveal_strlit("tier");
        assert("t_capture"@.len() != "tier"@.len());
    }
    member_is_the_first(f, "tier"@, 5);
    assert("device_id"@ != "authored_s"@) by {
        reveal_strlit("device_id");
        reveal_strlit("authored_s");
        assert("device_id"@.len() != "authored_s"@.len());
    }
    assert("center_hz"@ != "authored_s"@) by {
        reveal_strlit("center_hz");
        reveal_strlit("authored_s");
        assert("center_hz"@.len() != "authored_s"@.len());
    }
    assert("span_hz"@ != "authored_s"@) by {
        reveal_strlit("span_hz");
        reveal_strlit("authored_s");
        assert("span_hz"@.len() != "authored_s"@.len());
    }
    assert("sample_rate_hz"@ != "authored_s"@) by {
        reveal_strlit("sample_rate_hz");
        reveal_strlit("authored_s");
        assert("sample_rate_hz"@.len() != "authored_s"@.len());
    }
    assert("t_capture"@ != "authored_s"@) by {
        reveal_strlit("t_capture");
        reveal_strlit("authored_s");
        assert("t_capture"@.len() != "authored_s"@.len());
    }
    assert("tier"@ != "authored_s"@) by {
        reveal_strlit("tier");
        reveal_strlit("authored_s");
        assert("tier"@.len() != "authored_s"@.len());
    }
    member_is_the_first(f, "authored_s"@, 6);
    assert("device_id"@ != "actor"@) by {
        reveal_strlit("device_id");
        reveal_strlit("actor");
        assert("device_id"@.len() != "actor"@.len());
    }
    assert("center_hz"@ != "actor"@) by {
        reveal_strlit("center_hz");
        reveal_strlit("actor");
        assert("center_hz"@.len() != "actor"@.len());
    }
    assert("span_hz"@ != "actor"@) by {
        reveal_strlit("span_hz");
        reveal_strlit("actor");
        assert("span_hz"@.len() != "actor"@.len());
    }
    assert("sample_rate_hz"@ != "actor"@) by {
        reveal_strlit("sample_rate_hz");
        reveal_strlit("actor");
        assert("sample_rate_hz"@.len() != "actor"@.len());
    }
    assert("t_capture"@ != "actor"@) by {
        reveal_strlit("t_capture");
        reveal_strlit("actor");
        assert("t_capture"@.len() != "actor"@.len());
    }
    assert("tier"@ != "actor"@) by {
        reveal_strlit("tier");
        reveal_strlit("actor");
        assert("tier"@.len() != "actor"@.len());
    }
    assert("authored_s"@ != "actor"@) by {
        reveal_strlit("authored_s");
        reveal_strlit("actor");
        assert("authored_s"@.len() != "actor"@.len());
    }
    member_is_the_first(f, "actor"@, 7);
    assert("device_id"@ != "authored"@) by {
        reveal_strlit("device_id");
        reveal_strlit("authored");
        assert("device_id"@.len() != "authored"@.len());
    }
    assert("center_hz"@ != "authored"@) by {
        reveal_strlit("center_hz");
        reveal_strlit("authored");
        assert("center_hz"@.len() != "authored"@.len());
    }
    assert("span_hz"@ != "authored"@) by {
        reveal_strlit("span_hz");
        reveal_strlit("authored");
        assert("span_hz"@.len() != "authored"@.len());
    }
    assert("sample_rate_hz"@ != "authored"@) by {
        reveal_strlit("sample_rate_hz");
        reveal_strlit("authored");
        assert("sample_rate_hz"@.len() != "authored"@.len());
    }
    assert("t_capture"@ != "authored"@) by {
        reveal_strlit("t_capture");
        reveal_strlit("authored");
        assert("t_capture"@.len() != "authored"@.len());
    }
    assert("tier"@ != "authored"@) by {
        reveal_strlit("tier");
        reveal_strlit("authored");
        assert("tier"@.len() != "authored"@.len());
    }
    assert("authored_s"@ != "authored"@) by {
        reveal_strlit("authored_s");
        reveal_strlit("authored");
        assert("authored_s"@.len() != "authored"@.len());
    }
    assert("actor"@ != "authored"@) by {
        reveal_strlit("actor");
        reveal_strlit("authored");
        assert("actor"@.len() != "authored"@.len());
    }
    member_is_the_first(f, "authored"@, 8);
    assert(Seq::empty().push(seconds_v(p.t_capture.0)).push(seconds_v(p.t_capture.1)) =~= seq![
        seconds_v(p.t_capture.0),
        seconds_v(p.t_capture.1),
    ]);
}

/// A parameter is read without the blanks around it; one of blanks alone is not there.
pub proof fn parameters_are_read_without_blanks(
    q: Seq<(Seq<char>, Seq<char>)>,
    key: Seq<char>,
    x: Real,
)
    ensures
        value_of(q, key) is None ==> query_of(q, key) is None,
        value_of(q, key) matches Some(v) ==> (query_of(q, key) is Some <==> trimmed(v).len() > 0),
        query_of(q, key) matches Some(t) ==> t == trimmed(value_of(q, key)->0),
        query_number_of(q, key) == Ok::<Real, FailV>(x) <==> (query_of(q, key) matches Some(t)
            && text_real(t) == Some(x)),
        query_number_of(q, key) matches Err(f) ==> f.status == 400,
{
}

/// What is listed is of the band and of the times that were asked for, neither of them reversed, from
/// the cursor on. All four edges are needed.
pub proof fn annotations_are_listed_as_asked(
    q: Seq<(Seq<char>, Seq<char>)>,
    store: bool,
    t0_ns: i64,
    t1_ns: i64,
)
    ensures
        listing_of(q, store, t0_ns, t1_ns) matches Ok(l) ==> {
            &&& store
            &&& query_of(q, "f_lo"@) matches Some(v) && text_real(v) == Some(l.f_lo)
            &&& query_of(q, "f_hi"@) matches Some(v) && text_real(v) == Some(l.f_hi)
            &&& query_of(q, "t0"@) matches Some(v) && text_real(v) == Some(l.t0)
            &&& query_of(q, "t1"@) matches Some(v) && text_real(v) == Some(l.t1)
            &&& !l.f_hi.below(l.f_lo)
            &&& !l.t1.below(l.t0)
            &&& l.t0_ns == t0_ns
            &&& l.t1_ns == t1_ns
            &&& 1 <= l.limit <= 2000
            &&& l.offset <= 1_000_000
            &&& query_of(q, "limit"@) is None ==> l.limit == 200
            &&& query_of(q, "cursor"@) is None ==> l.offset == 0
            &&& forall|n: nat|
                query_of(q, "limit"@) == Some(#[trigger] decimal(n)) ==> l.limit == n
            &&& forall|n: nat|
                query_of(q, "cursor"@) == Some(#[trigger] decimal(n)) ==> l.offset == n
        },
        listing_of(q, store, t0_ns, t1_ns) matches Err(f) ==> f.status == 400 || (f.status == 503
            && !store),
{
    assert forall|n: nat|
        unsigned(#[trigger] decimal(n), 2000) == (if n <= 2000 {
            Some(n)
        } else {
            None
        }) && unsigned(decimal(n), 1_000_000) == (if n <= 1_000_000 {
            Some(n)
        } else {
            None
        }) by {
        numbers_are_read_as_they_are_written(n, Seq::empty(), 2000);
        numbers_are_read_as_they_are_written(n, Seq::empty(), 1_000_000);
    }
}

/// A page says which window it is of, holds its rows in their order and their number, how many there
/// are in all, and where to read on.
pub proof fn a_page_is_of_its_window(l: Listing, rows: Seq<AuthoredAnnotation>, matched: u64)
    ensures
        at(page_v(l, rows, matched), "window"@) matches Some(w) && {
            &&& at(w, "f_lo_hz"@) == Some(real_v(l.f_lo))
            &&& at(w, "f_hi_hz"@) == Some(real_v(l.f_hi))
            &&& at(w, "t0_s"@) == Some(real_v(l.t0))
            &&& at(w, "t1_s"@) == Some(real_v(l.t1))
        },
        at(page_v(l, rows, matched), "annotations"@) matches Some(JsonV::Array(a)) && a.len()
            == rows.len() && forall|i: int|
            0 <= i < rows.len() ==> #[trigger] a[i] == annotation_v(rows[i]@),
        at(page_v(l, rows, matched), "count"@) == Some(uint_v(rows.len() as int)),
        at(page_v(l, rows, matched), "matched"@) == Some(uint_v(matched as int)),
        at(page_v(l, rows, matched), "limit"@) == Some(uint_v(l.limit as int)),
        at(page_v(l, rows, matched), "next_cursor"@) == Some(
            if l.offset + rows.len() < matched && l.offset + rows.len() <= 1_000_000 {
                JsonV::Text(decimal((l.offset + rows.len()) as nat))
            } else {
                JsonV::Null
            },
        ),
{
    let f = page_v(l, rows, matched)->Object_0;
    member_is_the_first(f, "window"@, 0);
    assert("window"@ != "annotations"@) by {
        reveal_strlit("window");
        reveal_strlit("annotations");
        assert("window"@.len() != "annotations"@.len());
    }
    member_is_the_first(f, "annotations"@, 1);
    assert("window"@ != "count"@) by {
        reveal_strlit("window");
        reveal_strlit("count");
        assert("window"@.len() != "count"@.len());
    }
    assert("annotations"@ != "count"@) by {
        reveal_strlit("annotations");
        reveal_strlit("count");
        assert("annotations"@.len() != "count"@.len());
    }
    member_is_the_first(f, "count"@, 2);
    assert("window"@ != "matched"@) by {
        reveal_strlit("window");
        reveal_strlit("matched");
        assert("window"@.len() != "matched"@.len());
    }
    assert("annotations"@ != "matched"@) by {
        reveal_strlit("annotations");
        reveal_strlit("matched");
        assert("annotations"@.len() != "matched"@.len());
    }
    assert("count"@ != "matched"@) by {
        reveal_strlit("count");
        reveal_strlit("matched");
        assert("count"@.len() != "matched"@.len());
    }
    member_is_the_first(f, "matched"@, 3);
    assert("window"@ != "limit"@) by {
        reveal_strlit("window");
        reveal_strlit("limit");
        assert("window"@.len() != "limit"@.len());
    }
    assert("annotations"@ != "limit"@) by {
        reveal_strlit("annotations");
        reveal_strlit("limit");
        assert("annotations"@.len() != "limit"@.len());
    }
    assert("count"@ != "limit"@) by {
        reveal_strlit("count");
        reveal_strlit("limit");
        assert("count"@[0] != "limit"@[0]);
    }
    assert("matched"@ != "limit"@) by {
        reveal_strlit("matched");
        reveal_strlit("limit");
        assert("matched"@.len() != "limit"@.len());
    }
    member_is_the_first(f, "limit"@, 4);
    assert("window"@ != "next_cursor"@) by {
        reveal_strlit("window");
        reveal_strlit("next_cursor");
        assert("window"@.len() != "next_cursor"@.len());
    }
    assert("annotations"@ != "next_cursor"@) by {
        reveal_strlit("annotations");
        reveal_strlit("next_cursor");
        assert("annotations"@[0] != "next_cursor"@[0]);
    }
    assert("count"@ != "next_cursor"@) by {
        reveal_strlit("count");
        reveal_strlit("next_cursor");
        assert("count"@.len() != "next_cursor"@.len());
    }
    assert("matched"@ != "next_cursor"@) by {
        reveal_strlit("matched");
        reveal_strlit("next_cursor");
        assert("matched"@.len() != "next_cursor"@.len());
    }
    assert("limit"@ != "next_cursor"@) by {
        reveal_strlit("limit");
        reveal_strlit("next_cursor");
        assert("limit"@.len() != "next_cursor"@.len());
    }
    member_is_the_first(f, "next_cursor"@, 5);
    let w = at(page_v(l, rows, matched), "window"@)->0;
    let g = w->Object_0;
    member_is_the_first(g, "f_lo_hz"@, 0);
    assert("f_lo_hz"@ != "f_hi_hz"@) by {
        reveal_strlit("f_lo_hz");
        reveal_strlit("f_hi_hz");
        assert("f_lo_hz"@[2] != "f_hi_hz"@[2]);
    }
    member_is_the_first(g, "f_hi_hz"@, 1);
    assert("f_lo_hz"@ != "t0_s"@) by {
        reveal_strlit("f_lo_hz");
        reveal_strlit("t0_s");
        assert("f_lo_hz"@.len() != "t0_s"@.len());
    }
    assert("f_hi_hz"@ != "t0_s"@) by {
        reveal_strlit("f_hi_hz");
        reveal_strlit("t0_s");
        assert("f_hi_hz"@.len() != "t0_s"@.len());
    }
    member_is_the_first(g, "t0_s"@, 2);
    assert("f_lo_hz"@ != "t1_s"@) by {
        reveal_strlit("f_lo_hz");
        reveal_strlit("t1_s");
        assert("f_lo_hz"@.len() != "t1_s"@.len());
    }
    assert("f_hi_hz"@ != "t1_s"@) by {
        reveal_strlit("f_hi_hz");
        reveal_strlit("t1_s");
        assert("f_hi_hz"@.len() != "t1_s"@.len());
    }
    assert("t0_s"@ != "t1_s"@) by {
        reveal_strlit("t0_s");
        reveal_strlit("t1_s");
        assert("t0_s"@[1] != "t1_s"@[1]);
    }
    member_is_the_first(g, "t1_s"@, 3);
}

/// What a stamp holds is what the view says, and what the server knows beside it: the rate of the
/// front end, who made it and when.
pub proof fn a_stamp_holds_what_the_view_says(
    m: Seq<(Seq<char>, JsonV)>,
    live: Seq<LiveDevice>,
    times: Times,
    now: i64,
    actor: Option<Seq<char>>,
)
    ensures
        stamp_of(JsonV::Object(m), live, times, now, actor) matches Ok(p) ==> {
            &&& writes(m, "center_hz"@, p.center_hz)
            &&& writes(m, "span_hz"@, p.span_hz)
            &&& member(m, "t_capture"@) matches Some(JsonV::Array(a)) && a.len() == 2
            &&& p.t_capture == (times.capture_start, times.capture_end)
            &&& member(m, "tier"@) == Some(JsonV::Text(p.tier.wire()))
            &&& p.device_id matches Some(d) ==> member(m, "device_id"@) == Some(JsonV::Text(d))
            &&& p.device_id is None ==> member(m, "device_id"@) is None || member(m, "device_id"@)
                == Some(JsonV::Null)
        },
        stamp_of(JsonV::Null, live, times, now, actor) is Err,
{
}

/// What a body sets is what it writes: the extent, the texts without the blanks around them, the
/// kind; whatever it leaves out stays.
pub proof fn a_body_sets_what_it_writes(
    body: Seq<(Seq<char>, JsonV)>,
    a: AuthoredAnnotationV,
    times: Times,
    b: AuthoredAnnotationV,
)
    requires
        set_fields(body, a, times) == Ok::<AuthoredAnnotationV, FailV>(b),
    ensures
        member(body, "kind"@) is None ==> b.kind == a.kind,
        member(body, "kind"@) is Some ==> member(body, "kind"@) == Some(JsonV::Text(b.kind.wire())),
        member(body, "f_lo_hz"@) is None ==> b.f_lo_hz == a.f_lo_hz,
        member(body, "f_lo_hz"@) is Some ==> writes(body, "f_lo_hz"@, b.f_lo_hz),
        member(body, "f_hi_hz"@) is None ==> b.f_hi_hz == a.f_hi_hz,
        member(body, "f_hi_hz"@) is Some ==> writes(body, "f_hi_hz"@, b.f_hi_hz),
        member(body, "t0_s"@) is None ==> b.t0 == a.t0,
        member(body, "t0_s"@) is Some ==> b.t0 == times.t0,
        member(body, "t1_s"@) is None ==> b.t1 == a.t1,
        member(body, "t1_s"@) is Some ==> b.t1 == times.t1,
        member(body, "label"@) is None ==> b.label == a.label,
        member(body, "label"@) matches Some(v) ==> (v matches JsonV::Text(s) && b.label == trimmed(s)),
        member(body, "body"@) is None ==> b.body == a.body,
        member(body, "body"@) matches Some(v) ==> v == opt_text_v(b.body),
        member(body, "collection_id"@) is None ==> b.collection_id == a.collection_id,
        member(body, "collection_id"@) == Some(JsonV::Null) ==> b.collection_id is None,
        member(body, "collection_id"@) matches Some(JsonV::Text(s)) ==> b.collection_id == Some(
            trimmed(s),
        ),
        b.id == a.id && b.author == a.author && b.provenance == a.provenance,
        b.created_at == a.created_at && b.updated_at == a.updated_at,
{
}

/// A new annotation is what was written: its extent and its label are needed, it is of the time at
/// which it was made, by whoever made it, and has the name that was given or a fresh one.
pub proof fn a_new_annotation_is_what_was_written(body: Seq<(Seq<char>, JsonV)>, c: Context)
    ensures
        new_annotation_of(body, c) matches Ok(a) ==> {
            &&& writes(body, "f_lo_hz"@, a.f_lo_hz)
            &&& writes(body, "f_hi_hz"@, a.f_hi_hz)
            &&& a.t0 == c.times.t0
            &&& a.t1 == c.times.t1
            &&& member(body, "kind"@) == Some(JsonV::Text(a.kind.wire()))
            &&& member(body, "label"@) matches Some(JsonV::Text(s)) && a.label == trimmed(s)
            &&& a.author == opt_string(c.actor)
            &&& a.created_at == c.now
            &&& a.updated_at == c.now
            &&& member(body, "id"@) is None ==> a.id == c.fresh_id@
            &&& member(body, "id"@) matches Some(JsonV::Text(_)) ==> Some(a.id) == opt_string(
                c.given_id,
            )
            &&& member(body, "view"@) matches Some(v) && stamp_of(
                v,
                c.live@,
                c.times,
                c.now,
                opt_string(c.actor),
            ) == Ok::<AuthoredProvenanceV, FailV>(a.provenance)
        },
        member(body, "view"@) is None || member(body, "f_lo_hz"@) is None || member(body, "f_hi_hz"@)
            is None || member(body, "t0_s"@) is None || member(body, "t1_s"@) is None || member(
            body,
            "kind"@,
        ) is None || member(body, "label"@) is None ==> new_annotation_of(body, c) is Err,
{
    if new_annotation_of(body, c) is Ok {
        let p = stamp_of(
            member(body, "view"@)->0,
            c.live@,
            c.times,
            c.now,
            opt_string(c.actor),
        )->Ok_0;
        let a = fresh_of(body, p, c)->Ok_0;
        a_body_sets_what_it_writes(body, a, c.times, new_annotation_of(body, c)->Ok_0);
    }
}

/// A changed annotation is what was written over what it was; its stamp is renewed where a view was
/// sent, and it is as new as now, though never older than it is.
pub proof fn a_changed_annotation_is_what_was_written(
    body: Seq<(Seq<char>, JsonV)>,
    c: Context,
    row: AuthoredAnnotationV,
)
    ensures
        changed_of(body, c, true, Ok(row)) matches Ok(a) ==> {
            &&& set_fields(body, row, c.times) matches Ok(b) && a == (AuthoredAnnotationV {
                provenance: a.provenance,
                updated_at: a.updated_at,
                ..b
            })
            &&& a.updated_at >= c.now
            &&& a.updated_at >= row.created_at
            &&& a.updated_at == c.now || a.updated_at == row.created_at
            &&& member(body, "view"@) matches Some(v) ==> stamp_of(
                v,
                c.live@,
                c.times,
                c.now,
                opt_string(c.actor),
            ) == Ok::<AuthoredProvenanceV, FailV>(a.provenance)
        },
        changed_of(body, c, false, Ok(row)) matches Err(f) ==> f.status == 400 || f.status == 503,
        changed_of(body, c, false, Ok(row)) is Err,
{
    only_allowed_members_pass(body, update_fields());
}

/// What is created is answered whole; one that is there already is a conflict.
pub proof fn what_is_created_is_answered_whole(
    a: AuthoredAnnotationV,
    inserted: Result<(), RepoError>,
)
    ensures
        created_of(a, Ok(()), true, false, Ok(())) matches Ok(d) && d.status == 201 && d.body
            == annotation_v(a) && d.new == annotation_v(a) && d.old == JsonV::Null,
        created_of(a, Ok(()), true, true, inserted) matches Err(f) && f.status == 409,
        created_of(a, Ok(()), false, false, inserted) matches Err(f) && f.status == 503,
{
}

/// What the server stamps may not be sent, whether in the body or in its view; the first of it is
/// named.
pub proof fn stamped_members_are_owned(body: Seq<(Seq<char>, JsonV)>, i: int)
    requires
        0 <= i < body.len(),
        body[i].0 == "provenance"@ || body[i].0 == "author"@ || body[i].0 == "actor"@ || body[i].0
            == "authored"@ || body[i].0 == "authored_s"@ || body[i].0 == "created_s"@ || body[i].0
            == "updated_s"@,
    ensures
        first_owned(body) is Some,
        server_owned_of(body) matches Err(f) && f.status == 400,
    decreases i,
{
    let o = server_owned();
    assert(o[0] == "provenance"@ && o[1] == "author"@ && o[2] == "actor"@ && o[3] == "authored"@
        && o[4] == "authored_s"@ && o[5] == "created_s"@ && o[6] == "updated_s"@);
    assert(o.contains(body[i].0));
    if i > 0 && !o.contains(body[0].0) {
        assert(body.skip(1)[i - 1] == body[i]);
        stamped_members_are_owned(body.skip(1), i - 1);
    }
}

} // verus!
