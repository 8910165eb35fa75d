//! Marker collections: named sets of markers on time and frequency, with a provenance that the
//! server stamps and a client may not supply.

use vstd::prelude::*;

use crate::annotations::later;
use crate::authored::{
    create_step, find_rate, from_secs, instant_of, next_cursor, next_start, page_size, page_start,
    rate_of, read_size, read_start, tier_of, LiveDevice, Tier,
};
use crate::body::{
    fail_v, invalid_v, no_fields as refuse_fields, nullable_number, nullable_number_of, number,
    number_of, only, only_allowed_members_pass, only_of, outcome, read_result, required,
    required_of, text, text_of, writes, Fail, FailV,
};
use crate::control::Id;
use crate::dispatch::{applied_result, ok, ok_v, Applied, AppliedV};
use crate::double::{parse_real, text_real, Real};
use crate::evidence::status_view;
use crate::json::{
    as_real, at, fields_view, fields_view_each, find, items_view_each, list, list_v, member,
    member_index, member_index_is_first, member_is_the_first, no_fields, opt_real_v, opt_text_v,
    real_v, seconds_v, text_v, uint_v, Fields, Items, Json, JsonV, Num, ToJson,
};
use crate::request::pairs;
use crate::store::{open_of, open_store};
use crate::text::{
    a_remainder_is_what_else_is_there, begins, chars_of, copy_text, decimal,
    numbers_are_read_as_they_are_written, one_of, opt_string, opt_text, owned, same, strip_prefix,
    strip_suffix, texts, trim, trimmed, without_prefix, without_suffix,
};

verus! {

/// The size of a page that names none.
pub const DEFAULT_LIMIT: usize = 500;

/// The largest page.
pub const MAX_LIMIT: usize = 2000;

/// The largest offset that a cursor may name.
pub const MAX_CURSOR: usize = 10_000_000;

// ---------------------------------------------------------------------------------------------
// Routing
// ---------------------------------------------------------------------------------------------

/// An action on collections or markers.
#[derive(Clone, Copy, Debug, PartialEq, Eq, Structural)]
pub enum Action {
    /// The collections.
    List,
    /// A new one.
    Create,
    /// One.
    Get(Id),
    /// Change one.
    Update(Id),
    /// Delete one.
    Delete(Id),
    /// The markers of a collection, or of all.
    ListMarkers(Option<Id>),
    /// A new marker in a collection.
    CreateMarker(Id),
    /// One marker.
    GetMarker(Id),
    /// Change one.
    UpdateMarker(Id),
    /// Delete one.
    DeleteMarker(Id),
}

impl Action {
    /// What it is audited as.
    pub open spec fn named(self) -> Seq<char> {
        match self {
            Action::List => "collections_list"@,
            Action::Create => "collection_create"@,
            Action::Get(_) => "collection_get"@,
            Action::Update(_) => "collection_update"@,
            Action::Delete(_) => "collection_delete"@,
            Action::ListMarkers(_) => "markers_list"@,
            Action::CreateMarker(_) => "marker_create"@,
            Action::GetMarker(_) => "marker_get"@,
            Action::UpdateMarker(_) => "marker_update"@,
            Action::DeleteMarker(_) => "marker_delete"@,
        }
    }

    /// [`Action::named`].
    pub fn name(self) -> (r: &'static str)
        ensures
            r@ == self.named(),
    {
        match self {
            Action::List => "collections_list",
            Action::Create => "collection_create",
            Action::Get(_) => "collection_get",
            Action::Update(_) => "collection_update",
            Action::Delete(_) => "collection_delete",
            Action::ListMarkers(_) => "markers_list",
            Action::CreateMarker(_) => "marker_create",
            Action::GetMarker(_) => "marker_get",
            Action::UpdateMarker(_) => "marker_update",
            Action::DeleteMarker(_) => "marker_delete",
        }
    }

    /// It changes something.
    pub fn mutating(self) -> (r: bool)
        ensures
            r == !(self is List || self is Get || self is ListMarkers || self is GetMarker),
    {
        match self {
            Action::List => false,
            Action::Get(_) => false,
            Action::ListMarkers(_) => false,
            Action::GetMarker(_) => false,
            _ => true,
        }
    }
}

/// What a method and a path are. `id` is the identity that the path holds, where it is one.
pub open spec fn resolved(method: Seq<char>, path: Seq<char>, id: Option<Id>) -> Option<
    Result<Action, Option<Seq<char>>>,
> {
    if path == "/api/collections"@ {
        Some(
            if method == "GET"@ {
                Ok(Action::List)
            } else if method == "POST"@ {
                Ok(Action::Create)
            } else {
                Err(Some("GET, POST"@))
            },
        )
    } else if path == "/api/markers"@ {
        Some(
            if method == "GET"@ {
                Ok(Action::ListMarkers(None))
            } else {
                Err(Some("GET"@))
            },
        )
    } else if without_prefix(path, "/api/markers/"@) is Some {
        Some(
            match id {
                None => Err(None),
                Some(id) => if method == "GET"@ {
                    Ok(Action::GetMarker(id))
                } else if method == "PUT"@ {
                    Ok(Action::UpdateMarker(id))
                } else if method == "DELETE"@ {
                    Ok(Action::DeleteMarker(id))
                } else {
                    Err(Some("GET, PUT, DELETE"@))
                },
            },
        )
    } else {
        match without_prefix(path, "/api/collections/"@) {
            None => None,
            Some(rest) => Some(
                match id {
                    None => Err(None),
                    Some(id) => if without_suffix(rest, "/markers"@) is Some {
                        if method == "GET"@ {
                            Ok(Action::ListMarkers(Some(id)))
                        } else if method == "POST"@ {
                            Ok(Action::CreateMarker(id))
                        } else {
                            Err(Some("GET, POST"@))
                        }
                    } else {
                        if method == "GET"@ {
                            Ok(Action::Get(id))
                        } else if method == "PUT"@ {
                            Ok(Action::Update(id))
                        } else if method == "DELETE"@ {
                            Ok(Action::Delete(id))
                        } else {
                            Err(Some("GET, PUT, DELETE"@))
                        }
                    },
                },
            ),
        }
    }
}

/// What a resolved action holds.
pub open spec fn resolved_view(r: Option<Result<Action, Option<&'static str>>>) -> Option<
    Result<Action, Option<Seq<char>>>,
> {
    match r {
        None => None,
        Some(Ok(a)) => Some(Ok(a)),
        Some(Err(allow)) => Some(Err(opt_text(allow))),
    }
}

/// [`resolved`].
pub fn resolve(method: &str, path: &str, id: Option<Id>) -> (r: Option<
    Result<Action, Option<&'static str>>,
>)
    ensures
        resolved_view(r) == resolved(method@, path@, id),
{
    if same(path, "/api/collections") {
        return Some(
            if same(method, "GET") {
                Ok(Action::List)
            } else if same(method, "POST") {
                Ok(Action::Create)
            } else {
                Err(Some("GET, POST"))
            },
        );
    }
    if same(path, "/api/markers") {
        return Some(
            if same(method, "GET") {
                Ok(Action::ListMarkers(None))
            } else {
                Err(Some("GET"))
            },
        );
    }
    if strip_prefix(path, "/api/markers/").is_some() {
        return Some(
            match id {
                None => Err(None),
                Some(id) => if same(method, "GET") {
                    Ok(Action::GetMarker(id))
                } else if same(method, "PUT") {
                    Ok(Action::UpdateMarker(id))
                } else if same(method, "DELETE") {
                    Ok(Action::DeleteMarker(id))
                } else {
                    Err(Some("GET, PUT, DELETE"))
                },
            },
        );
    }
    let rest = match strip_prefix(path, "/api/collections/") {
        Some(rest) => rest,
        None => return None,
    };
    let markers = strip_suffix(rest, "/markers").is_some();
    let id = match id {
        Some(id) => id,
        None => return Some(Err(None)),
    };
    Some(
        if markers {
            if same(method, "GET") {
                Ok(Action::ListMarkers(Some(id)))
            } else if same(method, "POST") {
                Ok(Action::CreateMarker(id))
            } else {
                Err(Some("GET, POST"))
            }
        } else {
            if same(method, "GET") {
                Ok(Action::Get(id))
            } else if same(method, "PUT") {
                Ok(Action::Update(id))
            } else if same(method, "DELETE") {
                Ok(Action::Delete(id))
            } else {
                Err(Some("GET, PUT, DELETE"))
            }
        },
    )
}

/// The text in a path that should be an identity.
pub fn path_id(path: &str) -> (r: Option<&str>)
    ensures
        opt_text(r) == path_id_of(path@),
{
    if let Some(rest) = strip_prefix(path, "/api/markers/") {
        return Some(rest);
    }
    match strip_prefix(path, "/api/collections/") {
        None => None,
        Some(rest) => match strip_suffix(rest, "/markers") {
            Some(id) => Some(id),
            None => Some(rest),
        },
    }
}

/// The text in a path that should be an identity.
pub open spec fn path_id_of(path: Seq<char>) -> Option<Seq<char>> {
    match without_prefix(path, "/api/markers/"@) {
        Some(rest) => Some(rest),
        None => match without_prefix(path, "/api/collections/"@) {
            None => None,
            Some(rest) => match without_suffix(rest, "/markers"@) {
                Some(id) => Some(id),
                None => Some(rest),
            },
        },
    }
}

// ---------------------------------------------------------------------------------------------
// The store
// ---------------------------------------------------------------------------------------------

/// What a collection store refuses.
#[derive(Debug)]
pub enum StoreError {
    /// The row is refused.
    Invalid(String),
    /// There is no such row: what it would be.
    NotFound(String),
    /// Anything else, in words.
    Other(String),
}

/// What it is answered with.
pub open spec fn repo_fail_of(e: StoreError) -> FailV {
    match e {
        StoreError::Invalid(m) => invalid_v(m@),
        StoreError::NotFound(kind) => fail_v(404, "not_found"@, "no such "@ + kind@),
        StoreError::Other(m) => fail_v(500, "failed"@, "collection store: "@ + m@),
    }
}

/// [`repo_fail_of`].
pub fn repo_fail(e: StoreError) -> (r: Fail)
    ensures
        r@ == repo_fail_of(e),
{
    match e {
        StoreError::Invalid(m) => Fail::new(400, "invalid", m),
        StoreError::NotFound(kind) => {
            let m = String::from_str("no such ").concat(kind.as_str());
            Fail::new(404, "not_found", m)
        },
        StoreError::Other(m) => {
            let m = String::from_str("collection store: ").concat(m.as_str());
            Fail::new(500, "failed", m)
        },
    }
}

/// A read of the store, its error answered.
pub open spec fn read_of<T>(r: Result<T, StoreError>) -> Result<T, FailV> {
    match r {
        Ok(x) => Ok(x),
        Err(e) => Err(repo_fail_of(e)),
    }
}

/// The store must be there.
pub fn store(present: bool) -> (r: Result<(), Fail>)
    ensures
        outcome(r) == open_of(present, "no collection store on this server"@),
{
    open_store(present, "no collection store on this server")
}

// ---------------------------------------------------------------------------------------------
// Rows
// ---------------------------------------------------------------------------------------------

/// A collection.
#[derive(Debug)]
pub struct Collection {
    /// Its identity, as text.
    pub id: String,
    /// Its name.
    pub name: String,
    /// A note.
    pub note: Option<String>,
    /// Its colour.
    pub color: Option<String>,
    /// It is shown.
    pub visible: bool,
    /// It is the server's own.
    pub reserved: bool,
    /// When it was created, ns.
    pub created_at: i64,
    /// When it last changed, ns.
    pub updated_at: i64,
}

/// What a [`Collection`] holds.
#[verifier::ext_equal]
pub struct CollectionV {
    /// Its identity, as text.
    pub id: Seq<char>,
    /// Its name.
    pub name: Seq<char>,
    /// A note.
    pub note: Option<Seq<char>>,
    /// Its colour.
    pub color: Option<Seq<char>>,
    /// It is shown.
    pub visible: bool,
    /// It is the server's own.
    pub reserved: bool,
    /// When it was created, ns.
    pub created_at: i64,
    /// When it last changed, ns.
    pub updated_at: i64,
}

impl Collection {
    /// What it holds.
    pub open spec fn view(&self) -> CollectionV {
        CollectionV {
            id: self.id@,
            name: self.name@,
            note: opt_string(self.note),
            color: opt_string(self.color),
            visible: self.visible,
            reserved: self.reserved,
            created_at: self.created_at,
            updated_at: self.updated_at,
        }
    }

    /// Another one that holds the same.
    pub fn copy(&self) -> (r: Collection)
        ensures
            r@ == self@,
    {
        Collection {
            id: self.id.clone(),
            name: self.name.clone(),
            note: copy_text(&self.note),
            color: copy_text(&self.color),
            visible: self.visible,
            reserved: self.reserved,
            created_at: self.created_at,
            updated_at: self.updated_at,
        }
    }
}

/// A collection as the API serves it.
pub open spec fn collection_v(c: CollectionV, members: u64) -> JsonV {
    JsonV::Object(
        no_fields().push(("id"@, text_v(c.id))).push(("name"@, text_v(c.name))).push(
            ("note"@, opt_text_v(c.note)),
        ).push(("color"@, opt_text_v(c.color))).push(("visible"@, JsonV::Bool(c.visible))).push(
            ("reserved"@, JsonV::Bool(c.reserved)),
        ).push(("member_count"@, uint_v(members as int))).push(
            ("created_s"@, seconds_v(c.created_at)),
        ).push(("updated_s"@, seconds_v(c.updated_at))),
    )
}

/// [`collection_v`].
pub fn collection_json(c: &Collection, member_count: u64) -> (r: Json)
    ensures
        r.view() == collection_v(c@, member_count),
{
    let mut f = Fields::new();
    f.put("id", Json::text(c.id.as_str()));
    f.put("name", Json::text(c.name.as_str()));
    f.put("note", Json::opt_text(&c.note));
    f.put("color", Json::opt_text(&c.color));
    f.put("visible", Json::Bool(c.visible));
    f.put("reserved", Json::Bool(c.reserved));
    f.put("member_count", Json::uint(member_count));
    f.put("created_s", Json::seconds(c.created_at));
    f.put("updated_s", Json::seconds(c.updated_at));
    f.object()
}

/// A collection and how many members it has.
#[derive(Debug)]
pub struct CollectionSummary {
    /// The collection.
    pub collection: Collection,
    /// Its members.
    pub member_count: u64,
}

impl ToJson for CollectionSummary {
    open spec fn json_v(self) -> JsonV {
        collection_v(self.collection@, self.member_count)
    }

    fn to_json(&self) -> (r: Json) {
        collection_json(&self.collection, self.member_count)
    }
}

/// Where and by whom a marker was placed.
#[derive(Debug)]
pub struct Provenance {
    /// The front end that the view named.
    pub device_id: Option<String>,
    /// The view's centre, Hz.
    pub center_hz: Option<Real>,
    /// The view's span, Hz.
    pub span_hz: Option<Real>,
    /// The front end's rate, Hz.
    pub sample_rate_hz: Option<Real>,
    /// The view's window on the capture clock, ns.
    pub t_capture: Option<(i64, i64)>,
    /// The tier that the view was on.
    pub tier: Option<Tier>,
    /// When it was placed, ns of the wall clock.
    pub authored_at: i64,
    /// The fingerprint of the token it was placed under.
    pub actor: Option<String>,
}

/// What a [`Provenance`] holds.
#[verifier::ext_equal]
pub struct ProvenanceV {
    /// The front end that the view named.
    pub device_id: Option<Seq<char>>,
    /// The view's centre, Hz.
    pub center_hz: Option<Real>,
    /// The view's span, Hz.
    pub span_hz: Option<Real>,
    /// The front end's rate, Hz.
    pub sample_rate_hz: Option<Real>,
    /// The view's window, ns.
    pub t_capture: Option<(i64, i64)>,
    /// The tier.
    pub tier: Option<Tier>,
    /// When it was placed, ns.
    pub authored_at: i64,
    /// The fingerprint of the token.
    pub actor: Option<Seq<char>>,
}

impl Provenance {
    /// What it holds.
    pub open spec fn view(&self) -> ProvenanceV {
        ProvenanceV {
            device_id: opt_string(self.device_id),
            center_hz: self.center_hz,
            span_hz: self.span_hz,
            sample_rate_hz: self.sample_rate_hz,
            t_capture: self.t_capture,
            tier: self.tier,
            authored_at: self.authored_at,
            actor: opt_string(self.actor),
        }
    }

    /// Another one that holds the same.
    pub fn copy(&self) -> (r: Provenance)
        ensures
            r@ == self@,
    {
        Provenance {
            device_id: copy_text(&self.device_id),
            center_hz: self.center_hz,
            span_hz: self.span_hz,
            sample_rate_hz: self.sample_rate_hz,
            t_capture: self.t_capture,
            tier: self.tier,
            authored_at: self.authored_at,
            actor: copy_text(&self.actor),
        }
    }
}

/// A marker.
#[derive(Debug)]
pub struct Marker {
    /// Its identity, as text.
    pub id: String,
    /// The collection that it is in, as text.
    pub collection_id: String,
    /// Its name.
    pub name: String,
    /// A note.
    pub note: Option<String>,
    /// Its centre, Hz.
    pub f_center_hz: Real,
    /// Its width, Hz.
    pub bandwidth_hz: Option<Real>,
    /// Its middle, ns.
    pub t_center: Option<i64>,
    /// Its length, s.
    pub duration_s: Option<Real>,
    /// Where it was placed.
    pub provenance: Provenance,
    /// When it was created, ns.
    pub created_at: i64,
    /// When it last changed, ns.
    pub updated_at: i64,
}

/// What a [`Marker`] holds.
#[verifier::ext_equal]
pub struct MarkerV {
    /// Its identity, as text.
    pub id: Seq<char>,
    /// The collection that it is in, as text.
    pub collection_id: Seq<char>,
    /// Its name.
    pub name: Seq<char>,
    /// A note.
    pub note: Option<Seq<char>>,
    /// Its centre, Hz.
    pub f_center_hz: Real,
    /// Its width, Hz.
    pub bandwidth_hz: Option<Real>,
    /// Its middle, ns.
    pub t_center: Option<i64>,
    /// Its length, s.
    pub duration_s: Option<Real>,
    /// Where it was placed.
    pub provenance: ProvenanceV,
    /// When it was created, ns.
    pub created_at: i64,
    /// When it last changed, ns.
    pub updated_at: i64,
}

impl Marker {
    /// What it holds.
    pub open spec fn view(&self) -> MarkerV {
        MarkerV {
            id: self.id@,
            collection_id: self.collection_id@,
            name: self.name@,
            note: opt_string(self.note),
            f_center_hz: self.f_center_hz,
            bandwidth_hz: self.bandwidth_hz,
            t_center: self.t_center,
            duration_s: self.duration_s,
            provenance: self.provenance@,
            created_at: self.created_at,
            updated_at: self.updated_at,
        }
    }

    /// Another one that holds the same.
    pub fn copy(&self) -> (r: Marker)
        ensures
            r@ == self@,
    {
        Marker {
            id: self.id.clone(),
            collection_id: self.collection_id.clone(),
            name: self.name.clone(),
            note: copy_text(&self.note),
            f_center_hz: self.f_center_hz,
            bandwidth_hz: self.bandwidth_hz,
            t_center: self.t_center,
            duration_s: self.duration_s,
            provenance: self.provenance.copy(),
            created_at: self.created_at,
            updated_at: self.updated_at,
        }
    }
}

/// The edges and the extent of a marker, so that a client never derives a span from two fields.
#[derive(Clone, Copy, Debug, PartialEq, Eq)]
pub struct Extent {
    /// The lower edge, Hz.
    pub f_lo_hz: Real,
    /// The upper edge, Hz.
    pub f_hi_hz: Real,
    /// The interval, ns.
    pub time: Option<(i64, i64)>,
}

/// An optional time in seconds.
pub open spec fn opt_seconds_v(t: Option<i64>) -> JsonV {
    match t {
        Some(ns) => seconds_v(ns),
        None => JsonV::Null,
    }
}

fn opt_seconds(t: Option<i64>) -> (r: Json)
    ensures
        r.view() == opt_seconds_v(t),
{
    match t {
        Some(ns) => Json::seconds(ns),
        None => Json::Null,
    }
}

/// The first of an optional pair.
pub open spec fn first_of(t: Option<(i64, i64)>) -> Option<i64> {
    match t {
        Some(p) => Some(p.0),
        None => None,
    }
}

/// The second of an optional pair.
pub open spec fn second_of(t: Option<(i64, i64)>) -> Option<i64> {
    match t {
        Some(p) => Some(p.1),
        None => None,
    }
}

/// A provenance as the API serves it.
pub open spec fn provenance_v(p: ProvenanceV) -> JsonV {
    JsonV::Object(
        no_fields().push(("device_id"@, opt_text_v(p.device_id))).push(
            ("center_hz"@, opt_real_v(p.center_hz)),
        ).push(("span_hz"@, opt_real_v(p.span_hz))).push(
            ("sample_rate_hz"@, opt_real_v(p.sample_rate_hz)),
        ).push(
            (
                "t_capture"@,
                match p.t_capture {
                    Some((a, b)) => JsonV::Array(
                        Seq::empty().push(seconds_v(a)).push(seconds_v(b)),
                    ),
                    None => JsonV::Null,
                },
            ),
        ).push(
            (
                "tier"@,
                match p.tier {
                    Some(t) => text_v(t.wire()),
                    None => JsonV::Null,
                },
            ),
        ).push(("authored_s"@, seconds_v(p.authored_at))).push(
            ("actor"@, opt_text_v(p.actor)),
        ).push(("authored"@, JsonV::Bool(true))),
    )
}

fn provenance_json(p: &Provenance) -> (r: Json)
    ensures
        r.view() == provenance_v(p@),
{
    let mut f = Fields::new();
    f.put("device_id", Json::opt_text(&p.device_id));
    f.put("center_hz", Json::opt_double(p.center_hz));
    f.put("span_hz", Json::opt_double(p.span_hz));
    f.put("sample_rate_hz", Json::opt_double(p.sample_rate_hz));
    f.put(
        "t_capture",
        match p.t_capture {
            Some((a, b)) => {
                let mut t = Items::new();
                t.push(Json::seconds(a));
                t.push(Json::seconds(b));
                t.array()
            },
            None => Json::Null,
        },
    );
    f.put(
        "tier",
        match p.tier {
            Some(t) => Json::text(t.as_str()),
            None => Json::Null,
        },
    );
    f.put("authored_s", Json::seconds(p.authored_at));
    f.put("actor", Json::opt_text(&p.actor));
    f.put("authored", Json::Bool(true));
    f.object()
}

/// A marker as the API serves it.
pub open spec fn marker_v(m: MarkerV, e: Extent) -> JsonV {
    JsonV::Object(
        no_fields().push(("id"@, text_v(m.id))).push(
            ("collection_id"@, text_v(m.collection_id)),
        ).push(("name"@, text_v(m.name))).push(("note"@, opt_text_v(m.note))).push(
            ("f_center_hz"@, real_v(m.f_center_hz)),
        ).push(("bandwidth_hz"@, opt_real_v(m.bandwidth_hz))).push(
            ("f_lo_hz"@, real_v(e.f_lo_hz)),
        ).push(("f_hi_hz"@, real_v(e.f_hi_hz))).push(
            ("t_center_s"@, opt_seconds_v(m.t_center)),
        ).push(("duration_s"@, opt_real_v(m.duration_s))).push(
            ("t_start_s"@, opt_seconds_v(first_of(e.time))),
        ).push(("t_end_s"@, opt_seconds_v(second_of(e.time)))).push(
            ("provenance"@, provenance_v(m.provenance)),
        ).push(("created_s"@, seconds_v(m.created_at))).push(
            ("updated_s"@, seconds_v(m.updated_at)),
        ),
    )
}

/// [`marker_v`].
pub fn marker_json(m: &Marker, e: &Extent) -> (r: Json)
    ensures
        r.view() == marker_v(m@, *e),
{
    let (start, end) = match e.time {
        Some((a, b)) => (Some(a), Some(b)),
        None => (None, None),
    };
    let mut f = Fields::new();
    f.put("id", Json::text(m.id.as_str()));
    f.put("collection_id", Json::text(m.collection_id.as_str()));
    f.put("name", Json::text(m.name.as_str()));
    f.put("note", Json::opt_text(&m.note));
    f.put("f_center_hz", Json::double(m.f_center_hz));
    f.put("bandwidth_hz", Json::opt_double(m.bandwidth_hz));
    f.put("f_lo_hz", Json::double(e.f_lo_hz));
    f.put("f_hi_hz", Json::double(e.f_hi_hz));
    f.put("t_center_s", opt_seconds(m.t_center));
    f.put("duration_s", Json::opt_double(m.duration_s));
    f.put("t_start_s", opt_seconds(start));
    f.put("t_end_s", opt_seconds(end));
    f.put("provenance", provenance_json(&m.provenance));
    f.put("created_s", Json::seconds(m.created_at));
    f.put("updated_s", Json::seconds(m.updated_at));
    f.object()
}

/// A stored marker with its extent.
#[derive(Debug)]
pub struct MarkerRow {
    /// The marker.
    pub marker: Marker,
    /// Its edges and extent.
    pub extent: Extent,
}

impl ToJson for MarkerRow {
    open spec fn json_v(self) -> JsonV {
        marker_v(self.marker@, self.extent)
    }

    fn to_json(&self) -> (r: Json) {
        marker_json(&self.marker, &self.extent)
    }
}

// ---------------------------------------------------------------------------------------------
// Reads
// ---------------------------------------------------------------------------------------------

/// The first parameter of a name that is not empty.
pub open spec fn param_of(q: Seq<(Seq<char>, Seq<char>)>, key: Seq<char>) -> Option<Seq<char>>
    decreases q.len(),
{
    if q.len() == 0 {
        None
    } else if q[0].0 == key && q[0].1.len() > 0 {
        Some(q[0].1)
    } else {
        param_of(q.skip(1), key)
    }
}

/// [`param_of`].
pub fn param<'a>(q: &'a Vec<(String, String)>, key: &str) -> (r: Option<&'a str>)
    ensures
        opt_text(r) == param_of(pairs(q@), key@),
{
    let ghost f = pairs(q@);
    assert(f.skip(0) =~= f);
    let mut i: usize = 0;
    while i < q.len()
        invariant
            f == pairs(q@),
            i <= q@.len(),
            param_of(f, key@) == param_of(f.skip(i as int), key@),
        decreases q@.len() - i,
    {
        let ghost rest = f.skip(i as int);
        assert(rest[0] == f[i as int]);
        assert(rest.skip(1) =~= f.skip(i + 1));
        let v = q[i].1.as_str();
        if same(q[i].0.as_str(), key) && !v.is_empty() {
            return Some(v);
        }
        i += 1;
    }
    None
}

/// Where a page starts and its size.
pub open spec fn paging_of(q: Seq<(Seq<char>, Seq<char>)>) -> Result<(usize, usize), FailV> {
    match page_size(param_of(q, "limit"@), DEFAULT_LIMIT, MAX_LIMIT) {
        Err(f) => Err(f),
        Ok(limit) => match page_start(param_of(q, "cursor"@), MAX_CURSOR) {
            Err(f) => Err(f),
            Ok(offset) => Ok((offset, limit)),
        },
    }
}

/// [`paging_of`].
pub fn paging(q: &Vec<(String, String)>) -> (r: Result<(usize, usize), Fail>)
    ensures
        outcome(r) == paging_of(pairs(q@)),
{
    let limit = match read_size(param(q, "limit"), DEFAULT_LIMIT, MAX_LIMIT) {
        Ok(n) => n,
        Err(f) => return Err(f),
    };
    match read_start(param(q, "cursor"), MAX_CURSOR) {
        Ok(offset) => Ok((offset, limit)),
        Err(f) => Err(f),
    }
}

/// A page is never empty by request and never larger than the largest.
pub proof fn pages_are_bounded(q: Seq<(Seq<char>, Seq<char>)>)
    ensures
        match paging_of(q) {
            Ok((offset, limit)) => 1 <= limit <= MAX_LIMIT && offset <= MAX_CURSOR,
            Err(f) => f.status == 400,
        },
{
    unsigned_is_bounded(param_of(q, "limit"@), MAX_LIMIT);
    unsigned_is_bounded(param_of(q, "cursor"@), MAX_CURSOR);
}

proof fn unsigned_is_bounded(s: Option<Seq<char>>, max: usize)
    ensures
        s matches Some(s) ==> (crate::text::unsigned(s, max as nat) matches Some(n) ==> n <= max),
{
}

/// A finite number among the parameters.
pub open spec fn finite_param(q: Seq<(Seq<char>, Seq<char>)>, key: Seq<char>) -> Result<
    Real,
    FailV,
> {
    match param_of(q, key) {
        Some(v) => match text_real(v) {
            Some(x) => Ok(x),
            None => Err(invalid_v(key + " must be a finite number"@)),
        },
        None => Err(invalid_v(key + " must be a finite number"@)),
    }
}

fn read_finite(q: &Vec<(String, String)>, key: &str) -> (r: Result<Real, Fail>)
    ensures
        outcome(r) == finite_param(pairs(q@), key@),
{
    let x = match param(q, key) {
        Some(v) => parse_real(v),
        None => None,
    };
    match x {
        Some(x) => Ok(x),
        None => {
            let m = String::from_str(key).concat(" must be a finite number");
            Err(Fail::new(400, "invalid", m))
        },
    }
}

/// Two parameters that go together, the second not below the first.
pub open spec fn pair_of(q: Seq<(Seq<char>, Seq<char>)>, a: Seq<char>, b: Seq<char>) -> Result<
    Option<(Real, Real)>,
    FailV,
> {
    match (param_of(q, a), param_of(q, b)) {
        (None, None) => Ok(None),
        (Some(_), Some(_)) => match (finite_param(q, a), finite_param(q, b)) {
            (Err(f), _) => Err(f),
            (_, Err(f)) => Err(f),
            (Ok(lo), Ok(hi)) => if hi.below(lo) {
                Err(invalid_v(b + " must not be below "@ + a))
            } else {
                Ok(Some((lo, hi)))
            },
        },
        _ => Err(invalid_v(a + " and "@ + b + " go together"@)),
    }
}

fn read_pair(q: &Vec<(String, String)>, a: &str, b: &str) -> (r: Result<
    Option<(Real, Real)>,
    Fail,
>)
    ensures
        outcome(r) == pair_of(pairs(q@), a@, b@),
{
    match (param(q, a), param(q, b)) {
        (None, None) => Ok(None),
        (Some(_), Some(_)) => {
            let lo = match read_finite(q, a) {
                Ok(x) => x,
                Err(f) => return Err(f),
            };
            let hi = match read_finite(q, b) {
                Ok(x) => x,
                Err(f) => return Err(f),
            };
            if hi.lt(lo) {
                let m = String::from_str(b).concat(" must not be below ").concat(a);
                return Err(Fail::new(400, "invalid", m));
            }
            Ok(Some((lo, hi)))
        },
        _ => {
            let m = String::from_str(a).concat(" and ").concat(b).concat(" go together");
            Err(Fail::new(400, "invalid", m))
        },
    }
}

/// The part of time and frequency that a list is narrowed to.
#[derive(Clone, Copy, Debug, PartialEq, Eq)]
pub struct MarkerWindow {
    /// The band, Hz.
    pub freq: Option<(Real, Real)>,
    /// The interval, ns.
    pub time: Option<(i64, i64)>,
}

/// The window of a list. `t0_ns` and `t1_ns` are the interval's ends in nanoseconds.
pub open spec fn window_of(q: Seq<(Seq<char>, Seq<char>)>, t0_ns: i64, t1_ns: i64) -> Result<
    MarkerWindow,
    FailV,
> {
    match pair_of(q, "f_lo"@, "f_hi"@) {
        Err(f) => Err(f),
        Ok(freq) => match pair_of(q, "t0"@, "t1"@) {
            Err(f) => Err(f),
            Ok(None) => Ok(MarkerWindow { freq, time: None }),
            Ok(Some((a, b))) => match (
                instant_of("t0"@, a, t0_ns),
                instant_of("t1"@, b, t1_ns),
            ) {
                (Err(f), _) => Err(f),
                (_, Err(f)) => Err(f),
                (Ok(a), Ok(b)) => Ok(MarkerWindow { freq, time: Some((a, b)) }),
            },
        },
    }
}

/// [`window_of`].
pub fn window(q: &Vec<(String, String)>, t0_ns: i64, t1_ns: i64) -> (r: Result<MarkerWindow, Fail>)
    ensures
        outcome(r) == window_of(pairs(q@), t0_ns, t1_ns),
{
    let freq = match read_pair(q, "f_lo", "f_hi") {
        Ok(p) => p,
        Err(f) => return Err(f),
    };
    match read_pair(q, "t0", "t1") {
        Err(f) => Err(f),
        Ok(None) => Ok(MarkerWindow { freq, time: None }),
        Ok(Some((a, b))) => {
            let t0 = match from_secs("t0", a, t0_ns) {
                Ok(t) => t,
                Err(f) => return Err(f),
            };
            match from_secs("t1", b, t1_ns) {
                Ok(t1) => Ok(MarkerWindow { freq, time: Some((t0, t1)) }),
                Err(f) => Err(f),
            }
        },
    }
}

/// What every list ends with.
pub open spec fn page_tail(
    fields: Seq<(Seq<char>, JsonV)>,
    count: nat,
    matched: u64,
    offset: usize,
    limit: usize,
) -> JsonV {
    JsonV::Object(
        fields.push(("count"@, uint_v(count as int))).push(
            ("matched"@, uint_v(matched as int)),
        ).push(("limit"@, uint_v(limit as int))).push(
            ("next_cursor"@, opt_text_v(next_start(offset, count, matched, MAX_CURSOR))),
        ),
    )
}

fn close_page(f: Fields, count: usize, matched: u64, offset: usize, limit: usize) -> (r: Json)
    ensures
        r.view() == page_tail(f@, count as nat, matched, offset, limit),
{
    let mut f = f;
    f.put("count", Json::uint(count as u64));
    f.put("matched", Json::uint(matched));
    f.put("limit", Json::uint(limit as u64));
    f.put("next_cursor", next_cursor(offset, count, matched, MAX_CURSOR));
    f.object()
}

/// A page of collections, or what the store refused.
pub fn collections_page(
    offset: usize,
    limit: usize,
    page: Result<(Vec<CollectionSummary>, u64), StoreError>,
) -> (r: Result<Json, Fail>)
    ensures
        read_result(r) == (match page {
            Err(e) => Err(repo_fail_of(e)),
            Ok((rows, matched)) => Ok(
                page_tail(
                    no_fields().push(("collections"@, JsonV::Array(list_v(rows@)))),
                    rows@.len(),
                    matched,
                    offset,
                    limit,
                ),
            ),
        }),
{
    match page {
        Err(e) => Err(repo_fail(e)),
        Ok((rows, matched)) => {
            let mut f = Fields::new();
            f.put("collections", list(&rows));
            Ok(close_page(f, rows.len(), matched, offset, limit))
        },
    }
}

/// A page of markers, or what the store refused: the collection must be there first.
pub fn markers_page(
    collection: &Option<String>,
    found: Result<(), StoreError>,
    offset: usize,
    limit: usize,
    page: Result<(Vec<MarkerRow>, u64), StoreError>,
) -> (r: Result<Json, Fail>)
    ensures
        read_result(r) == (match (read_of(found), page) {
            (Err(f), _) => Err(f),
            (_, Err(e)) => Err(repo_fail_of(e)),
            (Ok(_), Ok((rows, matched))) => Ok(
                page_tail(
                    no_fields().push(("collection_id"@, opt_text_v(opt_string(*collection)))).push(
                        ("markers"@, JsonV::Array(list_v(rows@))),
                    ),
                    rows@.len(),
                    matched,
                    offset,
                    limit,
                ),
            ),
        }),
{
    match found {
        Ok(_) => {},
        Err(e) => return Err(repo_fail(e)),
    }
    match page {
        Err(e) => Err(repo_fail(e)),
        Ok((rows, matched)) => {
            let mut f = Fields::new();
            f.put("collection_id", Json::opt_text(collection));
            f.put("markers", list(&rows));
            Ok(close_page(f, rows.len(), matched, offset, limit))
        },
    }
}

/// One collection, or what the store refused.
pub fn one_collection(row: Result<Collection, StoreError>, count: Result<u64, StoreError>) -> (r:
    Result<Json, Fail>)
    ensures
        read_result(r) == (match (row, count) {
            (Err(e), _) => Err(repo_fail_of(e)),
            (_, Err(e)) => Err(repo_fail_of(e)),
            (Ok(c), Ok(n)) => Ok(collection_v(c@, n)),
        }),
{
    let c = match row {
        Ok(c) => c,
        Err(e) => return Err(repo_fail(e)),
    };
    match count {
        Ok(n) => Ok(collection_json(&c, n)),
        Err(e) => Err(repo_fail(e)),
    }
}

/// One marker, or what the store refused.
pub fn one_marker(row: Result<MarkerRow, StoreError>) -> (r: Result<Json, Fail>)
    ensures
        read_result(r) == (match row {
            Err(e) => Err(repo_fail_of(e)),
            Ok(m) => Ok(marker_v(m.marker@, m.extent)),
        }),
{
    match row {
        Err(e) => Err(repo_fail(e)),
        Ok(m) => Ok(marker_json(&m.marker, &m.extent)),
    }
}

// ---------------------------------------------------------------------------------------------
// Members of a body
// ---------------------------------------------------------------------------------------------

/// The name that a body sets, trimmed; `null` is the empty one.
pub open spec fn name_of(body: Seq<(Seq<char>, JsonV)>) -> Result<Option<Seq<char>>, FailV> {
    match text_of(body, "name"@) {
        Err(f) => Err(f),
        Ok(None) => Ok(None),
        Ok(Some(None)) => Ok(Some(Seq::empty())),
        Ok(Some(Some(s))) => Ok(Some(trimmed(s))),
    }
}

/// What a read name holds.
pub open spec fn name_result(r: Result<Option<String>, Fail>) -> Result<Option<Seq<char>>, FailV> {
    match r {
        Ok(s) => Ok(opt_string(s)),
        Err(f) => Err(f@),
    }
}

/// [`name_of`].
pub fn name_field(body: &Vec<(String, Json)>) -> (r: Result<Option<String>, Fail>)
    ensures
        name_result(r) == name_of(fields_view(body@)),
{
    match text(body, "name") {
        Err(f) => Err(f),
        Ok(None) => Ok(None),
        Ok(Some(None)) => {
            let s = String::new();
            assert(s@ =~= Seq::empty());
            Ok(Some(s))
        },
        Ok(Some(Some(s))) => Ok(Some(trim(s).to_owned())),
    }
}

/// An optional boolean; `null` is refused.
pub open spec fn boolean_of(body: Seq<(Seq<char>, JsonV)>, key: Seq<char>) -> Result<
    Option<bool>,
    FailV,
> {
    match member(body, key) {
        None => Ok(None),
        Some(JsonV::Bool(b)) => Ok(Some(b)),
        Some(_) => Err(invalid_v(key + " must be true or false"@)),
    }
}

/// [`boolean_of`].
pub fn boolean(body: &Vec<(String, Json)>, key: &str) -> (r: Result<Option<bool>, Fail>)
    ensures
        outcome(r) == boolean_of(fields_view(body@), key@),
{
    match find(body, key) {
        None => Ok(None),
        Some(Json::Bool(b)) => Ok(Some(*b)),
        Some(_) => {
            let m = String::from_str(key).concat(" must be true or false");
            Err(Fail::new(400, "invalid", m))
        },
    }
}

/// The identity that a body supplies: `given` is what its text writes, where it is one.
pub open spec fn supplied_of(body: Seq<(Seq<char>, JsonV)>, given: Option<Seq<char>>) -> Result<
    Option<Seq<char>>,
    FailV,
> {
    match member(body, "id"@) {
        None => Ok(None),
        Some(JsonV::Text(_)) => match given {
            Some(id) => Ok(Some(id)),
            None => Err(invalid_v("id must be a UUID"@)),
        },
        Some(_) => Err(invalid_v("id must be a UUID string"@)),
    }
}

/// [`supplied_of`].
pub fn supplied_id(body: &Vec<(String, Json)>, given: &Option<String>) -> (r: Result<
    Option<String>,
    Fail,
>)
    ensures
        name_result(r) == supplied_of(fields_view(body@), opt_string(*given)),
{
    match find(body, "id") {
        None => Ok(None),
        Some(Json::Text(_)) => match given {
            Some(id) => Ok(Some(id.clone())),
            None => Err(Fail::invalid("id must be a UUID")),
        },
        Some(_) => Err(Fail::invalid("id must be a UUID string")),
    }
}

/// The text that a body sets, or the one that was.
pub open spec fn text_or(
    body: Seq<(Seq<char>, JsonV)>,
    key: Seq<char>,
    was: Option<Seq<char>>,
) -> Result<Option<Seq<char>>, FailV> {
    match text_of(body, key) {
        Err(f) => Err(f),
        Ok(Some(s)) => Ok(s),
        Ok(None) => Ok(was),
    }
}

/// The members that a body sets on a collection: what it does not name stays.
pub open spec fn set_collection(body: Seq<(Seq<char>, JsonV)>, c: CollectionV) -> Result<
    CollectionV,
    FailV,
> {
    match name_of(body) {
        Err(f) => Err(f),
        Ok(name) => match text_or(body, "note"@, c.note) {
            Err(f) => Err(f),
            Ok(note) => match text_or(body, "color"@, c.color) {
                Err(f) => Err(f),
                Ok(color) => match boolean_of(body, "visible"@) {
                    Err(f) => Err(f),
                    Ok(visible) => Ok(
                        CollectionV {
                            name: match name {
                                Some(n) => n,
                                None => c.name,
                            },
                            note,
                            color,
                            visible: match visible {
                                Some(v) => v,
                                None => c.visible,
                            },
                            ..c
                        },
                    ),
                },
            },
        },
    }
}

/// What a collection or its refusal holds.
pub open spec fn collection_result(r: Result<Collection, Fail>) -> Result<CollectionV, FailV> {
    match r {
        Ok(c) => Ok(c@),
        Err(f) => Err(f@),
    }
}

/// [`set_collection`].
pub fn apply_collection(body: &Vec<(String, Json)>, c: Collection) -> (r: Result<Collection, Fail>)
    ensures
        collection_result(r) == set_collection(fields_view(body@), c@),
{
    let mut c = c;
    match name_field(body) {
        Err(f) => return Err(f),
        Ok(None) => {},
        Ok(Some(n)) => {
            c.name = n;
        },
    }
    match text(body, "note") {
        Err(f) => return Err(f),
        Ok(None) => {},
        Ok(Some(n)) => {
            c.note = owned(n);
        },
    }
    match text(body, "color") {
        Err(f) => return Err(f),
        Ok(None) => {},
        Ok(Some(n)) => {
            c.color = owned(n);
        },
    }
    match boolean(body, "visible") {
        Err(f) => return Err(f),
        Ok(None) => {},
        Ok(Some(v)) => {
            c.visible = v;
        },
    }
    Ok(c)
}

/// The number that a body sets, or the one that was.
pub open spec fn nullable_or(
    body: Seq<(Seq<char>, JsonV)>,
    key: Seq<char>,
    was: Option<Real>,
) -> Result<Option<Real>, FailV> {
    match nullable_number_of(body, key) {
        Err(f) => Err(f),
        Ok(Some(x)) => Ok(x),
        Ok(None) => Ok(was),
    }
}

/// The time that a body sets on a marker. Clearing it makes a marker of frequency alone, which
/// has no length either unless the body gives one.
pub open spec fn set_time(
    body: Seq<(Seq<char>, JsonV)>,
    m: MarkerV,
    t_center_ns: i64,
) -> Result<MarkerV, FailV> {
    match nullable_number_of(body, "t_center_s"@) {
        Err(f) => Err(f),
        Ok(None) => Ok(m),
        Ok(Some(None)) => Ok(
            MarkerV {
                t_center: None,
                duration_s: if member(body, "duration_s"@) is None {
                    None
                } else {
                    m.duration_s
                },
                ..m
            },
        ),
        Ok(Some(Some(s))) => match instant_of("t_center_s"@, s, t_center_ns) {
            Err(f) => Err(f),
            Ok(t) => Ok(MarkerV { t_center: Some(t), ..m }),
        },
    }
}

/// The members that a body sets on a marker: what it does not name stays.
pub open spec fn set_marker(
    body: Seq<(Seq<char>, JsonV)>,
    m: MarkerV,
    t_center_ns: i64,
) -> Result<MarkerV, FailV> {
    match name_of(body) {
        Err(f) => Err(f),
        Ok(name) => match text_or(body, "note"@, m.note) {
            Err(f) => Err(f),
            Ok(note) => match number_of(body, "f_center_hz"@) {
                Err(f) => Err(f),
                Ok(f) => match nullable_or(body, "bandwidth_hz"@, m.bandwidth_hz) {
                    Err(f) => Err(f),
                    Ok(bandwidth_hz) => match set_time(
                        body,
                        MarkerV {
                            name: match name {
                                Some(n) => n,
                                None => m.name,
                            },
                            note,
                            f_center_hz: match f {
                                Some(x) => x,
                                None => m.f_center_hz,
                            },
                            bandwidth_hz,
                            ..m
                        },
                        t_center_ns,
                    ) {
                        Err(f) => Err(f),
                        Ok(m) => match nullable_or(body, "duration_s"@, m.duration_s) {
                            Err(f) => Err(f),
                            Ok(duration_s) => Ok(MarkerV { duration_s, ..m }),
                        },
                    },
                },
            },
        },
    }
}

/// What a marker or its refusal holds.
pub open spec fn marker_result(r: Result<Marker, Fail>) -> Result<MarkerV, FailV> {
    match r {
        Ok(m) => Ok(m@),
        Err(f) => Err(f@),
    }
}

/// [`set_marker`].
pub fn apply_marker(body: &Vec<(String, Json)>, m: Marker, t_center_ns: i64) -> (r: Result<
    Marker,
    Fail,
>)
    ensures
        marker_result(r) == set_marker(fields_view(body@), m@, t_center_ns),
{
    let mut m = m;
    match name_field(body) {
        Err(f) => return Err(f),
        Ok(None) => {},
        Ok(Some(n)) => {
            m.name = n;
        },
    }
    match text(body, "note") {
        Err(f) => return Err(f),
        Ok(None) => {},
        Ok(Some(n)) => {
            m.note = owned(n);
        },
    }
    match number(body, "f_center_hz") {
        Err(f) => return Err(f),
        Ok(None) => {},
        Ok(Some(x)) => {
            m.f_center_hz = x;
        },
    }
    match nullable_number(body, "bandwidth_hz") {
        Err(f) => return Err(f),
        Ok(None) => {},
        Ok(Some(x)) => {
            m.bandwidth_hz = x;
        },
    }
    match nullable_number(body, "t_center_s") {
        Err(f) => return Err(f),
        Ok(None) => {},
        Ok(Some(None)) => {
            m.t_center = None;
            if find(body, "duration_s").is_none() {
                m.duration_s = None;
            }
        },
        Ok(Some(Some(s))) => match from_secs("t_center_s", s, t_center_ns) {
            Ok(t) => {
                m.t_center = Some(t);
            },
            Err(f) => return Err(f),
        },
    }
    match nullable_number(body, "duration_s") {
        Err(f) => return Err(f),
        Ok(None) => {},
        Ok(Some(x)) => {
            m.duration_s = x;
        },
    }
    Ok(m)
}

/// A marker whose time is cleared has no length, unless the same body gives one.
pub proof fn a_cleared_time_clears_the_length(
    body: Seq<(Seq<char>, JsonV)>,
    m: MarkerV,
    t_center_ns: i64,
)
    requires
        nullable_number_of(body, "t_center_s"@) == Ok::<Option<Option<Real>>, FailV>(Some(None)),
        nullable_number_of(body, "duration_s"@) == Ok::<Option<Option<Real>>, FailV>(None),
    ensures
        set_marker(body, m, t_center_ns) matches Ok(x) ==> x.t_center is None && x.duration_s
            is None,
{
}

// ---------------------------------------------------------------------------------------------
// Stamping
// ---------------------------------------------------------------------------------------------

/// What only the server stamps.
pub open spec fn server_owned() -> Seq<Seq<char>> {
    seq!["actor"@, "authored_s"@, "authored"@, "sample_rate_hz"@]
}

/// The first member that only the server stamps.
pub open spec fn first_owned(v: Seq<(Seq<char>, JsonV)>) -> Option<Seq<char>>
    decreases v.len(),
{
    if v.len() == 0 {
        None
    } else if server_owned().contains(v[0].0) {
        Some(v[0].0)
    } else {
        first_owned(v.skip(1))
    }
}

fn find_owned(v: &Vec<(String, Json)>) -> (r: Option<&str>)
    ensures
        opt_text(r) == first_owned(fields_view(v@)),
{
    let names = ["actor", "authored_s", "authored", "sample_rate_hz"];
    assert(texts(names@) =~= server_owned());
    let ghost f = fields_view(v@);
    proof {
        fields_view_each(v@);
        assert(f.skip(0) =~= f);
    }
    let mut i: usize = 0;
    while i < v.len()
        invariant
            texts(names@) == server_owned(),
            f == fields_view(v@),
            f.len() == v@.len(),
            forall|k: int| 0 <= k < v@.len() ==> f[k] == ((#[trigger] v@[k]).0@, v@[k].1.view()),
            i <= v@.len(),
            first_owned(f) == first_owned(f.skip(i as int)),
        decreases v@.len() - i,
    {
        let ghost rest = f.skip(i as int);
        assert(rest[0] == f[i as int]);
        assert(rest.skip(1) =~= f.skip(i + 1));
        let k = v[i].0.as_str();
        if one_of(k, &names) {
            return Some(k);
        }
        i += 1;
    }
    None
}

/// A positive number that a view must give.
pub open spec fn positive_of(v: Seq<(Seq<char>, JsonV)>, key: Seq<char>) -> Result<Real, FailV> {
    match required_of(v, key) {
        Err(f) => Err(invalid_v("view."@ + f.message)),
        Ok(x) => if (Real { bits: 0 }).below(x) {
            Ok(x)
        } else {
            Err(invalid_v("view."@ + key + " must be positive"@))
        },
    }
}

fn read_positive(v: &Vec<(String, Json)>, key: &str) -> (r: Result<Real, Fail>)
    ensures
        outcome(r) == positive_of(fields_view(v@), key@),
{
    match required(v, key) {
        Err(f) => {
            let m = String::from_str("view.").concat(f.message.as_str());
            Err(Fail::new(400, "invalid", m))
        },
        Ok(x) => if (Real { bits: 0 }).lt(x) {
            Ok(x)
        } else {
            let m = String::from_str("view.").concat(key).concat(" must be positive");
            Err(Fail::new(400, "invalid", m))
        },
    }
}

/// An instant of a view.
pub open spec fn view_instant(v: JsonV, ns: i64) -> Result<i64, FailV> {
    match as_real(v) {
        Some(s) => instant_of("view.t_capture"@, s, ns),
        None => Err(invalid_v("view.t_capture must be a finite Unix time in seconds"@)),
    }
}

fn read_view_instant(v: &Json, ns: i64) -> (r: Result<i64, Fail>)
    ensures
        outcome(r) == view_instant(v.view(), ns),
{
    match v.as_double() {
        Some(s) => from_secs("view.t_capture", s, ns),
        None => Err(Fail::invalid("view.t_capture must be a finite Unix time in seconds")),
    }
}

/// The window of a view: an instant, or two in order. `start` and `end` are its ends in
/// nanoseconds; an instant is its own end.
pub open spec fn capture_of(v: Option<JsonV>, start: i64, end: i64) -> Result<(i64, i64), FailV> {
    match v {
        Some(JsonV::Number(n)) => match view_instant(JsonV::Number(n), start) {
            Err(f) => Err(f),
            Ok(t) => Ok((t, t)),
        },
        Some(JsonV::Array(a)) => if a.len() == 2 {
            match (view_instant(a[0], start), view_instant(a[1], end)) {
                (Err(f), _) => Err(f),
                (_, Err(f)) => Err(f),
                (Ok(t0), Ok(t1)) => if t1 < t0 {
                    Err(invalid_v("view.t_capture ends before it starts"@))
                } else {
                    Ok((t0, t1))
                },
            }
        } else {
            Err(no_capture())
        },
        _ => Err(no_capture()),
    }
}

/// What a view without a window is refused with.
pub open spec fn no_capture() -> FailV {
    invalid_v(
        "view.t_capture is required: a capture-clock instant or [t0, t1], Unix seconds"@,
    )
}

fn read_capture(v: Option<&Json>, start: i64, end: i64) -> (r: Result<(i64, i64), Fail>)
    ensures
        outcome(r) == capture_of(status_view(v), start, end),
{
    match v {
        Some(x) => {
            if let Json::Number(_) = x {
                return match read_view_instant(x, start) {
                    Ok(t) => Ok((t, t)),
                    Err(f) => Err(f),
                };
            }
            if let Json::Array(a) = x {
                proof {
                    items_view_each(a@);
                }
                if a.len() == 2 {
                    let t0 = match read_view_instant(&a[0], start) {
                        Ok(t) => t,
                        Err(f) => return Err(f),
                    };
                    let t1 = match read_view_instant(&a[1], end) {
                        Ok(t) => t,
                        Err(f) => return Err(f),
                    };
                    if t1 < t0 {
                        return Err(Fail::invalid("view.t_capture ends before it starts"));
                    }
                    return Ok((t0, t1));
                }
            }
        },
        None => {},
    }
    Err(
        Fail::invalid(
            "view.t_capture is required: a capture-clock instant or [t0, t1], Unix seconds",
        ),
    )
}

/// The longest name of a front end.
pub const MAX_DEVICE: usize = 200;

/// The front end that a view names.
pub open spec fn device_of(v: Option<JsonV>) -> Result<Option<Seq<char>>, FailV> {
    match v {
        None => Ok(None),
        Some(JsonV::Null) => Ok(None),
        Some(JsonV::Text(s)) => if s.len() > 0 && s.len() <= MAX_DEVICE {
            Ok(Some(s))
        } else {
            Err(bad_device())
        },
        Some(_) => Err(bad_device()),
    }
}

/// What another front end is refused with.
pub open spec fn bad_device() -> FailV {
    invalid_v("view.device_id must be a non-empty string of at most 200 characters"@)
}

fn read_device(v: Option<&Json>) -> (r: Result<Option<String>, Fail>)
    ensures
        name_result(r) == device_of(status_view(v)),
{
    match v {
        None => Ok(None),
        Some(Json::Null) => Ok(None),
        Some(Json::Text(s)) => {
            let n = chars_of(s.as_str()).len();
            if n > 0 && n <= MAX_DEVICE {
                Ok(Some(s.clone()))
            } else {
                Err(
                    Fail::invalid(
                        "view.device_id must be a non-empty string of at most 200 characters",
                    ),
                )
            }
        },
        Some(_) => Err(
            Fail::invalid("view.device_id must be a non-empty string of at most 200 characters"),
        ),
    }
}

/// The members of a view.
pub open spec fn view_fields() -> Seq<Seq<char>> {
    seq!["center_hz"@, "span_hz"@, "t_capture"@, "tier"@, "device_id"@]
}

/// The tier of a view.
pub open spec fn view_tier(v: Option<JsonV>) -> Result<Tier, FailV> {
    match v {
        Some(JsonV::Text(s)) => match tier_of(s) {
            Some(t) => Ok(t),
            None => Err(
                invalid_v(
                    "view.tier must be \"live-iq\", \"spectrum-history\" or \"survey-overview\""@,
                ),
            ),
        },
        _ => Err(invalid_v("view.tier is required"@)),
    }
}

fn read_tier(v: Option<&Json>) -> (r: Result<Tier, Fail>)
    ensures
        outcome(r) == view_tier(status_view(v)),
{
    match v {
        Some(Json::Text(s)) => match Tier::parse(s.as_str()) {
            Some(t) => Ok(t),
            None => Err(
                Fail::invalid(
                    "view.tier must be \"live-iq\", \"spectrum-history\" or \"survey-overview\"",
                ),
            ),
        },
        _ => Err(Fail::invalid("view.tier is required")),
    }
}

/// The rate of the front end that a view names, where it is a rate.
pub open spec fn usable_rate(rate: Option<Real>) -> Option<Real> {
    match rate {
        Some(r) => if r.finite() && (Real { bits: 0 }).below(r) {
            Some(r)
        } else {
            None
        },
        None => None,
    }
}

/// What the server brings to a stamp.
#[derive(Debug)]
pub struct Context {
    /// The front ends that this run holds.
    pub live: Vec<LiveDevice>,
    /// The start of the view's window, ns.
    pub capture_start: i64,
    /// Its end, ns.
    pub capture_end: i64,
    /// The body's `t_center_s`, ns.
    pub t_center: i64,
    /// The wall clock, ns.
    pub now: i64,
    /// Who acts.
    pub actor: Option<String>,
    /// A new identity.
    pub fresh_id: String,
    /// The identity that the body writes, where it is one.
    pub given_id: Option<String>,
}

/// What a view is stamped into: the caller's context, and what the server knows.
pub open spec fn stamp_of(view: JsonV, c: Context) -> Result<ProvenanceV, FailV> {
    match view {
        JsonV::Object(v) => match first_owned(v) {
            Some(k) => Err(
                invalid_v(
                    "view."@ + k
                        + " is stamped by the server; provenance is evidence, not input"@,
                ),
            ),
            None => match only_of(v, view_fields()) {
                Err(f) => Err(invalid_v("view: "@ + f.message)),
                Ok(_) => match positive_of(v, "center_hz"@) {
                    Err(f) => Err(f),
                    Ok(center_hz) => match positive_of(v, "span_hz"@) {
                        Err(f) => Err(f),
                        Ok(span_hz) => match view_tier(member(v, "tier"@)) {
                            Err(f) => Err(f),
                            Ok(tier) => match capture_of(
                                member(v, "t_capture"@),
                                c.capture_start,
                                c.capture_end,
                            ) {
                                Err(f) => Err(f),
                                Ok(t_capture) => match device_of(member(v, "device_id"@)) {
                                    Err(f) => Err(f),
                                    Ok(device_id) => Ok(
                                        ProvenanceV {
                                            device_id,
                                            center_hz: Some(center_hz),
                                            span_hz: Some(span_hz),
                                            sample_rate_hz: usable_rate(
                                                rate_of(c.live@, device_id),
                                            ),
                                            t_capture: Some(t_capture),
                                            tier: Some(tier),
                                            authored_at: c.now,
                                            actor: opt_string(c.actor),
                                        },
                                    ),
                                },
                            },
                        },
                    },
                },
            },
        },
        _ => Err(
            invalid_v(
                "view must be an object: {center_hz, span_hz, t_capture, tier, device_id?}"@,
            ),
        ),
    }
}

/// What a stamp or its refusal holds.
pub open spec fn stamp_result(r: Result<Provenance, Fail>) -> Result<ProvenanceV, FailV> {
    match r {
        Ok(p) => Ok(p@),
        Err(f) => Err(f@),
    }
}

/// [`stamp_of`].
pub fn stamp(view: &Json, c: &Context) -> (r: Result<Provenance, Fail>)
    ensures
        stamp_result(r) == stamp_of(view.view(), *c),
{
    let v = match view {
        Json::Object(v) => v,
        _ => {
            return Err(
                Fail::invalid(
                    "view must be an object: {center_hz, span_hz, t_capture, tier, device_id?}",
                ),
            );
        },
    };
    if let Some(k) = find_owned(v) {
        let m = String::from_str("view.").concat(k).concat(
            " is stamped by the server; provenance is evidence, not input",
        );
        return Err(Fail::new(400, "invalid", m));
    }
    let allowed = ["center_hz", "span_hz", "t_capture", "tier", "device_id"];
    assert(texts(allowed@) =~= view_fields());
    match only(v, &allowed) {
        Ok(_) => {},
        Err(f) => {
            let m = String::from_str("view: ").concat(f.message.as_str());
            return Err(Fail::new(400, "invalid", m));
        },
    }
    let center_hz = match read_positive(v, "center_hz") {
        Ok(x) => x,
        Err(f) => return Err(f),
    };
    let span_hz = match read_positive(v, "span_hz") {
        Ok(x) => x,
        Err(f) => return Err(f),
    };
    let tier = match read_tier(find(v, "tier")) {
        Ok(t) => t,
        Err(f) => return Err(f),
    };
    let t_capture = match read_capture(find(v, "t_capture"), c.capture_start, c.capture_end) {
        Ok(t) => t,
        Err(f) => return Err(f),
    };
    let device_id = match read_device(find(v, "device_id")) {
        Ok(d) => d,
        Err(f) => return Err(f),
    };
    let sample_rate_hz = match find_rate(&c.live, &device_id) {
        Some(r) => if r.is_finite() && (Real { bits: 0 }).lt(r) {
            Some(r)
        } else {
            None
        },
        None => None,
    };
    Ok(
        Provenance {
            device_id,
            center_hz: Some(center_hz),
            span_hz: Some(span_hz),
            sample_rate_hz,
            t_capture: Some(t_capture),
            tier: Some(tier),
            authored_at: c.now,
            actor: copy_text(&c.actor),
        },
    )
}

/// Every stamp is complete and the server's: the window runs forward, the numbers are positive,
/// and who acted and when is what the server says. A rate is stamped only for a front end that the
/// view names and this run holds, never guessed.
pub proof fn stamps_are_evidence(view: JsonV, c: Context)
    ensures
        match stamp_of(view, c) {
            Ok(p) => p.center_hz is Some && p.span_hz is Some && p.tier is Some && p.t_capture
                is Some && first_of(p.t_capture)->0 <= second_of(p.t_capture)->0 && p.authored_at == c.now
                && p.actor == opt_string(c.actor) && (Real { bits: 0 }).below(p.center_hz->0)
                && (Real { bits: 0 }).below(p.span_hz->0) && p.sample_rate_hz == usable_rate(
                rate_of(c.live@, p.device_id),
            ) && (p.device_id is None ==> p.sample_rate_hz is None),
            Err(f) => f.status == 400,
        },
{
}

// ---------------------------------------------------------------------------------------------
// Changes
// ---------------------------------------------------------------------------------------------

/// A created row.
pub open spec fn created_v(v: JsonV) -> AppliedV {
    AppliedV { status: 201, body: v, old: JsonV::Null, new: v }
}

/// [`created_v`].
pub fn created(v: Json) -> (r: Applied)
    ensures
        r@ == created_v(v.view()),
{
    let new = v.copy();
    Applied { status: 201, body: v, old: Json::Null, new }
}

/// The collection that a body creates, from a fresh one.
pub open spec fn new_collection_of(
    body: Seq<(Seq<char>, JsonV)>,
    given: Option<Seq<char>>,
    fresh: CollectionV,
) -> Result<CollectionV, FailV> {
    match only_of(body, seq!["id"@, "name"@, "note"@, "color"@, "visible"@]) {
        Err(f) => Err(f),
        Ok(_) => match supplied_of(body, given) {
            Err(f) => Err(f),
            Ok(id) => match name_of(body) {
                Err(f) => Err(f),
                Ok(None) => Err(invalid_v("name is required"@)),
                Ok(Some(_)) => set_collection(
                    body,
                    CollectionV {
                        id: match id {
                            Some(id) => id,
                            None => fresh.id,
                        },
                        ..fresh
                    },
                ),
            },
        },
    }
}

/// [`new_collection_of`].
pub fn plan_create(body: &Vec<(String, Json)>, given: &Option<String>, fresh: Collection) -> (r:
    Result<Collection, Fail>)
    ensures
        collection_result(r) == new_collection_of(
            fields_view(body@),
            opt_string(*given),
            fresh@,
        ),
{
    let allowed = ["id", "name", "note", "color", "visible"];
    assert(texts(allowed@) =~= seq!["id"@, "name"@, "note"@, "color"@, "visible"@]);
    match only(body, &allowed) {
        Ok(_) => {},
        Err(f) => return Err(f),
    }
    let id = match supplied_id(body, given) {
        Ok(id) => id,
        Err(f) => return Err(f),
    };
    match name_field(body) {
        Err(f) => return Err(f),
        Ok(None) => return Err(Fail::invalid("name is required")),
        Ok(Some(_)) => {},
    }
    let mut c = fresh;
    if let Some(id) = id {
        c.id = id;
    }
    apply_collection(body, c)
}

/// What becomes of a new row: it is checked, then must not be there yet, then is stored.
pub open spec fn stored_of(
    what: Seq<char>,
    id: Seq<char>,
    valid: Result<(), StoreError>,
    store: bool,
    exists: bool,
    inserted: Result<(), StoreError>,
) -> Result<(), FailV> {
    match read_of(valid) {
        Err(f) => Err(f),
        Ok(_) => match open_of(store, "no collection store on this server"@) {
            Err(f) => Err(f),
            Ok(_) => if exists {
                Err(
                    fail_v(
                        409,
                        "conflict"@,
                        what + " "@ + id + " already exists; update it instead"@,
                    ),
                )
            } else {
                read_of(inserted)
            },
        },
    }
}

/// A row that is not inserted is refused, whatever an insertion would give, and no row that is
/// there is written over: one is created exactly where it was inserted and the store took it.
pub proof fn created_rows_were_inserted(
    what: Seq<char>,
    id: Seq<char>,
    valid: Result<(), StoreError>,
    store: bool,
    exists: bool,
    inserted: Result<(), StoreError>,
    other: Result<(), StoreError>,
)
    ensures
        stored_of(what, id, valid, store, exists, inserted) is Ok <==> create_step(
            valid is Ok,
            store,
            Some(exists),
        ) is Insert && inserted is Ok,
        create_step(valid is Ok, store, Some(exists)) is Answer ==> stored_of(
            what,
            id,
            valid,
            store,
            exists,
            inserted,
        ) == stored_of(what, id, valid, store, exists, other),
        create_step(valid is Ok, store, None) is Answer ==> stored_of(
            what,
            id,
            valid,
            store,
            exists,
            inserted,
        ) == stored_of(what, id, valid, store, !exists, other),
{
}

fn keep(
    what: &str,
    id: &str,
    valid: Result<(), StoreError>,
    present: bool,
    exists: bool,
    inserted: Result<(), StoreError>,
) -> (r: Result<(), Fail>)
    ensures
        outcome(r) == stored_of(what@, id@, valid, present, exists, inserted),
{
    match valid {
        Ok(_) => {},
        Err(e) => return Err(repo_fail(e)),
    }
    match store(present) {
        Ok(_) => {},
        Err(f) => return Err(f),
    }
    if exists {
        let m = String::from_str(what).concat(" ").concat(id).concat(
            " already exists; update it instead",
        );
        return Err(Fail::new(409, "conflict", m));
    }
    match inserted {
        Ok(_) => Ok(()),
        Err(e) => Err(repo_fail(e)),
    }
}

/// What a new collection is answered with.
pub fn collection_created(
    c: &Collection,
    valid: Result<(), StoreError>,
    present: bool,
    exists: bool,
    inserted: Result<(), StoreError>,
) -> (r: Result<Applied, Fail>)
    ensures
        applied_result(r) == (match stored_of(
            "collection"@,
            c@.id,
            valid,
            present,
            exists,
            inserted,
        ) {
            Err(f) => Err(f),
            Ok(_) => Ok(created_v(collection_v(c@, 0))),
        }),
{
    match keep("collection", c.id.as_str(), valid, present, exists, inserted) {
        Err(f) => Err(f),
        Ok(_) => Ok(created(collection_json(c, 0))),
    }
}

/// What a body makes of a stored collection.
pub open spec fn changed_collection_of(
    body: Seq<(Seq<char>, JsonV)>,
    store: bool,
    row: Result<CollectionV, FailV>,
    count: Result<u64, FailV>,
    now: i64,
) -> Result<CollectionV, FailV> {
    match only_of(body, seq!["name"@, "note"@, "color"@, "visible"@]) {
        Err(f) => Err(f),
        Ok(_) => match open_of(store, "no collection store on this server"@) {
            Err(f) => Err(f),
            Ok(_) => match row {
                Err(f) => Err(f),
                Ok(row) => match count {
                    Err(f) => Err(f),
                    Ok(_) => match set_collection(body, row) {
                        Err(f) => Err(f),
                        Ok(next) => Ok(
                            CollectionV { updated_at: later(now, row.created_at), ..next },
                        ),
                    },
                },
            },
        },
    }
}

/// What a stored collection is, its error answered.
pub open spec fn collection_row(r: Result<Collection, StoreError>) -> Result<CollectionV, FailV> {
    match r {
        Ok(c) => Ok(c@),
        Err(e) => Err(repo_fail_of(e)),
    }
}

/// [`changed_collection_of`].
pub fn plan_update(
    body: &Vec<(String, Json)>,
    present: bool,
    row: Result<Collection, StoreError>,
    count: Result<u64, StoreError>,
    now: i64,
) -> (r: Result<Collection, Fail>)
    ensures
        collection_result(r) == changed_collection_of(
            fields_view(body@),
            present,
            collection_row(row),
            read_of(count),
            now,
        ),
{
    let allowed = ["name", "note", "color", "visible"];
    assert(texts(allowed@) =~= seq!["name"@, "note"@, "color"@, "visible"@]);
    match only(body, &allowed) {
        Ok(_) => {},
        Err(f) => return Err(f),
    }
    match store(present) {
        Ok(_) => {},
        Err(f) => return Err(f),
    }
    let row = match row {
        Ok(c) => c,
        Err(e) => return Err(repo_fail(e)),
    };
    match count {
        Ok(_) => {},
        Err(e) => return Err(repo_fail(e)),
    }
    let created_at = row.created_at;
    let mut next = match apply_collection(body, row) {
        Ok(c) => c,
        Err(f) => return Err(f),
    };
    next.updated_at = if now >= created_at {
        now
    } else {
        created_at
    };
    Ok(next)
}

/// What a changed collection is answered with.
pub fn collection_updated(before: &Collection, saved: Result<Collection, StoreError>, count: u64)
    -> (r: Result<Applied, Fail>)
    ensures
        applied_result(r) == (match collection_row(saved) {
            Err(f) => Err(f),
            Ok(c) => Ok(
                ok_v(collection_v(c, count), collection_v(before@, count), collection_v(c, count)),
            ),
        }),
{
    match saved {
        Err(e) => Err(repo_fail(e)),
        Ok(c) => Ok(
            ok(
                collection_json(&c, count),
                collection_json(before, count),
                collection_json(&c, count),
            ),
        ),
    }
}

/// What a deleted collection is answered with: its members go with it.
pub fn collection_deleted(
    body: &Vec<(String, Json)>,
    present: bool,
    row: Result<(Collection, u64), StoreError>,
) -> (r: Result<Applied, Fail>)
    ensures
        applied_result(r) == (match only_of(fields_view(body@), Seq::empty()) {
            Err(f) => Err(f),
            Ok(_) => match open_of(present, "no collection store on this server"@) {
                Err(f) => Err(f),
                Ok(_) => match row {
                    Err(e) => Err(repo_fail_of(e)),
                    Ok((c, n)) => Ok(
                        ok_v(
                            JsonV::Object(
                                no_fields().push(("deleted"@, collection_v(c@, n))).push(
                                    ("members_deleted"@, uint_v(n as int)),
                                ),
                            ),
                            collection_v(c@, n),
                            JsonV::Null,
                        ),
                    ),
                },
            },
        }),
{
    match refuse_fields(body) {
        Ok(_) => {},
        Err(f) => return Err(f),
    }
    match store(present) {
        Ok(_) => {},
        Err(f) => return Err(f),
    }
    match row {
        Err(e) => Err(repo_fail(e)),
        Ok((c, n)) => {
            let mut f = Fields::new();
            f.put("deleted", collection_json(&c, n));
            f.put("members_deleted", Json::uint(n));
            Ok(ok(f.object(), collection_json(&c, n), Json::Null))
        },
    }
}

/// The members of a new marker.
pub open spec fn marker_create_fields() -> Seq<Seq<char>> {
    seq![
        "id"@,
        "name"@,
        "note"@,
        "f_center_hz"@,
        "bandwidth_hz"@,
        "t_center_s"@,
        "duration_s"@,
        "view"@,
    ]
}

/// The members of a change to a marker.
pub open spec fn marker_update_fields() -> Seq<Seq<char>> {
    seq![
        "name"@,
        "note"@,
        "f_center_hz"@,
        "bandwidth_hz"@,
        "t_center_s"@,
        "duration_s"@,
        "view"@,
    ]
}

/// A new marker before its body is applied.
pub open spec fn fresh_marker(
    id: Seq<char>,
    collection_id: Seq<char>,
    f: Real,
    provenance: ProvenanceV,
    now: i64,
) -> MarkerV {
    MarkerV {
        id,
        collection_id,
        name: Seq::empty(),
        note: None,
        f_center_hz: f,
        bandwidth_hz: None,
        t_center: None,
        duration_s: None,
        provenance,
        created_at: now,
        updated_at: now,
    }
}

/// The marker that a body creates in a collection.
pub open spec fn new_marker_of(
    body: Seq<(Seq<char>, JsonV)>,
    collection_id: Seq<char>,
    c: Context,
) -> Result<MarkerV, FailV> {
    match only_of(body, marker_create_fields()) {
        Err(f) => Err(f),
        Ok(_) => match supplied_of(body, opt_string(c.given_id)) {
            Err(f) => Err(f),
            Ok(id) => match name_of(body) {
                Err(f) => Err(f),
                Ok(None) => Err(invalid_v("name is required"@)),
                Ok(Some(_)) => match required_of(body, "f_center_hz"@) {
                    Err(f) => Err(f),
                    Ok(f) => match member(body, "view"@) {
                        None => Err(
                            invalid_v("view is required: the pane the marker was placed on"@),
                        ),
                        Some(view) => match stamp_of(view, c) {
                            Err(f) => Err(f),
                            Ok(p) => set_marker(
                                body,
                                fresh_marker(
                                    match id {
                                        Some(id) => id,
                                        None => c.fresh_id@,
                                    },
                                    collection_id,
                                    f,
                                    p,
                                    c.now,
                                ),
                                c.t_center,
                            ),
                        },
                    },
                },
            },
        },
    }
}

/// [`new_marker_of`].
pub fn plan_create_marker(body: &Vec<(String, Json)>, collection_id: &str, c: &Context) -> (r:
    Result<Marker, Fail>)
    ensures
        marker_result(r) == new_marker_of(fields_view(body@), collection_id@, *c),
{
    let allowed = [
        "id",
        "name",
        "note",
        "f_center_hz",
        "bandwidth_hz",
        "t_center_s",
        "duration_s",
        "view",
    ];
    assert(texts(allowed@) =~= marker_create_fields());
    match only(body, &allowed) {
        Ok(_) => {},
        Err(f) => return Err(f),
    }
    let id = match supplied_id(body, &c.given_id) {
        Ok(id) => id,
        Err(f) => return Err(f),
    };
    match name_field(body) {
        Err(f) => return Err(f),
        Ok(None) => return Err(Fail::invalid("name is required")),
        Ok(Some(_)) => {},
    }
    let f_center_hz = match required(body, "f_center_hz") {
        Ok(x) => x,
        Err(f) => return Err(f),
    };
    let view = match find(body, "view") {
        Some(v) => v,
        None => {
            return Err(Fail::invalid("view is required: the pane the marker was placed on"));
        },
    };
    let provenance = match stamp(view, c) {
        Ok(p) => p,
        Err(f) => return Err(f),
    };
    let name = String::new();
    assert(name@ =~= Seq::empty());
    let m = Marker {
        id: match id {
            Some(id) => id,
            None => c.fresh_id.clone(),
        },
        collection_id: collection_id.to_owned(),
        name,
        note: None,
        f_center_hz,
        bandwidth_hz: None,
        t_center: None,
        duration_s: None,
        provenance,
        created_at: c.now,
        updated_at: c.now,
    };
    apply_marker(body, m, c.t_center)
}

/// What a new marker is answered with.
pub fn marker_created(
    m: &MarkerRow,
    valid: Result<(), StoreError>,
    present: bool,
    exists: bool,
    inserted: Result<(), StoreError>,
) -> (r: Result<Applied, Fail>)
    ensures
        applied_result(r) == (match stored_of(
            "marker"@,
            m.marker@.id,
            valid,
            present,
            exists,
            inserted,
        ) {
            Err(f) => Err(f),
            Ok(_) => Ok(created_v(marker_v(m.marker@, m.extent))),
        }),
{
    match keep("marker", m.marker.id.as_str(), valid, present, exists, inserted) {
        Err(f) => Err(f),
        Ok(_) => Ok(created(marker_json(&m.marker, &m.extent))),
    }
}

/// The stamp of a change: none where the body has no view.
pub open spec fn restamp_of(body: Seq<(Seq<char>, JsonV)>, c: Context) -> Result<
    Option<ProvenanceV>,
    FailV,
> {
    match member(body, "view"@) {
        None => Ok(None),
        Some(v) => match stamp_of(v, c) {
            Ok(p) => Ok(Some(p)),
            Err(f) => Err(f),
        },
    }
}

/// What a body makes of a stored marker: a new view stamps it again, no view keeps the stamp.
pub open spec fn changed_marker_of(
    body: Seq<(Seq<char>, JsonV)>,
    c: Context,
    store: bool,
    row: Result<MarkerV, FailV>,
) -> Result<MarkerV, FailV> {
    match only_of(body, marker_update_fields()) {
        Err(f) => Err(f),
        Ok(_) => match restamp_of(body, c) {
            Err(f) => Err(f),
            Ok(stamp) => match open_of(store, "no collection store on this server"@) {
                Err(f) => Err(f),
                Ok(_) => match row {
                    Err(f) => Err(f),
                    Ok(row) => match set_marker(body, row, c.t_center) {
                        Err(f) => Err(f),
                        Ok(next) => Ok(
                            MarkerV {
                                provenance: match stamp {
                                    Some(p) => p,
                                    None => row.provenance,
                                },
                                updated_at: later(c.now, row.created_at),
                                ..next
                            },
                        ),
                    },
                },
            },
        },
    }
}

/// What a stored marker is, its error answered.
pub open spec fn marker_row(r: Result<Marker, StoreError>) -> Result<MarkerV, FailV> {
    match r {
        Ok(m) => Ok(m@),
        Err(e) => Err(repo_fail_of(e)),
    }
}

/// [`changed_marker_of`].
pub fn plan_update_marker(
    body: &Vec<(String, Json)>,
    c: &Context,
    present: bool,
    row: Result<Marker, StoreError>,
) -> (r: Result<Marker, Fail>)
    ensures
        marker_result(r) == changed_marker_of(fields_view(body@), *c, present, marker_row(row)),
{
    let allowed = [
        "name",
        "note",
        "f_center_hz",
        "bandwidth_hz",
        "t_center_s",
        "duration_s",
        "view",
    ];
    assert(texts(allowed@) =~= marker_update_fields());
    match only(body, &allowed) {
        Ok(_) => {},
        Err(f) => return Err(f),
    }
    let restamp = match find(body, "view") {
        None => None,
        Some(v) => match stamp(v, c) {
            Ok(p) => Some(p),
            Err(f) => return Err(f),
        },
    };
    match store(present) {
        Ok(_) => {},
        Err(f) => return Err(f),
    }
    let row = match row {
        Ok(m) => m,
        Err(e) => return Err(repo_fail(e)),
    };
    let created_at = row.created_at;
    let mut next = match apply_marker(body, row, c.t_center) {
        Ok(m) => m,
        Err(f) => return Err(f),
    };
    if let Some(p) = restamp {
        next.provenance = p;
    }
    next.updated_at = if c.now >= created_at {
        c.now
    } else {
        created_at
    };
    Ok(next)
}

/// What a changed marker is answered with.
pub fn marker_updated(before: &MarkerRow, saved: Result<MarkerRow, StoreError>) -> (r: Result<
    Applied,
    Fail,
>)
    ensures
        applied_result(r) == (match saved {
            Err(e) => Err(repo_fail_of(e)),
            Ok(m) => Ok(
                ok_v(
                    marker_v(m.marker@, m.extent),
                    marker_v(before.marker@, before.extent),
                    marker_v(m.marker@, m.extent),
                ),
            ),
        }),
{
    match saved {
        Err(e) => Err(repo_fail(e)),
        Ok(m) => Ok(
            ok(
                marker_json(&m.marker, &m.extent),
                marker_json(&before.marker, &before.extent),
                marker_json(&m.marker, &m.extent),
            ),
        ),
    }
}

/// What a deleted marker is answered with.
pub fn marker_deleted(
    body: &Vec<(String, Json)>,
    present: bool,
    row: Result<MarkerRow, StoreError>,
) -> (r: Result<Applied, Fail>)
    ensures
        applied_result(r) == (match only_of(fields_view(body@), Seq::empty()) {
            Err(f) => Err(f),
            Ok(_) => match open_of(present, "no collection store on this server"@) {
                Err(f) => Err(f),
                Ok(_) => match row {
                    Err(e) => Err(repo_fail_of(e)),
                    Ok(m) => Ok(
                        ok_v(
                            JsonV::Object(
                                no_fields().push(("deleted"@, marker_v(m.marker@, m.extent))),
                            ),
                            marker_v(m.marker@, m.extent),
                            JsonV::Null,
                        ),
                    ),
                },
            },
        }),
{
    match refuse_fields(body) {
        Ok(_) => {},
        Err(f) => return Err(f),
    }
    match store(present) {
        Ok(_) => {},
        Err(f) => return Err(f),
    }
    match row {
        Err(e) => Err(repo_fail(e)),
        Ok(m) => {
            let mut f = Fields::new();
            f.put("deleted", marker_json(&m.marker, &m.extent));
            Ok(ok(f.object(), marker_json(&m.marker, &m.extent), Json::Null))
        },
    }
}

/// A change of a marker keeps which one it is, its collection and its creation, and without a
/// view its stamp.
pub proof fn a_change_keeps_the_marker(
    body: Seq<(Seq<char>, JsonV)>,
    c: Context,
    row: MarkerV,
)
    ensures
        match changed_marker_of(body, c, true, Ok(row)) {
            Ok(m) => m.id == row.id && m.collection_id == row.collection_id && m.created_at
                == row.created_at && m.updated_at >= row.created_at && (member(body, "view"@)
                is None ==> m.provenance == row.provenance),
            Err(_) => true,
        },
{
}

/// Collections and markers are each at the path of their name, and all of them at one path; the
/// markers of a collection are below it. Each method does a thing of its own.
pub proof fn collections_are_at_their_paths(
    method: Seq<char>,
    rest: Seq<char>,
    id: Id,
    other: Option<Id>,
)
    ensures
        resolved("GET"@, "/api/collections"@, other) == Some(
            Ok::<Action, Option<Seq<char>>>(Action::List),
        ),
        resolved("POST"@, "/api/collections"@, other) == Some(
            Ok::<Action, Option<Seq<char>>>(Action::Create),
        ),
        resolved("GET"@, "/api/markers"@, other) == Some(
            Ok::<Action, Option<Seq<char>>>(Action::ListMarkers(None)),
        ),
        resolved("GET"@, "/api/markers/"@ + rest, Some(id)) == Some(
            Ok::<Action, Option<Seq<char>>>(Action::GetMarker(id)),
        ),
        resolved("PUT"@, "/api/markers/"@ + rest, Some(id)) == Some(
            Ok::<Action, Option<Seq<char>>>(Action::UpdateMarker(id)),
        ),
        resolved("DELETE"@, "/api/markers/"@ + rest, Some(id)) == Some(
            Ok::<Action, Option<Seq<char>>>(Action::DeleteMarker(id)),
        ),
        path_id_of("/api/markers/"@ + rest) == Some(rest),
        resolved("GET"@, "/api/collections/"@ + (rest + "/markers"@), Some(id)) == Some(
            Ok::<Action, Option<Seq<char>>>(Action::ListMarkers(Some(id))),
        ),
        resolved("POST"@, "/api/collections/"@ + (rest + "/markers"@), Some(id)) == Some(
            Ok::<Action, Option<Seq<char>>>(Action::CreateMarker(id)),
        ),
        path_id_of("/api/collections/"@ + (rest + "/markers"@)) == Some(rest),
        without_suffix(rest, "/markers"@) is None ==> {
            &&& resolved("GET"@, "/api/collections/"@ + rest, Some(id)) == Some(
                Ok::<Action, Option<Seq<char>>>(Action::Get(id)),
            )
            &&& resolved("PUT"@, "/api/collections/"@ + rest, Some(id)) == Some(
                Ok::<Action, Option<Seq<char>>>(Action::Update(id)),
            )
            &&& resolved("DELETE"@, "/api/collections/"@ + rest, Some(id)) == Some(
                Ok::<Action, Option<Seq<char>>>(Action::Delete(id)),
            )
            &&& path_id_of("/api/collections/"@ + rest) == Some(rest)
        },
        resolved(method, "/api/collections/"@ + rest, None) == Some(
            Err::<Action, Option<Seq<char>>>(None),
        ),
        resolved(method, "/api/markers/"@ + rest, None) == Some(
            Err::<Action, Option<Seq<char>>>(None),
        ),
{
    assert("GET"@ != "POST"@) by {
        reveal_strlit("GET");
        reveal_strlit("POST");
        assert("GET"@.len() != "POST"@.len());
    }
    assert("GET"@ != "PUT"@) by {
        reveal_strlit("GET");
        reveal_strlit("PUT");
        assert("GET"@[0] != "PUT"@[0]);
    }
    assert("GET"@ != "DELETE"@) by {
        reveal_strlit("GET");
        reveal_strlit("DELETE");
        assert("GET"@.len() != "DELETE"@.len());
    }
    assert("PUT"@ != "DELETE"@) by {
        reveal_strlit("PUT");
        reveal_strlit("DELETE");
        assert("PUT"@.len() != "DELETE"@.len());
    }
    reveal_strlit("/api/collections");
    reveal_strlit("/api/collections/");
    reveal_strlit("/api/markers");
    reveal_strlit("/api/markers/");
    let m = "/api/markers/"@ + rest;
    let c = "/api/collections/"@ + rest;
    let b = "/api/collections/"@ + (rest + "/markers"@);
    assert(m[5] == 'm' && c[5] == 'c' && b[5] == 'c');
    assert("/api/markers"@[5] == 'm' && "/api/markers/"@[5] == 'm' && "/api/collections"@[5] == 'c');
    assert(m.len() > "/api/markers"@.len() && c.len() > "/api/collections"@.len() && b.len()
        > "/api/collections"@.len());
    a_remainder_is_what_else_is_there(rest, "/api/markers/"@);
    a_remainder_is_what_else_is_there(rest, "/api/collections/"@);
    a_remainder_is_what_else_is_there(rest + "/markers"@, "/api/collections/"@);
    a_remainder_is_what_else_is_there(rest, "/markers"@);
    if begins(c, "/api/markers/"@) {
        assert(c.take(13)[5] == c[5]);
    }
    if begins(b, "/api/markers/"@) {
        assert(b.take(13)[5] == b[5]);
    }
}

/// A collection is written as it is, with the number of its members.
pub proof fn a_collection_is_written_as_it_is(c: CollectionV, n: u64)
    ensures
        at(collection_v(c, n), "id"@) == Some(JsonV::Text(c.id)),
        at(collection_v(c, n), "name"@) == Some(JsonV::Text(c.name)),
        at(collection_v(c, n), "note"@) == Some(opt_text_v(c.note)),
        at(collection_v(c, n), "color"@) == Some(opt_text_v(c.color)),
        at(collection_v(c, n), "visible"@) == Some(JsonV::Bool(c.visible)),
        at(collection_v(c, n), "reserved"@) == Some(JsonV::Bool(c.reserved)),
        at(collection_v(c, n), "member_count"@) == Some(JsonV::Number(Num::U(n))),
        at(collection_v(c, n), "created_s"@) == Some(seconds_v(c.created_at)),
        at(collection_v(c, n), "updated_s"@) == Some(seconds_v(c.updated_at)),
{
    let f = collection_v(c, n)->Object_0;
    member_is_the_first(f, "id"@, 0);
    assert("id"@ != "name"@) by {
        reveal_strlit("id");
        reveal_strlit("name");
        assert("id"@.len() != "name"@.len());
    }
    member_is_the_first(f, "name"@, 1);
    assert("id"@ != "note"@) by {
        reveal_strlit("id");
        reveal_strlit("note");
        assert("id"@.len() != "note"@.len());
    }
    assert("name"@ != "note"@) by {
        reveal_strlit("name");
        reveal_strlit("note");
        assert("name"@[1] != "note"@[1]);
    }
    member_is_the_first(f, "note"@, 2);
    assert("id"@ != "color"@) by {
        reveal_strlit("id");
        reveal_strlit("color");
        assert("id"@.len() != "color"@.len());
    }
    assert("name"@ != "color"@) by {
        reveal_strlit("name");
        reveal_strlit("color");
        assert("name"@.len() != "color"@.len());
    }
    assert("note"@ != "color"@) by {
        reveal_strlit("note");
        reveal_strlit("color");
        assert("note"@.len() != "color"@.len());
    }
    member_is_the_first(f, "color"@, 3);
    assert("id"@ != "visible"@) by {
        reveal_strlit("id");
        reveal_strlit("visible");
        assert("id"@.len() != "visible"@.len());
    }
    assert("name"@ != "visible"@) by {
        reveal_strlit("name");
        reveal_strlit("visible");
        assert("name"@.len() != "visible"@.len());
    }
    assert("note"@ != "visible"@) by {
        reveal_strlit("note");
        reveal_strlit("visible");
        assert("note"@.len() != "visible"@.len());
    }
    assert("color"@ != "visible"@) by {
        reveal_strlit("color");
        reveal_strlit("visible");
        assert("color"@.len() != "visible"@.len());
    }
    member_is_the_first(f, "visible"@, 4);
    assert("id"@ != "reserved"@) by {
        reveal_strlit("id");
        reveal_strlit("reserved");
        assert("id"@.len() != "reserved"@.len());
    }
    assert("name"@ != "reserved"@) by {
        reveal_strlit("name");
        reveal_strlit("reserved");
        assert("name"@.len() != "reserved"@.len());
    }
    assert("note"@ != "reserved"@) by {
        reveal_strlit("note");
        reveal_strlit("reserved");
        assert("note"@.len() != "reserved"@.len());
    }
    assert("color"@ != "reserved"@) by {
        reveal_strlit("color");
        reveal_strlit("reserved");
        assert("color"@.len() != "reserved"@.len());
    }
    assert("visible"@ != "reserved"@) by {
        reveal_strlit("visible");
        reveal_strlit("reserved");
        assert("visible"@.len() != "reserved"@.len());
    }
    member_is_the_first(f, "reserved"@, 5);
    assert("id"@ != "member_count"@) by {
        reveal_strlit("id");
        reveal_strlit("member_count");
        assert("id"@.len() != "member_count"@.len());
    }
    assert("name"@ != "member_count"@) by {
        reveal_strlit("name");
        reveal_strlit("member_count");
        assert("name"@.len() != "member_count"@.len());
    }
    assert("note"@ != "member_count"@) by {
        reveal_strlit("note");
        reveal_strlit("member_count");
        assert("note"@.len() != "member_count"@.len());
    }
    assert("color"@ != "member_count"@) by {
        reveal_strlit("color");
        reveal_strlit("member_count");
        assert("color"@.len() != "member_count"@.len());
    }
    assert("visible"@ != "member_count"@) by {
        reveal_strlit("visible");
        reveal_strlit("member_count");
        assert("visible"@.len() != "member_count"@.len());
    }
    assert("reserved"@ != "member_count"@) by {
        reveal_strlit("reserved");
        reveal_strlit("member_count");
        assert("reserved"@.len() != "member_count"@.len());
    }
    member_is_the_first(f, "member_count"@, 6);
    assert("id"@ != "created_s"@) by {
        reveal_strlit("id");
        reveal_strlit("created_s");
        assert("id"@.len() != "created_s"@.len());
    }
    assert("name"@ != "created_s"@) by {
        reveal_strlit("name");
        reveal_strlit("created_s");
        assert("name"@.len() != "created_s"@.len());
    }
    assert("note"@ != "created_s"@) by {
        reveal_strlit("note");
        reveal_strlit("created_s");
        assert("note"@.len() != "created_s"@.len());
    }
    assert("color"@ != "created_s"@) by {
        reveal_strlit("color");
        reveal_strlit("created_s");
        assert("color"@.len() != "created_s"@.len());
    }
    assert("visible"@ != "created_s"@) by {
        reveal_strlit("visible");
        reveal_strlit("created_s");
        assert("visible"@.len() != "created_s"@.len());
    }
    assert("reserved"@ != "created_s"@) by {
        reveal_strlit("reserved");
        reveal_strlit("created_s");
        assert("reserved"@.len() != "created_s"@.len());
    }
    assert("member_count"@ != "created_s"@) by {
        reveal_strlit("member_count");
        reveal_strlit("created_s");
        assert("member_count"@.len() != "created_s"@.len());
    }
    member_is_the_first(f, "created_s"@, 7);
    assert("id"@ != "updated_s"@) by {
        reveal_strlit("id");
        reveal_strlit("updated_s");
        assert("id"@.len() != "updated_s"@.len());
    }
    assert("name"@ != "updated_s"@) by {
        reveal_strlit("name");
        reveal_strlit("updated_s");
        assert("name"@.len() != "updated_s"@.len());
    }
    assert("note"@ != "updated_s"@) by {
        reveal_strlit("note");
        reveal_strlit("updated_s");
        assert("note"@.len() != "updated_s"@.len());
    }
    assert("color"@ != "updated_s"@) by {
        reveal_strlit("color");
        reveal_strlit("updated_s");
        assert("color"@.len() != "updated_s"@.len());
    }
    assert("visible"@ != "updated_s"@) by {
        reveal_strlit("visible");
        reveal_strlit("updated_s");
        assert("visible"@.len() != "updated_s"@.len());
    }
    assert("reserved"@ != "updated_s"@) by {
        reveal_strlit("reserved");
        reveal_strlit("updated_s");
        assert("reserved"@.len() != "updated_s"@.len());
    }
    assert("member_count"@ != "updated_s"@) by {
        reveal_strlit("member_count");
        reveal_strlit("updated_s");
        assert("member_count"@.len() != "updated_s"@.len());
    }
    assert("created_s"@ != "updated_s"@) by {
        reveal_strlit("created_s");
        reveal_strlit("updated_s");
        assert("created_s"@[0] != "updated_s"@[0]);
    }
    member_is_the_first(f, "updated_s"@, 8);
}

/// A marker is written as it is, with its edges in frequency and, where it has any, in time.
pub proof fn a_marker_is_written_as_it_is(m: MarkerV, e: Extent)
    ensures
        at(marker_v(m, e), "id"@) == Some(JsonV::Text(m.id)),
        at(marker_v(m, e), "collection_id"@) == Some(JsonV::Text(m.collection_id)),
        at(marker_v(m, e), "name"@) == Some(JsonV::Text(m.name)),
        at(marker_v(m, e), "note"@) == Some(opt_text_v(m.note)),
        at(marker_v(m, e), "f_center_hz"@) == Some(real_v(m.f_center_hz)),
        at(marker_v(m, e), "bandwidth_hz"@) == Some(opt_real_v(m.bandwidth_hz)),
        at(marker_v(m, e), "f_lo_hz"@) == Some(real_v(e.f_lo_hz)),
        at(marker_v(m, e), "f_hi_hz"@) == Some(real_v(e.f_hi_hz)),
        m.t_center matches Some(t) ==> at(marker_v(m, e), "t_center_s"@) == Some(seconds_v(t)),
        m.t_center is None ==> at(marker_v(m, e), "t_center_s"@) == Some(JsonV::Null),
        at(marker_v(m, e), "duration_s"@) == Some(opt_real_v(m.duration_s)),
        e.time matches Some((a, b)) ==> at(marker_v(m, e), "t_start_s"@) == Some(seconds_v(a)) && at(
            marker_v(m, e),
            "t_end_s"@,
        ) == Some(seconds_v(b)),
        e.time is None ==> at(marker_v(m, e), "t_start_s"@) == Some(JsonV::Null) && at(
            marker_v(m, e),
            "t_end_s"@,
        ) == Some(JsonV::Null),
        at(marker_v(m, e), "provenance"@) == Some(provenance_v(m.provenance)),
        at(marker_v(m, e), "created_s"@) == Some(seconds_v(m.created_at)),
        at(marker_v(m, e), "updated_s"@) == Some(seconds_v(m.updated_at)),
{
    let f = marker_v(m, e)->Object_0;
    member_is_the_first(f, "id"@, 0);
    assert("id"@ != "collection_id"@) by {
        reveal_strlit("id");
        reveal_strlit("collection_id");
        assert("id"@.len() != "collection_id"@.len());
    }
    member_is_the_first(f, "collection_id"@, 1);
    assert("id"@ != "name"@) by {
        reveal_strlit("id");
        reveal_strlit("name");
        assert("id"@.len() != "name"@.len());
    }
    assert("collection_id"@ != "name"@) by {
        reveal_strlit("collection_id");
        reveal_strlit("name");
        assert("collection_id"@.len() != "name"@.len());
    }
    member_is_the_first(f, "name"@, 2);
    assert("id"@ != "note"@) by {
        reveal_strlit("id");
        reveal_strlit("note");
        assert("id"@.len() != "note"@.len());
    }
    assert("collection_id"@ != "note"@) by {
        reveal_strlit("collection_id");
        reveal_strlit("note");
        assert("collection_id"@.len() != "note"@.len());
    }
    assert("name"@ != "note"@) by {
        reveal_strlit("name");
        reveal_strlit("note");
        assert("name"@[1] != "note"@[1]);
    }
    member_is_the_first(f, "note"@, 3);
    assert("id"@ != "f_center_hz"@) by {
        reveal_strlit("id");
        reveal_strlit("f_center_hz");
        assert("id"@.len() != "f_center_hz"@.len());
    }
    assert("collection_id"@ != "f_center_hz"@) by {
        reveal_strlit("collection_id");
        reveal_strlit("f_center_hz");
        assert("collection_id"@.len() != "f_center_hz"@.len());
    }
    assert("name"@ != "f_center_hz"@) by {
        reveal_strlit("name");
        reveal_strlit("f_center_hz");
        assert("name"@.len() != "f_center_hz"@.len());
    }
    assert("note"@ != "f_center_hz"@) by {
        reveal_strlit("note");
        reveal_strlit("f_center_hz");
        assert("note"@.len() != "f_center_hz"@.len());
    }
    member_is_the_first(f, "f_center_hz"@, 4);
    assert("id"@ != "bandwidth_hz"@) by {
        reveal_strlit("id");
        reveal_strlit("bandwidth_hz");
        assert("id"@.len() != "bandwidth_hz"@.len());
    }
    assert("collection_id"@ != "bandwidth_hz"@) by {
        reveal_strlit("collection_id");
        reveal_strlit("bandwidth_hz");
        assert("collection_id"@.len() != "bandwidth_hz"@.len());
    }
    assert("name"@ != "bandwidth_hz"@) by {
        reveal_strlit("name");
        reveal_strlit("bandwidth_hz");
        assert("name"@.len() != "bandwidth_hz"@.len());
    }
    assert("note"@ != "bandwidth_hz"@) by {
        reveal_strlit("note");
        reveal_strlit("bandwidth_hz");
        assert("note"@.len() != "bandwidth_hz"@.len());
    }
    assert("f_center_hz"@ != "bandwidth_hz"@) by {
        reveal_strlit("f_center_hz");
        reveal_strlit("bandwidth_hz");
        assert("f_center_hz"@.len() != "bandwidth_hz"@.len());
    }
    member_is_the_first(f, "bandwidth_hz"@, 5);
    assert("id"@ != "f_lo_hz"@) by {
        reveal_strlit("id");
        reveal_strlit("f_lo_hz");
        assert("id"@.len() != "f_lo_hz"@.len());
    }
    assert("collection_id"@ != "f_lo_hz"@) by {
        reveal_strlit("collection_id");
        reveal_strlit("f_lo_hz");
        assert("collection_id"@.len() != "f_lo_hz"@.len());
    }
    assert("name"@ != "f_lo_hz"@) by {
        reveal_strlit("name");
        reveal_strlit("f_lo_hz");
        assert("name"@.len() != "f_lo_hz"@.len());
    }
    assert("note"@ != "f_lo_hz"@) by {
        reveal_strlit("note");
        reveal_strlit("f_lo_hz");
        assert("note"@.len() != "f_lo_hz"@.len());
    }
    assert("f_center_hz"@ != "f_lo_hz"@) by {
        reveal_strlit("f_center_hz");
        reveal_strlit("f_lo_hz");
        assert("f_center_hz"@.len() != "f_lo_hz"@.len());
    }
    assert("bandwidth_hz"@ != "f_lo_hz"@) by {
        reveal_strlit("bandwidth_hz");
        reveal_strlit("f_lo_hz");
        assert("bandwidth_hz"@.len() != "f_lo_hz"@.len());
    }
    member_is_the_first(f, "f_lo_hz"@, 6);
    assert("id"@ != "f_hi_hz"@) by {
        reveal_strlit("id");
        reveal_strlit("f_hi_hz");
        assert("id"@.len() != "f_hi_hz"@.len());
    }
    assert("collection_id"@ != "f_hi_hz"@) by {
        reveal_strlit("collection_id");
        reveal_strlit("f_hi_hz");
        assert("collection_id"@.len() != "f_hi_hz"@.len());
    }
    assert("name"@ != "f_hi_hz"@) by {
        reveal_strlit("name");
        reveal_strlit("f_hi_hz");
        assert("name"@.len() != "f_hi_hz"@.len());
    }
    assert("note"@ != "f_hi_hz"@) by {
        reveal_strlit("note");
        reveal_strlit("f_hi_hz");
        assert("note"@.len() != "f_hi_hz"@.len());
    }
    assert("f_center_hz"@ != "f_hi_hz"@) by {
        reveal_strlit("f_center_hz");
        reveal_strlit("f_hi_hz");
        assert("f_center_hz"@.len() != "f_hi_hz"@.len());
    }
    assert("bandwidth_hz"@ != "f_hi_hz"@) by {
        reveal_strlit("bandwidth_hz");
        reveal_strlit("f_hi_hz");
        assert("bandwidth_hz"@.len() != "f_hi_hz"@.len());
    }
    assert("f_lo_hz"@ != "f_hi_hz"@) by {
        reveal_strlit("f_lo_hz");
        reveal_strlit("f_hi_hz");
        assert("f_lo_hz"@[2] != "f_hi_hz"@[2]);
    }
    member_is_the_first(f, "f_hi_hz"@, 7);
    assert("id"@ != "t_center_s"@) by {
        reveal_strlit("id");
        reveal_strlit("t_center_s");
        assert("id"@.len() != "t_center_s"@.len());
    }
    assert("collection_id"@ != "t_center_s"@) by {
        reveal_strlit("collection_id");
        reveal_strlit("t_center_s");
        assert("collection_id"@.len() != "t_center_s"@.len());
    }
    assert("name"@ != "t_center_s"@) by {
        reveal_strlit("name");
        reveal_strlit("t_center_s");
        assert("name"@.len() != "t_center_s"@.len());
    }
    assert("note"@ != "t_center_s"@) by {
        reveal_strlit("note");
        reveal_strlit("t_center_s");
        assert("note"@.len() != "t_center_s"@.len());
    }
    assert("f_center_hz"@ != "t_center_s"@) by {
        reveal_strlit("f_center_hz");
        reveal_strlit("t_center_s");
        assert("f_center_hz"@.len() != "t_center_s"@.len());
    }
    assert("bandwidth_hz"@ != "t_center_s"@) by {
        reveal_strlit("bandwidth_hz");
        reveal_strlit("t_center_s");
        assert("bandwidth_hz"@.len() != "t_center_s"@.len());
    }
    assert("f_lo_hz"@ != "t_center_s"@) by {
        reveal_strlit("f_lo_hz");
        reveal_strlit("t_center_s");
        assert("f_lo_hz"@.len() != "t_center_s"@.len());
    }
    assert("f_hi_hz"@ != "t_center_s"@) by {
        reveal_strlit("f_hi_hz");
        reveal_strlit("t_center_s");
        assert("f_hi_hz"@.len() != "t_center_s"@.len());
    }
    member_is_the_first(f, "t_center_s"@, 8);
    assert("id"@ != "duration_s"@) by {
        reveal_strlit("id");
        reveal_strlit("duration_s");
        assert("id"@.len() != "duration_s"@.len());
    }
    assert("collection_id"@ != "duration_s"@) by {
        reveal_strlit("collection_id");
        reveal_strlit("duration_s");
        assert("collection_id"@.len() != "duration_s"@.len());
    }
    assert("name"@ != "duration_s"@) by {
        reveal_strlit("name");
        reveal_strlit("duration_s");
        assert("name"@.len() != "duration_s"@.len());
    }
    assert("note"@ != "duration_s"@) by {
        reveal_strlit("note");
        reveal_strlit("duration_s");
        assert("note"@.len() != "duration_s"@.len());
    }
    assert("f_center_hz"@ != "duration_s"@) by {
        reveal_strlit("f_center_hz");
        reveal_strlit("duration_s");
        assert("f_center_hz"@.len() != "duration_s"@.len());
    }
    assert("bandwidth_hz"@ != "duration_s"@) by {
        reveal_strlit("bandwidth_hz");
        reveal_strlit("duration_s");
        assert("bandwidth_hz"@.len() != "duration_s"@.len());
    }
    assert("f_lo_hz"@ != "duration_s"@) by {
        reveal_strlit("f_lo_hz");
        reveal_strlit("duration_s");
        assert("f_lo_hz"@.len() != "duration_s"@.len());
    }
    assert("f_hi_hz"@ != "duration_s"@) by {
        reveal_strlit("f_hi_hz");
        reveal_strlit("duration_s");
        assert("f_hi_hz"@.len() != "duration_s"@.len());
    }
    assert("t_center_s"@ != "duration_s"@) by {
        reveal_strlit("t_center_s");
        reveal_strlit("duration_s");
        assert("t_center_s"@[0] != "duration_s"@[0]);
    }
    member_is_the_first(f, "duration_s"@, 9);
    assert("id"@ != "t_start_s"@) by {
        reveal_strlit("id");
        reveal_strlit("t_start_s");
        assert("id"@.len() != "t_start_s"@.len());
    }
    assert("collection_id"@ != "t_start_s"@) by {
        reveal_strlit("collection_id");
        reveal_strlit("t_start_s");
        assert("collection_id"@.len() != "t_start_s"@.len());
    }
    assert("name"@ != "t_start_s"@) by {
        reveal_strlit("name");
        reveal_strlit("t_start_s");
        assert("name"@.len() != "t_start_s"@.len());
    }
    assert("note"@ != "t_start_s"@) by {
        reveal_strlit("note");
        reveal_strlit("t_start_s");
        assert("note"@.len() != "t_start_s"@.len());
    }
    assert("f_center_hz"@ != "t_start_s"@) by {
        reveal_strlit("f_center_hz");
        reveal_strlit("t_start_s");
        assert("f_center_hz"@.len() != "t_start_s"@.len());
    }
    assert("bandwidth_hz"@ != "t_start_s"@) by {
        reveal_strlit("bandwidth_hz");
        reveal_strlit("t_start_s");
        assert("bandwidth_hz"@.len() != "t_start_s"@.len());
    }
    assert("f_lo_hz"@ != "t_start_s"@) by {
        reveal_strlit("f_lo_hz");
        reveal_strlit("t_start_s");
        assert("f_lo_hz"@.len() != "t_start_s"@.len());
    }
    assert("f_hi_hz"@ != "t_start_s"@) by {
        reveal_strlit("f_hi_hz");
        reveal_strlit("t_start_s");
        assert("f_hi_hz"@.len() != "t_start_s"@.len());
    }
    assert("t_center_s"@ != "t_start_s"@) by {
        reveal_strlit("t_center_s");
        reveal_strlit("t_start_s");
        assert("t_center_s"@.len() != "t_start_s"@.len());
    }
    assert("duration_s"@ != "t_start_s"@) by {
        reveal_strlit("duration_s");
        reveal_strlit("t_start_s");
        assert("duration_s"@.len() != "t_start_s"@.len());
    }
    member_is_the_first(f, "t_start_s"@, 10);
    assert("id"@ != "t_end_s"@) by {
        reveal_strlit("id");
        reveal_strlit("t_end_s");
        assert("id"@.len() != "t_end_s"@.len());
    }
    assert("collection_id"@ != "t_end_s"@) by {
        reveal_strlit("collection_id");
        reveal_strlit("t_end_s");
        assert("collection_id"@.len() != "t_end_s"@.len());
    }
    assert("name"@ != "t_end_s"@) by {
        reveal_strlit("name");
        reveal_strlit("t_end_s");
        assert("name"@.len() != "t_end_s"@.len());
    }
    assert("note"@ != "t_end_s"@) by {
        reveal_strlit("note");
        reveal_strlit("t_end_s");
        assert("note"@.len() != "t_end_s"@.len());
    }
    assert("f_center_hz"@ != "t_end_s"@) by {
        reveal_strlit("f_center_hz");
        reveal_strlit("t_end_s");
        assert("f_center_hz"@.len() != "t_end_s"@.len());
    }
    assert("bandwidth_hz"@ != "t_end_s"@) by {
        reveal_strlit("bandwidth_hz");
        reveal_strlit("t_end_s");
        assert("bandwidth_hz"@.len() != "t_end_s"@.len());
    }
    assert("f_lo_hz"@ != "t_end_s"@) by {
        reveal_strlit("f_lo_hz");
        reveal_strlit("t_end_s");
        assert("f_lo_hz"@[0] != "t_end_s"@[0]);
    }
    assert("f_hi_hz"@ != "t_end_s"@) by {
        reveal_strlit("f_hi_hz");
        reveal_strlit("t_end_s");
        assert("f_hi_hz"@[0] != "t_end_s"@[0]);
    }
    assert("t_center_s"@ != "t_end_s"@) by {
        reveal_strlit("t_center_s");
        reveal_strlit("t_end_s");
        assert("t_center_s"@.len() != "t_end_s"@.len());
    }
    assert("duration_s"@ != "t_end_s"@) by {
        reveal_strlit("duration_s");
        reveal_strlit("t_end_s");
        assert("duration_s"@.len() != "t_end_s"@.len());
    }
    assert("t_start_s"@ != "t_end_s"@) by {
        reveal_strlit("t_start_s");
        reveal_strlit("t_end_s");
        assert("t_start_s"@.len() != "t_end_s"@.len());
    }
    member_is_the_first(f, "t_end_s"@, 11);
    assert("id"@ != "provenance"@) by {
        reveal_strlit("id");
        reveal_strlit("provenance");
        assert("id"@.len() != "provenance"@.len());
    }
    assert("collection_id"@ != "provenance"@) by {
        reveal_strlit("collection_id");
        reveal_strlit("provenance");
        assert("collection_id"@.len() != "provenance"@.len());
    }
    assert("name"@ != "provenance"@) by {
        reveal_strlit("name");
        reveal_strlit("provenance");
        assert("name"@.len() != "provenance"@.len());
    }
    assert("note"@ != "provenance"@) by {
        reveal_strlit("note");
        reveal_strlit("provenance");
        assert("note"@.len() != "provenance"@.len());
    }
    assert("f_center_hz"@ != "provenance"@) by {
        reveal_strlit("f_center_hz");
        reveal_strlit("provenance");
        assert("f_center_hz"@.len() != "provenance"@.len());
    }
    assert("bandwidth_hz"@ != "provenance"@) by {
        reveal_strlit("bandwidth_hz");
        reveal_strlit("provenance");
        assert("bandwidth_hz"@.len() != "provenance"@.len());
    }
    assert("f_lo_hz"@ != "provenance"@) by {
        reveal_strlit("f_lo_hz");
        reveal_strlit("provenance");
        assert("f_lo_hz"@.len() != "provenance"@.len());
    }
    assert("f_hi_hz"@ != "provenance"@) by {
        reveal_strlit("f_hi_hz");
        reveal_strlit("provenance");
        assert("f_hi_hz"@.len() != "provenance"@.len());
    }
    assert("t_center_s"@ != "provenance"@) by {
        reveal_strlit("t_center_s");
        reveal_strlit("provenance");
        assert("t_center_s"@[0] != "provenance"@[0]);
    }
    assert("duration_s"@ != "provenance"@) by {
        reveal_strlit("duration_s");
        reveal_strlit("provenance");
        assert("duration_s"@[0] != "provenance"@[0]);
    }
    assert("t_start_s"@ != "provenance"@) by {
        reveal_strlit("t_start_s");
        reveal_strlit("provenance");
        assert("t_start_s"@.len() != "provenance"@.len());
    }
    assert("t_end_s"@ != "provenance"@) by {
        reveal_strlit("t_end_s");
        reveal_strlit("provenance");
        assert("t_end_s"@.len() != "provenance"@.len());
    }
    member_is_the_first(f, "provenance"@, 12);
    assert("id"@ != "created_s"@) by {
        reveal_strlit("id");
        reveal_strlit("created_s");
        assert("id"@.len() != "created_s"@.len());
    }
    assert("collection_id"@ != "created_s"@) by {
        reveal_strlit("collection_id");
        reveal_strlit("created_s");
        assert("collection_id"@.len() != "created_s"@.len());
    }
    assert("name"@ != "created_s"@) by {
        reveal_strlit("name");
        reveal_strlit("created_s");
        assert("name"@.len() != "created_s"@.len());
    }
    assert("note"@ != "created_s"@) by {
        reveal_strlit("note");
        reveal_strlit("created_s");
        assert("note"@.len() != "created_s"@.len());
    }
    assert("f_center_hz"@ != "created_s"@) by {
        reveal_strlit("f_center_hz");
        reveal_strlit("created_s");
        assert("f_center_hz"@.len() != "created_s"@.len());
    }
    assert("bandwidth_hz"@ != "created_s"@) by {
        reveal_strlit("bandwidth_hz");
        reveal_strlit("created_s");
        assert("bandwidth_hz"@.len() != "created_s"@.len());
    }
    assert("f_lo_hz"@ != "created_s"@) by {
        reveal_strlit("f_lo_hz");
        reveal_strlit("created_s");
        assert("f_lo_hz"@.len() != "created_s"@.len());
    }
    assert("f_hi_hz"@ != "created_s"@) by {
        reveal_strlit("f_hi_hz");
        reveal_strlit("created_s");
        assert("f_hi_hz"@.len() != "created_s"@.len());
    }
    assert("t_center_s"@ != "created_s"@) by {
        reveal_strlit("t_center_s");
        reveal_strlit("created_s");
        assert("t_center_s"@.len() != "created_s"@.len());
    }
    assert("duration_s"@ != "created_s"@) by {
        reveal_strlit("duration_s");
        reveal_strlit("created_s");
        assert("duration_s"@.len() != "created_s"@.len());
    }
    assert("t_start_s"@ != "created_s"@) by {
        reveal_strlit("t_start_s");
        reveal_strlit("created_s");
        assert("t_start_s"@[0] != "created_s"@[0]);
    }
    assert("t_end_s"@ != "created_s"@) by {
        reveal_strlit("t_end_s");
        reveal_strlit("created_s");
        assert("t_end_s"@.len() != "created_s"@.len());
    }
    assert("provenance"@ != "created_s"@) by {
        reveal_strlit("provenance");
        reveal_strlit("created_s");
        assert("provenance"@.len() != "created_s"@.len());
    }
    member_is_the_first(f, "created_s"@, 13);
    assert("id"@ != "updated_s"@) by {
        reveal_strlit("id");
        reveal_strlit("updated_s");
        assert("id"@.len() != "updated_s"@.len());
    }
    assert("collection_id"@ != "updated_s"@) by {
        reveal_strlit("collection_id");
        reveal_strlit("updated_s");
        assert("collection_id"@.len() != "updated_s"@.len());
    }
    assert("name"@ != "updated_s"@) by {
        reveal_strlit("name");
        reveal_strlit("updated_s");
        assert("name"@.len() != "updated_s"@.len());
    }
    assert("note"@ != "updated_s"@) by {
        reveal_strlit("note");
        reveal_strlit("updated_s");
        assert("note"@.len() != "updated_s"@.len());
    }
    assert("f_center_hz"@ != "updated_s"@) by {
        reveal_strlit("f_center_hz");
        reveal_strlit("updated_s");
        assert("f_center_hz"@.len() != "updated_s"@.len());
    }
    assert("bandwidth_hz"@ != "updated_s"@) by {
        reveal_strlit("bandwidth_hz");
        reveal_strlit("updated_s");
        assert("bandwidth_hz"@.len() != "updated_s"@.len());
    }
    assert("f_lo_hz"@ != "updated_s"@) by {
        reveal_strlit("f_lo_hz");
        reveal_strlit("updated_s");
        assert("f_lo_hz"@.len() != "updated_s"@.len());
    }
    assert("f_hi_hz"@ != "updated_s"@) by {
        reveal_strlit("f_hi_hz");
        reveal_strlit("updated_s");
        assert("f_hi_hz"@.len() != "updated_s"@.len());
    }
    assert("t_center_s"@ != "updated_s"@) by {
        reveal_strlit("t_center_s");
        reveal_strlit("updated_s");
        assert("t_center_s"@.len() != "updated_s"@.len());
    }
    assert("duration_s"@ != "updated_s"@) by {
        reveal_strlit("duration_s");
        reveal_strlit("updated_s");
        assert("duration_s"@.len() != "updated_s"@.len());
    }
    assert("t_start_s"@ != "updated_s"@) by {
        reveal_strlit("t_start_s");
        reveal_strlit("updated_s");
        assert("t_start_s"@[0] != "updated_s"@[0]);
    }
    assert("t_end_s"@ != "updated_s"@) by {
        reveal_strlit("t_end_s");
        reveal_strlit("updated_s");
        assert("t_end_s"@.len() != "updated_s"@.len());
    }
    assert("provenance"@ != "updated_s"@) by {
        reveal_strlit("provenance");
        reveal_strlit("updated_s");
        assert("provenance"@.len() != "updated_s"@.len());
    }
    assert("created_s"@ != "updated_s"@) by {
        reveal_strlit("created_s");
        reveal_strlit("updated_s");
        assert("created_s"@[0] != "updated_s"@[0]);
    }
    member_is_the_first(f, "updated_s"@, 14);
}

/// Where a marker was placed is written as it is.
pub proof fn a_placing_is_written_as_it_is(p: ProvenanceV)
    ensures
        at(provenance_v(p), "device_id"@) == Some(opt_text_v(p.device_id)),
        at(provenance_v(p), "center_hz"@) == Some(opt_real_v(p.center_hz)),
        at(provenance_v(p), "span_hz"@) == Some(opt_real_v(p.span_hz)),
        at(provenance_v(p), "sample_rate_hz"@) == Some(opt_real_v(p.sample_rate_hz)),
        p.t_capture matches Some((a, b)) ==> at(provenance_v(p), "t_capture"@) == Some(
            JsonV::Array(seq![seconds_v(a), seconds_v(b)]),
        ),
        p.t_capture is None ==> at(provenance_v(p), "t_capture"@) == Some(JsonV::Null),
        p.tier matches Some(t) ==> at(provenance_v(p), "tier"@) == Some(JsonV::Text(t.wire())),
        p.tier is None ==> at(provenance_v(p), "tier"@) == Some(JsonV::Null),
        at(provenance_v(p), "authored_s"@) == Some(seconds_v(p.authored_at)),
        at(provenance_v(p), "actor"@) == Some(opt_text_v(p.actor)),
        at(provenance_v(p), "authored"@) == Some(JsonV::Bool(true)),
{
    let f = provenance_v(p)->Object_0;
    member_is_the_first(f, "device_id"@, 0);
    assert("device_id"@ != "center_hz"@) by {
        reveal_strlit("device_id");
        reveal_strlit("center_hz");
        assert("device_id"@[0] != "center_hz"@[0]);
    }
    member_is_the_first(f, "center_hz"@, 1);
    assert("device_id"@ != "span_hz"@) by {
        reveal_strlit("device_id");
        reveal_strlit("span_hz");
        assert("device_id"@.len() != "span_hz"@.len());
    }
    assert("center_hz"@ != "span_hz"@) by {
        reveal_strlit("center_hz");
        reveal_strlit("span_hz");
        assert("center_hz"@.len() != "span_hz"@.len());
    }
    member_is_the_first(f, "span_hz"@, 2);
    assert("device_id"@ != "sample_rate_hz"@) by {
        reveal_strlit("device_id");
        reveal_strlit("sample_rate_hz");
        assert("device_id"@.len() != "sample_rate_hz"@.len());
    }
    assert("center_hz"@ != "sample_rate_hz"@) by {
        reveal_strlit("center_hz");
        reveal_strlit("sample_rate_hz");
        assert("center_hz"@.len() != "sample_rate_hz"@.len());
    }
    assert("span_hz"@ != "sample_rate_hz"@) by {
        reveal_strlit("span_hz");
        reveal_strlit("sample_rate_hz");
        assert("span_hz"@.len() != "sample_rate_hz"@.len());
    }
    member_is_the_first(f, "sample_rate_hz"@, 3);
    assert("device_id"@ != "t_capture"@) by {
        reveal_strlit("device_id");
        reveal_strlit("t_capture");
        assert("device_id"@[0] != "t_capture"@[0]);
    }
    assert("center_hz"@ != "t_capture"@) by {
        reveal_strlit("center_hz");
        reveal_strlit("t_capture");
        assert("center_hz"@[0] != "t_capture"@[0]);
    }
    assert("span_hz"@ != "t_capture"@) by {
        reveal_strlit("span_hz");
        reveal_strlit("t_capture");
        assert("span_hz"@.len() != "t_capture"@.len());
    }
    assert("sample_rate_hz"@ != "t_capture"@) by {
        reveal_strlit("sample_rate_hz");
        reveal_strlit("t_capture");
        assert("sample_rate_hz"@.len() != "t_capture"@.len());
    }
    member_is_the_first(f, "t_capture"@, 4);
    assert("device_id"@ != "tier"@) by {
        reveal_strlit("device_id");
        reveal_strlit("tier");
        assert("device_id"@.len() != "tier"@.len());
    }
    assert("center_hz"@ != "tier"@) by {
        reveal_strlit("center_hz");
        reveal_strlit("tier");
        assert("center_hz"@.len() != "tier"@.len());
    }
    assert("span_hz"@ != "tier"@) by {
        reveal_strlit("span_hz");
        reveal_strlit("tier");
        assert("span_hz"@.len() != "tier"@.len());
    }
    assert("sample_rate_hz"@ != "tier"@) by {
        reveal_strlit("sample_rate_hz");
        reveal_strlit("tier");
        assert("sample_rate_hz"@.len() != "tier"@.len());
    }
    assert("t_capture"@ != "tier"@) by {
        reveal_strlit("t_capture");
        reveal_strlit("tier");
        assert("t_capture"@.len() != "tier"@.len());
    }
    member_is_the_first(f, "tier"@, 5);
    assert("device_id"@ != "authored_s"@) by {
        reveal_strlit("device_id");
        reveal_strlit("authored_s");
        assert("device_id"@.len() != "authored_s"@.len());
    }
    assert("center_hz"@ != "authored_s"@) by {
        reveal_strlit("center_hz");
        reveal_strlit("authored_s");
        assert("center_hz"@.len() != "authored_s"@.len());
    }
    assert("span_hz"@ != "authored_s"@) by {
        reveal_strlit("span_hz");
        reveal_strlit("authored_s");
        assert("span_hz"@.len() != "authored_s"@.len());
    }
    assert("sample_rate_hz"@ != "authored_s"@) by {
        reveal_strlit("sample_rate_hz");
        reveal_strlit("authored_s");
        assert("sample_rate_hz"@.len() != "authored_s"@.len());
    }
    assert("t_capture"@ != "authored_s"@) by {
        reveal_strlit("t_capture");
        reveal_strlit("authored_s");
        assert("t_capture"@.len() != "authored_s"@.len());
    }
    assert("tier"@ != "authored_s"@) by {
        reveal_strlit("tier");
        reveal_strlit("authored_s");
        assert("tier"@.len() != "authored_s"@.len());
    }
    member_is_the_first(f, "authored_s"@, 6);
    assert("device_id"@ != "actor"@) by {
        reveal_strlit("device_id");
        reveal_strlit("actor");
        assert("device_id"@.len() != "actor"@.len());
    }
    assert("center_hz"@ != "actor"@) by {
        reveal_strlit("center_hz");
        reveal_strlit("actor");
        assert("center_hz"@.len() != "actor"@.len());
    }
    assert("span_hz"@ != "actor"@) by {
        reveal_strlit("span_hz");
        reveal_strlit("actor");
        assert("span_hz"@.len() != "actor"@.len());
    }
    assert("sample_rate_hz"@ != "actor"@) by {
        reveal_strlit("sample_rate_hz");
        reveal_strlit("actor");
        assert("sample_rate_hz"@.len() != "actor"@.len());
    }
    assert("t_capture"@ != "actor"@) by {
        reveal_strlit("t_capture");
        reveal_strlit("actor");
        assert("t_capture"@.len() != "actor"@.len());
    }
    assert("tier"@ != "actor"@) by {
        reveal_strlit("tier");
        reveal_strlit("actor");
        assert("tier"@.len() != "actor"@.len());
    }
    assert("authored_s"@ != "actor"@) by {
        reveal_strlit("authored_s");
        reveal_strlit("actor");
        assert("authored_s"@.len() != "actor"@.len());
    }
    member_is_the_first(f, "actor"@, 7);
    assert("device_id"@ != "authored"@) by {
        reveal_strlit("device_id");
        reveal_strlit("authored");
        assert("device_id"@.len() != "authored"@.len());
    }
    assert("center_hz"@ != "authored"@) by {
        reveal_strlit("center_hz");
        reveal_strlit("authored");
        assert("center_hz"@.len() != "authored"@.len());
    }
    assert("span_hz"@ != "authored"@) by {
        reveal_strlit("span_hz");
        reveal_strlit("authored");
        assert("span_hz"@.len() != "authored"@.len());
    }
    assert("sample_rate_hz"@ != "authored"@) by {
        reveal_strlit("sample_rate_hz");
        reveal_strlit("authored");
        assert("sample_rate_hz"@.len() != "authored"@.len());
    }
    assert("t_capture"@ != "authored"@) by {
        reveal_strlit("t_capture");
        reveal_strlit("authored");
        assert("t_capture"@.len() != "authored"@.len());
    }
    assert("tier"@ != "authored"@) by {
        reveal_strlit("tier");
        reveal_strlit("authored");
        assert("tier"@.len() != "authored"@.len());
    }
    assert("authored_s"@ != "authored"@) by {
        reveal_strlit("authored_s");
        reveal_strlit("authored");
        assert("authored_s"@.len() != "authored"@.len());
    }
    assert("actor"@ != "authored"@) by {
        reveal_strlit("actor");
        reveal_strlit("authored");
        assert("actor"@.len() != "authored"@.len());
    }
    member_is_the_first(f, "authored"@, 8);
    if let Some((a, b)) = p.t_capture {
        assert(Seq::empty().push(seconds_v(a)).push(seconds_v(b)) =~= seq![
            seconds_v(a),
            seconds_v(b),
        ]);
    }
}

/// A parameter is the first of its name that is not empty.
pub proof fn the_first_that_is_not_empty_counts(q: Seq<(Seq<char>, Seq<char>)>, key: Seq<char>, i: int)
    requires
        0 <= i <= q.len(),
        i < q.len() ==> q[i].0 == key && q[i].1.len() > 0,
        forall|j: int| 0 <= j < i ==> (#[trigger] q[j]).0 != key || q[j].1.len() == 0,
    ensures
        i < q.len() ==> param_of(q, key) == Some(q[i].1),
        i == q.len() ==> param_of(q, key) is None,
    decreases i,
{
    if i > 0 {
        let t = q.skip(1);
        assert(q[0].0 != key || q[0].1.len() == 0);
        assert forall|j: int| 0 <= j < i - 1 implies (#[trigger] t[j]).0 != key || t[j].1.len() == 0 by {
            assert(t[j] == q[j + 1]);
        }
        the_first_that_is_not_empty_counts(t, key, i - 1);
    }
}

/// Pages are as large as was asked for and start where was asked; five hundred from the first where
/// nothing was.
pub proof fn pages_are_as_asked(q: Seq<(Seq<char>, Seq<char>)>, n: nat)
    ensures
        param_of(q, "limit"@) is None && param_of(q, "cursor"@) is None ==> paging_of(q) == Ok::<
            (usize, usize),
            FailV,
        >((0, 500)),
        paging_of(q) matches Ok(p) ==> {
            &&& param_of(q, "limit"@) == Some(decimal(n)) ==> p.1 == n
            &&& param_of(q, "cursor"@) == Some(decimal(n)) ==> p.0 == n
            &&& param_of(q, "limit"@) is None ==> p.1 == 500
            &&& param_of(q, "cursor"@) is None ==> p.0 == 0
        },
        param_of(q, "limit"@) == Some(decimal(n)) && (n == 0 || n > 2000) ==> paging_of(q) is Err,
        param_of(q, "cursor"@) == Some(decimal(n)) && n > 10_000_000 ==> paging_of(q) is Err,
{
    numbers_are_read_as_they_are_written(n, Seq::empty(), 2000);
    numbers_are_read_as_they_are_written(n, Seq::empty(), 10_000_000);
}

/// A window is the band and the times that were asked for, neither reversed; half of one is refused,
/// and one that was not asked for bounds nothing.
pub proof fn a_window_is_what_was_asked_for(
    q: Seq<(Seq<char>, Seq<char>)>,
    t0_ns: i64,
    t1_ns: i64,
)
    ensures
        window_of(q, t0_ns, t1_ns) matches Ok(w) ==> {
            &&& w.freq is None <==> param_of(q, "f_lo"@) is None
            &&& param_of(q, "f_lo"@) is Some == param_of(q, "f_hi"@) is Some
            &&& w.freq matches Some((lo, hi)) ==> !hi.below(lo) && text_real(
                param_of(q, "f_lo"@)->0,
            ) == Some(lo) && text_real(param_of(q, "f_hi"@)->0) == Some(hi)
            &&& w.time is None <==> param_of(q, "t0"@) is None
            &&& param_of(q, "t0"@) is Some == param_of(q, "t1"@) is Some
            &&& w.time matches Some(t) ==> t == (t0_ns, t1_ns) && text_real(
                param_of(q, "t0"@)->0,
            ) is Some && text_real(param_of(q, "t1"@)->0) is Some && !text_real(
                param_of(q, "t1"@)->0,
            )->0.below(text_real(param_of(q, "t0"@)->0)->0)
        },
        window_of(q, t0_ns, t1_ns) matches Err(f) ==> f.status == 400,
{
}

/// The end of a page says how many rows it holds, how many there are in all, and where to read on.
pub proof fn a_page_ends_with_where_to_read_on(
    name: Seq<char>,
    rows: JsonV,
    count: nat,
    matched: u64,
    offset: usize,
    limit: usize,
)
    requires
        name == "collections"@ || name == "markers"@,
    ensures
        ({
            let p = page_tail(no_fields().push((name, rows)), count, matched, offset, limit);
            &&& at(p, name) == Some(rows)
            &&& at(p, "count"@) == Some(uint_v(count as int))
            &&& at(p, "matched"@) == Some(uint_v(matched as int))
            &&& at(p, "limit"@) == Some(uint_v(limit as int))
            &&& at(p, "next_cursor"@) == Some(
                if offset + count < matched && offset + count <= 10_000_000 {
                    JsonV::Text(decimal((offset + count) as nat))
                } else {
                    JsonV::Null
                },
            )
        }),
{
    assert("collections"@ != "count"@) by {
        reveal_strlit("collections");
        reveal_strlit("count");
        assert("collections"@.len() != "count"@.len());
    }
    assert("collections"@ != "matched"@) by {
        reveal_strlit("collections");
        reveal_strlit("matched");
        assert("collections"@.len() != "matched"@.len());
    }
    assert("collections"@ != "limit"@) by {
        reveal_strlit("collections");
        reveal_strlit("limit");
        assert("collections"@.len() != "limit"@.len());
    }
    assert("collections"@ != "next_cursor"@) by {
        reveal_strlit("collections");
        reveal_strlit("next_cursor");
        assert("collections"@[0] != "next_cursor"@[0]);
    }
    assert("markers"@ != "count"@) by {
        reveal_strlit("markers");
        reveal_strlit("count");
        assert("markers"@.len() != "count"@.len());
    }
    assert("markers"@ != "matched"@) by {
        reveal_strlit("markers");
        reveal_strlit("matched");
        assert("markers"@[2] != "matched"@[2]);
    }
    assert("markers"@ != "limit"@) by {
        reveal_strlit("markers");
        reveal_strlit("limit");
        assert("markers"@.len() != "limit"@.len());
    }
    assert("markers"@ != "next_cursor"@) by {
        reveal_strlit("markers");
        reveal_strlit("next_cursor");
        assert("markers"@.len() != "next_cursor"@.len());
    }
    assert("count"@ != "matched"@) by {
        reveal_strlit("count");
        reveal_strlit("matched");
        assert("count"@.len() != "matched"@.len());
    }
    assert("count"@ != "limit"@) by {
        reveal_strlit("count");
        reveal_strlit("limit");
        assert("count"@[0] != "limit"@[0]);
    }
    assert("matched"@ != "limit"@) by {
        reveal_strlit("matched");
        reveal_strlit("limit");
        assert("matched"@.len() != "limit"@.len());
    }
    assert("count"@ != "next_cursor"@) by {
        reveal_strlit("count");
        reveal_strlit("next_cursor");
        assert("count"@.len() != "next_cursor"@.len());
    }
    assert("matched"@ != "next_cursor"@) by {
        reveal_strlit("matched");
        reveal_strlit("next_cursor");
        assert("matched"@.len() != "next_cursor"@.len());
    }
    assert("limit"@ != "next_cursor"@) by {
        reveal_strlit("limit");
        reveal_strlit("next_cursor");
        assert("limit"@.len() != "next_cursor"@.len());
    }
    let f = page_tail(no_fields().push((name, rows)), count, matched, offset, limit)->Object_0;
    member_is_the_first(f, name, 0);
    member_is_the_first(f, "count"@, 1);
    member_is_the_first(f, "matched"@, 2);
    member_is_the_first(f, "limit"@, 3);
    member_is_the_first(f, "next_cursor"@, 4);
}

/// What a body sets of a collection is what it writes; whatever it leaves out stays.
pub proof fn a_collection_is_set_to_what_is_written(
    body: Seq<(Seq<char>, JsonV)>,
    c: CollectionV,
    d: CollectionV,
)
    requires
        set_collection(body, c) == Ok::<CollectionV, FailV>(d),
    ensures
        member(body, "name"@) is None ==> d.name == c.name,
        member(body, "name"@) matches Some(JsonV::Text(s)) ==> d.name == trimmed(s),
        member(body, "name"@) == Some(JsonV::Null) ==> d.name.len() == 0,
        member(body, "note"@) is None ==> d.note == c.note,
        member(body, "note"@) matches Some(v) ==> v == opt_text_v(d.note),
        member(body, "color"@) is None ==> d.color == c.color,
        member(body, "color"@) matches Some(v) ==> v == opt_text_v(d.color),
        member(body, "visible"@) is None ==> d.visible == c.visible,
        member(body, "visible"@) matches Some(v) ==> v == JsonV::Bool(d.visible),
        d.id == c.id && d.reserved == c.reserved && d.created_at == c.created_at && d.updated_at
            == c.updated_at,
{
}

/// What a body sets of a marker is what it writes; whatever it leaves out stays. Where the time is
/// taken away, so is its length, unless one is written.
pub proof fn a_marker_is_set_to_what_is_written(
    body: Seq<(Seq<char>, JsonV)>,
    m: MarkerV,
    t_ns: i64,
    n: MarkerV,
)
    requires
        set_marker(body, m, t_ns) == Ok::<MarkerV, FailV>(n),
    ensures
        member(body, "name"@) is None ==> n.name == m.name,
        member(body, "name"@) matches Some(JsonV::Text(s)) ==> n.name == trimmed(s),
        member(body, "note"@) is None ==> n.note == m.note,
        member(body, "note"@) matches Some(v) ==> v == opt_text_v(n.note),
        member(body, "f_center_hz"@) is None ==> n.f_center_hz == m.f_center_hz,
        member(body, "f_center_hz"@) is Some ==> writes(body, "f_center_hz"@, n.f_center_hz),
        member(body, "bandwidth_hz"@) is None ==> n.bandwidth_hz == m.bandwidth_hz,
        member(body, "bandwidth_hz"@) == Some(JsonV::Null) ==> n.bandwidth_hz is None,
        member(body, "bandwidth_hz"@) is Some && member(body, "bandwidth_hz"@) != Some(JsonV::Null)
            ==> (n.bandwidth_hz matches Some(x) && writes(body, "bandwidth_hz"@, x)),
        member(body, "t_center_s"@) is None ==> n.t_center == m.t_center,
        member(body, "t_center_s"@) == Some(JsonV::Null) ==> n.t_center is None,
        member(body, "t_center_s"@) is Some && member(body, "t_center_s"@) != Some(JsonV::Null)
            ==> n.t_center == Some(t_ns),
        member(body, "duration_s"@) is None && member(body, "t_center_s"@) != Some(JsonV::Null)
            ==> n.duration_s == m.duration_s,
        member(body, "duration_s"@) == Some(JsonV::Null) ==> n.duration_s is None,
        member(body, "duration_s"@) is Some && member(body, "duration_s"@) != Some(JsonV::Null) ==> (
        n.duration_s matches Some(x) && writes(body, "duration_s"@, x)),
        n.id == m.id && n.collection_id == m.collection_id && n.provenance == m.provenance,
        n.created_at == m.created_at && n.updated_at == m.updated_at,
{
}

/// What a placing holds is what the view says: one instant or two, in their order, of a front end that
/// is named or not.
pub proof fn a_placing_holds_what_the_view_says(v: Seq<(Seq<char>, JsonV)>, c: Context)
    ensures
        stamp_of(JsonV::Object(v), c) matches Ok(p) ==> {
            &&& p.center_hz matches Some(x) && writes(v, "center_hz"@, x)
            &&& p.span_hz matches Some(x) && writes(v, "span_hz"@, x)
            &&& p.tier matches Some(t) && member(v, "tier"@) == Some(JsonV::Text(t.wire()))
            &&& p.device_id matches Some(d) ==> member(v, "device_id"@) == Some(JsonV::Text(d))
                && 0 < d.len() <= 200
            &&& p.device_id is None ==> member(v, "device_id"@) is None || member(v, "device_id"@)
                == Some(JsonV::Null)
            &&& member(v, "t_capture"@) matches Some(JsonV::Number(_)) ==> p.t_capture == Some(
                (c.capture_start, c.capture_start),
            )
            &&& member(v, "t_capture"@) matches Some(JsonV::Array(_)) ==> p.t_capture == Some(
                (c.capture_start, c.capture_end),
            ) && c.capture_start <= c.capture_end
            &&& p.sample_rate_hz matches Some(r) ==> r.finite() && (Real { bits: 0 }).below(r)
                && rate_of(c.live@, p.device_id) == Some(r)
            &&& rate_of(c.live@, p.device_id) matches Some(r) ==> (r.finite() && (Real {
                bits: 0,
            }).below(r) ==> p.sample_rate_hz == Some(r))
        },
        stamp_of(JsonV::Null, c) is Err,
{
}

/// What the server stamps may not be sent in a view.
pub proof fn stamped_members_are_owned(v: Seq<(Seq<char>, JsonV)>, i: int)
    requires
        0 <= i < v.len(),
        v[i].0 == "actor"@ || v[i].0 == "authored_s"@ || v[i].0 == "authored"@ || v[i].0
            == "sample_rate_hz"@,
    ensures
        first_owned(v) is Some,
    decreases i,
{
    let o = server_owned();
    assert(o[0] == "actor"@ && o[1] == "authored_s"@ && o[2] == "authored"@ && o[3]
        == "sample_rate_hz"@);
    assert(o.contains(v[i].0));
    if i > 0 && !o.contains(v[0].0) {
        assert(v.skip(1)[i - 1] == v[i]);
        stamped_members_are_owned(v.skip(1), i - 1);
    }
}

/// A new collection is what was written over a fresh one, under the name that was given or a fresh
/// one; it needs a name.
pub proof fn a_new_collection_is_what_was_written(
    body: Seq<(Seq<char>, JsonV)>,
    given: Option<Seq<char>>,
    fresh: CollectionV,
)
    ensures
        new_collection_of(body, given, fresh) matches Ok(c) ==> {
            &&& member(body, "id"@) is None ==> c.id == fresh.id
            &&& member(body, "id"@) is Some ==> Some(c.id) == given
            &&& member(body, "name"@) matches Some(JsonV::Text(s)) ==> c.name == trimmed(s)
            &&& member(body, "note"@) matches Some(v) ==> v == opt_text_v(c.note)
            &&& member(body, "color"@) matches Some(v) ==> v == opt_text_v(c.color)
            &&& member(body, "visible"@) matches Some(v) ==> v == JsonV::Bool(c.visible)
            &&& c.reserved == fresh.reserved
            &&& c.created_at == fresh.created_at
        },
        member(body, "name"@) is None ==> new_collection_of(body, given, fresh) is Err,
        new_collection_of(body, given, fresh) matches Err(f) ==> f.status == 400,
{
    only_allowed_members_pass(body, seq!["id"@, "name"@, "note"@, "color"@, "visible"@]);
    if let Ok(c) = new_collection_of(body, given, fresh) {
        let id = supplied_of(body, given)->Ok_0;
        let start = CollectionV {
            id: match id {
                Some(id) => id,
                None => fresh.id,
            },
            ..fresh
        };
        a_collection_is_set_to_what_is_written(body, start, c);
    }
}

/// A changed collection is what was written over what it was; it is as new as now, though never older
/// than it is.
pub proof fn a_changed_collection_is_what_was_written(
    body: Seq<(Seq<char>, JsonV)>,
    row: CollectionV,
    n: u64,
    now: i64,
)
    ensures
        changed_collection_of(body, true, Ok(row), Ok(n), now) matches Ok(c) ==> {
            &&& set_collection(body, row) matches Ok(d) && c == (CollectionV {
                updated_at: c.updated_at,
                ..d
            })
            &&& c.updated_at >= now
            &&& c.updated_at >= row.created_at
            &&& c.updated_at == now || c.updated_at == row.created_at
            &&& c.id == row.id
        },
        changed_collection_of(body, false, Ok(row), Ok(n), now) is Err,
        member(body, "id"@) is Some ==> changed_collection_of(body, true, Ok(row), Ok(n), now) is Err,
{
    let allowed = seq!["name"@, "note"@, "color"@, "visible"@];
    only_allowed_members_pass(body, allowed);
    if member(body, "id"@) is Some {
        member_index_is_first(body, "id"@);
        let i = member_index(body, "id"@);
        assert(body[i].0 == "id"@);
        assert(!allowed.contains("id"@)) by {
            reveal_strlit("id");
            reveal_strlit("name");
            reveal_strlit("note");
            reveal_strlit("color");
            reveal_strlit("visible");
            assert("id"@.len() == 2 && "name"@.len() == 4 && "note"@.len() == 4 && "color"@.len() == 5
                && "visible"@.len() == 7);
        }
    }
}

/// A new marker is what was written: its frequency, its name and the view that it was placed on are
/// needed, and it is of the time at which it was placed.
pub proof fn a_new_marker_is_what_was_written(
    body: Seq<(Seq<char>, JsonV)>,
    collection_id: Seq<char>,
    c: Context,
)
    ensures
        new_marker_of(body, collection_id, c) matches Ok(m) ==> {
            &&& writes(body, "f_center_hz"@, m.f_center_hz)
            &&& member(body, "name"@) matches Some(JsonV::Text(s)) ==> m.name == trimmed(s)
            &&& m.collection_id == collection_id
            &&& m.created_at == c.now
            &&& m.updated_at == c.now
            &&& member(body, "id"@) is None ==> m.id == c.fresh_id@
            &&& member(body, "id"@) is Some ==> Some(m.id) == opt_string(c.given_id)
            &&& member(body, "view"@) matches Some(v) && stamp_of(v, c) == Ok::<ProvenanceV, FailV>(
                m.provenance,
            )
            &&& member(body, "bandwidth_hz"@) is None ==> m.bandwidth_hz is None
            &&& member(body, "t_center_s"@) is None ==> m.t_center is None
            &&& member(body, "t_center_s"@) is Some && member(body, "t_center_s"@) != Some(
                JsonV::Null,
            ) ==> m.t_center == Some(c.t_center)
            &&& member(body, "duration_s"@) is None ==> m.duration_s is None
        },
        member(body, "view"@) is None || member(body, "name"@) is None || member(body, "f_center_hz"@)
            is None ==> new_marker_of(body, collection_id, c) is Err,
{
    if let Ok(m) = new_marker_of(body, collection_id, c) {
        let id = supplied_of(body, opt_string(c.given_id))->Ok_0;
        let start = fresh_marker(
            match id {
                Some(id) => id,
                None => c.fresh_id@,
            },
            collection_id,
            required_of(body, "f_center_hz"@)->Ok_0,
            stamp_of(member(body, "view"@)->0, c)->Ok_0,
            c.now,
        );
        a_marker_is_set_to_what_is_written(body, start, c.t_center, m);
    }
}

/// A changed marker is what was written over what it was; its stamp is renewed where a view was sent.
pub proof fn a_changed_marker_is_what_was_written(
    body: Seq<(Seq<char>, JsonV)>,
    c: Context,
    row: MarkerV,
)
    ensures
        changed_marker_of(body, c, true, Ok(row)) matches Ok(m) ==> {
            &&& set_marker(body, row, c.t_center) matches Ok(n) && m == (MarkerV {
                provenance: m.provenance,
                updated_at: m.updated_at,
                ..n
            })
            &&& m.updated_at >= c.now
            &&& m.updated_at == c.now || m.updated_at == row.created_at
            &&& member(body, "view"@) matches Some(v) ==> stamp_of(v, c) == Ok::<ProvenanceV, FailV>(
                m.provenance,
            )
        },
        changed_marker_of(body, c, false, Ok(row)) is Err,
{
}

/// What is created is answered whole; one that is there already is a conflict, and without a store
/// nothing is created. What a store refuses is not found, invalid or failed, as it says.
pub proof fn stores_of_collections_answer_for_themselves(
    v: JsonV,
    what: Seq<char>,
    id: Seq<char>,
    e: StoreError,
    inserted: Result<(), StoreError>,
)
    ensures
        created_v(v).status == 201 && created_v(v).body == v && created_v(v).new == v,
        created_v(v).old == JsonV::Null,
        stored_of(what, id, Ok(()), true, true, inserted) matches Err(f) && f.status == 409,
        stored_of(what, id, Ok(()), false, false, inserted) matches Err(f) && f.status == 503,
        stored_of(what, id, Ok(()), true, false, Err(e)) matches Err(f) && {
            &&& e is Invalid <==> f.status == 400
            &&& e is NotFound <==> f.status == 404
            &&& e is Other <==> f.status == 500
        },
{
}

} // verus!
