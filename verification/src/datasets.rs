//! The export of labelled captures.

use vstd::prelude::*;

use crate::analyze::{is_segment, named, one_segment};
use crate::body::{
    at_or_null, fail_v, get_or_null, invalid_v, number, number_of, only, only_allowed_members_pass,
    only_of, outcome, read_result, writes, Fail, FailV,
};
use crate::control::Id;
use crate::dispatch::{applied_result, Applied, AppliedV};
use crate::double::{doubled, halvings, whole_bits, Real, ZERO};
use crate::json::{
    as_uint, at, fields_view, find, member, member_is_the_first, no_fields, Fields, Json, JsonV,
};
use crate::store::{dealt, open_of, open_store, record};
use crate::text::{
    a_remainder_is_what_else_is_there, opt_string, opt_text, same, strip_prefix, texts, trim,
    trimmed, without_prefix,
};

verus! {

/// A refused or failed dataset action.
#[derive(Clone, Debug, PartialEq, Eq)]
pub struct DatasetFailure {
    /// The HTTP status.
    pub status: u16,
    /// A machine code.
    pub code: String,
    /// What went wrong, in words.
    pub message: String,
}

/// The codes that a failure may carry.
pub open spec fn failure_codes() -> Seq<Seq<char>> {
    seq!["invalid"@, "not_found"@, "unavailable"@]
}

/// A failure as the route answers it.
pub open spec fn failure_of(f: DatasetFailure) -> FailV {
    fail_v(
        f.status,
        if failure_codes().contains(f.code@) {
            f.code@
        } else {
            "failed"@
        },
        f.message@,
    )
}

/// [`failure_of`].
pub fn from_failure(f: DatasetFailure) -> (r: Fail)
    ensures
        r@ == failure_of(f),
{
    let names = ["invalid", "not_found", "unavailable"];
    assert(texts(names@) =~= failure_codes());
    Fail::new(f.status, named(f.code.as_str(), &names, "failed"), f.message)
}

// ---------------------------------------------------------------------------------------------
// Routing
// ---------------------------------------------------------------------------------------------

/// An action on datasets.
#[derive(Clone, Copy, Debug, PartialEq, Eq)]
pub enum Action<'a> {
    /// Run an export.
    Export,
    /// The stored ones.
    List,
    /// One.
    Get(&'a str),
}

/// What an [`Action`] holds.
pub enum ActionV {
    /// Run an export.
    Export,
    /// The stored ones.
    List,
    /// One.
    Get(Seq<char>),
}

impl Action<'_> {
    /// What it holds.
    pub open spec fn view(&self) -> ActionV {
        match self {
            Action::Export => ActionV::Export,
            Action::List => ActionV::List,
            Action::Get(id) => ActionV::Get(id@),
        }
    }
}

/// What a method and a path are.
pub open spec fn resolved(method: Seq<char>, path: Seq<char>) -> Option<
    Result<ActionV, Option<Seq<char>>>,
> {
    if path == "/api/datasets"@ {
        Some(
            if method == "GET"@ {
                Ok(ActionV::List)
            } else if method == "POST"@ {
                Ok(ActionV::Export)
            } else {
                Err(Some("GET, POST"@))
            },
        )
    } else {
        match without_prefix(path, "/api/datasets/"@) {
            None => None,
            Some(id) => Some(
                if !is_segment(id) {
                    Err(None)
                } else if method == "GET"@ {
                    Ok(ActionV::Get(id))
                } else {
                    Err(Some("GET"@))
                },
            ),
        }
    }
}

/// What a resolved action holds.
pub open spec fn resolved_view(r: Option<Result<Action, Option<&'static str>>>) -> Option<
    Result<ActionV, Option<Seq<char>>>,
> {
    match r {
        None => None,
        Some(Ok(a)) => Some(Ok(a@)),
        Some(Err(allow)) => Some(Err(opt_text(allow))),
    }
}

/// [`resolved`].
pub fn resolve<'a>(method: &str, path: &'a str) -> (r: Option<
    Result<Action<'a>, Option<&'static str>>,
>)
    ensures
        resolved_view(r) == resolved(method@, path@),
{
    if same(path, "/api/datasets") {
        return Some(
            if same(method, "GET") {
                Ok(Action::List)
            } else if same(method, "POST") {
                Ok(Action::Export)
            } else {
                Err(Some("GET, POST"))
            },
        );
    }
    match strip_prefix(path, "/api/datasets/") {
        None => None,
        Some(id) => Some(
            if !one_segment(id) {
                Err(None)
            } else if same(method, "GET") {
                Ok(Action::Get(id))
            } else {
                Err(Some("GET"))
            },
        ),
    }
}

// ---------------------------------------------------------------------------------------------
// Exports
// ---------------------------------------------------------------------------------------------

/// The bits of 9.2e9: no time lies beyond it.
pub const MAX_TIME: u64 = 0x4201_22e6_e000_0000;

/// The times between which samples are taken, as the request writes them.
pub open spec fn times_of(body: Seq<(Seq<char>, JsonV)>) -> Result<Option<(Real, Real)>, FailV> {
    match member(body, "time"@) {
        None => Ok(None),
        Some(JsonV::Null) => Ok(None),
        Some(JsonV::Object(t)) => match only_of(t, seq!["t0"@, "t1"@]) {
            Err(f) => Err(f),
            Ok(_) => match edge_of(t, "t0"@) {
                Err(f) => Err(f),
                Ok(t0) => match edge_of(t, "t1"@) {
                    Err(f) => Err(f),
                    Ok(t1) => if t0.finite() && t1.finite() && (Real { bits: ZERO }).at_most(t0)
                        && t0.below(Real { bits: MAX_TIME }) && t0.below(t1) {
                        Ok(Some((t0, t1)))
                    } else {
                        Err(
                            invalid_v(
                                "time.t0 and time.t1 are Unix seconds with 0 ≤ t0 < t1"@,
                            ),
                        )
                    },
                },
            },
        },
        Some(_) => Err(invalid_v("time is an object {t0, t1}"@)),
    }
}

/// One of the times.
pub open spec fn edge_of(t: Seq<(Seq<char>, JsonV)>, key: Seq<char>) -> Result<Real, FailV> {
    match number_of(t, key) {
        Err(f) => Err(f),
        Ok(Some(x)) => Ok(x),
        Ok(None) => Err(invalid_v("time."@ + key + " (Unix s) is required"@)),
    }
}

fn edge(t: &Vec<(String, Json)>, key: &str) -> (r: Result<Real, Fail>)
    ensures
        outcome(r) == edge_of(fields_view(t@), key@),
{
    match number(t, key) {
        Err(f) => Err(f),
        Ok(Some(x)) => Ok(x),
        Ok(None) => {
            let m = String::from_str("time.").concat(key).concat(" (Unix s) is required");
            Err(Fail::new(400, "invalid", m))
        },
    }
}

/// [`times_of`].
pub fn time_range(body: &Vec<(String, Json)>) -> (r: Result<Option<(Real, Real)>, Fail>)
    ensures
        outcome(r) == times_of(fields_view(body@)),
{
    match find(body, "time") {
        None => Ok(None),
        Some(Json::Null) => Ok(None),
        Some(Json::Object(t)) => {
            let allowed = ["t0", "t1"];
            assert(texts(allowed@) =~= seq!["t0"@, "t1"@]);
            match only(t, &allowed) {
                Ok(_) => {},
                Err(f) => return Err(f),
            }
            let t0 = match edge(t, "t0") {
                Ok(x) => x,
                Err(f) => return Err(f),
            };
            let t1 = match edge(t, "t1") {
                Ok(x) => x,
                Err(f) => return Err(f),
            };
            let zero = Real { bits: ZERO };
            let last = Real { bits: MAX_TIME };
            if t0.is_finite() && t1.is_finite() && zero.le(t0) && t0.lt(last) && t0.lt(t1) {
                Ok(Some((t0, t1)))
            } else {
                Err(Fail::invalid("time.t0 and time.t1 are Unix seconds with 0 ≤ t0 < t1"))
            }
        },
        Some(_) => Err(Fail::invalid("time is an object {t0, t1}")),
    }
}

/// Which samples are taken.
#[derive(Debug)]
pub struct DatasetFilter {
    /// Of this emitter.
    pub emitter: Option<Id>,
    /// Between these times, in seconds.
    pub time: Option<(Real, Real)>,
    /// Of this family.
    pub family: Option<String>,
}

/// What a [`DatasetFilter`] holds.
pub struct DatasetFilterV {
    /// Of this emitter.
    pub emitter: Option<Id>,
    /// Between these times.
    pub time: Option<(Real, Real)>,
    /// Of this family.
    pub family: Option<Seq<char>>,
}

impl DatasetFilter {
    /// What it holds.
    pub open spec fn view(&self) -> DatasetFilterV {
        DatasetFilterV {
            emitter: self.emitter,
            time: self.time,
            family: opt_string(self.family),
        }
    }
}

/// The emitter of a filter: `id` is what its text writes, where it is an identity.
pub open spec fn emitter_of(f: Seq<(Seq<char>, JsonV)>, id: Option<Id>) -> Result<
    Option<Id>,
    FailV,
> {
    match member(f, "emitter"@) {
        None => Ok(None),
        Some(JsonV::Null) => Ok(None),
        Some(JsonV::Text(_)) => match id {
            Some(id) => Ok(Some(id)),
            None => Err(invalid_v("filter.emitter is not an id"@)),
        },
        Some(_) => Err(invalid_v("filter.emitter is a string id"@)),
    }
}

fn emitter(f: &Vec<(String, Json)>, id: Option<Id>) -> (r: Result<Option<Id>, Fail>)
    ensures
        outcome(r) == emitter_of(fields_view(f@), id),
{
    match find(f, "emitter") {
        None => Ok(None),
        Some(Json::Null) => Ok(None),
        Some(Json::Text(_)) => match id {
            Some(id) => Ok(Some(id)),
            None => Err(Fail::invalid("filter.emitter is not an id")),
        },
        Some(_) => Err(Fail::invalid("filter.emitter is a string id")),
    }
}

/// The family of a filter.
pub open spec fn family_of(f: Seq<(Seq<char>, JsonV)>) -> Result<Option<Seq<char>>, FailV> {
    match member(f, "family"@) {
        None => Ok(None),
        Some(JsonV::Null) => Ok(None),
        Some(JsonV::Text(s)) => if trimmed(s).len() > 0 {
            Ok(Some(s))
        } else {
            Err(invalid_v("filter.family is not empty"@))
        },
        Some(_) => Err(invalid_v("filter.family is a string"@)),
    }
}

/// What a family holds.
pub open spec fn family_result(r: Result<Option<String>, Fail>) -> Result<
    Option<Seq<char>>,
    FailV,
> {
    match r {
        Ok(s) => Ok(opt_string(s)),
        Err(f) => Err(f@),
    }
}

fn family(f: &Vec<(String, Json)>) -> (r: Result<Option<String>, Fail>)
    ensures
        family_result(r) == family_of(fields_view(f@)),
{
    match find(f, "family") {
        None => Ok(None),
        Some(Json::Null) => Ok(None),
        Some(Json::Text(s)) => if trim(s.as_str()).unicode_len() > 0 {
            Ok(Some(s.clone()))
        } else {
            Err(Fail::invalid("filter.family is not empty"))
        },
        Some(_) => Err(Fail::invalid("filter.family is a string")),
    }
}

/// The filter of a request.
pub open spec fn filter_of(body: Seq<(Seq<char>, JsonV)>, id: Option<Id>) -> Result<
    DatasetFilterV,
    FailV,
> {
    match member(body, "filter"@) {
        None => Ok(DatasetFilterV { emitter: None, time: None, family: None }),
        Some(JsonV::Null) => Ok(DatasetFilterV { emitter: None, time: None, family: None }),
        Some(JsonV::Object(f)) => match only_of(f, seq!["emitter"@, "time"@, "family"@]) {
            Err(e) => Err(e),
            Ok(_) => match emitter_of(f, id) {
                Err(e) => Err(e),
                Ok(emitter) => match family_of(f) {
                    Err(e) => Err(e),
                    Ok(family) => match times_of(f) {
                        Err(e) => Err(e),
                        Ok(time) => Ok(DatasetFilterV { emitter, time, family }),
                    },
                },
            },
        },
        Some(_) => Err(invalid_v("filter is an object"@)),
    }
}

/// What a filter or its refusal holds.
pub open spec fn filter_result(r: Result<DatasetFilter, Fail>) -> Result<DatasetFilterV, FailV> {
    match r {
        Ok(f) => Ok(f@),
        Err(e) => Err(e@),
    }
}

/// [`filter_of`].
pub fn filter(body: &Vec<(String, Json)>, id: Option<Id>) -> (r: Result<DatasetFilter, Fail>)
    ensures
        filter_result(r) == filter_of(fields_view(body@), id),
{
    match find(body, "filter") {
        None => Ok(DatasetFilter { emitter: None, time: None, family: None }),
        Some(Json::Null) => Ok(DatasetFilter { emitter: None, time: None, family: None }),
        Some(Json::Object(f)) => {
            let allowed = ["emitter", "time", "family"];
            assert(texts(allowed@) =~= seq!["emitter"@, "time"@, "family"@]);
            match only(f, &allowed) {
                Ok(_) => {},
                Err(e) => return Err(e),
            }
            let emitter = match emitter(f, id) {
                Ok(x) => x,
                Err(e) => return Err(e),
            };
            let family = match family(f) {
                Ok(x) => x,
                Err(e) => return Err(e),
            };
            match time_range(f) {
                Ok(time) => Ok(DatasetFilter { emitter, time, family }),
                Err(e) => Err(e),
            }
        },
        Some(_) => Err(Fail::invalid("filter is an object")),
    }
}

/// What a dataset is for.
#[derive(Clone, Copy, Debug, PartialEq, Eq, Structural)]
pub enum Split {
    /// Fitting.
    Dev,
    /// Blind evaluation.
    Acceptance,
}

/// The split of a request: there is no default.
pub open spec fn split_of(body: Seq<(Seq<char>, JsonV)>) -> Result<Split, FailV> {
    match member(body, "split"@) {
        Some(JsonV::Text(s)) => if s == "dev"@ {
            Ok(Split::Dev)
        } else if s == "acceptance"@ {
            Ok(Split::Acceptance)
        } else {
            Err(invalid_v("split must be \"dev\" or \"acceptance\""@))
        },
        _ => Err(invalid_v("split (\"dev\" or \"acceptance\") is required"@)),
    }
}

/// [`split_of`].
pub fn split(body: &Vec<(String, Json)>) -> (r: Result<Split, Fail>)
    ensures
        outcome(r) == split_of(fields_view(body@)),
{
    match find(body, "split") {
        Some(Json::Text(s)) => if same(s.as_str(), "dev") {
            Ok(Split::Dev)
        } else if same(s.as_str(), "acceptance") {
            Ok(Split::Acceptance)
        } else {
            Err(Fail::invalid("split must be \"dev\" or \"acceptance\""))
        },
        _ => Err(Fail::invalid("split (\"dev\" or \"acceptance\") is required")),
    }
}

/// An optional number that is not negative.
pub open spec fn positive_of(body: Seq<(Seq<char>, JsonV)>, key: Seq<char>) -> Result<
    Option<Real>,
    FailV,
> {
    match number_of(body, key) {
        Err(f) => Err(f),
        Ok(None) => Ok(None),
        Ok(Some(v)) => if (Real { bits: ZERO }).at_most(v) {
            Ok(Some(v))
        } else {
            Err(invalid_v(key + " must be non-negative"@))
        },
    }
}

/// [`positive_of`].
pub fn positive(body: &Vec<(String, Json)>, key: &str) -> (r: Result<Option<Real>, Fail>)
    ensures
        outcome(r) == positive_of(fields_view(body@), key@),
{
    let zero = Real { bits: ZERO };
    match number(body, key) {
        Err(f) => Err(f),
        Ok(None) => Ok(None),
        Ok(Some(v)) => if zero.le(v) {
            Ok(Some(v))
        } else {
            let m = String::from_str(key).concat(" must be non-negative");
            Err(Fail::new(400, "invalid", m))
        },
    }
}

/// How many samples at most.
pub open spec fn max_samples_of(body: Seq<(Seq<char>, JsonV)>) -> Result<Option<u64>, FailV> {
    match member(body, "max_samples"@) {
        None => Ok(None),
        Some(v) => match as_uint(v) {
            Some(n) => if n >= 1 {
                Ok(Some(n))
            } else {
                Err(invalid_v("max_samples must be an integer of at least 1"@))
            },
            None => Err(invalid_v("max_samples must be an integer of at least 1"@)),
        },
    }
}

fn max_samples(body: &Vec<(String, Json)>) -> (r: Result<Option<u64>, Fail>)
    ensures
        outcome(r) == max_samples_of(fields_view(body@)),
{
    match find(body, "max_samples") {
        None => Ok(None),
        Some(v) => match v.unsigned() {
            Some(n) => if n >= 1 {
                Ok(Some(n))
            } else {
                Err(Fail::invalid("max_samples must be an integer of at least 1"))
            },
            None => Err(Fail::invalid("max_samples must be an integer of at least 1")),
        },
    }
}

/// A request for an export; what it leaves out is the exporter's to choose.
#[derive(Debug)]
pub struct DatasetRequest {
    /// Which samples.
    pub filter: DatasetFilter,
    /// What for.
    pub split: Split,
    /// Seconds before each.
    pub pad_pre_s: Option<Real>,
    /// Seconds behind each.
    pub pad_post_s: Option<Real>,
    /// How many at most.
    pub max_samples: Option<u64>,
}

/// What a [`DatasetRequest`] holds.
pub struct DatasetRequestV {
    /// Which samples.
    pub filter: DatasetFilterV,
    /// What for.
    pub split: Split,
    /// Seconds before each.
    pub pad_pre_s: Option<Real>,
    /// Seconds behind each.
    pub pad_post_s: Option<Real>,
    /// How many at most.
    pub max_samples: Option<u64>,
}

impl DatasetRequest {
    /// What it holds.
    pub open spec fn view(&self) -> DatasetRequestV {
        DatasetRequestV {
            filter: self.filter@,
            split: self.split,
            pad_pre_s: self.pad_pre_s,
            pad_post_s: self.pad_post_s,
            max_samples: self.max_samples,
        }
    }
}

/// The members of a request.
pub open spec fn request_members() -> Seq<Seq<char>> {
    seq!["filter"@, "split"@, "pad_pre_s"@, "pad_post_s"@, "max_samples"@]
}

/// What a body asks to be exported: `id` is the emitter that its filter writes.
pub open spec fn request_of(body: Seq<(Seq<char>, JsonV)>, id: Option<Id>, present: bool) -> Result<
    DatasetRequestV,
    FailV,
> {
    match only_of(body, request_members()) {
        Err(f) => Err(f),
        Ok(_) => match filter_of(body, id) {
            Err(f) => Err(f),
            Ok(filter) => match split_of(body) {
                Err(f) => Err(f),
                Ok(split) => match positive_of(body, "pad_pre_s"@) {
                    Err(f) => Err(f),
                    Ok(pad_pre_s) => match positive_of(body, "pad_post_s"@) {
                        Err(f) => Err(f),
                        Ok(pad_post_s) => match max_samples_of(body) {
                            Err(f) => Err(f),
                            Ok(max_samples) => match open_of(
                                present,
                                "no dataset export on this server"@,
                            ) {
                                Err(f) => Err(f),
                                Ok(_) => Ok(
                                    DatasetRequestV {
                                        filter,
                                        split,
                                        pad_pre_s,
                                        pad_post_s,
                                        max_samples,
                                    },
                                ),
                            },
                        },
                    },
                },
            },
        },
    }
}

/// What a request or its refusal holds.
pub open spec fn request_result(r: Result<DatasetRequest, Fail>) -> Result<DatasetRequestV, FailV> {
    match r {
        Ok(q) => Ok(q@),
        Err(f) => Err(f@),
    }
}

/// [`request_of`].
pub fn plan_export(body: &Vec<(String, Json)>, id: Option<Id>, present: bool) -> (r: Result<
    DatasetRequest,
    Fail,
>)
    ensures
        request_result(r) == request_of(fields_view(body@), id, present),
{
    let allowed = ["filter", "split", "pad_pre_s", "pad_post_s", "max_samples"];
    assert(texts(allowed@) =~= request_members());
    match only(body, &allowed) {
        Ok(_) => {},
        Err(f) => return Err(f),
    }
    let filter = match filter(body, id) {
        Ok(x) => x,
        Err(f) => return Err(f),
    };
    let split = match split(body) {
        Ok(x) => x,
        Err(f) => return Err(f),
    };
    let pad_pre_s = match positive(body, "pad_pre_s") {
        Ok(x) => x,
        Err(f) => return Err(f),
    };
    let pad_post_s = match positive(body, "pad_post_s") {
        Ok(x) => x,
        Err(f) => return Err(f),
    };
    let max_samples = match max_samples(body) {
        Ok(x) => x,
        Err(f) => return Err(f),
    };
    match open_store(present, "no dataset export on this server") {
        Ok(_) => Ok(DatasetRequest { filter, split, pad_pre_s, pad_post_s, max_samples }),
        Err(f) => Err(f),
    }
}

/// A request that names no split is refused, whatever else it says: nothing falls into one of the
/// two by default.
pub proof fn no_split_is_assumed(body: Seq<(Seq<char>, JsonV)>, id: Option<Id>, present: bool)
    requires
        member(body, "split"@) is None,
    ensures
        request_of(body, id, present) is Err,
{
}

/// A manifest in its envelope.
pub open spec fn dataset_v(manifest: JsonV) -> JsonV {
    JsonV::Object(no_fields().push(("dataset"@, manifest)))
}

/// What an export is answered with: the manifest, of which the audit keeps the identity and the
/// number of samples.
pub open spec fn exported_of(manifest: Result<Json, DatasetFailure>) -> Result<AppliedV, FailV> {
    match manifest {
        Err(f) => Err(failure_of(f)),
        Ok(m) => Ok(
            AppliedV {
                status: 201,
                body: dataset_v(m.view()),
                old: JsonV::Null,
                new: JsonV::Object(
                    no_fields().push(("id"@, at_or_null(m.view(), "id"@))).push(
                        ("samples"@, at_or_null(m.view(), "samples"@)),
                    ),
                ),
            },
        ),
    }
}

/// [`exported_of`].
pub fn exported(manifest: Result<Json, DatasetFailure>) -> (r: Result<Applied, Fail>)
    ensures
        applied_result(r) == exported_of(manifest),
{
    match manifest {
        Err(f) => Err(from_failure(f)),
        Ok(m) => {
            let mut new = Fields::new();
            new.put("id", get_or_null(&m, "id"));
            new.put("samples", get_or_null(&m, "samples"));
            let mut body = Fields::new();
            body.put("dataset", m);
            Ok(
                Applied {
                    status: 201,
                    body: body.object(),
                    old: Json::Null,
                    new: new.object(),
                },
            )
        },
    }
}

// ---------------------------------------------------------------------------------------------
// The service
// ---------------------------------------------------------------------------------------------

/// The export of labelled captures, as one request holds it. An implementation adds one dealing for
/// each export that is asked for.
pub trait DatasetControl {
    /// The exports asked for through this handle so far, each with its answer.
    open spec fn dealings(&self) -> Seq<(DatasetRequestV, Result<Json, DatasetFailure>)> {
        record(self)
    }

    /// Runs an export; the manifest.
    fn export(&mut self, request: &DatasetRequest) -> (r: Result<Json, DatasetFailure>)
        ensures
            final(self).dealings() == old(self).dealings().push((request@, r)),
    ;

    /// The stored ones.
    fn list(&self) -> (r: Result<Json, DatasetFailure>);

    /// One of them.
    fn get(&self, id: &str) -> (r: Result<Json, DatasetFailure>);
}

/// The export is not there.
pub open spec fn unavailable_v() -> FailV {
    fail_v(503, "unavailable"@, "no dataset export on this server"@)
}

fn unavailable() -> (r: Fail)
    ensures
        r@ == unavailable_v(),
{
    Fail::of(503, "unavailable", "no dataset export on this server")
}

/// What the service's answer to a read holds.
pub open spec fn read_of(r: Result<Json, DatasetFailure>) -> Result<JsonV, FailV> {
    match r {
        Ok(j) => Ok(j.view()),
        Err(f) => Err(failure_of(f)),
    }
}

/// The stored datasets, as the service says them.
pub fn read_list<C: DatasetControl + ?Sized>(control: Option<&C>) -> (out: Result<Json, Fail>)
    ensures
        match control {
            None => read_result(out) == Err::<JsonV, FailV>(unavailable_v()),
            Some(c) => exists|r: Result<Json, DatasetFailure>| #[trigger]
                call_ensures(C::list, (c,), r) && read_result(out) == read_of(r),
        },
{
    match control {
        None => Err(unavailable()),
        Some(c) => match c.list() {
            Ok(j) => Ok(j),
            Err(f) => Err(from_failure(f)),
        },
    }
}

/// One dataset, as the service says it.
pub fn read_one<C: DatasetControl + ?Sized>(control: Option<&C>, id: &str) -> (out: Result<
    Json,
    Fail,
>)
    ensures
        match control {
            None => read_result(out) == Err::<JsonV, FailV>(unavailable_v()),
            Some(c) => exists|r: Result<Json, DatasetFailure>| #[trigger]
                call_ensures(C::get, (c, id), r) && read_result(out) == (match read_of(r) {
                    Ok(v) => Ok(dataset_v(v)),
                    Err(f) => Err(f),
                }),
        },
{
    match control {
        None => Err(unavailable()),
        Some(c) => match c.get(id) {
            Ok(j) => {
                let mut f = Fields::new();
                f.put("dataset", j);
                Ok(f.object())
            },
            Err(f) => Err(from_failure(f)),
        },
    }
}

/// Exports what a body asks for, once: nothing is exported where the body is refused.
pub fn export<C: DatasetControl + ?Sized>(
    control: Option<&mut C>,
    body: &Vec<(String, Json)>,
    id: Option<Id>,
) -> (r: Result<Applied, Fail>)
    ensures
        match (request_of(fields_view(body@), id, control is Some), control) {
            (Err(f), None) => applied_result(r) == Err::<AppliedV, FailV>(f),
            (Err(f), Some(c)) => applied_result(r) == Err::<AppliedV, FailV>(f)
                && final(c).dealings() == c.dealings(),
            (Ok(_), None) => false,
            (Ok(asked), Some(c)) => exists|manifest: Result<Json, DatasetFailure>|
                #[trigger] dealt(c.dealings(), final(c).dealings(), asked, manifest)
                    && applied_result(r) == exported_of(manifest),
        },
{
    let request = match plan_export(body, id, control.is_some()) {
        Ok(q) => q,
        Err(f) => return Err(f),
    };
    match control {
        None => Err(unavailable()),
        Some(c) => {
            let ghost was = c.dealings();
            let manifest = c.export(&request);
            assert(dealt(was, c.dealings(), request@, manifest));
            exported(manifest)
        },
    }
}

/// The datasets are at one path and each at the path of its name.
pub proof fn datasets_are_at_their_paths(method: Seq<char>, name: Seq<char>)
    ensures
        resolved("GET"@, "/api/datasets"@) == Some(Ok::<ActionV, Option<Seq<char>>>(ActionV::List)),
        resolved("POST"@, "/api/datasets"@) == Some(
            Ok::<ActionV, Option<Seq<char>>>(ActionV::Export),
        ),
        is_segment(name) ==> resolved("GET"@, "/api/datasets/"@ + name) == Some(
            Ok::<ActionV, Option<Seq<char>>>(ActionV::Get(name)),
        ),
        is_segment(name) && method != "GET"@ ==> resolved(method, "/api/datasets/"@ + name) == Some(
            Err::<ActionV, Option<Seq<char>>>(Some("GET"@)),
        ),
        !is_segment(name) ==> resolved(method, "/api/datasets/"@ + name) == Some(
            Err::<ActionV, Option<Seq<char>>>(None),
        ),
{
    assert("GET"@ != "POST"@) by {
        reveal_strlit("GET");
        reveal_strlit("POST");
        assert("GET"@.len() != "POST"@.len());
    }
    reveal_strlit("/api/datasets");
    reveal_strlit("/api/datasets/");
    assert(("/api/datasets/"@ + name).len() > "/api/datasets"@.len());
    a_remainder_is_what_else_is_there(name, "/api/datasets/"@);
}

/// The times of a filter are those that were written, the first neither before the epoch nor past the
/// clock, and before the second.
pub proof fn times_are_those_written(body: Seq<(Seq<char>, JsonV)>, t: Seq<(Seq<char>, JsonV)>)
    ensures
        times_of(body) matches Ok(Some((a, b))) ==> (member(body, "time"@) matches Some(
            JsonV::Object(o),
        ) && writes(o, "t0"@, a) && writes(o, "t1"@, b)) && a.below(b) && (Real { bits: 0 }).at_most(a)
            && a.below(Real { bits: whole_bits(9_200_000_000) as u64 }),
        times_of(body) == Ok::<Option<(Real, Real)>, FailV>(None) <==> member(body, "time"@) is None
            || member(body, "time"@) == Some(JsonV::Null),
        times_of(body) matches Err(f) ==> f.status == 400,
        member(body, "time"@) == Some(JsonV::Object(t)) && (member(t, "t0"@) is None || member(
            t,
            "t1"@,
        ) is None) ==> times_of(body) is Err,
{
    assert(whole_bits(9_200_000_000) == MAX_TIME) by {
        reveal_with_fuel(halvings, 35);
        reveal_with_fuel(doubled, 21);
        assert(halvings(9_200_000_000) == 33);
        assert(doubled(9_200_000_000, 19) == 4_823_449_600_000_000);
    }
    if let Some(JsonV::Object(o)) = member(body, "time"@) {
        only_allowed_members_pass(o, seq!["t0"@, "t1"@]);
    }
}

/// A filter is of the emitter, the family and the times that were written; one that is not there
/// filters nothing.
pub proof fn a_filter_is_what_was_written(body: Seq<(Seq<char>, JsonV)>, id: Option<Id>)
    ensures
        member(body, "filter"@) is None || member(body, "filter"@) == Some(JsonV::Null) ==> (filter_of(
            body,
            id,
        ) matches Ok(f) && f.emitter is None && f.time is None && f.family is None),
        member(body, "filter"@) matches Some(JsonV::Object(o)) ==> (filter_of(body, id) matches Ok(f)
            ==> {
            &&& times_of(o) == Ok::<Option<(Real, Real)>, FailV>(f.time)
            &&& f.family matches Some(s) ==> member(o, "family"@) == Some(JsonV::Text(s)) && trimmed(
                s,
            ).len() > 0
            &&& f.family is None ==> member(o, "family"@) is None || member(o, "family"@) == Some(
                JsonV::Null,
            )
            &&& f.emitter is None ==> member(o, "emitter"@) is None || member(o, "emitter"@) == Some(
                JsonV::Null,
            )
            &&& f.emitter is Some ==> f.emitter == id && (member(o, "emitter"@) matches Some(v) && v
                is Text)
        }),
        filter_of(body, id) matches Err(f) ==> f.status == 400,
{
    if let Some(JsonV::Object(o)) = member(body, "filter"@) {
        only_allowed_members_pass(o, seq!["emitter"@, "time"@, "family"@]);
        times_are_those_written(o, o);
    }
}

/// What is exported is what was asked for: the split, what is padded before and after, and how many
/// samples at most.
pub proof fn an_export_is_what_was_asked_for(body: Seq<(Seq<char>, JsonV)>, id: Option<Id>)
    ensures
        request_of(body, id, true) matches Ok(q) ==> {
            &&& filter_of(body, id) == Ok::<DatasetFilterV, FailV>(q.filter)
            &&& q.split is Dev <==> member(body, "split"@) == Some(JsonV::Text("dev"@))
            &&& q.split is Acceptance <==> member(body, "split"@) == Some(
                JsonV::Text("acceptance"@),
            )
            &&& q.pad_pre_s is None <==> member(body, "pad_pre_s"@) is None
            &&& q.pad_pre_s matches Some(x) ==> writes(body, "pad_pre_s"@, x) && (Real {
                bits: 0,
            }).at_most(x)
            &&& q.pad_post_s is None <==> member(body, "pad_post_s"@) is None
            &&& q.pad_post_s matches Some(x) ==> writes(body, "pad_post_s"@, x) && (Real {
                bits: 0,
            }).at_most(x)
            &&& q.max_samples is None <==> member(body, "max_samples"@) is None
            &&& q.max_samples matches Some(n) ==> n >= 1 && (member(body, "max_samples"@) matches Some(
                v,
            ) && as_uint(v) == Some(n))
        },
        request_of(body, id, true) matches Err(f) ==> f.status == 400,
        request_of(body, id, false) is Err,
{
    only_allowed_members_pass(body, request_members());
    a_filter_is_what_was_written(body, id);
    assert("dev"@ != "acceptance"@) by {
        reveal_strlit("dev");
        reveal_strlit("acceptance");
        assert("dev"@.len() != "acceptance"@.len());
    }
}

/// An export is answered with its manifest, and the log has its name and the number of its samples;
/// what the exporter refuses is passed on.
pub proof fn an_export_is_answered_with_its_manifest(m: Json, e: DatasetFailure)
    ensures
        exported_of(Ok(m)) matches Ok(a) && {
            &&& a.status == 201
            &&& at(a.body, "dataset"@) == Some(m.view())
            &&& a.old == JsonV::Null
            &&& at(m.view(), "id"@) matches Some(v) ==> at(a.new, "id"@) == Some(v)
            &&& at(m.view(), "samples"@) matches Some(v) ==> at(a.new, "samples"@) == Some(v)
        },
        exported_of(Err(e)) matches Err(f) && f.status == e.status && f.message == e.message@,
        read_of(Ok(m)) == Ok::<JsonV, FailV>(m.view()),
        failure_of(e).code == e.code@ || failure_of(e).code == "failed"@,
        e.code@ == "invalid"@ || e.code@ == "not_found"@ || e.code@ == "unavailable"@ ==> failure_of(
            e,
        ).code == e.code@,
{
    let a = exported_of(Ok(m))->Ok_0;
    member_is_the_first(a.body->Object_0, "dataset"@, 0);
    let f = a.new->Object_0;
    member_is_the_first(f, "id"@, 0);
    assert("id"@ != "samples"@) by {
        reveal_strlit("id");
        reveal_strlit("samples");
        assert("id"@.len() != "samples"@.len());
    }
    member_is_the_first(f, "samples"@, 1);
    assert(failure_codes()[0] == "invalid"@ && failure_codes()[1] == "not_found"@
        && failure_codes()[2] == "unavailable"@);
}

} // verus!
