//! Anomalies and alarms: listing them, dismissing one and opening it again.

use vstd::prelude::*;

use crate::body::{fail_v, invalid_v, outcome, read_result, Fail, FailV};
use crate::control::Id;
use crate::dispatch::{applied_result, Applied, AppliedV};
use crate::double::{parse_real, text_real, Real, ONE};
use crate::json::{
    at, fields_view, fields_view_each, find, items_view, member, member_is_the_first, no_fields,
    opt_text_v, text_v, uint_v, Fields, Json, JsonV,
};
use crate::request::{find_value, pairs, value_of};
use crate::store::{dealt, open_of, open_store, record};
use crate::text::{
    a_remainder_is_what_else_is_there, a_text_is_cut_at_the_first, chars_of, debug, debug_text,
    opt_string, opt_text, same, split_once, split_once_on, strip_prefix, without_prefix,
};

verus! {

/// The size of a page that names none.
pub const ANOMALIES_DEFAULT_LIMIT: usize = 100;

/// A refused or failed call.
#[derive(Clone, Debug, PartialEq, Eq)]
pub enum AnomalyFail {
    /// No such anomaly.
    NotFound,
    /// Not applicable.
    Conflict(String),
    /// Storage failure.
    Failed(String),
}

/// What it is answered with.
pub open spec fn fail_of(e: AnomalyFail) -> FailV {
    match e {
        AnomalyFail::NotFound => fail_v(404, "not_found"@, "no such anomaly"@),
        AnomalyFail::Conflict(m) => fail_v(409, "conflict"@, m@),
        AnomalyFail::Failed(m) => fail_v(500, "failed"@, m@),
    }
}

/// [`fail_of`].
pub fn fail(e: AnomalyFail) -> (r: Fail)
    ensures
        r@ == fail_of(e),
{
    match e {
        AnomalyFail::NotFound => Fail::of(404, "not_found", "no such anomaly"),
        AnomalyFail::Conflict(m) => Fail::new(409, "conflict", m),
        AnomalyFail::Failed(m) => Fail::new(500, "failed", m),
    }
}

/// The service must be there.
pub fn control(present: bool) -> (r: Result<(), Fail>)
    ensures
        outcome(r) == open_of(present, "no anomaly service on this server"@),
{
    open_store(present, "no anomaly service on this server")
}

// ---------------------------------------------------------------------------------------------
// Routing
// ---------------------------------------------------------------------------------------------

/// An action on anomalies.
#[derive(Clone, Copy, Debug, PartialEq, Eq, Structural)]
pub enum Action {
    /// A page of them.
    List,
    /// One.
    Get(Id),
    /// Dismiss one.
    Dismiss(Id),
    /// Open one again.
    Reopen(Id),
}

impl Action {
    /// What it is audited as.
    pub fn name(self) -> (r: &'static str)
        ensures
            r@ == (match self {
                Action::List => "anomalies"@,
                Action::Get(_) => "anomaly"@,
                Action::Dismiss(_) => "anomaly_dismiss"@,
                Action::Reopen(_) => "anomaly_reopen"@,
            }),
    {
        match self {
            Action::List => "anomalies",
            Action::Get(_) => "anomaly",
            Action::Dismiss(_) => "anomaly_dismiss",
            Action::Reopen(_) => "anomaly_reopen",
        }
    }

    /// It changes something.
    pub fn mutating(self) -> (r: bool)
        ensures
            r == (self is Dismiss || self is Reopen),
    {
        match self {
            Action::Dismiss(_) => true,
            Action::Reopen(_) => true,
            _ => false,
        }
    }
}

/// What a method and a path are.
#[derive(Clone, Copy, Debug, PartialEq, Eq)]
pub enum Routed {
    /// This action.
    To(Action),
    /// The path takes this method.
    Takes(&'static str),
    /// The path names no identity.
    BadId,
}

/// What a [`Routed`] holds.
pub enum RoutedV {
    /// This action.
    To(Action),
    /// The path takes this method.
    Takes(Seq<char>),
    /// The path names no identity.
    BadId,
}

/// The action where the method is the one that the path takes and the identity is one.
pub open spec fn routed_to(method: Seq<char>, takes: Seq<char>, a: Option<Action>) -> RoutedV {
    if method != takes {
        RoutedV::Takes(takes)
    } else {
        match a {
            Some(a) => RoutedV::To(a),
            None => RoutedV::BadId,
        }
    }
}

/// What follows the first segment: an identity, and what is done with it.
pub open spec fn parts(rest: Seq<char>) -> (Seq<char>, Option<Seq<char>>) {
    match split_once_on(rest, '/') {
        Some((id, verb)) => (id, Some(verb)),
        None => (rest, None),
    }
}

/// The text in a path that should be an identity.
pub open spec fn path_id_of(path: Seq<char>) -> Option<Seq<char>> {
    match without_prefix(path, "/api/anomalies/"@) {
        None => None,
        Some(rest) => Some(parts(rest).0),
    }
}

/// [`path_id_of`].
pub fn path_id(path: &str) -> (r: Option<&str>)
    ensures
        opt_text(r) == path_id_of(path@),
{
    match strip_prefix(path, "/api/anomalies/") {
        None => None,
        Some(rest) => match split_once(rest, '/') {
            Some((id, _)) => Some(id),
            None => Some(rest),
        },
    }
}

/// What a method and a path are: none where the path is not one of these. `id` is what the text
/// of [`path_id_of`] names, where it names one.
pub open spec fn resolved(method: Seq<char>, path: Seq<char>, id: Option<Id>) -> Option<RoutedV> {
    match without_prefix(path, "/api/anomalies"@) {
        None => None,
        Some(rest) => if rest.len() == 0 {
            Some(routed_to(method, "GET"@, Some(Action::List)))
        } else {
            match without_prefix(rest, "/"@) {
                None => None,
                Some(rest) => match parts(rest).1 {
                    None => Some(
                        routed_to(
                            method,
                            "GET"@,
                            match id {
                                Some(id) => Some(Action::Get(id)),
                                None => None,
                            },
                        ),
                    ),
                    Some(verb) => if verb == "dismiss"@ {
                        Some(
                            routed_to(
                                method,
                                "POST"@,
                                match id {
                                    Some(id) => Some(Action::Dismiss(id)),
                                    None => None,
                                },
                            ),
                        )
                    } else if verb == "reopen"@ {
                        Some(
                            routed_to(
                                method,
                                "POST"@,
                                match id {
                                    Some(id) => Some(Action::Reopen(id)),
                                    None => None,
                                },
                            ),
                        )
                    } else {
                        None
                    },
                },
            }
        },
    }
}

/// What a routed request holds.
pub open spec fn routed_view(r: Option<Routed>) -> Option<RoutedV> {
    match r {
        None => None,
        Some(Routed::To(a)) => Some(RoutedV::To(a)),
        Some(Routed::Takes(m)) => Some(RoutedV::Takes(m@)),
        Some(Routed::BadId) => Some(RoutedV::BadId),
    }
}

fn route_to(method: &str, takes: &'static str, a: Option<Action>) -> (r: Routed)
    ensures
        routed_view(Some(r)) == Some(routed_to(method@, takes@, a)),
{
    if !same(method, takes) {
        return Routed::Takes(takes);
    }
    match a {
        Some(a) => Routed::To(a),
        None => Routed::BadId,
    }
}

/// [`resolved`].
pub fn resolve(method: &str, path: &str, id: Option<Id>) -> (r: Option<Routed>)
    ensures
        routed_view(r) == resolved(method@, path@, id),
{
    let rest = match strip_prefix(path, "/api/anomalies") {
        Some(rest) => rest,
        None => return None,
    };
    if rest.is_empty() {
        return Some(route_to(method, "GET", Some(Action::List)));
    }
    let rest = match strip_prefix(rest, "/") {
        Some(rest) => rest,
        None => return None,
    };
    match split_once(rest, '/') {
        None => Some(
            route_to(
                method,
                "GET",
                match id {
                    Some(id) => Some(Action::Get(id)),
                    None => None,
                },
            ),
        ),
        Some((_, verb)) => if same(verb, "dismiss") {
            Some(
                route_to(
                    method,
                    "POST",
                    match id {
                        Some(id) => Some(Action::Dismiss(id)),
                        None => None,
                    },
                ),
            )
        } else if same(verb, "reopen") {
            Some(
                route_to(
                    method,
                    "POST",
                    match id {
                        Some(id) => Some(Action::Reopen(id)),
                        None => None,
                    },
                ),
            )
        } else {
            None
        },
    }
}

/// What a path without an identity is refused with.
pub fn bad_id() -> (r: Fail)
    ensures
        r@ == invalid_v("anomaly id must be a UUID"@),
{
    Fail::invalid("anomaly id must be a UUID")
}

// ---------------------------------------------------------------------------------------------
// Reads
// ---------------------------------------------------------------------------------------------

/// The first value of a parameter.
pub fn param<'a>(query: &'a Vec<(String, String)>, key: &str) -> (r: Option<&'a str>)
    ensures
        opt_text(r) == value_of(pairs(query@), key@),
{
    find_value(query.as_slice(), key)
}

/// An optional finite number among the parameters.
pub open spec fn number_of(q: Seq<(Seq<char>, Seq<char>)>, key: Seq<char>) -> Result<
    Option<Real>,
    FailV,
> {
    match value_of(q, key) {
        None => Ok(None),
        Some(v) => match text_real(v) {
            Some(x) => Ok(Some(x)),
            None => Err(invalid_v(key + " must be a number"@)),
        },
    }
}

/// [`number_of`].
pub fn number(q: &Vec<(String, String)>, key: &str) -> (r: Result<Option<Real>, Fail>)
    ensures
        outcome(r) == number_of(pairs(q@), key@),
{
    match param(q, key) {
        None => Ok(None),
        Some(v) => match parse_real(v) {
            Some(x) => Ok(Some(x)),
            None => {
                let m = String::from_str(key).concat(" must be a number");
                Err(Fail::new(400, "invalid", m))
            },
        },
    }
}

/// Two numbers that go together, the first below the second.
pub open spec fn pair_of(q: Seq<(Seq<char>, Seq<char>)>, a: Seq<char>, b: Seq<char>) -> Result<
    Option<(Real, Real)>,
    FailV,
> {
    match (number_of(q, a), number_of(q, b)) {
        (Err(f), _) => Err(f),
        (_, Err(f)) => Err(f),
        (Ok(None), Ok(None)) => Ok(None),
        (Ok(Some(x)), Ok(Some(y))) => if x.below(y) {
            Ok(Some((x, y)))
        } else {
            Err(bad_pair(a, b))
        },
        _ => Err(bad_pair(a, b)),
    }
}

/// What another pair is refused with.
pub open spec fn bad_pair(a: Seq<char>, b: Seq<char>) -> FailV {
    invalid_v(a + " and "@ + b + " must be given together with "@ + a + " below "@ + b)
}

fn refuse_pair(a: &str, b: &str) -> (r: Fail)
    ensures
        r@ == bad_pair(a@, b@),
{
    let m = String::from_str(a).concat(" and ").concat(b).concat(
        " must be given together with ",
    ).concat(a).concat(" below ").concat(b);
    Fail::new(400, "invalid", m)
}

/// [`pair_of`].
pub fn pair(q: &Vec<(String, String)>, a: &str, b: &str) -> (r: Result<Option<(Real, Real)>, Fail>)
    ensures
        outcome(r) == pair_of(pairs(q@), a@, b@),
{
    let x = match number(q, a) {
        Ok(x) => x,
        Err(f) => return Err(f),
    };
    let y = match number(q, b) {
        Ok(y) => y,
        Err(f) => return Err(f),
    };
    match (x, y) {
        (None, None) => Ok(None),
        (Some(x), Some(y)) => if x.lt(y) {
            Ok(Some((x, y)))
        } else {
            Err(refuse_pair(a, b))
        },
        _ => Err(refuse_pair(a, b)),
    }
}

/// What an anomaly is of.
#[derive(Clone, Copy, Debug, PartialEq, Eq, Structural)]
pub enum AnomalyKind {
    /// An emitter not seen before.
    NewEmitter,
    /// More activity than the baseline.
    BusierThanBaseline,
    /// Less activity than the baseline.
    QuieterThanBaseline,
    /// The noise floor rose.
    NoiseFloorRise,
    /// Something novel.
    Novelty,
    /// A level above the baseline.
    LevelAboveBaseline,
    /// A point of change.
    ChangePoint,
}

/// The kind of a name.
pub open spec fn kind_named(s: Seq<char>) -> Option<AnomalyKind> {
    if s == "new-emitter"@ {
        Some(AnomalyKind::NewEmitter)
    } else if s == "busier-than-baseline"@ {
        Some(AnomalyKind::BusierThanBaseline)
    } else if s == "quieter-than-baseline"@ {
        Some(AnomalyKind::QuieterThanBaseline)
    } else if s == "noise-floor-rise"@ {
        Some(AnomalyKind::NoiseFloorRise)
    } else if s == "novelty"@ {
        Some(AnomalyKind::Novelty)
    } else if s == "level-above-baseline"@ {
        Some(AnomalyKind::LevelAboveBaseline)
    } else if s == "change-point"@ {
        Some(AnomalyKind::ChangePoint)
    } else {
        None
    }
}

fn kind_by_name(s: &str) -> (r: Option<AnomalyKind>)
    ensures
        r == kind_named(s@),
{
    if same(s, "new-emitter") {
        Some(AnomalyKind::NewEmitter)
    } else if same(s, "busier-than-baseline") {
        Some(AnomalyKind::BusierThanBaseline)
    } else if same(s, "quieter-than-baseline") {
        Some(AnomalyKind::QuieterThanBaseline)
    } else if same(s, "noise-floor-rise") {
        Some(AnomalyKind::NoiseFloorRise)
    } else if same(s, "novelty") {
        Some(AnomalyKind::Novelty)
    } else if same(s, "level-above-baseline") {
        Some(AnomalyKind::LevelAboveBaseline)
    } else if same(s, "change-point") {
        Some(AnomalyKind::ChangePoint)
    } else {
        None
    }
}

/// Where an anomaly stands.
#[derive(Clone, Copy, Debug, PartialEq, Eq, Structural)]
pub enum AnomalyStatus {
    /// Open.
    Open,
    /// Resolved.
    Resolved,
    /// Dismissed.
    Dismissed,
}

/// The status of a name.
pub open spec fn status_named(s: Seq<char>) -> Option<AnomalyStatus> {
    if s == "open"@ {
        Some(AnomalyStatus::Open)
    } else if s == "resolved"@ {
        Some(AnomalyStatus::Resolved)
    } else if s == "dismissed"@ {
        Some(AnomalyStatus::Dismissed)
    } else {
        None
    }
}

fn status_by_name(s: &str) -> (r: Option<AnomalyStatus>)
    ensures
        r == status_named(s@),
{
    if same(s, "open") {
        Some(AnomalyStatus::Open)
    } else if same(s, "resolved") {
        Some(AnomalyStatus::Resolved)
    } else if same(s, "dismissed") {
        Some(AnomalyStatus::Dismissed)
    } else {
        None
    }
}

impl AnomalyStatus {
    /// Its name.
    pub open spec fn wire(self) -> Seq<char> {
        match self {
            AnomalyStatus::Open => "open"@,
            AnomalyStatus::Resolved => "resolved"@,
            AnomalyStatus::Dismissed => "dismissed"@,
        }
    }

    /// Its name.
    pub fn as_str(self) -> (r: &'static str)
        ensures
            r@ == self.wire(),
    {
        match self {
            AnomalyStatus::Open => "open",
            AnomalyStatus::Resolved => "resolved",
            AnomalyStatus::Dismissed => "dismissed",
        }
    }
}

/// The kind that a list is narrowed to.
pub open spec fn kind_of(q: Seq<(Seq<char>, Seq<char>)>) -> Result<Option<AnomalyKind>, FailV> {
    match value_of(q, "kind"@) {
        None => Ok(None),
        Some(v) => match kind_named(v) {
            Some(k) => Ok(Some(k)),
            None => Err(
                invalid_v(
                    "kind must be one of new-emitter, busier-than-baseline, quieter-than-baseline, noise-floor-rise, novelty, level-above-baseline, change-point"@,
                ),
            ),
        },
    }
}

/// [`kind_of`].
pub fn kind_param(q: &Vec<(String, String)>) -> (r: Result<Option<AnomalyKind>, Fail>)
    ensures
        outcome(r) == kind_of(pairs(q@)),
{
    match param(q, "kind") {
        None => Ok(None),
        Some(v) => match kind_by_name(v) {
            Some(k) => Ok(Some(k)),
            None => Err(
                Fail::invalid(
                    "kind must be one of new-emitter, busier-than-baseline, quieter-than-baseline, noise-floor-rise, novelty, level-above-baseline, change-point",
                ),
            ),
        },
    }
}

/// The status that a list is narrowed to.
pub open spec fn status_of(q: Seq<(Seq<char>, Seq<char>)>) -> Result<Option<AnomalyStatus>, FailV> {
    match value_of(q, "status"@) {
        None => Ok(None),
        Some(v) => match status_named(v) {
            Some(k) => Ok(Some(k)),
            None => Err(invalid_v("status must be one of open, resolved, dismissed"@)),
        },
    }
}

/// [`status_of`].
pub fn status_param(q: &Vec<(String, String)>) -> (r: Result<Option<AnomalyStatus>, Fail>)
    ensures
        outcome(r) == status_of(pairs(q@)),
{
    match param(q, "status") {
        None => Ok(None),
        Some(v) => match status_by_name(v) {
            Some(k) => Ok(Some(k)),
            None => Err(Fail::invalid("status must be one of open, resolved, dismissed")),
        },
    }
}

/// The numbers of a query that the server rounds: its interval in nanoseconds, and its page
/// without a fraction.
#[derive(Clone, Copy, Debug, PartialEq, Eq, Structural)]
pub struct Rounded {
    /// Its `t0`, ns.
    pub t0: i64,
    /// Its `t1`, ns.
    pub t1: i64,
    /// Its `cursor`.
    pub cursor: usize,
    /// Its `limit`.
    pub limit: usize,
}

/// What a list asks for.
#[derive(Clone, Copy, Debug, PartialEq, Eq)]
pub struct AnomalyQuery {
    /// The band, Hz.
    pub freq: Option<(Real, Real)>,
    /// The interval, ns.
    pub time: Option<(i64, i64)>,
    /// The kind.
    pub kind: Option<AnomalyKind>,
    /// The status.
    pub status: Option<AnomalyStatus>,
    /// Where the page starts.
    pub cursor: usize,
    /// Its size.
    pub limit: usize,
}

/// The page of a query: where it starts, and its size, no larger than `max`.
pub open spec fn page_of(
    q: Seq<(Seq<char>, Seq<char>)>,
    rounded: Rounded,
    max: usize,
) -> Result<(usize, usize), FailV> {
    match (number_of(q, "cursor"@), number_of(q, "limit"@)) {
        (Err(f), _) => Err(f),
        (_, Err(f)) => Err(f),
        (Ok(c), Ok(l)) => if (c matches Some(c) && c.below(Real { bits: 0 })) || (l matches Some(l)
            && l.below(Real { bits: ONE })) {
            Err(invalid_v("cursor must be ≥ 0 and limit ≥ 1"@))
        } else {
            let limit = match l {
                Some(_) => rounded.limit,
                None => ANOMALIES_DEFAULT_LIMIT,
            };
            Ok(
                (
                    match c {
                        Some(_) => rounded.cursor,
                        None => 0,
                    },
                    if limit <= max {
                        limit
                    } else {
                        max
                    },
                ),
            )
        },
    }
}

fn read_page(q: &Vec<(String, String)>, rounded: &Rounded, max: usize) -> (r: Result<
    (usize, usize),
    Fail,
>)
    ensures
        outcome(r) == page_of(pairs(q@), *rounded, max),
{
    let c = match number(q, "cursor") {
        Ok(c) => c,
        Err(f) => return Err(f),
    };
    let l = match number(q, "limit") {
        Ok(l) => l,
        Err(f) => return Err(f),
    };
    let bad_cursor = match c {
        Some(c) => c.lt(Real { bits: 0 }),
        None => false,
    };
    let bad_limit = match l {
        Some(l) => l.lt(Real { bits: ONE }),
        None => false,
    };
    if bad_cursor || bad_limit {
        return Err(Fail::invalid("cursor must be ≥ 0 and limit ≥ 1"));
    }
    let cursor: usize = match c {
        Some(_) => rounded.cursor,
        None => 0,
    };
    let limit: usize = match l {
        Some(_) => rounded.limit,
        None => ANOMALIES_DEFAULT_LIMIT,
    };
    Ok(
        (
            cursor,
            if limit <= max {
                limit
            } else {
                max
            },
        ),
    )
}

/// What a list asks for.
pub open spec fn list_of(
    q: Seq<(Seq<char>, Seq<char>)>,
    present: bool,
    rounded: Rounded,
    max: usize,
) -> Result<AnomalyQuery, FailV> {
    match open_of(present, "no anomaly service on this server"@) {
        Err(f) => Err(f),
        Ok(_) => match pair_of(q, "f_lo"@, "f_hi"@) {
            Err(f) => Err(f),
            Ok(freq) => match pair_of(q, "t0"@, "t1"@) {
                Err(f) => Err(f),
                Ok(time) => match kind_of(q) {
                    Err(f) => Err(f),
                    Ok(kind) => match status_of(q) {
                        Err(f) => Err(f),
                        Ok(status) => match page_of(q, rounded, max) {
                            Err(f) => Err(f),
                            Ok((cursor, limit)) => Ok(
                                AnomalyQuery {
                                    freq,
                                    time: if time is Some {
                                        Some((rounded.t0, rounded.t1))
                                    } else {
                                        None
                                    },
                                    kind,
                                    status,
                                    cursor,
                                    limit,
                                },
                            ),
                        },
                    },
                },
            },
        },
    }
}

/// [`list_of`].
pub fn plan_list(q: &Vec<(String, String)>, present: bool, rounded: &Rounded, max: usize) -> (r:
    Result<AnomalyQuery, Fail>)
    ensures
        outcome(r) == list_of(pairs(q@), present, *rounded, max),
{
    match control(present) {
        Ok(_) => {},
        Err(f) => return Err(f),
    }
    let freq = match pair(q, "f_lo", "f_hi") {
        Ok(p) => p,
        Err(f) => return Err(f),
    };
    let time = match pair(q, "t0", "t1") {
        Ok(Some(_)) => Some((rounded.t0, rounded.t1)),
        Ok(None) => None,
        Err(f) => return Err(f),
    };
    let kind = match kind_param(q) {
        Ok(k) => k,
        Err(f) => return Err(f),
    };
    let status = match status_param(q) {
        Ok(s) => s,
        Err(f) => return Err(f),
    };
    match read_page(q, rounded, max) {
        Ok((cursor, limit)) => Ok(AnomalyQuery { freq, time, kind, status, cursor, limit }),
        Err(f) => Err(f),
    }
}

/// A page of anomalies: truncated exactly where there is a next one.
pub open spec fn page_v(rows: Seq<JsonV>, next: Option<usize>, suppressions: JsonV) -> JsonV {
    JsonV::Object(
        no_fields().push(("anomalies"@, JsonV::Array(rows))).push(
            (
                "next_cursor"@,
                match next {
                    Some(n) => uint_v(n as int),
                    None => JsonV::Null,
                },
            ),
        ).push(("truncated"@, JsonV::Bool(next is Some))).push(("suppressions"@, suppressions)),
    )
}

/// [`page_v`], or what the service refused.
pub open spec fn page_result(
    rows: Result<(Vec<Json>, Option<usize>), AnomalyFail>,
    suppressions: JsonV,
) -> Result<JsonV, FailV> {
    match rows {
        Err(e) => Err(fail_of(e)),
        Ok((rows, next)) => Ok(page_v(items_view(rows@), next, suppressions)),
    }
}

/// [`page_result`].
pub fn page(rows: Result<(Vec<Json>, Option<usize>), AnomalyFail>, suppressions: Json) -> (r:
    Result<Json, Fail>)
    ensures
        read_result(r) == page_result(rows, suppressions.view()),
{
    match rows {
        Err(e) => Err(fail(e)),
        Ok((rows, next)) => {
            let mut f = Fields::new();
            f.put("anomalies", Json::Array(rows));
            f.put(
                "next_cursor",
                match next {
                    Some(n) => Json::uint(n as u64),
                    None => Json::Null,
                },
            );
            f.put("truncated", Json::Bool(next.is_some()));
            f.put("suppressions", suppressions);
            Ok(f.object())
        },
    }
}

// ---------------------------------------------------------------------------------------------
// Changes
// ---------------------------------------------------------------------------------------------

/// The members that an action takes.
pub open spec fn allowed(a: Action) -> Seq<Seq<char>> {
    if a is Dismiss {
        seq!["note"@]
    } else {
        Seq::empty()
    }
}

/// What may be done: the service must be there, and the body holds no stray member.
pub open spec fn change_of(
    a: Action,
    present: bool,
    body: Seq<(Seq<char>, JsonV)>,
) -> Result<(), FailV> {
    match open_of(present, "no anomaly service on this server"@) {
        Err(f) => Err(f),
        Ok(_) => match crate::body::first_unknown(body, allowed(a)) {
            Some(k) => Err(invalid_v("unknown field "@ + debug_text(k))),
            None => Ok(()),
        },
    }
}

/// [`change_of`].
pub fn plan_change(a: Action, present: bool, body: &Vec<(String, Json)>) -> (r: Result<(), Fail>)
    ensures
        outcome(r) == change_of(a, present, fields_view(body@)),
{
    match control(present) {
        Ok(_) => {},
        Err(f) => return Err(f),
    }
    let dismiss = match a {
        Action::Dismiss(_) => true,
        _ => false,
    };
    let ghost f = fields_view(body@);
    proof {
        fields_view_each(body@);
        assert(f.skip(0) =~= f);
    }
    let mut i: usize = 0;
    while i < body.len()
        invariant
            present,
            dismiss == (a is Dismiss),
            f == fields_view(body@),
            f.len() == body@.len(),
            forall|k: int|
                0 <= k < body@.len() ==> f[k] == ((#[trigger] body@[k]).0@, body@[k].1.view()),
            i <= body@.len(),
            crate::body::first_unknown(f, allowed(a)) == crate::body::first_unknown(
                f.skip(i as int),
                allowed(a),
            ),
        decreases body@.len() - i,
    {
        let ghost rest = f.skip(i as int);
        let k = body[i].0.as_str();
        proof {
            assert(rest[0] == f[i as int]);
            assert(rest.skip(1) =~= f.skip(i + 1));
            assert(a is Dismiss ==> allowed(a)[0] == "note"@);
            assert(allowed(a).contains(k@) <==> (a is Dismiss && k@ == "note"@)) by {
                if allowed(a).contains(k@) {
                    let j = choose|j: int| 0 <= j < allowed(a).len() && allowed(a)[j] == k@;
                    assert(allowed(a)[j] == k@);
                }
            }
        }
        if !(dismiss && same(k, "note")) {
            let quoted = debug(k);
            let m = String::from_str("unknown field ").concat(quoted.as_str());
            return Err(Fail::new(400, "invalid", m));
        }
        i += 1;
    }
    Ok(())
}

/// The longest note.
pub const MAX_NOTE: usize = 500;

/// The note of a dismissal.
pub open spec fn note_of(body: Seq<(Seq<char>, JsonV)>) -> Result<Option<Seq<char>>, FailV> {
    match member(body, "note"@) {
        None => Ok(None),
        Some(JsonV::Null) => Ok(None),
        Some(JsonV::Text(s)) => if s.len() <= MAX_NOTE {
            Ok(Some(s))
        } else {
            Err(invalid_v("note must be a string of ≤ 500 characters"@))
        },
        Some(_) => Err(invalid_v("note must be a string of ≤ 500 characters"@)),
    }
}

/// [`note_of`].
pub fn note(body: &Vec<(String, Json)>) -> (r: Result<Option<String>, Fail>)
    ensures
        crate::collections::name_result(r) == note_of(fields_view(body@)),
{
    match find(body, "note") {
        None => Ok(None),
        Some(Json::Null) => Ok(None),
        Some(Json::Text(s)) => if chars_of(s.as_str()).len() <= MAX_NOTE {
            Ok(Some(s.clone()))
        } else {
            Err(Fail::invalid("note must be a string of ≤ 500 characters"))
        },
        Some(_) => Err(Fail::invalid("note must be a string of ≤ 500 characters")),
    }
}

/// An anomaly: what the API serves of it, and where it stands.
#[derive(Debug)]
pub struct AnomalyView {
    /// What the API serves.
    pub json: Json,
    /// Its status.
    pub status: AnomalyStatus,
    /// The state of its alarm.
    pub state: Option<String>,
}

/// Where an anomaly stands, as it is audited.
pub open spec fn summary_v(v: AnomalyView) -> JsonV {
    JsonV::Object(
        no_fields().push(("status"@, text_v(v.status.wire()))).push(
            ("state"@, opt_text_v(opt_string(v.state))),
        ),
    )
}

fn summary(v: &AnomalyView) -> (r: Json)
    ensures
        r.view() == summary_v(*v),
{
    let mut f = Fields::new();
    f.put("status", Json::text(v.status.as_str()));
    f.put("state", Json::opt_text(&v.state));
    f.object()
}

/// What a change is answered with, and where the anomaly stood and stands.
pub open spec fn changed_of(
    before: AnomalyView,
    after: Result<AnomalyView, AnomalyFail>,
) -> Result<AppliedV, FailV> {
    match after {
        Err(e) => Err(fail_of(e)),
        Ok(v) => Ok(
            AppliedV {
                status: 200,
                body: JsonV::Object(no_fields().push(("anomaly"@, v.json.view()))),
                old: summary_v(before),
                new: summary_v(v),
            },
        ),
    }
}

/// [`changed_of`].
pub fn changed(before: &AnomalyView, after: Result<AnomalyView, AnomalyFail>) -> (r: Result<
    Applied,
    Fail,
>)
    ensures
        applied_result(r) == changed_of(*before, after),
{
    match after {
        Err(e) => Err(fail(e)),
        Ok(v) => {
            let new = summary(&v);
            let mut f = Fields::new();
            f.put("anomaly", v.json);
            Ok(Applied { status: 200, body: f.object(), old: summary(before), new })
        },
    }
}

// ---------------------------------------------------------------------------------------------
// The service
// ---------------------------------------------------------------------------------------------

/// A change that the anomaly service is asked for.
pub enum AnomalyAsk {
    /// Dismiss this alarm, with this note.
    Dismiss(Id, Option<Seq<char>>),
    /// Open this alarm again.
    Reopen(Id),
}

/// The run's anomalies and its alarm engine, as one request holds them. An implementation adds one
/// dealing for each change that is asked for.
pub trait AnomalyControl {
    /// The changes asked for through this handle so far, each with its answer.
    open spec fn dealings(&self) -> Seq<(AnomalyAsk, Result<AnomalyView, AnomalyFail>)> {
        record(self)
    }

    /// A page of anomalies, each with its top explanations, and where the next page starts.
    fn list(&self, q: &AnomalyQuery) -> (r: Result<(Vec<Json>, Option<usize>), AnomalyFail>);

    /// One anomaly with all its current explanations and its history.
    fn get(&self, id: Id) -> (r: Result<AnomalyView, AnomalyFail>);

    /// Dismisses a novelty alarm.
    fn dismiss(&mut self, id: Id, note: Option<String>) -> (r: Result<AnomalyView, AnomalyFail>)
        ensures
            final(self).dealings() == old(self).dealings().push(
                (AnomalyAsk::Dismiss(id, opt_string(note)), r),
            ),
    ;

    /// Lifts a dismissal and opens the alarm again.
    fn reopen(&mut self, id: Id) -> (r: Result<AnomalyView, AnomalyFail>)
        ensures
            final(self).dealings() == old(self).dealings().push((AnomalyAsk::Reopen(id), r)),
    ;

    /// How many alarms each kind's suppressions held back.
    fn suppressions(&self) -> (r: Json);
}

/// The service is not there.
pub open spec fn unavailable_v() -> FailV {
    fail_v(503, "unavailable"@, "no anomaly service on this server"@)
}

fn unavailable() -> (r: Fail)
    ensures
        r@ == unavailable_v(),
{
    Fail::of(503, "unavailable", "no anomaly service on this server")
}

/// What a list that the service is asked for may be answered with.
pub open spec fn listed_by<C: AnomalyControl + ?Sized>(
    c: &C,
    asked: AnomalyQuery,
    r: Result<JsonV, FailV>,
) -> bool {
    exists|rows: Result<(Vec<Json>, Option<usize>), AnomalyFail>| #[trigger]
        call_ensures(C::list, (c, &asked), rows) && match rows {
            Err(e) => r == Err::<JsonV, FailV>(fail_of(e)),
            Ok(_) => exists|s: Json| #[trigger]
                call_ensures(C::suppressions, (c,), s) && r == page_result(rows, s.view()),
        }
}

/// Lists the anomalies that a query asks for.
pub fn read_list<C: AnomalyControl + ?Sized>(
    control: Option<&C>,
    q: &Vec<(String, String)>,
    rounded: &Rounded,
    max: usize,
) -> (r: Result<Json, Fail>)
    ensures
        match list_of(pairs(q@), control is Some, *rounded, max) {
            Err(f) => read_result(r) == Err::<JsonV, FailV>(f),
            Ok(asked) => control matches Some(c) && listed_by(c, asked, read_result(r)),
        },
{
    let asked = match plan_list(q, control.is_some(), rounded, max) {
        Ok(asked) => asked,
        Err(f) => return Err(f),
    };
    match control {
        None => Err(unavailable()),
        Some(c) => match c.list(&asked) {
            Err(e) => Err(fail(e)),
            Ok(rows) => page(Ok(rows), c.suppressions()),
        },
    }
}

/// One anomaly, as the service says it.
pub fn read_one<C: AnomalyControl + ?Sized>(control: Option<&C>, id: Id) -> (r: Result<Json, Fail>)
    ensures
        match control {
            None => read_result(r) == Err::<JsonV, FailV>(unavailable_v()),
            Some(c) => exists|v: Result<AnomalyView, AnomalyFail>| #[trigger]
                call_ensures(C::get, (c, id), v) && read_result(r) == (match v {
                    Err(e) => Err(fail_of(e)),
                    Ok(v) => Ok(v.json.view()),
                }),
        },
{
    match control {
        None => Err(unavailable()),
        Some(c) => match c.get(id) {
            Err(e) => Err(fail(e)),
            Ok(v) => Ok(v.json),
        },
    }
}

/// What a change is answered with: the anomaly is read first, then what the body says, and only then
/// is the service asked, once. `c` is the service before it and `dealt_with` its dealings after it.
pub open spec fn changed_by<C: AnomalyControl + ?Sized>(
    c: &C,
    dealt_with: Seq<(AnomalyAsk, Result<AnomalyView, AnomalyFail>)>,
    id: Id,
    ask: Result<AnomalyAsk, FailV>,
    r: Result<AppliedV, FailV>,
) -> bool {
    exists|before: Result<AnomalyView, AnomalyFail>| #[trigger]
        call_ensures(C::get, (c, id), before) && match (before, ask) {
            (Err(e), _) => r == Err::<AppliedV, FailV>(fail_of(e)) && dealt_with == c.dealings(),
            (Ok(_), Err(f)) => r == Err::<AppliedV, FailV>(f) && dealt_with == c.dealings(),
            (Ok(before), Ok(ask)) => exists|after: Result<AnomalyView, AnomalyFail>|
                #[trigger] dealt(c.dealings(), dealt_with, ask, after) && r == changed_of(
                    before,
                    after,
                ),
        }
}

/// The dismissal that a body asks for.
pub open spec fn dismissal_of(id: Id, body: Seq<(Seq<char>, JsonV)>) -> Result<AnomalyAsk, FailV> {
    match note_of(body) {
        Ok(note) => Ok(AnomalyAsk::Dismiss(id, note)),
        Err(f) => Err(f),
    }
}

/// Dismisses an anomaly. A body that is refused asks the service for nothing.
pub fn dismiss<C: AnomalyControl + ?Sized>(
    control: Option<&mut C>,
    id: Id,
    body: &Vec<(String, Json)>,
) -> (r: Result<Applied, Fail>)
    ensures
        match (
            change_of(Action::Dismiss(id), control is Some, fields_view(body@)),
            control,
        ) {
            (Err(f), None) => applied_result(r) == Err::<AppliedV, FailV>(f),
            (Err(f), Some(c)) => applied_result(r) == Err::<AppliedV, FailV>(f)
                && final(c).dealings() == c.dealings(),
            (Ok(_), None) => false,
            (Ok(_), Some(c)) => changed_by(
                &*c,
                final(c).dealings(),
                id,
                dismissal_of(id, fields_view(body@)),
                applied_result(r),
            ),
        },
{
    match plan_change(Action::Dismiss(id), control.is_some(), body) {
        Ok(_) => {},
        Err(f) => return Err(f),
    }
    let c = match control {
        Some(c) => c,
        None => return Err(unavailable()),
    };
    let before = match c.get(id) {
        Ok(v) => v,
        Err(e) => return Err(fail(e)),
    };
    let given = match note(body) {
        Ok(given) => given,
        Err(f) => return Err(f),
    };
    let ghost was = c.dealings();
    let ghost ask = AnomalyAsk::Dismiss(id, opt_string(given));
    let after = c.dismiss(id, given);
    assert(dealt(was, c.dealings(), ask, after));
    changed(&before, after)
}

/// Opens a dismissed anomaly again. A body that is refused asks the service for nothing.
pub fn reopen<C: AnomalyControl + ?Sized>(
    control: Option<&mut C>,
    id: Id,
    body: &Vec<(String, Json)>,
) -> (r: Result<Applied, Fail>)
    ensures
        match (
            change_of(Action::Reopen(id), control is Some, fields_view(body@)),
            control,
        ) {
            (Err(f), None) => applied_result(r) == Err::<AppliedV, FailV>(f),
            (Err(f), Some(c)) => applied_result(r) == Err::<AppliedV, FailV>(f)
                && final(c).dealings() == c.dealings(),
            (Ok(_), None) => false,
            (Ok(_), Some(c)) => changed_by(
                &*c,
                final(c).dealings(),
                id,
                Ok(AnomalyAsk::Reopen(id)),
                applied_result(r),
            ),
        },
{
    match plan_change(Action::Reopen(id), control.is_some(), body) {
        Ok(_) => {},
        Err(f) => return Err(f),
    }
    let c = match control {
        Some(c) => c,
        None => return Err(unavailable()),
    };
    let before = match c.get(id) {
        Ok(v) => v,
        Err(e) => return Err(fail(e)),
    };
    let ghost was = c.dealings();
    let after = c.reopen(id);
    assert(dealt(was, c.dealings(), AnomalyAsk::Reopen(id), after));
    changed(&before, after)
}

/// A number is read where it is given and is one; a pair of numbers where both are given, the first
/// below the second. Half a pair is refused, and so is one the other way round.
pub proof fn pairs_are_read_as_given(
    q: Seq<(Seq<char>, Seq<char>)>,
    a: Seq<char>,
    b: Seq<char>,
    x: Real,
    y: Real,
)
    ensures
        number_of(q, a) == Ok::<Option<Real>, FailV>(Some(x)) <==> (value_of(q, a) matches Some(v)
            && text_real(v) == Some(x)),
        number_of(q, a) == Ok::<Option<Real>, FailV>(None) <==> value_of(q, a) is None,
        pair_of(q, a, b) == Ok::<Option<(Real, Real)>, FailV>(Some((x, y))) <==> (value_of(
            q,
            a,
        ) matches Some(v) && text_real(v) == Some(x)) && (value_of(q, b) matches Some(v) && text_real(
            v,
        ) == Some(y)) && x.below(y),
        pair_of(q, a, b) == Ok::<Option<(Real, Real)>, FailV>(None) <==> value_of(q, a) is None
            && value_of(q, b) is None,
        pair_of(q, a, b) matches Err(f) ==> f.status == 400,
{
}

/// Every kind and every state of an anomaly has a name of its own.
pub proof fn anomalies_are_named(s: Seq<char>, t: AnomalyStatus)
    ensures
        kind_named(s) matches Some(k) ==> match k {
            AnomalyKind::NewEmitter => s == "new-emitter"@,
            AnomalyKind::BusierThanBaseline => s == "busier-than-baseline"@,
            AnomalyKind::QuieterThanBaseline => s == "quieter-than-baseline"@,
            AnomalyKind::NoiseFloorRise => s == "noise-floor-rise"@,
            AnomalyKind::Novelty => s == "novelty"@,
            AnomalyKind::LevelAboveBaseline => s == "level-above-baseline"@,
            AnomalyKind::ChangePoint => s == "change-point"@,
        },
        kind_named("new-emitter"@) is Some,
        kind_named("busier-than-baseline"@) is Some,
        kind_named("quieter-than-baseline"@) is Some,
        kind_named("noise-floor-rise"@) is Some,
        kind_named("novelty"@) is Some,
        kind_named("level-above-baseline"@) is Some,
        kind_named("change-point"@) is Some,
        status_named(s) matches Some(k) ==> s == k.wire(),
        status_named(t.wire()) is Some,
        t is Open <==> t.wire() == "open"@,
        t is Resolved <==> t.wire() == "resolved"@,
        t is Dismissed <==> t.wire() == "dismissed"@,
{
    assert("open"@ != "resolved"@) by {
        reveal_strlit("open");
        reveal_strlit("resolved");
        assert("open"@.len() != "resolved"@.len());
    }
    assert("open"@ != "dismissed"@) by {
        reveal_strlit("open");
        reveal_strlit("dismissed");
        assert("open"@.len() != "dismissed"@.len());
    }
    assert("resolved"@ != "dismissed"@) by {
        reveal_strlit("resolved");
        reveal_strlit("dismissed");
        assert("resolved"@.len() != "dismissed"@.len());
    }
}

/// What is listed: the anomalies of the band, the times, the kind and the state that were asked for,
/// from the cursor on; a hundred of them where no number was asked for, and never more than are
/// served.
pub proof fn anomalies_are_listed_as_asked(
    q: Seq<(Seq<char>, Seq<char>)>,
    present: bool,
    rounded: Rounded,
    max: usize,
)
    ensures
        !present ==> (list_of(q, present, rounded, max) matches Err(f) && f.status == 503),
        present ==> (list_of(q, present, rounded, max) matches Err(f) ==> f.status == 400),
        list_of(q, present, rounded, max) matches Ok(a) ==> {
            &&& present
            &&& pair_of(q, "f_lo"@, "f_hi"@) == Ok::<Option<(Real, Real)>, FailV>(a.freq)
            &&& pair_of(q, "t0"@, "t1"@) is Ok
            &&& a.time is Some <==> value_of(q, "t0"@) is Some
            &&& a.time matches Some(w) ==> w == (rounded.t0, rounded.t1)
            &&& a.kind is None <==> value_of(q, "kind"@) is None
            &&& value_of(q, "kind"@) matches Some(k) ==> a.kind == kind_named(k)
            &&& a.status is None <==> value_of(q, "status"@) is None
            &&& value_of(q, "status"@) matches Some(s) ==> a.status == status_named(s)
            &&& value_of(q, "cursor"@) is None ==> a.cursor == 0
            &&& value_of(q, "cursor"@) is Some ==> a.cursor == rounded.cursor
            &&& a.limit <= max
            &&& value_of(q, "limit"@) is None && max >= 100 ==> a.limit == 100
            &&& value_of(q, "limit"@) is Some && rounded.limit <= max ==> a.limit == rounded.limit
            &&& value_of(q, "limit"@) is Some && rounded.limit > max ==> a.limit == max
        },
        page_of(q, rounded, max) is Ok <==> (number_of(q, "cursor"@) matches Ok(c) && (c matches Some(
            x,
        ) ==> !x.below(Real { bits: 0 }))) && (number_of(q, "limit"@) matches Ok(l) && (l matches Some(
            x,
        ) ==> !x.below(Real { bits: ONE }))),
        present && pair_of(q, "f_lo"@, "f_hi"@) is Ok && pair_of(q, "t0"@, "t1"@) is Ok && page_of(
            q,
            rounded,
            max,
        ) is Ok && (value_of(q, "kind"@) matches Some(k) ==> kind_named(k) is Some) && (value_of(
            q,
            "status"@,
        ) matches Some(s) ==> status_named(s) is Some) ==> list_of(q, present, rounded, max) is Ok,
{
    pairs_are_read_as_given(q, "t0"@, "t1"@, Real { bits: 0 }, Real { bits: 0 });
}

/// A page holds its rows in their order, where to read on, whether anything is left, and what is
/// held back.
pub proof fn a_page_says_where_to_read_on(rows: Seq<JsonV>, next: usize, suppressions: JsonV)
    ensures
        at(page_v(rows, Some(next), suppressions), "anomalies"@) == Some(JsonV::Array(rows)),
        at(page_v(rows, Some(next), suppressions), "next_cursor"@) == Some(uint_v(next as int)),
        at(page_v(rows, Some(next), suppressions), "truncated"@) == Some(JsonV::Bool(true)),
        at(page_v(rows, None, suppressions), "next_cursor"@) == Some(JsonV::Null),
        at(page_v(rows, None, suppressions), "truncated"@) == Some(JsonV::Bool(false)),
        at(page_v(rows, None, suppressions), "suppressions"@) == Some(suppressions),
{
    let f = page_v(rows, Some(next), suppressions)->Object_0;
    member_is_the_first(f, "anomalies"@, 0);
    assert("anomalies"@ != "next_cursor"@) by {
        reveal_strlit("anomalies");
        reveal_strlit("next_cursor");
        assert("anomalies"@.len() != "next_cursor"@.len());
    }
    member_is_the_first(f, "next_cursor"@, 1);
    assert("anomalies"@ != "truncated"@) by {
        reveal_strlit("anomalies");
        reveal_strlit("truncated");
        assert("anomalies"@[0] != "truncated"@[0]);
    }
    assert("next_cursor"@ != "truncated"@) by {
        reveal_strlit("next_cursor");
        reveal_strlit("truncated");
        assert("next_cursor"@.len() != "truncated"@.len());
    }
    member_is_the_first(f, "truncated"@, 2);
    assert("anomalies"@ != "suppressions"@) by {
        reveal_strlit("anomalies");
        reveal_strlit("suppressions");
        assert("anomalies"@.len() != "suppressions"@.len());
    }
    assert("next_cursor"@ != "suppressions"@) by {
        reveal_strlit("next_cursor");
        reveal_strlit("suppressions");
        assert("next_cursor"@.len() != "suppressions"@.len());
    }
    assert("truncated"@ != "suppressions"@) by {
        reveal_strlit("truncated");
        reveal_strlit("suppressions");
        assert("truncated"@.len() != "suppressions"@.len());
    }
    member_is_the_first(f, "suppressions"@, 3);
    let g = page_v(rows, None, suppressions)->Object_0;
    member_is_the_first(g, "anomalies"@, 0);
    member_is_the_first(g, "next_cursor"@, 1);
    member_is_the_first(g, "truncated"@, 2);
    member_is_the_first(g, "suppressions"@, 3);
}

/// A note is taken as written, up to five hundred characters; none and nothing are the same.
pub proof fn a_note_is_taken_as_written(body: Seq<(Seq<char>, JsonV)>, s: Seq<char>, id: Id)
    ensures
        note_of(body) == Ok::<Option<Seq<char>>, FailV>(Some(s)) <==> member(body, "note"@) == Some(
            JsonV::Text(s),
        ) && s.len() <= 500,
        note_of(body) == Ok::<Option<Seq<char>>, FailV>(None) <==> member(body, "note"@) is None
            || member(body, "note"@) == Some(JsonV::Null),
        note_of(body) matches Err(f) ==> f.status == 400,
        dismissal_of(id, body) matches Ok(a) ==> (a matches AnomalyAsk::Dismiss(i, n) && i == id
            && note_of(body) == Ok::<Option<Seq<char>>, FailV>(n)),
        dismissal_of(id, body) is Ok <==> note_of(body) is Ok,
{
}

/// Nothing but a dismissal takes a note, and neither takes anything else; without the service nothing
/// is changed.
pub proof fn only_a_dismissal_takes_a_note(a: Action, present: bool, v: JsonV, name: Seq<char>)
    ensures
        !present ==> (change_of(a, present, seq![("note"@, v)]) matches Err(f) && f.status == 503),
        change_of(a, true, Seq::empty()) is Ok,
        change_of(a, true, seq![("note"@, v)]) is Ok <==> a is Dismiss,
        name != "note"@ ==> (change_of(a, true, seq![(name, v)]) matches Err(f) && f.status == 400),
{
    let b = seq![("note"@, v)];
    assert(b.skip(1) =~= Seq::<(Seq<char>, JsonV)>::empty());
    assert(seq!["note"@].contains("note"@)) by {
        assert(seq!["note"@][0] == "note"@);
    }
    assert(crate::body::first_unknown(Seq::<(Seq<char>, JsonV)>::empty(), allowed(a)) is None);
}

/// A change is answered with the anomaly as it is now, and the log has its state before and after;
/// what the service refuses is passed on.
pub proof fn a_change_is_answered_with_the_anomaly(
    before: AnomalyView,
    after: AnomalyView,
    e: AnomalyFail,
)
    ensures
        changed_of(before, Ok(after)) matches Ok(a) && {
            &&& a.status == 200
            &&& at(a.body, "anomaly"@) == Some(after.json.view())
            &&& at(a.old, "status"@) == Some(JsonV::Text(before.status.wire()))
            &&& at(a.new, "status"@) == Some(JsonV::Text(after.status.wire()))
            &&& at(a.old, "state"@) == Some(opt_text_v(opt_string(before.state)))
            &&& at(a.new, "state"@) == Some(opt_text_v(opt_string(after.state)))
        },
        changed_of(before, Err(e)) matches Err(f) && {
            &&& e is NotFound <==> f.status == 404
            &&& e is Conflict <==> f.status == 409
            &&& e is Failed <==> f.status == 500
        },
{
    member_is_the_first(changed_of(before, Ok(after))->Ok_0.body->Object_0, "anomaly"@, 0);
    let f = summary_v(before)->Object_0;
    member_is_the_first(f, "status"@, 0);
    assert("status"@ != "state"@) by {
        reveal_strlit("status");
        reveal_strlit("state");
        assert("status"@.len() != "state"@.len());
    }
    member_is_the_first(f, "state"@, 1);
    let g = summary_v(after)->Object_0;
    member_is_the_first(g, "status"@, 0);
    member_is_the_first(g, "state"@, 1);
}

/// What a path is for: the list, one anomaly by its name, or a change of it, each with a method of its
/// own. A name that is none is refused, and any other path is none of these.
pub proof fn anomalies_are_at_their_paths(
    method: Seq<char>,
    name: Seq<char>,
    id: Option<Id>,
    verb: Seq<char>,
)
    requires
        !name.contains('/'),
    ensures
        resolved("GET"@, "/api/anomalies"@, id) == Some(RoutedV::To(Action::List)),
        id matches Some(i) ==> resolved("GET"@, "/api/anomalies"@ + ("/"@ + name), id) == Some(
            RoutedV::To(Action::Get(i)),
        ),
        id matches Some(i) ==> resolved(
            "POST"@,
            "/api/anomalies"@ + ("/"@ + (name + seq!['/'] + "dismiss"@)),
            id,
        ) == Some(RoutedV::To(Action::Dismiss(i))),
        id matches Some(i) ==> resolved(
            "POST"@,
            "/api/anomalies"@ + ("/"@ + (name + seq!['/'] + "reopen"@)),
            id,
        ) == Some(RoutedV::To(Action::Reopen(i))),
        verb != "dismiss"@ && verb != "reopen"@ ==> resolved(
            method,
            "/api/anomalies"@ + ("/"@ + (name + seq!['/'] + verb)),
            id,
        ) is None,
        resolved("GET"@, "/api/anomalies"@ + ("/"@ + name), None) == Some(RoutedV::BadId),
        method != "GET"@ ==> resolved(method, "/api/anomalies"@, id) == Some(RoutedV::Takes("GET"@)),
        method != "POST"@ ==> resolved(
            method,
            "/api/anomalies"@ + ("/"@ + (name + seq!['/'] + "dismiss"@)),
            id,
        ) == Some(RoutedV::Takes("POST"@)),
{
    assert("GET"@ != "POST"@) by {
        reveal_strlit("GET");
        reveal_strlit("POST");
        assert("GET"@.len() != "POST"@.len());
    }
    assert("dismiss"@ != "reopen"@) by {
        reveal_strlit("dismiss");
        reveal_strlit("reopen");
        assert("dismiss"@.len() != "reopen"@.len());
    }
    assert("/api/anomalies"@ + Seq::<char>::empty() =~= "/api/anomalies"@);
    a_remainder_is_what_else_is_there(Seq::empty(), "/api/anomalies"@);
    a_remainder_is_what_else_is_there("/"@ + name, "/api/anomalies"@);
    a_remainder_is_what_else_is_there(name, "/"@);
    reveal_strlit("/");
    assert(("/"@ + name).len() > 0);
    a_text_is_cut_at_the_first(name, '/');
    assert forall|v: Seq<char>| split_once_on(#[trigger] (name + seq!['/'] + v), '/') == Some((name, v)) by {
        cut_after(name, v);
    }
    let d = name + seq!['/'] + "dismiss"@;
    let r = name + seq!['/'] + "reopen"@;
    let o = name + seq!['/'] + verb;
    a_remainder_is_what_else_is_there("/"@ + d, "/api/anomalies"@);
    a_remainder_is_what_else_is_there(d, "/"@);
    a_remainder_is_what_else_is_there("/"@ + r, "/api/anomalies"@);
    a_remainder_is_what_else_is_there(r, "/"@);
    a_remainder_is_what_else_is_there("/"@ + o, "/api/anomalies"@);
    a_remainder_is_what_else_is_there(o, "/"@);
}

proof fn cut_after(name: Seq<char>, v: Seq<char>)
    requires
        !name.contains('/'),
    ensures
        split_once_on(name + seq!['/'] + v, '/') == Some((name, v)),
{
    let s = name + seq!['/'] + v;
    a_text_is_cut_at_the_first(s, '/');
    assert(s[name.len() as int] == '/');
    let (a, b) = split_once_on(s, '/')->0;
    assert(a.len() == name.len()) by {
        if a.len() < name.len() {
            assert(s[a.len() as int] == '/');
            assert(name[a.len() as int] == '/');
        } else if a.len() > name.len() {
            assert(a[name.len() as int] == s[name.len() as int]);
            assert(a.contains('/'));
        }
    }
    assert(a =~= s.take(a.len() as int));
    assert(name =~= s.take(a.len() as int));
    assert(b =~= s.skip(a.len() as int + 1));
    assert(v =~= s.skip(a.len() as int + 1));
}

} // verus!
