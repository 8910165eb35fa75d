//! Sites, baselines, candidates and score weights: requests are read and validated here, and
//! answered by the attention service.

use vstd::prelude::*;

use crate::body::{
    fail_v, invalid_v, number, number_of, only, only_allowed_members_pass, only_of, outcome,
    read_result, writes, Fail, FailV,
};
use crate::control::Id;
use crate::dispatch::{applied_result, Applied, AppliedV};
use crate::double::{integers_are_doubles, parse_real, text_real, Real, EXACT};
use crate::json::{fields_view, find, member, Json, JsonV, Num};
use crate::params::{find_other, stray};
use crate::request::{find_value, pairs, value_of};
use crate::store::{dealt, record};
use crate::text::{
    begins, byte_len, debug, debug_text, decimal, numbers_are_read_as_they_are_written, opt_string,
    opt_text, parse_unsigned, same, strip_prefix, texts, trim, trimmed, unsigned, without_prefix,
};

verus! {

/// The number of candidates where a request names none.
pub const CANDIDATES_DEFAULT_LIMIT: usize = 100;

/// The most candidates.
pub const CANDIDATES_MAX_LIMIT: usize = 1_000;

/// The hours of a week.
pub const HOURS_OF_WEEK: u8 = 168;

/// The longest name of a site, bytes.
pub const MAX_NAME: usize = 64;

/// The largest offset from UTC, minutes.
pub const MAX_OFFSET: i64 = 840;

// ---------------------------------------------------------------------------------------------
// Calls
// ---------------------------------------------------------------------------------------------

/// How finely a baseline is pooled.
#[derive(Clone, Copy, Debug, PartialEq, Eq, Structural)]
pub enum BaselineResolution {
    /// By hour of the week.
    HourOfWeek,
    /// By hour of the day.
    HourOfDay,
    /// By part of the day.
    DayPart,
    /// All hours together.
    AllHours,
}

/// The resolution of a name.
pub open spec fn resolution_named(s: Seq<char>) -> Option<BaselineResolution> {
    if s == "hour-of-week"@ {
        Some(BaselineResolution::HourOfWeek)
    } else if s == "hour-of-day"@ {
        Some(BaselineResolution::HourOfDay)
    } else if s == "day-part"@ {
        Some(BaselineResolution::DayPart)
    } else if s == "all-hours"@ {
        Some(BaselineResolution::AllHours)
    } else {
        None
    }
}

fn resolution_by_name(s: &str) -> (r: Option<BaselineResolution>)
    ensures
        r == resolution_named(s@),
{
    if same(s, "hour-of-week") {
        Some(BaselineResolution::HourOfWeek)
    } else if same(s, "hour-of-day") {
        Some(BaselineResolution::HourOfDay)
    } else if same(s, "day-part") {
        Some(BaselineResolution::DayPart)
    } else if same(s, "all-hours") {
        Some(BaselineResolution::AllHours)
    } else {
        None
    }
}

/// The weights of a score.
#[derive(Clone, Copy, Debug, PartialEq, Eq, Structural)]
pub struct ScoreWeights {
    /// Signal to noise.
    pub snr: Real,
    /// Novelty.
    pub novelty: Real,
    /// The entropy of the class.
    pub class_entropy: Real,
    /// A decoder fits.
    pub decoder: Real,
    /// Periodicity.
    pub periodicity: Real,
    /// Boredom.
    pub boring: Real,
}

/// The body of a site selection.
#[derive(Debug, PartialEq, Eq)]
pub struct SiteSelectBody {
    /// Select a known site.
    pub id: Option<Id>,
    /// Select or create the site of this name.
    pub name: Option<String>,
    /// The latitude of a created site, degrees.
    pub lat_deg: Option<Real>,
    /// The longitude of a created site, degrees.
    pub lon_deg: Option<Real>,
    /// The radius of a created site, m.
    pub radius_m: Option<Real>,
    /// The UTC offset of a created site, minutes.
    pub utc_offset_min: Option<i16>,
    /// Release the pin.
    pub release: bool,
}

/// What a [`SiteSelectBody`] holds.
#[verifier::ext_equal]
pub struct SiteSelectBodyV {
    /// Select a known site.
    pub id: Option<Id>,
    /// Select or create the site of this name.
    pub name: Option<Seq<char>>,
    /// The latitude of a created site, degrees.
    pub lat_deg: Option<Real>,
    /// The longitude of a created site, degrees.
    pub lon_deg: Option<Real>,
    /// The radius of a created site, m.
    pub radius_m: Option<Real>,
    /// The UTC offset of a created site, minutes.
    pub utc_offset_min: Option<i16>,
    /// Release the pin.
    pub release: bool,
}

impl SiteSelectBody {
    /// What it holds.
    pub open spec fn view(&self) -> SiteSelectBodyV {
        SiteSelectBodyV {
            id: self.id,
            name: opt_string(self.name),
            lat_deg: self.lat_deg,
            lon_deg: self.lon_deg,
            radius_m: self.radius_m,
            utc_offset_min: self.utc_offset_min,
            release: self.release,
        }
    }
}

/// One validated call of the attention service.
#[allow(inconsistent_fields)]
#[derive(Debug, PartialEq, Eq)]
pub enum AttentionCall {
    /// The sites.
    Sites,
    /// The current site.
    CurrentSite,
    /// Select a site.
    SelectSite(SiteSelectBody),
    /// Change a site; a name of `Some(None)` clears it.
    UpdateSite {
        /// The site.
        id: Id,
        /// The new name.
        name: Option<Option<String>>,
        /// The new UTC offset, minutes.
        utc_offset_min: Option<i16>,
    },
    /// The baselines of a site.
    Baselines {
        /// The site; the current one where none is given.
        site: Option<Id>,
    },
    /// The slots of a baseline.
    Slots {
        /// The site.
        site: Option<Id>,
        /// The lower edge, Hz.
        f_lo: Real,
        /// The upper edge, Hz.
        f_hi: Real,
        /// The hour of the week.
        slot: Option<u8>,
        /// The resolution.
        resolution: Option<BaselineResolution>,
    },
    /// Freeze a baseline again.
    Refreeze {
        /// The site.
        site: Option<Id>,
        /// The lower edge, Hz.
        f_lo: Option<Real>,
        /// The upper edge, Hz.
        f_hi: Option<Real>,
    },
    /// The candidates.
    Candidates {
        /// The lower edge, Hz.
        f_lo: Option<Real>,
        /// The upper edge, Hz.
        f_hi: Option<Real>,
        /// The most.
        limit: usize,
    },
    /// The weights.
    Weights,
    /// Set the weights.
    SetWeights {
        /// The weights.
        weights: ScoreWeights,
        /// Who sets them.
        author: String,
    },
}

/// What an [`AttentionCall`] holds.
#[allow(inconsistent_fields)]
#[verifier::ext_equal]
pub enum AttentionCallV {
    /// The sites.
    Sites,
    /// The current site.
    CurrentSite,
    /// Select a site.
    SelectSite(SiteSelectBodyV),
    /// Change a site.
    UpdateSite {
        /// The site.
        id: Id,
        /// The new name.
        name: Option<Option<Seq<char>>>,
        /// The new UTC offset, minutes.
        utc_offset_min: Option<i16>,
    },
    /// The baselines of a site.
    Baselines {
        /// The site.
        site: Option<Id>,
    },
    /// The slots of a baseline.
    Slots {
        /// The site.
        site: Option<Id>,
        /// The lower edge, Hz.
        f_lo: Real,
        /// The upper edge, Hz.
        f_hi: Real,
        /// The hour of the week.
        slot: Option<u8>,
        /// The resolution.
        resolution: Option<BaselineResolution>,
    },
    /// Freeze a baseline again.
    Refreeze {
        /// The site.
        site: Option<Id>,
        /// The lower edge, Hz.
        f_lo: Option<Real>,
        /// The upper edge, Hz.
        f_hi: Option<Real>,
    },
    /// The candidates.
    Candidates {
        /// The lower edge, Hz.
        f_lo: Option<Real>,
        /// The upper edge, Hz.
        f_hi: Option<Real>,
        /// The most.
        limit: usize,
    },
    /// The weights.
    Weights,
    /// Set the weights.
    SetWeights {
        /// The weights.
        weights: ScoreWeights,
        /// Who sets them.
        author: Seq<char>,
    },
}

/// What an optional name of a change holds.
pub open spec fn name_view(n: Option<Option<String>>) -> Option<Option<Seq<char>>> {
    match n {
        Some(s) => Some(opt_string(s)),
        None => None,
    }
}

impl AttentionCall {
    /// What it holds.
    pub open spec fn view(&self) -> AttentionCallV {
        match *self {
            AttentionCall::Sites => AttentionCallV::Sites,
            AttentionCall::CurrentSite => AttentionCallV::CurrentSite,
            AttentionCall::SelectSite(b) => AttentionCallV::SelectSite(b@),
            AttentionCall::UpdateSite { id, name, utc_offset_min } => AttentionCallV::UpdateSite {
                id,
                name: name_view(name),
                utc_offset_min,
            },
            AttentionCall::Baselines { site } => AttentionCallV::Baselines { site },
            AttentionCall::Slots { site, f_lo, f_hi, slot, resolution } => AttentionCallV::Slots {
                site,
                f_lo,
                f_hi,
                slot,
                resolution,
            },
            AttentionCall::Refreeze { site, f_lo, f_hi } => AttentionCallV::Refreeze {
                site,
                f_lo,
                f_hi,
            },
            AttentionCall::Candidates { f_lo, f_hi, limit } => AttentionCallV::Candidates {
                f_lo,
                f_hi,
                limit,
            },
            AttentionCall::Weights => AttentionCallV::Weights,
            AttentionCall::SetWeights { weights, author } => AttentionCallV::SetWeights {
                weights,
                author: author@,
            },
        }
    }
}

/// What a call or its refusal holds.
pub open spec fn call_result(r: Result<AttentionCall, Fail>) -> Result<AttentionCallV, FailV> {
    match r {
        Ok(c) => Ok(c@),
        Err(f) => Err(f@),
    }
}

/// A successful answer: the body, and the old and new values audited.
#[derive(Debug, PartialEq, Eq)]
pub struct AttentionAnswer {
    /// The answer.
    pub body: Json,
    /// What was before.
    pub old: Json,
    /// What is now.
    pub new: Json,
}

impl AttentionAnswer {
    /// The answer of a read.
    pub fn read(body: Json) -> (r: AttentionAnswer)
        ensures
            r.body == body,
            r.old is Null,
            r.new is Null,
    {
        AttentionAnswer { body, old: Json::Null, new: Json::Null }
    }
}

/// A refused or failed call.
#[derive(Clone, Debug, PartialEq, Eq)]
pub struct AttentionFail {
    /// The HTTP status.
    pub status: u16,
    /// A stable code.
    pub code: &'static str,
    /// What went wrong, in words.
    pub message: String,
}

/// The service's answer, or what it refused; it must be there.
pub open spec fn answer_of(answer: Option<Result<AttentionAnswer, AttentionFail>>) -> Result<
    AttentionAnswer,
    FailV,
> {
    match answer {
        None => Err(
            fail_v(
                503,
                "unavailable"@,
                "no attention service (baselines, sites, candidates) on this server"@,
            ),
        ),
        Some(Ok(a)) => Ok(a),
        Some(Err(f)) => Err(fail_v(f.status, f.code@, f.message@)),
    }
}

/// [`answer_of`].
pub fn run(answer: Option<Result<AttentionAnswer, AttentionFail>>) -> (r: Result<
    AttentionAnswer,
    Fail,
>)
    ensures
        outcome(r) == answer_of(answer),
{
    match answer {
        None => Err(
            Fail::of(
                503,
                "unavailable",
                "no attention service (baselines, sites, candidates) on this server",
            ),
        ),
        Some(Ok(a)) => Ok(a),
        Some(Err(f)) => Err(Fail::new(f.status, f.code, f.message)),
    }
}

/// What a mutation is answered with.
pub open spec fn applied_of(a: Result<AttentionAnswer, FailV>) -> Result<AppliedV, FailV> {
    match a {
        Err(f) => Err(f),
        Ok(a) => Ok(
            AppliedV {
                status: 200,
                body: a.body.view(),
                old: a.old.view(),
                new: a.new.view(),
            },
        ),
    }
}

/// [`applied_of`].
pub fn applied(a: Result<AttentionAnswer, Fail>) -> (r: Result<Applied, Fail>)
    ensures
        applied_result(r) == applied_of(outcome(a)),
{
    match a {
        Err(f) => Err(f),
        Ok(a) => Ok(Applied { status: 200, body: a.body, old: a.old, new: a.new }),
    }
}

// ---------------------------------------------------------------------------------------------
// Routing
// ---------------------------------------------------------------------------------------------

/// A route of the attention service.
#[derive(Clone, Copy, Debug, PartialEq, Eq, Structural)]
pub enum Route {
    /// The sites.
    Sites,
    /// The current site.
    Current,
    /// Select a site.
    SelectSite,
    /// Change a site.
    UpdateSite(Id),
    /// The baselines.
    Baselines,
    /// The slots of a baseline.
    Slots,
    /// Freeze a baseline again.
    Refreeze,
    /// The candidates.
    Candidates,
    /// The weights.
    Weights,
    /// Set the weights.
    SetWeights,
}

impl Route {
    /// What it is audited as.
    pub open spec fn named(self) -> Seq<char> {
        match self {
            Route::Sites => "sites_list"@,
            Route::Current => "site_current"@,
            Route::SelectSite => "site_select"@,
            Route::UpdateSite(_) => "site_update"@,
            Route::Baselines => "baselines_list"@,
            Route::Slots => "baseline_slots"@,
            Route::Refreeze => "baseline_refreeze"@,
            Route::Candidates => "candidates"@,
            Route::Weights => "weights_get"@,
            Route::SetWeights => "weights_update"@,
        }
    }

    /// [`Route::named`].
    pub fn name(self) -> (r: &'static str)
        ensures
            r@ == self.named(),
    {
        match self {
            Route::Sites => "sites_list",
            Route::Current => "site_current",
            Route::SelectSite => "site_select",
            Route::UpdateSite(_) => "site_update",
            Route::Baselines => "baselines_list",
            Route::Slots => "baseline_slots",
            Route::Refreeze => "baseline_refreeze",
            Route::Candidates => "candidates",
            Route::Weights => "weights_get",
            Route::SetWeights => "weights_update",
        }
    }

    /// It changes something.
    pub open spec fn changes(self) -> bool {
        self is SelectSite || self is UpdateSite || self is Refreeze || self is SetWeights
    }

    /// [`Route::changes`].
    pub fn mutating(self) -> (r: bool)
        ensures
            r == self.changes(),
    {
        match self {
            Route::SelectSite => true,
            Route::UpdateSite(_) => true,
            Route::Refreeze => true,
            Route::SetWeights => true,
            _ => false,
        }
    }
}

/// The route where the method is the one that the path takes.
pub open spec fn one_of(method: Seq<char>, takes: Seq<char>, r: Route) -> Result<
    Route,
    Option<Seq<char>>,
> {
    if method == takes {
        Ok(r)
    } else {
        Err(Some(takes))
    }
}

/// The route of a path that is read with `GET` and set with `PUT`.
pub open spec fn get_or_put(method: Seq<char>, get: Route, put: Route) -> Result<
    Route,
    Option<Seq<char>>,
> {
    if method == "GET"@ {
        Ok(get)
    } else if method == "PUT"@ {
        Ok(put)
    } else {
        Err(Some("GET, PUT"@))
    }
}

/// The text in a path that should be the identity of a site.
pub open spec fn path_id_of(path: Seq<char>) -> Option<Seq<char>> {
    without_prefix(path, "/api/sites/"@)
}

/// [`path_id_of`].
pub fn path_id(path: &str) -> (r: Option<&str>)
    ensures
        opt_text(r) == path_id_of(path@),
{
    strip_prefix(path, "/api/sites/")
}

/// What a method and a path are. `id` is the site that the text of [`path_id_of`] names, where it
/// names one.
pub open spec fn resolved(method: Seq<char>, path: Seq<char>, id: Option<Id>) -> Option<
    Result<Route, Option<Seq<char>>>,
> {
    if path == "/api/sites"@ {
        Some(one_of(method, "GET"@, Route::Sites))
    } else if path == "/api/sites/current"@ {
        Some(get_or_put(method, Route::Current, Route::SelectSite))
    } else if path == "/api/baselines"@ {
        Some(one_of(method, "GET"@, Route::Baselines))
    } else if path == "/api/baselines/slots"@ {
        Some(one_of(method, "GET"@, Route::Slots))
    } else if path == "/api/baselines/refreeze"@ {
        Some(one_of(method, "POST"@, Route::Refreeze))
    } else if path == "/api/candidates"@ {
        Some(one_of(method, "GET"@, Route::Candidates))
    } else if path == "/api/attention/weights"@ {
        Some(get_or_put(method, Route::Weights, Route::SetWeights))
    } else {
        match without_prefix(path, "/api/sites/"@) {
            None => None,
            Some(_) => Some(
                match id {
                    Some(id) => one_of(method, "PUT"@, Route::UpdateSite(id)),
                    None => Err(None),
                },
            ),
        }
    }
}

/// What a resolved route holds.
pub open spec fn resolved_view(r: Option<Result<Route, Option<&'static str>>>) -> Option<
    Result<Route, Option<Seq<char>>>,
> {
    match r {
        None => None,
        Some(Ok(a)) => Some(Ok(a)),
        Some(Err(allow)) => Some(Err(opt_text(allow))),
    }
}

fn pick(method: &str, takes: &'static str, r: Route) -> (out: Result<Route, Option<&'static str>>)
    ensures
        resolved_view(Some(out)) == Some(one_of(method@, takes@, r)),
{
    if same(method, takes) {
        Ok(r)
    } else {
        Err(Some(takes))
    }
}

fn pick_two(method: &str, get: Route, put: Route) -> (out: Result<Route, Option<&'static str>>)
    ensures
        resolved_view(Some(out)) == Some(get_or_put(method@, get, put)),
{
    if same(method, "GET") {
        Ok(get)
    } else if same(method, "PUT") {
        Ok(put)
    } else {
        Err(Some("GET, PUT"))
    }
}

/// [`resolved`].
pub fn resolve(method: &str, path: &str, id: Option<Id>) -> (r: Option<
    Result<Route, Option<&'static str>>,
>)
    ensures
        resolved_view(r) == resolved(method@, path@, id),
{
    if same(path, "/api/sites") {
        Some(pick(method, "GET", Route::Sites))
    } else if same(path, "/api/sites/current") {
        Some(pick_two(method, Route::Current, Route::SelectSite))
    } else if same(path, "/api/baselines") {
        Some(pick(method, "GET", Route::Baselines))
    } else if same(path, "/api/baselines/slots") {
        Some(pick(method, "GET", Route::Slots))
    } else if same(path, "/api/baselines/refreeze") {
        Some(pick(method, "POST", Route::Refreeze))
    } else if same(path, "/api/candidates") {
        Some(pick(method, "GET", Route::Candidates))
    } else if same(path, "/api/attention/weights") {
        Some(pick_two(method, Route::Weights, Route::SetWeights))
    } else {
        match strip_prefix(path, "/api/sites/") {
            None => None,
            Some(_) => Some(
                match id {
                    Some(id) => pick(method, "PUT", Route::UpdateSite(id)),
                    None => Err(None),
                },
            ),
        }
    }
}

// ---------------------------------------------------------------------------------------------
// Reads
// ---------------------------------------------------------------------------------------------

/// The first value of a parameter.
pub fn query<'a>(q: &'a Vec<(String, String)>, key: &str) -> (r: Option<&'a str>)
    ensures
        opt_text(r) == value_of(pairs(q@), key@),
{
    find_value(q.as_slice(), key)
}

/// Refuses a stray parameter by name; the token is none.
pub open spec fn query_only_of(q: Seq<(Seq<char>, Seq<char>)>, allowed: Seq<Seq<char>>) -> Result<
    (),
    FailV,
> {
    match stray(q, allowed.push("token"@)) {
        Some(k) => Err(invalid_v("unknown query parameter "@ + debug_text(k))),
        None => Ok(()),
    }
}

/// [`query_only_of`].
pub fn query_only(q: &Vec<(String, String)>, allowed: &[&str]) -> (r: Result<(), Fail>)
    ensures
        outcome(r) == query_only_of(pairs(q@), texts(allowed@)),
{
    match find_other(q, allowed) {
        Some(k) => {
            let quoted = debug(k);
            let m = String::from_str("unknown query parameter ").concat(quoted.as_str());
            Err(Fail::new(400, "invalid", m))
        },
        None => Ok(()),
    }
}

/// An optional finite number among the parameters.
pub open spec fn query_number_of(q: Seq<(Seq<char>, Seq<char>)>, key: Seq<char>) -> Result<
    Option<Real>,
    FailV,
> {
    match value_of(q, key) {
        None => Ok(None),
        Some(v) => match text_real(v) {
            Some(x) => Ok(Some(x)),
            None => Err(invalid_v(key + " must be a finite number"@)),
        },
    }
}

/// [`query_number_of`].
pub fn query_number(q: &Vec<(String, String)>, key: &str) -> (r: Result<Option<Real>, Fail>)
    ensures
        outcome(r) == query_number_of(pairs(q@), key@),
{
    match query(q, key) {
        None => Ok(None),
        Some(v) => match parse_real(v) {
            Some(x) => Ok(Some(x)),
            None => {
                let m = String::from_str(key).concat(" must be a finite number");
                Err(Fail::new(400, "invalid", m))
            },
        },
    }
}

/// The site among the parameters: `site` is what its text writes, where it is one.
pub open spec fn query_site_of(q: Seq<(Seq<char>, Seq<char>)>, site: Option<Id>) -> Result<
    Option<Id>,
    FailV,
> {
    match (value_of(q, "site"@), site) {
        (None, _) => Ok(None),
        (Some(_), Some(id)) => Ok(Some(id)),
        (Some(_), None) => Err(invalid_v("site must be a site id"@)),
    }
}

/// [`query_site_of`].
pub fn query_site(q: &Vec<(String, String)>, site: Option<Id>) -> (r: Result<Option<Id>, Fail>)
    ensures
        outcome(r) == query_site_of(pairs(q@), site),
{
    match query(q, "site") {
        None => Ok(None),
        Some(_) => match site {
            Some(id) => Ok(Some(id)),
            None => Err(Fail::invalid("site must be a site id")),
        },
    }
}

/// A band must not be empty.
pub open spec fn band_of(f_lo: Option<Real>, f_hi: Option<Real>) -> Result<(), FailV> {
    match (f_lo, f_hi) {
        (Some(lo), Some(hi)) => if hi.at_most(lo) {
            Err(invalid_v("f_hi must exceed f_lo"@))
        } else {
            Ok(())
        },
        _ => Ok(()),
    }
}

/// [`band_of`].
pub fn band(f_lo: Option<Real>, f_hi: Option<Real>) -> (r: Result<(), Fail>)
    ensures
        outcome(r) == band_of(f_lo, f_hi),
{
    match (f_lo, f_hi) {
        (Some(lo), Some(hi)) => if hi.le(lo) {
            Err(Fail::invalid("f_hi must exceed f_lo"))
        } else {
            Ok(())
        },
        _ => Ok(()),
    }
}

/// The slot among the parameters.
pub open spec fn slot_of(q: Seq<(Seq<char>, Seq<char>)>) -> Result<Option<u8>, FailV> {
    match value_of(q, "slot"@) {
        None => Ok(None),
        Some(v) => match unsigned(v, (HOURS_OF_WEEK - 1) as nat) {
            Some(n) => Ok(Some(n as u8)),
            None => Err(invalid_v("slot must be 0–167"@)),
        },
    }
}

fn read_slot(q: &Vec<(String, String)>) -> (r: Result<Option<u8>, Fail>)
    ensures
        outcome(r) == slot_of(pairs(q@)),
{
    match query(q, "slot") {
        None => Ok(None),
        Some(v) => match parse_unsigned(v, (HOURS_OF_WEEK - 1) as u64) {
            Some(n) => Ok(Some(n as u8)),
            None => Err(Fail::invalid("slot must be 0–167")),
        },
    }
}

/// The resolution among the parameters.
pub open spec fn resolution_of(q: Seq<(Seq<char>, Seq<char>)>) -> Result<
    Option<BaselineResolution>,
    FailV,
> {
    match value_of(q, "resolution"@) {
        None => Ok(None),
        Some(v) => match resolution_named(v) {
            Some(x) => Ok(Some(x)),
            None => Err(
                invalid_v("resolution must be hour-of-week, hour-of-day, day-part or all-hours"@),
            ),
        },
    }
}

fn read_resolution(q: &Vec<(String, String)>) -> (r: Result<Option<BaselineResolution>, Fail>)
    ensures
        outcome(r) == resolution_of(pairs(q@)),
{
    match query(q, "resolution") {
        None => Ok(None),
        Some(v) => match resolution_by_name(v) {
            Some(x) => Ok(Some(x)),
            None => Err(
                Fail::invalid("resolution must be hour-of-week, hour-of-day, day-part or all-hours"),
            ),
        },
    }
}

/// The slots that a query asks for.
pub open spec fn slots_of(q: Seq<(Seq<char>, Seq<char>)>, site: Option<Id>) -> Result<
    AttentionCallV,
    FailV,
> {
    match query_only_of(q, seq!["site"@, "f_lo"@, "f_hi"@, "slot"@, "resolution"@]) {
        Err(f) => Err(f),
        Ok(_) => match (query_number_of(q, "f_lo"@), query_number_of(q, "f_hi"@)) {
            (Err(f), _) => Err(f),
            (_, Err(f)) => Err(f),
            (Ok(Some(f_lo)), Ok(Some(f_hi))) => match band_of(Some(f_lo), Some(f_hi)) {
                Err(f) => Err(f),
                Ok(_) => match slot_of(q) {
                    Err(f) => Err(f),
                    Ok(slot) => match resolution_of(q) {
                        Err(f) => Err(f),
                        Ok(resolution) => match query_site_of(q, site) {
                            Err(f) => Err(f),
                            Ok(site) => Ok(
                                AttentionCallV::Slots { site, f_lo, f_hi, slot, resolution },
                            ),
                        },
                    },
                },
            },
            _ => Err(invalid_v("f_lo and f_hi are required"@)),
        },
    }
}

fn read_slots(q: &Vec<(String, String)>, site: Option<Id>) -> (r: Result<AttentionCall, Fail>)
    ensures
        call_result(r) == slots_of(pairs(q@), site),
{
    let allowed = ["site", "f_lo", "f_hi", "slot", "resolution"];
    assert(texts(allowed@) =~= seq!["site"@, "f_lo"@, "f_hi"@, "slot"@, "resolution"@]);
    match query_only(q, &allowed) {
        Ok(_) => {},
        Err(f) => return Err(f),
    }
    let f_lo = match query_number(q, "f_lo") {
        Ok(x) => x,
        Err(f) => return Err(f),
    };
    let f_hi = match query_number(q, "f_hi") {
        Ok(x) => x,
        Err(f) => return Err(f),
    };
    let (f_lo, f_hi) = match (f_lo, f_hi) {
        (Some(a), Some(b)) => (a, b),
        _ => return Err(Fail::invalid("f_lo and f_hi are required")),
    };
    match band(Some(f_lo), Some(f_hi)) {
        Ok(_) => {},
        Err(f) => return Err(f),
    }
    let slot = match read_slot(q) {
        Ok(s) => s,
        Err(f) => return Err(f),
    };
    let resolution = match read_resolution(q) {
        Ok(x) => x,
        Err(f) => return Err(f),
    };
    match query_site(q, site) {
        Ok(site) => Ok(AttentionCall::Slots { site, f_lo, f_hi, slot, resolution }),
        Err(f) => Err(f),
    }
}

/// The most candidates that a query asks for.
pub open spec fn candidates_limit_of(q: Seq<(Seq<char>, Seq<char>)>) -> Result<usize, FailV> {
    match value_of(q, "limit"@) {
        None => Ok(CANDIDATES_DEFAULT_LIMIT),
        Some(v) => match unsigned(v, CANDIDATES_MAX_LIMIT as nat) {
            Some(n) => if n >= 1 {
                Ok(n as usize)
            } else {
                Err(invalid_v("limit must be 1–1000"@))
            },
            None => Err(invalid_v("limit must be 1–1000"@)),
        },
    }
}

/// The candidates that a query asks for.
pub open spec fn candidates_of(q: Seq<(Seq<char>, Seq<char>)>) -> Result<AttentionCallV, FailV> {
    match query_only_of(q, seq!["f_lo"@, "f_hi"@, "limit"@]) {
        Err(f) => Err(f),
        Ok(_) => match (query_number_of(q, "f_lo"@), query_number_of(q, "f_hi"@)) {
            (Err(f), _) => Err(f),
            (_, Err(f)) => Err(f),
            (Ok(f_lo), Ok(f_hi)) => match band_of(f_lo, f_hi) {
                Err(f) => Err(f),
                Ok(_) => match candidates_limit_of(q) {
                    Err(f) => Err(f),
                    Ok(limit) => Ok(AttentionCallV::Candidates { f_lo, f_hi, limit }),
                },
            },
        },
    }
}

fn read_candidates(q: &Vec<(String, String)>) -> (r: Result<AttentionCall, Fail>)
    ensures
        call_result(r) == candidates_of(pairs(q@)),
{
    let allowed = ["f_lo", "f_hi", "limit"];
    assert(texts(allowed@) =~= seq!["f_lo"@, "f_hi"@, "limit"@]);
    match query_only(q, &allowed) {
        Ok(_) => {},
        Err(f) => return Err(f),
    }
    let f_lo = match query_number(q, "f_lo") {
        Ok(x) => x,
        Err(f) => return Err(f),
    };
    let f_hi = match query_number(q, "f_hi") {
        Ok(x) => x,
        Err(f) => return Err(f),
    };
    match band(f_lo, f_hi) {
        Ok(_) => {},
        Err(f) => return Err(f),
    }
    let limit: usize = match query(q, "limit") {
        None => CANDIDATES_DEFAULT_LIMIT,
        Some(v) => match parse_unsigned(v, CANDIDATES_MAX_LIMIT as u64) {
            Some(n) => if n >= 1 {
                n as usize
            } else {
                return Err(Fail::invalid("limit must be 1–1000"));
            },
            None => return Err(Fail::invalid("limit must be 1–1000")),
        },
    };
    Ok(AttentionCall::Candidates { f_lo, f_hi, limit })
}

/// A call that takes no parameters.
pub open spec fn bare_of(q: Seq<(Seq<char>, Seq<char>)>, c: AttentionCallV) -> Result<
    AttentionCallV,
    FailV,
> {
    match query_only_of(q, Seq::empty()) {
        Err(f) => Err(f),
        Ok(_) => Ok(c),
    }
}

fn bare(q: &Vec<(String, String)>, c: AttentionCall) -> (r: Result<AttentionCall, Fail>)
    ensures
        call_result(r) == bare_of(pairs(q@), c@),
{
    let allowed: [&str; 0] = [];
    assert(texts(allowed@) =~= Seq::empty());
    match query_only(q, &allowed) {
        Ok(_) => Ok(c),
        Err(f) => Err(f),
    }
}

/// The call of a read. `site` is what the parameter of that name writes, where it is a site.
pub open spec fn read_call_of(
    route: Route,
    q: Seq<(Seq<char>, Seq<char>)>,
    site: Option<Id>,
) -> Result<AttentionCallV, FailV> {
    match route {
        Route::Sites => bare_of(q, AttentionCallV::Sites),
        Route::Current => bare_of(q, AttentionCallV::CurrentSite),
        Route::Weights => bare_of(q, AttentionCallV::Weights),
        Route::Baselines => match query_only_of(q, seq!["site"@]) {
            Err(f) => Err(f),
            Ok(_) => match query_site_of(q, site) {
                Err(f) => Err(f),
                Ok(site) => Ok(AttentionCallV::Baselines { site }),
            },
        },
        Route::Slots => slots_of(q, site),
        Route::Candidates => candidates_of(q),
        _ => Err(fail_v(500, "failed"@, "not a read"@)),
    }
}

/// [`read_call_of`].
pub fn read_call(route: Route, q: &Vec<(String, String)>, site: Option<Id>) -> (r: Result<
    AttentionCall,
    Fail,
>)
    ensures
        call_result(r) == read_call_of(route, pairs(q@), site),
{
    match route {
        Route::Sites => bare(q, AttentionCall::Sites),
        Route::Current => bare(q, AttentionCall::CurrentSite),
        Route::Weights => bare(q, AttentionCall::Weights),
        Route::Baselines => {
            let allowed = ["site"];
            assert(texts(allowed@) =~= seq!["site"@]);
            match query_only(q, &allowed) {
                Ok(_) => {},
                Err(f) => return Err(f),
            }
            match query_site(q, site) {
                Ok(site) => Ok(AttentionCall::Baselines { site }),
                Err(f) => Err(f),
            }
        },
        Route::Slots => read_slots(q, site),
        Route::Candidates => read_candidates(q),
        _ => Err(Fail::of(500, "failed", "not a read")),
    }
}

proof fn only_is_kept(q: Seq<(Seq<char>, Seq<char>)>, token: Seq<char>, allowed: Seq<Seq<char>>)
    ensures
        stray(q.push(("token"@, token)), allowed.push("token"@)) == stray(
            q,
            allowed.push("token"@),
        ),
    decreases q.len(),
{
    reveal_with_fuel(stray, 2);
    let more = q.push(("token"@, token));
    let a = allowed.push("token"@);
    assert(a[allowed.len() as int] == "token"@);
    if q.len() == 0 {
        assert(more.skip(1) =~= Seq::empty());
    } else {
        only_is_kept(q.skip(1), token, allowed);
        assert(more.skip(1) =~= q.skip(1).push(("token"@, token)));
    }
}

proof fn value_is_kept(q: Seq<(Seq<char>, Seq<char>)>, token: Seq<char>, key: Seq<char>)
    requires
        key != "token"@,
    ensures
        value_of(q.push(("token"@, token)), key) == value_of(q, key),
    decreases q.len(),
{
    reveal_with_fuel(value_of, 2);
    let more = q.push(("token"@, token));
    if q.len() == 0 {
        assert(more.skip(1) =~= Seq::empty());
    } else {
        value_is_kept(q.skip(1), token, key);
        assert(more.skip(1) =~= q.skip(1).push(("token"@, token)));
    }
}

/// A read may carry its token in the query: it asks for the same as without it.
pub proof fn reads_may_carry_the_token(
    route: Route,
    q: Seq<(Seq<char>, Seq<char>)>,
    token: Seq<char>,
    site: Option<Id>,
)
    ensures
        read_call_of(route, q.push(("token"@, token)), site) == read_call_of(route, q, site),
{
    reveal_strlit("token");
    reveal_strlit("site");
    reveal_strlit("f_lo");
    reveal_strlit("f_hi");
    reveal_strlit("slot");
    reveal_strlit("resolution");
    reveal_strlit("limit");
    assert("token"@[0] == 't' && "limit"@[0] == 'l');
    only_is_kept(q, token, Seq::empty());
    only_is_kept(q, token, seq!["site"@]);
    only_is_kept(q, token, seq!["site"@, "f_lo"@, "f_hi"@, "slot"@, "resolution"@]);
    only_is_kept(q, token, seq!["f_lo"@, "f_hi"@, "limit"@]);
    value_is_kept(q, token, "site"@);
    value_is_kept(q, token, "f_lo"@);
    value_is_kept(q, token, "f_hi"@);
    value_is_kept(q, token, "slot"@);
    value_is_kept(q, token, "resolution"@);
    value_is_kept(q, token, "limit"@);
}

// ---------------------------------------------------------------------------------------------
// Writes
// ---------------------------------------------------------------------------------------------

/// A name that a body sets: trimmed, not blank, at most 64 bytes; `null` clears it.
pub open spec fn opt_name_of(body: Seq<(Seq<char>, JsonV)>, key: Seq<char>) -> Result<
    Option<Option<Seq<char>>>,
    FailV,
> {
    match member(body, key) {
        None => Ok(None),
        Some(JsonV::Null) => Ok(Some(None)),
        Some(JsonV::Text(s)) => if trimmed(s).len() > 0 && vstd::utf8::encode_utf8(
            trimmed(s),
        ).len() <= MAX_NAME {
            Ok(Some(Some(trimmed(s))))
        } else {
            Err(bad_name(key))
        },
        Some(_) => Err(bad_name(key)),
    }
}

/// What another name is refused with.
pub open spec fn bad_name(key: Seq<char>) -> FailV {
    invalid_v(key + " must be a non-blank string of at most 64 bytes"@)
}

fn refuse_name(key: &str) -> (r: Fail)
    ensures
        r@ == bad_name(key@),
{
    let m = String::from_str(key).concat(" must be a non-blank string of at most 64 bytes");
    Fail::new(400, "invalid", m)
}

/// What a read name holds.
pub open spec fn opt_name_result(r: Result<Option<Option<String>>, Fail>) -> Result<
    Option<Option<Seq<char>>>,
    FailV,
> {
    match r {
        Ok(n) => Ok(name_view(n)),
        Err(f) => Err(f@),
    }
}

/// [`opt_name_of`].
pub fn opt_name(body: &Vec<(String, Json)>, key: &str) -> (r: Result<Option<Option<String>>, Fail>)
    ensures
        opt_name_result(r) == opt_name_of(fields_view(body@), key@),
{
    match find(body, key) {
        None => Ok(None),
        Some(Json::Null) => Ok(Some(None)),
        Some(Json::Text(s)) => {
            let t = trim(s.as_str());
            if !t.is_empty() && byte_len(t) <= MAX_NAME {
                Ok(Some(Some(t.to_owned())))
            } else {
                Err(refuse_name(key))
            }
        },
        Some(_) => Err(refuse_name(key)),
    }
}

/// The offset from UTC that a body sets: whole minutes within fourteen hours.
pub open spec fn offset_of(body: Seq<(Seq<char>, JsonV)>) -> Result<Option<i16>, FailV> {
    match number_of(body, "utc_offset_min"@) {
        Err(f) => Err(f),
        Ok(None) => Ok(None),
        Ok(Some(v)) => match v.small_whole() {
            Some(n) => if -MAX_OFFSET <= n <= MAX_OFFSET {
                Ok(Some(n as i16))
            } else {
                Err(invalid_v("utc_offset_min must be an integer within ±840"@))
            },
            None => Err(invalid_v("utc_offset_min must be an integer within ±840"@)),
        },
    }
}

/// [`offset_of`].
pub fn offset(body: &Vec<(String, Json)>) -> (r: Result<Option<i16>, Fail>)
    ensures
        outcome(r) == offset_of(fields_view(body@)),
{
    match number(body, "utc_offset_min") {
        Err(f) => Err(f),
        Ok(None) => Ok(None),
        Ok(Some(v)) => match v.whole() {
            Some(n) => if -MAX_OFFSET <= n && n <= MAX_OFFSET {
                Ok(Some(n as i16))
            } else {
                Err(Fail::invalid("utc_offset_min must be an integer within ±840"))
            },
            None => Err(Fail::invalid("utc_offset_min must be an integer within ±840")),
        },
    }
}

/// An offset that is written as an integer is that integer where it lies within the bounds, and is
/// refused where it does not.
pub proof fn whole_offsets_are_taken_as_written(body: Seq<(Seq<char>, JsonV)>, n: i64)
    requires
        -(EXACT as int) < n < EXACT,
        member(body, "utc_offset_min"@) == Some(
            JsonV::Number(
                if n >= 0 {
                    Num::U(n as u64)
                } else {
                    Num::I(n)
                },
            ),
        ),
    ensures
        match offset_of(body) {
            Ok(r) => -MAX_OFFSET <= n <= MAX_OFFSET && r == Some(n as i16),
            Err(f) => !(-MAX_OFFSET <= n <= MAX_OFFSET) && f == invalid_v(
                "utc_offset_min must be an integer within ±840"@,
            ),
        },
{
    let m: nat = if n >= 0 {
        n as nat
    } else {
        -n as nat
    };
    integers_are_doubles(m, m);
}

/// The site that a body names: `id` is what its text writes, where it is one.
pub open spec fn select_id_of(body: Seq<(Seq<char>, JsonV)>, id: Option<Id>) -> Result<
    Option<Id>,
    FailV,
> {
    match member(body, "id"@) {
        None => Ok(None),
        Some(JsonV::Text(_)) => match id {
            Some(id) => Ok(Some(id)),
            None => Err(invalid_v("id must be a site id"@)),
        },
        Some(_) => Err(invalid_v("id must be a site id"@)),
    }
}

/// The pin is released.
pub open spec fn release_of(body: Seq<(Seq<char>, JsonV)>) -> Result<bool, FailV> {
    match member(body, "release"@) {
        None => Ok(false),
        Some(JsonV::Bool(b)) => Ok(b),
        Some(_) => Err(invalid_v("release must be a boolean"@)),
    }
}

/// The name that a selection gives.
pub open spec fn select_name_of(body: Seq<(Seq<char>, JsonV)>) -> Result<Option<Seq<char>>, FailV> {
    match opt_name_of(body, "name"@) {
        Err(f) => Err(f),
        Ok(Some(Some(n))) => Ok(Some(n)),
        Ok(_) => Ok(None),
    }
}

/// What a created site would be.
pub open spec fn site_of(
    body: Seq<(Seq<char>, JsonV)>,
    id: Option<Id>,
    name: Option<Seq<char>>,
    release: bool,
) -> Result<AttentionCallV, FailV> {
    match number_of(body, "lat_deg"@) {
        Err(f) => Err(f),
        Ok(lat_deg) => match number_of(body, "lon_deg"@) {
            Err(f) => Err(f),
            Ok(lon_deg) => match number_of(body, "radius_m"@) {
                Err(f) => Err(f),
                Ok(radius_m) => match offset_of(body) {
                    Err(f) => Err(f),
                    Ok(utc_offset_min) => Ok(
                        AttentionCallV::SelectSite(
                            SiteSelectBodyV {
                                id,
                                name,
                                lat_deg,
                                lon_deg,
                                radius_m,
                                utc_offset_min,
                                release,
                            },
                        ),
                    ),
                },
            },
        },
    }
}

/// The members of a selection.
pub open spec fn select_fields() -> Seq<Seq<char>> {
    seq![
        "id"@,
        "name"@,
        "lat_deg"@,
        "lon_deg"@,
        "radius_m"@,
        "utc_offset_min"@,
        "release"@,
    ]
}

/// The site that a body selects: one named by its identity or by a name, or the release of the
/// pin, and no two of these.
pub open spec fn select_of(body: Seq<(Seq<char>, JsonV)>, id: Option<Id>) -> Result<
    AttentionCallV,
    FailV,
> {
    match only_of(body, select_fields()) {
        Err(f) => Err(f),
        Ok(_) => match select_id_of(body, id) {
            Err(f) => Err(f),
            Ok(id) => match release_of(body) {
                Err(f) => Err(f),
                Ok(release) => match select_name_of(body) {
                    Err(f) => Err(f),
                    Ok(name) => if release == (id is Some || name is Some) {
                        Err(invalid_v("give exactly one of id or name, or release: true"@))
                    } else if id is Some && name is Some {
                        Err(invalid_v("give id or name, not both"@))
                    } else {
                        site_of(body, id, name, release)
                    },
                },
            },
        },
    }
}

fn read_select(body: &Vec<(String, Json)>, id: Option<Id>) -> (r: Result<AttentionCall, Fail>)
    ensures
        call_result(r) == select_of(fields_view(body@), id),
{
    let allowed = ["id", "name", "lat_deg", "lon_deg", "radius_m", "utc_offset_min", "release"];
    assert(texts(allowed@) =~= select_fields());
    match only(body, &allowed) {
        Ok(_) => {},
        Err(f) => return Err(f),
    }
    let id = match find(body, "id") {
        None => None,
        Some(Json::Text(_)) => match id {
            Some(id) => Some(id),
            None => return Err(Fail::invalid("id must be a site id")),
        },
        Some(_) => return Err(Fail::invalid("id must be a site id")),
    };
    let release = match find(body, "release") {
        None => false,
        Some(Json::Bool(b)) => *b,
        Some(_) => return Err(Fail::invalid("release must be a boolean")),
    };
    let name = match opt_name(body, "name") {
        Ok(Some(n)) => n,
        Ok(None) => None,
        Err(f) => return Err(f),
    };
    if release == (id.is_some() || name.is_some()) {
        return Err(Fail::invalid("give exactly one of id or name, or release: true"));
    }
    if id.is_some() && name.is_some() {
        return Err(Fail::invalid("give id or name, not both"));
    }
    let lat_deg = match number(body, "lat_deg") {
        Ok(x) => x,
        Err(f) => return Err(f),
    };
    let lon_deg = match number(body, "lon_deg") {
        Ok(x) => x,
        Err(f) => return Err(f),
    };
    let radius_m = match number(body, "radius_m") {
        Ok(x) => x,
        Err(f) => return Err(f),
    };
    match offset(body) {
        Ok(utc_offset_min) => Ok(
            AttentionCall::SelectSite(
                SiteSelectBody { id, name, lat_deg, lon_deg, radius_m, utc_offset_min, release },
            ),
        ),
        Err(f) => Err(f),
    }
}

/// What a body changes of a site.
pub open spec fn update_of(body: Seq<(Seq<char>, JsonV)>, id: Id) -> Result<AttentionCallV, FailV> {
    match only_of(body, seq!["name"@, "utc_offset_min"@]) {
        Err(f) => Err(f),
        Ok(_) => match opt_name_of(body, "name"@) {
            Err(f) => Err(f),
            Ok(name) => match offset_of(body) {
                Err(f) => Err(f),
                Ok(utc_offset_min) => if name is None && utc_offset_min is None {
                    Err(invalid_v("give name and/or utc_offset_min"@))
                } else {
                    Ok(AttentionCallV::UpdateSite { id, name, utc_offset_min })
                },
            },
        },
    }
}

fn read_update(body: &Vec<(String, Json)>, id: Id) -> (r: Result<AttentionCall, Fail>)
    ensures
        call_result(r) == update_of(fields_view(body@), id),
{
    let allowed = ["name", "utc_offset_min"];
    assert(texts(allowed@) =~= seq!["name"@, "utc_offset_min"@]);
    match only(body, &allowed) {
        Ok(_) => {},
        Err(f) => return Err(f),
    }
    let name = match opt_name(body, "name") {
        Ok(n) => n,
        Err(f) => return Err(f),
    };
    let utc_offset_min = match offset(body) {
        Ok(o) => o,
        Err(f) => return Err(f),
    };
    if name.is_none() && utc_offset_min.is_none() {
        return Err(Fail::invalid("give name and/or utc_offset_min"));
    }
    Ok(AttentionCall::UpdateSite { id, name, utc_offset_min })
}

/// The site whose baseline is frozen again.
pub open spec fn refreeze_site_of(body: Seq<(Seq<char>, JsonV)>, id: Option<Id>) -> Result<
    Option<Id>,
    FailV,
> {
    match member(body, "site"@) {
        None => Ok(None),
        Some(JsonV::Null) => Ok(None),
        Some(JsonV::Text(_)) => match id {
            Some(id) => Ok(Some(id)),
            None => Err(invalid_v("site must be a site id"@)),
        },
        Some(_) => Err(invalid_v("site must be a site id"@)),
    }
}

/// What a body freezes again.
pub open spec fn refreeze_of(body: Seq<(Seq<char>, JsonV)>, id: Option<Id>) -> Result<
    AttentionCallV,
    FailV,
> {
    match only_of(body, seq!["site"@, "f_lo"@, "f_hi"@]) {
        Err(f) => Err(f),
        Ok(_) => match refreeze_site_of(body, id) {
            Err(f) => Err(f),
            Ok(site) => match (number_of(body, "f_lo"@), number_of(body, "f_hi"@)) {
                (Err(f), _) => Err(f),
                (_, Err(f)) => Err(f),
                (Ok(f_lo), Ok(f_hi)) => if f_lo is Some != f_hi is Some {
                    Err(invalid_v("give both f_lo and f_hi, or neither"@))
                } else {
                    match band_of(f_lo, f_hi) {
                        Err(f) => Err(f),
                        Ok(_) => Ok(AttentionCallV::Refreeze { site, f_lo, f_hi }),
                    }
                },
            },
        },
    }
}

fn read_refreeze(body: &Vec<(String, Json)>, id: Option<Id>) -> (r: Result<AttentionCall, Fail>)
    ensures
        call_result(r) == refreeze_of(fields_view(body@), id),
{
    let allowed = ["site", "f_lo", "f_hi"];
    assert(texts(allowed@) =~= seq!["site"@, "f_lo"@, "f_hi"@]);
    match only(body, &allowed) {
        Ok(_) => {},
        Err(f) => return Err(f),
    }
    let site = match find(body, "site") {
        None => None,
        Some(Json::Null) => None,
        Some(Json::Text(_)) => match id {
            Some(id) => Some(id),
            None => return Err(Fail::invalid("site must be a site id")),
        },
        Some(_) => return Err(Fail::invalid("site must be a site id")),
    };
    let f_lo = match number(body, "f_lo") {
        Ok(x) => x,
        Err(f) => return Err(f),
    };
    let f_hi = match number(body, "f_hi") {
        Ok(x) => x,
        Err(f) => return Err(f),
    };
    if f_lo.is_some() != f_hi.is_some() {
        return Err(Fail::invalid("give both f_lo and f_hi, or neither"));
    }
    match band(f_lo, f_hi) {
        Ok(_) => Ok(AttentionCall::Refreeze { site, f_lo, f_hi }),
        Err(f) => Err(f),
    }
}

/// The members of the weights.
pub open spec fn weight_fields() -> Seq<Seq<char>> {
    seq!["snr"@, "novelty"@, "class_entropy"@, "decoder"@, "periodicity"@, "boring"@]
}

/// A weight that must be there.
pub open spec fn weight_of(body: Seq<(Seq<char>, JsonV)>, key: Seq<char>) -> Result<Real, FailV> {
    match number_of(body, key) {
        Err(f) => Err(f),
        Ok(None) => Err(invalid_v(key + " is required"@)),
        Ok(Some(x)) => Ok(x),
    }
}

fn read_weight(body: &Vec<(String, Json)>, key: &str) -> (r: Result<Real, Fail>)
    ensures
        outcome(r) == weight_of(fields_view(body@), key@),
{
    match number(body, key) {
        Err(f) => Err(f),
        Ok(None) => {
            let m = String::from_str(key).concat(" is required");
            Err(Fail::new(400, "invalid", m))
        },
        Ok(Some(x)) => Ok(x),
    }
}

/// The weights that a body gives: all six, the first that is wrong named.
pub open spec fn weights_of(body: Seq<(Seq<char>, JsonV)>) -> Result<ScoreWeights, FailV> {
    match only_of(body, weight_fields()) {
        Err(f) => Err(f),
        Ok(_) => match weight_of(body, "snr"@) {
            Err(f) => Err(f),
            Ok(snr) => match weight_of(body, "novelty"@) {
                Err(f) => Err(f),
                Ok(novelty) => match weight_of(body, "class_entropy"@) {
                    Err(f) => Err(f),
                    Ok(class_entropy) => match weight_of(body, "decoder"@) {
                        Err(f) => Err(f),
                        Ok(decoder) => match weight_of(body, "periodicity"@) {
                            Err(f) => Err(f),
                            Ok(periodicity) => match weight_of(body, "boring"@) {
                                Err(f) => Err(f),
                                Ok(boring) => Ok(
                                    ScoreWeights {
                                        snr,
                                        novelty,
                                        class_entropy,
                                        decoder,
                                        periodicity,
                                        boring,
                                    },
                                ),
                            },
                        },
                    },
                },
            },
        },
    }
}

/// [`weights_of`].
pub fn read_weights(body: &Vec<(String, Json)>) -> (r: Result<ScoreWeights, Fail>)
    ensures
        outcome(r) == weights_of(fields_view(body@)),
{
    let allowed = ["snr", "novelty", "class_entropy", "decoder", "periodicity", "boring"];
    assert(texts(allowed@) =~= weight_fields());
    match only(body, &allowed) {
        Ok(_) => {},
        Err(f) => return Err(f),
    }
    let snr = match read_weight(body, "snr") {
        Ok(x) => x,
        Err(f) => return Err(f),
    };
    let novelty = match read_weight(body, "novelty") {
        Ok(x) => x,
        Err(f) => return Err(f),
    };
    let class_entropy = match read_weight(body, "class_entropy") {
        Ok(x) => x,
        Err(f) => return Err(f),
    };
    let decoder = match read_weight(body, "decoder") {
        Ok(x) => x,
        Err(f) => return Err(f),
    };
    let periodicity = match read_weight(body, "periodicity") {
        Ok(x) => x,
        Err(f) => return Err(f),
    };
    match read_weight(body, "boring") {
        Ok(boring) => Ok(
            ScoreWeights { snr, novelty, class_entropy, decoder, periodicity, boring },
        ),
        Err(f) => Err(f),
    }
}

/// What a message of a refused value holds.
pub open spec fn valid_view(v: Result<(), String>) -> Result<(), Seq<char>> {
    match v {
        Ok(_) => Ok(()),
        Err(m) => Err(m@),
    }
}

/// The call of a mutation. `id` is the site that the body names, where its text is one, and
/// `valid` what the score's own rules say of the weights it gives.
pub open spec fn write_call_of(
    route: Route,
    body: Seq<(Seq<char>, JsonV)>,
    author: Seq<char>,
    id: Option<Id>,
    valid: Result<(), Seq<char>>,
) -> Result<AttentionCallV, FailV> {
    match route {
        Route::SelectSite => select_of(body, id),
        Route::UpdateSite(site) => update_of(body, site),
        Route::Refreeze => refreeze_of(body, id),
        Route::SetWeights => match weights_of(body) {
            Err(f) => Err(f),
            Ok(weights) => match valid {
                Err(m) => Err(invalid_v(m)),
                Ok(_) => Ok(AttentionCallV::SetWeights { weights, author }),
            },
        },
        _ => Err(fail_v(500, "failed"@, "not a mutation"@)),
    }
}

/// [`write_call_of`].
pub fn write_call(
    route: Route,
    body: &Vec<(String, Json)>,
    author: String,
    id: Option<Id>,
    valid: Result<(), String>,
) -> (r: Result<AttentionCall, Fail>)
    ensures
        call_result(r) == write_call_of(
            route,
            fields_view(body@),
            author@,
            id,
            valid_view(valid),
        ),
{
    match route {
        Route::SelectSite => read_select(body, id),
        Route::UpdateSite(site) => read_update(body, site),
        Route::Refreeze => read_refreeze(body, id),
        Route::SetWeights => {
            let weights = match read_weights(body) {
                Ok(w) => w,
                Err(f) => return Err(f),
            };
            match valid {
                Err(m) => Err(Fail::new(400, "invalid", m)),
                Ok(_) => Ok(AttentionCall::SetWeights { weights, author }),
            }
        },
        _ => Err(Fail::of(500, "failed", "not a mutation")),
    }
}

/// A read route never reaches the service as a change, and a mutating one never as a read.
pub proof fn reads_and_writes_stay_apart(
    route: Route,
    q: Seq<(Seq<char>, Seq<char>)>,
    body: Seq<(Seq<char>, JsonV)>,
    author: Seq<char>,
    id: Option<Id>,
    valid: Result<(), Seq<char>>,
)
    ensures
        route.changes() ==> read_call_of(route, q, id) is Err,
        !route.changes() ==> write_call_of(route, body, author, id, valid) is Err,
{
}

/// A selection that is let through names exactly one thing: a site, a name, or the release.
pub proof fn a_selection_is_one_thing(body: Seq<(Seq<char>, JsonV)>, id: Option<Id>)
    ensures
        match select_of(body, id) {
            Ok(AttentionCallV::SelectSite(s)) => (s.id is Some && s.name is None && !s.release)
                || (s.id is None && s.name is Some && !s.release) || (s.id is None && s.name
                is None && s.release),
            Ok(_) => false,
            Err(_) => true,
        },
{
}

// ---------------------------------------------------------------------------------------------
// The service
// ---------------------------------------------------------------------------------------------

/// The service of sites, baselines, candidates and weights, as one request holds it. An
/// implementation adds one dealing for each call.
pub trait AttentionControl {
    /// The calls made through this handle so far, each with its answer.
    open spec fn dealings(&self) -> Seq<(AttentionCallV, Result<AttentionAnswer, AttentionFail>)> {
        record(self)
    }

    /// Runs one call.
    fn call(&mut self, call: AttentionCall) -> (r: Result<AttentionAnswer, AttentionFail>)
        ensures
            final(self).dealings() == old(self).dealings().push((call@, r)),
    ;
}

/// Reads what a route and its query ask for: the service is handed that call, and no other; a query
/// that is refused hands it none.
pub fn read<C: AttentionControl + ?Sized>(
    control: Option<&mut C>,
    route: Route,
    q: &Vec<(String, String)>,
    site: Option<Id>,
) -> (r: Result<Json, Fail>)
    ensures
        match (read_call_of(route, pairs(q@), site), control) {
            (Err(f), None) => read_result(r) == Err::<JsonV, FailV>(f),
            (Err(f), Some(c)) => read_result(r) == Err::<JsonV, FailV>(f) && final(c).dealings()
                == c.dealings(),
            (Ok(_), None) => read_result(r) == body_of(answer_of(None)),
            (Ok(call), Some(c)) => exists|a: Result<AttentionAnswer, AttentionFail>|
                #[trigger] dealt(c.dealings(), final(c).dealings(), call, a) && read_result(r)
                    == body_of(answer_of(Some(a))),
        },
{
    let call = match read_call(route, q, site) {
        Ok(c) => c,
        Err(f) => return Err(f),
    };
    let a = match control {
        None => run(None),
        Some(c) => {
            let ghost (was, asked) = (c.dealings(), call@);
            let a = c.call(call);
            assert(dealt(was, c.dealings(), asked, a));
            run(Some(a))
        },
    };
    match a {
        Ok(a) => Ok(a.body),
        Err(f) => Err(f),
    }
}

/// The body that a read answers with.
pub open spec fn body_of(a: Result<AttentionAnswer, FailV>) -> Result<JsonV, FailV> {
    match a {
        Ok(a) => Ok(a.body.view()),
        Err(f) => Err(f),
    }
}

/// Who changes something: the token's fingerprint, else someone at this machine.
pub fn author(token_id: &Option<String>) -> (r: String)
    ensures
        r@ == (match token_id {
            Some(t) => t@,
            None => "local"@,
        }),
{
    match token_id {
        Some(t) => t.clone(),
        None => "local".to_owned(),
    }
}

/// Changes what a route and its body ask for: the service is handed that call, and no other; a body
/// that is refused hands it none.
pub fn change<C: AttentionControl + ?Sized>(
    control: Option<&mut C>,
    route: Route,
    body: &Vec<(String, Json)>,
    author: String,
    id: Option<Id>,
    valid: Result<(), String>,
) -> (r: Result<Applied, Fail>)
    ensures
        match (
            write_call_of(route, fields_view(body@), author@, id, valid_view(valid)),
            control,
        ) {
            (Err(f), None) => applied_result(r) == Err::<AppliedV, FailV>(f),
            (Err(f), Some(c)) => applied_result(r) == Err::<AppliedV, FailV>(f)
                && final(c).dealings() == c.dealings(),
            (Ok(_), None) => applied_result(r) == applied_of(answer_of(None)),
            (Ok(call), Some(c)) => exists|a: Result<AttentionAnswer, AttentionFail>|
                #[trigger] dealt(c.dealings(), final(c).dealings(), call, a) && applied_result(r)
                    == applied_of(answer_of(Some(a))),
        },
{
    let call = match write_call(route, body, author, id, valid) {
        Ok(c) => c,
        Err(f) => return Err(f),
    };
    match control {
        None => applied(run(None)),
        Some(c) => {
            let ghost (was, asked) = (c.dealings(), call@);
            let a = c.call(call);
            assert(dealt(was, c.dealings(), asked, a));
            applied(run(Some(a)))
        },
    }
}

/// Every reading and change is at a path of its own and takes one method; a site is changed by its
/// name.
pub proof fn attention_is_at_its_paths(method: Seq<char>, path: Seq<char>, id: Option<Id>)
    ensures
        resolved(method, path, id) matches Some(Ok(r)) ==> match r {
            Route::Sites => method == "GET"@ && path == "/api/sites"@,
            Route::Current => method == "GET"@ && path == "/api/sites/current"@,
            Route::SelectSite => method == "PUT"@ && path == "/api/sites/current"@,
            Route::Baselines => method == "GET"@ && path == "/api/baselines"@,
            Route::Slots => method == "GET"@ && path == "/api/baselines/slots"@,
            Route::Refreeze => method == "POST"@ && path == "/api/baselines/refreeze"@,
            Route::Candidates => method == "GET"@ && path == "/api/candidates"@,
            Route::Weights => method == "GET"@ && path == "/api/attention/weights"@,
            Route::SetWeights => method == "PUT"@ && path == "/api/attention/weights"@,
            Route::UpdateSite(i) => method == "PUT"@ && id == Some(i) && begins(path, "/api/sites/"@),
        },
        resolved("GET"@, "/api/sites"@, id) matches Some(Ok(r)) && r is Sites,
        resolved("GET"@, "/api/sites/current"@, id) matches Some(Ok(r)) && r is Current,
        resolved("PUT"@, "/api/sites/current"@, id) matches Some(Ok(r)) && r is SelectSite,
        resolved("GET"@, "/api/baselines"@, id) matches Some(Ok(r)) && r is Baselines,
        resolved("GET"@, "/api/baselines/slots"@, id) matches Some(Ok(r)) && r is Slots,
        resolved("POST"@, "/api/baselines/refreeze"@, id) matches Some(Ok(r)) && r is Refreeze,
        resolved("GET"@, "/api/candidates"@, id) matches Some(Ok(r)) && r is Candidates,
        resolved("GET"@, "/api/attention/weights"@, id) matches Some(Ok(r)) && r is Weights,
        resolved("PUT"@, "/api/attention/weights"@, id) matches Some(Ok(r)) && r is SetWeights,
        begins(path, "/api/sites/"@) && path != "/api/sites/current"@ ==> {
            &&& id matches Some(i) ==> resolved("PUT"@, path, id) == Some(
                Ok::<Route, Option<Seq<char>>>(Route::UpdateSite(i)),
            )
            &&& id is None ==> resolved(method, path, id) == Some(
                Err::<Route, Option<Seq<char>>>(None),
            )
        },
{
    assert("GET"@ != "PUT"@) by {
        reveal_strlit("GET");
        reveal_strlit("PUT");
        assert("GET"@[0] != "PUT"@[0]);
    }
    assert("/api/sites"@ != "/api/sites/current"@) by {
        reveal_strlit("/api/sites");
        reveal_strlit("/api/sites/current");
        assert("/api/sites"@.len() != "/api/sites/current"@.len());
    }
    assert("/api/sites"@ != "/api/baselines"@) by {
        reveal_strlit("/api/sites");
        reveal_strlit("/api/baselines");
        assert("/api/sites"@.len() != "/api/baselines"@.len());
    }
    assert("/api/sites/current"@ != "/api/baselines"@) by {
        reveal_strlit("/api/sites/current");
        reveal_strlit("/api/baselines");
        assert("/api/sites/current"@.len() != "/api/baselines"@.len());
    }
    assert("/api/sites"@ != "/api/baselines/slots"@) by {
        reveal_strlit("/api/sites");
        reveal_strlit("/api/baselines/slots");
        assert("/api/sites"@.len() != "/api/baselines/slots"@.len());
    }
    assert("/api/sites/current"@ != "/api/baselines/slots"@) by {
        reveal_strlit("/api/sites/current");
        reveal_strlit("/api/baselines/slots");
        assert("/api/sites/current"@.len() != "/api/baselines/slots"@.len());
    }
    assert("/api/baselines"@ != "/api/baselines/slots"@) by {
        reveal_strlit("/api/baselines");
        reveal_strlit("/api/baselines/slots");
        assert("/api/baselines"@.len() != "/api/baselines/slots"@.len());
    }
    assert("/api/sites"@ != "/api/baselines/refreeze"@) by {
        reveal_strlit("/api/sites");
        reveal_strlit("/api/baselines/refreeze");
        assert("/api/sites"@.len() != "/api/baselines/refreeze"@.len());
    }
    assert("/api/sites/current"@ != "/api/baselines/refreeze"@) by {
        reveal_strlit("/api/sites/current");
        reveal_strlit("/api/baselines/refreeze");
        assert("/api/sites/current"@.len() != "/api/baselines/refreeze"@.len());
    }
    assert("/api/baselines"@ != "/api/baselines/refreeze"@) by {
        reveal_strlit("/api/baselines");
        reveal_strlit("/api/baselines/refreeze");
        assert("/api/baselines"@.len() != "/api/baselines/refreeze"@.len());
    }
    assert("/api/baselines/slots"@ != "/api/baselines/refreeze"@) by {
        reveal_strlit("/api/baselines/slots");
        reveal_strlit("/api/baselines/refreeze");
        assert("/api/baselines/slots"@.len() != "/api/baselines/refreeze"@.len());
    }
    assert("/api/sites"@ != "/api/candidates"@) by {
        reveal_strlit("/api/sites");
        reveal_strlit("/api/candidates");
        assert("/api/sites"@.len() != "/api/candidates"@.len());
    }
    assert("/api/sites/current"@ != "/api/candidates"@) by {
        reveal_strlit("/api/sites/current");
        reveal_strlit("/api/candidates");
        assert("/api/sites/current"@.len() != "/api/candidates"@.len());
    }
    assert("/api/baselines"@ != "/api/candidates"@) by {
        reveal_strlit("/api/baselines");
        reveal_strlit("/api/candidates");
        assert("/api/baselines"@.len() != "/api/candidates"@.len());
    }
    assert("/api/baselines/slots"@ != "/api/candidates"@) by {
        reveal_strlit("/api/baselines/slots");
        reveal_strlit("/api/candidates");
        assert("/api/baselines/slots"@.len() != "/api/candidates"@.len());
    }
    assert("/api/baselines/refreeze"@ != "/api/candidates"@) by {
        reveal_strlit("/api/baselines/refreeze");
        reveal_strlit("/api/candidates");
        assert("/api/baselines/refreeze"@.len() != "/api/candidates"@.len());
    }
    assert("/api/sites"@ != "/api/attention/weights"@) by {
        reveal_strlit("/api/sites");
        reveal_strlit("/api/attention/weights");
        assert("/api/sites"@.len() != "/api/attention/weights"@.len());
    }
    assert("/api/sites/current"@ != "/api/attention/weights"@) by {
        reveal_strlit("/api/sites/current");
        reveal_strlit("/api/attention/weights");
        assert("/api/sites/current"@.len() != "/api/attention/weights"@.len());
    }
    assert("/api/baselines"@ != "/api/attention/weights"@) by {
        reveal_strlit("/api/baselines");
        reveal_strlit("/api/attention/weights");
        assert("/api/baselines"@.len() != "/api/attention/weights"@.len());
    }
    assert("/api/baselines/slots"@ != "/api/attention/weights"@) by {
        reveal_strlit("/api/baselines/slots");
        reveal_strlit("/api/attention/weights");
        assert("/api/baselines/slots"@.len() != "/api/attention/weights"@.len());
    }
    assert("/api/baselines/refreeze"@ != "/api/attention/weights"@) by {
        reveal_strlit("/api/baselines/refreeze");
        reveal_strlit("/api/attention/weights");
        assert("/api/baselines/refreeze"@.len() != "/api/attention/weights"@.len());
    }
    assert("/api/candidates"@ != "/api/attention/weights"@) by {
        reveal_strlit("/api/candidates");
        reveal_strlit("/api/attention/weights");
        assert("/api/candidates"@.len() != "/api/attention/weights"@.len());
    }
    reveal_strlit("/api/sites/");
    assert(begins(path, "/api/sites/"@) ==> path[5] == 's') by {
        if begins(path, "/api/sites/"@) {
            assert(path.take(11)[5] == path[5]);
            assert("/api/sites/"@[5] == 's');
        }
    }
    assert("/api/sites"@.len() == 10) by {
        reveal_strlit("/api/sites");
    }
    assert("/api/baselines"@[5] == 'b') by {
        reveal_strlit("/api/baselines");
    }
    assert("/api/baselines/slots"@[5] == 'b') by {
        reveal_strlit("/api/baselines/slots");
    }
    assert("/api/baselines/refreeze"@[5] == 'b') by {
        reveal_strlit("/api/baselines/refreeze");
    }
    assert("/api/candidates"@[5] == 'c') by {
        reveal_strlit("/api/candidates");
    }
    assert("/api/attention/weights"@[5] == 'a') by {
        reveal_strlit("/api/attention/weights");
    }
}

/// Every resolution has a name of its own.
pub proof fn resolutions_are_named(s: Seq<char>)
    ensures
        resolution_named(s) matches Some(r) ==> match r {
            BaselineResolution::HourOfWeek => s == "hour-of-week"@,
            BaselineResolution::HourOfDay => s == "hour-of-day"@,
            BaselineResolution::DayPart => s == "day-part"@,
            BaselineResolution::AllHours => s == "all-hours"@,
        },
        resolution_named("hour-of-week"@) is Some,
        resolution_named("hour-of-day"@) is Some,
        resolution_named("day-part"@) is Some,
        resolution_named("all-hours"@) is Some,
{
}

/// The slots that are read are those of the band, the slot and the resolution that were asked for; a
/// band needs both of its edges, the upper above the lower.
pub proof fn slots_are_read_as_asked(q: Seq<(Seq<char>, Seq<char>)>, site: Option<Id>)
    ensures
        slots_of(q, site) matches Ok(c) ==> (c matches AttentionCallV::Slots {
            site: s,
            f_lo,
            f_hi,
            slot,
            resolution,
        } && {
            &&& value_of(q, "f_lo"@) matches Some(v) && text_real(v) == Some(f_lo)
            &&& value_of(q, "f_hi"@) matches Some(v) && text_real(v) == Some(f_hi)
            &&& !f_hi.at_most(f_lo)
            &&& value_of(q, "slot"@) is None <==> slot is None
            &&& value_of(q, "slot"@) matches Some(v) ==> (slot matches Some(n) && n < 168 && unsigned(
                v,
                167,
            ) == Some(n as nat))
            &&& value_of(q, "resolution"@) is None <==> resolution is None
            &&& value_of(q, "resolution"@) matches Some(v) ==> resolution == resolution_named(v)
            &&& value_of(q, "site"@) is None ==> s is None
            &&& value_of(q, "site"@) is Some ==> s == site && s is Some
        }),
        slots_of(q, site) matches Err(f) ==> f.status == 400,
        value_of(q, "f_lo"@) is None || value_of(q, "f_hi"@) is None ==> slots_of(q, site) is Err,
{
}

/// The candidates that are read are those of the band that was asked for, as many as were asked for;
/// a hundred where no number was.
pub proof fn candidates_are_read_as_asked(q: Seq<(Seq<char>, Seq<char>)>, n: nat)
    ensures
        candidates_of(q) matches Ok(c) ==> (c matches AttentionCallV::Candidates {
            f_lo,
            f_hi,
            limit,
        } && {
            &&& value_of(q, "f_lo"@) is None <==> f_lo is None
            &&& value_of(q, "f_lo"@) matches Some(v) ==> text_real(v) == f_lo
            &&& value_of(q, "f_hi"@) is None <==> f_hi is None
            &&& value_of(q, "f_hi"@) matches Some(v) ==> text_real(v) == f_hi
            &&& f_lo is Some && f_hi is Some ==> !f_hi->0.at_most(f_lo->0)
            &&& value_of(q, "limit"@) is None ==> limit == 100
            &&& value_of(q, "limit"@) == Some(decimal(n)) ==> limit == n
            &&& 1 <= limit <= 1000
        }),
        candidates_of(q) matches Err(f) ==> f.status == 400,
        value_of(q, "limit"@) == Some(decimal(n)) ==> (candidates_limit_of(q) is Ok <==> 1 <= n
            <= 1000),
{
    numbers_are_read_as_they_are_written(n, Seq::empty(), 1000);
}

/// A name is taken without the blanks around it, from one up to sixty-four bytes; `null` is none.
pub proof fn a_name_is_taken_without_blanks(body: Seq<(Seq<char>, JsonV)>, key: Seq<char>, s: Seq<char>)
    ensures
        member(body, key) is None <==> opt_name_of(body, key) == Ok::<
            Option<Option<Seq<char>>>,
            FailV,
        >(None),
        member(body, key) == Some(JsonV::Null) <==> opt_name_of(body, key) == Ok::<
            Option<Option<Seq<char>>>,
            FailV,
        >(Some(None)),
        member(body, key) == Some(JsonV::Text(s)) && trimmed(s).len() > 0
            && vstd::utf8::encode_utf8(trimmed(s)).len() <= 64 ==> opt_name_of(body, key) == Ok::<
            Option<Option<Seq<char>>>,
            FailV,
        >(Some(Some(trimmed(s)))),
        member(body, key) == Some(JsonV::Text(s)) && (trimmed(s).len() == 0
            || vstd::utf8::encode_utf8(trimmed(s)).len() > 64) ==> opt_name_of(body, key) is Err,
        opt_name_of(body, key) matches Err(f) ==> f.status == 400,
{
}

/// A site is selected as it was written: where it is, how wide it is, how its clock is set, and by
/// its name or its id; or the selection is released.
pub proof fn a_site_is_selected_as_written(body: Seq<(Seq<char>, JsonV)>, id: Option<Id>)
    ensures
        select_of(body, id) matches Ok(c) ==> (c matches AttentionCallV::SelectSite(s) && {
            &&& member(body, "id"@) is None ==> s.id is None
            &&& member(body, "id"@) is Some ==> s.id == id && id is Some
            &&& s.name matches Some(n) ==> (member(body, "name"@) matches Some(JsonV::Text(t)) && n
                == trimmed(t))
            &&& s.lat_deg is None <==> member(body, "lat_deg"@) is None
            &&& s.lat_deg matches Some(x) ==> writes(body, "lat_deg"@, x)
            &&& s.lon_deg is None <==> member(body, "lon_deg"@) is None
            &&& s.lon_deg matches Some(x) ==> writes(body, "lon_deg"@, x)
            &&& s.radius_m is None <==> member(body, "radius_m"@) is None
            &&& s.radius_m matches Some(x) ==> writes(body, "radius_m"@, x)
            &&& s.utc_offset_min is None <==> member(body, "utc_offset_min"@) is None
            &&& s.release <==> member(body, "release"@) == Some(JsonV::Bool(true))
        }),
        select_of(body, id) matches Err(f) ==> f.status == 400,
{
    only_allowed_members_pass(body, select_fields());
}

/// A site is changed as it was written, and only in what was written; a change of nothing is refused.
pub proof fn a_site_is_changed_as_written(body: Seq<(Seq<char>, JsonV)>, id: Id)
    ensures
        update_of(body, id) matches Ok(c) ==> (c matches AttentionCallV::UpdateSite {
            id: i,
            name,
            utc_offset_min,
        } && {
            &&& i == id
            &&& opt_name_of(body, "name"@) == Ok::<Option<Option<Seq<char>>>, FailV>(name)
            &&& offset_of(body) == Ok::<Option<i16>, FailV>(utc_offset_min)
        }),
        update_of(body, id) matches Err(f) ==> f.status == 400,
        member(body, "name"@) is None && member(body, "utc_offset_min"@) is None ==> update_of(
            body,
            id,
        ) is Err,
{
    only_allowed_members_pass(body, seq!["name"@, "utc_offset_min"@]);
}

/// A baseline is frozen again over the band that was written, of the site that was; over all of it
/// where no band was.
pub proof fn a_baseline_is_frozen_as_written(body: Seq<(Seq<char>, JsonV)>, id: Option<Id>)
    ensures
        refreeze_of(body, id) matches Ok(c) ==> (c matches AttentionCallV::Refreeze {
            site,
            f_lo,
            f_hi,
        } && {
            &&& f_lo is Some == f_hi is Some
            &&& f_lo is None <==> member(body, "f_lo"@) is None
            &&& f_lo matches Some(x) ==> writes(body, "f_lo"@, x)
            &&& f_hi matches Some(x) ==> writes(body, "f_hi"@, x)
            &&& f_lo is Some ==> !f_hi->0.at_most(f_lo->0)
            &&& member(body, "site"@) is None || member(body, "site"@) == Some(JsonV::Null)
                ==> site is None
            &&& member(body, "site"@) is Some && member(body, "site"@) != Some(JsonV::Null) ==> site
                == id && site is Some
        }),
        refreeze_of(body, id) matches Err(f) ==> f.status == 400,
        member(body, "f_lo"@) is Some != member(body, "f_hi"@) is Some ==> refreeze_of(body, id) is Err,
{
    only_allowed_members_pass(body, seq!["site"@, "f_lo"@, "f_hi"@]);
}

/// The weights are those that were written, all six of them; one that is missing is refused.
pub proof fn weights_are_those_written(body: Seq<(Seq<char>, JsonV)>)
    ensures
        weights_of(body) matches Ok(w) ==> {
            &&& writes(body, "snr"@, w.snr)
            &&& writes(body, "novelty"@, w.novelty)
            &&& writes(body, "class_entropy"@, w.class_entropy)
            &&& writes(body, "decoder"@, w.decoder)
            &&& writes(body, "periodicity"@, w.periodicity)
            &&& writes(body, "boring"@, w.boring)
        },
        weights_of(body) matches Err(f) ==> f.status == 400,
        forall|k: int|
            0 <= k < 6 && member(body, #[trigger] weight_fields()[k]) is None ==> weights_of(body)
                is Err,
{
    only_allowed_members_pass(body, weight_fields());
}

/// A change carries the weights that were written, with their author, where the service finds them
/// valid; what it finds wrong is passed on.
pub proof fn weights_are_set_where_they_are_valid(
    body: Seq<(Seq<char>, JsonV)>,
    author: Seq<char>,
    id: Option<Id>,
    m: Seq<char>,
)
    ensures
        weights_of(body) matches Ok(w) ==> write_call_of(
            Route::SetWeights,
            body,
            author,
            id,
            Ok(()),
        ) == Ok::<AttentionCallV, FailV>(AttentionCallV::SetWeights { weights: w, author }),
        weights_of(body) is Ok ==> (write_call_of(Route::SetWeights, body, author, id, Err(m)) matches Err(
            f,
        ) && f.status == 400 && f.message == m),
{
}

/// What the service answers is passed on, and so is what it refuses; without it nothing is answered.
pub proof fn the_service_answers(a: AttentionAnswer, e: AttentionFail)
    ensures
        answer_of(None) matches Err(f) && f.status == 503,
        answer_of(Some(Ok(a))) == Ok::<AttentionAnswer, FailV>(a),
        answer_of(Some(Err(e))) matches Err(f) && f.status == e.status && f.message == e.message@,
        applied_of(Ok(a)) matches Ok(d) && d.status == 200 && d.body == a.body.view() && d.old
            == a.old.view() && d.new == a.new.view(),
{
}

} // verus!
