//! `/api/analyze`: region-analyze jobs, and why a signal's decoding pipeline was chosen.
//!
//! A body that names only an emitter reads that emitter's stored analysis; any other asks for a
//! job. An emitter that no analysis has run on answers `not-searched`, which is not `unknown`.

use vstd::prelude::*;

use crate::body::{
    at_or_null, fail_v, flag, flag_of, flat_text, flat_text_of, get_or_null, invalid_v, join,
    joined, no_fields as refuse_fields, number, number_of, only, only_allowed_members_pass, only_of,
    outcome, read_result, CtlResponse, CtlResponseV, Fail, FailV,
};
use crate::command::RepoError;
use crate::control::Id;
use crate::dispatch::{applied_result, ok, ok_v, Applied, AppliedV};
use crate::double::{reals_are_ordered, Real};
use crate::http::{allow_line, control_answer, Answer, AnswerV};
use crate::json::{
    at, fields_view, fields_view_each, fields_view_push, find, items_view, items_view_each, member,
    member_is_the_first, no_fields, parse, parse_result, parsed, text_v, Fields, Items, Json, JsonV,
};
use crate::params::{find_other, stray};
use crate::request::{find_value, pairs, value_of};
use crate::store::{dealt, open_of, open_store, record, store_fail, stored};
use crate::text::{
    chars_of, contains, one_of, opt_string, opt_text, owned, parse_unsigned, same, strip_prefix,
    strip_suffix, strings as texts_of, texts, unsigned, without_prefix, without_suffix,
};

verus! {

// ---------------------------------------------------------------------------------------------
// The job manager's side
// ---------------------------------------------------------------------------------------------

/// Which templates may seed a job.
#[derive(Clone, Debug, PartialEq, Eq)]
pub struct AnalyzeTemplates {
    /// Only these ids, when given.
    pub only: Option<Vec<String>>,
    /// Never these.
    pub exclude: Vec<String>,
    /// No templates: open skeletons only.
    pub off: bool,
}

/// What [`AnalyzeTemplates`] hold.
#[verifier::ext_equal]
pub struct AnalyzeTemplatesV {
    /// Only these ids, when given.
    pub only: Option<Seq<Seq<char>>>,
    /// Never these.
    pub exclude: Seq<Seq<char>>,
    /// No templates.
    pub off: bool,
}

/// What an optional list holds.
pub open spec fn opt_list(o: Option<Vec<String>>) -> Option<Seq<Seq<char>>> {
    match o {
        Some(v) => Some(texts_of(v@)),
        None => None,
    }
}

impl AnalyzeTemplates {
    /// What they hold.
    pub open spec fn view(&self) -> AnalyzeTemplatesV {
        AnalyzeTemplatesV {
            only: opt_list(self.only),
            exclude: texts_of(self.exclude@),
            off: self.off,
        }
    }
}

/// Any template.
pub open spec fn any_template() -> AnalyzeTemplatesV {
    AnalyzeTemplatesV { only: None, exclude: Seq::empty(), off: false }
}

impl Default for AnalyzeTemplates {
    fn default() -> (r: AnalyzeTemplates)
        ensures
            r@ == any_template(),
    {
        let r = AnalyzeTemplates { only: None, exclude: Vec::new(), off: false };
        assert(texts_of(r.exclude@) =~= Seq::empty());
        r
    }
}

/// The filters of a trace fetch, as given.
#[derive(Clone, Debug, PartialEq, Eq)]
pub struct AnalyzeTraceQuery {
    /// A stage.
    pub stage: Option<String>,
    /// An outcome.
    pub outcome: Option<String>,
    /// A family.
    pub family: Option<String>,
    /// Only what was tried, or only what was not.
    pub tried: Option<bool>,
    /// At most this many nodes.
    pub limit: Option<usize>,
}

/// What an [`AnalyzeTraceQuery`] holds.
#[verifier::ext_equal]
pub struct AnalyzeTraceQueryV {
    /// A stage.
    pub stage: Option<Seq<char>>,
    /// An outcome.
    pub outcome: Option<Seq<char>>,
    /// A family.
    pub family: Option<Seq<char>>,
    /// Only what was tried, or only what was not.
    pub tried: Option<bool>,
    /// At most this many nodes.
    pub limit: Option<usize>,
}

impl AnalyzeTraceQuery {
    /// What it holds.
    pub open spec fn view(&self) -> AnalyzeTraceQueryV {
        AnalyzeTraceQueryV {
            stage: opt_string(self.stage),
            outcome: opt_string(self.outcome),
            family: opt_string(self.family),
            tried: self.tried,
            limit: self.limit,
        }
    }
}

/// A refused analyze operation.
#[derive(Clone, Debug, PartialEq, Eq)]
pub struct AnalyzeFailure {
    /// The HTTP status.
    pub status: u16,
    /// A machine code.
    pub code: String,
    /// What went wrong, in words.
    pub message: String,
}

/// The codes that a failure may carry.
pub open spec fn failure_codes() -> Seq<Seq<char>> {
    seq![
        "invalid"@,
        "not_found"@,
        "outside_window"@,
        "evicted"@,
        "gone"@,
        "no_iq"@,
        "power"@,
        "busy"@,
        "unavailable"@,
    ]
}

/// A known code stays; any other is a failure.
pub open spec fn failure_code(code: Seq<char>) -> Seq<char> {
    if failure_codes().contains(code) {
        code
    } else {
        "failed"@
    }
}

/// A refusal of the manager as the route answers it.
pub open spec fn failure_of(f: AnalyzeFailure) -> FailV {
    fail_v(f.status, failure_code(f.code@), f.message@)
}

/// [`failure_of`].
pub fn failure(f: AnalyzeFailure) -> (r: Fail)
    ensures
        r@ == failure_of(f),
{
    let names = [
        "invalid",
        "not_found",
        "outside_window",
        "evicted",
        "gone",
        "no_iq",
        "power",
        "busy",
        "unavailable",
    ];
    assert(texts(names@) =~= failure_codes());
    Fail::new(f.status, named(f.code.as_str(), &names, "failed"), f.message)
}

/// The name among `names` that is `s`, or `other`.
pub fn named(s: &str, names: &[&'static str], other: &'static str) -> (r: &'static str)
    ensures
        r@ == (if texts(names@).contains(s@) {
            s@
        } else {
            other@
        }),
{
    let mut i: usize = 0;
    while i < names.len()
        invariant
            i <= names@.len(),
            forall|k: int| 0 <= k < i ==> #[trigger] texts(names@)[k] != s@,
        decreases names@.len() - i,
    {
        let n: &'static str = names[i];
        if same(n, s) {
            assert(texts(names@)[i as int] == s@);
            return n;
        }
        assert(texts(names@)[i as int] != s@);
        i += 1;
    }
    other
}

/// The manager must be there.
pub fn control(present: bool) -> (r: Result<(), Fail>)
    ensures
        outcome(r) == open_of(present, "region analysis is not available on this server"@),
{
    open_store(present, "region analysis is not available on this server")
}

// ---------------------------------------------------------------------------------------------
// The target
// ---------------------------------------------------------------------------------------------

/// What is to be analysed.
#[derive(Clone, Copy, Debug, PartialEq, Eq, Structural)]
pub enum Target {
    /// A stored selection.
    Selection(Id),
    /// An inventory entry.
    Emitter(Id),
    /// A band, over a past window or live.
    Band {
        /// The lower edge, Hz.
        f_lo_hz: Real,
        /// The upper edge, Hz.
        f_hi_hz: Real,
        /// The window's start, Unix s.
        t_lo_s: Option<Real>,
        /// The window's end, Unix s.
        t_hi_s: Option<Real>,
    },
}

/// The members that name a target.
pub open spec fn target_fields() -> Seq<Seq<char>> {
    seq!["selection_id"@, "emitter_id"@, "band"@]
}

/// The members of a body.
pub open spec fn body_fields() -> Seq<Seq<char>> {
    seq![
        "selection_id"@,
        "emitter_id"@,
        "band"@,
        "profile"@,
        "max_wall_s"@,
        "source"@,
        "live_s"@,
        "templates"@,
        "attach"@,
    ]
}

/// The window of a band: both ends in order, or neither.
pub open spec fn band_window_of(lo: Option<Real>, hi: Option<Real>) -> Result<(), FailV> {
    match (lo, hi) {
        (None, None) => Ok(()),
        (Some(lo), Some(hi)) => if lo.below(hi) {
            Ok(())
        } else {
            Err(invalid_v("band needs t_lo < t_hi (Unix s)"@))
        },
        _ => Err(invalid_v("band needs both t_lo and t_hi, or neither"@)),
    }
}

/// The band that an object writes.
pub open spec fn band_of(b: Seq<(Seq<char>, JsonV)>) -> Result<Target, FailV> {
    match only_of(b, seq!["f_lo"@, "f_hi"@, "t_lo"@, "t_hi"@]) {
        Err(f) => Err(f),
        Ok(_) => match number_of(b, "f_lo"@) {
            Err(f) => Err(f),
            Ok(None) => Err(invalid_v("band.f_lo is required"@)),
            Ok(Some(f_lo_hz)) => match number_of(b, "f_hi"@) {
                Err(f) => Err(f),
                Ok(None) => Err(invalid_v("band.f_hi is required"@)),
                Ok(Some(f_hi_hz)) => if !((Real { bits: 0 }).at_most(f_lo_hz) && f_lo_hz.below(
                    f_hi_hz,
                )) {
                    Err(invalid_v("band needs 0 <= f_lo < f_hi (Hz)"@))
                } else {
                    match (number_of(b, "t_lo"@), number_of(b, "t_hi"@)) {
                        (Err(f), _) => Err(f),
                        (_, Err(f)) => Err(f),
                        (Ok(t_lo_s), Ok(t_hi_s)) => match band_window_of(t_lo_s, t_hi_s) {
                            Err(f) => Err(f),
                            Ok(_) => Ok(Target::Band { f_lo_hz, f_hi_hz, t_lo_s, t_hi_s }),
                        },
                    }
                },
            },
        },
    }
}

/// The band of a body; `null` is none.
pub open spec fn optional_band_of(body: Seq<(Seq<char>, JsonV)>) -> Result<Option<Target>, FailV> {
    match member(body, "band"@) {
        None => Ok(None),
        Some(JsonV::Null) => Ok(None),
        Some(JsonV::Object(b)) => match band_of(b) {
            Ok(t) => Ok(Some(t)),
            Err(f) => Err(f),
        },
        Some(_) => Err(
            invalid_v("band must be {\"f_lo\", \"f_hi\", \"t_lo\"?, \"t_hi\"?}"@),
        ),
    }
}

/// The target of a body. `id` is what the target's own text writes, where it is an identity: a
/// malformed one is not found.
pub open spec fn target_of(body: Seq<(Seq<char>, JsonV)>, id: Option<Id>) -> Result<Target, FailV> {
    match only_of(body, body_fields()) {
        Err(f) => Err(f),
        Ok(_) => match flat_text_of(body, "selection_id"@) {
            Err(f) => Err(f),
            Ok(selection) => match flat_text_of(body, "emitter_id"@) {
                Err(f) => Err(f),
                Ok(emitter) => match optional_band_of(body) {
                    Err(f) => Err(f),
                    Ok(band) => match (selection, emitter, band) {
                        (Some(_), None, None) => match id {
                            Some(id) => Ok(Target::Selection(id)),
                            None => Err(fail_v(404, "not_found"@, "no such selection"@)),
                        },
                        (None, Some(_), None) => match id {
                            Some(id) => Ok(Target::Emitter(id)),
                            None => Err(fail_v(404, "not_found"@, "no such inventory entry"@)),
                        },
                        (None, None, Some(t)) => Ok(t),
                        _ => Err(
                            invalid_v("give exactly one of selection_id, emitter_id, band"@),
                        ),
                    },
                },
            },
        },
    }
}

fn parse_band(b: &Vec<(String, Json)>) -> (r: Result<Target, Fail>)
    ensures
        outcome(r) == band_of(fields_view(b@)),
{
    let allowed = ["f_lo", "f_hi", "t_lo", "t_hi"];
    assert(texts(allowed@) =~= seq!["f_lo"@, "f_hi"@, "t_lo"@, "t_hi"@]);
    match only(b, &allowed) {
        Ok(_) => {},
        Err(f) => return Err(f),
    }
    let f_lo_hz = match number(b, "f_lo") {
        Ok(Some(x)) => x,
        Ok(None) => return Err(Fail::invalid("band.f_lo is required")),
        Err(f) => return Err(f),
    };
    let f_hi_hz = match number(b, "f_hi") {
        Ok(Some(x)) => x,
        Ok(None) => return Err(Fail::invalid("band.f_hi is required")),
        Err(f) => return Err(f),
    };
    if !((Real { bits: 0 }).le(f_lo_hz) && f_lo_hz.lt(f_hi_hz)) {
        return Err(Fail::invalid("band needs 0 <= f_lo < f_hi (Hz)"));
    }
    let t_lo_s = match number(b, "t_lo") {
        Ok(x) => x,
        Err(f) => return Err(f),
    };
    let t_hi_s = match number(b, "t_hi") {
        Ok(x) => x,
        Err(f) => return Err(f),
    };
    match (t_lo_s, t_hi_s) {
        (None, None) => {},
        (Some(lo), Some(hi)) => {
            if !lo.lt(hi) {
                return Err(Fail::invalid("band needs t_lo < t_hi (Unix s)"));
            }
        },
        _ => return Err(Fail::invalid("band needs both t_lo and t_hi, or neither")),
    }
    Ok(Target::Band { f_lo_hz, f_hi_hz, t_lo_s, t_hi_s })
}

/// [`target_of`].
pub fn parse_target(body: &Vec<(String, Json)>, id: Option<Id>) -> (r: Result<Target, Fail>)
    ensures
        outcome(r) == target_of(fields_view(body@), id),
{
    let allowed = [
        "selection_id",
        "emitter_id",
        "band",
        "profile",
        "max_wall_s",
        "source",
        "live_s",
        "templates",
        "attach",
    ];
    assert(texts(allowed@) =~= body_fields());
    match only(body, &allowed) {
        Ok(_) => {},
        Err(f) => return Err(f),
    }
    let selection = match flat_text(body, "selection_id") {
        Ok(s) => s,
        Err(f) => return Err(f),
    };
    let emitter = match flat_text(body, "emitter_id") {
        Ok(s) => s,
        Err(f) => return Err(f),
    };
    let band = match find(body, "band") {
        None => None,
        Some(Json::Null) => None,
        Some(Json::Object(b)) => match parse_band(b) {
            Ok(t) => Some(t),
            Err(f) => return Err(f),
        },
        Some(_) => {
            return Err(Fail::invalid("band must be {\"f_lo\", \"f_hi\", \"t_lo\"?, \"t_hi\"?}"));
        },
    };
    match (selection, emitter, band) {
        (Some(_), None, None) => match id {
            Some(id) => Ok(Target::Selection(id)),
            None => Err(Fail::of(404, "not_found", "no such selection")),
        },
        (None, Some(_), None) => match id {
            Some(id) => Ok(Target::Emitter(id)),
            None => Err(Fail::of(404, "not_found", "no such inventory entry")),
        },
        (None, None, Some(t)) => Ok(t),
        _ => Err(Fail::invalid("give exactly one of selection_id, emitter_id, band")),
    }
}

/// The body asks for a job, not for an emitter's stored analysis.
pub open spec fn asks_for_job(body: Seq<(Seq<char>, JsonV)>) -> bool {
    member(body, "emitter_id"@) is None || member(body, "profile"@) is Some || member(
        body,
        "max_wall_s"@,
    ) is Some || member(body, "source"@) is Some || member(body, "live_s"@) is Some || member(
        body,
        "templates"@,
    ) is Some || member(body, "attach"@) is Some
}

/// [`asks_for_job`].
pub fn wants_job(body: &Vec<(String, Json)>) -> (r: bool)
    ensures
        r == asks_for_job(fields_view(body@)),
{
    find(body, "emitter_id").is_none() || find(body, "profile").is_some() || find(
        body,
        "max_wall_s",
    ).is_some() || find(body, "source").is_some() || find(body, "live_s").is_some() || find(
        body,
        "templates",
    ).is_some() || find(body, "attach").is_some()
}

// ---------------------------------------------------------------------------------------------
// The options
// ---------------------------------------------------------------------------------------------

/// An optional name out of a list.
pub open spec fn choice_of(
    body: Seq<(Seq<char>, JsonV)>,
    key: Seq<char>,
    names: Seq<Seq<char>>,
) -> Result<Option<Seq<char>>, FailV> {
    match flat_text_of(body, key) {
        Err(f) => Err(f),
        Ok(None) => Ok(None),
        Ok(Some(v)) => if names.contains(v) {
            Ok(Some(v))
        } else {
            Err(invalid_v(key + " must be one of "@ + joined(names, ", "@)))
        },
    }
}

/// What a chosen name holds.
pub open spec fn choice_result(r: Result<Option<&'static str>, Fail>) -> Result<
    Option<Seq<char>>,
    FailV,
> {
    match r {
        Ok(s) => Ok(opt_text(s)),
        Err(f) => Err(f@),
    }
}

fn choose_name(body: &Vec<(String, Json)>, key: &str, names: &[&'static str]) -> (r: Result<
    Option<&'static str>,
    Fail,
>)
    ensures
        choice_result(r) == choice_of(fields_view(body@), key@, texts(names@)),
{
    match flat_text(body, key) {
        Err(f) => Err(f),
        Ok(None) => Ok(None),
        Ok(Some(v)) => if one_of(v, names) {
            Ok(Some(named(v, names, "")))
        } else {
            let list = join(names, ", ");
            let m = String::from_str(key).concat(" must be one of ").concat(list.as_str());
            Err(Fail::new(400, "invalid", m))
        },
    }
}

/// The template ids that a list writes: each a text, none empty.
pub open spec fn ids_in(items: Seq<JsonV>) -> Option<Seq<Seq<char>>>
    decreases items.len(),
{
    if items.len() == 0 {
        Some(Seq::empty())
    } else {
        match (ids_in(items.drop_last()), items.last()) {
            (Some(before), JsonV::Text(s)) => if s.len() > 0 {
                Some(before.push(s))
            } else {
                None
            },
            _ => None,
        }
    }
}

/// An optional list of template ids; `null` is none.
pub open spec fn ids_of(body: Seq<(Seq<char>, JsonV)>, key: Seq<char>) -> Result<
    Option<Seq<Seq<char>>>,
    FailV,
> {
    match member(body, key) {
        None => Ok(None),
        Some(JsonV::Null) => Ok(None),
        Some(JsonV::Array(a)) => match ids_in(a) {
            Some(v) => Ok(Some(v)),
            None => Err(invalid_v(key + " must be an array of template ids"@)),
        },
        Some(_) => Err(invalid_v(key + " must be an array of template ids"@)),
    }
}

/// What a read list holds.
pub open spec fn ids_result(r: Result<Option<Vec<String>>, Fail>) -> Result<
    Option<Seq<Seq<char>>>,
    FailV,
> {
    match r {
        Ok(v) => Ok(opt_list(v)),
        Err(f) => Err(f@),
    }
}

proof fn ids_in_fails(items: Seq<JsonV>, i: int)
    requires
        0 <= i <= items.len(),
        ids_in(items.take(i)) is None,
    ensures
        ids_in(items) is None,
    decreases items.len(),
{
    if i < items.len() {
        assert(items.drop_last().take(i) =~= items.take(i));
        ids_in_fails(items.drop_last(), i);
    } else {
        assert(items.take(i) =~= items);
    }
}

fn read_ids(a: &Vec<Json>) -> (r: Option<Vec<String>>)
    ensures
        opt_list(r) == ids_in(items_view(a@)),
{
    let ghost items = items_view(a@);
    proof {
        items_view_each(a@);
        assert(items.take(0) =~= Seq::empty());
    }
    let mut out: Vec<String> = Vec::new();
    assert(texts_of(out@) =~= Seq::empty());
    let mut i: usize = 0;
    while i < a.len()
        invariant
            items == items_view(a@),
            items.len() == a@.len(),
            forall|k: int| 0 <= k < a@.len() ==> items[k] == (#[trigger] a@[k]).view(),
            i <= a@.len(),
            ids_in(items.take(i as int)) == Some(texts_of(out@)),
        decreases a@.len() - i,
    {
        let ghost before = out@;
        proof {
            assert(items.take(i + 1).drop_last() =~= items.take(i as int));
            assert(items.take(i + 1).last() == a@[i as int].view());
        }
        match &a[i] {
            Json::Text(s) => {
                if s.as_str().is_empty() {
                    proof {
                        ids_in_fails(items, i + 1);
                    }
                    return None;
                }
                out.push(s.clone());
                assert(texts_of(out@) =~= texts_of(before).push(s@));
            },
            _ => {
                proof {
                    ids_in_fails(items, i + 1);
                }
                return None;
            },
        }
        i += 1;
    }
    assert(items.take(a@.len() as int) =~= items);
    Some(out)
}

/// [`ids_of`].
pub fn strings(body: &Vec<(String, Json)>, key: &str) -> (r: Result<Option<Vec<String>>, Fail>)
    ensures
        ids_result(r) == ids_of(fields_view(body@), key@),
{
    match find(body, key) {
        None => Ok(None),
        Some(Json::Null) => Ok(None),
        Some(Json::Array(a)) => match read_ids(a) {
            Some(v) => Ok(Some(v)),
            None => {
                let m = String::from_str(key).concat(" must be an array of template ids");
                Err(Fail::new(400, "invalid", m))
            },
        },
        Some(_) => {
            let m = String::from_str(key).concat(" must be an array of template ids");
            Err(Fail::new(400, "invalid", m))
        },
    }
}

/// The templates of a body.
pub open spec fn templates_of(body: Seq<(Seq<char>, JsonV)>) -> Result<AnalyzeTemplatesV, FailV> {
    match member(body, "templates"@) {
        None => Ok(any_template()),
        Some(JsonV::Null) => Ok(any_template()),
        Some(JsonV::Object(t)) => match only_of(t, seq!["only"@, "exclude"@, "off"@]) {
            Err(f) => Err(f),
            Ok(_) => match (
                ids_of(t, "only"@),
                ids_of(t, "exclude"@),
                flag_of(t, "off"@, "templates.off must be a boolean"@),
            ) {
                (Err(f), _, _) => Err(f),
                (_, Err(f), _) => Err(f),
                (_, _, Err(f)) => Err(f),
                (Ok(only), Ok(exclude), Ok(off)) => Ok(
                    AnalyzeTemplatesV {
                        only,
                        exclude: match exclude {
                            Some(v) => v,
                            None => Seq::empty(),
                        },
                        off: off == Some(true),
                    },
                ),
            },
        },
        Some(_) => Err(invalid_v("templates must be {\"only\"?, \"exclude\"?, \"off\"?}"@)),
    }
}

/// What read templates hold.
pub open spec fn templates_result(r: Result<AnalyzeTemplates, Fail>) -> Result<
    AnalyzeTemplatesV,
    FailV,
> {
    match r {
        Ok(t) => Ok(t@),
        Err(f) => Err(f@),
    }
}

fn parse_templates(body: &Vec<(String, Json)>) -> (r: Result<AnalyzeTemplates, Fail>)
    ensures
        templates_result(r) == templates_of(fields_view(body@)),
{
    match find(body, "templates") {
        None => Ok(AnalyzeTemplates::default()),
        Some(Json::Null) => Ok(AnalyzeTemplates::default()),
        Some(Json::Object(t)) => {
            let allowed = ["only", "exclude", "off"];
            assert(texts(allowed@) =~= seq!["only"@, "exclude"@, "off"@]);
            match only(t, &allowed) {
                Ok(_) => {},
                Err(f) => return Err(f),
            }
            let only_ids = match strings(t, "only") {
                Ok(v) => v,
                Err(f) => return Err(f),
            };
            let exclude = match strings(t, "exclude") {
                Ok(Some(v)) => v,
                Ok(None) => {
                    let v: Vec<String> = Vec::new();
                    assert(texts_of(v@) =~= Seq::empty());
                    v
                },
                Err(f) => return Err(f),
            };
            let off = match flag(t, "off", "templates.off must be a boolean") {
                Ok(Some(b)) => b,
                Ok(None) => false,
                Err(f) => return Err(f),
            };
            Ok(AnalyzeTemplates { only: only_ids, exclude, off })
        },
        Some(_) => Err(Fail::invalid("templates must be {\"only\"?, \"exclude\"?, \"off\"?}")),
    }
}

/// The options of a job.
#[derive(Debug)]
pub struct JobOptions {
    /// How hard to look.
    pub profile: &'static str,
    /// Lowers the profile's bound on time.
    pub max_wall_s: Option<Real>,
    /// Where the samples come from.
    pub source: &'static str,
    /// How long to collect live, s.
    pub live_s: Option<Real>,
    /// The templates.
    pub templates: AnalyzeTemplates,
    /// Attach the results to an emitter.
    pub attach: bool,
}

/// What [`JobOptions`] hold.
#[verifier::ext_equal]
pub struct JobOptionsV {
    /// How hard to look.
    pub profile: Seq<char>,
    /// Lowers the profile's bound on time.
    pub max_wall_s: Option<Real>,
    /// Where the samples come from.
    pub source: Seq<char>,
    /// How long to collect live, s.
    pub live_s: Option<Real>,
    /// The templates.
    pub templates: AnalyzeTemplatesV,
    /// Attach the results to an emitter.
    pub attach: bool,
}

impl JobOptions {
    /// What they hold.
    pub open spec fn view(&self) -> JobOptionsV {
        JobOptionsV {
            profile: self.profile@,
            max_wall_s: self.max_wall_s,
            source: self.source@,
            live_s: self.live_s,
            templates: self.templates@,
            attach: self.attach,
        }
    }
}

/// The bits of 30.0.
pub const THIRTY: u64 = 0x403e_0000_0000_0000;

/// A live collection lasts more than nothing and at most thirty seconds.
pub open spec fn live_length(l: Real) -> bool {
    (Real { bits: 0 }).below(l) && l.at_most(Real { bits: THIRTY })
}

/// The name given, or `default`.
pub open spec fn name_or(r: Option<Seq<char>>, default: Seq<char>) -> Seq<char> {
    match r {
        Some(s) => s,
        None => default,
    }
}

/// The options of a body: each member is checked in turn, and the first that is wrong is named.
pub open spec fn options_of(body: Seq<(Seq<char>, JsonV)>) -> Result<JobOptionsV, FailV> {
    match choice_of(body, "profile"@, seq!["quick"@, "standard"@, "deep"@]) {
        Err(f) => Err(f),
        Ok(profile) => match choice_of(body, "source"@, seq!["auto"@, "ring"@, "live"@]) {
            Err(f) => Err(f),
            Ok(source) => match number_of(body, "max_wall_s"@) {
                Err(f) => Err(f),
                Ok(max_wall_s) => if max_wall_s matches Some(w) && w.at_most(Real { bits: 0 }) {
                    Err(invalid_v("max_wall_s must be positive"@))
                } else {
                    match number_of(body, "live_s"@) {
                        Err(f) => Err(f),
                        Ok(live_s) => if live_s matches Some(l) && !live_length(l) {
                            Err(invalid_v("live_s must be in (0, 30] s"@))
                        } else {
                            match flag_of(body, "attach"@, "attach must be a boolean"@) {
                                Err(f) => Err(f),
                                Ok(attach) => match templates_of(body) {
                                    Err(f) => Err(f),
                                    Ok(templates) => Ok(
                                        JobOptionsV {
                                            profile: name_or(profile, "standard"@),
                                            max_wall_s,
                                            source: name_or(source, "auto"@),
                                            live_s,
                                            templates,
                                            attach: attach != Some(false),
                                        },
                                    ),
                                },
                            }
                        },
                    }
                },
            },
        },
    }
}

/// What read options hold.
pub open spec fn options_result(r: Result<JobOptions, Fail>) -> Result<JobOptionsV, FailV> {
    match r {
        Ok(o) => Ok(o@),
        Err(f) => Err(f@),
    }
}

/// [`options_of`].
pub fn parse_options(body: &Vec<(String, Json)>) -> (r: Result<JobOptions, Fail>)
    ensures
        options_result(r) == options_of(fields_view(body@)),
{
    let profiles = ["quick", "standard", "deep"];
    let sources = ["auto", "ring", "live"];
    assert(texts(profiles@) =~= seq!["quick"@, "standard"@, "deep"@]);
    assert(texts(sources@) =~= seq!["auto"@, "ring"@, "live"@]);
    let profile = match choose_name(body, "profile", &profiles) {
        Ok(Some(s)) => s,
        Ok(None) => "standard",
        Err(f) => return Err(f),
    };
    let source = match choose_name(body, "source", &sources) {
        Ok(Some(s)) => s,
        Ok(None) => "auto",
        Err(f) => return Err(f),
    };
    let max_wall_s = match number(body, "max_wall_s") {
        Ok(x) => x,
        Err(f) => return Err(f),
    };
    if let Some(w) = max_wall_s {
        if w.le(Real { bits: 0 }) {
            return Err(Fail::invalid("max_wall_s must be positive"));
        }
    }
    let live_s = match number(body, "live_s") {
        Ok(x) => x,
        Err(f) => return Err(f),
    };
    if let Some(l) = live_s {
        if !((Real { bits: 0 }).lt(l) && l.le(Real { bits: THIRTY })) {
            return Err(Fail::invalid("live_s must be in (0, 30] s"));
        }
    }
    let attach = match flag(body, "attach", "attach must be a boolean") {
        Ok(Some(b)) => b,
        Ok(None) => true,
        Err(f) => return Err(f),
    };
    let templates = match parse_templates(body) {
        Ok(t) => t,
        Err(f) => return Err(f),
    };
    Ok(JobOptions { profile, max_wall_s, source, live_s, templates, attach })
}

// ---------------------------------------------------------------------------------------------
// Resolving a target
// ---------------------------------------------------------------------------------------------

/// A band and a window.
#[derive(Clone, Copy, Debug, PartialEq, Eq, Structural)]
pub struct Region {
    /// The lower edge, Hz.
    pub f_lo_hz: Real,
    /// The upper edge, Hz.
    pub f_hi_hz: Real,
    /// The window's start, Unix s.
    pub t_lo_s: Option<Real>,
    /// The window's end, Unix s.
    pub t_hi_s: Option<Real>,
    /// The caller named the window.
    pub window_explicit: bool,
    /// The live emitter, for an emitter target.
    pub emitter_id: Option<Id>,
}

/// A stored selection.
#[derive(Clone, Copy, Debug, PartialEq, Eq, Structural)]
pub struct SelectionRow {
    /// The lower edge, Hz.
    pub f_lo_hz: Real,
    /// The upper edge, Hz.
    pub f_hi_hz: Real,
    /// The window's start, Unix s.
    pub t_lo_s: Option<Real>,
    /// The window's end, Unix s.
    pub t_hi_s: Option<Real>,
}

/// A stored emitter, its channel widened to what can be analysed.
#[derive(Clone, Copy, Debug, PartialEq, Eq, Structural)]
pub struct EmitterRow {
    /// The lower edge, Hz.
    pub f_lo_hz: Real,
    /// The upper edge, Hz.
    pub f_hi_hz: Real,
    /// First seen, Unix s.
    pub first_s: Real,
    /// Last seen, Unix s.
    pub last_s: Real,
}

/// What a selection resolves to: its window is the caller's own.
pub open spec fn selection_region(store: bool, row: Result<SelectionRow, RepoError>) -> Result<
    Region,
    FailV,
> {
    match open_of(store, "no selection store on this server"@) {
        Err(f) => Err(f),
        Ok(_) => match stored(row, "selection store"@, "no such selection"@) {
            Err(f) => Err(f),
            Ok(s) => Ok(
                Region {
                    f_lo_hz: s.f_lo_hz,
                    f_hi_hz: s.f_hi_hz,
                    t_lo_s: s.t_lo_s,
                    t_hi_s: s.t_hi_s,
                    window_explicit: s.t_lo_s is Some,
                    emitter_id: None,
                },
            ),
        },
    }
}

/// [`selection_region`].
pub fn resolve_selection(store: bool, row: Result<SelectionRow, RepoError>) -> (r: Result<
    Region,
    Fail,
>)
    ensures
        outcome(r) == selection_region(store, row),
{
    match open_store(store, "no selection store on this server") {
        Ok(_) => {},
        Err(f) => return Err(f),
    }
    match row {
        Err(e) => Err(store_fail(e, "selection store", "no such selection")),
        Ok(s) => Ok(
            Region {
                f_lo_hz: s.f_lo_hz,
                f_hi_hz: s.f_hi_hz,
                t_lo_s: s.t_lo_s,
                t_hi_s: s.t_hi_s,
                window_explicit: s.t_lo_s.is_some(),
                emitter_id: None,
            },
        ),
    }
}

/// What an emitter resolves to: its span of appearances, which the caller did not name. A single
/// instant has no window to read; one that the user deleted is not there.
pub open spec fn emitter_region(
    store: bool,
    live: Result<Id, RepoError>,
    deleted: Result<bool, RepoError>,
    row: Result<EmitterRow, RepoError>,
) -> Result<Region, FailV> {
    let what = "inventory store"@;
    let missing = "no such inventory entry"@;
    match open_of(store, "no signal inventory on this server"@) {
        Err(f) => Err(f),
        Ok(_) => match stored(live, what, missing) {
            Err(f) => Err(f),
            Ok(live) => match stored(deleted, what, missing) {
                Err(f) => Err(f),
                Ok(true) => Err(fail_v(404, "not_found"@, missing)),
                Ok(false) => match stored(row, what, missing) {
                    Err(f) => Err(f),
                    Ok(e) => {
                        let lasted = e.first_s.below(e.last_s);
                        Ok(
                            Region {
                                f_lo_hz: e.f_lo_hz,
                                f_hi_hz: e.f_hi_hz,
                                t_lo_s: if lasted {
                                    Some(e.first_s)
                                } else {
                                    None
                                },
                                t_hi_s: if lasted {
                                    Some(e.last_s)
                                } else {
                                    None
                                },
                                window_explicit: false,
                                emitter_id: Some(live),
                            },
                        )
                    },
                },
            },
        },
    }
}

/// [`emitter_region`].
pub fn resolve_emitter(
    store: bool,
    live: Result<Id, RepoError>,
    deleted: Result<bool, RepoError>,
    row: Result<EmitterRow, RepoError>,
) -> (r: Result<Region, Fail>)
    ensures
        outcome(r) == emitter_region(store, live, deleted, row),
{
    match open_store(store, "no signal inventory on this server") {
        Ok(_) => {},
        Err(f) => return Err(f),
    }
    let live = match live {
        Ok(id) => id,
        Err(e) => return Err(store_fail(e, "inventory store", "no such inventory entry")),
    };
    match deleted {
        Err(e) => return Err(store_fail(e, "inventory store", "no such inventory entry")),
        Ok(true) => return Err(Fail::of(404, "not_found", "no such inventory entry")),
        Ok(false) => {},
    }
    let e = match row {
        Ok(e) => e,
        Err(e) => return Err(store_fail(e, "inventory store", "no such inventory entry")),
    };
    let (t_lo_s, t_hi_s) = if e.first_s.lt(e.last_s) {
        (Some(e.first_s), Some(e.last_s))
    } else {
        (None, None)
    };
    Ok(
        Region {
            f_lo_hz: e.f_lo_hz,
            f_hi_hz: e.f_hi_hz,
            t_lo_s,
            t_hi_s,
            window_explicit: false,
            emitter_id: Some(live),
        },
    )
}

/// What a band resolves to: itself. Any other target is read from its store.
pub fn resolve_band(target: Target) -> (r: Option<Region>)
    ensures
        r == (match target {
            Target::Band { f_lo_hz, f_hi_hz, t_lo_s, t_hi_s } => Some(
                Region {
                    f_lo_hz,
                    f_hi_hz,
                    t_lo_s,
                    t_hi_s,
                    window_explicit: t_lo_s is Some,
                    emitter_id: None,
                },
            ),
            _ => None,
        }),
{
    match target {
        Target::Band { f_lo_hz, f_hi_hz, t_lo_s, t_hi_s } => Some(
            Region {
                f_lo_hz,
                f_hi_hz,
                t_lo_s,
                t_hi_s,
                window_explicit: t_lo_s.is_some(),
                emitter_id: None,
            },
        ),
        _ => None,
    }
}

/// An emitter resolves exactly where there is a store that knows it and the user did not delete it;
/// then to its own channel. One that was last seen after it was first seen is read from its first
/// to its last appearance; one that was not has no window. The caller named none.
pub proof fn emitters_are_read_over_their_appearances(
    store: bool,
    live: Result<Id, RepoError>,
    deleted: Result<bool, RepoError>,
    row: Result<EmitterRow, RepoError>,
)
    ensures
        emitter_region(store, live, deleted, row) is Ok <==> store && live is Ok && deleted == Ok::<
            bool,
            RepoError,
        >(false) && row is Ok,
        emitter_region(store, live, deleted, row) matches Ok(r) ==> {
            let e = row->Ok_0;
            &&& r.f_lo_hz == e.f_lo_hz
            &&& r.f_hi_hz == e.f_hi_hz
            &&& r.emitter_id == Some(live->Ok_0)
            &&& !r.window_explicit
            &&& e.first_s.below(e.last_s) ==> r.t_lo_s == Some(e.first_s) && r.t_hi_s == Some(
                e.last_s,
            )
            &&& e.last_s.at_most(e.first_s) || e.first_s.nan() || e.last_s.nan() ==> r.t_lo_s is None
                && r.t_hi_s is None
        },
        !store ==> (emitter_region(store, live, deleted, row) matches Err(f) && f.status == 503),
{
    if let Ok(e) = row {
        reals_are_ordered(e.first_s, e.last_s);
        reals_are_ordered(e.last_s, e.first_s);
    }
}

/// A selection resolves exactly where there is a store that has it, and to itself; its window, where
/// it has one, is the caller's.
pub proof fn selections_are_read_as_they_were_made(
    store: bool,
    row: Result<SelectionRow, RepoError>,
)
    ensures
        selection_region(store, row) is Ok <==> store && row is Ok,
        selection_region(store, row) matches Ok(r) ==> {
            let s = row->Ok_0;
            &&& (r.f_lo_hz, r.f_hi_hz) == (s.f_lo_hz, s.f_hi_hz)
            &&& (r.t_lo_s, r.t_hi_s) == (s.t_lo_s, s.t_hi_s)
            &&& r.window_explicit <==> s.t_lo_s is Some
            &&& r.emitter_id is None
        },
        !store ==> (selection_region(store, row) matches Err(f) && f.status == 503),
{
}

/// A band that is taken is the one written: its edges are the numbers given, the lower not below
/// zero and below the upper; its window is the numbers given, in order, or there is none. Every such
/// band is taken.
pub proof fn bands_are_taken_as_written(
    b: Seq<(Seq<char>, JsonV)>,
    f_lo_hz: Real,
    f_hi_hz: Real,
    t_lo_s: Option<Real>,
    t_hi_s: Option<Real>,
)
    ensures
        band_of(b) == Ok::<Target, FailV>(Target::Band { f_lo_hz, f_hi_hz, t_lo_s, t_hi_s }) <==> {
            &&& only_of(b, seq!["f_lo"@, "f_hi"@, "t_lo"@, "t_hi"@]) is Ok
            &&& number_of(b, "f_lo"@) == Ok::<Option<Real>, FailV>(Some(f_lo_hz))
            &&& number_of(b, "f_hi"@) == Ok::<Option<Real>, FailV>(Some(f_hi_hz))
            &&& number_of(b, "t_lo"@) == Ok::<Option<Real>, FailV>(t_lo_s)
            &&& number_of(b, "t_hi"@) == Ok::<Option<Real>, FailV>(t_hi_s)
            &&& (Real { bits: 0 }).at_most(f_lo_hz)
            &&& f_lo_hz.below(f_hi_hz)
            &&& t_lo_s is Some <==> t_hi_s is Some
            &&& t_lo_s is Some && t_hi_s is Some ==> t_lo_s->0.below(t_hi_s->0)
        },
        band_of(b) matches Ok(t) ==> t is Band,
        band_of(b) matches Err(f) ==> f.status == 400,
{
    only_allowed_members_pass(b, seq!["f_lo"@, "f_hi"@, "t_lo"@, "t_hi"@]);
}

/// A body names exactly one target: a selection or an emitter by a text that writes an identity, or
/// a band. An identity that is none is not found; more than one target, or none, is refused.
pub proof fn one_target_is_named(body: Seq<(Seq<char>, JsonV)>, id: Option<Id>)
    requires
        only_of(body, body_fields()) is Ok,
        flat_text_of(body, "selection_id"@) is Ok,
        flat_text_of(body, "emitter_id"@) is Ok,
        optional_band_of(body) is Ok,
    ensures
        ({
            let selection = flat_text_of(body, "selection_id"@)->Ok_0 is Some;
            let emitter = flat_text_of(body, "emitter_id"@)->Ok_0 is Some;
            let band = optional_band_of(body)->Ok_0;
            let t = target_of(body, id);
            &&& selection && !emitter && band is None ==> (match id {
                Some(i) => t == Ok::<Target, FailV>(Target::Selection(i)),
                None => t matches Err(f) && f.status == 404,
            })
            &&& emitter && !selection && band is None ==> (match id {
                Some(i) => t == Ok::<Target, FailV>(Target::Emitter(i)),
                None => t matches Err(f) && f.status == 404,
            })
            &&& !selection && !emitter && band is Some ==> t == Ok::<Target, FailV>(band->0)
            &&& (selection && emitter) || (selection && band is Some) || (emitter && band is Some)
                || (!selection && !emitter && band is None) ==> (t matches Err(f) && f.status
                == 400)
        }),
{
}

/// The options that are taken: each is what the body says, or the usual one where it says nothing;
/// a bound on time is positive, and a live collection lasts from zero, exclusive, up to thirty
/// seconds.
pub proof fn options_are_taken_as_written(body: Seq<(Seq<char>, JsonV)>)
    ensures
        options_of(body) matches Ok(o) ==> {
            &&& number_of(body, "max_wall_s"@) == Ok::<Option<Real>, FailV>(o.max_wall_s)
            &&& number_of(body, "live_s"@) == Ok::<Option<Real>, FailV>(o.live_s)
            &&& o.max_wall_s matches Some(w) ==> !w.at_most(Real { bits: 0 })
            &&& o.live_s matches Some(l) ==> (Real { bits: 0 }).below(l) && l.at_most(
                Real { bits: 0x403e_0000_0000_0000 },
            )
            &&& o.profile == "quick"@ || o.profile == "standard"@ || o.profile == "deep"@
            &&& o.source == "auto"@ || o.source == "ring"@ || o.source == "live"@
            &&& member(body, "profile"@) is None ==> o.profile == "standard"@
            &&& member(body, "source"@) is None ==> o.source == "auto"@
            &&& member(body, "profile"@) matches Some(JsonV::Text(p)) ==> o.profile == p
            &&& member(body, "source"@) matches Some(JsonV::Text(p)) ==> o.source == p
            &&& o.attach <==> member(body, "attach"@) != Some(JsonV::Bool(false))
            &&& templates_of(body) == Ok::<AnalyzeTemplatesV, FailV>(o.templates)
        },
        options_of(body) matches Err(f) ==> f.status == 400,
{
    let profiles = seq!["quick"@, "standard"@, "deep"@];
    let sources = seq!["auto"@, "ring"@, "live"@];
    assert forall|p: Seq<char>| profiles.contains(p) implies p == "quick"@ || p == "standard"@ || p
        == "deep"@ by {
        let k = choose|k: int| 0 <= k < profiles.len() && profiles[k] == p;
    }
    assert forall|p: Seq<char>| sources.contains(p) implies p == "auto"@ || p == "ring"@ || p
        == "live"@ by {
        let k = choose|k: int| 0 <= k < sources.len() && sources[k] == p;
    }
    if let Some(JsonV::Object(t)) = member(body, "templates"@) {
        only_allowed_members_pass(t, seq!["only"@, "exclude"@, "off"@]);
    }
}

/// The templates that are taken are those written, or any where nothing is.
pub proof fn templates_are_taken_as_written(body: Seq<(Seq<char>, JsonV)>)
    ensures
        member(body, "templates"@) is None || member(body, "templates"@) == Some(JsonV::Null) ==> (
        templates_of(body) matches Ok(t) && t.only is None && t.exclude.len() == 0 && !t.off),
        member(body, "templates"@) matches Some(JsonV::Object(w)) ==> (templates_of(
            body,
        ) matches Ok(t) ==> {
            &&& ids_of(w, "only"@) == Ok::<Option<Seq<Seq<char>>>, FailV>(t.only)
            &&& t.off <==> member(w, "off"@) == Some(JsonV::Bool(true))
            &&& match ids_of(w, "exclude"@) {
                Ok(Some(v)) => t.exclude == v,
                Ok(None) => t.exclude.len() == 0,
                Err(_) => false,
            }
        }),
        member(body, "templates"@) matches Some(JsonV::Text(_)) ==> templates_of(body) is Err,
{
}

/// The job carries the members that name its target and no other, in the order given.
pub proof fn the_target_is_echoed(body: Seq<(Seq<char>, JsonV)>, m: (Seq<char>, JsonV))
    ensures
        echoed(Seq::empty()) == Seq::<(Seq<char>, JsonV)>::empty(),
        m.0 == "selection_id"@ || m.0 == "emitter_id"@ || m.0 == "band"@ ==> echoed(body.push(m))
            == echoed(body).push(m),
        m.0 != "selection_id"@ && m.0 != "emitter_id"@ && m.0 != "band"@ ==> echoed(body.push(m))
            == echoed(body),
{
    assert(body.push(m).drop_last() =~= body);
    let t = target_fields();
    assert(t[0] == "selection_id"@ && t[1] == "emitter_id"@ && t[2] == "band"@);
    if t.contains(m.0) {
        let k = choose|k: int| 0 <= k < t.len() && t[k] == m.0;
    }
}

/// A refusal of the manager keeps its status and its words; its code too where it is a known one.
pub proof fn refusals_of_the_manager_are_passed_on(f: AnalyzeFailure)
    ensures
        failure_of(f).status == f.status,
        failure_of(f).message == f.message@,
        failure_of(f).code == f.code@ || failure_of(f).code == "failed"@,
        f.code@ == "busy"@ || f.code@ == "evicted"@ || f.code@ == "not_found"@ || f.code@
            == "outside_window"@ || f.code@ == "gone"@ || f.code@ == "no_iq"@ || f.code@ == "power"@
            || f.code@ == "invalid"@ || f.code@ == "unavailable"@ ==> failure_of(f).code == f.code@,
{
    let c = failure_codes();
    assert(c[0] == "invalid"@ && c[1] == "not_found"@ && c[2] == "outside_window"@ && c[3]
        == "evicted"@ && c[4] == "gone"@ && c[5] == "no_iq"@ && c[6] == "power"@ && c[7] == "busy"@
        && c[8] == "unavailable"@);
}

/// A user's delete wins: no job analyses a deleted entry, whatever its row says.
pub proof fn deleted_entries_are_not_analysed(
    store: bool,
    live: Result<Id, RepoError>,
    row: Result<EmitterRow, RepoError>,
)
    ensures
        emitter_region(store, live, Ok(true), row) is Err,
        store && live is Ok ==> emitter_region(store, live, Ok(true), row) == Err::<Region, FailV>(
            fail_v(404, "not_found"@, "no such inventory entry"@),
        ),
{
}

// ---------------------------------------------------------------------------------------------
// Handlers
// ---------------------------------------------------------------------------------------------

/// What a `POST` asks for.
#[derive(Debug)]
pub enum Asked {
    /// This emitter's stored analysis.
    Stored(Id),
    /// A job over this target.
    Job(Target, JobOptions),
}

/// What an [`Asked`] holds.
pub enum AskedV {
    /// This emitter's stored analysis.
    Stored(Id),
    /// A job over this target.
    Job(Target, JobOptionsV),
}

/// What a `POST` body asks for: the target is read first; the options only where it is a job.
pub open spec fn asked_of(body: Seq<(Seq<char>, JsonV)>, id: Option<Id>) -> Result<AskedV, FailV> {
    match target_of(body, id) {
        Err(f) => Err(f),
        Ok(target) => if !asks_for_job(body) && target is Emitter {
            Ok(AskedV::Stored(target->Emitter_0))
        } else {
            match options_of(body) {
                Err(f) => Err(f),
                Ok(options) => Ok(AskedV::Job(target, options)),
            }
        },
    }
}

/// What an asked-for thing or its refusal holds.
pub open spec fn asked_result(r: Result<Asked, Fail>) -> Result<AskedV, FailV> {
    match r {
        Ok(Asked::Stored(id)) => Ok(AskedV::Stored(id)),
        Ok(Asked::Job(t, o)) => Ok(AskedV::Job(t, o@)),
        Err(f) => Err(f@),
    }
}

/// [`asked_of`].
pub fn plan_post(body: &Vec<(String, Json)>, id: Option<Id>) -> (r: Result<Asked, Fail>)
    ensures
        asked_result(r) == asked_of(fields_view(body@), id),
{
    let target = match parse_target(body, id) {
        Ok(t) => t,
        Err(f) => return Err(f),
    };
    if !wants_job(body) {
        if let Target::Emitter(id) = target {
            return Ok(Asked::Stored(id));
        }
    }
    match parse_options(body) {
        Ok(o) => Ok(Asked::Job(target, o)),
        Err(f) => Err(f),
    }
}

/// The stored analysis of an emitter, or what is said of one that nothing has looked at: it is
/// `not-searched` and never `unknown`.
pub open spec fn analysis_v(
    store: bool,
    live: Result<Id, RepoError>,
    exists: Result<(), RepoError>,
    row: Result<Option<Result<JsonV, Seq<char>>>, RepoError>,
    live_text: Seq<char>,
    not_searched: Result<JsonV, Seq<char>>,
) -> Result<AppliedV, FailV> {
    let what = "inventory store"@;
    let missing = "no such inventory entry"@;
    match open_of(store, "no signal inventory on this server"@) {
        Err(f) => Err(f),
        Ok(_) => match stored(live, what, missing) {
            Err(f) => Err(f),
            Ok(_) => match stored(exists, what, missing) {
                Err(f) => Err(f),
                Ok(_) => match stored(row, what, missing) {
                    Err(f) => Err(f),
                    Ok(Some(Ok(row))) => Ok(ok_v(row, JsonV::Null, JsonV::Null)),
                    Ok(Some(Err(e))) => Err(
                        fail_v(500, "failed"@, "serialising the analysis: "@ + e),
                    ),
                    Ok(None) => match not_searched {
                        Err(e) => Err(
                            fail_v(500, "failed"@, "serialising the resolution: "@ + e),
                        ),
                        Ok(resolution) => Ok(
                            ok_v(
                                JsonV::Object(
                                    no_fields().push(("emitter_id"@, text_v(live_text))).push(
                                        ("pipeline"@, JsonV::Null),
                                    ).push(("evidence"@, JsonV::Array(Seq::empty()))).push(
                                        ("trace"@, JsonV::Array(Seq::empty())),
                                    ).push(("resolution"@, resolution)),
                                ),
                                JsonV::Null,
                                JsonV::Null,
                            ),
                        ),
                    },
                },
            },
        },
    }
}

/// What a stored row holds.
pub open spec fn row_view(r: Result<Option<Result<Json, String>>, RepoError>) -> Result<
    Option<Result<JsonV, Seq<char>>>,
    RepoError,
> {
    match r {
        Ok(Some(j)) => Ok(Some(parse_result(j))),
        Ok(None) => Ok(None),
        Err(e) => Err(e),
    }
}

/// [`analysis_v`].
pub fn analysis(
    store: bool,
    live: Result<Id, RepoError>,
    exists: Result<(), RepoError>,
    row: Result<Option<Result<Json, String>>, RepoError>,
    live_text: &str,
    not_searched: Result<Json, String>,
) -> (r: Result<Applied, Fail>)
    ensures
        applied_result(r) == analysis_v(
            store,
            live,
            exists,
            row_view(row),
            live_text@,
            parse_result(not_searched),
        ),
{
    match open_store(store, "no signal inventory on this server") {
        Ok(_) => {},
        Err(f) => return Err(f),
    }
    match live {
        Ok(_) => {},
        Err(e) => return Err(store_fail(e, "inventory store", "no such inventory entry")),
    }
    match exists {
        Ok(_) => {},
        Err(e) => return Err(store_fail(e, "inventory store", "no such inventory entry")),
    }
    match row {
        Err(e) => Err(store_fail(e, "inventory store", "no such inventory entry")),
        Ok(Some(Ok(row))) => Ok(ok(row, Json::Null, Json::Null)),
        Ok(Some(Err(e))) => {
            let m = String::from_str("serialising the analysis: ").concat(e.as_str());
            Err(Fail::new(500, "failed", m))
        },
        Ok(None) => match not_searched {
            Err(e) => {
                let m = String::from_str("serialising the resolution: ").concat(e.as_str());
                Err(Fail::new(500, "failed", m))
            },
            Ok(resolution) => {
                let mut f = Fields::new();
                f.put("emitter_id", Json::text(live_text));
                f.put("pipeline", Json::Null);
                f.put("evidence", Items::new().array());
                f.put("trace", Items::new().array());
                f.put("resolution", resolution);
                Ok(ok(f.object(), Json::Null, Json::Null))
            },
        },
    }
}

/// The members that name the target, as the caller gave them.
pub open spec fn echoed(body: Seq<(Seq<char>, JsonV)>) -> Seq<(Seq<char>, JsonV)>
    decreases body.len(),
{
    if body.len() == 0 {
        Seq::empty()
    } else if target_fields().contains(body.last().0) {
        echoed(body.drop_last()).push(body.last())
    } else {
        echoed(body.drop_last())
    }
}

fn echo(body: &Vec<(String, Json)>) -> (r: Vec<(String, Json)>)
    ensures
        fields_view(r@) == echoed(fields_view(body@)),
{
    let names = ["selection_id", "emitter_id", "band"];
    assert(texts(names@) =~= target_fields());
    let ghost f = fields_view(body@);
    let mut out: Vec<(String, Json)> = Vec::new();
    proof {
        fields_view_each(body@);
        assert(f.take(0) =~= Seq::empty());
        fields_view_each(out@);
        assert(fields_view(out@) =~= Seq::empty());
    }
    let mut i: usize = 0;
    while i < body.len()
        invariant
            texts(names@) == target_fields(),
            f == fields_view(body@),
            f.len() == body@.len(),
            forall|k: int|
                0 <= k < body@.len() ==> f[k] == ((#[trigger] body@[k]).0@, body@[k].1.view()),
            i <= body@.len(),
            fields_view(out@) == echoed(f.take(i as int)),
        decreases body@.len() - i,
    {
        proof {
            assert(f.take(i + 1).drop_last() =~= f.take(i as int));
            assert(f.take(i + 1).last() == (body@[i as int].0@, body@[i as int].1.view()));
        }
        if one_of(body[i].0.as_str(), &names) {
            let x = (body[i].0.clone(), body[i].1.copy());
            proof {
                fields_view_push(out@, x);
            }
            out.push(x);
        }
        i += 1;
    }
    assert(f.take(body@.len() as int) =~= f);
    out
}

/// A validated job, its target resolved.
#[derive(Debug)]
pub struct AnalyzeStart {
    /// The target as the caller gave it.
    pub target: Json,
    /// What it resolved to.
    pub region: Region,
    /// The options.
    pub options: JobOptions,
}

/// The job that the manager is handed.
pub fn job(body: &Vec<(String, Json)>, region: Region, options: JobOptions) -> (r: AnalyzeStart)
    ensures
        r.target.view() == JsonV::Object(echoed(fields_view(body@))),
        r.region == region,
        r.options == options,
{
    AnalyzeStart { target: Json::Object(echo(body)), region, options }
}

/// The id and the state of a job.
pub open spec fn job_state_v(job: JsonV) -> Seq<(Seq<char>, JsonV)> {
    no_fields().push(("id"@, at_or_null(job, "id"@))).push(("state"@, at_or_null(job, "state"@)))
}

/// A started job is answered with 202.
pub open spec fn started_v(job: Result<JsonV, FailV>) -> Result<AppliedV, FailV> {
    match job {
        Err(f) => Err(f),
        Ok(job) => Ok(
            AppliedV {
                status: 202,
                body: JsonV::Object(no_fields().push(("job"@, job))),
                old: JsonV::Null,
                new: JsonV::Object(job_state_v(job)),
            },
        ),
    }
}

/// What the manager's answer holds.
pub open spec fn managed(r: Result<Json, AnalyzeFailure>) -> Result<JsonV, FailV> {
    match r {
        Ok(j) => Ok(j.view()),
        Err(f) => Err(failure_of(f)),
    }
}

/// [`started_v`].
pub fn started(job: Result<Json, AnalyzeFailure>) -> (r: Result<Applied, Fail>)
    ensures
        applied_result(r) == started_v(managed(job)),
{
    match job {
        Err(f) => Err(failure(f)),
        Ok(job) => {
            let mut state = Fields::new();
            state.put("id", get_or_null(&job, "id"));
            state.put("state", get_or_null(&job, "state"));
            let mut body = Fields::new();
            body.put("job", job);
            Ok(
                Applied {
                    status: 202,
                    body: body.object(),
                    old: Json::Null,
                    new: state.object(),
                },
            )
        },
    }
}

/// A text can stand in a header line and be one segment of a path: printable ASCII, no slash.
pub open spec fn is_header_segment(s: Seq<char>) -> bool {
    s.len() > 0 && forall|i: int|
        0 <= i < s.len() ==> 33 <= (#[trigger] s[i]) as u32 <= 126 && s[i] != '/'
}

fn header_segment(s: &str) -> (r: bool)
    ensures
        r == is_header_segment(s@),
{
    let c = chars_of(s);
    let mut i: usize = 0;
    while i < c.len()
        invariant
            c@ == s@,
            i <= c@.len(),
            forall|k: int| 0 <= k < i ==> 33 <= (#[trigger] s@[k]) as u32 <= 126 && s@[k] != '/',
        decreases c@.len() - i,
    {
        let code: u32 = c[i] as u32;
        if code < 33 || code > 126 || c[i] == '/' {
            assert(!(33 <= s@[i as int] as u32 <= 126 && s@[i as int] != '/'));
            return false;
        }
        i += 1;
    }
    c.len() > 0
}

/// The header line that says where a job that was started is: an answer with 202 names the path of
/// the job by its id.
pub open spec fn location_line(r: CtlResponseV) -> Seq<char> {
    let id = match at(r.body, "job"@) {
        Some(job) => at(job, "id"@),
        None => None,
    };
    match id {
        Some(JsonV::Text(id)) if r.status == 202 && is_header_segment(id) => {
            "Location: /api/analyze/"@ + id + "\r\n"@
        },
        _ => ""@,
    }
}

fn location(r: &CtlResponse) -> (l: String)
    ensures
        l@ == location_line(r@),
{
    if r.status != 202 {
        return "".to_owned();
    }
    let id = match r.body.get("job") {
        Some(job) => job.get("id"),
        None => None,
    };
    if let Some(Json::Text(id)) = id {
        if header_segment(id.as_str()) {
            return String::from_str("Location: /api/analyze/").concat(id.as_str()).concat("\r\n");
        }
    }
    "".to_owned()
}

/// The answer of a response of these routes.
pub fn answer(r: CtlResponse) -> (a: Answer)
    ensures
        a@ == (AnswerV {
            status: r@.status,
            body: r@.body,
            extra: allow_line(r@.allow) + location_line(r@),
        }),
{
    let line = location(&r);
    let a = control_answer(r);
    Answer { status: a.status, body: a.body, extra: a.extra.concat(line.as_str()) }
}

/// The answer to a started job says where the job is; that path reads it.
pub proof fn started_jobs_say_where_they_are(job: JsonV, id: Seq<char>, allow: Option<Seq<char>>)
    requires
        at(job, "id"@) == Some(JsonV::Text(id)),
        is_header_segment(id),
    ensures
        started_v(Ok(job)) matches Ok(a) && location_line(
            CtlResponseV { status: a.status, body: a.body, allow },
        ) == "Location: "@ + ("/api/analyze/"@ + id) + "\r\n"@,
        resolved("GET"@, "/api/analyze/"@ + id) == Some(
            Ok::<ActionV, Option<Seq<char>>>(ActionV::Get(id)),
        ),
{
    let f = no_fields().push(("job"@, job));
    assert(f[0].0 == "job"@);
    assert(member(f, "job"@) == Some(job));
    reveal_strlit("Location: ");
    reveal_strlit("/api/analyze/");
    reveal_strlit("Location: /api/analyze/");
    assert("Location: /api/analyze/"@ =~= "Location: "@ + "/api/analyze/"@);
    assert("Location: /api/analyze/"@ + id =~= "Location: "@ + ("/api/analyze/"@ + id));
    let path = "/api/analyze/"@ + id;
    reveal_strlit("/api/analyze");
    reveal_strlit("/trace");
    assert(path.len() > 13);
    assert("/api/analyze"@.len() == 12);
    assert(path.take(13) =~= "/api/analyze/"@);
    assert(path.skip(13) =~= id);
    assert(!id.contains('/'));
    if id.len() >= 6 {
        let tail = id.skip(id.len() - 6);
        assert(tail[0] == id[id.len() - 6]);
        assert("/trace"@[0] == '/');
    }
}

/// A cancelled or forgotten job.
pub open spec fn cancelled_v(job: JsonV, forgotten: bool) -> AppliedV {
    ok_v(
        JsonV::Object(
            no_fields().push(("job"@, job)).push(("forgotten"@, JsonV::Bool(forgotten))),
        ),
        JsonV::Null,
        JsonV::Object(job_state_v(job).push(("forgotten"@, JsonV::Bool(forgotten)))),
    )
}

/// What may be cancelled: a `DELETE` takes no members, and needs the manager.
pub fn plan_delete(body: &Vec<(String, Json)>, manager: bool) -> (r: Result<(), Fail>)
    ensures
        outcome(r) == (match only_of(fields_view(body@), Seq::empty()) {
            Err(f) => Err(f),
            Ok(_) => open_of(manager, "region analysis is not available on this server"@),
        }),
{
    match refuse_fields(body) {
        Ok(_) => control(manager),
        Err(f) => Err(f),
    }
}

/// [`cancelled_v`], or what the manager refused.
pub open spec fn cancelled_of(job: Result<(Json, bool), AnalyzeFailure>) -> Result<
    AppliedV,
    FailV,
> {
    match job {
        Ok((job, forgotten)) => Ok(cancelled_v(job.view(), forgotten)),
        Err(f) => Err(failure_of(f)),
    }
}

/// [`cancelled_of`].
pub fn cancelled(job: Result<(Json, bool), AnalyzeFailure>) -> (r: Result<Applied, Fail>)
    ensures
        applied_result(r) == cancelled_of(job),
{
    match job {
        Err(f) => Err(failure(f)),
        Ok((job, forgotten)) => {
            let mut state = Fields::new();
            state.put("id", get_or_null(&job, "id"));
            state.put("state", get_or_null(&job, "state"));
            state.put("forgotten", Json::Bool(forgotten));
            let mut body = Fields::new();
            body.put("job", job);
            body.put("forgotten", Json::Bool(forgotten));
            Ok(ok(body.object(), Json::Null, state.object()))
        },
    }
}

/// The first value of a parameter.
pub fn param<'a>(query: &'a Vec<(String, String)>, name: &str) -> (r: Option<&'a str>)
    ensures
        opt_text(r) == value_of(pairs(query@), name@),
{
    find_value(query.as_slice(), name)
}

/// Refuses a parameter that is neither allowed nor the token; the value is never echoed.
pub open spec fn only_params_of(
    query: Seq<(Seq<char>, Seq<char>)>,
    allowed: Seq<Seq<char>>,
) -> Result<(), FailV> {
    match stray(query, allowed.push("token"@)) {
        Some(_) => Err(
            invalid_v("unknown query parameter (allowed: "@ + joined(allowed, ", "@) + ")"@),
        ),
        None => Ok(()),
    }
}

/// [`only_params_of`].
pub fn only_params(query: &Vec<(String, String)>, allowed: &[&str]) -> (r: Result<(), Fail>)
    ensures
        outcome(r) == only_params_of(pairs(query@), texts(allowed@)),
{
    match find_other(query, allowed) {
        Some(_) => {
            let list = join(allowed, ", ");
            let m = String::from_str("unknown query parameter (allowed: ").concat(
                list.as_str(),
            ).concat(")");
            Err(Fail::new(400, "invalid", m))
        },
        None => Ok(()),
    }
}

/// The state that a list is narrowed to.
pub fn list_state<'a>(query: &'a Vec<(String, String)>) -> (r: Result<Option<&'a str>, Fail>)
    ensures
        crate::body::flat_text_result(r) == (match only_params_of(
            pairs(query@),
            seq!["state"@],
        ) {
            Err(f) => Err(f),
            Ok(_) => Ok(value_of(pairs(query@), "state"@)),
        }),
{
    let allowed = ["state"];
    assert(texts(allowed@) =~= seq!["state"@]);
    match only_params(query, &allowed) {
        Err(f) => Err(f),
        Ok(_) => Ok(param(query, "state")),
    }
}

/// The parameters of a trace fetch.
pub open spec fn trace_params() -> Seq<Seq<char>> {
    seq!["stage"@, "outcome"@, "family"@, "tried"@, "limit"@]
}

/// The filters of a trace fetch.
pub open spec fn trace_query_of(q: Seq<(Seq<char>, Seq<char>)>) -> Result<
    AnalyzeTraceQueryV,
    FailV,
> {
    match only_params_of(q, trace_params()) {
        Err(f) => Err(f),
        Ok(_) => {
            let tried = value_of(q, "tried"@);
            if tried is Some && tried->0 != "true"@ && tried->0 != "false"@ {
                Err(invalid_v("tried must be true or false"@))
            } else {
                let limit = value_of(q, "limit"@);
                if limit is Some && unsigned(limit->0, usize::MAX as nat) is None {
                    Err(invalid_v("limit must be a positive integer"@))
                } else {
                    Ok(
                        AnalyzeTraceQueryV {
                            stage: value_of(q, "stage"@),
                            outcome: value_of(q, "outcome"@),
                            family: value_of(q, "family"@),
                            tried: match tried {
                                Some(t) => Some(t == "true"@),
                                None => None,
                            },
                            limit: match limit {
                                Some(l) => Some(unsigned(l, usize::MAX as nat)->0 as usize),
                                None => None,
                            },
                        },
                    )
                }
            }
        },
    }
}

/// What read filters hold.
pub open spec fn trace_result(r: Result<AnalyzeTraceQuery, Fail>) -> Result<
    AnalyzeTraceQueryV,
    FailV,
> {
    match r {
        Ok(q) => Ok(q@),
        Err(f) => Err(f@),
    }
}

/// [`trace_query_of`].
pub fn read_trace(query: &Vec<(String, String)>) -> (r: Result<AnalyzeTraceQuery, Fail>)
    ensures
        trace_result(r) == trace_query_of(pairs(query@)),
{
    let allowed = ["stage", "outcome", "family", "tried", "limit"];
    assert(texts(allowed@) =~= trace_params());
    match only_params(query, &allowed) {
        Ok(_) => {},
        Err(f) => return Err(f),
    }
    proof {
        reveal_strlit("true");
        reveal_strlit("false");
        assert("true"@.len() != "false"@.len());
    }
    let tried = match param(query, "tried") {
        None => None,
        Some(t) => if same(t, "true") {
            Some(true)
        } else if same(t, "false") {
            Some(false)
        } else {
            return Err(Fail::invalid("tried must be true or false"));
        },
    };
    let limit: Option<usize> = match param(query, "limit") {
        None => None,
        Some(l) => match parse_unsigned(l, usize::MAX as u64) {
            Some(n) => Some(n as usize),
            None => return Err(Fail::invalid("limit must be a positive integer")),
        },
    };
    Ok(
        AnalyzeTraceQuery {
            stage: owned(param(query, "stage")),
            outcome: owned(param(query, "outcome")),
            family: owned(param(query, "family")),
            tried,
            limit,
        },
    )
}

// ---------------------------------------------------------------------------------------------
// Routing
// ---------------------------------------------------------------------------------------------

/// An action of `/api/analyze`.
#[derive(Clone, Copy, Debug, PartialEq, Eq)]
pub enum Action<'a> {
    /// Start a job, or read an emitter's analysis.
    Start,
    /// List the jobs.
    List,
    /// One job.
    Get(&'a str),
    /// Cancel or forget one.
    Cancel(&'a str),
    /// One job's trace.
    Trace(&'a str),
}

/// What an [`Action`] holds.
pub enum ActionV {
    /// Start a job, or read an emitter's analysis.
    Start,
    /// List the jobs.
    List,
    /// One job.
    Get(Seq<char>),
    /// Cancel or forget one.
    Cancel(Seq<char>),
    /// One job's trace.
    Trace(Seq<char>),
}

impl Action<'_> {
    /// What it holds.
    pub open spec fn view(&self) -> ActionV {
        match self {
            Action::Start => ActionV::Start,
            Action::List => ActionV::List,
            Action::Get(id) => ActionV::Get(id@),
            Action::Cancel(id) => ActionV::Cancel(id@),
            Action::Trace(id) => ActionV::Trace(id@),
        }
    }
}

/// One segment of a path.
pub open spec fn is_segment(s: Seq<char>) -> bool {
    s.len() > 0 && !s.contains('/')
}

/// [`is_segment`].
pub fn one_segment(s: &str) -> (r: bool)
    ensures
        r == is_segment(s@),
{
    !s.is_empty() && !contains(s, '/')
}

/// What a method and a path are: none where the path is not one of these, the methods that it
/// takes where the method is not one of them.
pub open spec fn resolved(method: Seq<char>, path: Seq<char>) -> Option<
    Result<ActionV, Option<Seq<char>>>,
> {
    if path == "/api/analyze"@ {
        Some(
            if method == "POST"@ {
                Ok(ActionV::Start)
            } else if method == "GET"@ {
                Ok(ActionV::List)
            } else {
                Err(Some("GET, POST"@))
            },
        )
    } else {
        match without_prefix(path, "/api/analyze/"@) {
            None => None,
            Some(rest) => match without_suffix(rest, "/trace"@) {
                Some(id) => if !is_segment(id) {
                    None
                } else if method == "GET"@ {
                    Some(Ok(ActionV::Trace(id)))
                } else {
                    Some(Err(Some("GET"@)))
                },
                None => if !is_segment(rest) {
                    None
                } else if method == "GET"@ {
                    Some(Ok(ActionV::Get(rest)))
                } else if method == "DELETE"@ {
                    Some(Ok(ActionV::Cancel(rest)))
                } else {
                    Some(Err(Some("GET, DELETE"@)))
                },
            },
        }
    }
}

/// What a resolved action holds.
pub open spec fn resolved_view(r: Option<Result<Action, Option<&'static str>>>) -> Option<
    Result<ActionV, Option<Seq<char>>>,
> {
    match r {
        None => None,
        Some(Ok(a)) => Some(Ok(a@)),
        Some(Err(allow)) => Some(Err(opt_text(allow))),
    }
}

/// [`resolved`].
pub fn resolve<'a>(method: &str, path: &'a str) -> (r: Option<
    Result<Action<'a>, Option<&'static str>>,
>)
    ensures
        resolved_view(r) == resolved(method@, path@),
{
    if same(path, "/api/analyze") {
        return Some(
            if same(method, "POST") {
                Ok(Action::Start)
            } else if same(method, "GET") {
                Ok(Action::List)
            } else {
                Err(Some("GET, POST"))
            },
        );
    }
    let rest = match strip_prefix(path, "/api/analyze/") {
        Some(rest) => rest,
        None => return None,
    };
    if let Some(id) = strip_suffix(rest, "/trace") {
        if !one_segment(id) {
            return None;
        }
        return Some(
            if same(method, "GET") {
                Ok(Action::Trace(id))
            } else {
                Err(Some("GET"))
            },
        );
    }
    if !one_segment(rest) {
        return None;
    }
    Some(
        if same(method, "GET") {
            Ok(Action::Get(rest))
        } else if same(method, "DELETE") {
            Ok(Action::Cancel(rest))
        } else {
            Err(Some("GET, DELETE"))
        },
    )
}

/// What a `POST` is audited as: a read of a stored analysis is `analyze`, and everything else,
/// a body that does not parse included, `analyze_start`.
pub open spec fn post_action_of(json: Result<JsonV, Seq<char>>) -> Seq<char> {
    match json {
        Ok(JsonV::Object(m)) => if asks_for_job(m) {
            "analyze_start"@
        } else {
            "analyze"@
        },
        _ => "analyze_start"@,
    }
}

/// [`post_action_of`] of a parsed body.
pub fn parsed_action(json: &Result<Json, String>) -> (r: &'static str)
    ensures
        r@ == post_action_of(parse_result(*json)),
{
    match json {
        Ok(Json::Object(m)) => if wants_job(m) {
            "analyze_start"
        } else {
            "analyze"
        },
        _ => "analyze_start",
    }
}

/// [`post_action_of`] of a body.
pub fn post_action(body: &[u8]) -> (r: &'static str)
    ensures
        r@ == post_action_of(parsed(body@)),
{
    parsed_action(&parse(body))
}

impl<'a> Action<'a> {
    /// What it is audited as: `body` is the body of a `POST`.
    pub fn name(&self, body: &[u8]) -> (r: &'static str)
        ensures
            r@ == (match self@ {
                ActionV::Start => post_action_of(parsed(body@)),
                ActionV::Cancel(_) => "analyze_cancel"@,
                _ => "analyze"@,
            }),
    {
        match self {
            Action::Start => post_action(body),
            Action::Cancel(_) => "analyze_cancel",
            _ => "analyze",
        }
    }

    /// Only starting and cancelling change anything.
    pub fn mutating(&self) -> (r: bool)
        ensures
            r == (self@ is Start || self@ is Cancel),
    {
        match self {
            Action::Start => true,
            Action::Cancel(_) => true,
            _ => false,
        }
    }
}

/// A bare emitter id is a read of its stored analysis and is audited as one; an emitter with any
/// member more is a job and is audited as one.
pub proof fn a_read_is_never_a_job(body: Seq<(Seq<char>, JsonV)>, id: Option<Id>)
    ensures
        match asked_of(body, id) {
            Ok(AskedV::Stored(_)) => post_action_of(Ok(JsonV::Object(body))) == "analyze"@,
            Ok(AskedV::Job(Target::Emitter(_), _)) => post_action_of(Ok(JsonV::Object(body)))
                == "analyze_start"@,
            _ => true,
        },
{
}

// ---------------------------------------------------------------------------------------------
// The manager
// ---------------------------------------------------------------------------------------------

/// A change that the manager is asked for.
pub enum AnalyzeAsk {
    /// Start this job.
    Start(AnalyzeStart),
    /// Cancel this job, or forget it.
    Cancel(Seq<char>),
}

/// What the manager answered to a change.
pub enum AnalyzeAnswer {
    /// To a start.
    Started(Result<Json, AnalyzeFailure>),
    /// To a cancellation.
    Cancelled(Result<(Json, bool), AnalyzeFailure>),
}

/// The manager of region-analyze jobs, as one request holds it. An implementation adds one dealing
/// for each change that is asked for.
pub trait AnalyzeControl {
    /// The changes asked for through this handle so far, each with its answer.
    open spec fn dealings(&self) -> Seq<(AnalyzeAsk, AnalyzeAnswer)> {
        record(self)
    }

    /// Admits a job.
    fn start(&mut self, request: &AnalyzeStart) -> (r: Result<Json, AnalyzeFailure>)
        ensures
            final(self).dealings() == old(self).dealings().push(
                (AnalyzeAsk::Start(*request), AnalyzeAnswer::Started(r)),
            ),
    ;

    /// The jobs, newest first, all or those in one state.
    fn list(&self, state: Option<&str>) -> (r: Result<Json, AnalyzeFailure>);

    /// One job.
    fn get(&self, id: &str) -> (r: Result<Json, AnalyzeFailure>);

    /// Cancels a job, or forgets a finished one; the job, and whether it was forgotten.
    fn cancel(&mut self, id: &str) -> (r: Result<(Json, bool), AnalyzeFailure>)
        ensures
            final(self).dealings() == old(self).dealings().push(
                (AnalyzeAsk::Cancel(id@), AnalyzeAnswer::Cancelled(r)),
            ),
    ;

    /// A job's trace, filtered.
    fn trace(&self, id: &str, query: &AnalyzeTraceQuery) -> (r: Result<Json, AnalyzeFailure>);
}

/// The manager is not there.
pub open spec fn unavailable_v() -> FailV {
    fail_v(503, "unavailable"@, "region analysis is not available on this server"@)
}

fn unavailable() -> (r: Fail)
    ensures
        r@ == unavailable_v(),
{
    Fail::of(503, "unavailable", "region analysis is not available on this server")
}

/// Starts a job: the manager is handed the resolved request, once.
pub fn start<C: AnalyzeControl + ?Sized>(control: Option<&mut C>, request: &AnalyzeStart) -> (r:
    Result<Applied, Fail>)
    ensures
        match control {
            None => applied_result(r) == Err::<AppliedV, FailV>(unavailable_v()),
            Some(c) => exists|job: Result<Json, AnalyzeFailure>|
                #[trigger] dealt(
                    c.dealings(),
                    final(c).dealings(),
                    AnalyzeAsk::Start(*request),
                    AnalyzeAnswer::Started(job),
                ) && applied_result(r) == started_v(managed(job)),
        },
{
    match control {
        None => Err(unavailable()),
        Some(c) => {
            let ghost was = c.dealings();
            let job = c.start(request);
            assert(dealt(
                was,
                c.dealings(),
                AnalyzeAsk::Start(*request),
                AnalyzeAnswer::Started(job),
            ));
            started(job)
        },
    }
}

/// Cancels a job, once: a body with members is refused before the manager is asked for anything.
pub fn cancel<C: AnalyzeControl + ?Sized>(
    control: Option<&mut C>,
    id: &str,
    body: &Vec<(String, Json)>,
) -> (r: Result<Applied, Fail>)
    ensures
        match (only_of(fields_view(body@), Seq::empty()), control) {
            (Err(f), None) => applied_result(r) == Err::<AppliedV, FailV>(f),
            (Err(f), Some(c)) => applied_result(r) == Err::<AppliedV, FailV>(f)
                && final(c).dealings() == c.dealings(),
            (Ok(_), None) => applied_result(r) == Err::<AppliedV, FailV>(unavailable_v()),
            (Ok(_), Some(c)) => exists|job: Result<(Json, bool), AnalyzeFailure>|
                #[trigger] dealt(
                    c.dealings(),
                    final(c).dealings(),
                    AnalyzeAsk::Cancel(id@),
                    AnalyzeAnswer::Cancelled(job),
                ) && applied_result(r) == cancelled_of(job),
        },
{
    match plan_delete(body, control.is_some()) {
        Ok(_) => {},
        Err(f) => return Err(f),
    }
    match control {
        None => Err(unavailable()),
        Some(c) => {
            let ghost was = c.dealings();
            let job = c.cancel(id);
            assert(dealt(
                was,
                c.dealings(),
                AnalyzeAsk::Cancel(id@),
                AnalyzeAnswer::Cancelled(job),
            ));
            cancelled(job)
        },
    }
}

fn answered(r: Result<Json, AnalyzeFailure>) -> (out: Result<Json, Fail>)
    ensures
        read_result(out) == managed(r),
{
    match r {
        Ok(j) => Ok(j),
        Err(f) => Err(failure(f)),
    }
}

/// Lists the jobs, narrowed to the state that the query names.
pub fn read_list<C: AnalyzeControl + ?Sized>(
    control: Option<&C>,
    query: &Vec<(String, String)>,
) -> (r: Result<Json, Fail>)
    ensures
        match only_params_of(pairs(query@), seq!["state"@]) {
            Err(f) => read_result(r) == Err::<JsonV, FailV>(f),
            Ok(_) => match control {
                None => read_result(r) == Err::<JsonV, FailV>(unavailable_v()),
                Some(c) => exists|state: Option<&str>, jobs: Result<Json, AnalyzeFailure>|
                 #[trigger]
                    call_ensures(C::list, (c, state), jobs) && opt_text(state) == value_of(
                        pairs(query@),
                        "state"@,
                    ) && read_result(r) == managed(jobs),
            },
        },
{
    let state = match list_state(query) {
        Ok(s) => s,
        Err(f) => return Err(f),
    };
    match control {
        None => Err(unavailable()),
        Some(c) => answered(c.list(state)),
    }
}

/// One job; the query takes no parameter.
pub fn read_one<C: AnalyzeControl + ?Sized>(
    control: Option<&C>,
    id: &str,
    query: &Vec<(String, String)>,
) -> (r: Result<Json, Fail>)
    ensures
        match only_params_of(pairs(query@), Seq::empty()) {
            Err(f) => read_result(r) == Err::<JsonV, FailV>(f),
            Ok(_) => match control {
                None => read_result(r) == Err::<JsonV, FailV>(unavailable_v()),
                Some(c) => exists|job: Result<Json, AnalyzeFailure>| #[trigger]
                    call_ensures(C::get, (c, id), job) && read_result(r) == managed(job),
            },
        },
{
    let allowed: [&str; 0] = [];
    assert(texts(allowed@) =~= Seq::empty());
    match only_params(query, &allowed) {
        Ok(_) => {},
        Err(f) => return Err(f),
    }
    match control {
        None => Err(unavailable()),
        Some(c) => answered(c.get(id)),
    }
}

/// A job's trace, filtered as the query says.
pub fn read_traced<C: AnalyzeControl + ?Sized>(
    control: Option<&C>,
    id: &str,
    query: &Vec<(String, String)>,
) -> (r: Result<Json, Fail>)
    ensures
        match trace_query_of(pairs(query@)) {
            Err(f) => read_result(r) == Err::<JsonV, FailV>(f),
            Ok(asked) => match control {
                None => read_result(r) == Err::<JsonV, FailV>(unavailable_v()),
                Some(c) => exists|q: AnalyzeTraceQuery, trace: Result<Json, AnalyzeFailure>|
                 #[trigger]
                    call_ensures(C::trace, (c, id, &q), trace) && q@ == asked && read_result(r)
                        == managed(trace),
            },
        },
{
    let q = match read_trace(query) {
        Ok(q) => q,
        Err(f) => return Err(f),
    };
    match control {
        None => Err(unavailable()),
        Some(c) => answered(c.trace(id, &q)),
    }
}

/// What a reader finds of a job that was started or cancelled: the job as the manager gave it, and
/// whether it is forgotten; the audit keeps its identity and its state.
pub proof fn answers_carry_the_job(job: JsonV, forgotten: bool)
    ensures
        started_v(Ok(job)) matches Ok(a) && a.status == 202 && at(a.body, "job"@) == Some(job)
            && at(a.new, "id"@) == Some(at_or_null(job, "id"@)) && at(a.new, "state"@) == Some(
            at_or_null(job, "state"@),
        ) && a.old == JsonV::Null,
        at(cancelled_v(job, forgotten).body, "job"@) == Some(job),
        at(cancelled_v(job, forgotten).body, "forgotten"@) == Some(JsonV::Bool(forgotten)),
        at(cancelled_v(job, forgotten).new, "id"@) == Some(at_or_null(job, "id"@)),
        at(cancelled_v(job, forgotten).new, "forgotten"@) == Some(JsonV::Bool(forgotten)),
        cancelled_v(job, forgotten).status == 200,
{
    let f = started_v(Ok(job))->Ok_0.body->Object_0;
    member_is_the_first(f, "job"@, 0);
    let g = cancelled_v(job, forgotten).new->Object_0;
    member_is_the_first(g, "id"@, 0);
    assert("id"@ != "state"@) by {
        reveal_strlit("id");
        reveal_strlit("state");
        assert("id"@.len() != "state"@.len());
    }
    member_is_the_first(g, "state"@, 1);
    assert("id"@ != "forgotten"@) by {
        reveal_strlit("id");
        reveal_strlit("forgotten");
        assert("id"@.len() != "forgotten"@.len());
    }
    assert("state"@ != "forgotten"@) by {
        reveal_strlit("state");
        reveal_strlit("forgotten");
        assert("state"@.len() != "forgotten"@.len());
    }
    member_is_the_first(g, "forgotten"@, 2);
    let h = cancelled_v(job, forgotten).body->Object_0;
    member_is_the_first(h, "job"@, 0);
    assert("job"@ != "forgotten"@) by {
        reveal_strlit("job");
        reveal_strlit("forgotten");
        assert("job"@.len() != "forgotten"@.len());
    }
    member_is_the_first(h, "forgotten"@, 1);
    let k = JsonV::Object(job_state_v(job))->Object_0;
    member_is_the_first(k, "id"@, 0);
    member_is_the_first(k, "state"@, 1);
}

/// The filters of a trace that are taken are those given.
pub proof fn trace_filters_are_taken_as_written(q: Seq<(Seq<char>, Seq<char>)>)
    ensures
        trace_query_of(q) matches Ok(t) ==> {
            &&& t.stage == value_of(q, "stage"@)
            &&& t.outcome == value_of(q, "outcome"@)
            &&& t.family == value_of(q, "family"@)
            &&& t.tried == Some(true) <==> value_of(q, "tried"@) == Some("true"@)
            &&& t.tried == Some(false) <==> value_of(q, "tried"@) == Some("false"@)
            &&& t.limit is None <==> value_of(q, "limit"@) is None
            &&& t.limit matches Some(n) ==> unsigned(value_of(q, "limit"@)->0, usize::MAX as nat)
                == Some(n as nat)
        },
        trace_query_of(q) matches Err(f) ==> f.status == 400,
{
    reveal_strlit("true");
    reveal_strlit("false");
    assert("true"@.len() != "false"@.len());
}

/// An emitter's analysis is what is kept of it; of one that was never searched it is empty, with the
/// resolution that says so.
pub proof fn an_analysis_is_what_is_kept(
    live: Id,
    row: JsonV,
    text: Seq<char>,
    resolution: JsonV,
    e: RepoError,
)
    ensures
        analysis_v(true, Ok(live), Ok(()), Ok(Some(Ok(row))), text, Ok(resolution)) matches Ok(a)
            && a.status == 200 && a.body == row && a.old == JsonV::Null && a.new == JsonV::Null,
        analysis_v(true, Ok(live), Ok(()), Ok(None), text, Ok(resolution)) matches Ok(a) && {
            &&& a.status == 200
            &&& at(a.body, "emitter_id"@) == Some(JsonV::Text(text))
            &&& at(a.body, "pipeline"@) == Some(JsonV::Null)
            &&& at(a.body, "evidence"@) == Some(JsonV::Array(Seq::empty()))
            &&& at(a.body, "trace"@) == Some(JsonV::Array(Seq::empty()))
            &&& at(a.body, "resolution"@) == Some(resolution)
        },
        analysis_v(false, Ok(live), Ok(()), Ok(None), text, Ok(resolution)) matches Err(f) && f.status
            == 503,
        e is NotFound ==> (analysis_v(true, Ok(live), Err(e), Ok(None), text, Ok(resolution)) matches Err(
            f,
        ) && f.status == 404),
{
    let a = analysis_v(true, Ok(live), Ok(()), Ok(None), text, Ok(resolution))->Ok_0;
    let f = a.body->Object_0;
    member_is_the_first(f, "emitter_id"@, 0);
    assert("emitter_id"@ != "pipeline"@) by {
        reveal_strlit("emitter_id");
        reveal_strlit("pipeline");
        assert("emitter_id"@.len() != "pipeline"@.len());
    }
    member_is_the_first(f, "pipeline"@, 1);
    assert("emitter_id"@ != "evidence"@) by {
        reveal_strlit("emitter_id");
        reveal_strlit("evidence");
        assert("emitter_id"@.len() != "evidence"@.len());
    }
    assert("pipeline"@ != "evidence"@) by {
        reveal_strlit("pipeline");
        reveal_strlit("evidence");
        assert("pipeline"@[0] != "evidence"@[0]);
    }
    member_is_the_first(f, "evidence"@, 2);
    assert("emitter_id"@ != "trace"@) by {
        reveal_strlit("emitter_id");
        reveal_strlit("trace");
        assert("emitter_id"@.len() != "trace"@.len());
    }
    assert("pipeline"@ != "trace"@) by {
        reveal_strlit("pipeline");
        reveal_strlit("trace");
        assert("pipeline"@.len() != "trace"@.len());
    }
    assert("evidence"@ != "trace"@) by {
        reveal_strlit("evidence");
        reveal_strlit("trace");
        assert("evidence"@.len() != "trace"@.len());
    }
    member_is_the_first(f, "trace"@, 3);
    assert("emitter_id"@ != "resolution"@) by {
        reveal_strlit("emitter_id");
        reveal_strlit("resolution");
        assert("emitter_id"@[0] != "resolution"@[0]);
    }
    assert("pipeline"@ != "resolution"@) by {
        reveal_strlit("pipeline");
        reveal_strlit("resolution");
        assert("pipeline"@.len() != "resolution"@.len());
    }
    assert("evidence"@ != "resolution"@) by {
        reveal_strlit("evidence");
        reveal_strlit("resolution");
        assert("evidence"@.len() != "resolution"@.len());
    }
    assert("trace"@ != "resolution"@) by {
        reveal_strlit("trace");
        reveal_strlit("resolution");
        assert("trace"@.len() != "resolution"@.len());
    }
    member_is_the_first(f, "resolution"@, 4);
}

/// A body that names an emitter and nothing else asks to read its analysis; any other asks for a job.
pub proof fn only_an_emitter_alone_is_read(body: Seq<(Seq<char>, JsonV)>, id: JsonV)
    ensures
        !asks_for_job(seq![("emitter_id"@, id)]),
        member(body, "emitter_id"@) is None ==> asks_for_job(body),
        member(body, "profile"@) is Some || member(body, "max_wall_s"@) is Some || member(
            body,
            "source"@,
        ) is Some || member(body, "live_s"@) is Some || member(body, "templates"@) is Some || member(
            body,
            "attach"@,
        ) is Some ==> asks_for_job(body),
{
    let b = seq![("emitter_id"@, id)];
    assert("emitter_id"@ != "profile"@) by {
        reveal_strlit("emitter_id");
        reveal_strlit("profile");
        assert("emitter_id"@.len() != "profile"@.len());
    }
    assert("emitter_id"@ != "max_wall_s"@) by {
        reveal_strlit("emitter_id");
        reveal_strlit("max_wall_s");
        assert("emitter_id"@[0] != "max_wall_s"@[0]);
    }
    assert("emitter_id"@ != "source"@) by {
        reveal_strlit("emitter_id");
        reveal_strlit("source");
        assert("emitter_id"@.len() != "source"@.len());
    }
    assert("emitter_id"@ != "live_s"@) by {
        reveal_strlit("emitter_id");
        reveal_strlit("live_s");
        assert("emitter_id"@.len() != "live_s"@.len());
    }
    assert("emitter_id"@ != "templates"@) by {
        reveal_strlit("emitter_id");
        reveal_strlit("templates");
        assert("emitter_id"@.len() != "templates"@.len());
    }
    assert("emitter_id"@ != "attach"@) by {
        reveal_strlit("emitter_id");
        reveal_strlit("attach");
        assert("emitter_id"@.len() != "attach"@.len());
    }
    member_is_the_first(b, "emitter_id"@, 0);
    member_is_the_first(b, "profile"@, 1);
    member_is_the_first(b, "max_wall_s"@, 1);
    member_is_the_first(b, "source"@, 1);
    member_is_the_first(b, "live_s"@, 1);
    member_is_the_first(b, "templates"@, 1);
    member_is_the_first(b, "attach"@, 1);
}

} // verus!
