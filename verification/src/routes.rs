//! The route table.

use vstd::prelude::*;

use crate::body::{CtlResponse, CtlResponseV};
use crate::control::Id;
use crate::http::{
    allow_line, control_answer, named_page, no_endpoint_v, page, page_named, page_of,
    page_refusal_of, respond_error, target_of, Answer, AnswerV, Page, TargetV,
};
use crate::text::{begins, chars_of, same, split, split_on, texts, without_prefix};
use crate::{
    analyze, annotations, anomalies, attention, captures, classification, clusters, collections,
    control, datasets, decode, frontend, inspector,
};

verus! {

/// What was observed: streams, spectra, the inventory, tiles.
#[verifier::opaque]
pub open spec fn observed_routes() -> Seq<(Seq<char>, Seq<char>)> {
    seq![
        ("GET"@, "/api/streams"@),
        ("GET"@, "/api/history"@),
        ("GET"@, "/api/floor"@),
        ("GET"@, "/api/inventory"@),
        ("GET"@, "/api/inventory/{id}"@),
        ("POST"@, "/api/inventory/{id}/promote"@),
        ("DELETE"@, "/api/inventory/{id}"@),
        ("PUT"@, "/api/inventory/{id}/band"@),
        ("DELETE"@, "/api/inventory/{id}/band"@),
        ("GET"@, "/api/inventory/{id}/decode"@),
        ("GET"@, "/api/inventory/{id}/classification"@),
        ("GET"@, "/api/events"@),
        ("GET"@, "/api/frontend/events"@),
        ("GET"@, "/api/inventory/{id}/presence"@),
        ("GET"@, "/api/analysis/strongest"@),
        ("GET"@, "/api/navigation"@),
        ("GET"@, "/api/timeline"@),
        ("GET"@, "/api/coverage"@),
        ("GET"@, "/api/tiles"@),
        ("GET"@, "/api/tiles/batch"@),
        ("GET"@, "/api/tiles/events"@),
        ("GET"@, "/api/recordings"@),
        ("GET"@, "/api/playback"@),
        ("POST"@, "/api/playback"@),
        ("GET"@, "/api/status"@),
    ]
}

/// Control, and the bookmarks.
#[verifier::opaque]
pub open spec fn control_routes() -> Seq<(Seq<char>, Seq<char>)> {
    seq![
        ("GET"@, "/api/control/state"@),
        ("POST"@, "/api/control/center"@),
        ("POST"@, "/api/control/rate"@),
        ("POST"@, "/api/control/window"@),
        ("POST"@, "/api/control/gains"@),
        ("POST"@, "/api/control/bias_tee"@),
        ("POST"@, "/api/control/baseband_filter"@),
        ("POST"@, "/api/control/display"@),
        ("GET"@, "/api/control/scan"@),
        ("POST"@, "/api/control/scan"@),
        ("POST"@, "/api/control/scan/stop"@),
        ("POST"@, "/api/control/record/start"@),
        ("POST"@, "/api/control/record/stop"@),
        ("GET"@, "/api/bookmarks"@),
        ("POST"@, "/api/bookmarks"@),
        ("GET"@, "/api/bookmarks/{id}"@),
        ("PUT"@, "/api/bookmarks/{id}"@),
        ("DELETE"@, "/api/bookmarks/{id}"@),
    ]
}

/// What users wrote: selections, measurements, annotations, views, collections.
#[verifier::opaque]
pub open spec fn authored_routes() -> Seq<(Seq<char>, Seq<char>)> {
    seq![
        ("GET"@, "/api/selections"@),
        ("POST"@, "/api/selections"@),
        ("GET"@, "/api/selections/{id}"@),
        ("PUT"@, "/api/selections/{id}"@),
        ("DELETE"@, "/api/selections/{id}"@),
        ("POST"@, "/api/selections/{id}/links"@),
        ("GET"@, "/api/selections/{id}/watch"@),
        ("GET"@, "/api/measurements"@),
        ("POST"@, "/api/measurements"@),
        ("GET"@, "/api/measurements/{id}"@),
        ("PUT"@, "/api/measurements/{id}"@),
        ("DELETE"@, "/api/measurements/{id}"@),
        ("GET"@, "/api/annotations"@),
        ("POST"@, "/api/annotations"@),
        ("GET"@, "/api/annotations/{id}"@),
        ("PUT"@, "/api/annotations/{id}"@),
        ("DELETE"@, "/api/annotations/{id}"@),
        ("GET"@, "/api/views"@),
        ("POST"@, "/api/views"@),
        ("GET"@, "/api/views/{id}"@),
        ("PUT"@, "/api/views/{id}"@),
        ("DELETE"@, "/api/views/{id}"@),
        ("GET"@, "/api/collections"@),
        ("POST"@, "/api/collections"@),
        ("GET"@, "/api/collections/{id}"@),
        ("PUT"@, "/api/collections/{id}"@),
        ("DELETE"@, "/api/collections/{id}"@),
        ("GET"@, "/api/collections/{id}/markers"@),
        ("POST"@, "/api/collections/{id}/markers"@),
        ("GET"@, "/api/markers"@),
        ("GET"@, "/api/markers/{id}"@),
        ("PUT"@, "/api/markers/{id}"@),
        ("DELETE"@, "/api/markers/{id}"@),
    ]
}

/// What the run makes of it: outputs, analyses, clips, datasets, signatures, models.
#[verifier::opaque]
pub open spec fn product_routes() -> Seq<(Seq<char>, Seq<char>)> {
    seq![
        ("GET"@, "/api/outputs"@),
        ("POST"@, "/api/outputs/record/start"@),
        ("POST"@, "/api/outputs/record/stop"@),
        ("GET"@, "/api/outputs/{id}/files/{name}"@),
        ("POST"@, "/api/analyze"@),
        ("GET"@, "/api/analyze"@),
        ("GET"@, "/api/analyze/{id}"@),
        ("DELETE"@, "/api/analyze/{id}"@),
        ("GET"@, "/api/analyze/{id}/trace"@),
        ("GET"@, "/api/iqbuffer"@),
        ("POST"@, "/api/iqbuffer/clip"@),
        ("GET"@, "/api/datasets"@),
        ("POST"@, "/api/datasets"@),
        ("GET"@, "/api/datasets/{id}"@),
        ("GET"@, "/api/taxonomy"@),
        ("GET"@, "/api/signatures/match"@),
        ("GET"@, "/api/clusters"@),
        ("GET"@, "/api/clusters/{id}"@),
        ("POST"@, "/api/clusters/{id}/promote"@),
        ("GET"@, "/api/ml/models"@),
        ("PUT"@, "/api/ml/models/{id}/mode"@),
        ("GET"@, "/api/ml/shadow"@),
    ]
}

/// What is pushed.
#[verifier::opaque]
pub open spec fn feed_routes() -> Seq<(Seq<char>, Seq<char>)> {
    seq![
        ("GET"@, "/ws/{stream_id}"@),
        ("GET"@, "/ws/open/{name}"@),
        ("GET"@, "/ws/tiles/rows"@),
        ("GET"@, "/ws/tiles/changes"@),
    ]
}

/// The decoder workbench: recipes, pipelines, the inspector, recordings.
#[verifier::opaque]
pub open spec fn workbench_routes() -> Seq<(Seq<char>, Seq<char>)> {
    seq![
        ("GET"@, "/api/blocks"@),
        ("GET"@, "/api/recipes"@),
        ("POST"@, "/api/recipes"@),
        ("POST"@, "/api/recipes/validate"@),
        ("GET"@, "/api/recipes/match"@),
        ("GET"@, "/api/recipes/{id}"@),
        ("DELETE"@, "/api/recipes/{id}"@),
        ("GET"@, "/api/recipes/{id}/versions/{version}"@),
        ("GET"@, "/api/pipelines"@),
        ("POST"@, "/api/pipelines"@),
        ("GET"@, "/api/pipelines/{id}"@),
        ("DELETE"@, "/api/pipelines/{id}"@),
        ("PUT"@, "/api/pipelines/{id}/recipe"@),
        ("POST"@, "/api/pipelines/{id}/save"@),
        ("PUT"@, "/api/pipelines/{id}/channels"@),
        ("POST"@, "/api/pipelines/{id}/channels/refresh"@),
        ("POST"@, "/api/inspector/parse"@),
        ("POST"@, "/api/captures/{id}/parse"@),
        ("POST"@, "/api/assist/sync"@),
        ("POST"@, "/api/assist/fields"@),
        ("POST"@, "/api/assist/crc"@),
        ("GET"@, "/api/captures"@),
        ("GET"@, "/api/captures/{id}"@),
        ("DELETE"@, "/api/captures/{id}"@),
        ("GET"@, "/api/captures/{id}/frames"@),
    ]
}

/// What the run remembers: observations, sites, baselines, schedules, anomalies.
#[verifier::opaque]
pub open spec fn memory_routes() -> Seq<(Seq<char>, Seq<char>)> {
    seq![
        ("GET"@, "/api/observations"@),
        ("GET"@, "/api/observations/coverage"@),
        ("GET"@, "/api/occupancy"@),
        ("GET"@, "/api/channels"@),
        ("GET"@, "/api/sites"@),
        ("GET"@, "/api/sites/current"@),
        ("PUT"@, "/api/sites/current"@),
        ("PUT"@, "/api/sites/{id}"@),
        ("GET"@, "/api/baselines"@),
        ("GET"@, "/api/baselines/slots"@),
        ("POST"@, "/api/baselines/refreeze"@),
        ("GET"@, "/api/candidates"@),
        ("GET"@, "/api/attention/weights"@),
        ("PUT"@, "/api/attention/weights"@),
        ("GET"@, "/api/scheduler"@),
        ("GET"@, "/api/scheduler/arms"@),
        ("GET"@, "/api/scheduler/leases"@),
        ("POST"@, "/api/scheduler/leases"@),
        ("DELETE"@, "/api/scheduler/leases/{id}"@),
        ("GET"@, "/api/report"@),
        ("GET"@, "/api/anomalies"@),
        ("GET"@, "/api/anomalies/{id}"@),
        ("POST"@, "/api/anomalies/{id}/dismiss"@),
        ("POST"@, "/api/anomalies/{id}/reopen"@),
        ("GET"@, "/api/trunking/load"@),
    ]
}

/// Every route the server answers (method, path; `{…}` is a path parameter). Receive only: there
/// is no transmit route.
#[verifier::opaque]
pub open spec fn route_table() -> Seq<(Seq<char>, Seq<char>)> {
    observed_routes() + control_routes() + authored_routes() + product_routes() + feed_routes()
        + workbench_routes() + memory_routes()
}

/// The methods and paths of a table.
pub open spec fn table_view(v: Seq<(&'static str, &'static str)>) -> Seq<(Seq<char>, Seq<char>)> {
    v.map_values(|r: (&'static str, &'static str)| (r.0@, r.1@))
}

fn observed() -> (r: Vec<(&'static str, &'static str)>)
    ensures
        table_view(r@) == observed_routes(),
{
    let r = vec![
        ("GET", "/api/streams"),
        ("GET", "/api/history"),
        ("GET", "/api/floor"),
        ("GET", "/api/inventory"),
        ("GET", "/api/inventory/{id}"),
        ("POST", "/api/inventory/{id}/promote"),
        ("DELETE", "/api/inventory/{id}"),
        ("PUT", "/api/inventory/{id}/band"),
        ("DELETE", "/api/inventory/{id}/band"),
        ("GET", "/api/inventory/{id}/decode"),
        ("GET", "/api/inventory/{id}/classification"),
        ("GET", "/api/events"),
        ("GET", "/api/frontend/events"),
        ("GET", "/api/inventory/{id}/presence"),
        ("GET", "/api/analysis/strongest"),
        ("GET", "/api/navigation"),
        ("GET", "/api/timeline"),
        ("GET", "/api/coverage"),
        ("GET", "/api/tiles"),
        ("GET", "/api/tiles/batch"),
        ("GET", "/api/tiles/events"),
        ("GET", "/api/recordings"),
        ("GET", "/api/playback"),
        ("POST", "/api/playback"),
        ("GET", "/api/status"),
    ];
    proof {
        reveal(observed_routes);
        assert(table_view(r@) =~= observed_routes());
    }
    r
}

fn control() -> (r: Vec<(&'static str, &'static str)>)
    ensures
        table_view(r@) == control_routes(),
{
    let r = vec![
        ("GET", "/api/control/state"),
        ("POST", "/api/control/center"),
        ("POST", "/api/control/rate"),
        ("POST", "/api/control/window"),
        ("POST", "/api/control/gains"),
        ("POST", "/api/control/bias_tee"),
        ("POST", "/api/control/baseband_filter"),
        ("POST", "/api/control/display"),
        ("GET", "/api/control/scan"),
        ("POST", "/api/control/scan"),
        ("POST", "/api/control/scan/stop"),
        ("POST", "/api/control/record/start"),
        ("POST", "/api/control/record/stop"),
        ("GET", "/api/bookmarks"),
        ("POST", "/api/bookmarks"),
        ("GET", "/api/bookmarks/{id}"),
        ("PUT", "/api/bookmarks/{id}"),
        ("DELETE", "/api/bookmarks/{id}"),
    ];
    proof {
        reveal(control_routes);
        assert(table_view(r@) =~= control_routes());
    }
    r
}

fn authored() -> (r: Vec<(&'static str, &'static str)>)
    ensures
        table_view(r@) == authored_routes(),
{
    let r = vec![
        ("GET", "/api/selections"),
        ("POST", "/api/selections"),
        ("GET", "/api/selections/{id}"),
        ("PUT", "/api/selections/{id}"),
        ("DELETE", "/api/selections/{id}"),
        ("POST", "/api/selections/{id}/links"),
        ("GET", "/api/selections/{id}/watch"),
        ("GET", "/api/measurements"),
        ("POST", "/api/measurements"),
        ("GET", "/api/measurements/{id}"),
        ("PUT", "/api/measurements/{id}"),
        ("DELETE", "/api/measurements/{id}"),
        ("GET", "/api/annotations"),
        ("POST", "/api/annotations"),
        ("GET", "/api/annotations/{id}"),
        ("PUT", "/api/annotations/{id}"),
        ("DELETE", "/api/annotations/{id}"),
        ("GET", "/api/views"),
        ("POST", "/api/views"),
        ("GET", "/api/views/{id}"),
        ("PUT", "/api/views/{id}"),
        ("DELETE", "/api/views/{id}"),
        ("GET", "/api/collections"),
        ("POST", "/api/collections"),
        ("GET", "/api/collections/{id}"),
        ("PUT", "/api/collections/{id}"),
        ("DELETE", "/api/collections/{id}"),
        ("GET", "/api/collections/{id}/markers"),
        ("POST", "/api/collections/{id}/markers"),
        ("GET", "/api/markers"),
        ("GET", "/api/markers/{id}"),
        ("PUT", "/api/markers/{id}"),
        ("DELETE", "/api/markers/{id}"),
    ];
    proof {
        reveal(authored_routes);
        assert(table_view(r@) =~= authored_routes());
    }
    r
}

fn product() -> (r: Vec<(&'static str, &'static str)>)
    ensures
        table_view(r@) == product_routes(),
{
    let r = vec![
        ("GET", "/api/outputs"),
        ("POST", "/api/outputs/record/start"),
        ("POST", "/api/outputs/record/stop"),
        ("GET", "/api/outputs/{id}/files/{name}"),
        ("POST", "/api/analyze"),
        ("GET", "/api/analyze"),
        ("GET", "/api/analyze/{id}"),
        ("DELETE", "/api/analyze/{id}"),
        ("GET", "/api/analyze/{id}/trace"),
        ("GET", "/api/iqbuffer"),
        ("POST", "/api/iqbuffer/clip"),
        ("GET", "/api/datasets"),
        ("POST", "/api/datasets"),
        ("GET", "/api/datasets/{id}"),
        ("GET", "/api/taxonomy"),
        ("GET", "/api/signatures/match"),
        ("GET", "/api/clusters"),
        ("GET", "/api/clusters/{id}"),
        ("POST", "/api/clusters/{id}/promote"),
        ("GET", "/api/ml/models"),
        ("PUT", "/api/ml/models/{id}/mode"),
        ("GET", "/api/ml/shadow"),
    ];
    proof {
        reveal(product_routes);
        assert(table_view(r@) =~= product_routes());
    }
    r
}

fn feed() -> (r: Vec<(&'static str, &'static str)>)
    ensures
        table_view(r@) == feed_routes(),
{
    let r = vec![
        ("GET", "/ws/{stream_id}"),
        ("GET", "/ws/open/{name}"),
        ("GET", "/ws/tiles/rows"),
        ("GET", "/ws/tiles/changes"),
    ];
    proof {
        reveal(feed_routes);
        assert(table_view(r@) =~= feed_routes());
    }
    r
}

fn workbench() -> (r: Vec<(&'static str, &'static str)>)
    ensures
        table_view(r@) == workbench_routes(),
{
    let r = vec![
        ("GET", "/api/blocks"),
        ("GET", "/api/recipes"),
        ("POST", "/api/recipes"),
        ("POST", "/api/recipes/validate"),
        ("GET", "/api/recipes/match"),
        ("GET", "/api/recipes/{id}"),
        ("DELETE", "/api/recipes/{id}"),
        ("GET", "/api/recipes/{id}/versions/{version}"),
        ("GET", "/api/pipelines"),
        ("POST", "/api/pipelines"),
        ("GET", "/api/pipelines/{id}"),
        ("DELETE", "/api/pipelines/{id}"),
        ("PUT", "/api/pipelines/{id}/recipe"),
        ("POST", "/api/pipelines/{id}/save"),
        ("PUT", "/api/pipelines/{id}/channels"),
        ("POST", "/api/pipelines/{id}/channels/refresh"),
        ("POST", "/api/inspector/parse"),
        ("POST", "/api/captures/{id}/parse"),
        ("POST", "/api/assist/sync"),
        ("POST", "/api/assist/fields"),
        ("POST", "/api/assist/crc"),
        ("GET", "/api/captures"),
        ("GET", "/api/captures/{id}"),
        ("DELETE", "/api/captures/{id}"),
        ("GET", "/api/captures/{id}/frames"),
    ];
    proof {
        reveal(workbench_routes);
        assert(table_view(r@) =~= workbench_routes());
    }
    r
}

fn memory() -> (r: Vec<(&'static str, &'static str)>)
    ensures
        table_view(r@) == memory_routes(),
{
    let r = vec![
        ("GET", "/api/observations"),
        ("GET", "/api/observations/coverage"),
        ("GET", "/api/occupancy"),
        ("GET", "/api/channels"),
        ("GET", "/api/sites"),
        ("GET", "/api/sites/current"),
        ("PUT", "/api/sites/current"),
        ("PUT", "/api/sites/{id}"),
        ("GET", "/api/baselines"),
        ("GET", "/api/baselines/slots"),
        ("POST", "/api/baselines/refreeze"),
        ("GET", "/api/candidates"),
        ("GET", "/api/attention/weights"),
        ("PUT", "/api/attention/weights"),
        ("GET", "/api/scheduler"),
        ("GET", "/api/scheduler/arms"),
        ("GET", "/api/scheduler/leases"),
        ("POST", "/api/scheduler/leases"),
        ("DELETE", "/api/scheduler/leases/{id}"),
        ("GET", "/api/report"),
        ("GET", "/api/anomalies"),
        ("GET", "/api/anomalies/{id}"),
        ("POST", "/api/anomalies/{id}/dismiss"),
        ("POST", "/api/anomalies/{id}/reopen"),
        ("GET", "/api/trunking/load"),
    ];
    proof {
        reveal(memory_routes);
        assert(table_view(r@) =~= memory_routes());
    }
    r
}

fn extend(v: &mut Vec<(&'static str, &'static str)>, more: Vec<(&'static str, &'static str)>)
    ensures
        table_view(final(v)@) == table_view(old(v)@) + table_view(more@),
{
    let ghost was = v@;
    let mut more = more;
    let ghost rest = more@;
    v.append(&mut more);
    assert(table_view(v@) =~= table_view(was) + table_view(rest));
}

/// [`route_table`].
pub fn routes() -> (r: Vec<(&'static str, &'static str)>)
    ensures
        table_view(r@) == route_table(),
{
    let mut t = observed();
    extend(&mut t, control());
    extend(&mut t, authored());
    extend(&mut t, product());
    extend(&mut t, feed());
    extend(&mut t, workbench());
    extend(&mut t, memory());
    proof {
        reveal(route_table);
    }
    t
}

// ---------------------------------------------------------------------------------------------
// Paths of the table
// ---------------------------------------------------------------------------------------------

/// A segment that stands for any other: a name in braces.
pub open spec fn is_parameter(segment: Seq<char>) -> bool {
    segment.len() >= 2 && segment[0] == '{' && segment.last() == '}'
}

/// A segment of a path is the one of the table, or is something where that is a parameter.
pub open spec fn segment_fits(pattern: Seq<char>, segment: Seq<char>) -> bool {
    pattern == segment || (is_parameter(pattern) && segment.len() > 0)
}

/// A path is one that a path of the table stands for, segment by segment.
pub open spec fn fits(pattern: Seq<char>, path: Seq<char>) -> bool {
    let (p, s) = (split_on(pattern, '/'), split_on(path, '/'));
    p.len() == s.len() && forall|i: int| 0 <= i < p.len() ==> segment_fits(#[trigger] p[i], s[i])
}

/// A row of the table stands for the path.
pub open spec fn known(path: Seq<char>) -> bool {
    exists|i: int| 0 <= i < route_table().len() && fits((#[trigger] route_table()[i]).1, path)
}

/// A row of the table with this method stands for the path.
pub open spec fn answers_to(method: Seq<char>, path: Seq<char>) -> bool {
    exists|i: int|
        0 <= i < route_table().len() && (#[trigger] route_table()[i]).0 == method && fits(
            route_table()[i].1,
            path,
        )
}

fn fits_segment(pattern: &str, segment: &str) -> (r: bool)
    ensures
        r == segment_fits(pattern@, segment@),
{
    if same(pattern, segment) {
        return true;
    }
    let p = chars_of(pattern);
    p.len() >= 2 && p[0] == '{' && p[p.len() - 1] == '}' && !segment.is_empty()
}

fn fits_path(pattern: &str, path: &str) -> (r: bool)
    ensures
        r == fits(pattern@, path@),
{
    let p = split(pattern, '/');
    let s = split(path, '/');
    let ghost (pt, st) = (split_on(pattern@, '/'), split_on(path@, '/'));
    if p.len() != s.len() {
        return false;
    }
    let mut i: usize = 0;
    while i < p.len()
        invariant
            pt == split_on(pattern@, '/'),
            st == split_on(path@, '/'),
            texts(p@) == pt,
            texts(s@) == st,
            p@.len() == s@.len(),
            i <= p@.len(),
            forall|k: int| 0 <= k < i ==> segment_fits(#[trigger] pt[k], st[k]),
        decreases p@.len() - i,
    {
        assert(pt[i as int] == p@[i as int]@ && st[i as int] == s@[i as int]@);
        if !fits_segment(p[i], s[i]) {
            assert(!segment_fits(pt[i as int], st[i as int]));
            return false;
        }
        i += 1;
    }
    true
}

/// Whether the path is [`known`], and whether it [`answers_to`] the method.
pub fn look_up(method: &str, path: &str) -> (r: (bool, bool))
    ensures
        r.0 == known(path@),
        r.1 == answers_to(method@, path@),
        r.1 ==> r.0,
{
    let table = routes();
    let ghost t = route_table();
    let mut found = false;
    let mut i: usize = 0;
    while i < table.len()
        invariant
            t == route_table(),
            table_view(table@) == t,
            i <= table@.len(),
            found == exists|k: int| 0 <= k < i && fits((#[trigger] t[k]).1, path@),
            forall|k: int| 0 <= k < i ==> !((#[trigger] t[k]).0 == method@ && fits(t[k].1, path@)),
        decreases table@.len() - i,
    {
        assert(t[i as int] == (table@[i as int].0@, table@[i as int].1@));
        if fits_path(table[i].1, path) {
            found = true;
            assert(fits(t[i as int].1, path@));
            if same(table[i].0, method) {
                return (true, true);
            }
        }
        i += 1;
    }
    (found, false)
}

/// Who answers a request that no part of the library owns.
#[derive(Clone, Copy, Debug, PartialEq, Eq, Structural)]
pub enum Tail {
    /// Another part of the server, which is asked; then [`from_others`].
    Others,
    /// This page.
    Page(Page),
}

/// Another part of the server is asked only for what the table names and no page answers.
pub open spec fn tail_of(method: Seq<char>, path: Seq<char>) -> Tail {
    if page_named(path) is None && known(path) {
        Tail::Others
    } else {
        Tail::Page(page_of(method, path))
    }
}

/// [`tail_of`].
pub fn tail(method: &str, path: &str) -> (r: Tail)
    ensures
        r == tail_of(method@, path@),
{
    if named_page(path).is_none() && look_up(method, path).0 {
        Tail::Others
    } else {
        Tail::Page(page(method, path))
    }
}

/// What is answered where another part was asked: its answer, but that there is no such endpoint
/// where it has none, or succeeds at what the table does not name.
pub open spec fn from_others_of(
    method: Seq<char>,
    path: Seq<char>,
    answered: Option<CtlResponseV>,
) -> AnswerV {
    match answered {
        Some(r) if !(200 <= r.status < 300) || answers_to(method, path) => AnswerV {
            status: r.status,
            body: r.body,
            extra: allow_line(r.allow),
        },
        _ => no_endpoint_v(),
    }
}

/// [`from_others_of`].
pub fn from_others(method: &str, path: &str, answered: Option<CtlResponse>) -> (a: Answer)
    ensures
        a@ == from_others_of(
            method@,
            path@,
            match answered {
                Some(r) => Some(r@),
                None => None,
            },
        ),
{
    if let Some(r) = answered {
        if !(200 <= r.status && r.status < 300) || look_up(method, path).1 {
            return control_answer(r);
        }
    }
    respond_error(404, "no such endpoint")
}

/// Nothing but what the table names succeeds: no other part of the server is asked for a path that
/// is not in it, nor is its success served for a method that is not.
pub proof fn only_the_table_succeeds(
    method: Seq<char>,
    path: Seq<char>,
    answered: Option<CtlResponseV>,
)
    ensures
        tail_of(method, path) is Others ==> known(path),
        200 <= from_others_of(method, path, answered).status < 300 ==> answers_to(method, path),
        begins(path, "/api/"@) && !known(path) && page_named(path) is None ==> tail_of(method, path)
            == Tail::Page(Page::NoEndpoint) && page_refusal_of(Page::NoEndpoint, true) == Some(
            no_endpoint_v(),
        ),
{
}

/// A row of the table stands for itself.
pub proof fn listed_routes_answer(method: Seq<char>, path: Seq<char>)
    requires
        listed(method, path),
    ensures
        answers_to(method, path),
        known(path),
{
    let i = choose|i: int| 0 <= i < route_table().len() && route_table()[i] == (method, path);
    assert(route_table()[i].0 == method && fits(route_table()[i].1, path));
}

// ---------------------------------------------------------------------------------------------
// The table is complete
// ---------------------------------------------------------------------------------------------

/// A route is in the table.
pub open spec fn listed(method: Seq<char>, path: Seq<char>) -> bool {
    route_table().contains((method, path))
}

proof fn both_are_kept(a: Seq<(Seq<char>, Seq<char>)>, b: Seq<(Seq<char>, Seq<char>)>)
    ensures
        forall|r: (Seq<char>, Seq<char>)|
            a.contains(r) || b.contains(r) ==> #[trigger] (a + b).contains(r),
{
    assert forall|r: (Seq<char>, Seq<char>)| a.contains(r) || b.contains(r) implies #[trigger] (a
        + b).contains(r) by {
        if a.contains(r) {
            let i = choose|i: int| 0 <= i < a.len() && a[i] == r;
            assert((a + b)[i] == r);
        } else {
            let i = choose|i: int| 0 <= i < b.len() && b[i] == r;
            assert((a + b)[a.len() + i] == r);
        }
    }
}

/// A route of a part is a route of the table.
proof fn parts_are_listed()
    ensures
        forall|r: (Seq<char>, Seq<char>)|
            {
                ||| observed_routes().contains(r)
                ||| control_routes().contains(r)
                ||| authored_routes().contains(r)
                ||| product_routes().contains(r)
                ||| feed_routes().contains(r)
                ||| workbench_routes().contains(r)
                ||| memory_routes().contains(r)
            } ==> #[trigger] route_table().contains(r),
{
    reveal(route_table);
    let t = observed_routes();
    both_are_kept(t, control_routes());
    let t = t + control_routes();
    both_are_kept(t, authored_routes());
    let t = t + authored_routes();
    both_are_kept(t, product_routes());
    let t = t + product_routes();
    both_are_kept(t, feed_routes());
    let t = t + feed_routes();
    both_are_kept(t, workbench_routes());
    let t = t + workbench_routes();
    both_are_kept(t, memory_routes());
    let t = t + memory_routes();
}

/// The table is complete: a page answers at a path of the table, and only to its method.
pub proof fn pages_are_listed(method: Seq<char>, path: Seq<char>)
    ensures
        match page_of(method, path) {
            Page::UseGet | Page::NoEndpoint | Page::Static => true,
            _ => method == "GET"@ && listed(method, path),
        },
{
    parts_are_listed();
    reveal(memory_routes);
    reveal(observed_routes);
    reveal(product_routes);
    if path == "/api/streams"@ {
        assert(observed_routes()[0] == ("GET"@, "/api/streams"@));
    } else if path == "/api/history"@ {
        assert(observed_routes()[1] == ("GET"@, "/api/history"@));
    } else if path == "/api/report"@ {
        assert(memory_routes()[19] == ("GET"@, "/api/report"@));
    } else if path == "/api/floor"@ {
        assert(observed_routes()[2] == ("GET"@, "/api/floor"@));
    } else if path == "/api/inventory"@ {
        assert(observed_routes()[3] == ("GET"@, "/api/inventory"@));
    } else if path == "/api/events"@ {
        assert(observed_routes()[11] == ("GET"@, "/api/events"@));
    } else if path == "/api/analysis/strongest"@ {
        assert(observed_routes()[14] == ("GET"@, "/api/analysis/strongest"@));
    } else if path == "/api/navigation"@ {
        assert(observed_routes()[15] == ("GET"@, "/api/navigation"@));
    } else if path == "/api/timeline"@ {
        assert(observed_routes()[16] == ("GET"@, "/api/timeline"@));
    } else if path == "/api/coverage"@ {
        assert(observed_routes()[17] == ("GET"@, "/api/coverage"@));
    } else if path == "/api/tiles"@ {
        assert(observed_routes()[18] == ("GET"@, "/api/tiles"@));
    } else if path == "/api/tiles/batch"@ {
        assert(observed_routes()[19] == ("GET"@, "/api/tiles/batch"@));
    } else if path == "/api/tiles/events"@ {
        assert(observed_routes()[20] == ("GET"@, "/api/tiles/events"@));
    } else if path == "/api/status"@ {
        assert(observed_routes()[24] == ("GET"@, "/api/status"@));
    } else if path == "/api/taxonomy"@ {
        assert(product_routes()[14] == ("GET"@, "/api/taxonomy"@));
    }
}

/// The table is complete: a feed answers at a path of the table, and only to its method.
pub proof fn feeds_are_listed(method: Seq<char>, path: Seq<char>)
    ensures
        match target_of(method, path) {
            TargetV::Rows | TargetV::Changes => method == "GET"@ && listed(method, path),
            TargetV::Open(_) => method == "GET"@ && listed(method, "/ws/open/{name}"@),
            TargetV::Stream(_) => method == "GET"@ && listed(method, "/ws/{stream_id}"@),
            TargetV::OutputFile(_, _) => method == "GET"@ && listed(
                method,
                "/api/outputs/{id}/files/{name}"@,
            ),
            _ => true,
        },
{
    parts_are_listed();
    reveal(feed_routes);
    reveal(product_routes);
    assert(feed_routes()[0] == ("GET"@, "/ws/{stream_id}"@));
    assert(feed_routes()[1] == ("GET"@, "/ws/open/{name}"@));
    assert(feed_routes()[2] == ("GET"@, "/ws/tiles/rows"@));
    assert(feed_routes()[3] == ("GET"@, "/ws/tiles/changes"@));
    assert(product_routes()[3] == ("GET"@, "/api/outputs/{id}/files/{name}"@));
}

/// The table is complete: the front end's events answer at a path of the table, and only to its
/// method.
pub proof fn front_end_routes_are_listed(method: Seq<char>, path: Seq<char>)
    ensures
        frontend::resolved(method, path) matches Some(Ok(_)) ==> method == "GET"@ && listed(
            method,
            path,
        ),
{
    parts_are_listed();
    reveal(observed_routes);
    assert(observed_routes()[12] == ("GET"@, "/api/frontend/events"@));
}

proof fn control_is_listed(method: Seq<char>, rest: Seq<char>)
    requires
        control::control_action(method, rest) is Ok,
    ensures
        listed(method, "/api/control/"@ + rest),
{
    parts_are_listed();
    reveal(control_routes);
    reveal_strlit("/api/control/");
    if method == "GET"@ && rest == "state"@ {
        reveal_strlit("state");
        reveal_strlit("/api/control/state");
        assert("/api/control/"@ + rest =~= "/api/control/state"@);
        assert(control_routes()[0] == ("GET"@, "/api/control/state"@));
    } else if method == "POST"@ && rest == "center"@ {
        reveal_strlit("center");
        reveal_strlit("/api/control/center");
        assert("/api/control/"@ + rest =~= "/api/control/center"@);
        assert(control_routes()[1] == ("POST"@, "/api/control/center"@));
    } else if method == "POST"@ && rest == "rate"@ {
        reveal_strlit("rate");
        reveal_strlit("/api/control/rate");
        assert("/api/control/"@ + rest =~= "/api/control/rate"@);
        assert(control_routes()[2] == ("POST"@, "/api/control/rate"@));
    } else if method == "POST"@ && rest == "window"@ {
        reveal_strlit("window");
        reveal_strlit("/api/control/window");
        assert("/api/control/"@ + rest =~= "/api/control/window"@);
        assert(control_routes()[3] == ("POST"@, "/api/control/window"@));
    } else if method == "POST"@ && rest == "gains"@ {
        reveal_strlit("gains");
        reveal_strlit("/api/control/gains");
        assert("/api/control/"@ + rest =~= "/api/control/gains"@);
        assert(control_routes()[4] == ("POST"@, "/api/control/gains"@));
    } else if method == "POST"@ && rest == "bias_tee"@ {
        reveal_strlit("bias_tee");
        reveal_strlit("/api/control/bias_tee");
        assert("/api/control/"@ + rest =~= "/api/control/bias_tee"@);
        assert(control_routes()[5] == ("POST"@, "/api/control/bias_tee"@));
    } else if method == "POST"@ && rest == "baseband_filter"@ {
        reveal_strlit("baseband_filter");
        reveal_strlit("/api/control/baseband_filter");
        assert("/api/control/"@ + rest =~= "/api/control/baseband_filter"@);
        assert(control_routes()[6] == ("POST"@, "/api/control/baseband_filter"@));
    } else if method == "POST"@ && rest == "display"@ {
        reveal_strlit("display");
        reveal_strlit("/api/control/display");
        assert("/api/control/"@ + rest =~= "/api/control/display"@);
        assert(control_routes()[7] == ("POST"@, "/api/control/display"@));
    } else if method == "GET"@ && rest == "scan"@ {
        reveal_strlit("scan");
        reveal_strlit("/api/control/scan");
        assert("/api/control/"@ + rest =~= "/api/control/scan"@);
        assert(control_routes()[8] == ("GET"@, "/api/control/scan"@));
    } else if method == "POST"@ && rest == "scan"@ {
        reveal_strlit("scan");
        reveal_strlit("/api/control/scan");
        assert("/api/control/"@ + rest =~= "/api/control/scan"@);
        assert(control_routes()[9] == ("POST"@, "/api/control/scan"@));
    } else if method == "POST"@ && rest == "scan/stop"@ {
        reveal_strlit("scan/stop");
        reveal_strlit("/api/control/scan/stop");
        assert("/api/control/"@ + rest =~= "/api/control/scan/stop"@);
        assert(control_routes()[10] == ("POST"@, "/api/control/scan/stop"@));
    } else if method == "POST"@ && rest == "record/start"@ {
        reveal_strlit("record/start");
        reveal_strlit("/api/control/record/start");
        assert("/api/control/"@ + rest =~= "/api/control/record/start"@);
        assert(control_routes()[11] == ("POST"@, "/api/control/record/start"@));
    } else if method == "POST"@ && rest == "record/stop"@ {
        reveal_strlit("record/stop");
        reveal_strlit("/api/control/record/stop");
        assert("/api/control/"@ + rest =~= "/api/control/record/stop"@);
        assert(control_routes()[12] == ("POST"@, "/api/control/record/stop"@));
    }
}

/// The table is complete: a control route answers at a path of the table, and only to its method.
pub proof fn control_routes_are_listed(method: Seq<char>, path: Seq<char>, id: Option<Id>)
    ensures
        match control::resolved(method, path, id) {
            Some(Ok(control::Action::GetBookmark(_))) => listed(method, "/api/bookmarks/{id}"@),
            Some(Ok(control::Action::UpdateBookmark(_))) => listed(method, "/api/bookmarks/{id}"@),
            Some(Ok(control::Action::DeleteBookmark(_))) => listed(method, "/api/bookmarks/{id}"@),
            Some(Ok(_)) => listed(method, path),
            _ => true,
        },
{
    parts_are_listed();
    reveal(control_routes);
    assert(control_routes()[13] == ("GET"@, "/api/bookmarks"@));
    assert(control_routes()[14] == ("POST"@, "/api/bookmarks"@));
    assert(control_routes()[15] == ("GET"@, "/api/bookmarks/{id}"@));
    assert(control_routes()[16] == ("PUT"@, "/api/bookmarks/{id}"@));
    assert(control_routes()[17] == ("DELETE"@, "/api/bookmarks/{id}"@));
    if let Some(rest) = without_prefix(path, "/api/control/"@) {
        assert("/api/control/"@ + rest =~= path);
        if control::control_action(method, rest) is Ok {
            control_is_listed(method, rest);
        }
    }
}

/// The table is complete: a route of annotations answers at a path of the table, and only to
/// its method.
pub proof fn annotation_routes_are_listed(method: Seq<char>, path: Seq<char>, id: Option<Id>)
    ensures
        match annotations::resolved(method, path, id) {
            Some(Ok(annotations::Action::List)) => listed(method, path),
            Some(Ok(annotations::Action::Create)) => listed(method, path),
            Some(Ok(_)) => listed(method, "/api/annotations/{id}"@),
            _ => true,
        },
{
    parts_are_listed();
    reveal(authored_routes);
    assert(authored_routes()[12] == ("GET"@, "/api/annotations"@));
    assert(authored_routes()[13] == ("POST"@, "/api/annotations"@));
    assert(authored_routes()[14] == ("GET"@, "/api/annotations/{id}"@));
    assert(authored_routes()[15] == ("PUT"@, "/api/annotations/{id}"@));
    assert(authored_routes()[16] == ("DELETE"@, "/api/annotations/{id}"@));
}

/// The table is complete: a route of collections and markers answers at a path of the table,
/// and only to its method.
pub proof fn collection_routes_are_listed(method: Seq<char>, path: Seq<char>, id: Option<Id>)
    ensures
        match collections::resolved(method, path, id) {
            Some(Ok(collections::Action::List)) => listed(method, path),
            Some(Ok(collections::Action::Create)) => listed(method, path),
            Some(Ok(collections::Action::ListMarkers(None))) => listed(method, path),
            Some(Ok(collections::Action::ListMarkers(Some(_)))) => listed(
                method,
                "/api/collections/{id}/markers"@,
            ),
            Some(Ok(collections::Action::CreateMarker(_))) => listed(
                method,
                "/api/collections/{id}/markers"@,
            ),
            Some(Ok(collections::Action::Get(_))) => listed(method, "/api/collections/{id}"@),
            Some(Ok(collections::Action::Update(_))) => listed(method, "/api/collections/{id}"@),
            Some(Ok(collections::Action::Delete(_))) => listed(method, "/api/collections/{id}"@),
            Some(Ok(_)) => listed(method, "/api/markers/{id}"@),
            _ => true,
        },
{
    parts_are_listed();
    reveal(authored_routes);
    assert(authored_routes()[22] == ("GET"@, "/api/collections"@));
    assert(authored_routes()[23] == ("POST"@, "/api/collections"@));
    assert(authored_routes()[24] == ("GET"@, "/api/collections/{id}"@));
    assert(authored_routes()[25] == ("PUT"@, "/api/collections/{id}"@));
    assert(authored_routes()[26] == ("DELETE"@, "/api/collections/{id}"@));
    assert(authored_routes()[27] == ("GET"@, "/api/collections/{id}/markers"@));
    assert(authored_routes()[28] == ("POST"@, "/api/collections/{id}/markers"@));
    assert(authored_routes()[29] == ("GET"@, "/api/markers"@));
    assert(authored_routes()[30] == ("GET"@, "/api/markers/{id}"@));
    assert(authored_routes()[31] == ("PUT"@, "/api/markers/{id}"@));
    assert(authored_routes()[32] == ("DELETE"@, "/api/markers/{id}"@));
}

/// The table is complete: a route of analyses answers at a path of the table, and only to its
/// method.
pub proof fn analyze_routes_are_listed(method: Seq<char>, path: Seq<char>)
    ensures
        match analyze::resolved(method, path) {
            Some(Ok(analyze::ActionV::Start)) => listed(method, path),
            Some(Ok(analyze::ActionV::List)) => listed(method, path),
            Some(Ok(analyze::ActionV::Trace(_))) => listed(method, "/api/analyze/{id}/trace"@),
            Some(Ok(_)) => listed(method, "/api/analyze/{id}"@),
            _ => true,
        },
{
    parts_are_listed();
    reveal(product_routes);
    assert(product_routes()[4] == ("POST"@, "/api/analyze"@));
    assert(product_routes()[5] == ("GET"@, "/api/analyze"@));
    assert(product_routes()[6] == ("GET"@, "/api/analyze/{id}"@));
    assert(product_routes()[7] == ("DELETE"@, "/api/analyze/{id}"@));
    assert(product_routes()[8] == ("GET"@, "/api/analyze/{id}/trace"@));
}

/// The table is complete: a route of datasets answers at a path of the table, and only to its
/// method.
pub proof fn dataset_routes_are_listed(method: Seq<char>, path: Seq<char>)
    ensures
        match datasets::resolved(method, path) {
            Some(Ok(datasets::ActionV::Get(_))) => listed(method, "/api/datasets/{id}"@),
            Some(Ok(_)) => listed(method, path),
            _ => true,
        },
{
    parts_are_listed();
    reveal(product_routes);
    assert(product_routes()[11] == ("GET"@, "/api/datasets"@));
    assert(product_routes()[12] == ("POST"@, "/api/datasets"@));
    assert(product_routes()[13] == ("GET"@, "/api/datasets/{id}"@));
}

/// The table is complete: a route of recordings answers at a path of the table, and only to its
/// method.
pub proof fn capture_routes_are_listed(method: Seq<char>, path: Seq<char>)
    ensures
        match captures::resolved(method, path) {
            Some(Ok(captures::ActionV::List)) => listed(method, path),
            Some(Ok(captures::ActionV::Frames(_))) => listed(method, "/api/captures/{id}/frames"@),
            Some(Ok(_)) => listed(method, "/api/captures/{id}"@),
            _ => true,
        },
{
    parts_are_listed();
    reveal(workbench_routes);
    assert(workbench_routes()[21] == ("GET"@, "/api/captures"@));
    assert(workbench_routes()[22] == ("GET"@, "/api/captures/{id}"@));
    assert(workbench_routes()[23] == ("DELETE"@, "/api/captures/{id}"@));
    assert(workbench_routes()[24] == ("GET"@, "/api/captures/{id}/frames"@));
}

/// The table is complete: a route of the inspector answers at a path of the table, and only to
/// its method.
pub proof fn inspector_routes_are_listed(method: Seq<char>, path: Seq<char>)
    ensures
        match inspector::resolved(method, path) {
            Some(Ok(inspector::ActionV::ParseFrames)) => listed(method, path),
            Some(Ok(_)) => listed(method, "/api/captures/{id}/parse"@),
            _ => true,
        },
{
    parts_are_listed();
    reveal(workbench_routes);
    assert(workbench_routes()[16] == ("POST"@, "/api/inspector/parse"@));
    assert(workbench_routes()[17] == ("POST"@, "/api/captures/{id}/parse"@));
}

/// The table is complete: a route of the attention service answers at a path of the table, and
/// only to its method.
pub proof fn attention_routes_are_listed(method: Seq<char>, path: Seq<char>, id: Option<Id>)
    ensures
        match attention::resolved(method, path, id) {
            Some(Ok(attention::Route::UpdateSite(_))) => listed(method, "/api/sites/{id}"@),
            Some(Ok(_)) => listed(method, path),
            _ => true,
        },
{
    parts_are_listed();
    reveal(memory_routes);
    assert(memory_routes()[4] == ("GET"@, "/api/sites"@));
    assert(memory_routes()[5] == ("GET"@, "/api/sites/current"@));
    assert(memory_routes()[6] == ("PUT"@, "/api/sites/current"@));
    assert(memory_routes()[7] == ("PUT"@, "/api/sites/{id}"@));
    assert(memory_routes()[8] == ("GET"@, "/api/baselines"@));
    assert(memory_routes()[9] == ("GET"@, "/api/baselines/slots"@));
    assert(memory_routes()[10] == ("POST"@, "/api/baselines/refreeze"@));
    assert(memory_routes()[11] == ("GET"@, "/api/candidates"@));
    assert(memory_routes()[12] == ("GET"@, "/api/attention/weights"@));
    assert(memory_routes()[13] == ("PUT"@, "/api/attention/weights"@));
}

/// The table is complete: a route of anomalies answers at a path of the table, and only to its
/// method.
pub proof fn anomaly_routes_are_listed(method: Seq<char>, path: Seq<char>, id: Option<Id>)
    ensures
        match anomalies::resolved(method, path, id) {
            Some(anomalies::RoutedV::To(anomalies::Action::List)) => listed(
                method,
                "/api/anomalies"@,
            ),
            Some(anomalies::RoutedV::To(anomalies::Action::Get(_))) => listed(
                method,
                "/api/anomalies/{id}"@,
            ),
            Some(anomalies::RoutedV::To(anomalies::Action::Dismiss(_))) => listed(
                method,
                "/api/anomalies/{id}/dismiss"@,
            ),
            Some(anomalies::RoutedV::To(anomalies::Action::Reopen(_))) => listed(
                method,
                "/api/anomalies/{id}/reopen"@,
            ),
            _ => true,
        },
{
    parts_are_listed();
    reveal(memory_routes);
    assert(memory_routes()[20] == ("GET"@, "/api/anomalies"@));
    assert(memory_routes()[21] == ("GET"@, "/api/anomalies/{id}"@));
    assert(memory_routes()[22] == ("POST"@, "/api/anomalies/{id}/dismiss"@));
    assert(memory_routes()[23] == ("POST"@, "/api/anomalies/{id}/reopen"@));
}

/// The table is complete: a route of clusters answers at a path of the table, and only to its
/// method.
pub proof fn cluster_routes_are_listed(method: Seq<char>, path: Seq<char>, is_id: bool)
    ensures
        match clusters::resolved(method, path, is_id) {
            Some(Ok(clusters::ActionV::List)) => listed(method, "/api/clusters"@),
            Some(Ok(clusters::ActionV::Get(_))) => listed(method, "/api/clusters/{id}"@),
            Some(Ok(clusters::ActionV::Promote(_))) => listed(
                method,
                "/api/clusters/{id}/promote"@,
            ),
            _ => true,
        },
{
    parts_are_listed();
    reveal(product_routes);
    assert(product_routes()[16] == ("GET"@, "/api/clusters"@));
    assert(product_routes()[17] == ("GET"@, "/api/clusters/{id}"@));
    assert(product_routes()[18] == ("POST"@, "/api/clusters/{id}/promote"@));
}

/// The table is complete: the route of decodes answers at a path of the table, and only to its
/// method.
pub proof fn decode_route_is_listed(method: Seq<char>, path: Seq<char>, id: Option<Id>)
    ensures
        match decode::resolved(method, path, id) {
            Some(Ok(_)) => listed(method, "/api/inventory/{id}/decode"@),
            _ => true,
        },
{
    parts_are_listed();
    reveal(observed_routes);
    assert(observed_routes()[9] == ("GET"@, "/api/inventory/{id}/decode"@));
}

/// The table is complete: the route of classifications answers at a path of the table, and only
/// to its method.
pub proof fn classification_route_is_listed(method: Seq<char>, path: Seq<char>, id: Option<Id>)
    ensures
        match classification::resolved(method, path, id) {
            Some(Ok(_)) => listed(method, "/api/inventory/{id}/classification"@),
            _ => true,
        },
{
    parts_are_listed();
    reveal(observed_routes);
    assert(observed_routes()[10] == ("GET"@, "/api/inventory/{id}/classification"@));
}

} // verus!
