//! Coverage answers: the per-cell grids, the compact planes of a tile, and the rasters held
//! between requests.

use vstd::prelude::*;

use crate::control::Span;
use crate::coverage::{
    count, expand_runs, few_codes_have_short_runs, kept, plane_json, plane_v, run_length, runs_of,
    states_json, states_v, uniform, uniform_of, valid_codes, Coverage, Device, DeviceV, UNKNOWN,
    UNOBSERVED,
};
use crate::double::Real;
use crate::evidence::{
    beyond, codes_of, grid_json, grid_v, horizon_json, horizon_v, shades_view, sources_json,
    sources_v, state_codes, unknown_band, window_from, window_of, CoverageSpan, Evidence, Shape,
};
use crate::http::{api_error_v, api_outcome, ApiError, ApiErrorV};
use crate::json::{
    at, member_is_the_first, no_fields, opt_real_v, opt_text_v, real_v, scaled_v, text_items,
    text_v, uint_v, Fields, Items, Json, JsonV,
};
use crate::params::{find_stray, stray};
use crate::request::pairs;
use crate::text::{debug, debug_text, opt_string, opt_text, same, texts};

verus! {

/// A grid with its cells.
#[derive(Debug)]
pub struct Grid {
    /// The shape.
    pub shape: Shape,
    /// The cells, row by row.
    pub cells: Vec<Coverage>,
}

impl Grid {
    /// One cell per row and column, and few enough to be counted by a run.
    pub open spec fn wf(self) -> bool {
        &&& self.cells@.len() == self.shape.nt * self.shape.nf
        &&& self.cells@.len() <= u32::MAX
    }
}

// ---------------------------------------------------------------------------------------------
// The per-cell answers
// ---------------------------------------------------------------------------------------------

/// The grid of each front end.
pub open spec fn grids_v(
    e: Evidence,
    grids: Seq<Grid>,
    shades: Option<Seq<Option<Real>>>,
) -> Seq<JsonV> {
    Seq::new(
        grids.len(),
        |i: int|
            grid_v(
                grids[i].shape,
                grids[i].cells@,
                shades,
                unknown_band(e.memory, e.log_available, grids[i].shape),
            ),
    )
}

fn grids_json(e: &Evidence, grids: &Vec<Grid>, shades: Option<&Vec<Option<Real>>>) -> (r: Json)
    ensures
        r.view() == JsonV::Array(grids_v(*e, grids@, shades_view(shades))),
{
    let ghost want = grids_v(*e, grids@, shades_view(shades));
    let mut out = Items::new();
    let mut i: usize = 0;
    assert(want.take(0) =~= Seq::empty());
    while i < grids.len()
        invariant
            i <= grids@.len(),
            want == grids_v(*e, grids@, shades_view(shades)),
            out@ == want.take(i as int),
        decreases grids@.len() - i,
    {
        let x = one_grid_json(e, &grids[i], shades);
        assert(want.take(i + 1) =~= want.take(i as int).push(x.view()));
        out.push(x);
        i += 1;
    }
    assert(want.take(grids@.len() as int) =~= want);
    out.array()
}

fn one_grid_json(e: &Evidence, g: &Grid, shades: Option<&Vec<Option<Real>>>) -> (r: Json)
    ensures
        r.view() == grid_v(
            g.shape,
            g.cells@,
            shades_view(shades),
            unknown_band(e.memory, e.log_available, g.shape),
        ),
{
    let (from, to) = e.unknown_rows(&g.shape);
    grid_json(&g.shape, &g.cells, shades, from, to)
}

/// The levels of a strip, and the scale that they were normalised against.
#[derive(Debug)]
pub struct StripShades {
    /// Per cell, 0 to 1 over `range_db`; none where the history keeps no level.
    pub values: Vec<Option<Real>>,
    /// The observed range; none when nothing was observed.
    pub range_db: Option<(Real, Real)>,
    /// The scale of `range_db`; none when no history answered.
    pub scale: Option<String>,
    /// The tier that the levels were read from.
    pub level: Option<u8>,
    /// That tier's time cell, s.
    pub src_t_cell_s: Option<Real>,
    /// That tier's frequency cell, Hz.
    pub src_f_cell_hz: Option<Real>,
}

/// What stands for the levels where no history could be read.
pub fn no_shades(rows: usize, cells: usize) -> (r: StripShades)
    requires
        rows * cells <= usize::MAX,
    ensures
        r.values@ == Seq::new((rows * cells) as nat, |i: int| None::<Real>),
        r.range_db is None,
        r.scale is None,
        r.level is None,
        r.src_t_cell_s is None,
        r.src_f_cell_hz is None,
{
    let n: usize = rows * cells;
    let mut values: Vec<Option<Real>> = Vec::new();
    let mut i: usize = 0;
    while i < n
        invariant
            i <= n,
            values@ == Seq::new(i as nat, |i: int| None::<Real>),
        decreases n - i,
    {
        values.push(None);
        assert(values@ =~= Seq::new((i + 1) as nat, |i: int| None::<Real>));
        i += 1;
    }
    StripShades {
        values,
        range_db: None,
        scale: None,
        level: None,
        src_t_cell_s: None,
        src_f_cell_hz: None,
    }
}

/// Whether a span can be served live, and why.
#[derive(Debug)]
pub struct Verdict {
    /// Its name.
    pub source: String,
    /// It can.
    pub live: bool,
    /// The reason in words.
    pub statement: String,
}

/// What `GET /api/coverage` asks for.
#[derive(Debug)]
pub struct CoverageQuery {
    /// Cells along frequency.
    pub cells: usize,
    /// Rows along time.
    pub rows: usize,
    /// The band.
    pub freq: Span,
    /// The window, ns.
    pub window: (i64, i64),
    /// Where the window came from.
    pub window_source: &'static str,
}

/// What a [`CoverageQuery`] holds.
#[verifier::ext_equal]
pub struct CoverageQueryV {
    /// Cells along frequency.
    pub cells: usize,
    /// Rows along time.
    pub rows: usize,
    /// The band.
    pub freq: Span,
    /// The window, ns.
    pub window: (i64, i64),
    /// Where the window came from.
    pub window_source: Seq<char>,
}

/// What a query or its refusal holds.
pub open spec fn coverage_query_result(r: Result<CoverageQuery, ApiError>) -> Result<
    CoverageQueryV,
    ApiErrorV,
> {
    match r {
        Ok(q) => Ok(
            CoverageQueryV {
                cells: q.cells,
                rows: q.rows,
                freq: q.freq,
                window: q.window,
                window_source: q.window_source@,
            },
        ),
        Err(e) => Err(e@),
    }
}

/// The parameters of `GET /api/coverage`.
pub open spec fn coverage_params() -> Seq<Seq<char>> {
    seq!["f_lo"@, "f_hi"@, "cells"@, "rows"@, "t0"@, "t1"@, "token"@]
}

/// Reads the query: a stray parameter is refused first, then the counts, the band and the window
/// in turn. `cells`, `rows` and `freq` are the readings of their own parameters.
pub open spec fn coverage_query_of(
    q: Seq<(Seq<char>, Seq<char>)>,
    cells: Result<usize, ApiErrorV>,
    rows: Result<usize, ApiErrorV>,
    freq: Result<Option<Span>, ApiErrorV>,
    asked: (i64, i64),
    capture: Option<(i64, i64)>,
) -> Result<CoverageQueryV, ApiErrorV> {
    match stray(q, coverage_params()) {
        Some(k) => Err(
            api_error_v(
                400,
                "unknown parameter "@ + debug_text(k)
                    + " (allowed: f_lo, f_hi, cells, rows, t0, t1)"@,
            ),
        ),
        None => match (cells, rows, freq) {
            (Err(e), _, _) => Err(e),
            (_, Err(e), _) => Err(e),
            (_, _, Err(e)) => Err(e),
            (Ok(_), Ok(_), Ok(None)) => Err(
                api_error_v(400, "f_lo and f_hi are required, in Hz"@),
            ),
            (Ok(cells), Ok(rows), Ok(Some(freq))) => match window_from(q, asked, capture) {
                Err(e) => Err(e),
                Ok((window, window_source)) => Ok(
                    CoverageQueryV { cells, rows, freq, window, window_source },
                ),
            },
        },
    }
}

/// [`coverage_query_of`].
pub fn coverage_query(
    q: &Vec<(String, String)>,
    cells: Result<usize, ApiError>,
    rows: Result<usize, ApiError>,
    freq: Result<Option<Span>, ApiError>,
    asked: (i64, i64),
    capture: Option<(i64, i64)>,
) -> (r: Result<CoverageQuery, ApiError>)
    ensures
        coverage_query_result(r) == coverage_query_of(
            pairs(q@),
            api_outcome(cells),
            api_outcome(rows),
            api_outcome(freq),
            asked,
            capture,
        ),
{
    let allowed = ["f_lo", "f_hi", "cells", "rows", "t0", "t1", "token"];
    assert(texts(allowed@) =~= coverage_params());
    if let Some(k) = find_stray(q, &allowed) {
        let quoted = debug(k);
        let m = String::from_str("unknown parameter ").concat(quoted.as_str()).concat(
            " (allowed: f_lo, f_hi, cells, rows, t0, t1)",
        );
        return Err(ApiError::of(400, m));
    }
    let cells = match cells {
        Ok(n) => n,
        Err(e) => return Err(e),
    };
    let rows = match rows {
        Ok(n) => n,
        Err(e) => return Err(e),
    };
    let freq = match freq {
        Ok(Some(f)) => f,
        Ok(None) => return Err(ApiError::new(400, "f_lo and f_hi are required, in Hz")),
        Err(e) => return Err(e),
    };
    match window_of(q, asked, capture) {
        Err(e) => Err(e),
        Ok((window, window_source)) => Ok(
            CoverageQuery { cells, rows, freq, window, window_source },
        ),
    }
}

/// What an answer of `GET /api/coverage` is made of.
pub struct CoverageAnswer {
    /// The query.
    pub query: CoverageQuery,
    /// The length of its window, ns.
    pub duration_ns: i64,
    /// The width of its band, Hz.
    pub width_hz: Real,
    /// The evidence.
    pub evidence: Evidence,
    /// The union of every front end.
    pub any: Grid,
    /// Each front end that sampled here, never merged.
    pub devices: Vec<Grid>,
    /// The levels.
    pub shades: StripShades,
    /// What a max-hold is, in words.
    pub max_hold_rule: String,
    /// Whether the band can be served live.
    pub verdict: Verdict,
    /// The widest band that can, Hz.
    pub max_live_span_hz: Option<Real>,
}

/// The range of the levels.
pub open spec fn range_v(range: Option<(Real, Real)>) -> JsonV {
    match range {
        Some((lo, hi)) => JsonV::Object(
            no_fields().push(("lo"@, real_v(lo))).push(("hi"@, real_v(hi))),
        ),
        None => JsonV::Null,
    }
}

fn range_json(range: Option<(Real, Real)>) -> (r: Json)
    ensures
        r.view() == range_v(range),
{
    match range {
        Some((lo, hi)) => {
            let mut f = Fields::new();
            f.put("lo", Json::double(lo));
            f.put("hi", Json::double(hi));
            f.object()
        },
        None => Json::Null,
    }
}

/// What a level means and against what.
pub open spec fn shade_v(a: CoverageAnswer) -> JsonV {
    JsonV::Object(
        no_fields().push(("fold"@, text_v("max-hold"@))).push(
            ("rule"@, text_v(a.max_hold_rule@)),
        ).push(
            (
                "statistic"@,
                text_v(
                    if a.any.shape.nt > 1 {
                        "max-hold over each time row, per (time, frequency) cell"@
                    } else {
                        "max-hold over the whole window, per frequency cell"@
                    },
                ),
            ),
        ).push(("scale"@, opt_text_v(opt_string(a.shades.scale)))).push(
            ("range_db"@, range_v(a.shades.range_db)),
        ).push(
            (
                "normalisation"@,
                text_v("0 at `range_db.lo`, 1 at `range_db.hi`, linear in dB and clamped"@),
            ),
        ).push(("level"@, level_v(a.shades.level))).push(
            ("src_t_cell_s"@, opt_real_v(a.shades.src_t_cell_s)),
        ).push(("src_f_cell_hz"@, opt_real_v(a.shades.src_f_cell_hz))).push(
            (
                "level_rule"@,
                text_v(
                    "the tier that ACTUALLY answered: the coarsest tier whose time cells are no larger than one drawn cell is preferred, and a populated finer tier answers when it is empty — so `src_t_cell_s` smaller than the drawn cell is more resolution than asked for, folded down, and never invented detail"@,
                ),
            ),
        ).push(
            (
                "unobserved"@,
                text_v(
                    "an unobserved cell carries no `shade` key: the max of nothing is unknown, not zero, and not the bottom of the scale"@,
                ),
            ),
        ),
    )
}

/// A tier.
pub open spec fn level_v(level: Option<u8>) -> JsonV {
    match level {
        Some(n) => uint_v(n as int),
        None => JsonV::Null,
    }
}

fn shade_json(a: &CoverageAnswer) -> (r: Json)
    ensures
        r.view() == shade_v(*a),
{
    let mut f = Fields::new();
    f.put("fold", Json::text("max-hold"));
    f.put("rule", Json::text(a.max_hold_rule.as_str()));
    f.put(
        "statistic",
        Json::text(
            if a.any.shape.nt > 1 {
                "max-hold over each time row, per (time, frequency) cell"
            } else {
                "max-hold over the whole window, per frequency cell"
            },
        ),
    );
    f.put("scale", Json::opt_text(&a.shades.scale));
    f.put("range_db", range_json(a.shades.range_db));
    f.put(
        "normalisation",
        Json::text("0 at `range_db.lo`, 1 at `range_db.hi`, linear in dB and clamped"),
    );
    f.put(
        "level",
        match a.shades.level {
            Some(n) => Json::uint(n as u64),
            None => Json::Null,
        },
    );
    f.put("src_t_cell_s", Json::opt_double(a.shades.src_t_cell_s));
    f.put("src_f_cell_hz", Json::opt_double(a.shades.src_f_cell_hz));
    f.put(
        "level_rule",
        Json::text(
            "the tier that ACTUALLY answered: the coarsest tier whose time cells are no larger than one drawn cell is preferred, and a populated finer tier answers when it is empty — so `src_t_cell_s` smaller than the drawn cell is more resolution than asked for, folded down, and never invented detail",
        ),
    );
    f.put(
        "unobserved",
        Json::text(
            "an unobserved cell carries no `shade` key: the max of nothing is unknown, not zero, and not the bottom of the scale",
        ),
    );
    f.object()
}

/// The grid that every list of cells is laid out on.
pub open spec fn layout_v(a: CoverageAnswer) -> JsonV {
    JsonV::Object(
        no_fields().push(("cells"@, uint_v(a.query.cells as int))).push(
            ("rows"@, uint_v(a.any.shape.nt as int)),
        ).push(("requested_rows"@, uint_v(a.query.rows as int))).push(
            ("f_lo_hz"@, real_v(a.any.shape.f_lo_hz)),
        ).push(("f_cell_hz"@, real_v(a.any.shape.f_cell_hz))).push(
            ("t0_s"@, scaled_v(a.any.shape.start)),
        ).push(("t_cell_s"@, scaled_v(a.any.shape.t_cell_ns))).push(
            (
                "order"@,
                text_v(
                    "row-major: cells[t * cells + f], earliest row first, low frequency first"@,
                ),
            ),
        ),
    )
}

fn layout_json(a: &CoverageAnswer) -> (r: Json)
    ensures
        r.view() == layout_v(*a),
{
    let mut f = Fields::new();
    f.put("cells", Json::uint(a.query.cells as u64));
    f.put("rows", Json::uint(a.any.shape.nt as u64));
    f.put("requested_rows", Json::uint(a.query.rows as u64));
    f.put("f_lo_hz", Json::double(a.any.shape.f_lo_hz));
    f.put("f_cell_hz", Json::double(a.any.shape.f_cell_hz));
    f.put("t0_s", Json::scaled(a.any.shape.start));
    f.put("t_cell_s", Json::scaled(a.any.shape.t_cell_ns));
    f.put(
        "order",
        Json::text("row-major: cells[t * cells + f], earliest row first, low frequency first"),
    );
    f.object()
}

/// Whether the band can be served live, and what the states and levels of the answer mean.
pub open spec fn resolution_v(a: CoverageAnswer) -> JsonV {
    JsonV::Object(
        no_fields().push(("source"@, text_v(a.verdict.source@))).push(
            ("live"@, JsonV::Bool(a.verdict.live)),
        ).push(("statement"@, text_v(a.verdict.statement@))).push(
            ("served_span_hz"@, real_v(a.width_hz)),
        ).push(("max_live_span_hz"@, opt_real_v(a.max_live_span_hz))).push(
            (
                "grey_rule"@,
                text_v(
                    "grey a cell if and only if its state is \"unobserved\"; \"unknown\" is not grey and not a level — draw it as a fourth thing (hatching, per T-413); \"excluded\" (T-595) is spectrum the radio DID sample and the analysis skipped — draw the measurement, mark it distinctly, never grey"@,
                ),
            ),
        ).push(
            (
                "shade_rule"@,
                text_v(
                    "shade is the max-hold over the window, normalised over `shade.range_db`; it never decides observed-versus-unobserved"@,
                ),
            ),
        ),
    )
}

fn resolution_json(a: &CoverageAnswer) -> (r: Json)
    ensures
        r.view() == resolution_v(*a),
{
    let mut f = Fields::new();
    f.put("source", Json::text(a.verdict.source.as_str()));
    f.put("live", Json::Bool(a.verdict.live));
    f.put("statement", Json::text(a.verdict.statement.as_str()));
    f.put("served_span_hz", Json::double(a.width_hz));
    f.put("max_live_span_hz", Json::opt_double(a.max_live_span_hz));
    f.put(
        "grey_rule",
        Json::text(
            "grey a cell if and only if its state is \"unobserved\"; \"unknown\" is not grey and not a level — draw it as a fourth thing (hatching, per T-413); \"excluded\" (T-595) is spectrum the radio DID sample and the analysis skipped — draw the measurement, mark it distinctly, never grey",
        ),
    );
    f.put(
        "shade_rule",
        Json::text(
            "shade is the max-hold over the window, normalised over `shade.range_db`; it never decides observed-versus-unobserved",
        ),
    );
    f.object()
}

/// The answer of `GET /api/coverage`.
pub open spec fn coverage_v(a: CoverageAnswer) -> JsonV {
    JsonV::Object(
        no_fields().push(
            (
                "region"@,
                JsonV::Object(
                    no_fields().push(("lo_hz"@, real_v(a.query.freq.lo))).push(
                        ("hi_hz"@, real_v(a.query.freq.hi)),
                    ),
                ),
            ),
        ).push(
            (
                "window"@,
                JsonV::Object(
                    no_fields().push(("t0_s"@, scaled_v(a.query.window.0))).push(
                        ("t1_s"@, scaled_v(a.query.window.1)),
                    ).push(("span_s"@, scaled_v(a.duration_ns))).push(
                        ("source"@, text_v(a.query.window_source@)),
                    ),
                ),
            ),
        ).push(("grid"@, layout_v(a))).push(
            (
                "devices"@,
                JsonV::Array(grids_v(a.evidence, a.devices@, Some(a.shades.values@))),
            ),
        ).push(
            (
                "any"@,
                grid_v(
                    a.any.shape,
                    a.any.cells@,
                    Some(a.shades.values@),
                    unknown_band(a.evidence.memory, a.evidence.log_available, a.any.shape),
                ),
            ),
        ).push(("horizon"@, horizon_v(a.evidence, a.any.shape))).push(
            ("shade"@, shade_v(a)),
        ).push(("sources"@, sources_v(a.evidence))).push(("resolution"@, resolution_v(a))),
    )
}

/// [`coverage_v`].
pub fn coverage_json(a: &CoverageAnswer) -> (r: Json)
    ensures
        r.view() == coverage_v(*a),
{
    let mut region = Fields::new();
    region.put("lo_hz", Json::double(a.query.freq.lo));
    region.put("hi_hz", Json::double(a.query.freq.hi));
    let mut window = Fields::new();
    window.put("t0_s", Json::scaled(a.query.window.0));
    window.put("t1_s", Json::scaled(a.query.window.1));
    window.put("span_s", Json::scaled(a.duration_ns));
    window.put("source", Json::text(a.query.window_source));
    let mut f = Fields::new();
    f.put("region", region.object());
    f.put("window", window.object());
    f.put("grid", layout_json(a));
    f.put("devices", grids_json(&a.evidence, &a.devices, Some(&a.shades.values)));
    f.put("any", one_grid_json(&a.evidence, &a.any, Some(&a.shades.values)));
    f.put("horizon", horizon_json(&a.evidence, &a.any.shape));
    f.put("shade", shade_json(a));
    f.put("sources", sources_json(&a.evidence));
    f.put("resolution", resolution_json(a));
    f.object()
}

/// The grid that a plane is laid out on, and whether it is the one asked for.
pub open spec fn plane_grid_v(g: Shape, nt: usize, nf: usize) -> JsonV {
    JsonV::Object(
        no_fields().push(("nt"@, uint_v(g.nt as int))).push(("nf"@, uint_v(g.nf as int))).push(
            ("t0_s"@, scaled_v(g.start)),
        ).push(("t_cell_s"@, scaled_v(g.t_cell_ns))).push(("f_lo_hz"@, real_v(g.f_lo_hz))).push(
            ("f_cell_hz"@, real_v(g.f_cell_hz)),
        ).push(("aligned"@, JsonV::Bool(g.nt == nt && g.nf == nf))).push(
            (
                "order"@,
                text_v(
                    "row-major: cells[t * nf + f], earliest row first, low frequency first — the same layout as `grid`"@,
                ),
            ),
        ),
    )
}

fn plane_grid_json(g: &Shape, nt: usize, nf: usize) -> (r: Json)
    ensures
        r.view() == plane_grid_v(*g, nt, nf),
{
    let mut f = Fields::new();
    f.put("nt", Json::uint(g.nt as u64));
    f.put("nf", Json::uint(g.nf as u64));
    f.put("t0_s", Json::scaled(g.start));
    f.put("t_cell_s", Json::scaled(g.t_cell_ns));
    f.put("f_lo_hz", Json::double(g.f_lo_hz));
    f.put("f_cell_hz", Json::double(g.f_cell_hz));
    f.put("aligned", Json::Bool(g.nt == nt && g.nf == nf));
    f.put(
        "order",
        Json::text(
            "row-major: cells[t * nf + f], earliest row first, low frequency first — the same layout as `grid`",
        ),
    );
    f.object()
}

/// What a record-derived plane says.
pub open spec fn record_rule() -> Seq<char> {
    "record-derived: whether the front end was TUNED to this cell, from the IQ ring journal and the observation log. `grid.coverage` is a different measurement — the fraction for which the spectrum-history pyramid still holds frames — and is 0 both where nothing looked and where the budget evicted what it saw. Grey is decided here: grey a cell if and only if its state is \"unobserved\" — \"excluded\" is sampled spectrum the analysis skipped (T-595), never grey."@
}

fn record_rule_json() -> (r: Json)
    ensures
        r.view() == text_v(record_rule()),
{
    Json::text(
        "record-derived: whether the front end was TUNED to this cell, from the IQ ring journal and the observation log. `grid.coverage` is a different measurement — the fraction for which the spectrum-history pyramid still holds frames — and is 0 both where nothing looked and where the budget evicted what it saw. Grey is decided here: grey a cell if and only if its state is \"unobserved\" — \"excluded\" is sampled spectrum the analysis skipped (T-595), never grey.",
    )
}

/// The coverage of a grid that someone else drew; its levels are elsewhere, so no cell has one.
pub open spec fn overlay_v(
    e: Evidence,
    any: Grid,
    devices: Seq<Grid>,
    columns: usize,
    rows: usize,
) -> JsonV {
    JsonV::Object(
        no_fields().push(("grid"@, plane_grid_v(any.shape, columns, rows))).push(
            ("devices"@, JsonV::Array(grids_v(e, devices, None))),
        ).push(
            (
                "any"@,
                grid_v(
                    any.shape,
                    any.cells@,
                    None,
                    unknown_band(e.memory, e.log_available, any.shape),
                ),
            ),
        ).push(("horizon"@, horizon_v(e, any.shape))).push(("sources"@, sources_v(e))).push(
            ("rule"@, text_v(record_rule())),
        ),
    )
}

/// [`overlay_v`].
pub fn overlay_json(
    e: &Evidence,
    any: &Grid,
    devices: &Vec<Grid>,
    columns: usize,
    rows: usize,
) -> (r: Json)
    ensures
        r.view() == overlay_v(*e, *any, devices@, columns, rows),
{
    let mut f = Fields::new();
    f.put("grid", plane_grid_json(&any.shape, columns, rows));
    f.put("devices", grids_json(e, devices, None));
    f.put("any", one_grid_json(e, any, None));
    f.put("horizon", horizon_json(e, &any.shape));
    f.put("sources", sources_json(e));
    f.put("rule", record_rule_json());
    f.object()
}

// ---------------------------------------------------------------------------------------------
// Rasters
// ---------------------------------------------------------------------------------------------

/// A tile's coverage reduced to shapes and state codes, with no horizon applied.
#[derive(Debug)]
pub struct Raster {
    /// The union's shape.
    pub any: Shape,
    /// Each front end's shape.
    pub devices: Vec<Shape>,
    /// The union's codes, in runs.
    pub any_runs: Vec<(u8, u32)>,
    /// Each front end's codes, in runs.
    pub device_runs: Vec<Vec<(u8, u32)>>,
}

/// The runs of a grid code each of its cells.
pub open spec fn runs_fit(g: Shape, runs: Seq<(u8, u32)>) -> bool {
    &&& kept(runs).len() == g.nt * g.nf
    &&& kept(runs).len() <= u32::MAX
    &&& valid_codes(kept(runs))
}

/// The runs of some planes together.
pub open spec fn runs_in(v: Seq<Vec<(u8, u32)>>) -> nat
    decreases v.len(),
{
    if v.len() == 0 {
        0
    } else {
        runs_in(v.drop_last()) + v.last()@.len()
    }
}

impl Raster {
    /// One plane for the union and one for each front end, each coding each of its cells.
    pub open spec fn wf(self) -> bool {
        &&& self.devices@.len() == self.device_runs@.len()
        &&& runs_fit(self.any, self.any_runs@)
        &&& forall|i: int|
            0 <= i < self.devices@.len() ==> runs_fit(
                #[trigger] self.devices@[i],
                self.device_runs@[i]@,
            )
    }

    /// How many runs it holds.
    pub open spec fn size(self) -> nat {
        self.any_runs@.len() + runs_in(self.device_runs@)
    }

    /// Whether it holds at most `max` runs, and how many where it does.
    pub fn runs(&self, max: usize) -> (r: Option<usize>)
        ensures
            r == (if self.size() <= max {
                Some(self.size() as usize)
            } else {
                None
            }),
    {
        let mut n: usize = self.any_runs.len();
        if n > max {
            return None;
        }
        let mut i: usize = 0;
        assert(self.device_runs@.take(0) =~= Seq::empty());
        while i < self.device_runs.len()
            invariant
                i <= self.device_runs@.len(),
                n <= max,
                n == self.any_runs@.len() + runs_in(self.device_runs@.take(i as int)),
            decreases self.device_runs@.len() - i,
        {
            proof {
                assert(self.device_runs@.take(i + 1).drop_last() =~= self.device_runs@.take(
                    i as int,
                ));
                runs_in_grows(self.device_runs@, i + 1);
            }
            let k = self.device_runs[i].len();
            if k > max - n {
                return None;
            }
            n += k;
            i += 1;
        }
        assert(self.device_runs@.take(self.device_runs@.len() as int) =~= self.device_runs@);
        Some(n)
    }
}

proof fn runs_in_grows(v: Seq<Vec<(u8, u32)>>, i: int)
    requires
        0 <= i <= v.len(),
    ensures
        runs_in(v.take(i)) <= runs_in(v),
    decreases v.len(),
{
    if i < v.len() {
        runs_in_grows(v.drop_last(), i);
        assert(v.drop_last().take(i) =~= v.take(i));
    } else {
        assert(v.take(i) =~= v);
    }
}

/// The union and every front end's grid, reduced to shapes and codes.
pub fn rasterise(any: Grid, devices: Vec<Grid>) -> (r: Raster)
    requires
        any.wf(),
        forall|i: int| 0 <= i < devices@.len() ==> (#[trigger] devices@[i]).wf(),
    ensures
        r.wf(),
        r.any == any.shape,
        kept(r.any_runs@) == codes_of(any.shape, any.cells@, (0, 0)),
        r.devices@.len() == devices@.len(),
        forall|i: int|
            0 <= i < devices@.len() ==> (#[trigger] r.devices@[i]).device@
                == devices@[i].shape.device@ && r.devices@[i] == (Shape {
                device: r.devices@[i].device,
                ..devices@[i].shape
            }) && kept(r.device_runs@[i]@) == codes_of(
                devices@[i].shape,
                devices@[i].cells@,
                (0, 0),
            ),
{
    let any_codes = state_codes(&any.shape, &any.cells, 0, 0);
    proof {
        few_codes_have_short_runs(any_codes@);
    }
    let any_runs = run_length(any_codes.as_slice());
    let mut shapes: Vec<Shape> = Vec::new();
    let mut device_runs: Vec<Vec<(u8, u32)>> = Vec::new();
    let mut i: usize = 0;
    while i < devices.len()
        invariant
            i <= devices@.len(),
            shapes@.len() == i,
            device_runs@.len() == i,
            forall|k: int| 0 <= k < devices@.len() ==> (#[trigger] devices@[k]).wf(),
            forall|k: int|
                0 <= k < i ==> (#[trigger] shapes@[k]).device@ == devices@[k].shape.device@
                    && shapes@[k] == (Shape { device: shapes@[k].device, ..devices@[k].shape })
                    && kept(device_runs@[k]@) == codes_of(
                    devices@[k].shape,
                    devices@[k].cells@,
                    (0, 0),
                ) && runs_fit(shapes@[k], device_runs@[k]@),
        decreases devices@.len() - i,
    {
        assert(devices@[i as int].wf());
        let codes = state_codes(&devices[i].shape, &devices[i].cells, 0, 0);
        proof {
            few_codes_have_short_runs(codes@);
        }
        device_runs.push(run_length(codes.as_slice()));
        shapes.push(devices[i].shape.copy());
        i += 1;
    }
    Raster { any: any.shape, devices: shapes, any_runs, device_runs }
}

/// The codes of a plane once the horizon is applied: an unobserved cell in the band is unknown;
/// one that was sampled is its own proof.
pub open spec fn past_horizon(g: Shape, codes: Seq<u8>, band: (nat, nat)) -> Seq<u8> {
    Seq::new(
        codes.len(),
        |i: int|
            if codes[i] == UNOBSERVED && beyond(g, band, i) {
                UNKNOWN
            } else {
                codes[i]
            },
    )
}

fn apply_horizon(g: &Shape, codes: Vec<u8>, from: usize, to: usize) -> (r: Vec<u8>)
    requires
        valid_codes(codes@),
    ensures
        r@ == past_horizon(*g, codes@, (from as nat, to as nat)),
        valid_codes(r@),
{
    let mut out: Vec<u8> = Vec::new();
    let ghost band = (from as nat, to as nat);
    let ghost want = past_horizon(*g, codes@, band);
    let mut i: usize = 0;
    assert(want.take(0) =~= Seq::empty());
    while i < codes.len()
        invariant
            i <= codes@.len(),
            band == (from as nat, to as nat),
            want == past_horizon(*g, codes@, band),
            valid_codes(codes@),
            out@ == want.take(i as int),
            valid_codes(out@),
        decreases codes@.len() - i,
    {
        let past = g.nf > 0 && from <= i / g.nf && i / g.nf < to;
        let c = codes[i];
        let x = if c == UNOBSERVED && past {
            UNKNOWN
        } else {
            c
        };
        assert(want.take(i + 1) =~= want.take(i as int).push(x));
        out.push(x);
        i += 1;
    }
    assert(want.take(codes@.len() as int) =~= want);
    out
}

/// Applying the horizon to codes that were made without one gives the codes made with it: a held
/// raster answers as a fresh one does, whatever the horizon has become.
pub proof fn horizon_applies_late(g: Shape, cells: Seq<Coverage>, band: (nat, nat))
    ensures
        past_horizon(g, codes_of(g, cells, (0, 0)), band) == codes_of(g, cells, band),
{
    assert(past_horizon(g, codes_of(g, cells, (0, 0)), band) =~= codes_of(g, cells, band));
}

/// The horizon never relabels a cell that was sampled, and makes no cell anything but unknown.
pub proof fn sampled_cells_keep_their_code(g: Shape, codes: Seq<u8>, band: (nat, nat), i: int)
    requires
        0 <= i < codes.len(),
    ensures
        codes[i] != UNOBSERVED ==> past_horizon(g, codes, band)[i] == codes[i],
        past_horizon(g, codes, band)[i] != codes[i] ==> past_horizon(g, codes, band)[i] == UNKNOWN
            && codes[i] == UNOBSERVED && beyond(g, band, i),
{
}

// ---------------------------------------------------------------------------------------------
// The compact planes of a tile
// ---------------------------------------------------------------------------------------------

/// The distinct planes among some, in the order in which each first stands.
pub open spec fn distinct(v: Seq<Seq<u8>>) -> Seq<Seq<u8>>
    decreases v.len(),
{
    if v.len() == 0 {
        Seq::empty()
    } else {
        let before = distinct(v.drop_last());
        if before.contains(v.last()) {
            before
        } else {
            before.push(v.last())
        }
    }
}

/// No plane stands twice among the distinct ones, and each of the given ones stands there.
pub proof fn distinct_planes_are_distinct(v: Seq<Seq<u8>>)
    ensures
        distinct(v).no_duplicates(),
        forall|i: int| 0 <= i < v.len() ==> distinct(v).contains(#[trigger] v[i]),
        forall|i: int| 0 <= i < distinct(v).len() ==> v.contains(#[trigger] distinct(v)[i]),
        v.len() > 0 ==> distinct(v).len() > 0 && distinct(v)[0] == v[0],
    decreases v.len(),
{
    if v.len() > 0 {
        let t = v.drop_last();
        let before = distinct(t);
        distinct_planes_are_distinct(t);
        assert forall|i: int| 0 <= i < v.len() implies distinct(v).contains(#[trigger] v[i]) by {
            if i < t.len() {
                assert(t[i] == v[i]);
                let k = choose|k: int| 0 <= k < before.len() && before[k] == t[i];
                assert(distinct(v)[k] == v[i]);
            } else if !before.contains(v.last()) {
                assert(distinct(v)[before.len() as int] == v[i]);
            }
        }
        assert forall|i: int| 0 <= i < distinct(v).len() implies v.contains(
            #[trigger] distinct(v)[i],
        ) by {
            if i < before.len() {
                assert(t.contains(before[i]));
                let k = choose|k: int| 0 <= k < t.len() && t[k] == before[i];
                assert(v[k] == distinct(v)[i]);
            } else {
                assert(v[v.len() - 1] == distinct(v)[i]);
            }
        }
        if t.len() > 0 {
            assert(t[0] == v[0]);
        }
    }
}

/// What some planes hold.
pub open spec fn planes_view(v: Seq<Vec<u8>>) -> Seq<Seq<u8>> {
    v.map_values(|p: Vec<u8>| p@)
}

fn same_codes(a: &Vec<u8>, b: &Vec<u8>) -> (r: bool)
    ensures
        r == (a@ == b@),
{
    if a.len() != b.len() {
        return false;
    }
    let mut i: usize = 0;
    while i < a.len()
        invariant
            i <= a@.len(),
            a@.len() == b@.len(),
            forall|k: int| 0 <= k < i ==> #[trigger] a@[k] == b@[k],
        decreases a@.len() - i,
    {
        if a[i] != b[i] {
            return false;
        }
        i += 1;
    }
    assert(a@ =~= b@);
    true
}

fn intern(planes: &mut Vec<Vec<u8>>, codes: Vec<u8>) -> (r: usize)
    ensures
        planes_view(final(planes)@) == (if planes_view(old(planes)@).contains(codes@) {
            planes_view(old(planes)@)
        } else {
            planes_view(old(planes)@).push(codes@)
        }),
        r < final(planes)@.len(),
        final(planes)@[r as int]@ == codes@,
        forall|i: int|
            0 <= i < old(planes)@.len() ==> final(planes)@[i]@ == (#[trigger] old(planes)@[i])@,
        old(planes)@.len() <= final(planes)@.len(),
{
    let ghost v = planes_view(planes@);
    let mut i: usize = 0;
    while i < planes.len()
        invariant
            i <= planes@.len(),
            planes@ == old(planes)@,
            v == planes_view(planes@),
            forall|k: int| 0 <= k < i ==> v[k] != codes@,
        decreases planes@.len() - i,
    {
        if same_codes(&planes[i], &codes) {
            assert(v[i as int] == codes@);
            return i;
        }
        assert(v[i as int] != codes@);
        i += 1;
    }
    let ghost c = codes@;
    planes.push(codes);
    assert(planes_view(planes@) =~= v.push(c));
    i
}

/// Which plane decides a tile's grey.
#[derive(Clone, Copy, Debug, PartialEq, Eq, Structural)]
pub enum Selected {
    /// This one.
    Plane(usize),
    /// A named front end with no plane here: it recorded nothing over this tile, which is an
    /// answer and not a missing one.
    AbsentDevice,
}

/// The coverage of a tile: every distinct plane once, with the union and each front end naming
/// the one that is theirs.
pub struct TileOverlay {
    /// The evidence.
    pub evidence: Evidence,
    /// The union's shape.
    pub any: Shape,
    /// Each front end's shape.
    pub devices: Vec<Shape>,
    /// The distinct planes.
    pub planes: Vec<Vec<u8>>,
    /// The union's plane.
    pub any_plane: usize,
    /// Each front end's plane.
    pub device_planes: Vec<usize>,
    /// Rows asked for.
    pub nt_asked: usize,
    /// Columns asked for.
    pub nf_asked: usize,
}

/// The codes that the planes are made of: the union's, then each front end's.
pub open spec fn tile_codes(e: Evidence, r: Raster) -> Seq<Seq<u8>> {
    Seq::new(
        r.devices@.len() + 1,
        |i: int|
            if i == 0 {
                past_horizon(
                    r.any,
                    kept(r.any_runs@),
                    unknown_band(e.memory, e.log_available, r.any),
                )
            } else {
                past_horizon(
                    r.devices@[i - 1],
                    kept(r.device_runs@[i - 1]@),
                    unknown_band(e.memory, e.log_available, r.devices@[i - 1]),
                )
            },
    )
}

/// The first front end of a name.
pub open spec fn device_index(devices: Seq<Shape>, name: Seq<char>) -> Option<nat>
    decreases devices.len(),
{
    if devices.len() == 0 {
        None
    } else {
        match device_index(devices.drop_last(), name) {
            Some(i) => Some(i),
            None => if devices.last().device@.label() == name {
                Some((devices.len() - 1) as nat)
            } else {
                None
            },
        }
    }
}

proof fn device_index_in_range(devices: Seq<Shape>, name: Seq<char>)
    ensures
        device_index(devices, name) matches Some(i) ==> i < devices.len()
            && devices[i as int].device@.label() == name,
    decreases devices.len(),
{
    if devices.len() > 0 {
        device_index_in_range(devices.drop_last(), name);
    }
}

fn codes_past(e: &Evidence, g: &Shape, runs: &Vec<(u8, u32)>) -> (r: Vec<u8>)
    requires
        runs_fit(*g, runs@),
    ensures
        r@ == past_horizon(*g, kept(runs@), unknown_band(e.memory, e.log_available, *g)),
        valid_codes(r@),
        r@.len() <= u32::MAX,
{
    let (from, to) = e.unknown_rows(g);
    apply_horizon(g, expand_runs(runs.as_slice()), from, to)
}

impl TileOverlay {
    /// The plane that an index names holds these codes.
    pub open spec fn holds(self, plane: usize, codes: Seq<u8>) -> bool {
        plane < self.planes@.len() && self.planes@[plane as int]@ == codes
    }

    /// Each index names a plane, and each plane's codes are codes.
    pub open spec fn wf(self) -> bool {
        &&& self.device_planes@.len() == self.devices@.len()
        &&& self.any_plane < self.planes@.len()
        &&& forall|i: int|
            0 <= i < self.device_planes@.len() ==> (#[trigger] self.device_planes@[i])
                < self.planes@.len()
        &&& forall|i: int|
            0 <= i < self.planes@.len() ==> valid_codes((#[trigger] self.planes@[i])@)
                && self.planes@[i]@.len() <= u32::MAX
        &&& self.any.nt * self.any.nf <= u32::MAX
    }

    /// Which plane decides for `device`: a named one is that front end's own and never the union.
    pub open spec fn selects(self, device: Seq<char>) -> Selected {
        if device == "any"@ {
            Selected::Plane(self.any_plane)
        } else {
            match device_index(self.devices@, device) {
                Some(i) => Selected::Plane(self.device_planes@[i as int]),
                None => Selected::AbsentDevice,
            }
        }
    }

    /// The codes that decide for `device`.
    pub open spec fn deciding(self, device: Seq<char>) -> Seq<u8> {
        match self.selects(device) {
            Selected::Plane(i) => self.planes@[i as int]@,
            Selected::AbsentDevice => Seq::new(
                (self.any.nt * self.any.nf) as nat,
                |i: int| UNOBSERVED,
            ),
        }
    }

    /// The overlay of a raster, with the horizon as it stands now.
    pub fn collect(evidence: Evidence, raster: &Raster, nt: usize, nf: usize) -> (r: TileOverlay)
        requires
            raster.wf(),
        ensures
            r.wf(),
            r.evidence == evidence,
            r.any.device@ == raster.any.device@,
            r.any == (Shape { device: r.any.device, ..raster.any }),
            r.devices@.len() == raster.devices@.len(),
            forall|i: int|
                0 <= i < r.devices@.len() ==> (#[trigger] r.devices@[i]).device@
                    == raster.devices@[i].device@ && r.devices@[i] == (Shape {
                    device: r.devices@[i].device,
                    ..raster.devices@[i]
                }),
            planes_view(r.planes@) == distinct(tile_codes(evidence, *raster)),
            r.holds(r.any_plane, tile_codes(evidence, *raster)[0]),
            forall|i: int|
                0 <= i < r.device_planes@.len() ==> r.holds(
                    #[trigger] r.device_planes@[i],
                    tile_codes(evidence, *raster)[i + 1],
                ),
            r.nt_asked == nt,
            r.nf_asked == nf,
    {
        let ghost all = tile_codes(evidence, *raster);
        let mut planes: Vec<Vec<u8>> = Vec::new();
        let first = codes_past(&evidence, &raster.any, &raster.any_runs);
        assert(first@ == all[0]);
        let ghost none = planes_view(planes@);
        assert(none =~= Seq::empty());
        let any_plane = intern(&mut planes, first);
        let mut device_planes: Vec<usize> = Vec::new();
        let mut devices: Vec<Shape> = Vec::new();
        proof {
            assert(all.take(1).drop_last() =~= Seq::empty());
            assert(all.take(1).last() == all[0]);
            reveal_with_fuel(distinct, 2);
            assert(planes_view(planes@) =~= distinct(all.take(1)));
        }
        let mut i: usize = 0;
        while i < raster.devices.len()
            invariant
                raster.wf(),
                all == tile_codes(evidence, *raster),
                i <= raster.devices@.len(),
                device_planes@.len() == i,
                devices@.len() == i,
                planes_view(planes@) == distinct(all.take(i + 1)),
                any_plane < planes@.len(),
                planes@[any_plane as int]@ == all[0],
                forall|k: int|
                    0 <= k < i ==> (#[trigger] devices@[k]).device@ == raster.devices@[k].device@
                        && devices@[k] == (Shape { device: devices@[k].device, ..raster.devices@[k] }),
                forall|k: int|
                    0 <= k < i ==> (#[trigger] device_planes@[k]) < planes@.len()
                        && planes@[device_planes@[k] as int]@ == all[k + 1],
                forall|k: int|
                    0 <= k < planes@.len() ==> valid_codes((#[trigger] planes@[k])@)
                        && planes@[k]@.len() <= u32::MAX,
            decreases raster.devices@.len() - i,
        {
            assert(runs_fit(raster.devices@[i as int], raster.device_runs@[i as int]@));
            let codes = codes_past(&evidence, &raster.devices[i], &raster.device_runs[i]);
            let ghost c = codes@;
            let ghost before = planes@;
            assert(c == all[i + 1]);
            let p = intern(&mut planes, codes);
            proof {
                assert(all.take(i + 2).drop_last() =~= all.take(i + 1));
                assert(all.take(i + 2).last() == c);
                assert forall|k: int| 0 <= k < planes@.len() implies valid_codes(
                    (#[trigger] planes@[k])@,
                ) && planes@[k]@.len() <= u32::MAX by {
                    assert(planes_view(planes@)[k] == planes@[k]@);
                    if k < before.len() {
                        assert(planes@[k]@ == before[k]@);
                    } else {
                        assert(planes_view(planes@).len() == before.len() + 1);
                        assert(planes_view(planes@)[k] == c);
                    }
                }
                assert forall|k: int| 0 <= k < i implies (#[trigger] device_planes@[k])
                    < planes@.len() && planes@[device_planes@[k] as int]@ == all[k + 1] by {
                    assert(before[device_planes@[k] as int]@ == all[k + 1]);
                }
                assert(before[any_plane as int]@ == all[0]);
            }
            device_planes.push(p);
            devices.push(raster.devices[i].copy());
            i += 1;
        }
        assert(all.take((raster.devices@.len() + 1) as int) =~= all);
        TileOverlay {
            evidence,
            any: raster.any.copy(),
            devices,
            planes,
            any_plane,
            device_planes,
            nt_asked: nt,
            nf_asked: nf,
        }
    }

    /// [`TileOverlay::selects`].
    pub fn selected(&self, device: &str) -> (r: Selected)
        requires
            self.wf(),
        ensures
            r == self.selects(device@),
            r matches Selected::Plane(i) ==> i < self.planes@.len(),
    {
        if same(device, "any") {
            return Selected::Plane(self.any_plane);
        }
        let mut i: usize = 0;
        assert(self.devices@.take(0) =~= Seq::empty());
        while i < self.devices.len()
            invariant
                self.wf(),
                device@ != "any"@,
                i <= self.devices@.len(),
                device_index(self.devices@.take(i as int), device@) is None,
            decreases self.devices@.len() - i,
        {
            proof {
                assert(self.devices@.take(i + 1).drop_last() =~= self.devices@.take(i as int));
            }
            if same(self.devices[i].device.as_str(), device) {
                proof {
                    device_index_stays(self.devices@, i + 1, device@);
                }
                let p = self.device_planes[i];
                assert(self.device_planes@[i as int] == p);
                return Selected::Plane(p);
            }
            i += 1;
        }
        assert(self.devices@.take(self.devices@.len() as int) =~= self.devices@);
        Selected::AbsentDevice
    }

    /// The one state of every cell that decides for `device`, where it is one: the same codes that
    /// the answer writes out, not a second opinion of them. A front end with no plane is
    /// unobserved throughout.
    pub fn uniform_state(&self, device: &str) -> (r: Option<&'static str>)
        requires
            self.wf(),
        ensures
            opt_text(r) == (match self.selects(device@) {
                Selected::Plane(_) => uniform_of(self.deciding(device@)),
                Selected::AbsentDevice => Some("unobserved"@),
            }),
    {
        match self.selected(device) {
            Selected::AbsentDevice => Some("unobserved"),
            Selected::Plane(i) => uniform(self.planes[i].as_slice()),
        }
    }

    /// The plane that decides for `device`, written out alone.
    pub open spec fn selected_plane_v(self, device: Seq<char>) -> JsonV {
        JsonV::Object(
            no_fields().push(("encoding"@, text_v("plane-rle"@))).push(
                ("states"@, JsonV::Array(text_items(states_v()))),
            ).push(("nt"@, uint_v(self.any.nt as int))).push(
                ("nf"@, uint_v(self.any.nf as int)),
            ).push(
                (
                    "aligned"@,
                    JsonV::Bool(self.any.nt == self.nt_asked && self.any.nf == self.nf_asked),
                ),
            ).push(
                ("present"@, JsonV::Bool(self.selects(device) != Selected::AbsentDevice)),
            ).push(
                ("plane"@, plane_v(self.deciding(device), runs_of(self.deciding(device)))),
            ),
        )
    }

    /// [`TileOverlay::selected_plane_v`].
    pub fn selected_plane_json(&self, device: &str) -> (r: Json)
        requires
            self.wf(),
        ensures
            r.view() == self.selected_plane_v(device@),
    {
        let s = self.selected(device);
        let (present, plane) = match s {
            Selected::Plane(i) => (true, plane_json(self.planes[i].as_slice())),
            Selected::AbsentDevice => {
                let absent = unobserved(&self.any);
                (false, plane_json(absent.as_slice()))
            },
        };
        let mut f = Fields::new();
        f.put("encoding", Json::text("plane-rle"));
        f.put("states", states_json());
        f.put("nt", Json::uint(self.any.nt as u64));
        f.put("nf", Json::uint(self.any.nf as u64));
        f.put(
            "aligned",
            Json::Bool(self.any.nt == self.nt_asked && self.any.nf == self.nf_asked),
        );
        f.put("present", Json::Bool(present));
        f.put("plane", plane);
        f.object()
    }

    /// The distinct planes, written out.
    pub open spec fn planes_v(self) -> Seq<JsonV> {
        Seq::new(
            self.planes@.len(),
            |i: int| plane_v(self.planes@[i]@, runs_of(self.planes@[i]@)),
        )
    }

    fn planes_json(&self) -> (r: Json)
        requires
            self.wf(),
        ensures
            r.view() == JsonV::Array(self.planes_v()),
    {
        let ghost want = self.planes_v();
        let mut out = Items::new();
        let mut i: usize = 0;
        assert(want.take(0) =~= Seq::empty());
        while i < self.planes.len()
            invariant
                self.wf(),
                i <= self.planes@.len(),
                want == self.planes_v(),
                out@ == want.take(i as int),
            decreases self.planes@.len() - i,
        {
            assert(valid_codes(self.planes@[i as int]@));
            let x = plane_json(self.planes[i].as_slice());
            assert(want.take(i + 1) =~= want.take(i as int).push(x.view()));
            out.push(x);
            i += 1;
        }
        assert(want.take(self.planes@.len() as int) =~= want);
        out.array()
    }

    /// The front ends, each naming its plane.
    pub open spec fn devices_v(self) -> Seq<JsonV> {
        Seq::new(
            self.devices@.len(),
            |i: int| owner_v(self.devices@[i].device@, self.device_planes@[i]),
        )
    }

    fn devices_json(&self) -> (r: Json)
        requires
            self.wf(),
        ensures
            r.view() == JsonV::Array(self.devices_v()),
    {
        let ghost want = self.devices_v();
        let mut out = Items::new();
        let mut i: usize = 0;
        assert(want.take(0) =~= Seq::empty());
        while i < self.devices.len()
            invariant
                self.wf(),
                i <= self.devices@.len(),
                want == self.devices_v(),
                out@ == want.take(i as int),
            decreases self.devices@.len() - i,
        {
            let x = owner_json(&self.devices[i].device, self.device_planes[i]);
            assert(want.take(i + 1) =~= want.take(i as int).push(x.view()));
            out.push(x);
            i += 1;
        }
        assert(want.take(self.devices@.len() as int) =~= want);
        out.array()
    }

    /// The compact coverage of a tile.
    pub open spec fn json_v(self, device: Seq<char>, named: bool) -> JsonV {
        JsonV::Object(
            no_fields().push(("encoding"@, text_v("plane-table-rle"@))).push(
                ("grid"@, plane_grid_v(self.any, self.nt_asked, self.nf_asked)),
            ).push(("states"@, JsonV::Array(text_items(states_v())))).push(
                ("planes"@, JsonV::Array(self.planes_v())),
            ).push(("any"@, owner_v(DeviceV::Any, self.any_plane))).push(
                ("devices"@, JsonV::Array(self.devices_v())),
            ).push(("selected"@, selected_v(device, named, self.selects(device)))).push(
                ("horizon"@, horizon_v(self.evidence, self.any)),
            ).push(("sources"@, sources_v(self.evidence))).push(
                ("rule"@, text_v(record_rule())),
            ).push(("encoding_rule"@, text_v(encoding_rule()))).push(
                ("per_cell_metadata"@, text_v(metadata_rule())),
            ),
        )
    }

    /// [`TileOverlay::json_v`].
    pub fn to_json(&self, device: &str, named: bool) -> (r: Json)
        requires
            self.wf(),
        ensures
            r.view() == self.json_v(device@, named),
    {
        let mut f = Fields::new();
        f.put("encoding", Json::text("plane-table-rle"));
        f.put("grid", plane_grid_json(&self.any, self.nt_asked, self.nf_asked));
        f.put("states", states_json());
        f.put("planes", self.planes_json());
        f.put("any", owner_json(&Device::Any, self.any_plane));
        f.put("devices", self.devices_json());
        f.put("selected", selected_json(device, named, self.selected(device)));
        f.put("horizon", horizon_json(&self.evidence, &self.any));
        f.put("sources", sources_json(&self.evidence));
        f.put("rule", record_rule_json());
        f.put(
            "encoding_rule",
            Json::text(
                "`planes[i].runs` is a flat [code, count, code, count, …] run-length encoding of that plane's cells in `grid.order`; the counts sum to `planes[i].cells` and each code indexes `states`. FOUR states, never two: \"unobserved\" (nothing looked), \"unknown\" (we no longer know whether we looked, T-423) and \"excluded\" (sampled, deliberately left out of analysis - the DC notch, T-595) are separate codes and none of them is \"observed\". No cell on this plane carries a measurement key of any kind, so there is nothing here a client can read as a level of zero — the measurement plane is `grid`, and it is separate on purpose.",
            ),
        );
        f.put(
            "per_cell_metadata",
            Json::text(
                "the per-cell sampling detail (`duty`, `observed_s`, `last_s`, `spans`, `center_hz`, `sample_rate_hz`) is NOT carried here (T-467): at ~146 B a cell it was 99 % of a tile's body to serve a field no renderer reads. It is a question about ONE cell, and `GET /api/coverage?f_lo&f_hi&t0&t1&cells&rows` answers it per cell, in the same three-state vocabulary.",
            ),
        );
        f.object()
    }
}

proof fn device_index_stays(devices: Seq<Shape>, n: int, name: Seq<char>)
    requires
        0 <= n <= devices.len(),
        device_index(devices.take(n), name) is Some,
    ensures
        device_index(devices, name) == device_index(devices.take(n), name),
    decreases devices.len(),
{
    if n < devices.len() {
        assert(devices.drop_last().take(n) =~= devices.take(n));
        device_index_stays(devices.drop_last(), n, name);
    } else {
        assert(devices.take(n) =~= devices);
    }
}

fn unobserved(g: &Shape) -> (r: Vec<u8>)
    requires
        g.nt * g.nf <= u32::MAX,
    ensures
        r@ == Seq::new((g.nt * g.nf) as nat, |i: int| UNOBSERVED),
        valid_codes(r@),
{
    assert(0 <= g.nt * g.nf) by (nonlinear_arith)
        requires
            0 <= g.nt,
            0 <= g.nf,
    ;
    let n: usize = g.nt * g.nf;
    let mut out: Vec<u8> = Vec::new();
    let mut i: usize = 0;
    while i < n
        invariant
            i <= n,
            out@ == Seq::new(i as nat, |i: int| UNOBSERVED),
        decreases n - i,
    {
        out.push(UNOBSERVED);
        assert(out@ =~= Seq::new((i + 1) as nat, |i: int| UNOBSERVED));
        i += 1;
    }
    out
}

/// Who a plane belongs to.
pub open spec fn owner_v(device: DeviceV, plane: usize) -> JsonV {
    JsonV::Object(
        no_fields().push(("device"@, text_v(device.label()))).push(
            ("named"@, JsonV::Bool(device is Id)),
        ).push(("plane"@, uint_v(plane as int))),
    )
}

fn owner_json(device: &Device, plane: usize) -> (r: Json)
    ensures
        r.view() == owner_v(device@, plane),
{
    let mut f = Fields::new();
    f.put("device", Json::text(device.as_str()));
    f.put("named", Json::Bool(device.is_named()));
    f.put("plane", Json::uint(plane as u64));
    f.object()
}

/// Which plane decides, and what that means.
pub open spec fn selected_v(device: Seq<char>, named: bool, s: Selected) -> JsonV {
    JsonV::Object(
        no_fields().push(("device"@, text_v(device))).push(("named"@, JsonV::Bool(named))).push(
            ("present"@, JsonV::Bool(s != Selected::AbsentDevice)),
        ).push(
            (
                "plane"@,
                match s {
                    Selected::Plane(i) => uint_v(i as int),
                    Selected::AbsentDevice => JsonV::Null,
                },
            ),
        ).push(
            (
                "rule"@,
                text_v(
                    "grey a cell of this tile if and only if the selected plane's state is \"unobserved\" - NOT \"excluded\", which is sampled spectrum the analysis skipped (T-595) and whose level must still be drawn. `any` is the union; a named device is that front end alone, and never the union."@,
                ),
            ),
        ),
    )
}

fn selected_json(device: &str, named: bool, s: Selected) -> (r: Json)
    ensures
        r.view() == selected_v(device@, named, s),
{
    let (present, plane) = match s {
        Selected::Plane(i) => (true, Json::uint(i as u64)),
        Selected::AbsentDevice => (false, Json::Null),
    };
    let mut f = Fields::new();
    f.put("device", Json::text(device));
    f.put("named", Json::Bool(named));
    f.put("present", Json::Bool(present));
    f.put("plane", plane);
    f.put(
        "rule",
        Json::text(
            "grey a cell of this tile if and only if the selected plane's state is \"unobserved\" - NOT \"excluded\", which is sampled spectrum the analysis skipped (T-595) and whose level must still be drawn. `any` is the union; a named device is that front end alone, and never the union.",
        ),
    );
    f.object()
}

/// How the planes are written.
pub open spec fn encoding_rule() -> Seq<char> {
    "`planes[i].runs` is a flat [code, count, code, count, …] run-length encoding of that plane's cells in `grid.order`; the counts sum to `planes[i].cells` and each code indexes `states`. FOUR states, never two: \"unobserved\" (nothing looked), \"unknown\" (we no longer know whether we looked, T-423) and \"excluded\" (sampled, deliberately left out of analysis - the DC notch, T-595) are separate codes and none of them is \"observed\". No cell on this plane carries a measurement key of any kind, so there is nothing here a client can read as a level of zero — the measurement plane is `grid`, and it is separate on purpose."@
}

/// Where the detail of one cell is served.
pub open spec fn metadata_rule() -> Seq<char> {
    "the per-cell sampling detail (`duty`, `observed_s`, `last_s`, `spans`, `center_hz`, `sample_rate_hz`) is NOT carried here (T-467): at ~146 B a cell it was 99 % of a tile's body to serve a field no renderer reads. It is a question about ONE cell, and `GET /api/coverage?f_lo&f_hi&t0&t1&cells&rows` answers it per cell, in the same three-state vocabulary."@
}

/// A named front end reads its own plane, as the codes it was rasterised to, and never the
/// union's.
pub proof fn a_named_device_reads_its_own_plane(
    o: TileOverlay,
    e: Evidence,
    r: Raster,
    i: int,
    name: Seq<char>,
)
    requires
        o.wf(),
        0 <= i < o.devices@.len(),
        name != "any"@,
        device_index(o.devices@, name) == Some(i as nat),
        o.holds(o.device_planes@[i], tile_codes(e, r)[i + 1]),
    ensures
        o.selects(name) == Selected::Plane(o.device_planes@[i]),
        o.deciding(name) == tile_codes(e, r)[i + 1],
{
}

// ---------------------------------------------------------------------------------------------
// Held rasters
// ---------------------------------------------------------------------------------------------

/// What a raster reads of one span.
#[derive(Debug)]
pub struct SpanKey {
    /// The front end.
    pub device: Device,
    /// The interval and the band are not empty.
    pub valid: bool,
    /// The interval within the window; none where it does not reach it.
    pub time: Option<(i64, i64)>,
    /// The band's bits.
    pub freq: (u64, u64),
    /// The samples were analysed.
    pub analysed: bool,
    /// The centre's bits.
    pub center_hz: u64,
    /// The rate's bits.
    pub sample_rate_hz: u64,
}

/// What a [`SpanKey`] holds.
#[verifier::ext_equal]
pub struct SpanKeyV {
    /// The front end.
    pub device: DeviceV,
    /// The interval and the band are not empty.
    pub valid: bool,
    /// The interval within the window.
    pub time: Option<(i64, i64)>,
    /// The band's bits.
    pub freq: (u64, u64),
    /// The samples were analysed.
    pub analysed: bool,
    /// The centre's bits.
    pub center_hz: u64,
    /// The rate's bits.
    pub sample_rate_hz: u64,
}

impl SpanKey {
    /// What it holds.
    pub open spec fn view(&self) -> SpanKeyV {
        SpanKeyV {
            device: self.device@,
            valid: self.valid,
            time: self.time,
            freq: self.freq,
            analysed: self.analysed,
            center_hz: self.center_hz,
            sample_rate_hz: self.sample_rate_hz,
        }
    }
}

/// Everything that a tile's raster is a function of: two tiles share one exactly where all of it
/// is equal.
#[derive(Debug)]
pub struct RasterKey {
    /// The band's bits.
    pub freq: (u64, u64),
    /// The window, ns.
    pub window: (i64, i64),
    /// Rows.
    pub nt: usize,
    /// Columns.
    pub nf: usize,
    /// The spans.
    pub spans: Vec<SpanKey>,
}

/// What a [`RasterKey`] holds.
#[verifier::ext_equal]
pub struct RasterKeyV {
    /// The band's bits.
    pub freq: (u64, u64),
    /// The window, ns.
    pub window: (i64, i64),
    /// Rows.
    pub nt: usize,
    /// Columns.
    pub nf: usize,
    /// The spans.
    pub spans: Seq<SpanKeyV>,
}

impl RasterKey {
    /// What it holds.
    pub open spec fn view(&self) -> RasterKeyV {
        RasterKeyV {
            freq: self.freq,
            window: self.window,
            nt: self.nt,
            nf: self.nf,
            spans: self.spans@.map_values(|s: SpanKey| s@),
        }
    }
}

/// The part of an interval inside a window.
pub open spec fn within(t0: i64, t1: i64, window: (i64, i64)) -> Option<(i64, i64)> {
    let a = if t0 >= window.0 {
        t0
    } else {
        window.0
    };
    let b = if t1 <= window.1 {
        t1
    } else {
        window.1
    };
    if b > a {
        Some((a, b))
    } else {
        None
    }
}

/// The key of one span.
pub open spec fn span_key(s: CoverageSpan, window: (i64, i64)) -> SpanKeyV {
    SpanKeyV {
        device: s.device@,
        valid: s.valid,
        time: within(s.t0, s.t1, window),
        freq: (s.freq.lo.bits, s.freq.hi.bits),
        analysed: s.analysed,
        center_hz: s.center_hz.bits,
        sample_rate_hz: s.sample_rate_hz.bits,
    }
}

/// The key of a tile.
pub open spec fn raster_key(
    spans: Seq<CoverageSpan>,
    freq: Span,
    window: (i64, i64),
    nt: usize,
    nf: usize,
) -> RasterKeyV {
    RasterKeyV {
        freq: (freq.lo.bits, freq.hi.bits),
        window,
        nt,
        nf,
        spans: Seq::new(spans.len(), |i: int| span_key(spans[i], window)),
    }
}

impl RasterKey {
    /// [`raster_key`].
    pub fn of(
        spans: &Vec<CoverageSpan>,
        freq: &Span,
        window: (i64, i64),
        nt: usize,
        nf: usize,
    ) -> (r: RasterKey)
        ensures
            r@ == raster_key(spans@, *freq, window, nt, nf),
    {
        let mut out: Vec<SpanKey> = Vec::new();
        let mut i: usize = 0;
        while i < spans.len()
            invariant
                i <= spans@.len(),
                out@.len() == i,
                forall|k: int| 0 <= k < i ==> (#[trigger] out@[k])@ == span_key(spans@[k], window),
            decreases spans@.len() - i,
        {
            let s = &spans[i];
            let a = if s.t0 >= window.0 {
                s.t0
            } else {
                window.0
            };
            let b = if s.t1 <= window.1 {
                s.t1
            } else {
                window.1
            };
            out.push(
                SpanKey {
                    device: s.device.copy(),
                    valid: s.valid,
                    time: if b > a {
                        Some((a, b))
                    } else {
                        None
                    },
                    freq: (s.freq.lo.bits, s.freq.hi.bits),
                    analysed: s.analysed,
                    center_hz: s.center_hz.bits,
                    sample_rate_hz: s.sample_rate_hz.bits,
                },
            );
            i += 1;
        }
        let r = RasterKey {
            freq: (freq.lo.bits, freq.hi.bits),
            window,
            nt,
            nf,
            spans: out,
        };
        assert(r@.spans =~= raster_key(spans@, *freq, window, nt, nf).spans);
        r
    }

    fn same(&self, other: &RasterKey) -> (r: bool)
        ensures
            r == (self@ == other@),
    {
        if self.freq.0 != other.freq.0 || self.freq.1 != other.freq.1 || self.window.0
            != other.window.0 || self.window.1 != other.window.1 || self.nt != other.nt || self.nf
            != other.nf {
            return false;
        }
        if self.spans.len() != other.spans.len() {
            assert(self@.spans.len() != other@.spans.len());
            return false;
        }
        let mut i: usize = 0;
        while i < self.spans.len()
            invariant
                i <= self.spans@.len(),
                self.spans@.len() == other.spans@.len(),
                forall|k: int| 0 <= k < i ==> (#[trigger] self.spans@[k])@ == other.spans@[k]@,
            decreases self.spans@.len() - i,
        {
            if !same_span(&self.spans[i], &other.spans[i]) {
                assert(self@.spans[i as int] != other@.spans[i as int]);
                return false;
            }
            i += 1;
        }
        assert(self@.spans =~= other@.spans);
        true
    }
}

fn same_device(a: &Device, b: &Device) -> (r: bool)
    ensures
        r == (a@ == b@),
{
    match (a, b) {
        (Device::Any, Device::Any) => true,
        (Device::Unknown, Device::Unknown) => true,
        (Device::Id(x), Device::Id(y)) => same(x.as_str(), y.as_str()),
        _ => false,
    }
}

fn same_time(a: Option<(i64, i64)>, b: Option<(i64, i64)>) -> (r: bool)
    ensures
        r == (a == b),
{
    match (a, b) {
        (None, None) => true,
        (Some((p, q)), Some((x, y))) => p == x && q == y,
        _ => false,
    }
}

fn same_span(a: &SpanKey, b: &SpanKey) -> (r: bool)
    ensures
        r == (a@ == b@),
{
    same_device(&a.device, &b.device) && a.valid == b.valid && same_time(a.time, b.time)
        && a.freq.0 == b.freq.0 && a.freq.1 == b.freq.1 && a.analysed == b.analysed && a.center_hz
        == b.center_hz && a.sample_rate_hz == b.sample_rate_hz
}

/// Rasters held at most.
pub const MAX_ENTRIES: usize = 2048;

/// Runs held at most across every raster.
pub const MAX_RUNS: usize = 1_048_576;

/// A raster that is held.
pub struct Held {
    /// What it is the raster of.
    pub key: RasterKey,
    /// The raster.
    pub raster: Raster,
}

/// What the held rasters are, the least recently used first.
#[verifier::ext_equal]
pub struct MemoV {
    /// The rasters, each under its key.
    pub entries: Seq<(RasterKeyV, Raster)>,
    /// The runs they hold together.
    pub runs: nat,
    /// Rasterisations made.
    pub rasterisations: u64,
    /// Requests answered from a held raster.
    pub hits: u64,
}

/// The runs of some entries together.
pub open spec fn runs_held(v: Seq<(RasterKeyV, Raster)>) -> nat
    decreases v.len(),
{
    if v.len() == 0 {
        0
    } else {
        v[0].1.size() + runs_held(v.skip(1))
    }
}

/// Where a key stands: the length where it does not.
pub open spec fn entry_of(v: Seq<(RasterKeyV, Raster)>, key: RasterKeyV) -> int
    decreases v.len(),
{
    if v.len() == 0 {
        0
    } else if v[0].0 == key {
        0
    } else {
        1 + entry_of(v.skip(1), key)
    }
}

/// The raster held under a key.
pub open spec fn raster_under(v: Seq<(RasterKeyV, Raster)>, key: RasterKeyV) -> Option<Raster> {
    if entry_of(v, key) < v.len() {
        Some(v[entry_of(v, key)].1)
    } else {
        None
    }
}

/// The entries without those of a key.
pub open spec fn without_key(v: Seq<(RasterKeyV, Raster)>, key: RasterKeyV) -> Seq<
    (RasterKeyV, Raster),
> {
    if entry_of(v, key) < v.len() {
        v.remove(entry_of(v, key))
    } else {
        v
    }
}

/// The entries that stay once the least recently used have made room.
pub open spec fn trimmed(v: Seq<(RasterKeyV, Raster)>) -> Seq<(RasterKeyV, Raster)>
    decreases v.len(),
{
    if v.len() > 0 && (v.len() > MAX_ENTRIES || runs_held(v) > MAX_RUNS) {
        trimmed(v.skip(1))
    } else {
        v
    }
}

/// No key stands twice.
pub open spec fn distinct_keys(v: Seq<(RasterKeyV, Raster)>) -> bool {
    forall|i: int, j: int|
        0 <= i < j < v.len() ==> (#[trigger] v[i]).0 != (#[trigger] v[j]).0
}

/// What some held rasters are.
pub open spec fn held_view(v: Seq<Held>) -> Seq<(RasterKeyV, Raster)> {
    v.map_values(|h: Held| (h.key@, h.raster))
}

impl MemoV {
    /// What every operation keeps: no key twice, the runs counted, and both bounds.
    pub open spec fn wf(self) -> bool {
        &&& distinct_keys(self.entries)
        &&& self.entries.len() <= MAX_ENTRIES
        &&& self.runs == runs_held(self.entries)
        &&& self.runs <= MAX_RUNS
    }

    /// After a request for `key`: the entry, where there is one, is the most recently used.
    pub open spec fn looked_up(self, key: RasterKeyV) -> MemoV {
        match raster_under(self.entries, key) {
            Some(r) => MemoV {
                entries: without_key(self.entries, key).push((key, r)),
                hits: (self.hits + 1) as u64,
                ..self
            },
            None => self,
        }
    }

    /// After a raster was made for `key`: it is held, unless it alone is over the bound.
    pub open spec fn inserted(self, key: RasterKeyV, r: Raster) -> MemoV {
        let entries = if r.size() <= MAX_RUNS {
            trimmed(without_key(self.entries, key).push((key, r)))
        } else {
            self.entries
        };
        MemoV {
            entries,
            runs: runs_held(entries),
            rasterisations: (self.rasterisations + 1) as u64,
            ..self
        }
    }
}

proof fn entry_of_is_first(v: Seq<(RasterKeyV, Raster)>, key: RasterKeyV)
    ensures
        0 <= entry_of(v, key) <= v.len(),
        entry_of(v, key) < v.len() ==> v[entry_of(v, key)].0 == key,
        forall|i: int| 0 <= i < entry_of(v, key) ==> (#[trigger] v[i]).0 != key,
    decreases v.len(),
{
    if v.len() > 0 && v[0].0 != key {
        entry_of_is_first(v.skip(1), key);
        assert forall|i: int| 0 <= i < entry_of(v, key) implies (#[trigger] v[i]).0 != key by {
            if i > 0 {
                assert(v.skip(1)[i - 1].0 != key);
            }
        }
    }
}

proof fn entry_of_unique(v: Seq<(RasterKeyV, Raster)>, key: RasterKeyV, i: int)
    requires
        0 <= i < v.len(),
        v[i].0 == key,
        forall|k: int| 0 <= k < i ==> (#[trigger] v[k]).0 != key,
    ensures
        entry_of(v, key) == i,
{
    entry_of_is_first(v, key);
    let e = entry_of(v, key);
    if e < i {
        assert(v[e].0 != key);
    } else if e > i {
        assert(v[i].0 != key);
    }
}

proof fn runs_held_remove(v: Seq<(RasterKeyV, Raster)>, i: int)
    requires
        0 <= i < v.len(),
    ensures
        runs_held(v) == v[i].1.size() + runs_held(v.remove(i)),
    decreases v.len(),
{
    if i == 0 {
        assert(v.remove(0) =~= v.skip(1));
    } else {
        runs_held_remove(v.skip(1), i - 1);
        assert(v.remove(i).skip(1) =~= v.skip(1).remove(i - 1));
        assert(v.remove(i)[0] == v[0]);
    }
}

proof fn runs_held_push(v: Seq<(RasterKeyV, Raster)>, x: (RasterKeyV, Raster))
    ensures
        runs_held(v.push(x)) == runs_held(v) + x.1.size(),
    decreases v.len(),
{
    reveal_with_fuel(runs_held, 2);
    if v.len() > 0 {
        runs_held_push(v.skip(1), x);
        assert(v.push(x).skip(1) =~= v.skip(1).push(x));
    } else {
        assert(v.push(x).skip(1) =~= Seq::empty());
    }
}

proof fn trimmed_keeps(v: Seq<(RasterKeyV, Raster)>)
    requires
        distinct_keys(v),
        v.len() > 0 ==> v.last().1.size() <= MAX_RUNS,
    ensures
        distinct_keys(trimmed(v)),
        trimmed(v).len() <= MAX_ENTRIES,
        runs_held(trimmed(v)) <= MAX_RUNS,
        v.len() > 0 ==> trimmed(v).len() > 0 && trimmed(v).last() == v.last(),
        forall|i: int| 0 <= i < trimmed(v).len() ==> v.contains(#[trigger] trimmed(v)[i]),
    decreases v.len(),
{
    if v.len() > 0 && (v.len() > MAX_ENTRIES || runs_held(v) > MAX_RUNS) {
        let t = v.skip(1);
        if v.len() == 1 {
            assert(t =~= Seq::empty());
            assert(runs_held(t) == 0);
            assert(v[0] == v.last());
        }
        assert forall|i: int, j: int| 0 <= i < j < t.len() implies (#[trigger] t[i]).0 != (
        #[trigger] t[j]).0 by {
            assert(v[i + 1].0 != v[j + 1].0);
        }
        trimmed_keeps(t);
        assert forall|i: int| 0 <= i < trimmed(v).len() implies v.contains(
            #[trigger] trimmed(v)[i],
        ) by {
            assert(t.contains(trimmed(t)[i]));
            let k = choose|k: int| 0 <= k < t.len() && t[k] == trimmed(t)[i];
            assert(v[k + 1] == trimmed(v)[i]);
        }
    }
}

proof fn without_key_is_distinct(v: Seq<(RasterKeyV, Raster)>, key: RasterKeyV, r: Raster)
    requires
        distinct_keys(v),
    ensures
        distinct_keys(without_key(v, key).push((key, r))),
{
    entry_of_is_first(v, key);
    let w = without_key(v, key);
    let e = entry_of(v, key);
    let x = w.push((key, r));
    assert forall|i: int, j: int| 0 <= i < j < x.len() implies (#[trigger] x[i]).0 != (
    #[trigger] x[j]).0 by {
        let pi = if e < v.len() && i >= e {
            i + 1
        } else {
            i
        };
        assert(w[i] == v[pi]);
        if j < w.len() {
            let pj = if e < v.len() && j >= e {
                j + 1
            } else {
                j
            };
            assert(w[j] == v[pj]);
            assert(v[pi].0 != v[pj].0);
        } else if e < v.len() {
            if pi < e {
                assert(v[pi].0 != key);
            } else {
                assert(v[e].0 != v[pi].0);
            }
        } else {
            assert(v[pi].0 != key);
        }
    }
}

/// A request answers only with the raster that was made for an equal key, and every operation
/// keeps the bounds.
pub proof fn memo_stays_true(m: MemoV, key: RasterKeyV, r: Raster, other: RasterKeyV)
    requires
        m.wf(),
    ensures
        m.looked_up(key).wf(),
        m.inserted(key, r).wf(),
        r.size() <= MAX_RUNS ==> raster_under(m.inserted(key, r).entries, key) == Some(r),
        raster_under(m.looked_up(key).entries, key) == raster_under(m.entries, key),
        other != key && raster_under(m.inserted(key, r).entries, other) is Some ==> raster_under(
            m.inserted(key, r).entries,
            other,
        ) == raster_under(m.entries, other),
        raster_under(m.looked_up(key).entries, other) == raster_under(m.entries, other),
{
    let v = m.entries;
    let e = entry_of(v, key);
    entry_of_is_first(v, key);
    let w = without_key(v, key);
    without_key_is_distinct(v, key, r);
    let x = w.push((key, r));
    assert(x.last() == (key, r));
    if r.size() <= MAX_RUNS {
        trimmed_keeps(x);
        let t = trimmed(x);
        assert(t[t.len() - 1].0 == key);
        assert forall|k: int| 0 <= k < t.len() - 1 implies (#[trigger] t[k]).0 != key by {
            assert(t[k].0 != t[t.len() - 1].0);
        }
        entry_of_unique(t, key, t.len() - 1);
        if other != key {
            entry_of_is_first(t, other);
            let o = entry_of(t, other);
            if o < t.len() {
                assert(x.contains(t[o]));
                let k = choose|k: int| 0 <= k < x.len() && x[k] == t[o];
                found_without(v, key, other, r, k);
            }
        }
    }
    if e < v.len() {
        let held = v[e].1;
        without_key_is_distinct(v, key, held);
        let y = w.push((key, held));
        runs_held_remove(v, e);
        runs_held_push(w, (key, held));
        assert forall|k: int| 0 <= k < y.len() - 1 implies (#[trigger] y[k]).0 != key by {
            assert(y[k].0 != y[y.len() - 1].0);
        }
        entry_of_unique(y, key, y.len() - 1);
        if other != key {
            entry_of_is_first(y, other);
            entry_of_is_first(v, other);
            let o = entry_of(y, other);
            if o < y.len() {
                found_without(v, key, other, held, o);
            } else {
                let p = entry_of(v, other);
                if p < v.len() {
                    let q = if p > e {
                        p - 1
                    } else {
                        p
                    };
                    assert(w[q] == v[p]);
                    assert(y[q].0 == other);
                }
            }
        }
    }
}

proof fn found_without(
    v: Seq<(RasterKeyV, Raster)>,
    key: RasterKeyV,
    other: RasterKeyV,
    r: Raster,
    k: int,
)
    requires
        distinct_keys(v),
        other != key,
        0 <= k < without_key(v, key).push((key, r)).len(),
        without_key(v, key).push((key, r))[k].0 == other,
    ensures
        raster_under(v, other) == Some(without_key(v, key).push((key, r))[k].1),
{
    let w = without_key(v, key);
    let e = entry_of(v, key);
    entry_of_is_first(v, key);
    assert(k < w.len());
    let p = if e < v.len() && k >= e {
        k + 1
    } else {
        k
    };
    assert(w[k] == v[p]);
    assert forall|i: int| 0 <= i < p implies (#[trigger] v[i]).0 != other by {
        assert(v[i].0 != v[p].0);
    }
    entry_of_unique(v, other, p);
}

/// The rasters that are held between requests. An entry is used again only where the tune history
/// says exactly the same of the tile; there is no timer.
pub struct CoverageRasterMemo {
    entries: Vec<Held>,
    runs: usize,
    rasterisations: u64,
    hits: u64,
}

impl CoverageRasterMemo {
    /// What it holds.
    pub closed spec fn view(&self) -> MemoV {
        MemoV {
            entries: held_view(self.entries@),
            runs: self.runs as nat,
            rasterisations: self.rasterisations,
            hits: self.hits,
        }
    }

    /// What every operation keeps.
    pub closed spec fn wf(self) -> bool {
        self@.wf()
    }

    /// An invariant of the held rasters.
    pub proof fn holds(self)
        requires
            self.wf(),
        ensures
            self@.wf(),
    {
    }

    /// Holds nothing yet.
    pub fn new() -> (r: CoverageRasterMemo)
        ensures
            r.wf(),
            r@ == (MemoV { entries: Seq::empty(), runs: 0, rasterisations: 0, hits: 0 }),
    {
        let r = CoverageRasterMemo { entries: Vec::new(), runs: 0, rasterisations: 0, hits: 0 };
        assert(held_view(r.entries@) =~= Seq::empty());
        r
    }

    /// Rasterisations made.
    pub fn rasterisations(&self) -> (r: u64)
        ensures
            r == self@.rasterisations,
    {
        self.rasterisations
    }

    /// Requests answered from a held raster.
    pub fn hits(&self) -> (r: u64)
        ensures
            r == self@.hits,
    {
        self.hits
    }

    fn find(&self, key: &RasterKey) -> (r: usize)
        ensures
            r == entry_of(held_view(self.entries@), key@),
            r <= self.entries@.len(),
    {
        let ghost v = held_view(self.entries@);
        let mut i: usize = 0;
        while i < self.entries.len()
            invariant
                v == held_view(self.entries@),
                i <= self.entries@.len(),
                forall|k: int| 0 <= k < i ==> (#[trigger] v[k]).0 != key@,
            decreases self.entries@.len() - i,
        {
            if self.entries[i].key.same(key) {
                assert(v[i as int].0 == key@);
                proof {
                    entry_of_unique(v, key@, i as int);
                }
                return i;
            }
            assert(v[i as int].0 != key@);
            i += 1;
        }
        proof {
            entry_of_is_first(v, key@);
            let e = entry_of(v, key@);
            if e < v.len() {
                assert(v[e].0 != key@);
            }
        }
        i
    }

    /// Looks a raster up: where one is held it is now the most recently used.
    pub fn lookup(&mut self, key: &RasterKey) -> (r: bool)
        requires
            old(self).wf(),
            old(self)@.hits < u64::MAX,
        ensures
            final(self).wf(),
            final(self)@ == old(self)@.looked_up(key@),
            r == raster_under(old(self)@.entries, key@) is Some,
    {
        let ghost m = self@;
        let i = self.find(key);
        if i >= self.entries.len() {
            return false;
        }
        proof {
            entry_of_is_first(m.entries, key@);
            memo_stays_true(m, key@, m.entries[i as int].1, key@);
            runs_held_remove(m.entries, i as int);
            runs_held_push(without_key(m.entries, key@), (key@, m.entries[i as int].1));
        }
        let h = self.entries.remove(i);
        assert(held_view(self.entries@) =~= m.entries.remove(i as int));
        let ghost w = held_view(self.entries@);
        self.entries.push(h);
        assert(held_view(self.entries@) =~= w.push((h.key@, h.raster)));
        self.hits = self.hits + 1;
        assert(self@.entries == m.looked_up(key@).entries);
        true
    }

    /// The most recently used raster.
    pub fn newest(&self) -> (r: Option<&Raster>)
        ensures
            r is Some <==> self@.entries.len() > 0,
            r matches Some(x) ==> *x == self@.entries.last().1,
    {
        let n = self.entries.len();
        if n == 0 {
            None
        } else {
            assert(self@.entries.last() == (self.entries@.last().key@, self.entries@.last().raster));
            Some(&self.entries[n - 1].raster)
        }
    }

    /// Holds the raster that was made for a key, letting the least recently used ones go. One that
    /// alone is over the bound is handed back.
    pub fn insert(&mut self, key: RasterKey, raster: Raster) -> (r: Option<Raster>)
        requires
            old(self).wf(),
            old(self)@.rasterisations < u64::MAX,
        ensures
            final(self).wf(),
            final(self)@ == old(self)@.inserted(key@, raster),
            r == (if raster.size() <= MAX_RUNS {
                None
            } else {
                Some(raster)
            }),
            r is None ==> final(self)@.entries.len() > 0 && final(self)@.entries.last().1
                == raster,
    {
        let ghost m = self@;
        let ghost k = key@;
        self.rasterisations = self.rasterisations + 1;
        let n = match raster.runs(MAX_RUNS) {
            Some(n) => n,
            None => {
                return Some(raster);
            },
        };
        proof {
            memo_stays_true(m, k, raster, k);
            entry_of_is_first(m.entries, k);
            without_key_is_distinct(m.entries, k, raster);
            trimmed_keeps(without_key(m.entries, k).push((k, raster)));
        }
        let i = self.find(&key);
        if i < self.entries.len() {
            proof {
                runs_held_remove(m.entries, i as int);
            }
            let old_entry = self.entries.remove(i);
            assert(held_view(self.entries@) =~= m.entries.remove(i as int));
            let gone = match old_entry.raster.runs(MAX_RUNS) {
                Some(x) => x,
                None => 0,
            };
            self.runs = self.runs - gone;
        }
        let ghost w = held_view(self.entries@);
        assert(w == without_key(m.entries, k));
        proof {
            runs_held_push(w, (k, raster));
        }
        self.entries.push(Held { key, raster });
        assert(held_view(self.entries@) =~= w.push((k, raster)));
        let ghost full = w.push((k, raster));
        self.runs = self.runs + n;
        self.trim();
        assert(self@.entries == trimmed(full));
        None
    }

    fn trim(&mut self)
        requires
            old(self).runs == runs_held(held_view(old(self).entries@)),
        ensures
            held_view(final(self).entries@) == trimmed(held_view(old(self).entries@)),
            final(self).runs == runs_held(held_view(final(self).entries@)),
            final(self).hits == old(self).hits,
            final(self).rasterisations == old(self).rasterisations,
    {
        let ghost goal = trimmed(held_view(self.entries@));
        while self.entries.len() > 0 && (self.entries.len() > MAX_ENTRIES || self.runs > MAX_RUNS)
            invariant
                trimmed(held_view(self.entries@)) == goal,
                self.runs == runs_held(held_view(self.entries@)),
                self.hits == old(self).hits,
                self.rasterisations == old(self).rasterisations,
            decreases self.entries@.len(),
        {
            let ghost v = held_view(self.entries@);
            proof {
                runs_held_remove(v, 0);
                assert(v.remove(0) =~= v.skip(1));
            }
            let gone = self.entries.remove(0);
            assert(held_view(self.entries@) =~= v.skip(1));
            let all = self.runs;
            let k = match gone.raster.runs(all) {
                Some(x) => x,
                None => 0,
            };
            self.runs = all - k;
        }
    }
}

/// Which front end a name means: the first whose label it is; none where it is nobody's.
pub proof fn a_name_means_the_first_so_labelled(devices: Seq<Shape>, name: Seq<char>)
    ensures
        device_index(devices, name) matches Some(i) ==> i < devices.len()
            && devices[i as int].device@.label() == name && forall|k: int|
            0 <= k < i ==> (#[trigger] devices[k]).device@.label() != name,
        device_index(devices, name) is None ==> forall|k: int|
            0 <= k < devices.len() ==> (#[trigger] devices[k]).device@.label() != name,
    decreases devices.len(),
{
    if devices.len() > 0 {
        let t = devices.drop_last();
        a_name_means_the_first_so_labelled(t, name);
        assert(devices[devices.len() - 1] == devices.last());
        assert forall|k: int| 0 <= k < t.len() implies t[k] == #[trigger] devices[k] by {}
        if device_index(t, name) is None {
            assert forall|k: int| 0 <= k < t.len() implies (
            #[trigger] devices[k]).device@.label() != name by {
                assert(t[k].device@.label() != name);
            }
        } else {
            let i = device_index(t, name)->0;
            assert(t[i as int] == devices[i as int]);
            assert forall|k: int| 0 <= k < i implies (#[trigger] devices[k]).device@.label()
                != name by {
                assert(t[k].device@.label() != name);
            }
        }
    }
}

/// Which plane decides: the union's for everyone, a front end's own for it alone, and for one that
/// looked at nothing here a plane on which nothing was observed.
pub proof fn the_deciding_plane_is_the_named_one(o: TileOverlay, name: Seq<char>)
    requires
        o.wf(),
    ensures
        name == "any"@ ==> o.deciding(name) == o.planes@[o.any_plane as int]@,
        name != "any"@ ==> (forall|i: int|
            0 <= i < o.devices@.len() && (#[trigger] o.devices@[i]).device@.label() == name && (
            forall|k: int| 0 <= k < i ==> (#[trigger] o.devices@[k]).device@.label() != name)
                ==> o.deciding(name) == o.planes@[o.device_planes@[i] as int]@),
        name != "any"@ && (forall|k: int|
            0 <= k < o.devices@.len() ==> (#[trigger] o.devices@[k]).device@.label() != name)
            ==> o.selects(name) is AbsentDevice && o.deciding(name).len() == o.any.nt * o.any.nf
            && forall|i: int|
            0 <= i < o.deciding(name).len() ==> #[trigger] o.deciding(name)[i] == 0,
{
    a_name_means_the_first_so_labelled(o.devices@, name);
    assert forall|i: int|
        name != "any"@ && 0 <= i < o.devices@.len() && (
        #[trigger] o.devices@[i]).device@.label() == name && (forall|k: int|
            0 <= k < i ==> (#[trigger] o.devices@[k]).device@.label() != name) implies o.deciding(
        name,
    ) == o.planes@[o.device_planes@[i] as int]@ by {
        let j = device_index(o.devices@, name)->0;
        if j < i {
            assert(o.devices@[j as int].device@.label() != name);
        }
    }
}

/// The codes of a tile: what was not sampled and lies past the record horizon is unknown; every other
/// code stays.
pub proof fn tiles_forget_only_what_was_not_sampled(e: Evidence, r: Raster, plane: int, i: int)
    requires
        0 <= plane <= r.devices@.len(),
        0 <= i < tile_codes(e, r)[plane].len(),
    ensures
        ({
            let g = if plane == 0 {
                r.any
            } else {
                r.devices@[plane - 1]
            };
            let was = if plane == 0 {
                kept(r.any_runs@)
            } else {
                kept(r.device_runs@[plane - 1]@)
            };
            let (from, to) = unknown_band(e.memory, e.log_available, g);
            let lost = g.nf > 0 && from <= i / g.nf as int && i / (g.nf as int) < to;
            &&& tile_codes(e, r)[plane].len() == was.len()
            &&& tile_codes(e, r)[plane][i] == (if was[i] == 0 && lost {
                2u8
            } else {
                was[i]
            })
        }),
{
}

/// The part of a span inside a window is the instants that lie in both; none where there is none.
pub proof fn a_span_is_cut_to_the_window(t0: i64, t1: i64, window: (i64, i64), t: int)
    ensures
        t0 <= t < t1 && window.0 <= t < window.1 <==> (within(t0, t1, window) matches Some(d) && d.0
            <= t < d.1),
        within(t0, t1, window) matches Some(d) ==> d.0 < d.1,
{
}

/// Two rasters are told apart by all that they are drawn from: the box, its size, and of each span
/// everything but the time outside the window.
pub proof fn keys_tell_rasters_apart(
    a: Seq<CoverageSpan>,
    b: Seq<CoverageSpan>,
    f: Span,
    g: Span,
    v: (i64, i64),
    w: (i64, i64),
    n: (usize, usize),
    m: (usize, usize),
    i: int,
    t: int,
)
    requires
        raster_key(a, f, v, n.0, n.1) == raster_key(b, g, w, m.0, m.1),
    ensures
        f == g,
        v == w,
        n == m,
        a.len() == b.len(),
        0 <= i < a.len() ==> a[i].device@ == b[i].device@ && a[i].valid == b[i].valid && a[i].freq
            == b[i].freq && a[i].analysed == b[i].analysed && a[i].center_hz == b[i].center_hz
            && a[i].sample_rate_hz == b[i].sample_rate_hz && (v.0 <= t < v.1 ==> (a[i].t0 <= t
            < a[i].t1 <==> b[i].t0 <= t < b[i].t1)),
{
    let (x, y) = (raster_key(a, f, v, n.0, n.1), raster_key(b, g, w, m.0, m.1));
    assert(x.spans.len() == a.len() && y.spans.len() == b.len());
    if 0 <= i < a.len() {
        assert(x.spans[i] == span_key(a[i], v));
        assert(y.spans[i] == span_key(b[i], w));
        a_span_is_cut_to_the_window(a[i].t0, a[i].t1, v, t);
        a_span_is_cut_to_the_window(b[i].t0, b[i].t1, v, t);
    }
}

/// What is forgotten of the rasters held: the oldest, one by one, as long as there are too many or
/// they are too large together, and no more.
pub proof fn the_oldest_rasters_go_first(v: Seq<(RasterKeyV, Raster)>) -> (n: int)
    ensures
        0 <= n <= v.len(),
        trimmed(v) == v.skip(n),
        v.len() - n <= 2048,
        runs_held(v.skip(n)) <= 1_048_576 || n == v.len(),
        n > 0 ==> v.len() - n + 1 > 2048 || runs_held(v.skip(n - 1)) > 1_048_576,
    decreases v.len(),
{
    assert(v.skip(0) =~= v);
    if v.len() > 0 && (v.len() > MAX_ENTRIES || runs_held(v) > MAX_RUNS) {
        let m = the_oldest_rasters_go_first(v.skip(1));
        assert(v.skip(1).skip(m) =~= v.skip(m + 1));
        if m > 0 {
            assert(v.skip(1).skip(m - 1) =~= v.skip(m));
        }
        m + 1
    } else {
        0
    }
}

/// A question of coverage is taken with the sizes, the band and the window given; without a band it
/// is refused.
pub proof fn a_coverage_question_is_taken_as_asked(
    q: Seq<(Seq<char>, Seq<char>)>,
    cells: Result<usize, ApiErrorV>,
    rows: Result<usize, ApiErrorV>,
    freq: Result<Option<Span>, ApiErrorV>,
    asked: (i64, i64),
    capture: Option<(i64, i64)>,
)
    ensures
        coverage_query_of(q, cells, rows, freq, asked, capture) matches Ok(c) ==> {
            &&& cells == Ok::<usize, ApiErrorV>(c.cells)
            &&& rows == Ok::<usize, ApiErrorV>(c.rows)
            &&& freq == Ok::<Option<Span>, ApiErrorV>(Some(c.freq))
            &&& window_from(q, asked, capture) == Ok::<((i64, i64), Seq<char>), ApiErrorV>(
                (c.window, c.window_source),
            )
        },
        freq == Ok::<Option<Span>, ApiErrorV>(None) ==> coverage_query_of(
            q,
            cells,
            rows,
            freq,
            asked,
            capture,
        ) is Err,
        coverage_query_of(q, cells, rows, freq, asked, capture) is Ok <==> stray(
            q,
            coverage_params(),
        ) is None && cells is Ok && rows is Ok && freq is Ok && freq->Ok_0 is Some && window_from(
            q,
            asked,
            capture,
        ) is Ok,
{
}

/// What a reader finds in the coverage map: the band and the window asked for, the layout of the
/// cells, each front end's grid and the union's, the horizon and the sources.
pub proof fn the_map_is_of_the_box_asked_for(a: CoverageAnswer)
    ensures
        ({
            let v = coverage_v(a);
            &&& at(v, "region"@) matches Some(r) && at(r, "lo_hz"@) == Some(
                real_v(a.query.freq.lo),
            ) && at(r, "hi_hz"@) == Some(real_v(a.query.freq.hi))
            &&& at(v, "window"@) matches Some(w) && at(w, "t0_s"@) == Some(
                scaled_v(a.query.window.0),
            ) && at(w, "t1_s"@) == Some(scaled_v(a.query.window.1)) && at(w, "span_s"@) == Some(
                scaled_v(a.duration_ns),
            ) && at(w, "source"@) == Some(text_v(a.query.window_source@))
            &&& at(v, "grid"@) == Some(layout_v(a))
            &&& at(v, "devices"@) == Some(
                JsonV::Array(grids_v(a.evidence, a.devices@, Some(a.shades.values@))),
            )
            &&& at(v, "any"@) == Some(
                grid_v(
                    a.any.shape,
                    a.any.cells@,
                    Some(a.shades.values@),
                    unknown_band(a.evidence.memory, a.evidence.log_available, a.any.shape),
                ),
            )
            &&& at(v, "horizon"@) == Some(horizon_v(a.evidence, a.any.shape))
            &&& at(v, "sources"@) == Some(sources_v(a.evidence))
        }),
        ({
            let l = layout_v(a);
            &&& at(l, "cells"@) == Some(uint_v(a.query.cells as int))
            &&& at(l, "rows"@) == Some(uint_v(a.any.shape.nt as int))
            &&& at(l, "requested_rows"@) == Some(uint_v(a.query.rows as int))
            &&& at(l, "f_lo_hz"@) == Some(real_v(a.any.shape.f_lo_hz))
            &&& at(l, "f_cell_hz"@) == Some(real_v(a.any.shape.f_cell_hz))
            &&& at(l, "t0_s"@) == Some(scaled_v(a.any.shape.start))
            &&& at(l, "t_cell_s"@) == Some(scaled_v(a.any.shape.t_cell_ns))
        }),
{
    let f = coverage_v(a)->Object_0;
    member_is_the_first(f, "region"@, 0);
    assert("region"@ != "window"@) by {
        reveal_strlit("region");
        reveal_strlit("window");
        assert("region"@[0] != "window"@[0]);
    }
    member_is_the_first(f, "window"@, 1);
    assert("region"@ != "grid"@) by {
        reveal_strlit("region");
        reveal_strlit("grid");
        assert("region"@.len() != "grid"@.len());
    }
    assert("window"@ != "grid"@) by {
        reveal_strlit("window");
        reveal_strlit("grid");
        assert("window"@.len() != "grid"@.len());
    }
    member_is_the_first(f, "grid"@, 2);
    assert("region"@ != "devices"@) by {
        reveal_strlit("region");
        reveal_strlit("devices");
        assert("region"@.len() != "devices"@.len());
    }
    assert("window"@ != "devices"@) by {
        reveal_strlit("window");
        reveal_strlit("devices");
        assert("window"@.len() != "devices"@.len());
    }
    assert("grid"@ != "devices"@) by {
        reveal_strlit("grid");
        reveal_strlit("devices");
        assert("grid"@.len() != "devices"@.len());
    }
    member_is_the_first(f, "devices"@, 3);
    assert("region"@ != "any"@) by {
        reveal_strlit("region");
        reveal_strlit("any");
        assert("region"@.len() != "any"@.len());
    }
    assert("window"@ != "any"@) by {
        reveal_strlit("window");
        reveal_strlit("any");
        assert("window"@.len() != "any"@.len());
    }
    assert("grid"@ != "any"@) by {
        reveal_strlit("grid");
        reveal_strlit("any");
        assert("grid"@.len() != "any"@.len());
    }
    assert("devices"@ != "any"@) by {
        reveal_strlit("devices");
        reveal_strlit("any");
        assert("devices"@.len() != "any"@.len());
    }
    member_is_the_first(f, "any"@, 4);
    assert("region"@ != "horizon"@) by {
        reveal_strlit("region");
        reveal_strlit("horizon");
        assert("region"@.len() != "horizon"@.len());
    }
    assert("window"@ != "horizon"@) by {
        reveal_strlit("window");
        reveal_strlit("horizon");
        assert("window"@.len() != "horizon"@.len());
    }
    assert("grid"@ != "horizon"@) by {
        reveal_strlit("grid");
        reveal_strlit("horizon");
        assert("grid"@.len() != "horizon"@.len());
    }
    assert("devices"@ != "horizon"@) by {
        reveal_strlit("devices");
        reveal_strlit("horizon");
        assert("devices"@[0] != "horizon"@[0]);
    }
    assert("any"@ != "horizon"@) by {
        reveal_strlit("any");
        reveal_strlit("horizon");
        assert("any"@.len() != "horizon"@.len());
    }
    member_is_the_first(f, "horizon"@, 5);
    assert("region"@ != "sources"@) by {
        reveal_strlit("region");
        reveal_strlit("sources");
        assert("region"@.len() != "sources"@.len());
    }
    assert("window"@ != "sources"@) by {
        reveal_strlit("window");
        reveal_strlit("sources");
        assert("window"@.len() != "sources"@.len());
    }
    assert("grid"@ != "sources"@) by {
        reveal_strlit("grid");
        reveal_strlit("sources");
        assert("grid"@.len() != "sources"@.len());
    }
    assert("devices"@ != "sources"@) by {
        reveal_strlit("devices");
        reveal_strlit("sources");
        assert("devices"@[0] != "sources"@[0]);
    }
    assert("any"@ != "sources"@) by {
        reveal_strlit("any");
        reveal_strlit("sources");
        assert("any"@.len() != "sources"@.len());
    }
    assert("horizon"@ != "sources"@) by {
        reveal_strlit("horizon");
        reveal_strlit("sources");
        assert("horizon"@[0] != "sources"@[0]);
    }
    assert("shade"@ != "sources"@) by {
        reveal_strlit("shade");
        reveal_strlit("sources");
        assert("shade"@.len() != "sources"@.len());
    }
    member_is_the_first(f, "sources"@, 7);
    let r = at(coverage_v(a), "region"@)->0->Object_0;
    member_is_the_first(r, "lo_hz"@, 0);
    assert("lo_hz"@ != "hi_hz"@) by {
        reveal_strlit("lo_hz");
        reveal_strlit("hi_hz");
        assert("lo_hz"@[0] != "hi_hz"@[0]);
    }
    member_is_the_first(r, "hi_hz"@, 1);
    let w = at(coverage_v(a), "window"@)->0->Object_0;
    member_is_the_first(w, "t0_s"@, 0);
    assert("t0_s"@ != "t1_s"@) by {
        reveal_strlit("t0_s");
        reveal_strlit("t1_s");
        assert("t0_s"@[1] != "t1_s"@[1]);
    }
    member_is_the_first(w, "t1_s"@, 1);
    assert("t0_s"@ != "span_s"@) by {
        reveal_strlit("t0_s");
        reveal_strlit("span_s");
        assert("t0_s"@.len() != "span_s"@.len());
    }
    assert("t1_s"@ != "span_s"@) by {
        reveal_strlit("t1_s");
        reveal_strlit("span_s");
        assert("t1_s"@.len() != "span_s"@.len());
    }
    member_is_the_first(w, "span_s"@, 2);
    assert("t0_s"@ != "source"@) by {
        reveal_strlit("t0_s");
        reveal_strlit("source");
        assert("t0_s"@.len() != "source"@.len());
    }
    assert("t1_s"@ != "source"@) by {
        reveal_strlit("t1_s");
        reveal_strlit("source");
        assert("t1_s"@.len() != "source"@.len());
    }
    assert("span_s"@ != "source"@) by {
        reveal_strlit("span_s");
        reveal_strlit("source");
        assert("span_s"@[1] != "source"@[1]);
    }
    member_is_the_first(w, "source"@, 3);
    let l = layout_v(a)->Object_0;
    member_is_the_first(l, "cells"@, 0);
    assert("cells"@ != "rows"@) by {
        reveal_strlit("cells");
        reveal_strlit("rows");
        assert("cells"@.len() != "rows"@.len());
    }
    member_is_the_first(l, "rows"@, 1);
    assert("cells"@ != "requested_rows"@) by {
        reveal_strlit("cells");
        reveal_strlit("requested_rows");
        assert("cells"@.len() != "requested_rows"@.len());
    }
    assert("rows"@ != "requested_rows"@) by {
        reveal_strlit("rows");
        reveal_strlit("requested_rows");
        assert("rows"@.len() != "requested_rows"@.len());
    }
    member_is_the_first(l, "requested_rows"@, 2);
    assert("cells"@ != "f_lo_hz"@) by {
        reveal_strlit("cells");
        reveal_strlit("f_lo_hz");
        assert("cells"@.len() != "f_lo_hz"@.len());
    }
    assert("rows"@ != "f_lo_hz"@) by {
        reveal_strlit("rows");
        reveal_strlit("f_lo_hz");
        assert("rows"@.len() != "f_lo_hz"@.len());
    }
    assert("requested_rows"@ != "f_lo_hz"@) by {
        reveal_strlit("requested_rows");
        reveal_strlit("f_lo_hz");
        assert("requested_rows"@.len() != "f_lo_hz"@.len());
    }
    member_is_the_first(l, "f_lo_hz"@, 3);
    assert("cells"@ != "f_cell_hz"@) by {
        reveal_strlit("cells");
        reveal_strlit("f_cell_hz");
        assert("cells"@.len() != "f_cell_hz"@.len());
    }
    assert("rows"@ != "f_cell_hz"@) by {
        reveal_strlit("rows");
        reveal_strlit("f_cell_hz");
        assert("rows"@.len() != "f_cell_hz"@.len());
    }
    assert("requested_rows"@ != "f_cell_hz"@) by {
        reveal_strlit("requested_rows");
        reveal_strlit("f_cell_hz");
        assert("requested_rows"@.len() != "f_cell_hz"@.len());
    }
    assert("f_lo_hz"@ != "f_cell_hz"@) by {
        reveal_strlit("f_lo_hz");
        reveal_strlit("f_cell_hz");
        assert("f_lo_hz"@.len() != "f_cell_hz"@.len());
    }
    member_is_the_first(l, "f_cell_hz"@, 4);
    assert("cells"@ != "t0_s"@) by {
        reveal_strlit("cells");
        reveal_strlit("t0_s");
        assert("cells"@.len() != "t0_s"@.len());
    }
    assert("rows"@ != "t0_s"@) by {
        reveal_strlit("rows");
        reveal_strlit("t0_s");
        assert("rows"@[0] != "t0_s"@[0]);
    }
    assert("requested_rows"@ != "t0_s"@) by {
        reveal_strlit("requested_rows");
        reveal_strlit("t0_s");
        assert("requested_rows"@.len() != "t0_s"@.len());
    }
    assert("f_lo_hz"@ != "t0_s"@) by {
        reveal_strlit("f_lo_hz");
        reveal_strlit("t0_s");
        assert("f_lo_hz"@.len() != "t0_s"@.len());
    }
    assert("f_cell_hz"@ != "t0_s"@) by {
        reveal_strlit("f_cell_hz");
        reveal_strlit("t0_s");
        assert("f_cell_hz"@.len() != "t0_s"@.len());
    }
    member_is_the_first(l, "t0_s"@, 5);
    assert("cells"@ != "t_cell_s"@) by {
        reveal_strlit("cells");
        reveal_strlit("t_cell_s");
        assert("cells"@.len() != "t_cell_s"@.len());
    }
    assert("rows"@ != "t_cell_s"@) by {
        reveal_strlit("rows");
        reveal_strlit("t_cell_s");
        assert("rows"@.len() != "t_cell_s"@.len());
    }
    assert("requested_rows"@ != "t_cell_s"@) by {
        reveal_strlit("requested_rows");
        reveal_strlit("t_cell_s");
        assert("requested_rows"@.len() != "t_cell_s"@.len());
    }
    assert("f_lo_hz"@ != "t_cell_s"@) by {
        reveal_strlit("f_lo_hz");
        reveal_strlit("t_cell_s");
        assert("f_lo_hz"@.len() != "t_cell_s"@.len());
    }
    assert("f_cell_hz"@ != "t_cell_s"@) by {
        reveal_strlit("f_cell_hz");
        reveal_strlit("t_cell_s");
        assert("f_cell_hz"@.len() != "t_cell_s"@.len());
    }
    assert("t0_s"@ != "t_cell_s"@) by {
        reveal_strlit("t0_s");
        reveal_strlit("t_cell_s");
        assert("t0_s"@.len() != "t_cell_s"@.len());
    }
    member_is_the_first(l, "t_cell_s"@, 6);
}

/// What a reader finds of a tile's layout: its size and place, and whether it is the size asked for.
pub proof fn a_tile_says_whether_it_is_aligned(g: Shape, nt: usize, nf: usize)
    ensures
        ({
            let v = plane_grid_v(g, nt, nf);
            &&& at(v, "nt"@) == Some(uint_v(g.nt as int))
            &&& at(v, "nf"@) == Some(uint_v(g.nf as int))
            &&& at(v, "t0_s"@) == Some(scaled_v(g.start))
            &&& at(v, "t_cell_s"@) == Some(scaled_v(g.t_cell_ns))
            &&& at(v, "f_lo_hz"@) == Some(real_v(g.f_lo_hz))
            &&& at(v, "f_cell_hz"@) == Some(real_v(g.f_cell_hz))
            &&& at(v, "aligned"@) == Some(JsonV::Bool(g.nt == nt && g.nf == nf))
        }),
{
    let f = plane_grid_v(g, nt, nf)->Object_0;
    member_is_the_first(f, "nt"@, 0);
    assert("nt"@ != "nf"@) by {
        reveal_strlit("nt");
        reveal_strlit("nf");
        assert("nt"@[1] != "nf"@[1]);
    }
    member_is_the_first(f, "nf"@, 1);
    assert("nt"@ != "t0_s"@) by {
        reveal_strlit("nt");
        reveal_strlit("t0_s");
        assert("nt"@.len() != "t0_s"@.len());
    }
    assert("nf"@ != "t0_s"@) by {
        reveal_strlit("nf");
        reveal_strlit("t0_s");
        assert("nf"@.len() != "t0_s"@.len());
    }
    member_is_the_first(f, "t0_s"@, 2);
    assert("nt"@ != "t_cell_s"@) by {
        reveal_strlit("nt");
        reveal_strlit("t_cell_s");
        assert("nt"@.len() != "t_cell_s"@.len());
    }
    assert("nf"@ != "t_cell_s"@) by {
        reveal_strlit("nf");
        reveal_strlit("t_cell_s");
        assert("nf"@.len() != "t_cell_s"@.len());
    }
    assert("t0_s"@ != "t_cell_s"@) by {
        reveal_strlit("t0_s");
        reveal_strlit("t_cell_s");
        assert("t0_s"@.len() != "t_cell_s"@.len());
    }
    member_is_the_first(f, "t_cell_s"@, 3);
    assert("nt"@ != "f_lo_hz"@) by {
        reveal_strlit("nt");
        reveal_strlit("f_lo_hz");
        assert("nt"@.len() != "f_lo_hz"@.len());
    }
    assert("nf"@ != "f_lo_hz"@) by {
        reveal_strlit("nf");
        reveal_strlit("f_lo_hz");
        assert("nf"@.len() != "f_lo_hz"@.len());
    }
    assert("t0_s"@ != "f_lo_hz"@) by {
        reveal_strlit("t0_s");
        reveal_strlit("f_lo_hz");
        assert("t0_s"@.len() != "f_lo_hz"@.len());
    }
    assert("t_cell_s"@ != "f_lo_hz"@) by {
        reveal_strlit("t_cell_s");
        reveal_strlit("f_lo_hz");
        assert("t_cell_s"@.len() != "f_lo_hz"@.len());
    }
    member_is_the_first(f, "f_lo_hz"@, 4);
    assert("nt"@ != "f_cell_hz"@) by {
        reveal_strlit("nt");
        reveal_strlit("f_cell_hz");
        assert("nt"@.len() != "f_cell_hz"@.len());
    }
    assert("nf"@ != "f_cell_hz"@) by {
        reveal_strlit("nf");
        reveal_strlit("f_cell_hz");
        assert("nf"@.len() != "f_cell_hz"@.len());
    }
    assert("t0_s"@ != "f_cell_hz"@) by {
        reveal_strlit("t0_s");
        reveal_strlit("f_cell_hz");
        assert("t0_s"@.len() != "f_cell_hz"@.len());
    }
    assert("t_cell_s"@ != "f_cell_hz"@) by {
        reveal_strlit("t_cell_s");
        reveal_strlit("f_cell_hz");
        assert("t_cell_s"@.len() != "f_cell_hz"@.len());
    }
    assert("f_lo_hz"@ != "f_cell_hz"@) by {
        reveal_strlit("f_lo_hz");
        reveal_strlit("f_cell_hz");
        assert("f_lo_hz"@.len() != "f_cell_hz"@.len());
    }
    member_is_the_first(f, "f_cell_hz"@, 5);
    assert("nt"@ != "aligned"@) by {
        reveal_strlit("nt");
        reveal_strlit("aligned");
        assert("nt"@.len() != "aligned"@.len());
    }
    assert("nf"@ != "aligned"@) by {
        reveal_strlit("nf");
        reveal_strlit("aligned");
        assert("nf"@.len() != "aligned"@.len());
    }
    assert("t0_s"@ != "aligned"@) by {
        reveal_strlit("t0_s");
        reveal_strlit("aligned");
        assert("t0_s"@.len() != "aligned"@.len());
    }
    assert("t_cell_s"@ != "aligned"@) by {
        reveal_strlit("t_cell_s");
        reveal_strlit("aligned");
        assert("t_cell_s"@.len() != "aligned"@.len());
    }
    assert("f_lo_hz"@ != "aligned"@) by {
        reveal_strlit("f_lo_hz");
        reveal_strlit("aligned");
        assert("f_lo_hz"@[0] != "aligned"@[0]);
    }
    assert("f_cell_hz"@ != "aligned"@) by {
        reveal_strlit("f_cell_hz");
        reveal_strlit("aligned");
        assert("f_cell_hz"@.len() != "aligned"@.len());
    }
    member_is_the_first(f, "aligned"@, 6);
}

/// What a reader finds of a tile's coverage: its planes, whose plane is which, and which one was asked
/// for.
pub proof fn a_tile_says_which_plane_is_whose(o: TileOverlay, device: Seq<char>, named: bool)
    ensures
        ({
            let v = o.json_v(device, named);
            &&& at(v, "grid"@) == Some(plane_grid_v(o.any, o.nt_asked, o.nf_asked))
            &&& at(v, "planes"@) matches Some(JsonV::Array(p)) && p.len() == o.planes@.len()
                && forall|i: int|
                0 <= i < p.len() ==> #[trigger] p[i] == plane_v(
                    o.planes@[i]@,
                    runs_of(o.planes@[i]@),
                )
            &&& at(v, "any"@) matches Some(x) && at(x, "plane"@) == Some(
                uint_v(o.any_plane as int),
            )
            &&& at(v, "devices"@) matches Some(JsonV::Array(p)) && p.len() == o.devices@.len()
                && forall|i: int|
                0 <= i < p.len() ==> #[trigger] p[i] == owner_v(
                    o.devices@[i].device@,
                    o.device_planes@[i],
                )
            &&& at(v, "selected"@) matches Some(x) && at(x, "device"@) == Some(text_v(device))
                && at(x, "named"@) == Some(JsonV::Bool(named)) && at(x, "present"@) == Some(
                JsonV::Bool(o.selects(device) != Selected::AbsentDevice),
            ) && (o.selects(device) matches Selected::Plane(i) ==> at(x, "plane"@) == Some(
                uint_v(i as int),
            )) && (o.selects(device) is AbsentDevice ==> at(x, "plane"@) == Some(JsonV::Null))
            &&& at(v, "horizon"@) == Some(horizon_v(o.evidence, o.any))
            &&& at(v, "sources"@) == Some(sources_v(o.evidence))
        }),
{
    let f = o.json_v(device, named)->Object_0;
    assert("encoding"@ != "grid"@) by {
        reveal_strlit("encoding");
        reveal_strlit("grid");
        assert("encoding"@.len() != "grid"@.len());
    }
    member_is_the_first(f, "grid"@, 1);
    assert("encoding"@ != "states"@) by {
        reveal_strlit("encoding");
        reveal_strlit("states");
        assert("encoding"@.len() != "states"@.len());
    }
    assert("grid"@ != "states"@) by {
        reveal_strlit("grid");
        reveal_strlit("states");
        assert("grid"@.len() != "states"@.len());
    }
    member_is_the_first(f, "states"@, 2);
    assert("encoding"@ != "planes"@) by {
        reveal_strlit("encoding");
        reveal_strlit("planes");
        assert("encoding"@.len() != "planes"@.len());
    }
    assert("grid"@ != "planes"@) by {
        reveal_strlit("grid");
        reveal_strlit("planes");
        assert("grid"@.len() != "planes"@.len());
    }
    assert("states"@ != "planes"@) by {
        reveal_strlit("states");
        reveal_strlit("planes");
        assert("states"@[0] != "planes"@[0]);
    }
    member_is_the_first(f, "planes"@, 3);
    assert("encoding"@ != "any"@) by {
        reveal_strlit("encoding");
        reveal_strlit("any");
        assert("encoding"@.len() != "any"@.len());
    }
    assert("grid"@ != "any"@) by {
        reveal_strlit("grid");
        reveal_strlit("any");
        assert("grid"@.len() != "any"@.len());
    }
    assert("states"@ != "any"@) by {
        reveal_strlit("states");
        reveal_strlit("any");
        assert("states"@.len() != "any"@.len());
    }
    assert("planes"@ != "any"@) by {
        reveal_strlit("planes");
        reveal_strlit("any");
        assert("planes"@.len() != "any"@.len());
    }
    member_is_the_first(f, "any"@, 4);
    assert("encoding"@ != "devices"@) by {
        reveal_strlit("encoding");
        reveal_strlit("devices");
        assert("encoding"@.len() != "devices"@.len());
    }
    assert("grid"@ != "devices"@) by {
        reveal_strlit("grid");
        reveal_strlit("devices");
        assert("grid"@.len() != "devices"@.len());
    }
    assert("states"@ != "devices"@) by {
        reveal_strlit("states");
        reveal_strlit("devices");
        assert("states"@.len() != "devices"@.len());
    }
    assert("planes"@ != "devices"@) by {
        reveal_strlit("planes");
        reveal_strlit("devices");
        assert("planes"@.len() != "devices"@.len());
    }
    assert("any"@ != "devices"@) by {
        reveal_strlit("any");
        reveal_strlit("devices");
        assert("any"@.len() != "devices"@.len());
    }
    member_is_the_first(f, "devices"@, 5);
    assert("encoding"@ != "selected"@) by {
        reveal_strlit("encoding");
        reveal_strlit("selected");
        assert("encoding"@[0] != "selected"@[0]);
    }
    assert("grid"@ != "selected"@) by {
        reveal_strlit("grid");
        reveal_strlit("selected");
        assert("grid"@.len() != "selected"@.len());
    }
    assert("states"@ != "selected"@) by {
        reveal_strlit("states");
        reveal_strlit("selected");
        assert("states"@.len() != "selected"@.len());
    }
    assert("planes"@ != "selected"@) by {
        reveal_strlit("planes");
        reveal_strlit("selected");
        assert("planes"@.len() != "selected"@.len());
    }
    assert("any"@ != "selected"@) by {
        reveal_strlit("any");
        reveal_strlit("selected");
        assert("any"@.len() != "selected"@.len());
    }
    assert("devices"@ != "selected"@) by {
        reveal_strlit("devices");
        reveal_strlit("selected");
        assert("devices"@.len() != "selected"@.len());
    }
    member_is_the_first(f, "selected"@, 6);
    assert("encoding"@ != "horizon"@) by {
        reveal_strlit("encoding");
        reveal_strlit("horizon");
        assert("encoding"@.len() != "horizon"@.len());
    }
    assert("grid"@ != "horizon"@) by {
        reveal_strlit("grid");
        reveal_strlit("horizon");
        assert("grid"@.len() != "horizon"@.len());
    }
    assert("states"@ != "horizon"@) by {
        reveal_strlit("states");
        reveal_strlit("horizon");
        assert("states"@.len() != "horizon"@.len());
    }
    assert("planes"@ != "horizon"@) by {
        reveal_strlit("planes");
        reveal_strlit("horizon");
        assert("planes"@.len() != "horizon"@.len());
    }
    assert("any"@ != "horizon"@) by {
        reveal_strlit("any");
        reveal_strlit("horizon");
        assert("any"@.len() != "horizon"@.len());
    }
    assert("devices"@ != "horizon"@) by {
        reveal_strlit("devices");
        reveal_strlit("horizon");
        assert("devices"@[0] != "horizon"@[0]);
    }
    assert("selected"@ != "horizon"@) by {
        reveal_strlit("selected");
        reveal_strlit("horizon");
        assert("selected"@.len() != "horizon"@.len());
    }
    member_is_the_first(f, "horizon"@, 7);
    assert("encoding"@ != "sources"@) by {
        reveal_strlit("encoding");
        reveal_strlit("sources");
        assert("encoding"@.len() != "sources"@.len());
    }
    assert("grid"@ != "sources"@) by {
        reveal_strlit("grid");
        reveal_strlit("sources");
        assert("grid"@.len() != "sources"@.len());
    }
    assert("states"@ != "sources"@) by {
        reveal_strlit("states");
        reveal_strlit("sources");
        assert("states"@.len() != "sources"@.len());
    }
    assert("planes"@ != "sources"@) by {
        reveal_strlit("planes");
        reveal_strlit("sources");
        assert("planes"@.len() != "sources"@.len());
    }
    assert("any"@ != "sources"@) by {
        reveal_strlit("any");
        reveal_strlit("sources");
        assert("any"@.len() != "sources"@.len());
    }
    assert("devices"@ != "sources"@) by {
        reveal_strlit("devices");
        reveal_strlit("sources");
        assert("devices"@[0] != "sources"@[0]);
    }
    assert("selected"@ != "sources"@) by {
        reveal_strlit("selected");
        reveal_strlit("sources");
        assert("selected"@.len() != "sources"@.len());
    }
    assert("horizon"@ != "sources"@) by {
        reveal_strlit("horizon");
        reveal_strlit("sources");
        assert("horizon"@[0] != "sources"@[0]);
    }
    member_is_the_first(f, "sources"@, 8);
    let a = owner_v(DeviceV::Any, o.any_plane)->Object_0;
    assert("device"@ != "plane"@) by {
        reveal_strlit("device");
        reveal_strlit("plane");
        assert("device"@.len() != "plane"@.len());
    }
    assert("named"@ != "plane"@) by {
        reveal_strlit("named");
        reveal_strlit("plane");
        assert("named"@[0] != "plane"@[0]);
    }
    member_is_the_first(a, "plane"@, 2);
    let s = selected_v(device, named, o.selects(device))->Object_0;
    member_is_the_first(s, "device"@, 0);
    assert("device"@ != "named"@) by {
        reveal_strlit("device");
        reveal_strlit("named");
        assert("device"@.len() != "named"@.len());
    }
    member_is_the_first(s, "named"@, 1);
    assert("device"@ != "present"@) by {
        reveal_strlit("device");
        reveal_strlit("present");
        assert("device"@.len() != "present"@.len());
    }
    assert("named"@ != "present"@) by {
        reveal_strlit("named");
        reveal_strlit("present");
        assert("named"@.len() != "present"@.len());
    }
    member_is_the_first(s, "present"@, 2);
    assert("device"@ != "plane"@) by {
        reveal_strlit("device");
        reveal_strlit("plane");
        assert("device"@.len() != "plane"@.len());
    }
    assert("named"@ != "plane"@) by {
        reveal_strlit("named");
        reveal_strlit("plane");
        assert("named"@[0] != "plane"@[0]);
    }
    assert("present"@ != "plane"@) by {
        reveal_strlit("present");
        reveal_strlit("plane");
        assert("present"@.len() != "plane"@.len());
    }
    member_is_the_first(s, "plane"@, 3);
}

/// What a reader finds of whose plane one is, and of a plane served alone.
pub proof fn a_plane_names_its_owner(d: DeviceV, plane: usize, o: TileOverlay, device: Seq<char>)
    ensures
        at(owner_v(d, plane), "device"@) == Some(text_v(d.label())),
        at(owner_v(d, plane), "named"@) == Some(JsonV::Bool(d is Id)),
        at(owner_v(d, plane), "plane"@) == Some(uint_v(plane as int)),
        at(o.selected_plane_v(device), "nt"@) == Some(uint_v(o.any.nt as int)),
        at(o.selected_plane_v(device), "nf"@) == Some(uint_v(o.any.nf as int)),
        at(o.selected_plane_v(device), "aligned"@) == Some(
            JsonV::Bool(o.any.nt == o.nt_asked && o.any.nf == o.nf_asked),
        ),
        at(o.selected_plane_v(device), "present"@) == Some(
            JsonV::Bool(o.selects(device) != Selected::AbsentDevice),
        ),
        at(o.selected_plane_v(device), "plane"@) == Some(
            plane_v(o.deciding(device), runs_of(o.deciding(device))),
        ),
{
    let f = owner_v(d, plane)->Object_0;
    member_is_the_first(f, "device"@, 0);
    assert("device"@ != "named"@) by {
        reveal_strlit("device");
        reveal_strlit("named");
        assert("device"@.len() != "named"@.len());
    }
    member_is_the_first(f, "named"@, 1);
    assert("device"@ != "plane"@) by {
        reveal_strlit("device");
        reveal_strlit("plane");
        assert("device"@.len() != "plane"@.len());
    }
    assert("named"@ != "plane"@) by {
        reveal_strlit("named");
        reveal_strlit("plane");
        assert("named"@[0] != "plane"@[0]);
    }
    member_is_the_first(f, "plane"@, 2);
    let s = o.selected_plane_v(device)->Object_0;
    assert("encoding"@ != "nt"@) by {
        reveal_strlit("encoding");
        reveal_strlit("nt");
        assert("encoding"@.len() != "nt"@.len());
    }
    assert("states"@ != "nt"@) by {
        reveal_strlit("states");
        reveal_strlit("nt");
        assert("states"@.len() != "nt"@.len());
    }
    member_is_the_first(s, "nt"@, 2);
    assert("encoding"@ != "nf"@) by {
        reveal_strlit("encoding");
        reveal_strlit("nf");
        assert("encoding"@.len() != "nf"@.len());
    }
    assert("states"@ != "nf"@) by {
        reveal_strlit("states");
        reveal_strlit("nf");
        assert("states"@.len() != "nf"@.len());
    }
    assert("nt"@ != "nf"@) by {
        reveal_strlit("nt");
        reveal_strlit("nf");
        assert("nt"@[1] != "nf"@[1]);
    }
    member_is_the_first(s, "nf"@, 3);
    assert("encoding"@ != "aligned"@) by {
        reveal_strlit("encoding");
        reveal_strlit("aligned");
        assert("encoding"@.len() != "aligned"@.len());
    }
    assert("states"@ != "aligned"@) by {
        reveal_strlit("states");
        reveal_strlit("aligned");
        assert("states"@.len() != "aligned"@.len());
    }
    assert("nt"@ != "aligned"@) by {
        reveal_strlit("nt");
        reveal_strlit("aligned");
        assert("nt"@.len() != "aligned"@.len());
    }
    assert("nf"@ != "aligned"@) by {
        reveal_strlit("nf");
        reveal_strlit("aligned");
        assert("nf"@.len() != "aligned"@.len());
    }
    member_is_the_first(s, "aligned"@, 4);
    assert("encoding"@ != "present"@) by {
        reveal_strlit("encoding");
        reveal_strlit("present");
        assert("encoding"@.len() != "present"@.len());
    }
    assert("states"@ != "present"@) by {
        reveal_strlit("states");
        reveal_strlit("present");
        assert("states"@.len() != "present"@.len());
    }
    assert("nt"@ != "present"@) by {
        reveal_strlit("nt");
        reveal_strlit("present");
        assert("nt"@.len() != "present"@.len());
    }
    assert("nf"@ != "present"@) by {
        reveal_strlit("nf");
        reveal_strlit("present");
        assert("nf"@.len() != "present"@.len());
    }
    assert("aligned"@ != "present"@) by {
        reveal_strlit("aligned");
        reveal_strlit("present");
        assert("aligned"@[0] != "present"@[0]);
    }
    member_is_the_first(s, "present"@, 5);
    assert("encoding"@ != "plane"@) by {
        reveal_strlit("encoding");
        reveal_strlit("plane");
        assert("encoding"@.len() != "plane"@.len());
    }
    assert("states"@ != "plane"@) by {
        reveal_strlit("states");
        reveal_strlit("plane");
        assert("states"@.len() != "plane"@.len());
    }
    assert("nt"@ != "plane"@) by {
        reveal_strlit("nt");
        reveal_strlit("plane");
        assert("nt"@.len() != "plane"@.len());
    }
    assert("nf"@ != "plane"@) by {
        reveal_strlit("nf");
        reveal_strlit("plane");
        assert("nf"@.len() != "plane"@.len());
    }
    assert("aligned"@ != "plane"@) by {
        reveal_strlit("aligned");
        reveal_strlit("plane");
        assert("aligned"@.len() != "plane"@.len());
    }
    assert("present"@ != "plane"@) by {
        reveal_strlit("present");
        reveal_strlit("plane");
        assert("present"@.len() != "plane"@.len());
    }
    member_is_the_first(s, "plane"@, 6);
}

/// What a reader finds of the coverage of a strip: each front end's grid and the union's under the
/// same horizon.
pub proof fn a_strip_is_served_by_front_end(
    e: Evidence,
    any: Grid,
    devices: Seq<Grid>,
    columns: usize,
    rows: usize,
)
    ensures
        ({
            let v = overlay_v(e, any, devices, columns, rows);
            &&& at(v, "devices"@) matches Some(JsonV::Array(p)) && p.len() == devices.len()
                && forall|i: int|
                0 <= i < p.len() ==> #[trigger] p[i] == grid_v(
                    devices[i].shape,
                    devices[i].cells@,
                    None,
                    unknown_band(e.memory, e.log_available, devices[i].shape),
                )
            &&& at(v, "any"@) == Some(
                grid_v(
                    any.shape,
                    any.cells@,
                    None,
                    unknown_band(e.memory, e.log_available, any.shape),
                ),
            )
            &&& at(v, "horizon"@) == Some(horizon_v(e, any.shape))
            &&& at(v, "sources"@) == Some(sources_v(e))
        }),
{
    let f = overlay_v(e, any, devices, columns, rows)->Object_0;
    assert("grid"@ != "devices"@) by {
        reveal_strlit("grid");
        reveal_strlit("devices");
        assert("grid"@.len() != "devices"@.len());
    }
    member_is_the_first(f, "devices"@, 1);
    assert("grid"@ != "any"@) by {
        reveal_strlit("grid");
        reveal_strlit("any");
        assert("grid"@.len() != "any"@.len());
    }
    assert("devices"@ != "any"@) by {
        reveal_strlit("devices");
        reveal_strlit("any");
        assert("devices"@.len() != "any"@.len());
    }
    member_is_the_first(f, "any"@, 2);
    assert("grid"@ != "horizon"@) by {
        reveal_strlit("grid");
        reveal_strlit("horizon");
        assert("grid"@.len() != "horizon"@.len());
    }
    assert("devices"@ != "horizon"@) by {
        reveal_strlit("devices");
        reveal_strlit("horizon");
        assert("devices"@[0] != "horizon"@[0]);
    }
    assert("any"@ != "horizon"@) by {
        reveal_strlit("any");
        reveal_strlit("horizon");
        assert("any"@.len() != "horizon"@.len());
    }
    member_is_the_first(f, "horizon"@, 3);
    assert("grid"@ != "sources"@) by {
        reveal_strlit("grid");
        reveal_strlit("sources");
        assert("grid"@.len() != "sources"@.len());
    }
    assert("devices"@ != "sources"@) by {
        reveal_strlit("devices");
        reveal_strlit("sources");
        assert("devices"@[0] != "sources"@[0]);
    }
    assert("any"@ != "sources"@) by {
        reveal_strlit("any");
        reveal_strlit("sources");
        assert("any"@.len() != "sources"@.len());
    }
    assert("horizon"@ != "sources"@) by {
        reveal_strlit("horizon");
        reveal_strlit("sources");
        assert("horizon"@[0] != "sources"@[0]);
    }
    member_is_the_first(f, "sources"@, 4);
}

/// The shades say what they are of: the scale, the levels at its ends, and the cells that they were
/// measured in.
pub proof fn shades_say_what_they_are_of(a: CoverageAnswer)
    ensures
        at(shade_v(a), "rule"@) == Some(JsonV::Text(a.max_hold_rule@)),
        at(shade_v(a), "scale"@) == Some(opt_text_v(opt_string(a.shades.scale))),
        a.shades.range_db matches Some((lo, hi)) ==> (at(shade_v(a), "range_db"@) matches Some(r) && at(
            r,
            "lo"@,
        ) == Some(real_v(lo)) && at(r, "hi"@) == Some(real_v(hi))),
        a.shades.range_db is None ==> at(shade_v(a), "range_db"@) == Some(JsonV::Null),
        a.shades.level matches Some(n) ==> at(shade_v(a), "level"@) == Some(uint_v(n as int)),
        a.shades.level is None ==> at(shade_v(a), "level"@) == Some(JsonV::Null),
        at(shade_v(a), "src_t_cell_s"@) == Some(opt_real_v(a.shades.src_t_cell_s)),
        at(shade_v(a), "src_f_cell_hz"@) == Some(opt_real_v(a.shades.src_f_cell_hz)),
{
    let f = shade_v(a)->Object_0;
    assert("fold"@ != "rule"@) by {
        reveal_strlit("fold");
        reveal_strlit("rule");
        assert("fold"@[0] != "rule"@[0]);
    }
    member_is_the_first(f, "rule"@, 1);
    assert("fold"@ != "scale"@) by {
        reveal_strlit("fold");
        reveal_strlit("scale");
        assert("fold"@.len() != "scale"@.len());
    }
    assert("rule"@ != "scale"@) by {
        reveal_strlit("rule");
        reveal_strlit("scale");
        assert("rule"@.len() != "scale"@.len());
    }
    assert("statistic"@ != "scale"@) by {
        reveal_strlit("statistic");
        reveal_strlit("scale");
        assert("statistic"@.len() != "scale"@.len());
    }
    member_is_the_first(f, "scale"@, 3);
    assert("fold"@ != "range_db"@) by {
        reveal_strlit("fold");
        reveal_strlit("range_db");
        assert("fold"@.len() != "range_db"@.len());
    }
    assert("rule"@ != "range_db"@) by {
        reveal_strlit("rule");
        reveal_strlit("range_db");
        assert("rule"@.len() != "range_db"@.len());
    }
    assert("statistic"@ != "range_db"@) by {
        reveal_strlit("statistic");
        reveal_strlit("range_db");
        assert("statistic"@.len() != "range_db"@.len());
    }
    assert("scale"@ != "range_db"@) by {
        reveal_strlit("scale");
        reveal_strlit("range_db");
        assert("scale"@.len() != "range_db"@.len());
    }
    member_is_the_first(f, "range_db"@, 4);
    assert("fold"@ != "level"@) by {
        reveal_strlit("fold");
        reveal_strlit("level");
        assert("fold"@.len() != "level"@.len());
    }
    assert("rule"@ != "level"@) by {
        reveal_strlit("rule");
        reveal_strlit("level");
        assert("rule"@.len() != "level"@.len());
    }
    assert("statistic"@ != "level"@) by {
        reveal_strlit("statistic");
        reveal_strlit("level");
        assert("statistic"@.len() != "level"@.len());
    }
    assert("scale"@ != "level"@) by {
        reveal_strlit("scale");
        reveal_strlit("level");
        assert("scale"@[0] != "level"@[0]);
    }
    assert("range_db"@ != "level"@) by {
        reveal_strlit("range_db");
        reveal_strlit("level");
        assert("range_db"@.len() != "level"@.len());
    }
    assert("normalisation"@ != "level"@) by {
        reveal_strlit("normalisation");
        reveal_strlit("level");
        assert("normalisation"@.len() != "level"@.len());
    }
    member_is_the_first(f, "level"@, 6);
    assert("fold"@ != "src_t_cell_s"@) by {
        reveal_strlit("fold");
        reveal_strlit("src_t_cell_s");
        assert("fold"@.len() != "src_t_cell_s"@.len());
    }
    assert("rule"@ != "src_t_cell_s"@) by {
        reveal_strlit("rule");
        reveal_strlit("src_t_cell_s");
        assert("rule"@.len() != "src_t_cell_s"@.len());
    }
    assert("statistic"@ != "src_t_cell_s"@) by {
        reveal_strlit("statistic");
        reveal_strlit("src_t_cell_s");
        assert("statistic"@.len() != "src_t_cell_s"@.len());
    }
    assert("scale"@ != "src_t_cell_s"@) by {
        reveal_strlit("scale");
        reveal_strlit("src_t_cell_s");
        assert("scale"@.len() != "src_t_cell_s"@.len());
    }
    assert("range_db"@ != "src_t_cell_s"@) by {
        reveal_strlit("range_db");
        reveal_strlit("src_t_cell_s");
        assert("range_db"@.len() != "src_t_cell_s"@.len());
    }
    assert("normalisation"@ != "src_t_cell_s"@) by {
        reveal_strlit("normalisation");
        reveal_strlit("src_t_cell_s");
        assert("normalisation"@.len() != "src_t_cell_s"@.len());
    }
    assert("level"@ != "src_t_cell_s"@) by {
        reveal_strlit("level");
        reveal_strlit("src_t_cell_s");
        assert("level"@.len() != "src_t_cell_s"@.len());
    }
    member_is_the_first(f, "src_t_cell_s"@, 7);
    assert("fold"@ != "src_f_cell_hz"@) by {
        reveal_strlit("fold");
        reveal_strlit("src_f_cell_hz");
        assert("fold"@.len() != "src_f_cell_hz"@.len());
    }
    assert("rule"@ != "src_f_cell_hz"@) by {
        reveal_strlit("rule");
        reveal_strlit("src_f_cell_hz");
        assert("rule"@.len() != "src_f_cell_hz"@.len());
    }
    assert("statistic"@ != "src_f_cell_hz"@) by {
        reveal_strlit("statistic");
        reveal_strlit("src_f_cell_hz");
        assert("statistic"@.len() != "src_f_cell_hz"@.len());
    }
    assert("scale"@ != "src_f_cell_hz"@) by {
        reveal_strlit("scale");
        reveal_strlit("src_f_cell_hz");
        assert("scale"@.len() != "src_f_cell_hz"@.len());
    }
    assert("range_db"@ != "src_f_cell_hz"@) by {
        reveal_strlit("range_db");
        reveal_strlit("src_f_cell_hz");
        assert("range_db"@.len() != "src_f_cell_hz"@.len());
    }
    assert("normalisation"@ != "src_f_cell_hz"@) by {
        reveal_strlit("normalisation");
        reveal_strlit("src_f_cell_hz");
        assert("normalisation"@[0] != "src_f_cell_hz"@[0]);
    }
    assert("level"@ != "src_f_cell_hz"@) by {
        reveal_strlit("level");
        reveal_strlit("src_f_cell_hz");
        assert("level"@.len() != "src_f_cell_hz"@.len());
    }
    assert("src_t_cell_s"@ != "src_f_cell_hz"@) by {
        reveal_strlit("src_t_cell_s");
        reveal_strlit("src_f_cell_hz");
        assert("src_t_cell_s"@.len() != "src_f_cell_hz"@.len());
    }
    member_is_the_first(f, "src_f_cell_hz"@, 8);
    assert("lo"@ != "hi"@) by {
        reveal_strlit("lo");
        reveal_strlit("hi");
        assert("lo"@[0] != "hi"@[0]);
    }
    if let Some((lo, hi)) = a.shades.range_db {
        let g = range_v(a.shades.range_db)->Object_0;
        member_is_the_first(g, "lo"@, 0);
        member_is_the_first(g, "hi"@, 1);
    }
}

/// An answer says whether its span can be seen live, and how wide a span can.
pub proof fn an_answer_says_what_can_be_seen_live(a: CoverageAnswer)
    ensures
        at(resolution_v(a), "source"@) == Some(JsonV::Text(a.verdict.source@)),
        at(resolution_v(a), "live"@) == Some(JsonV::Bool(a.verdict.live)),
        at(resolution_v(a), "statement"@) == Some(JsonV::Text(a.verdict.statement@)),
        at(resolution_v(a), "served_span_hz"@) == Some(real_v(a.width_hz)),
        at(resolution_v(a), "max_live_span_hz"@) == Some(opt_real_v(a.max_live_span_hz)),
{
    let f = resolution_v(a)->Object_0;
    member_is_the_first(f, "source"@, 0);
    assert("source"@ != "live"@) by {
        reveal_strlit("source");
        reveal_strlit("live");
        assert("source"@.len() != "live"@.len());
    }
    member_is_the_first(f, "live"@, 1);
    assert("source"@ != "statement"@) by {
        reveal_strlit("source");
        reveal_strlit("statement");
        assert("source"@.len() != "statement"@.len());
    }
    assert("live"@ != "statement"@) by {
        reveal_strlit("live");
        reveal_strlit("statement");
        assert("live"@.len() != "statement"@.len());
    }
    member_is_the_first(f, "statement"@, 2);
    assert("source"@ != "served_span_hz"@) by {
        reveal_strlit("source");
        reveal_strlit("served_span_hz");
        assert("source"@.len() != "served_span_hz"@.len());
    }
    assert("live"@ != "served_span_hz"@) by {
        reveal_strlit("live");
        reveal_strlit("served_span_hz");
        assert("live"@.len() != "served_span_hz"@.len());
    }
    assert("statement"@ != "served_span_hz"@) by {
        reveal_strlit("statement");
        reveal_strlit("served_span_hz");
        assert("statement"@.len() != "served_span_hz"@.len());
    }
    member_is_the_first(f, "served_span_hz"@, 3);
    assert("source"@ != "max_live_span_hz"@) by {
        reveal_strlit("source");
        reveal_strlit("max_live_span_hz");
        assert("source"@.len() != "max_live_span_hz"@.len());
    }
    assert("live"@ != "max_live_span_hz"@) by {
        reveal_strlit("live");
        reveal_strlit("max_live_span_hz");
        assert("live"@.len() != "max_live_span_hz"@.len());
    }
    assert("statement"@ != "max_live_span_hz"@) by {
        reveal_strlit("statement");
        reveal_strlit("max_live_span_hz");
        assert("statement"@.len() != "max_live_span_hz"@.len());
    }
    assert("served_span_hz"@ != "max_live_span_hz"@) by {
        reveal_strlit("served_span_hz");
        reveal_strlit("max_live_span_hz");
        assert("served_span_hz"@.len() != "max_live_span_hz"@.len());
    }
    member_is_the_first(f, "max_live_span_hz"@, 4);
}

/// The plane that decides is named by its place, where the device that was asked for is there.
pub proof fn the_selection_is_told(device: Seq<char>, named: bool, i: usize)
    ensures
        at(selected_v(device, named, Selected::Plane(i)), "device"@) == Some(JsonV::Text(device)),
        at(selected_v(device, named, Selected::Plane(i)), "named"@) == Some(JsonV::Bool(named)),
        at(selected_v(device, named, Selected::Plane(i)), "present"@) == Some(JsonV::Bool(true)),
        at(selected_v(device, named, Selected::Plane(i)), "plane"@) == Some(uint_v(i as int)),
        at(selected_v(device, named, Selected::AbsentDevice), "present"@) == Some(
            JsonV::Bool(false),
        ),
        at(selected_v(device, named, Selected::AbsentDevice), "plane"@) == Some(JsonV::Null),
{
    let f = selected_v(device, named, Selected::Plane(i))->Object_0;
    member_is_the_first(f, "device"@, 0);
    assert("device"@ != "named"@) by {
        reveal_strlit("device");
        reveal_strlit("named");
        assert("device"@.len() != "named"@.len());
    }
    member_is_the_first(f, "named"@, 1);
    assert("device"@ != "present"@) by {
        reveal_strlit("device");
        reveal_strlit("present");
        assert("device"@.len() != "present"@.len());
    }
    assert("named"@ != "present"@) by {
        reveal_strlit("named");
        reveal_strlit("present");
        assert("named"@.len() != "present"@.len());
    }
    member_is_the_first(f, "present"@, 2);
    assert("device"@ != "plane"@) by {
        reveal_strlit("device");
        reveal_strlit("plane");
        assert("device"@.len() != "plane"@.len());
    }
    assert("named"@ != "plane"@) by {
        reveal_strlit("named");
        reveal_strlit("plane");
        assert("named"@[0] != "plane"@[0]);
    }
    assert("present"@ != "plane"@) by {
        reveal_strlit("present");
        reveal_strlit("plane");
        assert("present"@.len() != "plane"@.len());
    }
    member_is_the_first(f, "plane"@, 3);
    let g = selected_v(device, named, Selected::AbsentDevice)->Object_0;
    member_is_the_first(g, "present"@, 2);
    member_is_the_first(g, "plane"@, 3);
}

} // verus!
