//! Coverage: whether the radio was tuned to a cell, in four states.
//!
//! Grey is decided here and nowhere else. *Unobserved* means that nothing looked; *unknown* that
//! the records that would say so are lost; *excluded* that the cell was sampled and deliberately
//! left out of analysis; *observed* everything else. An observed cell is never relabelled: a
//! surviving measurement is itself proof.

use vstd::prelude::*;

use crate::double::Real;
use crate::json::{
    at, member_is_the_first, no_fields, opt_real_v, real_v, scaled_v, text_items, text_v, uint_v,
    Fields, Items, Json, JsonV, Num,
};
use crate::text::texts;

verus! {

/// Which front end a span or a grid speaks of.
#[derive(Debug, PartialEq, Eq)]
pub enum Device {
    /// All of them together.
    Any,
    /// One that was not named.
    Unknown,
    /// This one.
    Id(String),
}

/// What a [`Device`] holds.
#[verifier::ext_equal]
pub enum DeviceV {
    /// All of them together.
    Any,
    /// One that was not named.
    Unknown,
    /// This one.
    Id(Seq<char>),
}

impl Device {
    /// What it holds.
    pub open spec fn view(&self) -> DeviceV {
        match self {
            Device::Any => DeviceV::Any,
            Device::Unknown => DeviceV::Unknown,
            Device::Id(s) => DeviceV::Id(s@),
        }
    }

    /// The label: `any` and `unknown` are labels, not radios.
    pub fn as_str(&self) -> (r: &str)
        ensures
            r@ == self@.label(),
    {
        match self {
            Device::Any => "any",
            Device::Unknown => "unknown",
            Device::Id(s) => s.as_str(),
        }
    }

    /// A real front-end identity.
    pub fn is_named(&self) -> (r: bool)
        ensures
            r == (self@ is Id),
    {
        match self {
            Device::Id(_) => true,
            _ => false,
        }
    }

    /// A copy.
    pub fn copy(&self) -> (r: Device)
        ensures
            r@ == self@,
    {
        match self {
            Device::Any => Device::Any,
            Device::Unknown => Device::Unknown,
            Device::Id(s) => Device::Id(s.clone()),
        }
    }
}

impl DeviceV {
    /// The label.
    pub open spec fn label(self) -> Seq<char> {
        match self {
            DeviceV::Any => "any"@,
            DeviceV::Unknown => "unknown"@,
            DeviceV::Id(s) => s,
        }
    }
}

/// How a cell was sampled.
#[derive(Clone, Copy, Debug, PartialEq, Eq, Structural)]
pub struct Sampled {
    /// Spans that reach the cell.
    pub spans: u64,
    /// Time sampled, ns.
    pub observed_ns: i64,
    /// Time analysed, ns.
    pub analysed_ns: i64,
    /// The fraction of the cell's time that was sampled.
    pub duty: Real,
    /// When it was last sampled, ns.
    pub last: i64,
    /// The centre it was sampled at, Hz.
    pub center_hz: Real,
    /// The rate it was sampled at, Hz.
    pub sample_rate_hz: Real,
}

/// Whether the radio was tuned to a cell.
#[derive(Clone, Copy, Debug, PartialEq, Eq, Structural)]
pub enum Coverage {
    /// No record says so.
    Unobserved,
    /// It was.
    Sampled(Sampled),
}

/// The wire vocabulary of a cell's state, by its code.
pub open spec fn states_v() -> Seq<Seq<char>> {
    seq!["unobserved"@, "observed"@, "unknown"@, "excluded"@]
}

/// How many states there are.
pub const STATES: usize = 4;

/// Nothing ever looked. Grey, and only this is grey.
pub const UNOBSERVED: u8 = 0;

/// The radio was here.
pub const OBSERVED: u8 = 1;

/// We no longer know whether we looked. Not grey, not a level.
pub const UNKNOWN: u8 = 2;

/// Sampled, and deliberately excluded from analysis: the receiver's own notch at its centre.
pub const EXCLUDED: u8 = 3;

/// The name of a state.
pub open spec fn state_name(code: u8) -> Seq<char> {
    if code == UNOBSERVED {
        "unobserved"@
    } else if code == OBSERVED {
        "observed"@
    } else if code == UNKNOWN {
        "unknown"@
    } else {
        "excluded"@
    }
}

/// [`state_name`].
pub fn state_str(code: u8) -> (r: &'static str)
    requires
        code < STATES,
    ensures
        r@ == state_name(code),
        r@ == states_v()[code as int],
{
    if code == UNOBSERVED {
        "unobserved"
    } else if code == OBSERVED {
        "observed"
    } else if code == UNKNOWN {
        "unknown"
    } else {
        "excluded"
    }
}

/// The vocabulary, served beside every plane so that a code is never read against an alphabet that
/// the answer did not state.
pub fn states_json() -> (r: Json)
    ensures
        r.view() == JsonV::Array(text_items(states_v())),
{
    let names = ["unobserved", "observed", "unknown", "excluded"];
    assert(texts(names@) =~= states_v());
    Json::texts(&names)
}

impl Coverage {
    /// The radio was tuned here.
    pub open spec fn observed(self) -> bool {
        self is Sampled
    }

    /// Sampled, and no part of it analysed.
    pub open spec fn excluded(self) -> bool {
        match self {
            Coverage::Sampled(s) => s.analysed_ns == 0,
            Coverage::Unobserved => false,
        }
    }

    /// [`Coverage::observed`].
    pub fn is_observed(&self) -> (r: bool)
        ensures
            r == self.observed(),
    {
        match self {
            Coverage::Sampled(_) => true,
            Coverage::Unobserved => false,
        }
    }

    /// [`Coverage::excluded`].
    pub fn is_excluded(&self) -> (r: bool)
        ensures
            r == self.excluded(),
    {
        match self {
            Coverage::Sampled(s) => s.analysed_ns == 0,
            Coverage::Unobserved => false,
        }
    }
}

/// The code of a cell: only an unobserved cell past the horizon becomes unknown.
pub open spec fn code_of(c: Coverage, beyond_horizon: bool) -> u8 {
    match c {
        Coverage::Unobserved => if beyond_horizon {
            UNKNOWN
        } else {
            UNOBSERVED
        },
        Coverage::Sampled(_) => if c.excluded() {
            EXCLUDED
        } else {
            OBSERVED
        },
    }
}

/// [`code_of`].
pub fn state_code(c: &Coverage, beyond_horizon: bool) -> (r: u8)
    ensures
        r == code_of(*c, beyond_horizon),
        r < STATES,
{
    match c {
        Coverage::Unobserved => if beyond_horizon {
            UNKNOWN
        } else {
            UNOBSERVED
        },
        Coverage::Sampled(s) => if s.analysed_ns == 0 {
            EXCLUDED
        } else {
            OBSERVED
        },
    }
}

/// One cell in JSON. A cell that was not sampled carries no measurement, so that nothing can be
/// read as a level of zero. `shade` is absent where the caller attaches none, and `null` where the
/// level is not retained.
pub open spec fn cell_v(c: Coverage, shade: Option<Option<Real>>, beyond_horizon: bool) -> JsonV {
    let state = no_fields().push(("state"@, text_v(state_name(code_of(c, beyond_horizon)))));
    match c {
        Coverage::Unobserved => JsonV::Object(state),
        Coverage::Sampled(s) => {
            let f = state.push(("spans"@, uint_v(s.spans as int))).push(
                ("observed_s"@, scaled_v(s.observed_ns)),
            ).push(("analysed_s"@, scaled_v(s.analysed_ns))).push(("duty"@, real_v(s.duty))).push(
                ("last_s"@, scaled_v(s.last)),
            ).push(("center_hz"@, real_v(s.center_hz))).push(
                ("sample_rate_hz"@, real_v(s.sample_rate_hz)),
            );
            JsonV::Object(
                match shade {
                    Some(x) => f.push(("shade"@, opt_real_v(x))),
                    None => f,
                },
            )
        },
    }
}

/// [`cell_v`].
pub fn cell_json(c: &Coverage, shade: Option<Option<Real>>, beyond_horizon: bool) -> (r: Json)
    ensures
        r.view() == cell_v(*c, shade, beyond_horizon),
{
    let mut f = Fields::new();
    f.put("state", Json::text(state_str(state_code(c, beyond_horizon))));
    match c {
        Coverage::Unobserved => {},
        Coverage::Sampled(s) => {
            f.put("spans", Json::uint(s.spans));
            f.put("observed_s", Json::scaled(s.observed_ns));
            f.put("analysed_s", Json::scaled(s.analysed_ns));
            f.put("duty", Json::double(s.duty));
            f.put("last_s", Json::scaled(s.last));
            f.put("center_hz", Json::double(s.center_hz));
            f.put("sample_rate_hz", Json::double(s.sample_rate_hz));
            if let Some(x) = shade {
                f.put("shade", Json::opt_double(x));
            }
        },
    }
    f.object()
}

/// The per-cell form and the compact code name one state, whatever the horizon; a cell that was
/// sampled keeps its state past it, and one that was not carries nothing but its state.
pub proof fn encodings_agree(c: Coverage, shade: Option<Option<Real>>, beyond_horizon: bool)
    ensures
        cell_v(c, shade, beyond_horizon)->Object_0[0] == (
            "state"@,
            text_v(state_name(code_of(c, beyond_horizon))),
        ),
        state_name(code_of(c, beyond_horizon)) == states_v()[code_of(c, beyond_horizon) as int],
        c.observed() ==> code_of(c, beyond_horizon) == code_of(c, false),
        !c.observed() ==> cell_v(c, shade, beyond_horizon)->Object_0.len() == 1,
        code_of(c, beyond_horizon) == UNKNOWN <==> (!c.observed() && beyond_horizon),
        code_of(c, beyond_horizon) == UNOBSERVED <==> (!c.observed() && !beyond_horizon),
{
}

// ---------------------------------------------------------------------------------------------
// Runs
// ---------------------------------------------------------------------------------------------

/// The codes that runs of codes stand for.
pub open spec fn expanded(runs: Seq<(u8, u64)>) -> Seq<u8>
    decreases runs.len(),
{
    if runs.len() == 0 {
        Seq::empty()
    } else {
        expanded(runs.drop_last()) + Seq::new(runs.last().1 as nat, |i: int| runs.last().0)
    }
}

/// Each run has a length, and no two runs beside each other have one code.
pub open spec fn proper_runs(runs: Seq<(u8, u64)>) -> bool {
    &&& forall|i: int| 0 <= i < runs.len() ==> (#[trigger] runs[i]).1 > 0
    &&& forall|i: int, j: int|
        0 <= i && j == i + 1 && j < runs.len() ==> (#[trigger] runs[i]).0 != (#[trigger] runs[j]).0
}

/// The canonical runs of some codes.
pub open spec fn runs_of(codes: Seq<u8>) -> Seq<(u8, u64)> {
    choose|runs: Seq<(u8, u64)>| #[trigger] expanded(runs) == codes && proper_runs(runs)
}

/// The runs of some codes.
fn count_runs(codes: &[u8]) -> (r: Vec<(u8, u64)>)
    ensures
        expanded(r@) == codes@,
        proper_runs(r@),
        r@ == runs_of(codes@),
{
    let mut out: Vec<(u8, u64)> = Vec::new();
    let mut i: usize = 0;
    assert(codes@.take(0) =~= Seq::empty());
    while i < codes.len()
        invariant
            i <= codes@.len(),
            expanded(out@) == codes@.take(i as int),
            proper_runs(out@),
        decreases codes@.len() - i,
    {
        let c = codes[i];
        let ghost before = out@;
        let n = out.len();
        assert(codes@.take(i + 1) =~= codes@.take(i as int).push(c));
        proof {
            if n > 0 {
                run_is_part(before, n - 1);
            }
            one_more(before, c);
        }
        if n > 0 && out[n - 1].0 == c {
            let k = out[n - 1].1;
            out[n - 1] = (c, k + 1);
            assert(out@ =~= joined(before, c));
        } else {
            out.push((c, 1));
        }
        i += 1;
    }
    proof {
        assert(codes@.take(codes@.len() as int) =~= codes@);
        runs_are_canonical(out@, runs_of(codes@));
    }
    out
}

/// Runs kept in memory: a length takes 32 bits.
pub open spec fn wide(runs: Seq<(u8, u32)>) -> Seq<(u8, u64)> {
    runs.map_values(|p: (u8, u32)| (p.0, p.1 as u64))
}

/// The codes that runs in memory stand for.
pub open spec fn kept(runs: Seq<(u8, u32)>) -> Seq<u8> {
    expanded(wide(runs))
}

/// No run of some codes is longer than 32 bits count.
pub open spec fn runs_are_short(codes: Seq<u8>) -> bool {
    forall|i: int|
        0 <= i < runs_of(codes).len() ==> (#[trigger] runs_of(codes)[i]).1 <= u32::MAX
}

/// The runs of some codes, to be kept in memory.
pub fn run_length(codes: &[u8]) -> (r: Vec<(u8, u32)>)
    requires
        runs_are_short(codes@),
    ensures
        wide(r@) == runs_of(codes@),
        kept(r@) == codes@,
        proper_runs(wide(r@)),
{
    let runs = count_runs(codes);
    let mut out: Vec<(u8, u32)> = Vec::new();
    let mut i: usize = 0;
    while i < runs.len()
        invariant
            i <= runs@.len(),
            runs@ == runs_of(codes@),
            runs_are_short(codes@),
            out@.len() == i,
            forall|k: int|
                0 <= k < i ==> (#[trigger] out@[k]).0 == runs@[k].0 && out@[k].1 as u64
                    == runs@[k].1,
        decreases runs@.len() - i,
    {
        assert(runs_of(codes@)[i as int].1 <= u32::MAX);
        out.push((runs[i].0, runs[i].1 as u32));
        i += 1;
    }
    assert(wide(out@) =~= runs@);
    out
}

/// A run is no longer than the codes that it is part of.
proof fn run_is_part(runs: Seq<(u8, u64)>, i: int)
    requires
        0 <= i < runs.len(),
    ensures
        runs[i].1 <= expanded(runs).len(),
    decreases runs.len(),
{
    if i < runs.len() - 1 {
        run_is_part(runs.drop_last(), i);
    }
}

/// Few codes have short runs.
pub proof fn few_codes_have_short_runs(codes: Seq<u8>)
    requires
        codes.len() <= u32::MAX,
    ensures
        runs_are_short(codes),
{
    runs_exist(codes);
    assert forall|i: int| 0 <= i < runs_of(codes).len() implies (#[trigger] runs_of(codes)[i]).1
        <= u32::MAX by {
        run_is_part(runs_of(codes), i);
    }
}

/// Codes have runs.
pub proof fn runs_exist(codes: Seq<u8>)
    requires
        codes.len() <= u64::MAX,
    ensures
        expanded(runs_of(codes)) == codes,
        proper_runs(runs_of(codes)),
    decreases codes.len(),
{
    if codes.len() == 0 {
        let none = Seq::<(u8, u64)>::empty();
        assert(expanded(none) == codes && proper_runs(none));
    } else {
        let t = codes.drop_last();
        let c = codes.last();
        runs_exist(t);
        let before = runs_of(t);
        assert(t.push(c) =~= codes);
        let after = joined(before, c);
        if before.len() > 0 {
            run_is_part(before, before.len() - 1);
        }
        one_more(before, c);
        assert(expanded(after) == codes && proper_runs(after));
    }
}

/// Runs with one more code.
spec fn joined(runs: Seq<(u8, u64)>, c: u8) -> Seq<(u8, u64)> {
    if runs.len() > 0 && runs.last().0 == c {
        runs.drop_last().push((c, (runs.last().1 + 1) as u64))
    } else {
        runs.push((c, 1))
    }
}

proof fn one_more(runs: Seq<(u8, u64)>, c: u8)
    requires
        proper_runs(runs),
        runs.len() > 0 ==> runs.last().1 < u64::MAX,
    ensures
        proper_runs(joined(runs, c)),
        expanded(joined(runs, c)) == expanded(runs).push(c),
{
    let out = joined(runs, c);
    let n = runs.len();
    if n > 0 && runs.last().0 == c {
        let k = runs.last().1;
        assert(out.drop_last() =~= runs.drop_last());
        let a = Seq::new(k as nat, |i: int| runs.last().0);
        let b = Seq::new((k + 1) as nat, |i: int| out.last().0);
        assert(a.push(c) =~= b);
        assert(expanded(out) =~= expanded(runs).push(c));
    } else {
        assert(out.drop_last() =~= runs);
        let one = Seq::new(1nat, |i: int| out.last().0);
        assert(one =~= seq![c]);
        assert(expanded(out) =~= expanded(runs).push(c));
    }
    assert forall|i: int| 0 <= i < out.len() implies (#[trigger] out[i]).1 > 0 by {
        if i < n {
            assert(runs[i].1 > 0);
        }
    }
    assert forall|i: int, j: int| 0 <= i && j == i + 1 && j < out.len() implies (#[trigger] out[i]).0
        != (#[trigger] out[j]).0 by {
        if j < n {
            assert(runs[i].0 != runs[j].0);
        }
    }
}

/// [`kept`].
pub fn expand_runs(runs: &[(u8, u32)]) -> (r: Vec<u8>)
    ensures
        r@ == kept(runs@),
{
    let mut out: Vec<u8> = Vec::new();
    let mut i: usize = 0;
    let ghost all = wide(runs@);
    assert(all.take(0) =~= Seq::empty());
    while i < runs.len()
        invariant
            i <= runs@.len(),
            all == wide(runs@),
            out@ == expanded(all.take(i as int)),
        decreases runs@.len() - i,
    {
        let (c, n) = runs[i];
        let ghost before = out@;
        let mut k: u32 = 0;
        assert(before + Seq::new(0nat, |i: int| c) =~= before);
        while k < n
            invariant
                k <= n,
                out@ == before + Seq::new(k as nat, |i: int| c),
            decreases n - k,
        {
            out.push(c);
            assert(out@ =~= before + Seq::new((k + 1) as nat, |i: int| c));
            k += 1;
        }
        proof {
            assert(all.take(i + 1).drop_last() =~= all.take(i as int));
            let t = all.take(i + 1);
            assert(t.last() == (c, n as u64));
            assert(Seq::new(n as nat, |k: int| c) =~= Seq::new(
                t.last().1 as nat,
                |k: int| t.last().0,
            ));
        }
        i += 1;
    }
    assert(all.take(runs@.len() as int) =~= all);
    out
}

/// Runs as a flat list: code, count, code, count.
pub open spec fn flat(runs: Seq<(u8, u64)>) -> Seq<u64>
    decreases runs.len(),
{
    if runs.len() == 0 {
        Seq::empty()
    } else {
        flat(runs.drop_last()).push(runs.last().0 as u64).push(runs.last().1)
    }
}

/// The runs of some codes as a flat list: the codes come back from it, a run boundary is exactly a
/// change of state, and there are two entries for each run.
pub fn rle(codes: &[u8]) -> (r: Vec<u64>)
    ensures
        r@ == flat(runs_of(codes@)),
        expanded(runs_of(codes@)) == codes@,
        proper_runs(runs_of(codes@)),
{
    let runs = count_runs(codes);
    let mut out: Vec<u64> = Vec::new();
    let mut i: usize = 0;
    assert(runs@.take(0) =~= Seq::empty());
    while i < runs.len()
        invariant
            i <= runs@.len(),
            out@ == flat(runs@.take(i as int)),
        decreases runs@.len() - i,
    {
        assert(runs@.take(i + 1).drop_last() =~= runs@.take(i as int));
        out.push(runs[i].0 as u64);
        out.push(runs[i].1);
        i += 1;
    }
    assert(runs@.take(runs@.len() as int) =~= runs@);
    out
}

/// A flat list read back as runs.
pub open spec fn unflat(v: Seq<u64>) -> Seq<(u8, u64)>
    decreases v.len(),
{
    if v.len() < 2 {
        Seq::empty()
    } else {
        unflat(v.take(v.len() - 2)).push((v[v.len() - 2] as u8, v[v.len() - 1]))
    }
}

/// The flat list gives the runs back, so the codes come back from what is served.
pub proof fn flat_is_lossless(runs: Seq<(u8, u64)>)
    ensures
        flat(runs).len() == 2 * runs.len(),
        unflat(flat(runs)) == runs,
    decreases runs.len(),
{
    if runs.len() > 0 {
        let t = runs.drop_last();
        flat_is_lossless(t);
        let f = flat(runs);
        assert(f.take(f.len() - 2) =~= flat(t));
        assert(t.push(runs.last()) =~= runs);
    }
}

/// Two proper runs that stand for the same codes are the same: the encoding is canonical.
pub proof fn runs_are_canonical(a: Seq<(u8, u64)>, b: Seq<(u8, u64)>)
    requires
        proper_runs(a),
        proper_runs(b),
        expanded(a) == expanded(b),
    ensures
        a == b,
    decreases a.len() + b.len(),
{
    if a.len() == 0 && b.len() == 0 {
        assert(a =~= b);
    } else if a.len() == 0 {
        assert(b[b.len() - 1].1 > 0);
        assert(expanded(b).len() > 0);
    } else if b.len() == 0 {
        assert(a[a.len() - 1].1 > 0);
        assert(expanded(a).len() > 0);
    } else {
        let ea = expanded(a);
        let eb = expanded(b);
        let (ca, na) = a.last();
        let (cb, nb) = b.last();
        let ha = expanded(a.drop_last());
        let hb = expanded(b.drop_last());
        assert(a[a.len() - 1].1 > 0);
        assert(b[b.len() - 1].1 > 0);
        assert(ea[ea.len() - 1] == ca);
        assert(eb[eb.len() - 1] == cb);
        assert(ca == cb);
        if na < nb {
            run_boundary(a);
            if ha.len() > 0 {
                assert(ea[ha.len() - 1] == ha[ha.len() - 1]);
                assert(eb[ha.len() - 1] == cb);
            } else {
                assert(ea.len() == na);
                assert(eb.len() >= nb);
            }
        } else if nb < na {
            run_boundary(b);
            if hb.len() > 0 {
                assert(eb[hb.len() - 1] == hb[hb.len() - 1]);
                assert(ea[hb.len() - 1] == ca);
            } else {
                assert(eb.len() == nb);
                assert(ea.len() >= na);
            }
        }
        assert(na == nb);
        assert(ha =~= ea.take(ha.len() as int));
        assert(hb =~= eb.take(hb.len() as int));
        proper_prefix(a);
        proper_prefix(b);
        runs_are_canonical(a.drop_last(), b.drop_last());
        assert(a =~= a.drop_last().push(a.last()));
        assert(b =~= b.drop_last().push(b.last()));
    }
}

proof fn proper_prefix(a: Seq<(u8, u64)>)
    requires
        proper_runs(a),
        a.len() > 0,
    ensures
        proper_runs(a.drop_last()),
{
    let t = a.drop_last();
    assert forall|i: int| 0 <= i < t.len() implies (#[trigger] t[i]).1 > 0 by {
        assert(t[i] == a[i]);
    }
    assert forall|i: int, j: int| 0 <= i && j == i + 1 && j < t.len() implies (#[trigger] t[i]).0
        != (#[trigger] t[j]).0 by {
        assert(a[i].0 != a[j].0);
    }
}

/// The code before the last run is another one.
proof fn run_boundary(a: Seq<(u8, u64)>)
    requires
        proper_runs(a),
        a.len() > 0,
    ensures
        expanded(a.drop_last()).len() > 0 ==> expanded(a.drop_last()).last() != a.last().0,
{
    let t = a.drop_last();
    if t.len() > 0 {
        assert(t[t.len() - 1].1 > 0) by {
            assert(t[t.len() - 1] == a[t.len() - 1]);
        }
        assert(expanded(t).last() == t.last().0);
        assert(a[t.len() - 1].0 != a[t.len() as int].0);
    }
}

// ---------------------------------------------------------------------------------------------
// Planes
// ---------------------------------------------------------------------------------------------

/// How many cells have a code.
pub open spec fn count(codes: Seq<u8>, code: u8) -> nat
    decreases codes.len(),
{
    if codes.len() == 0 {
        0
    } else {
        count(codes.drop_last(), code) + (if codes.last() == code {
            1nat
        } else {
            0nat
        })
    }
}

/// Every code is one of the vocabulary.
pub open spec fn valid_codes(codes: Seq<u8>) -> bool {
    forall|i: int| 0 <= i < codes.len() ==> (#[trigger] codes[i]) < STATES
}

/// Every cell has this code.
pub open spec fn all_are(codes: Seq<u8>, code: u8) -> bool {
    forall|i: int| 0 <= i < codes.len() ==> #[trigger] codes[i] == code
}

/// The one state of a plane that has one.
pub open spec fn uniform_of(codes: Seq<u8>) -> Option<Seq<char>> {
    if codes.len() > 0 && all_are(codes, codes[0]) {
        Some(state_name(codes[0]))
    } else {
        None
    }
}

/// [`uniform_of`].
pub fn uniform(codes: &[u8]) -> (r: Option<&'static str>)
    requires
        valid_codes(codes@),
    ensures
        crate::text::opt_text(r) == uniform_of(codes@),
{
    if codes.len() == 0 {
        return None;
    }
    let first = codes[0];
    let mut i: usize = 0;
    while i < codes.len()
        invariant
            i <= codes@.len(),
            codes@.len() > 0,
            first == codes@[0],
            forall|k: int| 0 <= k < i ==> #[trigger] codes@[k] == first,
        decreases codes@.len() - i,
    {
        if codes[i] != first {
            assert(!all_are(codes@, first));
            return None;
        }
        i += 1;
    }
    Some(state_str(first))
}

/// [`count`].
pub fn count_code(codes: &[u8], code: u8) -> (r: usize)
    ensures
        r == count(codes@, code),
        r <= codes@.len(),
{
    let mut n: usize = 0;
    let mut i: usize = 0;
    assert(codes@.take(0) =~= Seq::empty());
    while i < codes.len()
        invariant
            i <= codes@.len(),
            n <= i,
            n == count(codes@.take(i as int), code),
        decreases codes@.len() - i,
    {
        assert(codes@.take(i + 1).drop_last() =~= codes@.take(i as int));
        if codes[i] == code {
            n += 1;
        }
        i += 1;
    }
    assert(codes@.take(codes@.len() as int) =~= codes@);
    n
}

/// The numbers of a flat list.
pub open spec fn numbers(v: Seq<u64>) -> Seq<JsonV> {
    v.map_values(|n: u64| JsonV::Number(Num::U(n)))
}

/// [`numbers`].
pub fn numbers_json(v: &Vec<u64>) -> (r: Json)
    ensures
        r.view() == JsonV::Array(numbers(v@)),
{
    let mut out = Items::new();
    let mut i: usize = 0;
    assert(numbers(v@).take(0) =~= Seq::empty());
    while i < v.len()
        invariant
            i <= v@.len(),
            out@ == numbers(v@).take(i as int),
        decreases v@.len() - i,
    {
        assert(numbers(v@).take(i + 1) =~= numbers(v@).take(i as int).push(
            JsonV::Number(Num::U(v@[i as int])),
        ));
        out.push(Json::uint(v[i]));
        i += 1;
    }
    assert(numbers(v@).take(v@.len() as int) =~= numbers(v@));
    out.array()
}

/// The fraction of the cells that were sampled, excluded ones included.
pub open spec fn fraction_v(sampled: nat, cells: nat) -> JsonV {
    JsonV::Number(
        if cells == 0 {
            Num::R(Real { bits: 0 })
        } else {
            Num::Ratio(sampled as u64, cells as u64)
        },
    )
}

/// [`fraction_v`].
pub fn sampled_fraction(sampled: usize, cells: usize) -> (r: Json)
    ensures
        r.view() == fraction_v(sampled as nat, cells as nat),
{
    Json::Number(
        if cells == 0 {
            Num::R(Real { bits: 0 })
        } else {
            Num::Ratio(sampled as u64, cells as u64)
        },
    )
}

/// One plane in JSON, its cells as these runs: every number is of the same codes that the runs
/// stand for.
pub open spec fn plane_v(codes: Seq<u8>, runs: Seq<(u8, u64)>) -> JsonV {
    JsonV::Object(
        no_fields().push(("runs"@, JsonV::Array(numbers(flat(runs))))).push(
            ("cells"@, uint_v(codes.len() as int)),
        ).push(("uniform"@, crate::json::opt_text_v(uniform_of(codes)))).push(
            ("observed_cells"@, uint_v(count(codes, OBSERVED) as int)),
        ).push(("unobserved_cells"@, uint_v(count(codes, UNOBSERVED) as int))).push(
            ("unknown_cells"@, uint_v(count(codes, UNKNOWN) as int)),
        ).push(("excluded_cells"@, uint_v(count(codes, EXCLUDED) as int))).push(
            (
                "observed_fraction"@,
                fraction_v(count(codes, OBSERVED) + count(codes, EXCLUDED), codes.len()),
            ),
        ),
    )
}

/// Two counts of different codes together are no more than the cells.
proof fn counts_fit(codes: Seq<u8>, a: u8, b: u8)
    requires
        a != b,
    ensures
        count(codes, a) + count(codes, b) <= codes.len(),
    decreases codes.len(),
{
    if codes.len() > 0 {
        counts_fit(codes.drop_last(), a, b);
    }
}

/// [`plane_v`], with the canonical runs of the codes.
pub fn plane_json(codes: &[u8]) -> (r: Json)
    requires
        valid_codes(codes@),
    ensures
        r.view() == plane_v(codes@, runs_of(codes@)),
        expanded(runs_of(codes@)) == codes@,
        proper_runs(runs_of(codes@)),
{
    let flat_runs = rle(codes);
    proof {
        counts_fit(codes@, OBSERVED, EXCLUDED);
    }
    let name = match uniform(codes) {
        Some(s) => Json::text(s),
        None => Json::Null,
    };
    let observed = count_code(codes, OBSERVED);
    let excluded = count_code(codes, EXCLUDED);
    let mut f = Fields::new();
    f.put("runs", numbers_json(&flat_runs));
    f.put("cells", Json::uint(codes.len() as u64));
    f.put("uniform", name);
    f.put("observed_cells", Json::uint(observed as u64));
    f.put("unobserved_cells", Json::uint(count_code(codes, UNOBSERVED) as u64));
    f.put("unknown_cells", Json::uint(count_code(codes, UNKNOWN) as u64));
    f.put("excluded_cells", Json::uint(excluded as u64));
    f.put("observed_fraction", sampled_fraction(observed + excluded, codes.len()));
    f.object()
}

/// A cell carries a measurement exactly where it was sampled. One that nothing looked at, or of
/// which it is no longer known whether anything did, says its state and nothing else.
pub proof fn only_the_sampled_carry_a_measurement(
    c: Coverage,
    shade: Option<Option<Real>>,
    beyond_horizon: bool,
)
    ensures
        cell_v(c, shade, beyond_horizon) matches JsonV::Object(f) && f.len() >= 1 && f[0] == (
            "state"@,
            text_v(state_name(code_of(c, beyond_horizon))),
        ) && (f.len() == 1 <==> code_of(c, beyond_horizon) == UNOBSERVED || code_of(
            c,
            beyond_horizon,
        ) == UNKNOWN),
        state_name(UNOBSERVED) != state_name(OBSERVED),
        state_name(UNOBSERVED) != state_name(EXCLUDED),
        state_name(UNKNOWN) != state_name(OBSERVED),
        state_name(UNKNOWN) != state_name(EXCLUDED),
        state_name(UNKNOWN) != state_name(UNOBSERVED),
{
    reveal_strlit("unobserved");
    reveal_strlit("observed");
    reveal_strlit("unknown");
    reveal_strlit("excluded");
    assert("unobserved"@.len() == 10 && "unknown"@.len() == 7 && "observed"@.len() == 8
        && "excluded"@.len() == 8);
}

/// The four counts of a plane are all of its cells.
pub proof fn counts_are_complete(codes: Seq<u8>)
    requires
        valid_codes(codes),
    ensures
        count(codes, UNOBSERVED) + count(codes, OBSERVED) + count(codes, UNKNOWN) + count(
            codes,
            EXCLUDED,
        ) == codes.len(),
    decreases codes.len(),
{
    if codes.len() > 0 {
        let t = codes.drop_last();
        assert forall|i: int| 0 <= i < t.len() implies (#[trigger] t[i]) < STATES by {
            assert(t[i] == codes[i]);
        }
        counts_are_complete(t);
        assert(codes[codes.len() - 1] < STATES);
    }
}

/// What the codes say: sampled spectrum is observed, or excluded where none of it was analysed;
/// spectrum that was not sampled is unobserved, or unknown past the record horizon. Each has a name
/// of its own.
pub proof fn codes_say_what_was_sampled(c: Coverage, beyond_horizon: bool)
    ensures
        code_of(c, beyond_horizon) == 1 <==> (c matches Coverage::Sampled(s) && s.analysed_ns != 0),
        code_of(c, beyond_horizon) == 3 <==> (c matches Coverage::Sampled(s) && s.analysed_ns == 0),
        code_of(c, beyond_horizon) == 2 <==> c is Unobserved && beyond_horizon,
        code_of(c, beyond_horizon) == 0 <==> c is Unobserved && !beyond_horizon,
        state_name(0) == "unobserved"@,
        state_name(1) == "observed"@,
        state_name(2) == "unknown"@,
        state_name(3) == "excluded"@,
{
}

/// What a reader finds of a cell: its state, and where it was sampled what was measured of it, with
/// its level where levels are drawn.
pub proof fn a_cell_is_served_with_its_measurement(
    c: Coverage,
    shade: Option<Option<Real>>,
    beyond_horizon: bool,
)
    ensures
        at(cell_v(c, shade, beyond_horizon), "state"@) == Some(
            text_v(state_name(code_of(c, beyond_horizon))),
        ),
        c matches Coverage::Sampled(s) ==> {
            let v = cell_v(c, shade, beyond_horizon);
            &&& at(v, "spans"@) == Some(uint_v(s.spans as int))
            &&& at(v, "observed_s"@) == Some(scaled_v(s.observed_ns))
            &&& at(v, "analysed_s"@) == Some(scaled_v(s.analysed_ns))
            &&& at(v, "duty"@) == Some(real_v(s.duty))
            &&& at(v, "last_s"@) == Some(scaled_v(s.last))
            &&& at(v, "center_hz"@) == Some(real_v(s.center_hz))
            &&& at(v, "sample_rate_hz"@) == Some(real_v(s.sample_rate_hz))
            &&& shade matches Some(x) ==> at(v, "shade"@) == Some(opt_real_v(x))
            &&& shade is None ==> at(v, "shade"@) is None
        },
{
    let f = cell_v(c, shade, beyond_horizon)->Object_0;
    member_is_the_first(f, "state"@, 0);
    if let Coverage::Sampled(s) = c {
        assert("state"@ != "spans"@) by {
            reveal_strlit("state");
            reveal_strlit("spans");
            assert("state"@[1] != "spans"@[1]);
        }
        member_is_the_first(f, "spans"@, 1);
        assert("state"@ != "observed_s"@) by {
            reveal_strlit("state");
            reveal_strlit("observed_s");
            assert("state"@.len() != "observed_s"@.len());
        }
        assert("spans"@ != "observed_s"@) by {
            reveal_strlit("spans");
            reveal_strlit("observed_s");
            assert("spans"@.len() != "observed_s"@.len());
        }
        member_is_the_first(f, "observed_s"@, 2);
        assert("state"@ != "analysed_s"@) by {
            reveal_strlit("state");
            reveal_strlit("analysed_s");
            assert("state"@.len() != "analysed_s"@.len());
        }
        assert("spans"@ != "analysed_s"@) by {
            reveal_strlit("spans");
            reveal_strlit("analysed_s");
            assert("spans"@.len() != "analysed_s"@.len());
        }
        assert("observed_s"@ != "analysed_s"@) by {
            reveal_strlit("observed_s");
            reveal_strlit("analysed_s");
            assert("observed_s"@[0] != "analysed_s"@[0]);
        }
        member_is_the_first(f, "analysed_s"@, 3);
        assert("state"@ != "duty"@) by {
            reveal_strlit("state");
            reveal_strlit("duty");
            assert("state"@.len() != "duty"@.len());
        }
        assert("spans"@ != "duty"@) by {
            reveal_strlit("spans");
            reveal_strlit("duty");
            assert("spans"@.len() != "duty"@.len());
        }
        assert("observed_s"@ != "duty"@) by {
            reveal_strlit("observed_s");
            reveal_strlit("duty");
            assert("observed_s"@.len() != "duty"@.len());
        }
        assert("analysed_s"@ != "duty"@) by {
            reveal_strlit("analysed_s");
            reveal_strlit("duty");
            assert("analysed_s"@.len() != "duty"@.len());
        }
        member_is_the_first(f, "duty"@, 4);
        assert("state"@ != "last_s"@) by {
            reveal_strlit("state");
            reveal_strlit("last_s");
            assert("state"@.len() != "last_s"@.len());
        }
        assert("spans"@ != "last_s"@) by {
            reveal_strlit("spans");
            reveal_strlit("last_s");
            assert("spans"@.len() != "last_s"@.len());
        }
        assert("observed_s"@ != "last_s"@) by {
            reveal_strlit("observed_s");
            reveal_strlit("last_s");
            assert("observed_s"@.len() != "last_s"@.len());
        }
        assert("analysed_s"@ != "last_s"@) by {
            reveal_strlit("analysed_s");
            reveal_strlit("last_s");
            assert("analysed_s"@.len() != "last_s"@.len());
        }
        assert("duty"@ != "last_s"@) by {
            reveal_strlit("duty");
            reveal_strlit("last_s");
            assert("duty"@.len() != "last_s"@.len());
        }
        member_is_the_first(f, "last_s"@, 5);
        assert("state"@ != "center_hz"@) by {
            reveal_strlit("state");
            reveal_strlit("center_hz");
            assert("state"@.len() != "center_hz"@.len());
        }
        assert("spans"@ != "center_hz"@) by {
            reveal_strlit("spans");
            reveal_strlit("center_hz");
            assert("spans"@.len() != "center_hz"@.len());
        }
        assert("observed_s"@ != "center_hz"@) by {
            reveal_strlit("observed_s");
            reveal_strlit("center_hz");
            assert("observed_s"@.len() != "center_hz"@.len());
        }
        assert("analysed_s"@ != "center_hz"@) by {
            reveal_strlit("analysed_s");
            reveal_strlit("center_hz");
            assert("analysed_s"@.len() != "center_hz"@.len());
        }
        assert("duty"@ != "center_hz"@) by {
            reveal_strlit("duty");
            reveal_strlit("center_hz");
            assert("duty"@.len() != "center_hz"@.len());
        }
        assert("last_s"@ != "center_hz"@) by {
            reveal_strlit("last_s");
            reveal_strlit("center_hz");
            assert("last_s"@.len() != "center_hz"@.len());
        }
        member_is_the_first(f, "center_hz"@, 6);
        assert("state"@ != "sample_rate_hz"@) by {
            reveal_strlit("state");
            reveal_strlit("sample_rate_hz");
            assert("state"@.len() != "sample_rate_hz"@.len());
        }
        assert("spans"@ != "sample_rate_hz"@) by {
            reveal_strlit("spans");
            reveal_strlit("sample_rate_hz");
            assert("spans"@.len() != "sample_rate_hz"@.len());
        }
        assert("observed_s"@ != "sample_rate_hz"@) by {
            reveal_strlit("observed_s");
            reveal_strlit("sample_rate_hz");
            assert("observed_s"@.len() != "sample_rate_hz"@.len());
        }
        assert("analysed_s"@ != "sample_rate_hz"@) by {
            reveal_strlit("analysed_s");
            reveal_strlit("sample_rate_hz");
            assert("analysed_s"@.len() != "sample_rate_hz"@.len());
        }
        assert("duty"@ != "sample_rate_hz"@) by {
            reveal_strlit("duty");
            reveal_strlit("sample_rate_hz");
            assert("duty"@.len() != "sample_rate_hz"@.len());
        }
        assert("last_s"@ != "sample_rate_hz"@) by {
            reveal_strlit("last_s");
            reveal_strlit("sample_rate_hz");
            assert("last_s"@.len() != "sample_rate_hz"@.len());
        }
        assert("center_hz"@ != "sample_rate_hz"@) by {
            reveal_strlit("center_hz");
            reveal_strlit("sample_rate_hz");
            assert("center_hz"@.len() != "sample_rate_hz"@.len());
        }
        member_is_the_first(f, "sample_rate_hz"@, 7);
            assert("state"@ != "shade"@) by {
            reveal_strlit("state");
            reveal_strlit("shade");
            assert("state"@[1] != "shade"@[1]);
        }
        assert("spans"@ != "shade"@) by {
            reveal_strlit("spans");
            reveal_strlit("shade");
            assert("spans"@[1] != "shade"@[1]);
        }
        assert("observed_s"@ != "shade"@) by {
            reveal_strlit("observed_s");
            reveal_strlit("shade");
            assert("observed_s"@.len() != "shade"@.len());
        }
        assert("analysed_s"@ != "shade"@) by {
            reveal_strlit("analysed_s");
            reveal_strlit("shade");
            assert("analysed_s"@.len() != "shade"@.len());
        }
        assert("duty"@ != "shade"@) by {
            reveal_strlit("duty");
            reveal_strlit("shade");
            assert("duty"@.len() != "shade"@.len());
        }
        assert("last_s"@ != "shade"@) by {
            reveal_strlit("last_s");
            reveal_strlit("shade");
            assert("last_s"@.len() != "shade"@.len());
        }
        assert("center_hz"@ != "shade"@) by {
            reveal_strlit("center_hz");
            reveal_strlit("shade");
            assert("center_hz"@.len() != "shade"@.len());
        }
        assert("sample_rate_hz"@ != "shade"@) by {
            reveal_strlit("sample_rate_hz");
            reveal_strlit("shade");
            assert("sample_rate_hz"@.len() != "shade"@.len());
        }
    
        member_is_the_first(f, "shade"@, 8);
    }
}

/// One cell more is one more of its own code and of no other.
pub proof fn cells_are_counted_by_code(codes: Seq<u8>, c: u8, code: u8)
    ensures
        count(codes.push(c), code) == count(codes, code) + (if c == code {
            1nat
        } else {
            0nat
        }),
        count(Seq::empty(), code) == 0,
{
    assert(codes.push(c).drop_last() =~= codes);
}

/// A plane is called by one state exactly where it has cells and all of them are in it.
pub proof fn uniform_planes_are_uniform(codes: Seq<u8>, code: u8)
    requires
        code < 4,
        valid_codes(codes),
    ensures
        uniform_of(codes) == Some(state_name(code)) <==> codes.len() > 0 && forall|i: int|
            0 <= i < codes.len() ==> #[trigger] codes[i] == code,
        uniform_of(codes) is None <==> codes.len() == 0 || exists|i: int|
            0 <= i < codes.len() && #[trigger] codes[i] != codes[0],
{
    assert("unobserved"@ != "observed"@) by {
        reveal_strlit("unobserved");
        reveal_strlit("observed");
        assert("unobserved"@.len() != "observed"@.len());
    }
    assert("unobserved"@ != "unknown"@) by {
        reveal_strlit("unobserved");
        reveal_strlit("unknown");
        assert("unobserved"@.len() != "unknown"@.len());
    }
    assert("observed"@ != "unknown"@) by {
        reveal_strlit("observed");
        reveal_strlit("unknown");
        assert("observed"@.len() != "unknown"@.len());
    }
    assert("unobserved"@ != "excluded"@) by {
        reveal_strlit("unobserved");
        reveal_strlit("excluded");
        assert("unobserved"@.len() != "excluded"@.len());
    }
    assert("observed"@ != "excluded"@) by {
        reveal_strlit("observed");
        reveal_strlit("excluded");
        assert("observed"@[0] != "excluded"@[0]);
    }
    assert("unknown"@ != "excluded"@) by {
        reveal_strlit("unknown");
        reveal_strlit("excluded");
        assert("unknown"@.len() != "excluded"@.len());
    }
    if codes.len() > 0 {
        assert(codes[0] < 4);
    }
}

/// The share of a plane that was sampled is a ratio of cells; of no cells it is nothing.
pub proof fn the_sampled_share_is_of_the_cells(sampled: nat, cells: nat)
    ensures
        cells > 0 ==> fraction_v(sampled, cells) == JsonV::Number(
            Num::Ratio(sampled as u64, cells as u64),
        ),
        cells == 0 ==> fraction_v(sampled, cells) == JsonV::Number(Num::R(Real { bits: 0 })),
{
}

/// What a reader finds of a plane: its cells in runs, how many are in each state, the one state that
/// all are in, and the share that was sampled, whether or not it was analysed.
pub proof fn a_plane_is_served_with_its_counts(codes: Seq<u8>, runs: Seq<(u8, u64)>)
    ensures
        ({
            let v = plane_v(codes, runs);
            &&& at(v, "runs"@) == Some(JsonV::Array(numbers(flat(runs))))
            &&& at(v, "cells"@) == Some(uint_v(codes.len() as int))
            &&& at(v, "uniform"@) == Some(crate::json::opt_text_v(uniform_of(codes)))
            &&& at(v, "observed_cells"@) == Some(uint_v(count(codes, 1) as int))
            &&& at(v, "unobserved_cells"@) == Some(uint_v(count(codes, 0) as int))
            &&& at(v, "unknown_cells"@) == Some(uint_v(count(codes, 2) as int))
            &&& at(v, "excluded_cells"@) == Some(uint_v(count(codes, 3) as int))
            &&& at(v, "observed_fraction"@) == Some(
                fraction_v(count(codes, 1) + count(codes, 3), codes.len()),
            )
        }),
{
    let f = plane_v(codes, runs)->Object_0;
    member_is_the_first(f, "runs"@, 0);
    assert("runs"@ != "cells"@) by {
        reveal_strlit("runs");
        reveal_strlit("cells");
        assert("runs"@.len() != "cells"@.len());
    }
    member_is_the_first(f, "cells"@, 1);
    assert("runs"@ != "uniform"@) by {
        reveal_strlit("runs");
        reveal_strlit("uniform");
        assert("runs"@.len() != "uniform"@.len());
    }
    assert("cells"@ != "uniform"@) by {
        reveal_strlit("cells");
        reveal_strlit("uniform");
        assert("cells"@.len() != "uniform"@.len());
    }
    member_is_the_first(f, "uniform"@, 2);
    assert("runs"@ != "observed_cells"@) by {
        reveal_strlit("runs");
        reveal_strlit("observed_cells");
        assert("runs"@.len() != "observed_cells"@.len());
    }
    assert("cells"@ != "observed_cells"@) by {
        reveal_strlit("cells");
        reveal_strlit("observed_cells");
        assert("cells"@.len() != "observed_cells"@.len());
    }
    assert("uniform"@ != "observed_cells"@) by {
        reveal_strlit("uniform");
        reveal_strlit("observed_cells");
        assert("uniform"@.len() != "observed_cells"@.len());
    }
    member_is_the_first(f, "observed_cells"@, 3);
    assert("runs"@ != "unobserved_cells"@) by {
        reveal_strlit("runs");
        reveal_strlit("unobserved_cells");
        assert("runs"@.len() != "unobserved_cells"@.len());
    }
    assert("cells"@ != "unobserved_cells"@) by {
        reveal_strlit("cells");
        reveal_strlit("unobserved_cells");
        assert("cells"@.len() != "unobserved_cells"@.len());
    }
    assert("uniform"@ != "unobserved_cells"@) by {
        reveal_strlit("uniform");
        reveal_strlit("unobserved_cells");
        assert("uniform"@.len() != "unobserved_cells"@.len());
    }
    assert("observed_cells"@ != "unobserved_cells"@) by {
        reveal_strlit("observed_cells");
        reveal_strlit("unobserved_cells");
        assert("observed_cells"@.len() != "unobserved_cells"@.len());
    }
    member_is_the_first(f, "unobserved_cells"@, 4);
    assert("runs"@ != "unknown_cells"@) by {
        reveal_strlit("runs");
        reveal_strlit("unknown_cells");
        assert("runs"@.len() != "unknown_cells"@.len());
    }
    assert("cells"@ != "unknown_cells"@) by {
        reveal_strlit("cells");
        reveal_strlit("unknown_cells");
        assert("cells"@.len() != "unknown_cells"@.len());
    }
    assert("uniform"@ != "unknown_cells"@) by {
        reveal_strlit("uniform");
        reveal_strlit("unknown_cells");
        assert("uniform"@.len() != "unknown_cells"@.len());
    }
    assert("observed_cells"@ != "unknown_cells"@) by {
        reveal_strlit("observed_cells");
        reveal_strlit("unknown_cells");
        assert("observed_cells"@.len() != "unknown_cells"@.len());
    }
    assert("unobserved_cells"@ != "unknown_cells"@) by {
        reveal_strlit("unobserved_cells");
        reveal_strlit("unknown_cells");
        assert("unobserved_cells"@.len() != "unknown_cells"@.len());
    }
    member_is_the_first(f, "unknown_cells"@, 5);
    assert("runs"@ != "excluded_cells"@) by {
        reveal_strlit("runs");
        reveal_strlit("excluded_cells");
        assert("runs"@.len() != "excluded_cells"@.len());
    }
    assert("cells"@ != "excluded_cells"@) by {
        reveal_strlit("cells");
        reveal_strlit("excluded_cells");
        assert("cells"@.len() != "excluded_cells"@.len());
    }
    assert("uniform"@ != "excluded_cells"@) by {
        reveal_strlit("uniform");
        reveal_strlit("excluded_cells");
        assert("uniform"@.len() != "excluded_cells"@.len());
    }
    assert("observed_cells"@ != "excluded_cells"@) by {
        reveal_strlit("observed_cells");
        reveal_strlit("excluded_cells");
        assert("observed_cells"@[0] != "excluded_cells"@[0]);
    }
    assert("unobserved_cells"@ != "excluded_cells"@) by {
        reveal_strlit("unobserved_cells");
        reveal_strlit("excluded_cells");
        assert("unobserved_cells"@.len() != "excluded_cells"@.len());
    }
    assert("unknown_cells"@ != "excluded_cells"@) by {
        reveal_strlit("unknown_cells");
        reveal_strlit("excluded_cells");
        assert("unknown_cells"@.len() != "excluded_cells"@.len());
    }
    member_is_the_first(f, "excluded_cells"@, 6);
    assert("runs"@ != "observed_fraction"@) by {
        reveal_strlit("runs");
        reveal_strlit("observed_fraction");
        assert("runs"@.len() != "observed_fraction"@.len());
    }
    assert("cells"@ != "observed_fraction"@) by {
        reveal_strlit("cells");
        reveal_strlit("observed_fraction");
        assert("cells"@.len() != "observed_fraction"@.len());
    }
    assert("uniform"@ != "observed_fraction"@) by {
        reveal_strlit("uniform");
        reveal_strlit("observed_fraction");
        assert("uniform"@.len() != "observed_fraction"@.len());
    }
    assert("observed_cells"@ != "observed_fraction"@) by {
        reveal_strlit("observed_cells");
        reveal_strlit("observed_fraction");
        assert("observed_cells"@.len() != "observed_fraction"@.len());
    }
    assert("unobserved_cells"@ != "observed_fraction"@) by {
        reveal_strlit("unobserved_cells");
        reveal_strlit("observed_fraction");
        assert("unobserved_cells"@.len() != "observed_fraction"@.len());
    }
    assert("unknown_cells"@ != "observed_fraction"@) by {
        reveal_strlit("unknown_cells");
        reveal_strlit("observed_fraction");
        assert("unknown_cells"@.len() != "observed_fraction"@.len());
    }
    assert("excluded_cells"@ != "observed_fraction"@) by {
        reveal_strlit("excluded_cells");
        reveal_strlit("observed_fraction");
        assert("excluded_cells"@.len() != "observed_fraction"@.len());
    }
    member_is_the_first(f, "observed_fraction"@, 7);
}

/// The written runs are each code and then its count, in order.
pub proof fn runs_are_written_in_pairs(runs: Seq<(u8, u64)>, i: int)
    requires
        0 <= i < runs.len(),
    ensures
        flat(runs).len() == 2 * runs.len(),
        flat(runs)[2 * i] == runs[i].0 as u64,
        flat(runs)[2 * i + 1] == runs[i].1,
        numbers(flat(runs))[2 * i] == JsonV::Number(Num::U(runs[i].0 as u64)),
    decreases runs.len(),
{
    let t = runs.drop_last();
    flat_is_lossless(runs);
    flat_is_lossless(t);
    if i < t.len() {
        runs_are_written_in_pairs(t, i);
        assert(t[i] == runs[i]);
    }
}

} // verus!
