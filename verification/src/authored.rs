//! What the routes for authored rows share: instants, the tier a view was on, the rate of the front
//! end it names, and paging.

use vstd::prelude::*;

use crate::body::{invalid_v, outcome, Fail, FailV};
use crate::double::{
    doubled, halvings, integers_are_doubles, whole_bits, Real, EXACT, INFINITE, SIGN,
};
use crate::json::{opt_text_v, Json};
use crate::text::{
    decimal, number as decimal_number, numbers_are_read_as_they_are_written, opt_string, opt_text,
    parse_unsigned, same, unsigned,
};

verus! {

/// The bits of 9.2e9: seconds beyond it are past the range of the clock.
pub const MAX_SECONDS: u64 = 0x4201_22e6_e000_0000;

/// The instant that `s` seconds name, which `ns` writes in nanoseconds.
pub open spec fn instant_of(key: Seq<char>, s: Real, ns: i64) -> Result<i64, FailV> {
    if s.magnitude() < MAX_SECONDS {
        Ok(ns)
    } else {
        Err(invalid_v(key + " must be a finite Unix time in seconds"@))
    }
}

/// [`instant_of`].
pub fn from_secs(key: &str, s: Real, ns: i64) -> (r: Result<i64, Fail>)
    ensures
        outcome(r) == instant_of(key@, s, ns),
{
    if s.unsigned_bits() < MAX_SECONDS {
        Ok(ns)
    } else {
        let m = String::from_str(key).concat(" must be a finite Unix time in seconds");
        Err(Fail::new(400, "invalid", m))
    }
}

/// Which tier a view was on.
#[derive(Clone, Copy, Debug, PartialEq, Eq, Structural)]
pub enum Tier {
    /// Live samples.
    LiveIq,
    /// The spectrum history.
    SpectrumHistory,
    /// The survey.
    SurveyOverview,
}

impl Tier {
    /// Its name.
    pub open spec fn wire(self) -> Seq<char> {
        match self {
            Tier::LiveIq => "live-iq"@,
            Tier::SpectrumHistory => "spectrum-history"@,
            Tier::SurveyOverview => "survey-overview"@,
        }
    }

    /// Its name.
    pub fn as_str(self) -> (r: &'static str)
        ensures
            r@ == self.wire(),
    {
        match self {
            Tier::LiveIq => "live-iq",
            Tier::SpectrumHistory => "spectrum-history",
            Tier::SurveyOverview => "survey-overview",
        }
    }

    /// The tier of a name.
    pub fn parse(s: &str) -> (r: Option<Tier>)
        ensures
            r == tier_of(s@),
    {
        if same(s, "live-iq") {
            Some(Tier::LiveIq)
        } else if same(s, "spectrum-history") {
            Some(Tier::SpectrumHistory)
        } else if same(s, "survey-overview") {
            Some(Tier::SurveyOverview)
        } else {
            None
        }
    }
}

/// The tier of a name.
pub open spec fn tier_of(s: Seq<char>) -> Option<Tier> {
    if s == "live-iq"@ {
        Some(Tier::LiveIq)
    } else if s == "spectrum-history"@ {
        Some(Tier::SpectrumHistory)
    } else if s == "survey-overview"@ {
        Some(Tier::SurveyOverview)
    } else {
        None
    }
}

/// A tier is the one of its own name.
pub proof fn tiers_have_their_own_names(t: Tier)
    ensures
        tier_of(t.wire()) == Some(t),
{
    reveal_strlit("live-iq");
    reveal_strlit("spectrum-history");
    reveal_strlit("survey-overview");
    assert("live-iq"@.len() == 7);
    assert("spectrum-history"@.len() == 16);
    assert("survey-overview"@.len() == 15);
}

/// The size of a page: a parameter within `1..=max`, or `default`.
pub open spec fn page_size(given: Option<Seq<char>>, default: usize, max: usize) -> Result<
    usize,
    FailV,
> {
    match given {
        None => Ok(default),
        Some(v) => match unsigned(v, max as nat) {
            Some(n) => if n >= 1 {
                Ok(n as usize)
            } else {
                Err(bad_size(max))
            },
            None => Err(bad_size(max)),
        },
    }
}

/// What a page of another size is refused with.
pub open spec fn bad_size(max: usize) -> FailV {
    invalid_v("limit must be an integer in 1..="@ + decimal(max as nat))
}

fn refuse_size(max: usize) -> (r: Fail)
    ensures
        r@ == bad_size(max),
{
    let n = decimal_number(max as u64);
    let m = String::from_str("limit must be an integer in 1..=").concat(n.as_str());
    Fail::new(400, "invalid", m)
}

/// [`page_size`].
pub fn read_size(given: Option<&str>, default: usize, max: usize) -> (r: Result<usize, Fail>)
    ensures
        outcome(r) == page_size(opt_text(given), default, max),
{
    match given {
        None => Ok(default),
        Some(v) => match parse_unsigned(v, max as u64) {
            Some(n) => if n >= 1 {
                Ok(n as usize)
            } else {
                Err(refuse_size(max))
            },
            None => Err(refuse_size(max)),
        },
    }
}

/// Where a page starts: a parameter of at most `max`, or the beginning.
pub open spec fn page_start(given: Option<Seq<char>>, max: usize) -> Result<usize, FailV> {
    match given {
        None => Ok(0),
        Some(v) => match unsigned(v, max as nat) {
            Some(n) => Ok(n as usize),
            None => Err(invalid_v("invalid cursor"@)),
        },
    }
}

/// [`page_start`].
pub fn read_start(given: Option<&str>, max: usize) -> (r: Result<usize, Fail>)
    ensures
        outcome(r) == page_start(opt_text(given), max),
{
    match given {
        None => Ok(0),
        Some(v) => match parse_unsigned(v, max as u64) {
            Some(n) => Ok(n as usize),
            None => Err(Fail::invalid("invalid cursor")),
        },
    }
}

/// Where the next page starts: none where this was the last, or where it would start past what a
/// cursor may name.
pub open spec fn next_start(offset: usize, count: nat, matched: u64, max: usize) -> Option<
    Seq<char>,
> {
    let next = offset + count;
    if next < matched && next <= max {
        Some(decimal(next as nat))
    } else {
        None
    }
}

/// [`next_start`], written out.
pub fn next_cursor(offset: usize, count: usize, matched: u64, max: usize) -> (r: Json)
    ensures
        r.view() == opt_text_v(next_start(offset, count as nat, matched, max)),
{
    let next: u128 = offset as u128 + count as u128;
    if next < matched as u128 && next <= max as u128 {
        Json::Text(decimal_number(next as u64))
    } else {
        Json::Null
    }
}

/// Following the cursors visits each row once and stops: the next page starts where this one
/// ended, and a page that ends at the last row has no next.
pub proof fn cursors_move_on(offset: usize, count: nat, matched: u64, max: usize)
    ensures
        offset + count >= matched ==> next_start(offset, count, matched, max) is None,
        count > 0 && next_start(offset, count, matched, max) is Some ==> next_start(
            offset,
            count,
            matched,
            max,
        ) == Some(decimal((offset + count) as nat)) && offset < offset + count < matched && offset
            + count <= max,
{
}

/// What is done next about a new row.
#[derive(Clone, Copy, Debug, PartialEq, Eq, Structural)]
pub enum CreateStep {
    /// The store is asked whether a row of this identity is there.
    Look,
    /// The row is inserted; then its creation is answered.
    Insert,
    /// Its creation is answered; nothing is inserted.
    Answer,
}

/// A row is looked for where it is valid and there is a store, and inserted where it was not found.
pub open spec fn create_step(valid: bool, present: bool, found: Option<bool>) -> CreateStep {
    if !valid || !present {
        CreateStep::Answer
    } else {
        match found {
            None => CreateStep::Look,
            Some(true) => CreateStep::Answer,
            Some(false) => CreateStep::Insert,
        }
    }
}

/// [`create_step`].
pub fn next_create(valid: bool, present: bool, found: Option<bool>) -> (r: CreateStep)
    ensures
        r == create_step(valid, present, found),
{
    if !valid || !present {
        return CreateStep::Answer;
    }
    match found {
        None => CreateStep::Look,
        Some(there) => if there {
            CreateStep::Answer
        } else {
            CreateStep::Insert
        },
    }
}

/// A row is inserted once it is known to be valid, to have a store and not to be there, and never
/// before; the store is not asked about one that is refused without it.
pub proof fn rows_that_are_there_stay(valid: bool, present: bool, found: Option<bool>)
    ensures
        create_step(valid, present, found) is Insert <==> valid && present && found == Some(false),
        create_step(valid, present, found) is Look <==> valid && present && found is None,
{
}

/// A front end that this run holds.
#[derive(Debug)]
pub struct LiveDevice {
    /// Its identity.
    pub device_id: Option<String>,
    /// Its rate, Hz.
    pub sample_rate_hz: Real,
}

/// The rate of the front end of a name, where this run holds it: never a guess.
pub open spec fn rate_of(live: Seq<LiveDevice>, device: Option<Seq<char>>) -> Option<Real>
    decreases live.len(),
{
    if live.len() == 0 || device is None {
        None
    } else if opt_string(live[0].device_id) == device {
        Some(live[0].sample_rate_hz)
    } else {
        rate_of(live.skip(1), device)
    }
}

/// [`rate_of`].
pub fn find_rate(live: &Vec<LiveDevice>, device: &Option<String>) -> (r: Option<Real>)
    ensures
        r == rate_of(live@, opt_string(*device)),
{
    let d = match device {
        Some(d) => d,
        None => return None,
    };
    assert(live@.skip(0) =~= live@);
    let mut i: usize = 0;
    while i < live.len()
        invariant
            opt_string(*device) == Some(d@),
            i <= live@.len(),
            rate_of(live@, Some(d@)) == rate_of(live@.skip(i as int), Some(d@)),
        decreases live@.len() - i,
    {
        let ghost rest = live@.skip(i as int);
        assert(rest[0] == live@[i as int]);
        assert(rest.skip(1) =~= live@.skip(i + 1));
        if let Some(x) = &live[i].device_id {
            if same(x.as_str(), d.as_str()) {
                return Some(live[i].sample_rate_hz);
            }
        }
        i += 1;
    }
    None
}

/// An instant is taken where it is less than 9.2 thousand million seconds from the epoch, on either
/// side; then it is the one that was asked for.
pub proof fn instants_are_within_the_clock(key: Seq<char>, n: nat, s: Real, ns: i64)
    requires
        n < EXACT,
    ensures
        instant_of(key, Real { bits: whole_bits(n) as u64 }, ns) == (if n < 9_200_000_000 {
            Ok::<i64, FailV>(ns)
        } else {
            instant_of(key, Real { bits: INFINITE }, ns)
        }),
        instant_of(key, Real { bits: (SIGN + whole_bits(n)) as u64 }, ns) == instant_of(
            key,
            Real { bits: whole_bits(n) as u64 },
            ns,
        ),
        !s.finite() ==> (instant_of(key, s, ns) matches Err(f) && f.status == 400),
        instant_of(key, s, ns) matches Ok(t) ==> t == ns,
{
    assert(whole_bits(9_200_000_000) == MAX_SECONDS) by {
        reveal_with_fuel(halvings, 35);
        reveal_with_fuel(doubled, 21);
        assert(halvings(9_200_000_000) == 33);
        assert(doubled(9_200_000_000, 19) == 4_823_449_600_000_000);
    }
    integers_are_doubles(n, n);
    if n < 9_200_000_000 {
        integers_are_doubles(n, 9_200_000_000);
    } else {
        integers_are_doubles(9_200_000_000, n);
    }
}

/// A page is as large as was asked for, from one up to what is served; where nothing was asked for,
/// it is of the usual size.
pub proof fn pages_are_as_large_as_asked(n: nat, s: Seq<char>, default: usize, max: usize)
    ensures
        page_size(None, default, max) == Ok::<usize, FailV>(default),
        1 <= n <= max ==> page_size(Some(decimal(n)), default, max) == Ok::<usize, FailV>(n as usize),
        n == 0 || n > max ==> page_size(Some(decimal(n)), default, max) is Err,
        page_size(Some(s), default, max) matches Ok(k) ==> 1 <= k <= max,
        page_size(Some(s), default, max) matches Err(f) ==> f.status == 400,
{
    numbers_are_read_as_they_are_written(n, s, max as nat);
}

/// A cursor leads to the row after those that were served; without one a reading starts with the
/// first row.
pub proof fn cursors_lead_on(offset: usize, count: nat, matched: u64, max: usize, s: Seq<char>)
    ensures
        page_start(None, max) == Ok::<usize, FailV>(0),
        next_start(offset, count, matched, max) is Some <==> offset + count < matched && offset
            + count <= max,
        next_start(offset, count, matched, max) matches Some(c) ==> page_start(Some(c), max) == Ok::<
            usize,
            FailV,
        >((offset + count) as usize),
        page_start(Some(s), max) matches Ok(k) ==> k <= max,
        page_start(Some(s), max) matches Err(f) ==> f.status == 400,
{
    numbers_are_read_as_they_are_written((offset + count) as nat, s, max as nat);
}

/// The rate of a front end is that of the first that is live under its name; one that is not live, or
/// has no name, has none.
pub proof fn a_rate_is_of_the_front_end_named(
    live: Seq<LiveDevice>,
    device: Seq<char>,
    i: int,
)
    requires
        0 <= i <= live.len(),
        i < live.len() ==> opt_string(live[i].device_id) == Some(device),
        forall|j: int| 0 <= j < i ==> opt_string((#[trigger] live[j]).device_id) != Some(device),
    ensures
        i < live.len() ==> rate_of(live, Some(device)) == Some(live[i].sample_rate_hz),
        i == live.len() ==> rate_of(live, Some(device)) is None,
        rate_of(live, None) is None,
    decreases i,
{
    if i > 0 {
        let t = live.skip(1);
        assert(opt_string(live[0].device_id) != Some(device));
        assert forall|j: int| 0 <= j < i - 1 implies opt_string((#[trigger] t[j]).device_id) != Some(
            device,
        ) by {
            assert(t[j] == live[j + 1]);
        }
        a_rate_is_of_the_front_end_named(t, device, i - 1);
    }
}

} // verus!
