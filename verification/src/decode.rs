//! An emitter's latest decoded fields.
//!
//! Stored rows are selected, never decoded again. The window selects before the latest row of each
//! frame is taken, so that a window that holds only older rows still shows them.

use vstd::prelude::*;

use crate::body::{invalid_v, read_result, Fail, FailV};
use crate::command::RepoError;
use crate::control::Id;
use crate::json::{
    at, copy_fields, fields_view, fields_view_each, member, member_index, member_index_is_first,
    member_is_the_first, member_set, no_fields, opt_text_v, other_members_stay, seconds_v, text_v,
    with_member, Fields, Items, Json, JsonV,
};
use crate::ordered::{before, stands_before, text_order_is_transitive, texts_are_ordered};
use crate::store::{open_of, open_store, store_fail, store_fail_of};
use crate::text::{
    a_remainder_is_what_else_is_there, copy_text, opt_string, opt_text, owned, same, strip_prefix,
    strip_suffix, without_prefix, without_suffix,
};

verus! {

// ---------------------------------------------------------------------------------------------
// Routing
// ---------------------------------------------------------------------------------------------

/// The text in a path that should be an identity.
pub open spec fn path_id_of(path: Seq<char>) -> Option<Seq<char>> {
    match without_prefix(path, "/api/inventory/"@) {
        None => None,
        Some(rest) => without_suffix(rest, "/decode"@),
    }
}

/// [`path_id_of`].
pub fn path_id(path: &str) -> (r: Option<&str>)
    ensures
        opt_text(r) == path_id_of(path@),
{
    match strip_prefix(path, "/api/inventory/") {
        None => None,
        Some(rest) => strip_suffix(rest, "/decode"),
    }
}

/// What a method and a path are: `id` is the identity in the path, where it is one.
pub open spec fn resolved(method: Seq<char>, path: Seq<char>, id: Option<Id>) -> Option<
    Result<Id, Option<Seq<char>>>,
> {
    match path_id_of(path) {
        None => None,
        Some(_) => Some(
            match id {
                None => Err(None),
                Some(id) => if method == "GET"@ {
                    Ok(id)
                } else {
                    Err(Some("GET"@))
                },
            },
        ),
    }
}

/// [`resolved`].
pub fn resolve(method: &str, path: &str, id: Option<Id>) -> (r: Option<
    Result<Id, Option<&'static str>>,
>)
    ensures
        crate::classification::resolved_view(r) == resolved(method@, path@, id),
{
    match path_id(path) {
        None => None,
        Some(_) => Some(
            match id {
                None => Err(None),
                Some(id) => if same(method, "GET") {
                    Ok(id)
                } else {
                    Err(Some("GET"))
                },
            },
        ),
    }
}

// ---------------------------------------------------------------------------------------------
// Rows
// ---------------------------------------------------------------------------------------------

/// A stored row.
#[derive(Debug)]
pub struct Decode {
    /// What decoded it.
    pub decoder_id: String,
    /// The frame that it is.
    pub frame_model: String,
    /// When, ns on the capture clock.
    pub t: i64,
    /// What is known of the frame.
    pub metadata: Json,
    /// What it holds, where that may be seen.
    pub content: Option<Json>,
    /// Its check sum holds.
    pub crc_valid: bool,
    /// The demodulation that it comes from.
    pub demodulation_ref: Option<String>,
    /// The recording that it comes from.
    pub recording_ref: Option<String>,
}

/// A row is in the window, both ends of it included.
pub open spec fn kept(window: Option<(i64, i64)>, d: Decode) -> bool {
    match window {
        None => true,
        Some(w) => w.0 <= d.t <= w.1,
    }
}

/// Two rows are of the same frame of the same decoder.
pub open spec fn same_frame(a: Decode, b: Decode) -> bool {
    a.decoder_id@ == b.decoder_id@ && a.frame_model@ == b.frame_model@
}

/// One row is listed before another: the newer first; of two of the same time, by frame and then
/// by decoder.
pub open spec fn ahead(a: Decode, b: Decode) -> bool {
    if a.t != b.t {
        a.t > b.t
    } else if a.frame_model@ != b.frame_model@ {
        before(a.frame_model@, b.frame_model@)
    } else {
        before(a.decoder_id@, b.decoder_id@)
    }
}

/// The rows that are not of a row's frame.
pub open spec fn without(v: Seq<Decode>, d: Decode) -> Seq<Decode>
    decreases v.len(),
{
    if v.len() == 0 {
        Seq::empty()
    } else if same_frame(v.last(), d) {
        without(v.drop_last(), d)
    } else {
        without(v.drop_last(), d).push(v.last())
    }
}

/// Where a row is listed among others.
pub open spec fn slot(v: Seq<Decode>, d: Decode) -> int
    decreases v.len(),
{
    if v.len() == 0 {
        0
    } else if ahead(v[0], d) {
        1 + slot(v.skip(1), d)
    } else {
        0
    }
}

/// The latest row of each frame within the window, newest first; rows come oldest first.
pub open spec fn collapsed(v: Seq<Decode>, window: Option<(i64, i64)>) -> Seq<Decode>
    decreases v.len(),
{
    if v.len() == 0 {
        Seq::empty()
    } else {
        let rest = collapsed(v.drop_last(), window);
        if kept(window, v.last()) {
            let others = without(rest, v.last());
            others.insert(slot(others, v.last()), v.last())
        } else {
            rest
        }
    }
}

/// The rows at some places.
pub open spec fn at_places(v: Seq<Decode>, places: Seq<usize>) -> Seq<Decode> {
    places.map_values(|i: usize| v[i as int])
}

/// The places are places of the list.
pub open spec fn places_ok(n: nat, places: Seq<usize>) -> bool {
    forall|k: int| 0 <= k < places.len() ==> (#[trigger] places[k]) < n
}

fn is_same_frame(a: &Decode, b: &Decode) -> (r: bool)
    ensures
        r == same_frame(*a, *b),
{
    same(a.decoder_id.as_str(), b.decoder_id.as_str()) && same(
        a.frame_model.as_str(),
        b.frame_model.as_str(),
    )
}

fn is_ahead(a: &Decode, b: &Decode) -> (r: bool)
    ensures
        r == ahead(*a, *b),
{
    if a.t != b.t {
        a.t > b.t
    } else if !same(a.frame_model.as_str(), b.frame_model.as_str()) {
        stands_before(a.frame_model.as_str(), b.frame_model.as_str())
    } else {
        stands_before(a.decoder_id.as_str(), b.decoder_id.as_str())
    }
}

fn drop_frame(v: &Vec<Decode>, places: &Vec<usize>, d: &Decode) -> (r: Vec<usize>)
    requires
        places_ok(v@.len(), places@),
    ensures
        at_places(v@, r@) == without(at_places(v@, places@), *d),
        places_ok(v@.len(), r@),
        r@.len() <= places@.len(),
{
    let ghost rows = at_places(v@, places@);
    let mut out: Vec<usize> = Vec::new();
    let mut i: usize = 0;
    assert(rows.take(0) =~= Seq::empty());
    assert(at_places(v@, out@) =~= Seq::empty());
    while i < places.len()
        invariant
            rows == at_places(v@, places@),
            places_ok(v@.len(), places@),
            places_ok(v@.len(), out@),
            i <= places@.len(),
            out@.len() <= i,
            at_places(v@, out@) == without(rows.take(i as int), *d),
        decreases places@.len() - i,
    {
        let p = places[i];
        let ghost was = out@;
        assert(rows.take(i + 1).drop_last() =~= rows.take(i as int));
        assert(rows.take(i + 1).last() == v@[p as int]);
        if !is_same_frame(&v[p], d) {
            out.push(p);
            assert(at_places(v@, out@) =~= at_places(v@, was).push(v@[p as int]));
        }
        i += 1;
    }
    assert(rows.take(places@.len() as int) =~= rows);
    out
}

proof fn slot_is_first(v: Seq<Decode>, d: Decode, i: int)
    requires
        0 <= i <= v.len(),
        forall|k: int| 0 <= k < i ==> ahead(#[trigger] v[k], d),
        i < v.len() ==> !ahead(v[i], d),
    ensures
        slot(v, d) == i,
    decreases v.len(),
{
    if i > 0 {
        let t = v.skip(1);
        assert(ahead(v[0], d));
        assert forall|k: int| 0 <= k < i - 1 implies ahead(#[trigger] t[k], d) by {
            assert(t[k] == v[k + 1]);
        }
        slot_is_first(t, d, i - 1);
    }
}

/// Where the latest rows stand, newest first.
pub fn latest_places(v: &Vec<Decode>, window: Option<(i64, i64)>) -> (r: Vec<usize>)
    ensures
        at_places(v@, r@) == collapsed(v@, window),
        places_ok(v@.len(), r@),
{
    let mut out: Vec<usize> = Vec::new();
    let mut i: usize = 0;
    assert(v@.take(0) =~= Seq::empty());
    assert(at_places(v@, out@) =~= Seq::empty());
    while i < v.len()
        invariant
            i <= v@.len(),
            out@.len() <= i,
            places_ok(v@.len(), out@),
            at_places(v@, out@) == collapsed(v@.take(i as int), window),
        decreases v@.len() - i,
    {
        assert(v@.take(i + 1).drop_last() =~= v@.take(i as int));
        assert(v@.take(i + 1).last() == v@[i as int]);
        let t = v[i].t;
        let inside = match window {
            None => true,
            Some((start, end)) => start <= t && t <= end,
        };
        if inside {
            let mut others = drop_frame(v, &out, &v[i]);
            let ghost rows = at_places(v@, others@);
            let ghost was = others@;
            let mut k: usize = 0;
            while k < others.len() && is_ahead(&v[others[k]], &v[i])
                invariant
                    i < v@.len(),
                    k <= others@.len(),
                    places_ok(v@.len(), others@),
                    rows == at_places(v@, others@),
                    forall|j: int| 0 <= j < k ==> ahead(#[trigger] rows[j], v@[i as int]),
                decreases others@.len() - k,
            {
                assert(rows[k as int] == v@[others@[k as int] as int]);
                k += 1;
            }
            proof {
                if k < others@.len() {
                    assert(rows[k as int] == v@[others@[k as int] as int]);
                }
                slot_is_first(rows, v@[i as int], k as int);
            }
            others.insert(k, i);
            assert(at_places(v@, others@) =~= rows.insert(k as int, v@[i as int]));
            out = others;
        }
        i += 1;
    }
    assert(v@.take(v@.len() as int) =~= v@);
    out
}

// ---------------------------------------------------------------------------------------------
// What the rows are
// ---------------------------------------------------------------------------------------------

/// A row is the last of its frame within the window.
pub open spec fn is_latest(v: Seq<Decode>, window: Option<(i64, i64)>, i: int) -> bool {
    &&& 0 <= i < v.len()
    &&& kept(window, v[i])
    &&& forall|j: int|
        i < j < v.len() && kept(window, #[trigger] v[j]) ==> !same_frame(v[j], v[i])
}

/// Rows are listed in order.
pub open spec fn in_order(v: Seq<Decode>) -> bool {
    forall|i: int, j: int| 0 <= i < j < v.len() ==> ahead(#[trigger] v[i], #[trigger] v[j])
}

proof fn ahead_is_an_order(a: Decode, b: Decode, c: Decode)
    ensures
        !same_frame(a, b) ==> ahead(a, b) || ahead(b, a),
        ahead(a, b) && ahead(b, c) ==> ahead(a, c),
{
    texts_are_ordered(a.frame_model@, b.frame_model@);
    texts_are_ordered(a.decoder_id@, b.decoder_id@);
    texts_are_ordered(b.frame_model@, c.frame_model@);
    if before(a.frame_model@, b.frame_model@) && before(b.frame_model@, c.frame_model@) {
        text_order_is_transitive(a.frame_model@, b.frame_model@, c.frame_model@);
        texts_are_ordered(a.frame_model@, c.frame_model@);
    }
    if before(a.decoder_id@, b.decoder_id@) && before(b.decoder_id@, c.decoder_id@) {
        text_order_is_transitive(a.decoder_id@, b.decoder_id@, c.decoder_id@);
    }
}

proof fn without_keeps(v: Seq<Decode>, d: Decode)
    ensures
        forall|k: int|
            0 <= k < without(v, d).len() ==> v.contains(#[trigger] without(v, d)[k])
                && !same_frame(without(v, d)[k], d),
        forall|k: int|
            0 <= k < v.len() && !same_frame(#[trigger] v[k], d) ==> without(v, d).contains(v[k]),
        in_order(v) ==> in_order(without(v, d)),
    decreases v.len(),
{
    if v.len() > 0 {
        let w = without(v, d);
        let p = without(v.drop_last(), d);
        without_keeps(v.drop_last(), d);
        assert forall|k: int| 0 <= k < w.len() implies v.contains(#[trigger] w[k]) && !same_frame(
            w[k],
            d,
        ) by {
            if k < p.len() {
                assert(w[k] == p[k]);
                assert(v.drop_last().contains(p[k]));
                let j = choose|j: int| 0 <= j < v.drop_last().len() && v.drop_last()[j] == p[k];
                assert(v[j] == w[k]);
            } else {
                assert(v[v.len() - 1] == w[k]);
            }
        }
        assert forall|k: int| 0 <= k < v.len() && !same_frame(#[trigger] v[k], d) implies w.contains(
            v[k],
        ) by {
            if k < v.len() - 1 {
                assert(v.drop_last()[k] == v[k]);
                assert(p.contains(v[k]));
                let j = choose|j: int| 0 <= j < p.len() && p[j] == v[k];
                assert(w[j] == v[k]);
            } else {
                assert(w[w.len() - 1] == v[k]);
            }
        }
        if in_order(v) {
            assert(in_order(v.drop_last())) by {
                assert forall|i: int, j: int| 0 <= i < j < v.len() - 1 implies ahead(
                    #[trigger] v.drop_last()[i],
                    #[trigger] v.drop_last()[j],
                ) by {
                    assert(ahead(v[i], v[j]));
                }
            }
            assert forall|i: int, j: int| 0 <= i < j < w.len() implies ahead(
                #[trigger] w[i],
                #[trigger] w[j],
            ) by {
                if j < p.len() {
                    assert(ahead(p[i], p[j]));
                } else {
                    assert(w[i] == p[i]);
                    assert(v.drop_last().contains(p[i]));
                    let x = choose|x: int| 0 <= x < v.drop_last().len() && v.drop_last()[x] == p[i];
                    assert(ahead(v[x], v[v.len() - 1]));
                }
            }
        }
    }
}

proof fn slot_splits(v: Seq<Decode>, d: Decode)
    ensures
        0 <= slot(v, d) <= v.len(),
        forall|k: int| 0 <= k < slot(v, d) ==> ahead(#[trigger] v[k], d),
        slot(v, d) < v.len() ==> !ahead(v[slot(v, d)], d),
    decreases v.len(),
{
    if v.len() > 0 && ahead(v[0], d) {
        let t = v.skip(1);
        slot_splits(t, d);
        assert forall|k: int| 0 <= k < slot(v, d) implies ahead(#[trigger] v[k], d) by {
            if k > 0 {
                assert(t[k - 1] == v[k]);
            }
        }
    }
}

proof fn placed_in_order(v: Seq<Decode>, d: Decode)
    requires
        in_order(v),
        forall|k: int| 0 <= k < v.len() ==> !same_frame(#[trigger] v[k], d),
    ensures
        in_order(v.insert(slot(v, d), d)),
{
    slot_splits(v, d);
    let s = slot(v, d);
    let w = v.insert(s, d);
    assert forall|i: int, j: int| 0 <= i < j < w.len() implies ahead(
        #[trigger] w[i],
        #[trigger] w[j],
    ) by {
        if j < s {
            assert(ahead(v[i], v[j]));
        } else if i < s && j > s {
            assert(ahead(v[i], v[j - 1]));
        } else if i == s {
            ahead_is_an_order(d, v[s], v[j - 1]);
            if j - 1 > s {
                assert(ahead(v[s], v[j - 1]));
            }
        } else if i > s {
            assert(ahead(v[i - 1], v[j - 1]));
        }
    }
}

/// Within the window, the list holds the last row of each frame and nothing else, newest first.
pub proof fn the_latest_of_each_frame_is_listed(v: Seq<Decode>, window: Option<(i64, i64)>)
    ensures
        in_order(collapsed(v, window)),
        forall|i: int|
            #[trigger] is_latest(v, window, i) ==> collapsed(v, window).contains(v[i]),
        forall|k: int|
            0 <= k < collapsed(v, window).len() ==> exists|i: int|
                #[trigger] is_latest(v, window, i) && v[i] == #[trigger] collapsed(v, window)[k],
    decreases v.len(),
{
    if v.len() > 0 {
        let u = v.drop_last();
        let d = v.last();
        let n = v.len() - 1;
        the_latest_of_each_frame_is_listed(u, window);
        let rest = collapsed(u, window);
        let out = collapsed(v, window);
        if kept(window, d) {
            let others = without(rest, d);
            without_keeps(rest, d);
            slot_splits(others, d);
            placed_in_order(others, d);
            let s = slot(others, d);
            assert(is_latest(v, window, n));
            assert forall|i: int| #[trigger] is_latest(v, window, i) implies out.contains(
                v[i],
            ) by {
                if i == n {
                    assert(out[s] == d);
                } else {
                    assert(!same_frame(v[n], v[i]));
                    assert forall|j: int| i < j < u.len() && kept(window, #[trigger] u[j]) implies
                        !same_frame(u[j], u[i]) by {
                        assert(u[j] == v[j]);
                    }
                    assert(is_latest(u, window, i));
                    assert(rest.contains(v[i]));
                    let k = choose|k: int| 0 <= k < rest.len() && rest[k] == v[i];
                    assert(!same_frame(rest[k], d));
                    assert(others.contains(rest[k]));
                    let m = choose|m: int| 0 <= m < others.len() && others[m] == v[i];
                    if m < s {
                        assert(out[m] == v[i]);
                    } else {
                        assert(out[m + 1] == v[i]);
                    }
                }
            }
            assert forall|k: int| 0 <= k < out.len() implies exists|i: int|
                #[trigger] is_latest(v, window, i) && v[i] == #[trigger] out[k] by {
                if k == s {
                    assert(is_latest(v, window, n) && v[n] == out[k]);
                } else {
                    let m = if k < s {
                        k
                    } else {
                        k - 1
                    };
                    assert(out[k] == others[m]);
                    assert(rest.contains(others[m]));
                    let q = choose|q: int| 0 <= q < rest.len() && rest[q] == others[m];
                    let i = choose|i: int| #[trigger] is_latest(u, window, i) && u[i] == rest[q];
                    assert(u[i] == v[i]);
                    assert forall|j: int| i < j < v.len() && kept(window, #[trigger] v[j]) implies
                        !same_frame(v[j], v[i]) by {
                        if j < n {
                            assert(u[j] == v[j]);
                        }
                    }
                    assert(is_latest(v, window, i) && v[i] == out[k]);
                }
            }
        } else {
            assert forall|i: int| #[trigger] is_latest(v, window, i) implies out.contains(
                v[i],
            ) by {
                assert(i != n);
                assert forall|j: int| i < j < u.len() && kept(window, #[trigger] u[j]) implies
                    !same_frame(u[j], u[i]) by {
                    assert(u[j] == v[j]);
                }
                assert(is_latest(u, window, i));
            }
            assert forall|k: int| 0 <= k < out.len() implies exists|i: int|
                #[trigger] is_latest(v, window, i) && v[i] == #[trigger] out[k] by {
                let i = choose|i: int| #[trigger] is_latest(u, window, i) && u[i] == rest[k];
                assert forall|j: int| i < j < v.len() && kept(window, #[trigger] v[j]) implies
                    !same_frame(v[j], v[i]) by {
                    if j < n {
                        assert(u[j] == v[j]);
                    }
                }
                assert(is_latest(v, window, i) && v[i] == out[k]);
            }
        }
    }
}

// ---------------------------------------------------------------------------------------------
// Answers
// ---------------------------------------------------------------------------------------------

/// Members with others laid over them.
pub open spec fn overlaid(
    m: Seq<(Seq<char>, JsonV)>,
    c: Seq<(Seq<char>, JsonV)>,
) -> Seq<(Seq<char>, JsonV)>
    decreases c.len(),
{
    if c.len() == 0 {
        m
    } else {
        with_member(overlaid(m, c.drop_last()), c.last().0, c.last().1)
    }
}

/// The members of an object; of anything else none.
pub open spec fn members_of(v: JsonV) -> Seq<(Seq<char>, JsonV)> {
    match v {
        JsonV::Object(m) => m,
        _ => Seq::empty(),
    }
}

/// The fields of a row: its content over what is known of it.
pub open spec fn fields_v(d: Decode) -> Seq<(Seq<char>, JsonV)> {
    overlaid(
        members_of(d.metadata.view()),
        match d.content {
            Some(c) => members_of(c.view()),
            None => Seq::empty(),
        },
    )
}

/// [`fields_v`].
pub fn fields_of(d: &Decode) -> (r: Json)
    ensures
        r.view() == JsonV::Object(fields_v(*d)),
{
    let mut f = match &d.metadata {
        Json::Object(m) => Fields { list: copy_fields(m) },
        _ => Fields::new(),
    };
    let ghost base = members_of(d.metadata.view());
    assert(f@ =~= base);
    if let Some(Json::Object(c)) = &d.content {
        let ghost over = fields_view(c@);
        proof {
            fields_view_each(c@);
            assert(over.take(0) =~= Seq::empty());
        }
        let mut i: usize = 0;
        while i < c.len()
            invariant
                over == fields_view(c@),
                over.len() == c@.len(),
                forall|k: int|
                    0 <= k < c@.len() ==> over[k] == ((#[trigger] c@[k]).0@, c@[k].1.view()),
                i <= c@.len(),
                f@ == overlaid(base, over.take(i as int)),
            decreases c@.len() - i,
        {
            proof {
                assert(over.take(i + 1).drop_last() =~= over.take(i as int));
                assert(over.take(i + 1).last() == over[i as int]);
                assert(over[i as int] == (c@[i as int].0@, c@[i as int].1.view()));
            }
            f.set(c[i].0.clone(), c[i].1.copy());
            i += 1;
        }
        assert(over.take(c@.len() as int) =~= over);
    }
    f.object()
}

/// What is decoded lies over what is known: a member of both has the content's value.
pub proof fn content_lies_over_metadata(
    m: Seq<(Seq<char>, JsonV)>,
    c: Seq<(Seq<char>, JsonV)>,
    name: Seq<char>,
)
    requires
        forall|i: int, j: int|
            0 <= i < j < c.len() ==> (#[trigger] c[i]).0 != (#[trigger] c[j]).0,
    ensures
        member(overlaid(m, c), name) == (match member(c, name) {
            Some(v) => Some(v),
            None => member(m, name),
        }),
    decreases c.len(),
{
    if c.len() > 0 {
        let b = c.drop_last();
        let n = c.len() - 1;
        content_lies_over_metadata(m, b, name);
        member_index_is_first(b, name);
        if c[n].0 == name {
            member_set(overlaid(m, b), name, c[n].1);
            member_is_the_first(c, name, n);
        } else {
            other_members_stay(overlaid(m, b), c[n].0, c[n].1, name);
            let i = member_index(b, name);
            assert forall|k: int| 0 <= k < i implies (#[trigger] c[k]).0 != name by {
                assert(c[k] == b[k]);
            }
            if i < b.len() {
                assert(c[i] == b[i]);
                member_is_the_first(c, name, i);
            } else {
                member_is_the_first(c, name, c.len() as int);
            }
        }
    }
}

/// A row as it is served.
pub open spec fn decode_v(d: Decode) -> JsonV {
    JsonV::Object(
        no_fields().push(("decoder"@, text_v(d.decoder_id@))).push(
            ("recipe_id"@, opt_text_v(without_prefix(d.decoder_id@, "recipe:"@))),
        ).push(("frame_model"@, text_v(d.frame_model@))).push(("at"@, seconds_v(d.t))).push(
            ("fields"@, JsonV::Object(fields_v(d))),
        ).push(
            ("crc"@, JsonV::Object(no_fields().push(("valid"@, JsonV::Bool(d.crc_valid))))),
        ).push(
            (
                "source_session"@,
                opt_text_v(
                    match d.demodulation_ref {
                        Some(s) => Some(s@),
                        None => opt_string(d.recording_ref),
                    },
                ),
            ),
        ),
    )
}

/// [`decode_v`].
pub fn decode_json(d: &Decode) -> (r: Json)
    ensures
        r.view() == decode_v(*d),
{
    let recipe = owned(strip_prefix(d.decoder_id.as_str(), "recipe:"));
    let source = match &d.demodulation_ref {
        Some(s) => Some(s.clone()),
        None => copy_text(&d.recording_ref),
    };
    let mut crc = Fields::new();
    crc.put("valid", Json::Bool(d.crc_valid));
    let mut f = Fields::new();
    f.put("decoder", Json::text(d.decoder_id.as_str()));
    f.put("recipe_id", Json::opt_text(&recipe));
    f.put("frame_model", Json::text(d.frame_model.as_str()));
    f.put("at", Json::seconds(d.t));
    f.put("fields", fields_of(d));
    f.put("crc", crc.object());
    f.put("source_session", Json::opt_text(&source));
    f.object()
}

/// Rows as they are served.
pub open spec fn rows_v(v: Seq<Decode>) -> Seq<JsonV> {
    v.map_values(|d: Decode| decode_v(d))
}

/// The latest rows as they are served.
pub fn latest_per_frame(v: &Vec<Decode>, window: Option<(i64, i64)>) -> (r: Json)
    ensures
        r.view() == JsonV::Array(rows_v(collapsed(v@, window))),
{
    let places = latest_places(v, window);
    let ghost want = rows_v(at_places(v@, places@));
    let mut out = Items::new();
    let mut i: usize = 0;
    assert(want.take(0) =~= Seq::empty());
    while i < places.len()
        invariant
            want == rows_v(at_places(v@, places@)),
            places_ok(v@.len(), places@),
            i <= places@.len(),
            out@ == want.take(i as int),
        decreases places@.len() - i,
    {
        let p = places[i];
        let x = decode_json(&v[p]);
        assert(want.take(i + 1) =~= want.take(i as int).push(x.view()));
        out.push(x);
        i += 1;
    }
    assert(want.take(places@.len() as int) =~= want);
    out.array()
}

/// What the inventory holds of an emitter's identity.
#[derive(Clone, Copy, Debug, PartialEq, Eq, Structural)]
pub enum Identity {
    /// One that may be seen: its rows are read.
    Clear,
    /// None yet: the rows of provisional readings are.
    Absent,
    /// One that is withheld.
    Withheld,
}

/// What the inventory says of an emitter: each read, up to the first that fails.
#[derive(Debug)]
pub struct Reads {
    /// The emitter that it now is was found.
    pub live: Result<(), RepoError>,
    /// Its identity.
    pub identity: Result<Identity, RepoError>,
    /// The rows, oldest first.
    pub decodes: Result<Vec<Decode>, RepoError>,
}

/// What a store error is answered with.
pub open spec fn repo_fail_of(e: RepoError) -> FailV {
    store_fail_of(e, "inventory store"@, "no such inventory entry"@)
}

fn repo_fail(e: RepoError) -> (r: Fail)
    ensures
        r@ == repo_fail_of(e),
{
    store_fail(e, "inventory store", "no such inventory entry")
}

/// The rows in their envelope.
pub open spec fn decodes_v(rows: Seq<JsonV>) -> JsonV {
    JsonV::Object(no_fields().push(("decodes"@, JsonV::Array(rows))))
}

/// What is answered: a refused window comes with its reason.
pub open spec fn read_of(
    window: Result<Option<(i64, i64)>, Seq<char>>,
    store: bool,
    r: Reads,
) -> Result<JsonV, FailV> {
    match window {
        Err(m) => Err(invalid_v(m)),
        Ok(w) => match open_of(store, "no signal inventory on this server"@) {
            Err(f) => Err(f),
            Ok(_) => match r.live {
                Err(e) => Err(repo_fail_of(e)),
                Ok(_) => match r.identity {
                    Err(e) => Err(repo_fail_of(e)),
                    Ok(Identity::Withheld) => Ok(decodes_v(Seq::empty())),
                    Ok(_) => match r.decodes {
                        Err(e) => Err(repo_fail_of(e)),
                        Ok(v) => Ok(decodes_v(rows_v(collapsed(v@, w)))),
                    },
                },
            },
        },
    }
}

/// What a read window holds.
pub open spec fn window_view(w: Result<Option<(i64, i64)>, String>) -> Result<
    Option<(i64, i64)>,
    Seq<char>,
> {
    match w {
        Ok(w) => Ok(w),
        Err(m) => Err(m@),
    }
}

/// [`read_of`].
pub fn read(window: Result<Option<(i64, i64)>, String>, store: bool, r: Reads) -> (out: Result<
    Json,
    Fail,
>)
    ensures
        read_result(out) == read_of(window_view(window), store, r),
{
    let w = match window {
        Ok(w) => w,
        Err(m) => return Err(Fail::new(400, "invalid", m)),
    };
    match open_store(store, "no signal inventory on this server") {
        Ok(_) => {},
        Err(f) => return Err(f),
    }
    match r.live {
        Ok(_) => {},
        Err(e) => return Err(repo_fail(e)),
    }
    let rows = match r.identity {
        Err(e) => return Err(repo_fail(e)),
        Ok(Identity::Withheld) => {
            let none = Items::new();
            none.array()
        },
        Ok(_) => match r.decodes {
            Err(e) => return Err(repo_fail(e)),
            Ok(v) => latest_per_frame(&v, w),
        },
    };
    let mut f = Fields::new();
    f.put("decodes", rows);
    Ok(f.object())
}

/// A withheld identity is never confirmed: the answer is that of an emitter without any row.
pub proof fn withheld_is_not_told(window: Option<(i64, i64)>, r: Reads, nothing: Reads, none: Vec<Decode>)
    requires
        r.live is Ok,
        nothing.live is Ok,
        r.identity == Ok::<Identity, RepoError>(Identity::Withheld),
        nothing.identity == Ok::<Identity, RepoError>(Identity::Absent),
        none@.len() == 0,
        nothing.decodes == Ok::<Vec<Decode>, RepoError>(none),
    ensures
        read_of(Ok(window), true, r) == read_of(Ok(window), true, nothing),
{
    assert(rows_v(collapsed(none@, window)) =~= Seq::empty());
}

/// What is kept of what was decoded is what lies in the window, its ends among it; all of it where
/// there is no window.
pub proof fn decodes_are_kept_within_the_window(a: i64, b: i64, d: Decode)
    ensures
        kept(None, d),
        kept(Some((a, b)), d) <==> a <= d.t && d.t <= b,
{
}

/// The newer of two comes first; those of one time are in the order of their frames and then of their
/// decoders.
pub proof fn newer_decodes_come_first(a: Decode, b: Decode)
    ensures
        a.t > b.t ==> ahead(a, b) && !ahead(b, a),
        a.t == b.t && before(a.frame_model@, b.frame_model@) ==> ahead(a, b),
        a.t == b.t && a.frame_model@ == b.frame_model@ ==> ahead(a, b) == before(
            a.decoder_id@,
            b.decoder_id@,
        ),
        same_frame(a, b) <==> a.decoder_id@ == b.decoder_id@ && a.frame_model@ == b.frame_model@,
{
    texts_are_ordered(a.frame_model@, b.frame_model@);
}

/// A decode is written as it is: who decoded what and when, whether its check passed, and the session
/// it comes from, which is the demodulation where there is one, else the recording.
pub proof fn a_decode_is_written_as_it_is(d: Decode, recipe: Seq<char>)
    ensures
        at(decode_v(d), "decoder"@) == Some(JsonV::Text(d.decoder_id@)),
        d.decoder_id@ == "recipe:"@ + recipe ==> at(decode_v(d), "recipe_id"@) == Some(
            JsonV::Text(recipe),
        ),
        without_prefix(d.decoder_id@, "recipe:"@) is None ==> at(decode_v(d), "recipe_id"@) == Some(
            JsonV::Null,
        ),
        at(decode_v(d), "frame_model"@) == Some(JsonV::Text(d.frame_model@)),
        at(decode_v(d), "at"@) == Some(seconds_v(d.t)),
        at(decode_v(d), "fields"@) == Some(JsonV::Object(fields_v(d))),
        at(decode_v(d), "crc"@) matches Some(c) && at(c, "valid"@) == Some(JsonV::Bool(d.crc_valid)),
        d.demodulation_ref matches Some(s) ==> at(decode_v(d), "source_session"@) == Some(
            JsonV::Text(s@),
        ),
        d.demodulation_ref is None ==> at(decode_v(d), "source_session"@) == Some(
            opt_text_v(opt_string(d.recording_ref)),
        ),
{
    let f = decode_v(d)->Object_0;
    member_is_the_first(f, "decoder"@, 0);
    assert("decoder"@ != "recipe_id"@) by {
        reveal_strlit("decoder");
        reveal_strlit("recipe_id");
        assert("decoder"@.len() != "recipe_id"@.len());
    }
    member_is_the_first(f, "recipe_id"@, 1);
    assert("decoder"@ != "frame_model"@) by {
        reveal_strlit("decoder");
        reveal_strlit("frame_model");
        assert("decoder"@.len() != "frame_model"@.len());
    }
    assert("recipe_id"@ != "frame_model"@) by {
        reveal_strlit("recipe_id");
        reveal_strlit("frame_model");
        assert("recipe_id"@.len() != "frame_model"@.len());
    }
    member_is_the_first(f, "frame_model"@, 2);
    assert("decoder"@ != "at"@) by {
        reveal_strlit("decoder");
        reveal_strlit("at");
        assert("decoder"@.len() != "at"@.len());
    }
    assert("recipe_id"@ != "at"@) by {
        reveal_strlit("recipe_id");
        reveal_strlit("at");
        assert("recipe_id"@.len() != "at"@.len());
    }
    assert("frame_model"@ != "at"@) by {
        reveal_strlit("frame_model");
        reveal_strlit("at");
        assert("frame_model"@.len() != "at"@.len());
    }
    member_is_the_first(f, "at"@, 3);
    assert("decoder"@ != "fields"@) by {
        reveal_strlit("decoder");
        reveal_strlit("fields");
        assert("decoder"@.len() != "fields"@.len());
    }
    assert("recipe_id"@ != "fields"@) by {
        reveal_strlit("recipe_id");
        reveal_strlit("fields");
        assert("recipe_id"@.len() != "fields"@.len());
    }
    assert("frame_model"@ != "fields"@) by {
        reveal_strlit("frame_model");
        reveal_strlit("fields");
        assert("frame_model"@.len() != "fields"@.len());
    }
    assert("at"@ != "fields"@) by {
        reveal_strlit("at");
        reveal_strlit("fields");
        assert("at"@.len() != "fields"@.len());
    }
    member_is_the_first(f, "fields"@, 4);
    assert("decoder"@ != "crc"@) by {
        reveal_strlit("decoder");
        reveal_strlit("crc");
        assert("decoder"@.len() != "crc"@.len());
    }
    assert("recipe_id"@ != "crc"@) by {
        reveal_strlit("recipe_id");
        reveal_strlit("crc");
        assert("recipe_id"@.len() != "crc"@.len());
    }
    assert("frame_model"@ != "crc"@) by {
        reveal_strlit("frame_model");
        reveal_strlit("crc");
        assert("frame_model"@.len() != "crc"@.len());
    }
    assert("at"@ != "crc"@) by {
        reveal_strlit("at");
        reveal_strlit("crc");
        assert("at"@.len() != "crc"@.len());
    }
    assert("fields"@ != "crc"@) by {
        reveal_strlit("fields");
        reveal_strlit("crc");
        assert("fields"@.len() != "crc"@.len());
    }
    member_is_the_first(f, "crc"@, 5);
    assert("decoder"@ != "source_session"@) by {
        reveal_strlit("decoder");
        reveal_strlit("source_session");
        assert("decoder"@.len() != "source_session"@.len());
    }
    assert("recipe_id"@ != "source_session"@) by {
        reveal_strlit("recipe_id");
        reveal_strlit("source_session");
        assert("recipe_id"@.len() != "source_session"@.len());
    }
    assert("frame_model"@ != "source_session"@) by {
        reveal_strlit("frame_model");
        reveal_strlit("source_session");
        assert("frame_model"@.len() != "source_session"@.len());
    }
    assert("at"@ != "source_session"@) by {
        reveal_strlit("at");
        reveal_strlit("source_session");
        assert("at"@.len() != "source_session"@.len());
    }
    assert("fields"@ != "source_session"@) by {
        reveal_strlit("fields");
        reveal_strlit("source_session");
        assert("fields"@.len() != "source_session"@.len());
    }
    assert("crc"@ != "source_session"@) by {
        reveal_strlit("crc");
        reveal_strlit("source_session");
        assert("crc"@.len() != "source_session"@.len());
    }
    member_is_the_first(f, "source_session"@, 6);
    a_remainder_is_what_else_is_there(recipe, "recipe:"@);
    member_is_the_first(f[5].1->Object_0, "valid"@, 0);
}

/// What is read of an entry is what was decoded of it within the window, one row each; a window that
/// cannot be read is refused, and an entry that is not there is not found.
pub proof fn decodes_are_read_within_the_window(w: Option<(i64, i64)>, r: Reads, m: Seq<char>)
    ensures
        read_of(Err(m), true, r) matches Err(f) && f.status == 400 && f.message == m,
        read_of(Ok(w), false, r) matches Err(f) && f.status == 503,
        r.live matches Err(e) ==> (e is NotFound ==> (read_of(Ok(w), true, r) matches Err(f)
            && f.status == 404)),
        r.live is Ok && (r.identity matches Ok(i) && !(i is Withheld)) ==> (r.decodes matches Ok(v)
            ==> (read_of(Ok(w), true, r) matches Ok(j) && at(j, "decodes"@) matches Some(
            JsonV::Array(rows),
        ) && rows.len() == collapsed(v@, w).len() && forall|i: int|
            0 <= i < rows.len() ==> #[trigger] rows[i] == decode_v(collapsed(v@, w)[i]))),
{
    if r.live is Ok && (r.identity matches Ok(i) && !(i is Withheld)) {
        if let Ok(v) = r.decodes {
            member_is_the_first(
                decodes_v(rows_v(collapsed(v@, w)))->Object_0,
                "decodes"@,
                0,
            );
        }
    }
}

/// The decodes of an entry are below the path of its name.
pub proof fn decodes_are_below_their_entry(method: Seq<char>, name: Seq<char>, id: Id)
    ensures
        path_id_of("/api/inventory/"@ + (name + "/decode"@)) == Some(name),
        resolved("GET"@, "/api/inventory/"@ + (name + "/decode"@), Some(id)) == Some(
            Ok::<Id, Option<Seq<char>>>(id),
        ),
        method != "GET"@ ==> resolved(method, "/api/inventory/"@ + (name + "/decode"@), Some(id))
            == Some(Err::<Id, Option<Seq<char>>>(Some("GET"@))),
        resolved(method, "/api/inventory/"@ + (name + "/decode"@), None) == Some(
            Err::<Id, Option<Seq<char>>>(None),
        ),
{
    a_remainder_is_what_else_is_there(name + "/decode"@, "/api/inventory/"@);
    a_remainder_is_what_else_is_there(name, "/decode"@);
}

} // verus!
