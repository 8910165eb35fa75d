//! The bridge from a stream to a browser's WebSocket: which streams are offered and for how long,
//! how a stream's frames become messages, and when a connection is carried over to the stream's
//! next publisher.

use vstd::prelude::*;
use vstd::utf8::{decode_utf8, encode_utf8, valid_utf8};

use crate::double::Real;
use crate::http::AttachOutcome;
use crate::json::{
    at, fields_view, fields_view_each, find as find_member, member, member_index,
    member_index_is_first, member_is_the_first, no_fields, opt_real_v, opt_text_v, text_v, uint_v,
    Fields, Items, Json, JsonV,
};
use crate::ordered::{
    find, in_order, offered, place, place_is_first, put, removed_in_order, take_out, under, withdrawn,
    Keyed,
};
use crate::text::{opt_string, utf8};

verus! {

/// How long a connection whose publisher finished waits for the next one, ns.
pub const CARRY_OVER_GRACE: u64 = 60_000_000_000;

/// How long a handshake that lands between windows waits for the next publisher, ns.
pub const REPLUMB_HANDSHAKE_WAIT: u64 = 2_000_000_000;

/// How long a stream whose publisher has finished, with nobody attached, stays offered, ns.
pub const FINISHED_LINGER: u64 = 60_000_000_000;

/// The most streams: over it, the oldest that are spent go first.
pub const MAX_STREAMS: usize = 256;

/// How often the watcher wakes, ns.
pub const WATCH_TICK: u64 = 50_000_000;

/// How long the check of the peer may block while waiting for the next publisher, ns.
pub const GAP_PEER_POLL: u64 = 1_000_000;

// ---------------------------------------------------------------------------------------------
// The registry
// ---------------------------------------------------------------------------------------------

/// What is told of a stream: its header, never its content.
#[derive(Debug, PartialEq, Eq)]
pub struct StreamInfo {
    /// Its id.
    pub stream_id: String,
    /// Its kind.
    pub kind: String,
    /// Its class.
    pub content_class: String,
    /// The class lets content out.
    pub content_permitted: bool,
    /// The class lets a remote consumer in.
    pub remote_permitted: bool,
    /// Its datatype.
    pub datatype: Option<String>,
    /// Its rate.
    pub sample_rate_hz: Option<Real>,
    /// Its centre.
    pub center_hz: Option<Real>,
    /// Its bandwidth.
    pub bandwidth_hz: Option<Real>,
    /// Its FFT size.
    pub fft_size: Option<u32>,
    /// Half the width of its DC notch.
    pub dc_excluded_hz: Option<Real>,
}

/// How a stream's records are shaped.
#[derive(Debug, PartialEq, Eq)]
pub struct Format {
    /// The records are binary.
    pub binary: bool,
    /// The length of a record's header.
    pub record_header_len: Json,
    /// The longest frame.
    pub max_frame_len: Json,
    /// The emitter.
    pub emitter_id: Json,
    /// The bit stream.
    pub bitstream_id: Json,
    /// The framing of its bits.
    pub bit_framing: Json,
    /// The audio.
    pub audio: Json,
    /// The schema of its messages.
    pub message_schema: Json,
}

/// One offer: the publisher itself is held elsewhere, under the generation.
#[derive(Debug, PartialEq, Eq)]
pub struct Entry {
    /// What is told of it.
    pub info: StreamInfo,
    /// How its records are shaped.
    pub format: Format,
    /// Which registration this is.
    pub generation: u64,
    /// When it was offered, ns of a clock that never goes back.
    pub offered: u64,
}

impl Keyed for Entry {
    open spec fn key(self) -> Seq<char> {
        self.info.stream_id@
    }

    fn name(&self) -> (r: &str) {
        self.info.stream_id.as_str()
    }
}

/// A publisher is spent: none will publish on it again and nobody is attached. A live one that
/// nobody is attached to is not.
pub fn spent(finished: bool, open_consumers: u64) -> (r: bool)
    ensures
        r == (finished && open_consumers == 0),
{
    finished && open_consumers == 0
}

/// Each entry and whether its publisher is spent.
pub open spec fn marked(v: Seq<Entry>, spent: Seq<bool>) -> Seq<(Entry, bool)> {
    Seq::new(v.len(), |i: int| (v[i], spent[i]))
}

/// The entries alone.
pub open spec fn unmarked(z: Seq<(Entry, bool)>) -> Seq<Entry> {
    Seq::new(z.len(), |i: int| z[i].0)
}

/// A spent entry has lingered long enough.
pub open spec fn lingered(e: Entry, now: u64, linger: u64) -> bool {
    (if now >= e.offered {
        now - e.offered
    } else {
        0
    }) >= linger
}

/// The entries that stay once the spent ones that lingered are withdrawn.
pub open spec fn aged(z: Seq<(Entry, bool)>, now: u64, linger: u64) -> Seq<(Entry, bool)>
    decreases z.len(),
{
    if z.len() == 0 {
        Seq::empty()
    } else if z[0].1 && lingered(z[0].0, now, linger) {
        aged(z.skip(1), now, linger)
    } else {
        seq![z[0]] + aged(z.skip(1), now, linger)
    }
}

/// The spent entry that was offered first; of those offered at once, the first by name.
pub open spec fn oldest(z: Seq<(Entry, bool)>) -> Option<int>
    decreases z.len(),
{
    if z.len() == 0 {
        None
    } else {
        let i = oldest(z.drop_last());
        if !z.last().1 {
            i
        } else {
            match i {
                Some(k) => if z.last().0.offered < z[k].0.offered {
                    Some(z.len() - 1)
                } else {
                    Some(k)
                },
                None => Some(z.len() - 1),
            }
        }
    }
}

proof fn oldest_in_range(z: Seq<(Entry, bool)>)
    ensures
        oldest(z) matches Some(k) ==> 0 <= k < z.len() && z[k].1,
        oldest(z) is None ==> forall|i: int| 0 <= i < z.len() ==> !(#[trigger] z[i]).1,
        oldest(z) matches Some(k) ==> forall|i: int|
            0 <= i < z.len() && (#[trigger] z[i]).1 ==> z[k].0.offered <= z[i].0.offered,
    decreases z.len(),
{
    if z.len() > 0 {
        let t = z.drop_last();
        oldest_in_range(t);
        assert forall|i: int| 0 <= i < z.len() && oldest(z) is None implies !(
        #[trigger] z[i]).1 by {
            if i < t.len() {
                assert(t[i] == z[i]);
            }
        }
        if oldest(z) is Some {
            let k = oldest(z)->0;
            assert forall|i: int| 0 <= i < z.len() && (#[trigger] z[i]).1 implies z[k].0.offered
                <= z[i].0.offered by {
                if i < t.len() {
                    assert(t[i] == z[i]);
                }
            }
        }
    }
}

/// The entries that stay once the registry is no longer over its cap, or no spent one is left.
pub open spec fn capped(z: Seq<(Entry, bool)>) -> Seq<(Entry, bool)>
    decreases z.len(),
{
    if z.len() <= MAX_STREAMS {
        z
    } else {
        match oldest(z) {
            Some(k) => if 0 <= k < z.len() {
                capped(z.remove(k))
            } else {
                z
            },
            None => z,
        }
    }
}

/// The entries that stay after a reap.
pub open spec fn reaped(v: Seq<Entry>, spent: Seq<bool>, now: u64, linger: u64) -> Seq<Entry> {
    unmarked(capped(aged(marked(v, spent), now, linger)))
}

/// One entry stands among others.
pub open spec fn stands_in(z: Seq<(Entry, bool)>, x: (Entry, bool)) -> bool {
    exists|i: int| 0 <= i < z.len() && #[trigger] z[i] == x
}

proof fn aged_keeps(z: Seq<(Entry, bool)>, now: u64, linger: u64)
    ensures
        forall|i: int|
            0 <= i < z.len() && !((#[trigger] z[i]).1 && lingered(z[i].0, now, linger))
                ==> stands_in(aged(z, now, linger), z[i]),
        forall|i: int|
            0 <= i < aged(z, now, linger).len() ==> stands_in(
                z,
                #[trigger] aged(z, now, linger)[i],
            ),
    decreases z.len(),
{
    if z.len() > 0 {
        let t = z.skip(1);
        aged_keeps(t, now, linger);
        let a = aged(t, now, linger);
        let out = aged(z, now, linger);
        let gone = z[0].1 && lingered(z[0].0, now, linger);
        assert forall|i: int|
            0 <= i < z.len() && !((#[trigger] z[i]).1 && lingered(
                z[i].0,
                now,
                linger,
            )) implies stands_in(out, z[i]) by {
            if i == 0 {
                assert(out[0] == z[0]);
            } else {
                assert(t[i - 1] == z[i]);
                let k = choose|k: int| 0 <= k < a.len() && #[trigger] a[k] == t[i - 1];
                if gone {
                    assert(out[k] == z[i]);
                } else {
                    assert(out[k + 1] == z[i]);
                }
            }
        }
        assert forall|i: int| 0 <= i < out.len() implies stands_in(z, #[trigger] out[i]) by {
            if gone {
                let k = choose|k: int| 0 <= k < t.len() && #[trigger] t[k] == a[i];
                assert(z[k + 1] == out[i]);
            } else if i == 0 {
                assert(z[0] == out[0]);
            } else {
                assert(a[i - 1] == out[i]);
                let k = choose|k: int| 0 <= k < t.len() && #[trigger] t[k] == a[i - 1];
                assert(z[k + 1] == out[i]);
            }
        }
    }
}

proof fn capped_keeps(z: Seq<(Entry, bool)>)
    ensures
        capped(z).len() <= MAX_STREAMS || forall|i: int|
            0 <= i < capped(z).len() ==> !(#[trigger] capped(z)[i]).1,
        forall|i: int| 0 <= i < z.len() && !(#[trigger] z[i]).1 ==> stands_in(capped(z), z[i]),
        forall|i: int| 0 <= i < capped(z).len() ==> stands_in(z, #[trigger] capped(z)[i]),
    decreases z.len(),
{
    oldest_in_range(z);
    if z.len() > MAX_STREAMS && oldest(z) is Some {
        let k = oldest(z)->0;
        let t = z.remove(k);
        capped_keeps(t);
        assert forall|i: int| 0 <= i < z.len() && !(#[trigger] z[i]).1 implies stands_in(
            capped(z),
            z[i],
        ) by {
            let j = if i < k {
                i
            } else {
                i - 1
            };
            assert(t[j] == z[i]);
        }
        assert forall|i: int| 0 <= i < capped(z).len() implies stands_in(
            z,
            #[trigger] capped(z)[i],
        ) by {
            let j = choose|j: int| 0 <= j < t.len() && #[trigger] t[j] == capped(t)[i];
            let p = if j < k {
                j
            } else {
                j + 1
            };
            assert(z[p] == capped(z)[i]);
        }
    } else {
        assert forall|i: int| 0 <= i < z.len() implies stands_in(z, #[trigger] z[i]) by {}
    }
}

/// A reap withdraws no live publisher, and leaves the registry within its cap or with live
/// publishers alone.
pub proof fn live_streams_are_never_withdrawn(
    v: Seq<Entry>,
    spent: Seq<bool>,
    now: u64,
    linger: u64,
)
    requires
        v.len() == spent.len(),
    ensures
        forall|i: int|
            0 <= i < v.len() && !(#[trigger] spent[i]) ==> reaped(v, spent, now, linger).contains(
                v[i],
            ),
        reaped(v, spent, now, linger).len() <= MAX_STREAMS || forall|i: int|
            0 <= i < capped(aged(marked(v, spent), now, linger)).len() ==> !(#[trigger] capped(
                aged(marked(v, spent), now, linger),
            )[i]).1,
        forall|i: int|
            0 <= i < reaped(v, spent, now, linger).len() ==> v.contains(
                #[trigger] reaped(v, spent, now, linger)[i],
            ),
{
    let z = marked(v, spent);
    let a = aged(z, now, linger);
    let c = capped(a);
    let out = reaped(v, spent, now, linger);
    aged_keeps(z, now, linger);
    capped_keeps(a);
    assert forall|i: int| 0 <= i < v.len() && !(#[trigger] spent[i]) implies out.contains(v[i]) by {
        assert(z[i] == (v[i], false));
        let j = choose|j: int| 0 <= j < a.len() && #[trigger] a[j] == z[i];
        assert(!a[j].1);
        let k = choose|k: int| 0 <= k < c.len() && #[trigger] c[k] == a[j];
        assert(out[k] == v[i]);
    }
    assert forall|i: int| 0 <= i < out.len() implies v.contains(#[trigger] out[i]) by {
        assert(out[i] == c[i].0);
        let j = choose|j: int| 0 <= j < a.len() && #[trigger] a[j] == c[i];
        let k = choose|k: int| 0 <= k < z.len() && #[trigger] z[k] == a[j];
        assert(v[k] == out[i]);
    }
}

/// A spent stream that lingered long enough is withdrawn by the next reap.
pub proof fn spent_streams_are_withdrawn(z: Seq<(Entry, bool)>, now: u64, linger: u64)
    ensures
        forall|i: int|
            0 <= i < aged(z, now, linger).len() ==> !((#[trigger] aged(z, now, linger)[i]).1
                && lingered(aged(z, now, linger)[i].0, now, linger)),
    decreases z.len(),
{
    if z.len() > 0 {
        let t = z.skip(1);
        spent_streams_are_withdrawn(t, now, linger);
        let out = aged(z, now, linger);
        let rest = aged(t, now, linger);
        assert forall|i: int| 0 <= i < out.len() implies !((#[trigger] out[i]).1 && lingered(
            out[i].0,
            now,
            linger,
        )) by {
            if z[0].1 && lingered(z[0].0, now, linger) {
                assert(out[i] == rest[i]);
            } else if i > 0 {
                assert(out[i] == rest[i - 1]);
            } else {
                assert(out[i] == z[0]);
            }
        }
    }
}

/// The streams that a server offers, by name.
pub struct StreamRegistry {
    entries: Vec<Entry>,
    generation: u64,
    linger: u64,
}

impl StreamRegistry {
    /// The offers, in the order of their names.
    pub closed spec fn entries(self) -> Seq<Entry> {
        self.entries@
    }

    /// How many registrations there have been.
    pub closed spec fn generation(self) -> u64 {
        self.generation
    }

    /// How long a spent stream lingers, ns.
    pub closed spec fn linger(self) -> u64 {
        self.linger
    }

    /// No name stands twice, and no offer is newer than the newest.
    pub open spec fn wf(self) -> bool {
        &&& in_order(self.entries())
        &&& forall|i: int|
            0 <= i < self.entries().len() ==> (#[trigger] self.entries()[i]).generation
                <= self.generation()
    }

    /// Offers nothing yet.
    pub fn new() -> (r: StreamRegistry)
        ensures
            r.wf(),
            r.entries() == Seq::<Entry>::empty(),
            r.generation() == 0,
            r.linger() == FINISHED_LINGER,
    {
        StreamRegistry { entries: Vec::new(), generation: 0, linger: FINISHED_LINGER }
    }

    /// Offers nothing yet, with another time to linger.
    pub fn with_linger(linger: u64) -> (r: StreamRegistry)
        ensures
            r.wf(),
            r.entries() == Seq::<Entry>::empty(),
            r.generation() == 0,
            r.linger() == linger,
    {
        StreamRegistry { entries: Vec::new(), generation: 0, linger }
    }

    /// [`StreamRegistry::generation`].
    pub fn registrations(&self) -> (r: u64)
        ensures
            r == self.generation(),
    {
        self.generation
    }

    /// Offers a stream: its generation is newer than every other's.
    pub fn register(&mut self, info: StreamInfo, format: Format, now: u64) -> (r: u64)
        requires
            old(self).wf(),
            old(self).generation() < u64::MAX,
        ensures
            final(self).wf(),
            r == old(self).generation() + 1,
            final(self).generation() == r,
            final(self).linger() == old(self).linger(),
            final(self).entries() == offered(
                old(self).entries(),
                Entry { info, format, generation: r, offered: now },
            ),
    {
        let ghost v = self.entries@;
        self.generation = self.generation + 1;
        let e = Entry { info, format, generation: self.generation, offered: now };
        let ghost ge = e;
        proof {
            place_is_first(v, e.key());
        }
        put(&mut self.entries, e);
        proof {
            let w = self.entries@;
            let p = place(v, ge.key());
            assert forall|k: int| 0 <= k < w.len() implies (#[trigger] w[k]).generation
                <= self.generation by {
                if under(v, ge.key()) is Some {
                    if k != p {
                        assert(w[k] == v[k]);
                    }
                } else if k < p {
                    assert(w[k] == v[k]);
                } else if k > p {
                    assert(w[k] == v[k - 1]);
                }
            }
        }
        self.generation
    }

    /// Withdraws every spent stream that lingered long enough, then, while the registry is over
    /// its cap, the oldest that are spent. `spent` says of each offer whether it is.
    pub fn reap(&mut self, now: u64, spent: Vec<bool>)
        requires
            old(self).wf(),
            spent@.len() == old(self).entries().len(),
        ensures
            final(self).wf(),
            final(self).generation() == old(self).generation(),
            final(self).linger() == old(self).linger(),
            final(self).entries() == reaped(
                old(self).entries(),
                spent@,
                now,
                old(self).linger(),
            ),
    {
        let mut marks = spent;
        let linger = self.linger;
        let ghost z = marked(self.entries@, marks@);
        let ghost goal = aged(z, now, linger);
        let mut i: usize = 0;
        assert(z.take(0) + aged(z.skip(0), now, linger) =~= goal) by {
            assert(z.skip(0) =~= z);
        }
        while i < self.entries.len()
            invariant
                i <= self.entries@.len(),
                marks@.len() == self.entries@.len(),
                linger == self.linger,
                self.generation == old(self).generation,
                self.linger == old(self).linger,
                self.wf(),
                goal == marked(self.entries@, marks@).take(i as int) + aged(
                    marked(self.entries@, marks@).skip(i as int),
                    now,
                    linger,
                ),
            decreases self.entries@.len() - i,
        {
            let ghost m = marked(self.entries@, marks@);
            let ghost rest = m.skip(i as int);
            let ghost es = self.entries@;
            assert(rest[0] == m[i as int]);
            assert(rest.skip(1) =~= m.skip(i + 1));
            let age: u64 = if now >= self.entries[i].offered {
                now - self.entries[i].offered
            } else {
                0
            };
            if marks[i] && age >= linger {
                let _ = self.entries.remove(i);
                let _ = marks.remove(i);
                proof {
                    let n = marked(self.entries@, marks@);
                    assert(n.take(i as int) =~= m.take(i as int));
                    assert(n.skip(i as int) =~= m.skip(i + 1));
                    removed_in_order(es, i as int);
                }
            } else {
                proof {
                    assert(m.take(i + 1) =~= m.take(i as int).push(m[i as int]));
                    assert(m.take(i as int) + (seq![m[i as int]] + aged(
                        m.skip(i + 1),
                        now,
                        linger,
                    )) =~= m.take(i + 1) + aged(m.skip(i + 1), now, linger));
                }
                i += 1;
            }
        }
        proof {
            let m = marked(self.entries@, marks@);
            assert(m.take(i as int) =~= m);
            assert(m.skip(i as int) =~= Seq::empty());
            assert(m + Seq::<(Entry, bool)>::empty() =~= m);
            assert(goal == m);
        }
        let ghost full = capped(goal);
        while self.entries.len() > MAX_STREAMS
            invariant_except_break
                capped(marked(self.entries@, marks@)) == full,
            invariant
                marks@.len() == self.entries@.len(),
                self.generation == old(self).generation,
                self.linger == old(self).linger,
                self.wf(),
            ensures
                marked(self.entries@, marks@) == full,
            decreases self.entries@.len(),
        {
            let ghost m = marked(self.entries@, marks@);
            let ghost es = self.entries@;
            let k = match self.find_oldest(&marks) {
                Some(k) => k,
                None => {
                    break;
                },
            };
            let _ = self.entries.remove(k);
            let _ = marks.remove(k);
            proof {
                oldest_in_range(m);
                assert(marked(self.entries@, marks@) =~= m.remove(k as int));
                removed_in_order(es, k as int);
            }
        }
        assert(unmarked(marked(self.entries@, marks@)) =~= self.entries@);
    }

    fn find_oldest(&self, marks: &Vec<bool>) -> (r: Option<usize>)
        requires
            marks@.len() == self.entries@.len(),
        ensures
            match r {
                Some(k) => oldest(marked(self.entries@, marks@)) == Some(k as int) && k
                    < self.entries@.len(),
                None => oldest(marked(self.entries@, marks@)) is None,
            },
    {
        let ghost z = marked(self.entries@, marks@);
        let mut best: Option<usize> = None;
        let mut i: usize = 0;
        assert(z.take(0) =~= Seq::empty());
        while i < self.entries.len()
            invariant
                z == marked(self.entries@, marks@),
                marks@.len() == self.entries@.len(),
                i <= self.entries@.len(),
                match best {
                    Some(k) => oldest(z.take(i as int)) == Some(k as int) && k < i,
                    None => oldest(z.take(i as int)) is None,
                },
            decreases self.entries@.len() - i,
        {
            assert(z.take(i + 1).drop_last() =~= z.take(i as int));
            assert(z.take(i + 1).last() == z[i as int]);
            if marks[i] {
                match best {
                    Some(k) => {
                        assert(z.take(i + 1)[k as int] == z[k as int]);
                        if self.entries[i].offered < self.entries[k].offered {
                            best = Some(i);
                        }
                    },
                    None => {
                        best = Some(i);
                    },
                }
            }
            i += 1;
        }
        assert(z.take(self.entries@.len() as int) =~= z);
        best
    }

    /// How many streams are offered.
    pub fn len(&self) -> (r: usize)
        ensures
            r == self.entries().len(),
    {
        self.entries.len()
    }

    /// No stream is offered.
    pub fn is_empty(&self) -> (r: bool)
        ensures
            r == (self.entries().len() == 0),
    {
        self.entries.len() == 0
    }

    /// The offers, in the order of their names.
    pub fn all(&self) -> (r: &Vec<Entry>)
        ensures
            r@ == self.entries(),
    {
        &self.entries
    }

    /// Offers nothing any more.
    pub fn clear(&mut self)
        requires
            old(self).wf(),
        ensures
            final(self).wf(),
            final(self).entries() == Seq::<Entry>::empty(),
            final(self).generation() == old(self).generation(),
            final(self).linger() == old(self).linger(),
    {
        self.entries = Vec::new();
    }

    /// Stops offering a stream; says whether it was offered.
    pub fn unregister(&mut self, id: &str) -> (r: bool)
        requires
            old(self).wf(),
        ensures
            final(self).wf(),
            final(self).entries() == withdrawn(old(self).entries(), id@),
            final(self).generation() == old(self).generation(),
            final(self).linger() == old(self).linger(),
            r == under(old(self).entries(), id@) is Some,
    {
        let ghost es = self.entries@;
        proof {
            place_is_first(es, id@);
            if under(es, id@) is Some {
                removed_in_order(es, place(es, id@));
            }
        }
        take_out(&mut self.entries, id)
    }

    /// The generation of the offer under a name.
    pub fn offer(&self, id: &str) -> (r: Option<u64>)
        requires
            self.wf(),
        ensures
            r == (match under(self.entries(), id@) {
                Some(e) => Some(e.generation),
                None => None,
            }),
    {
        let (i, there) = find(&self.entries, id);
        if there {
            Some(self.entries[i].generation)
        } else {
            None
        }
    }

    /// The generation of the offer under a name, only where it is newer than `generation`.
    pub fn offer_after(&self, id: &str, generation: u64) -> (r: Option<u64>)
        requires
            self.wf(),
        ensures
            r == (match under(self.entries(), id@) {
                Some(e) => if e.generation > generation {
                    Some(e.generation)
                } else {
                    None
                },
                None => None,
            }),
    {
        match self.offer(id) {
            Some(g) => if g > generation {
                Some(g)
            } else {
                None
            },
            None => None,
        }
    }
}

// ---------------------------------------------------------------------------------------------
// Discovery
// ---------------------------------------------------------------------------------------------

/// An optional small number.
pub open spec fn opt_small_v(n: Option<u32>) -> JsonV {
    match n {
        Some(n) => uint_v(n as int),
        None => JsonV::Null,
    }
}

/// How a stream's records are shaped.
pub open spec fn format_v(h: Format) -> JsonV {
    JsonV::Object(
        no_fields().push(
            (
                "framing"@,
                text_v("u32-le length-prefixed frames; first frame is the JSON header"@),
            ),
        ).push(
            (
                "records"@,
                text_v(
                    if h.binary {
                        "32-byte binary record header + payload (type 1 data, 2 dropped, 3 status)"@
                    } else {
                        "NDJSON message records"@
                    },
                ),
            ),
        ).push(("record_header_len"@, h.record_header_len.view())).push(
            ("max_frame_len"@, h.max_frame_len.view()),
        ).push(("emitter_id"@, h.emitter_id.view())).push(
            ("bitstream_id"@, h.bitstream_id.view()),
        ).push(("bit_framing"@, h.bit_framing.view())).push(("audio"@, h.audio.view())).push(
            ("message_schema"@, h.message_schema.view()),
        ),
    )
}

/// [`format_v`].
pub fn format_json(h: &Format) -> (r: Json)
    ensures
        r.view() == format_v(*h),
{
    let mut f = Fields::new();
    f.put(
        "framing",
        Json::text("u32-le length-prefixed frames; first frame is the JSON header"),
    );
    f.put(
        "records",
        Json::text(
            if h.binary {
                "32-byte binary record header + payload (type 1 data, 2 dropped, 3 status)"
            } else {
                "NDJSON message records"
            },
        ),
    );
    f.put("record_header_len", h.record_header_len.copy());
    f.put("max_frame_len", h.max_frame_len.copy());
    f.put("emitter_id", h.emitter_id.copy());
    f.put("bitstream_id", h.bitstream_id.copy());
    f.put("bit_framing", h.bit_framing.copy());
    f.put("audio", h.audio.copy());
    f.put("message_schema", h.message_schema.copy());
    f.object()
}

/// A stream in the listing.
pub open spec fn entry_v(e: Entry, open_consumers: u64) -> JsonV {
    let i = e.info;
    JsonV::Object(
        no_fields().push(("stream_id"@, text_v(i.stream_id@))).push(
            ("kind"@, text_v(i.kind@)),
        ).push(("content_class"@, text_v(i.content_class@))).push(
            ("content_permitted"@, JsonV::Bool(i.content_permitted)),
        ).push(("remote_permitted"@, JsonV::Bool(i.remote_permitted))).push(
            ("datatype"@, opt_text_v(opt_string(i.datatype))),
        ).push(("sample_rate_hz"@, opt_real_v(i.sample_rate_hz))).push(
            ("center_hz"@, opt_real_v(i.center_hz)),
        ).push(("bandwidth_hz"@, opt_real_v(i.bandwidth_hz))).push(
            ("fft_size"@, opt_small_v(i.fft_size)),
        ).push(("dc_excluded_hz"@, opt_real_v(i.dc_excluded_hz))).push(
            ("open_consumers"@, uint_v(open_consumers as int)),
        ).push(("ws_path"@, text_v("/ws/"@ + i.stream_id@))).push(
            ("tcp_target"@, text_v(i.stream_id@)),
        ).push(("format"@, format_v(e.format))),
    )
}

fn entry_json(e: &Entry, open_consumers: u64) -> (r: Json)
    ensures
        r.view() == entry_v(*e, open_consumers),
{
    let i = &e.info;
    let mut f = Fields::new();
    f.put("stream_id", Json::text(i.stream_id.as_str()));
    f.put("kind", Json::text(i.kind.as_str()));
    f.put("content_class", Json::text(i.content_class.as_str()));
    f.put("content_permitted", Json::Bool(i.content_permitted));
    f.put("remote_permitted", Json::Bool(i.remote_permitted));
    f.put("datatype", Json::opt_text(&i.datatype));
    f.put("sample_rate_hz", Json::opt_double(i.sample_rate_hz));
    f.put("center_hz", Json::opt_double(i.center_hz));
    f.put("bandwidth_hz", Json::opt_double(i.bandwidth_hz));
    f.put(
        "fft_size",
        match i.fft_size {
            Some(n) => Json::uint(n as u64),
            None => Json::Null,
        },
    );
    f.put("dc_excluded_hz", Json::opt_double(i.dc_excluded_hz));
    f.put("open_consumers", Json::uint(open_consumers));
    f.put("ws_path", Json::Text(String::from_str("/ws/").concat(i.stream_id.as_str())));
    f.put("tcp_target", Json::text(i.stream_id.as_str()));
    f.put("format", format_json(&e.format));
    f.object()
}

/// The listing: what is offered now, in the order of the names.
pub open spec fn listing_v(v: Seq<Entry>, open: Seq<u64>) -> Seq<JsonV> {
    Seq::new(v.len(), |i: int| entry_v(v[i], open[i]))
}

impl StreamRegistry {
    /// The offers as [`listing_v`] writes them. `open` counts the consumers of each.
    pub fn listing(&self, open: &Vec<u64>) -> (r: Json)
        requires
            open@.len() == self.entries().len(),
        ensures
            r.view() == JsonV::Object(
                no_fields().push(("streams"@, JsonV::Array(listing_v(self.entries(), open@)))),
            ),
    {
        let mut f = Fields::new();
        f.put("streams", streams_json(&self.entries, open));
        f.object()
    }
}

fn streams_json(v: &Vec<Entry>, open: &Vec<u64>) -> (r: Json)
    requires
        open@.len() == v@.len(),
    ensures
        r.view() == JsonV::Array(listing_v(v@, open@)),
{
    let ghost want = listing_v(v@, open@);
    let mut out = Items::new();
    let mut i: usize = 0;
    assert(want.take(0) =~= Seq::empty());
    while i < v.len()
        invariant
            open@.len() == v@.len(),
            want == listing_v(v@, open@),
            i <= v@.len(),
            out@ == want.take(i as int),
        decreases v@.len() - i,
    {
        let x = entry_json(&v[i], open[i]);
        assert(want.take(i + 1) =~= want.take(i as int).push(x.view()));
        out.push(x);
        i += 1;
    }
    assert(want.take(v@.len() as int) =~= want);
    out.array()
}

/// One that opens streams on demand, and what it says of itself.
#[derive(Debug, PartialEq, Eq)]
pub struct Opener {
    /// Its name.
    pub name: String,
    /// What it says of itself.
    pub about: Json,
}

/// The members of `o`, and those of `d` whose names are not among them yet.
pub open spec fn completed(
    o: Seq<(Seq<char>, JsonV)>,
    d: Seq<(Seq<char>, JsonV)>,
) -> Seq<(Seq<char>, JsonV)>
    decreases d.len(),
{
    if d.len() == 0 {
        o
    } else {
        let b = completed(o, d.drop_last());
        if member(b, d.last().0) is None {
            b.push(d.last())
        } else {
            b
        }
    }
}

/// An opener in the listing: what it says of itself never hides where it is reached.
pub open spec fn opener_v(o: Opener) -> JsonV {
    let f = no_fields().push(("name"@, text_v(o.name@))).push(
        ("ws_path"@, text_v("/ws/open/"@ + o.name@)),
    ).push(("tcp_target"@, text_v("open/"@ + o.name@)));
    JsonV::Object(
        match o.about.view() {
            JsonV::Object(d) => completed(f, d),
            _ => f,
        },
    )
}

fn complete(f: Fields, d: &Vec<(String, Json)>) -> (r: Fields)
    ensures
        r@ == completed(f@, fields_view(d@)),
{
    let ghost g = fields_view(d@);
    let ghost start = f@;
    let mut f = f;
    let mut i: usize = 0;
    proof {
        fields_view_each(d@);
        assert(g.take(0) =~= Seq::empty());
    }
    while i < d.len()
        invariant
            g == fields_view(d@),
            g.len() == d@.len(),
            forall|k: int| 0 <= k < d@.len() ==> g[k] == ((#[trigger] d@[k]).0@, d@[k].1.view()),
            i <= d@.len(),
            f@ == completed(start, g.take(i as int)),
        decreases d@.len() - i,
    {
        proof {
            assert(g.take(i + 1).drop_last() =~= g.take(i as int));
            assert(g.take(i + 1).last() == (d@[i as int].0@, d@[i as int].1.view()));
        }
        if find_member(&f.list, d[i].0.as_str()).is_none() {
            f.put(d[i].0.as_str(), d[i].1.copy());
        }
        i += 1;
    }
    assert(g.take(d@.len() as int) =~= g);
    f
}

fn opener_json(o: &Opener) -> (r: Json)
    ensures
        r.view() == opener_v(*o),
{
    let mut f = Fields::new();
    f.put("name", Json::text(o.name.as_str()));
    f.put("ws_path", Json::Text(String::from_str("/ws/open/").concat(o.name.as_str())));
    f.put("tcp_target", Json::Text(String::from_str("open/").concat(o.name.as_str())));
    match &o.about {
        Json::Object(d) => complete(f, d).object(),
        _ => f.object(),
    }
}

/// The openers of a listing.
pub open spec fn openers_v(v: Seq<Opener>) -> Seq<JsonV> {
    Seq::new(v.len(), |i: int| opener_v(v[i]))
}

fn openers_json(v: &Vec<Opener>) -> (r: Json)
    ensures
        r.view() == JsonV::Array(openers_v(v@)),
{
    let ghost want = openers_v(v@);
    let mut out = Items::new();
    let mut i: usize = 0;
    assert(want.take(0) =~= Seq::empty());
    while i < v.len()
        invariant
            want == openers_v(v@),
            i <= v@.len(),
            out@ == want.take(i as int),
        decreases v@.len() - i,
    {
        let x = opener_json(&v[i]);
        assert(want.take(i + 1) =~= want.take(i as int).push(x.view()));
        out.push(x);
        i += 1;
    }
    assert(want.take(v@.len() as int) =~= want);
    out.array()
}

/// How a stream is reached over TCP.
pub open spec fn tcp_v(addr: Option<Seq<char>>) -> JsonV {
    match addr {
        Some(a) => JsonV::Object(
            no_fields().push(("addr"@, text_v(a))).push(
                ("handshake"@, text_v("<tcp_target>?token=<token>[&param=value...]\\n"@)),
            ).push(
                (
                    "refusal"@,
                    text_v(
                        "one frame {\"type\":\"refused\",\"status\",\"code\",\"reason\"} instead of the header"@,
                    ),
                ),
            ),
        ),
        None => JsonV::Null,
    }
}

fn tcp_json(addr: &Option<String>) -> (r: Json)
    ensures
        r.view() == tcp_v(opt_string(*addr)),
{
    match addr {
        Some(a) => {
            let mut f = Fields::new();
            f.put("addr", Json::text(a.as_str()));
            f.put("handshake", Json::text("<tcp_target>?token=<token>[&param=value...]\\n"));
            f.put(
                "refusal",
                Json::text(
                    "one frame {\"type\":\"refused\",\"status\",\"code\",\"reason\"} instead of the header",
                ),
            );
            f.object()
        },
        None => Json::Null,
    }
}

/// The discovery document: every stream offered, every opener, and how to reach both.
pub fn discovery_json(
    v: &Vec<Entry>,
    open: &Vec<u64>,
    openers: &Vec<Opener>,
    tcp: &Option<String>,
) -> (r: Json)
    requires
        open@.len() == v@.len(),
    ensures
        r.view() == JsonV::Object(
            no_fields().push(("streams"@, JsonV::Array(listing_v(v@, open@)))).push(
                ("on_demand"@, JsonV::Array(openers_v(openers@))),
            ).push(("tcp"@, tcp_v(opt_string(*tcp)))),
        ),
{
    let mut f = Fields::new();
    f.put("streams", streams_json(v, open));
    f.put("on_demand", openers_json(openers));
    f.put("tcp", tcp_json(tcp));
    f.object()
}

// ---------------------------------------------------------------------------------------------
// Frames to messages
// ---------------------------------------------------------------------------------------------

/// One WebSocket message.
#[derive(Debug, PartialEq, Eq)]
pub enum WsMessage {
    /// A text.
    Text(String),
    /// Bytes.
    Binary(Vec<u8>),
}

/// What a [`WsMessage`] holds.
#[verifier::ext_equal]
pub enum WsMessageV {
    /// A text.
    Text(Seq<char>),
    /// Bytes.
    Binary(Seq<u8>),
}

impl WsMessage {
    /// What it holds.
    pub open spec fn view(&self) -> WsMessageV {
        match self {
            WsMessage::Text(s) => WsMessageV::Text(s@),
            WsMessage::Binary(b) => WsMessageV::Binary(b@),
        }
    }
}

/// What ends a sink.
#[derive(Clone, Copy, Debug, PartialEq, Eq, Structural)]
pub enum SinkError {
    /// A frame that should be a text is none.
    NotText,
    /// The first frame is no header.
    BadHeader,
}

/// The writer of one browser: the frames of a publisher become messages, one for one.
#[derive(Clone, Copy, Debug, PartialEq, Eq, Structural)]
pub struct WsSink {
    /// The response to the upgrade has been written.
    pub shaken: bool,
    /// The header has been sent.
    pub header_sent: bool,
    /// The records are texts.
    pub text_records: bool,
}

/// The message of a frame: the header and every record of a text stream are texts, any other
/// record is binary.
pub open spec fn message_of(header_sent: bool, text_records: bool, frame: Seq<u8>) -> Result<
    WsMessageV,
    SinkError,
> {
    if !header_sent || text_records {
        if valid_utf8(frame) {
            Ok(WsMessageV::Text(decode_utf8(frame)))
        } else {
            Err(SinkError::NotText)
        }
    } else {
        Ok(WsMessageV::Binary(frame))
    }
}

/// What a frame becomes: its message, and the bound on later frames where it is the header.
pub open spec fn frame_of(s: WsSink, frame: Seq<u8>, max: Option<u32>) -> Result<
    (WsMessageV, Option<u32>),
    SinkError,
> {
    match message_of(s.header_sent, s.text_records, frame) {
        Err(e) => Err(e),
        Ok(m) => if s.header_sent {
            Ok((m, None))
        } else {
            match max {
                None => Err(SinkError::BadHeader),
                Some(n) => Ok((m, Some(n))),
            }
        },
    }
}

/// What a frame or its refusal holds.
pub open spec fn frame_result(r: Result<(WsMessage, Option<u32>), SinkError>) -> Result<
    (WsMessageV, Option<u32>),
    SinkError,
> {
    match r {
        Ok((m, n)) => Ok((m@, n)),
        Err(e) => Err(e),
    }
}

impl WsSink {
    /// A sink that has written nothing.
    pub fn new(binary: bool) -> (r: WsSink)
        ensures
            r == (WsSink { shaken: false, header_sent: false, text_records: !binary }),
    {
        WsSink { shaken: false, header_sent: false, text_records: !binary }
    }

    /// Whether the response to the upgrade is to be written now: before the first message, once.
    pub fn shake(&mut self) -> (r: bool)
        ensures
            r == !old(self).shaken,
            *final(self) == (WsSink { shaken: true, ..*old(self) }),
    {
        let r = !self.shaken;
        self.shaken = true;
        r
    }

    /// [`frame_of`]: `max` is the bound that the frame states, where it is a header.
    pub fn frame(&mut self, frame: Vec<u8>, max: Option<u32>) -> (r: Result<
        (WsMessage, Option<u32>),
        SinkError,
    >)
        ensures
            frame_result(r) == frame_of(*old(self), frame@, max),
            *final(self) == (WsSink {
                header_sent: old(self).header_sent || r is Ok,
                ..*old(self)
            }),
    {
        let m = if !self.header_sent || self.text_records {
            match utf8(frame) {
                Some(s) => WsMessage::Text(s),
                None => return Err(SinkError::NotText),
            }
        } else {
            WsMessage::Binary(frame)
        };
        if self.header_sent {
            return Ok((m, None));
        }
        match max {
            None => Err(SinkError::BadHeader),
            Some(n) => {
                self.header_sent = true;
                Ok((m, Some(n)))
            },
        }
    }
}

/// The header always goes out as the first message and as a text, and no frame is changed on the
/// way: the message of a frame holds exactly its bytes.
pub proof fn frames_are_not_changed(s: WsSink, frame: Seq<u8>, max: Option<u32>)
    ensures
        match frame_of(s, frame, max) {
            Ok((WsMessageV::Text(t), n)) => encode_utf8(t) == frame && (n is Some
                <==> !s.header_sent),
            Ok((WsMessageV::Binary(b), n)) => b == frame && n is None && s.header_sent
                && !s.text_records,
            Err(_) => true,
        },
{
    if valid_utf8(frame) {
        vstd::utf8::decode_utf8_encode_utf8(frame);
    }
}

// ---------------------------------------------------------------------------------------------
// Carrying a connection over
// ---------------------------------------------------------------------------------------------

/// Why a consumer was closed.
#[derive(Clone, Copy, Debug, PartialEq, Eq, Structural)]
pub enum CloseReason {
    /// Its publisher finished.
    PublisherFinished,
    /// It could not keep up.
    SlowConsumer,
    /// Its peer is gone.
    PeerGone,
    /// Its queue did not drain.
    DrainTimeout,
    /// It was detached.
    Detached,
}

/// Whether the end of a consumer is the end of its connection: only a finished publisher leaves
/// the socket open.
pub fn ends_connection(reason: CloseReason) -> (r: bool)
    ensures
        r == (reason != CloseReason::PublisherFinished),
{
    match reason {
        CloseReason::PublisherFinished => false,
        _ => true,
    }
}

/// What the watcher of a connection knows.
#[derive(Clone, Copy, Debug, PartialEq, Eq, Structural)]
pub struct Watch {
    /// The offer that it is attached to, or was last.
    pub generation: u64,
    /// Since its publisher finished: when to give up.
    pub waiting: Option<u64>,
}

/// What the watcher does next.
#[derive(Clone, Copy, Debug, PartialEq, Eq, Structural)]
pub enum Next {
    /// Goes on.
    Again,
    /// Looks at what is offered.
    Look,
    /// Attaches to this offer.
    Attach(u64),
    /// Closes the consumer and the socket.
    End,
}

impl Watch {
    /// The watcher of a new connection.
    pub fn new(generation: u64) -> (r: Watch)
        ensures
            r == (Watch { generation, waiting: None }),
    {
        Watch { generation, waiting: None }
    }

    /// What is awaited first: the next offer where the publisher finished, else the peer.
    pub fn in_gap(&self) -> (r: bool)
        ensures
            r == self.waiting is Some,
    {
        self.waiting.is_some()
    }

    /// After the wait for an offer in the gap: where none came, the peer must still be there.
    pub fn waited(&self, offered: bool, quiet: bool) -> (r: Next)
        ensures
            r == (if offered || quiet {
                Next::Look
            } else {
                Next::End
            }),
    {
        if offered || quiet {
            Next::Look
        } else {
            Next::End
        }
    }

    /// After a read of the peer: consumers never write, so anything but silence ends it. Then why
    /// the consumer was closed, if it was.
    pub fn read(&mut self, quiet: bool, reason: Option<CloseReason>, now: u64) -> (r: Next)
        ensures
            r == (if !quiet {
                Next::End
            } else {
                match reason {
                    None => Next::Again,
                    Some(CloseReason::PublisherFinished) => Next::Look,
                    Some(_) => Next::End,
                }
            }),
            final(self).generation == old(self).generation,
            final(self).waiting == (if r is Look {
                Some(
                    if now <= u64::MAX - CARRY_OVER_GRACE {
                        (now + CARRY_OVER_GRACE) as u64
                    } else {
                        u64::MAX
                    },
                )
            } else {
                old(self).waiting
            }),
    {
        if !quiet {
            return Next::End;
        }
        match reason {
            None => Next::Again,
            Some(CloseReason::PublisherFinished) => {
                self.waiting = Some(
                    if now <= u64::MAX - CARRY_OVER_GRACE {
                        now + CARRY_OVER_GRACE
                    } else {
                        u64::MAX
                    },
                );
                Next::Look
            },
            Some(_) => Next::End,
        }
    }

    /// After a look at what is offered under the stream's id.
    pub open spec fn seen(self, offer: Option<u64>, now: u64) -> Next {
        match offer {
            None => Next::End,
            Some(g) => if g > self.generation {
                Next::Attach(g)
            } else if self.waiting matches Some(d) && now >= d {
                Next::End
            } else {
                Next::Again
            },
        }
    }

    /// [`Watch::seen`].
    pub fn look(&self, offer: Option<u64>, now: u64) -> (r: Next)
        ensures
            r == self.seen(offer, now),
    {
        match offer {
            None => Next::End,
            Some(g) => {
                if g > self.generation {
                    return Next::Attach(g);
                }
                if let Some(d) = self.waiting {
                    if now >= d {
                        return Next::End;
                    }
                }
                Next::Again
            },
        }
    }

    /// After an attempt to attach to an offer: a successor that was itself finished already is
    /// waited past.
    pub open spec fn attached_to(self, g: u64, outcome: AttachOutcome) -> (Watch, Next) {
        match outcome {
            AttachOutcome::Attached => (Watch { generation: g, waiting: None }, Next::Again),
            AttachOutcome::BetweenWindows => if self.waiting is Some {
                (Watch { generation: g, ..self }, Next::Again)
            } else {
                (self, Next::End)
            },
            _ => (self, Next::End),
        }
    }

    /// [`Watch::attached_to`].
    pub fn attach(&mut self, g: u64, outcome: AttachOutcome) -> (r: Next)
        ensures
            (*final(self), r) == old(self).attached_to(g, outcome),
    {
        match outcome {
            AttachOutcome::Attached => {
                self.generation = g;
                self.waiting = None;
                Next::Again
            },
            AttachOutcome::BetweenWindows => {
                if self.waiting.is_some() {
                    self.generation = g;
                    Next::Again
                } else {
                    Next::End
                }
            },
            _ => Next::End,
        }
    }
}

/// A connection never goes back to a publisher it has had, attaches to nothing that is withdrawn,
/// and waits in the gap no longer than the grace.
pub proof fn connections_move_forward(w: Watch, offer: Option<u64>, now: u64, outcome: AttachOutcome)
    ensures
        match w.seen(offer, now) {
            Next::Attach(g) => offer == Some(g) && g > w.generation && w.attached_to(
                g,
                outcome,
            ).0.generation >= w.generation && (w.attached_to(g, outcome).1 is Again
                ==> w.attached_to(g, outcome).0.generation == g),
            Next::Again => offer is Some && (w.waiting is None || now < w.waiting->0),
            Next::End => offer is None || (w.waiting is Some && now >= w.waiting->0),
            Next::Look => false,
        },
{
}

/// Which offers are withdrawn for their age: those that are spent and were offered at least the time
/// to linger ago. Every other stays, in its place.
pub proof fn only_spent_offers_age(x: (Entry, bool), rest: Seq<(Entry, bool)>, now: u64, linger: u64)
    ensures
        aged(Seq::empty(), now, linger) == Seq::<(Entry, bool)>::empty(),
        x.1 && x.0.offered + linger <= now ==> aged(seq![x] + rest, now, linger) == aged(
            rest,
            now,
            linger,
        ),
        !x.1 || (now < x.0.offered + linger && linger > 0) ==> aged(seq![x] + rest, now, linger)
            == seq![x] + aged(rest, now, linger),
{
    assert((seq![x] + rest).skip(1) =~= rest);
}

/// The offer that goes first is a spent one, and none that is spent was offered before it; there is
/// one where any is spent.
pub proof fn the_oldest_spent_offer_goes_first(z: Seq<(Entry, bool)>)
    ensures
        oldest(z) is None <==> forall|i: int| 0 <= i < z.len() ==> !(#[trigger] z[i]).1,
        oldest(z) matches Some(k) ==> 0 <= k < z.len() && z[k].1 && forall|i: int|
            0 <= i < z.len() && (#[trigger] z[i]).1 ==> z[k].0.offered <= z[i].0.offered,
        z.len() > 256 ==> (oldest(z) matches Some(k) ==> capped(z) == capped(z.remove(k))),
        z.len() <= 256 || oldest(z) is None ==> capped(z) == z,
    decreases z.len(),
{
    if z.len() > 0 {
        let t = z.drop_last();
        the_oldest_spent_offer_goes_first(t);
        assert(z[z.len() - 1] == z.last());
        assert forall|i: int| 0 <= i < t.len() implies t[i] == #[trigger] z[i] by {}
        if oldest(t) is None {
            assert forall|i: int| 0 <= i < t.len() implies !(#[trigger] z[i]).1 by {
                assert(!t[i].1);
            }
        } else {
            let k = oldest(t)->0;
            assert(t[k] == z[k]);
            assert forall|i: int| 0 <= i < t.len() && (#[trigger] z[i]).1 implies z[k].0.offered
                <= z[i].0.offered by {
                assert(t[i].1);
            }
        }
    }
}

/// What a frame becomes: the header and every frame of a stream of texts is a text, and is refused
/// where it is none; any other is sent as it is. A header without a bound is refused.
pub proof fn frames_are_texts_or_bytes(s: WsSink, frame: Seq<u8>, max: Option<u32>)
    ensures
        s.header_sent && !s.text_records ==> frame_of(s, frame, max) == Ok::<
            (WsMessageV, Option<u32>),
            SinkError,
        >((WsMessageV::Binary(frame), None)),
        (!s.header_sent || s.text_records) && !valid_utf8(frame) ==> frame_of(s, frame, max) == Err::<
            (WsMessageV, Option<u32>),
            SinkError,
        >(SinkError::NotText),
        s.header_sent && s.text_records && valid_utf8(frame) ==> frame_of(s, frame, max) == Ok::<
            (WsMessageV, Option<u32>),
            SinkError,
        >((WsMessageV::Text(decode_utf8(frame)), None)),
        !s.header_sent && valid_utf8(frame) ==> frame_of(s, frame, max) == (match max {
            Some(n) => Ok((WsMessageV::Text(decode_utf8(frame)), Some(n))),
            None => Err(SinkError::BadHeader),
        }),
{
}

/// What the watcher does about an offer: it attaches to a newer one; it ends where none is there, or
/// where it has waited long enough for a newer one; else it goes on.
pub proof fn newer_offers_are_attached_to(w: Watch, g: u64, now: u64)
    ensures
        w.seen(None, now) is End,
        g > w.generation ==> w.seen(Some(g), now) == Next::Attach(g),
        g <= w.generation && w.waiting is None ==> w.seen(Some(g), now) is Again,
        g <= w.generation ==> (w.waiting matches Some(d) ==> (w.seen(Some(g), now) is Again <==> now
            < d) && (w.seen(Some(g), now) is End <==> now >= d)),
{
}

/// What the watcher does about an attempt: once attached it is on that offer and waits no more; an
/// offer that was between windows already is waited past where it waits anyway; anything else ends
/// it.
pub proof fn attempts_are_followed_up(w: Watch, g: u64, outcome: AttachOutcome)
    ensures
        outcome is Attached ==> w.attached_to(g, outcome) == (
            Watch { generation: g, waiting: None },
            Next::Again,
        ),
        outcome is BetweenWindows && w.waiting is Some ==> w.attached_to(g, outcome).1 is Again
            && w.attached_to(g, outcome).0.generation == g && w.attached_to(g, outcome).0.waiting
            == w.waiting,
        outcome is BetweenWindows && w.waiting is None ==> w.attached_to(g, outcome).1 is End,
        !(outcome is Attached) && !(outcome is BetweenWindows) ==> w.attached_to(g, outcome).1 is End,
{
}

/// What a reader finds of a stream: what it carries, who may have it, how many have it, and where it
/// is to be had.
pub proof fn a_stream_says_where_it_is(e: Entry, open: u64)
    ensures
        ({
            let v = entry_v(e, open);
            &&& at(v, "stream_id"@) == Some(text_v(e.info.stream_id@))
            &&& at(v, "kind"@) == Some(text_v(e.info.kind@))
            &&& at(v, "content_class"@) == Some(text_v(e.info.content_class@))
            &&& at(v, "content_permitted"@) == Some(JsonV::Bool(e.info.content_permitted))
            &&& at(v, "remote_permitted"@) == Some(JsonV::Bool(e.info.remote_permitted))
            &&& at(v, "sample_rate_hz"@) == Some(opt_real_v(e.info.sample_rate_hz))
            &&& at(v, "center_hz"@) == Some(opt_real_v(e.info.center_hz))
            &&& at(v, "bandwidth_hz"@) == Some(opt_real_v(e.info.bandwidth_hz))
            &&& at(v, "open_consumers"@) == Some(uint_v(open as int))
            &&& at(v, "ws_path"@) == Some(text_v("/ws/"@ + e.info.stream_id@))
            &&& at(v, "tcp_target"@) == Some(text_v(e.info.stream_id@))
            &&& at(v, "format"@) == Some(format_v(e.format))
        }),
{
    let f = entry_v(e, open)->Object_0;
    member_is_the_first(f, "stream_id"@, 0);
    assert("stream_id"@ != "kind"@) by {
        reveal_strlit("stream_id");
        reveal_strlit("kind");
        assert("stream_id"@.len() != "kind"@.len());
    }
    member_is_the_first(f, "kind"@, 1);
    assert("stream_id"@ != "content_class"@) by {
        reveal_strlit("stream_id");
        reveal_strlit("content_class");
        assert("stream_id"@.len() != "content_class"@.len());
    }
    assert("kind"@ != "content_class"@) by {
        reveal_strlit("kind");
        reveal_strlit("content_class");
        assert("kind"@.len() != "content_class"@.len());
    }
    member_is_the_first(f, "content_class"@, 2);
    assert("stream_id"@ != "content_permitted"@) by {
        reveal_strlit("stream_id");
        reveal_strlit("content_permitted");
        assert("stream_id"@.len() != "content_permitted"@.len());
    }
    assert("kind"@ != "content_permitted"@) by {
        reveal_strlit("kind");
        reveal_strlit("content_permitted");
        assert("kind"@.len() != "content_permitted"@.len());
    }
    assert("content_class"@ != "content_permitted"@) by {
        reveal_strlit("content_class");
        reveal_strlit("content_permitted");
        assert("content_class"@.len() != "content_permitted"@.len());
    }
    member_is_the_first(f, "content_permitted"@, 3);
    assert("stream_id"@ != "remote_permitted"@) by {
        reveal_strlit("stream_id");
        reveal_strlit("remote_permitted");
        assert("stream_id"@.len() != "remote_permitted"@.len());
    }
    assert("kind"@ != "remote_permitted"@) by {
        reveal_strlit("kind");
        reveal_strlit("remote_permitted");
        assert("kind"@.len() != "remote_permitted"@.len());
    }
    assert("content_class"@ != "remote_permitted"@) by {
        reveal_strlit("content_class");
        reveal_strlit("remote_permitted");
        assert("content_class"@.len() != "remote_permitted"@.len());
    }
    assert("content_permitted"@ != "remote_permitted"@) by {
        reveal_strlit("content_permitted");
        reveal_strlit("remote_permitted");
        assert("content_permitted"@.len() != "remote_permitted"@.len());
    }
    member_is_the_first(f, "remote_permitted"@, 4);
    assert("stream_id"@ != "sample_rate_hz"@) by {
        reveal_strlit("stream_id");
        reveal_strlit("sample_rate_hz");
        assert("stream_id"@.len() != "sample_rate_hz"@.len());
    }
    assert("kind"@ != "sample_rate_hz"@) by {
        reveal_strlit("kind");
        reveal_strlit("sample_rate_hz");
        assert("kind"@.len() != "sample_rate_hz"@.len());
    }
    assert("content_class"@ != "sample_rate_hz"@) by {
        reveal_strlit("content_class");
        reveal_strlit("sample_rate_hz");
        assert("content_class"@.len() != "sample_rate_hz"@.len());
    }
    assert("content_permitted"@ != "sample_rate_hz"@) by {
        reveal_strlit("content_permitted");
        reveal_strlit("sample_rate_hz");
        assert("content_permitted"@.len() != "sample_rate_hz"@.len());
    }
    assert("remote_permitted"@ != "sample_rate_hz"@) by {
        reveal_strlit("remote_permitted");
        reveal_strlit("sample_rate_hz");
        assert("remote_permitted"@.len() != "sample_rate_hz"@.len());
    }
    assert("datatype"@ != "sample_rate_hz"@) by {
        reveal_strlit("datatype");
        reveal_strlit("sample_rate_hz");
        assert("datatype"@.len() != "sample_rate_hz"@.len());
    }
    member_is_the_first(f, "sample_rate_hz"@, 6);
    assert("stream_id"@ != "center_hz"@) by {
        reveal_strlit("stream_id");
        reveal_strlit("center_hz");
        assert("stream_id"@[0] != "center_hz"@[0]);
    }
    assert("kind"@ != "center_hz"@) by {
        reveal_strlit("kind");
        reveal_strlit("center_hz");
        assert("kind"@.len() != "center_hz"@.len());
    }
    assert("content_class"@ != "center_hz"@) by {
        reveal_strlit("content_class");
        reveal_strlit("center_hz");
        assert("content_class"@.len() != "center_hz"@.len());
    }
    assert("content_permitted"@ != "center_hz"@) by {
        reveal_strlit("content_permitted");
        reveal_strlit("center_hz");
        assert("content_permitted"@.len() != "center_hz"@.len());
    }
    assert("remote_permitted"@ != "center_hz"@) by {
        reveal_strlit("remote_permitted");
        reveal_strlit("center_hz");
        assert("remote_permitted"@.len() != "center_hz"@.len());
    }
    assert("datatype"@ != "center_hz"@) by {
        reveal_strlit("datatype");
        reveal_strlit("center_hz");
        assert("datatype"@.len() != "center_hz"@.len());
    }
    assert("sample_rate_hz"@ != "center_hz"@) by {
        reveal_strlit("sample_rate_hz");
        reveal_strlit("center_hz");
        assert("sample_rate_hz"@.len() != "center_hz"@.len());
    }
    member_is_the_first(f, "center_hz"@, 7);
    assert("stream_id"@ != "bandwidth_hz"@) by {
        reveal_strlit("stream_id");
        reveal_strlit("bandwidth_hz");
        assert("stream_id"@.len() != "bandwidth_hz"@.len());
    }
    assert("kind"@ != "bandwidth_hz"@) by {
        reveal_strlit("kind");
        reveal_strlit("bandwidth_hz");
        assert("kind"@.len() != "bandwidth_hz"@.len());
    }
    assert("content_class"@ != "bandwidth_hz"@) by {
        reveal_strlit("content_class");
        reveal_strlit("bandwidth_hz");
        assert("content_class"@.len() != "bandwidth_hz"@.len());
    }
    assert("content_permitted"@ != "bandwidth_hz"@) by {
        reveal_strlit("content_permitted");
        reveal_strlit("bandwidth_hz");
        assert("content_permitted"@.len() != "bandwidth_hz"@.len());
    }
    assert("remote_permitted"@ != "bandwidth_hz"@) by {
        reveal_strlit("remote_permitted");
        reveal_strlit("bandwidth_hz");
        assert("remote_permitted"@.len() != "bandwidth_hz"@.len());
    }
    assert("datatype"@ != "bandwidth_hz"@) by {
        reveal_strlit("datatype");
        reveal_strlit("bandwidth_hz");
        assert("datatype"@.len() != "bandwidth_hz"@.len());
    }
    assert("sample_rate_hz"@ != "bandwidth_hz"@) by {
        reveal_strlit("sample_rate_hz");
        reveal_strlit("bandwidth_hz");
        assert("sample_rate_hz"@.len() != "bandwidth_hz"@.len());
    }
    assert("center_hz"@ != "bandwidth_hz"@) by {
        reveal_strlit("center_hz");
        reveal_strlit("bandwidth_hz");
        assert("center_hz"@.len() != "bandwidth_hz"@.len());
    }
    member_is_the_first(f, "bandwidth_hz"@, 8);
    assert("stream_id"@ != "open_consumers"@) by {
        reveal_strlit("stream_id");
        reveal_strlit("open_consumers");
        assert("stream_id"@.len() != "open_consumers"@.len());
    }
    assert("kind"@ != "open_consumers"@) by {
        reveal_strlit("kind");
        reveal_strlit("open_consumers");
        assert("kind"@.len() != "open_consumers"@.len());
    }
    assert("content_class"@ != "open_consumers"@) by {
        reveal_strlit("content_class");
        reveal_strlit("open_consumers");
        assert("content_class"@.len() != "open_consumers"@.len());
    }
    assert("content_permitted"@ != "open_consumers"@) by {
        reveal_strlit("content_permitted");
        reveal_strlit("open_consumers");
        assert("content_permitted"@.len() != "open_consumers"@.len());
    }
    assert("remote_permitted"@ != "open_consumers"@) by {
        reveal_strlit("remote_permitted");
        reveal_strlit("open_consumers");
        assert("remote_permitted"@.len() != "open_consumers"@.len());
    }
    assert("datatype"@ != "open_consumers"@) by {
        reveal_strlit("datatype");
        reveal_strlit("open_consumers");
        assert("datatype"@.len() != "open_consumers"@.len());
    }
    assert("sample_rate_hz"@ != "open_consumers"@) by {
        reveal_strlit("sample_rate_hz");
        reveal_strlit("open_consumers");
        assert("sample_rate_hz"@[0] != "open_consumers"@[0]);
    }
    assert("center_hz"@ != "open_consumers"@) by {
        reveal_strlit("center_hz");
        reveal_strlit("open_consumers");
        assert("center_hz"@.len() != "open_consumers"@.len());
    }
    assert("bandwidth_hz"@ != "open_consumers"@) by {
        reveal_strlit("bandwidth_hz");
        reveal_strlit("open_consumers");
        assert("bandwidth_hz"@.len() != "open_consumers"@.len());
    }
    assert("fft_size"@ != "open_consumers"@) by {
        reveal_strlit("fft_size");
        reveal_strlit("open_consumers");
        assert("fft_size"@.len() != "open_consumers"@.len());
    }
    assert("dc_excluded_hz"@ != "open_consumers"@) by {
        reveal_strlit("dc_excluded_hz");
        reveal_strlit("open_consumers");
        assert("dc_excluded_hz"@[0] != "open_consumers"@[0]);
    }
    member_is_the_first(f, "open_consumers"@, 11);
    assert("stream_id"@ != "ws_path"@) by {
        reveal_strlit("stream_id");
        reveal_strlit("ws_path");
        assert("stream_id"@.len() != "ws_path"@.len());
    }
    assert("kind"@ != "ws_path"@) by {
        reveal_strlit("kind");
        reveal_strlit("ws_path");
        assert("kind"@.len() != "ws_path"@.len());
    }
    assert("content_class"@ != "ws_path"@) by {
        reveal_strlit("content_class");
        reveal_strlit("ws_path");
        assert("content_class"@.len() != "ws_path"@.len());
    }
    assert("content_permitted"@ != "ws_path"@) by {
        reveal_strlit("content_permitted");
        reveal_strlit("ws_path");
        assert("content_permitted"@.len() != "ws_path"@.len());
    }
    assert("remote_permitted"@ != "ws_path"@) by {
        reveal_strlit("remote_permitted");
        reveal_strlit("ws_path");
        assert("remote_permitted"@.len() != "ws_path"@.len());
    }
    assert("datatype"@ != "ws_path"@) by {
        reveal_strlit("datatype");
        reveal_strlit("ws_path");
        assert("datatype"@.len() != "ws_path"@.len());
    }
    assert("sample_rate_hz"@ != "ws_path"@) by {
        reveal_strlit("sample_rate_hz");
        reveal_strlit("ws_path");
        assert("sample_rate_hz"@.len() != "ws_path"@.len());
    }
    assert("center_hz"@ != "ws_path"@) by {
        reveal_strlit("center_hz");
        reveal_strlit("ws_path");
        assert("center_hz"@.len() != "ws_path"@.len());
    }
    assert("bandwidth_hz"@ != "ws_path"@) by {
        reveal_strlit("bandwidth_hz");
        reveal_strlit("ws_path");
        assert("bandwidth_hz"@.len() != "ws_path"@.len());
    }
    assert("fft_size"@ != "ws_path"@) by {
        reveal_strlit("fft_size");
        reveal_strlit("ws_path");
        assert("fft_size"@.len() != "ws_path"@.len());
    }
    assert("dc_excluded_hz"@ != "ws_path"@) by {
        reveal_strlit("dc_excluded_hz");
        reveal_strlit("ws_path");
        assert("dc_excluded_hz"@.len() != "ws_path"@.len());
    }
    assert("open_consumers"@ != "ws_path"@) by {
        reveal_strlit("open_consumers");
        reveal_strlit("ws_path");
        assert("open_consumers"@.len() != "ws_path"@.len());
    }
    member_is_the_first(f, "ws_path"@, 12);
    assert("stream_id"@ != "tcp_target"@) by {
        reveal_strlit("stream_id");
        reveal_strlit("tcp_target");
        assert("stream_id"@.len() != "tcp_target"@.len());
    }
    assert("kind"@ != "tcp_target"@) by {
        reveal_strlit("kind");
        reveal_strlit("tcp_target");
        assert("kind"@.len() != "tcp_target"@.len());
    }
    assert("content_class"@ != "tcp_target"@) by {
        reveal_strlit("content_class");
        reveal_strlit("tcp_target");
        assert("content_class"@.len() != "tcp_target"@.len());
    }
    assert("content_permitted"@ != "tcp_target"@) by {
        reveal_strlit("content_permitted");
        reveal_strlit("tcp_target");
        assert("content_permitted"@.len() != "tcp_target"@.len());
    }
    assert("remote_permitted"@ != "tcp_target"@) by {
        reveal_strlit("remote_permitted");
        reveal_strlit("tcp_target");
        assert("remote_permitted"@.len() != "tcp_target"@.len());
    }
    assert("datatype"@ != "tcp_target"@) by {
        reveal_strlit("datatype");
        reveal_strlit("tcp_target");
        assert("datatype"@.len() != "tcp_target"@.len());
    }
    assert("sample_rate_hz"@ != "tcp_target"@) by {
        reveal_strlit("sample_rate_hz");
        reveal_strlit("tcp_target");
        assert("sample_rate_hz"@.len() != "tcp_target"@.len());
    }
    assert("center_hz"@ != "tcp_target"@) by {
        reveal_strlit("center_hz");
        reveal_strlit("tcp_target");
        assert("center_hz"@.len() != "tcp_target"@.len());
    }
    assert("bandwidth_hz"@ != "tcp_target"@) by {
        reveal_strlit("bandwidth_hz");
        reveal_strlit("tcp_target");
        assert("bandwidth_hz"@.len() != "tcp_target"@.len());
    }
    assert("fft_size"@ != "tcp_target"@) by {
        reveal_strlit("fft_size");
        reveal_strlit("tcp_target");
        assert("fft_size"@.len() != "tcp_target"@.len());
    }
    assert("dc_excluded_hz"@ != "tcp_target"@) by {
        reveal_strlit("dc_excluded_hz");
        reveal_strlit("tcp_target");
        assert("dc_excluded_hz"@.len() != "tcp_target"@.len());
    }
    assert("open_consumers"@ != "tcp_target"@) by {
        reveal_strlit("open_consumers");
        reveal_strlit("tcp_target");
        assert("open_consumers"@.len() != "tcp_target"@.len());
    }
    assert("ws_path"@ != "tcp_target"@) by {
        reveal_strlit("ws_path");
        reveal_strlit("tcp_target");
        assert("ws_path"@.len() != "tcp_target"@.len());
    }
    member_is_the_first(f, "tcp_target"@, 13);
    assert("stream_id"@ != "format"@) by {
        reveal_strlit("stream_id");
        reveal_strlit("format");
        assert("stream_id"@.len() != "format"@.len());
    }
    assert("kind"@ != "format"@) by {
        reveal_strlit("kind");
        reveal_strlit("format");
        assert("kind"@.len() != "format"@.len());
    }
    assert("content_class"@ != "format"@) by {
        reveal_strlit("content_class");
        reveal_strlit("format");
        assert("content_class"@.len() != "format"@.len());
    }
    assert("content_permitted"@ != "format"@) by {
        reveal_strlit("content_permitted");
        reveal_strlit("format");
        assert("content_permitted"@.len() != "format"@.len());
    }
    assert("remote_permitted"@ != "format"@) by {
        reveal_strlit("remote_permitted");
        reveal_strlit("format");
        assert("remote_permitted"@.len() != "format"@.len());
    }
    assert("datatype"@ != "format"@) by {
        reveal_strlit("datatype");
        reveal_strlit("format");
        assert("datatype"@.len() != "format"@.len());
    }
    assert("sample_rate_hz"@ != "format"@) by {
        reveal_strlit("sample_rate_hz");
        reveal_strlit("format");
        assert("sample_rate_hz"@.len() != "format"@.len());
    }
    assert("center_hz"@ != "format"@) by {
        reveal_strlit("center_hz");
        reveal_strlit("format");
        assert("center_hz"@.len() != "format"@.len());
    }
    assert("bandwidth_hz"@ != "format"@) by {
        reveal_strlit("bandwidth_hz");
        reveal_strlit("format");
        assert("bandwidth_hz"@.len() != "format"@.len());
    }
    assert("fft_size"@ != "format"@) by {
        reveal_strlit("fft_size");
        reveal_strlit("format");
        assert("fft_size"@.len() != "format"@.len());
    }
    assert("dc_excluded_hz"@ != "format"@) by {
        reveal_strlit("dc_excluded_hz");
        reveal_strlit("format");
        assert("dc_excluded_hz"@.len() != "format"@.len());
    }
    assert("open_consumers"@ != "format"@) by {
        reveal_strlit("open_consumers");
        reveal_strlit("format");
        assert("open_consumers"@.len() != "format"@.len());
    }
    assert("ws_path"@ != "format"@) by {
        reveal_strlit("ws_path");
        reveal_strlit("format");
        assert("ws_path"@.len() != "format"@.len());
    }
    assert("tcp_target"@ != "format"@) by {
        reveal_strlit("tcp_target");
        reveal_strlit("format");
        assert("tcp_target"@.len() != "format"@.len());
    }
    member_is_the_first(f, "format"@, 14);
}

/// An opener's own words never hide what the server says of it: its name and where it is to be had.
pub proof fn openers_are_where_they_are_said_to_be(o: Opener)
    ensures
        at(opener_v(o), "name"@) == Some(text_v(o.name@)),
        at(opener_v(o), "ws_path"@) == Some(text_v("/ws/open/"@ + o.name@)),
        at(opener_v(o), "tcp_target"@) == Some(text_v("open/"@ + o.name@)),
{
    let f = no_fields().push(("name"@, text_v(o.name@))).push(
        ("ws_path"@, text_v("/ws/open/"@ + o.name@)),
    ).push(("tcp_target"@, text_v("open/"@ + o.name@)));
    member_is_the_first(f, "name"@, 0);
    assert("name"@ != "ws_path"@) by {
        reveal_strlit("name");
        reveal_strlit("ws_path");
        assert("name"@.len() != "ws_path"@.len());
    }
    member_is_the_first(f, "ws_path"@, 1);
    assert("name"@ != "tcp_target"@) by {
        reveal_strlit("name");
        reveal_strlit("tcp_target");
        assert("name"@.len() != "tcp_target"@.len());
    }
    assert("ws_path"@ != "tcp_target"@) by {
        reveal_strlit("ws_path");
        reveal_strlit("tcp_target");
        assert("ws_path"@.len() != "tcp_target"@.len());
    }
    member_is_the_first(f, "tcp_target"@, 2);
    if let JsonV::Object(d) = o.about.view() {
        what_is_there_is_kept(f, d, "name"@);
        what_is_there_is_kept(f, d, "ws_path"@);
        what_is_there_is_kept(f, d, "tcp_target"@);
    }
}

proof fn what_is_there_is_kept(
    o: Seq<(Seq<char>, JsonV)>,
    d: Seq<(Seq<char>, JsonV)>,
    name: Seq<char>,
)
    requires
        member(o, name) is Some,
    ensures
        member(completed(o, d), name) == member(o, name),
    decreases d.len(),
{
    if d.len() > 0 {
        what_is_there_is_kept(o, d.drop_last(), name);
        let b = completed(o, d.drop_last());
        if member(b, d.last().0) is None {
            member_index_is_first(b, name);
            let w = b.push(d.last());
            let i = member_index(b, name);
            assert(w[i] == b[i]);
            assert forall|k: int| 0 <= k < i implies (#[trigger] w[k]).0 != name by {
                assert(w[k] == b[k]);
            }
            member_is_the_first(w, name, i);
        }
    }
}

} // verus!
