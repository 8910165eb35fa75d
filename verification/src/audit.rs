//! The audit log: which lines are written, when, and how large they and their files may grow.
//!
//! Authenticated control requests get a full line each. Unauthenticated refusals are coalesced
//! per client: a written refusal line carries `count`, the refusals it stands for. Refusals over
//! the line budget, and counts still pending when the window rolls over or the log is flushed, go
//! into a summary line. Every refusal is counted exactly once ([`refusals_are_counted_once`]).
//!
//! The log decides; the embedding program writes the lines and says whether each write succeeded.

use vstd::prelude::*;
use vstd::utf8::{encode_scalar, encode_utf8};

use crate::json::{
    at, fields_view, fields_view_each, fields_view_push, items_view, items_view_push,
    member_is_the_first, member_set, no_fields, seconds_v, text_v, with_member, Fields, Items, Json,
    JsonV, Num,
};
use crate::text::{byte_len, chars_of, decimal, number, same};

verus! {

/// Most clients tracked for refusal coalescing at once.
pub const MAX_REFUSED_CLIENTS: usize = 1024;

/// Longest client name tracked, bytes.
pub const MAX_CLIENT_BYTES: usize = 64;

/// Least time between two reports of a failing log, nanoseconds.
pub const ERROR_REPORT_INTERVAL: u64 = 10_000_000_000;

/// Bounds of an audit log. The log is reachable by unauthenticated clients (every refused control
/// request is recorded), so its disk use, line size and refused-line rate are capped.
#[derive(Clone, Copy, Debug, PartialEq, Eq, Structural)]
pub struct AuditLimits {
    /// Largest file before it rotates, bytes.
    pub max_file_bytes: u64,
    /// Files kept, the live one included.
    pub files: usize,
    /// Longest line, bytes.
    pub max_line_bytes: usize,
    /// Longest top-level string field (path, origin, forwarded-for, ...), bytes.
    pub max_field_bytes: usize,
    /// Longest string nested in `request`, `old` or `new`, bytes.
    pub max_value_bytes: usize,
    /// Unauthenticated refusals: at most one line per client per this many nanoseconds; the ones
    /// in between are counted into the client's next line.
    pub refused_interval: u64,
    /// Unauthenticated refusal lines written per `refused_window` at most.
    pub refused_lines_per_window: u32,
    /// See `refused_lines_per_window`; nanoseconds.
    pub refused_window: u64,
}

impl Default for AuditLimits {
    /// 4 files of 16 MiB (64 MiB in all), 16 KiB lines, 256-byte fields (1 KiB nested), one
    /// refused line per client per second and at most 120 per minute.
    fn default() -> (r: Self)
        ensures
            r == (AuditLimits {
                max_file_bytes: 16_777_216,
                files: 4,
                max_line_bytes: 16_384,
                max_field_bytes: 256,
                max_value_bytes: 1024,
                refused_interval: 1_000_000_000,
                refused_lines_per_window: 120,
                refused_window: 60_000_000_000,
            }),
    {
        AuditLimits {
            max_file_bytes: 16_777_216,
            files: 4,
            max_line_bytes: 16_384,
            max_field_bytes: 256,
            max_value_bytes: 1024,
            refused_interval: 1_000_000_000,
            refused_lines_per_window: 120,
            refused_window: 60_000_000_000,
        }
    }
}

impl AuditLimits {
    /// What a log holds its files and lines to: at least one file, files of at least 1 KiB, lines
    /// of at least 512 bytes and no longer than a file.
    pub open spec fn sane(self) -> bool {
        self.files >= 1 && self.max_file_bytes >= 1024 && 512 <= self.max_line_bytes
            <= self.max_file_bytes
    }

    /// These limits, each raised or lowered to the nearest that a log can hold to.
    pub fn clamped(self) -> (r: AuditLimits)
        ensures
            r.sane(),
            self.sane() ==> r == self,
            r.files == (if self.files < 1 {
                1
            } else {
                self.files
            }),
            r.max_file_bytes == (if self.max_file_bytes < 1024 {
                1024
            } else {
                self.max_file_bytes
            }),
            r.max_line_bytes == (if self.max_line_bytes < 512 {
                512
            } else if self.max_line_bytes > r.max_file_bytes {
                r.max_file_bytes as usize
            } else {
                self.max_line_bytes
            }),
            r == (AuditLimits {
                files: r.files,
                max_file_bytes: r.max_file_bytes,
                max_line_bytes: r.max_line_bytes,
                ..self
            }),
    {
        let files: usize = if self.files < 1 {
            1
        } else {
            self.files
        };
        let max_file_bytes: u64 = if self.max_file_bytes < 1024 {
            1024
        } else {
            self.max_file_bytes
        };
        let max_line_bytes: usize = if self.max_line_bytes < 512 {
            512
        } else if self.max_line_bytes as u64 > max_file_bytes {
            max_file_bytes as usize
        } else {
            self.max_line_bytes
        };
        AuditLimits { files, max_file_bytes, max_line_bytes, ..self }
    }
}

// ---------------------------------------------------------------------------------------------
// Bounded values
// ---------------------------------------------------------------------------------------------

/// The bytes of one character in UTF-8.
pub open spec fn width(c: char) -> nat {
    encode_scalar(c as u32).len()
}

/// The bytes of some characters in UTF-8.
pub open spec fn bytes(s: Seq<char>) -> nat {
    encode_utf8(s).len()
}

/// How many of the first characters fit in `max` bytes.
pub open spec fn fitting(s: Seq<char>, max: nat) -> nat
    decreases s.len(),
{
    if s.len() == 0 || width(s[0]) > max {
        0
    } else {
        1 + fitting(s.skip(1), (max - width(s[0])) as nat)
    }
}

/// `s`, or as many of its first characters as fit in `max` bytes with a note of what was cut.
pub open spec fn bounded(s: Seq<char>, max: nat) -> Seq<char> {
    if bytes(s) <= max {
        s
    } else {
        let k = fitting(s, max) as int;
        s.take(k) + "…[truncated "@ + decimal((bytes(s) - bytes(s.take(k))) as nat) + " bytes]"@
    }
}

/// UTF-8 encodes two texts one behind the other.
pub proof fn encode_append(a: Seq<char>, b: Seq<char>)
    ensures
        encode_utf8(a + b) == encode_utf8(a) + encode_utf8(b),
    decreases a.len(),
{
    if a.len() == 0 {
        assert(a + b =~= b);
        assert(encode_utf8(a) + encode_utf8(b) =~= encode_utf8(b));
    } else {
        assert((a + b).drop_first() =~= a.drop_first() + b);
        encode_append(a.drop_first(), b);
        assert(encode_utf8(a + b) =~= encode_utf8(a) + encode_utf8(b));
    }
}

/// UTF-8 of one character.
pub proof fn encode_one(c: char)
    ensures
        encode_utf8(seq![c]) == encode_scalar(c as u32),
{
    reveal_with_fuel(encode_utf8, 2);
    assert(seq![c].drop_first() =~= Seq::empty());
    assert(encode_utf8(seq![c]) =~= encode_scalar(c as u32));
}

/// What is kept fits, and one character more would not.
pub proof fn fitting_is_longest(s: Seq<char>, max: nat)
    ensures
        fitting(s, max) <= s.len(),
        bytes(s.take(fitting(s, max) as int)) <= max,
        fitting(s, max) < s.len() ==> bytes(s.take(fitting(s, max) as int + 1)) > max,
    decreases s.len(),
{
    let k = fitting(s, max);
    if s.len() > 0 {
        let t = s.skip(1);
        let one = s.take(1);
        assert(one =~= seq![s[0]]);
        encode_one(s[0]);
        if width(s[0]) <= max {
            let m = (max - width(s[0])) as nat;
            fitting_is_longest(t, m);
            let j = fitting(t, m) as int;
            assert(s.take(k as int) =~= one + t.take(j));
            encode_append(one, t.take(j));
            if j < t.len() {
                assert(s.take(k as int + 1) =~= one + t.take(j + 1));
                encode_append(one, t.take(j + 1));
            }
        } else {
            assert(s.take(0) =~= Seq::empty());
        }
    } else {
        assert(s.take(0) =~= Seq::empty());
    }
}

fn char_width(c: char) -> (r: usize)
    ensures
        r == width(c),
        1 <= r <= 4,
{
    let v: u32 = c as u32;
    if v <= 0x7f {
        1
    } else if v <= 0x7ff {
        2
    } else if v <= 0xffff {
        3
    } else {
        4
    }
}

/// [`bounded`].
pub fn bound_str(s: &str, max: usize) -> (r: String)
    ensures
        r@ == bounded(s@, max as nat),
{
    let total = byte_len(s);
    if total <= max {
        return s.to_owned();
    }
    let v = chars_of(s);
    let mut k: usize = 0;
    let mut used: usize = 0;
    proof {
        fitting_is_longest(s@, max as nat);
        assert(s@.skip(0) =~= s@);
        assert(s@.take(0) =~= Seq::empty());
    }
    let ghost all = fitting(s@, max as nat);
    while k < v.len() && char_width(v[k]) <= max - used
        invariant
            v@ == s@,
            k <= v@.len(),
            used <= max,
            total > max,
            total == bytes(s@),
            used == bytes(s@.take(k as int)),
            bytes(s@.take(k as int)) <= bytes(s@),
            all == fitting(s@, max as nat),
            all == k + fitting(s@.skip(k as int), (max - used) as nat),
        decreases v@.len() - k,
    {
        let w = char_width(v[k]);
        proof {
            assert(s@.skip(k as int)[0] == s@[k as int]);
            assert(s@.skip(k as int).skip(1) =~= s@.skip(k + 1));
            let one = seq![s@[k as int]];
            assert(s@.take(k + 1) =~= s@.take(k as int) + one);
            encode_append(s@.take(k as int), one);
            encode_one(s@[k as int]);
            assert(s@ =~= s@.take(k + 1) + s@.skip(k + 1));
            encode_append(s@.take(k + 1), s@.skip(k + 1));
        }
        used += w;
        k += 1;
    }
    proof {
        if k < v.len() {
            assert(s@.skip(k as int)[0] == s@[k as int]);
        }
        assert(all == k);
    }
    let head = s.substring_char(0, k);
    assert(head@ =~= s@.take(k as int));
    let n = number((total - used) as u64);
    String::from_str(head).concat("…[truncated ").concat(n.as_str()).concat(" bytes]")
}

/// A value with every string and member name bounded; of two names that become one, the later
/// member stays.
pub open spec fn bounded_value(v: JsonV, max: nat) -> JsonV
    decreases v,
{
    match v {
        JsonV::Text(s) => JsonV::Text(bounded(s, max)),
        JsonV::Array(a) => JsonV::Array(bounded_items(a, max)),
        JsonV::Object(o) => JsonV::Object(bounded_fields(o, max)),
        other => other,
    }
}

/// The items of an array, each bounded.
pub open spec fn bounded_items(a: Seq<JsonV>, max: nat) -> Seq<JsonV>
    decreases a,
{
    if a.len() == 0 {
        Seq::empty()
    } else {
        bounded_items(a.drop_last(), max).push(bounded_value(a.last(), max))
    }
}

/// The members of an object, each bounded.
pub open spec fn bounded_fields(o: Seq<(Seq<char>, JsonV)>, max: nat) -> Seq<(Seq<char>, JsonV)>
    decreases o,
{
    if o.len() == 0 {
        Seq::empty()
    } else {
        with_member(
            bounded_fields(o.drop_last(), max),
            bounded(o.last().0, max),
            bounded_value(o.last().1, max),
        )
    }
}

/// [`bounded_value`].
pub fn bound_value(v: &Json, max: usize) -> (r: Json)
    ensures
        r.view() == bounded_value(v.view(), max as nat),
    decreases v,
{
    match v {
        Json::Text(s) => Json::Text(bound_str(s.as_str(), max)),
        Json::Array(a) => bound_items(a, max).array(),
        Json::Object(o) => bound_fields(o, max).object(),
        other => other.copy(),
    }
}

fn bound_items(a: &Vec<Json>, max: usize) -> (r: Items)
    ensures
        r@ == bounded_items(items_view(a@), max as nat),
    decreases a,
{
    let mut out = Items::new();
    let mut i: usize = 0;
    assert(a@.take(0) =~= Seq::empty());
    while i < a.len()
        invariant
            i <= a@.len(),
            out@ == bounded_items(items_view(a@.take(i as int)), max as nat),
        decreases a@.len() - i,
    {
        let x = bound_value(&a[i], max);
        proof {
            assert(a@.take(i + 1) =~= a@.take(i as int).push(a@[i as int]));
            items_view_push(a@.take(i as int), a@[i as int]);
            let s = items_view(a@.take(i as int));
            assert(s.push(a@[i as int].view()).drop_last() =~= s);
        }
        out.push(x);
        i += 1;
    }
    assert(a@.take(a@.len() as int) =~= a@);
    out
}

fn bound_fields(o: &Vec<(String, Json)>, max: usize) -> (r: Fields)
    ensures
        r@ == bounded_fields(fields_view(o@), max as nat),
    decreases o,
{
    let mut out = Fields::new();
    let mut i: usize = 0;
    assert(o@.take(0) =~= Seq::empty());
    while i < o.len()
        invariant
            i <= o@.len(),
            out@ == bounded_fields(fields_view(o@.take(i as int)), max as nat),
        decreases o@.len() - i,
    {
        let k = bound_str(o[i].0.as_str(), max);
        let x = bound_value(&o[i].1, max);
        proof {
            assert(o@.take(i + 1) =~= o@.take(i as int).push(o@[i as int]));
            fields_view_push(o@.take(i as int), o@[i as int]);
            let s = fields_view(o@.take(i as int));
            assert(s.push((o@[i as int].0@, o@[i as int].1.view())).drop_last() =~= s);
        }
        out.set(k, x);
        i += 1;
    }
    assert(o@.take(o@.len() as int) =~= o@);
    out
}

/// The members that hold what was asked for and what it changed.
pub open spec fn holds_values(name: Seq<char>) -> bool {
    name == "request"@ || name == "old"@ || name == "new"@
}

/// The members of an entry, bounded: nested values by one bound, every other member by another.
pub open spec fn bounded_entry_fields(
    o: Seq<(Seq<char>, JsonV)>,
    field: nat,
    value: nat,
) -> Seq<(Seq<char>, JsonV)>
    decreases o.len(),
{
    if o.len() == 0 {
        Seq::empty()
    } else {
        let (k, v) = o.last();
        with_member(
            bounded_entry_fields(o.drop_last(), field, value),
            bounded(k, field),
            bounded_value(
                v,
                if holds_values(k) {
                    value
                } else {
                    field
                },
            ),
        )
    }
}

/// An entry with every string bounded.
pub open spec fn bounded_entry(l: AuditLimits, entry: JsonV) -> JsonV {
    match entry {
        JsonV::Object(o) => JsonV::Object(
            bounded_entry_fields(o, l.max_field_bytes as nat, l.max_value_bytes as nat),
        ),
        other => bounded_value(other, l.max_field_bytes as nat),
    }
}

/// [`bounded_entry`].
pub fn bound_entry(l: &AuditLimits, entry: &Json) -> (r: Json)
    ensures
        r.view() == bounded_entry(*l, entry.view()),
{
    match entry {
        Json::Object(o) => {
            let mut out = Fields::new();
            let mut i: usize = 0;
            assert(o@.take(0) =~= Seq::empty());
            while i < o.len()
                invariant
                    i <= o@.len(),
                    out@ == bounded_entry_fields(
                        fields_view(o@.take(i as int)),
                        l.max_field_bytes as nat,
                        l.max_value_bytes as nat,
                    ),
                decreases o@.len() - i,
            {
                let name = o[i].0.as_str();
                let max = if same(name, "request") || same(name, "old") || same(name, "new") {
                    l.max_value_bytes
                } else {
                    l.max_field_bytes
                };
                let k = bound_str(name, l.max_field_bytes);
                let x = bound_value(&o[i].1, max);
                proof {
                    assert(o@.take(i + 1) =~= o@.take(i as int).push(o@[i as int]));
                    fields_view_push(o@.take(i as int), o@[i as int]);
                    let s = fields_view(o@.take(i as int));
                    assert(s.push((o@[i as int].0@, o@[i as int].1.view())).drop_last() =~= s);
                }
                out.set(k, x);
                i += 1;
            }
            assert(o@.take(o@.len() as int) =~= o@);
            out.object()
        },
        other => bound_value(other, l.max_field_bytes),
    }
}

/// `{"truncated": true, "entry_bytes": bytes}`.
pub open spec fn truncated_v(entry_bytes: u64) -> JsonV {
    JsonV::Object(
        no_fields().push(("truncated"@, JsonV::Bool(true))).push(
            ("entry_bytes"@, JsonV::Number(Num::U(entry_bytes))),
        ),
    )
}

/// The members of an entry, those that hold values replaced by a note of the entry's size.
pub open spec fn shortened_fields(
    o: Seq<(Seq<char>, JsonV)>,
    entry_bytes: u64,
) -> Seq<(Seq<char>, JsonV)> {
    o.map_values(
        |p: (Seq<char>, JsonV)|
            if holds_values(p.0) {
                (p.0, truncated_v(entry_bytes))
            } else {
                p
            },
    )
}

/// An entry without the values it holds.
pub open spec fn shortened(entry: JsonV, entry_bytes: u64) -> JsonV {
    match entry {
        JsonV::Object(o) => JsonV::Object(shortened_fields(o, entry_bytes)),
        other => other,
    }
}

/// [`shortened`].
pub fn shorten(entry: &Json, entry_bytes: u64) -> (r: Json)
    ensures
        r.view() == shortened(entry.view(), entry_bytes),
{
    match entry {
        Json::Object(o) => {
            let ghost want = shortened_fields(fields_view(o@), entry_bytes);
            let mut out = Fields::new();
            let mut i: usize = 0;
            proof {
                fields_view_each(o@);
                assert(want.take(0) =~= Seq::empty());
            }
            while i < o.len()
                invariant
                    i <= o@.len(),
                    fields_view(o@).len() == o@.len(),
                    forall|k: int|
                        0 <= k < o@.len() ==> fields_view(o@)[k] == (
                            (#[trigger] o@[k]).0@,
                            o@[k].1.view(),
                        ),
                    want == shortened_fields(fields_view(o@), entry_bytes),
                    out@ == want.take(i as int),
                decreases o@.len() - i,
            {
                let name = o[i].0.as_str();
                let x = if same(name, "request") || same(name, "old") || same(name, "new") {
                    let mut note = Fields::new();
                    note.put("truncated", Json::Bool(true));
                    note.put("entry_bytes", Json::uint(entry_bytes));
                    note.object()
                } else {
                    o[i].1.copy()
                };
                assert(fields_view(o@)[i as int] == (o@[i as int].0@, o@[i as int].1.view()));
                assert(want.take(i + 1) =~= want.take(i as int).push((name@, x.view())));
                out.put(name, x);
                i += 1;
            }
            assert(want.take(o@.len() as int) =~= want);
            out.object()
        },
        other => other.copy(),
    }
}

/// The entry that stands for one too long even without its values.
pub open spec fn stub_v(t_ns: i64, entry_bytes: u64) -> JsonV {
    JsonV::Object(
        no_fields().push(("t_s"@, seconds_v(t_ns))).push(("result"@, text_v("truncated"@))).push(
            ("entry_bytes"@, JsonV::Number(Num::U(entry_bytes))),
        ),
    )
}

/// [`stub_v`].
pub fn stub(t_ns: i64, entry_bytes: u64) -> (r: Json)
    ensures
        r.view() == stub_v(t_ns, entry_bytes),
{
    let mut f = Fields::new();
    f.put("t_s", Json::seconds(t_ns));
    f.put("result", Json::text("truncated"));
    f.put("entry_bytes", Json::uint(entry_bytes));
    f.object()
}

/// The entry of a summary line.
pub open spec fn summary_v(t_ns: i64, count: u64) -> JsonV {
    JsonV::Object(
        no_fields().push(("t_s"@, seconds_v(t_ns))).push(
            ("result"@, text_v("refused_summary"@)),
        ).push(("count"@, JsonV::Number(Num::U(count)))).push(
            ("error"@, text_v("unauthenticated refusals not logged individually (rate limit)"@)),
        ),
    )
}

/// [`summary_v`].
pub fn summary(t_ns: i64, count: u64) -> (r: Json)
    ensures
        r.view() == summary_v(t_ns, count),
{
    let mut f = Fields::new();
    f.put("t_s", Json::seconds(t_ns));
    f.put("result", Json::text("refused_summary"));
    f.put("count", Json::uint(count));
    f.put("error", Json::text("unauthenticated refusals not logged individually (rate limit)"));
    f.object()
}

/// An entry with the refusals it stands for.
pub open spec fn counted(entry: JsonV, count: u64) -> JsonV {
    match entry {
        JsonV::Object(o) => JsonV::Object(
            with_member(o, "count"@, JsonV::Number(Num::U(count))),
        ),
        other => other,
    }
}

/// [`counted`].
pub fn with_count(entry: Json, count: u64) -> (r: Json)
    ensures
        r.view() == counted(entry.view(), count),
{
    match entry {
        Json::Object(o) => {
            let mut f = Fields { list: o };
            f.set("count".to_owned(), Json::uint(count));
            f.object()
        },
        other => other,
    }
}

/// How much of an entry a line holds.
#[derive(Clone, Copy, Debug, PartialEq, Eq, Structural)]
pub enum LineStage {
    /// The bounded entry.
    Full,
    /// The entry without its values.
    Shortened,
    /// The stub.
    Stub,
}

/// What to do with an encoded entry.
pub enum LineStep {
    /// Write this line.
    Write(Vec<u8>),
    /// Encode the next shorter form.
    Shorter(LineStage),
}

/// Whether an encoded entry is written as it is: it is below the line bound, or there is no
/// shorter form.
pub open spec fn written_as_is(l: AuditLimits, stage: LineStage, len: nat) -> bool {
    len < l.max_line_bytes || stage == LineStage::Stub
}

/// The line of an encoded entry, or the next shorter form to encode.
pub fn line_step(l: &AuditLimits, stage: LineStage, encoded: Vec<u8>) -> (r: LineStep)
    ensures
        match r {
            LineStep::Write(line) => written_as_is(*l, stage, encoded@.len()) && line@
                == encoded@.push(10),
            LineStep::Shorter(next) => !written_as_is(*l, stage, encoded@.len()) && next == (
            if stage == LineStage::Full {
                LineStage::Shortened
            } else {
                LineStage::Stub
            }),
        },
{
    if encoded.len() < l.max_line_bytes || stage == LineStage::Stub {
        let mut line = encoded;
        line.push(10);
        return LineStep::Write(line);
    }
    LineStep::Shorter(
        match stage {
            LineStage::Full => LineStage::Shortened,
            _ => LineStage::Stub,
        },
    )
}

/// Most bytes that a number is written in: 20 digits of an integer, or the 17 digits, sign, point
/// and exponent of a double.
pub const MAX_NUMBER_BYTES: usize = 24;

/// Most bytes that plain members are written in without spaces, with a comma or a brace behind
/// each: the names and texts hold nothing that is escaped, and no value holds others.
pub open spec fn members_len(fields: Seq<(Seq<char>, JsonV)>) -> nat
    decreases fields.len(),
{
    if fields.len() == 0 {
        0
    } else {
        let (name, v) = fields.last();
        let value: nat = match v {
            JsonV::Number(_) => MAX_NUMBER_BYTES as nat,
            JsonV::Text(t) => t.len() + 2,
            _ => 5,
        };
        members_len(fields.drop_last()) + name.len() + 3 + value + 1
    }
}

/// A stub takes few bytes, whatever it stands for.
pub proof fn stubs_are_short(t_ns: i64, entry_bytes: u64)
    ensures
        stub_v(t_ns, entry_bytes) matches JsonV::Object(f) && 1 + members_len(f) == 92,
{
    reveal_strlit("t_s");
    reveal_strlit("result");
    reveal_strlit("truncated");
    reveal_strlit("entry_bytes");
    let f0 = no_fields();
    let f1 = f0.push(("t_s"@, seconds_v(t_ns)));
    let f2 = f1.push(("result"@, text_v("truncated"@)));
    let f3 = f2.push(("entry_bytes"@, JsonV::Number(Num::U(entry_bytes))));
    assert(f1.drop_last() =~= f0);
    assert(f2.drop_last() =~= f1);
    assert(f3.drop_last() =~= f2);
    assert(members_len(f0) == 0);
    assert(members_len(f1) == 31);
    assert(members_len(f2) == 52);
    assert(members_len(f3) == 91);
}

/// No line is longer than the line bound: an entry, whole or without its values, is written only
/// where it fits, and the stub that stands for one that does not is shorter than any bound.
pub proof fn lines_are_bounded(
    l: AuditLimits,
    stage: LineStage,
    encoded: Seq<u8>,
    t_ns: i64,
    entry_bytes: u64,
)
    requires
        l.sane(),
        written_as_is(l, stage, encoded.len()),
        stage == LineStage::Stub ==> encoded.len() <= 1 + members_len(
            stub_v(t_ns, entry_bytes)->Object_0,
        ),
    ensures
        encoded.push(10).len() <= l.max_line_bytes,
{
    stubs_are_short(t_ns, entry_bytes);
}

// ---------------------------------------------------------------------------------------------
// Coalescing refusals
// ---------------------------------------------------------------------------------------------

/// The refusals of one client.
pub struct ClientRefusals {
    /// The client.
    pub client: String,
    /// When its last line was written, nanoseconds.
    pub last_line: i128,
    /// Refusals since then that are on no line.
    pub suppressed: u64,
}

/// What a [`ClientRefusals`] holds.
#[verifier::ext_equal]
pub struct ClientV {
    /// The client.
    pub client: Seq<char>,
    /// When its last line was written.
    pub last_line: int,
    /// Refusals since then that are on no line.
    pub suppressed: nat,
}

/// What the clients hold.
pub open spec fn clients_view(c: Seq<ClientRefusals>) -> Seq<ClientV> {
    c.map_values(
        |x: ClientRefusals|
            ClientV {
                client: x.client@,
                last_line: x.last_line as int,
                suppressed: x.suppressed as nat,
            },
    )
}

/// The refusals that are on no line yet, over all clients.
pub open spec fn suppressed_sum(c: Seq<ClientV>) -> nat
    decreases c.len(),
{
    if c.len() == 0 {
        0
    } else {
        suppressed_sum(c.drop_last()) + c.last().suppressed
    }
}

/// Where a client stands; the number of clients where it is not tracked.
pub open spec fn client_index(c: Seq<ClientV>, name: Seq<char>) -> int
    decreases c.len(),
{
    if c.len() == 0 || c[0].client == name {
        0
    } else {
        1 + client_index(c.skip(1), name)
    }
}

/// The time since `then`, none where it is still to come.
pub open spec fn since(now: int, then: int) -> int {
    if now >= then {
        now - then
    } else {
        0
    }
}

/// A client silent for an interval.
pub open spec fn stale(c: ClientV, now: int, interval: int) -> bool {
    since(now, c.last_line) >= interval
}

/// The clients that are not stale.
pub open spec fn fresh(c: Seq<ClientV>, now: int, interval: int) -> Seq<ClientV>
    decreases c.len(),
{
    if c.len() == 0 {
        Seq::empty()
    } else if stale(c.last(), now, interval) {
        fresh(c.drop_last(), now, interval)
    } else {
        fresh(c.drop_last(), now, interval).push(c.last())
    }
}

/// The refusals of the stale clients that are on no line yet.
pub open spec fn stale_sum(c: Seq<ClientV>, now: int, interval: int) -> nat
    decreases c.len(),
{
    if c.len() == 0 {
        0
    } else {
        stale_sum(c.drop_last(), now, interval) + (if stale(c.last(), now, interval) {
            c.last().suppressed
        } else {
            0
        })
    }
}

/// What a log remembers of refusals.
#[verifier::ext_equal]
pub struct RefusalsV {
    /// When the window began.
    pub window_start: int,
    /// Refusal lines written in it.
    pub window_lines: nat,
    /// Refusals on no line that no client holds.
    pub unwritten: nat,
    /// The clients tracked, the longest tracked first.
    pub clients: Seq<ClientV>,
}

impl RefusalsV {
    /// Every refusal that is on no line yet.
    pub open spec fn pending(self) -> nat {
        self.unwritten + suppressed_sum(self.clients)
    }

    /// Stale clients forgotten, what they held now held by none.
    pub open spec fn without_stale(self, now: int, interval: int) -> RefusalsV {
        RefusalsV {
            unwritten: self.unwritten + stale_sum(self.clients, now, interval),
            clients: fresh(self.clients, now, interval),
            ..self
        }
    }

    /// The window rolled over, where it has ended.
    pub open spec fn rolled(self, l: AuditLimits, now: int) -> RefusalsV {
        if since(now, self.window_start) < l.refused_window {
            self
        } else {
            RefusalsV {
                window_start: now,
                window_lines: 0,
                ..self.without_stale(now, l.refused_interval as int)
            }
        }
    }

    /// One refusal of a tracked client: the state after it, and how many refusals a line now to
    /// be written stands for.
    pub open spec fn refuse_tracked(self, l: AuditLimits, i: int, now: int) -> (
        RefusalsV,
        Option<nat>,
    ) {
        let c = self.clients[i];
        if since(now, c.last_line) < l.refused_interval {
            let c2 = ClientV { suppressed: c.suppressed + 1, ..c };
            (RefusalsV { clients: self.clients.update(i, c2), ..self }, None)
        } else {
            let c2 = ClientV { suppressed: 0, last_line: now, ..c };
            let s = RefusalsV { clients: self.clients.update(i, c2), ..self };
            if self.window_lines >= l.refused_lines_per_window {
                (RefusalsV { unwritten: s.unwritten + c.suppressed + 1, ..s }, None)
            } else {
                (RefusalsV { window_lines: s.window_lines + 1, ..s }, Some(c.suppressed + 1))
            }
        }
    }

    /// One refusal of `client`: a client seen for the first time is tracked where there is room,
    /// stale clients making room; where there is none, the refusal is held by no client.
    pub open spec fn refuse(self, l: AuditLimits, client: Seq<char>, now: int) -> (
        RefusalsV,
        Option<nat>,
    ) {
        let known = client_index(self.clients, client) < self.clients.len();
        let s = if !known && self.clients.len() >= MAX_REFUSED_CLIENTS {
            self.without_stale(now, l.refused_interval as int)
        } else {
            self
        };
        if !known && s.clients.len() >= MAX_REFUSED_CLIENTS {
            (RefusalsV { unwritten: s.unwritten + 1, ..s }, None)
        } else {
            let i = client_index(s.clients, client);
            let t = if i < s.clients.len() {
                s
            } else {
                RefusalsV {
                    clients: s.clients.push(
                        ClientV { client, last_line: now - l.refused_interval, suppressed: 0 },
                    ),
                    ..s
                }
            };
            t.refuse_tracked(l, i, now)
        }
    }

    /// All clients forgotten, what they held now held by none.
    pub open spec fn flushed(self) -> RefusalsV {
        RefusalsV { unwritten: self.pending(), clients: Seq::empty(), ..self }
    }
}

/// [`client_index`] is in range and names a client so called.
pub proof fn client_index_in_range(c: Seq<ClientV>, name: Seq<char>)
    ensures
        0 <= client_index(c, name) <= c.len(),
        client_index(c, name) < c.len() ==> c[client_index(c, name)].client == name,
    decreases c.len(),
{
    if c.len() > 0 && c[0].client != name {
        client_index_in_range(c.skip(1), name);
    }
}

/// Forgetting stale clients moves what they held and loses nothing.
pub proof fn stale_refusals_are_kept(c: Seq<ClientV>, now: int, interval: int)
    ensures
        suppressed_sum(fresh(c, now, interval)) + stale_sum(c, now, interval) == suppressed_sum(c),
        fresh(c, now, interval).len() <= c.len(),
        forall|i: int|
            0 <= i < fresh(c, now, interval).len() ==> !stale(
                #[trigger] fresh(c, now, interval)[i],
                now,
                interval,
            ),
    decreases c.len(),
{
    if c.len() > 0 {
        stale_refusals_are_kept(c.drop_last(), now, interval);
        let f = fresh(c.drop_last(), now, interval);
        if !stale(c.last(), now, interval) {
            assert(f.push(c.last()).drop_last() =~= f);
        }
    }
}

/// Changing what one client holds changes the sum by the difference.
pub proof fn sum_after_update(c: Seq<ClientV>, i: int, x: ClientV)
    requires
        0 <= i < c.len(),
    ensures
        suppressed_sum(c.update(i, x)) == suppressed_sum(c) - c[i].suppressed + x.suppressed,
    decreases c.len(),
{
    if i == c.len() - 1 {
        assert(c.update(i, x).drop_last() =~= c.drop_last());
    } else {
        sum_after_update(c.drop_last(), i, x);
        assert(c.update(i, x).drop_last() =~= c.drop_last().update(i, x));
    }
}

/// One client holds no more than all do.
proof fn one_is_at_most_all(c: Seq<ClientV>, i: int)
    requires
        0 <= i < c.len(),
    ensures
        c[i].suppressed <= suppressed_sum(c),
    decreases c.len(),
{
    if i < c.len() - 1 {
        one_is_at_most_all(c.drop_last(), i);
    }
}

/// A refusal is either on the line now to be written or among those pending: none is lost and
/// none is counted twice.
pub proof fn refusals_are_counted_once(s: RefusalsV, l: AuditLimits, client: Seq<char>, now: int)
    ensures
        s.refuse(l, client, now).0.pending() + (match s.refuse(l, client, now).1 {
            Some(n) => n,
            None => 0,
        }) == s.pending() + 1,
        s.rolled(l, now).pending() == s.pending(),
        s.flushed().pending() == s.pending(),
        s.clients.len() <= MAX_REFUSED_CLIENTS ==> s.refuse(l, client, now).0.clients.len()
            <= MAX_REFUSED_CLIENTS,
{
    stale_refusals_are_kept(s.clients, now, l.refused_interval as int);
    client_index_in_range(s.clients, client);
    let known = client_index(s.clients, client) < s.clients.len();
    let t = if !known && s.clients.len() >= MAX_REFUSED_CLIENTS {
        s.without_stale(now, l.refused_interval as int)
    } else {
        s
    };
    client_index_in_range(t.clients, client);
    let i = client_index(t.clients, client);
    let new = ClientV { client, last_line: now - l.refused_interval, suppressed: 0 };
    let u = if i < t.clients.len() {
        t
    } else {
        RefusalsV { clients: t.clients.push(new), ..t }
    };
    assert(t.clients.push(new).drop_last() =~= t.clients);
    let c = u.clients[i];
    sum_after_update(u.clients, i, ClientV { suppressed: c.suppressed + 1, ..c });
    sum_after_update(u.clients, i, ClientV { suppressed: 0, last_line: now, ..c });
}

/// The lines of a window never exceed the budget.
pub proof fn refusal_lines_are_budgeted(s: RefusalsV, l: AuditLimits, client: Seq<char>, now: int)
    requires
        s.window_lines <= l.refused_lines_per_window,
    ensures
        s.refuse(l, client, now).0.window_lines <= l.refused_lines_per_window,
        s.rolled(l, now).window_lines <= l.refused_lines_per_window,
        s.window_lines >= l.refused_lines_per_window ==> s.refuse(l, client, now).1 is None,
{
}

/// The clients before `i` hold no more than all do.
proof fn sum_of_prefix(c: Seq<ClientV>, i: int)
    requires
        0 <= i <= c.len(),
    ensures
        suppressed_sum(c.take(i)) <= suppressed_sum(c),
    decreases c.len(),
{
    if i < c.len() {
        sum_of_prefix(c.drop_last(), i);
        assert(c.drop_last().take(i) =~= c.take(i));
    } else {
        assert(c.take(i) =~= c);
    }
}

/// The time since an earlier `then`.
fn time_since(now: i64, then: i128) -> (r: i128)
    requires
        now >= then,
    ensures
        r == now - then || (r == i128::MAX && now - then > i128::MAX),
{
    let n: i128 = now as i128;
    match n.checked_sub(then) {
        Some(d) => d,
        None => i128::MAX,
    }
}

/// The part of an audit log that decides: refusals, the size of the live file, and the last
/// reported error.
pub struct AuditLog {
    limits: AuditLimits,
    open: bool,
    size: u64,
    window_start: i128,
    window_lines: u32,
    unwritten: u64,
    clients: Vec<ClientRefusals>,
    last_error: Option<i128>,
}

/// The files of a rotated log: 0 is the live one.
#[derive(Clone, Copy, Debug, PartialEq, Eq, Structural)]
pub enum RotateStep {
    /// Remove file `n`; that there is none is no error.
    Remove(usize),
    /// Rename file `n` to file `n + 1`; that there is none is no error.
    Shift(usize),
}

/// How the files move: the oldest is dropped, every other becomes one older, the live one last.
pub open spec fn rotation_of(files: int) -> Seq<RotateStep> {
    if files <= 1 {
        seq![RotateStep::Remove(0)]
    } else {
        Seq::new(
            files as nat,
            |i: int|
                if i == 0 {
                    RotateStep::Remove((files - 1) as usize)
                } else {
                    RotateStep::Shift((files - 1 - i) as usize)
                },
        )
    }
}

/// [`rotation_of`].
pub fn rotation(files: usize) -> (r: Vec<RotateStep>)
    ensures
        r@ == rotation_of(files as int),
{
    let mut out: Vec<RotateStep> = Vec::new();
    if files <= 1 {
        out.push(RotateStep::Remove(0));
        assert(out@ =~= rotation_of(files as int));
        return out;
    }
    out.push(RotateStep::Remove(files - 1));
    let mut i: usize = 1;
    while i < files
        invariant
            1 <= i <= files,
            files > 1,
            out@ == rotation_of(files as int).take(i as int),
        decreases files - i,
    {
        out.push(RotateStep::Shift(files - 1 - i));
        assert(out@ =~= rotation_of(files as int).take(i + 1));
        i += 1;
    }
    assert(out@ =~= rotation_of(files as int));
    out
}

/// Rotation leaves no file numbered past the last and frees the live one: the last step moves or
/// removes file 0, and every step before it makes room for the next.
pub proof fn rotation_makes_room(files: int)
    requires
        2 <= files <= usize::MAX,
    ensures
        rotation_of(files).len() == files,
        rotation_of(files)[0] == RotateStep::Remove((files - 1) as usize),
        rotation_of(files)[files - 1] == RotateStep::Shift(0),
        forall|i: int|
            1 <= i < files ==> #[trigger] rotation_of(files)[i] == RotateStep::Shift(
                (files - 1 - i) as usize,
            ),
{
}

/// The files rotate before a line is written: there is no live one, or the line would take it past
/// the cap.
pub open spec fn rotates(l: AuditLimits, live: Option<u64>, len: nat) -> bool {
    match live {
        None => true,
        Some(size) => size + len > l.max_file_bytes,
    }
}

/// The sizes of the files after a line is written, the live one first: a rotation makes each of
/// them one older, and the oldest goes.
pub open spec fn sizes_after(l: AuditLimits, sizes: Seq<nat>, len: nat) -> Seq<nat> {
    if sizes.len() == 0 || sizes[0] + len > l.max_file_bytes {
        seq![len] + sizes.take(
            if sizes.len() < l.files - 1 {
                sizes.len() as int
            } else {
                l.files - 1
            },
        )
    } else {
        sizes.update(0, sizes[0] + len)
    }
}

/// The sizes of the files after some lines.
pub open spec fn sizes_after_all(l: AuditLimits, sizes: Seq<nat>, lens: Seq<nat>) -> Seq<nat>
    decreases lens.len(),
{
    if lens.len() == 0 {
        sizes
    } else {
        sizes_after(l, sizes_after_all(l, sizes, lens.drop_last()), lens.last())
    }
}

/// What the files hold together.
pub open spec fn total(sizes: Seq<nat>) -> nat
    decreases sizes.len(),
{
    if sizes.len() == 0 {
        0
    } else {
        total(sizes.drop_last()) + sizes.last()
    }
}

proof fn total_is_bounded(sizes: Seq<nat>, max: nat)
    requires
        forall|i: int| 0 <= i < sizes.len() ==> #[trigger] sizes[i] <= max,
    ensures
        total(sizes) <= sizes.len() * max,
    decreases sizes.len(),
{
    if sizes.len() > 0 {
        total_is_bounded(sizes.drop_last(), max);
        assert(sizes.len() * max == (sizes.len() - 1) * max + max) by (nonlinear_arith);
    }
}

proof fn files_stay_bounded(l: AuditLimits, sizes: Seq<nat>, lens: Seq<nat>)
    requires
        l.sane(),
        sizes.len() <= l.files,
        forall|i: int| 0 <= i < sizes.len() ==> #[trigger] sizes[i] <= l.max_file_bytes,
        forall|i: int| 0 <= i < lens.len() ==> #[trigger] lens[i] <= l.max_line_bytes,
    ensures
        sizes_after_all(l, sizes, lens).len() <= l.files,
        forall|i: int|
            0 <= i < sizes_after_all(l, sizes, lens).len() ==> #[trigger] sizes_after_all(
                l,
                sizes,
                lens,
            )[i] <= l.max_file_bytes,
    decreases lens.len(),
{
    if lens.len() > 0 {
        files_stay_bounded(l, sizes, lens.drop_last());
        assert(lens[lens.len() - 1] <= l.max_line_bytes);
    }
}

/// The log cannot fill the disk: however many lines are written, none longer than the line bound,
/// the files hold no more than their number times the cap.
pub proof fn disk_use_is_bounded(l: AuditLimits, sizes: Seq<nat>, lens: Seq<nat>)
    requires
        l.sane(),
        sizes.len() <= l.files,
        forall|i: int| 0 <= i < sizes.len() ==> #[trigger] sizes[i] <= l.max_file_bytes,
        forall|i: int| 0 <= i < lens.len() ==> #[trigger] lens[i] <= l.max_line_bytes,
    ensures
        total(sizes_after_all(l, sizes, lens)) <= l.files * l.max_file_bytes,
{
    let after = sizes_after_all(l, sizes, lens);
    files_stay_bounded(l, sizes, lens);
    total_is_bounded(after, l.max_file_bytes as nat);
    assert(after.len() * l.max_file_bytes <= l.files * l.max_file_bytes) by (nonlinear_arith)
        requires
            after.len() <= l.files,
            0 <= l.max_file_bytes,
    ;
}

impl AuditLog {
    /// What the log remembers of refusals.
    pub closed spec fn refusals(self) -> RefusalsV {
        RefusalsV {
            window_start: self.window_start as int,
            window_lines: self.window_lines as nat,
            unwritten: self.unwritten as nat,
            clients: clients_view(self.clients@),
        }
    }

    /// The limits in force.
    pub closed spec fn bounds(self) -> AuditLimits {
        self.limits
    }

    /// The size of the live file, where it is open.
    pub closed spec fn live_size(self) -> Option<u64> {
        if self.open {
            Some(self.size)
        } else {
            None
        }
    }

    /// When an error was last reported.
    pub closed spec fn reported(self) -> Option<int> {
        match self.last_error {
            Some(t) => Some(t as int),
            None => None,
        }
    }

    /// What every log keeps to: sane limits, no more clients than are tracked at once, and a
    /// count of refusals that fits.
    pub closed spec fn wf(self) -> bool {
        &&& self.limits.sane()
        &&& self.clients@.len() <= MAX_REFUSED_CLIENTS
        &&& self.refusals().pending() <= u64::MAX
        &&& self.refusals().window_lines <= self.limits.refused_lines_per_window
    }

    /// A log whose live file is open and holds `size` bytes.
    pub fn new(limits: AuditLimits, size: u64, now: i64) -> (r: AuditLog)
        ensures
            r.wf(),
            limits.sane() ==> r.bounds() == limits,
            r.refusals() == (RefusalsV {
                window_start: now as int,
                window_lines: 0,
                unwritten: 0,
                clients: Seq::empty(),
            }),
            r.live_size() == Some(size),
            r.reported() is None,
    {
        let r = AuditLog {
            limits: limits.clamped(),
            open: true,
            size,
            window_start: now as i128,
            window_lines: 0,
            unwritten: 0,
            clients: Vec::new(),
            last_error: None,
        };
        assert(clients_view(r.clients@) =~= Seq::empty());
        r
    }

    /// The limits in force.
    pub fn limits(&self) -> (r: AuditLimits)
        ensures
            r == self.bounds(),
    {
        self.limits
    }

    /// [`RefusalsV::pending`].
    pub fn pending(&self) -> (r: u64)
        requires
            self.wf(),
        ensures
            r == self.refusals().pending(),
    {
        let ghost all = clients_view(self.clients@);
        let mut n = self.unwritten;
        let mut i: usize = 0;
        assert(all.take(0) =~= Seq::empty());
        assert(all.take(all.len() as int) =~= all);
        while i < self.clients.len()
            invariant
                all == clients_view(self.clients@),
                i <= self.clients@.len(),
                self.unwritten + suppressed_sum(all) <= u64::MAX,
                n == self.unwritten + suppressed_sum(all.take(i as int)),
            decreases self.clients@.len() - i,
        {
            proof {
                assert(all.take(i + 1).drop_last() =~= all.take(i as int));
                assert(all.take(i + 1).last() == all[i as int]);
                sum_of_prefix(all, i + 1);
            }
            n = n + self.clients[i].suppressed;
            i += 1;
        }
        n
    }

    /// Forgets the clients silent for an interval, keeping their counts.
    fn flush_stale_clients(&mut self, now: i64)
        requires
            old(self).wf(),
        ensures
            final(self).wf(),
            final(self).refusals() == old(self).refusals().without_stale(
                now as int,
                old(self).bounds().refused_interval as int,
            ),
            final(self).bounds() == old(self).bounds(),
            final(self).live_size() == old(self).live_size(),
            final(self).reported() == old(self).reported(),
    {
        let interval: i128 = self.limits.refused_interval as i128;
        let ghost all = clients_view(self.clients@);
        let ghost before = self.refusals();
        proof {
            stale_refusals_are_kept(all, now as int, interval as int);
            assert(all.take(0) =~= Seq::empty());
            assert(all.take(all.len() as int) =~= all);
        }
        let mut kept: Vec<ClientRefusals> = Vec::new();
        let mut moved: u64 = 0;
        let mut i: usize = 0;
        assert(clients_view(kept@) =~= Seq::empty());
        while i < self.clients.len()
            invariant
                all == clients_view(self.clients@),
                i <= self.clients@.len(),
                suppressed_sum(all) <= u64::MAX,
                interval == self.limits.refused_interval,
                clients_view(kept@) == fresh(all.take(i as int), now as int, interval as int),
                moved == stale_sum(all.take(i as int), now as int, interval as int),
                *self == *old(self),
            decreases self.clients@.len() - i,
        {
            let c = &self.clients[i];
            let ghost cv = all[i as int];
            proof {
                assert(all.take(i + 1).drop_last() =~= all.take(i as int));
                assert(all.take(i + 1).last() == cv);
                sum_of_prefix(all, i + 1);
                stale_refusals_are_kept(all.take(i + 1), now as int, interval as int);
            }
            let age: i128 = if now as i128 >= c.last_line {
                time_since(now, c.last_line)
            } else {
                0
            };
            if age >= interval {
                moved = moved + c.suppressed;
            } else {
                let copy = ClientRefusals {
                    client: c.client.clone(),
                    last_line: c.last_line,
                    suppressed: c.suppressed,
                };
                let ghost was = kept@;
                kept.push(copy);
                assert(clients_view(kept@) =~= clients_view(was).push(cv));
            }
            i += 1;
        }
        proof {
            assert(clients_view(kept@) == fresh(all, now as int, interval as int));
            assert(kept@.len() == clients_view(kept@).len());
        }
        self.clients = kept;
        self.unwritten = self.unwritten + moved;
    }

    /// Rolls the window over where it has ended. The result is the count that a summary line now
    /// to be written stands for; [`AuditLog::summary_written`] says how the write went.
    pub fn roll_window(&mut self, now: i64) -> (r: Option<u64>)
        requires
            old(self).wf(),
        ensures
            final(self).wf(),
            final(self).refusals() == old(self).refusals().rolled(old(self).bounds(), now as int),
            final(self).bounds() == old(self).bounds(),
            final(self).live_size() == old(self).live_size(),
            final(self).reported() == old(self).reported(),
            match r {
                Some(n) => n > 0 && n == final(self).refusals().unwritten && since(
                    now as int,
                    old(self).refusals().window_start,
                ) >= old(self).bounds().refused_window,
                None => since(now as int, old(self).refusals().window_start)
                    < old(self).bounds().refused_window || final(self).refusals().unwritten == 0,
            },
    {
        let elapsed: i128 = if now as i128 >= self.window_start {
            time_since(now, self.window_start)
        } else {
            0
        };
        if elapsed < self.limits.refused_window as i128 {
            return None;
        }
        self.flush_stale_clients(now);
        self.window_start = now as i128;
        self.window_lines = 0;
        if self.unwritten == 0 {
            None
        } else {
            Some(self.unwritten)
        }
    }

    /// How the write of a summary line went: what it stood for is no longer pending.
    pub fn summary_written(&mut self, written: bool)
        requires
            old(self).wf(),
        ensures
            final(self).wf(),
            final(self).refusals() == (RefusalsV {
                unwritten: if written {
                    0
                } else {
                    old(self).refusals().unwritten
                },
                ..old(self).refusals()
            }),
            final(self).bounds() == old(self).bounds(),
            final(self).live_size() == old(self).live_size(),
            final(self).reported() == old(self).reported(),
    {
        if written {
            self.unwritten = 0;
        }
    }

    /// Records an unauthenticated refusal from `client`. The result is the number of refusals
    /// that a line now to be written stands for; [`AuditLog::refusal_written`] says how the write
    /// went. The window must have been rolled to `now`.
    pub fn append_refused(&mut self, client: &str, now: i64) -> (r: Option<u64>)
        requires
            old(self).wf(),
            old(self).refusals().pending() < u64::MAX,
        ensures
            final(self).wf(),
            final(self).refusals() == old(self).refusals().refuse(
                old(self).bounds(),
                bounded(client@, MAX_CLIENT_BYTES as nat),
                now as int,
            ).0,
            match r {
                Some(n) => old(self).refusals().refuse(
                    old(self).bounds(),
                    bounded(client@, MAX_CLIENT_BYTES as nat),
                    now as int,
                ).1 == Some(n as nat),
                None => old(self).refusals().refuse(
                    old(self).bounds(),
                    bounded(client@, MAX_CLIENT_BYTES as nat),
                    now as int,
                ).1 is None,
            },
            final(self).bounds() == old(self).bounds(),
            final(self).live_size() == old(self).live_size(),
            final(self).reported() == old(self).reported(),
    {
        let name = bound_str(client, MAX_CLIENT_BYTES);
        let ghost l = self.limits;
        let ghost s0 = self.refusals();
        proof {
            refusals_are_counted_once(s0, l, name@, now as int);
            refusal_lines_are_budgeted(s0, l, name@, now as int);
            client_index_in_range(s0.clients, name@);
            stale_refusals_are_kept(s0.clients, now as int, l.refused_interval as int);
        }
        let mut i: usize = self.find_client(name.as_str());
        let known = i < self.clients.len();
        if !known && self.clients.len() >= MAX_REFUSED_CLIENTS {
            self.flush_stale_clients(now);
            if self.clients.len() >= MAX_REFUSED_CLIENTS {
                self.unwritten = self.unwritten + 1;
                assert(self.refusals() == s0.refuse(l, name@, now as int).0);
                return None;
            }
            i = self.find_client(name.as_str());
        }
        let ghost s1 = self.refusals();
        proof {
            client_index_in_range(s1.clients, name@);
            if i < s1.clients.len() {
                one_is_at_most_all(s1.clients, i as int);
            }
        }
        let interval: i128 = self.limits.refused_interval as i128;
        if i == self.clients.len() {
            let ghost was = self.clients@;
            self.clients.push(
                ClientRefusals { client: name, last_line: now as i128 - interval, suppressed: 0 },
            );
            assert(clients_view(self.clients@) =~= clients_view(was).push(
                ClientV {
                    client: name@,
                    last_line: now - l.refused_interval,
                    suppressed: 0,
                },
            ));
        }
        let ghost s2 = self.refusals();
        assert(s0.refuse(l, name@, now as int) == s2.refuse_tracked(l, i as int, now as int));
        let last = self.clients[i].last_line;
        let suppressed = self.clients[i].suppressed;
        assert(s2.clients[i as int].suppressed == suppressed);
        assert(s2.clients[i as int].last_line == last);
        let age: i128 = if now as i128 >= last {
            time_since(now, last)
        } else {
            0
        };
        let client = self.clients[i].client.clone();
        let ghost was = self.clients@;
        if age < interval {
            let next = ClientRefusals { client, last_line: last, suppressed: suppressed + 1 };
            self.clients[i] = next;
            assert(clients_view(self.clients@) =~= clients_view(was).update(
                i as int,
                ClientV { suppressed: (suppressed + 1) as nat, ..s2.clients[i as int] },
            ));
            return None;
        }
        let next = ClientRefusals { client, last_line: now as i128, suppressed: 0 };
        self.clients[i] = next;
        assert(clients_view(self.clients@) =~= clients_view(was).update(
            i as int,
            ClientV { suppressed: 0, last_line: now as int, ..s2.clients[i as int] },
        ));
        let count: u64 = suppressed + 1;
        if self.window_lines >= self.limits.refused_lines_per_window {
            self.unwritten = self.unwritten + count;
            return None;
        }
        self.window_lines = self.window_lines + 1;
        Some(count)
    }

    /// Where a client stands.
    fn find_client(&self, name: &str) -> (r: usize)
        ensures
            r == client_index(self.refusals().clients, name@),
            r <= self.clients@.len(),
    {
        let ghost c = clients_view(self.clients@);
        let mut i: usize = 0;
        assert(c.skip(0) =~= c);
        while i < self.clients.len()
            invariant
                c == clients_view(self.clients@),
                i <= self.clients@.len(),
                client_index(c, name@) == i + client_index(c.skip(i as int), name@),
            decreases self.clients@.len() - i,
        {
            assert(c.skip(i as int)[0] == c[i as int]);
            if same(self.clients[i].client.as_str(), name) {
                return i;
            }
            assert(c.skip(i as int).skip(1) =~= c.skip(i + 1));
            i += 1;
        }
        i
    }

    /// How the write of a refusal line went: where it failed, what it stood for is pending again.
    pub fn refusal_written(&mut self, count: u64, written: bool)
        requires
            old(self).wf(),
            old(self).refusals().pending() + count <= u64::MAX,
        ensures
            final(self).wf(),
            final(self).refusals() == (RefusalsV {
                unwritten: if written {
                    old(self).refusals().unwritten
                } else {
                    old(self).refusals().unwritten + count as nat
                },
                ..old(self).refusals()
            }),
            final(self).bounds() == old(self).bounds(),
            final(self).live_size() == old(self).live_size(),
            final(self).reported() == old(self).reported(),
    {
        if !written {
            self.unwritten = self.unwritten + count;
        }
    }

    /// Forgets every client; the result is the count that a summary line now to be written stands
    /// for.
    pub fn flush_refused(&mut self) -> (r: Option<u64>)
        requires
            old(self).wf(),
        ensures
            final(self).wf(),
            final(self).refusals() == old(self).refusals().flushed(),
            final(self).bounds() == old(self).bounds(),
            final(self).live_size() == old(self).live_size(),
            final(self).reported() == old(self).reported(),
            match r {
                Some(n) => n > 0 && n == old(self).refusals().pending(),
                None => old(self).refusals().pending() == 0,
            },
    {
        let ghost all = clients_view(self.clients@);
        let mut pending: u64 = 0;
        let mut i: usize = 0;
        assert(all.take(0) =~= Seq::empty());
        while i < self.clients.len()
            invariant
                all == clients_view(self.clients@),
                i <= self.clients@.len(),
                suppressed_sum(all) <= u64::MAX,
                pending == suppressed_sum(all.take(i as int)),
                *self == *old(self),
            decreases self.clients@.len() - i,
        {
            proof {
                assert(all.take(i + 1).drop_last() =~= all.take(i as int));
                sum_of_prefix(all, i + 1);
            }
            pending = pending + self.clients[i].suppressed;
            i += 1;
        }
        assert(all.take(all.len() as int) =~= all);
        self.clients = Vec::new();
        assert(clients_view(self.clients@) =~= Seq::empty());
        self.unwritten = self.unwritten + pending;
        if self.unwritten == 0 {
            None
        } else {
            Some(self.unwritten)
        }
    }

    /// Whether the files must rotate before a line of `len` bytes is written: there is no live
    /// file, or the line would take it past the cap.
    pub fn must_rotate(&self, len: u64) -> (r: bool)
        ensures
            r == rotates(self.bounds(), self.live_size(), len as nat),
    {
        !self.open || len > self.limits.max_file_bytes || self.size > self.limits.max_file_bytes
            - len
    }

    /// Rotation has begun: no file is open until [`AuditLog::rotated`].
    pub fn rotating(&mut self)
        requires
            old(self).wf(),
        ensures
            final(self).wf(),
            final(self).live_size() is None,
            final(self).refusals() == old(self).refusals(),
            final(self).bounds() == old(self).bounds(),
            final(self).reported() == old(self).reported(),
    {
        self.open = false;
    }

    /// Rotation succeeded: the new live file holds `size` bytes.
    pub fn rotated(&mut self, size: u64)
        requires
            old(self).wf(),
        ensures
            final(self).wf(),
            final(self).live_size() == Some(size),
            final(self).refusals() == old(self).refusals(),
            final(self).bounds() == old(self).bounds(),
            final(self).reported() == old(self).reported(),
    {
        self.open = true;
        self.size = size;
    }

    /// A line of `len` bytes went into the live file.
    pub fn line_written(&mut self, len: u64)
        requires
            old(self).wf(),
            old(self).live_size() matches Some(size) && size + len <= u64::MAX,
        ensures
            final(self).wf(),
            final(self).live_size() == Some((old(self).live_size()->0 + len) as u64),
            final(self).refusals() == old(self).refusals(),
            final(self).bounds() == old(self).bounds(),
            final(self).reported() == old(self).reported(),
    {
        self.size = self.size + len;
    }

    /// A write failed: whether to report it, at most once per [`ERROR_REPORT_INTERVAL`].
    pub fn report_error(&mut self, now: i64) -> (r: bool)
        requires
            old(self).wf(),
        ensures
            final(self).wf(),
            r == match old(self).reported() {
                None => true,
                Some(t) => since(now as int, t) >= ERROR_REPORT_INTERVAL,
            },
            final(self).reported() == (if r {
                Some(now as int)
            } else {
                old(self).reported()
            }),
            final(self).refusals() == old(self).refusals(),
            final(self).bounds() == old(self).bounds(),
            final(self).live_size() == old(self).live_size(),
    {
        let due = match self.last_error {
            None => true,
            Some(t) => now as i128 >= t && time_since(now, t) >= ERROR_REPORT_INTERVAL as i128,
        };
        if due {
            self.last_error = Some(now as i128);
        }
        due
    }
}

/// A text that is too long is kept as far as its whole characters fit, with a note of how many bytes
/// are left out; one that is not is kept whole.
pub proof fn long_texts_are_cut(s: Seq<char>, max: nat) -> (k: int)
    ensures
        0 <= k <= s.len(),
        encode_utf8(s).len() <= max ==> bounded(s, max) == s,
        encode_utf8(s).len() > max ==> {
            &&& bounded(s, max) == s.take(k) + "…[truncated "@ + decimal(
                (encode_utf8(s).len() - encode_utf8(s.take(k)).len()) as nat,
            ) + " bytes]"@
            &&& encode_utf8(s.take(k)).len() <= max
            &&& k < s.len() ==> encode_utf8(s.take(k + 1)).len() > max
        },
{
    fitting_is_longest(s, max);
    fitting(s, max) as int
}

/// Every text of a value is cut to the bound, wherever it stands; nothing else of it changes. Of an
/// entry, what was asked for and what it was before and after is cut to the bound of values, and
/// everything else to that of fields.
pub proof fn every_text_is_cut(
    l: AuditLimits,
    s: Seq<char>,
    a: Seq<JsonV>,
    o: Seq<(Seq<char>, JsonV)>,
    name: Seq<char>,
    v: JsonV,
    max: nat,
)
    ensures
        bounded_value(JsonV::Text(s), max) == JsonV::Text(bounded(s, max)),
        bounded_value(JsonV::Array(a.push(v)), max) == JsonV::Array(
            bounded_items(a, max).push(bounded_value(v, max)),
        ),
        bounded_value(JsonV::Object(o.push((name, v))), max) == JsonV::Object(
            with_member(bounded_fields(o, max), bounded(name, max), bounded_value(v, max)),
        ),
        v is Null || v is Bool || v is Number ==> bounded_value(v, max) == v,
        name == "request"@ || name == "old"@ || name == "new"@ ==> bounded_entry(
            l,
            JsonV::Object(o.push((name, v))),
        ) == JsonV::Object(
            with_member(
                bounded_entry(l, JsonV::Object(o))->Object_0,
                bounded(name, l.max_field_bytes as nat),
                bounded_value(v, l.max_value_bytes as nat),
            ),
        ),
        name != "request"@ && name != "old"@ && name != "new"@ ==> bounded_entry(
            l,
            JsonV::Object(o.push((name, v))),
        ) == JsonV::Object(
            with_member(
                bounded_entry(l, JsonV::Object(o))->Object_0,
                bounded(name, l.max_field_bytes as nat),
                bounded_value(v, l.max_field_bytes as nat),
            ),
        ),
{
    assert(a.push(v).drop_last() =~= a);
    assert(a.push(v).last() == v);
    let p = o.push((name, v));
    assert(p.drop_last() =~= o);
    assert(p.last() == (name, v));
}

/// What an entry that is too long is shortened to: the values that it holds give way to a note of how
/// long it was, and the rest of it stays as it is.
pub proof fn values_give_way_to_a_note(
    o: Seq<(Seq<char>, JsonV)>,
    n: u64,
    i: int,
)
    requires
        0 <= i < o.len(),
    ensures
        shortened(JsonV::Object(o), n)->Object_0.len() == o.len(),
        shortened(JsonV::Object(o), n)->Object_0[i].0 == o[i].0,
        o[i].0 == "request"@ || o[i].0 == "old"@ || o[i].0 == "new"@ ==> {
            &&& at(shortened(JsonV::Object(o), n)->Object_0[i].1, "truncated"@) == Some(
                JsonV::Bool(true),
            )
            &&& at(shortened(JsonV::Object(o), n)->Object_0[i].1, "entry_bytes"@) == Some(
                JsonV::Number(Num::U(n)),
            )
        },
        o[i].0 != "request"@ && o[i].0 != "old"@ && o[i].0 != "new"@ ==> shortened(
            JsonV::Object(o),
            n,
        )->Object_0[i] == o[i],
{
    let f = truncated_v(n)->Object_0;
    member_is_the_first(f, "truncated"@, 0);
    assert("truncated"@ != "entry_bytes"@) by {
        reveal_strlit("truncated");
        reveal_strlit("entry_bytes");
        assert("truncated"@.len() != "entry_bytes"@.len());
    }
    member_is_the_first(f, "entry_bytes"@, 1);
}

/// What stands for entries that are not written: that one was cut, with its length, or how many
/// refusals there were, each with the time.
pub proof fn what_is_left_out_is_counted(t_ns: i64, n: u64, o: Seq<(Seq<char>, JsonV)>)
    ensures
        at(stub_v(t_ns, n), "t_s"@) == Some(seconds_v(t_ns)),
        at(stub_v(t_ns, n), "result"@) == Some(JsonV::Text("truncated"@)),
        at(stub_v(t_ns, n), "entry_bytes"@) == Some(JsonV::Number(Num::U(n))),
        at(summary_v(t_ns, n), "t_s"@) == Some(seconds_v(t_ns)),
        at(summary_v(t_ns, n), "result"@) == Some(JsonV::Text("refused_summary"@)),
        at(summary_v(t_ns, n), "count"@) == Some(JsonV::Number(Num::U(n))),
        at(counted(JsonV::Object(o), n), "count"@) == Some(JsonV::Number(Num::U(n))),
{
    let f = stub_v(t_ns, n)->Object_0;
    member_is_the_first(f, "t_s"@, 0);
    assert("t_s"@ != "result"@) by {
        reveal_strlit("t_s");
        reveal_strlit("result");
        assert("t_s"@.len() != "result"@.len());
    }
    member_is_the_first(f, "result"@, 1);
    assert("t_s"@ != "entry_bytes"@) by {
        reveal_strlit("t_s");
        reveal_strlit("entry_bytes");
        assert("t_s"@.len() != "entry_bytes"@.len());
    }
    assert("result"@ != "entry_bytes"@) by {
        reveal_strlit("result");
        reveal_strlit("entry_bytes");
        assert("result"@.len() != "entry_bytes"@.len());
    }
    member_is_the_first(f, "entry_bytes"@, 2);
    let g = summary_v(t_ns, n)->Object_0;
    member_is_the_first(g, "t_s"@, 0);
    member_is_the_first(g, "result"@, 1);
    assert("t_s"@ != "count"@) by {
        reveal_strlit("t_s");
        reveal_strlit("count");
        assert("t_s"@.len() != "count"@.len());
    }
    assert("result"@ != "count"@) by {
        reveal_strlit("result");
        reveal_strlit("count");
        assert("result"@.len() != "count"@.len());
    }
    member_is_the_first(g, "count"@, 2);
    member_set(o, "count"@, JsonV::Number(Num::U(n)));
}

/// A client is known by the first entry with its name.
pub proof fn a_client_is_found_by_its_name(c: Seq<ClientV>, name: Seq<char>, i: int)
    requires
        0 <= i <= c.len(),
        i < c.len() ==> c[i].client == name,
        forall|j: int| 0 <= j < i ==> (#[trigger] c[j]).client != name,
    ensures
        client_index(c, name) == i,
    decreases i,
{
    if i > 0 {
        let t = c.skip(1);
        assert(c[0].client != name);
        assert forall|j: int| 0 <= j < i - 1 implies (#[trigger] t[j]).client != name by {
            assert(t[j] == c[j + 1]);
        }
        a_client_is_found_by_its_name(t, name, i - 1);
    }
}

/// A client has a line once in an interval: its first refusal is written at once, and so is the first
/// after the interval, which says how many there were since; those between are counted. None is
/// written once the window's lines are used up.
pub proof fn a_client_has_a_line_once_an_interval(
    s: RefusalsV,
    l: AuditLimits,
    client: Seq<char>,
    now: int,
    i: int,
)
    requires
        0 <= i <= s.clients.len(),
        i < s.clients.len() ==> s.clients[i].client == client,
        forall|j: int| 0 <= j < i ==> (#[trigger] s.clients[j]).client != client,
    ensures
        i == s.clients.len() && i < 1024 && s.window_lines < l.refused_lines_per_window ==> {
            &&& s.refuse(l, client, now).1 == Some(1nat)
            &&& s.refuse(l, client, now).0.clients.len() == i + 1
            &&& s.refuse(l, client, now).0.clients[i].last_line == now
            &&& s.refuse(l, client, now).0.window_lines == s.window_lines + 1
        },
        i < s.clients.len() && now < s.clients[i].last_line + l.refused_interval && l.refused_interval
            > 0 ==> {
            &&& s.refuse(l, client, now).1 is None
            &&& s.refuse(l, client, now).0.clients[i].suppressed == s.clients[i].suppressed + 1
            &&& s.refuse(l, client, now).0.clients[i].last_line == s.clients[i].last_line
            &&& s.refuse(l, client, now).0.window_lines == s.window_lines
        },
        i < s.clients.len() && now >= s.clients[i].last_line + l.refused_interval && s.window_lines
            < l.refused_lines_per_window ==> {
            &&& s.refuse(l, client, now).1 == Some(s.clients[i].suppressed + 1)
            &&& s.refuse(l, client, now).0.clients[i].suppressed == 0
            &&& s.refuse(l, client, now).0.clients[i].last_line == now
            &&& s.refuse(l, client, now).0.window_lines == s.window_lines + 1
        },
{
    a_client_is_found_by_its_name(s.clients, client, i);
    if i == s.clients.len() && i < 1024 {
        let c = ClientV { client, last_line: now - l.refused_interval, suppressed: 0 };
        assert(s.clients.push(c)[i] == c);
    }
}

/// A window ends once it has lasted as long as windows do; a new one has all of its lines again.
pub proof fn a_window_ends_in_its_time(s: RefusalsV, l: AuditLimits, now: int)
    ensures
        now < s.window_start + l.refused_window && l.refused_window > 0 ==> s.rolled(l, now) == s,
        now >= s.window_start + l.refused_window ==> s.rolled(l, now).window_start == now && s.rolled(
            l,
            now,
        ).window_lines == 0,
{
}

/// A file is turned over where there is none open, or the line would make it longer than a file may
/// be. The new file holds the line alone, and no more files are kept than there may be; else the line
/// is added to the newest.
pub proof fn files_turn_over_when_they_are_full(
    l: AuditLimits,
    sizes: Seq<nat>,
    len: nat,
    size: u64,
)
    requires
        l.files >= 1,
        sizes.len() <= l.files,
    ensures
        rotates(l, None, len),
        rotates(l, Some(size), len) <==> size + len > l.max_file_bytes,
        sizes.len() > 0 && sizes[0] + len <= l.max_file_bytes ==> {
            &&& sizes_after(l, sizes, len).len() == sizes.len()
            &&& sizes_after(l, sizes, len)[0] == sizes[0] + len
            &&& forall|i: int|
                1 <= i < sizes.len() ==> #[trigger] sizes_after(l, sizes, len)[i] == sizes[i]
        },
        sizes.len() == 0 || sizes[0] + len > l.max_file_bytes ==> {
            &&& sizes_after(l, sizes, len)[0] == len
            &&& sizes_after(l, sizes, len).len() == (if sizes.len() < l.files {
                sizes.len() + 1
            } else {
                l.files as nat
            })
            &&& forall|i: int|
                1 <= i < sizes_after(l, sizes, len).len() ==> #[trigger] sizes_after(
                    l,
                    sizes,
                    len,
                )[i] == sizes[i - 1]
        },
{
}

} // verus!
