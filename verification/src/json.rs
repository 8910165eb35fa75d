//! JSON values: what a request body holds and what an answer is built of.

use vstd::prelude::*;

use crate::double::{finite_real, integers_are_doubles, keep_finite, whole_bits, Real, EXACT, SIGN};
use crate::text::{same, texts};

verus! {

/// A JSON number.
#[derive(Clone, Copy, Debug, PartialEq, Eq, Structural)]
pub enum Num {
    /// An unsigned integer.
    U(u64),
    /// A signed integer; negative when it came from a text.
    I(i64),
    /// A double.
    R(Real),
    /// A time in nanoseconds, written in seconds: the double nearest the count, divided by `1e9`.
    Seconds(i128),
    /// A time in nanoseconds, written in seconds: the double nearest the count, times `1e-9`.
    SecondsByScale(i64),
    /// A fraction: the double nearest the first count, divided by the one nearest the second.
    Ratio(u64, u64),
}

/// A JSON value. An object is a finite map: its member names are distinct, and their order has
/// no meaning but that of being walked.
#[derive(Debug, PartialEq, Eq)]
pub enum Json {
    /// `null`.
    Null,
    /// `true` or `false`.
    Bool(bool),
    /// A number.
    Number(Num),
    /// A string.
    Text(String),
    /// An array.
    Array(Vec<Json>),
    /// An object, its members in the order in which they are walked.
    Object(Vec<(String, Json)>),
}

/// What a [`Json`] holds.
pub enum JsonV {
    /// `null`.
    Null,
    /// `true` or `false`.
    Bool(bool),
    /// A number.
    Number(Num),
    /// The characters of a string.
    Text(Seq<char>),
    /// The items of an array.
    Array(Seq<JsonV>),
    /// The members of an object.
    Object(Seq<(Seq<char>, JsonV)>),
}

/// The values of some items.
pub open spec fn items_view(v: Seq<Json>) -> Seq<JsonV>
    decreases v,
{
    if v.len() == 0 {
        Seq::empty()
    } else {
        items_view(v.drop_last()).push(v.last().view())
    }
}

/// The names and values of some members.
pub open spec fn fields_view(v: Seq<(String, Json)>) -> Seq<(Seq<char>, JsonV)>
    decreases v,
{
    if v.len() == 0 {
        Seq::empty()
    } else {
        fields_view(v.drop_last()).push((v.last().0@, v.last().1.view()))
    }
}

impl Json {
    /// What the value holds.
    pub open spec fn view(&self) -> JsonV
        decreases self,
    {
        match self {
            Json::Null => JsonV::Null,
            Json::Bool(b) => JsonV::Bool(*b),
            Json::Number(n) => JsonV::Number(*n),
            Json::Text(s) => JsonV::Text(s@),
            Json::Array(a) => JsonV::Array(items_view(a@)),
            Json::Object(o) => JsonV::Object(fields_view(o@)),
        }
    }
}

/// [`items_view`] takes each item by itself.
pub proof fn items_view_each(v: Seq<Json>)
    ensures
        items_view(v).len() == v.len(),
        forall|i: int| 0 <= i < v.len() ==> items_view(v)[i] == (#[trigger] v[i]).view(),
    decreases v.len(),
{
    if v.len() > 0 {
        items_view_each(v.drop_last());
        assert forall|i: int| 0 <= i < v.len() implies items_view(v)[i] == (
        #[trigger] v[i]).view() by {
            if i < v.len() - 1 {
                assert(v.drop_last()[i] == v[i]);
            }
        }
    }
}

/// [`fields_view`] takes each member by itself.
pub proof fn fields_view_each(v: Seq<(String, Json)>)
    ensures
        fields_view(v).len() == v.len(),
        forall|i: int|
            0 <= i < v.len() ==> fields_view(v)[i] == ((#[trigger] v[i]).0@, v[i].1.view()),
    decreases v.len(),
{
    if v.len() > 0 {
        fields_view_each(v.drop_last());
        assert forall|i: int| 0 <= i < v.len() implies fields_view(v)[i] == (
            (#[trigger] v[i]).0@,
            v[i].1.view(),
        ) by {
            if i < v.len() - 1 {
                assert(v.drop_last()[i] == v[i]);
            }
        }
    }
}

/// One more item.
pub proof fn items_view_push(v: Seq<Json>, x: Json)
    ensures
        items_view(v.push(x)) == items_view(v).push(x.view()),
{
    assert(v.push(x).drop_last() =~= v);
}

/// One more member.
pub proof fn fields_view_push(v: Seq<(String, Json)>, x: (String, Json))
    ensures
        fields_view(v.push(x)) == fields_view(v).push((x.0@, x.1.view())),
{
    assert(v.push(x).drop_last() =~= v);
}

// ---------------------------------------------------------------------------------------------
// Reading
// ---------------------------------------------------------------------------------------------

/// Where the member `name` stands; the number of members where there is none.
pub open spec fn member_index(fields: Seq<(Seq<char>, JsonV)>, name: Seq<char>) -> int
    decreases fields.len(),
{
    if fields.len() == 0 || fields[0].0 == name {
        0
    } else {
        1 + member_index(fields.skip(1), name)
    }
}

/// The member `name` of an object.
pub open spec fn member(fields: Seq<(Seq<char>, JsonV)>, name: Seq<char>) -> Option<JsonV> {
    let i = member_index(fields, name);
    if 0 <= i < fields.len() {
        Some(fields[i].1)
    } else {
        None
    }
}

/// The member `name` of a value; `None` where it is no object or has none.
pub open spec fn at(v: JsonV, name: Seq<char>) -> Option<JsonV> {
    match v {
        JsonV::Object(f) => member(f, name),
        _ => None,
    }
}

/// [`member_index`] is in range and names the first member so called.
pub proof fn member_index_is_first(fields: Seq<(Seq<char>, JsonV)>, name: Seq<char>)
    ensures
        0 <= member_index(fields, name) <= fields.len(),
        member_index(fields, name) < fields.len() ==> fields[member_index(fields, name)].0 == name,
        forall|i: int| 0 <= i < member_index(fields, name) ==> (#[trigger] fields[i]).0 != name,
    decreases fields.len(),
{
    if fields.len() > 0 && fields[0].0 != name {
        let t = fields.skip(1);
        member_index_is_first(t, name);
        assert forall|i: int| 0 <= i < member_index(fields, name) implies (
        #[trigger] fields[i]).0 != name by {
            if i > 0 {
                assert(t[i - 1] == fields[i]);
            }
        }
    }
}

/// Where the member `name` stands.
fn index_of(o: &Vec<(String, Json)>, name: &str) -> (r: usize)
    ensures
        r == member_index(fields_view(o@), name@),
        r <= o@.len(),
{
    let ghost f = fields_view(o@);
    proof {
        fields_view_each(o@);
        assert(f.skip(0) =~= f);
    }
    let mut i: usize = 0;
    while i < o.len()
        invariant
            f == fields_view(o@),
            f.len() == o@.len(),
            forall|k: int| 0 <= k < o@.len() ==> f[k] == ((#[trigger] o@[k]).0@, o@[k].1.view()),
            i <= o@.len(),
            member_index(f, name@) == i + member_index(f.skip(i as int), name@),
        decreases o@.len() - i,
    {
        let rest = Ghost(f.skip(i as int));
        assert(rest@[0] == f[i as int]);
        if same(o[i].0.as_str(), name) {
            return i;
        }
        assert(rest@.skip(1) =~= f.skip(i + 1));
        i += 1;
    }
    i
}

/// The member `name` of an object's members.
pub fn find<'a>(o: &'a Vec<(String, Json)>, name: &str) -> (r: Option<&'a Json>)
    ensures
        match r {
            Some(v) => member(fields_view(o@), name@) == Some(v.view()),
            None => member(fields_view(o@), name@) is None,
        },
{
    proof {
        fields_view_each(o@);
    }
    let i = index_of(o, name);
    if i < o.len() {
        Some(&o[i].1)
    } else {
        None
    }
}

impl Json {
    /// The member `name`, where this is an object that has it.
    pub fn get(&self, name: &str) -> (r: Option<&Json>)
        ensures
            match r {
                Some(v) => at(self.view(), name@) == Some(v.view()),
                None => at(self.view(), name@) is None,
            },
    {
        match self {
            Json::Object(o) => find(o, name),
            _ => None,
        }
    }

    /// A copy.
    pub fn copy(&self) -> (r: Json)
        ensures
            r.view() == self.view(),
        decreases self,
    {
        match self {
            Json::Null => Json::Null,
            Json::Bool(b) => Json::Bool(*b),
            Json::Number(n) => Json::Number(*n),
            Json::Text(s) => Json::Text(s.clone()),
            Json::Array(a) => Json::Array(copy_items(a)),
            Json::Object(o) => Json::Object(copy_fields(o)),
        }
    }
}

/// A copy of some items.
pub fn copy_items(a: &Vec<Json>) -> (r: Vec<Json>)
    ensures
        items_view(r@) == items_view(a@),
    decreases a,
{
    let mut out: Vec<Json> = Vec::new();
    let mut i: usize = 0;
    assert(a@.take(0) =~= Seq::empty());
    while i < a.len()
        invariant
            i <= a@.len(),
            items_view(out@) == items_view(a@.take(i as int)),
        decreases a@.len() - i,
    {
        let x = a[i].copy();
        proof {
            items_view_push(out@, x);
            assert(a@.take(i + 1) =~= a@.take(i as int).push(a@[i as int]));
            items_view_push(a@.take(i as int), a@[i as int]);
        }
        out.push(x);
        i += 1;
    }
    assert(a@.take(a@.len() as int) =~= a@);
    out
}

/// A copy of some members.
pub fn copy_fields(o: &Vec<(String, Json)>) -> (r: Vec<(String, Json)>)
    ensures
        fields_view(r@) == fields_view(o@),
    decreases o,
{
    let mut out: Vec<(String, Json)> = Vec::new();
    let mut i: usize = 0;
    assert(o@.take(0) =~= Seq::empty());
    while i < o.len()
        invariant
            i <= o@.len(),
            fields_view(out@) == fields_view(o@.take(i as int)),
        decreases o@.len() - i,
    {
        let k = o[i].0.clone();
        let x = o[i].1.copy();
        proof {
            fields_view_push(out@, (k, x));
            assert(o@.take(i + 1) =~= o@.take(i as int).push(o@[i as int]));
            fields_view_push(o@.take(i as int), o@[i as int]);
        }
        out.push((k, x));
        i += 1;
    }
    assert(o@.take(o@.len() as int) =~= o@);
    out
}

// ---------------------------------------------------------------------------------------------
// Building
// ---------------------------------------------------------------------------------------------

/// A string value.
pub open spec fn text_v(s: Seq<char>) -> JsonV {
    JsonV::Text(s)
}

/// An unsigned integer value.
pub open spec fn uint_v(n: int) -> JsonV {
    JsonV::Number(Num::U(n as u64))
}

/// A double, or `null` where it is not finite.
pub open spec fn real_v(r: Real) -> JsonV {
    if r.finite() {
        JsonV::Number(Num::R(r))
    } else {
        JsonV::Null
    }
}

/// An optional double; `null` where it is absent or not finite.
pub open spec fn opt_real_v(r: Option<Real>) -> JsonV {
    match r {
        Some(x) => real_v(x),
        None => JsonV::Null,
    }
}

/// An optional string.
pub open spec fn opt_text_v(s: Option<Seq<char>>) -> JsonV {
    match s {
        Some(x) => JsonV::Text(x),
        None => JsonV::Null,
    }
}

/// An optional unsigned integer.
pub open spec fn opt_uint_v(n: Option<u64>) -> JsonV {
    match n {
        Some(x) => JsonV::Number(Num::U(x)),
        None => JsonV::Null,
    }
}

/// A time in seconds.
pub open spec fn seconds_v(ns: i64) -> JsonV {
    JsonV::Number(Num::Seconds(ns as i128))
}

/// A time in seconds, by scaling.
pub open spec fn scaled_v(ns: i64) -> JsonV {
    JsonV::Number(Num::SecondsByScale(ns))
}

/// An optional time in seconds, by scaling.
pub open spec fn opt_scaled_v(ns: Option<i64>) -> JsonV {
    match ns {
        Some(t) => scaled_v(t),
        None => JsonV::Null,
    }
}

/// The strings of an array.
pub open spec fn text_items(v: Seq<Seq<char>>) -> Seq<JsonV> {
    v.map_values(|s: Seq<char>| JsonV::Text(s))
}

/// The members of an object that has none.
pub open spec fn no_fields() -> Seq<(Seq<char>, JsonV)> {
    Seq::empty()
}

/// `{"error": message, "code": code}`.
pub open spec fn error_v(code: Seq<char>, message: Seq<char>) -> JsonV {
    JsonV::Object(no_fields().push(("error"@, text_v(message))).push(("code"@, text_v(code))))
}

impl Json {
    /// A string value.
    pub fn text(s: &str) -> (r: Json)
        ensures
            r.view() == JsonV::Text(s@),
    {
        Json::Text(s.to_owned())
    }

    /// An unsigned integer value.
    pub fn uint(n: u64) -> (r: Json)
        ensures
            r.view() == JsonV::Number(Num::U(n)),
    {
        Json::Number(Num::U(n))
    }

    /// [`real_v`].
    pub fn double(x: Real) -> (r: Json)
        ensures
            r.view() == real_v(x),
    {
        if x.is_finite() {
            Json::Number(Num::R(x))
        } else {
            Json::Null
        }
    }

    /// [`opt_real_v`].
    pub fn opt_double(x: Option<Real>) -> (r: Json)
        ensures
            r.view() == opt_real_v(x),
    {
        match x {
            Some(x) => Json::double(x),
            None => Json::Null,
        }
    }

    /// [`opt_text_v`].
    pub fn opt_text(s: &Option<String>) -> (r: Json)
        ensures
            r.view() == opt_text_v(crate::text::opt_string(*s)),
    {
        match s {
            Some(s) => Json::Text(s.clone()),
            None => Json::Null,
        }
    }

    /// [`opt_uint_v`].
    pub fn opt_uint(n: Option<u64>) -> (r: Json)
        ensures
            r.view() == opt_uint_v(n),
    {
        match n {
            Some(n) => Json::uint(n),
            None => Json::Null,
        }
    }

    /// [`seconds_v`].
    pub fn seconds(ns: i64) -> (r: Json)
        ensures
            r.view() == seconds_v(ns),
    {
        Json::Number(Num::Seconds(ns as i128))
    }

    /// [`scaled_v`].
    pub fn scaled(ns: i64) -> (r: Json)
        ensures
            r.view() == scaled_v(ns),
    {
        Json::Number(Num::SecondsByScale(ns))
    }

    /// [`opt_scaled_v`].
    pub fn opt_scaled(ns: Option<i64>) -> (r: Json)
        ensures
            r.view() == opt_scaled_v(ns),
    {
        match ns {
            Some(t) => Json::scaled(t),
            None => Json::Null,
        }
    }

    /// An array of strings.
    pub fn texts(v: &[&str]) -> (r: Json)
        ensures
            r.view() == JsonV::Array(text_items(texts(v@))),
    {
        let mut out = Items::new();
        let mut i: usize = 0;
        assert(text_items(texts(v@)).take(0) =~= Seq::empty());
        while i < v.len()
            invariant
                i <= v@.len(),
                out@ == text_items(texts(v@)).take(i as int),
            decreases v@.len() - i,
        {
            assert(text_items(texts(v@)).take(i + 1) =~= text_items(texts(v@)).take(i as int).push(
                JsonV::Text(v@[i as int]@),
            ));
            out.push(Json::text(v[i]));
            i += 1;
        }
        assert(text_items(texts(v@)).take(v@.len() as int) =~= text_items(texts(v@)));
        out.array()
    }

    /// [`error_v`].
    pub fn error(code: &str, message: &str) -> (r: Json)
        ensures
            r.view() == error_v(code@, message@),
    {
        let mut f = Fields::new();
        f.put("error", Json::text(message));
        f.put("code", Json::text(code));
        f.object()
    }
}

/// The items of an array being built.
pub struct Items {
    /// The items.
    pub list: Vec<Json>,
}

impl Items {
    /// The values of the items.
    pub open spec fn view(&self) -> Seq<JsonV> {
        items_view(self.list@)
    }

    /// No items.
    pub fn new() -> (r: Items)
        ensures
            r@ == Seq::<JsonV>::empty(),
    {
        Items { list: Vec::new() }
    }

    /// One more item.
    pub fn push(&mut self, x: Json)
        ensures
            final(self)@ == old(self)@.push(x.view()),
    {
        proof {
            items_view_push(self.list@, x);
        }
        self.list.push(x);
    }

    /// How many items there are.
    pub fn len(&self) -> (r: usize)
        ensures
            r == self@.len(),
    {
        proof {
            items_view_each(self.list@);
        }
        self.list.len()
    }

    /// The array of the items.
    pub fn array(self) -> (r: Json)
        ensures
            r.view() == JsonV::Array(self@),
    {
        Json::Array(self.list)
    }
}

/// The members of an object being built.
pub struct Fields {
    /// The members.
    pub list: Vec<(String, Json)>,
}

/// `fields` with the member `name` set to `v`: in the place of the one so called, else at the end.
pub open spec fn with_member(
    fields: Seq<(Seq<char>, JsonV)>,
    name: Seq<char>,
    v: JsonV,
) -> Seq<(Seq<char>, JsonV)> {
    let i = member_index(fields, name);
    if 0 <= i < fields.len() {
        fields.update(i, (name, v))
    } else {
        fields.push((name, v))
    }
}

/// The members not called `name`, in order.
pub open spec fn without_member(fields: Seq<(Seq<char>, JsonV)>, name: Seq<char>) -> Seq<
    (Seq<char>, JsonV),
>
    decreases fields.len(),
{
    if fields.len() == 0 {
        Seq::empty()
    } else {
        let before = without_member(fields.drop_last(), name);
        if fields.last().0 == name {
            before
        } else {
            before.push(fields.last())
        }
    }
}

/// [`without_member`].
pub fn remove_member(fields: Vec<(String, Json)>, name: &str) -> (r: Vec<(String, Json)>)
    ensures
        fields_view(r@) == without_member(fields_view(fields@), name@),
{
    let ghost all = fields_view(fields@);
    let mut rest = fields;
    let mut out: Vec<(String, Json)> = Vec::new();
    let n = rest.len();
    let mut i: usize = 0;
    proof {
        fields_view_each(fields@);
        assert(all.take(0) =~= Seq::empty());
        assert(fields_view(out@) =~= Seq::empty());
    }
    while i < n
        invariant
            i <= n,
            n == fields@.len(),
            all == fields_view(fields@),
            all.len() == n,
            rest@ == fields@.skip(i as int),
            forall|k: int|
                0 <= k < fields@.len() ==> all[k] == ((#[trigger] fields@[k]).0@,
                fields@[k].1.view()),
            fields_view(out@) == without_member(all.take(i as int), name@),
        decreases n - i,
    {
        let p = rest.remove(0);
        proof {
            assert(p == fields@[i as int]);
            assert(all.take(i + 1).drop_last() =~= all.take(i as int));
            assert(all.take(i + 1).last() == (p.0@, p.1.view()));
            fields_view_push(out@, p);
            assert(rest@ =~= fields@.skip(i + 1));
        }
        if !same(p.0.as_str(), name) {
            out.push(p);
        }
        i += 1;
    }
    assert(all.take(n as int) =~= all);
    out
}

/// A member left out is not found, and the others are as they were.
pub proof fn left_out_members_are_gone(
    fields: Seq<(Seq<char>, JsonV)>,
    name: Seq<char>,
    other: Seq<char>,
)
    ensures
        member(without_member(fields, name), name) is None,
        other != name ==> member(without_member(fields, name), other) == member(fields, other),
    decreases fields.len(),
{
    if fields.len() > 0 {
        let t = fields.drop_last();
        left_out_members_are_gone(t, name, other);
        let w = without_member(t, name);
        member_of_push(w, fields.last(), name);
        member_of_push(w, fields.last(), other);
        member_of_push(t, fields.last(), other);
        assert(t.push(fields.last()) =~= fields);
    }
}

proof fn member_of_push(fields: Seq<(Seq<char>, JsonV)>, p: (Seq<char>, JsonV), name: Seq<char>)
    ensures
        member(fields.push(p), name) == (match member(fields, name) {
            Some(v) => Some(v),
            None => if p.0 == name {
                Some(p.1)
            } else {
                None
            },
        }),
{
    let more = fields.push(p);
    member_index_is_first(fields, name);
    member_index_is_first(more, name);
    let (i, j) = (member_index(fields, name), member_index(more, name));
    assert(more[fields.len() as int] == p);
    if i < fields.len() {
        assert(more[i] == fields[i]);
        if j < i {
            assert(more[j] == fields[j]);
        }
    } else if j < fields.len() {
        assert(more[j] == fields[j]);
    }
}

/// A member set is the member found.
pub proof fn member_set(fields: Seq<(Seq<char>, JsonV)>, name: Seq<char>, v: JsonV)
    ensures
        member(with_member(fields, name, v), name) == Some(v),
{
    member_index_is_first(fields, name);
    let w = with_member(fields, name, v);
    member_index_is_first(w, name);
    let i = member_index(fields, name);
    assert(w[i] == (name, v));
    let j = member_index(w, name);
    if j < i {
        assert(w[j] == fields[j]);
    }
    if j > i {
        assert(w[i].0 != name);
    }
}

/// The first member so called is the member.
pub proof fn member_is_the_first(fields: Seq<(Seq<char>, JsonV)>, name: Seq<char>, i: int)
    requires
        0 <= i <= fields.len(),
        i < fields.len() ==> fields[i].0 == name,
        forall|k: int| 0 <= k < i ==> (#[trigger] fields[k]).0 != name,
    ensures
        member_index(fields, name) == i,
{
    member_index_is_first(fields, name);
    let j = member_index(fields, name);
    if j < i {
        assert(fields[j].0 == name);
    } else if j > i {
        assert(fields[i].0 != name);
    }
}

/// Setting a member leaves every other as it was.
pub proof fn other_members_stay(
    fields: Seq<(Seq<char>, JsonV)>,
    name: Seq<char>,
    v: JsonV,
    other: Seq<char>,
)
    requires
        other != name,
    ensures
        member(with_member(fields, name, v), other) == member(fields, other),
{
    member_index_is_first(fields, name);
    member_index_is_first(fields, other);
    let w = with_member(fields, name, v);
    let i = member_index(fields, other);
    if i < fields.len() {
        assert forall|k: int| 0 <= k < i implies (#[trigger] w[k]).0 != other by {
            if k != member_index(fields, name) {
                assert(w[k] == fields[k]);
            }
        }
        assert(w[i] == fields[i]);
        member_is_the_first(w, other, i);
    } else {
        assert forall|k: int| 0 <= k < w.len() implies (#[trigger] w[k]).0 != other by {
            if k < fields.len() && k != member_index(fields, name) {
                assert(w[k] == fields[k]);
            }
        }
        member_is_the_first(w, other, w.len() as int);
    }
}

impl Fields {
    /// The names and values of the members.
    pub open spec fn view(&self) -> Seq<(Seq<char>, JsonV)> {
        fields_view(self.list@)
    }

    /// No members.
    pub fn new() -> (r: Fields)
        ensures
            r@ == no_fields(),
    {
        Fields { list: Vec::new() }
    }

    /// One more member, under a name that is not there yet.
    pub fn put(&mut self, name: &str, v: Json)
        ensures
            final(self)@ == old(self)@.push((name@, v.view())),
    {
        let k = name.to_owned();
        proof {
            fields_view_push(self.list@, (k, v));
        }
        self.list.push((k, v));
    }

    /// [`with_member`].
    pub fn set(&mut self, name: String, v: Json)
        ensures
            final(self)@ == with_member(old(self)@, name@, v.view()),
    {
        let i = index_of(&self.list, name.as_str());
        let ghost before = self.list@;
        proof {
            fields_view_each(before);
            fields_view_push(before, (name, v));
        }
        if i < self.list.len() {
            let ghost pair = (name, v);
            self.list[i] = (name, v);
            proof {
                let after = self.list@;
                fields_view_each(after);
                assert(after == before.update(i as int, pair));
                let want = fields_view(before).update(i as int, (pair.0@, pair.1.view()));
                assert forall|k: int| 0 <= k < after.len() implies fields_view(after)[k]
                    == want[k] by {
                    assert(fields_view(after)[k] == (after[k].0@, after[k].1.view()));
                    if k != i {
                        assert(after[k] == before[k]);
                        assert(fields_view(before)[k] == (before[k].0@, before[k].1.view()));
                    }
                }
                assert(fields_view(after) =~= want);
            }
        } else {
            self.list.push((name, v));
        }
    }

    /// The object of the members.
    pub fn object(self) -> (r: Json)
        ensures
            r.view() == JsonV::Object(self@),
    {
        Json::Object(self.list)
    }
}

/// What is written as a JSON value.
pub trait ToJson: Sized {
    /// The value.
    spec fn json_v(self) -> JsonV;

    /// The value.
    fn to_json(&self) -> (r: Json)
        ensures
            r.view() == self.json_v(),
    ;
}

impl ToJson for String {
    open spec fn json_v(self) -> JsonV {
        JsonV::Text(self@)
    }

    fn to_json(&self) -> (r: Json) {
        Json::Text(self.clone())
    }
}

impl ToJson for Real {
    open spec fn json_v(self) -> JsonV {
        real_v(self)
    }

    fn to_json(&self) -> (r: Json) {
        Json::double(*self)
    }
}

/// The values of some things.
pub open spec fn list_v<T: ToJson>(v: Seq<T>) -> Seq<JsonV> {
    v.map_values(|x: T| x.json_v())
}

/// The array of some things.
pub fn list<T: ToJson>(v: &Vec<T>) -> (r: Json)
    ensures
        r.view() == JsonV::Array(list_v(v@)),
{
    let mut out = Items::new();
    let mut i: usize = 0;
    assert(list_v(v@).take(0) =~= Seq::empty());
    while i < v.len()
        invariant
            i <= v@.len(),
            out@ == list_v(v@).take(i as int),
        decreases v@.len() - i,
    {
        assert(list_v(v@).take(i + 1) =~= list_v(v@).take(i as int).push(v@[i as int].json_v()));
        out.push(v[i].to_json());
        i += 1;
    }
    assert(list_v(v@).take(v@.len() as int) =~= list_v(v@));
    out.array()
}

/// The value of something, or `null`.
pub open spec fn opt_v<T: ToJson>(x: Option<T>) -> JsonV {
    match x {
        Some(x) => x.json_v(),
        None => JsonV::Null,
    }
}

/// [`opt_v`].
pub fn optional<T: ToJson>(x: &Option<T>) -> (r: Json)
    ensures
        r.view() == opt_v(*x),
{
    match x {
        Some(x) => x.to_json(),
        None => Json::Null,
    }
}

// ---------------------------------------------------------------------------------------------
// Parsing
// ---------------------------------------------------------------------------------------------

/// A value of `serde_json`: opaque here but for what [`shape`] hands out of it.
#[verifier::external_type_specification]
#[verifier::external_body]
pub struct ExValue(serde_json::Value);

/// What a `serde_json` value holds.
pub uninterp spec fn held(v: serde_json::Value) -> JsonV;

/// The value that a JSON text writes; where it is not JSON, what is wrong with it in words.
pub uninterp spec fn parsed(bytes: Seq<u8>) -> Result<JsonV, Seq<char>>;

/// The line that `serde_json::Error::line` gives of the error that [`parsed`] is.
pub uninterp spec fn error_line(bytes: Seq<u8>) -> usize;

/// The column that `serde_json::Error::column` gives of the error that [`parsed`] is.
pub uninterp spec fn error_column(bytes: Seq<u8>) -> usize;

/// `serde_json::from_slice` at [`serde_json::Value`], the error by its words and its place: a
/// function of the bytes alone. The grammar of JSON is not restated.
#[verifier::external_body]
fn parse_value(bytes: &[u8]) -> (r: Result<serde_json::Value, (String, usize, usize)>)
    ensures
        match r {
            Ok(v) => parsed(bytes@) == Ok::<JsonV, Seq<char>>(held(v)),
            Err(e) => parsed(bytes@) == Err::<JsonV, Seq<char>>(e.0@) && e.1 == error_line(bytes@)
                && e.2 == error_column(bytes@),
        },
{
    serde_json::from_slice(bytes).map_err(|e: serde_json::Error| (e.to_string(), e.line(), e.column()))
}

/// The double nearest an unsigned integer, by its bits.
pub uninterp spec fn uint_bits(n: u64) -> u64;

/// `serde_json::Number::as_f64` of an unsigned integer, by the bits of the double: the integer itself
/// where it is small enough to be a double, else the nearest one.
#[verifier::external_body]
fn uint_to_bits(n: u64) -> (r: u64)
    ensures
        r == (if n < EXACT {
            whole_bits(n as nat) as u64
        } else {
            uint_bits(n)
        }),
{
    serde_json::Number::from(n).as_f64().map_or(0, |x| x.to_bits())
}

/// The double nearest a signed integer, by its bits.
pub uninterp spec fn int_bits(n: i64) -> u64;

/// `serde_json::Number::as_f64` of a signed integer, by the bits of the double: the integer itself
/// where it is small enough to be a double, else the nearest one.
#[verifier::external_body]
fn int_to_bits(n: i64) -> (r: u64)
    ensures
        r == (if 0 <= n < EXACT {
            whole_bits(n as nat) as u64
        } else if -(EXACT as int) < n < 0 {
            (SIGN + whole_bits(-n as nat)) as u64
        } else {
            int_bits(n)
        }),
{
    serde_json::Number::from(n).as_f64().map_or(0, |x| x.to_bits())
}

/// The bits of the double nearest an unsigned integer.
pub open spec fn nearest_uint(n: u64) -> u64 {
    if n < EXACT {
        whole_bits(n as nat) as u64
    } else {
        uint_bits(n)
    }
}

/// The bits of the double nearest a signed integer.
pub open spec fn nearest_int(n: i64) -> u64 {
    if 0 <= n < EXACT {
        whole_bits(n as nat) as u64
    } else if -(EXACT as int) < n < 0 {
        (SIGN + whole_bits(-n as nat)) as u64
    } else {
        int_bits(n)
    }
}

/// The finite double that a value is: a number's nearest one.
pub open spec fn as_real(v: JsonV) -> Option<Real> {
    match v {
        JsonV::Number(Num::U(n)) => finite_real(nearest_uint(n)),
        JsonV::Number(Num::I(n)) => finite_real(nearest_int(n)),
        JsonV::Number(Num::R(x)) => finite_real(x.bits),
        _ => None,
    }
}

/// The unsigned integer that a value is.
pub open spec fn as_uint(v: JsonV) -> Option<u64> {
    match v {
        JsonV::Number(Num::U(n)) => Some(n),
        _ => None,
    }
}

/// The signed integer that a value is.
pub open spec fn as_int(v: JsonV) -> Option<i64> {
    match v {
        JsonV::Number(Num::U(n)) => if n <= i64::MAX {
            Some(n as i64)
        } else {
            None
        },
        JsonV::Number(Num::I(n)) => Some(n),
        _ => None,
    }
}

/// The string that a value is.
pub open spec fn as_text(v: JsonV) -> Option<Seq<char>> {
    match v {
        JsonV::Text(s) => Some(s),
        _ => None,
    }
}

/// The truth value that a value is.
pub open spec fn as_bool(v: JsonV) -> Option<bool> {
    match v {
        JsonV::Bool(b) => Some(b),
        _ => None,
    }
}

impl Json {
    /// [`as_real`].
    pub fn as_double(&self) -> (r: Option<Real>)
        ensures
            r == as_real(self.view()),
    {
        match self {
            Json::Number(Num::U(n)) => keep_finite(uint_to_bits(*n)),
            Json::Number(Num::I(n)) => keep_finite(int_to_bits(*n)),
            Json::Number(Num::R(x)) => keep_finite(x.bits),
            _ => None,
        }
    }

    /// [`as_uint`].
    pub fn unsigned(&self) -> (r: Option<u64>)
        ensures
            r == as_uint(self.view()),
    {
        match self {
            Json::Number(Num::U(n)) => Some(*n),
            _ => None,
        }
    }

    /// [`as_int`].
    pub fn signed(&self) -> (r: Option<i64>)
        ensures
            r == as_int(self.view()),
    {
        match self {
            Json::Number(Num::U(n)) => if *n <= i64::MAX as u64 {
                Some(*n as i64)
            } else {
                None
            },
            Json::Number(Num::I(n)) => Some(*n),
            _ => None,
        }
    }

    /// [`as_text`].
    pub fn string(&self) -> (r: Option<&str>)
        ensures
            crate::text::opt_text(r) == as_text(self.view()),
    {
        match self {
            Json::Text(s) => Some(s.as_str()),
            _ => None,
        }
    }
}

/// One level of a `serde_json` value.
enum Shape {
    Null,
    Bool(bool),
    Number(Option<u64>, Option<i64>, Option<u64>),
    Text(String),
    Array(Vec<serde_json::Value>),
    Object(Vec<(String, serde_json::Value)>),
}

/// The number that `serde_json::Number` gives as these three: an unsigned integer where it is
/// one, else a signed one, else a double by its bits.
pub open spec fn num_of(u: Option<u64>, i: Option<i64>, bits: Option<u64>) -> Num {
    match (u, i, bits) {
        (Some(n), _, _) => Num::U(n),
        (None, Some(n), _) => Num::I(n),
        (None, None, Some(b)) => Num::R(Real { bits: b }),
        (None, None, None) => Num::R(Real { bits: 0 }),
    }
}

/// The variants of `serde_json::Value`, each with its fields moved out; a number by
/// `Number::as_u64`, `Number::as_i64` and the bits of `Number::as_f64`, an object's members in
/// the map's own order, each name once.
#[verifier::external_body]
fn shape(v: serde_json::Value) -> (r: Shape)
    ensures
        match r {
            Shape::Null => held(v) == JsonV::Null,
            Shape::Bool(b) => held(v) == JsonV::Bool(b),
            Shape::Number(u, i, f) => held(v) == JsonV::Number(num_of(u, i, f)),
            Shape::Text(s) => held(v) == JsonV::Text(s@),
            Shape::Array(a) => held(v) == JsonV::Array(
                a@.map_values(|x: serde_json::Value| held(x)),
            ),
            Shape::Object(o) => held(v) == JsonV::Object(
                o@.map_values(|p: (String, serde_json::Value)| (p.0@, held(p.1))),
            ),
        },
{
    match v {
        serde_json::Value::Null => Shape::Null,
        serde_json::Value::Bool(b) => Shape::Bool(b),
        serde_json::Value::Number(n) => Shape::Number(
            n.as_u64(),
            n.as_i64(),
            n.as_f64().map(|x| x.to_bits()),
        ),
        serde_json::Value::String(s) => Shape::Text(s),
        serde_json::Value::Array(a) => Shape::Array(a),
        serde_json::Value::Object(o) => Shape::Object(o.into_iter().collect()),
    }
}

/// The value that a `serde_json` value holds.
pub fn from_value(v: serde_json::Value) -> (r: Json)
    ensures
        r.view() == held(v),
    decreases held(v),
{
    let ghost h = held(v);
    match shape(v) {
        Shape::Null => Json::Null,
        Shape::Bool(b) => Json::Bool(b),
        Shape::Number(u, i, f) => Json::Number(
            match (u, i, f) {
                (Some(n), _, _) => Num::U(n),
                (None, Some(n), _) => Num::I(n),
                (None, None, Some(b)) => Num::R(Real { bits: b }),
                (None, None, None) => Num::R(Real { bits: 0 }),
            },
        ),
        Shape::Text(s) => Json::Text(s),
        Shape::Array(a) => {
            let ghost all = a@.map_values(|x: serde_json::Value| held(x));
            let mut out = Items::new();
            let mut rest = a;
            let ghost n = rest@.len();
            proof {
                assert(all.take(0) =~= Seq::empty());
            }
            let mut i: usize = 0;
            let len = rest.len();
            while i < len
                invariant
                    len == all.len(),
                    i <= len,
                    rest@.len() == len - i,
                    h == JsonV::Array(all),
                    h == held(v),
                    forall|k: int| 0 <= k < len - i ==> held(#[trigger] rest@[k]) == all[i + k],
                    out@ == all.take(i as int),
                decreases len - i,
            {
                let x = rest.remove(0);
                assert(held(x) == all[i as int]);
                assert(decreases_to!(h => h->Array_0));
                assert(decreases_to!(h->Array_0 => h->Array_0[i as int]));
                let y = from_value(x);
                assert(all.take(i + 1) =~= all.take(i as int).push(held(x)));
                out.push(y);
                i += 1;
            }
            assert(all.take(len as int) =~= all);
            out.array()
        },
        Shape::Object(o) => {
            let ghost all = o@.map_values(|p: (String, serde_json::Value)| (p.0@, held(p.1)));
            let mut out = Fields::new();
            let mut rest = o;
            proof {
                assert(all.take(0) =~= Seq::empty());
            }
            let mut i: usize = 0;
            let len = rest.len();
            while i < len
                invariant
                    len == all.len(),
                    i <= len,
                    rest@.len() == len - i,
                    h == JsonV::Object(all),
                    h == held(v),
                    forall|k: int|
                        0 <= k < len - i ==> ((#[trigger] rest@[k]).0@, held(rest@[k].1)) == all[i
                            + k],
                    out@ == all.take(i as int),
                decreases len - i,
            {
                let (k, x) = rest.remove(0);
                assert((k@, held(x)) == all[i as int]);
                assert(decreases_to!(h => h->Object_0));
                assert(decreases_to!(h->Object_0 => h->Object_0[i as int]));
                assert(decreases_to!(h->Object_0[i as int] => h->Object_0[i as int].1));
                let y = from_value(x);
                assert(all.take(i + 1) =~= all.take(i as int).push((k@, held(x))));
                out.put(k.as_str(), y);
                i += 1;
            }
            assert(all.take(len as int) =~= all);
            out.object()
        },
    }
}

/// The value that a JSON text writes.
pub fn parse(bytes: &[u8]) -> (r: Result<Json, String>)
    ensures
        parse_result(r) == parsed(bytes@),
{
    match parse_value(bytes) {
        Ok(v) => Ok(from_value(v)),
        Err((text, _, _)) => Err(text),
    }
}

/// The value that bytes write, or where they stop being JSON.
pub fn parse_located(bytes: &[u8]) -> (r: Result<Json, (usize, usize)>)
    ensures
        match r {
            Ok(v) => parsed(bytes@) == Ok::<JsonV, Seq<char>>(v.view()),
            Err(at) => parsed(bytes@) is Err && at == (error_line(bytes@), error_column(bytes@)),
        },
{
    match parse_value(bytes) {
        Ok(v) => Ok(from_value(v)),
        Err((_, line, column)) => Err((line, column)),
    }
}

/// What the result of a parse holds.
pub open spec fn parse_result(r: Result<Json, String>) -> Result<JsonV, Seq<char>> {
    match r {
        Ok(v) => Ok(v.view()),
        Err(e) => Err(e@),
    }
}

/// What a number is read as: a natural number as itself, also among the integers where it fits; a
/// negative one as an integer only; one with a fraction as neither. Nothing that is no number is read
/// as one.
pub proof fn numbers_are_read_as_they_are(n: u64, i: i64, x: Real, s: Seq<char>, b: bool)
    ensures
        as_uint(JsonV::Number(Num::U(n))) == Some(n),
        as_uint(JsonV::Number(Num::I(i))) is None && as_uint(JsonV::Number(Num::R(x))) is None,
        as_int(JsonV::Number(Num::I(i))) == Some(i),
        n <= i64::MAX ==> as_int(JsonV::Number(Num::U(n))) == Some(n as i64),
        n > i64::MAX ==> as_int(JsonV::Number(Num::U(n))) is None,
        as_int(JsonV::Number(Num::R(x))) is None,
        x.finite() ==> as_real(JsonV::Number(Num::R(x))) == Some(x) && as_real(real_v(x)) == Some(x),
        !x.finite() ==> real_v(x) is Null,
        as_text(JsonV::Text(s)) == Some(s) && as_bool(JsonV::Bool(b)) == Some(b),
        as_real(JsonV::Text(s)) is None && as_uint(JsonV::Text(s)) is None && as_int(
            JsonV::Text(s),
        ) is None && as_bool(JsonV::Text(s)) is None,
        as_text(JsonV::Number(Num::U(n))) is None && as_text(JsonV::Bool(b)) is None && as_text(
            JsonV::Null,
        ) is None,
{
}

/// Whole numbers are read as doubles that are worth them, in their order.
pub proof fn whole_numbers_are_read_as_doubles(m: u64, n: u64)
    requires
        m < n < EXACT,
    ensures
        as_real(JsonV::Number(Num::U(m))) matches Some(a) && as_real(
            JsonV::Number(Num::U(n)),
        ) matches Some(b) && a.below(b),
        n < 1024 ==> (as_real(JsonV::Number(Num::U(n))) matches Some(b) && b.small_whole() == Some(
            n as int,
        )),
        as_real(JsonV::Number(Num::I(-(n as int) as i64))) matches Some(c) && c.below(
            as_real(JsonV::Number(Num::U(m)))->0,
        ),
        n < 1024 ==> (as_real(JsonV::Number(Num::I(-(n as int) as i64))) matches Some(c)
            && c.small_whole() == Some(-(n as int))),
{
    integers_are_doubles(m as nat, n as nat);
    integers_are_doubles(m as nat, m as nat);
}

/// A number is kept as the first of what it can be: a natural number, an integer, a double.
pub proof fn a_number_is_the_first_that_it_can_be(u: Option<u64>, i: Option<i64>, bits: Option<u64>)
    ensures
        u is Some ==> num_of(u, i, bits) == Num::U(u->0),
        u is None && i is Some ==> num_of(u, i, bits) == Num::I(i->0),
        u is None && i is None && bits is Some ==> num_of(u, i, bits) == Num::R(
            Real { bits: bits->0 },
        ),
{
}

/// Setting a member keeps the names in their order: one that is there stays where it is, and a new
/// one comes last.
pub proof fn members_keep_their_places(fields: Seq<(Seq<char>, JsonV)>, name: Seq<char>, v: JsonV)
    ensures
        forall|i: int|
            0 <= i < fields.len() ==> (#[trigger] with_member(fields, name, v)[i]).0 == fields[i].0,
        member(fields, name) is Some ==> with_member(fields, name, v).len() == fields.len(),
        member(fields, name) is None ==> with_member(fields, name, v) == fields.push((name, v)),
{
    member_index_is_first(fields, name);
}

} // verus!
