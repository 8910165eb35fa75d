//! Clusters of unknown emissions: emitters that measure alike.
//!
//! A cluster is evidence, never identity. Only visible ones are served, and a member whose
//! identity is withheld is simply absent.

use vstd::prelude::*;

use crate::body::{fail_v, invalid_v, outcome, read_result, Fail, FailV};
use crate::command::RepoError;
use crate::dispatch::{applied_result, ok, ok_v, Applied, AppliedV};
use crate::double::Real;
use crate::json::{
    at, fields_view, list, list_v, member_is_the_first, no_fields, opt_real_v, opt_text_v, real_v,
    seconds_v, text_v, uint_v, Fields, Items, Json, JsonV, ToJson,
};
use crate::store::{open_of, open_store, store_fail, store_fail_of};
use crate::text::{
    a_remainder_is_what_else_is_there, begins, opt_string, opt_text, replace_text, replaced_text,
    replaced_text_keeps, same, starts_with, strip_prefix, strip_suffix, without_prefix,
    without_suffix,
};

verus! {

/// The most events that one cluster answers with.
pub const CLUSTER_EVENTS_MAX: u32 = 50;

// ---------------------------------------------------------------------------------------------
// Routing
// ---------------------------------------------------------------------------------------------

/// An action on clusters.
#[derive(Debug, PartialEq, Eq)]
pub enum Action {
    /// The visible ones.
    List,
    /// One.
    Get(String),
    /// Mint a signature of one.
    Promote(String),
}

/// What an [`Action`] holds.
pub enum ActionV {
    /// The visible ones.
    List,
    /// One.
    Get(Seq<char>),
    /// Mint a signature of one.
    Promote(Seq<char>),
}

impl Action {
    /// What it holds.
    pub open spec fn view(&self) -> ActionV {
        match self {
            Action::List => ActionV::List,
            Action::Get(id) => ActionV::Get(id@),
            Action::Promote(id) => ActionV::Promote(id@),
        }
    }

    /// What it is audited as.
    pub fn name(&self) -> (r: &'static str)
        ensures
            r@ == (match self {
                Action::List => "clusters"@,
                Action::Get(_) => "cluster"@,
                Action::Promote(_) => "cluster_promote"@,
            }),
    {
        match self {
            Action::List => "clusters",
            Action::Get(_) => "cluster",
            Action::Promote(_) => "cluster_promote",
        }
    }

    /// It changes something.
    pub fn mutating(&self) -> (r: bool)
        ensures
            r == (self is Promote),
    {
        match self {
            Action::Promote(_) => true,
            _ => false,
        }
    }
}

/// The identity that a path writes: its prefix may be left out, its colon encoded.
pub open spec fn normalised(raw: Seq<char>) -> Seq<char> {
    let decoded = replaced_text(replaced_text(raw, "%3A"@, seq![':']), "%3a"@, seq![':']);
    if begins(decoded, "cluster:"@) {
        decoded
    } else {
        "cluster:"@ + decoded
    }
}

/// [`normalised`].
pub fn normalise_id(raw: &str) -> (r: String)
    ensures
        r@ == normalised(raw@),
{
    proof {
        reveal_strlit("%3A");
        reveal_strlit("%3a");
    }
    let upper = replace_text(raw, "%3A", ':');
    let decoded = replace_text(upper.as_str(), "%3a", ':');
    if starts_with(decoded.as_str(), "cluster:") {
        decoded
    } else {
        String::from_str("cluster:").concat(decoded.as_str())
    }
}

/// What comes behind the path of the list, and the identity in it with whether it is promoted.
pub open spec fn path_parts(path: Seq<char>) -> Option<Option<(Seq<char>, bool)>> {
    match without_prefix(path, "/api/clusters"@) {
        None => None,
        Some(rest) => if rest.len() == 0 {
            Some(None)
        } else {
            match without_prefix(rest, "/"@) {
                None => None,
                Some(rest) => Some(
                    Some(
                        match without_suffix(rest, "/promote"@) {
                            Some(id) => (normalised(id), true),
                            None => (normalised(rest), false),
                        },
                    ),
                ),
            }
        },
    }
}

/// What parts of a path hold.
pub open spec fn parts_view(r: Option<Option<(String, bool)>>) -> Option<
    Option<(Seq<char>, bool)>,
> {
    match r {
        None => None,
        Some(None) => Some(None),
        Some(Some(p)) => Some(Some((p.0@, p.1))),
    }
}

/// [`path_parts`].
pub fn parse_path(path: &str) -> (r: Option<Option<(String, bool)>>)
    ensures
        parts_view(r) == path_parts(path@),
{
    let rest = match strip_prefix(path, "/api/clusters") {
        Some(rest) => rest,
        None => return None,
    };
    if rest.unicode_len() == 0 {
        return Some(None);
    }
    let rest = match strip_prefix(rest, "/") {
        Some(rest) => rest,
        None => return None,
    };
    Some(
        Some(
            match strip_suffix(rest, "/promote") {
                Some(id) => (normalise_id(id), true),
                None => (normalise_id(rest), false),
            },
        ),
    )
}

/// What a method and a path are: `is_id` says that the identity in the path is one.
pub open spec fn resolved(method: Seq<char>, path: Seq<char>, is_id: bool) -> Option<
    Result<ActionV, Option<Seq<char>>>,
> {
    match path_parts(path) {
        None => None,
        Some(None) => Some(
            if method == "GET"@ {
                Ok(ActionV::List)
            } else {
                Err(Some("GET"@))
            },
        ),
        Some(Some(p)) => Some(
            if !is_id {
                Err(None)
            } else if p.1 {
                if method == "POST"@ {
                    Ok(ActionV::Promote(p.0))
                } else {
                    Err(Some("POST"@))
                }
            } else if method == "GET"@ {
                Ok(ActionV::Get(p.0))
            } else {
                Err(Some("GET"@))
            },
        ),
    }
}

/// What a resolved action holds.
pub open spec fn resolved_view(r: Option<Result<Action, Option<&'static str>>>) -> Option<
    Result<ActionV, Option<Seq<char>>>,
> {
    match r {
        None => None,
        Some(Ok(a)) => Some(Ok(a@)),
        Some(Err(allow)) => Some(Err(opt_text(allow))),
    }
}

/// [`resolved`].
pub fn resolve(method: &str, path: &str, is_id: bool) -> (r: Option<
    Result<Action, Option<&'static str>>,
>)
    ensures
        resolved_view(r) == resolved(method@, path@, is_id),
{
    match parse_path(path) {
        None => None,
        Some(None) => Some(
            if same(method, "GET") {
                Ok(Action::List)
            } else {
                Err(Some("GET"))
            },
        ),
        Some(Some((id, promote))) => Some(
            if !is_id {
                Err(None)
            } else if promote {
                if same(method, "POST") {
                    Ok(Action::Promote(id))
                } else {
                    Err(Some("POST"))
                }
            } else if same(method, "GET") {
                Ok(Action::Get(id))
            } else {
                Err(Some("GET"))
            },
        ),
    }
}

/// The prefix may be left out and its colon encoded: the three forms name one cluster.
pub proof fn written_forms_name_one_cluster(tail: Seq<char>)
    requires
        forall|i: int| 0 <= i < tail.len() ==> #[trigger] tail[i] != '%',
        !begins(tail, "cluster:"@),
    ensures
        normalised(tail) == "cluster:"@ + tail,
        normalised("cluster:"@ + tail) == "cluster:"@ + tail,
        normalised("cluster%3A"@ + tail) == "cluster:"@ + tail,
        normalised("cluster%3a"@ + tail) == "cluster:"@ + tail,
{
    reveal_strlit("%3A");
    reveal_strlit("%3a");
    reveal_strlit("cluster:");
    reveal_strlit("cluster%3A");
    reveal_strlit("cluster%3a");
    let colon = seq![':'];
    let full = "cluster:"@ + tail;
    let none = Seq::<char>::empty();
    assert(full.take(8) =~= "cluster:"@);
    assert forall|from: Seq<char>, s: Seq<char>|
        #![trigger replaced_text(s, from, colon)]
        from.len() == 3 && from[0] == '%' && (forall|i: int|
            0 <= i < s.len() ==> #[trigger] s[i] != '%') implies replaced_text(s, from, colon)
        == s by {
        replaced_text_keeps(s, none, from, colon);
        assert(s + none =~= s);
    }
    let head = seq!['c', 'l', 'u', 's', 't', 'e', 'r'];
    assert forall|from: Seq<char>|
        #![trigger replaced_text(head + from + tail, from, colon)]
        from.len() == 3 && from[0] == '%' implies replaced_text(head + from + tail, from, colon)
        == full by {
        let rest = from + tail;
        assert(rest.take(3) =~= from);
        assert(rest.skip(3) =~= tail);
        assert(begins(rest, from));
        replaced_text_keeps(head, rest, from, colon);
        assert(head + from + tail =~= head + rest);
        assert(replaced_text(tail, from, colon) == tail);
        assert(head + (colon + tail) =~= full);
    }
    assert("cluster%3A"@ + tail =~= head + "%3A"@ + tail);
    assert("cluster%3a"@ + tail =~= head + "%3a"@ + tail);
    let lower = "cluster%3a"@ + tail;
    // The upper-case form does not occur in the lower-case one.
    let behind = "%3a"@ + tail;
    replaced_text_keeps(head, behind, "%3A"@, colon);
    assert(lower =~= head + behind);
    assert(behind.take(3)[2] == 'a');
    assert(!begins(behind, "%3A"@));
    let t1 = seq!['3', 'a'] + tail;
    assert(behind.skip(1) =~= t1);
    assert(replaced_text(t1, "%3A"@, colon) == t1);
    assert(seq!['%'] + t1 =~= behind);
    assert(replaced_text(lower, "%3A"@, colon) == lower);
}

/// Who promotes: the token's fingerprint, else the user.
pub fn actor(token_id: &Option<String>) -> (r: String)
    ensures
        r@ == (match token_id {
            Some(t) => t@,
            None => "user"@,
        }),
{
    match token_id {
        Some(t) => t.clone(),
        None => "user".to_owned(),
    }
}

// ---------------------------------------------------------------------------------------------
// Rows
// ---------------------------------------------------------------------------------------------

/// What a store error is answered with.
pub open spec fn repo_fail_of(e: RepoError) -> FailV {
    store_fail_of(e, "inventory store"@, "no such cluster"@)
}

fn repo_fail(e: RepoError) -> (r: Fail)
    ensures
        r@ == repo_fail_of(e),
{
    store_fail(e, "inventory store", "no such cluster")
}

/// What a cluster that is not there is answered with.
pub open spec fn missing() -> FailV {
    fail_v(404, "not_found"@, "no such cluster"@)
}

fn not_found() -> (r: Fail)
    ensures
        r@ == missing(),
{
    Fail::of(404, "not_found", "no such cluster")
}

/// A member of a cluster.
#[derive(Debug)]
pub struct Member {
    /// The emitter.
    pub id: String,
    /// Its identity is withheld.
    pub withheld: bool,
}

/// The members that may be seen.
pub open spec fn visible_of(v: Seq<Member>) -> Seq<Seq<char>>
    decreases v.len(),
{
    if v.len() == 0 {
        Seq::empty()
    } else if v.last().withheld {
        visible_of(v.drop_last())
    } else {
        visible_of(v.drop_last()).push(v.last().id@)
    }
}

/// [`visible_of`].
pub fn visible_members(v: &Vec<Member>) -> (r: Vec<String>)
    ensures
        crate::text::strings(r@) == visible_of(v@),
{
    let mut out: Vec<String> = Vec::new();
    let mut i: usize = 0;
    assert(v@.take(0) =~= Seq::empty());
    assert(crate::text::strings(out@) =~= Seq::empty());
    while i < v.len()
        invariant
            i <= v@.len(),
            crate::text::strings(out@) == visible_of(v@.take(i as int)),
        decreases v@.len() - i,
    {
        let ghost before = out@;
        assert(v@.take(i + 1).drop_last() =~= v@.take(i as int));
        if !v[i].withheld {
            out.push(v[i].id.clone());
            assert(crate::text::strings(out@) =~= crate::text::strings(before).push(
                v@[i as int].id@,
            ));
        }
        i += 1;
    }
    assert(v@.take(v@.len() as int) =~= v@);
    out
}

/// A withheld member leaves no trace: the answer is that of the cluster without it.
pub proof fn withheld_members_leave_no_trace(a: Seq<Member>, m: Member, b: Seq<Member>)
    requires
        m.withheld,
    ensures
        visible_of(a + seq![m] + b) == visible_of(a + b),
    decreases b.len(),
{
    if b.len() == 0 {
        assert((a + seq![m] + b).drop_last() =~= a);
        assert(a + b =~= a);
    } else {
        assert((a + seq![m] + b).drop_last() =~= a + seq![m] + b.drop_last());
        assert((a + b).drop_last() =~= a + b.drop_last());
        withheld_members_leave_no_trace(a, m, b.drop_last());
    }
}

/// The value of a feature.
#[derive(Debug)]
pub enum FeatValue {
    /// A number.
    Num(Real),
    /// Bits, as they are written.
    Bits(Json),
    /// A text.
    Text(String),
}

impl FeatValue {
    /// Its kind.
    pub open spec fn kind_of(self) -> Seq<char> {
        match self {
            FeatValue::Num(_) => "num"@,
            FeatValue::Bits(_) => "bits"@,
            FeatValue::Text(_) => "text"@,
        }
    }

    /// The value.
    pub open spec fn value_of(self) -> JsonV {
        match self {
            FeatValue::Num(x) => real_v(x),
            FeatValue::Bits(b) => b.view(),
            FeatValue::Text(s) => text_v(s@),
        }
    }

    fn kind(&self) -> (r: &'static str)
        ensures
            r@ == self.kind_of(),
    {
        match self {
            FeatValue::Num(_) => "num",
            FeatValue::Bits(_) => "bits",
            FeatValue::Text(_) => "text",
        }
    }

    fn value(&self) -> (r: Json)
        ensures
            r.view() == self.value_of(),
    {
        match self {
            FeatValue::Num(x) => Json::double(*x),
            FeatValue::Bits(b) => b.copy(),
            FeatValue::Text(s) => Json::text(s.as_str()),
        }
    }
}

/// One field of a centroid, with the uncertainty that it carries.
#[derive(Debug)]
pub struct CentroidField {
    /// The field.
    pub name: String,
    /// Its value.
    pub value: FeatValue,
    /// The standard error.
    pub sigma: Option<Real>,
    /// The spread.
    pub spread: Option<Real>,
    /// The agreement.
    pub agreement: Option<Real>,
    /// The observations.
    pub n: u64,
    /// How it was measured, as it is written.
    pub method: Json,
}

impl ToJson for CentroidField {
    open spec fn json_v(self) -> JsonV {
        JsonV::Object(
            no_fields().push(("field"@, text_v(self.name@))).push(
                ("kind"@, text_v(self.value.kind_of())),
            ).push(("value"@, self.value.value_of())).push(
                ("sigma"@, opt_real_v(self.sigma)),
            ).push(("spread"@, opt_real_v(self.spread))).push(
                ("agreement"@, opt_real_v(self.agreement)),
            ).push(("n"@, uint_v(self.n as int))).push(("method"@, self.method.view())),
        )
    }

    fn to_json(&self) -> (r: Json) {
        let mut f = Fields::new();
        f.put("field", Json::text(self.name.as_str()));
        f.put("kind", Json::text(self.value.kind()));
        f.put("value", self.value.value());
        f.put("sigma", Json::opt_double(self.sigma));
        f.put("spread", Json::opt_double(self.spread));
        f.put("agreement", Json::opt_double(self.agreement));
        f.put("n", Json::uint(self.n));
        f.put("method", self.method.copy());
        f.object()
    }
}

/// Something that happened to a cluster.
#[derive(Debug)]
pub struct ClusterEvent {
    /// What.
    pub kind: String,
    /// The other cluster.
    pub other_cluster_id: Option<String>,
    /// When, ns.
    pub t: i64,
    /// The detail, as it is written.
    pub detail: Json,
}

impl ToJson for ClusterEvent {
    open spec fn json_v(self) -> JsonV {
        JsonV::Object(
            no_fields().push(("kind"@, text_v(self.kind@))).push(
                ("other_cluster_id"@, opt_text_v(opt_string(self.other_cluster_id))),
            ).push(("t_s"@, seconds_v(self.t))).push(("detail"@, self.detail.view())),
        )
    }

    fn to_json(&self) -> (r: Json) {
        let mut f = Fields::new();
        f.put("kind", Json::text(self.kind.as_str()));
        f.put("other_cluster_id", Json::opt_text(&self.other_cluster_id));
        f.put("t_s", Json::seconds(self.t));
        f.put("detail", self.detail.copy());
        f.object()
    }
}

/// A signature, as far as a cluster refers to it.
#[derive(Debug)]
pub struct SignatureRef {
    /// Its identity.
    pub id: String,
    /// Its version.
    pub version: u64,
}

/// A cluster.
#[derive(Debug)]
pub struct SignatureCluster {
    /// Its identity.
    pub id: String,
    /// Its state.
    pub state: String,
    /// The state is one that is served.
    pub visible: bool,
    /// When it was made, ns.
    pub created_at: i64,
    /// When it last changed, ns.
    pub updated_at: i64,
    /// The observations in its centroid.
    pub folds: u64,
    /// How many of them are suspect.
    pub suspect_fraction: Real,
    /// The set of features, as it is written.
    pub feature_set_version: Json,
    /// The cluster that it was merged into.
    pub merged_into: Option<String>,
    /// The signature minted of it.
    pub signature: Option<SignatureRef>,
    /// Its centroid.
    pub centroid: Vec<CentroidField>,
}

/// A reference to a signature.
pub open spec fn signature_v(s: Option<SignatureRef>) -> JsonV {
    match s {
        None => JsonV::Null,
        Some(s) => JsonV::Object(
            no_fields().push(("id"@, text_v(s.id@))).push(("version"@, uint_v(s.version as int))),
        ),
    }
}

fn signature_json(s: &Option<SignatureRef>) -> (r: Json)
    ensures
        r.view() == signature_v(*s),
{
    match s {
        None => Json::Null,
        Some(s) => {
            let mut f = Fields::new();
            f.put("id", Json::text(s.id.as_str()));
            f.put("version", Json::uint(s.version));
            f.object()
        },
    }
}

/// A cluster as it is served.
pub open spec fn cluster_v(c: SignatureCluster, members: Seq<Seq<char>>, events: Seq<JsonV>) -> JsonV {
    JsonV::Object(
        no_fields().push(("id"@, text_v(c.id@))).push(("state"@, text_v(c.state@))).push(
            ("members"@, uint_v(members.len() as int)),
        ).push(("member_ids"@, JsonV::Array(crate::json::text_items(members)))).push(
            ("created_at_s"@, seconds_v(c.created_at)),
        ).push(("updated_at_s"@, seconds_v(c.updated_at))).push(
            ("observations"@, uint_v(c.folds as int)),
        ).push(("suspect_fraction"@, real_v(c.suspect_fraction))).push(
            ("feature_set_version"@, c.feature_set_version.view()),
        ).push(("merged_into"@, opt_text_v(opt_string(c.merged_into)))).push(
            ("signature"@, signature_v(c.signature)),
        ).push(("centroid"@, JsonV::Array(list_v(c.centroid@)))).push(
            ("events"@, JsonV::Array(events)),
        ),
    )
}

/// What the store has beside a cluster.
#[derive(Debug)]
pub struct Beside {
    /// Its members.
    pub members: Result<Vec<Member>, RepoError>,
    /// Its history, where it is asked for.
    pub events: Option<Result<Vec<ClusterEvent>, RepoError>>,
}

/// A cluster as it is served, or what the store refused.
pub open spec fn cluster_of(c: SignatureCluster, b: Beside) -> Result<JsonV, FailV> {
    match b.members {
        Err(e) => Err(repo_fail_of(e)),
        Ok(members) => match b.events {
            None => Ok(cluster_v(c, visible_of(members@), Seq::empty())),
            Some(Err(e)) => Err(repo_fail_of(e)),
            Some(Ok(events)) => Ok(cluster_v(c, visible_of(members@), list_v(events@))),
        },
    }
}

/// [`cluster_of`].
pub fn cluster_json(c: &SignatureCluster, b: Beside) -> (r: Result<Json, Fail>)
    ensures
        read_result(r) == cluster_of(*c, b),
{
    let members = match b.members {
        Ok(m) => visible_members(&m),
        Err(e) => return Err(repo_fail(e)),
    };
    let events = match b.events {
        None => {
            let none = Items::new();
            none.array()
        },
        Some(Ok(v)) => list(&v),
        Some(Err(e)) => return Err(repo_fail(e)),
    };
    proof {
        assert(list_v(members@) =~= crate::json::text_items(crate::text::strings(members@)));
    }
    let mut f = Fields::new();
    f.put("id", Json::text(c.id.as_str()));
    f.put("state", Json::text(c.state.as_str()));
    f.put("members", Json::uint(members.len() as u64));
    f.put("member_ids", list(&members));
    f.put("created_at_s", Json::seconds(c.created_at));
    f.put("updated_at_s", Json::seconds(c.updated_at));
    f.put("observations", Json::uint(c.folds));
    f.put("suspect_fraction", Json::double(c.suspect_fraction));
    f.put("feature_set_version", c.feature_set_version.copy());
    f.put("merged_into", Json::opt_text(&c.merged_into));
    f.put("signature", signature_json(&c.signature));
    f.put("centroid", list(&c.centroid));
    f.put("events", events);
    Ok(f.object())
}

// ---------------------------------------------------------------------------------------------
// Answers
// ---------------------------------------------------------------------------------------------

/// The cluster that an identity names, following merges, where it is visible: a pending group is
/// a guess, and is not there.
pub open spec fn visible_cluster_of(
    live: Result<String, RepoError>,
    row: Result<Option<SignatureCluster>, RepoError>,
) -> Result<SignatureCluster, FailV> {
    match live {
        Err(e) => Err(repo_fail_of(e)),
        Ok(_) => match row {
            Err(e) => Err(repo_fail_of(e)),
            Ok(None) => Err(missing()),
            Ok(Some(c)) => if c.visible {
                Ok(c)
            } else {
                Err(missing())
            },
        },
    }
}

/// [`visible_cluster_of`].
pub fn visible_cluster(
    live: Result<String, RepoError>,
    row: Result<Option<SignatureCluster>, RepoError>,
) -> (r: Result<SignatureCluster, Fail>)
    ensures
        outcome(r) == visible_cluster_of(live, row),
{
    match live {
        Err(e) => return Err(repo_fail(e)),
        Ok(_) => {},
    }
    match row {
        Err(e) => Err(repo_fail(e)),
        Ok(None) => Err(not_found()),
        Ok(Some(c)) => if c.visible {
            Ok(c)
        } else {
            Err(not_found())
        },
    }
}

/// A cluster with what the store has beside it.
#[derive(Debug)]
pub struct Row {
    /// The cluster.
    pub cluster: SignatureCluster,
    /// What is beside it.
    pub beside: Beside,
}

/// Rows as they are served, or the first that the store refused.
pub open spec fn rows_of(rows: Seq<Row>) -> Result<Seq<JsonV>, FailV>
    decreases rows.len(),
{
    if rows.len() == 0 {
        Ok(Seq::empty())
    } else {
        match rows_of(rows.drop_last()) {
            Err(f) => Err(f),
            Ok(before) => match cluster_of(rows.last().cluster, rows.last().beside) {
                Err(f) => Err(f),
                Ok(j) => Ok(before.push(j)),
            },
        }
    }
}

proof fn rows_of_fails(rows: Seq<Row>, n: int)
    requires
        0 <= n <= rows.len(),
        rows_of(rows.take(n)) is Err,
    ensures
        rows_of(rows) == rows_of(rows.take(n)),
    decreases rows.len(),
{
    if n < rows.len() {
        assert(rows.drop_last().take(n) =~= rows.take(n));
        rows_of_fails(rows.drop_last(), n);
    } else {
        assert(rows.take(n) =~= rows);
    }
}

/// The list.
pub open spec fn listed_of(store: bool, rows: Result<Seq<Row>, RepoError>) -> Result<JsonV, FailV> {
    match open_of(store, "no signal inventory on this server"@) {
        Err(f) => Err(f),
        Ok(_) => match rows {
            Err(e) => Err(repo_fail_of(e)),
            Ok(rows) => match rows_of(rows) {
                Err(f) => Err(f),
                Ok(v) => Ok(JsonV::Object(no_fields().push(("clusters"@, JsonV::Array(v))))),
            },
        },
    }
}

/// What the rows of a list hold.
pub open spec fn rows_view(rows: Result<Vec<Row>, RepoError>) -> Result<Seq<Row>, RepoError> {
    match rows {
        Ok(v) => Ok(v@),
        Err(e) => Err(e),
    }
}

/// [`listed_of`].
pub fn listed(store: bool, rows: Result<Vec<Row>, RepoError>) -> (r: Result<Json, Fail>)
    ensures
        read_result(r) == listed_of(store, rows_view(rows)),
{
    match open_store(store, "no signal inventory on this server") {
        Ok(_) => {},
        Err(f) => return Err(f),
    }
    let mut rest = match rows {
        Ok(v) => v,
        Err(e) => return Err(repo_fail(e)),
    };
    let ghost all = rest@;
    let mut out = Items::new();
    let mut i: usize = 0;
    let n = rest.len();
    assert(all.take(0) =~= Seq::empty());
    assert(all.skip(0) =~= all);
    while i < n
        invariant
            store,
            rows_view(rows) == Ok::<Seq<Row>, RepoError>(all),
            n == all.len(),
            i <= n,
            rest@ == all.skip(i as int),
            rows_of(all.take(i as int)) == Ok::<Seq<JsonV>, FailV>(out@),
        decreases n - i,
    {
        let row = rest.remove(0);
        proof {
            assert(row == all[i as int]);
            assert(rest@ =~= all.skip(i + 1));
            assert(all.take(i + 1).drop_last() =~= all.take(i as int));
        }
        match cluster_json(&row.cluster, row.beside) {
            Ok(j) => {
                out.push(j);
            },
            Err(f) => {
                proof {
                    rows_of_fails(all, i + 1);
                }
                return Err(f);
            },
        }
        i += 1;
    }
    assert(all.take(n as int) =~= all);
    let mut f = Fields::new();
    f.put("clusters", out.array());
    Ok(f.object())
}

/// One cluster, with its history.
pub open spec fn one_of(
    store: bool,
    live: Result<String, RepoError>,
    row: Result<Option<SignatureCluster>, RepoError>,
    beside: Beside,
) -> Result<JsonV, FailV> {
    match open_of(store, "no signal inventory on this server"@) {
        Err(f) => Err(f),
        Ok(_) => match visible_cluster_of(live, row) {
            Err(f) => Err(f),
            Ok(c) => cluster_of(c, beside),
        },
    }
}

/// [`one_of`].
pub fn one(
    store: bool,
    live: Result<String, RepoError>,
    row: Result<Option<SignatureCluster>, RepoError>,
    beside: Beside,
) -> (r: Result<Json, Fail>)
    ensures
        read_result(r) == one_of(store, live, row, beside),
{
    match open_store(store, "no signal inventory on this server") {
        Ok(_) => {},
        Err(f) => return Err(f),
    }
    match visible_cluster(live, row) {
        Ok(c) => cluster_json(&c, beside),
        Err(f) => Err(f),
    }
}

/// A pending cluster reads as one that is not there.
pub proof fn pending_clusters_are_not_there(
    live: Result<String, RepoError>,
    c: SignatureCluster,
    beside: Beside,
)
    requires
        !c.visible,
    ensures
        one_of(true, live, Ok(Some(c)), beside) == one_of(true, live, Ok(None), beside),
{
}

/// What may be promoted: the body is empty and the cluster is visible.
pub open spec fn promotable_of(
    body: Seq<(Seq<char>, JsonV)>,
    store: bool,
    live: Result<String, RepoError>,
    row: Result<Option<SignatureCluster>, RepoError>,
) -> Result<SignatureCluster, FailV> {
    if body.len() > 0 {
        Err(invalid_v("this action takes no body fields"@))
    } else {
        match open_of(store, "no signal inventory on this server"@) {
            Err(f) => Err(f),
            Ok(_) => visible_cluster_of(live, row),
        }
    }
}

/// [`promotable_of`].
pub fn plan_promote(
    body: &Vec<(String, Json)>,
    store: bool,
    live: Result<String, RepoError>,
    row: Result<Option<SignatureCluster>, RepoError>,
) -> (r: Result<SignatureCluster, Fail>)
    ensures
        outcome(r) == promotable_of(fields_view(body@), store, live, row),
{
    proof {
        crate::json::fields_view_each(body@);
    }
    if body.len() > 0 {
        return Err(Fail::invalid("this action takes no body fields"));
    }
    match open_store(store, "no signal inventory on this server") {
        Ok(_) => visible_cluster(live, row),
        Err(f) => Err(f),
    }
}

/// A minted signature.
#[derive(Debug)]
pub struct Signature {
    /// Its identity.
    pub id: String,
    /// Its version.
    pub version: u64,
    /// Its name.
    pub name: String,
}

/// What is said of a cluster when it is promoted.
pub open spec fn state_v(c: SignatureCluster) -> Seq<(Seq<char>, JsonV)> {
    no_fields().push(("id"@, text_v(c.id@))).push(("state"@, text_v(c.state@)))
}

fn state_fields(c: &SignatureCluster) -> (r: Fields)
    ensures
        r@ == state_v(*c),
{
    let mut f = Fields::new();
    f.put("id", Json::text(c.id.as_str()));
    f.put("state", Json::text(c.state.as_str()));
    f
}

/// What a promotion is answered with.
pub open spec fn promoted_of(
    before: SignatureCluster,
    signature: Result<Signature, RepoError>,
    after: Result<SignatureCluster, RepoError>,
    beside: Beside,
) -> Result<AppliedV, FailV> {
    match signature {
        Err(e) => Err(repo_fail_of(e)),
        Ok(s) => match after {
            Err(e) => Err(repo_fail_of(e)),
            Ok(after) => match cluster_of(after, beside) {
                Err(f) => Err(f),
                Ok(row) => Ok(
                    ok_v(
                        JsonV::Object(
                            no_fields().push(
                                (
                                    "signature"@,
                                    JsonV::Object(
                                        no_fields().push(("id"@, text_v(s.id@))).push(
                                            ("version"@, uint_v(s.version as int)),
                                        ).push(("name"@, text_v(s.name@))),
                                    ),
                                ),
                            ).push(("cluster"@, row)),
                        ),
                        JsonV::Object(state_v(before)),
                        JsonV::Object(state_v(after).push(("signature"@, text_v(s.id@)))),
                    ),
                ),
            },
        },
    }
}

/// [`promoted_of`].
pub fn promoted(
    before: &SignatureCluster,
    signature: Result<Signature, RepoError>,
    after: Result<SignatureCluster, RepoError>,
    beside: Beside,
) -> (r: Result<Applied, Fail>)
    ensures
        applied_result(r) == promoted_of(*before, signature, after, beside),
{
    let s = match signature {
        Ok(s) => s,
        Err(e) => return Err(repo_fail(e)),
    };
    let after = match after {
        Ok(c) => c,
        Err(e) => return Err(repo_fail(e)),
    };
    let row = match cluster_json(&after, beside) {
        Ok(j) => j,
        Err(f) => return Err(f),
    };
    let mut minted = Fields::new();
    minted.put("id", Json::text(s.id.as_str()));
    minted.put("version", Json::uint(s.version));
    minted.put("name", Json::text(s.name.as_str()));
    let mut body = Fields::new();
    body.put("signature", minted.object());
    body.put("cluster", row);
    let was = state_fields(before);
    let mut now = state_fields(&after);
    now.put("signature", Json::text(s.id.as_str()));
    Ok(ok(body.object(), was.object(), now.object()))
}

/// Where a cluster is read and promoted: each at the path of its name, with a method of its own.
pub proof fn clusters_are_at_their_paths(method: Seq<char>, rest: Seq<char>, is_id: bool)
    ensures
        resolved("GET"@, "/api/clusters"@, is_id) == Some(
            Ok::<ActionV, Option<Seq<char>>>(ActionV::List),
        ),
        method != "GET"@ ==> resolved(method, "/api/clusters"@, is_id) == Some(
            Err::<ActionV, Option<Seq<char>>>(Some("GET"@)),
        ),
        without_suffix(rest, "/promote"@) is None ==> resolved(
            "GET"@,
            "/api/clusters"@ + ("/"@ + rest),
            true,
        ) == Some(Ok::<ActionV, Option<Seq<char>>>(ActionV::Get(normalised(rest)))),
        resolved("POST"@, "/api/clusters"@ + ("/"@ + (rest + "/promote"@)), true) == Some(
            Ok::<ActionV, Option<Seq<char>>>(ActionV::Promote(normalised(rest))),
        ),
        method != "POST"@ ==> resolved(
            method,
            "/api/clusters"@ + ("/"@ + (rest + "/promote"@)),
            true,
        ) == Some(Err::<ActionV, Option<Seq<char>>>(Some("POST"@))),
        resolved(method, "/api/clusters"@ + ("/"@ + rest), false) == Some(
            Err::<ActionV, Option<Seq<char>>>(None),
        ),
        begins(normalised(rest), "cluster:"@),
{
    let e = Seq::<char>::empty();
    assert("/api/clusters"@ + e =~= "/api/clusters"@);
    a_remainder_is_what_else_is_there(e, "/api/clusters"@);
    a_remainder_is_what_else_is_there("/"@ + rest, "/api/clusters"@);
    a_remainder_is_what_else_is_there(rest, "/"@);
    let p = rest + "/promote"@;
    a_remainder_is_what_else_is_there("/"@ + p, "/api/clusters"@);
    a_remainder_is_what_else_is_there(p, "/"@);
    a_remainder_is_what_else_is_there(rest, "/promote"@);
    reveal_strlit("/");
    assert(("/"@ + rest).len() > 0 && ("/"@ + p).len() > 0);
    let decoded = replaced_text(replaced_text(rest, "%3A"@, seq![':']), "%3a"@, seq![':']);
    let pre = "cluster:"@;
    assert((pre + decoded).take(pre.len() as int) =~= pre);
}

/// The members that are shown are those that are not withheld, in their order.
pub proof fn members_are_shown_in_order(v: Seq<Member>, m: Member)
    ensures
        visible_of(Seq::empty()) == Seq::<Seq<char>>::empty(),
        !m.withheld ==> visible_of(v.push(m)) == visible_of(v).push(m.id@),
        m.withheld ==> visible_of(v.push(m)) == visible_of(v),
{
    assert(v.push(m).drop_last() =~= v);
}

/// A cluster is written as it is, with the members that are shown and their number.
pub proof fn a_cluster_is_written_as_it_is(
    c: SignatureCluster,
    members: Seq<Seq<char>>,
    events: Seq<JsonV>,
)
    ensures
        ({
            let v = cluster_v(c, members, events);
            &&& at(v, "id"@) == Some(JsonV::Text(c.id@))
            &&& at(v, "state"@) == Some(JsonV::Text(c.state@))
            &&& at(v, "members"@) == Some(uint_v(members.len() as int))
            &&& at(v, "member_ids"@) matches Some(JsonV::Array(a)) && a.len() == members.len()
                && forall|i: int|
                0 <= i < members.len() ==> #[trigger] a[i] == JsonV::Text(members[i])
            &&& at(v, "created_at_s"@) == Some(seconds_v(c.created_at))
            &&& at(v, "updated_at_s"@) == Some(seconds_v(c.updated_at))
            &&& at(v, "observations"@) == Some(uint_v(c.folds as int))
            &&& at(v, "suspect_fraction"@) == Some(real_v(c.suspect_fraction))
            &&& at(v, "feature_set_version"@) == Some(c.feature_set_version.view())
            &&& at(v, "merged_into"@) == Some(opt_text_v(opt_string(c.merged_into)))
            &&& at(v, "signature"@) == Some(signature_v(c.signature))
            &&& at(v, "centroid"@) == Some(JsonV::Array(list_v(c.centroid@)))
            &&& at(v, "events"@) == Some(JsonV::Array(events))
        }),
{
    let f = cluster_v(c, members, events)->Object_0;
    member_is_the_first(f, "id"@, 0);
    assert("id"@ != "state"@) by {
        reveal_strlit("id");
        reveal_strlit("state");
        assert("id"@.len() != "state"@.len());
    }
    member_is_the_first(f, "state"@, 1);
    assert("id"@ != "members"@) by {
        reveal_strlit("id");
        reveal_strlit("members");
        assert("id"@.len() != "members"@.len());
    }
    assert("state"@ != "members"@) by {
        reveal_strlit("state");
        reveal_strlit("members");
        assert("state"@.len() != "members"@.len());
    }
    member_is_the_first(f, "members"@, 2);
    assert("id"@ != "member_ids"@) by {
        reveal_strlit("id");
        reveal_strlit("member_ids");
        assert("id"@.len() != "member_ids"@.len());
    }
    assert("state"@ != "member_ids"@) by {
        reveal_strlit("state");
        reveal_strlit("member_ids");
        assert("state"@.len() != "member_ids"@.len());
    }
    assert("members"@ != "member_ids"@) by {
        reveal_strlit("members");
        reveal_strlit("member_ids");
        assert("members"@.len() != "member_ids"@.len());
    }
    member_is_the_first(f, "member_ids"@, 3);
    assert("id"@ != "created_at_s"@) by {
        reveal_strlit("id");
        reveal_strlit("created_at_s");
        assert("id"@.len() != "created_at_s"@.len());
    }
    assert("state"@ != "created_at_s"@) by {
        reveal_strlit("state");
        reveal_strlit("created_at_s");
        assert("state"@.len() != "created_at_s"@.len());
    }
    assert("members"@ != "created_at_s"@) by {
        reveal_strlit("members");
        reveal_strlit("created_at_s");
        assert("members"@.len() != "created_at_s"@.len());
    }
    assert("member_ids"@ != "created_at_s"@) by {
        reveal_strlit("member_ids");
        reveal_strlit("created_at_s");
        assert("member_ids"@.len() != "created_at_s"@.len());
    }
    member_is_the_first(f, "created_at_s"@, 4);
    assert("id"@ != "updated_at_s"@) by {
        reveal_strlit("id");
        reveal_strlit("updated_at_s");
        assert("id"@.len() != "updated_at_s"@.len());
    }
    assert("state"@ != "updated_at_s"@) by {
        reveal_strlit("state");
        reveal_strlit("updated_at_s");
        assert("state"@.len() != "updated_at_s"@.len());
    }
    assert("members"@ != "updated_at_s"@) by {
        reveal_strlit("members");
        reveal_strlit("updated_at_s");
        assert("members"@.len() != "updated_at_s"@.len());
    }
    assert("member_ids"@ != "updated_at_s"@) by {
        reveal_strlit("member_ids");
        reveal_strlit("updated_at_s");
        assert("member_ids"@.len() != "updated_at_s"@.len());
    }
    assert("created_at_s"@ != "updated_at_s"@) by {
        reveal_strlit("created_at_s");
        reveal_strlit("updated_at_s");
        assert("created_at_s"@[0] != "updated_at_s"@[0]);
    }
    member_is_the_first(f, "updated_at_s"@, 5);
    assert("id"@ != "observations"@) by {
        reveal_strlit("id");
        reveal_strlit("observations");
        assert("id"@.len() != "observations"@.len());
    }
    assert("state"@ != "observations"@) by {
        reveal_strlit("state");
        reveal_strlit("observations");
        assert("state"@.len() != "observations"@.len());
    }
    assert("members"@ != "observations"@) by {
        reveal_strlit("members");
        reveal_strlit("observations");
        assert("members"@.len() != "observations"@.len());
    }
    assert("member_ids"@ != "observations"@) by {
        reveal_strlit("member_ids");
        reveal_strlit("observations");
        assert("member_ids"@.len() != "observations"@.len());
    }
    assert("created_at_s"@ != "observations"@) by {
        reveal_strlit("created_at_s");
        reveal_strlit("observations");
        assert("created_at_s"@[0] != "observations"@[0]);
    }
    assert("updated_at_s"@ != "observations"@) by {
        reveal_strlit("updated_at_s");
        reveal_strlit("observations");
        assert("updated_at_s"@[0] != "observations"@[0]);
    }
    member_is_the_first(f, "observations"@, 6);
    assert("id"@ != "suspect_fraction"@) by {
        reveal_strlit("id");
        reveal_strlit("suspect_fraction");
        assert("id"@.len() != "suspect_fraction"@.len());
    }
    assert("state"@ != "suspect_fraction"@) by {
        reveal_strlit("state");
        reveal_strlit("suspect_fraction");
        assert("state"@.len() != "suspect_fraction"@.len());
    }
    assert("members"@ != "suspect_fraction"@) by {
        reveal_strlit("members");
        reveal_strlit("suspect_fraction");
        assert("members"@.len() != "suspect_fraction"@.len());
    }
    assert("member_ids"@ != "suspect_fraction"@) by {
        reveal_strlit("member_ids");
        reveal_strlit("suspect_fraction");
        assert("member_ids"@.len() != "suspect_fraction"@.len());
    }
    assert("created_at_s"@ != "suspect_fraction"@) by {
        reveal_strlit("created_at_s");
        reveal_strlit("suspect_fraction");
        assert("created_at_s"@.len() != "suspect_fraction"@.len());
    }
    assert("updated_at_s"@ != "suspect_fraction"@) by {
        reveal_strlit("updated_at_s");
        reveal_strlit("suspect_fraction");
        assert("updated_at_s"@.len() != "suspect_fraction"@.len());
    }
    assert("observations"@ != "suspect_fraction"@) by {
        reveal_strlit("observations");
        reveal_strlit("suspect_fraction");
        assert("observations"@.len() != "suspect_fraction"@.len());
    }
    member_is_the_first(f, "suspect_fraction"@, 7);
    assert("id"@ != "feature_set_version"@) by {
        reveal_strlit("id");
        reveal_strlit("feature_set_version");
        assert("id"@.len() != "feature_set_version"@.len());
    }
    assert("state"@ != "feature_set_version"@) by {
        reveal_strlit("state");
        reveal_strlit("feature_set_version");
        assert("state"@.len() != "feature_set_version"@.len());
    }
    assert("members"@ != "feature_set_version"@) by {
        reveal_strlit("members");
        reveal_strlit("feature_set_version");
        assert("members"@.len() != "feature_set_version"@.len());
    }
    assert("member_ids"@ != "feature_set_version"@) by {
        reveal_strlit("member_ids");
        reveal_strlit("feature_set_version");
        assert("member_ids"@.len() != "feature_set_version"@.len());
    }
    assert("created_at_s"@ != "feature_set_version"@) by {
        reveal_strlit("created_at_s");
        reveal_strlit("feature_set_version");
        assert("created_at_s"@.len() != "feature_set_version"@.len());
    }
    assert("updated_at_s"@ != "feature_set_version"@) by {
        reveal_strlit("updated_at_s");
        reveal_strlit("feature_set_version");
        assert("updated_at_s"@.len() != "feature_set_version"@.len());
    }
    assert("observations"@ != "feature_set_version"@) by {
        reveal_strlit("observations");
        reveal_strlit("feature_set_version");
        assert("observations"@.len() != "feature_set_version"@.len());
    }
    assert("suspect_fraction"@ != "feature_set_version"@) by {
        reveal_strlit("suspect_fraction");
        reveal_strlit("feature_set_version");
        assert("suspect_fraction"@.len() != "feature_set_version"@.len());
    }
    member_is_the_first(f, "feature_set_version"@, 8);
    assert("id"@ != "merged_into"@) by {
        reveal_strlit("id");
        reveal_strlit("merged_into");
        assert("id"@.len() != "merged_into"@.len());
    }
    assert("state"@ != "merged_into"@) by {
        reveal_strlit("state");
        reveal_strlit("merged_into");
        assert("state"@.len() != "merged_into"@.len());
    }
    assert("members"@ != "merged_into"@) by {
        reveal_strlit("members");
        reveal_strlit("merged_into");
        assert("members"@.len() != "merged_into"@.len());
    }
    assert("member_ids"@ != "merged_into"@) by {
        reveal_strlit("member_ids");
        reveal_strlit("merged_into");
        assert("member_ids"@.len() != "merged_into"@.len());
    }
    assert("created_at_s"@ != "merged_into"@) by {
        reveal_strlit("created_at_s");
        reveal_strlit("merged_into");
        assert("created_at_s"@.len() != "merged_into"@.len());
    }
    assert("updated_at_s"@ != "merged_into"@) by {
        reveal_strlit("updated_at_s");
        reveal_strlit("merged_into");
        assert("updated_at_s"@.len() != "merged_into"@.len());
    }
    assert("observations"@ != "merged_into"@) by {
        reveal_strlit("observations");
        reveal_strlit("merged_into");
        assert("observations"@.len() != "merged_into"@.len());
    }
    assert("suspect_fraction"@ != "merged_into"@) by {
        reveal_strlit("suspect_fraction");
        reveal_strlit("merged_into");
        assert("suspect_fraction"@.len() != "merged_into"@.len());
    }
    assert("feature_set_version"@ != "merged_into"@) by {
        reveal_strlit("feature_set_version");
        reveal_strlit("merged_into");
        assert("feature_set_version"@.len() != "merged_into"@.len());
    }
    member_is_the_first(f, "merged_into"@, 9);
    assert("id"@ != "signature"@) by {
        reveal_strlit("id");
        reveal_strlit("signature");
        assert("id"@.len() != "signature"@.len());
    }
    assert("state"@ != "signature"@) by {
        reveal_strlit("state");
        reveal_strlit("signature");
        assert("state"@.len() != "signature"@.len());
    }
    assert("members"@ != "signature"@) by {
        reveal_strlit("members");
        reveal_strlit("signature");
        assert("members"@.len() != "signature"@.len());
    }
    assert("member_ids"@ != "signature"@) by {
        reveal_strlit("member_ids");
        reveal_strlit("signature");
        assert("member_ids"@.len() != "signature"@.len());
    }
    assert("created_at_s"@ != "signature"@) by {
        reveal_strlit("created_at_s");
        reveal_strlit("signature");
        assert("created_at_s"@.len() != "signature"@.len());
    }
    assert("updated_at_s"@ != "signature"@) by {
        reveal_strlit("updated_at_s");
        reveal_strlit("signature");
        assert("updated_at_s"@.len() != "signature"@.len());
    }
    assert("observations"@ != "signature"@) by {
        reveal_strlit("observations");
        reveal_strlit("signature");
        assert("observations"@.len() != "signature"@.len());
    }
    assert("suspect_fraction"@ != "signature"@) by {
        reveal_strlit("suspect_fraction");
        reveal_strlit("signature");
        assert("suspect_fraction"@.len() != "signature"@.len());
    }
    assert("feature_set_version"@ != "signature"@) by {
        reveal_strlit("feature_set_version");
        reveal_strlit("signature");
        assert("feature_set_version"@.len() != "signature"@.len());
    }
    assert("merged_into"@ != "signature"@) by {
        reveal_strlit("merged_into");
        reveal_strlit("signature");
        assert("merged_into"@.len() != "signature"@.len());
    }
    member_is_the_first(f, "signature"@, 10);
    assert("id"@ != "centroid"@) by {
        reveal_strlit("id");
        reveal_strlit("centroid");
        assert("id"@.len() != "centroid"@.len());
    }
    assert("state"@ != "centroid"@) by {
        reveal_strlit("state");
        reveal_strlit("centroid");
        assert("state"@.len() != "centroid"@.len());
    }
    assert("members"@ != "centroid"@) by {
        reveal_strlit("members");
        reveal_strlit("centroid");
        assert("members"@.len() != "centroid"@.len());
    }
    assert("member_ids"@ != "centroid"@) by {
        reveal_strlit("member_ids");
        reveal_strlit("centroid");
        assert("member_ids"@.len() != "centroid"@.len());
    }
    assert("created_at_s"@ != "centroid"@) by {
        reveal_strlit("created_at_s");
        reveal_strlit("centroid");
        assert("created_at_s"@.len() != "centroid"@.len());
    }
    assert("updated_at_s"@ != "centroid"@) by {
        reveal_strlit("updated_at_s");
        reveal_strlit("centroid");
        assert("updated_at_s"@.len() != "centroid"@.len());
    }
    assert("observations"@ != "centroid"@) by {
        reveal_strlit("observations");
        reveal_strlit("centroid");
        assert("observations"@.len() != "centroid"@.len());
    }
    assert("suspect_fraction"@ != "centroid"@) by {
        reveal_strlit("suspect_fraction");
        reveal_strlit("centroid");
        assert("suspect_fraction"@.len() != "centroid"@.len());
    }
    assert("feature_set_version"@ != "centroid"@) by {
        reveal_strlit("feature_set_version");
        reveal_strlit("centroid");
        assert("feature_set_version"@.len() != "centroid"@.len());
    }
    assert("merged_into"@ != "centroid"@) by {
        reveal_strlit("merged_into");
        reveal_strlit("centroid");
        assert("merged_into"@.len() != "centroid"@.len());
    }
    assert("signature"@ != "centroid"@) by {
        reveal_strlit("signature");
        reveal_strlit("centroid");
        assert("signature"@.len() != "centroid"@.len());
    }
    member_is_the_first(f, "centroid"@, 11);
    assert("id"@ != "events"@) by {
        reveal_strlit("id");
        reveal_strlit("events");
        assert("id"@.len() != "events"@.len());
    }
    assert("state"@ != "events"@) by {
        reveal_strlit("state");
        reveal_strlit("events");
        assert("state"@.len() != "events"@.len());
    }
    assert("members"@ != "events"@) by {
        reveal_strlit("members");
        reveal_strlit("events");
        assert("members"@.len() != "events"@.len());
    }
    assert("member_ids"@ != "events"@) by {
        reveal_strlit("member_ids");
        reveal_strlit("events");
        assert("member_ids"@.len() != "events"@.len());
    }
    assert("created_at_s"@ != "events"@) by {
        reveal_strlit("created_at_s");
        reveal_strlit("events");
        assert("created_at_s"@.len() != "events"@.len());
    }
    assert("updated_at_s"@ != "events"@) by {
        reveal_strlit("updated_at_s");
        reveal_strlit("events");
        assert("updated_at_s"@.len() != "events"@.len());
    }
    assert("observations"@ != "events"@) by {
        reveal_strlit("observations");
        reveal_strlit("events");
        assert("observations"@.len() != "events"@.len());
    }
    assert("suspect_fraction"@ != "events"@) by {
        reveal_strlit("suspect_fraction");
        reveal_strlit("events");
        assert("suspect_fraction"@.len() != "events"@.len());
    }
    assert("feature_set_version"@ != "events"@) by {
        reveal_strlit("feature_set_version");
        reveal_strlit("events");
        assert("feature_set_version"@.len() != "events"@.len());
    }
    assert("merged_into"@ != "events"@) by {
        reveal_strlit("merged_into");
        reveal_strlit("events");
        assert("merged_into"@.len() != "events"@.len());
    }
    assert("signature"@ != "events"@) by {
        reveal_strlit("signature");
        reveal_strlit("events");
        assert("signature"@.len() != "events"@.len());
    }
    assert("centroid"@ != "events"@) by {
        reveal_strlit("centroid");
        reveal_strlit("events");
        assert("centroid"@.len() != "events"@.len());
    }
    member_is_the_first(f, "events"@, 12);
}

/// A signature is named by its id and its version.
pub proof fn a_signature_is_named_whole(s: SignatureRef)
    ensures
        at(signature_v(Some(s)), "id"@) == Some(JsonV::Text(s.id@)),
        at(signature_v(Some(s)), "version"@) == Some(uint_v(s.version as int)),
        signature_v(None) == JsonV::Null,
{
    let f = signature_v(Some(s))->Object_0;
    member_is_the_first(f, "id"@, 0);
    assert("id"@ != "version"@) by {
        reveal_strlit("id");
        reveal_strlit("version");
        assert("id"@.len() != "version"@.len());
    }
    member_is_the_first(f, "version"@, 1);
}

/// What is read of a cluster is of the members and the events beside it; where either cannot be read,
/// nothing is.
pub proof fn a_cluster_is_read_with_what_is_beside_it(c: SignatureCluster, b: Beside)
    ensures
        cluster_of(c, b) matches Ok(v) ==> (b.members matches Ok(m) && match b.events {
            None => v == cluster_v(c, visible_of(m@), Seq::empty()),
            Some(Ok(e)) => v == cluster_v(c, visible_of(m@), list_v(e@)),
            Some(Err(_)) => false,
        }),
        cluster_of(c, b) is Err <==> b.members is Err || (b.events matches Some(e) && e is Err),
{
}

/// The list holds every row, in order, and nothing where one of them cannot be read.
pub proof fn clusters_are_listed_in_order(rows: Seq<Row>, r: Row)
    ensures
        rows_of(Seq::empty()) == Ok::<Seq<JsonV>, FailV>(Seq::empty()),
        rows_of(rows) matches Ok(v) ==> (cluster_of(r.cluster, r.beside) matches Ok(j) ==> rows_of(
            rows.push(r),
        ) == Ok::<Seq<JsonV>, FailV>(v.push(j))),
        cluster_of(r.cluster, r.beside) is Err ==> rows_of(rows.push(r)) is Err,
        rows_of(rows) is Err ==> rows_of(rows.push(r)) == rows_of(rows),
        rows_of(rows) matches Ok(v) ==> (listed_of(true, Ok(rows)) matches Ok(l) && at(l, "clusters"@)
            == Some(JsonV::Array(v))),
        listed_of(false, Ok(rows)) matches Err(f) && f.status == 503,
{
    assert(rows.push(r).drop_last() =~= rows);
    assert(rows.push(r).last() == r);
    if let Ok(v) = rows_of(rows) {
        member_is_the_first(listed_of(true, Ok(rows))->Ok_0->Object_0, "clusters"@, 0);
    }
}

/// A promotion takes no fields and a cluster that can be seen.
pub proof fn what_can_be_seen_can_be_promoted(
    body: Seq<(Seq<char>, JsonV)>,
    live: Result<String, RepoError>,
    row: Result<Option<SignatureCluster>, RepoError>,
    c: SignatureCluster,
)
    ensures
        promotable_of(body, true, live, row) == Ok::<SignatureCluster, FailV>(c) <==> body.len() == 0
            && live is Ok && row == Ok::<Option<SignatureCluster>, RepoError>(Some(c)) && c.visible,
        body.len() > 0 ==> (promotable_of(body, true, live, row) matches Err(f) && f.status == 400),
        live is Ok && row == Ok::<Option<SignatureCluster>, RepoError>(Some(c)) && !c.visible
            && body.len() == 0 ==> (promotable_of(body, true, live, row) matches Err(f) && f.status
            == 404),
        promotable_of(body, false, live, row) is Err,
{
}

/// A promotion is answered with the signature and the cluster as it is now; the log has its state
/// before and after, with the signature.
pub proof fn a_promotion_is_answered_with_its_signature(
    before: SignatureCluster,
    s: Signature,
    after: SignatureCluster,
    beside: Beside,
)
    ensures
        promoted_of(before, Ok(s), Ok(after), beside) matches Ok(a) ==> {
            &&& a.status == 200
            &&& cluster_of(after, beside) matches Ok(row) && at(a.body, "cluster"@) == Some(row)
            &&& at(a.body, "signature"@) matches Some(g) && at(g, "id"@) == Some(JsonV::Text(s.id@))
                && at(g, "version"@) == Some(uint_v(s.version as int)) && at(g, "name"@) == Some(
                JsonV::Text(s.name@),
            )
            &&& at(a.old, "id"@) == Some(JsonV::Text(before.id@))
            &&& at(a.old, "state"@) == Some(JsonV::Text(before.state@))
            &&& at(a.new, "id"@) == Some(JsonV::Text(after.id@))
            &&& at(a.new, "state"@) == Some(JsonV::Text(after.state@))
            &&& at(a.new, "signature"@) == Some(JsonV::Text(s.id@))
        },
        promoted_of(before, Ok(s), Ok(after), beside) is Ok <==> cluster_of(after, beside) is Ok,
{
    if let Ok(a) = promoted_of(before, Ok(s), Ok(after), beside) {
        let b = a.body->Object_0;
        member_is_the_first(b, "signature"@, 0);
        assert("signature"@ != "cluster"@) by {
            reveal_strlit("signature");
            reveal_strlit("cluster");
            assert("signature"@.len() != "cluster"@.len());
        }
        member_is_the_first(b, "cluster"@, 1);
        let g = b[0].1->Object_0;
        let h = JsonV::Object(g)->Object_0;
        member_is_the_first(h, "id"@, 0);
        assert("id"@ != "version"@) by {
            reveal_strlit("id");
            reveal_strlit("version");
            assert("id"@.len() != "version"@.len());
        }
        member_is_the_first(h, "version"@, 1);
        assert("id"@ != "name"@) by {
            reveal_strlit("id");
            reveal_strlit("name");
            assert("id"@.len() != "name"@.len());
        }
        assert("version"@ != "name"@) by {
            reveal_strlit("version");
            reveal_strlit("name");
            assert("version"@.len() != "name"@.len());
        }
        member_is_the_first(h, "name"@, 2);
        let o = a.old->Object_0;
        member_is_the_first(o, "id"@, 0);
        assert("id"@ != "state"@) by {
            reveal_strlit("id");
            reveal_strlit("state");
            assert("id"@.len() != "state"@.len());
        }
        member_is_the_first(o, "state"@, 1);
        let w = a.new->Object_0;
        member_is_the_first(w, "id"@, 0);
        member_is_the_first(w, "state"@, 1);
        assert("id"@ != "signature"@) by {
            reveal_strlit("id");
            reveal_strlit("signature");
            assert("id"@.len() != "signature"@.len());
        }
        assert("state"@ != "signature"@) by {
            reveal_strlit("state");
            reveal_strlit("signature");
            assert("state"@.len() != "signature"@.len());
        }
        member_is_the_first(w, "signature"@, 2);
    }
}

/// A feature says what it is and how well it is known.
pub proof fn a_feature_is_written_as_it_is(f: CentroidField)
    ensures
        at(f.json_v(), "field"@) == Some(JsonV::Text(f.name@)),
        at(f.json_v(), "value"@) == Some(f.value.value_of()),
        at(f.json_v(), "sigma"@) == Some(opt_real_v(f.sigma)),
        at(f.json_v(), "spread"@) == Some(opt_real_v(f.spread)),
        at(f.json_v(), "agreement"@) == Some(opt_real_v(f.agreement)),
        at(f.json_v(), "n"@) == Some(uint_v(f.n as int)),
        f.value is Num <==> at(f.json_v(), "kind"@) == Some(JsonV::Text("num"@)),
        f.value is Bits <==> at(f.json_v(), "kind"@) == Some(JsonV::Text("bits"@)),
        f.value is Text <==> at(f.json_v(), "kind"@) == Some(JsonV::Text("text"@)),
{
    let g = f.json_v()->Object_0;
    member_is_the_first(g, "field"@, 0);
    assert("field"@ != "kind"@) by {
        reveal_strlit("field");
        reveal_strlit("kind");
        assert("field"@.len() != "kind"@.len());
    }
    member_is_the_first(g, "kind"@, 1);
    assert("field"@ != "value"@) by {
        reveal_strlit("field");
        reveal_strlit("value");
        assert("field"@[0] != "value"@[0]);
    }
    assert("kind"@ != "value"@) by {
        reveal_strlit("kind");
        reveal_strlit("value");
        assert("kind"@.len() != "value"@.len());
    }
    member_is_the_first(g, "value"@, 2);
    assert("field"@ != "sigma"@) by {
        reveal_strlit("field");
        reveal_strlit("sigma");
        assert("field"@[0] != "sigma"@[0]);
    }
    assert("kind"@ != "sigma"@) by {
        reveal_strlit("kind");
        reveal_strlit("sigma");
        assert("kind"@.len() != "sigma"@.len());
    }
    assert("value"@ != "sigma"@) by {
        reveal_strlit("value");
        reveal_strlit("sigma");
        assert("value"@[0] != "sigma"@[0]);
    }
    member_is_the_first(g, "sigma"@, 3);
    assert("field"@ != "spread"@) by {
        reveal_strlit("field");
        reveal_strlit("spread");
        assert("field"@.len() != "spread"@.len());
    }
    assert("kind"@ != "spread"@) by {
        reveal_strlit("kind");
        reveal_strlit("spread");
        assert("kind"@.len() != "spread"@.len());
    }
    assert("value"@ != "spread"@) by {
        reveal_strlit("value");
        reveal_strlit("spread");
        assert("value"@.len() != "spread"@.len());
    }
    assert("sigma"@ != "spread"@) by {
        reveal_strlit("sigma");
        reveal_strlit("spread");
        assert("sigma"@.len() != "spread"@.len());
    }
    member_is_the_first(g, "spread"@, 4);
    assert("field"@ != "agreement"@) by {
        reveal_strlit("field");
        reveal_strlit("agreement");
        assert("field"@.len() != "agreement"@.len());
    }
    assert("kind"@ != "agreement"@) by {
        reveal_strlit("kind");
        reveal_strlit("agreement");
        assert("kind"@.len() != "agreement"@.len());
    }
    assert("value"@ != "agreement"@) by {
        reveal_strlit("value");
        reveal_strlit("agreement");
        assert("value"@.len() != "agreement"@.len());
    }
    assert("sigma"@ != "agreement"@) by {
        reveal_strlit("sigma");
        reveal_strlit("agreement");
        assert("sigma"@.len() != "agreement"@.len());
    }
    assert("spread"@ != "agreement"@) by {
        reveal_strlit("spread");
        reveal_strlit("agreement");
        assert("spread"@.len() != "agreement"@.len());
    }
    member_is_the_first(g, "agreement"@, 5);
    assert("field"@ != "n"@) by {
        reveal_strlit("field");
        reveal_strlit("n");
        assert("field"@.len() != "n"@.len());
    }
    assert("kind"@ != "n"@) by {
        reveal_strlit("kind");
        reveal_strlit("n");
        assert("kind"@.len() != "n"@.len());
    }
    assert("value"@ != "n"@) by {
        reveal_strlit("value");
        reveal_strlit("n");
        assert("value"@.len() != "n"@.len());
    }
    assert("sigma"@ != "n"@) by {
        reveal_strlit("sigma");
        reveal_strlit("n");
        assert("sigma"@.len() != "n"@.len());
    }
    assert("spread"@ != "n"@) by {
        reveal_strlit("spread");
        reveal_strlit("n");
        assert("spread"@.len() != "n"@.len());
    }
    assert("agreement"@ != "n"@) by {
        reveal_strlit("agreement");
        reveal_strlit("n");
        assert("agreement"@.len() != "n"@.len());
    }
    member_is_the_first(g, "n"@, 6);
    assert("num"@ != "bits"@) by {
        reveal_strlit("num");
        reveal_strlit("bits");
        assert("num"@.len() != "bits"@.len());
    }
    assert("num"@ != "text"@) by {
        reveal_strlit("num");
        reveal_strlit("text");
        assert("num"@.len() != "text"@.len());
    }
    assert("bits"@ != "text"@) by {
        reveal_strlit("bits");
        reveal_strlit("text");
        assert("bits"@[0] != "text"@[0]);
    }
}

} // verus!
