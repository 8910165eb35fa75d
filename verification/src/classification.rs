//! An emitter's full classification.
//!
//! A classification never identifies anything, and an emitter whose identity is withheld answers
//! exactly as one that nothing has classified.

use vstd::prelude::*;

use crate::body::{read_result, Fail, FailV};
use crate::command::RepoError;
use crate::control::Id;
use crate::json::{at, member_is_the_first, no_fields, text_v, Fields, Json, JsonV};
use crate::store::{open_of, open_store, store_fail, store_fail_of};
use crate::text::{
    a_remainder_is_what_else_is_there, opt_text, same, strip_prefix, strip_suffix, without_prefix,
    without_suffix,
};

verus! {

/// The text in a path that should be an identity.
pub open spec fn path_id_of(path: Seq<char>) -> Option<Seq<char>> {
    match without_prefix(path, "/api/inventory/"@) {
        None => None,
        Some(rest) => without_suffix(rest, "/classification"@),
    }
}

/// [`path_id_of`].
pub fn path_id(path: &str) -> (r: Option<&str>)
    ensures
        opt_text(r) == path_id_of(path@),
{
    match strip_prefix(path, "/api/inventory/") {
        None => None,
        Some(rest) => strip_suffix(rest, "/classification"),
    }
}

/// What a method and a path are: `id` is the identity in the path, where it is one.
pub open spec fn resolved(method: Seq<char>, path: Seq<char>, id: Option<Id>) -> Option<
    Result<Id, Option<Seq<char>>>,
> {
    match path_id_of(path) {
        None => None,
        Some(_) => Some(
            match id {
                None => Err(None),
                Some(id) => if method == "GET"@ {
                    Ok(id)
                } else {
                    Err(Some("GET"@))
                },
            },
        ),
    }
}

/// What a resolved identity holds.
pub open spec fn resolved_view(r: Option<Result<Id, Option<&'static str>>>) -> Option<
    Result<Id, Option<Seq<char>>>,
> {
    match r {
        None => None,
        Some(Ok(id)) => Some(Ok(id)),
        Some(Err(allow)) => Some(Err(opt_text(allow))),
    }
}

/// [`resolved`].
pub fn resolve(method: &str, path: &str, id: Option<Id>) -> (r: Option<
    Result<Id, Option<&'static str>>,
>)
    ensures
        resolved_view(r) == resolved(method@, path@, id),
{
    match path_id(path) {
        None => None,
        Some(_) => Some(
            match id {
                None => Err(None),
                Some(id) => if same(method, "GET") {
                    Ok(id)
                } else {
                    Err(Some("GET"))
                },
            },
        ),
    }
}

/// The answer: an emitter, the classification that sets its family, and the latest one where that
/// is another.
pub open spec fn answer_v(emitter: Seq<char>, classification: JsonV, latest: JsonV) -> JsonV {
    JsonV::Object(
        no_fields().push(("emitter"@, text_v(emitter))).push(
            ("classification"@, classification),
        ).push(("latest"@, latest)),
    )
}

fn answer(emitter: &str, classification: Json, latest: Json) -> (r: Json)
    ensures
        r.view() == answer_v(emitter@, classification.view(), latest.view()),
{
    let mut f = Fields::new();
    f.put("emitter", Json::text(emitter));
    f.put("classification", classification);
    f.put("latest", latest);
    f.object()
}

/// An emitter with nothing to show.
pub fn empty(emitter: &str) -> (r: Json)
    ensures
        r.view() == answer_v(emitter@, JsonV::Null, JsonV::Null),
{
    answer(emitter, Json::Null, Json::Null)
}

/// A recorded classification.
#[derive(Debug)]
pub struct Recorded {
    /// All of it; a row of an old writer has none.
    pub detail: Option<Json>,
}

/// What a row shows.
pub open spec fn detail_of(r: Option<Recorded>) -> JsonV {
    match r {
        Some(r) => match r.detail {
            Some(d) => d.view(),
            None => JsonV::Null,
        },
        None => JsonV::Null,
    }
}

/// [`detail_of`].
pub fn detail(r: Option<Recorded>) -> (out: Json)
    ensures
        out.view() == detail_of(r),
{
    match r {
        Some(r) => match r.detail {
            Some(d) => d,
            None => Json::Null,
        },
        None => Json::Null,
    }
}

/// What the inventory says of an emitter: each read, up to the first that fails.
#[derive(Debug)]
pub struct Reads {
    /// The emitter that it now is.
    pub live: Result<String, RepoError>,
    /// Whether its identity is withheld.
    pub withheld: Result<bool, RepoError>,
    /// The classification that sets its family.
    pub current: Result<Option<Recorded>, RepoError>,
    /// The latest one.
    pub latest: Result<Option<Recorded>, RepoError>,
    /// The two are different rows.
    pub differ: bool,
}

/// What a store error is answered with.
pub open spec fn repo_fail_of(e: RepoError) -> FailV {
    store_fail_of(e, "inventory store"@, "no such inventory entry"@)
}

fn repo_fail(e: RepoError) -> (r: Fail)
    ensures
        r@ == repo_fail_of(e),
{
    store_fail(e, "inventory store", "no such inventory entry")
}

/// What is answered.
pub open spec fn read_of(store: bool, r: Reads) -> Result<JsonV, FailV> {
    match open_of(store, "no signal inventory on this server"@) {
        Err(f) => Err(f),
        Ok(_) => match r.live {
            Err(e) => Err(repo_fail_of(e)),
            Ok(live) => match r.withheld {
                Err(e) => Err(repo_fail_of(e)),
                Ok(true) => Ok(answer_v(live@, JsonV::Null, JsonV::Null)),
                Ok(false) => match r.current {
                    Err(e) => Err(repo_fail_of(e)),
                    Ok(current) => match r.latest {
                        Err(e) => Err(repo_fail_of(e)),
                        Ok(latest) => Ok(
                            answer_v(
                                live@,
                                detail_of(current),
                                if current is Some && latest is Some && r.differ {
                                    detail_of(latest)
                                } else {
                                    JsonV::Null
                                },
                            ),
                        ),
                    },
                },
            },
        },
    }
}

/// [`read_of`].
pub fn read(store: bool, r: Reads) -> (out: Result<Json, Fail>)
    ensures
        read_result(out) == read_of(store, r),
{
    match open_store(store, "no signal inventory on this server") {
        Ok(_) => {},
        Err(f) => return Err(f),
    }
    let live = match r.live {
        Ok(l) => l,
        Err(e) => return Err(repo_fail(e)),
    };
    match r.withheld {
        Err(e) => return Err(repo_fail(e)),
        Ok(true) => return Ok(empty(live.as_str())),
        Ok(false) => {},
    }
    let current = match r.current {
        Ok(c) => c,
        Err(e) => return Err(repo_fail(e)),
    };
    let latest = match r.latest {
        Ok(l) => l,
        Err(e) => return Err(repo_fail(e)),
    };
    let differs = current.is_some() && latest.is_some() && r.differ;
    let shown = if differs {
        detail(latest)
    } else {
        Json::Null
    };
    Ok(answer(live.as_str(), detail(current), shown))
}

/// A withheld emitter answers as one that nothing has classified, whatever was recorded of it.
pub proof fn withheld_is_not_told(r: Reads, nothing: Reads)
    requires
        r.live is Ok,
        r.withheld == Ok::<bool, RepoError>(true),
        nothing.live == r.live,
        nothing.withheld == Ok::<bool, RepoError>(false),
        nothing.current == Ok::<Option<Recorded>, RepoError>(None),
        nothing.latest == Ok::<Option<Recorded>, RepoError>(None),
    ensures
        read_of(true, r) == read_of(true, nothing),
{
}

/// The classification of an entry is below the path of its name.
pub proof fn classifications_are_below_their_entry(method: Seq<char>, name: Seq<char>, id: Id)
    ensures
        path_id_of("/api/inventory/"@ + (name + "/classification"@)) == Some(name),
        resolved("GET"@, "/api/inventory/"@ + (name + "/classification"@), Some(id)) == Some(
            Ok::<Id, Option<Seq<char>>>(id),
        ),
        method != "GET"@ ==> resolved(
            method,
            "/api/inventory/"@ + (name + "/classification"@),
            Some(id),
        ) == Some(Err::<Id, Option<Seq<char>>>(Some("GET"@))),
        resolved(method, "/api/inventory/"@ + (name + "/classification"@), None) == Some(
            Err::<Id, Option<Seq<char>>>(None),
        ),
{
    a_remainder_is_what_else_is_there(name + "/classification"@, "/api/inventory/"@);
    a_remainder_is_what_else_is_there(name, "/classification"@);
}

/// What is read of an entry is its classification and, where another has been recorded since, the
/// latest; of an entry that is not there, that it is not found.
pub proof fn the_latest_is_told_where_it_differs(r: Reads)
    ensures
        read_of(false, r) matches Err(f) && f.status == 503,
        r.live matches Err(e) ==> (e is NotFound ==> (read_of(true, r) matches Err(f) && f.status
            == 404)),
        read_of(true, r) matches Ok(j) ==> {
            &&& r.live matches Ok(live) && at(j, "emitter"@) == Some(JsonV::Text(live@))
            &&& r.withheld == Ok::<bool, RepoError>(false) ==> {
                &&& r.current matches Ok(c) && at(j, "classification"@) == Some(detail_of(c))
                &&& r.current == Ok::<Option<Recorded>, RepoError>(None) ==> at(j, "latest"@) == Some(
                    JsonV::Null,
                )
                &&& !r.differ ==> at(j, "latest"@) == Some(JsonV::Null)
                &&& r.differ && r.current->Ok_0 is Some ==> (r.latest matches Ok(l) && at(j, "latest"@)
                    == Some(detail_of(l)))
            }
        },
{
    if let Ok(j) = read_of(true, r) {
        let f = j->Object_0;
        member_is_the_first(f, "emitter"@, 0);
        assert("emitter"@ != "classification"@) by {
            reveal_strlit("emitter");
            reveal_strlit("classification");
            assert("emitter"@.len() != "classification"@.len());
        }
        member_is_the_first(f, "classification"@, 1);
        assert("emitter"@ != "latest"@) by {
            reveal_strlit("emitter");
            reveal_strlit("latest");
            assert("emitter"@.len() != "latest"@.len());
        }
        assert("classification"@ != "latest"@) by {
            reveal_strlit("classification");
            reveal_strlit("latest");
            assert("classification"@.len() != "latest"@.len());
        }
        member_is_the_first(f, "latest"@, 2);
    }
}

} // verus!
