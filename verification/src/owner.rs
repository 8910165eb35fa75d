//! Which part of the server a path belongs to.
//!
//! Every part resolves its own paths. No two parts claim one path, so the order in which they are
//! asked changes no answer.

use vstd::prelude::*;

use crate::control::Id;
use crate::http::{page_named, target_of, TargetV};
use crate::text::{begins, ends, without_prefix};
use crate::{
    analyze, annotations, anomalies, attention, captures, classification, clusters, collections,
    control, datasets, decode, frontend, inspector,
};

verus! {

/// A part of the server.
#[derive(Clone, Copy, Debug, PartialEq, Eq, Structural)]
pub enum Owner {
    /// Control and the bookmarks.
    Control,
    /// Annotations.
    Annotations,
    /// Collections and markers.
    Collections,
    /// Decodes of an emitter.
    Decode,
    /// The classification of an emitter.
    Classification,
    /// Clusters.
    Clusters,
    /// Analyses.
    Analyze,
    /// Datasets.
    Datasets,
    /// The frame inspector.
    Inspector,
    /// Recorded captures.
    Captures,
    /// Sites, baselines, candidates and weights.
    Attention,
    /// Anomalies.
    Anomalies,
    /// Events of the front ends.
    FrontEnd,
}

/// A part claims a path: it answers there, if only with a refusal.
pub open spec fn claims(o: Owner, path: Seq<char>) -> bool {
    match o {
        Owner::Control => control::resolved("GET"@, path, None) is Some,
        Owner::Annotations => annotations::resolved("GET"@, path, None) is Some,
        Owner::Collections => collections::resolved("GET"@, path, None) is Some,
        Owner::Decode => decode::resolved("GET"@, path, None) is Some,
        Owner::Classification => classification::resolved("GET"@, path, None) is Some,
        Owner::Clusters => clusters::resolved("GET"@, path, false) is Some,
        Owner::Analyze => analyze::resolved("GET"@, path) is Some,
        Owner::Datasets => datasets::resolved("GET"@, path) is Some,
        Owner::Inspector => inspector::resolved("GET"@, path) is Some,
        Owner::Captures => captures::resolved("GET"@, path) is Some,
        Owner::Attention => attention::resolved("GET"@, path, None) is Some,
        Owner::Anomalies => anomalies::resolved("GET"@, path, None) is Some,
        Owner::FrontEnd => path == "/api/frontend/events"@,
    }
}

/// The part that a path belongs to, where it belongs to one.
pub fn owner(path: &str) -> (r: Option<Owner>)
    ensures
        match r {
            Some(o) => claims(o, path@),
            None => forall|o: Owner| !claims(o, path@),
        },
{
    if control::resolve("GET", path, None).is_some() {
        Some(Owner::Control)
    } else if annotations::resolve("GET", path, None).is_some() {
        Some(Owner::Annotations)
    } else if collections::resolve("GET", path, None).is_some() {
        Some(Owner::Collections)
    } else if decode::resolve("GET", path, None).is_some() {
        Some(Owner::Decode)
    } else if classification::resolve("GET", path, None).is_some() {
        Some(Owner::Classification)
    } else if clusters::resolve("GET", path, false).is_some() {
        Some(Owner::Clusters)
    } else if analyze::resolve("GET", path).is_some() {
        Some(Owner::Analyze)
    } else if datasets::resolve("GET", path).is_some() {
        Some(Owner::Datasets)
    } else if inspector::resolve("GET", path).is_some() {
        Some(Owner::Inspector)
    } else if captures::resolve("GET", path).is_some() {
        Some(Owner::Captures)
    } else if attention::resolve("GET", path, None).is_some() {
        Some(Owner::Attention)
    } else if anomalies::resolve("GET", path, None).is_some() {
        Some(Owner::Anomalies)
    } else if frontend::resolve("GET", path).is_some() {
        Some(Owner::FrontEnd)
    } else {
        None
    }
}

/// Whether a part answers at a path does not depend on the method, nor on whether the path names
/// something.
pub proof fn claims_are_of_paths(method: Seq<char>, path: Seq<char>, id: Option<Id>, is_id: bool)
    ensures
        control::resolved(method, path, id) is Some == claims(Owner::Control, path),
        annotations::resolved(method, path, id) is Some == claims(Owner::Annotations, path),
        collections::resolved(method, path, id) is Some == claims(Owner::Collections, path),
        decode::resolved(method, path, id) is Some == claims(Owner::Decode, path),
        classification::resolved(method, path, id) is Some == claims(Owner::Classification, path),
        clusters::resolved(method, path, is_id) is Some == claims(Owner::Clusters, path),
        analyze::resolved(method, path) is Some == claims(Owner::Analyze, path),
        datasets::resolved(method, path) is Some == claims(Owner::Datasets, path),
        inspector::resolved(method, path) is Some == claims(Owner::Inspector, path),
        captures::resolved(method, path) is Some == claims(Owner::Captures, path),
        attention::resolved(method, path, id) is Some == claims(Owner::Attention, path),
        anomalies::resolved(method, path, id) is Some == claims(Owner::Anomalies, path),
{
}

// ---------------------------------------------------------------------------------------------
// One owner
// ---------------------------------------------------------------------------------------------

/// The first letters behind `/api/`.
pub open spec fn initials(path: Seq<char>) -> (char, char, char) {
    (path[5], path[6], path[7])
}

/// The initials of the paths that a part claims.
pub open spec fn initials_of(o: Owner, c: (char, char, char)) -> bool {
    match o {
        Owner::Control => c == ('c', 'o', 'n') || c == ('b', 'o', 'o'),
        Owner::Annotations => c == ('a', 'n', 'n'),
        Owner::Collections => c == ('c', 'o', 'l') || c == ('m', 'a', 'r'),
        Owner::Decode => c == ('i', 'n', 'v'),
        Owner::Classification => c == ('i', 'n', 'v'),
        Owner::Clusters => c == ('c', 'l', 'u'),
        Owner::Analyze => c == ('a', 'n', 'a'),
        Owner::Datasets => c == ('d', 'a', 't'),
        Owner::Inspector => c == ('i', 'n', 's') || c == ('c', 'a', 'p'),
        Owner::Captures => c == ('c', 'a', 'p'),
        Owner::Attention => c == ('s', 'i', 't') || c == ('b', 'a', 's') || c == ('c', 'a', 'n')
            || c == ('a', 't', 't'),
        Owner::Anomalies => c == ('a', 'n', 'o'),
        Owner::FrontEnd => c == ('f', 'r', 'o'),
    }
}

proof fn begun(path: Seq<char>, p: Seq<char>)
    requires
        begins(path, p),
    ensures
        p.len() <= path.len(),
        forall|i: int| 0 <= i < p.len() ==> #[trigger] path[i] == p[i],
{
    assert forall|i: int| 0 <= i < p.len() implies #[trigger] path[i] == p[i] by {
        assert(path.take(p.len() as int)[i] == path[i]);
    }
}

proof fn ended(path: Seq<char>, p: Seq<char>)
    requires
        ends(path, p),
        p.len() > 0,
    ensures
        path.last() == p.last(),
{
    assert(path.skip(path.len() - p.len()).last() == path.last());
}

proof fn claimed(o: Owner, path: Seq<char>)
    requires
        claims(o, path),
    ensures
        path.len() > 7,
        path[1] == 'a',
        initials_of(o, initials(path)),
{
    match o {
        Owner::Control => {
            reveal_strlit("/api/control");
            reveal_strlit("/api/bookmarks");
            reveal_strlit("/api/control/");
            reveal_strlit("/api/bookmarks/");
            if begins(path, "/api/control/"@) {
                begun(path, "/api/control/"@);
            }
            if begins(path, "/api/bookmarks/"@) {
                begun(path, "/api/bookmarks/"@);
            }
        },
        Owner::Annotations => {
            reveal_strlit("/api/annotations");
            reveal_strlit("/api/annotations/");
            if begins(path, "/api/annotations/"@) {
                begun(path, "/api/annotations/"@);
            }
        },
        Owner::Collections => {
            reveal_strlit("/api/collections");
            reveal_strlit("/api/markers");
            reveal_strlit("/api/collections/");
            reveal_strlit("/api/markers/");
            if begins(path, "/api/collections/"@) {
                begun(path, "/api/collections/"@);
            }
            if begins(path, "/api/markers/"@) {
                begun(path, "/api/markers/"@);
            }
        },
        Owner::Decode => {
            reveal_strlit("/api/inventory/");
            if begins(path, "/api/inventory/"@) {
                begun(path, "/api/inventory/"@);
            }
        },
        Owner::Classification => {
            reveal_strlit("/api/inventory/");
            if begins(path, "/api/inventory/"@) {
                begun(path, "/api/inventory/"@);
            }
        },
        Owner::Clusters => {
            reveal_strlit("/api/clusters");
            begun(path, "/api/clusters"@);
        },
        Owner::Analyze => {
            reveal_strlit("/api/analyze");
            reveal_strlit("/api/analyze/");
            if begins(path, "/api/analyze/"@) {
                begun(path, "/api/analyze/"@);
            }
        },
        Owner::Datasets => {
            reveal_strlit("/api/datasets");
            reveal_strlit("/api/datasets/");
            if begins(path, "/api/datasets/"@) {
                begun(path, "/api/datasets/"@);
            }
        },
        Owner::Inspector => {
            reveal_strlit("/api/inspector/parse");
            reveal_strlit("/api/captures/");
            if begins(path, "/api/captures/"@) {
                begun(path, "/api/captures/"@);
            }
        },
        Owner::Captures => {
            reveal_strlit("/api/captures");
            reveal_strlit("/api/captures/");
            if begins(path, "/api/captures/"@) {
                begun(path, "/api/captures/"@);
            }
        },
        Owner::Attention => {
            reveal_strlit("/api/sites");
            reveal_strlit("/api/sites/current");
            reveal_strlit("/api/baselines");
            reveal_strlit("/api/baselines/slots");
            reveal_strlit("/api/baselines/refreeze");
            reveal_strlit("/api/candidates");
            reveal_strlit("/api/attention/weights");
            reveal_strlit("/api/sites/");
            if begins(path, "/api/sites/"@) {
                begun(path, "/api/sites/"@);
            }
        },
        Owner::Anomalies => {
            reveal_strlit("/api/anomalies");
            if begins(path, "/api/anomalies"@) {
                begun(path, "/api/anomalies"@);
            }
        },
        Owner::FrontEnd => {
            reveal_strlit("/api/frontend/events");
        },
    }
}

/// A path belongs to at most one part.
pub proof fn paths_have_one_owner(a: Owner, b: Owner, path: Seq<char>)
    requires
        claims(a, path),
        claims(b, path),
    ensures
        a == b,
{
    claimed(a, path);
    claimed(b, path);
    if claims(Owner::Decode, path) && claims(Owner::Classification, path) {
        reveal_strlit("/decode");
        reveal_strlit("/classification");
        let rest = without_prefix(path, "/api/inventory/"@)->0;
        ended(rest, "/decode"@);
        ended(rest, "/classification"@);
    }
    if claims(Owner::Inspector, path) && claims(Owner::Captures, path) {
        claimed(Owner::Captures, path);
        reveal_strlit("/api/inspector/parse");
        assert(path[5] == 'c');
        reveal_strlit("/api/captures");
        reveal_strlit("/api/captures/");
        reveal_strlit("/parse");
        reveal_strlit("/frames");
        let rest = without_prefix(path, "/api/captures/"@)->0;
        ended(rest, "/parse"@);
        assert(rest[rest.len() - 6] == rest.skip(rest.len() - 6)[0]);
        if ends(rest, "/frames"@) {
            ended(rest, "/frames"@);
        }
    }
}

/// No part claims the path of a page.
pub proof fn pages_are_nobodys(o: Owner, path: Seq<char>)
    requires
        page_named(path) is Some,
    ensures
        !claims(o, path),
{
    if claims(o, path) {
        claimed(o, path);
        reveal_strlit("/api/analyze");
        reveal_strlit("/api/analyze/");
        reveal_strlit("/api/inventory/");
        if begins(path, "/api/analyze/"@) {
            begun(path, "/api/analyze/"@);
            assert(path[10] == 'z');
        }
        if begins(path, "/api/inventory/"@) {
            begun(path, "/api/inventory/"@);
        }
        reveal_strlit("/api/streams");
        reveal_strlit("/api/history");
        reveal_strlit("/api/report");
        reveal_strlit("/api/floor");
        reveal_strlit("/api/inventory");
        reveal_strlit("/api/events");
        reveal_strlit("/api/analysis/strongest");
        reveal_strlit("/api/navigation");
        reveal_strlit("/api/timeline");
        reveal_strlit("/api/coverage");
        reveal_strlit("/api/tiles");
        reveal_strlit("/api/tiles/batch");
        reveal_strlit("/api/tiles/events");
        reveal_strlit("/api/status");
        reveal_strlit("/api/taxonomy");
    }
}

/// A path that a part claims goes to the routes, not to a feed, a stream or a file.
pub proof fn claimed_paths_go_to_the_routes(o: Owner, method: Seq<char>, path: Seq<char>)
    requires
        claims(o, path),
    ensures
        target_of(method, path) == TargetV::Routes,
{
    claimed(o, path);
    reveal_strlit("/ws/tiles/rows");
    reveal_strlit("/ws/tiles/changes");
    reveal_strlit("/ws/open/");
    reveal_strlit("/ws/");
    reveal_strlit("/api/outputs/");
    if begins(path, "/ws/open/"@) {
        begun(path, "/ws/open/"@);
    }
    if begins(path, "/ws/"@) {
        begun(path, "/ws/"@);
    }
    if begins(path, "/api/outputs/"@) {
        begun(path, "/api/outputs/"@);
    }
}

} // verus!
