//! The server: who is let in, which request goes where, and what each place answers.
//!
//! - **Token.** Reads may carry it in the query, everything else in the `Authorization` header
//!   only; missing, wrong or expired answers 401 before anything is revealed.
//! - **CORS.** `OPTIONS` is always refused, and so is a mutating request from another origin.
//! - **Methods.** A known path with the wrong method answers 405 with `Allow`.

use std::time::SystemTime;
use vstd::prelude::*;

use crate::auth::{clock, expired_of, Token};
use crate::bridge::REPLUMB_HANDSHAKE_WAIT;
use crate::control::Choices;
use crate::double::Real;
use crate::json::{
    at, member, member_set, no_fields, other_members_stay, seconds_v, text_v, with_member, Fields,
    Json, JsonV,
};
use crate::request::{
    bearer_of, crosses_origin, header_of, offered_token, shown, value_of, Request, RequestV,
};
use crate::response::{error_body, error_body_v, plain_v, respond, Response};
use crate::text::{
    a_remainder_is_what_else_is_there, begins, decimal, first_index, first_index_is_first, number,
    opt_text, same, same_but_case, same_ignoring_case, split, split_on, split_once_at,
    split_once_text, starts_with, strip_prefix, texts, trim, trimmed, without_prefix,
};

verus! {

// ---------------------------------------------------------------------------------------------
// Admission
// ---------------------------------------------------------------------------------------------

/// Whether a request is let in.
pub enum Admission {
    /// It is.
    Pass,
    /// It is answered with this error; where there is an audit reason, the refusal is audited.
    Refuse {
        /// The status.
        status: u16,
        /// The error.
        message: &'static str,
        /// Why, for the audit log.
        audit: Option<&'static str>,
    },
}

/// What an [`Admission`] holds.
#[verifier::ext_equal]
pub enum AdmissionV {
    /// It is let in.
    Pass,
    /// It is refused: status, error, audit reason.
    Refuse(u16, Seq<char>, Option<Seq<char>>),
}

impl Admission {
    /// What it holds.
    pub open spec fn view(&self) -> AdmissionV {
        match *self {
            Admission::Pass => AdmissionV::Pass,
            Admission::Refuse { status, message, audit } => AdmissionV::Refuse(
                status,
                message@,
                opt_text(audit),
            ),
        }
    }
}

/// A path that reveals or changes something: the API or a stream.
pub open spec fn is_api(path: Seq<char>) -> bool {
    begins(path, "/api/"@) || begins(path, "/ws/"@)
}

/// A request that changes state.
pub open spec fn mutates(r: RequestV) -> bool {
    r.method != "GET"@
}

/// Whether a request is let in, where `authorized` says whether its token verified.
pub open spec fn admission_of(r: RequestV, authorized: bool, loopback_peer: bool) -> AdmissionV {
    if r.method == "OPTIONS"@ {
        AdmissionV::Refuse(403, "cross-origin requests are not allowed (no CORS)"@, None)
    } else if !is_api(r.path) {
        AdmissionV::Pass
    } else if !authorized {
        AdmissionV::Refuse(
            401,
            if mutates(r) && value_of(r.query, "token"@) is Some {
                "control requests need the token in the Authorization header"@
            } else {
                "missing or invalid token"@
            },
            if mutates(r) {
                Some("unauthorized"@)
            } else {
                None
            },
        )
    } else if mutates(r) && crosses_origin(r.headers, loopback_peer) {
        AdmissionV::Refuse(403, "cross-origin control request refused"@, Some("cross-origin"@))
    } else {
        AdmissionV::Pass
    }
}

/// The token that authorises a request: the header's for a mutating one, else the header's or the
/// query's.
pub open spec fn authorising_token(r: RequestV) -> Option<Seq<char>> {
    if mutates(r) {
        bearer_of(r.headers)
    } else {
        offered_token(r)
    }
}

/// [`admission_of`].
pub fn let_in_given(req: &Request, authorized: bool, loopback_peer: bool) -> (r: Admission)
    ensures
        r@ == admission_of(req@, authorized, loopback_peer),
{
    if same(req.method.as_str(), "OPTIONS") {
        return Admission::Refuse {
            status: 403,
            message: "cross-origin requests are not allowed (no CORS)",
            audit: None,
        };
    }
    let path = req.path.as_str();
    if !(starts_with(path, "/api/") || starts_with(path, "/ws/")) {
        return Admission::Pass;
    }
    let mutating = req.mutating();
    if !authorized {
        let message = if mutating && req.param("token").is_some() {
            "control requests need the token in the Authorization header"
        } else {
            "missing or invalid token"
        };
        let audit = if mutating {
            Some("unauthorized")
        } else {
            None
        };
        return Admission::Refuse { status: 401, message, audit };
    }
    if mutating && req.cross_origin(loopback_peer) {
        return Admission::Refuse {
            status: 403,
            message: "cross-origin control request refused",
            audit: Some("cross-origin"),
        };
    }
    Admission::Pass
}

/// Whether a request is let in at `now`: its authorising token is the server's, not yet expired.
pub fn let_in_at(req: &Request, token: &Token, loopback_peer: bool, now: SystemTime) -> (r:
    Admission)
    ensures
        r@ == admission_of(
            req@,
            shown(authorising_token(req@), token.text(), expired_of(token.expiry(), now)),
            loopback_peer,
        ),
{
    let authorized = if req.mutating() {
        req.authorized_by_header_at(token, now)
    } else {
        req.authorized_at(token, now)
    };
    let_in_given(req, authorized, loopback_peer)
}

/// Whether a request is let in, at the clock's reading.
pub fn let_in(req: &Request, token: &Token, loopback_peer: bool) -> (r: Admission)
    ensures
        exists|now: SystemTime|
            r@ == admission_of(
                req@,
                shown(
                    authorising_token(req@),
                    token.text(),
                    #[trigger] expired_of(token.expiry(), now),
                ),
                loopback_peer,
            ),
{
    let_in_at(req, token, loopback_peer, clock())
}

/// Nothing of the API is reached without the token, nothing is changed by a token in the query or
/// from another origin, and no preflight is ever granted.
pub proof fn admission_is_earned(r: RequestV, authorized: bool, loopback_peer: bool)
    ensures
        admission_of(r, authorized, loopback_peer) is Pass && is_api(r.path) ==> authorized,
        admission_of(r, authorized, loopback_peer) is Pass && is_api(r.path) && mutates(r)
            ==> !crosses_origin(r.headers, loopback_peer),
        admission_of(r, authorized, loopback_peer) is Pass ==> r.method != "OPTIONS"@,
        mutates(r) ==> authorising_token(r) == bearer_of(r.headers),
        admission_of(r, false, loopback_peer) is Pass ==> !is_api(r.path),
{
}

/// Every refused mutating request on the API is audited; a refused read never is.
pub proof fn refused_changes_are_audited(r: RequestV, authorized: bool, loopback_peer: bool)
    ensures
        match admission_of(r, authorized, loopback_peer) {
            AdmissionV::Pass => true,
            AdmissionV::Refuse(_, _, audit) => r.method == "OPTIONS"@ || (audit is Some == mutates(
                r,
            )),
        },
{
}

// ---------------------------------------------------------------------------------------------
// Where a request goes
// ---------------------------------------------------------------------------------------------

/// Where a request goes before the control routes are asked.
pub enum Target<'a> {
    /// The row feed.
    Rows,
    /// The feed of changes of what is tuned.
    Changes,
    /// An on-demand stream.
    Open(&'a str),
    /// A stream.
    Stream(&'a str),
    /// A recorded output file: recording, name.
    OutputFile(&'a str, &'a str),
    /// 405: only GET is answered here.
    UseGet,
    /// The control routes, then the pages.
    Routes,
}

/// What a [`Target`] holds.
#[verifier::ext_equal]
pub enum TargetV {
    /// The row feed.
    Rows,
    /// The feed of changes of what is tuned.
    Changes,
    /// An on-demand stream.
    Open(Seq<char>),
    /// A stream.
    Stream(Seq<char>),
    /// A recorded output file.
    OutputFile(Seq<char>, Seq<char>),
    /// 405.
    UseGet,
    /// The control routes, then the pages.
    Routes,
}

impl<'a> Target<'a> {
    /// What it holds.
    pub open spec fn view(&self) -> TargetV {
        match *self {
            Target::Rows => TargetV::Rows,
            Target::Changes => TargetV::Changes,
            Target::Open(n) => TargetV::Open(n@),
            Target::Stream(n) => TargetV::Stream(n@),
            Target::OutputFile(i, n) => TargetV::OutputFile(i@, n@),
            Target::UseGet => TargetV::UseGet,
            Target::Routes => TargetV::Routes,
        }
    }
}

/// The recording and file that an output path names.
pub open spec fn output_file_of(path: Seq<char>) -> Option<(Seq<char>, Seq<char>)> {
    match without_prefix(path, "/api/outputs/"@) {
        Some(rest) => split_once_at(rest, "/files/"@),
        None => None,
    }
}

/// Where a request goes. The feeds stand before the streams, which would read them as ids.
pub open spec fn target_of(method: Seq<char>, path: Seq<char>) -> TargetV {
    let get = method == "GET"@;
    if path == "/ws/tiles/rows"@ && get {
        TargetV::Rows
    } else if path == "/ws/tiles/changes"@ && get {
        TargetV::Changes
    } else if begins(path, "/ws/open/"@) && get {
        TargetV::Open(path.skip("/ws/open/"@.len() as int))
    } else {
        match without_prefix(path, "/ws/"@) {
            Some(id) => if get {
                TargetV::Stream(id)
            } else {
                TargetV::UseGet
            },
            None => match output_file_of(path) {
                Some((id, name)) => if get {
                    TargetV::OutputFile(id, name)
                } else {
                    TargetV::UseGet
                },
                None => TargetV::Routes,
            },
        }
    }
}

/// [`target_of`].
pub fn target<'a>(method: &str, path: &'a str) -> (r: Target<'a>)
    ensures
        r@ == target_of(method@, path@),
{
    let get = same(method, "GET");
    if same(path, "/ws/tiles/rows") && get {
        return Target::Rows;
    }
    if same(path, "/ws/tiles/changes") && get {
        return Target::Changes;
    }
    if let Some(name) = strip_prefix(path, "/ws/open/") {
        if get {
            return Target::Open(name);
        }
    }
    if let Some(id) = strip_prefix(path, "/ws/") {
        return if get {
            Target::Stream(id)
        } else {
            Target::UseGet
        };
    }
    if let Some(rest) = strip_prefix(path, "/api/outputs/") {
        if let Some((id, name)) = split_once_text(rest, "/files/") {
            return if get {
                Target::OutputFile(id, name)
            } else {
                Target::UseGet
            };
        }
    }
    Target::Routes
}

/// What answers a path that no control route has.
#[derive(Clone, Copy, Debug, PartialEq, Eq, Structural)]
pub enum Page {
    /// Discovery.
    Streams,
    /// Spectrum history.
    History,
    /// The survey report.
    Report,
    /// The noise floor.
    Floor,
    /// The inventory.
    Inventory,
    /// The event catalogue.
    Events,
    /// The strongest signal.
    Strongest,
    /// The achievable windows.
    Navigation,
    /// The capture window.
    Timeline,
    /// The coverage map.
    Coverage,
    /// One tile.
    Tiles,
    /// Several tiles.
    TilesBatch,
    /// A tile's events.
    TileEvents,
    /// Pipeline counters.
    Status,
    /// The taxonomy.
    Taxonomy,
    /// 404.
    NoEndpoint,
    /// 405: only GET is answered here.
    UseGet,
    /// A file of the user interface.
    Static,
}

/// The page of a path, whatever the method.
pub open spec fn page_named(path: Seq<char>) -> Option<Page> {
    if path == "/api/streams"@ {
        Some(Page::Streams)
    } else if path == "/api/history"@ {
        Some(Page::History)
    } else if path == "/api/report"@ {
        Some(Page::Report)
    } else if path == "/api/floor"@ {
        Some(Page::Floor)
    } else if path == "/api/inventory"@ {
        Some(Page::Inventory)
    } else if path == "/api/events"@ {
        Some(Page::Events)
    } else if path == "/api/analysis/strongest"@ {
        Some(Page::Strongest)
    } else if path == "/api/navigation"@ {
        Some(Page::Navigation)
    } else if path == "/api/timeline"@ {
        Some(Page::Timeline)
    } else if path == "/api/coverage"@ {
        Some(Page::Coverage)
    } else if path == "/api/tiles"@ {
        Some(Page::Tiles)
    } else if path == "/api/tiles/batch"@ {
        Some(Page::TilesBatch)
    } else if path == "/api/tiles/events"@ {
        Some(Page::TileEvents)
    } else if path == "/api/status"@ {
        Some(Page::Status)
    } else if path == "/api/taxonomy"@ {
        Some(Page::Taxonomy)
    } else {
        None
    }
}

/// The page that answers a request: the named ones take GET only, anything else under `/api/` is
/// no endpoint, and files take GET only.
pub open spec fn page_of(method: Seq<char>, path: Seq<char>) -> Page {
    let get = method == "GET"@;
    match page_named(path) {
        Some(p) => if get {
            p
        } else {
            Page::UseGet
        },
        None => if begins(path, "/api/"@) {
            Page::NoEndpoint
        } else if get {
            Page::Static
        } else {
            Page::UseGet
        },
    }
}

/// [`page_named`].
pub fn named_page(path: &str) -> (r: Option<Page>)
    ensures
        r == page_named(path@),
{
    if same(path, "/api/streams") {
        Some(Page::Streams)
    } else if same(path, "/api/history") {
        Some(Page::History)
    } else if same(path, "/api/report") {
        Some(Page::Report)
    } else if same(path, "/api/floor") {
        Some(Page::Floor)
    } else if same(path, "/api/inventory") {
        Some(Page::Inventory)
    } else if same(path, "/api/events") {
        Some(Page::Events)
    } else if same(path, "/api/analysis/strongest") {
        Some(Page::Strongest)
    } else if same(path, "/api/navigation") {
        Some(Page::Navigation)
    } else if same(path, "/api/timeline") {
        Some(Page::Timeline)
    } else if same(path, "/api/coverage") {
        Some(Page::Coverage)
    } else if same(path, "/api/tiles") {
        Some(Page::Tiles)
    } else if same(path, "/api/tiles/batch") {
        Some(Page::TilesBatch)
    } else if same(path, "/api/tiles/events") {
        Some(Page::TileEvents)
    } else if same(path, "/api/status") {
        Some(Page::Status)
    } else if same(path, "/api/taxonomy") {
        Some(Page::Taxonomy)
    } else {
        None
    }
}

/// [`page_of`].
pub fn page(method: &str, path: &str) -> (r: Page)
    ensures
        r == page_of(method@, path@),
{
    let get = same(method, "GET");
    match named_page(path) {
        Some(p) => if get {
            p
        } else {
            Page::UseGet
        },
        None => if starts_with(path, "/api/") {
            Page::NoEndpoint
        } else if get {
            Page::Static
        } else {
            Page::UseGet
        },
    }
}

// ---------------------------------------------------------------------------------------------
// Answers
// ---------------------------------------------------------------------------------------------

/// An answer in JSON, before it is encoded.
pub struct Answer {
    /// The status.
    pub status: u16,
    /// The answer.
    pub body: Json,
    /// Further header lines, each ended.
    pub extra: String,
}

/// What an [`Answer`] holds.
pub struct AnswerV {
    /// The status.
    pub status: u16,
    /// The answer.
    pub body: JsonV,
    /// Further header lines.
    pub extra: Seq<char>,
}

impl Answer {
    /// What it holds.
    pub open spec fn view(&self) -> AnswerV {
        AnswerV { status: self.status, body: self.body.view(), extra: self.extra@ }
    }
}

/// An error in words.
pub open spec fn error_answer_v(status: u16, message: Seq<char>) -> AnswerV {
    AnswerV { status, body: error_body_v(message), extra: ""@ }
}

/// [`error_answer_v`].
pub fn respond_error(status: u16, message: &str) -> (r: Answer)
    ensures
        r@ == error_answer_v(status, message@),
{
    Answer { status, body: error_body(message), extra: "".to_owned() }
}

/// 405: only GET is answered here.
pub open spec fn use_get_v() -> AnswerV {
    AnswerV { status: 405, body: error_body_v("use GET"@), extra: "Allow: GET\r\n"@ }
}

/// [`use_get_v`].
pub fn use_get() -> (r: Answer)
    ensures
        r@ == use_get_v(),
{
    Answer { status: 405, body: error_body("use GET"), extra: "Allow: GET\r\n".to_owned() }
}

/// The refusal of an endpoint that is not there.
pub open spec fn no_endpoint_v() -> AnswerV {
    error_answer_v(404, "no such endpoint"@)
}

/// The answer to a page that is refused whatever its query says: another method, no endpoint, or,
/// where there is nothing that serves it, a page that is not there. `None` where the page or a file
/// answers.
pub open spec fn page_refusal_of(page: Page, served: bool) -> Option<AnswerV> {
    match page {
        Page::UseGet => Some(use_get_v()),
        Page::NoEndpoint => Some(no_endpoint_v()),
        Page::Static => None,
        Page::Status if !served => Some(error_answer_v(404, "no pipeline status"@)),
        _ => if served {
            None
        } else {
            Some(no_endpoint_v())
        },
    }
}

/// [`page_refusal_of`].
pub fn page_refusal(page: Page, served: bool) -> (r: Option<Answer>)
    ensures
        answer_opt(r) == page_refusal_of(page, served),
{
    match page {
        Page::UseGet => Some(use_get()),
        Page::NoEndpoint => Some(respond_error(404, "no such endpoint")),
        Page::Static => None,
        Page::Status => if served {
            None
        } else {
            Some(respond_error(404, "no pipeline status"))
        },
        _ => if served {
            None
        } else {
            Some(respond_error(404, "no such endpoint"))
        },
    }
}

/// What an optional answer holds.
pub open spec fn answer_opt(a: Option<Answer>) -> Option<AnswerV> {
    match a {
        Some(a) => Some(a@),
        None => None,
    }
}

/// The header line of what a path takes.
pub open spec fn allow_line(allow: Option<Seq<char>>) -> Seq<char> {
    match allow {
        Some(a) => "Allow: "@ + a + "\r\n"@,
        None => ""@,
    }
}

/// The answer of a control response.
pub fn control_answer(r: crate::body::CtlResponse) -> (a: Answer)
    ensures
        a@ == (AnswerV {
            status: r@.status,
            body: r@.body,
            extra: allow_line(r@.allow),
        }),
{
    let extra = match r.allow {
        Some(a) => String::from_str("Allow: ").concat(a).concat("\r\n"),
        None => "".to_owned(),
    };
    Answer { status: r.status, body: r.body, extra }
}

/// A query's refusal.
#[derive(Debug)]
pub struct ApiError {
    /// The HTTP status.
    pub status: u16,
    /// What went wrong, in words.
    pub message: String,
}

/// What an [`ApiError`] holds.
#[verifier::ext_equal]
pub struct ApiErrorV {
    /// The HTTP status.
    pub status: u16,
    /// What went wrong, in words.
    pub message: Seq<char>,
}

/// The value, or what the refusal holds.
pub open spec fn api_outcome<T>(r: Result<T, ApiError>) -> Result<T, ApiErrorV> {
    match r {
        Ok(x) => Ok(x),
        Err(e) => Err(e@),
    }
}

impl ApiError {
    /// What it holds.
    pub open spec fn view(&self) -> ApiErrorV {
        ApiErrorV { status: self.status, message: self.message@ }
    }

    /// A refusal.
    pub fn new(status: u16, message: &str) -> (r: ApiError)
        ensures
            r@ == (ApiErrorV { status, message: message@ }),
    {
        ApiError { status, message: message.to_owned() }
    }

    /// A refusal in built words.
    pub fn of(status: u16, message: String) -> (r: ApiError)
        ensures
            r@ == (ApiErrorV { status, message: message@ }),
    {
        ApiError { status, message }
    }

    /// Its answer.
    pub fn answer(&self) -> (r: Answer)
        ensures
            r@ == error_answer_v(self@.status, self@.message),
    {
        respond_error(self.status, self.message.as_str())
    }
}

/// What there is of a store.
#[derive(Clone, Copy, Debug, PartialEq, Eq, Structural)]
pub enum Store {
    /// Nothing.
    Absent,
    /// A store that a failed writer left unreadable.
    Poisoned,
    /// A store.
    Ready,
}

/// A refusal.
pub open spec fn api_error_v(status: u16, message: Seq<char>) -> ApiErrorV {
    ApiErrorV { status, message }
}

/// A store that must be there.
pub open spec fn store_of(s: Store, missing: Seq<char>, poisoned: Seq<char>) -> Result<
    (),
    ApiErrorV,
> {
    match s {
        Store::Absent => Err(api_error_v(404, missing)),
        Store::Poisoned => Err(api_error_v(500, poisoned)),
        Store::Ready => Ok(()),
    }
}

fn need(s: Store, missing: &str, poisoned: &str) -> (r: Result<(), ApiError>)
    ensures
        api_outcome(r) == store_of(s, missing@, poisoned@),
{
    match s {
        Store::Absent => Err(ApiError::new(404, missing)),
        Store::Poisoned => Err(ApiError::new(500, poisoned)),
        Store::Ready => Ok(()),
    }
}

/// Which store's spectrum history answers.
#[derive(Clone, Copy, Debug, PartialEq, Eq, Structural)]
pub enum HistorySource {
    /// The history store.
    History,
    /// The floor product's uncalibrated pyramid.
    Floor,
}

/// The spectrum history: the history store, else the floor product's pyramid.
pub open spec fn history_source_of(history: Store, floor: Store) -> Result<
    HistorySource,
    ApiErrorV,
> {
    if !(history is Absent) {
        match store_of(history, ""@, "history store poisoned"@) {
            Ok(_) => Ok(HistorySource::History),
            Err(e) => Err(e),
        }
    } else {
        match store_of(floor, "no spectrum history on this server"@, "floor store poisoned"@) {
            Ok(_) => Ok(HistorySource::Floor),
            Err(e) => Err(e),
        }
    }
}

/// [`history_source_of`].
pub fn with_history(history: Store, floor: Store) -> (r: Result<HistorySource, ApiError>)
    ensures
        api_outcome(r) == history_source_of(history, floor),
{
    match history {
        Store::Ready => Ok(HistorySource::History),
        Store::Poisoned => Err(ApiError::new(500, "history store poisoned")),
        Store::Absent => match need(
            floor,
            "no spectrum history on this server",
            "floor store poisoned",
        ) {
            Ok(_) => Ok(HistorySource::Floor),
            Err(e) => Err(e),
        },
    }
}

/// The floor product must be there.
pub fn floor(s: Store) -> (r: Result<(), ApiError>)
    ensures
        api_outcome(r) == store_of(
            s,
            "no floor product on this server"@,
            "floor store poisoned"@,
        ),
{
    need(s, "no floor product on this server", "floor store poisoned")
}

/// The inventory must be there.
pub fn inventory(s: Store) -> (r: Result<(), ApiError>)
    ensures
        api_outcome(r) == store_of(
            s,
            "no signal inventory on this server"@,
            "inventory store poisoned"@,
        ),
{
    need(s, "no signal inventory on this server", "inventory store poisoned")
}

/// Whether the event catalogue is answered with the spectrum history: the inventory must be there;
/// a server without history still serves the catalogue.
pub open spec fn events_source_of(inventory: Store, history: Store) -> Result<bool, ApiErrorV> {
    match store_of(
        inventory,
        "no signal inventory on this server"@,
        "inventory store poisoned"@,
    ) {
        Err(e) => Err(e),
        Ok(_) => match history {
            Store::Absent => Ok(false),
            Store::Poisoned => Err(api_error_v(500, "history store poisoned"@)),
            Store::Ready => Ok(true),
        },
    }
}

/// [`events_source_of`].
pub fn events(inventory_store: Store, history: Store) -> (r: Result<bool, ApiError>)
    ensures
        api_outcome(r) == events_source_of(inventory_store, history),
{
    match inventory(inventory_store) {
        Err(e) => Err(e),
        Ok(_) => match history {
            Store::Absent => Ok(false),
            Store::Poisoned => Err(ApiError::new(500, "history store poisoned")),
            Store::Ready => Ok(true),
        },
    }
}

/// A pipeline status as it is answered: with the server's wall clock, and the tile cache's bounds
/// where there is a cache; a status that is no object stays as it is.
pub open spec fn status_v(v: JsonV, t_ns: i64, cache: Option<JsonV>) -> JsonV {
    match v {
        JsonV::Object(o) => {
            let t = with_member(o, "t"@, seconds_v(t_ns));
            JsonV::Object(
                match cache {
                    Some(c) => with_member(t, "tile_cache"@, c),
                    None => t,
                },
            )
        },
        other => other,
    }
}

/// [`status_v`].
pub fn status(v: Json, t_ns: i64, cache: Option<Json>) -> (r: Json)
    ensures
        r.view() == status_v(v.view(), t_ns, crate::dispatch::json_opt(cache)),
{
    match v {
        Json::Object(o) => {
            let mut f = Fields { list: o };
            f.set("t".to_owned(), Json::seconds(t_ns));
            if let Some(c) = cache {
                f.set("tile_cache".to_owned(), c);
            }
            f.object()
        },
        other => other,
    }
}

/// The larger of two numbers; a NaN gives way to the other.
pub open spec fn larger(a: Real, b: Real) -> Real {
    if a.nan() {
        b
    } else if b.nan() {
        a
    } else if a.key() < b.key() {
        b
    } else {
        a
    }
}

/// The widest of some spans.
pub open spec fn widest(v: Seq<Real>) -> Option<Real>
    decreases v.len(),
{
    if v.len() == 0 {
        None
    } else {
        match widest(v.drop_last()) {
            None => Some(v.last()),
            Some(a) => Some(larger(a, v.last())),
        }
    }
}

/// The widest instantaneous bandwidth that the run can produce: the widest that any front end can
/// deliver, else the running segment's own rate where that is a positive number. `None` where
/// nothing can say: not knowing the window is no evidence that a span fits inside it.
pub open spec fn max_live_span_of(spans: Seq<Real>, run_rate: Option<Real>) -> Option<Real> {
    match widest(spans) {
        Some(hz) => Some(hz),
        None => match run_rate {
            Some(hz) if hz.finite() && hz.key() > 0 => Some(hz),
            _ => None,
        },
    }
}

fn find_widest(spans: &Vec<Real>) -> (r: Option<Real>)
    ensures
        r == widest(spans@),
{
    let mut best: Option<Real> = None;
    let mut i: usize = 0;
    assert(spans@.take(0) =~= Seq::empty());
    while i < spans.len()
        invariant
            i <= spans@.len(),
            best == widest(spans@.take(i as int)),
        decreases spans@.len() - i,
    {
        let hz = spans[i];
        assert(spans@.take(i + 1).drop_last() =~= spans@.take(i as int));
        best = Some(
            match best {
                None => hz,
                Some(a) => if a.unsigned_bits() > crate::double::INFINITE {
                    hz
                } else if hz.unsigned_bits() > crate::double::INFINITE {
                    a
                } else if a.order() < hz.order() {
                    hz
                } else {
                    a
                },
            },
        );
        i += 1;
    }
    assert(spans@.take(spans@.len() as int) =~= spans@);
    best
}

/// The widest rate that a front end offers: the span it can deliver is what a user could retune to,
/// not only what it is set to now.
pub open spec fn widest_offered(c: Choices) -> Option<Real> {
    match c {
        Choices::Continuous(_, hi) => Some(hi),
        Choices::Discrete(v) => widest(v@),
    }
}

/// [`widest_offered`].
pub fn widest_rate(c: &Choices) -> (r: Option<Real>)
    ensures
        r == widest_offered(*c),
{
    match c {
        Choices::Continuous(_, hi) => Some(*hi),
        Choices::Discrete(v) => find_widest(v),
    }
}

/// [`max_live_span_of`].
pub fn max_live_span_hz(spans: &Vec<Real>, run_rate: Option<Real>) -> (r: Option<Real>)
    ensures
        r == max_live_span_of(spans@, run_rate),
{
    match find_widest(spans) {
        Some(hz) => Some(hz),
        None => match run_rate {
            Some(hz) => if hz.is_finite() && hz.order() > 0 {
                Some(hz)
            } else {
                None
            },
            None => None,
        },
    }
}

/// The widest span is one of those given and none of them is wider.
pub proof fn widest_is_the_maximum(v: Seq<Real>)
    requires
        v.len() > 0,
        forall|i: int| 0 <= i < v.len() ==> !(#[trigger] v[i]).nan(),
    ensures
        widest(v) is Some,
        v.contains(widest(v)->0),
        forall|i: int| 0 <= i < v.len() ==> (#[trigger] v[i]).at_most(widest(v)->0),
    decreases v.len(),
{
    let t = v.drop_last();
    if t.len() > 0 {
        assert forall|i: int| 0 <= i < t.len() implies !(#[trigger] t[i]).nan() by {
            assert(t[i] == v[i]);
        }
        widest_is_the_maximum(t);
        let w = widest(t)->0;
        let k = choose|k: int| 0 <= k < t.len() && t[k] == w;
        assert(v[k] == w);
        assert(v[v.len() - 1] == v.last());
        assert forall|i: int| 0 <= i < v.len() implies (#[trigger] v[i]).at_most(
            widest(v)->0,
        ) by {
            if i < t.len() {
                assert(t[i] == v[i]);
            }
        }
    } else {
        assert(t =~= Seq::empty());
        assert(v[0] == v.last());
    }
}

// ---------------------------------------------------------------------------------------------
// Streams
// ---------------------------------------------------------------------------------------------

/// Some member of a list is `want`, white space and the case of letters aside.
pub open spec fn any_names(parts: Seq<Seq<char>>, want: Seq<char>) -> bool {
    exists|i: int| 0 <= i < parts.len() && same_but_case(trimmed(#[trigger] parts[i]), want)
}

/// Whether a header's list names `want`.
pub open spec fn lists(value: Option<Seq<char>>, want: Seq<char>) -> bool {
    match value {
        Some(v) => any_names(split_on(v, ','), want),
        None => false,
    }
}

fn has_token(value: Option<&str>, want: &str) -> (r: bool)
    ensures
        r == lists(opt_text(value), want@),
{
    let v = match value {
        Some(v) => v,
        None => return false,
    };
    let parts = split(v, ',');
    let ghost t = texts(parts@);
    let mut i: usize = 0;
    while i < parts.len()
        invariant
            t == texts(parts@),
            t == split_on(v@, ','),
            opt_text(value) == Some(v@),
            i <= parts@.len(),
            forall|k: int| 0 <= k < i ==> !same_but_case(trimmed(#[trigger] t[k]), want@),
        decreases parts@.len() - i,
    {
        assert(t[i as int] == parts@[i as int]@);
        if same_ignoring_case(trim(parts[i]), want) {
            assert(any_names(t, want@));
            return true;
        }
        i += 1;
    }
    false
}

/// What a WebSocket handshake asks for.
pub enum Upgrade<'a> {
    /// The key to accept.
    Key(&'a str),
    /// It is answered with this error.
    Error(u16, &'static str),
    /// Only version 13 is spoken.
    Version,
}

/// What an [`Upgrade`] holds.
#[verifier::ext_equal]
pub enum UpgradeV {
    /// The key to accept.
    Key(Seq<char>),
    /// It is answered with this error.
    Error(u16, Seq<char>),
    /// Only version 13 is spoken.
    Version,
}

impl<'a> Upgrade<'a> {
    /// What it holds.
    pub open spec fn view(&self) -> UpgradeV {
        match *self {
            Upgrade::Key(k) => UpgradeV::Key(k@),
            Upgrade::Error(s, m) => UpgradeV::Error(s, m@),
            Upgrade::Version => UpgradeV::Version,
        }
    }
}

/// What a handshake's headers ask for.
pub open spec fn upgrade_of(h: Seq<(Seq<char>, Seq<char>)>) -> UpgradeV {
    if !lists(header_of(h, "upgrade"@), "websocket"@) || !lists(
        header_of(h, "connection"@),
        "upgrade"@,
    ) {
        UpgradeV::Error(426, "WebSocket upgrade required"@)
    } else if header_of(h, "sec-websocket-version"@) is None || trimmed(
        header_of(h, "sec-websocket-version"@)->0,
    ) != "13"@ {
        UpgradeV::Version
    } else {
        match header_of(h, "sec-websocket-key"@) {
            Some(k) => UpgradeV::Key(trimmed(k)),
            None => UpgradeV::Error(400, "missing Sec-WebSocket-Key"@),
        }
    }
}

/// [`upgrade_of`].
pub fn upgrade<'a>(req: &'a Request) -> (r: Upgrade<'a>)
    ensures
        r@ == upgrade_of(req@.headers),
{
    if !has_token(req.header("upgrade"), "websocket") || !has_token(
        req.header("connection"),
        "upgrade",
    ) {
        return Upgrade::Error(426, "WebSocket upgrade required");
    }
    match req.header("sec-websocket-version") {
        Some(v) => if !same(trim(v), "13") {
            return Upgrade::Version;
        },
        None => return Upgrade::Version,
    }
    match req.header("sec-websocket-key") {
        Some(k) => Upgrade::Key(trim(k)),
        None => Upgrade::Error(400, "missing Sec-WebSocket-Key"),
    }
}

/// The refusal of another version.
pub fn version_required() -> (r: Response)
    ensures
        r@ == plain_v(
            426,
            "text/plain"@,
            "Sec-WebSocket-Version: 13\r\n"@,
            vstd::utf8::encode_utf8("WebSocket version 13 required"@),
        ),
{
    let body = "WebSocket version 13 required".as_bytes_vec();
    respond(426, "text/plain", "Sec-WebSocket-Version: 13\r\n", body)
}

/// The accept value that `tungstenite` derives from a handshake key.
pub uninterp spec fn accept_key(key: Seq<u8>) -> Seq<char>;

/// `tungstenite::handshake::derive_accept_key`: the SHA-1 of the key and a fixed text, in base 64.
#[verifier::external_body]
fn derive_accept_key(key: &[u8]) -> (r: String)
    ensures
        r@ == accept_key(key@),
{
    tungstenite::handshake::derive_accept_key(key)
}

/// The head that switches protocols, with the accept value given.
pub open spec fn switching_head(accept: Seq<char>) -> Seq<char> {
    "HTTP/1.1 101 Switching Protocols\r\nUpgrade: websocket\r\nConnection: Upgrade\r\nSec-WebSocket-Accept: "@
        + accept + "\r\n\r\n"@
}

/// [`switching_head`].
pub fn switching(accept: &str) -> (r: String)
    ensures
        r@ == switching_head(accept@),
{
    String::from_str(
        "HTTP/1.1 101 Switching Protocols\r\nUpgrade: websocket\r\nConnection: Upgrade\r\nSec-WebSocket-Accept: ",
    ).concat(accept).concat("\r\n\r\n")
}

/// The head that switches protocols for a handshake key.
pub fn switch_protocols(key: &str) -> (r: String)
    ensures
        r@ == switching_head(accept_key(vstd::utf8::encode_utf8(key@))),
{
    let accept = derive_accept_key(key.as_bytes());
    switching(accept.as_str())
}

/// How attaching a consumer to a stream went.
#[derive(Clone, Copy, Debug, PartialEq, Eq, Structural)]
pub enum AttachOutcome {
    /// It is attached.
    Attached,
    /// The publisher finished, but a successor is coming under the same id.
    BetweenWindows,
    /// The stream never leaves this machine.
    LocalOnly,
    /// There are this many consumers already.
    TooManyConsumers(u64),
    /// The stream is over.
    Finished,
    /// Anything else.
    Failed,
}

/// What came of a handshake's last step.
#[derive(Clone, Copy, Debug, PartialEq, Eq, Structural)]
pub enum WsEvent {
    /// The stream was looked up: it is offered or not.
    Looked(bool),
    /// Attaching went this way.
    Tried(AttachOutcome),
    /// The wait is over: a newer offer came or none did.
    Waited(bool),
}

/// What a handshake does next.
pub enum WsStep {
    /// Attach to what is offered.
    Attach,
    /// Watch the attached peer.
    Watch,
    /// Wait for the next offer of the stream, for [`handshake_left`] at most.
    Wait,
    /// Answer with this.
    Answer(Answer),
}

/// What a [`WsStep`] holds.
pub enum WsStepV {
    /// Attach to what is offered.
    Attach,
    /// Watch the attached peer.
    Watch,
    /// Wait for the next offer.
    Wait,
    /// Answer with this.
    Answer(AnswerV),
}

impl WsStep {
    /// What it holds.
    pub open spec fn view(&self) -> WsStepV {
        match *self {
            WsStep::Attach => WsStepV::Attach,
            WsStep::Watch => WsStepV::Watch,
            WsStep::Wait => WsStepV::Wait,
            WsStep::Answer(a) => WsStepV::Answer(a@),
        }
    }
}

/// What a handshake does once attaching has gone this way. Between windows is not over: it waits.
pub open spec fn attach_step_of(o: AttachOutcome) -> WsStepV {
    match o {
        AttachOutcome::Attached => WsStepV::Watch,
        AttachOutcome::BetweenWindows => WsStepV::Wait,
        AttachOutcome::LocalOnly => WsStepV::Answer(
            error_answer_v(
                403,
                "stream is local-only (own-key-decrypted); it is never served over the bridge"@,
            ),
        ),
        AttachOutcome::TooManyConsumers(max) => WsStepV::Answer(
            error_answer_v(503, "consumer limit "@ + decimal(max as nat) + " reached"@),
        ),
        AttachOutcome::Finished => WsStepV::Answer(error_answer_v(410, "stream finished"@)),
        AttachOutcome::Failed => WsStepV::Answer(error_answer_v(500, "subscription failed"@)),
    }
}

/// [`attach_step_of`].
pub fn attach_step(o: AttachOutcome) -> (r: WsStep)
    ensures
        r@ == attach_step_of(o),
{
    match o {
        AttachOutcome::Attached => WsStep::Watch,
        AttachOutcome::BetweenWindows => WsStep::Wait,
        AttachOutcome::LocalOnly => WsStep::Answer(
            respond_error(
                403,
                "stream is local-only (own-key-decrypted); it is never served over the bridge",
            ),
        ),
        AttachOutcome::TooManyConsumers(max) => {
            let n = number(max);
            let m = String::from_str("consumer limit ").concat(n.as_str()).concat(" reached");
            WsStep::Answer(respond_error(503, m.as_str()))
        },
        AttachOutcome::Finished => WsStep::Answer(respond_error(410, "stream finished")),
        AttachOutcome::Failed => WsStep::Answer(respond_error(500, "subscription failed")),
    }
}

/// The answer where the wait for the next offer ran out: not now, rather than gone.
pub open spec fn still_replumbing_v() -> AnswerV {
    AnswerV {
        status: 503,
        body: JsonV::Object(
            no_fields().push(
                ("error"@, text_v("the stream is moving to a new window; try again"@)),
            ).push(("code"@, text_v("replumbing"@))),
        ),
        extra: "Retry-After: 1\r\n"@,
    }
}

/// [`still_replumbing_v`].
pub fn still_replumbing() -> (r: Answer)
    ensures
        r@ == still_replumbing_v(),
{
    let mut f = Fields::new();
    f.put("error", Json::text("the stream is moving to a new window; try again"));
    f.put("code", Json::text("replumbing"));
    Answer { status: 503, body: f.object(), extra: "Retry-After: 1\r\n".to_owned() }
}

/// The refusal of a stream that is not offered.
pub fn offered_step(offered: bool) -> (r: Option<Answer>)
    ensures
        r is None == offered,
        r matches Some(a) ==> a@ == error_answer_v(404, "no such stream"@),
{
    if offered {
        None
    } else {
        Some(respond_error(404, "no such stream"))
    }
}

/// What a handshake does after what came: a stream that is not offered is not there, one whose next
/// offer does not come in time is still moving, and a newer offer is attached to like the first.
pub open spec fn handshake_of(e: WsEvent) -> WsStepV {
    match e {
        WsEvent::Looked(true) => WsStepV::Attach,
        WsEvent::Looked(false) => WsStepV::Answer(error_answer_v(404, "no such stream"@)),
        WsEvent::Tried(o) => attach_step_of(o),
        WsEvent::Waited(true) => WsStepV::Attach,
        WsEvent::Waited(false) => WsStepV::Answer(still_replumbing_v()),
    }
}

/// [`handshake_of`].
pub fn handshake(e: WsEvent) -> (r: WsStep)
    ensures
        r@ == handshake_of(e),
{
    match e {
        WsEvent::Looked(offered) => match offered_step(offered) {
            Some(a) => WsStep::Answer(a),
            None => WsStep::Attach,
        },
        WsEvent::Tried(o) => attach_step(o),
        WsEvent::Waited(newer) => if newer {
            WsStep::Attach
        } else {
            WsStep::Answer(still_replumbing())
        },
    }
}

/// How long a handshake that began `elapsed` nanoseconds ago may still wait: all its waits together
/// take [`REPLUMB_HANDSHAKE_WAIT`] at most.
pub fn handshake_left(elapsed: u64) -> (r: u64)
    ensures
        r == (if elapsed <= REPLUMB_HANDSHAKE_WAIT {
            REPLUMB_HANDSHAKE_WAIT - elapsed
        } else {
            0
        }),
{
    if elapsed <= REPLUMB_HANDSHAKE_WAIT {
        REPLUMB_HANDSHAKE_WAIT - elapsed
    } else {
        0
    }
}

/// A stream is said to be gone only where it has finished, and not to be there only where it is not
/// offered: one between windows is neither, however long it takes. Nothing is attached to but an
/// offer.
pub proof fn gone_means_finished(e: WsEvent)
    ensures
        handshake_of(e) matches WsStepV::Answer(a) ==> {
            &&& a.status == 410 <==> e == WsEvent::Tried(AttachOutcome::Finished)
            &&& a.status == 404 <==> e == WsEvent::Looked(false)
            &&& e == WsEvent::Waited(false) ==> a == still_replumbing_v()
        },
        handshake_of(e) is Attach <==> e == WsEvent::Looked(true) || e == WsEvent::Waited(true),
        handshake_of(e) is Wait <==> e == WsEvent::Tried(AttachOutcome::BetweenWindows),
{
}

// ---------------------------------------------------------------------------------------------
// Files
// ---------------------------------------------------------------------------------------------

/// Largest static file served, bytes.
pub const MAX_STATIC: u64 = 33_554_432;

/// The content-security policy that every page of the interface carries.
pub open spec fn csp() -> Seq<char> {
    "Content-Security-Policy: default-src 'self'; connect-src 'self' ws: wss:; img-src 'self' data:; style-src 'self' 'unsafe-inline'; base-uri 'none'; frame-ancestors 'none'\r\n"@
}

/// The page served where the interface is not built.
pub open spec fn not_built() -> Seq<char> {
    "<!doctype html><title>hackriff</title><p>UI not built: run <code>just ui-build</code>, then reload.</p>"@
}

/// A character that may stand in the name of a static file.
pub open spec fn plain_char(c: char) -> bool {
    '0' <= c <= '9' || 'A' <= c <= 'Z' || 'a' <= c <= 'z' || c == '.' || c == '_' || c == '-'
}

/// A path segment that names a file below the directory: not empty, not hidden, plain characters.
pub open spec fn plain_segment(s: Seq<char>) -> bool {
    s.len() > 0 && s[0] != '.' && forall|i: int| 0 <= i < s.len() ==> plain_char(#[trigger] s[i])
}

/// Every segment is plain.
pub open spec fn all_plain(parts: Seq<Seq<char>>) -> bool {
    forall|i: int| 0 <= i < parts.len() ==> plain_segment(#[trigger] parts[i])
}

/// The file that a path names, relative to the directory of the interface.
pub open spec fn relative(path: Seq<char>) -> Seq<char> {
    if path == "/"@ {
        "index.html"@
    } else {
        path.skip(1)
    }
}

/// What a path asks of the directory of the interface.
pub enum StaticStep {
    /// Read this file, relative to the directory, where it is a file below it of at most
    /// [`MAX_STATIC`] bytes; then answer with [`static_found`] or [`static_missing`].
    Read(String),
    /// Answer with [`static_missing`].
    Missing,
}

fn segment_is_plain(s: &str) -> (r: bool)
    ensures
        r == plain_segment(s@),
{
    let v = crate::text::chars_of(s);
    if v.len() == 0 || v[0] == '.' {
        return false;
    }
    let mut i: usize = 0;
    while i < v.len()
        invariant
            v@ == s@,
            i <= v@.len(),
            forall|k: int| 0 <= k < i ==> plain_char(#[trigger] v@[k]),
        decreases v@.len() - i,
    {
        let c = v[i];
        if !(('0' <= c && c <= '9') || ('A' <= c && c <= 'Z') || ('a' <= c && c <= 'z') || c == '.'
            || c == '_' || c == '-') {
            assert(!plain_char(s@[i as int]));
            return false;
        }
        i += 1;
    }
    true
}

/// What a path asks: a file is read only where every segment of its name is plain, so that no path
/// leaves the directory. The path must begin with an ASCII character.
pub fn static_step(path: &str, has_dist: bool) -> (r: StaticStep)
    requires
        path@.len() > 0,
        path@[0] <= '\u{7f}',
    ensures
        match r {
            StaticStep::Read(rel) => has_dist && all_plain(split_on(relative(path@), '/')) && rel@
                == relative(path@),
            StaticStep::Missing => !has_dist || !all_plain(split_on(relative(path@), '/')),
        },
{
    let rel = if same(path, "/") {
        "index.html".to_owned()
    } else {
        let n = path.unicode_len();
        let t = path.substring_char(1, n);
        assert(t@ =~= path@.skip(1));
        t.to_owned()
    };
    let parts = split(rel.as_str(), '/');
    let ghost t = texts(parts@);
    let mut i: usize = 0;
    while i < parts.len()
        invariant
            t == texts(parts@),
            t == split_on(relative(path@), '/'),
            i <= parts@.len(),
            forall|k: int| 0 <= k < i ==> plain_segment(#[trigger] t[k]),
        decreases parts@.len() - i,
    {
        assert(t[i as int] == parts@[i as int]@);
        if !segment_is_plain(parts[i]) {
            return StaticStep::Missing;
        }
        i += 1;
    }
    assert(all_plain(t));
    if has_dist {
        StaticStep::Read(rel)
    } else {
        StaticStep::Missing
    }
}

/// A plain segment is no way up and no hidden file.
pub proof fn plain_segments_stay_below(s: Seq<char>)
    requires
        plain_segment(s),
    ensures
        s != ".."@,
        s != "."@,
        s.len() > 0,
        !s.contains('/'),
{
    reveal_strlit("..");
    reveal_strlit(".");
    if s.contains('/') {
        let i = choose|i: int| 0 <= i < s.len() && s[i] == '/';
        assert(plain_char(s[i]));
    }
}

/// The extension of the last component of a path: what stands behind its last dot, where the dot
/// is not its first character.
pub open spec fn extension_of(path: Seq<char>) -> Option<Seq<char>> {
    let name = split_on(path, '/').last();
    let parts = split_on(name, '.');
    if parts.len() < 2 || name == ".."@ || (parts.len() == 2 && parts[0].len() == 0) {
        None
    } else {
        Some(parts.last())
    }
}

fn extension(path: &str) -> (r: Option<&str>)
    ensures
        opt_text(r) == extension_of(path@),
{
    let comps = split(path, '/');
    proof {
        crate::request::split_is_not_empty(path@, '/');
        assert(texts(comps@).last() == comps@[comps@.len() - 1]@);
    }
    let name = comps[comps.len() - 1];
    let parts = split(name, '.');
    proof {
        crate::request::split_is_not_empty(name@, '.');
        assert(texts(parts@).last() == parts@[parts@.len() - 1]@);
        assert(texts(parts@)[0] == parts@[0]@);
    }
    if parts.len() < 2 || same(name, "..") || (parts.len() == 2 && parts[0].is_empty()) {
        None
    } else {
        Some(parts[parts.len() - 1])
    }
}

/// The content type of a file of the interface.
pub open spec fn content_type_of(ext: Option<Seq<char>>) -> Seq<char> {
    match ext {
        Some(e) => if e == "html"@ {
            "text/html; charset=utf-8"@
        } else if e == "js"@ {
            "text/javascript; charset=utf-8"@
        } else if e == "css"@ {
            "text/css; charset=utf-8"@
        } else if e == "json"@ || e == "map"@ {
            "application/json"@
        } else if e == "svg"@ {
            "image/svg+xml"@
        } else if e == "png"@ {
            "image/png"@
        } else if e == "ico"@ {
            "image/x-icon"@
        } else if e == "wasm"@ {
            "application/wasm"@
        } else {
            "application/octet-stream"@
        },
        None => "application/octet-stream"@,
    }
}

/// [`content_type_of`], of a path's extension.
pub fn content_type(path: &str) -> (r: &'static str)
    ensures
        r@ == content_type_of(extension_of(path@)),
{
    match extension(path) {
        Some(e) => if same(e, "html") {
            "text/html; charset=utf-8"
        } else if same(e, "js") {
            "text/javascript; charset=utf-8"
        } else if same(e, "css") {
            "text/css; charset=utf-8"
        } else if same(e, "json") || same(e, "map") {
            "application/json"
        } else if same(e, "svg") {
            "image/svg+xml"
        } else if same(e, "png") {
            "image/png"
        } else if same(e, "ico") {
            "image/x-icon"
        } else if same(e, "wasm") {
            "application/wasm"
        } else {
            "application/octet-stream"
        },
        None => "application/octet-stream",
    }
}

fn csp_line() -> (r: String)
    ensures
        r@ == csp(),
{
    "Content-Security-Policy: default-src 'self'; connect-src 'self' ws: wss:; img-src 'self' data:; style-src 'self' 'unsafe-inline'; base-uri 'none'; frame-ancestors 'none'\r\n".to_owned()
}

/// The response of a file that was read.
pub fn static_found(file: &str, bytes: Vec<u8>) -> (r: Response)
    ensures
        r@ == plain_v(200, content_type_of(extension_of(file@)), csp(), bytes@),
{
    let lines = csp_line();
    respond(200, content_type(file), lines.as_str(), bytes)
}

/// The response where there is no file: the root says that the interface is not built, any other
/// path is not found.
pub fn static_missing(path: &str) -> (r: Result<Response, Answer>)
    ensures
        match r {
            Ok(p) => path@ == "/"@ && p@ == plain_v(
                200,
                "text/html; charset=utf-8"@,
                csp(),
                vstd::utf8::encode_utf8(not_built()),
            ),
            Err(a) => path@ != "/"@ && a@ == error_answer_v(404, "not found"@),
        },
{
    if same(path, "/") {
        let lines = csp_line();
        let body = "<!doctype html><title>hackriff</title><p>UI not built: run <code>just ui-build</code>, then reload.</p>".as_bytes_vec();
        Ok(respond(200, "text/html; charset=utf-8", lines.as_str(), body))
    } else {
        Err(respond_error(404, "not found"))
    }
}

/// The content type of a recorded output.
pub open spec fn output_type_of(ext: Option<Seq<char>>) -> Seq<char> {
    match ext {
        Some(e) => if e == "wav"@ {
            "audio/wav"@
        } else if e == "json"@ || e == "sigmf-meta"@ {
            "application/json"@
        } else if e == "jsonl"@ {
            "application/x-ndjson"@
        } else {
            "application/octet-stream"@
        },
        None => "application/octet-stream"@,
    }
}

/// The refusal of a recorded output: there is nothing that records, the recorder refuses, or, where
/// it names a file, the file does not open. `None` where it is open.
pub open spec fn output_refusal_of(recorder: bool, opened: Result<bool, ApiErrorV>) -> Option<
    AnswerV,
> {
    if !recorder {
        Some(error_answer_v(503, "no output recorder on this server"@))
    } else {
        match opened {
            Err(e) => Some(error_answer_v(e.status, e.message)),
            Ok(true) => None,
            Ok(false) => Some(error_answer_v(404, "no such file"@)),
        }
    }
}

/// [`output_refusal_of`].
pub fn output_refusal(recorder: bool, opened: Result<bool, ApiError>) -> (r: Option<Answer>)
    ensures
        answer_opt(r) == output_refusal_of(recorder, api_outcome(opened)),
{
    if !recorder {
        return Some(respond_error(503, "no output recorder on this server"));
    }
    match opened {
        Err(e) => Some(respond_error(e.status, e.message.as_str())),
        Ok(open) => if open {
            None
        } else {
            Some(respond_error(404, "no such file"))
        },
    }
}

/// The head of a recorded output of `len` bytes, stored at `path`, asked for as `name`.
pub open spec fn output_head_of(path: Seq<char>, name: Seq<char>, len: u64) -> Seq<char> {
    "HTTP/1.1 200 OK\r\nContent-Type: "@ + output_type_of(extension_of(path))
        + "\r\nContent-Length: "@ + decimal(len as nat)
        + "\r\nContent-Disposition: attachment; filename=\""@ + name
        + "\"\r\nConnection: close\r\nCache-Control: no-store\r\nX-Content-Type-Options: nosniff\r\n\r\n"@
}

/// [`output_head_of`].
pub fn output_head(path: &str, name: &str, len: u64) -> (r: String)
    ensures
        r@ == output_head_of(path@, name@, len),
{
    let kind = match extension(path) {
        Some(e) => if same(e, "wav") {
            "audio/wav"
        } else if same(e, "json") || same(e, "sigmf-meta") {
            "application/json"
        } else if same(e, "jsonl") {
            "application/x-ndjson"
        } else {
            "application/octet-stream"
        },
        None => "application/octet-stream",
    };
    let n = number(len);
    String::from_str("HTTP/1.1 200 OK\r\nContent-Type: ").concat(kind).concat(
        "\r\nContent-Length: ",
    ).concat(n.as_str()).concat("\r\nContent-Disposition: attachment; filename=\"").concat(
        name,
    ).concat(
        "\"\r\nConnection: close\r\nCache-Control: no-store\r\nX-Content-Type-Options: nosniff\r\n\r\n",
    )
}

// ---------------------------------------------------------------------------------------------
// Connections
// ---------------------------------------------------------------------------------------------

/// Connections accepted and not yet finished.
pub struct Conns {
    next: u64,
    open: Vec<u64>,
}

impl Conns {
    /// The connections open now, the oldest first.
    pub closed spec fn open_now(self) -> Seq<u64> {
        self.open@
    }

    /// The number that the next connection gets.
    pub closed spec fn next_id(self) -> u64 {
        self.next
    }

    /// Every open connection has a number of its own, below the next.
    pub closed spec fn wf(self) -> bool {
        &&& self.open@.no_duplicates()
        &&& forall|i: int| 0 <= i < self.open@.len() ==> (#[trigger] self.open@[i]) < self.next
    }

    /// No connections.
    pub fn new() -> (r: Conns)
        ensures
            r.wf(),
            r.open_now() == Seq::<u64>::empty(),
            r.next_id() == 0,
    {
        Conns { next: 0, open: Vec::new() }
    }

    /// [`Conns::next_id`].
    pub fn next_number(&self) -> (r: u64)
        ensures
            r == self.next_id(),
    {
        self.next
    }

    /// Takes a connection in where fewer than `max` are open; its number was never used before.
    pub fn accept(&mut self, max: usize) -> (r: Option<u64>)
        requires
            old(self).wf(),
            old(self).next_id() < u64::MAX,
        ensures
            final(self).wf(),
            match r {
                Some(id) => old(self).open_now().len() < max && id == old(self).next_id()
                    && final(self).open_now() == old(self).open_now().push(id)
                    && final(self).next_id() == id + 1 && !old(self).open_now().contains(id),
                None => old(self).open_now().len() >= max && *final(self) == *old(self),
            },
            old(self).open_now().len() <= max ==> final(self).open_now().len() <= max,
    {
        if self.open.len() >= max {
            return None;
        }
        let id = self.next;
        let ghost before = self.open@;
        self.next = id + 1;
        self.open.push(id);
        assert(!before.contains(id));
        assert forall|i: int| 0 <= i < self.open@.len() implies (#[trigger] self.open@[i])
            < self.next by {
            if i < before.len() {
                assert(self.open@[i] == before[i]);
            }
        }
        assert(self.open@.no_duplicates());
        Some(id)
    }

    /// Lets a connection go; whether none is open now.
    pub fn retire(&mut self, id: u64) -> (empty: bool)
        requires
            old(self).wf(),
        ensures
            final(self).wf(),
            final(self).next_id() == old(self).next_id(),
            forall|k: u64|
                final(self).open_now().contains(k) <==> old(self).open_now().contains(k) && k
                    != id,
            empty == (final(self).open_now().len() == 0),
    {
        let ghost before = self.open@;
        let mut i: usize = 0;
        while i < self.open.len() && self.open[i] != id
            invariant
                self.open@ == before,
                i <= before.len(),
                forall|k: int| 0 <= k < i ==> before[k] != id,
                self.next == old(self).next,
            decreases before.len() - i,
        {
            i += 1;
        }
        if i < self.open.len() {
            self.open.remove(i);
            proof {
                let after = self.open@;
                assert(after =~= before.remove(i as int));
                assert forall|k: u64|
                    after.contains(k) <==> before.contains(k) && k != id by {
                    if after.contains(k) {
                        let j = choose|j: int| 0 <= j < after.len() && after[j] == k;
                        if j < i {
                            assert(before[j] == k);
                        } else {
                            assert(before[j + 1] == k);
                        }
                    }
                    if before.contains(k) && k != id {
                        let j = choose|j: int| 0 <= j < before.len() && before[j] == k;
                        if j < i {
                            assert(after[j] == k);
                        } else {
                            assert(after[j - 1] == k);
                        }
                    }
                }
                assert(after.no_duplicates());
                assert forall|j: int| 0 <= j < after.len() implies (#[trigger] after[j])
                    < self.next by {
                    if j < i {
                        assert(after[j] == before[j]);
                    } else {
                        assert(after[j] == before[j + 1]);
                    }
                }
            }
        }
        self.open.len() == 0
    }
}

/// Every page is at a path of its own, and is read with GET only. Another path under `/api/` is no
/// endpoint, and any other is a file.
pub proof fn pages_are_at_their_paths(method: Seq<char>, path: Seq<char>)
    ensures
        page_named(path) matches Some(p) ==> match p {
            Page::Streams => path == "/api/streams"@,
            Page::History => path == "/api/history"@,
            Page::Report => path == "/api/report"@,
            Page::Floor => path == "/api/floor"@,
            Page::Inventory => path == "/api/inventory"@,
            Page::Events => path == "/api/events"@,
            Page::Strongest => path == "/api/analysis/strongest"@,
            Page::Navigation => path == "/api/navigation"@,
            Page::Timeline => path == "/api/timeline"@,
            Page::Coverage => path == "/api/coverage"@,
            Page::Tiles => path == "/api/tiles"@,
            Page::TilesBatch => path == "/api/tiles/batch"@,
            Page::TileEvents => path == "/api/tiles/events"@,
            Page::Status => path == "/api/status"@,
            Page::Taxonomy => path == "/api/taxonomy"@,
            _ => false,
        },
        page_named("/api/streams"@) is Some,
        page_named("/api/history"@) is Some,
        page_named("/api/report"@) is Some,
        page_named("/api/floor"@) is Some,
        page_named("/api/inventory"@) is Some,
        page_named("/api/events"@) is Some,
        page_named("/api/analysis/strongest"@) is Some,
        page_named("/api/navigation"@) is Some,
        page_named("/api/timeline"@) is Some,
        page_named("/api/coverage"@) is Some,
        page_named("/api/tiles"@) is Some,
        page_named("/api/tiles/batch"@) is Some,
        page_named("/api/tiles/events"@) is Some,
        page_named("/api/status"@) is Some,
        page_named("/api/taxonomy"@) is Some,
        page_named(path) matches Some(p) ==> page_of("GET"@, path) == p,
        method != "GET"@ && page_named(path) is Some ==> page_of(method, path) is UseGet,
        page_named(path) is None && begins(path, "/api/"@) ==> page_of(method, path) is NoEndpoint,
        page_named(path) is None && !begins(path, "/api/"@) ==> page_of("GET"@, path) is Static,
        page_named(path) is None && !begins(path, "/api/"@) && method != "GET"@ ==> page_of(
            method,
            path,
        ) is UseGet,
{
}

/// A page that is not served is no endpoint; a wrong method is told which to use. What is served is
/// not refused.
pub proof fn refused_pages_say_why(page: Page, served: bool)
    ensures
        page is UseGet ==> (page_refusal_of(page, served) matches Some(a) && a.status == 405 && a.extra
            == "Allow: GET\r\n"@),
        page is NoEndpoint ==> (page_refusal_of(page, served) matches Some(a) && a.status == 404),
        page is Static ==> page_refusal_of(page, served) is None,
        !(page is UseGet || page is NoEndpoint || page is Static) ==> (page_refusal_of(
            page,
            served,
        ) is None <==> served),
        !(page is UseGet) ==> (page_refusal_of(page, served) matches Some(a) ==> a.status == 404),
{
}

/// What a request is for: a socket under `/ws/open/` opens the named recording, any other under
/// `/ws/` is of the named stream, and a file of an output is named by what stands around `/files/`.
/// None of these is asked for but with GET.
pub proof fn targets_are_named_by_their_paths(
    method: Seq<char>,
    name: Seq<char>,
    id: Seq<char>,
    file: Seq<char>,
)
    ensures
        target_of("GET"@, "/ws/tiles/rows"@) is Rows,
        target_of("GET"@, "/ws/tiles/changes"@) is Changes,
        target_of("GET"@, "/ws/open/"@ + name) == TargetV::Open(name),
        !begins(name, "open/"@) && name != "tiles/rows"@ && name != "tiles/changes"@ ==> target_of(
            "GET"@,
            "/ws/"@ + name,
        ) == TargetV::Stream(name),
        method != "GET"@ ==> target_of(method, "/ws/"@ + name) is UseGet,
        split_once_at(id + "/files/"@ + file, "/files/"@) == Some((id, file)) ==> {
            &&& target_of("GET"@, "/api/outputs/"@ + (id + "/files/"@ + file))
                == TargetV::OutputFile(id, file)
            &&& method != "GET"@ ==> target_of(
                method,
                "/api/outputs/"@ + (id + "/files/"@ + file),
            ) is UseGet
        },
{
    reveal_strlit("/ws/");
    reveal_strlit("/ws/tiles/rows");
    reveal_strlit("/ws/tiles/changes");
    reveal_strlit("/ws/open/");
    reveal_strlit("tiles/rows");
    reveal_strlit("tiles/changes");
    reveal_strlit("open/");
    reveal_strlit("/api/outputs/");
    assert("/ws/tiles/rows"@.len() != "/ws/tiles/changes"@.len());
    let o = "/ws/open/"@ + name;
    a_remainder_is_what_else_is_there(name, "/ws/open/"@);
    assert(o[4] == 'o');
    assert("/ws/tiles/rows"@[4] == 't' && "/ws/tiles/changes"@[4] == 't');
    let w = "/ws/"@ + name;
    a_remainder_is_what_else_is_there(name, "/ws/"@);
    if w == "/ws/tiles/rows"@ {
        assert(name =~= w.skip(4));
        assert(name =~= "tiles/rows"@);
    }
    if w == "/ws/tiles/changes"@ {
        assert(name =~= w.skip(4));
        assert(name =~= "tiles/changes"@);
    }
    if begins(w, "/ws/open/"@) {
        assert(w.take(9) == "/ws/open/"@);
        assert(name.take(5) =~= "open/"@) by {
            assert forall|i: int| 0 <= i < 5 implies name[i] == "open/"@[i] by {
                assert(name[i] == w[i + 4]);
                assert(w[i + 4] == w.take(9)[i + 4]);
                assert("/ws/open/"@[i + 4] == "open/"@[i]);
            }
        }
    }
    let rest = id + "/files/"@ + file;
    let p = "/api/outputs/"@ + rest;
    a_remainder_is_what_else_is_there(rest, "/api/outputs/"@);
    assert(p[1] == 'a');
    assert("/ws/"@[1] == 'w' && "/ws/tiles/rows"@[1] == 'w' && "/ws/tiles/changes"@[1] == 'w'
        && "/ws/open/"@[1] == 'w');
    if begins(p, "/ws/"@) {
        assert(p.take(4)[1] == p[1]);
    }
    if begins(p, "/ws/open/"@) {
        assert(p.take(9)[1] == p[1]);
    }
}

/// A store that is absent is not found, one that is poisoned has failed, and one that is ready is
/// read. History is read of its own store where there is one, else of the floor's.
pub proof fn stores_are_read_where_they_are_ready(
    a: Store,
    b: Store,
    missing: Seq<char>,
    poisoned: Seq<char>,
)
    ensures
        store_of(a, missing, poisoned) is Ok <==> a is Ready,
        store_of(a, missing, poisoned) matches Err(e) ==> (a is Absent && e.status == 404 && e.message
            == missing) || (a is Poisoned && e.status == 500 && e.message == poisoned),
        history_source_of(a, b) matches Ok(s) ==> (s is History && a is Ready) || (s is Floor && a
            is Absent && b is Ready),
        history_source_of(a, b) matches Err(e) ==> (e.status == 500 && (a is Poisoned || (a is Absent
            && b is Poisoned))) || (e.status == 404 && a is Absent && b is Absent),
        events_source_of(a, b) matches Ok(with) ==> a is Ready && with == b is Ready && !(b
            is Poisoned),
        events_source_of(a, b) matches Err(e) ==> (e.status == 404 && a is Absent) || (e.status == 500
            && (a is Poisoned || (a is Ready && b is Poisoned))),
{
}

/// A status says when it was taken and, where there is one, how the tiles are cached; the rest of it
/// stays.
pub proof fn a_status_says_when_it_was_taken(
    o: Seq<(Seq<char>, JsonV)>,
    t_ns: i64,
    cache: JsonV,
    name: Seq<char>,
)
    ensures
        at(status_v(JsonV::Object(o), t_ns, None), "t"@) == Some(seconds_v(t_ns)),
        at(status_v(JsonV::Object(o), t_ns, Some(cache)), "t"@) == Some(seconds_v(t_ns)),
        at(status_v(JsonV::Object(o), t_ns, Some(cache)), "tile_cache"@) == Some(cache),
        name != "t"@ ==> at(status_v(JsonV::Object(o), t_ns, None), name) == member(o, name),
        name != "t"@ && name != "tile_cache"@ ==> at(
            status_v(JsonV::Object(o), t_ns, Some(cache)),
            name,
        ) == member(o, name),
{
    assert("t"@ != "tile_cache"@) by {
        reveal_strlit("t");
        reveal_strlit("tile_cache");
        assert("t"@.len() != "tile_cache"@.len());
    }
    let t = with_member(o, "t"@, seconds_v(t_ns));
    member_set(o, "t"@, seconds_v(t_ns));
    member_set(t, "tile_cache"@, cache);
    other_members_stay(t, "tile_cache"@, cache, "t"@);
    if name != "t"@ {
        other_members_stay(o, "t"@, seconds_v(t_ns), name);
        if name != "tile_cache"@ {
            other_members_stay(t, "tile_cache"@, cache, name);
        }
    }
}

/// The widest span that can be seen live is one that a front end offers, and no other is wider; where
/// no front end offers any, it is the rate of the run, where that is a number above zero.
pub proof fn the_widest_live_span_is_offered(spans: Seq<Real>, rate: Option<Real>)
    requires
        forall|i: int| 0 <= i < spans.len() ==> !(#[trigger] spans[i]).nan(),
    ensures
        spans.len() > 0 ==> (max_live_span_of(spans, rate) matches Some(hz) && spans.contains(hz)
            && forall|i: int| 0 <= i < spans.len() ==> (#[trigger] spans[i]).at_most(hz)),
        spans.len() == 0 ==> (max_live_span_of(spans, rate) matches Some(hz) ==> rate == Some(hz)
            && hz.finite() && (Real { bits: 0 }).below(hz)),
        spans.len() == 0 && max_live_span_of(spans, rate) is None ==> (rate matches Some(hz) ==> !(
        hz.finite() && (Real { bits: 0 }).below(hz))),
        forall|c: Choices| #[trigger] widest_offered(c) == (match c {
            Choices::Continuous(_, hi) => Some(hi),
            Choices::Discrete(v) => max_live_span_of(v@, None),
        }),
{
    if spans.len() > 0 {
        widest_is_the_maximum(spans);
    }
    assert forall|c: Choices| #[trigger] widest_offered(c) == (match c {
        Choices::Continuous(_, hi) => Some(hi),
        Choices::Discrete(v) => max_live_span_of(v@, None),
    }) by {
        if let Choices::Discrete(v) = c {
            assert(max_live_span_of(v@, None) == widest(v@));
        }
    }
}

/// A socket is opened where the request upgrades to one, of the version that is spoken, with a key;
/// a request for anything else is told what is missing.
pub proof fn sockets_are_opened_with_a_key(h: Seq<(Seq<char>, Seq<char>)>)
    ensures
        upgrade_of(h) matches UpgradeV::Key(k) ==> {
            &&& lists(header_of(h, "upgrade"@), "websocket"@)
            &&& lists(header_of(h, "connection"@), "upgrade"@)
            &&& header_of(h, "sec-websocket-version"@) matches Some(v) && trimmed(v) == "13"@
            &&& header_of(h, "sec-websocket-key"@) matches Some(x) && k == trimmed(x)
        },
        upgrade_of(h) is Version ==> header_of(h, "sec-websocket-version"@) is None || trimmed(
            header_of(h, "sec-websocket-version"@)->0,
        ) != "13"@,
        upgrade_of(h) matches UpgradeV::Error(s, _) ==> (s == 426 && (!lists(
            header_of(h, "upgrade"@),
            "websocket"@,
        ) || !lists(header_of(h, "connection"@), "upgrade"@))) || (s == 400 && header_of(
            h,
            "sec-websocket-key"@,
        ) is None),
{
}

/// A list names a word where one of what its commas part is that word, in whatever case.
pub proof fn a_list_names_its_words(a: Seq<char>, want: Seq<char>)
    requires
        !a.contains(','),
    ensures
        lists(Some(a), want) == same_but_case(trimmed(a), want),
        forall|b: Seq<char>|
            lists(Some(#[trigger] (a + seq![','] + b)), want) == (same_but_case(trimmed(a), want)
                || lists(Some(b), want)),
        !lists(None, want),
{
    first_index_is_first(a, ',');
    assert(split_on(a, ',') == seq![a]);
    assert(lists(Some(a), want) == same_but_case(trimmed(a), want)) by {
        assert(seq![a][0] == a);
    }
    assert forall|b: Seq<char>|
        lists(Some(#[trigger] (a + seq![','] + b)), want) == (same_but_case(trimmed(a), want)
            || lists(Some(b), want)) by {
        let s = a + seq![','] + b;
        first_index_is_first(s, ',');
        assert(s[a.len() as int] == ',');
        let i = first_index(s, ',');
        if i < a.len() {
            assert(a[i] == s[i]);
        }
        assert(s.take(i) =~= a);
        assert(s.skip(i + 1) =~= b);
        let parts = split_on(s, ',');
        let rest = split_on(b, ',');
        assert(parts == seq![a] + rest);
        assert(parts[0] == a);
        if lists(Some(s), want) {
            let k = choose|k: int|
                0 <= k < parts.len() && same_but_case(trimmed(#[trigger] parts[k]), want);
            if k > 0 {
                assert(parts[k] == rest[k - 1]);
            }
        }
        if lists(Some(b), want) {
            let k = choose|k: int|
                0 <= k < rest.len() && same_but_case(trimmed(#[trigger] rest[k]), want);
            assert(parts[k + 1] == rest[k]);
        }
    }
}

/// What a socket that cannot be attached is told: that its stream is for this machine only, that there
/// are too many listeners, or that the attempt failed.
pub proof fn refused_sockets_are_told_why(o: AttachOutcome)
    ensures
        o is Attached <==> attach_step_of(o) is Watch,
        o is LocalOnly ==> (attach_step_of(o) matches WsStepV::Answer(a) && a.status == 403),
        o is TooManyConsumers ==> (attach_step_of(o) matches WsStepV::Answer(a) && a.status == 503),
        o is Failed ==> (attach_step_of(o) matches WsStepV::Answer(a) && a.status == 500),
        still_replumbing_v().status == 503,
{
}

/// The file that a path asks for: the index at the root, else what follows the slash.
pub proof fn a_path_asks_for_its_file(rest: Seq<char>)
    requires
        rest.len() > 0,
    ensures
        relative("/"@) == "index.html"@,
        relative("/"@ + rest) == rest,
{
    reveal_strlit("/");
    assert(("/"@ + rest).len() > 1);
    assert(("/"@ + rest).skip(1) =~= rest);
}

/// The extension of a name is what follows its last dot, where something stands before that; the
/// directories that a name is in make no difference.
pub proof fn an_extension_follows_the_last_dot(dir: Seq<char>, stem: Seq<char>, ext: Seq<char>)
    requires
        !stem.contains('/') && !stem.contains('.') && stem.len() > 0,
        !ext.contains('/') && !ext.contains('.'),
    ensures
        extension_of(stem + seq!['.'] + ext) == Some(ext),
        extension_of(stem) is None,
        extension_of(seq!['.'] + ext) is None,
        !dir.contains('/') ==> extension_of(dir + seq!['/'] + (stem + seq!['.'] + ext)) == Some(ext),
{
    let name = stem + seq!['.'] + ext;
    assert(!name.contains('/')) by {
        if name.contains('/') {
            let k = choose|k: int| 0 <= k < name.len() && name[k] == '/';
            if k < stem.len() {
                assert(stem[k] == '/');
            } else if k > stem.len() {
                assert(ext[k - stem.len() - 1] == '/');
            }
        }
    }
    first_index_is_first(name, '/');
    assert(split_on(name, '/') == seq![name]);
    assert(seq![name].last() == name);
    first_index_is_first(name, '.');
    let i = first_index(name, '.');
    assert(name[stem.len() as int] == '.');
    if i < stem.len() {
        assert(stem[i] == name[i]);
    }
    assert(name.take(i) =~= stem);
    assert(name.skip(i + 1) =~= ext);
    first_index_is_first(ext, '.');
    assert(split_on(ext, '.') == seq![ext]);
    assert(split_on(name, '.') == seq![stem] + seq![ext]);
    let parts = seq![stem] + seq![ext];
    assert(parts.len() == 2 && parts[0] == stem && parts.last() == ext);
    reveal_strlit("..");
    assert(name != ".."@) by {
        assert(name[0] == stem[0]);
        assert(stem[0] != '.') by {
            if stem[0] == '.' {
                assert(stem.contains('.'));
            }
        }
        assert(".."@[0] == '.');
    }
    first_index_is_first(stem, '/');
    assert(split_on(stem, '/') == seq![stem]);
    assert(seq![stem].last() == stem);
    first_index_is_first(stem, '.');
    assert(split_on(stem, '.') == seq![stem]);
    let hidden = seq!['.'] + ext;
    assert(!hidden.contains('/')) by {
        if hidden.contains('/') {
            let k = choose|k: int| 0 <= k < hidden.len() && hidden[k] == '/';
            if k > 0 {
                assert(ext[k - 1] == '/');
            }
        }
    }
    first_index_is_first(hidden, '/');
    assert(split_on(hidden, '/') == seq![hidden]);
    assert(seq![hidden].last() == hidden);
    first_index_is_first(hidden, '.');
    assert(hidden[0] == '.');
    assert(first_index(hidden, '.') == 0);
    assert(hidden.take(0) =~= Seq::<char>::empty());
    assert(hidden.skip(1) =~= ext);
    assert(split_on(hidden, '.') == seq![Seq::<char>::empty()] + seq![ext]);
    assert((seq![Seq::<char>::empty()] + seq![ext])[0].len() == 0);
    if !dir.contains('/') {
        let path = dir + seq!['/'] + name;
        first_index_is_first(path, '/');
        assert(path[dir.len() as int] == '/');
        let j = first_index(path, '/');
        if j < dir.len() {
            assert(dir[j] == path[j]);
        }
        assert(path.skip(j + 1) =~= name);
        assert(split_on(path, '/') == seq![path.take(j)] + seq![name]);
        assert((seq![path.take(j)] + seq![name]).last() == name);
    }
}

/// What a file is sent as goes by its extension; one that is not known is bytes.
pub proof fn files_are_sent_as_what_they_are()
    ensures
        content_type_of(Some("html"@)) == "text/html; charset=utf-8"@,
        content_type_of(Some("js"@)) == "text/javascript; charset=utf-8"@,
        content_type_of(Some("css"@)) == "text/css; charset=utf-8"@,
        content_type_of(Some("json"@)) == "application/json"@,
        content_type_of(Some("map"@)) == "application/json"@,
        content_type_of(Some("svg"@)) == "image/svg+xml"@,
        content_type_of(Some("png"@)) == "image/png"@,
        content_type_of(Some("ico"@)) == "image/x-icon"@,
        content_type_of(Some("wasm"@)) == "application/wasm"@,
        content_type_of(None) == "application/octet-stream"@,
        output_type_of(Some("wav"@)) == "audio/wav"@,
        output_type_of(Some("json"@)) == "application/json"@,
        output_type_of(Some("sigmf-meta"@)) == "application/json"@,
        output_type_of(Some("jsonl"@)) == "application/x-ndjson"@,
        output_type_of(None) == "application/octet-stream"@,
{
    assert("html"@ != "js"@) by {
        reveal_strlit("html");
        reveal_strlit("js");
        assert("html"@.len() != "js"@.len());
    }
    assert("html"@ != "css"@) by {
        reveal_strlit("html");
        reveal_strlit("css");
        assert("html"@.len() != "css"@.len());
    }
    assert("js"@ != "css"@) by {
        reveal_strlit("js");
        reveal_strlit("css");
        assert("js"@.len() != "css"@.len());
    }
    assert("html"@ != "json"@) by {
        reveal_strlit("html");
        reveal_strlit("json");
        assert("html"@[0] != "json"@[0]);
    }
    assert("js"@ != "json"@) by {
        reveal_strlit("js");
        reveal_strlit("json");
        assert("js"@.len() != "json"@.len());
    }
    assert("css"@ != "json"@) by {
        reveal_strlit("css");
        reveal_strlit("json");
        assert("css"@.len() != "json"@.len());
    }
    assert("html"@ != "map"@) by {
        reveal_strlit("html");
        reveal_strlit("map");
        assert("html"@.len() != "map"@.len());
    }
    assert("js"@ != "map"@) by {
        reveal_strlit("js");
        reveal_strlit("map");
        assert("js"@.len() != "map"@.len());
    }
    assert("css"@ != "map"@) by {
        reveal_strlit("css");
        reveal_strlit("map");
        assert("css"@[0] != "map"@[0]);
    }
    assert("json"@ != "map"@) by {
        reveal_strlit("json");
        reveal_strlit("map");
        assert("json"@.len() != "map"@.len());
    }
    assert("html"@ != "svg"@) by {
        reveal_strlit("html");
        reveal_strlit("svg");
        assert("html"@.len() != "svg"@.len());
    }
    assert("js"@ != "svg"@) by {
        reveal_strlit("js");
        reveal_strlit("svg");
        assert("js"@.len() != "svg"@.len());
    }
    assert("css"@ != "svg"@) by {
        reveal_strlit("css");
        reveal_strlit("svg");
        assert("css"@[0] != "svg"@[0]);
    }
    assert("json"@ != "svg"@) by {
        reveal_strlit("json");
        reveal_strlit("svg");
        assert("json"@.len() != "svg"@.len());
    }
    assert("map"@ != "svg"@) by {
        reveal_strlit("map");
        reveal_strlit("svg");
        assert("map"@[0] != "svg"@[0]);
    }
    assert("html"@ != "png"@) by {
        reveal_strlit("html");
        reveal_strlit("png");
        assert("html"@.len() != "png"@.len());
    }
    assert("js"@ != "png"@) by {
        reveal_strlit("js");
        reveal_strlit("png");
        assert("js"@.len() != "png"@.len());
    }
    assert("css"@ != "png"@) by {
        reveal_strlit("css");
        reveal_strlit("png");
        assert("css"@[0] != "png"@[0]);
    }
    assert("json"@ != "png"@) by {
        reveal_strlit("json");
        reveal_strlit("png");
        assert("json"@.len() != "png"@.len());
    }
    assert("map"@ != "png"@) by {
        reveal_strlit("map");
        reveal_strlit("png");
        assert("map"@[0] != "png"@[0]);
    }
    assert("svg"@ != "png"@) by {
        reveal_strlit("svg");
        reveal_strlit("png");
        assert("svg"@[0] != "png"@[0]);
    }
    assert("html"@ != "ico"@) by {
        reveal_strlit("html");
        reveal_strlit("ico");
        assert("html"@.len() != "ico"@.len());
    }
    assert("js"@ != "ico"@) by {
        reveal_strlit("js");
        reveal_strlit("ico");
        assert("js"@.len() != "ico"@.len());
    }
    assert("css"@ != "ico"@) by {
        reveal_strlit("css");
        reveal_strlit("ico");
        assert("css"@[0] != "ico"@[0]);
    }
    assert("json"@ != "ico"@) by {
        reveal_strlit("json");
        reveal_strlit("ico");
        assert("json"@.len() != "ico"@.len());
    }
    assert("map"@ != "ico"@) by {
        reveal_strlit("map");
        reveal_strlit("ico");
        assert("map"@[0] != "ico"@[0]);
    }
    assert("svg"@ != "ico"@) by {
        reveal_strlit("svg");
        reveal_strlit("ico");
        assert("svg"@[0] != "ico"@[0]);
    }
    assert("png"@ != "ico"@) by {
        reveal_strlit("png");
        reveal_strlit("ico");
        assert("png"@[0] != "ico"@[0]);
    }
    assert("html"@ != "wasm"@) by {
        reveal_strlit("html");
        reveal_strlit("wasm");
        assert("html"@[0] != "wasm"@[0]);
    }
    assert("js"@ != "wasm"@) by {
        reveal_strlit("js");
        reveal_strlit("wasm");
        assert("js"@.len() != "wasm"@.len());
    }
    assert("css"@ != "wasm"@) by {
        reveal_strlit("css");
        reveal_strlit("wasm");
        assert("css"@.len() != "wasm"@.len());
    }
    assert("json"@ != "wasm"@) by {
        reveal_strlit("json");
        reveal_strlit("wasm");
        assert("json"@[0] != "wasm"@[0]);
    }
    assert("map"@ != "wasm"@) by {
        reveal_strlit("map");
        reveal_strlit("wasm");
        assert("map"@.len() != "wasm"@.len());
    }
    assert("svg"@ != "wasm"@) by {
        reveal_strlit("svg");
        reveal_strlit("wasm");
        assert("svg"@.len() != "wasm"@.len());
    }
    assert("png"@ != "wasm"@) by {
        reveal_strlit("png");
        reveal_strlit("wasm");
        assert("png"@.len() != "wasm"@.len());
    }
    assert("ico"@ != "wasm"@) by {
        reveal_strlit("ico");
        reveal_strlit("wasm");
        assert("ico"@.len() != "wasm"@.len());
    }
    assert("wav"@ != "json"@) by {
        reveal_strlit("wav");
        reveal_strlit("json");
        assert("wav"@.len() != "json"@.len());
    }
    assert("wav"@ != "sigmf-meta"@) by {
        reveal_strlit("wav");
        reveal_strlit("sigmf-meta");
        assert("wav"@.len() != "sigmf-meta"@.len());
    }
    assert("json"@ != "sigmf-meta"@) by {
        reveal_strlit("json");
        reveal_strlit("sigmf-meta");
        assert("json"@.len() != "sigmf-meta"@.len());
    }
    assert("wav"@ != "jsonl"@) by {
        reveal_strlit("wav");
        reveal_strlit("jsonl");
        assert("wav"@.len() != "jsonl"@.len());
    }
    assert("json"@ != "jsonl"@) by {
        reveal_strlit("json");
        reveal_strlit("jsonl");
        assert("json"@.len() != "jsonl"@.len());
    }
    assert("sigmf-meta"@ != "jsonl"@) by {
        reveal_strlit("sigmf-meta");
        reveal_strlit("jsonl");
        assert("sigmf-meta"@.len() != "jsonl"@.len());
    }
}

/// A recorded file is served where there is a recorder and it has the file; what the recorder refuses
/// is passed on.
pub proof fn recorded_files_are_served(opened: Result<bool, ApiErrorV>)
    ensures
        output_refusal_of(true, opened) is None <==> opened == Ok::<bool, ApiErrorV>(true),
        output_refusal_of(false, opened) matches Some(a) && a.status == 503,
        opened == Ok::<bool, ApiErrorV>(false) ==> (output_refusal_of(true, opened) matches Some(a)
            && a.status == 404),
        opened matches Err(e) ==> (output_refusal_of(true, opened) matches Some(a) && a.status
            == e.status && a.body == error_body_v(e.message)),
{
}

/// Who is told what: a stranger is told that a token is missing, a page of another origin that it is
/// refused, and a preflight that there is none. Anything else passes.
pub proof fn refusals_are_told_apart(r: RequestV, authorized: bool, loopback_peer: bool)
    ensures
        r.method == "OPTIONS"@ ==> (admission_of(r, authorized, loopback_peer) matches AdmissionV::Refuse(
            s,
            _,
            _,
        ) && s == 403),
        r.method != "OPTIONS"@ && is_api(r.path) && !authorized ==> (admission_of(
            r,
            authorized,
            loopback_peer,
        ) matches AdmissionV::Refuse(s, _, _) && s == 401),
        r.method != "OPTIONS"@ && is_api(r.path) && authorized && r.method != "GET"@
            && crosses_origin(r.headers, loopback_peer) ==> (admission_of(
            r,
            authorized,
            loopback_peer,
        ) matches AdmissionV::Refuse(s, _, _) && s == 403),
        r.method != "OPTIONS"@ && !is_api(r.path) ==> admission_of(r, authorized, loopback_peer)
            is Pass,
        r.method == "GET"@ && authorized ==> admission_of(r, authorized, loopback_peer) is Pass,
        r.method != "OPTIONS"@ && authorized && !crosses_origin(r.headers, loopback_peer)
            ==> admission_of(r, authorized, loopback_peer) is Pass,
        is_api(r.path) <==> begins(r.path, "/api/"@) || begins(r.path, "/ws/"@),
        r.method == "GET"@ ==> authorising_token(r) == offered_token(r),
{
    assert("GET"@ != "OPTIONS"@) by {
        reveal_strlit("GET");
        reveal_strlit("OPTIONS");
        assert("GET"@.len() != "OPTIONS"@.len());
    }
}

} // verus!
