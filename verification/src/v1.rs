//! The v1 API: name validation, query-parameter defaults and the
//! lookup / failure / enqueue decisions of a size request.
use vstd::prelude::*;

use crate::response::{FailedResponse, QueuedResponse, ReadyResponse};
use crate::text::{push_str, str_eq};
use crate::types::{error_status, parse_ecosystem, AppError, Ecosystem, SizeResult};
use crate::validate::{invalid_npm_name, invalid_npm_name_spec};

verus! {

/// An answer with an HTTP status and an `{"error": message}` body.
pub struct ApiError {
    pub status: u16,
    pub message: String,
}

/// Why a request for `package` in `ecosystem` is refused (400), if it is:
/// npm names must be valid, and npm is the only ecosystem served.
pub open spec fn validate_name_spec(ecosystem: Seq<char>, package: Seq<char>) -> Option<Seq<char>> {
    if ecosystem == "npm"@ {
        match invalid_npm_name_spec(package) {
            Some(reason) => Some("invalid package name: "@ + reason),
            None => None,
        }
    } else {
        Some("unknown ecosystem: "@ + ecosystem)
    }
}

/// Why a request is refused (see `validate_name_spec`); always a 400.
pub fn validate_name(ecosystem: &str, package: &str) -> (r: Option<ApiError>)
    ensures
        match r {
            Some(e) => e.status == 400 && validate_name_spec(ecosystem@, package@) == Some(e.message@),
            None => validate_name_spec(ecosystem@, package@) is None,
        },
{
    if str_eq(ecosystem, "npm") {
        match invalid_npm_name(package) {
            Some(reason) => {
                let mut m = String::new();
                push_str(&mut m, "invalid package name: ");
                push_str(&mut m, reason);
                Some(ApiError { status: 400, message: m })
            },
            None => None,
        }
    } else {
        let mut m = String::new();
        push_str(&mut m, "unknown ecosystem: ");
        push_str(&mut m, ecosystem);
        Some(ApiError { status: 400, message: m })
    }
}

/// `@scope/package`, the name of a scoped package.
pub fn scoped_name(scope: &str, package: &str) -> (r: String)
    ensures
        r@ == "@"@ + scope@ + "/"@ + package@,
{
    let mut r = String::new();
    push_str(&mut r, "@");
    push_str(&mut r, scope);
    push_str(&mut r, "/");
    push_str(&mut r, package);
    r
}

/// A 500 answer carrying the error's message.
pub fn internal_error(e: &AppError) -> (r: ApiError)
    ensures
        r.status == 500,
        r.message@ == match *e {
            AppError::NotFound(s) => s@,
            AppError::Internal(s) => s@,
        },
{
    let mut m = String::new();
    push_str(&mut m, e.message());
    ApiError { status: 500, message: m }
}

/// The answer to a failed store read of a listing: a store that does not
/// know the ecosystem answers 404 (not found), any other failure 500; the
/// error's message is carried along.
pub fn store_error(e: &AppError) -> (r: ApiError)
    ensures
        r.status == error_status(*e),
        r.status == match *e {
            AppError::NotFound(_) => 404u16,
            AppError::Internal(_) => 500u16,
        },
        r.message@ == match *e {
            AppError::NotFound(s) => s@,
            AppError::Internal(s) => s@,
        },
{
    let mut m = String::new();
    push_str(&mut m, e.message());
    ApiError { status: e.status(), message: m }
}

// ---------------------------------------------------------------------------
// A size request for one version: the cache, then known failures, then
// enqueue and answer "processing".
// ---------------------------------------------------------------------------

/// Where a size request stands.
#[derive(Clone, Copy, PartialEq, Eq, Structural)]
pub enum SizeState {
    AwaitCache,
    AwaitFailure,
    AwaitEnqueue,
    Done,
}

/// What the outside work reported.
pub enum SizeEvent {
    Cached(Result<Option<SizeResult>, AppError>),
    FailureKnown(Option<String>),
    /// The job was enqueued (an enqueue error is only logged).
    Enqueued,
}

/// What to do next.
pub enum SizeAction {
    QueryCache,
    QueryFailure,
    Enqueue,
    /// Answer 200 and count the request.
    Ready(ReadyResponse),
    /// Answer 422.
    Failed(FailedResponse),
    /// Answer 202 with `Retry-After: 2`.
    Queued(QueuedResponse),
    /// Answer 500 with this message.
    ServerError(String),
    Idle,
}

pub open spec fn size_pending(s: SizeState) -> SizeAction {
    match s {
        SizeState::AwaitCache => SizeAction::QueryCache,
        SizeState::AwaitFailure => SizeAction::QueryFailure,
        SizeState::AwaitEnqueue => SizeAction::Enqueue,
        SizeState::Done => SizeAction::Idle,
    }
}

/// The first step: refuse an invalid name, else look in the cache.
pub open spec fn size_start_spec(ecosystem: Seq<char>, package: Seq<char>) -> Result<(SizeState, SizeAction), Seq<char>> {
    match validate_name_spec(ecosystem, package) {
        Some(m) => Err(m),
        None => Ok((SizeState::AwaitCache, SizeAction::QueryCache)),
    }
}

/// An action with its texts as character sequences.
pub enum SizeActionView {
    QueryCache,
    QueryFailure,
    Enqueue,
    Ready(SizeResult),
    Failed { name: Seq<char>, version: Seq<char>, error: Seq<char> },
    Queued { name: Seq<char>, version: Seq<char>, retry_after: u32 },
    ServerError(Seq<char>),
    Idle,
}

/// The view of an action; the fixed status words of the bodies are part
/// of it only through `status_ok`.
pub open spec fn size_action_view(a: SizeAction) -> SizeActionView {
    match a {
        SizeAction::QueryCache => SizeActionView::QueryCache,
        SizeAction::QueryFailure => SizeActionView::QueryFailure,
        SizeAction::Enqueue => SizeActionView::Enqueue,
        SizeAction::Ready(r) => SizeActionView::Ready(r.result),
        SizeAction::Failed(f) => SizeActionView::Failed { name: f.name@, version: f.version@, error: f.error@ },
        SizeAction::Queued(q) => SizeActionView::Queued { name: q.name@, version: q.version@, retry_after: q.retry_after },
        SizeAction::ServerError(m) => SizeActionView::ServerError(m@),
        SizeAction::Idle => SizeActionView::Idle,
    }
}

/// The status words of the answer bodies: "ready", "failed", "processing".
pub open spec fn status_ok(a: SizeAction) -> bool {
    match a {
        SizeAction::Ready(r) => r.status@ == "ready"@,
        SizeAction::Failed(f) => f.status@ == "failed"@,
        SizeAction::Queued(q) => q.status@ == "processing"@,
        _ => true,
    }
}

pub open spec fn size_pending_view(s: SizeState) -> SizeActionView {
    size_action_view(size_pending(s))
}

/// The next state and action after `e` in state `s` for `package@version`:
/// a read error is a 500, a cached result is ready, a known failure is a
/// 422, otherwise the job is enqueued and the answer is "processing".  An
/// event that the state does not wait for changes nothing.
pub open spec fn size_next_spec(s: SizeState, e: SizeEvent, package: Seq<char>, version: Seq<char>) -> (SizeState, SizeActionView) {
    match (s, e) {
        (SizeState::AwaitCache, SizeEvent::Cached(Err(err))) => (
            SizeState::Done,
            SizeActionView::ServerError(
                match err {
                    AppError::NotFound(m) => m@,
                    AppError::Internal(m) => m@,
                },
            ),
        ),
        (SizeState::AwaitCache, SizeEvent::Cached(Ok(Some(r)))) => (
            SizeState::Done,
            SizeActionView::Ready(r),
        ),
        (SizeState::AwaitCache, SizeEvent::Cached(Ok(None))) => (
            SizeState::AwaitFailure,
            SizeActionView::QueryFailure,
        ),
        (SizeState::AwaitFailure, SizeEvent::FailureKnown(Some(err))) => (
            SizeState::Done,
            SizeActionView::Failed { name: package, version, error: err@ },
        ),
        (SizeState::AwaitFailure, SizeEvent::FailureKnown(None)) => (
            SizeState::AwaitEnqueue,
            SizeActionView::Enqueue,
        ),
        (SizeState::AwaitEnqueue, SizeEvent::Enqueued) => (
            SizeState::Done,
            SizeActionView::Queued { name: package, version, retry_after: 2 },
        ),
        _ => (s, size_pending_view(s)),
    }
}

fn string_from(s: &str) -> (r: String)
    ensures
        r@ == s@,
{
    let mut r = String::new();
    push_str(&mut r, s);
    r
}

/// The first step (see `size_start_spec`).
pub fn size_start(ecosystem: &str, package: &str) -> (r: Result<(SizeState, SizeAction), ApiError>)
    ensures
        match r {
            Ok((st, a)) => size_start_spec(ecosystem@, package@) == Ok::<(SizeState, SizeAction), Seq<char>>((st, a)),
            Err(e) => e.status == 400 && size_start_spec(ecosystem@, package@) == Err::<(SizeState, SizeAction), Seq<char>>(e.message@),
        },
{
    match validate_name(ecosystem, package) {
        Some(e) => Err(e),
        None => Ok((SizeState::AwaitCache, SizeAction::QueryCache)),
    }
}

/// The next state and action (see `size_next_spec`).
pub fn size_next(s: SizeState, e: SizeEvent, package: &str, version: &str) -> (r: (SizeState, SizeAction))
    ensures
        (r.0, size_action_view(r.1)) == size_next_spec(s, e, package@, version@),
        status_ok(r.1),
{
    match (s, e) {
        (SizeState::AwaitCache, SizeEvent::Cached(Err(err))) => {
            let m = string_from(err.message());
            (SizeState::Done, SizeAction::ServerError(m))
        },
        (SizeState::AwaitCache, SizeEvent::Cached(Ok(Some(r)))) => (
            SizeState::Done,
            SizeAction::Ready(ReadyResponse { status: "ready", result: r }),
        ),
        (SizeState::AwaitCache, SizeEvent::Cached(Ok(None))) => (
            SizeState::AwaitFailure,
            SizeAction::QueryFailure,
        ),
        (SizeState::AwaitFailure, SizeEvent::FailureKnown(Some(err))) => (
            SizeState::Done,
            SizeAction::Failed(
                FailedResponse {
                    status: "failed",
                    name: string_from(package),
                    version: string_from(version),
                    error: err,
                },
            ),
        ),
        (SizeState::AwaitFailure, SizeEvent::FailureKnown(None)) => (
            SizeState::AwaitEnqueue,
            SizeAction::Enqueue,
        ),
        (SizeState::AwaitEnqueue, SizeEvent::Enqueued) => (
            SizeState::Done,
            SizeAction::Queued(
                QueuedResponse {
                    status: "processing",
                    name: string_from(package),
                    version: string_from(version),
                    retry_after: 2,
                },
            ),
        ),
        (s, _) => {
            let a = match s {
                SizeState::AwaitCache => SizeAction::QueryCache,
                SizeState::AwaitFailure => SizeAction::QueryFailure,
                SizeState::AwaitEnqueue => SizeAction::Enqueue,
                SizeState::Done => SizeAction::Idle,
            };
            (s, a)
        },
    }
}


// ---------------------------------------------------------------------------
// Latest version
// ---------------------------------------------------------------------------

/// The answer to a latest-version request.
pub enum LatestReply {
    /// 200 with the result; the request is counted.
    Found(SizeResult),
    /// 404 `package not found`.
    NotFound,
    /// 500 with the error's message.
    Error(ApiError),
}

/// The answer to a latest-version request once the lookup is done.
pub fn latest_reply(lookup: Result<Option<SizeResult>, AppError>) -> (r: LatestReply)
    ensures
        match lookup {
            Ok(Some(res)) => r == LatestReply::Found(res),
            Ok(None) => r is NotFound,
            Err(e) => r matches LatestReply::Error(a) && a.status == 500 && a.message@ == match e {
                AppError::NotFound(m) => m@,
                AppError::Internal(m) => m@,
            },
        },
{
    match lookup {
        Ok(Some(res)) => LatestReply::Found(res),
        Ok(None) => LatestReply::NotFound,
        Err(e) => LatestReply::Error(internal_error(&e)),
    }
}

// ---------------------------------------------------------------------------
// Listing parameters
// ---------------------------------------------------------------------------

/// `v` clamped to `[lo, hi]`.
pub open spec fn clamp_spec(v: int, lo: int, hi: int) -> int {
    if v < lo {
        lo
    } else if v > hi {
        hi
    } else {
        v
    }
}

fn clamp_i64(v: i64, lo: i64, hi: i64) -> (r: i64)
    requires
        lo <= hi,
    ensures
        r == clamp_spec(v as int, lo as int, hi as int),
{
    if v < lo {
        lo
    } else if v > hi {
        hi
    } else {
        v
    }
}

/// `o` or `d`.
pub open spec fn int_or(o: Option<i64>, d: int) -> int {
    match o {
        Some(v) => v as int,
        None => d,
    }
}

/// Query parameters of a search.
pub struct SearchParams {
    pub q: Option<String>,
    pub keyword: Option<String>,
    pub treeshakeable: Option<bool>,
    pub has_types: Option<bool>,
    pub sort: Option<String>,
    pub order: Option<String>,
    pub limit: Option<i64>,
    pub offset: Option<i64>,
}

/// A search with its defaults applied.
pub struct SearchRequest {
    pub query: Option<String>,
    pub keyword: Option<String>,
    pub treeshakeable: Option<bool>,
    pub has_types: Option<bool>,
    pub sort: String,
    pub order: String,
    pub limit: i64,
    pub offset: i64,
}

fn string_or(o: Option<String>, d: &str) -> (r: String)
    ensures
        r@ == match o {
            Some(s) => s@,
            None => d@,
        },
{
    match o {
        Some(s) => s,
        None => string_from(d),
    }
}

fn unknown_ecosystem(ecosystem: &str) -> (e: ApiError)
    ensures
        e.status == 400,
        e.message@ == "unknown ecosystem: "@ + ecosystem@,
{
    let mut m = String::new();
    push_str(&mut m, "unknown ecosystem: ");
    push_str(&mut m, ecosystem);
    ApiError { status: 400, message: m }
}

/// A search for `ecosystem`: an unknown ecosystem is a 400; the limit
/// defaults to 20 and is kept within 1..=100, the offset defaults to 0 and
/// is never negative, the sort defaults to "gzip" and the order to "asc".
pub fn search_request(ecosystem: &str, p: SearchParams) -> (r: Result<SearchRequest, ApiError>)
    ensures
        parse_ecosystem(ecosystem@) is None <==> r is Err,
        r matches Err(e) ==> e.status == 400 && e.message@ == "unknown ecosystem: "@ + ecosystem@,
        r matches Ok(q) ==> {
            &&& q.query == p.q
            &&& q.keyword == p.keyword
            &&& q.treeshakeable == p.treeshakeable
            &&& q.has_types == p.has_types
            &&& q.sort@ == match p.sort { Some(s) => s@, None => "gzip"@ }
            &&& q.order@ == match p.order { Some(s) => s@, None => "asc"@ }
            &&& q.limit == clamp_spec(int_or(p.limit, 20), 1, 100)
            &&& q.offset == if int_or(p.offset, 0) < 0 { 0 } else { int_or(p.offset, 0) }
        },
{
    if Ecosystem::from_name(ecosystem).is_err() {
        return Err(unknown_ecosystem(ecosystem));
    }
    let limit = clamp_i64(match p.limit { Some(v) => v, None => 20 }, 1, 100);
    let off = match p.offset { Some(v) => v, None => 0 };
    let offset = if off < 0 { 0 } else { off };
    Ok(SearchRequest {
        query: p.q,
        keyword: p.keyword,
        treeshakeable: p.treeshakeable,
        has_types: p.has_types,
        sort: string_or(p.sort, "gzip"),
        order: string_or(p.order, "asc"),
        limit,
        offset,
    })
}

/// Query parameters of a top list.
pub struct TopParams {
    pub sort: Option<String>,
    pub limit: Option<i64>,
    pub offset: Option<i64>,
}

/// A top list with its defaults applied.
pub struct TopRequest {
    pub sort: String,
    pub limit: i64,
    pub offset: i64,
}

/// A top list for `ecosystem`: an unknown ecosystem is a 400; the sort
/// defaults to "downloads", limit and offset as for a search.
pub fn top_request(ecosystem: &str, p: TopParams) -> (r: Result<TopRequest, ApiError>)
    ensures
        parse_ecosystem(ecosystem@) is None <==> r is Err,
        r matches Err(e) ==> e.status == 400 && e.message@ == "unknown ecosystem: "@ + ecosystem@,
        r matches Ok(t) ==> {
            &&& t.sort@ == match p.sort { Some(s) => s@, None => "downloads"@ }
            &&& t.limit == clamp_spec(int_or(p.limit, 20), 1, 100)
            &&& t.offset == if int_or(p.offset, 0) < 0 { 0 } else { int_or(p.offset, 0) }
        },
{
    if Ecosystem::from_name(ecosystem).is_err() {
        return Err(unknown_ecosystem(ecosystem));
    }
    let limit = clamp_i64(match p.limit { Some(v) => v, None => 20 }, 1, 100);
    let off = match p.offset { Some(v) => v, None => 0 };
    let offset = if off < 0 { 0 } else { off };
    Ok(TopRequest { sort: string_or(p.sort, "downloads"), limit, offset })
}

/// The number of alternatives asked for: 10 by default, within 1..=50.
pub fn alternatives_limit(limit: Option<i64>) -> (r: i64)
    ensures
        r == clamp_spec(int_or(limit, 10), 1, 50),
{
    clamp_i64(match limit { Some(v) => v, None => 10 }, 1, 50)
}

} // verus!
