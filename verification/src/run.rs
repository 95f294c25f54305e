//! How one request is served: from the cache where it holds the answer, else
//! by waiting at the rate limiter, fetching the page, extracting its content and
//! storing the result. The steps that wait are the caller's; what to do next
//! is decided here.

use crate::cache::{age_at, CacheEntry, CachedRequest, EntryView};
use crate::models::ExtractError;
use crate::response::{marked_cached, marked_fresh, ok_response, ApiResponse, ResponseView};
use crate::text::copy_of;
use vstd::prelude::*;

verus! {

/// Tokens that the rate limiter holds when the service starts.
pub const RATELIMIT_INITIAL: usize = 0;

/// Tokens that the rate limiter gains at each refill.
pub const RATELIMIT_REFILL_AMOUNT: usize = 1;

/// Milliseconds between two refills of the rate limiter.
pub const RATELIMIT_REFILL_INTERVAL_MS: u64 = 1000;

/// Tokens that the rate limiter holds at most.
pub const RATELIMIT_MAX: usize = 2;

/// Parts into which the service splits its cache, each behind a lock of its
/// own.
pub const CACHE_SHARDS: usize = 16;

/// Seconds between two sweeps of the cache.
pub const SWEEP_INTERVAL_S: u64 = 60;

/// The answer to an event that does not belong to the state it came in.
pub const OUT_OF_TURN: &'static str = "unexpected event";

/// Where the serving of a request stands.
#[derive(Debug, Clone, Copy, PartialEq, Eq, Structural)]
pub enum RunState {
    /// The cache is being asked.
    CacheCheck,
    /// The cache held nothing; a token of the rate limiter is awaited.
    LimiterWait,
    /// The page is being fetched.
    Fetch,
    /// The page is being read.
    Extract,
    /// The answer has been given.
    Done,
}

/// What happened since the last step.
#[derive(Debug, Clone)]
pub enum RunEvent {
    /// The cache holds this entry for the request.
    CacheHit(CacheEntry),
    /// The cache holds nothing for the request.
    CacheMiss,
    /// The rate limiter has given a token.
    TokenGranted,
    /// The page has arrived.
    Fetched(String),
    /// The page could not be fetched; the message says why.
    FetchFailed(String),
    /// The page has been read; this is the payload to serve.
    Extracted(String),
    /// The page could not be read: the error says in which way, the message
    /// is what the caller is told.
    ExtractFailed(ExtractError, String),
}

/// What the caller is to do next.
#[derive(Debug, Clone)]
pub enum RunAction {
    /// Wait for a token of the rate limiter.
    WaitForToken,
    /// Fetch the page of the request.
    FetchPage,
    /// Read this page.
    ExtractPage(String),
    /// Store the payload in the cache under the request, then give the answer.
    StoreAndRespond { payload: String, response: ApiResponse },
    /// Give the answer; the cache is left as it is.
    Respond(ApiResponse),
}

/// A `RunEvent` as contracts see it.
pub enum EventView {
    CacheHit(EntryView),
    CacheMiss,
    TokenGranted,
    Fetched(Seq<char>),
    FetchFailed(Seq<char>),
    Extracted(Seq<char>),
    ExtractFailed(ExtractError, Seq<char>),
}

/// A `RunAction` as contracts see it.
pub enum ActionView {
    WaitForToken,
    FetchPage,
    ExtractPage(Seq<char>),
    StoreAndRespond { payload: Seq<char>, response: ResponseView },
    Respond(ResponseView),
}

impl DeepView for RunEvent {
    type V = EventView;

    open spec fn deep_view(&self) -> EventView {
        match *self {
            RunEvent::CacheHit(entry) => EventView::CacheHit(entry.deep_view()),
            RunEvent::CacheMiss => EventView::CacheMiss,
            RunEvent::TokenGranted => EventView::TokenGranted,
            RunEvent::Fetched(body) => EventView::Fetched(body@),
            RunEvent::FetchFailed(message) => EventView::FetchFailed(message@),
            RunEvent::Extracted(payload) => EventView::Extracted(payload@),
            RunEvent::ExtractFailed(error, message) => EventView::ExtractFailed(error, message@),
        }
    }
}

impl DeepView for RunAction {
    type V = ActionView;

    open spec fn deep_view(&self) -> ActionView {
        match *self {
            RunAction::WaitForToken => ActionView::WaitForToken,
            RunAction::FetchPage => ActionView::FetchPage,
            RunAction::ExtractPage(body) => ActionView::ExtractPage(body@),
            RunAction::StoreAndRespond { payload, response } => ActionView::StoreAndRespond {
                payload: payload@,
                response: response.deep_view(),
            },
            RunAction::Respond(response) => ActionView::Respond(response.deep_view()),
        }
    }
}

/// The answer where the page could not be fetched: a failure on the side of
/// the site, whatever was asked for.
pub open spec fn upstream_failure(message: Seq<char>) -> ResponseView {
    ResponseView::InternalError(message)
}

/// The answer where the page could not be read. A page that has not the
/// expected structure, or is of a format that is not supported, answers "not
/// found", whatever was asked for: from the page alone nobody can tell an
/// entity that does not exist from a layout that has changed. An error in a
/// single field, which the page extractors recover from and never return,
/// answers "internal error".
pub open spec fn extract_failure(error: ExtractError, message: Seq<char>) -> ResponseView {
    match error {
        ExtractError::StructureNotFound => ResponseView::NotFound(message),
        ExtractError::UnsupportedPageVariant => ResponseView::NotFound(message),
        ExtractError::FieldParseError => ResponseView::InternalError(message),
    }
}

/// The next state and what to do, for a state and what happened in it, at
/// the time `now`.
///
/// A hit is answered from the cache with its age. A miss waits at the rate limiter,
/// then fetches, then reads the page. Only a page that was read is stored.
/// A failure to fetch or to read is answered by the class of the failure and
/// leaves the cache alone. An event that does not belong to the state ends
/// the run with an internal error. Nothing of this depends on what was asked
/// for.
pub open spec fn next_step(state: RunState, event: EventView, now: u64) -> (
    RunState,
    ActionView,
) {
    match (state, event) {
        (RunState::CacheCheck, EventView::CacheHit(entry)) => (
            RunState::Done,
            ActionView::Respond(marked_cached(ok_response(entry.value), age_at(entry, now) as u64)),
        ),
        (RunState::CacheCheck, EventView::CacheMiss) => (
            RunState::LimiterWait,
            ActionView::WaitForToken,
        ),
        (RunState::LimiterWait, EventView::TokenGranted) => (RunState::Fetch, ActionView::FetchPage),
        (RunState::Fetch, EventView::Fetched(body)) => (
            RunState::Extract,
            ActionView::ExtractPage(body),
        ),
        (RunState::Fetch, EventView::FetchFailed(message)) => (
            RunState::Done,
            ActionView::Respond(upstream_failure(message)),
        ),
        (RunState::Extract, EventView::Extracted(payload)) => (
            RunState::Done,
            ActionView::StoreAndRespond {
                payload,
                response: marked_fresh(ok_response(payload)),
            },
        ),
        (RunState::Extract, EventView::ExtractFailed(error, message)) => (
            RunState::Done,
            ActionView::Respond(extract_failure(error, message)),
        ),
        _ => (RunState::Done, ActionView::Respond(ResponseView::InternalError(OUT_OF_TURN@))),
    }
}

/// The answer where the page could not be fetched.
pub fn answer_upstream_failure(message: &str) -> (r: ApiResponse)
    ensures
        r.deep_view() == upstream_failure(message@),
{
    ApiResponse::new_internal_error(message)
}

/// The answer where the page could not be read.
pub fn answer_extract_failure(error: ExtractError, message: &str) -> (r: ApiResponse)
    ensures
        r.deep_view() == extract_failure(error, message@),
{
    match error {
        ExtractError::StructureNotFound => ApiResponse::new_not_found(message),
        ExtractError::UnsupportedPageVariant => ApiResponse::new_not_found(message),
        ExtractError::FieldParseError => ApiResponse::new_internal_error(message),
    }
}

impl CachedRequest {
    /// The state in which the serving of a request begins: the caller looks
    /// the request up in the cache and reports a hit or a miss.
    pub fn begin(&self) -> (r: RunState)
        ensures
            r == RunState::CacheCheck,
    {
        RunState::CacheCheck
    }

    /// Decides the next step of serving this request.
    pub fn run(&self, state: RunState, event: RunEvent, now: u64) -> (r: (RunState, RunAction))
        ensures
            r.0 == next_step(state, event.deep_view(), now).0,
            r.1.deep_view() == next_step(state, event.deep_view(), now).1,
    {
        match (state, event) {
            (RunState::CacheCheck, RunEvent::CacheHit(entry)) => {
                let age = entry.age(now);
                (
                    RunState::Done,
                    RunAction::Respond(ApiResponse::new_ok_from_string(entry.value).cached(age)),
                )
            },
            (RunState::CacheCheck, RunEvent::CacheMiss) => (
                RunState::LimiterWait,
                RunAction::WaitForToken,
            ),
            (RunState::LimiterWait, RunEvent::TokenGranted) => (RunState::Fetch, RunAction::FetchPage),
            (RunState::Fetch, RunEvent::Fetched(body)) => (
                RunState::Extract,
                RunAction::ExtractPage(body),
            ),
            (RunState::Fetch, RunEvent::FetchFailed(message)) => (
                RunState::Done,
                RunAction::Respond(answer_upstream_failure(message.as_str())),
            ),
            (RunState::Extract, RunEvent::Extracted(payload)) => {
                let response = ApiResponse::new_ok_from_string(copy_of(payload.as_str())).nocache();
                (RunState::Done, RunAction::StoreAndRespond { payload, response })
            },
            (RunState::Extract, RunEvent::ExtractFailed(error, message)) => (
                RunState::Done,
                RunAction::Respond(answer_extract_failure(error, message.as_str())),
            ),
            _ => (RunState::Done, RunAction::Respond(ApiResponse::new_internal_error(OUT_OF_TURN))),
        }
    }
}

/// How far a run has come: each state counts higher than the one before it.
pub open spec fn progress(state: RunState) -> nat {
    match state {
        RunState::CacheCheck => 0,
        RunState::LimiterWait => 1,
        RunState::Fetch => 2,
        RunState::Extract => 3,
        RunState::Done => 4,
    }
}

/// A run always moves on and ends: every step leads to a later state or to
/// `Done`, so an answer is given after four steps at most, and `Done` is
/// left by no event. An answer is given exactly when the run is done.
pub proof fn lemma_run_moves_on(state: RunState, event: EventView, now: u64)
    ensures
        next_step(state, event, now).0 == RunState::Done || progress(
            next_step(state, event, now).0,
        ) == progress(state) + 1,
        state == RunState::Done ==> next_step(state, event, now).0 == RunState::Done,
        next_step(state, event, now).0 == RunState::Done <==> (next_step(state, event, now).1 is Respond || next_step(state, event, now).1 is StoreAndRespond),
{
}

/// The cache is written only after a page has been read: a step asks to store
/// a payload exactly when it was taken in the state `Extract` on the event
/// that the page was read, and it then stores that payload. No failure, and
/// no hit, writes to the cache.
pub proof fn lemma_only_success_is_stored(state: RunState, event: EventView, now: u64)
    ensures
        next_step(state, event, now).1 is StoreAndRespond <==> (state == RunState::Extract
            && event is Extracted),
        next_step(state, event, now).1 matches ActionView::StoreAndRespond {
            payload,
            ..
        } ==> event == EventView::Extracted(payload),
{
}

/// The rate limiter is passed only on a miss: a step asks to wait for a token
/// exactly when the cache was asked and held nothing.
pub proof fn lemma_limiter_only_on_miss(state: RunState, event: EventView, now: u64)
    ensures
        next_step(state, event, now).1 is WaitForToken <==> (state == RunState::CacheCheck
            && event is CacheMiss),
{
}

/// A failure is classed by the error and not by what was asked for: a page
/// that could not be fetched never answers "not found", and a page that has
/// not the expected structure or is of an unsupported format always does.
pub proof fn lemma_failures_are_classed_by_the_error(
    error: ExtractError,
    message: Seq<char>,
    now: u64,
)
    ensures
        next_step(RunState::Fetch, EventView::FetchFailed(message), now).1 == ActionView::Respond(
            ResponseView::InternalError(message),
        ),
        error != ExtractError::FieldParseError ==> next_step(
            RunState::Extract,
            EventView::ExtractFailed(error, message),
            now,
        ).1 == ActionView::Respond(ResponseView::NotFound(message)),
{
}

} // verus!
