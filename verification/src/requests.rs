//! The record of one request to the site, for a caller that shows what is
//! under way.

use vstd::prelude::*;

verus! {

/// A request that is under way or has been answered. Times are in
/// milliseconds.
#[derive(Debug, Clone)]
pub enum RequestState {
    Pending { url: String, started_at: u64 },
    Finished { url: String, code: u16, duration: u64 },
}

/// A `RequestState` as contracts see it.
pub enum RequestStateView {
    Pending { url: Seq<char>, started_at: u64 },
    Finished { url: Seq<char>, code: u16, duration: u64 },
}

impl DeepView for RequestState {
    type V = RequestStateView;

    open spec fn deep_view(&self) -> RequestStateView {
        match *self {
            RequestState::Pending { url, started_at } => RequestStateView::Pending {
                url: url@,
                started_at,
            },
            RequestState::Finished { url, code, duration } => RequestStateView::Finished {
                url: url@,
                code,
                duration,
            },
        }
    }
}

/// The state after the status `code` has arrived at the time `now`: a pending
/// request is finished, with the time that it took; a finished one stays as
/// it is.
pub open spec fn answered(state: RequestStateView, code: u16, now: u64) -> RequestStateView {
    match state {
        RequestStateView::Pending { url, started_at } => RequestStateView::Finished {
            url,
            code,
            duration: if now >= started_at {
                (now - started_at) as u64
            } else {
                0
            },
        },
        other => other,
    }
}

impl RequestState {
    /// Records that the status `code` has arrived at the time `now`.
    pub fn finish(self, code: u16, now: u64) -> (r: Self)
        ensures
            r.deep_view() == answered(self.deep_view(), code, now),
    {
        match self {
            RequestState::Pending { url, started_at } => RequestState::Finished {
                url,
                code,
                duration: if now >= started_at {
                    now - started_at
                } else {
                    0
                },
            },
            other => other,
        }
    }

    /// Whether the request is still under way.
    pub fn is_pending(&self) -> (r: bool)
        ensures
            r == (self.deep_view() is Pending),
    {
        match self {
            RequestState::Pending { .. } => true,
            RequestState::Finished { .. } => false,
        }
    }
}

} // verus!
