//! The Bundlephobia-compatible endpoint: package specifiers and the
//! check-cache / enqueue / poll decisions.
use vstd::prelude::*;

use crate::response::{bundlephobia_of, BundlephobiaResponse};
use crate::text::{chars_of, find_char, find_from, lemma_find_from_bounds, push_str, string_of};
use crate::types::{AppError, SizeResult};

verus! {

pub open spec fn msg_invalid_spec() -> Seq<char> {
    "invalid package specifier"@
}

pub open spec fn msg_format() -> Seq<char> {
    "package specifier must be in format name@version"@
}

/// Splits `name@version`; a scoped name keeps its leading `@`.  The name
/// and the version must both be non-empty.
pub open spec fn parse_package_spec_spec(spec: Seq<char>) -> Result<(Seq<char>, Seq<char>), Seq<char>> {
    let start: int = if spec.len() > 0 && spec[0] == '@' {
        1
    } else {
        0
    };
    match find_from(spec, '@', start) {
        Some(at) => {
            let name = spec.take(at);
            let version = spec.skip(at + 1);
            if name.len() == 0 || version.len() == 0 {
                Err(msg_invalid_spec())
            } else {
                Ok((name, version))
            }
        },
        None => Err(msg_format()),
    }
}

/// Splits a `name@version` specifier (see `parse_package_spec_spec`); a
/// malformed one is refused as not found.
pub fn parse_package_spec(spec: &str) -> (r: Result<(String, String), AppError>)
    ensures
        match r {
            Ok((n, v)) => parse_package_spec_spec(spec@) == Ok::<(Seq<char>, Seq<char>), Seq<char>>((n@, v@)),
            Err(AppError::NotFound(m)) => parse_package_spec_spec(spec@) == Err::<(Seq<char>, Seq<char>), Seq<char>>(m@),
            Err(AppError::Internal(_)) => false,
        },
{
    let v = chars_of(spec);
    let start: usize = if v.len() > 0 && v[0] == '@' {
        1
    } else {
        0
    };
    match find_char(&v, '@', start) {
        Some(at) => {
            proof {
                lemma_find_from_bounds(v@, '@', start as int);
            }
            if at == 0 || at + 1 == v.len() {
                let mut m = String::new();
                push_str(&mut m, "invalid package specifier");
                return Err(AppError::NotFound(m));
            }
            let name = string_of(&v, 0, at);
            let version = string_of(&v, at + 1, v.len());
            assert(v@.take(at as int) =~= v@.subrange(0, at as int));
            assert(v@.skip(at + 1) =~= v@.subrange(at + 1, v.len() as int));
            Ok((name, version))
        },
        None => {
            let mut m = String::new();
            push_str(&mut m, "package specifier must be in format name@version");
            Err(AppError::NotFound(m))
        },
    }
}

// ---------------------------------------------------------------------------
// Check the cache, then known failures, then enqueue and poll until a
// result, a failure, or the deadline.
// ---------------------------------------------------------------------------

/// Where a compatible request stands.  `polling` is set once the job has
/// been enqueued.
#[derive(Clone, Copy, PartialEq, Eq, Structural)]
pub enum CompatState {
    AwaitCache { polling: bool },
    AwaitFailure { polling: bool },
    AwaitEnqueue,
    AwaitTick,
    Done,
}

/// What the outside work reported.
pub enum CompatEvent {
    /// The size cache was read (a read error counts as a miss).
    Cached(Option<SizeResult>),
    /// The failure cache was read.
    FailureKnown(Option<String>),
    /// The job was enqueued (an enqueue error is only logged).
    Enqueued,
    /// One polling interval elapsed; `expired` when the deadline has passed.
    Tick { expired: bool },
}

/// What to do next.
pub enum CompatAction {
    QueryCache,
    QueryFailure,
    Enqueue,
    WaitTick,
    /// Answer 200 with this body, counting the request.
    Found(BundlephobiaResponse),
    /// Answer 422 with this error.
    Failed(String),
    /// Answer 504: the analysis timed out.
    TimedOut,
    /// Nothing is left to do.
    Idle,
}

/// The action a state waits on.
pub open spec fn pending(s: CompatState) -> CompatAction {
    match s {
        CompatState::AwaitCache { .. } => CompatAction::QueryCache,
        CompatState::AwaitFailure { .. } => CompatAction::QueryFailure,
        CompatState::AwaitEnqueue => CompatAction::Enqueue,
        CompatState::AwaitTick => CompatAction::WaitTick,
        CompatState::Done => CompatAction::Idle,
    }
}

/// The first step: look in the size cache.
pub open spec fn compat_start_spec() -> (CompatState, CompatAction) {
    (CompatState::AwaitCache { polling: false }, CompatAction::QueryCache)
}

/// The next state and action after `e` in state `s`.  An event that the
/// state does not wait for changes nothing.
pub open spec fn compat_next_spec(s: CompatState, e: CompatEvent) -> (CompatState, CompatAction) {
    match (s, e) {
        (CompatState::AwaitCache { polling }, CompatEvent::Cached(Some(r))) => (
            CompatState::Done,
            CompatAction::Found(bundlephobia_of(r)),
        ),
        (CompatState::AwaitCache { polling }, CompatEvent::Cached(None)) => (
            CompatState::AwaitFailure { polling },
            CompatAction::QueryFailure,
        ),
        (CompatState::AwaitFailure { polling }, CompatEvent::FailureKnown(Some(err))) => (
            CompatState::Done,
            CompatAction::Failed(err),
        ),
        (CompatState::AwaitFailure { polling }, CompatEvent::FailureKnown(None)) => if polling {
            (CompatState::AwaitTick, CompatAction::WaitTick)
        } else {
            (CompatState::AwaitEnqueue, CompatAction::Enqueue)
        },
        (CompatState::AwaitEnqueue, CompatEvent::Enqueued) => (
            CompatState::AwaitTick,
            CompatAction::WaitTick,
        ),
        (CompatState::AwaitTick, CompatEvent::Tick { expired }) => if expired {
            (CompatState::Done, CompatAction::TimedOut)
        } else {
            (CompatState::AwaitCache { polling: true }, CompatAction::QueryCache)
        },
        _ => (s, pending(s)),
    }
}

pub fn compat_start() -> (r: (CompatState, CompatAction))
    ensures
        r == compat_start_spec(),
{
    (CompatState::AwaitCache { polling: false }, CompatAction::QueryCache)
}

fn pending_of(s: CompatState) -> (a: CompatAction)
    ensures
        a == pending(s),
{
    match s {
        CompatState::AwaitCache { .. } => CompatAction::QueryCache,
        CompatState::AwaitFailure { .. } => CompatAction::QueryFailure,
        CompatState::AwaitEnqueue => CompatAction::Enqueue,
        CompatState::AwaitTick => CompatAction::WaitTick,
        CompatState::Done => CompatAction::Idle,
    }
}

/// The next state and action (see `compat_next_spec`).
pub fn compat_next(s: CompatState, e: CompatEvent) -> (r: (CompatState, CompatAction))
    ensures
        r == compat_next_spec(s, e),
{
    match (s, e) {
        (CompatState::AwaitCache { polling }, CompatEvent::Cached(Some(r))) => (
            CompatState::Done,
            CompatAction::Found(BundlephobiaResponse::from(r)),
        ),
        (CompatState::AwaitCache { polling }, CompatEvent::Cached(None)) => (
            CompatState::AwaitFailure { polling },
            CompatAction::QueryFailure,
        ),
        (CompatState::AwaitFailure { polling }, CompatEvent::FailureKnown(Some(err))) => (
            CompatState::Done,
            CompatAction::Failed(err),
        ),
        (CompatState::AwaitFailure { polling }, CompatEvent::FailureKnown(None)) => if polling {
            (CompatState::AwaitTick, CompatAction::WaitTick)
        } else {
            (CompatState::AwaitEnqueue, CompatAction::Enqueue)
        },
        (CompatState::AwaitEnqueue, CompatEvent::Enqueued) => (
            CompatState::AwaitTick,
            CompatAction::WaitTick,
        ),
        (CompatState::AwaitTick, CompatEvent::Tick { expired }) => if expired {
            (CompatState::Done, CompatAction::TimedOut)
        } else {
            (CompatState::AwaitCache { polling: true }, CompatAction::QueryCache)
        },
        (s, _) => (s, pending_of(s)),
    }
}

} // verus!
