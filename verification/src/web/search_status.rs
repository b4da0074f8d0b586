//! The state of the search engine's start-up, as the search handlers wait
//! on it: pending until the engine is ready, and shut down for good once the
//! server stops.

use vstd::prelude::*;

verus! {

#[derive(Clone, Copy, Debug, PartialEq, Eq, Structural)]
pub enum SearchEngineInitializationStatus {
    Pending,
    Ready,
    Shutdown,
}

/// The status after a request to move from `current` to `next`: a shut-down
/// engine stays shut down, and any other request is taken.
pub open spec fn next_status(
    current: SearchEngineInitializationStatus,
    next: SearchEngineInitializationStatus,
) -> SearchEngineInitializationStatus {
    if current == SearchEngineInitializationStatus::Shutdown {
        SearchEngineInitializationStatus::Shutdown
    } else {
        next
    }
}

/// Moves `current` to `next` unless the engine is already shut down, and
/// tells whether the status changed.
pub fn apply_status_transition(
    current: &mut SearchEngineInitializationStatus,
    next: SearchEngineInitializationStatus,
) -> (changed: bool)
    ensures
        *final(current) == next_status(*old(current), next),
        changed == (*final(current) != *old(current)),
{
    if *current == SearchEngineInitializationStatus::Shutdown
        && next != SearchEngineInitializationStatus::Shutdown {
        return false;
    }
    if *current == next {
        return false;
    }
    *current = next;
    true
}

/// Once shut down, the status never changes again, whatever is requested.
pub proof fn lemma_shutdown_is_final(next: SearchEngineInitializationStatus)
    ensures
        next_status(SearchEngineInitializationStatus::Shutdown, next)
            == SearchEngineInitializationStatus::Shutdown,
{
}

/// A requested status is reached from any status but the shut-down one.
pub proof fn lemma_transition_reaches_request(
    current: SearchEngineInitializationStatus,
    next: SearchEngineInitializationStatus,
)
    requires
        current != SearchEngineInitializationStatus::Shutdown,
    ensures
        next_status(current, next) == next,
{
}

#[verifier::external_type_specification]
#[verifier::external_body]
#[verifier::reject_recursive_types(T)]
pub struct ExWatchSender<T>(tokio::sync::watch::Sender<T>);

/// The status that a request found, the status it left, and whether it
/// changed the status.
#[derive(Clone, Copy, Debug, PartialEq, Eq, Structural)]
pub struct StatusTransition {
    pub before: SearchEngineInitializationStatus,
    pub after: SearchEngineInitializationStatus,
    pub changed: bool,
}

/// Moves `current` as `apply_status_transition` does, and notes the status
/// it found.
fn record_transition(
    current: &mut SearchEngineInitializationStatus,
    next: SearchEngineInitializationStatus,
    seen: &mut Option<SearchEngineInitializationStatus>,
) -> (changed: bool)
    ensures
        *final(seen) == Some(*old(current)),
        *final(current) == next_status(*old(current), next),
        changed == (*final(current) != *old(current)),
{
    *seen = Some(*current);
    apply_status_transition(current, next)
}

/// `tokio::sync::watch::Sender::send_if_modified`, which runs its closure
/// once on the watched value under the channel's write lock and returns the
/// closure's result, notifying receivers only when it is true. The closure
/// is `record_transition`, so the call gives back the status it found and
/// whether the status changed.
#[verifier::external_body]
fn send_status_transition(
    sender: &tokio::sync::watch::Sender<SearchEngineInitializationStatus>,
    next: SearchEngineInitializationStatus,
) -> (r: (bool, Option<SearchEngineInitializationStatus>))
    ensures
        r.1 matches Some(before) && r.0 == (next_status(before, next) != before),
{
    let mut seen = None;
    let changed = sender.send_if_modified(|current| record_transition(current, next, &mut seen));
    (changed, seen)
}

/// Requests the status `next` on the channel that the search handlers
/// watch, and tells what the channel held before and holds after: a
/// shut-down engine stays shut down, any other status becomes `next`.
pub fn transition_search_engine_status(
    sender: &tokio::sync::watch::Sender<SearchEngineInitializationStatus>,
    next: SearchEngineInitializationStatus,
) -> (t: StatusTransition)
    ensures
        t.after == next_status(t.before, next),
        t.changed == (t.after != t.before),
{
    let (changed, seen) = send_status_transition(sender, next);
    let before = match seen {
        Some(b) => b,
        None => next,
    };
    let after = if before == SearchEngineInitializationStatus::Shutdown {
        SearchEngineInitializationStatus::Shutdown
    } else {
        next
    };
    StatusTransition { before, after, changed }
}

/// Once the channel holds the shut-down status, a request changes nothing
/// and the status stays shut down, whatever is requested (so the engine is
/// never marked ready again after shutdown).
pub proof fn lemma_shut_down_channel_never_changes(
    t: StatusTransition,
    next: SearchEngineInitializationStatus,
)
    requires
        t.after == next_status(t.before, next),
        t.changed == (t.after != t.before),
        t.before == SearchEngineInitializationStatus::Shutdown,
    ensures
        !t.changed,
        t.after == SearchEngineInitializationStatus::Shutdown,
{
}

/// Requests the status `next` on the channel that the search handlers
/// watch; a shut-down engine is never marked ready again. Tells whether the
/// status changed, which depends on what the channel held before the call
/// (`transition_search_engine_status` gives that status too).
pub fn update_search_engine_initialization_status(
    sender: &tokio::sync::watch::Sender<SearchEngineInitializationStatus>,
    next: SearchEngineInitializationStatus,
) -> (changed: bool) {
    transition_search_engine_status(sender, next).changed
}

/// What a search request waiting on the start-up does at a status: go on
/// with the engine once it is ready, give up once the server shuts down,
/// and keep waiting while start-up is pending.
pub fn initialization_gate(status: SearchEngineInitializationStatus) -> (r: Option<bool>)
    ensures
        r == match status {
            SearchEngineInitializationStatus::Pending => None::<bool>,
            SearchEngineInitializationStatus::Ready => Some(true),
            SearchEngineInitializationStatus::Shutdown => Some(false),
        },
{
    match status {
        SearchEngineInitializationStatus::Pending => None,
        SearchEngineInitializationStatus::Ready => Some(true),
        SearchEngineInitializationStatus::Shutdown => Some(false),
    }
}

/// Whether the start-up has to stop: only once the server shuts down.
pub fn shutdown_requested(status: SearchEngineInitializationStatus) -> (r: bool)
    ensures
        r == (status == SearchEngineInitializationStatus::Shutdown),
{
    status == SearchEngineInitializationStatus::Shutdown
}

} // verus!
