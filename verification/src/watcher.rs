//! The repository watcher's decision logic.
//!
//! The process owns at most one active filesystem watch. A watch request
//! either finds the requested path already watched and does nothing, or
//! replaces the current watch: the old one is torn down first, then the new
//! one is set up. The filesystem subscription itself and the listener
//! thread live outside this crate; they carry out the returned plan and
//! feed every received event back in as plain values. Each watch carries a
//! generation number, so that events stamped by a watch that has since been
//! replaced are recognised as stale.
//!
//! Event policy: only creation, modification and removal events count;
//! events touching VCS-internal or dependency directories are discarded;
//! a surviving event is notified only when more than the debounce window
//! has passed since the last notification, and every notification resets
//! the window.

use vstd::prelude::*;
use crate::text::{has_sub, ends_with};
use crate::text::{contains_sub, str_ends_with};

verus! {

/// The watcher's own state: the path currently watched, if any, and the
/// generation of the current watch. The filesystem handle itself is held by
/// the surrounding shell.
pub struct WatcherState {
    pub current_path: Option<String>,
    pub generation: u64,
}

/// Mathematical image of a [`WatcherState`].
pub ghost struct WatcherModel {
    pub current_path: Option<Seq<char>>,
    pub generation: int,
}

impl View for WatcherState {
    type V = WatcherModel;

    open spec fn view(&self) -> WatcherModel {
        WatcherModel {
            current_path: match self.current_path {
                Some(p) => Some(p@),
                None => None,
            },
            generation: self.generation as int,
        }
    }
}

/// What the shell must do after a watch request: tear the old watch down,
/// set a new one up on the requested path (in that order), or neither. The
/// generation stamps the watch that is current once the plan is carried
/// out.
pub struct WatchPlan {
    pub teardown_old: bool,
    pub setup_new: bool,
    pub generation: u64,
}

/// The watcher transition: a request for an already watched path changes
/// nothing; any other request replaces the watch, tearing an existing one
/// down, and advances the generation.
pub open spec fn watch_step(m: WatcherModel, p: Seq<char>) -> (WatcherModel, bool, bool) {
    if m.current_path == Some(p) {
        (m, false, false)
    } else {
        (
            WatcherModel { current_path: Some(p), generation: m.generation + 1 },
            m.current_path is Some,
            true,
        )
    }
}

/// Handles a watch request: updates the state as [`watch_step`] says and
/// returns the plan the shell must carry out.
pub fn watch_repo(state: &mut WatcherState, path: String) -> (plan: WatchPlan)
    requires
        old(state).generation < u64::MAX,
    ensures
        final(state)@ == watch_step(old(state)@, path@).0,
        plan.teardown_old == watch_step(old(state)@, path@).1,
        plan.setup_new == watch_step(old(state)@, path@).2,
        plan.generation == final(state).generation,
{
    let same = match &state.current_path {
        Some(cur) => *cur == path,
        None => false,
    };
    if same {
        return WatchPlan { teardown_old: false, setup_new: false, generation: state.generation };
    }
    let teardown_old = state.current_path.is_some();
    state.generation = state.generation + 1;
    state.current_path = Some(path);
    WatchPlan { teardown_old, setup_new: true, generation: state.generation }
}

/// An event stamped with a generation belongs to the current watch exactly
/// when the generations agree; events of a replaced watch are stale.
pub fn accept_event(state: &WatcherState, event_generation: u64) -> (b: bool)
    ensures
        b == (event_generation == state.generation),
{
    event_generation == state.generation
}

/// Requesting a watch on the path already watched is a no-op: the state is
/// unchanged and nothing is torn down or set up. In particular two requests
/// for the same path in a row leave exactly one active watch, established
/// once.
pub proof fn lemma_watch_idempotent(m: WatcherModel, p: Seq<char>)
    ensures
        watch_step(m, p).0.current_path == Some(p),
        watch_step(watch_step(m, p).0, p).0 == watch_step(m, p).0,
        !watch_step(watch_step(m, p).0, p).1,
        !watch_step(watch_step(m, p).0, p).2,
{
}

/// Requesting a watch on `b` while `a` is watched tears the old watch down
/// and sets the new one up; afterwards `b` alone is watched, under a fresh
/// generation, so events stamped by the replaced watch are stale.
pub proof fn lemma_watch_replace(m: WatcherModel, a: Seq<char>, b: Seq<char>)
    requires
        m.current_path == Some(a),
        a != b,
    ensures
        watch_step(m, b).1,
        watch_step(m, b).2,
        watch_step(m, b).0.current_path == Some(b),
        watch_step(m, b).0.generation != m.generation,
{
}

/// A path the watcher discards: inside the VCS metadata directory, a
/// co-located plain VCS directory, or a dependency cache, or naming such a
/// directory itself.
pub open spec fn ignored_path(p: Seq<char>) -> bool {
    ||| has_sub(p, "/.jj"@)
    ||| has_sub(p, "/.git"@)
    ||| has_sub(p, "/node_modules"@)
    ||| ends_with(p, ".jj"@)
    ||| ends_with(p, ".git"@)
}

/// Runtime test for [`ignored_path`].
pub fn path_is_ignored(p: &str) -> (b: bool)
    ensures
        b == ignored_path(p@),
{
    contains_sub(p, "/.jj") || contains_sub(p, "/.git") || contains_sub(p, "/node_modules")
        || str_ends_with(p, ".jj") || str_ends_with(p, ".git")
}

/// An event is discarded when any path it touches is ignored.
pub open spec fn event_ignored(paths: Seq<Seq<char>>) -> bool {
    exists|i: int| 0 <= i < paths.len() && ignored_path(#[trigger] paths[i])
}

/// Runtime test for [`event_ignored`].
pub fn any_path_ignored(paths: &Vec<String>) -> (b: bool)
    ensures
        b == event_ignored(paths.deep_view()),
{
    let mut i: usize = 0;
    while i < paths.len()
        invariant
            i <= paths.len(),
            forall|j: int| 0 <= j < i ==> !ignored_path(#[trigger] paths.deep_view()[j]),
        decreases paths.len() - i,
    {
        if path_is_ignored(paths[i].as_str()) {
            proof {
                assert(ignored_path(paths.deep_view()[i as int]));
            }
            return true;
        }
        i += 1;
    }
    false
}

/// Only creation, modification and removal events are considered.
pub open spec fn relevant_kind(is_create: bool, is_modify: bool, is_remove: bool) -> bool {
    is_create || is_modify || is_remove
}

/// The debounce gate: the first event after idle passes, and afterwards an
/// event passes only when more than the window has elapsed since the last
/// notification.
pub open spec fn debounce_open(last_emit: Option<u64>, now: u64, window: u64) -> bool {
    match last_emit {
        None => true,
        Some(t) => now - t > window,
    }
}

/// Whether one surviving event produces a notification: its kind counts,
/// no touched path is ignored, and the debounce gate is open.
pub open spec fn emit_decision(
    is_create: bool,
    is_modify: bool,
    is_remove: bool,
    paths: Seq<Seq<char>>,
    last_emit: Option<u64>,
    now: u64,
    window: u64,
) -> bool {
    &&& relevant_kind(is_create, is_modify, is_remove)
    &&& !event_ignored(paths)
    &&& debounce_open(last_emit, now, window)
}

/// The listener's debounce state: when the last notification went out, if
/// one did.
pub struct DebounceState {
    pub last_emit: Option<u64>,
}

/// Handles one filesystem event: decides whether to notify, as
/// [`emit_decision`] says, and resets the debounce window on every
/// notification. Times are milliseconds on one monotone clock.
pub fn process_event(
    deb: &mut DebounceState,
    is_create: bool,
    is_modify: bool,
    is_remove: bool,
    paths: &Vec<String>,
    now_ms: u64,
    window_ms: u64,
) -> (emit: bool)
    requires
        old(deb).last_emit matches Some(t) ==> t <= now_ms,
    ensures
        emit == emit_decision(
            is_create,
            is_modify,
            is_remove,
            paths.deep_view(),
            old(deb).last_emit,
            now_ms,
            window_ms,
        ),
        final(deb).last_emit == (if emit {
            Some(now_ms)
        } else {
            old(deb).last_emit
        }),
{
    if !(is_create || is_modify || is_remove) {
        return false;
    }
    if any_path_ignored(paths) {
        return false;
    }
    let open = match deb.last_emit {
        None => true,
        Some(t) => now_ms - t > window_ms,
    };
    if open {
        deb.last_emit = Some(now_ms);
    }
    open
}

/// An event that only touches paths inside the VCS metadata directory is
/// never notified, whatever the debounce state.
pub proof fn lemma_metadata_event_never_emits(
    is_create: bool,
    is_modify: bool,
    is_remove: bool,
    paths: Seq<Seq<char>>,
    last_emit: Option<u64>,
    now: u64,
    window: u64,
)
    requires
        paths.len() > 0,
        forall|i: int| 0 <= i < paths.len() ==> has_sub(#[trigger] paths[i], "/.jj"@),
    ensures
        !emit_decision(is_create, is_modify, is_remove, paths, last_emit, now, window),
{
    assert(ignored_path(paths[0]));
}

} // verus!
