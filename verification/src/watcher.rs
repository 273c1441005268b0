//! The file watcher: watch set, debounce filter, dispatcher and status log
//! under one roof, driven by change notifications and rebuild reports.
//!
//! The watcher is a state machine. A notification and the time at which it
//! arrived, or the report that a rebuild has ended, takes it to its next
//! state and yields the rebuild that the caller is to start, if any. The
//! caller owns the notification source, the clock and the rebuild procedure.

use vstd::prelude::*;
use crate::debounce::{suppressed_at, swept, DebounceRegistry};
use crate::dispatcher::{
    complete_lines,
    completed,
    next_up,
    path_view,
    submit_lines,
    submitted,
    Dispatcher,
    DispatcherState,
    RebuildOutcome,
};
use crate::log_store::LogStore;
use crate::text::{labelled, lemma_lines_of_push, lines_of};
use crate::watch_set::WatchedFileSet;

verus! {

/// The debounce window that a watcher starts with, in milliseconds.
pub const DEFAULT_DEBOUNCE_MS: u64 = 2000;

/// What happened to a path.
#[derive(Clone, Copy, Debug, PartialEq, Eq, Structural)]
pub enum ChangeKind {
    /// The path came into being.
    Created,
    /// The content or the metadata of the path changed.
    Modified,
    /// The path went away.
    Removed,
    /// The path was only read, or the source could not tell what happened.
    Other,
}

/// One event of the notification source: what happened, and to which paths.
pub struct Notification {
    /// The paths that the event is about.
    pub paths: Vec<String>,
    /// What happened to them.
    pub kind: ChangeKind,
}

/// What the watcher made of one event.
pub struct Handled {
    /// The paths whose change was accepted as a trigger, in event order.
    pub accepted: Vec<String>,
    /// The path whose rebuild the caller is to start now, if any.
    pub start: Option<String>,
}

/// The model of a watcher.
#[verifier::ext_equal]
pub struct WatcherState {
    /// The tracked paths.
    pub watched: Set<Seq<char>>,
    /// The status log, oldest line first.
    pub logs: Seq<Seq<char>>,
    /// Each registered path with the time of the trigger that registered it.
    pub suppressed: Map<Seq<char>, nat>,
    /// The length of the debounce window.
    pub window: nat,
    /// The rebuild in flight and the triggers that wait.
    pub dispatcher: DispatcherState,
}

/// The first line of every watcher's log.
pub open spec fn initialized_line() -> Seq<char> {
    "Initialized watcher..."@
}

/// The line that records an error of the notification source.
pub open spec fn watch_error_line(reason: Seq<char>) -> Seq<char> {
    "Watch error: "@ + reason
}

/// Whether a change of this kind can trigger a rebuild.
pub open spec fn qualifies(kind: ChangeKind) -> bool {
    kind is Created || kind is Modified
}

/// Whether a change of `kind` to `path` at time `now` is accepted as a
/// trigger: the kind qualifies, the path is tracked, and the path is not
/// suppressed.
pub open spec fn accepts(s: WatcherState, path: Seq<char>, kind: ChangeKind, now: nat) -> bool {
    qualifies(kind) && s.watched.contains(path) && !suppressed_at(
        s.suppressed,
        s.window,
        path,
        now,
    )
}

/// The watcher after a change of `kind` to `path` at time `now`. An
/// accepted change registers the path and goes to the dispatcher; any other
/// leaves the watcher as it was.
pub open spec fn after_change(s: WatcherState, path: Seq<char>, kind: ChangeKind, now: nat)
    -> WatcherState {
    if accepts(s, path, kind, now) {
        WatcherState {
            watched: s.watched,
            logs: s.logs + submit_lines(s.dispatcher, path),
            suppressed: s.suppressed.insert(path, now),
            window: s.window,
            dispatcher: submitted(s.dispatcher, path),
        }
    } else {
        s
    }
}

/// The watcher after changes of `kind` to each of `paths`, in order, all at
/// time `now`.
pub open spec fn after_changes(
    s: WatcherState,
    paths: Seq<Seq<char>>,
    kind: ChangeKind,
    now: nat,
) -> WatcherState
    decreases paths.len(),
{
    if paths.len() == 0 {
        s
    } else {
        after_change(after_changes(s, paths.drop_last(), kind, now), paths.last(), kind, now)
    }
}

/// The paths among `paths` whose change is accepted as a trigger, in order.
pub open spec fn accepted_of(
    s: WatcherState,
    paths: Seq<Seq<char>>,
    kind: ChangeKind,
    now: nat,
) -> Seq<Seq<char>>
    decreases paths.len(),
{
    if paths.len() == 0 {
        Seq::empty()
    } else {
        let before = accepted_of(s, paths.drop_last(), kind, now);
        if accepts(after_changes(s, paths.drop_last(), kind, now), paths.last(), kind, now) {
            before.push(paths.last())
        } else {
            before
        }
    }
}

/// The watcher with the registry swept at time `now`.
pub open spec fn swept_state(s: WatcherState, now: nat) -> WatcherState {
    WatcherState {
        watched: s.watched,
        logs: s.logs,
        suppressed: swept(s.suppressed, s.window, now),
        window: s.window,
        dispatcher: s.dispatcher,
    }
}

/// The watcher after a notification of `kind` about `paths` at time `now`:
/// the registry is swept, then each path is offered in turn.
pub open spec fn after_notification(
    s: WatcherState,
    paths: Seq<Seq<char>>,
    kind: ChangeKind,
    now: nat,
) -> WatcherState {
    after_changes(swept_state(s, now), paths, kind, now)
}

/// The triggers that a notification of `kind` about `paths` at time `now`
/// gives rise to.
pub open spec fn triggers_of(s: WatcherState, paths: Seq<Seq<char>>, kind: ChangeKind, now: nat)
    -> Seq<Seq<char>> {
    accepted_of(swept_state(s, now), paths, kind, now)
}

/// The watcher after the notification source reported an error.
pub open spec fn after_watch_error(s: WatcherState, reason: Seq<char>) -> WatcherState {
    WatcherState {
        watched: s.watched,
        logs: s.logs.push(watch_error_line(reason)),
        suppressed: s.suppressed,
        window: s.window,
        dispatcher: s.dispatcher,
    }
}

/// The watcher after what the notification source delivered at time `now`.
pub open spec fn after_event(s: WatcherState, res: Result<Notification, String>, now: nat)
    -> WatcherState {
    match res {
        Ok(n) => after_notification(s, lines_of(n.paths@), n.kind, now),
        Err(reason) => after_watch_error(s, reason@),
    }
}

/// The triggers that what the notification source delivered gives rise to.
pub open spec fn triggers_of_event(s: WatcherState, res: Result<Notification, String>, now: nat)
    -> Seq<Seq<char>> {
    match res {
        Ok(n) => triggers_of(s, lines_of(n.paths@), n.kind, now),
        Err(_) => Seq::empty(),
    }
}

/// The rebuild to start after `accepted` went to a dispatcher that was in
/// state `d` before: the first of them, if the dispatcher was idle.
pub open spec fn first_start(d: DispatcherState, accepted: Seq<Seq<char>>) -> Option<Seq<char>> {
    if d.in_flight is None && accepted.len() > 0 {
        Some(accepted.first())
    } else {
        None
    }
}

/// The watcher after the rebuild in flight was reported finished.
pub open spec fn after_rebuild(s: WatcherState, outcome: RebuildOutcome) -> WatcherState {
    WatcherState {
        watched: s.watched,
        logs: s.logs + complete_lines(s.dispatcher, outcome),
        suppressed: s.suppressed,
        window: s.window,
        dispatcher: completed(s.dispatcher),
    }
}

/// Offering changes never removes a line from the log, never changes the
/// watch set or the window, and leaves a busy dispatcher busy.
pub proof fn lemma_changes_keep(s: WatcherState, paths: Seq<Seq<char>>, kind: ChangeKind, now: nat)
    ensures
        s.logs.is_prefix_of(after_changes(s, paths, kind, now).logs),
        after_changes(s, paths, kind, now).watched == s.watched,
        after_changes(s, paths, kind, now).window == s.window,
        after_changes(s, paths, kind, now).dispatcher.in_flight is None <==> (
        s.dispatcher.in_flight is None && accepted_of(s, paths, kind, now).len() == 0),
    decreases paths.len(),
{
    if paths.len() > 0 {
        lemma_changes_keep(s, paths.drop_last(), kind, now);
    }
}

/// Every accepted trigger names a path of the watch set.
pub proof fn lemma_accepted_are_watched(
    s: WatcherState,
    paths: Seq<Seq<char>>,
    kind: ChangeKind,
    now: nat,
)
    ensures
        forall|k: int|
            0 <= k < accepted_of(s, paths, kind, now).len() ==> s.watched.contains(
                #[trigger] accepted_of(s, paths, kind, now)[k],
            ),
    decreases paths.len(),
{
    if paths.len() > 0 {
        let front = paths.drop_last();
        let before = accepted_of(s, front, kind, now);
        let all = accepted_of(s, paths, kind, now);
        lemma_accepted_are_watched(s, front, kind, now);
        lemma_changes_keep(s, front, kind, now);
        assert forall|k: int| 0 <= k < all.len() implies s.watched.contains(#[trigger] all[k]) by {
            if k < before.len() {
                assert(all[k] == before[k]);
            }
        }
    }
}

/// What offering `paths` does to the registration of one path `p`: if `p`
/// is among them and acceptable, it ends up registered with `now`; if not,
/// its registration is what it was.
proof fn lemma_changes_register(
    s: WatcherState,
    paths: Seq<Seq<char>>,
    kind: ChangeKind,
    now: nat,
    p: Seq<char>,
)
    ensures
        ({
            let after = after_changes(s, paths, kind, now);
            if paths.contains(p) && accepts(s, p, kind, now) {
                after.suppressed.dom().contains(p) && after.suppressed[p] == now
            } else {
                after.suppressed.dom().contains(p) == s.suppressed.dom().contains(p)
                    && after.suppressed[p] == s.suppressed[p]
            }
        }),
    decreases paths.len(),
{
    if paths.len() > 0 {
        let front = paths.drop_last();
        lemma_changes_register(s, front, kind, now, p);
        lemma_changes_keep(s, front, kind, now);
        if front.contains(p) {
            assert(paths[front.index_of(p)] == p);
        }
        if paths.last() == p {
            assert(paths[paths.len() - 1] == p);
        } else if paths.contains(p) {
            assert(front[paths.index_of(p)] == p);
        }
    }
}

/// Which paths of a notification are accepted, said directly: the path in
/// place `k` is accepted exactly if it would be accepted on its own and,
/// unless the window is zero, it has not occurred earlier in the same
/// notification.
pub proof fn lemma_accepted_directly(
    s: WatcherState,
    paths: Seq<Seq<char>>,
    kind: ChangeKind,
    now: nat,
    k: int,
)
    requires
        0 <= k < paths.len(),
    ensures
        accepts(after_changes(s, paths.take(k), kind, now), paths[k], kind, now) <==> accepts(
            s,
            paths[k],
            kind,
            now,
        ) && (s.window == 0 || !paths.take(k).contains(paths[k])),
{
    lemma_changes_register(s, paths.take(k), kind, now, paths[k]);
    lemma_changes_keep(s, paths.take(k), kind, now);
}

/// Paths are debounced independently: whether a change to one path is
/// accepted does not depend on what happened to any other path.
pub proof fn lemma_paths_debounced_independently(
    s: WatcherState,
    path: Seq<char>,
    kind: ChangeKind,
    now: nat,
    other: Seq<char>,
    other_kind: ChangeKind,
    later: nat,
)
    requires
        other != path,
    ensures
        accepts(after_change(s, path, kind, now), other, other_kind, later) == accepts(
            s,
            other,
            other_kind,
            later,
        ),
{
}

/// Watches a fixed set of files and turns their changes into rebuilds.
pub struct FileWatcher {
    watched_files: WatchedFileSet,
    logs: LogStore,
    debounce: DebounceRegistry,
    dispatcher: Dispatcher,
}

impl View for FileWatcher {
    type V = WatcherState;

    closed spec fn view(&self) -> WatcherState {
        WatcherState {
            watched: self.watched_files@,
            logs: self.logs@,
            suppressed: self.debounce@,
            window: self.debounce.window(),
            dispatcher: self.dispatcher@,
        }
    }
}

impl FileWatcher {
    /// The order in which a listing shows the tracked paths.
    pub closed spec fn listing(&self) -> Seq<Seq<char>> {
        self.watched_files.listing()
    }

    /// A watcher over `files` with the default debounce window.
    pub fn new(files: WatchedFileSet) -> (watcher: FileWatcher)
        ensures
            watcher@.watched == files@,
            watcher.listing() == files.listing(),
            watcher@.logs == seq![initialized_line()],
            watcher@.suppressed == Map::<Seq<char>, nat>::empty(),
            watcher@.window == DEFAULT_DEBOUNCE_MS,
            watcher@.dispatcher.in_flight is None,
            watcher@.dispatcher.pending == Seq::<Seq<char>>::empty(),
    {
        FileWatcher::with_debounce_window(files, DEFAULT_DEBOUNCE_MS)
    }

    /// A watcher over `files` with a debounce window of `window_ms`
    /// milliseconds.
    pub fn with_debounce_window(files: WatchedFileSet, window_ms: u64) -> (watcher: FileWatcher)
        ensures
            watcher@.watched == files@,
            watcher.listing() == files.listing(),
            watcher@.logs == seq![initialized_line()],
            watcher@.suppressed == Map::<Seq<char>, nat>::empty(),
            watcher@.window == window_ms,
            watcher@.dispatcher.in_flight is None,
            watcher@.dispatcher.pending == Seq::<Seq<char>>::empty(),
    {
        let mut logs = LogStore::new();
        logs.append(String::from_str("Initialized watcher..."));
        FileWatcher {
            watched_files: files,
            logs,
            debounce: DebounceRegistry::new(window_ms),
            dispatcher: Dispatcher::new(),
        }
    }

    /// Whether `path` is tracked.
    pub fn should_watch(&self, path: &String) -> (watched: bool)
        ensures
            watched == self@.watched.contains(path@),
    {
        self.watched_files.contains(path)
    }

    /// Takes what the notification source delivered at time `now`,
    /// milliseconds on the caller's clock.
    ///
    /// For a notification, entries of the registry whose window has
    /// elapsed are evicted, then each path is looked at in turn. A created
    /// or modified path that is tracked and not suppressed is registered
    /// and its trigger goes to the dispatcher; every other path is passed
    /// over without a trace. For an error of the source, one line goes to
    /// the log and nothing else changes.
    pub fn handle_event(&mut self, res: Result<Notification, String>, now: u64) -> (handled:
        Handled)
        ensures
            final(self)@ == after_event(old(self)@, res, now as nat),
            final(self).listing() == old(self).listing(),
            lines_of(handled.accepted@) == triggers_of_event(old(self)@, res, now as nat),
            path_view(handled.start) == first_start(
                old(self)@.dispatcher,
                triggers_of_event(old(self)@, res, now as nat),
            ),
            old(self)@.logs.is_prefix_of(final(self)@.logs),
    {
        let mut accepted: Vec<String> = Vec::new();
        let mut start: Option<String> = None;
        match res {
            Ok(n) => {
                let ghost origin = swept_state(self@, now as nat);
                let ghost paths = lines_of(n.paths@);
                let kind = n.kind;
                self.debounce.sweep(now);
                let mut i: usize = 0;
                while i < n.paths.len()
                    invariant
                        i <= n.paths.len(),
                        paths == lines_of(n.paths@),
                        kind == n.kind,
                        self.listing() == old(self).listing(),
                        self@ == after_changes(origin, paths.take(i as int), kind, now as nat),
                        lines_of(accepted@) == accepted_of(
                            origin,
                            paths.take(i as int),
                            kind,
                            now as nat,
                        ),
                        path_view(start) == first_start(origin.dispatcher, lines_of(accepted@)),
                    decreases n.paths.len() - i,
                {
                    proof {
                        assert(paths.take(i + 1).drop_last() =~= paths.take(i as int));
                        lemma_changes_keep(origin, paths.take(i as int), kind, now as nat);
                    }
                    let path = &n.paths[i];
                    let qualified = match kind {
                        ChangeKind::Created => true,
                        ChangeKind::Modified => true,
                        ChangeKind::Removed => false,
                        ChangeKind::Other => false,
                    };
                    if qualified && self.watched_files.contains(path) {
                        if self.debounce.offer(path, now) {
                            let first = self.dispatcher.submit(path.clone(), &mut self.logs);
                            proof {
                                lemma_lines_of_push(accepted@, *path);
                            }
                            accepted.push(path.clone());
                            if start.is_none() {
                                start = first;
                            }
                        }
                    }
                    i = i + 1;
                }
                proof {
                    assert(paths.take(i as int) =~= paths);
                    lemma_changes_keep(origin, paths, kind, now as nat);
                }
            },
            Err(reason) => {
                self.logs.append(labelled("Watch error: ", reason.as_str()));
            },
        }
        Handled { accepted, start }
    }

    /// Takes the report that the rebuild in flight has ended with
    /// `outcome`. The outcome is logged; the trigger that waited longest,
    /// if one waits, is logged as starting and comes back for the caller to
    /// start. A failed rebuild is a line in the log and nothing more: the
    /// watcher goes on as before.
    pub fn rebuild_finished(&mut self, outcome: RebuildOutcome) -> (next: Option<String>)
        ensures
            final(self)@ == after_rebuild(old(self)@, outcome),
            final(self).listing() == old(self).listing(),
            path_view(next) == next_up(old(self)@.dispatcher),
            old(self)@.logs.is_prefix_of(final(self)@.logs),
    {
        self.dispatcher.complete(outcome, &mut self.logs)
    }

    /// The watch set.
    pub fn get_watched_files(&self) -> (files: &WatchedFileSet)
        ensures
            files@ == self@.watched,
            files.listing() == self.listing(),
    {
        &self.watched_files
    }

    /// The lines of the status log, oldest first.
    pub fn get_logs(&self) -> (lines: &Vec<String>)
        ensures
            lines_of(lines@) == self@.logs,
    {
        self.logs.lines()
    }

    /// The dispatcher, to ask whether a rebuild is in flight.
    pub fn dispatcher(&self) -> (dispatcher: &Dispatcher)
        ensures
            dispatcher@ == self@.dispatcher,
    {
        &self.dispatcher
    }
}

} // verus!
