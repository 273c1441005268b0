//! What the watcher does over a whole stream of notifications.
//!
//! The statements here are about every stream, and are proved from the
//! transition functions that the watcher's own contract is written in.

use vstd::prelude::*;
use crate::debounce::suppressed_at;
use crate::dispatcher::{submit_lines, submitted};
use crate::watcher::{
    accepted_of,
    accepts,
    after_change,
    after_changes,
    after_notification,
    lemma_changes_keep,
    qualifies,
    swept_state,
    triggers_of,
    ChangeKind,
    WatcherState,
};

verus! {

/// A notification together with the time at which it arrived.
pub struct TimedNotice {
    /// The paths that the notification is about.
    pub paths: Seq<Seq<char>>,
    /// What happened to them.
    pub kind: ChangeKind,
    /// When it arrived, in milliseconds.
    pub at: nat,
}

/// The watcher after every notification of `stream`, first to last.
pub open spec fn after_stream(s: WatcherState, stream: Seq<TimedNotice>) -> WatcherState
    decreases stream.len(),
{
    if stream.len() == 0 {
        s
    } else {
        let n = stream.last();
        after_notification(after_stream(s, stream.drop_last()), n.paths, n.kind, n.at)
    }
}

/// The triggers that `stream` gives rise to, in order: one per dispatch.
pub open spec fn dispatches_of(s: WatcherState, stream: Seq<TimedNotice>) -> Seq<Seq<char>>
    decreases stream.len(),
{
    if stream.len() == 0 {
        Seq::empty()
    } else {
        let n = stream.last();
        dispatches_of(s, stream.drop_last()) + triggers_of(
            after_stream(s, stream.drop_last()),
            n.paths,
            n.kind,
            n.at,
        )
    }
}

/// No notification of `stream` names a path of the watch set of `s`.
pub open spec fn names_no_watched_path(s: WatcherState, stream: Seq<TimedNotice>) -> bool {
    forall|i: int, k: int|
        0 <= i < stream.len() && 0 <= k < stream[i].paths.len() ==> !s.watched.contains(
            #[trigger] stream[i].paths[k],
        )
}

/// A burst: one modification of `path` at each of `times`.
pub open spec fn burst(path: Seq<char>, times: Seq<nat>) -> Seq<TimedNotice> {
    Seq::new(
        times.len(),
        |i: int| TimedNotice { paths: seq![path], kind: ChangeKind::Modified, at: times[i] },
    )
}

/// Every time of `times` lies within one window of length `window` that
/// starts at the first of them.
pub open spec fn within_one_window(times: Seq<nat>, window: nat) -> bool {
    times.len() > 0 && forall|i: int|
        0 <= i < times.len() ==> times[0] <= #[trigger] times[i] && times[i] - times[0] < window
}

proof fn lemma_untracked_changes(s: WatcherState, paths: Seq<Seq<char>>, kind: ChangeKind, now: nat)
    requires
        forall|k: int| 0 <= k < paths.len() ==> !s.watched.contains(#[trigger] paths[k]),
    ensures
        after_changes(s, paths, kind, now) == s,
        accepted_of(s, paths, kind, now) == Seq::<Seq<char>>::empty(),
    decreases paths.len(),
{
    if paths.len() > 0 {
        let front = paths.drop_last();
        assert forall|k: int| 0 <= k < front.len() implies !s.watched.contains(
            #[trigger] front[k],
        ) by {
            assert(front[k] == paths[k]);
        }
        lemma_untracked_changes(s, front, kind, now);
    }
}

proof fn lemma_single_change(s: WatcherState, path: Seq<char>, kind: ChangeKind, now: nat)
    ensures
        after_changes(s, seq![path], kind, now) == after_change(s, path, kind, now),
        accepted_of(s, seq![path], kind, now) == if accepts(s, path, kind, now) {
            seq![path]
        } else {
            Seq::<Seq<char>>::empty()
        },
{
    let one = seq![path];
    assert(after_changes(s, one.drop_last(), kind, now) == s);
    assert(accepted_of(s, one.drop_last(), kind, now) =~= Seq::<Seq<char>>::empty());
}

/// Events on paths outside the watch set leave no trace: whatever their
/// kind, their number and their timing, no trigger is accepted, no line is
/// written to the log, and the dispatcher stays as it was.
pub proof fn lemma_untracked_paths_are_silent(s: WatcherState, stream: Seq<TimedNotice>)
    requires
        names_no_watched_path(s, stream),
    ensures
        dispatches_of(s, stream) == Seq::<Seq<char>>::empty(),
        after_stream(s, stream).logs == s.logs,
        after_stream(s, stream).dispatcher == s.dispatcher,
        after_stream(s, stream).watched == s.watched,
        after_stream(s, stream).window == s.window,
    decreases stream.len(),
{
    if stream.len() > 0 {
        let front = stream.drop_last();
        let n = stream.last();
        assert(names_no_watched_path(s, front)) by {
            assert forall|i: int, k: int|
                0 <= i < front.len() && 0 <= k < front[i].paths.len() implies !s.watched.contains(
                #[trigger] front[i].paths[k]) by {
                assert(front[i] == stream[i]);
            }
        }
        lemma_untracked_paths_are_silent(s, front);
        let before = swept_state(after_stream(s, front), n.at);
        assert forall|k: int| 0 <= k < n.paths.len() implies !before.watched.contains(
            #[trigger] n.paths[k],
        ) by {
            assert(n == stream[stream.len() - 1]);
        }
        lemma_untracked_changes(before, n.paths, n.kind, n.at);
    }
}

/// A stream of notifications never removes or rewrites a line of the log:
/// the log before the stream is a prefix of the log after it.
pub proof fn lemma_stream_only_extends_log(s: WatcherState, stream: Seq<TimedNotice>)
    ensures
        s.logs.is_prefix_of(after_stream(s, stream).logs),
        after_stream(s, stream).watched == s.watched,
        after_stream(s, stream).window == s.window,
    decreases stream.len(),
{
    if stream.len() > 0 {
        let n = stream.last();
        let reached = after_stream(s, stream.drop_last());
        lemma_stream_only_extends_log(s, stream.drop_last());
        lemma_changes_keep(swept_state(reached, n.at), n.paths, n.kind, n.at);
    }
}

/// Debounce: a burst of modifications of one watched path, all within one
/// debounce window that the first of them opens, gives rise to exactly one
/// dispatch, and to the log lines of that one dispatch and no others. The
/// path stays registered with the time of the first modification.
pub proof fn lemma_burst_dispatches_once(s: WatcherState, path: Seq<char>, times: Seq<nat>)
    requires
        s.watched.contains(path),
        within_one_window(times, s.window),
        !suppressed_at(s.suppressed, s.window, path, times[0]),
    ensures
        dispatches_of(s, burst(path, times)) == seq![path],
        after_stream(s, burst(path, times)).logs == s.logs + submit_lines(s.dispatcher, path),
        after_stream(s, burst(path, times)).dispatcher == submitted(s.dispatcher, path),
        after_stream(s, burst(path, times)).watched == s.watched,
        after_stream(s, burst(path, times)).window == s.window,
        after_stream(s, burst(path, times)).suppressed.dom().contains(path),
        after_stream(s, burst(path, times)).suppressed[path] == times[0],
    decreases times.len(),
{
    let front = burst(path, times).drop_last();
    if times.len() == 1 {
        // The first modification finds the path unsuppressed and is accepted.
        assert(dispatches_of(s, front) =~= Seq::<Seq<char>>::empty());
        lemma_single_change(swept_state(s, times[0]), path, ChangeKind::Modified, times[0]);
    } else {
        // Every later one finds the path registered with the time of the first.
        let earlier = times.drop_last();
        assert(front =~= burst(path, earlier));
        assert(within_one_window(earlier, s.window)) by {
            assert forall|i: int| 0 <= i < earlier.len() implies earlier[0] <= #[trigger] earlier[i]
                && earlier[i] - earlier[0] < s.window by {
                assert(earlier[i] == times[i]);
            }
        }
        lemma_burst_dispatches_once(s, path, earlier);
        let reached = swept_state(after_stream(s, front), times.last());
        lemma_single_change(reached, path, ChangeKind::Modified, times.last());
    }
}

/// Whatever state a burst within one window finds the watcher in, it gives
/// rise to at most one dispatch; and if it gives rise to one, the path is
/// left registered with a time of the burst.
pub proof fn lemma_burst_dispatches_at_most_once(s: WatcherState, path: Seq<char>, times: Seq<nat>)
    requires
        within_one_window(times, s.window),
    ensures
        dispatches_of(s, burst(path, times)).len() <= 1,
        after_stream(s, burst(path, times)).window == s.window,
        dispatches_of(s, burst(path, times)).len() == 1 ==> {
            let reached = after_stream(s, burst(path, times));
            reached.suppressed.dom().contains(path) && times[0] <= reached.suppressed[path]
        },
    decreases times.len(),
{
    let front = burst(path, times).drop_last();
    if times.len() == 1 {
        assert(dispatches_of(s, front) =~= Seq::<Seq<char>>::empty());
        lemma_single_change(swept_state(s, times[0]), path, ChangeKind::Modified, times[0]);
    } else {
        let earlier = times.drop_last();
        assert(front =~= burst(path, earlier));
        assert(within_one_window(earlier, s.window)) by {
            assert forall|i: int| 0 <= i < earlier.len() implies earlier[0] <= #[trigger] earlier[i]
                && earlier[i] - earlier[0] < s.window by {
                assert(earlier[i] == times[i]);
            }
        }
        lemma_burst_dispatches_at_most_once(s, path, earlier);
        let now = times.last();
        let reached = after_stream(s, front);
        if dispatches_of(s, front).len() == 1 {
            // The burst has had its dispatch: the path is registered with a time
            // of the burst, so its window is still open now.
            assert(suppressed_at(reached.suppressed, reached.window, path, now));
        }
        lemma_single_change(swept_state(reached, now), path, ChangeKind::Modified, now);
    }
}

/// Once the debounce window of a watched path has elapsed, or if the path
/// was never registered, its next creation or modification is a trigger of
/// its own: it is dispatched, logged, and registered with its own time.
pub proof fn lemma_elapsed_window_triggers_again(
    s: WatcherState,
    path: Seq<char>,
    kind: ChangeKind,
    now: nat,
)
    requires
        s.watched.contains(path),
        qualifies(kind),
        s.suppressed.dom().contains(path) ==> now - s.suppressed[path] >= s.window,
    ensures
        triggers_of(s, seq![path], kind, now) == seq![path],
        after_notification(s, seq![path], kind, now).logs == s.logs + submit_lines(
            s.dispatcher,
            path,
        ),
        after_notification(s, seq![path], kind, now).dispatcher == submitted(s.dispatcher, path),
        after_notification(s, seq![path], kind, now).suppressed.dom().contains(path),
        after_notification(s, seq![path], kind, now).suppressed[path] == now,
{
    lemma_single_change(swept_state(s, now), path, kind, now);
}

/// A burst within one window, followed by a modification of the same path
/// at or after the end of that window, gives rise to two dispatches: one
/// for the burst, and a new, independent one for the later modification.
pub proof fn lemma_dispatch_after_burst(
    s: WatcherState,
    path: Seq<char>,
    times: Seq<nat>,
    later: nat,
)
    requires
        s.watched.contains(path),
        within_one_window(times, s.window),
        !suppressed_at(s.suppressed, s.window, path, times[0]),
        later - times[0] >= s.window,
    ensures
        dispatches_of(s, burst(path, times.push(later))) == seq![path, path],
{
    assert(burst(path, times.push(later)).drop_last() =~= burst(path, times));
    lemma_burst_dispatches_once(s, path, times);
    let reached = after_stream(s, burst(path, times));
    lemma_elapsed_window_triggers_again(reached, path, ChangeKind::Modified, later);
}

} // verus!
