//! The rebuild dispatcher: at most one rebuild in flight, the rest queued.
//!
//! The dispatcher never runs anything itself. It is told of each accepted
//! trigger and of each finished rebuild, writes the status lines that belong
//! to them, and answers with the path whose rebuild the caller is to start
//! now, if any. Triggers that arrive while a rebuild runs wait their turn and
//! are started one by one, in the order in which they arrived.

use vstd::prelude::*;
use vstd::string::*;
use crate::log_store::LogStore;
use crate::text::{labelled, lemma_lines_of_push, lines_of};

verus! {

/// How the external rebuild procedure ended.
#[derive(Debug)]
pub enum RebuildOutcome {
    /// The procedure ran and reported success.
    Succeeded,
    /// The procedure could not be started or reported failure.
    Failed { reason: String },
}

/// The line that records a change to `path`.
pub open spec fn change_detected_line(path: Seq<char>) -> Seq<char> {
    "File change detected: "@ + path
}

/// The line that records the start of a rebuild.
pub open spec fn rebuild_starting_line() -> Seq<char> {
    "Rebuilding and restarting containers..."@
}

/// The line that records how a rebuild ended.
pub open spec fn outcome_line(outcome: RebuildOutcome) -> Seq<char> {
    match outcome {
        RebuildOutcome::Succeeded => "Containers have been restarted."@,
        RebuildOutcome::Failed { reason } => "Error during build: "@ + reason@,
    }
}

/// The model of a dispatcher: the path whose rebuild is running, if one is,
/// and the paths that wait for theirs, the one that waited longest first.
pub struct DispatcherState {
    pub in_flight: Option<Seq<char>>,
    pub pending: Seq<Seq<char>>,
}

/// The dispatcher after the trigger for `path` was submitted to it.
pub open spec fn submitted(d: DispatcherState, path: Seq<char>) -> DispatcherState {
    if d.in_flight is None {
        DispatcherState { in_flight: Some(path), pending: d.pending }
    } else {
        DispatcherState { in_flight: d.in_flight, pending: d.pending.push(path) }
    }
}

/// The lines that submitting the trigger for `path` adds to the log.
pub open spec fn submit_lines(d: DispatcherState, path: Seq<char>) -> Seq<Seq<char>> {
    if d.in_flight is None {
        seq![change_detected_line(path), rebuild_starting_line()]
    } else {
        seq![change_detected_line(path)]
    }
}

/// The dispatcher after the rebuild in flight was reported finished.
pub open spec fn completed(d: DispatcherState) -> DispatcherState {
    if d.in_flight is Some && d.pending.len() > 0 {
        DispatcherState { in_flight: Some(d.pending.first()), pending: d.pending.drop_first() }
    } else {
        DispatcherState { in_flight: None, pending: d.pending }
    }
}

/// The lines that the end of the rebuild in flight adds to the log.
pub open spec fn complete_lines(d: DispatcherState, outcome: RebuildOutcome) -> Seq<Seq<char>> {
    if d.in_flight is None {
        Seq::empty()
    } else if d.pending.len() > 0 {
        seq![outcome_line(outcome), rebuild_starting_line()]
    } else {
        seq![outcome_line(outcome)]
    }
}

/// The path whose rebuild starts when the rebuild in flight ends.
pub open spec fn next_up(d: DispatcherState) -> Option<Seq<char>> {
    if d.in_flight is Some && d.pending.len() > 0 {
        Some(d.pending.first())
    } else {
        None
    }
}

/// The rebuilds that are owed, in the order in which they run: the one in
/// flight, then those that wait.
pub open spec fn line_up(d: DispatcherState) -> Seq<Seq<char>> {
    match d.in_flight {
        Some(path) => seq![path] + d.pending,
        None => d.pending,
    }
}

/// Nothing waits while no rebuild is in flight.
pub open spec fn idle_means_empty(d: DispatcherState) -> bool {
    d.in_flight is None ==> d.pending.len() == 0
}

/// Rebuilds run one at a time and in the order of their triggers: a
/// submitted trigger joins the end of the line, a finished rebuild leaves
/// its front, and the rebuild that starts next is the new front.
pub proof fn lemma_rebuilds_run_in_order(d: DispatcherState, path: Seq<char>)
    requires
        idle_means_empty(d),
    ensures
        idle_means_empty(submitted(d, path)),
        idle_means_empty(completed(d)),
        submitted(d, path).in_flight is Some,
        line_up(submitted(d, path)) == line_up(d).push(path),
        line_up(completed(d)) == if line_up(d).len() > 0 {
            line_up(d).drop_first()
        } else {
            line_up(d)
        },
        next_up(d) matches Some(next) ==> line_up(completed(d)).len() > 0 && line_up(
            completed(d),
        ).first() == next,
        next_up(d) is None ==> line_up(completed(d)).len() == 0,
{
    assert(line_up(submitted(d, path)) =~= line_up(d).push(path));
    if line_up(d).len() > 0 {
        assert(line_up(completed(d)) =~= line_up(d).drop_first());
    }
}

/// The view of an optional path.
pub open spec fn path_view(path: Option<String>) -> Option<Seq<char>> {
    match path {
        Some(p) => Some(p@),
        None => None,
    }
}

/// Serialises rebuilds: one in flight, the others in a queue.
pub struct Dispatcher {
    in_flight: Option<String>,
    pending: Vec<String>,
}

impl View for Dispatcher {
    type V = DispatcherState;

    closed spec fn view(&self) -> DispatcherState {
        DispatcherState { in_flight: path_view(self.in_flight), pending: lines_of(self.pending@) }
    }
}

impl Dispatcher {
    #[verifier::type_invariant]
    spec fn settled(&self) -> bool {
        self.in_flight is None ==> self.pending@.len() == 0
    }

    /// An idle dispatcher.
    pub fn new() -> (dispatcher: Dispatcher)
        ensures
            dispatcher@.in_flight is None,
            dispatcher@.pending == Seq::<Seq<char>>::empty(),
    {
        Dispatcher { in_flight: None, pending: Vec::new() }
    }

    /// Whether a rebuild is in flight.
    pub fn is_busy(&self) -> (busy: bool)
        ensures
            busy == (self@.in_flight is Some),
            idle_means_empty(self@),
    {
        proof {
            use_type_invariant(self);
        }
        self.in_flight.is_some()
    }

    /// The number of triggers that wait for their rebuild.
    pub fn queued(&self) -> (n: usize)
        ensures
            n == self@.pending.len(),
    {
        self.pending.len()
    }

    /// Takes the trigger for `path`. The change is logged. If no rebuild is
    /// in flight, the rebuild for `path` is logged as starting and `path`
    /// comes back: the caller starts it. Otherwise the trigger is queued
    /// and nothing is to be started.
    pub fn submit(&mut self, path: String, log: &mut LogStore) -> (start: Option<String>)
        ensures
            final(self)@ == submitted(old(self)@, path@),
            final(log)@ == old(log)@ + submit_lines(old(self)@, path@),
            path_view(start) == if old(self)@.in_flight is None {
                Some(path@)
            } else {
                None
            },
    {
        proof {
            use_type_invariant(&*self);
        }
        log.append(labelled("File change detected: ", path.as_str()));
        if self.in_flight.is_none() {
            log.append(String::from_str("Rebuilding and restarting containers..."));
            let start = path.clone();
            self.in_flight = Some(path);
            Some(start)
        } else {
            let mut pending: Vec<String> = Vec::new();
            std::mem::swap(&mut pending, &mut self.pending);
            proof {
                lemma_lines_of_push(pending@, path);
            }
            pending.push(path);
            self.pending = pending;
            None
        }
    }

    /// Takes the report that the rebuild in flight has ended. Its outcome
    /// is logged. If a trigger waits, the one that waited longest leaves
    /// the queue, its rebuild is logged as starting and its path comes
    /// back: the caller starts it. A report that arrives while nothing is
    /// in flight changes nothing.
    pub fn complete(&mut self, outcome: RebuildOutcome, log: &mut LogStore) -> (next: Option<
        String,
    >)
        ensures
            final(self)@ == completed(old(self)@),
            final(log)@ == old(log)@ + complete_lines(old(self)@, outcome),
            path_view(next) == next_up(old(self)@),
    {
        proof {
            use_type_invariant(&*self);
        }
        if self.in_flight.is_none() {
            return None;
        }
        let line = match outcome {
            RebuildOutcome::Succeeded => String::from_str("Containers have been restarted."),
            RebuildOutcome::Failed { reason } => labelled("Error during build: ", reason.as_str()),
        };
        log.append(line);
        if self.pending.len() > 0 {
            log.append(String::from_str("Rebuilding and restarting containers..."));
            let mut pending: Vec<String> = Vec::new();
            std::mem::swap(&mut pending, &mut self.pending);
            let ghost waiting = pending@;
            let path = pending.remove(0);
            assert(lines_of(pending@) =~= lines_of(waiting).drop_first());
            let next = path.clone();
            self.in_flight = Some(path);
            self.pending = pending;
            Some(next)
        } else {
            self.in_flight = None;
            None
        }
    }
}

} // verus!
