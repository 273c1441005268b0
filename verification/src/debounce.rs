//! The debounce filter: per path, at most one trigger per debounce window.
//!
//! A path that triggered is registered with the time at which it did. While
//! the window that starts at that time has not elapsed, further events for
//! the path are swallowed. Once it has elapsed the path triggers again.
//! Time is a count of milliseconds that the caller reads from its clock.

use vstd::prelude::*;

verus! {

/// Whether `path` is suppressed at time `now`: it is registered, and less
/// than `window` has passed since the time it was registered with.
pub open spec fn suppressed_at(
    registry: Map<Seq<char>, nat>,
    window: nat,
    path: Seq<char>,
    now: nat,
) -> bool {
    registry.dom().contains(path) && now - registry[path] < window
}

/// The registry without the entries whose window has elapsed at `now`.
pub open spec fn swept(registry: Map<Seq<char>, nat>, window: nat, now: nat) -> Map<
    Seq<char>,
    nat,
> {
    Map::new(|p: Seq<char>| suppressed_at(registry, window, p, now), |p: Seq<char>| registry[p])
}

/// One registered path and the time of the trigger that registered it.
struct Suppression {
    path: String,
    since: u64,
}

spec fn holds(entries: Seq<Suppression>, path: Seq<char>) -> bool {
    exists|i: int| 0 <= i < entries.len() && (#[trigger] entries[i]).path@ == path
}

spec fn slot_of(entries: Seq<Suppression>, path: Seq<char>) -> int {
    choose|i: int| 0 <= i < entries.len() && (#[trigger] entries[i]).path@ == path
}

spec fn keys_distinct(entries: Seq<Suppression>) -> bool {
    forall|i: int, j: int|
        0 <= i < entries.len() && 0 <= j < entries.len() && i != j ==> (#[trigger] entries[i]).path@
            != (#[trigger] entries[j]).path@
}

spec fn entries_map(entries: Seq<Suppression>) -> Map<Seq<char>, nat> {
    Map::new(
        |p: Seq<char>| holds(entries, p),
        |p: Seq<char>| entries[slot_of(entries, p)].since as nat,
    )
}

spec fn live(entry: Suppression, window: nat, now: nat) -> bool {
    now - entry.since < window
}

proof fn lemma_entry_at(entries: Seq<Suppression>, k: int)
    requires
        keys_distinct(entries),
        0 <= k < entries.len(),
    ensures
        holds(entries, entries[k].path@),
        slot_of(entries, entries[k].path@) == k,
        entries_map(entries).dom().contains(entries[k].path@),
        entries_map(entries)[entries[k].path@] == entries[k].since,
{
    assert(holds(entries, entries[k].path@));
}

proof fn lemma_entry_of(entries: Seq<Suppression>, path: Seq<char>)
    requires
        holds(entries, path),
    ensures
        0 <= slot_of(entries, path) < entries.len(),
        entries[slot_of(entries, path)].path@ == path,
        entries_map(entries)[path] == entries[slot_of(entries, path)].since,
{
}

/// `after` is `before` with the entry at `at` put in place: either a
/// replacement of the entry that held the same path, or a new last entry
/// whose path no entry of `before` holds.
spec fn is_put(before: Seq<Suppression>, after: Seq<Suppression>, at: int) -> bool {
    &&& 0 <= at < after.len()
    &&& at <= before.len() <= after.len() <= before.len() + 1
    &&& after.len() == before.len() <==> at < before.len()
    &&& at < before.len() ==> before[at].path@ == after[at].path@
    &&& at == before.len() ==> !holds(before, after[at].path@)
    &&& forall|k: int| 0 <= k < before.len() && k != at ==> #[trigger] after[k] == before[k]
}

proof fn lemma_put(before: Seq<Suppression>, after: Seq<Suppression>, at: int, now: u64)
    requires
        keys_distinct(before),
        is_put(before, after, at),
        after[at].since == now,
    ensures
        keys_distinct(after),
        entries_map(after) == entries_map(before).insert(after[at].path@, now as nat),
{
    let key = after[at].path@;
    assert forall|i: int, j: int|
        0 <= i < after.len() && 0 <= j < after.len() && i != j implies (#[trigger] after[i]).path@
        != (#[trigger] after[j]).path@ by {
        if i != at && j != at {
            assert(before[i].path@ != before[j].path@);
        } else {
            let other = if i == at {
                j
            } else {
                i
            };
            if at < before.len() {
                assert(before[other].path@ != before[at].path@);
            } else {
                assert(before[other].path@ != key);
            }
        }
    }
    let target = entries_map(before).insert(key, now as nat);
    assert forall|q: Seq<char>| entries_map(after).dom().contains(q) <==> #[trigger]
        target.dom().contains(q) by {
        if holds(after, q) && q != key {
            assert(before[slot_of(after, q)].path@ == q);
        }
        if holds(before, q) && q != key {
            assert(after[slot_of(before, q)].path@ == q);
        }
        if q == key {
            assert(after[at].path@ == q);
        }
    }
    assert forall|q: Seq<char>| #[trigger]
        entries_map(after).dom().contains(q) implies entries_map(after)[q] == target[q] by {
        let k = slot_of(after, q);
        lemma_entry_at(after, k);
        if k != at {
            lemma_entry_at(before, k);
        }
    }
    assert(entries_map(after) =~= target);
}

/// `kept` holds the live entries of `before` and no others; `origin` gives,
/// for each entry of `kept`, its place in `before`.
spec fn is_kept(
    before: Seq<Suppression>,
    kept: Seq<Suppression>,
    origin: Seq<int>,
    upto: int,
    window: nat,
    now: nat,
) -> bool {
    &&& origin.len() == kept.len()
    &&& forall|k: int|
        0 <= k < kept.len() ==> 0 <= #[trigger] origin[k] < upto && kept[k].path@
            == before[origin[k]].path@ && kept[k].since == before[origin[k]].since && live(
            before[origin[k]],
            window,
            now,
        )
    &&& forall|k: int, l: int|
        0 <= k < l < kept.len() ==> #[trigger] origin[k] < #[trigger] origin[l]
    &&& forall|j: int|
        0 <= j < upto && live(#[trigger] before[j], window, now) ==> exists|k: int|
            0 <= k < kept.len() && #[trigger] origin[k] == j
}

proof fn lemma_keep_one(
    before: Seq<Suppression>,
    kept: Seq<Suppression>,
    origin: Seq<int>,
    upto: int,
    window: nat,
    now: nat,
    entry: Suppression,
)
    requires
        0 <= upto < before.len(),
        is_kept(before, kept, origin, upto, window, now),
        live(before[upto], window, now),
        entry.path@ == before[upto].path@,
        entry.since == before[upto].since,
    ensures
        is_kept(before, kept.push(entry), origin.push(upto), upto + 1, window, now),
{
    let more = origin.push(upto);
    assert forall|j: int|
        0 <= j < upto + 1 && live(#[trigger] before[j], window, now) implies exists|k: int|
        0 <= k < more.len() && #[trigger] more[k] == j by {
        if j < upto {
            let k = choose|k: int| 0 <= k < origin.len() && #[trigger] origin[k] == j;
            assert(more[k] == j);
        } else {
            assert(more[origin.len() as int] == j);
        }
    }
}

proof fn lemma_kept(
    before: Seq<Suppression>,
    kept: Seq<Suppression>,
    origin: Seq<int>,
    window: nat,
    now: nat,
)
    requires
        keys_distinct(before),
        is_kept(before, kept, origin, before.len() as int, window, now),
    ensures
        keys_distinct(kept),
        entries_map(kept) == swept(entries_map(before), window, now),
{
    assert forall|a: int, b: int|
        0 <= a < kept.len() && 0 <= b < kept.len() && a != b implies (#[trigger] kept[a]).path@
        != (#[trigger] kept[b]).path@ by {
        if a < b {
            assert(origin[a] < origin[b]);
        } else {
            assert(origin[b] < origin[a]);
        }
        assert(before[origin[a]].path@ != before[origin[b]].path@);
    }
    let target = swept(entries_map(before), window, now);
    assert forall|q: Seq<char>| entries_map(kept).dom().contains(q) <==> #[trigger]
        target.dom().contains(q) by {
        if holds(kept, q) {
            lemma_entry_at(before, origin[slot_of(kept, q)]);
        }
        if target.dom().contains(q) {
            lemma_entry_of(before, q);
            let j = slot_of(before, q);
            assert(live(before[j], window, now));
            let k = choose|k: int| 0 <= k < kept.len() && #[trigger] origin[k] == j;
            assert(kept[k].path@ == q);
        }
    }
    assert forall|q: Seq<char>| #[trigger]
        entries_map(kept).dom().contains(q) implies entries_map(kept)[q] == target[q] by {
        let k = slot_of(kept, q);
        lemma_entry_at(kept, k);
        lemma_entry_at(before, origin[k]);
    }
    assert(entries_map(kept) =~= target);
}

/// The registry of suppressed paths.
///
/// The model is a map from each registered path to the time, in
/// milliseconds, of the trigger that registered it, together with the
/// length of the debounce window.
pub struct DebounceRegistry {
    entries: Vec<Suppression>,
    window: u64,
}

impl View for DebounceRegistry {
    type V = Map<Seq<char>, nat>;

    closed spec fn view(&self) -> Map<Seq<char>, nat> {
        entries_map(self.entries@)
    }
}

impl DebounceRegistry {
    #[verifier::type_invariant]
    spec fn each_path_once(&self) -> bool {
        keys_distinct(self.entries@)
    }

    /// The length of the debounce window in milliseconds.
    pub closed spec fn window(&self) -> nat {
        self.window as nat
    }

    /// An empty registry with a window of `window_ms` milliseconds.
    pub fn new(window_ms: u64) -> (registry: DebounceRegistry)
        ensures
            registry@ == Map::<Seq<char>, nat>::empty(),
            registry.window() == window_ms,
    {
        DebounceRegistry { entries: Vec::new(), window: window_ms }
    }

    /// The length of the debounce window in milliseconds.
    pub fn window_ms(&self) -> (window: u64)
        ensures
            window == self.window(),
    {
        self.window
    }

    fn position(&self, path: &String) -> (slot: Option<usize>)
        ensures
            match slot {
                Some(i) => i < self.entries.len() && self.entries@[i as int].path@ == path@,
                None => !holds(self.entries@, path@),
            },
    {
        let mut i: usize = 0;
        while i < self.entries.len()
            invariant
                i <= self.entries.len(),
                forall|j: int| 0 <= j < i ==> (#[trigger] self.entries@[j]).path@ != path@,
            decreases self.entries.len() - i,
        {
            if self.entries[i].path == *path {
                return Some(i);
            }
            i = i + 1;
        }
        None
    }

    /// Whether an event for `path` at time `now` is to be swallowed.
    pub fn is_suppressed(&self, path: &String, now: u64) -> (suppressed: bool)
        ensures
            suppressed == suppressed_at(self@, self.window(), path@, now as nat),
    {
        proof {
            use_type_invariant(self);
        }
        match self.position(path) {
            Some(i) => {
                proof {
                    lemma_entry_at(self.entries@, i as int);
                }
                let since = self.entries[i].since;
                now < since || now - since < self.window
            },
            None => false,
        }
    }

    /// Registers `path` as having triggered at time `now`, in place of any
    /// earlier registration of it.
    pub fn register(&mut self, path: String, now: u64)
        ensures
            final(self)@ == old(self)@.insert(path@, now as nat),
            final(self).window() == old(self).window(),
    {
        proof {
            use_type_invariant(&*self);
        }
        let slot = self.position(&path);
        let ghost before = self.entries@;
        let mut entries: Vec<Suppression> = Vec::new();
        std::mem::swap(&mut entries, &mut self.entries);
        match slot {
            Some(i) => {
                entries.set(i, Suppression { path, since: now });
            },
            None => {
                entries.push(Suppression { path, since: now });
            },
        }
        proof {
            let at = match slot {
                Some(i) => i as int,
                None => before.len() as int,
            };
            lemma_put(before, entries@, at, now);
        }
        self.entries = entries;
    }

    /// Offers an event for `path` at time `now` to the filter. The event is
    /// accepted, and the path registered with `now`, unless the path is
    /// suppressed; a swallowed event leaves the registry as it was.
    pub fn offer(&mut self, path: &String, now: u64) -> (accepted: bool)
        ensures
            accepted == !suppressed_at(old(self)@, old(self).window(), path@, now as nat),
            final(self)@ == if accepted {
                old(self)@.insert(path@, now as nat)
            } else {
                old(self)@
            },
            final(self).window() == old(self).window(),
    {
        if self.is_suppressed(path, now) {
            false
        } else {
            self.register(path.clone(), now);
            true
        }
    }

    /// Evicts every entry whose window has elapsed at time `now`.
    pub fn sweep(&mut self, now: u64)
        ensures
            final(self)@ == swept(old(self)@, old(self).window(), now as nat),
            final(self).window() == old(self).window(),
    {
        proof {
            use_type_invariant(&*self);
        }
        let ghost before = self.entries@;
        let ghost window = self.window as nat;
        let mut kept: Vec<Suppression> = Vec::new();
        let ghost mut origin: Seq<int> = Seq::empty();
        let mut i: usize = 0;
        while i < self.entries.len()
            invariant
                i <= self.entries.len(),
                self.entries@ == before,
                self.window as nat == window,
                is_kept(before, kept@, origin, i as int, window, now as nat),
            decreases self.entries.len() - i,
        {
            let since = self.entries[i].since;
            if now < since || now - since < self.window {
                let entry = Suppression { path: self.entries[i].path.clone(), since };
                proof {
                    lemma_keep_one(before, kept@, origin, i as int, window, now as nat, entry);
                    origin = origin.push(i as int);
                }
                kept.push(entry);
            }
            i = i + 1;
        }
        proof {
            lemma_kept(before, kept@, origin, window, now as nat);
        }
        self.entries = kept;
    }
}

} // verus!
