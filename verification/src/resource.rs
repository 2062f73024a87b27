//! A single-flight cache of fetched values, one entry per request identity.
//!
//! The cell never performs a fetch itself. `trigger` says whether a fetch has
//! to be started and under which sequence number; whoever performs it hands
//! the outcome back through `resolve`, and the cell decides whether that
//! outcome still counts.

use std::collections::HashMap;
use vstd::prelude::*;

verus! {

broadcast use vstd::std_specs::hash::group_hash_axioms;

/// Why a fetch failed. The cause is not kept: every failure looks the same
/// to the views.
#[derive(Clone, Copy, Debug, PartialEq, Eq, Hash, Structural)]
pub struct FetchError {}

/// What is known of one requested value.
#[derive(Clone, Debug, PartialEq, Eq)]
pub enum FetchState<T> {
    /// Nothing was asked for yet.
    Idle,
    /// A fetch is in flight.
    Loading,
    /// The latest fetch delivered this value.
    Ready(T),
    /// The latest fetch failed.
    Error(FetchError),
}

impl<T> FetchState<T> {
    /// The same state, with the value behind a reference.
    pub open spec fn borrowed(&self) -> FetchState<&T> {
        match self {
            FetchState::Idle => FetchState::Idle,
            FetchState::Loading => FetchState::Loading,
            FetchState::Ready(value) => FetchState::Ready(value),
            FetchState::Error(error) => FetchState::Error(*error),
        }
    }
}

/// The state in which a fetch with the given outcome leaves its entry.
pub open spec fn settled<V>(outcome: Result<V, FetchError>) -> FetchState<V> {
    match outcome {
        Ok(value) => FetchState::Ready(value),
        Err(error) => FetchState::Error(error),
    }
}

/// The entry of one request identity: its state, and how many fetches were
/// started for it so far. Fetches are numbered from 1, so `issued` is also the
/// sequence number of the newest one.
pub struct KeyState<V> {
    pub status: FetchState<V>,
    pub issued: nat,
}

impl<V> KeyState<V> {
    /// The entry of an identity that was never asked for.
    pub open spec fn initial() -> Self {
        KeyState { status: FetchState::Idle, issued: 0 }
    }

    /// Whether `trigger` starts a fetch: none is in flight, and a sequence
    /// number is left.
    pub open spec fn can_start(self) -> bool {
        !(self.status is Loading) && self.issued < u64::MAX
    }

    /// The entry after `trigger`.
    pub open spec fn trigger(self) -> Self {
        if self.can_start() {
            KeyState { status: FetchState::Loading, issued: self.issued + 1 }
        } else {
            self
        }
    }

    /// The entry after `n` calls of `trigger` in a row.
    pub open spec fn trigger_times(self, n: nat) -> Self
        decreases n,
    {
        if n == 0 {
            self
        } else {
            self.trigger().trigger_times((n - 1) as nat)
        }
    }

    /// How many fetches `n` calls of `trigger` in a row start.
    pub open spec fn fetches_started(self, n: nat) -> nat
        decreases n,
    {
        if n == 0 {
            0
        } else {
            (if self.can_start() {
                1nat
            } else {
                0nat
            }) + self.trigger().fetches_started((n - 1) as nat)
        }
    }

    /// Whether the outcome of fetch number `seq` is applied: that fetch is the
    /// newest one, and it is still awaited.
    pub open spec fn accepts(self, seq: nat) -> bool {
        self.status is Loading && seq == self.issued
    }

    /// The entry after the outcome of fetch number `seq` has arrived.
    pub open spec fn resolve(self, seq: nat, outcome: Result<V, FetchError>) -> Self {
        if self.accepts(seq) {
            KeyState { status: settled(outcome), issued: self.issued }
        } else {
            self
        }
    }

    /// The entry after its state was given up. The count stays, so that what
    /// is still in flight cannot be taken for a later fetch.
    pub open spec fn discard(self) -> Self {
        KeyState { status: FetchState::Idle, issued: self.issued }
    }
}

/// Single flight: while a fetch is awaited, any number of further triggers
/// starts none and leaves the entry as it is.
pub proof fn lemma_trigger_while_loading<V>(s: KeyState<V>, n: nat)
    requires
        s.status is Loading,
    ensures
        s.trigger_times(n) == s,
        s.fetches_started(n) == 0,
    decreases n,
{
    if n > 0 {
        lemma_trigger_while_loading(s.trigger(), (n - 1) as nat);
    }
}

/// Single flight: however often an entry is triggered in a row, at most one
/// fetch is started, and exactly one where the first trigger can start one.
pub proof fn lemma_triggers_start_one_fetch<V>(s: KeyState<V>, n: nat)
    requires
        n >= 1,
    ensures
        s.trigger_times(n) == s.trigger(),
        s.can_start() ==> s.fetches_started(n) == 1 && s.trigger_times(n).issued == s.issued + 1
            && s.trigger_times(n).status is Loading,
        !s.can_start() ==> s.fetches_started(n) == 0 && s.trigger_times(n) == s,
    decreases n,
{
    if n > 1 {
        lemma_triggers_start_one_fetch(s.trigger(), (n - 1) as nat);
        if s.can_start() {
            lemma_trigger_while_loading(s.trigger(), (n - 1) as nat);
        }
    } else {
        assert(s.trigger().trigger_times(0) == s.trigger());
        assert(s.trigger().fetches_started(0) == 0);
    }
}

/// Sequence numbers only grow: a trigger that starts a fetch gives it the next
/// number, and nothing else changes the count.
pub proof fn lemma_sequence_numbers_grow<V>(
    s: KeyState<V>,
    seq: nat,
    outcome: Result<V, FetchError>,
)
    ensures
        s.trigger().issued == if s.can_start() {
            s.issued + 1
        } else {
            s.issued
        },
        s.resolve(seq, outcome).issued == s.issued,
        s.discard().issued == s.issued,
{
}

/// The outcome of a fetch that is not the newest one changes nothing.
pub proof fn lemma_stale_outcome_dropped<V>(
    s: KeyState<V>,
    stale: nat,
    outcome: Result<V, FetchError>,
)
    requires
        stale != s.issued,
    ensures
        s.resolve(stale, outcome) == s,
{
}

/// Of two fetches for one key, where the newer is the one awaited and its
/// outcome arrives first, the entry shows the newer outcome; the older one,
/// arriving late, is dropped.
pub proof fn lemma_newer_outcome_wins<V>(
    s: KeyState<V>,
    first: nat,
    second: nat,
    first_outcome: Result<V, FetchError>,
    second_outcome: Result<V, FetchError>,
)
    requires
        first < second,
        s.accepts(second),
    ensures
        s.resolve(second, second_outcome).resolve(first, first_outcome).status == settled(
            second_outcome,
        ),
        s.resolve(second, second_outcome).resolve(first, first_outcome) == s.resolve(
            second,
            second_outcome,
        ),
        s.resolve(first, first_outcome).resolve(second, second_outcome) == s.resolve(
            second,
            second_outcome,
        ),
{
}

/// An outcome that is applied shows as it came: a value as `Ready`, a failure
/// as `Error`. An empty value is a value.
pub proof fn lemma_applied_outcome_shows<V>(s: KeyState<V>, seq: nat, outcome: Result<V, FetchError>)
    requires
        s.accepts(seq),
    ensures
        outcome matches Ok(value) ==> s.resolve(seq, outcome).status == FetchState::Ready(value),
        outcome matches Err(error) ==> s.resolve(seq, outcome).status == FetchState::<V>::Error(
            error,
        ),
{
}

struct Slot<V> {
    status: FetchState<V>,
    issued: u64,
}

/// A cache of fetched values, keyed by request identity. For every identity at
/// most one fetch is awaited at a time, and only the outcome of the newest
/// fetch is ever applied.
pub struct ResourceCell<V> {
    slots: HashMap<u64, Slot<V>>,
}

impl<V> ResourceCell<V> {
    /// The entry of `key`.
    pub closed spec fn key_state(&self, key: u64) -> KeyState<V> {
        if self.slots@.contains_key(key) {
            KeyState { status: self.slots@[key].status, issued: self.slots@[key].issued as nat }
        } else {
            KeyState::initial()
        }
    }

    /// A cell in which nothing was asked for.
    pub fn new() -> (cell: Self)
        ensures
            forall|key: u64| cell.key_state(key) == KeyState::<V>::initial(),
    {
        ResourceCell { slots: HashMap::new() }
    }

    /// The current state of `key`, with the value borrowed from the cell.
    /// Never waits.
    pub fn status(&self, key: u64) -> (state: FetchState<&V>)
        ensures
            state == self.key_state(key).status.borrowed(),
    {
        match self.slots.get(&key) {
            Some(slot) => match &slot.status {
                FetchState::Idle => FetchState::Idle,
                FetchState::Loading => FetchState::Loading,
                FetchState::Ready(value) => FetchState::Ready(value),
                FetchState::Error(error) => FetchState::Error(*error),
            },
            None => FetchState::Idle,
        }
    }

    /// How many fetches were started for `key`; the sequence number of the
    /// newest one.
    pub fn issued(&self, key: u64) -> (n: u64)
        ensures
            n == self.key_state(key).issued,
    {
        match self.slots.get(&key) {
            Some(slot) => slot.issued,
            None => 0,
        }
    }

    /// Asks for the value of `key`. Where no fetch for `key` is in flight, the
    /// state becomes `Loading` and the sequence number of the fetch to start is
    /// returned. Where one is in flight, nothing changes and nothing is to be
    /// started. No other key is touched.
    pub fn trigger(&mut self, key: u64) -> (started: Option<u64>)
        ensures
            final(self).key_state(key) == old(self).key_state(key).trigger(),
            forall|other: u64| other != key ==> final(self).key_state(other) == old(self).key_state(other),
            started is Some <==> old(self).key_state(key).can_start(),
            started matches Some(seq) ==> seq == old(self).key_state(key).issued + 1,
    {
        let (loading, issued) = match self.slots.get(&key) {
            Some(slot) => (
                match &slot.status {
                    FetchState::Loading => true,
                    _ => false,
                },
                slot.issued,
            ),
            None => (false, 0),
        };
        if loading || issued == u64::MAX {
            return None;
        }
        let seq: u64 = issued + 1;
        self.slots.insert(key, Slot { status: FetchState::Loading, issued: seq });
        Some(seq)
    }

    /// Hands in the outcome of fetch number `seq` for `key`. It is applied,
    /// and `true` returned, only if that fetch is the newest one for `key` and
    /// still awaited; the outcome of a fetch that was overtaken is dropped.
    /// No other key is touched.
    pub fn resolve(&mut self, key: u64, seq: u64, outcome: Result<V, FetchError>) -> (applied: bool)
        ensures
            final(self).key_state(key) == old(self).key_state(key).resolve(seq as nat, outcome),
            forall|other: u64| other != key ==> final(self).key_state(other) == old(self).key_state(other),
            applied == old(self).key_state(key).accepts(seq as nat),
    {
        let awaited = match self.slots.get(&key) {
            Some(slot) => match &slot.status {
                FetchState::Loading => slot.issued == seq,
                _ => false,
            },
            None => false,
        };
        if !awaited {
            return false;
        }
        let status = match outcome {
            Ok(value) => FetchState::Ready(value),
            Err(error) => FetchState::Error(error),
        };
        self.slots.insert(key, Slot { status, issued: seq });
        true
    }

    /// Gives up the state of `key`: it is `Idle` again. A fetch that is still
    /// in flight will find its outcome dropped. No other key is touched.
    pub fn discard(&mut self, key: u64)
        ensures
            final(self).key_state(key) == old(self).key_state(key).discard(),
            forall|other: u64| other != key ==> final(self).key_state(other) == old(self).key_state(other),
    {
        let issued: u64 = self.issued(key);
        self.slots.insert(key, Slot { status: FetchState::Idle, issued });
    }
}

} // verus!
