//! The controller of a list view: it asks for the projects of a filter,
//! takes in what the store answered, and shows the view where it stands.
//!
//! The controller decides; it does not fetch. `load` hands out the query that
//! has to be run, and `complete` takes its outcome.

use crate::models::{Filter, Project};
use crate::resource::{
    lemma_newer_outcome_wins, lemma_trigger_while_loading, lemma_triggers_start_one_fetch, settled,
    FetchError, FetchState, KeyState, ResourceCell,
};
use vstd::prelude::*;

verus! {

/// A query that the store has to be asked: which projects, and the sequence
/// number under which the answer is handed back.
#[derive(Clone, Copy, Debug, PartialEq, Eq, Hash, Structural)]
pub struct StoreQuery {
    pub filter: Filter,
    pub seq: u64,
}

/// Drives the loading of project lists, one entry for each filter:
/// `Idle`, then `Loading`, then `Ready` or `Error`, and `Loading` again with
/// each later `load`.
pub struct ProjectListController {
    cell: ResourceCell<Vec<Project>>,
}

impl ProjectListController {
    /// The entry of `filter`: its state, and how many queries were handed out
    /// for it.
    pub closed spec fn entry(&self, filter: Filter) -> KeyState<Vec<Project>> {
        self.cell.key_state(filter.spec_key())
    }

    /// A controller that was not asked for anything yet.
    pub fn new() -> (controller: Self)
        ensures
            forall|filter: Filter| controller.entry(filter) == KeyState::<Vec<Project>>::initial(),
    {
        ProjectListController { cell: ResourceCell::new() }
    }

    /// Asks for the projects of `filter`. Where no query for `filter` is
    /// awaited, the state becomes `Loading` and the query to run is returned;
    /// where one is awaited, nothing changes and there is nothing to run. The
    /// other filter's entry is not touched.
    pub fn load(&mut self, filter: Filter) -> (query: Option<StoreQuery>)
        ensures
            final(self).entry(filter) == old(self).entry(filter).trigger(),
            forall|other: Filter| other != filter ==> final(self).entry(other) == old(self).entry(other),
            query == if old(self).entry(filter).can_start() {
                Some((StoreQuery { filter, seq: (old(self).entry(filter).issued + 1) as u64 }))
            } else {
                None
            },
    {
        match self.cell.trigger(filter.key()) {
            Some(seq) => Some(StoreQuery { filter, seq }),
            None => None,
        }
    }

    /// The state of `filter`, for the view to draw. Never waits.
    pub fn current_state(&self, filter: Filter) -> (state: FetchState<&Vec<Project>>)
        ensures
            state == self.entry(filter).status.borrowed(),
    {
        self.cell.status(filter.key())
    }

    /// How many queries were handed out for `filter`.
    pub fn queries_issued(&self, filter: Filter) -> (n: u64)
        ensures
            n == self.entry(filter).issued,
    {
        self.cell.issued(filter.key())
    }

    /// Takes in the outcome of `query`. If that query is the newest for its
    /// filter and still awaited, the state becomes `Ready` with the list, or
    /// `Error`, and `true` is returned; the outcome of a query that was
    /// overtaken is dropped. The other filter's entry is not touched.
    pub fn complete(&mut self, query: StoreQuery, outcome: Result<Vec<Project>, FetchError>) -> (applied:
        bool)
        ensures
            final(self).entry(query.filter) == old(self).entry(query.filter).resolve(
                query.seq as nat,
                outcome,
            ),
            forall|other: Filter|
                other != query.filter ==> final(self).entry(other) == old(self).entry(other),
            applied == old(self).entry(query.filter).accepts(query.seq as nat),
    {
        self.cell.resolve(query.filter.key(), query.seq, outcome)
    }

    /// Gives up the state of `filter`, as when its view goes away: it is
    /// `Idle` again, and a query still under way will find its outcome
    /// dropped. The other filter's entry is not touched.
    pub fn discard(&mut self, filter: Filter)
        ensures
            final(self).entry(filter) == old(self).entry(filter).discard(),
            forall|other: Filter| other != filter ==> final(self).entry(other) == old(self).entry(other),
    {
        self.cell.discard(filter.key())
    }
}

/// For every filter: while its list is loading, no call of `load` hands out
/// a query, however many there are; and from any other state, any number of
/// calls in a row hands out one query and no more.
pub proof fn lemma_load_is_single_flight(controller: ProjectListController, filter: Filter, n: nat)
    ensures
        controller.entry(filter).status is Loading ==> controller.entry(filter).fetches_started(n)
            == 0 && controller.entry(filter).trigger_times(n) == controller.entry(filter),
        controller.entry(filter).can_start() && n >= 1 ==> controller.entry(filter).fetches_started(
            n,
        ) == 1 && controller.entry(filter).trigger_times(n).status is Loading,
{
    if controller.entry(filter).status is Loading {
        lemma_trigger_while_loading(controller.entry(filter), n);
    }
    if n >= 1 {
        lemma_triggers_start_one_fetch(controller.entry(filter), n);
    }
}

/// For every filter: of two queries, where the newer is the one awaited and
/// its list arrives first, the state shows the newer outcome, and the older
/// outcome, arriving late, changes nothing.
pub proof fn lemma_newer_list_wins(
    controller: ProjectListController,
    filter: Filter,
    first: StoreQuery,
    second: StoreQuery,
    first_outcome: Result<Vec<Project>, FetchError>,
    second_outcome: Result<Vec<Project>, FetchError>,
)
    requires
        first.filter == filter,
        second.filter == filter,
        first.seq < second.seq,
        controller.entry(filter).accepts(second.seq as nat),
    ensures
        controller.entry(filter).resolve(second.seq as nat, second_outcome).resolve(
            first.seq as nat,
            first_outcome,
        ).status == settled(second_outcome),
        controller.entry(filter).resolve(first.seq as nat, first_outcome) == controller.entry(
            filter,
        ),
{
    lemma_newer_outcome_wins(
        controller.entry(filter),
        first.seq as nat,
        second.seq as nat,
        first_outcome,
        second_outcome,
    );
}

} // verus!
