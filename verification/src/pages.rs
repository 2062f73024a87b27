//! The two list views of the site: the pinned projects of the home page and
//! the full catalogue. Each has a controller and a renderer of its own, and
//! shows its list behind two guards: one that stands in while the list is
//! loading, and one that stands in where it failed.

use crate::card::Card;
use crate::controller::{ProjectListController, StoreQuery};
use crate::models::{ids_of, Filter, Project};
use crate::renderer::{
    absent_from, keys_of, present_in, shows, CardKind, KeyedListRenderer, RenderPass,
};
use crate::resource::{FetchError, FetchState, KeyState};
use vstd::prelude::*;
use vstd::string::StringExecFns;

verus! {

/// What a list view shows.
#[derive(Clone, Debug, PartialEq, Eq)]
pub enum ListView<'a> {
    /// Nothing: the list was not asked for.
    Empty,
    /// The list is loading; `text` stands in for it.
    Placeholder { text: String },
    /// The list failed; `text` stands in for it.
    Fallback { text: String },
    /// The cards of the list, in order.
    Cards { cards: &'a Vec<Card> },
}

/// What a `ListView` holds, with its texts as sequences of characters.
pub enum ListShown {
    Empty,
    Placeholder { text: Seq<char> },
    Fallback { text: Seq<char> },
    Cards { cards: Seq<Card> },
}

impl<'a> View for ListView<'a> {
    type V = ListShown;

    open spec fn view(&self) -> ListShown {
        match self {
            ListView::Empty => ListShown::Empty,
            ListView::Placeholder { text } => ListShown::Placeholder { text: text@ },
            ListView::Fallback { text } => ListShown::Fallback { text: text@ },
            ListView::Cards { cards } => ListShown::Cards { cards: cards@ },
        }
    }
}

/// What stands in for a list that is loading.
pub open spec fn loading_text() -> Seq<char> {
    "Loading..."@
}

/// What stands in for a list that failed.
pub open spec fn failure_text() -> Seq<char> {
    "oops"@
}

/// The guard against failure: the fallback where the list failed, and
/// otherwise what it guards.
pub open spec fn behind_error_boundary(failed: bool, subtree: ListShown) -> ListShown {
    if failed {
        ListShown::Fallback { text: failure_text() }
    } else {
        subtree
    }
}

/// The guard for loading: the placeholder while the list is loading, and
/// otherwise what it guards.
pub open spec fn behind_transition(pending: bool, subtree: ListShown) -> ListShown {
    if pending {
        ListShown::Placeholder { text: loading_text() }
    } else {
        subtree
    }
}

/// What a list view shows for a state: nothing before the list was asked
/// for, the placeholder while it loads, the fallback where loading or
/// rendering failed, and the cards of a list that is ready.
pub open spec fn shown_for(
    status: FetchState<Vec<Project>>,
    render_failed: bool,
    cards: Seq<Card>,
) -> ListShown {
    behind_transition(
        status is Loading,
        behind_error_boundary(
            status is Error || (status is Ready && render_failed),
            if status is Ready {
                ListShown::Cards { cards }
            } else {
                ListShown::Empty
            },
        ),
    )
}

/// The guard against failure: the fallback where the list failed, and
/// otherwise what it guards. A failure stays behind the guard that owns it.
pub fn error_boundary<'a>(failed: bool, subtree: ListView<'a>) -> (view: ListView<'a>)
    ensures
        view@ == behind_error_boundary(failed, subtree@),
{
    if failed {
        ListView::Fallback { text: String::from_str("oops") }
    } else {
        subtree
    }
}

/// The guard for loading: the placeholder while the list is loading, and
/// otherwise what it guards.
pub fn transition<'a>(pending: bool, subtree: ListView<'a>) -> (view: ListView<'a>)
    ensures
        view@ == behind_transition(pending, subtree@),
{
    if pending {
        ListView::Placeholder { text: String::from_str("Loading...") }
    } else {
        subtree
    }
}

/// What the arrival of a query's outcome did to a list view.
#[derive(Clone, Debug, PartialEq, Eq)]
pub enum Delivery {
    /// The outcome was not awaited and changed nothing.
    Dropped,
    /// The list is ready and its cards are on show.
    Listed { pass: RenderPass },
    /// The list failed, in loading or in rendering. The cards with these ids
    /// were taken down.
    Failed { unmounted: Vec<i32> },
}

/// One list view: the projects of one filter, loaded and shown as cards of
/// one kind.
pub struct ListPage {
    filter: Filter,
    controller: ProjectListController,
    renderer: KeyedListRenderer,
    render_failed: bool,
}

impl ListPage {
    /// The filter whose projects the page lists.
    pub closed spec fn filter(&self) -> Filter {
        self.filter
    }

    /// The kind of card the page shows.
    pub closed spec fn kind(&self) -> CardKind {
        self.renderer.kind()
    }

    /// The state of the page's list, and how many queries were handed out for
    /// it.
    pub closed spec fn entry(&self) -> KeyState<Vec<Project>> {
        self.controller.entry(self.filter)
    }

    /// The cards that are mounted, in order.
    pub closed spec fn shown(&self) -> Seq<Card> {
        self.renderer.shown()
    }

    /// Whether the list that is ready could not be rendered.
    pub closed spec fn render_failed(&self) -> bool {
        self.render_failed
    }

    /// What the page shows.
    pub open spec fn view_model(&self) -> ListShown {
        shown_for(self.entry().status, self.render_failed(), self.shown())
    }

    /// What holds of every page: the cards of a list that is ready are those
    /// of its projects, in their order; no card is mounted where the list
    /// failed or was never asked for; and no two cards have the same id.
    pub open spec fn wf(&self) -> bool {
        &&& keys_of(self.shown()).no_duplicates()
        &&& match self.entry().status {
            FetchState::Idle => self.shown().len() == 0 && !self.render_failed(),
            FetchState::Loading => !self.render_failed(),
            FetchState::Error(_) => self.shown().len() == 0 && !self.render_failed(),
            FetchState::Ready(items) => if self.render_failed() {
                self.shown().len() == 0 && !ids_of(items@).no_duplicates()
            } else {
                keys_of(self.shown()) == ids_of(items@)
            },
        }
    }

    /// A page that has not asked for its list yet.
    pub fn new(filter: Filter, kind: CardKind) -> (page: Self)
        ensures
            page.filter() == filter,
            page.kind() == kind,
            page.entry() == KeyState::<Vec<Project>>::initial(),
            page.shown() == Seq::<Card>::empty(),
            !page.render_failed(),
            page.wf(),
    {
        ListPage {
            filter,
            controller: ProjectListController::new(),
            renderer: KeyedListRenderer::new(kind),
            render_failed: false,
        }
    }

    /// Asks for the page's list. Where no query is awaited, the page is
    /// `Loading` afterwards and the query to run is returned; where one is
    /// awaited, nothing changes and there is nothing to run. The cards that
    /// are mounted stay, so that those of projects that come again are kept.
    pub fn load(&mut self) -> (query: Option<StoreQuery>)
        ensures
            final(self).filter() == old(self).filter(),
            final(self).kind() == old(self).kind(),
            final(self).entry() == old(self).entry().trigger(),
            final(self).shown() == old(self).shown(),
            final(self).render_failed() == (old(self).render_failed() && !old(
                self,
            ).entry().can_start()),
            query == if old(self).entry().can_start() {
                Some(
                    (StoreQuery {
                        filter: old(self).filter(),
                        seq: (old(self).entry().issued + 1) as u64,
                    }),
                )
            } else {
                None
            },
            old(self).wf() ==> final(self).wf(),
    {
        let query = self.controller.load(self.filter);
        if query.is_some() {
            self.render_failed = false;
        }
        query
    }

    /// The state of the page's list.
    pub fn state(&self) -> (state: FetchState<&Vec<Project>>)
        ensures
            state == self.entry().status.borrowed(),
    {
        self.controller.current_state(self.filter)
    }

    /// The cards that are mounted, in order.
    pub fn cards(&self) -> (cards: &Vec<Card>)
        ensures
            cards@ == self.shown(),
    {
        self.renderer.cards()
    }

    /// What the page shows: the list behind its two guards.
    pub fn view(&self) -> (view: ListView<'_>)
        ensures
            view@ == self.view_model(),
    {
        let (pending, failed, ready) = match self.controller.current_state(self.filter) {
            FetchState::Idle => (false, false, false),
            FetchState::Loading => (true, false, false),
            FetchState::Ready(_) => (false, self.render_failed, true),
            FetchState::Error(_) => (false, true, false),
        };
        let list = if ready {
            ListView::Cards { cards: self.renderer.cards() }
        } else {
            ListView::Empty
        };
        transition(pending, error_boundary(failed, list))
    }

    /// Takes in the outcome of query number `seq`.
    ///
    /// An outcome that is not awaited is dropped. A list that arrives is
    /// rendered over the cards that are mounted; if it cannot be rendered, or
    /// if a failure arrives, every card is taken down and the view falls back.
    pub fn deliver(&mut self, seq: u64, outcome: Result<Vec<Project>, FetchError>) -> (delivery:
        Delivery)
        ensures
            delivered(*old(self), *final(self), seq as nat, outcome, delivery),
            old(self).wf() ==> final(self).wf(),
    {
        let query = StoreQuery { filter: self.filter, seq };
        if !self.controller.complete(query, outcome) {
            return Delivery::Dropped;
        }
        match self.controller.current_state(self.filter) {
            FetchState::Ready(items) => match self.renderer.render(items) {
                Ok(pass) => {
                    self.render_failed = false;
                    Delivery::Listed { pass }
                },
                Err(_) => {
                    self.render_failed = true;
                    Delivery::Failed { unmounted: self.renderer.clear() }
                },
            },
            _ => {
                self.render_failed = false;
                Delivery::Failed { unmounted: self.renderer.clear() }
            },
        }
    }

    /// Gives the page's state up, as when the view goes away: every card is
    /// taken down and the list is `Idle` again. A query still under way will
    /// find its outcome dropped. Returns the ids whose cards were taken down.
    pub fn unmount(&mut self) -> (unmounted: Vec<i32>)
        ensures
            final(self).filter() == old(self).filter(),
            final(self).kind() == old(self).kind(),
            final(self).entry() == old(self).entry().discard(),
            final(self).shown() == Seq::<Card>::empty(),
            !final(self).render_failed(),
            unmounted@ == keys_of(old(self).shown()),
            final(self).wf(),
    {
        self.controller.discard(self.filter);
        self.render_failed = false;
        self.renderer.clear()
    }
}

/// How a page stands after an outcome has arrived, against how it stood
/// before.
pub open spec fn delivered(
    before: ListPage,
    after: ListPage,
    seq: nat,
    outcome: Result<Vec<Project>, FetchError>,
    delivery: Delivery,
) -> bool {
    &&& after.filter() == before.filter()
    &&& after.kind() == before.kind()
    &&& after.entry() == before.entry().resolve(seq, outcome)
    &&& if !before.entry().accepts(seq) {
        &&& delivery == Delivery::Dropped
        &&& after.shown() == before.shown()
        &&& after.render_failed() == before.render_failed()
    } else {
        match outcome {
            Ok(items) => if ids_of(items@).no_duplicates() {
                &&& !after.render_failed()
                &&& keys_of(after.shown()) == ids_of(items@)
                &&& forall|i: int|
                    0 <= i < items@.len() ==> shows(
                        before.kind(),
                        before.shown(),
                        items@,
                        i,
                        #[trigger] after.shown()[i],
                    )
                &&& delivery matches Delivery::Listed { pass }
                &&& pass.mounted@ == ids_of(items@).filter(absent_from(keys_of(before.shown())))
                &&& pass.retained@ == ids_of(items@).filter(present_in(keys_of(before.shown())))
                &&& pass.unmounted@ == keys_of(before.shown()).filter(absent_from(ids_of(items@)))
            } else {
                &&& after.render_failed()
                &&& after.shown() == Seq::<Card>::empty()
                &&& delivery matches Delivery::Failed { unmounted }
                &&& unmounted@ == keys_of(before.shown())
            },
            Err(_) => {
                &&& !after.render_failed()
                &&& after.shown() == Seq::<Card>::empty()
                &&& delivery matches Delivery::Failed { unmounted }
                &&& unmounted@ == keys_of(before.shown())
            },
        }
    }
}

/// A list whose projects all have ids of their own is shown as it came: one
/// card for each project, in the order of the list, and the view shows those
/// cards.
pub proof fn lemma_cards_follow_the_list(
    before: ListPage,
    after: ListPage,
    seq: nat,
    items: Vec<Project>,
    delivery: Delivery,
)
    requires
        delivered(before, after, seq, Ok(items), delivery),
        before.entry().accepts(seq),
        ids_of(items@).no_duplicates(),
    ensures
        after.entry().status == FetchState::Ready(items),
        after.shown().len() == items@.len(),
        forall|i: int| 0 <= i < items@.len() ==> (#[trigger] after.shown()[i]).id == items@[i].id,
        after.view_model() == (ListShown::Cards { cards: after.shown() }),
{
    assert(keys_of(after.shown()).len() == ids_of(items@).len());
    assert forall|i: int| 0 <= i < items@.len() implies (#[trigger] after.shown()[i]).id
        == items@[i].id by {
        assert(keys_of(after.shown())[i] == after.shown()[i].id);
        assert(ids_of(items@)[i] == items@[i].id);
    }
}

/// A card whose project is in the new list again is the card that was
/// mounted before: it is kept, whatever the project now holds.
pub proof fn lemma_kept_card_is_the_old_card(
    before: ListPage,
    after: ListPage,
    seq: nat,
    items: Vec<Project>,
    delivery: Delivery,
    i: int,
    j: int,
)
    requires
        delivered(before, after, seq, Ok(items), delivery),
        before.entry().accepts(seq),
        ids_of(items@).no_duplicates(),
        keys_of(before.shown()).no_duplicates(),
        0 <= i < items@.len(),
        0 <= j < before.shown().len(),
        before.shown()[j].id == items@[i].id,
    ensures
        after.shown()[i] == before.shown()[j],
{
    let keys = keys_of(before.shown());
    keys.index_of_first_ensures(items@[i].id);
    assert(keys[j] == items@[i].id);
    assert(shows(before.kind(), before.shown(), items@, i, after.shown()[i]));
}

/// An empty list is a list: the page is ready with it, shows no card, and
/// does not fall back.
pub proof fn lemma_empty_list_is_ready(
    before: ListPage,
    after: ListPage,
    seq: nat,
    items: Vec<Project>,
    delivery: Delivery,
)
    requires
        delivered(before, after, seq, Ok(items), delivery),
        before.entry().accepts(seq),
        items@.len() == 0,
    ensures
        after.entry().status == FetchState::Ready(items),
        after.shown() == Seq::<Card>::empty(),
        after.view_model() == (ListShown::Cards { cards: Seq::<Card>::empty() }),
{
    assert(ids_of(items@).no_duplicates());
    assert(keys_of(after.shown()).len() == ids_of(items@).len());
    assert(after.shown() == Seq::<Card>::empty());
}

/// A failure that arrives for the awaited query leaves the page in `Error`,
/// with the fallback on show and no card mounted.
pub proof fn lemma_failure_falls_back(
    before: ListPage,
    after: ListPage,
    seq: nat,
    error: FetchError,
    delivery: Delivery,
)
    requires
        delivered(before, after, seq, Err(error), delivery),
        before.entry().accepts(seq),
    ensures
        after.entry().status == FetchState::<Vec<Project>>::Error(error),
        after.shown() == Seq::<Card>::empty(),
        after.view_model() == (ListShown::Fallback { text: failure_text() }),
{
}

/// An outcome that is not awaited changes nothing of the page: neither its
/// state, nor its cards, nor what it shows.
pub proof fn lemma_stale_delivery_changes_nothing(
    before: ListPage,
    after: ListPage,
    seq: nat,
    outcome: Result<Vec<Project>, FetchError>,
    delivery: Delivery,
)
    requires
        delivered(before, after, seq, outcome, delivery),
        !before.entry().accepts(seq),
    ensures
        after.entry() == before.entry(),
        after.shown() == before.shown(),
        after.view_model() == before.view_model(),
        delivery == Delivery::Dropped,
{
}

/// The page of the full catalogue, as it is put up: its list is asked for at
/// once, and the query to run comes with the page.
#[allow(non_snake_case)]
pub fn Projects() -> (mounted: (ListPage, StoreQuery))
    ensures
        mounted.0.filter() == Filter::All,
        mounted.0.kind() == CardKind::Full,
        mounted.0.entry() == (KeyState::<Vec<Project>> { status: FetchState::Loading, issued: 1 }),
        mounted.0.shown() == Seq::<Card>::empty(),
        !mounted.0.render_failed(),
        mounted.0.wf(),
        mounted.1 == (StoreQuery { filter: Filter::All, seq: 1 }),
{
    let mut page = ListPage::new(Filter::All, CardKind::Full);
    let query = page.load();
    (page, query.unwrap())
}

/// The list of pinned projects on the home page, as it is put up: its list is
/// asked for at once, and the query to run comes with the page.
#[allow(non_snake_case)]
pub fn HomePage() -> (mounted: (ListPage, StoreQuery))
    ensures
        mounted.0.filter() == Filter::PinnedOnly,
        mounted.0.kind() == CardKind::Pinned,
        mounted.0.entry() == (KeyState::<Vec<Project>> { status: FetchState::Loading, issued: 1 }),
        mounted.0.shown() == Seq::<Card>::empty(),
        !mounted.0.render_failed(),
        mounted.0.wf(),
        mounted.1 == (StoreQuery { filter: Filter::PinnedOnly, seq: 1 }),
{
    let mut page = ListPage::new(Filter::PinnedOnly, CardKind::Pinned);
    let query = page.load();
    (page, query.unwrap())
}

} // verus!
