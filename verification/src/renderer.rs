//! Rendering a list of projects as cards that keep their identity.
//!
//! The renderer holds the cards that are on show, in order, each under the id
//! of its project. A new list is held against them by id: a card whose id is
//! still there is kept as it stands, a card whose id is gone is taken down,
//! and a card is made for each id that is new.

use crate::card::{
    pinned_project_card, project_card, Card, CardView, PinnedProjectCard, ProjectCard, Title,
    TitleView,
};
use crate::models::{ids_of, Project, ProjectView};
use vstd::pervasive::VecAdditionalExecFns;
use vstd::prelude::*;

verus! {

/// Which card a list shows for a project.
#[derive(Clone, Copy, Debug, PartialEq, Eq, Hash, Structural)]
pub enum CardKind {
    /// The card of the full catalogue.
    Full,
    /// The card of the pinned list.
    Pinned,
}

impl CardKind {
    /// The card of this kind for `project`.
    pub open spec fn card(self, project: ProjectView) -> CardView {
        match self {
            CardKind::Full => project_card(project),
            CardKind::Pinned => pinned_project_card(project),
        }
    }

    /// The card of this kind for `project`.
    pub fn make(self, project: &Project) -> (card: Card)
        ensures
            card@ == self.card(project@),
            card.id == project.id,
    {
        match self {
            CardKind::Full => ProjectCard(project),
            CardKind::Pinned => PinnedProjectCard(project),
        }
    }
}

/// What one pass changed, by project id.
#[derive(Clone, Debug, PartialEq, Eq)]
pub struct RenderPass {
    /// The ids that were not on show before, in the order of the new list. A
    /// card was made for each.
    pub mounted: Vec<i32>,
    /// The ids that were on show before and still are, in the order of the new
    /// list. Their cards were kept.
    pub retained: Vec<i32>,
    /// The ids that were on show before and are no longer, in the order they
    /// had. Their cards were taken down.
    pub unmounted: Vec<i32>,
}

/// Why a list could not be rendered.
#[derive(Clone, Copy, Debug, PartialEq, Eq, Hash, Structural)]
pub enum RenderError {
    /// Two projects of the list have this id.
    DuplicateKey(i32),
}

/// The ids of a row of cards, in order.
pub open spec fn keys_of(cards: Seq<Card>) -> Seq<i32> {
    cards.map_values(|c: Card| c.id)
}

/// Whether `key` is the first id of `ids` that repeats an earlier one.
pub open spec fn is_first_repeat(ids: Seq<i32>, key: i32) -> bool {
    exists|j: int|
        0 <= j < ids.len() && ids[j] == key && #[trigger] ids.take(j).contains(key) && ids.take(
            j,
        ).no_duplicates()
}

/// The ids of `ids` that do not occur in `others`.
pub open spec fn absent_from(others: Seq<i32>) -> spec_fn(i32) -> bool {
    |k: i32| !others.contains(k)
}

/// The ids of `ids` that occur in `others`.
pub open spec fn present_in(others: Seq<i32>) -> spec_fn(i32) -> bool {
    |k: i32| others.contains(k)
}

/// The card shown at place `i` after `items` were rendered over `before`:
/// the card that was on show for the project's id, where there was one, and
/// otherwise a card made of the project.
pub open spec fn shows(
    kind: CardKind,
    before: Seq<Card>,
    items: Seq<Project>,
    i: int,
    card: Card,
) -> bool {
    match keys_of(before).index_of_first(items[i].id) {
        Some(j) => card == before[j],
        None => card@ == kind.card(items[i]@) && card.id == items[i].id,
    }
}

/// The first place of `key` in `keys`.
pub fn position(keys: &Vec<i32>, key: i32) -> (place: Option<usize>)
    ensures
        match place {
            Some(j) => keys@.index_of_first(key) == Some(j as int) && j < keys.len(),
            None => keys@.index_of_first(key) is None,
        },
        place is Some <==> keys@.contains(key),
{
    let mut j: usize = 0;
    while j < keys.len()
        invariant
            j <= keys.len(),
            forall|i: int| 0 <= i < j ==> keys@[i] != key,
        decreases keys.len() - j,
    {
        if keys[j] == key {
            proof {
                keys@.index_of_first_ensures(key);
                assert(keys@[j as int] == key);
            }
            return Some(j);
        }
        j += 1;
    }
    proof {
        keys@.index_of_first_ensures(key);
    }
    None
}

/// The first id of the list that repeats an earlier one, if any does.
pub fn first_duplicate(items: &Vec<Project>) -> (repeat: Option<i32>)
    ensures
        repeat is None <==> ids_of(items@).no_duplicates(),
        repeat matches Some(key) ==> is_first_repeat(ids_of(items@), key),
{
    let ghost ids = ids_of(items@);
    let mut j: usize = 0;
    while j < items.len()
        invariant
            j <= items.len(),
            ids == ids_of(items@),
            ids.take(j as int).no_duplicates(),
        decreases items.len() - j,
    {
        let key: i32 = items[j].id;
        let mut i: usize = 0;
        while i < j
            invariant
                i <= j < items.len(),
                ids == ids_of(items@),
                key == ids[j as int],
                ids.take(j as int).no_duplicates(),
                forall|h: int| 0 <= h < i ==> ids[h] != key,
            decreases j - i,
        {
            if items[i].id == key {
                proof {
                    assert(ids.take(j as int)[i as int] == key);
                    assert(ids.take(j as int).contains(key));
                    assert(ids[i as int] == ids[j as int] && i != j);
                }
                return Some(key);
            }
            i += 1;
        }
        proof {
            let longer = ids.take(j + 1);
            assert forall|a: int, b: int| 0 <= a < longer.len() && 0 <= b < longer.len() && a
                != b implies longer[a] != longer[b] by {
                if a < j && b < j {
                    assert(ids.take(j as int)[a] == longer[a] && ids.take(j as int)[b] == longer[b]);
                }
            }
        }
        j += 1;
    }
    assert(ids.take(j as int) == ids);
    None
}

/// The cards of a list that are on show, each under the id of its project.
pub struct KeyedListRenderer {
    kind: CardKind,
    cards: Vec<Card>,
}

impl KeyedListRenderer {
    /// Which card the renderer makes for a project.
    pub closed spec fn kind(&self) -> CardKind {
        self.kind
    }

    /// The cards on show, in order.
    pub closed spec fn shown(&self) -> Seq<Card> {
        self.cards@
    }

    /// The ids of the cards on show, in order.
    pub open spec fn keys(&self) -> Seq<i32> {
        keys_of(self.shown())
    }

    /// No two cards on show have the same id.
    pub open spec fn wf(&self) -> bool {
        self.keys().no_duplicates()
    }

    /// A renderer with nothing on show.
    pub fn new(kind: CardKind) -> (renderer: Self)
        ensures
            renderer.kind() == kind,
            renderer.shown() == Seq::<Card>::empty(),
            renderer.wf(),
    {
        KeyedListRenderer { kind, cards: Vec::new() }
    }

    /// The cards on show, in order.
    pub fn cards(&self) -> (cards: &Vec<Card>)
        ensures
            cards@ == self.shown(),
    {
        &self.cards
    }

    /// The card on show under `key`, if there is one.
    pub fn card(&self, key: i32) -> (card: Option<&Card>)
        ensures
            match keys_of(self.shown()).index_of_first(key) {
                Some(j) => card == Some(&self.shown()[j]),
                None => card is None,
            },
    {
        let keys = self.key_list();
        match position(&keys, key) {
            Some(j) => Some(&self.cards[j]),
            None => None,
        }
    }

    /// The ids of the cards on show, in order.
    pub fn key_list(&self) -> (keys: Vec<i32>)
        ensures
            keys@ == self.keys(),
    {
        let mut keys: Vec<i32> = Vec::new();
        let mut j: usize = 0;
        while j < self.cards.len()
            invariant
                j <= self.cards.len(),
                keys@ == keys_of(self.cards@).take(j as int),
            decreases self.cards.len() - j,
        {
            keys.push(self.cards[j].id);
            assert(keys_of(self.cards@).take(j + 1) == keys_of(self.cards@).take(j as int).push(
                self.cards@[j as int].id,
            ));
            j += 1;
        }
        assert(keys_of(self.cards@).take(j as int) == keys_of(self.cards@));
        keys
    }

    /// Takes every card down. Returns the ids that were on show, in order.
    pub fn clear(&mut self) -> (unmounted: Vec<i32>)
        ensures
            final(self).shown() == Seq::<Card>::empty(),
            final(self).kind() == old(self).kind(),
            final(self).wf(),
            unmounted@ == old(self).keys(),
    {
        let keys = self.key_list();
        self.cards = Vec::new();
        keys
    }

    /// Renders `items` over what is on show.
    ///
    /// Where no two projects of `items` share an id, there is afterwards one
    /// card for each project, in the order of `items`. The card of an id that
    /// was on show is the very card that was on show: it is kept, not made
    /// again. The card of a new id is made of its project. The pass says
    /// which ids were new, which were kept and which are gone.
    ///
    /// Where two projects share an id, nothing changes and the first id that
    /// repeats is reported.
    pub fn render(&mut self, items: &Vec<Project>) -> (result: Result<RenderPass, RenderError>)
        ensures
            final(self).kind() == old(self).kind(),
            result is Ok <==> ids_of(items@).no_duplicates(),
            result matches Err(RenderError::DuplicateKey(key)) ==> final(self).shown() == old(
                self,
            ).shown() && is_first_repeat(ids_of(items@), key),
            result matches Ok(pass) ==> {
                &&& final(self).keys() == ids_of(items@)
                &&& final(self).wf()
                &&& forall|i: int|
                    0 <= i < items.len() ==> shows(
                        old(self).kind(),
                        old(self).shown(),
                        items@,
                        i,
                        #[trigger] final(self).shown()[i],
                    )
                &&& pass.mounted@ == ids_of(items@).filter(absent_from(old(self).keys()))
                &&& pass.retained@ == ids_of(items@).filter(present_in(old(self).keys()))
                &&& pass.unmounted@ == old(self).keys().filter(absent_from(ids_of(items@)))
            },
    {
        match first_duplicate(items) {
            Some(key) => {
                return Err(RenderError::DuplicateKey(key));
            },
            None => {},
        }
        let ghost ids = ids_of(items@);
        let ghost before = self.cards@;
        let kind = self.kind;
        let old_keys = self.key_list();
        let mut old_cards: Vec<Card> = Vec::new();
        core::mem::swap(&mut self.cards, &mut old_cards);
        let mut cards: Vec<Card> = Vec::new();
        let mut new_keys: Vec<i32> = Vec::new();
        let mut mounted: Vec<i32> = Vec::new();
        let mut retained: Vec<i32> = Vec::new();
        let mut i: usize = 0;
        proof {
            assert(ids.take(0).filter(absent_from(old_keys@)) == Seq::<i32>::empty()) by {
                reveal(Seq::filter);
            }
            assert(ids.take(0).filter(present_in(old_keys@)) == Seq::<i32>::empty()) by {
                reveal(Seq::filter);
            }
        }
        while i < items.len()
            invariant
                i <= items.len(),
                ids == ids_of(items@),
                ids.no_duplicates(),
                old_keys@ == keys_of(before),
                old_cards@.len() == before.len(),
                forall|j: int|
                    0 <= j < before.len() && (forall|h: int|
                        0 <= h < i ==> old_keys@.index_of_first(#[trigger] ids[h]) != Some(j))
                        ==> #[trigger] old_cards@[j] == before[j],
                cards@.len() == i,
                new_keys@ == ids.take(i as int),
                forall|h: int| 0 <= h < i ==> shows(kind, before, items@, h, #[trigger] cards@[h]),
                forall|h: int| 0 <= h < i ==> (#[trigger] cards@[h]).id == ids[h],
                mounted@ == ids.take(i as int).filter(absent_from(old_keys@)),
                retained@ == ids.take(i as int).filter(present_in(old_keys@)),
            decreases items.len() - i,
        {
            let key: i32 = items[i].id;
            assert(ids[i as int] == key);
            proof {
                ids.lemma_take_succ_push(i as int);
                ids.take(i as int).lemma_filter_push(key, absent_from(old_keys@));
                ids.take(i as int).lemma_filter_push(key, present_in(old_keys@));
                old_keys@.index_of_first_ensures(key);
            }
            let ghost old_cards_before = old_cards@;
            match position(&old_keys, key) {
                Some(j) => {
                    assert(old_cards@[j as int] == before[j as int]) by {
                        assert forall|h: int| 0 <= h < i implies old_keys@.index_of_first(
                            #[trigger] ids[h],
                        ) != Some(j as int) by {
                            old_keys@.index_of_first_ensures(ids[h]);
                        }
                    }
                    let mut card = blank_card();
                    old_cards.set_and_swap(j, &mut card);
                    assert(before[j as int].id == key) by {
                        assert(old_keys@[j as int] == before[j as int].id);
                    }
                    cards.push(card);
                    retained.push(key);
                },
                None => {
                    let card = kind.make(&items[i]);
                    cards.push(card);
                    mounted.push(key);
                },
            }
            new_keys.push(key);
            proof {
                assert forall|j: int|
                    0 <= j < before.len() && (forall|h: int|
                        0 <= h < i + 1 ==> old_keys@.index_of_first(#[trigger] ids[h]) != Some(j))
                    implies #[trigger] old_cards@[j] == before[j] by {
                    assert(old_keys@.index_of_first(ids[i as int]) != Some(j));
                    assert(old_cards@[j] == old_cards_before[j]);
                }
            }
            i += 1;
        }
        let mut unmounted: Vec<i32> = Vec::new();
        let mut j: usize = 0;
        proof {
            assert(ids.take(i as int) == ids);
            assert(old_keys@.take(0).filter(absent_from(ids)) == Seq::<i32>::empty()) by {
                reveal(Seq::filter);
            }
        }
        while j < old_keys.len()
            invariant
                j <= old_keys.len(),
                new_keys@ == ids,
                unmounted@ == old_keys@.take(j as int).filter(absent_from(ids)),
            decreases old_keys.len() - j,
        {
            let key: i32 = old_keys[j];
            proof {
                old_keys@.lemma_take_succ_push(j as int);
                old_keys@.take(j as int).lemma_filter_push(key, absent_from(ids));
            }
            match position(&new_keys, key) {
                Some(_) => {},
                None => {
                    unmounted.push(key);
                },
            }
            j += 1;
        }
        assert(old_keys@.take(j as int) == old_keys@);
        self.cards = cards;
        assert(keys_of(self.cards@) == ids);
        Ok(RenderPass { mounted, retained, unmounted })
    }
}

/// A pass accounts for every id once: an id of the new list is either mounted
/// or retained, never both, and an id that was on show is either retained or
/// unmounted, never both.
pub proof fn lemma_pass_accounts_for_every_id(before: Seq<i32>, after: Seq<i32>, key: i32)
    ensures
        after.filter(absent_from(before)).contains(key) <==> after.contains(key) && !before.contains(
            key,
        ),
        after.filter(present_in(before)).contains(key) <==> after.contains(key) && before.contains(
            key,
        ),
        before.filter(absent_from(after)).contains(key) <==> before.contains(key) && !after.contains(
            key,
        ),
{
    lemma_filtered_ids(after, absent_from(before), key);
    lemma_filtered_ids(after, present_in(before), key);
    lemma_filtered_ids(before, absent_from(after), key);
}

/// An id is among those picked from a list exactly if it is in the list and
/// passes the test.
proof fn lemma_filtered_ids(ids: Seq<i32>, test: spec_fn(i32) -> bool, key: i32)
    ensures
        ids.filter(test).contains(key) <==> ids.contains(key) && test(key),
{
    let picked = ids.filter(test);
    if picked.contains(key) {
        let i = choose|i: int| 0 <= i < picked.len() && picked[i] == key;
        ids.lemma_filter_pred(test, i);
        ids.lemma_filter_contains_rev(test, key);
    }
    if ids.contains(key) && test(key) {
        let i = choose|i: int| 0 <= i < ids.len() && ids[i] == key;
        ids.lemma_filter_contains(test, i);
    }
}

/// What a card with nothing on it holds: the id 0, empty texts, a plain
/// title and no row of technologies.
pub open spec fn blank_card_view() -> CardView {
    CardView {
        id: 0,
        image: Seq::empty(),
        title: TitleView::Plain { text: Seq::empty() },
        description: Seq::empty(),
        tech_stack: None,
    }
}

/// A card with nothing on it, to stand where a card was taken from.
fn blank_card() -> (card: Card)
    ensures
        card@ == blank_card_view(),
{
    Card {
        id: 0,
        image: String::new(),
        title: Title::Plain { text: String::new() },
        description: String::new(),
        tech_stack: None,
    }
}

} // verus!
