use portfolio::card::{Card, Title};
use portfolio::controller::StoreQuery;
use portfolio::models::{Date, Filter, Project};
use portfolio::pages::{error_boundary, transition, Delivery, HomePage, ListPage, ListView, Projects};
use portfolio::renderer::{CardKind, RenderPass};
use portfolio::resource::{FetchError, FetchState};
use portfolio::store::{query, StoreError};

fn project(id: i32, name: &str, pinned: bool, date: (i32, u8, u8)) -> Project {
    Project {
        id,
        name: name.to_string(),
        short_description: format!("short {name}"),
        long_description: format!("long {name}"),
        url: None,
        technologies: None,
        pinned,
        date_created: Date::from_calendar_date(date.0, date.1, date.2).unwrap(),
    }
}

fn shown_ids(page: &ListPage) -> Vec<i32> {
    page.cards().iter().map(|c| c.id).collect()
}

#[test]
fn a_new_page_shows_nothing() {
    let page = ListPage::new(Filter::All, CardKind::Full);
    assert_eq!(page.state(), FetchState::Idle);
    assert_eq!(page.view(), ListView::Empty);
    assert_eq!(page.cards().len(), 0);
}

#[test]
fn the_pages_ask_for_their_lists_when_they_are_put_up() {
    let (page, q) = Projects();
    assert_eq!(q, StoreQuery { filter: Filter::All, seq: 1 });
    assert_eq!(page.state(), FetchState::Loading);
    assert_eq!(page.view(), ListView::Placeholder { text: "Loading...".to_string() });

    let (page, q) = HomePage();
    assert_eq!(q, StoreQuery { filter: Filter::PinnedOnly, seq: 1 });
    assert_eq!(page.state(), FetchState::Loading);
    assert_eq!(page.view(), ListView::Placeholder { text: "Loading...".to_string() });
}

#[test]
fn loading_again_while_loading_asks_for_nothing() {
    let (mut page, _) = Projects();
    for _ in 0..5 {
        assert_eq!(page.load(), None);
        assert_eq!(page.state(), FetchState::Loading);
    }
}

#[test]
fn two_pinned_projects_are_listed_newest_first() {
    let rows = vec![
        project(1, "A", true, (2024, 1, 2)),
        project(2, "B", true, (2024, 1, 1)),
    ];
    let (mut page, q) = HomePage();
    let delivery = page.deliver(q.seq, query(q.filter, Ok(rows.clone())));
    assert_eq!(
        delivery,
        Delivery::Listed { pass: RenderPass { mounted: vec![1, 2], retained: vec![], unmounted: vec![] } }
    );
    assert_eq!(page.state(), FetchState::Ready(&rows));
    assert_eq!(shown_ids(&page), vec![1, 2]);
    match page.view() {
        ListView::Cards { cards } => {
            assert_eq!(cards.iter().map(|c| c.id).collect::<Vec<i32>>(), vec![1, 2]);
            assert_eq!(cards[0].description, "short A");
        }
        other => panic!("the cards were expected, not {other:?}"),
    }
}

#[test]
fn pinned_projects_are_listed_newest_first_whatever_the_order_of_the_rows() {
    let rows = vec![
        project(2, "B", true, (2024, 1, 1)),
        project(3, "C", false, (2024, 1, 3)),
        project(1, "A", true, (2024, 1, 2)),
    ];
    let (mut page, q) = HomePage();
    page.deliver(q.seq, query(q.filter, Ok(rows)));
    assert_eq!(shown_ids(&page), vec![1, 2]);
}

#[test]
fn a_store_failure_shows_the_fallback_and_mounts_nothing() {
    let (mut page, q) = Projects();
    let delivery = page.deliver(q.seq, query(q.filter, Err(StoreError::QueryFailed)));
    assert_eq!(delivery, Delivery::Failed { unmounted: vec![] });
    assert_eq!(page.state(), FetchState::Error(FetchError {}));
    assert_eq!(page.view(), ListView::Fallback { text: "oops".to_string() });
    assert_eq!(page.cards().len(), 0);
}

#[test]
fn a_failure_takes_the_mounted_cards_down() {
    let (mut page, q) = Projects();
    page.deliver(q.seq, Ok(vec![project(1, "A", false, (2024, 1, 1)), project(2, "B", false, (2024, 1, 1))]));
    let q = page.load().unwrap();
    assert_eq!(shown_ids(&page), vec![1, 2]);
    assert_eq!(page.view(), ListView::Placeholder { text: "Loading...".to_string() });
    let delivery = page.deliver(q.seq, Err(FetchError {}));
    assert_eq!(delivery, Delivery::Failed { unmounted: vec![1, 2] });
    assert_eq!(page.cards().len(), 0);
    assert_eq!(page.view(), ListView::Fallback { text: "oops".to_string() });
}

#[test]
fn an_empty_list_is_shown_as_no_cards() {
    let (mut page, q) = Projects();
    let delivery = page.deliver(q.seq, query(q.filter, Ok(vec![])));
    assert_eq!(
        delivery,
        Delivery::Listed { pass: RenderPass { mounted: vec![], retained: vec![], unmounted: vec![] } }
    );
    assert_eq!(page.state(), FetchState::Ready(&vec![]));
    assert_eq!(page.view(), ListView::Cards { cards: &vec![] });
}

#[test]
fn the_newer_of_two_overlapping_requests_wins() {
    let (mut page, first) = Projects();
    page.unmount();
    assert_eq!(page.state(), FetchState::Idle);
    let second = page.load().unwrap();
    assert_eq!(second.seq, first.seq + 1);
    let delivery = page.deliver(second.seq, Ok(vec![project(2, "new", false, (2024, 1, 1))]));
    assert!(matches!(delivery, Delivery::Listed { .. }));
    let late = page.deliver(first.seq, Ok(vec![project(1, "old", false, (2024, 1, 1))]));
    assert_eq!(late, Delivery::Dropped);
    assert_eq!(shown_ids(&page), vec![2]);
    let late = page.deliver(first.seq, Err(FetchError {}));
    assert_eq!(late, Delivery::Dropped);
    assert_eq!(shown_ids(&page), vec![2]);
    assert!(matches!(page.view(), ListView::Cards { .. }));
}

#[test]
fn cards_keep_their_identity_over_a_reload() {
    let (mut page, q) = Projects();
    page.deliver(q.seq, Ok(vec![project(1, "A", false, (2024, 1, 2)), project(2, "B", false, (2024, 1, 1))]));
    let kept: Card = page.cards()[1].clone();
    let q = page.load().unwrap();
    let delivery = page.deliver(
        q.seq,
        Ok(vec![project(3, "C", false, (2024, 1, 3)), project(2, "B again", false, (2024, 1, 1))]),
    );
    assert_eq!(
        delivery,
        Delivery::Listed { pass: RenderPass { mounted: vec![3], retained: vec![2], unmounted: vec![1] } }
    );
    assert_eq!(shown_ids(&page), vec![3, 2]);
    assert_eq!(page.cards()[1], kept);
    assert_eq!(page.cards()[1].title, Title::Plain { text: "B".to_string() });
}

#[test]
fn a_list_that_cannot_be_rendered_falls_back() {
    let (mut page, q) = Projects();
    page.deliver(q.seq, Ok(vec![project(1, "A", false, (2024, 1, 2))]));
    let q = page.load().unwrap();
    let delivery = page.deliver(
        q.seq,
        Ok(vec![project(5, "E", false, (2024, 1, 2)), project(5, "F", false, (2024, 1, 1))]),
    );
    assert_eq!(delivery, Delivery::Failed { unmounted: vec![1] });
    assert!(matches!(page.state(), FetchState::Ready(_)));
    assert_eq!(page.view(), ListView::Fallback { text: "oops".to_string() });
    assert_eq!(page.cards().len(), 0);

    let q = page.load().unwrap();
    assert_eq!(page.view(), ListView::Placeholder { text: "Loading...".to_string() });
    page.deliver(q.seq, Ok(vec![project(5, "E", false, (2024, 1, 2))]));
    assert_eq!(shown_ids(&page), vec![5]);
    assert!(matches!(page.view(), ListView::Cards { .. }));
}

#[test]
fn a_failure_of_one_page_leaves_the_other_alone() {
    let (mut home, home_query) = HomePage();
    let (mut projects, projects_query) = Projects();
    home.deliver(home_query.seq, Err(FetchError {}));
    projects.deliver(projects_query.seq, Ok(vec![project(1, "A", false, (2024, 1, 2))]));
    assert_eq!(home.view(), ListView::Fallback { text: "oops".to_string() });
    assert_eq!(shown_ids(&projects), vec![1]);
    assert!(matches!(projects.view(), ListView::Cards { .. }));
}

#[test]
fn unmount_gives_the_state_up() {
    let (mut page, q) = Projects();
    page.deliver(q.seq, Ok(vec![project(1, "A", false, (2024, 1, 2))]));
    assert_eq!(page.unmount(), vec![1]);
    assert_eq!(page.state(), FetchState::Idle);
    assert_eq!(page.view(), ListView::Empty);
    assert_eq!(page.cards().len(), 0);
}

#[test]
fn the_guards_let_through_what_they_do_not_catch() {
    let cards: Vec<Card> = vec![];
    assert_eq!(error_boundary(false, ListView::Cards { cards: &cards }), ListView::Cards { cards: &cards });
    assert_eq!(
        error_boundary(true, ListView::Cards { cards: &cards }),
        ListView::Fallback { text: "oops".to_string() }
    );
    assert_eq!(transition(false, ListView::Empty), ListView::Empty);
    assert_eq!(
        transition(true, ListView::Cards { cards: &cards }),
        ListView::Placeholder { text: "Loading...".to_string() }
    );
}
