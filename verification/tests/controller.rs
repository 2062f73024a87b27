use portfolio::controller::{ProjectListController, StoreQuery};
use portfolio::models::{Date, Filter, Project};
use portfolio::resource::{FetchError, FetchState};
use portfolio::store::{query, StoreError};

fn project(id: i32, name: &str, pinned: bool, date: (i32, u8, u8)) -> Project {
    Project {
        id,
        name: name.to_string(),
        short_description: String::new(),
        long_description: String::new(),
        url: None,
        technologies: None,
        pinned,
        date_created: Date::from_calendar_date(date.0, date.1, date.2).unwrap(),
    }
}

fn ids(state: FetchState<&Vec<Project>>) -> Option<Vec<i32>> {
    match state {
        FetchState::Ready(items) => Some(items.iter().map(|p| p.id).collect()),
        _ => None,
    }
}

#[test]
fn a_new_controller_is_idle_for_both_filters() {
    let controller = ProjectListController::new();
    assert_eq!(controller.current_state(Filter::All), FetchState::Idle);
    assert_eq!(controller.current_state(Filter::PinnedOnly), FetchState::Idle);
    assert_eq!(controller.queries_issued(Filter::All), 0);
}

#[test]
fn load_hands_out_one_query_while_loading() {
    for filter in [Filter::All, Filter::PinnedOnly] {
        let mut controller = ProjectListController::new();
        let mut queries = Vec::new();
        for _ in 0..5 {
            if let Some(q) = controller.load(filter) {
                queries.push(q);
            }
            assert_eq!(controller.current_state(filter), FetchState::Loading);
        }
        assert_eq!(queries, vec![StoreQuery { filter, seq: 1 }]);
        assert_eq!(controller.queries_issued(filter), 1);
    }
}

#[test]
fn the_state_machine_goes_idle_loading_ready_loading_error() {
    let mut controller = ProjectListController::new();
    assert_eq!(controller.current_state(Filter::All), FetchState::Idle);
    let q = controller.load(Filter::All).unwrap();
    assert_eq!(controller.current_state(Filter::All), FetchState::Loading);
    assert!(controller.complete(q, Ok(vec![project(1, "A", false, (2024, 1, 1))])));
    assert_eq!(ids(controller.current_state(Filter::All)), Some(vec![1]));
    let q = controller.load(Filter::All).unwrap();
    assert_eq!(q.seq, 2);
    assert_eq!(controller.current_state(Filter::All), FetchState::Loading);
    assert!(controller.complete(q, Err(FetchError {})));
    assert_eq!(controller.current_state(Filter::All), FetchState::Error(FetchError {}));
    let q = controller.load(Filter::All).unwrap();
    assert_eq!(q.seq, 3);
    assert_eq!(controller.current_state(Filter::All), FetchState::Loading);
}

#[test]
fn a_failed_load_is_not_tried_again_by_itself() {
    let mut controller = ProjectListController::new();
    let q = controller.load(Filter::All).unwrap();
    controller.complete(q, Err(FetchError {}));
    assert_eq!(controller.current_state(Filter::All), FetchState::Error(FetchError {}));
    assert_eq!(controller.queries_issued(Filter::All), 1);
}

#[test]
fn the_stale_outcome_of_an_overtaken_query_is_dropped() {
    let mut controller = ProjectListController::new();
    let first = controller.load(Filter::All).unwrap();
    controller.discard(Filter::All);
    let second = controller.load(Filter::All).unwrap();
    assert!(controller.complete(second, Ok(vec![project(2, "new", false, (2024, 1, 1))])));
    assert!(!controller.complete(first, Ok(vec![project(1, "old", false, (2024, 1, 1))])));
    assert_eq!(ids(controller.current_state(Filter::All)), Some(vec![2]));
    assert!(!controller.complete(first, Err(FetchError {})));
    assert_eq!(ids(controller.current_state(Filter::All)), Some(vec![2]));
}

#[test]
fn an_empty_list_is_ready_and_no_error() {
    let mut controller = ProjectListController::new();
    let q = controller.load(Filter::PinnedOnly).unwrap();
    assert!(controller.complete(q, query(q.filter, Ok(vec![]))));
    assert_eq!(controller.current_state(Filter::PinnedOnly), FetchState::Ready(&vec![]));
}

#[test]
fn the_pinned_list_comes_in_the_order_of_the_store() {
    let rows = vec![
        project(1, "A", true, (2024, 1, 2)),
        project(2, "B", true, (2024, 1, 1)),
    ];
    let mut controller = ProjectListController::new();
    let q = controller.load(Filter::PinnedOnly).unwrap();
    assert_eq!(q, StoreQuery { filter: Filter::PinnedOnly, seq: 1 });
    assert!(controller.complete(q, query(q.filter, Ok(rows))));
    assert_eq!(ids(controller.current_state(Filter::PinnedOnly)), Some(vec![1, 2]));
    assert_eq!(controller.current_state(Filter::All), FetchState::Idle);
}

#[test]
fn a_store_failure_leaves_the_controller_in_error() {
    let mut controller = ProjectListController::new();
    let q = controller.load(Filter::All).unwrap();
    assert!(controller.complete(q, query(q.filter, Err(StoreError::QueryFailed))));
    assert_eq!(controller.current_state(Filter::All), FetchState::Error(FetchError {}));
}

#[test]
fn the_two_filters_do_not_disturb_each_other() {
    let mut controller = ProjectListController::new();
    let all = controller.load(Filter::All).unwrap();
    let pinned = controller.load(Filter::PinnedOnly).unwrap();
    assert!(controller.complete(pinned, Err(FetchError {})));
    assert_eq!(controller.current_state(Filter::All), FetchState::Loading);
    assert!(controller.complete(all, Ok(vec![project(1, "A", false, (2024, 1, 1))])));
    assert_eq!(ids(controller.current_state(Filter::All)), Some(vec![1]));
    assert_eq!(controller.current_state(Filter::PinnedOnly), FetchState::Error(FetchError {}));
    controller.discard(Filter::PinnedOnly);
    assert_eq!(ids(controller.current_state(Filter::All)), Some(vec![1]));
}
