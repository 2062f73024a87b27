use portfolio::models::{Date, Filter, Project};
use portfolio::resource::FetchError;
use portfolio::store::{get_pinned_projects, get_projects, normalize, query, StoreError};

fn project(id: i32, pinned: bool, date: (i32, u8, u8)) -> Project {
    Project {
        id,
        name: format!("P{id}"),
        short_description: String::new(),
        long_description: String::new(),
        url: None,
        technologies: None,
        pinned,
        date_created: Date::from_calendar_date(date.0, date.1, date.2).unwrap(),
    }
}

fn ids(list: &[Project]) -> Vec<i32> {
    list.iter().map(|p| p.id).collect()
}

fn rows() -> Vec<Project> {
    vec![
        project(1, false, (2023, 5, 1)),
        project(2, true, (2024, 1, 2)),
        project(3, true, (2022, 12, 31)),
        project(4, false, (2024, 1, 2)),
        project(5, true, (2024, 3, 1)),
        project(6, false, (2022, 12, 31)),
    ]
}

#[test]
fn all_projects_come_newest_first() {
    let list = get_projects(Ok(rows())).unwrap();
    assert_eq!(ids(&list), vec![5, 2, 4, 1, 3, 6]);
}

#[test]
fn projects_of_one_day_keep_their_order() {
    let list = get_projects(Ok(vec![
        project(1, false, (2024, 1, 1)),
        project(2, false, (2024, 1, 1)),
        project(3, false, (2024, 1, 1)),
    ]))
    .unwrap();
    assert_eq!(ids(&list), vec![1, 2, 3]);
}

#[test]
fn pinned_projects_come_newest_first() {
    let list = get_pinned_projects(Ok(rows())).unwrap();
    assert_eq!(ids(&list), vec![5, 2, 3]);
    assert!(list.iter().all(|p| p.pinned));
}

#[test]
fn the_pinned_list_is_the_full_list_without_the_others() {
    let full = get_projects(Ok(rows())).unwrap();
    let pinned = get_pinned_projects(Ok(rows())).unwrap();
    let picked: Vec<Project> = full.into_iter().filter(|p| p.pinned).collect();
    assert_eq!(pinned, picked);
}

#[test]
fn rows_that_are_ordered_stay_as_they_are() {
    let ordered = get_projects(Ok(rows())).unwrap();
    assert_eq!(get_projects(Ok(ordered.clone())).unwrap(), ordered);
}

#[test]
fn ordering_keeps_every_row() {
    let mut list = get_projects(Ok(rows())).unwrap();
    list.sort_by_key(|p| p.id);
    assert_eq!(list, rows());
}

#[test]
fn no_rows_give_an_empty_list() {
    assert_eq!(get_projects(Ok(vec![])), Ok(vec![]));
    assert_eq!(get_pinned_projects(Ok(vec![])), Ok(vec![]));
    assert_eq!(get_pinned_projects(Ok(vec![project(1, false, (2024, 1, 1))])), Ok(vec![]));
}

#[test]
fn every_store_error_becomes_the_one_fetch_error() {
    for error in [
        StoreError::StoreUnavailable,
        StoreError::QueryFailed,
        StoreError::DeserializationError,
    ] {
        assert_eq!(normalize(error), FetchError {});
        assert_eq!(get_projects(Err(error)), Err(FetchError {}));
        assert_eq!(get_pinned_projects(Err(error)), Err(FetchError {}));
        assert_eq!(query(Filter::All, Err(error)), Err(FetchError {}));
        assert_eq!(query(Filter::PinnedOnly, Err(error)), Err(FetchError {}));
    }
}

#[test]
fn query_goes_by_the_filter() {
    assert_eq!(query(Filter::All, Ok(rows())), get_projects(Ok(rows())));
    assert_eq!(query(Filter::PinnedOnly, Ok(rows())), get_pinned_projects(Ok(rows())));
}
