use portfolio::resource::{FetchError, FetchState, ResourceCell};

#[test]
fn a_new_cell_is_idle_everywhere() {
    let cell: ResourceCell<u32> = ResourceCell::new();
    assert_eq!(cell.status(0), FetchState::Idle);
    assert_eq!(cell.status(u64::MAX), FetchState::Idle);
    assert_eq!(cell.issued(0), 0);
}

#[test]
fn trigger_starts_a_fetch_and_shows_loading() {
    let mut cell: ResourceCell<u32> = ResourceCell::new();
    assert_eq!(cell.trigger(7), Some(1));
    assert_eq!(cell.status(7), FetchState::Loading);
    assert_eq!(cell.issued(7), 1);
}

#[test]
fn trigger_while_loading_starts_nothing() {
    let mut cell: ResourceCell<u32> = ResourceCell::new();
    let mut started = 0;
    for _ in 0..10 {
        if cell.trigger(7).is_some() {
            started += 1;
        }
    }
    assert_eq!(started, 1);
    assert_eq!(cell.issued(7), 1);
    assert_eq!(cell.status(7), FetchState::Loading);
}

#[test]
fn resolve_applies_the_awaited_outcome() {
    let mut cell: ResourceCell<u32> = ResourceCell::new();
    let seq = cell.trigger(7).unwrap();
    assert!(cell.resolve(7, seq, Ok(42)));
    assert_eq!(cell.status(7), FetchState::Ready(&42));

    let seq = cell.trigger(8).unwrap();
    assert!(cell.resolve(8, seq, Err(FetchError {})));
    assert_eq!(cell.status(8), FetchState::Error(FetchError {}));
    assert_eq!(cell.status(7), FetchState::Ready(&42));
}

#[test]
fn resolve_drops_what_nobody_awaits() {
    let mut cell: ResourceCell<u32> = ResourceCell::new();
    assert!(!cell.resolve(7, 0, Ok(1)));
    assert!(!cell.resolve(7, 1, Ok(1)));
    assert_eq!(cell.status(7), FetchState::Idle);

    let seq = cell.trigger(7).unwrap();
    assert!(!cell.resolve(7, seq + 1, Ok(1)));
    assert!(!cell.resolve(7, seq - 1, Ok(1)));
    assert_eq!(cell.status(7), FetchState::Loading);
    assert!(cell.resolve(7, seq, Ok(2)));
    assert!(!cell.resolve(7, seq, Ok(3)));
    assert_eq!(cell.status(7), FetchState::Ready(&2));
}

#[test]
fn a_later_trigger_loads_again_under_the_next_number() {
    let mut cell: ResourceCell<u32> = ResourceCell::new();
    let first = cell.trigger(7).unwrap();
    cell.resolve(7, first, Ok(1));
    let second = cell.trigger(7).unwrap();
    assert_eq!(second, first + 1);
    assert_eq!(cell.status(7), FetchState::Loading);
    cell.resolve(7, second, Err(FetchError {}));
    let third = cell.trigger(7).unwrap();
    assert_eq!(third, second + 1);
    assert_eq!(cell.status(7), FetchState::Loading);
}

#[test]
fn the_newer_of_two_fetches_wins_whatever_the_order_of_arrival() {
    let mut cell: ResourceCell<&str> = ResourceCell::new();
    let first = cell.trigger(7).unwrap();
    cell.discard(7);
    assert_eq!(cell.status(7), FetchState::Idle);
    let second = cell.trigger(7).unwrap();
    assert!(second > first);
    assert!(cell.resolve(7, second, Ok("new")));
    assert!(!cell.resolve(7, first, Ok("old")));
    assert_eq!(cell.status(7), FetchState::Ready(&"new"));

    let mut cell: ResourceCell<&str> = ResourceCell::new();
    let first = cell.trigger(7).unwrap();
    cell.discard(7);
    let second = cell.trigger(7).unwrap();
    assert!(!cell.resolve(7, first, Ok("old")));
    assert_eq!(cell.status(7), FetchState::Loading);
    assert!(cell.resolve(7, second, Ok("new")));
    assert_eq!(cell.status(7), FetchState::Ready(&"new"));
}

#[test]
fn keys_do_not_disturb_each_other() {
    let mut cell: ResourceCell<u32> = ResourceCell::new();
    let a = cell.trigger(1).unwrap();
    cell.resolve(1, a, Ok(10));
    let b = cell.trigger(2).unwrap();
    assert_eq!(cell.status(1), FetchState::Ready(&10));
    cell.resolve(2, b, Err(FetchError {}));
    assert_eq!(cell.status(1), FetchState::Ready(&10));
    cell.discard(2);
    assert_eq!(cell.status(1), FetchState::Ready(&10));
    assert_eq!(cell.issued(1), 1);
    assert_eq!(cell.status(3), FetchState::Idle);
}

#[test]
fn discard_keeps_the_count() {
    let mut cell: ResourceCell<u32> = ResourceCell::new();
    let seq = cell.trigger(1).unwrap();
    cell.resolve(1, seq, Ok(10));
    cell.discard(1);
    assert_eq!(cell.status(1), FetchState::Idle);
    assert_eq!(cell.issued(1), 1);
    assert_eq!(cell.trigger(1), Some(2));
}
