use std::sync::Arc;

use ndc_sdk::lazy_cell::{Access, LazySharedCell};

#[test]
fn concurrent_first_callers_run_factory_once() {
    let mut cell: LazySharedCell<Arc<String>> = LazySharedCell::new();
    let mut factory_runs = 0;
    let mut drivers = 0;
    for w in 0..6 {
        match cell.begin(w) {
            Access::Drive => drivers += 1,
            Access::Wait => {}
            Access::Ready => panic!("not initialised yet"),
        }
    }
    assert_eq!(drivers, 1);
    factory_runs += 1;
    let told = cell.succeed(Arc::new("state".to_string()));
    assert_eq!(told, vec![1, 2, 3, 4, 5]);
    let first = cell.get().unwrap().clone();
    for w in 6..10 {
        assert!(cell.begin(w) == Access::Ready);
        assert!(Arc::ptr_eq(cell.get().unwrap(), &first));
    }
    assert_eq!(factory_runs, 1);
}

#[test]
fn failed_attempt_is_retried() {
    let mut cell: LazySharedCell<i32> = LazySharedCell::new();
    assert!(cell.begin(0) == Access::Drive);
    assert!(cell.begin(1) == Access::Wait);
    assert!(cell.begin(2) == Access::Wait);
    assert_eq!(cell.fail(), vec![1, 2]);
    assert!(!cell.is_initialized());
    assert!(cell.get().is_none());
    assert!(cell.begin(3) == Access::Drive);
    assert_eq!(cell.succeed(42), Vec::<u64>::new());
    assert!(cell.is_initialized());
    assert!(cell.begin(4) == Access::Ready);
    assert_eq!(cell.get(), Some(&42));
}

#[test]
fn initialised_cell_never_runs_factory_again() {
    let mut cell: LazySharedCell<i32> = LazySharedCell::new();
    assert!(cell.begin(0) == Access::Drive);
    cell.succeed(1);
    for w in 1..100 {
        assert!(cell.begin(w) == Access::Ready);
    }
    assert_eq!(cell.get(), Some(&1));
}

#[test]
fn withdrawn_waiter_of_attempt_does_not_disturb_others() {
    let mut cell: LazySharedCell<i32> = LazySharedCell::new();
    assert!(cell.begin(0) == Access::Drive);
    assert!(cell.begin(1) == Access::Wait);
    assert!(cell.begin(2) == Access::Wait);
    assert!(cell.begin(3) == Access::Wait);
    cell.withdraw(2);
    assert_eq!(cell.succeed(9), vec![1, 3]);
    assert_eq!(cell.get(), Some(&9));
}
