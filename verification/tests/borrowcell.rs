use borrowcell::cell::Cell;
use borrowcell::refcell::RefCell;
use borrowcell::refcell::RefState;

#[test]
fn cell_set_then_get_returns_new_value() {
    let mut cell = Cell::new(1u32);
    assert_eq!(cell.get(), 1);
    assert_eq!(cell.get(), 1);
    cell.set(2);
    assert_eq!(cell.get(), 2);
    assert_eq!(cell.get(), 2);
    assert_eq!(cell.get(), 2);
}

#[test]
fn cell_holds_copyable_structures() {
    let mut cell = Cell::new((7u8, true));
    assert_eq!(cell.get(), (7, true));
    cell.set((9, false));
    assert_eq!(cell.get(), (9, false));
}

#[test]
fn new_cell_is_unshared() {
    let cell = RefCell::new(5i32);
    assert_eq!(cell.state(), RefState::Unshared);
}

#[test]
fn scenario_read_write_read() {
    let mut cell = RefCell::new(30i32);

    let guard = cell.borrow().unwrap();
    assert_eq!(*cell.read(&guard), 30);
    cell.release(guard);

    let guard = cell.borrow_mut().unwrap();
    cell.write(&guard, 66);
    assert_eq!(*cell.read_mut(&guard), 66);
    cell.release_mut(guard);

    let guard = cell.borrow().unwrap();
    assert_eq!(*cell.read(&guard), 66);
    cell.release(guard);
}

#[test]
fn scenario_exclusive_blocks_shared() {
    let mut cell = RefCell::new(1u8);

    let exclusive = cell.borrow_mut().unwrap();
    assert!(cell.borrow().is_none());
    cell.release_mut(exclusive);

    let shared = cell.borrow();
    assert!(shared.is_some());
}

#[test]
fn scenario_two_shared_block_exclusive() {
    let mut cell = RefCell::new(1u8);

    let first = cell.borrow().unwrap();
    let second = cell.borrow().unwrap();
    assert_eq!(cell.state(), RefState::Shared(2));
    assert!(cell.borrow_mut().is_none());

    cell.release(first);
    cell.release(second);
    assert_eq!(cell.state(), RefState::Unshared);

    let exclusive = cell.borrow_mut();
    assert!(exclusive.is_some());
}

#[test]
fn exclusive_blocks_second_exclusive() {
    let mut cell = RefCell::new(0u64);
    let exclusive = cell.borrow_mut().unwrap();
    assert!(cell.borrow_mut().is_none());
    cell.release_mut(exclusive);
}

#[test]
fn shared_counting_matches_state() {
    let mut cell = RefCell::new(0u64);

    let a = cell.borrow().unwrap();
    assert_eq!(cell.state(), RefState::Shared(1));
    let b = cell.borrow().unwrap();
    assert_eq!(cell.state(), RefState::Shared(2));
    let c = cell.borrow().unwrap();
    assert_eq!(cell.state(), RefState::Shared(3));

    cell.release(a);
    assert_eq!(cell.state(), RefState::Shared(2));
    cell.release(b);
    assert_eq!(cell.state(), RefState::Shared(1));
    cell.release(c);
    assert_eq!(cell.state(), RefState::Unshared);
}

#[test]
fn refused_requests_leave_state_unchanged() {
    let mut cell = RefCell::new(3u16);

    let exclusive = cell.borrow_mut().unwrap();
    assert!(cell.borrow().is_none());
    assert_eq!(cell.state(), RefState::Exclusive);
    assert!(cell.borrow_mut().is_none());
    assert_eq!(cell.state(), RefState::Exclusive);
    cell.release_mut(exclusive);

    let shared = cell.borrow().unwrap();
    assert!(cell.borrow_mut().is_none());
    assert_eq!(cell.state(), RefState::Shared(1));
    cell.release(shared);
}

#[test]
fn recovery_after_full_release() {
    let mut cell = RefCell::new(10u32);

    let shared = cell.borrow().unwrap();
    cell.release(shared);
    let exclusive = cell.borrow_mut().unwrap();
    cell.release_mut(exclusive);
    assert_eq!(cell.state(), RefState::Unshared);

    let shared = cell.borrow().unwrap();
    assert_eq!(*cell.read(&shared), 10);
    cell.release(shared);
    let exclusive = cell.borrow_mut().unwrap();
    cell.release_mut(exclusive);
}

#[test]
fn value_survives_refused_requests() {
    let mut cell = RefCell::new(44i64);
    let exclusive = cell.borrow_mut().unwrap();
    assert!(cell.borrow().is_none());
    assert_eq!(*cell.read_mut(&exclusive), 44);
    cell.release_mut(exclusive);
    let shared = cell.borrow().unwrap();
    assert_eq!(*cell.read(&shared), 44);
    cell.release(shared);
}
