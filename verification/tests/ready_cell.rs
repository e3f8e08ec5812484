use ipc_control::ready_cell::{AccessDecision, ReadyCell};

#[test]
fn pending_readers_wait_then_all_resolve() {
    let mut cell: ReadyCell<String> = ReadyCell::new_pending();
    assert!(matches!(cell.read_decision(), AccessDecision::WaitReady));
    assert!(matches!(cell.write_decision(), AccessDecision::WaitReady));
    cell.subscribe();
    cell.subscribe();
    cell.subscribe();
    let woken = cell.fill("ctx".to_string());
    assert_eq!(woken, 3);
    for _ in 0..3 {
        assert!(matches!(cell.read_decision(), AccessDecision::Grant));
        cell.acquire_read();
    }
    assert_eq!(cell.readers, 3);
    for _ in 0..3 {
        assert_eq!(cell.get().as_str(), "ctx");
        cell.release_read();
    }
}

#[test]
fn readiness_is_idempotent() {
    let mut cell = ReadyCell::new_ready(7u64);
    for _ in 0..5 {
        assert!(matches!(cell.read_decision(), AccessDecision::Grant));
        cell.acquire_read();
        assert_eq!(*cell.get(), 7);
        cell.release_read();
    }
    assert!(matches!(cell.read_decision(), AccessDecision::Grant));
}

#[test]
fn a_writer_excludes_readers_and_readers_exclude_the_writer() {
    let mut cell = ReadyCell::new_ready(0u64);
    cell.acquire_read();
    assert!(matches!(cell.write_decision(), AccessDecision::WaitLock));
    cell.release_read();
    assert!(matches!(cell.write_decision(), AccessDecision::Grant));
    cell.acquire_write();
    assert!(matches!(cell.read_decision(), AccessDecision::WaitLock));
    assert!(matches!(cell.write_decision(), AccessDecision::WaitLock));
    cell.set(9);
    assert_eq!(*cell.get(), 9);
    cell.release_write();
    assert!(matches!(cell.read_decision(), AccessDecision::Grant));
    cell.acquire_read();
    assert_eq!(*cell.get(), 9);
}

#[test]
fn late_subscribers_never_wait_after_the_fill() {
    let mut cell: ReadyCell<u64> = ReadyCell::new_pending();
    let woken = cell.fill(1);
    assert_eq!(woken, 0);
    assert!(matches!(cell.read_decision(), AccessDecision::Grant));
    assert_eq!(cell.try_get(), Some(&1));
}

#[test]
fn try_get_refuses_while_pending() {
    let cell: ReadyCell<u64> = ReadyCell::new_pending();
    assert_eq!(cell.try_get(), None);
}
