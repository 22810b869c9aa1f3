use theme_installer::fetcher::{
    fetch_step, needs_clone, theme_dest_path, CloneOutcome, FetchError, FetchState,
};

#[test]
fn fetch_is_idempotent() {
    // first call: nothing at the destination, the clone runs and succeeds
    let st0 = FetchState { dest_exists: false };
    assert!(needs_clone(&st0));
    let (st1, r1) = fetch_step(st0, CloneOutcome::Completed { success: true });
    assert!(r1.is_ok());
    assert!(st1.dest_exists);
    // second call with the same destination: no clone runs, and it
    // succeeds whatever the client would have reported
    assert!(!needs_clone(&st1));
    let (st2, r2) = fetch_step(st1, CloneOutcome::LaunchFailed);
    assert!(r2.is_ok());
    assert!(st2.dest_exists);
}

#[test]
fn launch_failure_is_distinct() {
    let st = FetchState { dest_exists: false };
    let (st1, r) = fetch_step(st, CloneOutcome::LaunchFailed);
    assert!(matches!(r, Err(FetchError::LaunchFailed)));
    assert!(!st1.dest_exists);
}

#[test]
fn rejected_clone_is_distinct() {
    let st = FetchState { dest_exists: false };
    let (st1, r) = fetch_step(st, CloneOutcome::Completed { success: false });
    assert!(matches!(r, Err(FetchError::CloneRejected)));
    assert!(!st1.dest_exists);
}

#[test]
fn destination_path_shape() {
    assert_eq!(theme_dest_path("papaya"), "themes\\papaya");
}
