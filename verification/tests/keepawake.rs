use castaway_pipeline::keepawake::{
    Backend, Holders, KeepAwake, ES_CONTINUOUS, ES_DISPLAY_REQUIRED,
};

#[test]
fn a_guard_can_always_be_taken_and_dropped() {
    let mut holders = Holders::none();
    let guard = KeepAwake::acquire(Backend::Missing, &mut holders);
    let _ = guard.held();
    drop(guard);
}

#[test]
fn guards_nest_without_releasing_each_other_early() {
    for backend in [Backend::Missing, Backend::ExecutionState(ES_CONTINUOUS)] {
        let mut holders = Holders::none();
        let outer = KeepAwake::acquire(backend, &mut holders);
        let inner = KeepAwake::acquire(backend, &mut holders);
        assert_eq!(
            inner.held(),
            outer.held(),
            "both guards agree on the backend"
        );
        assert!(!inner.release(&mut holders), "the outer one still holds it");
        let granted = outer.held();
        assert_eq!(outer.release(&mut holders), granted);
    }
}

#[test]
fn only_a_granted_request_is_released() {
    let mut holders = Holders::none();
    assert!(!KeepAwake::acquire(Backend::Missing, &mut holders).release(&mut holders));
    assert!(!KeepAwake::acquire(Backend::ExecutionState(0), &mut holders).release(&mut holders));
    let granted = KeepAwake::acquire(Backend::ExecutionState(ES_CONTINUOUS), &mut holders);
    assert!(granted.held());
    // One that was never granted does not clear it.
    assert!(!KeepAwake::acquire(Backend::Missing, &mut holders).release(&mut holders));
    assert!(granted.release(&mut holders));
    assert_eq!(ES_CONTINUOUS | ES_DISPLAY_REQUIRED, 0x8000_0002);
}
