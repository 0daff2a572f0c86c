use more_actors::channels::{WaiterId, WaiterIds};

#[test]
fn waiter_ids_are_monotonic() {
    let mut ids = WaiterIds::default();
    assert_eq!(ids.allocate(), WaiterId(1));
    assert_eq!(ids.allocate(), WaiterId(2));
}
