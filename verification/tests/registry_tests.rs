use rusty_rpc::errors::RpcError;
use rusty_rpc::messages::ServiceId;
use rusty_rpc::service_collection::{ServiceCollection, ServiceEntry};

fn entry(server: i32) -> ServiceEntry<i32> {
    ServiceEntry { server, parent: None, locked: false }
}

#[test]
fn first_service_id_is_zero() {
    let mut col: ServiceCollection<i32> = ServiceCollection::new();
    assert_eq!(ServiceId(0), col.register_service(10, None));
    assert_eq!(ServiceId(1), col.register_service(20, None));
    assert_eq!(ServiceId(2), col.register_service(30, None));
    assert_eq!(3, col.num_live_services());
}

#[test]
fn ids_are_not_reused_after_drop() {
    let mut col: ServiceCollection<i32> = ServiceCollection::new();
    let a = col.register_service(1, None);
    let b = col.register_service(2, None);
    assert!(col.drop_service(a).is_ok());
    // The allocator is monotonic: the freed id 0 is not handed out again.
    let c = col.register_service(3, None);
    assert_eq!(ServiceId(2), c);
    assert!(!col.contains_service(a));
    assert!(col.contains_service(b));
    assert!(col.contains_service(c));
}

#[test]
fn id_allocation_wraps_and_skips_live_ids() {
    // The counter sits just below the wrap point, with long-lived entries
    // occupying the last ids and id 0.
    let mut col: ServiceCollection<i32> = ServiceCollection {
        active_services: vec![
            (ServiceId(u64::MAX - 1), entry(1)),
            (ServiceId(u64::MAX), entry(2)),
            (ServiceId(0), entry(3)),
        ],
        next_service_id: ServiceId(u64::MAX - 1),
    };
    // The candidates MAX-1, MAX and 0 are taken; the first free id after
    // the wrap is 1.
    let fresh = col.register_service(4, None);
    assert_eq!(ServiceId(1), fresh);
    assert_eq!(4, col.num_live_services());
    assert!(col.contains_service(ServiceId(u64::MAX - 1)));
    assert!(col.contains_service(ServiceId(u64::MAX)));
    assert!(col.contains_service(ServiceId(0)));
    assert!(col.contains_service(ServiceId(1)));
    // The counter continued past the returned id.
    assert_eq!(ServiceId(2), col.register_service(5, None));
}

#[test]
fn unknown_ids_are_rejected() {
    let mut col: ServiceCollection<i32> = ServiceCollection::new();
    assert_eq!(
        Err(RpcError::UnknownService(ServiceId(42))),
        col.drop_service(ServiceId(42)).map(|e| e.server)
    );
    assert_eq!(
        Err(RpcError::UnknownService(ServiceId(7))),
        col.take_for_call(ServiceId(7)).map(|e| e.server)
    );
    assert!(!col.contains_service(ServiceId(0)));
}

#[test]
fn nesting_locks_the_parent() {
    let mut col: ServiceCollection<i32> = ServiceCollection::new();
    let parent = col.register_service(100, None);

    // A method call locks the parent entry; a service-returning method
    // leaves it locked and registers the child under it.
    let taken = col.take_for_call(parent).expect("parent is callable");
    col.restore_service(parent, ServiceEntry { server: taken.server, parent: taken.parent, locked: true });
    let child = col.register_service(200, Some(parent));
    assert_ne!(parent, child);

    // Nesting safety: while the child lives, the parent is busy.
    assert_eq!(Err(RpcError::ServiceBusy(parent)), col.take_for_call(parent).map(|e| e.server));
    // And the parent cannot be dropped out from under the child.
    assert_eq!(Err(RpcError::ServiceStillInUse(parent)), col.drop_service(parent).map(|e| e.server));

    // Release order: dropping the child re-admits the parent.
    let released = col.drop_service(child).expect("child drop is admitted");
    assert_eq!(200, released.server);
    let retaken = col.take_for_call(parent).expect("parent is callable again");
    assert_eq!(100, retaken.server);
    col.restore_service(parent, ServiceEntry { server: retaken.server, parent: retaken.parent, locked: false });

    assert_eq!(1, col.num_live_services());
}

#[test]
fn connection_end_leaves_no_live_services() {
    let mut col: ServiceCollection<i32> = ServiceCollection::new();
    let parent = col.register_service(1, None);
    let taken = col.take_for_call(parent).expect("callable");
    col.restore_service(parent, ServiceEntry { server: taken.server, parent: taken.parent, locked: true });
    col.register_service(2, Some(parent));
    col.register_service(3, None);
    assert_eq!(3, col.num_live_services());
    col.end_connection();
    assert_eq!(0, col.num_live_services());
    assert!(!col.contains_service(ServiceId(0)));
}
