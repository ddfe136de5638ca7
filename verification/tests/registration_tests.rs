use bluster::{Gatt, GattState, Service, Uuid};

#[test]
fn register_on_empty_coordinator_still_builds_application() {
    // An empty GATT database is valid: the application is constructed
    // with zero children and the remote registration call is still
    // handed out.
    let mut gatt = Gatt::new(String::from("/org/bluez/hci0"));
    let request = gatt.register().expect("register on an empty tree must succeed");
    assert_eq!(request.root, "/org/bluez/hci0");
    match &gatt.state {
        GattState::Registered { application } => {
            assert_eq!(application.root, "/org/bluez/hci0");
            assert_eq!(application.managed_objects().len(), 0);
        }
        GattState::Building { .. } => panic!("coordinator must be registered"),
    }
}

#[test]
fn register_twice_fails_and_keeps_first_application() {
    let mut gatt = Gatt::new(String::from("/org/bluez/hci0"));
    let service = Service {
        uuid: Uuid { value: 7 },
        primary: true,
        characteristics: Vec::new(),
    };
    assert!(gatt.add_service(&service).is_ok());
    assert!(gatt.register().is_ok());

    let err = gatt.register().unwrap_err();
    assert_eq!(err.description, "tree already taken");
    assert_eq!(err.combined_description, "BlueZ: tree already taken");

    // The application from the first call remains live, tree intact.
    match &gatt.state {
        GattState::Registered { application } => {
            assert_eq!(application.managed_objects().len(), 1);
        }
        GattState::Building { .. } => panic!("first registration must remain live"),
    }
}

#[test]
fn unregister_before_register_fails() {
    let gatt = Gatt::new(String::from("/org/bluez/hci0"));
    let err = gatt.unregister().unwrap_err();
    assert_eq!(err.description, "no application to unregister");
    assert_eq!(err.combined_description, "BlueZ: no application to unregister");
    // State is unchanged: still building, nothing sealed.
    match &gatt.state {
        GattState::Building { tree } => assert_eq!(tree.entries.len(), 0),
        GattState::Registered { .. } => panic!("nothing must have been registered"),
    }
}

#[test]
fn unregister_after_register_is_idempotent_teardown() {
    let mut gatt = Gatt::new(String::from("/org/bluez/hci0"));
    assert!(gatt.register().is_ok());
    let first = gatt.unregister().expect("unregister after register must succeed");
    assert_eq!(first.root, "/org/bluez/hci0");
    // Teardown does not revert to building: a second call still works.
    let second = gatt.unregister().expect("repeated unregister must succeed");
    assert_eq!(second.root, "/org/bluez/hci0");
}
