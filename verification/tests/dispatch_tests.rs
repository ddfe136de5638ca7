use bluster::{
    Application, Characteristic, CharacteristicProperties, Descriptor, Gatt, GattState,
    ObjectRecord, PathId, ReadOutcome, Service, Uuid, WriteOutcome,
};

fn read_write_props() -> CharacteristicProperties {
    CharacteristicProperties {
        read: true,
        write: true,
        write_without_response: false,
        notify: true,
        indicate: false,
    }
}

fn build_application(service: Service) -> Application {
    let mut gatt = Gatt::new(String::from("/org/bluez/hci0"));
    gatt.add_service(&service).expect("add_service must succeed");
    gatt.register().expect("register must succeed");
    match gatt.state {
        GattState::Registered { application } => application,
        GattState::Building { .. } => panic!("coordinator must be registered"),
    }
}

fn plain_characteristic() -> Characteristic {
    Characteristic {
        uuid: Uuid { value: 0xc0 },
        properties: read_write_props(),
        value: Vec::new(),
        descriptors: Vec::new(),
        read_callback: None,
        write_callback: None,
        notify_callback: None,
    }
}

fn service_of(characteristic: Characteristic) -> Service {
    Service {
        uuid: Uuid { value: 0x50 },
        primary: true,
        characteristics: vec![characteristic],
    }
}

#[test]
fn write_then_read_round_trips_cached_value() {
    // With no custom callbacks, reading after a write returns exactly
    // the just-written bytes.
    let mut app = build_application(service_of(plain_characteristic()));
    let path = PathId::Characteristic { service: 0, characteristic: 0 };
    let outcome = app.handle_write_value(path, vec![1, 2, 3]).expect("write must succeed");
    assert_eq!(outcome, WriteOutcome::Done);
    match app.handle_read_value(path).expect("read must succeed") {
        ReadOutcome::Value(v) => assert_eq!(v, vec![1, 2, 3]),
        ReadOutcome::Callback(_) => panic!("no read callback was installed"),
    }
}

#[test]
fn read_returns_initial_cached_value() {
    let mut characteristic = plain_characteristic();
    characteristic.value = vec![9, 8];
    let app = build_application(service_of(characteristic));
    let path = PathId::Characteristic { service: 0, characteristic: 0 };
    match app.handle_read_value(path).expect("read must succeed") {
        ReadOutcome::Value(v) => assert_eq!(v, vec![9, 8]),
        ReadOutcome::Callback(_) => panic!("no read callback was installed"),
    }
}

#[test]
fn read_with_custom_callback_defers_to_it() {
    let mut characteristic = plain_characteristic();
    characteristic.read_callback = Some(7);
    let app = build_application(service_of(characteristic));
    let path = PathId::Characteristic { service: 0, characteristic: 0 };
    match app.handle_read_value(path).expect("read must succeed") {
        ReadOutcome::Callback(id) => assert_eq!(id, 7),
        ReadOutcome::Value(_) => panic!("the read callback must be named"),
    }
}

#[test]
fn write_with_custom_callback_still_updates_cache() {
    // The write callback is invoked and the cached value is updated.
    let mut characteristic = plain_characteristic();
    characteristic.write_callback = Some(5);
    let mut app = build_application(service_of(characteristic));
    let path = PathId::Characteristic { service: 0, characteristic: 0 };
    let outcome = app.handle_write_value(path, vec![4]).expect("write must succeed");
    assert_eq!(outcome, WriteOutcome::Callback(5));
    match app.handle_read_value(path).expect("read must succeed") {
        ReadOutcome::Value(v) => assert_eq!(v, vec![4]),
        ReadOutcome::Callback(_) => panic!("no read callback was installed"),
    }
}

#[test]
fn descriptor_write_then_read_round_trips() {
    let mut characteristic = plain_characteristic();
    characteristic.descriptors.push(Descriptor {
        uuid: Uuid { value: 0xd0 },
        value: vec![0],
        read_callback: None,
        write_callback: None,
    });
    let mut app = build_application(service_of(characteristic));
    let path = PathId::Descriptor { service: 0, characteristic: 0, descriptor: 0 };
    let outcome = app.handle_write_value(path, vec![42]).expect("write must succeed");
    assert_eq!(outcome, WriteOutcome::Done);
    match app.handle_read_value(path).expect("read must succeed") {
        ReadOutcome::Value(v) => assert_eq!(v, vec![42]),
        ReadOutcome::Callback(_) => panic!("no read callback was installed"),
    }
}

#[test]
fn notify_subscription_toggles_and_names_callback() {
    let mut characteristic = plain_characteristic();
    characteristic.notify_callback = Some(3);
    let mut app = build_application(service_of(characteristic));
    let path = PathId::Characteristic { service: 0, characteristic: 0 };

    let cb = app.handle_start_notify(path).expect("start notify must succeed");
    assert_eq!(cb, Some(3));
    match &app.tree.entries[1].record {
        ObjectRecord::Characteristic(rec) => assert!(rec.notifying),
        _ => panic!("expected the characteristic record"),
    }

    let cb = app.handle_stop_notify(path).expect("stop notify must succeed");
    assert_eq!(cb, Some(3));
    match &app.tree.entries[1].record {
        ObjectRecord::Characteristic(rec) => assert!(!rec.notifying),
        _ => panic!("expected the characteristic record"),
    }
}

#[test]
fn dispatch_on_wrong_paths_is_rejected() {
    let mut app = build_application(service_of(plain_characteristic()));
    let service_path = PathId::Service { service: 0 };
    let missing = PathId::Characteristic { service: 3, characteristic: 9 };

    let err = app.handle_read_value(service_path).unwrap_err();
    assert_eq!(err.description, "no readable value at the given path");
    let err = app.handle_read_value(missing).unwrap_err();
    assert_eq!(err.description, "no readable value at the given path");

    let err = app.handle_write_value(service_path, vec![1]).unwrap_err();
    assert_eq!(err.description, "no writable value at the given path");

    let err = app.handle_start_notify(service_path).unwrap_err();
    assert_eq!(err.description, "no characteristic at the given path");
    let err = app
        .handle_start_notify(PathId::Descriptor { service: 0, characteristic: 0, descriptor: 0 })
        .unwrap_err();
    assert_eq!(err.description, "no characteristic at the given path");
}
