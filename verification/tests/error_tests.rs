use bluster::{Error, ErrorType};

#[test]
fn error_new_combines_name_and_description() {
    let e = Error::new("BlueZ", "something went wrong", ErrorType::Bluez);
    assert_eq!(e.name, "BlueZ");
    assert_eq!(e.description, "something went wrong");
    assert_eq!(e.combined_description, "BlueZ: something went wrong");
    assert_eq!(e.error_type, ErrorType::Bluez);
}

#[test]
fn error_type_subsystem_names() {
    let bluez: &'static str = ErrorType::Bluez.into();
    let corebluetooth: &'static str = ErrorType::CoreBluetooth.into();
    let usb: &'static str = ErrorType::Usb.into();
    let windows: &'static str = ErrorType::Windows.into();
    assert_eq!(bluez, "Bluez");
    assert_eq!(corebluetooth, "CoreBluetooth");
    assert_eq!(usb, "USB");
    assert_eq!(windows, "Windows");
}

#[test]
fn error_new_with_empty_description() {
    let e = Error::new("BlueZ", "", ErrorType::Bluez);
    assert_eq!(e.combined_description, "BlueZ: ");
}
