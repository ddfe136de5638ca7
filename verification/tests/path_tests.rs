use bluster::tree::u64_to_decimal;
use bluster::PathId;

#[test]
fn wire_string_service_path() {
    let p = PathId::Service { service: 0 };
    assert_eq!(p.wire_string("/org/bluez/hci0"), "/org/bluez/hci0/service0");
}

#[test]
fn wire_string_characteristic_path() {
    let p = PathId::Characteristic { service: 1, characteristic: 12 };
    assert_eq!(
        p.wire_string("/org/bluez/hci0"),
        "/org/bluez/hci0/service1/characteristic12"
    );
}

#[test]
fn wire_string_descriptor_path() {
    let p = PathId::Descriptor { service: 2, characteristic: 10, descriptor: 345 };
    assert_eq!(
        p.wire_string("/org/bluez/hci0"),
        "/org/bluez/hci0/service2/characteristic10/descriptor345"
    );
}

#[test]
fn decimal_rendering_edges() {
    assert_eq!(u64_to_decimal(0), "0");
    assert_eq!(u64_to_decimal(10), "10");
    assert_eq!(u64_to_decimal(907), "907");
    assert_eq!(u64_to_decimal(u64::MAX), "18446744073709551615");
}
