use bluster::{CharacteristicProperties, Uuid};

#[test]
fn uuid_wire_string_is_hyphenated_lowercase_hex() {
    let u = Uuid { value: 0x67e55044_10b1_426f_9247_bb680e5fe0c8 };
    assert_eq!(u.wire_string(), "67e55044-10b1-426f-9247-bb680e5fe0c8");
}

#[test]
fn uuid_wire_string_pads_with_zeroes() {
    let u = Uuid { value: 0 };
    assert_eq!(u.wire_string(), "00000000-0000-0000-0000-000000000000");
    let small = Uuid { value: 0x2a37 };
    assert_eq!(small.wire_string(), "00000000-0000-0000-0000-000000002a37");
}

#[test]
fn flag_strings_follow_declared_properties() {
    let p = CharacteristicProperties {
        read: true,
        write: true,
        write_without_response: false,
        notify: false,
        indicate: false,
    };
    assert_eq!(p.flag_strings(), vec!["read", "write"]);

    let q = CharacteristicProperties {
        read: false,
        write: false,
        write_without_response: true,
        notify: true,
        indicate: true,
    };
    assert_eq!(
        q.flag_strings(),
        vec!["write-without-response", "notify", "indicate"]
    );

    let none = CharacteristicProperties {
        read: false,
        write: false,
        write_without_response: false,
        notify: false,
        indicate: false,
    };
    assert!(none.flag_strings().is_empty());
}
