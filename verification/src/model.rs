use vstd::prelude::*;

verus! {

/// A 128-bit GATT UUID, carried as its integer value.
#[derive(Clone, Copy, Debug, PartialEq, Eq, Structural)]
pub struct Uuid {
    pub value: u128,
}

/// The lowercase hex character for a nibble.
pub open spec fn hex_digit(n: nat) -> char {
    if n == 0 {
        '0'
    } else if n == 1 {
        '1'
    } else if n == 2 {
        '2'
    } else if n == 3 {
        '3'
    } else if n == 4 {
        '4'
    } else if n == 5 {
        '5'
    } else if n == 6 {
        '6'
    } else if n == 7 {
        '7'
    } else if n == 8 {
        '8'
    } else if n == 9 {
        '9'
    } else if n == 10 {
        'a'
    } else if n == 11 {
        'b'
    } else if n == 12 {
        'c'
    } else if n == 13 {
        'd'
    } else if n == 14 {
        'e'
    } else {
        'f'
    }
}

pub open spec fn pow16(k: int) -> nat
    decreases k,
{
    if k <= 0 {
        1
    } else {
        16 * pow16(k - 1)
    }
}

/// Nibble `i` of a 128-bit value, most significant first.
pub open spec fn uuid_nibble(v: u128, i: int) -> nat {
    ((v as nat) / pow16(31 - i)) % 16
}

/// How many hyphens of the canonical UUID form precede position `i`.
pub open spec fn hyphens_before(i: int) -> int {
    if i < 8 {
        0
    } else if i < 13 {
        1
    } else if i < 18 {
        2
    } else if i < 23 {
        3
    } else {
        4
    }
}

/// The canonical hyphenated lowercase hex form of a UUID: 32 nibbles,
/// most significant first, with hyphens after the 8th, 12th, 16th and
/// 20th digits.
pub open spec fn uuid_hex_chars(v: u128) -> Seq<char> {
    Seq::new(
        36,
        |i: int|
            if i == 8 || i == 13 || i == 18 || i == 23 {
                '-'
            } else {
                hex_digit(uuid_nibble(v, i - hyphens_before(i)))
            },
    )
}

/// Relies on uuid::Uuid::to_string (its hyphenated `Display` form):
/// the lowercase hex digits of the 128-bit value, most significant
/// first, with hyphens after the 8th, 12th, 16th and 20th digits.
#[verifier::external_body]
fn uuid_hyphenated(value: u128) -> (r: String)
    ensures
        r@ == uuid_hex_chars(value),
{
    uuid::Uuid::from_u128(value).to_string()
}

impl Uuid {
    /// The canonical string form a UUID is declared under in an
    /// object's property table.
    pub fn wire_string(&self) -> (r: String)
        ensures
            r@ == uuid_hex_chars(self.value),
    {
        uuid_hyphenated(self.value)
    }
}

/// The declared properties of a characteristic: which kinds of remote
/// access it offers to centrals.
#[derive(Clone, Copy, Debug, PartialEq, Eq, Structural)]
pub struct CharacteristicProperties {
    pub read: bool,
    pub write: bool,
    pub write_without_response: bool,
    pub notify: bool,
    pub indicate: bool,
}

/// The wire flag strings a characteristic declares, in their fixed
/// order: read, write, write-without-response, notify, indicate.
pub open spec fn flag_names(p: CharacteristicProperties) -> Seq<Seq<char>> {
    let s = Seq::<Seq<char>>::empty();
    let s = if p.read {
        s.push("read"@)
    } else {
        s
    };
    let s = if p.write {
        s.push("write"@)
    } else {
        s
    };
    let s = if p.write_without_response {
        s.push("write-without-response"@)
    } else {
        s
    };
    let s = if p.notify {
        s.push("notify"@)
    } else {
        s
    };
    if p.indicate {
        s.push("indicate"@)
    } else {
        s
    }
}

impl CharacteristicProperties {
    /// The `Flags` property value declared to the daemon.
    pub fn flag_strings(&self) -> (r: Vec<String>)
        ensures
            r.deep_view() == flag_names(*self),
    {
        let mut r: Vec<String> = Vec::new();
        if self.read {
            r.push("read".to_owned());
        }
        if self.write {
            r.push("write".to_owned());
        }
        if self.write_without_response {
            r.push("write-without-response".to_owned());
        }
        if self.notify {
            r.push("notify".to_owned());
        }
        if self.indicate {
            r.push("indicate".to_owned());
        }
        proof {
            assert(r.deep_view() =~~= flag_names(*self));
        }
        r
    }
}

/// A descriptor under a characteristic: identity, value buffer, and
/// optional read/write callback slots. A callback slot names a
/// caller-registered handler by a caller-chosen handle; `None` means the
/// cached value buffer serves the operation directly.
pub struct Descriptor {
    pub uuid: Uuid,
    pub value: Vec<u8>,
    pub read_callback: Option<u64>,
    pub write_callback: Option<u64>,
}

/// A characteristic under a service: identity, declared properties,
/// value buffer, its descriptors, and optional callback slots fired on
/// remote read, remote write, and notify-subscription change.
pub struct Characteristic {
    pub uuid: Uuid,
    pub properties: CharacteristicProperties,
    pub value: Vec<u8>,
    pub descriptors: Vec<Descriptor>,
    pub read_callback: Option<u64>,
    pub write_callback: Option<u64>,
    pub notify_callback: Option<u64>,
}

/// A service: identity, primary flag, and its ordered characteristics.
/// Owned by the caller; its contents are copied into the object tree at
/// add time, so the tree never mutates caller state.
pub struct Service {
    pub uuid: Uuid,
    pub primary: bool,
    pub characteristics: Vec<Characteristic>,
}

/// Copies a byte buffer, so a caller's model object or a cached value
/// can be handed on while the original stays in place.
pub(crate) fn copy_bytes(v: &Vec<u8>) -> (r: Vec<u8>)
    ensures
        r@ == v@,
{
    let mut r: Vec<u8> = Vec::new();
    let mut i: usize = 0;
    while i < v.len()
        invariant
            i <= v@.len(),
            r@ =~= v@.subrange(0, i as int),
        decreases v@.len() - i,
    {
        r.push(v[i]);
        i = i + 1;
    }
    proof {
        assert(r@ =~= v@);
    }
    r
}

} // verus!
