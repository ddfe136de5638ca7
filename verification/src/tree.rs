use crate::model::{CharacteristicProperties, Uuid};
use vstd::prelude::*;
use vstd::string::StringExecFns;

verus! {

/// The character for a single decimal digit.
pub open spec fn dec_digit(n: nat) -> char {
    if n == 0 {
        '0'
    } else if n == 1 {
        '1'
    } else if n == 2 {
        '2'
    } else if n == 3 {
        '3'
    } else if n == 4 {
        '4'
    } else if n == 5 {
        '5'
    } else if n == 6 {
        '6'
    } else if n == 7 {
        '7'
    } else if n == 8 {
        '8'
    } else {
        '9'
    }
}

/// The decimal digit characters of `n`, most significant first.
pub open spec fn dec_chars(n: nat) -> Seq<char>
    decreases n,
{
    if n < 10 {
        seq![dec_digit(n)]
    } else {
        dec_chars(n / 10).push(dec_digit(n % 10))
    }
}

fn digit_str(d: u64) -> (s: &'static str)
    requires
        d < 10,
    ensures
        s@ == seq![dec_digit(d as nat)],
{
    proof {
        reveal_strlit("0");
        reveal_strlit("1");
        reveal_strlit("2");
        reveal_strlit("3");
        reveal_strlit("4");
        reveal_strlit("5");
        reveal_strlit("6");
        reveal_strlit("7");
        reveal_strlit("8");
        reveal_strlit("9");
        assert("0"@ =~= seq!['0']);
        assert("1"@ =~= seq!['1']);
        assert("2"@ =~= seq!['2']);
        assert("3"@ =~= seq!['3']);
        assert("4"@ =~= seq!['4']);
        assert("5"@ =~= seq!['5']);
        assert("6"@ =~= seq!['6']);
        assert("7"@ =~= seq!['7']);
        assert("8"@ =~= seq!['8']);
        assert("9"@ =~= seq!['9']);
    }
    match d {
        0 => "0",
        1 => "1",
        2 => "2",
        3 => "3",
        4 => "4",
        5 => "5",
        6 => "6",
        7 => "7",
        8 => "8",
        _ => "9",
    }
}

/// Renders `n` in decimal, most significant digit first and without
/// leading zeroes.
pub fn u64_to_decimal(n: u64) -> (s: String)
    ensures
        s@ == dec_chars(n as nat),
    decreases n,
{
    if n < 10 {
        digit_str(n).to_owned()
    } else {
        let prefix = u64_to_decimal(n / 10);
        let s = prefix.concat(digit_str(n % 10));
        proof {
            assert(dec_chars((n as nat) / 10).push(dec_digit((n as nat) % 10)) =~= dec_chars(
                (n as nat) / 10,
            ) + seq![dec_digit((n as nat) % 10)]);
        }
        s
    }
}

/// A hierarchical path identifier, the structured form of the wire path
/// `<root>/service<N>[/characteristic<M>[/descriptor<K>]]`. Each index
/// comes from its own monotonically increasing counter, never reset or
/// reused while the coordinator is live, so identifiers stay unique.
#[derive(Clone, Copy, Debug, PartialEq, Eq, Structural)]
pub enum PathId {
    Service { service: u64 },
    Characteristic { service: u64, characteristic: u64 },
    Descriptor { service: u64, characteristic: u64, descriptor: u64 },
}

/// The wire form of a path identifier under the adapter-relative root:
/// `<root>/service%d[/characteristic%d[/descriptor%d]]`, decimal,
/// zero-based.
pub open spec fn wire_chars(root: Seq<char>, p: PathId) -> Seq<char> {
    match p {
        PathId::Service { service } => root + "/service"@ + dec_chars(service as nat),
        PathId::Characteristic { service, characteristic } => root + "/service"@ + dec_chars(
            service as nat,
        ) + "/characteristic"@ + dec_chars(characteristic as nat),
        PathId::Descriptor { service, characteristic, descriptor } => root + "/service"@
            + dec_chars(service as nat) + "/characteristic"@ + dec_chars(characteristic as nat)
            + "/descriptor"@ + dec_chars(descriptor as nat),
    }
}

impl PathId {
    /// Renders the structured identifier as the wire path string the
    /// platform daemon and centrals see.
    pub fn wire_string(&self, root: &str) -> (s: String)
        ensures
            s@ == wire_chars(root@, *self),
    {
        match self {
            PathId::Service { service } => root.to_owned().concat("/service").concat(
                u64_to_decimal(*service).as_str(),
            ),
            PathId::Characteristic { service, characteristic } => root.to_owned().concat(
                "/service",
            ).concat(u64_to_decimal(*service).as_str()).concat("/characteristic").concat(
                u64_to_decimal(*characteristic).as_str(),
            ),
            PathId::Descriptor { service, characteristic, descriptor } => root.to_owned().concat(
                "/service",
            ).concat(u64_to_decimal(*service).as_str()).concat("/characteristic").concat(
                u64_to_decimal(*characteristic).as_str(),
            ).concat("/descriptor").concat(u64_to_decimal(*descriptor).as_str()),
        }
    }
}

/// The properties a service object exposes: identity and primary flag.
/// Services are pure containers in the GATT model, so they carry no
/// method handlers.
pub struct ServiceRecord {
    pub uuid: Uuid,
    pub primary: bool,
}

/// The properties and method-handler state of a characteristic object:
/// identity, declared flags, the back-reference to the owning service's
/// path, the cached value served by default reads and updated by writes,
/// the optional callback slots, and the notify-subscription flag.
pub struct CharacteristicRecord {
    pub uuid: Uuid,
    pub flags: CharacteristicProperties,
    pub service: PathId,
    pub value: Vec<u8>,
    pub read_callback: Option<u64>,
    pub write_callback: Option<u64>,
    pub notify_callback: Option<u64>,
    pub notifying: bool,
}

/// The properties and method-handler state of a descriptor object:
/// identity, the back-reference to the owning characteristic's path,
/// the cached value, and the optional callback slots.
pub struct DescriptorRecord {
    pub uuid: Uuid,
    pub characteristic: PathId,
    pub value: Vec<u8>,
    pub read_callback: Option<u64>,
    pub write_callback: Option<u64>,
}

/// One dispatchable object: which interface it implements and that
/// interface's property table and handler state.
pub enum ObjectRecord {
    Service(ServiceRecord),
    Characteristic(CharacteristicRecord),
    Descriptor(DescriptorRecord),
}

/// One registered object of the tree: its path and its record.
pub struct TreeEntry {
    pub path: PathId,
    pub record: ObjectRecord,
}

/// The object tree: a registry of dispatchable objects keyed by path
/// identifier, in insertion order.
pub struct Tree {
    pub entries: Vec<TreeEntry>,
}

impl Tree {
    /// Some entry is registered at `path`.
    pub open spec fn contains_path(self, path: PathId) -> bool {
        exists|i: int| 0 <= i < self.entries@.len() && self.entries@[i].path == path
    }

    /// The position of the entry registered at `path` (meaningful when
    /// `contains_path(path)` holds and the tree is well formed).
    pub open spec fn index_of(self, path: PathId) -> int {
        choose|i: int| 0 <= i < self.entries@.len() && self.entries@[i].path == path
    }

    /// The record registered at `path`.
    pub open spec fn record_at(self, path: PathId) -> ObjectRecord {
        self.entries@[self.index_of(path)].record
    }

    /// Well-formed: no two entries share a path identifier.
    pub open spec fn wf(self) -> bool {
        forall|i: int, j: int|
            0 <= i < j < self.entries@.len() ==> self.entries@[i].path != self.entries@[j].path
    }

    /// An empty tree.
    pub fn new() -> (t: Tree)
        ensures
            t.entries@ =~= Seq::<TreeEntry>::empty(),
            t.wf(),
    {
        Tree { entries: Vec::new() }
    }

    /// The number of registered objects.
    pub fn len(&self) -> (n: usize)
        ensures
            n == self.entries@.len(),
    {
        self.entries.len()
    }

    /// Registers `record` at `path`. Callers allocate every path fresh
    /// from a counter, so a colliding path is ruled out up front instead
    /// of silently overwriting an object.
    pub fn insert(&mut self, path: PathId, record: ObjectRecord)
        requires
            old(self).wf(),
            !old(self).contains_path(path),
        ensures
            final(self).wf(),
            final(self).entries@ == old(self).entries@.push(TreeEntry { path, record }),
    {
        self.entries.push(TreeEntry { path, record });
    }

    /// Looks up the position of the entry registered at `path`.
    pub fn find(&self, path: PathId) -> (r: Option<usize>)
        requires
            self.wf(),
        ensures
            match r {
                Some(i) => self.contains_path(path) && i == self.index_of(path)
                    && i < self.entries@.len() && self.entries@[i as int].path == path,
                None => !self.contains_path(path),
            },
    {
        let mut i: usize = 0;
        while i < self.entries.len()
            invariant
                self.wf(),
                i <= self.entries@.len(),
                forall|k: int| 0 <= k < i ==> self.entries@[k].path != path,
            decreases self.entries@.len() - i,
        {
            if self.entries[i].path == path {
                proof {
                    assert(self.contains_path(path));
                    let w = self.index_of(path);
                    assert(0 <= w < self.entries@.len() && self.entries@[w].path == path);
                }
                return Some(i);
            }
            i = i + 1;
        }
        None
    }
}

} // verus!
