use crate::application::Application;
use crate::error::{is_bluez_error, Error, ErrorType};
use crate::model::{copy_bytes, Characteristic, Service};
use crate::tree::{
    CharacteristicRecord, DescriptorRecord, ObjectRecord, PathId, ServiceRecord, Tree, TreeEntry,
};
use vstd::prelude::*;

verus! {

/// The number of descriptors declared across `chars`.
pub open spec fn desc_total(chars: Seq<Characteristic>) -> nat
    decreases chars.len(),
{
    if chars.len() == 0 {
        0
    } else {
        desc_total(chars.drop_last()) + chars.last().descriptors@.len()
    }
}

/// Extending the prefix by one characteristic adds exactly that
/// characteristic's descriptor count.
proof fn lemma_desc_total_take_succ(chars: Seq<Characteristic>, j: int)
    requires
        0 <= j < chars.len(),
    ensures
        desc_total(chars.take(j + 1)) == desc_total(chars.take(j))
            + chars[j].descriptors@.len(),
{
    assert(chars.take(j + 1).drop_last() =~= chars.take(j));
    assert(chars.take(j + 1).last() == chars[j]);
}

/// The descriptor count of a prefix never exceeds that of the whole.
proof fn lemma_desc_total_take_le(chars: Seq<Characteristic>, j: int)
    requires
        0 <= j <= chars.len(),
    ensures
        desc_total(chars.take(j)) <= desc_total(chars),
    decreases chars.len() - j,
{
    if j == chars.len() {
        assert(chars.take(j) =~= chars);
    } else {
        lemma_desc_total_take_succ(chars, j);
        lemma_desc_total_take_le(chars, j + 1);
    }
}

/// Position of characteristic `j`'s object among the entries one
/// `add_service` call appends after `base` existing entries: the
/// service object comes first, then each characteristic followed by its
/// descriptors.
pub open spec fn char_pos(base: int, chars: Seq<Characteristic>, j: int) -> int {
    base + 1 + j + desc_total(chars.take(j))
}

/// Position of descriptor `k` of characteristic `j` among the appended
/// entries.
pub open spec fn desc_pos(base: int, chars: Seq<Characteristic>, j: int, k: int) -> int {
    char_pos(base, chars, j) + 1 + k
}

/// The service index a path belongs to, whatever its kind.
pub open spec fn path_service_of(p: PathId) -> u64 {
    match p {
        PathId::Service { service } => service,
        PathId::Characteristic { service, .. } => service,
        PathId::Descriptor { service, .. } => service,
    }
}

/// Every index of `p` was allocated below the given counter values.
pub open spec fn path_in_bounds(p: PathId, si: int, ci: int, di: int) -> bool {
    match p {
        PathId::Service { service } => service < si,
        PathId::Characteristic { service, characteristic } => service < si
            && characteristic < ci,
        PathId::Descriptor { service, characteristic, descriptor } => service < si
            && characteristic < ci && descriptor < di,
    }
}

/// `r` is the object a service model is published as: its UUID and
/// primary flag, nothing else.
pub open spec fn service_record_for(r: ObjectRecord, s: Service) -> bool {
    &&& r matches ObjectRecord::Service(rec)
    &&& rec.uuid == s.uuid
    &&& rec.primary == s.primary
}

/// `r` is the object a characteristic model is published as: its
/// identity, flags, a copy of its value buffer, its callback slots, the
/// back-reference to the owning service, and no subscription yet.
pub open spec fn characteristic_record_for(
    r: ObjectRecord,
    c: Characteristic,
    service_path: PathId,
) -> bool {
    &&& r matches ObjectRecord::Characteristic(rec)
    &&& rec.uuid == c.uuid
    &&& rec.flags == c.properties
    &&& rec.service == service_path
    &&& rec.value@ == c.value@
    &&& rec.read_callback == c.read_callback
    &&& rec.write_callback == c.write_callback
    &&& rec.notify_callback == c.notify_callback
    &&& rec.notifying == false
}

/// `r` is the object a descriptor model is published as.
pub open spec fn descriptor_record_for(
    r: ObjectRecord,
    d: crate::model::Descriptor,
    characteristic_path: PathId,
) -> bool {
    &&& r matches ObjectRecord::Descriptor(rec)
    &&& rec.uuid == d.uuid
    &&& rec.characteristic == characteristic_path
    &&& rec.value@ == d.value@
    &&& rec.read_callback == d.read_callback
    &&& rec.write_callback == d.write_callback
}

/// The characteristic object of `s`'s characteristic `j` stands at its
/// computed position, under the path drawn from the pre-call counters,
/// with the service back-reference.
pub open spec fn char_entry_ok(
    entries: Seq<TreeEntry>,
    base: int,
    s: Service,
    si: u64,
    ci: u64,
    j: int,
) -> bool {
    let chars = s.characteristics@;
    let e = entries[char_pos(base, chars, j)];
    &&& char_pos(base, chars, j) < entries.len()
    &&& e.path == (PathId::Characteristic { service: si, characteristic: (ci + j) as u64 })
    &&& characteristic_record_for(e.record, chars[j], PathId::Service { service: si })
}

/// The descriptor object of descriptor `k` of characteristic `j` stands
/// at its computed position, with the characteristic back-reference.
pub open spec fn desc_entry_ok(
    entries: Seq<TreeEntry>,
    base: int,
    s: Service,
    si: u64,
    ci: u64,
    di: u64,
    j: int,
    k: int,
) -> bool {
    let chars = s.characteristics@;
    let e = entries[desc_pos(base, chars, j, k)];
    &&& desc_pos(base, chars, j, k) < entries.len()
    &&& e.path == (PathId::Descriptor {
        service: si,
        characteristic: (ci + j) as u64,
        descriptor: (di + desc_total(chars.take(j)) + k) as u64,
    })
    &&& descriptor_record_for(
        e.record,
        chars[j].descriptors@[k],
        PathId::Characteristic { service: si, characteristic: (ci + j) as u64 },
    )
}

/// Exactly the entries one `add_service` call appends to a tree of
/// `pre` entries, with paths drawn from the pre-call counters `si`,
/// `ci`, `di`: the whole subtree or nothing.
pub open spec fn add_service_appended(
    pre: Seq<TreeEntry>,
    post: Seq<TreeEntry>,
    s: Service,
    si: u64,
    ci: u64,
    di: u64,
) -> bool {
    let base = pre.len() as int;
    let chars = s.characteristics@;
    &&& post.len() == base + 1 + chars.len() + desc_total(chars)
    &&& forall|i: int| 0 <= i < base ==> post[i] == pre[i]
    &&& post[base].path == (PathId::Service { service: si })
    &&& service_record_for(post[base].record, s)
    &&& forall|j: int| 0 <= j < chars.len() ==> #[trigger] char_entry_ok(post, base, s, si, ci, j)
    &&& forall|j: int, k: int|
        0 <= j < chars.len() && 0 <= k < chars[j].descriptors@.len() ==> #[trigger] desc_entry_ok(
            post,
            base,
            s,
            si,
            ci,
            di,
            j,
            k,
        )
    &&& forall|i: int|
        base <= i < post.len() ==> path_service_of((#[trigger] post[i]).path) == si
}

/// Whether the coordinator is still building its tree or has sealed it
/// behind a registered application. The one-way hand-off at
/// registration is a state transition: once `Registered`, the tree
/// lives inside the application and no structural mutation is possible.
pub enum GattState {
    Building { tree: Tree },
    Registered { application: Application },
}

/// The remote call the transport layer must issue to complete a
/// registration: `RegisterApplication(root, {})` against the adapter's
/// GATT manager.
#[derive(Debug)]
pub struct RegisterRequest {
    pub root: String,
}

/// The remote call the transport layer must issue to complete an
/// unregistration: `UnregisterApplication(root)`.
#[derive(Debug)]
pub struct UnregisterRequest {
    pub root: String,
}

/// The GATT coordinator: owns the adapter-relative root path, the
/// object tree (or, once registered, the application that sealed it),
/// and the three per-kind index counters, which are never reset or
/// reused while the coordinator is live.
pub struct Gatt {
    pub adapter: String,
    pub state: GattState,
    pub service_index: u64,
    pub characteristic_index: u64,
    pub descriptor_index: u64,
}

/// Exactly the state change and result of one `add_service` call.
pub open spec fn add_service_post(
    pre: Gatt,
    post: Gatt,
    s: Service,
    r: Result<(), Error>,
) -> bool {
    &&& post.adapter == pre.adapter
    &&& match pre.state {
        GattState::Registered { .. } => {
            &&& post == pre
            &&& r matches Err(e) && is_bluez_error(e, "cannot add a service after registration"@)
        },
        GattState::Building { tree } => {
            &&& r is Ok
            &&& post.service_index == pre.service_index + 1
            &&& post.characteristic_index == pre.characteristic_index
                + s.characteristics@.len()
            &&& post.descriptor_index == pre.descriptor_index + desc_total(s.characteristics@)
            &&& post.state matches GattState::Building { tree: post_tree }
                && add_service_appended(
                tree.entries@,
                post_tree.entries@,
                s,
                pre.service_index,
                pre.characteristic_index,
                pre.descriptor_index,
            )
        },
    }
}

/// Exactly the state change and result of one `register` call.
pub open spec fn register_post(
    pre: Gatt,
    post: Gatt,
    r: Result<RegisterRequest, Error>,
) -> bool {
    &&& post.adapter == pre.adapter
    &&& post.service_index == pre.service_index
    &&& post.characteristic_index == pre.characteristic_index
    &&& post.descriptor_index == pre.descriptor_index
    &&& match pre.state {
        GattState::Registered { .. } => {
            &&& post == pre
            &&& r matches Err(e) && is_bluez_error(e, "tree already taken"@)
        },
        GattState::Building { tree } => {
            &&& r matches Ok(req) && req.root == pre.adapter
            &&& post.state matches GattState::Registered { application }
                && application.root == pre.adapter && application.tree == tree
        },
    }
}

/// Exactly the result of one `unregister` call; the coordinator itself
/// is never changed by it.
pub open spec fn unregister_result(g: Gatt, r: Result<UnregisterRequest, Error>) -> bool {
    match g.state {
        GattState::Building { .. } => r matches Err(e) && is_bluez_error(
            e,
            "no application to unregister"@,
        ),
        GattState::Registered { application } => r matches Ok(req) && req.root
            == application.root,
    }
}

impl Gatt {
    /// Well-formed: while building, the tree holds pairwise distinct
    /// paths whose indices all lie below the counters; once registered,
    /// the sealed tree is well-formed.
    pub open spec fn wf(self) -> bool {
        match self.state {
            GattState::Building { tree } => {
                &&& tree.wf()
                &&& forall|i: int|
                    0 <= i < tree.entries@.len() ==> path_in_bounds(
                        (#[trigger] tree.entries@[i]).path,
                        self.service_index as int,
                        self.characteristic_index as int,
                        self.descriptor_index as int,
                    )
            },
            GattState::Registered { application } => application.wf(),
        }
    }

    /// A fresh coordinator for the adapter at `adapter`: empty tree, no
    /// application, all counters at zero.
    pub fn new(adapter: String) -> (g: Gatt)
        ensures
            g.wf(),
            g.adapter == adapter,
            g.state matches GattState::Building { tree } && tree.entries@.len() == 0,
            g.service_index == 0,
            g.characteristic_index == 0,
            g.descriptor_index == 0,
    {
        Gatt {
            adapter,
            state: GattState::Building { tree: Tree::new() },
            service_index: 0,
            characteristic_index: 0,
            descriptor_index: 0,
        }
    }

    /// Builds the whole service -> characteristic -> descriptor subtree
    /// in one step: every object is inserted under a path drawn from the
    /// pre-call counters, and the counters advance past everything
    /// allocated. After registration the tree is sealed and the call
    /// fails without touching anything.
    #[verifier::loop_isolation(false)]
    pub fn add_service(&mut self, service: &Service) -> (r: Result<(), Error>)
        requires
            old(self).wf(),
            old(self).service_index < u64::MAX,
            old(self).characteristic_index + service.characteristics@.len() <= u64::MAX,
            old(self).descriptor_index + desc_total(service.characteristics@) <= u64::MAX,
        ensures
            final(self).wf(),
            add_service_post(*old(self), *final(self), *service, r),
    {
        let si = self.service_index;
        let ci = self.characteristic_index;
        let di = self.descriptor_index;
        let mut state = GattState::Building { tree: Tree::new() };
        core::mem::swap(&mut self.state, &mut state);
        match state {
            GattState::Registered { application } => {
                self.state = GattState::Registered { application };
                Err(Error::new("BlueZ", "cannot add a service after registration", ErrorType::Bluez))
            },
            GattState::Building { mut tree } => {
                let ghost pre_entries: Seq<TreeEntry> = tree.entries@;
                let ghost base: int = pre_entries.len() as int;
                let service_path = PathId::Service { service: si };
                proof {
                    assert forall|i: int|
                        0 <= i < tree.entries@.len() implies (#[trigger] tree.entries@[i]).path
                        != service_path by {
                        assert(path_in_bounds(tree.entries@[i].path, si as int, ci as int, di as int));
                    }
                    assert(!tree.contains_path(service_path));
                }
                tree.insert(
                    service_path,
                    ObjectRecord::Service(ServiceRecord { uuid: service.uuid, primary: service.primary }),
                );
                let mut char_i: u64 = ci;
                let mut desc_i: u64 = di;
                let mut j: usize = 0;
                while j < service.characteristics.len()
                    invariant
                        j <= service.characteristics@.len(),
                        char_i as int == ci + j,
                        desc_i as int == di + desc_total(service.characteristics@.take(j as int)),
                        si < u64::MAX,
                        ci + service.characteristics@.len() <= u64::MAX,
                        di + desc_total(service.characteristics@) <= u64::MAX,
                        base == pre_entries.len() as int,
                        tree.wf(),
                        tree.entries@.len() == base + 1 + j + desc_total(
                            service.characteristics@.take(j as int),
                        ),
                        forall|i: int| 0 <= i < base ==> tree.entries@[i] == pre_entries[i],
                        tree.entries@[base].path == (PathId::Service { service: si }),
                        service_record_for(tree.entries@[base].record, *service),
                        forall|j2: int|
                            0 <= j2 < j ==> #[trigger] char_entry_ok(
                                tree.entries@,
                                base,
                                *service,
                                si,
                                ci,
                                j2,
                            ),
                        forall|j2: int, k2: int|
                            0 <= j2 < j && 0 <= k2
                                < service.characteristics@[j2].descriptors@.len()
                                ==> #[trigger] desc_entry_ok(
                                tree.entries@,
                                base,
                                *service,
                                si,
                                ci,
                                di,
                                j2,
                                k2,
                            ),
                        forall|i: int|
                            0 <= i < tree.entries@.len() ==> path_in_bounds(
                                (#[trigger] tree.entries@[i]).path,
                                si + 1,
                                char_i as int,
                                desc_i as int,
                            ),
                        forall|i: int|
                            base <= i < tree.entries@.len() ==> path_service_of(
                                (#[trigger] tree.entries@[i]).path,
                            ) == si,
                    decreases service.characteristics@.len() - j,
                {
                    let ghost entries_at_j: Seq<TreeEntry> = tree.entries@;
                    let char_path = PathId::Characteristic { service: si, characteristic: char_i };
                    proof {
                        assert forall|i: int|
                            0 <= i < tree.entries@.len() implies (#[trigger] tree.entries@[i]).path
                            != char_path by {
                            assert(path_in_bounds(
                                tree.entries@[i].path,
                                si + 1,
                                char_i as int,
                                desc_i as int,
                            ));
                        }
                        assert(!tree.contains_path(char_path));
                        assert(char_pos(base, service.characteristics@, j as int)
                            == entries_at_j.len());
                    }
                    let c_uuid = service.characteristics[j].uuid;
                    let c_props = service.characteristics[j].properties;
                    let c_value = copy_bytes(&service.characteristics[j].value);
                    let c_read = service.characteristics[j].read_callback;
                    let c_write = service.characteristics[j].write_callback;
                    let c_notify = service.characteristics[j].notify_callback;
                    tree.insert(
                        char_path,
                        ObjectRecord::Characteristic(
                            CharacteristicRecord {
                                uuid: c_uuid,
                                flags: c_props,
                                service: service_path,
                                value: c_value,
                                read_callback: c_read,
                                write_callback: c_write,
                                notify_callback: c_notify,
                                notifying: false,
                            },
                        ),
                    );
                    let ghost entries_with_char: Seq<TreeEntry> = tree.entries@;
                    let mut k: usize = 0;
                    while k < service.characteristics[j].descriptors.len()
                        invariant
                            j < service.characteristics@.len(),
                            k <= service.characteristics@[j as int].descriptors@.len(),
                            char_i as int == ci + j,
                            desc_i as int == di + desc_total(
                                service.characteristics@.take(j as int),
                            ) + k,
                            si < u64::MAX,
                            ci + service.characteristics@.len() <= u64::MAX,
                            di + desc_total(service.characteristics@) <= u64::MAX,
                            base == pre_entries.len() as int,
                            tree.wf(),
                            entries_with_char.len() == char_pos(
                                base,
                                service.characteristics@,
                                j as int,
                            ) + 1,
                            tree.entries@.len() == entries_with_char.len() + k,
                            forall|i: int|
                                0 <= i < entries_with_char.len() ==> tree.entries@[i]
                                    == entries_with_char[i],
                            forall|k2: int|
                                0 <= k2 < k ==> #[trigger] desc_entry_ok(
                                    tree.entries@,
                                    base,
                                    *service,
                                    si,
                                    ci,
                                    di,
                                    j as int,
                                    k2,
                                ),
                            forall|i: int|
                                0 <= i < tree.entries@.len() ==> path_in_bounds(
                                    (#[trigger] tree.entries@[i]).path,
                                    si + 1,
                                    char_i as int + 1,
                                    desc_i as int,
                                ),
                            forall|i: int|
                                base <= i < tree.entries@.len() ==> path_service_of(
                                    (#[trigger] tree.entries@[i]).path,
                                ) == si,
                        decreases service.characteristics@[j as int].descriptors@.len() - k,
                    {
                        let desc_path = PathId::Descriptor {
                            service: si,
                            characteristic: char_i,
                            descriptor: desc_i,
                        };
                        proof {
                            assert forall|i: int|
                                0 <= i < tree.entries@.len() implies (#[trigger] tree.entries@[i]).path != desc_path by {
                                assert(path_in_bounds(
                                    tree.entries@[i].path,
                                    si + 1,
                                    char_i as int + 1,
                                    desc_i as int,
                                ));
                            }
                            assert(!tree.contains_path(desc_path));
                            assert(desc_pos(base, service.characteristics@, j as int, k as int)
                                == tree.entries@.len());
                            lemma_desc_total_take_succ(service.characteristics@, j as int);
                            lemma_desc_total_take_le(service.characteristics@, j as int + 1);
                        }
                        let ghost entries_at_k: Seq<TreeEntry> = tree.entries@;
                        let d_uuid = service.characteristics[j].descriptors[k].uuid;
                        let d_value = copy_bytes(&service.characteristics[j].descriptors[k].value);
                        let d_read = service.characteristics[j].descriptors[k].read_callback;
                        let d_write = service.characteristics[j].descriptors[k].write_callback;
                        tree.insert(
                            desc_path,
                            ObjectRecord::Descriptor(
                                DescriptorRecord {
                                    uuid: d_uuid,
                                    characteristic: char_path,
                                    value: d_value,
                                    read_callback: d_read,
                                    write_callback: d_write,
                                },
                            ),
                        );
                        proof {
                            assert forall|k2: int|
                                0 <= k2 < k + 1 implies #[trigger] desc_entry_ok(
                                tree.entries@,
                                base,
                                *service,
                                si,
                                ci,
                                di,
                                j as int,
                                k2,
                            ) by {
                                if k2 < k {
                                    assert(desc_entry_ok(
                                        entries_at_k,
                                        base,
                                        *service,
                                        si,
                                        ci,
                                        di,
                                        j as int,
                                        k2,
                                    ));
                                    assert(tree.entries@[desc_pos(
                                        base,
                                        service.characteristics@,
                                        j as int,
                                        k2,
                                    )] == entries_at_k[desc_pos(
                                        base,
                                        service.characteristics@,
                                        j as int,
                                        k2,
                                    )]);
                                } else {
                                    assert(tree.entries@[desc_pos(
                                        base,
                                        service.characteristics@,
                                        j as int,
                                        k as int,
                                    )] == tree.entries@[entries_at_k.len() as int]);
                                }
                            }
                        }
                        desc_i = desc_i + 1;
                        k = k + 1;
                    }
                    proof {
                        lemma_desc_total_take_succ(service.characteristics@, j as int);
                        assert forall|j2: int|
                            0 <= j2 < j + 1 implies #[trigger] char_entry_ok(
                            tree.entries@,
                            base,
                            *service,
                            si,
                            ci,
                            j2,
                        ) by {
                            if j2 < j {
                                assert(char_entry_ok(entries_at_j, base, *service, si, ci, j2));
                                let p = char_pos(base, service.characteristics@, j2);
                                assert(entries_with_char[p] == entries_at_j[p]);
                                assert(tree.entries@[p] == entries_with_char[p]);
                            } else {
                                assert(tree.entries@[char_pos(
                                    base,
                                    service.characteristics@,
                                    j as int,
                                )] == entries_with_char[entries_at_j.len() as int]);
                            }
                        }
                        assert forall|j2: int, k2: int|
                            0 <= j2 < j && 0 <= k2
                                < service.characteristics@[j2].descriptors@.len()
                                implies #[trigger] desc_entry_ok(
                            tree.entries@,
                            base,
                            *service,
                            si,
                            ci,
                            di,
                            j2,
                            k2,
                        ) by {
                            assert(desc_entry_ok(
                                entries_at_j,
                                base,
                                *service,
                                si,
                                ci,
                                di,
                                j2,
                                k2,
                            ));
                            let p = desc_pos(base, service.characteristics@, j2, k2);
                            assert(entries_with_char[p] == entries_at_j[p]);
                            assert(tree.entries@[p] == entries_with_char[p]);
                        }
                        assert forall|i: int| 0 <= i < base + 1 implies tree.entries@[i]
                            == entries_at_j[i] by {
                            assert(entries_with_char[i] == entries_at_j[i]);
                            assert(tree.entries@[i] == entries_with_char[i]);
                        }
                    }
                    char_i = char_i + 1;
                    j = j + 1;
                }
                proof {
                    assert(service.characteristics@.take(j as int) =~= service.characteristics@);
                }
                self.state = GattState::Building { tree };
                self.service_index = si + 1;
                self.characteristic_index = char_i;
                self.descriptor_index = desc_i;
                Ok(())
            },
        }
    }

    /// Seals the tree: takes it out of the building state (a second call
    /// observably fails with "tree already taken"), wraps it in the
    /// application published at the adapter root, and hands back the
    /// remote registration call the transport layer must issue. If that
    /// remote call later fails, the coordinator deliberately stays
    /// registered-but-unadvertised rather than rolling back.
    pub fn register(&mut self) -> (r: Result<RegisterRequest, Error>)
        requires
            old(self).wf(),
        ensures
            final(self).wf(),
            register_post(*old(self), *final(self), r),
    {
        let mut state = GattState::Building { tree: Tree::new() };
        core::mem::swap(&mut self.state, &mut state);
        match state {
            GattState::Registered { application } => {
                self.state = GattState::Registered { application };
                Err(Error::new("BlueZ", "tree already taken", ErrorType::Bluez))
            },
            GattState::Building { tree } => {
                let root = self.adapter.clone();
                let application = Application::new(self.adapter.clone(), tree);
                self.state = GattState::Registered { application };
                Ok(RegisterRequest { root })
            },
        }
    }

    /// Hands back the remote unregistration call for the live
    /// application, or fails if none was ever registered. Idempotent
    /// teardown: the coordinator stays registered.
    pub fn unregister(&self) -> (r: Result<UnregisterRequest, Error>)
        ensures
            unregister_result(*self, r),
    {
        match &self.state {
            GattState::Building { .. } => Err(
                Error::new("BlueZ", "no application to unregister", ErrorType::Bluez),
            ),
            GattState::Registered { application } => Ok(
                UnregisterRequest { root: application.root.clone() },
            ),
        }
    }
}

/// Law: in a well-formed coordinator that is still building, no two
/// objects share a path identifier, however `add_service` calls were
/// interleaved.
pub proof fn lemma_paths_unique(g: Gatt, i: int, j: int)
    requires
        g.wf(),
        g.state is Building,
        0 <= i < j < g.state->tree.entries@.len(),
    ensures
        g.state->tree.entries@[i].path != g.state->tree.entries@[j].path,
{
}

/// Law: one `add_service` call allocates only fresh paths: every entry
/// it appends stands at a path the tree did not contain before the
/// call, because per-kind counters only ever increase.
pub proof fn lemma_added_paths_fresh(
    pre: Gatt,
    post: Gatt,
    s: Service,
    r: Result<(), Error>,
    i: int,
)
    requires
        pre.wf(),
        pre.state is Building,
        add_service_post(pre, post, s, r),
        pre.state->tree.entries@.len() <= i < post.state->tree.entries@.len(),
    ensures
        !pre.state->tree.contains_path(post.state->tree.entries@[i].path),
{
    let pre_tree = pre.state->tree;
    let post_tree = post.state->tree;
    assert(path_service_of(post_tree.entries@[i].path) == pre.service_index);
    assert forall|w: int|
        0 <= w < pre_tree.entries@.len() implies (#[trigger] pre_tree.entries@[w]).path
        != post_tree.entries@[i].path by {
        assert(path_in_bounds(
            pre_tree.entries@[w].path,
            pre.service_index as int,
            pre.characteristic_index as int,
            pre.descriptor_index as int,
        ));
    }
}

/// Law: a second registration fails with "tree already taken" while the
/// application from the first registration stays live and untouched.
pub proof fn lemma_register_twice(
    g0: Gatt,
    g1: Gatt,
    r1: Result<RegisterRequest, Error>,
    g2: Gatt,
    r2: Result<RegisterRequest, Error>,
)
    requires
        g0.state is Building,
        register_post(g0, g1, r1),
        register_post(g1, g2, r2),
    ensures
        r2 matches Err(e) && is_bluez_error(e, "tree already taken"@),
        g2 == g1,
        g1.state is Registered,
        g2.state->application == g1.state->application,
{
}

/// Law: unregistering before any registration fails with "no
/// application"; `unregister` takes the coordinator by shared reference,
/// so the state is untouched by construction.
pub proof fn lemma_unregister_before_register(g: Gatt, r: Result<UnregisterRequest, Error>)
    requires
        g.state is Building,
        unregister_result(g, r),
    ensures
        r matches Err(e) && is_bluez_error(e, "no application to unregister"@),
{
}

} // verus!
