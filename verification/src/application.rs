use crate::error::{is_bluez_error, Error, ErrorType};
use crate::tree::{
    CharacteristicRecord, DescriptorRecord, ObjectRecord, PathId, Tree, TreeEntry,
};
use vstd::prelude::*;
use vstd::pervasive::VecAdditionalExecFns;

verus! {

/// What a remote `ReadValue` call yields: the cached value to reply
/// with, or the handle of the caller-registered read callback the
/// transport layer must invoke to produce the reply.
#[derive(Debug)]
pub enum ReadOutcome {
    Value(Vec<u8>),
    Callback(u64),
}

/// What a remote `WriteValue` call yields once the cached value has been
/// updated: nothing further, or the handle of the write callback the
/// transport layer must invoke with the written bytes.
#[derive(Clone, Copy, Debug, PartialEq, Eq, Structural)]
pub enum WriteOutcome {
    Done,
    Callback(u64),
}

/// The record carries a value buffer that remote reads and writes may
/// address: it is a characteristic or a descriptor, never a service.
pub open spec fn has_value(r: ObjectRecord) -> bool {
    r is Characteristic || r is Descriptor
}

/// The cached value buffer of a characteristic or descriptor record.
pub open spec fn record_value(r: ObjectRecord) -> Seq<u8> {
    match r {
        ObjectRecord::Service(_) => Seq::empty(),
        ObjectRecord::Characteristic(c) => c.value@,
        ObjectRecord::Descriptor(d) => d.value@,
    }
}

/// The read-callback slot of a characteristic or descriptor record.
pub open spec fn record_read_callback(r: ObjectRecord) -> Option<u64> {
    match r {
        ObjectRecord::Service(_) => None,
        ObjectRecord::Characteristic(c) => c.read_callback,
        ObjectRecord::Descriptor(d) => d.read_callback,
    }
}

/// The write-callback slot of a characteristic or descriptor record.
pub open spec fn record_write_callback(r: ObjectRecord) -> Option<u64> {
    match r {
        ObjectRecord::Service(_) => None,
        ObjectRecord::Characteristic(c) => c.write_callback,
        ObjectRecord::Descriptor(d) => d.write_callback,
    }
}

/// The notify-callback slot of a characteristic record.
pub open spec fn record_notify_callback(r: ObjectRecord) -> Option<u64> {
    match r {
        ObjectRecord::Service(_) => None,
        ObjectRecord::Characteristic(c) => c.notify_callback,
        ObjectRecord::Descriptor(_) => None,
    }
}

/// `r` with its cached value buffer replaced by `value`; services are
/// left as they stand.
pub open spec fn record_with_value(r: ObjectRecord, value: Vec<u8>) -> ObjectRecord {
    match r {
        ObjectRecord::Service(s) => ObjectRecord::Service(s),
        ObjectRecord::Characteristic(c) => ObjectRecord::Characteristic(
            CharacteristicRecord { value, ..c },
        ),
        ObjectRecord::Descriptor(d) => ObjectRecord::Descriptor(DescriptorRecord { value, ..d }),
    }
}

/// `r` with its notify-subscription flag set to `notifying`; only
/// characteristics carry the flag.
pub open spec fn record_with_notifying(r: ObjectRecord, notifying: bool) -> ObjectRecord {
    match r {
        ObjectRecord::Characteristic(c) => ObjectRecord::Characteristic(
            CharacteristicRecord { notifying, ..c },
        ),
        _ => r,
    }
}

/// The root exported object representing the whole GATT database: the
/// adapter-relative root path every object hangs beneath, and the sealed
/// tree whose contents the platform daemon enumerates once at
/// registration time.
pub struct Application {
    pub root: String,
    pub tree: Tree,
}

/// Exactly the effect of a remote `WriteValue` call on `path`: on a
/// characteristic or descriptor the cached value is replaced and the
/// outcome names the write callback to fire, if one is installed; on any
/// other path nothing changes and a typed error is returned.
pub open spec fn write_value_post(
    pre: Application,
    post: Application,
    path: PathId,
    value: Vec<u8>,
    r: Result<WriteOutcome, Error>,
) -> bool {
    &&& post.root == pre.root
    &&& if pre.tree.contains_path(path) && has_value(pre.tree.record_at(path)) {
        &&& post.tree.entries@ == pre.tree.entries@.update(
            pre.tree.index_of(path),
            TreeEntry { path, record: record_with_value(pre.tree.record_at(path), value) },
        )
        &&& r matches Ok(outcome) && outcome == (match record_write_callback(
            pre.tree.record_at(path),
        ) {
            Some(id) => WriteOutcome::Callback(id),
            None => WriteOutcome::Done,
        })
    } else {
        &&& post == pre
        &&& r matches Err(e) && is_bluez_error(e, "no writable value at the given path"@)
    }
}

/// Exactly the reply of a remote `ReadValue` call on `path`: the cached
/// value when no read callback is installed, the callback handle when
/// one is, and a typed error on any path without a value.
pub open spec fn read_value_result(
    app: Application,
    path: PathId,
    r: Result<ReadOutcome, Error>,
) -> bool {
    if app.tree.contains_path(path) && has_value(app.tree.record_at(path)) {
        match record_read_callback(app.tree.record_at(path)) {
            Some(id) => r matches Ok(o) && o matches ReadOutcome::Callback(got) && got == id,
            None => r matches Ok(o) && o matches ReadOutcome::Value(v) && v@ == record_value(
                app.tree.record_at(path),
            ),
        }
    } else {
        r matches Err(e) && is_bluez_error(e, "no readable value at the given path"@)
    }
}

/// Exactly the effect of `StartNotify`/`StopNotify` on `path`: on a
/// characteristic the subscription flag becomes `notifying` and the
/// notify callback to fire, if any, is handed back; on any other path
/// nothing changes and a typed error is returned.
pub open spec fn set_notify_post(
    pre: Application,
    post: Application,
    path: PathId,
    notifying: bool,
    r: Result<Option<u64>, Error>,
) -> bool {
    &&& post.root == pre.root
    &&& if pre.tree.contains_path(path) && pre.tree.record_at(path) is Characteristic {
        &&& post.tree.entries@ == pre.tree.entries@.update(
            pre.tree.index_of(path),
            TreeEntry { path, record: record_with_notifying(pre.tree.record_at(path), notifying) },
        )
        &&& r matches Ok(cb) && cb == record_notify_callback(pre.tree.record_at(path))
    } else {
        &&& post == pre
        &&& r matches Err(e) && is_bluez_error(e, "no characteristic at the given path"@)
    }
}

impl Application {
    /// Well-formed: the sealed tree holds pairwise distinct paths.
    pub open spec fn wf(self) -> bool {
        self.tree.wf()
    }

    /// Snapshots the sealed tree under its root path. Cheap: the tree is
    /// moved, not copied.
    pub fn new(root: String, tree: Tree) -> (app: Application)
        ensures
            app.root == root,
            app.tree == tree,
    {
        Application { root, tree }
    }

    /// The enumeration the platform daemon performs once during the
    /// registration handshake: every path with its interface and
    /// property set.
    pub fn managed_objects(&self) -> (objects: &Vec<TreeEntry>)
        ensures
            objects@ == self.tree.entries@,
    {
        &self.tree.entries
    }

    /// Serves a remote `ReadValue` call.
    pub fn handle_read_value(&self, path: PathId) -> (r: Result<ReadOutcome, Error>)
        requires
            self.wf(),
        ensures
            read_value_result(*self, path, r),
    {
        match self.tree.find(path) {
            Some(i) => match &self.tree.entries[i].record {
                ObjectRecord::Service(_) => Err(
                    Error::new("BlueZ", "no readable value at the given path", ErrorType::Bluez),
                ),
                ObjectRecord::Characteristic(c) => match c.read_callback {
                    Some(id) => Ok(ReadOutcome::Callback(id)),
                    None => Ok(ReadOutcome::Value(crate::model::copy_bytes(&c.value))),
                },
                ObjectRecord::Descriptor(d) => match d.read_callback {
                    Some(id) => Ok(ReadOutcome::Callback(id)),
                    None => Ok(ReadOutcome::Value(crate::model::copy_bytes(&d.value))),
                },
            },
            None => Err(Error::new("BlueZ", "no readable value at the given path", ErrorType::Bluez)),
        }
    }

    /// Serves a remote `WriteValue` call: the cached value is updated,
    /// then the installed write callback, if any, is named for the
    /// transport layer to fire.
    pub fn handle_write_value(&mut self, path: PathId, value: Vec<u8>) -> (r: Result<
        WriteOutcome,
        Error,
    >)
        requires
            old(self).wf(),
        ensures
            final(self).wf(),
            write_value_post(*old(self), *final(self), path, value, r),
    {
        match self.tree.find(path) {
            Some(i) => {
                let outcome: WriteOutcome;
                let new_record: ObjectRecord;
                match &self.tree.entries[i].record {
                    ObjectRecord::Service(_) => {
                        return Err(
                            Error::new(
                                "BlueZ",
                                "no writable value at the given path",
                                ErrorType::Bluez,
                            ),
                        );
                    },
                    ObjectRecord::Characteristic(c) => {
                        outcome = match c.write_callback {
                            Some(id) => WriteOutcome::Callback(id),
                            None => WriteOutcome::Done,
                        };
                        new_record = ObjectRecord::Characteristic(
                            CharacteristicRecord {
                                uuid: c.uuid,
                                flags: c.flags,
                                service: c.service,
                                value,
                                read_callback: c.read_callback,
                                write_callback: c.write_callback,
                                notify_callback: c.notify_callback,
                                notifying: c.notifying,
                            },
                        );
                    },
                    ObjectRecord::Descriptor(d) => {
                        outcome = match d.write_callback {
                            Some(id) => WriteOutcome::Callback(id),
                            None => WriteOutcome::Done,
                        };
                        new_record = ObjectRecord::Descriptor(
                            DescriptorRecord {
                                uuid: d.uuid,
                                characteristic: d.characteristic,
                                value,
                                read_callback: d.read_callback,
                                write_callback: d.write_callback,
                            },
                        );
                    },
                }
                self.tree.entries.set(i, TreeEntry { path, record: new_record });
                proof {
                    assert forall|a: int, b: int|
                        0 <= a < b < self.tree.entries@.len() implies self.tree.entries@[a].path
                        != self.tree.entries@[b].path by {
                        assert(self.tree.entries@[a].path == old(self).tree.entries@[a].path);
                        assert(self.tree.entries@[b].path == old(self).tree.entries@[b].path);
                    }
                }
                Ok(outcome)
            },
            None => Err(Error::new("BlueZ", "no writable value at the given path", ErrorType::Bluez)),
        }
    }

    /// Serves a remote `StartNotify` call: marks the characteristic as
    /// subscribed and names the notify callback to fire, if any.
    pub fn handle_start_notify(&mut self, path: PathId) -> (r: Result<Option<u64>, Error>)
        requires
            old(self).wf(),
        ensures
            final(self).wf(),
            set_notify_post(*old(self), *final(self), path, true, r),
    {
        self.set_notifying(path, true)
    }

    /// Serves a remote `StopNotify` call: clears the subscription flag
    /// and names the notify callback to fire, if any.
    pub fn handle_stop_notify(&mut self, path: PathId) -> (r: Result<Option<u64>, Error>)
        requires
            old(self).wf(),
        ensures
            final(self).wf(),
            set_notify_post(*old(self), *final(self), path, false, r),
    {
        self.set_notifying(path, false)
    }

    fn set_notifying(&mut self, path: PathId, notifying: bool) -> (r: Result<Option<u64>, Error>)
        requires
            old(self).wf(),
        ensures
            final(self).wf(),
            set_notify_post(*old(self), *final(self), path, notifying, r),
    {
        match self.tree.find(path) {
            Some(i) => {
                let is_characteristic: bool = match &self.tree.entries[i].record {
                    ObjectRecord::Characteristic(_) => true,
                    _ => false,
                };
                if !is_characteristic {
                    return Err(
                        Error::new("BlueZ", "no characteristic at the given path", ErrorType::Bluez),
                    );
                }
                let entry = self.tree.entries.remove(i);
                match entry.record {
                    ObjectRecord::Characteristic(c) => {
                        let cb: Option<u64> = c.notify_callback;
                        let new_record = ObjectRecord::Characteristic(
                            CharacteristicRecord {
                                uuid: c.uuid,
                                flags: c.flags,
                                service: c.service,
                                value: c.value,
                                read_callback: c.read_callback,
                                write_callback: c.write_callback,
                                notify_callback: c.notify_callback,
                                notifying,
                            },
                        );
                        self.tree.entries.insert(i, TreeEntry { path, record: new_record });
                        proof {
                            assert(self.tree.entries@ =~= old(self).tree.entries@.update(
                                i as int,
                                TreeEntry {
                                    path,
                                    record: record_with_notifying(
                                        old(self).tree.record_at(path),
                                        notifying,
                                    ),
                                },
                            ));
                            assert forall|a: int, b: int|
                                0 <= a < b < self.tree.entries@.len() implies self.tree.entries@[a].path != self.tree.entries@[b].path by {
                                assert(self.tree.entries@[a].path == old(self).tree.entries@[a].path);
                                assert(self.tree.entries@[b].path == old(self).tree.entries@[b].path);
                            }
                        }
                        Ok(cb)
                    },
                    _ => {
                        proof {
                            assert(false);
                        }
                        Err(Error::new("BlueZ", "no characteristic at the given path", ErrorType::Bluez))
                    },
                }
            },
            None => Err(Error::new("BlueZ", "no characteristic at the given path", ErrorType::Bluez)),
        }
    }
}

/// Law: with no custom read or write callback installed, writing a value
/// through the write handler and then reading through the read handler
/// returns exactly the just-written bytes (default cache behavior).
pub proof fn lemma_write_then_read_round_trip(
    a0: Application,
    a1: Application,
    path: PathId,
    value: Vec<u8>,
    w: Result<WriteOutcome, Error>,
    r: Result<ReadOutcome, Error>,
)
    requires
        a0.wf(),
        a1.wf(),
        a0.tree.contains_path(path),
        has_value(a0.tree.record_at(path)),
        record_read_callback(a0.tree.record_at(path)) is None,
        record_write_callback(a0.tree.record_at(path)) is None,
        write_value_post(a0, a1, path, value, w),
        read_value_result(a1, path, r),
    ensures
        w == Ok::<WriteOutcome, Error>(WriteOutcome::Done),
        r matches Ok(o) && o matches ReadOutcome::Value(v) && v@ == value@,
{
    let i = a0.tree.index_of(path);
    assert(0 <= i < a0.tree.entries@.len() && a0.tree.entries@[i].path == path);
    assert(a1.tree.entries@[i].path == path);
    assert(a1.tree.contains_path(path));
    let j = a1.tree.index_of(path);
    assert(0 <= j < a1.tree.entries@.len() && a1.tree.entries@[j].path == path);
    assert(j == i);
    assert(a1.tree.record_at(path) == record_with_value(a0.tree.record_at(path), value));
}

} // verus!
