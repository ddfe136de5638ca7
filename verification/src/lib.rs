//! A BLE GATT peripheral core: an in-memory object tree of services,
//! characteristics and descriptors, built under monotonically allocated
//! hierarchical paths, together with the two-phase registration protocol
//! that publishes the tree to the platform Bluetooth daemon.
//!
//! The tree construction, path allocation, dispatch of read/write/notify
//! traffic and the registration state machine are all verified; the
//! transport that carries the remote calls lives outside this crate and
//! receives plain request values describing each call to issue.

pub mod application;
pub mod error;
pub mod gatt;
pub mod model;
pub mod tree;

pub use application::{Application, ReadOutcome, WriteOutcome};
pub use error::{Error, ErrorType};
pub use gatt::{Gatt, GattState, RegisterRequest, UnregisterRequest};
pub use model::{Characteristic, CharacteristicProperties, Descriptor, Service, Uuid};
pub use tree::{ObjectRecord, PathId, Tree, TreeEntry};
