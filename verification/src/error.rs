//! The two error families of the driver: per-request failures answered to
//! the kernel, and fatal failures that abort startup.

use vstd::prelude::*;

verus! {

/// A request-level failure, answered to the kernel for one request only:
/// `NoEnt` for an identifier or name absent from the current backend state,
/// `Io` for a backend listing failure.
#[derive(Clone, Copy, PartialEq, Eq, Structural, Debug)]
pub enum Errno {
    NoEnt,
    Io,
}

/// A fatal failure: configuration that cannot be loaded or understood, or a
/// mount that cannot be established. Any of these aborts the process.
#[derive(Clone, Debug)]
pub enum FuseError {
    /// An I/O failure while establishing a mount or waiting for shutdown.
    Io(String),
    /// The pool registry could not be loaded.
    Pool(String),
    /// The metadata backend failed outside a single request.
    Metadata(String),
    /// A mount definition references a pool identifier that no pool defines.
    MountConfig { mount_point: String, pool_id: u64 },
}

} // verus!
