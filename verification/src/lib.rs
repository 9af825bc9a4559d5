//! A user-space filesystem driver core: the per-mount inode identity table,
//! translation of backend directory entries into kernel-facing attributes,
//! the decision logic behind each filesystem callback, and the joining of
//! pool and mount definitions at startup.
//!
//! The unverified rim around this library — configuration loading, the
//! kernel session lifecycle, and the blocking bridge to the asynchronous
//! backend — hands plain values in and takes plain values back.

pub mod attr;
pub mod config;
pub mod entry;
pub mod error;
pub mod fs;
pub mod inode;
pub mod paths;

pub use attr::Attributes;
pub use config::MountDef;
pub use config::MountPlan;
pub use config::PoolDef;
pub use config::plan_mounts;
pub use entry::Entry;
pub use entry::EntryInfo;
pub use entry::FileKind;
pub use entry::ListEntry;
pub use error::Errno;
pub use error::FuseError;
pub use fs::DirEntryOut;
pub use fs::GetattrStep;
pub use fs::ReaddirStep;
pub use fs::RfsFuse;
pub use fs::TTL_SECS;
pub use inode::InodeTable;
pub use paths::parent_of;
pub use paths::join_path;
pub use paths::name_of;
