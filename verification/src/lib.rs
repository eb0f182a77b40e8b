//! The verified core of a privileged helper that maps user and group ids
//! into a child's user namespace on behalf of a requesting process.
use vstd::prelude::*;

pub mod auth;
pub mod client;
pub mod connection;
pub mod handler;
pub mod idmap;
pub mod kernel;
pub mod policy;
pub mod text;

pub use kernel::{require_kernel_version, strtocstr};

verus! {

/// A process id, as the kernel's `pid_t`.
pub type Pid = i32;

/// A user id, as the kernel's `uid_t`.
pub type Uid = u32;

/// A group id, as the kernel's `gid_t`.
pub type Gid = u32;

/// Where the daemon listens.
pub const WRAPPA_SOCKET: &'static str = "/run/wrappad.sock";

} // verus!
