//! Process isolation for Linux: the decisions of a sandbox, verified.
//!
//! A sandbox runs a program with its own kernel namespaces, a system call
//! filter, Landlock file restrictions, resource limits and a timeout. This
//! library decides; it makes no system call. Where it needs the host to do
//! something it hands out a step that says what, and takes back what came of
//! it, so that each of its functions is verified for every answer of the host.
//!
//! # Privilege Modes
//!
//! - **Unprivileged**: user namespaces, seccomp, Landlock where the kernel has
//!   it, and resource limits. Works without root.
//! - **Privileged**: all namespaces, cgroups, chroot and seccomp. Requires root.
//! - **Auto**: the best of the two that the host allows.
//!
//! # Modules
//!
//! - [`controller`]: configuration, building, running and killing of a sandbox;
//!   [`controller_laws`] states what holds of every run.
//! - [`execution::launch`]: what the parent of a process does, from its creation
//!   to its result; laws in [`execution::launch_laws`].
//! - [`execution::child`]: what a new process does before it becomes its
//!   program; laws in [`execution::child_laws`].
//! - [`execution::environment`] and [`execution::path_search`]: the environment
//!   of a program, and the search for it; laws in [`execution::lookup_laws`].
//!
//! What each operation is for is stated place by place and field by field, on
//! the operation itself: in [`builder_laws`] for sandboxes, in
//! [`execution::spawn_laws`] for the creation of a process, in
//! [`execution::setup_laws`] and [`execution::program_laws`] for what it does
//! then, and in [`value_laws`] for texts, times and errors.

pub mod builder_laws;
pub mod controller;
pub mod controller_laws;
pub mod errno;
pub mod error;
pub mod execution;
pub mod limits;
pub mod namespace;
pub mod privilege;
pub mod seccomp;
pub mod text;
pub mod time;
pub mod value_laws;

pub use controller::{Sandbox, SandboxBuilder, SandboxConfig, SandboxResult};
pub use error::SandboxError;
pub use execution::process::{Pid, ProcessConfig, ProcessExecutor, ProcessResult};
pub use limits::{CgroupConfig, RlimitConfig};
pub use namespace::NamespaceConfig;
pub use privilege::{PrivilegeMode, ResolvedMode, SystemCapabilities};
pub use seccomp::{SeccompFilter, SeccompProfile};
