//! Facts about the host.

use vstd::prelude::*;

verus! {

/// A snapshot of the host that components are matched against.
#[derive(Debug)]
pub struct EnvFacts {
    /// Operating system family, such as `linux`.
    pub os: String,
    /// CPU architecture.
    pub arch: String,
    /// C library.
    pub libc: Option<String>,
    /// Kernel release.
    pub kernel: Option<String>,
    /// Package base, such as `rpm` or `deb`.
    pub pkg_base: Option<String>,
    /// `ID` of the distribution.
    pub os_id: Option<String>,
    /// `VERSION_ID` of the distribution.
    pub os_version: Option<String>,
    /// Whether BTF data is available.
    pub btf: Option<bool>,
    /// Whether CAP_BPF is held.
    pub cap_bpf: Option<bool>,
    /// Container runtime that the process runs under.
    pub container: Option<String>,
    /// User name.
    pub user: String,
    /// Effective user id.
    pub uid: u32,
    /// Home directory.
    pub home: String,
}

} // verus!
