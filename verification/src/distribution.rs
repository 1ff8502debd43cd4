//! Distribution artifacts.

use vstd::prelude::*;

verus! {

/// Form in which a component is published.
#[derive(Clone, Copy, PartialEq, Eq, Structural, Debug)]
pub enum ArtifactType {
    /// Gzip-compressed tar archive.
    TarGz,
    /// A single executable.
    Binary,
    /// RPM package.
    Rpm,
    /// Debian package.
    Deb,
    /// Zip archive.
    Zip,
    /// OCI reference.
    Oci,
    /// A single file.
    File,
}

/// One published artifact, a row of the index of a repository.
#[derive(Debug)]
pub struct DistributionEntry {
    /// Component, by the name of its package.
    pub component: String,
    /// Version.
    pub version: String,
    /// Form.
    pub artifact_type: ArtifactType,
    /// Address: absolute, relative to the index, or empty where it follows from
    /// the layout of the repository.
    pub url: String,
    /// Operating system family.
    pub os: String,
    /// CPU architecture.
    pub arch: String,
    /// C library.
    pub libc: Option<String>,
    /// Digest.
    pub sha256: Option<String>,
}

/// What is looked for in an index.
#[derive(Debug)]
pub struct ResolveQuery {
    /// Component, by the name of its package.
    pub component: String,
    /// Version; the latest where it is left out.
    pub version: Option<String>,
    /// Channel; that of the index where it is left out.
    pub channel: Option<String>,
    /// Install mode.
    pub install_mode: String,
    /// Operating system family.
    pub os: String,
    /// CPU architecture.
    pub arch: String,
    /// C library.
    pub libc: Option<String>,
    /// Package base.
    pub pkg_base: Option<String>,
    /// Forms in order of preference; empty where there is none.
    pub preferred_types: Vec<ArtifactType>,
}

impl ArtifactType {
    /// How the form is written in an index.
    pub open spec fn wire(self) -> Seq<char> {
        match self {
            ArtifactType::TarGz => "tar_gz"@,
            ArtifactType::Binary => "binary"@,
            ArtifactType::Rpm => "rpm"@,
            ArtifactType::Deb => "deb"@,
            ArtifactType::Zip => "zip"@,
            ArtifactType::Oci => "oci"@,
            ArtifactType::File => "file"@,
        }
    }

    /// How the name of a file of that form ends. Single files ship bare; an OCI
    /// reference is no file.
    pub open spec fn ending(self) -> Seq<char> {
        match self {
            ArtifactType::TarGz => ".tar.gz"@,
            ArtifactType::Zip => ".zip"@,
            ArtifactType::Rpm => ".rpm"@,
            ArtifactType::Deb => ".deb"@,
            ArtifactType::Binary | ArtifactType::File | ArtifactType::Oci => ""@,
        }
    }
}

} // verus!
