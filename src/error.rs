//! Error type of deployment operations.

use vstd::prelude::*;

verus! {

#[verifier::external_type_specification]
#[verifier::external_body]
pub struct ExIoError(std::io::Error);

#[verifier::external_type_specification]
#[verifier::external_body]
pub struct ExXmlError(quick_xml::Error);

/// The operating system's error number for "no space left on device".
pub const ENOSPC: i32 = 28;

/// What can go wrong while deploying; each variant carries the paths involved.
#[derive(Debug)]
#[allow(inconsistent_fields)]
pub enum DeployError {
    /// The deployment root does not exist.
    RootNotFound { path: String },
    /// The device ran out of space while writing `path`.
    DiskFull { path: String },
    /// A requested theme does not exist.
    ThemeNotFound { theme: String },
    /// A theme descriptor could not be read.
    InvalidThemeXml { path: String, source: quick_xml::Error },
    /// Copying `src` to `dst` failed.
    CopyFailed { src: String, dst: String, source: std::io::Error },
    /// A directory could not be created.
    CreateDirFailed { path: String, source: std::io::Error },
    /// The external build tool exited unsuccessfully.
    MagentoFailed { code: i32, stderr: String },
    /// A locale is not in `xx_YY` form.
    InvalidLocale { locale: String },
    /// The run was cancelled.
    Cancelled,
    /// Any other I/O failure.
    Io(std::io::Error),
}

impl From<std::io::Error> for DeployError {
    fn from(e: std::io::Error) -> DeployError {
        DeployError::Io(e)
    }
}

impl vstd::std_specs::convert::FromSpecImpl<std::io::Error> for DeployError {
    open spec fn obeys_from_spec() -> bool {
        true
    }

    open spec fn from_spec(v: std::io::Error) -> DeployError {
        DeployError::Io(v)
    }
}

/// The error for a directory that could not be created, given the operating system's
/// error number: out of space gives `DiskFull`, anything else `CreateDirFailed`.
pub fn dir_error(path: String, os_code: Option<i32>, source: std::io::Error) -> (r: DeployError)
    ensures
        r == (if os_code == Some(ENOSPC) {
            DeployError::DiskFull { path }
        } else {
            DeployError::CreateDirFailed { path, source }
        }),
{
    if os_code == Some(ENOSPC) {
        DeployError::DiskFull { path }
    } else {
        DeployError::CreateDirFailed { path, source }
    }
}

/// The error for a destination file that could not be created or written, given the
/// operating system's error number: out of space gives `DiskFull` for the destination,
/// anything else `CopyFailed`.
pub fn file_error(src: String, dst: String, os_code: Option<i32>, source: std::io::Error) -> (r:
    DeployError)
    ensures
        r == (if os_code == Some(ENOSPC) {
            DeployError::DiskFull { path: dst }
        } else {
            DeployError::CopyFailed { src, dst, source }
        }),
{
    if os_code == Some(ENOSPC) {
        DeployError::DiskFull { path: dst }
    } else {
        DeployError::CopyFailed { src, dst, source }
    }
}

} // verus!
