//! Finding a compiler to use.
//!
//! A compiler may be embedded in the tool as an archive. It is unpacked once
//! into a directory of its own below the platform's cache directory and used
//! from there on every later run. Where that fails, or what was unpacked
//! holds no compiler, the system's compiler is used. Where that is missing
//! too, there is no toolchain. This module decides; unpacking and probing is
//! the caller's part.

use vstd::prelude::*;
use vstd::string::StringExecFns;
use crate::compile::{Compiler, Probe};
use crate::error::LobError;
use crate::path::{join, join_path};

verus! {

/// What is to be done about the embedded toolchain before it is used.
#[derive(Clone, Copy, Debug, PartialEq, Eq, Structural)]
pub enum Extraction {
    /// Its directory is there: use what it holds.
    AlreadyExtracted,
    /// Its directory is missing: unpack the archive.
    Extract,
    /// Its directory is missing and the archive is empty: this tool was
    /// built without a toolchain.
    Unavailable,
}

/// What is to be done about the embedded toolchain. A directory that is
/// there counts as unpacked, whatever it holds, and is never unpacked again.
pub open spec fn extraction_for(dir_exists: bool, archive_len: nat) -> Extraction {
    if dir_exists {
        Extraction::AlreadyExtracted
    } else if archive_len == 0 {
        Extraction::Unavailable
    } else {
        Extraction::Extract
    }
}

/// The steps of unpacking that can fail.
#[derive(Clone, Copy, Debug, PartialEq, Eq, Structural)]
pub enum ExtractionStep {
    CreateDirectory,
    Decompress,
    Unpack,
    ReadPermissions,
    SetPermissions,
}

/// What is said when a step of unpacking fails, before the reason.
pub open spec fn step_failure(step: ExtractionStep) -> Seq<char> {
    match step {
        ExtractionStep::CreateDirectory => "Failed to create toolchain directory: "@,
        ExtractionStep::Decompress => "Failed to decompress toolchain: "@,
        ExtractionStep::Unpack => "Failed to extract toolchain: "@,
        ExtractionStep::ReadPermissions => "Failed to read rustc permissions: "@,
        ExtractionStep::SetPermissions => "Failed to set rustc permissions: "@,
    }
}

/// The toolchain that is embedded in the tool, in the directory into which
/// it is unpacked.
#[derive(Debug)]
pub struct EmbeddedToolchain {
    toolchain_dir: String,
}

impl EmbeddedToolchain {
    /// The directory that holds the unpacked toolchain.
    pub closed spec fn dir(&self) -> Seq<char> {
        self.toolchain_dir@
    }

    /// The directory of the toolchain below the platform's cache directory
    /// `base`. Without a cache directory there is no place for it.
    pub fn toolchain_dir(base: Option<&str>) -> (r: Result<String, LobError>)
        ensures
            match base {
                Some(dir) => r matches Ok(path) && path@ == join(dir@, "lob/toolchain"@),
                None => r matches Err(e) && e matches LobError::Toolchain(m) && m@
                    == "No cache directory available"@,
            },
    {
        match base {
            Some(dir) => Ok(join_path(dir, "lob/toolchain")),
            None => Err(LobError::Toolchain(String::from_str("No cache directory available"))),
        }
    }

    /// What is to be done about the toolchain's directory before the
    /// toolchain is used.
    pub fn extraction(dir_exists: bool, archive_len: usize) -> (plan: Extraction)
        ensures
            plan == extraction_for(dir_exists, archive_len as nat),
    {
        if dir_exists {
            Extraction::AlreadyExtracted
        } else if archive_len == 0 {
            Extraction::Unavailable
        } else {
            Extraction::Extract
        }
    }

    /// The error for a tool that was built without a toolchain.
    pub fn unavailable() -> (e: LobError)
        ensures
            e matches LobError::Toolchain(m) && m@
                == "No embedded toolchain available. This binary was built without an embedded toolchain."@,
    {
        LobError::Toolchain(
            String::from_str(
                "No embedded toolchain available. This binary was built without an embedded toolchain.",
            ),
        )
    }

    /// The error for a step of unpacking that failed for `reason`.
    pub fn extraction_failed(step: ExtractionStep, reason: &str) -> (e: LobError)
        ensures
            e matches LobError::Toolchain(m) && m@ == step_failure(step) + reason@,
    {
        let said = match step {
            ExtractionStep::CreateDirectory => "Failed to create toolchain directory: ",
            ExtractionStep::Decompress => "Failed to decompress toolchain: ",
            ExtractionStep::Unpack => "Failed to extract toolchain: ",
            ExtractionStep::ReadPermissions => "Failed to read rustc permissions: ",
            ExtractionStep::SetPermissions => "Failed to set rustc permissions: ",
        };
        LobError::Toolchain(String::from_str(said).concat(reason))
    }

    /// The toolchain in `toolchain_dir`, once that directory is there.
    pub fn ensure_extracted(toolchain_dir: String) -> (t: Self)
        ensures
            t.dir() == toolchain_dir@,
    {
        EmbeddedToolchain { toolchain_dir }
    }

    /// Where the toolchain's compiler lies.
    pub fn rustc_path(&self) -> (path: String)
        ensures
            path@ == join(self.dir(), "bin/rustc"@),
    {
        join_path(self.toolchain_dir.as_str(), "bin/rustc")
    }

    /// The root of the standard library that the toolchain's compiler uses.
    pub fn sysroot(&self) -> (path: String)
        ensures
            path@ == self.dir(),
    {
        self.toolchain_dir.clone()
    }

    /// Whether the toolchain can be used: whether its compiler is there.
    /// `rustc_exists` answers for `rustc_path`.
    pub fn is_valid(&self, rustc_exists: bool) -> (valid: bool)
        ensures
            valid == rustc_exists,
    {
        rustc_exists
    }

    /// The toolchain's compiler, if the toolchain can be used.
    pub fn compiler(&self, rustc_exists: bool) -> (r: Option<Compiler>)
        ensures
            r is Some <==> rustc_exists,
            r matches Some(c) ==> c.program() == join(self.dir(), "bin/rustc"@) && c.library_root()
                == Some(self.dir()),
    {
        if self.is_valid(rustc_exists) {
            Some(Compiler::custom(self.rustc_path(), Some(self.sysroot())))
        } else {
            None
        }
    }
}

/// Settles on a compiler: the embedded one where it can be used, else the
/// system's. `embedded` is the embedded toolchain's compiler, if there is a
/// usable one; `system` is the probe of the system's compiler, which counts
/// only where there is none.
pub fn initialize_compiler(embedded: Option<Compiler>, system: Probe) -> (r: Result<
    Compiler,
    LobError,
>)
    ensures
        match embedded {
            Some(c) => r == Ok::<Compiler, LobError>(c),
            None => match system {
                Probe::Works => r matches Ok(c) && c.program() == "rustc"@ && c.library_root()
                    is None,
                Probe::Failed => r matches Err(e) && e matches LobError::Toolchain(m) && m@
                    == "rustc not working properly"@,
                Probe::NotFound => r matches Err(e) && e matches LobError::Toolchain(m) && m@
                    == "rustc not found. Please install Rust from https://rustup.rs/"@,
            },
        },
{
    match embedded {
        Some(c) => Ok(c),
        None => Compiler::system(system),
    }
}

} // verus!
