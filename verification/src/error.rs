//! The library's error type.

use vstd::prelude::*;

verus! {

/// An I/O error of the operating system, carried through unread.
#[verifier::external_type_specification]
#[verifier::external_body]
pub struct ExIoError(std::io::Error);

/// An error number of the operating system, carried through unread.
#[verifier::external_type_specification]
#[verifier::external_body]
pub struct ExErrno(nix::errno::Errno);

/// A JSON error, carried through unread.
#[verifier::external_type_specification]
#[verifier::external_body]
pub struct ExJsonError(serde_json::Error);

/// What can go wrong while reading cgroup data or running a plugin.
#[derive(Debug)]
pub enum OomdError {
    /// No cgroup hierarchy is mounted, or a cgroup does not exist.
    CgroupNotFound(String),
    /// A path that does not lie below the hierarchy root.
    InvalidPath(String),
    /// A hierarchy of a kind that an operation cannot serve.
    UnsupportedVersion(crate::cgroup::types::CgroupVersion),
    /// Pressure data is absent for the named cgroup.
    PressureUnavailable(String),
    /// A file could not be read or written.
    Io(std::io::Error),
    /// Text that does not follow its format.
    Parse(String),
    /// A system call failed.
    Nix(nix::errno::Errno),
    /// A JSON document could not be read.
    Json(serde_json::Error),
    /// A plugin reported a failure.
    Plugin(String),
    /// A plugin's settings are invalid.
    Config(String),
    /// Any other failure of the system.
    System(String),
}

/// `std::io::Error` shown through `Display`: its text. Nothing is claimed of
/// the text.
#[verifier::external_body]
fn io_error_text(e: &std::io::Error) -> String {
    format!("{}", e)
}

/// `nix::errno::Errno` shown through `Display`: its text. Nothing is claimed
/// of the text.
#[verifier::external_body]
pub(crate) fn errno_text(e: &nix::errno::Errno) -> String {
    format!("{}", e)
}

/// `serde_json::Error` shown through `Display`: its text. Nothing is claimed
/// of the text.
#[verifier::external_body]
fn json_error_text(e: &serde_json::Error) -> String {
    format!("{}", e)
}

impl OomdError {
    /// What every message of this kind of error begins with.
    pub open spec fn heading(self) -> Seq<char> {
        match self {
            OomdError::CgroupNotFound(_) => "Cgroup not found: "@,
            OomdError::InvalidPath(_) => "Invalid cgroup path: "@,
            OomdError::UnsupportedVersion(_) => "Unsupported cgroup version: "@,
            OomdError::PressureUnavailable(_) => "Pressure data unavailable for "@,
            OomdError::Io(_) => "IO error: "@,
            OomdError::Parse(_) => "Parse error: "@,
            OomdError::Nix(_) => "Nix error: "@,
            OomdError::Json(_) => "JSON error: "@,
            OomdError::Plugin(_) => "Plugin error: "@,
            OomdError::Config(_) => "Config error: "@,
            OomdError::System(_) => "System error: "@,
        }
    }

    /// The text that an error carries, where it carries one; for an
    /// unsupported version the name of the arrangement.
    pub open spec fn detail(self) -> Option<Seq<char>> {
        match self {
            OomdError::CgroupNotFound(s) => Some(s@),
            OomdError::InvalidPath(s) => Some(s@),
            OomdError::PressureUnavailable(s) => Some(s@),
            OomdError::Parse(s) => Some(s@),
            OomdError::Plugin(s) => Some(s@),
            OomdError::Config(s) => Some(s@),
            OomdError::System(s) => Some(s@),
            OomdError::UnsupportedVersion(v) => Some(
                match v {
                    crate::cgroup::types::CgroupVersion::V1 { .. } => "V1"@,
                    crate::cgroup::types::CgroupVersion::V2 { .. } => "V2"@,
                    crate::cgroup::types::CgroupVersion::Hybrid { .. } => "Hybrid"@,
                },
            ),
            _ => None,
        }
    }

    /// The message of the error: the heading of its kind, then the text it
    /// carries. For an error of the operating system or of JSON the text
    /// after the heading is what that error shows of itself.
    pub fn message(&self) -> (r: String)
        ensures
            crate::text::starts_with(r@, self.heading()),
            self.detail() is Some ==> r@ == self.heading() + self.detail()->0,
    {
        let mut out: Vec<char> = Vec::new();
        match self {
            OomdError::CgroupNotFound(s) => {
                crate::number::write_str(&mut out, "Cgroup not found: ");
                crate::number::write_str(&mut out, s.as_str());
            },
            OomdError::InvalidPath(s) => {
                crate::number::write_str(&mut out, "Invalid cgroup path: ");
                crate::number::write_str(&mut out, s.as_str());
            },
            OomdError::UnsupportedVersion(v) => {
                crate::number::write_str(&mut out, "Unsupported cgroup version: ");
                let name = match v {
                    crate::cgroup::types::CgroupVersion::V1 { .. } => "V1",
                    crate::cgroup::types::CgroupVersion::V2 { .. } => "V2",
                    crate::cgroup::types::CgroupVersion::Hybrid { .. } => "Hybrid",
                };
                crate::number::write_str(&mut out, name);
            },
            OomdError::PressureUnavailable(s) => {
                crate::number::write_str(&mut out, "Pressure data unavailable for ");
                crate::number::write_str(&mut out, s.as_str());
            },
            OomdError::Io(e) => {
                crate::number::write_str(&mut out, "IO error: ");
                let t = io_error_text(e);
                crate::number::write_str(&mut out, t.as_str());
            },
            OomdError::Parse(s) => {
                crate::number::write_str(&mut out, "Parse error: ");
                crate::number::write_str(&mut out, s.as_str());
            },
            OomdError::Nix(e) => {
                crate::number::write_str(&mut out, "Nix error: ");
                let t = errno_text(e);
                crate::number::write_str(&mut out, t.as_str());
            },
            OomdError::Json(e) => {
                crate::number::write_str(&mut out, "JSON error: ");
                let t = json_error_text(e);
                crate::number::write_str(&mut out, t.as_str());
            },
            OomdError::Plugin(s) => {
                crate::number::write_str(&mut out, "Plugin error: ");
                crate::number::write_str(&mut out, s.as_str());
            },
            OomdError::Config(s) => {
                crate::number::write_str(&mut out, "Config error: ");
                crate::number::write_str(&mut out, s.as_str());
            },
            OomdError::System(s) => {
                crate::number::write_str(&mut out, "System error: ");
                crate::number::write_str(&mut out, s.as_str());
            },
        }
        proof {
            let h = self.heading();
            assert(out@.take(h.len() as int) =~= h);
        }
        crate::text::string_of(&out)
    }
}

} // verus!
