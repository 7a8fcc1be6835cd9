//! Verified core of an iOS application-archive inspector.
//!
//! The library extracts identifying metadata and code-signing fingerprints
//! from an IPA file (a ZIP container holding a signed application bundle).
//! All decision logic lives here, verified: selective archive extraction
//! confined to the bundle container, property-list metadata lookup, icon
//! resolution, parsing of the certificate tool's textual report, and
//! repackaging of the derived artifacts into a fresh ZIP. An unverified
//! driver performs the file, directory and process I/O that the pipeline
//! requests through `pipeline::next_step`.

pub mod archive;
pub mod fsmodel;
pub mod package;
pub mod pathcheck;
pub mod pipeline;
pub mod plist_doc;
pub mod signing;
pub mod text;

use vstd::prelude::*;

verus! {

/// Abstract failure kinds of the pipeline, mirroring the points where a
/// file operation, the archive index, a path computation, an external tool
/// or a parse can fail.
#[derive(Debug, Clone, Copy, PartialEq, Eq, Structural)]
pub enum ErrorKind {
    /// A file create/open/copy/read/write/remove/mkdir operation failed.
    Io,
    /// The archive's central directory could not be read.
    ArchiveFormat,
    /// A filename or parent-directory component was missing.
    PathResolution,
    /// An external tool could not be launched.
    ToolLaunch,
    /// An external tool ran but signalled failure.
    ToolFailed,
    /// A document or tool report had an unexpected shape.
    Parse,
    /// The driver handed an event that the current state does not await.
    Protocol,
}

} // verus!
