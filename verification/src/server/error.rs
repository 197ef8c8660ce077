//! The error taxonomy of the server and its collaborators.
//!
//! Per-request errors are rendered by the shell as an HTTP 500 response whose
//! body is the error's message; startup errors abort before the server binds.

use vstd::prelude::*;

verus! {

/// Everything that can go wrong while serving, watching or supervising.
#[derive(Debug)]
pub enum Error {
    /// The served root does not exist or cannot be canonicalized.
    InvalidRootDir(String),
    /// A directory read or file read failed.
    IoError(String),
    /// The directory-index template could not be rendered.
    TemplateRenderError(String),
    /// An HTTP response could not be constructed.
    HttpError(String),
    /// The filesystem would not report a file's size.
    FileMetadataError(String),
    /// A file read yielded fewer bytes than its reported size.
    FileReadBufferOverflow(String),
    /// The filesystem watch subsystem failed; logged, never fatal.
    WatcherError(String),
    /// No bindable port was found in the fallback ranges.
    PortExhausted,
    /// The external CSS compiler exited abnormally or failed to launch.
    ChildProcessError(String),
    /// The compiler's input and output files are the same path.
    SameInputOutput,
    /// The compiler's input file does not exist.
    InputFileMissing(String),
    /// `tailwind.config.js` is missing from the project root.
    ConfigMissing(String),
    /// The directory a new project would be scaffolded into already exists.
    ProjectDirExists(String),
    /// A required executable was not found on the search path.
    MissingDependency(String),
    /// The host architecture has no published compiler binary.
    UnsupportedArch(String),
}

/// The message each error renders to, over the views of its payloads.
pub open spec fn message_of(e: Error) -> Seq<char> {
    match e {
        Error::InvalidRootDir(p) => "Invalid root dir path: "@ + p@,
        Error::IoError(m) => "IO error: "@ + m@,
        Error::TemplateRenderError(m) => "Unable to render template: "@ + m@,
        Error::HttpError(m) => "HTTP error: "@ + m@,
        Error::FileMetadataError(p) => "Unable to get metadata for file, path: "@ + p@,
        Error::FileReadBufferOverflow(p) => "File larger than metadata reported, path: "@ + p@,
        Error::WatcherError(m) => "Watcher error: "@ + m@,
        Error::PortExhausted => "Unable to find available port"@,
        Error::ChildProcessError(m) => "failed to run tailwind: "@ + m@,
        Error::SameInputOutput => "input and output files cannot be the same"@,
        Error::InputFileMissing(p) => "input file ("@ + p@ + ") does not exist"@,
        Error::ConfigMissing(r) => "tailwind.config.js does not exist in "@ + r@,
        Error::ProjectDirExists(n) => "directory "@ + n@
            + "/ already exists, please try a different project name"@,
        Error::MissingDependency(n) => n@ + " not found in PATH"@,
        Error::UnsupportedArch(a) => "Unsupported architecture: "@ + a@,
    }
}

impl Error {
    /// Renders the error for an HTTP 500 body or the process log.
    pub fn message(&self) -> (r: String)
        ensures
            r@ == message_of(*self),
    {
        match self {
            Error::InvalidRootDir(p) => String::from_str("Invalid root dir path: ").concat(
                p.as_str(),
            ),
            Error::IoError(m) => String::from_str("IO error: ").concat(m.as_str()),
            Error::TemplateRenderError(m) => String::from_str("Unable to render template: ").concat(
                m.as_str(),
            ),
            Error::HttpError(m) => String::from_str("HTTP error: ").concat(m.as_str()),
            Error::FileMetadataError(p) => String::from_str(
                "Unable to get metadata for file, path: ",
            ).concat(p.as_str()),
            Error::FileReadBufferOverflow(p) => String::from_str(
                "File larger than metadata reported, path: ",
            ).concat(p.as_str()),
            Error::WatcherError(m) => String::from_str("Watcher error: ").concat(m.as_str()),
            Error::PortExhausted => String::from_str("Unable to find available port"),
            Error::ChildProcessError(m) => String::from_str("failed to run tailwind: ").concat(
                m.as_str(),
            ),
            Error::SameInputOutput => String::from_str("input and output files cannot be the same"),
            Error::InputFileMissing(p) => String::from_str("input file (").concat(p.as_str())
                .concat(") does not exist"),
            Error::ConfigMissing(r) => String::from_str("tailwind.config.js does not exist in ")
                .concat(r.as_str()),
            Error::ProjectDirExists(n) => String::from_str("directory ").concat(n.as_str()).concat(
                "/ already exists, please try a different project name",
            ),
            Error::MissingDependency(n) => n.clone().concat(" not found in PATH"),
            Error::UnsupportedArch(a) => String::from_str("Unsupported architecture: ").concat(
                a.as_str(),
            ),
        }
    }
}

} // verus!
