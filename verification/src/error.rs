//! Bridge errors with severity classification.

use vstd::prelude::*;

verus! {

/// The `Debug` rendering of a string: quoted, with std's escapes.
pub uninterp spec fn str_debug(s: Seq<char>) -> Seq<char>;

/// `<str as Debug>::fmt`, through `format!`: the string quoted, with std's
/// escapes. The escaping itself is named, not stated.
#[verifier::external_body]
fn debug_str(s: &str) -> (r: String)
    ensures
        r@ == str_debug(s@),
{
    format!("{:?}", s)
}

/// Severity level attached to an [`Error`].
#[derive(Debug, Clone, Copy, PartialEq, Eq, Structural)]
pub enum Severity {
    Info,
    Warning,
    Recoverable,
    Fatal,
}

/// Specific failure category for an [`Error`].
#[derive(Debug, Clone)]
pub enum ErrorKind {
    Unsupported(&'static str),
    NoCompatibleDevice,
    SurfaceNotAttached,
    SurfaceOutdated,
    SurfaceLost,
    SurfaceTimeout,
    SurfaceOccluded,
    ResourceNotFound(&'static str),
    InvalidDescriptor(&'static str),
    TextureUploadFailed(&'static str),
    PipelineCreationFailed(&'static str),
    Backend(&'static str),
}

/// Bridge error with a [`ErrorKind`] and [`Severity`].
#[derive(Debug, Clone)]
pub struct Error {
    /// Failure category.
    pub kind: ErrorKind,
    /// Reported severity.
    pub severity: Severity,
}

impl Error {
    /// Creates an error with the given `kind` and `severity`.
    pub fn new(kind: ErrorKind, severity: Severity) -> (e: Self)
        ensures
            e.kind == kind,
            e.severity == severity,
    {
        Self { kind, severity }
    }

    /// Creates an error with [`Severity::Fatal`].
    pub fn fatal(kind: ErrorKind) -> (e: Self)
        ensures
            e.kind == kind,
            e.severity == Severity::Fatal,
    {
        Self::new(kind, Severity::Fatal)
    }

    /// Creates an error with [`Severity::Recoverable`].
    pub fn recoverable(kind: ErrorKind) -> (e: Self)
        ensures
            e.kind == kind,
            e.severity == Severity::Recoverable,
    {
        Self::new(kind, Severity::Recoverable)
    }
}

/// An error of `kind` with [`Severity::Recoverable`].
pub open spec fn recoverable_error(kind: ErrorKind) -> Error {
    Error { kind, severity: Severity::Recoverable }
}

/// An error of `kind` with [`Severity::Fatal`].
pub open spec fn fatal_error(kind: ErrorKind) -> Error {
    Error { kind, severity: Severity::Fatal }
}

/// The error reported when an operation needs a surface and none is attached.
pub fn surface_not_attached_error() -> (e: Error)
    ensures
        e == (Error { kind: ErrorKind::SurfaceNotAttached, severity: Severity::Fatal }),
{
    Error::fatal(ErrorKind::SurfaceNotAttached)
}

/// Name of a severity, as `Debug` prints it.
pub open spec fn severity_text(severity: Severity) -> Seq<char> {
    match severity {
        Severity::Info => "Info"@,
        Severity::Warning => "Warning"@,
        Severity::Recoverable => "Recoverable"@,
        Severity::Fatal => "Fatal"@,
    }
}

/// Variant name of a kind and its message, if it carries one.
pub open spec fn kind_parts(kind: ErrorKind) -> (Seq<char>, Option<Seq<char>>) {
    match kind {
        ErrorKind::Unsupported(m) => ("Unsupported"@, Some(m@)),
        ErrorKind::NoCompatibleDevice => ("NoCompatibleDevice"@, None),
        ErrorKind::SurfaceNotAttached => ("SurfaceNotAttached"@, None),
        ErrorKind::SurfaceOutdated => ("SurfaceOutdated"@, None),
        ErrorKind::SurfaceLost => ("SurfaceLost"@, None),
        ErrorKind::SurfaceTimeout => ("SurfaceTimeout"@, None),
        ErrorKind::SurfaceOccluded => ("SurfaceOccluded"@, None),
        ErrorKind::ResourceNotFound(m) => ("ResourceNotFound"@, Some(m@)),
        ErrorKind::InvalidDescriptor(m) => ("InvalidDescriptor"@, Some(m@)),
        ErrorKind::TextureUploadFailed(m) => ("TextureUploadFailed"@, Some(m@)),
        ErrorKind::PipelineCreationFailed(m) => ("PipelineCreationFailed"@, Some(m@)),
        ErrorKind::Backend(m) => ("Backend"@, Some(m@)),
    }
}

/// A kind as `Debug` prints it: the variant name, then its message quoted in
/// parentheses.
pub open spec fn kind_text(kind: ErrorKind) -> Seq<char> {
    match kind_parts(kind).1 {
        Some(m) => kind_parts(kind).0 + "("@ + str_debug(m) + ")"@,
        None => kind_parts(kind).0,
    }
}

impl Error {
    /// Renders the error as `severity: kind`, both as `Debug` prints them.
    pub fn to_string(&self) -> (r: String)
        ensures
            r@ == severity_text(self.severity) + ": "@ + kind_text(self.kind),
    {
        let severity = match self.severity {
            Severity::Info => "Info",
            Severity::Warning => "Warning",
            Severity::Recoverable => "Recoverable",
            Severity::Fatal => "Fatal",
        };
        let (name, message): (&str, Option<&str>) = match &self.kind {
            ErrorKind::Unsupported(m) => ("Unsupported", Some(*m)),
            ErrorKind::NoCompatibleDevice => ("NoCompatibleDevice", None),
            ErrorKind::SurfaceNotAttached => ("SurfaceNotAttached", None),
            ErrorKind::SurfaceOutdated => ("SurfaceOutdated", None),
            ErrorKind::SurfaceLost => ("SurfaceLost", None),
            ErrorKind::SurfaceTimeout => ("SurfaceTimeout", None),
            ErrorKind::SurfaceOccluded => ("SurfaceOccluded", None),
            ErrorKind::ResourceNotFound(m) => ("ResourceNotFound", Some(*m)),
            ErrorKind::InvalidDescriptor(m) => ("InvalidDescriptor", Some(*m)),
            ErrorKind::TextureUploadFailed(m) => ("TextureUploadFailed", Some(*m)),
            ErrorKind::PipelineCreationFailed(m) => ("PipelineCreationFailed", Some(*m)),
            ErrorKind::Backend(m) => ("Backend", Some(*m)),
        };
        let mut out = String::new();
        out.append(severity);
        out.append(": ");
        out.append(name);
        match message {
            Some(m) => {
                let quoted = debug_str(m);
                out.append("(");
                out.append(quoted.as_str());
                out.append(")");
            },
            None => {},
        }
        out
    }
}

} // verus!
