//! The closed set of failure kinds shared by the encoder and the decoder.

use vstd::prelude::*;

verus! {

/// Every kind of failure the codec can report.
#[derive(PartialEq, Eq, Structural, Copy, Clone, Debug)]
pub enum ErrorKind {
    /// Fewer bytes were available than a fixed-width read demands.
    NoLeftSpaceError,
    /// A payload is too large for the wire format's length prefix, or a
    /// size-limit policy layered above this core was exceeded.
    BufferOverMaxError,
    /// A decoded or declared type does not match, a protocol argument count
    /// does not match, or a sequence element has the wrong kind.
    TypeNotMatchError,
    /// Malformed non-binary input, for example schema text.
    ParseError,
    /// A referenced protocol or field definition is absent from the schema.
    MissingError,
    /// A byte payload is not valid UTF-8 where a string was expected.
    StringFormatError,
    /// A lower-level transport failure.
    IoError,
    /// An opaque, caller-supplied error code and detail pair.
    ExtensionError,
}

#[derive(Debug)]
enum ErrorRepr {
    WithDescription(ErrorKind, String),
    WithDescriptionAndDetail(ErrorKind, String, String),
    ExtensionError(String, String),
    IoError(String),
}

/// A failure of the codec: a kind plus a human-readable description.
#[derive(Debug)]
pub struct RpError {
    repr: ErrorRepr,
}

/// The result type used by every fallible operation of the library.
pub type RpResult<T> = Result<T, RpError>;

impl RpError {
    /// The kind of this error, as a spec-level value.
    pub closed spec fn spec_kind(&self) -> ErrorKind {
        match self.repr {
            ErrorRepr::WithDescription(kind, _) => kind,
            ErrorRepr::WithDescriptionAndDetail(kind, _, _) => kind,
            ErrorRepr::ExtensionError(_, _) => ErrorKind::ExtensionError,
            ErrorRepr::IoError(_) => ErrorKind::IoError,
        }
    }

    /// Builds an error of the given kind with a short description.
    pub fn new(kind: ErrorKind, desc: &str) -> (r: RpError)
        ensures
            r.spec_kind() == kind,
            r.spec_extension_error_code() is None,
            r.spec_extension_error_detail() is None,
    {
        RpError { repr: ErrorRepr::WithDescription(kind, desc.to_owned()) }
    }

    /// Builds an error of the given kind with a description and a detail.
    pub fn with_detail(kind: ErrorKind, desc: &str, detail: String) -> (r: RpError)
        ensures
            r.spec_kind() == kind,
            r.spec_extension_error_code() is None,
            r.spec_extension_error_detail() == Some(detail@),
    {
        RpError { repr: ErrorRepr::WithDescriptionAndDetail(kind, desc.to_owned(), detail) }
    }

    /// Returns the kind of the error.
    #[verifier::when_used_as_spec(spec_kind)]
    pub fn kind(&self) -> (r: ErrorKind)
        ensures
            r == self.spec_kind(),
    {
        match &self.repr {
            ErrorRepr::WithDescription(kind, _) => *kind,
            ErrorRepr::WithDescriptionAndDetail(kind, _, _) => *kind,
            ErrorRepr::ExtensionError(_, _) => ErrorKind::ExtensionError,
            ErrorRepr::IoError(_) => ErrorKind::IoError,
        }
    }

    /// Returns the name of the error category for display purposes.
    pub fn category(&self) -> (r: &'static str)
        ensures
            self.spec_kind() == ErrorKind::NoLeftSpaceError ==> r@ == "no left space error"@,
            self.spec_kind() == ErrorKind::BufferOverMaxError ==> r@ == "buffer over max error"@,
            self.spec_kind() == ErrorKind::TypeNotMatchError ==> r@ == "type not match error"@,
            self.spec_kind() == ErrorKind::ParseError ==> r@ == "parse error"@,
            self.spec_kind() == ErrorKind::MissingError ==> r@ == "missing error"@,
            self.spec_kind() == ErrorKind::StringFormatError ==> r@ == "string format error"@,
            self.spec_kind() == ErrorKind::IoError ==> r@ == "I/O error"@,
            self.spec_kind() == ErrorKind::ExtensionError ==> r@ == "extension error"@,
    {
        match self.kind() {
            ErrorKind::NoLeftSpaceError => "no left space error",
            ErrorKind::BufferOverMaxError => "buffer over max error",
            ErrorKind::TypeNotMatchError => "type not match error",
            ErrorKind::ParseError => "parse error",
            ErrorKind::MissingError => "missing error",
            ErrorKind::StringFormatError => "string format error",
            ErrorKind::IoError => "I/O error",
            ErrorKind::ExtensionError => "extension error",
        }
    }

    /// Indicates that this failure is an I/O failure.
    pub fn is_io_error(&self) -> (r: bool)
        ensures
            r == (self.spec_kind() == ErrorKind::IoError),
    {
        match self.kind() {
            ErrorKind::IoError => true,
            _ => false,
        }
    }

    /// The code of an extension error, as a spec-level value.
    pub closed spec fn spec_extension_error_code(&self) -> Option<Seq<char>> {
        match self.repr {
            ErrorRepr::ExtensionError(code, _) => Some(code@),
            _ => None,
        }
    }

    /// Returns the extension error code.
    pub fn extension_error_code(&self) -> (r: Option<&str>)
        ensures
            match r {
                Some(code) => self.spec_extension_error_code() == Some(code@),
                None => self.spec_extension_error_code() is None,
            },
    {
        match &self.repr {
            ErrorRepr::ExtensionError(code, _) => Some(code.as_str()),
            _ => None,
        }
    }

    /// The detail text of this error, as a spec-level value.
    pub closed spec fn spec_extension_error_detail(&self) -> Option<Seq<char>> {
        match self.repr {
            ErrorRepr::ExtensionError(_, detail) => Some(detail@),
            ErrorRepr::WithDescriptionAndDetail(_, _, detail) => Some(detail@),
            _ => None,
        }
    }

    /// Returns the extension error detail.
    pub fn extension_error_detail(&self) -> (r: Option<&str>)
        ensures
            match r {
                Some(detail) => self.spec_extension_error_detail() == Some(detail@),
                None => self.spec_extension_error_detail() is None,
            },
    {
        match &self.repr {
            ErrorRepr::ExtensionError(_, detail) => Some(detail.as_str()),
            ErrorRepr::WithDescriptionAndDetail(_, _, detail) => Some(detail.as_str()),
            _ => None,
        }
    }
}

impl PartialEq for RpError {
    /// Two errors are equal when they are of the same shape and kind;
    /// extension errors compare by their code.
    fn eq(&self, other: &RpError) -> (r: bool) {
        match (&self.repr, &other.repr) {
            (ErrorRepr::WithDescription(kind_a, _), ErrorRepr::WithDescription(kind_b, _)) => {
                *kind_a == *kind_b
            },
            (
                ErrorRepr::WithDescriptionAndDetail(kind_a, _, _),
                ErrorRepr::WithDescriptionAndDetail(kind_b, _, _),
            ) => *kind_a == *kind_b,
            (ErrorRepr::ExtensionError(a, _), ErrorRepr::ExtensionError(b, _)) => *a == *b,
            _ => false,
        }
    }
}

impl RpError {
    /// What equality of two errors means: same shape and kind, and for
    /// extension errors the same code.
    pub closed spec fn same_error(&self, other: &RpError) -> bool {
        match (self.repr, other.repr) {
            (ErrorRepr::WithDescription(kind_a, _), ErrorRepr::WithDescription(kind_b, _)) => {
                kind_a == kind_b
            },
            (
                ErrorRepr::WithDescriptionAndDetail(kind_a, _, _),
                ErrorRepr::WithDescriptionAndDetail(kind_b, _, _),
            ) => kind_a == kind_b,
            (ErrorRepr::ExtensionError(a, _), ErrorRepr::ExtensionError(b, _)) => a@ == b@,
            _ => false,
        }
    }
}

impl vstd::std_specs::cmp::PartialEqSpecImpl for RpError {
    open spec fn obeys_eq_spec() -> bool {
        true
    }

    open spec fn eq_spec(&self, other: &RpError) -> bool {
        self.same_error(other)
    }
}

/// Builds an opaque, caller-supplied error from a code and an optional detail.
pub fn make_extension_error(code: &str, detail: Option<&str>) -> (r: RpError)
    ensures
        r.spec_kind() == ErrorKind::ExtensionError,
        r.spec_extension_error_code() == Some(code@),
        match detail {
            Some(x) => r.spec_extension_error_detail() == Some(x@),
            None => r.spec_extension_error_detail() == Some(
                "Unknown extension error encountered"@,
            ),
        },
{
    RpError {
        repr: ErrorRepr::ExtensionError(
            code.to_owned(),
            match detail {
                Some(x) => x.to_owned(),
                None => "Unknown extension error encountered".to_owned(),
            },
        ),
    }
}

} // verus!
