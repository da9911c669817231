//! The error values of the store and of the importer.

use vstd::prelude::*;

verus! {

/// What went wrong while loading or saving the store.
#[derive(Clone, Copy, Debug, PartialEq, Eq, Structural)]
pub enum DBErrorKind {
    /// The file system refused a read, a write or a copy.
    Io,
    /// A stored value is no card, or a card could not be written out.
    Serialization,
}

/// An error of the store, with the text shown to the user.
#[derive(Debug)]
pub struct DBError {
    pub kind: DBErrorKind,
    pub message: String,
}

/// What went wrong during an import.
#[derive(Clone, Copy, Debug, PartialEq, Eq, Structural)]
pub enum ImportErrorKind {
    /// The file system refused a read, a write or a copy.
    Io,
    /// The store could not write a card out.
    Serialization,
    /// The document is not well-formed, or its text cannot be decoded.
    Parse,
    /// A collaborator outside the importer failed.
    Other,
}

/// An error of an import, with the text shown to the user.
#[derive(Debug)]
pub struct ImportError {
    pub kind: ImportErrorKind,
    pub message: String,
}

/// The text `prefix` followed by `detail`.
fn prefixed(prefix: &str, detail: &str) -> (text: String)
    ensures
        text@ == prefix@ + detail@,
{
    let mut text = String::from_str(prefix);
    text.append(detail);
    text
}

impl DBError {
    /// An error of the file system, described by `detail`.
    pub fn io(detail: &str) -> (e: DBError)
        ensures
            e.kind == DBErrorKind::Io,
            e.message@ == "IO error: "@ + detail@,
    {
        DBError { kind: DBErrorKind::Io, message: prefixed("IO error: ", detail) }
    }

    /// An error of the card encoding, described by `detail`.
    pub fn serialization(detail: &str) -> (e: DBError)
        ensures
            e.kind == DBErrorKind::Serialization,
            e.message@ == "Serde error: "@ + detail@,
    {
        DBError { kind: DBErrorKind::Serialization, message: prefixed("Serde error: ", detail) }
    }

    /// The text shown to the user.
    pub fn message(&self) -> (text: String)
        ensures
            text@ == self.message@,
    {
        self.message.clone()
    }
}

impl ImportError {
    /// An error of the file system, described by `detail`.
    pub fn io(detail: &str) -> (e: ImportError)
        ensures
            e.kind == ImportErrorKind::Io,
            e.message@ == "IO error: "@ + detail@,
    {
        ImportError { kind: ImportErrorKind::Io, message: prefixed("IO error: ", detail) }
    }

    /// A failure of a collaborator, described by `detail`.
    pub fn other(detail: &str) -> (e: ImportError)
        ensures
            e.kind == ImportErrorKind::Other,
            e.message@ == "Other error: "@ + detail@,
    {
        ImportError { kind: ImportErrorKind::Other, message: prefixed("Other error: ", detail) }
    }

    /// Bytes that are captured as text but are no UTF-8, described by
    /// `detail`.
    pub fn invalid_utf8(detail: &str) -> (e: ImportError)
        ensures
            e.kind == ImportErrorKind::Parse,
            e.message@ == "From Utf8 error: "@ + detail@,
    {
        ImportError {
            kind: ImportErrorKind::Parse,
            message: prefixed("From Utf8 error: ", detail),
        }
    }

    /// Text that cannot be decoded, described by `detail`.
    pub fn encoding(detail: &str) -> (e: ImportError)
        ensures
            e.kind == ImportErrorKind::Parse,
            e.message@ == "Encoding error: "@ + detail@,
    {
        ImportError { kind: ImportErrorKind::Parse, message: prefixed("Encoding error: ", detail) }
    }

    /// A document that is not well-formed; `detail` is the reader's own
    /// description and becomes the whole message.
    pub fn syntax(detail: &str) -> (e: ImportError)
        ensures
            e.kind == ImportErrorKind::Parse,
            e.message@ == detail@,
    {
        ImportError { kind: ImportErrorKind::Parse, message: detail.to_owned() }
    }

    /// The text shown to the user.
    pub fn message(&self) -> (text: String)
        ensures
            text@ == self.message@,
    {
        self.message.clone()
    }
}

/// The kind under which an import reports an error of the store.
pub open spec fn import_kind_of(kind: DBErrorKind) -> ImportErrorKind {
    match kind {
        DBErrorKind::Io => ImportErrorKind::Io,
        DBErrorKind::Serialization => ImportErrorKind::Serialization,
    }
}

impl ImportError {
    /// An error of the store, met while an import saved its result. The
    /// message keeps the store's text behind the importer's prefix.
    pub fn from_store(e: &DBError) -> (r: ImportError)
        ensures
            r.kind == import_kind_of(e.kind),
            r.message@ == "Encoding error: "@ + e.message@,
    {
        let kind = match e.kind {
            DBErrorKind::Io => ImportErrorKind::Io,
            DBErrorKind::Serialization => ImportErrorKind::Serialization,
        };
        ImportError { kind, message: prefixed("Encoding error: ", e.message.as_str()) }
    }
}

} // verus!
