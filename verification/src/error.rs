//! The failures the catalog reports, and how each is shown to a client.

use vstd::prelude::*;

verus! {

/// Everything that can go wrong while a package is inspected, the storage is
/// scanned, or a request is answered.
#[derive(Clone, Copy, Debug, PartialEq, Eq, Structural)]
pub enum Error {
    /// The container holds no application bundle.
    PackageMalformed,
    /// The bundle has no descriptor entry.
    MetadataMissing,
    /// The descriptor is not a readable key-value document.
    MetadataCorrupt,
    /// A required descriptor field is absent or is not text.
    MetadataIncomplete,
    /// No build time can be taken from the bundle's executable entry.
    BinaryEntryMissing,
    /// The storage root could not be enumerated.
    StorageUnavailable,
    /// A request names a package that the catalog does not hold.
    InvalidApp,
    /// A request carries no usable host.
    HostHeader,
    /// The package file could not be opened for transfer.
    AppBinary,
    /// The package file's size could not be determined for transfer.
    AppMetadata,
}

/// The HTTP status that stands for a missing resource.
pub const STATUS_NOT_FOUND: u16 = 404;

/// The HTTP status that stands for a faulty request.
pub const STATUS_BAD_REQUEST: u16 = 400;

/// The HTTP status that stands for a failure on the server's side.
pub const STATUS_INTERNAL_SERVER_ERROR: u16 = 500;

impl Error {
    /// The status under which this error is reported: an unknown package is
    /// "not found", a request without a usable host is the client's fault,
    /// everything else is the server's.
    pub open spec fn status(self) -> u16 {
        match self {
            Error::InvalidApp => STATUS_NOT_FOUND,
            Error::HostHeader => STATUS_BAD_REQUEST,
            _ => STATUS_INTERNAL_SERVER_ERROR,
        }
    }

    /// True of the failures that concern one package only. A scan skips the
    /// package and goes on.
    pub open spec fn is_contained(self) -> bool {
        self is PackageMalformed || self is MetadataMissing || self is MetadataCorrupt
            || self is MetadataIncomplete || self is BinaryEntryMissing
    }

    /// The words that describe this error.
    pub open spec fn text(self) -> Seq<char> {
        match self {
            Error::PackageMalformed => "package holds no application bundle"@,
            Error::MetadataMissing => "bundle descriptor not found"@,
            Error::MetadataCorrupt => "bundle descriptor cannot be read"@,
            Error::MetadataIncomplete => "bundle descriptor lacks a required field"@,
            Error::BinaryEntryMissing => "bundle executable not found"@,
            Error::StorageUnavailable => "apps storage not found"@,
            Error::InvalidApp => "cannot find app"@,
            Error::HostHeader => "invalid host header"@,
            Error::AppBinary => "app binary not found"@,
            Error::AppMetadata => "app metadata not found"@,
        }
    }

    /// The HTTP status under which this error is reported.
    pub fn status_code(&self) -> (code: u16)
        ensures
            code == self.status(),
            code == 404 || code == 400 || code == 500,
            code == 404 <==> *self == Error::InvalidApp,
            code == 400 <==> *self == Error::HostHeader,
    {
        match self {
            Error::InvalidApp => STATUS_NOT_FOUND,
            Error::HostHeader => STATUS_BAD_REQUEST,
            Error::PackageMalformed => STATUS_INTERNAL_SERVER_ERROR,
            Error::MetadataMissing => STATUS_INTERNAL_SERVER_ERROR,
            Error::MetadataCorrupt => STATUS_INTERNAL_SERVER_ERROR,
            Error::MetadataIncomplete => STATUS_INTERNAL_SERVER_ERROR,
            Error::BinaryEntryMissing => STATUS_INTERNAL_SERVER_ERROR,
            Error::StorageUnavailable => STATUS_INTERNAL_SERVER_ERROR,
            Error::AppBinary => STATUS_INTERNAL_SERVER_ERROR,
            Error::AppMetadata => STATUS_INTERNAL_SERVER_ERROR,
        }
    }

    /// Whether a scan may skip the package that failed this way.
    pub fn skips_package(&self) -> (contained: bool)
        ensures
            contained == self.is_contained(),
    {
        match self {
            Error::PackageMalformed => true,
            Error::MetadataMissing => true,
            Error::MetadataCorrupt => true,
            Error::MetadataIncomplete => true,
            Error::BinaryEntryMissing => true,
            _ => false,
        }
    }

    /// The error in words, as a client reads it.
    pub fn message(&self) -> (words: String)
        ensures
            words@ == self.text(),
    {
        let words: &str = match self {
            Error::PackageMalformed => "package holds no application bundle",
            Error::MetadataMissing => "bundle descriptor not found",
            Error::MetadataCorrupt => "bundle descriptor cannot be read",
            Error::MetadataIncomplete => "bundle descriptor lacks a required field",
            Error::BinaryEntryMissing => "bundle executable not found",
            Error::StorageUnavailable => "apps storage not found",
            Error::InvalidApp => "cannot find app",
            Error::HostHeader => "invalid host header",
            Error::AppBinary => "app binary not found",
            Error::AppMetadata => "app metadata not found",
        };
        words.to_owned()
    }
}

} // verus!
