//! The errors of the library. Each error type has a view, in which the texts
//! it carries are sequences of characters, and a message for the user.

use vstd::prelude::*;
use vstd::string::*;
use crate::text::{decimal, push_decimal};

verus! {

/// The kinds of failure that the operating system reports for a file
/// operation, as far as the messages tell them apart.
#[derive(Clone, Copy, Debug, PartialEq, Eq)]
pub enum IoFailureKind {
    NotFound,
    PermissionDenied,
    AlreadyExists,
    InvalidInput,
    InvalidData,
    TimedOut,
    WriteZero,
    Interrupted,
    UnexpectedEof,
    OutOfMemory,
    Other,
}

/// A failed file operation: its kind, and the text that the operating system
/// gave for it.
#[derive(Debug)]
pub struct IoFailure {
    pub kind: IoFailureKind,
    pub detail: String,
}

/// What an `IoFailure` stands for.
pub struct IoFault {
    pub kind: IoFailureKind,
    pub detail: Seq<char>,
}

impl View for IoFailure {
    type V = IoFault;

    open spec fn view(&self) -> IoFault {
        IoFault { kind: self.kind, detail: self.detail@ }
    }
}

impl IoFailure {
    /// A failure of the kind given, with the text of the operating system.
    pub fn new(kind: IoFailureKind, detail: String) -> (failure: IoFailure)
        ensures
            failure@ == (IoFault { kind, detail: detail@ }),
    {
        IoFailure { kind, detail }
    }
}

/// What can go wrong with the mailbox archive.
#[derive(Debug)]
pub enum PstError {
    FileNotFound(String),
    InvalidFormat(String),
    PermissionDenied(String),
    CorruptedFile(String),
    ExtractionFailed(String),
    ParsingError(String),
    IoError(String),
}

/// What a `PstError` stands for.
pub enum PstFault {
    FileNotFound(Seq<char>),
    InvalidFormat(Seq<char>),
    PermissionDenied(Seq<char>),
    CorruptedFile(Seq<char>),
    ExtractionFailed(Seq<char>),
    ParsingError(Seq<char>),
    IoError(Seq<char>),
}

impl View for PstError {
    type V = PstFault;

    open spec fn view(&self) -> PstFault {
        match self {
            PstError::FileNotFound(s) => PstFault::FileNotFound(s@),
            PstError::InvalidFormat(s) => PstFault::InvalidFormat(s@),
            PstError::PermissionDenied(s) => PstFault::PermissionDenied(s@),
            PstError::CorruptedFile(s) => PstFault::CorruptedFile(s@),
            PstError::ExtractionFailed(s) => PstFault::ExtractionFailed(s@),
            PstError::ParsingError(s) => PstFault::ParsingError(s@),
            PstError::IoError(s) => PstFault::IoError(s@),
        }
    }
}

impl PstFault {
    /// The message for the user.
    pub open spec fn text(self) -> Seq<char> {
        match self {
            PstFault::FileNotFound(s) => "PST file not found: "@ + s,
            PstFault::InvalidFormat(s) => "Invalid PST format: "@ + s,
            PstFault::PermissionDenied(s) => "Permission denied accessing PST file: "@ + s,
            PstFault::CorruptedFile(s) => "PST file is corrupted: "@ + s,
            PstFault::ExtractionFailed(s) => "Email extraction failed: "@ + s,
            PstFault::ParsingError(s) => "PST parsing error: "@ + s,
            PstFault::IoError(s) => "IO error while reading PST: "@ + s,
        }
    }
}

impl PstError {
    /// The message for the user.
    pub fn message(&self) -> (out: String)
        ensures
            out@ == self@.text(),
    {
        match self {
            PstError::FileNotFound(s) => String::from_str("PST file not found: ").concat(s.as_str()),
            PstError::InvalidFormat(s) => String::from_str("Invalid PST format: ").concat(s.as_str()),
            PstError::PermissionDenied(s) => String::from_str("Permission denied accessing PST file: ").concat(s.as_str()),
            PstError::CorruptedFile(s) => String::from_str("PST file is corrupted: ").concat(s.as_str()),
            PstError::ExtractionFailed(s) => String::from_str("Email extraction failed: ").concat(s.as_str()),
            PstError::ParsingError(s) => String::from_str("PST parsing error: ").concat(s.as_str()),
            PstError::IoError(s) => String::from_str("IO error while reading PST: ").concat(s.as_str()),
        }
    }
}

/// What can go wrong while a document is laid out and written.
#[derive(Debug)]
pub enum PdfError {
    GenerationFailed(String),
    FileWriteError(String),
    InvalidOutputDirectory(String),
    PermissionDenied(String),
    InsufficientSpace(String),
    FormattingError(String),
    TemplateError(String),
}

/// What a `PdfError` stands for.
pub enum PdfFault {
    GenerationFailed(Seq<char>),
    FileWriteError(Seq<char>),
    InvalidOutputDirectory(Seq<char>),
    PermissionDenied(Seq<char>),
    InsufficientSpace(Seq<char>),
    FormattingError(Seq<char>),
    TemplateError(Seq<char>),
}

impl View for PdfError {
    type V = PdfFault;

    open spec fn view(&self) -> PdfFault {
        match self {
            PdfError::GenerationFailed(s) => PdfFault::GenerationFailed(s@),
            PdfError::FileWriteError(s) => PdfFault::FileWriteError(s@),
            PdfError::InvalidOutputDirectory(s) => PdfFault::InvalidOutputDirectory(s@),
            PdfError::PermissionDenied(s) => PdfFault::PermissionDenied(s@),
            PdfError::InsufficientSpace(s) => PdfFault::InsufficientSpace(s@),
            PdfError::FormattingError(s) => PdfFault::FormattingError(s@),
            PdfError::TemplateError(s) => PdfFault::TemplateError(s@),
        }
    }
}

impl PdfFault {
    /// The message for the user.
    pub open spec fn text(self) -> Seq<char> {
        match self {
            PdfFault::GenerationFailed(s) => "PDF generation failed: "@ + s,
            PdfFault::FileWriteError(s) => "File write error: "@ + s,
            PdfFault::InvalidOutputDirectory(s) => "Invalid output directory: "@ + s,
            PdfFault::PermissionDenied(s) => "Permission denied writing PDF: "@ + s,
            PdfFault::InsufficientSpace(s) => "Disk space insufficient: "@ + s,
            PdfFault::FormattingError(s) => "PDF formatting error: "@ + s,
            PdfFault::TemplateError(s) => "Template error: "@ + s,
        }
    }
}

impl PdfError {
    /// The message for the user.
    pub fn message(&self) -> (out: String)
        ensures
            out@ == self@.text(),
    {
        match self {
            PdfError::GenerationFailed(s) => String::from_str("PDF generation failed: ").concat(s.as_str()),
            PdfError::FileWriteError(s) => String::from_str("File write error: ").concat(s.as_str()),
            PdfError::InvalidOutputDirectory(s) => String::from_str("Invalid output directory: ").concat(s.as_str()),
            PdfError::PermissionDenied(s) => String::from_str("Permission denied writing PDF: ").concat(s.as_str()),
            PdfError::InsufficientSpace(s) => String::from_str("Disk space insufficient: ").concat(s.as_str()),
            PdfError::FormattingError(s) => String::from_str("PDF formatting error: ").concat(s.as_str()),
            PdfError::TemplateError(s) => String::from_str("Template error: ").concat(s.as_str()),
        }
    }
}

/// What can go wrong with files and directories.
#[derive(Debug)]
pub enum FileSystemError {
    FileNotFound(String),
    DirectoryNotFound(String),
    PermissionDenied(String),
    PathExists(String),
    InvalidPath(String),
    IoError(String),
}

/// What a `FileSystemError` stands for.
pub enum FileSystemFault {
    FileNotFound(Seq<char>),
    DirectoryNotFound(Seq<char>),
    PermissionDenied(Seq<char>),
    PathExists(Seq<char>),
    InvalidPath(Seq<char>),
    IoError(Seq<char>),
}

impl View for FileSystemError {
    type V = FileSystemFault;

    open spec fn view(&self) -> FileSystemFault {
        match self {
            FileSystemError::FileNotFound(s) => FileSystemFault::FileNotFound(s@),
            FileSystemError::DirectoryNotFound(s) => FileSystemFault::DirectoryNotFound(s@),
            FileSystemError::PermissionDenied(s) => FileSystemFault::PermissionDenied(s@),
            FileSystemError::PathExists(s) => FileSystemFault::PathExists(s@),
            FileSystemError::InvalidPath(s) => FileSystemFault::InvalidPath(s@),
            FileSystemError::IoError(s) => FileSystemFault::IoError(s@),
        }
    }
}

impl FileSystemFault {
    /// The message for the user.
    pub open spec fn text(self) -> Seq<char> {
        match self {
            FileSystemFault::FileNotFound(s) => "File not found: "@ + s,
            FileSystemFault::DirectoryNotFound(s) => "Directory not found: "@ + s,
            FileSystemFault::PermissionDenied(s) => "Permission denied: "@ + s,
            FileSystemFault::PathExists(s) => "Path already exists: "@ + s,
            FileSystemFault::InvalidPath(s) => "Invalid path: "@ + s,
            FileSystemFault::IoError(s) => "IO operation failed: "@ + s,
        }
    }
}

impl FileSystemError {
    /// The message for the user.
    pub fn message(&self) -> (out: String)
        ensures
            out@ == self@.text(),
    {
        match self {
            FileSystemError::FileNotFound(s) => String::from_str("File not found: ").concat(s.as_str()),
            FileSystemError::DirectoryNotFound(s) => String::from_str("Directory not found: ").concat(s.as_str()),
            FileSystemError::PermissionDenied(s) => String::from_str("Permission denied: ").concat(s.as_str()),
            FileSystemError::PathExists(s) => String::from_str("Path already exists: ").concat(s.as_str()),
            FileSystemError::InvalidPath(s) => String::from_str("Invalid path: ").concat(s.as_str()),
            FileSystemError::IoError(s) => String::from_str("IO operation failed: ").concat(s.as_str()),
        }
    }
}

/// What can be wrong with what the user entered.
#[derive(Debug)]
#[allow(inconsistent_fields)]
pub enum ValidationError {
    InvalidFileExtension { expected: String, actual: String },
    InvalidEmailCount { min: u32, max: u32, actual: u32 },
    InvalidFilename(String),
    InvalidDirectory(String),
    RequiredFieldMissing(String),
    InvalidCharacter { field: String, character: String },
}

/// What a `ValidationError` stands for.
#[allow(inconsistent_fields)]
pub enum ValidationFault {
    InvalidFileExtension { expected: Seq<char>, actual: Seq<char> },
    InvalidEmailCount { min: u32, max: u32, actual: u32 },
    InvalidFilename(Seq<char>),
    InvalidDirectory(Seq<char>),
    RequiredFieldMissing(Seq<char>),
    InvalidCharacter { field: Seq<char>, character: Seq<char> },
}

impl View for ValidationError {
    type V = ValidationFault;

    open spec fn view(&self) -> ValidationFault {
        match self {
            ValidationError::InvalidFileExtension { expected, actual } => {
                ValidationFault::InvalidFileExtension { expected: expected@, actual: actual@ }
            },
            ValidationError::InvalidEmailCount { min, max, actual } => {
                ValidationFault::InvalidEmailCount { min: *min, max: *max, actual: *actual }
            },
            ValidationError::InvalidFilename(s) => ValidationFault::InvalidFilename(s@),
            ValidationError::InvalidDirectory(s) => ValidationFault::InvalidDirectory(s@),
            ValidationError::RequiredFieldMissing(s) => ValidationFault::RequiredFieldMissing(s@),
            ValidationError::InvalidCharacter { field, character } => {
                ValidationFault::InvalidCharacter { field: field@, character: character@ }
            },
        }
    }
}

impl ValidationFault {
    /// The message for the user.
    pub open spec fn text(self) -> Seq<char> {
        match self {
            ValidationFault::InvalidFileExtension { expected, actual } => {
                "Invalid file extension: expected "@ + expected + ", got "@ + actual
            },
            ValidationFault::InvalidEmailCount { min, max, actual } => {
                "Invalid email count: must be between "@ + decimal(min as nat) + " and "@ + decimal(
                    max as nat,
                ) + ", got "@ + decimal(actual as nat)
            },
            ValidationFault::InvalidFilename(s) => "Invalid filename: "@ + s,
            ValidationFault::InvalidDirectory(s) => "Invalid directory path: "@ + s,
            ValidationFault::RequiredFieldMissing(s) => "Required field missing: "@ + s,
            ValidationFault::InvalidCharacter { field, character } => {
                "Invalid character in field "@ + field + ": "@ + character
            },
        }
    }
}

impl ValidationError {
    /// The message for the user.
    pub fn message(&self) -> (out: String)
        ensures
            out@ == self@.text(),
    {
        match self {
            ValidationError::InvalidFileExtension { expected, actual } => {
                String::from_str("Invalid file extension: expected ").concat(
                    expected.as_str(),
                ).concat(", got ").concat(actual.as_str())
            },
            ValidationError::InvalidEmailCount { min, max, actual } => {
                let mut out = String::from_str("Invalid email count: must be between ");
                push_decimal(&mut out, *min as u64);
                out.append(" and ");
                push_decimal(&mut out, *max as u64);
                out.append(", got ");
                push_decimal(&mut out, *actual as u64);
                out
            },
            ValidationError::InvalidFilename(s) => {
                String::from_str("Invalid filename: ").concat(s.as_str())
            },
            ValidationError::InvalidDirectory(s) => {
                String::from_str("Invalid directory path: ").concat(s.as_str())
            },
            ValidationError::RequiredFieldMissing(s) => {
                String::from_str("Required field missing: ").concat(s.as_str())
            },
            ValidationError::InvalidCharacter { field, character } => {
                String::from_str("Invalid character in field ").concat(field.as_str()).concat(
                    ": ",
                ).concat(character.as_str())
            },
        }
    }
}

/// Every error that the application shows, each with the message of what
/// caused it.
#[derive(Debug)]
pub enum AppError {
    PstError(String),
    PdfError(String),
    FileSystemError(String),
    ValidationError(String),
    PermissionDenied(String),
    IoError(String),
    ProcessingCancelled,
    ConfigurationError(String),
    InternalError(String),
}

/// What an `AppError` stands for.
pub enum AppFault {
    PstError(Seq<char>),
    PdfError(Seq<char>),
    FileSystemError(Seq<char>),
    ValidationError(Seq<char>),
    PermissionDenied(Seq<char>),
    IoError(Seq<char>),
    ProcessingCancelled,
    ConfigurationError(Seq<char>),
    InternalError(Seq<char>),
}

impl View for AppError {
    type V = AppFault;

    open spec fn view(&self) -> AppFault {
        match self {
            AppError::PstError(s) => AppFault::PstError(s@),
            AppError::PdfError(s) => AppFault::PdfError(s@),
            AppError::FileSystemError(s) => AppFault::FileSystemError(s@),
            AppError::ValidationError(s) => AppFault::ValidationError(s@),
            AppError::PermissionDenied(s) => AppFault::PermissionDenied(s@),
            AppError::IoError(s) => AppFault::IoError(s@),
            AppError::ProcessingCancelled => AppFault::ProcessingCancelled,
            AppError::ConfigurationError(s) => AppFault::ConfigurationError(s@),
            AppError::InternalError(s) => AppFault::InternalError(s@),
        }
    }
}

impl AppFault {
    /// The message for the user.
    pub open spec fn text(self) -> Seq<char> {
        match self {
            AppFault::PstError(s) => "PST file error: "@ + s,
            AppFault::PdfError(s) => "PDF generation error: "@ + s,
            AppFault::FileSystemError(s) => "File system error: "@ + s,
            AppFault::ValidationError(s) => "Validation error: "@ + s,
            AppFault::PermissionDenied(s) => "Permission denied: "@ + s,
            AppFault::IoError(s) => "IO error: "@ + s,
            AppFault::ProcessingCancelled => "Processing cancelled by user"@,
            AppFault::ConfigurationError(s) => "Configuration error: "@ + s,
            AppFault::InternalError(s) => "Internal error: "@ + s,
        }
    }
}

impl AppError {
    /// The message for the user.
    pub fn message(&self) -> (out: String)
        ensures
            out@ == self@.text(),
    {
        match self {
            AppError::PstError(s) => String::from_str("PST file error: ").concat(s.as_str()),
            AppError::PdfError(s) => String::from_str("PDF generation error: ").concat(s.as_str()),
            AppError::FileSystemError(s) => String::from_str("File system error: ").concat(s.as_str()),
            AppError::ValidationError(s) => String::from_str("Validation error: ").concat(s.as_str()),
            AppError::PermissionDenied(s) => String::from_str("Permission denied: ").concat(s.as_str()),
            AppError::IoError(s) => String::from_str("IO error: ").concat(s.as_str()),
            AppError::ProcessingCancelled => String::from_str("Processing cancelled by user"),
            AppError::ConfigurationError(s) => String::from_str("Configuration error: ").concat(s.as_str()),
            AppError::InternalError(s) => String::from_str("Internal error: ").concat(s.as_str()),
        }
    }
}

/// The conversion wraps the message of an archive error.
impl From<PstError> for AppError {
    fn from(err: PstError) -> (out: AppError)
        ensures
            out@ == AppFault::PstError(err@.text()),
    {
        AppError::PstError(err.message())
    }
}

impl vstd::std_specs::convert::FromSpecImpl<PstError> for AppError {
    open spec fn obeys_from_spec() -> bool {
        false
    }

    open spec fn from_spec(err: PstError) -> AppError {
        arbitrary()
    }
}

/// The conversion wraps the message of a document error.
impl From<PdfError> for AppError {
    fn from(err: PdfError) -> (out: AppError)
        ensures
            out@ == AppFault::PdfError(err@.text()),
    {
        AppError::PdfError(err.message())
    }
}

impl vstd::std_specs::convert::FromSpecImpl<PdfError> for AppError {
    open spec fn obeys_from_spec() -> bool {
        false
    }

    open spec fn from_spec(err: PdfError) -> AppError {
        arbitrary()
    }
}

/// The conversion wraps the message of a file system error.
impl From<FileSystemError> for AppError {
    fn from(err: FileSystemError) -> (out: AppError)
        ensures
            out@ == AppFault::FileSystemError(err@.text()),
    {
        AppError::FileSystemError(err.message())
    }
}

impl vstd::std_specs::convert::FromSpecImpl<FileSystemError> for AppError {
    open spec fn obeys_from_spec() -> bool {
        false
    }

    open spec fn from_spec(err: FileSystemError) -> AppError {
        arbitrary()
    }
}

/// The conversion wraps the message of a validation error.
impl From<ValidationError> for AppError {
    fn from(err: ValidationError) -> (out: AppError)
        ensures
            out@ == AppFault::ValidationError(err@.text()),
    {
        AppError::ValidationError(err.message())
    }
}

impl vstd::std_specs::convert::FromSpecImpl<ValidationError> for AppError {
    open spec fn obeys_from_spec() -> bool {
        false
    }

    open spec fn from_spec(err: ValidationError) -> AppError {
        arbitrary()
    }
}

/// The conversion keeps the text of a failed file operation.
impl From<IoFailure> for AppError {
    fn from(err: IoFailure) -> (out: AppError)
        ensures
            out@ == AppFault::IoError(err@.detail),
    {
        AppError::IoError(err.detail)
    }
}

impl vstd::std_specs::convert::FromSpecImpl<IoFailure> for AppError {
    open spec fn obeys_from_spec() -> bool {
        false
    }

    open spec fn from_spec(err: IoFailure) -> AppError {
        arbitrary()
    }
}

/// The conversion keeps the text of a failed file operation.
impl From<IoFailure> for PstError {
    fn from(err: IoFailure) -> (out: PstError)
        ensures
            out@ == PstFault::IoError(err@.detail),
    {
        PstError::IoError(err.detail)
    }
}

impl vstd::std_specs::convert::FromSpecImpl<IoFailure> for PstError {
    open spec fn obeys_from_spec() -> bool {
        false
    }

    open spec fn from_spec(err: IoFailure) -> PstError {
        arbitrary()
    }
}

/// The conversion keeps the text of a failed file operation.
impl From<IoFailure> for PdfError {
    fn from(err: IoFailure) -> (out: PdfError)
        ensures
            out@ == PdfFault::FileWriteError(err@.detail),
    {
        PdfError::FileWriteError(err.detail)
    }
}

impl vstd::std_specs::convert::FromSpecImpl<IoFailure> for PdfError {
    open spec fn obeys_from_spec() -> bool {
        false
    }

    open spec fn from_spec(err: IoFailure) -> PdfError {
        arbitrary()
    }
}

/// The conversion keeps the text of a failed file operation.
impl From<IoFailure> for FileSystemError {
    fn from(err: IoFailure) -> (out: FileSystemError)
        ensures
            out@ == FileSystemFault::IoError(err@.detail),
    {
        FileSystemError::IoError(err.detail)
    }
}

impl vstd::std_specs::convert::FromSpecImpl<IoFailure> for FileSystemError {
    open spec fn obeys_from_spec() -> bool {
        false
    }

    open spec fn from_spec(err: IoFailure) -> FileSystemError {
        arbitrary()
    }
}

} // verus!
