//! Converts a mailbox archive into a sequence of paginated documents.
//!
//! The messages of the archive are grouped into batches of fixed size; each
//! batch becomes one document. A run is started, polled and cancelled
//! through the [`Orchestrator`], which hands the batches out one by one; the
//! [`PdfGenerator`] lays a batch out on pages. The library decides and
//! computes: whatever is read from disk is handed to it as plain values, and
//! what it lays out is written by its caller.

pub mod commands;
pub mod directory_validator;
pub mod errors;
mod keyed;
pub mod pdf_generator;
pub mod pst_processor;
pub mod text;
pub mod time;
pub mod types;

pub use commands::{
    calculate_total_pdfs, get_directory_info, select_directory, validate_directory,
    validate_pst_file, BatchJob, CancelError, CancellationToken, DirectoryInfo, JobAction,
    JobOutcome, JobTicket, Orchestrator, Preflight, SourceProbe, StartError, StartSeed,
};
pub use directory_validator::{DirectoryProbe, DirectoryValidator, VolumeStats};
pub use errors::{
    AppError, FileSystemError, IoFailure, IoFailureKind, PdfError, PstError, ValidationError,
};
pub use pdf_generator::{DocumentLayout, DrawOp, FontStyle, Page, PdfGenerator};
pub use pst_processor::{FileStats, PstFileProbe, PstFormat, PstHeader, PstProcessor};
pub use time::{Elapsed, LocalTimestamp, Timestamp};
pub use types::{
    Attachment, Email, EmailPriority, ProcessingConfig, ProcessingProgress, ProcessingSession,
    ProgressState, PstInfo,
};
