use pst_to_pdf::directory_validator::DirectoryProbe;
use pst_to_pdf::errors::{
    AppError, FileSystemError, IoFailure, IoFailureKind, PdfError, PstError, ValidationError,
};
use pst_to_pdf::time::Timestamp;
use pst_to_pdf::types::{
    Attachment, Email, EmailPriority, ProcessingConfig, ProcessingProgress, ProcessingSession,
    ProgressState, PstInfo,
};

fn writable_directory() -> DirectoryProbe {
    DirectoryProbe {
        reserves_device_names: false,
        exists: true,
        is_directory: Ok(true),
        write_test: Ok(()),
        resolved: Ok("/tmp/out".to_string()),
    }
}

fn not_writable() -> DirectoryProbe {
    DirectoryProbe {
        reserves_device_names: false,
        exists: true,
        is_directory: Ok(true),
        write_test: Err(IoFailure::new(IoFailureKind::PermissionDenied, "denied".to_string())),
        resolved: Ok("/resolved".to_string()),
    }
}

fn config(path: &str, batch: u32, base: &str, dir: &str) -> ProcessingConfig {
    ProcessingConfig::new(path.to_string(), batch, base.to_string(), dir.to_string())
}

fn at(secs: i64) -> Timestamp {
    Timestamp::new(secs, 0).unwrap()
}

#[test]
fn a_good_configuration_passes() {
    let cfg = config("/data/mail.pst", 10, "export", "/tmp/out");
    assert!(cfg.validate_fields().is_ok());
    assert!(cfg.validate(&writable_directory()).is_ok());
    assert!(config("C:\\Mail\\Archive.PST", 1, "e", "/o").validate_fields().is_ok());
    assert!(config("a.pSt", 25, "e", "/o").validate_fields().is_ok());
}

#[test]
fn batch_sizes_outside_one_to_twenty_five_are_refused() {
    for batch in [0u32, 26, 27, 100, u32::MAX] {
        match config("a.pst", batch, "e", "/o").validate_fields().unwrap_err() {
            ValidationError::InvalidEmailCount { min, max, actual } => {
                assert_eq!((min, max, actual), (1, 25, batch));
            }
            other => panic!("unexpected error {:?}", other),
        }
        assert!(config("a.pst", batch, "e", "/o").validate(&writable_directory()).is_err());
    }
    for batch in 1u32..=25 {
        assert!(config("a.pst", batch, "e", "/o").validate_fields().is_ok());
    }
}

#[test]
fn an_empty_base_name_is_refused() {
    match config("a.pst", 5, "", "/o").validate_fields().unwrap_err() {
        ValidationError::RequiredFieldMissing(field) => assert_eq!(field, "base_file_name"),
        other => panic!("unexpected error {:?}", other),
    }
}

#[test]
fn a_path_that_does_not_end_in_pst_is_refused() {
    for (path, actual) in [
        ("mail.txt", "txt"),
        ("mail", "none"),
        ("mail.pst.bak", "bak"),
        ("mail.pstx", "pstx"),
        ("pst", "none"),
        ("dir.pst/mail", "none"),
    ] {
        match config(path, 5, "e", "/o").validate_fields().unwrap_err() {
            ValidationError::InvalidFileExtension { expected, actual: found } => {
                assert_eq!(expected, ".pst");
                assert_eq!(found, actual);
            }
            other => panic!("unexpected error {:?} for {}", other, path),
        }
    }
}

#[test]
fn the_first_wrong_field_is_the_one_reported() {
    match config("", 0, "", "").validate_fields().unwrap_err() {
        ValidationError::RequiredFieldMissing(field) => assert_eq!(field, "pst_file_path"),
        other => panic!("unexpected error {:?}", other),
    }
    match config("a.txt", 0, "", "").validate_fields().unwrap_err() {
        ValidationError::InvalidFileExtension { .. } => {}
        other => panic!("unexpected error {:?}", other),
    }
    match config("a.pst", 0, "", "").validate_fields().unwrap_err() {
        ValidationError::InvalidEmailCount { .. } => {}
        other => panic!("unexpected error {:?}", other),
    }
    match config("a.pst", 3, "e", "").validate_fields().unwrap_err() {
        ValidationError::RequiredFieldMissing(field) => assert_eq!(field, "output_directory"),
        other => panic!("unexpected error {:?}", other),
    }
}

#[test]
fn forbidden_characters_in_the_base_name_are_refused() {
    for c in ['<', '>', ':', '"', '|', '?', '*', '/', '\\'] {
        let base = format!("ex{}port{}", c, '<');
        match config("a.pst", 3, &base, "/o").validate_fields().unwrap_err() {
            ValidationError::InvalidCharacter { field, character } => {
                assert_eq!(field, "base_file_name");
                assert_eq!(character, c.to_string());
            }
            other => panic!("unexpected error {:?}", other),
        }
    }
    assert!(config("a.pst", 3, "ex-port_1 (äö).x", "/o").validate_fields().is_ok());
}

#[test]
fn the_destination_is_looked_at_after_the_fields() {
    let cfg = config("a.pst", 3, "e", "/o");
    match cfg.validate(&not_writable()).unwrap_err() {
        ValidationError::InvalidDirectory(m) => {
            assert_eq!(m, "Keine Schreibberechtigung für Verzeichnis /o: Zugriff verweigert")
        }
        other => panic!("unexpected error {:?}", other),
    }
    // A wrong field is reported whatever the disk says.
    match config("a.pst", 0, "e", "/o").validate(&not_writable()).unwrap_err() {
        ValidationError::InvalidEmailCount { .. } => {}
        other => panic!("unexpected error {:?}", other),
    }
}

#[test]
fn progress_goes_through_its_states() {
    let mut p = ProcessingProgress::new();
    assert_eq!(p.state(), ProgressState::NotStarted);
    assert_eq!(p.status, "Nicht gestartet");
    assert_eq!(p.percent(), 0);
    assert!(p.duration().is_none());

    p.start_at(10, at(100));
    assert_eq!(p.state(), ProgressState::Running);
    assert_eq!((p.total_emails, p.processed_emails, p.current_pdf), (10, 0, 1));
    assert_eq!(p.status, "Verarbeitung gestartet");
    assert_eq!(p.started_at, Some(at(100)));
    assert_eq!(p.completed_at, None);

    p.update_progress(3, 1, "PDF 1 erstellt, verarbeite weiter...".to_string());
    assert_eq!(p.state(), ProgressState::Running);
    assert_eq!(p.percent(), 30);
    assert_eq!(p.duration_at(at(130)).unwrap().secs, 30);

    p.complete_at(at(160));
    assert_eq!(p.state(), ProgressState::Completed);
    assert!(p.is_complete);
    assert_eq!(p.status, "Verarbeitung abgeschlossen");
    assert_eq!(p.completed_at, Some(at(160)));
    assert_eq!(p.duration_at(at(999)).unwrap().secs, 60);
}

#[test]
fn terminal_states_are_final() {
    let mut done = ProcessingProgress::new();
    done.start_at(4, at(1));
    done.update_progress(4, 2, "x".to_string());
    done.complete_at(at(2));
    let mut failed = ProcessingProgress::new();
    failed.start_at(4, at(1));
    failed.fail_at("disk full".to_string(), at(2));
    assert_eq!(failed.state(), ProgressState::Failed);
    assert_eq!(failed.error, Some("disk full".to_string()));
    assert_eq!(failed.status, "Verarbeitung fehlgeschlagen");
    let mut cancelled = ProcessingProgress::new();
    cancelled.start_at(4, at(1));
    cancelled.cancel_at(at(2));
    assert_eq!(cancelled.state(), ProgressState::Cancelled);
    assert!(cancelled.is_cancelled && cancelled.is_complete);
    assert_eq!(cancelled.status, "Verarbeitung abgebrochen");

    for (name, p) in [("done", done), ("failed", failed), ("cancelled", cancelled)] {
        let state = p.state();
        let mut q = p.clone();
        q.update_progress(1, 9, "later".to_string());
        q.complete_at(at(50));
        q.fail_at("again".to_string(), at(51));
        q.cancel_at(at(52));
        q.complete();
        q.fail("x".to_string());
        q.cancel();
        assert_eq!(q, p, "{} was changed", name);
        assert_eq!(q.state(), state);
        // Only a new start leads on.
        q.start_at(7, at(60));
        assert_eq!(q.state(), ProgressState::Running);
        assert_eq!(q.error, None);
        assert!(!q.is_cancelled);
    }
}

#[test]
fn percent_is_rounded_down_and_zero_without_a_total() {
    let mut p = ProcessingProgress::new();
    p.start_at(3, at(0));
    p.update_progress(1, 1, String::new());
    assert_eq!(p.percent(), 33);
    p.update_progress(2, 1, String::new());
    assert_eq!(p.percent(), 66);
    p.update_progress(3, 1, String::new());
    assert_eq!(p.percent(), 100);
    p.start_at(0, at(0));
    assert_eq!(p.percent(), 0);
    p.start_at(usize::MAX, at(0));
    p.update_progress(usize::MAX, 1, String::new());
    assert_eq!(p.percent(), 100);
}

#[test]
fn the_clock_is_read_where_no_time_is_given() {
    let before = Timestamp::now();
    let mut p = ProcessingProgress::default();
    p.start(5);
    let started = p.started_at.unwrap();
    assert!(!started.is_before(&before));
    p.cancel();
    assert_eq!(p.state(), ProgressState::Cancelled);
    assert!(!p.completed_at.unwrap().is_before(&started));
    assert!(p.duration().unwrap().secs >= 0);
}

#[test]
fn archive_info_is_marked() {
    let mut info = PstInfo::new("/a.pst".to_string());
    assert!(!info.is_valid);
    assert_eq!(info.email_count, 0);
    info.add_error("first".to_string());
    info.add_error("second".to_string());
    assert_eq!(info.validation_errors, vec!["first".to_string(), "second".to_string()]);
    info.mark_valid(12, 3400, at(77));
    assert!(info.is_valid);
    assert_eq!((info.email_count, info.file_size), (12, 3400));
    assert_eq!(info.last_modified, Some(at(77)));
    assert!(info.validation_errors.is_empty());
    info.add_error("late".to_string());
    assert!(!info.is_valid);
    info.mark_invalid(vec!["why".to_string()]);
    assert!(!info.is_valid);
    assert_eq!(info.email_count, 0);
    assert_eq!(info.file_size, 3400);
    assert_eq!(info.validation_errors, vec!["why".to_string()]);
}

#[test]
fn attachments_know_images_and_extensions() {
    let a = Attachment::new("photo.JPG".to_string(), 10, "image/jpeg".to_string());
    assert!(a.is_image());
    assert!(!a.is_inline);
    assert_eq!(a.content_id, None);
    assert_eq!(a.data, None);
    assert_eq!(a.extension(), Some("JPG"));
    let b = Attachment::new("notes".to_string(), 10, "text/plain".to_string());
    assert!(!b.is_image());
    assert_eq!(b.extension(), None);
    let c = Attachment::new("archive.tar.gz".to_string(), 10, "Image/png".to_string());
    assert!(!c.is_image());
    assert_eq!(c.extension(), Some("gz"));
    assert_eq!(Attachment::new(".hidden".into(), 1, "image/".into()).extension(), None);
    assert!(Attachment::new(".hidden".into(), 1, "image/".into()).is_image());
}

#[test]
fn emails_add_up_their_attachments() {
    let mut email = Email::new("s".into(), "f".into(), "t".into(), at(5), "b".into());
    assert!(!email.has_attachments());
    assert_eq!(email.attachment_size(), 0);
    assert_eq!(email.priority, EmailPriority::Normal);
    assert_eq!(EmailPriority::default(), EmailPriority::Normal);
    assert!(!email.is_html);
    email.attachments.push(Attachment::new("a".into(), 100, "x".into()));
    email.attachments.push(Attachment::new("b".into(), 23, "x".into()));
    assert!(email.has_attachments());
    assert_eq!(email.attachment_size(), 123);
    // Beyond the largest number the sum starts again, as the machine's does.
    email.attachments.push(Attachment::new("c".into(), usize::MAX, "x".into()));
    assert_eq!(email.attachment_size(), 122);
    assert_eq!(email.formatted_date(), "01.01.1970 00:00:05");
    let copy = email.clone();
    assert_eq!(copy.subject, email.subject);
    assert_eq!(copy.attachments.len(), 3);
    assert_eq!(copy.date, email.date);
}

#[test]
fn sessions_get_an_identifier_and_collect_files() {
    let mut session = ProcessingSession::new(config("a.pst", 3, "e", "/o"));
    assert_eq!(session.session_id.len(), 36);
    assert_eq!(session.session_id.matches('-').count(), 4);
    assert_eq!(session.progress.state(), ProgressState::NotStarted);
    assert!(session.generated_files.is_empty());
    session.add_generated_file("/o/1.pdf".to_string());
    session.add_generated_file("/o/2.pdf".to_string());
    assert_eq!(session.generated_files, vec!["/o/1.pdf".to_string(), "/o/2.pdf".to_string()]);
    let other = ProcessingSession::new(config("a.pst", 3, "e", "/o"));
    assert_ne!(other.session_id, session.session_id);
    let fixed = ProcessingSession::new_with(config("a.pst", 3, "e", "/o"), "id-1".into(), at(9));
    assert_eq!(fixed.session_id, "id-1");
    assert_eq!(fixed.created_at, at(9));
    assert_eq!(fixed.config.emails_per_pdf, 3);
}

#[test]
fn error_messages_are_exact() {
    assert_eq!(PstError::FileNotFound("x".into()).message(), "PST file not found: x");
    assert_eq!(PstError::InvalidFormat("x".into()).message(), "Invalid PST format: x");
    assert_eq!(
        PstError::PermissionDenied("x".into()).message(),
        "Permission denied accessing PST file: x"
    );
    assert_eq!(PstError::CorruptedFile("x".into()).message(), "PST file is corrupted: x");
    assert_eq!(PstError::ExtractionFailed("x".into()).message(), "Email extraction failed: x");
    assert_eq!(PstError::ParsingError("x".into()).message(), "PST parsing error: x");
    assert_eq!(PstError::IoError("x".into()).message(), "IO error while reading PST: x");

    assert_eq!(PdfError::GenerationFailed("x".into()).message(), "PDF generation failed: x");
    assert_eq!(PdfError::FileWriteError("x".into()).message(), "File write error: x");
    assert_eq!(
        PdfError::InvalidOutputDirectory("x".into()).message(),
        "Invalid output directory: x"
    );
    assert_eq!(PdfError::PermissionDenied("x".into()).message(), "Permission denied writing PDF: x");
    assert_eq!(PdfError::InsufficientSpace("x".into()).message(), "Disk space insufficient: x");
    assert_eq!(PdfError::FormattingError("x".into()).message(), "PDF formatting error: x");
    assert_eq!(PdfError::TemplateError("x".into()).message(), "Template error: x");

    assert_eq!(FileSystemError::FileNotFound("x".into()).message(), "File not found: x");
    assert_eq!(FileSystemError::DirectoryNotFound("x".into()).message(), "Directory not found: x");
    assert_eq!(FileSystemError::PermissionDenied("x".into()).message(), "Permission denied: x");
    assert_eq!(FileSystemError::PathExists("x".into()).message(), "Path already exists: x");
    assert_eq!(FileSystemError::InvalidPath("x".into()).message(), "Invalid path: x");
    assert_eq!(FileSystemError::IoError("x".into()).message(), "IO operation failed: x");

    assert_eq!(
        ValidationError::InvalidFileExtension { expected: ".pst".into(), actual: "txt".into() }
            .message(),
        "Invalid file extension: expected .pst, got txt"
    );
    assert_eq!(
        ValidationError::InvalidEmailCount { min: 1, max: 25, actual: 300 }.message(),
        "Invalid email count: must be between 1 and 25, got 300"
    );
    assert_eq!(ValidationError::InvalidFilename("x".into()).message(), "Invalid filename: x");
    assert_eq!(ValidationError::InvalidDirectory("x".into()).message(), "Invalid directory path: x");
    assert_eq!(
        ValidationError::RequiredFieldMissing("x".into()).message(),
        "Required field missing: x"
    );
    assert_eq!(
        ValidationError::InvalidCharacter { field: "f".into(), character: "?".into() }.message(),
        "Invalid character in field f: ?"
    );

    assert_eq!(AppError::PstError("x".into()).message(), "PST file error: x");
    assert_eq!(AppError::PdfError("x".into()).message(), "PDF generation error: x");
    assert_eq!(AppError::FileSystemError("x".into()).message(), "File system error: x");
    assert_eq!(AppError::ValidationError("x".into()).message(), "Validation error: x");
    assert_eq!(AppError::PermissionDenied("x".into()).message(), "Permission denied: x");
    assert_eq!(AppError::IoError("x".into()).message(), "IO error: x");
    assert_eq!(AppError::ProcessingCancelled.message(), "Processing cancelled by user");
    assert_eq!(AppError::ConfigurationError("x".into()).message(), "Configuration error: x");
    assert_eq!(AppError::InternalError("x".into()).message(), "Internal error: x");
}

#[test]
fn errors_convert_by_their_messages() {
    match AppError::from(PstError::FileNotFound("a.pst".into())) {
        AppError::PstError(m) => assert_eq!(m, "PST file not found: a.pst"),
        other => panic!("unexpected error {:?}", other),
    }
    match AppError::from(PdfError::TemplateError("t".into())) {
        AppError::PdfError(m) => assert_eq!(m, "Template error: t"),
        other => panic!("unexpected error {:?}", other),
    }
    match AppError::from(FileSystemError::PathExists("p".into())) {
        AppError::FileSystemError(m) => assert_eq!(m, "Path already exists: p"),
        other => panic!("unexpected error {:?}", other),
    }
    match AppError::from(ValidationError::InvalidFilename("n".into())) {
        AppError::ValidationError(m) => assert_eq!(m, "Invalid filename: n"),
        other => panic!("unexpected error {:?}", other),
    }
    let failure = || IoFailure::new(IoFailureKind::Other, "os says no".to_string());
    match AppError::from(failure()) {
        AppError::IoError(m) => assert_eq!(m, "os says no"),
        other => panic!("unexpected error {:?}", other),
    }
    match PstError::from(failure()) {
        PstError::IoError(m) => assert_eq!(m, "os says no"),
        other => panic!("unexpected error {:?}", other),
    }
    match PdfError::from(failure()) {
        PdfError::FileWriteError(m) => assert_eq!(m, "os says no"),
        other => panic!("unexpected error {:?}", other),
    }
    match FileSystemError::from(failure()) {
        FileSystemError::IoError(m) => assert_eq!(m, "os says no"),
        other => panic!("unexpected error {:?}", other),
    }
}

#[test]
fn a_plain_name_has_the_text_behind_its_last_dot_as_extension() {
    let ext = |name: &str| {
        Attachment::new(name.to_string(), 0, String::new()).extension().map(|e| e.to_string())
    };
    assert_eq!(ext("report.pdf"), Some("pdf".to_string()));
    assert_eq!(ext("archive.tar.gz"), Some("gz".to_string()));
    assert_eq!(ext("trailing."), Some(String::new()));
    assert_eq!(ext("..."), Some(String::new()));
    assert_eq!(ext("a..b"), Some("b".to_string()));
    assert_eq!(ext(".hidden"), None);
    assert_eq!(ext("."), None);
    assert_eq!(ext(".."), None);
    assert_eq!(ext(""), None);
    assert_eq!(ext("no dot"), None);
    assert_eq!(ext(".hidden.txt"), Some("txt".to_string()));
}
