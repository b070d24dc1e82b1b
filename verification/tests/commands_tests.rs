use pst_to_pdf::commands::{
    calculate_total_pdfs, estimate_required_space, get_directory_info, select_directory, validate_directory,
    validate_pst_file, validate_pst_file_with, BatchJob, CancelError, CancellationToken,
    JobAction, JobOutcome, Orchestrator, Preflight, SourceProbe, StartError, StartSeed,
};
use pst_to_pdf::directory_validator::DirectoryProbe;
use pst_to_pdf::errors::{
    FileSystemError, IoFailure, IoFailureKind, PdfError, PstError, ValidationError,
};
use pst_to_pdf::pdf_generator::PdfGenerator;
use pst_to_pdf::pst_processor::{create_sample_email, FileStats, PstFileProbe};
use pst_to_pdf::time::{LocalTimestamp, Timestamp};
use pst_to_pdf::types::{Email, ProcessingConfig, ProgressState};

const PLENTY: u64 = 1 << 40;

fn writable_directory() -> DirectoryProbe {
    DirectoryProbe {
        reserves_device_names: false,
        exists: true,
        is_directory: Ok(true),
        write_test: Ok(()),
        resolved: Ok("/tmp/out".to_string()),
    }
}

fn not_writable() -> DirectoryProbe {
    DirectoryProbe {
        reserves_device_names: false,
        exists: true,
        is_directory: Ok(true),
        write_test: Err(IoFailure::new(IoFailureKind::PermissionDenied, "denied".to_string())),
        resolved: Ok("/resolved".to_string()),
    }
}

fn config(batch: u32) -> ProcessingConfig {
    ProcessingConfig::new(
        "/data/mail.pst".to_string(),
        batch,
        "export".to_string(),
        "/tmp/out".to_string(),
    )
}

fn preflight(total: usize) -> Preflight {
    Preflight {
        destination: writable_directory(),
        source: SourceProbe::Counted(total),
        available_space: Ok(PLENTY),
    }
}

fn at(secs: i64) -> Timestamp {
    Timestamp::new(secs, 0).unwrap()
}

fn seed(id: &str) -> StartSeed {
    StartSeed {
        session_id: id.to_string(),
        created_at: at(1000),
        started_at: at(1001),
        captured_at: LocalTimestamp::new(at(1_709_647_629), 0).unwrap(),
    }
}

fn messages(n: usize) -> Vec<Email> {
    (0..n).map(|i| create_sample_email(i).unwrap()).collect()
}

fn start(o: &mut Orchestrator, id: &str, batch: u32, total: usize) -> (BatchJob, PdfGenerator) {
    let ticket = o.start_processing_with(config(batch), preflight(total), seed(id)).unwrap();
    ticket.into_job(messages(total))
}

/// Runs the job to its end, writing every batch, and returns the sizes and
/// numbers of the batches and the processed counts after each.
fn run_to_end(o: &mut Orchestrator, job: &mut BatchJob) -> (Vec<usize>, Vec<u32>, Vec<usize>, JobOutcome) {
    let mut sizes = Vec::new();
    let mut sequences = Vec::new();
    let mut processed = Vec::new();
    loop {
        match o.next_batch(job) {
            JobAction::Render { batch, sequence } => {
                sizes.push(batch.len());
                sequences.push(sequence);
                o.batch_rendered(job, format!("/tmp/out/doc_{}.pdf", sequence));
                processed.push(o.get_session(job.session_id()).unwrap().progress.processed_emails);
            }
            JobAction::Finished(outcome) => return (sizes, sequences, processed, outcome),
        }
    }
}

#[test]
fn ten_messages_in_batches_of_three() {
    let mut o = Orchestrator::new();
    let (mut job, _generator) = start(&mut o, "s1", 3, 10);
    let (sizes, sequences, processed, outcome) = run_to_end(&mut o, &mut job);
    assert_eq!(sizes, vec![3, 3, 3, 1]);
    assert_eq!(sequences, vec![1, 2, 3, 4]);
    assert_eq!(processed, vec![3, 6, 9, 10]);
    assert_eq!(outcome, JobOutcome::Completed);
    let session = o.get_session("s1").unwrap();
    assert_eq!(
        session.generated_files,
        vec![
            "/tmp/out/doc_1.pdf".to_string(),
            "/tmp/out/doc_2.pdf".to_string(),
            "/tmp/out/doc_3.pdf".to_string(),
            "/tmp/out/doc_4.pdf".to_string(),
        ]
    );
    assert_eq!(session.progress.state(), ProgressState::Completed);
    assert_eq!(session.progress.percent(), 100);
    assert_eq!(session.progress.current_pdf, 4);
    assert_eq!(job.documents(), 4);
    assert_eq!(job.processed(), 10);
    assert_eq!(o.current_session_id(), None);
    assert!(!o.is_cancellation_pending("s1"));
}

#[test]
fn documents_are_the_total_divided_by_the_batch_size_rounded_up() {
    for total in 1usize..=40 {
        for batch in [1u32, 2, 3, 7, 24, 25] {
            let mut o = Orchestrator::new();
            let (mut job, _generator) = start(&mut o, "s", batch, total);
            let (sizes, sequences, processed, outcome) = run_to_end(&mut o, &mut job);
            let b = batch as usize;
            let expected = (total + b - 1) / b;
            assert_eq!(outcome, JobOutcome::Completed);
            assert_eq!(sizes.len(), expected);
            assert_eq!(sizes.iter().sum::<usize>(), total);
            for size in &sizes[..expected - 1] {
                assert_eq!(*size, b);
            }
            assert_eq!(sizes[expected - 1], if total % b == 0 { b } else { total % b });
            assert_eq!(sequences, (1..=expected as u32).collect::<Vec<u32>>());
            assert_eq!(*processed.last().unwrap(), total);
            assert_eq!(calculate_total_pdfs(total, b) as usize, expected);
            assert_eq!(o.get_session("s").unwrap().generated_files.len(), expected);
        }
    }
}

#[test]
fn batches_hold_the_messages_in_their_order() {
    let mut o = Orchestrator::new();
    let (mut job, _generator) = start(&mut o, "s", 4, 9);
    let mut subjects = Vec::new();
    loop {
        match o.next_batch(&mut job) {
            JobAction::Render { batch, sequence } => {
                for email in &batch {
                    subjects.push(email.subject.clone());
                }
                o.batch_rendered(&mut job, format!("{}", sequence));
            }
            JobAction::Finished(_) => break,
        }
    }
    let expected: Vec<String> = (1..=9).map(|i| format!("Email Subject {}", i)).collect();
    assert_eq!(subjects, expected);
}

#[test]
fn the_percentage_never_falls_and_ends_at_a_hundred() {
    let mut o = Orchestrator::new();
    let (mut job, _generator) = start(&mut o, "s", 3, 20);
    let mut last = o.get_processing_progress().percent();
    assert_eq!(last, 0);
    loop {
        let action = o.next_batch(&mut job);
        let shown = o.get_session("s").unwrap().progress.percent();
        assert!(shown >= last);
        last = shown;
        match action {
            JobAction::Render { sequence, .. } => {
                o.batch_rendered(&mut job, format!("{}", sequence));
                let shown = o.get_session("s").unwrap().progress.percent();
                assert!(shown >= last);
                last = shown;
            }
            JobAction::Finished(outcome) => {
                assert_eq!(outcome, JobOutcome::Completed);
                break;
            }
        }
    }
    assert_eq!(last, 100);
}

#[test]
fn status_texts_follow_the_run() {
    let mut o = Orchestrator::new();
    let (mut job, _generator) = start(&mut o, "s", 3, 7);
    assert_eq!(o.get_processing_progress().status, "Verarbeitung gestartet");
    let _ = o.next_batch(&mut job);
    assert_eq!(o.get_processing_progress().status, "Erstelle PDF 1 von 3");
    assert_eq!(o.get_processing_progress().processed_emails, 0);
    o.batch_rendered(&mut job, "1".into());
    assert_eq!(o.get_processing_progress().status, "PDF 1 erstellt, verarbeite weiter...");
    let _ = o.next_batch(&mut job);
    assert_eq!(o.get_processing_progress().status, "Erstelle PDF 2 von 3");
    assert_eq!(o.get_processing_progress().current_pdf, 2);
    o.batch_rendered(&mut job, "2".into());
    let _ = o.next_batch(&mut job);
    o.batch_rendered(&mut job, "3".into());
    assert_eq!(o.get_processing_progress().status, "Verarbeitung abgeschlossen");
    assert_eq!(o.get_processing_progress().state(), ProgressState::Running);
    assert!(matches!(o.next_batch(&mut job), JobAction::Finished(JobOutcome::Completed)));
    assert_eq!(o.get_session("s").unwrap().progress.state(), ProgressState::Completed);
    // A run that is over stays over.
    assert!(matches!(o.next_batch(&mut job), JobAction::Finished(JobOutcome::Completed)));
    assert_eq!(job.outcome(), Some(JobOutcome::Completed));
}

#[test]
fn cancelling_before_any_batch_leaves_no_documents() {
    let mut o = Orchestrator::new();
    let (mut job, _generator) = start(&mut o, "s", 3, 10);
    assert!(o.cancel_processing().is_ok());
    assert_eq!(o.current_session_id(), None);
    assert!(o.is_cancellation_pending("s"));
    assert_eq!(o.get_session("s").unwrap().progress.state(), ProgressState::Cancelled);
    // Pollers no longer see the session.
    assert_eq!(o.get_processing_progress().state(), ProgressState::NotStarted);

    assert!(matches!(o.next_batch(&mut job), JobAction::Finished(JobOutcome::Cancelled)));
    let session = o.get_session("s").unwrap();
    assert!(session.generated_files.is_empty());
    assert_eq!(session.progress.state(), ProgressState::Cancelled);
    assert_eq!(session.progress.error, None);
    assert_eq!(job.documents(), 0);
    assert!(!o.is_cancellation_pending("s"));
}

#[test]
fn cancelling_in_the_middle_keeps_what_was_made() {
    let mut o = Orchestrator::new();
    let (mut job, _generator) = start(&mut o, "s", 3, 10);
    for _ in 0..2 {
        match o.next_batch(&mut job) {
            JobAction::Render { sequence, .. } => {
                o.batch_rendered(&mut job, format!("/o/{}.pdf", sequence))
            }
            other => panic!("unexpected action {:?}", other),
        }
    }
    o.cancel_processing_at(at(5000)).unwrap();
    assert!(matches!(o.next_batch(&mut job), JobAction::Finished(JobOutcome::Cancelled)));
    let session = o.get_session("s").unwrap();
    assert_eq!(session.generated_files, vec!["/o/1.pdf".to_string(), "/o/2.pdf".to_string()]);
    assert_eq!(session.progress.state(), ProgressState::Cancelled);
    assert_eq!(session.progress.processed_emails, 6);
    assert_eq!(session.progress.completed_at, Some(at(5000)));
    assert_eq!(job.outcome(), Some(JobOutcome::Cancelled));
    assert!(matches!(o.next_batch(&mut job), JobAction::Finished(JobOutcome::Cancelled)));
}

#[test]
fn a_batch_that_is_out_when_the_run_is_cancelled_is_still_noted() {
    let mut o = Orchestrator::new();
    let (mut job, _generator) = start(&mut o, "s", 3, 10);
    assert!(matches!(o.next_batch(&mut job), JobAction::Render { .. }));
    o.cancel_processing().unwrap();
    o.batch_rendered(&mut job, "/o/1.pdf".into());
    assert!(matches!(o.next_batch(&mut job), JobAction::Finished(JobOutcome::Cancelled)));
    let session = o.get_session("s").unwrap();
    assert_eq!(session.generated_files, vec!["/o/1.pdf".to_string()]);
    // The progress was frozen when the run was cancelled.
    assert_eq!(session.progress.processed_emails, 0);
    assert_eq!(session.progress.state(), ProgressState::Cancelled);
}

#[test]
fn cancel_without_a_run_is_an_error() {
    let mut o = Orchestrator::new();
    assert_eq!(o.cancel_processing(), Err(CancelError::NoActiveJob));
    assert_eq!(
        CancelError::NoActiveJob.message(),
        "Keine aktive Verarbeitung zum Abbrechen gefunden."
    );
    let (_job, _generator) = start(&mut o, "s", 3, 10);
    assert!(o.cancel_processing().is_ok());
    // The marker was cleared at once.
    assert_eq!(o.cancel_processing(), Err(CancelError::NoActiveJob));
}

#[test]
fn a_second_start_is_refused_while_a_run_is_current() {
    let mut o = Orchestrator::new();
    let (mut job, _generator) = start(&mut o, "first", 3, 10);
    let _ = o.next_batch(&mut job);
    o.batch_rendered(&mut job, "1".into());
    let before = o.get_session("first").unwrap();

    let refused = o.start_processing_with(config(5), preflight(8), seed("second")).unwrap_err();
    assert!(matches!(refused, StartError::AlreadyRunning));
    assert_eq!(
        refused.message(),
        "Eine Verarbeitung läuft bereits. Bitte warten Sie, bis sie abgeschlossen ist oder brechen Sie sie ab."
    );
    // Even a start that would be refused for another reason is refused for this one.
    let wrong = ProcessingConfig::new("x.txt".into(), 0, "".into(), "".into());
    assert!(matches!(
        o.start_processing(wrong, preflight(0)).unwrap_err(),
        StartError::AlreadyRunning
    ));
    assert_eq!(o.get_session("first").unwrap(), before);
    assert!(o.get_session("second").is_none());
    assert_eq!(o.current_session_id(), Some("first".to_string()));
    assert_eq!(o.get_processing_session().unwrap(), before);
}

#[test]
fn an_empty_archive_is_refused() {
    let mut o = Orchestrator::new();
    let refused = o.start_processing(config(3), preflight(0)).unwrap_err();
    assert!(matches!(refused, StartError::EmptySource));
    assert_eq!(refused.message(), "Die PST-Datei enthält keine E-Mails zum Verarbeiten.");
    assert_eq!(o.current_session_id(), None);
    assert!(o.get_processing_session().is_none());
    assert_eq!(o.get_processing_progress().state(), ProgressState::NotStarted);
}

#[test]
fn a_destination_that_cannot_be_written_to_is_refused() {
    let mut o = Orchestrator::new();
    let mut facts = preflight(10);
    facts.destination = not_writable();
    let refused = o.start_processing(config(3), facts).unwrap_err();
    match &refused {
        StartError::DestinationInvalid(ValidationError::InvalidDirectory(_)) => {}
        other => panic!("unexpected error {:?}", other),
    }
    assert_eq!(
        refused.message(),
        "Ausgabeverzeichnis ungültig: Invalid directory path: Keine Schreibberechtigung für Verzeichnis /tmp/out: Zugriff verweigert"
    );
    assert_eq!(o.current_session_id(), None);
    assert!(o.get_processing_session().is_none());
}

#[test]
fn start_reports_the_first_thing_in_the_way() {
    let mut o = Orchestrator::new();
    // A wrong field comes before everything on disk.
    let mut facts = preflight(0);
    facts.destination = not_writable();
    facts.available_space = Ok(0);
    let refused = o.start_processing(config(26), facts).unwrap_err();
    match &refused {
        StartError::ConfigInvalid(ValidationError::InvalidEmailCount { actual: 26, .. }) => {}
        other => panic!("unexpected error {:?}", other),
    }
    assert_eq!(
        refused.message(),
        "Konfigurationsfehler: Invalid email count: must be between 1 and 25, got 26"
    );
    // The destination comes before the archive.
    let mut facts = preflight(0);
    facts.destination = not_writable();
    assert!(matches!(
        o.start_processing(config(3), facts).unwrap_err(),
        StartError::DestinationInvalid(_)
    ));
    // An archive that cannot be opened or counted.
    let mut facts = preflight(0);
    facts.source = SourceProbe::Unopened(PstError::FileNotFound("/data/mail.pst".into()));
    let refused = o.start_processing(config(3), facts).unwrap_err();
    assert_eq!(
        refused.message(),
        "PST-Datei konnte nicht geöffnet werden: PST file not found: /data/mail.pst"
    );
    let mut facts = preflight(0);
    facts.source = SourceProbe::Uncounted(PstError::IoError("eof".into()));
    let refused = o.start_processing(config(3), facts).unwrap_err();
    assert!(matches!(refused, StartError::CountFailed(_)));
    assert_eq!(refused.message(), "Fehler beim Zählen der E-Mails: IO error while reading PST: eof");
    // An empty archive comes before the room on disk.
    let mut facts = preflight(0);
    facts.available_space = Ok(0);
    assert!(matches!(o.start_processing(config(3), facts).unwrap_err(), StartError::EmptySource));
    assert_eq!(o.current_session_id(), None);
}

#[test]
fn the_room_on_disk_is_ten_mebibytes_for_each_document() {
    // Ten messages in batches of three make four documents.
    let need: u64 = 4 * 10 * 1024 * 1024;
    let mut o = Orchestrator::new();
    let mut facts = preflight(10);
    facts.available_space = Ok(need - 1);
    let refused = o.start_processing(config(3), facts).unwrap_err();
    match &refused {
        StartError::InsufficientSpace(FileSystemError::IoError(m)) => assert_eq!(
            m,
            "Nicht genügend Speicherplatz verfügbar. Benötigt: 40 MB, Verfügbar: 39 MB"
        ),
        other => panic!("unexpected error {:?}", other),
    }
    assert!(refused.message().starts_with("Speicherplatz-Problem: IO operation failed: "));
    let mut facts = preflight(10);
    facts.available_space = Ok(need);
    assert!(o.start_processing(config(3), facts).is_ok());

    // Nine messages in batches of three make three documents.
    let mut o = Orchestrator::new();
    let mut facts = preflight(9);
    facts.available_space = Ok(3 * 10 * 1024 * 1024 - 1);
    assert!(matches!(
        o.start_processing(config(3), facts).unwrap_err(),
        StartError::InsufficientSpace(_)
    ));
    let mut facts = preflight(9);
    facts.available_space = Ok(3 * 10 * 1024 * 1024);
    assert!(o.start_processing(config(3), facts).is_ok());

    // Three messages, three to a batch: one document, for which ten
    // mebibytes suffice.
    let mut o = Orchestrator::new();
    let mut facts = preflight(3);
    facts.available_space = Ok(10 * 1024 * 1024);
    assert!(o.start_processing(config(3), facts).is_ok());
    let mut o = Orchestrator::new();
    let mut facts = preflight(3);
    facts.available_space = Ok(15 * 1024 * 1024);
    assert!(o.start_processing(config(3), facts).is_ok());
    let mut o = Orchestrator::new();
    let mut facts = preflight(3);
    facts.available_space = Ok(10 * 1024 * 1024 - 1);
    assert!(o.start_processing(config(3), facts).is_err());
    assert_eq!(estimate_required_space(3, 3), 10 * 1024 * 1024);
    assert_eq!(estimate_required_space(4, 3), 20 * 1024 * 1024);
    assert_eq!(estimate_required_space(1, 25), 10 * 1024 * 1024);
    assert_eq!(estimate_required_space(0, 3), 0);
    assert_eq!(estimate_required_space(usize::MAX, 1), u64::MAX);

    let mut o = Orchestrator::new();
    let mut facts = preflight(10);
    facts.available_space = Err(FileSystemError::IoError("statvfs".into()));
    match o.start_processing(config(3), facts).unwrap_err() {
        StartError::InsufficientSpace(FileSystemError::IoError(m)) => assert_eq!(m, "statvfs"),
        other => panic!("unexpected error {:?}", other),
    }
    // A count beyond everything asks for more room than any disk has.
    let mut o = Orchestrator::new();
    let mut facts = preflight(usize::MAX);
    facts.available_space = Ok(u64::MAX - 1);
    assert!(matches!(
        o.start_processing(config(1), facts).unwrap_err(),
        StartError::InsufficientSpace(_)
    ));
}

#[test]
fn a_start_registers_the_session_and_hands_out_a_ticket() {
    let mut o = Orchestrator::new();
    let ticket = o.start_processing(config(7), preflight(30)).unwrap();
    assert_eq!(ticket.session_id().len(), 36);
    assert_eq!(ticket.batch_size(), 7);
    assert_eq!(ticket.total_emails(), 30);
    assert_eq!(ticket.generator().base_name(), "export");
    assert_eq!(ticket.generator().output_dir(), "/tmp/out");
    assert_eq!(o.current_session_id(), Some(ticket.session_id().to_string()));
    let session = o.get_processing_session().unwrap();
    assert_eq!(session.session_id, ticket.session_id());
    assert_eq!(session.config, config(7));
    assert_eq!(session.progress.state(), ProgressState::Running);
    assert_eq!(session.progress.total_emails, 30);
    assert_eq!(session.progress.processed_emails, 0);
    assert_eq!(session.progress.current_pdf, 1);
    assert!(session.generated_files.is_empty());
    assert!(!o.is_cancellation_pending(ticket.session_id()));
    assert_eq!(o.get_processing_progress(), session.progress);
}

#[test]
fn the_seed_decides_identifier_and_times() {
    let mut o = Orchestrator::new();
    let ticket = o.start_processing_with(config(2), preflight(5), seed("abc")).unwrap();
    assert_eq!(ticket.session_id(), "abc");
    let session = o.get_session("abc").unwrap();
    assert_eq!(session.created_at, at(1000));
    assert_eq!(session.progress.started_at, Some(at(1001)));
    assert_eq!(ticket.generator().generate_filename(3), "2024-03-05T14-07-09_export_3.pdf");
    let fresh = StartSeed::fresh();
    assert_eq!(fresh.session_id.len(), 36);
    assert_ne!(fresh.session_id, StartSeed::fresh().session_id);
}

#[test]
fn a_failed_batch_fails_the_run() {
    let mut o = Orchestrator::new();
    let (mut job, _generator) = start(&mut o, "s", 3, 10);
    let _ = o.next_batch(&mut job);
    o.batch_rendered(&mut job, "/o/1.pdf".into());
    let _ = o.next_batch(&mut job);
    o.batch_failed(&mut job, &PdfError::FileWriteError("Failed to create PDF file: disk full".into()));
    let session = o.get_session("s").unwrap();
    assert_eq!(session.progress.state(), ProgressState::Failed);
    assert_eq!(
        session.progress.error,
        Some("PDF generation error: File write error: Failed to create PDF file: disk full".to_string())
    );
    assert_eq!(session.progress.status, "Verarbeitung fehlgeschlagen");
    // No path was recorded for the batch that failed.
    assert_eq!(session.generated_files, vec!["/o/1.pdf".to_string()]);
    assert_eq!(o.current_session_id(), None);
    assert_eq!(job.outcome(), Some(JobOutcome::Failed));
    assert!(matches!(o.next_batch(&mut job), JobAction::Finished(JobOutcome::Failed)));
    // A late result changes nothing.
    o.batch_rendered(&mut job, "/o/2.pdf".into());
    assert_eq!(o.get_session("s").unwrap(), session);
    // A new run may start.
    assert!(o.start_processing(config(3), preflight(4)).is_ok());
}

#[test]
fn a_source_that_fails_to_hand_out_its_messages_fails_the_run() {
    let mut o = Orchestrator::new();
    let ticket = o.start_processing_with(config(3), preflight(10), seed("s")).unwrap();
    o.source_failed(&ticket, &PstError::ExtractionFailed("broken".into()));
    let session = o.get_session("s").unwrap();
    assert_eq!(session.progress.state(), ProgressState::Failed);
    assert_eq!(
        session.progress.error,
        Some("PST file error: Email extraction failed: broken".to_string())
    );
    assert_eq!(o.current_session_id(), None);
}

#[test]
fn fewer_messages_than_counted_end_below_a_hundred_percent() {
    let mut o = Orchestrator::new();
    let ticket = o.start_processing_with(config(3), preflight(10), seed("s")).unwrap();
    // Two of the ten messages could not be extracted.
    let (mut job, _generator) = ticket.into_job(messages(8));
    let (sizes, _, processed, outcome) = run_to_end(&mut o, &mut job);
    assert_eq!(sizes, vec![3, 3, 2]);
    assert_eq!(processed, vec![3, 6, 8]);
    assert_eq!(outcome, JobOutcome::Completed);
    let session = o.get_session("s").unwrap();
    assert_eq!(session.progress.state(), ProgressState::Completed);
    assert_eq!(session.progress.percent(), 80);
}

#[test]
fn a_run_without_messages_completes_at_once() {
    let mut o = Orchestrator::new();
    let ticket = o.start_processing_with(config(3), preflight(10), seed("s")).unwrap();
    let (mut job, _generator) = ticket.into_job(Vec::new());
    assert!(matches!(o.next_batch(&mut job), JobAction::Finished(JobOutcome::Completed)));
    assert_eq!(o.get_session("s").unwrap().generated_files.len(), 0);
}

#[test]
fn cleanup_removes_the_session_and_is_idempotent() {
    let mut o = Orchestrator::new();
    let (mut job, _generator) = start(&mut o, "s", 3, 4);
    let _ = run_to_end(&mut o, &mut job);
    assert!(o.get_session("s").is_some());
    o.cleanup_session("s");
    assert!(o.get_session("s").is_none());
    o.cleanup_session("s");
    o.cleanup_session("never there");
    assert!(o.get_session("s").is_none());
    assert_eq!(o.get_processing_progress().state(), ProgressState::NotStarted);
}

#[test]
fn a_session_that_is_cleaned_up_under_its_run_takes_no_more_reports() {
    let mut o = Orchestrator::new();
    let (mut job, _generator) = start(&mut o, "s", 3, 10);
    let _ = o.next_batch(&mut job);
    o.cleanup_session("s");
    // The marker still names the session, but there is nothing to show.
    assert_eq!(o.current_session_id(), Some("s".to_string()));
    assert_eq!(o.get_processing_progress().state(), ProgressState::NotStarted);
    assert!(o.get_processing_session().is_none());
    // Its token is gone, so the run is not told to stop; it goes on to its end.
    o.batch_rendered(&mut job, "1".into());
    let (sizes, _, _, outcome) = {
        let mut sizes = Vec::new();
        loop {
            match o.next_batch(&mut job) {
                JobAction::Render { batch, sequence } => {
                    sizes.push(batch.len());
                    o.batch_rendered(&mut job, format!("{}", sequence));
                }
                JobAction::Finished(outcome) => break (sizes, (), (), outcome),
            }
        }
    };
    assert_eq!(sizes, vec![3, 3, 1]);
    assert_eq!(outcome, JobOutcome::Completed);
    assert!(o.get_session("s").is_none());
    assert_eq!(o.current_session_id(), None);
}

#[test]
fn reports_go_to_the_session_named() {
    let mut o = Orchestrator::new();
    let (_job, _generator) = start(&mut o, "s", 3, 10);
    o.update_session_progress("s", 4, 2, "half way".to_string());
    let p = o.get_session("s").unwrap().progress;
    assert_eq!((p.processed_emails, p.current_pdf), (4, 2));
    assert_eq!(p.status, "half way");
    let before = o.get_session("s").unwrap();
    o.update_session_progress("other", 9, 9, "lost".to_string());
    assert_eq!(o.get_session("s").unwrap(), before);
}

#[test]
fn tokens_are_fired_once() {
    let mut token = CancellationToken::new("s".to_string());
    assert!(!token.is_signalled());
    token.signal();
    assert!(token.is_signalled());
    token.signal();
    assert!(token.is_signalled());
}

#[test]
fn total_documents_are_rounded_up() {
    assert_eq!(calculate_total_pdfs(10, 3), 4);
    assert_eq!(calculate_total_pdfs(9, 3), 3);
    assert_eq!(calculate_total_pdfs(0, 3), 0);
    assert_eq!(calculate_total_pdfs(1, 25), 1);
    assert_eq!(calculate_total_pdfs(usize::MAX, 1), u32::MAX);
    assert_eq!(calculate_total_pdfs(5, 0), 0);
}

fn header(signature: [u8; 4], version: u8) -> [u8; 512] {
    let mut bytes = [0u8; 512];
    bytes[..4].copy_from_slice(&signature);
    bytes[8] = version;
    bytes
}

fn archive(size: u64) -> PstFileProbe {
    PstFileProbe {
        exists: true,
        is_file: true,
        stats: Ok(FileStats { size, modified_secs: Some(1_700_000_000) }),
        header: Ok(header([0x21, 0x42, 0x44, 0x4E], 23)),
    }
}

#[test]
fn an_archive_file_is_checked_step_by_step() {
    let info = validate_pst_file("/data/mail.pst".to_string(), &archive(1_200_000));
    assert!(info.is_valid);
    assert_eq!(info.email_count, 10);
    assert_eq!(info.file_size, 1_200_000);
    assert_eq!(info.last_modified, Some(at(1_700_000_000)));
    assert!(info.validation_errors.is_empty());

    let complaint = |path: &str, file: &PstFileProbe| {
        let info = validate_pst_file(path.to_string(), file);
        assert!(!info.is_valid);
        assert_eq!(info.validation_errors.len(), 1);
        info.validation_errors[0].clone()
    };
    let mut file = archive(1_200_000);
    file.exists = false;
    assert_eq!(complaint("/a.pst", &file), "PST-Datei nicht gefunden");
    let mut file = archive(1_200_000);
    file.is_file = false;
    assert_eq!(complaint("/a.pst", &file), "Pfad ist keine Datei");
    assert_eq!(complaint("/a.txt", &archive(1_200_000)), "Datei muss eine PST-Datei sein (.pst)");
    assert_eq!(
        complaint("/a", &archive(1_200_000)),
        "Datei hat keine Erweiterung - PST-Datei erwartet"
    );
    let mut file = archive(1_200_000);
    file.stats = Err(IoFailure::new(IoFailureKind::PermissionDenied, "denied".into()));
    assert_eq!(complaint("/a.pst", &file), "Keine Berechtigung zum Zugriff auf die Datei");
    file.stats = Err(IoFailure::new(IoFailureKind::Other, "broken".into()));
    assert_eq!(complaint("/a.pst", &file), "Fehler beim Lesen der Datei-Informationen: broken");
    assert_eq!(complaint("/a.pst", &archive(0)), "PST-Datei ist leer");
    assert_eq!(
        complaint("/a.pst", &archive(511)),
        "Datei ist zu klein für eine gültige PST-Datei"
    );
    let mut file = archive(1_200_000);
    file.header = Ok(header([0, 0, 0, 0], 23));
    assert_eq!(
        complaint("/a.pst", &file),
        "Fehler beim Öffnen der PST-Datei: Invalid PST format: Ungültige PST-Datei-Signatur - Datei ist möglicherweise beschädigt"
    );
    file.header = Ok(header([0x21, 0x42, 0x44, 0x4E], 1));
    assert_eq!(
        complaint("/a.pst", &file),
        "Fehler beim Öffnen der PST-Datei: Invalid PST format: Unbekannte PST-Version: 1. Unterstützte Versionen: ANSI (14, 15) und Unicode (23)"
    );
}

#[test]
fn an_archive_without_a_date_is_dated_now() {
    let mut file = archive(1_200_000);
    file.stats = Ok(FileStats { size: 1_200_000, modified_secs: None });
    let info = validate_pst_file_with("/a.pst".to_string(), Some("pst"), &file, at(4242));
    assert!(info.is_valid);
    assert_eq!(info.last_modified, Some(at(4242)));
    file.stats = Ok(FileStats { size: 1_200_000, modified_secs: Some(u64::MAX / 2) });
    let info = validate_pst_file_with("/a.pst".to_string(), Some("PST"), &file, at(4242));
    assert_eq!(info.last_modified, Some(at(4242)));
}

#[test]
fn a_directory_is_judged_for_the_user() {
    assert_eq!(validate_directory("/tmp/out", &writable_directory()), Ok(true));
    assert_eq!(
        validate_directory("", &writable_directory()),
        Err("Required field missing: directory_path".to_string())
    );
    assert_eq!(
        validate_directory("/ro", &not_writable()),
        Err("Invalid directory path: Keine Schreibberechtigung für Verzeichnis /ro: Zugriff verweigert".to_string())
    );
}

#[test]
fn a_picked_directory_needs_a_hundred_mebibytes() {
    let enough: u64 = 100 * 1024 * 1024;
    assert_eq!(select_directory(None, &writable_directory(), Ok(0)), Ok(None));
    assert_eq!(
        select_directory(Some("/tmp/out".into()), &writable_directory(), Ok(enough)),
        Ok(Some("/tmp/out".to_string()))
    );
    assert_eq!(
        select_directory(Some("/tmp/out".into()), &writable_directory(), Ok(enough - 1)),
        Err("Speicherplatz-Warnung: IO operation failed: Nicht genügend Speicherplatz verfügbar. Benötigt: 100 MB, Verfügbar: 99 MB".to_string())
    );
    assert_eq!(
        select_directory(Some("/ro".into()), &not_writable(), Ok(enough)),
        Err("Invalid directory path: Keine Schreibberechtigung für Verzeichnis /ro: Zugriff verweigert".to_string())
    );
    assert_eq!(
        select_directory(
            Some("/tmp/out".into()),
            &writable_directory(),
            Err(FileSystemError::InvalidPath("nul".into()))
        ),
        Err("Speicherplatz-Warnung: Invalid path: nul".to_string())
    );
}

#[test]
fn directory_information_is_gathered() {
    let stats = Ok(FileStats { size: 4096, modified_secs: Some(1_700_000_000) });
    let info =
        get_directory_info("/tmp/out", &writable_directory(), &stats, &Ok(5 * 1024 * 1024 + 7))
            .unwrap();
    assert_eq!(info.path, "/tmp/out");
    assert!(info.is_writable);
    assert_eq!(info.available_space_bytes, 5 * 1024 * 1024 + 7);
    assert_eq!(info.available_space_mb, 5);
    assert_eq!(info.last_modified, Some(at(1_700_000_000)));

    let unknown = Err(FileSystemError::IoError("statvfs".into()));
    let info = get_directory_info("/tmp/out", &writable_directory(), &stats, &unknown).unwrap();
    assert_eq!((info.available_space_bytes, info.available_space_mb), (0, 0));

    let undated = Ok(FileStats { size: 4096, modified_secs: None });
    let info = get_directory_info("/tmp/out", &writable_directory(), &undated, &Ok(1)).unwrap();
    assert_eq!(info.last_modified, None);

    let failed = Err(IoFailure::new(IoFailureKind::Other, "gone".into()));
    assert_eq!(
        get_directory_info("/tmp/out", &writable_directory(), &failed, &Ok(1)).unwrap_err(),
        "Fehler beim Lesen der Verzeichnis-Informationen: gone"
    );
    assert_eq!(
        get_directory_info("/ro", &not_writable(), &stats, &Ok(1)).unwrap_err(),
        "Invalid directory path: Keine Schreibberechtigung für Verzeichnis /ro: Zugriff verweigert"
    );
}

#[test]
fn the_documents_go_to_the_canonical_form_of_the_destination() {
    let mut o = Orchestrator::new();
    let mut facts = preflight(5);
    facts.destination.resolved = Ok("/home/user/out".to_string());
    let cfg = ProcessingConfig::new(
        "/data/mail.pst".to_string(),
        2,
        "export".to_string(),
        "./out".to_string(),
    );
    let ticket = o.start_processing(cfg, facts).unwrap();
    assert_eq!(ticket.generator().output_dir(), "/home/user/out");
    // The session keeps the configuration as it was given.
    assert_eq!(o.get_processing_session().unwrap().config.output_directory, "./out");

    let mut probe = writable_directory();
    probe.resolved = Ok("/home/user/out".to_string());
    assert_eq!(
        select_directory(Some("./out".into()), &probe, Ok(1 << 30)),
        Ok(Some("/home/user/out".to_string()))
    );
    let stats = Ok(FileStats { size: 1, modified_secs: None });
    assert_eq!(get_directory_info("./out", &probe, &stats, &Ok(1)).unwrap().path, "/home/user/out");
}
