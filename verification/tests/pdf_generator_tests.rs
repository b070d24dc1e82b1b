use pst_to_pdf::directory_validator::DirectoryProbe;
use pst_to_pdf::errors::{IoFailure, IoFailureKind, PdfError};
use pst_to_pdf::pdf_generator::{
    format_file_size, prepare_body_text, strip_html_tags, truncate_text, DrawOp, FontStyle,
    PdfGenerator,
};
use pst_to_pdf::time::{LocalTimestamp, Timestamp};
use pst_to_pdf::types::{Attachment, Email, EmailPriority};

fn writable_directory() -> DirectoryProbe {
    DirectoryProbe {
        reserves_device_names: false,
        exists: true,
        is_directory: Ok(true),
        write_test: Ok(()),
        resolved: Ok("/tmp/out".to_string()),
    }
}

fn nothing_there() -> DirectoryProbe {
    DirectoryProbe {
        reserves_device_names: false,
        exists: false,
        is_directory: Err(IoFailure::new(IoFailureKind::NotFound, "not found".to_string())),
        write_test: Err(IoFailure::new(IoFailureKind::NotFound, "not found".to_string())),
        resolved: Err(IoFailure::new(IoFailureKind::NotFound, "No such file or directory (os error 2)".to_string())),
    }
}

fn test_generator(base: &str) -> PdfGenerator {
    PdfGenerator::new("/tmp/out".to_string(), base.to_string(), &writable_directory()).unwrap()
}

/// 2024-03-05 14:07:09 UTC, taken two hours east of Greenwich.
fn fixed_generator(base: &str) -> PdfGenerator {
    let instant = Timestamp::new(1_709_647_629, 0).unwrap();
    let stamp = LocalTimestamp::new(instant, 7200).unwrap();
    PdfGenerator::new_at("/tmp/out".to_string(), base.to_string(), &writable_directory(), stamp)
        .unwrap()
}

fn create_test_email(subject: &str, sender: &str, recipient: &str) -> Email {
    Email {
        subject: subject.to_string(),
        sender: sender.to_string(),
        recipient: recipient.to_string(),
        cc_recipients: vec![],
        bcc_recipients: vec![],
        date: Timestamp::new(1_704_103_200, 0).unwrap(),
        body: "This is a test email body with some content.".to_string(),
        is_html: false,
        attachments: vec![],
        priority: EmailPriority::Normal,
        message_id: Some("test@example.com".to_string()),
        in_reply_to: None,
        size: 1024,
    }
}

fn create_test_email_with_attachments() -> Email {
    let mut email = create_test_email(
        "Test Email with Attachments",
        "sender@example.com",
        "recipient@example.com",
    );

    email.attachments = vec![
        Attachment {
            name: "document.pdf".to_string(),
            size: 2048,
            content_type: "application/pdf".to_string(),
            is_inline: false,
            content_id: None,
            data: None,
        },
        Attachment {
            name: "image.jpg".to_string(),
            size: 1536,
            content_type: "image/jpeg".to_string(),
            is_inline: true,
            content_id: Some("img1".to_string()),
            data: None,
        },
    ];

    email
}

fn texts_of(ops: &[DrawOp]) -> Vec<(String, u32, i32, i32, FontStyle)> {
    let mut out = Vec::new();
    for op in ops {
        if let DrawOp::Text { text, size, x, y, font } = op {
            out.push((text.clone(), *size, *x, *y, *font));
        }
    }
    out
}

fn rules_of(ops: &[DrawOp]) -> Vec<(i32, i32, i32)> {
    let mut out = Vec::new();
    for op in ops {
        if let DrawOp::Rule { from_x, to_x, y } = op {
            out.push((*from_x, *to_x, *y));
        }
    }
    out
}

fn height_of(op: &DrawOp) -> i32 {
    match op {
        DrawOp::Text { y, .. } => *y,
        DrawOp::Rule { y, .. } => *y,
    }
}

#[test]
fn test_pdf_generator_creation() {
    let generator =
        PdfGenerator::new("/tmp/out".to_string(), "test_base".to_string(), &writable_directory());

    assert!(generator.is_ok());
    let generator = generator.unwrap();
    assert_eq!(generator.base_name(), "test_base");
    assert_eq!(generator.output_dir(), "/tmp/out");
}

#[test]
fn test_pdf_generator_invalid_directory() {
    let result = PdfGenerator::new(
        "/nonexistent/directory".to_string(),
        "test".to_string(),
        &nothing_there(),
    );

    assert!(result.is_err());
    match result.unwrap_err() {
        PdfError::InvalidOutputDirectory(_) => {}
        _ => panic!("Expected InvalidOutputDirectory error"),
    }
}

#[test]
fn test_filename_generation() {
    let generator = test_generator("test_emails");

    let filename1 = generator.generate_filename(1);
    let filename2 = generator.generate_filename(2);

    // Both should have same timestamp but different sequence numbers
    assert!(filename1.contains("test_emails"));
    assert!(filename2.contains("test_emails"));
    assert!(filename1.ends_with("_1.pdf"));
    assert!(filename2.ends_with("_2.pdf"));

    // Should be in ISO format YYYY-MM-DDTHH-MM-SS
    let dash_count = filename1.matches('-').count();
    assert!(dash_count == 4); // Exactly 4 dashes in ISO format YYYY-MM-DDTHH-MM-SS
    assert!(filename1.contains('T')); // ISO format separator
}

#[test]
fn test_generate_pdf_empty_emails() {
    let generator = test_generator("test");

    let result = generator.generate_pdf(vec![], 1);
    assert!(result.is_err());
    match result.unwrap_err() {
        PdfError::GenerationFailed(_) => {}
        _ => panic!("Expected GenerationFailed error"),
    }
}

#[test]
fn test_generate_pdf_single_email() {
    let generator = test_generator("test");

    let emails =
        vec![create_test_email("Test Subject", "test@example.com", "recipient@example.com")];
    let result = generator.generate_pdf(emails, 1);

    assert!(result.is_ok());
    let document = result.unwrap();
    assert!(!document.pages.is_empty());
    assert!(document.file_name.ends_with(".pdf"));
}

#[test]
fn test_generate_pdf_multiple_emails() {
    let generator = test_generator("multi_test");

    let emails = vec![
        create_test_email("First Email", "sender1@example.com", "recipient1@example.com"),
        create_test_email("Second Email", "sender2@example.com", "recipient2@example.com"),
        create_test_email_with_attachments(),
    ];

    let result = generator.generate_pdf(emails, 1);
    assert!(result.is_ok());

    let document = result.unwrap();
    assert!(!document.pages.is_empty());
    assert!(document.file_name.contains("multi_test"));
}

#[test]
fn test_truncate_text() {
    let generator = test_generator("test");

    let short_text = "Short";
    let long_text = "This is a very long text that should be truncated";

    assert_eq!(generator.truncate_text(short_text, 10), "Short");
    assert_eq!(generator.truncate_text(long_text, 10), "This is...");
    assert_eq!(generator.truncate_text(long_text, 20), "This is a very lo...");
}

#[test]
fn test_strip_html_tags() {
    let generator = test_generator("test");

    let html_text = "<p>Hello <b>world</b>!</p><br/><div>Test</div>";
    let plain_text = generator.strip_html_tags(html_text);

    assert_eq!(plain_text, "Hello world! Test");
    assert!(!plain_text.contains('<'));
    assert!(!plain_text.contains('>'));
}

#[test]
fn test_format_file_size() {
    let generator = test_generator("test");

    assert_eq!(generator.format_file_size(512), "512 B");
    assert_eq!(generator.format_file_size(1024), "1.0 KB");
    assert_eq!(generator.format_file_size(1536), "1.5 KB");
    assert_eq!(generator.format_file_size(1048576), "1.0 MB");
    assert_eq!(generator.format_file_size(1073741824), "1.0 GB");
}

#[test]
fn test_prepare_body_text() {
    let generator = test_generator("test");

    let body_text = "Line 1\n\nLine 2 with some content\n   \nLine 3";
    let lines = generator.prepare_body_text(body_text, 20);

    assert_eq!(lines.len(), 2);
    assert_eq!(lines[0], "Line 1 Line 2 with");
    assert_eq!(lines[1], "some content Line 3");
}

#[test]
fn test_validate_output_directory() {
    let generator = test_generator("test");

    let result = generator.validate_output_directory(&Ok(()));
    assert!(result.is_ok());
}

#[test]
fn test_session_timestamp_consistency() {
    let generator = test_generator("test");

    let timestamp1 = generator.get_session_timestamp();
    let timestamp2 = generator.get_session_timestamp();

    // Should be the same timestamp for the same generator instance
    assert_eq!(timestamp1, timestamp2);
}

#[test]
fn generator_refuses_a_file_and_a_directory_without_write_access() {
    let a_file = DirectoryProbe {
        reserves_device_names: false,
        exists: true,
        is_directory: Ok(false),
        write_test: Ok(()),
        resolved: Ok("/resolved".to_string()),
    };
    match PdfGenerator::new("/tmp/f".to_string(), "b".to_string(), &a_file).unwrap_err() {
        PdfError::InvalidOutputDirectory(m) => assert_eq!(m, "Path is not a directory: /tmp/f"),
        other => panic!("unexpected error {:?}", other),
    }
    match PdfGenerator::new("/gone".to_string(), "b".to_string(), &nothing_there()).unwrap_err() {
        PdfError::InvalidOutputDirectory(m) => assert_eq!(m, "Directory does not exist: /gone"),
        other => panic!("unexpected error {:?}", other),
    }
    let read_only = DirectoryProbe {
        reserves_device_names: false,
        exists: true,
        is_directory: Ok(true),
        write_test: Err(IoFailure::new(IoFailureKind::PermissionDenied, "denied".to_string())),
        resolved: Ok("/resolved".to_string()),
    };
    match PdfGenerator::new("/ro".to_string(), "b".to_string(), &read_only).unwrap_err() {
        PdfError::PermissionDenied(m) => assert_eq!(m, "Cannot write to directory /ro: denied"),
        other => panic!("unexpected error {:?}", other),
    }
    let generator = test_generator("b");
    let failed = Err(IoFailure::new(IoFailureKind::Other, "disk full".to_string()));
    match generator.validate_output_directory(&failed).unwrap_err() {
        PdfError::PermissionDenied(m) => {
            assert_eq!(m, "Cannot write to directory /tmp/out: disk full")
        }
        other => panic!("unexpected error {:?}", other),
    }
}

#[test]
fn file_names_carry_the_local_time_of_the_capture() {
    let generator = fixed_generator("mails");
    assert_eq!(generator.generate_filename(1), "2024-03-05T16-07-09_mails_1.pdf");
    assert_eq!(generator.generate_filename(42), "2024-03-05T16-07-09_mails_42.pdf");
    // The same number gives the same name again.
    assert_eq!(generator.generate_filename(42), generator.generate_filename(42));
}

#[test]
fn empty_batch_message_is_exact() {
    match test_generator("x").generate_pdf(vec![], 3).unwrap_err() {
        PdfError::GenerationFailed(m) => assert_eq!(m, "Cannot generate PDF from empty email list"),
        other => panic!("unexpected error {:?}", other),
    }
}

#[test]
fn truncation_counts_the_dots_and_keeps_characters_whole() {
    assert_eq!(truncate_text("abcdefghij", 10), "abcdefghij");
    assert_eq!(truncate_text("abcdefghijk", 10), "abcdefg...");
    assert_eq!(truncate_text("abcdef", 3), "...");
    assert_eq!(truncate_text("abcdef", 2), "...");
    assert_eq!(truncate_text("abcdef", 0), "...");
    assert_eq!(truncate_text("", 0), "");
    // Two-byte characters: ten bytes fit a cap of ten.
    assert_eq!(truncate_text("äääää", 10), "äääää");
    // Twelve bytes do not; seven bytes of room hold three whole characters.
    assert_eq!(truncate_text("ääääää", 10), "äää...");
    // Where the cut falls on a boundary, the result is that of a byte slice.
    let text = "aäääää";
    assert_eq!(truncate_text(text, 10), format!("{}...", &text[..7]));
}

#[test]
fn truncated_text_keeps_to_its_cap() {
    for text in ["", "short", "exactly ten", "ünïcödé téxt thät ïs löng", "日本語のテキストです"] {
        for cap in 3usize..30 {
            assert!(truncate_text(text, cap).len() <= cap);
        }
    }
}

#[test]
fn markup_is_removed_as_described() {
    assert_eq!(strip_html_tags("plain text"), "plain text");
    assert_eq!(strip_html_tags(""), "");
    assert_eq!(strip_html_tags("<b></b>"), "");
    // A space is set between text and text that directly follows a tag.
    assert_eq!(strip_html_tags("one<br>two"), "one two");
    // None before punctuation or whitespace, none at the start.
    assert_eq!(strip_html_tags("one<br>, two"), "one, two");
    assert_eq!(strip_html_tags("<p>start</p>"), "start");
    assert_eq!(strip_html_tags("a <i>b</i> c"), "a b c");
    // An unclosed tag swallows the rest.
    assert_eq!(strip_html_tags("text <unclosed and more"), "text");
    // A closing bracket without a tag is dropped and counts as a tag end.
    assert_eq!(strip_html_tags("1 > 0 and a>b"), "1 0 and a b");
    assert_eq!(strip_html_tags("  many \n\t spaces  "), "many spaces");
}

#[test]
fn words_are_wrapped_greedily() {
    assert_eq!(prepare_body_text("", 10), Vec::<String>::new());
    assert_eq!(prepare_body_text("   ", 10), Vec::<String>::new());
    assert_eq!(prepare_body_text("aaa bbb ccc", 7), vec!["aaa bbb", "ccc"]);
    assert_eq!(prepare_body_text("aaa bbb ccc", 6), vec!["aaa", "bbb", "ccc"]);
    // A word that is longer than a line has a line to itself.
    assert_eq!(
        prepare_body_text("a verylongwordindeed b", 5),
        vec!["a", "verylongwordindeed", "b"]
    );
    assert_eq!(prepare_body_text("<p>Hello</p><p>World</p>", 90), vec!["Hello World"]);
    // Lengths are counted in bytes: "ää ää" takes nine.
    assert_eq!(prepare_body_text("ää ää", 9), vec!["ää ää"]);
    assert_eq!(prepare_body_text("ää ää", 8), vec!["ää", "ää"]);
}

#[test]
fn file_sizes_match_the_formatting_of_doubles() {
    let mut sizes: Vec<usize> = vec![
        0, 1, 1023, 1024, 1025, 1280, 1331, 1332, 1536, 1792, 2047, 2048, 10_000, 1_048_575,
        1_048_576, 1_310_720, 1_073_741_823, 1_073_741_824, 1_342_177_280, 5_000_000_000,
        1_099_511_627_776,
    ];
    // Exact halves of a tenth: 256 times an odd number, in KB.
    for odd in [1usize, 3, 5, 7, 9, 11, 13, 15, 17, 19, 21, 101, 4001] {
        sizes.push(256 * odd * 5);
        sizes.push(256 * 1024 * odd * 5);
    }
    for size in sizes {
        let units = ["B", "KB", "MB", "GB"];
        let mut value = size as f64;
        let mut unit = 0;
        while value >= 1024.0 && unit < units.len() - 1 {
            value /= 1024.0;
            unit += 1;
        }
        let expected = if unit == 0 {
            format!("{} {}", size, units[unit])
        } else {
            format!("{:.1} {}", value, units[unit])
        };
        assert_eq!(format_file_size(size), expected);
    }
}

#[test]
fn very_large_file_sizes_round_as_doubles_do() {
    for size in [
        (1u64 << 53) - 1,
        1u64 << 53,
        (1u64 << 53) + 1,
        (1u64 << 53) + 3,
        (1u64 << 60) + 127,
        (1u64 << 60) + 128,
        (1u64 << 60) + 129,
        u64::MAX - 1024,
        u64::MAX,
    ] {
        let value = size as f64 / 1024.0 / 1024.0 / 1024.0;
        assert_eq!(format_file_size(size as usize), format!("{:.1} GB", value));
    }
}

#[test]
fn a_document_is_laid_out_line_by_line() {
    let generator = fixed_generator("archive");
    let mut email = create_test_email_with_attachments();
    email.cc_recipients = vec!["a@example.com".to_string(), "b@example.com".to_string()];
    email.body = "<p>Hello</p> world".to_string();
    let document = generator.generate_pdf(vec![email], 7).unwrap();

    assert_eq!(document.title, "Email Archive - archive");
    assert_eq!(document.file_name, "2024-03-05T16-07-09_archive_7.pdf");
    assert_eq!(document.pages.len(), 1);
    let texts = texts_of(&document.pages[0].ops);
    let expected: Vec<(String, u32, i32, i32, FontStyle)> = vec![
        ("Email Archive - archive".to_string(), 16, 20, 280, FontStyle::Bold),
        (
            "Generated: 05.03.2024 16:07:09 | Emails: 1 | Sequence: 7".to_string(),
            10,
            20,
            268,
            FontStyle::Regular,
        ),
        ("Email 1 of 1".to_string(), 12, 20, 250, FontStyle::Bold),
        ("Subject: Test Email with Attachments".to_string(), 10, 20, 244, FontStyle::Bold),
        ("From: sender@example.com".to_string(), 10, 20, 238, FontStyle::Regular),
        ("To: recipient@example.com".to_string(), 10, 20, 232, FontStyle::Regular),
        ("CC: a@example.com, b@example.com".to_string(), 10, 20, 226, FontStyle::Regular),
        ("Date: 01.01.2024 10:00:00".to_string(), 10, 20, 220, FontStyle::Regular),
        (
            "Attachments: document.pdf (2.0 KB), image.jpg (1.5 KB)".to_string(),
            10,
            20,
            214,
            FontStyle::Regular,
        ),
        ("Hello world".to_string(), 9, 25, 205, FontStyle::Regular),
    ];
    assert_eq!(texts, expected);
    assert_eq!(rules_of(&document.pages[0].ops), vec![(20, 190, 256), (20, 190, 195)]);
}

#[test]
fn long_fields_are_capped_at_eighty_bytes() {
    let generator = fixed_generator("archive");
    let email = create_test_email(&"s".repeat(200), "from", "to");
    let document = generator.generate_pdf(vec![email], 1).unwrap();
    let texts = texts_of(&document.pages[0].ops);
    assert_eq!(texts[3].0, format!("Subject: {}...", "s".repeat(77)));
}

#[test]
fn at_most_ten_body_lines_are_shown() {
    let generator = fixed_generator("archive");
    let mut email = create_test_email("s", "f", "t");
    email.body = "word ".repeat(400);
    let document = generator.generate_pdf(vec![email], 1).unwrap();
    let mut body_lines = 0;
    for page in &document.pages {
        for (_, size, x, _, _) in texts_of(&page.ops) {
            if size == 9 && x == 25 {
                body_lines += 1;
            }
        }
    }
    assert_eq!(body_lines, 10);
}

#[test]
fn pages_break_at_the_low_water_marks_and_nothing_leaves_the_page() {
    let generator = fixed_generator("archive");
    let mut emails = Vec::new();
    for i in 0..25 {
        let mut email = create_test_email(&format!("Subject {}", i), "from", "to");
        email.body = "word ".repeat(20 * (i % 7));
        if i % 3 == 0 {
            email.cc_recipients = vec!["cc@example.com".to_string()];
        }
        emails.push(email);
    }
    let document = generator.generate_pdf(emails, 2).unwrap();
    assert!(document.pages.len() > 1);
    let mut headings = 0;
    for page in &document.pages {
        assert!(!page.ops.is_empty());
        for op in &page.ops {
            let y = height_of(op);
            assert!((14..=280).contains(&y), "drawn at {}", y);
        }
        for (text, size, _, y, _) in texts_of(&page.ops) {
            if size == 12 {
                headings += 1;
                assert!(text.starts_with("Email "));
                assert!(y >= 50);
            }
            if size == 9 {
                assert!(y >= 30);
            }
        }
        // Every page but the first starts at the top.
        assert_eq!(height_of(&page.ops[0]), 280);
    }
    assert_eq!(headings, 25);
}
