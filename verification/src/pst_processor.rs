//! The message source: it checks the header of an archive file, says how many
//! messages the archive holds, and hands them out in the order of their
//! dates. What is read from the file is handed to the library as plain
//! values.

use std::collections::HashMap;
use vstd::prelude::*;
use vstd::string::*;
use crate::errors::{IoFailure, IoFailureKind, IoFault, PstError, PstFault};
use crate::text::{
    decimal, is_plain_name, lemma_decimal_len_u64, lemma_utf8_len_bounds, lowercase_text, measure,
    push_decimal, same_text, utf8_len,
};
use crate::time::{
    earlier, not_later, representable, utc_civil_seconds, Instant, Timestamp, MAX_SECONDS,
};
use crate::types::{
    extension_found, path_extension, plain_extension, stands_behind_dot, Attachment,
    AttachmentModel, Email, EmailModel, EmailPriority, PstInfo, PstInfoModel,
};

verus! {

/// The number of bytes of an archive's header.
pub const HEADER_BYTES: usize = 512;

/// The most messages that an archive is ever said to hold.
pub const MAX_EMAIL_COUNT: u64 = 50_000;

/// The two formats of archive files.
#[derive(Clone, Copy, Debug, PartialEq, Eq)]
pub enum PstFormat {
    /// The format of Outlook 97 to 2002.
    Ansi,
    /// The format of Outlook 2003 and later.
    Unicode,
}

/// What the file system says of a file: its size, and when it was last
/// changed, in seconds after the Unix epoch, where that is known.
#[derive(Clone, Copy, Debug, PartialEq, Eq)]
pub struct FileStats {
    pub size: u64,
    pub modified_secs: Option<u64>,
}

/// What was found at the path of an archive file.
#[derive(Debug)]
pub struct PstFileProbe {
    /// Whether anything exists at the path.
    pub exists: bool,
    /// Whether what exists there is a regular file.
    pub is_file: bool,
    /// The file's size and date, or why they could not be had.
    pub stats: Result<FileStats, IoFailure>,
    /// The first 512 bytes of the file, or why they could not be read.
    pub header: Result<[u8; 512], IoFailure>,
}

/// What a `PstFileProbe` stands for.
pub struct PstFileFacts {
    pub exists: bool,
    pub is_file: bool,
    pub stats: Result<FileStats, IoFault>,
    pub header: Result<Seq<u8>, IoFault>,
}

impl View for PstFileProbe {
    type V = PstFileFacts;

    open spec fn view(&self) -> PstFileFacts {
        PstFileFacts {
            exists: self.exists,
            is_file: self.is_file,
            stats: match self.stats {
                Ok(s) => Ok(s),
                Err(e) => Err(e@),
            },
            header: match self.header {
                Ok(bytes) => Ok(bytes@),
                Err(e) => Err(e@),
            },
        }
    }
}

/// The fields of an archive's header that are looked at.
#[derive(Clone, Copy, Debug, PartialEq, Eq)]
pub struct PstHeader {
    pub signature: [u8; 4],
    pub crc: u32,
    pub version: u16,
    pub format: PstFormat,
    pub file_size: u64,
}

/// The four bytes that every archive starts with: `!BDN`.
pub open spec fn is_signature(bytes: Seq<u8>) -> bool {
    bytes.len() >= 4 && bytes[0] == 0x21 && bytes[1] == 0x42 && bytes[2] == 0x44 && bytes[3]
        == 0x4E
}

/// The number that two bytes hold, the lower byte first.
pub open spec fn le_u16(b0: u8, b1: u8) -> int {
    b0 + 256 * b1
}

/// The number that four bytes hold, the lowest byte first.
pub open spec fn le_u32(b0: u8, b1: u8, b2: u8, b3: u8) -> int {
    b0 + 256 * b1 + 65_536 * b2 + 16_777_216 * b3
}

/// The version number in a header: its bytes 8 and 9.
pub open spec fn header_version(bytes: Seq<u8>) -> int {
    le_u16(bytes[8], bytes[9])
}

/// The format that a version number stands for, if it is a known one.
pub open spec fn format_of_version(version: int) -> Option<PstFormat> {
    if version == 14 || version == 15 {
        Some(PstFormat::Ansi)
    } else if version == 23 {
        Some(PstFormat::Unicode)
    } else {
        None
    }
}

/// The complaint about a version that is not known.
pub open spec fn unknown_version_text(version: int) -> Seq<char> {
    "Unbekannte PST-Version: "@ + decimal(version as nat)
        + ". Unterstützte Versionen: ANSI (14, 15) und Unicode (23)"@
}

/// What reading the header comes to: the header, or the first thing that
/// stood in the way. A header that could not be read comes first, then a
/// version that is not known, then file statistics that could not be had.
pub open spec fn header_verdict(facts: PstFileFacts) -> Result<PstHeader, PstFault> {
    match facts.header {
        Err(fault) => Err(PstFault::IoError(fault.detail)),
        Ok(bytes) => match format_of_version(header_version(bytes)) {
            None => Err(PstFault::InvalidFormat(unknown_version_text(header_version(bytes)))),
            Some(format) => match facts.stats {
                Err(fault) => Err(PstFault::IoError(fault.detail)),
                Ok(stats) => Ok(
                    PstHeader {
                        signature: [bytes[0], bytes[1], bytes[2], bytes[3]],
                        crc: le_u32(bytes[4], bytes[5], bytes[6], bytes[7]) as u32,
                        version: header_version(bytes) as u16,
                        format,
                        file_size: stats.size,
                    },
                ),
            },
        },
    }
}

/// How many messages an archive of the given size and format is taken to
/// hold: one for every 80,000 bytes of the older format and every 120,000
/// of the newer, at least one and at most 50,000.
pub open spec fn estimated_count(file_size: nat, format: PstFormat) -> nat {
    let per_email: nat = match format {
        PstFormat::Ansi => 80_000,
        PstFormat::Unicode => 120_000,
    };
    let raw = file_size / per_email;
    if raw < 1 {
        1
    } else if raw > MAX_EMAIL_COUNT {
        MAX_EMAIL_COUNT as nat
    } else {
        raw
    }
}

fn io_error(failure: &IoFailure) -> (e: PstError)
    ensures
        e@ == PstFault::IoError(failure@.detail),
{
    PstError::IoError(failure.detail.clone())
}

fn invalid_format(message: String) -> (e: PstError)
    ensures
        e@ == PstFault::InvalidFormat(message@),
{
    PstError::InvalidFormat(message)
}

/// Reads the header of an archive from the first bytes of its file.
pub fn read_pst_header(file: &PstFileProbe) -> (r: Result<PstHeader, PstError>)
    ensures
        match (r, header_verdict(file@)) {
            (Ok(header), Ok(expected)) => header == expected,
            (Err(e), Err(fault)) => e@ == fault,
            _ => false,
        },
{
    let bytes = match &file.header {
        Err(failure) => {
            return Err(io_error(failure));
        },
        Ok(bytes) => bytes,
    };
    let signature: [u8; 4] = [bytes[0], bytes[1], bytes[2], bytes[3]];
    let crc: u32 = bytes[4] as u32 + 256 * (bytes[5] as u32) + 65_536 * (bytes[6] as u32)
        + 16_777_216 * (bytes[7] as u32);
    let version: u16 = bytes[8] as u16 + 256 * (bytes[9] as u16);
    let format = if version == 14 || version == 15 {
        PstFormat::Ansi
    } else if version == 23 {
        PstFormat::Unicode
    } else {
        let mut message = String::from_str("Unbekannte PST-Version: ");
        push_decimal(&mut message, version as u64);
        message.append(". Unterstützte Versionen: ANSI (14, 15) und Unicode (23)");
        return Err(invalid_format(message));
    };
    let stats = match &file.stats {
        Err(failure) => {
            return Err(io_error(failure));
        },
        Ok(stats) => stats,
    };
    Ok(PstHeader { signature, crc, version, format, file_size: stats.size })
}

/// How many messages an archive of the given size and format is taken to
/// hold.
pub fn scan_email_count(file_size: u64, format: PstFormat) -> (count: usize)
    ensures
        count == estimated_count(file_size as nat, format),
        1 <= count <= MAX_EMAIL_COUNT,
{
    let raw: u64 = match format {
        PstFormat::Ansi => file_size / 80_000,
        PstFormat::Unicode => file_size / 120_000,
    };
    if raw < 1 {
        1
    } else if raw > MAX_EMAIL_COUNT {
        MAX_EMAIL_COUNT as usize
    } else {
        raw as usize
    }
}

/// Where `e` goes into messages that are in the order of their dates:
/// behind the last that is not later than it.
pub open spec fn insert_position(sorted: Seq<EmailModel>, e: EmailModel) -> nat
    decreases sorted.len(),
{
    if sorted.len() == 0 {
        0
    } else if earlier(e.date, sorted.last().date) {
        insert_position(sorted.drop_last(), e)
    } else {
        sorted.len()
    }
}

/// The messages in the order of their dates, the earliest first; messages of
/// the same date keep the order in which they came.
pub open spec fn chronological(emails: Seq<EmailModel>) -> Seq<EmailModel>
    decreases emails.len(),
{
    if emails.len() == 0 {
        emails
    } else {
        let head = chronological(emails.drop_last());
        head.insert(insert_position(head, emails.last()) as int, emails.last())
    }
}

/// Whether no message comes before one that is earlier.
pub open spec fn in_date_order(emails: Seq<EmailModel>) -> bool {
    forall|i: int, j: int|
        0 <= i < j < emails.len() ==> not_later(
            (#[trigger] emails[i]).date,
            (#[trigger] emails[j]).date,
        )
}

proof fn lemma_insert_position(sorted: Seq<EmailModel>, e: EmailModel)
    ensures
        insert_position(sorted, e) <= sorted.len(),
        forall|j: int|
            insert_position(sorted, e) <= j < sorted.len() ==> earlier(
                e.date,
                (#[trigger] sorted[j]).date,
            ),
        insert_position(sorted, e) > 0 ==> !earlier(
            e.date,
            sorted[insert_position(sorted, e) - 1].date,
        ),
    decreases sorted.len(),
{
    if sorted.len() > 0 && earlier(e.date, sorted.last().date) {
        let front = sorted.drop_last();
        lemma_insert_position(front, e);
        let p = insert_position(sorted, e);
        assert forall|j: int| p <= j < sorted.len() implies earlier(
            e.date,
            (#[trigger] sorted[j]).date,
        ) by {
            if j < front.len() {
                assert(sorted[j] == front[j]);
            }
        }
        if p > 0 {
            assert(sorted[p - 1] == front[p - 1]);
        }
    }
}

proof fn lemma_insert_keeps_order(sorted: Seq<EmailModel>, e: EmailModel)
    requires
        in_date_order(sorted),
    ensures
        in_date_order(sorted.insert(insert_position(sorted, e) as int, e)),
{
    lemma_insert_position(sorted, e);
    let p = insert_position(sorted, e) as int;
    let out = sorted.insert(p, e);
    assert forall|i: int, j: int| 0 <= i < j < out.len() implies not_later(
        (#[trigger] out[i]).date,
        (#[trigger] out[j]).date,
    ) by {
        if j < p {
            assert(out[i] == sorted[i] && out[j] == sorted[j]);
        } else if j == p {
            assert(out[i] == sorted[i]);
            if i < p - 1 {
                assert(not_later(sorted[i].date, sorted[p - 1].date));
            }
        } else if i < p {
            assert(out[i] == sorted[i] && out[j] == sorted[j - 1]);
        } else if i == p {
            assert(out[j] == sorted[j - 1]);
        } else {
            assert(out[i] == sorted[i - 1] && out[j] == sorted[j - 1]);
        }
    }
}

/// The chronological order is an order by date, and it holds the same
/// messages, each as often as before.
pub proof fn lemma_chronological_is_sorted_permutation(emails: Seq<EmailModel>)
    ensures
        in_date_order(chronological(emails)),
        chronological(emails).len() == emails.len(),
        chronological(emails).to_multiset() == emails.to_multiset(),
    decreases emails.len(),
{
    if emails.len() > 0 {
        let front = emails.drop_last();
        let head = chronological(front);
        lemma_chronological_is_sorted_permutation(front);
        lemma_insert_position(head, emails.last());
        lemma_insert_keeps_order(head, emails.last());
        let p = insert_position(head, emails.last()) as int;
        vstd::seq_lib::to_multiset_insert(head, p, emails.last());
        vstd::seq_lib::to_multiset_build(front, emails.last());
        assert(front.push(emails.last()) =~= emails);
    }
}

/// Puts the messages into the order of their dates, the earliest first;
/// messages of the same date keep their order.
pub fn sort_chronologically(emails: Vec<Email>) -> (sorted: Vec<Email>)
    ensures
        sorted.deep_view() == chronological(emails.deep_view()),
        in_date_order(sorted.deep_view()),
        sorted.len() == emails.len(),
        sorted.deep_view().to_multiset() == emails.deep_view().to_multiset(),
{
    let ghost all = emails.deep_view();
    let ghost given = emails@;
    let mut sorted: Vec<Email> = Vec::new();
    proof {
        assert(sorted.deep_view() =~= chronological(all.take(0)));
    }
    for e in it: emails
        invariant
            it.seq() == given,
            given.len() == all.len(),
            forall|i: int| 0 <= i < given.len() ==> (#[trigger] given[i])@ == all[i],
            sorted.deep_view() == chronological(all.take(it.index() as int)),
    {
        let ghost before = sorted.deep_view();
        let mut p: usize = sorted.len();
        proof {
            assert(before.take(p as int) =~= before);
        }
        while p > 0 && e.date.is_before(&sorted[p - 1].date)
            invariant
                p <= sorted.len(),
                sorted.deep_view() == before,
                insert_position(before, e@) == insert_position(before.take(p as int), e@),
            decreases p,
        {
            proof {
                assert(before.take(p as int).last() == sorted@[p - 1]@);
                assert(before.take(p as int).drop_last() =~= before.take(p - 1));
            }
            p -= 1;
        }
        proof {
            if p > 0 {
                assert(before.take(p as int).last() == sorted@[p - 1]@);
            }
            assert(insert_position(before, e@) == p);
            let i = it.index() as int;
            assert(all.take(i + 1).drop_last() =~= all.take(i));
            assert(all.take(i + 1).last() == e@);
        }
        let ghost model = e@;
        sorted.insert(p, e);
        proof {
            assert(sorted.deep_view() =~= before.insert(p as int, model));
        }
    }
    proof {
        assert(all.take(all.len() as int) =~= all);
        lemma_chronological_is_sorted_permutation(all);
    }
    sorted
}

/// The date of the sample message number `index`: as many days after ten
/// o'clock on the first day of 2024, UTC, where chrono can hold that day.
pub open spec fn sample_date(index: nat) -> Option<Instant> {
    match utc_civil_seconds(2024, 1, 1, 10, 0, 0) {
        Some(base) => if index <= u64::MAX && base + 86_400 * index <= MAX_SECONDS {
            Some(Instant { secs: base + 86_400 * index, nanos: 0 })
        } else {
            None
        },
        None => None,
    }
}

/// The priority of the sample message number `index`.
pub open spec fn sample_priority(index: nat) -> EmailPriority {
    if index % 4 == 0 {
        EmailPriority::Low
    } else if index % 4 == 1 {
        EmailPriority::Normal
    } else if index % 4 == 2 {
        EmailPriority::High
    } else {
        EmailPriority::Urgent
    }
}

/// The subject of the sample message number `index`.
pub open spec fn sample_subject(index: nat) -> Seq<char> {
    "Email Subject "@ + decimal(index + 1)
}

/// The body of the sample message number `index`.
pub open spec fn sample_body(index: nat) -> Seq<char> {
    "This is the body content of email number "@ + decimal(index + 1)
        + ".\n\nThis email contains sample content for testing purposes."@
}

/// The sample message number `index`, counted from zero, with the date
/// given. Every third message has somebody in copy, every second is marked
/// as HTML, and every fifth carries an attachment.
pub open spec fn sample_email(index: nat, date: Instant) -> EmailModel {
    EmailModel {
        subject: sample_subject(index),
        sender: "sender"@ + decimal(index + 1) + "@example.com"@,
        recipient: "recipient@example.com"@,
        cc_recipients: if index % 3 == 0 {
            seq!["cc@example.com"@]
        } else {
            Seq::empty()
        },
        bcc_recipients: Seq::empty(),
        date,
        body: sample_body(index),
        is_html: index % 2 == 0,
        attachments: if index % 5 == 0 {
            seq![
                AttachmentModel {
                    name: "document_"@ + decimal(index + 1) + ".pdf"@,
                    size: 1024 * (index % 10 + 1),
                    content_type: "application/pdf"@,
                    is_inline: false,
                    content_id: None,
                    data: None,
                },
            ]
        } else {
            Seq::empty()
        },
        priority: sample_priority(index),
        message_id: Some("<message-"@ + decimal(index + 1) + "@example.com>"@),
        in_reply_to: None,
        size: utf8_len(sample_body(index)) + utf8_len(sample_subject(index)) + 200,
    }
}

/// What comes of making the sample message number `index`: the message,
/// or nothing where its date is out of range.
pub open spec fn sample_record(index: nat) -> Option<EmailModel> {
    match sample_date(index) {
        Some(date) => Some(sample_email(index, date)),
        None => None,
    }
}

proof fn lemma_sample_texts_are_short(index: nat)
    requires
        index < u64::MAX,
    ensures
        utf8_len(sample_body(index)) <= 1000,
        utf8_len(sample_subject(index)) <= 1000,
{
    reveal_strlit("Email Subject ");
    reveal_strlit("This is the body content of email number ");
    reveal_strlit(".\n\nThis email contains sample content for testing purposes.");
    lemma_decimal_len_u64(index + 1);
    lemma_utf8_len_bounds(sample_body(index));
    lemma_utf8_len_bounds(sample_subject(index));
}

fn numbered(before: &str, number: u64, after: &str) -> (out: String)
    ensures
        out@ == before@ + decimal(number as nat) + after@,
{
    let mut out = String::from_str(before);
    push_decimal(&mut out, number);
    out.append(after);
    out
}

fn date_out_of_range(index: usize) -> (e: PstError)
    ensures
        e@ == PstFault::ExtractionFailed(
            "Datum der E-Mail "@ + decimal(index as nat) + " ist nicht darstellbar"@,
        ),
{
    PstError::ExtractionFailed(
        numbered("Datum der E-Mail ", index as u64, " ist nicht darstellbar"),
    )
}

/// Makes the sample message number `index`, counted from zero. There is
/// none where its date would be out of the range that chrono can hold.
pub fn create_sample_email(index: usize) -> (r: Result<Email, PstError>)
    ensures
        match r {
            Ok(e) => sample_record(index as nat) == Some(e@),
            Err(e) => sample_record(index as nat) is None && e@ == PstFault::ExtractionFailed(
                "Datum der E-Mail "@ + decimal(index as nat) + " ist nicht darstellbar"@,
            ),
        },
{
    let base = match Timestamp::from_ymd_hms(2024, 1, 1, 10, 0, 0) {
        Some(base) => base,
        None => {
            return Err(date_out_of_range(index));
        },
    };
    let base_secs: i64 = base.secs();
    let date = match base.plus_days(index as u64) {
        Some(date) => date,
        None => {
            return Err(date_out_of_range(index));
        },
    };
    proof {
        assert(index < 200_000_000_000);
        lemma_sample_texts_are_short(index as nat);
    }
    let number: u64 = (index + 1) as u64;
    let subject = numbered("Email Subject ", number, "");
    let body = numbered(
        "This is the body content of email number ",
        number,
        ".\n\nThis email contains sample content for testing purposes.",
    );
    proof {
        reveal_strlit("");
        assert(subject@ =~= sample_subject(index as nat));
    }
    let body_len: usize = match measure(body.as_str(), 1000) {
        Some(n) => n,
        None => 0,
    };
    let subject_len: usize = match measure(subject.as_str(), 1000) {
        Some(n) => n,
        None => 0,
    };
    let mut cc_recipients: Vec<String> = Vec::new();
    if index % 3 == 0 {
        cc_recipients.push(String::from_str("cc@example.com"));
        proof {
            assert(cc_recipients.deep_view() =~= seq!["cc@example.com"@]);
        }
    } else {
        proof {
            assert(cc_recipients.deep_view() =~= Seq::empty());
        }
    }
    let mut attachments: Vec<Attachment> = Vec::new();
    if index % 5 == 0 {
        let attachment = Attachment::new(
            numbered("document_", number, ".pdf"),
            1024 * (index % 10 + 1),
            String::from_str("application/pdf"),
        );
        let ghost model = attachment@;
        attachments.push(attachment);
        proof {
            assert(attachments.deep_view() =~= seq![model]);
        }
    } else {
        proof {
            assert(attachments.deep_view() =~= Seq::empty());
        }
    }
    let priority = if index % 4 == 0 {
        EmailPriority::Low
    } else if index % 4 == 1 {
        EmailPriority::Normal
    } else if index % 4 == 2 {
        EmailPriority::High
    } else {
        EmailPriority::Urgent
    };
    let email = Email {
        subject,
        sender: numbered("sender", number, "@example.com"),
        recipient: String::from_str("recipient@example.com"),
        cc_recipients,
        bcc_recipients: Vec::new(),
        date,
        body,
        is_html: index % 2 == 0,
        attachments,
        priority,
        message_id: Some(numbered("<message-", number, "@example.com>")),
        in_reply_to: None,
        size: body_len + subject_len + 200,
    };
    proof {
        assert(email.bcc_recipients.deep_view() =~= Seq::empty());
    }
    Ok(email)
}

/// The complaint about a file that does not start as an archive does.
pub open spec fn bad_signature_text() -> Seq<char> {
    "Ungültige PST-Datei-Signatur - Datei ist möglicherweise beschädigt"@
}

/// What opening an archive comes to: its format and the number of its
/// messages, or the first thing that stood in the way: no file, a header that
/// could not be read or is of no known version, or a wrong signature.
pub open spec fn open_verdict(path: Seq<char>, facts: PstFileFacts) -> Result<
    (PstFormat, nat),
    PstFault,
> {
    if !facts.exists {
        Err(PstFault::FileNotFound(path))
    } else {
        match header_verdict(facts) {
            Err(fault) => Err(fault),
            Ok(header) => if !is_signature(facts.header->Ok_0) {
                Err(PstFault::InvalidFormat(bad_signature_text()))
            } else {
                Ok((header.format, estimated_count(header.file_size as nat, header.format)))
            },
        }
    }
}

/// The message source for one archive file.
#[derive(Debug)]
pub struct PstProcessor {
    file_path: String,
    email_cache: HashMap<usize, Email>,
    total_emails: usize,
    pst_format: PstFormat,
}

/// What a `PstProcessor` stands for.
pub struct SourceModel {
    pub file_path: Seq<char>,
    pub cached: Map<usize, EmailModel>,
    pub total_emails: nat,
    pub format: PstFormat,
}

impl View for PstProcessor {
    type V = SourceModel;

    closed spec fn view(&self) -> SourceModel {
        SourceModel {
            file_path: self.file_path@,
            cached: self.email_cache@.map_values(|e: Email| e@),
            total_emails: self.total_emails as nat,
            format: self.pst_format,
        }
    }
}

impl SourceModel {
    /// The message at `index`: the one that is cached, else the sample
    /// message of that number, if it can be made.
    pub open spec fn record(self, index: nat) -> Option<EmailModel> {
        if index <= usize::MAX && self.cached.contains_key(index as usize) {
            Some(self.cached[index as usize])
        } else {
            sample_record(index)
        }
    }

    /// The messages from `start` up to `end`, in the order of their
    /// numbers; what cannot be extracted is left out.
    pub open spec fn records(self, start: nat, end: nat) -> Seq<EmailModel>
        decreases end,
    {
        if end <= start {
            Seq::empty()
        } else {
            let head = self.records(start, (end - 1) as nat);
            match self.record((end - 1) as nat) {
                Some(e) => head.push(e),
                None => head,
            }
        }
    }

    /// Where a range of `count` messages from `start` ends: at the last
    /// message of the archive at the latest.
    pub open spec fn range_end(self, start: nat, count: nat) -> nat {
        if start + count < self.total_emails {
            start + count
        } else {
            self.total_emails
        }
    }

    /// The messages of a range, in the order of their dates.
    pub open spec fn extracted(self, start: nat, count: nat) -> Seq<EmailModel> {
        chronological(self.records(start, self.range_end(start, count)))
    }
}

/// No more messages come out of a range than it has numbers.
pub proof fn lemma_records_len(source: SourceModel, start: nat, end: nat)
    ensures
        source.records(start, end).len() <= if end <= start {
            0
        } else {
            end - start
        },
    decreases end,
{
    if end > start {
        lemma_records_len(source, start, (end - 1) as nat);
    }
}

impl PstProcessor {
    /// Opens the archive at `file_path`, of which `file` says what was found
    /// on disk.
    pub fn new(file_path: String, file: &PstFileProbe) -> (r: Result<PstProcessor, PstError>)
        ensures
            match (r, open_verdict(file_path@, file@)) {
                (Ok(source), Ok((format, count))) => source@ == (SourceModel {
                    file_path: file_path@,
                    cached: Map::empty(),
                    total_emails: count,
                    format,
                }),
                (Err(e), Err(fault)) => e@ == fault,
                _ => false,
            },
    {
        if !file.exists {
            let e = PstError::FileNotFound(file_path);
            return Err(e);
        }
        let header = match read_pst_header(file) {
            Ok(header) => header,
            Err(e) => {
                return Err(e);
            },
        };
        if header.signature[0] != 0x21 || header.signature[1] != 0x42 || header.signature[2]
            != 0x44 || header.signature[3] != 0x4E {
            return Err(
                invalid_format(
                    String::from_str(
                        "Ungültige PST-Datei-Signatur - Datei ist möglicherweise beschädigt",
                    ),
                ),
            );
        }
        let total_emails = scan_email_count(header.file_size, header.format);
        let source = PstProcessor {
            file_path,
            email_cache: HashMap::new(),
            total_emails,
            pst_format: header.format,
        };
        proof {
            assert(source@.cached =~= Map::empty());
        }
        Ok(source)
    }

    /// How many messages the archive holds.
    pub fn get_email_count(&self) -> (r: Result<usize, PstError>)
        ensures
            r matches Ok(count) && count == self@.total_emails,
    {
        Ok(self.total_emails)
    }

    /// The message at `index`, counted from zero.
    pub fn extract_single_email(&self, index: usize) -> (r: Result<Email, PstError>)
        ensures
            match r {
                Ok(e) => self@.record(index as nat) == Some(e@),
                Err(_) => self@.record(index as nat) is None,
            },
    {
        broadcast use vstd::std_specs::hash::group_hash_axioms;

        if let Some(email) = self.email_cache.get(&index) {
            return Ok(email.clone());
        }
        create_sample_email(index)
    }

    /// The messages of the range of `count` numbers from `start`, in the
    /// order of their dates. A message that cannot be extracted is left out.
    pub fn extract_emails(&self, start: usize, count: usize) -> (r: Result<Vec<Email>, PstError>)
        ensures
            r matches Ok(emails) && emails.deep_view() == self@.extracted(
                start as nat,
                count as nat,
            ),
            r matches Ok(emails) && in_date_order(emails.deep_view()),
            r matches Ok(emails) && emails.len() <= count && emails.len() <= self@.total_emails,
    {
        let total = self.total_emails;
        if start >= total {
            proof {
                assert(self@.records(start as nat, total as nat) =~= Seq::empty());
            }
            return Ok(Vec::new());
        }
        let end: usize = if count < total - start {
            start + count
        } else {
            total
        };
        let mut emails: Vec<Email> = Vec::new();
        let mut index: usize = start;
        while index < end
            invariant
                start <= index <= end,
                emails.deep_view() == self@.records(start as nat, index as nat),
            decreases end - index,
        {
            match self.extract_single_email(index) {
                Ok(email) => {
                    let ghost before = emails.deep_view();
                    let ghost model = email@;
                    emails.push(email);
                    proof {
                        assert(emails.deep_view() =~= before.push(model));
                    }
                },
                Err(_) => {},
            }
            index += 1;
        }
        proof {
            lemma_records_len(self@, start as nat, end as nat);
        }
        Ok(sort_chronologically(emails))
    }

    /// All the messages of the archive, in the order of their dates.
    pub fn get_all_emails_chronological(&self) -> (r: Result<Vec<Email>, PstError>)
        ensures
            r matches Ok(emails) && emails.deep_view() == self@.extracted(
                0,
                self@.total_emails,
            ),
            r matches Ok(emails) && in_date_order(emails.deep_view()),
            r matches Ok(emails) && emails.len() <= self@.total_emails,
    {
        self.extract_emails(0, self.total_emails)
    }

    /// Whether the archive is in a format that can be read.
    pub fn is_supported_format(&self) -> (b: bool)
        ensures
            b,
    {
        match self.pst_format {
            PstFormat::Ansi => true,
            PstFormat::Unicode => true,
        }
    }

    /// The format of the archive, for the user.
    pub fn get_format_info(&self) -> (text: String)
        ensures
            text@ == match self@.format {
                PstFormat::Ansi => "ANSI PST (Outlook 97-2002)"@,
                PstFormat::Unicode => "Unicode PST (Outlook 2003+)"@,
            },
    {
        match self.pst_format {
            PstFormat::Ansi => String::from_str("ANSI PST (Outlook 97-2002)"),
            PstFormat::Unicode => String::from_str("Unicode PST (Outlook 2003+)"),
        }
    }

    /// The format of the archive.
    pub fn format(&self) -> (f: PstFormat)
        ensures
            f == self@.format,
    {
        self.pst_format
    }

    /// The path of the archive file.
    pub fn file_path(&self) -> (path: &str)
        ensures
            path@ == self@.file_path,
    {
        self.file_path.as_str()
    }

    /// Forgets the messages that are kept in memory.
    pub fn clear_cache(&mut self)
        ensures
            final(self)@ == (SourceModel { cached: Map::empty(), ..old(self)@ }),
    {
        self.email_cache.clear();
        proof {
            assert(self@.cached =~= Map::empty());
        }
    }

    /// How many messages are kept in memory, and how many the archive
    /// holds.
    pub fn get_cache_stats(&self) -> (stats: (usize, usize))
        ensures
            stats.0 == self@.cached.len(),
            stats.1 == self@.total_emails,
    {
        broadcast use vstd::std_specs::hash::group_hash_axioms;

        proof {
            lemma_map_values_len(self.email_cache@);
        }
        (self.email_cache.len(), self.total_emails)
    }
}

proof fn lemma_map_values_len(m: Map<usize, Email>)
    requires
        m.dom().finite(),
    ensures
        m.map_values(|e: Email| e@).len() == m.len(),
{
    assert(m.map_values(|e: Email| e@).dom() =~= m.dom());
}

/// What is reported where the size and date of the file could not be had.
pub open spec fn stats_fault(path: Seq<char>, fault: IoFault) -> PstFault {
    match fault.kind {
        IoFailureKind::PermissionDenied => PstFault::PermissionDenied(path),
        IoFailureKind::NotFound => PstFault::FileNotFound(path),
        _ => PstFault::IoError("Fehler beim Zugriff auf Datei-Metadaten: "@ + fault.detail),
    }
}

/// The seconds of a file date as a signed number of 64 bits holds them:
/// beyond its largest, they come out negative.
pub open spec fn signed_seconds(secs: u64) -> int {
    if secs > i64::MAX {
        secs - 0x1_0000_0000_0000_0000
    } else {
        secs as int
    }
}

/// When the file was last changed: its date where it has one that chrono
/// can hold, the epoch where it has none, and `now` else.
pub open spec fn modified_instant(stats: FileStats, now: Instant) -> Instant {
    let secs = match stats.modified_secs {
        Some(secs) => signed_seconds(secs),
        None => 0,
    };
    if representable(secs, 0) {
        Instant { secs, nanos: 0 }
    } else {
        now
    }
}

impl SourceModel {
    /// What a look at the archive's file comes to: what is known of it then,
    /// or why its size and date could not be had.
    pub open spec fn validation(self, facts: PstFileFacts, now: Instant) -> Result<
        PstInfoModel,
        PstFault,
    > {
        match facts.stats {
            Err(fault) => Err(stats_fault(self.file_path, fault)),
            Ok(stats) => Ok(
                match header_verdict(facts) {
                    Ok(_) => PstInfoModel::unknown(self.file_path).marked_valid(
                        self.total_emails,
                        stats.size as nat,
                        modified_instant(stats, now),
                    ),
                    Err(fault) => PstInfoModel::unknown(self.file_path).marked_invalid(
                        seq![fault.text()],
                    ),
                },
            ),
        }
    }
}

fn modified_time(stats: &FileStats, now: Timestamp) -> (t: Timestamp)
    ensures
        t@ == modified_instant(*stats, now@),
{
    let secs: i64 = match stats.modified_secs {
        Some(secs) => {
            if secs > i64::MAX as u64 {
                -((u64::MAX - secs) as i64) - 1
            } else {
                secs as i64
            }
        },
        None => 0,
    };
    match Timestamp::new(secs, 0) {
        Some(t) => t,
        None => now,
    }
}

/// What a quick look at a file comes to, given the extension that the
/// platform finds in its path: `true`, or the first thing that speaks against
/// an archive.
pub open spec fn quick_verdict(
    path: Seq<char>,
    extension: Option<Seq<char>>,
    facts: PstFileFacts,
) -> Result<
    bool,
    PstFault,
> {
    if !facts.exists {
        Err(PstFault::FileNotFound(path))
    } else if extension is None {
        Err(PstFault::InvalidFormat("Datei hat keine Erweiterung"@))
    } else if lowercase_text(extension->0) != "pst"@ {
        Err(PstFault::InvalidFormat("Datei hat keine .pst Erweiterung"@))
    } else {
        match facts.stats {
            Err(fault) => Err(PstFault::IoError(fault.detail)),
            Ok(stats) => if stats.size < 1024 {
                Err(PstFault::InvalidFormat("Datei ist zu klein für eine gültige PST-Datei"@))
            } else {
                match facts.header {
                    Err(fault) => Err(PstFault::IoError(fault.detail)),
                    Ok(bytes) => if !is_signature(bytes) {
                        Err(PstFault::InvalidFormat("Ungültige PST-Datei-Signatur"@))
                    } else {
                        Ok(true)
                    },
                }
            },
        }
    }
}

/// Whether the extension found, if any, is in whatever case that of a file
/// that can be read.
pub open spec fn is_supported(found: Option<Seq<char>>) -> bool {
    found matches Some(extension) && lowercase_text(extension) == "pst"@
}

impl PstProcessor {
    /// Looks at the archive's file again, now: what is known of it then.
    pub fn validate(&self, file: &PstFileProbe) -> (r: Result<PstInfo, PstError>)
        ensures
            exists|now: Instant|
                match (r, #[trigger] self@.validation(file@, now)) {
                    (Ok(info), Ok(expected)) => info@ == expected,
                    (Err(e), Err(fault)) => e@ == fault,
                    _ => false,
                },
    {
        let now = Timestamp::now();
        let r = self.validate_at(file, now);
        proof {
            assert(match (r, self@.validation(file@, now@)) {
                (Ok(info), Ok(expected)) => info@ == expected,
                (Err(e), Err(fault)) => e@ == fault,
                _ => false,
            });
        }
        r
    }

    /// Looks at the archive's file again when the clock shows `now`.
    pub fn validate_at(&self, file: &PstFileProbe, now: Timestamp) -> (r: Result<
        PstInfo,
        PstError,
    >)
        ensures
            match (r, self@.validation(file@, now@)) {
                (Ok(info), Ok(expected)) => info@ == expected,
                (Err(e), Err(fault)) => e@ == fault,
                _ => false,
            },
    {
        let mut info = PstInfo::new(self.file_path.clone());
        let stats = match &file.stats {
            Ok(stats) => stats,
            Err(failure) => {
                let e = match failure.kind {
                    IoFailureKind::PermissionDenied => PstError::PermissionDenied(
                        self.file_path.clone(),
                    ),
                    IoFailureKind::NotFound => PstError::FileNotFound(self.file_path.clone()),
                    _ => PstError::IoError(
                        String::from_str("Fehler beim Zugriff auf Datei-Metadaten: ").concat(
                            failure.detail.as_str(),
                        ),
                    ),
                };
                return Err(e);
            },
        };
        let last_modified = modified_time(stats, now);
        match read_pst_header(file) {
            Ok(_) => {
                info.mark_valid(self.total_emails, stats.size, last_modified);
            },
            Err(e) => {
                let mut errors: Vec<String> = Vec::new();
                let message = e.message();
                let ghost text = message@;
                errors.push(message);
                proof {
                    assert(errors.deep_view() =~= seq![text]);
                }
                info.mark_invalid(errors);
            },
        }
        Ok(info)
    }

    /// A quick look at a file, given the extension that the platform finds
    /// in its path: it exists, is called `.pst` in whatever case, has at
    /// least 1024 bytes, and starts as an archive does.
    pub fn quick_check(file_path: &str, extension: Option<&str>, file: &PstFileProbe) -> (r: Result<
        bool,
        PstError,
    >)
        ensures
            match (r, quick_verdict(file_path@, extension.deep_view(), file@)) {
                (Ok(b), Ok(expected)) => b == expected,
                (Err(e), Err(fault)) => e@ == fault,
                _ => false,
            },
    {
        if !file.exists {
            let e = PstError::FileNotFound(String::from_str(file_path));
            return Err(e);
        }
        match extension {
            None => {
                return Err(invalid_format(String::from_str("Datei hat keine Erweiterung")));
            },
            Some(ext) => {
                if !Self::is_supported_extension(ext) {
                    return Err(
                        invalid_format(String::from_str("Datei hat keine .pst Erweiterung")),
                    );
                }
            },
        }
        let stats = match &file.stats {
            Ok(stats) => stats,
            Err(failure) => {
                return Err(io_error(failure));
            },
        };
        if stats.size < 1024 {
            return Err(
                invalid_format(String::from_str("Datei ist zu klein für eine gültige PST-Datei")),
            );
        }
        let bytes = match &file.header {
            Ok(bytes) => bytes,
            Err(failure) => {
                return Err(io_error(failure));
            },
        };
        if bytes[0] != 0x21 || bytes[1] != 0x42 || bytes[2] != 0x44 || bytes[3] != 0x4E {
            return Err(invalid_format(String::from_str("Ungültige PST-Datei-Signatur")));
        }
        Ok(true)
    }

    /// A quick look at a file, without opening it as an archive. The
    /// extension is the one that the platform's path rules find.
    pub fn quick_validate(file_path: &str, file: &PstFileProbe) -> (r: Result<bool, PstError>)
        ensures
            exists|extension: Option<Seq<char>>|
                extension_found(file_path@, extension) && match (
                    r,
                    #[trigger] quick_verdict(file_path@, extension, file@),
                ) {
                    (Ok(b), Ok(expected)) => b == expected,
                    (Err(e), Err(fault)) => e@ == fault,
                    _ => false,
                },
            is_plain_name(file_path@) && file_path@ != seq!['.', '.'] ==> match (
                r,
                quick_verdict(file_path@, plain_extension(file_path@), file@),
            ) {
                (Ok(b), Ok(expected)) => b == expected,
                (Err(e), Err(fault)) => e@ == fault,
                _ => false,
            },
            !file@.exists ==> (r matches Err(e) && e@ == PstFault::FileNotFound(file_path@)),
            file@.exists && !file_path@.contains('.') ==> (r matches Err(e) && e@
                == PstFault::InvalidFormat("Datei hat keine Erweiterung"@)),
            r is Ok ==> {
                &&& file@.exists
                &&& exists|extension: Seq<char>| #[trigger]
                    stands_behind_dot(file_path@, extension) && lowercase_text(extension)
                        == "pst"@
                &&& file@.stats matches Ok(stats)
                &&& stats.size >= 1024
                &&& file@.header matches Ok(bytes)
                &&& is_signature(bytes)
            },
    {
        let extension = path_extension(file_path);
        let r = Self::quick_check(file_path, extension, file);
        proof {
            assert(extension_found(file_path@, extension.deep_view()) && match (
                r,
                quick_verdict(file_path@, extension.deep_view(), file@),
            ) {
                (Ok(b), Ok(expected)) => b == expected,
                (Err(e), Err(fault)) => e@ == fault,
                _ => false,
            });
            if r is Ok {
                assert(stands_behind_dot(file_path@, extension.deep_view()->0));
            }
        }
        r
    }

    /// The extensions of the files that can be read.
    pub fn supported_extensions() -> (list: Vec<&'static str>)
        ensures
            list@.len() == 1,
            list@[0]@ == "pst"@,
    {
        let mut list: Vec<&'static str> = Vec::new();
        list.push("pst");
        list
    }

    /// Whether `extension` is, in whatever case, one of a file that can be
    /// read.
    pub fn is_supported_extension(extension: &str) -> (b: bool)
        ensures
            b == (lowercase_text(extension@) == "pst"@),
    {
        let lowered = extension.to_lowercase();
        let list = Self::supported_extensions();
        same_text(lowered.as_str(), list[0])
    }

    /// Whether the path has the extension of a file that can be read. The
    /// extension is the one that the platform's path rules find: for a plain
    /// name, the text behind its last dot.
    pub fn has_supported_extension(file_path: &str) -> (b: bool)
        ensures
            exists|found: Option<Seq<char>>|
                extension_found(file_path@, found) && b == #[trigger] is_supported(found),
            is_plain_name(file_path@) && file_path@ != seq!['.', '.'] ==> b == is_supported(
                plain_extension(file_path@),
            ),
            !file_path@.contains('.') ==> !b,
            b ==> exists|extension: Seq<char>| #[trigger]
                stands_behind_dot(file_path@, extension) && lowercase_text(extension)
                    == "pst"@,
    {
        let found = path_extension(file_path);
        let b = match found {
            Some(extension) => Self::is_supported_extension(extension),
            None => false,
        };
        proof {
            assert(extension_found(file_path@, found.deep_view()) && b == is_supported(
                found.deep_view(),
            ));
            if b {
                assert(stands_behind_dot(file_path@, found.deep_view()->0));
            }
        }
        b
    }
}

} // verus!
