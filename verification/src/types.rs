//! The records that the library works on: messages and their attachments,
//! the configuration of a run, its progress and its session.

use vstd::prelude::*;
use vstd::string::*;
use crate::directory_validator::{
    destination_accepted, destination_refusal, lemma_known_parts_decide, parts_are_known,
    DirectoryProbe, DirectoryValidator,
};
use crate::errors::{ValidationError, ValidationFault};
use crate::text::{
    ends_with, has_prefix, has_suffix, is_plain_name, last_dot, lowercase_text, starts_with,
};
use crate::time::{display_stamp, elapsed, Elapsed, Instant, Timestamp};

verus! {

/// Whether `part` stands somewhere in `path` directly behind a dot.
pub open spec fn stands_behind_dot(path: Seq<char>, part: Seq<char>) -> bool {
    exists|i: int|
        0 <= i && i + 1 + part.len() <= path.len() && #[trigger] path.subrange(
            i,
            i + 1 + part.len(),
        ) == seq!['.'] + part
}

/// The extension of a plain name: the text behind its last dot, where it has
/// a dot that is not its first character.
pub open spec fn plain_extension(name: Seq<char>) -> Option<Seq<char>> {
    if last_dot(name) <= 0 {
        None
    } else {
        Some(name.skip(last_dot(name) + 1))
    }
}

/// Whether `ext` can be the extension that the platform's path rules find in
/// `path`. A path without a dot has none; an extension holds no dot and
/// stands in the path behind a dot; and a plain name other than `..` has the
/// extension of a plain name.
pub open spec fn extension_found(path: Seq<char>, ext: Option<Seq<char>>) -> bool {
    &&& !path.contains('.') ==> ext is None
    &&& ext matches Some(e) ==> !e.contains('.') && stands_behind_dot(path, e)
    &&& is_plain_name(path) && path != seq!['.', '.'] ==> ext == plain_extension(path)
}

/// `Path::extension` of std: the part of the path's last component after its
/// last dot, where the component has one that is not its first character.
/// What is stated holds on every platform: a path without a dot has no
/// extension; an extension holds no dot and stands in the path behind a dot;
/// and a path without `/`, `\` and `:`, other than `..`, is its own last
/// component.
#[verifier::external_body]
pub(crate) fn path_extension<'a>(path: &'a str) -> (ext: Option<&'a str>)
    ensures
        extension_found(path@, ext.deep_view()),
{
    match std::path::Path::new(path).extension() {
        Some(ext) => ext.to_str(),
        None => None,
    }
}

/// How urgent the sender made a message.
#[derive(Clone, Copy, Debug, PartialEq, Eq)]
pub enum EmailPriority {
    Low,
    Normal,
    High,
    Urgent,
}

impl Default for EmailPriority {
    fn default() -> (p: EmailPriority)
        ensures
            p == EmailPriority::Normal,
    {
        EmailPriority::Normal
    }
}

/// A file that came with a message.
#[derive(Debug, PartialEq)]
pub struct Attachment {
    pub name: String,
    pub size: usize,
    pub content_type: String,
    pub is_inline: bool,
    pub content_id: Option<String>,
    pub data: Option<String>,
}

/// What an `Attachment` stands for.
pub struct AttachmentModel {
    pub name: Seq<char>,
    pub size: nat,
    pub content_type: Seq<char>,
    pub is_inline: bool,
    pub content_id: Option<Seq<char>>,
    pub data: Option<Seq<char>>,
}

impl View for Attachment {
    type V = AttachmentModel;

    open spec fn view(&self) -> AttachmentModel {
        AttachmentModel {
            name: self.name@,
            size: self.size as nat,
            content_type: self.content_type@,
            is_inline: self.is_inline,
            content_id: self.content_id.deep_view(),
            data: self.data.deep_view(),
        }
    }
}

impl DeepView for Attachment {
    type V = AttachmentModel;

    open spec fn deep_view(&self) -> AttachmentModel {
        self@
    }
}

impl Clone for Attachment {
    fn clone(&self) -> (copy: Attachment)
        ensures
            copy@ == self@,
    {
        Attachment {
            name: self.name.clone(),
            size: self.size,
            content_type: self.content_type.clone(),
            is_inline: self.is_inline,
            content_id: clone_optional_text(&self.content_id),
            data: clone_optional_text(&self.data),
        }
    }
}

/// A copy of the text, if there is one.
pub fn clone_optional_text(text: &Option<String>) -> (copy: Option<String>)
    ensures
        copy.deep_view() == text.deep_view(),
{
    match text {
        Some(s) => Some(s.clone()),
        None => None,
    }
}

/// A copy of the texts, in their order.
pub fn clone_texts(texts: &Vec<String>) -> (copy: Vec<String>)
    ensures
        copy.deep_view() == texts.deep_view(),
{
    let mut copy: Vec<String> = Vec::new();
    let mut i: usize = 0;
    while i < texts.len()
        invariant
            i <= texts.len(),
            copy.deep_view() == texts.deep_view().take(i as int),
        decreases texts.len() - i,
    {
        let ghost before = copy.deep_view();
        copy.push(texts[i].clone());
        proof {
            assert(copy.deep_view() =~= before.push(texts@[i as int]@));
            assert(texts.deep_view().take(i + 1) =~= texts.deep_view().take(i as int).push(
                texts@[i as int]@,
            ));
        }
        i += 1;
    }
    proof {
        assert(texts.deep_view().take(texts.len() as int) =~= texts.deep_view());
    }
    copy
}

impl Attachment {
    /// An attachment that is not inline and carries no content id and no
    /// payload.
    pub fn new(name: String, size: usize, content_type: String) -> (a: Attachment)
        ensures
            a@ == (AttachmentModel {
                name: name@,
                size: size as nat,
                content_type: content_type@,
                is_inline: false,
                content_id: None,
                data: None,
            }),
    {
        Attachment { name, size, content_type, is_inline: false, content_id: None, data: None }
    }

    /// Whether the content type says that this is an image.
    pub fn is_image(&self) -> (b: bool)
        ensures
            b == starts_with(self@.content_type, "image/"@),
    {
        has_prefix(self.content_type.as_str(), "image/")
    }

    /// The extension of the file name, as the platform's path rules find it:
    /// for a plain name, the text behind its last dot, where that dot is not
    /// its first character.
    pub fn extension(&self) -> (ext: Option<&str>)
        ensures
            extension_found(self@.name, ext.deep_view()),
    {
        path_extension(self.name.as_str())
    }
}

/// One message of the archive.
#[derive(Debug, PartialEq)]
pub struct Email {
    pub subject: String,
    pub sender: String,
    pub recipient: String,
    pub cc_recipients: Vec<String>,
    pub bcc_recipients: Vec<String>,
    pub date: Timestamp,
    pub body: String,
    pub is_html: bool,
    pub attachments: Vec<Attachment>,
    pub priority: EmailPriority,
    pub message_id: Option<String>,
    pub in_reply_to: Option<String>,
    pub size: usize,
}

/// What an `Email` stands for.
pub struct EmailModel {
    pub subject: Seq<char>,
    pub sender: Seq<char>,
    pub recipient: Seq<char>,
    pub cc_recipients: Seq<Seq<char>>,
    pub bcc_recipients: Seq<Seq<char>>,
    pub date: Instant,
    pub body: Seq<char>,
    pub is_html: bool,
    pub attachments: Seq<AttachmentModel>,
    pub priority: EmailPriority,
    pub message_id: Option<Seq<char>>,
    pub in_reply_to: Option<Seq<char>>,
    pub size: nat,
}

impl View for Email {
    type V = EmailModel;

    open spec fn view(&self) -> EmailModel {
        EmailModel {
            subject: self.subject@,
            sender: self.sender@,
            recipient: self.recipient@,
            cc_recipients: self.cc_recipients.deep_view(),
            bcc_recipients: self.bcc_recipients.deep_view(),
            date: self.date@,
            body: self.body@,
            is_html: self.is_html,
            attachments: self.attachments.deep_view(),
            priority: self.priority,
            message_id: self.message_id.deep_view(),
            in_reply_to: self.in_reply_to.deep_view(),
            size: self.size as nat,
        }
    }
}

impl DeepView for Email {
    type V = EmailModel;

    open spec fn deep_view(&self) -> EmailModel {
        self@
    }
}

/// The sum of the sizes, counted as the machine counts: beyond the largest
/// `usize` it starts again at zero.
pub open spec fn wrapped_size_sum(attachments: Seq<AttachmentModel>) -> nat
    decreases attachments.len(),
{
    if attachments.len() == 0 {
        0
    } else {
        let sum = wrapped_size_sum(attachments.drop_last()) + attachments.last().size;
        if sum > usize::MAX {
            (sum - usize::MAX - 1) as nat
        } else {
            sum
        }
    }
}

impl EmailModel {
    /// The message as `Email::new` makes it: plain text, normal priority,
    /// nobody in copy, nothing attached.
    pub open spec fn plain(
        subject: Seq<char>,
        sender: Seq<char>,
        recipient: Seq<char>,
        date: Instant,
        body: Seq<char>,
    ) -> EmailModel {
        EmailModel {
            subject,
            sender,
            recipient,
            cc_recipients: Seq::empty(),
            bcc_recipients: Seq::empty(),
            date,
            body,
            is_html: false,
            attachments: Seq::empty(),
            priority: EmailPriority::Normal,
            message_id: None,
            in_reply_to: None,
            size: 0,
        }
    }
}

impl Clone for Email {
    fn clone(&self) -> (copy: Email)
        ensures
            copy@ == self@,
    {
        let mut attachments: Vec<Attachment> = Vec::new();
        let mut i: usize = 0;
        while i < self.attachments.len()
            invariant
                i <= self.attachments.len(),
                attachments.deep_view() == self.attachments.deep_view().take(i as int),
            decreases self.attachments.len() - i,
        {
            let ghost before = attachments.deep_view();
            attachments.push(self.attachments[i].clone());
            proof {
                assert(attachments.deep_view() =~= before.push(self.attachments@[i as int]@));
                assert(self.attachments.deep_view().take(i + 1)
                    =~= self.attachments.deep_view().take(i as int).push(
                    self.attachments@[i as int]@,
                ));
            }
            i += 1;
        }
        proof {
            assert(self.attachments.deep_view().take(self.attachments.len() as int)
                =~= self.attachments.deep_view());
        }
        Email {
            subject: self.subject.clone(),
            sender: self.sender.clone(),
            recipient: self.recipient.clone(),
            cc_recipients: clone_texts(&self.cc_recipients),
            bcc_recipients: clone_texts(&self.bcc_recipients),
            date: self.date,
            body: self.body.clone(),
            is_html: self.is_html,
            attachments,
            priority: self.priority,
            message_id: clone_optional_text(&self.message_id),
            in_reply_to: clone_optional_text(&self.in_reply_to),
            size: self.size,
        }
    }
}

impl Email {
    /// A plain-text message of normal priority with nobody in copy and
    /// nothing attached.
    pub fn new(
        subject: String,
        sender: String,
        recipient: String,
        date: Timestamp,
        body: String,
    ) -> (e:
        Email)
        ensures
            e@ == EmailModel::plain(subject@, sender@, recipient@, date@, body@),
    {
        let e = Email {
            subject,
            sender,
            recipient,
            cc_recipients: Vec::new(),
            bcc_recipients: Vec::new(),
            date,
            body,
            is_html: false,
            attachments: Vec::new(),
            priority: EmailPriority::Normal,
            message_id: None,
            in_reply_to: None,
            size: 0,
        };
        proof {
            assert(e.cc_recipients.deep_view() =~= Seq::empty());
            assert(e.bcc_recipients.deep_view() =~= Seq::empty());
            assert(e.attachments.deep_view() =~= Seq::empty());
        }
        e
    }

    /// Whether anything is attached.
    pub fn has_attachments(&self) -> (b: bool)
        ensures
            b == (self@.attachments.len() > 0),
    {
        !self.attachments.is_empty()
    }

    /// The sizes of the attachments added up, as the machine adds.
    pub fn attachment_size(&self) -> (total: usize)
        ensures
            total == wrapped_size_sum(self@.attachments),
    {
        let mut total: usize = 0;
        let mut i: usize = 0;
        while i < self.attachments.len()
            invariant
                i <= self.attachments.len(),
                total == wrapped_size_sum(self@.attachments.take(i as int)),
            decreases self.attachments.len() - i,
        {
            proof {
                let all = self@.attachments;
                assert(all.take(i + 1).drop_last() =~= all.take(i as int));
                assert(all.take(i + 1).last() == self.attachments@[i as int]@);
            }
            let size: usize = self.attachments[i].size;
            total = if size > usize::MAX - total {
                size - (usize::MAX - total) - 1
            } else {
                total + size
            };
            i += 1;
        }
        proof {
            assert(self@.attachments.take(self.attachments.len() as int) =~= self@.attachments);
        }
        total
    }

    /// The date as `day.month.year hour:minute:second`, in UTC.
    pub fn formatted_date(&self) -> (text: String)
        ensures
            text@ == display_stamp(self@.date.secs, self@.date.nanos, 0),
    {
        self.date.formatted()
    }
}

/// The fewest messages that a document may hold.
pub const MIN_EMAILS_PER_PDF: u32 = 1;

/// The most messages that a document may hold.
pub const MAX_EMAILS_PER_PDF: u32 = 25;

/// What a run needs to know: the archive, the size of a batch, and the name
/// and place of the documents.
#[derive(Debug, PartialEq)]
pub struct ProcessingConfig {
    pub pst_file_path: String,
    pub emails_per_pdf: u32,
    pub base_file_name: String,
    pub output_directory: String,
}

/// What a `ProcessingConfig` stands for.
pub struct ConfigModel {
    pub pst_file_path: Seq<char>,
    pub emails_per_pdf: u32,
    pub base_file_name: Seq<char>,
    pub output_directory: Seq<char>,
}

impl View for ProcessingConfig {
    type V = ConfigModel;

    open spec fn view(&self) -> ConfigModel {
        ConfigModel {
            pst_file_path: self.pst_file_path@,
            emails_per_pdf: self.emails_per_pdf,
            base_file_name: self.base_file_name@,
            output_directory: self.output_directory@,
        }
    }
}

impl Clone for ProcessingConfig {
    fn clone(&self) -> (copy: ProcessingConfig)
        ensures
            copy@ == self@,
    {
        ProcessingConfig {
            pst_file_path: self.pst_file_path.clone(),
            emails_per_pdf: self.emails_per_pdf,
            base_file_name: self.base_file_name.clone(),
            output_directory: self.output_directory.clone(),
        }
    }
}

/// The characters that a file name must not hold.
pub open spec fn is_forbidden_in_name(c: char) -> bool {
    c == '<' || c == '>' || c == ':' || c == '"' || c == '|' || c == '?' || c == '*' || c == '/'
        || c == '\\'
}

/// The first character of `name` that a file name must not hold, if there
/// is one.
pub open spec fn first_forbidden(name: Seq<char>) -> Option<char>
    decreases name.len(),
{
    if name.len() == 0 {
        None
    } else if is_forbidden_in_name(name[0]) {
        Some(name[0])
    } else {
        first_forbidden(name.drop_first())
    }
}

impl ConfigModel {
    /// Whether the size of a batch is within its bounds.
    pub open spec fn batch_size_ok(self) -> bool {
        MIN_EMAILS_PER_PDF <= self.emails_per_pdf <= MAX_EMAILS_PER_PDF
    }

    /// The first thing that is wrong with the fields themselves, in the
    /// order in which they are looked at. `lowered` is the archive's path in
    /// lower case and `extension` the extension that the platform finds in
    /// it.
    pub open spec fn field_fault(self, lowered: Seq<char>, extension: Option<Seq<char>>) -> Option<
        ValidationFault,
    > {
        if self.pst_file_path.len() == 0 {
            Some(ValidationFault::RequiredFieldMissing("pst_file_path"@))
        } else if !ends_with(lowered, ".pst"@) {
            Some(
                ValidationFault::InvalidFileExtension {
                    expected: ".pst"@,
                    actual: match extension {
                        Some(e) => e,
                        None => "none"@,
                    },
                },
            )
        } else if !self.batch_size_ok() {
            Some(
                ValidationFault::InvalidEmailCount {
                    min: MIN_EMAILS_PER_PDF,
                    max: MAX_EMAILS_PER_PDF,
                    actual: self.emails_per_pdf,
                },
            )
        } else if self.base_file_name.len() == 0 {
            Some(ValidationFault::RequiredFieldMissing("base_file_name"@))
        } else if first_forbidden(self.base_file_name) is Some {
            Some(
                ValidationFault::InvalidCharacter {
                    field: "base_file_name"@,
                    character: seq![first_forbidden(self.base_file_name)->0],
                },
            )
        } else if self.output_directory.len() == 0 {
            Some(ValidationFault::RequiredFieldMissing("output_directory"@))
        } else {
            None
        }
    }

    /// Whether `fault` is what is reported of the fields: their first fault,
    /// with the extension that the platform's path rules find in the
    /// archive's path.
    pub open spec fn fields_refusal(self, fault: ValidationFault) -> bool {
        exists|extension: Option<Seq<char>>|
            extension_found(self.pst_file_path, extension) && #[trigger] self.field_fault(
                lowercase_text(self.pst_file_path),
                extension,
            ) == Some(fault)
    }

    /// Whether the fields themselves are in order.
    pub open spec fn fields_ok(self) -> bool {
        &&& self.pst_file_path.len() > 0
        &&& ends_with(lowercase_text(self.pst_file_path), ".pst"@)
        &&& self.batch_size_ok()
        &&& self.base_file_name.len() > 0
        &&& first_forbidden(self.base_file_name) is None
        &&& self.output_directory.len() > 0
    }
}

/// A batch size out of bounds, a base name that is empty and an archive
/// path that does not end in `.pst`, whatever its case, are each refused on
/// the fields alone, whatever else the configuration holds and whatever is on
/// disk.
pub proof fn lemma_bad_fields_are_refused(cfg: ConfigModel, extension: Option<Seq<char>>)
    requires
        !cfg.batch_size_ok() || cfg.base_file_name.len() == 0 || !ends_with(
            lowercase_text(cfg.pst_file_path),
            ".pst"@,
        ),
    ensures
        cfg.field_fault(lowercase_text(cfg.pst_file_path), extension) is Some,
        !cfg.fields_ok(),
{
}

/// A configuration whose fields are in order has none refused.
pub proof fn lemma_fields_ok_iff_no_fault(cfg: ConfigModel, extension: Option<Seq<char>>)
    ensures
        cfg.fields_ok() <==> cfg.field_fault(lowercase_text(cfg.pst_file_path), extension) is None,
{
}

fn find_forbidden(name: &str) -> (found: Option<char>)
    ensures
        found == first_forbidden(name@),
{
    proof {
        assert(name@.skip(0) =~= name@);
    }
    for c in it: name.chars()
        invariant
            it.seq() == name@,
            first_forbidden(name@) == first_forbidden(name@.skip(it.index() as int)),
    {
        proof {
            let i = it.index() as int;
            assert(name@.skip(i)[0] == name@[i]);
            assert(name@.skip(i).drop_first() =~= name@.skip(i + 1));
        }
        if c == '<' || c == '>' || c == ':' || c == '"' || c == '|' || c == '?' || c == '*' || c
            == '/' || c == '\\' {
            return Some(c);
        }
    }
    None
}

impl ProcessingConfig {
    /// A configuration of the fields given, not yet looked at.
    pub fn new(
        pst_file_path: String,
        emails_per_pdf: u32,
        base_file_name: String,
        output_directory: String,
    ) -> (cfg: ProcessingConfig)
        ensures
            cfg@ == (ConfigModel {
                pst_file_path: pst_file_path@,
                emails_per_pdf,
                base_file_name: base_file_name@,
                output_directory: output_directory@,
            }),
    {
        ProcessingConfig { pst_file_path, emails_per_pdf, base_file_name, output_directory }
    }

    /// Looks at the fields themselves, given the archive's path in lower
    /// case and the extension that the platform finds in it: the first fault
    /// is the one that is reported.
    pub fn check_fields(&self, lowered: &str, extension: Option<&str>) -> (r: Result<
        (),
        ValidationError,
    >)
        ensures
            match r {
                Ok(()) => self@.field_fault(lowered@, extension.deep_view()) is None,
                Err(e) => self@.field_fault(lowered@, extension.deep_view()) == Some(e@),
            },
    {
        if self.pst_file_path.as_str().is_empty() {
            return Err(ValidationError::RequiredFieldMissing(String::from_str("pst_file_path")));
        }
        if !has_suffix(lowered, ".pst") {
            let actual = match extension {
                Some(e) => String::from_str(e),
                None => String::from_str("none"),
            };
            return Err(
                ValidationError::InvalidFileExtension {
                    expected: String::from_str(".pst"),
                    actual,
                },
            );
        }
        if self.emails_per_pdf < MIN_EMAILS_PER_PDF || self.emails_per_pdf > MAX_EMAILS_PER_PDF {
            return Err(
                ValidationError::InvalidEmailCount {
                    min: MIN_EMAILS_PER_PDF,
                    max: MAX_EMAILS_PER_PDF,
                    actual: self.emails_per_pdf,
                },
            );
        }
        if self.base_file_name.as_str().is_empty() {
            return Err(ValidationError::RequiredFieldMissing(String::from_str("base_file_name")));
        }
        if let Some(c) = find_forbidden(self.base_file_name.as_str()) {
            let mut character = String::new();
            character.push(c);
            proof {
                assert(character@ =~= seq![c]);
            }
            return Err(
                ValidationError::InvalidCharacter {
                    field: String::from_str("base_file_name"),
                    character,
                },
            );
        }
        if self.output_directory.as_str().is_empty() {
            return Err(
                ValidationError::RequiredFieldMissing(String::from_str("output_directory")),
            );
        }
        Ok(())
    }

    /// Looks at the fields themselves, before anything on disk is touched.
    /// They pass exactly where they are in order; what is reported of a
    /// wrong extension is what the platform's path rules make of the path.
    pub fn validate_fields(&self) -> (r: Result<(), ValidationError>)
        ensures
            r is Ok <==> self@.fields_ok(),
            r matches Err(e) ==> self@.fields_refusal(e@),
            r matches Err(e) ==> (is_plain_name(self@.pst_file_path) && self@.pst_file_path
                != seq!['.', '.'] ==> self@.field_fault(
                lowercase_text(self@.pst_file_path),
                plain_extension(self@.pst_file_path),
            ) == Some(e@)),
            r matches Err(e) ==> (!self@.pst_file_path.contains('.') ==> self@.field_fault(
                lowercase_text(self@.pst_file_path),
                None,
            ) == Some(e@)),
    {
        let lowered = self.pst_file_path.as_str().to_lowercase();
        let extension = path_extension(self.pst_file_path.as_str());
        let r = self.check_fields(lowered.as_str(), extension);
        proof {
            lemma_fields_ok_iff_no_fault(self@, extension.deep_view());
            if r is Err {
                assert(self@.field_fault(
                    lowercase_text(self@.pst_file_path),
                    extension.deep_view(),
                ) == Some(r->Err_0@));
            }
        }
        r
    }

    /// Looks at the fields and then at the destination, of which `probe`
    /// says what is on disk.
    pub fn validate(&self, probe: &DirectoryProbe) -> (r: Result<(), ValidationError>)
        ensures
            r is Ok ==> self@.fields_ok() && destination_accepted(self@.output_directory, probe@),
            parts_are_known(self@.output_directory, probe@.reserves_device_names) ==> (r is Ok
                <==> self@.fields_ok() && destination_accepted(self@.output_directory, probe@)),
            r matches Err(e) ==> if self@.fields_ok() {
                destination_refusal(self@.output_directory, probe@, e@)
            } else {
                self@.fields_refusal(e@)
            },
    {
        if let Err(e) = self.validate_fields() {
            return Err(e);
        }
        proof {
            if parts_are_known(self@.output_directory, probe@.reserves_device_names) {
                lemma_known_parts_decide(self@.output_directory, probe@);
            }
        }
        match DirectoryValidator::validate_directory_path(self.output_directory.as_str(), probe) {
            Ok(_) => Ok(()),
            Err(e) => Err(e),
        }
    }
}

/// Where a run stands.
#[derive(Clone, Copy, Debug, PartialEq, Eq)]
pub enum ProgressState {
    NotStarted,
    Running,
    Completed,
    Failed,
    Cancelled,
}

/// The progress of a run, as pollers read it.
#[derive(Debug, PartialEq)]
pub struct ProcessingProgress {
    pub total_emails: usize,
    pub processed_emails: usize,
    pub current_pdf: u32,
    pub status: String,
    pub is_complete: bool,
    pub error: Option<String>,
    pub started_at: Option<Timestamp>,
    pub completed_at: Option<Timestamp>,
    pub is_cancelled: bool,
}

/// What a `ProcessingProgress` stands for.
pub struct ProgressModel {
    pub total_emails: nat,
    pub processed_emails: nat,
    pub current_pdf: nat,
    pub status: Seq<char>,
    pub is_complete: bool,
    pub error: Option<Seq<char>>,
    pub started_at: Option<Instant>,
    pub completed_at: Option<Instant>,
    pub is_cancelled: bool,
}

impl View for ProcessingProgress {
    type V = ProgressModel;

    open spec fn view(&self) -> ProgressModel {
        ProgressModel {
            total_emails: self.total_emails as nat,
            processed_emails: self.processed_emails as nat,
            current_pdf: self.current_pdf as nat,
            status: self.status@,
            is_complete: self.is_complete,
            error: self.error.deep_view(),
            started_at: match self.started_at {
                Some(t) => Some(t@),
                None => None,
            },
            completed_at: match self.completed_at {
                Some(t) => Some(t@),
                None => None,
            },
            is_cancelled: self.is_cancelled,
        }
    }
}

/// The share of `total` that `processed` is, in whole percent, rounded
/// down; nothing where the total is nothing.
pub open spec fn percent_of(processed: nat, total: nat) -> nat {
    if total == 0 {
        0
    } else {
        processed * 100 / total
    }
}

/// With the total fixed, the percentage does not fall when more is
/// processed.
pub proof fn lemma_percent_monotone(before: nat, after: nat, total: nat)
    requires
        before <= after,
    ensures
        percent_of(before, total) <= percent_of(after, total),
{
    if total > 0 {
        vstd::arithmetic::div_mod::lemma_div_is_ordered(
            (before * 100) as int,
            (after * 100) as int,
            total as int,
        );
    }
}

/// When all is processed, and there was anything to process, the percentage
/// is 100; it is never more while no more is processed than there is.
pub proof fn lemma_percent_bounds(processed: nat, total: nat)
    requires
        processed <= total,
    ensures
        percent_of(processed, total) <= 100,
        total > 0 ==> percent_of(total, total) == 100,
{
    if total > 0 {
        vstd::arithmetic::div_mod::lemma_div_is_ordered(
            (processed * 100) as int,
            (total * 100) as int,
            total as int,
        );
        vstd::arithmetic::div_mod::lemma_div_multiples_vanish(100, total as int);
        assert(total * 100 == 100 * total) by (nonlinear_arith);
    }
}

impl ProgressModel {
    /// Where the run stands. A run that is over is cancelled where that was
    /// asked for, failed where it left an error, and completed else.
    pub open spec fn state(self) -> ProgressState {
        if self.is_complete {
            if self.is_cancelled {
                ProgressState::Cancelled
            } else if self.error is Some {
                ProgressState::Failed
            } else {
                ProgressState::Completed
            }
        } else if self.started_at is Some {
            ProgressState::Running
        } else {
            ProgressState::NotStarted
        }
    }

    /// Whether the run is over: completed, failed or cancelled.
    pub open spec fn is_terminal(self) -> bool {
        self.is_complete
    }

    /// What always holds of the progress of a run: no more is processed
    /// than there is, a run that was cancelled or left an error is over, and
    /// a run has an end time exactly when it is over.
    pub open spec fn well_formed(self) -> bool {
        &&& self.processed_emails <= self.total_emails
        &&& self.is_cancelled ==> self.is_complete
        &&& self.error is Some ==> self.is_complete
        &&& self.completed_at is Some <==> self.is_complete
    }

    /// The progress in whole percent.
    pub open spec fn percent(self) -> nat {
        percent_of(self.processed_emails, self.total_emails)
    }

    /// The progress before anything has begun.
    pub open spec fn fresh() -> ProgressModel {
        ProgressModel {
            total_emails: 0,
            processed_emails: 0,
            current_pdf: 0,
            status: "Nicht gestartet"@,
            is_complete: false,
            error: None,
            started_at: None,
            completed_at: None,
            is_cancelled: false,
        }
    }

    /// The progress of a run of `total` messages that begins at `now`,
    /// whatever went before.
    pub open spec fn started(self, total: nat, now: Instant) -> ProgressModel {
        ProgressModel {
            total_emails: total,
            processed_emails: 0,
            current_pdf: 1,
            status: "Verarbeitung gestartet"@,
            is_complete: false,
            error: None,
            started_at: Some(now),
            completed_at: None,
            is_cancelled: false,
        }
    }

    /// The progress after a report from the run; a run that is over takes
    /// none.
    pub open spec fn updated(
        self,
        processed: nat,
        current_pdf: nat,
        status: Seq<char>,
    ) -> ProgressModel {
        if self.is_terminal() {
            self
        } else {
            ProgressModel { processed_emails: processed, current_pdf, status, ..self }
        }
    }

    /// The progress once the run has completed at `now`; a run that is over
    /// stays as it ended.
    pub open spec fn completed(self, now: Instant) -> ProgressModel {
        if self.is_terminal() {
            self
        } else {
            ProgressModel {
                is_complete: true,
                status: "Verarbeitung abgeschlossen"@,
                completed_at: Some(now),
                ..self
            }
        }
    }

    /// The progress once the run has failed at `now`; a run that is over
    /// stays as it ended.
    pub open spec fn failed(self, error: Seq<char>, now: Instant) -> ProgressModel {
        if self.is_terminal() {
            self
        } else {
            ProgressModel {
                is_complete: true,
                error: Some(error),
                status: "Verarbeitung fehlgeschlagen"@,
                completed_at: Some(now),
                ..self
            }
        }
    }

    /// The progress once the run has been cancelled at `now`; a run that is
    /// over stays as it ended.
    pub open spec fn cancelled(self, now: Instant) -> ProgressModel {
        if self.is_terminal() {
            self
        } else {
            ProgressModel {
                is_cancelled: true,
                is_complete: true,
                status: "Verarbeitung abgebrochen"@,
                completed_at: Some(now),
                ..self
            }
        }
    }
}

/// No step but a new start leads out of a state in which the run is over.
pub proof fn lemma_terminal_states_are_final(
    p: ProgressModel,
    processed: nat,
    current_pdf: nat,
    status: Seq<char>,
    error: Seq<char>,
    now: Instant,
)
    requires
        p.is_terminal(),
    ensures
        p.updated(processed, current_pdf, status) == p,
        p.completed(now) == p,
        p.failed(error, now) == p,
        p.cancelled(now) == p,
{
}

/// From a run that is under way a report leads to a run under way, and each
/// of the three closing steps to its own state; a start leads to a run
/// under way from anywhere.
pub proof fn lemma_steps_of_the_state_machine(
    p: ProgressModel,
    total: nat,
    processed: nat,
    current_pdf: nat,
    status: Seq<char>,
    error: Seq<char>,
    now: Instant,
)
    requires
        p.well_formed(),
        p.state() == ProgressState::Running,
    ensures
        p.updated(processed, current_pdf, status).state() == ProgressState::Running,
        p.completed(now).state() == ProgressState::Completed,
        p.failed(error, now).state() == ProgressState::Failed,
        p.cancelled(now).state() == ProgressState::Cancelled,
        p.started(total, now).state() == ProgressState::Running,
{
}

/// Every step keeps what always holds of the progress of a run, a report
/// as long as it does not report more than there is.
pub proof fn lemma_steps_keep_well_formed(
    p: ProgressModel,
    total: nat,
    processed: nat,
    current_pdf: nat,
    status: Seq<char>,
    error: Seq<char>,
    now: Instant,
)
    requires
        p.well_formed(),
    ensures
        ProgressModel::fresh().well_formed(),
        p.started(total, now).well_formed(),
        processed <= p.total_emails ==> p.updated(processed, current_pdf, status).well_formed(),
        p.completed(now).well_formed(),
        p.failed(error, now).well_formed(),
        p.cancelled(now).well_formed(),
{
}

impl Clone for ProcessingProgress {
    fn clone(&self) -> (copy: ProcessingProgress)
        ensures
            copy@ == self@,
    {
        ProcessingProgress {
            total_emails: self.total_emails,
            processed_emails: self.processed_emails,
            current_pdf: self.current_pdf,
            status: self.status.clone(),
            is_complete: self.is_complete,
            error: clone_optional_text(&self.error),
            started_at: self.started_at,
            completed_at: self.completed_at,
            is_cancelled: self.is_cancelled,
        }
    }
}

impl Default for ProcessingProgress {
    fn default() -> (p: ProcessingProgress)
        ensures
            p@ == ProgressModel::fresh(),
    {
        ProcessingProgress::new()
    }
}

impl ProcessingProgress {
    /// The progress before anything has begun.
    pub fn new() -> (p: ProcessingProgress)
        ensures
            p@ == ProgressModel::fresh(),
    {
        ProcessingProgress {
            total_emails: 0,
            processed_emails: 0,
            current_pdf: 0,
            status: String::from_str("Nicht gestartet"),
            is_complete: false,
            error: None,
            started_at: None,
            completed_at: None,
            is_cancelled: false,
        }
    }

    /// Where the run stands.
    pub fn state(&self) -> (st: ProgressState)
        ensures
            st == self@.state(),
    {
        if self.is_complete {
            if self.is_cancelled {
                ProgressState::Cancelled
            } else if self.error.is_some() {
                ProgressState::Failed
            } else {
                ProgressState::Completed
            }
        } else if self.started_at.is_some() {
            ProgressState::Running
        } else {
            ProgressState::NotStarted
        }
    }

    /// Begins a run of `total_emails` messages now.
    pub fn start(&mut self, total_emails: usize)
        ensures
            exists|now: Instant| final(self)@ == #[trigger] old(self)@.started(
                total_emails as nat,
                now,
            ),
    {
        let now = Timestamp::now();
        self.start_at(total_emails, now);
        proof {
            assert(self@ == old(self)@.started(total_emails as nat, now@));
        }
    }

    /// Begins a run of `total_emails` messages at `now`.
    pub fn start_at(&mut self, total_emails: usize, now: Timestamp)
        ensures
            final(self)@ == old(self)@.started(total_emails as nat, now@),
    {
        self.total_emails = total_emails;
        self.processed_emails = 0;
        self.current_pdf = 1;
        self.status = String::from_str("Verarbeitung gestartet");
        self.is_complete = false;
        self.error = None;
        self.started_at = Some(now);
        self.completed_at = None;
        self.is_cancelled = false;
    }

    /// Takes a report from the run: how many messages are processed, which
    /// document is being made, and what to tell the user.
    pub fn update_progress(&mut self, processed_emails: usize, current_pdf: u32, status: String)
        ensures
            final(self)@ == old(self)@.updated(
                processed_emails as nat,
                current_pdf as nat,
                status@,
            ),
    {
        if !self.is_complete {
            self.processed_emails = processed_emails;
            self.current_pdf = current_pdf;
            self.status = status;
        }
    }

    /// Marks the run as completed now.
    pub fn complete(&mut self)
        ensures
            exists|now: Instant| final(self)@ == #[trigger] old(self)@.completed(now),
    {
        let now = Timestamp::now();
        self.complete_at(now);
        proof {
            assert(self@ == old(self)@.completed(now@));
        }
    }

    /// Marks the run as completed at `now`.
    pub fn complete_at(&mut self, now: Timestamp)
        ensures
            final(self)@ == old(self)@.completed(now@),
    {
        if !self.is_complete {
            self.is_complete = true;
            self.status = String::from_str("Verarbeitung abgeschlossen");
            self.completed_at = Some(now);
        }
    }

    /// Marks the run as failed now, for the reason given.
    pub fn fail(&mut self, error: String)
        ensures
            exists|now: Instant| final(self)@ == #[trigger] old(self)@.failed(error@, now),
    {
        let now = Timestamp::now();
        let ghost reason = error@;
        self.fail_at(error, now);
        proof {
            assert(self@ == old(self)@.failed(reason, now@));
        }
    }

    /// Marks the run as failed at `now`, for the reason given.
    pub fn fail_at(&mut self, error: String, now: Timestamp)
        ensures
            final(self)@ == old(self)@.failed(error@, now@),
    {
        if !self.is_complete {
            self.is_complete = true;
            self.error = Some(error);
            self.status = String::from_str("Verarbeitung fehlgeschlagen");
            self.completed_at = Some(now);
        }
    }

    /// Marks the run as cancelled now.
    pub fn cancel(&mut self)
        ensures
            exists|now: Instant| final(self)@ == #[trigger] old(self)@.cancelled(now),
    {
        let now = Timestamp::now();
        self.cancel_at(now);
        proof {
            assert(self@ == old(self)@.cancelled(now@));
        }
    }

    /// Marks the run as cancelled at `now`.
    pub fn cancel_at(&mut self, now: Timestamp)
        ensures
            final(self)@ == old(self)@.cancelled(now@),
    {
        if !self.is_complete {
            self.is_cancelled = true;
            self.is_complete = true;
            self.status = String::from_str("Verarbeitung abgebrochen");
            self.completed_at = Some(now);
        }
    }

    /// The progress in whole percent, rounded down.
    pub fn percent(&self) -> (p: u128)
        ensures
            p == self@.percent(),
    {
        if self.total_emails == 0 {
            0
        } else {
            (self.processed_emails as u128) * 100 / (self.total_emails as u128)
        }
    }

    /// How long the run has taken: up to its end where it is over, up to now
    /// where it is not, and nothing where it has not begun.
    pub fn duration(&self) -> (d: Option<Elapsed>)
        ensures
            d is Some <==> self@.started_at is Some,
            d matches Some(e) ==> exists|now: Instant| #[trigger]
                self@.elapsed_at(now) == Some((e.secs as int, e.nanos as int)),
    {
        let now = Timestamp::now();
        let d = self.duration_at(now);
        proof {
            if let Some(e) = d {
                assert(self@.elapsed_at(now@) == Some((e.secs as int, e.nanos as int)));
            }
        }
        d
    }

    /// How long the run has taken when the clock shows `now`.
    pub fn duration_at(&self, now: Timestamp) -> (d: Option<Elapsed>)
        ensures
            match d {
                Some(e) => self@.elapsed_at(now@) == Some((e.secs as int, e.nanos as int)),
                None => self@.elapsed_at(now@) is None,
            },
    {
        match self.started_at {
            Some(start) => {
                let end = match self.completed_at {
                    Some(end) => end,
                    None => now,
                };
                Some(start.elapsed_until(&end))
            },
            None => None,
        }
    }
}

impl ProgressModel {
    /// The time from the start of the run to its end, or to `now` where it
    /// has none: whole seconds, and the nanoseconds beyond them.
    pub open spec fn elapsed_at(self, now: Instant) -> Option<(int, int)> {
        match self.started_at {
            Some(start) => {
                let end = match self.completed_at {
                    Some(end) => end,
                    None => now,
                };
                Some(elapsed(start, end))
            },
            None => None,
        }
    }
}

/// What is known of an archive file.
#[derive(Debug, PartialEq)]
pub struct PstInfo {
    pub file_path: String,
    pub email_count: usize,
    pub is_valid: bool,
    pub file_size: u64,
    pub last_modified: Option<Timestamp>,
    pub validation_errors: Vec<String>,
}

/// What a `PstInfo` stands for.
pub struct PstInfoModel {
    pub file_path: Seq<char>,
    pub email_count: nat,
    pub is_valid: bool,
    pub file_size: nat,
    pub last_modified: Option<Instant>,
    pub validation_errors: Seq<Seq<char>>,
}

impl View for PstInfo {
    type V = PstInfoModel;

    open spec fn view(&self) -> PstInfoModel {
        PstInfoModel {
            file_path: self.file_path@,
            email_count: self.email_count as nat,
            is_valid: self.is_valid,
            file_size: self.file_size as nat,
            last_modified: match self.last_modified {
                Some(t) => Some(t@),
                None => None,
            },
            validation_errors: self.validation_errors.deep_view(),
        }
    }
}

impl PstInfoModel {
    /// What is known before the file has been looked at: nothing, and it
    /// does not count as valid.
    pub open spec fn unknown(file_path: Seq<char>) -> PstInfoModel {
        PstInfoModel {
            file_path,
            email_count: 0,
            is_valid: false,
            file_size: 0,
            last_modified: None,
            validation_errors: Seq::empty(),
        }
    }

    /// What is known once the file has been found to be a valid archive.
    pub open spec fn marked_valid(
        self,
        email_count: nat,
        file_size: nat,
        last_modified: Instant,
    ) -> PstInfoModel {
        PstInfoModel {
            is_valid: true,
            email_count,
            file_size,
            last_modified: Some(last_modified),
            validation_errors: Seq::empty(),
            ..self
        }
    }

    /// What is known once the file has been found to be no valid archive.
    pub open spec fn marked_invalid(self, errors: Seq<Seq<char>>) -> PstInfoModel {
        PstInfoModel { is_valid: false, email_count: 0, validation_errors: errors, ..self }
    }

    /// What is known with one more error noted.
    pub open spec fn with_error(self, error: Seq<char>) -> PstInfoModel {
        PstInfoModel {
            is_valid: false,
            validation_errors: self.validation_errors.push(error),
            ..self
        }
    }
}

impl PstInfo {
    /// What is known of a file before it has been looked at.
    pub fn new(file_path: String) -> (info: PstInfo)
        ensures
            info@ == PstInfoModel::unknown(file_path@),
    {
        let info = PstInfo {
            file_path,
            email_count: 0,
            is_valid: false,
            file_size: 0,
            last_modified: None,
            validation_errors: Vec::new(),
        };
        proof {
            assert(info.validation_errors.deep_view() =~= Seq::empty());
        }
        info
    }

    /// Records that the file is a valid archive, and drops the errors noted
    /// before.
    pub fn mark_valid(&mut self, email_count: usize, file_size: u64, last_modified: Timestamp)
        ensures
            final(self)@ == old(self)@.marked_valid(
                email_count as nat,
                file_size as nat,
                last_modified@,
            ),
    {
        self.is_valid = true;
        self.email_count = email_count;
        self.file_size = file_size;
        self.last_modified = Some(last_modified);
        self.validation_errors.clear();
        proof {
            assert(self.validation_errors.deep_view() =~= Seq::empty());
        }
    }

    /// Records that the file is no valid archive, and why.
    pub fn mark_invalid(&mut self, errors: Vec<String>)
        ensures
            final(self)@ == old(self)@.marked_invalid(errors.deep_view()),
    {
        self.is_valid = false;
        self.email_count = 0;
        self.validation_errors = errors;
    }

    /// Notes one more error; the file then does not count as valid.
    pub fn add_error(&mut self, error: String)
        ensures
            final(self)@ == old(self)@.with_error(error@),
    {
        let ghost before = self.validation_errors.deep_view();
        let ghost added = error@;
        self.validation_errors.push(error);
        self.is_valid = false;
        proof {
            assert(self.validation_errors.deep_view() =~= before.push(added));
        }
    }
}

/// uuid's `Uuid::new_v4` and the text that its `Display` gives: a random
/// identifier in the hyphenated form, which has 36 characters.
#[verifier::external_body]
pub(crate) fn fresh_session_id() -> (id: String)
    ensures
        id@.len() == 36,
{
    uuid::Uuid::new_v4().to_string()
}

/// One run: its identifier, its configuration, its progress, and the
/// documents it has produced so far, in the order of their batches.
#[derive(Debug, PartialEq)]
pub struct ProcessingSession {
    pub session_id: String,
    pub config: ProcessingConfig,
    pub progress: ProcessingProgress,
    pub generated_files: Vec<String>,
    pub created_at: Timestamp,
}

/// What a `ProcessingSession` stands for.
pub struct SessionModel {
    pub session_id: Seq<char>,
    pub config: ConfigModel,
    pub progress: ProgressModel,
    pub generated_files: Seq<Seq<char>>,
    pub created_at: Instant,
}

impl View for ProcessingSession {
    type V = SessionModel;

    open spec fn view(&self) -> SessionModel {
        SessionModel {
            session_id: self.session_id@,
            config: self.config@,
            progress: self.progress@,
            generated_files: self.generated_files.deep_view(),
            created_at: self.created_at@,
        }
    }
}

impl DeepView for ProcessingSession {
    type V = SessionModel;

    open spec fn deep_view(&self) -> SessionModel {
        self@
    }
}

impl SessionModel {
    /// A session that has produced nothing and has not begun.
    pub open spec fn fresh(
        session_id: Seq<char>,
        config: ConfigModel,
        created_at: Instant,
    ) -> SessionModel {
        SessionModel {
            session_id,
            config,
            progress: ProgressModel::fresh(),
            generated_files: Seq::empty(),
            created_at,
        }
    }
}

impl Clone for ProcessingSession {
    fn clone(&self) -> (copy: ProcessingSession)
        ensures
            copy@ == self@,
    {
        ProcessingSession {
            session_id: self.session_id.clone(),
            config: self.config.clone(),
            progress: self.progress.clone(),
            generated_files: clone_texts(&self.generated_files),
            created_at: self.created_at,
        }
    }
}

impl ProcessingSession {
    /// A session for `config`, created now under a random identifier.
    pub fn new(config: ProcessingConfig) -> (session: ProcessingSession)
        ensures
            session@.session_id.len() == 36,
            session@ == SessionModel::fresh(
                session@.session_id,
                config@,
                session@.created_at,
            ),
    {
        Self::new_with(config, fresh_session_id(), Timestamp::now())
    }

    /// A session for `config`, created at `created_at` under the identifier
    /// given.
    pub fn new_with(
        config: ProcessingConfig,
        session_id: String,
        created_at: Timestamp,
    ) -> (session:
        ProcessingSession)
        ensures
            session@ == SessionModel::fresh(session_id@, config@, created_at@),
    {
        let session = ProcessingSession {
            session_id,
            config,
            progress: ProcessingProgress::new(),
            generated_files: Vec::new(),
            created_at,
        };
        proof {
            assert(session.generated_files.deep_view() =~= Seq::empty());
        }
        session
    }

    /// Notes one more document that the run has produced.
    pub fn add_generated_file(&mut self, file_path: String)
        ensures
            final(self)@ == (SessionModel {
                generated_files: old(self)@.generated_files.push(file_path@),
                ..old(self)@
            }),
    {
        let ghost before = self.generated_files.deep_view();
        let ghost added = file_path@;
        self.generated_files.push(file_path);
        proof {
            assert(self.generated_files.deep_view() =~= before.push(added));
        }
    }
}

} // verus!
