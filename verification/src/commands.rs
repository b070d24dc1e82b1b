//! The processing orchestrator: it owns the table of sessions, lets at most
//! one run be current, starts runs, hands their batches out one by one,
//! takes their results back, and routes cancellation. Every operation is one
//! short step on the orchestrator's state; waiting, rendering and writing
//! happen between the steps, outside the library.

use vstd::prelude::*;
use vstd::string::*;
use crate::directory_validator::{
    destination_accepted, destination_refusal, lemma_accepted_destination,
    lemma_known_parts_decide, parts_are_known, space_fault, DirectoryFacts, DirectoryProbe,
    DirectoryValidator,
};
use crate::errors::{
    AppError, AppFault, FileSystemError, FileSystemFault, IoFailure, IoFailureKind, IoFault,
    PdfError,
    PdfFault, PstError, PstFault, ValidationError, ValidationFault,
};
use crate::keyed::{
    distinct_keys, keyed, lemma_keyed_keys, lemma_keyed_push, lemma_keyed_remove,
    lemma_keyed_value,
};
use crate::pdf_generator::{GeneratorModel, PdfGenerator};
use crate::pst_processor::{
    open_verdict, signed_seconds, FileStats, PstFileFacts, PstFileProbe, PstProcessor, SourceModel,
};
use crate::text::{decimal, is_plain_name, lowercase_text, push_decimal, same_text};
use crate::time::{representable, Instant, LocalInstant, LocalTimestamp, Timestamp};
use crate::types::{
    extension_found, fresh_session_id, path_extension, plain_extension, stands_behind_dot,
    ConfigModel, Email, EmailModel, ProcessingConfig,
    ProcessingProgress, ProcessingSession, ProgressModel, ProgressState, PstInfo, PstInfoModel,
    SessionModel,
};

verus! {

/// The room that one document is taken to need on disk: ten mebibytes.
pub const BYTES_PER_DOCUMENT: u64 = 10 * 1024 * 1024;

/// Why a run was not started.
#[derive(Debug)]
pub enum StartError {
    /// Another run is current.
    AlreadyRunning,
    /// A field of the configuration is wrong.
    ConfigInvalid(ValidationError),
    /// The directory for the documents cannot be used.
    DestinationInvalid(ValidationError),
    /// The archive could not be opened.
    SourceUnavailable(PstError),
    /// The messages of the archive could not be counted.
    CountFailed(PstError),
    /// The archive holds no messages.
    EmptySource,
    /// The room on disk could not be found out, or is too little.
    InsufficientSpace(FileSystemError),
    /// The layout engine could not be set up.
    GeneratorUnavailable(PdfError),
}

/// What a `StartError` stands for.
pub enum StartFault {
    AlreadyRunning,
    ConfigInvalid(ValidationFault),
    DestinationInvalid(ValidationFault),
    SourceUnavailable(PstFault),
    CountFailed(PstFault),
    EmptySource,
    InsufficientSpace(FileSystemFault),
    GeneratorUnavailable(PdfFault),
}

impl View for StartError {
    type V = StartFault;

    open spec fn view(&self) -> StartFault {
        match self {
            StartError::AlreadyRunning => StartFault::AlreadyRunning,
            StartError::ConfigInvalid(e) => StartFault::ConfigInvalid(e@),
            StartError::DestinationInvalid(e) => StartFault::DestinationInvalid(e@),
            StartError::SourceUnavailable(e) => StartFault::SourceUnavailable(e@),
            StartError::CountFailed(e) => StartFault::CountFailed(e@),
            StartError::EmptySource => StartFault::EmptySource,
            StartError::InsufficientSpace(e) => StartFault::InsufficientSpace(e@),
            StartError::GeneratorUnavailable(e) => StartFault::GeneratorUnavailable(e@),
        }
    }
}

impl StartFault {
    /// The message for the user.
    pub open spec fn text(self) -> Seq<char> {
        match self {
            StartFault::AlreadyRunning => "Eine Verarbeitung läuft bereits. Bitte warten Sie, bis sie abgeschlossen ist oder brechen Sie sie ab."@,
            StartFault::ConfigInvalid(e) => "Konfigurationsfehler: "@ + e.text(),
            StartFault::DestinationInvalid(e) => "Ausgabeverzeichnis ungültig: "@ + e.text(),
            StartFault::SourceUnavailable(e) => "PST-Datei konnte nicht geöffnet werden: "@
                + e.text(),
            StartFault::CountFailed(e) => "Fehler beim Zählen der E-Mails: "@ + e.text(),
            StartFault::EmptySource => "Die PST-Datei enthält keine E-Mails zum Verarbeiten."@,
            StartFault::InsufficientSpace(e) => "Speicherplatz-Problem: "@ + e.text(),
            StartFault::GeneratorUnavailable(e) => "PDF-Generator konnte nicht initialisiert werden: "@
                + e.text(),
        }
    }
}

impl StartError {
    /// The message for the user.
    pub fn message(&self) -> (out: String)
        ensures
            out@ == self@.text(),
    {
        match self {
            StartError::AlreadyRunning => String::from_str(
                "Eine Verarbeitung läuft bereits. Bitte warten Sie, bis sie abgeschlossen ist oder brechen Sie sie ab.",
            ),
            StartError::ConfigInvalid(e) => String::from_str("Konfigurationsfehler: ").concat(
                e.message().as_str(),
            ),
            StartError::DestinationInvalid(e) => String::from_str(
                "Ausgabeverzeichnis ungültig: ",
            ).concat(e.message().as_str()),
            StartError::SourceUnavailable(e) => String::from_str(
                "PST-Datei konnte nicht geöffnet werden: ",
            ).concat(e.message().as_str()),
            StartError::CountFailed(e) => String::from_str(
                "Fehler beim Zählen der E-Mails: ",
            ).concat(e.message().as_str()),
            StartError::EmptySource => String::from_str(
                "Die PST-Datei enthält keine E-Mails zum Verarbeiten.",
            ),
            StartError::InsufficientSpace(e) => String::from_str("Speicherplatz-Problem: ").concat(
                e.message().as_str(),
            ),
            StartError::GeneratorUnavailable(e) => String::from_str(
                "PDF-Generator konnte nicht initialisiert werden: ",
            ).concat(e.message().as_str()),
        }
    }
}

/// Why nothing was cancelled.
#[derive(Clone, Copy, Debug, PartialEq, Eq)]
pub enum CancelError {
    /// No run is current.
    NoActiveJob,
}

impl CancelError {
    /// The message for the user.
    pub fn message(&self) -> (out: String)
        ensures
            out@ == "Keine aktive Verarbeitung zum Abbrechen gefunden."@,
    {
        String::from_str("Keine aktive Verarbeitung zum Abbrechen gefunden.")
    }
}

/// What the message source said when it was asked for the number of its
/// messages.
#[derive(Debug)]
pub enum SourceProbe {
    /// The archive could not be opened.
    Unopened(PstError),
    /// The archive was opened, but its messages could not be counted.
    Uncounted(PstError),
    /// The archive holds this many messages.
    Counted(usize),
}

/// What a `SourceProbe` stands for.
pub enum SourceFacts {
    Unopened(PstFault),
    Uncounted(PstFault),
    Counted(usize),
}

impl View for SourceProbe {
    type V = SourceFacts;

    open spec fn view(&self) -> SourceFacts {
        match self {
            SourceProbe::Unopened(e) => SourceFacts::Unopened(e@),
            SourceProbe::Uncounted(e) => SourceFacts::Uncounted(e@),
            SourceProbe::Counted(n) => SourceFacts::Counted(*n),
        }
    }
}

/// What was found out before a run: about the directory for the documents,
/// about the archive, and about the room that is free on disk.
#[derive(Debug)]
pub struct Preflight {
    pub destination: DirectoryProbe,
    pub source: SourceProbe,
    pub available_space: Result<u64, FileSystemError>,
}

/// What a `Preflight` stands for.
pub struct PreflightFacts {
    pub destination: DirectoryFacts,
    pub source: SourceFacts,
    pub available_space: Result<u64, FileSystemFault>,
}

impl View for Preflight {
    type V = PreflightFacts;

    open spec fn view(&self) -> PreflightFacts {
        PreflightFacts {
            destination: self.destination@,
            source: self.source@,
            available_space: match self.available_space {
                Ok(free) => Ok(free),
                Err(e) => Err(e@),
            },
        }
    }
}

/// The number of batches that `total` messages make at `batch_size` to the
/// batch: the total divided by the batch size, rounded up.
pub open spec fn batch_count(total: nat, batch_size: nat) -> nat {
    if batch_size == 0 {
        0
    } else {
        ((total + batch_size - 1) / (batch_size as int)) as nat
    }
}

/// The number of messages in batch number `k`, counted from zero: a full
/// batch, or what is left of the total for the last.
pub open spec fn batch_len(total: nat, batch_size: nat, k: nat) -> nat {
    if k * batch_size >= total {
        0
    } else if total - k * batch_size < batch_size {
        (total - k * batch_size) as nat
    } else {
        batch_size
    }
}

/// The room on disk that a run of `total` messages is taken to need: that of
/// one document for every batch; the largest number where that is beyond it.
pub open spec fn required_space(total: nat, batch_size: nat) -> nat {
    let wanted = batch_count(total, batch_size) * BYTES_PER_DOCUMENT;
    if wanted > u64::MAX {
        u64::MAX as nat
    } else {
        wanted as nat
    }
}

/// A number of documents as progress reports hold it: the largest number
/// of 32 bits where it is beyond that.
pub open spec fn as_sequence(n: nat) -> nat {
    if n > u32::MAX {
        u32::MAX as nat
    } else {
        n
    }
}

/// How a run ended.
#[derive(Clone, Copy, Debug, PartialEq, Eq)]
pub enum JobOutcome {
    Completed,
    Failed,
    Cancelled,
}

/// The state of the orchestrator: the sessions by their identifiers, the
/// identifier of the current session if there is one, and the cancellation
/// tokens by the identifiers of their sessions, each with whether it has been
/// fired.
pub struct OrchestratorModel {
    pub sessions: Map<Seq<char>, SessionModel>,
    pub current: Option<Seq<char>>,
    pub tokens: Map<Seq<char>, bool>,
}

/// How the orchestrator closes a run.
pub enum Ending {
    Completed,
    Failed(Seq<char>),
    Cancelled,
}

impl Ending {
    /// The progress of a run that is closed in this way at `now`.
    pub open spec fn of(self, p: ProgressModel, now: Instant) -> ProgressModel {
        match self {
            Ending::Completed => p.completed(now),
            Ending::Failed(reason) => p.failed(reason, now),
            Ending::Cancelled => p.cancelled(now),
        }
    }
}

impl OrchestratorModel {
    /// No sessions, no tokens, nothing current.
    pub open spec fn idle() -> OrchestratorModel {
        OrchestratorModel { sessions: Map::empty(), current: None, tokens: Map::empty() }
    }

    /// What a poller is told: the progress of the current session, and that
    /// of a run that has not begun where there is none.
    pub open spec fn progress(self) -> ProgressModel {
        match self.current {
            Some(id) => if self.sessions.contains_key(id) {
                self.sessions[id].progress
            } else {
                ProgressModel::fresh()
            },
            None => ProgressModel::fresh(),
        }
    }

    /// The current session, if there is one and it is still in the table.
    pub open spec fn current_session(self) -> Option<SessionModel> {
        match self.current {
            Some(id) => if self.sessions.contains_key(id) {
                Some(self.sessions[id])
            } else {
                None
            },
            None => None,
        }
    }

    /// Whether the token of the session has been fired.
    pub open spec fn signalled(self, id: Seq<char>) -> bool {
        self.tokens.contains_key(id) && self.tokens[id]
    }

    /// The state with the progress of the session replaced, where the
    /// session is in the table.
    pub open spec fn with_progress(
        self,
        id: Seq<char>,
        progress: ProgressModel,
    ) -> OrchestratorModel {
        if self.sessions.contains_key(id) {
            OrchestratorModel {
                sessions: self.sessions.insert(
                    id,
                    SessionModel { progress, ..self.sessions[id] },
                ),
                ..self
            }
        } else {
            self
        }
    }

    /// The state after a report from the run of the session.
    pub open spec fn reported(
        self,
        id: Seq<char>,
        processed: nat,
        current_pdf: nat,
        status: Seq<char>,
    ) -> OrchestratorModel {
        if self.sessions.contains_key(id) {
            self.with_progress(
                id,
                self.sessions[id].progress.updated(processed, current_pdf, status),
            )
        } else {
            self
        }
    }

    /// The state with one more document noted for the session, where the
    /// session is in the table.
    pub open spec fn with_file(self, id: Seq<char>, path: Seq<char>) -> OrchestratorModel {
        if self.sessions.contains_key(id) {
            OrchestratorModel {
                sessions: self.sessions.insert(
                    id,
                    SessionModel {
                        generated_files: self.sessions[id].generated_files.push(path),
                        ..self.sessions[id]
                    },
                ),
                ..self
            }
        } else {
            self
        }
    }

    /// The state after a new session has become the current one, with a
    /// token of its own that has not been fired.
    pub open spec fn began(self, session: SessionModel) -> OrchestratorModel {
        OrchestratorModel {
            sessions: self.sessions.insert(session.session_id, session),
            current: Some(session.session_id),
            tokens: self.tokens.insert(session.session_id, false),
        }
    }

    /// The state after a request to cancel at `now`: the token of the
    /// current session is fired, the session is marked as cancelled, and
    /// nothing is current any more. Without a current session nothing
    /// changes.
    pub open spec fn cancelled(self, now: Instant) -> OrchestratorModel {
        match self.current {
            None => self,
            Some(id) => {
                let marked = if self.sessions.contains_key(id) {
                    self.with_progress(id, self.sessions[id].progress.cancelled(now))
                } else {
                    self
                };
                OrchestratorModel {
                    sessions: marked.sessions,
                    current: None,
                    tokens: if self.tokens.contains_key(id) {
                        self.tokens.insert(id, true)
                    } else {
                        self.tokens
                    },
                }
            },
        }
    }

    /// The state after the run of the session has ended at `now`: the
    /// session is marked, nothing is current any more, and the token of the
    /// session is gone.
    pub open spec fn ended(self, id: Seq<char>, ending: Ending, now: Instant) -> OrchestratorModel {
        let marked = if self.sessions.contains_key(id) {
            self.with_progress(id, ending.of(self.sessions[id].progress, now))
        } else {
            self
        };
        OrchestratorModel {
            sessions: marked.sessions,
            current: None,
            tokens: self.tokens.remove(id),
        }
    }

    /// The state without the session and without its token.
    pub open spec fn cleaned(self, id: Seq<char>) -> OrchestratorModel {
        OrchestratorModel {
            sessions: self.sessions.remove(id),
            current: self.current,
            tokens: self.tokens.remove(id),
        }
    }
}

/// Whether everything is in order for a run to start.
pub open spec fn start_accepted(
    m: OrchestratorModel,
    cfg: ConfigModel,
    facts: PreflightFacts,
) -> bool {
    &&& m.current is None
    &&& cfg.fields_ok()
    &&& destination_accepted(cfg.output_directory, facts.destination)
    &&& facts.source matches SourceFacts::Counted(total)
    &&& total > 0
    &&& facts.available_space matches Ok(free)
    &&& free >= required_space(total as nat, cfg.emails_per_pdf as nat)
}

/// Whether `fault` is what is reported when the archive or the room on disk
/// stands in the way of a run.
pub open spec fn resources_refusal(
    cfg: ConfigModel,
    facts: PreflightFacts,
    fault: StartFault,
) -> bool {
    match facts.source {
        SourceFacts::Unopened(cause) => fault == StartFault::SourceUnavailable(cause),
        SourceFacts::Uncounted(cause) => fault == StartFault::CountFailed(cause),
        SourceFacts::Counted(total) => if total == 0 {
            fault == StartFault::EmptySource
        } else {
            match facts.available_space {
                Err(cause) => fault == StartFault::InsufficientSpace(cause),
                Ok(free) => {
                    &&& fault matches StartFault::InsufficientSpace(found)
                    &&& space_fault(
                        free as nat,
                        required_space(total as nat, cfg.emails_per_pdf as nat),
                    ) == Some(found)
                },
            }
        },
    }
}

/// Whether `fault` is what is reported when a run is not started: the first
/// of a run that is current, a wrong field of the configuration, a
/// destination that cannot be used, an archive that cannot be opened or
/// counted or is empty, and too little room on disk.
pub open spec fn start_refusal(
    m: OrchestratorModel,
    cfg: ConfigModel,
    facts: PreflightFacts,
    fault: StartFault,
) -> bool {
    if m.current is Some {
        fault == StartFault::AlreadyRunning
    } else if !cfg.fields_ok() {
        fault matches StartFault::ConfigInvalid(found) && cfg.fields_refusal(found)
    } else {
        match fault {
            StartFault::DestinationInvalid(found) => destination_refusal(
                cfg.output_directory,
                facts.destination,
                found,
            ),
            _ => destination_accepted(cfg.output_directory, facts.destination)
                && resources_refusal(cfg, facts, fault),
        }
    }
}

/// The cancellation token of one session: single-use, fired by a request to
/// cancel and looked at by the run between its batches.
#[derive(Debug)]
pub struct CancellationToken {
    session_id: String,
    signalled: bool,
}

impl CancellationToken {
    /// A token for the session that has not been fired.
    pub fn new(session_id: String) -> (token: CancellationToken)
        ensures
            token.session_text() == session_id@,
            !token.fired(),
    {
        CancellationToken { session_id, signalled: false }
    }

    /// The identifier of the session that the token belongs to.
    pub closed spec fn session_text(&self) -> Seq<char> {
        self.session_id@
    }

    /// Whether the token has been fired.
    pub closed spec fn fired(&self) -> bool {
        self.signalled
    }

    /// Fires the token. To fire it again changes nothing.
    pub fn signal(&mut self)
        ensures
            final(self).fired(),
            final(self).session_text() == old(self).session_text(),
    {
        self.signalled = true;
    }

    /// Whether the token has been fired.
    pub fn is_signalled(&self) -> (b: bool)
        ensures
            b == self.fired(),
    {
        self.signalled
    }
}

spec fn session_pairs(entries: Seq<ProcessingSession>) -> Seq<(Seq<char>, SessionModel)> {
    Seq::new(entries.len(), |i: int| (entries[i].session_id@, entries[i]@))
}

spec fn token_pairs(entries: Seq<CancellationToken>) -> Seq<(Seq<char>, bool)> {
    Seq::new(entries.len(), |i: int| (entries[i].session_id@, entries[i].signalled))
}

/// The orchestrator: the one owner of the sessions, of the mark of the
/// current session and of the cancellation tokens.
#[derive(Debug)]
pub struct Orchestrator {
    sessions: Vec<ProcessingSession>,
    current: Option<String>,
    tokens: Vec<CancellationToken>,
}

impl View for Orchestrator {
    type V = OrchestratorModel;

    closed spec fn view(&self) -> OrchestratorModel {
        OrchestratorModel {
            sessions: keyed(session_pairs(self.sessions@)),
            current: match self.current {
                Some(id) => Some(id@),
                None => None,
            },
            tokens: keyed(token_pairs(self.tokens@)),
        }
    }
}

impl Orchestrator {
    #[verifier::type_invariant]
    spec fn no_identifier_twice(self) -> bool {
        distinct_keys(session_pairs(self.sessions@)) && distinct_keys(token_pairs(self.tokens@))
    }

    /// An orchestrator without sessions.
    pub fn new() -> (o: Orchestrator)
        ensures
            o@ == OrchestratorModel::idle(),
    {
        let o = Orchestrator { sessions: Vec::new(), current: None, tokens: Vec::new() };
        proof {
            assert(session_pairs(o.sessions@) =~= Seq::empty());
            assert(token_pairs(o.tokens@) =~= Seq::empty());
        }
        o
    }

    fn session_index(&self, id: &str) -> (found: Option<usize>)
        ensures
            match found {
                Some(i) => i < self.sessions@.len() && self.sessions@[i as int].session_id@ == id@
                    && self@.sessions.contains_key(id@) && self@.sessions[id@]
                    == self.sessions@[i as int]@,
                None => !self@.sessions.contains_key(id@),
            },
    {
        proof {
            use_type_invariant(self);
            lemma_keyed_keys(session_pairs(self.sessions@));
        }
        let mut i: usize = 0;
        while i < self.sessions.len()
            invariant
                i <= self.sessions.len(),
                forall|j: int| 0 <= j < i ==> self.sessions@[j].session_id@ != id@,
            decreases self.sessions.len() - i,
        {
            if same_text(self.sessions[i].session_id.as_str(), id) {
                proof {
                    use_type_invariant(self);
                    let pairs = session_pairs(self.sessions@);
                    lemma_keyed_keys(pairs);
                    lemma_keyed_value(pairs, i as int);
                    assert(pairs[i as int].0 == id@);
                }
                return Some(i);
            }
            i += 1;
        }
        proof {
            let pairs = session_pairs(self.sessions@);
            lemma_keyed_keys(pairs);
            assert forall|j: int| 0 <= j < pairs.len() implies (#[trigger] pairs[j]).0 != id@ by {
                assert(self.sessions@[j].session_id@ != id@);
            }
        }
        None
    }

    fn token_index(&self, id: &str) -> (found: Option<usize>)
        ensures
            match found {
                Some(i) => i < self.tokens@.len() && self.tokens@[i as int].session_id@ == id@
                    && self@.tokens.contains_key(id@) && self@.tokens[id@]
                    == self.tokens@[i as int].signalled,
                None => !self@.tokens.contains_key(id@),
            },
    {
        proof {
            use_type_invariant(self);
            lemma_keyed_keys(token_pairs(self.tokens@));
        }
        let mut i: usize = 0;
        while i < self.tokens.len()
            invariant
                i <= self.tokens.len(),
                forall|j: int| 0 <= j < i ==> self.tokens@[j].session_id@ != id@,
            decreases self.tokens.len() - i,
        {
            if same_text(self.tokens[i].session_id.as_str(), id) {
                proof {
                    use_type_invariant(self);
                    let pairs = token_pairs(self.tokens@);
                    lemma_keyed_keys(pairs);
                    lemma_keyed_value(pairs, i as int);
                    assert(pairs[i as int].0 == id@);
                }
                return Some(i);
            }
            i += 1;
        }
        proof {
            let pairs = token_pairs(self.tokens@);
            lemma_keyed_keys(pairs);
            assert forall|j: int| 0 <= j < pairs.len() implies (#[trigger] pairs[j]).0 != id@ by {
                assert(self.tokens@[j].session_id@ != id@);
            }
        }
        None
    }

    /// Takes the session out of the table, if it is there.
    fn take_session(&mut self, id: &str) -> (taken: Option<ProcessingSession>)
        ensures
            final(self)@.current == old(self)@.current,
            final(self)@.tokens == old(self)@.tokens,
            final(self)@.sessions == old(self)@.sessions.remove(id@),
            match taken {
                Some(session) => {
                    &&& old(self)@.sessions.contains_key(id@)
                    &&& session@ == old(self)@.sessions[id@]
                    &&& session@.session_id == id@
                },
                None => !old(self)@.sessions.contains_key(id@),
            },
    {
        match self.session_index(id) {
            Some(i) => {
                proof {
                    use_type_invariant(&*self);
                    let pairs = session_pairs(self.sessions@);
                    lemma_keyed_remove(pairs, i as int);
                    assert(session_pairs(self.sessions@.remove(i as int)) =~= pairs.remove(
                        i as int,
                    ));
                }
                let mut entries: Vec<ProcessingSession> = Vec::new();
                proof {
                    assert(session_pairs(entries@) =~= Seq::empty());
                }
                std::mem::swap(&mut self.sessions, &mut entries);
                let session = entries.remove(i);
                std::mem::swap(&mut self.sessions, &mut entries);
                Some(session)
            },
            None => {
                proof {
                    assert(self@.sessions.remove(id@) =~= self@.sessions);
                }
                None
            },
        }
    }

    /// Puts a session into the table that holds none of its identifier.
    fn put_session(&mut self, session: ProcessingSession)
        requires
            !old(self)@.sessions.contains_key(session@.session_id),
        ensures
            final(self)@.current == old(self)@.current,
            final(self)@.tokens == old(self)@.tokens,
            final(self)@.sessions == old(self)@.sessions.insert(session@.session_id, session@),
    {
        proof {
            use_type_invariant(&*self);
            let pairs = session_pairs(self.sessions@);
            lemma_keyed_keys(pairs);
            lemma_keyed_push(pairs, session@.session_id, session@);
            assert(session_pairs(self.sessions@.push(session)) =~= pairs.push(
                (session@.session_id, session@),
            ));
        }
        let mut entries: Vec<ProcessingSession> = Vec::new();
        proof {
            assert(session_pairs(entries@) =~= Seq::empty());
        }
        std::mem::swap(&mut self.sessions, &mut entries);
        entries.push(session);
        std::mem::swap(&mut self.sessions, &mut entries);
    }

    /// Removes the token of the session, if there is one, and says whether
    /// it had been fired.
    fn take_token(&mut self, id: &str) -> (taken: Option<bool>)
        ensures
            final(self)@.current == old(self)@.current,
            final(self)@.sessions == old(self)@.sessions,
            final(self)@.tokens == old(self)@.tokens.remove(id@),
            match taken {
                Some(fired) => {
                    &&& old(self)@.tokens.contains_key(id@)
                    &&& fired == old(self)@.tokens[id@]
                },
                None => !old(self)@.tokens.contains_key(id@),
            },
    {
        match self.token_index(id) {
            Some(i) => {
                proof {
                    use_type_invariant(&*self);
                    let pairs = token_pairs(self.tokens@);
                    lemma_keyed_remove(pairs, i as int);
                    assert(token_pairs(self.tokens@.remove(i as int)) =~= pairs.remove(i as int));
                }
                let mut entries: Vec<CancellationToken> = Vec::new();
                proof {
                    assert(token_pairs(entries@) =~= Seq::empty());
                }
                std::mem::swap(&mut self.tokens, &mut entries);
                let token = entries.remove(i);
                std::mem::swap(&mut self.tokens, &mut entries);
                Some(token.signalled)
            },
            None => {
                proof {
                    assert(self@.tokens.remove(id@) =~= self@.tokens);
                }
                None
            },
        }
    }

    /// Puts a token into the table that holds none of its session.
    fn put_token(&mut self, token: CancellationToken)
        requires
            !old(self)@.tokens.contains_key(token.session_text()),
        ensures
            final(self)@.current == old(self)@.current,
            final(self)@.sessions == old(self)@.sessions,
            final(self)@.tokens == old(self)@.tokens.insert(token.session_text(), token.fired()),
    {
        proof {
            use_type_invariant(&*self);
            let pairs = token_pairs(self.tokens@);
            lemma_keyed_keys(pairs);
            lemma_keyed_push(pairs, token.session_id@, token.signalled);
            assert(token_pairs(self.tokens@.push(token)) =~= pairs.push(
                (token.session_id@, token.signalled),
            ));
        }
        let mut entries: Vec<CancellationToken> = Vec::new();
        proof {
            assert(token_pairs(entries@) =~= Seq::empty());
        }
        std::mem::swap(&mut self.tokens, &mut entries);
        entries.push(token);
        std::mem::swap(&mut self.tokens, &mut entries);
    }
}

/// What a new run takes from outside the library: an identifier for its
/// session and the readings of the clock.
#[derive(Debug)]
pub struct StartSeed {
    /// The identifier of the session.
    pub session_id: String,
    /// When the session was created.
    pub created_at: Timestamp,
    /// When the run began.
    pub started_at: Timestamp,
    /// When the run began, in the machine's time zone; the names of the
    /// documents carry it.
    pub captured_at: LocalTimestamp,
}

impl StartSeed {
    /// A random identifier and the clock's readings now.
    pub fn fresh() -> (seed: StartSeed)
        ensures
            seed.session_id@.len() == 36,
    {
        StartSeed {
            session_id: fresh_session_id(),
            created_at: Timestamp::now(),
            started_at: Timestamp::now(),
            captured_at: LocalTimestamp::now(),
        }
    }
}

/// The session of a run of `total` messages that has just begun.
pub open spec fn new_session(
    session_id: Seq<char>,
    config: ConfigModel,
    total: nat,
    created_at: Instant,
    started_at: Instant,
) -> SessionModel {
    SessionModel {
        session_id,
        config,
        progress: ProgressModel::fresh().started(total, started_at),
        generated_files: Seq::empty(),
        created_at,
    }
}

/// What a run that has been started is given on its way: the identifier of
/// its session, the layout engine, the size of a batch and the number of
/// messages that was counted.
#[derive(Debug)]
pub struct JobTicket {
    session_id: String,
    generator: PdfGenerator,
    batch_size: usize,
    total_emails: usize,
}

/// What a `JobTicket` stands for.
pub struct TicketModel {
    pub session_id: Seq<char>,
    pub generator: GeneratorModel,
    pub batch_size: nat,
    pub total_emails: nat,
}

impl View for JobTicket {
    type V = TicketModel;

    closed spec fn view(&self) -> TicketModel {
        TicketModel {
            session_id: self.session_id@,
            generator: self.generator@,
            batch_size: self.batch_size as nat,
            total_emails: self.total_emails as nat,
        }
    }
}

/// The ticket of the run that `start_accepted` lets begin.
pub open spec fn ticket_for(
    cfg: ConfigModel,
    facts: PreflightFacts,
    session_id: Seq<char>,
    captured_at: LocalInstant,
) -> TicketModel {
    TicketModel {
        session_id,
        generator: GeneratorModel {
            output_dir: facts.destination.resolved->Ok_0,
            base_name: cfg.base_file_name,
            session_timestamp: captured_at,
        },
        batch_size: cfg.emails_per_pdf as nat,
        total_emails: facts.source->Counted_0 as nat,
    }
}

/// The status while document number `sequence` of `count` is made.
pub open spec fn making_status(sequence: nat, count: nat) -> Seq<char> {
    "Erstelle PDF "@ + decimal(sequence) + " von "@ + decimal(count)
}

/// The status once document number `sequence` is made and more are to come.
pub open spec fn made_status(sequence: nat) -> Seq<char> {
    "PDF "@ + decimal(sequence) + " erstellt, verarbeite weiter..."@
}

/// The room on disk that a run of `total_emails` messages is taken to need
/// at `emails_per_pdf` to the document: ten mebibytes for every document.
pub fn estimate_required_space(total_emails: usize, emails_per_pdf: usize) -> (bytes: u64)
    ensures
        bytes == required_space(total_emails as nat, emails_per_pdf as nat),
{
    if emails_per_pdf == 0 {
        return 0;
    }
    let full: usize = total_emails / emails_per_pdf;
    let rest: usize = total_emails % emails_per_pdf;
    proof {
        lemma_batch_count_split(total_emails as nat, emails_per_pdf as nat);
        vstd::arithmetic::div_mod::lemma_fundamental_div_mod(
            total_emails as int,
            emails_per_pdf as int,
        );
        assert(rest > 0 ==> full < total_emails) by (nonlinear_arith)
            requires
                total_emails == emails_per_pdf * full + rest,
                emails_per_pdf >= 1,
                full >= 0,
        ;
    }
    let documents: u64 = if rest > 0 {
        (full + 1) as u64
    } else {
        full as u64
    };
    match documents.checked_mul(BYTES_PER_DOCUMENT) {
        Some(bytes) => bytes,
        None => u64::MAX,
    }
}

/// The number of documents that `total_emails` messages make at
/// `emails_per_pdf` to the document, as progress reports hold it.
pub fn calculate_total_pdfs(total_emails: usize, emails_per_pdf: usize) -> (count: u32)
    ensures
        count == as_sequence(batch_count(total_emails as nat, emails_per_pdf as nat)),
{
    if emails_per_pdf == 0 {
        return 0;
    }
    let full: usize = total_emails / emails_per_pdf;
    let rest: usize = total_emails % emails_per_pdf;
    proof {
        lemma_batch_count_split(total_emails as nat, emails_per_pdf as nat);
        vstd::arithmetic::div_mod::lemma_fundamental_div_mod(
            total_emails as int,
            emails_per_pdf as int,
        );
        assert(rest > 0 ==> full < total_emails) by (nonlinear_arith)
            requires
                total_emails == emails_per_pdf * full + rest,
                emails_per_pdf >= 1,
                full >= 0,
        ;
    }
    let count: usize = if rest > 0 {
        full + 1
    } else {
        full
    };
    if count > u32::MAX as usize {
        u32::MAX
    } else {
        count as u32
    }
}

/// Rounding up is one more than rounding down, unless the division leaves
/// nothing.
pub proof fn lemma_batch_count_split(total: nat, batch_size: nat)
    requires
        batch_size >= 1,
    ensures
        batch_count(total, batch_size) == if total % batch_size > 0 {
            total / batch_size + 1
        } else {
            total / batch_size
        },
{
    let b = batch_size as int;
    let n = total as int;
    let q = n / b;
    let r = n % b;
    vstd::arithmetic::div_mod::lemma_fundamental_div_mod(n, b);
    assert(n == b * q + r);
    if r > 0 {
        assert(n + b - 1 == b * (q + 1) + (r - 1)) by (nonlinear_arith)
            requires
                n == b * q + r,
        ;
        vstd::arithmetic::div_mod::lemma_fundamental_div_mod_converse(
            n + b - 1,
            b,
            q + 1,
            r - 1,
        );
    } else {
        assert(n + b - 1 == b * q + (b - 1));
        vstd::arithmetic::div_mod::lemma_fundamental_div_mod_converse(n + b - 1, b, q, b - 1);
    }
}

/// How a run is to be closed, as the orchestrator is told.
enum Closing {
    Completed,
    Failed(String),
    Cancelled,
}

impl View for Closing {
    type V = Ending;

    closed spec fn view(&self) -> Ending {
        match self {
            Closing::Completed => Ending::Completed,
            Closing::Failed(reason) => Ending::Failed(reason@),
            Closing::Cancelled => Ending::Cancelled,
        }
    }
}

impl Orchestrator {
    /// Takes a report from the run of the session: how many messages are
    /// processed, which document is being made, and what to tell the user. A
    /// session that is not in the table, or whose run is over, takes none.
    pub fn update_session_progress(
        &mut self,
        session_id: &str,
        processed_emails: usize,
        current_pdf: u32,
        status: String,
    )
        ensures
            final(self)@ == old(self)@.reported(
                session_id@,
                processed_emails as nat,
                current_pdf as nat,
                status@,
            ),
    {
        match self.take_session(session_id) {
            Some(session) => {
                let mut session = session;
                session.progress.update_progress(processed_emails, current_pdf, status);
                self.put_session(session);
                proof {
                    assert(self@.sessions =~= old(self)@.reported(
                        session_id@,
                        processed_emails as nat,
                        current_pdf as nat,
                        status@,
                    ).sessions);
                }
            },
            None => {
                proof {
                    assert(self@.sessions =~= old(self)@.sessions);
                }
            },
        }
    }

    /// Notes one more document for the session, where it is in the table.
    fn note_file(&mut self, session_id: &str, path: String)
        ensures
            final(self)@ == old(self)@.with_file(session_id@, path@),
    {
        match self.take_session(session_id) {
            Some(session) => {
                let mut session = session;
                session.add_generated_file(path);
                self.put_session(session);
                proof {
                    assert(self@.sessions =~= old(self)@.with_file(session_id@, path@).sessions);
                }
            },
            None => {
                proof {
                    assert(self@.sessions =~= old(self)@.sessions);
                }
            },
        }
    }

    /// Closes the run of the session: marks the session, clears the mark of
    /// the current session and discards the token of the session.
    fn end_job(&mut self, session_id: &str, closing: Closing, now: Timestamp)
        ensures
            final(self)@ == old(self)@.ended(session_id@, closing@, now@),
    {
        match self.take_session(session_id) {
            Some(session) => {
                let mut session = session;
                match closing {
                    Closing::Completed => session.progress.complete_at(now),
                    Closing::Failed(reason) => session.progress.fail_at(reason, now),
                    Closing::Cancelled => session.progress.cancel_at(now),
                }
                self.put_session(session);
            },
            None => {},
        }
        proof {
            use_type_invariant(&*self);
        }
        self.current = None;
        let _ = self.take_token(session_id);
        proof {
            assert(self@.sessions =~= old(self)@.ended(session_id@, closing@, now@).sessions);
        }
    }

    /// What a poller is told: the progress of the current session, and that
    /// of a run that has not begun where there is none.
    pub fn get_processing_progress(&self) -> (progress: ProcessingProgress)
        ensures
            progress@ == self@.progress(),
    {
        match &self.current {
            Some(id) => match self.session_index(id.as_str()) {
                Some(i) => self.sessions[i].progress.clone(),
                None => ProcessingProgress::new(),
            },
            None => ProcessingProgress::new(),
        }
    }

    /// The current session, if there is one and it is still in the table.
    pub fn get_processing_session(&self) -> (session: Option<ProcessingSession>)
        ensures
            match session {
                Some(s) => self@.current_session() == Some(s@),
                None => self@.current_session() is None,
            },
    {
        match &self.current {
            Some(id) => match self.session_index(id.as_str()) {
                Some(i) => Some(self.sessions[i].clone()),
                None => None,
            },
            None => None,
        }
    }

    /// The session of the identifier given, if it is in the table.
    pub fn get_session(&self, session_id: &str) -> (session: Option<ProcessingSession>)
        ensures
            match session {
                Some(s) => self@.sessions.contains_key(session_id@) && self@.sessions[session_id@]
                    == s@,
                None => !self@.sessions.contains_key(session_id@),
            },
    {
        match self.session_index(session_id) {
            Some(i) => Some(self.sessions[i].clone()),
            None => None,
        }
    }

    /// The identifier of the current session, if there is one.
    pub fn current_session_id(&self) -> (id: Option<String>)
        ensures
            id.deep_view() == self@.current,
    {
        match &self.current {
            Some(id) => Some(id.clone()),
            None => None,
        }
    }

    /// Whether the token of the session has been fired.
    pub fn is_cancellation_pending(&self, session_id: &str) -> (pending: bool)
        ensures
            pending == self@.signalled(session_id@),
    {
        match self.token_index(session_id) {
            Some(i) => self.tokens[i].signalled,
            None => false,
        }
    }

    /// Cancels the current run now.
    pub fn cancel_processing(&mut self) -> (r: Result<(), CancelError>)
        ensures
            match r {
                Ok(()) => old(self)@.current is Some && exists|now: Instant|
                    final(self)@ == #[trigger] old(self)@.cancelled(now),
                Err(e) => {
                    &&& e == CancelError::NoActiveJob
                    &&& old(self)@.current is None
                    &&& final(self)@ == old(self)@
                },
            },
    {
        let now = Timestamp::now();
        let r = self.cancel_processing_at(now);
        proof {
            if r is Ok {
                assert(self@ == old(self)@.cancelled(now@));
            }
        }
        r
    }

    /// Cancels the current run at `now`: fires its token, marks its session
    /// as cancelled and clears the mark of the current session, without
    /// waiting for the run to notice. Without a current run nothing changes.
    pub fn cancel_processing_at(&mut self, now: Timestamp) -> (r: Result<(), CancelError>)
        ensures
            final(self)@ == old(self)@.cancelled(now@),
            match r {
                Ok(()) => old(self)@.current is Some,
                Err(e) => e == CancelError::NoActiveJob && old(self)@.current is None,
            },
    {
        let id = match &self.current {
            Some(id) => id.clone(),
            None => {
                return Err(CancelError::NoActiveJob);
            },
        };
        match self.take_token(id.as_str()) {
            Some(_) => {
                let mut token = CancellationToken::new(id.clone());
                token.signal();
                self.put_token(token);
            },
            None => {},
        }
        match self.take_session(id.as_str()) {
            Some(session) => {
                let mut session = session;
                session.progress.cancel_at(now);
                self.put_session(session);
            },
            None => {},
        }
        proof {
            use_type_invariant(&*self);
        }
        self.current = None;
        proof {
            let expected = old(self)@.cancelled(now@);
            assert(self@.sessions =~= expected.sessions);
            assert(self@.tokens =~= expected.tokens);
        }
        Ok(())
    }

    /// Removes the session and what is left of its token. To remove what is
    /// not there changes nothing.
    pub fn cleanup_session(&mut self, session_id: &str)
        ensures
            final(self)@ == old(self)@.cleaned(session_id@),
    {
        let _ = self.take_session(session_id);
        let _ = self.take_token(session_id);
    }

    /// Whether a run may start, and with how many messages: the checks of
    /// `start_processing`, without any change.
    pub fn check_start(&self, config: &ProcessingConfig, preflight: &Preflight) -> (r: Result<
        usize,
        StartError,
    >)
        ensures
            match r {
                Ok(total) => start_accepted(self@, config@, preflight@)
                    && preflight@.source == SourceFacts::Counted(total),
                Err(e) => start_refusal(self@, config@, preflight@, e@),
            },
            parts_are_known(
                config@.output_directory,
                preflight@.destination.reserves_device_names,
            ) ==> (r is Ok <==> start_accepted(
                self@,
                config@,
                preflight@,
            )),
    {
        proof {
            if parts_are_known(
                config@.output_directory,
                preflight@.destination.reserves_device_names,
            ) {
                lemma_known_parts_decide(config@.output_directory, preflight@.destination);
            }
        }
        if self.current.is_some() {
            return Err(StartError::AlreadyRunning);
        }
        if let Err(e) = config.validate_fields() {
            return Err(StartError::ConfigInvalid(e));
        }
        if let Err(e) = DirectoryValidator::validate_directory_path(
            config.output_directory.as_str(),
            &preflight.destination,
        ) {
            return Err(StartError::DestinationInvalid(e));
        }
        let total: usize = match &preflight.source {
            SourceProbe::Unopened(e) => {
                return Err(StartError::SourceUnavailable(clone_pst_error(e)));
            },
            SourceProbe::Uncounted(e) => {
                return Err(StartError::CountFailed(clone_pst_error(e)));
            },
            SourceProbe::Counted(total) => *total,
        };
        if total == 0 {
            return Err(StartError::EmptySource);
        }
        let required: u64 = estimate_required_space(total, config.emails_per_pdf as usize);
        let available = match &preflight.available_space {
            Ok(free) => Ok(*free),
            Err(e) => Err(clone_file_system_error(e)),
        };
        if let Err(e) = DirectoryValidator::check_available_space(available, required) {
            return Err(StartError::InsufficientSpace(e));
        }
        Ok(total)
    }

    /// Starts a run: checks that none is current, the configuration, the
    /// destination, the archive and the room on disk, and then registers a
    /// new session as the current one, with a token of its own. The run
    /// itself goes on outside, with the ticket that is handed back.
    pub fn start_processing(
        &mut self,
        config: ProcessingConfig,
        preflight: Preflight,
    ) -> (r: Result<
        JobTicket,
        StartError,
    >)
        ensures
            match r {
                Ok(ticket) => {
                    &&& start_accepted(old(self)@, config@, preflight@)
                    &&& ticket@.session_id.len() == 36
                    &&& ticket@.batch_size == config@.emails_per_pdf
                    &&& ticket@.total_emails == preflight@.source->Counted_0
                    &&& preflight@.destination.resolved == Ok::<Seq<char>, IoFault>(
                        ticket@.generator.output_dir,
                    )
                    &&& ticket@.generator.base_name == config@.base_file_name
                    &&& exists|created_at: Instant, started_at: Instant|
                        final(self)@ == old(self)@.began(
                            #[trigger] new_session(
                                ticket@.session_id,
                                config@,
                                ticket@.total_emails,
                                created_at,
                                started_at,
                            ),
                        )
                },
                Err(e) => final(self)@ == old(self)@ && start_refusal(
                    old(self)@,
                    config@,
                    preflight@,
                    e@,
                ),
            },
            old(self)@.current is Some ==> (r matches Err(e) && e@ == StartFault::AlreadyRunning
                && final(self)@ == old(self)@),
            parts_are_known(
                config@.output_directory,
                preflight@.destination.reserves_device_names,
            ) ==> (r is Ok <==> start_accepted(
                old(self)@,
                config@,
                preflight@,
            )),
    {
        let seed = StartSeed::fresh();
        let ghost created_at = seed.created_at@;
        let ghost started_at = seed.started_at@;
        let r = self.start_processing_with(config, preflight, seed);
        proof {
            if r is Ok {
                let ticket = r->Ok_0;
                assert(self@ == old(self)@.began(
                    new_session(
                        ticket@.session_id,
                        config@,
                        ticket@.total_emails,
                        created_at,
                        started_at,
                    ),
                ));
            }
        }
        r
    }

    /// Starts a run with the identifier and the clock readings given.
    pub fn start_processing_with(
        &mut self,
        config: ProcessingConfig,
        preflight: Preflight,
        seed: StartSeed,
    ) -> (r: Result<JobTicket, StartError>)
        ensures
            match r {
                Ok(ticket) => {
                    &&& start_accepted(old(self)@, config@, preflight@)
                    &&& ticket@ == ticket_for(
                        config@,
                        preflight@,
                        seed.session_id@,
                        seed.captured_at@,
                    )
                    &&& final(self)@ == old(self)@.began(
                        new_session(
                            seed.session_id@,
                            config@,
                            ticket@.total_emails,
                            seed.created_at@,
                            seed.started_at@,
                        ),
                    )
                },
                Err(e) => final(self)@ == old(self)@ && start_refusal(
                    old(self)@,
                    config@,
                    preflight@,
                    e@,
                ),
            },
            parts_are_known(
                config@.output_directory,
                preflight@.destination.reserves_device_names,
            ) ==> (r is Ok <==> start_accepted(
                old(self)@,
                config@,
                preflight@,
            )),
    {
        let total = match self.check_start(&config, &preflight) {
            Ok(total) => total,
            Err(e) => {
                return Err(e);
            },
        };
        let output_dir = match &preflight.destination.resolved {
            Ok(resolved) => resolved.clone(),
            Err(_) => config.output_directory.clone(),
        };
        proof {
            lemma_accepted_destination(config@.output_directory, preflight@.destination);
        }
        let generator = match PdfGenerator::new_at(
            output_dir,
            config.base_file_name.clone(),
            &preflight.destination,
            seed.captured_at,
        ) {
            Ok(generator) => generator,
            Err(e) => {
                return Err(StartError::GeneratorUnavailable(e));
            },
        };
        let batch_size: usize = config.emails_per_pdf as usize;
        let mut session = ProcessingSession::new_with(
            config,
            seed.session_id.clone(),
            seed.created_at,
        );
        session.progress.start_at(total, seed.started_at);
        let _ = self.take_session(seed.session_id.as_str());
        self.put_session(session);
        let _ = self.take_token(seed.session_id.as_str());
        self.put_token(CancellationToken::new(seed.session_id.clone()));
        proof {
            use_type_invariant(&*self);
        }
        self.current = Some(seed.session_id.clone());
        proof {
            let expected = old(self)@.began(
                new_session(
                    seed.session_id@,
                    config@,
                    total as nat,
                    seed.created_at@,
                    seed.started_at@,
                ),
            );
            assert(self@.sessions =~= expected.sessions);
            assert(self@.tokens =~= expected.tokens);
        }
        Ok(JobTicket { session_id: seed.session_id, generator, batch_size, total_emails: total })
    }
}

fn clone_pst_error(e: &PstError) -> (copy: PstError)
    ensures
        copy@ == e@,
{
    match e {
        PstError::FileNotFound(s) => PstError::FileNotFound(s.clone()),
        PstError::InvalidFormat(s) => PstError::InvalidFormat(s.clone()),
        PstError::PermissionDenied(s) => PstError::PermissionDenied(s.clone()),
        PstError::CorruptedFile(s) => PstError::CorruptedFile(s.clone()),
        PstError::ExtractionFailed(s) => PstError::ExtractionFailed(s.clone()),
        PstError::ParsingError(s) => PstError::ParsingError(s.clone()),
        PstError::IoError(s) => PstError::IoError(s.clone()),
    }
}

fn clone_file_system_error(e: &FileSystemError) -> (copy: FileSystemError)
    ensures
        copy@ == e@,
{
    match e {
        FileSystemError::FileNotFound(s) => FileSystemError::FileNotFound(s.clone()),
        FileSystemError::DirectoryNotFound(s) => FileSystemError::DirectoryNotFound(s.clone()),
        FileSystemError::PermissionDenied(s) => FileSystemError::PermissionDenied(s.clone()),
        FileSystemError::PathExists(s) => FileSystemError::PathExists(s.clone()),
        FileSystemError::InvalidPath(s) => FileSystemError::InvalidPath(s.clone()),
        FileSystemError::IoError(s) => FileSystemError::IoError(s.clone()),
    }
}

/// Where a run stands, in the model: the messages it was given, how many of
/// them are processed and how many documents are made, whether a batch is out
/// for rendering, and how the run ended if it has.
pub struct JobModel {
    pub session_id: Seq<char>,
    pub records: Seq<EmailModel>,
    pub batch_size: nat,
    pub total_emails: nat,
    pub processed: nat,
    pub documents: nat,
    pub awaiting: bool,
    pub outcome: Option<JobOutcome>,
}

/// What the run is to do next.
pub enum JobActionModel {
    /// Lay out and write the batch as document number `sequence`.
    Render { batch: Seq<EmailModel>, sequence: nat },
    /// Nothing more: the run is over.
    Finished(JobOutcome),
}

/// One step of a run: the orchestrator and the run after it, and what the
/// run is to do next.
pub struct Step {
    pub state: OrchestratorModel,
    pub job: JobModel,
    pub action: JobActionModel,
}

impl JobModel {
    /// A run that has just been handed its messages.
    pub open spec fn begun(ticket: TicketModel, records: Seq<EmailModel>) -> JobModel {
        JobModel {
            session_id: ticket.session_id,
            records,
            batch_size: ticket.batch_size,
            total_emails: ticket.total_emails,
            processed: 0,
            documents: 0,
            awaiting: false,
            outcome: None,
        }
    }

    /// What always holds of a run: a batch has at least one message; the
    /// messages are processed in full batches, but for the last; a batch is
    /// only out while messages are left; and a run that completed has
    /// processed them all.
    pub open spec fn well_formed(self) -> bool {
        &&& self.batch_size >= 1
        &&& self.processed <= self.records.len()
        &&& self.documents == batch_count(self.processed, self.batch_size)
        &&& self.processed == self.records.len() || self.processed == self.documents
            * self.batch_size
        &&& self.awaiting ==> self.outcome is None && self.processed < self.records.len()
        &&& self.outcome == Some(JobOutcome::Completed) ==> self.processed == self.records.len()
    }

    /// The number of messages in the next batch.
    pub open spec fn next_len(self) -> nat {
        if self.records.len() - self.processed < self.batch_size {
            (self.records.len() - self.processed) as nat
        } else {
            self.batch_size
        }
    }

    /// The next batch: the messages that follow those processed.
    pub open spec fn next_batch(self) -> Seq<EmailModel> {
        self.records.subrange(self.processed as int, (self.processed + self.next_len()) as int)
    }

    /// The number of the next document.
    pub open spec fn sequence(self) -> nat {
        as_sequence(self.documents + 1)
    }

    /// The run once it has ended.
    pub open spec fn over(self, outcome: JobOutcome) -> JobModel {
        JobModel { awaiting: false, outcome: Some(outcome), ..self }
    }
}

/// The step of a run between two batches. A run that is over stays over.
/// While messages are left, a token that has been fired ends the run as
/// cancelled; else the progress is reported and the next batch handed out.
/// When no messages are left, the run ends as completed.
pub open spec fn dispatch(m: OrchestratorModel, job: JobModel, now: Instant) -> Step {
    if job.outcome is Some {
        Step { state: m, job, action: JobActionModel::Finished(job.outcome->0) }
    } else if job.processed < job.records.len() {
        if m.signalled(job.session_id) {
            Step {
                state: m.ended(job.session_id, Ending::Cancelled, now),
                job: job.over(JobOutcome::Cancelled),
                action: JobActionModel::Finished(JobOutcome::Cancelled),
            }
        } else {
            Step {
                state: m.reported(
                    job.session_id,
                    job.processed,
                    job.sequence(),
                    making_status(
                        job.sequence(),
                        as_sequence(batch_count(job.total_emails, job.batch_size)),
                    ),
                ),
                job: JobModel { awaiting: true, ..job },
                action: JobActionModel::Render {
                    batch: job.next_batch(),
                    sequence: job.sequence(),
                },
            }
        }
    } else {
        Step {
            state: m.ended(job.session_id, Ending::Completed, now),
            job: job.over(JobOutcome::Completed),
            action: JobActionModel::Finished(JobOutcome::Completed),
        }
    }
}

/// The run after the batch that was out has been written to `path`.
pub open spec fn job_after_batch(job: JobModel) -> JobModel {
    if job.awaiting {
        JobModel {
            processed: job.processed + job.next_len(),
            documents: job.documents + 1,
            awaiting: false,
            ..job
        }
    } else {
        job
    }
}

/// The orchestrator after the batch that was out has been written to
/// `path`: the document is noted for the session and the progress reported.
/// Where no batch was out, nothing changes.
pub open spec fn state_after_batch(
    m: OrchestratorModel,
    job: JobModel,
    path: Seq<char>,
) -> OrchestratorModel {
    if job.awaiting {
        let processed = job.processed + job.next_len();
        m.with_file(job.session_id, path).reported(
            job.session_id,
            processed,
            job.sequence(),
            if processed >= job.total_emails {
                "Verarbeitung abgeschlossen"@
            } else {
                made_status(job.sequence())
            },
        )
    } else {
        m
    }
}

/// The orchestrator after the run has failed at `now` for the reason given.
/// Where the run was over already, nothing changes.
pub open spec fn state_after_failure(
    m: OrchestratorModel,
    job: JobModel,
    reason: Seq<char>,
    now: Instant,
) -> OrchestratorModel {
    if job.outcome is Some {
        m
    } else {
        m.ended(job.session_id, Ending::Failed(reason), now)
    }
}

/// The run after it has failed.
pub open spec fn job_after_failure(job: JobModel) -> JobModel {
    if job.outcome is Some {
        job
    } else {
        job.over(JobOutcome::Failed)
    }
}

/// What the run is to do next.
#[derive(Debug)]
pub enum JobAction {
    /// Lay out and write the batch as document number `sequence`.
    Render { batch: Vec<Email>, sequence: u32 },
    /// Nothing more: the run is over.
    Finished(JobOutcome),
}

impl View for JobAction {
    type V = JobActionModel;

    open spec fn view(&self) -> JobActionModel {
        match self {
            JobAction::Render { batch, sequence } => JobActionModel::Render {
                batch: batch.deep_view(),
                sequence: *sequence as nat,
            },
            JobAction::Finished(outcome) => JobActionModel::Finished(*outcome),
        }
    }
}

#[derive(Clone, Copy, Debug)]
struct JobCounters {
    processed: usize,
    documents: usize,
}

/// One run: the messages it was given and how far it has got with them.
#[derive(Debug)]
pub struct BatchJob {
    session_id: String,
    emails: Vec<Email>,
    batch_size: usize,
    total_emails: usize,
    counters: JobCounters,
    awaiting: bool,
    outcome: Option<JobOutcome>,
}

impl View for BatchJob {
    type V = JobModel;

    closed spec fn view(&self) -> JobModel {
        JobModel {
            session_id: self.session_id@,
            records: self.emails.deep_view(),
            batch_size: self.batch_size as nat,
            total_emails: self.total_emails as nat,
            processed: self.counters.processed as nat,
            documents: self.counters.documents as nat,
            awaiting: self.awaiting,
            outcome: self.outcome,
        }
    }
}

/// The number of batches of no messages is nothing, and it takes one more
/// batch to get beyond `d` full ones.
pub proof fn lemma_batch_count_between(total: nat, batch_size: nat, d: nat)
    requires
        batch_size >= 1,
        d * batch_size < total <= (d + 1) * batch_size,
    ensures
        batch_count(total, batch_size) == d + 1,
        batch_count(0, batch_size) == 0,
        batch_count(d * batch_size, batch_size) == d,
{
    let b = batch_size as int;
    let n = total as int;
    assert(n + b - 1 == b * (d + 1) + (n - d * b - 1)) by (nonlinear_arith);
    assert(0 <= n - d * b - 1 < b) by (nonlinear_arith)
        requires
            d * b < n,
            n <= (d + 1) * b,
    ;
    vstd::arithmetic::div_mod::lemma_fundamental_div_mod_converse(
        n + b - 1,
        b,
        d as int + 1,
        n - d * b - 1,
    );
    vstd::arithmetic::div_mod::lemma_fundamental_div_mod_converse(b - 1, b, 0, b - 1);
    if d > 0 {
        assert(d * b + b - 1 == b * d + (b - 1)) by (nonlinear_arith);
        vstd::arithmetic::div_mod::lemma_fundamental_div_mod_converse(
            d * b + b - 1,
            b,
            d as int,
            b - 1,
        );
    } else {
        assert(d * b == 0);
    }
}

/// A step keeps what always holds of a run.
pub proof fn lemma_steps_keep_job_well_formed(m: OrchestratorModel, job: JobModel, now: Instant)
    requires
        job.well_formed(),
    ensures
        dispatch(m, job, now).job.well_formed(),
        job_after_batch(job).well_formed(),
        job_after_failure(job).well_formed(),
{
    if job.awaiting {
        let d = job.documents;
        let b = job.batch_size;
        let after = job_after_batch(job);
        assert(job.processed == d * b);
        assert((d + 1) * b == d * b + b) by (nonlinear_arith);
        lemma_batch_count_between(after.processed, b, d);
    }
}

impl JobTicket {
    #[verifier::type_invariant]
    spec fn batches_hold_messages(self) -> bool {
        self.batch_size >= 1
    }

    /// The identifier of the session of the run.
    pub fn session_id(&self) -> (id: &str)
        ensures
            id@ == self@.session_id,
    {
        self.session_id.as_str()
    }

    /// The layout engine of the run.
    pub fn generator(&self) -> (generator: &PdfGenerator)
        ensures
            generator@ == self@.generator,
    {
        &self.generator
    }

    /// The number of messages to a batch.
    pub fn batch_size(&self) -> (size: usize)
        ensures
            size == self@.batch_size,
            size >= 1,
    {
        proof {
            use_type_invariant(self);
        }
        self.batch_size
    }

    /// The number of messages that was counted when the run was started.
    pub fn total_emails(&self) -> (total: usize)
        ensures
            total == self@.total_emails,
    {
        self.total_emails
    }

    /// The run for the messages given, in the order given, and the layout
    /// engine that goes with it.
    pub fn into_job(self, emails: Vec<Email>) -> (started: (BatchJob, PdfGenerator))
        ensures
            started.0@ == JobModel::begun(self@, emails.deep_view()),
            started.0@.well_formed(),
            started.1@ == self@.generator,
    {
        proof {
            use_type_invariant(&self);
            lemma_batch_count_between(1, self.batch_size as nat, 0);
        }
        let job = BatchJob {
            session_id: self.session_id,
            emails,
            batch_size: self.batch_size,
            total_emails: self.total_emails,
            counters: JobCounters { processed: 0, documents: 0 },
            awaiting: false,
            outcome: None,
        };
        (job, self.generator)
    }
}

fn copy_range(emails: &Vec<Email>, start: usize, len: usize) -> (out: Vec<Email>)
    requires
        start + len <= emails.len(),
    ensures
        out.deep_view() == emails.deep_view().subrange(start as int, start + len),
{
    let mut out: Vec<Email> = Vec::new();
    let mut i: usize = 0;
    proof {
        assert(out.deep_view() =~= emails.deep_view().subrange(start as int, start as int));
    }
    while i < len
        invariant
            i <= len,
            start + len <= emails.len(),
            out.deep_view() == emails.deep_view().subrange(start as int, start + i),
        decreases len - i,
    {
        let ghost before = out.deep_view();
        let copy = emails[start + i].clone();
        out.push(copy);
        proof {
            assert(out.deep_view() =~= before.push(emails@[start + i]@));
            assert(emails.deep_view().subrange(start as int, start + i + 1)
                =~= emails.deep_view().subrange(start as int, start + i).push(
                emails@[start + i]@,
            ));
        }
        i += 1;
    }
    out
}

impl BatchJob {
    #[verifier::type_invariant]
    spec fn holds(self) -> bool {
        self@.well_formed()
    }

    /// The identifier of the session of the run.
    pub fn session_id(&self) -> (id: &str)
        ensures
            id@ == self@.session_id,
    {
        self.session_id.as_str()
    }

    /// How the run ended, if it has.
    pub fn outcome(&self) -> (outcome: Option<JobOutcome>)
        ensures
            outcome == self@.outcome,
            self@.well_formed(),
    {
        proof {
            use_type_invariant(self);
        }
        self.outcome
    }

    /// How many messages are processed.
    pub fn processed(&self) -> (n: usize)
        ensures
            n == self@.processed,
    {
        self.counters.processed
    }

    /// How many documents are made.
    pub fn documents(&self) -> (n: usize)
        ensures
            n == self@.documents,
    {
        self.counters.documents
    }

    /// How many messages the run was given.
    pub fn record_count(&self) -> (n: usize)
        ensures
            n == self@.records.len(),
    {
        self.emails.len()
    }

    fn next_sequence(&self) -> (sequence: u32)
        ensures
            sequence == self@.sequence(),
    {
        proof {
            use_type_invariant(self);
            if self.counters.documents > 0 {
                lemma_documents_at_most_processed(self@);
            }
        }
        if self.counters.documents >= u32::MAX as usize {
            u32::MAX
        } else {
            (self.counters.documents + 1) as u32
        }
    }
}

proof fn lemma_documents_at_most_processed(job: JobModel)
    requires
        job.well_formed(),
    ensures
        job.documents <= job.processed,
{
    lemma_batch_count_split(job.processed, job.batch_size);
    let b = job.batch_size as int;
    let n = job.processed as int;
    vstd::arithmetic::div_mod::lemma_fundamental_div_mod(n, b);
    assert(n / b <= n && (n % b > 0 ==> n / b < n)) by (nonlinear_arith)
        requires
            n == b * (n / b) + n % b,
            b >= 1,
            n >= 0,
            n / b >= 0,
            0 <= n % b,
    ;
}

impl Orchestrator {
    /// The step of a run between two batches, now.
    pub fn next_batch(&mut self, job: &mut BatchJob) -> (action: JobAction)
        ensures
            exists|now: Instant|
                (Step { state: final(self)@, job: final(job)@, action: action@ })
                    == #[trigger] dispatch(old(self)@, old(job)@, now),
    {
        let now = Timestamp::now();
        let action = self.next_batch_at(job, now);
        proof {
            assert((Step { state: self@, job: job@, action: action@ }) == dispatch(
                old(self)@,
                old(job)@,
                now@,
            ));
        }
        action
    }

    /// The step of a run between two batches, at `now`: it ends the run as
    /// cancelled where its token has been fired and messages are left, hands
    /// out the next batch where messages are left, and ends the run as
    /// completed where none are.
    pub fn next_batch_at(&mut self, job: &mut BatchJob, now: Timestamp) -> (action: JobAction)
        ensures
            (Step { state: final(self)@, job: final(job)@, action: action@ }) == dispatch(
                old(self)@,
                old(job)@,
                now@,
            ),
    {
        proof {
            use_type_invariant(&*job);
        }
        if let Some(outcome) = job.outcome {
            return JobAction::Finished(outcome);
        }
        if job.counters.processed < job.emails.len() {
            if self.is_cancellation_pending(job.session_id.as_str()) {
                self.end_job(job.session_id.as_str(), Closing::Cancelled, now);
                job.awaiting = false;
                job.outcome = Some(JobOutcome::Cancelled);
                return JobAction::Finished(JobOutcome::Cancelled);
            }
            let sequence = job.next_sequence();
            let count = calculate_total_pdfs(job.total_emails, job.batch_size);
            let mut status = String::from_str("Erstelle PDF ");
            push_decimal(&mut status, sequence as u64);
            status.append(" von ");
            push_decimal(&mut status, count as u64);
            self.update_session_progress(
                job.session_id.as_str(),
                job.counters.processed,
                sequence,
                status,
            );
            let left: usize = job.emails.len() - job.counters.processed;
            let len: usize = if left < job.batch_size {
                left
            } else {
                job.batch_size
            };
            let batch = copy_range(&job.emails, job.counters.processed, len);
            job.awaiting = true;
            JobAction::Render { batch, sequence }
        } else {
            self.end_job(job.session_id.as_str(), Closing::Completed, now);
            job.awaiting = false;
            job.outcome = Some(JobOutcome::Completed);
            JobAction::Finished(JobOutcome::Completed)
        }
    }

    /// Takes the result of the batch that was out: the document written to
    /// `path` is noted for the session, behind those noted before, and the
    /// progress is reported. Where no batch was out, nothing changes.
    pub fn batch_rendered(&mut self, job: &mut BatchJob, path: String)
        ensures
            final(self)@ == state_after_batch(old(self)@, old(job)@, path@),
            final(job)@ == job_after_batch(old(job)@),
    {
        proof {
            use_type_invariant(&*job);
            lemma_steps_keep_job_well_formed(self@, job@, arbitrary());
        }
        if !job.awaiting {
            return ;
        }
        let sequence = job.next_sequence();
        let left: usize = job.emails.len() - job.counters.processed;
        let len: usize = if left < job.batch_size {
            left
        } else {
            job.batch_size
        };
        let processed: usize = job.counters.processed + len;
        self.note_file(job.session_id.as_str(), path);
        let status = if processed >= job.total_emails {
            String::from_str("Verarbeitung abgeschlossen")
        } else {
            let mut status = String::from_str("PDF ");
            push_decimal(&mut status, sequence as u64);
            status.append(" erstellt, verarbeite weiter...");
            status
        };
        self.update_session_progress(job.session_id.as_str(), processed, sequence, status);
        proof {
            lemma_documents_at_most_processed(job@);
        }
        let documents: usize = job.counters.documents + 1;
        job.awaiting = false;
        job.counters = JobCounters { processed, documents };
    }

    /// Takes the failure of the batch that was out, now: the run ends as
    /// failed, with the message of the error as its reason.
    pub fn batch_failed(&mut self, job: &mut BatchJob, error: &PdfError)
        ensures
            exists|now: Instant|
                final(self)@ == #[trigger] state_after_failure(
                    old(self)@,
                    old(job)@,
                    AppFault::PdfError(error@.text()).text(),
                    now,
                ),
            final(job)@ == job_after_failure(old(job)@),
    {
        let now = Timestamp::now();
        let reason = AppError::PdfError(error.message()).message();
        self.job_failed_at(job, reason, now);
        proof {
            assert(self@ == state_after_failure(
                old(self)@,
                old(job)@,
                AppFault::PdfError(error@.text()).text(),
                now@,
            ));
        }
    }

    /// Takes the failure of the message source to hand out its messages,
    /// now: the run of the ticket's session ends as failed before it has
    /// begun, with the message of the error as its reason.
    pub fn source_failed(&mut self, ticket: &JobTicket, error: &PstError)
        ensures
            exists|now: Instant|
                final(self)@ == #[trigger] old(self)@.ended(
                    ticket@.session_id,
                    Ending::Failed(AppFault::PstError(error@.text()).text()),
                    now,
                ),
    {
        let now = Timestamp::now();
        self.source_failed_at(ticket, error, now);
        proof {
            assert(self@ == old(self)@.ended(
                ticket@.session_id,
                Ending::Failed(AppFault::PstError(error@.text()).text()),
                now@,
            ));
        }
    }

    /// Takes the failure of the message source to hand out its messages,
    /// at `now`.
    pub fn source_failed_at(&mut self, ticket: &JobTicket, error: &PstError, now: Timestamp)
        ensures
            final(self)@ == old(self)@.ended(
                ticket@.session_id,
                Ending::Failed(AppFault::PstError(error@.text()).text()),
                now@,
            ),
    {
        let reason = AppError::PstError(error.message()).message();
        self.end_job(ticket.session_id.as_str(), Closing::Failed(reason), now);
    }

    /// Ends the run as failed at `now`, for the reason given. A run that is
    /// over stays as it ended.
    pub fn job_failed_at(&mut self, job: &mut BatchJob, reason: String, now: Timestamp)
        ensures
            final(self)@ == state_after_failure(old(self)@, old(job)@, reason@, now@),
            final(job)@ == job_after_failure(old(job)@),
    {
        proof {
            use_type_invariant(&*job);
        }
        if job.outcome.is_some() {
            return ;
        }
        self.end_job(job.session_id.as_str(), Closing::Failed(reason), now);
        job.awaiting = false;
        job.outcome = Some(JobOutcome::Failed);
    }
}

/// The batches of a run: each holds at least one message and at most a
/// full batch; all but the last are full; and the last holds what the
/// division of the total by the batch size leaves, or a full batch where it
/// leaves nothing.
pub proof fn lemma_batch_plan(total: nat, batch_size: nat, k: nat)
    requires
        batch_size >= 1,
        k < batch_count(total, batch_size),
    ensures
        1 <= batch_len(total, batch_size, k) <= batch_size,
        k + 1 < batch_count(total, batch_size) ==> batch_len(total, batch_size, k) == batch_size,
        k + 1 == batch_count(total, batch_size) ==> batch_len(total, batch_size, k) == if total
            % batch_size == 0 {
            batch_size
        } else {
            total % batch_size
        },
{
    let b = batch_size as int;
    let n = total as int;
    let q = n / b;
    let r = n % b;
    lemma_batch_count_split(total, batch_size);
    vstd::arithmetic::div_mod::lemma_fundamental_div_mod(n, b);
    assert(n == b * q + r);
    if k < q {
        assert(k * b + b <= n) by (nonlinear_arith)
            requires
                k + 1 <= q,
                n == b * q + r,
                r >= 0,
                b >= 1,
        ;
        if k + 1 == batch_count(total, batch_size) {
            assert(r == 0);
            assert(k + 1 == q);
        }
    } else {
        assert(k == q && r > 0);
        assert(k * b == b * q) by (nonlinear_arith)
            requires
                k == q,
        ;
    }
}

/// While messages are left, the next batch of a run is the one that the
/// plan has in that place: it starts behind the full batches before it and
/// has the length that the plan gives it.
pub proof fn lemma_next_batch_is_planned(job: JobModel)
    requires
        job.well_formed(),
        job.processed < job.records.len(),
    ensures
        job.processed == job.documents * job.batch_size,
        job.documents < batch_count(job.records.len(), job.batch_size),
        job.next_len() == batch_len(job.records.len(), job.batch_size, job.documents),
        job.next_batch().len() == job.next_len(),
{
    let b = job.batch_size as int;
    let n = job.records.len() as int;
    let d = job.documents as int;
    lemma_batch_count_split(job.records.len(), job.batch_size);
    vstd::arithmetic::div_mod::lemma_fundamental_div_mod(n, b);
    let count = batch_count(job.records.len(), job.batch_size) as int;
    assert(count * b >= n) by (nonlinear_arith)
        requires
            n == b * (n / b) + n % b,
            0 <= n % b < b,
            count == if n % b > 0 {
                n / b + 1
            } else {
                n / b
            },
    ;
    assert(d < count) by (nonlinear_arith)
        requires
            d * b < n,
            count * b >= n,
            b >= 1,
    ;
}

/// A run that completed has made as many documents as its messages make
/// batches: their number divided by the batch size, rounded up.
pub proof fn lemma_completed_job_made_every_document(job: JobModel)
    requires
        job.well_formed(),
        job.outcome == Some(JobOutcome::Completed),
    ensures
        job.processed == job.records.len(),
        job.documents == batch_count(job.records.len(), job.batch_size),
{
}

/// Whether the progress of the run's session, while the session is in the
/// table and its run is not over, shows what the run has processed of the
/// total that the run was started with.
pub open spec fn follows(m: OrchestratorModel, job: JobModel) -> bool {
    m.sessions.contains_key(job.session_id) ==> {
        let p = m.sessions[job.session_id].progress;
        p.is_terminal() || (p.processed_emails == job.processed && p.total_emails
            == job.total_emails)
    }
}

/// The percentage that the session shows; nothing where it is not in the
/// table.
pub open spec fn shown_percent(m: OrchestratorModel, id: Seq<char>) -> nat {
    if m.sessions.contains_key(id) {
        m.sessions[id].progress.percent()
    } else {
        0
    }
}

/// No step of a run lets the percentage that its session shows fall, and
/// after every step the session still shows what the run has processed.
pub proof fn lemma_progress_never_falls(
    m: OrchestratorModel,
    job: JobModel,
    path: Seq<char>,
    reason: Seq<char>,
    now: Instant,
)
    requires
        job.well_formed(),
        follows(m, job),
    ensures
        follows(dispatch(m, job, now).state, dispatch(m, job, now).job),
        shown_percent(dispatch(m, job, now).state, job.session_id) >= shown_percent(
            m,
            job.session_id,
        ),
        follows(state_after_batch(m, job, path), job_after_batch(job)),
        shown_percent(state_after_batch(m, job, path), job.session_id) >= shown_percent(
            m,
            job.session_id,
        ),
        follows(state_after_failure(m, job, reason, now), job_after_failure(job)),
        shown_percent(state_after_failure(m, job, reason, now), job.session_id) >= shown_percent(
            m,
            job.session_id,
        ),
{
    let id = job.session_id;
    if m.sessions.contains_key(id) {
        let p = m.sessions[id].progress;
        if job.awaiting && !p.is_terminal() {
            crate::types::lemma_percent_monotone(
                job.processed,
                job.processed + job.next_len(),
                job.total_emails,
            );
        }
    }
}

/// The step that ends a run as completed leaves its session at 100 percent,
/// where the session has followed the run, the run has processed as many
/// messages as were counted at its start, and there was at least one.
pub proof fn lemma_completed_run_shows_all(m: OrchestratorModel, job: JobModel, now: Instant)
    requires
        job.well_formed(),
        follows(m, job),
        m.sessions.contains_key(job.session_id),
        m.sessions[job.session_id].progress.well_formed(),
        m.sessions[job.session_id].progress.state() == ProgressState::Running,
        job.outcome is None,
        job.processed == job.records.len(),
        job.records.len() == job.total_emails,
        job.total_emails > 0,
    ensures
        dispatch(m, job, now).action == JobActionModel::Finished(JobOutcome::Completed),
        dispatch(m, job, now).state.sessions[job.session_id].progress.state()
            == ProgressState::Completed,
        shown_percent(dispatch(m, job, now).state, job.session_id) == 100,
{
    crate::types::lemma_percent_bounds(job.total_emails, job.total_emails);
}

/// A request to cancel marks the session of the current run as cancelled at
/// once and leaves its documents as they are; the run, when it next comes
/// between two batches with messages left, ends as cancelled without another
/// batch, and the session keeps its documents and its state.
pub proof fn lemma_cancel_stops_the_run(
    m: OrchestratorModel,
    job: JobModel,
    cancelled_at: Instant,
    noticed_at: Instant,
)
    requires
        m.current == Some(job.session_id),
        m.tokens.contains_key(job.session_id),
        m.sessions.contains_key(job.session_id),
        m.sessions[job.session_id].progress.well_formed(),
        m.sessions[job.session_id].progress.state() == ProgressState::Running,
        job.well_formed(),
        job.outcome is None,
        job.processed < job.records.len(),
    ensures
        m.cancelled(cancelled_at).current is None,
        m.cancelled(cancelled_at).sessions[job.session_id].progress.state()
            == ProgressState::Cancelled,
        m.cancelled(cancelled_at).sessions[job.session_id].generated_files
            == m.sessions[job.session_id].generated_files,
        dispatch(m.cancelled(cancelled_at), job, noticed_at).action == JobActionModel::Finished(
            JobOutcome::Cancelled,
        ),
        dispatch(m.cancelled(cancelled_at), job, noticed_at).job.documents == job.documents,
        dispatch(m.cancelled(cancelled_at), job, noticed_at).state.sessions[job.session_id]
            == m.cancelled(cancelled_at).sessions[job.session_id],
{
    let id = job.session_id;
    let c = m.cancelled(cancelled_at);
    assert(c.sessions.contains_key(id));
    assert(c.signalled(id));
    let d = dispatch(c, job, noticed_at);
    assert(d.state == c.ended(id, Ending::Cancelled, noticed_at));
    assert(c.sessions[id].progress.is_terminal());
}

/// While a run is current, another is refused as already running, whatever
/// its configuration and whatever was found out before it.
pub proof fn lemma_start_refused_while_running(
    m: OrchestratorModel,
    cfg: ConfigModel,
    facts: PreflightFacts,
    fault: StartFault,
)
    requires
        m.current is Some,
    ensures
        !start_accepted(m, cfg, facts),
        start_refusal(m, cfg, facts, fault) <==> fault == StartFault::AlreadyRunning,
{
}

/// The room on disk that a directory must have to be chosen for the
/// documents: a hundred mebibytes.
pub const SPACE_FOR_SELECTION: u64 = 100 * 1024 * 1024;

/// When the file was last changed, as the check of an archive file notes
/// it: its date where it has one that chrono can hold, and `now` else.
pub open spec fn modified_or_now(stats: FileStats, now: Instant) -> Instant {
    match stats.modified_secs {
        Some(secs) => if representable(signed_seconds(secs), 0) {
            Instant { secs: signed_seconds(secs), nanos: 0 }
        } else {
            now
        },
        None => now,
    }
}

/// Why a file does not even look like an archive, if it does not: it is not
/// there, is no file, is not called `.pst`, cannot be looked at, is empty or
/// is shorter than a header.
pub open spec fn file_complaint(extension: Option<Seq<char>>, facts: PstFileFacts) -> Option<
    Seq<char>,
> {
    if !facts.exists {
        Some("PST-Datei nicht gefunden"@)
    } else if !facts.is_file {
        Some("Pfad ist keine Datei"@)
    } else if extension is None {
        Some("Datei hat keine Erweiterung - PST-Datei erwartet"@)
    } else if lowercase_text(extension->0) != "pst"@ {
        Some("Datei muss eine PST-Datei sein (.pst)"@)
    } else {
        match facts.stats {
            Err(fault) => if fault.kind == IoFailureKind::PermissionDenied {
                Some("Keine Berechtigung zum Zugriff auf die Datei"@)
            } else {
                Some("Fehler beim Lesen der Datei-Informationen: "@ + fault.detail)
            },
            Ok(stats) => if stats.size == 0 {
                Some("PST-Datei ist leer"@)
            } else if stats.size < 512 {
                Some("Datei ist zu klein für eine gültige PST-Datei"@)
            } else {
                None
            },
        }
    }
}

/// What the check of an archive file comes to, given the extension that the
/// platform finds in its path: the file is valid with the number of its
/// messages, its size and its date, or it is not, for the first reason that
/// was met.
pub open spec fn file_verdict(
    path: Seq<char>,
    extension: Option<Seq<char>>,
    facts: PstFileFacts,
    now: Instant,
) -> PstInfoModel {
    let unknown = PstInfoModel::unknown(path);
    match file_complaint(extension, facts) {
        Some(complaint) => unknown.marked_invalid(seq![complaint]),
        None => match open_verdict(path, facts) {
            Err(fault) => unknown.marked_invalid(
                seq!["Fehler beim Öffnen der PST-Datei: "@ + fault.text()],
            ),
            Ok((format, count)) => {
                let source = SourceModel {
                    file_path: path,
                    cached: Map::empty(),
                    total_emails: count,
                    format,
                };
                match source.validation(facts, now) {
                    Err(fault) => unknown.marked_invalid(
                        seq!["PST-Validierung fehlgeschlagen: "@ + fault.text()],
                    ),
                    Ok(info) => if info.is_valid {
                        unknown.marked_valid(
                            info.email_count,
                            facts.stats->Ok_0.size as nat,
                            modified_or_now(facts.stats->Ok_0, now),
                        )
                    } else {
                        unknown.marked_invalid(info.validation_errors)
                    },
                }
            },
        },
    }
}

fn one_error(message: String) -> (errors: Vec<String>)
    ensures
        errors.deep_view() == seq![message@],
{
    let ghost text = message@;
    let mut errors: Vec<String> = Vec::new();
    errors.push(message);
    proof {
        assert(errors.deep_view() =~= seq![text]);
    }
    errors
}

fn file_complaint_of(extension: Option<&str>, file: &PstFileProbe) -> (complaint: Option<String>)
    ensures
        complaint.deep_view() == file_complaint(extension.deep_view(), file@),
{
    if !file.exists {
        return Some(String::from_str("PST-Datei nicht gefunden"));
    }
    if !file.is_file {
        return Some(String::from_str("Pfad ist keine Datei"));
    }
    match extension {
        None => {
            return Some(String::from_str("Datei hat keine Erweiterung - PST-Datei erwartet"));
        },
        Some(ext) => {
            if !PstProcessor::is_supported_extension(ext) {
                return Some(String::from_str("Datei muss eine PST-Datei sein (.pst)"));
            }
        },
    }
    match &file.stats {
        Err(failure) => match failure.kind {
            IoFailureKind::PermissionDenied => Some(
                String::from_str("Keine Berechtigung zum Zugriff auf die Datei"),
            ),
            _ => Some(
                String::from_str("Fehler beim Lesen der Datei-Informationen: ").concat(
                    failure.detail.as_str(),
                ),
            ),
        },
        Ok(stats) => {
            if stats.size == 0 {
                Some(String::from_str("PST-Datei ist leer"))
            } else if stats.size < 512 {
                Some(String::from_str("Datei ist zu klein für eine gültige PST-Datei"))
            } else {
                None
            }
        },
    }
}

fn modified_or(stats: &FileStats, now: Timestamp) -> (t: Timestamp)
    ensures
        t@ == modified_or_now(*stats, now@),
{
    match stats.modified_secs {
        Some(secs) => {
            let signed: i64 = if secs > i64::MAX as u64 {
                -((u64::MAX - secs) as i64) - 1
            } else {
                secs as i64
            };
            match Timestamp::new(signed, 0) {
                Some(t) => t,
                None => now,
            }
        },
        None => now,
    }
}

/// Checks a file that is to serve as the archive, now: what is known of it
/// then. The extension is the one that the platform's path rules find in the
/// path: for a plain name, the text behind its last dot.
pub fn validate_pst_file(file_path: String, file: &PstFileProbe) -> (info: PstInfo)
    ensures
        exists|extension: Option<Seq<char>>, now: Instant|
            extension_found(file_path@, extension) && info@ == #[trigger] file_verdict(
                file_path@,
                extension,
                file@,
                now,
            ),
        is_plain_name(file_path@) && file_path@ != seq!['.', '.'] ==> exists|now: Instant|
            info@ == #[trigger] file_verdict(
                file_path@,
                plain_extension(file_path@),
                file@,
                now,
            ),
        info@.is_valid ==> exists|extension: Seq<char>| #[trigger]
            stands_behind_dot(file_path@, extension) && lowercase_text(extension) == "pst"@,
        file@.exists && file@.is_file && !file_path@.contains('.') ==> info@
            == PstInfoModel::unknown(file_path@).marked_invalid(
            seq!["Datei hat keine Erweiterung - PST-Datei erwartet"@],
        ),
{
    let now = Timestamp::now();
    let ghost path = file_path@;
    let extension_text: Option<String> = match path_extension(file_path.as_str()) {
        Some(e) => Some(String::from_str(e)),
        None => None,
    };
    let ghost found = extension_text.deep_view();
    let info = match &extension_text {
        Some(e) => validate_pst_file_with(file_path, Some(e.as_str()), file, now),
        None => validate_pst_file_with(file_path, None, file, now),
    };
    proof {
        assert(extension_found(path, found) && info@ == file_verdict(path, found, file@, now@));
        if info@.is_valid {
            assert(stands_behind_dot(path, found->0));
        }
    }
    info
}

/// Checks a file that is to serve as the archive, given the extension that
/// the platform finds in its path, when the clock shows `now`.
pub fn validate_pst_file_with(
    file_path: String,
    extension: Option<&str>,
    file: &PstFileProbe,
    now: Timestamp,
) -> (info: PstInfo)
    ensures
        info@ == file_verdict(file_path@, extension.deep_view(), file@, now@),
{
    let mut info = PstInfo::new(file_path.clone());
    if let Some(complaint) = file_complaint_of(extension, file) {
        info.mark_invalid(one_error(complaint));
        return info;
    }
    let stats = match &file.stats {
        Ok(stats) => *stats,
        Err(_) => {
            return info;
        },
    };
    match PstProcessor::new(file_path, file) {
        Err(e) => {
            let message = String::from_str("Fehler beim Öffnen der PST-Datei: ").concat(
                e.message().as_str(),
            );
            info.mark_invalid(one_error(message));
        },
        Ok(source) => match source.validate_at(file, now) {
            Err(e) => {
                let message = String::from_str("PST-Validierung fehlgeschlagen: ").concat(
                    e.message().as_str(),
                );
                info.mark_invalid(one_error(message));
            },
            Ok(validated) => {
                if validated.is_valid {
                    info.mark_valid(validated.email_count, stats.size, modified_or(&stats, now));
                } else {
                    info.mark_invalid(validated.validation_errors);
                }
            },
        },
    }
    info
}

/// What is known of a directory that can take the documents.
#[derive(Debug)]
pub struct DirectoryInfo {
    pub path: String,
    pub is_writable: bool,
    pub available_space_bytes: u64,
    pub available_space_mb: u64,
    pub last_modified: Option<Timestamp>,
}

/// What a `DirectoryInfo` stands for.
pub struct DirectoryInfoModel {
    pub path: Seq<char>,
    pub is_writable: bool,
    pub available_space_bytes: u64,
    pub available_space_mb: u64,
    pub last_modified: Option<Instant>,
}

impl View for DirectoryInfo {
    type V = DirectoryInfoModel;

    open spec fn view(&self) -> DirectoryInfoModel {
        DirectoryInfoModel {
            path: self.path@,
            is_writable: self.is_writable,
            available_space_bytes: self.available_space_bytes,
            available_space_mb: self.available_space_mb,
            last_modified: match self.last_modified {
                Some(t) => Some(t@),
                None => None,
            },
        }
    }
}

/// When the directory was last changed, where that is known and chrono can
/// hold it.
pub open spec fn directory_modified(stats: FileStats) -> Option<Instant> {
    match stats.modified_secs {
        Some(secs) => if representable(signed_seconds(secs), 0) {
            Some(Instant { secs: signed_seconds(secs), nanos: 0 })
        } else {
            None
        },
        None => None,
    }
}

/// Says whether the directory can take the documents: `true`, or the
/// message of what is wrong with it.
pub fn validate_directory(directory_path: &str, probe: &DirectoryProbe) -> (r: Result<
    bool,
    String,
>)
    ensures
        match r {
            Ok(b) => b && destination_accepted(directory_path@, probe@),
            Err(message) => exists|fault: ValidationFault|
                destination_refusal(directory_path@, probe@, fault) && message@
                    == #[trigger] fault.text(),
        },
        parts_are_known(directory_path@, probe@.reserves_device_names) ==> (r is Ok
            <==> destination_accepted(directory_path@, probe@)),
{
    proof {
        if parts_are_known(directory_path@, probe@.reserves_device_names) {
            lemma_known_parts_decide(directory_path@, probe@);
        }
    }
    match DirectoryValidator::validate_directory_path(directory_path, probe) {
        Ok(_) => Ok(true),
        Err(e) => {
            let message = e.message();
            proof {
                assert(destination_refusal(directory_path@, probe@, e@) && message@
                    == e@.text());
            }
            Err(message)
        },
    }
}

/// Judges the directory that the user picked for the documents: nothing
/// where none was picked; the directory, in its canonical form, where it can
/// take the documents and
/// has a hundred mebibytes free; else the message of what is wrong.
pub fn select_directory(
    picked: Option<String>,
    probe: &DirectoryProbe,
    available: Result<u64, FileSystemError>,
) -> (r: Result<Option<String>, String>)
    ensures
        picked is None ==> r == Ok::<Option<String>, String>(None),
        picked matches Some(path) ==> match r {
            Ok(chosen) => {
                &&& chosen matches Some(p)
                &&& probe@.resolved == Ok::<Seq<char>, IoFault>(p@)
                &&& destination_accepted(path@, probe@)
                &&& available matches Ok(free)
                &&& free >= SPACE_FOR_SELECTION
            },
            Err(message) => {
                ||| exists|fault: ValidationFault|
                    destination_refusal(path@, probe@, fault) && message@
                        == #[trigger] fault.text()
                ||| {
                    &&& destination_accepted(path@, probe@)
                    &&& match available {
                        Ok(free) => space_fault(free as nat, SPACE_FOR_SELECTION as nat)
                            matches Some(fault) && message@ == "Speicherplatz-Warnung: "@
                            + fault.text(),
                        Err(cause) => message@ == "Speicherplatz-Warnung: "@ + cause@.text(),
                    }
                }
            },
        },
{
    let path = match picked {
        Some(path) => path,
        None => {
            return Ok(None);
        },
    };
    let validated = match DirectoryValidator::validate_directory_path(path.as_str(), probe) {
        Ok(validated) => validated,
        Err(e) => {
            let message = e.message();
            proof {
                assert(destination_refusal(path@, probe@, e@) && message@ == e@.text());
            }
            return Err(message);
        },
    };
    if let Err(e) = DirectoryValidator::check_available_space(available, SPACE_FOR_SELECTION) {
        return Err(String::from_str("Speicherplatz-Warnung: ").concat(e.message().as_str()));
    }
    Ok(Some(validated))
}

/// Gathers what is known of a directory that can take the documents: its
/// path in canonical form, the room that is free in it (nothing where that could not be found
/// out), and when it was last changed.
pub fn get_directory_info(
    directory_path: &str,
    probe: &DirectoryProbe,
    stats: &Result<FileStats, IoFailure>,
    available: &Result<u64, FileSystemError>,
) -> (r: Result<DirectoryInfo, String>)
    ensures
        match r {
            Ok(info) => {
                &&& destination_accepted(directory_path@, probe@)
                &&& *stats matches Ok(s)
                &&& probe@.resolved matches Ok(resolved)
                &&& info@ == (DirectoryInfoModel {
                    path: resolved,
                    is_writable: true,
                    available_space_bytes: match *available {
                        Ok(free) => free,
                        Err(_) => 0,
                    },
                    available_space_mb: match *available {
                        Ok(free) => free / 1024 / 1024,
                        Err(_) => 0,
                    },
                    last_modified: directory_modified(s),
                })
            },
            Err(message) => {
                ||| exists|fault: ValidationFault|
                    destination_refusal(directory_path@, probe@, fault) && message@
                        == #[trigger] fault.text()
                ||| {
                    &&& destination_accepted(directory_path@, probe@)
                    &&& *stats matches Err(failure)
                    &&& message@ == "Fehler beim Lesen der Verzeichnis-Informationen: "@
                        + failure@.detail
                }
            },
        },
{
    let validated = match DirectoryValidator::validate_directory_path(directory_path, probe) {
        Ok(validated) => validated,
        Err(e) => {
            let message = e.message();
            proof {
                assert(destination_refusal(directory_path@, probe@, e@) && message@
                    == e@.text());
            }
            return Err(message);
        },
    };
    let stats = match stats {
        Ok(stats) => stats,
        Err(failure) => {
            return Err(
                String::from_str("Fehler beim Lesen der Verzeichnis-Informationen: ").concat(
                    failure.detail.as_str(),
                ),
            );
        },
    };
    let free: u64 = match available {
        Ok(free) => *free,
        Err(_) => 0,
    };
    let last_modified = match stats.modified_secs {
        Some(secs) => {
            let signed: i64 = if secs > i64::MAX as u64 {
                -((u64::MAX - secs) as i64) - 1
            } else {
                secs as i64
            };
            Timestamp::new(signed, 0)
        },
        None => None,
    };
    Ok(
        DirectoryInfo {
            path: validated,
            is_writable: true,
            available_space_bytes: free,
            available_space_mb: free / 1024 / 1024,
            last_modified,
        },
    )
}

/// Whether the session of the run, while it is in the table, holds as many
/// documents as the run has made.
pub open spec fn accounted(m: OrchestratorModel, job: JobModel) -> bool {
    m.sessions.contains_key(job.session_id) ==> m.sessions[job.session_id].generated_files.len()
        == job.documents
}

/// A run that has just been started is accounted for and followed: its
/// session holds no documents and shows nothing processed of the total, and
/// the run has made no documents and processed nothing.
pub proof fn lemma_new_run_is_accounted(
    m: OrchestratorModel,
    config: ConfigModel,
    ticket: TicketModel,
    records: Seq<EmailModel>,
    created_at: Instant,
    started_at: Instant,
)
    ensures
        accounted(
            m.began(
                new_session(
                    ticket.session_id,
                    config,
                    ticket.total_emails,
                    created_at,
                    started_at,
                ),
            ),
            JobModel::begun(ticket, records),
        ),
        follows(
            m.began(
                new_session(
                    ticket.session_id,
                    config,
                    ticket.total_emails,
                    created_at,
                    started_at,
                ),
            ),
            JobModel::begun(ticket, records),
        ),
{
}

/// Every step of a run keeps its session accounted for: a batch that is
/// written adds one document to the session and one to the run's count, and
/// no other step adds or removes any.
pub proof fn lemma_steps_keep_account(
    m: OrchestratorModel,
    job: JobModel,
    path: Seq<char>,
    reason: Seq<char>,
    now: Instant,
)
    requires
        accounted(m, job),
    ensures
        accounted(dispatch(m, job, now).state, dispatch(m, job, now).job),
        accounted(state_after_batch(m, job, path), job_after_batch(job)),
        accounted(state_after_failure(m, job, reason, now), job_after_failure(job)),
        job.awaiting && m.sessions.contains_key(job.session_id) ==> {
            let after = state_after_batch(m, job, path).sessions[job.session_id];
            after.generated_files == m.sessions[job.session_id].generated_files.push(path)
        },
{
}

/// When a run has completed, its session holds as many documents as the
/// messages of the run make batches: their number divided by the batch size,
/// rounded up.
pub proof fn lemma_completed_run_left_every_document(m: OrchestratorModel, job: JobModel)
    requires
        job.well_formed(),
        accounted(m, job),
        m.sessions.contains_key(job.session_id),
        job.outcome == Some(JobOutcome::Completed),
    ensures
        m.sessions[job.session_id].generated_files.len() == batch_count(
            job.records.len(),
            job.batch_size,
        ),
{
}

/// The progress of a session whose run is over is left as it ended by
/// every operation but its removal and a new start under its identifier:
/// by a request to cancel, by reports, by documents that are noted, and by
/// the end of a run.
pub proof fn lemma_finished_sessions_stay_as_they_ended(
    m: OrchestratorModel,
    id: Seq<char>,
    other: Seq<char>,
    processed: nat,
    current_pdf: nat,
    status: Seq<char>,
    path: Seq<char>,
    ending: Ending,
    now: Instant,
)
    requires
        m.sessions.contains_key(id),
        m.sessions[id].progress.is_terminal(),
    ensures
        m.cancelled(now).sessions[id].progress == m.sessions[id].progress,
        m.reported(other, processed, current_pdf, status).sessions[id].progress
            == m.sessions[id].progress,
        m.with_file(other, path).sessions[id].progress == m.sessions[id].progress,
        m.ended(other, ending, now).sessions[id].progress == m.sessions[id].progress,
        other != id ==> m.cleaned(other).sessions[id] == m.sessions[id],
{
}

/// To remove a session a second time changes nothing, and after a request to
/// cancel no run is current, so that a second request finds none.
pub proof fn lemma_cleanup_and_cancel_once(m: OrchestratorModel, id: Seq<char>, now: Instant)
    ensures
        m.cleaned(id).cleaned(id) == m.cleaned(id),
        !m.cleaned(id).sessions.contains_key(id),
        !m.cleaned(id).tokens.contains_key(id),
        m.cancelled(now).current is None,
        m.cancelled(now).cancelled(now) == m.cancelled(now),
{
    assert(m.cleaned(id).cleaned(id).sessions =~= m.cleaned(id).sessions);
    assert(m.cleaned(id).cleaned(id).tokens =~= m.cleaned(id).tokens);
}

} // verus!
