//! The preflight checks on the directory that the documents go to. The
//! library decides; what the file system says about the directory is handed
//! to it as plain values.

use vstd::prelude::*;
use vstd::string::*;
use crate::errors::{
    FileSystemError, FileSystemFault, IoFailure, IoFailureKind, IoFault, ValidationError,
    ValidationFault,
};
use crate::text::{
    contains_char, decimal, is_plain_name, measure, push_decimal, same_text, uppercase_text,
    utf8_len,
};

verus! {

/// The longest path that is accepted, in bytes.
pub const MAX_PATH_BYTES: usize = 250;

/// What the platform and its file system say about a path.
#[derive(Debug)]
pub struct DirectoryProbe {
    /// Whether the platform keeps device names such as `CON` to itself.
    pub reserves_device_names: bool,
    /// Whether anything exists at the path.
    pub exists: bool,
    /// Whether what exists there is a directory, or why that could not be
    /// found out.
    pub is_directory: Result<bool, IoFailure>,
    /// How the attempt went to write a file into the directory.
    pub write_test: Result<(), IoFailure>,
    /// The canonical, absolute form of the path, or why the path could not
    /// be resolved.
    pub resolved: Result<String, IoFailure>,
}

/// What a `DirectoryProbe` stands for.
pub struct DirectoryFacts {
    pub reserves_device_names: bool,
    pub exists: bool,
    pub is_directory: Result<bool, IoFault>,
    pub write_test: Result<(), IoFault>,
    pub resolved: Result<Seq<char>, IoFault>,
}

impl View for DirectoryProbe {
    type V = DirectoryFacts;

    open spec fn view(&self) -> DirectoryFacts {
        DirectoryFacts {
            reserves_device_names: self.reserves_device_names,
            exists: self.exists,
            is_directory: match self.is_directory {
                Ok(b) => Ok(b),
                Err(e) => Err(e@),
            },
            write_test: match self.write_test {
                Ok(()) => Ok(()),
                Err(e) => Err(e@),
            },
            resolved: match self.resolved {
                Ok(p) => Ok(p@),
                Err(e) => Err(e@),
            },
        }
    }
}

/// The free room on a volume, as the operating system counts it.
#[derive(Clone, Copy, Debug, PartialEq, Eq)]
pub struct VolumeStats {
    pub available_blocks: u64,
    pub block_size: u64,
}

/// Whether `path` is a name that is its own and only part on every platform:
/// a plain name that is not empty and not one of the two names `.` and `..`.
pub open spec fn is_single_part(path: Seq<char>) -> bool {
    path.len() > 0 && is_plain_name(path) && path != seq!['.'] && path != seq!['.', '.']
}

/// Whether `parts` can be the parts that the platform's path rules find in
/// `path`: a name that is its own and only part has no others.
pub open spec fn parts_found(path: Seq<char>, parts: Seq<Seq<char>>) -> bool {
    is_single_part(path) ==> parts == seq![path]
}

/// Whether the parts of `path` that count are known without asking the
/// platform: none count where no names are reserved, and a single part is
/// itself.
pub open spec fn parts_are_known(path: Seq<char>, reserves_device_names: bool) -> bool {
    !reserves_device_names || is_single_part(path)
}

/// `Path::components` of std: the parts that the platform's rules find in a
/// path, each as text. A plain name, other than `.` and `..`, is its own and
/// only part on every platform; of other paths nothing is said.
#[verifier::external_body]
fn path_components(path: &str) -> (parts: Vec<String>)
    ensures
        parts_found(path@, parts.deep_view()),
{
    let mut parts: Vec<String> = Vec::new();
    for part in std::path::Path::new(path).components() {
        parts.push(part.as_os_str().to_string_lossy().into_owned());
    }
    parts
}

/// The message for a failed file operation.
pub open spec fn io_fault_text(fault: IoFault) -> Seq<char> {
    match fault.kind {
        IoFailureKind::NotFound => "Datei oder Verzeichnis nicht gefunden"@,
        IoFailureKind::PermissionDenied => "Zugriff verweigert"@,
        IoFailureKind::AlreadyExists => "Datei oder Verzeichnis existiert bereits"@,
        IoFailureKind::InvalidInput => "Ungültige Eingabe"@,
        IoFailureKind::InvalidData => "Ungültige Daten"@,
        IoFailureKind::TimedOut => "Zeitüberschreitung"@,
        IoFailureKind::WriteZero => "Schreibvorgang fehlgeschlagen"@,
        IoFailureKind::Interrupted => "Vorgang unterbrochen"@,
        IoFailureKind::UnexpectedEof => "Unerwartetes Dateiende"@,
        IoFailureKind::OutOfMemory => "Nicht genügend Arbeitsspeicher"@,
        IoFailureKind::Other => "Unbekannter Fehler: "@ + fault.detail,
    }
}

/// Whether `name`, in upper case, is a device name that Windows reserves.
pub open spec fn is_reserved_name(name: Seq<char>) -> bool {
    name == "CON"@ || name == "PRN"@ || name == "AUX"@ || name == "NUL"@ || name == "COM1"@
        || name == "COM2"@ || name == "COM3"@ || name == "COM4"@ || name == "COM5"@ || name
        == "COM6"@ || name == "COM7"@ || name == "COM8"@ || name == "COM9"@ || name == "LPT1"@
        || name == "LPT2"@ || name == "LPT3"@ || name == "LPT4"@ || name == "LPT5"@ || name
        == "LPT6"@ || name == "LPT7"@ || name == "LPT8"@ || name == "LPT9"@
}

/// The first of the parts that is a reserved name whatever its case, if
/// there is one.
pub open spec fn first_reserved(parts: Seq<Seq<char>>) -> Option<Seq<char>>
    decreases parts.len(),
{
    if parts.len() == 0 {
        None
    } else if is_reserved_name(uppercase_text(parts[0])) {
        Some(parts[0])
    } else {
        first_reserved(parts.drop_first())
    }
}

/// What is wrong with the path as a text, whatever is on disk: a NUL in it,
/// or more than 250 bytes.
pub open spec fn text_fault(path: Seq<char>) -> Option<ValidationFault> {
    if path.contains('\0') {
        Some(ValidationFault::InvalidDirectory("Pfad enthält ungültige Zeichen (Null-Byte)"@))
    } else if utf8_len(path) > MAX_PATH_BYTES {
        Some(ValidationFault::InvalidDirectory("Pfad ist zu lang (maximal 250 Zeichen)"@))
    } else {
        None
    }
}

/// What is wrong with the parts of a path on a platform that reserves device
/// names.
pub open spec fn reserved_fault(parts: Seq<Seq<char>>) -> Option<ValidationFault> {
    match first_reserved(parts) {
        Some(name) => Some(
            ValidationFault::InvalidDirectory("Pfad enthält reservierten Namen: "@ + name),
        ),
        None => None,
    }
}

/// What is wrong with what exists at the path: nothing there, no way to look
/// at it, or no directory.
pub open spec fn existence_fault(
    path: Seq<char>,
    exists: bool,
    is_directory: Result<bool, IoFault>,
) -> Option<
    ValidationFault,
> {
    if !exists {
        Some(ValidationFault::InvalidDirectory("Verzeichnis existiert nicht: "@ + path))
    } else {
        match is_directory {
            Err(fault) => Some(
                ValidationFault::InvalidDirectory(
                    "Fehler beim Zugriff auf Verzeichnis "@ + path + ": "@ + io_fault_text(fault),
                ),
            ),
            Ok(false) => Some(
                ValidationFault::InvalidDirectory("Pfad ist kein Verzeichnis: "@ + path),
            ),
            Ok(true) => None,
        }
    }
}

/// What is wrong when the directory could not be written to.
pub open spec fn write_fault(path: Seq<char>, write_test: Result<(), IoFault>) -> Option<
    ValidationFault,
> {
    match write_test {
        Err(fault) => Some(
            ValidationFault::InvalidDirectory(
                "Keine Schreibberechtigung für Verzeichnis "@ + path + ": "@ + io_fault_text(
                    fault,
                ),
            ),
        ),
        Ok(()) => None,
    }
}

/// What is wrong when the path could not be resolved to its canonical form.
pub open spec fn resolve_fault(path: Seq<char>, resolved: Result<Seq<char>, IoFault>) -> Option<
    ValidationFault,
> {
    match resolved {
        Err(fault) => Some(
            ValidationFault::InvalidDirectory(
                "Fehler beim Auflösen des Pfads "@ + path + ": "@ + io_fault_text(fault),
            ),
        ),
        Ok(_) => None,
    }
}

/// What is wrong with the directory once its path has passed as a text: the
/// first of what exists there, whether it can be written to, and whether its
/// path can be resolved.
pub open spec fn disk_fault(path: Seq<char>, facts: DirectoryFacts) -> Option<ValidationFault> {
    match existence_fault(path, facts.exists, facts.is_directory) {
        Some(fault) => Some(fault),
        None => match write_fault(path, facts.write_test) {
            Some(fault) => Some(fault),
            None => resolve_fault(path, facts.resolved),
        },
    }
}

/// What is wrong with the path as a text, given the parts that the
/// platform's path rules find in it: a fault of the text itself, or, where
/// the platform reserves device names, one of them among the parts.
pub open spec fn format_fault(
    path: Seq<char>,
    parts: Seq<Seq<char>>,
    reserves_device_names: bool,
) -> Option<ValidationFault> {
    if text_fault(path) is Some {
        text_fault(path)
    } else if reserves_device_names {
        reserved_fault(parts)
    } else {
        None
    }
}

/// What is wrong with the directory, given the parts that the platform's
/// path rules find in its path: the first of no path at all, a fault of the
/// path as a text, and a fault on disk.
pub open spec fn directory_fault(
    path: Seq<char>,
    parts: Seq<Seq<char>>,
    facts: DirectoryFacts,
) -> Option<ValidationFault> {
    if path.len() == 0 {
        Some(ValidationFault::RequiredFieldMissing("directory_path"@))
    } else if format_fault(path, parts, facts.reserves_device_names) is Some {
        format_fault(path, parts, facts.reserves_device_names)
    } else {
        disk_fault(path, facts)
    }
}

/// Whether nothing is wrong with the directory, with parts that the
/// platform's path rules can find in its path.
pub open spec fn destination_accepted(path: Seq<char>, facts: DirectoryFacts) -> bool {
    exists|parts: Seq<Seq<char>>|
        parts_found(path, parts) && #[trigger] directory_fault(path, parts, facts) is None
}

/// Whether `fault` is what is reported of the directory, with parts that the
/// platform's path rules can find in its path.
pub open spec fn destination_refusal(
    path: Seq<char>,
    facts: DirectoryFacts,
    fault: ValidationFault,
) -> bool {
    exists|parts: Seq<Seq<char>>|
        parts_found(path, parts) && #[trigger] directory_fault(path, parts, facts) == Some(fault)
}

/// A directory that is accepted has a path that is not empty and passes as a
/// text, exists, can be written to and has a canonical form.
pub proof fn lemma_accepted_destination(path: Seq<char>, facts: DirectoryFacts)
    requires
        destination_accepted(path, facts),
    ensures
        path.len() > 0,
        text_fault(path) is None,
        facts.exists,
        facts.is_directory == Ok::<bool, IoFault>(true),
        facts.write_test is Ok,
        facts.resolved is Ok,
{
}

/// Where the parts that count are known, the checks decide: the directory
/// is accepted exactly where nothing is wrong with it, and what is reported of
/// it is the first thing that is wrong.
pub proof fn lemma_known_parts_decide(path: Seq<char>, facts: DirectoryFacts)
    requires
        parts_are_known(path, facts.reserves_device_names),
    ensures
        destination_accepted(path, facts) <==> directory_fault(path, seq![path], facts) is None,
        forall|fault: ValidationFault|
            destination_refusal(path, facts, fault) <==> directory_fault(
                path,
                seq![path],
                facts,
            ) == Some(fault),
{
    let own = seq![path];
    assert(parts_found(path, own));
    assert forall|parts: Seq<Seq<char>>| parts_found(path, parts) implies (
    #[trigger] directory_fault(path, parts, facts)) == directory_fault(path, own, facts) by {
    }
    if directory_fault(path, own, facts) is None {
        assert(destination_accepted(path, facts));
    }
    assert forall|fault: ValidationFault| directory_fault(path, own, facts) == Some(
        fault,
    ) implies destination_refusal(path, facts, fault) by {
        assert(parts_found(path, own) && directory_fault(path, own, facts) == Some(fault));
    }
}

/// The room that is free on a volume, in bytes; the largest number where the
/// true one is beyond it.
pub open spec fn free_bytes(stats: VolumeStats) -> nat {
    if stats.available_blocks * stats.block_size > u64::MAX {
        u64::MAX as nat
    } else {
        (stats.available_blocks * stats.block_size) as nat
    }
}

/// What is wrong when `required` bytes are asked of `available`.
pub open spec fn space_fault(available: nat, required: nat) -> Option<FileSystemFault> {
    if available < required {
        Some(
            FileSystemFault::IoError(
                "Nicht genügend Speicherplatz verfügbar. Benötigt: "@ + decimal(
                    required / 1024 / 1024,
                ) + " MB, Verfügbar: "@ + decimal(available / 1024 / 1024) + " MB"@,
            ),
        )
    } else {
        None
    }
}

fn is_reserved(upper: &str) -> (b: bool)
    ensures
        b == is_reserved_name(upper@),
{
    same_text(upper, "CON") || same_text(upper, "PRN") || same_text(upper, "AUX") || same_text(
        upper,
        "NUL",
    ) || same_text(upper, "COM1") || same_text(upper, "COM2") || same_text(upper, "COM3")
        || same_text(upper, "COM4") || same_text(upper, "COM5") || same_text(upper, "COM6")
        || same_text(upper, "COM7") || same_text(upper, "COM8") || same_text(upper, "COM9")
        || same_text(upper, "LPT1") || same_text(upper, "LPT2") || same_text(upper, "LPT3")
        || same_text(upper, "LPT4") || same_text(upper, "LPT5") || same_text(upper, "LPT6")
        || same_text(upper, "LPT7") || same_text(upper, "LPT8") || same_text(upper, "LPT9")
}

fn invalid_directory(message: String) -> (e: ValidationError)
    ensures
        e@ == ValidationFault::InvalidDirectory(message@),
{
    ValidationError::InvalidDirectory(message)
}

/// The unit type on which the checks of a destination directory hang.
pub struct DirectoryValidator;

impl DirectoryValidator {
    /// Checks the path as a text, then what exists there, whether it can be
    /// written to and whether it can be resolved, and hands back its
    /// canonical form where all is well. The parts of the path are those that
    /// the platform's path rules find.
    pub fn validate_directory_path(path: &str, probe: &DirectoryProbe) -> (r: Result<
        String,
        ValidationError,
    >)
        ensures
            match r {
                Ok(p) => probe@.resolved == Ok::<Seq<char>, IoFault>(p@) && destination_accepted(
                    path@,
                    probe@,
                ),
                Err(e) => destination_refusal(path@, probe@, e@),
            },
            parts_are_known(path@, probe@.reserves_device_names) ==> match r {
                Ok(_) => directory_fault(path@, seq![path@], probe@) is None,
                Err(e) => directory_fault(path@, seq![path@], probe@) == Some(e@),
            },
    {
        let parts = if probe.reserves_device_names {
            path_components(path)
        } else {
            Vec::new()
        };
        let r = Self::validate_directory_parts(path, &parts, probe);
        proof {
            let found = if probe.reserves_device_names {
                parts.deep_view()
            } else {
                seq![path@]
            };
            assert(parts_found(path@, found));
            assert(directory_fault(path@, found, probe@) == directory_fault(
                path@,
                parts.deep_view(),
                probe@,
            ));
            if parts_are_known(path@, probe@.reserves_device_names) {
                lemma_known_parts_decide(path@, probe@);
            }
        }
        r
    }

    /// Checks the directory, given the parts of its path: the first fault
    /// is the one that is reported, and where there is none, the canonical
    /// form of the path is handed back.
    pub fn validate_directory_parts(path: &str, parts: &Vec<String>, probe: &DirectoryProbe) -> (r:
        Result<String, ValidationError>)
        ensures
            match r {
                Ok(p) => probe@.resolved == Ok::<Seq<char>, IoFault>(p@) && directory_fault(
                    path@,
                    parts.deep_view(),
                    probe@,
                ) is None,
                Err(e) => directory_fault(path@, parts.deep_view(), probe@) == Some(e@),
            },
    {
        if path.is_empty() {
            return Err(ValidationError::RequiredFieldMissing(String::from_str("directory_path")));
        }
        if let Err(e) = Self::validate_format_parts(path, parts, probe.reserves_device_names) {
            return Err(e);
        }
        if let Err(e) = Self::validate_directory_exists(path, probe.exists, &probe.is_directory) {
            return Err(e);
        }
        if let Err(e) = Self::validate_write_permissions(path, &probe.write_test) {
            return Err(e);
        }
        Self::validate_resolution(path, &probe.resolved)
    }

    /// Reads the outcome of resolving the path to its canonical, absolute
    /// form, and hands that form back.
    pub fn validate_resolution(path: &str, resolved: &Result<String, IoFailure>) -> (r: Result<
        String,
        ValidationError,
    >)
        ensures
            match (*resolved, r) {
                (Ok(absolute), Ok(p)) => p@ == absolute@,
                (Err(failure), Err(e)) => resolve_fault(path@, Err(failure@)) == Some(e@),
                _ => false,
            },
    {
        match resolved {
            Ok(absolute) => Ok(absolute.clone()),
            Err(failure) => {
                let reason = Self::translate_io_error(failure);
                Err(
                    invalid_directory(
                        String::from_str("Fehler beim Auflösen des Pfads ").concat(path).concat(
                            ": ",
                        ).concat(reason.as_str()),
                    ),
                )
            },
        }
    }

    /// Checks the path as a text: no NUL in it, at most 250 bytes, and,
    /// where the platform reserves device names, none of them among the
    /// parts that the platform's path rules find in it.
    pub fn validate_path_format(path: &str, reserves_device_names: bool) -> (r: Result<
        (),
        ValidationError,
    >)
        ensures
            match r {
                Ok(()) => exists|parts: Seq<Seq<char>>|
                    parts_found(path@, parts) && #[trigger] format_fault(
                        path@,
                        parts,
                        reserves_device_names,
                    ) is None,
                Err(e) => exists|parts: Seq<Seq<char>>|
                    parts_found(path@, parts) && #[trigger] format_fault(
                        path@,
                        parts,
                        reserves_device_names,
                    ) == Some(e@),
            },
            text_fault(path@) is Some ==> r is Err,
            parts_are_known(path@, reserves_device_names) ==> match r {
                Ok(()) => format_fault(path@, seq![path@], reserves_device_names) is None,
                Err(e) => format_fault(path@, seq![path@], reserves_device_names) == Some(e@),
            },
    {
        let parts = if reserves_device_names {
            path_components(path)
        } else {
            Vec::new()
        };
        let r = Self::validate_format_parts(path, &parts, reserves_device_names);
        proof {
            let found = if reserves_device_names {
                parts.deep_view()
            } else {
                seq![path@]
            };
            assert(parts_found(path@, found));
            assert(format_fault(path@, found, reserves_device_names) == format_fault(
                path@,
                parts.deep_view(),
                reserves_device_names,
            ));
        }
        r
    }

    /// Checks the path as a text, given its parts.
    pub fn validate_format_parts(
        path: &str,
        parts: &Vec<String>,
        reserves_device_names: bool,
    ) -> (r: Result<(), ValidationError>)
        ensures
            match r {
                Ok(()) => format_fault(path@, parts.deep_view(), reserves_device_names) is None,
                Err(e) => format_fault(path@, parts.deep_view(), reserves_device_names) == Some(
                    e@,
                ),
            },
    {
        if let Err(e) = Self::check_path_text(path) {
            return Err(e);
        }
        if reserves_device_names {
            if let Err(e) = Self::check_reserved_names(parts) {
                return Err(e);
            }
        }
        Ok(())
    }

    /// Checks that the path holds no NUL and takes at most 250 bytes.
    pub fn check_path_text(path: &str) -> (r: Result<(), ValidationError>)
        ensures
            match r {
                Ok(()) => text_fault(path@) is None,
                Err(e) => text_fault(path@) == Some(e@),
            },
    {
        if contains_char(path, '\0') {
            return Err(
                invalid_directory(String::from_str("Pfad enthält ungültige Zeichen (Null-Byte)")),
            );
        }
        if measure(path, MAX_PATH_BYTES).is_none() {
            return Err(
                invalid_directory(String::from_str("Pfad ist zu lang (maximal 250 Zeichen)")),
            );
        }
        Ok(())
    }

    /// Checks that none of the parts of a path is a device name that the
    /// platform reserves, in whatever case it is written.
    pub fn check_reserved_names(parts: &Vec<String>) -> (r: Result<(), ValidationError>)
        ensures
            match r {
                Ok(()) => reserved_fault(parts.deep_view()) is None,
                Err(e) => reserved_fault(parts.deep_view()) == Some(e@),
            },
    {
        let mut i: usize = 0;
        proof {
            assert(parts.deep_view().skip(0) =~= parts.deep_view());
        }
        while i < parts.len()
            invariant
                i <= parts.len(),
                first_reserved(parts.deep_view()) == first_reserved(
                    parts.deep_view().skip(i as int),
                ),
            decreases parts.len() - i,
        {
            let upper = parts[i].as_str().to_uppercase();
            proof {
                let rest = parts.deep_view().skip(i as int);
                assert(rest[0] == parts@[i as int]@);
                assert(rest.drop_first() =~= parts.deep_view().skip(i + 1));
            }
            if is_reserved(upper.as_str()) {
                return Err(
                    invalid_directory(
                        String::from_str("Pfad enthält reservierten Namen: ").concat(
                            parts[i].as_str(),
                        ),
                    ),
                );
            }
            i += 1;
        }
        Ok(())
    }

    /// Checks that something exists at the path and that it is a directory.
    pub fn validate_directory_exists(
        path: &str,
        exists: bool,
        is_directory: &Result<bool, IoFailure>,
    ) -> (r: Result<(), ValidationError>)
        ensures
            match r {
                Ok(()) => existence_fault(
                    path@,
                    exists,
                    match *is_directory {
                        Ok(b) => Ok(b),
                        Err(e) => Err(e@),
                    },
                ) is None,
                Err(e) => existence_fault(
                    path@,
                    exists,
                    match *is_directory {
                        Ok(b) => Ok(b),
                        Err(e) => Err(e@),
                    },
                ) == Some(e@),
            },
    {
        if !exists {
            return Err(
                invalid_directory(String::from_str("Verzeichnis existiert nicht: ").concat(path)),
            );
        }
        match is_directory {
            Err(failure) => {
                let reason = Self::translate_io_error(failure);
                Err(
                    invalid_directory(
                        String::from_str("Fehler beim Zugriff auf Verzeichnis ").concat(
                            path,
                        ).concat(": ").concat(reason.as_str()),
                    ),
                )
            },
            Ok(false) => Err(
                invalid_directory(String::from_str("Pfad ist kein Verzeichnis: ").concat(path)),
            ),
            Ok(true) => Ok(()),
        }
    }

    /// Reads the outcome of the attempt to write into the directory.
    pub fn validate_write_permissions(path: &str, write_test: &Result<(), IoFailure>) -> (r: Result<
        (),
        ValidationError,
    >)
        ensures
            match r {
                Ok(()) => write_fault(
                    path@,
                    match *write_test {
                        Ok(()) => Ok(()),
                        Err(e) => Err(e@),
                    },
                ) is None,
                Err(e) => write_fault(
                    path@,
                    match *write_test {
                        Ok(()) => Ok(()),
                        Err(e) => Err(e@),
                    },
                ) == Some(e@),
            },
    {
        match write_test {
            Ok(()) => Ok(()),
            Err(failure) => {
                let reason = Self::translate_io_error(failure);
                Err(
                    invalid_directory(
                        String::from_str("Keine Schreibberechtigung für Verzeichnis ").concat(
                            path,
                        ).concat(": ").concat(reason.as_str()),
                    ),
                )
            },
        }
    }

    /// Reads the outcome of resolving the path to its canonical, absolute
    /// form.
    pub fn sanitize_directory_path(path: &str, resolved: Result<String, IoFailure>) -> (r: Result<
        String,
        FileSystemError,
    >)
        ensures
            match (resolved, r) {
                (Ok(absolute), Ok(out)) => out@ == absolute@,
                (Err(failure), Err(e)) => e@ == FileSystemFault::InvalidPath(
                    "Fehler beim Auflösen des Pfads "@ + path@ + ": "@ + io_fault_text(failure@),
                ),
                _ => false,
            },
    {
        match resolved {
            Ok(absolute) => Ok(absolute),
            Err(failure) => {
                let reason = Self::translate_io_error(&failure);
                let e = FileSystemError::InvalidPath(
                    String::from_str("Fehler beim Auflösen des Pfads ").concat(path).concat(
                        ": ",
                    ).concat(reason.as_str()),
                );
                Err(e)
            },
        }
    }

    /// Holds the free room of the volume against what is required.
    pub fn check_available_space(
        available: Result<u64, FileSystemError>,
        required_bytes: u64,
    ) -> (r:
        Result<(), FileSystemError>)
        ensures
            match (available, r) {
                (Ok(free), Ok(())) => free >= required_bytes,
                (Ok(free), Err(e)) => space_fault(free as nat, required_bytes as nat) == Some(e@),
                (Err(cause), Err(e)) => e@ == cause@,
                (Err(_), Ok(())) => false,
            },
    {
        match available {
            Err(cause) => Err(cause),
            Ok(free) => {
                if free < required_bytes {
                    let mut message = String::from_str(
                        "Nicht genügend Speicherplatz verfügbar. Benötigt: ",
                    );
                    push_decimal(&mut message, required_bytes / 1024 / 1024);
                    message.append(" MB, Verfügbar: ");
                    push_decimal(&mut message, free / 1024 / 1024);
                    message.append(" MB");
                    let e = FileSystemError::IoError(message);
                    Err(e)
                } else {
                    Ok(())
                }
            },
        }
    }

    /// The free room of the volume that holds `path`, from what the
    /// operating system reported: `None` where its query failed.
    pub fn get_available_space(path: &str, volume: Option<VolumeStats>) -> (r: Result<
        u64,
        FileSystemError,
    >)
        ensures
            match r {
                Ok(free) => {
                    &&& !path@.contains('\0')
                    &&& volume matches Some(stats)
                    &&& free == free_bytes(stats)
                },
                Err(e) => if path@.contains('\0') {
                    e@ == FileSystemFault::InvalidPath("Pfad enthält ungültige Zeichen"@)
                } else {
                    volume is None && e@ == FileSystemFault::IoError(
                        "Fehler beim Abrufen des verfügbaren Speicherplatzes"@,
                    )
                },
            },
    {
        if contains_char(path, '\0') {
            let e = FileSystemError::InvalidPath(
                String::from_str("Pfad enthält ungültige Zeichen"),
            );
            return Err(e);
        }
        match volume {
            Some(stats) => {
                match stats.available_blocks.checked_mul(stats.block_size) {
                    Some(free) => Ok(free),
                    None => Ok(u64::MAX),
                }
            },
            None => {
                let e = FileSystemError::IoError(
                    String::from_str("Fehler beim Abrufen des verfügbaren Speicherplatzes"),
                );
                Err(e)
            },
        }
    }

    /// Reads what was found at the path and, where nothing was, how making
    /// the directory went.
    pub fn ensure_directory_exists(
        path: &str,
        exists: bool,
        is_directory: bool,
        creation: &Result<(), IoFailure>,
    ) -> (r: Result<(), FileSystemError>)
        ensures
            match r {
                Ok(()) => if exists {
                    is_directory
                } else {
                    *creation is Ok
                },
                Err(e) => if exists {
                    !is_directory && e@ == FileSystemFault::InvalidPath(
                        "Pfad existiert bereits, ist aber kein Verzeichnis: "@ + path@,
                    )
                } else {
                    &&& *creation matches Err(failure)
                    &&& e@ == FileSystemFault::IoError(
                        "Fehler beim Erstellen des Verzeichnisses "@ + path@ + ": "@
                            + io_fault_text(failure@),
                    )
                },
            },
    {
        if exists {
            if !is_directory {
                let e = FileSystemError::InvalidPath(
                    String::from_str("Pfad existiert bereits, ist aber kein Verzeichnis: ").concat(
                        path,
                    ),
                );
                return Err(e);
            }
            return Ok(());
        }
        match creation {
            Ok(()) => Ok(()),
            Err(failure) => {
                let reason = Self::translate_io_error(failure);
                let e = FileSystemError::IoError(
                    String::from_str("Fehler beim Erstellen des Verzeichnisses ").concat(
                        path,
                    ).concat(": ").concat(reason.as_str()),
                );
                Err(e)
            },
        }
    }

    /// The message for a failed file operation.
    pub fn translate_io_error(failure: &IoFailure) -> (out: String)
        ensures
            out@ == io_fault_text(failure@),
    {
        match failure.kind {
            IoFailureKind::NotFound => String::from_str("Datei oder Verzeichnis nicht gefunden"),
            IoFailureKind::PermissionDenied => String::from_str("Zugriff verweigert"),
            IoFailureKind::AlreadyExists => String::from_str(
                "Datei oder Verzeichnis existiert bereits",
            ),
            IoFailureKind::InvalidInput => String::from_str("Ungültige Eingabe"),
            IoFailureKind::InvalidData => String::from_str("Ungültige Daten"),
            IoFailureKind::TimedOut => String::from_str("Zeitüberschreitung"),
            IoFailureKind::WriteZero => String::from_str("Schreibvorgang fehlgeschlagen"),
            IoFailureKind::Interrupted => String::from_str("Vorgang unterbrochen"),
            IoFailureKind::UnexpectedEof => String::from_str("Unerwartetes Dateiende"),
            IoFailureKind::OutOfMemory => String::from_str("Nicht genügend Arbeitsspeicher"),
            IoFailureKind::Other => String::from_str("Unbekannter Fehler: ").concat(
                failure.detail.as_str(),
            ),
        }
    }
}

} // verus!
