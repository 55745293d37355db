//! Validation of the local directory that a managed agent runs from.

use vstd::prelude::*;
use vstd::utf8::encode_utf8;

use crate::encoding::shown_text;
use crate::outcome::{held, optional_outcome, outcome, verdict};
use crate::path::{absolute, joined_path, FsPath};

verus! {

/// What a path names, a link not being followed.
#[derive(Debug, Clone, Copy, PartialEq, Eq, Structural)]
pub enum FileKind {
    File,
    Directory,
    Symlink,
    Other,
}

/// What was found at a path that an agent is to run from.
#[derive(Debug)]
pub enum DirectoryProbe {
    /// Nothing could be inspected at the path.
    Missing,
    /// Something is there.
    Found {
        /// What the path itself names.
        kind: FileKind,
        /// What the path resolved to, or why it did not resolve.
        resolved: Result<Resolution, String>,
    },
}

/// What a path resolved to.
#[derive(Debug)]
pub struct Resolution {
    pub canonical: FsPath,
    /// What the canonical path names, or why it could not be inspected.
    pub kind: Result<FileKind, String>,
}

/// The canonical directory for a selected path, or why the path is refused.
pub open spec fn directory_outcome(path: Option<Seq<u8>>, probe: DirectoryProbe) -> Result<
    Option<Seq<u8>>,
    Seq<char>,
> {
    match path {
        None => Ok(None),
        Some(path) => if !absolute(path) {
            Err("working directory must be an absolute path"@)
        } else {
            match probe {
                DirectoryProbe::Missing => Err(
                    "working directory does not exist: "@ + shown_text(path),
                ),
                DirectoryProbe::Found { kind, resolved } => if kind is Symlink {
                    Err("working directory must not be a symlink"@)
                } else if !(kind is Directory) {
                    Err("working directory must be a directory"@)
                } else {
                    match resolved {
                        Err(error) => Err(
                            "failed to canonicalize working directory: "@ + error@,
                        ),
                        Ok(target) => match target.kind {
                            Err(error) => Err("failed to inspect working directory: "@ + error@),
                            Ok(kind) => if kind is Directory {
                                Ok(Some(target.canonical@))
                            } else {
                                Err("working directory must resolve to a real directory"@)
                            },
                        },
                    }
                },
            }
        },
    }
}

/// Validates a selected directory and answers with its canonical path.
///
/// The selected path and the canonical one must both be real directories. To reject a link keeps the
/// selected local authority visible; to keep the canonical path prevents two spellings of one
/// directory from becoming two FirstMate homes.
pub fn validate_working_directory(path: Option<FsPath>, probe: &DirectoryProbe) -> (r: Result<
    Option<FsPath>,
    String,
>)
    ensures
        optional_outcome(r) == directory_outcome(held(path), *probe),
{
    let path = match path {
        None => {
            return Ok(None);
        },
        Some(path) => path,
    };
    if !path.is_absolute() {
        return Err("working directory must be an absolute path".to_owned());
    }
    match probe {
        DirectoryProbe::Missing => Err(
            "working directory does not exist: ".to_owned().concat(path.display().as_str()),
        ),
        DirectoryProbe::Found { kind, resolved } => {
            if *kind == FileKind::Symlink {
                return Err("working directory must not be a symlink".to_owned());
            }
            if *kind != FileKind::Directory {
                return Err("working directory must be a directory".to_owned());
            }
            match resolved {
                Err(error) => Err(
                    "failed to canonicalize working directory: ".to_owned().concat(error.as_str()),
                ),
                Ok(target) => match &target.kind {
                    Err(error) => Err(
                        "failed to inspect working directory: ".to_owned().concat(error.as_str()),
                    ),
                    Ok(kind) => {
                        if *kind == FileKind::Directory {
                            Ok(Some(target.canonical.clone()))
                        } else {
                            Err("working directory must resolve to a real directory".to_owned())
                        }
                    },
                },
            }
        },
    }
}

/// What was found at the paths that a FirstMate home must hold; nothing where a path could not be
/// inspected.
#[derive(Debug)]
pub struct HomeProbe {
    pub agents_file: Option<FileKind>,
    pub bin: Option<FileKind>,
    pub state: Option<FileKind>,
}

/// The paths that a FirstMate home must hold.
#[derive(Debug)]
pub struct HomePaths {
    pub agents_file: FsPath,
    pub bin: FsPath,
    pub state: FsPath,
}

/// The paths that a FirstMate home must hold.
pub fn required_home_paths(home: &FsPath) -> (r: HomePaths)
    ensures
        r.agents_file@ == joined_path(home@, encode_utf8("AGENTS.md"@)),
        r.bin@ == joined_path(home@, encode_utf8("bin"@)),
        r.state@ == joined_path(home@, encode_utf8("state"@)),
{
    HomePaths {
        agents_file: home.join("AGENTS.md"),
        bin: home.join("bin"),
        state: home.join("state"),
    }
}

/// Why one required path of a home is refused, if it is: `expected` says what has to be there, and
/// `word` names that.
pub open spec fn required_refusal(
    candidate: Seq<u8>,
    word: Seq<char>,
    expected: FileKind,
    found: Option<FileKind>,
) -> Option<Seq<char>> {
    match found {
        None => Some(
            "FirstMate home is missing required "@ + word + ": "@ + shown_text(candidate),
        ),
        Some(kind) => if kind is Symlink {
            Some(
                "FirstMate home required path must not be a symlink: "@ + shown_text(candidate),
            )
        } else if kind != expected {
            Some("FirstMate home must contain AGENTS.md, bin/, and state/"@)
        } else {
            None
        },
    }
}

/// Why a directory is not a FirstMate home, if it is not: the first required path that is refused.
pub open spec fn home_refusal(home: Seq<u8>, probe: HomeProbe) -> Option<Seq<char>> {
    let agents_file = required_refusal(
        joined_path(home, encode_utf8("AGENTS.md"@)),
        "file"@,
        FileKind::File,
        probe.agents_file,
    );
    let bin = required_refusal(
        joined_path(home, encode_utf8("bin"@)),
        "directory"@,
        FileKind::Directory,
        probe.bin,
    );
    let state = required_refusal(
        joined_path(home, encode_utf8("state"@)),
        "directory"@,
        FileKind::Directory,
        probe.state,
    );
    if agents_file is Some {
        agents_file
    } else if bin is Some {
        bin
    } else {
        state
    }
}

/// Checks one required path of a home.
fn check_required(
    home: &FsPath,
    name: &str,
    word: &str,
    expected: FileKind,
    found: Option<FileKind>,
) -> (r: Result<(), String>)
    ensures
        outcome(r) == verdict(
            required_refusal(joined_path(home@, encode_utf8(name@)), word@, expected, found),
        ),
{
    let candidate = home.join(name);
    match found {
        None => Err(
            "FirstMate home is missing required ".to_owned().concat(word).concat(": ").concat(
                candidate.display().as_str(),
            ),
        ),
        Some(kind) => {
            if kind == FileKind::Symlink {
                Err(
                    "FirstMate home required path must not be a symlink: ".to_owned().concat(
                        candidate.display().as_str(),
                    ),
                )
            } else if kind != expected {
                Err("FirstMate home must contain AGENTS.md, bin/, and state/".to_owned())
            } else {
                Ok(())
            }
        },
    }
}

/// Validates what a FirstMate home must hold on disk.
pub fn validate_firstmate_home(home: &FsPath, probe: &HomeProbe) -> (r: Result<(), String>)
    ensures
        outcome(r) == verdict(home_refusal(home@, *probe)),
{
    match check_required(home, "AGENTS.md", "file", FileKind::File, probe.agents_file) {
        Ok(_) => {},
        Err(error) => {
            return Err(error);
        },
    }
    match check_required(home, "bin", "directory", FileKind::Directory, probe.bin) {
        Ok(_) => {},
        Err(error) => {
            return Err(error);
        },
    }
    check_required(home, "state", "directory", FileKind::Directory, probe.state)
}

/// What the record of a managed agent says of where it runs.
#[derive(Debug)]
pub struct ManagedAgentRecord {
    /// Whether the agent is a FirstMate.
    pub firstmate: bool,
    pub working_directory: Option<FsPath>,
}

/// The canonical directory of a record, or why the record is refused.
pub open spec fn record_outcome(
    record: ManagedAgentRecord,
    directory: DirectoryProbe,
    home: HomeProbe,
) -> Result<Option<Seq<u8>>, Seq<char>> {
    match directory_outcome(held(record.working_directory), directory) {
        Err(error) => Err(error),
        Ok(path) => if !record.firstmate {
            Ok(path)
        } else {
            match path {
                None => Err("FirstMate agents require a FirstMate working directory"@),
                Some(canonical) => match home_refusal(canonical, home) {
                    Some(error) => Err(error),
                    None => Ok(path),
                },
            }
        },
    }
}

/// Validates the directory of a record, which for a FirstMate must be a FirstMate home. `home` is
/// what was found in the canonical directory.
pub fn validate_record_working_directory(
    record: &ManagedAgentRecord,
    directory: &DirectoryProbe,
    home: &HomeProbe,
) -> (r: Result<Option<FsPath>, String>)
    ensures
        optional_outcome(r) == record_outcome(*record, *directory, *home),
{
    let selected = match &record.working_directory {
        Some(path) => Some(path.clone()),
        None => None,
    };
    let path = match validate_working_directory(selected, directory) {
        Ok(path) => path,
        Err(error) => {
            return Err(error);
        },
    };
    if record.firstmate {
        match &path {
            None => {
                return Err(
                    "FirstMate agents require a FirstMate working directory".to_owned(),
                );
            },
            Some(canonical) => match validate_firstmate_home(canonical, home) {
                Ok(_) => {},
                Err(error) => {
                    return Err(error);
                },
            },
        }
    }
    Ok(path)
}

/// A directory that is accepted was selected by an absolute path, is a real directory and not a
/// link, and resolves to a real directory, whose path is the answer.
pub proof fn accepted_directory_is_real(
    path: Option<Seq<u8>>,
    probe: DirectoryProbe,
    canonical: Seq<u8>,
)
    requires
        directory_outcome(path, probe) == Ok::<Option<Seq<u8>>, Seq<char>>(Some(canonical)),
    ensures
        path is Some,
        absolute(path->0),
        probe matches DirectoryProbe::Found { kind, resolved } && kind is Directory && (
        resolved matches Ok(target) && target.canonical@ == canonical && target.kind == Ok::<
            FileKind,
            String,
        >(FileKind::Directory)),
{
}

/// A FirstMate that is accepted has a home, and the home holds its three required paths as real ones:
/// none of them is a link.
pub proof fn accepted_firstmate_has_a_real_home(
    record: ManagedAgentRecord,
    directory: DirectoryProbe,
    home: HomeProbe,
    path: Option<Seq<u8>>,
)
    requires
        record.firstmate,
        record_outcome(record, directory, home) == Ok::<Option<Seq<u8>>, Seq<char>>(path),
    ensures
        path is Some,
        home.agents_file == Some(FileKind::File),
        home.bin == Some(FileKind::Directory),
        home.state == Some(FileKind::Directory),
{
}

/// Only a FirstMate needs a home: any other agent may run without a directory, and what a home must
/// hold plays no part for it.
pub proof fn other_agents_need_no_home(
    record: ManagedAgentRecord,
    directory: DirectoryProbe,
    home: HomeProbe,
)
    requires
        !record.firstmate,
    ensures
        record_outcome(record, directory, home) == directory_outcome(
            held(record.working_directory),
            directory,
        ),
        record.working_directory is None ==> record_outcome(record, directory, home) == Ok::<
            Option<Seq<u8>>,
            Seq<char>,
        >(None),
{
}

} // verus!
