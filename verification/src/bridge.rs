//! The integration layer that an older FirstMate home is given.
//!
//! A file that exists is never replaced: a bridge that differs has to be updated explicitly instead
//! of being overwritten because somebody selected a folder.

use vstd::prelude::*;
use vstd::utf8::encode_utf8;

use crate::discovery::{is_runnable, runnable};
use crate::encoding::shown_text;
use crate::outcome::outcome;
use crate::path::{joined_path, FsPath};
use crate::text::texts;
use crate::working_directory::FileKind;

verus! {

/// Model of [`BridgeFile`].
#[verifier::ext_equal]
pub struct BridgeFileModel {
    pub relative_path: Seq<char>,
    pub contents: Seq<u8>,
    pub executable: bool,
}

/// One file of the bridge.
#[derive(Debug)]
pub struct BridgeFile {
    pub relative_path: &'static str,
    pub contents: Vec<u8>,
    pub executable: bool,
}

impl View for BridgeFile {
    type V = BridgeFileModel;

    open spec fn view(&self) -> BridgeFileModel {
        BridgeFileModel {
            relative_path: self.relative_path@,
            contents: self.contents@,
            executable: self.executable,
        }
    }
}

/// What the files of the bridge hold.
#[derive(Debug)]
pub struct BridgeBundle {
    pub lifecycle: Vec<u8>,
    pub supervisor: Vec<u8>,
    pub buzz: Vec<u8>,
    pub supervision_lib: Vec<u8>,
    pub session_lock_lib: Vec<u8>,
    pub cursor_lib: Vec<u8>,
}

/// The files of the bridge, in the order in which they are installed.
pub open spec fn bridge_layout(bundle: BridgeBundle) -> Seq<BridgeFileModel> {
    seq![
        BridgeFileModel {
            relative_path: "bin/fm-buzz-lifecycle.sh"@,
            contents: bundle.lifecycle@,
            executable: true,
        },
        BridgeFileModel {
            relative_path: "bin/fm-buzz-supervisor.sh"@,
            contents: bundle.supervisor@,
            executable: true,
        },
        BridgeFileModel {
            relative_path: "bin/fm-buzz.sh"@,
            contents: bundle.buzz@,
            executable: true,
        },
        BridgeFileModel {
            relative_path: "bin/fm-supervision-lib.sh"@,
            contents: bundle.supervision_lib@,
            executable: false,
        },
        BridgeFileModel {
            relative_path: "bin/fm-session-lock-lib.sh"@,
            contents: bundle.session_lock_lib@,
            executable: false,
        },
        BridgeFileModel {
            relative_path: "bin/fm-cursor-lib.sh"@,
            contents: bundle.cursor_lib@,
            executable: true,
        },
    ]
}

/// The models of a list of files.
pub open spec fn file_models(files: Seq<BridgeFile>) -> Seq<BridgeFileModel> {
    files.map_values(|file: BridgeFile| file@)
}

/// The files of the bridge, in the order in which they are installed.
pub fn bridge_files(bundle: BridgeBundle) -> (r: Vec<BridgeFile>)
    ensures
        file_models(r@) == bridge_layout(bundle),
        r@.len() == 6,
        r@[0].relative_path@ == "bin/fm-buzz-lifecycle.sh"@,
        r@[0].contents@ == bundle.lifecycle@,
        r@[0].executable,
        r@[1].relative_path@ == "bin/fm-buzz-supervisor.sh"@,
        r@[1].contents@ == bundle.supervisor@,
        r@[1].executable,
        r@[2].relative_path@ == "bin/fm-buzz.sh"@,
        r@[2].contents@ == bundle.buzz@,
        r@[2].executable,
        r@[3].relative_path@ == "bin/fm-supervision-lib.sh"@,
        r@[3].contents@ == bundle.supervision_lib@,
        !r@[3].executable,
        r@[4].relative_path@ == "bin/fm-session-lock-lib.sh"@,
        r@[4].contents@ == bundle.session_lock_lib@,
        !r@[4].executable,
        r@[5].relative_path@ == "bin/fm-cursor-lib.sh"@,
        r@[5].contents@ == bundle.cursor_lib@,
        r@[5].executable,
{
    let mut files: Vec<BridgeFile> = Vec::new();
    files.push(
        BridgeFile {
            relative_path: "bin/fm-buzz-lifecycle.sh",
            contents: bundle.lifecycle,
            executable: true,
        },
    );
    files.push(
        BridgeFile {
            relative_path: "bin/fm-buzz-supervisor.sh",
            contents: bundle.supervisor,
            executable: true,
        },
    );
    files.push(
        BridgeFile { relative_path: "bin/fm-buzz.sh", contents: bundle.buzz, executable: true },
    );
    files.push(
        BridgeFile {
            relative_path: "bin/fm-supervision-lib.sh",
            contents: bundle.supervision_lib,
            executable: false,
        },
    );
    files.push(
        BridgeFile {
            relative_path: "bin/fm-session-lock-lib.sh",
            contents: bundle.session_lock_lib,
            executable: false,
        },
    );
    files.push(
        BridgeFile {
            relative_path: "bin/fm-cursor-lib.sh",
            contents: bundle.cursor_lib,
            executable: true,
        },
    );
    assert(file_models(files@) =~= bridge_layout(bundle));
    files
}

/// What to do next for the permissions of a file.
#[derive(Debug)]
pub enum PermissionStep {
    /// Read the mode of the file.
    ReadMode,
    /// Give the file this mode.
    SetMode(u32),
    /// The permissions are right, or why they could not be made so.
    Done(Result<(), String>),
}

/// Model of [`PermissionStep`].
#[verifier::ext_equal]
pub enum PermissionModel {
    ReadMode,
    SetMode(u32),
    Done(Result<(), Seq<char>>),
}

impl View for PermissionStep {
    type V = PermissionModel;

    open spec fn view(&self) -> PermissionModel {
        match self {
            PermissionStep::ReadMode => PermissionModel::ReadMode,
            PermissionStep::SetMode(mode) => PermissionModel::SetMode(*mode),
            PermissionStep::Done(result) => PermissionModel::Done(outcome(*result)),
        }
    }
}

/// The next step for the permissions of a file, from its mode and from what came of changing it.
pub open spec fn permission_step(
    executable: bool,
    mode: Option<Result<Option<u32>, String>>,
    changed: Option<Result<(), String>>,
) -> PermissionModel {
    if !executable {
        PermissionModel::Done(Ok(()))
    } else {
        match mode {
            None => PermissionModel::ReadMode,
            Some(Err(error)) => PermissionModel::Done(
                Err("cannot inspect bridge permissions: "@ + error@),
            ),
            Some(Ok(None)) => PermissionModel::Done(Ok(())),
            Some(Ok(Some(bits))) => if runnable(Some(bits)) {
                PermissionModel::Done(Ok(()))
            } else {
                match changed {
                    None => PermissionModel::SetMode(bits | 0o700),
                    Some(Err(error)) => PermissionModel::Done(
                        Err("cannot make FirstMate Buzz bridge executable: "@ + error@),
                    ),
                    Some(Ok(_)) => PermissionModel::Done(Ok(())),
                }
            },
        }
    }
}

/// Makes sure that a file can be run if it has to be: a file that nobody may run is made runnable
/// for its owner. On a platform where files have no mode there is nothing to do.
pub fn ensure_executable(
    executable: bool,
    mode: &Option<Result<Option<u32>, String>>,
    changed: &Option<Result<(), String>>,
) -> (r: PermissionStep)
    ensures
        r@ == permission_step(executable, *mode, *changed),
{
    if !executable {
        return PermissionStep::Done(Ok(()));
    }
    match mode {
        None => PermissionStep::ReadMode,
        Some(Err(error)) => PermissionStep::Done(
            Err("cannot inspect bridge permissions: ".to_owned().concat(error.as_str())),
        ),
        Some(Ok(None)) => PermissionStep::Done(Ok(())),
        Some(Ok(Some(bits))) => {
            let bits: u32 = *bits;
            if is_runnable(Some(bits)) {
                return PermissionStep::Done(Ok(()));
            }
            match changed {
                None => PermissionStep::SetMode(bits | 0o700),
                Some(Err(error)) => PermissionStep::Done(
                    Err(
                        "cannot make FirstMate Buzz bridge executable: ".to_owned().concat(
                            error.as_str(),
                        ),
                    ),
                ),
                Some(Ok(_)) => PermissionStep::Done(Ok(())),
            }
        },
    }
}

/// A changed mode can be run, and allows all that the mode before it allowed.
pub proof fn changed_mode_is_runnable(mode: u32)
    ensures
        runnable(Some(mode | 0o700)),
        (mode | 0o700) & mode == mode,
{
    assert((mode | 0o700) & 0o111 != 0) by (bit_vector);
    assert((mode | 0o700) & mode == mode) by (bit_vector);
}

/// What was found where a file of the bridge belongs.
#[derive(Debug)]
pub enum Inspection {
    /// Nothing is there.
    Missing,
    /// It could not be found out, for this reason.
    Failed(String),
    /// Something is there.
    Found(FileKind),
}

/// What came of writing a new file.
#[derive(Debug)]
pub enum InstallReply {
    /// The file could not be created.
    NotCreated(String),
    /// The file was created, but could not be written.
    NotWritten(String),
    /// The file was written, but could not be synchronized.
    NotSynced(String),
    /// The file is there.
    Written,
}

/// What is known of one file of the bridge in a home. An answer is absent until the step that asks
/// for it was done.
#[derive(Debug)]
pub struct FileAnswers {
    pub inspected: Option<Inspection>,
    pub read: Option<Result<Vec<u8>, String>>,
    pub installed: Option<InstallReply>,
    /// The mode of the file, or that files have none on this platform.
    pub mode: Option<Result<Option<u32>, String>>,
    pub changed: Option<Result<(), String>>,
}

/// What is known of a file before anything was asked.
pub open spec fn no_answers() -> FileAnswers {
    FileAnswers { inspected: None, read: None, installed: None, mode: None, changed: None }
}

impl FileAnswers {
    /// What is known of a file before anything was asked.
    pub fn none() -> (r: Self)
        ensures
            r == no_answers(),
    {
        FileAnswers { inspected: None, read: None, installed: None, mode: None, changed: None }
    }
}

/// Model of [`FileRequest`].
#[verifier::ext_equal]
pub enum RequestModel {
    Inspect(Seq<u8>),
    Read(Seq<u8>),
    Install { target: Seq<u8>, contents: Seq<u8> },
    ReadMode(Seq<u8>),
    SetMode { path: Seq<u8>, mode: u32 },
}

/// Something to do with one file.
#[derive(Debug)]
pub enum FileRequest {
    /// Find out what this path names.
    Inspect(FsPath),
    /// Read this file.
    Read(FsPath),
    /// Create this file, which must not exist, and write it.
    Install { target: FsPath, contents: Vec<u8> },
    /// Read the mode of this file.
    ReadMode(FsPath),
    /// Give this file this mode.
    SetMode { path: FsPath, mode: u32 },
}

impl View for FileRequest {
    type V = RequestModel;

    open spec fn view(&self) -> RequestModel {
        match self {
            FileRequest::Inspect(path) => RequestModel::Inspect(path@),
            FileRequest::Read(path) => RequestModel::Read(path@),
            FileRequest::Install { target, contents } => RequestModel::Install {
                target: target@,
                contents: contents@,
            },
            FileRequest::ReadMode(path) => RequestModel::ReadMode(path@),
            FileRequest::SetMode { path, mode } => RequestModel::SetMode {
                path: path@,
                mode: *mode,
            },
        }
    }
}

/// Model of [`FileStep`].
#[verifier::ext_equal]
pub enum FileModel {
    Ask(RequestModel),
    Kept,
    Installed,
    Refused(Seq<char>),
}

/// What to do next for one file.
#[derive(Debug)]
pub enum FileStep {
    Ask(FileRequest),
    /// The file was there and is as it should be.
    Kept,
    /// The file was not there and is now.
    Installed,
    Refused(String),
}

impl View for FileStep {
    type V = FileModel;

    open spec fn view(&self) -> FileModel {
        match self {
            FileStep::Ask(request) => FileModel::Ask(request@),
            FileStep::Kept => FileModel::Kept,
            FileStep::Installed => FileModel::Installed,
            FileStep::Refused(error) => FileModel::Refused(error@),
        }
    }
}

/// A message on a file of the bridge: what could not be done, where, and why.
pub open spec fn bridge_failure(what: Seq<char>, target: Seq<u8>, error: Seq<char>) -> Seq<char> {
    what + shown_text(target) + ": "@ + error
}

/// The step of a file that holds what it should: its permissions come last.
pub open spec fn finished_step(
    target: Seq<u8>,
    executable: bool,
    answers: FileAnswers,
    end: FileModel,
) -> FileModel {
    match permission_step(executable, answers.mode, answers.changed) {
        PermissionModel::ReadMode => FileModel::Ask(RequestModel::ReadMode(target)),
        PermissionModel::SetMode(mode) => FileModel::Ask(
            RequestModel::SetMode { path: target, mode },
        ),
        PermissionModel::Done(Ok(_)) => end,
        PermissionModel::Done(Err(error)) => FileModel::Refused(error),
    }
}

/// The next step for one file of the bridge in a home.
pub open spec fn file_step(
    home: Seq<u8>,
    file: BridgeFileModel,
    answers: FileAnswers,
) -> FileModel {
    let target = joined_path(home, encode_utf8(file.relative_path));
    match answers.inspected {
        None => FileModel::Ask(RequestModel::Inspect(target)),
        Some(Inspection::Failed(error)) => FileModel::Refused(
            bridge_failure("cannot inspect FirstMate Buzz bridge "@, target, error@),
        ),
        Some(Inspection::Found(kind)) => if !(kind is File) {
            FileModel::Refused(
                "FirstMate Buzz bridge path is not a regular file: "@ + shown_text(target),
            )
        } else {
            match answers.read {
                None => FileModel::Ask(RequestModel::Read(target)),
                Some(Err(error)) => FileModel::Refused(
                    bridge_failure("cannot read FirstMate Buzz bridge "@, target, error@),
                ),
                Some(Ok(existing)) => if existing@ != file.contents {
                    FileModel::Refused(
                        "FirstMate Buzz bridge file differs from this Buzz build: "@ + shown_text(
                            target,
                        )
                            + ". Back it up and update the bridge explicitly before starting this agent"@,
                    )
                } else {
                    finished_step(target, file.executable, answers, FileModel::Kept)
                },
            }
        },
        Some(Inspection::Missing) => match answers.installed {
            None => FileModel::Ask(RequestModel::Install { target, contents: file.contents }),
            Some(InstallReply::NotCreated(error)) => FileModel::Refused(
                bridge_failure("cannot install FirstMate Buzz bridge "@, target, error@),
            ),
            Some(InstallReply::NotWritten(error)) => FileModel::Refused(
                bridge_failure("cannot write FirstMate Buzz bridge "@, target, error@),
            ),
            Some(InstallReply::NotSynced(error)) => FileModel::Refused(
                bridge_failure("cannot sync FirstMate Buzz bridge "@, target, error@),
            ),
            Some(InstallReply::Written) => finished_step(
                target,
                file.executable,
                answers,
                FileModel::Installed,
            ),
        },
    }
}

/// A message on a file of the bridge.
fn failure(what: &str, target: &FsPath, error: &str) -> (r: FileStep)
    ensures
        r@ == FileModel::Refused(bridge_failure(what@, target@, error@)),
{
    FileStep::Refused(
        what.to_owned().concat(target.display().as_str()).concat(": ").concat(error),
    )
}

/// The step of a file that holds what it should.
fn finish(target: FsPath, executable: bool, answers: &FileAnswers, end: FileStep) -> (r: FileStep)
    ensures
        r@ == finished_step(target@, executable, *answers, end@),
{
    match ensure_executable(executable, &answers.mode, &answers.changed) {
        PermissionStep::ReadMode => FileStep::Ask(FileRequest::ReadMode(target)),
        PermissionStep::SetMode(mode) => FileStep::Ask(FileRequest::SetMode { path: target, mode }),
        PermissionStep::Done(Ok(_)) => end,
        PermissionStep::Done(Err(error)) => FileStep::Refused(error),
    }
}

/// The next step for one file of the bridge in a home.
pub fn ensure_bridge_file(home: &FsPath, file: &BridgeFile, answers: &FileAnswers) -> (r: FileStep)
    ensures
        r@ == file_step(home@, file@, *answers),
{
    let target = home.join(file.relative_path);
    match &answers.inspected {
        None => FileStep::Ask(FileRequest::Inspect(target)),
        Some(Inspection::Failed(error)) => failure(
            "cannot inspect FirstMate Buzz bridge ",
            &target,
            error.as_str(),
        ),
        Some(Inspection::Found(kind)) => {
            if *kind != FileKind::File {
                return FileStep::Refused(
                    "FirstMate Buzz bridge path is not a regular file: ".to_owned().concat(
                        target.display().as_str(),
                    ),
                );
            }
            match &answers.read {
                None => FileStep::Ask(FileRequest::Read(target)),
                Some(Err(error)) => failure(
                    "cannot read FirstMate Buzz bridge ",
                    &target,
                    error.as_str(),
                ),
                Some(Ok(existing)) => {
                    if !(*existing == file.contents) {
                        FileStep::Refused(
                            "FirstMate Buzz bridge file differs from this Buzz build: ".to_owned().concat(
                            target.display().as_str()).concat(
                                ". Back it up and update the bridge explicitly before starting this agent",
                            ),
                        )
                    } else {
                        assert(existing@ =~= file.contents@);
                        finish(target, file.executable, answers, FileStep::Kept)
                    }
                },
            }
        },
        Some(Inspection::Missing) => match &answers.installed {
            None => {
                let contents = file.contents.clone();
                assert(contents@ =~= file.contents@);
                FileStep::Ask(FileRequest::Install { target, contents })
            },
            Some(InstallReply::NotCreated(error)) => failure(
                "cannot install FirstMate Buzz bridge ",
                &target,
                error.as_str(),
            ),
            Some(InstallReply::NotWritten(error)) => failure(
                "cannot write FirstMate Buzz bridge ",
                &target,
                error.as_str(),
            ),
            Some(InstallReply::NotSynced(error)) => failure(
                "cannot sync FirstMate Buzz bridge ",
                &target,
                error.as_str(),
            ),
            Some(InstallReply::Written) => finish(
                target,
                file.executable,
                answers,
                FileStep::Installed,
            ),
        },
    }
}

/// Model of [`BridgeStep`].
#[verifier::ext_equal]
pub enum BridgeModel {
    Ask { file: nat, request: RequestModel },
    Done(Result<Seq<Seq<char>>, Seq<char>>),
}

/// What to do next for the bridge.
#[derive(Debug)]
pub enum BridgeStep {
    /// Do this for the file at this place of the list, and add the answer to those on that file.
    Ask { file: usize, request: FileRequest },
    /// The paths of the files that were installed, or why the bridge is refused.
    Done(Result<Vec<String>, String>),
}

impl View for BridgeStep {
    type V = BridgeModel;

    open spec fn view(&self) -> BridgeModel {
        match self {
            BridgeStep::Ask { file, request } => BridgeModel::Ask {
                file: *file as nat,
                request: request@,
            },
            BridgeStep::Done(Ok(installed)) => BridgeModel::Done(Ok(texts(installed@))),
            BridgeStep::Done(Err(error)) => BridgeModel::Done(Err(error@)),
        }
    }
}

/// What is known of the file at place `k`.
pub open spec fn answers_on(answers: Seq<FileAnswers>, k: int) -> FileAnswers {
    if 0 <= k < answers.len() {
        answers[k]
    } else {
        no_answers()
    }
}

/// The next step for the files from place `k` on, where these were installed before.
pub open spec fn files_step(
    home: Seq<u8>,
    files: Seq<BridgeFileModel>,
    answers: Seq<FileAnswers>,
    k: nat,
    installed: Seq<Seq<char>>,
) -> BridgeModel
    decreases files.len() - k,
{
    if k >= files.len() {
        BridgeModel::Done(Ok(installed))
    } else {
        match file_step(home, files[k as int], answers_on(answers, k as int)) {
            FileModel::Ask(request) => BridgeModel::Ask { file: k, request },
            FileModel::Refused(error) => BridgeModel::Done(Err(error)),
            FileModel::Kept => files_step(home, files, answers, k + 1, installed),
            FileModel::Installed => files_step(
                home,
                files,
                answers,
                k + 1,
                installed.push(files[k as int].relative_path),
            ),
        }
    }
}

/// The directory of a home that the bridge is installed in.
pub fn bridge_directory(home: &FsPath) -> (r: FsPath)
    ensures
        r@ == joined_path(home@, encode_utf8("bin"@)),
{
    home.join("bin")
}

/// The next step for the bridge of a home: the directory for it has to be a real one, and then the
/// files follow in order.
pub open spec fn bridge_step(
    home: Seq<u8>,
    files: Seq<BridgeFileModel>,
    bin: Result<FileKind, String>,
    answers: Seq<FileAnswers>,
) -> BridgeModel {
    match bin {
        Err(error) => BridgeModel::Done(
            Err("cannot inspect FirstMate bin directory: "@ + error@),
        ),
        Ok(kind) => if !(kind is Directory) {
            BridgeModel::Done(
                Err(
                    "FirstMate bin directory must be a real directory: "@ + shown_text(
                        joined_path(home, encode_utf8("bin"@)),
                    ),
                ),
            )
        } else {
            files_step(home, files, answers, 0, Seq::empty())
        },
    }
}

/// Installs the bridge into a home. `bin` is what the directory for it is, and `answers` are what is
/// known of the files, in their order; the list may be shorter than that of the files.
pub fn ensure_firstmate_bridge(
    home: &FsPath,
    files: &[BridgeFile],
    bin: &Result<FileKind, String>,
    answers: &[FileAnswers],
) -> (r: BridgeStep)
    ensures
        r@ == bridge_step(home@, file_models(files@), *bin, answers@),
{
    match bin {
        Err(error) => {
            return BridgeStep::Done(
                Err("cannot inspect FirstMate bin directory: ".to_owned().concat(error.as_str())),
            );
        },
        Ok(kind) => {
            if *kind != FileKind::Directory {
                return BridgeStep::Done(
                    Err(
                        "FirstMate bin directory must be a real directory: ".to_owned().concat(
                            bridge_directory(home).display().as_str(),
                        ),
                    ),
                );
            }
        },
    }
    let ghost models = file_models(files@);
    let ghost whole = files_step(home@, models, answers@, 0, Seq::empty());
    let none = FileAnswers::none();
    let mut installed: Vec<String> = Vec::new();
    assert(texts(installed@) =~= Seq::<Seq<char>>::empty());
    let mut k: usize = 0;
    while k < files.len()
        invariant
            k <= files@.len(),
            models == file_models(files@),
            none == no_answers(),
            whole == bridge_step(home@, models, *bin, answers@),
            whole == files_step(home@, models, answers@, k as nat, texts(installed@)),
        decreases files@.len() - k,
    {
        let file = &files[k];
        assert(models[k as int] == file@);
        let known = if k < answers.len() {
            &answers[k]
        } else {
            &none
        };
        match ensure_bridge_file(home, file, known) {
            FileStep::Ask(request) => {
                return BridgeStep::Ask { file: k, request };
            },
            FileStep::Refused(error) => {
                return BridgeStep::Done(Err(error));
            },
            FileStep::Kept => {},
            FileStep::Installed => {
                let ghost before = installed@;
                installed.push(file.relative_path.to_owned());
                assert(texts(installed@) =~= texts(before).push(file@.relative_path));
            },
        }
        k += 1;
    }
    BridgeStep::Done(Ok(installed))
}

/// Whether a request is to write a file.
pub open spec fn writes(request: RequestModel) -> bool {
    request is Install
}

proof fn lemma_request_is_of_its_file(
    home: Seq<u8>,
    files: Seq<BridgeFileModel>,
    answers: Seq<FileAnswers>,
    k: nat,
    installed: Seq<Seq<char>>,
    file: nat,
    request: RequestModel,
)
    requires
        files_step(home, files, answers, k, installed) == (BridgeModel::Ask { file, request }),
    ensures
        k <= file < files.len(),
        file_step(home, files[file as int], answers_on(answers, file as int)) == FileModel::Ask(
            request,
        ),
    decreases files.len() - k,
{
    if k < files.len() {
        match file_step(home, files[k as int], answers_on(answers, k as int)) {
            FileModel::Kept => {
                lemma_request_is_of_its_file(
                    home,
                    files,
                    answers,
                    k + 1,
                    installed,
                    file,
                    request,
                );
            },
            FileModel::Installed => {
                lemma_request_is_of_its_file(
                    home,
                    files,
                    answers,
                    k + 1,
                    installed.push(files[k as int].relative_path),
                    file,
                    request,
                );
            },
            _ => {},
        }
    }
}

/// A file that exists is never written. Whatever is asked for is the request of one file of the
/// bridge on that file, and a file is written only where nothing was found at its own path, to that
/// path, and with what the bridge holds for it.
pub proof fn existing_file_is_never_written(
    home: Seq<u8>,
    files: Seq<BridgeFileModel>,
    bin: Result<FileKind, String>,
    answers: Seq<FileAnswers>,
    file: nat,
    request: RequestModel,
)
    requires
        bridge_step(home, files, bin, answers) == (BridgeModel::Ask { file, request }),
    ensures
        file < files.len(),
        file_step(home, files[file as int], answers_on(answers, file as int)) == FileModel::Ask(
            request,
        ),
        writes(request) ==> {
            &&& answers_on(answers, file as int).inspected == Some(Inspection::Missing)
            &&& request == (RequestModel::Install {
                target: joined_path(home, encode_utf8(files[file as int].relative_path)),
                contents: files[file as int].contents,
            })
        },
{
    lemma_request_is_of_its_file(home, files, answers, 0, Seq::empty(), file, request);
}

/// A file that differs is refused.
pub proof fn different_file_is_refused(
    home: Seq<u8>,
    file: BridgeFileModel,
    answers: FileAnswers,
)
    requires
        answers.inspected == Some(Inspection::Found(FileKind::File)),
        answers.read matches Some(Ok(existing)) && existing@ != file.contents,
    ensures
        file_step(home, file, answers) is Refused,
{
}

/// Whether the permissions of a file are known to be right.
pub open spec fn settled(executable: bool, answers: FileAnswers) -> bool {
    permission_step(executable, answers.mode, answers.changed) == PermissionModel::Done(Ok(()))
}

/// Whether a file is known to be there as it should be.
pub open spec fn in_place(file: BridgeFileModel, answers: FileAnswers) -> bool {
    &&& answers.inspected == Some(Inspection::Found(FileKind::File))
    &&& answers.read matches Some(Ok(existing)) && existing@ == file.contents
    &&& settled(file.executable, answers)
}

/// Whether a file is known to have been missing and to be there now.
pub open spec fn newly_written(file: BridgeFileModel, answers: FileAnswers) -> bool {
    &&& answers.inspected == Some(Inspection::Missing)
    &&& answers.installed == Some(InstallReply::Written)
    &&& settled(file.executable, answers)
}

proof fn lemma_files_in_place(
    home: Seq<u8>,
    files: Seq<BridgeFileModel>,
    answers: Seq<FileAnswers>,
    k: nat,
    installed: Seq<Seq<char>>,
)
    requires
        k <= files.len(),
        files.len() == answers.len(),
        forall|i: int| 0 <= i < files.len() ==> in_place(#[trigger] files[i], answers[i]),
    ensures
        files_step(home, files, answers, k, installed) == BridgeModel::Done(Ok(installed)),
    decreases files.len() - k,
{
    if k < files.len() {
        assert(in_place(files[k as int], answers[k as int]));
        lemma_files_in_place(home, files, answers, k + 1, installed);
    }
}

/// To install the bridge again changes nothing: where every file is in place, none is installed.
pub proof fn installing_again_changes_nothing(
    home: Seq<u8>,
    files: Seq<BridgeFileModel>,
    answers: Seq<FileAnswers>,
)
    requires
        files.len() == answers.len(),
        forall|i: int| 0 <= i < files.len() ==> in_place(#[trigger] files[i], answers[i]),
    ensures
        bridge_step(home, files, Ok(FileKind::Directory), answers) == BridgeModel::Done(
            Ok(Seq::<Seq<char>>::empty()),
        ),
{
    lemma_files_in_place(home, files, answers, 0, Seq::empty());
}

/// The paths of files, in order.
pub open spec fn relative_paths(files: Seq<BridgeFileModel>) -> Seq<Seq<char>> {
    files.map_values(|file: BridgeFileModel| file.relative_path)
}

proof fn lemma_files_written(
    home: Seq<u8>,
    files: Seq<BridgeFileModel>,
    answers: Seq<FileAnswers>,
    k: nat,
)
    requires
        k <= files.len(),
        files.len() == answers.len(),
        forall|i: int| 0 <= i < files.len() ==> newly_written(#[trigger] files[i], answers[i]),
    ensures
        files_step(home, files, answers, k, relative_paths(files.take(k as int)))
            == BridgeModel::Done(Ok(relative_paths(files))),
    decreases files.len() - k,
{
    if k < files.len() {
        assert(newly_written(files[k as int], answers[k as int]));
        lemma_files_written(home, files, answers, k + 1);
        assert(relative_paths(files.take(k as int)).push(files[k as int].relative_path)
            =~= relative_paths(files.take(k as int + 1)));
    } else {
        assert(files.take(k as int) =~= files);
    }
}

/// A bridge that is missing is installed whole: the answer names every file, in order.
pub proof fn missing_bridge_is_installed_whole(
    home: Seq<u8>,
    files: Seq<BridgeFileModel>,
    answers: Seq<FileAnswers>,
)
    requires
        files.len() == answers.len(),
        forall|i: int| 0 <= i < files.len() ==> newly_written(#[trigger] files[i], answers[i]),
    ensures
        bridge_step(home, files, Ok(FileKind::Directory), answers) == BridgeModel::Done(
            Ok(relative_paths(files)),
        ),
{
    lemma_files_written(home, files, answers, 0);
    assert(relative_paths(files.take(0)) =~= Seq::<Seq<char>>::empty());
}

/// The paths of the files from place `k` on that were missing, in order.
pub open spec fn missing_paths(
    files: Seq<BridgeFileModel>,
    answers: Seq<FileAnswers>,
    k: nat,
) -> Seq<Seq<char>>
    decreases files.len() - k,
{
    if k >= files.len() {
        Seq::empty()
    } else {
        let rest = missing_paths(files, answers, k + 1);
        if answers_on(answers, k as int).inspected == Some(Inspection::Missing) {
            seq![files[k as int].relative_path] + rest
        } else {
            rest
        }
    }
}

proof fn lemma_accepted_files(
    home: Seq<u8>,
    files: Seq<BridgeFileModel>,
    answers: Seq<FileAnswers>,
    k: nat,
    installed: Seq<Seq<char>>,
    list: Seq<Seq<char>>,
)
    requires
        files_step(home, files, answers, k, installed) == BridgeModel::Done(Ok(list)),
    ensures
        forall|i: int|
            k <= i < files.len() ==> in_place(#[trigger] files[i], answers_on(answers, i))
                || newly_written(files[i], answers_on(answers, i)),
        list == installed + missing_paths(files, answers, k),
    decreases files.len() - k,
{
    if k < files.len() {
        let file = files[k as int];
        let known = answers_on(answers, k as int);
        let step = file_step(home, file, known);
        if step is Kept {
            assert(in_place(file, known));
            lemma_accepted_files(home, files, answers, k + 1, installed, list);
        } else {
            assert(step is Installed);
            assert(newly_written(file, known));
            lemma_accepted_files(
                home,
                files,
                answers,
                k + 1,
                installed.push(file.relative_path),
                list,
            );
            assert(list =~= installed + missing_paths(files, answers, k));
        }
        assert forall|i: int| k <= i < files.len() implies in_place(
            #[trigger] files[i],
            answers_on(answers, i),
        ) || newly_written(files[i], answers_on(answers, i)) by {}
    } else {
        assert(list =~= installed + missing_paths(files, answers, k));
    }
}

/// A bridge that is accepted is complete: every file was in place or was missing and is written now,
/// and the answer names exactly those that were missing.
pub proof fn accepted_bridge_is_complete(
    home: Seq<u8>,
    files: Seq<BridgeFileModel>,
    bin: Result<FileKind, String>,
    answers: Seq<FileAnswers>,
    list: Seq<Seq<char>>,
)
    requires
        bridge_step(home, files, bin, answers) == BridgeModel::Done(Ok(list)),
    ensures
        bin == Ok::<FileKind, String>(FileKind::Directory),
        forall|i: int|
            0 <= i < files.len() ==> in_place(#[trigger] files[i], answers_on(answers, i))
                || newly_written(files[i], answers_on(answers, i)),
        list == missing_paths(files, answers, 0),
{
    lemma_accepted_files(home, files, answers, 0, Seq::empty(), list);
    assert(Seq::<Seq<char>>::empty() + missing_paths(files, answers, 0) =~= missing_paths(
        files,
        answers,
        0,
    ));
}

/// The bridge is six files, each named once, and each with the contents that the bundle gives for its
/// name; the two libraries for supervision and locks are read and not run.
pub proof fn each_file_holds_its_own_contents(bundle: BridgeBundle, i: int, j: int)
    requires
        0 <= i < bridge_layout(bundle).len(),
        0 <= j < bridge_layout(bundle).len(),
    ensures
        bridge_layout(bundle).len() == 6,
        bridge_layout(bundle)[i].relative_path == bridge_layout(bundle)[j].relative_path ==> i == j,
        ({
            let file = bridge_layout(bundle)[i];
            let name = file.relative_path;
            &&& name == "bin/fm-buzz-lifecycle.sh"@ ==> file.contents == bundle.lifecycle@
                && file.executable
            &&& name == "bin/fm-buzz-supervisor.sh"@ ==> file.contents == bundle.supervisor@
                && file.executable
            &&& name == "bin/fm-buzz.sh"@ ==> file.contents == bundle.buzz@ && file.executable
            &&& name == "bin/fm-supervision-lib.sh"@ ==> file.contents == bundle.supervision_lib@
                && !file.executable
            &&& name == "bin/fm-session-lock-lib.sh"@ ==> file.contents == bundle.session_lock_lib@
                && !file.executable
            &&& name == "bin/fm-cursor-lib.sh"@ ==> file.contents == bundle.cursor_lib@
                && file.executable
            &&& {
                ||| name == "bin/fm-buzz-lifecycle.sh"@
                ||| name == "bin/fm-buzz-supervisor.sh"@
                ||| name == "bin/fm-buzz.sh"@
                ||| name == "bin/fm-supervision-lib.sh"@
                ||| name == "bin/fm-session-lock-lib.sh"@
                ||| name == "bin/fm-cursor-lib.sh"@
            }
        }),
{
    reveal_strlit("bin/fm-buzz-lifecycle.sh");
    reveal_strlit("bin/fm-buzz-supervisor.sh");
    reveal_strlit("bin/fm-buzz.sh");
    reveal_strlit("bin/fm-supervision-lib.sh");
    reveal_strlit("bin/fm-session-lock-lib.sh");
    reveal_strlit("bin/fm-cursor-lib.sh");
    let a = "bin/fm-buzz-lifecycle.sh"@;
    let b = "bin/fm-buzz-supervisor.sh"@;
    let c = "bin/fm-buzz.sh"@;
    let d = "bin/fm-supervision-lib.sh"@;
    let e = "bin/fm-session-lock-lib.sh"@;
    let f = "bin/fm-cursor-lib.sh"@;
    assert(a.len() == 24 && b.len() == 25 && c.len() == 14 && d.len() == 25 && e.len() == 26
        && f.len() == 20);
    assert(b[7] == 'b' && d[7] == 's');
}

/// What is written where a file is missing: a file of the bridge goes to its own path below the home,
/// with the contents that the bundle gives for that path.
pub proof fn installed_file_holds_its_own_contents(
    home: Seq<u8>,
    bundle: BridgeBundle,
    bin: Result<FileKind, String>,
    answers: Seq<FileAnswers>,
    file: nat,
    target: Seq<u8>,
    contents: Seq<u8>,
)
    requires
        bridge_step(home, bridge_layout(bundle), bin, answers) == (BridgeModel::Ask {
            file,
            request: RequestModel::Install { target, contents },
        }),
    ensures
        target == joined_path(home, encode_utf8("bin/fm-buzz-lifecycle.sh"@)) ==> contents
            == bundle.lifecycle@,
        target == joined_path(home, encode_utf8("bin/fm-buzz-supervisor.sh"@)) ==> contents
            == bundle.supervisor@,
        target == joined_path(home, encode_utf8("bin/fm-buzz.sh"@)) ==> contents == bundle.buzz@,
        target == joined_path(home, encode_utf8("bin/fm-supervision-lib.sh"@)) ==> contents
            == bundle.supervision_lib@,
        target == joined_path(home, encode_utf8("bin/fm-session-lock-lib.sh"@)) ==> contents
            == bundle.session_lock_lib@,
        target == joined_path(home, encode_utf8("bin/fm-cursor-lib.sh"@)) ==> contents
            == bundle.cursor_lib@,
{
    let layout = bridge_layout(bundle);
    existing_file_is_never_written(
        home,
        layout,
        bin,
        answers,
        file,
        RequestModel::Install { target, contents },
    );
    each_file_holds_its_own_contents(bundle, file as int, file as int);
    let name = layout[file as int].relative_path;
    reveal_strlit("bin/fm-buzz-lifecycle.sh");
    reveal_strlit("bin/fm-buzz-supervisor.sh");
    reveal_strlit("bin/fm-buzz.sh");
    reveal_strlit("bin/fm-supervision-lib.sh");
    reveal_strlit("bin/fm-session-lock-lib.sh");
    reveal_strlit("bin/fm-cursor-lib.sh");
    lemma_same_target(home, name, "bin/fm-buzz-lifecycle.sh"@);
    lemma_same_target(home, name, "bin/fm-buzz-supervisor.sh"@);
    lemma_same_target(home, name, "bin/fm-buzz.sh"@);
    lemma_same_target(home, name, "bin/fm-supervision-lib.sh"@);
    lemma_same_target(home, name, "bin/fm-session-lock-lib.sh"@);
    lemma_same_target(home, name, "bin/fm-cursor-lib.sh"@);
}

/// Two relative names that lead to one path below a home are one name.
proof fn lemma_same_target(home: Seq<u8>, a: Seq<char>, b: Seq<char>)
    requires
        a.len() > 0,
        b.len() > 0,
        a[0] == 'b',
        b[0] == 'b',
    ensures
        joined_path(home, encode_utf8(a)) == joined_path(home, encode_utf8(b)) ==> a == b,
{
    lemma_relative(a);
    lemma_relative(b);
    let x = encode_utf8(a);
    let y = encode_utf8(b);
    if joined_path(home, x) == joined_path(home, y) {
        let base = if home.len() > 0 && home.last() != 0x2f {
            home.push(0x2f)
        } else {
            home
        };
        assert(joined_path(home, x) == base + x);
        assert(joined_path(home, y) == base + y);
        assert(x =~= (base + x).skip(base.len() as int));
        assert(y =~= (base + y).skip(base.len() as int));
        vstd::utf8::encode_utf8_decode_utf8(a);
        vstd::utf8::encode_utf8_decode_utf8(b);
    }
}

/// A name that begins with a `b` is relative.
proof fn lemma_relative(a: Seq<char>)
    requires
        a.len() > 0,
        a[0] == 'b',
    ensures
        !crate::path::absolute(encode_utf8(a)),
{
    let first = seq!['b'];
    assert(a =~= first + a.skip(1));
    vstd::utf8::is_ascii_chars_encode_utf8(first);
    vstd::utf8::encode_utf8_first_scalar(a);
    vstd::utf8::encode_utf8_first_scalar(first);
    assert(encode_utf8(first)[0] == 0x62);
}

/// When the permissions of a file are right, and what is done about them: a file that need not be run
/// is left alone, as is one without a mode or with a mode that lets somebody run it; any other is given
/// the bits of its owner on top of those that it has.
pub proof fn permissions_are_widened_only_where_needed(
    executable: bool,
    mode: Option<Result<Option<u32>, String>>,
    changed: Option<Result<(), String>>,
    new_mode: u32,
)
    ensures
        permission_step(executable, mode, changed) == PermissionModel::Done(Ok(())) <==> {
            ||| !executable
            ||| mode matches Some(Ok(known)) && (known matches Some(bits) ==> bits & 0o111 != 0 || (
            changed matches Some(Ok(_))))
        },
        permission_step(executable, mode, changed) is ReadMode <==> executable && mode is None,
        permission_step(executable, mode, changed) == PermissionModel::SetMode(new_mode) <==> {
            &&& executable
            &&& mode matches Some(Ok(Some(bits)))
            &&& bits & 0o111 == 0
            &&& changed is None
            &&& new_mode == bits | 0o700
        },
{
}

/// The path that a request is about.
pub open spec fn request_path(request: RequestModel) -> Seq<u8> {
    match request {
        RequestModel::Inspect(path) => path,
        RequestModel::Read(path) => path,
        RequestModel::Install { target, .. } => target,
        RequestModel::ReadMode(path) => path,
        RequestModel::SetMode { path, .. } => path,
    }
}

/// How one file is dealt with. Every request is about its own path. It is first looked at; what is
/// missing is then written with the file's contents, and what is a regular file is read; what is
/// anything else, or reads differently, is refused.
pub proof fn file_is_looked_at_before_it_is_touched(
    home: Seq<u8>,
    file: BridgeFileModel,
    answers: FileAnswers,
)
    ensures
        file_step(home, file, answers) matches FileModel::Ask(request) ==> request_path(request)
            == joined_path(home, encode_utf8(file.relative_path)),
        answers.inspected is None <==> file_step(home, file, answers) == FileModel::Ask(
            RequestModel::Inspect(joined_path(home, encode_utf8(file.relative_path))),
        ),
        answers.inspected == Some(Inspection::Missing) && answers.installed is None <==> file_step(
            home,
            file,
            answers,
        ) == FileModel::Ask(
            RequestModel::Install {
                target: joined_path(home, encode_utf8(file.relative_path)),
                contents: file.contents,
            },
        ),
        answers.inspected == Some(Inspection::Found(FileKind::File)) && answers.read is None
            <==> file_step(home, file, answers) == FileModel::Ask(
            RequestModel::Read(joined_path(home, encode_utf8(file.relative_path))),
        ),
        (answers.inspected matches Some(found) && (found is Failed || (found matches
            Inspection::Found(kind) && kind != FileKind::File))) ==> file_step(
            home,
            file,
            answers,
        ) is Refused,
        (answers.inspected == Some(Inspection::Found(FileKind::File)) && (answers.read matches Some(
            outcome,
        ) && !(outcome matches Ok(existing) && existing@ == file.contents))) ==> file_step(
            home,
            file,
            answers,
        ) is Refused,
        (answers.inspected == Some(Inspection::Missing) && (answers.installed matches Some(reply)
            && !(reply is Written))) ==> file_step(home, file, answers) is Refused,
{
}

/// A file is kept exactly when it was there as a regular file with the right contents, and installed
/// exactly when it was missing and was written; either way its permissions have to be right.
pub proof fn file_is_kept_or_installed(home: Seq<u8>, file: BridgeFileModel, answers: FileAnswers)
    ensures
        file_step(home, file, answers) is Kept <==> {
            &&& answers.inspected == Some(Inspection::Found(FileKind::File))
            &&& answers.read matches Some(Ok(existing))
            &&& existing@ == file.contents
            &&& permission_step(file.executable, answers.mode, answers.changed)
                == PermissionModel::Done(Ok(()))
        },
        file_step(home, file, answers) is Installed <==> {
            &&& answers.inspected == Some(Inspection::Missing)
            &&& answers.installed == Some(InstallReply::Written)
            &&& permission_step(file.executable, answers.mode, answers.changed)
                == PermissionModel::Done(Ok(()))
        },
{
}

/// The bridge is dealt with only in a real directory, from its first file on, and a file comes up only
/// once all before it are kept or installed.
pub proof fn files_come_up_in_order(
    home: Seq<u8>,
    files: Seq<BridgeFileModel>,
    bin: Result<FileKind, String>,
    answers: Seq<FileAnswers>,
    file: nat,
    request: RequestModel,
)
    ensures
        bin != Ok::<FileKind, String>(FileKind::Directory) ==> (bridge_step(
            home,
            files,
            bin,
            answers,
        ) matches BridgeModel::Done(result) && result is Err),
        bridge_step(home, files, bin, answers) == (BridgeModel::Ask { file, request }) <==> {
            &&& bin == Ok::<FileKind, String>(FileKind::Directory)
            &&& file < files.len()
            &&& file_step(home, files[file as int], answers_on(answers, file as int))
                == FileModel::Ask(request)
            &&& forall|i: int|
                0 <= i < file ==> {
                    ||| file_step(home, #[trigger] files[i], answers_on(answers, i)) is Kept
                    ||| file_step(home, files[i], answers_on(answers, i)) is Installed
                }
        },
{
    if bin == Ok::<FileKind, String>(FileKind::Directory) {
        lemma_file_comes_up(home, files, answers, 0, Seq::empty(), file, request);
    }
}

proof fn lemma_file_comes_up(
    home: Seq<u8>,
    files: Seq<BridgeFileModel>,
    answers: Seq<FileAnswers>,
    k: nat,
    installed: Seq<Seq<char>>,
    file: nat,
    request: RequestModel,
)
    ensures
        files_step(home, files, answers, k, installed) == (BridgeModel::Ask { file, request }) <==> {
            &&& k <= file < files.len()
            &&& file_step(home, files[file as int], answers_on(answers, file as int))
                == FileModel::Ask(request)
            &&& forall|i: int|
                k <= i < file ==> {
                    ||| file_step(home, #[trigger] files[i], answers_on(answers, i)) is Kept
                    ||| file_step(home, files[i], answers_on(answers, i)) is Installed
                }
        },
    decreases files.len() - k,
{
    if k < files.len() {
        let step = file_step(home, files[k as int], answers_on(answers, k as int));
        if step is Kept {
            lemma_file_comes_up(home, files, answers, k + 1, installed, file, request);
        } else if step is Installed {
            lemma_file_comes_up(
                home,
                files,
                answers,
                k + 1,
                installed.push(files[k as int].relative_path),
                file,
                request,
            );
        }
    }
}

} // verus!
