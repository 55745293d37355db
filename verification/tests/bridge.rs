use std::collections::BTreeMap;

use buzz_firstmate::bridge::{
    bridge_files, ensure_bridge_file, ensure_executable, ensure_firstmate_bridge, BridgeBundle,
    BridgeFile, BridgeStep, FileAnswers, FileRequest, FileStep, InstallReply, Inspection,
    PermissionStep,
};
use buzz_firstmate::path::FsPath;
use buzz_firstmate::working_directory::FileKind;

/// A home in memory: the files in it, each with its mode.
#[derive(Default)]
struct MemoryHome {
    files: BTreeMap<String, (Vec<u8>, u32)>,
    writes: usize,
}

fn bundle() -> Vec<BridgeFile> {
    bridge_files(BridgeBundle {
        lifecycle: b"lifecycle".to_vec(),
        supervisor: b"supervisor".to_vec(),
        buzz: b"buzz".to_vec(),
        supervision_lib: b"supervision".to_vec(),
        session_lock_lib: b"lock".to_vec(),
        cursor_lib: b"cursor".to_vec(),
    })
}

fn install(home: &mut MemoryHome) -> Result<Vec<String>, String> {
    let root = FsPath::from_text("/home/fm");
    let files = bundle();
    let mut answers: Vec<FileAnswers> = Vec::new();
    loop {
        match ensure_firstmate_bridge(&root, &files, &Ok(FileKind::Directory), &answers) {
            BridgeStep::Done(result) => return result,
            BridgeStep::Ask { file, request } => {
                while answers.len() <= file {
                    answers.push(FileAnswers::none());
                }
                let known = &mut answers[file];
                match request {
                    FileRequest::Inspect(path) => {
                        known.inspected = Some(if home.files.contains_key(&path.display()) {
                            Inspection::Found(FileKind::File)
                        } else {
                            Inspection::Missing
                        })
                    }
                    FileRequest::Read(path) => {
                        known.read = Some(Ok(home.files[&path.display()].0.clone()))
                    }
                    FileRequest::Install { target, contents } => {
                        home.writes += 1;
                        home.files.insert(target.display(), (contents, 0o100644));
                        known.installed = Some(InstallReply::Written);
                    }
                    FileRequest::ReadMode(path) => {
                        known.mode = Some(Ok(Some(home.files[&path.display()].1)))
                    }
                    FileRequest::SetMode { path, mode } => {
                        home.files.get_mut(&path.display()).unwrap().1 = mode;
                        known.changed = Some(Ok(()));
                    }
                }
            }
        }
    }
}

#[test]
fn installs_missing_bridge_and_is_idempotent() {
    let mut home = MemoryHome::default();
    let installed = install(&mut home).unwrap();
    let files = bundle();
    assert_eq!(installed.len(), files.len());
    assert_eq!(
        installed,
        vec![
            "bin/fm-buzz-lifecycle.sh",
            "bin/fm-buzz-supervisor.sh",
            "bin/fm-buzz.sh",
            "bin/fm-supervision-lib.sh",
            "bin/fm-session-lock-lib.sh",
            "bin/fm-cursor-lib.sh",
        ]
    );
    assert!(install(&mut home).unwrap().is_empty());
    assert_eq!(home.writes, 6);
    for file in files {
        let (contents, mode) = &home.files[&format!("/home/fm/{}", file.relative_path)];
        assert_eq!(contents, &file.contents);
        assert_eq!(*mode, if file.executable { 0o100744 } else { 0o100644 });
    }
}

#[test]
fn refuses_to_overwrite_a_different_existing_bridge() {
    let mut home = MemoryHome::default();
    let target = format!("/home/fm/{}", bundle()[0].relative_path);
    home.files
        .insert(target.clone(), (b"user-owned bridge".to_vec(), 0o100644));
    let error = install(&mut home).unwrap_err();
    assert!(error.contains("differs from this Buzz build"));
    assert_eq!(
        error,
        "FirstMate Buzz bridge file differs from this Buzz build: /home/fm/bin/fm-buzz-lifecycle.sh. Back it up and update the bridge explicitly before starting this agent"
    );
    assert_eq!(home.files[&target].0, b"user-owned bridge");
    assert_eq!(home.writes, 0);
}

#[test]
fn only_missing_files_are_installed() {
    let mut home = MemoryHome::default();
    home.files.insert(
        "/home/fm/bin/fm-buzz.sh".to_string(),
        (b"buzz".to_vec(), 0o100711),
    );
    let installed = install(&mut home).unwrap();
    assert_eq!(installed.len(), 5);
    assert!(!installed.contains(&"bin/fm-buzz.sh".to_string()));
    assert_eq!(home.files["/home/fm/bin/fm-buzz.sh"].1, 0o100711);
}

#[test]
fn directory_for_the_bridge_must_be_real() {
    let root = FsPath::from_text("/home/fm");
    let refusal = |bin: Result<FileKind, String>| {
        match ensure_firstmate_bridge(&root, &bundle(), &bin, &[]) {
            BridgeStep::Done(result) => result.unwrap_err(),
            other => panic!("{other:?}"),
        }
    };
    assert_eq!(
        refusal(Err("gone".to_string())),
        "cannot inspect FirstMate bin directory: gone"
    );
    for kind in [FileKind::Symlink, FileKind::File, FileKind::Other] {
        assert_eq!(
            refusal(Ok(kind)),
            "FirstMate bin directory must be a real directory: /home/fm/bin"
        );
    }
}

#[test]
fn every_failure_on_a_file_is_reported() {
    let root = FsPath::from_text("/home/fm");
    let file = &bundle()[2];
    let refusal = |answers: FileAnswers| match ensure_bridge_file(&root, file, &answers) {
        FileStep::Refused(error) => error,
        other => panic!("{other:?}"),
    };
    let with = |inspected: Inspection| FileAnswers {
        inspected: Some(inspected),
        ..FileAnswers::none()
    };
    assert_eq!(
        refusal(with(Inspection::Failed("io".to_string()))),
        "cannot inspect FirstMate Buzz bridge /home/fm/bin/fm-buzz.sh: io"
    );
    assert_eq!(
        refusal(with(Inspection::Found(FileKind::Symlink))),
        "FirstMate Buzz bridge path is not a regular file: /home/fm/bin/fm-buzz.sh"
    );
    let mut unread = with(Inspection::Found(FileKind::File));
    unread.read = Some(Err("io".to_string()));
    assert_eq!(
        refusal(unread),
        "cannot read FirstMate Buzz bridge /home/fm/bin/fm-buzz.sh: io"
    );
    for (reply, word) in [
        (InstallReply::NotCreated("io".to_string()), "install"),
        (InstallReply::NotWritten("io".to_string()), "write"),
        (InstallReply::NotSynced("io".to_string()), "sync"),
    ] {
        let mut answers = with(Inspection::Missing);
        answers.installed = Some(reply);
        assert_eq!(
            refusal(answers),
            format!("cannot {word} FirstMate Buzz bridge /home/fm/bin/fm-buzz.sh: io")
        );
    }
    let mut modeless = with(Inspection::Missing);
    modeless.installed = Some(InstallReply::Written);
    modeless.mode = Some(Err("io".to_string()));
    assert_eq!(refusal(modeless), "cannot inspect bridge permissions: io");
    let mut stuck = with(Inspection::Missing);
    stuck.installed = Some(InstallReply::Written);
    stuck.mode = Some(Ok(Some(0o100644)));
    stuck.changed = Some(Err("io".to_string()));
    assert_eq!(
        refusal(stuck),
        "cannot make FirstMate Buzz bridge executable: io"
    );
}

#[test]
fn permissions_change_only_where_nobody_may_run_the_file() {
    assert!(matches!(
        ensure_executable(false, &None, &None),
        PermissionStep::Done(Ok(()))
    ));
    assert!(matches!(
        ensure_executable(true, &None, &None),
        PermissionStep::ReadMode
    ));
    assert!(matches!(
        ensure_executable(true, &Some(Ok(Some(0o100604))), &None),
        PermissionStep::SetMode(0o100704)
    ));
    assert!(matches!(
        ensure_executable(true, &Some(Ok(Some(0o100610))), &None),
        PermissionStep::Done(Ok(()))
    ));
    assert!(matches!(
        ensure_executable(true, &Some(Ok(None)), &None),
        PermissionStep::Done(Ok(()))
    ));
}
