use buzz_firstmate::path::FsPath;
use buzz_firstmate::working_directory::{
    validate_firstmate_home, validate_record_working_directory, validate_working_directory,
    DirectoryProbe, FileKind, HomeProbe, ManagedAgentRecord, Resolution,
};

fn found(kind: FileKind) -> DirectoryProbe {
    DirectoryProbe::Found {
        kind,
        resolved: Ok(Resolution {
            canonical: FsPath::from_text("/real/home"),
            kind: Ok(FileKind::Directory),
        }),
    }
}

fn real_home() -> HomeProbe {
    HomeProbe {
        agents_file: Some(FileKind::File),
        bin: Some(FileKind::Directory),
        state: Some(FileKind::Directory),
    }
}

#[test]
fn rejects_relative_missing_and_file_paths() {
    assert_eq!(
        validate_working_directory(
            Some(FsPath::from_text("relative")),
            &found(FileKind::Directory)
        ),
        Err("working directory must be an absolute path".to_string())
    );
    assert_eq!(
        validate_working_directory(
            Some(FsPath::from_text("/definitely/missing/buzz-home")),
            &DirectoryProbe::Missing
        ),
        Err("working directory does not exist: /definitely/missing/buzz-home".to_string())
    );
    assert_eq!(
        validate_working_directory(
            Some(FsPath::from_text("/tmp/buzz-working-dir-file")),
            &found(FileKind::File)
        ),
        Err("working directory must be a directory".to_string())
    );
}

#[test]
fn rejects_symlink_path() {
    assert_eq!(
        validate_working_directory(
            Some(FsPath::from_text("/tmp/link")),
            &found(FileKind::Symlink)
        ),
        Err("working directory must not be a symlink".to_string())
    );
}

#[test]
fn rejects_symlinked_firstmate_contract_paths() {
    let home = FsPath::from_text("/tmp/home");
    for required in ["AGENTS.md", "bin", "state"] {
        let mut probe = real_home();
        match required {
            "AGENTS.md" => probe.agents_file = Some(FileKind::Symlink),
            "bin" => probe.bin = Some(FileKind::Symlink),
            _ => probe.state = Some(FileKind::Symlink),
        }
        assert_eq!(
            validate_firstmate_home(&home, &probe),
            Err(format!(
                "FirstMate home required path must not be a symlink: /tmp/home/{required}"
            ))
        );
    }
}

#[test]
fn answers_with_the_canonical_directory() {
    assert_eq!(
        validate_working_directory(
            Some(FsPath::from_text("/tmp/../tmp/home")),
            &found(FileKind::Directory)
        ),
        Ok(Some(FsPath::from_text("/real/home")))
    );
    assert_eq!(
        validate_working_directory(None, &DirectoryProbe::Missing),
        Ok(None)
    );
}

#[test]
fn rejects_what_does_not_resolve_to_a_directory() {
    let path = || Some(FsPath::from_text("/tmp/home"));
    let probe = |resolved| DirectoryProbe::Found {
        kind: FileKind::Directory,
        resolved,
    };
    assert_eq!(
        validate_working_directory(path(), &probe(Err("loop".to_string()))),
        Err("failed to canonicalize working directory: loop".to_string())
    );
    assert_eq!(
        validate_working_directory(
            path(),
            &probe(Ok(Resolution {
                canonical: FsPath::from_text("/real"),
                kind: Err("denied".to_string())
            }))
        ),
        Err("failed to inspect working directory: denied".to_string())
    );
    for kind in [FileKind::File, FileKind::Symlink, FileKind::Other] {
        assert_eq!(
            validate_working_directory(
                path(),
                &probe(Ok(Resolution {
                    canonical: FsPath::from_text("/real"),
                    kind: Ok(kind)
                }))
            ),
            Err("working directory must resolve to a real directory".to_string())
        );
    }
}

#[test]
fn home_must_hold_its_three_paths() {
    let home = FsPath::from_text("/tmp/home");
    assert_eq!(validate_firstmate_home(&home, &real_home()), Ok(()));
    let mut probe = real_home();
    probe.agents_file = None;
    assert_eq!(
        validate_firstmate_home(&home, &probe),
        Err("FirstMate home is missing required file: /tmp/home/AGENTS.md".to_string())
    );
    let mut probe = real_home();
    probe.state = None;
    assert_eq!(
        validate_firstmate_home(&home, &probe),
        Err("FirstMate home is missing required directory: /tmp/home/state".to_string())
    );
    let mut probe = real_home();
    probe.bin = Some(FileKind::File);
    assert_eq!(
        validate_firstmate_home(&home, &probe),
        Err("FirstMate home must contain AGENTS.md, bin/, and state/".to_string())
    );
}

#[test]
fn only_a_firstmate_needs_a_home() {
    let nothing = HomeProbe {
        agents_file: None,
        bin: None,
        state: None,
    };
    let mut record = ManagedAgentRecord {
        firstmate: false,
        working_directory: None,
    };
    assert_eq!(
        validate_record_working_directory(&record, &DirectoryProbe::Missing, &nothing),
        Ok(None)
    );
    record.working_directory = Some(FsPath::from_text("/tmp/home"));
    assert_eq!(
        validate_record_working_directory(&record, &found(FileKind::Directory), &nothing),
        Ok(Some(FsPath::from_text("/real/home")))
    );
    record.firstmate = true;
    assert_eq!(
        validate_record_working_directory(&record, &found(FileKind::Directory), &nothing),
        Err("FirstMate home is missing required file: /real/home/AGENTS.md".to_string())
    );
    assert_eq!(
        validate_record_working_directory(&record, &found(FileKind::Directory), &real_home()),
        Ok(Some(FsPath::from_text("/real/home")))
    );
    record.working_directory = None;
    assert_eq!(
        validate_record_working_directory(&record, &DirectoryProbe::Missing, &real_home()),
        Err("FirstMate agents require a FirstMate working directory".to_string())
    );
}
