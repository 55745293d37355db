use buzz_firstmate::command::CommandReply;
use buzz_firstmate::lifecycle::{
    parse_firstmate_stop_report, prepare_firstmate_stop, read_handoff_reply,
    supervisor_attestation, FirstMateStopDisposition, LeaseProbe, StopProbe, StopStep,
};
use buzz_firstmate::path::FsPath;
use buzz_firstmate::working_directory::{
    DirectoryProbe, FileKind, HomeProbe, ManagedAgentRecord, Resolution,
};

#[test]
fn accepts_safe_and_supervision_transfer_only() {
    assert_eq!(
        parse_firstmate_stop_report("safe\n"),
        Ok(FirstMateStopDisposition::Safe)
    );
    assert_eq!(
        parse_firstmate_stop_report("supervision-transferred\n"),
        Ok(FirstMateStopDisposition::SupervisionTransferred)
    );
}

#[test]
fn fails_closed_on_refusal_or_unknown_report() {
    assert!(parse_firstmate_stop_report("refused: active work\n").is_err());
    assert!(parse_firstmate_stop_report("maybe\n").is_err());
    assert!(parse_firstmate_stop_report("").is_err());
}

fn lease(contents: &str) -> LeaseProbe {
    LeaseProbe {
        kind: Some(FileKind::File),
        contents: Some(contents.to_string()),
    }
}

#[test]
fn accepts_only_a_home_bound_lease_for_a_tracked_harness() {
    let home = FsPath::from_text("/tmp/firstmate-home");
    let own = lease("version=1\nhome=/tmp/firstmate-home\npid=42\ngeneration=7\n");
    assert_eq!(supervisor_attestation(&home, &own, &[41, 42]), Some((42, 7)));
    assert_eq!(supervisor_attestation(&home, &own, &[41]), None);
    let foreign = lease("version=1\nhome=/tmp/foreign\npid=42\ngeneration=7\n");
    assert_eq!(supervisor_attestation(&home, &foreign, &[42]), None);
}

#[test]
fn report_texts_are_exact() {
    assert_eq!(
        parse_firstmate_stop_report("refused: refused:  active work \nmore"),
        Err("FirstMate refused ordinary stop: refused:  active work".to_string())
    );
    assert_eq!(
        parse_firstmate_stop_report("refused:refused: x"),
        Err("FirstMate refused ordinary stop: x".to_string())
    );
    assert_eq!(
        parse_firstmate_stop_report("say \"hi\"\t\r\nsafe"),
        Err(
            "FirstMate lifecycle returned an unrecognized stop report: \"say \\\"hi\\\"\""
                .to_string()
        )
    );
    assert_eq!(
        parse_firstmate_stop_report("\nsafe\n"),
        Err("FirstMate lifecycle returned an unrecognized stop report: \"\"".to_string())
    );
    assert_eq!(
        parse_firstmate_stop_report("  safe \r\nrefused: x"),
        Ok(FirstMateStopDisposition::Safe)
    );
}

#[test]
fn leases_that_are_not_clear_attest_nothing() {
    let home = FsPath::from_text("/h");
    let attests = |contents: &str| supervisor_attestation(&home, &lease(contents), &[42]);
    assert_eq!(
        attests("generation=+7\npid=42\nhome=/h\nversion=1"),
        Some((42, 7))
    );
    assert_eq!(
        attests("version=1\r\nhome=/h\r\npid=0042\r\ngeneration=18446744073709551615"),
        Some((42, u64::MAX))
    );
    assert_eq!(attests("version=2\nhome=/h\npid=42\ngeneration=7"), None);
    assert_eq!(attests("version=1\nhome=/h\npid=42"), None);
    assert_eq!(attests("version=1\nhome=/h\ngeneration=7"), None);
    assert_eq!(attests("version=1\npid=42\ngeneration=7"), None);
    assert_eq!(
        attests("version=1\nhome=/h\npid=42\ngeneration=7\npid=42"),
        None
    );
    assert_eq!(
        attests("version=1\nhome=/h\npid=42\ngeneration=7\nowner=x"),
        None
    );
    assert_eq!(attests("version=1\nhome=/h\npid=42\ngeneration=7\n\n"), None);
    assert_eq!(attests("version=1\nhome=/h\npid=4294967338\ngeneration=7"), None);
    assert_eq!(
        attests("version=1\nhome=/h\npid=42\ngeneration=18446744073709551616"),
        None
    );
    assert_eq!(attests("version=1\nhome=/h\npid=-42\ngeneration=7"), None);
    assert_eq!(attests("version=1\nhome=/h\npid=\ngeneration=7"), None);
    assert_eq!(attests(""), None);
    let mut linked = lease("version=1\nhome=/h\npid=42\ngeneration=7");
    linked.kind = Some(FileKind::Symlink);
    assert_eq!(supervisor_attestation(&home, &linked, &[42]), None);
    linked.kind = None;
    assert_eq!(supervisor_attestation(&home, &linked, &[42]), None);
    let unread = LeaseProbe {
        kind: Some(FileKind::File),
        contents: None,
    };
    assert_eq!(supervisor_attestation(&home, &unread, &[42]), None);
}

#[test]
fn home_without_a_text_is_named_by_no_lease() {
    let home = FsPath::from_bytes(vec![b'/', 0xff]);
    assert_eq!(
        supervisor_attestation(&home, &lease("version=1\npid=42\ngeneration=7"), &[42]),
        None
    );
    assert_eq!(
        supervisor_attestation(
            &home,
            &lease("version=1\nhome=/\u{fffd}\npid=42\ngeneration=7"),
            &[42]
        ),
        None
    );
}

fn record(firstmate: bool) -> ManagedAgentRecord {
    ManagedAgentRecord {
        firstmate,
        working_directory: Some(FsPath::from_text("/home/fm")),
    }
}

fn probe() -> StopProbe {
    StopProbe {
        directory: DirectoryProbe::Found {
            kind: FileKind::Directory,
            resolved: Ok(Resolution {
                canonical: FsPath::from_text("/home/fm"),
                kind: Ok(FileKind::Directory),
            }),
        },
        home: HomeProbe {
            agents_file: Some(FileKind::File),
            bin: Some(FileKind::Directory),
            state: Some(FileKind::Directory),
        },
        lifecycle: Ok(FileKind::File),
        lease: lease("version=1\nhome=/home/fm\npid=42\ngeneration=7\n"),
    }
}

fn exited(success: bool, stdout: &str, stderr: &str) -> CommandReply {
    CommandReply::Exited {
        success,
        status: if success { "exit status: 0" } else { "exit status: 3" }.to_string(),
        stdout: stdout.as_bytes().to_vec(),
        stderr: stderr.as_bytes().to_vec(),
    }
}

fn verdict(step: StopStep) -> Result<(), String> {
    match step {
        StopStep::Done(result) => result,
        StopStep::Run(command) => panic!("{command:?}"),
    }
}

#[test]
fn stop_runs_the_lifecycle_command_of_the_home() {
    let command = match prepare_firstmate_stop(&record(true), &[42], &probe(), None) {
        StopStep::Run(command) => command,
        StopStep::Done(result) => panic!("{result:?}"),
    };
    assert_eq!(command.program.display(), "/home/fm/bin/fm-buzz-lifecycle.sh");
    assert_eq!(command.arguments, vec!["prepare-stop"]);
    assert_eq!(command.directory.display(), "/home/fm");
    assert_eq!(
        command.removed,
        vec![
            "BUZZ_FIRSTMATE_HARNESS_PID",
            "BUZZ_FIRSTMATE_SUPERVISOR_GENERATION"
        ]
    );
    assert_eq!(
        command.settings,
        vec![
            ("FM_HOME", b"/home/fm".to_vec()),
            ("BUZZ_FIRSTMATE_HARNESS_PID", b"42".to_vec()),
            ("BUZZ_FIRSTMATE_SUPERVISOR_GENERATION", b"7".to_vec()),
        ]
    );
    let unattested = match prepare_firstmate_stop(&record(true), &[41], &probe(), None) {
        StopStep::Run(command) => command,
        StopStep::Done(result) => panic!("{result:?}"),
    };
    assert_eq!(unattested.settings, vec![("FM_HOME", b"/home/fm".to_vec())]);
}

#[test]
fn stop_goes_ahead_only_on_a_clear_report() {
    let stop = |reply: CommandReply| {
        verdict(prepare_firstmate_stop(
            &record(true),
            &[42],
            &probe(),
            Some(&reply),
        ))
    };
    assert_eq!(stop(exited(true, "safe\n", "")), Ok(()));
    assert_eq!(stop(exited(true, "supervision-transferred", "")), Ok(()));
    assert_eq!(
        stop(exited(true, "refused: two crewmates", "")),
        Err("FirstMate refused ordinary stop: two crewmates".to_string())
    );
    assert_eq!(
        stop(exited(false, "safe\n", " broken pipe\n")),
        Err("FirstMate lifecycle command failed (exit status: 3): broken pipe".to_string())
    );
    assert_eq!(
        stop(exited(false, "safe\n", " \n")),
        Err("FirstMate lifecycle command failed (exit status: 3)".to_string())
    );
    assert_eq!(
        stop(CommandReply::NotStarted("permission denied".to_string())),
        Err("failed to run FirstMate lifecycle command: permission denied".to_string())
    );
    assert_eq!(read_handoff_reply(&exited(true, "safe", "")), Ok(()));
}

#[test]
fn stop_needs_a_home_with_a_lifecycle_command() {
    let mut missing = probe();
    missing.lifecycle = Err("not found".to_string());
    assert_eq!(
        verdict(prepare_firstmate_stop(&record(true), &[], &missing, None)),
        Err("FirstMate lifecycle command is unavailable: not found".to_string())
    );
    let mut linked = probe();
    linked.lifecycle = Ok(FileKind::Symlink);
    assert_eq!(
        verdict(prepare_firstmate_stop(&record(true), &[], &linked, None)),
        Err(
            "FirstMate lifecycle command is not a regular file: /home/fm/bin/fm-buzz-lifecycle.sh"
                .to_string()
        )
    );
    let mut homeless = probe();
    homeless.directory = DirectoryProbe::Missing;
    assert_eq!(
        verdict(prepare_firstmate_stop(&record(true), &[], &homeless, None)),
        Err("working directory does not exist: /home/fm".to_string())
    );
}

#[test]
fn other_agents_stop_unasked() {
    let mut broken = probe();
    broken.directory = DirectoryProbe::Missing;
    assert_eq!(
        verdict(prepare_firstmate_stop(&record(false), &[], &broken, None)),
        Ok(())
    );
}
