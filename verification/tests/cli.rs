use buzz_firstmate::cli::{
    lease_on_started_server, prove_absence, prove_endpoint, read_created_endpoint,
    read_reported_socket, CliStep, HerdrCliBroker, HerdrCommand,
};
use buzz_firstmate::command::CommandReply;
use buzz_firstmate::fleet::DEFAULT_HERDR_SESSION;
use buzz_firstmate::identity::{
    HerdrManagedAgentIdentity, HerdrParentIdentity, HerdrSessionLease, HerdrWorkspaceRequest,
    HomeLookup,
};
use buzz_firstmate::json::parse_json;
use buzz_firstmate::path::FsPath;

fn broker() -> HerdrCliBroker {
    HerdrCliBroker::from_executable(FsPath::from_text("/opt/bin/herdr"))
}

fn printed(stdout: &str) -> CommandReply {
    CommandReply::Exited {
        success: true,
        status: "exit status: 0".to_string(),
        stdout: stdout.as_bytes().to_vec(),
        stderr: Vec::new(),
    }
}

fn failed(stderr: &str) -> CommandReply {
    CommandReply::Exited {
        success: false,
        status: "exit status: 1".to_string(),
        stdout: Vec::new(),
        stderr: stderr.as_bytes().to_vec(),
    }
}

fn running(socket: &str) -> CommandReply {
    printed(&format!(
        "{{\"server\": {{\"running\": true, \"socket\": \"{socket}\"}}}}"
    ))
}

fn idle() -> CommandReply {
    printed("{\"server\": {\"running\": false}}")
}

fn parent() -> HerdrParentIdentity {
    HerdrParentIdentity {
        session: "buzz-firstmate".to_string(),
        socket_path: FsPath::from_text("/tmp/herdr.sock"),
        workspace_id: "w2".to_string(),
        root_tab_id: "w2:t1".to_string(),
        root_pane_id: "w2:p1".to_string(),
    }
}

fn lease(started_by_buzz: bool) -> HerdrSessionLease {
    HerdrSessionLease {
        session: "buzz-firstmate".to_string(),
        socket_path: FsPath::from_text("/tmp/herdr.sock"),
        lease_id: "l".to_string(),
        started_by_buzz,
    }
}

fn atlas() -> HerdrManagedAgentIdentity {
    HerdrManagedAgentIdentity::new(
        "atlas",
        HomeLookup::Directory(FsPath::from_text("/homes/atlas")),
    )
    .unwrap()
}

fn command_of<T: std::fmt::Debug>(step: CliStep<T>) -> HerdrCommand {
    match step {
        CliStep::Run {
            after_millis: 0,
            command,
        } => command,
        other => panic!("{other:?}"),
    }
}

fn result_of<T: std::fmt::Debug>(step: CliStep<T>) -> Result<T, String> {
    match step {
        CliStep::Done(result) => result,
        other => panic!("{other:?}"),
    }
}

const LIST: &str = r#"{"result": {"workspaces": [{"workspace_id": "w1"}, {"workspace_id": "w2"}]}}"#;
const TAB: &str =
    r#"{"id": "cli", "result": {"tab": {"tab_id": "w2:t1", "workspace_id": "w2"}}}"#;
const PANE: &str = r#"{"id": "cli", "result": {"pane": {"pane_id": "w2:p1", "tab_id": "w2:t1", "workspace_id": "w2", "foreground_cwd": "/homes/atlas"}}}"#;

#[test]
fn cli_places_global_session_before_the_operation() {
    let command = broker().command(DEFAULT_HERDR_SESSION, &["workspace", "list"]);
    assert_eq!(
        command.arguments,
        ["--session", DEFAULT_HERDR_SESSION, "workspace", "list"]
    );
    assert_eq!(command.program.display(), "/opt/bin/herdr");
    assert_eq!(
        command.removed,
        vec![
            "HERDR_ENV",
            "HERDR_SOCKET_PATH",
            "HERDR_WORKSPACE_ID",
            "HERDR_TAB_ID",
            "HERDR_PANE_ID"
        ]
    );
}

#[test]
fn output_is_text_or_a_reason() {
    assert_eq!(
        HerdrCliBroker::output(&printed("hello\n")),
        Ok("hello\n".to_string())
    );
    assert_eq!(
        HerdrCliBroker::output(&failed("  no such session \n")),
        Err("Herdr command failed (exit status: 1): no such session".to_string())
    );
    assert_eq!(
        HerdrCliBroker::output(&CommandReply::NotStarted("missing".to_string())),
        Err("failed to execute Herdr: missing".to_string())
    );
    let broken = CommandReply::Exited {
        success: true,
        status: "exit status: 0".to_string(),
        stdout: vec![b'a', 0xff, b'b'],
        stderr: Vec::new(),
    };
    assert_eq!(
        HerdrCliBroker::output(&broken),
        Ok(String::from_utf8_lossy(&[b'a', 0xff, b'b']).into_owned())
    );
}

#[test]
fn output_that_is_not_json_names_the_operation() {
    let message = HerdrCliBroker::json_output(&printed("ok"), &["tab", "get", "t1"]).unwrap_err();
    assert_eq!(
        message,
        format!(
            "Herdr returned invalid JSON for tab get t1: {}",
            serde_json::from_str::<serde_json::Value>("ok").unwrap_err()
        )
    );
}

#[test]
fn socket_is_reported_by_a_running_server_only() {
    assert_eq!(
        HerdrCliBroker::status_socket(&running("/tmp/herdr.sock")),
        Ok(Some(FsPath::from_text("/tmp/herdr.sock")))
    );
    assert_eq!(HerdrCliBroker::status_socket(&idle()), Ok(None));
    assert_eq!(HerdrCliBroker::status_socket(&printed("[]")), Ok(None));
    assert_eq!(
        HerdrCliBroker::status_socket(&printed("{\"server\": {\"running\": \"true\"}}")),
        Ok(None)
    );
    let refused = Err("Herdr status JSON did not report an absolute socket path".to_string());
    assert_eq!(HerdrCliBroker::status_socket(&running("herdr.sock")), refused);
    assert_eq!(
        read_reported_socket(&parse_json("{\"server\": {\"running\": true}}").unwrap()),
        refused
    );
}

#[test]
fn running_session_is_adopted() {
    let broker = broker();
    let first = command_of(broker.ensure_or_adopt_session("buzz-firstmate", &[], &None));
    assert_eq!(
        first.arguments,
        ["--session", "buzz-firstmate", "status", "--json"]
    );
    let lease = result_of(broker.ensure_or_adopt_session(
        "buzz-firstmate",
        &[running("/tmp/herdr.sock")],
        &None,
    ))
    .unwrap();
    assert_eq!(lease.lease_id, "adopt:buzz-firstmate");
    assert!(!lease.started_by_buzz);
    assert_eq!(lease.socket_path, FsPath::from_text("/tmp/herdr.sock"));
}

#[test]
fn idle_session_is_started_and_awaited() {
    let broker = broker();
    match broker.ensure_or_adopt_session("buzz-firstmate", &[idle()], &None) {
        CliStep::Start(command) => {
            assert_eq!(command.arguments, ["--session", "buzz-firstmate", "server"])
        }
        other => panic!("{other:?}"),
    }
    match broker.ensure_or_adopt_session("buzz-firstmate", &[idle()], &Some(Ok(()))) {
        CliStep::Run {
            after_millis,
            command,
        } => {
            assert_eq!(after_millis, 100);
            assert_eq!(
                command.arguments,
                ["--session", "buzz-firstmate", "status", "--json"]
            );
        }
        other => panic!("{other:?}"),
    }
    let replies = [idle(), idle(), idle(), running("/tmp/herdr.sock")];
    let lease = |replies: &[CommandReply]| {
        result_of(broker.ensure_or_adopt_session("buzz-firstmate", replies, &Some(Ok(())))).unwrap()
    };
    let granted = lease(&replies);
    assert!(granted.started_by_buzz);
    let token = granted.lease_id.strip_prefix("buzz:buzz-firstmate:").unwrap();
    let parsed = uuid::Uuid::parse_str(token).unwrap();
    assert_eq!(parsed.get_version_num(), 4);
    assert_eq!(parsed.to_string(), token);
    assert_ne!(lease(&replies).lease_id, granted.lease_id);
    assert_eq!(
        lease_on_started_server("s", FsPath::from_text("/x"), "t").lease_id,
        "buzz:s:t"
    );
}

#[test]
fn session_that_cannot_be_had_is_refused() {
    let broker = broker();
    let refusal = |replies: &[CommandReply], started: Option<Result<(), String>>| {
        result_of(broker.ensure_or_adopt_session("buzz-firstmate", replies, &started)).unwrap_err()
    };
    assert_eq!(
        refusal(&[failed("boom")], None),
        "Herdr command failed (exit status: 1): boom"
    );
    assert_eq!(
        refusal(&[idle()], Some(Err("denied".to_string()))),
        "failed to start dedicated Herdr server: denied"
    );
    let mut replies = vec![idle()];
    for _ in 0..19 {
        replies.push(idle());
    }
    assert!(matches!(
        broker.ensure_or_adopt_session("buzz-firstmate", &replies, &Some(Ok(()))),
        CliStep::Run { .. }
    ));
    replies.push(idle());
    assert_eq!(
        refusal(&replies, Some(Ok(()))),
        "dedicated Herdr server did not become ready"
    );
    assert_eq!(
        refusal(&[idle(), failed("late")], Some(Ok(()))),
        "Herdr command failed (exit status: 1): late"
    );
    assert_eq!(
        result_of(broker.ensure_or_adopt_session("default", &[running("/s")], &None)).unwrap_err(),
        "FirstMate managed agents must not adopt Herdr's default session"
    );
}

#[test]
fn workspace_is_created_in_the_home_with_a_label() {
    let request = HerdrWorkspaceRequest { identity: atlas() };
    let command = command_of(broker().ensure_workspace(&lease(true), &request, &[]));
    let label = format!("firstmate-atlas-{}", &atlas().home_sha256[..12]);
    assert_eq!(
        command.arguments,
        [
            "--session",
            "buzz-firstmate",
            "workspace",
            "create",
            "--cwd",
            "/homes/atlas",
            "--label",
            label.as_str(),
            "--no-focus"
        ]
    );
    let created = result_of(broker().ensure_workspace(
        &lease(true),
        &request,
        &[printed(
            r#"{"result": {"workspace_id": "w2", "tab_id": "w2:t1", "pane": {"pane_id": "w2:p1"}}}"#,
        )],
    ))
    .unwrap();
    assert_eq!(created, parent());
}

#[test]
fn creation_response_must_name_all_ids() {
    let created = |text: &str| {
        read_created_endpoint(&lease(true), &parse_json(text).unwrap()).unwrap_err()
    };
    assert_eq!(
        created("{}"),
        "Herdr response omitted required field workspace_id"
    );
    assert_eq!(
        created(r#"{"workspace_id": "w"}"#),
        "Herdr response omitted required field root_tab_id or tab_id"
    );
    assert_eq!(
        created(r#"{"workspace_id": "w", "root_tab_id": "t"}"#),
        "Herdr response omitted required field root_pane_id or pane_id"
    );
    let request = HerdrWorkspaceRequest { identity: atlas() };
    assert_eq!(
        result_of(broker().ensure_workspace(&lease(true), &request, &[failed("full")]))
            .unwrap_err(),
        "Herdr command failed (exit status: 1): full"
    );
}

#[test]
fn preflight_asks_in_order_and_accepts_the_exact_endpoint() {
    let broker = broker();
    let replies = [
        running("/tmp//herdr.sock"),
        printed(LIST),
        printed(TAB),
        printed(PANE),
    ];
    let asked: Vec<Vec<String>> = (0..4)
        .map(|n| command_of(broker.preflight(&parent(), &atlas(), &replies[..n])).arguments)
        .collect();
    assert_eq!(asked[0][2..], ["status", "--json"]);
    assert_eq!(asked[1][2..], ["workspace", "list"]);
    assert_eq!(asked[2][2..], ["tab", "get", "w2:t1"]);
    assert_eq!(asked[3][2..], ["pane", "get", "w2:p1"]);
    assert_eq!(
        result_of(broker.preflight(&parent(), &atlas(), &replies)),
        Ok(())
    );
}

#[test]
fn preflight_refuses_what_it_cannot_prove() {
    let broker = broker();
    let refusal = |replies: &[CommandReply]| {
        result_of(broker.preflight(&parent(), &atlas(), replies)).unwrap_err()
    };
    assert_eq!(refusal(&[idle()]), "dedicated Herdr session is not running");
    assert_eq!(
        refusal(&[running("/tmp/other.sock")]),
        "Herdr session socket differs from the persisted endpoint"
    );
    assert_eq!(
        refusal(&[running("/tmp/herdr.sock"), failed("x")]),
        "Herdr command failed (exit status: 1): x"
    );
    let mut incomplete = parent();
    incomplete.root_pane_id = " ".to_string();
    assert_eq!(
        result_of(broker.preflight(&incomplete, &atlas(), &[])).unwrap_err(),
        "Herdr parent identity is incomplete"
    );
    let doubt = |list: &str, tab: &str, pane: &str| {
        prove_endpoint(
            &parent(),
            &atlas(),
            &parse_json(list).unwrap(),
            &parse_json(tab).unwrap(),
            &parse_json(pane).unwrap(),
        )
        .unwrap_err()
    };
    assert_eq!(
        doubt(r#"[{"workspace_id": "w1"}]"#, TAB, PANE),
        "Herdr response does not prove exact workspace_id or id"
    );
    assert_eq!(
        doubt(LIST, r#"{"tab_id": "w1:t1", "workspace_id": "w2"}"#, PANE),
        "Herdr response does not prove exact tab_id"
    );
    assert_eq!(
        doubt(LIST, r#"{"tab_id": "w2:t1", "workspace_id": "w1"}"#, PANE),
        "Herdr response does not prove exact workspace_id"
    );
    assert_eq!(
        doubt(LIST, TAB, r#"{"tab_id": "w2:t1"}"#),
        "Herdr response does not prove exact pane_id"
    );
    assert_eq!(
        doubt(LIST, TAB, r#"{"pane_id": "w2:p1"}"#),
        "Herdr response does not prove exact tab_id"
    );
    assert_eq!(
        doubt(LIST, TAB, r#"{"pane_id": "w2:p1", "tab_id": "w2:t1"}"#),
        "Herdr response does not prove exact workspace_id"
    );
    assert_eq!(
        doubt(LIST, TAB, &PANE.replace("/homes/atlas", "/homes/nova")),
        "Herdr response does not prove exact foreground_cwd"
    );
}

#[test]
fn one_pane_is_proved_for_one_home_only() {
    let nova = HerdrManagedAgentIdentity::new(
        "nova",
        HomeLookup::Directory(FsPath::from_text("/homes/nova")),
    )
    .unwrap();
    let replies = [
        running("/tmp/herdr.sock"),
        printed(LIST),
        printed(TAB),
        printed(PANE),
    ];
    assert!(result_of(broker().preflight(&parent(), &atlas(), &replies)).is_ok());
    assert_eq!(
        result_of(broker().preflight(&parent(), &nova, &replies)).unwrap_err(),
        "Herdr response does not prove exact foreground_cwd"
    );
}

#[test]
fn release_closes_the_workspace_and_proves_its_absence() {
    let broker = broker();
    assert_eq!(
        command_of(broker.release_workspace(&parent(), &[])).arguments[2..],
        ["workspace", "close", "w2"]
    );
    assert_eq!(
        command_of(broker.release_workspace(&parent(), &[printed("closed")])).arguments[2..],
        ["workspace", "list"]
    );
    assert_eq!(
        result_of(broker.release_workspace(&parent(), &[printed(""), printed("[]")])),
        Ok(())
    );
    assert_eq!(
        result_of(broker.release_workspace(&parent(), &[printed(""), printed(LIST)])),
        Err("Herdr workspace remained after exact close".to_string())
    );
    assert_eq!(
        result_of(broker.release_workspace(&parent(), &[failed("no")])),
        Err("Herdr command failed (exit status: 1): no".to_string())
    );
    assert_eq!(
        prove_absence(&parent(), &parse_json(r#"[{"id": "w1"}]"#).unwrap()),
        Ok(())
    );
    assert_eq!(
        prove_absence(&parent(), &parse_json(r#"[{"id": "w2"}]"#).unwrap()),
        Err("Herdr workspace remained after exact close".to_string())
    );
    let mut relative = parent();
    relative.socket_path = FsPath::from_text("s");
    assert_eq!(
        result_of(broker.release_workspace(&relative, &[])),
        Err("Herdr socket path must be absolute".to_string())
    );
}

#[test]
fn only_a_started_server_is_stopped() {
    let broker = broker();
    assert_eq!(
        result_of(broker.stop_session(&lease(false), &[])),
        Err("refusing to stop an adopted Herdr session".to_string())
    );
    assert_eq!(
        command_of(broker.stop_session(&lease(true), &[])).arguments,
        ["--session", "buzz-firstmate", "server", "stop"]
    );
    assert_eq!(
        result_of(broker.stop_session(&lease(true), &[printed("")])),
        Ok(())
    );
    assert!(result_of(broker.stop_session(&lease(true), &[failed("x")])).is_err());
}
