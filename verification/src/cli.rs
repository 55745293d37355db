//! The broker for the dedicated Herdr session, over the command line of Herdr.
//!
//! Every command carries `--session`; ambient settings and the user's default session are never
//! used. Responses are read strictly: output that is not understood is an error, not an invitation
//! to recover by label.
//!
//! The surrounding program runs the commands. Each operation here is a function of the replies so
//! far: it answers with the next command, or with the verdict.

use vstd::prelude::*;
use vstd::utf8::{decode_utf8, encode_utf8, is_char_boundary};

use crate::command::CommandReply;
use crate::contract::{inherited_herdr_env, inherited_names};
use crate::encoding::{show, shown_text};
use crate::fleet::{session_refusal, validate_dedicated_session};
use crate::identity::{
    HerdrManagedAgentIdentity, HerdrParentIdentity, HerdrSessionLease, HerdrWorkspaceRequest,
    IdentityModel, LeaseModel, ParentModel,
};
use crate::json::{
    holds_text, json_contains_exact_string, json_has_exact_string, json_reading,
    json_required_string, member, parse_json, required_text, unproved_text, JsonTree, JsonValue,
};
use crate::outcome::{optional_outcome, outcome, verdict};
use crate::path::{absolute, same_path, FsPath};
use crate::text::{join, joined, texts, trim, trimmed, words};

verus! {

/// Model of [`HerdrCommand`].
#[verifier::ext_equal]
pub struct CommandModel {
    pub program: Seq<u8>,
    pub removed: Seq<Seq<char>>,
    pub arguments: Seq<Seq<char>>,
}

/// A command of Herdr to run.
#[derive(Debug)]
pub struct HerdrCommand {
    pub program: FsPath,
    /// The names of the environment settings to remove.
    pub removed: Vec<&'static str>,
    pub arguments: Vec<String>,
}

impl View for HerdrCommand {
    type V = CommandModel;

    open spec fn view(&self) -> CommandModel {
        CommandModel {
            program: self.program@,
            removed: words(self.removed@),
            arguments: texts(self.arguments@),
        }
    }
}

/// Model of [`CliStep`].
#[verifier::ext_equal]
pub enum StepModel<M> {
    Run { after_millis: u64, command: CommandModel },
    Start(CommandModel),
    Done(Result<M, Seq<char>>),
}

/// What to do next for an operation.
#[derive(Debug)]
pub enum CliStep<T> {
    /// Wait so many milliseconds, then run this command to its end and add its reply.
    Run { after_millis: u64, command: HerdrCommand },
    /// Start this command in the background, with no input and its output discarded.
    Start(HerdrCommand),
    /// The operation is over.
    Done(Result<T, String>),
}

impl<T: View> View for CliStep<T> {
    type V = StepModel<T::V>;

    open spec fn view(&self) -> StepModel<T::V> {
        match self {
            CliStep::Run { after_millis, command } => StepModel::Run {
                after_millis: *after_millis,
                command: command@,
            },
            CliStep::Start(command) => StepModel::Start(command@),
            CliStep::Done(result) => StepModel::Done(outcome(*result)),
        }
    }
}

/// The command for an operation in a session. `--session` is a global option, so it stands before
/// the operation.
pub open spec fn session_command(
    program: Seq<u8>,
    session: Seq<char>,
    operation: Seq<Seq<char>>,
) -> CommandModel {
    CommandModel {
        program,
        removed: inherited_names(),
        arguments: seq!["--session"@, session] + operation,
    }
}

/// The step that runs an operation at once.
pub open spec fn run_now<M>(
    program: Seq<u8>,
    session: Seq<char>,
    operation: Seq<Seq<char>>,
) -> StepModel<M> {
    StepModel::Run { after_millis: 0, command: session_command(program, session, operation) }
}

/// What a Herdr command printed, or why it failed.
pub open spec fn herdr_output(reply: CommandReply) -> Result<Seq<char>, Seq<char>> {
    match reply {
        CommandReply::NotStarted(error) => Err("failed to execute Herdr: "@ + error@),
        CommandReply::Exited { success, status, stdout, stderr } => if success {
            Ok(shown_text(stdout@))
        } else {
            Err("Herdr command failed ("@ + status@ + "): "@ + trimmed(shown_text(stderr@)))
        },
    }
}

/// What a Herdr command printed, read as JSON.
pub open spec fn herdr_json(reply: CommandReply, operation: Seq<Seq<char>>) -> Result<
    JsonTree,
    Seq<char>,
> {
    match herdr_output(reply) {
        Err(error) => Err(error),
        Ok(text) => match json_reading(text) {
            Ok(tree) => Ok(tree),
            Err(error) => Err(
                "Herdr returned invalid JSON for "@ + joined(operation, " "@) + ": "@ + error,
            ),
        },
    }
}

/// The operation that asks for the state of the session.
pub open spec fn status_operation() -> Seq<Seq<char>> {
    seq!["status"@, "--json"@]
}

/// What stands in a status response under `server` and then under `name`.
pub open spec fn server_fact(status: JsonTree, name: Seq<char>) -> Option<JsonTree> {
    match member(status, "server"@) {
        Some(server) => member(server, name),
        None => None,
    }
}

/// The socket of a running server, nothing where no server runs, or why the response is refused.
pub open spec fn reported_socket(status: JsonTree) -> Result<Option<Seq<u8>>, Seq<char>> {
    if server_fact(status, "running"@) != Some(JsonTree::Bool(true)) {
        Ok(None)
    } else {
        match server_fact(status, "socket"@) {
            Some(JsonTree::Text(path)) if absolute(encode_utf8(path)) => Ok(
                Some(encode_utf8(path)),
            ),
            _ => Err("Herdr status JSON did not report an absolute socket path"@),
        }
    }
}

/// The socket that the reply to a status command reports.
pub open spec fn status_outcome(reply: CommandReply) -> Result<Option<Seq<u8>>, Seq<char>> {
    match herdr_json(reply, status_operation()) {
        Err(error) => Err(error),
        Ok(status) => reported_socket(status),
    }
}

/// What stands in a status response under `server` and then under `name`.
fn find_server_fact<'a>(status: &'a JsonValue, name: &str) -> (r: Option<&'a JsonValue>)
    ensures
        (match r {
            Some(value) => Some(value@),
            None => None,
        }) == server_fact(status@, name@),
{
    match status.get("server") {
        Some(server) => server.get(name),
        None => None,
    }
}

/// The socket of a running server, nothing where no server runs.
pub fn read_reported_socket(status: &JsonValue) -> (r: Result<Option<FsPath>, String>)
    ensures
        optional_outcome(r) == reported_socket(status@),
{
    let running = match find_server_fact(status, "running") {
        Some(value) => value.as_bool(),
        None => None,
    };
    if !matches!(running, Some(true)) {
        return Ok(None);
    }
    if let Some(value) = find_server_fact(status, "socket") {
        if let Some(text) = value.as_str() {
            let path = FsPath::from_text(text);
            if path.is_absolute() {
                return Ok(Some(path));
            }
        }
    }
    Err("Herdr status JSON did not report an absolute socket path".to_owned())
}

/// The broker for the dedicated named Herdr session.
#[derive(Debug)]
pub struct HerdrCliBroker {
    executable: FsPath,
}

impl View for HerdrCliBroker {
    type V = Seq<u8>;

    /// The path of the program that the broker runs.
    closed spec fn view(&self) -> Seq<u8> {
        self.executable@
    }
}

impl HerdrCliBroker {
    /// A broker that runs this program.
    pub fn from_executable(executable: FsPath) -> (r: Self)
        ensures
            r@ == executable@,
    {
        HerdrCliBroker { executable }
    }

    /// The program that the broker runs.
    pub fn executable(&self) -> (r: &FsPath)
        ensures
            r@ == self@,
    {
        &self.executable
    }

    /// The command for an operation in a session.
    pub fn command(&self, session: &str, operation: &[&str]) -> (r: HerdrCommand)
        ensures
            r@ == session_command(self@, session@, words(operation@)),
    {
        let mut arguments: Vec<String> = Vec::new();
        arguments.push("--session".to_owned());
        arguments.push(session.to_owned());
        let ghost head = seq!["--session"@, session@];
        assert(words(operation@).take(0) =~= Seq::<Seq<char>>::empty());
        assert(texts(arguments@) =~= head + words(operation@).take(0));
        let mut i: usize = 0;
        while i < operation.len()
            invariant
                i <= operation@.len(),
                texts(arguments@) == head + words(operation@).take(i as int),
            decreases operation@.len() - i,
        {
            let ghost before = arguments@;
            let argument = operation[i];
            arguments.push(argument.to_owned());
            i += 1;
            assert(texts(arguments@) =~= texts(before).push(argument@));
            assert(words(operation@).take(i as int) =~= words(operation@).take(i - 1).push(
                argument@,
            ));
            assert(texts(arguments@) =~= head + words(operation@).take(i as int));
        }
        assert(words(operation@).take(i as int) =~= words(operation@));
        HerdrCommand {
            program: self.executable.clone(),
            removed: inherited_herdr_env(),
            arguments,
        }
    }

    /// The step that runs an operation at once.
    fn run<T: View>(&self, session: &str, operation: &[&str]) -> (r: CliStep<T>)
        ensures
            r@ == run_now::<T::V>(self@, session@, words(operation@)),
    {
        CliStep::Run { after_millis: 0, command: self.command(session, operation) }
    }

    /// What a Herdr command printed.
    pub fn output(reply: &CommandReply) -> (r: Result<String, String>)
        ensures
            outcome(r) == herdr_output(*reply),
    {
        match reply {
            CommandReply::NotStarted(error) => Err(
                "failed to execute Herdr: ".to_owned().concat(error.as_str()),
            ),
            CommandReply::Exited { success, status, stdout, stderr } => {
                if *success {
                    Ok(show(stdout.as_slice()))
                } else {
                    let reason = trim(show(stderr.as_slice()).as_str());
                    Err(
                        "Herdr command failed (".to_owned().concat(status.as_str()).concat(
                            "): ",
                        ).concat(reason.as_str()),
                    )
                }
            },
        }
    }

    /// What a Herdr command printed, read as JSON.
    pub fn json_output(reply: &CommandReply, operation: &[&str]) -> (r: Result<JsonValue, String>)
        ensures
            outcome(r) == herdr_json(*reply, words(operation@)),
    {
        match Self::output(reply) {
            Err(error) => Err(error),
            Ok(text) => match parse_json(text.as_str()) {
                Ok(value) => Ok(value),
                Err(error) => Err(
                    "Herdr returned invalid JSON for ".to_owned().concat(
                        join(operation, " ").as_str(),
                    ).concat(": ").concat(error.as_str()),
                ),
            },
        }
    }

    /// The socket that the reply to a status command reports, if a server runs.
    pub fn status_socket(reply: &CommandReply) -> (r: Result<Option<FsPath>, String>)
        ensures
            optional_outcome(r) == status_outcome(*reply),
    {
        let operation: [&str; 2] = ["status", "--json"];
        assert(words(operation@) =~= status_operation());
        match Self::json_output(reply, &operation) {
            Err(error) => Err(error),
            Ok(status) => read_reported_socket(&status),
        }
    }
}

/// How often a server that was started is asked whether it is ready.
pub const SERVER_READY_ATTEMPTS: usize = 20;

/// How long to wait before each time, in milliseconds.
pub const SERVER_READY_WAIT_MS: u64 = 100;

/// A lower-case hexadecimal digit.
pub open spec fn hex_char(c: char) -> bool {
    '0' <= c <= '9' || 'a' <= c <= 'f'
}

/// The form of a random identifier: 32 lower-case hexadecimal digits in five groups with hyphens
/// between them, of which two mark the kind.
pub open spec fn token_form(token: Seq<char>) -> bool {
    &&& token.len() == 36
    &&& forall|i: int|
        0 <= i < 36 ==> if i == 8 || i == 13 || i == 18 || i == 23 {
            #[trigger] token[i] == '-'
        } else {
            hex_char(token[i])
        }
    &&& token[14] == '4'
    &&& token[19] == '8' || token[19] == '9' || token[19] == 'a' || token[19] == 'b'
}

/// One text of that form.
spec fn example_token() -> Seq<char> {
    Seq::new(
        36,
        |i: int|
            if i == 8 || i == 13 || i == 18 || i == 23 {
                '-'
            } else if i == 14 {
                '4'
            } else {
                '8'
            },
    )
}

proof fn lemma_example_token()
    ensures
        token_form(example_token()),
{
}

/// Calls `uuid::Uuid::new_v4` and writes the result with its `Display` form. Which identifier comes
/// back rests on chance; every one has this form.
#[verifier::external_body]
fn fresh_token() -> (r: String)
    ensures
        token_form(r@),
{
    uuid::Uuid::new_v4().to_string()
}

/// The lease on a server that was found running.
pub open spec fn adopted_lease(session: Seq<char>, socket: Seq<u8>) -> LeaseModel {
    LeaseModel {
        session,
        socket_path: socket,
        lease_id: "adopt:"@ + session,
        started_by_buzz: false,
    }
}

/// The lease on a server that was started for it.
pub open spec fn started_lease(
    session: Seq<char>,
    socket: Seq<u8>,
    token: Seq<char>,
) -> LeaseModel {
    LeaseModel {
        session,
        socket_path: socket,
        lease_id: "buzz:"@ + session + ":"@ + token,
        started_by_buzz: true,
    }
}

/// The lease on a server that was started for it, identified by `token`.
pub fn lease_on_started_server(session: &str, socket: FsPath, token: &str) -> (r: HerdrSessionLease)
    ensures
        r@ == started_lease(session@, socket@, token@),
{
    HerdrSessionLease {
        session: session.to_owned(),
        socket_path: socket,
        lease_id: "buzz:".to_owned().concat(session).concat(":").concat(token),
        started_by_buzz: true,
    }
}

/// The next step while a server that was started becomes ready at a socket: `asked` is how often it
/// was asked before these replies.
pub open spec fn ready_step(
    program: Seq<u8>,
    session: Seq<char>,
    asked: nat,
    replies: Seq<CommandReply>,
) -> StepModel<Seq<u8>>
    decreases replies.len(),
{
    if asked >= SERVER_READY_ATTEMPTS {
        StepModel::Done(Err("dedicated Herdr server did not become ready"@))
    } else if replies.len() == 0 {
        StepModel::Run {
            after_millis: SERVER_READY_WAIT_MS,
            command: session_command(program, session, status_operation()),
        }
    } else {
        match status_outcome(replies[0]) {
            Err(error) => StepModel::Done(Err(error)),
            Ok(Some(socket)) => StepModel::Done(Ok(socket)),
            Ok(None) => ready_step(program, session, asked + 1, replies.skip(1)),
        }
    }
}

/// The next step to ensure or adopt the session. The first reply is that of the status command,
/// `started` is what came of starting the server, and the other replies are those of the status
/// commands after that.
pub open spec fn session_step(
    program: Seq<u8>,
    session: Seq<char>,
    replies: Seq<CommandReply>,
    started: Option<Result<(), String>>,
    token: Seq<char>,
) -> StepModel<LeaseModel> {
    if session_refusal(session) is Some {
        StepModel::Done(Err(session_refusal(session)->0))
    } else if replies.len() == 0 {
        run_now(program, session, status_operation())
    } else {
        match status_outcome(replies[0]) {
            Err(error) => StepModel::Done(Err(error)),
            Ok(Some(socket)) => StepModel::Done(Ok(adopted_lease(session, socket))),
            Ok(None) => match started {
                None => StepModel::Start(session_command(program, session, seq!["server"@])),
                Some(Err(error)) => StepModel::Done(
                    Err("failed to start dedicated Herdr server: "@ + error@),
                ),
                Some(Ok(_)) => match ready_step(program, session, 0, replies.skip(1)) {
                    StepModel::Run { after_millis, command } => StepModel::Run {
                        after_millis,
                        command,
                    },
                    StepModel::Start(command) => StepModel::Start(command),
                    StepModel::Done(Err(error)) => StepModel::Done(Err(error)),
                    StepModel::Done(Ok(socket)) => StepModel::Done(
                        Ok(started_lease(session, socket, token)),
                    ),
                },
            },
        }
    }
}

/// The first characters of a fingerprint: those that its first twelve bytes spell.
pub open spec fn short_fingerprint(fingerprint: Seq<char>) -> Seq<char> {
    decode_utf8(encode_utf8(fingerprint).take(12))
}

/// The label that a workspace is created with. It is presentation and is never looked up.
pub open spec fn workspace_label(identity: IdentityModel) -> Seq<char> {
    "firstmate-"@ + identity.managed_agent_id + "-"@ + short_fingerprint(identity.home_sha256)
}

/// The operation that creates the workspace of an owner.
pub open spec fn create_operation(identity: IdentityModel) -> Seq<Seq<char>> {
    seq![
        "workspace"@,
        "create"@,
        "--cwd"@,
        shown_text(identity.canonical_home),
        "--label"@,
        workspace_label(identity),
        "--no-focus"@,
    ]
}

/// The endpoint that a creation response describes, or what the response left out.
pub open spec fn created_endpoint(lease: LeaseModel, response: JsonTree) -> Result<
    ParentModel,
    Seq<char>,
> {
    match (
        required_text(response, seq!["workspace_id"@]),
        required_text(response, seq!["root_tab_id"@, "tab_id"@]),
        required_text(response, seq!["root_pane_id"@, "pane_id"@]),
    ) {
        (Err(error), _, _) => Err(error),
        (Ok(_), Err(error), _) => Err(error),
        (Ok(_), Ok(_), Err(error)) => Err(error),
        (Ok(workspace_id), Ok(root_tab_id), Ok(root_pane_id)) => Ok(
            ParentModel {
                session: lease.session,
                socket_path: lease.socket_path,
                workspace_id,
                root_tab_id,
                root_pane_id,
            },
        ),
    }
}

/// The endpoint that a creation response describes.
pub fn read_created_endpoint(lease: &HerdrSessionLease, response: &JsonValue) -> (r: Result<
    HerdrParentIdentity,
    String,
>)
    ensures
        outcome(r) == created_endpoint(lease@, response@),
{
    let workspace_keys: [&str; 1] = ["workspace_id"];
    let tab_keys: [&str; 2] = ["root_tab_id", "tab_id"];
    let pane_keys: [&str; 2] = ["root_pane_id", "pane_id"];
    proof {
        assert(words(workspace_keys@) =~= seq!["workspace_id"@]);
        assert(words(tab_keys@) =~= seq!["root_tab_id"@, "tab_id"@]);
        assert(words(pane_keys@) =~= seq!["root_pane_id"@, "pane_id"@]);
    }
    let workspace_id = match json_required_string(response, &workspace_keys) {
        Ok(id) => id,
        Err(error) => {
            return Err(error);
        },
    };
    let root_tab_id = match json_required_string(response, &tab_keys) {
        Ok(id) => id,
        Err(error) => {
            return Err(error);
        },
    };
    let root_pane_id = match json_required_string(response, &pane_keys) {
        Ok(id) => id,
        Err(error) => {
            return Err(error);
        },
    };
    Ok(
        HerdrParentIdentity {
            session: lease.session.clone(),
            socket_path: lease.socket_path.clone(),
            workspace_id,
            root_tab_id,
            root_pane_id,
        },
    )
}

/// The next step to create the workspace of an owner.
pub open spec fn workspace_step(
    program: Seq<u8>,
    lease: LeaseModel,
    identity: IdentityModel,
    replies: Seq<CommandReply>,
) -> StepModel<ParentModel> {
    let operation = create_operation(identity);
    if replies.len() == 0 {
        run_now(program, lease.session, operation)
    } else {
        match herdr_json(replies[0], operation) {
            Err(error) => StepModel::Done(Err(error)),
            Ok(response) => StepModel::Done(created_endpoint(lease, response)),
        }
    }
}

/// The first refusal of the two, if there is one.
pub open spec fn first_refusal(a: Option<Seq<char>>, b: Option<Seq<char>>) -> Option<Seq<char>> {
    if a is Some {
        a
    } else {
        b
    }
}

/// The names under which a list of workspaces holds their ids.
pub open spec fn workspace_keys() -> Seq<Seq<char>> {
    seq!["workspace_id"@, "id"@]
}

/// Why the responses do not prove that the endpoint exists and that its root pane stands in the
/// owner's home, if they do not.
pub open spec fn endpoint_doubt(
    parent: ParentModel,
    identity: IdentityModel,
    workspaces: JsonTree,
    tab: JsonTree,
    pane: JsonTree,
) -> Option<Seq<char>> {
    if !holds_text(workspaces, workspace_keys(), parent.workspace_id) {
        Some("Herdr response does not prove exact workspace_id or id"@)
    } else {
        first_refusal(
            unproved_text(tab, seq!["tab_id"@], parent.root_tab_id),
            first_refusal(
                unproved_text(tab, seq!["workspace_id"@], parent.workspace_id),
                first_refusal(
                    unproved_text(pane, seq!["pane_id"@], parent.root_pane_id),
                    first_refusal(
                        unproved_text(pane, seq!["tab_id"@], parent.root_tab_id),
                        first_refusal(
                            unproved_text(pane, seq!["workspace_id"@], parent.workspace_id),
                            unproved_text(
                                pane,
                                seq!["foreground_cwd"@],
                                shown_text(identity.canonical_home),
                            ),
                        ),
                    ),
                ),
            ),
        )
    }
}

/// Whether the first text under `key` is exactly this one.
fn has_exact(value: &JsonValue, key: &str, expected: &str) -> (r: Result<(), String>)
    ensures
        outcome(r) == verdict(unproved_text(value@, seq![key@], expected@)),
{
    let keys: [&str; 1] = [key];
    assert(words(keys@) =~= seq![key@]);
    json_has_exact_string(value, &keys, expected)
}

/// Whether a list of workspaces holds this one.
fn lists_workspace(workspaces: &JsonValue, workspace_id: &str) -> (r: bool)
    ensures
        r == holds_text(workspaces@, workspace_keys(), workspace_id@),
{
    let keys: [&str; 2] = ["workspace_id", "id"];
    assert(words(keys@) =~= workspace_keys());
    json_contains_exact_string(workspaces, &keys, workspace_id)
}

/// Whether the responses prove that the endpoint exists and that its root pane stands in the owner's
/// home.
pub fn prove_endpoint(
    parent: &HerdrParentIdentity,
    identity: &HerdrManagedAgentIdentity,
    workspaces: &JsonValue,
    tab: &JsonValue,
    pane: &JsonValue,
) -> (r: Result<(), String>)
    ensures
        outcome(r) == verdict(
            endpoint_doubt(parent@, identity@, workspaces@, tab@, pane@),
        ),
{
    let workspace_id = parent.workspace_id.as_str();
    let root_tab_id = parent.root_tab_id.as_str();
    let root_pane_id = parent.root_pane_id.as_str();
    if !lists_workspace(workspaces, workspace_id) {
        return Err("Herdr response does not prove exact workspace_id or id".to_owned());
    }
    match has_exact(tab, "tab_id", root_tab_id) {
        Ok(_) => {},
        Err(error) => {
            return Err(error);
        },
    }
    match has_exact(tab, "workspace_id", workspace_id) {
        Ok(_) => {},
        Err(error) => {
            return Err(error);
        },
    }
    match has_exact(pane, "pane_id", root_pane_id) {
        Ok(_) => {},
        Err(error) => {
            return Err(error);
        },
    }
    match has_exact(pane, "tab_id", root_tab_id) {
        Ok(_) => {},
        Err(error) => {
            return Err(error);
        },
    }
    match has_exact(pane, "workspace_id", workspace_id) {
        Ok(_) => {},
        Err(error) => {
            return Err(error);
        },
    }
    let home = identity.canonical_home.display();
    has_exact(pane, "foreground_cwd", home.as_str())
}

/// Why a list of workspaces that was read after a close does not prove that the workspace of the
/// endpoint is gone, if it does not.
pub open spec fn absence_doubt(parent: ParentModel, workspaces: JsonTree) -> Option<Seq<char>> {
    if holds_text(workspaces, workspace_keys(), parent.workspace_id) {
        Some("Herdr workspace remained after exact close"@)
    } else {
        None
    }
}

/// Whether a list of workspaces proves that the workspace of the endpoint is gone.
pub fn prove_absence(parent: &HerdrParentIdentity, workspaces: &JsonValue) -> (r: Result<
    (),
    String,
>)
    ensures
        outcome(r) == verdict(absence_doubt(parent@, workspaces@)),
{
    if lists_workspace(workspaces, parent.workspace_id.as_str()) {
        Err("Herdr workspace remained after exact close".to_owned())
    } else {
        Ok(())
    }
}

/// The operation that lists the workspaces of the session.
pub open spec fn list_operation() -> Seq<Seq<char>> {
    seq!["workspace"@, "list"@]
}

/// The next step to prove an endpoint once its server is known to run at its socket. The replies
/// are those of the three operations below.
pub open spec fn topology_step(
    program: Seq<u8>,
    parent: ParentModel,
    identity: IdentityModel,
    replies: Seq<CommandReply>,
) -> StepModel<()> {
    let get_tab = seq!["tab"@, "get"@, parent.root_tab_id];
    let get_pane = seq!["pane"@, "get"@, parent.root_pane_id];
    if replies.len() == 0 {
        run_now(program, parent.session, list_operation())
    } else {
        match herdr_json(replies[0], list_operation()) {
            Err(error) => StepModel::Done(Err(error)),
            Ok(workspaces) => if replies.len() == 1 {
                run_now(program, parent.session, get_tab)
            } else {
                match herdr_json(replies[1], get_tab) {
                    Err(error) => StepModel::Done(Err(error)),
                    Ok(tab) => if replies.len() == 2 {
                        run_now(program, parent.session, get_pane)
                    } else {
                        match herdr_json(replies[2], get_pane) {
                            Err(error) => StepModel::Done(Err(error)),
                            Ok(pane) => StepModel::Done(
                                verdict(endpoint_doubt(parent, identity, workspaces, tab, pane)),
                            ),
                        }
                    },
                }
            },
        }
    }
}

/// The next step to prove that an endpoint exists and belongs to an owner. The first reply is that
/// of the status command.
pub open spec fn preflight_step(
    program: Seq<u8>,
    parent: ParentModel,
    identity: IdentityModel,
    replies: Seq<CommandReply>,
) -> StepModel<()> {
    if parent.refusal() is Some {
        StepModel::Done(Err(parent.refusal()->0))
    } else if replies.len() == 0 {
        run_now(program, parent.session, status_operation())
    } else {
        match status_outcome(replies[0]) {
            Err(error) => StepModel::Done(Err(error)),
            Ok(None) => StepModel::Done(Err("dedicated Herdr session is not running"@)),
            Ok(Some(socket)) => if !same_path(socket, parent.socket_path) {
                StepModel::Done(Err("Herdr session socket differs from the persisted endpoint"@))
            } else {
                topology_step(program, parent, identity, replies.skip(1))
            },
        }
    }
}

/// The next step to close the workspace of an endpoint and to prove that it is gone.
pub open spec fn release_step(
    program: Seq<u8>,
    parent: ParentModel,
    replies: Seq<CommandReply>,
) -> StepModel<()> {
    if parent.refusal() is Some {
        StepModel::Done(Err(parent.refusal()->0))
    } else if replies.len() == 0 {
        run_now(program, parent.session, seq!["workspace"@, "close"@, parent.workspace_id])
    } else if herdr_output(replies[0]) is Err {
        StepModel::Done(Err(herdr_output(replies[0])->Err_0))
    } else if replies.len() == 1 {
        run_now(program, parent.session, list_operation())
    } else {
        match herdr_json(replies[1], list_operation()) {
            Err(error) => StepModel::Done(Err(error)),
            Ok(workspaces) => StepModel::Done(verdict(absence_doubt(parent, workspaces))),
        }
    }
}

/// The next step to stop the server of a lease.
pub open spec fn stop_step(
    program: Seq<u8>,
    lease: LeaseModel,
    replies: Seq<CommandReply>,
) -> StepModel<()> {
    if !lease.started_by_buzz {
        StepModel::Done(Err("refusing to stop an adopted Herdr session"@))
    } else if replies.len() == 0 {
        run_now(program, lease.session, seq!["server"@, "stop"@])
    } else {
        match herdr_output(replies[0]) {
            Err(error) => StepModel::Done(Err(error)),
            Ok(_) => StepModel::Done(Ok(())),
        }
    }
}

impl HerdrCliBroker {
    /// The next step while a server that was started becomes ready at a socket. The first reply came
    /// before the start.
    fn await_ready(&self, session: &str, replies: &[CommandReply]) -> (r: CliStep<FsPath>)
        requires
            replies@.len() > 0,
        ensures
            r@ == ready_step(self@, session@, 0, replies@.skip(1)),
    {
        let ghost polls = replies@.skip(1);
        let mut asked: usize = 0;
        assert(polls.skip(0) =~= polls);
        while asked < SERVER_READY_ATTEMPTS
            invariant
                asked <= SERVER_READY_ATTEMPTS,
                polls == replies@.skip(1),
                replies@.len() > 0,
                asked <= polls.len(),
                ready_step(self@, session@, 0, polls) == ready_step(
                    self@,
                    session@,
                    asked as nat,
                    polls.skip(asked as int),
                ),
            decreases SERVER_READY_ATTEMPTS - asked,
        {
            if asked + 1 >= replies.len() {
                let operation: [&str; 2] = ["status", "--json"];
                assert(words(operation@) =~= status_operation());
                return CliStep::Run {
                    after_millis: SERVER_READY_WAIT_MS,
                    command: self.command(session, &operation),
                };
            }
            let reply = &replies[asked + 1];
            assert(*reply == polls.skip(asked as int)[0]);
            assert(polls.skip(asked as int).skip(1) =~= polls.skip(asked + 1));
            match Self::status_socket(reply) {
                Err(error) => {
                    return CliStep::Done(Err(error));
                },
                Ok(Some(socket)) => {
                    return CliStep::Done(Ok(socket));
                },
                Ok(None) => {},
            }
            asked += 1;
        }
        CliStep::Done(Err("dedicated Herdr server did not become ready".to_owned()))
    }

    /// Ensures or adopts the session: a server that runs is adopted, otherwise one is started. The
    /// first reply is that of the status command, `started` is what came of starting the server,
    /// and the other replies are those of the status commands after that.
    ///
    /// The lease on a started server carries a random identifier.
    pub fn ensure_or_adopt_session(
        &self,
        session: &str,
        replies: &[CommandReply],
        started: &Option<Result<(), String>>,
    ) -> (r: CliStep<HerdrSessionLease>)
        ensures
            exists|token: Seq<char>| #[trigger]
                token_form(token) && r@ == session_step(
                    self@,
                    session@,
                    replies@,
                    *started,
                    token,
                ),
    {
        proof {
            lemma_example_token();
        }
        match validate_dedicated_session(session) {
            Ok(_) => {},
            Err(error) => {
                return CliStep::Done(Err(error));
            },
        }
        if replies.len() == 0 {
            let operation: [&str; 2] = ["status", "--json"];
            assert(words(operation@) =~= status_operation());
            return self.run(session, &operation);
        }
        match Self::status_socket(&replies[0]) {
            Err(error) => CliStep::Done(Err(error)),
            Ok(Some(socket_path)) => CliStep::Done(
                Ok(
                    HerdrSessionLease {
                        session: session.to_owned(),
                        socket_path,
                        lease_id: "adopt:".to_owned().concat(session),
                        started_by_buzz: false,
                    },
                ),
            ),
            Ok(None) => match started {
                None => {
                    let operation: [&str; 1] = ["server"];
                    assert(words(operation@) =~= seq!["server"@]);
                    CliStep::Start(self.command(session, &operation))
                },
                Some(Err(error)) => CliStep::Done(
                    Err(
                        "failed to start dedicated Herdr server: ".to_owned().concat(
                            error.as_str(),
                        ),
                    ),
                ),
                Some(Ok(_)) => match self.await_ready(session, replies) {
                    CliStep::Run { after_millis, command } => CliStep::Run {
                        after_millis,
                        command,
                    },
                    CliStep::Start(command) => CliStep::Start(command),
                    CliStep::Done(Err(error)) => CliStep::Done(Err(error)),
                    CliStep::Done(Ok(socket)) => {
                        let token = fresh_token();
                        assert(token_form(token@));
                        CliStep::Done(
                            Ok(lease_on_started_server(session, socket, token.as_str())),
                        )
                    },
                },
            },
        }
    }

    /// Creates the workspace of an owner in the session of a lease.
    pub fn ensure_workspace(
        &self,
        lease: &HerdrSessionLease,
        request: &HerdrWorkspaceRequest,
        replies: &[CommandReply],
    ) -> (r: CliStep<HerdrParentIdentity>)
        requires
            is_char_boundary(encode_utf8(request.identity.home_sha256@), 12),
        ensures
            r@ == workspace_step(self@, lease@, request.identity@, replies@),
    {
        let identity = &request.identity;
        let short = identity.home_sha256.as_str().split_at(12).0;
        proof {
            assert(encode_utf8(short@) =~= encode_utf8(identity.home_sha256@).take(12));
            vstd::utf8::encode_utf8_decode_utf8(short@);
        }
        let label = "firstmate-".to_owned().concat(identity.managed_agent_id.as_str()).concat(
            "-",
        ).concat(short);
        let home = identity.canonical_home.display();
        let operation: [&str; 7] = [
            "workspace",
            "create",
            "--cwd",
            home.as_str(),
            "--label",
            label.as_str(),
            "--no-focus",
        ];
        assert(words(operation@) =~= create_operation(identity@));
        if replies.len() == 0 {
            return self.run(lease.session.as_str(), &operation);
        }
        match Self::json_output(&replies[0], &operation) {
            Err(error) => CliStep::Done(Err(error)),
            Ok(response) => CliStep::Done(read_created_endpoint(lease, &response)),
        }
    }

    /// Proves that an endpoint exists and that its root pane stands in the owner's home.
    pub fn preflight(
        &self,
        parent: &HerdrParentIdentity,
        identity: &HerdrManagedAgentIdentity,
        replies: &[CommandReply],
    ) -> (r: CliStep<()>)
        ensures
            r@ == preflight_step(self@, parent@, identity@, replies@),
    {
        match parent.validate() {
            Ok(_) => {},
            Err(error) => {
                return CliStep::Done(Err(error));
            },
        }
        let session = parent.session.as_str();
        if replies.len() == 0 {
            let operation: [&str; 2] = ["status", "--json"];
            assert(words(operation@) =~= status_operation());
            return self.run(session, &operation);
        }
        let ghost rest = replies@.skip(1);
        match Self::status_socket(&replies[0]) {
            Err(error) => {
                return CliStep::Done(Err(error));
            },
            Ok(None) => {
                return CliStep::Done(Err("dedicated Herdr session is not running".to_owned()));
            },
            Ok(Some(socket)) => {
                if !socket.same_as(&parent.socket_path) {
                    return CliStep::Done(
                        Err("Herdr session socket differs from the persisted endpoint".to_owned()),
                    );
                }
            },
        }
        let list: [&str; 2] = ["workspace", "list"];
        let get_tab: [&str; 3] = ["tab", "get", parent.root_tab_id.as_str()];
        let get_pane: [&str; 3] = ["pane", "get", parent.root_pane_id.as_str()];
        proof {
            assert(words(list@) =~= list_operation());
            assert(words(get_tab@) =~= seq!["tab"@, "get"@, parent@.root_tab_id]);
            assert(words(get_pane@) =~= seq!["pane"@, "get"@, parent@.root_pane_id]);
        }
        if replies.len() == 1 {
            return self.run(session, &list);
        }
        assert(rest[0] == replies@[1]);
        let workspaces = match Self::json_output(&replies[1], &list) {
            Ok(value) => value,
            Err(error) => {
                return CliStep::Done(Err(error));
            },
        };
        if replies.len() == 2 {
            return self.run(session, &get_tab);
        }
        assert(rest[1] == replies@[2]);
        let tab = match Self::json_output(&replies[2], &get_tab) {
            Ok(value) => value,
            Err(error) => {
                return CliStep::Done(Err(error));
            },
        };
        if replies.len() == 3 {
            return self.run(session, &get_pane);
        }
        assert(rest[2] == replies@[3]);
        let pane = match Self::json_output(&replies[3], &get_pane) {
            Ok(value) => value,
            Err(error) => {
                return CliStep::Done(Err(error));
            },
        };
        CliStep::Done(prove_endpoint(parent, identity, &workspaces, &tab, &pane))
    }

    /// Closes exactly the workspace of an endpoint and proves that it is gone. No workspace is ever
    /// selected by its label.
    pub fn release_workspace(&self, parent: &HerdrParentIdentity, replies: &[CommandReply]) -> (r:
        CliStep<()>)
        ensures
            r@ == release_step(self@, parent@, replies@),
    {
        match parent.validate() {
            Ok(_) => {},
            Err(error) => {
                return CliStep::Done(Err(error));
            },
        }
        let session = parent.session.as_str();
        let close: [&str; 3] = ["workspace", "close", parent.workspace_id.as_str()];
        let list: [&str; 2] = ["workspace", "list"];
        proof {
            assert(words(close@) =~= seq!["workspace"@, "close"@, parent@.workspace_id]);
            assert(words(list@) =~= list_operation());
        }
        if replies.len() == 0 {
            return self.run(session, &close);
        }
        match Self::output(&replies[0]) {
            Ok(_) => {},
            Err(error) => {
                return CliStep::Done(Err(error));
            },
        }
        if replies.len() == 1 {
            return self.run(session, &list);
        }
        match Self::json_output(&replies[1], &list) {
            Err(error) => CliStep::Done(Err(error)),
            Ok(workspaces) => {
                CliStep::Done(prove_absence(parent, &workspaces))
            },
        }
    }

    /// Stops the server of a lease, which must have been started for it.
    pub fn stop_session(&self, lease: &HerdrSessionLease, replies: &[CommandReply]) -> (r: CliStep<
        (),
    >)
        ensures
            r@ == stop_step(self@, lease@, replies@),
    {
        if !lease.started_by_buzz {
            return CliStep::Done(Err("refusing to stop an adopted Herdr session".to_owned()));
        }
        if replies.len() == 0 {
            let operation: [&str; 2] = ["server", "stop"];
            assert(words(operation@) =~= seq!["server"@, "stop"@]);
            return self.run(lease.session.as_str(), &operation);
        }
        match Self::output(&replies[0]) {
            Ok(_) => CliStep::Done(Ok(())),
            Err(error) => CliStep::Done(Err(error)),
        }
    }
}

} // verus!
