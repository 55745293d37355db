//! What the command-line broker runs and what it makes of the replies, told from the replies.

use vstd::prelude::*;
use vstd::utf8::encode_utf8;

use crate::cli::{
    endpoint_doubt, herdr_json, herdr_output, preflight_step, ready_step,
    release_step, reported_socket, session_step, status_outcome, stop_step, topology_step,
    workspace_step, CommandModel, StepModel,
};
use crate::cli_laws::{accepted_preflight_proves_the_endpoint, fingerprint_can_be_shortened};
use crate::command::CommandReply;
use crate::encoding::shown_text;
use crate::identity::{IdentityModel, LeaseModel, ParentModel};
use crate::json::{found_text, holds_text, json_reading, member, JsonTree};
use crate::path::{absolute, same_path};
use crate::text::{blank, same_ignoring_ascii_case, trimmed};

verus! {

/// A command of Herdr in a session: the global option for the session before the operation, and
/// without the settings by which Herdr marks the processes inside its panes.
pub open spec fn command_in(
    program: Seq<u8>,
    session: Seq<char>,
    operation: Seq<Seq<char>>,
) -> CommandModel {
    CommandModel {
        program,
        removed: seq![
            "HERDR_ENV"@,
            "HERDR_SOCKET_PATH"@,
            "HERDR_WORKSPACE_ID"@,
            "HERDR_TAB_ID"@,
            "HERDR_PANE_ID"@,
        ],
        arguments: seq!["--session"@, session] + operation,
    }
}

/// A command gave its output exactly when it ended well: what it printed, as text. Any other command
/// is refused, with what it printed of its failure.
pub proof fn output_is_what_a_good_command_printed(reply: CommandReply, text: Seq<char>)
    ensures
        herdr_output(reply) == Ok::<Seq<char>, Seq<char>>(text) <==> (reply matches
            CommandReply::Exited { success, stdout, .. } && success && text == shown_text(stdout@)),
        reply matches CommandReply::Exited { success, status, stderr, .. } ==> (!success
            ==> herdr_output(reply) == Err::<Seq<char>, Seq<char>>(
            "Herdr command failed ("@ + status@ + "): "@ + trimmed(shown_text(stderr@)),
        )),
        reply matches CommandReply::NotStarted(error) ==> herdr_output(reply) == Err::<
            Seq<char>,
            Seq<char>,
        >("failed to execute Herdr: "@ + error@),
{
}

/// A response was read exactly when the command ended well and what it printed is JSON.
pub proof fn response_is_what_a_good_command_printed(
    reply: CommandReply,
    operation: Seq<Seq<char>>,
    tree: JsonTree,
)
    ensures
        herdr_json(reply, operation) == Ok::<JsonTree, Seq<char>>(tree) <==> (reply matches
            CommandReply::Exited { success, stdout, .. } && success && json_reading(
            shown_text(stdout@),
        ) == Ok::<JsonTree, Seq<char>>(tree)),
{
}

/// A status response reports a socket exactly when its server is said to run and to listen at that
/// absolute path, and reports that none runs exactly when it does not say that one does.
pub proof fn socket_is_that_of_a_running_server(status: JsonTree, socket: Seq<u8>)
    ensures
        ({
            let running = member(status, "server"@) matches Some(server) && member(
                server,
                "running"@,
            ) == Some(JsonTree::Bool(true));
            &&& reported_socket(status) == Ok::<Option<Seq<u8>>, Seq<char>>(Some(socket)) <==> {
                &&& running
                &&& absolute(socket)
                &&& exists|path: Seq<char>|
                    member(member(status, "server"@)->0, "socket"@) == Some(JsonTree::Text(path))
                        && #[trigger] encode_utf8(path) == socket
            }
            &&& reported_socket(status) == Ok::<Option<Seq<u8>>, Seq<char>>(None) <==> !running
        }),
{
    match member(status, "server"@) {
        Some(server) => match member(server, "socket"@) {
            Some(JsonTree::Text(path)) => {
                assert(encode_utf8(path) == encode_utf8(path));
            },
            _ => {},
        },
        None => {},
    }
}

/// What a reply to a status command says: that a server listens at a socket.
pub open spec fn says_running(reply: CommandReply, socket: Seq<u8>) -> bool {
    status_outcome(reply) == Ok::<Option<Seq<u8>>, Seq<char>>(Some(socket))
}

/// What a reply to a status command says: that no server runs.
pub open spec fn says_idle(reply: CommandReply) -> bool {
    status_outcome(reply) == Ok::<Option<Seq<u8>>, Seq<char>>(None)
}

/// The reply to a status command says what the response in it says.
pub proof fn status_is_read_from_the_response(reply: CommandReply, status: JsonTree)
    requires
        herdr_json(reply, seq!["status"@, "--json"@]) == Ok::<JsonTree, Seq<char>>(status),
    ensures
        status_outcome(reply) == reported_socket(status),
{
}

/// A session is first asked for its state. One that runs is adopted as it is; one that does not run is
/// started, and refused if that fails.
pub proof fn session_is_adopted_or_started(
    program: Seq<u8>,
    session: Seq<char>,
    replies: Seq<CommandReply>,
    started: Option<Result<(), String>>,
    token: Seq<char>,
    socket: Seq<u8>,
)
    requires
        !blank(session),
        !same_ignoring_ascii_case(session, "default"@),
    ensures
        replies.len() == 0 ==> session_step(program, session, replies, started, token) == (
        StepModel::<LeaseModel>::Run {
            after_millis: 0,
            command: command_in(program, session, seq!["status"@, "--json"@]),
        }),
        replies.len() > 0 && says_running(replies[0], socket) ==> session_step(
            program,
            session,
            replies,
            started,
            token,
        ) == StepModel::<LeaseModel>::Done(
            Ok(
                LeaseModel {
                    session,
                    socket_path: socket,
                    lease_id: "adopt:"@ + session,
                    started_by_buzz: false,
                },
            ),
        ),
        replies.len() > 0 && says_idle(replies[0]) && started is None ==> session_step(
            program,
            session,
            replies,
            started,
            token,
        ) == StepModel::<LeaseModel>::Start(command_in(program, session, seq!["server"@])),
        replies.len() > 0 && says_idle(replies[0]) ==> (started matches Some(Err(error))
            ==> session_step(program, session, replies, started, token) == StepModel::<
            LeaseModel,
        >::Done(Err("failed to start dedicated Herdr server: "@ + error@))),
        replies.len() > 0 && status_outcome(replies[0]) is Err ==> session_step(
            program,
            session,
            replies,
            started,
            token,
        ) == StepModel::<LeaseModel>::Done(Err(status_outcome(replies[0])->Err_0)),
{
}

proof fn lemma_idle_polls(
    program: Seq<u8>,
    session: Seq<char>,
    asked: nat,
    polls: Seq<CommandReply>,
    k: int,
)
    requires
        0 <= k <= polls.len(),
        asked + k <= 20,
        forall|i: int| 0 <= i < k ==> says_idle(#[trigger] polls[i]),
    ensures
        ready_step(program, session, asked, polls) == ready_step(
            program,
            session,
            (asked + k) as nat,
            polls.skip(k),
        ),
    decreases k,
{
    if k == 0 {
        assert(polls.skip(0) =~= polls);
    } else {
        assert(says_idle(polls[0]));
        let rest = polls.skip(1);
        assert forall|i: int| 0 <= i < k - 1 implies says_idle(#[trigger] rest[i]) by {
            assert(rest[i] == polls[i + 1]);
        }
        lemma_idle_polls(program, session, asked + 1, rest, k - 1);
        assert(rest.skip(k - 1) =~= polls.skip(k));
    }
}

/// A server that was started is asked up to twenty times whether it runs, a tenth of a second apart.
/// Once it does, the lease is on the server that was started, with the token in its id; once it was
/// asked twenty times in vain, or once a question fails, the session is refused.
pub proof fn started_server_is_awaited(
    program: Seq<u8>,
    session: Seq<char>,
    replies: Seq<CommandReply>,
    token: Seq<char>,
    idle: int,
    socket: Seq<u8>,
)
    requires
        !blank(session),
        !same_ignoring_ascii_case(session, "default"@),
        0 <= idle <= 20,
        replies.len() > idle,
        forall|i: int| 0 <= i <= idle ==> says_idle(#[trigger] replies[i]),
    ensures
        ({
            let step = session_step(program, session, replies, Some(Ok(())), token);
            &&& idle == 20 ==> step == StepModel::<LeaseModel>::Done(
                Err("dedicated Herdr server did not become ready"@),
            )
            &&& idle < 20 && replies.len() == idle + 1 ==> step == (StepModel::<LeaseModel>::Run {
                after_millis: 100,
                command: command_in(program, session, seq!["status"@, "--json"@]),
            })
            &&& idle < 20 && replies.len() > idle + 1 && says_running(replies[idle + 1], socket)
                ==> step == StepModel::<LeaseModel>::Done(
                Ok(
                    LeaseModel {
                        session,
                        socket_path: socket,
                        lease_id: "buzz:"@ + session + ":"@ + token,
                        started_by_buzz: true,
                    },
                ),
            )
            &&& idle < 20 && replies.len() > idle + 1 && status_outcome(replies[idle + 1]) is Err
                ==> step == StepModel::<LeaseModel>::Done(
                Err(status_outcome(replies[idle + 1])->Err_0),
            )
        }),
{
    let polls = replies.skip(1);
    assert(says_idle(replies[0]));
    assert forall|i: int| 0 <= i < idle implies says_idle(#[trigger] polls[i]) by {
        assert(polls[i] == replies[i + 1]);
    }
    lemma_idle_polls(program, session, 0, polls, idle);
    let left = polls.skip(idle);
    if replies.len() > idle + 1 {
        assert(left[0] == replies[idle + 1]);
    }
}

/// A workspace is created in the owner's home, in the leased session, and labelled with the agent and
/// the first twelve characters of the home's fingerprint. What comes back is an endpoint of the leased
/// server with the ids that the response gives.
pub proof fn workspace_is_created_for_its_owner(
    program: Seq<u8>,
    lease: LeaseModel,
    identity: IdentityModel,
    replies: Seq<CommandReply>,
    parent: ParentModel,
)
    requires
        identity.well_formed(),
    ensures
        ({
            let operation = seq![
                "workspace"@,
                "create"@,
                "--cwd"@,
                shown_text(identity.canonical_home),
                "--label"@,
                "firstmate-"@ + identity.managed_agent_id + "-"@ + identity.home_sha256.take(12),
                "--no-focus"@,
            ];
            &&& replies.len() == 0 ==> workspace_step(program, lease, identity, replies) == (
            StepModel::<ParentModel>::Run {
                after_millis: 0,
                command: command_in(program, lease.session, operation),
            })
            &&& replies.len() > 0 ==> (workspace_step(program, lease, identity, replies)
                == StepModel::<ParentModel>::Done(Ok(parent)) <==> {
                &&& herdr_json(replies[0], operation) matches Ok(response)
                &&& parent.session == lease.session
                &&& parent.socket_path == lease.socket_path
                &&& found_text(response, seq!["workspace_id"@]) == Some(parent.workspace_id)
                &&& found_text(response, seq!["root_tab_id"@, "tab_id"@]) == Some(
                    parent.root_tab_id,
                )
                &&& found_text(response, seq!["root_pane_id"@, "pane_id"@]) == Some(
                    parent.root_pane_id,
                )
            })
        }),
{
    fingerprint_can_be_shortened(identity);
}

/// A preflight asks for the state of the session, then for the workspaces, the tab and the pane of the
/// endpoint, in this order, and for nothing once the server is seen not to run at the endpoint's
/// socket.
pub proof fn preflight_asks_in_order(
    program: Seq<u8>,
    parent: ParentModel,
    identity: IdentityModel,
    replies: Seq<CommandReply>,
    socket: Seq<u8>,
)
    requires
        parent.refusal() is None,
    ensures
        replies.len() == 0 ==> preflight_step(program, parent, identity, replies) == (StepModel::<
            (),
        >::Run {
            after_millis: 0,
            command: command_in(program, parent.session, seq!["status"@, "--json"@]),
        }),
        replies.len() > 0 && (says_idle(replies[0]) || says_running(replies[0], socket)
            && !same_path(socket, parent.socket_path)) ==> (preflight_step(
            program,
            parent,
            identity,
            replies,
        ) matches StepModel::Done(result) && result is Err),
        replies.len() == 1 && says_running(replies[0], socket) && same_path(
            socket,
            parent.socket_path,
        ) ==> preflight_step(program, parent, identity, replies) == (StepModel::<()>::Run {
            after_millis: 0,
            command: command_in(program, parent.session, seq!["workspace"@, "list"@]),
        }),
        replies.len() == 2 && says_running(replies[0], socket) && same_path(
            socket,
            parent.socket_path,
        ) && herdr_json(replies[1], seq!["workspace"@, "list"@]) is Ok ==> preflight_step(
            program,
            parent,
            identity,
            replies,
        ) == (StepModel::<()>::Run {
            after_millis: 0,
            command: command_in(
                program,
                parent.session,
                seq!["tab"@, "get"@, parent.root_tab_id],
            ),
        }),
        replies.len() == 3 && says_running(replies[0], socket) && same_path(
            socket,
            parent.socket_path,
        ) && herdr_json(replies[1], seq!["workspace"@, "list"@]) is Ok && herdr_json(
            replies[2],
            seq!["tab"@, "get"@, parent.root_tab_id],
        ) is Ok ==> preflight_step(program, parent, identity, replies) == (StepModel::<()>::Run {
            after_millis: 0,
            command: command_in(
                program,
                parent.session,
                seq!["pane"@, "get"@, parent.root_pane_id],
            ),
        }),
{
    if replies.len() > 1 {
        assert(replies.skip(1)[0] == replies[1]);
    }
    if replies.len() > 2 {
        assert(replies.skip(1)[1] == replies[2]);
    }
}

/// Whether four replies prove an endpoint for an owner: the server runs at its socket, its workspace
/// is listed under an id, the tab and the pane carry its exact ids, and the pane stands in the home.
pub open spec fn endpoint_is_proved(
    parent: ParentModel,
    identity: IdentityModel,
    replies: Seq<CommandReply>,
) -> bool {
    &&& replies.len() >= 4
    &&& status_outcome(replies[0]) matches Ok(Some(socket))
    &&& same_path(socket, parent.socket_path)
    &&& herdr_json(replies[1], seq!["workspace"@, "list"@]) matches Ok(workspaces)
    &&& holds_text(workspaces, seq!["workspace_id"@, "id"@], parent.workspace_id)
    &&& herdr_json(replies[2], seq!["tab"@, "get"@, parent.root_tab_id]) matches Ok(tab)
    &&& found_text(tab, seq!["tab_id"@]) == Some(parent.root_tab_id)
    &&& found_text(tab, seq!["workspace_id"@]) == Some(parent.workspace_id)
    &&& herdr_json(replies[3], seq!["pane"@, "get"@, parent.root_pane_id]) matches Ok(pane)
    &&& found_text(pane, seq!["pane_id"@]) == Some(parent.root_pane_id)
    &&& found_text(pane, seq!["tab_id"@]) == Some(parent.root_tab_id)
    &&& found_text(pane, seq!["workspace_id"@]) == Some(parent.workspace_id)
    &&& found_text(pane, seq!["foreground_cwd"@]) == Some(shown_text(identity.canonical_home))
}

/// A preflight is accepted exactly when the endpoint is complete and the replies prove it.
pub proof fn preflight_accepts_what_is_proved(
    program: Seq<u8>,
    parent: ParentModel,
    identity: IdentityModel,
    replies: Seq<CommandReply>,
)
    ensures
        preflight_step(program, parent, identity, replies) == StepModel::<()>::Done(Ok(())) <==> {
            &&& parent.refusal() is None
            &&& endpoint_is_proved(parent, identity, replies)
        },
{
    if preflight_step(program, parent, identity, replies) == StepModel::<()>::Done(Ok(())) {
        accepted_preflight_proves_the_endpoint(program, parent, identity, replies);
    }
    if parent.refusal() is None && endpoint_is_proved(parent, identity, replies) {
        let rest = replies.skip(1);
        assert(rest[0] == replies[1]);
        assert(rest[1] == replies[2]);
        assert(rest[2] == replies[3]);
        let workspaces = herdr_json(rest[0], seq!["workspace"@, "list"@])->Ok_0;
        let tab = herdr_json(rest[1], seq!["tab"@, "get"@, parent.root_tab_id])->Ok_0;
        let pane = herdr_json(rest[2], seq!["pane"@, "get"@, parent.root_pane_id])->Ok_0;
        assert(endpoint_doubt(parent, identity, workspaces, tab, pane) is None);
        assert(topology_step(program, parent, identity, rest) == StepModel::<()>::Done(Ok(())));
    }
}

/// A release closes exactly the workspace of the endpoint and then lists what is left. Once the close
/// succeeded and the list was read, it is accepted exactly when the list does not hold that workspace,
/// whatever others it holds.
pub proof fn release_is_accepted_without_the_workspace(
    program: Seq<u8>,
    parent: ParentModel,
    replies: Seq<CommandReply>,
    workspaces: JsonTree,
)
    requires
        parent.refusal() is None,
    ensures
        replies.len() == 0 ==> release_step(program, parent, replies) == (StepModel::<()>::Run {
            after_millis: 0,
            command: command_in(
                program,
                parent.session,
                seq!["workspace"@, "close"@, parent.workspace_id],
            ),
        }),
        replies.len() > 0 && herdr_output(replies[0]) is Err ==> release_step(
            program,
            parent,
            replies,
        ) == StepModel::<()>::Done(Err(herdr_output(replies[0])->Err_0)),
        replies.len() == 1 && herdr_output(replies[0]) is Ok ==> release_step(
            program,
            parent,
            replies,
        ) == (StepModel::<()>::Run {
            after_millis: 0,
            command: command_in(program, parent.session, seq!["workspace"@, "list"@]),
        }),
        replies.len() >= 2 && herdr_output(replies[0]) is Ok && herdr_json(
            replies[1],
            seq!["workspace"@, "list"@],
        ) == Ok::<JsonTree, Seq<char>>(workspaces) ==> {
            &&& release_step(program, parent, replies) is Done
            &&& release_step(program, parent, replies)->Done_0 is Ok <==> !holds_text(
                workspaces,
                seq!["workspace_id"@, "id"@],
                parent.workspace_id,
            )
        },
{
}

/// A server is stopped in its own session and only by a lease on a started one; how the command ends
/// is the verdict.
pub proof fn started_server_is_stopped(
    program: Seq<u8>,
    lease: LeaseModel,
    replies: Seq<CommandReply>,
)
    ensures
        !lease.started_by_buzz ==> (stop_step(program, lease, replies) matches StepModel::Done(result)
            && result is Err),
        lease.started_by_buzz && replies.len() == 0 ==> stop_step(program, lease, replies) == (
        StepModel::<()>::Run {
            after_millis: 0,
            command: command_in(program, lease.session, seq!["server"@, "stop"@]),
        }),
        lease.started_by_buzz && replies.len() > 0 ==> (stop_step(program, lease, replies) matches
            StepModel::Done(result) && (result is Ok <==> herdr_output(replies[0]) is Ok)),
{
}

/// An incomplete endpoint is neither proved nor closed: nothing is run for it.
pub proof fn incomplete_endpoint_runs_nothing(
    program: Seq<u8>,
    parent: ParentModel,
    identity: IdentityModel,
    replies: Seq<CommandReply>,
)
    requires
        parent.refusal() is Some,
    ensures
        preflight_step(program, parent, identity, replies) == StepModel::<()>::Done(
            Err(parent.refusal()->0),
        ),
        release_step(program, parent, replies) == StepModel::<()>::Done(
            Err(parent.refusal()->0),
        ),
{
}

} // verus!
