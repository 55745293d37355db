//! Why something is refused: what is said for each thing that is amiss, and which of several comes
//! first.

use vstd::prelude::*;
use vstd::utf8::encode_utf8;

use crate::bridge::{
    bridge_step, file_step, permission_step, BridgeFileModel, BridgeModel, FileAnswers, FileModel,
    Inspection, InstallReply, PermissionModel,
};
use crate::broker::BrokerCall;
use crate::cli::{
    herdr_json, herdr_output, preflight_step, release_step, reported_socket,
    session_step, status_outcome, stop_step, workspace_step, StepModel,
};
use crate::cli_laws::fingerprint_can_be_shortened;
use crate::command::CommandReply;
use crate::digest::{hex_text, sha256_digest};
use crate::discovery::{discovery_step, DiscoveryModel};
use crate::encoding::{quoted_text, shown_text};
use crate::fleet::{
    endpoint_refusal, entry_refusal, lease_refusal, release_protocol, session_refusal, state_refusal,
    StateModel,
};
use crate::identity::{
    contract_outcome, identity_outcome, HomeLookup, IdentityModel, LeaseModel, ParentModel,
    SnapshotModel,
};
use crate::json::{
    found_text, holds_text, json_reading, member, required_text, unproved_text, JsonTree,
};
use crate::lifecycle::{
    handoff_step, handoff_verdict, report_meaning, FirstMateStopDisposition, StopModel, StopProbe,
};
use crate::outcome::held;
use crate::path::{absolute, joined_path, same_path};
use crate::text::{blank, joined, lines_of, same_ignoring_ascii_case, trimmed};
use crate::working_directory::{
    directory_outcome, home_refusal, record_outcome, DirectoryProbe, FileKind, HomeProbe,
    ManagedAgentRecord,
};

verus! {

/// A session without a name is refused before one that is the default session in any case.
pub proof fn refused_sessions(session: Seq<char>)
    ensures
        blank(session) ==> session_refusal(session) == Some(
            "Herdr fleet state has no dedicated session"@,
        ),
        !blank(session) && same_ignoring_ascii_case(session, "default"@) ==> session_refusal(
            session,
        ) == Some("FirstMate managed agents must not adopt Herdr's default session"@),
{
}

/// An endpoint with a part missing is refused before one with a relative socket.
pub proof fn refused_endpoints(parent: ParentModel, lease: LeaseModel)
    ensures
        ({
            let incomplete = blank(parent.session) || blank(parent.workspace_id) || blank(
                parent.root_tab_id,
            ) || blank(parent.root_pane_id);
            &&& incomplete ==> parent.refusal() == Some("Herdr parent identity is incomplete"@)
            &&& !incomplete && !absolute(parent.socket_path) ==> parent.refusal() == Some(
                "Herdr socket path must be absolute"@,
            )
            &&& incomplete || !absolute(parent.socket_path) ==> endpoint_refusal(lease, parent)
                == parent.refusal()
            &&& !incomplete && absolute(parent.socket_path) && (parent.session != lease.session
                || !same_path(parent.socket_path, lease.socket_path)) ==> endpoint_refusal(
                lease,
                parent,
            ) == Some("Herdr broker returned a workspace outside the leased session"@)
        }),
{
}

/// What is said of a lease that a broker granted and that does not fit: first that it is for another
/// session, then that its socket is relative, then that it has no id, then that it is for another
/// server than the persisted one.
pub proof fn refused_leases(state: StateModel, lease: LeaseModel)
    ensures
        lease.session != state.session ==> lease_refusal(state, lease) == Some(
            "Herdr broker returned a different session than requested"@,
        ),
        lease.session == state.session && !absolute(lease.socket_path) ==> lease_refusal(
            state,
            lease,
        ) == Some("Herdr broker returned a non-absolute socket path"@),
        lease.session == state.session && absolute(lease.socket_path) && blank(lease.lease_id)
            ==> lease_refusal(state, lease) == Some(
            "Herdr broker returned an empty server lease id"@,
        ),
        lease.session == state.session && absolute(lease.socket_path) && !blank(lease.lease_id) ==> (
        state.server_lease matches Some(persisted) ==> (persisted.session != lease.session
            || !same_path(persisted.socket_path, lease.socket_path) ==> lease_refusal(state, lease)
            == Some("Herdr broker returned a different server than the persisted lease"@))),
{
}

/// What is said of a recorded endpoint that does not fit the state it is recorded in, each complaint
/// given that those before it do not apply.
pub proof fn refused_entries(state: StateModel, key: Seq<char>, snapshot: SnapshotModel)
    ensures
        ({
            let refusal = entry_refusal(state, key, snapshot);
            let identity = snapshot.identity;
            let named = snapshot.parent.refusal() is None && !blank(snapshot.lease_id);
            let hashed = named && identity.home_sha256 == hex_text(
                sha256_digest(identity.canonical_home),
            );
            let keyed = hashed && key == identity.managed_agent_id + ":"@ + identity.home_sha256;
            &&& snapshot.parent.refusal() is Some ==> refusal == snapshot.parent.refusal()
            &&& snapshot.parent.refusal() is None && blank(snapshot.lease_id) ==> refusal == Some(
                "Herdr fleet state contains an empty lease id"@,
            )
            &&& named && !hashed ==> refusal == Some(
                "Herdr fleet state contains a mismatched FirstMate home hash"@,
            )
            &&& hashed && !keyed ==> refusal == Some(
                "Herdr fleet state contains an endpoint under the wrong owner key"@,
            )
            &&& keyed && snapshot.parent.session != state.session ==> refusal == Some(
                "Herdr endpoint belongs to a different session"@,
            )
            &&& keyed && snapshot.parent.session == state.session && state.server_lease is None
                ==> refusal == Some("Herdr fleet state is missing its lease"@)
            &&& keyed && snapshot.parent.session == state.session ==> (state.server_lease matches
                Some(lease) ==> (!same_path(snapshot.parent.socket_path, lease.socket_path)
                || snapshot.lease_id != lease.lease_id ==> refusal == Some(
                "Herdr endpoint does not belong to the persisted server lease"@,
            )))
        }),
{
}

/// What is said of a state that is refused: what is amiss with its session, then that its lease is
/// missing, then what is amiss with the first of its endpoints that does not fit.
pub proof fn refused_states(state: StateModel, list: Seq<(Seq<char>, SnapshotModel)>, k: int)
    ensures
        session_refusal(state.session) is Some ==> state_refusal(state, list) == session_refusal(
            state.session,
        ),
        session_refusal(state.session) is None && state.server_lease is None && list.len() > 0
            ==> state_refusal(state, list) == Some(
            "Herdr fleet state with agents is missing its server lease"@,
        ),
        session_refusal(state.session) is None && state.server_lease is None && list.len() == 0
            && state.server_started_by_buzz ==> state_refusal(state, list) == Some(
            "Buzz-owned Herdr fleet state is missing its server lease"@,
        ),
        session_refusal(state.session) is None && state.server_lease is Some && 0 <= k < list.len()
            && (forall|i: int|
            0 <= i < k ==> entry_refusal(state, (#[trigger] list[i]).0, list[i].1) is None)
            && entry_refusal(state, list[k].0, list[k].1) is Some ==> state_refusal(state, list)
            == entry_refusal(state, list[k].0, list[k].1),
{
    if state.server_lease is Some && 0 <= k < list.len() && (forall|i: int|
        0 <= i < k ==> entry_refusal(state, (#[trigger] list[i]).0, list[i].1) is None)
        && entry_refusal(state, list[k].0, list[k].1) is Some {
        lemma_first_refused_entry(state, list, k);
    }
}

proof fn lemma_first_refused_entry(
    state: StateModel,
    list: Seq<(Seq<char>, SnapshotModel)>,
    k: int,
)
    requires
        0 <= k < list.len(),
        forall|i: int| 0 <= i < k ==> entry_refusal(state, (#[trigger] list[i]).0, list[i].1) is None,
        entry_refusal(state, list[k].0, list[k].1) is Some,
    ensures
        crate::fleet::entries_refusal(state, list) == entry_refusal(state, list[k].0, list[k].1),
    decreases k,
{
    if k > 0 {
        assert(entry_refusal(state, list[0].0, list[0].1) is None);
        let rest = list.skip(1);
        assert forall|i: int| 0 <= i < k - 1 implies entry_refusal(
            state,
            (#[trigger] rest[i]).0,
            rest[i].1,
        ) is None by {
            assert(rest[i] == list[i + 1]);
        }
        assert(rest[k - 1] == list[k]);
        lemma_first_refused_entry(state, rest, k - 1);
    }
}

/// The last endpoint of an owned server cannot be released where no lease is persisted, and this is
/// what is said.
pub proof fn refused_release(
    before: StateModel,
    identity: IdentityModel,
    calls: Seq<BrokerCall>,
    result: Result<(), Seq<char>>,
    after: StateModel,
)
    requires
        release_protocol(before, identity, calls, result, after),
        before.agents.dom() == set![identity.managed_agent_id + ":"@ + identity.home_sha256],
        before.server_started_by_buzz,
        before.server_lease is None,
    ensures
        result == Err::<(), Seq<char>>("Buzz-owned Herdr server has no persisted lease"@),
        calls.len() == 0,
        after == before,
{
    assert(before.agents.dom().contains(identity.key()));
}

/// What is said of an agent without an identity.
pub proof fn refused_identities(id: Seq<char>, home: HomeLookup)
    ensures
        blank(id) ==> identity_outcome(id, home) == Err::<IdentityModel, Seq<char>>(
            "Herdr managed-agent identity is empty"@,
        ),
        !blank(id) && home is NotDirectory ==> identity_outcome(id, home) == Err::<
            IdentityModel,
            Seq<char>,
        >("FirstMate home must resolve to a directory"@),
{
}

/// What is said of an endpoint that is not handed over: what is amiss with it, then why the home did
/// not resolve, then that the program as it was named cannot be run.
pub proof fn refused_contracts(
    parent: ParentModel,
    home: Result<Seq<u8>, Seq<char>>,
    herdr_binary: Seq<u8>,
    executable: Option<Seq<u8>>,
)
    ensures
        ({
            let handed = contract_outcome(parent, home, herdr_binary, executable);
            &&& parent.refusal() matches Some(error) ==> handed == Err::<
                Seq<(Seq<char>, Seq<char>)>,
                Seq<char>,
            >(error)
            &&& parent.refusal() is None ==> (home matches Err(error) ==> handed == Err::<
                Seq<(Seq<char>, Seq<char>)>,
                Seq<char>,
            >("failed to canonicalize FirstMate home: "@ + error))
            &&& parent.refusal() is None && home is Ok && executable is None ==> handed == Err::<
                Seq<(Seq<char>, Seq<char>)>,
                Seq<char>,
            >("Herdr binary is not an executable regular file: "@ + shown_text(herdr_binary))
        }),
{
}

/// What is said where no program was found anywhere.
pub proof fn refused_discovery(
    bundled: Option<Seq<u8>>,
    login_shell: Option<Option<Seq<u8>>>,
    verified: Option<Option<Seq<u8>>>,
    searched: Option<Option<Seq<u8>>>,
    error: Seq<char>,
)
    requires
        discovery_step(bundled, login_shell, verified, searched) == DiscoveryModel::Done(Err(error)),
    ensures
        error == "Herdr is unavailable: install it or add it to your login-shell PATH"@,
{
}

/// A response that could not be read passes on why the command gave no output, or names the command
/// and why its output is not JSON.
pub proof fn refused_responses(reply: CommandReply, operation: Seq<Seq<char>>)
    ensures
        herdr_output(reply) matches Err(error) ==> herdr_json(reply, operation) == Err::<
            JsonTree,
            Seq<char>,
        >(error),
        herdr_output(reply) matches Ok(text) ==> (json_reading(text) matches Err(error)
            ==> herdr_json(reply, operation) == Err::<JsonTree, Seq<char>>(
            "Herdr returned invalid JSON for "@ + joined(operation, " "@) + ": "@ + error,
        )),
{
}

/// A server that is said to run without an absolute socket is refused, and so is a reply to a status
/// command that could not be read.
pub proof fn refused_status(reply: CommandReply, status: JsonTree, server: JsonTree)
    ensures
        member(status, "server"@) == Some(server) && member(server, "running"@) == Some(
            JsonTree::Bool(true),
        ) && (match member(server, "socket"@) {
            Some(JsonTree::Text(path)) => !absolute(encode_utf8(path)),
            _ => true,
        }) ==> reported_socket(status) == Err::<Option<Seq<u8>>, Seq<char>>(
            "Herdr status JSON did not report an absolute socket path"@,
        ),
        herdr_json(reply, seq!["status"@, "--json"@]) matches Err(error) ==> status_outcome(reply)
            == Err::<Option<Seq<u8>>, Seq<char>>(error),
{
}

/// What is said of a text that a response owes: the names that it could stand under.
pub proof fn refused_texts(tree: JsonTree, keys: Seq<Seq<char>>, expected: Seq<char>)
    ensures
        found_text(tree, keys) is None ==> required_text(tree, keys) == Err::<Seq<char>, Seq<char>>(
            "Herdr response omitted required field "@ + joined(keys, " or "@),
        ),
        found_text(tree, keys) != Some(expected) ==> unproved_text(tree, keys, expected) == Some(
            "Herdr response does not prove exact "@ + joined(keys, " or "@),
        ),
{
}

/// A session that must not be used is refused before anything is run.
pub proof fn refused_session_runs_nothing(
    program: Seq<u8>,
    session: Seq<char>,
    replies: Seq<CommandReply>,
    started: Option<Result<(), String>>,
    token: Seq<char>,
)
    requires
        session_refusal(session) is Some,
    ensures
        session_step(program, session, replies, started, token) == StepModel::<LeaseModel>::Done(
            Err(session_refusal(session)->0),
        ),
{
}

/// A workspace that could not be created is refused with why its response could not be read, or with
/// the first id that the response omits: the workspace's, the tab's, the pane's.
pub proof fn refused_workspaces(
    program: Seq<u8>,
    lease: LeaseModel,
    identity: IdentityModel,
    replies: Seq<CommandReply>,
)
    requires
        identity.well_formed(),
        replies.len() > 0,
    ensures
        ({
            let step = workspace_step(program, lease, identity, replies);
            let created = herdr_json(
                replies[0],
                seq![
                    "workspace"@,
                    "create"@,
                    "--cwd"@,
                    shown_text(identity.canonical_home),
                    "--label"@,
                    "firstmate-"@ + identity.managed_agent_id + "-"@ + identity.home_sha256.take(
                        12,
                    ),
                    "--no-focus"@,
                ],
            );
            &&& created matches Err(error) ==> step == StepModel::<ParentModel>::Done(Err(error))
            &&& created matches Ok(response) ==> {
                let workspace = required_text(response, seq!["workspace_id"@]);
                let tab = required_text(response, seq!["root_tab_id"@, "tab_id"@]);
                let pane = required_text(response, seq!["root_pane_id"@, "pane_id"@]);
                &&& workspace matches Err(error) ==> step == StepModel::<ParentModel>::Done(
                    Err(error),
                )
                &&& workspace is Ok ==> (tab matches Err(error) ==> step == StepModel::<
                    ParentModel,
                >::Done(Err(error)))
                &&& workspace is Ok && tab is Ok ==> (pane matches Err(error) ==> step
                    == StepModel::<ParentModel>::Done(Err(error)))
            }
        }),
{
    fingerprint_can_be_shortened(identity);
}

/// What is said of an endpoint that the server does not vouch for: why the server's state is not
/// known, that it does not run or runs elsewhere, why a question was not answered, and then the first
/// thing that the answers leave unproved.
pub proof fn refused_preflights(
    program: Seq<u8>,
    parent: ParentModel,
    identity: IdentityModel,
    replies: Seq<CommandReply>,
    workspaces: JsonTree,
    tab: JsonTree,
    pane: JsonTree,
)
    requires
        parent.refusal() is None,
        replies.len() > 0,
    ensures
        ({
            let step = preflight_step(program, parent, identity, replies);
            let status = status_outcome(replies[0]);
            let listed = herdr_json(replies[1], seq!["workspace"@, "list"@]);
            let got_tab = herdr_json(replies[2], seq!["tab"@, "get"@, parent.root_tab_id]);
            let got_pane = herdr_json(replies[3], seq!["pane"@, "get"@, parent.root_pane_id]);
            let at_socket = status matches Ok(Some(socket)) && same_path(
                socket,
                parent.socket_path,
            );
            let answered = replies.len() > 3 && at_socket && listed == Ok::<JsonTree, Seq<char>>(
                workspaces,
            ) && got_tab == Ok::<JsonTree, Seq<char>>(tab) && got_pane == Ok::<JsonTree, Seq<char>>(
                pane,
            );
            let is_listed = holds_text(
                workspaces,
                seq!["workspace_id"@, "id"@],
                parent.workspace_id,
            );
            let tab_id = unproved_text(tab, seq!["tab_id"@], parent.root_tab_id);
            let tab_workspace = unproved_text(tab, seq!["workspace_id"@], parent.workspace_id);
            let pane_id = unproved_text(pane, seq!["pane_id"@], parent.root_pane_id);
            let pane_tab = unproved_text(pane, seq!["tab_id"@], parent.root_tab_id);
            let pane_workspace = unproved_text(pane, seq!["workspace_id"@], parent.workspace_id);
            let pane_home = unproved_text(
                pane,
                seq!["foreground_cwd"@],
                shown_text(identity.canonical_home),
            );
            &&& status matches Err(error) ==> step == StepModel::<()>::Done(Err(error))
            &&& status == Ok::<Option<Seq<u8>>, Seq<char>>(None) ==> step == StepModel::<()>::Done(
                Err("dedicated Herdr session is not running"@),
            )
            &&& status is Ok && status->Ok_0 is Some && !at_socket ==> step == StepModel::<
                (),
            >::Done(Err("Herdr session socket differs from the persisted endpoint"@))
            &&& replies.len() > 1 && at_socket ==> (listed matches Err(error) ==> step
                == StepModel::<()>::Done(Err(error)))
            &&& replies.len() > 2 && at_socket && listed is Ok ==> (got_tab matches Err(error)
                ==> step == StepModel::<()>::Done(Err(error)))
            &&& replies.len() > 3 && at_socket && listed is Ok && got_tab is Ok ==> (
            got_pane matches Err(error) ==> step == StepModel::<()>::Done(Err(error)))
            &&& answered && !is_listed ==> step == StepModel::<()>::Done(
                Err("Herdr response does not prove exact workspace_id or id"@),
            )
            &&& answered && is_listed ==> (tab_id matches Some(error) ==> step == StepModel::<
                (),
            >::Done(Err(error)))
            &&& answered && is_listed && tab_id is None ==> (tab_workspace matches Some(error)
                ==> step == StepModel::<()>::Done(Err(error)))
            &&& answered && is_listed && tab_id is None && tab_workspace is None ==> (
            pane_id matches Some(error) ==> step == StepModel::<()>::Done(Err(error)))
            &&& answered && is_listed && tab_id is None && tab_workspace is None && pane_id is None
                ==> (pane_tab matches Some(error) ==> step == StepModel::<()>::Done(Err(error)))
            &&& answered && is_listed && tab_id is None && tab_workspace is None && pane_id is None
                && pane_tab is None ==> (pane_workspace matches Some(error) ==> step == StepModel::<
                (),
            >::Done(Err(error)))
            &&& answered && is_listed && tab_id is None && tab_workspace is None && pane_id is None
                && pane_tab is None && pane_workspace is None ==> (pane_home matches Some(error)
                ==> step == StepModel::<()>::Done(Err(error)))
        }),
{
    let rest = replies.skip(1);
    if replies.len() > 1 {
        assert(rest[0] == replies[1]);
    }
    if replies.len() > 2 {
        assert(rest[1] == replies[2]);
    }
    if replies.len() > 3 {
        assert(rest[2] == replies[3]);
    }
}

/// What is said of a workspace that is not known to be gone after its close.
pub proof fn refused_closes(
    program: Seq<u8>,
    parent: ParentModel,
    replies: Seq<CommandReply>,
    workspaces: JsonTree,
)
    requires
        parent.refusal() is None,
        replies.len() >= 2,
        herdr_output(replies[0]) is Ok,
    ensures
        herdr_json(replies[1], seq!["workspace"@, "list"@]) matches Err(error) ==> release_step(
            program,
            parent,
            replies,
        ) == StepModel::<()>::Done(Err(error)),
        herdr_json(replies[1], seq!["workspace"@, "list"@]) == Ok::<JsonTree, Seq<char>>(workspaces)
            && holds_text(workspaces, seq!["workspace_id"@, "id"@], parent.workspace_id)
            ==> release_step(program, parent, replies) == StepModel::<()>::Done(
            Err("Herdr workspace remained after exact close"@),
        ),
{
}

/// What is said of a server that is not stopped.
pub proof fn refused_stops(program: Seq<u8>, lease: LeaseModel, replies: Seq<CommandReply>)
    ensures
        !lease.started_by_buzz ==> stop_step(program, lease, replies) == StepModel::<()>::Done(
            Err("refusing to stop an adopted Herdr session"@),
        ),
        lease.started_by_buzz && replies.len() > 0 ==> (herdr_output(replies[0]) matches Err(error)
            ==> stop_step(program, lease, replies) == StepModel::<()>::Done(Err(error))),
{
}

/// What is said of a path that an agent cannot run from: that it is relative, then that nothing is
/// there, then that it is a link or no directory, then what came of following it.
pub proof fn refused_directories(path: Seq<u8>, probe: DirectoryProbe)
    ensures
        ({
            let answer = directory_outcome(Some(path), probe);
            &&& !absolute(path) ==> answer == Err::<Option<Seq<u8>>, Seq<char>>(
                "working directory must be an absolute path"@,
            )
            &&& absolute(path) && probe is Missing ==> answer == Err::<Option<Seq<u8>>, Seq<char>>(
                "working directory does not exist: "@ + shown_text(path),
            )
            &&& absolute(path) ==> (probe matches DirectoryProbe::Found { kind, resolved } ==> {
                &&& kind is Symlink ==> answer == Err::<Option<Seq<u8>>, Seq<char>>(
                    "working directory must not be a symlink"@,
                )
                &&& kind is File || kind is Other ==> answer == Err::<Option<Seq<u8>>, Seq<char>>(
                    "working directory must be a directory"@,
                )
                &&& kind is Directory ==> (resolved matches Err(error) ==> answer == Err::<
                    Option<Seq<u8>>,
                    Seq<char>,
                >("failed to canonicalize working directory: "@ + error@))
                &&& kind is Directory ==> (resolved matches Ok(target) ==> {
                    &&& target.kind matches Err(error) ==> answer == Err::<
                        Option<Seq<u8>>,
                        Seq<char>,
                    >("failed to inspect working directory: "@ + error@)
                    &&& target.kind matches Ok(there) ==> (!(there is Directory) ==> answer
                        == Err::<Option<Seq<u8>>, Seq<char>>(
                        "working directory must resolve to a real directory"@,
                    ))
                })
            })
        }),
{
}

/// What is said of a home with a part that is not as it must be. The instructions come first, then
/// the programs, then the state.
pub proof fn refused_homes(home: Seq<u8>, probe: HomeProbe)
    ensures
        ({
            let refusal = home_refusal(home, probe);
            let agents_file = joined_path(home, encode_utf8("AGENTS.md"@));
            let bin = joined_path(home, encode_utf8("bin"@));
            let state = joined_path(home, encode_utf8("state"@));
            let has_agents_file = probe.agents_file == Some(FileKind::File);
            let has_bin = probe.bin == Some(FileKind::Directory);
            let unlike = "FirstMate home must contain AGENTS.md, bin/, and state/"@;
            let linked = "FirstMate home required path must not be a symlink: "@;
            &&& probe.agents_file is None ==> refusal == Some(
                "FirstMate home is missing required "@ + "file"@ + ": "@ + shown_text(agents_file),
            )
            &&& probe.agents_file == Some(FileKind::Symlink) ==> refusal == Some(
                linked + shown_text(agents_file),
            )
            &&& probe.agents_file == Some(FileKind::Directory) || probe.agents_file == Some(
                FileKind::Other,
            ) ==> refusal == Some(unlike)
            &&& has_agents_file && probe.bin is None ==> refusal == Some(
                "FirstMate home is missing required "@ + "directory"@ + ": "@ + shown_text(bin),
            )
            &&& has_agents_file && probe.bin == Some(FileKind::Symlink) ==> refusal == Some(
                linked + shown_text(bin),
            )
            &&& has_agents_file && (probe.bin == Some(FileKind::File) || probe.bin == Some(
                FileKind::Other,
            )) ==> refusal == Some(unlike)
            &&& has_agents_file && has_bin && probe.state is None ==> refusal == Some(
                "FirstMate home is missing required "@ + "directory"@ + ": "@ + shown_text(state),
            )
            &&& has_agents_file && has_bin && probe.state == Some(FileKind::Symlink) ==> refusal
                == Some(linked + shown_text(state))
            &&& has_agents_file && has_bin && (probe.state == Some(FileKind::File) || probe.state
                == Some(FileKind::Other)) ==> refusal == Some(unlike)
        }),
{
}

/// What is said of a record that is refused: what is amiss with its directory, then that a FirstMate
/// has none, then what is amiss with its home.
pub proof fn refused_records(
    record: ManagedAgentRecord,
    directory: DirectoryProbe,
    home: HomeProbe,
    canonical: Seq<u8>,
)
    ensures
        ({
            let answer = record_outcome(record, directory, home);
            let selected = directory_outcome(held(record.working_directory), directory);
            &&& selected matches Err(error) ==> answer == Err::<Option<Seq<u8>>, Seq<char>>(error)
            &&& record.firstmate && record.working_directory is None ==> answer == Err::<
                Option<Seq<u8>>,
                Seq<char>,
            >("FirstMate agents require a FirstMate working directory"@)
            &&& record.firstmate && selected == Ok::<Option<Seq<u8>>, Seq<char>>(Some(canonical))
                ==> (home_refusal(canonical, home) matches Some(error) ==> answer == Err::<
                Option<Seq<u8>>,
                Seq<char>,
            >(error))
        }),
{
}

/// What is said of a report that is neither an approval nor a refusal: the first line, quoted.
pub proof fn refused_reports(output: Seq<char>)
    ensures
        ({
            let lines = lines_of(output);
            let report = if lines.len() > 0 {
                trimmed(lines[0])
            } else {
                Seq::<char>::empty()
            };
            report != "safe"@ && report != "supervision-transferred"@ && !"refused:"@.is_prefix_of(
                report,
            ) ==> report_meaning(output) == Err::<FirstMateStopDisposition, Seq<char>>(
                "FirstMate lifecycle returned an unrecognized stop report: "@ + quoted_text(report),
            )
        }),
{
}

/// What is said of a lifecycle command that did not allow the stop: why it did not start; how it
/// failed, with what it printed of that if it printed anything; or what its report means.
pub proof fn refused_handoffs(reply: CommandReply)
    ensures
        reply matches CommandReply::NotStarted(error) ==> handoff_verdict(reply) == Err::<
            (),
            Seq<char>,
        >("failed to run FirstMate lifecycle command: "@ + error@),
        reply matches CommandReply::Exited { success, status, stdout, stderr } ==> {
            let printed = shown_text(stderr@);
            &&& !success && blank(printed) ==> handoff_verdict(reply) == Err::<(), Seq<char>>(
                "FirstMate lifecycle command failed ("@ + status@ + ")"@,
            )
            &&& !success && !blank(printed) ==> handoff_verdict(reply) == Err::<(), Seq<char>>(
                "FirstMate lifecycle command failed ("@ + status@ + ")"@ + (": "@ + trimmed(printed)),
            )
            &&& success ==> (report_meaning(shown_text(stdout@)) matches Err(error)
                ==> handoff_verdict(reply) == Err::<(), Seq<char>>(error))
        },
{
    match reply {
        CommandReply::Exited { success, status, stdout, stderr } => {
            let failed = "FirstMate lifecycle command failed ("@ + status@ + ")"@;
            assert(failed + Seq::<char>::empty() =~= failed);
        },
        _ => {},
    }
}

/// What is said before the lifecycle command is even run: what is amiss with the record, then why the
/// command could not be inspected, then that it is no regular file.
pub proof fn refused_preparations(
    record: ManagedAgentRecord,
    harness_pids: Seq<u32>,
    probe: StopProbe,
    reply: Option<CommandReply>,
    home: Seq<u8>,
)
    requires
        record.firstmate,
    ensures
        ({
            let step = handoff_step(record, harness_pids, probe, reply);
            let accepted = record_outcome(record, probe.directory, probe.home);
            &&& accepted matches Err(error) ==> step == StopModel::Done(Err(error))
            &&& accepted == Ok::<Option<Seq<u8>>, Seq<char>>(Some(home)) ==> (
            probe.lifecycle matches Err(error) ==> step == StopModel::Done(
                Err("FirstMate lifecycle command is unavailable: "@ + error@),
            ))
            &&& accepted == Ok::<Option<Seq<u8>>, Seq<char>>(Some(home)) ==> (
            probe.lifecycle matches Ok(kind) ==> (!(kind is File) ==> step == StopModel::Done(
                Err(
                    "FirstMate lifecycle command is not a regular file: "@ + shown_text(
                        joined_path(home, encode_utf8("bin/fm-buzz-lifecycle.sh"@)),
                    ),
                ),
            )))
        }),
{
}

/// What is said of a file whose permissions could not be read or changed.
pub proof fn refused_permissions(bits: u32, changed: Option<Result<(), String>>, error: String)
    ensures
        permission_step(true, Some(Err(error)), changed) == PermissionModel::Done(
            Err("cannot inspect bridge permissions: "@ + error@),
        ),
        bits & 0o111 == 0 ==> permission_step(true, Some(Ok(Some(bits))), Some(Err(error)))
            == PermissionModel::Done(
            Err("cannot make FirstMate Buzz bridge executable: "@ + error@),
        ),
{
}

/// What is said of a file of the bridge that is not as it must be, with its path.
pub proof fn refused_files(
    home: Seq<u8>,
    file: BridgeFileModel,
    answers: FileAnswers,
    error: String,
)
    ensures
        ({
            let step = file_step(home, file, answers);
            let target = shown_text(joined_path(home, encode_utf8(file.relative_path)));
            let found = answers.inspected == Some(Inspection::Found(FileKind::File));
            let missing = answers.inspected == Some(Inspection::Missing);
            &&& answers.inspected == Some(Inspection::Failed(error)) ==> step == FileModel::Refused(
                "cannot inspect FirstMate Buzz bridge "@ + target + ": "@ + error@,
            )
            &&& answers.inspected matches Some(Inspection::Found(kind)) ==> (!(kind is File) ==> step
                == FileModel::Refused(
                "FirstMate Buzz bridge path is not a regular file: "@ + target,
            ))
            &&& found && answers.read == Some(Err::<Vec<u8>, String>(error)) ==> step
                == FileModel::Refused(
                "cannot read FirstMate Buzz bridge "@ + target + ": "@ + error@,
            )
            &&& found ==> (answers.read matches Some(Ok(existing)) ==> (existing@ != file.contents
                ==> step == FileModel::Refused(
                "FirstMate Buzz bridge file differs from this Buzz build: "@ + target
                    + ". Back it up and update the bridge explicitly before starting this agent"@,
            )))
            &&& missing && answers.installed == Some(InstallReply::NotCreated(error)) ==> step
                == FileModel::Refused(
                "cannot install FirstMate Buzz bridge "@ + target + ": "@ + error@,
            )
            &&& missing && answers.installed == Some(InstallReply::NotWritten(error)) ==> step
                == FileModel::Refused(
                "cannot write FirstMate Buzz bridge "@ + target + ": "@ + error@,
            )
            &&& missing && answers.installed == Some(InstallReply::NotSynced(error)) ==> step
                == FileModel::Refused(
                "cannot sync FirstMate Buzz bridge "@ + target + ": "@ + error@,
            )
        }),
{
}

/// What is said of a home whose directory of programs is not a real one.
pub proof fn refused_bridges(
    home: Seq<u8>,
    files: Seq<BridgeFileModel>,
    bin: Result<FileKind, String>,
    answers: Seq<FileAnswers>,
)
    ensures
        bin matches Err(error) ==> bridge_step(home, files, bin, answers) == BridgeModel::Done(
            Err("cannot inspect FirstMate bin directory: "@ + error@),
        ),
        bin matches Ok(kind) ==> (!(kind is Directory) ==> bridge_step(home, files, bin, answers)
            == BridgeModel::Done(
            Err(
                "FirstMate bin directory must be a real directory: "@ + shown_text(
                    joined_path(home, encode_utf8("bin"@)),
                ),
            ),
        )),
{
}

} // verus!
