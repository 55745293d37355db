//! What holds of the command-line broker whatever Herdr replies.

use vstd::prelude::*;
use vstd::utf8::{encode_utf8, is_char_boundary};

use crate::cli::{
    adopted_lease, created_endpoint, endpoint_doubt, herdr_json, list_operation, preflight_step,
    ready_step, release_step, session_step, short_fingerprint, started_lease, status_outcome,
    stop_step, topology_step, workspace_keys, workspace_step, CommandModel, StepModel,
    SERVER_READY_ATTEMPTS,
};
use crate::command::CommandReply;
use crate::contract::inherited_names;
use crate::digest::{hex_digit, hex_text, sha256_digest};
use crate::encoding::shown_text;
use crate::fleet::{endpoint_refusal, fresh_state, lease_refusal, session_refusal};
use crate::identity::{IdentityModel, LeaseModel, ParentModel};
use crate::json::{found_text, holds_text, JsonTree};
use crate::path::{absolute, same_path};
use crate::text::{blank, white_space};

verus! {

/// Whether a command runs this program in this session, with the session before the operation and
/// without the settings that Herdr leaves to its panes.
pub open spec fn pinned(command: CommandModel, program: Seq<u8>, session: Seq<char>) -> bool {
    &&& command.program == program
    &&& command.removed == inherited_names()
    &&& command.arguments.len() > 2
    &&& command.arguments[0] == "--session"@
    &&& command.arguments[1] == session
}

/// Whether the command of a step, if it has one, is pinned to a session.
pub open spec fn step_pinned<M>(
    step: StepModel<M>,
    program: Seq<u8>,
    session: Seq<char>,
) -> bool {
    match step {
        StepModel::Run { command, .. } => pinned(command, program, session),
        StepModel::Start(command) => pinned(command, program, session),
        StepModel::Done(_) => true,
    }
}

proof fn lemma_ready_step_pinned(
    program: Seq<u8>,
    session: Seq<char>,
    asked: nat,
    replies: Seq<CommandReply>,
)
    ensures
        step_pinned(ready_step(program, session, asked, replies), program, session),
    decreases replies.len(),
{
    if asked < SERVER_READY_ATTEMPTS && replies.len() > 0 {
        lemma_ready_step_pinned(program, session, asked + 1, replies.skip(1));
    }
}

/// Every command that the broker runs is pinned to the session of its lease or endpoint: none
/// depends on ambient settings or on the user's default session.
pub proof fn every_command_names_its_session(
    program: Seq<u8>,
    session: Seq<char>,
    replies: Seq<CommandReply>,
    started: Option<Result<(), String>>,
    token: Seq<char>,
    lease: LeaseModel,
    parent: ParentModel,
    identity: IdentityModel,
)
    ensures
        step_pinned(
            session_step(program, session, replies, started, token),
            program,
            session,
        ),
        step_pinned(
            workspace_step(program, lease, identity, replies),
            program,
            lease.session,
        ),
        step_pinned(
            preflight_step(program, parent, identity, replies),
            program,
            parent.session,
        ),
        step_pinned(release_step(program, parent, replies), program, parent.session),
        step_pinned(stop_step(program, lease, replies), program, lease.session),
{
    lemma_ready_step_pinned(program, session, 0, replies.skip(1));
}

/// Nothing is run for a session that is not dedicated.
pub proof fn default_session_runs_nothing(
    program: Seq<u8>,
    session: Seq<char>,
    replies: Seq<CommandReply>,
    started: Option<Result<(), String>>,
    token: Seq<char>,
)
    requires
        session_refusal(session) is Some,
    ensures
        session_step(program, session, replies, started, token) == StepModel::<LeaseModel>::Done(
            Err(session_refusal(session)->0),
        ),
{
}

proof fn lemma_ready_step_ends(
    program: Seq<u8>,
    session: Seq<char>,
    asked: nat,
    replies: Seq<CommandReply>,
)
    requires
        asked + replies.len() >= SERVER_READY_ATTEMPTS,
    ensures
        ready_step(program, session, asked, replies) is Done,
    decreases replies.len(),
{
    if asked < SERVER_READY_ATTEMPTS && status_outcome(replies[0]) == Ok::<
        Option<Seq<u8>>,
        Seq<char>,
    >(None) {
        lemma_ready_step_ends(program, session, asked + 1, replies.skip(1));
    }
}

/// Every operation ends after a bounded number of replies.
pub proof fn every_operation_ends(
    program: Seq<u8>,
    session: Seq<char>,
    replies: Seq<CommandReply>,
    started: Result<(), String>,
    token: Seq<char>,
    lease: LeaseModel,
    parent: ParentModel,
    identity: IdentityModel,
)
    ensures
        replies.len() > SERVER_READY_ATTEMPTS ==> session_step(
            program,
            session,
            replies,
            Some(started),
            token,
        ) is Done,
        replies.len() >= 1 ==> workspace_step(program, lease, identity, replies) is Done,
        replies.len() >= 4 ==> preflight_step(program, parent, identity, replies) is Done,
        replies.len() >= 2 ==> release_step(program, parent, replies) is Done,
        replies.len() >= 1 ==> stop_step(program, lease, replies) is Done,
{
    if replies.len() > SERVER_READY_ATTEMPTS {
        lemma_ready_step_ends(program, session, 0, replies.skip(1));
    }
}

proof fn lemma_ready_socket(
    program: Seq<u8>,
    session: Seq<char>,
    asked: nat,
    replies: Seq<CommandReply>,
    socket: Seq<u8>,
)
    requires
        ready_step(program, session, asked, replies) == StepModel::<Seq<u8>>::Done(Ok(socket)),
    ensures
        absolute(socket),
    decreases replies.len(),
{
    if status_outcome(replies[0]) == Ok::<Option<Seq<u8>>, Seq<char>>(None) {
        lemma_ready_socket(program, session, asked + 1, replies.skip(1), socket);
    }
}

/// A lease that the broker grants is one that a fleet without a lease admits: it is for the requested
/// session, its socket is absolute and its id is not empty.
pub proof fn granted_lease_is_admissible(
    program: Seq<u8>,
    session: Seq<char>,
    replies: Seq<CommandReply>,
    started: Option<Result<(), String>>,
    token: Seq<char>,
    lease: LeaseModel,
)
    requires
        session_step(program, session, replies, started, token) == StepModel::<LeaseModel>::Done(
            Ok(lease),
        ),
    ensures
        lease.session == session,
        absolute(lease.socket_path),
        !blank(lease.lease_id),
        lease_refusal(fresh_state(session), lease) is None,
{
    reveal_strlit("adopt:");
    reveal_strlit("buzz:");
    match status_outcome(replies[0]) {
        Ok(Some(socket)) => {
            assert(lease == adopted_lease(session, socket));
            assert(lease.lease_id[0] == 'a');
        },
        _ => {
            let socket = ready_step(program, session, 0, replies.skip(1))->Done_0->Ok_0;
            lemma_ready_socket(program, session, 0, replies.skip(1), socket);
            assert(lease == started_lease(session, socket, token));
            assert(lease.lease_id[0] == 'b');
        },
    }
    assert(!white_space(lease.lease_id[0]));
}

/// A server that was running before is adopted, never claimed: its lease does not allow to stop it.
pub proof fn running_server_is_adopted(
    program: Seq<u8>,
    session: Seq<char>,
    replies: Seq<CommandReply>,
    started: Option<Result<(), String>>,
    token: Seq<char>,
    lease: LeaseModel,
)
    requires
        session_step(program, session, replies, started, token) == StepModel::<LeaseModel>::Done(
            Ok(lease),
        ),
    ensures
        lease.started_by_buzz == (status_outcome(replies[0]) == Ok::<
            Option<Seq<u8>>,
            Seq<char>,
        >(None)),
{
}

/// The broker runs nothing to stop a session that was adopted.
pub proof fn adopted_session_is_not_stopped(
    program: Seq<u8>,
    lease: LeaseModel,
    replies: Seq<CommandReply>,
)
    requires
        !lease.started_by_buzz,
    ensures
        stop_step(program, lease, replies) is Done,
        stop_step(program, lease, replies)->Done_0 is Err,
{
}

/// A workspace that the broker creates belongs to the session and the server of the lease.
pub proof fn created_endpoint_belongs_to_its_lease(
    lease: LeaseModel,
    response: JsonTree,
    parent: ParentModel,
)
    requires
        created_endpoint(lease, response) == Ok::<ParentModel, Seq<char>>(parent),
    ensures
        parent.session == lease.session,
        parent.socket_path == lease.socket_path,
        endpoint_refusal(lease, parent) == parent.refusal(),
{
}

/// What an accepted preflight proves: the server runs at the endpoint's socket, the workspace is
/// listed, tab and pane carry the endpoint's exact ids, and the pane stands in the owner's home.
pub proof fn accepted_preflight_proves_the_endpoint(
    program: Seq<u8>,
    parent: ParentModel,
    identity: IdentityModel,
    replies: Seq<CommandReply>,
)
    requires
        preflight_step(program, parent, identity, replies) == StepModel::<()>::Done(Ok(())),
    ensures
        replies.len() >= 4,
        status_outcome(replies[0]) matches Ok(Some(socket)) && same_path(
            socket,
            parent.socket_path,
        ),
        herdr_json(replies[1], list_operation()) matches Ok(workspaces) && holds_text(
            workspaces,
            workspace_keys(),
            parent.workspace_id,
        ),
        herdr_json(replies[2], seq!["tab"@, "get"@, parent.root_tab_id]) matches Ok(tab) && {
            &&& found_text(tab, seq!["tab_id"@]) == Some(parent.root_tab_id)
            &&& found_text(tab, seq!["workspace_id"@]) == Some(parent.workspace_id)
        },
        herdr_json(replies[3], seq!["pane"@, "get"@, parent.root_pane_id]) matches Ok(pane) && {
            &&& found_text(pane, seq!["pane_id"@]) == Some(parent.root_pane_id)
            &&& found_text(pane, seq!["tab_id"@]) == Some(parent.root_tab_id)
            &&& found_text(pane, seq!["workspace_id"@]) == Some(parent.workspace_id)
            &&& found_text(pane, seq!["foreground_cwd"@]) == Some(
                shown_text(identity.canonical_home),
            )
        },
{
    let rest = replies.skip(1);
    assert(topology_step(program, parent, identity, rest) == StepModel::<()>::Done(Ok(())));
    assert(rest[0] == replies[1]);
    assert(rest[1] == replies[2]);
    assert(rest[2] == replies[3]);
    let workspaces = herdr_json(rest[0], list_operation())->Ok_0;
    let tab = herdr_json(rest[1], seq!["tab"@, "get"@, parent.root_tab_id])->Ok_0;
    let pane = herdr_json(rest[2], seq!["pane"@, "get"@, parent.root_pane_id])->Ok_0;
    assert(endpoint_doubt(parent, identity, workspaces, tab, pane) is None);
}

/// One set of replies proves an endpoint for one home only: an endpoint that is valid in itself is
/// still refused to an owner whose home reads differently.
pub proof fn endpoint_is_proved_for_one_home(
    program: Seq<u8>,
    parent: ParentModel,
    a: IdentityModel,
    b: IdentityModel,
    replies: Seq<CommandReply>,
)
    requires
        preflight_step(program, parent, a, replies) == StepModel::<()>::Done(Ok(())),
        shown_text(a.canonical_home) != shown_text(b.canonical_home),
    ensures
        preflight_step(program, parent, b, replies) is Done,
        preflight_step(program, parent, b, replies)->Done_0 is Err,
{
    accepted_preflight_proves_the_endpoint(program, parent, a, replies);
    every_operation_ends(
        program,
        parent.session,
        replies,
        Ok(()),
        Seq::empty(),
        LeaseModel {
            session: parent.session,
            socket_path: parent.socket_path,
            lease_id: Seq::empty(),
            started_by_buzz: false,
        },
        parent,
        b,
    );
    if preflight_step(program, parent, b, replies) == StepModel::<()>::Done(Ok(())) {
        accepted_preflight_proves_the_endpoint(program, parent, b, replies);
    }
}

/// What an accepted release proves: the exact workspace is absent from the list that was read after
/// it was closed.
pub proof fn accepted_release_proves_absence(
    program: Seq<u8>,
    parent: ParentModel,
    replies: Seq<CommandReply>,
)
    requires
        release_step(program, parent, replies) == StepModel::<()>::Done(Ok(())),
    ensures
        replies.len() >= 2,
        herdr_json(replies[1], list_operation()) matches Ok(workspaces) && !holds_text(
            workspaces,
            workspace_keys(),
            parent.workspace_id,
        ),
{
}

/// The fingerprint of a well-formed identity can be shortened, and what is left of it are its first
/// twelve characters.
pub proof fn fingerprint_can_be_shortened(identity: IdentityModel)
    requires
        identity.well_formed(),
    ensures
        is_char_boundary(encode_utf8(identity.home_sha256), 12),
        short_fingerprint(identity.home_sha256) == identity.home_sha256.take(12),
{
    let digest = sha256_digest(identity.canonical_home);
    let text = identity.home_sha256;
    assert(text == hex_text(digest));
    assert forall|i: int| 0 <= i < text.len() implies (#[trigger] text[i] as u32) < 0x80 by {
        let n = if i % 2 == 0 {
            digest[i / 2] / 16
        } else {
            digest[i / 2] % 16
        };
        assert(text[i] == hex_digit(n));
        assert(n < 16);
    }
    assert(vstd::utf8::is_ascii_chars(text));
    vstd::utf8::is_ascii_chars_encode_utf8(text);
    let bytes = encode_utf8(text);
    vstd::utf8::encode_utf8_valid_utf8(text);
    vstd::utf8::is_char_boundary_iff_not_is_continuation_byte(bytes, 12);
    let head = text.take(12);
    vstd::utf8::is_ascii_chars_encode_utf8(head);
    assert(encode_utf8(head) =~= bytes.take(12));
    vstd::utf8::encode_utf8_decode_utf8(head);
}

} // verus!
