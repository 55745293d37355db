//! What holds of the fleet across calls, whatever its broker answers.

use vstd::prelude::*;

use crate::broker::BrokerCall;
use crate::digest::home_fingerprint;
use crate::fleet::{
    acceptable, endpoint_refusal, ensure_protocol, entry_refusal, fresh_preflight, fresh_state,
    lease_refusal, proving_end, proving_protocol, release_protocol, session_refusal,
    state_with_endpoint, workspace_protocol, StateModel, FRESH_ENDPOINT_PREFLIGHT_ATTEMPTS,
};
use crate::identity::{IdentityModel, LeaseModel, ParentModel, SnapshotModel};
use crate::path::same_path;
use crate::text::blank;

verus! {

/// Whether a workspace is asked for.
pub open spec fn asks_workspace(call: BrokerCall) -> bool {
    call is EnsureWorkspace
}

/// Whether a server is asked to stop.
pub open spec fn asks_stop(call: BrokerCall) -> bool {
    call is StopSession
}

/// Ensuring an endpoint either records it and answers with what it recorded, or refuses and changes
/// nothing. The endpoint of an owner that had one stays the same, and a fresh one is the owner's.
pub proof fn ensuring_records_or_changes_nothing(
    before: StateModel,
    identity: IdentityModel,
    calls: Seq<BrokerCall>,
    result: Result<SnapshotModel, Seq<char>>,
    after: StateModel,
)
    requires
        ensure_protocol(before, identity, calls, result, after),
    ensures
        result is Err ==> after == before,
        result matches Ok(snapshot) ==> {
            &&& after.agents.contains_key(identity.key())
            &&& after.agents[identity.key()] == snapshot
            &&& before.agents.contains_key(identity.key()) ==> after == before
            &&& !before.agents.contains_key(identity.key()) ==> snapshot.identity == identity
        },
{
}

/// Ensuring one owner's endpoint leaves the session and every other owner's endpoint alone.
pub proof fn ensuring_leaves_other_owners_alone(
    before: StateModel,
    identity: IdentityModel,
    calls: Seq<BrokerCall>,
    result: Result<SnapshotModel, Seq<char>>,
    after: StateModel,
    other: Seq<char>,
)
    requires
        ensure_protocol(before, identity, calls, result, after),
        other != identity.key(),
    ensures
        after.session == before.session,
        after.agents.contains_key(other) == before.agents.contains_key(other),
        before.agents.contains_key(other) ==> after.agents[other] == before.agents[other],
{
}

/// An endpoint, once ensured, is reused: the next time its owner asks, its exact root pane is proved
/// again and nothing else is asked, and the answer, if there is one, is the same endpoint.
pub proof fn ensured_endpoint_is_reused(
    first: StateModel,
    identity: IdentityModel,
    calls: Seq<BrokerCall>,
    snapshot: SnapshotModel,
    second: StateModel,
    later_calls: Seq<BrokerCall>,
    later_result: Result<SnapshotModel, Seq<char>>,
    third: StateModel,
)
    requires
        ensure_protocol(first, identity, calls, Ok(snapshot), second),
        ensure_protocol(second, identity, later_calls, later_result, third),
    ensures
        later_calls.len() == 1,
        later_calls[0] matches BrokerCall::Preflight { parent, identity: owner, .. }
            && parent == snapshot.parent && owner == identity,
        later_result matches Ok(again) ==> again == snapshot,
        third == second,
{
}

/// A recorded endpoint that fails its preflight is refused. No session and no workspace is asked for
/// in its place.
pub proof fn stale_endpoint_fails_closed(
    before: StateModel,
    identity: IdentityModel,
    calls: Seq<BrokerCall>,
    result: Result<SnapshotModel, Seq<char>>,
    after: StateModel,
)
    requires
        before.agents.contains_key(identity.key()),
        ensure_protocol(before, identity, calls, result, after),
    ensures
        calls.len() == 1,
        calls[0] is Preflight,
        calls[0]->Preflight_reply is Err ==> result is Err,
        calls[0]->Preflight_reply is Ok ==> result == Ok::<SnapshotModel, Seq<char>>(
            before.agents[identity.key()],
        ),
        after == before,
{
}

proof fn lemma_fresh_calls(
    parent: ParentModel,
    identity: IdentityModel,
    attempt: nat,
    calls: Seq<BrokerCall>,
    proved: Result<(), Seq<char>>,
)
    requires
        attempt < FRESH_ENDPOINT_PREFLIGHT_ATTEMPTS,
        fresh_preflight(parent, identity, attempt, calls, proved),
    ensures
        0 < calls.len() <= 2 * (FRESH_ENDPOINT_PREFLIGHT_ATTEMPTS - attempt) - 1,
        forall|i: int|
            0 <= i < calls.len() ==> if i % 2 == 0 {
                #[trigger] calls[i] matches BrokerCall::Preflight { parent: p, identity: o, .. }
                    && p == parent && o == identity
            } else {
                calls[i] is Pause
            },
    decreases FRESH_ENDPOINT_PREFLIGHT_ATTEMPTS - attempt,
{
    if calls[0]->Preflight_reply is Err && attempt + 1 < FRESH_ENDPOINT_PREFLIGHT_ATTEMPTS {
        let rest = calls.skip(2);
        lemma_fresh_calls(parent, identity, attempt + 1, rest, proved);
        assert forall|i: int| 0 <= i < calls.len() implies if i % 2 == 0 {
            #[trigger] calls[i] matches BrokerCall::Preflight { parent: p, identity: o, .. } && p
                == parent && o == identity
        } else {
            calls[i] is Pause
        } by {
            if i >= 2 {
                assert(calls[i] == rest[i - 2]);
                assert((i - 2) % 2 == i % 2);
            }
        }
    }
}

/// A fresh endpoint is tried a bounded number of times, with one wait between two attempts, and
/// every attempt is at this exact endpoint for this exact owner.
pub proof fn fresh_endpoint_is_tried_a_bounded_number_of_times(
    parent: ParentModel,
    identity: IdentityModel,
    calls: Seq<BrokerCall>,
    proved: Result<(), Seq<char>>,
)
    requires
        fresh_preflight(parent, identity, 0, calls, proved),
    ensures
        0 < calls.len() <= 2 * FRESH_ENDPOINT_PREFLIGHT_ATTEMPTS - 1,
        forall|i: int|
            0 <= i < calls.len() ==> if i % 2 == 0 {
                #[trigger] calls[i] matches BrokerCall::Preflight { parent: p, identity: o, .. }
                    && p == parent && o == identity
            } else {
                calls[i] is Pause
            },
{
    lemma_fresh_calls(parent, identity, 0, calls, proved);
}

/// The calls of an `ensure` after the session and the workspace: attempts and waits, and at most one
/// closing at the very end.
proof fn lemma_proving_calls(
    before: StateModel,
    identity: IdentityModel,
    lease: LeaseModel,
    parent: ParentModel,
    calls: Seq<BrokerCall>,
    result: Result<SnapshotModel, Seq<char>>,
    after: StateModel,
)
    requires
        proving_protocol(before, identity, lease, parent, calls, result, after),
    ensures
        calls.len() > 0,
        forall|i: int|
            0 <= i < calls.len() ==> {
                ||| #[trigger] calls[i] is Preflight
                ||| calls[i] is Pause
                ||| i == calls.len() - 1 && result is Err && (calls[i] matches
                    BrokerCall::ReleaseWorkspace { parent: closed, .. } && closed == parent)
            },
        result is Err ==> calls.last() is ReleaseWorkspace && calls.last()->ReleaseWorkspace_parent
            == parent,
{
    let (tries, proved) = choose|tries: Seq<BrokerCall>, proved: Result<(), Seq<char>>|
        {
            &&& #[trigger] fresh_preflight(parent, identity, 0, tries, proved)
            &&& proving_end(
                before,
                identity,
                lease,
                parent,
                calls,
                result,
                after,
                tries,
                proved,
            )
        };
    lemma_fresh_calls(parent, identity, 0, tries, proved);
    assert forall|i: int| 0 <= i < calls.len() implies {
        ||| #[trigger] calls[i] is Preflight
        ||| calls[i] is Pause
        ||| i == calls.len() - 1 && result is Err && (calls[i] matches
            BrokerCall::ReleaseWorkspace { parent: closed, .. } && closed == parent)
    } by {
        if i < tries.len() {
            assert(calls[i] == tries[i]);
        }
    }
}

/// Ensuring an endpoint never stops the server, asks for at most one workspace, and closes at most
/// one: the workspace that it was just given, at the very end, when that workspace is not proved to
/// be the owner's.
pub proof fn ensuring_closes_only_its_own_unproved_workspace(
    before: StateModel,
    identity: IdentityModel,
    calls: Seq<BrokerCall>,
    result: Result<SnapshotModel, Seq<char>>,
    after: StateModel,
)
    requires
        ensure_protocol(before, identity, calls, result, after),
    ensures
        forall|i: int| 0 <= i < calls.len() ==> !asks_stop(#[trigger] calls[i]),
        forall|i: int| 0 <= i < calls.len() && asks_workspace(#[trigger] calls[i]) ==> i == 1,
        forall|i: int|
            0 <= i < calls.len() && #[trigger] calls[i] is ReleaseWorkspace ==> {
                &&& i == calls.len() - 1
                &&& result is Err
                &&& calls.len() > 1
                &&& calls[1] is EnsureWorkspace
                &&& calls[1]->created == Ok::<ParentModel, Seq<char>>(
                    calls[i]->ReleaseWorkspace_parent,
                )
            },
{
    if !before.agents.contains_key(identity.key()) && calls[0]->granted is Ok {
        let lease = calls[0]->granted->Ok_0;
        if lease_refusal(before, lease) is None {
            let middle = calls.skip(1);
            assert(workspace_protocol(before, identity, lease, middle, result, after));
            assert(middle[0] == calls[1]);
            if middle[0]->created is Ok {
                let parent = middle[0]->created->Ok_0;
                if endpoint_refusal(lease, parent) is None {
                    let rest = middle.skip(1);
                    lemma_proving_calls(before, identity, lease, parent, rest, result, after);
                    assert forall|i: int| 2 <= i < calls.len() implies #[trigger] calls[i] == rest[i
                        - 2] by {}
                }
            }
        }
    }
}

/// No workspace is leaked: when an owner is refused after a workspace of the leased session was
/// created, the last thing asked is to close that exact workspace.
pub proof fn unproved_workspace_is_closed(
    before: StateModel,
    identity: IdentityModel,
    calls: Seq<BrokerCall>,
    error: Seq<char>,
    after: StateModel,
    lease: LeaseModel,
    parent: ParentModel,
)
    requires
        ensure_protocol(before, identity, calls, Err(error), after),
        calls.len() > 1,
        calls[1] == (BrokerCall::EnsureWorkspace { lease, identity, created: Ok(parent) }),
        endpoint_refusal(lease, parent) is None,
    ensures
        calls.last() is ReleaseWorkspace,
        calls.last()->ReleaseWorkspace_parent == parent,
        after == before,
{
    let result = Err::<SnapshotModel, Seq<char>>(error);
    let middle = calls.skip(1);
    assert(middle[0] == calls[1]);
    assert(workspace_protocol(before, identity, lease, middle, result, after));
    let rest = middle.skip(1);
    lemma_proving_calls(before, identity, lease, parent, rest, result, after);
    assert(rest.last() == calls.last());
}

/// The shared server is stopped only when it was started for this fleet and the released endpoint is
/// the last one: releasing one agent never stops a server that another still uses.
pub proof fn server_is_stopped_only_with_its_last_endpoint(
    before: StateModel,
    identity: IdentityModel,
    calls: Seq<BrokerCall>,
    result: Result<(), Seq<char>>,
    after: StateModel,
    i: int,
)
    requires
        release_protocol(before, identity, calls, result, after),
        0 <= i < calls.len(),
        asks_stop(calls[i]),
    ensures
        before.server_started_by_buzz,
        before.agents.dom() == set![identity.key()],
        before.server_lease == Some(calls[i]->StopSession_lease),
{
}

/// A server that was adopted is never stopped.
pub proof fn adopted_server_is_never_stopped(
    before: StateModel,
    identity: IdentityModel,
    calls: Seq<BrokerCall>,
    result: Result<(), Seq<char>>,
    after: StateModel,
)
    requires
        release_protocol(before, identity, calls, result, after),
        !before.server_started_by_buzz,
    ensures
        forall|i: int| 0 <= i < calls.len() ==> !asks_stop(#[trigger] calls[i]),
{
}

/// A release either forgets the endpoint, or fails and changes nothing, so that it can be tried
/// again with the same authority.
pub proof fn releasing_forgets_or_changes_nothing(
    before: StateModel,
    identity: IdentityModel,
    calls: Seq<BrokerCall>,
    result: Result<(), Seq<char>>,
    after: StateModel,
)
    requires
        release_protocol(before, identity, calls, result, after),
    ensures
        result is Err ==> after == before,
        result is Ok ==> after.agents == before.agents.remove(identity.key()),
{
    if !before.agents.contains_key(identity.key()) {
        assert(before.agents.remove(identity.key()) =~= before.agents);
    }
}

/// Releasing one owner's endpoint leaves the session and every other owner's endpoint alone, and
/// closes no workspace but the one recorded for that owner.
pub proof fn releasing_leaves_other_owners_alone(
    before: StateModel,
    identity: IdentityModel,
    calls: Seq<BrokerCall>,
    result: Result<(), Seq<char>>,
    after: StateModel,
    other: Seq<char>,
)
    requires
        release_protocol(before, identity, calls, result, after),
        other != identity.key(),
    ensures
        after.session == before.session,
        after.agents.contains_key(other) == before.agents.contains_key(other),
        before.agents.contains_key(other) ==> after.agents[other] == before.agents[other],
        forall|i: int|
            0 <= i < calls.len() && #[trigger] calls[i] is ReleaseWorkspace
                ==> calls[i]->ReleaseWorkspace_parent == before.agents[identity.key()].parent,
{
}

/// A release undoes an ensure: after both have succeeded the endpoints are what they were before the
/// owner had one.
pub proof fn releasing_undoes_ensuring(
    first: StateModel,
    identity: IdentityModel,
    calls: Seq<BrokerCall>,
    snapshot: SnapshotModel,
    second: StateModel,
    later_calls: Seq<BrokerCall>,
    third: StateModel,
)
    requires
        !first.agents.contains_key(identity.key()),
        ensure_protocol(first, identity, calls, Ok(snapshot), second),
        release_protocol(second, identity, later_calls, Ok(()), third),
    ensures
        third.agents == first.agents,
{
    assert(third.agents =~= first.agents);
}

/// After a release the next ensure of the same owner asks for a new workspace instead of the one
/// that was closed: what it answers with was created for it.
pub proof fn restart_after_release_asks_for_a_new_workspace(
    first: StateModel,
    identity: IdentityModel,
    calls: Seq<BrokerCall>,
    second: StateModel,
    later_calls: Seq<BrokerCall>,
    snapshot: SnapshotModel,
    third: StateModel,
)
    requires
        release_protocol(first, identity, calls, Ok(()), second),
        ensure_protocol(second, identity, later_calls, Ok(snapshot), third),
    ensures
        later_calls.len() > 2,
        later_calls[0] is EnsureSession,
        later_calls[1] is EnsureWorkspace,
        later_calls[1]->created == Ok::<ParentModel, Seq<char>>(snapshot.parent),
{
    releasing_forgets_or_changes_nothing(first, identity, calls, Ok(()), second);
    let lease = later_calls[0]->granted->Ok_0;
    let middle = later_calls.skip(1);
    let result = Ok::<SnapshotModel, Seq<char>>(snapshot);
    assert(workspace_protocol(second, identity, lease, middle, result, third));
    assert(middle[0] == later_calls[1]);
    let parent = middle[0]->created->Ok_0;
    lemma_proving_calls(second, identity, lease, parent, middle.skip(1), result, third);
}

/// Endpoints of one acceptable state share one server: the same session, the same socket and the
/// same lease.
pub proof fn recorded_endpoints_share_one_server(state: StateModel, a: Seq<char>, b: Seq<char>)
    requires
        acceptable(state),
        state.agents.contains_key(a),
        state.agents.contains_key(b),
    ensures
        state.agents[a].parent.session == state.session,
        state.agents[a].parent.session == state.agents[b].parent.session,
        same_path(state.agents[a].parent.socket_path, state.agents[b].parent.socket_path),
        state.agents[a].lease_id == state.agents[b].lease_id,
{
    assert(entry_refusal(state, a, state.agents[a]) is None);
    assert(entry_refusal(state, b, state.agents[b]) is None);
}

/// Whether the persisted lease, if there is one, has an id.
pub open spec fn lease_has_id(state: StateModel) -> bool {
    state.server_lease matches Some(lease) ==> !blank(lease.lease_id)
}

/// A fleet with nothing recorded can be persisted and taken up again.
pub proof fn fresh_state_is_acceptable(session: Seq<char>)
    requires
        session_refusal(session) is None,
    ensures
        acceptable(fresh_state(session)),
        lease_has_id(fresh_state(session)),
{
    assert(fresh_state(session).agents.dom() =~= Set::empty());
}

/// What an ensure leads to can be persisted and taken up again: the state stays acceptable for an
/// owner with the fingerprint of its home, as long as a persisted lease has an id.
pub proof fn ensuring_keeps_the_state_acceptable(
    before: StateModel,
    identity: IdentityModel,
    calls: Seq<BrokerCall>,
    result: Result<SnapshotModel, Seq<char>>,
    after: StateModel,
)
    requires
        acceptable(before),
        lease_has_id(before),
        identity.home_sha256 == home_fingerprint(identity.canonical_home),
        ensure_protocol(before, identity, calls, result, after),
    ensures
        acceptable(after),
        lease_has_id(after),
{
    let key = identity.key();
    if result is Ok && !before.agents.contains_key(key) {
        let lease = calls[0]->granted->Ok_0;
        let middle = calls.skip(1);
        let parent = middle[0]->created->Ok_0;
        assert(after == state_with_endpoint(before, identity, parent, lease));
        assert(endpoint_refusal(lease, parent) is None);
        assert forall|k: Seq<char>| #[trigger] after.agents.contains_key(k) implies entry_refusal(
            after,
            k,
            after.agents[k],
        ) is None by {
            if k != key {
                assert(before.agents.contains_key(k));
                assert(entry_refusal(before, k, before.agents[k]) is None);
                assert(!before.agents.dom().is_empty());
            }
        }
    }
}

/// What a release leads to can be persisted and taken up again.
pub proof fn releasing_keeps_the_state_acceptable(
    before: StateModel,
    identity: IdentityModel,
    calls: Seq<BrokerCall>,
    result: Result<(), Seq<char>>,
    after: StateModel,
)
    requires
        acceptable(before),
        release_protocol(before, identity, calls, result, after),
    ensures
        acceptable(after),
        lease_has_id(before) ==> lease_has_id(after),
{
    let key = identity.key();
    if result is Ok && before.agents.contains_key(key) {
        let left = before.agents.remove(key);
        assert(after.agents == left);
        if before.agents.dom() == set![key] {
            assert(left.dom() =~= Set::empty());
        }
        if left.dom().is_empty() {
            assert(before.agents.dom() =~= set![key]) by {
                assert forall|k: Seq<char>| before.agents.dom().contains(k) implies k == key by {
                    if k != key {
                        assert(left.dom().contains(k));
                    }
                }
            }
        }
        assert forall|k: Seq<char>| #[trigger] after.agents.contains_key(k) implies entry_refusal(
            after,
            k,
            after.agents[k],
        ) is None by {
            assert(left.dom().contains(k));
            assert(before.agents.contains_key(k));
            assert(entry_refusal(before, k, before.agents[k]) is None);
        }
    }
}

} // verus!
