//! What the fleet's state holds after each operation, told from the calls and their answers.

use vstd::prelude::*;

use crate::broker::BrokerCall;
use crate::cli::{stop_step, StepModel};
use crate::digest::home_fingerprint;
use crate::fleet::{
    acceptable, endpoint_refusal, ensure_protocol, entry_refusal, fresh_preflight, fresh_state,
    lease_refusal, proving_end, release_protocol, session_refusal, workspace_protocol, StateModel,
};
use crate::fleet_laws::releasing_forgets_or_changes_nothing;
use crate::identity::{IdentityModel, LeaseModel, ParentModel, SnapshotModel};
use crate::path::{absolute, same_path};
use crate::text::{blank, same_ignoring_ascii_case};

verus! {

/// The key of an owner is its agent id, a colon and the fingerprint of its home.
pub proof fn owner_key_spells_the_owner(identity: IdentityModel)
    ensures
        identity.key() == identity.managed_agent_id + ":"@ + identity.home_sha256,
{
}

/// A session is dedicated exactly when it has a name that is no spelling of `default`.
pub proof fn dedicated_sessions(session: Seq<char>)
    ensures
        session_refusal(session) is None <==> !blank(session) && !same_ignoring_ascii_case(
            session,
            "default"@,
        ),
{
}

/// An endpoint is complete exactly when its session and its three ids are not blank and its socket is
/// absolute.
pub proof fn complete_endpoints(parent: ParentModel)
    ensures
        parent.refusal() is None <==> {
            &&& !blank(parent.session)
            &&& !blank(parent.workspace_id)
            &&& !blank(parent.root_tab_id)
            &&& !blank(parent.root_pane_id)
            &&& absolute(parent.socket_path)
        },
{
}

/// A recorded endpoint fits its state exactly when it is complete, lies in the session and at the
/// socket of the persisted lease, carries that lease's id, and stands under the key of an owner whose
/// fingerprint is that of its home.
pub proof fn fitting_endpoints(state: StateModel, key: Seq<char>, snapshot: SnapshotModel)
    ensures
        entry_refusal(state, key, snapshot) is None <==> {
            &&& !blank(snapshot.parent.session)
            &&& !blank(snapshot.parent.workspace_id)
            &&& !blank(snapshot.parent.root_tab_id)
            &&& !blank(snapshot.parent.root_pane_id)
            &&& absolute(snapshot.parent.socket_path)
            &&& !blank(snapshot.lease_id)
            &&& snapshot.identity.home_sha256 == home_fingerprint(
                snapshot.identity.canonical_home,
            )
            &&& key == snapshot.identity.managed_agent_id + ":"@ + snapshot.identity.home_sha256
            &&& snapshot.parent.session == state.session
            &&& state.server_lease matches Some(lease)
            &&& same_path(snapshot.parent.socket_path, lease.socket_path)
            &&& snapshot.lease_id == lease.lease_id
        },
{
}

/// A persisted state is taken up exactly when its session is dedicated, a lease stands behind its
/// endpoints and behind a server of its own, and every endpoint fits.
pub proof fn acceptable_states(state: StateModel)
    ensures
        acceptable(state) <==> {
            &&& !blank(state.session)
            &&& !same_ignoring_ascii_case(state.session, "default"@)
            &&& state.server_lease is None ==> !state.server_started_by_buzz && forall|
                key: Seq<char>,
            |
                !#[trigger] state.agents.contains_key(key)
            &&& forall|key: Seq<char>| #[trigger]
                state.agents.contains_key(key) ==> entry_refusal(state, key, state.agents[key]) is None
        },
{
    if state.agents.dom().is_empty() {
        assert(forall|key: Seq<char>| !#[trigger] state.agents.contains_key(key));
    } else {
        let key = state.agents.dom().choose();
        assert(state.agents.contains_key(key));
    }
}

/// Whether a granted lease fits a fleet: it is for the fleet's session, has an absolute socket and an
/// id, and is for the server of the persisted lease, if there is one.
pub open spec fn lease_fits(before: StateModel, lease: LeaseModel) -> bool {
    &&& lease.session == before.session
    &&& absolute(lease.socket_path)
    &&& !blank(lease.lease_id)
    &&& before.server_lease matches Some(persisted) ==> persisted.session == lease.session
        && same_path(persisted.socket_path, lease.socket_path)
}

/// Whether a created endpoint is complete and lies in the leased session.
pub open spec fn endpoint_fits(lease: LeaseModel, parent: ParentModel) -> bool {
    &&& !blank(parent.session)
    &&& !blank(parent.workspace_id)
    &&& !blank(parent.root_tab_id)
    &&& !blank(parent.root_pane_id)
    &&& absolute(parent.socket_path)
    &&& parent.session == lease.session
    &&& same_path(parent.socket_path, lease.socket_path)
}

proof fn lemma_tries(
    parent: ParentModel,
    identity: IdentityModel,
    calls: Seq<BrokerCall>,
    proved: Result<(), Seq<char>>,
)
    requires
        fresh_preflight(parent, identity, 0, calls, proved),
    ensures
        calls.len() == 1 || calls.len() == 3 || calls.len() == 5,
        forall|i: int|
            0 <= i < calls.len() && i % 2 == 0 ==> (#[trigger] calls[i] matches
                BrokerCall::Preflight { parent: p, identity: o, reply } && p == parent && o
                == identity && (i < calls.len() - 1 ==> reply is Err)),
        calls.len() >= 3 ==> calls[1] == (BrokerCall::Pause { millis: 40 }),
        calls.len() == 5 ==> calls[3] == (BrokerCall::Pause { millis: 80 }),
        calls.last()->Preflight_reply == proved,
        proved is Err ==> calls.len() == 5,
{
    reveal_with_fuel(fresh_preflight, 4);
    if calls.len() > 1 {
        let second = calls.skip(2);
        assert(second[0] == calls[2]);
        if second.len() > 1 {
            let third = second.skip(2);
            assert(second[1] == calls[3]);
            assert(third[0] == calls[4]);
            assert(third.len() == 1);
        }
    }
    if proved is Ok {
        assert(calls.last()->Preflight_reply is Ok);
        assert(calls.last()->Preflight_reply->Ok_0 == proved->Ok_0);
    }
}

/// A fresh endpoint is proved by the first attempt that is answered well and refused after the third
/// that is not. Between two attempts there is one wait, first of 40 and then of 80 milliseconds, and
/// what the last attempt answered is the verdict.
pub proof fn fresh_endpoint_is_retried(
    parent: ParentModel,
    identity: IdentityModel,
    calls: Seq<BrokerCall>,
    proved: Result<(), Seq<char>>,
)
    requires
        fresh_preflight(parent, identity, 0, calls, proved),
    ensures
        calls.len() == 1 || calls.len() == 3 || calls.len() == 5,
        forall|i: int|
            0 <= i < calls.len() && i % 2 == 0 ==> (#[trigger] calls[i] matches
                BrokerCall::Preflight { parent: p, identity: o, reply } && p == parent && o
                == identity && (i < calls.len() - 1 ==> reply is Err)),
        calls.len() >= 3 ==> calls[1] == (BrokerCall::Pause { millis: 40 }),
        calls.len() == 5 ==> calls[3] == (BrokerCall::Pause { millis: 80 }),
        calls.last()->Preflight_reply == proved,
        proved is Err ==> calls.len() == 5,
{
    lemma_tries(parent, identity, calls, proved);
}

/// What a fresh endpoint leaves behind: the lease that the broker granted, whole, where none was
/// persisted, and the persisted one, unchanged, where there was one; the created endpoint under its
/// owner's key and nothing else new; and ownership of the server if it was owned or is now started.
pub proof fn fresh_endpoint_is_recorded_as_granted(
    before: StateModel,
    identity: IdentityModel,
    calls: Seq<BrokerCall>,
    snapshot: SnapshotModel,
    after: StateModel,
)
    requires
        ensure_protocol(before, identity, calls, Ok(snapshot), after),
        !before.agents.contains_key(identity.managed_agent_id + ":"@ + identity.home_sha256),
    ensures
        calls.len() >= 3,
        calls[0] matches BrokerCall::EnsureSession { session, granted: Ok(lease) } && {
            &&& session == before.session
            &&& lease_fits(before, lease)
            &&& calls[1] == (BrokerCall::EnsureWorkspace {
                lease,
                identity,
                created: Ok(snapshot.parent),
            })
            &&& endpoint_fits(lease, snapshot.parent)
            &&& calls.last() == (BrokerCall::Preflight {
                parent: snapshot.parent,
                identity,
                reply: Ok(()),
            })
            &&& after.session == before.session
            &&& before.server_lease is None ==> after.server_lease == Some(lease)
                && snapshot.lease_id == lease.lease_id
            &&& before.server_lease matches Some(persisted) ==> after.server_lease == Some(
                persisted,
            ) && snapshot.lease_id == persisted.lease_id
            &&& after.server_started_by_buzz == (before.server_started_by_buzz
                || lease.started_by_buzz)
            &&& snapshot.server_started_by_buzz == lease.started_by_buzz
            &&& snapshot.identity == identity
            &&& after.agents == before.agents.insert(
                identity.managed_agent_id + ":"@ + identity.home_sha256,
                snapshot,
            )
        },
{
    let lease = calls[0]->granted->Ok_0;
    let middle = calls.skip(1);
    let result = Ok::<SnapshotModel, Seq<char>>(snapshot);
    assert(workspace_protocol(before, identity, lease, middle, result, after));
    assert(middle[0] == calls[1]);
    let parent = middle[0]->created->Ok_0;
    let rest = middle.skip(1);
    let (tries, proved) = choose|tries: Seq<BrokerCall>, proved: Result<(), Seq<char>>|
        {
            &&& #[trigger] fresh_preflight(parent, identity, 0, tries, proved)
            &&& proving_end(before, identity, lease, parent, rest, result, after, tries, proved)
        };
    lemma_tries(parent, identity, tries, proved);
    assert(rest.last() == calls.last());
    assert(snapshot.parent == parent);
    assert(proved is Ok && proved->Ok_0 == ());
}

/// Answers that fit lead to an endpoint. A lease that fits has the owner's workspace asked for, a
/// workspace that fits has its exact root pane proved, and a pane that is proved at once ends the
/// ensure well; a failure of the broker is handed on, and an answer that does not fit is refused
/// before anything more is asked.
pub proof fn fitting_answers_lead_to_an_endpoint(
    before: StateModel,
    identity: IdentityModel,
    calls: Seq<BrokerCall>,
    result: Result<SnapshotModel, Seq<char>>,
    after: StateModel,
)
    requires
        ensure_protocol(before, identity, calls, result, after),
        !before.agents.contains_key(identity.managed_agent_id + ":"@ + identity.home_sha256),
    ensures
        calls.len() > 0,
        calls[0] matches BrokerCall::EnsureSession { session, granted } && session
            == before.session && match granted {
            Err(error) => calls.len() == 1 && result == Err::<SnapshotModel, Seq<char>>(error),
            Ok(lease) => if !lease_fits(before, lease) {
                calls.len() == 1 && result is Err && Some(result->Err_0) == lease_refusal(
                    before,
                    lease,
                )
            } else {
                &&& calls.len() > 1
                &&& calls[1] matches BrokerCall::EnsureWorkspace { lease: l, identity: o, created }
                &&& l == lease
                &&& o == identity
                &&& match created {
                    Err(error) => calls.len() == 2 && result == Err::<SnapshotModel, Seq<char>>(
                        error,
                    ),
                    Ok(parent) => if !endpoint_fits(lease, parent) {
                        calls.len() == 2 && result is Err && Some(result->Err_0)
                            == endpoint_refusal(lease, parent)
                    } else {
                        &&& calls.len() > 2
                        &&& calls[2] matches BrokerCall::Preflight { parent: p, identity: w, reply }
                        &&& p == parent
                        &&& w == identity
                        &&& reply is Ok ==> calls.len() == 3 && result is Ok
                        &&& result is Err ==> calls.len() == 8
                    },
                }
            },
        },
{
    if calls[0]->granted is Ok {
        let lease = calls[0]->granted->Ok_0;
        if lease_fits(before, lease) {
            let middle = calls.skip(1);
            assert(workspace_protocol(before, identity, lease, middle, result, after));
            assert(middle[0] == calls[1]);
            if middle[0]->created is Ok {
                let parent = middle[0]->created->Ok_0;
                if endpoint_fits(lease, parent) {
                    let rest = middle.skip(1);
                    let (tries, proved) = choose|
                        tries: Seq<BrokerCall>,
                        proved: Result<(), Seq<char>>,
                    |
                        {
                            &&& #[trigger] fresh_preflight(parent, identity, 0, tries, proved)
                            &&& proving_end(
                                before,
                                identity,
                                lease,
                                parent,
                                rest,
                                result,
                                after,
                                tries,
                                proved,
                            )
                        };
                    lemma_tries(parent, identity, tries, proved);
                    assert(rest[0] == calls[2]);
                    assert(tries[0] == rest[0]) by {
                        if proved is Err {
                            assert(rest.drop_last()[0] == rest[0]);
                        }
                    }
                }
            }
        }
    }
}

/// What a release asks and leaves behind. An owner without an endpoint needs nothing. The last
/// endpoint of a server that was started for the fleet goes with that server, by the persisted lease.
/// Any other endpoint goes by closing its own workspace, which leaves the ownership of the server as
/// it was, and the lease too unless no endpoint is left.
pub proof fn release_touches_what_it_has_to(
    before: StateModel,
    identity: IdentityModel,
    calls: Seq<BrokerCall>,
    result: Result<(), Seq<char>>,
    after: StateModel,
)
    requires
        release_protocol(before, identity, calls, result, after),
    ensures
        ({
            let key = identity.managed_agent_id + ":"@ + identity.home_sha256;
            let alone = forall|other: Seq<char>| #[trigger]
                before.agents.contains_key(other) ==> other == key;
            &&& after.session == before.session
            &&& after.server_started_by_buzz ==> before.server_started_by_buzz
            &&& result is Err ==> after == before
            &&& !before.agents.contains_key(key) ==> calls.len() == 0 && result is Ok && after
                == before
            &&& before.agents.contains_key(key) && result is Ok ==> after.agents
                == before.agents.remove(key)
            &&& before.agents.contains_key(key) && alone && before.server_started_by_buzz
                ==> match before.server_lease {
                None => calls.len() == 0 && result is Err,
                Some(lease) => calls == seq![BrokerCall::StopSession { lease, reply: result }] && (
                result is Ok ==> !after.server_started_by_buzz && after.server_lease is None),
            }
            &&& before.agents.contains_key(key) && !(alone && before.server_started_by_buzz) ==> {
                &&& calls == seq![
                    BrokerCall::ReleaseWorkspace { parent: before.agents[key].parent, reply: result },
                ]
                &&& after.server_started_by_buzz == before.server_started_by_buzz
                &&& !alone ==> after.server_lease == before.server_lease
                &&& alone && result is Ok ==> after.server_lease is None
            }
        }),
{
    let key = identity.key();
    assert(key == identity.managed_agent_id + ":"@ + identity.home_sha256);
    if before.agents.contains_key(key) {
        if forall|other: Seq<char>| #[trigger] before.agents.contains_key(other) ==> other == key {
            assert(before.agents.dom() =~= set![key]);
            assert(before.agents.remove(key).dom() =~= Set::empty());
        } else {
            let other = choose|other: Seq<char>| #[trigger]
                before.agents.contains_key(other) && other != key;
            assert(before.agents.dom().contains(other));
            assert(!set![key].contains(other));
            assert(before.agents.remove(key).dom().contains(other));
        }
        assert(calls.len() == 1 ==> calls =~= seq![calls[0]]);
    }
    releasing_forgets_or_changes_nothing(before, identity, calls, result, after);
}

/// Whether a server that the fleet owns can be stopped: its persisted lease says that it was started.
pub open spec fn stoppable(state: StateModel) -> bool {
    state.server_started_by_buzz ==> (state.server_lease matches Some(lease)
        && lease.started_by_buzz)
}

/// A server that was started for the fleet can be stopped again. A fleet keeps this through every
/// ensure that does not find a started server under a persisted lease of an adopted one, and through
/// every release.
pub proof fn owned_server_stays_stoppable(
    before: StateModel,
    identity: IdentityModel,
    calls: Seq<BrokerCall>,
    ensured: Result<SnapshotModel, Seq<char>>,
    after: StateModel,
    later_calls: Seq<BrokerCall>,
    released: Result<(), Seq<char>>,
    last: StateModel,
)
    requires
        stoppable(before),
        ensure_protocol(before, identity, calls, ensured, after),
        forall|i: int, lease: LeaseModel|
            0 <= i < calls.len() && (#[trigger] calls[i] matches BrokerCall::EnsureSession {
                granted,
                ..
            } && granted == Ok::<LeaseModel, Seq<char>>(lease)) && #[trigger] lease.started_by_buzz
                ==> (before.server_lease matches Some(persisted) ==> persisted.started_by_buzz),
        release_protocol(after, identity, later_calls, released, last),
    ensures
        stoppable(after),
        stoppable(last),
{
    let key = identity.key();
    assert(key == identity.managed_agent_id + ":"@ + identity.home_sha256);
    if ensured is Ok && !before.agents.contains_key(key) {
        fresh_endpoint_is_recorded_as_granted(before, identity, calls, ensured->Ok_0, after);
        let lease = calls[0]->granted->Ok_0;
        assert(calls[0] matches BrokerCall::EnsureSession { granted, .. } && granted == Ok::<
            LeaseModel,
            Seq<char>,
        >(lease));
        if lease.started_by_buzz && before.server_lease is Some {
            assert(before.server_lease->0.started_by_buzz);
        }
    }
    release_touches_what_it_has_to(after, identity, later_calls, released, last);
}

/// The release of the last endpoint of an owned server hands the broker a lease that it stops.
pub proof fn last_release_is_not_refused(
    state: StateModel,
    identity: IdentityModel,
    calls: Seq<BrokerCall>,
    result: Result<(), Seq<char>>,
    after: StateModel,
    program: Seq<u8>,
    i: int,
)
    requires
        stoppable(state),
        release_protocol(state, identity, calls, result, after),
        0 <= i < calls.len(),
        calls[i] is StopSession,
    ensures
        stop_step(program, calls[i]->StopSession_lease, Seq::empty()) matches StepModel::Run {
            command,
            ..
        } && command.arguments == seq![
            "--session"@,
            calls[i]->StopSession_lease.session,
            "server"@,
            "stop"@,
        ],
{
    let lease = calls[i]->StopSession_lease;
    assert(seq!["--session"@, lease.session] + seq!["server"@, "stop"@] =~= seq![
        "--session"@,
        lease.session,
        "server"@,
        "stop"@,
    ]);
}

/// One operation of a fleet, with the calls it made and the state it led to.
pub enum FleetOperation {
    Ensure {
        owner: IdentityModel,
        asked: Seq<BrokerCall>,
        ensured: Result<SnapshotModel, Seq<char>>,
        reached: StateModel,
    },
    Release {
        owner: IdentityModel,
        asked: Seq<BrokerCall>,
        released: Result<(), Seq<char>>,
        reached: StateModel,
    },
}

/// The calls that an operation made.
pub open spec fn calls_made(operation: FleetOperation) -> Seq<BrokerCall> {
    match operation {
        FleetOperation::Ensure { asked, .. } => asked,
        FleetOperation::Release { asked, .. } => asked,
    }
}

/// Whether operations follow one another from a state on.
pub open spec fn history(before: StateModel, operations: Seq<FleetOperation>) -> bool
    decreases operations.len(),
{
    operations.len() > 0 ==> match operations[0] {
        FleetOperation::Ensure { owner, asked, ensured, reached } => ensure_protocol(
            before,
            owner,
            asked,
            ensured,
            reached,
        ) && history(reached, operations.skip(1)),
        FleetOperation::Release { owner, asked, released, reached } => release_protocol(
            before,
            owner,
            asked,
            released,
            reached,
        ) && history(reached, operations.skip(1)),
    }
}

/// Whether a call grants a lease on a server that was started for it.
pub open spec fn starts_server(call: BrokerCall) -> bool {
    call matches BrokerCall::EnsureSession { granted: Ok(lease), .. } && lease.started_by_buzz
}

/// An adopted server is never stopped, however often endpoints in it are ensured and released: as
/// long as no operation was granted a started server, none asks for a stop.
pub proof fn adopted_server_survives_every_history(
    before: StateModel,
    operations: Seq<FleetOperation>,
)
    requires
        !before.server_started_by_buzz,
        history(before, operations),
        forall|k: int, i: int|
            0 <= k < operations.len() && 0 <= i < calls_made(operations[k]).len()
                ==> !starts_server(#[trigger] calls_made(operations[k])[i]),
    ensures
        forall|k: int, i: int|
            0 <= k < operations.len() && 0 <= i < calls_made(operations[k]).len() ==> !(
            #[trigger] calls_made(operations[k])[i] is StopSession),
    decreases operations.len(),
{
    if operations.len() > 0 {
        let rest = operations.skip(1);
        let asked = calls_made(operations[0]);
        assert forall|k: int, i: int|
            0 <= k < rest.len() && 0 <= i < calls_made(rest[k]).len() implies !starts_server(
            #[trigger] calls_made(rest[k])[i],
        ) by {
            assert(rest[k] == operations[k + 1]);
            assert(!starts_server(calls_made(operations[k + 1])[i]));
        }
        let reached = match operations[0] {
            FleetOperation::Ensure { owner, asked, ensured, reached } => {
                if ensured is Ok && !before.agents.contains_key(owner.key()) {
                    assert(owner.key() == owner.managed_agent_id + ":"@ + owner.home_sha256);
                    fresh_endpoint_is_recorded_as_granted(
                        before,
                        owner,
                        asked,
                        ensured->Ok_0,
                        reached,
                    );
                    assert(!starts_server(calls_made(operations[0])[0]));
                }
                crate::fleet_laws::ensuring_closes_only_its_own_unproved_workspace(
                    before,
                    owner,
                    asked,
                    ensured,
                    reached,
                );
                crate::fleet_laws::ensuring_records_or_changes_nothing(
                    before,
                    owner,
                    asked,
                    ensured,
                    reached,
                );
                reached
            },
            FleetOperation::Release { owner, asked, released, reached } => {
                release_touches_what_it_has_to(before, owner, asked, released, reached);
                crate::fleet_laws::adopted_server_is_never_stopped(
                    before,
                    owner,
                    asked,
                    released,
                    reached,
                );
                reached
            },
        };
        adopted_server_survives_every_history(reached, rest);
        assert forall|k: int, i: int|
            0 <= k < operations.len() && 0 <= i < calls_made(operations[k]).len() implies !(
        #[trigger] calls_made(operations[k])[i] is StopSession) by {
            if k > 0 {
                assert(operations[k] == rest[k - 1]);
                assert(!(calls_made(rest[k - 1])[i] is StopSession));
            } else {
                assert(!crate::fleet_laws::asks_stop(asked[i]));
            }
        }
    }
}

/// What is said of a recorded endpoint that fails its preflight: whose it is, and why.
pub proof fn stale_endpoint_says_whose_it_is(
    before: StateModel,
    identity: IdentityModel,
    calls: Seq<BrokerCall>,
    result: Result<SnapshotModel, Seq<char>>,
    after: StateModel,
)
    requires
        before.agents.contains_key(identity.managed_agent_id + ":"@ + identity.home_sha256),
        ensure_protocol(before, identity, calls, result, after),
    ensures
        calls.len() == 1,
        calls[0] matches BrokerCall::Preflight { parent, identity: owner, reply } && parent
            == before.agents[identity.managed_agent_id + ":"@ + identity.home_sha256].parent && owner
            == identity && (reply matches Err(error) ==> result == Err::<SnapshotModel, Seq<char>>(
            "stale Herdr endpoint for managed agent "@ + identity.managed_agent_id + ": "@ + error,
        )),
{
}

/// What is said of a created workspace that could not be proved: whose it is and what the last attempt
/// answered, and, where closing it failed too, why.
pub proof fn unproved_workspace_says_whose_it_is(
    before: StateModel,
    identity: IdentityModel,
    calls: Seq<BrokerCall>,
    message: Seq<char>,
    after: StateModel,
)
    requires
        ensure_protocol(before, identity, calls, Err(message), after),
        !before.agents.contains_key(identity.managed_agent_id + ":"@ + identity.home_sha256),
        calls.len() > 2,
    ensures
        calls.len() == 8,
        ({
            let said = "Herdr endpoint failed preflight for managed agent "@
                + identity.managed_agent_id + ": "@;
            &&& calls[6] matches BrokerCall::Preflight { reply: Err(error), .. }
            &&& calls[7] matches BrokerCall::ReleaseWorkspace { reply: closed, .. }
            &&& closed is Ok ==> message == said + error
            &&& closed matches Err(failure) ==> message == said + error
                + "; exact workspace rollback also failed: "@ + failure
        }),
{
    let result = Err::<SnapshotModel, Seq<char>>(message);
    fitting_answers_lead_to_an_endpoint(before, identity, calls, result, after);
    let lease = calls[0]->granted->Ok_0;
    let middle = calls.skip(1);
    assert(workspace_protocol(before, identity, lease, middle, result, after));
    assert(middle[0] == calls[1]);
    let parent = middle[0]->created->Ok_0;
    let rest = middle.skip(1);
    let (tries, proved) = choose|tries: Seq<BrokerCall>, proved: Result<(), Seq<char>>|
        {
            &&& #[trigger] fresh_preflight(parent, identity, 0, tries, proved)
            &&& proving_end(before, identity, lease, parent, rest, result, after, tries, proved)
        };
    lemma_tries(parent, identity, tries, proved);
    assert(rest.drop_last() == tries);
    assert(tries[4] == calls[6]);
    assert(rest.last() == calls[7]);
}

/// A fresh state has the session it was made for, and nothing else: no server, no lease, no endpoint.
pub proof fn fresh_state_holds_nothing(session: Seq<char>, key: Seq<char>)
    ensures
        fresh_state(session).session == session,
        !fresh_state(session).server_started_by_buzz,
        fresh_state(session).server_lease is None,
        !fresh_state(session).agents.contains_key(key),
{
}

} // verus!
