//! Owner-exact fleet coordination for FirstMate instances that run in Herdr.
//!
//! A Herdr server is a shared resource, but a FirstMate home is not. The two lifecycles are kept
//! apart: an agent owns an exact workspace and root pane and holds a lease on the shared server;
//! releasing one endpoint never stops the server while another endpoint remains.

use vstd::prelude::*;
use vstd::utf8::encode_utf8;

use crate::agents::{
    entry_map, entry_models, in_key_order, key_place, listed_entry_is_mapped, lists_key, AgentEntry,
    AgentTable,
};
use crate::broker::{
    ask_pause, ask_preflight, ask_release, ask_session, ask_stop, ask_workspace, call_of, calls_of,
    chained, lemma_chained_concat, lemma_one_exchange, perform, BrokerCall, BrokerReply,
    BrokerRequest, Exchange, HerdrFleetBroker,
};
use crate::contract::{contract_names, inherited_herdr_env, inherited_names};
use crate::digest::{home_fingerprint, home_sha256};
use crate::identity::{
    HerdrManagedAgentIdentity, HerdrParentIdentity, HerdrSessionLease, HerdrSpawnSnapshot,
    HerdrWorkspaceRequest, IdentityModel, LeaseModel, ParentModel, SnapshotModel,
};
use crate::outcome::{held, outcome, verdict};
use crate::path::{absolute, joined_path, same_path, FsPath};
use crate::text::{blank, eq_ignore_ascii_case, is_blank, same_ignoring_ascii_case, words};

verus! {

/// Dedicated session for FirstMate agents. The user's default Herdr session is never adopted.
pub const DEFAULT_HERDR_SESSION: &'static str = "buzz-firstmate";

/// A newly created pane can briefly report its launch directory before the shell has entered the
/// requested home. Only a fresh endpoint is tried again; recorded ones fail closed.
pub const FRESH_ENDPOINT_PREFLIGHT_ATTEMPTS: usize = 3;

/// How long to wait after the first failed attempt; each further wait is longer by as much.
pub const FRESH_ENDPOINT_PREFLIGHT_BACKOFF_MS: u64 = 40;

/// Why a session is not a dedicated one, if it is not.
pub open spec fn session_refusal(session: Seq<char>) -> Option<Seq<char>> {
    if blank(session) {
        Some("Herdr fleet state has no dedicated session"@)
    } else if same_ignoring_ascii_case(session, "default"@) {
        Some("FirstMate managed agents must not adopt Herdr's default session"@)
    } else {
        None
    }
}

/// Whether a session has a name and is not Herdr's default one.
pub fn validate_dedicated_session(session: &str) -> (r: Result<(), String>)
    ensures
        outcome(r) == verdict(session_refusal(session@)),
{
    if is_blank(session) {
        return Err("Herdr fleet state has no dedicated session".to_owned());
    }
    if eq_ignore_ascii_case(session, "default") {
        return Err(
            "FirstMate managed agents must not adopt Herdr's default session".to_owned(),
        );
    }
    Ok(())
}

/// The session that a state without one belongs to.
pub fn default_herdr_session() -> (r: String)
    ensures
        r@ == DEFAULT_HERDR_SESSION@,
        r@ == "buzz-firstmate"@,
{
    DEFAULT_HERDR_SESSION.to_owned()
}

/// Model of [`HerdrFleetState`].
#[verifier::ext_equal]
pub struct StateModel {
    pub session: Seq<char>,
    pub server_started_by_buzz: bool,
    pub server_lease: Option<LeaseModel>,
    pub agents: Map<Seq<char>, SnapshotModel>,
}

/// State of the shared server and its leases, as it is persisted.
#[derive(Debug, PartialEq, Eq)]
pub struct HerdrFleetState {
    pub session: String,
    /// Ownership belongs to the dedicated server, not to whichever FirstMate happened to be started
    /// first or stopped last.
    pub server_started_by_buzz: bool,
    pub server_lease: Option<HerdrSessionLease>,
    pub agents: AgentTable,
}

impl View for HerdrFleetState {
    type V = StateModel;

    open spec fn view(&self) -> StateModel {
        StateModel {
            session: self.session@,
            server_started_by_buzz: self.server_started_by_buzz,
            server_lease: held(self.server_lease),
            agents: self.agents@,
        }
    }
}

impl Clone for HerdrFleetState {
    fn clone(&self) -> (r: Self)
        ensures
            r@ == self@,
            r.agents.listed() == self.agents.listed(),
    {
        HerdrFleetState {
            session: self.session.clone(),
            server_started_by_buzz: self.server_started_by_buzz,
            server_lease: match &self.server_lease {
                Some(lease) => Some(lease.clone()),
                None => None,
            },
            agents: self.agents.clone(),
        }
    }
}

impl Default for HerdrFleetState {
    /// A state without a server, without endpoints and with no session named yet.
    fn default() -> (r: Self)
        ensures
            r@ == fresh_state(Seq::empty()),
            r.agents.listed().len() == 0,
    {
        HerdrFleetState {
            session: String::new(),
            server_started_by_buzz: false,
            server_lease: None,
            agents: AgentTable::new(),
        }
    }
}

/// Why an endpoint does not fit the state it is recorded in, if it does not.
pub open spec fn entry_refusal(state: StateModel, key: Seq<char>, snapshot: SnapshotModel) -> Option<
    Seq<char>,
> {
    if snapshot.parent.refusal() is Some {
        snapshot.parent.refusal()
    } else if blank(snapshot.lease_id) {
        Some("Herdr fleet state contains an empty lease id"@)
    } else if snapshot.identity.home_sha256 != home_fingerprint(snapshot.identity.canonical_home) {
        Some("Herdr fleet state contains a mismatched FirstMate home hash"@)
    } else if key != snapshot.identity.key() {
        Some("Herdr fleet state contains an endpoint under the wrong owner key"@)
    } else if snapshot.parent.session != state.session {
        Some("Herdr endpoint belongs to a different session"@)
    } else {
        match state.server_lease {
            None => Some("Herdr fleet state is missing its lease"@),
            Some(lease) => if !same_path(snapshot.parent.socket_path, lease.socket_path)
                || snapshot.lease_id != lease.lease_id {
                Some("Herdr endpoint does not belong to the persisted server lease"@)
            } else {
                None
            },
        }
    }
}

/// Why the first endpoint of a list that does not fit does not, if there is one.
pub open spec fn entries_refusal(
    state: StateModel,
    list: Seq<(Seq<char>, SnapshotModel)>,
) -> Option<Seq<char>>
    decreases list.len(),
{
    if list.len() == 0 {
        None
    } else {
        match entry_refusal(state, list[0].0, list[0].1) {
            Some(message) => Some(message),
            None => entries_refusal(state, list.skip(1)),
        }
    }
}

/// Why a state with its endpoints in this order is not acceptable, if it is not.
pub open spec fn state_refusal(
    state: StateModel,
    list: Seq<(Seq<char>, SnapshotModel)>,
) -> Option<Seq<char>> {
    if session_refusal(state.session) is Some {
        session_refusal(state.session)
    } else if list.len() > 0 && state.server_lease is None {
        Some("Herdr fleet state with agents is missing its server lease"@)
    } else if state.server_started_by_buzz && state.server_lease is None {
        Some("Buzz-owned Herdr fleet state is missing its server lease"@)
    } else {
        entries_refusal(state, list)
    }
}

/// A state that can be taken up: its session is dedicated, a lease stands behind its endpoints and
/// its server, and every endpoint fits.
pub open spec fn acceptable(state: StateModel) -> bool {
    &&& session_refusal(state.session) is None
    &&& state.server_lease is None ==> state.agents.dom().is_empty()
        && !state.server_started_by_buzz
    &&& forall|key: Seq<char>| #[trigger]
        state.agents.contains_key(key) ==> entry_refusal(state, key, state.agents[key]) is None
}

proof fn lemma_entries_refusal(
    state: StateModel,
    list: Seq<(Seq<char>, SnapshotModel)>,
)
    ensures
        entries_refusal(state, list) is None <==> (forall|i: int|
            0 <= i < list.len() ==> entry_refusal(state, (#[trigger] list[i]).0, list[i].1) is None),
    decreases list.len(),
{
    if list.len() > 0 {
        let rest = list.skip(1);
        lemma_entries_refusal(state, rest);
        if entries_refusal(state, list) is None {
            assert forall|i: int| 0 <= i < list.len() implies entry_refusal(
                state,
                (#[trigger] list[i]).0,
                list[i].1,
            ) is None by {
                if i > 0 {
                    assert(list[i] == rest[i - 1]);
                }
            }
        }
        if forall|i: int|
            0 <= i < list.len() ==> entry_refusal(state, (#[trigger] list[i]).0, list[i].1) is None {
            assert forall|i: int| 0 <= i < rest.len() implies entry_refusal(
                state,
                (#[trigger] rest[i]).0,
                rest[i].1,
            ) is None by {
                assert(rest[i] == list[i + 1]);
            }
            assert(entry_refusal(state, list[0].0, list[0].1) is None);
        }
    }
}

/// Whatever the order of its endpoints, a state is refused exactly when it is not acceptable.
pub proof fn refused_exactly_when_not_acceptable(
    state: StateModel,
    list: Seq<(Seq<char>, SnapshotModel)>,
)
    requires
        in_key_order(list),
        state.agents == entry_map(list),
    ensures
        state_refusal(state, list) is None <==> acceptable(state),
{
    lemma_entries_refusal(state, list);
    if list.len() > 0 {
        listed_entry_is_mapped(list, 0);
        assert(state.agents.dom().contains(list[0].0));
    } else {
        assert(state.agents.dom() =~= Set::empty());
    }
    if entries_refusal(state, list) is None {
        assert forall|key: Seq<char>| #[trigger]
            state.agents.contains_key(key) implies entry_refusal(
            state,
            key,
            state.agents[key],
        ) is None by {
            assert(lists_key(list, key));
            let i = key_place(list, key);
            listed_entry_is_mapped(list, i);
            assert(entry_refusal(state, list[i].0, list[i].1) is None);
        }
    }
    if acceptable(state) {
        assert forall|i: int| 0 <= i < list.len() implies entry_refusal(
            state,
            (#[trigger] list[i]).0,
            list[i].1,
        ) is None by {
            listed_entry_is_mapped(list, i);
        }
    }
}

/// What was found where the state is persisted.
#[derive(Debug)]
pub enum FleetStateFile {
    /// There is none.
    Missing,
    /// It could not be read, for this reason.
    Unreadable(String),
    /// It does not hold a state, for this reason.
    Malformed(String),
    /// It holds this state.
    Present(HerdrFleetState),
}

/// A state without a server and without endpoints.
pub open spec fn fresh_state(session: Seq<char>) -> StateModel {
    StateModel {
        session,
        server_started_by_buzz: false,
        server_lease: None,
        agents: Map::empty(),
    }
}

/// Where the state is persisted below the directory that holds what is known of managed agents.
pub fn fleet_state_path(base: &FsPath) -> (r: FsPath)
    ensures
        r@ == joined_path(base@, encode_utf8("firstmate-herdr-fleet.json"@)),
{
    base.join("firstmate-herdr-fleet.json")
}

/// Coordinates leases for the single dedicated Herdr session.
#[derive(Debug)]
pub struct HerdrFleetManager {
    state: HerdrFleetState,
}

impl View for HerdrFleetManager {
    type V = StateModel;

    closed spec fn view(&self) -> StateModel {
        self.state@
    }
}

impl Clone for HerdrFleetManager {
    fn clone(&self) -> (r: Self)
        ensures
            r@ == self@,
    {
        HerdrFleetManager { state: self.state.clone() }
    }
}

/// Whether an endpoint fits the state it is recorded in.
fn check_entry(state: &HerdrFleetState, entry: &AgentEntry) -> (r: Result<(), String>)
    ensures
        outcome(r) == verdict(entry_refusal(state@, entry.key@, entry.snapshot@)),
{
    let snapshot = &entry.snapshot;
    match snapshot.parent.validate() {
        Err(error) => {
            return Err(error);
        },
        Ok(_) => {},
    }
    if is_blank(snapshot.lease_id.as_str()) {
        return Err("Herdr fleet state contains an empty lease id".to_owned());
    }
    if !(snapshot.identity.home_sha256 == home_sha256(&snapshot.identity.canonical_home)) {
        return Err("Herdr fleet state contains a mismatched FirstMate home hash".to_owned());
    }
    if !(entry.key == snapshot.identity.key()) {
        return Err(
            "Herdr fleet state contains an endpoint under the wrong owner key".to_owned(),
        );
    }
    if !(snapshot.parent.session == state.session) {
        return Err("Herdr endpoint belongs to a different session".to_owned());
    }
    match &state.server_lease {
        None => Err("Herdr fleet state is missing its lease".to_owned()),
        Some(lease) => {
            if !(snapshot.parent.socket_path == lease.socket_path) || !(snapshot.lease_id
                == lease.lease_id) {
                Err("Herdr endpoint does not belong to the persisted server lease".to_owned())
            } else {
                Ok(())
            }
        },
    }
}

impl HerdrFleetManager {
    /// A manager for a dedicated session, with nothing recorded.
    pub fn new(session: &str) -> (r: Result<Self, String>)
        ensures
            outcome(r) == (match session_refusal(session@) {
                Some(message) => Err(message),
                None => Ok(fresh_state(session@)),
            }),
    {
        match validate_dedicated_session(session) {
            Err(error) => {
                return Err(error);
            },
            Ok(_) => {},
        }
        Ok(
            HerdrFleetManager {
                state: HerdrFleetState {
                    session: session.to_owned(),
                    server_started_by_buzz: false,
                    server_lease: None,
                    agents: AgentTable::new(),
                },
            },
        )
    }

    /// A manager that takes up a persisted state.
    pub fn from_state(state: HerdrFleetState) -> (r: Result<Self, String>)
        ensures
            outcome(r) == (match state_refusal(state@, state.agents.listed()) {
                Some(message) => Err(message),
                None => Ok(state@),
            }),
            r is Ok <==> acceptable(state@),
    {
        let ghost list = state.agents.listed();
        let entries = state.agents.entries();
        proof {
            refused_exactly_when_not_acceptable(state@, list);
            assert(entries@.len() == entry_models(entries@).len());
        }
        match validate_dedicated_session(state.session.as_str()) {
            Err(error) => {
                return Err(error);
            },
            Ok(_) => {},
        }
        if entries.len() > 0 && state.server_lease.is_none() {
            return Err(
                "Herdr fleet state with agents is missing its server lease".to_owned(),
            );
        }
        if state.server_started_by_buzz && state.server_lease.is_none() {
            return Err("Buzz-owned Herdr fleet state is missing its server lease".to_owned());
        }
        let mut i: usize = 0;
        assert(list.skip(0) =~= list);
        while i < entries.len()
            invariant
                i <= entries@.len(),
                entry_models(entries@) == list,
                list == state.agents.listed(),
                state_refusal(state@, list) == entries_refusal(state@, list),
                entries_refusal(state@, list) == entries_refusal(state@, list.skip(i as int)),
                state_refusal(state@, list) is None <==> acceptable(state@),
            decreases entries@.len() - i,
        {
            let ghost rest = list.skip(i as int);
            assert(rest[0] == (entries@[i as int].key@, entries@[i as int].snapshot@));
            assert(rest.skip(1) =~= list.skip(i + 1));
            match check_entry(&state, &entries[i]) {
                Err(error) => {
                    return Err(error);
                },
                Ok(_) => {},
            }
            i += 1;
        }
        Ok(HerdrFleetManager { state })
    }

    /// The state as it is to be persisted.
    pub fn state(&self) -> (r: &HerdrFleetState)
        ensures
            r@ == self@,
    {
        &self.state
    }

    /// A manager for what was persisted. Absence is a first launch, not an error; a malformed state
    /// fails closed before it can point a FirstMate at an unknown workspace.
    pub fn load(file: FleetStateFile) -> (r: Result<Self, String>)
        ensures
            outcome(r) == (match file {
                FleetStateFile::Missing => Ok(fresh_state(DEFAULT_HERDR_SESSION@)),
                FleetStateFile::Unreadable(error) => Err(
                    "failed to read Herdr fleet state: "@ + error@,
                ),
                FleetStateFile::Malformed(error) => Err("invalid Herdr fleet state: "@ + error@),
                FleetStateFile::Present(state) => match state_refusal(
                    state@,
                    state.agents.listed(),
                ) {
                    Some(message) => Err(message),
                    None => Ok(state@),
                },
            }),
    {
        match file {
            FleetStateFile::Missing => {
                proof {
                    default_session_is_dedicated();
                }
                Self::new(DEFAULT_HERDR_SESSION)
            },
            FleetStateFile::Unreadable(error) => Err(
                "failed to read Herdr fleet state: ".to_owned().concat(error.as_str()),
            ),
            FleetStateFile::Malformed(error) => Err(
                "invalid Herdr fleet state: ".to_owned().concat(error.as_str()),
            ),
            FleetStateFile::Present(state) => Self::from_state(state),
        }
    }
}

/// The session that a first launch takes is a dedicated one.
pub proof fn default_session_is_dedicated()
    ensures
        session_refusal(DEFAULT_HERDR_SESSION@) is None,
{
    reveal_strlit("buzz-firstmate");
    reveal_strlit("default");
    assert(DEFAULT_HERDR_SESSION@[0] == 'b');
    assert(!blank(DEFAULT_HERDR_SESSION@));
}

/// Why a lease that a broker answered with is not accepted, if it is not.
pub open spec fn lease_refusal(state: StateModel, lease: LeaseModel) -> Option<Seq<char>> {
    if lease.session != state.session {
        Some("Herdr broker returned a different session than requested"@)
    } else if !absolute(lease.socket_path) {
        Some("Herdr broker returned a non-absolute socket path"@)
    } else if blank(lease.lease_id) {
        Some("Herdr broker returned an empty server lease id"@)
    } else {
        match state.server_lease {
            Some(persisted) => if persisted.session != lease.session || !same_path(
                persisted.socket_path,
                lease.socket_path,
            ) {
                Some("Herdr broker returned a different server than the persisted lease"@)
            } else {
                None
            },
            None => None,
        }
    }
}

/// The lease that endpoints are recorded under: the persisted one, or else the one just answered.
/// A restart observes the same server anew; its first lease stays the proof of ownership.
pub open spec fn effective_lease(state: StateModel, lease: LeaseModel) -> LeaseModel {
    match state.server_lease {
        Some(persisted) => persisted,
        None => lease,
    }
}

/// Why an endpoint that a broker answered with is not accepted, if it is not.
pub open spec fn endpoint_refusal(lease: LeaseModel, parent: ParentModel) -> Option<Seq<char>> {
    if parent.refusal() is Some {
        parent.refusal()
    } else if parent.session != lease.session || !same_path(parent.socket_path, lease.socket_path) {
        Some("Herdr broker returned a workspace outside the leased session"@)
    } else {
        None
    }
}

/// The endpoint of an owner as it is recorded.
pub open spec fn recorded_endpoint(
    state: StateModel,
    identity: IdentityModel,
    parent: ParentModel,
    lease: LeaseModel,
) -> SnapshotModel {
    SnapshotModel {
        identity,
        parent,
        lease_id: effective_lease(state, lease).lease_id,
        server_started_by_buzz: lease.started_by_buzz,
    }
}

/// The state with an owner's endpoint recorded in it.
pub open spec fn state_with_endpoint(
    state: StateModel,
    identity: IdentityModel,
    parent: ParentModel,
    lease: LeaseModel,
) -> StateModel {
    StateModel {
        session: state.session,
        server_started_by_buzz: state.server_started_by_buzz || lease.started_by_buzz,
        server_lease: Some(effective_lease(state, lease)),
        agents: state.agents.insert(
            identity.key(),
            recorded_endpoint(state, identity, parent, lease),
        ),
    }
}

/// What to do after an attempt to prove a fresh endpoint.
#[derive(Debug, PartialEq, Eq)]
pub enum PreflightMove {
    /// The endpoint is proved.
    Accept,
    /// Wait for so many milliseconds, then try again.
    Retry(u64),
    /// The endpoint is not proved, for this reason.
    GiveUp(String),
}

/// Decides from the reply to attempt number `attempt`, counted from zero, how to go on.
pub fn after_attempt(attempt: usize, reply: Result<(), String>) -> (r: PreflightMove)
    requires
        attempt < FRESH_ENDPOINT_PREFLIGHT_ATTEMPTS,
    ensures
        match outcome(reply) {
            Ok(_) => r is Accept,
            Err(error) => if attempt + 1 < FRESH_ENDPOINT_PREFLIGHT_ATTEMPTS {
                r == PreflightMove::Retry(
                    (FRESH_ENDPOINT_PREFLIGHT_BACKOFF_MS * (attempt + 1)) as u64,
                )
            } else {
                r matches PreflightMove::GiveUp(message) && message@ == error
            },
        },
{
    match reply {
        Ok(_) => PreflightMove::Accept,
        Err(error) => {
            if attempt + 1 < FRESH_ENDPOINT_PREFLIGHT_ATTEMPTS {
                PreflightMove::Retry(FRESH_ENDPOINT_PREFLIGHT_BACKOFF_MS * (attempt as u64 + 1))
            } else {
                PreflightMove::GiveUp(error)
            }
        },
    }
}

/// The calls that prove a fresh endpoint from attempt number `attempt` on, and what they proved:
/// the same preflight until it is answered well, with a longer wait after each failure, and at most
/// as many attempts as are allowed.
pub open spec fn fresh_preflight(
    parent: ParentModel,
    identity: IdentityModel,
    attempt: nat,
    calls: Seq<BrokerCall>,
    proved: Result<(), Seq<char>>,
) -> bool
    decreases FRESH_ENDPOINT_PREFLIGHT_ATTEMPTS - attempt,
{
    &&& calls.len() > 0
    &&& calls[0] matches BrokerCall::Preflight { parent: asked, identity: owner, reply }
    &&& asked == parent
    &&& owner == identity
    &&& match reply {
        Ok(_) => calls.len() == 1 && proved == Ok::<(), Seq<char>>(()),
        Err(error) => if attempt + 1 < FRESH_ENDPOINT_PREFLIGHT_ATTEMPTS {
            &&& calls.len() > 1
            &&& calls[1] == (BrokerCall::Pause {
                millis: (FRESH_ENDPOINT_PREFLIGHT_BACKOFF_MS * (attempt + 1)) as nat,
            })
            &&& fresh_preflight(parent, identity, attempt + 1, calls.skip(2), proved)
        } else {
            calls.len() == 1 && proved == Err::<(), Seq<char>>(error)
        },
    }
}

/// Proves a fresh endpoint from attempt number `attempt` on.
fn attempt_preflight<B: HerdrFleetBroker>(
    broker: &mut B,
    parent: &HerdrParentIdentity,
    identity: &HerdrManagedAgentIdentity,
    attempt: usize,
) -> (r: (Result<(), String>, Ghost<Seq<Exchange<B>>>))
    requires
        attempt < FRESH_ENDPOINT_PREFLIGHT_ATTEMPTS,
    ensures
        fresh_preflight(parent@, identity@, attempt as nat, calls_of(r.1@), outcome(r.0)),
        chained(r.1@, *old(broker), *final(broker)),
        forall|i: int|
            0 <= i < r.1@.len() ==> exists|b: &mut B, q: BrokerRequest, a: BrokerReply| #[trigger]
                call_ensures(perform::<B>, (b, q), a) && *b == (#[trigger] r.1@[i]).before
                    && *final(b) == r.1@[i].after && call_of(q, a) == Some(r.1@[i].call),
    decreases FRESH_ENDPOINT_PREFLIGHT_ATTEMPTS - attempt,
{
    let ghost start = *broker;
    let (reply, first) = ask_preflight(broker, parent, identity);
    let ghost once = seq![first@];
    proof {
        lemma_one_exchange(first@);
    }
    match after_attempt(attempt, reply) {
        PreflightMove::Accept => (Ok(()), Ghost(once)),
        PreflightMove::GiveUp(error) => (Err(error), Ghost(once)),
        PreflightMove::Retry(millis) => {
            let waited = ask_pause(broker, millis);
            let ghost middle = *broker;
            let (result, later) = attempt_preflight(broker, parent, identity, attempt + 1);
            let ghost head = once + seq![waited@];
            let ghost log = head + later@;
            proof {
                lemma_one_exchange(waited@);
                lemma_chained_concat(once, seq![waited@], start, first@.after, middle);
                lemma_chained_concat(head, later@, start, middle, *broker);
                assert(calls_of(log).skip(2) =~= calls_of(later@));
                assert(calls_of(log)[0] == first@.call);
                assert(calls_of(log)[1] == waited@.call);
            }
            assert forall|i: int| 0 <= i < log.len() implies exists|
                b: &mut B,
                q: BrokerRequest,
                a: BrokerReply,
            | #[trigger]
                call_ensures(perform::<B>, (b, q), a) && *b == (#[trigger] log[i]).before
                    && *final(b) == log[i].after && call_of(q, a) == Some(log[i].call) by {
                if i == 0 {
                    assert(log[i] == first@);
                } else if i == 1 {
                    assert(log[i] == waited@);
                } else {
                    assert(log[i] == later@[i - 2]);
                }
            }
            (result, Ghost(log))
        },
    }
}

/// Proves a fresh endpoint before it is recorded.
fn preflight_fresh_endpoint<B: HerdrFleetBroker>(
    broker: &mut B,
    parent: &HerdrParentIdentity,
    identity: &HerdrManagedAgentIdentity,
) -> (r: (Result<(), String>, Ghost<Seq<Exchange<B>>>))
    ensures
        fresh_preflight(parent@, identity@, 0, calls_of(r.1@), outcome(r.0)),
        chained(r.1@, *old(broker), *final(broker)),
        forall|i: int|
            0 <= i < r.1@.len() ==> exists|b: &mut B, q: BrokerRequest, a: BrokerReply| #[trigger]
                call_ensures(perform::<B>, (b, q), a) && *b == (#[trigger] r.1@[i]).before
                    && *final(b) == r.1@[i].after && call_of(q, a) == Some(r.1@[i].call),
{
    attempt_preflight(broker, parent, identity, 0)
}

/// The refusal for a recorded endpoint whose preflight failed.
pub open spec fn stale_endpoint(identity: IdentityModel, error: Seq<char>) -> Seq<char> {
    "stale Herdr endpoint for managed agent "@ + identity.managed_agent_id + ": "@ + error
}

/// The refusal for a fresh endpoint that was not proved, given the reply to closing its workspace.
pub open spec fn unproved_endpoint(
    identity: IdentityModel,
    error: Seq<char>,
    rollback: Result<(), Seq<char>>,
) -> Seq<char> {
    let refusal = "Herdr endpoint failed preflight for managed agent "@ + identity.managed_agent_id
        + ": "@ + error;
    match rollback {
        Ok(_) => refusal,
        Err(failure) => refusal + "; exact workspace rollback also failed: "@ + failure,
    }
}

/// The answer for an owner with a recorded endpoint, from the reply to its preflight.
pub fn answer_recorded(
    snapshot: &HerdrSpawnSnapshot,
    identity: &HerdrManagedAgentIdentity,
    reply: Result<(), String>,
) -> (r: Result<HerdrSpawnSnapshot, String>)
    ensures
        outcome(r) == (match outcome(reply) {
            Ok(_) => Ok(snapshot@),
            Err(error) => Err(stale_endpoint(identity@, error)),
        }),
{
    match reply {
        Ok(_) => Ok(snapshot.clone()),
        Err(error) => Err(
            "stale Herdr endpoint for managed agent ".to_owned().concat(
                identity.managed_agent_id.as_str(),
            ).concat(": ").concat(error.as_str()),
        ),
    }
}

/// The refusal for a fresh endpoint that was not proved, from the reply to closing its workspace.
pub fn refuse_unproved(
    identity: &HerdrManagedAgentIdentity,
    error: &str,
    rollback: Result<(), String>,
) -> (r: String)
    ensures
        r@ == unproved_endpoint(identity@, error@, outcome(rollback)),
{
    let refusal = "Herdr endpoint failed preflight for managed agent ".to_owned().concat(
        identity.managed_agent_id.as_str(),
    ).concat(": ").concat(error);
    match rollback {
        Ok(_) => refusal,
        Err(failure) => refusal.concat("; exact workspace rollback also failed: ").concat(
            failure.as_str(),
        ),
    }
}

/// Whether a broker's endpoint is complete and lies in the leased session.
pub fn admit_endpoint(lease: &HerdrSessionLease, parent: &HerdrParentIdentity) -> (r: Result<
    (),
    String,
>)
    ensures
        outcome(r) == verdict(endpoint_refusal(lease@, parent@)),
{
    match parent.validate() {
        Err(error) => {
            return Err(error);
        },
        Ok(_) => {},
    }
    if !(parent.session == lease.session) || !(parent.socket_path == lease.socket_path) {
        return Err("Herdr broker returned a workspace outside the leased session".to_owned());
    }
    Ok(())
}

/// How proving an endpoint ends, once `tries` were made and proved or refuted it. A proved endpoint is
/// recorded; one that is not proved is closed again, that exact workspace and no other, and nothing
/// is recorded.
pub open spec fn proving_end(
    before: StateModel,
    identity: IdentityModel,
    lease: LeaseModel,
    parent: ParentModel,
    calls: Seq<BrokerCall>,
    result: Result<SnapshotModel, Seq<char>>,
    after: StateModel,
    tries: Seq<BrokerCall>,
    proved: Result<(), Seq<char>>,
) -> bool {
    match proved {
        Ok(_) => {
            &&& calls == tries
            &&& result == Ok::<SnapshotModel, Seq<char>>(
                recorded_endpoint(before, identity, parent, lease),
            )
            &&& after == state_with_endpoint(before, identity, parent, lease)
        },
        Err(error) => {
            &&& calls.len() == tries.len() + 1
            &&& calls.drop_last() == tries
            &&& calls.last() matches BrokerCall::ReleaseWorkspace { parent: closed, reply }
            &&& closed == parent
            &&& result == Err::<SnapshotModel, Seq<char>>(
                unproved_endpoint(identity, error, reply),
            )
            &&& after == before
        },
    }
}

/// The last part of ensuring an endpoint: the workspace is there, and what remains is to prove it.
pub open spec fn proving_protocol(
    before: StateModel,
    identity: IdentityModel,
    lease: LeaseModel,
    parent: ParentModel,
    calls: Seq<BrokerCall>,
    result: Result<SnapshotModel, Seq<char>>,
    after: StateModel,
) -> bool {
    exists|tries: Seq<BrokerCall>, proved: Result<(), Seq<char>>|
        {
            &&& #[trigger] fresh_preflight(parent, identity, 0, tries, proved)
            &&& proving_end(
                before,
                identity,
                lease,
                parent,
                calls,
                result,
                after,
                tries,
                proved,
            )
        }
}

/// The middle part of ensuring an endpoint: the server is leased, and the owner's workspace is asked
/// for in it.
pub open spec fn workspace_protocol(
    before: StateModel,
    identity: IdentityModel,
    lease: LeaseModel,
    calls: Seq<BrokerCall>,
    result: Result<SnapshotModel, Seq<char>>,
    after: StateModel,
) -> bool {
    &&& calls.len() > 0
    &&& calls[0] matches BrokerCall::EnsureWorkspace { lease: within, identity: owner, created }
    &&& within == lease
    &&& owner == identity
    &&& match created {
        Err(error) => calls.len() == 1 && result == Err::<SnapshotModel, Seq<char>>(error) && after
            == before,
        Ok(parent) => match endpoint_refusal(lease, parent) {
            Some(error) => calls.len() == 1 && result == Err::<SnapshotModel, Seq<char>>(error)
                && after == before,
            None => proving_protocol(
                before,
                identity,
                lease,
                parent,
                calls.skip(1),
                result,
                after,
            ),
        },
    }
}

/// The calls that ensure an owner's endpoint, the answer, and the state they lead to.
///
/// An owner with a recorded endpoint gets that endpoint if its preflight is answered well, and is
/// refused otherwise; nothing else is asked. Any other owner gets a fresh endpoint, from the
/// dedicated session and the owner's own workspace in it.
pub open spec fn ensure_protocol(
    before: StateModel,
    identity: IdentityModel,
    calls: Seq<BrokerCall>,
    result: Result<SnapshotModel, Seq<char>>,
    after: StateModel,
) -> bool {
    let key = identity.key();
    &&& calls.len() > 0
    &&& if before.agents.contains_key(key) {
        let snapshot = before.agents[key];
        &&& calls.len() == 1
        &&& calls[0] matches BrokerCall::Preflight { parent, identity: owner, reply }
        &&& parent == snapshot.parent
        &&& owner == identity
        &&& result == match reply {
            Ok(_) => Ok::<SnapshotModel, Seq<char>>(snapshot),
            Err(error) => Err::<SnapshotModel, Seq<char>>(stale_endpoint(identity, error)),
        }
        &&& after == before
    } else {
        &&& calls[0] matches BrokerCall::EnsureSession { session, granted }
        &&& session == before.session
        &&& match granted {
            Err(error) => calls.len() == 1 && result == Err::<SnapshotModel, Seq<char>>(error)
                && after == before,
            Ok(lease) => match lease_refusal(before, lease) {
                Some(error) => calls.len() == 1 && result == Err::<SnapshotModel, Seq<char>>(error)
                    && after == before,
                None => workspace_protocol(
                    before,
                    identity,
                    lease,
                    calls.skip(1),
                    result,
                    after,
                ),
            },
        }
    }
}

impl HerdrFleetManager {
    /// The lease that endpoints are recorded under once a broker answered with `lease`, or why that
    /// lease is not accepted.
    pub fn admit_lease(&self, lease: &HerdrSessionLease) -> (r: Result<HerdrSessionLease, String>)
        ensures
            outcome(r) == (match lease_refusal(self@, lease@) {
                Some(message) => Err(message),
                None => Ok(effective_lease(self@, lease@)),
            }),
    {
        if !(lease.session == self.state.session) {
            return Err("Herdr broker returned a different session than requested".to_owned());
        }
        if !lease.socket_path.is_absolute() {
            return Err("Herdr broker returned a non-absolute socket path".to_owned());
        }
        if is_blank(lease.lease_id.as_str()) {
            return Err("Herdr broker returned an empty server lease id".to_owned());
        }
        match &self.state.server_lease {
            Some(persisted) => {
                if !(persisted.session == lease.session) || !(persisted.socket_path
                    == lease.socket_path) {
                    return Err(
                        "Herdr broker returned a different server than the persisted lease".to_owned(),
                    );
                }
                Ok(persisted.clone())
            },
            None => Ok(lease.clone()),
        }
    }

    /// Records an owner's proved endpoint. `lease` is what the broker answered with.
    pub fn record_endpoint(
        &mut self,
        identity: HerdrManagedAgentIdentity,
        parent: HerdrParentIdentity,
        lease: &HerdrSessionLease,
    ) -> (r: HerdrSpawnSnapshot)
        ensures
            r@ == recorded_endpoint(old(self)@, identity@, parent@, lease@),
            final(self)@ == state_with_endpoint(old(self)@, identity@, parent@, lease@),
            final(self)@.server_lease == (match old(self)@.server_lease {
                Some(persisted) => Some(persisted),
                None => Some(lease@),
            }),
            final(self)@.server_started_by_buzz == (old(self)@.server_started_by_buzz
                || lease@.started_by_buzz),
    {
        let effective = match &self.state.server_lease {
            Some(persisted) => persisted.clone(),
            None => lease.clone(),
        };
        let key = identity.key();
        let snapshot = HerdrSpawnSnapshot {
            identity,
            parent,
            lease_id: effective.lease_id.clone(),
            server_started_by_buzz: lease.started_by_buzz,
        };
        if self.state.server_lease.is_none() {
            self.state.server_lease = Some(effective);
        }
        if lease.started_by_buzz {
            self.state.server_started_by_buzz = true;
        }
        self.state.agents.insert(key, snapshot.clone());
        snapshot
    }

    /// Ensures or adopts the shared server and creates or adopts only this agent's exact workspace.
    /// A stale endpoint fails closed rather than falling back to a search by label that could
    /// target another FirstMate.
    pub fn ensure_agent<B: HerdrFleetBroker>(
        &mut self,
        broker: &mut B,
        identity: HerdrManagedAgentIdentity,
    ) -> (r: Result<HerdrSpawnSnapshot, String>)
        ensures
            exists|log: Seq<Exchange<B>>|
                {
                    &&& ensure_protocol(
                        old(self)@,
                        identity@,
                        #[trigger] calls_of(log),
                        outcome(r),
                        final(self)@,
                    )
                    &&& chained(log, *old(broker), *final(broker))
                    &&& forall|i: int|
                        0 <= i < log.len() ==> exists|b: &mut B, q: BrokerRequest, a: BrokerReply| #[trigger]
                            call_ensures(perform::<B>, (b, q), a) && *b == (#[trigger] log[i]).before
                                && *final(b) == log[i].after && call_of(q, a) == Some(log[i].call)
                },
    {
        let ghost before = self@;
        let ghost owner = identity@;
        let ghost start = *broker;
        let key = identity.key();
        if let Some(snapshot) = self.state.agents.get(key.as_str()) {
            let (reply, asked) = ask_preflight(broker, &snapshot.parent, &identity);
            let answer = answer_recorded(snapshot, &identity, reply);
            proof {
                lemma_one_exchange(asked@);
                let log = seq![asked@];
                assert(ensure_protocol(before, owner, calls_of(log), outcome(answer), before));
            }
            return answer;
        }
        let (granted, asked_session) = ask_session(broker, self.state.session.as_str());
        let ghost log = seq![asked_session@];
        proof {
            lemma_one_exchange(asked_session@);
        }
        let lease = match granted {
            Err(error) => {
                assert(ensure_protocol(
                    before,
                    owner,
                    calls_of(log),
                    Err::<SnapshotModel, Seq<char>>(error@),
                    before,
                ));
                return Err(error);
            },
            Ok(lease) => lease,
        };
        match self.admit_lease(&lease) {
            Err(error) => {
                assert(ensure_protocol(
                    before,
                    owner,
                    calls_of(log),
                    Err::<SnapshotModel, Seq<char>>(error@),
                    before,
                ));
                return Err(error);
            },
            Ok(_) => {},
        }
        let ghost leased = *broker;
        let request = HerdrWorkspaceRequest { identity: identity.clone() };
        let (created, asked_workspace) = ask_workspace(broker, &lease, &request);
        let ghost log = log + seq![asked_workspace@];
        let ghost calls = calls_of(log);
        proof {
            lemma_one_exchange(asked_workspace@);
            lemma_chained_concat(
                seq![asked_session@],
                seq![asked_workspace@],
                start,
                leased,
                *broker,
            );
            assert(log[0] == asked_session@);
            assert(log[1] == asked_workspace@);
            assert(calls.skip(1)[0] == asked_workspace@.call);
        }
        let parent = match created {
            Err(error) => {
                proof {
                    assert(workspace_protocol(
                        before,
                        owner,
                        lease@,
                        calls.skip(1),
                        Err::<SnapshotModel, Seq<char>>(error@),
                        before,
                    ));
                    assert(ensure_protocol(
                        before,
                        owner,
                        calls_of(log),
                        Err::<SnapshotModel, Seq<char>>(error@),
                        before,
                    ));
                }
                return Err(error);
            },
            Ok(parent) => parent,
        };
        match admit_endpoint(&lease, &parent) {
            Err(error) => {
                proof {
                    assert(workspace_protocol(
                        before,
                        owner,
                        lease@,
                        calls.skip(1),
                        Err::<SnapshotModel, Seq<char>>(error@),
                        before,
                    ));
                    assert(ensure_protocol(
                        before,
                        owner,
                        calls_of(log),
                        Err::<SnapshotModel, Seq<char>>(error@),
                        before,
                    ));
                }
                return Err(error);
            },
            Ok(_) => {},
        }
        let ghost head = log;
        let ghost prepared = *broker;
        let (proved, tried) = preflight_fresh_endpoint(broker, &parent, &identity);
        let ghost tries = calls_of(tried@);
        let ghost log = head + tried@;
        let ghost endpoint = parent@;
        proof {
            lemma_chained_concat(head, tried@, start, prepared, *broker);
            assert(log[0] == asked_session@);
            assert(log[1] == asked_workspace@);
            assert(calls_of(log).skip(1).skip(1) =~= tries);
        }
        assert forall|i: int| 0 <= i < log.len() implies exists|
            b: &mut B,
            q: BrokerRequest,
            a: BrokerReply,
        | #[trigger]
            call_ensures(perform::<B>, (b, q), a) && *b == (#[trigger] log[i]).before && *final(b)
                == log[i].after && call_of(q, a) == Some(log[i].call) by {
            if i >= 2 {
                assert(log[i] == tried@[i - 2]);
            }
        }
        match proved {
            Err(error) => {
                let ghost refuted = *broker;
                let (rollback, closed) = ask_release(broker, &parent);
                let ghost whole = log + seq![closed@];
                let refusal = refuse_unproved(&identity, error.as_str(), rollback);
                proof {
                    lemma_one_exchange(closed@);
                    lemma_chained_concat(log, seq![closed@], start, refuted, *broker);
                    let calls = calls_of(whole);
                    let rest = calls.skip(1).skip(1);
                    assert(whole[0] == asked_session@);
                    assert(whole[1] == asked_workspace@);
                    assert(rest.drop_last() =~= tries);
                    assert(rest.last() == closed@.call);
                    assert(proving_end(
                        before,
                        owner,
                        lease@,
                        endpoint,
                        rest,
                        Err::<SnapshotModel, Seq<char>>(refusal@),
                        before,
                        tries,
                        Err(error@),
                    ));
                    assert(workspace_protocol(
                        before,
                        owner,
                        lease@,
                        calls.skip(1),
                        Err::<SnapshotModel, Seq<char>>(refusal@),
                        before,
                    ));
                    assert(ensure_protocol(
                        before,
                        owner,
                        calls_of(whole),
                        Err::<SnapshotModel, Seq<char>>(refusal@),
                        before,
                    ));
                }
                assert forall|i: int| 0 <= i < whole.len() implies exists|
                    b: &mut B,
                    q: BrokerRequest,
                    a: BrokerReply,
                | #[trigger]
                    call_ensures(perform::<B>, (b, q), a) && *b == (#[trigger] whole[i]).before
                        && *final(b) == whole[i].after && call_of(q, a) == Some(whole[i].call) by {
                    if i < log.len() {
                        assert(whole[i] == log[i]);
                    } else {
                        assert(whole[i] == closed@);
                    }
                }
                Err(refusal)
            },
            Ok(_) => {
                let snapshot = self.record_endpoint(identity, parent, &lease);
                proof {
                    let calls = calls_of(log);
                    let rest = calls.skip(1).skip(1);
                    assert(proving_end(
                        before,
                        owner,
                        lease@,
                        endpoint,
                        rest,
                        Ok::<SnapshotModel, Seq<char>>(snapshot@),
                        self@,
                        tries,
                        Ok(()),
                    ));
                    assert(workspace_protocol(
                        before,
                        owner,
                        lease@,
                        calls.skip(1),
                        Ok::<SnapshotModel, Seq<char>>(snapshot@),
                        self@,
                    ));
                    assert(ensure_protocol(
                        before,
                        owner,
                        calls_of(log),
                        Ok::<SnapshotModel, Seq<char>>(snapshot@),
                        self@,
                    ));
                }
                Ok(snapshot)
            },
        }
    }
}

/// The state once an owner's endpoint is gone and the server goes on.
pub open spec fn state_without_endpoint(state: StateModel, key: Seq<char>) -> StateModel {
    let left = state.agents.remove(key);
    StateModel {
        session: state.session,
        server_started_by_buzz: state.server_started_by_buzz,
        server_lease: if left.dom().is_empty() {
            None
        } else {
            state.server_lease
        },
        agents: left,
    }
}

/// The state once the server was stopped with its last endpoint.
pub open spec fn state_without_server(state: StateModel, key: Seq<char>) -> StateModel {
    StateModel {
        session: state.session,
        server_started_by_buzz: false,
        server_lease: None,
        agents: state.agents.remove(key),
    }
}

/// The calls that release an owner's endpoint, the answer, and the state they lead to.
///
/// The server is stopped only if it was started for this fleet and the endpoint is the last one.
/// Otherwise this exact workspace is closed and the server goes on. What fails leaves the state as
/// it was, so that the release can be tried again.
pub open spec fn release_protocol(
    before: StateModel,
    identity: IdentityModel,
    calls: Seq<BrokerCall>,
    result: Result<(), Seq<char>>,
    after: StateModel,
) -> bool {
    let key = identity.key();
    if !before.agents.contains_key(key) {
        calls.len() == 0 && result == Ok::<(), Seq<char>>(()) && after == before
    } else if before.agents.dom() == set![key] && before.server_started_by_buzz {
        match before.server_lease {
            None => {
                &&& calls.len() == 0
                &&& result == Err::<(), Seq<char>>(
                    "Buzz-owned Herdr server has no persisted lease"@,
                )
                &&& after == before
            },
            Some(lease) => {
                &&& calls.len() == 1
                &&& calls[0] matches BrokerCall::StopSession { lease: stopped, reply }
                &&& stopped == lease
                &&& result == reply
                &&& after == (if reply is Ok {
                    state_without_server(before, key)
                } else {
                    before
                })
            },
        }
    } else {
        &&& calls.len() == 1
        &&& calls[0] matches BrokerCall::ReleaseWorkspace { parent, reply }
        &&& parent == before.agents[key].parent
        &&& result == reply
        &&& after == (if reply is Ok {
            state_without_endpoint(before, key)
        } else {
            before
        })
    }
}

impl HerdrFleetManager {
    /// The names of the settings to remove from a command before it spawns a FirstMate. `HERDR_ENV`
    /// alone must never select a workspace; the validated contract is added afterwards.
    pub fn scrub_inherited_herdr_env() -> (r: Vec<&'static str>)
        ensures
            words(r@) == inherited_names() + contract_names(),
    {
        let mut names = inherited_herdr_env();
        let ghost inherited = names@;
        assert(words(inherited).len() == inherited.len());
        names.push("BUZZ_FIRSTMATE_HERDR_CONTRACT_VERSION");
        names.push("BUZZ_FIRSTMATE_HERDR_BINARY");
        names.push("BUZZ_FIRSTMATE_HERDR_SESSION");
        names.push("BUZZ_FIRSTMATE_HERDR_SOCKET_PATH");
        names.push("BUZZ_FIRSTMATE_HERDR_WORKSPACE_ID");
        names.push("BUZZ_FIRSTMATE_HERDR_ROOT_TAB_ID");
        names.push("BUZZ_FIRSTMATE_HERDR_ROOT_PANE_ID");
        proof {
            assert(words(names@).take(5) =~= words(inherited));
            assert(words(names@).skip(5) =~= contract_names());
            assert(words(names@) =~= words(names@).take(5) + words(names@).skip(5));
        }
        names
    }

    /// Settles a stop of the server with its last endpoint, from the reply to it.
    pub fn settle_stop(
        &mut self,
        identity: &HerdrManagedAgentIdentity,
        reply: Result<(), String>,
    ) -> (r: Result<(), String>)
        ensures
            r == reply,
            final(self)@ == (if reply is Ok {
                state_without_server(old(self)@, identity@.key())
            } else {
                old(self)@
            }),
    {
        if reply.is_ok() {
            let key = identity.key();
            self.state.agents.remove(key.as_str());
            self.state.server_started_by_buzz = false;
            self.state.server_lease = None;
        }
        reply
    }

    /// Settles the closing of an endpoint's workspace, from the reply to it.
    pub fn settle_close(
        &mut self,
        identity: &HerdrManagedAgentIdentity,
        reply: Result<(), String>,
    ) -> (r: Result<(), String>)
        ensures
            r == reply,
            final(self)@ == (if reply is Ok {
                state_without_endpoint(old(self)@, identity@.key())
            } else {
                old(self)@
            }),
            final(self)@.server_started_by_buzz == old(self)@.server_started_by_buzz,
    {
        if reply.is_ok() {
            let key = identity.key();
            self.state.agents.remove(key.as_str());
            if self.state.agents.is_empty() {
                self.state.server_lease = None;
            }
        }
        reply
    }

    /// Releases one FirstMate endpoint. The server is stopped only when it was started for this
    /// fleet and no endpoint remains in the dedicated session.
    pub fn release_agent<B: HerdrFleetBroker>(
        &mut self,
        broker: &mut B,
        identity: &HerdrManagedAgentIdentity,
    ) -> (r: Result<(), String>)
        ensures
            exists|log: Seq<Exchange<B>>|
                {
                    &&& release_protocol(
                        old(self)@,
                        identity@,
                        #[trigger] calls_of(log),
                        outcome(r),
                        final(self)@,
                    )
                    &&& chained(log, *old(broker), *final(broker))
                    &&& forall|i: int|
                        0 <= i < log.len() ==> exists|b: &mut B, q: BrokerRequest, a: BrokerReply| #[trigger]
                            call_ensures(perform::<B>, (b, q), a) && *b == (#[trigger] log[i]).before
                                && *final(b) == log[i].after && call_of(q, a) == Some(log[i].call)
                },
    {
        let ghost before = self@;
        let ghost none = Seq::<Exchange<B>>::empty();
        let key = identity.key();
        let snapshot = match self.state.agents.get(key.as_str()) {
            None => {
                assert(release_protocol(
                    before,
                    identity@,
                    calls_of(none),
                    Ok::<(), Seq<char>>(()),
                    before,
                ));
                return Ok(());
            },
            Some(snapshot) => snapshot.clone(),
        };
        if self.state.agents.holds_only(key.as_str()) && self.state.server_started_by_buzz {
            let lease = match &self.state.server_lease {
                None => {
                    let error = "Buzz-owned Herdr server has no persisted lease".to_owned();
                    assert(release_protocol(
                        before,
                        identity@,
                        calls_of(none),
                        Err::<(), Seq<char>>(error@),
                        before,
                    ));
                    return Err(error);
                },
                Some(lease) => lease.clone(),
            };
            // The endpoint and the lease are kept until the stop has succeeded: a failure retains
            // the authority to try again rather than orphaning a server.
            let (reply, asked) = ask_stop(broker, &lease);
            let answer = self.settle_stop(identity, reply);
            proof {
                lemma_one_exchange(asked@);
                let log = seq![asked@];
                assert(release_protocol(before, identity@, calls_of(log), outcome(answer), self@));
            }
            return answer;
        }
        // The server stays alive, so this exact workspace is closed before the state changes.
        let (reply, asked) = ask_release(broker, &snapshot.parent);
        let answer = self.settle_close(identity, reply);
        proof {
            lemma_one_exchange(asked@);
            let log = seq![asked@];
            assert(release_protocol(before, identity@, calls_of(log), outcome(answer), self@));
        }
        answer
    }
}

} // verus!
