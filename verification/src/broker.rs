//! The broker that carries out what the fleet decides, and the record of what was asked of it.

use vstd::prelude::*;

use crate::identity::{
    HerdrManagedAgentIdentity, HerdrParentIdentity, HerdrSessionLease, HerdrWorkspaceRequest,
    IdentityModel, LeaseModel, ParentModel,
};
use crate::outcome::outcome;

verus! {

/// The small broker surface that the fleet manager needs. Implementations must use the exact ids
/// that Herdr returned; a lookup by label is not a valid implementation.
///
/// Nothing is promised here of what an implementation answers.
pub trait HerdrFleetBroker {
    /// Starts the dedicated session or adopts it if it is already running.
    fn ensure_or_adopt_session(&mut self, session: &str) -> Result<HerdrSessionLease, String>;

    /// Creates the workspace of one owner in the leased session.
    fn ensure_workspace(
        &mut self,
        lease: &HerdrSessionLease,
        request: &HerdrWorkspaceRequest,
    ) -> Result<HerdrParentIdentity, String>;

    /// Verifies that this exact root pane belongs to this exact canonical home. A check of the
    /// topology alone is insufficient: it could bind one owner to another's valid workspace.
    fn preflight(
        &mut self,
        parent: &HerdrParentIdentity,
        identity: &HerdrManagedAgentIdentity,
    ) -> Result<(), String>;

    /// Closes only the exact owner workspace and proves that it is absent afterwards.
    fn release_workspace(&mut self, parent: &HerdrParentIdentity) -> Result<(), String>;

    /// Stops the leased session.
    fn stop_session(&mut self, lease: &HerdrSessionLease) -> Result<(), String>;

    /// Waits before the next attempt.
    fn pause(&mut self, millis: u64);
}

/// One thing asked of a broker, with its answer.
pub enum BrokerCall {
    EnsureSession { session: Seq<char>, granted: Result<LeaseModel, Seq<char>> },
    EnsureWorkspace {
        lease: LeaseModel,
        identity: IdentityModel,
        created: Result<ParentModel, Seq<char>>,
    },
    Preflight { parent: ParentModel, identity: IdentityModel, reply: Result<(), Seq<char>> },
    ReleaseWorkspace { parent: ParentModel, reply: Result<(), Seq<char>> },
    StopSession { lease: LeaseModel, reply: Result<(), Seq<char>> },
    Pause { millis: nat },
}

/// One thing to ask of a broker.
#[derive(Debug)]
pub enum BrokerRequest<'a> {
    EnsureSession(&'a str),
    EnsureWorkspace(&'a HerdrSessionLease, &'a HerdrWorkspaceRequest),
    Preflight(&'a HerdrParentIdentity, &'a HerdrManagedAgentIdentity),
    ReleaseWorkspace(&'a HerdrParentIdentity),
    StopSession(&'a HerdrSessionLease),
    Pause(u64),
}

/// The answer to it.
#[derive(Debug)]
pub enum BrokerReply {
    Session(Result<HerdrSessionLease, String>),
    Workspace(Result<HerdrParentIdentity, String>),
    Verdict(Result<(), String>),
    Waited,
}

/// The call that a request and its answer make up; none where the answer is not of the kind that the
/// request asks for.
pub open spec fn call_of(request: BrokerRequest, reply: BrokerReply) -> Option<BrokerCall> {
    match (request, reply) {
        (BrokerRequest::EnsureSession(session), BrokerReply::Session(granted)) => Some(
            BrokerCall::EnsureSession { session: session@, granted: outcome(granted) },
        ),
        (BrokerRequest::EnsureWorkspace(lease, asked), BrokerReply::Workspace(created)) => Some(
            BrokerCall::EnsureWorkspace {
                lease: lease@,
                identity: asked.identity@,
                created: outcome(created),
            },
        ),
        (BrokerRequest::Preflight(parent, identity), BrokerReply::Verdict(reply)) => Some(
            BrokerCall::Preflight {
                parent: parent@,
                identity: identity@,
                reply: outcome(reply),
            },
        ),
        (BrokerRequest::ReleaseWorkspace(parent), BrokerReply::Verdict(reply)) => Some(
            BrokerCall::ReleaseWorkspace { parent: parent@, reply: outcome(reply) },
        ),
        (BrokerRequest::StopSession(lease), BrokerReply::Verdict(reply)) => Some(
            BrokerCall::StopSession { lease: lease@, reply: outcome(reply) },
        ),
        (BrokerRequest::Pause(millis), BrokerReply::Waited) => Some(
            BrokerCall::Pause { millis: millis as nat },
        ),
        _ => None,
    }
}

/// Asks a broker for what a request names: calls the one method that the request stands for, once,
/// with what the request holds, and answers with what the method returned.
pub fn perform<B: HerdrFleetBroker>(broker: &mut B, request: BrokerRequest) -> (r: BrokerReply)
    ensures
        call_of(request, r) is Some,
        match request {
            BrokerRequest::EnsureSession(session) => exists|
                b: &mut B,
                granted: Result<HerdrSessionLease, String>,
            | #[trigger]
                call_ensures(B::ensure_or_adopt_session, (b, session), granted) && *b
                    == *old(broker) && *final(b) == *final(broker) && r == BrokerReply::Session(
                    granted,
                ),
            BrokerRequest::EnsureWorkspace(lease, asked) => exists|
                b: &mut B,
                created: Result<HerdrParentIdentity, String>,
            | #[trigger]
                call_ensures(B::ensure_workspace, (b, lease, asked), created) && *b == *old(broker)
                    && *final(b) == *final(broker) && r == BrokerReply::Workspace(created),
            BrokerRequest::Preflight(parent, identity) => exists|
                b: &mut B,
                reply: Result<(), String>,
            | #[trigger]
                call_ensures(B::preflight, (b, parent, identity), reply) && *b == *old(broker)
                    && *final(b) == *final(broker) && r == BrokerReply::Verdict(reply),
            BrokerRequest::ReleaseWorkspace(parent) => exists|
                b: &mut B,
                reply: Result<(), String>,
            | #[trigger]
                call_ensures(B::release_workspace, (b, parent), reply) && *b == *old(broker)
                    && *final(b) == *final(broker) && r == BrokerReply::Verdict(reply),
            BrokerRequest::StopSession(lease) => exists|b: &mut B, reply: Result<(), String>|
                #[trigger]
                call_ensures(B::stop_session, (b, lease), reply) && *b == *old(broker) && *final(b)
                    == *final(broker) && r == BrokerReply::Verdict(reply),
            BrokerRequest::Pause(millis) => exists|b: &mut B| #[trigger]
                call_ensures(B::pause, (b, millis), ()) && *b == *old(broker) && *final(b)
                    == *final(broker),
        },
{
    match request {
        BrokerRequest::EnsureSession(session) => BrokerReply::Session(
            broker.ensure_or_adopt_session(session),
        ),
        BrokerRequest::EnsureWorkspace(lease, asked) => BrokerReply::Workspace(
            broker.ensure_workspace(lease, asked),
        ),
        BrokerRequest::Preflight(parent, identity) => BrokerReply::Verdict(
            broker.preflight(parent, identity),
        ),
        BrokerRequest::ReleaseWorkspace(parent) => BrokerReply::Verdict(
            broker.release_workspace(parent),
        ),
        BrokerRequest::StopSession(lease) => BrokerReply::Verdict(broker.stop_session(lease)),
        BrokerRequest::Pause(millis) => {
            broker.pause(millis);
            BrokerReply::Waited
        },
    }
}

/// One call, with the broker before and after it.
pub struct Exchange<B> {
    pub call: BrokerCall,
    pub before: B,
    pub after: B,
}

/// The calls of a list of exchanges.
pub open spec fn calls_of<B>(log: Seq<Exchange<B>>) -> Seq<BrokerCall> {
    log.map_values(|exchange: Exchange<B>| exchange.call)
}

/// Whether the exchanges follow one another from the one broker to the other, and nothing happened to
/// the broker besides.
pub open spec fn chained<B>(log: Seq<Exchange<B>>, first: B, last: B) -> bool
    decreases log.len(),
{
    if log.len() == 0 {
        first == last
    } else {
        log.last().after == last && chained(log.drop_last(), first, log.last().before)
    }
}

/// Two lists of exchanges that follow one another are one list.
pub(crate) proof fn lemma_chained_concat<B>(
    a: Seq<Exchange<B>>,
    b: Seq<Exchange<B>>,
    first: B,
    middle: B,
    last: B,
)
    requires
        chained(a, first, middle),
        chained(b, middle, last),
    ensures
        chained(a + b, first, last),
    decreases b.len(),
{
    if b.len() == 0 {
        assert(a + b =~= a);
    } else {
        lemma_chained_concat(a, b.drop_last(), first, middle, b.last().before);
        assert((a + b).drop_last() =~= a + b.drop_last());
        assert((a + b).last() == b.last());
    }
}

/// A list of one exchange.
pub(crate) proof fn lemma_one_exchange<B>(exchange: Exchange<B>)
    ensures
        chained(seq![exchange], exchange.before, exchange.after),
        calls_of(seq![exchange]) == seq![exchange.call],
{
    let log = seq![exchange];
    assert(log.drop_last() =~= Seq::<Exchange<B>>::empty());
    assert(chained(log.drop_last(), exchange.before, exchange.before));
    assert(calls_of(log) =~= seq![exchange.call]);
}

/// Asks the broker for the session.
pub(crate) fn ask_session<B: HerdrFleetBroker>(
    broker: &mut B,
    session: &str,
) -> (r: (Result<HerdrSessionLease, String>, Ghost<Exchange<B>>))
    ensures
        r.1@ == (Exchange {
            call: BrokerCall::EnsureSession { session: session@, granted: outcome(r.0) },
            before: *old(broker),
            after: *final(broker),
        }),
        exists|b: &mut B, q: BrokerRequest, a: BrokerReply| #[trigger]
            call_ensures(perform::<B>, (b, q), a) && *b == r.1@.before && *final(b) == r.1@.after
                && call_of(q, a) == Some(r.1@.call),
{
    let ghost before = *broker;
    let reply = perform(broker, BrokerRequest::EnsureSession(session));
    let ghost call = call_of(BrokerRequest::EnsureSession(session), reply)->0;
    let ghost exchange = Exchange { call, before, after: *broker };
    assert(exists|b: &mut B| #[trigger]
        call_ensures(perform::<B>, (b, BrokerRequest::EnsureSession(session)), reply) && *b == before
            && *final(b) == *broker);
    match reply {
        BrokerReply::Session(answer) => (answer, Ghost(exchange)),
        // No other kind of reply comes back to this request.
        _ => (Err(String::new()), Ghost(exchange)),
    }
}

/// Asks the broker for the owner's workspace.
pub(crate) fn ask_workspace<B: HerdrFleetBroker>(
    broker: &mut B,
    lease: &HerdrSessionLease,
    request: &HerdrWorkspaceRequest,
) -> (r: (Result<HerdrParentIdentity, String>, Ghost<Exchange<B>>))
    ensures
        r.1@ == (Exchange {
            call: BrokerCall::EnsureWorkspace {
                lease: lease@,
                identity: request.identity@,
                created: outcome(r.0),
            },
            before: *old(broker),
            after: *final(broker),
        }),
        exists|b: &mut B, q: BrokerRequest, a: BrokerReply| #[trigger]
            call_ensures(perform::<B>, (b, q), a) && *b == r.1@.before && *final(b) == r.1@.after
                && call_of(q, a) == Some(r.1@.call),
{
    let ghost before = *broker;
    let reply = perform(broker, BrokerRequest::EnsureWorkspace(lease, request));
    let ghost call = call_of(BrokerRequest::EnsureWorkspace(lease, request), reply)->0;
    let ghost exchange = Exchange { call, before, after: *broker };
    assert(exists|b: &mut B| #[trigger]
        call_ensures(perform::<B>, (b, BrokerRequest::EnsureWorkspace(lease, request)), reply) && *b == before
            && *final(b) == *broker);
    match reply {
        BrokerReply::Workspace(answer) => (answer, Ghost(exchange)),
        // No other kind of reply comes back to this request.
        _ => (Err(String::new()), Ghost(exchange)),
    }
}

/// Asks the broker for a preflight.
pub(crate) fn ask_preflight<B: HerdrFleetBroker>(
    broker: &mut B,
    parent: &HerdrParentIdentity,
    identity: &HerdrManagedAgentIdentity,
) -> (r: (Result<(), String>, Ghost<Exchange<B>>))
    ensures
        r.1@ == (Exchange {
            call: BrokerCall::Preflight {
                parent: parent@,
                identity: identity@,
                reply: outcome(r.0),
            },
            before: *old(broker),
            after: *final(broker),
        }),
        exists|b: &mut B, q: BrokerRequest, a: BrokerReply| #[trigger]
            call_ensures(perform::<B>, (b, q), a) && *b == r.1@.before && *final(b) == r.1@.after
                && call_of(q, a) == Some(r.1@.call),
{
    let ghost before = *broker;
    let reply = perform(broker, BrokerRequest::Preflight(parent, identity));
    let ghost call = call_of(BrokerRequest::Preflight(parent, identity), reply)->0;
    let ghost exchange = Exchange { call, before, after: *broker };
    assert(exists|b: &mut B| #[trigger]
        call_ensures(perform::<B>, (b, BrokerRequest::Preflight(parent, identity)), reply) && *b == before
            && *final(b) == *broker);
    match reply {
        BrokerReply::Verdict(answer) => (answer, Ghost(exchange)),
        // No other kind of reply comes back to this request.
        _ => (Err(String::new()), Ghost(exchange)),
    }
}

/// Asks the broker to close a workspace.
pub(crate) fn ask_release<B: HerdrFleetBroker>(
    broker: &mut B,
    parent: &HerdrParentIdentity,
) -> (r: (Result<(), String>, Ghost<Exchange<B>>))
    ensures
        r.1@ == (Exchange {
            call: BrokerCall::ReleaseWorkspace { parent: parent@, reply: outcome(r.0) },
            before: *old(broker),
            after: *final(broker),
        }),
        exists|b: &mut B, q: BrokerRequest, a: BrokerReply| #[trigger]
            call_ensures(perform::<B>, (b, q), a) && *b == r.1@.before && *final(b) == r.1@.after
                && call_of(q, a) == Some(r.1@.call),
{
    let ghost before = *broker;
    let reply = perform(broker, BrokerRequest::ReleaseWorkspace(parent));
    let ghost call = call_of(BrokerRequest::ReleaseWorkspace(parent), reply)->0;
    let ghost exchange = Exchange { call, before, after: *broker };
    assert(exists|b: &mut B| #[trigger]
        call_ensures(perform::<B>, (b, BrokerRequest::ReleaseWorkspace(parent)), reply) && *b == before
            && *final(b) == *broker);
    match reply {
        BrokerReply::Verdict(answer) => (answer, Ghost(exchange)),
        // No other kind of reply comes back to this request.
        _ => (Err(String::new()), Ghost(exchange)),
    }
}

/// Asks the broker to stop the session.
pub(crate) fn ask_stop<B: HerdrFleetBroker>(
    broker: &mut B,
    lease: &HerdrSessionLease,
) -> (r: (Result<(), String>, Ghost<Exchange<B>>))
    ensures
        r.1@ == (Exchange {
            call: BrokerCall::StopSession { lease: lease@, reply: outcome(r.0) },
            before: *old(broker),
            after: *final(broker),
        }),
        exists|b: &mut B, q: BrokerRequest, a: BrokerReply| #[trigger]
            call_ensures(perform::<B>, (b, q), a) && *b == r.1@.before && *final(b) == r.1@.after
                && call_of(q, a) == Some(r.1@.call),
{
    let ghost before = *broker;
    let reply = perform(broker, BrokerRequest::StopSession(lease));
    let ghost call = call_of(BrokerRequest::StopSession(lease), reply)->0;
    let ghost exchange = Exchange { call, before, after: *broker };
    assert(exists|b: &mut B| #[trigger]
        call_ensures(perform::<B>, (b, BrokerRequest::StopSession(lease)), reply) && *b == before
            && *final(b) == *broker);
    match reply {
        BrokerReply::Verdict(answer) => (answer, Ghost(exchange)),
        // No other kind of reply comes back to this request.
        _ => (Err(String::new()), Ghost(exchange)),
    }
}

/// Has the broker wait.
pub(crate) fn ask_pause<B: HerdrFleetBroker>(broker: &mut B, millis: u64) -> (r: Ghost<Exchange<B>>)
    ensures
        r@ == (Exchange {
            call: BrokerCall::Pause { millis: millis as nat },
            before: *old(broker),
            after: *final(broker),
        }),
        exists|b: &mut B, q: BrokerRequest, a: BrokerReply| #[trigger]
            call_ensures(perform::<B>, (b, q), a) && *b == r@.before && *final(b) == r@.after
                && call_of(q, a) == Some(r@.call),
{
    let ghost before = *broker;
    let reply = perform(broker, BrokerRequest::Pause(millis));
    let ghost call = call_of(BrokerRequest::Pause(millis), reply)->0;
    assert(exists|b: &mut B| #[trigger]
        call_ensures(perform::<B>, (b, BrokerRequest::Pause(millis)), reply) && *b == before
            && *final(b) == *broker);
    Ghost(Exchange { call, before, after: *broker })
}

} // verus!
