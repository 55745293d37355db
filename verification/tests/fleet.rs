use std::collections::{BTreeSet, VecDeque};

use buzz_firstmate::agents::AgentTable;
use buzz_firstmate::broker::HerdrFleetBroker;
use buzz_firstmate::digest::home_sha256;
use buzz_firstmate::fleet::{
    admit_endpoint, after_attempt, answer_recorded, default_herdr_session, fleet_state_path,
    refuse_unproved, validate_dedicated_session, FleetStateFile, HerdrFleetManager,
    HerdrFleetState, PreflightMove, DEFAULT_HERDR_SESSION, FRESH_ENDPOINT_PREFLIGHT_ATTEMPTS,
};
use buzz_firstmate::identity::{
    HerdrManagedAgentIdentity, HerdrParentIdentity, HerdrSessionLease, HerdrSpawnSnapshot,
    HerdrWorkspaceRequest, HomeLookup,
};
use buzz_firstmate::path::FsPath;

#[derive(Default)]
struct FakeBroker {
    started_by_buzz: bool,
    preflight_error: Option<String>,
    transient_preflight_errors: VecDeque<String>,
    preflight_calls: usize,
    stopped: usize,
    workspaces: usize,
    closed_workspaces: Vec<String>,
    live_workspaces: BTreeSet<String>,
    close_error: Option<String>,
    owner_home_hash: Option<String>,
    pauses: Vec<u64>,
    lease: Option<HerdrSessionLease>,
    session_error: Option<String>,
    workspace_error: Option<String>,
    parent: Option<HerdrParentIdentity>,
    stop_error: Option<String>,
}

impl HerdrFleetBroker for FakeBroker {
    fn ensure_or_adopt_session(&mut self, session: &str) -> Result<HerdrSessionLease, String> {
        if let Some(error) = self.session_error.clone() {
            return Err(error);
        }
        if let Some(lease) = self.lease.clone() {
            return Ok(lease);
        }
        Ok(HerdrSessionLease {
            session: session.to_string(),
            socket_path: FsPath::from_text("/tmp/buzz-firstmate-herdr.sock"),
            lease_id: "lease-1".to_string(),
            started_by_buzz: self.started_by_buzz,
        })
    }

    fn ensure_workspace(
        &mut self,
        lease: &HerdrSessionLease,
        request: &HerdrWorkspaceRequest,
    ) -> Result<HerdrParentIdentity, String> {
        if let Some(error) = self.workspace_error.clone() {
            return Err(error);
        }
        self.workspaces += 1;
        let workspace_id = format!("ws-{}", request.identity.home_sha256);
        self.live_workspaces.insert(workspace_id.clone());
        if let Some(parent) = self.parent.clone() {
            return Ok(parent);
        }
        Ok(HerdrParentIdentity {
            session: lease.session.clone(),
            socket_path: lease.socket_path.clone(),
            workspace_id,
            root_tab_id: format!("tab-{}", request.identity.managed_agent_id),
            root_pane_id: format!("pane-{}", request.identity.managed_agent_id),
        })
    }

    fn preflight(
        &mut self,
        _parent: &HerdrParentIdentity,
        identity: &HerdrManagedAgentIdentity,
    ) -> Result<(), String> {
        self.preflight_calls += 1;
        if self
            .owner_home_hash
            .as_ref()
            .is_some_and(|expected| expected != &identity.home_sha256)
        {
            return Err("root pane owner home does not match managed agent".to_string());
        }
        if let Some(error) = self.transient_preflight_errors.pop_front() {
            return Err(error);
        }
        self.preflight_error.clone().map_or(Ok(()), Err)
    }

    fn release_workspace(&mut self, parent: &HerdrParentIdentity) -> Result<(), String> {
        if let Some(error) = self.close_error.clone() {
            return Err(error);
        }
        self.closed_workspaces.push(parent.workspace_id.clone());
        self.live_workspaces.remove(&parent.workspace_id);
        Ok(())
    }

    fn stop_session(&mut self, _lease: &HerdrSessionLease) -> Result<(), String> {
        self.stopped += 1;
        self.stop_error.clone().map_or(Ok(()), Err)
    }

    fn pause(&mut self, millis: u64) {
        self.pauses.push(millis);
    }
}

fn home(name: &str) -> HomeLookup {
    HomeLookup::Directory(FsPath::from_text(&format!("/tmp/buzz-herdr-fleet-{name}")))
}

fn lease(id: &str) -> HerdrSessionLease {
    HerdrSessionLease {
        session: DEFAULT_HERDR_SESSION.to_string(),
        socket_path: FsPath::from_text("/tmp/herdr.sock"),
        lease_id: id.to_string(),
        started_by_buzz: false,
    }
}

fn endpoint(session: &str) -> HerdrParentIdentity {
    HerdrParentIdentity {
        session: session.to_string(),
        socket_path: FsPath::from_text("/tmp/herdr.sock"),
        workspace_id: "1".to_string(),
        root_tab_id: "1:1".to_string(),
        root_pane_id: "1-1".to_string(),
    }
}

fn one_agent(key: String, snapshot: HerdrSpawnSnapshot) -> AgentTable {
    let mut agents = AgentTable::new();
    agents.insert(key, snapshot);
    agents
}

#[test]
fn two_homes_share_server_but_get_owner_exact_endpoints() {
    let atlas = HerdrManagedAgentIdentity::new("atlas", home("atlas")).unwrap();
    let nova = HerdrManagedAgentIdentity::new("nova", home("nova")).unwrap();
    let mut manager = HerdrFleetManager::new(DEFAULT_HERDR_SESSION).unwrap();
    let mut broker = FakeBroker::default();

    let atlas_snapshot = manager.ensure_agent(&mut broker, atlas).unwrap();
    let nova_snapshot = manager.ensure_agent(&mut broker, nova).unwrap();

    assert_eq!(atlas_snapshot.parent.session, DEFAULT_HERDR_SESSION);
    assert_eq!(
        atlas_snapshot.parent.socket_path,
        nova_snapshot.parent.socket_path
    );
    assert_ne!(
        atlas_snapshot.parent.workspace_id,
        nova_snapshot.parent.workspace_id
    );
    assert_ne!(
        atlas_snapshot.parent.root_pane_id,
        nova_snapshot.parent.root_pane_id
    );
    assert_eq!(broker.workspaces, 2);
}

#[test]
fn stale_snapshot_fails_closed_without_workspace_recovery_by_label() {
    let identity = HerdrManagedAgentIdentity::new("atlas", home("stale")).unwrap();
    let mut manager = HerdrFleetManager::new(DEFAULT_HERDR_SESSION).unwrap();
    let mut broker = FakeBroker::default();
    manager.ensure_agent(&mut broker, identity.clone()).unwrap();
    broker.preflight_error = Some("root pane does not exist".to_string());

    let error = manager.ensure_agent(&mut broker, identity).unwrap_err();
    assert!(error.contains("stale Herdr endpoint"));
    assert_eq!(
        error,
        "stale Herdr endpoint for managed agent atlas: root pane does not exist"
    );
    assert_eq!(broker.workspaces, 1);
}

#[test]
fn fresh_preflight_failure_rolls_back_the_exact_new_workspace() {
    let identity =
        HerdrManagedAgentIdentity::new("atlas", home("fresh-preflight-rollback")).unwrap();
    let mut manager = HerdrFleetManager::new(DEFAULT_HERDR_SESSION).unwrap();
    let mut broker = FakeBroker {
        preflight_error: Some("root pane disappeared".to_string()),
        ..Default::default()
    };

    assert!(manager.ensure_agent(&mut broker, identity).is_err());
    assert_eq!(broker.preflight_calls, FRESH_ENDPOINT_PREFLIGHT_ATTEMPTS);
    assert_eq!(broker.closed_workspaces.len(), 1);
    assert!(broker.live_workspaces.is_empty());
    assert!(manager.state().agents.is_empty());
}

#[test]
fn fresh_preflight_retries_a_transient_shell_cwd_before_persisting() {
    let identity = HerdrManagedAgentIdentity::new("nova", home("fresh-preflight-retry")).unwrap();
    let mut manager = HerdrFleetManager::new(DEFAULT_HERDR_SESSION).unwrap();
    let mut broker = FakeBroker {
        transient_preflight_errors: VecDeque::from([
            "does not prove exact foreground_cwd".to_string()
        ]),
        ..Default::default()
    };

    let snapshot = manager.ensure_agent(&mut broker, identity).unwrap();
    assert_eq!(broker.preflight_calls, 2);
    assert!(broker.closed_workspaces.is_empty());
    assert!(broker
        .live_workspaces
        .contains(&snapshot.parent.workspace_id));
    assert!(manager
        .state()
        .agents
        .contains_key(&snapshot.identity.key()));
}

#[test]
fn releasing_one_agent_never_stops_shared_server() {
    let atlas = HerdrManagedAgentIdentity::new("atlas", home("release-atlas")).unwrap();
    let nova = HerdrManagedAgentIdentity::new("nova", home("release-nova")).unwrap();
    let mut manager = HerdrFleetManager::new(DEFAULT_HERDR_SESSION).unwrap();
    let mut broker = FakeBroker {
        started_by_buzz: true,
        ..Default::default()
    };
    let atlas_snapshot = manager.ensure_agent(&mut broker, atlas.clone()).unwrap();
    manager.ensure_agent(&mut broker, nova.clone()).unwrap();

    manager.release_agent(&mut broker, &atlas).unwrap();
    assert_eq!(broker.stopped, 0);
    assert_eq!(broker.closed_workspaces.len(), 1);
    assert_eq!(
        broker.closed_workspaces[0],
        atlas_snapshot.parent.workspace_id
    );
    assert!(manager.state().agents.contains_key(&nova.key()));
    assert!(!broker
        .live_workspaces
        .contains(&atlas_snapshot.parent.workspace_id));
    assert!(broker
        .live_workspaces
        .contains(&format!("ws-{}", nova.home_sha256)));
    manager.release_agent(&mut broker, &nova).unwrap();
    assert_eq!(broker.stopped, 1);
}

#[test]
fn close_failure_retains_owner_snapshot_for_retry() {
    let identity = HerdrManagedAgentIdentity::new("atlas", home("close-failure")).unwrap();
    let mut manager = HerdrFleetManager::new(DEFAULT_HERDR_SESSION).unwrap();
    let mut broker = FakeBroker::default();
    manager.ensure_agent(&mut broker, identity.clone()).unwrap();
    broker.close_error = Some("workspace close failed".to_string());

    assert!(manager.release_agent(&mut broker, &identity).is_err());
    assert!(manager.state().agents.contains_key(&identity.key()));
}

#[test]
fn restart_after_release_creates_one_replacement_anchor_not_a_leak() {
    let identity = HerdrManagedAgentIdentity::new("atlas", home("restart-anchor")).unwrap();
    let mut manager = HerdrFleetManager::new(DEFAULT_HERDR_SESSION).unwrap();
    let mut broker = FakeBroker::default();
    let first = manager.ensure_agent(&mut broker, identity.clone()).unwrap();
    manager.release_agent(&mut broker, &identity).unwrap();
    let second = manager.ensure_agent(&mut broker, identity).unwrap();

    assert_eq!(broker.closed_workspaces, vec![first.parent.workspace_id]);
    assert_eq!(broker.workspaces, 2);
    assert_eq!(broker.live_workspaces.len(), 1);
    assert_eq!(manager.state().agents.len(), 1);
    assert_eq!(
        second.parent.workspace_id,
        "ws-".to_string() + &second.identity.home_sha256
    );
}

#[test]
fn adopted_server_is_never_stopped_automatically() {
    let identity = HerdrManagedAgentIdentity::new("atlas", home("adopted")).unwrap();
    let mut manager = HerdrFleetManager::new(DEFAULT_HERDR_SESSION).unwrap();
    let mut broker = FakeBroker::default();
    manager.ensure_agent(&mut broker, identity.clone()).unwrap();
    manager.release_agent(&mut broker, &identity).unwrap();
    assert_eq!(broker.stopped, 0);
    assert_eq!(broker.closed_workspaces.len(), 1);
}

#[test]
fn broker_rejects_cross_home_anchor_even_when_endpoint_is_topologically_valid() {
    let atlas = HerdrManagedAgentIdentity::new("atlas", home("forged-atlas")).unwrap();
    let nova = HerdrManagedAgentIdentity::new("nova", home("forged-nova")).unwrap();
    let mut manager = HerdrFleetManager::new(DEFAULT_HERDR_SESSION).unwrap();
    let mut broker = FakeBroker {
        owner_home_hash: Some(nova.home_sha256.clone()),
        ..Default::default()
    };

    let error = manager.ensure_agent(&mut broker, atlas).unwrap_err();
    assert!(error.contains("owner home does not match"));
    assert!(manager.state().agents.is_empty());
}

#[test]
fn repeated_ensure_reuses_one_exact_endpoint() {
    let identity = HerdrManagedAgentIdentity::new("atlas", home("repeat")).unwrap();
    let mut manager = HerdrFleetManager::new(DEFAULT_HERDR_SESSION).unwrap();
    let mut broker = FakeBroker::default();
    let first = manager.ensure_agent(&mut broker, identity.clone()).unwrap();
    let second = manager.ensure_agent(&mut broker, identity).unwrap();
    assert_eq!(broker.workspaces, 1);
    assert_eq!(first, second);
}

#[test]
fn rejects_default_session() {
    assert!(HerdrFleetManager::new("default").is_err());
}

#[test]
fn persisted_endpoint_cannot_claim_another_session() {
    let identity = HerdrManagedAgentIdentity::new("atlas", home("state-session")).unwrap();
    let lease = lease("lease-1");
    let snapshot = HerdrSpawnSnapshot {
        identity: identity.clone(),
        parent: HerdrParentIdentity {
            session: "other-session".to_string(),
            socket_path: lease.socket_path.clone(),
            workspace_id: "1".to_string(),
            root_tab_id: "1:1".to_string(),
            root_pane_id: "1-1".to_string(),
        },
        lease_id: lease.lease_id.clone(),
        server_started_by_buzz: false,
    };
    let state = HerdrFleetState {
        session: DEFAULT_HERDR_SESSION.to_string(),
        server_started_by_buzz: false,
        server_lease: Some(lease),
        agents: one_agent(identity.key(), snapshot),
    };
    assert!(HerdrFleetManager::from_state(state).is_err());
}

#[test]
fn persisted_state_retains_exact_endpoint_and_server_lease() {
    let identity = HerdrManagedAgentIdentity::new("atlas", home("persist")).unwrap();
    let mut manager = HerdrFleetManager::new(DEFAULT_HERDR_SESSION).unwrap();
    let mut broker = FakeBroker {
        started_by_buzz: true,
        ..Default::default()
    };
    let snapshot = manager.ensure_agent(&mut broker, identity).unwrap();
    let persisted = FleetStateFile::Present(manager.state().clone());
    let loaded = HerdrFleetManager::load(persisted).unwrap();
    let restored = &loaded.state().agents.entries()[0].snapshot;
    assert_eq!(restored.parent, snapshot.parent);
    assert_eq!(restored.lease_id, "lease-1");
    assert!(loaded.state().server_started_by_buzz);
}

#[test]
fn scrub_removes_only_firstmate_herdr_authority_from_child_command() {
    let removed = HerdrFleetManager::scrub_inherited_herdr_env();
    assert!(removed.contains(&"HERDR_ENV"));
    assert!(removed.contains(&"HERDR_SOCKET_PATH"));
    assert!(removed.contains(&"BUZZ_FIRSTMATE_HERDR_SESSION"));
    assert!(!removed.contains(&"UNRELATED_RUNTIME_ENV"));
    assert_eq!(
        removed,
        vec![
            "HERDR_ENV",
            "HERDR_SOCKET_PATH",
            "HERDR_WORKSPACE_ID",
            "HERDR_TAB_ID",
            "HERDR_PANE_ID",
            "BUZZ_FIRSTMATE_HERDR_CONTRACT_VERSION",
            "BUZZ_FIRSTMATE_HERDR_BINARY",
            "BUZZ_FIRSTMATE_HERDR_SESSION",
            "BUZZ_FIRSTMATE_HERDR_SOCKET_PATH",
            "BUZZ_FIRSTMATE_HERDR_WORKSPACE_ID",
            "BUZZ_FIRSTMATE_HERDR_ROOT_TAB_ID",
            "BUZZ_FIRSTMATE_HERDR_ROOT_PANE_ID",
        ]
    );
}

#[test]
fn env_contract_contains_only_explicit_parent_authority() {
    let parent = HerdrParentIdentity {
        session: DEFAULT_HERDR_SESSION.to_string(),
        socket_path: FsPath::from_text("/tmp/herdr.sock"),
        workspace_id: "5".to_string(),
        root_tab_id: "5:1".to_string(),
        root_pane_id: "5-1".to_string(),
    };
    let executable = FsPath::from_text("/opt/bin/herdr");
    let env = parent
        .firstmate_env(
            Ok(FsPath::from_text("/tmp/buzz-herdr-fleet-env")),
            &executable,
            Some(executable.clone()),
        )
        .unwrap();
    assert_eq!(env.len(), 8);
    assert!(env.iter().any(|(key, _)| *key == "BUZZ_FIRSTMATE_HOME"));
    assert!(env
        .iter()
        .all(|(key, _)| key.starts_with("BUZZ_FIRSTMATE_")));
    assert!(env.iter().any(
        |(key, value)| *key == "BUZZ_FIRSTMATE_HERDR_BINARY" && value == "/opt/bin/herdr"
    ));
    assert!(env.iter().all(|(key, _)| *key != "HERDR_ENV"));
    let texts: Vec<(&str, &str)> = env.iter().map(|(k, v)| (*k, v.as_str())).collect();
    assert_eq!(
        texts,
        vec![
            ("BUZZ_FIRSTMATE_HERDR_CONTRACT_VERSION", "1"),
            ("BUZZ_FIRSTMATE_HOME", "/tmp/buzz-herdr-fleet-env"),
            ("BUZZ_FIRSTMATE_HERDR_BINARY", "/opt/bin/herdr"),
            ("BUZZ_FIRSTMATE_HERDR_SESSION", "buzz-firstmate"),
            ("BUZZ_FIRSTMATE_HERDR_SOCKET_PATH", "/tmp/herdr.sock"),
            ("BUZZ_FIRSTMATE_HERDR_WORKSPACE_ID", "5"),
            ("BUZZ_FIRSTMATE_HERDR_ROOT_TAB_ID", "5:1"),
            ("BUZZ_FIRSTMATE_HERDR_ROOT_PANE_ID", "5-1"),
        ]
    );
}

#[test]
fn contract_is_refused_without_home_binary_or_endpoint() {
    let binary = FsPath::from_text("/opt/bin/herdr");
    let parent = endpoint(DEFAULT_HERDR_SESSION);
    assert_eq!(
        parent
            .firstmate_env(Err("gone".to_string()), &binary, Some(binary.clone()))
            .unwrap_err(),
        "failed to canonicalize FirstMate home: gone"
    );
    assert_eq!(
        parent
            .firstmate_env(Ok(FsPath::from_text("/h")), &binary, None)
            .unwrap_err(),
        "Herdr binary is not an executable regular file: /opt/bin/herdr"
    );
    assert_eq!(
        endpoint(" \t")
            .firstmate_env(Ok(FsPath::from_text("/h")), &binary, Some(binary.clone()))
            .unwrap_err(),
        "Herdr parent identity is incomplete"
    );
}

#[test]
fn waits_grow_between_attempts() {
    let identity = HerdrManagedAgentIdentity::new("atlas", home("waits")).unwrap();
    let mut manager = HerdrFleetManager::new(DEFAULT_HERDR_SESSION).unwrap();
    let mut broker = FakeBroker {
        preflight_error: Some("no pane".to_string()),
        ..Default::default()
    };
    let error = manager.ensure_agent(&mut broker, identity).unwrap_err();
    assert_eq!(
        error,
        "Herdr endpoint failed preflight for managed agent atlas: no pane"
    );
    assert_eq!(broker.pauses, vec![40, 80]);
    assert_eq!(
        after_attempt(0, Err("x".to_string())),
        PreflightMove::Retry(40)
    );
    assert_eq!(
        after_attempt(2, Err("x".to_string())),
        PreflightMove::GiveUp("x".to_string())
    );
    assert_eq!(after_attempt(1, Ok(())), PreflightMove::Accept);
}

#[test]
fn failed_rollback_is_reported_with_the_refusal() {
    let identity = HerdrManagedAgentIdentity::new("atlas", home("rollback")).unwrap();
    let mut manager = HerdrFleetManager::new(DEFAULT_HERDR_SESSION).unwrap();
    let mut broker = FakeBroker {
        preflight_error: Some("no pane".to_string()),
        close_error: Some("busy".to_string()),
        ..Default::default()
    };
    assert_eq!(
        manager
            .ensure_agent(&mut broker, identity.clone())
            .unwrap_err(),
        "Herdr endpoint failed preflight for managed agent atlas: no pane; exact workspace rollback also failed: busy"
    );
    assert_eq!(
        refuse_unproved(&identity, "no pane", Ok(())),
        "Herdr endpoint failed preflight for managed agent atlas: no pane"
    );
}

#[test]
fn sessions_must_be_named_and_not_the_default_one() {
    assert_eq!(validate_dedicated_session("buzz-firstmate"), Ok(()));
    assert_eq!(
        validate_dedicated_session(" \u{a0}\n"),
        Err("Herdr fleet state has no dedicated session".to_string())
    );
    assert_eq!(
        validate_dedicated_session("DeFault"),
        Err("FirstMate managed agents must not adopt Herdr's default session".to_string())
    );
    assert_eq!(validate_dedicated_session("defaults"), Ok(()));
    assert_eq!(default_herdr_session(), "buzz-firstmate");
}

#[test]
fn identity_needs_a_name_and_a_directory() {
    assert_eq!(
        HerdrManagedAgentIdentity::new(" ", home("x")).unwrap_err(),
        "Herdr managed-agent identity is empty"
    );
    assert_eq!(
        HerdrManagedAgentIdentity::new("a", HomeLookup::Unresolved("nope".to_string()))
            .unwrap_err(),
        "failed to canonicalize FirstMate home: nope"
    );
    assert_eq!(
        HerdrManagedAgentIdentity::new("a", HomeLookup::NotDirectory).unwrap_err(),
        "FirstMate home must resolve to a directory"
    );
    let identity = HerdrManagedAgentIdentity::new(
        "atlas",
        HomeLookup::Directory(FsPath::from_text("/tmp/home")),
    )
    .unwrap();
    assert_eq!(identity.home_sha256, home_sha256(&identity.canonical_home));
    assert_eq!(
        identity.key(),
        format!("atlas:{}", home_sha256(&FsPath::from_text("/tmp/home")))
    );
}

#[test]
fn fingerprint_is_the_sha256_of_the_path_in_hexadecimal() {
    assert_eq!(
        home_sha256(&FsPath::from_text("abc")),
        "ba7816bf8f01cfea414140de5dae2223b00361a396177a9cb410ff61f20015ad"
    );
    assert_eq!(
        home_sha256(&FsPath::from_text("")),
        "e3b0c44298fc1c149afbf4c8996fb92427ae41e4649b934ca495991b7852b855"
    );
}

#[test]
fn load_tells_a_first_launch_from_a_broken_state() {
    let fresh = HerdrFleetManager::load(FleetStateFile::Missing).unwrap();
    assert_eq!(fresh.state().session, "buzz-firstmate");
    assert!(fresh.state().agents.is_empty());
    assert_eq!(
        HerdrFleetManager::load(FleetStateFile::Unreadable("denied".to_string())).unwrap_err(),
        "failed to read Herdr fleet state: denied"
    );
    assert_eq!(
        HerdrFleetManager::load(FleetStateFile::Malformed("eof".to_string())).unwrap_err(),
        "invalid Herdr fleet state: eof"
    );
}

fn state_of(
    server_started_by_buzz: bool,
    server_lease: Option<HerdrSessionLease>,
    agents: AgentTable,
) -> HerdrFleetState {
    HerdrFleetState {
        session: DEFAULT_HERDR_SESSION.to_string(),
        server_started_by_buzz,
        server_lease,
        agents,
    }
}

#[test]
fn from_state_names_what_does_not_fit() {
    let identity = HerdrManagedAgentIdentity::new("atlas", home("fit")).unwrap();
    let good = HerdrSpawnSnapshot {
        identity: identity.clone(),
        parent: endpoint(DEFAULT_HERDR_SESSION),
        lease_id: "lease-1".to_string(),
        server_started_by_buzz: false,
    };
    let refusal = |lease: Option<HerdrSessionLease>, key: String, snapshot: HerdrSpawnSnapshot| {
        HerdrFleetManager::from_state(state_of(false, lease, one_agent(key, snapshot)))
            .unwrap_err()
    };
    assert!(HerdrFleetManager::from_state(state_of(
        false,
        Some(lease("lease-1")),
        one_agent(identity.key(), good.clone())
    ))
    .is_ok());
    assert_eq!(
        refusal(None, identity.key(), good.clone()),
        "Herdr fleet state with agents is missing its server lease"
    );
    assert_eq!(
        HerdrFleetManager::from_state(state_of(true, None, AgentTable::new())).unwrap_err(),
        "Buzz-owned Herdr fleet state is missing its server lease"
    );
    let mut bad = good.clone();
    bad.parent.socket_path = FsPath::from_text("herdr.sock");
    assert_eq!(
        refusal(Some(lease("lease-1")), identity.key(), bad),
        "Herdr socket path must be absolute"
    );
    let mut bad = good.clone();
    bad.lease_id = " ".to_string();
    assert_eq!(
        refusal(Some(lease("lease-1")), identity.key(), bad),
        "Herdr fleet state contains an empty lease id"
    );
    let mut bad = good.clone();
    bad.identity.home_sha256 = "00".to_string();
    assert_eq!(
        refusal(Some(lease("lease-1")), identity.key(), bad),
        "Herdr fleet state contains a mismatched FirstMate home hash"
    );
    assert_eq!(
        refusal(Some(lease("lease-1")), "nova:1".to_string(), good.clone()),
        "Herdr fleet state contains an endpoint under the wrong owner key"
    );
    let mut bad = good.clone();
    bad.parent.session = "other".to_string();
    assert_eq!(
        refusal(Some(lease("lease-1")), identity.key(), bad),
        "Herdr endpoint belongs to a different session"
    );
    assert_eq!(
        refusal(Some(lease("lease-2")), identity.key(), good.clone()),
        "Herdr endpoint does not belong to the persisted server lease"
    );
}

#[test]
fn leases_that_do_not_fit_are_refused() {
    let identity = HerdrManagedAgentIdentity::new("atlas", home("lease")).unwrap();
    let refusal = |offered: HerdrSessionLease| {
        let mut manager = HerdrFleetManager::new(DEFAULT_HERDR_SESSION).unwrap();
        let mut broker = FakeBroker {
            lease: Some(offered),
            ..Default::default()
        };
        let error = manager
            .ensure_agent(&mut broker, identity.clone())
            .unwrap_err();
        assert_eq!(broker.workspaces, 0);
        error
    };
    let mut other = lease("lease-1");
    other.session = "other".to_string();
    assert_eq!(
        refusal(other),
        "Herdr broker returned a different session than requested"
    );
    let mut relative = lease("lease-1");
    relative.socket_path = FsPath::from_text("tmp/herdr.sock");
    assert_eq!(
        refusal(relative),
        "Herdr broker returned a non-absolute socket path"
    );
    assert_eq!(
        refusal(lease("  ")),
        "Herdr broker returned an empty server lease id"
    );
}

#[test]
fn restart_keeps_the_persisted_lease() {
    let mut persisted = lease("first");
    persisted.started_by_buzz = true;
    let mut manager =
        HerdrFleetManager::from_state(state_of(true, Some(persisted), AgentTable::new())).unwrap();
    let identity = HerdrManagedAgentIdentity::new("atlas", home("keep")).unwrap();
    let mut broker = FakeBroker {
        lease: Some(lease("second")),
        ..Default::default()
    };
    let snapshot = manager.ensure_agent(&mut broker, identity).unwrap();
    assert_eq!(snapshot.lease_id, "first");
    assert!(!snapshot.server_started_by_buzz);
    assert!(manager.state().server_started_by_buzz);
    assert_eq!(
        manager.state().server_lease.as_ref().unwrap().lease_id,
        "first"
    );

    let mut moved = lease("third");
    moved.socket_path = FsPath::from_text("/tmp/elsewhere.sock");
    broker.lease = Some(moved);
    let nova = HerdrManagedAgentIdentity::new("nova", home("keep-nova")).unwrap();
    assert_eq!(
        manager.ensure_agent(&mut broker, nova).unwrap_err(),
        "Herdr broker returned a different server than the persisted lease"
    );
    assert_eq!(manager.state().agents.len(), 1);
}

#[test]
fn broker_failures_leave_the_state_alone() {
    let identity = HerdrManagedAgentIdentity::new("atlas", home("failures")).unwrap();
    let mut manager = HerdrFleetManager::new(DEFAULT_HERDR_SESSION).unwrap();
    let mut broker = FakeBroker {
        session_error: Some("no server".to_string()),
        ..Default::default()
    };
    assert_eq!(
        manager
            .ensure_agent(&mut broker, identity.clone())
            .unwrap_err(),
        "no server"
    );
    broker.session_error = None;
    broker.workspace_error = Some("no room".to_string());
    assert_eq!(
        manager
            .ensure_agent(&mut broker, identity.clone())
            .unwrap_err(),
        "no room"
    );
    broker.workspace_error = None;
    broker.parent = Some(endpoint(DEFAULT_HERDR_SESSION));
    assert_eq!(
        manager
            .ensure_agent(&mut broker, identity.clone())
            .unwrap_err(),
        "Herdr broker returned a workspace outside the leased session"
    );
    broker.parent = Some(endpoint(""));
    assert_eq!(
        manager.ensure_agent(&mut broker, identity).unwrap_err(),
        "Herdr parent identity is incomplete"
    );
    assert!(manager.state().agents.is_empty());
    assert!(manager.state().server_lease.is_none());
    assert_eq!(admit_endpoint(&lease("l"), &endpoint(DEFAULT_HERDR_SESSION)), Ok(()));
}

#[test]
fn failed_stop_retains_endpoint_lease_and_ownership() {
    let identity = HerdrManagedAgentIdentity::new("atlas", home("stop")).unwrap();
    let mut manager = HerdrFleetManager::new(DEFAULT_HERDR_SESSION).unwrap();
    let mut broker = FakeBroker {
        started_by_buzz: true,
        stop_error: Some("still busy".to_string()),
        ..Default::default()
    };
    manager.ensure_agent(&mut broker, identity.clone()).unwrap();
    assert_eq!(
        manager.release_agent(&mut broker, &identity),
        Err("still busy".to_string())
    );
    assert!(manager.state().agents.contains_key(&identity.key()));
    assert!(manager.state().server_lease.is_some());
    broker.stop_error = None;
    assert_eq!(manager.release_agent(&mut broker, &identity), Ok(()));
    assert!(manager.state().agents.is_empty());
    assert!(manager.state().server_lease.is_none());
    assert!(!manager.state().server_started_by_buzz);
    assert_eq!(manager.release_agent(&mut broker, &identity), Ok(()));
    assert_eq!(broker.stopped, 2);
}

#[test]
fn settling_follows_the_reply() {
    let identity = HerdrManagedAgentIdentity::new("atlas", home("settle")).unwrap();
    let mut manager = HerdrFleetManager::new(DEFAULT_HERDR_SESSION).unwrap();
    let snapshot =
        manager.record_endpoint(identity.clone(), endpoint(DEFAULT_HERDR_SESSION), &lease("l"));
    assert_eq!(
        answer_recorded(&snapshot, &identity, Ok(())).unwrap(),
        snapshot
    );
    assert!(manager.settle_close(&identity, Err("no".to_string())).is_err());
    assert_eq!(manager.state().agents.len(), 1);
    assert!(manager.settle_close(&identity, Ok(())).is_ok());
    assert!(manager.state().agents.is_empty());
    assert!(manager.state().server_lease.is_none());
}

#[test]
fn agents_are_listed_in_key_order() {
    let mut agents = AgentTable::new();
    for name in ["nova", "atlas", "zeta", "atlas"] {
        let identity = HerdrManagedAgentIdentity::new(name, home("order")).unwrap();
        let snapshot = HerdrSpawnSnapshot {
            identity,
            parent: endpoint(DEFAULT_HERDR_SESSION),
            lease_id: "l".to_string(),
            server_started_by_buzz: false,
        };
        agents.insert(name.to_string(), snapshot);
    }
    let keys: Vec<&str> = agents.entries().iter().map(|e| e.key.as_str()).collect();
    assert_eq!(keys, vec!["atlas", "nova", "zeta"]);
    agents.remove("nova");
    agents.remove("nobody");
    assert_eq!(agents.len(), 2);
    assert!(agents.get("nova").is_none());
    assert!(agents.get("zeta").is_some());
    assert!(!agents.holds_only("zeta"));
    agents.remove("atlas");
    assert!(agents.holds_only("zeta"));
}

#[test]
fn state_stands_below_the_base_directory() {
    assert_eq!(
        fleet_state_path(&FsPath::from_text("/data/agents")).display(),
        "/data/agents/firstmate-herdr-fleet.json"
    );
}

#[test]
fn copies_hold_what_they_were_made_of() {
    let identity = HerdrManagedAgentIdentity::new("atlas", home("copies")).unwrap();
    let mut manager = HerdrFleetManager::new(DEFAULT_HERDR_SESSION).unwrap();
    let mut broker = FakeBroker::default();
    manager.ensure_agent(&mut broker, identity.clone()).unwrap();
    let copy = manager.clone();
    assert_eq!(copy.state(), manager.state());
    manager.release_agent(&mut broker, &identity).unwrap();
    assert_eq!(copy.state().agents.len(), 1);
    assert!(manager.state().agents.is_empty());
    let request = HerdrWorkspaceRequest { identity };
    assert_eq!(request.clone(), request);
}

#[test]
fn default_state_names_no_session() {
    let state = HerdrFleetState::default();
    assert_eq!(state.session, "");
    assert!(!state.server_started_by_buzz);
    assert!(state.server_lease.is_none());
    assert!(state.agents.is_empty());
    assert_eq!(
        HerdrFleetManager::from_state(state).unwrap_err(),
        "Herdr fleet state has no dedicated session"
    );
}
