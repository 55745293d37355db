//! Who owns an endpoint, and which endpoint: the identities that the fleet works with.
//!
//! Labels are absent on purpose. A label is presentation; it never authorizes a workspace or a
//! pane.

use vstd::prelude::*;

use crate::digest::{hex_text, home_fingerprint, home_sha256, sha256_digest};
use crate::encoding::shown_text;
use crate::outcome::{held, outcome, verdict};
use crate::path::{absolute, FsPath};
use crate::text::{blank, is_blank};

verus! {

/// Model of [`HerdrManagedAgentIdentity`].
#[verifier::ext_equal]
pub struct IdentityModel {
    pub managed_agent_id: Seq<char>,
    pub canonical_home: Seq<u8>,
    pub home_sha256: Seq<char>,
}

impl IdentityModel {
    /// The key under which the owner's endpoint is recorded.
    pub open spec fn key(self) -> Seq<char> {
        self.managed_agent_id + ":"@ + self.home_sha256
    }

    /// The fingerprint is that of the home.
    pub open spec fn well_formed(self) -> bool {
        &&& self.home_sha256 == home_fingerprint(self.canonical_home)
        &&& self.home_sha256.len() == 64
    }
}

/// Stable identity for a managed FirstMate home.
#[derive(Debug, PartialEq, Eq)]
pub struct HerdrManagedAgentIdentity {
    pub managed_agent_id: String,
    pub canonical_home: FsPath,
    pub home_sha256: String,
}

impl View for HerdrManagedAgentIdentity {
    type V = IdentityModel;

    open spec fn view(&self) -> IdentityModel {
        IdentityModel {
            managed_agent_id: self.managed_agent_id@,
            canonical_home: self.canonical_home@,
            home_sha256: self.home_sha256@,
        }
    }
}

impl Clone for HerdrManagedAgentIdentity {
    fn clone(&self) -> (r: Self)
        ensures
            r@ == self@,
    {
        HerdrManagedAgentIdentity {
            managed_agent_id: self.managed_agent_id.clone(),
            canonical_home: self.canonical_home.clone(),
            home_sha256: self.home_sha256.clone(),
        }
    }
}

/// What came of resolving a home to its canonical path.
#[derive(Debug)]
pub enum HomeLookup {
    /// The path did not resolve, for this reason.
    Unresolved(String),
    /// The path resolved to something else than a directory.
    NotDirectory,
    /// The path resolved to this directory.
    Directory(FsPath),
}

/// The identity of agent `id` in the home that was looked up, or why there is none.
pub open spec fn identity_outcome(id: Seq<char>, home: HomeLookup) -> Result<
    IdentityModel,
    Seq<char>,
> {
    if blank(id) {
        Err("Herdr managed-agent identity is empty"@)
    } else {
        match home {
            HomeLookup::Unresolved(error) => Err(
                "failed to canonicalize FirstMate home: "@ + error@,
            ),
            HomeLookup::NotDirectory => Err("FirstMate home must resolve to a directory"@),
            HomeLookup::Directory(path) => Ok(
                IdentityModel {
                    managed_agent_id: id,
                    canonical_home: path@,
                    home_sha256: home_fingerprint(path@),
                },
            ),
        }
    }
}

impl HerdrManagedAgentIdentity {
    /// The identity of an agent that runs from a home.
    pub fn new(managed_agent_id: &str, home: HomeLookup) -> (r: Result<Self, String>)
        ensures
            outcome(r) == identity_outcome(managed_agent_id@, home),
            r matches Ok(identity) ==> identity@.well_formed(),
    {
        if is_blank(managed_agent_id) {
            return Err("Herdr managed-agent identity is empty".to_owned());
        }
        match home {
            HomeLookup::Unresolved(error) => Err(
                "failed to canonicalize FirstMate home: ".to_owned().concat(error.as_str()),
            ),
            HomeLookup::NotDirectory => Err(
                "FirstMate home must resolve to a directory".to_owned(),
            ),
            HomeLookup::Directory(path) => {
                let fingerprint = home_sha256(&path);
                Ok(
                    HerdrManagedAgentIdentity {
                        managed_agent_id: managed_agent_id.to_owned(),
                        canonical_home: path,
                        home_sha256: fingerprint,
                    },
                )
            },
        }
    }

    /// The key under which the owner's endpoint is recorded.
    pub fn key(&self) -> (r: String)
        ensures
            r@ == self@.key(),
    {
        self.managed_agent_id.clone().concat(":").concat(self.home_sha256.as_str())
    }
}

/// An owner key names one agent and one home fingerprint: two well-formed identities with the same
/// key have the same agent id and the same fingerprint.
pub proof fn owner_key_names_one_owner(a: IdentityModel, b: IdentityModel)
    requires
        a.well_formed(),
        b.well_formed(),
        a.key() == b.key(),
    ensures
        a.managed_agent_id == b.managed_agent_id,
        a.home_sha256 == b.home_sha256,
{
    let n = a.managed_agent_id.len() as int;
    assert(a.key().len() == n + ":"@.len() + 64);
    assert(b.key().len() == b.managed_agent_id.len() + ":"@.len() + 64);
    assert(a.managed_agent_id =~= a.key().take(n));
    assert(b.managed_agent_id =~= b.key().take(n));
    assert(a.home_sha256 =~= a.key().skip(a.key().len() - 64));
    assert(b.home_sha256 =~= b.key().skip(b.key().len() - 64));
}

/// Model of [`HerdrParentIdentity`].
#[verifier::ext_equal]
pub struct ParentModel {
    pub session: Seq<char>,
    pub socket_path: Seq<u8>,
    pub workspace_id: Seq<char>,
    pub root_tab_id: Seq<char>,
    pub root_pane_id: Seq<char>,
}

impl ParentModel {
    /// Why the endpoint is not acceptable, if it is not.
    pub open spec fn refusal(self) -> Option<Seq<char>> {
        if blank(self.session) || blank(self.workspace_id) || blank(self.root_tab_id) || blank(
            self.root_pane_id,
        ) {
            Some("Herdr parent identity is incomplete"@)
        } else if !absolute(self.socket_path) {
            Some("Herdr socket path must be absolute"@)
        } else {
            None
        }
    }
}

/// Exact Herdr endpoint authority for one FirstMate primary.
#[derive(Debug, PartialEq, Eq)]
pub struct HerdrParentIdentity {
    pub session: String,
    pub socket_path: FsPath,
    pub workspace_id: String,
    pub root_tab_id: String,
    pub root_pane_id: String,
}

impl View for HerdrParentIdentity {
    type V = ParentModel;

    open spec fn view(&self) -> ParentModel {
        ParentModel {
            session: self.session@,
            socket_path: self.socket_path@,
            workspace_id: self.workspace_id@,
            root_tab_id: self.root_tab_id@,
            root_pane_id: self.root_pane_id@,
        }
    }
}

impl Clone for HerdrParentIdentity {
    fn clone(&self) -> (r: Self)
        ensures
            r@ == self@,
    {
        HerdrParentIdentity {
            session: self.session.clone(),
            socket_path: self.socket_path.clone(),
            workspace_id: self.workspace_id.clone(),
            root_tab_id: self.root_tab_id.clone(),
            root_pane_id: self.root_pane_id.clone(),
        }
    }
}

/// The names and values of a list of environment settings.
pub open spec fn settings(list: Seq<(&'static str, String)>) -> Seq<(Seq<char>, Seq<char>)> {
    list.map_values(|setting: (&'static str, String)| (setting.0@, setting.1@))
}

/// The settings that hand an endpoint to the adapter in a FirstMate home.
pub open spec fn contract_settings(
    parent: ParentModel,
    home: Seq<u8>,
    binary: Seq<u8>,
) -> Seq<(Seq<char>, Seq<char>)> {
    seq![
        ("BUZZ_FIRSTMATE_HERDR_CONTRACT_VERSION"@, "1"@),
        ("BUZZ_FIRSTMATE_HOME"@, shown_text(home)),
        ("BUZZ_FIRSTMATE_HERDR_BINARY"@, shown_text(binary)),
        ("BUZZ_FIRSTMATE_HERDR_SESSION"@, parent.session),
        ("BUZZ_FIRSTMATE_HERDR_SOCKET_PATH"@, shown_text(parent.socket_path)),
        ("BUZZ_FIRSTMATE_HERDR_WORKSPACE_ID"@, parent.workspace_id),
        ("BUZZ_FIRSTMATE_HERDR_ROOT_TAB_ID"@, parent.root_tab_id),
        ("BUZZ_FIRSTMATE_HERDR_ROOT_PANE_ID"@, parent.root_pane_id),
    ]
}

/// The settings for an endpoint, or why it is not handed out.
pub open spec fn contract_outcome(
    parent: ParentModel,
    home: Result<Seq<u8>, Seq<char>>,
    herdr_binary: Seq<u8>,
    executable: Option<Seq<u8>>,
) -> Result<Seq<(Seq<char>, Seq<char>)>, Seq<char>> {
    if parent.refusal() is Some {
        Err(parent.refusal()->0)
    } else {
        match (home, executable) {
            (Err(error), _) => Err("failed to canonicalize FirstMate home: "@ + error),
            (Ok(_), None) => Err(
                "Herdr binary is not an executable regular file: "@ + shown_text(herdr_binary),
            ),
            (Ok(home), Some(binary)) => Ok(contract_settings(parent, home, binary)),
        }
    }
}

impl HerdrParentIdentity {
    /// Whether every part of the endpoint is there and its socket is absolute.
    pub fn validate(&self) -> (r: Result<(), String>)
        ensures
            outcome(r) == verdict(self@.refusal()),
    {
        if is_blank(self.session.as_str()) || is_blank(self.workspace_id.as_str()) || is_blank(
            self.root_tab_id.as_str(),
        ) || is_blank(self.root_pane_id.as_str()) {
            return Err("Herdr parent identity is incomplete".to_owned());
        }
        if !self.socket_path.is_absolute() {
            return Err("Herdr socket path must be absolute".to_owned());
        }
        Ok(())
    }

    /// The explicit contract that the adapter in a FirstMate home reads. `home` is the canonical
    /// home, or why it did not resolve; `executable` is the canonical path of `herdr_binary` if
    /// that is an executable file.
    pub fn firstmate_env(
        &self,
        home: Result<FsPath, String>,
        herdr_binary: &FsPath,
        executable: Option<FsPath>,
    ) -> (r: Result<Vec<(&'static str, String)>, String>)
        ensures
            match contract_outcome(self@, outcome(home), herdr_binary@, held(executable)) {
                Ok(list) => r matches Ok(env) && settings(env@) == list,
                Err(message) => r matches Err(error) && error@ == message,
            },
    {
        match self.validate() {
            Err(error) => {
                return Err(error);
            },
            Ok(_) => {},
        }
        let home = match home {
            Err(error) => {
                return Err(
                    "failed to canonicalize FirstMate home: ".to_owned().concat(error.as_str()),
                );
            },
            Ok(path) => path,
        };
        let binary = match executable {
            None => {
                return Err(
                    "Herdr binary is not an executable regular file: ".to_owned().concat(
                        herdr_binary.display().as_str(),
                    ),
                );
            },
            Some(path) => path,
        };
        let mut env: Vec<(&'static str, String)> = Vec::new();
        env.push(("BUZZ_FIRSTMATE_HERDR_CONTRACT_VERSION", "1".to_owned()));
        env.push(("BUZZ_FIRSTMATE_HOME", home.display()));
        env.push(("BUZZ_FIRSTMATE_HERDR_BINARY", binary.display()));
        env.push(("BUZZ_FIRSTMATE_HERDR_SESSION", self.session.clone()));
        env.push(("BUZZ_FIRSTMATE_HERDR_SOCKET_PATH", self.socket_path.display()));
        env.push(("BUZZ_FIRSTMATE_HERDR_WORKSPACE_ID", self.workspace_id.clone()));
        env.push(("BUZZ_FIRSTMATE_HERDR_ROOT_TAB_ID", self.root_tab_id.clone()));
        env.push(("BUZZ_FIRSTMATE_HERDR_ROOT_PANE_ID", self.root_pane_id.clone()));
        assert(settings(env@) =~= contract_settings(self@, home@, binary@));
        Ok(env)
    }
}

/// Model of [`HerdrSessionLease`].
#[verifier::ext_equal]
pub struct LeaseModel {
    pub session: Seq<char>,
    pub socket_path: Seq<u8>,
    pub lease_id: Seq<char>,
    pub started_by_buzz: bool,
}

/// Result of ensuring or adopting the dedicated session.
#[derive(Debug, PartialEq, Eq)]
pub struct HerdrSessionLease {
    pub session: String,
    pub socket_path: FsPath,
    pub lease_id: String,
    /// `true` only if the server was created for this lease. An adopted session is never eligible
    /// for automatic stop.
    pub started_by_buzz: bool,
}

impl View for HerdrSessionLease {
    type V = LeaseModel;

    open spec fn view(&self) -> LeaseModel {
        LeaseModel {
            session: self.session@,
            socket_path: self.socket_path@,
            lease_id: self.lease_id@,
            started_by_buzz: self.started_by_buzz,
        }
    }
}

impl Clone for HerdrSessionLease {
    fn clone(&self) -> (r: Self)
        ensures
            r@ == self@,
    {
        HerdrSessionLease {
            session: self.session.clone(),
            socket_path: self.socket_path.clone(),
            lease_id: self.lease_id.clone(),
            started_by_buzz: self.started_by_buzz,
        }
    }
}

/// Request for a stable workspace belonging to one owner identity.
#[derive(Debug, PartialEq, Eq)]
pub struct HerdrWorkspaceRequest {
    pub identity: HerdrManagedAgentIdentity,
}

impl View for HerdrWorkspaceRequest {
    type V = IdentityModel;

    open spec fn view(&self) -> IdentityModel {
        self.identity@
    }
}

impl Clone for HerdrWorkspaceRequest {
    fn clone(&self) -> (r: Self)
        ensures
            r@ == self@,
    {
        HerdrWorkspaceRequest { identity: self.identity.clone() }
    }
}

/// Model of [`HerdrSpawnSnapshot`].
#[verifier::ext_equal]
pub struct SnapshotModel {
    pub identity: IdentityModel,
    pub parent: ParentModel,
    pub lease_id: Seq<char>,
    pub server_started_by_buzz: bool,
}

/// Persisted owner endpoint, and the server ownership fact that a safe teardown needs.
#[derive(Debug, PartialEq, Eq)]
pub struct HerdrSpawnSnapshot {
    pub identity: HerdrManagedAgentIdentity,
    pub parent: HerdrParentIdentity,
    /// Opaque lease that identifies the shared server instance.
    pub lease_id: String,
    pub server_started_by_buzz: bool,
}

impl View for HerdrSpawnSnapshot {
    type V = SnapshotModel;

    open spec fn view(&self) -> SnapshotModel {
        SnapshotModel {
            identity: self.identity@,
            parent: self.parent@,
            lease_id: self.lease_id@,
            server_started_by_buzz: self.server_started_by_buzz,
        }
    }
}

impl Clone for HerdrSpawnSnapshot {
    fn clone(&self) -> (r: Self)
        ensures
            r@ == self@,
    {
        HerdrSpawnSnapshot {
            identity: self.identity.clone(),
            parent: self.parent.clone(),
            lease_id: self.lease_id.clone(),
            server_started_by_buzz: self.server_started_by_buzz,
        }
    }
}

/// An agent has an identity exactly when its id is not blank and its home resolved to a directory.
/// The identity then holds that id as it is, that directory, and the digest of its path.
pub proof fn identity_names_the_agent_and_its_home(
    id: Seq<char>,
    home: HomeLookup,
    identity: IdentityModel,
)
    ensures
        identity_outcome(id, home) == Ok::<IdentityModel, Seq<char>>(identity) <==> {
            &&& !blank(id)
            &&& home matches HomeLookup::Directory(path)
            &&& identity.managed_agent_id == id
            &&& identity.canonical_home == path@
            &&& identity.home_sha256 == hex_text(sha256_digest(path@))
        },
        !blank(id) ==> (home matches HomeLookup::Unresolved(error) ==> identity_outcome(id, home)
            == Err::<IdentityModel, Seq<char>>(
            "failed to canonicalize FirstMate home: "@ + error@,
        )),
{
}

/// The settings that hand an endpoint over are these eight: each part of the endpoint, the home and
/// the program stand under their own names.
pub proof fn each_part_is_handed_over_under_its_name(
    parent: ParentModel,
    home: Seq<u8>,
    binary: Seq<u8>,
    name: Seq<char>,
    value: Seq<char>,
)
    ensures
        contract_settings(parent, home, binary).len() == 8,
        contract_settings(parent, home, binary).contains((name, value)) <==> {
            ||| name == "BUZZ_FIRSTMATE_HERDR_CONTRACT_VERSION"@ && value == "1"@
            ||| name == "BUZZ_FIRSTMATE_HOME"@ && value == shown_text(home)
            ||| name == "BUZZ_FIRSTMATE_HERDR_BINARY"@ && value == shown_text(binary)
            ||| name == "BUZZ_FIRSTMATE_HERDR_SESSION"@ && value == parent.session
            ||| name == "BUZZ_FIRSTMATE_HERDR_SOCKET_PATH"@ && value == shown_text(
                parent.socket_path,
            )
            ||| name == "BUZZ_FIRSTMATE_HERDR_WORKSPACE_ID"@ && value == parent.workspace_id
            ||| name == "BUZZ_FIRSTMATE_HERDR_ROOT_TAB_ID"@ && value == parent.root_tab_id
            ||| name == "BUZZ_FIRSTMATE_HERDR_ROOT_PANE_ID"@ && value == parent.root_pane_id
        },
{
    let list = contract_settings(parent, home, binary);
    assert(list[0] == ("BUZZ_FIRSTMATE_HERDR_CONTRACT_VERSION"@, "1"@));
    assert(list[1] == ("BUZZ_FIRSTMATE_HOME"@, shown_text(home)));
    assert(list[2] == ("BUZZ_FIRSTMATE_HERDR_BINARY"@, shown_text(binary)));
    assert(list[3] == ("BUZZ_FIRSTMATE_HERDR_SESSION"@, parent.session));
    assert(list[4] == ("BUZZ_FIRSTMATE_HERDR_SOCKET_PATH"@, shown_text(parent.socket_path)));
    assert(list[5] == ("BUZZ_FIRSTMATE_HERDR_WORKSPACE_ID"@, parent.workspace_id));
    assert(list[6] == ("BUZZ_FIRSTMATE_HERDR_ROOT_TAB_ID"@, parent.root_tab_id));
    assert(list[7] == ("BUZZ_FIRSTMATE_HERDR_ROOT_PANE_ID"@, parent.root_pane_id));
}

/// An endpoint is handed over exactly when it is complete, the home resolved and the program can be
/// run: it is then handed over with the canonical home and the canonical program.
pub proof fn complete_endpoint_is_handed_over(
    parent: ParentModel,
    home: Result<Seq<u8>, Seq<char>>,
    herdr_binary: Seq<u8>,
    executable: Option<Seq<u8>>,
)
    ensures
        contract_outcome(parent, home, herdr_binary, executable) is Ok <==> {
            &&& !blank(parent.session)
            &&& !blank(parent.workspace_id)
            &&& !blank(parent.root_tab_id)
            &&& !blank(parent.root_pane_id)
            &&& absolute(parent.socket_path)
            &&& home is Ok
            &&& executable is Some
        },
        contract_outcome(parent, home, herdr_binary, executable) matches Ok(list) ==> list
            == contract_settings(parent, home->Ok_0, executable->0),
{
}

} // verus!
