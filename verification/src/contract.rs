//! The environment settings that carry Herdr authority, by name.

use vstd::prelude::*;

use crate::identity::{contract_settings, ParentModel};
use crate::text::words;

verus! {

/// The names of the settings by which Herdr marks the processes inside its panes.
pub open spec fn inherited_names() -> Seq<Seq<char>> {
    seq![
        "HERDR_ENV"@,
        "HERDR_SOCKET_PATH"@,
        "HERDR_WORKSPACE_ID"@,
        "HERDR_TAB_ID"@,
        "HERDR_PANE_ID"@,
    ]
}

/// The names of the settings that hand an endpoint to a FirstMate.
pub open spec fn contract_names() -> Seq<Seq<char>> {
    seq![
        "BUZZ_FIRSTMATE_HERDR_CONTRACT_VERSION"@,
        "BUZZ_FIRSTMATE_HERDR_BINARY"@,
        "BUZZ_FIRSTMATE_HERDR_SESSION"@,
        "BUZZ_FIRSTMATE_HERDR_SOCKET_PATH"@,
        "BUZZ_FIRSTMATE_HERDR_WORKSPACE_ID"@,
        "BUZZ_FIRSTMATE_HERDR_ROOT_TAB_ID"@,
        "BUZZ_FIRSTMATE_HERDR_ROOT_PANE_ID"@,
    ]
}

/// The names of the settings by which Herdr marks the processes inside its panes.
pub fn inherited_herdr_env() -> (r: Vec<&'static str>)
    ensures
        words(r@) == inherited_names(),
{
    let mut names: Vec<&'static str> = Vec::new();
    names.push("HERDR_ENV");
    names.push("HERDR_SOCKET_PATH");
    names.push("HERDR_WORKSPACE_ID");
    names.push("HERDR_TAB_ID");
    names.push("HERDR_PANE_ID");
    assert(words(names@) =~= inherited_names());
    names
}

/// Whatever the contract sets was scrubbed before, except the home, which says nothing of Herdr: no
/// earlier contract survives in part.
pub proof fn contract_settings_are_scrubbed(
    parent: ParentModel,
    home: Seq<u8>,
    binary: Seq<u8>,
    i: int,
)
    requires
        0 <= i < contract_settings(parent, home, binary).len(),
    ensures
        ({
            let name = contract_settings(parent, home, binary)[i].0;
            name == "BUZZ_FIRSTMATE_HOME"@ || contract_names().contains(name)
        }),
{
    let name = contract_settings(parent, home, binary)[i].0;
    if i == 0 {
        assert(name == contract_names()[0]);
    } else if i > 1 {
        assert(name == contract_names()[i - 1]);
    }
}

/// Every setting of the contract is named `BUZZ_FIRSTMATE_` and more, so none of them is one that
/// Herdr itself sets.
pub proof fn contract_settings_are_explicit(
    parent: ParentModel,
    home: Seq<u8>,
    binary: Seq<u8>,
    i: int,
)
    requires
        0 <= i < contract_settings(parent, home, binary).len(),
    ensures
        "BUZZ_FIRSTMATE_"@.is_prefix_of(contract_settings(parent, home, binary)[i].0),
        !inherited_names().contains(contract_settings(parent, home, binary)[i].0),
{
    reveal_strlit("BUZZ_FIRSTMATE_");
    reveal_strlit("BUZZ_FIRSTMATE_HERDR_CONTRACT_VERSION");
    reveal_strlit("BUZZ_FIRSTMATE_HOME");
    reveal_strlit("BUZZ_FIRSTMATE_HERDR_BINARY");
    reveal_strlit("BUZZ_FIRSTMATE_HERDR_SESSION");
    reveal_strlit("BUZZ_FIRSTMATE_HERDR_SOCKET_PATH");
    reveal_strlit("BUZZ_FIRSTMATE_HERDR_WORKSPACE_ID");
    reveal_strlit("BUZZ_FIRSTMATE_HERDR_ROOT_TAB_ID");
    reveal_strlit("BUZZ_FIRSTMATE_HERDR_ROOT_PANE_ID");
    reveal_strlit("HERDR_ENV");
    reveal_strlit("HERDR_SOCKET_PATH");
    reveal_strlit("HERDR_WORKSPACE_ID");
    reveal_strlit("HERDR_TAB_ID");
    reveal_strlit("HERDR_PANE_ID");
    let name = contract_settings(parent, home, binary)[i].0;
    let prefix = "BUZZ_FIRSTMATE_"@;
    assert(name.len() > prefix.len());
    assert(prefix =~= name.subrange(0, prefix.len() as int));
    assert(name[0] == 'B');
    assert forall|k: int| 0 <= k < 5 implies (#[trigger] inherited_names()[k])[0] == 'H' by {}
}

/// What is scrubbed as a contract is only what a contract sets: for each name, some endpoint's
/// settings hold it.
pub proof fn scrubbed_names_are_contract_settings(
    parent: ParentModel,
    home: Seq<u8>,
    binary: Seq<u8>,
    i: int,
)
    requires
        0 <= i < contract_names().len(),
    ensures
        exists|k: int|
            0 <= k < contract_settings(parent, home, binary).len() && (#[trigger] contract_settings(
                parent,
                home,
                binary,
            )[k]).0 == contract_names()[i],
{
    let list = contract_settings(parent, home, binary);
    let k = if i == 0 {
        0
    } else {
        i + 1
    };
    assert(list[k].0 == contract_names()[i]);
}

} // verus!
