//! Which terminal multiplexer a managed FirstMate runs in.

use std::collections::BTreeMap;
use vstd::prelude::*;

use crate::text::same_text;

verus! {

/// Multiplexer selection is per managed FirstMate. Tmux is the conservative default; no ambient
/// setting changes this choice.
#[derive(Debug, Clone, Copy, PartialEq, Eq, Structural)]
pub enum FirstMateMultiplexer {
    Tmux,
    Herdr,
}

impl Default for FirstMateMultiplexer {
    fn default() -> (r: Self)
        ensures
            r == FirstMateMultiplexer::Tmux,
    {
        FirstMateMultiplexer::Tmux
    }
}

/// What a map of settings holds under a name, if it holds anything.
pub open spec fn setting(env: Map<String, String>, name: Seq<char>) -> Option<Seq<char>> {
    if exists|key: String| #[trigger] env.contains_key(key) && key@ == name {
        Some(env[choose|key: String| #[trigger] env.contains_key(key) && key@ == name]@)
    } else {
        None
    }
}

/// Calls `BTreeMap::get`, which answers with the value under the key that reads `name`. A map holds
/// at most one key for one text, so every such key has that value. (What `vstd` states of `get` is
/// conditional on the order of the keys, which it does not give for text.)
#[verifier::external_body]
fn find_setting<'a>(env: &'a BTreeMap<String, String>, name: &str) -> (r: Option<&'a String>)
    ensures
        (match r {
            Some(value) => Some(value@),
            None => None,
        }) == setting(env@, name@),
{
    env.get(name)
}

/// The multiplexer that a setting selects, or why it selects none.
pub open spec fn selected_multiplexer(value: Option<Seq<char>>) -> Result<
    FirstMateMultiplexer,
    Seq<char>,
> {
    match value {
        None => Ok(FirstMateMultiplexer::Tmux),
        Some(name) => if name == "tmux"@ {
            Ok(FirstMateMultiplexer::Tmux)
        } else if name == "herdr"@ {
            Ok(FirstMateMultiplexer::Herdr)
        } else {
            Err("unsupported FirstMate multiplexer: "@ + name)
        },
    }
}

impl FirstMateMultiplexer {
    /// Whether the agent runs in Herdr.
    pub fn is_herdr(self) -> (r: bool)
        ensures
            r == (self is Herdr),
    {
        matches!(self, FirstMateMultiplexer::Herdr)
    }

    /// The multiplexer that the value of `BUZZ_FIRSTMATE_MULTIPLEXER` selects.
    pub fn from_setting(value: Option<&str>) -> (r: Result<Self, String>)
        ensures
            match selected_multiplexer(
                match value {
                    Some(name) => Some(name@),
                    None => None,
                },
            ) {
                Ok(choice) => r == Ok::<Self, String>(choice),
                Err(message) => r matches Err(error) && error@ == message,
            },
    {
        proof {
            reveal_strlit("tmux");
            reveal_strlit("herdr");
        }
        let name = match value {
            Some(name) => name,
            None => "tmux",
        };
        if same_text(name, "tmux") {
            Ok(FirstMateMultiplexer::Tmux)
        } else if same_text(name, "herdr") {
            Ok(FirstMateMultiplexer::Herdr)
        } else {
            Err("unsupported FirstMate multiplexer: ".to_owned().concat(name))
        }
    }

    /// The multiplexer that an agent's environment selects.
    pub fn from_agent_env(env: &BTreeMap<String, String>) -> (r: Result<Self, String>)
        ensures
            match selected_multiplexer(setting(env@, "BUZZ_FIRSTMATE_MULTIPLEXER"@)) {
                Ok(choice) => r == Ok::<Self, String>(choice),
                Err(message) => r matches Err(error) && error@ == message,
            },
    {
        match find_setting(env, "BUZZ_FIRSTMATE_MULTIPLEXER") {
            Some(value) => Self::from_setting(Some(value.as_str())),
            None => Self::from_setting(None),
        }
    }
}

/// Herdr is selected by its name and by nothing else; Tmux is selected by its name and where nothing
/// is set. Any other name is refused, and the refusal says it.
pub proof fn multiplexer_is_selected_by_its_name(value: Option<Seq<char>>)
    ensures
        selected_multiplexer(value) == Ok::<FirstMateMultiplexer, Seq<char>>(
            FirstMateMultiplexer::Herdr,
        ) <==> value == Some("herdr"@),
        selected_multiplexer(value) == Ok::<FirstMateMultiplexer, Seq<char>>(
            FirstMateMultiplexer::Tmux,
        ) <==> value is None || value == Some("tmux"@),
        value matches Some(name) ==> (name != "tmux"@ && name != "herdr"@ ==> selected_multiplexer(
            value,
        ) == Err::<FirstMateMultiplexer, Seq<char>>(
            "unsupported FirstMate multiplexer: "@ + name,
        )),
{
    reveal_strlit("tmux");
    reveal_strlit("herdr");
    assert("tmux"@.len() != "herdr"@.len());
}

/// A map of settings holds something under a name exactly when one of its keys reads so, and then it
/// is the value under such a key.
pub proof fn setting_stands_under_its_name(env: Map<String, String>, name: Seq<char>)
    ensures
        setting(env, name) is Some <==> exists|key: String| #[trigger]
            env.contains_key(key) && key@ == name,
        setting(env, name) matches Some(value) ==> exists|key: String| #[trigger]
            env.contains_key(key) && key@ == name && env[key]@ == value,
{
}

} // verus!
