use buzz_firstmate::multiplexer::FirstMateMultiplexer;
use std::collections::BTreeMap;

#[test]
fn tmux_is_the_explicit_rollout_fallback() {
    assert_eq!(FirstMateMultiplexer::default(), FirstMateMultiplexer::Tmux);
    assert!(!FirstMateMultiplexer::Tmux.is_herdr());
    assert!(FirstMateMultiplexer::Herdr.is_herdr());
}

#[test]
fn effective_persona_env_can_select_herdr_for_a_keyed_instance() {
    let effective_env = BTreeMap::from([(
        "BUZZ_FIRSTMATE_MULTIPLEXER".to_string(),
        "herdr".to_string(),
    )]);
    assert_eq!(
        FirstMateMultiplexer::from_agent_env(&effective_env),
        Ok(FirstMateMultiplexer::Herdr)
    );
}

#[test]
fn without_a_setting_tmux_is_selected() {
    let mut env = BTreeMap::new();
    assert_eq!(
        FirstMateMultiplexer::from_agent_env(&env),
        Ok(FirstMateMultiplexer::Tmux)
    );
    env.insert("HERDR_ENV".to_string(), "1".to_string());
    assert_eq!(
        FirstMateMultiplexer::from_agent_env(&env),
        Ok(FirstMateMultiplexer::Tmux)
    );
    env.insert("BUZZ_FIRSTMATE_MULTIPLEXER".to_string(), "tmux".to_string());
    assert_eq!(
        FirstMateMultiplexer::from_agent_env(&env),
        Ok(FirstMateMultiplexer::Tmux)
    );
}

#[test]
fn an_unknown_multiplexer_is_named_in_the_error() {
    let env = BTreeMap::from([(
        "BUZZ_FIRSTMATE_MULTIPLEXER".to_string(),
        "screen".to_string(),
    )]);
    assert_eq!(
        FirstMateMultiplexer::from_agent_env(&env),
        Err("unsupported FirstMate multiplexer: screen".to_string())
    );
}
