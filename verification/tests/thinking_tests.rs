use tui_blocks::thinking::{MessageId, ThinkingStates, ThinkingUiState};

fn id(s: &str) -> MessageId {
    MessageId(s.to_string())
}

#[test]
fn default_state_is_expanded() {
    let s = ThinkingUiState::default();
    assert!(!s.collapsed && !s.last_known_finished && !s.user_toggled);
    let states = ThinkingStates::new();
    assert!(!states.is_collapsed(&id("x")));
    assert_eq!(states.get(&id("x")), None);
}

#[test]
fn first_finish_collapses_once() {
    let mut s = ThinkingUiState::default();
    s.sync(false);
    assert!(!s.collapsed);
    s.sync(true);
    assert!(s.collapsed && s.last_known_finished);
    s.toggle();
    assert!(!s.collapsed);
    s.sync(true);
    assert!(!s.collapsed);
}

#[test]
fn toggle_before_finish_wins() {
    let mut s = ThinkingUiState::default();
    s.toggle();
    assert!(s.collapsed && s.user_toggled);
    s.sync(false);
    s.sync(true);
    assert!(s.collapsed);
    let mut t = ThinkingUiState::default();
    t.toggle();
    t.toggle();
    t.sync(true);
    assert!(!t.collapsed);
}

#[test]
fn states_are_kept_per_message() {
    let mut states = ThinkingStates::new();
    states.sync(&id("a"), true);
    states.sync(&id("b"), false);
    assert!(states.is_collapsed(&id("a")));
    assert!(!states.is_collapsed(&id("b")));
    states.toggle(&id("b"));
    assert!(states.is_collapsed(&id("b")));
    assert!(states.is_collapsed(&id("a")));
    states.toggle(&id("c"));
    assert_eq!(
        states.get(&id("c")),
        Some(ThinkingUiState { collapsed: true, last_known_finished: false, user_toggled: true })
    );
    assert_eq!(
        states.get(&id("a")),
        Some(ThinkingUiState { collapsed: true, last_known_finished: true, user_toggled: false })
    );
}

#[test]
fn message_id_helpers() {
    let a = MessageId::new("m".to_string());
    assert!(a.same_as(&a.duplicate()));
    assert!(!a.same_as(&id("n")));
}
