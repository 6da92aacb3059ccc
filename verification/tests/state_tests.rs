use file_manager::state::{AppState, StateContext, StateEvent, StateMachine, StateManager};

#[test]
fn test_state_machine_initialization() {
    let state_machine = StateMachine::new();
    assert_eq!(*state_machine.current_state(), AppState::Initializing);
}

#[test]
fn test_valid_state_transition() {
    let mut state_machine = StateMachine::new();
    let result = state_machine.handle_event(StateEvent::InitializationComplete);
    assert!(result.is_ok());
    assert_eq!(*state_machine.current_state(), AppState::Running);
}

#[test]
fn test_invalid_state_transition() {
    let mut state_machine = StateMachine::new();
    let result = state_machine.handle_event(StateEvent::EnterSettings);
    assert!(result.is_err());
}

#[test]
fn test_error_state_transition() {
    let mut state_machine = StateMachine::new();
    state_machine
        .handle_event(StateEvent::InitializationComplete)
        .unwrap();
    let error_msg = "测试错误".to_string();
    let result = state_machine.handle_event(StateEvent::Error(error_msg.clone()));
    assert!(result.is_ok());
    assert!(state_machine.is_in_error_state());
    assert_eq!(state_machine.get_error_message(), Some(error_msg.as_str()));
}

#[test]
fn test_state_history() {
    let mut state_machine = StateMachine::new();
    state_machine
        .handle_event(StateEvent::InitializationComplete)
        .unwrap();
    state_machine.handle_event(StateEvent::EnterSettings).unwrap();
    state_machine.handle_event(StateEvent::ExitSettings).unwrap();
    let history = state_machine.state_history();
    assert_eq!(history.len(), 3);
    assert_eq!(history[0], AppState::Initializing);
    assert_eq!(history[1], AppState::Running);
    assert_eq!(history[2], AppState::Settings);
}

#[test]
fn test_state_context() {
    let mut context = StateContext::new();
    context.set("key1", "value1");
    context.set("key2", "value2");
    assert_eq!(context.get("key1"), Some(&"value1".to_string()));
    assert_eq!(context.get("key2"), Some(&"value2".to_string()));
    assert_eq!(context.get("key3"), None);
    context.remove("key1");
    assert_eq!(context.get("key1"), None);
    context.clear();
    assert_eq!(context.get("key2"), None);
}

#[test]
fn state_manager_shared_between_clones() {
    let state_manager = StateManager::new();
    let manager_clone = state_manager.clone();
    let result = manager_clone.handle_event(StateEvent::InitializationComplete);
    assert!(result.is_ok());
    assert_eq!(state_manager.current_state(), AppState::Running);
    assert!(state_manager.is_in_state(&AppState::Running));
    assert_eq!(state_manager.get_state_history(), vec![AppState::Initializing]);
}

#[test]
fn invalid_transition_names_state_and_event() {
    let mut m = StateMachine::new();
    let err = m.handle_event(StateEvent::EnterSettings).unwrap_err();
    assert_eq!(err, "无效的状态转换: Initializing -> EnterSettings");
    assert_eq!(*m.current_state(), AppState::Initializing);
    assert!(m.state_history().is_empty());
}

#[test]
fn go_back_undoes_a_transition() {
    let mut m = StateMachine::new();
    m.handle_event(StateEvent::InitializationComplete).unwrap();
    m.handle_event(StateEvent::EnterSettings).unwrap();
    assert_eq!(*m.current_state(), AppState::Settings);
    assert!(m.go_back().is_ok());
    assert_eq!(*m.current_state(), AppState::Running);
}

#[test]
fn go_back_without_previous_state_fails() {
    let mut m = StateMachine::new();
    assert_eq!(m.go_back(), Err("没有可以返回的状态".to_string()));
    let manager = StateManager::new();
    assert_eq!(manager.go_back(), Err("没有可以返回的状态".to_string()));
}

#[test]
fn error_event_is_accepted_in_every_state() {
    let mut m = StateMachine::new();
    assert!(m.can_handle_event(&StateEvent::Error("x".to_string())));
    assert!(m.handle_event(StateEvent::Error("boom".to_string())).is_ok());
    assert!(m.is_in_error_state());
    assert_eq!(m.get_error_message(), Some("boom"));
}

#[test]
fn can_handle_predicts_handle() {
    let mut m = StateMachine::new();
    assert!(!m.can_handle_event(&StateEvent::EnterSettings));
    assert!(m.can_handle_event(&StateEvent::InitializationComplete));
    assert!(m.handle_event(StateEvent::InitializationComplete).is_ok());
}

#[test]
fn exiting_is_final() {
    let mut m = StateMachine::new();
    m.handle_event(StateEvent::InitializationComplete).unwrap();
    m.handle_event(StateEvent::Exit).unwrap();
    assert_eq!(*m.current_state(), AppState::Exiting);
    assert!(m.handle_event(StateEvent::InitializationComplete).is_err());
    assert!(m.handle_event(StateEvent::EnterSettings).is_err());
}

#[test]
fn history_is_bounded() {
    let mut m = StateMachine::new();
    m.handle_event(StateEvent::InitializationComplete).unwrap();
    for _ in 0..60 {
        m.handle_event(StateEvent::EnterSettings).unwrap();
        m.handle_event(StateEvent::ExitSettings).unwrap();
    }
    assert_eq!(m.state_history().len(), 50);
    assert_eq!(*m.state_history().last().unwrap(), AppState::Settings);
}

#[test]
fn force_state_records_previous() {
    let mut m = StateMachine::new();
    m.force_state(AppState::Settings);
    assert_eq!(*m.current_state(), AppState::Settings);
    assert_eq!(*m.previous_state(), Some(AppState::Initializing));
    assert!(m.is_in_state(&AppState::Settings));
}

use file_manager::state::{shortcut_handled, ShortcutKey};

#[test]
fn shortcuts_depend_on_the_state() {
    assert!(shortcut_handled(ShortcutKey::Refresh, &AppState::Running));
    assert!(shortcut_handled(ShortcutKey::Escape, &AppState::Settings));
    assert!(shortcut_handled(ShortcutKey::Escape, &AppState::AddingEntry));
    assert!(!shortcut_handled(ShortcutKey::Escape, &AppState::Running));
    assert!(!shortcut_handled(ShortcutKey::Other, &AppState::Settings));
}

#[test]
fn invalid_transition_shows_error_messages_in_debug_form() {
    let mut m = StateMachine::new();
    m.force_state(AppState::Error("坏了 \"x\"".to_string()));
    let err = m.handle_event(StateEvent::EnterSettings).unwrap_err();
    assert_eq!(err, "无效的状态转换: Error(\"坏了 \\\"x\\\"\") -> EnterSettings");
    let mut m2 = StateMachine::new();
    let err2 = m2.handle_event(StateEvent::ExitTagManager).unwrap_err();
    assert_eq!(err2, "无效的状态转换: Initializing -> ExitTagManager");
}

#[test]
fn context_counts_its_keys() {
    let mut context = StateContext::new();
    assert_eq!(context.len(), 0);
    context.set("a", "1");
    context.set("b", "2");
    assert_eq!(context.len(), 2);
    context.set("a", "3");
    assert_eq!(context.len(), 2);
    assert_eq!(context.get("a"), Some(&"3".to_string()));
    context.remove("a");
    assert_eq!(context.len(), 1);
}
