use simple::{GameState, InputAction, InputManager, Key, KeyKind};

#[test]
fn quit_keys_work_in_every_state() {
    for state in [GameState::Playing, GameState::Paused, GameState::GameOver] {
        let mut m = InputManager::new();
        m.handle_key_press(Key::Char('q'), false, state);
        m.handle_key_press(Key::Esc, false, state);
        m.handle_key_press(Key::Char('c'), true, state);
        assert_eq!(m.oneshot_actions, vec![InputAction::Quit; 3]);
    }
}

#[test]
fn p_pauses_and_resumes() {
    let mut m = InputManager::new();
    m.handle_key_press(Key::Char('p'), false, GameState::Playing);
    m.handle_key_press(Key::Char('P'), false, GameState::Paused);
    m.handle_key_press(Key::Char('r'), false, GameState::Playing);
    m.handle_key_press(Key::Char('r'), false, GameState::GameOver);
    assert_eq!(
        m.oneshot_actions,
        vec![InputAction::Pause, InputAction::Resume, InputAction::Restart]
    );
}

#[test]
fn held_keys_give_continuous_actions() {
    let mut m = InputManager::new();
    m.handle_key_event(KeyKind::Press, Key::Char('a'), false, GameState::Playing);
    m.handle_key_event(KeyKind::Press, Key::Right, false, GameState::Playing);
    m.handle_key_event(KeyKind::Press, Key::Up, false, GameState::Playing);
    m.handle_key_event(KeyKind::Press, Key::Char(' '), false, GameState::Playing);
    assert_eq!(
        m.get_actions(&GameState::Playing),
        vec![InputAction::MoveRight, InputAction::MoveUp, InputAction::Fire]
    );
    m.handle_key_event(KeyKind::Release, Key::Char(' '), false, GameState::Playing);
    m.handle_key_event(KeyKind::Repeat, Key::Char('s'), false, GameState::Playing);
    assert_eq!(
        m.get_actions(&GameState::Playing),
        vec![InputAction::MoveRight, InputAction::MoveUp]
    );
    assert!(m.get_actions(&GameState::Paused).is_empty());
}

#[test]
fn oneshot_actions_come_first_and_clear() {
    let mut m = InputManager::new();
    m.handle_key_press(Key::Down, false, GameState::Playing);
    m.handle_key_press(Key::Char('p'), false, GameState::Playing);
    assert_eq!(
        m.get_actions(&GameState::Playing),
        vec![InputAction::Pause, InputAction::MoveDown]
    );
    m.clear_oneshot();
    assert_eq!(m.get_actions(&GameState::Playing), vec![InputAction::MoveDown]);
}

#[test]
fn keys_other_than_actions_do_nothing_while_paused() {
    let mut m = InputManager::new();
    m.handle_key_press(Key::Char('w'), false, GameState::Paused);
    assert!(!m.key_state.up);
    assert!(m.oneshot_actions.is_empty());
}
