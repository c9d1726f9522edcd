//! Turning key events into game actions.
use vstd::prelude::*;

use crate::world::GameState;

verus! {

/// A discrete action the simulation consumes on a tick.
#[derive(Debug, Clone, Copy, PartialEq, Eq, Structural)]
pub enum InputAction {
    MoveLeft,
    MoveRight,
    MoveUp,
    MoveDown,
    Fire,
    Pause,
    Resume,
    Restart,
    Quit,
}

/// A key as the input layer reports it.
#[derive(Debug, Clone, Copy, PartialEq, Eq, Structural)]
pub enum Key {
    Char(char),
    Up,
    Down,
    Left,
    Right,
    Esc,
    Other,
}

/// What happened to a key.
#[derive(Debug, Clone, Copy, PartialEq, Eq, Structural)]
pub enum KeyKind {
    Press,
    Release,
    Repeat,
}

/// Which of the keys for continuous actions are held down.
#[derive(Debug, Clone, Copy, PartialEq, Eq, Structural)]
pub struct KeyState {
    pub up: bool,
    pub down: bool,
    pub left: bool,
    pub right: bool,
    pub fire: bool,
}

/// Holds the keys held down and the one-shot actions of the current tick.
pub struct InputManager {
    pub key_state: KeyState,
    pub oneshot_actions: Vec<InputAction>,
}

pub open spec fn is_up_key(k: Key) -> bool {
    k == Key::Char('w') || k == Key::Char('W') || k == Key::Up
}

pub open spec fn is_down_key(k: Key) -> bool {
    k == Key::Char('s') || k == Key::Char('S') || k == Key::Down
}

pub open spec fn is_left_key(k: Key) -> bool {
    k == Key::Char('a') || k == Key::Char('A') || k == Key::Left
}

pub open spec fn is_right_key(k: Key) -> bool {
    k == Key::Char('d') || k == Key::Char('D') || k == Key::Right
}

pub open spec fn is_fire_key(k: Key) -> bool {
    k == Key::Char(' ')
}

/// The one-shot action a key press gives in `state`, if any: quitting works in
/// every state, `p` pauses and resumes, `r` restarts after the game is over.
pub open spec fn oneshot_for(key: Key, ctrl: bool, state: GameState) -> Option<InputAction> {
    if key == Key::Char('q') || key == Key::Char('Q') || key == Key::Esc || (key == Key::Char('c')
        && ctrl) {
        Some(InputAction::Quit)
    } else if state == GameState::Playing && (key == Key::Char('p') || key == Key::Char('P')) {
        Some(InputAction::Pause)
    } else if state == GameState::Paused && (key == Key::Char('p') || key == Key::Char('P')) {
        Some(InputAction::Resume)
    } else if state == GameState::GameOver && (key == Key::Char('r') || key == Key::Char('R')) {
        Some(InputAction::Restart)
    } else {
        None
    }
}

/// The held keys after pressing `key` while playing: a direction replaces its
/// opposite.
pub open spec fn held_after_press(s: KeyState, key: Key) -> KeyState {
    if is_up_key(key) {
        KeyState { up: true, down: false, ..s }
    } else if is_down_key(key) {
        KeyState { down: true, up: false, ..s }
    } else if is_left_key(key) {
        KeyState { left: true, right: false, ..s }
    } else if is_right_key(key) {
        KeyState { right: true, left: false, ..s }
    } else if is_fire_key(key) {
        KeyState { fire: true, ..s }
    } else {
        s
    }
}

/// The held keys after releasing `key`.
pub open spec fn held_after_release(s: KeyState, key: Key) -> KeyState {
    if is_up_key(key) {
        KeyState { up: false, ..s }
    } else if is_down_key(key) {
        KeyState { down: false, ..s }
    } else if is_left_key(key) {
        KeyState { left: false, ..s }
    } else if is_right_key(key) {
        KeyState { right: false, ..s }
    } else if is_fire_key(key) {
        KeyState { fire: false, ..s }
    } else {
        s
    }
}

/// The continuous actions of the held keys, in a fixed order.
pub open spec fn held_actions(s: KeyState) -> Seq<InputAction> {
    let a = if s.left { seq![InputAction::MoveLeft] } else { Seq::empty() };
    let b = if s.right { seq![InputAction::MoveRight] } else { Seq::empty() };
    let c = if s.up { seq![InputAction::MoveUp] } else { Seq::empty() };
    let d = if s.down { seq![InputAction::MoveDown] } else { Seq::empty() };
    let e = if s.fire { seq![InputAction::Fire] } else { Seq::empty() };
    a + b + c + d + e
}

impl Default for InputManager {
    fn default() -> (r: InputManager)
        ensures
            r.key_state == (KeyState { up: false, down: false, left: false, right: false, fire: false }),
            r.oneshot_actions@ == Seq::<InputAction>::empty(),
    {
        InputManager::new()
    }
}

impl InputManager {
    /// No key held and no action pending.
    pub fn new() -> (r: InputManager)
        ensures
            r.key_state == (KeyState { up: false, down: false, left: false, right: false, fire: false }),
            r.oneshot_actions@ == Seq::<InputAction>::empty(),
    {
        InputManager {
            key_state: KeyState { up: false, down: false, left: false, right: false, fire: false },
            oneshot_actions: Vec::new(),
        }
    }

    /// Forgets the one-shot actions of the last tick.
    pub fn clear_oneshot(&mut self)
        ensures
            final(self).key_state == old(self).key_state,
            final(self).oneshot_actions@ == Seq::<InputAction>::empty(),
    {
        self.oneshot_actions.clear();
    }

    /// A key press: it gives a one-shot action if it has one in `state`;
    /// otherwise, while playing, it marks a continuous key as held.
    pub fn handle_key_press(&mut self, key: Key, ctrl: bool, state: GameState)
        ensures
            match oneshot_for(key, ctrl, state) {
                Some(a) => {
                    &&& final(self).oneshot_actions@ == old(self).oneshot_actions@.push(a)
                    &&& final(self).key_state == old(self).key_state
                },
                None => {
                    &&& final(self).oneshot_actions@ == old(self).oneshot_actions@
                    &&& final(self).key_state == if state == GameState::Playing {
                        held_after_press(old(self).key_state, key)
                    } else {
                        old(self).key_state
                    }
                },
            },
    {
        let quit = match key {
            Key::Char('q') | Key::Char('Q') | Key::Esc => true,
            Key::Char('c') => ctrl,
            _ => false,
        };
        if quit {
            self.oneshot_actions.push(InputAction::Quit);
            return;
        }
        let p_key = key == Key::Char('p') || key == Key::Char('P');
        match state {
            GameState::Playing => {
                if p_key {
                    self.oneshot_actions.push(InputAction::Pause);
                    return;
                }
            },
            GameState::Paused => {
                if p_key {
                    self.oneshot_actions.push(InputAction::Resume);
                    return;
                }
            },
            GameState::GameOver => {
                if key == Key::Char('r') || key == Key::Char('R') {
                    self.oneshot_actions.push(InputAction::Restart);
                    return;
                }
            },
        }
        if state == GameState::Playing {
            match key {
                Key::Char('w') | Key::Char('W') | Key::Up => {
                    self.key_state.up = true;
                    self.key_state.down = false;
                },
                Key::Char('s') | Key::Char('S') | Key::Down => {
                    self.key_state.down = true;
                    self.key_state.up = false;
                },
                Key::Char('a') | Key::Char('A') | Key::Left => {
                    self.key_state.left = true;
                    self.key_state.right = false;
                },
                Key::Char('d') | Key::Char('D') | Key::Right => {
                    self.key_state.right = true;
                    self.key_state.left = false;
                },
                Key::Char(' ') => {
                    self.key_state.fire = true;
                },
                _ => {},
            }
        }
    }

    /// A key release: the key is no longer held.
    pub fn handle_key_release(&mut self, key: Key)
        ensures
            final(self).key_state == held_after_release(old(self).key_state, key),
            final(self).oneshot_actions@ == old(self).oneshot_actions@,
    {
        match key {
            Key::Char('w') | Key::Char('W') | Key::Up => {
                self.key_state.up = false;
            },
            Key::Char('s') | Key::Char('S') | Key::Down => {
                self.key_state.down = false;
            },
            Key::Char('a') | Key::Char('A') | Key::Left => {
                self.key_state.left = false;
            },
            Key::Char('d') | Key::Char('D') | Key::Right => {
                self.key_state.right = false;
            },
            Key::Char(' ') => {
                self.key_state.fire = false;
            },
            _ => {},
        }
    }

    /// A key event: presses and releases are handled, repeats ignored.
    pub fn handle_key_event(&mut self, kind: KeyKind, key: Key, ctrl: bool, state: GameState)
        ensures
            kind == KeyKind::Repeat ==> final(self).key_state == old(self).key_state
                && final(self).oneshot_actions@ == old(self).oneshot_actions@,
            kind == KeyKind::Release ==> final(self).key_state == held_after_release(
                old(self).key_state,
                key,
            ) && final(self).oneshot_actions@ == old(self).oneshot_actions@,
            kind == KeyKind::Press ==> match oneshot_for(key, ctrl, state) {
                Some(a) => {
                    &&& final(self).oneshot_actions@ == old(self).oneshot_actions@.push(a)
                    &&& final(self).key_state == old(self).key_state
                },
                None => {
                    &&& final(self).oneshot_actions@ == old(self).oneshot_actions@
                    &&& final(self).key_state == if state == GameState::Playing {
                        held_after_press(old(self).key_state, key)
                    } else {
                        old(self).key_state
                    }
                },
            },
    {
        match kind {
            KeyKind::Press => self.handle_key_press(key, ctrl, state),
            KeyKind::Release => self.handle_key_release(key),
            KeyKind::Repeat => {},
        }
    }

    /// The actions of this tick: the one-shot actions first, then, while
    /// playing, one for each continuous key held.
    pub fn get_actions(&self, state: &GameState) -> (r: Vec<InputAction>)
        ensures
            r@ == self.oneshot_actions@ + if *state == GameState::Playing {
                held_actions(self.key_state)
            } else {
                Seq::empty()
            },
    {
        let mut actions: Vec<InputAction> = Vec::new();
        let mut i: usize = 0;
        while i < self.oneshot_actions.len()
            invariant
                0 <= i <= self.oneshot_actions@.len(),
                actions@ == self.oneshot_actions@.take(i as int),
            decreases self.oneshot_actions@.len() - i,
        {
            actions.push(self.oneshot_actions[i]);
            proof {
                assert(actions@ =~= self.oneshot_actions@.take(i + 1));
            }
            i = i + 1;
        }
        proof {
            assert(actions@ =~= self.oneshot_actions@);
        }
        if *state == GameState::Playing {
            let ghost base = actions@;
            let s = self.key_state;
            if s.left {
                actions.push(InputAction::MoveLeft);
            }
            if s.right {
                actions.push(InputAction::MoveRight);
            }
            if s.up {
                actions.push(InputAction::MoveUp);
            }
            if s.down {
                actions.push(InputAction::MoveDown);
            }
            if s.fire {
                actions.push(InputAction::Fire);
            }
            proof {
                assert(actions@ =~= base + held_actions(s));
            }
        } else {
            proof {
                assert(actions@ =~= self.oneshot_actions@ + Seq::<InputAction>::empty());
            }
        }
        actions
    }
}

} // verus!
