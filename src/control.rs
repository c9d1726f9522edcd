//! Applying the player's actions to the world.
use vstd::prelude::*;

use crate::input::InputAction;
use crate::player::{volley, Player, PLAYER_HEIGHT, PLAYER_WIDTH};
use crate::projectile::Projectile;
use crate::world::{GameState, World};

verus! {

/// Topmost row the player can reach; the rows above hold the score line.
pub const PLAYER_MIN_Y: u16 = 2;

/// Rightmost column the player's ship can start at in a lane `lane` wide.
pub open spec fn player_max_x(lane: u16) -> u16 {
    if lane >= PLAYER_WIDTH + 1 {
        (lane - (PLAYER_WIDTH + 1)) as u16
    } else {
        0u16
    }
}

/// Lowest row the player's ship can start at on a screen `height` rows tall.
pub open spec fn player_max_y(height: u16) -> u16 {
    if height >= PLAYER_HEIGHT + 1 {
        (height - (PLAYER_HEIGHT + 1)) as u16
    } else {
        0u16
    }
}

/// What one action does to the player, the game state, the running flag, and
/// which shots it adds, in a lane `lane` wide on a screen `height` rows tall.
/// A restart is not covered: it replaces the whole world.
pub open spec fn after_action(
    pl: Player,
    state: GameState,
    running: bool,
    a: InputAction,
    lane: u16,
    height: u16,
) -> (Player, GameState, bool, Seq<Projectile>) {
    match a {
        InputAction::Quit => (pl, state, false, Seq::empty()),
        InputAction::Pause => (pl, GameState::Paused, running, Seq::empty()),
        InputAction::Resume => (pl, GameState::Playing, running, Seq::empty()),
        InputAction::MoveLeft => (
            Player { x: if pl.x > 0 { (pl.x - 1) as u16 } else { pl.x }, ..pl },
            state,
            running,
            Seq::empty(),
        ),
        InputAction::MoveRight => (
            Player { x: if pl.x < player_max_x(lane) { (pl.x + 1) as u16 } else { pl.x }, ..pl },
            state,
            running,
            Seq::empty(),
        ),
        InputAction::MoveUp => (
            Player { y: if pl.y > PLAYER_MIN_Y { (pl.y - 1) as u16 } else { pl.y }, ..pl },
            state,
            running,
            Seq::empty(),
        ),
        InputAction::MoveDown => (
            Player { y: if pl.y < player_max_y(height) { (pl.y + 1) as u16 } else { pl.y }, ..pl },
            state,
            running,
            Seq::empty(),
        ),
        InputAction::Fire => if pl.fire_cooldown == 0 {
            (
                Player { fire_cooldown: pl.current_weapon.reload_ticks(), ..pl },
                state,
                running,
                volley(pl.current_weapon, pl.muzzle_x(), pl.y),
            )
        } else {
            (pl, state, running, Seq::empty())
        },
        InputAction::Restart => (pl, state, running, Seq::empty()),
    }
}

/// The actions `acts` applied in order: the player, game state and running flag
/// at the end, the shots added, and how many fire actions produced shots.
pub open spec fn after_actions(
    pl: Player,
    state: GameState,
    running: bool,
    acts: Seq<InputAction>,
    lane: u16,
    height: u16,
) -> (Player, GameState, bool, Seq<Projectile>, nat)
    decreases acts.len(),
{
    if acts.len() == 0 {
        (pl, state, running, Seq::empty(), 0)
    } else {
        let r = after_actions(pl, state, running, acts.drop_last(), lane, height);
        let s = after_action(r.0, r.1, r.2, acts.last(), lane, height);
        (s.0, s.1, s.2, r.3 + s.3, r.4 + if s.3.len() > 0 {
            1nat
        } else {
            0nat
        })
    }
}

/// Index of the last restart in `acts`, or -1 if there is none.
pub open spec fn last_restart(acts: Seq<InputAction>) -> int
    decreases acts.len(),
{
    if acts.len() == 0 {
        -1
    } else if acts.last() == InputAction::Restart {
        acts.len() - 1
    } else {
        last_restart(acts.drop_last())
    }
}

impl World {
    /// Whether this world is `base` with the actions `acts`, none of them a
    /// restart, applied in order: the player, game state and running flag as
    /// `after_actions` gives them, the new shots appended, all else unchanged.
    pub open spec fn follows_actions(&self, base: World, acts: Seq<InputAction>) -> bool {
        let r = after_actions(
            base.player,
            base.game_state,
            base.running,
            acts,
            base.lane(),
            base.screen_height,
        );
        &&& self.player == r.0
        &&& self.game_state == r.1
        &&& self.running == r.2
        &&& self.projectiles@ == base.projectiles@ + r.3
        &&& *self == (World {
            player: self.player,
            game_state: self.game_state,
            running: self.running,
            projectiles: self.projectiles,
            ..base
        })
    }
}

impl World {
    /// Whether this world is `w` after the action `a`, not a restart.
    pub open spec fn acted_once(&self, w: World, a: InputAction) -> bool {
        let r = after_action(w.player, w.game_state, w.running, a, w.lane(), w.screen_height);
        &&& self.player == r.0
        &&& self.game_state == r.1
        &&& self.running == r.2
        &&& self.projectiles@ == w.projectiles@ + r.3
        &&& *self == (World {
            player: self.player,
            game_state: self.game_state,
            running: self.running,
            projectiles: self.projectiles,
            ..w
        })
    }
}

proof fn lemma_follows_step(base: World, before: World, after: World, acts: Seq<InputAction>, a: InputAction)
    requires
        before.follows_actions(base, acts),
        after.acted_once(before, a),
    ensures
        after.follows_actions(base, acts.push(a)),
        after_actions(
            base.player,
            base.game_state,
            base.running,
            acts.push(a),
            base.lane(),
            base.screen_height,
        ).4 == after_actions(
            base.player,
            base.game_state,
            base.running,
            acts,
            base.lane(),
            base.screen_height,
        ).4 + if after_action(
            before.player,
            before.game_state,
            before.running,
            a,
            before.lane(),
            before.screen_height,
        ).3.len() > 0 {
            1nat
        } else {
            0nat
        },
{
    assert(acts.push(a).drop_last() =~= acts);
    let r = after_actions(base.player, base.game_state, base.running, acts, base.lane(), base.screen_height);
    let q = after_action(r.0, r.1, r.2, a, base.lane(), base.screen_height);
    assert(after.projectiles@ =~= base.projectiles@ + (r.3 + q.3));
}

proof fn lemma_last_restart(acts: Seq<InputAction>)
    ensures
        -1 <= last_restart(acts) < acts.len(),
        last_restart(acts) >= 0 ==> acts[last_restart(acts)] == InputAction::Restart,
        forall|k: int| last_restart(acts) < k < acts.len() ==> acts[k] != InputAction::Restart,
        (last_restart(acts) == -1) == !acts.contains(InputAction::Restart),
    decreases acts.len(),
{
    if acts.len() > 0 {
        lemma_last_restart(acts.drop_last());
        assert forall|k: int| last_restart(acts) < k < acts.len() implies acts[k]
            != InputAction::Restart by {
            if k < acts.len() - 1 {
                assert(acts.drop_last()[k] == acts[k]);
            }
        }
        if acts.contains(InputAction::Restart) && last_restart(acts) == -1 {
            let k = choose|k: int| 0 <= k < acts.len() && acts[k] == InputAction::Restart;
            assert(acts.drop_last()[k] == InputAction::Restart);
        }
    }
}

impl World {
    /// Applies one action. Returns whether it fired at least one shot.
    pub fn apply_action(&mut self, action: InputAction) -> (fired: bool)
        requires
            old(self).wf(),
        ensures
            final(self).wf(),
            action == InputAction::Restart ==> final(self).is_fresh_game() && !fired,
            action != InputAction::Restart ==> {
                &&& final(self).acted_once(*old(self), action)
                &&& fired == (after_action(
                    old(self).player,
                    old(self).game_state,
                    old(self).running,
                    action,
                    old(self).lane(),
                    old(self).screen_height,
                ).3.len() > 0)
            },
    {
        match action {
            InputAction::Quit => {
                self.running = false;
            },
            InputAction::Pause => {
                self.game_state = GameState::Paused;
            },
            InputAction::Resume => {
                self.game_state = GameState::Playing;
            },
            InputAction::Restart => {
                *self = World::new();
            },
            InputAction::MoveLeft => {
                self.player.move_left(0);
            },
            InputAction::MoveRight => {
                let lane = self.lane_width();
                let max_x = lane.saturating_sub(self.player.get_width() + 1);
                self.player.move_right(max_x);
            },
            InputAction::MoveUp => {
                self.player.move_up(PLAYER_MIN_Y);
            },
            InputAction::MoveDown => {
                let max_y = self.screen_height.saturating_sub(self.player.get_height() + 1);
                self.player.move_down(max_y);
            },
            InputAction::Fire => {
                let mut shots = self.player.try_fire();
                let fired = shots.len() > 0;
                self.projectiles.append(&mut shots);
                return fired;
            },
        }
        proof {
            if action != InputAction::Restart {
                assert(self.projectiles@ =~= old(self).projectiles@ + Seq::<Projectile>::empty());
            }
        }
        false
    }

    /// Applies the actions in order. Returns how many fire actions produced
    /// shots. Without a restart among them, the outcome is exactly the actions
    /// folded over the player, the game state and the running flag. With one,
    /// the outcome is the actions after the last restart folded over a fresh
    /// game.
    pub fn process_actions(&mut self, actions: &Vec<InputAction>) -> (fired: usize)
        requires
            old(self).wf(),
        ensures
            final(self).wf(),
            old(self).followers_placed() ==> final(self).followers_placed(),
            !actions@.contains(InputAction::Restart) ==> {
                &&& final(self).follows_actions(*old(self), actions@)
                &&& fired == after_actions(
                    old(self).player,
                    old(self).game_state,
                    old(self).running,
                    actions@,
                    old(self).lane(),
                    old(self).screen_height,
                ).4
            },
            actions@.contains(InputAction::Restart) ==> exists|base: World|
                base.is_fresh_game() && #[trigger] final(self).follows_actions(
                    base,
                    actions@.skip(last_restart(actions@) + 1),
                ),
    {
        let ghost mut base: World = *self;
        let mut fired: usize = 0;
        let mut i: usize = 0;
        proof {
            assert(actions@.take(0).skip(0) =~= Seq::<InputAction>::empty());
            assert(self.projectiles@ =~= self.projectiles@ + Seq::<Projectile>::empty());
        }
        while i < actions.len()
            invariant
                0 <= i <= actions@.len(),
                self.wf(),
                fired <= i,
                old(self).followers_placed() ==> self.followers_placed(),
                last_restart(actions@.take(i as int)) == -1 ==> {
                    &&& base == *old(self)
                    &&& fired == after_actions(
                        old(self).player,
                        old(self).game_state,
                        old(self).running,
                        actions@.take(i as int),
                        old(self).lane(),
                        old(self).screen_height,
                    ).4
                },
                last_restart(actions@.take(i as int)) >= 0 ==> base.is_fresh_game(),
                self.follows_actions(
                    base,
                    actions@.take(i as int).skip(last_restart(actions@.take(i as int)) + 1),
                ),
            decreases actions@.len() - i,
        {
            let ghost prev = actions@.take(i as int);
            let ghost next = actions@.take(i + 1);
            let ghost k = last_restart(prev);
            proof {
                assert(next.drop_last() =~= prev);
                lemma_last_restart(prev);
            }
            let action = actions[i];
            let ghost before = *self;
            let shot = self.apply_action(action);
            if shot {
                fired = fired + 1;
            }
            proof {
                if action == InputAction::Restart {
                    base = *self;
                    assert(next.skip(i + 1) =~= Seq::<InputAction>::empty());
                    assert(self.projectiles@ =~= self.projectiles@ + Seq::<Projectile>::empty());
                } else {
                    assert(next.skip(k + 1) =~= prev.skip(k + 1).push(action));
                    lemma_follows_step(base, before, *self, prev.skip(k + 1), action);
                    if k == -1 {
                        assert(prev.skip(0) =~= prev);
                        assert(next.skip(0) =~= next);
                    }
                }
            }
            i = i + 1;
        }
        proof {
            assert(actions@.take(actions@.len() as int) =~= actions@);
            lemma_last_restart(actions@);
            if last_restart(actions@) == -1 {
                assert(actions@.skip(0) =~= actions@);
            }
        }
        fired
    }
}

} // verus!
