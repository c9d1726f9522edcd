//! The world container: every collection of the simulation and the score.
use vstd::prelude::*;

use crate::dice::draw_below;
use crate::enemy::{Enemy, EnemyType};
use crate::formation::{offsets, Formation, FormationType};
use crate::grid::{clamp_coord, shift_coord};
use crate::particle::Particle;
use crate::pickup::Pickup;
use crate::player::{Player, WeaponType, PLAYER_MAX_HEALTH};
use crate::projectile::Projectile;

verus! {

#[derive(Debug, Clone, Copy, PartialEq, Eq, Structural)]
pub enum GameState {
    Playing,
    Paused,
    GameOver,
}

/// Ticks between the last enemy leaving and the next wave.
pub const SPAWN_DELAY_TICKS: u64 = 90;

/// A pickup may appear on ticks whose number is a multiple of this.
pub const PICKUP_PERIOD: u64 = 180;

/// Row a new formation's center starts on.
pub const FORMATION_START_Y: u16 = 5;

/// Columns kept clear on each side when placing a new formation's center.
pub const FORMATION_SIDE_PAD: u16 = 30;

/// Row a new pickup starts on.
pub const PICKUP_START_Y: u16 = 3;

/// Columns kept clear on each side when placing a new pickup.
pub const PICKUP_SIDE_PAD: u16 = 3;

/// Screen size a new world assumes until the host reports the real one.
pub const DEFAULT_SCREEN_WIDTH: u16 = 60;

pub const DEFAULT_SCREEN_HEIGHT: u16 = 70;

pub const DEFAULT_EDGE_WIDTH: u16 = 50;

/// Shape of a new formation for a roll in `0..4`.
pub open spec fn formation_of_roll(roll: u32) -> FormationType {
    if roll == 0 {
        FormationType::VShape
    } else if roll == 1 {
        FormationType::Diamond
    } else if roll == 2 {
        FormationType::Wall
    } else {
        FormationType::Block
    }
}

/// Enemy kind of a new formation for a roll in `0..10`: seven in ten Basic, two
/// in ten Fast, one in ten Tank.
pub open spec fn enemy_of_roll(roll: u32) -> EnemyType {
    if roll <= 6 {
        EnemyType::Basic
    } else if roll <= 8 {
        EnemyType::Fast
    } else {
        EnemyType::Tank
    }
}

/// Payload of a new pickup for a roll in `0..4`.
pub open spec fn weapon_of_roll(roll: u32) -> WeaponType {
    if roll == 0 {
        WeaponType::BasicGun
    } else if roll == 1 {
        WeaponType::Sword
    } else if roll == 2 {
        WeaponType::Bug
    } else {
        WeaponType::Bomber
    }
}

pub fn formation_type_from_roll(roll: u32) -> (r: FormationType)
    ensures
        r == formation_of_roll(roll),
{
    match roll {
        0 => FormationType::VShape,
        1 => FormationType::Diamond,
        2 => FormationType::Wall,
        _ => FormationType::Block,
    }
}

pub fn enemy_type_from_roll(roll: u32) -> (r: EnemyType)
    ensures
        r == enemy_of_roll(roll),
{
    if roll <= 6 {
        EnemyType::Basic
    } else if roll <= 8 {
        EnemyType::Fast
    } else {
        EnemyType::Tank
    }
}

pub fn weapon_type_from_roll(roll: u32) -> (r: WeaponType)
    ensures
        r == weapon_of_roll(roll),
{
    match roll {
        0 => WeaponType::BasicGun,
        1 => WeaponType::Sword,
        2 => WeaponType::Bug,
        _ => WeaponType::Bomber,
    }
}

/// The enemy a formation of index `id` centered at `(cx, cy)` places at `offset`.
pub open spec fn recruit(cx: u16, cy: u16, kind: EnemyType, id: usize, offset: (i16, i16)) -> Enemy {
    Enemy {
        x: clamp_coord(cx + offset.0),
        y: clamp_coord(cy + offset.1),
        health: kind.max_health(),
        enemy_type: kind,
        fire_cooldown: 0,
        formation_id: Some(id),
        formation_offset: offset,
        damage_flash_frames: 0,
    }
}

/// The enemies of a new wave of shape `t` and kind `kind`, centered at
/// `(cx, 5)`, bound to formation `id`: one for each offset of the shape.
pub open spec fn wave(cx: u16, kind: EnemyType, id: usize, t: FormationType) -> Seq<Enemy> {
    Seq::new(
        offsets(t).len(),
        |k: int| recruit(cx, FORMATION_START_Y, kind, id, offsets(t)[k]),
    )
}

/// Everything the simulation advances each tick.
#[derive(Debug)]
pub struct World {
    pub running: bool,
    pub game_state: GameState,
    pub player: Player,
    pub enemies: Vec<Enemy>,
    pub formations: Vec<Formation>,
    pub projectiles: Vec<Projectile>,
    pub particles: Vec<Particle>,
    pub pickups: Vec<Pickup>,
    pub score: u32,
    pub screen_width: u16,
    pub screen_height: u16,
    /// Columns on each side of the screen outside the lane.
    pub edge_width: u16,
    pub frame_count: u64,
    /// Ticks left before the next wave once the field is clear.
    pub spawn_delay_frames: u64,
}

impl World {
    /// Width of the lane: the screen less both edges and their borders.
    pub open spec fn lane(&self) -> u16 {
        let margin = 2 * self.edge_width + 2;
        if self.screen_width >= margin {
            (self.screen_width - margin) as u16
        } else {
            0u16
        }
    }

    /// Every formation heads left or right.
    pub open spec fn wf(&self) -> bool {
        forall|f: int| 0 <= f < self.formations@.len() ==> (#[trigger] self.formations@[f]).wf()
    }

    /// Every enemy that names a formation names one that exists, and stands at
    /// that formation's center plus its offset.
    pub open spec fn followers_placed(&self) -> bool {
        forall|i: int|
            0 <= i < self.enemies@.len() ==> match (#[trigger] self.enemies@[i]).formation_id {
                Some(f) => f < self.formations@.len() && self.enemies@[i].placed_at(
                    self.formations@[f as int].center_x,
                    self.formations@[f as int].center_y,
                ),
                None => true,
            }
    }

    /// Whether `cx` is a column a new wave may be centered on: from 30 up to,
    /// but not including, 30 before the lane's right edge, or 30 itself when
    /// the lane is narrower.
    pub open spec fn wave_column_ok(&self, cx: u16) -> bool {
        FORMATION_SIDE_PAD <= cx && (cx < FORMATION_SIDE_PAD + 1 || cx < self.lane()
            - FORMATION_SIDE_PAD)
    }

    /// Whether `x` is a column a new pickup may appear on: from 3 up to, but
    /// not including, 3 before the lane's right edge, or 3 itself when the lane
    /// is narrower.
    pub open spec fn pickup_column_ok(&self, x: u16) -> bool {
        PICKUP_SIDE_PAD <= x && (x < PICKUP_SIDE_PAD + 1 || x < self.lane() - PICKUP_SIDE_PAD)
    }

    /// Whether this world is `w` with one more formation of shape `t` centered at
    /// `(cx, 5)`, heading right, and its wave of `kind` enemies appended.
    pub open spec fn with_wave(&self, w: World, t: FormationType, kind: EnemyType, cx: u16) -> bool {
        let f = self.formations@.last();
        &&& self.formations@.len() == w.formations@.len() + 1
        &&& self.formations@.drop_last() == w.formations@
        &&& f.center_x == cx
        &&& f.center_y == FORMATION_START_Y
        &&& f.formation_type == t
        &&& f.direction_x == 1
        &&& f.frame_counter == 0
        &&& f.enemy_indices@ == Seq::new(
            offsets(t).len(),
            |k: int| (w.enemies@.len() + k) as usize,
        )
        &&& self.enemies@ == w.enemies@ + wave(cx, kind, w.formations@.len() as usize, t)
        &&& *self == (World { enemies: self.enemies, formations: self.formations, ..w })
    }

    /// Whether this world is `w` with a new pickup carrying `weapon` at column
    /// `x` of the pickup start row.
    pub open spec fn with_pickup(&self, w: World, weapon: WeaponType, x: u16) -> bool {
        &&& self.pickups@ == w.pickups@.push(
            Pickup { x, y: PICKUP_START_Y, weapon_type: weapon, frame_counter: 0 },
        )
        &&& *self == (World { pickups: self.pickups, ..w })
    }

    /// Whether this is a fresh game: running and playing on the default screen,
    /// a new player at (80, 56), nothing in flight, no score, the counters at
    /// zero, and one formation centered at (30, 5) heading right with its wave in
    /// place.
    pub open spec fn is_fresh_game(&self) -> bool {
        let f = self.formations@[0];
        &&& self.running
        &&& self.game_state == GameState::Playing
        &&& self.player == Player::new_spec(80, 56)
        &&& self.projectiles@.len() == 0
        &&& self.particles@.len() == 0
        &&& self.pickups@.len() == 0
        &&& self.score == 0
        &&& self.frame_count == 0
        &&& self.spawn_delay_frames == 0
        &&& self.screen_width == DEFAULT_SCREEN_WIDTH
        &&& self.screen_height == DEFAULT_SCREEN_HEIGHT
        &&& self.edge_width == DEFAULT_EDGE_WIDTH
        &&& self.formations@.len() == 1
        &&& f.center_x == FORMATION_SIDE_PAD
        &&& f.center_y == FORMATION_START_Y
        &&& f.direction_x == 1
        &&& f.frame_counter == 0
        &&& f.enemy_indices@ == Seq::new(offsets(f.formation_type).len(), |k: int| k as usize)
        &&& exists|kind: EnemyType| self.enemies@ == #[trigger] wave(
            FORMATION_SIDE_PAD,
            kind,
            0,
            f.formation_type,
        )
        &&& self.wf()
        &&& self.followers_placed()
    }

    /// Whether every formation heads left or right; the tick and the actions
    /// need this.
    pub fn headings_valid(&self) -> (r: bool)
        ensures
            r == self.wf(),
    {
        let mut i: usize = 0;
        while i < self.formations.len()
            invariant
                0 <= i <= self.formations@.len(),
                forall|f: int| 0 <= f < i ==> (#[trigger] self.formations@[f]).wf(),
            decreases self.formations@.len() - i,
        {
            let d = self.formations[i].direction_x;
            if d != 1 && d != -1 {
                return false;
            }
            i = i + 1;
        }
        true
    }

    pub fn lane_width(&self) -> (r: u16)
        ensures
            r == self.lane(),
    {
        let margin: u32 = 2 * self.edge_width as u32 + 2;
        if self.screen_width as u32 >= margin {
            (self.screen_width as u32 - margin) as u16
        } else {
            0
        }
    }

    /// An empty, running world on a screen of the given size, with the player
    /// centered on the screen and a fifth of the height above the bottom.
    pub fn with_screen(screen_width: u16, screen_height: u16, edge_width: u16) -> (r: World)
        ensures
            r.running,
            r.game_state == GameState::Playing,
            r.player == Player::new_spec(
                clamp_coord(edge_width + screen_width / 2),
                (screen_height - screen_height / 5) as u16,
            ),
            r.enemies@.len() == 0,
            r.formations@.len() == 0,
            r.projectiles@.len() == 0,
            r.particles@.len() == 0,
            r.pickups@.len() == 0,
            r.score == 0,
            r.screen_width == screen_width,
            r.screen_height == screen_height,
            r.edge_width == edge_width,
            r.frame_count == 0,
            r.spawn_delay_frames == 0,
            r.wf(),
            r.followers_placed(),
    {
        let player_x = edge_width.saturating_add(screen_width / 2);
        let player_y = screen_height - screen_height / 5;
        World {
            running: true,
            game_state: GameState::Playing,
            player: Player::new(player_x, player_y),
            enemies: Vec::new(),
            formations: Vec::new(),
            projectiles: Vec::new(),
            particles: Vec::new(),
            pickups: Vec::new(),
            score: 0,
            screen_width,
            screen_height,
            edge_width,
            frame_count: 0,
            spawn_delay_frames: 0,
        }
    }

    /// A fresh game on the default screen, with its first wave already in place.
    pub fn new() -> (r: World)
        ensures
            r.is_fresh_game(),
    {
        let mut w = World::with_screen(DEFAULT_SCREEN_WIDTH, DEFAULT_SCREEN_HEIGHT, DEFAULT_EDGE_WIDTH);
        let ghost w0 = w;
        w.spawn_formation();
        proof {
            let (t, kind, cx) = choose|t: FormationType, kind: EnemyType, cx: u16|
                w0.wave_column_ok(cx) && #[trigger] w.with_wave(w0, t, kind, cx);
            assert(w0.lane() == 0);
            assert(cx == FORMATION_SIDE_PAD);
            assert(w.enemies@ =~= wave(FORMATION_SIDE_PAD, kind, 0, t));
            assert(w.formations@[0] == w.formations@.last());
            assert(clamp_coord(DEFAULT_EDGE_WIDTH + DEFAULT_SCREEN_WIDTH / 2) == 80);
            assert(w.player == Player::new_spec(80, 56));
            assert(w.formations@[0].enemy_indices@ =~= Seq::new(offsets(t).len(), |k: int| k as usize));
        }
        w
    }

    /// Adds a formation of shape `formation_type` centered at `(center_x, 5)` and
    /// one enemy of kind `enemy_type` for each of its offsets, bound to it.
    pub fn spawn_formation_with(
        &mut self,
        formation_type: FormationType,
        enemy_type: EnemyType,
        center_x: u16,
    )
        ensures
            final(self).with_wave(*old(self), formation_type, enemy_type, center_x),
            old(self).wf() ==> final(self).wf(),
            old(self).followers_placed() ==> final(self).followers_placed(),
    {
        let id = self.formations.len();
        let mut formation = Formation::new(center_x, FORMATION_START_Y, formation_type);
        let positions = formation.get_positions();
        let ghost e0 = self.enemies@;
        let ghost want = Seq::new(
            offsets(formation_type).len(),
            |k: int| recruit(center_x, FORMATION_START_Y, enemy_type, id, offsets(formation_type)[k]),
        );
        let mut k: usize = 0;
        while k < positions.len()
            invariant
                0 <= k <= positions@.len(),
                positions@ == offsets(formation_type),
                id == old(self).formations@.len(),
                e0 == old(self).enemies@,
                want == Seq::new(
                    offsets(formation_type).len(),
                    |j: int| recruit(center_x, FORMATION_START_Y, enemy_type, id, offsets(formation_type)[j]),
                ),
                self.formations == old(self).formations,
                self.enemies@ == e0 + want.take(k as int),
                formation.center_x == center_x,
                formation.center_y == FORMATION_START_Y,
                formation.formation_type == formation_type,
                formation.direction_x == 1,
                formation.frame_counter == 0,
                formation.enemy_indices@ == Seq::new(k as nat, |j: int| (e0.len() + j) as usize),
                self.player == old(self).player,
                self.projectiles == old(self).projectiles,
                self.particles == old(self).particles,
                self.pickups == old(self).pickups,
                self.score == old(self).score,
                self.game_state == old(self).game_state,
                self.running == old(self).running,
                self.screen_width == old(self).screen_width,
                self.screen_height == old(self).screen_height,
                self.edge_width == old(self).edge_width,
                self.frame_count == old(self).frame_count,
                self.spawn_delay_frames == old(self).spawn_delay_frames,
            decreases positions@.len() - k,
        {
            let offset = positions[k];
            let x = shift_coord(center_x, offset.0);
            let y = shift_coord(FORMATION_START_Y, offset.1);
            formation.enemy_indices.push(self.enemies.len());
            self.enemies.push(Enemy::new_in_formation(x, y, enemy_type, id, offset));
            proof {
                assert(want.take(k + 1) =~= want.take(k as int).push(want[k as int]));
                assert(formation.enemy_indices@ =~= Seq::new(
                    (k + 1) as nat,
                    |j: int| (e0.len() + j) as usize,
                ));
            }
            k = k + 1;
        }
        self.formations.push(formation);
        proof {
            assert(want.take(k as int) =~= want);
            assert(self.formations@.drop_last() =~= old(self).formations@);
            if old(self).wf() {
                assert forall|f: int| 0 <= f < self.formations@.len() implies (
                #[trigger] self.formations@[f]).wf() by {
                    if f < id {
                        assert(self.formations@[f] == old(self).formations@[f]);
                    }
                }
            }
            if old(self).followers_placed() {
                assert forall|i: int| 0 <= i < self.enemies@.len() implies match (
                #[trigger] self.enemies@[i]).formation_id {
                    Some(f) => f < self.formations@.len() && self.enemies@[i].placed_at(
                        self.formations@[f as int].center_x,
                        self.formations@[f as int].center_y,
                    ),
                    None => true,
                } by {
                    if i < e0.len() {
                        assert(self.enemies@[i] == old(self).enemies@[i]);
                        if let Some(f) = self.enemies@[i].formation_id {
                            assert(self.formations@[f as int] == old(self).formations@[f as int]);
                        }
                    } else {
                        assert(self.enemies@[i] == want[i - e0.len()]);
                    }
                }
            }
        }
    }

    /// Adds a wave: its shape, enemy kind and center column are drawn at random,
    /// the center from `30..max(lane - 30, 31)`.
    pub fn spawn_formation(&mut self)
        ensures
            exists|t: FormationType, kind: EnemyType, cx: u16|
                old(self).wave_column_ok(cx) && #[trigger] final(self).with_wave(
                    *old(self),
                    t,
                    kind,
                    cx,
                ),
            old(self).wf() ==> final(self).wf(),
            old(self).followers_placed() ==> final(self).followers_placed(),
    {
        let formation_type = formation_type_from_roll(draw_below(4));
        let center_x = self.draw_wave_column();
        let enemy_type = enemy_type_from_roll(draw_below(10));
        self.spawn_formation_with(formation_type, enemy_type, center_x);
    }

    /// A random column for a new wave's center, from `30..max(lane - 30, 31)`.
    pub fn draw_wave_column(&self) -> (cx: u16)
        ensures
            self.wave_column_ok(cx),
    {
        let lane = self.lane_width();
        let high = if lane >= 2 * FORMATION_SIDE_PAD + 1 {
            lane - FORMATION_SIDE_PAD
        } else {
            FORMATION_SIDE_PAD + 1
        };
        FORMATION_SIDE_PAD + draw_below((high - FORMATION_SIDE_PAD) as u32) as u16
    }

    /// A random column for a new pickup, from `3..max(lane - 3, 4)`.
    pub fn draw_pickup_column(&self) -> (x: u16)
        ensures
            self.pickup_column_ok(x),
    {
        let lane = self.lane_width();
        let high = if lane >= 2 * PICKUP_SIDE_PAD + 1 {
            lane - PICKUP_SIDE_PAD
        } else {
            PICKUP_SIDE_PAD + 1
        };
        PICKUP_SIDE_PAD + draw_below((high - PICKUP_SIDE_PAD) as u32) as u16
    }

    /// Adds a pickup carrying `weapon_type` at column `x` on the pickup start row.
    pub fn spawn_pickup_with(&mut self, weapon_type: WeaponType, x: u16)
        ensures
            final(self).with_pickup(*old(self), weapon_type, x),
    {
        self.pickups.push(Pickup::new(x, PICKUP_START_Y, weapon_type));
    }

    /// Adds a pickup with a random payload at a random column of
    /// `3..max(lane - 3, 4)`.
    pub fn spawn_pickup(&mut self)
        ensures
            exists|weapon: WeaponType, x: u16|
                old(self).pickup_column_ok(x) && #[trigger] final(self).with_pickup(
                    *old(self),
                    weapon,
                    x,
                ),
    {
        let weapon_type = weapon_type_from_roll(draw_below(4));
        let x = self.draw_pickup_column();
        self.spawn_pickup_with(weapon_type, x);
    }
}

} // verus!
