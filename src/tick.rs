//! The frame update pass: one tick of the whole world.
use vstd::prelude::*;

use crate::collision::{
    damage_to, in_blast, lemma_detonation_reaches_radius, remove_enemies, struck, EXPLOSION_DAMAGE,
};
use crate::dice::{draw_below, draw_ratio};
use crate::enemy::{Enemy, EnemyType};
use crate::formation::{Formation, FormationType};
use crate::grid::clamp_coord;
use crate::particle::Particle;
use crate::player::{count_down, Player, WeaponType};
use crate::projectile::{Projectile, ProjectileOwner, ProjectileType};
use crate::prune::{
    from_survivor, kept, lemma_pruning_keeps_survivors, move_ref, moved_indices, moved_ref, prune,
    rank, ranks,
};
use crate::world::{
    enemy_type_from_roll, formation_type_from_roll, weapon_type_from_roll, GameState, World,
    PICKUP_PERIOD, SPAWN_DELAY_TICKS,
};

verus! {

/// Chance, as a ratio, that an enemy ready to fire does fire on a tick.
pub const ENEMY_FIRE_NUMERATOR: u32 = 3;

pub const ENEMY_FIRE_DENOMINATOR: u32 = 10;

/// Largest number of enemies in a wave: a Block formation has sixteen.
pub const MAX_WAVE_SIZE: usize = 16;

/// Chance, as a ratio, that a pickup appears on a pickup tick.
pub const PICKUP_NUMERATOR: u32 = 1;

pub const PICKUP_DENOMINATOR: u32 = 2;

/// Whether a shot stays in play after its move: it has not expired or left the
/// lane, or it is a bomb that has just run out and still has to explode.
pub open spec fn shot_stays(p: Projectile, lane: u16, height: u16) -> bool {
    !p.gone(0, lane, height) || p.detonates()
}

/// Whether a particle stays after its move.
pub open spec fn particle_stays(p: Particle, lane: u16, height: u16) -> bool {
    !(p.lifetime == 0 || p.outside(0, lane, height))
}

/// Enemy `e` placed at the center of the formation it names in `fs`, if that
/// formation exists.
pub open spec fn follow(e: Enemy, fs: Seq<Formation>) -> Enemy {
    match e.formation_id {
        Some(f) => if f < fs.len() {
            Enemy {
                x: clamp_coord(fs[f as int].center_x + e.formation_offset.0),
                y: clamp_coord(fs[f as int].center_y + e.formation_offset.1),
                ..e
            }
        } else {
            e
        },
        None => e,
    }
}

/// The shots the enemies `es` fire: each enemy ready to fire whose decision in
/// `fire` is set shoots from the middle of its bottom edge.
pub open spec fn enemy_shots(es: Seq<Enemy>, fire: Seq<bool>) -> Seq<Projectile>
    decreases es.len(),
{
    if es.len() == 0 {
        Seq::empty()
    } else {
        let front = enemy_shots(es.drop_last(), fire);
        let e = es.last();
        let i = es.len() - 1;
        if e.ready_to_fire() && i < fire.len() && fire[i] {
            front.push(
                Projectile {
                    x: clamp_coord(e.x + e.width() / 2),
                    y: clamp_coord(e.y + e.height()),
                    owner: ProjectileOwner::Enemy,
                    damage: crate::projectile::STANDARD_DAMAGE,
                    projectile_type: ProjectileType::Bullet,
                    velocity_x: 0,
                    lifetime: None,
                },
            )
        } else {
            front
        }
    }
}

impl World {
    /// Whether a new wave is due: the field is clear and the wave timer has run out.
    pub open spec fn wave_due(&self) -> bool {
        self.enemies@.len() == 0 && self.spawn_delay_frames == 0
    }

    /// Whether this world is `w` after the start of a tick: the tick counted, the
    /// player's timers run, and the wave timer run. While the field is clear the
    /// wave timer counts down, and restarts at 90 when it has run out; while
    /// enemies remain it stays at 90.
    pub open spec fn ticked(&self, w: World) -> bool {
        &&& self.frame_count == (w.frame_count + 1) % 0x1_0000_0000_0000_0000
        &&& self.player == (Player {
            fire_cooldown: count_down(w.player.fire_cooldown),
            damage_flash_frames: count_down(w.player.damage_flash_frames),
            ..w.player
        })
        &&& self.spawn_delay_frames == if w.enemies@.len() == 0 && w.spawn_delay_frames > 0 {
            (w.spawn_delay_frames - 1) as u64
        } else {
            SPAWN_DELAY_TICKS
        }
        &&& *self == (World {
            frame_count: self.frame_count,
            player: self.player,
            spawn_delay_frames: self.spawn_delay_frames,
            ..w
        })
    }

    /// Whether this world is `w` with everything moved one tick: shots (the
    /// spent dropped, a bomb that must still explode kept), particles (the dead
    /// and departed dropped), formations, then enemies, which take their place
    /// in their moved formation.
    pub open spec fn moved(&self, w: World) -> bool {
        &&& self.projectiles@ == kept(
            Seq::new(w.projectiles@.len(), |i: int| w.projectiles@[i].advanced()),
            Seq::new(
                w.projectiles@.len(),
                |i: int| shot_stays(w.projectiles@[i].advanced(), w.lane(), w.screen_height),
            ),
        )
        &&& self.particles@ == kept(
            Seq::new(w.particles@.len(), |i: int| w.particles@[i].advanced()),
            Seq::new(
                w.particles@.len(),
                |i: int| particle_stays(w.particles@[i].advanced(), w.lane(), w.screen_height),
            ),
        )
        &&& self.formations@ == Seq::new(
            w.formations@.len(),
            |f: int| w.formations@[f].advanced(w.lane()),
        )
        &&& self.enemies@ == Seq::new(
            w.enemies@.len(),
            |i: int| follow(w.enemies@[i], self.formations@).advanced(),
        )
        &&& *self == (World {
            projectiles: self.projectiles,
            particles: self.particles,
            formations: self.formations,
            enemies: self.enemies,
            ..w
        })
    }

    /// Whether this world is `w` with the shots the enemies fire on decisions
    /// `fire` appended.
    pub open spec fn with_enemy_shots(&self, w: World, fire: Seq<bool>) -> bool {
        &&& self.projectiles@ == w.projectiles@ + enemy_shots(w.enemies@, fire)
        &&& *self == (World { projectiles: self.projectiles, ..w })
    }

    /// Whether this world is `w` without the enemies below the screen and the
    /// formations that left it or have no member left alive, with the
    /// references between enemies and formations carried across.
    pub open spec fn departed(&self, w: World) -> bool {
        let es1 = kept(w.enemies@, w.enemy_on_screen());
        let alive = w.formation_alive();
        &&& self.enemies@ == Seq::new(
            es1.len(),
            |i: int| Enemy { formation_id: moved_ref(es1[i].formation_id, alive), ..es1[i] },
        )
        &&& self.formations@.len() == crate::prune::count_kept(alive)
        &&& forall|f: int|
            0 <= f < alive.len() && alive[f] ==> {
                let g = #[trigger] rank(alive, f) as int;
                &&& self.formations@[g].same_course(w.formations@[f])
                &&& self.formations@[g].enemy_indices@ == moved_indices(
                    w.formations@[f].enemy_indices@,
                    w.enemy_on_screen(),
                )
            }
        &&& self.enemies_on_screen()
        &&& *self == (World { enemies: self.enemies, formations: self.formations, ..w })
    }

    /// Whether this world is `w` with every pickup moved one tick and those
    /// below the screen dropped.
    pub open spec fn pickups_moved(&self, w: World) -> bool {
        &&& self.pickups@ == kept(
            Seq::new(w.pickups@.len(), |i: int| w.pickups@[i].advanced()),
            Seq::new(w.pickups@.len(), |i: int| w.pickups@[i].advanced().y < w.screen_height),
        )
        &&& *self == (World { pickups: self.pickups, ..w })
    }

    /// Every enemy is above the bottom of the screen and so is every
    /// formation's center.
    pub open spec fn enemies_on_screen(&self) -> bool {
        &&& forall|i: int|
            0 <= i < self.enemies@.len() ==> (#[trigger] self.enemies@[i]).y < self.screen_height
        &&& forall|f: int|
            0 <= f < self.formations@.len() ==> (#[trigger] self.formations@[f]).center_y
                < self.screen_height
    }

    /// Every enemy, formation center and pickup is above the bottom of the screen.
    pub open spec fn on_screen(&self) -> bool {
        &&& self.enemies_on_screen()
        &&& forall|k: int|
            0 <= k < self.pickups@.len() ==> (#[trigger] self.pickups@[k]).y < self.screen_height
    }

    /// Every shot of the player is in play: not expired, inside the lane, and
    /// neither on the top row nor below the screen.
    pub open spec fn player_shots_in_play(&self) -> bool {
        forall|i: int|
            0 <= i < self.projectiles@.len() && (#[trigger] self.projectiles@[i]).owner
                == ProjectileOwner::Player ==> !self.projectiles@[i].gone(
                0,
                self.lane(),
                self.screen_height,
            )
    }

    /// Every shot of the player is in play or is a bomb that must explode now.
    pub open spec fn player_shots_in_play_or_due(&self) -> bool {
        forall|i: int|
            0 <= i < self.projectiles@.len() && (#[trigger] self.projectiles@[i]).owner
                == ProjectileOwner::Player ==> shot_stays(
                self.projectiles@[i],
                self.lane(),
                self.screen_height,
            )
    }
}

impl World {
    /// Every enemy that names an existing formation stands at its center plus
    /// its offset; references to missing formations may remain.
    pub open spec fn bound_followers_placed(&self) -> bool {
        forall|i: int|
            0 <= i < self.enemies@.len() ==> match (#[trigger] self.enemies@[i]).formation_id {
                Some(f) => f < self.formations@.len() ==> self.enemies@[i].placed_at(
                    self.formations@[f as int].center_x,
                    self.formations@[f as int].center_y,
                ),
                None => true,
            }
    }
}

fn advance_projectiles(ps: &mut Vec<Projectile>, lane: u16, height: u16)
    ensures
        final(ps)@ == kept(
            Seq::new(old(ps)@.len(), |i: int| old(ps)@[i].advanced()),
            Seq::new(old(ps)@.len(), |i: int| shot_stays(old(ps)@[i].advanced(), lane, height)),
        ),
{
    let ghost s0 = ps@;
    let mut keep: Vec<bool> = Vec::new();
    let mut i: usize = 0;
    while i < ps.len()
        invariant
            0 <= i <= s0.len(),
            ps@.len() == s0.len(),
            s0 == old(ps)@,
            forall|k: int| 0 <= k < s0.len() ==> #[trigger] ps@[k] == if k < i {
                s0[k].advanced()
            } else {
                s0[k]
            },
            keep@ == Seq::new(i as nat, |k: int| shot_stays(s0[k].advanced(), lane, height)),
        decreases s0.len() - i,
    {
        let mut p = ps[i];
        p.update();
        let stays = !p.is_out_of_bounds(0, lane, height) || (p.owner == ProjectileOwner::Player
            && p.projectile_type == ProjectileType::BomberProjectile && p.lifetime == Some(0u8));
        ps.set(i, p);
        keep.push(stays);
        proof {
            assert(keep@ =~= Seq::new((i + 1) as nat, |k: int| shot_stays(s0[k].advanced(), lane, height)));
        }
        i = i + 1;
    }
    proof {
        assert(ps@ =~= Seq::new(s0.len(), |i: int| s0[i].advanced()));
    }
    prune(ps, &keep);
}

fn advance_particles(ps: &mut Vec<Particle>, lane: u16, height: u16)
    ensures
        final(ps)@ == kept(
            Seq::new(old(ps)@.len(), |i: int| old(ps)@[i].advanced()),
            Seq::new(old(ps)@.len(), |i: int| particle_stays(old(ps)@[i].advanced(), lane, height)),
        ),
{
    let ghost s0 = ps@;
    let mut keep: Vec<bool> = Vec::new();
    let mut i: usize = 0;
    while i < ps.len()
        invariant
            0 <= i <= s0.len(),
            ps@.len() == s0.len(),
            s0 == old(ps)@,
            forall|k: int| 0 <= k < s0.len() ==> #[trigger] ps@[k] == if k < i {
                s0[k].advanced()
            } else {
                s0[k]
            },
            keep@ == Seq::new(i as nat, |k: int| particle_stays(s0[k].advanced(), lane, height)),
        decreases s0.len() - i,
    {
        let mut p = ps[i];
        p.update();
        let stays = !(p.is_dead() || p.is_out_of_bounds(0, lane, height));
        ps.set(i, p);
        keep.push(stays);
        proof {
            assert(keep@ =~= Seq::new((i + 1) as nat, |k: int| particle_stays(s0[k].advanced(), lane, height)));
        }
        i = i + 1;
    }
    proof {
        assert(ps@ =~= Seq::new(s0.len(), |i: int| s0[i].advanced()));
    }
    prune(ps, &keep);
}

fn advance_formations(fs: &mut Vec<Formation>, lane: u16)
    requires
        forall|f: int| 0 <= f < old(fs)@.len() ==> (#[trigger] old(fs)@[f]).wf(),
    ensures
        final(fs)@ == Seq::new(old(fs)@.len(), |f: int| old(fs)@[f].advanced(lane)),
        forall|f: int| 0 <= f < final(fs)@.len() ==> (#[trigger] final(fs)@[f]).wf(),
{
    let ghost s0 = fs@;
    let mut i: usize = 0;
    while i < fs.len()
        invariant
            0 <= i <= s0.len(),
            fs@.len() == s0.len(),
            s0 == old(fs)@,
            forall|f: int| 0 <= f < s0.len() ==> (#[trigger] s0[f]).wf(),
            forall|k: int| 0 <= k < s0.len() ==> #[trigger] fs@[k] == if k < i {
                s0[k].advanced(lane)
            } else {
                s0[k]
            },
            forall|k: int| 0 <= k < i ==> (#[trigger] fs@[k]).wf(),
        decreases s0.len() - i,
    {
        fs[i].update(lane);
        i = i + 1;
    }
    proof {
        assert(fs@ =~= Seq::new(s0.len(), |f: int| s0[f].advanced(lane)));
    }
}

/// Each enemy takes its place in its formation, then advances a tick.
fn advance_enemies(es: &mut Vec<Enemy>, fs: &Vec<Formation>)
    ensures
        final(es)@ == Seq::new(old(es)@.len(), |i: int| follow(old(es)@[i], fs@).advanced()),
{
    let ghost s0 = es@;
    let mut i: usize = 0;
    while i < es.len()
        invariant
            0 <= i <= s0.len(),
            es@.len() == s0.len(),
            s0 == old(es)@,
            forall|k: int| 0 <= k < s0.len() ==> #[trigger] es@[k] == if k < i {
                follow(s0[k], fs@).advanced()
            } else {
                s0[k]
            },
        decreases s0.len() - i,
    {
        let mut e = es[i];
        if let Some(f) = e.formation_id {
            if f < fs.len() {
                e.update_formation_position(fs[f].center_x, fs[f].center_y);
            }
        }
        e.update();
        es.set(i, e);
        i = i + 1;
    }
    proof {
        assert(es@ =~= Seq::new(s0.len(), |i: int| follow(s0[i], fs@).advanced()));
    }
}

impl World {
    /// Starts a tick: counts it, runs the player's timers, and runs the wave
    /// timer. Returns whether a new wave is due: the field is clear and the
    /// timer has run out, which restarts it. While enemies remain the timer
    /// stays at its full length.
    pub fn start_tick(&mut self) -> (spawn_due: bool)
        ensures
            final(self).ticked(*old(self)),
            spawn_due == old(self).wave_due(),
    {
        self.frame_count = self.frame_count.wrapping_add(1);
        self.player.update_cooldown();
        if self.enemies.len() == 0 {
            if self.spawn_delay_frames > 0 {
                self.spawn_delay_frames = self.spawn_delay_frames - 1;
                false
            } else {
                self.spawn_delay_frames = SPAWN_DELAY_TICKS;
                true
            }
        } else {
            self.spawn_delay_frames = SPAWN_DELAY_TICKS;
            false
        }
    }

    /// Moves everything one tick: shots (dropping those spent, but keeping a
    /// bomb that must still explode), particles (dropping the dead and
    /// departed), formations, and enemies, which take their place in their
    /// formation after it has moved.
    pub fn advance_entities(&mut self)
        requires
            old(self).wf(),
        ensures
            final(self).moved(*old(self)),
            final(self).wf(),
            final(self).bound_followers_placed(),
            final(self).player_shots_in_play_or_due(),
    {
        let lane = self.lane_width();
        let height = self.screen_height;
        advance_projectiles(&mut self.projectiles, lane, height);
        advance_particles(&mut self.particles, lane, height);
        advance_formations(&mut self.formations, lane);
        advance_enemies(&mut self.enemies, &self.formations);
        proof {
            let w0 = *old(self);
            let adv = Seq::new(w0.projectiles@.len(), |i: int| w0.projectiles@[i].advanced());
            let keep = Seq::new(
                w0.projectiles@.len(),
                |i: int| shot_stays(w0.projectiles@[i].advanced(), lane, height),
            );
            lemma_pruning_keeps_survivors(adv, keep);
            assert forall|r: int|
                0 <= r < self.projectiles@.len() && (#[trigger] self.projectiles@[r]).owner
                    == ProjectileOwner::Player implies shot_stays(
                self.projectiles@[r],
                self.lane(),
                self.screen_height,
            ) by {
                assert(from_survivor(adv, keep, r));
            }
        }
    }

    /// Enemy fire with the decisions given: every enemy `i` that is ready to fire
    /// and whose `fire[i]` is set shoots. Returns the number of shots.
    pub fn enemy_fire_with(&mut self, fire: &Vec<bool>) -> (fired: usize)
        ensures
            final(self).with_enemy_shots(*old(self), fire@),
            fired == enemy_shots(old(self).enemies@, fire@).len(),
    {
        let ghost p0 = self.projectiles@;
        let mut fired: usize = 0;
        let mut i: usize = 0;
        while i < self.enemies.len()
            invariant
                0 <= i <= self.enemies@.len(),
                self.enemies == old(self).enemies,
                p0 == old(self).projectiles@,
                self.projectiles@ == p0 + enemy_shots(self.enemies@.take(i as int), fire@),
                fired == enemy_shots(self.enemies@.take(i as int), fire@).len(),
                fired <= i,
                *self == (World { projectiles: self.projectiles, ..*old(self) }),
            decreases self.enemies@.len() - i,
        {
            proof {
                assert(self.enemies@.take(i + 1).drop_last() =~= self.enemies@.take(i as int));
            }
            let e = self.enemies[i];
            if e.can_fire() && i < fire.len() && fire[i] {
                let x = e.x.saturating_add(e.get_width() / 2);
                let y = e.y.saturating_add(e.get_height());
                self.projectiles.push(Projectile::new(x, y, ProjectileOwner::Enemy));
                fired = fired + 1;
            }
            proof {
                assert(self.projectiles@ =~= p0 + enemy_shots(self.enemies@.take(i + 1), fire@));
            }
            i = i + 1;
        }
        proof {
            assert(self.enemies@.take(self.enemies@.len() as int) =~= self.enemies@);
        }
        fired
    }
}

/// Whether formation `f` stays once the enemies below row `height` are gone:
/// its center is above that row and one of its members is present, above that
/// row and alive.
pub open spec fn formation_holds(f: Formation, es: Seq<Enemy>, height: u16) -> bool {
    f.center_y < height && exists|k: int|
        0 <= k < f.enemy_indices@.len() && #[trigger] f.enemy_indices@[k] < es.len() && es[f.enemy_indices@[k] as int].y
            < height && es[f.enemy_indices@[k] as int].health > 0
}

impl World {
    /// Which enemies stay on the screen.
    pub open spec fn enemy_on_screen(&self) -> Seq<bool> {
        Seq::new(self.enemies@.len(), |i: int| self.enemies@[i].y < self.screen_height)
    }

    /// Which formations stay.
    pub open spec fn formation_alive(&self) -> Seq<bool> {
        Seq::new(
            self.formations@.len(),
            |f: int| formation_holds(self.formations@[f], self.enemies@, self.screen_height),
        )
    }

    /// Removes the enemies that left the bottom of the screen, then the
    /// formations that left it or have no member left alive, and carries the
    /// references between enemies and formations across both removals: an
    /// enemy whose formation is gone flies on its own.
    pub fn prune_departed(&mut self)
        requires
            old(self).wf(),
            old(self).bound_followers_placed(),
        ensures
            final(self).departed(*old(self)),
            final(self).wf(),
            final(self).followers_placed(),
    {
        let ghost w0 = *self;
        let height = self.screen_height;
        let n = self.enemies.len();
        let mut alive: Vec<bool> = Vec::new();
        let mut f: usize = 0;
        while f < self.formations.len()
            invariant
                0 <= f <= self.formations@.len(),
                *self == w0,
                n == w0.enemies@.len(),
                height == w0.screen_height,
                alive@ == w0.formation_alive().take(f as int),
            decreases self.formations@.len() - f,
        {
            let members = &self.formations[f].enemy_indices;
            let mut found = false;
            let mut k: usize = 0;
            while k < members.len()
                invariant
                    0 <= k <= members@.len(),
                    *self == w0,
                    n == w0.enemies@.len(),
                    height == w0.screen_height,
                    f < self.formations@.len(),
                    members == self.formations@[f as int].enemy_indices,
                    found == exists|j: int|
                        0 <= j < k && #[trigger] members@[j] < n && w0.enemies@[members@[j] as int].y
                            < height && w0.enemies@[members@[j] as int].health > 0,
                decreases members@.len() - k,
            {
                let m = members[k];
                if m < n && self.enemies[m].y < height && self.enemies[m].health > 0 {
                    found = true;
                }
                k = k + 1;
            }
            alive.push(self.formations[f].center_y < height && found);
            proof {
                assert(alive@ =~= w0.formation_alive().take(f + 1));
            }
            f = f + 1;
        }
        let mut on_screen: Vec<bool> = Vec::new();
        let mut i: usize = 0;
        while i < n
            invariant
                0 <= i <= n,
                *self == w0,
                n == w0.enemies@.len(),
                height == w0.screen_height,
                on_screen@ == w0.enemy_on_screen().take(i as int),
            decreases n - i,
        {
            on_screen.push(self.enemies[i].y < height);
            proof {
                assert(on_screen@ =~= w0.enemy_on_screen().take(i + 1));
            }
            i = i + 1;
        }
        proof {
            assert(alive@ =~= w0.formation_alive());
            assert(on_screen@ =~= w0.enemy_on_screen());
        }
        remove_enemies(&mut self.enemies, &mut self.formations, &on_screen);
        let ghost es1 = self.enemies@;
        let ghost fs1 = self.formations@;
        prune(&mut self.formations, &alive);
        let rank_of = ranks(&alive);
        let mut i: usize = 0;
        while i < self.enemies.len()
            invariant
                0 <= i <= es1.len(),
                self.enemies@.len() == es1.len(),
                rank_of@.len() == alive@.len(),
                forall|j: int| 0 <= j < rank_of@.len() ==> rank_of@[j] == rank(alive@, j),
                forall|j: int| 0 <= j < es1.len() ==> #[trigger] self.enemies@[j] == if j < i {
                    Enemy { formation_id: moved_ref(es1[j].formation_id, alive@), ..es1[j] }
                } else {
                    es1[j]
                },
                self.formations@ == kept(fs1, alive@),
                self.player == w0.player,
                self.projectiles == w0.projectiles,
                self.particles == w0.particles,
                self.pickups == w0.pickups,
                self.score == w0.score,
                self.running == w0.running,
                self.game_state == w0.game_state,
                self.screen_width == w0.screen_width,
                self.screen_height == w0.screen_height,
                self.edge_width == w0.edge_width,
                self.frame_count == w0.frame_count,
                self.spawn_delay_frames == w0.spawn_delay_frames,
            decreases es1.len() - i,
        {
            let mut e = self.enemies[i];
            e.formation_id = move_ref(e.formation_id, &alive, &rank_of);
            self.enemies.set(i, e);
            i = i + 1;
        }
        proof {
            let on = w0.enemy_on_screen();
            lemma_pruning_keeps_survivors(w0.enemies@, on);
            lemma_pruning_keeps_survivors(fs1, alive@);
            assert(self.enemies@ =~= Seq::new(
                es1.len(),
                |i: int| Enemy { formation_id: moved_ref(es1[i].formation_id, alive@), ..es1[i] },
            ));
            assert forall|f: int| 0 <= f < self.formations@.len() implies (
            #[trigger] self.formations@[f]).wf() && self.formations@[f].center_y
                < self.screen_height by {
                assert(from_survivor(fs1, alive@, f));
                let g = choose|g: int|
                    0 <= g < fs1.len() && alive@[g] && rank(alive@, g) == f && kept(fs1, alive@)[f]
                        == fs1[g];
                assert(fs1[g].same_course(w0.formations@[g]));
                assert(w0.formations@[g].wf());
                assert(formation_holds(w0.formations@[g], w0.enemies@, w0.screen_height));
            }
            assert forall|r: int| 0 <= r < self.enemies@.len() implies (
            #[trigger] self.enemies@[r]).y < self.screen_height by {
                assert(from_survivor(w0.enemies@, on, r));
            }
            assert forall|r: int| 0 <= r < self.enemies@.len() implies match (
            #[trigger] self.enemies@[r]).formation_id {
                Some(f) => f < self.formations@.len() && self.enemies@[r].placed_at(
                    self.formations@[f as int].center_x,
                    self.formations@[f as int].center_y,
                ),
                None => true,
            } by {
                assert(from_survivor(w0.enemies@, on, r));
                let i = choose|i: int|
                    0 <= i < w0.enemies@.len() && on[i] && rank(on, i) == r && kept(
                        w0.enemies@,
                        on,
                    )[r] == w0.enemies@[i];
                assert(es1[r] == w0.enemies@[i]);
                if let Some(f) = w0.enemies@[i].formation_id {
                    if f < alive@.len() && alive@[f as int] {
                        assert(w0.enemies@[i].placed_at(
                            w0.formations@[f as int].center_x,
                            w0.formations@[f as int].center_y,
                        ));
                        assert(self.formations@[rank(alive@, f as int) as int] == fs1[f as int]);
                        assert(fs1[f as int].same_course(w0.formations@[f as int]));
                    }
                }
            }
        }
    }

    /// Moves every pickup one tick and drops those below the screen.
    pub fn advance_pickups(&mut self)
        ensures
            final(self).pickups_moved(*old(self)),
            forall|k: int|
                0 <= k < final(self).pickups@.len() ==> (#[trigger] final(self).pickups@[k]).y
                    < final(self).screen_height,
    {
        let ghost s0 = self.pickups@;
        let height = self.screen_height;
        let mut keep: Vec<bool> = Vec::new();
        let mut i: usize = 0;
        while i < self.pickups.len()
            invariant
                0 <= i <= s0.len(),
                self.pickups@.len() == s0.len(),
                s0 == old(self).pickups@,
                height == old(self).screen_height,
                *self == (World { pickups: self.pickups, ..*old(self) }),
                forall|k: int| 0 <= k < s0.len() ==> #[trigger] self.pickups@[k] == if k < i {
                    s0[k].advanced()
                } else {
                    s0[k]
                },
                keep@ == Seq::new(i as nat, |k: int| s0[k].advanced().y < height),
            decreases s0.len() - i,
        {
            let mut p = self.pickups[i];
            p.update();
            let stays = !p.is_out_of_bounds(height);
            self.pickups.set(i, p);
            keep.push(stays);
            proof {
                assert(keep@ =~= Seq::new((i + 1) as nat, |k: int| s0[k].advanced().y < height));
            }
            i = i + 1;
        }
        let ghost adv = Seq::new(s0.len(), |i: int| s0[i].advanced());
        proof {
            assert(self.pickups@ =~= adv);
        }
        prune(&mut self.pickups, &keep);
        proof {
            lemma_pruning_keeps_survivors(adv, keep@);
            assert forall|k: int| 0 <= k < self.pickups@.len() implies (
            #[trigger] self.pickups@[k]).y < self.screen_height by {
                assert(from_survivor(adv, keep@, k));
            }
        }
    }

    /// Whether the draws fit this world: a wave is drawn exactly when one is
    /// due, centered on an allowed column; a pickup only on a pickup tick, on
    /// an allowed column.
    pub open spec fn draws_fit(
        &self,
        spawn: Option<(FormationType, EnemyType, u16)>,
        pickup: Option<(WeaponType, u16)>,
    ) -> bool {
        &&& spawn.is_some() == self.wave_due()
        &&& spawn.is_some() ==> self.wave_column_ok(spawn.unwrap().2)
        &&& pickup.is_some() ==> ((self.frame_count + 1) % 0x1_0000_0000_0000_0000)
            % (PICKUP_PERIOD as int) == 0 && self.pickup_column_ok(pickup.unwrap().1)
    }

    /// The facts every tick keeps or establishes, whatever was drawn: headings
    /// valid, every enemy in place in its formation, everything above the
    /// bottom of the screen, every player shot in play, the tick counted, the
    /// wave timer run, the game over exactly when the player has no health,
    /// health never up and score never down.
    pub open spec fn tick_facts(&self, w: World) -> bool {
        &&& self.wf()
        &&& self.followers_placed()
        &&& self.on_screen()
        &&& self.player_shots_in_play()
        &&& self.frame_count == (w.frame_count + 1) % 0x1_0000_0000_0000_0000
        &&& self.spawn_delay_frames == if w.enemies@.len() == 0 && w.spawn_delay_frames > 0 {
            (w.spawn_delay_frames - 1) as u64
        } else {
            SPAWN_DELAY_TICKS
        }
        &&& self.game_state == if self.player.health == 0 {
            GameState::GameOver
        } else {
            w.game_state
        }
        &&& self.player.health <= w.player.health
        &&& self.score >= w.score
        &&& self.running == w.running
        &&& self.screen_width == w.screen_width
        &&& self.screen_height == w.screen_height
        &&& self.edge_width == w.edge_width
    }

    /// One tick of play with the draws given. `spawn` is the wave (shape, enemy
    /// kind, center column) used if one is due; `fire[i]` decides whether enemy
    /// `i` fires when ready; `pickup` is the pickup (payload, column) added if
    /// this is a pickup tick. Returns the number of shots the enemies fired.
    pub fn update_game_with(
        &mut self,
        spawn: Option<(FormationType, EnemyType, u16)>,
        fire: &Vec<bool>,
        pickup: Option<(WeaponType, u16)>,
    ) -> (shots: usize)
        requires
            old(self).wf(),
        ensures
            tick_outcome(*old(self), spawn, fire@, pickup, *final(self), shots as int),
            final(self).tick_facts(*old(self)),
    {
        let ghost w0 = *self;
        let due = self.start_tick();
        let ghost w1 = *self;
        if due {
            if let Some((t, kind, cx)) = spawn {
                self.spawn_formation_with(t, kind, cx);
            }
        }
        let ghost w2 = *self;
        self.advance_entities();
        let ghost w3 = *self;
        let shots = self.enemy_fire_with(fire);
        let ghost w4 = *self;
        proof {
            lemma_enemy_shots_owner(w3.enemies@, fire@);
            assert(w4.player_shots_in_play_or_due()) by {
                assert forall|i: int|
                    0 <= i < w4.projectiles@.len() && (#[trigger] w4.projectiles@[i]).owner
                        == ProjectileOwner::Player implies shot_stays(
                    w4.projectiles@[i],
                    w4.lane(),
                    w4.screen_height,
                ) by {
                    if i >= w3.projectiles@.len() {
                        assert(w4.projectiles@[i] == enemy_shots(w3.enemies@, fire@)[i
                            - w3.projectiles@.len()]);
                    } else {
                        assert(w4.projectiles@[i] == w3.projectiles@[i]);
                    }
                }
            }
        }
        self.prune_departed();
        let ghost w5 = *self;
        if self.frame_count % PICKUP_PERIOD == 0 {
            if let Some((weapon, x)) = pickup {
                self.spawn_pickup_with(weapon, x);
            }
        }
        let ghost w6 = *self;
        self.advance_pickups();
        let ghost w7 = *self;
        self.check_collisions();
        let ghost w8 = *self;
        proof {
            crate::collision::lemma_kill_points_nonneg(
                w7.enemies@,
                w7.hurt_enemies(),
                w7.enemies@.len() as int,
            );
            crate::collision::lemma_shot_damage_nonneg(w7.projectiles@, w7.player.x, w7.player.y);
            crate::collision::lemma_ram_count_same_boxes(
                w7.enemies@,
                w7.enemies@,
                w7.player.x,
                w7.player.y,
            );
        }
        if !self.player.is_alive() {
            self.game_state = GameState::GameOver;
        }
        proof {
            assert(tick_chain(w0, w1, w2, w3, w4, w5, w6, w7, w8, *self, spawn, fire@, pickup, shots as int));
        }
        shots
    }

    /// Runs one tick of play: the wave timer (with a new wave when due),
    /// movement of every entity, enemy fire, removal of what left the screen, a
    /// possible pickup on every hundred-and-eightieth tick, pickups falling, the
    /// collisions, and the end of the game when the player has no health left.
    /// The wave, the enemies' decisions to fire (three in ten each) and the
    /// pickup (one in two, on a pickup tick) are drawn at random. Returns the
    /// number of shots the enemies fired.
    pub fn update_game(&mut self) -> (enemy_shots_fired: usize)
        requires
            old(self).wf(),
        ensures
            exists|
                spawn: Option<(FormationType, EnemyType, u16)>,
                fire: Seq<bool>,
                pickup: Option<(WeaponType, u16)>,
            |
                old(self).draws_fit(spawn, pickup) && #[trigger] tick_outcome(
                    *old(self),
                    spawn,
                    fire,
                    pickup,
                    *final(self),
                    enemy_shots_fired as int,
                ),
            final(self).tick_facts(*old(self)),
    {
        let spawn = if self.enemies.len() == 0 && self.spawn_delay_frames == 0 {
            let t = formation_type_from_roll(draw_below(4));
            let cx = self.draw_wave_column();
            let kind = enemy_type_from_roll(draw_below(10));
            Some((t, kind, cx))
        } else {
            None
        };
        let count = self.enemies.len().saturating_add(MAX_WAVE_SIZE);
        let mut fire: Vec<bool> = Vec::new();
        let mut i: usize = 0;
        while i < count
            invariant
                0 <= i <= count,
            decreases count - i,
        {
            fire.push(draw_ratio(ENEMY_FIRE_NUMERATOR, ENEMY_FIRE_DENOMINATOR));
            i = i + 1;
        }
        let pickup = if self.frame_count.wrapping_add(1) % PICKUP_PERIOD == 0 && draw_ratio(
            PICKUP_NUMERATOR,
            PICKUP_DENOMINATOR,
        ) {
            let weapon = weapon_type_from_roll(draw_below(4));
            let x = self.draw_pickup_column();
            Some((weapon, x))
        } else {
            None
        };
        let ghost w0 = *self;
        let shots = self.update_game_with(spawn, &fire, pickup);
        proof {
            assert(w0.draws_fit(spawn, pickup));
        }
        shots
    }
}

/// Every shot the enemies fire belongs to the enemies.
proof fn lemma_enemy_shots_owner(es: Seq<Enemy>, fire: Seq<bool>)
    ensures
        forall|i: int|
            0 <= i < enemy_shots(es, fire).len() ==> (#[trigger] enemy_shots(es, fire)[i]).owner
                == ProjectileOwner::Enemy,
    decreases es.len(),
{
    if es.len() > 0 {
        lemma_enemy_shots_owner(es.drop_last(), fire);
    }
}

/// The steps of one tick, world by world: `w1` after the start of the tick,
/// `w2` after the wave (if due and given), `w3` after movement, `w4` after
/// enemy fire on `fire` (`shots` of them), `w5` after removal of what left the
/// screen, `w6` after the pickup (if a pickup tick and given), `w7` after the
/// pickups fall, `w8` after the collisions, and `w9` with the game over when
/// the player has no health left.
pub open spec fn tick_chain(
    w0: World,
    w1: World,
    w2: World,
    w3: World,
    w4: World,
    w5: World,
    w6: World,
    w7: World,
    w8: World,
    w9: World,
    spawn: Option<(FormationType, EnemyType, u16)>,
    fire: Seq<bool>,
    pickup: Option<(WeaponType, u16)>,
    shots: int,
) -> bool {
    &&& w1.ticked(w0)
    &&& if w0.wave_due() && spawn.is_some() {
        w2.with_wave(w1, spawn.unwrap().0, spawn.unwrap().1, spawn.unwrap().2)
    } else {
        w2 == w1
    }
    &&& w3.moved(w2)
    &&& w4.with_enemy_shots(w3, fire)
    &&& shots == enemy_shots(w3.enemies@, fire).len()
    &&& w5.departed(w4)
    &&& if w5.frame_count % PICKUP_PERIOD == 0 && pickup.is_some() {
        w6.with_pickup(w5, pickup.unwrap().0, pickup.unwrap().1)
    } else {
        w6 == w5
    }
    &&& w7.pickups_moved(w6)
    &&& w8.collided(w7)
    &&& w9 == (World {
        game_state: if w8.player.health == 0 {
            GameState::GameOver
        } else {
            w8.game_state
        },
        ..w8
    })
}

/// A player's bomb one tick from running out explodes during that tick: after
/// the tick's movement it stands, its lifetime at zero, among the shots the
/// collisions see; every enemy within the explosion's radius of it, the
/// boundary included, is struck for at least the explosion's damage; and the
/// bomb does not survive the collisions.
pub proof fn lemma_tick_detonates_bomb(
    w0: World,
    w1: World,
    w2: World,
    w3: World,
    w4: World,
    w5: World,
    w6: World,
    w7: World,
    w8: World,
    w9: World,
    spawn: Option<(FormationType, EnemyType, u16)>,
    fire: Seq<bool>,
    pickup: Option<(WeaponType, u16)>,
    shots: int,
    i: int,
)
    requires
        tick_chain(w0, w1, w2, w3, w4, w5, w6, w7, w8, w9, spawn, fire, pickup, shots),
        0 <= i < w0.projectiles@.len(),
        w0.projectiles@[i].owner == ProjectileOwner::Player,
        w0.projectiles@[i].projectile_type == ProjectileType::BomberProjectile,
        w0.projectiles@[i].lifetime == Some(1u8),
    ensures
        exists|k: int|
            0 <= k < w7.projectiles@.len() && #[trigger] w7.projectiles@[k]
                == w0.projectiles@[i].advanced() && w7.projectiles@[k].detonates()
                && !w7.shot_survives()[k] && forall|j: int|
                0 <= j < w7.enemies@.len() && in_blast(w7.projectiles@[k], #[trigger] w7.enemies@[j])
                    ==> struck(w7.projectiles@, w7.enemies@, j) && damage_to(
                    w7.projectiles@,
                    w7.enemies@,
                    j,
                ) >= EXPLOSION_DAMAGE,
{
    let adv = Seq::new(w2.projectiles@.len(), |m: int| w2.projectiles@[m].advanced());
    let keep = Seq::new(
        w2.projectiles@.len(),
        |m: int| shot_stays(w2.projectiles@[m].advanced(), w2.lane(), w2.screen_height),
    );
    assert(w2.projectiles == w0.projectiles);
    assert(adv[i].detonates());
    lemma_pruning_keeps_survivors(adv, keep);
    let k = rank(keep, i) as int;
    assert(w3.projectiles@[k] == adv[i]);
    assert(w4.projectiles@[k] == w3.projectiles@[k]);
    assert(w7.projectiles == w4.projectiles);
    assert forall|j: int|
        0 <= j < w7.enemies@.len() && in_blast(w7.projectiles@[k], #[trigger] w7.enemies@[j])
            implies struck(w7.projectiles@, w7.enemies@, j) && damage_to(
            w7.projectiles@,
            w7.enemies@,
            j,
        ) >= EXPLOSION_DAMAGE by {
        lemma_detonation_reaches_radius(w7, k, j);
    }
    assert(!w7.shot_survives()[k]);
}

/// Whether `p` is one of the shots the enemies `es` fire on decisions `fire`.
pub open spec fn fired_by(p: Projectile, es: Seq<Enemy>, fire: Seq<bool>) -> bool {
    exists|m: int| 0 <= m < enemy_shots(es, fire).len() && enemy_shots(es, fire)[m] == p
}

/// After a tick every shot is in play (not expired, inside the lane, neither
/// on the top row nor below the screen), except shots the enemies fired during
/// that very tick: every shot carried over from before the tick is in play.
pub proof fn lemma_tick_shots_in_play(
    w0: World,
    w1: World,
    w2: World,
    w3: World,
    w4: World,
    w5: World,
    w6: World,
    w7: World,
    w8: World,
    w9: World,
    spawn: Option<(FormationType, EnemyType, u16)>,
    fire: Seq<bool>,
    pickup: Option<(WeaponType, u16)>,
    shots: int,
)
    requires
        tick_chain(w0, w1, w2, w3, w4, w5, w6, w7, w8, w9, spawn, fire, pickup, shots),
    ensures
        forall|r: int|
            0 <= r < w9.projectiles@.len() ==> !(#[trigger] w9.projectiles@[r]).gone(
                0,
                w9.lane(),
                w9.screen_height,
            ) || fired_by(w9.projectiles@[r], w3.enemies@, fire),
{
    let adv = Seq::new(w2.projectiles@.len(), |m: int| w2.projectiles@[m].advanced());
    let keep = Seq::new(
        w2.projectiles@.len(),
        |m: int| shot_stays(w2.projectiles@[m].advanced(), w2.lane(), w2.screen_height),
    );
    lemma_pruning_keeps_survivors(adv, keep);
    lemma_pruning_keeps_survivors(w7.projectiles@, w7.shot_survives());
    assert(w7.projectiles == w4.projectiles);
    assert forall|r: int| 0 <= r < w9.projectiles@.len() implies !(
    #[trigger] w9.projectiles@[r]).gone(0, w9.lane(), w9.screen_height) || fired_by(
        w9.projectiles@[r],
        w3.enemies@,
        fire,
    ) by {
        assert(from_survivor(w7.projectiles@, w7.shot_survives(), r));
        let i = choose|i: int|
            0 <= i < w7.projectiles@.len() && w7.shot_survives()[i] && rank(w7.shot_survives(), i)
                == r && kept(w7.projectiles@, w7.shot_survives())[r] == w7.projectiles@[i];
        if i < w3.projectiles@.len() {
            assert(w4.projectiles@[i] == w3.projectiles@[i]);
            assert(from_survivor(adv, keep, i));
        } else {
            let m = i - w3.projectiles@.len();
            assert(w4.projectiles@[i] == enemy_shots(w3.enemies@, fire)[m]);
        }
    }
}

/// Whether `w9` is the world `w0` becomes in one tick with the given draws.
pub open spec fn tick_outcome(
    w0: World,
    spawn: Option<(FormationType, EnemyType, u16)>,
    fire: Seq<bool>,
    pickup: Option<(WeaponType, u16)>,
    w9: World,
    shots: int,
) -> bool {
    exists|w1: World, w2: World, w3: World, w4: World, w5: World, w6: World, w7: World, w8: World|
        #[trigger] tick_chain(w0, w1, w2, w3, w4, w5, w6, w7, w8, w9, spawn, fire, pickup, shots)
}

} // verus!
