//! The collision resolver: shots against ships, ships against the player,
//! pickups against the player, and the pruning of what was destroyed.
use vstd::prelude::*;

use crate::enemy::Enemy;
use crate::formation::Formation;
use crate::grid::{boxes_overlap, overlap, point_in, point_in_box};
use crate::health::remaining;
use crate::particle::{burst, create_explosion_particles, Particle};
use crate::pickup::{Pickup, PICKUP_HEIGHT, PICKUP_WIDTH};
use crate::player::{Player, WeaponType, HIT_FLASH_TICKS, PLAYER_HEIGHT, PLAYER_WIDTH};
use crate::projectile::{Projectile, ProjectileOwner, ProjectileType};
use crate::prune::{
    from_survivor, kept, lemma_pruning_keeps_survivors, move_indices, moved_indices, prune, rank,
    ranks,
};
use crate::world::World;

verus! {

/// Radius of a bomb's explosion, in cells.
pub const EXPLOSION_RADIUS: i32 = 8;

/// Damage an explosion deals to each enemy in its radius.
pub const EXPLOSION_DAMAGE: u8 = 25;

/// Damage the player takes from an enemy ramming it.
pub const RAM_DAMAGE: u8 = 20;

/// Whether enemy `e` is inside the explosion of shot `p`: the squared distance
/// from the shot to the enemy's center is at most the squared radius.
pub open spec fn in_blast(p: Projectile, e: Enemy) -> bool {
    let dx = p.x - e.center_x();
    let dy = p.y - e.center_y();
    dx * dx + dy * dy <= EXPLOSION_RADIUS * EXPLOSION_RADIUS
}

/// Whether shot `p` lies inside enemy `e`'s box.
pub open spec fn shot_hits(p: Projectile, e: Enemy) -> bool {
    point_in_box(p.x, p.y, e.x, e.y, e.width(), e.height())
}

/// Whether enemy `j` is the first of `es`, in storage order, whose box holds `p`.
pub open spec fn first_target(p: Projectile, es: Seq<Enemy>, j: int) -> bool {
    0 <= j < es.len() && shot_hits(p, es[j]) && forall|k: int| 0 <= k < j ==> !shot_hits(p, #[trigger] es[k])
}

/// Whether the player's shot `p` strikes enemy `j`: by its explosion if it
/// detonates, else as the first enemy it overlaps.
pub open spec fn strikes(p: Projectile, es: Seq<Enemy>, j: int) -> bool {
    p.owner == ProjectileOwner::Player && if p.detonates() {
        in_blast(p, es[j])
    } else {
        first_target(p, es, j)
    }
}

/// Damage shot `p` deals to enemy `j`.
pub open spec fn strike_damage(p: Projectile, es: Seq<Enemy>, j: int) -> int {
    if !strikes(p, es, j) {
        0
    } else if p.detonates() {
        EXPLOSION_DAMAGE as int
    } else {
        p.damage as int
    }
}

/// Total damage the shots `ps` deal to enemy `j`.
pub open spec fn damage_to(ps: Seq<Projectile>, es: Seq<Enemy>, j: int) -> int
    decreases ps.len(),
{
    if ps.len() == 0 {
        0
    } else {
        damage_to(ps.drop_last(), es, j) + strike_damage(ps.last(), es, j)
    }
}

/// Whether any of the shots `ps` strikes enemy `j`.
pub open spec fn struck(ps: Seq<Projectile>, es: Seq<Enemy>, j: int) -> bool
    decreases ps.len(),
{
    ps.len() > 0 && (struck(ps.drop_last(), es, j) || strikes(ps.last(), es, j))
}

/// Enemy `j` after the shots `ps` have struck it.
pub open spec fn hurt(ps: Seq<Projectile>, es: Seq<Enemy>, j: int) -> Enemy {
    if struck(ps, es, j) {
        Enemy {
            health: remaining(es[j].health as int, damage_to(ps, es, j)) as u8,
            damage_flash_frames: HIT_FLASH_TICKS,
            ..es[j]
        }
    } else {
        es[j]
    }
}

/// Whether the player's shot `p` is used up against the enemies `es`: it
/// detonates or it lies inside some enemy.
pub open spec fn spent_on_enemies(p: Projectile, es: Seq<Enemy>) -> bool {
    p.owner == ProjectileOwner::Player && (p.detonates() || exists|j: int|
        0 <= j < es.len() && #[trigger] shot_hits(p, es[j]))
}

/// Whether the enemy shot `p` lies inside the player's box at `(px, py)`.
pub open spec fn hits_player(p: Projectile, px: u16, py: u16) -> bool {
    p.owner == ProjectileOwner::Enemy && point_in_box(p.x, p.y, px, py, PLAYER_WIDTH, PLAYER_HEIGHT)
}

/// Whether enemy `e`'s box overlaps the player's box at `(px, py)`.
pub open spec fn rams(e: Enemy, px: u16, py: u16) -> bool {
    boxes_overlap(e.x, e.y, e.width(), e.height(), px, py, PLAYER_WIDTH, PLAYER_HEIGHT)
}

/// Whether pickup `k` overlaps the player's box at `(px, py)`.
pub open spec fn grabs(k: Pickup, px: u16, py: u16) -> bool {
    boxes_overlap(k.x, k.y, PICKUP_WIDTH, PICKUP_HEIGHT, px, py, PLAYER_WIDTH, PLAYER_HEIGHT)
}

/// Total damage of the enemy shots in `ps` that hit the player.
pub open spec fn shot_damage_to_player(ps: Seq<Projectile>, px: u16, py: u16) -> int
    decreases ps.len(),
{
    if ps.len() == 0 {
        0
    } else {
        shot_damage_to_player(ps.drop_last(), px, py) + if hits_player(ps.last(), px, py) {
            ps.last().damage as int
        } else {
            0
        }
    }
}

/// Whether some enemy shot in `ps` hits the player.
pub open spec fn any_shot_hits_player(ps: Seq<Projectile>, px: u16, py: u16) -> bool
    decreases ps.len(),
{
    ps.len() > 0 && (any_shot_hits_player(ps.drop_last(), px, py) || hits_player(ps.last(), px, py))
}

/// Number of enemies in `es` that ram the player.
pub open spec fn ram_count(es: Seq<Enemy>, px: u16, py: u16) -> int
    decreases es.len(),
{
    if es.len() == 0 {
        0
    } else {
        ram_count(es.drop_last(), px, py) + if rams(es.last(), px, py) {
            1int
        } else {
            0int
        }
    }
}

/// The weapon the player holds after passing over the pickups `ks` holding `w`:
/// the payload of the last pickup it overlaps, or `w` if none.
pub open spec fn weapon_after(ks: Seq<Pickup>, px: u16, py: u16, w: WeaponType) -> WeaponType
    decreases ks.len(),
{
    if ks.len() == 0 {
        w
    } else if grabs(ks.last(), px, py) {
        ks.last().weapon_type
    } else {
        weapon_after(ks.drop_last(), px, py, w)
    }
}

/// Points for the enemies among the first `n` that were alive in `before` and
/// are dead in `after`.
pub open spec fn kill_points(before: Seq<Enemy>, after: Seq<Enemy>, n: int) -> int
    decreases n,
{
    if n <= 0 {
        0
    } else {
        kill_points(before, after, n - 1) + if before[n - 1].health > 0 && after[n - 1].health
            == 0 {
            before[n - 1].points() as int
        } else {
            0
        }
    }
}

/// `v` added to a score, stopping at the largest score.
pub open spec fn capped_score(v: int) -> u32 {
    if v > u32::MAX {
        u32::MAX
    } else {
        v as u32
    }
}

/// Whether shot `i` of `ps` destroys enemy `j`: it strikes the enemy while it
/// still has health and leaves it with none.
pub open spec fn destroys(ps: Seq<Projectile>, es: Seq<Enemy>, i: int, j: int) -> bool {
    strikes(ps[i], es, j) && hurt(ps.take(i), es, j).health > 0 && hurt(ps.take(i + 1), es, j).health
        == 0
}

/// The bursts for the enemies among the first `n` that shot `i` destroys, in
/// storage order, each at the enemy's center.
pub open spec fn kill_sparks(ps: Seq<Projectile>, es: Seq<Enemy>, i: int, n: int) -> Seq<Particle>
    decreases n,
{
    if n <= 0 {
        Seq::empty()
    } else {
        kill_sparks(ps, es, i, n - 1) + if destroys(ps, es, i, n - 1) {
            burst(es[n - 1].center_x(), es[n - 1].center_y())
        } else {
            Seq::empty()
        }
    }
}

/// The bursts shot `i` causes: its own explosion first, if it detonates, then
/// one for each enemy it destroys.
pub open spec fn shot_sparks(ps: Seq<Projectile>, es: Seq<Enemy>, i: int) -> Seq<Particle> {
    (if ps[i].detonates() {
        burst(ps[i].x, ps[i].y)
    } else {
        Seq::empty()
    }) + kill_sparks(ps, es, i, es.len() as int)
}

/// The bursts the first `m` shots cause, in order.
pub open spec fn fire_sparks(ps: Seq<Projectile>, es: Seq<Enemy>, m: int) -> Seq<Particle>
    decreases m,
{
    if m <= 0 {
        Seq::empty()
    } else {
        fire_sparks(ps, es, m - 1) + shot_sparks(ps, es, m - 1)
    }
}

/// The bursts of the enemies in `es` that ram the player at `(px, py)`, in
/// storage order, each at the enemy's center.
pub open spec fn ram_sparks(es: Seq<Enemy>, px: u16, py: u16) -> Seq<Particle>
    decreases es.len(),
{
    if es.len() == 0 {
        Seq::empty()
    } else {
        ram_sparks(es.drop_last(), px, py) + if rams(es.last(), px, py) {
            burst(es.last().center_x(), es.last().center_y())
        } else {
            Seq::empty()
        }
    }
}

impl World {
    /// Every enemy after the player's shots of this tick.
    pub open spec fn hurt_enemies(&self) -> Seq<Enemy> {
        Seq::new(self.enemies@.len(), |j: int| hurt(self.projectiles@, self.enemies@, j))
    }

    /// Which enemies remain after collisions: those not destroyed by the
    /// player's shots and not rammed into the player.
    pub open spec fn enemy_survives(&self) -> Seq<bool> {
        Seq::new(
            self.enemies@.len(),
            |j: int|
                !((struck(self.projectiles@, self.enemies@, j) && self.hurt_enemies()[j].health
                    == 0) || rams(self.enemies@[j], self.player.x, self.player.y)),
        )
    }

    /// Which shots remain after collisions.
    pub open spec fn shot_survives(&self) -> Seq<bool> {
        Seq::new(
            self.projectiles@.len(),
            |i: int|
                !(spent_on_enemies(self.projectiles@[i], self.enemies@) || hits_player(
                    self.projectiles@[i],
                    self.player.x,
                    self.player.y,
                )),
        )
    }

    /// Which pickups remain after collisions.
    pub open spec fn pickup_stays(&self) -> Seq<bool> {
        Seq::new(
            self.pickups@.len(),
            |k: int| !grabs(self.pickups@[k], self.player.x, self.player.y),
        )
    }

    /// The score after collisions: each enemy destroyed this tick pays its points once.
    pub open spec fn score_after_collisions(&self) -> u32 {
        capped_score(
            self.score + kill_points(self.enemies@, self.hurt_enemies(), self.enemies@.len() as int),
        )
    }

    /// The player after collisions.
    pub open spec fn player_after_collisions(&self) -> Player {
        let pl = self.player;
        let rammed = ram_count(self.enemies@, pl.x, pl.y);
        let hit = any_shot_hits_player(self.projectiles@, pl.x, pl.y) || rammed > 0;
        Player {
            health: remaining(
                pl.health as int,
                shot_damage_to_player(self.projectiles@, pl.x, pl.y) + RAM_DAMAGE * rammed,
            ) as u8,
            damage_flash_frames: if hit {
                HIT_FLASH_TICKS
            } else {
                pl.damage_flash_frames
            },
            current_weapon: weapon_after(self.pickups@, pl.x, pl.y, pl.current_weapon),
            ..pl
        }
    }
}

proof fn lemma_damage_nonneg(ps: Seq<Projectile>, es: Seq<Enemy>, j: int)
    ensures
        damage_to(ps, es, j) >= 0,
        !struck(ps, es, j) ==> damage_to(ps, es, j) == 0,
    decreases ps.len(),
{
    if ps.len() > 0 {
        lemma_damage_nonneg(ps.drop_last(), es, j);
    }
}

proof fn lemma_kill_points_update(before: Seq<Enemy>, after: Seq<Enemy>, j: int, e: Enemy, n: int)
    requires
        0 <= j < after.len(),
        n <= after.len(),
    ensures
        kill_points(before, after.update(j, e), n) == kill_points(before, after, n) + if j < n {
            (if before[j].health > 0 && e.health == 0 {
                before[j].points() as int
            } else {
                0
            }) - (if before[j].health > 0 && after[j].health == 0 {
                before[j].points() as int
            } else {
                0
            })
        } else {
            0
        },
    decreases n,
{
    if n > 0 {
        lemma_kill_points_update(before, after, j, e, n - 1);
    }
}

/// The prefix step of the spec functions folded over the shots.
proof fn lemma_shot_step(ps: Seq<Projectile>, es: Seq<Enemy>, i: int, j: int)
    requires
        0 <= i < ps.len(),
    ensures
        damage_to(ps.take(i + 1), es, j) == damage_to(ps.take(i), es, j) + strike_damage(ps[i], es, j),
        struck(ps.take(i + 1), es, j) == (struck(ps.take(i), es, j) || strikes(ps[i], es, j)),
{
    assert(ps.take(i + 1).drop_last() =~= ps.take(i));
}

/// Adds the burst at `(x, y)` to `particles`.
fn add_burst(particles: &mut Vec<Particle>, x: u16, y: u16)
    ensures
        final(particles)@ == old(particles)@ + burst(x, y),
{
    let mut b = create_explosion_particles(x, y);
    particles.append(&mut b);
}

/// Whether enemy `e` is inside the explosion of shot `p`.
fn blast_reaches(p: &Projectile, e: &Enemy) -> (r: bool)
    ensures
        r == in_blast(*p, *e),
{
    let dx: i64 = p.x as i64 - e.get_center_x() as i64;
    let dy: i64 = p.y as i64 - e.get_center_y() as i64;
    let r: i64 = EXPLOSION_RADIUS as i64;
    proof {
        assert(-70000 <= dx <= 70000 && -70000 <= dy <= 70000);
        assert(dx * dx <= 4900000000) by (nonlinear_arith)
            requires -70000 <= dx <= 70000;
        assert(dy * dy <= 4900000000) by (nonlinear_arith)
            requires -70000 <= dy <= 70000;
        assert(dx * dx >= 0 && dy * dy >= 0) by (nonlinear_arith);
    }
    dx * dx + dy * dy <= r * r
}

/// Applies a hit of `damage` to enemy `j` of `es`; pays its points and adds its
/// burst if the hit destroys it.
fn strike_enemy(
    es: &mut Vec<Enemy>,
    j: usize,
    damage: u8,
    particles: &mut Vec<Particle>,
    score: &mut u32,
)
    requires
        j < old(es)@.len(),
    ensures
        final(es)@ == old(es)@.update(j as int, old(es)@[j as int].damaged(damage)),
        *final(score) == if old(es)@[j as int].health > 0 && old(es)@[j as int].damaged(damage).health == 0 {
            capped_score(*old(score) + old(es)@[j as int].points())
        } else {
            *old(score)
        },
        final(particles)@ == if old(es)@[j as int].health > 0 && old(es)@[j as int].damaged(damage).health == 0 {
            old(particles)@ + burst(old(es)@[j as int].center_x(), old(es)@[j as int].center_y())
        } else {
            old(particles)@
        },
{
    let mut e = es[j];
    let was_alive = e.is_alive();
    e.take_damage(damage);
    es.set(j, e);
    if was_alive && !e.is_alive() {
        add_burst(particles, e.get_center_x(), e.get_center_y());
        *score = score.saturating_add(e.get_points());
    }
}

pub(crate) proof fn lemma_kill_points_nonneg(before: Seq<Enemy>, after: Seq<Enemy>, n: int)
    ensures
        kill_points(before, after, n) >= 0,
    decreases n,
{
    if n > 0 {
        lemma_kill_points_nonneg(before, after, n - 1);
    }
}

proof fn lemma_kill_points_none(es: Seq<Enemy>, n: int)
    ensures
        kill_points(es, es, n) == 0,
    decreases n,
{
    if n > 0 {
        lemma_kill_points_none(es, n - 1);
    }
}

proof fn lemma_kill_sparks_single(ps: Seq<Projectile>, es: Seq<Enemy>, i: int, j: int, n: int)
    requires
        0 <= i < ps.len(),
        n <= es.len(),
        forall|k: int| 0 <= k < es.len() && k != j ==> !strikes(ps[i], es, k),
    ensures
        kill_sparks(ps, es, i, n) == if 0 <= j < n && destroys(ps, es, i, j) {
            burst(es[j].center_x(), es[j].center_y())
        } else {
            Seq::empty()
        },
    decreases n,
{
    if n > 0 {
        lemma_kill_sparks_single(ps, es, i, j, n - 1);
        if n - 1 == j {
            assert(kill_sparks(ps, es, i, n) =~= Seq::<Particle>::empty() + if destroys(ps, es, i, j) {
                burst(es[j].center_x(), es[j].center_y())
            } else {
                Seq::empty()
            });
        } else {
            assert(kill_sparks(ps, es, i, n) =~= kill_sparks(ps, es, i, n - 1));
        }
    } else {
        assert(kill_sparks(ps, es, i, n) =~= Seq::<Particle>::empty());
    }
}

/// Whether `cur` and `keep` record the shots `newer` for the enemies before `j`
/// and the shots `older` for the rest.
spec fn recorded(
    es0: Seq<Enemy>,
    cur: Seq<Enemy>,
    keep: Seq<bool>,
    newer: Seq<Projectile>,
    older: Seq<Projectile>,
    j: int,
) -> bool {
    &&& cur.len() == es0.len()
    &&& keep.len() == es0.len()
    &&& forall|k: int|
        0 <= k < es0.len() ==> {
            let ps = if k < j {
                newer
            } else {
                older
            };
            &&& #[trigger] cur[k] == hurt(ps, es0, k)
            &&& keep[k] == !(struck(ps, es0, k) && cur[k].health == 0)
        }
}

/// The player's shots against the enemies: explosions damage every enemy in
/// their radius, other shots damage the first enemy they overlap. Returns which
/// shots and which enemies remain.
fn resolve_player_fire(
    ps: &Vec<Projectile>,
    es: &mut Vec<Enemy>,
    particles: &mut Vec<Particle>,
    score: &mut u32,
) -> (r: (Vec<bool>, Vec<bool>))
    ensures
        final(es)@ == Seq::new(old(es)@.len(), |j: int| hurt(ps@, old(es)@, j)),
        *final(score) == capped_score(
            *old(score) + kill_points(old(es)@, final(es)@, old(es)@.len() as int),
        ),
        r.0@ == Seq::new(ps@.len(), |i: int| !spent_on_enemies(ps@[i], old(es)@)),
        r.1@ == Seq::new(
            old(es)@.len(),
            |j: int| !(struck(ps@, old(es)@, j) && final(es)@[j].health == 0),
        ),
        final(particles)@ == old(particles)@ + fire_sparks(ps@, old(es)@, ps@.len() as int),
{
    let ghost es0 = es@;
    let ghost pa0 = particles@;
    let n = es.len();
    let mut keep_shots: Vec<bool> = Vec::new();
    let mut keep_enemies: Vec<bool> = Vec::new();
    let mut j: usize = 0;
    while j < n
        invariant
            0 <= j <= n,
            keep_enemies@ == Seq::new(j as nat, |k: int| true),
        decreases n - j,
    {
        keep_enemies.push(true);
        j = j + 1;
    }
    proof {
        assert(particles@ =~= pa0 + fire_sparks(ps@, es0, 0));
        assert(ps@.take(0) =~= Seq::<Projectile>::empty());
        assert(recorded(es0, es@, keep_enemies@, ps@.take(0), ps@.take(0), 0));
        lemma_kill_points_nonneg(es0, es@, n as int);
        lemma_kill_points_none(es0, n as int);
    }
    let mut i: usize = 0;
    while i < ps.len()
        invariant
            0 <= i <= ps@.len(),
            n == es0.len(),
            es0 == old(es)@,
            recorded(es0, es@, keep_enemies@, ps@.take(i as int), ps@.take(i as int), 0),
            *score == capped_score(*old(score) + kill_points(es0, es@, n as int)),
            kill_points(es0, es@, n as int) >= 0,
            keep_shots@ == Seq::new(i as nat, |k: int| !spent_on_enemies(ps@[k], es0)),
            particles@ == pa0 + fire_sparks(ps@, es0, i as int),
            pa0 == old(particles)@,
        decreases ps@.len() - i,
    {
        let p = ps[i];
        let ghost before = ps@.take(i as int);
        let ghost after = ps@.take(i + 1);
        proof {
            assert forall|k: int| 0 <= k < n implies {
                &&& damage_to(after, es0, k) == damage_to(before, es0, k) + strike_damage(p, es0, k)
                &&& struck(after, es0, k) == (struck(before, es0, k) || strikes(p, es0, k))
                &&& damage_to(before, es0, k) >= 0
                &&& !struck(before, es0, k) ==> damage_to(before, es0, k) == 0
            } by {
                lemma_shot_step(ps@, es0, i as int, k);
                lemma_damage_nonneg(before, es0, k);
            }
        }
        if p.owner == ProjectileOwner::Player && p.projectile_type == ProjectileType::BomberProjectile
            && p.lifetime == Some(0u8) {
            let ghost sparks0 = pa0 + fire_sparks(ps@, es0, i as int) + burst(p.x, p.y);
            add_burst(particles, p.x, p.y);
            proof {
                assert(kill_sparks(ps@, es0, i as int, 0) =~= Seq::<Particle>::empty());
                assert(particles@ =~= sparks0 + kill_sparks(ps@, es0, i as int, 0));
            }
            let mut j: usize = 0;
            while j < n
                invariant
                    0 <= j <= n,
                    n == es0.len(),
                    p == ps@[i as int],
                    p.detonates(),
                    before == ps@.take(i as int),
                    after == ps@.take(i + 1),
                    forall|k: int| 0 <= k < n ==> {
                        &&& damage_to(after, es0, k) == damage_to(before, es0, k) + strike_damage(p, es0, k)
                        &&& struck(after, es0, k) == (struck(before, es0, k) || strikes(p, es0, k))
                        &&& damage_to(before, es0, k) >= 0
                        &&& (!struck(before, es0, k) ==> damage_to(before, es0, k) == 0)
                    },
                    recorded(es0, es@, keep_enemies@, after, before, j as int),
                    *score == capped_score(*old(score) + kill_points(es0, es@, n as int)),
                    kill_points(es0, es@, n as int) >= 0,
                    particles@ == sparks0 + kill_sparks(ps@, es0, i as int, j as int),
                    sparks0 == pa0 + fire_sparks(ps@, es0, i as int) + burst(p.x, p.y),
                    0 <= i < ps@.len(),
                decreases n - j,
            {
                let ghost cur = es@;
                proof {
                    assert(cur[j as int] == hurt(before, es0, j as int));
                }
                if blast_reaches(&p, &es[j]) {
                    strike_enemy(es, j, EXPLOSION_DAMAGE, particles, score);
                    proof {
                        lemma_kill_points_update(es0, cur, j as int, es@[j as int], n as int);
                    }
                    if !es[j].is_alive() {
                        keep_enemies.set(j, false);
                    }
                }
                proof {
                    assert(after.take(i as int) =~= before);
                    assert(ps@.take(i as int) =~= before);
                    assert(particles@ =~= sparks0 + kill_sparks(ps@, es0, i as int, j + 1));
                    assert forall|k: int| 0 <= k < n implies {
                        let ps = if k < j + 1 {
                            after
                        } else {
                            before
                        };
                        &&& #[trigger] es@[k] == hurt(ps, es0, k)
                        &&& keep_enemies@[k] == !(struck(ps, es0, k) && es@[k].health == 0)
                    } by {
                        if k != j {
                            assert(es@[k] == cur[k]);
                        }
                    }
                }
                j = j + 1;
            }
            keep_shots.push(false);
            proof {
                assert(particles@ =~= pa0 + fire_sparks(ps@, es0, i + 1));
            }
        } else if p.owner == ProjectileOwner::Player {
            let mut j: usize = 0;
            while j < n && !point_in(p.x, p.y, es[j].x, es[j].y, es[j].get_width(), es[j].get_height())
                invariant
                    0 <= j <= n,
                    n == es0.len() == es@.len(),
                    recorded(es0, es@, keep_enemies@, before, before, 0),
                    forall|k: int| 0 <= k < j ==> !shot_hits(p, #[trigger] es0[k]),
                decreases n - j,
            {
                proof {
                    assert(es@[j as int] == hurt(before, es0, j as int));
                }
                j = j + 1;
            }
            if j < n {
                let ghost cur = es@;
                proof {
                    assert(cur[j as int] == hurt(before, es0, j as int));
                    assert(first_target(p, es0, j as int));
                    assert forall|k: int| 0 <= k < n && k != j implies !strikes(p, es0, k) by {
                        if k < j {
                        } else {
                            assert(!first_target(p, es0, k)) by {
                                assert(shot_hits(p, es0[j as int]));
                            }
                        }
                    }
                }
                strike_enemy(es, j, p.damage, particles, score);
                proof {
                    lemma_kill_points_update(es0, cur, j as int, es@[j as int], n as int);
                    lemma_kill_sparks_single(ps@, es0, i as int, j as int, n as int);
                    assert(particles@ =~= pa0 + fire_sparks(ps@, es0, i + 1));
                }
                if !es[j].is_alive() {
                    keep_enemies.set(j, false);
                }
                keep_shots.push(false);
                proof {
                    assert forall|k: int| 0 <= k < n implies {
                        &&& #[trigger] es@[k] == hurt(after, es0, k)
                        &&& keep_enemies@[k] == !(struck(after, es0, k) && es@[k].health == 0)
                    } by {
                        if k != j {
                            assert(es@[k] == cur[k]);
                        }
                    }
                    assert(recorded(es0, es@, keep_enemies@, after, after, 0));
                }
            } else {
                keep_shots.push(true);
                proof {
                    assert forall|k: int| 0 <= k < n implies !strikes(p, es0, k) by {
                        assert(!shot_hits(p, es0[k]));
                    }
                    assert(!spent_on_enemies(p, es0));
                    assert(recorded(es0, es@, keep_enemies@, after, after, 0));
                    lemma_kill_sparks_single(ps@, es0, i as int, -1, n as int);
                    assert(particles@ =~= pa0 + fire_sparks(ps@, es0, i + 1));
                }
            }
        } else {
            keep_shots.push(true);
            proof {
                assert(recorded(es0, es@, keep_enemies@, after, after, 0));
                lemma_kill_sparks_single(ps@, es0, i as int, -1, n as int);
                assert(particles@ =~= pa0 + fire_sparks(ps@, es0, i + 1));
            }
        }
        proof {
            assert(keep_shots@ =~= Seq::new((i + 1) as nat, |k: int| !spent_on_enemies(ps@[k], es0)));
        }
        i = i + 1;
    }
    proof {
        assert(ps@.take(ps@.len() as int) =~= ps@);
        assert(es@ =~= Seq::new(es0.len(), |j: int| hurt(ps@, es0, j)));
        assert(keep_enemies@ =~= Seq::new(
            es0.len(),
            |j: int| !(struck(ps@, es0, j) && es@[j].health == 0),
        ));
    }
    (keep_shots, keep_enemies)
}

pub(crate) proof fn lemma_ram_count_same_boxes(a: Seq<Enemy>, b: Seq<Enemy>, px: u16, py: u16)
    requires
        a.len() == b.len(),
        forall|j: int|
            0 <= j < a.len() ==> a[j].x == b[j].x && a[j].y == b[j].y && a[j].enemy_type
                == b[j].enemy_type,
    ensures
        ram_count(a, px, py) == ram_count(b, px, py),
        ram_count(a, px, py) >= 0,
    decreases a.len(),
{
    if a.len() > 0 {
        lemma_ram_count_same_boxes(a.drop_last(), b.drop_last(), px, py);
    }
}

pub(crate) proof fn lemma_shot_damage_nonneg(ps: Seq<Projectile>, px: u16, py: u16)
    ensures
        shot_damage_to_player(ps, px, py) >= 0,
    decreases ps.len(),
{
    if ps.len() > 0 {
        lemma_shot_damage_nonneg(ps.drop_last(), px, py);
    }
}

proof fn lemma_ram_sparks_same_boxes(a: Seq<Enemy>, b: Seq<Enemy>, px: u16, py: u16)
    requires
        a.len() == b.len(),
        forall|j: int|
            0 <= j < a.len() ==> a[j].x == b[j].x && a[j].y == b[j].y && a[j].enemy_type
                == b[j].enemy_type,
    ensures
        ram_sparks(a, px, py) == ram_sparks(b, px, py),
    decreases a.len(),
{
    if a.len() > 0 {
        lemma_ram_sparks_same_boxes(a.drop_last(), b.drop_last(), px, py);
    }
}

/// Enemy shots against the player.
fn resolve_enemy_fire(ps: &Vec<Projectile>, player: &mut Player, keep_shots: &mut Vec<bool>)
    requires
        old(keep_shots)@.len() == ps@.len(),
    ensures
        *final(player) == (Player {
            health: remaining(
                old(player).health as int,
                shot_damage_to_player(ps@, old(player).x, old(player).y),
            ) as u8,
            damage_flash_frames: if any_shot_hits_player(ps@, old(player).x, old(player).y) {
                HIT_FLASH_TICKS
            } else {
                old(player).damage_flash_frames
            },
            ..*old(player)
        }),
        final(keep_shots)@ == Seq::new(
            ps@.len(),
            |i: int| old(keep_shots)@[i] && !hits_player(ps@[i], old(player).x, old(player).y),
        ),
{
    let ghost p0 = *player;
    let ghost k0 = keep_shots@;
    let mut i: usize = 0;
    while i < ps.len()
        invariant
            0 <= i <= ps@.len(),
            k0 == old(keep_shots)@,
            p0 == *old(player),
            k0.len() == ps@.len(),
            shot_damage_to_player(ps@.take(i as int), p0.x, p0.y) >= 0,
            *player == (Player {
                health: remaining(
                    p0.health as int,
                    shot_damage_to_player(ps@.take(i as int), p0.x, p0.y),
                ) as u8,
                damage_flash_frames: if any_shot_hits_player(ps@.take(i as int), p0.x, p0.y) {
                    HIT_FLASH_TICKS
                } else {
                    p0.damage_flash_frames
                },
                ..p0
            }),
            keep_shots@ == Seq::new(
                ps@.len(),
                |k: int|
                    if k < i {
                        k0[k] && !hits_player(ps@[k], p0.x, p0.y)
                    } else {
                        k0[k]
                    },
            ),
        decreases ps@.len() - i,
    {
        proof {
            assert(ps@.take(i + 1).drop_last() =~= ps@.take(i as int));
        }
        let p = ps[i];
        if p.owner == ProjectileOwner::Enemy && point_in(
            p.x,
            p.y,
            player.x,
            player.y,
            player.get_width(),
            player.get_height(),
        ) {
            player.take_damage(p.damage);
            keep_shots.set(i, false);
        }
        proof {
            assert(keep_shots@ =~= Seq::new(
                ps@.len(),
                |k: int|
                    if k < i + 1 {
                        k0[k] && !hits_player(ps@[k], p0.x, p0.y)
                    } else {
                        k0[k]
                    },
            ));
        }
        i = i + 1;
    }
    proof {
        assert(ps@.take(ps@.len() as int) =~= ps@);
        assert(keep_shots@ =~= Seq::new(
            ps@.len(),
            |i: int| k0[i] && !hits_player(ps@[i], p0.x, p0.y),
        ));
    }
}

/// Enemies ramming the player: each one that overlaps the player bursts, hurts
/// the player, and is marked for removal.
fn resolve_ramming(
    es: &Vec<Enemy>,
    player: &mut Player,
    particles: &mut Vec<Particle>,
    keep_enemies: &mut Vec<bool>,
)
    requires
        old(keep_enemies)@.len() == es@.len(),
    ensures
        *final(player) == (Player {
            health: remaining(
                old(player).health as int,
                RAM_DAMAGE * ram_count(es@, old(player).x, old(player).y),
            ) as u8,
            damage_flash_frames: if ram_count(es@, old(player).x, old(player).y) > 0 {
                HIT_FLASH_TICKS
            } else {
                old(player).damage_flash_frames
            },
            ..*old(player)
        }),
        final(keep_enemies)@ == Seq::new(
            es@.len(),
            |j: int| old(keep_enemies)@[j] && !rams(es@[j], old(player).x, old(player).y),
        ),
        final(particles)@ == old(particles)@ + ram_sparks(es@, old(player).x, old(player).y),
{
    let ghost p0 = *player;
    let ghost k0 = keep_enemies@;
    let ghost pa0 = particles@;
    proof {
        assert(es@.take(0) =~= Seq::<Enemy>::empty());
        assert(particles@ =~= pa0 + ram_sparks(es@.take(0), p0.x, p0.y));
    }
    let mut j: usize = 0;
    while j < es.len()
        invariant
            0 <= j <= es@.len(),
            k0 == old(keep_enemies)@,
            p0 == *old(player),
            pa0 == old(particles)@,
            k0.len() == es@.len(),
            ram_count(es@.take(j as int), p0.x, p0.y) >= 0,
            *player == (Player {
                health: remaining(
                    p0.health as int,
                    RAM_DAMAGE * ram_count(es@.take(j as int), p0.x, p0.y),
                ) as u8,
                damage_flash_frames: if ram_count(es@.take(j as int), p0.x, p0.y) > 0 {
                    HIT_FLASH_TICKS
                } else {
                    p0.damage_flash_frames
                },
                ..p0
            }),
            keep_enemies@ == Seq::new(
                es@.len(),
                |k: int|
                    if k < j {
                        k0[k] && !rams(es@[k], p0.x, p0.y)
                    } else {
                        k0[k]
                    },
            ),
            particles@ == pa0 + ram_sparks(es@.take(j as int), p0.x, p0.y),
        decreases es@.len() - j,
    {
        proof {
            assert(es@.take(j + 1).drop_last() =~= es@.take(j as int));
        }
        let e = es[j];
        if overlap(
            e.x,
            e.y,
            e.get_width(),
            e.get_height(),
            player.x,
            player.y,
            player.get_width(),
            player.get_height(),
        ) {
            add_burst(particles, e.get_center_x(), e.get_center_y());
            player.take_damage(RAM_DAMAGE);
            keep_enemies.set(j, false);
        }
        proof {
            assert(particles@ =~= pa0 + ram_sparks(es@.take(j + 1), p0.x, p0.y));
        }
        proof {
            assert(keep_enemies@ =~= Seq::new(
                es@.len(),
                |k: int|
                    if k < j + 1 {
                        k0[k] && !rams(es@[k], p0.x, p0.y)
                    } else {
                        k0[k]
                    },
            ));
        }
        j = j + 1;
    }
    proof {
        assert(es@.take(es@.len() as int) =~= es@);
        assert(keep_enemies@ =~= Seq::new(
            es@.len(),
            |j: int| k0[j] && !rams(es@[j], p0.x, p0.y),
        ));
    }
}

/// The player passing over pickups: it takes the payload of each pickup it
/// overlaps, in order, and those pickups are removed.
fn collect_pickups(pickups: &mut Vec<Pickup>, player: &mut Player)
    ensures
        final(pickups)@ == kept(
            old(pickups)@,
            Seq::new(
                old(pickups)@.len(),
                |k: int| !grabs(old(pickups)@[k], old(player).x, old(player).y),
            ),
        ),
        *final(player) == (Player {
            current_weapon: weapon_after(
                old(pickups)@,
                old(player).x,
                old(player).y,
                old(player).current_weapon,
            ),
            ..*old(player)
        }),
{
    let ghost p0 = *player;
    let ghost ks = pickups@;
    let mut keep: Vec<bool> = Vec::new();
    let mut i: usize = 0;
    while i < pickups.len()
        invariant
            0 <= i <= ks.len(),
            ks == pickups@,
            ks == old(pickups)@,
            p0 == *old(player),
            *player == (Player {
                current_weapon: weapon_after(ks.take(i as int), p0.x, p0.y, p0.current_weapon),
                ..p0
            }),
            keep@ == Seq::new(i as nat, |k: int| !grabs(ks[k], p0.x, p0.y)),
        decreases ks.len() - i,
    {
        proof {
            assert(ks.take(i + 1).drop_last() =~= ks.take(i as int));
        }
        let k = pickups[i];
        let grabbed = overlap(
            k.x,
            k.y,
            k.get_width(),
            k.get_height(),
            player.x,
            player.y,
            player.get_width(),
            player.get_height(),
        );
        if grabbed {
            player.change_weapon(k.weapon_type);
        }
        keep.push(!grabbed);
        proof {
            assert(keep@ =~= Seq::new((i + 1) as nat, |k: int| !grabs(ks[k], p0.x, p0.y)));
        }
        i = i + 1;
    }
    proof {
        assert(ks.take(ks.len() as int) =~= ks);
    }
    prune(pickups, &keep);
}

/// Removes the enemies whose mark in `keep` is clear and carries every
/// formation's member list across the removal.
pub(crate) fn remove_enemies(es: &mut Vec<Enemy>, fs: &mut Vec<Formation>, keep: &Vec<bool>)
    requires
        keep@.len() == old(es)@.len(),
    ensures
        final(es)@ == kept(old(es)@, keep@),
        final(fs)@.len() == old(fs)@.len(),
        forall|f: int|
            0 <= f < old(fs)@.len() ==> (#[trigger] final(fs)@[f]).same_course(old(fs)@[f])
                && final(fs)@[f].enemy_indices@ == moved_indices(
                old(fs)@[f].enemy_indices@,
                keep@,
            ),
{
    prune(es, keep);
    let rank_of = ranks(keep);
    let mut f: usize = 0;
    while f < fs.len()
        invariant
            0 <= f <= fs@.len(),
            fs@.len() == old(fs)@.len(),
            rank_of@.len() == keep@.len(),
            forall|i: int| 0 <= i < rank_of@.len() ==> rank_of@[i] == crate::prune::rank(keep@, i),
            forall|g: int|
                0 <= g < fs@.len() ==> (#[trigger] fs@[g]).same_course(old(fs)@[g]) && fs@[g].enemy_indices@
                    == if g < f {
                    moved_indices(old(fs)@[g].enemy_indices@, keep@)
                } else {
                    old(fs)@[g].enemy_indices@
                },
        decreases fs@.len() - f,
    {
        let moved = move_indices(&fs[f].enemy_indices, keep, &rank_of);
        fs[f].enemy_indices = moved;
        f = f + 1;
    }
}

impl World {
    /// Whether this world is `w` after the collision pass: the surviving shots,
    /// the damaged enemies that survive, both in their order; formations with
    /// their member lists carried across; the pickups not taken; the player
    /// after every hit and pickup; the score with the points of the destroyed;
    /// and the bursts of every explosion, destruction and ramming, in order.
    pub open spec fn collided(&self, w: World) -> bool {
        &&& self.projectiles@ == kept(w.projectiles@, w.shot_survives())
        &&& self.enemies@ == kept(w.hurt_enemies(), w.enemy_survives())
        &&& self.formations@.len() == w.formations@.len()
        &&& forall|f: int|
            0 <= f < w.formations@.len() ==> (#[trigger] self.formations@[f]).same_course(
                w.formations@[f],
            ) && self.formations@[f].enemy_indices@ == moved_indices(
                w.formations@[f].enemy_indices@,
                w.enemy_survives(),
            )
        &&& self.pickups@ == kept(w.pickups@, w.pickup_stays())
        &&& self.player == w.player_after_collisions()
        &&& self.score == w.score_after_collisions()
        &&& self.particles@ == w.particles@ + fire_sparks(
            w.projectiles@,
            w.enemies@,
            w.projectiles@.len() as int,
        ) + ram_sparks(w.enemies@, w.player.x, w.player.y)
        &&& *self == (World {
            projectiles: self.projectiles,
            enemies: self.enemies,
            formations: self.formations,
            pickups: self.pickups,
            player: self.player,
            score: self.score,
            particles: self.particles,
            ..w
        })
    }

    /// Resolves every collision of the tick, in order: the player's shots against
    /// the enemies (explosions first hit everything in their radius, other shots
    /// the first enemy they overlap), enemy shots against the player, enemies
    /// ramming the player; then removes the spent shots and destroyed enemies,
    /// keeping the order of the rest; last, the player takes the pickups it
    /// overlaps.
    pub fn check_collisions(&mut self)
        ensures
            final(self).collided(*old(self)),
            old(self).on_screen() ==> final(self).on_screen(),
            old(self).player_shots_in_play_or_due() ==> final(self).player_shots_in_play(),
            old(self).wf() ==> final(self).wf(),
            old(self).followers_placed() ==> final(self).followers_placed(),
    {
        let ghost w0 = *self;
        let (mut keep_shots, mut keep_enemies) = resolve_player_fire(
            &self.projectiles,
            &mut self.enemies,
            &mut self.particles,
            &mut self.score,
        );
        let ghost hurt_seq = self.enemies@;
        resolve_enemy_fire(&self.projectiles, &mut self.player, &mut keep_shots);
        resolve_ramming(&self.enemies, &mut self.player, &mut self.particles, &mut keep_enemies);
        prune(&mut self.projectiles, &keep_shots);
        remove_enemies(&mut self.enemies, &mut self.formations, &keep_enemies);
        collect_pickups(&mut self.pickups, &mut self.player);
        proof {
            assert(hurt_seq =~= w0.hurt_enemies());
            lemma_ram_count_same_boxes(hurt_seq, w0.enemies@, w0.player.x, w0.player.y);
            lemma_shot_damage_nonneg(w0.projectiles@, w0.player.x, w0.player.y);
            assert(self.player == w0.player_after_collisions());
            assert(keep_shots@ =~= w0.shot_survives());
            assert(keep_enemies@ =~= w0.enemy_survives());
            lemma_ram_sparks_same_boxes(hurt_seq, w0.enemies@, w0.player.x, w0.player.y);
            if w0.wf() {
                assert forall|f: int| 0 <= f < self.formations@.len() implies (
                #[trigger] self.formations@[f]).wf() by {
                    assert(self.formations@[f].same_course(w0.formations@[f]));
                }
            }
            lemma_pruning_keeps_survivors(hurt_seq, keep_enemies@);
            lemma_pruning_keeps_survivors(w0.projectiles@, keep_shots@);
            lemma_pruning_keeps_survivors(w0.pickups@, w0.pickup_stays());
            if w0.on_screen() {
                assert forall|r: int| 0 <= r < self.enemies@.len() implies (
                #[trigger] self.enemies@[r]).y < self.screen_height by {
                    assert(from_survivor(hurt_seq, keep_enemies@, r));
                }
                assert forall|f: int| 0 <= f < self.formations@.len() implies (
                #[trigger] self.formations@[f]).center_y < self.screen_height by {
                    assert(self.formations@[f].same_course(w0.formations@[f]));
                }
                assert forall|k: int| 0 <= k < self.pickups@.len() implies (
                #[trigger] self.pickups@[k]).y < self.screen_height by {
                    assert(from_survivor(w0.pickups@, w0.pickup_stays(), k));
                }
            }
            if w0.player_shots_in_play_or_due() {
                assert forall|r: int|
                    0 <= r < self.projectiles@.len() && (#[trigger] self.projectiles@[r]).owner
                        == ProjectileOwner::Player implies !self.projectiles@[r].gone(
                    0,
                    self.lane(),
                    self.screen_height,
                ) by {
                    assert(from_survivor(w0.projectiles@, keep_shots@, r));
                    let i = choose|i: int|
                        0 <= i < w0.projectiles@.len() && keep_shots@[i] && rank(keep_shots@, i) == r
                            && kept(w0.projectiles@, keep_shots@)[r] == w0.projectiles@[i];
                    assert(!spent_on_enemies(w0.projectiles@[i], w0.enemies@));
                }
            }
            if w0.followers_placed() {
                assert forall|r: int| 0 <= r < self.enemies@.len() implies match (
                #[trigger] self.enemies@[r]).formation_id {
                    Some(f) => f < self.formations@.len() && self.enemies@[r].placed_at(
                        self.formations@[f as int].center_x,
                        self.formations@[f as int].center_y,
                    ),
                    None => true,
                } by {
                    assert(from_survivor(hurt_seq, keep_enemies@, r));
                    let i = choose|i: int|
                        0 <= i < hurt_seq.len() && keep_enemies@[i] && crate::prune::rank(
                            keep_enemies@,
                            i,
                        ) == r && kept(hurt_seq, keep_enemies@)[r] == hurt_seq[i];
                    assert(self.enemies@[r] == hurt_seq[i]);
                    if let Some(f) = w0.enemies@[i].formation_id {
                        assert(self.formations@[f as int].same_course(w0.formations@[f as int]));
                    }
                }
            }
        }
    }
}

proof fn lemma_strike_counts(ps: Seq<Projectile>, es: Seq<Enemy>, i: int, j: int)
    requires
        0 <= i < ps.len(),
    ensures
        damage_to(ps, es, j) >= strike_damage(ps[i], es, j),
        strikes(ps[i], es, j) ==> struck(ps, es, j),
    decreases ps.len(),
{
    lemma_damage_nonneg(ps.drop_last(), es, j);
    if i < ps.len() - 1 {
        lemma_strike_counts(ps.drop_last(), es, i, j);
    }
}

/// A player's bomb whose lifetime has reached zero explodes: every enemy within
/// the radius, the boundary included, is struck for the explosion's damage, so
/// its health after the tick's collisions is at most its health less that
/// damage (never below zero); and the bomb itself is removed in the same pass.
pub proof fn lemma_detonation_reaches_radius(w: World, i: int, j: int)
    requires
        0 <= i < w.projectiles@.len(),
        w.projectiles@[i].detonates(),
        0 <= j < w.enemies@.len(),
        in_blast(w.projectiles@[i], w.enemies@[j]),
    ensures
        struck(w.projectiles@, w.enemies@, j),
        damage_to(w.projectiles@, w.enemies@, j) >= EXPLOSION_DAMAGE,
        w.hurt_enemies()[j].health <= remaining(w.enemies@[j].health as int, EXPLOSION_DAMAGE as int),
        !w.shot_survives()[i],
{
    lemma_strike_counts(w.projectiles@, w.enemies@, i, j);
}

/// Collisions remove spent shots and destroyed enemies without disturbing the
/// rest: each surviving shot and each surviving enemy lands at its rank among
/// the survivors, survivors keep their relative order, and every place of the
/// pruned collections holds a survivor.
pub proof fn lemma_collisions_keep_survivor_order(w: World)
    ensures
        forall|i: int|
            #![trigger rank(w.shot_survives(), i)]
            0 <= i < w.projectiles@.len() && w.shot_survives()[i] ==> kept(
                w.projectiles@,
                w.shot_survives(),
            )[rank(w.shot_survives(), i) as int] == w.projectiles@[i],
        forall|i: int, j: int|
            0 <= i < j < w.projectiles@.len() && w.shot_survives()[i] && w.shot_survives()[j]
                ==> #[trigger] rank(w.shot_survives(), i) < #[trigger] rank(w.shot_survives(), j),
        forall|r: int|
            0 <= r < kept(w.projectiles@, w.shot_survives()).len() ==> #[trigger] from_survivor(
                w.projectiles@,
                w.shot_survives(),
                r,
            ),
        forall|i: int|
            #![trigger rank(w.enemy_survives(), i)]
            0 <= i < w.enemies@.len() && w.enemy_survives()[i] ==> kept(
                w.hurt_enemies(),
                w.enemy_survives(),
            )[rank(w.enemy_survives(), i) as int] == w.hurt_enemies()[i],
        forall|i: int, j: int|
            0 <= i < j < w.enemies@.len() && w.enemy_survives()[i] && w.enemy_survives()[j]
                ==> #[trigger] rank(w.enemy_survives(), i) < #[trigger] rank(w.enemy_survives(), j),
        forall|r: int|
            0 <= r < kept(w.hurt_enemies(), w.enemy_survives()).len() ==> #[trigger] from_survivor(
                w.hurt_enemies(),
                w.enemy_survives(),
                r,
            ),
{
    lemma_pruning_keeps_survivors(w.projectiles@, w.shot_survives());
    lemma_pruning_keeps_survivors(w.hurt_enemies(), w.enemy_survives());
}

proof fn lemma_last_grab_wins(ks: Seq<Pickup>, px: u16, py: u16, w: WeaponType, k: int)
    requires
        0 <= k < ks.len(),
        grabs(ks[k], px, py),
        forall|m: int| k < m < ks.len() ==> !grabs(#[trigger] ks[m], px, py),
    ensures
        weapon_after(ks, px, py, w) == ks[k].weapon_type,
    decreases ks.len(),
{
    if k < ks.len() - 1 {
        assert(!grabs(ks[ks.len() - 1], px, py));
        lemma_last_grab_wins(ks.drop_last(), px, py, w, k);
    }
}

/// Whether place `r` of the pickups left after collisions holds a pickup other
/// than the `k`-th, one that did not overlap the player.
pub open spec fn left_by_player(w: World, k: int, r: int) -> bool {
    exists|i: int|
        0 <= i < w.pickups@.len() && i != k && !grabs(w.pickups@[i], w.player.x, w.player.y)
            && kept(w.pickups@, w.pickup_stays())[r] == w.pickups@[i]
}

/// A pickup that overlaps the player, with no later pickup overlapping it too,
/// gives the player its weapon in the same pass, and is gone afterwards: every
/// pickup left is one that did not overlap the player.
pub proof fn lemma_pickup_changes_weapon(w: World, k: int)
    requires
        0 <= k < w.pickups@.len(),
        grabs(w.pickups@[k], w.player.x, w.player.y),
        forall|m: int|
            k < m < w.pickups@.len() ==> !grabs(#[trigger] w.pickups@[m], w.player.x, w.player.y),
    ensures
        w.player_after_collisions().current_weapon == w.pickups@[k].weapon_type,
        !w.pickup_stays()[k],
        forall|r: int|
            0 <= r < kept(w.pickups@, w.pickup_stays()).len() ==> #[trigger] left_by_player(w, k, r),
{
    lemma_last_grab_wins(w.pickups@, w.player.x, w.player.y, w.player.current_weapon, k);
    lemma_pruning_keeps_survivors(w.pickups@, w.pickup_stays());
    assert forall|r: int| 0 <= r < kept(w.pickups@, w.pickup_stays()).len() implies #[trigger] left_by_player(
        w,
        k,
        r,
    ) by {
        assert(from_survivor(w.pickups@, w.pickup_stays(), r));
    }
}

} // verus!
