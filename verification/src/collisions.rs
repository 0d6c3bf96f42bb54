//! Collision and combat resolution: once per tick, every projectile is
//! matched against the live (non-Dead) enemies; the first overlapping enemy
//! consumes the projectile and takes its damage.
//!
//! A projectile hits at most one enemy and is despawned by the hit, while
//! one enemy may be hit by several projectiles in the same tick.

use vstd::prelude::*;

use crate::enemy::{Enemy, EnemyState, ENEMY_HURTBOX_H, ENEMY_HURTBOX_W};
use crate::geometry::{boxes_overlap, overlaps, BoxSize};
use crate::projectile::{Projectile, PROJECTILE_HITBOX_H, PROJECTILE_HITBOX_W};
use crate::registry::{EnemySlot, ProjectileSlot};

verus! {

/// A projectile hits an enemy when the enemy is not dead and the 100 x 50
/// hitbox around the projectile overlaps the 57.5 x 82.5 hurtbox around the
/// enemy.
pub open spec fn projectile_hits(e: Enemy, p: Projectile) -> bool {
    &&& !(e.state is Dead)
    &&& boxes_overlap(
        e.pos,
        BoxSize { w: ENEMY_HURTBOX_W, h: ENEMY_HURTBOX_H },
        p.pos,
        BoxSize { w: PROJECTILE_HITBOX_W, h: PROJECTILE_HITBOX_H },
    )
}

/// Index of the first enemy at or after `i` that `p` hits, or `es.len()`
/// when it hits none.
pub open spec fn first_target_from(es: Seq<EnemySlot>, p: Projectile, i: int) -> int
    decreases es.len() - i,
{
    if i < 0 || i >= es.len() {
        es.len() as int
    } else if projectile_hits(es[i].enemy, p) {
        i
    } else {
        first_target_from(es, p, i + 1)
    }
}

pub open spec fn first_target(es: Seq<EnemySlot>, p: Projectile) -> int {
    first_target_from(es, p, 0)
}

pub proof fn lemma_first_target_from(es: Seq<EnemySlot>, p: Projectile, i: int)
    requires
        0 <= i <= es.len(),
    ensures
        i <= first_target_from(es, p, i) <= es.len(),
        first_target_from(es, p, i) < es.len() ==> projectile_hits(
            es[first_target_from(es, p, i)].enemy,
            p,
        ),
        forall|j: int| i <= j < first_target_from(es, p, i) ==> !projectile_hits(es[j].enemy, p),
    decreases es.len() - i,
{
    if i < es.len() && !projectile_hits(es[i].enemy, p) {
        lemma_first_target_from(es, p, i + 1);
    }
}

/// The enemy slot at `t` after taking the hit of `p`.
pub open spec fn damaged_slot(es: Seq<EnemySlot>, t: int, p: Projectile) -> EnemySlot {
    EnemySlot { handle: es[t].handle, enemy: es[t].enemy.spec_damaged(p.damage) }
}

/// One full resolution pass: projectiles are considered front to back; each
/// one either damages the first enemy it hits and is consumed, or survives.
/// The result is the enemies after all hits and the surviving projectiles in
/// their original order.
pub open spec fn resolve_spec(es: Seq<EnemySlot>, ps: Seq<ProjectileSlot>) -> (Seq<EnemySlot>, Seq<
    ProjectileSlot,
>)
    decreases ps.len(),
{
    if ps.len() == 0 {
        (es, ps)
    } else {
        let t = first_target(es, ps[0].projectile);
        if t < es.len() {
            resolve_spec(es.update(t, damaged_slot(es, t, ps[0].projectile)), ps.drop_first())
        } else {
            let r = resolve_spec(es, ps.drop_first());
            (r.0, seq![ps[0]] + r.1)
        }
    }
}

/// Resolution touches no enemy field except health, which never rises, and
/// keeps count and order; well-formedness survives the pass.
pub proof fn lemma_resolve_enemies(es: Seq<EnemySlot>, ps: Seq<ProjectileSlot>)
    requires
        forall|j: int| 0 <= j < ps.len() ==> (#[trigger] ps[j]).projectile.damage >= 0,
        forall|i: int| 0 <= i < es.len() ==> (#[trigger] es[i]).enemy.health >= 0,
    ensures
        resolve_spec(es, ps).0.len() == es.len(),
        forall|i: int|
            0 <= i < es.len() ==> {
                let r = #[trigger] resolve_spec(es, ps).0[i];
                &&& r.handle == es[i].handle
                &&& r.enemy.pos == es[i].enemy.pos
                &&& r.enemy.speed == es[i].enemy.speed
                &&& r.enemy.state == es[i].enemy.state
                &&& 0 <= r.enemy.health <= es[i].enemy.health
                &&& (es[i].enemy.wf() ==> r.enemy.wf())
            },
    decreases ps.len(),
{
    if ps.len() > 0 {
        let rest = ps.drop_first();
        assert(forall|j: int| 0 <= j < rest.len() ==> rest[j] == ps[j + 1]);
        lemma_first_target_from(es, ps[0].projectile, 0);
        let t = first_target(es, ps[0].projectile);
        if t < es.len() {
            let es1 = es.update(t, damaged_slot(es, t, ps[0].projectile));
            lemma_resolve_enemies(es1, rest);
            assert forall|i: int| 0 <= i < es.len() implies {
                let r = #[trigger] resolve_spec(es, ps).0[i];
                &&& r.handle == es[i].handle
                &&& r.enemy.pos == es[i].enemy.pos
                &&& r.enemy.speed == es[i].enemy.speed
                &&& r.enemy.state == es[i].enemy.state
                &&& 0 <= r.enemy.health <= es[i].enemy.health
                &&& (es[i].enemy.wf() ==> r.enemy.wf())
            } by {
                assert(resolve_spec(es, ps).0 == resolve_spec(es1, rest).0);
                if i != t {
                    assert(es1[i] == es[i]);
                }
            }
        } else {
            lemma_resolve_enemies(es, rest);
        }
    }
}

/// Every surviving projectile is one of the incoming projectiles.
pub proof fn lemma_resolve_projectiles(es: Seq<EnemySlot>, ps: Seq<ProjectileSlot>)
    ensures
        resolve_spec(es, ps).1.len() <= ps.len(),
        forall|j: int|
            0 <= j < resolve_spec(es, ps).1.len() ==> ps.contains(
                #[trigger] resolve_spec(es, ps).1[j],
            ),
    decreases ps.len(),
{
    if ps.len() > 0 {
        lemma_first_target_from(es, ps[0].projectile, 0);
        let t = first_target(es, ps[0].projectile);
        if t < es.len() {
            let es1 = es.update(t, damaged_slot(es, t, ps[0].projectile));
            lemma_resolve_projectiles(es1, ps.drop_first());
            assert forall|j: int| 0 <= j < resolve_spec(es, ps).1.len() implies ps.contains(
                #[trigger] resolve_spec(es, ps).1[j],
            ) by {
                assert(ps.drop_first().contains(resolve_spec(es, ps).1[j]));
                let k = choose|k: int|
                    0 <= k < ps.drop_first().len() && ps.drop_first()[k] == resolve_spec(
                        es,
                        ps,
                    ).1[j];
                assert(ps[k + 1] == resolve_spec(es, ps).1[j]);
            }
        } else {
            lemma_resolve_projectiles(es, ps.drop_first());
            assert forall|j: int| 0 <= j < resolve_spec(es, ps).1.len() implies ps.contains(
                #[trigger] resolve_spec(es, ps).1[j],
            ) by {
                if j == 0 {
                    assert(ps[0] == resolve_spec(es, ps).1[0]);
                } else {
                    let r1 = resolve_spec(es, ps.drop_first()).1;
                    assert(resolve_spec(es, ps).1[j] == r1[j - 1]);
                    assert(ps.drop_first().contains(r1[j - 1]));
                    let k = choose|k: int|
                        0 <= k < ps.drop_first().len() && ps.drop_first()[k] == r1[j - 1];
                    assert(ps[k + 1] == r1[j - 1]);
                }
            }
        }
    }
}

/// Resolution keeps the surviving projectiles' handles pairwise distinct.
pub proof fn lemma_resolve_projectiles_distinct(es: Seq<EnemySlot>, ps: Seq<ProjectileSlot>)
    requires
        forall|i: int, j: int|
            0 <= i < j < ps.len() ==> (#[trigger] ps[i]).handle != (#[trigger] ps[j]).handle,
    ensures
        forall|i: int, j: int|
            0 <= i < j < resolve_spec(es, ps).1.len() ==> (#[trigger] resolve_spec(
                es,
                ps,
            ).1[i]).handle != (#[trigger] resolve_spec(es, ps).1[j]).handle,
    decreases ps.len(),
{
    if ps.len() > 0 {
        let rest = ps.drop_first();
        assert(forall|k: int| 0 <= k < rest.len() ==> rest[k] == ps[k + 1]);
        lemma_first_target_from(es, ps[0].projectile, 0);
        let t = first_target(es, ps[0].projectile);
        if t < es.len() {
            let es1 = es.update(t, damaged_slot(es, t, ps[0].projectile));
            lemma_resolve_projectiles_distinct(es1, rest);
            assert(resolve_spec(es, ps).1 == resolve_spec(es1, rest).1);
        } else {
            lemma_resolve_projectiles_distinct(es, rest);
            lemma_resolve_projectiles(es, rest);
            let r = resolve_spec(es, ps).1;
            let r1 = resolve_spec(es, rest).1;
            assert forall|i: int, j: int| 0 <= i < j < r.len() implies (#[trigger] r[i]).handle != (
            #[trigger] r[j]).handle by {
                if i == 0 {
                    assert(r[j] == r1[j - 1]);
                    assert(rest.contains(r1[j - 1]));
                    let k = choose|k: int| 0 <= k < rest.len() && rest[k] == r1[j - 1];
                    assert(ps[k + 1] == r[j]);
                } else {
                    assert(r[i] == r1[i - 1]);
                    assert(r[j] == r1[j - 1]);
                }
            }
        }
    }
}

/// Index of the first live enemy the projectile overlaps, or the enemy
/// count when there is none.
fn first_target_index(enemies: &Vec<EnemySlot>, p: &Projectile) -> (t: usize)
    requires
        forall|i: int| 0 <= i < enemies@.len() ==> (#[trigger] enemies@[i]).enemy.wf(),
        p.wf(),
    ensures
        t as int == first_target(enemies@, *p),
{
    proof {
        lemma_first_target_from(enemies@, *p, 0);
    }
    let n = enemies.len();
    let mut i: usize = 0;
    while i < n
        invariant
            0 <= i <= n,
            n == enemies@.len(),
            forall|i2: int| 0 <= i2 < enemies@.len() ==> (#[trigger] enemies@[i2]).enemy.wf(),
            p.wf(),
            forall|j: int| 0 <= j < i ==> !projectile_hits(enemies@[j].enemy, *p),
        decreases n - i,
    {
        let e = &enemies[i];
        let live = !matches!(e.enemy.state, EnemyState::Dead);
        if live && overlaps(e.enemy.pos, Enemy::get_hurtbox(), p.pos, Projectile::get_hitbox()) {
            proof {
                lemma_first_target_from(enemies@, *p, 0);
            }
            return i;
        }
        i = i + 1;
    }
    n
}

/// One resolution pass over the registry's vectors: damages the first enemy
/// each projectile overlaps and keeps only the surviving projectiles.
pub fn resolve_collisions(enemies: &mut Vec<EnemySlot>, projectiles: &mut Vec<ProjectileSlot>)
    requires
        forall|i: int| 0 <= i < old(enemies)@.len() ==> (#[trigger] old(enemies)@[i]).enemy.wf(),
        forall|j: int|
            0 <= j < old(projectiles)@.len() ==> (#[trigger] old(projectiles)@[j]).projectile.wf(),
    ensures
        final(enemies)@ == resolve_spec(old(enemies)@, old(projectiles)@).0,
        final(projectiles)@ == resolve_spec(old(enemies)@, old(projectiles)@).1,
{
    let ghost orig_es = enemies@;
    let ghost orig_ps = projectiles@;
    let mut kept: Vec<ProjectileSlot> = Vec::new();
    let n = projectiles.len();
    let mut i: usize = 0;
    proof {
        assert(orig_ps.skip(0) =~= orig_ps);
        assert(kept@ + resolve_spec(enemies@, orig_ps.skip(0)).1 =~= resolve_spec(
            enemies@,
            orig_ps.skip(0),
        ).1);
    }
    while i < n
        invariant
            0 <= i <= n,
            n == orig_ps.len(),
            projectiles@ == orig_ps,
            forall|i2: int| 0 <= i2 < enemies@.len() ==> (#[trigger] enemies@[i2]).enemy.wf(),
            forall|j: int| 0 <= j < orig_ps.len() ==> (#[trigger] orig_ps[j]).projectile.wf(),
            resolve_spec(orig_es, orig_ps).0 == resolve_spec(enemies@, orig_ps.skip(i as int)).0,
            resolve_spec(orig_es, orig_ps).1 == kept@ + resolve_spec(
                enemies@,
                orig_ps.skip(i as int),
            ).1,
        decreases n - i,
    {
        let ghost pre_es = enemies@;
        let ghost rem = orig_ps.skip(i as int);
        proof {
            assert(rem[0] == orig_ps[i as int]);
            assert(rem.drop_first() =~= orig_ps.skip(i + 1));
        }
        let slot = projectiles[i];
        let t = first_target_index(enemies, &slot.projectile);
        if t < enemies.len() {
            let target = enemies[t];
            let mut hit_enemy = target.enemy;
            hit_enemy.apply_damage(slot.projectile.damage);
            enemies.set(t, EnemySlot { handle: target.handle, enemy: hit_enemy });
            proof {
                assert(enemies@ =~= pre_es.update(
                    t as int,
                    damaged_slot(pre_es, t as int, rem[0].projectile),
                ));
            }
        } else {
            let ghost pre_kept = kept@;
            kept.push(slot);
            proof {
                let r = resolve_spec(enemies@, rem.drop_first());
                assert(resolve_spec(enemies@, rem).1 == seq![rem[0]] + r.1);
                assert((kept@ + r.1) =~= (pre_kept + (seq![rem[0]] + r.1)));
            }
        }
        i = i + 1;
    }
    proof {
        assert(orig_ps.skip(n as int) =~= Seq::<ProjectileSlot>::empty());
        assert(resolve_spec(enemies@, orig_ps.skip(n as int)).1 =~= Seq::<
            ProjectileSlot,
        >::empty());
        assert(kept@ + Seq::<ProjectileSlot>::empty() =~= kept@);
    }
    *projectiles = kept;
}

} // verus!
