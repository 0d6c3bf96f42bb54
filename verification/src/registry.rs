//! The entity registry: owns every live enemy and projectile under an
//! opaque handle, and supports spawning, lookup, iteration and despawning.
//!
//! Handles are never reused: a fresh id is drawn from a counter for each
//! spawn, so a stale handle can only miss, never alias a newer entity.
//! Operating on a despawned handle is a tolerated no-op.

use vstd::prelude::*;

use crate::enemy::{Enemy, ENEMY_X_LIMIT};
use crate::geometry::{pos_in_field, Pos, COORD_LIMIT};
use crate::projectile::{Projectile, FIELD_LEFT};

verus! {

/// An opaque identity for one live entity.
#[derive(Clone, Copy, PartialEq, Eq, Structural, Debug)]
pub struct Handle {
    pub id: u64,
}

/// One live enemy together with its handle.
#[derive(Clone, Copy, PartialEq, Eq, Structural, Debug)]
pub struct EnemySlot {
    pub handle: Handle,
    pub enemy: Enemy,
}

/// One live projectile together with its handle.
#[derive(Clone, Copy, PartialEq, Eq, Structural, Debug)]
pub struct ProjectileSlot {
    pub handle: Handle,
    pub projectile: Projectile,
}

/// Index of the first slot carrying `h`, or `es.len()` when none does.
pub open spec fn find_enemy_from(es: Seq<EnemySlot>, h: Handle, i: int) -> int
    decreases es.len() - i,
{
    if i < 0 || i >= es.len() {
        es.len() as int
    } else if es[i].handle == h {
        i
    } else {
        find_enemy_from(es, h, i + 1)
    }
}

pub open spec fn find_enemy(es: Seq<EnemySlot>, h: Handle) -> int {
    find_enemy_from(es, h, 0)
}

/// Index of the first slot carrying `h`, or `ps.len()` when none does.
pub open spec fn find_projectile_from(ps: Seq<ProjectileSlot>, h: Handle, i: int) -> int
    decreases ps.len() - i,
{
    if i < 0 || i >= ps.len() {
        ps.len() as int
    } else if ps[i].handle == h {
        i
    } else {
        find_projectile_from(ps, h, i + 1)
    }
}

pub open spec fn find_projectile(ps: Seq<ProjectileSlot>, h: Handle) -> int {
    find_projectile_from(ps, h, 0)
}

/// `find_enemy_from` lands on a slot carrying `h` whenever one exists at or
/// after `i`, and on `es.len()` otherwise.
pub proof fn lemma_find_enemy_from(es: Seq<EnemySlot>, h: Handle, i: int)
    requires
        0 <= i <= es.len(),
    ensures
        i <= find_enemy_from(es, h, i) <= es.len(),
        find_enemy_from(es, h, i) < es.len() ==> es[find_enemy_from(es, h, i)].handle == h,
        forall|j: int| i <= j < find_enemy_from(es, h, i) ==> es[j].handle != h,
    decreases es.len() - i,
{
    if i < es.len() && es[i].handle != h {
        lemma_find_enemy_from(es, h, i + 1);
    }
}

pub proof fn lemma_find_projectile_from(ps: Seq<ProjectileSlot>, h: Handle, i: int)
    requires
        0 <= i <= ps.len(),
    ensures
        i <= find_projectile_from(ps, h, i) <= ps.len(),
        find_projectile_from(ps, h, i) < ps.len() ==> ps[find_projectile_from(ps, h, i)].handle
            == h,
        forall|j: int| i <= j < find_projectile_from(ps, h, i) ==> ps[j].handle != h,
    decreases ps.len() - i,
{
    if i < ps.len() && ps[i].handle != h {
        lemma_find_projectile_from(ps, h, i + 1);
    }
}

pub struct Registry {
    pub enemies: Vec<EnemySlot>,
    pub projectiles: Vec<ProjectileSlot>,
    pub next_id: u64,
}

impl Registry {
    /// Every entity is well formed, every live projectile is still inside
    /// the field, every id was drawn from the counter, and no two slots
    /// share an id.
    pub open spec fn wf(self) -> bool {
        &&& forall|i: int|
            0 <= i < self.enemies@.len() ==> (#[trigger] self.enemies@[i]).enemy.wf()
                && self.enemies@[i].handle.id < self.next_id
        &&& forall|i: int|
            0 <= i < self.projectiles@.len() ==> (#[trigger] self.projectiles@[i]).projectile.wf()
                && self.projectiles@[i].projectile.pos.x >= FIELD_LEFT
                && self.projectiles@[i].handle.id < self.next_id
        &&& forall|i: int, j: int|
            0 <= i < j < self.enemies@.len() ==> (#[trigger] self.enemies@[i]).handle != (
            #[trigger] self.enemies@[j]).handle
        &&& forall|i: int, j: int|
            0 <= i < j < self.projectiles@.len() ==> (#[trigger] self.projectiles@[i]).handle != (
            #[trigger] self.projectiles@[j]).handle
        &&& forall|i: int, j: int|
            0 <= i < self.enemies@.len() && 0 <= j < self.projectiles@.len() ==> (
            #[trigger] self.enemies@[i]).handle != (#[trigger] self.projectiles@[j]).handle
    }

    /// An empty registry.
    pub fn new() -> (r: Registry)
        ensures
            r.enemies@ =~= Seq::<EnemySlot>::empty(),
            r.projectiles@ =~= Seq::<ProjectileSlot>::empty(),
            r.next_id == 0,
            r.wf(),
    {
        Registry { enemies: Vec::new(), projectiles: Vec::new(), next_id: 0 }
    }

    pub fn enemy_count(&self) -> (n: usize)
        ensures
            n == self.enemies@.len(),
    {
        self.enemies.len()
    }

    pub fn projectile_count(&self) -> (n: usize)
        ensures
            n == self.projectiles@.len(),
    {
        self.projectiles.len()
    }

    /// Spawns a fresh walking enemy at `pos` and hands back its handle.
    pub fn spawn_enemy(&mut self, pos: Pos) -> (h: Handle)
        requires
            old(self).wf(),
            old(self).next_id < u64::MAX,
            -COORD_LIMIT <= pos.x <= ENEMY_X_LIMIT,
            -COORD_LIMIT <= pos.y <= COORD_LIMIT,
        ensures
            h.id == old(self).next_id,
            final(self).enemies@ == old(self).enemies@.push(
                EnemySlot { handle: h, enemy: Enemy::spec_spawned_at(pos) },
            ),
            final(self).projectiles@ == old(self).projectiles@,
            final(self).next_id == old(self).next_id + 1,
            final(self).wf(),
    {
        let h = Handle { id: self.next_id };
        self.enemies.push(EnemySlot { handle: h, enemy: Enemy::spawned_at(pos) });
        self.next_id = self.next_id + 1;
        h
    }

    /// Spawns a fresh projectile at `pos` and hands back its handle.
    pub fn spawn_projectile(&mut self, pos: Pos) -> (h: Handle)
        requires
            old(self).wf(),
            old(self).next_id < u64::MAX,
            pos_in_field(pos),
            pos.x >= FIELD_LEFT,
        ensures
            h.id == old(self).next_id,
            final(self).projectiles@ == old(self).projectiles@.push(
                ProjectileSlot { handle: h, projectile: Projectile::spec_spawned_at(pos) },
            ),
            final(self).enemies@ == old(self).enemies@,
            final(self).next_id == old(self).next_id + 1,
            final(self).wf(),
    {
        let h = Handle { id: self.next_id };
        self.projectiles.push(ProjectileSlot { handle: h, projectile: Projectile::spawned_at(pos) });
        self.next_id = self.next_id + 1;
        h
    }

    /// Looks the handle up among the enemies.
    pub fn get_enemy(&self, h: Handle) -> (r: Option<Enemy>)
        ensures
            r matches Some(e) ==> find_enemy(self.enemies@, h) < self.enemies@.len() && e
                == self.enemies@[find_enemy(self.enemies@, h)].enemy,
            r is None ==> find_enemy(self.enemies@, h) == self.enemies@.len(),
    {
        proof {
            lemma_find_enemy_from(self.enemies@, h, 0);
        }
        let i = self.index_of_enemy(h);
        if i < self.enemies.len() {
            Some(self.enemies[i].enemy)
        } else {
            None
        }
    }

    /// Looks the handle up among the projectiles.
    pub fn get_projectile(&self, h: Handle) -> (r: Option<Projectile>)
        ensures
            r matches Some(p) ==> find_projectile(self.projectiles@, h) < self.projectiles@.len()
                && p == self.projectiles@[find_projectile(self.projectiles@, h)].projectile,
            r is None ==> find_projectile(self.projectiles@, h) == self.projectiles@.len(),
    {
        proof {
            lemma_find_projectile_from(self.projectiles@, h, 0);
        }
        let i = self.index_of_projectile(h);
        if i < self.projectiles.len() {
            Some(self.projectiles[i].projectile)
        } else {
            None
        }
    }

    /// A snapshot of the live enemies, in registry order, for rendering and
    /// HUD collaborators.
    pub fn iterate_enemies(&self) -> (v: Vec<EnemySlot>)
        ensures
            v@ == self.enemies@,
    {
        let n = self.enemies.len();
        let mut v: Vec<EnemySlot> = Vec::new();
        let mut i: usize = 0;
        while i < n
            invariant
                0 <= i <= n,
                n == self.enemies@.len(),
                v@ == self.enemies@.subrange(0, i as int),
            decreases n - i,
        {
            v.push(self.enemies[i]);
            proof {
                assert(v@ =~= self.enemies@.subrange(0, i + 1));
            }
            i = i + 1;
        }
        proof {
            assert(v@ =~= self.enemies@);
        }
        v
    }

    /// A snapshot of the live projectiles, in registry order.
    pub fn iterate_projectiles(&self) -> (v: Vec<ProjectileSlot>)
        ensures
            v@ == self.projectiles@,
    {
        let n = self.projectiles.len();
        let mut v: Vec<ProjectileSlot> = Vec::new();
        let mut i: usize = 0;
        while i < n
            invariant
                0 <= i <= n,
                n == self.projectiles@.len(),
                v@ == self.projectiles@.subrange(0, i as int),
            decreases n - i,
        {
            v.push(self.projectiles[i]);
            proof {
                assert(v@ =~= self.projectiles@.subrange(0, i + 1));
            }
            i = i + 1;
        }
        proof {
            assert(v@ =~= self.projectiles@);
        }
        v
    }

    /// Index of the first enemy slot carrying `h`, or the enemy count.
    pub fn index_of_enemy(&self, h: Handle) -> (i: usize)
        ensures
            i as int == find_enemy(self.enemies@, h),
    {
        proof {
            lemma_find_enemy_from(self.enemies@, h, 0);
        }
        let n = self.enemies.len();
        let mut i: usize = 0;
        while i < n
            invariant
                0 <= i <= n,
                n == self.enemies@.len(),
                forall|j: int| 0 <= j < i ==> self.enemies@[j].handle != h,
            decreases n - i,
        {
            if self.enemies[i].handle.id == h.id {
                proof {
                    lemma_find_enemy_from(self.enemies@, h, 0);
                }
                return i;
            }
            i = i + 1;
        }
        n
    }

    /// Index of the first projectile slot carrying `h`, or the projectile
    /// count.
    pub fn index_of_projectile(&self, h: Handle) -> (i: usize)
        ensures
            i as int == find_projectile(self.projectiles@, h),
    {
        proof {
            lemma_find_projectile_from(self.projectiles@, h, 0);
        }
        let n = self.projectiles.len();
        let mut i: usize = 0;
        while i < n
            invariant
                0 <= i <= n,
                n == self.projectiles@.len(),
                forall|j: int| 0 <= j < i ==> self.projectiles@[j].handle != h,
            decreases n - i,
        {
            if self.projectiles[i].handle.id == h.id {
                proof {
                    lemma_find_projectile_from(self.projectiles@, h, 0);
                }
                return i;
            }
            i = i + 1;
        }
        n
    }

    /// Replaces the enemy held under `h`. A stale handle is a tolerated
    /// no-op, and the answer says whether anything was written.
    pub fn update_enemy(&mut self, h: Handle, e: Enemy) -> (updated: bool)
        requires
            old(self).wf(),
            e.wf(),
        ensures
            final(self).projectiles@ == old(self).projectiles@,
            final(self).next_id == old(self).next_id,
            final(self).wf(),
            ({
                let i = find_enemy(old(self).enemies@, h);
                if i < old(self).enemies@.len() {
                    updated && final(self).enemies@ == old(self).enemies@.update(
                        i,
                        EnemySlot { handle: old(self).enemies@[i].handle, enemy: e },
                    )
                } else {
                    !updated && final(self).enemies@ == old(self).enemies@
                }
            }),
    {
        let i = self.index_of_enemy(h);
        if i < self.enemies.len() {
            let handle = self.enemies[i].handle;
            self.enemies.set(i, EnemySlot { handle, enemy: e });
            true
        } else {
            false
        }
    }

    /// Removes the entity carrying `h`, whichever kind it is. A stale handle
    /// is a tolerated no-op, and the answer says whether anything was
    /// removed.
    pub fn despawn(&mut self, h: Handle) -> (removed: bool)
        requires
            old(self).wf(),
        ensures
            final(self).next_id == old(self).next_id,
            final(self).wf(),
            ({
                let ei = find_enemy(old(self).enemies@, h);
                let pi = find_projectile(old(self).projectiles@, h);
                if ei < old(self).enemies@.len() {
                    removed && final(self).enemies@ == old(self).enemies@.remove(ei)
                        && final(self).projectiles@ == old(self).projectiles@
                } else if pi < old(self).projectiles@.len() {
                    removed && final(self).enemies@ == old(self).enemies@
                        && final(self).projectiles@ == old(self).projectiles@.remove(pi)
                } else {
                    !removed && final(self).enemies@ == old(self).enemies@
                        && final(self).projectiles@ == old(self).projectiles@
                }
            }),
    {
        let ei = self.index_of_enemy(h);
        if ei < self.enemies.len() {
            self.enemies.remove(ei);
            return true;
        }
        let pi = self.index_of_projectile(h);
        if pi < self.projectiles.len() {
            self.projectiles.remove(pi);
            return true;
        }
        false
    }
}

} // verus!
