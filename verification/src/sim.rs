//! The simulation step driver: owns the registry, the wall and the player,
//! drains queued input commands, and advances the whole world one tick at a
//! time in a fixed phase order:
//!
//! 1. queued commands (movement, firing, purchases), in submission order;
//! 2. projectile movement, then despawn of projectiles past the left
//!    boundary;
//! 3. collision and combat resolution;
//! 4. enemy state transitions, then movement for the resulting state;
//! 5. one currency reward per enemy that died this tick.
//!
//! Attack damage on the wall and removal of dead enemies are driven by the
//! animation collaborator through the two notify calls, not by the tick.

use vstd::prelude::*;

use crate::collisions::{lemma_resolve_enemies, lemma_resolve_projectiles,
    lemma_resolve_projectiles_distinct, resolve_collisions, resolve_spec};
use crate::enemy::{EnemyState, ENEMY_BASE_HEALTH, ENEMY_SPAWN_X, ENEMY_SPEED};
use crate::geometry::{lemma_step_bound, Pos};
use crate::player::{Player, VerticalDir, VERTICAL_BAND};
use crate::projectile::{Projectile, FIELD_LEFT};
use crate::registry::{find_enemy, EnemySlot, Handle, ProjectileSlot, Registry};
use crate::wall::{Wall, ATTACK_DAMAGE, REPAIR_COST, UPGRADE_AMOUNT, UPGRADE_COST};

verus! {

/// Relies on rand's Rng::gen_range over an integer range: the sample is
/// uniform over `lo..hi`, and the call panics only on an empty range, which
/// the precondition rules out.
#[verifier::external_body]
fn sample_in_range(lo: i64, hi: i64) -> (r: i64)
    requires
        lo < hi,
    ensures
        lo <= r < hi,
{
    rand::Rng::gen_range(&mut rand::thread_rng(), lo..hi)
}

/// One queued input event, consumed once at the start of a tick.
#[derive(Clone, Copy, PartialEq, Eq, Structural, Debug)]
pub enum Command {
    /// Move the player vertically for the given number of milliseconds.
    MovePlayer(VerticalDir, u32),
    /// Fire a projectile from the player's current position.
    FireProjectile,
    /// Repair the wall, if the player can afford it.
    PurchaseRepair,
    /// Upgrade the wall's maximum health, if the player can afford it.
    PurchaseUpgrade,
}

/// The mathematical state of the whole simulation.
pub ghost struct SimView {
    pub enemies: Seq<EnemySlot>,
    pub projectiles: Seq<ProjectileSlot>,
    pub next_id: u64,
    pub wall: Wall,
    pub player: Player,
}

/// The simulation context: all entities, the wall, and the player.
pub struct Sim {
    pub registry: Registry,
    pub wall: Wall,
    pub player: Player,
}

impl View for Sim {
    type V = SimView;

    open spec fn view(&self) -> SimView {
        SimView {
            enemies: self.registry.enemies@,
            projectiles: self.registry.projectiles@,
            next_id: self.registry.next_id,
            wall: self.wall,
            player: self.player,
        }
    }
}

/// The state after one command. A purchase the player cannot afford is
/// dropped without any effect.
pub open spec fn apply_command_spec(v: SimView, c: Command) -> SimView {
    match c {
        Command::MovePlayer(dir, millis) => SimView {
            player: v.player.spec_moved(dir, millis),
            ..v
        },
        Command::FireProjectile => SimView {
            projectiles: v.projectiles.push(
                ProjectileSlot {
                    handle: Handle { id: v.next_id },
                    projectile: Projectile::spec_spawned_at(v.player.pos),
                },
            ),
            next_id: (v.next_id + 1) as u64,
            ..v
        },
        Command::PurchaseRepair => {
            if v.player.wealth >= REPAIR_COST {
                SimView {
                    player: Player {
                        wealth: (v.player.wealth - REPAIR_COST) as u64,
                        ..v.player
                    },
                    wall: v.wall.spec_repaired(),
                    ..v
                }
            } else {
                v
            }
        },
        Command::PurchaseUpgrade => {
            if v.player.wealth >= UPGRADE_COST {
                SimView {
                    player: Player {
                        wealth: (v.player.wealth - UPGRADE_COST) as u64,
                        ..v.player
                    },
                    wall: v.wall.spec_upgraded(),
                    ..v
                }
            } else {
                v
            }
        },
    }
}

/// The state after a whole command queue, applied in submission order.
pub open spec fn apply_commands_spec(v: SimView, cmds: Seq<Command>) -> SimView
    decreases cmds.len(),
{
    if cmds.len() == 0 {
        v
    } else {
        apply_commands_spec(apply_command_spec(v, cmds[0]), cmds.drop_first())
    }
}

/// Applying commands never touches the enemies, never raises the player's
/// wealth, and grows the id counter and the wall's maximum by bounded
/// amounts.
pub proof fn lemma_commands_effect(v: SimView, cmds: Seq<Command>)
    ensures
        apply_commands_spec(v, cmds).enemies == v.enemies,
        apply_commands_spec(v, cmds).player.wealth <= v.player.wealth,
        apply_commands_spec(v, cmds).player.pos.x == v.player.pos.x,
        apply_commands_spec(v, cmds).player.speed == v.player.speed,
        apply_commands_spec(v, cmds).next_id <= v.next_id + cmds.len(),
        apply_commands_spec(v, cmds).wall.max_health <= v.wall.max_health + UPGRADE_AMOUNT
            * cmds.len(),
    decreases cmds.len(),
{
    if cmds.len() > 0 {
        lemma_commands_effect(apply_command_spec(v, cmds[0]), cmds.drop_first());
    }
}

/// The projectiles after the movement phase: every one advances leftward,
/// keeping its handle.
pub open spec fn moved_projectiles_spec(ps: Seq<ProjectileSlot>, dt: u32) -> Seq<ProjectileSlot> {
    Seq::new(
        ps.len(),
        |i: int|
            ProjectileSlot { handle: ps[i].handle, projectile: ps[i].projectile.spec_advanced(dt) },
    )
}

/// The boundary check: projectiles past the left boundary are dropped, the
/// rest keep their order.
pub open spec fn despawn_past_spec(ps: Seq<ProjectileSlot>) -> Seq<ProjectileSlot>
    decreases ps.len(),
{
    if ps.len() == 0 {
        ps
    } else if ps[0].projectile.past_left_boundary() {
        despawn_past_spec(ps.drop_first())
    } else {
        seq![ps[0]] + despawn_past_spec(ps.drop_first())
    }
}

/// The boundary check keeps exactly the projectiles inside the field, each
/// of them one of the incoming ones.
pub proof fn lemma_despawn_past_members(ps: Seq<ProjectileSlot>)
    ensures
        despawn_past_spec(ps).len() <= ps.len(),
        forall|j: int|
            0 <= j < despawn_past_spec(ps).len() ==> !(#[trigger] despawn_past_spec(
                ps,
            )[j]).projectile.past_left_boundary() && ps.contains(despawn_past_spec(ps)[j]),
    decreases ps.len(),
{
    if ps.len() > 0 {
        let rest = ps.drop_first();
        lemma_despawn_past_members(rest);
        assert(forall|k: int| 0 <= k < rest.len() ==> rest[k] == ps[k + 1]);
        assert forall|j: int| 0 <= j < despawn_past_spec(ps).len() implies !(
        #[trigger] despawn_past_spec(ps)[j]).projectile.past_left_boundary() && ps.contains(
            despawn_past_spec(ps)[j],
        ) by {
            if ps[0].projectile.past_left_boundary() {
                assert(rest.contains(despawn_past_spec(ps)[j]));
                let k = choose|k: int|
                    0 <= k < rest.len() && rest[k] == despawn_past_spec(ps)[j];
                assert(ps[k + 1] == despawn_past_spec(ps)[j]);
            } else {
                if j == 0 {
                    assert(despawn_past_spec(ps)[0] == ps[0]);
                } else {
                    assert(despawn_past_spec(ps)[j] == despawn_past_spec(rest)[j - 1]);
                    assert(rest.contains(despawn_past_spec(rest)[j - 1]));
                    let k = choose|k: int|
                        0 <= k < rest.len() && rest[k] == despawn_past_spec(rest)[j - 1];
                    assert(ps[k + 1] == despawn_past_spec(ps)[j]);
                }
            }
        }
    }
}

/// On a queue with no projectile past the boundary, the check removes
/// nothing.
pub proof fn lemma_despawn_past_noop(ps: Seq<ProjectileSlot>)
    requires
        forall|j: int| 0 <= j < ps.len() ==> !(#[trigger] ps[j]).projectile.past_left_boundary(),
    ensures
        despawn_past_spec(ps) == ps,
    decreases ps.len(),
{
    if ps.len() > 0 {
        let rest = ps.drop_first();
        assert(forall|k: int| 0 <= k < rest.len() ==> rest[k] == ps[k + 1]);
        lemma_despawn_past_noop(rest);
        assert(seq![ps[0]] + rest =~= ps);
    }
}

/// Law: the boundary despawn pass is idempotent. A projectile past the
/// boundary is removed by the first pass, so a second pass over the result
/// removes nothing: there is no double despawn.
pub proof fn lemma_despawn_past_idempotent(ps: Seq<ProjectileSlot>)
    ensures
        despawn_past_spec(despawn_past_spec(ps)) == despawn_past_spec(ps),
{
    lemma_despawn_past_members(ps);
    lemma_despawn_past_noop(despawn_past_spec(ps));
}

/// The boundary check keeps handles pairwise distinct.
pub proof fn lemma_despawn_past_distinct(ps: Seq<ProjectileSlot>)
    requires
        forall|i: int, j: int|
            0 <= i < j < ps.len() ==> (#[trigger] ps[i]).handle != (#[trigger] ps[j]).handle,
    ensures
        forall|i: int, j: int|
            0 <= i < j < despawn_past_spec(ps).len() ==> (#[trigger] despawn_past_spec(
                ps,
            )[i]).handle != (#[trigger] despawn_past_spec(ps)[j]).handle,
    decreases ps.len(),
{
    if ps.len() > 0 {
        let rest = ps.drop_first();
        assert(forall|k: int| 0 <= k < rest.len() ==> rest[k] == ps[k + 1]);
        lemma_despawn_past_distinct(rest);
        lemma_despawn_past_members(rest);
        if !ps[0].projectile.past_left_boundary() {
            let r = despawn_past_spec(ps);
            assert forall|i: int, j: int| 0 <= i < j < r.len() implies (#[trigger] r[i]).handle != (
            #[trigger] r[j]).handle by {
                if i == 0 {
                    assert(r[j] == despawn_past_spec(rest)[j - 1]);
                    assert(rest.contains(despawn_past_spec(rest)[j - 1]));
                    let k = choose|k: int|
                        0 <= k < rest.len() && rest[k] == despawn_past_spec(rest)[j - 1];
                    assert(ps[k + 1] == r[j]);
                } else {
                    assert(r[i] == despawn_past_spec(rest)[i - 1]);
                    assert(r[j] == despawn_past_spec(rest)[j - 1]);
                }
            }
        }
    }
}

/// The enemies after one state-machine step each, handles kept.
pub open spec fn stepped_enemies_spec(es: Seq<EnemySlot>, dt: u32) -> Seq<EnemySlot> {
    Seq::new(
        es.len(),
        |i: int| EnemySlot { handle: es[i].handle, enemy: es[i].enemy.spec_stepped(dt) },
    )
}

/// Number of enemies dying this tick: not yet Dead, but out of health, so
/// the coming transition phase will mark them Dead.
pub open spec fn newly_dead_count(es: Seq<EnemySlot>) -> int
    decreases es.len(),
{
    if es.len() == 0 {
        0
    } else {
        (if !(es[0].enemy.state is Dead) && es[0].enemy.health <= 0 {
            1int
        } else {
            0int
        }) + newly_dead_count(es.drop_first())
    }
}

pub proof fn lemma_newly_dead_count_bounds(es: Seq<EnemySlot>)
    ensures
        0 <= newly_dead_count(es) <= es.len(),
    decreases es.len(),
{
    if es.len() > 0 {
        lemma_newly_dead_count_bounds(es.drop_first());
    }
}

/// The projectiles that survive the movement, boundary and collision
/// phases of one tick, given the enemies and projectiles the command phase
/// left behind.
pub open spec fn surviving_projectiles(es: Seq<EnemySlot>, ps: Seq<ProjectileSlot>, dt: u32) -> Seq<
    ProjectileSlot,
> {
    resolve_spec(es, despawn_past_spec(moved_projectiles_spec(ps, dt))).1
}

/// Every projectile that survives those phases descends from one of the
/// incoming ones: same handle, still well formed, still inside the field;
/// and no handle appears twice.
pub proof fn lemma_surviving_projectiles(es: Seq<EnemySlot>, ps: Seq<ProjectileSlot>, dt: u32)
    requires
        forall|i: int|
            0 <= i < ps.len() ==> (#[trigger] ps[i]).projectile.wf()
                && ps[i].projectile.pos.x >= FIELD_LEFT,
        forall|i: int, k: int|
            0 <= i < k < ps.len() ==> (#[trigger] ps[i]).handle != (#[trigger] ps[k]).handle,
    ensures
        forall|j: int|
            0 <= j < surviving_projectiles(es, ps, dt).len() ==> {
                let s = #[trigger] surviving_projectiles(es, ps, dt)[j];
                &&& s.projectile.wf()
                &&& s.projectile.pos.x >= FIELD_LEFT
                &&& exists|m: int| 0 <= m < ps.len() && (#[trigger] ps[m]).handle == s.handle
            },
        forall|i: int, j: int|
            0 <= i < j < surviving_projectiles(es, ps, dt).len() ==> (
            #[trigger] surviving_projectiles(es, ps, dt)[i]).handle != (
            #[trigger] surviving_projectiles(es, ps, dt)[j]).handle,
{
    let moved = moved_projectiles_spec(ps, dt);
    assert forall|m: int| 0 <= m < moved.len() implies (#[trigger] moved[m]).projectile.wf()
        && moved[m].handle == ps[m].handle by {
        lemma_step_bound(ps[m].projectile.speed as int, dt as int);
    }
    let inside = despawn_past_spec(moved);
    lemma_despawn_past_members(moved);
    lemma_despawn_past_distinct(moved);
    let surv = surviving_projectiles(es, ps, dt);
    lemma_resolve_projectiles(es, inside);
    lemma_resolve_projectiles_distinct(es, inside);
    assert forall|j: int| 0 <= j < surv.len() implies {
        let s = #[trigger] surv[j];
        &&& s.projectile.wf()
        &&& s.projectile.pos.x >= FIELD_LEFT
        &&& exists|m: int| 0 <= m < ps.len() && (#[trigger] ps[m]).handle == s.handle
    } by {
        let s = surv[j];
        assert(inside.contains(s));
        let k = choose|k: int| 0 <= k < inside.len() && inside[k] == s;
        assert(!inside[k].projectile.past_left_boundary());
        assert(moved.contains(inside[k]));
        let m = choose|m: int| 0 <= m < moved.len() && moved[m] == inside[k];
        assert(moved[m].projectile.wf());
        assert(ps[m].handle == s.handle);
    }
}

/// The whole simulation after one tick, phases in their fixed order:
/// commands, projectile movement, boundary despawn, collision resolution,
/// enemy transitions and movement, kill rewards.
pub open spec fn tick_spec(v: SimView, dt: u32, cmds: Seq<Command>) -> SimView {
    let a = apply_commands_spec(v, cmds);
    let inside = despawn_past_spec(moved_projectiles_spec(a.projectiles, dt));
    let resolved = resolve_spec(a.enemies, inside);
    SimView {
        enemies: stepped_enemies_spec(resolved.0, dt),
        projectiles: resolved.1,
        next_id: a.next_id,
        wall: a.wall,
        player: Player {
            pos: a.player.pos,
            speed: a.player.speed,
            wealth: (a.player.wealth + newly_dead_count(resolved.0)) as u64,
        },
    }
}

/// Handles a repair purchase: when the player holds at least `REPAIR_COST`,
/// the cost is deducted and the wall repaired; otherwise nothing changes.
pub fn purchase_repair(player: &mut Player, wall: &mut Wall)
    requires
        old(wall).wf(),
    ensures
        old(player).wealth >= REPAIR_COST ==> final(player).wealth == old(player).wealth
            - REPAIR_COST && *final(wall) == old(wall).spec_repaired(),
        old(player).wealth < REPAIR_COST ==> *final(player) == *old(player) && *final(wall) == *old(
            wall,
        ),
        final(player).pos == old(player).pos,
        final(player).speed == old(player).speed,
        final(wall).wf(),
        final(player).wealth <= old(player).wealth,
{
    if player.wealth() >= REPAIR_COST {
        player.spend(REPAIR_COST);
        wall.repair();
    }
}

/// Handles an upgrade purchase: when the player holds at least
/// `UPGRADE_COST`, the cost is deducted and the wall's maximum raised;
/// otherwise nothing changes.
pub fn purchase_upgrade(player: &mut Player, wall: &mut Wall)
    requires
        old(wall).wf(),
        old(wall).max_health + UPGRADE_AMOUNT <= i64::MAX,
    ensures
        old(player).wealth >= UPGRADE_COST ==> final(player).wealth == old(player).wealth
            - UPGRADE_COST && *final(wall) == old(wall).spec_upgraded(),
        old(player).wealth < UPGRADE_COST ==> *final(player) == *old(player) && *final(wall)
            == *old(wall),
        final(player).pos == old(player).pos,
        final(player).speed == old(player).speed,
        final(wall).wf(),
        final(player).wealth <= old(player).wealth,
{
    if player.wealth() >= UPGRADE_COST {
        player.spend(UPGRADE_COST);
        wall.upgrade_max_health();
    }
}

impl Sim {
    /// Everything the simulation owns is well formed, and the player stands
    /// inside the field, right of the projectile despawn line.
    pub open spec fn wf(self) -> bool {
        &&& self.registry.wf()
        &&& self.wall.wf()
        &&& self.player.wf()
        &&& self.player.pos.x >= FIELD_LEFT
    }

    /// A fresh simulation: no entities, full wall, penniless player.
    pub fn new() -> (s: Sim)
        ensures
            s@.enemies =~= Seq::<EnemySlot>::empty(),
            s@.projectiles =~= Seq::<ProjectileSlot>::empty(),
            s@.next_id == 0,
            s@.wall == Wall::initial(),
            s@.player == Player::initial(),
            s.wf(),
    {
        Sim { registry: Registry::new(), wall: Wall::default(), player: Player::default() }
    }

    /// Applies one queued input command.
    pub fn apply_command(&mut self, c: Command)
        requires
            old(self).wf(),
            old(self)@.next_id < u64::MAX,
            old(self)@.wall.max_health + UPGRADE_AMOUNT <= i64::MAX,
        ensures
            final(self)@ == apply_command_spec(old(self)@, c),
            final(self).wf(),
            final(self)@.enemies == old(self)@.enemies,
            final(self)@.player.wealth <= old(self)@.player.wealth,
            final(self)@.next_id <= old(self)@.next_id + 1,
            final(self)@.wall.max_health <= old(self)@.wall.max_health + UPGRADE_AMOUNT,
    {
        match c {
            Command::MovePlayer(dir, millis) => {
                self.player.move_vertical(dir, millis);
            },
            Command::FireProjectile => {
                let pos = self.player.pos;
                self.registry.spawn_projectile(pos);
            },
            Command::PurchaseRepair => {
                purchase_repair(&mut self.player, &mut self.wall);
            },
            Command::PurchaseUpgrade => {
                purchase_upgrade(&mut self.player, &mut self.wall);
            },
        }
    }

    /// Advances the whole world by one tick of `dt` milliseconds, draining
    /// the queued commands first. All phases run in their fixed order and
    /// their combined effect is exactly `tick_spec`.
    pub fn tick(&mut self, dt: u32, cmds: &Vec<Command>)
        requires
            old(self).wf(),
            old(self)@.next_id + cmds@.len() <= u64::MAX,
            old(self)@.wall.max_health + UPGRADE_AMOUNT * cmds@.len() <= i64::MAX,
            old(self)@.player.wealth + old(self)@.enemies.len() <= u64::MAX,
        ensures
            final(self)@ == tick_spec(old(self)@, dt, cmds@),
            final(self).wf(),
    {
        let ghost v0 = self@;
        // Phase 1: queued commands, in submission order.
        let ncmds = cmds.len();
        proof {
            assert(cmds@.skip(0) =~= cmds@);
        }
        let mut ci: usize = 0;
        while ci < ncmds
            invariant
                0 <= ci <= ncmds,
                ncmds == cmds@.len(),
                self.wf(),
                apply_commands_spec(v0, cmds@) == apply_commands_spec(self@, cmds@.skip(ci as int)),
                self@.enemies == v0.enemies,
                self@.player.wealth <= v0.player.wealth,
                self@.next_id + (ncmds - ci) <= u64::MAX,
                self@.wall.max_health + UPGRADE_AMOUNT * (ncmds - ci) <= i64::MAX,
            decreases ncmds - ci,
        {
            proof {
                assert(cmds@.skip(ci as int).drop_first() =~= cmds@.skip(ci as int + 1));
            }
            self.apply_command(cmds[ci]);
            ci = ci + 1;
        }
        proof {
            assert(cmds@.skip(ncmds as int) =~= Seq::<Command>::empty());
        }
        let ghost a = self@;
        proof {
            assert(a == apply_commands_spec(v0, cmds@));
            assert(forall|j: int|
                0 <= j < a.projectiles.len() ==> (#[trigger] a.projectiles[j]).projectile.wf()
                    && a.projectiles[j].projectile.pos.x >= FIELD_LEFT
                    && a.projectiles[j].handle.id < a.next_id);
            assert(forall|i: int|
                0 <= i < a.enemies.len() ==> (#[trigger] a.enemies[i]).enemy.wf()
                    && a.enemies[i].handle.id < a.next_id);
            assert(forall|i: int, j: int|
                0 <= i < j < a.enemies.len() ==> (#[trigger] a.enemies[i]).handle != (
                #[trigger] a.enemies[j]).handle);
            assert(forall|i: int, j: int|
                0 <= i < j < a.projectiles.len() ==> (#[trigger] a.projectiles[i]).handle != (
                #[trigger] a.projectiles[j]).handle);
            assert(forall|i: int, j: int|
                0 <= i < a.enemies.len() && 0 <= j < a.projectiles.len() ==> (
                #[trigger] a.enemies[i]).handle != (#[trigger] a.projectiles[j]).handle);
            assert(a.wall.wf());
            assert(a.player.wf());
            assert(a.player.pos.x >= FIELD_LEFT);
        }
        // Phase 2: projectile movement.
        let pn = self.registry.projectiles.len();
        let mut pi: usize = 0;
        while pi < pn
            invariant
                0 <= pi <= pn,
                pn == self.registry.projectiles@.len(),
                pn == a.projectiles.len(),
                forall|j: int| pi <= j < pn ==> self.registry.projectiles@[j] == a.projectiles[j],
                forall|j: int|
                    0 <= j < pi ==> self.registry.projectiles@[j] == moved_projectiles_spec(
                        a.projectiles,
                        dt,
                    )[j] && (#[trigger] self.registry.projectiles@[j]).projectile.wf(),
                forall|j: int|
                    0 <= j < pn ==> (#[trigger] a.projectiles[j]).projectile.wf()
                        && a.projectiles[j].projectile.pos.x >= FIELD_LEFT,
                self.registry.enemies@ == a.enemies,
                self.registry.next_id == a.next_id,
                self.wall == a.wall,
                self.player == a.player,
            decreases pn - pi,
        {
            let slot = self.registry.projectiles[pi];
            proof {
                assert(self.registry.projectiles@[pi as int] == a.projectiles[pi as int]);
                assert(a.projectiles[pi as int].projectile.wf());
            }
            let mut p = slot.projectile;
            p.advance(dt);
            self.registry.projectiles.set(
                pi,
                ProjectileSlot { handle: slot.handle, projectile: p },
            );
            pi = pi + 1;
        }
        let ghost moved = self.registry.projectiles@;
        proof {
            assert(moved =~= moved_projectiles_spec(a.projectiles, dt));
        }
        // Phase 2, boundary check: drop projectiles past the left boundary.
        let mut kept: Vec<ProjectileSlot> = Vec::new();
        proof {
            assert(moved.skip(0) =~= moved);
            assert(kept@ + despawn_past_spec(moved.skip(0)) =~= despawn_past_spec(moved.skip(0)));
        }
        let mut fi: usize = 0;
        while fi < pn
            invariant
                0 <= fi <= pn,
                pn == self.registry.projectiles@.len(),
                self.registry.projectiles@ == moved,
                forall|j: int| 0 <= j < pn ==> (#[trigger] moved[j]).projectile.wf(),
                despawn_past_spec(moved) == kept@ + despawn_past_spec(moved.skip(fi as int)),
                forall|j: int|
                    0 <= j < kept@.len() ==> (#[trigger] kept@[j]).projectile.wf()
                        && kept@[j].projectile.pos.x >= FIELD_LEFT,
                self.registry.enemies@ == a.enemies,
                self.registry.next_id == a.next_id,
                self.wall == a.wall,
                self.player == a.player,
            decreases pn - fi,
        {
            let ghost rem = moved.skip(fi as int);
            proof {
                assert(rem[0] == moved[fi as int]);
                assert(rem.drop_first() =~= moved.skip(fi as int + 1));
            }
            let slot = self.registry.projectiles[fi];
            if !slot.projectile.is_past_left_boundary() {
                let ghost pre_kept = kept@;
                kept.push(slot);
                proof {
                    assert(kept@ + despawn_past_spec(rem.drop_first()) =~= pre_kept + (seq![slot]
                        + despawn_past_spec(rem.drop_first())));
                }
            }
            fi = fi + 1;
        }
        proof {
            assert(moved.skip(pn as int) =~= Seq::<ProjectileSlot>::empty());
            assert(kept@ + despawn_past_spec(moved.skip(pn as int)) =~= kept@);
        }
        self.registry.projectiles = kept;
        let ghost inside = self.registry.projectiles@;
        // Phase 3: collision and combat resolution.
        resolve_collisions(&mut self.registry.enemies, &mut self.registry.projectiles);
        let ghost res_es = self.registry.enemies@;
        proof {
            lemma_resolve_enemies(a.enemies, inside);
            assert(res_es == resolve_spec(a.enemies, inside).0);
            assert(forall|i: int|
                0 <= i < res_es.len() ==> (#[trigger] res_es[i]).enemy.wf());
            assert(res_es.skip(0) =~= res_es);
        }
        // Phase 4: enemy transitions and movement, counting this tick's
        // deaths on the way.
        let en = self.registry.enemies.len();
        let mut count: u64 = 0;
        let mut ei: usize = 0;
        while ei < en
            invariant
                0 <= ei <= en,
                en == self.registry.enemies@.len(),
                en == res_es.len(),
                forall|j: int| ei <= j < en ==> self.registry.enemies@[j] == res_es[j],
                forall|j: int|
                    0 <= j < ei ==> self.registry.enemies@[j] == stepped_enemies_spec(
                        res_es,
                        dt,
                    )[j] && (#[trigger] self.registry.enemies@[j]).enemy.wf(),
                forall|j: int| 0 <= j < en ==> (#[trigger] res_es[j]).enemy.wf(),
                newly_dead_count(res_es) == count + newly_dead_count(res_es.skip(ei as int)),
                count <= ei,
                self.registry.projectiles@ == resolve_spec(a.enemies, inside).1,
                self.registry.next_id == a.next_id,
                self.wall == a.wall,
                self.player == a.player,
            decreases en - ei,
        {
            let ghost rem = res_es.skip(ei as int);
            proof {
                assert(rem[0] == res_es[ei as int]);
                assert(rem.drop_first() =~= res_es.skip(ei as int + 1));
            }
            let slot = self.registry.enemies[ei];
            if !matches!(slot.enemy.state, EnemyState::Dead) && slot.enemy.health <= 0 {
                count = count + 1;
            }
            let mut e = slot.enemy;
            e.step(dt);
            self.registry.enemies.set(ei, EnemySlot { handle: slot.handle, enemy: e });
            ei = ei + 1;
        }
        proof {
            assert(res_es.skip(en as int) =~= Seq::<EnemySlot>::empty());
            assert(self.registry.enemies@ =~= stepped_enemies_spec(res_es, dt));
        }
        // Phase 5: one reward per enemy that died this tick.
        proof {
            lemma_newly_dead_count_bounds(res_es);
            lemma_commands_effect(v0, cmds@);
        }
        self.player.add_wealth(count);
        proof {
            let fin = self@;
            let surv = surviving_projectiles(a.enemies, a.projectiles, dt);
            assert(inside == despawn_past_spec(moved_projectiles_spec(a.projectiles, dt)));
            assert(fin.projectiles == surv);
            lemma_surviving_projectiles(a.enemies, a.projectiles, dt);
            // the view equals the tick's specification, field by field
            assert(count == newly_dead_count(res_es));
            assert(fin == tick_spec(v0, dt, cmds@));
            // the registry is well formed again: enemies kept their handles,
            // surviving projectiles descend from the command phase's
            assert forall|i: int|
                0 <= i < fin.enemies.len() implies (#[trigger] fin.enemies[i]).enemy.wf()
                && fin.enemies[i].handle == a.enemies[i].handle by {
                assert(fin.enemies[i] == stepped_enemies_spec(res_es, dt)[i]);
                assert(res_es[i].handle == a.enemies[i].handle);
            }
            assert forall|j: int|
                0 <= j < fin.projectiles.len() implies (#[trigger] fin.projectiles[j]).handle.id
                < fin.next_id by {
                let m = choose|m: int|
                    0 <= m < a.projectiles.len() && (#[trigger] a.projectiles[m]).handle
                        == fin.projectiles[j].handle;
                assert(a.projectiles[m].handle.id < a.next_id);
            }
            assert forall|i: int, j: int|
                0 <= i < fin.enemies.len() && 0 <= j < fin.projectiles.len() implies (
            #[trigger] fin.enemies[i]).handle != (#[trigger] fin.projectiles[j]).handle by {
                let m = choose|m: int|
                    0 <= m < a.projectiles.len() && (#[trigger] a.projectiles[m]).handle
                        == fin.projectiles[j].handle;
                assert(a.enemies[i].handle != a.projectiles[m].handle);
            }
            assert(self.registry.wf());
            assert(self.wf());
        }
    }

    /// Spawns one enemy at the left edge of the field at a random vertical
    /// offset inside the spawn band, as the external spawn timer requests.
    pub fn spawn_enemy_at_random_offset(&mut self) -> (h: Handle)
        requires
            old(self).wf(),
            old(self)@.next_id < u64::MAX,
        ensures
            final(self).wf(),
            h.id == old(self)@.next_id,
            final(self)@.next_id == old(self)@.next_id + 1,
            final(self)@.projectiles == old(self)@.projectiles,
            final(self)@.wall == old(self)@.wall,
            final(self)@.player == old(self)@.player,
            final(self)@.enemies.len() == old(self)@.enemies.len() + 1,
            final(self)@.enemies == old(self)@.enemies.push(final(self)@.enemies.last()),
            ({
                let s = final(self)@.enemies.last();
                &&& s.handle == h
                &&& s.enemy.state is Walking
                &&& s.enemy.health == ENEMY_BASE_HEALTH
                &&& s.enemy.speed == ENEMY_SPEED
                &&& s.enemy.pos.x == ENEMY_SPAWN_X
                &&& -VERTICAL_BAND <= s.enemy.pos.y < VERTICAL_BAND
            }),
    {
        let units = sample_in_range(-385, 385);
        let y: i64 = units * 1000;
        self.registry.spawn_enemy(Pos { x: ENEMY_SPAWN_X, y })
    }

    /// The attack-animation collaborator reports one completed attack
    /// cycle: if the handle still names an attacking enemy, the wall takes
    /// the fixed attack damage; otherwise nothing happens.
    pub fn notify_attack_cycle_complete(&mut self, h: Handle)
        requires
            old(self).wf(),
        ensures
            final(self).wf(),
            final(self)@.enemies == old(self)@.enemies,
            final(self)@.projectiles == old(self)@.projectiles,
            final(self)@.next_id == old(self)@.next_id,
            final(self)@.player == old(self)@.player,
            ({
                let i = find_enemy(old(self)@.enemies, h);
                if i < old(self)@.enemies.len() && old(self)@.enemies[i].enemy.state is Attacking {
                    final(self)@.wall == old(self)@.wall.spec_damaged(ATTACK_DAMAGE)
                } else {
                    final(self)@.wall == old(self)@.wall
                }
            }),
    {
        let found = self.registry.get_enemy(h);
        match found {
            Some(e) => {
                if matches!(e.state, EnemyState::Attacking) {
                    self.wall.apply_damage(ATTACK_DAMAGE);
                }
            },
            None => {},
        }
    }

    /// The death-animation collaborator reports that a dead enemy's
    /// presentation has finished: if the handle still names a dead enemy,
    /// it is removed from the registry for good; otherwise nothing happens.
    pub fn notify_death_animation_complete(&mut self, h: Handle) -> (removed: bool)
        requires
            old(self).wf(),
        ensures
            final(self).wf(),
            final(self)@.projectiles == old(self)@.projectiles,
            final(self)@.next_id == old(self)@.next_id,
            final(self)@.wall == old(self)@.wall,
            final(self)@.player == old(self)@.player,
            ({
                let i = find_enemy(old(self)@.enemies, h);
                if i < old(self)@.enemies.len() && old(self)@.enemies[i].enemy.state is Dead {
                    removed && final(self)@.enemies == old(self)@.enemies.remove(i)
                } else {
                    !removed && final(self)@.enemies == old(self)@.enemies
                }
            }),
    {
        let found = self.registry.get_enemy(h);
        match found {
            Some(e) => {
                if matches!(e.state, EnemyState::Dead) {
                    self.registry.despawn(h)
                } else {
                    false
                }
            },
            None => false,
        }
    }
}

} // verus!
