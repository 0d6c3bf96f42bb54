//! The simulation's laws: tick-level properties stated over the tick
//! specification and proved once for every reachable state.

use vstd::prelude::*;

use crate::collisions::{lemma_resolve_enemies, lemma_resolve_projectiles, resolve_spec};
use crate::enemy::Enemy;
use crate::registry::EnemySlot;
use crate::sim::{apply_command_spec, apply_commands_spec, despawn_past_spec, lemma_commands_effect,
    lemma_despawn_past_members, lemma_newly_dead_count_bounds, moved_projectiles_spec,
    newly_dead_count, tick_spec, Command, SimView};
use crate::wall::ATTACK_LINE;

verus! {

/// The bookkeeping every combat phase relies on: no enemy holds negative
/// health and no projectile carries negative damage.
pub open spec fn combat_wf(v: SimView) -> bool {
    &&& forall|i: int| 0 <= i < v.enemies.len() ==> (#[trigger] v.enemies[i]).enemy.health >= 0
    &&& forall|j: int|
        0 <= j < v.projectiles.len() ==> (#[trigger] v.projectiles[j]).projectile.damage >= 0
}

/// The command phase only ever adds projectiles with the fixed default
/// damage, so non-negative damage survives it.
proof fn lemma_commands_damages(v: SimView, cmds: Seq<Command>)
    requires
        forall|j: int|
            0 <= j < v.projectiles.len() ==> (#[trigger] v.projectiles[j]).projectile.damage >= 0,
    ensures
        forall|j: int|
            0 <= j < apply_commands_spec(v, cmds).projectiles.len() ==> (
            #[trigger] apply_commands_spec(v, cmds).projectiles[j]).projectile.damage >= 0,
    decreases cmds.len(),
{
    if cmds.len() > 0 {
        let v1 = apply_command_spec(v, cmds[0]);
        assert(forall|j: int|
            0 <= j < v1.projectiles.len() ==> (#[trigger] v1.projectiles[j]).projectile.damage
                >= 0);
        lemma_commands_damages(v1, cmds.drop_first());
        assert(apply_commands_spec(v, cmds) == apply_commands_spec(v1, cmds.drop_first()));
    }
}

/// The enemies after the command, movement, boundary and collision phases:
/// same handles, states and positions as before the tick, health clamped
/// and no higher; and the tick's final enemies are exactly these after one
/// state-machine step each.
proof fn lemma_tick_enemy_pipeline(v: SimView, dt: u32, cmds: Seq<Command>)
    requires
        combat_wf(v),
    ensures
        ({
            let a = apply_commands_spec(v, cmds);
            let inside = despawn_past_spec(moved_projectiles_spec(a.projectiles, dt));
            let mid = resolve_spec(a.enemies, inside).0;
            &&& a.enemies == v.enemies
            &&& mid.len() == v.enemies.len()
            &&& tick_spec(v, dt, cmds).enemies.len() == v.enemies.len()
            &&& forall|i: int|
                0 <= i < v.enemies.len() ==> {
                    let m = #[trigger] mid[i];
                    &&& m.handle == v.enemies[i].handle
                    &&& m.enemy.state == v.enemies[i].enemy.state
                    &&& m.enemy.pos == v.enemies[i].enemy.pos
                    &&& m.enemy.speed == v.enemies[i].enemy.speed
                    &&& 0 <= m.enemy.health <= v.enemies[i].enemy.health
                    &&& tick_spec(v, dt, cmds).enemies[i] == (EnemySlot {
                        handle: m.handle,
                        enemy: m.enemy.spec_stepped(dt),
                    })
                }
        }),
{
    let a = apply_commands_spec(v, cmds);
    lemma_commands_effect(v, cmds);
    lemma_commands_damages(v, cmds);
    let moved = moved_projectiles_spec(a.projectiles, dt);
    assert(forall|j: int|
        0 <= j < moved.len() ==> (#[trigger] moved[j]).projectile.damage >= 0);
    let inside = despawn_past_spec(moved);
    lemma_despawn_past_members(moved);
    assert forall|j: int| 0 <= j < inside.len() implies (
    #[trigger] inside[j]).projectile.damage >= 0 by {
        assert(moved.contains(inside[j]));
        let m = choose|m: int| 0 <= m < moved.len() && moved[m] == inside[j];
        assert(moved[m].projectile.damage >= 0);
    }
    lemma_resolve_enemies(a.enemies, inside);
}

/// A tick hands the next tick a state the combat phases can rely on again.
pub proof fn lemma_tick_preserves_combat_wf(v: SimView, dt: u32, cmds: Seq<Command>)
    requires
        combat_wf(v),
    ensures
        combat_wf(tick_spec(v, dt, cmds)),
{
    lemma_tick_enemy_pipeline(v, dt, cmds);
    let a = apply_commands_spec(v, cmds);
    lemma_commands_damages(v, cmds);
    let moved = moved_projectiles_spec(a.projectiles, dt);
    assert(forall|j: int|
        0 <= j < moved.len() ==> (#[trigger] moved[j]).projectile.damage >= 0);
    let inside = despawn_past_spec(moved);
    lemma_despawn_past_members(moved);
    assert forall|j: int| 0 <= j < inside.len() implies (
    #[trigger] inside[j]).projectile.damage >= 0 by {
        assert(moved.contains(inside[j]));
        let m = choose|m: int| 0 <= m < moved.len() && moved[m] == inside[j];
        assert(moved[m].projectile.damage >= 0);
    }
    lemma_resolve_projectiles(a.enemies, inside);
    let surv = resolve_spec(a.enemies, inside).1;
    assert forall|j: int| 0 <= j < surv.len() implies (#[trigger] surv[j]).projectile.damage
        >= 0 by {
        assert(inside.contains(surv[j]));
        let k = choose|k: int| 0 <= k < inside.len() && inside[k] == surv[j];
        assert(inside[k].projectile.damage >= 0);
    }
    let fin = tick_spec(v, dt, cmds);
    assert forall|i: int| 0 <= i < fin.enemies.len() implies (
    #[trigger] fin.enemies[i]).enemy.health >= 0 by {
        let mid = resolve_spec(a.enemies, inside).0;
        assert(fin.enemies[i] == (EnemySlot {
            handle: mid[i].handle,
            enemy: mid[i].enemy.spec_stepped(dt),
        }));
    }
}

/// Law: there is no heal. Across one tick every enemy keeps its handle and
/// its health never rises, whatever commands arrive.
pub proof fn lemma_health_non_increasing(v: SimView, dt: u32, cmds: Seq<Command>)
    requires
        combat_wf(v),
    ensures
        tick_spec(v, dt, cmds).enemies.len() == v.enemies.len(),
        forall|i: int|
            0 <= i < v.enemies.len() ==> {
                let s = #[trigger] tick_spec(v, dt, cmds).enemies[i];
                &&& s.handle == v.enemies[i].handle
                &&& s.enemy.health <= v.enemies[i].enemy.health
            },
{
    lemma_tick_enemy_pipeline(v, dt, cmds);
}

/// One tick's worth of external input: the elapsed milliseconds and the
/// commands queued for it.
pub ghost struct TickInput {
    pub dt: u32,
    pub cmds: Seq<Command>,
}

/// The state after a whole sequence of ticks.
pub open spec fn run_spec(v: SimView, inputs: Seq<TickInput>) -> SimView
    decreases inputs.len(),
{
    if inputs.len() == 0 {
        v
    } else {
        run_spec(tick_spec(v, inputs[0].dt, inputs[0].cmds), inputs.drop_first())
    }
}

/// Law: across any sequence of ticks, with any commands, each enemy's
/// health is non-increasing — no input can heal an enemy.
pub proof fn lemma_health_non_increasing_over_run(v: SimView, inputs: Seq<TickInput>)
    requires
        combat_wf(v),
    ensures
        combat_wf(run_spec(v, inputs)),
        run_spec(v, inputs).enemies.len() == v.enemies.len(),
        forall|i: int|
            0 <= i < v.enemies.len() ==> {
                let s = #[trigger] run_spec(v, inputs).enemies[i];
                &&& s.handle == v.enemies[i].handle
                &&& s.enemy.health <= v.enemies[i].enemy.health
            },
    decreases inputs.len(),
{
    if inputs.len() > 0 {
        let v1 = tick_spec(v, inputs[0].dt, inputs[0].cmds);
        lemma_health_non_increasing(v, inputs[0].dt, inputs[0].cmds);
        lemma_tick_preserves_combat_wf(v, inputs[0].dt, inputs[0].cmds);
        lemma_health_non_increasing_over_run(v1, inputs.drop_first());
    }
}

/// Law: an enemy out of health at the end of a tick is Dead at the end of
/// that same tick, wherever it stands on the field.
pub proof fn lemma_out_of_health_is_dead(v: SimView, dt: u32, cmds: Seq<Command>)
    ensures
        forall|i: int|
            0 <= i < tick_spec(v, dt, cmds).enemies.len() ==> ((#[trigger] tick_spec(
                v,
                dt,
                cmds,
            ).enemies[i]).enemy.health <= 0 ==> tick_spec(v, dt, cmds).enemies[i].enemy.state
                is Dead),
{
}

/// Law: a walking enemy with health left that stands at or past the attack
/// line turns to Attacking before any movement is applied that tick: its
/// position comes out unchanged.
pub proof fn lemma_attack_transition_before_movement(e: Enemy, dt: u32)
    requires
        e.state is Walking,
        e.health > 0,
        e.pos.x >= ATTACK_LINE,
    ensures
        e.spec_stepped(dt).state is Attacking,
        e.spec_stepped(dt).pos == e.pos,
        e.spec_stepped(dt).health == e.health,
{
}

/// Law, at tick level: a walking enemy that starts the tick at or past the
/// attack line does not move that tick — the transition out of Walking is
/// evaluated before movement, so it turns to Attacking (or dies of its
/// wounds) exactly where it stood.
pub proof fn lemma_attack_line_stops_movement(v: SimView, dt: u32, cmds: Seq<Command>)
    requires
        combat_wf(v),
    ensures
        forall|i: int|
            0 <= i < v.enemies.len() && (#[trigger] v.enemies[i]).enemy.state is Walking
                && v.enemies[i].enemy.pos.x >= ATTACK_LINE ==> tick_spec(
                v,
                dt,
                cmds,
            ).enemies[i].enemy.pos == v.enemies[i].enemy.pos && !(tick_spec(
                v,
                dt,
                cmds,
            ).enemies[i].enemy.state is Walking),
{
    lemma_tick_enemy_pipeline(v, dt, cmds);
}

/// Number of enemies that pass from a live state to Dead between two
/// index-aligned snapshots.
pub open spec fn death_transitions_count(before: Seq<EnemySlot>, after: Seq<EnemySlot>) -> int
    decreases before.len(),
{
    if before.len() == 0 || after.len() == 0 {
        0
    } else {
        (if !(before[0].enemy.state is Dead) && after[0].enemy.state is Dead {
            1int
        } else {
            0int
        }) + death_transitions_count(before.drop_first(), after.drop_first())
    }
}

/// Two index-aligned counts agree when their per-index conditions do.
proof fn lemma_counts_agree(before: Seq<EnemySlot>, mid: Seq<EnemySlot>, after: Seq<EnemySlot>)
    requires
        before.len() == mid.len(),
        mid.len() == after.len(),
        forall|i: int|
            0 <= i < mid.len() ==> ((!((#[trigger] before[i]).enemy.state is Dead)
                && after[i].enemy.state is Dead) <==> (!((#[trigger] mid[i]).enemy.state is Dead)
                && mid[i].enemy.health <= 0)),
    ensures
        death_transitions_count(before, after) == newly_dead_count(mid),
    decreases mid.len(),
{
    if mid.len() > 0 {
        assert(forall|k: int|
            0 <= k < before.drop_first().len() ==> before.drop_first()[k] == before[k + 1]);
        assert(forall|k: int|
            0 <= k < mid.drop_first().len() ==> mid.drop_first()[k] == mid[k + 1]);
        assert(forall|k: int|
            0 <= k < after.drop_first().len() ==> after.drop_first()[k] == after[k + 1]);
        lemma_counts_agree(before.drop_first(), mid.drop_first(), after.drop_first());
    }
}

/// Law: across a tick, the player's wealth changes only through the
/// drained purchase commands and then grows by exactly one per enemy that
/// transitions to Dead that tick — and by nothing else. Enemies that were
/// already Dead contribute nothing.
pub proof fn lemma_kill_reward(v: SimView, dt: u32, cmds: Seq<Command>)
    requires
        combat_wf(v),
        v.player.wealth + v.enemies.len() <= u64::MAX,
    ensures
        tick_spec(v, dt, cmds).player.wealth == apply_commands_spec(v, cmds).player.wealth
            + death_transitions_count(v.enemies, tick_spec(v, dt, cmds).enemies),
{
    lemma_tick_enemy_pipeline(v, dt, cmds);
    lemma_commands_effect(v, cmds);
    let a = apply_commands_spec(v, cmds);
    let inside = despawn_past_spec(moved_projectiles_spec(a.projectiles, dt));
    let mid = resolve_spec(a.enemies, inside).0;
    let fin = tick_spec(v, dt, cmds);
    lemma_newly_dead_count_bounds(mid);
    assert forall|i: int| 0 <= i < mid.len() implies ((!((
    #[trigger] v.enemies[i]).enemy.state is Dead) && fin.enemies[i].enemy.state is Dead) <==> (!((
    #[trigger] mid[i]).enemy.state is Dead) && mid[i].enemy.health <= 0)) by {
        assert(fin.enemies[i] == (EnemySlot {
            handle: mid[i].handle,
            enemy: mid[i].enemy.spec_stepped(dt),
        }));
    }
    lemma_counts_agree(v.enemies, mid, fin.enemies);
}

/// Law: Dead is terminal. A dead enemy stays dead through any further tick,
/// so its death can never be counted, rewarded or resolved a second time.
pub proof fn lemma_dead_stays_dead(v: SimView, dt: u32, cmds: Seq<Command>)
    requires
        combat_wf(v),
    ensures
        tick_spec(v, dt, cmds).enemies.len() == v.enemies.len(),
        forall|i: int|
            0 <= i < v.enemies.len() && (#[trigger] v.enemies[i]).enemy.state is Dead
                ==> tick_spec(v, dt, cmds).enemies[i].enemy.state is Dead && tick_spec(
                v,
                dt,
                cmds,
            ).enemies[i].enemy.pos == v.enemies[i].enemy.pos,
{
    lemma_tick_enemy_pipeline(v, dt, cmds);
}

} // verus!
