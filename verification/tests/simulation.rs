use wizard_defense::enemy::EnemyState;
use wizard_defense::geometry::Pos;
use wizard_defense::player::VerticalDir;
use wizard_defense::sim::{Command, Sim};

fn no_commands() -> Vec<Command> {
    Vec::new()
}

#[test]
fn tick_on_an_empty_world_changes_nothing() {
    let mut sim = Sim::new();
    sim.tick(1000, &no_commands());
    assert_eq!(sim.registry.enemy_count(), 0);
    assert_eq!(sim.registry.projectile_count(), 0);
    assert_eq!(sim.wall.health, 200);
    assert_eq!(sim.wall.max_health, 200);
    assert_eq!(sim.player.wealth, 0);
    assert_eq!(sim.player.pos.y, 100_000);
}

#[test]
fn collision_consumes_projectile_and_damages_enemy() {
    let mut sim = Sim::new();
    let e = sim.registry.spawn_enemy(Pos { x: 0, y: 0 });
    sim.registry.spawn_projectile(Pos { x: 0, y: 0 });
    assert_eq!(sim.registry.projectile_count(), 1);
    sim.tick(0, &no_commands());
    assert_eq!(sim.registry.projectile_count(), 0);
    let enemy = sim.registry.get_enemy(e).expect("enemy should survive the hit");
    assert_eq!(enemy.health, 80);
    assert!(matches!(enemy.state, EnemyState::Walking));
}

#[test]
fn one_projectile_hits_only_the_first_enemy() {
    let mut sim = Sim::new();
    let first = sim.registry.spawn_enemy(Pos { x: 0, y: 0 });
    let second = sim.registry.spawn_enemy(Pos { x: 0, y: 0 });
    sim.registry.spawn_projectile(Pos { x: 0, y: 0 });
    sim.tick(0, &no_commands());
    assert_eq!(sim.registry.projectile_count(), 0);
    assert_eq!(sim.registry.get_enemy(first).unwrap().health, 80);
    assert_eq!(sim.registry.get_enemy(second).unwrap().health, 100);
}

#[test]
fn several_projectiles_may_hit_one_enemy_in_a_tick() {
    let mut sim = Sim::new();
    let e = sim.registry.spawn_enemy(Pos { x: 0, y: 0 });
    sim.registry.spawn_projectile(Pos { x: 0, y: 0 });
    sim.registry.spawn_projectile(Pos { x: 10_000, y: 0 });
    sim.tick(0, &no_commands());
    assert_eq!(sim.registry.projectile_count(), 0);
    assert_eq!(sim.registry.get_enemy(e).unwrap().health, 60);
}

#[test]
fn repair_purchase_deducts_and_heals() {
    let mut sim = Sim::new();
    sim.player.wealth = 150;
    sim.wall.health = 150;
    sim.tick(0, &vec![Command::PurchaseRepair]);
    assert_eq!(sim.player.wealth, 50);
    assert_eq!(sim.wall.health, 160);
    // 50 is below the 100 cost: the command is dropped without effect
    sim.tick(0, &vec![Command::PurchaseRepair]);
    assert_eq!(sim.player.wealth, 50);
    assert_eq!(sim.wall.health, 160);
}

#[test]
fn upgrade_purchase_deducts_raises_max_and_heals() {
    let mut sim = Sim::new();
    sim.player.wealth = 1000;
    sim.wall.health = 100;
    sim.tick(0, &vec![Command::PurchaseUpgrade]);
    assert_eq!(sim.player.wealth, 0);
    assert_eq!(sim.wall.max_health, 220);
    assert_eq!(sim.wall.health, 220);
    // an unaffordable upgrade is dropped without effect
    sim.tick(0, &vec![Command::PurchaseUpgrade]);
    assert_eq!(sim.player.wealth, 0);
    assert_eq!(sim.wall.max_health, 220);
}

#[test]
fn kill_rewards_exactly_once() {
    let mut sim = Sim::new();
    let e = sim.registry.spawn_enemy(Pos { x: 0, y: 0 });
    sim.registry.enemies[0].enemy.health = 20;
    sim.registry.spawn_projectile(Pos { x: 0, y: 0 });
    sim.tick(0, &no_commands());
    let enemy = sim.registry.get_enemy(e).unwrap();
    assert_eq!(enemy.health, 0);
    assert!(matches!(enemy.state, EnemyState::Dead));
    assert_eq!(sim.player.wealth, 1);
    // the enemy stays dead over later ticks and is never rewarded again
    sim.tick(16, &no_commands());
    sim.tick(16, &no_commands());
    assert_eq!(sim.player.wealth, 1);
    assert!(matches!(sim.registry.get_enemy(e).unwrap().state, EnemyState::Dead));
}

#[test]
fn health_never_rises_over_many_ticks() {
    let mut sim = Sim::new();
    let e = sim.registry.spawn_enemy(Pos { x: 0, y: 0 });
    sim.registry.spawn_projectile(Pos { x: 60_000, y: 0 });
    let mut last = sim.registry.get_enemy(e).unwrap().health;
    for _ in 0..8 {
        sim.tick(100, &vec![Command::FireProjectile]);
        let now = sim.registry.get_enemy(e).unwrap().health;
        assert!(now <= last);
        last = now;
    }
}

#[test]
fn fired_projectile_starts_at_player_and_moves_this_tick() {
    let mut sim = Sim::new();
    sim.tick(1000, &vec![Command::FireProjectile]);
    assert_eq!(sim.registry.projectile_count(), 1);
    let shot = sim.registry.iterate_projectiles()[0].projectile;
    // spawned at the player (750, 100), then flew 500 units left
    assert_eq!(shot.pos.x, 250_000);
    assert_eq!(shot.pos.y, 100_000);
}

#[test]
fn projectile_past_left_boundary_despawns_exactly_once() {
    let mut sim = Sim::new();
    sim.registry.spawn_projectile(Pos { x: 0, y: 0 });
    sim.tick(1000, &no_commands());
    // at -500 units: still inside
    assert_eq!(sim.registry.projectile_count(), 1);
    sim.tick(1000, &no_commands());
    // at -1000 units: past -800, removed
    assert_eq!(sim.registry.projectile_count(), 0);
    // nothing left for later boundary passes to remove
    sim.tick(1000, &no_commands());
    assert_eq!(sim.registry.projectile_count(), 0);
}

#[test]
fn move_commands_respect_the_band() {
    let mut sim = Sim::new();
    sim.tick(0, &vec![Command::MovePlayer(VerticalDir::Up, 500)]);
    assert_eq!(sim.player.pos.y, 250_000);
    sim.tick(0, &vec![Command::MovePlayer(VerticalDir::Up, 1000)]);
    assert_eq!(sim.player.pos.y, 250_000);
    sim.tick(
        0,
        &vec![
            Command::MovePlayer(VerticalDir::Down, 500),
            Command::MovePlayer(VerticalDir::Down, 500),
        ],
    );
    assert_eq!(sim.player.pos.y, -50_000);
}

#[test]
fn enemy_reaching_the_line_attacks_before_moving() {
    let mut sim = Sim::new();
    let e = sim.registry.spawn_enemy(Pos { x: 536_000, y: 0 });
    sim.tick(1000, &no_commands());
    let enemy = sim.registry.get_enemy(e).unwrap();
    assert!(matches!(enemy.state, EnemyState::Attacking));
    assert_eq!(enemy.pos.x, 536_000);
}

#[test]
fn attack_cycle_notification_damages_the_wall_once() {
    let mut sim = Sim::new();
    let e = sim.registry.spawn_enemy(Pos { x: 536_000, y: 0 });
    sim.tick(0, &no_commands());
    assert!(matches!(sim.registry.get_enemy(e).unwrap().state, EnemyState::Attacking));
    sim.notify_attack_cycle_complete(e);
    assert_eq!(sim.wall.health, 190);
    sim.notify_attack_cycle_complete(e);
    assert_eq!(sim.wall.health, 180);
}

#[test]
fn attack_cycle_notification_ignores_non_attackers() {
    let mut sim = Sim::new();
    let walker = sim.registry.spawn_enemy(Pos { x: 0, y: 0 });
    sim.notify_attack_cycle_complete(walker);
    assert_eq!(sim.wall.health, 200);
    sim.registry.despawn(walker);
    // a stale handle is a tolerated no-op
    sim.notify_attack_cycle_complete(walker);
    assert_eq!(sim.wall.health, 200);
}

#[test]
fn death_notification_removes_only_dead_enemies() {
    let mut sim = Sim::new();
    let e = sim.registry.spawn_enemy(Pos { x: 0, y: 0 });
    assert!(!sim.notify_death_animation_complete(e));
    assert_eq!(sim.registry.enemy_count(), 1);
    sim.registry.enemies[0].enemy.health = 0;
    sim.tick(0, &no_commands());
    assert!(sim.notify_death_animation_complete(e));
    assert_eq!(sim.registry.enemy_count(), 0);
    // already removed: a second completion is a no-op
    assert!(!sim.notify_death_animation_complete(e));
}

#[test]
fn random_spawn_lands_on_the_spawn_line_inside_the_band() {
    let mut sim = Sim::new();
    for _ in 0..32 {
        let h = sim.spawn_enemy_at_random_offset();
        let e = sim.registry.get_enemy(h).expect("fresh enemy must be present");
        assert_eq!(e.pos.x, -800_000);
        assert!(e.pos.y >= -385_000);
        assert!(e.pos.y < 385_000);
        assert_eq!(e.health, 100);
        assert_eq!(e.speed, 50);
        assert!(matches!(e.state, EnemyState::Walking));
    }
    assert_eq!(sim.registry.enemy_count(), 32);
}

#[test]
fn full_phase_order_in_one_tick() {
    // a dying attacker, a walking enemy, a spent projectile and a purchase,
    // all in one tick
    let mut sim = Sim::new();
    sim.player.wealth = 150;
    sim.wall.health = 100;
    let attacker = sim.registry.spawn_enemy(Pos { x: 540_000, y: 0 });
    sim.registry.enemies[0].enemy.health = 15;
    let walker = sim.registry.spawn_enemy(Pos { x: -100_000, y: 0 });
    // the projectile flies 500 units left before collision is resolved,
    // which lands it exactly on the doomed attacker
    sim.registry.spawn_projectile(Pos { x: 1_040_000, y: 0 });
    sim.tick(1000, &vec![Command::PurchaseRepair]);
    // purchase first: 150 - 100 wealth, wall 100 + 10
    // then the projectile hits the near enemy, killing it: +1 wealth
    assert_eq!(sim.wall.health, 110);
    assert_eq!(sim.player.wealth, 51);
    let a = sim.registry.get_enemy(attacker).unwrap();
    assert!(matches!(a.state, EnemyState::Dead));
    assert_eq!(a.health, 0);
    let w = sim.registry.get_enemy(walker).unwrap();
    assert!(matches!(w.state, EnemyState::Walking));
    assert_eq!(w.pos.x, -50_000);
    assert_eq!(sim.registry.projectile_count(), 0);
}
