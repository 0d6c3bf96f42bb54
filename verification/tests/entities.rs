use wizard_defense::enemy::{Enemy, EnemyState};
use wizard_defense::geometry::{overlaps, BoxSize, Pos};
use wizard_defense::player::{Player, VerticalDir};
use wizard_defense::projectile::Projectile;
use wizard_defense::registry::Registry;
use wizard_defense::wall::Wall;

fn enemy_box() -> BoxSize {
    Enemy::get_hurtbox()
}

fn projectile_box() -> BoxSize {
    Projectile::get_hitbox()
}

#[test]
fn hurtbox_and_hitbox_sizes() {
    let e = enemy_box();
    assert_eq!(e.w, 57_500);
    assert_eq!(e.h, 82_500);
    let p = projectile_box();
    assert_eq!(p.w, 100_000);
    assert_eq!(p.h, 50_000);
}

#[test]
fn overlap_at_same_center() {
    assert!(overlaps(Pos { x: 0, y: 0 }, enemy_box(), Pos { x: 0, y: 0 }, projectile_box()));
}

#[test]
fn overlap_is_strict_on_the_x_axis() {
    // half-widths sum to (57_500 + 100_000) / 2 = 78_750
    assert!(!overlaps(
        Pos { x: 0, y: 0 },
        enemy_box(),
        Pos { x: 78_750, y: 0 },
        projectile_box()
    ));
    assert!(overlaps(Pos { x: 0, y: 0 }, enemy_box(), Pos { x: 78_749, y: 0 }, projectile_box()));
}

#[test]
fn overlap_is_strict_on_the_y_axis() {
    // half-heights sum to (82_500 + 50_000) / 2 = 66_250
    assert!(!overlaps(
        Pos { x: 0, y: 0 },
        enemy_box(),
        Pos { x: 0, y: -66_250 },
        projectile_box()
    ));
    assert!(overlaps(Pos { x: 0, y: 0 }, enemy_box(), Pos { x: 0, y: -66_249 }, projectile_box()));
}

#[test]
fn wall_defaults_and_getters() {
    let w = Wall::default();
    assert_eq!(w.health(), 200);
    assert_eq!(w.max_health(), 200);
}

#[test]
fn wall_damage_is_clamped_at_zero() {
    let mut w = Wall::default();
    w.apply_damage(150);
    assert_eq!(w.health(), 50);
    w.apply_damage(500);
    assert_eq!(w.health(), 0);
    assert_eq!(w.max_health(), 200);
}

#[test]
fn wall_repair_is_capped_at_max() {
    let mut w = Wall::default();
    w.apply_damage(15);
    w.repair();
    assert_eq!(w.health(), 195);
    w.repair();
    assert_eq!(w.health(), 200);
    w.repair();
    assert_eq!(w.health(), 200);
}

#[test]
fn wall_upgrade_raises_max_and_fully_heals() {
    let mut w = Wall::default();
    w.apply_damage(100);
    w.upgrade_max_health();
    assert_eq!(w.max_health(), 220);
    assert_eq!(w.health(), 220);
}

#[test]
fn player_defaults() {
    let p = Player::default();
    assert_eq!(p.pos.x, 750_000);
    assert_eq!(p.pos.y, 100_000);
    assert_eq!(p.speed, 300);
    assert_eq!(p.wealth(), 0);
}

#[test]
fn player_wealth_changes() {
    let mut p = Player::default();
    p.add_wealth(7);
    assert_eq!(p.wealth(), 7);
    p.spend(5);
    assert_eq!(p.wealth(), 2);
}

#[test]
fn player_moves_inside_the_band_only() {
    let mut p = Player::default();
    // 500 ms at 300 milli-units/ms: 150_000 upward
    p.move_vertical(VerticalDir::Up, 500);
    assert_eq!(p.pos.y, 250_000);
    // another 300_000 would put the sprite edge past the band: no move
    p.move_vertical(VerticalDir::Up, 1000);
    assert_eq!(p.pos.y, 250_000);
    p.move_vertical(VerticalDir::Down, 1000);
    assert_eq!(p.pos.y, -50_000);
}

#[test]
fn enemy_defaults() {
    let e = Enemy::default();
    assert_eq!(e.speed, 50);
    assert_eq!(e.health(), 100);
    assert_eq!(e.pos.x, -800_000);
    assert!(matches!(e.state, EnemyState::Walking));
}

#[test]
fn enemy_damage_is_clamped_at_zero() {
    let mut e = Enemy::default();
    e.apply_damage(90);
    assert_eq!(e.health(), 10);
    e.apply_damage(20);
    assert_eq!(e.health(), 0);
}

#[test]
fn enemy_walks_toward_the_wall() {
    let mut e = Enemy::default();
    e.step(1000);
    // 1000 ms at 50 milli-units/ms: 50 world units
    assert_eq!(e.pos.x, -750_000);
    assert!(matches!(e.state, EnemyState::Walking));
}

#[test]
fn enemy_attacks_at_the_line_before_moving() {
    let mut e = Enemy::spawned_at(Pos { x: 536_000, y: 0 });
    e.step(1000);
    assert!(matches!(e.state, EnemyState::Attacking));
    assert_eq!(e.pos.x, 536_000);
    // attacking enemies stand still and keep attacking
    e.step(1000);
    assert!(matches!(e.state, EnemyState::Attacking));
    assert_eq!(e.pos.x, 536_000);
}

#[test]
fn enemy_below_the_line_keeps_walking_past_it() {
    let mut e = Enemy::spawned_at(Pos { x: 535_999, y: 0 });
    e.step(1000);
    assert!(matches!(e.state, EnemyState::Walking));
    assert_eq!(e.pos.x, 585_999);
    e.step(1000);
    assert!(matches!(e.state, EnemyState::Attacking));
    assert_eq!(e.pos.x, 585_999);
}

#[test]
fn enemy_out_of_health_dies_wherever_it_stands() {
    let mut e = Enemy::spawned_at(Pos { x: 550_000, y: 0 });
    e.apply_damage(100);
    e.step(16);
    assert!(matches!(e.state, EnemyState::Dead));
    assert_eq!(e.pos.x, 550_000);
    // dead is terminal
    e.step(16);
    assert!(matches!(e.state, EnemyState::Dead));
}

#[test]
fn projectile_defaults_and_movement() {
    let p = Projectile::default();
    assert_eq!(p.speed, 500);
    assert_eq!(p.damage(), 20);
    let mut q = Projectile::spawned_at(Pos { x: 0, y: 0 });
    q.advance(1000);
    assert_eq!(q.pos.x, -500_000);
    assert!(!q.is_past_left_boundary());
    q.advance(1000);
    assert_eq!(q.pos.x, -1_000_000);
    assert!(q.is_past_left_boundary());
}

#[test]
fn registry_spawn_lookup_despawn() {
    let mut r = Registry::new();
    let a = r.spawn_enemy(Pos { x: -800_000, y: 0 });
    let b = r.spawn_enemy(Pos { x: -800_000, y: 10_000 });
    let p = r.spawn_projectile(Pos { x: 0, y: 0 });
    assert_ne!(a.id, b.id);
    assert_ne!(a.id, p.id);
    assert_eq!(r.enemy_count(), 2);
    assert_eq!(r.projectile_count(), 1);
    assert!(r.get_enemy(a).is_some());
    assert!(r.get_projectile(p).is_some());

    assert!(r.despawn(a));
    assert_eq!(r.enemy_count(), 1);
    assert!(r.get_enemy(a).is_none());
    // a stale handle is a tolerated no-op
    assert!(!r.despawn(a));
    // the other enemy is still reachable under its own handle
    let still = r.get_enemy(b).expect("second enemy should survive");
    assert_eq!(still.pos.y, 10_000);
    // fresh spawns never reuse an id
    let c = r.spawn_enemy(Pos { x: -800_000, y: 0 });
    assert_ne!(c.id, a.id);
    assert_ne!(c.id, b.id);
}

#[test]
fn registry_despawns_projectiles_too() {
    let mut r = Registry::new();
    let e = r.spawn_enemy(Pos { x: 0, y: 0 });
    let p = r.spawn_projectile(Pos { x: 0, y: 0 });
    assert!(r.despawn(p));
    assert_eq!(r.projectile_count(), 0);
    assert_eq!(r.enemy_count(), 1);
    assert!(r.get_projectile(p).is_none());
    assert!(!r.despawn(p));
    assert!(r.get_enemy(e).is_some());
}

#[test]
fn registry_update_by_handle() {
    let mut r = Registry::new();
    let h = r.spawn_enemy(Pos { x: -800_000, y: 0 });
    let mut e = r.get_enemy(h).unwrap();
    e.apply_damage(30);
    assert!(r.update_enemy(h, e));
    assert_eq!(r.get_enemy(h).unwrap().health(), 70);
    r.despawn(h);
    // writing through a stale handle is a tolerated no-op
    assert!(!r.update_enemy(h, e));
    assert_eq!(r.enemy_count(), 0);
}

#[test]
fn registry_iteration_snapshots() {
    let mut r = Registry::new();
    r.spawn_enemy(Pos { x: -800_000, y: -5_000 });
    r.spawn_enemy(Pos { x: -700_000, y: 5_000 });
    let snapshot = r.iterate_enemies();
    assert_eq!(snapshot.len(), 2);
    assert_eq!(snapshot[0].enemy.pos.x, -800_000);
    assert_eq!(snapshot[1].enemy.pos.x, -700_000);
    assert!(r.iterate_projectiles().is_empty());
}
