use porcle::enemy::{
    plan_spawn, slowdown_curve, spawn_interval_ms, spawn_weights, spawnable_kind, time_mult_range,
    BarrelChange, Enemy, EnemyGunBarrel, EnemyKind, ProjectileHit, SpawnEnemy, SpawnPlan, Spawner,
};
use porcle::fixed::Vec2i;
use porcle::gears::{CoreDamage, CoreGears};
use porcle::projectile::{clear_inside_orbit, Projectile, ProjectileTarget};
use porcle::timer::{CooldownTag, Cooldowns, Timer};

#[test]
fn spawn_interval_at_score_zero_is_five_to_six_seconds() {
    assert_eq!(time_mult_range(0), (2500, 3000));
    assert_eq!(EnemyKind::Creepinek.base_time(), 2000);
    assert_eq!(spawn_interval_ms(EnemyKind::Creepinek, 2500), 5000);
    assert_eq!(spawn_interval_ms(EnemyKind::Creepinek, 2999), 5998);
}

#[test]
fn spawner_draws_only_unlocked_kinds_and_resamples_interval() {
    let mut spawner = Spawner::new();
    let plan = spawner.tick(16, 0).expect("the spawner fires on its first tick");
    assert_eq!(plan.spawn.kind, EnemyKind::Creepinek);
    assert!((5000..6000).contains(&plan.next_interval_ms));
    assert!((-360_000..360_000).contains(&plan.spawn.heading));
    assert_eq!(plan.spawn.distance, 1_231_370);
    assert_eq!(spawner.timer.duration_ms, plan.next_interval_ms);
    assert_eq!(spawner.tick(16, 0), None);
    for _ in 0..50 {
        let mut s = Spawner::new();
        let p = s.tick(1, 5).unwrap();
        assert!(p.spawn.kind == EnemyKind::Creepinek || p.spawn.kind == EnemyKind::Shieldy);
        let range = if p.spawn.kind == EnemyKind::Creepinek { 3_000..4_000 } else { 4_500..6_000 };
        assert!(range.contains(&p.next_interval_ms));
    }
}

#[test]
fn spawn_tables_by_score() {
    assert_eq!(spawn_weights(2), vec![1, 0, 0, 0, 0]);
    assert_eq!(spawn_weights(3), vec![5, 2, 0, 0, 0]);
    assert_eq!(spawn_weights(22), vec![4, 1, 1, 0, 0]);
    assert_eq!(spawn_weights(1000), vec![4, 1, 1, 1, 0]);
    assert_eq!(time_mult_range(91), (300, 500));
    assert_eq!(time_mult_range(50), (700, 1000));
    assert_eq!(spawnable_kind(2), EnemyKind::BangBang);
    assert_eq!(spawnable_kind(3), EnemyKind::BigBoi);
}

#[test]
fn plan_turns_ranged_spawns_by_quadrant() {
    assert_eq!(
        plan_spawn(2, 45_000, 3, 1000),
        SpawnPlan {
            spawn: SpawnEnemy { kind: EnemyKind::BangBang, heading: 315_000, distance: 1_231_370 },
            next_interval_ms: 3000,
        }
    );
    assert_eq!(plan_spawn(0, -100_000, 0, 2500).spawn.heading, -100_000);
    assert_eq!(plan_spawn(3, 0, 0, 300).next_interval_ms, 1350);
}

#[test]
fn spawned_enemies_by_kind() {
    let big = Enemy::spawn(EnemyKind::BigBoi, 20_000, 0).unwrap();
    assert_eq!(big.health, 8);
    assert!(!big.shielded);
    let shieldy = Enemy::spawn(EnemyKind::Shieldy, 20_000, 0).unwrap();
    assert!(shieldy.shielded);
    let bang = Enemy::spawn(EnemyKind::BangBang, 30_000, 420_000).unwrap();
    assert_eq!(bang.stop_radius, Some(420_000));
    assert_eq!(bang.barrel, Some(EnemyGunBarrel::Inactive));
    assert!(Enemy::spawn(EnemyKind::ShieldedBang, 1, 1).is_none());
    let s = Enemy::spawn_random(EnemyKind::Shieldy).unwrap();
    assert!(s.shielded);
    assert_eq!(s.health, 3);
    let r = Enemy::spawn_random(EnemyKind::BangBang).unwrap();
    assert_eq!(r.barrel, Some(EnemyGunBarrel::Inactive));
    assert_eq!(r.speed_mult, 0);
    assert!((30_000..45_000).contains(&r.speed));
    assert!((400_000..480_000).contains(&r.stop_radius.unwrap()));
    assert_eq!(EnemyKind::Creepinek.base_speed(), 35_000);
}

#[test]
fn shielded_enemy_keeps_health_but_is_knocked_back() {
    let mut e = Enemy::spawn(EnemyKind::Shieldy, 20_000, 0).unwrap();
    for _ in 0..5 {
        assert_eq!(e.on_projectile_hit(Vec2i::new(0, 1000)), ProjectileHit::Deflected);
    }
    assert_eq!(e.health, 3);
    assert_eq!(e.impulse, Vec2i::new(0, 150_000));
    assert!(e.active);
}

#[test]
fn unshielded_enemy_loses_health_then_becomes_debris() {
    let mut e = Enemy::spawn(EnemyKind::Creepinek, 35_000, 0).unwrap();
    assert_eq!(e.on_projectile_hit(Vec2i::new(1000, 0)), ProjectileHit::Damaged);
    assert_eq!(e.on_projectile_hit(Vec2i::new(1000, 0)), ProjectileHit::Damaged);
    assert_eq!(e.health, 1);
    assert_eq!(e.impulse, Vec2i::new(60_000, 0));
    assert_eq!(e.on_projectile_hit(Vec2i::new(1000, 0)), ProjectileHit::Killed);
    assert_eq!(e.health, 0);
    assert!(!e.active);
    assert_eq!(e.damping, Some(5_000));
    assert_eq!(e.impulse, Vec2i::new(60_000, 0));
}

#[test]
fn despawned_enemy_turns_to_debris() {
    let mut e = Enemy::spawn(EnemyKind::BigBoi, 15_000, 0).unwrap();
    e.despawn();
    assert!(!e.active);
    assert_eq!(e.damping, Some(5_000));
    assert_eq!(e.kind, EnemyKind::BigBoi);
    assert_eq!(e.speed, 15_000);
    assert_eq!(e.health, 8);
}

#[test]
fn slowdown_curve_values() {
    assert_eq!(slowdown_curve(0), 0);
    assert_eq!(slowdown_curve(1000), 1000);
    assert_eq!(slowdown_curve(500), 307);
    assert_eq!(slowdown_curve(172), 50);
    assert_eq!(slowdown_curve(171), 49);
}

#[test]
fn ranged_enemy_stops_near_core_and_arms_its_gun() {
    let mut e = Enemy::spawn(EnemyKind::BangBang, 30_000, 400_000).unwrap();
    assert_eq!(e.slow_down_near_core(1_000_000), BarrelChange::Deactivated);
    assert_eq!(e.speed_mult, 1000);
    assert_eq!(e.slow_down_near_core(425_000), BarrelChange::Unchanged);
    assert_eq!(e.speed_mult, 307);
    assert_eq!(e.slow_down_near_core(400_000), BarrelChange::Activated);
    assert_eq!(e.speed_mult, 0);
    assert_eq!(e.barrel, Some(EnemyGunBarrel::Active));
    // The same cutoff both ways: a small move back out disarms it again.
    assert_eq!(e.slow_down_near_core(408_600), BarrelChange::Unchanged);
    assert_eq!(e.slow_down_near_core(408_700), BarrelChange::Deactivated);
    assert_eq!(e.barrel, Some(EnemyGunBarrel::Inactive));
    let mut melee = Enemy::spawn(EnemyKind::Creepinek, 30_000, 0).unwrap();
    assert_eq!(melee.slow_down_near_core(0), BarrelChange::Unchanged);
    assert_eq!(melee.speed_mult, 1000);
}

#[test]
fn core_loses_one_gear_per_hit_and_ends_game_once() {
    let mut core = CoreGears::new((10..18).collect());
    assert_eq!(core.health(), 8);
    assert_eq!(core.take_damage(), Some(CoreDamage { gear: 17, game_over: false }));
    assert_eq!(core.health(), 7);
    assert!(!core.is_active(0));
    assert!(core.is_active(1));
    for k in 1..7 {
        assert_eq!(core.take_damage(), Some(CoreDamage { gear: 17 - k, game_over: false }));
    }
    assert_eq!(core.take_damage(), Some(CoreDamage { gear: 10, game_over: true }));
    assert_eq!(core.health(), 0);
    assert_eq!(core.take_damage(), None);
    assert_eq!(core.health(), 0);
}

#[test]
fn core_hit_clears_the_orbit() {
    let (enemies, shots) = clear_inside_orbit(
        &vec![250_000, 150_000, 199_999, 200_000],
        &vec![
            (ProjectileTarget::Core, 100_000),
            (ProjectileTarget::Enemy, 100_000),
            (ProjectileTarget::Core, 300_000),
        ],
    );
    assert_eq!(enemies, vec![1, 2]);
    assert_eq!(shots, vec![0]);
    assert_eq!(ProjectileTarget::Enemy.speed(), 1_600_000);
    assert_eq!(ProjectileTarget::Core.damping(), 100);
}

#[test]
fn timer_finishes_once() {
    let mut t = Timer::new(50);
    assert!(!t.tick(30));
    assert!(t.tick(30));
    assert!(!t.tick(30));
    t.reset();
    assert!(!t.finished);
    assert!(Timer::new(0).tick(0));
}

#[test]
fn cooldowns_are_independent() {
    let mut c = Cooldowns::new();
    c.start(CooldownTag::Reload, 100);
    c.start(CooldownTag::MovementPaused, 40);
    assert!(c.tick(CooldownTag::MovementPaused, 40));
    assert!(!c.is_active(CooldownTag::MovementPaused));
    assert!(c.is_active(CooldownTag::Reload));
    assert!(!c.tick(CooldownTag::Reload, 60));
    assert!(c.is_active(CooldownTag::Reload));
    c.cancel(CooldownTag::Reload);
    assert!(!c.is_active(CooldownTag::Reload));
    assert!(!c.tick(CooldownTag::NoAmmoShake, 10));
}

#[test]
fn enemy_touching_core_becomes_debris_and_costs_a_gear() {
    let mut core = CoreGears::new(vec![1, 2]);
    let mut e = Enemy::spawn(EnemyKind::Creepinek, 35_000, 0).unwrap();
    assert_eq!(core.on_enemy_contact(&mut e), Some(CoreDamage { gear: 2, game_over: false }));
    assert!(!e.active);
    assert_eq!(core.health(), 1);
}

#[test]
fn projectile_is_spent_after_a_hit() {
    let mut p = Projectile::new(ProjectileTarget::Enemy);
    assert!(p.active);
    assert_eq!(p.speed, 1_600_000);
    assert_eq!(p.damping, 800);
    p.on_hit();
    assert!(!p.active);
    assert_eq!(p.damping, 30_000);
    assert_eq!(p.target, ProjectileTarget::Enemy);
}
