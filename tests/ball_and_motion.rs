use porcle::ammo::PaddleAmmo;
use porcle::ball::{
    ammo_bonus, reflection_angle, speed_factor, target_factor, Ball, BallZone, EnemyHit,
    MaxBallSpeedFactor, PaddleHit, WallHit, BALL_BASE_SPEED,
};
use porcle::fixed::{floor_sqrt_u64, isqrt, reflect, Vec2i};
use porcle::motion::{
    apply_damping, apply_impulse, compute_velocity, first_in_window, integrate, out_of_bounds,
    steer, Homing,
};
use porcle::paddle::PaddleMode;
use porcle::timer::CooldownTag;

#[test]
fn centre_hit_reflects_straight_and_speeds_up() {
    assert_eq!(reflection_angle(-10_000, 0), 0);
    let mut ball = Ball::new();
    let mut mode = PaddleMode::Reflect;
    let mut ammo = PaddleAmmo::new(55);
    let hit = ball.hit_paddle(&mut mode, &mut ammo, 1, 0, -10_000, 0, 1_000, 0);
    assert_eq!(hit, PaddleHit::Reflected { heading: 180_000, pause_ms: 100, trauma: 150 });
    assert_eq!(ball.speed, 306_250);
    assert_eq!(ammo.ammo(), 2);
    assert_eq!(ball.last_reflection_ms, 1_100);
    assert!(ball.cooldowns.is_active(CooldownTag::MovementPaused));
}

#[test]
fn reflection_speed_is_clamped_to_five_base_speeds() {
    let mut ball = Ball::new();
    ball.speed = 5 * BALL_BASE_SPEED;
    let mut mode = PaddleMode::Reflect;
    let mut ammo = PaddleAmmo::new(55);
    ball.hit_paddle(&mut mode, &mut ammo, 1, 0, -10_000, 0, 1_000, 1000);
    assert_eq!(ball.speed, 1_250_000);
    assert_eq!(ammo.ammo(), 6);
}

#[test]
fn edge_hits_deflect_up_to_twenty_degrees() {
    // Signed by the side of the paddle that was hit and by which end.
    assert_eq!(reflection_angle(-1, 50_000), -20_000);
    assert_eq!(reflection_angle(-1, -80_000), 20_000);
    assert_eq!(reflection_angle(1, 50_000), 200_000);
    // A quarter of the way out: 0.25^1.5 of the largest angle.
    assert_eq!(reflection_angle(-1, 12_500), -2_500);
}

#[test]
fn consecutive_paddle_hits_are_ignored() {
    let mut ball = Ball::new();
    let mut mode = PaddleMode::Reflect;
    let mut ammo = PaddleAmmo::new(55);
    ball.hit_paddle(&mut mode, &mut ammo, 1, 0, -10_000, 0, 1_000, 0);
    let again = ball.hit_paddle(&mut mode, &mut ammo, 1, 0, -10_000, 0, 1_150, 0);
    assert_eq!(again, PaddleHit::Ignored);
    assert_eq!(ball.speed, 306_250);
}

#[test]
fn capture_only_from_inside() {
    let mut ball = Ball::new();
    let mut mode = PaddleMode::Capture;
    let mut ammo = PaddleAmmo::new(55);
    let outside = ball.hit_paddle(&mut mode, &mut ammo, 3, 0, 10_000, 0, 1_000, 0);
    assert!(matches!(outside, PaddleHit::Reflected { .. }));
    assert_eq!(mode, PaddleMode::Capture);
    let mut ball = Ball::new();
    let inside = ball.hit_paddle(&mut mode, &mut ammo, 3, 0, -10_000, 25_000, 5_000, 0);
    assert_eq!(inside, PaddleHit::Captured { shoot_rotation: -7_060 });
    assert_eq!(mode, PaddleMode::Captured { shoot_rotation: -7_060, ball: 3 });
    assert_eq!(ball.speed, BALL_BASE_SPEED);
}

#[test]
fn wall_hit_mirrors_and_slows() {
    let mut ball = Ball::new();
    ball.speed = 500_000;
    let hit = ball.hit_wall(Vec2i::new(600, -800), Vec2i::new(0, 1000), 1_000);
    assert_eq!(
        hit,
        WallHit::Reflected { dir: Vec2i::new(600, 800), pause_ms: 210, trauma: 325 }
    );
    assert_eq!(ball.speed, 450_000);
    assert!(ball.retarget);
    assert_eq!(ball.hit_wall(Vec2i::new(600, 800), Vec2i::new(0, -1000), 1_200), WallHit::Ignored);
}

#[test]
fn enemy_hit_scores_unless_ball_is_held() {
    let mut ball = Ball::new();
    let mut score = 0u64;
    assert_eq!(ball.hit_enemy(true, &mut score), EnemyHit::Ignored);
    assert_eq!(score, 0);
    assert_eq!(ball.hit_enemy(false, &mut score), EnemyHit::Destroyed { pause_ms: 104, trauma: 150 });
    assert_eq!(score, 1);
}

#[test]
fn ball_zone_follows_distance() {
    let mut ball = Ball::new();
    assert!(!ball.update_zone(100_000));
    assert!(ball.update_zone(300_000));
    assert_eq!(ball.zone, BallZone::Outside);
    assert!(ball.update_zone(219_999));
    assert_eq!(ball.zone, BallZone::Inside);
}

#[test]
fn held_ball_slows_toward_base_speed() {
    let mut ball = Ball::new();
    ball.speed = 300_000;
    ball.settle_speed(true, 100);
    assert_eq!(ball.speed, 290_000);
    ball.settle_speed(false, 100);
    assert_eq!(ball.speed, 290_000);
    ball.settle_speed(true, 1_000);
    assert_eq!(ball.speed, BALL_BASE_SPEED);
}

#[test]
fn speed_factor_and_ammo_bonus_values() {
    assert_eq!(speed_factor(250_000, 250_000, 500_000), 0);
    assert_eq!(speed_factor(375_000, 250_000, 500_000), 500);
    assert_eq!(speed_factor(500_000, 250_000, 500_000), 1000);
    assert_eq!(speed_factor(499_999, 250_000, 500_000), 999);
    assert_eq!(speed_factor(2_000_000, 250_000, 500_000), 1000);
    assert_eq!(speed_factor(100_000, 250_000, 500_000), 0);
    assert_eq!(ammo_bonus(0), 2);
    assert_eq!(ammo_bonus(500), 4);
    assert_eq!(ammo_bonus(1000), 6);
}

#[test]
fn max_speed_factor_eases_toward_fastest_ball() {
    assert_eq!(target_factor(&vec![]), 0);
    assert_eq!(target_factor(&vec![250_000, 950_000, 450_000]), 1000);
    let mut f = MaxBallSpeedFactor::new();
    f.update(&vec![950_000], 100);
    assert_eq!(f.value, 600);
    f.update(&vec![950_000], 500);
    assert_eq!(f.value, 1000);
    f.update(&vec![], 50);
    assert_eq!(f.value, 700);
    assert_eq!(f.ammo_bonus(), 4);
}

#[test]
fn square_roots() {
    assert_eq!(isqrt(0), 0);
    assert_eq!(isqrt(15), 3);
    assert_eq!(isqrt(16), 4);
    assert_eq!(floor_sqrt_u64(u64::MAX), 4_294_967_295);
}

#[test]
fn reflection_keeps_length() {
    let d = Vec2i::new(600, -800);
    let r = reflect(d, Vec2i::new(0, 1));
    assert_eq!(r, Vec2i::new(600, 800));
    let r = reflect(Vec2i::new(1000, 0), Vec2i::new(-1, 0));
    assert_eq!(r, Vec2i::new(-1000, 0));
    let r = reflect(Vec2i::new(0, -1000), Vec2i::new(600, 800));
    assert_eq!(r, Vec2i::new(960, 280));
    assert_eq!(r.x * r.x + r.y * r.y, 1000 * 1000);
}

#[test]
fn damping_shrinks_velocity_and_speed() {
    let (v, s) = apply_damping(Vec2i::new(1000, -400), Some(300_000), 5_000, 16);
    assert_eq!(v, Vec2i::new(920, -368));
    assert_eq!(s, Some(276_000));
    let mut v = Vec2i::new(7, -3);
    for _ in 0..10 {
        let (next, _) = apply_damping(v, None, 30_000, 16);
        assert!(next.x * next.x + next.y * next.y < v.x * v.x + v.y * v.y || next.is_zero());
        v = next;
    }
    let (same, speed) = apply_damping(Vec2i::new(1000, -400), Some(5), 0, 16);
    assert_eq!(same, Vec2i::new(1000, -400));
    assert_eq!(speed, Some(5));
}

#[test]
fn velocity_and_impulse() {
    let v = compute_velocity(Vec2i::new(1000, 0), 250_000, 1000, 16);
    assert_eq!(v, Vec2i::new(4_000, 0));
    let v = compute_velocity(Vec2i::new(-600, 800), 250_000, 500, 20);
    assert_eq!(v, Vec2i::new(-1_500, 2_000));
    let (v, i) = apply_impulse(Vec2i::new(100, 0), Vec2i::new(30_000, -30_000), 10);
    assert_eq!(v, Vec2i::new(2_050, -1_950));
    assert_eq!(i, Vec2i::new(28_050, -28_050));
}

fn ball_homing() -> Homing {
    Homing {
        max_distance: 300_000,
        max_factor: 80,
        factor_decay: 2,
        max_angle_cos: 342,
        speed_range: Some((250_000, 500_000)),
    }
}

#[test]
fn homing_never_picks_target_beyond_angle() {
    let h = ball_homing();
    let pos = Vec2i::new(0, 0);
    let dir = Vec2i::new(1000, 0);
    // Nearest target straight behind; farther one 45 degrees off the heading.
    let targets = vec![Vec2i::new(-50_000, 0), Vec2i::new(100_000, 100_000), Vec2i::new(0, 90_000)];
    assert_eq!(h.select_target(pos, dir, &targets), Some(1));
    let only_behind = vec![Vec2i::new(-50_000, 0), Vec2i::new(10_000, 90_000)];
    assert_eq!(h.select_target(pos, dir, &only_behind), None);
}

#[test]
fn homing_prefers_nearest_and_respects_distance_and_window() {
    let h = ball_homing();
    let pos = Vec2i::new(0, 0);
    let dir = Vec2i::new(1000, 0);
    let targets = vec![
        Vec2i::new(200_000, 0),
        Vec2i::new(100_000, 10_000),
        Vec2i::new(100_000, -10_000),
        Vec2i::new(400_000, 0),
    ];
    assert_eq!(h.select_target(pos, dir, &targets), Some(1));
    let far = vec![Vec2i::new(400_000, 0)];
    assert_eq!(h.select_target(pos, dir, &far), None);
    let outside = vec![Vec2i::new(760_000, 0)];
    assert_eq!(h.select_target(Vec2i::new(600_000, 0), dir, &outside), None);
}

#[test]
fn homing_strength_and_steer() {
    let h = ball_homing();
    assert_eq!(h.steer_strength(150_000, 250_000, 16), None);
    assert_eq!(h.steer_strength(150_000, 500_000, 16), Some(320));
    assert_eq!(h.steer_strength(0, 375_000, 10), Some(400));
    assert_eq!(steer(Vec2i::new(1000, 0), Vec2i::new(0, 1000), 500), Vec2i::new(707, 707));
    assert_eq!(steer(Vec2i::new(1000, 0), Vec2i::new(-1000, 0), 500), Vec2i::new(0, 0));
}

#[test]
fn positions_windows_and_bounds() {
    assert_eq!(integrate(Vec2i::new(10, -10), Vec2i::new(4_000, 5)), Vec2i::new(4_010, -5));
    let found = vec![Vec2i::new(800_000, 0), Vec2i::new(0, -760_000), Vec2i::new(700_000, -700_000)];
    assert_eq!(first_in_window(&found), Some(2));
    assert_eq!(first_in_window(&vec![Vec2i::new(800_000, 0)]), None);
    assert!(out_of_bounds(Vec2i::new(1_750_001, 0)));
    assert!(!out_of_bounds(Vec2i::new(-5_000_000, 1_750_000)));
}

#[test]
fn homing_step_turns_toward_chosen_target() {
    let h = ball_homing();
    let pos = Vec2i::new(0, 0);
    let dir = Vec2i::new(1000, 0);
    let targets = vec![Vec2i::new(-50_000, 0), Vec2i::new(150_000, 150_000)];
    // Too slow to steer at all.
    assert_eq!(h.home(pos, dir, 250_000, &targets, 16), None);
    // Nothing ahead within range.
    assert_eq!(h.home(pos, dir, 500_000, &vec![Vec2i::new(-50_000, 0)], 16), None);
    let v = h.home(pos, dir, 500_000, &targets, 16).unwrap();
    assert_eq!(v, Vec2i::new(996, 78));
}

#[test]
fn wall_hit_at_base_speed_slows_below_it() {
    let mut ball = Ball::new();
    assert_eq!(ball.speed, 250_000);
    let hit = ball.hit_wall(Vec2i::new(1000, 0), Vec2i::new(-1, 0), 1_000);
    assert_eq!(hit, WallHit::Reflected { dir: Vec2i::new(-1000, 0), pause_ms: 126, trauma: 241 });
    assert_eq!(ball.speed, 225_000);
    assert!(!ball.cooldowns.is_active(CooldownTag::Reload));
}
