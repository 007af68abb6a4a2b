use porcle::ammo::PaddleAmmo;
use porcle::paddle::{
    apply_cycle_effects, rotate_toward, wrap_angle, AccumulatedRotation, CycleEffect, FireOutcome, Launch, Paddle,
    PaddleMode, PaddleRotation, ToggleOutcome,
};

#[test]
fn ammo_offset_clamps_below_zero() {
    let mut ammo = PaddleAmmo::with_ammo(0, 55);
    ammo.offset(-999);
    assert_eq!(ammo.ammo(), 0);
}

#[test]
fn ammo_offset_clamps_at_capacity() {
    let mut ammo = PaddleAmmo::with_ammo(0, 55);
    ammo.offset(999);
    assert_eq!(ammo.ammo(), 55);
}

#[test]
fn ammo_offset_from_ten_by_minus_twenty_is_zero() {
    let mut ammo = PaddleAmmo::with_ammo(10, 55);
    ammo.offset(-20);
    assert_eq!(ammo.ammo(), 0);
    assert_eq!(ammo.capacity(), 55);
}

#[test]
fn ammo_offset_within_range_adds() {
    let mut ammo = PaddleAmmo::with_ammo(10, 55);
    ammo.offset(7);
    assert_eq!(ammo.ammo(), 17);
    ammo.offset(-3);
    assert_eq!(ammo.ammo(), 14);
    ammo.offset(isize::MIN);
    assert_eq!(ammo.ammo(), 0);
    ammo.offset(isize::MAX);
    assert_eq!(ammo.ammo(), 55);
}

#[test]
fn ammo_factor_in_thousandths() {
    assert_eq!(PaddleAmmo::with_ammo(11, 55).factor(), 200);
    assert_eq!(PaddleAmmo::with_ammo(55, 55).factor(), 1000);
    assert_eq!(PaddleAmmo::new(55).factor(), 0);
    assert_eq!(PaddleAmmo::new(0).factor(), 0);
    assert_eq!(PaddleAmmo::with_ammo(80, 55).ammo(), 55);
}

#[test]
fn angles_wrap_into_half_turns() {
    assert_eq!(wrap_angle(0), 0);
    assert_eq!(wrap_angle(180_000), 180_000);
    assert_eq!(wrap_angle(-180_000), 180_000);
    assert_eq!(wrap_angle(190_000), -170_000);
    assert_eq!(wrap_angle(-725_000), -5_000);
}

#[test]
fn paddle_turns_at_capped_rate() {
    // 450 ms per revolution: 16 ms allow 12.8 degrees.
    assert_eq!(rotate_toward(0, 90_000, 16), 12_800);
    assert_eq!(rotate_toward(0, 5_000, 16), 5_000);
    // The short way round, across the half turn.
    assert_eq!(rotate_toward(170_000, -170_000, 1000), -170_000);
    assert_eq!(rotate_toward(170_000, -170_000, 5), 174_000);
}

#[test]
fn accumulated_rotation_ignores_wrap_around() {
    let mut acc = AccumulatedRotation::new();
    acc.observe(170_000);
    assert_eq!(acc.total, 0);
    acc.observe(-170_000);
    assert_eq!(acc.total, 20_000);
    acc.observe(-100_000);
    assert_eq!(acc.total, 90_000);
}

fn sweep(rot: &mut PaddleRotation, from: i64, steps: i64) -> (u32, u32) {
    let mut refills = 0;
    let mut recalls = 0;
    for k in 1..=steps {
        let total = from + 360_000 * k / steps;
        match rot.apply_cycle(total, 16) {
            CycleEffect::RefillAmmo => refills += 1,
            CycleEffect::RecallBall => recalls += 1,
            CycleEffect::Nothing => {}
        }
    }
    (refills, recalls)
}

#[test]
fn full_ccw_sweep_refills_exactly_once_twice_in_a_row() {
    let mut rot = PaddleRotation::new();
    assert_eq!(sweep(&mut rot, 0, 12), (1, 0));
    assert_eq!(rot.cw_start, 360_000);
    assert_eq!(rot.ccw_start, 360_000);
    assert_eq!(sweep(&mut rot, 360_000, 12), (1, 0));
    assert_eq!(rot.ccw_start, 720_000);
}

#[test]
fn two_cw_turns_recall_the_ball() {
    let mut rot = PaddleRotation::new();
    let mut effects = Vec::new();
    for k in 1..=24 {
        effects.push(rot.apply_cycle(-30_000 * k, 16));
    }
    assert_eq!(effects.iter().filter(|e| **e == CycleEffect::RecallBall).count(), 1);
    assert_eq!(effects[23], CycleEffect::RecallBall);
    assert_eq!(rot.cw_start, -720_000);
}

#[test]
fn idle_paddle_forgets_its_sweep() {
    let mut rot = PaddleRotation::new();
    assert_eq!(rot.apply_cycle(300_000, 16), CycleEffect::Nothing);
    for _ in 0..4 {
        rot.apply_cycle(300_000, 16);
    }
    assert_eq!(rot.ccw_start, 300_000);
    // The sweep restarted at 300 degrees: 60 more degrees do not complete a turn.
    assert_eq!(rot.apply_cycle(360_000, 16), CycleEffect::Nothing);
}

#[test]
fn toggle_cycles_modes_and_launches() {
    let mut mode = PaddleMode::Reflect;
    assert_eq!(mode.toggle(0), None);
    assert_eq!(mode, PaddleMode::Capture);
    assert_eq!(mode.toggle(0), None);
    assert_eq!(mode, PaddleMode::Reflect);
    let mut held = PaddleMode::Captured { shoot_rotation: 10_000, ball: 7 };
    assert_eq!(held.toggle(90_000), Some(Launch { ball: 7, heading: -80_000 }));
    assert_eq!(held, PaddleMode::Reflect);
}

#[test]
fn toggle_respects_its_cooldown() {
    let mut paddle = Paddle::new(55, 0);
    assert_eq!(paddle.process_toggle(false), ToggleOutcome::Blocked);
    assert_eq!(paddle.process_toggle(true), ToggleOutcome::Switched);
    assert_eq!(paddle.mode, PaddleMode::Capture);
    assert_eq!(paddle.process_toggle(true), ToggleOutcome::Blocked);
    paddle.cooldowns.tick(porcle::timer::CooldownTag::PaddleMode, 150);
    assert_eq!(paddle.process_toggle(true), ToggleOutcome::Switched);
    assert_eq!(paddle.mode, PaddleMode::Reflect);
}

#[test]
fn gun_fires_reloads_and_warns_when_empty() {
    let mut paddle = Paddle::new(55, 0);
    assert_eq!(paddle.fire(true, 0, 0), FireOutcome::Empty { trauma: 400 });
    assert_eq!(paddle.fire(true, 0, 0), FireOutcome::Idle);
    paddle.ammo.offset(2);
    assert_eq!(
        paddle.fire(true, 500, -1_000),
        FireOutcome::Fired { heading: -1_000, reload_ms: 130, trauma: 125 }
    );
    assert_eq!(paddle.ammo.ammo(), 1);
    assert_eq!(paddle.fire(true, 500, 0), FireOutcome::Idle);
    assert_eq!(paddle.ammo.ammo(), 1);
}

#[test]
fn random_spread_stays_within_limit() {
    let mut paddle = Paddle::new(55, 0);
    paddle.ammo.offset(1);
    match paddle.fire_random(true, 0) {
        FireOutcome::Fired { heading, reload_ms, .. } => {
            assert!((-4_500..4_500).contains(&heading));
            assert_eq!(reload_ms, 170);
        }
        other => panic!("expected a shot, got {:?}", other),
    }
    assert_eq!(paddle.ammo.ammo(), 0);
}

#[test]
fn new_game_paddle_holds_fresh_ball() {
    let mut paddle = Paddle::spawn();
    assert_eq!(paddle.ammo.capacity(), 55);
    assert_eq!(paddle.ammo.ammo(), 0);
    paddle.hold_new_ball(9);
    assert_eq!(paddle.mode, PaddleMode::Captured { shoot_rotation: 0, ball: 9 });
    assert_eq!(
        paddle.process_toggle(true),
        ToggleOutcome::Launched(Launch { ball: 9, heading: 180_000 })
    );
}

#[test]
fn ccw_turn_refills_ammo_by_bonus() {
    let mut rot = PaddleRotation::new();
    let mut ammo = PaddleAmmo::with_ammo(50, 55);
    let mut refills = 0;
    for k in 1..=12 {
        if apply_cycle_effects(&mut rot, &mut ammo, 30_000 * k, 16, 1000) == CycleEffect::RefillAmmo {
            refills += 1;
        }
    }
    assert_eq!(refills, 1);
    assert_eq!(ammo.ammo(), 55);
    let mut ammo = PaddleAmmo::new(55);
    let mut rot = PaddleRotation::new();
    assert_eq!(apply_cycle_effects(&mut rot, &mut ammo, 360_000, 16, 0), CycleEffect::RefillAmmo);
    assert_eq!(ammo.ammo(), 2);
}

#[test]
fn random_fire_on_empty_magazine_warns_once() {
    let mut paddle = Paddle::new(55, 0);
    assert_eq!(paddle.fire_random(true, 0), FireOutcome::Empty { trauma: 400 });
    assert_eq!(paddle.fire_random(true, 0), FireOutcome::Idle);
    assert_eq!(paddle.ammo.ammo(), 0);
}
