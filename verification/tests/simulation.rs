//! Behaviour of the simulation on concrete frames.

use pong_core::ball::{ball_step, reset_serve, spawn_ball, Ball};
use pong_core::court::{field_bounds, Bounds};
use pong_core::fixed::{clamp, isqrt, mul_div};
use pong_core::game::{
    ball_hits_paddle, new_game, resolve_collisions, resolve_collisions_with, step_frame,
    step_frame_with, GameState, InputSnapshot,
};
use pong_core::paddle::{paddle_update, spawn_paddle, Paddle, Side};
use pong_core::score::Score;

fn standard_bounds() -> Bounds {
    // An 800 x 600 world-unit viewport.
    field_bounds(800_000, 600_000)
}

fn standard_left_paddle() -> Paddle {
    Paddle { side: Side::Left, x: -365_000, y: 0, width: 20_000, height: 100_000 }
}

fn standard_right_paddle() -> Paddle {
    Paddle { side: Side::Right, x: 365_000, y: 0, width: 20_000, height: 100_000 }
}

#[test]
fn fixed_point_helpers_round_toward_zero() {
    assert_eq!(mul_div(7, 3, 2), 10);
    assert_eq!(mul_div(-7, 3, 2), -10);
    assert_eq!(mul_div(7, -3, 2), -10);
    assert_eq!(mul_div(-7, -3, 2), 10);
    assert_eq!(mul_div(0, 5, 3), 0);
}

#[test]
fn integer_square_roots() {
    assert_eq!(isqrt(0), 0);
    assert_eq!(isqrt(1), 1);
    assert_eq!(isqrt(3), 1);
    assert_eq!(isqrt(4), 2);
    assert_eq!(isqrt(580_000), 761);
    assert_eq!(isqrt(1_062_500), 1030);
    assert_eq!(isqrt(u64::MAX), 4_294_967_295);
}

#[test]
fn clamp_picks_the_nearest_bound() {
    assert_eq!(clamp(5, 0, 10), 5);
    assert_eq!(clamp(-5, 0, 10), 0);
    assert_eq!(clamp(15, 0, 10), 10);
}

#[test]
fn field_bounds_inset_by_half_a_wall() {
    let b = standard_bounds();
    assert_eq!(b.top, 295_000);
    assert_eq!(b.bottom, -295_000);
    assert_eq!(b.left, -395_000);
    assert_eq!(b.right, 395_000);
}

#[test]
fn paddles_spawn_at_their_stations() {
    let b = standard_bounds();
    let lp = spawn_paddle(Side::Left, &b);
    let rp = spawn_paddle(Side::Right, &b);
    assert_eq!(lp.x, -365_000);
    assert_eq!(rp.x, 365_000);
    assert_eq!(lp.y, 0);
    assert_eq!(rp.y, 0);
    assert_eq!(lp.width, 20_000);
    assert_eq!(lp.height, 100_000);
}

// With only the up key held for a tenth of a second, the paddle climbs by
// PADDLE_SPEED * dt = 50 world units.
#[test]
fn paddle_up_one_tenth_second() {
    let b = standard_bounds();
    let mut p = standard_left_paddle();
    paddle_update(&mut p, &b, true, false, 100);
    assert_eq!(p.y, 50_000);
}

#[test]
fn paddle_down_one_tenth_second() {
    let b = standard_bounds();
    let mut p = standard_right_paddle();
    paddle_update(&mut p, &b, false, true, 100);
    assert_eq!(p.y, -50_000);
}

// The two keys contribute independent additive deltas, so both held at once
// cancel out.
#[test]
fn paddle_both_keys_cancel() {
    let b = standard_bounds();
    let mut p = standard_left_paddle();
    paddle_update(&mut p, &b, true, true, 100);
    assert_eq!(p.y, 0);
}

// An extreme time delta drives the paddle to the clamp bound:
// top wall inner edge minus half the paddle.
#[test]
fn paddle_clamped_at_top() {
    let b = standard_bounds();
    let mut p = standard_left_paddle();
    paddle_update(&mut p, &b, true, false, 1_000_000);
    assert_eq!(p.y, 240_000);
}

#[test]
fn paddle_clamped_at_bottom() {
    let b = standard_bounds();
    let mut p = standard_left_paddle();
    paddle_update(&mut p, &b, false, true, 1_000_000);
    assert_eq!(p.y, -240_000);
}

// The paddle clamped in a field barely taller than itself.
#[test]
fn paddle_clamped_in_small_field() {
    let b = field_bounds(800_000, 130_000);
    let mut p = standard_left_paddle();
    paddle_update(&mut p, &b, true, false, 100);
    assert_eq!(p.y, 5_000);
}

// The spawned ball carries the normalized opening direction (0.7, 0.3)
// scaled to base speed 400.
#[test]
fn spawn_ball_direction() {
    let ball = spawn_ball();
    assert_eq!(ball.x, 0);
    assert_eq!(ball.y, 0);
    assert_eq!(ball.vx, 367_936);
    assert_eq!(ball.vy, 157_687);
    assert_eq!(ball.speed, 400_000);
    assert_eq!(ball.size, 15_000);
}

// Ball at the origin with the spawn velocity, after dt = 0.05 s: position
// advances to roughly (18.4, 7.9) world units, exactly velocity * dt on the
// fixed-point grid.
#[test]
fn ball_motion_one_twentieth_second() {
    let mut ball = spawn_ball();
    ball_step(&mut ball, 50);
    assert_eq!(ball.x, 18_396);
    assert_eq!(ball.y, 7_884);
    assert_eq!(ball.vx, 367_936);
    assert_eq!(ball.vy, 157_687);
}

// A ball poking past the top wall has its vertical velocity reflected, with
// the horizontal component and the stored speed untouched.
#[test]
fn wall_reflection_flips_vertical_sign_only() {
    let b = standard_bounds();
    let lp = standard_left_paddle();
    let rp = standard_right_paddle();
    let mut ball = spawn_ball();
    ball.y = 288_000;
    let mut sc = Score { left: 0, right: 0 };
    resolve_collisions_with(&mut ball, &mut sc, &lp, &rp, &b, 0);
    assert_eq!(ball.vy, -157_687);
    assert_eq!(ball.vx, 367_936);
    assert_eq!(ball.speed, 400_000);
    assert_eq!(sc.left, 0);
    assert_eq!(sc.right, 0);

    // A second reflection restores the earlier sign and still keeps speed.
    ball.y = -288_000;
    resolve_collisions_with(&mut ball, &mut sc, &lp, &rp, &b, 0);
    assert_eq!(ball.vy, 157_687);
    assert_eq!(ball.vx, 367_936);
    assert_eq!(ball.speed, 400_000);
}

// Ball out past the left edge: the right side scores exactly one point, the
// left stays, the ball returns to the centre and serves rightward at base
// speed.
#[test]
fn left_exit_scores_for_the_right() {
    let b = standard_bounds();
    let lp = standard_left_paddle();
    let rp = standard_right_paddle();
    let mut ball = spawn_ball();
    ball.x = -400_000;
    let mut sc = Score { left: 3, right: 7 };
    resolve_collisions_with(&mut ball, &mut sc, &lp, &rp, &b, 0);
    assert_eq!(sc.left, 3);
    assert_eq!(sc.right, 8);
    assert_eq!(ball.x, 0);
    assert_eq!(ball.y, 0);
    assert_eq!(ball.speed, 400_000);
    assert_eq!(ball.vx, 400_000);
    assert_eq!(ball.vy, 0);
}

#[test]
fn right_exit_scores_for_the_left() {
    let b = standard_bounds();
    let lp = standard_left_paddle();
    let rp = standard_right_paddle();
    let mut ball = spawn_ball();
    ball.x = 400_000;
    let mut sc = Score { left: 0, right: 0 };
    resolve_collisions_with(&mut ball, &mut sc, &lp, &rp, &b, 0);
    assert_eq!(sc.left, 1);
    assert_eq!(sc.right, 0);
    assert_eq!(ball.x, 0);
    assert!(ball.vx < 0);
    assert_eq!(ball.speed, 400_000);
}

// A serve with the largest allowed tilt: direction (1, 0.25) normalized and
// scaled to base speed, all on the fixed-point grid.
#[test]
fn serve_with_full_tilt() {
    let mut ball = spawn_ball();
    reset_serve(&mut ball, true, 250);
    assert_eq!(ball.x, 0);
    assert_eq!(ball.y, 0);
    assert_eq!(ball.speed, 400_000);
    assert_eq!(ball.vx, 388_349);
    assert_eq!(ball.vy, 97_087);
}

// Whatever tilt the randomness collaborator draws, the serve's vertical
// component stays within a quarter of the base speed and the ball heads
// strictly rightward after a left exit.
#[test]
fn random_serves_stay_in_the_band() {
    let b = standard_bounds();
    let lp = standard_left_paddle();
    let rp = standard_right_paddle();
    for _ in 0..200 {
        let mut ball = spawn_ball();
        ball.x = -400_000;
        let mut sc = Score { left: 0, right: 0 };
        resolve_collisions(&mut ball, &mut sc, &lp, &rp, &b);
        assert_eq!(sc.right, 1);
        assert_eq!(ball.speed, 400_000);
        assert!(ball.vx > 0);
        assert!(ball.vy.abs() <= 100_000);
    }
}

// Ball overlapping the left paddle at the paddle's centre height: bounce
// angle zero, so the new velocity is (newSpeed, 0) pointing rightward, with
// the speed up five percent.
#[test]
fn centre_hit_bounces_straight() {
    let b = standard_bounds();
    let lp = standard_left_paddle();
    let rp = standard_right_paddle();
    let mut ball = spawn_ball();
    ball.x = -360_000;
    ball.vx = -367_936;
    let mut sc = Score { left: 0, right: 0 };
    resolve_collisions_with(&mut ball, &mut sc, &lp, &rp, &b, 0);
    assert_eq!(ball.speed, 420_000);
    assert_eq!(ball.vx, 420_000);
    assert_eq!(ball.vy, 0);
    assert_eq!(ball.x, -360_000);
    assert_eq!(sc.left, 0);
    assert_eq!(sc.right, 0);
}

// Two hits in a row compound the speed multiplier: 400 * 1.05 * 1.05.
#[test]
fn consecutive_hits_compound_speed() {
    let b = standard_bounds();
    let lp = standard_left_paddle();
    let rp = standard_right_paddle();
    let mut ball = spawn_ball();
    ball.x = -360_000;
    let mut sc = Score { left: 0, right: 0 };
    resolve_collisions_with(&mut ball, &mut sc, &lp, &rp, &b, 0);
    assert_eq!(ball.speed, 420_000);
    resolve_collisions_with(&mut ball, &mut sc, &lp, &rp, &b, 0);
    assert_eq!(ball.speed, 441_000);
}

// Overlap needs all four strict half-plane conditions: a ball just touching
// the paddle's face does not overlap it.
#[test]
fn touching_face_is_no_overlap() {
    let lp = standard_left_paddle();
    let mut ball = spawn_ball();
    // Paddle's outer face at x = -375000; ball half size 7500.
    ball.x = -382_500;
    assert!(!ball_hits_paddle(&ball, &lp));
    ball.x = -382_499;
    assert!(ball_hits_paddle(&ball, &lp));
}

// An offset hit near the paddle's edge sends the ball at a steep angle and
// still raises the speed by five percent.
#[test]
fn edge_hit_bounces_at_an_angle() {
    let b = standard_bounds();
    let lp = standard_left_paddle();
    let rp = standard_right_paddle();
    let mut ball = spawn_ball();
    ball.x = -360_000;
    ball.y = 40_000;
    let mut sc = Score { left: 0, right: 0 };
    resolve_collisions_with(&mut ball, &mut sc, &lp, &rp, &b, 0);
    assert_eq!(ball.speed, 420_000);
    assert!(ball.vy > 0);
    assert!(ball.vx > 0);
    // The components stay consistent with the speed scalar within the
    // rounding of the trig polynomials.
    let v2 = ball.vx * ball.vx + ball.vy * ball.vy;
    let s2 = ball.speed * ball.speed;
    assert!((v2 - s2).abs() <= s2 / 100);
}

// One whole frame: paddles first, then ball motion, then collisions.
#[test]
fn one_frame_of_play() {
    let b = standard_bounds();
    let mut g = new_game(&b);
    let input = InputSnapshot {
        left_up: true,
        left_down: false,
        right_up: false,
        right_down: true,
    };
    step_frame_with(&mut g, input, 100, 0);
    assert_eq!(g.left_paddle.y, 50_000);
    assert_eq!(g.right_paddle.y, -50_000);
    assert_eq!(g.ball.x, 36_793);
    assert_eq!(g.ball.y, 15_768);
    assert_eq!(g.score.left, 0);
    assert_eq!(g.score.right, 0);
}

// A frame in which the ball crosses the left edge: the score moves and the
// serve leaves the centre rightward, whatever tilt was drawn.
#[test]
fn one_frame_with_a_score() {
    let b = standard_bounds();
    let mut g = new_game(&b);
    g.ball.x = -394_000;
    g.ball.vx = -367_936;
    let input = InputSnapshot {
        left_up: false,
        left_down: false,
        right_up: false,
        right_down: false,
    };
    step_frame(&mut g, input, 100);
    assert_eq!(g.score.right, 1);
    assert_eq!(g.score.left, 0);
    assert_eq!(g.ball.x, 0);
    assert!(g.ball.vx > 0);
    assert_eq!(g.ball.speed, 400_000);
}

// Entities spawned by new_game match the component spawns.
#[test]
fn new_game_matches_spawns() {
    let b = standard_bounds();
    let g: GameState = new_game(&b);
    assert_eq!(g.left_paddle, spawn_paddle(Side::Left, &b));
    assert_eq!(g.right_paddle, spawn_paddle(Side::Right, &b));
    let ball: Ball = spawn_ball();
    assert_eq!(g.ball, ball);
    assert_eq!(g.bounds, b);
}
