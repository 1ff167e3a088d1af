//! The collision resolver and the per-frame pipeline, with the laws the
//! simulation obeys.

use vstd::prelude::*;

use crate::ball::Ball;
use crate::ball::BallG;
use crate::ball::moved_s;
use crate::ball::serve_vx_s;
use crate::ball::serve_vy_s;
use crate::court::Bounds;
use crate::court::BoundsG;
use crate::fixed::abs_s;
use crate::fixed::half;
use crate::fixed::lemma_mul_le;
use crate::fixed::mul_div;
use crate::fixed::mul_div_s;
use crate::paddle::Paddle;
use crate::paddle::PaddleG;
use crate::paddle::paddle_y_after;
use crate::score::Score;
use crate::score::ScoreG;
use crate::trig::cos_q_s;
use crate::trig::lemma_trig_at_zero;
use crate::trig::sin_q_s;

verus! {

/// The four control keys' held state, read once per frame.
#[derive(Clone, Copy, Debug, PartialEq, Eq, Structural)]
pub struct InputSnapshot {
    pub left_up: bool,
    pub left_down: bool,
    pub right_up: bool,
    pub right_down: bool,
}

/// A ball with its vertical velocity reversed.
pub open spec fn reflected(b: BallG) -> BallG {
    BallG { vy: -b.vy, ..b }
}

/// Whether the ball pokes past a wall's inner edge.
pub open spec fn touches_wall(b: BallG, w: BoundsG) -> bool {
    b.y + b.size / 2 > w.inner_top() || b.y - b.size / 2 < w.inner_bottom()
}

/// The wall stage: reflect the vertical velocity while the ball pokes past a
/// wall. No repositioning: the ball may show inside the wall for a frame.
pub open spec fn wall_stage(b: BallG, w: BoundsG) -> BallG {
    if touches_wall(b, w) {
        reflected(b)
    } else {
        b
    }
}

pub open spec fn exits_left(b: BallG, w: BoundsG) -> bool {
    b.x < w.left
}

pub open spec fn exits_right(b: BallG, w: BoundsG) -> bool {
    b.x > w.right
}

/// A ball just served from the centre toward `to_right` with tilt `tilt`.
pub open spec fn served_ball(size: int, to_right: bool, tilt: int) -> BallG {
    BallG {
        x: 0,
        y: 0,
        vx: serve_vx_s(to_right, tilt),
        vy: serve_vy_s(to_right, tilt),
        speed: crate::BALL_SPEED as int,
        size: size,
    }
}

/// The scoring stage's effect on the ball: an exit past either scoring edge
/// serves it anew toward the side it left through's opponent.
pub open spec fn score_stage_ball(b: BallG, w: BoundsG, tilt: int) -> BallG {
    if exits_left(b, w) {
        served_ball(b.size, true, tilt)
    } else if exits_right(b, w) {
        served_ball(b.size, false, tilt)
    } else {
        b
    }
}

/// The scoring stage's effect on the score: the side opposite the exit edge
/// gains exactly one point.
pub open spec fn score_stage_score(b: BallG, w: BoundsG, sc: ScoreG) -> ScoreG {
    if exits_left(b, w) {
        ScoreG { left: sc.left, right: sc.right + 1 }
    } else if exits_right(b, w) {
        ScoreG { left: sc.left + 1, right: sc.right }
    } else {
        sc
    }
}

/// Axis-aligned box overlap between ball and paddle, all four half-plane
/// conditions strict.
pub open spec fn overlaps(b: BallG, p: PaddleG) -> bool {
    &&& b.x + b.size / 2 > p.x - p.width / 2
    &&& b.x - b.size / 2 < p.x + p.width / 2
    &&& b.y + b.size / 2 > p.y - p.height / 2
    &&& b.y - b.size / 2 < p.y + p.height / 2
}

/// Contact offset of a hit, at scale `SCALE`: vertical distance from the
/// paddle centre over the paddle's half height. Unclamped, so contact past
/// the paddle's edge gives an offset beyond one.
pub open spec fn hit_offset(b: BallG, p: PaddleG) -> int {
    mul_div_s(b.y - p.y, crate::SCALE as int, p.height / 2)
}

/// Speed after one paddle hit: five percent up, on the fixed-point grid.
pub open spec fn hit_speed(s: int) -> int {
    mul_div_s(s, 105, 100)
}

/// The ball after a paddle hit: speed multiplied, velocity re-aimed by the
/// bounce angle of the contact offset, horizontal direction away from the
/// struck paddle.
pub open spec fn hit_ball(b: BallG, p: PaddleG, to_right: bool) -> BallG {
    let off = hit_offset(b, p);
    let ns = hit_speed(b.speed);
    let c = mul_div_s(ns, cos_q_s(off), crate::SCALE as int);
    BallG {
        vx: if to_right {
            c
        } else {
            -c
        },
        vy: mul_div_s(ns, sin_q_s(off), crate::SCALE as int),
        speed: ns,
        ..b
    }
}

/// One paddle's stage: a hit exactly when the boxes overlap.
pub open spec fn paddle_stage(b: BallG, p: PaddleG, to_right: bool) -> BallG {
    if overlaps(b, p) {
        hit_ball(b, p, to_right)
    } else {
        b
    }
}

/// The whole resolver's effect on the ball: wall reflection, then scoring
/// and serve, then the left paddle's stage, then the right's, in that fixed
/// order.
pub open spec fn resolved_ball(b: BallG, lp: PaddleG, rp: PaddleG, w: BoundsG, tilt: int) -> BallG {
    let b1 = wall_stage(b, w);
    let b2 = score_stage_ball(b1, w, tilt);
    let b3 = paddle_stage(b2, lp, true);
    paddle_stage(b3, rp, false)
}

/// The whole resolver's effect on the score.
pub open spec fn resolved_score(b: BallG, w: BoundsG, sc: ScoreG) -> ScoreG {
    score_stage_score(wall_stage(b, w), w, sc)
}

/// What the resolver asks of the ball it is handed: the machine bounds, with
/// room for one update's travel beyond `POS_LIMIT`, and a speed with
/// headroom for this frame's hits.
pub open spec fn resolve_ready(b: BallG) -> bool {
    &&& abs_s(b.x) <= crate::POS_RESOLVE_LIMIT
    &&& abs_s(b.y) <= crate::POS_RESOLVE_LIMIT
    &&& abs_s(b.vx) <= crate::VEL_LIMIT
    &&& abs_s(b.vy) <= crate::VEL_LIMIT
    &&& 0 <= b.speed <= crate::HIT_SPEED_MAX
    &&& 0 < b.size <= crate::SIZE_LIMIT
}

/// Box overlap test between ball and paddle.
pub fn ball_hits_paddle(b: &Ball, p: &Paddle) -> (r: bool)
    requires
        abs_s(b@.x) <= crate::POS_RESOLVE_LIMIT,
        abs_s(b@.y) <= crate::POS_RESOLVE_LIMIT,
        0 < b@.size <= crate::SIZE_LIMIT,
        p@.wf(),
    ensures
        r == overlaps(b@, p@),
{
    let bh = half(b.size);
    let pw = half(p.width);
    let ph = half(p.height);
    b.x + bh > p.x - pw && b.x - bh < p.x + pw && b.y + bh > p.y - ph && b.y - bh < p.y + ph
}

/// Apply one paddle hit to an overlapping ball.
fn paddle_hit(b: &mut Ball, p: &Paddle, to_right: bool)
    requires
        abs_s(old(b)@.x) <= crate::POS_RESOLVE_LIMIT,
        abs_s(old(b)@.y) <= crate::POS_RESOLVE_LIMIT,
        0 <= old(b)@.speed <= 2_100_000_000,
        0 < old(b)@.size <= p@.height,
        p@.wf(),
        overlaps(old(b)@, p@),
    ensures
        final(b)@ == hit_ball(old(b)@, p@, to_right),
        0 <= final(b)@.speed,
        final(b)@.speed * 100 <= old(b)@.speed * 105,
        abs_s(final(b)@.vx) <= crate::VEL_LIMIT,
        abs_s(final(b)@.vy) <= crate::VEL_LIMIT,
{
    let ghost b0 = b@;
    let dy = b.y - p.y;
    let ph = half(p.height);
    proof {
        let ghost ad = abs_s(dy as int);
        assert(abs_s(b0.size) == b0.size);
        assert(b0.size / 2 <= p@.height / 2);
        assert(ad < 2 * (ph as int));
        assert(ad * 1000 <= i64::MAX * (ph as int)) by (nonlinear_arith)
            requires
                0 <= ad,
                ad < 2 * (ph as int),
                1 <= ph as int,
        ;
    }
    let off = mul_div(dy, crate::SCALE, ph);
    proof {
        let ghost ao = abs_s(off as int);
        let ghost ad = abs_s(dy as int);
        assert(ao <= 2000) by (nonlinear_arith)
            requires
                0 <= ao,
                ao * (ph as int) <= ad * 1000,
                ad < 2 * (ph as int),
                1 <= ph as int,
        ;
    }
    let c_cos = crate::trig::cos_q(off);
    let c_sin = crate::trig::sin_q(off);
    proof {
        lemma_mul_le(abs_s(b.speed as int), 2_100_000_000, 105, 105);
    }
    let ns = mul_div(b.speed, 105, 100);
    proof {
        assert(0 <= ns as int && ns as int <= 2_205_000_000);
        lemma_mul_le(ns as int, 2_205_000_000, abs_s(c_cos as int), 2600);
        lemma_mul_le(ns as int, 2_205_000_000, abs_s(c_sin as int), 2600);
    }
    let vc = mul_div(ns, c_cos, crate::SCALE);
    let vs = mul_div(ns, c_sin, crate::SCALE);
    proof {
        assert(abs_s(vc as int) <= 5_733_000_000);
        assert(abs_s(vs as int) <= 5_733_000_000);
    }
    b.vx = if to_right {
        vc
    } else {
        -vc
    };
    b.vy = vs;
    b.speed = ns;
    proof {
        assert(b@ == hit_ball(b0, p@, to_right));
    }
}

/// One collision resolver pass with the serve tilt supplied by the caller:
/// wall reflection, then scoring with an immediate centre serve, then the
/// left paddle's hit, then the right's. Exactly the relation that
/// `resolved_ball` and `resolved_score` state, stage for stage.
pub fn resolve_collisions_with(
    b: &mut Ball,
    sc: &mut Score,
    lp: &Paddle,
    rp: &Paddle,
    w: &Bounds,
    tilt: i64,
)
    requires
        resolve_ready(old(b)@),
        lp@.wf(),
        rp@.wf(),
        w@.wf(),
        old(b)@.size <= lp@.height,
        old(b)@.size <= rp@.height,
        -crate::SERVE_TILT_MAX <= tilt <= crate::SERVE_TILT_MAX,
        old(sc)@.left < u32::MAX,
        old(sc)@.right < u32::MAX,
    ensures
        final(b)@ == resolved_ball(old(b)@, lp@, rp@, w@, tilt as int),
        final(sc)@ == resolved_score(old(b)@, w@, old(sc)@),
        abs_s(final(b)@.vx) <= crate::VEL_LIMIT,
        abs_s(final(b)@.vy) <= crate::VEL_LIMIT,
        0 <= final(b)@.speed <= crate::SPEED_LIMIT,
        final(b)@.size == old(b)@.size,
{
    let ghost b0 = b@;
    let bh = half(b.size);
    let half_t = half(crate::WALL_THICKNESS);
    if b.y + bh > w.top - half_t || b.y - bh < w.bottom + half_t {
        b.vy = -b.vy;
    }
    proof {
        assert(b@ == wall_stage(b0, w@));
    }
    let ghost b1 = b@;
    if b.x < w.left {
        sc.add_right();
        crate::ball::reset_serve(b, true, tilt);
    } else if b.x > w.right {
        sc.add_left();
        crate::ball::reset_serve(b, false, tilt);
    }
    proof {
        assert(b@ == score_stage_ball(b1, w@, tilt as int));
        assert(sc@ == score_stage_score(b1, w@, old(sc)@));
    }
    let ghost b2 = b@;
    if ball_hits_paddle(b, lp) {
        paddle_hit(b, lp, true);
    }
    proof {
        assert(b@ == paddle_stage(b2, lp@, true));
    }
    let ghost b3 = b@;
    if ball_hits_paddle(b, rp) {
        paddle_hit(b, rp, false);
    }
    proof {
        assert(b@ == paddle_stage(b3, rp@, false));
    }
}

/// One collision resolver pass, drawing the serve tilt from the randomness
/// collaborator. Whatever tilt was drawn, it lies within the serve band and
/// the rest of the pass is the deterministic relation at that tilt.
pub fn resolve_collisions(b: &mut Ball, sc: &mut Score, lp: &Paddle, rp: &Paddle, w: &Bounds)
    requires
        resolve_ready(old(b)@),
        lp@.wf(),
        rp@.wf(),
        w@.wf(),
        old(b)@.size <= lp@.height,
        old(b)@.size <= rp@.height,
        old(sc)@.left < u32::MAX,
        old(sc)@.right < u32::MAX,
    ensures
        final(sc)@ == resolved_score(old(b)@, w@, old(sc)@),
        exists|t: int|
            -crate::SERVE_TILT_MAX <= t <= crate::SERVE_TILT_MAX && final(b)@ == resolved_ball(
                old(b)@,
                lp@,
                rp@,
                w@,
                t,
            ),
        abs_s(final(b)@.vx) <= crate::VEL_LIMIT,
        abs_s(final(b)@.vy) <= crate::VEL_LIMIT,
        0 <= final(b)@.speed <= crate::SPEED_LIMIT,
        final(b)@.size == old(b)@.size,
{
    let tilt = crate::rng::random_between(-crate::SERVE_TILT_MAX, crate::SERVE_TILT_MAX);
    resolve_collisions_with(b, sc, lp, rp, w, tilt);
    proof {
        assert(-crate::SERVE_TILT_MAX <= tilt as int <= crate::SERVE_TILT_MAX && b@
            == resolved_ball(old(b)@, lp@, rp@, w@, tilt as int));
    }
}

/// Ghost image of `GameState`.
pub ghost struct GameG {
    pub left_paddle: PaddleG,
    pub right_paddle: PaddleG,
    pub ball: BallG,
    pub bounds: BoundsG,
    pub score: ScoreG,
}

/// The whole simulation: the fixed entity set built at startup, mutated in
/// place each frame.
#[derive(Clone, Copy, Debug, PartialEq, Eq, Structural)]
pub struct GameState {
    pub left_paddle: Paddle,
    pub right_paddle: Paddle,
    pub ball: Ball,
    pub bounds: Bounds,
    pub score: Score,
}

impl View for GameState {
    type V = GameG;

    open spec fn view(&self) -> GameG {
        GameG {
            left_paddle: self.left_paddle@,
            right_paddle: self.right_paddle@,
            ball: self.ball@,
            bounds: self.bounds@,
            score: self.score@,
        }
    }
}

impl GameG {
    /// What one frame asks of the state it starts from.
    pub open spec fn wf(self) -> bool {
        &&& self.left_paddle.wf()
        &&& self.right_paddle.wf()
        &&& self.ball.wf()
        &&& self.bounds.wf()
        &&& self.ball.speed <= crate::HIT_SPEED_MAX
        &&& self.ball.size <= self.left_paddle.height
        &&& self.ball.size <= self.right_paddle.height
        &&& self.left_paddle.clamp_lo(self.bounds) <= self.left_paddle.clamp_hi(self.bounds)
        &&& self.right_paddle.clamp_lo(self.bounds) <= self.right_paddle.clamp_hi(self.bounds)
        &&& self.score.left < u32::MAX
        &&& self.score.right < u32::MAX
    }
}

/// The ball after one simulator update.
pub open spec fn moved_ball(b: BallG, dt: int) -> BallG {
    BallG { x: moved_s(b.x, b.vx, dt), y: moved_s(b.y, b.vy, dt), ..b }
}

/// One whole frame at serve tilt `tilt`: both paddle controllers, then the
/// ball simulator, then the collision resolver, in that fixed order.
pub open spec fn frame_spec(g: GameG, input: InputSnapshot, dt: int, tilt: int) -> GameG {
    let lp = PaddleG {
        y: paddle_y_after(g.left_paddle, g.bounds, input.left_up, input.left_down, dt),
        ..g.left_paddle
    };
    let rp = PaddleG {
        y: paddle_y_after(g.right_paddle, g.bounds, input.right_up, input.right_down, dt),
        ..g.right_paddle
    };
    let mb = moved_ball(g.ball, dt);
    GameG {
        left_paddle: lp,
        right_paddle: rp,
        ball: resolved_ball(mb, lp, rp, g.bounds, tilt),
        bounds: g.bounds,
        score: resolved_score(mb, g.bounds, g.score),
    }
}

/// The fixed entity set at startup: two paddles at their stations, the ball
/// at the centre on the standard opening direction, love all.
pub fn new_game(w: &Bounds) -> (g: GameState)
    requires
        w@.wf(),
        w@.bottom + crate::PADDLE_HEIGHT / 2 + crate::WALL_THICKNESS / 2 <= w@.top
            - crate::PADDLE_HEIGHT / 2 - crate::WALL_THICKNESS / 2,
    ensures
        g@.wf(),
        g@.bounds == w@,
        g@.score.left == 0 && g@.score.right == 0,
        g@.ball == crate::ball::spawn_ball_view(),
        g@.left_paddle.side == crate::paddle::Side::Left,
        g@.right_paddle.side == crate::paddle::Side::Right,
        g@.left_paddle.y == 0 && g@.right_paddle.y == 0,
{
    let left_paddle = crate::paddle::spawn_paddle(crate::paddle::Side::Left, w);
    let right_paddle = crate::paddle::spawn_paddle(crate::paddle::Side::Right, w);
    let ball = crate::ball::spawn_ball();
    let score = Score::new();
    GameState { left_paddle, right_paddle, ball, bounds: *w, score }
}

/// One frame with the serve tilt supplied by the caller.
pub fn step_frame_with(g: &mut GameState, input: InputSnapshot, dt: i64, tilt: i64)
    requires
        old(g)@.wf(),
        0 <= dt <= crate::DT_MAX,
        -crate::SERVE_TILT_MAX <= tilt <= crate::SERVE_TILT_MAX,
    ensures
        final(g)@ == frame_spec(old(g)@, input, dt as int, tilt as int),
{
    crate::paddle::paddle_update(&mut g.left_paddle, &g.bounds, input.left_up, input.left_down,
        dt);
    crate::paddle::paddle_update(&mut g.right_paddle, &g.bounds, input.right_up, input.right_down,
        dt);
    crate::ball::ball_step(&mut g.ball, dt);
    proof {
        assert(g@.ball == moved_ball(old(g)@.ball, dt as int));
    }
    resolve_collisions_with(&mut g.ball, &mut g.score, &g.left_paddle, &g.right_paddle, &g.bounds,
        tilt);
    proof {
        assert(g@ == frame_spec(old(g)@, input, dt as int, tilt as int));
    }
}

/// One frame, drawing any needed serve tilt from the randomness
/// collaborator.
pub fn step_frame(g: &mut GameState, input: InputSnapshot, dt: i64)
    requires
        old(g)@.wf(),
        0 <= dt <= crate::DT_MAX,
    ensures
        exists|t: int|
            -crate::SERVE_TILT_MAX <= t <= crate::SERVE_TILT_MAX && final(g)@ == frame_spec(
                old(g)@,
                input,
                dt as int,
                t,
            ),
{
    let tilt = crate::rng::random_between(-crate::SERVE_TILT_MAX, crate::SERVE_TILT_MAX);
    step_frame_with(g, input, dt, tilt);
    proof {
        assert(-crate::SERVE_TILT_MAX <= tilt as int <= crate::SERVE_TILT_MAX && g@ == frame_spec(
            old(g)@,
            input,
            dt as int,
            tilt as int,
        ));
    }
}

/// Iterated wall reflections.
pub open spec fn reflected_n(b: BallG, n: nat) -> BallG
    decreases n,
{
    if n == 0 {
        b
    } else {
        reflected(reflected_n(b, (n - 1) as nat))
    }
}

/// Wall reflections keep the speed: after any number of them the stored
/// speed, the horizontal component, and the vertical magnitude are
/// unchanged, and the vertical sign has flipped exactly once per reflection.
pub proof fn lemma_reflections_keep_speed(b: BallG, n: nat)
    ensures
        reflected_n(b, n).speed == b.speed,
        reflected_n(b, n).vx == b.vx,
        abs_s(reflected_n(b, n).vy) == abs_s(b.vy),
        reflected_n(b, n).vy == if n % 2 == 0 {
            b.vy
        } else {
            -b.vy
        },
        reflected_n(b, n).x == b.x,
        reflected_n(b, n).y == b.y,
        reflected_n(b, n).size == b.size,
    decreases n,
{
    if n > 0 {
        lemma_reflections_keep_speed(b, (n - 1) as nat);
    }
}

/// In a frame with no exit and no paddle contact, the whole resolver is the
/// wall stage alone: the ball keeps its position, size, stored speed and
/// horizontal velocity, and its vertical velocity flips sign exactly when it
/// pokes past a wall.
pub proof fn lemma_reflection_only_frame(
    b: BallG,
    lp: PaddleG,
    rp: PaddleG,
    w: BoundsG,
    sc: ScoreG,
    tilt: int,
)
    requires
        !exits_left(b, w),
        !exits_right(b, w),
        !overlaps(wall_stage(b, w), lp),
        !overlaps(wall_stage(b, w), rp),
    ensures
        resolved_ball(b, lp, rp, w, tilt) == wall_stage(b, w),
        resolved_score(b, w, sc) == sc,
        resolved_ball(b, lp, rp, w, tilt).speed == b.speed,
        resolved_ball(b, lp, rp, w, tilt).vx == b.vx,
        abs_s(resolved_ball(b, lp, rp, w, tilt).vy) == abs_s(b.vy),
        resolved_ball(b, lp, rp, w, tilt).vy == if touches_wall(b, w) {
            -b.vy
        } else {
            b.vy
        },
{
}

/// Speed after `k` consecutive paddle hits from a starting speed: the
/// five-percent step applied `k` times.
pub open spec fn speed_after_hits(base: int, k: nat) -> int
    decreases k,
{
    if k == 0 {
        base
    } else {
        hit_speed(speed_after_hits(base, (k - 1) as nat))
    }
}

/// A sequence of paddle hits, applied in order.
pub open spec fn hit_seq(b: BallG, hits: Seq<(PaddleG, bool)>) -> BallG
    decreases hits.len(),
{
    if hits.len() == 0 {
        b
    } else {
        hit_ball(hit_seq(b, hits.drop_last()), hits.last().0, hits.last().1)
    }
}

/// For every sequence of paddle hits with no serve between them, the speed
/// after the `k`-th hit is the starting speed with the five-percent step
/// applied `k` times. A serve restarts the chain from the base speed, since
/// it sets the stored speed to that constant.
pub proof fn lemma_hit_sequence_speed(b: BallG, hits: Seq<(PaddleG, bool)>)
    ensures
        hit_seq(b, hits).speed == speed_after_hits(b.speed, hits.len()),
    decreases hits.len(),
{
    if hits.len() > 0 {
        lemma_hit_sequence_speed(b, hits.drop_last());
    }
}

/// Scoring on a left exit: the right score gains exactly one point, the left
/// stays, the ball returns to the centre at base speed, and the serve's
/// horizontal velocity points right. The two paddle premises rule out the
/// degenerate field in which a paddle overlaps the centre and would strike
/// the freshly served ball in the same frame.
pub proof fn lemma_left_exit_scores(
    b: BallG,
    lp: PaddleG,
    rp: PaddleG,
    w: BoundsG,
    sc: ScoreG,
    tilt: int,
)
    requires
        w.wf(),
        exits_left(b, w),
        -crate::SERVE_TILT_MAX <= tilt <= crate::SERVE_TILT_MAX,
        !overlaps(served_ball(b.size, true, tilt), lp),
        !overlaps(served_ball(b.size, true, tilt), rp),
    ensures
        resolved_score(b, w, sc).right == sc.right + 1,
        resolved_score(b, w, sc).left == sc.left,
        resolved_ball(b, lp, rp, w, tilt) == served_ball(b.size, true, tilt),
        resolved_ball(b, lp, rp, w, tilt).x == 0,
        resolved_ball(b, lp, rp, w, tilt).y == 0,
        resolved_ball(b, lp, rp, w, tilt).speed == crate::BALL_SPEED,
        resolved_ball(b, lp, rp, w, tilt).vx > 0,
{
    crate::ball::lemma_serve_vx_sign(true, tilt);
}

/// Scoring on a right exit, mirror-wise: the left score gains exactly one
/// point and the serve points left.
pub proof fn lemma_right_exit_scores(
    b: BallG,
    lp: PaddleG,
    rp: PaddleG,
    w: BoundsG,
    sc: ScoreG,
    tilt: int,
)
    requires
        w.wf(),
        exits_right(b, w),
        -crate::SERVE_TILT_MAX <= tilt <= crate::SERVE_TILT_MAX,
        !overlaps(served_ball(b.size, false, tilt), lp),
        !overlaps(served_ball(b.size, false, tilt), rp),
    ensures
        resolved_score(b, w, sc).left == sc.left + 1,
        resolved_score(b, w, sc).right == sc.right,
        resolved_ball(b, lp, rp, w, tilt) == served_ball(b.size, false, tilt),
        resolved_ball(b, lp, rp, w, tilt).speed == crate::BALL_SPEED,
        resolved_ball(b, lp, rp, w, tilt).vx < 0,
{
    crate::ball::lemma_serve_vx_sign(false, tilt);
}

/// A hit at the paddle's centre height bounces the ball straight out: the
/// bounce angle is zero, so the new velocity is the whole new speed along
/// the horizontal, away from the struck paddle, with no vertical component.
pub proof fn lemma_centre_hit(b: BallG, p: PaddleG, to_right: bool)
    requires
        b.y == p.y,
        0 <= b.speed,
        p.wf(),
    ensures
        hit_ball(b, p, to_right).speed == hit_speed(b.speed),
        hit_ball(b, p, to_right).vy == 0,
        hit_ball(b, p, to_right).vx == if to_right {
            hit_speed(b.speed)
        } else {
            -hit_speed(b.speed)
        },
{
    let h = p.height / 2;
    assert(0int / h == 0) by (nonlinear_arith)
        requires
            h >= 1,
    ;
    assert(hit_offset(b, p) == 0);
    lemma_trig_at_zero();
    let ns = hit_speed(b.speed);
    assert(ns >= 0);
    assert(mul_div_s(ns, crate::SCALE as int, crate::SCALE as int) == ns);
    assert(mul_div_s(ns, 0, crate::SCALE as int) == 0);
}

} // verus!


