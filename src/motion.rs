use vstd::prelude::*;

use crate::geometry::{
    floor_sqrt, is_floor_sqrt, is_normal_angle, isqrt, normalize_angle,
    wrap_angle, Point, HALF_TURN, SQRT_CEILING,
};
use crate::robot::{Robot, Trajectory};

verus! {

/// Microseconds in a second: the unit of a tick's duration, and the factor by
/// which stored speeds are finer than their unit per second.
pub const TIME_SCALE: u64 = 1_000_000;

/// Speed (millionths per second) times duration (microseconds) gives a
/// distance or angle in this many parts of its unit.
pub const FINE_SCALE: u128 = 1_000_000_000_000;

/// Largest top speed a configuration may name, linear or angular, per second.
pub const SPEED_LIMIT: u64 = 1_000_000_000_000;

/// Acceleration limits of the controller. Linear quantities are in thousandths
/// of a world unit, angular ones in millionths of a degree, both per second.
#[derive(Clone, Copy, Debug, PartialEq, Eq, Structural)]
pub struct MotionConfig {
    pub acceleration: u64,
    pub max_velocity: u64,
    pub angular_acceleration: u64,
    pub max_angular_velocity: u64,
}

impl MotionConfig {
    /// Braking spans divide by both accelerations, so neither may be zero; the
    /// squares of the top speeds must fit in 128 bits.
    pub open spec fn valid(self) -> bool {
        &&& self.acceleration > 0
        &&& self.angular_acceleration > 0
        &&& self.max_velocity <= SPEED_LIMIT
        &&& self.max_angular_velocity <= SPEED_LIMIT
    }

    /// A configuration, refused when either acceleration is zero or a top
    /// speed exceeds the limit.
    pub fn new(
        acceleration: u64,
        max_velocity: u64,
        angular_acceleration: u64,
        max_angular_velocity: u64,
    ) -> (r: Option<MotionConfig>)
        ensures
            r is Some <==> (acceleration > 0 && angular_acceleration > 0 && max_velocity
                <= SPEED_LIMIT && max_angular_velocity <= SPEED_LIMIT),
            r matches Some(c) ==> {
                &&& c.acceleration == acceleration
                &&& c.max_velocity == max_velocity
                &&& c.angular_acceleration == angular_acceleration
                &&& c.max_angular_velocity == max_angular_velocity
                &&& c.valid()
            },
    {
        if acceleration == 0 || angular_acceleration == 0 || max_velocity > SPEED_LIMIT
            || max_angular_velocity > SPEED_LIMIT {
            None
        } else {
            Some(
                MotionConfig {
                    acceleration,
                    max_velocity,
                    angular_acceleration,
                    max_angular_velocity,
                },
            )
        }
    }

    /// 150 units/s² up to 200 units/s; an eighth of a turn per s² up to a
    /// quarter turn per second.
    pub fn standard() -> (r: MotionConfig)
        ensures
            r.acceleration == 150_000,
            r.max_velocity == 200_000,
            r.angular_acceleration == 45_000_000,
            r.max_angular_velocity == 90_000_000,
            r.valid(),
    {
        MotionConfig {
            acceleration: 150_000,
            max_velocity: 200_000,
            angular_acceleration: 45_000_000,
            max_angular_velocity: 90_000_000,
        }
    }
}

pub open spec fn magnitude(a: int) -> int {
    if a >= 0 {
        a
    } else {
        -a
    }
}

/// A top speed in the stored (millionths) unit.
pub open spec fn top_speed(limit: int) -> int {
    limit * (TIME_SCALE as int)
}

/// Distance (or angle) still covered before coming to rest from the stored
/// speed `speed` under constant deceleration `rate`, rounded down.
pub open spec fn braking_span(speed: int, rate: int) -> int {
    speed * speed / (2 * rate * FINE_SCALE)
}

/// Stored speed after accelerating at `rate` for `dt` microseconds, capped at
/// the top speed `limit`.
pub open spec fn speed_up(speed: int, rate: int, dt: int, limit: int) -> int {
    let s = speed + rate * dt;
    if s < top_speed(limit) {
        s
    } else {
        top_speed(limit)
    }
}

/// Stored speed after decelerating at `rate` for `dt` microseconds, floored at
/// zero.
pub open spec fn slow_down(speed: int, rate: int, dt: int) -> int {
    let s = speed - rate * dt;
    if s > 0 {
        s
    } else {
        0
    }
}

/// Whole units covered in `dt` microseconds at stored speed `speed`, on top of
/// the part `carry` (in parts of `FINE_SCALE`) left over from earlier ticks.
pub open spec fn covered(carry: int, speed: int, dt: int) -> int {
    (carry + speed * dt) / (FINE_SCALE as int)
}

/// The part of a unit left over after `covered`, carried to the next tick.
pub open spec fn leftover(carry: int, speed: int, dt: int) -> int {
    (carry + speed * dt) % (FINE_SCALE as int)
}

/// Whether turning from `orientation` to `target` goes toward increasing angles:
/// the short way, across the half-turn seam where that is shorter.
pub open spec fn turns_positive(orientation: int, target: int) -> bool {
    (orientation < target && target - orientation <= HALF_TURN) || (orientation > target
        && orientation - target > HALF_TURN)
}

/// Angular speed after one rotation tick: brake when the remaining angle is
/// below the braking angle, else speed up.
pub open spec fn angular_speed_after(
    config: MotionConfig,
    orientation: int,
    angular_velocity: int,
    target: int,
    dt: int,
) -> int {
    let delta = magnitude(target - orientation);
    if delta < braking_span(angular_velocity, config.angular_acceleration as int) {
        slow_down(angular_velocity, config.angular_acceleration as int, dt)
    } else {
        speed_up(
            angular_velocity,
            config.angular_acceleration as int,
            dt,
            config.max_angular_velocity as int,
        )
    }
}

/// Linear speed after one translation tick with `remaining` units to go: brake
/// when the stopping distance exceeds them, else speed up.
pub open spec fn speed_after(config: MotionConfig, remaining: int, velocity: int, dt: int) -> int {
    if braking_span(velocity, config.acceleration as int) > remaining {
        slow_down(velocity, config.acceleration as int, dt)
    } else {
        speed_up(velocity, config.acceleration as int, dt, config.max_velocity as int)
    }
}

/// Squared distance between two points.
pub open spec fn squared_distance(p: Point, q: Point) -> int {
    (q.x - p.x) * (q.x - p.x) + (q.y - p.y) * (q.y - p.y)
}

/// Straight-line distance between two points, rounded down.
pub open spec fn gap(p: Point, q: Point) -> int {
    floor_sqrt(squared_distance(p, q))
}

/// Share of the offset `delta` that is covered when `travelled` of the whole
/// distance `whole` is, rounded toward zero.
pub open spec fn advance(delta: int, travelled: int, whole: int) -> int {
    if delta >= 0 {
        travelled * delta / whole
    } else {
        -(travelled * (-delta) / whole)
    }
}

/// The point `travelled` units along the straight leg from `start` to `end`,
/// whose length is `length`.
pub open spec fn point_along(start: Point, end: Point, travelled: int, length: int) -> Point {
    Point {
        x: (start.x + advance(end.x - start.x, travelled, length)) as i64,
        y: (start.y + advance(end.y - start.y, travelled, length)) as i64,
    }
}

/// The controller's bounds on a robot: a position within the coordinate
/// limits, a normal heading, and both speeds at most their maxima.
pub open spec fn robot_wf(robot: &Robot, config: MotionConfig) -> bool {
    &&& robot.position.in_bounds()
    &&& is_normal_angle(robot.orientation as int)
    &&& robot.velocity <= top_speed(config.max_velocity as int)
    &&& robot.angular_velocity <= top_speed(config.max_angular_velocity as int)
}

proof fn lemma_share_within(delta: int, travelled: int, whole: int)
    requires
        0 <= delta <= whole,
        0 <= travelled < whole,
    ensures
        0 <= travelled * delta / whole <= delta,
{
    assert(travelled * delta <= delta * whole) by (nonlinear_arith)
        requires
            0 <= delta,
            0 <= travelled < whole,
    ;
    assert(0 <= travelled * delta) by (nonlinear_arith)
        requires
            0 <= delta,
            0 <= travelled,
    ;
    vstd::arithmetic::div_mod::lemma_div_is_ordered(travelled * delta, delta * whole, whole);
    vstd::arithmetic::div_mod::lemma_div_by_multiple(delta, whole);
    vstd::arithmetic::div_mod::lemma_div_is_ordered(0, travelled * delta, whole);
}

proof fn lemma_side_within_root(a: int, n: int, d: int)
    requires
        0 <= a,
        a * a <= n,
        is_floor_sqrt(n, d),
    ensures
        a <= d,
{
    if a > d {
        assert((d + 1) * (d + 1) <= a * a) by (nonlinear_arith)
            requires
                0 <= d,
                d + 1 <= a,
        ;
    }
}

/// Stored top speed for a limit of the configuration.
fn top_speed_of(limit: u64) -> (r: u128)
    requires
        limit <= SPEED_LIMIT,
    ensures
        r == top_speed(limit as int),
        r <= 1_000_000_000_000_000_000,
{
    assert((limit as int) * 1_000_000 <= 1_000_000_000_000_000_000) by (nonlinear_arith)
        requires
            0 <= limit <= 1_000_000_000_000,
    ;
    (limit as u128) * 1_000_000
}

/// Advances a stored speed by one tick: braking lowers it by `rate·dt`, down to
/// zero; otherwise it rises by the same amount, up to `limit`.
fn next_speed(speed: u128, rate: u64, dt: u64, limit: u64, braking: bool) -> (r: u128)
    requires
        limit <= SPEED_LIMIT,
    ensures
        braking ==> r == slow_down(speed as int, rate as int, dt as int),
        !braking ==> r == speed_up(speed as int, rate as int, dt as int, limit as int),
        r <= speed || r <= top_speed(limit as int),
{
    assert((rate as int) * (dt as int) < 0x1_0000_0000_0000_0000 * 0x1_0000_0000_0000_0000) by (nonlinear_arith)
        requires
            0 <= rate < 0x1_0000_0000_0000_0000,
            0 <= dt < 0x1_0000_0000_0000_0000,
    ;
    let gain: u128 = (rate as u128) * (dt as u128);
    let top = top_speed_of(limit);
    if braking {
        if speed > gain {
            speed - gain
        } else {
            0
        }
    } else if speed < top && gain < top - speed {
        speed + gain
    } else {
        top
    }
}

/// Whole units covered in a tick, and the part of a unit carried on.
fn distance_covered(carry: u128, speed: u128, dt: u64) -> (r: (u128, u128))
    requires
        carry < FINE_SCALE,
        speed <= 1_000_000_000_000_000_000,
    ensures
        r.0 == covered(carry as int, speed as int, dt as int),
        r.1 == leftover(carry as int, speed as int, dt as int),
        r.1 < FINE_SCALE,
{
    assert((speed as int) * (dt as int) <= 1_000_000_000_000_000_000 * 0x1_0000_0000_0000_0000) by (nonlinear_arith)
        requires
            0 <= speed <= 1_000_000_000_000_000_000,
            0 <= dt < 0x1_0000_0000_0000_0000,
    ;
    let total: u128 = carry + speed * (dt as u128);
    (total / FINE_SCALE, total % FINE_SCALE)
}

/// Braking span of a stored speed under deceleration `rate`.
fn braking_distance(speed: u128, rate: u64) -> (r: u128)
    requires
        rate > 0,
        speed <= 1_000_000_000_000_000_000,
    ensures
        r == braking_span(speed as int, rate as int),
{
    assert(speed * speed <= 1_000_000_000_000_000_000 * 1_000_000_000_000_000_000) by (nonlinear_arith)
        requires
            0 <= speed <= 1_000_000_000_000_000_000,
    ;
    speed * speed / (2 * (rate as u128) * FINE_SCALE)
}

/// What a tick did.
#[derive(Clone, Copy, Debug, PartialEq, Eq, Structural)]
pub enum Progress {
    /// The queue was empty: nothing moved.
    Idle,
    /// The heading turned toward the target and has not reached its bearing.
    Rotating,
    /// The robot moved toward the target and has not reached it.
    Translating,
    /// The robot reached the target, which left the queue.
    Reached,
}

/// The straight leg that the robot drives once its heading has reached the
/// bearing of a waypoint: fixed at that moment, followed until arrival.
#[derive(Clone, Copy, Debug, PartialEq, Eq, Structural)]
pub struct Leg {
    /// Where the robot stood when the heading arrived.
    pub start: Point,
    /// The waypoint.
    pub end: Point,
    /// Distance from `start` to `end`, rounded down.
    pub length: u128,
    /// Whole units driven along the leg so far.
    pub done: u128,
    /// Part of a unit driven beyond `done`, in parts of `FINE_SCALE`.
    pub carry: u128,
}

/// A leg, with its quantities as integers.
pub struct LegState {
    pub start: Point,
    pub end: Point,
    pub length: int,
    pub done: int,
    pub carry: int,
}

/// What the controller reads and writes of a robot, with its own state.
pub struct MotionState {
    pub position: Point,
    pub orientation: int,
    pub velocity: int,
    pub angular_velocity: int,
    /// Part of an angle unit turned beyond the heading, in parts of `FINE_SCALE`.
    pub angle_carry: int,
    pub translating: bool,
    pub leg: LegState,
}

pub open spec fn leg_state(l: Leg) -> LegState {
    LegState {
        start: l.start,
        end: l.end,
        length: l.length as int,
        done: l.done as int,
        carry: l.carry as int,
    }
}

/// One rotation tick of the model: turn toward `target_angle` by the angle
/// covered, or snap onto it, stop turning and start translating on arrival.
pub open spec fn rotation_tick(config: MotionConfig, s: MotionState, target_angle: int, dt: int) -> MotionState {
    let w = angular_speed_after(config, s.orientation, s.angular_velocity, target_angle, dt);
    let turned = covered(s.angle_carry, w, dt);
    let arrived = magnitude(target_angle - s.orientation) <= turned;
    MotionState {
        position: s.position,
        orientation: if arrived {
            target_angle
        } else if turns_positive(s.orientation, target_angle) {
            wrap_angle(s.orientation + turned)
        } else {
            wrap_angle(s.orientation - turned)
        },
        velocity: s.velocity,
        angular_velocity: if arrived {
            0
        } else {
            w
        },
        angle_carry: if arrived {
            0
        } else {
            leftover(s.angle_carry, w, dt)
        },
        translating: arrived,
        leg: s.leg,
    }
}

/// Fixes the leg from the current position to `end`.
pub open spec fn begin_leg(s: MotionState, end: Point) -> MotionState {
    MotionState {
        position: s.position,
        orientation: s.orientation,
        velocity: s.velocity,
        angular_velocity: s.angular_velocity,
        angle_carry: s.angle_carry,
        translating: s.translating,
        leg: LegState { start: s.position, end, length: gap(s.position, end), done: 0, carry: 0 },
    }
}

/// One translation tick of the model along the fixed leg: land exactly on its
/// end and stop when the distance left is no more than the distance covered,
/// else move that much further along it.
pub open spec fn translation_tick(config: MotionConfig, s: MotionState, dt: int) -> MotionState {
    let l = s.leg;
    let v = speed_after(config, l.length - l.done, s.velocity, dt);
    let c = covered(l.carry, v, dt);
    if l.length - l.done <= c {
        MotionState {
            position: l.end,
            orientation: s.orientation,
            velocity: 0,
            angular_velocity: s.angular_velocity,
            angle_carry: s.angle_carry,
            translating: false,
            leg: l,
        }
    } else {
        MotionState {
            position: point_along(l.start, l.end, l.done + c, l.length),
            orientation: s.orientation,
            velocity: v,
            angular_velocity: s.angular_velocity,
            angle_carry: s.angle_carry,
            translating: true,
            leg: LegState {
                start: l.start,
                end: l.end,
                length: l.length,
                done: l.done + c,
                carry: leftover(l.carry, v, dt),
            },
        }
    }
}

/// One tick of the controller over the waypoint queue: idle on an empty queue;
/// else rotate toward the front waypoint until the heading arrives, then (in
/// the same tick too) fix the leg to it and drive along it, popping the
/// waypoint on arrival.
pub open spec fn tick_model(
    config: MotionConfig,
    s: MotionState,
    queue: Seq<Point>,
    dt: int,
    target_angle: int,
) -> (MotionState, Seq<Point>, Progress) {
    if queue.len() == 0 {
        (
            MotionState {
                position: s.position,
                orientation: s.orientation,
                velocity: s.velocity,
                angular_velocity: s.angular_velocity,
                angle_carry: s.angle_carry,
                translating: false,
                leg: s.leg,
            },
            queue,
            Progress::Idle,
        )
    } else {
        let s1 = if s.translating {
            s
        } else {
            let r = rotation_tick(config, s, target_angle, dt);
            if r.translating {
                begin_leg(r, queue[0])
            } else {
                r
            }
        };
        if !s1.translating {
            (s1, queue, Progress::Rotating)
        } else {
            let s2 = translation_tick(config, s1, dt);
            if s2.translating {
                (s2, queue, Progress::Translating)
            } else {
                (s2, queue.drop_first(), Progress::Reached)
            }
        }
    }
}

/// The state and queue after a run of ticks, each given as its duration and
/// the bearing of the front waypoint at its start.
pub open spec fn run(config: MotionConfig, s: MotionState, queue: Seq<Point>, ticks: Seq<(int, int)>) -> (
    MotionState,
    Seq<Point>,
)
    decreases ticks.len(),
{
    if ticks.len() == 0 {
        (s, queue)
    } else {
        let (s0, q0) = run(config, s, queue, ticks.drop_last());
        let (s1, q1, _) = tick_model(config, s0, q0, ticks.last().0, ticks.last().1);
        (s1, q1)
    }
}

/// While translating, the leg leads to the front waypoint.
pub open spec fn leg_on_queue(s: MotionState, queue: Seq<Point>) -> bool {
    s.translating ==> queue.len() > 0 && queue[0] == s.leg.end
}

/// Waypoints are only ever taken from the front of the queue, and once the
/// queue has run empty the robot stands exactly on the last waypoint.
pub proof fn lemma_queue_consumption(
    config: MotionConfig,
    s: MotionState,
    queue: Seq<Point>,
    ticks: Seq<(int, int)>,
)
    requires
        queue.len() > 0,
        leg_on_queue(s, queue),
    ensures
        leg_on_queue(run(config, s, queue, ticks).0, run(config, s, queue, ticks).1),
        run(config, s, queue, ticks).1.len() <= queue.len(),
        run(config, s, queue, ticks).1 =~= queue.subrange(
            queue.len() - run(config, s, queue, ticks).1.len(),
            queue.len() as int,
        ),
        run(config, s, queue, ticks).1.len() == 0 ==> run(config, s, queue, ticks).0.position
            == queue.last(),
    decreases ticks.len(),
{
    if ticks.len() > 0 {
        lemma_queue_consumption(config, s, queue, ticks.drop_last());
        let (s0, q0) = run(config, s, queue, ticks.drop_last());
        let (s1, q1, _) = tick_model(config, s0, q0, ticks.last().0, ticks.last().1);
        assert(run(config, s, queue, ticks) == (s1, q1));
        let k = queue.len() - q0.len();
        if q0.len() > 0 {
            assert(q0[0] == queue[k]);
            if q1 != q0 {
                assert(q1 == q0.drop_first());
                assert(q1 =~= queue.subrange(k + 1, queue.len() as int));
                if q1.len() == 0 {
                    assert(q0.len() == 1);
                    assert(s1.position == q0[0]);
                }
            }
        } else {
            assert(q1 == q0);
        }
    } else {
        assert(queue.subrange(0, queue.len() as int) =~= queue);
    }
}

/// The heading is normal, both speeds lie between zero and their maxima, and
/// what is carried over is a fraction of a unit.
pub open spec fn state_bounded(config: MotionConfig, s: MotionState) -> bool {
    &&& is_normal_angle(s.orientation)
    &&& 0 <= s.velocity <= top_speed(config.max_velocity as int)
    &&& 0 <= s.angular_velocity <= top_speed(config.max_angular_velocity as int)
    &&& 0 <= s.angle_carry < FINE_SCALE
    &&& 0 <= s.leg.carry < FINE_SCALE
}

proof fn lemma_speed_change_bounded(speed: int, rate: int, dt: int, limit: int)
    requires
        0 <= speed <= top_speed(limit),
        0 <= rate,
        0 <= dt,
    ensures
        0 <= speed_up(speed, rate, dt, limit) <= top_speed(limit),
        0 <= slow_down(speed, rate, dt) <= speed,
{
    assert(0 <= rate * dt) by (nonlinear_arith)
        requires
            0 <= rate,
            0 <= dt,
    ;
}

proof fn lemma_covered_nonnegative(carry: int, speed: int, dt: int)
    requires
        0 <= carry,
        0 <= speed,
        0 <= dt,
    ensures
        0 <= covered(carry, speed, dt),
        0 <= leftover(carry, speed, dt) < FINE_SCALE,
{
    assert(0 <= speed * dt) by (nonlinear_arith)
        requires
            0 <= speed,
            0 <= dt,
    ;
}

proof fn lemma_tick_bounded(config: MotionConfig, s: MotionState, queue: Seq<Point>, dt: int, target_angle: int)
    requires
        config.valid(),
        state_bounded(config, s),
        is_normal_angle(target_angle),
        0 <= dt,
    ensures
        state_bounded(config, tick_model(config, s, queue, dt, target_angle).0),
{
    let aa = config.angular_acceleration as int;
    let acc = config.acceleration as int;
    lemma_speed_change_bounded(s.angular_velocity, aa, dt, config.max_angular_velocity as int);
    lemma_speed_change_bounded(s.velocity, acc, dt, config.max_velocity as int);
    let w = angular_speed_after(config, s.orientation, s.angular_velocity, target_angle, dt);
    lemma_covered_nonnegative(s.angle_carry, w, dt);
    if queue.len() > 0 {
        let s1 = if s.translating {
            s
        } else {
            let r = rotation_tick(config, s, target_angle, dt);
            if r.translating {
                begin_leg(r, queue[0])
            } else {
                r
            }
        };
        assert(state_bounded(config, s1));
        lemma_speed_change_bounded(s1.velocity, acc, dt, config.max_velocity as int);
        let v = speed_after(config, s1.leg.length - s1.leg.done, s1.velocity, dt);
        lemma_covered_nonnegative(s1.leg.carry, v, dt);
    }
}

/// Over any run of ticks whose bearings are normal, the heading stays normal
/// and both speeds stay between zero and their maxima.
pub proof fn lemma_run_bounded(config: MotionConfig, s: MotionState, queue: Seq<Point>, ticks: Seq<(int, int)>)
    requires
        config.valid(),
        state_bounded(config, s),
        forall|i: int| 0 <= i < ticks.len() ==> 0 <= (#[trigger] ticks[i]).0 && is_normal_angle(ticks[i].1),
    ensures
        state_bounded(config, run(config, s, queue, ticks).0),
    decreases ticks.len(),
{
    if ticks.len() > 0 {
        let prefix = ticks.drop_last();
        assert forall|i: int| 0 <= i < prefix.len() implies 0 <= (#[trigger] prefix[i]).0 && is_normal_angle(prefix[i].1) by {
            assert(prefix[i] == ticks[i]);
        }
        lemma_run_bounded(config, s, queue, prefix);
        let (s0, q0) = run(config, s, queue, prefix);
        assert(ticks.last() == ticks[ticks.len() - 1]);
        lemma_tick_bounded(config, s0, q0, ticks.last().0, ticks.last().1);
    }
}

proof fn lemma_speed_moves(speed: int, rate: int, dt: int, limit: int, braking: bool)
    requires
        0 < rate,
        0 < dt,
        0 < limit,
        0 <= speed <= top_speed(limit),
        braking ==> speed > 0,
    ensures
        (if braking {
            slow_down(speed, rate, dt)
        } else {
            speed_up(speed, rate, dt, limit)
        }) == speed ==> !braking && speed == top_speed(limit) && speed > 0,
{
    assert(0 < rate * dt) by (nonlinear_arith)
        requires
            0 < rate,
            0 < dt,
    ;
}

proof fn lemma_fine_motion(carry: int, speed: int, dt: int)
    requires
        0 <= carry < FINE_SCALE,
        0 < speed,
        0 < dt,
    ensures
        covered(carry, speed, dt) > 0 || leftover(carry, speed, dt) != carry,
        covered(carry, speed, dt) >= 0,
{
    assert(0 < speed * dt) by (nonlinear_arith)
        requires
            0 < speed,
            0 < dt,
    ;
    let total = carry + speed * dt;
    if total < FINE_SCALE {
        vstd::arithmetic::div_mod::lemma_small_mod(total as nat, FINE_SCALE as nat);
    } else {
        vstd::arithmetic::div_mod::lemma_div_is_ordered(FINE_SCALE as int, total, FINE_SCALE as int);
    }
}

/// No tick of positive duration leaves the controller where it was while a
/// waypoint waits, when both top speeds are positive: every such tick changes
/// a speed, the heading, the part of a unit carried, the distance driven, the
/// phase or the queue. Gains and distances are never rounded away.
pub proof fn lemma_tick_makes_progress(
    config: MotionConfig,
    s: MotionState,
    queue: Seq<Point>,
    dt: int,
    target_angle: int,
)
    requires
        config.valid(),
        config.max_velocity > 0,
        config.max_angular_velocity > 0,
        0 < dt,
        queue.len() > 0,
        state_bounded(config, s),
        is_normal_angle(target_angle),
        s.translating ==> 0 <= s.leg.done <= s.leg.length,
    ensures
        tick_model(config, s, queue, dt, target_angle).0 != s
            || tick_model(config, s, queue, dt, target_angle).1 != queue,
{
    let aa = config.angular_acceleration as int;
    let acc = config.acceleration as int;
    let r = tick_model(config, s, queue, dt, target_angle);
    if !s.translating {
        let rt = rotation_tick(config, s, target_angle, dt);
        if !rt.translating {
            let delta = magnitude(target_angle - s.orientation);
            let braking = delta < braking_span(s.angular_velocity, aa);
            if s.angular_velocity == 0 {
                assert(braking_span(0, aa) == 0);
            }
            lemma_speed_moves(s.angular_velocity, aa, dt, config.max_angular_velocity as int, braking);
            let w = angular_speed_after(config, s.orientation, s.angular_velocity, target_angle, dt);
            if w == s.angular_velocity {
                lemma_fine_motion(s.angle_carry, w, dt);
                let turned = covered(s.angle_carry, w, dt);
                if turned > 0 {
                    assert(rt.orientation != s.orientation);
                } else {
                    assert(rt.angle_carry != s.angle_carry);
                }
            }
            assert(r.0 == rt);
        } else {
            assert(r.0.translating || r.1 != queue);
        }
    } else {
        let l = s.leg;
        let remaining = l.length - l.done;
        let braking = braking_span(s.velocity, acc) > remaining;
        if s.velocity == 0 {
            assert(2 * acc * FINE_SCALE > 0) by (nonlinear_arith)
                requires
                    acc > 0,
            ;
            vstd::arithmetic::div_mod::lemma_div_of0(2 * acc * FINE_SCALE);
            assert(0int * 0int == 0);
            assert(braking_span(s.velocity, acc) == 0);
        }
        lemma_speed_moves(s.velocity, acc, dt, config.max_velocity as int, braking);
        let v = speed_after(config, remaining, s.velocity, dt);
        let t = translation_tick(config, s, dt);
        if t.translating {
            if v == s.velocity {
                lemma_fine_motion(l.carry, v, dt);
                if covered(l.carry, v, dt) > 0 {
                    assert(t.leg.done != l.done);
                } else {
                    assert(t.leg.carry != l.carry);
                }
            }
            assert(r.0 == t);
        } else {
            assert(r.1.len() != queue.len());
        }
    }
}

/// `b` lies between `a` and `c`, either way round.
pub open spec fn between(a: int, b: int, c: int) -> bool {
    (a <= b && b <= c) || (c <= b && b <= a)
}

proof fn lemma_advance_monotone(delta: int, d1: int, d2: int, length: int)
    requires
        0 <= d1 <= d2 < length,
        magnitude(delta) <= length,
    ensures
        between(0, advance(delta, d1, length), advance(delta, d2, length)),
        between(advance(delta, d1, length), advance(delta, d2, length), delta),
{
    let m = magnitude(delta);
    assert(d1 * m <= d2 * m) by (nonlinear_arith)
        requires
            0 <= d1 <= d2,
            0 <= m,
    ;
    vstd::arithmetic::div_mod::lemma_div_is_ordered(d1 * m, d2 * m, length);
    lemma_share_within(m, d1, length);
    lemma_share_within(m, d2, length);
}

/// Along its leg the robot only ever approaches the waypoint: a translating
/// tick leaves each coordinate between where it was and the waypoint's, so
/// coordinates change monotonically and never overshoot. The robot stays on
/// the leg's points, so this holds from tick to tick.
pub proof fn lemma_translation_approaches(config: MotionConfig, s: MotionState, dt: int)
    requires
        config.valid(),
        0 <= dt,
        0 <= s.velocity,
        0 <= s.leg.carry,
        0 <= s.leg.done < s.leg.length,
        s.leg.start.in_bounds(),
        s.leg.end.in_bounds(),
        is_floor_sqrt(squared_distance(s.leg.start, s.leg.end), s.leg.length),
        s.position == point_along(s.leg.start, s.leg.end, s.leg.done, s.leg.length),
    ensures
        between(
            s.position.x as int,
            translation_tick(config, s, dt).position.x as int,
            s.leg.end.x as int,
        ),
        between(
            s.position.y as int,
            translation_tick(config, s, dt).position.y as int,
            s.leg.end.y as int,
        ),
        translation_tick(config, s, dt).translating ==> translation_tick(config, s, dt).position
            == point_along(
            s.leg.start,
            s.leg.end,
            translation_tick(config, s, dt).leg.done,
            s.leg.length,
        ),
{
    let l = s.leg;
    let t = translation_tick(config, s, dt);
    let v = speed_after(config, l.length - l.done, s.velocity, dt);
    let acc = config.acceleration as int;
    assert(0 <= v) by {
        assert(0 <= slow_down(s.velocity, acc, dt));
        assert(0 <= s.velocity + acc * dt) by (nonlinear_arith)
            requires
                0 <= s.velocity,
                0 <= acc,
                0 <= dt,
        ;
    }
    lemma_covered_nonnegative(l.carry, v, dt);
    let c = covered(l.carry, v, dt);
    if t.translating {
        let dx = l.end.x - l.start.x;
        let dy = l.end.y - l.start.y;
        let n = squared_distance(l.start, l.end);
        assert(magnitude(dx) * magnitude(dx) <= n && magnitude(dy) * magnitude(dy) <= n) by (nonlinear_arith)
            requires
                n == dx * dx + dy * dy,
                magnitude(dx) == dx || magnitude(dx) == -dx,
                magnitude(dy) == dy || magnitude(dy) == -dy,
        ;
        lemma_side_within_root(magnitude(dx), n, l.length);
        lemma_side_within_root(magnitude(dy), n, l.length);
        lemma_advance_monotone(dx, l.done, l.done + c, l.length);
        lemma_advance_monotone(dy, l.done, l.done + c, l.length);
    }
}

/// A heading within half a turn of its bearing only ever approaches it: a
/// rotation tick leaves it between where it was and the bearing, so it changes
/// monotonically and never overshoots.
pub proof fn lemma_rotation_approaches(config: MotionConfig, s: MotionState, target_angle: int, dt: int)
    requires
        config.valid(),
        0 <= dt,
        0 <= s.angular_velocity,
        0 <= s.angle_carry,
        is_normal_angle(s.orientation),
        is_normal_angle(target_angle),
        magnitude(target_angle - s.orientation) <= HALF_TURN,
    ensures
        between(s.orientation, rotation_tick(config, s, target_angle, dt).orientation, target_angle),
{
    let aa = config.angular_acceleration as int;
    let w = angular_speed_after(config, s.orientation, s.angular_velocity, target_angle, dt);
    assert(0 <= w) by {
        assert(0 <= s.angular_velocity + aa * dt) by (nonlinear_arith)
            requires
                0 <= s.angular_velocity,
                0 <= aa,
                0 <= dt,
        ;
    }
    lemma_covered_nonnegative(s.angle_carry, w, dt);
}

/// Drives the robot toward the front of the trajectory.
pub struct MotionController {
    pub config: MotionConfig,
    /// Whether the heading has reached the current target's bearing.
    pub translating: bool,
    /// Part of an angle unit turned beyond the heading, in parts of `FINE_SCALE`.
    pub angle_carry: u128,
    /// The leg being driven; meaningful while translating.
    pub leg: Leg,
}

pub open spec fn state_of(c: MotionController, robot: Robot) -> MotionState {
    MotionState {
        position: robot.position,
        orientation: robot.orientation as int,
        velocity: robot.velocity as int,
        angular_velocity: robot.angular_velocity as int,
        angle_carry: c.angle_carry as int,
        translating: c.translating,
        leg: leg_state(c.leg),
    }
}

impl MotionController {
    /// The leg's own bounds: both ends in bounds, its length the rounded-down
    /// distance between them, short of its end, with less than a unit carried.
    pub open spec fn leg_wf(&self) -> bool {
        &&& self.leg.start.in_bounds()
        &&& self.leg.end.in_bounds()
        &&& is_floor_sqrt(squared_distance(self.leg.start, self.leg.end), self.leg.length as int)
        &&& self.leg.done < self.leg.length
        &&& self.leg.carry < FINE_SCALE
    }

    /// The controller, the robot and the queue agree: the robot is within the
    /// controller's bounds, every waypoint is in bounds, and while translating
    /// the robot does not turn and stands on a leg to the front waypoint.
    pub open spec fn wf(&self, robot: &Robot, queue: Seq<Point>) -> bool {
        &&& self.config.valid()
        &&& robot_wf(robot, self.config)
        &&& self.angle_carry < FINE_SCALE
        &&& forall|i: int| 0 <= i < queue.len() ==> (#[trigger] queue[i]).in_bounds()
        &&& self.translating ==> {
            &&& robot.angular_velocity == 0
            &&& queue.len() > 0
            &&& queue[0] == self.leg.end
            &&& self.leg_wf()
            &&& robot.position == point_along(
                self.leg.start,
                self.leg.end,
                self.leg.done as int,
                self.leg.length as int,
            )
        }
    }

    pub fn new(config: MotionConfig) -> (r: MotionController)
        ensures
            r.config == config,
            !r.translating,
            r.angle_carry == 0,
    {
        let origin = Point::new(0, 0);
        MotionController {
            config,
            translating: false,
            angle_carry: 0,
            leg: Leg { start: origin, end: origin, length: 0, done: 0, carry: 0 },
        }
    }

    /// One rotation tick toward the bearing `target_angle`. Returns whether the
    /// heading arrived, which starts the translating phase.
    pub fn update_orientation(&mut self, robot: &mut Robot, target_angle: i64, dt: u64) -> (reached: bool)
        requires
            old(self).config.valid(),
            robot_wf(old(robot), old(self).config),
            old(self).angle_carry < FINE_SCALE,
            is_normal_angle(target_angle as int),
        ensures
            state_of(*final(self), *final(robot)) == rotation_tick(
                old(self).config,
                state_of(*old(self), *old(robot)),
                target_angle as int,
                dt as int,
            ),
            reached == final(self).translating,
            final(self).config == old(self).config,
            final(self).leg == old(self).leg,
            final(self).angle_carry < FINE_SCALE,
            robot_wf(final(robot), final(self).config),
            final(robot).sensor == old(robot).sensor,
            final(robot).sensor_max_length == old(robot).sensor_max_length,
    {
        let o = robot.orientation;
        let delta: u128 = if target_angle >= o {
            (target_angle - o) as u128
        } else {
            (o - target_angle) as u128
        };
        let config = self.config;
        let braking = braking_distance(robot.angular_velocity, config.angular_acceleration);
        let w = next_speed(
            robot.angular_velocity,
            config.angular_acceleration,
            dt,
            config.max_angular_velocity,
            delta < braking,
        );
        let (turned, carry) = distance_covered(self.angle_carry, w, dt);
        if delta > turned {
            let t = turned as i64;
            let positive = (o < target_angle && target_angle - o <= HALF_TURN) || (o > target_angle
                && o - target_angle > HALF_TURN);
            let raw: i64 = if positive {
                o + t
            } else {
                o - t
            };
            robot.orientation = normalize_angle(raw);
            robot.angular_velocity = w;
            self.angle_carry = carry;
            self.translating = false;
            false
        } else {
            robot.orientation = target_angle;
            robot.angular_velocity = 0;
            self.angle_carry = 0;
            self.translating = true;
            true
        }
    }

    /// Fixes the leg from `start` to `end`.
    fn begin_leg(&mut self, start: Point, end: Point)
        requires
            start.in_bounds(),
            end.in_bounds(),
        ensures
            final(self).leg == (Leg {
                start,
                end,
                length: final(self).leg.length,
                done: 0,
                carry: 0,
            }),
            final(self).leg.length == gap(start, end),
            is_floor_sqrt(squared_distance(start, end), final(self).leg.length as int),
            final(self).config == old(self).config,
            final(self).translating == old(self).translating,
            final(self).angle_carry == old(self).angle_carry,
    {
        let dx: i64 = end.x - start.x;
        let dy: i64 = end.y - start.y;
        let adx: u128 = if dx >= 0 {
            dx as u128
        } else {
            (-dx) as u128
        };
        let ady: u128 = if dy >= 0 {
            dy as u128
        } else {
            (-dy) as u128
        };
        assert(adx * adx <= 4_000_000_000_000_000_000_000_000) by (nonlinear_arith)
            requires
                0 <= adx <= 2_000_000_000_000,
        ;
        assert(ady * ady <= 4_000_000_000_000_000_000_000_000) by (nonlinear_arith)
            requires
                0 <= ady <= 2_000_000_000_000,
        ;
        let n: u128 = adx * adx + ady * ady;
        assert(n == squared_distance(start, end)) by (nonlinear_arith)
            requires
                n == adx * adx + ady * ady,
                adx == dx || adx == -dx,
                ady == dy || ady == -dy,
                dx == end.x - start.x,
                dy == end.y - start.y,
                squared_distance(start, end) == (end.x - start.x) * (end.x - start.x) + (end.y
                    - start.y) * (end.y - start.y),
        ;
        let length = isqrt(n);
        self.leg = Leg { start, end, length, done: 0, carry: 0 };
    }

    /// One translation tick along the leg. Returns whether the robot arrived at
    /// the leg's end, which ends the translating phase.
    pub fn update_position(&mut self, robot: &mut Robot, dt: u64) -> (reached: bool)
        requires
            old(self).config.valid(),
            robot_wf(old(robot), old(self).config),
            old(self).leg.start.in_bounds(),
            old(self).leg.end.in_bounds(),
            is_floor_sqrt(
                squared_distance(old(self).leg.start, old(self).leg.end),
                old(self).leg.length as int,
            ),
            old(self).leg.done <= old(self).leg.length,
            old(self).leg.carry < FINE_SCALE,
        ensures
            state_of(*final(self), *final(robot)) == translation_tick(
                old(self).config,
                state_of(*old(self), *old(robot)),
                dt as int,
            ),
            reached == !final(self).translating,
            final(self).config == old(self).config,
            final(self).angle_carry == old(self).angle_carry,
            !reached ==> final(self).leg_wf(),
            robot_wf(final(robot), final(self).config),
            final(robot).sensor == old(robot).sensor,
            final(robot).sensor_max_length == old(robot).sensor_max_length,
    {
        let config = self.config;
        let leg = self.leg;
        let remaining: u128 = leg.length - leg.done;
        let braking = braking_distance(robot.velocity, config.acceleration);
        let v = next_speed(
            robot.velocity,
            config.acceleration,
            dt,
            config.max_velocity,
            braking > remaining,
        );
        let (c, carry) = distance_covered(leg.carry, v, dt);
        if remaining > c {
            let done: u128 = leg.done + c;
            let dx: i64 = leg.end.x - leg.start.x;
            let dy: i64 = leg.end.y - leg.start.y;
            let adx: u128 = if dx >= 0 {
                dx as u128
            } else {
                (-dx) as u128
            };
            let ady: u128 = if dy >= 0 {
                dy as u128
            } else {
                (-dy) as u128
            };
            proof {
                let n = squared_distance(leg.start, leg.end);
                assert(adx * adx <= n && ady * ady <= n && adx * adx + ady * ady == n) by (nonlinear_arith)
                    requires
                        adx == dx || adx == -dx,
                        ady == dy || ady == -dy,
                        dx == leg.end.x - leg.start.x,
                        dy == leg.end.y - leg.start.y,
                        n == (leg.end.x - leg.start.x) * (leg.end.x - leg.start.x) + (leg.end.y
                            - leg.start.y) * (leg.end.y - leg.start.y),
                ;
                assert(n <= 8_000_000_000_000_000_000_000_000) by (nonlinear_arith)
                    requires
                        0 <= adx <= 2_000_000_000_000,
                        0 <= ady <= 2_000_000_000_000,
                        adx * adx + ady * ady == n,
                        adx * adx <= n && ady * ady <= n,
                ;
                lemma_side_within_root(adx as int, n, leg.length as int);
                lemma_side_within_root(ady as int, n, leg.length as int);
                lemma_share_within(adx as int, done as int, leg.length as int);
                lemma_share_within(ady as int, done as int, leg.length as int);
                assert(done * adx <= SQRT_CEILING * SQRT_CEILING) by (nonlinear_arith)
                    requires
                        0 <= done < leg.length,
                        leg.length * leg.length <= n,
                        n <= 8_000_000_000_000_000_000_000_000,
                        0 <= adx <= leg.length,
                        SQRT_CEILING == 4_398_046_511_104,
                ;
                assert(done * ady <= SQRT_CEILING * SQRT_CEILING) by (nonlinear_arith)
                    requires
                        0 <= done < leg.length,
                        leg.length * leg.length <= n,
                        n <= 8_000_000_000_000_000_000_000_000,
                        0 <= ady <= leg.length,
                        SQRT_CEILING == 4_398_046_511_104,
                ;
            }
            let mx: u128 = done * adx / leg.length;
            let my: u128 = done * ady / leg.length;
            let nx: i64 = if dx >= 0 {
                leg.start.x + mx as i64
            } else {
                leg.start.x - mx as i64
            };
            let ny: i64 = if dy >= 0 {
                leg.start.y + my as i64
            } else {
                leg.start.y - my as i64
            };
            robot.position = Point::new(nx, ny);
            robot.velocity = v;
            self.leg = Leg { start: leg.start, end: leg.end, length: leg.length, done, carry };
            self.translating = true;
            false
        } else {
            robot.position = leg.end;
            robot.velocity = 0;
            self.translating = false;
            true
        }
    }

    /// One tick of `dt` microseconds. `target_angle` is the bearing from the
    /// robot to the front waypoint; it is read only while the heading turns.
    pub fn update_robot(
        &mut self,
        robot: &mut Robot,
        trajectory: &mut Trajectory,
        dt: u64,
        target_angle: i64,
    ) -> (r: Progress)
        requires
            old(self).wf(old(robot), old(trajectory).0@),
            old(trajectory).0@.len() > 0 && !old(self).translating ==> is_normal_angle(target_angle as int),
        ensures
            (state_of(*final(self), *final(robot)), final(trajectory).0@, r) == tick_model(
                old(self).config,
                state_of(*old(self), *old(robot)),
                old(trajectory).0@,
                dt as int,
                target_angle as int,
            ),
            final(self).wf(final(robot), final(trajectory).0@),
            final(self).config == old(self).config,
            final(robot).sensor == old(robot).sensor,
            final(robot).sensor_max_length == old(robot).sensor_max_length,
            r == Progress::Idle <==> old(trajectory).0@.len() == 0,
            r == Progress::Rotating ==> final(robot).position == old(robot).position
                && final(robot).velocity == old(robot).velocity,
            r == Progress::Reached ==> {
                &&& final(robot).position == old(trajectory).0@[0]
                &&& final(robot).velocity == 0
                &&& final(trajectory).0@ == old(trajectory).0@.drop_first()
            },
            r != Progress::Reached ==> final(trajectory).0@ == old(trajectory).0@,
    {
        let destination = match trajectory.front() {
            None => {
                self.translating = false;
                return Progress::Idle;
            },
            Some(p) => p,
        };
        assert(destination.in_bounds());
        if !self.translating {
            if !self.update_orientation(robot, target_angle, dt) {
                return Progress::Rotating;
            }
            self.begin_leg(robot.position, destination);
        }
        if self.update_position(robot, dt) {
            trajectory.pop_front();
            proof {
                let q = trajectory.0@;
                assert forall|i: int| 0 <= i < q.len() implies (#[trigger] q[i]).in_bounds() by {
                    assert(q[i] == old(trajectory).0@[i + 1]);
                }
            }
            Progress::Reached
        } else {
            Progress::Translating
        }
    }
}

} // verus!
