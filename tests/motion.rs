use robot_gym::geometry::Point;
use robot_gym::motion::{Leg, MotionConfig, MotionController, Progress, SPEED_LIMIT};
use robot_gym::robot::{Robot, Trajectory};
use robot_gym::sensor::SensorConfig;

const SIXTIETH: u64 = 16_667;
const QUARTER_TURN: i64 = 90_000_000;
const HALF_TURN: i64 = 180_000_000;
/// Stored speeds are in millionths of their unit per second.
const MICRO: u128 = 1_000_000;

fn fresh_robot() -> Robot {
    Robot::new(&SensorConfig::standard())
}

fn controller_on_leg(start: Point, end: Point, length: u128, done: u128) -> MotionController {
    let mut controller = MotionController::new(MotionConfig::standard());
    controller.translating = true;
    controller.leg = Leg { start, end, length, done, carry: 0 };
    controller
}

#[test]
fn config_rejects_zero_accelerations() {
    assert!(MotionConfig::new(0, 200_000, 45_000_000, 90_000_000).is_none());
    assert!(MotionConfig::new(150_000, 200_000, 0, 90_000_000).is_none());
    assert!(MotionConfig::new(150_000, SPEED_LIMIT + 1, 45_000_000, 90_000_000).is_none());
    let c = MotionConfig::new(150_000, 200_000, 45_000_000, 90_000_000).unwrap();
    assert_eq!(c, MotionConfig::standard());
}

#[test]
fn scenario_turn_then_drive_to_waypoint() {
    let mut robot = fresh_robot();
    let mut trajectory = Trajectory::new();
    trajectory.append(Point::new(0, 100_000));
    let mut controller = MotionController::new(MotionConfig::standard());

    let mut ticks = 0;
    let mut last_y = 0;
    let mut last_orientation = 0;
    let mut turned = false;
    loop {
        let progress = controller.update_robot(&mut robot, &mut trajectory, SIXTIETH, QUARTER_TURN);
        ticks += 1;
        assert!(ticks < 10_000, "the robot never arrived");
        assert!(robot.velocity <= 200_000 * MICRO);
        assert!(robot.angular_velocity <= 90_000_000 * MICRO);
        match progress {
            Progress::Rotating => {
                assert!(!turned);
                assert_eq!(robot.position, Point::new(0, 0));
                assert!(robot.orientation >= last_orientation);
                assert!(robot.orientation > 0 && robot.orientation < QUARTER_TURN);
                last_orientation = robot.orientation;
            }
            Progress::Translating | Progress::Reached => {
                turned = true;
                assert_eq!(robot.orientation, QUARTER_TURN);
                assert_eq!(robot.position.x, 0);
                assert!(robot.position.y >= last_y && robot.position.y <= 100_000);
                last_y = robot.position.y;
            }
            Progress::Idle => break,
        }
    }
    assert!(turned);
    assert!(trajectory.is_empty());
    assert_eq!(robot.position, Point::new(0, 100_000));
    assert_eq!(robot.velocity, 0);
    assert_eq!(robot.orientation, QUARTER_TURN);
}

#[test]
fn queue_of_two_ends_on_the_second() {
    let mut robot = fresh_robot();
    let mut trajectory = Trajectory::new();
    trajectory.append(Point::new(30_000, 0));
    trajectory.append(Point::new(30_000, -40_000));
    let mut controller = MotionController::new(MotionConfig::standard());
    let mut reached = 0;
    let mut ticks = 0;
    loop {
        // The bearing of each waypoint as seen from where the robot turns for it.
        let bearing = if trajectory.len() == 2 { 0 } else { -QUARTER_TURN };
        match controller.update_robot(&mut robot, &mut trajectory, SIXTIETH, bearing) {
            Progress::Idle => break,
            Progress::Reached => {
                reached += 1;
                if reached == 1 {
                    assert_eq!(robot.position, Point::new(30_000, 0));
                    assert_eq!(trajectory.len(), 1);
                }
            }
            _ => {}
        }
        ticks += 1;
        assert!(ticks < 10_000);
    }
    assert_eq!(reached, 2);
    assert_eq!(trajectory.len(), 0);
    assert_eq!(robot.position, Point::new(30_000, -40_000));
    assert_eq!(robot.velocity, 0);
    assert_eq!(robot.angular_velocity, 0);
}

#[test]
fn one_microsecond_ticks_still_arrive() {
    let mut robot = fresh_robot();
    let mut trajectory = Trajectory::new();
    trajectory.append(Point::new(1_000, 0));
    let mut controller = MotionController::new(MotionConfig::standard());
    let mut ticks: u64 = 0;
    while controller.update_robot(&mut robot, &mut trajectory, 1, 0) != Progress::Idle {
        ticks += 1;
        assert!(ticks < 10_000_000, "the robot stalled");
    }
    assert_eq!(robot.position, Point::new(1_000, 0));
    assert!(trajectory.is_empty());
}

#[test]
fn first_tick_at_rest_gains_speed_on_short_ticks() {
    let mut robot = fresh_robot();
    let mut trajectory = Trajectory::new();
    trajectory.append(Point::new(1_000, 0));
    let mut controller = MotionController::new(MotionConfig::standard());
    let r = controller.update_robot(&mut robot, &mut trajectory, 1, 0);
    assert_eq!(r, Progress::Translating);
    assert_eq!(robot.velocity, 150_000);
    assert_eq!(controller.leg.carry, 150_000);
}

#[test]
fn empty_queue_is_idle() {
    let mut robot = fresh_robot();
    robot.orientation = 1_234;
    let mut trajectory = Trajectory::new();
    let mut controller = MotionController::new(MotionConfig::standard());
    let before = robot.clone();
    assert_eq!(controller.update_robot(&mut robot, &mut trajectory, SIXTIETH, 0), Progress::Idle);
    assert_eq!(robot.position, before.position);
    assert_eq!(robot.orientation, 1_234);
    assert_eq!(trajectory.front(), None);
}

#[test]
fn waypoint_at_current_position_pops_at_once() {
    let mut robot = fresh_robot();
    let mut trajectory = Trajectory::new();
    trajectory.append(Point::new(0, 0));
    let mut controller = MotionController::new(MotionConfig::standard());
    // Facing the bearing already: rotation arrives, translation covers a zero distance.
    let r = controller.update_robot(&mut robot, &mut trajectory, SIXTIETH, 0);
    assert_eq!(r, Progress::Reached);
    assert!(trajectory.is_empty());
    assert_eq!(robot.position, Point::new(0, 0));
}

#[test]
fn first_rotation_tick_values() {
    let mut robot = fresh_robot();
    let mut controller = MotionController::new(MotionConfig::standard());
    // Angular speed rises by 45e6 * 16667 per tick (in millionths), which turns
    // 12500.500005 units: 12500 now, the rest carried.
    let reached = controller.update_orientation(&mut robot, QUARTER_TURN, SIXTIETH);
    assert!(!reached);
    assert_eq!(robot.angular_velocity, 750_015_000_000);
    assert_eq!(robot.orientation, 12_500);
    assert_eq!(controller.angle_carry, 500_005_000_000);
    assert_eq!(robot.position, Point::new(0, 0));
}

#[test]
fn rotation_brakes_near_the_bearing() {
    let mut robot = fresh_robot();
    let mut controller = MotionController::new(MotionConfig::standard());
    robot.angular_velocity = 90_000_000 * MICRO;
    // Braking angle 90e6^2 / 90e6 = 90e6 exceeds the 10e6 left: slow down.
    let reached = controller.update_orientation(&mut robot, 10_000_000, 1_000);
    assert!(!reached);
    assert_eq!(robot.angular_velocity, (90_000_000 - 45_000) * MICRO);
    assert_eq!(robot.orientation, 89_955);
}

#[test]
fn rotation_snaps_onto_bearing() {
    let mut robot = fresh_robot();
    let mut controller = MotionController::new(MotionConfig::standard());
    robot.orientation = 99_000;
    robot.angular_velocity = 90_000_000 * MICRO;
    let reached = controller.update_orientation(&mut robot, 100_000, 1_000);
    assert!(reached);
    assert!(controller.translating);
    assert_eq!(robot.orientation, 100_000);
    assert_eq!(robot.angular_velocity, 0);
    assert_eq!(controller.angle_carry, 0);
}

#[test]
fn rotation_takes_the_short_way_across_the_seam() {
    let mut robot = fresh_robot();
    let mut controller = MotionController::new(MotionConfig::standard());
    robot.orientation = HALF_TURN - 1_000;
    robot.angular_velocity = 90_000_000 * MICRO;
    // The target lies just past the seam: turning up and wrapping is shorter.
    let target = -HALF_TURN + 1_000_000;
    let reached = controller.update_orientation(&mut robot, target, 100_000);
    assert!(!reached);
    assert_eq!(robot.angular_velocity, 90_000_000 * MICRO);
    assert_eq!(robot.orientation, HALF_TURN - 1_000 + 9_000_000 - 2 * HALF_TURN);
    assert!(robot.orientation > -HALF_TURN && robot.orientation <= HALF_TURN);
}

#[test]
fn rotation_turns_down_when_that_is_shorter() {
    let mut robot = fresh_robot();
    let mut controller = MotionController::new(MotionConfig::standard());
    let reached = controller.update_orientation(&mut robot, -QUARTER_TURN, SIXTIETH);
    assert!(!reached);
    assert_eq!(robot.orientation, -12_500);
}

#[test]
fn orientation_stays_normal_over_many_turns() {
    let mut robot = fresh_robot();
    let mut controller = MotionController::new(MotionConfig::standard());
    let config = MotionConfig::standard();
    let targets = [HALF_TURN, -HALF_TURN + 1, 0, 170_000_000, -170_000_000, 5];
    for (k, t) in targets.iter().enumerate() {
        for _ in 0..(200 + 37 * k) {
            if controller.update_orientation(&mut robot, *t, SIXTIETH) {
                controller.translating = false;
            }
            assert!(robot.orientation > -HALF_TURN && robot.orientation <= HALF_TURN);
            assert!(robot.angular_velocity <= config.max_angular_velocity as u128 * MICRO);
        }
    }
}

#[test]
fn translation_first_tick_values() {
    let mut robot = fresh_robot();
    let mut controller = controller_on_leg(Point::new(0, 0), Point::new(30_000, 40_000), 50_000, 0);
    // Speed rises by 150000 * 16667 (in millionths), which covers 41.66... units.
    let reached = controller.update_position(&mut robot, SIXTIETH);
    assert!(!reached);
    assert_eq!(robot.velocity, 2_500_050_000);
    // 41 of a 50000 leg: 41 * 30000 / 50000 and 41 * 40000 / 50000, rounded down.
    assert_eq!(robot.position, Point::new(24, 32));
    assert_eq!(controller.leg.done, 41);
    assert_eq!(controller.leg.carry, 668_333_350_000);
    assert_eq!(robot.orientation, 0);
}

#[test]
fn translation_toward_negative_offsets() {
    let mut robot = fresh_robot();
    let mut controller = controller_on_leg(Point::new(0, 0), Point::new(-30_000, -40_000), 50_000, 0);
    robot.velocity = 100_000 * MICRO;
    let reached = controller.update_position(&mut robot, 100_000);
    assert!(!reached);
    assert_eq!(robot.velocity, 115_000 * MICRO);
    // 11500 of 50000: 6900 and 9200 toward the target.
    assert_eq!(robot.position, Point::new(-6_900, -9_200));
}

#[test]
fn arrival_snaps_exactly_and_stops() {
    let mut robot = fresh_robot();
    let mut controller = controller_on_leg(Point::new(0, 0), Point::new(7, 3), 7, 0);
    robot.velocity = 200_000 * MICRO;
    let reached = controller.update_position(&mut robot, SIXTIETH);
    assert!(reached);
    assert!(!controller.translating);
    assert_eq!(robot.position, Point::new(7, 3));
    assert_eq!(robot.velocity, 0);
}

#[test]
fn speed_never_exceeds_its_limit_or_goes_negative() {
    let mut robot = fresh_robot();
    let far = Point::new(10_000_000, 0);
    let mut controller = controller_on_leg(Point::new(0, 0), far, 10_000_000, 0);
    robot.velocity = 199_000 * MICRO;
    controller.update_position(&mut robot, SIXTIETH);
    assert_eq!(robot.velocity, 200_000 * MICRO);

    let mut controller = controller_on_leg(Point::new(0, 0), far, 10_000_000, 9_999_999);
    robot.velocity = 1_000 * MICRO;
    // Stopping distance 1000^2 / 300000 = 3 exceeds the 1 left: brake to zero.
    let reached = controller.update_position(&mut robot, SIXTIETH);
    assert!(!reached);
    assert_eq!(robot.velocity, 0);
    assert_eq!(robot.position, Point::new(9_999_999, 0));
}

#[test]
fn diagonal_approach_is_monotone_and_exact() {
    let mut robot = fresh_robot();
    let mut trajectory = Trajectory::new();
    let target = Point::new(3_000, -4_000);
    trajectory.append(target);
    let mut controller = MotionController::new(MotionConfig::standard());
    // Bearing of (3, -4) in millionths of a degree.
    let bearing = -53_130_102;
    let mut last = robot.position;
    let mut ticks = 0;
    loop {
        let r = controller.update_robot(&mut robot, &mut trajectory, 1_000, bearing);
        if r == Progress::Idle {
            break;
        }
        if r == Progress::Rotating {
            assert_eq!(robot.position, Point::new(0, 0));
        }
        assert!(robot.position.x >= last.x && robot.position.x <= target.x);
        assert!(robot.position.y <= last.y && robot.position.y >= target.y);
        last = robot.position;
        ticks += 1;
        assert!(ticks < 100_000);
    }
    assert_eq!(robot.position, target);
    assert_eq!(robot.orientation, bearing);
}
