use robot_gym::geometry::{isqrt, normalize_angle, Point};
use robot_gym::robot::Robot;
use robot_gym::sensor::{sensor_fan, SensorConfig, SensorRay};

#[test]
fn fan_of_ten_over_forty_five_degrees() {
    let config = SensorConfig::standard();
    let fan = sensor_fan(&config);
    assert_eq!(fan.len(), 10);
    let step = 9_000_000;
    for (i, ray) in fan.iter().enumerate() {
        assert_eq!(ray.orientation, -45_000_000 + step * i as i64);
        assert_eq!(ray.length, 200_000);
    }
    assert_eq!(fan[9].orientation, 45_000_000 - step);
    for w in fan.windows(2) {
        assert!(w[0].orientation < w[1].orientation);
    }
}

#[test]
fn uneven_fan_rounds_down_and_stays_ordered() {
    let config = SensorConfig { ray_count: 3, fov: 10, max_length: 5 };
    let fan = sensor_fan(&config);
    let angles: Vec<i64> = fan.iter().map(|r| r.orientation).collect();
    assert_eq!(angles, vec![-10, -4, 3]);
}

#[test]
fn empty_fan() {
    let config = SensorConfig { ray_count: 0, fov: 10, max_length: 5 };
    assert!(sensor_fan(&config).is_empty());
}

#[test]
fn new_robot_defaults() {
    let robot = Robot::new(&SensorConfig::standard());
    assert_eq!(robot.position, Point::new(0, 0));
    assert_eq!(robot.orientation, 0);
    assert_eq!(robot.velocity, 0);
    assert_eq!(robot.angular_velocity, 0);
    assert_eq!(robot.sensor_max_length, 200_000);
    assert_eq!(robot.sensor.len(), 10);
}

#[test]
fn no_hit_reads_full_range() {
    let mut robot = Robot::new(&SensorConfig::standard());
    let hits = vec![None; 10];
    robot.record_readings(&hits);
    for ray in robot.sensor.iter() {
        assert_eq!(ray.length, 200_000);
    }
}

#[test]
fn hits_are_recorded_and_capped() {
    let mut robot = Robot::new(&SensorConfig { ray_count: 3, fov: 30_000_000, max_length: 1_000 });
    robot.record_readings(&vec![Some(250), None, Some(5_000)]);
    let lengths: Vec<u64> = robot.sensor.iter().map(|r| r.length).collect();
    assert_eq!(lengths, vec![250, 1_000, 1_000]);
    assert_eq!(robot.sensor[0], SensorRay { orientation: -30_000_000, length: 250 });
}

#[test]
fn headings_follow_the_robot_and_wrap() {
    let mut robot = Robot::new(&SensorConfig::standard());
    robot.orientation = 170_000_000;
    let headings = robot.ray_headings();
    assert_eq!(headings[0], 125_000_000);
    // 170 + 36 degrees wraps to -154.
    assert_eq!(headings[9], -154_000_000);
    robot.orientation = 0;
    assert_eq!(robot.ray_headings()[5], 0);
}

#[test]
fn angle_normalization() {
    assert_eq!(normalize_angle(180_000_000), 180_000_000);
    assert_eq!(normalize_angle(-180_000_000), 180_000_000);
    assert_eq!(normalize_angle(190_000_000), -170_000_000);
    assert_eq!(normalize_angle(-190_000_000), 170_000_000);
    assert_eq!(normalize_angle(5), 5);
}

#[test]
fn integer_square_root() {
    assert_eq!(isqrt(0), 0);
    assert_eq!(isqrt(1), 1);
    assert_eq!(isqrt(24), 4);
    assert_eq!(isqrt(25), 5);
    assert_eq!(isqrt(2_500_000_000), 50_000);
    assert_eq!(isqrt(8_000_000_000_000_000_000_000_000), 2_828_427_124_746);
}
