use vstd::prelude::*;

use crate::geometry::{is_normal_angle, normalize_angle, wrap_angle, Point, HALF_TURN};
use crate::sensor::{reading, sensor_fan, SensorConfig, SensorRay};

verus! {

/// The controlled robot: its pose, its speeds and its sensor readings.
///
/// Positions are in thousandths of a world unit and angles in millionths of a
/// degree. Speeds are kept in millionths of those units per second, so that
/// what a tick of whole microseconds adds to them is exact.
#[derive(Clone, Debug)]
pub struct Robot {
    pub position: Point,
    pub orientation: i64,
    pub velocity: u128,
    pub angular_velocity: u128,
    pub sensor: Vec<SensorRay>,
    pub sensor_max_length: u64,
}

impl Robot {
    /// The sensor fan is laid out within a half turn each way and no reading
    /// exceeds the sensors' range.
    pub open spec fn sensors_wf(&self) -> bool {
        &&& forall|i: int|
            0 <= i < self.sensor@.len() ==> -HALF_TURN <= #[trigger] self.sensor@[i].orientation
                <= HALF_TURN
        &&& forall|i: int|
            0 <= i < self.sensor@.len() ==> #[trigger] self.sensor@[i].length
                <= self.sensor_max_length
    }

    /// A robot at the origin, facing along the x axis, at rest, with a fresh
    /// sensor fan whose rays all read full range.
    pub fn new(config: &SensorConfig) -> (r: Robot)
        requires
            config.valid(),
        ensures
            r.position == Point::new_spec(0, 0),
            r.orientation == 0,
            r.velocity == 0,
            r.angular_velocity == 0,
            r.sensor_max_length == config.max_length,
            r.sensor@.len() == config.ray_count,
            forall|i: int|
                0 <= i < r.sensor@.len() ==> {
                    &&& (#[trigger] r.sensor@[i]).orientation == crate::sensor::fan_angle(
                        i,
                        config.ray_count as int,
                        config.fov as int,
                    )
                    &&& r.sensor@[i].length == config.max_length
                },
            r.sensors_wf(),
            is_normal_angle(r.orientation as int),
    {
        Robot {
            position: Point::new(0, 0),
            orientation: 0,
            velocity: 0,
            angular_velocity: 0,
            sensor: sensor_fan(config),
            sensor_max_length: config.max_length,
        }
    }

    /// The absolute direction of each sensor ray from the current heading,
    /// brought into the normal range.
    pub fn ray_headings(&self) -> (r: Vec<i64>)
        requires
            self.sensors_wf(),
            is_normal_angle(self.orientation as int),
        ensures
            r@.len() == self.sensor@.len(),
            forall|i: int|
                0 <= i < r@.len() ==> #[trigger] r@[i] == wrap_angle(
                    self.sensor@[i].orientation + self.orientation,
                ),
            forall|i: int| 0 <= i < r@.len() ==> is_normal_angle(#[trigger] r@[i] as int),
    {
        let mut headings: Vec<i64> = Vec::new();
        let mut i: usize = 0;
        while i < self.sensor.len()
            invariant
                self.sensors_wf(),
                is_normal_angle(self.orientation as int),
                i <= self.sensor@.len(),
                headings@.len() == i,
                forall|j: int|
                    0 <= j < i ==> #[trigger] headings@[j] == wrap_angle(
                        self.sensor@[j].orientation + self.orientation,
                    ),
                forall|j: int| 0 <= j < i ==> is_normal_angle(#[trigger] headings@[j] as int),
            decreases self.sensor@.len() - i,
        {
            let ray = self.sensor[i];
            assert(-HALF_TURN <= self.sensor@[i as int].orientation <= HALF_TURN);
            headings.push(normalize_angle(ray.orientation + self.orientation));
            i = i + 1;
        }
        headings
    }

    /// Stores what each ray's cast returned: the hit distance, capped at the
    /// range, or the full range where nothing was hit. Directions are kept.
    pub fn record_readings(&mut self, hits: &Vec<Option<u64>>)
        requires
            hits@.len() == old(self).sensor@.len(),
        ensures
            final(self).position == old(self).position,
            final(self).orientation == old(self).orientation,
            final(self).velocity == old(self).velocity,
            final(self).angular_velocity == old(self).angular_velocity,
            final(self).sensor_max_length == old(self).sensor_max_length,
            final(self).sensor@.len() == old(self).sensor@.len(),
            forall|i: int|
                0 <= i < final(self).sensor@.len() ==> {
                    &&& (#[trigger] final(self).sensor@[i]).orientation == old(self).sensor@[i].orientation
                    &&& final(self).sensor@[i].length == reading(hits@[i], old(self).sensor_max_length)
                },
            old(self).sensors_wf() ==> final(self).sensors_wf(),
    {
        let max_length = self.sensor_max_length;
        let mut i: usize = 0;
        while i < self.sensor.len()
            invariant
                hits@.len() == old(self).sensor@.len(),
                self.sensor@.len() == old(self).sensor@.len(),
                self.position == old(self).position,
                self.orientation == old(self).orientation,
                self.velocity == old(self).velocity,
                self.angular_velocity == old(self).angular_velocity,
                self.sensor_max_length == max_length,
                max_length == old(self).sensor_max_length,
                i <= self.sensor@.len(),
                forall|j: int|
                    0 <= j < self.sensor@.len() ==> #[trigger] self.sensor@[j].orientation
                        == old(self).sensor@[j].orientation,
                forall|j: int|
                    0 <= j < i ==> #[trigger] self.sensor@[j].length == reading(hits@[j], max_length),
                forall|j: int|
                    i <= j < self.sensor@.len() ==> #[trigger] self.sensor@[j].length
                        == old(self).sensor@[j].length,
            decreases self.sensor@.len() - i,
        {
            let length: u64 = match hits[i] {
                Some(d) => if d < max_length {
                    d
                } else {
                    max_length
                },
                None => max_length,
            };
            let ray = SensorRay { orientation: self.sensor[i].orientation, length };
            self.sensor.set(i, ray);
            i = i + 1;
        }
    }
}

/// The queue of waypoints the robot is to visit, front first.
#[derive(Clone, Debug)]
pub struct Trajectory(pub Vec<Point>);

impl Trajectory {
    pub fn new() -> (r: Trajectory)
        ensures
            r.0@ == Seq::<Point>::empty(),
    {
        Trajectory(Vec::new())
    }

    /// Adds a waypoint at the back of the queue.
    pub fn append(&mut self, point: Point)
        ensures
            final(self).0@ == old(self).0@.push(point),
    {
        self.0.push(point);
    }

    /// The current target, if any.
    pub fn front(&self) -> (r: Option<Point>)
        ensures
            self.0@.len() == 0 ==> r is None,
            self.0@.len() > 0 ==> r == Some(self.0@[0]),
    {
        if self.0.len() == 0 {
            None
        } else {
            Some(self.0[0])
        }
    }

    /// Removes the current target; an empty queue stays empty.
    pub fn pop_front(&mut self)
        ensures
            old(self).0@.len() == 0 ==> final(self).0@ == old(self).0@,
            old(self).0@.len() > 0 ==> final(self).0@ == old(self).0@.drop_first(),
    {
        if self.0.len() > 0 {
            self.0.remove(0);
            assert(self.0@ =~= old(self).0@.drop_first());
        }
    }

    pub fn len(&self) -> (r: usize)
        ensures
            r == self.0@.len(),
    {
        self.0.len()
    }

    pub fn is_empty(&self) -> (r: bool)
        ensures
            r == (self.0@.len() == 0),
    {
        self.0.len() == 0
    }
}

} // verus!
