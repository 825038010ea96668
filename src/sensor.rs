use vstd::prelude::*;

use crate::geometry::HALF_TURN;

verus! {

/// One range sensor: its direction relative to the robot's heading, and the
/// distance it last measured.
#[derive(Clone, Copy, Debug, PartialEq, Eq, Structural)]
pub struct SensorRay {
    pub orientation: i64,
    pub length: u64,
}

/// How the fan of range sensors is laid out.
#[derive(Clone, Copy, Debug, PartialEq, Eq, Structural)]
pub struct SensorConfig {
    /// Number of rays.
    pub ray_count: usize,
    /// Half of the field of view, in millionths of a degree.
    pub fov: i64,
    /// Range of every ray, in thousandths of a world unit.
    pub max_length: u64,
}

impl SensorConfig {
    pub open spec fn valid(self) -> bool {
        0 <= self.fov <= HALF_TURN
    }

    /// Ten rays over a quarter turn, each reaching two hundred world units.
    pub fn standard() -> (r: SensorConfig)
        ensures
            r.ray_count == 10,
            r.fov == 45_000_000,
            r.max_length == 200_000,
            r.valid(),
    {
        SensorConfig { ray_count: 10, fov: 45_000_000, max_length: 200_000 }
    }
}

/// Relative angle of ray `i` in a fan of `n` rays spread evenly over [-fov, fov).
pub open spec fn fan_angle(i: int, n: int, fov: int) -> int {
    i * (2 * fov) / n - fov
}

/// The fan of rays that a robot carries, each at full range.
pub fn sensor_fan(config: &SensorConfig) -> (r: Vec<SensorRay>)
    requires
        config.valid(),
    ensures
        r@.len() == config.ray_count,
        forall|i: int|
            0 <= i < r@.len() ==> {
                &&& (#[trigger] r@[i]).orientation == fan_angle(i, config.ray_count as int, config.fov as int)
                &&& r@[i].length == config.max_length
            },
        forall|i: int| 0 <= i < r@.len() ==> -HALF_TURN <= #[trigger] r@[i].orientation <= HALF_TURN,
{
    let n = config.ray_count;
    let fov = config.fov;
    let mut rays: Vec<SensorRay> = Vec::new();
    let mut i: usize = 0;
    while i < n
        invariant
            0 <= fov <= HALF_TURN,
            n == config.ray_count,
            fov == config.fov,
            i <= n,
            rays@.len() == i,
            forall|j: int|
                0 <= j < i ==> {
                    &&& (#[trigger] rays@[j]).orientation == fan_angle(j, n as int, fov as int)
                    &&& rays@[j].length == config.max_length
                },
            forall|j: int| 0 <= j < i ==> -HALF_TURN <= #[trigger] rays@[j].orientation <= HALF_TURN,
        decreases n - i,
    {
        assert((i as u128) * (2 * fov as u128) <= 0x1_0000_0000_0000_0000 * 0x1_0000_0000) by (nonlinear_arith)
            requires
                0 <= i < 0x1_0000_0000_0000_0000,
                0 <= 2 * fov <= 0x1_0000_0000,
        ;
        let span: u128 = (i as u128) * (2 * fov as u128);
        let offset: u128 = span / (n as u128);
        proof {
            let s = i as int * (2 * fov as int);
            assert(s <= n as int * (2 * fov as int)) by (nonlinear_arith)
                requires
                    0 <= i < n,
                    0 <= fov,
                    s == i as int * (2 * fov as int),
            ;
            assert(s / (n as int) <= 2 * fov as int) by (nonlinear_arith)
                requires
                    0 <= s <= n as int * (2 * fov as int),
                    0 < n,
                    0 <= fov,
            ;
        }
        let orientation: i64 = (offset as i64) - fov;
        rays.push(SensorRay { orientation, length: config.max_length });
        i = i + 1;
    }
    rays
}

/// What a ray records from the distance a cast returned: the hit distance,
/// capped at the range, or the full range when nothing was hit.
pub open spec fn reading(hit: Option<u64>, max_length: u64) -> u64 {
    match hit {
        Some(d) => if d < max_length { d } else { max_length },
        None => max_length,
    }
}

/// The fan is ordered: relative angles never decrease along it.
pub proof fn lemma_fan_monotonic(n: int, fov: int, i: int, j: int)
    requires
        0 <= i <= j < n,
        0 <= fov,
    ensures
        fan_angle(i, n, fov) <= fan_angle(j, n, fov),
{
    assert(i * (2 * fov) <= j * (2 * fov)) by (nonlinear_arith)
        requires
            0 <= i <= j,
            0 <= fov,
    ;
    vstd::arithmetic::div_mod::lemma_div_is_ordered(i * (2 * fov), j * (2 * fov), n);
}

/// When the field of view divides evenly among the rays, the fan starts at
/// `-fov`, each ray lies one step past the one before, and the last stands one
/// step short of `fov`.
pub proof fn lemma_fan_evenly_spaced(n: int, fov: int)
    requires
        0 < n,
        0 <= fov,
        (2 * fov) % n == 0,
    ensures
        fan_angle(0, n, fov) == -fov,
        fan_angle(n - 1, n, fov) == fov - (2 * fov) / n,
        forall|i: int| 0 <= i < n - 1 ==> #[trigger] fan_angle(i + 1, n, fov) - fan_angle(i, n, fov) == (2 * fov) / n,
{
    let step = (2 * fov) / n;
    vstd::arithmetic::div_mod::lemma_fundamental_div_mod(2 * fov, n);
    assert(2 * fov == n * step);
    assert forall|i: int| 0 <= i <= n implies #[trigger] (i * (2 * fov)) / n == i * step by {
        assert(i * (2 * fov) == (i * step) * n) by (nonlinear_arith)
            requires
                2 * fov == n * step,
        ;
        vstd::arithmetic::div_mod::lemma_div_by_multiple(i * step, n);
    }
    assert((0 * (2 * fov)) / n == 0 * step);
    assert(((n - 1) * (2 * fov)) / n == (n - 1) * step);
    assert forall|i: int| 0 <= i < n - 1 implies #[trigger] fan_angle(i + 1, n, fov) - fan_angle(i, n, fov) == step by {
        assert(((i + 1) * (2 * fov)) / n == (i + 1) * step);
        assert((i * (2 * fov)) / n == i * step);
        assert((i + 1) * step == i * step + step) by (nonlinear_arith);
    }
    assert((n - 1) * step == n * step - step) by (nonlinear_arith);
}

} // verus!
