use vstd::prelude::*;

use crate::fixed::FP_ONE;
use crate::vec3::{length_squared_spec, unit_spec, Vec3};

verus! {

/// Relies on rand::random to draw one value of a type its standard
/// distribution covers; nothing is promised of the value drawn.
pub assume_specification<T>[ rand::random::<T> ]() -> (r: T)
    where
        rand::distributions::Standard: rand::distributions::Distribution<T>,
;

/// One uniform fixed-point step in `[-1, 1]`.
fn rand_step() -> (r: i64)
    ensures
        -FP_ONE <= r <= FP_ONE,
{
    let x: u32 = rand::random();
    let m: u32 = x % 131073;
    (m as i64) - FP_ONE
}

/// One uniform fixed-point step in `[0, 1)`.
pub fn rand_frac() -> (r: i64)
    ensures
        0 <= r < FP_ONE,
{
    let x: u32 = rand::random();
    (x % 65536) as i64
}

/// Rejection-sample a point of the open unit ball from the cube
/// `[-1, 1]^3`: points outside the ball are rejected, as are points too
/// short to normalize. After a generous number of tries a fixed interior
/// point stands in, so that the function always returns a usable sample.
pub fn random_in_unit_sphere() -> (r: Vec3)
    ensures
        1 <= length_squared_spec(r) < FP_ONE,
{
    let mut tries: u32 = 0;
    while tries < 64
        decreases 64 - tries,
    {
        let p = Vec3::new(rand_step(), rand_step(), rand_step());
        let lsq = p.length_squared();
        if 1 <= lsq && lsq < FP_ONE {
            return p;
        }
        tries = tries + 1;
    }
    Vec3::new(32768, 0, 0)
}

/// The normalization of one sample of the open unit ball.
pub fn random_unit_vector() -> (r: Vec3)
    ensures
        exists|p: Vec3|
            1 <= length_squared_spec(p) < FP_ONE && r == unit_spec(p),
{
    let p = random_in_unit_sphere();
    let u = p.unit_vector();
    proof {
        assert(1 <= length_squared_spec(p) < FP_ONE && u == unit_spec(p));
    }
    u
}

} // verus!
