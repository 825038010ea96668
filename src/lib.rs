use vstd::prelude::*;

pub mod geometry;
pub mod motion;
pub mod robot;
pub mod sensor;

verus! {

} // verus!
