//! What a localizer asks of a sensor.
//!
//! A sensor is anything that can be read. The localizers are written against
//! these traits alone and make no assumption about what a reading holds.

use crate::utility::Pose;
use vstd::prelude::*;

verus! {

/// A sensor that yields readings of type `T`.
pub trait Sensor<T> {
    /// The current reading.
    fn sense(&self) -> T;

    /// Where the sensor is mounted, relative to the robot.
    fn relative_pose(&self) -> Pose;
}

/// A sensor that may be limited in how far, or how wide, it senses.
pub trait LimitedSensor<R, T>: Sensor<T> {
    /// The limit, if the sensor has one.
    fn range(&self) -> Option<R>;
}

} // verus!
