//! Traffic lights and how long each one stays lit.

use vstd::prelude::*;

verus! {

/// The three lights of a traffic signal.
#[derive(Clone, Copy, PartialEq, Eq, Debug, Structural)]
pub enum TrafficLight {
    Red,
    Green,
    Yellow,
}

/// Something that may last for a number of seconds.
pub trait Timer {
    /// How long it lasts, in seconds. Unless a type says otherwise, it has
    /// no duration.
    fn get_duration(&self) -> (duration: Option<u8>)
        default_ensures
            duration is None,
    {
        return None;
    }
}

impl TrafficLight {
    /// How long the light stays lit, in seconds.
    pub open spec fn seconds(self) -> u8 {
        match self {
            TrafficLight::Red => 60,
            TrafficLight::Green => 50,
            TrafficLight::Yellow => 10,
        }
    }
}

impl Timer for TrafficLight {
    /// Red stays lit for 60 seconds, green for 50 and yellow for 10.
    fn get_duration(&self) -> (duration: Option<u8>)
        ensures
            duration == Some(self.seconds()),
    {
        match *self {
            TrafficLight::Red => {
                return Some(60);
            },
            TrafficLight::Green => {
                return Some(50);
            },
            TrafficLight::Yellow => {
                return Some(10);
            },
        }
    }
}

} // verus!
