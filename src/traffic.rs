//! Traffic lights and how long each shows.
use vstd::prelude::*;

verus! {

/// Something that shows for a number of seconds.
pub trait TrafficLightDuration {
    /// How long it shows.
    spec fn shown_for(&self) -> u32;

    fn duration(&self) -> (r: u32)
        ensures
            r == self.shown_for(),
    ;
}

/// A light of one colour, with how long it shows.
#[derive(Clone, Copy, Debug, PartialEq, Eq, Structural)]
pub enum TrafficLight {
    Red(u32),
    Green(u32),
    Yellow(u32),
}

impl TrafficLightDuration for TrafficLight {
    open spec fn shown_for(&self) -> u32 {
        match self {
            TrafficLight::Red(d) => *d,
            TrafficLight::Green(d) => *d,
            TrafficLight::Yellow(d) => *d,
        }
    }

    fn duration(&self) -> (r: u32) {
        match self {
            TrafficLight::Red(d) => *d,
            TrafficLight::Green(d) => *d,
            TrafficLight::Yellow(d) => *d,
        }
    }
}

impl TrafficLight {
    /// The colour's name, as the light is written: `Red(60)` for a red light of 60 seconds.
    pub fn colour(&self) -> (r: &'static str)
        ensures
            self is Red ==> r@ == "Red"@,
            self is Green ==> r@ == "Green"@,
            self is Yellow ==> r@ == "Yellow"@,
    {
        match self {
            TrafficLight::Red(_) => "Red",
            TrafficLight::Green(_) => "Green",
            TrafficLight::Yellow(_) => "Yellow",
        }
    }
}

} // verus!
