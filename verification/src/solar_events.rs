//! The kinds of solar events that structure a day, and the solar elevation
//! angle that defines each of them.
//!
//! Every event except `Noon` and `Midnight` is defined by the sun standing at
//! a fixed elevation relative to the horizon: the three dawn/dusk twilight
//! pairs at -18, -12 and -6 degrees, and sunrise/sunset at -0.833 degrees (the
//! atmospheric-refraction lift of the solar disc). The table here stores the
//! zenith-relative angles in millidegrees, so they are exact integers; the
//! caller that feeds them to the floating-point solar equations converts them
//! to radians.

use vstd::prelude::*;

verus! {

/// A kind of solar event within one 24-hour cycle.
#[derive(Eq, PartialEq, Structural, Ord, PartialOrd, Hash, Copy, Clone, Debug)]
pub enum SolarTime {
    Noon,
    Midnight,
    AstroDawn,
    NautDawn,
    CivilDawn,
    Sunrise,
    Sunset,
    CivilDusk,
    NautDusk,
    AstroDusk,
}

impl SolarTime {
    /// The fixed order in which the ten event kinds are enumerated.
    pub open spec fn all_events() -> Seq<SolarTime> {
        seq![
            SolarTime::Noon,
            SolarTime::Midnight,
            SolarTime::AstroDawn,
            SolarTime::NautDawn,
            SolarTime::CivilDawn,
            SolarTime::Sunrise,
            SolarTime::Sunset,
            SolarTime::CivilDusk,
            SolarTime::NautDusk,
            SolarTime::AstroDusk,
        ]
    }

    /// Every event kind, once, in the fixed enumeration order.
    pub fn iterator() -> (events: Vec<SolarTime>)
        ensures
            events@ == SolarTime::all_events(),
    {
        let mut events: Vec<SolarTime> = Vec::new();
        events.push(SolarTime::Noon);
        events.push(SolarTime::Midnight);
        events.push(SolarTime::AstroDawn);
        events.push(SolarTime::NautDawn);
        events.push(SolarTime::CivilDawn);
        events.push(SolarTime::Sunrise);
        events.push(SolarTime::Sunset);
        events.push(SolarTime::CivilDusk);
        events.push(SolarTime::NautDusk);
        events.push(SolarTime::AstroDusk);
        proof {
            assert(events@ =~= SolarTime::all_events());
        }
        events
    }

    /// The angle, in millidegrees from the zenith-relative reference the solar
    /// equations use, at which this event occurs: `None` for `Midnight`, which
    /// is defined as solar noon plus twelve hours rather than by an angle.
    pub open spec fn spec_angle_mdeg(self) -> Option<i32> {
        match self {
            SolarTime::AstroDawn => Some(-108000i32),
            SolarTime::NautDawn => Some(-102000i32),
            SolarTime::CivilDawn => Some(-96000i32),
            SolarTime::Sunrise => Some(-90833i32),
            SolarTime::Noon => Some(0i32),
            SolarTime::Sunset => Some(90833i32),
            SolarTime::CivilDusk => Some(96000i32),
            SolarTime::NautDusk => Some(102000i32),
            SolarTime::AstroDusk => Some(108000i32),
            SolarTime::Midnight => None,
        }
    }

    /// Millidegree angle bound to this event kind; `None` for `Midnight`.
    pub fn angle_mdeg(self) -> (angle: Option<i32>)
        ensures
            angle == self.spec_angle_mdeg(),
    {
        match self {
            SolarTime::AstroDawn => Some(-108000i32),
            SolarTime::NautDawn => Some(-102000i32),
            SolarTime::CivilDawn => Some(-96000i32),
            SolarTime::Sunrise => Some(-90833i32),
            SolarTime::Noon => Some(0i32),
            SolarTime::Sunset => Some(90833i32),
            SolarTime::CivilDusk => Some(96000i32),
            SolarTime::NautDusk => Some(102000i32),
            SolarTime::AstroDusk => Some(108000i32),
            SolarTime::Midnight => None,
        }
    }
}

/// The four dawn-side events carry strictly increasing angles, and the four
/// dusk-side events mirror them in the opposite order: the angle table alone
/// already orders twilight before sunrise and sunset before dusk.
pub proof fn lemma_angle_table_ordered()
    ensures
        SolarTime::AstroDawn.spec_angle_mdeg().unwrap()
            < SolarTime::NautDawn.spec_angle_mdeg().unwrap()
            < SolarTime::CivilDawn.spec_angle_mdeg().unwrap()
            < SolarTime::Sunrise.spec_angle_mdeg().unwrap()
            < SolarTime::Noon.spec_angle_mdeg().unwrap(),
        SolarTime::Sunset.spec_angle_mdeg().unwrap()
            < SolarTime::CivilDusk.spec_angle_mdeg().unwrap()
            < SolarTime::NautDusk.spec_angle_mdeg().unwrap()
            < SolarTime::AstroDusk.spec_angle_mdeg().unwrap(),
        forall|st: SolarTime|
            (#[trigger] st.spec_angle_mdeg()) matches Some(a) ==> -108000 <= a <= 108000,
{
}

} // verus!
