//! Choosing the devices at startup.
//!
//! A backlight is looked for in a fixed list of places, one after the
//! other, and the last place that has one wins; the light sensor has a
//! single place. The caller probes the file system and reports what it
//! found; the [`Resolver`] says what to probe next and, in the end, which
//! devices to use or why there is nothing to run on. Nothing is resolved
//! in part: a backlight without a sensor is a failure like any other.

use crate::numeric::{parse_num, spec_parse_num, ParseError};
use vstd::prelude::*;

verus! {

/// A place where a backlight may be found. The order of the variants is
/// the order of probing.
#[derive(Clone, Copy, Debug, PartialEq, Eq, Structural)]
pub enum Candidate {
    /// The backlight of an Intel integrated GPU.
    Intel,
    /// The backlight of an AMD GPU.
    Amd,
}

/// What probing one backlight candidate found.
#[derive(Clone, Copy, Debug)]
pub enum BacklightFinding<'a> {
    /// The candidate's directory is not there.
    Absent,
    /// The candidate's directory is there.
    Present {
        /// The content of the file with the highest level, or `None` if
        /// the file could not be opened or read.
        maximum: Option<&'a str>,
        /// Whether the file with the current level could be opened for
        /// reading and writing.
        level_opened: bool,
    },
}

/// What probing the light sensor found.
#[derive(Clone, Copy, Debug, PartialEq, Eq, Structural)]
pub enum SensorFinding {
    /// The sensor's directory is not there.
    Absent,
    /// The sensor's directory is there.
    Present {
        /// Whether the file with the raw reading could be opened.
        opened: bool,
    },
}

/// The devices to run on.
#[derive(Clone, Copy, Debug, PartialEq, Eq, Structural)]
pub struct Devices {
    /// The place of the backlight to drive.
    pub backlight: Candidate,
    /// The highest level of that backlight, as read at startup.
    pub max_level: u32,
}

/// Why there are no devices to run on.
#[derive(Clone, Copy, Debug, PartialEq, Eq, Structural)]
pub enum ResolveError {
    /// A backlight is there, but its highest level could not be read.
    MaximumUnreadable(Candidate),
    /// A backlight is there, but its highest level is no number.
    MaximumMalformed(Candidate, ParseError),
    /// A backlight is there, but its current level could not be opened.
    LevelUnavailable(Candidate),
    /// The sensor is there, but its reading could not be opened.
    SensorUnavailable,
    /// No candidate has a backlight.
    NoBacklight,
    /// There is no light sensor.
    NoSensor,
}

/// How far the resolution has come, and with it what its caller does next.
#[derive(Clone, Copy, Debug, PartialEq, Eq, Structural)]
pub enum Resolver {
    /// Probe the backlight candidate `next` and report with
    /// [`Resolver::backlight_found`].
    ProbingBacklight {
        /// The candidate to probe.
        next: Candidate,
        /// The backlight found so far, if any.
        chosen: Option<Devices>,
    },
    /// Probe the sensor and report with [`Resolver::sensor_found`].
    ProbingSensor {
        /// The backlight found, if any.
        chosen: Option<Devices>,
    },
    /// Both devices are there.
    Resolved(Devices),
    /// There is nothing to run on.
    Failed(ResolveError),
}

impl Candidate {
    /// The candidate probed after this one, if there is one.
    pub open spec fn spec_successor(self) -> Option<Candidate> {
        match self {
            Candidate::Intel => Some(Candidate::Amd),
            Candidate::Amd => None,
        }
    }

    /// The candidate probed after this one, if there is one.
    pub fn successor(self) -> (next: Option<Candidate>)
        ensures
            next == self.spec_successor(),
    {
        match self {
            Candidate::Intel => Some(Candidate::Amd),
            Candidate::Amd => None,
        }
    }

    /// The candidate's directory.
    pub fn directory(self) -> (path: &'static str)
        ensures
            path@ == match self {
                Candidate::Intel => "/sys/class/backlight/intel_backlight"@,
                Candidate::Amd => "/sys/class/backlight/amdgpu_bl0"@,
            },
    {
        match self {
            Candidate::Intel => "/sys/class/backlight/intel_backlight",
            Candidate::Amd => "/sys/class/backlight/amdgpu_bl0",
        }
    }
}

/// The directory of the light sensor.
pub fn sensor_directory() -> (path: &'static str)
    ensures
        path@ == "/sys/bus/iio/devices/iio:device0"@,
{
    "/sys/bus/iio/devices/iio:device0"
}

/// The file, in a backlight's directory, that holds its highest level.
pub fn maximum_file() -> (name: &'static str)
    ensures
        name@ == "max_brightness"@,
{
    "max_brightness"
}

/// The file, in a backlight's directory, that holds its current level.
pub fn level_file() -> (name: &'static str)
    ensures
        name@ == "brightness"@,
{
    "brightness"
}

/// The file, in the sensor's directory, that holds the raw reading.
pub fn reading_file() -> (name: &'static str)
    ensures
        name@ == "in_illuminance_raw"@,
{
    "in_illuminance_raw"
}

/// What a finding says of one candidate: no backlight there, a backlight
/// with its highest level, or the reason why the backlight that is there
/// cannot be used. The highest level is looked at before the level file.
pub open spec fn spec_assess_backlight(
    candidate: Candidate,
    finding: BacklightFinding,
) -> Result<Option<u32>, ResolveError> {
    match finding {
        BacklightFinding::Absent => Ok(None),
        BacklightFinding::Present { maximum: None, .. } => Err(
            ResolveError::MaximumUnreadable(candidate),
        ),
        BacklightFinding::Present { maximum: Some(text), level_opened } => match spec_parse_num(
            text@,
        ) {
            Err(e) => Err(ResolveError::MaximumMalformed(candidate, e)),
            Ok(max_level) => if level_opened {
                Ok(Some(max_level))
            } else {
                Err(ResolveError::LevelUnavailable(candidate))
            },
        },
    }
}

/// What a finding says of one candidate.
pub fn assess_backlight(candidate: Candidate, finding: BacklightFinding) -> (r: Result<
    Option<u32>,
    ResolveError,
>)
    ensures
        r == spec_assess_backlight(candidate, finding),
{
    match finding {
        BacklightFinding::Absent => Ok(None),
        BacklightFinding::Present { maximum: None, .. } => Err(
            ResolveError::MaximumUnreadable(candidate),
        ),
        BacklightFinding::Present { maximum: Some(text), level_opened } => match parse_num(text) {
            Err(e) => Err(ResolveError::MaximumMalformed(candidate, e)),
            Ok(max_level) => if level_opened {
                Ok(Some(max_level))
            } else {
                Err(ResolveError::LevelUnavailable(candidate))
            },
        },
    }
}

/// The end of a resolution, from the backlight chosen and what was found
/// of the sensor. A sensor that is there and cannot be opened is reported
/// first, then a missing backlight, then a missing sensor.
pub open spec fn spec_conclude(chosen: Option<Devices>, sensor: SensorFinding) -> Resolver {
    match sensor {
        SensorFinding::Present { opened: false } => Resolver::Failed(
            ResolveError::SensorUnavailable,
        ),
        SensorFinding::Present { opened: true } => match chosen {
            Some(devices) => Resolver::Resolved(devices),
            None => Resolver::Failed(ResolveError::NoBacklight),
        },
        SensorFinding::Absent => match chosen {
            Some(_) => Resolver::Failed(ResolveError::NoSensor),
            None => Resolver::Failed(ResolveError::NoBacklight),
        },
    }
}

/// The outcome of probing every place: the first backlight that is there
/// and unusable fails the resolution; otherwise the last backlight found
/// is chosen, and the sensor decides the rest.
pub open spec fn spec_resolve(
    intel: BacklightFinding,
    amd: BacklightFinding,
    sensor: SensorFinding,
) -> Resolver {
    match spec_assess_backlight(Candidate::Intel, intel) {
        Err(e) => Resolver::Failed(e),
        Ok(first) => match spec_assess_backlight(Candidate::Amd, amd) {
            Err(e) => Resolver::Failed(e),
            Ok(Some(max_level)) => spec_conclude(
                Some(Devices { backlight: Candidate::Amd, max_level }),
                sensor,
            ),
            Ok(None) => match first {
                Some(max_level) => spec_conclude(
                    Some(Devices { backlight: Candidate::Intel, max_level }),
                    sensor,
                ),
                None => spec_conclude(None, sensor),
            },
        },
    }
}

impl Resolver {
    /// The resolution before anything was probed.
    pub open spec fn spec_new() -> Resolver {
        Resolver::ProbingBacklight { next: Candidate::Intel, chosen: None }
    }

    /// The resolution after the finding for the candidate it asked for. A
    /// resolution that did not ask for a backlight stays as it is.
    pub open spec fn spec_backlight_found(self, finding: BacklightFinding) -> Resolver {
        match self {
            Resolver::ProbingBacklight { next, chosen } => match spec_assess_backlight(
                next,
                finding,
            ) {
                Err(e) => Resolver::Failed(e),
                Ok(found) => {
                    let chosen = match found {
                        Some(max_level) => Some(Devices { backlight: next, max_level }),
                        None => chosen,
                    };
                    match next.spec_successor() {
                        Some(next) => Resolver::ProbingBacklight { next, chosen },
                        None => Resolver::ProbingSensor { chosen },
                    }
                },
            },
            _ => self,
        }
    }

    /// The resolution after the finding for the sensor. A resolution that
    /// did not ask for the sensor stays as it is.
    pub open spec fn spec_sensor_found(self, finding: SensorFinding) -> Resolver {
        match self {
            Resolver::ProbingSensor { chosen } => spec_conclude(chosen, finding),
            _ => self,
        }
    }

    /// Whether the resolution has ended, well or not.
    pub open spec fn spec_is_over(self) -> bool {
        self is Resolved || self is Failed
    }

    /// Starts a resolution: the first candidate is to be probed.
    pub fn new() -> (r: Resolver)
        ensures
            r == Resolver::spec_new(),
    {
        Resolver::ProbingBacklight { next: Candidate::Intel, chosen: None }
    }

    /// Takes in what probing the candidate asked for found, and moves on:
    /// to the next candidate, to the sensor after the last one, or to a
    /// failure if the backlight found cannot be used. A backlight found
    /// replaces one found at an earlier candidate.
    pub fn backlight_found(self, finding: BacklightFinding) -> (r: Resolver)
        ensures
            r == self.spec_backlight_found(finding),
    {
        match self {
            Resolver::ProbingBacklight { next, chosen } => match assess_backlight(next, finding) {
                Err(e) => Resolver::Failed(e),
                Ok(found) => {
                    let chosen = match found {
                        Some(max_level) => Some(Devices { backlight: next, max_level }),
                        None => chosen,
                    };
                    match next.successor() {
                        Some(next) => Resolver::ProbingBacklight { next, chosen },
                        None => Resolver::ProbingSensor { chosen },
                    }
                },
            },
            _ => self,
        }
    }

    /// Takes in what probing the sensor found, and ends the resolution.
    pub fn sensor_found(self, finding: SensorFinding) -> (r: Resolver)
        ensures
            r == self.spec_sensor_found(finding),
            self is ProbingSensor ==> r.spec_is_over(),
    {
        match self {
            Resolver::ProbingSensor { chosen } => match finding {
                SensorFinding::Present { opened: false } => Resolver::Failed(
                    ResolveError::SensorUnavailable,
                ),
                SensorFinding::Present { opened: true } => match chosen {
                    Some(devices) => Resolver::Resolved(devices),
                    None => Resolver::Failed(ResolveError::NoBacklight),
                },
                SensorFinding::Absent => match chosen {
                    Some(_) => Resolver::Failed(ResolveError::NoSensor),
                    None => Resolver::Failed(ResolveError::NoBacklight),
                },
            },
            _ => self,
        }
    }

    /// Whether the resolution has ended, well or not.
    pub fn is_over(&self) -> (over: bool)
        ensures
            over == self.spec_is_over(),
    {
        match self {
            Resolver::Resolved(_) => true,
            Resolver::Failed(_) => true,
            _ => false,
        }
    }
}

/// A resolution that is fed the finding for each place it asks for, in
/// turn, ends after all of them or fails before, and ends as
/// [`spec_resolve`] says: findings after a failure change nothing.
pub proof fn lemma_resolution_outcome(
    intel: BacklightFinding,
    amd: BacklightFinding,
    sensor: SensorFinding,
)
    ensures
        Resolver::spec_new().spec_backlight_found(intel).spec_backlight_found(
            amd,
        ).spec_sensor_found(sensor) == spec_resolve(intel, amd, sensor),
        spec_resolve(intel, amd, sensor).spec_is_over(),
{
}

/// The last backlight found wins: where the second candidate has a usable
/// backlight, a resolution that succeeds chooses it, whatever the first
/// candidate has.
pub proof fn lemma_last_match_wins(
    intel: BacklightFinding,
    amd: BacklightFinding,
    sensor: SensorFinding,
)
    requires
        spec_resolve(intel, amd, sensor) is Resolved,
    ensures
        spec_resolve(intel, amd, sensor)->Resolved_0.backlight == (if amd is Present {
            Candidate::Amd
        } else {
            Candidate::Intel
        }),
        intel is Present || amd is Present,
        sensor == (SensorFinding::Present { opened: true }),
{
}

/// Without any backlight there is nothing to run on, whatever the sensor:
/// the resolution fails.
pub proof fn lemma_no_backlight_is_fatal(sensor: SensorFinding)
    ensures
        spec_resolve(BacklightFinding::Absent, BacklightFinding::Absent, sensor) is Failed,
{
}

} // verus!
