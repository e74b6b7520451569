use auto_backlight::numeric::ParseError;
use auto_backlight::resolver::{
    assess_backlight, level_file, maximum_file, reading_file, sensor_directory, BacklightFinding,
    Candidate, Devices, ResolveError, Resolver, SensorFinding,
};

fn usable(maximum: &str) -> BacklightFinding<'_> {
    BacklightFinding::Present { maximum: Some(maximum), level_opened: true }
}

fn sensor() -> SensorFinding {
    SensorFinding::Present { opened: true }
}

fn resolve(intel: BacklightFinding, amd: BacklightFinding, sensor: SensorFinding) -> Resolver {
    let mut resolver = Resolver::new();
    let mut probed = Vec::new();
    while !resolver.is_over() {
        resolver = match resolver {
            Resolver::ProbingBacklight { next: Candidate::Intel, .. } => {
                probed.push("intel");
                resolver.backlight_found(intel)
            }
            Resolver::ProbingBacklight { next: Candidate::Amd, .. } => {
                probed.push("amd");
                resolver.backlight_found(amd)
            }
            Resolver::ProbingSensor { .. } => {
                probed.push("sensor");
                resolver.sensor_found(sensor)
            }
            over => over,
        };
        assert!(probed.len() <= 3);
    }
    let order = ["intel", "amd", "sensor"];
    assert_eq!(probed[..], order[..probed.len()]);
    resolver
}

#[test]
fn places_to_probe() {
    assert_eq!(Candidate::Intel.directory(), "/sys/class/backlight/intel_backlight");
    assert_eq!(Candidate::Amd.directory(), "/sys/class/backlight/amdgpu_bl0");
    assert_eq!(sensor_directory(), "/sys/bus/iio/devices/iio:device0");
    assert_eq!(maximum_file(), "max_brightness");
    assert_eq!(level_file(), "brightness");
    assert_eq!(reading_file(), "in_illuminance_raw");
}

#[test]
fn candidates_are_probed_intel_first() {
    assert_eq!(Resolver::new(), Resolver::ProbingBacklight { next: Candidate::Intel, chosen: None });
    assert_eq!(Candidate::Intel.successor(), Some(Candidate::Amd));
    assert_eq!(Candidate::Amd.successor(), None);
    let after_intel = Resolver::new().backlight_found(BacklightFinding::Absent);
    assert_eq!(after_intel, Resolver::ProbingBacklight { next: Candidate::Amd, chosen: None });
    let after_amd = after_intel.backlight_found(BacklightFinding::Absent);
    assert_eq!(after_amd, Resolver::ProbingSensor { chosen: None });
    assert!(!after_amd.is_over());
}

#[test]
fn no_backlight_anywhere_is_fatal() {
    let absent = BacklightFinding::Absent;
    assert_eq!(resolve(absent, absent, sensor()), Resolver::Failed(ResolveError::NoBacklight));
    assert_eq!(
        resolve(absent, absent, SensorFinding::Absent),
        Resolver::Failed(ResolveError::NoBacklight)
    );
}

#[test]
fn a_single_backlight_is_chosen() {
    let absent = BacklightFinding::Absent;
    assert_eq!(
        resolve(usable("1000\n"), absent, sensor()),
        Resolver::Resolved(Devices { backlight: Candidate::Intel, max_level: 1000 })
    );
    assert_eq!(
        resolve(absent, usable("255\n"), sensor()),
        Resolver::Resolved(Devices { backlight: Candidate::Amd, max_level: 255 })
    );
}

#[test]
fn the_later_backlight_overrides_the_earlier() {
    assert_eq!(
        resolve(usable("1000\n"), usable("255\n"), sensor()),
        Resolver::Resolved(Devices { backlight: Candidate::Amd, max_level: 255 })
    );
    let after_intel = Resolver::new().backlight_found(usable("1000"));
    assert_eq!(
        after_intel,
        Resolver::ProbingBacklight {
            next: Candidate::Amd,
            chosen: Some(Devices { backlight: Candidate::Intel, max_level: 1000 }),
        }
    );
    assert_eq!(
        after_intel.backlight_found(usable("255")),
        Resolver::ProbingSensor {
            chosen: Some(Devices { backlight: Candidate::Amd, max_level: 255 }),
        }
    );
}

#[test]
fn a_missing_sensor_is_fatal() {
    assert_eq!(
        resolve(usable("1000"), BacklightFinding::Absent, SensorFinding::Absent),
        Resolver::Failed(ResolveError::NoSensor)
    );
}

#[test]
fn a_sensor_that_cannot_be_opened_is_fatal() {
    let shut = SensorFinding::Present { opened: false };
    assert_eq!(
        resolve(usable("1000"), BacklightFinding::Absent, shut),
        Resolver::Failed(ResolveError::SensorUnavailable)
    );
    assert_eq!(
        resolve(BacklightFinding::Absent, BacklightFinding::Absent, shut),
        Resolver::Failed(ResolveError::SensorUnavailable)
    );
}

#[test]
fn an_unreadable_maximum_is_fatal() {
    let unreadable = BacklightFinding::Present { maximum: None, level_opened: true };
    assert_eq!(
        resolve(unreadable, usable("255"), sensor()),
        Resolver::Failed(ResolveError::MaximumUnreadable(Candidate::Intel))
    );
    assert_eq!(
        resolve(usable("255"), unreadable, sensor()),
        Resolver::Failed(ResolveError::MaximumUnreadable(Candidate::Amd))
    );
}

#[test]
fn a_malformed_maximum_is_fatal() {
    assert_eq!(
        resolve(usable("bright"), usable("255"), sensor()),
        Resolver::Failed(ResolveError::MaximumMalformed(Candidate::Intel, ParseError::InvalidDigit))
    );
    assert_eq!(
        resolve(BacklightFinding::Absent, usable("4294967296"), sensor()),
        Resolver::Failed(ResolveError::MaximumMalformed(Candidate::Amd, ParseError::PosOverflow))
    );
}

#[test]
fn a_level_file_that_cannot_be_opened_is_fatal() {
    let shut = BacklightFinding::Present { maximum: Some("1000"), level_opened: false };
    assert_eq!(
        resolve(shut, usable("255"), sensor()),
        Resolver::Failed(ResolveError::LevelUnavailable(Candidate::Intel))
    );
    assert_eq!(
        resolve(usable("255"), shut, sensor()),
        Resolver::Failed(ResolveError::LevelUnavailable(Candidate::Amd))
    );
    let both = BacklightFinding::Present { maximum: Some("x"), level_opened: false };
    assert_eq!(
        resolve(both, usable("255"), sensor()),
        Resolver::Failed(ResolveError::MaximumMalformed(Candidate::Intel, ParseError::InvalidDigit))
    );
}

#[test]
fn a_blank_maximum_reads_as_one() {
    assert_eq!(
        resolve(usable(""), BacklightFinding::Absent, sensor()),
        Resolver::Resolved(Devices { backlight: Candidate::Intel, max_level: 1 })
    );
    assert_eq!(
        resolve(usable(" \n"), BacklightFinding::Absent, sensor()),
        Resolver::Resolved(Devices { backlight: Candidate::Intel, max_level: 1 })
    );
}

#[test]
fn a_resolution_that_is_over_takes_nothing_in() {
    let done = Resolver::Resolved(Devices { backlight: Candidate::Amd, max_level: 9 });
    assert!(done.is_over());
    assert_eq!(done.backlight_found(usable("5")), done);
    assert_eq!(done.sensor_found(SensorFinding::Absent), done);
    let failed = Resolver::Failed(ResolveError::NoSensor);
    assert!(failed.is_over());
    assert_eq!(failed.backlight_found(usable("5")), failed);
    assert_eq!(failed.sensor_found(sensor()), failed);
}

#[test]
fn findings_out_of_turn_change_nothing() {
    let start = Resolver::new();
    assert_eq!(start.sensor_found(sensor()), start);
    let at_sensor = Resolver::ProbingSensor { chosen: None };
    assert_eq!(at_sensor.backlight_found(usable("5")), at_sensor);
}

#[test]
fn assessing_one_candidate() {
    assert_eq!(assess_backlight(Candidate::Intel, BacklightFinding::Absent), Ok(None));
    assert_eq!(assess_backlight(Candidate::Amd, usable("17\n")), Ok(Some(17)));
    assert_eq!(
        assess_backlight(
            Candidate::Amd,
            BacklightFinding::Present { maximum: None, level_opened: false }
        ),
        Err(ResolveError::MaximumUnreadable(Candidate::Amd))
    );
    assert_eq!(
        assess_backlight(Candidate::Intel, usable("1 7 x")),
        Err(ResolveError::MaximumMalformed(Candidate::Intel, ParseError::InvalidDigit))
    );
}
