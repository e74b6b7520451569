use auto_backlight::config::Conf;
use auto_backlight::control::{
    status_line, Controller, Report, Sample, FIELD_WIDTH, TICK_MILLIS,
};

fn controller(max_level: u32) -> Controller {
    Controller::new(Conf::default(), max_level)
}

fn read<'a>(backlight: &'a str, sensor: &'a str) -> Sample<'a> {
    Sample { backlight: Some(backlight), sensor: Some(sensor) }
}

fn line(current: u32, sensor: u32, target: u32) -> String {
    let report = Report { current, sensor, target, write: false };
    String::from_utf8(status_line(&report)).unwrap()
}

#[test]
fn interval_and_width() {
    assert_eq!(TICK_MILLIS, 980);
    assert_eq!(FIELD_WIDTH, 4);
}

#[test]
fn a_new_controller_has_aimed_for_nothing() {
    let conf = Conf { max_lum: 55 };
    assert_eq!(Controller::new(conf, 1000), Controller { conf, max_level: 1000, previous: 0 });
}

#[test]
fn a_tick_reports_what_was_read_and_the_target() {
    let mut c = controller(1000);
    let report = c.tick(read("300\n", "512\n"));
    assert_eq!(report, Some(Report { current: 300, sensor: 512, target: 900, write: true }));
    assert_eq!(c.previous, 900);
    assert_eq!(c.max_level, 1000);
    assert_eq!(c.conf, Conf::default());
}

#[test]
fn the_same_target_twice_is_written_once() {
    let mut c = controller(1000);
    let first = c.tick(read("0", "512")).unwrap();
    let second = c.tick(read("900", "700")).unwrap();
    assert_eq!(first.target, 900);
    assert_eq!(second.target, 900);
    assert!(first.write);
    assert!(!second.write);
    let writes = [first, second].iter().filter(|r| r.write).count();
    assert_eq!(writes, 1);
}

#[test]
fn a_target_equal_to_the_start_is_not_written() {
    let mut c = controller(1000);
    let first = c.tick(read("40", "1")).unwrap();
    let second = c.tick(read("40", "1")).unwrap();
    assert_eq!(first, Report { current: 40, sensor: 1, target: 0, write: false });
    assert_eq!(second, Report { current: 40, sensor: 1, target: 0, write: false });
}

#[test]
fn bright_then_dark_writes_900_then_100() {
    let mut c = controller(1000);
    let mut writes = Vec::new();
    for (level, reading) in [("500", "512"), ("900", "2")] {
        let report = c.tick(read(level, reading)).unwrap();
        if report.write {
            writes.push(report.target);
        }
    }
    assert_eq!(writes, vec![900, 100]);
    assert_eq!(c.previous, 100);
}

#[test]
fn a_changing_reading_is_written_on_every_change() {
    let mut c = controller(1000);
    let mut writes = Vec::new();
    for reading in ["1", "2", "3", "4", "4", "1024", "5000", "4", "0"] {
        let report = c.tick(read("0", reading)).unwrap();
        if report.write {
            writes.push(report.target);
        }
    }
    assert_eq!(writes, vec![100, 200, 1000, 200, 0]);
}

#[test]
fn a_failed_read_abandons_the_tick() {
    let mut c = controller(1000);
    c.tick(read("1", "512")).unwrap();
    let before = c;
    assert_eq!(c.tick(Sample { backlight: None, sensor: Some("2") }), None);
    assert_eq!(c, before);
    assert_eq!(c.tick(Sample { backlight: Some("900"), sensor: None }), None);
    assert_eq!(c, before);
    assert_eq!(c.tick(Sample { backlight: None, sensor: None }), None);
    assert_eq!(c, before);
}

#[test]
fn a_malformed_reading_abandons_the_tick() {
    let mut c = controller(1000);
    c.tick(read("1", "512")).unwrap();
    let before = c;
    assert_eq!(c.tick(read("dim", "2")), None);
    assert_eq!(c.tick(read("900", "2 lux")), None);
    assert_eq!(c.tick(read("900", "4294967296")), None);
    assert_eq!(c, before);
}

#[test]
fn an_abandoned_tick_does_not_disturb_suppression() {
    let mut c = controller(1000);
    assert!(c.tick(read("0", "512")).unwrap().write);
    assert_eq!(c.tick(Sample { backlight: None, sensor: None }), None);
    assert!(!c.tick(read("900", "513")).unwrap().write);
}

#[test]
fn blank_files_read_as_one() {
    let mut c = controller(1000);
    let report = c.tick(read("", "\n"));
    assert_eq!(report, Some(Report { current: 1, sensor: 1, target: 0, write: false }));
}

#[test]
fn a_reading_of_zero_aims_for_zero() {
    let mut c = controller(1000);
    c.tick(read("0", "512")).unwrap();
    let report = c.tick(read("900", "0")).unwrap();
    assert_eq!(report, Report { current: 900, sensor: 0, target: 0, write: true });
}

#[test]
fn the_target_never_exceeds_the_maximum() {
    for max_level in [0u32, 1, 7, 1000, u32::MAX] {
        let mut c = controller(max_level);
        for reading in ["0", "1", "2", "1023", "1024", "4294967295"] {
            let report = c.tick(read("0", reading)).unwrap();
            assert!(report.target <= max_level);
            assert_eq!(c.max_level, max_level);
        }
    }
}

#[test]
fn status_line_sets_numbers_to_the_right() {
    assert_eq!(line(1, 22, 333), "  br:    1  sen:   22  new:  333\n");
    assert_eq!(line(0, 0, 0), "  br:    0  sen:    0  new:    0\n");
    assert_eq!(line(900, 512, 900), "  br:  900  sen:  512  new:  900\n");
    assert_eq!(line(9999, 1000, 4444), "  br: 9999  sen: 1000  new: 4444\n");
}

#[test]
fn status_line_gives_wide_numbers_their_room() {
    assert_eq!(line(96000, 12345, 86400), "  br: 96000  sen: 12345  new: 86400\n");
    assert_eq!(
        line(u32::MAX, u32::MAX, u32::MAX),
        "  br: 4294967295  sen: 4294967295  new: 4294967295\n"
    );
}

#[test]
fn status_line_is_what_formatting_gives() {
    for (a, b, c) in [(0u32, 1u32, 2u32), (10, 100, 1000), (9999, 10000, 99999), (7, 70, 700)] {
        assert_eq!(line(a, b, c), format!("  br: {:4}  sen: {:4}  new: {:4}\n", a, b, c));
    }
}

#[test]
fn status_line_does_not_depend_on_the_write_flag() {
    let quiet = Report { current: 5, sensor: 6, target: 7, write: false };
    let loud = Report { current: 5, sensor: 6, target: 7, write: true };
    assert_eq!(status_line(&quiet), status_line(&loud));
}

#[test]
fn a_step_decides_from_the_two_numbers() {
    let mut c = controller(1000);
    assert_eq!(c.step(300, 512), Report { current: 300, sensor: 512, target: 900, write: true });
    assert_eq!(c.step(900, 600), Report { current: 900, sensor: 600, target: 900, write: false });
    assert_eq!(c.step(900, 2), Report { current: 900, sensor: 2, target: 100, write: true });
    assert_eq!(c, Controller { conf: Conf::default(), max_level: 1000, previous: 100 });
}

#[test]
fn a_level_is_written_exactly_when_it_differs_from_the_last() {
    let readings = [1u32, 1, 2, 3, 4, 7, 8, 8, 1024, 2047, 4096, 512, 513, 0, 1, 2];
    for max_level in [0u32, 1, 10, 1000, u32::MAX] {
        let mut c = controller(max_level);
        let mut last = 0;
        for raw in readings {
            let report = c.step(0, raw);
            assert_eq!(report.write, report.target != last);
            last = report.target;
        }
    }
}

#[test]
fn a_run_returns_the_writes_in_order() {
    let mut c = controller(1000);
    let writes = c.run(&[read("500", "512"), read("900", "2")]);
    assert_eq!(writes, vec![900, 100]);
    assert_eq!(c.previous, 100);
}

#[test]
fn a_run_of_equal_targets_writes_once() {
    let mut c = controller(1000);
    let writes = c.run(&[read("0", "512"), read("900", "513")]);
    assert_eq!(writes, vec![900]);
    let more = c.run(&[read("900", "600"), read("900", "1000")]);
    assert_eq!(more, Vec::<u32>::new());
}

#[test]
fn a_run_skips_what_it_cannot_read() {
    let lost = Sample { backlight: None, sensor: None };
    let mut c = controller(1000);
    let writes = c.run(&[
        lost,
        read("0", "4"),
        read("200", "four"),
        Sample { backlight: None, sensor: Some("1024") },
        read("200", "5"),
        read("200", "1024"),
        lost,
        read("1000", "1"),
    ]);
    assert_eq!(writes, vec![200, 1000, 0]);
    assert_eq!(c, Controller { conf: Conf::default(), max_level: 1000, previous: 0 });
}

#[test]
fn an_empty_run_changes_nothing() {
    let mut c = controller(1000);
    c.step(0, 512);
    let before = c;
    assert_eq!(c.run(&[]), Vec::<u32>::new());
    assert_eq!(c, before);
}

#[test]
fn a_run_never_writes_a_level_twice_in_a_row() {
    let texts = ["1", "2", "2", "3", "x", "4", "4", "", "1024", "2047", "9", "9", "0", "1", "7"];
    for max_level in [1u32, 10, 1000, u32::MAX] {
        let samples: Vec<Sample> = texts.iter().map(|t| read("0", t)).collect();
        let mut c = controller(max_level);
        let writes = c.run(&samples);
        assert!(writes.len() <= samples.len());
        assert_ne!(writes[0], 0);
        for pair in writes.windows(2) {
            assert_ne!(pair[0], pair[1]);
        }
        assert_eq!(c.previous, *writes.last().unwrap());
        assert_eq!(c.max_level, max_level);
    }
}
