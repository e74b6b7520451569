//! The control loop, one tick at a time.
//!
//! Between two sleeps the caller reads the backlight's current level and
//! the sensor's raw reading and hands both texts, as a [`Sample`], to
//! [`Controller::tick`].
//! The controller answers with a [`Report`]: the level to aim for, and
//! whether it has to be written, which it has only when it differs from
//! the level aimed for before. A tick whose readings cannot be had is
//! abandoned without a trace; the next one starts afresh.

use crate::config::Conf;
use crate::mapping::{compute_br, lemma_compute_br_in_range, spec_compute_br};
use crate::numeric::{
    ascii_bytes, format_num, lemma_ascii_bytes_concat, lemma_ascii_bytes_utf8,
    lemma_format_num_digits, parse_num, spec_format_num, spec_parse_num,
};
use vstd::prelude::*;
use vstd::utf8::{encode_utf8, is_ascii_chars};

verus! {

/// The time to sleep before each tick, in milliseconds.
pub const TICK_MILLIS: u64 = 980;

/// The least width of a number in a status line.
pub const FIELD_WIDTH: usize = 4;

/// What one tick came to.
#[derive(Clone, Copy, Debug, PartialEq, Eq, Structural)]
pub struct Report {
    /// The backlight's level as read at this tick.
    pub current: u32,
    /// The sensor's raw reading.
    pub sensor: u32,
    /// The level to aim for.
    pub target: u32,
    /// Whether `target` is to be written to the backlight.
    pub write: bool,
}

/// The state of the control loop.
#[derive(Clone, Copy, Debug, PartialEq, Eq, Structural)]
pub struct Controller {
    /// The configuration of this run.
    pub conf: Conf,
    /// The backlight's highest level, as read at startup.
    pub max_level: u32,
    /// The level aimed for at the last tick that was not abandoned; zero
    /// before the first.
    pub previous: u32,
}

/// What one tick read: the content of the backlight's level file and of
/// the sensor's reading file, each `None` if it could not be read.
#[derive(Clone, Copy, Debug)]
pub struct Sample<'a> {
    /// The content of the backlight's level file.
    pub backlight: Option<&'a str>,
    /// The content of the sensor's reading file.
    pub sensor: Option<&'a str>,
}

impl<'a> Sample<'a> {
    /// The numbers that the two texts denote, the backlight's level first;
    /// `None` where a text is missing or denotes no number.
    pub open spec fn spec_numbers(self) -> Option<(u32, u32)> {
        match (self.backlight, self.sensor) {
            (Some(level), Some(reading)) => match (
                spec_parse_num(level@),
                spec_parse_num(reading@),
            ) {
                (Ok(current), Ok(raw)) => Some((current, raw)),
                _ => None,
            },
            _ => None,
        }
    }
}

/// A number as a status line shows it: its decimal digits, with spaces
/// before them where they are fewer than [`FIELD_WIDTH`].
pub open spec fn spec_field(n: nat) -> Seq<char> {
    let digits = spec_format_num(n);
    if digits.len() >= FIELD_WIDTH {
        digits
    } else {
        Seq::new((FIELD_WIDTH - digits.len()) as nat, |i: int| ' ') + digits
    }
}

/// The status line of a tick, with the newline that ends it.
pub open spec fn spec_status_line(report: Report) -> Seq<char> {
    "  br: "@ + spec_field(report.current as nat) + "  sen: "@ + spec_field(report.sensor as nat)
        + "  new: "@ + spec_field(report.target as nat) + seq!['\n']
}

impl Controller {
    /// The controller as the loop is entered: nothing was aimed for yet.
    pub open spec fn spec_new(conf: Conf, max_level: u32) -> Controller {
        Controller { conf, max_level, previous: 0 }
    }

    /// The level to aim for at a raw sensor reading.
    pub open spec fn spec_target(self, raw: u32) -> u32 {
        spec_compute_br(raw as int, self.max_level as int) as u32
    }

    /// The controller after a tick that read `current` from the backlight
    /// and `raw` from the sensor, and the tick's report.
    pub open spec fn spec_step(self, current: u32, raw: u32) -> (Controller, Report) {
        let target = self.spec_target(raw);
        (
            Controller { previous: target, ..self },
            Report { current, sensor: raw, target, write: target != self.previous },
        )
    }

    /// The controller after a tick, and the tick's report. An abandoned
    /// tick has no report and leaves the controller as it was.
    pub open spec fn spec_tick(self, sample: Sample) -> (Controller, Option<Report>) {
        match sample.spec_numbers() {
            Some((current, raw)) => (
                self.spec_step(current, raw).0,
                Some(self.spec_step(current, raw).1),
            ),
            None => (self, None),
        }
    }

    /// The controller after a run of ticks, one for each sample.
    pub open spec fn spec_after(self, samples: Seq<Sample>) -> Controller
        decreases samples.len(),
    {
        if samples.len() == 0 {
            self
        } else {
            self.spec_after(samples.drop_last()).spec_tick(samples.last()).0
        }
    }

    /// The levels that a run of ticks has written, in their order.
    pub open spec fn spec_writes(self, samples: Seq<Sample>) -> Seq<u32>
        decreases samples.len(),
    {
        if samples.len() == 0 {
            Seq::empty()
        } else {
            let before = self.spec_writes(samples.drop_last());
            let report = self.spec_after(samples.drop_last()).spec_tick(samples.last()).1;
            if report is Some && report->0.write {
                before.push(report->0.target)
            } else {
                before
            }
        }
    }

    /// The controller for a backlight whose highest level is `max_level`.
    pub fn new(conf: Conf, max_level: u32) -> (c: Controller)
        ensures
            c == Controller::spec_new(conf, max_level),
    {
        Controller { conf, max_level, previous: 0 }
    }

    /// Decides a tick whose readings are at hand: `current` from the
    /// backlight, `raw` from the sensor.
    ///
    /// The report holds the level for the reading, to be written if it is
    /// not the level of the tick before, and the controller remembers it.
    /// The configuration and the backlight's highest level stay as they
    /// are.
    pub fn step(&mut self, current: u32, raw: u32) -> (report: Report)
        ensures
            (*final(self), report) == old(self).spec_step(current, raw),
            final(self).max_level == old(self).max_level,
            final(self).conf == old(self).conf,
            final(self).previous == report.target,
            report.target <= old(self).max_level,
            report.write <==> report.target != old(self).previous,
    {
        let target = compute_br(raw, &self.conf, self.max_level);
        let write = target != self.previous;
        self.previous = target;
        Report { current, sensor: raw, target, write }
    }

    /// Decides one tick from what was read.
    ///
    /// Where either text is missing or denotes no number, the tick is
    /// abandoned: there is no report and nothing changes. Otherwise the
    /// tick is decided as [`Controller::step`] decides it for the two
    /// numbers.
    pub fn tick(&mut self, sample: Sample) -> (report: Option<Report>)
        ensures
            (*final(self), report) == old(self).spec_tick(sample),
            final(self).max_level == old(self).max_level,
            final(self).conf == old(self).conf,
            report is Some <==> sample.spec_numbers() is Some,
            report matches Some(r) ==> r.target <= old(self).max_level && final(self).previous
                == r.target,
            report is None ==> *final(self) == *old(self),
    {
        let current = match sample.backlight {
            Some(text) => match parse_num(text) {
                Ok(n) => n,
                Err(_) => {
                    return None;
                },
            },
            None => {
                return None;
            },
        };
        let raw = match sample.sensor {
            Some(text) => match parse_num(text) {
                Ok(n) => n,
                Err(_) => {
                    return None;
                },
            },
            None => {
                return None;
            },
        };
        Some(self.step(current, raw))
    }

    /// Decides a run of ticks from what each of them read, and returns the
    /// levels to write, in their order. The run ends with the samples.
    pub fn run(&mut self, samples: &[Sample]) -> (writes: Vec<u32>)
        ensures
            writes@ == old(self).spec_writes(samples@),
            *final(self) == old(self).spec_after(samples@),
    {
        let mut writes: Vec<u32> = Vec::new();
        let mut i: usize = 0;
        while i < samples.len()
            invariant
                i <= samples@.len(),
                *self == old(self).spec_after(samples@.take(i as int)),
                writes@ == old(self).spec_writes(samples@.take(i as int)),
            decreases samples@.len() - i,
        {
            proof {
                assert(samples@.take(i + 1).drop_last() =~= samples@.take(i as int));
            }
            if let Some(report) = self.tick(samples[i]) {
                if report.write {
                    writes.push(report.target);
                }
            }
            i = i + 1;
        }
        proof {
            assert(samples@.take(i as int) =~= samples@);
        }
        writes
    }
}

/// Of two ticks in a row that aim for the same level, the second writes
/// nothing; the first writes unless the level was aimed for before it.
pub proof fn lemma_write_suppression(start: Controller, first: (u32, u32), second: (u32, u32))
    requires
        start.spec_target(first.1) == start.spec_target(second.1),
    ensures
        ({
            let (then, report1) = start.spec_step(first.0, first.1);
            let (_, report2) = then.spec_step(second.0, second.1);
            &&& report2.target == report1.target
            &&& !report2.write
            &&& report1.write <==> report1.target != start.previous
        }),
{
}

/// Whatever was aimed for before, a level is written exactly when it
/// differs from the level of the tick before; so among the levels written
/// no two in a row are the same.
pub proof fn lemma_writes_differ(start: Controller, first: (u32, u32), second: (u32, u32))
    ensures
        ({
            let (then, report1) = start.spec_step(first.0, first.1);
            let (_, report2) = then.spec_step(second.0, second.1);
            report2.write <==> report2.target != report1.target
        }),
{
}

/// In a run of any length no level is written twice in a row, and the
/// first level written is not the one aimed for before the run. At the end
/// the controller remembers the last level written, and it has kept the
/// backlight's highest level and the configuration.
pub proof fn lemma_run_writes_changes_only(start: Controller, samples: Seq<Sample>)
    ensures
        ({
            let writes = start.spec_writes(samples);
            let end = start.spec_after(samples);
            &&& end.previous == if writes.len() == 0 {
                start.previous
            } else {
                writes.last()
            }
            &&& writes.len() > 0 ==> writes[0] != start.previous
            &&& forall|i: int| 0 < i < writes.len() ==> writes[i - 1] != #[trigger] writes[i]
            &&& writes.len() <= samples.len()
            &&& end.max_level == start.max_level
            &&& end.conf == start.conf
        }),
    decreases samples.len(),
{
    if samples.len() > 0 {
        lemma_run_writes_changes_only(start, samples.drop_last());
    }
}

/// An abandoned tick is as if it had not been: the tick after it reports
/// and writes what it would have without it.
pub proof fn lemma_abandoned_tick_is_void(start: Controller, abandoned: Sample, next: Sample)
    requires
        abandoned.spec_numbers() is None,
    ensures
        start.spec_tick(abandoned).1 is None,
        start.spec_tick(abandoned).0.spec_tick(next) == start.spec_tick(next),
{
}

/// The backlight's highest level and the configuration outlive every
/// tick, and no tick aims above that level.
pub proof fn lemma_tick_keeps_maximum(start: Controller, sample: Sample)
    ensures
        start.spec_tick(sample).0.max_level == start.max_level,
        start.spec_tick(sample).0.conf == start.conf,
        start.spec_tick(sample).1 matches Some(report) ==> report.target <= start.max_level,
{
    if let Some((_, raw)) = sample.spec_numbers() {
        lemma_compute_br_in_range(raw as int, start.max_level as int);
    }
}

/// A status line is plain ASCII.
pub proof fn lemma_status_line_ascii(report: Report)
    ensures
        is_ascii_chars(spec_status_line(report)),
{
    reveal_strlit("  br: ");
    reveal_strlit("  sen: ");
    reveal_strlit("  new: ");
    lemma_format_num_digits(report.current as nat);
    lemma_format_num_digits(report.sensor as nat);
    lemma_format_num_digits(report.target as nat);
}

/// Appends the bytes of an ASCII text to `out`.
fn push_text(out: &mut Vec<u8>, text: &str)
    requires
        is_ascii_chars(text@),
    ensures
        final(out)@ == old(out)@ + ascii_bytes(text@),
{
    for c in it: text.chars()
        invariant
            it.seq() == text@,
            is_ascii_chars(text@),
            out@ == old(out)@ + ascii_bytes(text@.take(it.index())),
    {
        proof {
            assert(ascii_bytes(text@.take(it.index()).push(c)) =~= ascii_bytes(
                text@.take(it.index()),
            ).push(c as u8));
        }
        out.push(c as u8);
    }
}

/// Appends `n` to `out` as a status line shows it.
fn push_field(out: &mut Vec<u8>, n: u32)
    ensures
        final(out)@ == old(out)@ + ascii_bytes(spec_field(n as nat)),
{
    let mut digits = format_num(n);
    let ghost shown = spec_format_num(n as nat);
    let mut width: usize = digits.len();
    while width < FIELD_WIDTH
        invariant
            digits@ == ascii_bytes(shown),
            digits@.len() <= width,
            width <= FIELD_WIDTH || width == digits@.len(),
            out@ == old(out)@ + ascii_bytes(Seq::new((width - digits@.len()) as nat, |i: int| ' ')),
        decreases FIELD_WIDTH - width,
    {
        out.push(0x20u8);
        width = width + 1;
        proof {
            assert(out@ =~= old(out)@ + ascii_bytes(
                Seq::new((width - digits@.len()) as nat, |i: int| ' '),
            ));
        }
    }
    proof {
        let blanks = Seq::new((width - digits@.len()) as nat, |i: int| ' ');
        lemma_ascii_bytes_concat(blanks, shown);
    }
    out.append(&mut digits);
}

/// The line that reports a tick: the level read, the sensor's reading and
/// the level aimed for, each at least [`FIELD_WIDTH`] wide and set to the
/// right, as ASCII bytes with the newline that ends the line.
pub fn status_line(report: &Report) -> (line: Vec<u8>)
    ensures
        line@ == ascii_bytes(spec_status_line(*report)),
        line@ == encode_utf8(spec_status_line(*report)),
{
    let mut line: Vec<u8> = Vec::new();
    proof {
        reveal_strlit("  br: ");
        reveal_strlit("  sen: ");
        reveal_strlit("  new: ");
    }
    push_text(&mut line, "  br: ");
    push_field(&mut line, report.current);
    push_text(&mut line, "  sen: ");
    push_field(&mut line, report.sensor);
    push_text(&mut line, "  new: ");
    push_field(&mut line, report.target);
    line.push(0x0au8);
    proof {
        let a = "  br: "@;
        let b = spec_field(report.current as nat);
        let c = "  sen: "@;
        let d = spec_field(report.sensor as nat);
        let e = "  new: "@;
        let f = spec_field(report.target as nat);
        let g = seq!['\n'];
        lemma_ascii_bytes_concat(a, b);
        lemma_ascii_bytes_concat(a + b, c);
        lemma_ascii_bytes_concat(a + b + c, d);
        lemma_ascii_bytes_concat(a + b + c + d, e);
        lemma_ascii_bytes_concat(a + b + c + d + e, f);
        lemma_ascii_bytes_concat(a + b + c + d + e + f, g);
        assert(line@ =~= ascii_bytes(a) + ascii_bytes(b) + ascii_bytes(c) + ascii_bytes(d)
            + ascii_bytes(e) + ascii_bytes(f) + ascii_bytes(g));
        lemma_status_line_ascii(*report);
        lemma_ascii_bytes_utf8(spec_status_line(*report));
    }
    line
}

} // verus!
