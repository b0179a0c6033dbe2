//! The dispatch loop, as far as it decides: what becomes of each line.
//!
//! A host reads bytes and sends batches; between the two it asks the
//! [`Dispatcher`] what to do next. The dispatcher owns the line framer and the
//! site's configuration. It takes the lines in the order of their arrival, one
//! per step. A line that cannot be read is discarded and the next step goes on
//! with the line after it. Only a line that is not text stops the dispatcher,
//! and so does the end of the stream once every whole line has been taken.
//! What the store answers to a batch is not the dispatcher's business: it
//! goes on with the next line whatever became of the last batch.

use crate::config::Calibration;
use crate::config::CalibrationView;
use crate::layout::Layout;
use crate::layout::LayoutView;
use crate::metric::record_views;
use crate::metric::MetricRecord;
use crate::metric::RecordView;
use crate::metric::Timestamp;
use crate::reading::parse_reading;
use crate::reading::reading_of;
use crate::sensor_board::assemble;
use crate::sensor_board::batch_of;
use crate::sensor_board::SpliceError;
use crate::sensor_board::SpliceFault;
use crate::serial_reader::lines_of;
use crate::serial_reader::LineCodec;
use vstd::prelude::*;
use vstd::utf8::valid_utf8;

verus! {

/// Why the dispatcher stopped.
#[derive(Clone, Copy, Debug, PartialEq, Eq)]
pub enum HaltReason {
    /// A line was not text. Where the next line begins can no longer be
    /// trusted.
    Framing,
    /// The stream ended and every whole line has been taken.
    EndOfStream,
}

/// What the host does next.
#[derive(Debug, PartialEq, Eq)]
pub enum Step {
    /// No whole line is there: read more bytes and hand them over.
    NeedInput,
    /// A line was discarded: report it and take the next step.
    Discard(SpliceError),
    /// A line gave these records: send them, then take the next step.
    Dispatch(Vec<MetricRecord>),
    /// Stop. Every later step says the same.
    Halt(HaltReason),
}

/// A [`Step`] as contracts speak of it.
pub enum StepView {
    NeedInput,
    Discard(SpliceFault),
    Dispatch(Seq<RecordView>),
    Halt(HaltReason),
}

impl View for Step {
    type V = StepView;

    open spec fn view(&self) -> StepView {
        match *self {
            Step::NeedInput => StepView::NeedInput,
            Step::Discard(e) => StepView::Discard(e@),
            Step::Dispatch(batch) => StepView::Dispatch(record_views(batch@)),
            Step::Halt(reason) => StepView::Halt(reason),
        }
    }
}

/// A [`Dispatcher`] as contracts speak of it.
pub struct DispatcherView {
    /// The bytes that have arrived and belong to no line that was taken.
    pub kept: Seq<u8>,
    /// The site tag of every record.
    pub site: Seq<char>,
    pub layout: LayoutView,
    pub calibration: CalibrationView,
    /// The stream has ended.
    pub ended: bool,
    /// A line was not text.
    pub failed: bool,
}

impl DispatcherView {
    /// The dispatcher has stopped: a line was not text, or the stream has
    /// ended and no whole line is left.
    pub open spec fn halted(&self) -> bool {
        self.failed || (self.ended && lines_of(self.kept).len() == 0)
    }
}

/// What a step does: the answer to the host, and the dispatcher afterwards.
/// `clock` is what the clock gave for this step.
pub open spec fn step_of(d: DispatcherView, clock: Option<Timestamp>) -> (
    StepView,
    DispatcherView,
) {
    if d.failed {
        (StepView::Halt(HaltReason::Framing), d)
    } else if lines_of(d.kept).len() == 0 {
        if d.ended {
            (StepView::Halt(HaltReason::EndOfStream), d)
        } else {
            (StepView::NeedInput, d)
        }
    } else {
        let line = lines_of(d.kept).first();
        let taken = DispatcherView { kept: d.kept.skip(line.len() as int + 1), ..d };
        if !valid_utf8(line) {
            (StepView::Halt(HaltReason::Framing), DispatcherView { failed: true, ..taken })
        } else {
            match reading_of(line, d.layout.arity) {
                Err(fault) => (StepView::Discard(SpliceFault::Line(fault)), taken),
                Ok(values) => match clock {
                    None => (StepView::Discard(SpliceFault::Clock), taken),
                    Some(time) => (
                        StepView::Dispatch(batch_of(values, d.calibration, d.layout, d.site, time)),
                        taken,
                    ),
                },
            }
        }
    }
}

/// Nothing but a line that is not text makes the dispatcher fail: a step
/// that discards a line, dispatches one or asks for input leaves the
/// dispatcher running, and no step changes the site, the layout, the
/// calibration or whether the stream has ended.
pub proof fn lemma_only_framing_stops(d: DispatcherView, clock: Option<Timestamp>)
    ensures
        step_of(d, clock).1.failed <==> d.failed || (lines_of(d.kept).len() > 0 && !valid_utf8(
            lines_of(d.kept).first(),
        )),
        !(step_of(d, clock).0 is Halt) ==> !step_of(d, clock).1.failed,
        step_of(d, clock).1.site == d.site,
        step_of(d, clock).1.layout == d.layout,
        step_of(d, clock).1.calibration == d.calibration,
        step_of(d, clock).1.ended == d.ended,
{
}

/// A dispatcher that has stopped stays stopped. A step of a dispatcher that
/// has stopped says to halt and changes nothing; a step that says to halt
/// leaves the dispatcher stopped; and the step after a halt is the same halt.
pub proof fn lemma_halt_is_final(d: DispatcherView, first: Option<Timestamp>, second: Option<
    Timestamp,
>)
    ensures
        d.halted() ==> step_of(d, first).0 is Halt && step_of(d, first).1 == d,
        step_of(d, first).0 is Halt ==> step_of(d, first).1.halted(),
        step_of(d, first).0 is Halt ==> step_of(step_of(d, first).1, second) == (
            step_of(d, first).0,
            step_of(d, first).1,
        ),
{
    if !d.failed && lines_of(d.kept).len() > 0 && !valid_utf8(lines_of(d.kept).first()) {
        assert(step_of(d, first).1.failed);
    }
}

/// The dispatcher.
#[derive(Debug)]
pub struct Dispatcher {
    codec: LineCodec,
    site: String,
    layout: Layout,
    calibration: Calibration,
    ended: bool,
    failed: bool,
}

impl View for Dispatcher {
    type V = DispatcherView;

    closed spec fn view(&self) -> DispatcherView {
        DispatcherView {
            kept: self.codec@,
            site: self.site@,
            layout: self.layout@,
            calibration: self.calibration@,
            ended: self.ended,
            failed: self.failed,
        }
    }
}

impl Dispatcher {
    /// A dispatcher for one site, with nothing received yet.
    pub fn new(site: String, layout: Layout, calibration: Calibration) -> (d: Dispatcher)
        ensures
            d@ == (DispatcherView {
                kept: Seq::<u8>::empty(),
                site: site@,
                layout: layout@,
                calibration: calibration@,
                ended: false,
                failed: false,
            }),
    {
        Dispatcher {
            codec: LineCodec::new(),
            site,
            layout,
            calibration,
            ended: false,
            failed: false,
        }
    }

    /// Takes the bytes that the host has read.
    pub fn receive(&mut self, chunk: &[u8])
        ensures
            final(self)@ == (DispatcherView { kept: old(self)@.kept + chunk@, ..old(self)@ }),
    {
        self.codec.push(chunk);
    }

    /// Notes that the stream has ended. The whole lines that are kept are
    /// still taken; what follows the last line feed never becomes a line.
    pub fn end_of_stream(&mut self)
        ensures
            final(self)@ == (DispatcherView { ended: true, ..old(self)@ }),
    {
        self.ended = true;
    }

    /// Tells whether the dispatcher has stopped for good.
    pub fn is_halted(&self) -> (b: bool)
        ensures
            b == self@.halted(),
    {
        self.failed || (self.ended && !self.codec.has_line())
    }

    /// Takes one step, with `clock` as what the clock gave.
    pub fn step_with(&mut self, clock: Option<Timestamp>) -> (step: Step)
        ensures
            (step@, final(self)@) == step_of(old(self)@, clock),
    {
        if self.failed {
            return Step::Halt(HaltReason::Framing);
        }
        let ghost line = lines_of(self.codec@).first();
        match self.codec.decode() {
            Err(_) => {
                self.failed = true;
                Step::Halt(HaltReason::Framing)
            },
            Ok(None) => {
                if self.ended {
                    Step::Halt(HaltReason::EndOfStream)
                } else {
                    Step::NeedInput
                }
            },
            Ok(Some(text)) => {
                proof {
                    vstd::utf8::decode_utf8_encode_utf8(line);
                }
                match parse_reading(text.as_str().as_bytes(), self.layout.arity()) {
                    Err(e) => Step::Discard(SpliceError::Line(e)),
                    Ok(values) => match clock {
                        None => Step::Discard(SpliceError::Clock),
                        Some(time) => match assemble(
                            &values,
                            &self.calibration,
                            &self.layout,
                            self.site.as_str(),
                            time,
                        ) {
                            Ok(batch) => Step::Dispatch(batch),
                            Err(e) => Step::Discard(SpliceError::Line(e)),
                        },
                    },
                }
            },
        }
    }

    /// Takes one step, asking the clock for the present instant.
    pub fn next_step(&mut self) -> (step: Step)
        ensures
            exists|clock: Option<Timestamp>|
                (step@, final(self)@) == #[trigger] step_of(old(self)@, clock),
    {
        let clock = Timestamp::now();
        let step = self.step_with(clock);
        assert((step@, self@) == step_of(old(self)@, clock));
        step
    }
}

/// Puts the records of the host's health behind the records of a line.
pub fn with_host_health(batch: Vec<MetricRecord>, host: Vec<MetricRecord>) -> (all: Vec<
    MetricRecord,
>)
    ensures
        record_views(all@) == record_views(batch@) + record_views(host@),
{
    let mut all = batch;
    let mut host = host;
    let ghost tail = host@;
    all.append(&mut host);
    assert(record_views(all@) =~= record_views(batch@) + record_views(tail));
    all
}

} // verus!
