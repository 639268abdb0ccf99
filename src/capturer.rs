//! The decisions of the capture worker: range smoothing, per-frame processing
//! and command handling. The thread, the channels and the camera stay with
//! the caller, which performs each returned action and reports each event.
use vstd::prelude::*;

use crate::gradient::{color_at, ThermalGradient};
use crate::temperature::{Temp, TempRange, TemperatureUnit};
use crate::thermal_data::{histogram_spec, ColorImage, ThermalData, ThermalDataHistogram};

verus! {

/// How many slices of its range a frame's histogram has.
pub const HISTOGRAM_BUCKETS: usize = 100;

/// A smoothed end that lies inside the captured range moves this fraction of
/// the way towards it per frame.
pub const RANGE_DECAY: i64 = 8;

/// Smooths the captured extremes of successive frames into a display range
/// that widens at once and narrows slowly.
#[derive(Debug, Clone, Copy, PartialEq, Eq, Structural)]
pub struct AutoDisplayRangeController {
    pub current: Option<TempRange>,
}

/// The display range that follows `prev` once a frame with extremes
/// `captured` is seen.
pub open spec fn smooth_spec(prev: Option<TempRange>, captured: TempRange) -> TempRange {
    match prev {
        None => captured,
        Some(p) => {
            let pl = p.low.microkelvin as int;
            let ph = p.high.microkelvin as int;
            let cl = captured.low.microkelvin as int;
            let ch = captured.high.microkelvin as int;
            TempRange {
                low: if cl < pl { captured.low } else { Temp { microkelvin: (pl + (cl - pl) / (RANGE_DECAY as int)) as i64 } },
                high: if ch > ph { captured.high } else { Temp { microkelvin: (ph - (ph - ch) / (RANGE_DECAY as int)) as i64 } },
            }
        },
    }
}

impl AutoDisplayRangeController {
    pub open spec fn wf(&self) -> bool {
        self.current matches Some(r) ==> r.wf()
    }

    /// A controller that has seen no frame.
    pub fn new() -> (r: AutoDisplayRangeController)
        ensures
            r.current is None,
    {
        AutoDisplayRangeController { current: None }
    }

    /// Takes the extremes of one frame and returns the display range.
    pub fn compute(&mut self, captured: TempRange) -> (r: TempRange)
        requires
            old(self).wf(),
            captured.wf(),
        ensures
            r == smooth_spec(old(self).current, captured),
            final(self).current == Some(r),
            r.wf(),
            r.low.microkelvin <= captured.low.microkelvin,
            captured.high.microkelvin <= r.high.microkelvin,
    {
        let r = match self.current {
            None => captured,
            Some(p) => {
                let pl = p.low.microkelvin;
                let ph = p.high.microkelvin;
                let cl = captured.low.microkelvin;
                let ch = captured.high.microkelvin;
                let low = if cl < pl {
                    captured.low
                } else {
                    Temp { microkelvin: pl + (cl - pl) / RANGE_DECAY }
                };
                let high = if ch > ph {
                    captured.high
                } else {
                    Temp { microkelvin: ph - (ph - ch) / RANGE_DECAY }
                };
                TempRange { low, high }
            },
        };
        self.current = Some(r);
        r
    }
}

/// What the worker is configured with; replaced whole, never merged.
#[derive(Debug, Clone)]
pub struct ThermalCapturerSettings {
    pub auto_range: bool,
    pub manual_range: TempRange,
    pub gradient: ThermalGradient,
}

impl ThermalCapturerSettings {
    pub open spec fn wf(&self) -> bool {
        self.manual_range.wf() && self.gradient.wf()
    }

    /// Automatic range, a manual range of 0 to 100 degrees Celsius, and the
    /// default gradient.
    pub fn default_settings() -> (r: ThermalCapturerSettings)
        ensures
            r.wf(),
            r.auto_range,
            r.manual_range.low.microkelvin == 273_150_000,
            r.manual_range.high.microkelvin == 373_150_000,
            r.gradient.stops@ == ThermalGradient::default_stops(),
    {
        let low = Temp::from_unit(TemperatureUnit::Celsius, 0);
        let high = Temp::from_unit(TemperatureUnit::Celsius, 100_000_000);
        ThermalCapturerSettings {
            auto_range: true,
            manual_range: TempRange::new(low, high),
            gradient: ThermalGradient::default_gradient(),
        }
    }
}

/// A message from the owner to the worker.
#[derive(Debug, Clone)]
pub enum ThermalCapturerCmd {
    SetSettings(ThermalCapturerSettings),
    Stop,
}

/// What one frame produced.
#[derive(Debug, Clone)]
pub struct ThermalCapturerResult {
    pub image: ColorImage,
    pub image_range: TempRange,
    /// Frames per second measured over the loop, in thousandths.
    pub real_fps_milli: u64,
    /// Frames per second that the camera reports.
    pub reported_fps: u32,
    pub histogram: ThermalDataHistogram,
}

impl ThermalCapturerResult {
    /// Sets the measured rate from the time the whole loop iteration took,
    /// once the frame has been processed; the rest is left as it was.
    pub fn set_frame_time(&mut self, elapsed_micros: u64)
        ensures
            final(self).real_fps_milli == fps_milli_spec(elapsed_micros),
            final(self).image == old(self).image,
            final(self).image_range == old(self).image_range,
            final(self).reported_fps == old(self).reported_fps,
            final(self).histogram == old(self).histogram,
    {
        self.real_fps_milli = if elapsed_micros == 0 {
            0
        } else {
            1_000_000_000u64 / elapsed_micros
        };
    }
}

/// Where the worker is in its life.
#[derive(Debug, Clone, Copy, PartialEq, Eq, Structural)]
pub enum CapturePhase {
    Running,
    Stopped,
    Failed,
}

/// What the caller is to do after a command was handled or a capture failed.
#[derive(Debug, Clone, Copy, PartialEq, Eq, Structural)]
pub enum CaptureAction {
    /// Capture the next frame.
    Continue,
    /// Close the camera stream and leave the loop.
    CloseStream,
    /// Leave the loop: the worker has already ended.
    Abort,
    /// Send a terminal failure event on the result channel, then leave the
    /// loop: the camera failed to deliver a frame.
    ReportFailure,
}

/// The state that the worker keeps from frame to frame.
#[derive(Debug, Clone)]
pub struct CaptureWorker {
    pub settings: ThermalCapturerSettings,
    pub controller: AutoDisplayRangeController,
    pub phase: CapturePhase,
}

/// The smallest temperature of a nonempty sequence.
pub open spec fn min_temp(s: Seq<Temp>) -> int
    decreases s.len(),
{
    if s.len() <= 1 {
        s[0].microkelvin as int
    } else {
        let m = min_temp(s.drop_last());
        if s.last().microkelvin < m { s.last().microkelvin as int } else { m }
    }
}

/// The largest temperature of a nonempty sequence.
pub open spec fn max_temp(s: Seq<Temp>) -> int
    decreases s.len(),
{
    if s.len() <= 1 {
        s[0].microkelvin as int
    } else {
        let m = max_temp(s.drop_last());
        if s.last().microkelvin > m { s.last().microkelvin as int } else { m }
    }
}

proof fn lemma_extremes(s: Seq<Temp>)
    requires
        s.len() > 0,
    ensures
        exists|i: int| 0 <= i < s.len() && s[i].microkelvin == min_temp(s),
        exists|i: int| 0 <= i < s.len() && s[i].microkelvin == max_temp(s),
        forall|i: int| 0 <= i < s.len() ==> min_temp(s) <= #[trigger] s[i].microkelvin <= max_temp(s),
    decreases s.len(),
{
    if s.len() == 1 {
        assert(s[0].microkelvin == min_temp(s));
        assert(s[0].microkelvin == max_temp(s));
    } else {
        let init = s.drop_last();
        lemma_extremes(init);
        let imin = choose|i: int| 0 <= i < init.len() && init[i].microkelvin == min_temp(init);
        let imax = choose|i: int| 0 <= i < init.len() && init[i].microkelvin == max_temp(init);
        assert(s[imin] == init[imin]);
        assert(s[imax] == init[imax]);
        let last = s.len() - 1;
        if s[last].microkelvin < min_temp(init) {
            assert(s[last].microkelvin == min_temp(s));
        } else {
            assert(s[imin].microkelvin == min_temp(s));
        }
        if s[last].microkelvin > max_temp(init) {
            assert(s[last].microkelvin == max_temp(s));
        } else {
            assert(s[imax].microkelvin == max_temp(s));
        }
        assert forall|i: int| 0 <= i < s.len() implies min_temp(s) <= #[trigger] s[i].microkelvin <= max_temp(s) by {
            if i < s.len() - 1 {
                assert(s[i] == init[i]);
            }
        }
    }
}

/// The extremes of a frame.
pub open spec fn captured_range_spec(temps: Seq<Temp>) -> TempRange {
    TempRange {
        low: Temp { microkelvin: min_temp(temps) as i64 },
        high: Temp { microkelvin: max_temp(temps) as i64 },
    }
}

/// The range a frame's colors are mapped over: the smoothed range in
/// automatic mode, the manual range otherwise.
pub open spec fn mapping_range_spec(settings: ThermalCapturerSettings, smoothed: TempRange) -> TempRange {
    if settings.auto_range {
        smoothed
    } else {
        settings.manual_range
    }
}

/// The range that `w` displays a frame with extremes `captured` over.
pub open spec fn display_range_spec(w: CaptureWorker, captured: TempRange) -> TempRange {
    mapping_range_spec(w.settings, smooth_spec(w.controller.current, captured))
}

/// Thousandths of a frame per second for a loop of `elapsed_micros`; 0 for
/// no measurable time.
pub open spec fn fps_milli_spec(elapsed_micros: u64) -> int {
    if elapsed_micros == 0 {
        0
    } else {
        1_000_000_000int / (elapsed_micros as int)
    }
}

/// Whether `w` produces a result for the next frame.
pub open spec fn emits_spec(w: CaptureWorker) -> bool {
    w.phase == CapturePhase::Running
}

/// The worker after a poll of the command queue that gave `cmd`.
pub open spec fn after_command_spec(w: CaptureWorker, cmd: Option<ThermalCapturerCmd>) -> CaptureWorker {
    if w.phase != CapturePhase::Running {
        w
    } else {
        match cmd {
            None => w,
            Some(ThermalCapturerCmd::Stop) => CaptureWorker { phase: CapturePhase::Stopped, ..w },
            Some(ThermalCapturerCmd::SetSettings(s)) => CaptureWorker { settings: s, ..w },
        }
    }
}

/// The action that follows a poll of the command queue that gave `cmd`.
pub open spec fn command_action_spec(w: CaptureWorker, cmd: Option<ThermalCapturerCmd>) -> CaptureAction {
    if w.phase != CapturePhase::Running {
        CaptureAction::Abort
    } else {
        match cmd {
            Some(ThermalCapturerCmd::Stop) => CaptureAction::CloseStream,
            _ => CaptureAction::Continue,
        }
    }
}

impl CaptureWorker {
    pub open spec fn wf(&self) -> bool {
        self.settings.wf() && self.controller.wf()
    }

    /// A running worker with `settings` and a controller that has seen no
    /// frame.
    pub fn new(settings: ThermalCapturerSettings) -> (r: CaptureWorker)
        requires
            settings.wf(),
        ensures
            r.wf(),
            r.settings == settings,
            r.controller.current is None,
            r.phase == CapturePhase::Running,
    {
        CaptureWorker { settings, controller: AutoDisplayRangeController::new(), phase: CapturePhase::Running }
    }

    /// Processes one captured frame: finds its extremes, advances the range
    /// controller, picks the mapping range, colors every pixel and builds the
    /// histogram over the union of the captured and the mapping range. A
    /// worker that is no longer running produces nothing and is unchanged.
    pub fn on_frame(&mut self, data: &ThermalData, elapsed_micros: u64, reported_fps: u32) -> (r: Option<ThermalCapturerResult>)
        requires
            old(self).wf(),
            data.wf(),
        ensures
            final(self).wf(),
            r is Some <==> emits_spec(*old(self)),
            !emits_spec(*old(self)) ==> *final(self) == *old(self),
            emits_spec(*old(self)) ==> ({
                let captured = captured_range_spec(data.temperatures@);
                let shown = display_range_spec(*old(self), captured);
                let res = r->Some_0;
                &&& final(self).controller.current == Some(smooth_spec(old(self).controller.current, captured))
                &&& final(self).settings == old(self).settings
                &&& final(self).phase == old(self).phase
                &&& res.image_range == shown
                &&& res.image.width == data.width
                &&& res.image.height == data.height
                &&& res.image.pixels@.len() == data.temperatures@.len()
                &&& forall|i: int| 0 <= i < res.image.pixels@.len() ==> #[trigger] res.image.pixels@[i]
                    == color_at(old(self).settings.gradient.stops@, shown.factor_spec(data.temperatures@[i].microkelvin as int))
                &&& res.histogram.range == captured.join_spec(shown)
                &&& res.histogram.buckets@.len() == HISTOGRAM_BUCKETS
                &&& forall|b: int| 0 <= b < HISTOGRAM_BUCKETS ==> #[trigger] res.histogram.buckets@[b] as int
                    == histogram_spec(data.temperatures@, captured.join_spec(shown), HISTOGRAM_BUCKETS as int)[b]
                &&& res.real_fps_milli == fps_milli_spec(elapsed_micros)
                &&& res.reported_fps == reported_fps
            }),
    {
        if self.phase != CapturePhase::Running {
            return None;
        }
        let (min_pos, max_pos) = data.get_min_max_pos();
        let min_t = data.temperature_at(min_pos.x, min_pos.y);
        let max_t = data.temperature_at(max_pos.x, max_pos.y);
        proof {
            let s = data.temperatures@;
            lemma_extremes(s);
            let imin = choose|i: int| 0 <= i < s.len() && s[i].microkelvin == min_temp(s);
            let imax = choose|i: int| 0 <= i < s.len() && s[i].microkelvin == max_temp(s);
            assert(min_t.microkelvin <= s[imin].microkelvin);
            assert(s[imax].microkelvin <= max_t.microkelvin);
            assert(min_t == s[data.index_of(min_pos)]);
            assert(max_t == s[data.index_of(max_pos)]);
            assert(0 <= data.index_of(min_pos) < s.len()) by (nonlinear_arith)
                requires
                    min_pos.x < data.width,
                    min_pos.y < data.height,
                    s.len() == data.width * data.height,
                    data.index_of(min_pos) == min_pos.y * data.width + min_pos.x,
            ;
            assert(0 <= data.index_of(max_pos) < s.len()) by (nonlinear_arith)
                requires
                    max_pos.x < data.width,
                    max_pos.y < data.height,
                    s.len() == data.width * data.height,
                    data.index_of(max_pos) == max_pos.y * data.width + max_pos.x,
            ;
            assert(s[data.index_of(min_pos)].in_bounds());
            assert(s[data.index_of(max_pos)].in_bounds());
        }
        let captured = TempRange::new(min_t, max_t);
        assert(captured == captured_range_spec(data.temperatures@));
        let smoothed = self.controller.compute(captured);
        let mapping_range = if self.settings.auto_range {
            smoothed
        } else {
            self.settings.manual_range
        };
        let image = data.map_to_image(&self.settings.gradient, mapping_range);
        let hist_range = captured.join(mapping_range);
        let histogram = ThermalDataHistogram::from_thermal_data(data, hist_range, HISTOGRAM_BUCKETS);
        let real_fps_milli: u64 = if elapsed_micros == 0 {
            0
        } else {
            1_000_000_000u64 / elapsed_micros
        };
        Some(ThermalCapturerResult { image, image_range: mapping_range, real_fps_milli, reported_fps, histogram })
    }

    /// Handles the result of one non-blocking poll of the command queue:
    /// `Stop` ends the worker, `SetSettings` replaces the settings whole.
    pub fn on_command(&mut self, cmd: Option<ThermalCapturerCmd>) -> (r: CaptureAction)
        requires
            old(self).wf(),
            cmd matches Some(ThermalCapturerCmd::SetSettings(s)) ==> s.wf(),
        ensures
            final(self).wf(),
            *final(self) == after_command_spec(*old(self), cmd),
            r == command_action_spec(*old(self), cmd),
    {
        if self.phase != CapturePhase::Running {
            return CaptureAction::Abort;
        }
        match cmd {
            None => CaptureAction::Continue,
            Some(ThermalCapturerCmd::Stop) => {
                self.phase = CapturePhase::Stopped;
                CaptureAction::CloseStream
            },
            Some(ThermalCapturerCmd::SetSettings(s)) => {
                self.settings = s;
                CaptureAction::Continue
            },
        }
    }

    /// Records that the camera failed to deliver a frame: the worker ends,
    /// produces no result for that frame nor any later one, and asks the
    /// caller to report the failure as a terminal event.
    pub fn on_capture_failed(&mut self) -> (r: CaptureAction)
        ensures
            final(self).phase == CapturePhase::Failed,
            final(self).settings == old(self).settings,
            final(self).controller == old(self).controller,
            r == CaptureAction::ReportFailure,
    {
        self.phase = CapturePhase::Failed;
        CaptureAction::ReportFailure
    }
}

/// A settings replacement takes effect from the next frame on: the worker
/// keeps running, holds exactly the new settings, and maps that frame over
/// the new manual range, or over its smoothed range in automatic mode.
pub proof fn lemma_settings_take_effect(w: CaptureWorker, s: ThermalCapturerSettings, captured: TempRange)
    requires
        w.phase == CapturePhase::Running,
    ensures
        ({
            let w1 = after_command_spec(w, Some(ThermalCapturerCmd::SetSettings(s)));
            &&& w1.settings == s
            &&& emits_spec(w1)
            &&& display_range_spec(w1, captured) == (if s.auto_range {
                smooth_spec(w.controller.current, captured)
            } else {
                s.manual_range
            })
        }),
{
}

/// In manual mode the displayed range is the manual range, whatever the
/// frame holds.
pub proof fn lemma_manual_range_shown(w: CaptureWorker, captured: TempRange)
    requires
        !w.settings.auto_range,
    ensures
        display_range_spec(w, captured) == w.settings.manual_range,
{
}

/// A worker that was told to stop, or whose capture failed, produces no
/// further result, whatever commands follow.
pub proof fn lemma_no_result_after_end(w: CaptureWorker, cmd: Option<ThermalCapturerCmd>)
    ensures
        !emits_spec(after_command_spec(w, Some(ThermalCapturerCmd::Stop))),
        !emits_spec(after_command_spec(after_command_spec(w, Some(ThermalCapturerCmd::Stop)), cmd)),
        !emits_spec(CaptureWorker { phase: CapturePhase::Failed, ..w }),
        !emits_spec(after_command_spec(CaptureWorker { phase: CapturePhase::Failed, ..w }, cmd)),
{
}

/// The histogram of a frame covers every pixel: its range, the union of the
/// captured and the displayed range, holds them all, so its buckets add up
/// to the number of pixels.
pub proof fn lemma_frame_histogram_covers(w: CaptureWorker, temps: Seq<Temp>)
    requires
        w.wf(),
        temps.len() > 0,
        forall|i: int| 0 <= i < temps.len() ==> #[trigger] temps[i].in_bounds(),
    ensures
        ({
            let captured = captured_range_spec(temps);
            let range = captured.join_spec(display_range_spec(w, captured));
            crate::thermal_data::seq_sum(histogram_spec(temps, range, HISTOGRAM_BUCKETS as int)) == temps.len()
        }),
{
    let captured = captured_range_spec(temps);
    lemma_extremes(temps);
    let imin = choose|i: int| 0 <= i < temps.len() && temps[i].microkelvin == min_temp(temps);
    let imax = choose|i: int| 0 <= i < temps.len() && temps[i].microkelvin == max_temp(temps);
    assert(temps[imin].in_bounds());
    assert(temps[imax].in_bounds());
    assert(captured.wf());
    let shown = display_range_spec(w, captured);
    assert(shown.wf());
    let range = captured.join_spec(shown);
    assert(range.wf());
    assert forall|i: int| 0 <= i < temps.len() implies range.contains_spec(#[trigger] temps[i].microkelvin as int) by {
    }
    crate::thermal_data::lemma_histogram_total(temps, range, HISTOGRAM_BUCKETS as int);
}

} // verus!
