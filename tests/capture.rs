use thermal_capture::capturer::{
    AutoDisplayRangeController, CaptureAction, CapturePhase, CaptureWorker, ThermalCapturerCmd,
    ThermalCapturerSettings, HISTOGRAM_BUCKETS,
};
use thermal_capture::gradient::{Color, ThermalGradient};
use thermal_capture::temperature::{Temp, TempRange};
use thermal_capture::thermal_data::{PixelPos, ThermalData, ThermalDataHistogram};

fn range(low: i64, high: i64) -> TempRange {
    TempRange { low: Temp { microkelvin: low }, high: Temp { microkelvin: high } }
}

fn frame(width: usize, height: usize, values: &[i64]) -> ThermalData {
    ThermalData {
        width,
        height,
        temperatures: values.iter().map(|v| Temp { microkelvin: *v }).collect(),
    }
}

#[test]
fn gradient_colors_at_stops_and_between() {
    let g = ThermalGradient::default_gradient();
    assert_eq!(g.get_color(0), Color { r: 0, g: 0, b: 0 });
    assert_eq!(g.get_color(10000), Color { r: 255, g: 255, b: 255 });
    assert_eq!(g.get_color(2500), Color { r: 110, g: 20, b: 150 });
    assert_eq!(g.get_color(1250), Color { r: 55, g: 10, b: 75 });
    // falling channel: 150 -> 30 over a quarter, halfway
    assert_eq!(g.get_color(3750), Color { r: 165, g: 30, b: 90 });
}

#[test]
fn min_max_positions_and_lookup() {
    let d = frame(3, 2, &[300, 100, 500, 200, 900, 400]);
    let (lo, hi) = d.get_min_max_pos();
    assert_eq!(lo, PixelPos { x: 1, y: 0 });
    assert_eq!(hi, PixelPos { x: 1, y: 1 });
    assert_eq!(d.temperature_at(2, 1), Temp { microkelvin: 400 });
    assert_eq!(d.temperature_at(0, 1), Temp { microkelvin: 200 });
}

#[test]
fn map_to_image_colors_each_pixel() {
    let d = frame(2, 1, &[0, 100]);
    let g = ThermalGradient::default_gradient();
    let img = d.map_to_image(&g, range(0, 100));
    assert_eq!(img.width, 2);
    assert_eq!(img.height, 1);
    assert_eq!(img.pixels, vec![Color { r: 0, g: 0, b: 0 }, Color { r: 255, g: 255, b: 255 }]);
}

#[test]
fn histogram_buckets_by_position() {
    let d = frame(4, 1, &[0, 50, 100, 99]);
    let h = ThermalDataHistogram::from_thermal_data(&d, range(0, 100), 10);
    assert_eq!(h.range, range(0, 100));
    assert_eq!(h.buckets, vec![1, 0, 0, 0, 0, 1, 0, 0, 0, 2]);
}

#[test]
fn histogram_leaves_out_pixels_outside_range() {
    let d = frame(3, 1, &[-5, 50, 200]);
    let h = ThermalDataHistogram::from_thermal_data(&d, range(0, 100), 4);
    assert_eq!(h.buckets, vec![0, 0, 1, 0]);
}

#[test]
fn histogram_of_zero_width_range() {
    let d = frame(2, 1, &[70, 70]);
    let h = ThermalDataHistogram::from_thermal_data(&d, range(70, 70), 3);
    assert_eq!(h.buckets, vec![2, 0, 0]);
}

#[test]
fn controller_widens_at_once_and_narrows_slowly() {
    let mut c = AutoDisplayRangeController::new();
    assert_eq!(c.compute(range(0, 800)), range(0, 800));
    assert_eq!(c.compute(range(400, 400)), range(50, 750));
    assert_eq!(c.compute(range(-100, 900)), range(-100, 900));
    assert_eq!(c.current, Some(range(-100, 900)));
}

#[test]
fn default_settings_values() {
    let s = ThermalCapturerSettings::default_settings();
    assert!(s.auto_range);
    assert_eq!(s.manual_range, range(273_150_000, 373_150_000));
    assert_eq!(s.gradient.stops.len(), 5);
}

#[test]
fn frame_result_in_auto_mode() {
    let mut w = CaptureWorker::new(ThermalCapturerSettings::default_settings());
    let d = frame(2, 2, &[30000, 31000, 32000, 40000]);
    let r = w.on_frame(&d, 20_000, 25).unwrap();
    assert_eq!(r.image_range, range(30000, 40000));
    assert_eq!(r.real_fps_milli, 50_000);
    assert_eq!(r.reported_fps, 25);
    assert_eq!(r.image.pixels.len(), 4);
    assert_eq!(r.histogram.range, range(30000, 40000));
    assert_eq!(r.histogram.buckets.len(), HISTOGRAM_BUCKETS);
    assert_eq!(r.histogram.buckets.iter().sum::<u64>(), 4);
    assert_eq!(r.histogram.buckets[0], 1);
    assert_eq!(r.histogram.buckets[99], 1);
}

#[test]
fn frame_time_set_after_processing() {
    let mut w = CaptureWorker::new(ThermalCapturerSettings::default_settings());
    let d = frame(1, 1, &[30000]);
    let mut r = w.on_frame(&d, 1000, 9).unwrap();
    assert_eq!(r.real_fps_milli, 1_000_000);
    r.set_frame_time(40_000);
    assert_eq!(r.real_fps_milli, 25_000);
    assert_eq!(r.reported_fps, 9);
    assert_eq!(r.image_range, range(30000, 30000));
}

#[test]
fn zero_elapsed_time_gives_zero_fps() {
    let mut w = CaptureWorker::new(ThermalCapturerSettings::default_settings());
    let d = frame(1, 1, &[30000]);
    let r = w.on_frame(&d, 0, 9).unwrap();
    assert_eq!(r.real_fps_milli, 0);
}

#[test]
fn settings_apply_to_next_frame() {
    let mut w = CaptureWorker::new(ThermalCapturerSettings::default_settings());
    let d = frame(2, 1, &[20000, 50000]);
    let first = w.on_frame(&d, 1000, 9).unwrap();
    assert_eq!(first.image_range, range(20000, 50000));
    let mut manual = ThermalCapturerSettings::default_settings();
    manual.auto_range = false;
    manual.manual_range = range(29000, 31000);
    assert_eq!(w.on_command(Some(ThermalCapturerCmd::SetSettings(manual))), CaptureAction::Continue);
    let second = w.on_frame(&d, 1000, 9).unwrap();
    assert_eq!(second.image_range, range(29000, 31000));
    // the histogram still covers every pixel
    assert_eq!(second.histogram.range, range(20000, 50000));
    assert_eq!(second.histogram.buckets.iter().sum::<u64>(), 2);
}

#[test]
fn manual_range_independent_of_frame() {
    let mut s = ThermalCapturerSettings::default_settings();
    s.auto_range = false;
    let mut w = CaptureWorker::new(s);
    for values in [[10000i64, 90000], [27000, 27001], [-500, 500]] {
        let d = frame(2, 1, &values);
        let r = w.on_frame(&d, 1000, 9).unwrap();
        assert_eq!(r.image_range, range(273_150_000, 373_150_000));
    }
}

#[test]
fn empty_poll_keeps_running() {
    let mut w = CaptureWorker::new(ThermalCapturerSettings::default_settings());
    assert_eq!(w.on_command(None), CaptureAction::Continue);
    assert_eq!(w.phase, CapturePhase::Running);
}

#[test]
fn stop_ends_results() {
    let mut w = CaptureWorker::new(ThermalCapturerSettings::default_settings());
    let d = frame(1, 1, &[30000]);
    assert!(w.on_frame(&d, 1000, 9).is_some());
    assert_eq!(w.on_command(Some(ThermalCapturerCmd::Stop)), CaptureAction::CloseStream);
    assert_eq!(w.phase, CapturePhase::Stopped);
    assert!(w.on_frame(&d, 1000, 9).is_none());
    assert_eq!(w.on_command(None), CaptureAction::Abort);
    assert!(w.on_frame(&d, 1000, 9).is_none());
}

#[test]
fn capture_failure_ends_results() {
    let mut w = CaptureWorker::new(ThermalCapturerSettings::default_settings());
    assert_eq!(w.on_capture_failed(), CaptureAction::ReportFailure);
    assert_eq!(w.phase, CapturePhase::Failed);
    let d = frame(1, 1, &[30000]);
    assert!(w.on_frame(&d, 1000, 9).is_none());
}
