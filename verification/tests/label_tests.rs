use daq_viewer::colormap::{Colormap, ContrastMode, ScaleMode};
use daq_viewer::trigger::{
    trigger_request_fields, ClockSource, RequestTriggerEdge, RequestTriggerSource, SyncMode,
    TriggerPolarity, TriggerSource, TriggerTab,
};
use daq_viewer::viewer_state::{stream_quality_label, StreamQuality};

#[test]
fn test_colormap_labels() {
    assert_eq!(Colormap::Grayscale.label(), "Grayscale");
    assert_eq!(Colormap::Viridis.label(), "Viridis");
    assert_eq!(Colormap::Inferno.label(), "Inferno");
    assert_eq!(Colormap::Plasma.label(), "Plasma");
    assert_eq!(Colormap::Magma.label(), "Magma");
}

#[test]
fn test_scale_mode_labels() {
    assert_eq!(ScaleMode::Linear.label(), "Linear");
    assert_eq!(ScaleMode::Log.label(), "Log");
    assert_eq!(ScaleMode::Sqrt.label(), "Sqrt");
}

#[test]
fn test_contrast_mode_labels() {
    assert_eq!(ContrastMode::Manual.label(), "Manual");
    assert_eq!(ContrastMode::AutoSimple.label(), "Auto (Simple)");
    assert_eq!(ContrastMode::AutoPercentile.label(), "Auto (Percentile)");
    assert_eq!(ContrastMode::HistogramEq.label(), "Histogram Eq");
    assert_eq!(ContrastMode::Clahe.label(), "CLAHE");
}

#[test]
fn test_contrast_mode_all() {
    let modes = ContrastMode::all();
    assert_eq!(modes.len(), 5);
    assert!(modes.contains(&ContrastMode::Manual));
    assert!(modes.contains(&ContrastMode::Clahe));
}

#[test]
fn test_stream_quality_label() {
    assert_eq!(stream_quality_label(StreamQuality::Full), "Full");
    assert_eq!(stream_quality_label(StreamQuality::Preview), "Preview (2x)");
    assert_eq!(stream_quality_label(StreamQuality::Fast), "Fast (4x)");
}

#[test]
fn trigger_enum_labels_and_menus() {
    assert_eq!(TriggerSource::all().len(), 9);
    assert_eq!(TriggerSource::InternalClock.label(), "Internal Clock");
    assert_eq!(TriggerSource::AnalogTrigger.label(), "Analog Trigger");
    assert_eq!(TriggerSource::PFI2.label(), "PFI2");
    assert_eq!(TriggerPolarity::all(), &[TriggerPolarity::Rising, TriggerPolarity::Falling, TriggerPolarity::Either]);
    assert_eq!(TriggerPolarity::Falling.label(), "Falling Edge");
    assert_eq!(ClockSource::all().len(), 4);
    assert_eq!(ClockSource::ExternalRTSI0.label(), "External (RTSI0)");
    assert_eq!(TriggerTab::all().len(), 4);
    assert_eq!(TriggerTab::Timing.label(), "Timing/Sync");
    assert_eq!(SyncMode::all(), &[SyncMode::Standalone, SyncMode::Master, SyncMode::Slave]);
    assert_eq!(SyncMode::Slave.label(), "Slave");
    assert_eq!(TriggerSource::default(), TriggerSource::Software);
    assert_eq!(ClockSource::default(), ClockSource::Internal20MHz);
}

#[test]
fn trigger_request_mapping() {
    let f = trigger_request_fields(TriggerSource::PFI3, TriggerPolarity::Falling, true);
    assert_eq!(f.source, RequestTriggerSource::External);
    assert_eq!(f.edge, RequestTriggerEdge::Falling);
    assert_eq!(f.pfi_pin, 3);
    assert!(f.retriggerable);
    let g = trigger_request_fields(TriggerSource::InternalClock, TriggerPolarity::Either, false);
    assert_eq!(g.source, RequestTriggerSource::Software);
    assert_eq!(g.edge, RequestTriggerEdge::Either);
    assert_eq!(g.pfi_pin, 0);
    let h = trigger_request_fields(TriggerSource::RTSI1, TriggerPolarity::Rising, false);
    assert_eq!(h.source, RequestTriggerSource::External);
    assert_eq!(h.pfi_pin, 0);
    let a = trigger_request_fields(TriggerSource::AnalogTrigger, TriggerPolarity::Rising, false);
    assert_eq!(a.source, RequestTriggerSource::Analog);
}
