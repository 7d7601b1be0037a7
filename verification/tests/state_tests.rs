use daq_viewer::peaks::{
    cross_dispersion_sums, order_by_brightness, peak_candidates, select_separated, select_trace_peaks,
    DispersionAxis,
};
use daq_viewer::streaming::{
    de_interleave_latest, enabled_channels_sorted, EventEffect, StartOutcome, StreamEventKind,
    StreamLifecycle, StreamingState,
};
use daq_viewer::text::RecentProfilePaths;
use daq_viewer::viewer_state::{
    extraction_cadence, frame_matches_device, recording_name, roi_clear_decision,
    selected_order_after_preview, should_extract_frame, CameraSession, ConnectionState,
    ConnectionStatus, FpsCounter, RecordingState, RemoteProfileLoadState, RoiClearDecision,
};

#[test]
fn stream_lifecycle_start_run_stop() {
    let mut s = StreamLifecycle::new();
    assert_eq!(s.start(vec![]), StartOutcome::NoChannels);
    assert_eq!(s.state, StreamingState::Stopped);

    assert_eq!(s.start(vec![0, 2]), StartOutcome::Started { generation: 1 });
    assert_eq!(s.state, StreamingState::Starting);
    assert_eq!(s.start(vec![1]), StartOutcome::Busy);

    assert_eq!(s.on_event(1, StreamEventKind::Started), EventEffect::NowRunning);
    assert_eq!(s.state, StreamingState::Running);
    assert_eq!(s.on_event(1, StreamEventKind::Batch { overflow: true }), EventEffect::ApplyBatch);
    assert!(s.overflow);

    assert!(s.stop());
    assert_eq!(s.state, StreamingState::Stopping);
    assert!(s.channels.is_empty());
    // A second stop sends nothing more.
    assert!(!s.stop());
    assert_eq!(s.on_event(1, StreamEventKind::Ended), EventEffect::ShowEnded);
    assert_eq!(s.state, StreamingState::Stopped);
}

#[test]
fn stale_stream_events_are_ignored() {
    let mut s = StreamLifecycle::new();
    s.start(vec![3]);
    s.on_event(1, StreamEventKind::Failed);
    assert_eq!(s.state, StreamingState::Stopped);
    assert_eq!(s.start(vec![4]), StartOutcome::Started { generation: 2 });
    // Events of the first session change nothing now.
    assert_eq!(s.on_event(1, StreamEventKind::Started), EventEffect::Ignored);
    assert_eq!(s.on_event(1, StreamEventKind::Failed), EventEffect::Ignored);
    assert_eq!(s.state, StreamingState::Starting);
    assert_eq!(s.channels, vec![4]);
    assert_eq!(s.on_event(2, StreamEventKind::Failed), EventEffect::ShowError);
    assert_eq!(s.state, StreamingState::Stopped);
}

#[test]
fn enabled_channels_are_sorted_and_unique() {
    let entries = [(5u32, true), (1, true), (3, false), (5, true), (2, true)];
    assert_eq!(enabled_channels_sorted(&entries), vec![1, 2, 5]);
    assert!(enabled_channels_sorted(&[(0, false)]).is_empty());
}

#[test]
fn de_interleave_takes_the_last_complete_scan() {
    // Two channels, three complete scans and one stray sample.
    let samples = [1.0f64, 10.0, 2.0, 20.0, 3.0, 30.0, 4.0];
    let latest = de_interleave_latest(&samples, 2, &[0, 7]);
    assert_eq!(latest, vec![(0, 3.0), (7, 30.0)]);
    assert!(de_interleave_latest(&samples[..1], 2, &[0, 7]).is_empty());
    assert!(de_interleave_latest::<f64>(&[], 2, &[0, 7]).is_empty());
    assert!(de_interleave_latest(&samples, 0, &[0]).is_empty());
    // Fewer channel numbers than channels: pair only as far as they go.
    assert_eq!(de_interleave_latest(&[1u16, 2, 3], 3, &[9]), vec![(9, 1)]);
}

#[test]
fn camera_connection_states() {
    let mut c = CameraSession::new();
    c.stream_requested();
    assert_eq!(c.connection, ConnectionState::Reconnecting);
    assert_eq!(c.frame_received(false), ConnectionStatus::ShowConnected);
    assert_eq!(c.frame_received(true), ConnectionStatus::ClearConnected);
    assert_eq!(c.frame_received(false), ConnectionStatus::Keep);
    assert!(c.error_reported());
    assert_eq!(c.connection, ConnectionState::Disconnected);
    assert!(!c.error_reported());
    c.reconnect_result(false);
    c.reconnect_result(false);
    assert_eq!(c.retry_count, 2);
    c.reconnect_result(true);
    assert_eq!((c.connection, c.retry_count), (ConnectionState::Connected, 0));
}

#[test]
fn recording_states() {
    let mut c = CameraSession::new();
    assert!(!c.request_stop_recording());
    assert!(c.request_start_recording());
    assert_eq!(c.recording, RecordingState::Starting);
    assert!(!c.request_start_recording());
    c.recording_started();
    assert!(c.request_stop_recording());
    assert_eq!(c.recording, RecordingState::Stopping);
    c.recording_stopped();
    assert_eq!(c.recording, RecordingState::Idle);
    c.recording_status(Some(2));
    assert_eq!(c.recording, RecordingState::Recording);
    c.recording_status(None);
    assert_eq!(c.recording, RecordingState::Recording);
    c.recording_status(Some(0));
    assert_eq!(c.recording, RecordingState::Idle);
}

#[test]
fn recording_names() {
    let dev = "pvcam/PrimeBSI".to_string();
    assert_eq!(recording_name(&"run7".to_string(), Some(&dev), "20240101_120000"), "run7");
    assert_eq!(
        recording_name(&String::new(), Some(&dev), "20240101_120000"),
        "camera_pvcam_PrimeBSI_20240101_120000"
    );
    assert_eq!(recording_name(&String::new(), None, "t"), "camera_t");
}

#[test]
fn frame_routing_and_extraction_cadence() {
    let a = "cam_a".to_string();
    let b = "cam_b".to_string();
    assert!(frame_matches_device(None, &a));
    assert!(frame_matches_device(Some(&a), &a));
    assert!(!frame_matches_device(Some(&a), &b));
    assert_eq!(extraction_cadence(0), 1);
    assert_eq!(extraction_cadence(4), 4);
    assert!(should_extract_frame(7, 0));
    assert!(should_extract_frame(7, 1));
    assert!(should_extract_frame(8, 4));
    assert!(!should_extract_frame(9, 4));
    assert_eq!(selected_order_after_preview(3, 5), 3);
    assert_eq!(selected_order_after_preview(5, 5), 0);
}

#[test]
fn roi_clear_decisions() {
    assert_eq!(roi_clear_decision(false, true, Some((10, 10))), RoiClearDecision::NoDevice);
    assert_eq!(roi_clear_decision(true, true, Some((10, 10))), RoiClearDecision::StopStreamingFirst);
    assert_eq!(
        roi_clear_decision(true, false, Some((2048, 2048))),
        RoiClearDecision::SetFullFrame { width: 2048, height: 2048 }
    );
    assert_eq!(roi_clear_decision(true, false, None), RoiClearDecision::UnknownFullFrame);
}

#[test]
fn fps_counter_keeps_the_newest_samples() {
    let mut f: FpsCounter<u64> = FpsCounter::new(3);
    assert_eq!(f.fps_window(), None);
    f.tick_at(10);
    assert_eq!(f.fps_window(), None);
    f.tick_at(20);
    assert_eq!(f.fps_window(), Some((1, 10, 20)));
    f.tick_at(30);
    f.tick_at(40);
    assert_eq!(f.sample_count(), 3);
    assert_eq!(f.fps_window(), Some((2, 20, 40)));

    let mut live: FpsCounter<std::time::Instant> = FpsCounter::new(2);
    live.tick();
    live.tick();
    live.tick();
    assert_eq!(live.sample_count(), 2);
}

#[test]
fn remote_profile_load_status() {
    let idle: RemoteProfileLoadState<()> = RemoteProfileLoadState::Idle;
    assert!(!idle.is_busy() && !idle.is_terminal());
    assert_eq!(idle.status_message(), None);
    let pending: RemoteProfileLoadState<()> = RemoteProfileLoadState::Pending { path: "a.toml".to_string() };
    assert!(pending.is_busy());
    assert_eq!(pending.status_message().as_deref(), Some("Requesting profile: a.toml..."));
    let loading = RemoteProfileLoadState::Loading { path: "b.toml".to_string(), rx: 0u8 };
    assert_eq!(loading.status_message().as_deref(), Some("Loading profile from daemon: b.toml..."));
    let failed: RemoteProfileLoadState<()> =
        RemoteProfileLoadState::Failed { path: "c".to_string(), error: "x".to_string() };
    assert!(failed.is_terminal() && !failed.is_busy());
    assert_eq!(failed.status_message(), None);
}

#[test]
fn recent_profile_paths() {
    let mut r = RecentProfilePaths::new();
    r.record_recent_profile_path("  ");
    assert!(r.paths.is_empty());
    for p in ["a", "b", "c", "d", "e", "f"] {
        r.record_recent_profile_path(p);
    }
    assert_eq!(r.paths, vec!["f", "e", "d", "c", "b"]);
    r.record_recent_profile_path("  c\n");
    assert_eq!(r.paths, vec!["c", "f", "e", "d", "b"]);
    assert_eq!(RecentProfilePaths::RECENT_PROFILE_PATHS_MAX, 5);
}

#[test]
fn cross_dispersion_profile_sums() {
    // 3 wide, 2 high, 8-bit.
    let data = [1u8, 2, 3, 10, 20, 30];
    assert_eq!(cross_dispersion_sums(&data, 3, 2, 8, DispersionAxis::X), Some(vec![6, 60]));
    assert_eq!(cross_dispersion_sums(&data, 3, 2, 8, DispersionAxis::Y), Some(vec![11, 22, 33]));
    assert_eq!(cross_dispersion_sums(&data[..5], 3, 2, 8, DispersionAxis::X), None);
    assert_eq!(cross_dispersion_sums(&data, 3, 1, 16, DispersionAxis::X), Some(vec![0x0201 + 0x0a03 + 0x1e14]));
}

#[test]
fn trace_peak_selection() {
    let sums = [0u64, 5, 1, 9, 2, 9, 1, 7, 0];
    let meets = [true; 9];
    assert_eq!(peak_candidates(&sums, &meets), vec![1, 3, 5, 7]);
    let mut no4 = meets;
    no4[3] = false;
    assert_eq!(peak_candidates(&sums, &no4), vec![1, 5, 7]);
    // Brightest first; equal brightness keeps position order.
    assert_eq!(order_by_brightness(&[1, 3, 5, 7], &sums), vec![3, 5, 7, 1]);
    assert_eq!(select_separated(&[3, 5, 7, 1], 3, 10), vec![3, 7]);
    assert_eq!(select_separated(&[3, 5, 7, 1], 2, 2), vec![3, 5]);
    assert_eq!(select_trace_peaks(&sums, &meets, 3, 10), vec![3, 7]);
    assert_eq!(select_trace_peaks(&sums, &meets, 0, 10), vec![1, 3, 5, 7]);
    assert_eq!(select_trace_peaks(&sums, &meets, 1, 0), Vec::<usize>::new());
}

#[test]
fn reconnect_backoff_and_decision() {
    let mut c = CameraSession::new();
    assert_eq!(c.reconnect_backoff_ms(), 100);
    c.stream_requested();
    c.frame_received(false);
    assert!(c.error_reported());
    assert_eq!(c.reconnect_backoff_ms(), 100);
    assert!(!c.should_auto_reconnect(true, true, false, Some(99)));
    assert!(c.should_auto_reconnect(true, true, false, Some(100)));
    assert!(!c.should_auto_reconnect(false, true, false, Some(5000)));
    assert!(!c.should_auto_reconnect(true, false, false, Some(5000)));
    assert!(!c.should_auto_reconnect(true, true, true, Some(5000)));
    assert!(!c.should_auto_reconnect(true, true, false, None));
    let expected = [200u64, 400, 800, 1600, 3200, 6400, 10000, 10000, 10000];
    for want in expected {
        c.reconnect_result(false);
        assert_eq!(c.reconnect_backoff_ms(), want);
    }
    c.reconnect_result(true);
    assert_eq!(c.connection, ConnectionState::Connected);
    assert!(!c.should_auto_reconnect(true, true, false, Some(100_000)));
}
