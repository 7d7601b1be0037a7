//! State of the image viewer that does not depend on the display: camera
//! connection and recording states, frame-rate samples, extraction cadence,
//! remote profile loading, parameter results and small text helpers.

use vstd::prelude::*;
use std::collections::VecDeque;

verus! {

#[verifier::external_type_specification]
#[verifier::external_body]
pub struct ExInstant(std::time::Instant);

/// `format!("{a}{b}{c}")`: the three texts one after the other.
#[verifier::external_body]
pub(crate) fn concat_text(a: &str, b: &str, c: &str) -> (r: String)
    ensures
        r@ == a@ + b@ + c@,
{
    format!("{a}{b}{c}")
}

/// `str::replace('/', "_")`: the text with every slash replaced by an underscore.
#[verifier::external_body]
fn replace_slashes(s: &str) -> (r: String)
    ensures
        r@ == s@.map_values(|c: char| if c == '/' { '_' } else { c }),
{
    s.replace('/', "_")
}

/// `Instant::now()`. Nothing is stated of the result, which is the clock.
#[verifier::external_body]
pub(crate) fn instant_now() -> std::time::Instant {
    std::time::Instant::now()
}

/// Connection state for the camera device.
#[derive(Debug, Clone, Copy, PartialEq, Eq, Structural, Default)]
pub enum ConnectionState {
    /// No device selected or initial state
    #[default]
    Idle,
    /// Connected and streaming normally
    Connected,
    /// Device disconnected or error occurred
    Disconnected,
    /// Attempting to reconnect
    Reconnecting,
}

/// Recording state for camera frames.
#[derive(Debug, Clone, Copy, PartialEq, Eq, Structural, Default)]
pub enum RecordingState {
    /// Not recording
    #[default]
    Idle,
    /// Actively recording frames
    Recording,
    /// Starting recording (async in progress)
    Starting,
    /// Stopping recording (async in progress)
    Stopping,
}

/// Frame stream quality requested from the daemon.
#[derive(Debug, Clone, Copy, PartialEq, Eq, Structural)]
pub enum StreamQuality {
    Full,
    Preview,
    Fast,
}

/// Label of a stream quality.
pub open spec fn stream_quality_text(q: StreamQuality) -> Seq<char> {
    match q {
        StreamQuality::Full => "Full"@,
        StreamQuality::Preview => "Preview (2x)"@,
        StreamQuality::Fast => "Fast (4x)"@,
    }
}

/// Display label of a stream quality.
pub fn stream_quality_label(quality: StreamQuality) -> (s: &'static str)
    ensures
        s@ == stream_quality_text(quality),
{
    match quality {
        StreamQuality::Full => "Full",
        StreamQuality::Preview => "Preview (2x)",
        StreamQuality::Fast => "Fast (4x)",
    }
}

/// Status-line effect of a connection transition.
#[derive(Debug, Clone, Copy, PartialEq, Eq, Structural)]
pub enum ConnectionStatus {
    /// Leave the status line as it is.
    Keep,
    /// Show "Connected".
    ShowConnected,
    /// Clear a "Connected" status once streaming is steady.
    ClearConnected,
}

/// Reconnection backoff after `retry_count` failed retries:
/// `min(100 * 2^min(retry_count, 7), 10000)` milliseconds.
pub open spec fn reconnect_backoff_ms_spec(retry_count: u32) -> int {
    let e: nat = if retry_count < 7 { retry_count as nat } else { 7 };
    let ms: int = 100 * (vstd::arithmetic::power2::pow2(e) as int);
    if ms < 10000 {
        ms
    } else {
        10000
    }
}

/// Connection and recording bookkeeping of a camera session.
pub struct CameraSession {
    pub connection: ConnectionState,
    pub retry_count: u32,
    pub recording: RecordingState,
}

impl CameraSession {
    pub fn new() -> (s: Self)
        ensures
            s.connection == ConnectionState::Idle,
            s.retry_count == 0,
            s.recording == RecordingState::Idle,
    {
        CameraSession { connection: ConnectionState::Idle, retry_count: 0, recording: RecordingState::Idle }
    }

    /// Starting a stream: the session is reconnecting until a frame arrives.
    pub fn stream_requested(&mut self)
        ensures
            final(self).connection == ConnectionState::Reconnecting,
            final(self).retry_count == old(self).retry_count,
            final(self).recording == old(self).recording,
    {
        self.connection = ConnectionState::Reconnecting;
    }

    /// A frame of the selected device arrived: the first one after any other
    /// state connects and resets the retry count; later ones clear a
    /// "Connected" status line (`status_is_connected`).
    pub fn frame_received(&mut self, status_is_connected: bool) -> (st: ConnectionStatus)
        ensures
            final(self).connection == ConnectionState::Connected,
            final(self).recording == old(self).recording,
            old(self).connection != ConnectionState::Connected ==> final(self).retry_count == 0 && st
                == ConnectionStatus::ShowConnected,
            old(self).connection == ConnectionState::Connected ==> final(self).retry_count == old(
                self,
            ).retry_count && st == (if status_is_connected {
                ConnectionStatus::ClearConnected
            } else {
                ConnectionStatus::Keep
            }),
    {
        if self.connection != ConnectionState::Connected {
            self.connection = ConnectionState::Connected;
            self.retry_count = 0;
            ConnectionStatus::ShowConnected
        } else if status_is_connected {
            ConnectionStatus::ClearConnected
        } else {
            ConnectionStatus::Keep
        }
    }

    /// An asynchronous operation failed: a connected session becomes
    /// disconnected (returns true: note the disconnect time) with its retry
    /// count reset; other states are kept.
    pub fn error_reported(&mut self) -> (disconnected: bool)
        ensures
            disconnected == (old(self).connection == ConnectionState::Connected),
            disconnected ==> final(self).connection == ConnectionState::Disconnected && final(self).retry_count
                == 0,
            !disconnected ==> final(self).connection == old(self).connection && final(self).retry_count
                == old(self).retry_count,
            final(self).recording == old(self).recording,
    {
        if self.connection == ConnectionState::Connected {
            self.connection = ConnectionState::Disconnected;
            self.retry_count = 0;
            true
        } else {
            false
        }
    }

    /// Outcome of a reconnection attempt: success connects and resets the
    /// retry count, failure disconnects and counts the attempt.
    pub fn reconnect_result(&mut self, success: bool)
        requires
            !success ==> old(self).retry_count < u32::MAX,
        ensures
            success ==> final(self).connection == ConnectionState::Connected && final(self).retry_count == 0,
            !success ==> final(self).connection == ConnectionState::Disconnected && final(self).retry_count
                == old(self).retry_count + 1,
            final(self).recording == old(self).recording,
    {
        if success {
            self.connection = ConnectionState::Connected;
            self.retry_count = 0;
        } else {
            self.connection = ConnectionState::Disconnected;
            self.retry_count = self.retry_count + 1;
        }
    }

    /// Delay before an automatic reconnection: 100 ms doubled for each
    /// failed retry (at most seven doublings), capped at 10 s.
    pub fn reconnect_backoff_ms(&self) -> (ms: u64)
        ensures
            ms == reconnect_backoff_ms_spec(self.retry_count),
    {
        let e: u32 = if self.retry_count < 7 { self.retry_count } else { 7 };
        proof {
            vstd::arithmetic::power2::lemma2_to64();
        }
        let factor: u64 = match e {
            0 => 1,
            1 => 2,
            2 => 4,
            3 => 8,
            4 => 16,
            5 => 32,
            6 => 64,
            _ => 128,
        };
        let ms: u64 = 100 * factor;
        if ms < 10_000 { ms } else { 10_000 }
    }

    /// Whether to reconnect automatically now: auto-reconnect is on, the
    /// session is disconnected with a device selected and no subscription,
    /// and the time since the disconnect (if one was noted) has reached the
    /// backoff.
    pub fn should_auto_reconnect(
        &self,
        auto_reconnect: bool,
        has_device: bool,
        has_subscription: bool,
        since_disconnect_ms: Option<u64>,
    ) -> (go: bool)
        ensures
            go == (auto_reconnect && self.connection == ConnectionState::Disconnected && has_device
                && !has_subscription && (since_disconnect_ms matches Some(e) && e
                >= reconnect_backoff_ms_spec(self.retry_count))),
    {
        if !(auto_reconnect && self.connection == ConnectionState::Disconnected && has_device
            && !has_subscription) {
            return false;
        }
        let backoff = self.reconnect_backoff_ms();
        match since_disconnect_ms {
            Some(e) => e >= backoff,
            None => false,
        }
    }

    /// A recording may only be requested while idle; it then is starting.
    pub fn request_start_recording(&mut self) -> (go: bool)
        ensures
            go == (old(self).recording == RecordingState::Idle),
            go ==> final(self).recording == RecordingState::Starting,
            !go ==> final(self).recording == old(self).recording,
            final(self).connection == old(self).connection,
            final(self).retry_count == old(self).retry_count,
    {
        if self.recording != RecordingState::Idle {
            return false;
        }
        self.recording = RecordingState::Starting;
        true
    }

    /// Stopping may only be requested while recording; it then is stopping.
    pub fn request_stop_recording(&mut self) -> (go: bool)
        ensures
            go == (old(self).recording == RecordingState::Recording),
            go ==> final(self).recording == RecordingState::Stopping,
            !go ==> final(self).recording == old(self).recording,
            final(self).connection == old(self).connection,
            final(self).retry_count == old(self).retry_count,
    {
        if self.recording != RecordingState::Recording {
            return false;
        }
        self.recording = RecordingState::Stopping;
        true
    }

    /// The daemon confirmed the start of a recording.
    pub fn recording_started(&mut self)
        ensures
            final(self).recording == RecordingState::Recording,
            final(self).connection == old(self).connection,
            final(self).retry_count == old(self).retry_count,
    {
        self.recording = RecordingState::Recording;
    }

    /// The daemon confirmed the end of a recording.
    pub fn recording_stopped(&mut self)
        ensures
            final(self).recording == RecordingState::Idle,
            final(self).connection == old(self).connection,
            final(self).retry_count == old(self).retry_count,
    {
        self.recording = RecordingState::Idle;
    }

    /// A recording status report: state code 2 (active) means recording,
    /// any other code idle; no report changes nothing.
    pub fn recording_status(&mut self, state_code: Option<i32>)
        ensures
            state_code matches Some(c) ==> final(self).recording == (if c == 2 {
                RecordingState::Recording
            } else {
                RecordingState::Idle
            }),
            state_code is None ==> final(self).recording == old(self).recording,
            final(self).connection == old(self).connection,
            final(self).retry_count == old(self).retry_count,
    {
        if let Some(c) = state_code {
            self.recording = if c == 2 { RecordingState::Recording } else { RecordingState::Idle };
        }
    }
}

/// Whether a frame is processed: with no device selected every frame is,
/// otherwise only frames of the selected device.
pub fn frame_matches_device(selected: Option<&String>, frame_device: &String) -> (ok: bool)
    ensures
        ok == match selected {
            None => true,
            Some(d) => d@ == frame_device@,
        },
{
    match selected {
        None => true,
        Some(d) => d.eq(frame_device),
    }
}

/// Extraction cadence actually used: at least every frame.
pub fn extraction_cadence(every_n_frames: u32) -> (n: u32)
    ensures
        n == if every_n_frames == 0 { 1 } else { every_n_frames },
{
    if every_n_frames == 0 { 1 } else { every_n_frames }
}

/// Whether frame `frame_number` is extracted under a cadence of one in
/// `every_n_frames` (0 counts as 1): every frame whose number is a multiple.
pub fn should_extract_frame(frame_number: u64, every_n_frames: u32) -> (go: bool)
    ensures
        go == (every_n_frames <= 1 || frame_number % (every_n_frames as u64) == 0),
{
    let d = extraction_cadence(every_n_frames) as u64;
    if d > 1 && frame_number % d != 0 {
        false
    } else {
        true
    }
}

/// Order selected for plotting once a preview with `order_count` orders
/// arrives: kept if it exists, else the first.
pub fn selected_order_after_preview(selected: usize, order_count: usize) -> (s: usize)
    ensures
        s == if selected >= order_count { 0 } else { selected },
{
    if selected >= order_count { 0 } else { selected }
}

/// What clearing the hardware ROI of the selected camera amounts to.
#[derive(Debug, Clone, Copy, PartialEq, Eq, Structural)]
pub enum RoiClearDecision {
    /// No camera selected: nothing to do.
    NoDevice,
    /// The camera is streaming: refuse ("Stop streaming before clearing hardware ROI").
    StopStreamingFirst,
    /// Set the ROI to the full sensor of this size.
    SetFullFrame { width: u32, height: u32 },
    /// The full-frame size is unknown: refuse ("Unknown full-frame size ...").
    UnknownFullFrame,
}

/// Decides how to reset the hardware ROI to the full sensor.
pub fn roi_clear_decision(has_device: bool, streaming: bool, full_frame: Option<(u32, u32)>) -> (d:
    RoiClearDecision)
    ensures
        !has_device ==> d == RoiClearDecision::NoDevice,
        has_device && streaming ==> d == RoiClearDecision::StopStreamingFirst,
        has_device && !streaming ==> d == match full_frame {
            Some((w, h)) => RoiClearDecision::SetFullFrame { width: w, height: h },
            None => RoiClearDecision::UnknownFullFrame,
        },
{
    if !has_device {
        RoiClearDecision::NoDevice
    } else if streaming {
        RoiClearDecision::StopStreamingFirst
    } else {
        match full_frame {
            Some((w, h)) => RoiClearDecision::SetFullFrame { width: w, height: h },
            None => RoiClearDecision::UnknownFullFrame,
        }
    }
}

/// Name of a new recording: the name the user typed, or else
/// `camera_<device with '/' as '_'>_<timestamp>` (`camera_<timestamp>`
/// without a device).
pub fn recording_name(custom: &String, device_id: Option<&String>, timestamp: &str) -> (name: String)
    ensures
        custom@.len() > 0 ==> name@ == custom@,
        custom@.len() == 0 ==> name@ == "camera"@ + match device_id {
            Some(d) => "_"@ + d@.map_values(|c: char| if c == '/' { '_' } else { c }),
            None => Seq::<char>::empty(),
        } + "_"@ + timestamp@,
{
    if !custom.as_str().is_empty() {
        return custom.clone();
    }
    let suffix: String = match device_id {
        Some(d) => {
            let cleaned = replace_slashes(d.as_str());
            concat_text("_", cleaned.as_str(), "")
        },
        None => String::new(),
    };
    let tail = concat_text("_", timestamp, "");
    let name = concat_text("camera", suffix.as_str(), tail.as_str());
    proof {
        assert("_"@ + timestamp@ + ""@ =~= "_"@ + timestamp@) by {
            reveal_strlit("");
        }
        match device_id {
            Some(d) => {
                assert("_"@ + d@.map_values(|c: char| if c == '/' { '_' } else { c }) + ""@ =~= "_"@ + d@.map_values(|c: char| if c == '/' { '_' } else { c })) by {
                    reveal_strlit("");
                }
            },
            None => {},
        }
        assert(name@ =~= "camera"@ + suffix@ + "_"@ + timestamp@);
    }
    name
}

/// The recorded times after recording `now`: the newest `max` of them.
pub open spec fn frames_after_tick<T>(frames: Seq<T>, now: T, max: int) -> Seq<T> {
    let all = frames.push(now);
    if all.len() <= max {
        all
    } else {
        all.subrange(all.len() - max, all.len() as int)
    }
}

/// Frame arrival times for the frames-per-second display, newest last,
/// keeping at most `max_samples`.
pub struct FpsCounter<T> {
    pub frame_times: VecDeque<T>,
    pub max_samples: usize,
}

impl<T> FpsCounter<T> {
    pub fn new(max_samples: usize) -> (c: Self)
        ensures
            c.frame_times@.len() == 0,
            c.max_samples == max_samples,
    {
        FpsCounter { frame_times: VecDeque::new(), max_samples }
    }

    /// Records a frame at time `now`, dropping the oldest samples beyond
    /// `max_samples`.
    pub fn tick_at(&mut self, now: T)
        ensures
            final(self).max_samples == old(self).max_samples,
            final(self).frame_times@ == frames_after_tick(old(self).frame_times@, now, old(self).max_samples as int),
    {
        let ghost all = self.frame_times@.push(now);
        let ghost max = self.max_samples;
        self.frame_times.push_back(now);
        while self.frame_times.len() > self.max_samples
            invariant
                self.max_samples == max,
                self.frame_times@.len() >= self.max_samples || self.frame_times@.len() == all.len(),
                all.len() >= self.frame_times@.len(),
                self.frame_times@ == all.subrange(
                    all.len() - self.frame_times@.len(),
                    all.len() as int,
                ),
            decreases self.frame_times@.len(),
        {
            let _ = self.frame_times.pop_front();
            assert(self.frame_times@ =~= all.subrange(all.len() - self.frame_times@.len(), all.len() as int));
        }
        assert(all.subrange(0, all.len() as int) =~= all);
    }

    /// Number of recorded frame times.
    pub fn sample_count(&self) -> (n: usize)
        ensures
            n == self.frame_times@.len(),
    {
        self.frame_times.len()
    }
}

impl<T: Copy> FpsCounter<T> {
    /// The window a frame rate is measured over: the number of frame
    /// intervals, the oldest and the newest recorded time; `None` while
    /// fewer than two frames are recorded (the rate then reads zero).
    pub fn fps_window(&self) -> (r: Option<(usize, T, T)>)
        ensures
            r is None <==> self.frame_times@.len() < 2,
            r matches Some((intervals, first, last)) ==> {
                &&& intervals + 1 == self.frame_times@.len()
                &&& first == self.frame_times@[0]
                &&& last == self.frame_times@.last()
            },
    {
        let n = self.frame_times.len();
        if n < 2 {
            return None;
        }
        let first = self.frame_times[0];
        let last = self.frame_times[n - 1];
        Some((n - 1, first, last))
    }
}

impl FpsCounter<std::time::Instant> {
    /// Records a frame now.
    pub fn tick(&mut self)
        ensures
            final(self).max_samples == old(self).max_samples,
            exists|now: std::time::Instant|
                final(self).frame_times@ == frames_after_tick(
                    old(self).frame_times@,
                    now,
                    old(self).max_samples as int,
                ),
    {
        let now = instant_now();
        self.tick_at(now);
    }
}

/// Load/activate operation on a profile held by the daemon.
pub enum RemoteProfileLoadState<R> {
    /// No load in progress.
    Idle,
    /// A load request is submitted but its task has not started yet.
    Pending { path: String },
    /// The request is in flight; `rx` will deliver the result.
    Loading { path: String, rx: R },
    /// The load succeeded.
    Succeeded { path: String },
    /// The load failed.
    Failed { path: String, error: String },
}

impl<R> RemoteProfileLoadState<R> {
    /// Whether a load is pending or in flight.
    pub fn is_busy(&self) -> (b: bool)
        ensures
            b == (self is Pending || self is Loading),
    {
        match self {
            RemoteProfileLoadState::Pending { .. } | RemoteProfileLoadState::Loading { .. } => true,
            _ => false,
        }
    }

    /// Status text of an active load; none for idle and finished states.
    pub fn status_message(&self) -> (m: Option<String>)
        ensures
            match self {
                RemoteProfileLoadState::Pending { path } => m matches Some(s) && s@
                    == "Requesting profile: "@ + path@ + "..."@,
                RemoteProfileLoadState::Loading { path, .. } => m matches Some(s) && s@
                    == "Loading profile from daemon: "@ + path@ + "..."@,
                _ => m is None,
            },
    {
        match self {
            RemoteProfileLoadState::Pending { path } => Some(
                concat_text("Requesting profile: ", path.as_str(), "..."),
            ),
            RemoteProfileLoadState::Loading { path, .. } => Some(
                concat_text("Loading profile from daemon: ", path.as_str(), "..."),
            ),
            _ => None,
        }
    }

    /// Whether the load has finished (succeeded or failed).
    pub fn is_terminal(&self) -> (b: bool)
        ensures
            b == (self is Succeeded || self is Failed),
    {
        match self {
            RemoteProfileLoadState::Succeeded { .. } | RemoteProfileLoadState::Failed { .. } => true,
            _ => false,
        }
    }
}

/// Result of an asynchronous parameter load.
pub struct ParamLoadResult<P> {
    pub device_id: String,
    pub params: Vec<P>,
    /// (parameter name, error)
    pub errors: Vec<(String, String)>,
    /// Favourite parameter names.
    pub favorites: Vec<String>,
}

/// Result of an asynchronous parameter set operation.
pub struct ParamSetResult {
    pub device_id: String,
    pub param_name: String,
    pub success: bool,
    pub actual_value: String,
    pub error: Option<String>,
}

} // verus!
