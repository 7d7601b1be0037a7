//! Lifecycle of hardware-timed analog input streaming: starting, stopping,
//! and accepting only the events of the current stream session; and picking
//! the latest complete scan out of interleaved samples.

use vstd::prelude::*;

verus! {

/// Streaming lifecycle state.
#[derive(Debug, Clone, Copy, PartialEq, Eq, Structural)]
pub enum StreamingState {
    Stopped,
    Starting,
    Running,
    Stopping,
}

/// Streaming session bookkeeping of the analog input panel.
pub struct StreamLifecycle {
    pub state: StreamingState,
    /// Counter distinguishing stream sessions; events of older sessions are ignored.
    pub generation: u64,
    /// Channels of the active stream, in ascending order.
    pub channels: Vec<u32>,
    /// Overflow flag of the last accepted batch.
    pub overflow: bool,
    /// Whether an abort signal can still be sent to the stream task.
    pub abort_armed: bool,
}

/// Outcome of a start request.
#[derive(Debug, Clone, Copy, PartialEq, Eq, Structural)]
pub enum StartOutcome {
    /// A stream is starting, running or stopping: nothing happens.
    Busy,
    /// No channel is enabled: report an error.
    NoChannels,
    /// A new session with this generation is starting.
    Started { generation: u64 },
}

/// A stream event as delivered by the stream task.
#[derive(Debug, Clone, Copy, PartialEq, Eq, Structural)]
pub enum StreamEventKind {
    Started,
    Batch { overflow: bool },
    Failed,
    Ended,
}

/// What the panel does with an event.
#[derive(Debug, Clone, Copy, PartialEq, Eq, Structural)]
pub enum EventEffect {
    /// The event belongs to another session, or changes nothing.
    Ignored,
    /// Now streaming: show the streaming status.
    NowRunning,
    /// Apply the batch's readings and clear the error.
    ApplyBatch,
    /// Show the error; the stream is over.
    ShowError,
    /// The stream ended: show so.
    ShowEnded,
}

/// Whether a sequence is in strictly ascending order.
pub open spec fn strictly_ascending(s: Seq<u32>) -> bool {
    forall|i: int, j: int| 0 <= i < j < s.len() ==> s[i] < s[j]
}

/// Channel numbers of the enabled entries of a channel table.
pub open spec fn enabled_set(entries: Seq<(u32, bool)>) -> Set<u32> {
    Set::new(|c: u32| exists|k: int| 0 <= k < entries.len() && entries[k].0 == c && entries[k].1)
}

/// Inserts `c` into an ascending list, keeping it ascending and without repeats.
fn insert_sorted(v: &mut Vec<u32>, c: u32)
    requires
        strictly_ascending(old(v)@),
    ensures
        strictly_ascending(final(v)@),
        final(v)@.to_set() == old(v)@.to_set().insert(c),
{
    let n = v.len();
    let mut i: usize = 0;
    while i < n && v[i] < c
        invariant
            n == v@.len(),
            i <= n,
            forall|q: int| 0 <= q < i ==> v@[q] < c,
        decreases n - i,
    {
        i = i + 1;
    }
    if i < n && v[i] == c {
        assert(old(v)@.to_set().insert(c) =~= old(v)@.to_set());
        return;
    }
    let ghost before = v@;
    v.insert(i, c);
    proof {
        assert(v@ == before.insert(i as int, c));
        assert forall|a: int, b: int| 0 <= a < b < v@.len() implies v@[a] < v@[b] by {
            if b < i {
            } else if a < i && b == i {
            } else if a < i {
                assert(v@[b] == before[b - 1]);
            } else if a == i {
                assert(v@[b] == before[b - 1]);
                assert(before[i as int] >= c);
                assert(before[i as int] != c);
                if b - 1 > i {
                    assert(before[i as int] < before[b - 1]);
                }
            } else {
                assert(v@[a] == before[a - 1]);
                assert(v@[b] == before[b - 1]);
            }
        }
        assert forall|x: u32| v@.to_set().contains(x) <==> before.to_set().insert(c).contains(x) by {
            if v@.to_set().contains(x) {
                let k = choose|k: int| 0 <= k < v@.len() && v@[k] == x;
                if k < i {
                    assert(before[k] == x);
                } else if k > i {
                    assert(before[k - 1] == x);
                }
            }
            if before.to_set().contains(x) {
                let k = choose|k: int| 0 <= k < before.len() && before[k] == x;
                if k < i {
                    assert(v@[k] == x);
                } else {
                    assert(v@[k + 1] == x);
                }
            }
            if x == c {
                assert(v@[i as int] == c);
            }
        }
        assert(v@.to_set() =~= before.to_set().insert(c));
    }
}

/// The enabled channels of a channel table, in ascending order without repeats.
pub fn enabled_channels_sorted(entries: &[(u32, bool)]) -> (chans: Vec<u32>)
    ensures
        strictly_ascending(chans@),
        chans@.to_set() == enabled_set(entries@),
{
    let mut out: Vec<u32> = Vec::new();
    let n = entries.len();
    let mut i: usize = 0;
    assert(out@.to_set() =~= Set::<u32>::empty());
    while i < n
        invariant
            n == entries@.len(),
            i <= n,
            strictly_ascending(out@),
            out@.to_set() == enabled_set(entries@.take(i as int)),
        decreases n - i,
    {
        let (c, enabled) = entries[i];
        let ghost prev = out@.to_set();
        if enabled {
            insert_sorted(&mut out, c);
        }
        proof {
            assert(entries@.take(i + 1).drop_last() =~= entries@.take(i as int));
            assert forall|x: u32| enabled_set(entries@.take(i + 1)).contains(x) <==> (enabled_set(
                entries@.take(i as int),
            ).contains(x) || (enabled && x == c)) by {
                let t1 = entries@.take(i + 1);
                let t0 = entries@.take(i as int);
                if enabled_set(t1).contains(x) {
                    let k = choose|k: int| 0 <= k < t1.len() && t1[k].0 == x && t1[k].1;
                    if k < i {
                        assert(t0[k] == t1[k]);
                    }
                }
                if enabled_set(t0).contains(x) {
                    let k = choose|k: int| 0 <= k < t0.len() && t0[k].0 == x && t0[k].1;
                    assert(t1[k] == t0[k]);
                }
                if enabled && x == c {
                    assert(t1[i as int] == (c, enabled));
                }
            }
            if enabled {
                assert(out@.to_set() == prev.insert(c));
                assert forall|x: u32| out@.to_set().contains(x) == enabled_set(entries@.take(i + 1)).contains(x) by {
                    assert(out@.to_set().contains(x) == (prev.contains(x) || x == c));
                }
                assert(out@.to_set() =~= enabled_set(entries@.take(i + 1)));
            } else {
                assert(out@.to_set() =~= enabled_set(entries@.take(i + 1)));
            }
        }
        i = i + 1;
    }
    assert(entries@.take(n as int) =~= entries@);
    out
}

impl StreamLifecycle {
    /// No stream, generation 0.
    pub fn new() -> (s: Self)
        ensures
            s.state == StreamingState::Stopped,
            s.generation == 0,
            s.channels@.len() == 0,
            !s.overflow,
            !s.abort_armed,
    {
        StreamLifecycle {
            state: StreamingState::Stopped,
            generation: 0,
            channels: Vec::new(),
            overflow: false,
            abort_armed: false,
        }
    }

    /// Requests a stream of the given (ascending) enabled channels. Only a
    /// stopped panel starts one; it then enters `Starting` under a new
    /// generation with the overflow flag cleared.
    pub fn start(&mut self, channels: Vec<u32>) -> (o: StartOutcome)
        requires
            old(self).generation < u64::MAX,
        ensures
            old(self).state != StreamingState::Stopped ==> o == StartOutcome::Busy && final(self).state
                == old(self).state && final(self).generation == old(self).generation && final(self).channels@
                == old(self).channels@,
            old(self).state == StreamingState::Stopped && channels@.len() == 0 ==> o
                == StartOutcome::NoChannels && final(self).state == old(self).state && final(self).generation
                == old(self).generation && final(self).channels@ == old(self).channels@,
            old(self).state == StreamingState::Stopped && channels@.len() > 0 ==> o == (StartOutcome::Started {
                generation: (old(self).generation + 1) as u64,
            }) && final(self).state == StreamingState::Starting && final(self).generation
                == old(self).generation + 1 && final(self).channels@ == channels@ && !final(self).overflow
                && final(self).abort_armed,
    {
        if self.state != StreamingState::Stopped {
            return StartOutcome::Busy;
        }
        if channels.len() == 0 {
            return StartOutcome::NoChannels;
        }
        self.generation = self.generation + 1;
        self.state = StreamingState::Starting;
        self.channels = channels;
        self.overflow = false;
        self.abort_armed = true;
        StartOutcome::Started { generation: self.generation }
    }

    /// Requests the active stream to stop: from `Running` or `Starting` the
    /// panel enters `Stopping`, forgets the channels and returns whether an
    /// abort signal is to be sent; otherwise nothing happens.
    pub fn stop(&mut self) -> (send_abort: bool)
        ensures
            (old(self).state == StreamingState::Running || old(self).state == StreamingState::Starting)
                ==> final(self).state == StreamingState::Stopping && final(self).channels@.len() == 0
                && send_abort == old(self).abort_armed && !final(self).abort_armed,
            !(old(self).state == StreamingState::Running || old(self).state == StreamingState::Starting)
                ==> !send_abort && final(self).state == old(self).state && final(self).channels@
                == old(self).channels@ && final(self).abort_armed == old(self).abort_armed,
            final(self).generation == old(self).generation,
    {
        if !(self.state == StreamingState::Running || self.state == StreamingState::Starting) {
            return false;
        }
        self.state = StreamingState::Stopping;
        self.channels = Vec::new();
        let armed = self.abort_armed;
        self.abort_armed = false;
        armed
    }

    /// Handles an event of stream session `generation`. Events of other
    /// sessions are ignored. A start makes the stream running, a batch records
    /// its overflow flag, a failure stops the stream, and an end stops it
    /// unless it is already stopped.
    pub fn on_event(&mut self, generation: u64, event: StreamEventKind) -> (effect: EventEffect)
        ensures
            final(self).generation == old(self).generation,
            generation != old(self).generation ==> effect == EventEffect::Ignored && final(self).state
                == old(self).state && final(self).channels@ == old(self).channels@ && final(self).overflow
                == old(self).overflow && final(self).abort_armed == old(self).abort_armed,
            generation == old(self).generation ==> match event {
                StreamEventKind::Started => effect == EventEffect::NowRunning && final(self).state
                    == StreamingState::Running && final(self).channels@ == old(self).channels@
                    && final(self).overflow == old(self).overflow && final(self).abort_armed == old(
                    self,
                ).abort_armed,
                StreamEventKind::Batch { overflow } => effect == EventEffect::ApplyBatch && final(self).overflow
                    == overflow && final(self).state == old(self).state && final(self).channels@ == old(
                    self,
                ).channels@ && final(self).abort_armed == old(self).abort_armed,
                StreamEventKind::Failed => effect == EventEffect::ShowError && final(self).state
                    == StreamingState::Stopped && final(self).channels@.len() == 0 && !final(self).abort_armed
                    && final(self).overflow == old(self).overflow,
                StreamEventKind::Ended => if old(self).state != StreamingState::Stopped {
                    effect == EventEffect::ShowEnded && final(self).state == StreamingState::Stopped
                        && final(self).channels@.len() == 0 && !final(self).abort_armed && final(self).overflow
                        == old(self).overflow
                } else {
                    effect == EventEffect::Ignored && final(self).state == old(self).state
                        && final(self).channels@ == old(self).channels@ && final(self).overflow == old(
                        self,
                    ).overflow && final(self).abort_armed == old(self).abort_armed
                },
            },
    {
        if generation != self.generation {
            return EventEffect::Ignored;
        }
        match event {
            StreamEventKind::Started => {
                self.state = StreamingState::Running;
                EventEffect::NowRunning
            },
            StreamEventKind::Batch { overflow } => {
                self.overflow = overflow;
                EventEffect::ApplyBatch
            },
            StreamEventKind::Failed => {
                self.state = StreamingState::Stopped;
                self.abort_armed = false;
                self.channels = Vec::new();
                EventEffect::ShowError
            },
            StreamEventKind::Ended => {
                if self.state != StreamingState::Stopped {
                    self.state = StreamingState::Stopped;
                    self.abort_armed = false;
                    self.channels = Vec::new();
                    EventEffect::ShowEnded
                } else {
                    EventEffect::Ignored
                }
            },
        }
    }
}

/// Start of the last complete scan of `total` interleaved samples over
/// `n_channels` channels.
pub open spec fn last_scan_start(total: int, n_channels: int) -> int {
    (total / n_channels - 1) * n_channels
}

/// The latest voltage of each streamed channel: from interleaved samples
/// `[ch0_s0, ch1_s0, ch0_s1, ch1_s1, ...]`, the values of the last complete
/// scan paired with the channel numbers, as far as the scan reaches. Empty
/// when there is no complete scan.
pub fn de_interleave_latest<T: Copy>(interleaved: &[T], n_channels: usize, channel_numbers: &[u32]) -> (r:
    Vec<(u32, T)>)
    ensures
        (interleaved@.len() == 0 || n_channels == 0 || interleaved@.len() < n_channels) ==> r@.len() == 0,
        (interleaved@.len() > 0 && n_channels > 0 && interleaved@.len() >= n_channels) ==> {
            let start = last_scan_start(interleaved@.len() as int, n_channels as int);
            &&& r@.len() == (if channel_numbers@.len() < interleaved@.len() - start {
                channel_numbers@.len() as int
            } else {
                interleaved@.len() - start
            })
            &&& forall|i: int|
                0 <= i < r@.len() ==> #[trigger] r@[i] == (channel_numbers@[i], interleaved@[start + i])
        },
{
    let total = interleaved.len();
    if total == 0 || n_channels == 0 {
        return Vec::new();
    }
    let n_scans = total / n_channels;
    proof {
        if total >= n_channels {
            assert(total / n_channels >= 1) by (nonlinear_arith)
                requires
                    total >= n_channels,
                    n_channels >= 1,
            ;
        }
    }
    if n_scans == 0 {
        return Vec::new();
    }
    proof {
        vstd::arithmetic::div_mod::lemma_fundamental_div_mod(total as int, n_channels as int);
        assert((n_scans - 1) * n_channels <= n_scans * n_channels) by (nonlinear_arith)
            requires
                n_scans >= 1,
                n_channels >= 1,
        ;
        assert(n_scans * n_channels <= total) by (nonlinear_arith)
            requires
                n_scans == total / n_channels,
                n_channels >= 1,
        ;
        assert((n_scans - 1) * n_channels == n_scans * n_channels - n_channels) by (nonlinear_arith);
    }
    let start = (n_scans - 1) * n_channels;
    let mut out: Vec<(u32, T)> = Vec::new();
    let m = channel_numbers.len();
    let mut idx: usize = 0;
    while idx < m && start + idx < total
        invariant
            start <= total,
            start == last_scan_start(total as int, n_channels as int),
            total == interleaved@.len(),
            m == channel_numbers@.len(),
            idx <= m,
            idx <= total - start,
            out@.len() == idx,
            forall|i: int| 0 <= i < idx ==> #[trigger] out@[i] == (channel_numbers@[i], interleaved@[start + i]),
        decreases m - idx,
    {
        out.push((channel_numbers[idx], interleaved[start + idx]));
        idx = idx + 1;
    }
    out
}

} // verus!
