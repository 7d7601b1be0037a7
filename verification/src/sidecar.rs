//! Decisions of the echelle extraction sidecar runner: the retry schedule
//! with exponential backoff, the consecutive-failure circuit breaker, and how
//! the sidecar's output lines are read. Durations are in nanoseconds.

use vstd::prelude::*;
use crate::text::{trim_str, trimmed};

verus! {

#[verifier::external_type_specification]
#[verifier::external_body]
pub struct ExJsonValue(serde_json::Value);

#[verifier::external_type_specification]
#[verifier::external_body]
pub struct ExJsonError(serde_json::Error);

#[verifier::external_type_specification]
#[verifier::external_body]
pub struct ExIoError(std::io::Error);

/// Whether a text is one complete JSON document, as `serde_json` reads it.
pub uninterp spec fn json_text_is_valid(text: Seq<char>) -> bool;

/// The JSON value that `serde_json` reads from a valid text.
pub uninterp spec fn json_parse_value(text: Seq<char>) -> serde_json::Value;

/// `serde_json::from_str::<Value>`: succeeds exactly on valid JSON text,
/// with the value read from it.
#[verifier::external_body]
fn parse_json(text: &str) -> (r: Result<serde_json::Value, serde_json::Error>)
    ensures
        r is Ok <==> json_text_is_valid(text@),
        r matches Ok(v) ==> v == json_parse_value(text@),
{
    serde_json::from_str::<serde_json::Value>(text)
}

#[verifier::external_type_specification]
#[verifier::external_body]
pub struct ExSystemTime(std::time::SystemTime);

/// The boolean stored under `key` in a JSON object: `Some(b)` when the
/// entry is `Bool(b)`, `None` when there is no such entry, the entry is not
/// a boolean, or the value is not an object.
pub uninterp spec fn json_bool_field(v: serde_json::Value, key: Seq<char>) -> Option<bool>;

/// `Value::get(key)`, keeping the entry only when it is a JSON boolean.
#[verifier::external_body]
fn json_field_bool(v: &serde_json::Value, key: &str) -> (r: Option<bool>)
    ensures
        r == json_bool_field(*v, key@),
{
    match v.get(key) {
        Some(serde_json::Value::Bool(b)) => Some(*b),
        _ => None,
    }
}

/// `SystemTime::now()`. Nothing is stated of the result, which is the clock.
#[verifier::external_body]
fn system_time_now() -> std::time::SystemTime {
    std::time::SystemTime::now()
}

/// The time from the Unix epoch to `t`; `None` for a time before it.
pub uninterp spec fn since_unix_epoch(t: std::time::SystemTime) -> Option<core::time::Duration>;

/// `SystemTime::duration_since(UNIX_EPOCH)`, its error mapped to `None`.
#[verifier::external_body]
fn duration_since_unix_epoch(t: &std::time::SystemTime) -> (r: Option<core::time::Duration>)
    ensures
        r == since_unix_epoch(*t),
{
    match t.duration_since(std::time::UNIX_EPOCH) {
        Ok(d) => Some(d),
        Err(_) => None,
    }
}

/// Whole milliseconds of a duration.
pub uninterp spec fn duration_millis(d: core::time::Duration) -> u128;

/// `Duration::as_millis`.
#[verifier::external_body]
fn duration_as_millis(d: core::time::Duration) -> (ms: u128)
    ensures
        ms == duration_millis(d),
{
    d.as_millis()
}

/// Largest `std::time::Duration`, in nanoseconds.
pub open spec fn duration_max_nanos() -> int {
    18446744073709551615999999999
}

/// Configuration for sidecar retry and circuit breaker behavior.
#[derive(Debug, Clone, Copy, PartialEq, Eq, Structural)]
pub struct SidecarConfig {
    /// Maximum retry attempts per request (0 = no retries).
    pub max_retries: u32,
    /// Initial backoff delay between retries.
    pub initial_backoff_nanos: u128,
    /// Maximum backoff delay (caps exponential growth).
    pub max_backoff_nanos: u128,
    /// Consecutive failures before the circuit breaker opens.
    pub circuit_breaker_threshold: u32,
    /// Cooldown while the circuit is open before a probe request is let through.
    pub circuit_breaker_cooldown_nanos: u128,
}

/// The default configuration: two retries, backoff from 100 ms up to 5 s,
/// breaker opening after 5 consecutive failures with a 30 s cooldown.
pub open spec fn default_sidecar_config() -> SidecarConfig {
    SidecarConfig {
        max_retries: 2,
        initial_backoff_nanos: 100_000_000,
        max_backoff_nanos: 5_000_000_000,
        circuit_breaker_threshold: 5,
        circuit_breaker_cooldown_nanos: 30_000_000_000,
    }
}

impl Default for SidecarConfig {
    fn default() -> (c: Self)
        ensures
            c == default_sidecar_config(),
    {
        SidecarConfig {
            max_retries: 2,
            initial_backoff_nanos: 100_000_000,
            max_backoff_nanos: 5_000_000_000,
            circuit_breaker_threshold: 5,
            circuit_breaker_cooldown_nanos: 30_000_000_000,
        }
    }
}

/// Failure state of the circuit breaker.
#[derive(Debug, Clone, Copy, PartialEq, Eq, Structural)]
pub struct BreakerState {
    /// Consecutive failed attempts.
    pub consecutive_failures: u32,
    /// Clock reading (wrapping epoch milliseconds) when the circuit opened; 0 = closed.
    pub circuit_opened_at_ms: u32,
}

/// An output line of the sidecar's standard error.
#[derive(Debug)]
pub enum SidecarLogEvent {
    Structured(serde_json::Value),
    Text(String),
}

/// Why a sidecar request failed.
#[derive(Debug)]
pub enum SidecarRunnerError {
    Spawn { program: String, source: std::io::Error },
    MissingPipes,
    StdinWrite(std::io::Error),
    StdoutRead(std::io::Error),
    EmptyResponse,
    InvalidJson(serde_json::Error),
    Timeout { timeout_ms: u64 },
    Kill(std::io::Error),
    /// The circuit breaker is open: too many consecutive failures.
    CircuitOpen { consecutive_failures: u32, cooldown_remaining_nanos: u128 },
    /// All retry attempts failed.
    RetriesExhausted { attempts: u32, last_error: Box<SidecarRunnerError> },
}

/// Verdict of the circuit breaker at clock reading `now_ms`: `None` lets the
/// request through, `Some(remaining)` rejects it with the cooldown left.
/// Requests pass while the failures are below the threshold, while no opening
/// time is recorded, and once the cooldown has elapsed (half-open probe).
pub open spec fn breaker_verdict(state: BreakerState, config: SidecarConfig, now_ms: u32) -> Option<int> {
    if state.consecutive_failures < config.circuit_breaker_threshold {
        None
    } else if state.circuit_opened_at_ms == 0 {
        None
    } else {
        let elapsed_ms: int = if now_ms >= state.circuit_opened_at_ms {
            now_ms - state.circuit_opened_at_ms
        } else {
            0
        };
        let elapsed = elapsed_ms * 1_000_000;
        if elapsed >= config.circuit_breaker_cooldown_nanos {
            None
        } else {
            Some(config.circuit_breaker_cooldown_nanos - elapsed)
        }
    }
}

/// Breaker state after a failed attempt at clock reading `now_ms`.
pub open spec fn after_failure_state(state: BreakerState, config: SidecarConfig, now_ms: u32) -> BreakerState {
    let failures = state.consecutive_failures + 1;
    BreakerState {
        consecutive_failures: failures as u32,
        circuit_opened_at_ms: if failures >= config.circuit_breaker_threshold
            && state.circuit_opened_at_ms == 0 {
            now_ms
        } else {
            state.circuit_opened_at_ms
        },
    }
}

/// Epoch milliseconds of a clock reading, truncated to `u32` (wrapping
/// about every 49 days): 0 for a time before the epoch.
pub open spec fn epoch_millis_of(t: std::time::SystemTime) -> int {
    match since_unix_epoch(t) {
        Some(d) => duration_millis(d) as int % 0x1_0000_0000,
        None => 0,
    }
}

/// Truncated epoch milliseconds of the current clock reading.
fn epoch_millis_u32() -> (ms: u32)
    ensures
        exists|t: std::time::SystemTime| ms == epoch_millis_of(t),
{
    let now = system_time_now();
    let ms: u32 = match duration_since_unix_epoch(&now) {
        Some(d) => {
            let millis = duration_as_millis(d);
            (millis % 0x1_0000_0000u128) as u32
        },
        None => 0,
    };
    assert(ms == epoch_millis_of(now));
    ms
}

/// Progress of one request through its attempts.
#[derive(Debug, Clone, Copy, PartialEq, Eq, Structural)]
pub struct RetrySession {
    pub attempts_made: u32,
    pub max_attempts: u32,
    /// Delay before the next retry.
    pub backoff_nanos: u128,
    pub max_backoff_nanos: u128,
}

/// What to do after a failed attempt.
#[derive(Debug, Clone, Copy, PartialEq, Eq, Structural)]
pub enum RetryDecision {
    /// Sleep this long, then make the next attempt.
    SleepThenRetry { sleep_nanos: u128 },
    /// Stop: report `RetriesExhausted` with this many attempts.
    GiveUp { attempts: u32 },
}

/// Session state and decision after one more failed attempt.
pub open spec fn retry_step(s: RetrySession) -> (RetrySession, RetryDecision) {
    let made = s.attempts_made + 1;
    if made >= s.max_attempts {
        (
            RetrySession { attempts_made: made as u32, ..s },
            RetryDecision::GiveUp { attempts: s.max_attempts },
        )
    } else {
        let doubled = 2 * s.backoff_nanos;
        let next = if doubled < s.max_backoff_nanos {
            doubled
        } else {
            s.max_backoff_nanos as int
        };
        (
            RetrySession { attempts_made: made as u32, backoff_nanos: next as u128, ..s },
            RetryDecision::SleepThenRetry { sleep_nanos: s.backoff_nanos },
        )
    }
}

impl RetrySession {
    /// Records a failed attempt and decides whether to retry. The delay
    /// handed out doubles after each retry, capped at the maximum backoff.
    pub fn after_failure(&mut self) -> (d: RetryDecision)
        requires
            old(self).attempts_made < old(self).max_attempts,
            old(self).attempts_made + 1 < old(self).max_attempts ==> 2 * old(self).backoff_nanos
                <= duration_max_nanos(),
        ensures
            (*final(self), d) == retry_step(*old(self)),
    {
        let made = self.attempts_made + 1;
        self.attempts_made = made;
        if made >= self.max_attempts {
            RetryDecision::GiveUp { attempts: self.max_attempts }
        } else {
            let sleep = self.backoff_nanos;
            let doubled = sleep * 2;
            self.backoff_nanos = if doubled < self.max_backoff_nanos {
                doubled
            } else {
                self.max_backoff_nanos
            };
            RetryDecision::SleepThenRetry { sleep_nanos: sleep }
        }
    }
}

/// Reads the response line of a sidecar: blank (after trimming) is
/// `EmptyResponse`, otherwise the trimmed text must be valid JSON.
pub fn interpret_response_line(line: &str) -> (r: Result<serde_json::Value, SidecarRunnerError>)
    ensures
        trimmed(line@).len() == 0 <==> r matches Err(SidecarRunnerError::EmptyResponse),
        trimmed(line@).len() != 0 ==> (r is Ok <==> json_text_is_valid(trimmed(line@))),
        r matches Ok(v) ==> v == json_parse_value(trimmed(line@)),
        trimmed(line@).len() != 0 && !json_text_is_valid(trimmed(line@)) ==> r matches Err(
            SidecarRunnerError::InvalidJson(_),
        ),
{
    let t = trim_str(line);
    if t.is_empty() {
        return Err(SidecarRunnerError::EmptyResponse);
    }
    match parse_json(t) {
        Ok(v) => Ok(v),
        Err(e) => Err(SidecarRunnerError::InvalidJson(e)),
    }
}

/// Whether an event records a standard-error line: valid JSON (after
/// trimming) is kept structured, anything else as the original text.
pub open spec fn event_records_line(line: Seq<char>, ev: SidecarLogEvent) -> bool {
    match ev {
        SidecarLogEvent::Structured(v) => json_text_is_valid(trimmed(line)) && v == json_parse_value(trimmed(line)),
        SidecarLogEvent::Text(s) => s@ == line && !json_text_is_valid(trimmed(line)),
    }
}

/// The lines that are not blank after trimming.
pub open spec fn nonblank_lines(lines: Seq<Seq<char>>) -> Seq<Seq<char>>
    decreases lines.len(),
{
    if lines.len() == 0 {
        seq![]
    } else if trimmed(lines.last()).len() == 0 {
        nonblank_lines(lines.drop_last())
    } else {
        nonblank_lines(lines.drop_last()).push(lines.last())
    }
}

/// Turns the sidecar's standard-error lines into log events, skipping
/// blank lines and keeping the order.
pub fn read_stderr_events(lines: Vec<String>) -> (events: Vec<SidecarLogEvent>)
    ensures
        events@.len() == nonblank_lines(lines@.map_values(|s: String| s@)).len(),
        forall|i: int|
            0 <= i < events@.len() ==> event_records_line(
                nonblank_lines(lines@.map_values(|s: String| s@))[i],
                #[trigger] events@[i],
            ),
{
    let ghost views = lines@.map_values(|s: String| s@);
    let mut events: Vec<SidecarLogEvent> = Vec::new();
    let n = lines.len();
    let mut i: usize = 0;
    assert(views.take(0) =~= Seq::<Seq<char>>::empty());
    while i < n
        invariant
            n == lines@.len(),
            views == lines@.map_values(|s: String| s@),
            i <= n,
            events@.len() == nonblank_lines(views.take(i as int)).len(),
            forall|q: int|
                0 <= q < events@.len() ==> event_records_line(
                    nonblank_lines(views.take(i as int))[q],
                    #[trigger] events@[q],
                ),
        decreases n - i,
    {
        let line = &lines[i];
        assert(views.take(i + 1).drop_last() =~= views.take(i as int));
        assert(views.take(i + 1).last() == line@);
        let t = trim_str(line.as_str());
        if !t.is_empty() {
            let ev = match parse_json(t) {
                Ok(v) => SidecarLogEvent::Structured(v),
                Err(_) => SidecarLogEvent::Text(line.clone()),
            };
            events.push(ev);
        }
        i = i + 1;
    }
    assert(views.take(n as int) =~= views);
    events
}

/// Sidecar runner: the program to run for each request, its timeout and
/// retry configuration, and the circuit breaker shared by its requests.
pub struct EchelleSidecarRunner {
    pub program: String,
    pub args: Vec<String>,
    pub timeout_nanos: u128,
    pub config: SidecarConfig,
    pub breaker: BreakerState,
}

impl EchelleSidecarRunner {
    /// A runner with a 2 s timeout, the default configuration and a closed breaker.
    pub fn new(program: String, args: Vec<String>) -> (r: Self)
        ensures
            r.program == program,
            r.args == args,
            r.timeout_nanos == 2_000_000_000,
            r.config == default_sidecar_config(),
            r.breaker == (BreakerState { consecutive_failures: 0, circuit_opened_at_ms: 0 }),
    {
        EchelleSidecarRunner {
            program,
            args,
            timeout_nanos: 2_000_000_000,
            config: SidecarConfig::default(),
            breaker: BreakerState { consecutive_failures: 0, circuit_opened_at_ms: 0 },
        }
    }

    /// The same runner with another timeout.
    pub fn with_timeout(self, timeout_nanos: u128) -> (r: Self)
        ensures
            r == (Self { timeout_nanos, ..self }),
    {
        EchelleSidecarRunner { timeout_nanos, ..self }
    }

    /// The same runner with another retry/breaker configuration.
    pub fn with_config(self, config: SidecarConfig) -> (r: Self)
        ensures
            r == (Self { config, ..self }),
    {
        EchelleSidecarRunner { config, ..self }
    }

    /// Timeout in whole milliseconds, as reported in `Timeout` errors.
    pub fn timeout_millis(&self) -> (ms: u64)
        ensures
            ms as int == (self.timeout_nanos / 1_000_000) % 0x1_0000_0000_0000_0000,
    {
        ((self.timeout_nanos / 1_000_000) % 0x1_0000_0000_0000_0000u128) as u64
    }

    /// Current consecutive failure count.
    pub fn consecutive_failures(&self) -> (n: u32)
        ensures
            n == self.breaker.consecutive_failures,
    {
        self.breaker.consecutive_failures
    }

    /// Circuit breaker check at clock reading `now_ms`.
    pub fn check_circuit_breaker_at(&self, now_ms: u32) -> (r: Result<(), SidecarRunnerError>)
        ensures
            breaker_verdict(self.breaker, self.config, now_ms) is None <==> r is Ok,
            breaker_verdict(self.breaker, self.config, now_ms) matches Some(rem) ==> r matches Err(
                SidecarRunnerError::CircuitOpen { consecutive_failures, cooldown_remaining_nanos },
            ) && consecutive_failures == self.breaker.consecutive_failures
                && cooldown_remaining_nanos == rem,
    {
        let failures = self.breaker.consecutive_failures;
        if failures < self.config.circuit_breaker_threshold {
            return Ok(());
        }
        let opened_at = self.breaker.circuit_opened_at_ms;
        if opened_at == 0 {
            return Ok(());
        }
        let elapsed_ms: u32 = if now_ms >= opened_at { now_ms - opened_at } else { 0 };
        let elapsed: u128 = (elapsed_ms as u128) * 1_000_000;
        if elapsed >= self.config.circuit_breaker_cooldown_nanos {
            return Ok(());
        }
        Err(SidecarRunnerError::CircuitOpen {
            consecutive_failures: failures,
            cooldown_remaining_nanos: self.config.circuit_breaker_cooldown_nanos - elapsed,
        })
    }

    /// Circuit breaker check against the current clock.
    pub fn check_circuit_breaker(&self) -> (r: Result<(), SidecarRunnerError>)
        ensures
            exists|now: u32|
                {
                    &&& (breaker_verdict(self.breaker, self.config, now) is None <==> r is Ok)
                    &&& (breaker_verdict(self.breaker, self.config, now) matches Some(rem) ==> r matches Err(
                        SidecarRunnerError::CircuitOpen { consecutive_failures, cooldown_remaining_nanos },
                    ) && consecutive_failures == self.breaker.consecutive_failures
                        && cooldown_remaining_nanos == rem)
                },
            self.breaker.consecutive_failures < self.config.circuit_breaker_threshold ==> r is Ok,
            self.breaker.circuit_opened_at_ms == 0 ==> r is Ok,
    {
        let now = epoch_millis_u32();
        self.check_circuit_breaker_at(now)
    }

    /// A successful request closes the breaker.
    pub fn record_success(&mut self)
        ensures
            final(self).breaker == (BreakerState { consecutive_failures: 0, circuit_opened_at_ms: 0 }),
            final(self).config == old(self).config,
            final(self).timeout_nanos == old(self).timeout_nanos,
            final(self).program == old(self).program,
            final(self).args == old(self).args,
    {
        self.breaker = BreakerState { consecutive_failures: 0, circuit_opened_at_ms: 0 };
    }

    /// Counts a failed attempt at clock reading `now_ms`; reaching the
    /// threshold opens the circuit at `now_ms` unless it is already open.
    pub fn record_failure_at(&mut self, now_ms: u32)
        requires
            old(self).breaker.consecutive_failures < u32::MAX,
        ensures
            final(self).breaker == after_failure_state(old(self).breaker, old(self).config, now_ms),
            final(self).config == old(self).config,
            final(self).timeout_nanos == old(self).timeout_nanos,
            final(self).program == old(self).program,
            final(self).args == old(self).args,
    {
        let failures = self.breaker.consecutive_failures + 1;
        self.breaker.consecutive_failures = failures;
        if failures >= self.config.circuit_breaker_threshold && self.breaker.circuit_opened_at_ms == 0 {
            self.breaker.circuit_opened_at_ms = now_ms;
        }
    }

    /// Counts a failed attempt at the current clock reading.
    pub fn record_failure(&mut self)
        requires
            old(self).breaker.consecutive_failures < u32::MAX,
        ensures
            exists|now: u32| final(self).breaker == after_failure_state(old(self).breaker, old(self).config, now),
            final(self).config == old(self).config,
            final(self).timeout_nanos == old(self).timeout_nanos,
            final(self).program == old(self).program,
            final(self).args == old(self).args,
    {
        let now = epoch_millis_u32();
        self.record_failure_at(now);
    }

    /// Starts a request at clock reading `now_ms`: rejected while the circuit
    /// is open, otherwise a fresh session of `max_retries + 1` attempts.
    pub fn begin_request_at(&self, now_ms: u32) -> (r: Result<RetrySession, SidecarRunnerError>)
        requires
            self.config.max_retries < u32::MAX,
        ensures
            breaker_verdict(self.breaker, self.config, now_ms) is None <==> r is Ok,
            r matches Ok(s) ==> s == (RetrySession {
                attempts_made: 0,
                max_attempts: (self.config.max_retries + 1) as u32,
                backoff_nanos: self.config.initial_backoff_nanos,
                max_backoff_nanos: self.config.max_backoff_nanos,
            }),
            breaker_verdict(self.breaker, self.config, now_ms) matches Some(rem) ==> r matches Err(
                SidecarRunnerError::CircuitOpen { consecutive_failures, cooldown_remaining_nanos },
            ) && consecutive_failures == self.breaker.consecutive_failures
                && cooldown_remaining_nanos == rem,
    {
        match self.check_circuit_breaker_at(now_ms) {
            Err(e) => Err(e),
            Ok(()) => Ok(RetrySession {
                attempts_made: 0,
                max_attempts: self.config.max_retries + 1,
                backoff_nanos: self.config.initial_backoff_nanos,
                max_backoff_nanos: self.config.max_backoff_nanos,
            }),
        }
    }

    /// Starts a request at the current clock reading.
    pub fn begin_request(&self) -> (r: Result<RetrySession, SidecarRunnerError>)
        requires
            self.config.max_retries < u32::MAX,
        ensures
            exists|now: u32|
                {
                    &&& (breaker_verdict(self.breaker, self.config, now) is None <==> r is Ok)
                    &&& (breaker_verdict(self.breaker, self.config, now) matches Some(rem) ==> r matches Err(
                        SidecarRunnerError::CircuitOpen { consecutive_failures, cooldown_remaining_nanos },
                    ) && consecutive_failures == self.breaker.consecutive_failures
                        && cooldown_remaining_nanos == rem)
                },
            r matches Ok(s) ==> s == (RetrySession {
                attempts_made: 0,
                max_attempts: (self.config.max_retries + 1) as u32,
                backoff_nanos: self.config.initial_backoff_nanos,
                max_backoff_nanos: self.config.max_backoff_nanos,
            }),
            self.breaker.consecutive_failures < self.config.circuit_breaker_threshold ==> r is Ok,
    {
        let now = epoch_millis_u32();
        self.begin_request_at(now)
    }

    /// Reads a health-check response: it must carry `"ok": true`, else the
    /// check fails with `EmptyResponse`.
    pub fn check_health_response(response: &serde_json::Value) -> (r: Result<(), SidecarRunnerError>)
        ensures
            r is Ok <==> json_bool_field(*response, "ok"@) == Some(true),
            r is Err ==> r matches Err(SidecarRunnerError::EmptyResponse),
    {
        let flag = json_field_bool(response, "ok");
        let ok = match flag {
            Some(b) => b,
            None => false,
        };
        health_verdict(ok)
    }
}

/// Verdict on a health-check response given whether it carries
/// `"ok": true`: accepted exactly then, else `EmptyResponse`.
pub fn health_verdict(ok_flag: bool) -> (r: Result<(), SidecarRunnerError>)
    ensures
        r is Ok <==> ok_flag,
        !ok_flag ==> r matches Err(SidecarRunnerError::EmptyResponse),
{
    if ok_flag {
        Ok(())
    } else {
        Err(SidecarRunnerError::EmptyResponse)
    }
}


/// Session after `k` more failed attempts.
pub open spec fn session_after(s: RetrySession, k: nat) -> RetrySession
    decreases k,
{
    if k == 0 {
        s
    } else {
        retry_step(session_after(s, (k - 1) as nat)).0
    }
}

/// Decision taken after failed attempt number `k` (counting from 1).
pub open spec fn decision_after(s: RetrySession, k: nat) -> RetryDecision
    recommends
        k >= 1,
{
    retry_step(session_after(s, (k - 1) as nat)).1
}

/// Delay before retry number `k` (counting from 1): the initial backoff,
/// then doubled each time and capped at the maximum.
pub open spec fn backoff_before_retry(initial: int, max: int, k: nat) -> int
    decreases k,
{
    if k <= 1 {
        initial
    } else {
        let prev = backoff_before_retry(initial, max, (k - 1) as nat);
        if 2 * prev < max {
            2 * prev
        } else {
            max
        }
    }
}

/// A session that starts with no attempt made.
pub open spec fn fresh_session(s: RetrySession) -> bool {
    s.attempts_made == 0 && s.max_attempts >= 1
}

/// Retry schedule of a request whose attempts all fail: after each of the
/// first `max_attempts - 1` failures the runner sleeps for the doubling,
/// capped backoff and retries; after failure number `max_attempts` it gives
/// up and reports exactly `max_attempts` attempts.
pub proof fn law_all_failures_exhaust_retries(s: RetrySession, k: nat)
    requires
        fresh_session(s),
        1 <= k <= s.max_attempts,
    ensures
        session_after(s, k).attempts_made == k,
        session_after(s, k).max_attempts == s.max_attempts,
        session_after(s, k).max_backoff_nanos == s.max_backoff_nanos,
        k < s.max_attempts ==> decision_after(s, k) == (RetryDecision::SleepThenRetry {
            sleep_nanos: backoff_before_retry(
                s.backoff_nanos as int,
                s.max_backoff_nanos as int,
                k,
            ) as u128,
        }),
        k < s.max_attempts ==> session_after(s, k).backoff_nanos == backoff_before_retry(
            s.backoff_nanos as int,
            s.max_backoff_nanos as int,
            k + 1,
        ),
        k == s.max_attempts ==> decision_after(s, k) == (RetryDecision::GiveUp {
            attempts: s.max_attempts,
        }),
    decreases k,
{
    assert(backoff_before_retry(s.backoff_nanos as int, s.max_backoff_nanos as int, 1) == s.backoff_nanos);
    if k == 1 {
        assert(session_after(s, 0) == s);
        assert(session_after(s, 1) == retry_step(s).0);
    } else {
        law_all_failures_exhaust_retries(s, (k - 1) as nat);
        assert(session_after(s, k) == retry_step(session_after(s, (k - 1) as nat)).0);
    }
}

/// Closed form of the backoff schedule: before retry `k >= 2` the delay is
/// `min(initial * 2^(k-1), max)`.
pub proof fn law_backoff_closed_form(initial: int, max: int, k: nat)
    requires
        initial >= 0,
        max >= 0,
        k >= 2,
    ensures
        backoff_before_retry(initial, max, k) == (if initial * vstd::arithmetic::power2::pow2(
            (k - 1) as nat,
        ) < max {
            initial * vstd::arithmetic::power2::pow2((k - 1) as nat)
        } else {
            max
        }),
    decreases k,
{
    vstd::arithmetic::power2::lemma_pow2_unfold((k - 1) as nat);
    assert(backoff_before_retry(initial, max, 1) == initial);
    if k == 2 {
        vstd::arithmetic::power2::lemma2_to64();
        let p1 = vstd::arithmetic::power2::pow2(1);
        assert(initial * p1 == 2 * initial) by (nonlinear_arith)
            requires
                p1 == 2,
        ;
    } else {
        law_backoff_closed_form(initial, max, (k - 1) as nat);
        let p = vstd::arithmetic::power2::pow2((k - 2) as nat);
        assert(initial * (2 * p) == 2 * (initial * p)) by (nonlinear_arith);
    }
}

/// Breaker state after a run of failed attempts at the given clock readings.
pub open spec fn after_failures(s: BreakerState, c: SidecarConfig, times: Seq<u32>) -> BreakerState
    decreases times.len(),
{
    if times.len() == 0 {
        s
    } else {
        after_failure_state(after_failures(s, c, times.drop_last()), c, times.last())
    }
}

/// The closed breaker.
pub open spec fn closed_breaker() -> BreakerState {
    BreakerState { consecutive_failures: 0, circuit_opened_at_ms: 0 }
}

/// A closed breaker lets every request through.
pub proof fn law_closed_breaker_admits(c: SidecarConfig, now: u32)
    ensures
        breaker_verdict(closed_breaker(), c, now) is None,
{
}

/// Fewer consecutive failures than the threshold never block a request.
pub proof fn law_below_threshold_admits(s: BreakerState, c: SidecarConfig, now: u32)
    requires
        s.consecutive_failures < c.circuit_breaker_threshold,
    ensures
        breaker_verdict(s, c, now) is None,
{
}

/// Once the cooldown has elapsed since the circuit opened, a probe request
/// is let through (half-open).
pub proof fn law_cooldown_elapsed_admits(s: BreakerState, c: SidecarConfig, now: u32)
    requires
        now >= s.circuit_opened_at_ms,
        (now - s.circuit_opened_at_ms) * 1_000_000 >= c.circuit_breaker_cooldown_nanos,
    ensures
        breaker_verdict(s, c, now) is None,
{
}

/// Counting failures from a closed breaker: before the threshold the circuit
/// stays closed; the failure that reaches the threshold opens it at its own
/// clock reading.
pub proof fn law_failures_from_closed(c: SidecarConfig, times: Seq<u32>)
    requires
        times.len() <= c.circuit_breaker_threshold,
    ensures
        after_failures(closed_breaker(), c, times).consecutive_failures == times.len(),
        times.len() < c.circuit_breaker_threshold ==> after_failures(
            closed_breaker(),
            c,
            times,
        ).circuit_opened_at_ms == 0,
        times.len() == c.circuit_breaker_threshold && times.len() > 0 ==> after_failures(
            closed_breaker(),
            c,
            times,
        ).circuit_opened_at_ms == times.last(),
    decreases times.len(),
{
    if times.len() > 0 {
        law_failures_from_closed(c, times.drop_last());
    }
}

/// After `threshold` consecutive failures from a closed breaker, a request
/// within the cooldown is rejected as `CircuitOpen`, with the cooldown that
/// remains since the opening failure (whose clock reading is not 0).
pub proof fn law_threshold_failures_open_circuit(c: SidecarConfig, times: Seq<u32>, now: u32)
    requires
        c.circuit_breaker_threshold >= 1,
        times.len() == c.circuit_breaker_threshold,
        times.last() != 0,
        now >= times.last(),
        (now - times.last()) * 1_000_000 < c.circuit_breaker_cooldown_nanos,
    ensures
        breaker_verdict(after_failures(closed_breaker(), c, times), c, now) == Some(
            c.circuit_breaker_cooldown_nanos - (now - times.last()) * 1_000_000,
        ),
{
    law_failures_from_closed(c, times);
}

/// After a success (which closes the breaker) requests keep being admitted
/// until `threshold` further consecutive failures have been counted.
pub proof fn law_success_restarts_count(c: SidecarConfig, times: Seq<u32>, now: u32)
    requires
        times.len() < c.circuit_breaker_threshold,
    ensures
        breaker_verdict(after_failures(closed_breaker(), c, times), c, now) is None,
{
    law_failures_from_closed(c, times);
}

} // verus!
