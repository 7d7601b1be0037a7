use daq_viewer::profile_cache::{EchelleProfileCache, EchelleProfileCacheEvent, PollStep};
use daq_viewer::sidecar::{
    interpret_response_line, read_stderr_events, BreakerState, EchelleSidecarRunner, RetryDecision,
    SidecarConfig, SidecarLogEvent, SidecarRunnerError,
};

const MS: u128 = 1_000_000;

fn runner(config: SidecarConfig) -> EchelleSidecarRunner {
    EchelleSidecarRunner::new("/bin/sh".to_string(), vec!["-c".to_string(), "exit 1".to_string()])
        .with_timeout(1000 * MS)
        .with_config(config)
}

/// Runs one request whose every attempt fails, at clock reading `now`:
/// the breaker is checked, each failure is counted, and the session decides.
fn failing_request(r: &mut EchelleSidecarRunner, now: u32) -> Result<(), SidecarRunnerError> {
    let mut session = r.begin_request_at(now)?;
    loop {
        r.record_failure_at(now);
        match session.after_failure() {
            RetryDecision::SleepThenRetry { .. } => continue,
            RetryDecision::GiveUp { attempts } => {
                return Err(SidecarRunnerError::RetriesExhausted {
                    attempts,
                    last_error: Box::new(SidecarRunnerError::EmptyResponse),
                })
            }
        }
    }
}

#[test]
fn retries_on_transient_failure() {
    let mut r = runner(SidecarConfig {
        max_retries: 2,
        initial_backoff_nanos: 10 * MS,
        max_backoff_nanos: 50 * MS,
        ..SidecarConfig::default()
    });
    let err = failing_request(&mut r, 1000).unwrap_err();
    assert!(
        matches!(err, SidecarRunnerError::RetriesExhausted { attempts: 3, .. }),
        "expected RetriesExhausted with 3 attempts"
    );
}

#[test]
fn backoff_doubles_and_caps() {
    let r = runner(SidecarConfig {
        max_retries: 4,
        initial_backoff_nanos: 10 * MS,
        max_backoff_nanos: 50 * MS,
        ..SidecarConfig::default()
    });
    let mut s = r.begin_request_at(5).unwrap();
    assert_eq!(s.max_attempts, 5);
    let mut sleeps = Vec::new();
    loop {
        match s.after_failure() {
            RetryDecision::SleepThenRetry { sleep_nanos } => sleeps.push(sleep_nanos / MS),
            RetryDecision::GiveUp { attempts } => {
                assert_eq!(attempts, 5);
                break;
            }
        }
    }
    assert_eq!(sleeps, vec![10, 20, 40, 50]);
}

#[test]
fn circuit_breaker_opens_after_threshold() {
    let mut r = runner(SidecarConfig {
        max_retries: 0,
        circuit_breaker_threshold: 3,
        circuit_breaker_cooldown_nanos: 60_000 * MS,
        ..SidecarConfig::default()
    });
    for _ in 0..3 {
        let _ = failing_request(&mut r, 1000);
    }

    assert!(r.consecutive_failures() >= 3);

    let err = failing_request(&mut r, 1500).unwrap_err();
    assert!(matches!(err, SidecarRunnerError::CircuitOpen { .. }), "expected CircuitOpen");
}

#[test]
fn open_circuit_reports_remaining_cooldown_and_probes_after_it() {
    let mut r = runner(SidecarConfig {
        max_retries: 0,
        circuit_breaker_threshold: 2,
        circuit_breaker_cooldown_nanos: 1000 * MS,
        ..SidecarConfig::default()
    });
    r.record_failure_at(100);
    assert!(r.check_circuit_breaker_at(100).is_ok());
    r.record_failure_at(200);
    assert_eq!(r.breaker, BreakerState { consecutive_failures: 2, circuit_opened_at_ms: 200 });
    match r.check_circuit_breaker_at(450) {
        Err(SidecarRunnerError::CircuitOpen { consecutive_failures, cooldown_remaining_nanos }) => {
            assert_eq!(consecutive_failures, 2);
            assert_eq!(cooldown_remaining_nanos, 750 * MS);
        }
        _ => panic!("expected CircuitOpen"),
    }
    // A clock reading before the opening counts as no time elapsed.
    assert!(matches!(
        r.check_circuit_breaker_at(50),
        Err(SidecarRunnerError::CircuitOpen { cooldown_remaining_nanos, .. }) if cooldown_remaining_nanos == 1000 * MS
    ));
    // Once the cooldown has passed a probe request goes through.
    assert!(r.check_circuit_breaker_at(1200).is_ok());
    // A further failure keeps the original opening time.
    r.record_failure_at(1300);
    assert_eq!(r.breaker.circuit_opened_at_ms, 200);
}

#[test]
fn success_resets_circuit_breaker() {
    let mut r = runner(SidecarConfig {
        max_retries: 0,
        circuit_breaker_threshold: 10,
        ..SidecarConfig::default()
    });

    r.breaker.consecutive_failures = 5;
    assert_eq!(r.consecutive_failures(), 5);

    r.record_success();
    assert_eq!(r.consecutive_failures(), 0);
    assert_eq!(r.breaker.circuit_opened_at_ms, 0);
}

#[test]
fn runner_defaults() {
    let r = EchelleSidecarRunner::new("python3".to_string(), vec![]);
    assert_eq!(r.timeout_nanos, 2000 * MS);
    assert_eq!(r.timeout_millis(), 2000);
    assert_eq!(r.config, SidecarConfig::default());
    assert_eq!(r.config.max_retries, 2);
    assert_eq!(r.config.initial_backoff_nanos, 100 * MS);
    assert_eq!(r.config.max_backoff_nanos, 5000 * MS);
    assert_eq!(r.config.circuit_breaker_threshold, 5);
    assert_eq!(r.config.circuit_breaker_cooldown_nanos, 30_000 * MS);
    assert!(r.check_circuit_breaker().is_ok());
    assert!(r.begin_request().is_ok());
}

#[test]
fn captures_json_response_and_structured_stderr() {
    let response = interpret_response_line("  {\"ok\":true,\"echo\":{\"request_id\":\"1\",\"op\":\"health\"}}\n")
        .ok()
        .expect("request should succeed");
    assert_eq!(response["ok"], true);
    assert_eq!(response["echo"]["op"], "health");
    assert!(EchelleSidecarRunner::check_health_response(&response).is_ok());

    let events = read_stderr_events(vec![
        "{\"level\":\"info\",\"msg\":\"sidecar started\"}".to_string(),
        "   ".to_string(),
        "plain text warning".to_string(),
    ]);
    assert_eq!(events.len(), 2);
    assert!(matches!(events[0], SidecarLogEvent::Structured(_)));
    match &events[1] {
        SidecarLogEvent::Text(t) => assert_eq!(t, "plain text warning"),
        _ => panic!("expected a text event"),
    }
}

#[test]
fn response_line_errors() {
    assert!(matches!(interpret_response_line(" \t\n"), Err(SidecarRunnerError::EmptyResponse)));
    assert!(matches!(interpret_response_line("{not json"), Err(SidecarRunnerError::InvalidJson(_))));
    let no_ok = interpret_response_line("{\"ok\":false}").ok().unwrap();
    assert!(matches!(
        EchelleSidecarRunner::check_health_response(&no_ok),
        Err(SidecarRunnerError::EmptyResponse)
    ));
}

fn poll(
    cache: &mut EchelleProfileCache<String>,
    stat: Result<i128, String>,
    load: Result<String, String>,
) -> EchelleProfileCacheEvent {
    match cache.poll_with_stat(stat) {
        PollStep::Done(e) => e,
        PollStep::Load { path, modified } => cache.finish_load(path, modified, load),
    }
}

#[test]
fn cache_loads_profile_and_reports_loaded() {
    let mut cache: EchelleProfileCache<String> = EchelleProfileCache::new();
    cache.set_path("profile.toml".to_string());
    let event = poll(&mut cache, Ok(10), Ok("Echelle v1".to_string()));
    assert!(matches!(event, EchelleProfileCacheEvent::Loaded(ref p) if p == "profile.toml"));
    assert!(cache.profile().is_some());
    assert!(cache.last_error().is_none());
}

#[test]
fn cache_returns_unchanged_when_file_not_modified() {
    let mut cache: EchelleProfileCache<String> = EchelleProfileCache::new();
    cache.set_path("profile.toml".to_string());
    let _ = poll(&mut cache, Ok(10), Ok("Echelle v1".to_string()));
    let event = poll(&mut cache, Ok(10), Ok("never read".to_string()));
    assert!(matches!(event, EchelleProfileCacheEvent::Unchanged));
    assert_eq!(cache.profile(), Some(&"Echelle v1".to_string()));
}

#[test]
fn cache_preserves_last_good_profile_on_reload_error() {
    let mut cache: EchelleProfileCache<String> = EchelleProfileCache::new();
    cache.set_path("profile.toml".to_string());
    let _ = poll(&mut cache, Ok(10), Ok("Echelle v1".to_string()));
    let before = cache.profile().cloned();

    let event = poll(&mut cache, Ok(20), Err("bad toml".to_string()));
    assert!(matches!(event, EchelleProfileCacheEvent::Error(_)));
    assert!(cache.profile().is_some());
    assert_eq!(cache.profile().cloned(), before);
}

#[test]
fn cache_reports_each_error_once_and_recovers() {
    let mut cache: EchelleProfileCache<String> = EchelleProfileCache::new();
    assert!(matches!(poll(&mut cache, Ok(1), Ok("x".to_string())), EchelleProfileCacheEvent::Unchanged));
    cache.set_path("p.toml".to_string());
    let e1 = poll(&mut cache, Err("missing".to_string()), Ok("x".to_string()));
    assert!(matches!(e1, EchelleProfileCacheEvent::Error(ref m) if m == "missing"));
    let e2 = poll(&mut cache, Err("missing".to_string()), Ok("x".to_string()));
    assert!(matches!(e2, EchelleProfileCacheEvent::Unchanged));
    assert_eq!(cache.last_error(), Some("missing"));
    let e3 = poll(&mut cache, Ok(5), Ok("good".to_string()));
    assert!(matches!(e3, EchelleProfileCacheEvent::Loaded(_)));
    assert_eq!(cache.last_error(), None);
    // Re-pointing at another path forces a reload and forgets the error.
    cache.set_path("q.toml".to_string());
    assert_eq!(cache.path(), Some("q.toml"));
    let e4 = poll(&mut cache, Ok(5), Ok("other".to_string()));
    assert!(matches!(e4, EchelleProfileCacheEvent::Loaded(ref p) if p == "q.toml"));
    assert!(matches!(cache.clear(), EchelleProfileCacheEvent::Cleared));
    assert!(cache.path().is_none() && cache.profile().is_none());
}

#[test]
fn health_verdicts() {
    assert!(daq_viewer::sidecar::health_verdict(true).is_ok());
    assert!(matches!(daq_viewer::sidecar::health_verdict(false), Err(SidecarRunnerError::EmptyResponse)));
}

#[test]
fn health_response_needs_ok_true() {
    let ok = interpret_response_line("{\"ok\":true}").ok().unwrap();
    assert!(EchelleSidecarRunner::check_health_response(&ok).is_ok());
    for text in ["{\"ok\":\"true\"}", "{\"status\":true}", "[true]", "{\"ok\":1}"] {
        let v = interpret_response_line(text).ok().unwrap();
        assert!(matches!(
            EchelleSidecarRunner::check_health_response(&v),
            Err(SidecarRunnerError::EmptyResponse)
        ));
    }
}
