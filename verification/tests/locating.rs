use foundry_local::locator::{
    extract_service_uri, initial_probe_decision, PollOutcome, StartDecision, StartupPoll,
};

#[test]
fn uri_extraction_finds_the_first_service_uri() {
    let status = "Foundry service is running at http://localhost:5273/.";
    assert_eq!(
        extract_service_uri(status).as_deref(),
        Some("http://localhost:5273")
    );

    let numeric = "listening on http://127.0.0.1:8080 (pid 4711)";
    assert_eq!(
        extract_service_uri(numeric).as_deref(),
        Some("http://127.0.0.1:8080")
    );

    let two = "old http://a:1 new http://b:2";
    assert_eq!(extract_service_uri(two).as_deref(), Some("http://a:1"));
}

#[test]
fn uri_extraction_needs_host_and_port() {
    assert!(extract_service_uri("service not running").is_none());
    assert!(extract_service_uri("http:// :80 broken").is_none());
    assert!(extract_service_uri("https://secure.example:443 only").is_none());
    assert!(extract_service_uri("http://host-without-port").is_none());
    // A second, complete URI is still found after an incomplete one.
    assert_eq!(
        extract_service_uri("http://nope and http://host:9").as_deref(),
        Some("http://host:9")
    );
}

#[test]
fn idempotent_start_never_spawns_twice() {
    // With the service already reachable, deciding twice in sequence
    // uses the probed URI both times and never asks for a spawn.
    let uri = "http://localhost:5273".to_string();
    let first = initial_probe_decision(Some(uri.clone()));
    let second = initial_probe_decision(Some(uri.clone()));
    for decision in [first, second] {
        match decision {
            StartDecision::AlreadyRunning(u) => assert_eq!(u, uri),
            StartDecision::SpawnNeeded => panic!("must not spawn a running service"),
        }
    }
}

#[test]
fn probe_miss_asks_for_a_spawn() {
    assert!(matches!(
        initial_probe_decision(None),
        StartDecision::SpawnNeeded
    ));
}

#[test]
fn startup_poll_is_bounded() {
    let mut poll = StartupPoll::new();
    let mut retries = 0;
    loop {
        match poll.on_probe(None) {
            PollOutcome::RetryAfterDelay => retries += 1,
            PollOutcome::GiveUp => break,
            PollOutcome::Ready(_) => panic!("no probe answered"),
        }
        assert!(retries <= 16, "the poll must give up");
    }
    // Ten probe attempts in all: nine retries, then giving up.
    assert_eq!(retries, 9);
}

#[test]
fn startup_poll_stops_at_the_first_answer() {
    let mut poll = StartupPoll::new();
    assert!(matches!(poll.on_probe(None), PollOutcome::RetryAfterDelay));
    match poll.on_probe(Some("http://localhost:5273".to_string())) {
        PollOutcome::Ready(u) => assert_eq!(u, "http://localhost:5273"),
        other => panic!("unexpected outcome: {:?}", other),
    }
}
