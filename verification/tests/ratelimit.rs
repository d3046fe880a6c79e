use rss_cli::error::RssError;
use rss_cli::ratelimit::{authority_of, Deadline, GateAction, HostGate, PermitOutcome};
use rss_cli::time::Duration;

const NOW: i64 = 1_700_000_000_000;

fn gate() -> HostGate {
    HostGate::default()
}

fn depth_of(g: &HostGate, authority: &str) -> u32 {
    g.state(authority).escalation_depth
}

#[test]
fn cooldown_remaining_reports_the_learned_window_and_nothing_on_a_cold_host() {
    let mut g = gate();
    let url = "https://cold.example/feed.xml";
    assert_eq!(
        g.cooldown_remaining(url, NOW),
        None,
        "a host that has never throttled owes no wait"
    );
    g.note_throttled(url, Some(Duration::from_secs(30)), NOW);
    let remaining = g
        .cooldown_remaining(url, NOW + 1)
        .expect("an active cooldown must be reportable");
    assert!(
        remaining.millis > 25_000 && remaining.millis <= 30_000,
        "expected ~30s, got {remaining:?}"
    );
}

#[test]
fn the_hint_is_the_shared_per_host_ladder_and_a_success_decays_its_depth() {
    let mut g = gate();
    assert_eq!(
        authority_of("https://www.reddit.com/r/AI_Agents/.rss"),
        authority_of("https://www.reddit.com/r/rust/.rss")
    );
    let ladder: Vec<u128> = (1..=8).map(|n| g.cooldown_for(n, None).millis).collect();
    for observed in [16_000u128, 4_000, 60_000] {
        assert!(
            ladder.contains(&observed),
            "{observed} is not a reachable cooldown, so the hint was not freshly computed"
        );
    }
    assert!(
        !ladder.contains(&3_847),
        "a decayed remainder must not be mistakable for a fresh cooldown"
    );
    let a = "https://www.reddit.com/r/AI_Agents/.rss";
    let b = "https://www.reddit.com/r/rust/.rss";
    for _ in 0..4 {
        g.note_throttled(a, None, NOW);
    }
    assert_eq!(
        depth_of(&g, "www.reddit.com:443"),
        4,
        "four consecutive throttles must actually reach depth 4"
    );
    assert_eq!(g.cooldown_for(4, None), Duration::from_secs(16));
    g.note_success(b);
    g.note_throttled(a, None, NOW);
    assert_eq!(
        depth_of(&g, "www.reddit.com:443"),
        4,
        "a sibling success costs one rung, not the whole learned depth"
    );
    assert!(
        g.state("www.reddit.com:443").warm_until_ms > NOW,
        "yet the host is still warm"
    );
}

#[test]
fn authority_normalizes_host_and_port() {
    assert_eq!(authority_of("https://Example.com/feed.xml"), "example.com:443");
    assert_eq!(authority_of("http://example.com/feed"), "example.com:80");
    assert_eq!(authority_of("https://example.com:8443/x"), "example.com:8443");
    assert_ne!(authority_of("https://a.example.com/x"), authority_of("https://b.example.com/x"));
    assert_eq!(authority_of("https://example.com/x"), authority_of("https://example.com/y"));
}

#[test]
fn cooldown_for_escalates_doubling_and_caps() {
    let g = HostGate {
        base_cooldown: Duration::from_secs(2),
        max_cooldown: Duration::from_secs(60),
        ..HostGate::default()
    };
    assert_eq!(g.cooldown_for(1, None), Duration::from_secs(2));
    assert_eq!(g.cooldown_for(2, None), Duration::from_secs(4));
    assert_eq!(g.cooldown_for(3, None), Duration::from_secs(8));
    assert_eq!(g.cooldown_for(4, None), Duration::from_secs(16));
    assert_eq!(g.cooldown_for(5, None), Duration::from_secs(32));
    assert_eq!(g.cooldown_for(6, None), Duration::from_secs(60));
    assert_eq!(g.cooldown_for(7, None), Duration::from_secs(60));
    assert_eq!(g.cooldown_for(1000, None), Duration::from_secs(60));
    assert_eq!(
        g.cooldown_for(1, Some(Duration::from_millis(300))),
        Duration::from_millis(300)
    );
    assert_eq!(g.cooldown_for(9, Some(Duration::from_secs(600))), Duration::from_secs(60));
}

#[test]
fn concurrent_throttles_after_a_lapse_each_advance_the_ladder_exactly_once() {
    const N: u32 = 8;
    let mut g = gate();
    let url = "https://race.example.com/x";
    g.note_throttled(url, None, NOW - 1_000_000);
    for _ in 0..N {
        g.note_throttled(url, None, NOW);
    }
    assert_eq!(
        depth_of(&g, "race.example.com:443"),
        N,
        "every concurrent throttle must advance the ladder exactly once"
    );
}

#[test]
fn a_throttle_after_the_warm_window_expires_starts_from_base() {
    let mut g = gate();
    let url = "https://idle.example.com/x";
    for _ in 0..4 {
        g.note_throttled(url, None, NOW);
    }
    assert_eq!(depth_of(&g, "idle.example.com:443"), 4);
    let later = g.state("idle.example.com:443").warm_until_ms + 1;
    g.note_throttled(url, None, later);
    let depth = depth_of(&g, "idle.example.com:443");
    assert_eq!(depth, 1, "an idle host must not resume mid-ladder");
    assert_eq!(g.cooldown_for(depth, None), g.base_cooldown);
}

#[test]
fn a_success_decays_the_escalation_depth_instead_of_clearing_it() {
    let mut g = gate();
    let url = "https://decay.example.com/x";
    let name = "decay.example.com:443";
    for _ in 0..4 {
        g.note_throttled(url, None, NOW);
    }
    assert_eq!(depth_of(&g, name), 4);
    g.note_success(url);
    assert_eq!(depth_of(&g, name), 3, "one success steps down one rung, not to zero");
    g.note_throttled(url, None, NOW);
    assert_eq!(depth_of(&g, name), 4);
    assert_eq!(g.cooldown_for(depth_of(&g, name), None), Duration::from_secs(16));
    for _ in 0..10 {
        g.note_success(url);
    }
    assert_eq!(depth_of(&g, name), 0, "sustained success must fully clear the depth");
    g.note_throttled(url, None, NOW);
    assert_eq!(g.cooldown_for(depth_of(&g, name), None), g.base_cooldown);
}

#[test]
fn success_walks_the_escalation_counter_back_to_base() {
    let mut g = gate();
    let url = "https://esc.example.com/x";
    g.note_throttled(url, None, NOW);
    g.note_throttled(url, None, NOW);
    assert_eq!(depth_of(&g, "esc.example.com:443"), 2);
    g.note_success(url);
    g.note_success(url);
    assert_eq!(
        depth_of(&g, "esc.example.com:443"),
        0,
        "success must walk the counter back down so the next throttle starts from base"
    );
}

fn started(a: GateAction) -> bool {
    matches!(a, GateAction::Start)
}

#[test]
fn cold_host_acquires_without_waiting() {
    let g = gate();
    assert!(started(g.on_permit("https://cold.example/x", PermitOutcome::Granted, None, NOW)));
}

#[test]
fn throttle_makes_sibling_wait_but_not_a_different_host() {
    let mut g = gate();
    g.note_throttled("https://a.example/x", Some(Duration::from_millis(300)), NOW);
    assert!(matches!(
        g.on_permit("https://a.example/y", PermitOutcome::Granted, None, NOW),
        GateAction::Pause(d) if d == Duration::from_millis(300)
    ));
    assert!(started(g.on_permit("https://b.example/y", PermitOutcome::Granted, None, NOW)));
    assert!(started(g.on_permit("https://a.example/y", PermitOutcome::Granted, None, NOW + 300)));
}

#[test]
fn deadline_sheds_a_cooldown_instead_of_sleeping_through_it() {
    let mut g = gate();
    let url = "https://a.example/x";
    g.note_throttled(url, Some(Duration::from_secs(10)), NOW);
    let soon = Deadline { passed: false, left: Duration::from_secs(5) };
    assert!(matches!(
        g.on_permit(url, PermitOutcome::Granted, Some(soon), NOW),
        GateAction::Refuse(RssError::DeadlineExceeded { url: u }) if u == url
    ));
    let later = Deadline { passed: false, left: Duration::from_secs(10) };
    assert!(matches!(
        g.on_permit(url, PermitOutcome::Granted, Some(later), NOW),
        GateAction::Pause(d) if d == Duration::from_secs(10)
    ));
}

#[test]
fn an_expired_deadline_starts_nothing() {
    let g = gate();
    let url = "https://a.example/x";
    let gone = Deadline { passed: true, left: Duration::from_secs(0) };
    assert!(matches!(
        g.on_permit(url, PermitOutcome::Granted, Some(gone), NOW),
        GateAction::Refuse(RssError::DeadlineExceeded { .. })
    ));
    assert!(matches!(
        g.on_permit(url, PermitOutcome::TimedOut, None, NOW),
        GateAction::Refuse(RssError::DeadlineExceeded { .. })
    ));
    assert!(matches!(
        HostGate::on_wake(url, Some(gone)),
        GateAction::Refuse(RssError::DeadlineExceeded { .. })
    ));
    assert!(started(HostGate::on_wake(url, None)));
    assert!(matches!(
        g.on_permit(url, PermitOutcome::Closed, None, NOW),
        GateAction::Refuse(RssError::Other(m)) if m == "rate-limiter semaphore closed"
    ));
}

#[test]
fn wait_beyond_ceiling_fails_fast_with_rate_limited() {
    let mut g = HostGate::from_env(None, Some("3600"), Some(" 1 "));
    let url = "https://a.example/x";
    g.note_throttled(url, Some(Duration::from_secs(2)), NOW);
    assert!(matches!(
        g.on_permit(url, PermitOutcome::Granted, None, NOW),
        GateAction::Refuse(RssError::RateLimited { retry_after, .. }) if retry_after == Duration::from_secs(2)
    ));
}

#[test]
fn warm_host_spaces_the_next_sibling() {
    let mut g = gate();
    let url = "https://a.example/x";
    g.reserve(url, NOW);
    assert_eq!(g.cooldown_remaining(url, NOW), None, "a cold host owes no gap");
    g.note_throttled(url, Some(Duration::from_millis(1)), NOW);
    g.reserve(url, NOW + 10);
    assert_eq!(g.cooldown_remaining(url, NOW + 10), Some(Duration::from_secs(1)));
}

#[test]
fn zero_host_concurrency_is_floored_and_does_not_deadlock() {
    assert_eq!(HostGate::from_env(Some("0"), None, None).permits(), 1);
    assert_eq!(HostGate::from_env(Some("4"), None, None).permits(), 4);
    assert_eq!(HostGate::from_env(Some("many"), None, None).permits(), 1);
    let g = HostGate { per_host: 0, ..HostGate::default() };
    assert_eq!(g.permits(), 1);
}

#[test]
fn a_text_that_is_no_url_is_its_own_bucket() {
    assert_eq!(authority_of("not a url"), "not a url");
}

#[test]
fn an_address_without_a_port_has_port_zero() {
    assert_eq!(authority_of("foo://Host/x"), "host:0");
    assert_eq!(authority_of("data:text/plain,x"), ":0");
}
