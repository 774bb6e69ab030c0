use vpn_bot::config::HealthConfig;
use vpn_bot::health::{
    format_results, relay_url, run_checks, CheckResult, HealthSnapshot, Monitor, Probe,
};

fn check(name: &str, ok: bool) -> CheckResult {
    CheckResult {
        name: name.to_string(),
        ok,
        detail: "why".to_string(),
    }
}

#[test]
fn probes_follow_the_configuration() {
    let config = HealthConfig {
        relay_addr: "1.2.3.4:443".to_string(),
        snis: vec!["a.com".to_string(), "b.com".to_string()],
        subscription_url: Some("https://sub".to_string()),
        interval_secs: 300,
        fail_threshold: 2,
    };
    let probes = config.probes();
    assert_eq!(probes.len(), 3);
    assert!(matches!(&probes[0], Probe::Relay(sni) if sni == "a.com"));
    assert!(matches!(&probes[2], Probe::Url(url) if url == "https://sub"));
    let results = run_checks(
        &probes,
        vec![Ok(200), Err("handshake failed".to_string()), Ok(404)],
    );
    assert_eq!(results[0].name, "relay → exit (a.com)");
    assert_eq!(results[0].detail, "HTTP 200");
    assert!(results[0].ok);
    assert!(!results[1].ok);
    assert_eq!(results[2].name, "подписки");
    assert_eq!(
        format_results(&results),
        "✅ relay → exit (a.com) — HTTP 200\n❌ relay → exit (b.com) — handshake failed\n✅ подписки — HTTP 404"
    );
    assert_eq!(relay_url("a.com", 443), "https://a.com:443/");
}

#[test]
fn alert_comes_at_the_threshold_and_recovery_once() {
    let mut monitor = Monitor::new(2);
    assert_eq!(monitor.observe(&check("a", false)), None);
    let alert = monitor.observe(&check("a", false)).unwrap();
    assert_eq!(
        alert,
        "⚠️ Не работает: a\nwhy\n\nПроверка 2 раз(а) подряд. Если выходной сервер заблокирован — на relay: exit-switch <новый IP>"
    );
    assert_eq!(monitor.observe(&check("a", false)), None);
    assert_eq!(
        monitor.observe(&check("a", true)).as_deref(),
        Some("✅ Снова работает: a")
    );
    assert_eq!(monitor.observe(&check("a", true)), None);
    assert_eq!(monitor.observe(&check("a", false)), None);
    assert_eq!(monitor.observe(&check("a", true)), None);
}

#[test]
fn checks_do_not_disturb_each_other() {
    let mut monitor = Monitor::new(2);
    assert!(monitor.round(&vec![check("a", false), check("b", false)]).is_empty());
    assert!(monitor.round(&vec![check("a", true), check("b", true)]).is_empty());
    assert!(monitor.round(&vec![check("a", false), check("b", true)]).is_empty());
    let told = monitor.round(&vec![check("a", false), check("b", false)]);
    assert_eq!(told.len(), 1);
    assert!(told[0].contains("Не работает: a\n"));
}

#[test]
fn snapshots_are_counted() {
    let snapshot = HealthSnapshot {
        checked_at: 5,
        results: vec![check("a", true), check("b", false)],
    };
    assert!(!snapshot.all_ok());
    assert_eq!(snapshot.count_ok(), 1);
    let copy = snapshot.copy();
    assert_eq!(copy.checked_at, 5);
    assert_eq!(copy.results[1].name, "b");
    let empty = HealthSnapshot {
        checked_at: 0,
        results: vec![],
    };
    assert!(empty.all_ok());
}

#[test]
fn rounds_add_up_and_keep_checks_apart() {
    let first = vec![check("a", false), check("b", true), check("a", false)];
    let second = vec![check("b", false), check("a", true), check("b", false)];
    let mut apart = Monitor::new(2);
    let mut told = apart.round(&first);
    told.extend(apart.round(&second));

    let mut all = first;
    all.extend(second);
    let mut together = Monitor::new(2);
    assert_eq!(together.round(&all), told);
    assert_eq!(told.len(), 3);
    assert!(told[0].starts_with("⚠️ Не работает: a\n"));
    assert_eq!(told[1], "✅ Снова работает: a");
    assert!(told[2].starts_with("⚠️ Не работает: b\n"));
    for state in &apart.states {
        let (failures, alerted) = if state.name == "a" { (0, false) } else { (2, true) };
        assert_eq!((state.failures, state.alerted), (failures, alerted));
    }
}
