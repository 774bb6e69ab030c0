use std::collections::HashSet;

use vpn_bot::config::{
    parse_list, parse_user_ids, AppConfig, ConfigError, Env, PanelAuth, PanelConfig,
};

const GOOD: [(&str, &str); 6] = [
    ("APPROVER_USER_IDS", "1, 2,x"),
    ("XUI_API_TOKEN", "secret"),
    ("XUI_INBOUND_IDS", "3, 4"),
    ("XUI_SUBSCRIPTION_BASE_URL", "https://sub.example.com/sub"),
    ("XUI_BASE_URL", "http://127.0.0.1:1/path//"),
    ("OTHER", "ignored"),
];

fn env(changes: &[(&str, &str)]) -> Env {
    let mut vars: Vec<(String, String)> = changes
        .iter()
        .map(|(k, v)| (k.to_string(), v.to_string()))
        .collect();
    for (k, v) in GOOD {
        vars.push((k.to_string(), v.to_string()));
    }
    Env { vars }
}

fn load(changes: &[(&str, &str)]) -> Result<AppConfig, String> {
    AppConfig::from_env(&env(changes), None, None).map_err(|e| e.message())
}

#[test]
fn plain_configuration_is_read() {
    let config = load(&[]).unwrap();
    assert_eq!(config.approver_user_ids, HashSet::from([1, 2]));
    assert!(config.allow_user_ids.is_none());
    assert_eq!(config.panel.base_url, "http://127.0.0.1:1/path");
    assert_eq!(config.panel.subscription_base_url, "https://sub.example.com/sub/");
    assert_eq!(config.panel.inbound_ids, vec![3, 4]);
    assert_eq!(config.panel.client_flow, "");
    assert_eq!(config.panel.total_gb, 0);
    assert!(matches!(&config.panel.auth, PanelAuth::Token(t) if t == "secret"));
    assert_eq!(config.sqlite_path, "vpn_bot.sqlite3");
    assert!(config.health.is_none());
    assert!(config.web.is_none());
    assert!(config.is_approver(2) && !config.is_approver(3));
    assert!(config.is_allowed(77));
}

#[test]
fn values_lose_whitespace_and_quotes() {
    let vars = env(&[
        ("A", "  \" padded \"  "),
        ("B", "'x'"),
        ("C", "\""),
        ("D", "\"\""),
        ("E", "   "),
        ("F", "\"half'"),
    ]);
    assert_eq!(vars.optional_env("A").as_deref(), Some("padded"));
    assert_eq!(vars.optional_env("B").as_deref(), Some("x"));
    assert_eq!(vars.optional_env("C").as_deref(), Some("\""));
    assert_eq!(vars.optional_env("D"), None);
    assert_eq!(vars.optional_env("E"), None);
    assert_eq!(vars.optional_env("F").as_deref(), Some("\"half'"));
    assert_eq!(vars.optional_env("MISSING"), None);
    assert!(vars.required_env("MISSING").is_err());
}

#[test]
fn allowed_users_are_limited_where_given() {
    let config = load(&[("ALLOW_USER_IDS", "5")]).unwrap();
    assert!(config.is_allowed(5));
    assert!(!config.is_allowed(6));
    let config = load(&[("ALLOW_USER_IDS", "nobody")]).unwrap();
    assert!(!config.is_allowed(6));
    assert!(!config.is_allowed(1));
    let config = load(&[("ALLOW_USER_IDS", " \"\" ")]).unwrap();
    assert!(config.is_allowed(6));
}

#[test]
fn each_mistake_has_its_message() {
    let cases: [(&[(&str, &str)], &str); 12] = [
        (&[("APPROVER_USER_IDS", "")], "APPROVER_USER_IDS is not set"),
        (
            &[("APPROVER_USER_IDS", "x")],
            "APPROVER_USER_IDS must contain at least one user id",
        ),
        (
            &[("XUI_API_TOKEN", "")],
            "set XUI_API_TOKEN or XUI_USERNAME/XUI_PASSWORD: XUI_USERNAME is not set",
        ),
        (
            &[("XUI_API_TOKEN", ""), ("XUI_USERNAME", "u")],
            "set XUI_API_TOKEN or XUI_USERNAME/XUI_PASSWORD: XUI_PASSWORD is not set",
        ),
        (&[("XUI_INBOUND_IDS", " ")], "XUI_INBOUND_IDS is not set"),
        (
            &[("XUI_INBOUND_IDS", "1, two")],
            "XUI_INBOUND_IDS must be comma-separated integers: invalid list item `two`",
        ),
        (
            &[("XUI_INBOUND_IDS", ",")],
            "XUI_INBOUND_IDS must contain at least one inbound id",
        ),
        (
            &[("XUI_SUBSCRIPTION_BASE_URL", "")],
            "XUI_SUBSCRIPTION_BASE_URL is not set",
        ),
        (&[("XUI_BASE_URL", "")], "XUI_BASE_URL is not set"),
        (&[("XUI_TOTAL_GB", "-1")], "XUI_TOTAL_GB has invalid value `-1`"),
        (
            &[("HEALTH_RELAY_ADDR", "1.2.3.4:5"), ("HEALTH_FAIL_THRESHOLD", "x")],
            "HEALTH_FAIL_THRESHOLD has invalid value `x`",
        ),
        (
            &[("WEB_PUBLIC_URL", "http://x")],
            "WEB_PUBLIC_URL must be an https:// URL (Telegram requires it)",
        ),
    ];
    for (changes, message) in cases {
        assert_eq!(load(changes).unwrap_err(), message);
    }
}

#[test]
fn bad_addresses_are_reported() {
    let vars = env(&[("HEALTH_RELAY_ADDR", "nowhere"), ("WEB_PUBLIC_URL", "https://x")]);
    let error = AppConfig::from_env(&vars, Some("bad".to_string()), None).unwrap_err();
    assert!(matches!(error, ConfigError::BadRelay(_)));
    assert_eq!(error.message(), "HEALTH_RELAY_ADDR must be ip:port: bad");
    let error = AppConfig::from_env(&vars, None, Some("worse".to_string())).unwrap_err();
    assert_eq!(error.message(), "WEB_LISTEN must be ip:port: worse");
}

#[test]
fn optional_parts_are_read() {
    let config = load(&[
        ("XUI_API_TOKEN", ""),
        ("XUI_USERNAME", "u"),
        ("XUI_PASSWORD", "p"),
        ("HEALTH_RELAY_ADDR", "1.2.3.4:443"),
        ("HEALTH_SNIS", "a.com, ,b.com"),
        ("HEALTH_FAIL_THRESHOLD", "0"),
        ("WEB_PUBLIC_URL", "https://app.example.com"),
        ("XUI_TOTAL_GB", "10"),
    ])
    .unwrap();
    assert!(matches!(
        &config.panel.auth,
        PanelAuth::Password { username, password } if username == "u" && password == "p"
    ));
    let health = config.health.unwrap();
    assert_eq!(health.relay_addr, "1.2.3.4:443");
    assert_eq!(health.snis, vec!["a.com".to_string(), "b.com".to_string()]);
    assert_eq!(health.subscription_url, None);
    assert_eq!(health.interval_secs, 300);
    assert_eq!(health.fail_threshold, 1);
    let web = config.web.unwrap();
    assert_eq!(web.listen, "127.0.0.1:8080");
    assert_eq!(web.public_url, "https://app.example.com");
    assert_eq!(config.panel.total_gb, 10);
}

#[test]
fn default_profile_and_threshold() {
    let health = load(&[("HEALTH_RELAY_ADDR", "1.2.3.4:443")]).unwrap().health.unwrap();
    assert_eq!(health.snis, vec!["ign.com".to_string()]);
    assert_eq!(health.fail_threshold, 2);
}

#[test]
fn lists_are_read() {
    assert_eq!(parse_list("1,-2, 3 ,").unwrap(), vec![1, -2, 3]);
    assert_eq!(parse_list("1,a,b").unwrap_err(), "a");
    assert_eq!(parse_user_ids("7,7, 8,-1,x"), HashSet::from([7, 8]));
    assert!(PanelConfig::from_env(&env(&[])).is_ok());
}
