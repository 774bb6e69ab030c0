use vpn_bot::access::{self, AccessStatus, RequestOutcome, RequestStep};
use vpn_bot::config::{AppConfig, Env, PanelAuth, PanelConfig};
use vpn_bot::health::{CheckResult, HealthSnapshot};
use vpn_bot::panel::{Client, Panel};
use vpn_bot::qr::render_qr_png;
use vpn_bot::state::AppState;
use vpn_bot::storage::{stored_id, InsertResult, PendingRequest};
use vpn_bot::web::api::{
    authenticate, get_state, get_status, request_access, respond, Rejection,
};
use vpn_bot::web::auth::{AuthError, WebAppUser};
use vpn_bot::web::page::{html_escape, open_in_app};

fn user() -> WebAppUser {
    WebAppUser {
        id: 5,
        username: Some("bob".to_string()),
        first_name: "Bob".to_string(),
    }
}

fn client(login: &str) -> Client {
    Client {
        login: login.to_string(),
        sub_id: "s".to_string(),
        tg_id: 0,
        enabled: true,
        expiry_time: 0,
        inbound_ids: vec![],
    }
}

fn panel() -> Panel {
    Panel::new(PanelConfig {
        base_url: String::new(),
        auth: PanelAuth::Token("t".to_string()),
        inbound_ids: vec![1],
        client_flow: String::new(),
        total_gb: 0,
        subscription_base_url: "https://sub/".to_string(),
    })
}

fn config(allow: &str) -> AppConfig {
    let vars = [
        ("APPROVER_USER_IDS", "1"),
        ("ALLOW_USER_IDS", allow),
        ("XUI_API_TOKEN", "t"),
        ("XUI_INBOUND_IDS", "1"),
        ("XUI_SUBSCRIPTION_BASE_URL", "https://sub/"),
        ("XUI_BASE_URL", "http://p"),
    ]
    .iter()
    .map(|(k, v)| (k.to_string(), v.to_string()))
    .collect();
    AppConfig::from_env(&Env { vars }, None, None).unwrap()
}

#[test]
fn html_is_escaped() {
    assert_eq!(html_escape("a&b<c>\"d'"), "a&amp;b&lt;c&gt;&quot;d&#39;");
    assert_eq!(html_escape("&lt;"), "&amp;lt;");
    assert_eq!(html_escape(""), "");
}

#[test]
fn pages_open_own_subscriptions_only() {
    let template = "<a>{{DEEPLINK_HTML}}</a><script>{{DEEPLINK_JSON}}</script>{{URL_HTML}}";
    assert_eq!(open_in_app("https://sub/", "https://evil/", template), None);
    let page = open_in_app("https://sub/", "https://sub/x</script>\"&", template).unwrap();
    assert_eq!(
        page,
        "<a>happ://add/https://sub/x&lt;/script&gt;&quot;&amp;</a><script>\"happ://add/https://sub/x<\\/script>\\\"&\"</script>https://sub/x&lt;/script&gt;&quot;&amp;"
    );
    let own = panel().subscription_url(&client("a"));
    assert!(open_in_app("https://sub/", &own, template).is_some());
}

#[test]
fn control_characters_are_escaped_in_scripts() {
    let page = open_in_app("", "\u{1}\n\u{8}\\", "{{DEEPLINK_JSON}}").unwrap();
    assert_eq!(page, "\"happ://add/\\u0001\\n\\b\\\\\"");
}

#[test]
fn users_are_authenticated() {
    assert_eq!(authenticate(&config(""), Ok(user())).unwrap().id, 5);
    let refused = authenticate(&config("6"), Ok(user())).unwrap_err();
    assert_eq!(refused, Rejection::Forbidden);
    assert_eq!((refused.status(), refused.message().as_str()), (403, "Доступ запрещён."));
    let refused = authenticate(&config(""), Err(AuthError::Expired)).unwrap_err();
    assert_eq!(refused.status(), 401);
    assert_eq!(
        refused.message(),
        "Сессия устарела — закрой и открой страницу заново."
    );
    for error in [AuthError::Malformed, AuthError::BadSignature] {
        let refused = authenticate(&config(""), Err(error)).unwrap_err();
        assert_eq!(refused.message(), "Открой эту страницу из бота в Telegram.");
    }
}

#[test]
fn state_is_shown() {
    let shown = get_state(&panel(), &user(), &AccessStatus::Nothing).unwrap();
    assert_eq!((shown.status.as_str(), shown.name.as_str()), ("none", "Bob"));
    let shown = get_state(&panel(), &user(), &AccessStatus::Pending(3)).unwrap();
    assert_eq!((shown.status.as_str(), shown.request_id), ("pending", Some(3)));
    let shown = get_state(&panel(), &user(), &AccessStatus::Active(client("bob"))).unwrap();
    assert_eq!(shown.status, "active");
    assert_eq!(shown.subscription_url.as_deref(), Some("https://sub/s"));
    let png = shown.qr_png_base64.unwrap();
    assert!(png.starts_with("iVBORw0KGgo"));
    assert_eq!(respond(&user()).unwrap(), "bob");
    let nameless = WebAppUser {
        username: None,
        ..user()
    };
    let shown = respond(&nameless).unwrap_err();
    assert_eq!((shown.status.as_str(), shown.name.as_str()), ("no_username", "Bob"));
}

#[test]
fn requests_are_answered() {
    let shown = request_access(&panel(), &user(), &RequestOutcome::Created(8)).unwrap();
    assert_eq!((shown.status.as_str(), shown.request_id), ("pending", Some(8)));
    let shown = request_access(&panel(), &user(), &RequestOutcome::AlreadyPending(9)).unwrap();
    assert_eq!(shown.request_id, Some(9));
    let active = RequestOutcome::AlreadyActive(client("bob"));
    let shown = request_access(&panel(), &user(), &active).unwrap();
    assert_eq!(shown.status, "active");
}

#[test]
fn vpn_status_is_summed_up() {
    let unknown = get_status(&None);
    assert_eq!((unknown.vpn.as_str(), unknown.checks_total), ("unknown", 0));
    let result = |ok| CheckResult {
        name: "n".to_string(),
        ok,
        detail: String::new(),
    };
    let mut state = AppState::new();
    state.set_health(HealthSnapshot {
        checked_at: 7,
        results: vec![result(true), result(false)],
    });
    let status = get_status(&state.health());
    assert_eq!((status.vpn.as_str(), status.checked_at), ("degraded", Some(7)));
    assert_eq!((status.checks_ok, status.checks_total), (1, 2));
    state.set_health(HealthSnapshot {
        checked_at: 8,
        results: vec![result(true)],
    });
    assert_eq!(get_status(&state.health()).vpn, "ok");
}

#[test]
fn qr_codes_are_png_images() {
    let png = render_qr_png("https://sub/s").unwrap();
    assert_eq!(&png[..8], b"\x89PNG\r\n\x1a\n");
    assert_ne!(png, render_qr_png("https://sub/t").unwrap());
    let failure = render_qr_png(&"x".repeat(5000)).unwrap_err();
    assert!(failure.message().starts_with("invalid QR payload: "));
}

#[test]
fn memes_are_taken_once() {
    let mut state = AppState::new();
    assert!(!state.take_meme(1));
    state.arm_meme(1);
    state.arm_meme(2);
    assert!(state.take_meme(1));
    assert!(!state.take_meme(1));
    assert!(state.take_meme(2));
    assert!(state.health().is_none());
}

#[test]
fn subscriptions_count_before_requests() {
    let clients = vec![client("bob")];
    assert!(matches!(
        access::status(&clients, "@Bob", Some(1)),
        AccessStatus::Active(_)
    ));
    assert!(matches!(access::status(&clients, "ann", Some(1)), AccessStatus::Pending(1)));
    assert!(matches!(access::status(&clients, "ann", None), AccessStatus::Nothing));
}

#[test]
fn requests_are_filed_for_new_users() {
    let clients = vec![client("bob")];
    assert!(matches!(
        access::request(&clients, "BOB"),
        RequestStep::Answer(RequestOutcome::AlreadyActive(_))
    ));
    assert!(matches!(access::request(&clients, "@Ann"), RequestStep::File(login) if login == "ann"));
    assert!(matches!(
        access::filed(InsertResult::Created(4)),
        (RequestOutcome::Created(4), true)
    ));
    assert!(matches!(
        access::filed(InsertResult::AlreadyPending(4)),
        (RequestOutcome::AlreadyPending(4), false)
    ));
}

#[test]
fn rows_become_requests() {
    assert_eq!(InsertResult::of_insert(1, 9), Some(InsertResult::Created(9)));
    assert_eq!(InsertResult::of_insert(0, 9), None);
    assert_eq!(InsertResult::of_existing(2), InsertResult::AlreadyPending(2));
    let request = PendingRequest::from_row(1, -2, -1, "bob".to_string(), 4);
    assert_eq!((request.id, request.chat_id, request.user_id), (1, -2, u64::MAX));
    assert_eq!(stored_id(u64::MAX), -1);
    assert_eq!(stored_id(7), 7);
}
