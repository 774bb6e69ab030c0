use vpn_bot::config::{PanelAuth, PanelConfig};
use vpn_bot::json::{json_of_value, parse_json};
use vpn_bot::panel::call::{
    is_unauthorized, needs_csrf_token, truncate, ApiStatus, Call, CallAction, CallReply, Session,
};
use vpn_bot::panel::client::{find_client, CreateAction, CreateEvent, CreatePhase};
use vpn_bot::panel::{normalize_login, Client, Panel, ServerStatus};

fn panel(auth: PanelAuth) -> Panel {
    Panel::new(PanelConfig {
        base_url: "http://panel/base".to_string(),
        auth,
        inbound_ids: vec![1, 2],
        client_flow: "flow".to_string(),
        total_gb: 3,
        subscription_base_url: "https://sub/".to_string(),
    })
}

fn token_panel() -> Panel {
    panel(PanelAuth::Token("t".to_string()))
}

fn session_panel() -> Panel {
    panel(PanelAuth::Password {
        username: "u".to_string(),
        password: "p".to_string(),
    })
}

fn client(login: &str, sub_id: &str) -> Client {
    Client {
        login: login.to_string(),
        sub_id: sub_id.to_string(),
        tg_id: 7,
        enabled: true,
        expiry_time: 0,
        inbound_ids: vec![1],
    }
}

#[test]
fn logins_are_normalized() {
    assert_eq!(normalize_login("  @@Ilya "), "ilya");
    assert_eq!(normalize_login("ИЛЬЯ"), "илья");
    assert_eq!(normalize_login("@"), "");
    assert_eq!(normalize_login("@bob"), normalize_login("bob"));
}

#[test]
fn clients_are_found_by_login() {
    let clients = vec![client("Ann", "1"), client("bob", "2"), client("BOB", "3")];
    assert_eq!(find_client(&clients, "@Bob").unwrap().sub_id, "2");
    assert_eq!(find_client(&clients, "ann ").unwrap().sub_id, "1");
    assert!(find_client(&clients, "carl").is_none());
}

#[test]
fn telegram_identifiers_are_positive() {
    let mut c = client("a", "1");
    assert_eq!(c.telegram_chat_id(), Some(7));
    c.tg_id = 0;
    assert_eq!(c.telegram_chat_id(), None);
    c.tg_id = -4;
    assert_eq!(c.telegram_chat_id(), None);
    assert_eq!(c.copy().login, "a");
}

#[test]
fn subscriptions_are_encoded() {
    assert_eq!(
        token_panel().subscription_url(&client("a", "x/y ü")),
        "https://sub/x%2Fy%20%C3%BC"
    );
}

#[test]
fn deletion_names_the_client() {
    let clients = vec![client("A b", "1")];
    assert_eq!(
        token_panel().delete_path(&clients, "@a B").as_deref(),
        Some("/panel/api/clients/del/A%20b")
    );
    assert_eq!(token_panel().delete_path(&clients, "c"), None);
}

#[test]
fn requests_depend_on_the_way_of_asking() {
    let token = token_panel();
    assert!(!token.uses_session());
    assert_eq!(token.authorization().as_deref(), Some("Bearer t"));
    let session = session_panel();
    assert!(session.uses_session());
    assert_eq!(session.authorization(), None);
    assert_eq!(session.url("/login"), "http://panel/base/login");
    assert!(needs_csrf_token(true, true));
    assert!(!needs_csrf_token(false, true));
    assert!(!needs_csrf_token(true, false));
}

#[test]
fn new_clients_get_everything() {
    let panel = token_panel();
    let run = panel.create_client("@Bob", 99);
    let client = panel.new_client(&run);
    assert_eq!(client.email, "bob");
    assert_eq!(client.total_bytes, 3 << 30);
    assert_eq!(client.inbound_ids, vec![1, 2]);
    assert_eq!(client.flow, "flow");
    assert_eq!(client.tg_id, 99);
    assert_eq!(client.expiry_time, 0);
    assert!(client.enable);
    assert_eq!(client.sub_id.len(), 16);
    assert!(client.sub_id.chars().all(|c| c.is_ascii_hexdigit()));
    assert_eq!(client.id.len(), 36);
    assert_eq!(client.id.as_bytes()[14], b'4');
    let other = panel.new_client(&run);
    assert_ne!(client.id, other.id);
    assert_ne!(client.sub_id, other.sub_id);
    let fixed = token_panel().new_client_as("Al", 5, "i".to_string(), "s".to_string());
    assert_eq!((fixed.id.as_str(), fixed.sub_id.as_str()), ("i", "s"));
}

#[test]
fn existing_clients_are_not_created_again() {
    let mut run = token_panel().create_client("bob", 1);
    match run.step(CreateEvent::Clients(vec![client("BOB", "2")])) {
        CreateAction::Done(found) => assert_eq!(found.sub_id, "2"),
        other => panic!("{other:?}"),
    }
    assert_eq!(run.phase, CreatePhase::Closed);
}

#[test]
fn creation_is_confirmed() {
    let mut run = token_panel().create_client("bob", 1);
    assert!(matches!(run.step(CreateEvent::Clients(vec![])), CreateAction::Send));
    assert!(matches!(run.step(CreateEvent::Added), CreateAction::Ask));
    match run.step(CreateEvent::Clients(vec![client("bob", "3")])) {
        CreateAction::Done(found) => assert_eq!(found.sub_id, "3"),
        other => panic!("{other:?}"),
    }
}

#[test]
fn creation_that_leaves_no_client_fails() {
    let mut run = token_panel().create_client("bob", 1);
    run.step(CreateEvent::Clients(vec![]));
    run.step(CreateEvent::Added);
    match run.step(CreateEvent::Clients(vec![])) {
        CreateAction::Fail(e) => assert_eq!(e, "client `bob` not found right after creation"),
        other => panic!("{other:?}"),
    }
    let mut run = token_panel().create_client("bob", 1);
    run.step(CreateEvent::Clients(vec![]));
    match run.step(CreateEvent::Failed("x".to_string())) {
        CreateAction::Fail(e) => assert_eq!(e, "clients/add failed: x"),
        other => panic!("{other:?}"),
    }
    let mut run = token_panel().create_client("bob", 1);
    match run.step(CreateEvent::Failed("x".to_string())) {
        CreateAction::Fail(e) => assert_eq!(e, "x"),
        other => panic!("{other:?}"),
    }
}

fn reply(status: u16, body: &str, api: Result<(bool, &str), &str>) -> CallReply {
    CallReply {
        status,
        status_text: format!("{status} Text"),
        body: body.to_string(),
        api: match api {
            Ok((success, msg)) => Ok(ApiStatus {
                success,
                msg: msg.to_string(),
            }),
            Err(cause) => Err(cause.to_string()),
        },
    }
}

#[test]
fn refused_session_logs_in_once() {
    let mut call = Call::new("GET", "/x", true);
    let refused = reply(404, "gone", Err("eof"));
    assert!(matches!(call.step(&refused), CallAction::LogInAgain));
    match call.step(&refused) {
        CallAction::Fail(e) => assert_eq!(e, "GET /x: HTTP 404 Text: gone"),
        other => panic!("{other:?}"),
    }
    let mut call = Call::new("GET", "/x", false);
    assert!(matches!(call.step(&refused), CallAction::Fail(_)));
}

#[test]
fn replies_are_judged() {
    let mut call = Call::new("POST", "/y", true);
    assert!(matches!(call.step(&reply(200, "{}", Ok((true, "")))), CallAction::Done));
    match call.step(&reply(200, "{}", Ok((false, "no")))) {
        CallAction::Fail(e) => assert_eq!(e, "POST /y: no"),
        other => panic!("{other:?}"),
    }
    match call.step(&reply(200, "<html>", Err("eof"))) {
        CallAction::Fail(e) => assert_eq!(e, "POST /y: invalid JSON: <html>: eof"),
        other => panic!("{other:?}"),
    }
    match call.step(&reply(500, &"ä".repeat(400), Err("eof"))) {
        CallAction::Fail(e) => assert_eq!(e, format!("POST /y: HTTP 500 Text: {}", "ä".repeat(300))),
        other => panic!("{other:?}"),
    }
}

#[test]
fn texts_are_truncated_by_characters() {
    assert_eq!(truncate("äöü", 2), "äö");
    assert_eq!(truncate("äöü", 3), "äöü");
    assert_eq!(truncate("", 0), "");
    assert!(is_unauthorized(401) && is_unauthorized(403) && is_unauthorized(404));
    assert!(!is_unauthorized(400) && !is_unauthorized(500));
}

#[test]
fn sessions_remember_the_login() {
    let mut session = Session::new();
    assert!(session.needs_login(true));
    assert!(!session.needs_login(false));
    let refused = ApiStatus {
        success: false,
        msg: "bad".to_string(),
    };
    assert_eq!(session.on_login(&refused).unwrap_err(), "panel login failed: bad");
    assert!(session.needs_login(true));
    let accepted = ApiStatus {
        success: true,
        msg: String::new(),
    };
    session.on_login(&accepted).unwrap();
    assert!(!session.needs_login(true));
    session.drop_login();
    assert!(session.needs_login(true));
}

#[test]
fn server_status_is_read() {
    let text = r#"{"cpu":1.5,"mem":{"current":10,"total":20},"disk":{"current":-1},"uptime":30,"xray":{"state":"running"}}"#;
    let status = ServerStatus::from_json(&parse_json(text).unwrap(), "2".to_string());
    assert_eq!(
        (status.mem_used, status.mem_total, status.disk_used, status.disk_total),
        (10, 20, 0, 0)
    );
    assert_eq!(status.uptime_secs, 30);
    assert_eq!(status.xray_state.as_deref(), Some("running"));
    assert_eq!(status.cpu_percent, "2");
    let value: serde_json::Value = serde_json::from_str(text).unwrap();
    assert_eq!(ServerStatus::from_value(value, String::new()).mem_total, 20);
    let empty = ServerStatus::from_json(&parse_json("[]").unwrap(), String::new());
    assert_eq!(empty.xray_state, None);
}

#[test]
fn additions_name_everything() {
    let client = token_panel().new_client_as("@Al", u64::MAX, "i".to_string(), "s".to_string());
    let body = json_of_value(client.body());
    let sent = body.field("client").unwrap();
    for (key, value) in [("email", "al"), ("id", "i"), ("subId", "s"), ("flow", "flow"), ("comment", "")] {
        assert_eq!(sent.str_field(key).as_deref(), Some(value), "{key}");
    }
    assert_eq!(sent.uint_field("totalGB"), Some(3 << 30));
    assert_eq!((sent.uint_field("tgId"), sent.int_field("tgId")), (Some(u64::MAX), None));
    for key in ["expiryTime", "limitIp", "reset"] {
        assert_eq!(sent.int_field(key), Some(0), "{key}");
    }
    assert_eq!(sent.bool_field("enable"), Some(true));
    let ids: Vec<_> = body
        .array_field("inboundIds")
        .unwrap()
        .iter()
        .map(|id| id.as_i64())
        .collect();
    assert_eq!(ids, [Some(1), Some(2)]);
    assert_eq!(
        client.body().to_string(),
        r#"{"client":{"comment":"","email":"al","enable":true,"expiryTime":0,"flow":"flow","id":"i","limitIp":0,"reset":0,"subId":"s","tgId":18446744073709551615,"totalGB":3221225472},"inboundIds":[1,2]}"#
    );
}
