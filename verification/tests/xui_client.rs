use vpn_bot::json::{json_of_value, parse_json};
use vpn_bot::xui::add::{client_email, expiry_time, summary, AddAction, AddPhase};
use vpn_bot::xui::delete::{select_subscription, DeleteAction, DeleteKind};
use vpn_bot::xui::endpoints::{
    ensure_trailing_slash, fetch_subscription_base_url, join_url, list_existing_subscriptions,
    HttpEvent, HttpReply,
};
use vpn_bot::xui::find::{FindAction, FindPhase};
use vpn_bot::xui::login::LoginAction;
use vpn_bot::xui::models::{compact_json, XuiApiResponse};
use vpn_bot::xui::{ExistingSubscription, XuiClient, XuiConfig};

fn panel(login_path: &str, delete_path: &str) -> XuiClient {
    XuiClient::new(XuiConfig {
        base_url: "https://panel/root/".to_string(),
        username: "u".to_string(),
        password: "p".to_string(),
        login_path: login_path.to_string(),
        add_client_path: "/add".to_string(),
        list_inbounds_path: "list".to_string(),
        get_inbound_path: "/get/{id}".to_string(),
        delete_client_path: delete_path.to_string(),
        inbound_id: 4,
        total_gb: 2,
        expiry_days: 1,
    })
}

fn api(body: &str) -> Result<XuiApiResponse, String> {
    let value: serde_json::Value = serde_json::from_str(body).map_err(|e| e.to_string())?;
    let obj = match value.get("obj") {
        None | Some(serde_json::Value::Null) => None,
        Some(obj) => Some(obj.clone()),
    };
    Ok(XuiApiResponse::new(
        value["success"].as_bool(),
        value["msg"].as_str().map(str::to_string),
        obj,
    ))
}

fn reply(ok: bool, body: &str) -> HttpReply {
    HttpReply {
        ok,
        status: if ok { "200 OK" } else { "404 Not Found" }.to_string(),
        body: body.to_string(),
        api: api(body),
    }
}

fn event(ok: bool, body: &str) -> HttpEvent {
    HttpEvent::Reply(reply(ok, body))
}

fn broken(attempt: &str) -> HttpEvent {
    HttpEvent::Broken {
        attempt: attempt.to_string(),
        cause: "status 404".to_string(),
    }
}

fn subscription(email: &str) -> ExistingSubscription {
    ExistingSubscription {
        client_id: "id/1".to_string(),
        email: email.to_string(),
        sub_id: Some("s".to_string()),
        tg_id: None,
        enabled: true,
        expiry_time: 0,
        inbound_remark: String::new(),
        inbound_id: 4,
    }
}

#[test]
fn addresses_are_joined() {
    assert_eq!(join_url("https://a//", "//b"), "https://a/b");
    assert_eq!(join_url("https://a", "b"), "https://a/b");
    assert_eq!(ensure_trailing_slash("a"), "a/");
    assert_eq!(ensure_trailing_slash("a/"), "a/");
    let client = panel("/login", "/d");
    assert_eq!(client.get_inbound_url(), "https://panel/root/get/4");
    assert_eq!(client.list_inbounds_url(), "https://panel/root/list");
    assert_eq!(client.add_client_url(), "https://panel/root/add");
    assert_eq!(
        client.settings_url(),
        "https://panel/root/panel/setting/defaultSettings"
    );
}

#[test]
fn login_succeeds_by_form() {
    let client = panel("/login", "/d");
    let mut run = client.login();
    assert_eq!(run.paths, vec!["/login", "/panel/login", "/xui/login"]);
    assert_eq!(run.url("https://panel"), "https://panel/login");
    assert!(matches!(run.step(&event(true, r#"{"success":true}"#)), LoginAction::Done));
}

#[test]
fn login_that_is_denied_ends() {
    let mut run = panel("/x", "/d").login();
    assert_eq!(run.paths.len(), 4);
    match run.step(&event(true, r#"{"success":false}"#)) {
        LoginAction::Fail(e) => assert_eq!(e, "x-ui login failed: unknown x-ui error"),
        other => panic!("{other:?}"),
    }
    let mut run = panel("/x", "/d").login();
    match run.step(&broken("x-ui login request failed")) {
        LoginAction::Fail(e) => assert_eq!(e, "x-ui login request failed: status 404"),
        other => panic!("{other:?}"),
    }
    let mut run = panel("/x", "/d").login();
    assert!(matches!(run.step(&broken("status 404")), LoginAction::SendForm));
}

#[test]
fn login_falls_back_on_missing_paths() {
    let mut run = panel("/x", "/d").login();
    for path in ["/x", "/login", "/panel/login"] {
        assert_eq!(run.url(""), path);
        assert!(matches!(run.step(&event(false, "no")), LoginAction::SendJson));
        assert!(matches!(run.step(&event(false, "no")), LoginAction::SendForm));
    }
    assert!(matches!(run.step(&event(true, "text")), LoginAction::SendJson));
    match run.step(&event(false, "no")) {
        LoginAction::Fail(e) => assert_eq!(e, "x-ui login failed with status 404 Not Found: no"),
        other => panic!("{other:?}"),
    }
}

#[test]
fn login_by_json_is_judged() {
    let mut run = panel("/login", "/d").login();
    run.step(&event(false, ""));
    assert!(matches!(run.step(&event(true, "anything")), LoginAction::Done));
    let mut run = panel("/login", "/d").login();
    run.step(&event(false, ""));
    match run.step(&event(true, r#"{"success":false}"#)) {
        LoginAction::Fail(e) => assert_eq!(e, r#"x-ui login failed: {"success":false}"#),
        other => panic!("{other:?}"),
    }
}

#[test]
fn plain_login_tries_one_path() {
    let mut run = panel("/x", "/d").plain_login();
    assert_eq!(run.paths, vec!["/x"]);
    assert!(matches!(run.step(&event(true, "ok")), LoginAction::Done));
    let mut run = panel("/x", "/d").plain_login();
    assert!(matches!(
        run.step(&event(true, r#"{"success":false}"#)),
        LoginAction::SendJson
    ));
    assert!(matches!(run.step(&event(false, "x")), LoginAction::Fail(_)));
}

#[test]
fn subscription_base_is_read() {
    let base = |ok: bool, body: &str| fetch_subscription_base_url(&reply(ok, body), "https://p/");
    assert_eq!(base(false, "x"), Ok(None));
    assert_eq!(
        base(true, "x"),
        Err("x-ui defaultSettings invalid json: expected value at line 1 column 1".to_string())
    );
    assert_eq!(base(true, r#"{"obj":{"subEnable":false,"subURI":"/s"}}"#), Ok(None));
    assert_eq!(base(true, r#"{"obj":{"subEnable":true,"subURI":" "}}"#), Ok(None));
    assert_eq!(
        base(true, r#"{"obj":{"subEnable":true,"subURI":"/s"}}"#),
        Ok(Some("https://p/s/".to_string()))
    );
    assert_eq!(
        base(true, r#"{"obj":{"subEnable":true,"subURI":"https://q/s/"}}"#),
        Ok(Some("https://q/s/".to_string()))
    );
}

#[test]
fn list_of_inbounds_is_judged() {
    assert_eq!(
        list_existing_subscriptions(&reply(false, "x")).unwrap_err(),
        "x-ui list inbounds failed with status 404 Not Found"
    );
    assert_eq!(
        list_existing_subscriptions(&reply(true, "x")).unwrap_err(),
        "x-ui list inbounds invalid json: expected value at line 1 column 1"
    );
    assert!(list_existing_subscriptions(&reply(true, "{}")).unwrap().is_empty());
}

const SETTINGS: &str = r#"{"obj":{"subEnable":true,"subURI":"https://s/"}}"#;
const LIST: &str =
    r#"{"success":true,"obj":[{"id":4,"settings":{"clients":[{"id":"u","email":"bob","subId":"z"}]}}]}"#;

#[test]
fn new_clients_are_described() {
    let (client, run) = panel("/x", "/d").add_client(77, None);
    assert_eq!(client.email, "tg_77");
    assert_eq!(client.tg_id, "77");
    assert_eq!(client.total_bytes, 2 << 30);
    assert_eq!(client.expiry_time, 0);
    assert!(client.enable);
    assert_eq!(client.id.len(), 36);
    assert_ne!(client.id, client.sub_id);
    assert_eq!(run.phase, AddPhase::Added);
    assert!(run.query.ranked);
    let (client, run) = panel("/x", "/d").add_expiring_client(77, Some("bob"), 1000);
    assert_eq!(client.expiry_time, 86_401_000);
    assert_eq!(client.email, "bob");
    assert!(!run.query.ranked);
    assert_eq!(client_email(Some("x"), 1), "x");
    assert_eq!(expiry_time(0, 5), 0);
    assert_eq!(expiry_time(-3, 5), 0);
    assert_eq!(expiry_time(1, -86_400_001), -1);
    assert_eq!(expiry_time(2, 5), 172_800_005);
}

#[test]
fn added_client_gets_its_subscription() {
    let (_, mut run) = panel("/x", "/d").add_client(1, Some("Bob"));
    run.query.client_uuid = "uuid".to_string();
    let added = r#"{"success":true,"obj":{"url":"https://x"}}"#;
    assert!(matches!(run.step(event(true, added)), AddAction::Ask));
    assert_eq!(run.phase, AddPhase::Settings);
    assert!(matches!(run.step(event(true, SETTINGS)), AddAction::Ask));
    assert_eq!(run.phase, AddPhase::List);
    match run.step(event(true, LIST)) {
        AddAction::Done(created) => {
            assert_eq!(created.connection_url.as_deref(), Some("https://s/z"));
            assert_eq!(
                created.summary,
                "Created client `Bob` (`uuid`)\\nPanel response: `{\"url\":\"https://x\"}`"
            );
        }
        other => panic!("{other:?}"),
    }
}

#[test]
fn added_client_falls_back_to_the_reply_and_the_inbounds() {
    let (_, mut run) = panel("/x", "/d").add_client(1, Some("bob"));
    run.step(event(true, r#"{"success":true,"obj":{"url":"https://x"}}"#));
    match run.step(event(false, "")) {
        AddAction::Done(created) => {
            assert_eq!(created.connection_url.as_deref(), Some("https://x"))
        }
        other => panic!("{other:?}"),
    }
    let (_, mut run) = panel("/x", "/d").add_client(1, Some("bob"));
    run.step(event(true, "not json"));
    assert!(matches!(run.step(event(false, "")), AddAction::Ask));
    assert_eq!(run.phase, AddPhase::Inbound);
    assert!(matches!(run.step(broken("x")), AddAction::Ask));
    assert_eq!(run.phase, AddPhase::Inbounds);
    match run.step(broken("x")) {
        AddAction::Done(created) => {
            assert_eq!(created.connection_url, None);
            assert!(created.summary.ends_with("`)."));
        }
        other => panic!("{other:?}"),
    }
}

#[test]
fn refused_clients_are_reported() {
    let refuse = |ok: bool, body: &str| {
        let (_, mut run) = panel("/x", "/d").add_client(1, None);
        match run.step(event(ok, body)) {
            AddAction::Fail(e) => e,
            other => panic!("{other:?}"),
        }
    };
    assert_eq!(
        refuse(false, "b"),
        "x-ui addClient failed with status 404 Not Found: b"
    );
    assert_eq!(
        refuse(true, r#"{"success":false,"msg":"dup"}"#),
        "x-ui addClient unsuccessful: dup"
    );
    let (_, mut run) = panel("/x", "/d").add_client(1, None);
    match run.step(broken("down")) {
        AddAction::Fail(e) => assert_eq!(e, "down: status 404"),
        other => panic!("{other:?}"),
    }
    let (_, mut run) = panel("/x", "/d").add_client(1, None);
    run.step(event(true, "{}"));
    assert!(matches!(run.step(event(true, "oops")), AddAction::Fail(_)));
}

#[test]
fn expiring_client_skips_subscriptions() {
    let (_, mut run) = panel("/x", "/d").add_expiring_client(1, Some("bob"), 0);
    assert!(matches!(run.step(event(true, "{}")), AddAction::Ask));
    assert_eq!(run.phase, AddPhase::Inbound);
    match run.step(event(true, r#"["https://a","https://bob"]"#)) {
        AddAction::Done(created) => {
            assert_eq!(created.connection_url.as_deref(), Some("https://bob"))
        }
        other => panic!("{other:?}"),
    }
}

#[test]
fn known_client_is_searched_for() {
    let mut run = panel("/x", "/d").find_client_connection_url_by_email("BOB");
    assert!(matches!(run.step(&event(true, SETTINGS)), FindAction::Ask));
    match run.step(&event(true, LIST)) {
        FindAction::Done(link) => assert_eq!(link.as_deref(), Some("https://s/z")),
        other => panic!("{other:?}"),
    }
    let mut run = panel("/x", "/d").find_client_connection_url_by_email("ann");
    run.step(&event(true, SETTINGS));
    assert!(matches!(run.step(&event(true, LIST)), FindAction::Ask));
    assert_eq!(run.phase, FindPhase::Inbound);
    assert!(matches!(run.step(&event(true, "{}")), FindAction::Ask));
    match run.step(&event(true, r#"{"link":"https://x/sub/ann"}"#)) {
        FindAction::Done(link) => assert_eq!(link.as_deref(), Some("https://x/sub/ann")),
        other => panic!("{other:?}"),
    }
    let mut run = panel("/x", "/d").find_client_connection_url_by_email("ann");
    assert!(matches!(run.step(&event(true, "oops")), FindAction::Fail(_)));
}

#[test]
fn known_client_link_is_made_of_an_inbound() {
    let inbound = r#"{"success":true,"obj":{"id":4,"protocol":"vless","port":9,"settings":{"clients":[{"id":"u","email":"bob"}]},"streamSettings":{}}}"#;
    let mut run = panel("/x", "/d").find_client_connection_url_by_email("bob");
    run.step(&event(false, ""));
    match run.step(&event(true, inbound)) {
        FindAction::Done(link) => assert_eq!(
            link.as_deref(),
            Some("vless://u@panel:9?type=tcp&security=none#vpn-bob")
        ),
        other => panic!("{other:?}"),
    }
}

#[test]
fn deletion_tries_routes_and_json() {
    let client = panel("/x", "/inbound/{id}/del/{clientId}");
    let run = client.delete_subscription(&subscription("b ob"));
    let kinds: Vec<DeleteKind> = run.requests.iter().map(|r| r.kind).collect();
    assert_eq!(kinds.len(), 14);
    assert_eq!(run.requests[0].url, "https://panel/root/inbound/4/del/id%2F1");
    assert_eq!(run.requests[0].kind, DeleteKind::RoutePost);
    assert_eq!(run.requests[1].kind, DeleteKind::RouteGet);
    assert_eq!(run.requests[2].url, "https://panel/root/inbound/4/del/b%20ob");
    assert_eq!(
        run.requests[12].url,
        "https://panel/root/panel/api/inbounds/delClient"
    );
    assert_eq!(run.requests[12].client_id, "b ob");
    assert_eq!(run.requests[13].client_id, "id/1");
    assert_eq!(
        run.requests[1].failure_text(),
        "x-ui delete client route GET failed for https://panel/root/inbound/4/del/id%2F1"
    );
}

#[test]
fn deletion_stops_at_the_first_acceptance() {
    let client = panel("/x", "/del");
    let mut run = client.delete_subscription(&subscription("bob"));
    assert!(matches!(run.step(&event(false, "")), DeleteAction::Send));
    assert!(matches!(
        run.step(&event(true, r#"{"success":false}"#)),
        DeleteAction::Send
    ));
    assert!(matches!(run.step(&event(true, "ok")), DeleteAction::Finished(true)));
}

#[test]
fn rejected_deletion_ends_without_success() {
    let client = panel("/x", "/del");
    let mut run = client.delete_subscription(&subscription("bob"));
    let count = run.requests.len();
    for _ in 1..count {
        assert!(matches!(run.step(&event(false, "")), DeleteAction::Send));
    }
    assert!(matches!(run.step(&event(false, "")), DeleteAction::Finished(false)));
    let mut run = client.delete_subscription(&subscription("bob"));
    assert!(matches!(
        run.step(&broken("x")),
        DeleteAction::Fail(_)
    ));
}

#[test]
fn deletion_needs_exactly_one_subscription() {
    let subs = vec![subscription("bob"), subscription("ann"), subscription("@Ann")];
    assert_eq!(select_subscription(&subs, "BOB"), Ok(Some(0)));
    assert_eq!(select_subscription(&subs, "carl"), Ok(None));
    assert_eq!(
        select_subscription(&subs, "ann"),
        Err("multiple subscriptions found for login `ann`".to_string())
    );
    let client = panel("/x", "/del");
    assert!(client.delete_subscription_by_email(&subs, "bob").unwrap().is_some());
    assert!(client.delete_subscription_by_email(&subs, "carl").unwrap().is_none());
    assert!(client.delete_subscription_by_email(&subs, "ann").is_err());
}

#[test]
fn summaries_quote_the_reply() {
    assert_eq!(summary("e", "u", &None), "Created client `e` (`u`).");
    let value: serde_json::Value = serde_json::from_str(r#"{ "b" : [1, 2] }"#).unwrap();
    assert_eq!(compact_json(&value), r#"{"b":[1,2]}"#);
    assert!(parse_json("[1]").is_some());
}

#[test]
fn requests_have_their_bodies() {
    let (client, _) = panel("/x", "/del").add_client(77, Some("bob"));
    let settings = json_of_value(client.settings());
    let clients = settings.array_field("clients").unwrap();
    assert_eq!(clients.len(), 1);
    assert_eq!(clients[0].str_field("id"), Some(client.id.clone()));
    assert_eq!(clients[0].str_field("subId"), Some(client.sub_id.clone()));
    assert_eq!(clients[0].str_field("email").as_deref(), Some("bob"));
    assert_eq!(clients[0].str_field("tgId").as_deref(), Some("77"));
    assert_eq!(clients[0].str_field("flow").as_deref(), Some(""));
    assert_eq!(clients[0].int_field("totalGB"), Some(2 << 30));
    for key in ["limitIp", "expiryTime", "reset"] {
        assert_eq!(clients[0].int_field(key), Some(0), "{key}");
    }
    assert_eq!(clients[0].bool_field("enable"), Some(true));
    let text = format!(
        r#"{{"clients":[{{"email":"bob","enable":true,"expiryTime":0,"flow":"","id":"{}","limitIp":0,"reset":0,"subId":"{}","tgId":"77","totalGB":2147483648}}]}}"#,
        client.id, client.sub_id
    );
    assert_eq!(client.settings_text(), text);
    let body = json_of_value(client.settings_body(-4));
    assert_eq!((body.int_field("id"), body.uint_field("id")), (Some(-4), None));
    assert_eq!(body.str_field("settings"), Some(text));

    let run = panel("/x", "/del").delete_subscription(&subscription("bob"));
    let body = json_of_value(run.requests[0].body().unwrap());
    assert_eq!(body.int_field("id"), Some(4));
    assert_eq!(body.str_field("clientId").as_deref(), Some("bob"));
    assert_eq!(body.str_field("email").as_deref(), Some("bob"));
    assert!(run.requests[2].body().is_none());
}
