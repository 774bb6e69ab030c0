use vpn_bot::json::{json_of_value, parse_json, read_json, Json};
use vpn_bot::xui::candidates::{
    candidate_matches_identity, choose_url_with_priority, collect_connection_urls,
    dedup_preserve_order, find_best_connection_url, find_best_scored_url, is_config_url_candidate,
    is_connection_url_candidate, is_subscription_url_candidate, pick_by_kind,
};
use vpn_bot::xui::links::{
    append_if_non_empty, first_string, generate_connection_url_from_server_obj,
    generate_vless_link_from_inbound, inbound_address, parse_json_field, vless_link_parts,
};
use vpn_bot::xui::models::compact_json;
use vpn_bot::xui::subscriptions::{
    collect_inbound_subscriptions, find_subscription_link, listed_subscriptions,
};

fn json(text: &str) -> Json {
    parse_json(text).unwrap()
}

fn strings(items: &[&str]) -> Vec<String> {
    items.iter().map(|s| s.to_string()).collect()
}

#[test]
fn urls_are_recognized() {
    assert!(is_connection_url_candidate("  VLESS://x"));
    assert!(is_connection_url_candidate("https://x"));
    assert!(is_connection_url_candidate("ss://x"));
    assert!(!is_connection_url_candidate("ftp://x"));
    assert!(is_subscription_url_candidate("HTTPS://x/SUB/1"));
    assert!(is_subscription_url_candidate("http://x/subscribe"));
    assert!(!is_subscription_url_candidate("https://x"));
    assert!(!is_subscription_url_candidate("vless://x/sub"));
    assert!(is_config_url_candidate("tuic://x"));
    assert!(!is_config_url_candidate("https://x"));
}

#[test]
fn urls_under_usual_keys_come_first() {
    let value = json(
        r#"{"a":"https://a","link":"https://l","list":["http://1",{"url":"ss://2"}],"n":1}"#,
    );
    let mut out = Vec::new();
    collect_connection_urls(&value, &mut out);
    assert_eq!(
        out,
        strings(&["https://l", "https://a", "https://l", "http://1", "ss://2", "ss://2"])
    );
}

#[test]
fn repeats_are_dropped() {
    assert_eq!(
        dedup_preserve_order(strings(&["a", " a", "", " ", "b", "a"])),
        strings(&["a", "b"])
    );
}

#[test]
fn identities_have_to_be_given() {
    assert!(!candidate_matches_identity("x", "", "", ""));
    assert!(candidate_matches_identity("x-bob", "bob", "", ""));
    assert!(candidate_matches_identity("x-id", "bob", "id", ""));
    assert!(candidate_matches_identity("x-s", "", "", "s"));
    assert!(!candidate_matches_identity("x", "bob", "id", "s"));
}

#[test]
fn subscriptions_are_preferred() {
    let urls = strings(&["vless://1", "https://x/sub/2", "https://y"]);
    assert_eq!(pick_by_kind(&urls).as_deref(), Some("https://x/sub/2"));
    assert_eq!(pick_by_kind(&strings(&["https://y"])), None);
    let urls = strings(&["https://x/sub/other", "vless://bob"]);
    assert_eq!(
        choose_url_with_priority(&urls, "bob", "", "").as_deref(),
        Some("vless://bob")
    );
    assert_eq!(
        choose_url_with_priority(&urls, "ann", "", "").as_deref(),
        Some("https://x/sub/other")
    );
}

#[test]
fn best_url_is_chosen() {
    let value = json(r#"["https://plain", "https://x/sub/1", "vless://id"]"#);
    assert_eq!(
        find_best_connection_url(&value, "", "", "").as_deref(),
        Some("https://x/sub/1")
    );
    assert_eq!(
        find_best_connection_url(&value, "", "id", "").as_deref(),
        Some("vless://id")
    );
    assert_eq!(
        find_best_connection_url(&json(r#"["https://plain"]"#), "", "", "").as_deref(),
        Some("https://plain")
    );
    assert_eq!(find_best_connection_url(&json("{}"), "a", "b", "c"), None);
}

#[test]
fn score_counts_identities() {
    let value = json(r#"["https://mail", "https://uuid", "https://uuid/sub"]"#);
    assert_eq!(
        find_best_scored_url(&value, "mail", "uuid", "sub").as_deref(),
        Some("https://uuid/sub")
    );
    assert_eq!(
        find_best_scored_url(&value, "mail", "uuid", "none").as_deref(),
        Some("https://uuid")
    );
    assert_eq!(
        find_best_scored_url(&value, "", "", "").as_deref(),
        Some("https://mail")
    );
    assert_eq!(find_best_scored_url(&json("1"), "a", "b", "c"), None);
}

#[test]
fn first_strings_are_found() {
    assert_eq!(first_string(None), None);
    assert_eq!(first_string(Some(&json(r#"[1,"a","b"]"#))).as_deref(), Some("a"));
    assert_eq!(first_string(Some(&json(r#"" , x ,y""#))).as_deref(), Some("x"));
    assert_eq!(first_string(Some(&json("7"))), None);
    assert_eq!(first_string(Some(&json("[]"))), None);
}

#[test]
fn addresses_fall_back_to_the_panel() {
    let at = |text: &str| inbound_address(&json(text), "https://panel.example:1/x");
    assert_eq!(at(r#"{"listen":" 1.2.3.4 "}"#).as_deref(), Some("1.2.3.4"));
    assert_eq!(at(r#"{"listen":"0.0.0.0"}"#).as_deref(), Some("panel.example"));
    assert_eq!(at("{}").as_deref(), Some("panel.example"));
    assert_eq!(inbound_address(&json("{}"), "nonsense"), None);
}

#[test]
fn blank_pairs_are_left_out() {
    let mut pairs = Vec::new();
    append_if_non_empty(&mut pairs, "a", None);
    append_if_non_empty(&mut pairs, "b", Some("  ".to_string()));
    append_if_non_empty(&mut pairs, "c", Some(" x ".to_string()));
    assert_eq!(pairs, vec![("c".to_string(), "x".to_string())]);
}

#[test]
fn settings_are_values_or_texts() {
    assert!(parse_json_field(&json("1")).is_none());
    assert!(parse_json_field(&json(r#""{oops""#)).is_none());
    assert!(matches!(parse_json_field(&json(r#""[1]""#)), Some(Json::Array(_))));
    assert!(matches!(parse_json_field(&json("{}")), Some(Json::Object(_))));
}

const REALITY: &str = r#"{
    "id": 4, "protocol": "vless", "port": 443, "remark": "main", "listen": "",
    "settings": "{\"clients\":[{\"id\":\"u-1\",\"email\":\"bob\",\"flow\":\"vision\"}]}",
    "streamSettings": {"network":"tcp","security":"reality","realitySettings":{
        "serverNames":["a.com","b.com"],"shortIds":"ab,cd",
        "settings":{"publicKey":"key","fingerprint":"chrome","spiderX":"/"}}}
}"#;

#[test]
fn reality_links_are_built() {
    let link = generate_vless_link_from_inbound(&json(REALITY), "https://host/", "bob", "", true);
    assert_eq!(
        link.as_deref(),
        Some("vless://u-1@host:443?type=tcp&security=reality&pbk=key&fp=chrome&sni=a.com&sid=ab&spx=%2F&flow=vision#main-bob")
    );
}

#[test]
fn tls_and_plain_links_are_built() {
    let tls = r#"{"protocol":"vless","port":1,"settings":{"clients":[{"id":"u","email":"e"}]},
        "streamSettings":{"network":"ws","security":"tls","tlsSettings":{"serverName":"s.com","settings":{"fingerprint":"ff"}}}}"#;
    let parts = vless_link_parts(&json(tls), "https://h", "", "u", true).unwrap();
    assert_eq!(parts.base, "vless://u@h:1");
    assert_eq!(parts.fragment, "vpn-e");
    let pairs: Vec<(&str, &str)> = parts
        .pairs
        .iter()
        .map(|(k, v)| (k.as_str(), v.as_str()))
        .collect();
    assert_eq!(
        pairs,
        [("type", "ws"), ("security", "tls"), ("fp", "ff"), ("sni", "s.com")]
    );
    let plain = r#"{"protocol":"vless","port":1,"settings":{"clients":[{"id":"u"}]},"streamSettings":{}}"#;
    let parts = vless_link_parts(&json(plain), "https://h", "mail", "u", true).unwrap();
    assert_eq!(parts.pairs.len(), 2);
    assert_eq!(parts.fragment, "vpn-mail");
    assert!(parts.can_be_built());
    assert_eq!(
        parts.build().as_deref(),
        Some("vless://u@h:1?type=tcp&security=none#vpn-mail")
    );
}

#[test]
fn long_links_are_built() {
    let name = "é".repeat(1 << 20);
    let text = format!(
        r#"{{"protocol":"vless","port":1,"settings":{{"clients":[{{"id":"u"}}]}},"streamSettings":{{"security":"tls","tlsSettings":{{"serverName":"{name}"}}}}}}"#
    );
    let link = generate_vless_link_from_inbound(&json(&text), "https://h", "mail", "u", true);
    assert_eq!(
        link,
        Some(format!(
            "vless://u@h:1?type=tcp&security=tls&sni={}#vpn-mail",
            "%C3%A9".repeat(1 << 20)
        ))
    );
    let mut parts = vless_link_parts(&json(&text), "https://h", "mail", "u", true).unwrap();
    parts.base = "vless://u@h:1?#old".to_string();
    assert!(parts.can_be_built());
    parts.pairs.truncate(1);
    assert_eq!(parts.build().as_deref(), Some("vless://u@h:1?type=tcp#vpn-mail"));
    parts.pairs.clear();
    assert!(!parts.can_be_built());
}

#[test]
fn links_need_their_parts() {
    let make = |text: &str, email: &str, uuid: &str, strict: bool| {
        generate_vless_link_from_inbound(&json(text), "https://h", email, uuid, strict)
    };
    assert_eq!(make(r#"{"protocol":"vmess"}"#, "e", "u", true), None);
    assert_eq!(make(r#"{"protocol":"vless"}"#, "e", "u", true), None);
    let empty_id = r#"{"protocol":"vless","port":1,"settings":{"clients":[{"id":"","email":"x"}]},"streamSettings":{}}"#;
    assert_eq!(make(empty_id, "", "", true), None);
    assert!(make(empty_id, "", "", false).is_some());
    let no_reality = r#"{"protocol":"vless","port":1,"settings":{"clients":[{"id":"u"}]},"streamSettings":{"security":"reality"}}"#;
    assert_eq!(make(no_reality, "", "u", true), None);
}

#[test]
fn links_are_found_in_replies() {
    let wrapped = format!(r#"{{"success":true,"obj":[{{"id":9}},{REALITY}]}}"#);
    let find = |text: &str, email: &str| {
        generate_connection_url_from_server_obj(&json(text), "https://host", 4, email, "", true)
    };
    assert!(find(&wrapped, "bob").unwrap().starts_with("vless://u-1@host:443?"));
    assert_eq!(find(&wrapped, "ann"), None);
    assert_eq!(find("[]", "bob"), None);
    assert_eq!(find("7", "bob"), None);
    assert_eq!(find(r#"{"id":4}"#, "bob"), None);
}

#[test]
fn subscriptions_are_collected() {
    let inbound = r#"{"id":4,"remark":"main","settings":"{\"clients\":[
        {\"id\":\"u\",\"email\":\"Bob\",\"tgId\":17,\"subId\":\" s \",\"enable\":false,\"expiryTime\":5},
        {\"id\":\"\",\"email\":\"x\"},{\"id\":\"v\"},3,{\"id\":\"w\",\"email\":\"ann\",\"tgId\":\" \"}]}"}"#
        .replace('\n', "");
    let mut out = Vec::new();
    collect_inbound_subscriptions(&json(&inbound), &mut out);
    assert_eq!(out.len(), 2);
    assert_eq!(
        (out[0].client_id.as_str(), out[0].email.as_str(), out[0].inbound_id),
        ("u", "Bob", 4)
    );
    assert_eq!(out[0].tg_id.as_deref(), Some("17"));
    assert_eq!(out[0].sub_id.as_deref(), Some("s"));
    assert!(!out[0].enabled);
    assert_eq!(out[0].expiry_time, 5);
    assert_eq!(out[0].inbound_remark, "main");
    assert_eq!((out[1].tg_id.clone(), out[1].enabled), (None, true));
    let listed = listed_subscriptions(&Some(json(&format!("[{inbound},{{}},1]"))));
    assert_eq!(listed.len(), 2);
    assert_eq!(listed_subscriptions(&Some(json(&inbound))).len(), 2);
    assert!(listed_subscriptions(&None).is_empty());
    assert_eq!(
        find_subscription_link(&listed, "@bob", "https://s/").as_deref(),
        Some("https://s/s")
    );
    assert_eq!(find_subscription_link(&listed, "ann", "https://s/"), None);
    assert_eq!(find_subscription_link(&listed, "carl", "https://s/"), None);
}

#[test]
fn json_values_are_opened() {
    let text = r#"{"a":[null,true,-1,18446744073709551615,1.5,"s"],"a2":{}}"#;
    let value: serde_json::Value = serde_json::from_str(text).unwrap();
    let opened = json_of_value(value);
    let items = opened.array_field("a").unwrap();
    assert!(matches!(items[0], Json::Null));
    assert_eq!(items[1].as_bool(), Some(true));
    assert_eq!((items[2].as_i64(), items[2].as_u64()), (Some(-1), None));
    assert_eq!((items[3].as_i64(), items[3].as_u64()), (None, Some(u64::MAX)));
    assert_eq!((items[4].as_i64(), items[4].as_u64()), (None, None));
    assert!(matches!(&items[4], Json::Number(n) if n.text == "1.5"));
    assert_eq!(items[5].as_str().unwrap(), "s");
    assert!(opened.field("b").is_none());
    assert!(opened.copy().field("a2").is_some());
    assert!(parse_json("{").is_none());
    assert!(matches!(
        read_json("{"),
        Err(e) if e == "EOF while parsing an object at line 1 column 1"
    ));
}

#[test]
fn json_values_are_written() {
    let text = r#"{ "b" : [ null, true, -1, 1.50, "a\"\n\u0001é" ], "a" : {}, "c" : [] }"#;
    let value: serde_json::Value = serde_json::from_str(text).unwrap();
    assert_eq!(
        compact_json(&value),
        r#"{"a":{},"b":[null,true,-1,1.5,"a\"\n\u0001é"],"c":[]}"#
    );
}
