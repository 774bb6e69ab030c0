use vpn_bot::bot::ui::{
    approval_keyboard, format_bytes, format_duration, format_login, format_unix, long_messages,
    meme_keyboard, subscription_keyboard, subscription_text, web_app_info, web_app_keyboard, Action,
    Button, ButtonTarget, LIMIT,
};

fn payload(button: &Button) -> &str {
    match &button.target {
        ButtonTarget::Callback(payload) => payload,
        ButtonTarget::WebApp(url) => url,
    }
}

#[test]
fn action_roundtrip() {
    for action in [
        Action::Guide,
        Action::Resend,
        Action::Approve(42),
        Action::Deny(7),
        Action::MemeLike(-100123),
        Action::MemeDislike(5),
    ] {
        assert_eq!(Action::decode(&action.encode()), Some(action));
    }
    assert_eq!(Action::decode("approve:x"), None);
    assert_eq!(Action::decode("nope"), None);
}

#[test]
fn bytes_are_human_readable() {
    assert_eq!(format_bytes(512), "512 Б");
    assert_eq!(format_bytes(1536), "1.5 КБ");
    assert_eq!(format_bytes(3 * 1024 * 1024 * 1024), "3.0 ГБ");
}

fn by_floats(bytes: u64) -> String {
    let units = ["Б", "КБ", "МБ", "ГБ", "ТБ"];
    let mut value = bytes as f64;
    let mut unit = 0;
    while value >= 1024.0 && unit < units.len() - 1 {
        value /= 1024.0;
        unit += 1;
    }
    if unit == 0 {
        format!("{bytes} {}", units[0])
    } else {
        format!("{value:.1} {}", units[unit])
    }
}

#[test]
fn bytes_are_rounded_like_floats() {
    let mut n: u64 = 1;
    let mut x: u64 = 0x2545_F491_4F6C_DD1D;
    for _ in 0..64 {
        for d in 0..3u64 {
            let at = n.wrapping_add(d).wrapping_sub(1);
            assert_eq!(format_bytes(at), by_floats(at), "{at}");
            assert_eq!(
                format_bytes(at.wrapping_mul(5) / 4),
                by_floats(at.wrapping_mul(5) / 4)
            );
        }
        n = n.wrapping_mul(2);
    }
    for _ in 0..2000 {
        x ^= x << 13;
        x ^= x >> 7;
        x ^= x << 17;
        let shifted = x >> (x % 60);
        assert_eq!(format_bytes(shifted), by_floats(shifted), "{shifted}");
    }
    for tie in [1024 + 256, 1024 + 768, 1024 * 1024 + 1024 * 256, u64::MAX, (1 << 53) + 1] {
        assert_eq!(format_bytes(tie), by_floats(tie), "{tie}");
    }
    assert_eq!(format_bytes(1280), "1.2 КБ");
    assert_eq!(format_bytes(1792), "1.8 КБ");
    assert_eq!(format_bytes(u64::MAX), "16777216.0 ТБ");
}

#[test]
fn payloads_are_short_and_admin_only_where_they_decide() {
    for action in [
        Action::Approve(u64::MAX),
        Action::Deny(u64::MAX),
        Action::MemeLike(i64::MIN),
        Action::MemeDislike(i64::MIN),
    ] {
        assert!(action.encode().len() <= 64);
        assert_eq!(Action::decode(&action.encode()), Some(action));
        assert!(action.is_admin_only());
    }
    assert!(!Action::Guide.is_admin_only());
    assert!(!Action::Resend.is_admin_only());
}

#[test]
fn payload_arguments_are_numbers() {
    assert_eq!(Action::decode("approve:+7"), Some(Action::Approve(7)));
    assert_eq!(Action::decode("approve:-7"), None);
    assert_eq!(Action::decode("approve:"), None);
    assert_eq!(Action::decode("approve:1:2"), None);
    assert_eq!(Action::decode("guide:anything"), Some(Action::Guide));
    assert_eq!(Action::decode(""), None);
    assert_eq!(Action::decode("deny:18446744073709551616"), None);
}

#[test]
fn keyboards_carry_their_actions() {
    let keyboard = approval_keyboard(9);
    assert_eq!(keyboard.row[0].label, "✅ Одобрить");
    assert_eq!(payload(&keyboard.row[0]), "approve:9");
    assert_eq!(payload(&keyboard.row[1]), "deny:9");
    let keyboard = meme_keyboard(-5);
    assert_eq!(payload(&keyboard.row[0]), "meme_like:-5");
    assert_eq!(payload(&keyboard.row[1]), "meme_dislike:-5");
    let keyboard = subscription_keyboard();
    assert_eq!(payload(&keyboard.row[0]), "guide");
    assert_eq!(payload(&keyboard.row[1]), "resend");
}

#[test]
fn web_app_needs_a_valid_address() {
    assert_eq!(web_app_info(None), None);
    assert_eq!(web_app_info(Some("not an address")), None);
    let address = web_app_info(Some("https://Example.com"));
    assert_eq!(address.as_deref(), Some("https://example.com/"));
    let keyboard = web_app_keyboard(address).unwrap();
    assert_eq!(keyboard.row.len(), 1);
    assert_eq!(payload(&keyboard.row[0]), "https://example.com/");
    assert!(web_app_keyboard(None).is_none());
}

#[test]
fn logins_are_shown_with_one_at() {
    assert_eq!(format_login("ilya"), "@ilya");
    assert_eq!(format_login("  @@ilya "), "@ilya");
    assert_eq!(format_login(&format_login(" @ x")), format_login(" @ x"));
    assert_eq!(format_login(""), "@");
}

#[test]
fn durations_are_readable() {
    assert_eq!(format_duration(0), "0 ч 0 мин");
    assert_eq!(format_duration(3 * 3600 + 59 * 60 + 59), "3 ч 59 мин");
    assert_eq!(format_duration(86_400 * 2 + 3600 * 5 + 1), "2 д 5 ч");
}

#[test]
fn moments_are_readable() {
    assert_eq!(format_unix(0), "1970-01-01 00:00 UTC");
    assert_eq!(format_unix(1_700_000_000), "2023-11-14 22:13 UTC");
    assert_eq!(format_unix(i64::MAX), "9223372036854775807");
}

#[test]
fn subscription_message_holds_title_and_link() {
    let text = subscription_text("Title", "https://sub/x");
    assert!(text.starts_with("Title\n\n👉"));
    assert!(text.ends_with("/guide.\n\nhttps://sub/x"));
}

#[test]
fn long_texts_are_split_at_line_ends() {
    assert!(long_messages("").is_empty());
    assert_eq!(long_messages("a\nb"), vec!["a\nb".to_string()]);
    let line = "x".repeat(2000);
    let text = format!("{line}\n{line}\nshort");
    let chunks = long_messages(&text);
    assert_eq!(chunks.len(), 2);
    assert_eq!(chunks[0], line);
    assert_eq!(chunks[1], format!("{line}\nshort"));
    let huge = "y".repeat(LIMIT + 10);
    let chunks = long_messages(&format!("a\n{huge}\nb"));
    assert_eq!(chunks, vec!["a".to_string(), huge.clone(), "b".to_string()]);
    assert_eq!(long_messages("a\r\nb\n"), vec!["a\nb".to_string()]);
}

#[test]
fn chunks_fill_up_to_the_limit() {
    let text = format!("{}\n{}", "a".repeat(1000), "b".repeat(LIMIT - 1001));
    assert_eq!(long_messages(&text).len(), 1);
    let text = format!("{}\n{}", "a".repeat(1000), "b".repeat(LIMIT - 1000));
    assert_eq!(long_messages(&text).len(), 2);
}
