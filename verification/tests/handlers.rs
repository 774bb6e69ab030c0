use vpn_bot::config::{AppConfig, Env};
use vpn_bot::handlers::approval::{
    ApprovalAction, ApprovalEvent, ApprovalPhase, ApprovalRun,
};
use vpn_bot::handlers::command::{
    command_tail, ensure_approver, first_arg, handle_callback, handle_text, normalize_command,
    parse_action, parse_chat_id, parse_request_id, split_target_and_text, CallbackPlan, RequestAction, TextCommand,
    TextPlan,
};
use vpn_bot::handlers::messages::{
    broadcast_text, collect_recipients_from_subscriptions, deleted_text, handle_broadcast,
    handle_delete, handle_direct_message, handle_requests, handle_subs, message_target,
    resolve_message_target_chat_id, sent_text, show_request, PendingCreateRequest, Target,
};
use vpn_bot::handlers::requests::{
    approval_keyboard, approve_request, approving_text, create_failed_text, denied_text,
    format_login, handle_meme_command, handle_non_text, handle_vpn_access, meme_feedback_keyboard,
    not_found_text, request_filed, resolve_user_login, send_help, send_qr, MediaPlan, VpnStep,
};
use vpn_bot::bot::ui::ButtonTarget;
use vpn_bot::state::AppState;
use vpn_bot::storage::InsertResult;
use vpn_bot::xui::{CreatedClientResult, ExistingSubscription};

fn config() -> AppConfig {
    let vars = [
        ("APPROVER_USER_IDS", "1"),
        ("ALLOW_USER_IDS", "1,5"),
        ("XUI_API_TOKEN", "t"),
        ("XUI_INBOUND_IDS", "1"),
        ("XUI_SUBSCRIPTION_BASE_URL", "https://sub/"),
        ("XUI_BASE_URL", "http://p"),
    ]
    .iter()
    .map(|(k, v)| (k.to_string(), v.to_string()))
    .collect();
    AppConfig::from_env(&Env { vars }, None, None).unwrap()
}

fn subscription(email: &str, tg_id: Option<&str>) -> ExistingSubscription {
    ExistingSubscription {
        client_id: "id".to_string(),
        email: email.to_string(),
        sub_id: None,
        tg_id: tg_id.map(str::to_string),
        enabled: true,
        expiry_time: 0,
        inbound_remark: "main".to_string(),
        inbound_id: 4,
    }
}

#[test]
fn commands_are_read() {
    assert_eq!(normalize_command("  /vpn@bot x").as_deref(), Some("/vpn"));
    assert_eq!(normalize_command("vpn"), None);
    assert_eq!(normalize_command(""), None);
    assert_eq!(TextCommand::parse("/start"), TextCommand::Start);
    assert_eq!(TextCommand::parse("/msg@x a b"), TextCommand::Msg);
    assert_eq!(TextCommand::parse("/START"), TextCommand::Unknown);
    assert!(TextCommand::Meme.is_allowed_for_user());
    assert!(!TextCommand::Subs.is_allowed_for_user());
}

#[test]
fn arguments_are_read() {
    assert_eq!(first_arg("/a  b c").as_deref(), Some("b"));
    assert_eq!(first_arg("/a"), None);
    assert_eq!(command_tail("/a  b c ").as_deref(), Some("b c"));
    assert_eq!(command_tail("/a"), None);
    assert_eq!(command_tail(" x").as_deref(), Some("x"));
    assert_eq!(
        split_target_and_text("bob  hi you "),
        Some(("bob".to_string(), "hi you".to_string()))
    );
    assert_eq!(split_target_and_text("bob"), None);
    assert_eq!(split_target_and_text("bob  "), None);
    assert_eq!(parse_action("deny"), Some(RequestAction::Deny));
    assert_eq!(parse_action("x"), None);
    assert_eq!(parse_request_id(Some("7")), Ok(7));
    assert_eq!(parse_request_id(None), Err("missing request id".to_string()));
    assert_eq!(parse_request_id(Some("+7")), Ok(7));
    for (raw, cause) in [
        ("x", "invalid digit found in string"),
        ("-1", "invalid digit found in string"),
        ("", "cannot parse integer from empty string"),
        ("18446744073709551616", "number too large to fit in target type"),
    ] {
        assert_eq!(
            parse_request_id(Some(raw)),
            Err(format!("request id must be an integer: {cause}"))
        );
    }
    assert_eq!(parse_chat_id("-100"), Ok(-100));
    assert_eq!(
        parse_chat_id("-9223372036854775809"),
        Err("invalid chat id: number too small to fit in target type".to_string())
    );
}

#[test]
fn texts_lead_to_plans() {
    assert!(matches!(handle_text("/subs", false), TextPlan::Hint));
    assert!(matches!(handle_text("hello", false), TextPlan::Hint));
    assert!(matches!(handle_text("hello", true), TextPlan::Ignore));
    assert!(matches!(handle_text("/help", false), TextPlan::Help));
    assert!(matches!(handle_text("/subs", true), TextPlan::Subs));
    assert!(matches!(handle_text("/delete bob", true), TextPlan::Delete(Some(a)) if a == "bob"));
    assert!(matches!(
        handle_text("/broadcast a b", true),
        TextPlan::Broadcast(Some(a)) if a == "a b"
    ));
    assert!(matches!(handle_text("/approve", true), TextPlan::Approve(None)));
}

#[test]
fn buttons_are_judged() {
    let plan = |data| handle_callback(true, data);
    assert_eq!(handle_callback(false, Some("approve:1")), Ok(CallbackPlan::NotApprover));
    assert_eq!(handle_callback(false, Some("meme_like:x")), Ok(CallbackPlan::NotApprover));
    assert_eq!(plan(None), Ok(CallbackPlan::MissingData));
    assert_eq!(
        plan(Some("meme_like:-5")),
        Ok(CallbackPlan::Rate { chat: -5, like: true })
    );
    assert_eq!(
        plan(Some("meme_dislike:5")),
        Ok(CallbackPlan::Rate { chat: 5, like: false })
    );
    assert_eq!(
        plan(Some("meme_like:x")),
        Err("invalid chat id: invalid digit found in string".to_string())
    );
    assert_eq!(
        plan(Some("meme_dislike:")),
        Err("invalid chat id: cannot parse integer from empty string".to_string())
    );
    assert_eq!(plan(Some("x")), Ok(CallbackPlan::BadFormat));
    assert_eq!(plan(Some("approve:x")), Ok(CallbackPlan::BadRequestId));
    assert_eq!(plan(Some("x:1")), Ok(CallbackPlan::UnknownAction));
    let approve = plan(Some("approve:1")).unwrap();
    assert_eq!(
        approve,
        CallbackPlan::Decide { id: 1, action: RequestAction::Approve }
    );
    assert_eq!(approve.answer(), "Request approved");
    assert_eq!(plan(Some("deny:1")).unwrap().answer(), "Request denied");
    assert_eq!(plan(None).unwrap().answer(), "Missing callback data");
}

#[test]
fn approvers_are_ensured() {
    assert_eq!(ensure_approver(&config(), 1), Ok(()));
    assert_eq!(
        ensure_approver(&config(), 2),
        Err("unauthorized approver command from user 2".to_string())
    );
}

#[test]
fn typed_logins_are_shown() {
    assert_eq!(format_login(" bob "), "@bob");
    assert_eq!(format_login("@bob"), "@bob");
    assert_eq!(format_login("-"), "-");
    assert_eq!(format_login("<none>"), "<none>");
    assert_eq!(format_login(" "), "");
}

#[test]
fn access_is_asked_for() {
    assert_eq!(resolve_user_login(&config(), 5, Some("Bob")), Ok("Bob".to_string()));
    assert_eq!(
        resolve_user_login(&config(), 6, Some("Bob")),
        Err("Access denied.".to_string())
    );
    assert!(resolve_user_login(&config(), 5, None).is_err());
    match handle_vpn_access(Some("vless://x".to_string())) {
        VpnStep::Send { text, url } => {
            assert_eq!(text, "Твоя VPN-конфигурация уже существует.\n\nURL:\nvless://x");
            assert_eq!(url, "vless://x");
        }
        other => panic!("{other:?}"),
    }
    assert!(matches!(handle_vpn_access(None), VpnStep::File));
    let (text, note) = request_filed(InsertResult::Created(3), 5, "bob");
    assert!(text.starts_with("Сейчас @aetoneilya"));
    let note = note.unwrap();
    assert_eq!(note.text, "New VPN request #3\nFrom user: `5`\nLogin: `@bob`");
    assert!(note.keyboard.is_some());
    let (text, note) = request_filed(InsertResult::AlreadyPending(3), 5, "bob");
    assert!(text.starts_with("У вас уже есть"));
    assert!(note.is_none());
}

#[test]
fn memes_are_passed_on_after_the_command() {
    let mut state = AppState::new();
    let config = config();
    assert_eq!(handle_meme_command(&config, &mut state, 6), "Access denied.");
    assert!(handle_meme_command(&config, &mut state, 5).starts_with("Отправь мем"));
    assert!(matches!(
        handle_non_text(&config, &mut state, 5, Some("bob"), 50, false),
        MediaPlan::Say(text) if text == "Доступные команды: /vpn и /meme"
    ));
    match handle_non_text(&config, &mut state, 5, Some("bob"), 50, true) {
        MediaPlan::Forward(note) => assert_eq!(note.text, "Мем от @bob (id: 5)\nchat_id: 50"),
        other => panic!("{other:?}"),
    }
    assert!(matches!(
        handle_non_text(&config, &mut state, 5, None, 50, true),
        MediaPlan::Say(text) if text.ends_with("/meme.")
    ));
    assert!(matches!(
        handle_non_text(&config, &mut state, 6, None, 50, true),
        MediaPlan::Say(text) if text == "Access denied."
    ));
    assert!(matches!(
        handle_non_text(&config, &mut state, 1, None, 50, true),
        MediaPlan::Ignore
    ));
}

#[test]
fn typed_keyboards_carry_payloads() {
    let keyboard = approval_keyboard(7);
    assert!(matches!(&keyboard.row[1].target, ButtonTarget::Callback(p) if p == "deny:7"));
    assert_eq!(keyboard.row[0].label, "Approve");
    let keyboard = meme_feedback_keyboard(-7);
    assert!(matches!(&keyboard.row[0].target, ButtonTarget::Callback(p) if p == "meme_like:-7"));
}

#[test]
fn approvals_are_told() {
    let with = approve_request(
        3,
        CreatedClientResult {
            summary: "S".to_string(),
            connection_url: Some("vless://x".to_string()),
        },
    );
    assert_eq!(with.approver_text, "Approved #3.\nS\nConnection URL: vless://x");
    assert_eq!(with.user_text, "Твой запрос подтвержден.\n\nURL:\nvless://x");
    let without = approve_request(
        3,
        CreatedClientResult {
            summary: "S".to_string(),
            connection_url: None,
        },
    );
    assert_eq!(without.approver_text, "Approved #3.\nS");
    assert!(without.user_text.contains("ссылка не найдена"));
    assert_eq!(not_found_text(3), "Request #3 not found.");
    assert_eq!(approving_text(3), "Approving request #3...");
    assert_eq!(denied_text(3), "Request #3 denied.");
    assert_eq!(create_failed_text(3), "failed to create VPN user for request #3");
    assert!(send_help(true).contains("/broadcast"));
    assert!(!send_help(false).contains("/broadcast"));
    assert!(send_qr("x").is_ok());
    assert!(send_qr(&"x".repeat(5000))
        .unwrap_err()
        .starts_with("Не удалось сгенерировать QR: invalid QR payload: "));
}

#[test]
fn subscriptions_are_listed_by_email() {
    assert_eq!(handle_subs(&vec![]), vec!["Подписки не найдены.".to_string()]);
    let mut late = subscription("zed", Some("7"));
    late.expiry_time = 1_700_000_000_000;
    late.enabled = false;
    let texts = handle_subs(&vec![late, subscription("ann", None)]);
    assert_eq!(
        texts,
        vec!["Найдено подписок: 2\n• @ann | tg:- | enabled:true | exp:never | inbound:4 (main)\n• @zed | tg:7 | enabled:false | exp:2023-11-14 22:13 UTC | inbound:4 (main)".to_string()]
    );
    let many: Vec<ExistingSubscription> =
        (0..100).map(|i| subscription(&format!("user{i:03}"), None)).collect();
    let texts = handle_subs(&many);
    assert!(texts.len() > 1);
    assert!(texts.iter().all(|t| t.len() <= 3500));
}

#[test]
fn waiting_requests_are_shown() {
    assert_eq!(handle_requests(0), "Pending-запросов нет.");
    assert_eq!(handle_requests(2), "Pending-запросов: 2");
    let request = PendingCreateRequest {
        id: 3,
        requester_chat_id: -5,
        requester_user_id: 5,
        custom_email: None,
        created_at_unix: 60,
    };
    assert_eq!(
        show_request(&request).text,
        "#3\nuser_id: 5\nchat_id: -5\nlogin: -\ncreated: 1970-01-01 00:01 UTC"
    );
}

#[test]
fn deletions_need_a_login() {
    assert_eq!(handle_delete(Some("@Bob")), Ok("bob".to_string()));
    assert_eq!(handle_delete(None), Err("missing login for /delete".to_string()));
    assert_eq!(handle_delete(Some("@")), Err("empty login for /delete".to_string()));
    assert_eq!(deleted_text("bob", true), "Подписка `bob` удалена.");
    assert_eq!(deleted_text("bob", false), "Подписка `bob` не найдена или не удалена.");
}

#[test]
fn broadcasts_need_a_text_and_recipients() {
    assert_eq!(handle_broadcast(Some(" hi ")), Ok("hi".to_string()));
    assert_eq!(handle_broadcast(Some(" ")), Err("missing text for /broadcast".to_string()));
    assert_eq!(handle_broadcast(None), Err("missing text for /broadcast".to_string()));
    let subs = vec![
        subscription("a", Some(" 9 ")),
        subscription("b", Some("x")),
        subscription("c", Some("-3")),
        subscription("d", None),
        subscription("e", Some("2")),
        subscription("f", Some("9")),
    ];
    assert_eq!(collect_recipients_from_subscriptions(&subs), vec![2, 9]);
    assert_eq!(
        broadcast_text(&vec![false, true]),
        "Рассылка завершена. Успешно: 1, ошибок: 1."
    );
}

#[test]
fn typed_messages_find_their_chat() {
    assert_eq!(
        handle_direct_message(Some(" bob hi ")),
        Ok(("bob".to_string(), "hi".to_string()))
    );
    for payload in [None, Some(" "), Some("bob")] {
        assert_eq!(
            handle_direct_message(payload),
            Err("usage: /msg <@login|tg_id> <text>".to_string())
        );
    }
    assert!(matches!(message_target("12"), Ok(Target::Chat(12))));
    assert!(matches!(message_target("-12"), Err(e) if e == "tg_id must be positive"));
    assert!(matches!(message_target("@"), Err(e) if e == "empty login in /msg"));
    assert!(matches!(message_target("@Bob"), Ok(Target::Login(l)) if l == "bob"));
    let subs = vec![
        subscription("Bob", Some(" 7 ")),
        subscription("ann", None),
        subscription("carl", Some("x")),
        subscription("dan", Some("0")),
    ];
    assert_eq!(resolve_message_target_chat_id(&subs, "bob"), Ok(7));
    for (login, error) in [
        ("ann", "user not found or tgId is empty"),
        ("eve", "user not found or tgId is empty"),
        (
            "carl",
            "invalid tgId format in subscription: invalid digit found in string",
        ),
        ("dan", "invalid tgId value in subscription"),
    ] {
        assert_eq!(
            resolve_message_target_chat_id(&subs, login),
            Err(error.to_string())
        );
    }
    assert_eq!(sent_text(7), "Сообщение отправлено пользователю `7`.");
}

fn waiting() -> PendingCreateRequest {
    PendingCreateRequest {
        id: 3,
        requester_chat_id: -50,
        requester_user_id: 5,
        custom_email: Some("bob".to_string()),
        created_at_unix: 0,
    }
}

#[test]
fn typed_approval_serves_the_requester() {
    let mut run = ApprovalRun::new(3, true);
    match run.step(ApprovalEvent::Taken(Some(waiting()))) {
        ApprovalAction::Create {
            approver_text,
            user_id,
            email,
        } => {
            assert_eq!(approver_text, "Approving request #3...");
            assert_eq!((user_id, email.as_deref()), (5, Some("bob")));
        }
        other => panic!("{other:?}"),
    }
    assert_eq!(run.phase, ApprovalPhase::Create);
    let created = CreatedClientResult {
        summary: "S".to_string(),
        connection_url: Some("vless://x".to_string()),
    };
    match run.step(ApprovalEvent::Created(created)) {
        ApprovalAction::Announce {
            approver_text,
            chat_id,
            text,
            url,
        } => {
            assert_eq!(approver_text, "Approved #3.\nS\nConnection URL: vless://x");
            assert_eq!(chat_id, -50);
            assert_eq!(text, "Твой запрос подтвержден.\n\nURL:\nvless://x");
            assert_eq!(url.as_deref(), Some("vless://x"));
        }
        other => panic!("{other:?}"),
    }
    assert_eq!(run.phase, ApprovalPhase::Closed);
}

#[test]
fn typed_approval_reports_failures() {
    let mut run = ApprovalRun::new(3, true);
    run.step(ApprovalEvent::Taken(Some(waiting())));
    match run.step(ApprovalEvent::NotCreated("down".to_string())) {
        ApprovalAction::Fail(e) => {
            assert_eq!(e, "failed to create VPN user for request #3: down")
        }
        other => panic!("{other:?}"),
    }
    let mut run = ApprovalRun::new(3, true);
    run.step(ApprovalEvent::Taken(Some(waiting())));
    match run.step(ApprovalEvent::Failed("no login".to_string())) {
        ApprovalAction::Fail(e) => assert_eq!(e, "no login"),
        other => panic!("{other:?}"),
    }
    for approve in [true, false] {
        let mut run = ApprovalRun::new(4, approve);
        match run.step(ApprovalEvent::Taken(None)) {
            ApprovalAction::Say(text) => assert_eq!(text, "Request #4 not found."),
            other => panic!("{other:?}"),
        }
        assert_eq!(run.phase, ApprovalPhase::Closed);
    }
}

#[test]
fn typed_denial_is_told_to_the_requester() {
    let mut run = ApprovalRun::new(3, false);
    match run.step(ApprovalEvent::Taken(Some(waiting()))) {
        ApprovalAction::Announce {
            approver_text,
            chat_id,
            text,
            url,
        } => {
            assert_eq!(approver_text, "Request #3 denied.");
            assert_eq!((chat_id, text.as_str()), (-50, "Твой запрос отклонен."));
            assert_eq!(url, None);
        }
        other => panic!("{other:?}"),
    }
    assert_eq!(run.phase, ApprovalPhase::Closed);
}
