use vpn_bot::bot::admin::{
    broadcast_recipients, broadcast_summary, client_chat, deleted_text, handle, handle_action,
    parse_direct, parse_request_id, requests, sent_text, target_chat, ActionPlan, AdminCommand,
    AdminPlan, Decision, DecisionAction, DecisionEvent,
};
use vpn_bot::bot::approval_request_message;
use vpn_bot::bot::overview::{status, subscriptions};
use vpn_bot::bot::routing::{callback_chat, on_callback, report, CallbackPlan};
use vpn_bot::bot::ui::Action;
use vpn_bot::bot::user::{
    checked_login, handle as handle_user, handle_other, request_access, send_existing, send_help,
    OtherPlan, UserCommand, UserPlan, UserReply,
};
use vpn_bot::access::RequestOutcome;
use vpn_bot::config::{AppConfig, Env, PanelAuth, PanelConfig};
use vpn_bot::health::CheckResult;
use vpn_bot::panel::{Client, Inbound, Panel, ServerStatus};
use vpn_bot::state::AppState;
use vpn_bot::storage::PendingRequest;

fn panel() -> Panel {
    Panel::new(PanelConfig {
        base_url: String::new(),
        auth: PanelAuth::Token("t".to_string()),
        inbound_ids: vec![1],
        client_flow: String::new(),
        total_gb: 0,
        subscription_base_url: "https://sub/".to_string(),
    })
}

fn config() -> AppConfig {
    let vars = [
        ("APPROVER_USER_IDS", "1"),
        ("ALLOW_USER_IDS", "1,5"),
        ("XUI_API_TOKEN", "t"),
        ("XUI_INBOUND_IDS", "1"),
        ("XUI_SUBSCRIPTION_BASE_URL", "https://sub/"),
        ("XUI_BASE_URL", "http://p"),
    ]
    .iter()
    .map(|(k, v)| (k.to_string(), v.to_string()))
    .collect();
    AppConfig::from_env(&Env { vars }, None, None).unwrap()
}

fn client(login: &str, tg_id: i64) -> Client {
    Client {
        login: login.to_string(),
        sub_id: "s".to_string(),
        tg_id,
        enabled: true,
        expiry_time: 0,
        inbound_ids: vec![1, 9],
    }
}

fn pending() -> PendingRequest {
    PendingRequest {
        id: 3,
        chat_id: 50,
        user_id: 5,
        login: "bob".to_string(),
        created_at_unix: 0,
    }
}

#[test]
fn request_numbers_are_read() {
    assert_eq!(parse_request_id(" #12 "), Ok(12));
    assert_eq!(parse_request_id("12"), Ok(12));
    assert_eq!(
        parse_request_id("x"),
        Err("укажи номер заявки: /approve <id>".to_string())
    );
}

#[test]
fn approval_creates_before_it_deletes() {
    let mut decision = Decision::new(3, true);
    assert!(matches!(
        decision.step(&panel(), DecisionEvent::Request(Some(pending()))),
        DecisionAction::Create { login, user_id: 5 } if login == "bob"
    ));
    assert!(matches!(
        decision.step(&panel(), DecisionEvent::Created(client("bob", 5))),
        DecisionAction::Delete
    ));
    match decision.step(&panel(), DecisionEvent::Deleted) {
        DecisionAction::Announce {
            approver_text,
            chat_id,
            text,
            address,
        } => {
            assert_eq!(approver_text, "Заявка #3 одобрена: @bob\nhttps://sub/s");
            assert_eq!(chat_id, 50);
            assert!(text.starts_with("Твоя заявка одобрена 🎉\n"));
            assert_eq!(address.as_deref(), Some("https://sub/s"));
        }
        other => panic!("{other:?}"),
    }
}

#[test]
fn failed_creation_keeps_the_request() {
    let mut decision = Decision::new(3, true);
    decision.step(&panel(), DecisionEvent::Request(Some(pending())));
    match decision.step(&panel(), DecisionEvent::Failed("x".to_string())) {
        DecisionAction::Fail(e) => assert_eq!(e, "не удалось создать клиента для заявки #3: x"),
        other => panic!("{other:?}"),
    }
}

#[test]
fn denial_deletes_at_once() {
    let mut decision = Decision::new(3, false);
    assert!(matches!(
        decision.step(&panel(), DecisionEvent::Request(Some(pending()))),
        DecisionAction::Delete
    ));
    match decision.step(&panel(), DecisionEvent::Deleted) {
        DecisionAction::Announce {
            approver_text,
            text,
            address,
            ..
        } => {
            assert_eq!(approver_text, "Заявка #3 отклонена.");
            assert_eq!(text, "Твоя заявка отклонена.");
            assert_eq!(address, None);
        }
        other => panic!("{other:?}"),
    }
    let mut decision = Decision::new(4, false);
    match decision.step(&panel(), DecisionEvent::Request(None)) {
        DecisionAction::Say(text) => {
            assert_eq!(text, "Заявка #4 не найдена (уже обработана?).")
        }
        other => panic!("{other:?}"),
    }
}

#[test]
fn requests_are_listed() {
    let notes = requests(&vec![]);
    assert_eq!(notes.len(), 1);
    assert_eq!(notes[0].text, "Заявок нет.");
    assert!(notes[0].keyboard.is_none());
    let notes = requests(&vec![pending()]);
    assert_eq!(
        notes[0].text,
        "#3 — @bob (id 5)\nсоздана 1970-01-01 00:00 UTC"
    );
    assert_eq!(notes[0].keyboard.as_ref().unwrap().row.len(), 2);
}

#[test]
fn commands_lead_to_plans() {
    assert!(matches!(handle(AdminCommand::Status), Ok(AdminPlan::Status)));
    assert!(matches!(handle(AdminCommand::Subs), Ok(AdminPlan::Subscriptions)));
    assert!(matches!(handle(AdminCommand::Requests), Ok(AdminPlan::Requests)));
    let plan = handle(AdminCommand::Approve("#7".to_string())).unwrap();
    assert!(matches!(plan, AdminPlan::Decide(d) if d.id == 7 && d.approve));
    let plan = handle(AdminCommand::Deny("8".to_string())).unwrap();
    assert!(matches!(plan, AdminPlan::Decide(d) if d.id == 8 && !d.approve));
    assert!(handle(AdminCommand::Approve("x".to_string())).is_err());
    let plan = handle(AdminCommand::Delete(" @Bob".to_string())).unwrap();
    assert!(matches!(plan, AdminPlan::Delete(login) if login == "bob"));
    assert_eq!(
        handle(AdminCommand::Delete("@".to_string())).unwrap_err(),
        "укажи логин: /delete <login>"
    );
    assert_eq!(
        handle(AdminCommand::Broadcast(" ".to_string())).unwrap_err(),
        "укажи текст: /broadcast <текст>"
    );
    assert_eq!(
        handle(AdminCommand::Msg("bob".to_string())).unwrap_err(),
        "формат: /msg <@login|tg_id> <текст>"
    );
    let plan = handle(AdminCommand::Msg(" bob  hi there ".to_string())).unwrap();
    assert!(
        matches!(plan, AdminPlan::Direct { target, text } if target == "bob" && text == "hi there")
    );
}

#[test]
fn broadcasts_reach_each_chat_once() {
    let clients = vec![client("a", 7), client("b", 0), client("c", 3), client("d", 7)];
    assert_eq!(broadcast_recipients(&clients), vec![3, 7]);
    assert_eq!(
        broadcast_summary(&vec![true, false, true]),
        "Рассылка завершена: доставлено 2, ошибок 1."
    );
}

#[test]
fn messages_find_their_chat() {
    assert_eq!(parse_direct("x y").unwrap(), ("x".to_string(), "y".to_string()));
    assert_eq!(target_chat("12"), Some(12));
    assert_eq!(target_chat("-12"), None);
    assert_eq!(target_chat("bob"), None);
    let clients = vec![client("bob", 7), client("ann", 0)];
    assert_eq!(client_chat(&clients, "@BOB"), Ok(7));
    assert_eq!(
        client_chat(&clients, "ann"),
        Err("у @ann нет Telegram id в подписке".to_string())
    );
    assert_eq!(sent_text(7), "Отправлено пользователю 7.");
    assert_eq!(deleted_text("bob", true), "Подписка @bob удалена.");
    assert_eq!(deleted_text("bob", false), "Подписка @bob не найдена.");
}

#[test]
fn buttons_lead_to_plans() {
    assert!(matches!(
        handle_action(Action::Approve(3)),
        ActionPlan::Decide(d) if d.id == 3 && d.approve
    ));
    assert!(matches!(
        handle_action(Action::MemeLike(-4)),
        ActionPlan::Tell { chat_id: -4, .. }
    ));
}

#[test]
fn approvers_alone_press_deciding_buttons() {
    assert_eq!(on_callback(Some("approve:1"), false), CallbackPlan::Forbidden);
    assert_eq!(
        on_callback(Some("approve:1"), true),
        CallbackPlan::Run(Action::Approve(1))
    );
    assert_eq!(on_callback(Some("guide"), false), CallbackPlan::Run(Action::Guide));
    assert_eq!(on_callback(Some("x"), true), CallbackPlan::Unknown);
    assert_eq!(on_callback(None, true), CallbackPlan::Unknown);
    assert_eq!(callback_chat(None, 5), 5);
    assert_eq!(callback_chat(Some(-1), 5), -1);
}

#[test]
fn errors_are_shown_to_approvers() {
    assert_eq!(report(true, "x"), "⚠️ Ошибка: x");
    assert_eq!(report(false, "x"), "Что-то пошло не так. Попробуй позже.");
    let note = approval_request_message(3, "bob", 5);
    assert_eq!(note.text, "Новая заявка #3\nОт: @bob (id 5)");
}

#[test]
fn subscriptions_are_listed_in_order() {
    let mut bob = client("Bob", 7);
    bob.enabled = false;
    bob.expiry_time = 1_700_000_000_999;
    let inbounds = vec![Inbound {
        id: 1,
        remark: "main".to_string(),
        enabled: true,
        up: 0,
        down: 0,
    }];
    let text = subscriptions(&vec![client("carl", 0), bob, client("ann", 3)], &inbounds);
    assert_eq!(
        text,
        "Подписок: 3\n🟢 @ann | tg 3 | бессрочно | main, 9\n⚪️ @Bob | tg 7 | 2023-11-14 22:13 UTC | main, 9\n🟢 @carl | tg - | бессрочно | main, 9"
    );
}

#[test]
fn status_is_shown_in_sections() {
    let server = ServerStatus {
        cpu_percent: "12".to_string(),
        mem_used: 1024,
        mem_total: 2048,
        disk_used: 0,
        disk_total: 1,
        uptime_secs: 60,
        xray_state: None,
    };
    let inbounds = vec![Inbound {
        id: 1,
        remark: "main".to_string(),
        enabled: false,
        up: 1536,
        down: 0,
    }];
    let text = status(
        None,
        &Ok(server),
        &Ok(vec!["bob".to_string(), "ann".to_string()]),
        &Ok(inbounds),
    );
    assert_eq!(
        text,
        "Цепочка: проверки выключены (HEALTH_RELAY_ADDR не задан)\n\nВыходной сервер:\nxray: ?\nCPU: 12%\nRAM: 1.0 КБ / 2.0 КБ\nДиск: 0 Б / 1 Б\nАптайм: 0 ч 1 мин\n\nОнлайн (2): @ann, @bob\n\nТрафик за всё время:\n• main (выкл): ↑1.5 КБ ↓0 Б"
    );
    let checks = vec![CheckResult {
        name: "a".to_string(),
        ok: true,
        detail: "HTTP 200".to_string(),
    }];
    let text = status(
        Some(&checks),
        &Err("e1".to_string()),
        &Err("e2".to_string()),
        &Err("e3".to_string()),
    );
    assert_eq!(
        text,
        "Цепочка:\n✅ a — HTTP 200\n\nВыходной сервер: ошибка e1\n\nОнлайн: ошибка e2\n\nТрафик: ошибка e3"
    );
    let text = status(None, &Err(String::new()), &Ok(vec![]), &Ok(vec![]));
    assert!(text.contains("Онлайн (0): никого"));
}

#[test]
fn users_command_the_bot() {
    let mut state = AppState::new();
    let config = config();
    assert!(matches!(
        handle_user(UserCommand::Start, &config, &mut state, 5),
        UserPlan::Help
    ));
    assert!(matches!(
        handle_user(UserCommand::Vpn, &config, &mut state, 5),
        UserPlan::RequestAccess
    ));
    assert!(matches!(
        handle_user(UserCommand::Meme, &config, &mut state, 6),
        UserPlan::Say(text) if text == "Доступ запрещён."
    ));
    assert!(!state.take_meme(6));
    handle_user(UserCommand::Meme, &config, &mut state, 5);
    assert!(matches!(
        handle_other(&config, &mut state, 5, Some("bob"), 50, false),
        OtherPlan::Say(text) if text.starts_with("Не понял.")
    ));
    match handle_other(&config, &mut state, 5, Some("bob"), 50, true) {
        OtherPlan::Forward(note) => assert_eq!(note.text, "Мем от @bob (id 5)"),
        other => panic!("{other:?}"),
    }
    assert!(matches!(
        handle_other(&config, &mut state, 5, None, 50, true),
        OtherPlan::Say(text) if text.starts_with("Чтобы отправить мем")
    ));
    assert!(matches!(
        handle_other(&config, &mut state, 1, None, 50, true),
        OtherPlan::Ignore
    ));
}

#[test]
fn memes_without_username_are_marked() {
    let mut state = AppState::new();
    state.arm_meme(5);
    match handle_other(&config(), &mut state, 5, None, 50, true) {
        OtherPlan::Forward(note) => assert_eq!(note.text, "Мем от <без username> (id 5)"),
        other => panic!("{other:?}"),
    }
}

#[test]
fn logins_are_checked() {
    assert_eq!(checked_login(&config(), 5, Some("@Bob")), Ok("bob".to_string()));
    assert_eq!(
        checked_login(&config(), 6, Some("bob")),
        Err("Доступ запрещён.".to_string())
    );
    assert!(checked_login(&config(), 5, None).unwrap_err().contains("username"));
}

#[test]
fn replies_carry_subscriptions() {
    match request_access(&panel(), &RequestOutcome::AlreadyActive(client("bob", 1))) {
        UserReply::Subscription { text, address } => {
            assert!(text.starts_with("Твоя VPN-подписка уже есть."));
            assert_eq!(address, "https://sub/s");
        }
        other => panic!("{other:?}"),
    }
    assert!(matches!(
        request_access(&panel(), &RequestOutcome::Created(1)),
        UserReply::Say(text) if text.starts_with("Сейчас")
    ));
    assert!(matches!(
        request_access(&panel(), &RequestOutcome::AlreadyPending(1)),
        UserReply::Say(text) if text.starts_with("У тебя уже есть заявка")
    ));
    assert!(matches!(
        send_existing(&panel(), &None),
        UserReply::Say(text) if text.contains("/vpn")
    ));
    assert!(matches!(
        send_existing(&panel(), &Some(client("bob", 1))),
        UserReply::Subscription { .. }
    ));
}

#[test]
fn help_lists_commands() {
    assert_eq!(send_help(false, false, "U", "A"), "U");
    assert_eq!(send_help(false, true, "U", "A"), "U\n\nАдмин:\nA");
    assert!(send_help(true, false, "U", "A").starts_with("Нажми «🔐 Открыть VPN»"));
}
