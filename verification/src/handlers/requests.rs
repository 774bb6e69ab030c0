//! Requests for access: from the command to the decision.

use vstd::prelude::*;

use crate::bot::admin::{Note, NoteModel};
use crate::bot::ui::{Action, Button, ButtonModel, ButtonTarget, Keyboard, TargetModel};
use crate::config::AppConfig;
use crate::outside::{qr_png, QrFailure};
use crate::state::AppState;
use crate::storage::InsertResult;
use crate::text::chars::{
    has_prefix, is_whitespace, parts_stand_at_the_ends, start_is_a_prefix, starts_with, text_eq,
    trim, trim_takes_the_whitespace_around, trim_text,
};
use crate::text::number::{append_i64, append_u64, decimal, decimal_int};

use super::command::{
    buttons_lead_to_what_they_are_for, callback_plan, CallbackPlan, RequestAction,
};

verus! {

/// The commands for everyone.
pub const USER_COMMANDS_HINT: &'static str = "Доступные команды: /vpn и /meme";

/// What is said to a user without a username.
pub const NO_USERNAME_HINT: &'static str = "У тебя не установлен Telegram username. Установи @username и попробуй снова.";

/// What is said to a user who may not use the bot.
pub const ACCESS_DENIED: &'static str = "Access denied.";

/// What is said to a user whose request was filed.
pub const REQUEST_CREATED_TEXT: &'static str = "Сейчас @aetoneilya решит давать ли вам доступ к впн. Ответ придет в течении 3 рабочих дней";

/// What is said to a user whose request was filed before.
pub const PENDING_ALREADY_EXISTS_TEXT: &'static str = "У вас уже есть активный запрос на доступ к VPN. Пожалуйста, дождитесь решения администратора.";

/// What is said to a user who may send a meme.
pub const MEME_PROMPT_TEXT: &'static str = "Отправь мем следующим сообщением (стикер/фото/gif/видео). Возможно это ускорит рассмотрение заявки или я просто похихикаю";

/// What is said to a user whose meme came unasked.
pub const MEME_FIRST_TEXT: &'static str = "Чтобы отправить мем админу, сначала вызови /meme.";

/// The commands for approvers.
pub const ADMIN_HELP: &'static str = "Commands:\n/vpn - Получить доступ к VPN\n/subs - Показать все подписки\n/requests - Показать все pending-запросы\n/delete <login> - Удалить подписку по логину\n/broadcast <text> - Рассылка всем пользователям\n/msg <@login|tg_id> <text> - Сообщение конкретному пользователю\n/approve <id> - Approve pending request\n/deny <id> - Deny pending request";

/// The commands for users.
pub const USER_HELP: &'static str = "Commands:\n/vpn - Получить доступ к VPN\n/meme - Отправить мем админу (может ускорить рассмотрение заявки)";

/// The title of a link that was there already.
pub const EXISTING_TITLE: &'static str = "Твоя VPN-конфигурация уже существует.";

/// The title of a link that was asked for.
pub const APPROVED_TITLE: &'static str = "Твой запрос подтвержден.";

/// What is said where a client was created but no link was found.
pub const NO_LINK_TEXT: &'static str = "Твой запрос подтвержден, но ссылка не найдена в ответе сервера. Попробуй /vpn через минуту.";

/// What is said to a user whose request was denied.
pub const DENIED_TEXT: &'static str = "Твой запрос отклонен.";

/// A login as it is shown: with `@` before it, unless it stands for none.
pub open spec fn shown(login: Seq<char>) -> Seq<char> {
    let s = trim(login);
    if s.len() == 0 || s == "-"@ || s == "<none>"@ || starts_with(s, "@"@) {
        s
    } else {
        "@"@ + s
    }
}

/// A login is shown with one `@` before it, whether or not it was given with it; what stands for no
/// login is shown as it is.
pub proof fn login_is_shown_with_one_at_sign(a: Seq<char>, login: Seq<char>, b: Seq<char>)
    requires
        login.len() > 0,
        !is_whitespace(login[0]),
        !is_whitespace(login.last()),
        login[0] != '@',
        forall|i: int| 0 <= i < a.len() ==> is_whitespace(#[trigger] a[i]),
        forall|i: int| 0 <= i < b.len() ==> is_whitespace(#[trigger] b[i]),
    ensures
        login != "-"@ && login != "<none>"@ ==> shown(a + login + b) == "@"@ + login,
        shown(a + ("@"@ + login) + b) == "@"@ + login,
        shown(a + "-"@ + b) == "-"@,
        shown(a + "<none>"@ + b) == "<none>"@,
        shown(a) == Seq::<char>::empty(),
{
    reveal_strlit("@");
    reveal_strlit("-");
    reveal_strlit("<none>");
    let named = "@"@ + login;
    assert(named.last() == login.last());
    trim_takes_the_whitespace_around(a, login, b);
    trim_takes_the_whitespace_around(a, named, b);
    trim_takes_the_whitespace_around(a, "-"@, b);
    trim_takes_the_whitespace_around(a, "<none>"@, b);
    trim_takes_the_whitespace_around(a, seq![], seq![]);
    assert(a + seq![] + seq![] =~= a);
    start_is_a_prefix(login, "@"@);
    start_is_a_prefix(named, "@"@);
    assert("@"@ =~= named.subrange(0, 1));
    if "@"@.is_prefix_of(login) {
        assert(login.subrange(0, 1)[0] == login[0]);
    }
}

/// A login as it is shown.
pub fn format_login(login: &str) -> (r: String)
    ensures
        r@ == shown(login@),
{
    let trimmed = trim_text(login);
    if trimmed.as_str().is_empty() || text_eq(&trimmed, "-") || text_eq(&trimmed, "<none>")
        || has_prefix(&trimmed, "@") {
        return trimmed;
    }
    let mut text = "@".to_string();
    text.append(&trimmed);
    text
}

/// The list of commands.
pub fn send_help(is_approver: bool) -> (r: String)
    ensures
        r@ == if is_approver {
            ADMIN_HELP@
        } else {
            USER_HELP@
        },
{
    if is_approver {
        ADMIN_HELP.to_string()
    } else {
        USER_HELP.to_string()
    }
}

fn callback_button(label: &str, payload: String) -> (r: Button)
    ensures
        r@ == (ButtonModel { label: label@, target: TargetModel::Callback(payload@) }),
{
    Button { label: label.to_string(), target: ButtonTarget::Callback(payload) }
}

/// The buttons that decide a request.
pub open spec fn decision_buttons(request_id: u64) -> Seq<ButtonModel> {
    seq![
        ButtonModel {
            label: "Approve"@,
            target: TargetModel::Callback(Action::Approve(request_id).payload()),
        },
        ButtonModel {
            label: "Deny"@,
            target: TargetModel::Callback(Action::Deny(request_id).payload()),
        },
    ]
}

/// The buttons that decide a request.
pub fn approval_keyboard(request_id: u64) -> (r: Keyboard)
    ensures
        r@ == decision_buttons(request_id),
{
    let mut row: Vec<Button> = Vec::new();
    row.push(callback_button("Approve", Action::Approve(request_id).encode()));
    row.push(callback_button("Deny", Action::Deny(request_id).encode()));
    let keyboard = Keyboard { row };
    assert(keyboard@ =~= decision_buttons(request_id));
    keyboard
}

/// The two buttons under a request approve it and deny it.
pub proof fn buttons_decide_the_request(request_id: u64)
    ensures
        decision_buttons(request_id).len() == 2,
        decision_buttons(request_id)[0].label == "Approve"@,
        decision_buttons(request_id)[1].label == "Deny"@,
        decision_buttons(request_id)[0].target matches TargetModel::Callback(data)
            && callback_plan(true, Some(data)) == Ok::<CallbackPlan, Seq<char>>(
            CallbackPlan::Decide { id: request_id, action: RequestAction::Approve },
        ),
        decision_buttons(request_id)[1].target matches TargetModel::Callback(data)
            && callback_plan(true, Some(data)) == Ok::<CallbackPlan, Seq<char>>(
            CallbackPlan::Decide { id: request_id, action: RequestAction::Deny },
        ),
{
    buttons_lead_to_what_they_are_for(request_id, 0, None);
}

/// The login of a user who may use the bot; otherwise what the user is told.
pub fn resolve_user_login(config: &AppConfig, user_id: u64, username: Option<&str>) -> (r: Result<
    String,
    String,
>)
    ensures
        r is Ok <==> config@.allowed(user_id) && username is Some,
        r matches Ok(login) ==> login@ == username->0@,
        r matches Err(text) ==> text@ == if config@.allowed(user_id) {
            NO_USERNAME_HINT@
        } else {
            ACCESS_DENIED@
        },
{
    if !config.is_allowed(user_id) {
        return Err(ACCESS_DENIED.to_string());
    }
    match username {
        Some(name) => Ok(name.to_string()),
        None => Err(NO_USERNAME_HINT.to_string()),
    }
}

/// The message with a link.
pub open spec fn url_message(title: Seq<char>, url: Seq<char>) -> Seq<char> {
    title + "\n\nURL:\n"@ + url
}

/// The message with a link starts with its title and ends in the link; another link makes another
/// message.
pub proof fn message_ends_in_the_link(title: Seq<char>, url: Seq<char>, other: Seq<char>)
    ensures
        (title + "\n\n"@).is_prefix_of(url_message(title, url)),
        ("URL:\n"@ + url).is_suffix_of(url_message(title, url)),
        url != other ==> url_message(title, url) != url_message(title, other),
{
    reveal_strlit("\n\n");
    reveal_strlit("URL:\n");
    reveal_strlit("\n\nURL:\n");
    assert("\n\nURL:\n"@ =~= "\n\n"@ + "URL:\n"@);
    let start = title + "\n\n"@;
    assert(url_message(title, url) =~= start + ("URL:\n"@ + url));
    parts_stand_at_the_ends(start, "URL:\n"@ + url, url);
    parts_stand_at_the_ends(title + "\n\nURL:\n"@, url, other);
}

/// The message with a link.
pub fn url_text(title: &str, url: &str) -> (r: String)
    ensures
        r@ == url_message(title@, url@),
{
    let mut text = title.to_string();
    text.append("\n\nURL:\n");
    text.append(url);
    text
}

/// What follows a link: its picture, or why there is none.
pub fn qr_or_text(rendered: Result<Vec<u8>, QrFailure>) -> (r: Result<Vec<u8>, String>)
    ensures
        match rendered {
            Ok(png) => r matches Ok(bytes) && bytes@ == png@,
            Err(failure) => r matches Err(text) && text@ == "Не удалось сгенерировать QR: "@
                + failure@.text(),
        },
{
    match rendered {
        Ok(png) => Ok(png),
        Err(failure) => {
            let mut text = "Не удалось сгенерировать QR: ".to_string();
            text.append(&failure.message());
            Err(text)
        },
    }
}

/// What follows a link: its picture, or why there is none.
pub fn send_qr(url: &str) -> (r: Result<Vec<u8>, String>)
    ensures
        match qr_png(url@) {
            Ok(png) => r matches Ok(bytes) && bytes@ == png,
            Err(failure) => r matches Err(text) && text@ == "Не удалось сгенерировать QR: "@
                + failure.text(),
        },
{
    qr_or_text(crate::qr::render_qr_png(url))
}

/// What a user who asks for access is answered.
#[derive(Debug)]
pub enum VpnStep {
    /// The link is there: this message, and its picture.
    Send { text: String, url: String },
    /// A request is to be filed.
    File,
}

/// What a user who asks for access is answered, for the link that was found.
pub fn handle_vpn_access(found: Option<String>) -> (r: VpnStep)
    ensures
        match found {
            Some(link) => r matches VpnStep::Send { text, url } && url@ == link@ && text@
                == url_message(EXISTING_TITLE@, link@),
            None => r is File,
        },
{
    match found {
        Some(url) => {
            let text = url_text(EXISTING_TITLE, &url);
            VpnStep::Send { text, url }
        },
        None => VpnStep::File,
    }
}

/// What approvers are told of a new request.
pub open spec fn new_request_note(id: u64, user_id: u64, login: Seq<char>) -> NoteModel {
    NoteModel {
        text: "New VPN request #"@ + decimal(id as nat) + "\nFrom user: `"@ + decimal(
            user_id as nat,
        ) + "`\nLogin: `"@ + shown(login) + "`"@,
        keyboard: Some(decision_buttons(id)),
    }
}

/// Approvers are told the number of a new request, who made it and under which login, and can decide
/// it.
pub proof fn note_tells_of_the_request(id: u64, user_id: u64, login: Seq<char>)
    ensures
        ("New VPN request #"@ + decimal(id as nat) + "\nFrom user: `"@ + decimal(
            user_id as nat,
        )).is_prefix_of(new_request_note(id, user_id, login).text),
        ("`\nLogin: `"@ + shown(login) + "`"@).is_suffix_of(
            new_request_note(id, user_id, login).text,
        ),
        new_request_note(id, user_id, login).keyboard == Some(decision_buttons(id)),
{
    let start = "New VPN request #"@ + decimal(id as nat) + "\nFrom user: `"@ + decimal(
        user_id as nat,
    );
    let end = "`\nLogin: `"@ + shown(login) + "`"@;
    assert(new_request_note(id, user_id, login).text =~= start + end);
    parts_stand_at_the_ends(start, end, end);
}

/// What is said of a request that was filed: to the user, and to the approvers where it is new.
pub fn request_filed(result: InsertResult, user_id: u64, login: &str) -> (r: (
    String,
    Option<Note>,
))
    ensures
        match result {
            InsertResult::Created(id) => r.0@ == REQUEST_CREATED_TEXT@ && (r.1 matches Some(note)
                && note@ == new_request_note(id, user_id, login@)),
            InsertResult::AlreadyPending(_) => r.0@ == PENDING_ALREADY_EXISTS_TEXT@ && r.1 is None,
        },
{
    match result {
        InsertResult::Created(id) => {
            let mut text = "New VPN request #".to_string();
            append_u64(&mut text, id);
            text.append("\nFrom user: `");
            append_u64(&mut text, user_id);
            text.append("`\nLogin: `");
            text.append(&format_login(login));
            text.append("`");
            (
                REQUEST_CREATED_TEXT.to_string(),
                Some(Note { text, keyboard: Some(approval_keyboard(id)) }),
            )
        },
        InsertResult::AlreadyPending(_) => (PENDING_ALREADY_EXISTS_TEXT.to_string(), None),
    }
}

/// Takes the meme command in: a user who may use the bot can send a meme from then on.
pub fn handle_meme_command(config: &AppConfig, state: &mut AppState, user_id: u64) -> (r: String)
    ensures
        r@ == if config@.allowed(user_id) {
            MEME_PROMPT_TEXT@
        } else {
            ACCESS_DENIED@
        },
        final(state).meme_armed@ == if config@.allowed(user_id) {
            old(state).meme_armed@.insert(user_id)
        } else {
            old(state).meme_armed@
        },
        final(state).health == old(state).health,
{
    if !config.is_allowed(user_id) {
        return ACCESS_DENIED.to_string();
    }
    state.arm_meme(user_id);
    MEME_PROMPT_TEXT.to_string()
}

/// What a message without text leads to.
#[derive(Debug)]
pub enum MediaPlan {
    Ignore,
    Say(String),
    /// The message is passed on to the approvers, with this note.
    Forward(Note),
}

/// The note that a meme is passed on with.
pub open spec fn meme_note(username: Option<Seq<char>>, user_id: u64, chat: i64) -> NoteModel {
    NoteModel {
        text: "Мем от "@ + (match username {
            Some(name) => shown(name),
            None => "<no username>"@,
        }) + " (id: "@ + decimal(user_id as nat) + ")\nchat_id: "@ + decimal_int(chat as int),
        keyboard: Some(rating_buttons(chat)),
    }
}

/// The buttons that rate a meme.
pub open spec fn rating_buttons(chat: i64) -> Seq<ButtonModel> {
    seq![
        ButtonModel {
            label: "лайк"@,
            target: TargetModel::Callback(Action::MemeLike(chat).payload()),
        },
        ButtonModel {
            label: "дизлайк"@,
            target: TargetModel::Callback(Action::MemeDislike(chat).payload()),
        },
    ]
}

/// A meme is passed on with who sent it and from which chat, and can be liked and disliked there.
pub proof fn meme_is_rated_in_its_chat(username: Option<Seq<char>>, user_id: u64, chat: i64)
    ensures
        username matches Some(name) ==> ("Мем от "@ + shown(name)).is_prefix_of(
            meme_note(username, user_id, chat).text,
        ),
        username is None ==> ("Мем от "@ + "<no username>"@).is_prefix_of(
            meme_note(username, user_id, chat).text,
        ),
        (" (id: "@ + decimal(user_id as nat) + ")\nchat_id: "@ + decimal_int(
            chat as int,
        )).is_suffix_of(meme_note(username, user_id, chat).text),
        meme_note(username, user_id, chat).keyboard == Some(rating_buttons(chat)),
        rating_buttons(chat).len() == 2,
        rating_buttons(chat)[0].label == "лайк"@,
        rating_buttons(chat)[1].label == "дизлайк"@,
        rating_buttons(chat)[0].target matches TargetModel::Callback(data) && callback_plan(
            true,
            Some(data),
        ) == Ok::<CallbackPlan, Seq<char>>(CallbackPlan::Rate { chat, like: true }),
        rating_buttons(chat)[1].target matches TargetModel::Callback(data) && callback_plan(
            true,
            Some(data),
        ) == Ok::<CallbackPlan, Seq<char>>(CallbackPlan::Rate { chat, like: false }),
{
    buttons_lead_to_what_they_are_for(0, chat, None);
    let name = match username {
        Some(name) => shown(name),
        None => "<no username>"@,
    };
    let start = "Мем от "@ + name;
    let end = " (id: "@ + decimal(user_id as nat) + ")\nchat_id: "@ + decimal_int(chat as int);
    assert(meme_note(username, user_id, chat).text =~= start + end);
    parts_stand_at_the_ends(start, end, end);
}

/// The buttons that rate a meme.
pub fn meme_feedback_keyboard(chat: i64) -> (r: Keyboard)
    ensures
        r@ == rating_buttons(chat),
{
    let mut row: Vec<Button> = Vec::new();
    row.push(callback_button("лайк", Action::MemeLike(chat).encode()));
    row.push(callback_button("дизлайк", Action::MemeDislike(chat).encode()));
    let keyboard = Keyboard { row };
    assert(keyboard@ =~= rating_buttons(chat));
    keyboard
}

fn note_for_meme(username: Option<&str>, user_id: u64, chat: i64) -> (r: Note)
    ensures
        r@ == meme_note(
            match username {
                Some(name) => Some(name@),
                None => None,
            },
            user_id,
            chat,
        ),
{
    let mut text = "Мем от ".to_string();
    match username {
        Some(name) => {
            text.append(&format_login(name));
        },
        None => {
            text.append("<no username>");
        },
    }
    text.append(" (id: ");
    append_u64(&mut text, user_id);
    text.append(")\nchat_id: ");
    append_i64(&mut text, chat);
    Note { text, keyboard: Some(meme_feedback_keyboard(chat)) }
}

/// Takes a message without text in: a meme after it was announced, and a hint otherwise.
pub fn handle_non_text(
    config: &AppConfig,
    state: &mut AppState,
    user_id: u64,
    username: Option<&str>,
    chat: i64,
    is_meme: bool,
) -> (r: MediaPlan)
    ensures
        final(state).health == old(state).health,
        if config@.approver(user_id) {
            r is Ignore && final(state).meme_armed@ == old(state).meme_armed@
        } else if !config@.allowed(user_id) {
            r matches MediaPlan::Say(text) && text@ == ACCESS_DENIED@ && final(state).meme_armed@
                == old(state).meme_armed@
        } else if !is_meme {
            r matches MediaPlan::Say(text) && text@ == USER_COMMANDS_HINT@
                && final(state).meme_armed@ == old(state).meme_armed@
        } else if !old(state).meme_armed@.contains(user_id) {
            r matches MediaPlan::Say(text) && text@ == MEME_FIRST_TEXT@ && final(state).meme_armed@
                == old(state).meme_armed@
        } else {
            r matches MediaPlan::Forward(note) && note@ == meme_note(
                match username {
                    Some(name) => Some(name@),
                    None => None,
                },
                user_id,
                chat,
            ) && final(state).meme_armed@ == old(state).meme_armed@.remove(user_id)
        },
{
    if config.is_approver(user_id) {
        return MediaPlan::Ignore;
    }
    if !config.is_allowed(user_id) {
        return MediaPlan::Say(ACCESS_DENIED.to_string());
    }
    if !is_meme {
        return MediaPlan::Say(USER_COMMANDS_HINT.to_string());
    }
    let ghost armed = state.meme_armed@;
    if !state.take_meme(user_id) {
        assert(armed.remove(user_id) =~= armed);
        return MediaPlan::Say(MEME_FIRST_TEXT.to_string());
    }
    MediaPlan::Forward(note_for_meme(username, user_id, chat))
}

fn numbered(before: &str, id: u64, after: &str) -> (r: String)
    ensures
        r@ == before@ + decimal(id as nat) + after@,
{
    let mut text = before.to_string();
    append_u64(&mut text, id);
    text.append(after);
    text
}

/// What is said of a request that is not there.
pub fn not_found_text(id: u64) -> (r: String)
    ensures
        r@ == "Request #"@ + decimal(id as nat) + " not found."@,
{
    numbered("Request #", id, " not found.")
}

/// What is said before a request is approved.
pub fn approving_text(id: u64) -> (r: String)
    ensures
        r@ == "Approving request #"@ + decimal(id as nat) + "..."@,
{
    numbered("Approving request #", id, "...")
}

/// What is said of a request that was denied.
pub fn denied_text(id: u64) -> (r: String)
    ensures
        r@ == "Request #"@ + decimal(id as nat) + " denied."@,
{
    numbered("Request #", id, " denied.")
}

/// What is said where no client could be created.
pub fn create_failed_text(id: u64) -> (r: String)
    ensures
        r@ == "failed to create VPN user for request #"@ + decimal(id as nat),
{
    let mut text = "failed to create VPN user for request #".to_string();
    append_u64(&mut text, id);
    text
}

/// What is said of a request that was approved: to the approver, and to the user. A link is also
/// sent as a picture.
#[derive(Debug)]
pub struct Approval {
    pub approver_text: String,
    pub user_text: String,
    pub url: Option<String>,
}

/// What the approver is told of a client that was created.
pub open spec fn approval_message(id: u64, summary: Seq<char>, url: Option<Seq<char>>) -> Seq<
    char,
> {
    "Approved #"@ + decimal(id as nat) + ".\n"@ + summary + (match url {
        Some(url) => "\nConnection URL: "@ + url,
        None => ""@,
    })
}

/// The approver is told which request was approved and what came of it, and the link where there is
/// one.
pub proof fn approver_is_told_the_link(id: u64, summary: Seq<char>, url: Seq<char>)
    ensures
        approval_message(id, summary, None) == "Approved #"@ + decimal(id as nat) + ".\n"@
            + summary,
        (approval_message(id, summary, None) + "\n"@).is_prefix_of(
            approval_message(id, summary, Some(url)),
        ),
        ("Connection URL: "@ + url).is_suffix_of(approval_message(id, summary, Some(url))),
{
    reveal_strlit("");
    reveal_strlit("\n");
    reveal_strlit("Connection URL: ");
    reveal_strlit("\nConnection URL: ");
    let start = "Approved #"@ + decimal(id as nat) + ".\n"@ + summary;
    assert(start + ""@ =~= start);
    assert("\nConnection URL: "@ =~= "\n"@ + "Connection URL: "@);
    assert(approval_message(id, summary, Some(url)) =~= (start + "\n"@) + ("Connection URL: "@
        + url));
    parts_stand_at_the_ends(start + "\n"@, "Connection URL: "@ + url, url);
}

/// What is said of a request that was approved.
pub fn approve_request(id: u64, created: crate::xui::CreatedClientResult) -> (r: Approval)
    ensures
        r.approver_text@ == approval_message(
            id,
            created.summary@,
            created.connection_url.deep_view(),
        ),
        r.user_text@ == match created.connection_url {
            Some(url) => url_message(APPROVED_TITLE@, url@),
            None => NO_LINK_TEXT@,
        },
        r.url.deep_view() == created.connection_url.deep_view(),
{
    let mut approver_text = numbered("Approved #", id, ".\n");
    approver_text.append(&created.summary);
    let mut tail = "".to_string();
    let user_text = match &created.connection_url {
        Some(url) => {
            tail = "\nConnection URL: ".to_string();
            tail.append(url);
            url_text(APPROVED_TITLE, url)
        },
        None => NO_LINK_TEXT.to_string(),
    };
    approver_text.append(&tail);
    Approval { approver_text, user_text, url: created.connection_url }
}

} // verus!
