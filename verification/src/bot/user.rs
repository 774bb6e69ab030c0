//! What everyone can ask for.

use vstd::prelude::*;
use vstd::utf8::encode_utf8;

use crate::access::{RequestModel, RequestOutcome};
use crate::config::AppConfig;
use crate::outside::percent_encoded;
use crate::panel::client::{subscription_address, Panel};
use crate::panel::login::{normalize_login, normalized};
use crate::panel::models::{Client, ClientModel};
use crate::state::AppState;
use crate::text::number::{append_u64, decimal};

use super::admin::{Note, NoteModel};
use super::ui::{
    action_button, action_of, format_login, meme_keyboard, payload_reads_back, shown_login,
    subscription_message, subscription_text, Action, TargetModel, ACCESS_DENIED, GUIDE, MEME_NOT_ARMED, MEME_PROMPT, NO_USERNAME, REQUEST_ALREADY_PENDING,
    REQUEST_CREATED, SUBSCRIPTION_NOTE, UNKNOWN_INPUT,
};

verus! {

/// The title of a subscription that was there already.
pub const EXISTING_TITLE: &'static str = "Твоя VPN-подписка уже есть.";

/// The title of a subscription that is sent again.
pub const RESENT_TITLE: &'static str = "Твоя ссылка на подписку.";

/// What is said where there is no subscription to send again.
pub const NO_SUBSCRIPTION: &'static str = "Подписка не найдена. Запроси доступ через /vpn.";

/// The hint at the Mini App.
pub const WEB_APP_HINT: &'static str = "Нажми «🔐 Открыть VPN» — там можно запросить доступ, скопировать подписку и прочитать инструкцию.\n\n";

/// The commands of everyone.
#[derive(Debug, Clone, Copy, PartialEq, Eq, Structural)]
pub enum UserCommand {
    Start,
    Help,
    Vpn,
    Guide,
    Meme,
}

/// What a command leads to.
#[derive(Debug)]
pub enum UserPlan {
    /// The commands are listed.
    Help,
    /// Access is asked for.
    RequestAccess,
    /// This is said.
    Say(String),
}

/// Takes a command in, and says what it leads to. A user who may use the bot can send a meme from
/// then on.
pub fn handle(cmd: UserCommand, config: &AppConfig, state: &mut AppState, user_id: u64) -> (r:
    UserPlan)
    ensures
        match cmd {
            UserCommand::Start => r == UserPlan::Help,
            UserCommand::Help => r == UserPlan::Help,
            UserCommand::Vpn => r == UserPlan::RequestAccess,
            UserCommand::Guide => r matches UserPlan::Say(text) && text@ == GUIDE@,
            UserCommand::Meme => r matches UserPlan::Say(text) && text@ == if config@.allowed(
                user_id,
            ) {
                MEME_PROMPT@
            } else {
                ACCESS_DENIED@
            },
        },
        final(state).meme_armed@ == if cmd is Meme && config@.allowed(user_id) {
            old(state).meme_armed@.insert(user_id)
        } else {
            old(state).meme_armed@
        },
        final(state).health == old(state).health,
{
    match cmd {
        UserCommand::Start => UserPlan::Help,
        UserCommand::Help => UserPlan::Help,
        UserCommand::Vpn => UserPlan::RequestAccess,
        UserCommand::Guide => UserPlan::Say(GUIDE.to_string()),
        UserCommand::Meme => {
            if !config.is_allowed(user_id) {
                return UserPlan::Say(ACCESS_DENIED.to_string());
            }
            state.arm_meme(user_id);
            UserPlan::Say(MEME_PROMPT.to_string())
        },
    }
}

/// What a message that is no command leads to.
#[derive(Debug)]
pub enum OtherPlan {
    Ignore,
    /// This is said.
    Say(String),
    /// The message is passed on to the approvers, with this note.
    Forward(Note),
}

/// The note that a meme is passed on with.
pub open spec fn meme_note(username: Option<Seq<char>>, user_id: u64, chat: i64) -> NoteModel {
    NoteModel {
        text: "Мем от "@ + (match username {
            Some(name) => shown_login(name),
            None => "<без username>"@,
        }) + " (id "@ + decimal(user_id as nat) + ")"@,
        keyboard: Some(
            seq![
                action_button(Action::MemeLike(chat), "лайк"@),
                action_button(Action::MemeDislike(chat), "дизлайк"@),
            ],
        ),
    }
}

/// A meme is passed on with the name and the number of its sender, and with two buttons that rate
/// it in the chat that it came from.
pub proof fn meme_note_names_sender_and_chat(
    username: Option<Seq<char>>,
    user_id: u64,
    chat: i64,
)
    ensures
        meme_note(username, user_id, chat).text == (match username {
            Some(name) => "Мем от "@ + shown_login(name),
            None => "Мем от "@ + "<без username>"@,
        }) + " (id "@ + decimal(user_id as nat) + ")"@,
        meme_note(username, user_id, chat).keyboard matches Some(row) && row.len() == 2
            && row[0].label == "лайк"@ && row[1].label == "дизлайк"@ && (
        row[0].target matches TargetModel::Callback(like) && action_of(like) == Some(
            Action::MemeLike(chat),
        )) && (row[1].target matches TargetModel::Callback(dislike) && action_of(dislike) == Some(
            Action::MemeDislike(chat),
        )),
{
    payload_reads_back(Action::MemeLike(chat));
    payload_reads_back(Action::MemeDislike(chat));
}

fn note_for_meme(username: Option<&str>, user_id: u64, chat: i64) -> (r: Note)
    ensures
        r@ == meme_note(
            match username {
                Some(name) => Some(name@),
                None => None,
            },
            user_id,
            chat,
        ),
{
    let mut text = "Мем от ".to_string();
    match username {
        Some(name) => {
            text.append(&format_login(name));
        },
        None => {
            text.append("<без username>");
        },
    }
    text.append(" (id ");
    append_u64(&mut text, user_id);
    text.append(")");
    Note { text, keyboard: Some(meme_keyboard(chat)) }
}

/// Takes a message that is no command in: a meme after it was announced, and a hint otherwise.
/// Approvers are left alone.
pub fn handle_other(
    config: &AppConfig,
    state: &mut AppState,
    user_id: u64,
    username: Option<&str>,
    chat: i64,
    is_media: bool,
) -> (r: OtherPlan)
    ensures
        final(state).health == old(state).health,
        if config@.approver(user_id) {
            r is Ignore && final(state).meme_armed@ == old(state).meme_armed@
        } else if !is_media {
            r matches OtherPlan::Say(text) && text@ == UNKNOWN_INPUT@ && final(state).meme_armed@
                == old(state).meme_armed@
        } else if !old(state).meme_armed@.contains(user_id) {
            r matches OtherPlan::Say(text) && text@ == MEME_NOT_ARMED@ && final(state).meme_armed@
                == old(state).meme_armed@
        } else {
            r matches OtherPlan::Forward(note) && note@ == meme_note(
                match username {
                    Some(name) => Some(name@),
                    None => None,
                },
                user_id,
                chat,
            ) && final(state).meme_armed@ == old(state).meme_armed@.remove(user_id)
        },
{
    if config.is_approver(user_id) {
        return OtherPlan::Ignore;
    }
    if !is_media {
        return OtherPlan::Say(UNKNOWN_INPUT.to_string());
    }
    let ghost armed = state.meme_armed@;
    if !state.take_meme(user_id) {
        assert(armed.remove(user_id) =~= armed);
        return OtherPlan::Say(MEME_NOT_ARMED.to_string());
    }
    OtherPlan::Forward(note_for_meme(username, user_id, chat))
}

/// The login of a user who may use the bot; otherwise what the user is told.
pub fn checked_login(config: &AppConfig, user_id: u64, username: Option<&str>) -> (r: Result<
    String,
    String,
>)
    ensures
        r is Ok <==> config@.allowed(user_id) && username is Some,
        r matches Ok(login) ==> login@ == normalized(username->0@),
        r matches Err(text) ==> text@ == if config@.allowed(user_id) {
            NO_USERNAME@
        } else {
            ACCESS_DENIED@
        },
{
    if !config.is_allowed(user_id) {
        return Err(ACCESS_DENIED.to_string());
    }
    match username {
        Some(name) => Ok(normalize_login(name)),
        None => Err(NO_USERNAME.to_string()),
    }
}

/// What a user is answered: a subscription, whose address is also sent as a picture, or a text.
#[derive(Debug)]
pub enum UserReply {
    Subscription { text: String, address: String },
    Say(String),
}

/// What a user is answered.
pub enum ReplyModel {
    Subscription { text: Seq<char>, address: Seq<char> },
    Say(Seq<char>),
}

impl View for UserReply {
    type V = ReplyModel;

    open spec fn view(&self) -> ReplyModel {
        match self {
            UserReply::Subscription { text, address } => ReplyModel::Subscription {
                text: text@,
                address: address@,
            },
            UserReply::Say(text) => ReplyModel::Say(text@),
        }
    }
}

/// The subscription of a client, under a title.
pub open spec fn subscription_reply(base: Seq<char>, client: ClientModel, title: Seq<char>) -> ReplyModel {
    let address = subscription_address(base, client.sub_id);
    ReplyModel::Subscription { text: subscription_message(title, address), address }
}

/// A client is sent the own address, as a link at the end of the message and as a picture.
pub proof fn client_gets_the_own_address(base: Seq<char>, client: ClientModel, title: Seq<char>)
    ensures
        ({
            let link = base + percent_encoded(encode_utf8(client.sub_id));
            subscription_reply(base, client, title) matches ReplyModel::Subscription {
                text,
                address,
            } && address == link && text == title + SUBSCRIPTION_NOTE@ + link
        }),
{
}

/// The subscription of a client, under a title.
pub fn send_subscription(panel: &Panel, client: &Client, title: &str) -> (r: UserReply)
    ensures
        r@ == subscription_reply(panel.config@.subscription_base_url, client@, title@),
{
    let address = panel.subscription_url(client);
    let text = subscription_text(title, &address);
    UserReply::Subscription { text, address }
}

/// What a user is answered who asks for the subscription again.
pub fn send_existing(panel: &Panel, client: &Option<Client>) -> (r: UserReply)
    ensures
        r@ == match client {
            Some(client) => subscription_reply(
                panel.config@.subscription_base_url,
                client@,
                RESENT_TITLE@,
            ),
            None => ReplyModel::Say(NO_SUBSCRIPTION@),
        },
{
    match client {
        Some(client) => send_subscription(panel, client, RESENT_TITLE),
        None => UserReply::Say(NO_SUBSCRIPTION.to_string()),
    }
}

/// What a user is answered who asks for access.
pub fn request_access(panel: &Panel, outcome: &RequestOutcome) -> (r: UserReply)
    ensures
        r@ == match outcome@ {
            RequestModel::AlreadyActive(client) => subscription_reply(
                panel.config@.subscription_base_url,
                client,
                EXISTING_TITLE@,
            ),
            RequestModel::Created(_) => ReplyModel::Say(REQUEST_CREATED@),
            RequestModel::AlreadyPending(_) => ReplyModel::Say(REQUEST_ALREADY_PENDING@),
        },
{
    match outcome {
        RequestOutcome::AlreadyActive(client) => send_subscription(panel, client, EXISTING_TITLE),
        RequestOutcome::Created(_) => UserReply::Say(REQUEST_CREATED.to_string()),
        RequestOutcome::AlreadyPending(_) => UserReply::Say(REQUEST_ALREADY_PENDING.to_string()),
    }
}

/// The list of commands: that of approvers only for approvers.
pub open spec fn help(
    has_web: bool,
    is_approver: bool,
    user_commands: Seq<char>,
    admin_commands: Seq<char>,
) -> Seq<char> {
    (if has_web {
        WEB_APP_HINT@
    } else {
        ""@
    }) + user_commands + (if is_approver {
        "\n\nАдмин:\n"@ + admin_commands
    } else {
        ""@
    })
}

/// Users are shown their own commands, and approvers those of approvers after them; the hint at
/// the Mini App comes first, where there is one.
pub proof fn help_is_for_its_reader(
    user_commands: Seq<char>,
    admin_commands: Seq<char>,
    other: Seq<char>,
)
    ensures
        help(false, false, user_commands, admin_commands) == user_commands,
        forall|has_web: bool|
            help(has_web, false, user_commands, admin_commands) == #[trigger] help(
                has_web,
                false,
                user_commands,
                other,
            ),
        forall|has_web: bool|
            #[trigger] help(has_web, true, user_commands, admin_commands) == help(
                has_web,
                false,
                user_commands,
                other,
            ) + "\n\nАдмин:\n"@ + admin_commands,
        forall|is_approver: bool|
            #[trigger] help(true, is_approver, user_commands, admin_commands) == WEB_APP_HINT@
                + help(false, is_approver, user_commands, admin_commands),
{
    reveal_strlit("");
    assert(""@ + user_commands + ""@ =~= user_commands);
    assert forall|has_web: bool|
        #[trigger] help(has_web, true, user_commands, admin_commands) == help(
            has_web,
            false,
            user_commands,
            other,
        ) + "\n\nАдмин:\n"@ + admin_commands by {
        let start = if has_web {
            WEB_APP_HINT@
        } else {
            ""@
        };
        assert(start + user_commands + ""@ =~= start + user_commands);
        assert(start + user_commands + ("\n\nАдмин:\n"@ + admin_commands) =~= start
            + user_commands + "\n\nАдмин:\n"@ + admin_commands);
    }
    assert forall|is_approver: bool|
        #[trigger] help(true, is_approver, user_commands, admin_commands) == WEB_APP_HINT@ + help(
            false,
            is_approver,
            user_commands,
            admin_commands,
        ) by {
        let end = if is_approver {
            "\n\nАдмин:\n"@ + admin_commands
        } else {
            ""@
        };
        assert(WEB_APP_HINT@ + (""@ + user_commands + end) =~= WEB_APP_HINT@ + user_commands + end);
    }
}

/// The list of commands.
pub fn send_help(
    has_web: bool,
    is_approver: bool,
    user_commands: &str,
    admin_commands: &str,
) -> (r: String)
    ensures
        r@ == help(has_web, is_approver, user_commands@, admin_commands@),
{
    let mut text = if has_web {
        WEB_APP_HINT.to_string()
    } else {
        "".to_string()
    };
    text.append(user_commands);
    let mut tail = "".to_string();
    if is_approver {
        tail = "\n\nАдмин:\n".to_string();
        tail.append(admin_commands);
    }
    text.append(&tail);
    text
}

} // verus!
