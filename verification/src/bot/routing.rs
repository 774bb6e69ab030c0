//! Where an update goes, and how errors are reported.

use vstd::prelude::*;

use crate::text::number::{append_u64, decimal};

use super::admin::{Note, NoteModel};
use super::ui::{
    action_of, approval_buttons, approval_keyboard, format_login, payload_reads_back, shown_login,
    Action, TargetModel, USER_ERROR,
};

verus! {

/// What is answered to a button that nobody knows.
pub const UNKNOWN_ACTION: &'static str = "Неизвестное действие";

/// What is answered to a button that is not for everyone.
pub const APPROVERS_ONLY: &'static str = "Только для админа";

/// What a button leads to.
#[derive(Debug, Clone, Copy, PartialEq, Eq, Structural)]
pub enum CallbackPlan {
    /// The payload says nothing.
    Unknown,
    /// The button is not for this user.
    Forbidden,
    /// What the button asks for is done.
    Run(Action),
}

/// What a button leads to.
pub open spec fn callback_plan(data: Option<Seq<char>>, is_approver: bool) -> CallbackPlan {
    match data {
        Some(payload) => match action_of(payload) {
            Some(action) => if action.admin_only() && !is_approver {
                CallbackPlan::Forbidden
            } else {
                CallbackPlan::Run(action)
            },
            None => CallbackPlan::Unknown,
        },
        None => CallbackPlan::Unknown,
    }
}

/// What a button leads to.
pub fn on_callback(data: Option<&str>, is_approver: bool) -> (r: CallbackPlan)
    ensures
        r == callback_plan(
            match data {
                Some(payload) => Some(payload@),
                None => None,
            },
            is_approver,
        ),
{
    match data {
        Some(payload) => match Action::decode(payload) {
            Some(action) => {
                if action.is_admin_only() && !is_approver {
                    CallbackPlan::Forbidden
                } else {
                    CallbackPlan::Run(action)
                }
            },
            None => CallbackPlan::Unknown,
        },
        None => CallbackPlan::Unknown,
    }
}

/// What is for approvers is done for approvers alone, and everyone may ask for the rest.
pub proof fn approvers_alone_decide(data: Option<Seq<char>>)
    ensures
        callback_plan(data, false) matches CallbackPlan::Run(action) ==> !action.admin_only(),
        callback_plan(data, true) != CallbackPlan::Forbidden,
        callback_plan(data, false) is Unknown <==> callback_plan(data, true) is Unknown,
{
}

/// Every button does what it is for: the guide and the link for everyone, decisions and ratings for
/// approvers alone. A payload that stands for nothing does nothing.
pub proof fn every_button_does_what_it_is_for(action: Action, data: Seq<char>)
    ensures
        callback_plan(Some(action.payload()), true) == CallbackPlan::Run(action),
        callback_plan(Some(action.payload()), false) == match action {
            Action::Guide => CallbackPlan::Run(Action::Guide),
            Action::Resend => CallbackPlan::Run(Action::Resend),
            Action::Approve(_) => CallbackPlan::Forbidden,
            Action::Deny(_) => CallbackPlan::Forbidden,
            Action::MemeLike(_) => CallbackPlan::Forbidden,
            Action::MemeDislike(_) => CallbackPlan::Forbidden,
        },
        action_of(data) is None ==> callback_plan(Some(data), true) == CallbackPlan::Unknown,
        callback_plan(None, true) == CallbackPlan::Unknown,
        callback_plan(None, false) == CallbackPlan::Unknown,
{
    payload_reads_back(action);
}

/// The chat of a button: that of its message, or else the private one with the user.
pub fn callback_chat(message_chat: Option<i64>, user_id: u64) -> (r: i64)
    ensures
        r == match message_chat {
            Some(chat) => chat,
            None => user_id as i64,
        },
{
    match message_chat {
        Some(chat) => chat,
        None => user_id as i64,
    }
}

/// What is said of an error: everything to approvers, and nothing in particular to users.
pub open spec fn error_text(is_approver: bool, error: Seq<char>) -> Seq<char> {
    if is_approver {
        "⚠️ Ошибка: "@ + error
    } else {
        USER_ERROR@
    }
}

/// What is said of an error.
pub fn report(is_approver: bool, error: &str) -> (r: String)
    ensures
        r@ == error_text(is_approver, error@),
{
    if is_approver {
        let mut text = "⚠️ Ошибка: ".to_string();
        text.append(error);
        text
    } else {
        USER_ERROR.to_string()
    }
}

/// Users do not learn what went wrong.
pub proof fn users_see_no_details(one: Seq<char>, other: Seq<char>)
    ensures
        error_text(false, one) == error_text(false, other),
{
}

/// Approvers are told every error as it is.
pub proof fn approvers_see_the_error(error: Seq<char>, other: Seq<char>)
    ensures
        error_text(true, error) == "⚠️ Ошибка: "@ + error,
        error != other ==> error_text(true, error) != error_text(true, other),
        error_text(false, error) == "Что-то пошло не так. Попробуй позже."@,
{
    let start = "⚠️ Ошибка: "@;
    if error_text(true, error) == error_text(true, other) {
        assert(error =~= (start + error).skip(start.len() as int));
        assert(other =~= (start + other).skip(start.len() as int));
    }
}

/// What approvers are told of a new request.
pub open spec fn approval_note(id: u64, login: Seq<char>, user_id: u64) -> NoteModel {
    NoteModel {
        text: "Новая заявка #"@ + decimal(id as nat) + "\nОт: "@ + shown_login(login) + " (id "@
            + decimal(user_id as nat) + ")"@,
        keyboard: Some(approval_buttons(id)),
    }
}

/// A new request is announced with its number, its login and its user, and the two buttons under it
/// approve and deny that very request.
pub proof fn request_buttons_decide_the_request(id: u64, login: Seq<char>, user_id: u64)
    ensures
        approval_note(id, login, user_id).text == "Новая заявка #"@ + decimal(id as nat)
            + "\nОт: "@ + shown_login(login) + " (id "@ + decimal(user_id as nat) + ")"@,
        approval_note(id, login, user_id).keyboard == Some(approval_buttons(id)),
        approval_buttons(id).len() == 2,
        approval_buttons(id)[0].label == "✅ Одобрить"@,
        approval_buttons(id)[1].label == "❌ Отклонить"@,
        approval_buttons(id)[0].target matches TargetModel::Callback(payload) && callback_plan(
            Some(payload),
            true,
        ) == CallbackPlan::Run(Action::Approve(id)),
        approval_buttons(id)[1].target matches TargetModel::Callback(payload) && callback_plan(
            Some(payload),
            true,
        ) == CallbackPlan::Run(Action::Deny(id)),
{
    payload_reads_back(Action::Approve(id));
    payload_reads_back(Action::Deny(id));
}

/// What approvers are told of a new request.
pub fn approval_request_message(id: u64, login: &str, user_id: u64) -> (r: Note)
    ensures
        r@ == approval_note(id, login@, user_id),
{
    let mut text = "Новая заявка #".to_string();
    append_u64(&mut text, id);
    text.append("\nОт: ");
    text.append(&format_login(login));
    text.append(" (id ");
    append_u64(&mut text, user_id);
    text.append(")");
    Note { text, keyboard: Some(approval_keyboard(id)) }
}

} // verus!
