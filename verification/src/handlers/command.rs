//! Reading commands, their arguments and button payloads.

use vstd::prelude::*;

use crate::bot::ui::Action;
use crate::config::AppConfig;
use crate::outside::{i64_refusal, i64_refusal_text, u64_refusal, u64_refusal_text};
use crate::text::chars::{
    char_is_whitespace, chars_of, failure_with_cause, has_prefix, is_whitespace, starts_with, string_of,
    text_eq, trim, trim_takes_the_whitespace_around, trim_text, with_cause,
};
use crate::text::number::{
    append_u64, decimal, decimal_int, i64_reads_back, parse_i64, parse_u64, read_i64, read_u64,
    u64_reads_back,
};
use crate::text::split::{
    find_whitespace, find_whitespace_is_first, pieces_stand_between_copies, split, split_at_char,
    split_once, split_once_at, split_once_at_whitespace, split_once_whitespace, split_words, words,
    words_stand_between_whitespace,
};

verus! {

/// A decision on a request.
#[derive(Debug, Clone, Copy, PartialEq, Eq, Structural)]
pub enum RequestAction {
    Approve,
    Deny,
}

/// A command.
#[derive(Debug, Clone, Copy, PartialEq, Eq, Structural)]
pub enum TextCommand {
    Start,
    Help,
    Vpn,
    Meme,
    Subs,
    Requests,
    Delete,
    Broadcast,
    Msg,
    Approve,
    Deny,
    Unknown,
}

/// The first word of a text, up to an `@`, where it starts with a slash.
pub open spec fn command_name(text: Seq<char>) -> Option<Seq<char>> {
    if words(text).len() == 0 || !starts_with(words(text)[0], "/"@) {
        None
    } else {
        Some(split(words(text)[0], '@')[0])
    }
}

/// The command of that name.
pub open spec fn command_of(name: Option<Seq<char>>) -> TextCommand {
    match name {
        None => TextCommand::Unknown,
        Some(s) => if s == "/start"@ {
            TextCommand::Start
        } else if s == "/help"@ {
            TextCommand::Help
        } else if s == "/vpn"@ {
            TextCommand::Vpn
        } else if s == "/meme"@ {
            TextCommand::Meme
        } else if s == "/subs"@ {
            TextCommand::Subs
        } else if s == "/requests"@ {
            TextCommand::Requests
        } else if s == "/delete"@ {
            TextCommand::Delete
        } else if s == "/broadcast"@ {
            TextCommand::Broadcast
        } else if s == "/msg"@ {
            TextCommand::Msg
        } else if s == "/approve"@ {
            TextCommand::Approve
        } else if s == "/deny"@ {
            TextCommand::Deny
        } else {
            TextCommand::Unknown
        },
    }
}

/// The word after the command.
pub open spec fn argument(text: Seq<char>) -> Option<Seq<char>> {
    if words(text).len() > 1 {
        Some(words(text)[1])
    } else {
        None
    }
}

/// What stands after the first whitespace, trimmed.
pub open spec fn tail(text: Seq<char>) -> Option<Seq<char>> {
    let k = find_whitespace(text) as int;
    if k < text.len() {
        Some(trim(text.skip(k)))
    } else {
        None
    }
}

/// What stands before and after the first whitespace, where neither is blank.
pub open spec fn target_and_text(payload: Seq<char>) -> Option<(Seq<char>, Seq<char>)> {
    match split_once_whitespace(payload) {
        Some((target, text)) => if trim(target).len() > 0 && trim(text).len() > 0 {
            Some((trim(target), trim(text)))
        } else {
            None
        },
        None => None,
    }
}

proof fn words_are_long(s: Seq<char>)
    ensures
        forall|i: int| 0 <= i < words(s).len() ==> (#[trigger] words(s)[i]).len() > 0,
    decreases s.len(),
{
    if s.len() > 0 {
        find_whitespace_is_first(s);
        if is_whitespace(s[0]) {
            words_are_long(s.drop_first());
            assert(words(s) == words(s.drop_first()));
        } else {
            let k = find_whitespace(s) as int;
            words_are_long(s.skip(k));
            let rest = words(s.skip(k));
            assert forall|i: int| 0 <= i < words(s).len() implies (#[trigger] words(s)[i]).len()
                > 0 by {
                if i > 0 {
                    assert(words(s)[i] == rest[i - 1]);
                }
            }
        }
    }
}

/// An argument is never empty.
pub proof fn argument_is_not_empty(text: Seq<char>)
    ensures
        argument(text) matches Some(word) ==> word.len() > 0,
{
    words_are_long(text);
}

proof fn split_has_a_piece(s: Seq<char>, c: char)
    ensures
        split(s, c).len() > 0,
{
}

/// Every command has its name, and no other text is one.
pub proof fn commands_have_their_names(name: Seq<char>)
    ensures
        command_of(Some("/start"@)) == TextCommand::Start,
        command_of(Some("/help"@)) == TextCommand::Help,
        command_of(Some("/vpn"@)) == TextCommand::Vpn,
        command_of(Some("/meme"@)) == TextCommand::Meme,
        command_of(Some("/subs"@)) == TextCommand::Subs,
        command_of(Some("/requests"@)) == TextCommand::Requests,
        command_of(Some("/delete"@)) == TextCommand::Delete,
        command_of(Some("/broadcast"@)) == TextCommand::Broadcast,
        command_of(Some("/msg"@)) == TextCommand::Msg,
        command_of(Some("/approve"@)) == TextCommand::Approve,
        command_of(Some("/deny"@)) == TextCommand::Deny,
        command_of(None) == TextCommand::Unknown,
        name.len() == 0 || name[0] != '/' ==> command_of(Some(name)) == TextCommand::Unknown,
{
    reveal_strlit("/start");
    reveal_strlit("/help");
    reveal_strlit("/vpn");
    reveal_strlit("/meme");
    reveal_strlit("/subs");
    reveal_strlit("/requests");
    reveal_strlit("/delete");
    reveal_strlit("/broadcast");
    reveal_strlit("/msg");
    reveal_strlit("/approve");
    reveal_strlit("/deny");
    assert("/start"@.len() == 6);
    assert("/help"@.len() == 5);
    assert("/vpn"@.len() == 4);
    assert("/meme"@.len() == 5);
    assert("/subs"@.len() == 5);
    assert("/requests"@.len() == 9);
    assert("/delete"@.len() == 7);
    assert("/broadcast"@.len() == 10);
    assert("/msg"@.len() == 4);
    assert("/approve"@.len() == 8);
    assert("/deny"@.len() == 5);
    assert("/help"@[1] != "/meme"@[1]);
    assert("/help"@[1] != "/subs"@[1]);
    assert("/meme"@[1] != "/subs"@[1]);
    assert("/help"@[1] != "/deny"@[1]);
    assert("/meme"@[1] != "/deny"@[1]);
    assert("/subs"@[1] != "/deny"@[1]);
    assert("/vpn"@[1] != "/msg"@[1]);
}

/// A text with a command and an argument is read as both: the name up to an `@`, the word behind it,
/// and everything behind the first whitespace.
pub proof fn command_and_argument_are_read(
    name: Seq<char>,
    bot: Seq<char>,
    c: char,
    word: Seq<char>,
)
    requires
        name.len() > 0,
        name[0] == '/',
        forall|i: int| 0 <= i < name.len() ==> !is_whitespace(name[i]) && name[i] != '@',
        forall|i: int| 0 <= i < bot.len() ==> !is_whitespace(bot[i]),
        word.len() > 0,
        forall|i: int| 0 <= i < word.len() ==> !is_whitespace(word[i]),
        is_whitespace(c),
    ensures
        command_name(name) == Some(name),
        command_name(name.push('@') + bot) == Some(name),
        command_name(name.push(c) + word) == Some(name),
        argument(name.push(c) + word) == Some(word),
        argument(name) is None,
        tail(name.push(c) + word) == Some(word),
        tail(name) is None,
{
    reveal_strlit("/");
    let full = name.push('@') + bot;
    let text = name.push(c) + word;
    words_stand_between_whitespace(name, c, word);
    words_stand_between_whitespace(word, c, seq![]);
    pieces_stand_between_copies(name, '@', bot);
    assert forall|i: int| 0 <= i < full.len() implies !is_whitespace(full[i]) by {
        if i < name.len() {
            assert(full[i] == name[i]);
        } else if i > name.len() {
            assert(full[i] == bot[i - name.len() - 1]);
        }
    }
    words_stand_between_whitespace(full, c, seq![]);
    assert(starts_with(name, "/"@)) by {
        assert(name.subrange(0, 1) =~= "/"@);
    }
    assert(starts_with(full, "/"@)) by {
        assert(full.subrange(0, 1) =~= "/"@);
    }
    let n = name.len() as int;
    find_whitespace_is_first(text);
    find_whitespace_is_first(name);
    assert(text[n] == c);
    let m = find_whitespace(text) as int;
    assert(m < n ==> text[m] == name[m]);
    assert(m == n);
    assert(text.skip(n) =~= seq![c] + word + seq![]);
    trim_takes_the_whitespace_around(seq![c], word, seq![]);
}

/// The name of the command in a text.
pub fn normalize_command(text: &str) -> (r: Option<String>)
    ensures
        r.deep_view() == command_name(text@),
{
    let all = split_words(text);
    if all.len() == 0 {
        return None;
    }
    assert(all.deep_view()[0] == all@[0]@);
    if !has_prefix(&all[0], "/") {
        return None;
    }
    let pieces = split_at_char(&all[0], '@');
    proof {
        split_has_a_piece(all@[0]@, '@');
    }
    assert(pieces.deep_view()[0] == pieces@[0]@);
    Some(pieces[0].clone())
}

impl TextCommand {
    /// The command in a text.
    pub fn parse(input: &str) -> (r: TextCommand)
        ensures
            r == command_of(command_name(input@)),
    {
        match normalize_command(input) {
            None => TextCommand::Unknown,
            Some(name) => {
                if text_eq(&name, "/start") {
                    TextCommand::Start
                } else if text_eq(&name, "/help") {
                    TextCommand::Help
                } else if text_eq(&name, "/vpn") {
                    TextCommand::Vpn
                } else if text_eq(&name, "/meme") {
                    TextCommand::Meme
                } else if text_eq(&name, "/subs") {
                    TextCommand::Subs
                } else if text_eq(&name, "/requests") {
                    TextCommand::Requests
                } else if text_eq(&name, "/delete") {
                    TextCommand::Delete
                } else if text_eq(&name, "/broadcast") {
                    TextCommand::Broadcast
                } else if text_eq(&name, "/msg") {
                    TextCommand::Msg
                } else if text_eq(&name, "/approve") {
                    TextCommand::Approve
                } else if text_eq(&name, "/deny") {
                    TextCommand::Deny
                } else {
                    TextCommand::Unknown
                }
            },
        }
    }

    /// Everyone may use the command.
    pub open spec fn for_everyone(self) -> bool {
        self is Start || self is Help || self is Vpn || self is Meme
    }

    /// Whether everyone may use the command.
    pub fn is_allowed_for_user(self) -> (r: bool)
        ensures
            r == self.for_everyone(),
    {
        match self {
            TextCommand::Start => true,
            TextCommand::Help => true,
            TextCommand::Vpn => true,
            TextCommand::Meme => true,
            _ => false,
        }
    }
}

/// The word after the command.
pub fn first_arg(text: &str) -> (r: Option<String>)
    ensures
        r.deep_view() == argument(text@),
{
    let all = split_words(text);
    if all.len() > 1 {
        assert(all.deep_view()[1] == all@[1]@);
        Some(all[1].clone())
    } else {
        None
    }
}

/// What stands after the first whitespace.
pub fn command_tail(text: &str) -> (r: Option<String>)
    ensures
        r.deep_view() == tail(text@),
{
    let v = chars_of(text);
    let mut k: usize = 0;
    while k < v.len() && !char_is_whitespace(v[k])
        invariant
            k <= v@.len(),
            forall|j: int| 0 <= j < k ==> !is_whitespace(#[trigger] v@[j]),
        decreases v@.len() - k,
    {
        k = k + 1;
    }
    proof {
        find_whitespace_is_first(text@);
        let m = find_whitespace(text@) as int;
        assert(m < k ==> !is_whitespace(v@[m]));
        assert(k < m ==> !is_whitespace(text@[k as int]));
    }
    if k < v.len() {
        let rest = string_of(&v, k, v.len());
        assert(rest@ =~= text@.skip(k as int));
        Some(trim_text(&rest))
    } else {
        None
    }
}

/// Whom a message is for, and the message.
pub fn split_target_and_text(payload: &str) -> (r: Option<(String, String)>)
    ensures
        r.deep_view() == target_and_text(payload@),
{
    match split_once_at_whitespace(payload) {
        Some((target, text)) => {
            let target = trim_text(&target);
            let text = trim_text(&text);
            if target.as_str().is_empty() || text.as_str().is_empty() {
                None
            } else {
                Some((target, text))
            }
        },
        None => None,
    }
}

/// The decision of that name.
pub fn parse_action(raw: &str) -> (r: Option<RequestAction>)
    ensures
        r == if raw@ == "approve"@ {
            Some(RequestAction::Approve)
        } else if raw@ == "deny"@ {
            Some(RequestAction::Deny)
        } else {
            None
        },
{
    if text_eq(raw, "approve") {
        Some(RequestAction::Approve)
    } else if text_eq(raw, "deny") {
        Some(RequestAction::Deny)
    } else {
        None
    }
}

/// The number of a request.
pub fn parse_request_id(request_id: Option<&str>) -> (r: Result<u64, String>)
    ensures
        match request_id {
            None => r matches Err(e) && e@ == "missing request id"@,
            Some(raw) => match read_u64(raw@) {
                Some(id) => r == Ok::<u64, String>(id),
                None => r matches Err(e) && e@ == with_cause(
                    "request id must be an integer"@,
                    u64_refusal(raw@)->0,
                ),
            },
        },
{
    match request_id {
        None => Err("missing request id".to_string()),
        Some(raw) => match parse_u64(raw) {
            Some(id) => Ok(id),
            None => {
                let cause = u64_refusal_text(raw).unwrap();
                Err(failure_with_cause("request id must be an integer", &cause))
            },
        },
    }
}

/// What a text leads to.
#[derive(Debug)]
pub enum TextPlan {
    /// The user is told of the commands for everyone.
    Hint,
    /// The commands are listed.
    Help,
    Vpn,
    Meme,
    Subs,
    Requests,
    Delete(Option<String>),
    Broadcast(Option<String>),
    Msg(Option<String>),
    Approve(Option<String>),
    Deny(Option<String>),
    /// Nothing.
    Ignore,
}

/// What a text leads to.
pub enum TextPlanModel {
    Hint,
    Help,
    Vpn,
    Meme,
    Subs,
    Requests,
    Delete(Option<Seq<char>>),
    Broadcast(Option<Seq<char>>),
    Msg(Option<Seq<char>>),
    Approve(Option<Seq<char>>),
    Deny(Option<Seq<char>>),
    Ignore,
}

impl View for TextPlan {
    type V = TextPlanModel;

    open spec fn view(&self) -> TextPlanModel {
        match self {
            TextPlan::Hint => TextPlanModel::Hint,
            TextPlan::Help => TextPlanModel::Help,
            TextPlan::Vpn => TextPlanModel::Vpn,
            TextPlan::Meme => TextPlanModel::Meme,
            TextPlan::Subs => TextPlanModel::Subs,
            TextPlan::Requests => TextPlanModel::Requests,
            TextPlan::Delete(arg) => TextPlanModel::Delete(arg.deep_view()),
            TextPlan::Broadcast(arg) => TextPlanModel::Broadcast(arg.deep_view()),
            TextPlan::Msg(arg) => TextPlanModel::Msg(arg.deep_view()),
            TextPlan::Approve(arg) => TextPlanModel::Approve(arg.deep_view()),
            TextPlan::Deny(arg) => TextPlanModel::Deny(arg.deep_view()),
            TextPlan::Ignore => TextPlanModel::Ignore,
        }
    }
}

/// What a text leads to: users who are no approvers are held to the commands for everyone.
pub open spec fn text_plan(text: Seq<char>, is_approver: bool) -> TextPlanModel {
    let command = command_of(command_name(text));
    if !is_approver && !command.for_everyone() {
        TextPlanModel::Hint
    } else {
        match command {
            TextCommand::Start => TextPlanModel::Help,
            TextCommand::Help => TextPlanModel::Help,
            TextCommand::Vpn => TextPlanModel::Vpn,
            TextCommand::Meme => TextPlanModel::Meme,
            TextCommand::Subs => TextPlanModel::Subs,
            TextCommand::Requests => TextPlanModel::Requests,
            TextCommand::Delete => TextPlanModel::Delete(argument(text)),
            TextCommand::Broadcast => TextPlanModel::Broadcast(tail(text)),
            TextCommand::Msg => TextPlanModel::Msg(tail(text)),
            TextCommand::Approve => TextPlanModel::Approve(argument(text)),
            TextCommand::Deny => TextPlanModel::Deny(argument(text)),
            TextCommand::Unknown => TextPlanModel::Ignore,
        }
    }
}

/// What a text leads to.
pub fn handle_text(text: &str, is_approver: bool) -> (r: TextPlan)
    ensures
        r@ == text_plan(text@, is_approver),
{
    let command = TextCommand::parse(text);
    if !is_approver && !command.is_allowed_for_user() {
        return TextPlan::Hint;
    }
    match command {
        TextCommand::Start => TextPlan::Help,
        TextCommand::Help => TextPlan::Help,
        TextCommand::Vpn => TextPlan::Vpn,
        TextCommand::Meme => TextPlan::Meme,
        TextCommand::Subs => TextPlan::Subs,
        TextCommand::Requests => TextPlan::Requests,
        TextCommand::Delete => TextPlan::Delete(first_arg(text)),
        TextCommand::Broadcast => TextPlan::Broadcast(command_tail(text)),
        TextCommand::Msg => TextPlan::Msg(command_tail(text)),
        TextCommand::Approve => TextPlan::Approve(first_arg(text)),
        TextCommand::Deny => TextPlan::Deny(first_arg(text)),
        TextCommand::Unknown => TextPlan::Ignore,
    }
}

/// Users who are no approvers get help, access, memes or a hint, and nothing else.
pub proof fn users_are_held_to_their_commands(text: Seq<char>)
    ensures
        text_plan(text, false) is Hint || text_plan(text, false) is Help || text_plan(
            text,
            false,
        ) is Vpn || text_plan(text, false) is Meme,
{
}

/// Approvers can use every command with what they give to it; a text that is no command is ignored.
pub proof fn approvers_can_use_every_command(text: Seq<char>)
    ensures
        ({
            let command = command_of(command_name(text));
            &&& command == TextCommand::Start || command == TextCommand::Help ==> text_plan(text, true)
                == TextPlanModel::Help
            &&& command == TextCommand::Vpn ==> text_plan(text, true) == TextPlanModel::Vpn
            &&& command == TextCommand::Meme ==> text_plan(text, true) == TextPlanModel::Meme
            &&& command == TextCommand::Subs ==> text_plan(text, true) == TextPlanModel::Subs
            &&& command == TextCommand::Requests ==> text_plan(text, true) == TextPlanModel::Requests
            &&& command == TextCommand::Delete ==> text_plan(text, true) == TextPlanModel::Delete(
                argument(text),
            )
            &&& command == TextCommand::Broadcast ==> text_plan(text, true)
                == TextPlanModel::Broadcast(tail(text))
            &&& command == TextCommand::Msg ==> text_plan(text, true) == TextPlanModel::Msg(
                tail(text),
            )
            &&& command == TextCommand::Approve ==> text_plan(text, true) == TextPlanModel::Approve(
                argument(text),
            )
            &&& command == TextCommand::Deny ==> text_plan(text, true) == TextPlanModel::Deny(
                argument(text),
            )
            &&& command == TextCommand::Unknown ==> text_plan(text, true) == TextPlanModel::Ignore
            &&& command == TextCommand::Vpn || command == TextCommand::Meme || command
                == TextCommand::Help || command == TextCommand::Start ==> text_plan(text, false)
                == text_plan(text, true)
            &&& !(command == TextCommand::Vpn || command == TextCommand::Meme || command
                == TextCommand::Help || command == TextCommand::Start) ==> text_plan(text, false)
                == TextPlanModel::Hint
        }),
{
}

/// What a button leads to.
#[derive(Debug, Clone, Copy, PartialEq, Eq, Structural)]
pub enum CallbackPlan {
    NotApprover,
    MissingData,
    /// A meme is rated.
    Rate { chat: i64, like: bool },
    BadFormat,
    BadRequestId,
    Decide { id: u64, action: RequestAction },
    UnknownAction,
}

/// The rest of the text after the prefix.
pub open spec fn after_prefix(s: Seq<char>, prefix: Seq<char>) -> Option<Seq<char>> {
    if starts_with(s, prefix) {
        Some(s.skip(prefix.len() as int))
    } else {
        None
    }
}

/// A rating for the chat of that number; an error where it is none.
pub open spec fn rating(raw: Seq<char>, like: bool) -> Result<CallbackPlan, Seq<char>> {
    match read_i64(raw) {
        Some(chat) => Ok(CallbackPlan::Rate { chat, like }),
        None => Err(with_cause("invalid chat id"@, i64_refusal(raw)->0)),
    }
}

/// What a button with a payload leads to.
pub open spec fn payload_plan(data: Seq<char>) -> Result<CallbackPlan, Seq<char>> {
    match after_prefix(data, "meme_like:"@) {
        Some(raw) => rating(raw, true),
        None => match after_prefix(data, "meme_dislike:"@) {
            Some(raw) => rating(raw, false),
            None => match split_once(data, ':') {
                None => Ok(CallbackPlan::BadFormat),
                Some((action, id)) => match read_u64(id) {
                    None => Ok(CallbackPlan::BadRequestId),
                    Some(id) => if action == "approve"@ {
                        Ok(CallbackPlan::Decide { id, action: RequestAction::Approve })
                    } else if action == "deny"@ {
                        Ok(CallbackPlan::Decide { id, action: RequestAction::Deny })
                    } else {
                        Ok(CallbackPlan::UnknownAction)
                    },
                },
            },
        },
    }
}

/// What a button leads to; an error where it rates a meme for a chat that is no number.
pub open spec fn callback_plan(is_approver: bool, data: Option<Seq<char>>) -> Result<
    CallbackPlan,
    Seq<char>,
> {
    if !is_approver {
        Ok(CallbackPlan::NotApprover)
    } else {
        match data {
            None => Ok(CallbackPlan::MissingData),
            Some(payload) => payload_plan(payload),
        }
    }
}

fn strip_text_prefix(s: &str, prefix: &str) -> (r: Option<String>)
    ensures
        r.deep_view() == after_prefix(s@, prefix@),
{
    if has_prefix(s, prefix) {
        let v = chars_of(s);
        let n: usize = chars_of(prefix).len();
        let rest = string_of(&v, n, v.len());
        assert(rest@ =~= s@.skip(n as int));
        Some(rest)
    } else {
        None
    }
}

/// What a button leads to, with the words of an error.
pub open spec fn plan_result(r: Result<CallbackPlan, String>) -> Result<CallbackPlan, Seq<char>> {
    match r {
        Ok(plan) => Ok(plan),
        Err(e) => Err(e@),
    }
}

/// The number of a chat.
pub fn parse_chat_id(raw: &str) -> (r: Result<i64, String>)
    ensures
        match read_i64(raw@) {
            Some(id) => r == Ok::<i64, String>(id),
            None => r matches Err(e) && e@ == with_cause("invalid chat id"@, i64_refusal(raw@)->0),
        },
{
    match parse_i64(raw) {
        Some(id) => Ok(id),
        None => {
            let cause = i64_refusal_text(raw).unwrap();
            Err(failure_with_cause("invalid chat id", &cause))
        },
    }
}

fn rate(raw: &str, like: bool) -> (r: Result<CallbackPlan, String>)
    ensures
        plan_result(r) == rating(raw@, like),
{
    match parse_chat_id(raw) {
        Ok(chat) => Ok(CallbackPlan::Rate { chat, like }),
        Err(e) => Err(e),
    }
}

/// What a button leads to.
pub fn handle_callback(is_approver: bool, data: Option<&str>) -> (r: Result<CallbackPlan, String>)
    ensures
        plan_result(r) == callback_plan(
            is_approver,
            match data {
                Some(payload) => Some(payload@),
                None => None,
            },
        ),
{
    if !is_approver {
        return Ok(CallbackPlan::NotApprover);
    }
    let data = match data {
        Some(data) => data,
        None => {
            return Ok(CallbackPlan::MissingData);
        },
    };
    if let Some(raw) = strip_text_prefix(data, "meme_like:") {
        return rate(&raw, true);
    }
    if let Some(raw) = strip_text_prefix(data, "meme_dislike:") {
        return rate(&raw, false);
    }
    let (action, id) = match split_once_at(data, ':') {
        Some(parts) => parts,
        None => {
            return Ok(CallbackPlan::BadFormat);
        },
    };
    let id: u64 = match parse_u64(&id) {
        Some(id) => id,
        None => {
            return Ok(CallbackPlan::BadRequestId);
        },
    };
    match parse_action(&action) {
        Some(action) => Ok(CallbackPlan::Decide { id, action }),
        None => Ok(CallbackPlan::UnknownAction),
    }
}

impl CallbackPlan {
    /// What the button is answered.
    pub open spec fn answer_text(self) -> Seq<char> {
        match self {
            CallbackPlan::NotApprover => "Only approver can use this action"@,
            CallbackPlan::MissingData => "Missing callback data"@,
            CallbackPlan::Rate { .. } => "Оценка отправлена"@,
            CallbackPlan::BadFormat => "Invalid callback format"@,
            CallbackPlan::BadRequestId => "Invalid request id"@,
            CallbackPlan::Decide { action: RequestAction::Approve, .. } => "Request approved"@,
            CallbackPlan::Decide { action: RequestAction::Deny, .. } => "Request denied"@,
            CallbackPlan::UnknownAction => "Unknown action"@,
        }
    }

    /// What the button is answered, once what it leads to is done.
    pub fn answer(self) -> (r: String)
        ensures
            r@ == self.answer_text(),
    {
        match self {
            CallbackPlan::NotApprover => "Only approver can use this action".to_string(),
            CallbackPlan::MissingData => "Missing callback data".to_string(),
            CallbackPlan::Rate { chat: _, like: _ } => "Оценка отправлена".to_string(),
            CallbackPlan::BadFormat => "Invalid callback format".to_string(),
            CallbackPlan::BadRequestId => "Invalid request id".to_string(),
            CallbackPlan::Decide { id: _, action } => match action {
                RequestAction::Approve => "Request approved".to_string(),
                RequestAction::Deny => "Request denied".to_string(),
            },
            CallbackPlan::UnknownAction => "Unknown action".to_string(),
        }
    }
}

/// Only approvers decide requests or rate memes.
pub proof fn buttons_are_for_approvers(is_approver: bool, data: Option<Seq<char>>)
    ensures
        callback_plan(is_approver, data) matches Ok(plan) && (plan is Decide || plan is Rate)
            ==> is_approver,
{
}

/// The buttons under requests and memes lead to what they are for, and everyone else is turned away.
pub proof fn buttons_lead_to_what_they_are_for(id: u64, chat: i64, data: Option<Seq<char>>)
    ensures
        callback_plan(true, Some(Action::Approve(id).payload())) == Ok::<CallbackPlan, Seq<char>>(
            CallbackPlan::Decide { id, action: RequestAction::Approve },
        ),
        callback_plan(true, Some(Action::Deny(id).payload())) == Ok::<CallbackPlan, Seq<char>>(
            CallbackPlan::Decide { id, action: RequestAction::Deny },
        ),
        callback_plan(true, Some(Action::MemeLike(chat).payload())) == Ok::<
            CallbackPlan,
            Seq<char>,
        >(CallbackPlan::Rate { chat, like: true }),
        callback_plan(true, Some(Action::MemeDislike(chat).payload())) == Ok::<
            CallbackPlan,
            Seq<char>,
        >(CallbackPlan::Rate { chat, like: false }),
        callback_plan(true, None) == Ok::<CallbackPlan, Seq<char>>(CallbackPlan::MissingData),
        callback_plan(false, data) == Ok::<CallbackPlan, Seq<char>>(CallbackPlan::NotApprover),
{
    reveal_strlit("approve");
    reveal_strlit("deny");
    reveal_strlit("approve:");
    reveal_strlit("deny:");
    reveal_strlit("meme_like:");
    reveal_strlit("meme_dislike:");
    u64_reads_back(id);
    i64_reads_back(chat);
    let digits = decimal(id as nat);
    let number = decimal_int(chat as int);
    let approve = Action::Approve(id).payload();
    let deny = Action::Deny(id).payload();
    let like = Action::MemeLike(chat).payload();
    let dislike = Action::MemeDislike(chat).payload();
    assert(approve =~= "approve"@.push(':') + digits);
    assert(deny =~= "deny"@.push(':') + digits);
    pieces_stand_between_copies("approve"@, ':', digits);
    pieces_stand_between_copies("deny"@, ':', digits);
    other_start("meme_like:"@, approve);
    other_start("meme_dislike:"@, approve);
    other_start("meme_like:"@, deny);
    other_start("meme_dislike:"@, deny);
    assert(like.subrange(0, 10) =~= "meme_like:"@);
    assert(like.skip(10) =~= number);
    assert(dislike.subrange(0, 13) =~= "meme_dislike:"@);
    assert(dislike.skip(13) =~= number);
    assert(!starts_with(dislike, "meme_like:"@)) by {
        if starts_with(dislike, "meme_like:"@) {
            assert(dislike.subrange(0, 10)[5] == dislike[5]);
        }
    }
}

proof fn other_start(p: Seq<char>, s: Seq<char>)
    requires
        p.len() > 0,
        s.len() > 0,
        p[0] != s[0],
    ensures
        !starts_with(s, p),
{
    if starts_with(s, p) {
        assert(s.subrange(0, p.len() as int)[0] == s[0]);
    }
}

/// A payload that is no rating needs a colon, a number behind it, and a decision before it; a rating
/// needs a chat, and says why it is none.
pub proof fn other_payloads_are_refused(data: Seq<char>, raw: Seq<char>)
    requires
        !starts_with(data, "meme_like:"@),
        !starts_with(data, "meme_dislike:"@),
    ensures
        split_once(data, ':') is None ==> payload_plan(data) == Ok::<CallbackPlan, Seq<char>>(
            CallbackPlan::BadFormat,
        ),
        split_once(data, ':') matches Some((action, id)) ==> (read_u64(id) is None ==> payload_plan(
            data,
        ) == Ok::<CallbackPlan, Seq<char>>(CallbackPlan::BadRequestId)),
        split_once(data, ':') matches Some((action, id)) ==> (read_u64(id) is Some && action
            != "approve"@ && action != "deny"@ ==> payload_plan(data) == Ok::<
            CallbackPlan,
            Seq<char>,
        >(CallbackPlan::UnknownAction)),
        read_i64(raw) is None ==> rating(raw, true) == Err::<CallbackPlan, Seq<char>>(
            "invalid chat id"@ + ": "@ + i64_refusal(raw)->0,
        ),
        read_i64(raw) matches Some(chat) ==> rating(raw, true) == Ok::<CallbackPlan, Seq<char>>(
            CallbackPlan::Rate { chat, like: true },
        ) && rating(raw, false) == Ok::<CallbackPlan, Seq<char>>(
            CallbackPlan::Rate { chat, like: false },
        ),
{
}

/// A button is answered with what came of it.
pub proof fn answers_say_what_came_of_a_button(id: u64, chat: i64, like: bool)
    ensures
        CallbackPlan::NotApprover.answer_text() == "Only approver can use this action"@,
        CallbackPlan::MissingData.answer_text() == "Missing callback data"@,
        (CallbackPlan::Rate { chat, like }).answer_text() == "Оценка отправлена"@,
        CallbackPlan::BadFormat.answer_text() == "Invalid callback format"@,
        CallbackPlan::BadRequestId.answer_text() == "Invalid request id"@,
        (CallbackPlan::Decide { id, action: RequestAction::Approve }).answer_text()
            == "Request approved"@,
        (CallbackPlan::Decide { id, action: RequestAction::Deny }).answer_text()
            == "Request denied"@,
        CallbackPlan::UnknownAction.answer_text() == "Unknown action"@,
{
}

/// A message is for whom is named first, and its text is everything behind that; neither may be
/// blank.
pub proof fn target_stands_before_the_text(target: Seq<char>, c: char, text: Seq<char>)
    requires
        target.len() > 0,
        forall|i: int| 0 <= i < target.len() ==> !is_whitespace(target[i]),
        is_whitespace(c),
    ensures
        trim(text).len() > 0 ==> target_and_text(target.push(c) + text) == Some(
            (target, trim(text)),
        ),
        trim(text).len() == 0 ==> target_and_text(target.push(c) + text) is None,
        target_and_text(target) is None,
{
    words_stand_between_whitespace(target, c, text);
    trim_takes_the_whitespace_around(seq![], target, seq![]);
    assert(seq![] + target + seq![] =~= target);
}

/// Whether the user is an approver; otherwise the error that is reported.
pub fn ensure_approver(config: &AppConfig, user_id: u64) -> (r: Result<(), String>)
    ensures
        r is Ok <==> config@.approver(user_id),
        r matches Err(e) ==> e@ == "unauthorized approver command from user "@
            + decimal(user_id as nat),
{
    if config.is_approver(user_id) {
        Ok(())
    } else {
        let mut e = "unauthorized approver command from user ".to_string();
        append_u64(&mut e, user_id);
        Err(e)
    }
}

} // verus!
