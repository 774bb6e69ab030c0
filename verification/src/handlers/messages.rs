//! Lists, broadcasts and messages for approvers.

use vstd::prelude::*;

use crate::bot::admin::{Note, NoteModel};
use crate::bot::recipients::{delivered, growing, insert_recipient, tally};
use crate::bot::ui::{format_unix, unix_text};
use crate::outside::{
    i64_refusal, i64_refusal_text, utc_minute_of_millis, utc_minute_of_millis_text,
};
use crate::panel::login::{normalize_login, normalized};
use crate::text::chars::{
    failure_with_cause, is_whitespace, parts_stand_at_the_ends, text_eq, trim,
    trim_takes_the_whitespace_around, trim_text, with_cause,
};
use crate::text::chunks::{chunks_or_whole, split_text_chunks};
use crate::text::number::{
    append_i64, append_u64, decimal, decimal_int, decimal_reads_back, i64_reads_back, i64_text,
    is_digit, parse_i64, read_i64,
};
use crate::text::order::{
    in_order, positions, sort_by, sort_by_sorts, sort_of_images, sorted_positions,
};
use crate::text::split::{join, join_texts};
use crate::xui::models::{subscription_models, ExistingSubscription, SubscriptionModel};

use super::command::{
    split_target_and_text, target_and_text, target_stands_before_the_text,
};
use super::requests::{approval_keyboard, decision_buttons, format_login, shown};

verus! {

/// The bytes that a message may take.
pub const CHUNK_SIZE: usize = 3500;

/// How a message is sent to a user.
pub const MSG_USAGE: &'static str = "usage: /msg <@login|tg_id> <text>";

/// A request that waits, with when it was made.
#[derive(Debug)]
pub struct PendingCreateRequest {
    pub id: u64,
    pub requester_chat_id: i64,
    pub requester_user_id: u64,
    pub custom_email: Option<String>,
    pub created_at_unix: i64,
}

/// What a request that waits is.
pub struct WaitingModel {
    pub id: u64,
    pub requester_chat_id: i64,
    pub requester_user_id: u64,
    pub custom_email: Option<Seq<char>>,
    pub created_at_unix: i64,
}

impl View for PendingCreateRequest {
    type V = WaitingModel;

    open spec fn view(&self) -> WaitingModel {
        WaitingModel {
            id: self.id,
            requester_chat_id: self.requester_chat_id,
            requester_user_id: self.requester_user_id,
            custom_email: self.custom_email.deep_view(),
            created_at_unix: self.created_at_unix,
        }
    }
}

/// When the access of a subscription ends.
pub open spec fn expiry_text(expiry_time: i64) -> Seq<char> {
    if expiry_time <= 0 {
        "never"@
    } else {
        match utc_minute_of_millis(expiry_time) {
            Some(date) => date,
            None => decimal_int(expiry_time as int),
        }
    }
}

/// What is shown of a subscription.
pub open spec fn subscription_line(sub: SubscriptionModel) -> Seq<char> {
    "• "@ + shown(sub.email) + " | tg:"@ + (match sub.tg_id {
        Some(id) => id,
        None => "-"@,
    }) + " | enabled:"@ + (if sub.enabled {
        "true"@
    } else {
        "false"@
    }) + " | exp:"@ + expiry_text(sub.expiry_time) + " | inbound:"@ + decimal_int(
        sub.inbound_id as int,
    ) + " ("@ + sub.inbound_remark + ")"@
}

/// The subscriptions in the order of their e-mails.
pub open spec fn in_email_order(subs: Seq<SubscriptionModel>) -> Seq<SubscriptionModel> {
    sort_by(subs, |s: SubscriptionModel| s.email)
}

/// What is shown of all subscriptions.
pub open spec fn subs_messages(subs: Seq<SubscriptionModel>) -> Seq<Seq<char>> {
    if subs.len() == 0 {
        seq!["Подписки не найдены."@]
    } else {
        chunks_or_whole(
            join(
                seq!["Найдено подписок: "@ + decimal(subs.len())] + in_email_order(
                    subs,
                ).map_values(|s: SubscriptionModel| subscription_line(s)),
                "\n"@,
            ),
            CHUNK_SIZE as nat,
        )
    }
}

/// Access without an end is shown as such, and an end as its minute, or as its number where it is no
/// date.
pub proof fn end_of_access_is_shown(expiry_time: i64)
    ensures
        expiry_time <= 0 ==> expiry_text(expiry_time) == "never"@,
        expiry_time > 0 && utc_minute_of_millis(expiry_time) is Some ==> Some(
            expiry_text(expiry_time),
        ) == utc_minute_of_millis(expiry_time),
        expiry_time > 0 && utc_minute_of_millis(expiry_time) is None ==> expiry_text(expiry_time)
            == decimal_int(expiry_time as int),
{
}

/// The line of a subscription shows its login, its chat, whether it is enabled, its end and its
/// inbound.
pub proof fn line_shows_the_subscription(sub: SubscriptionModel, tg: Seq<char>)
    requires
        sub.tg_id == Some(tg) || (sub.tg_id is None && tg == "-"@),
    ensures
        sub.enabled ==> subscription_line(sub) == "• "@ + shown(sub.email) + " | tg:"@ + tg
            + " | enabled:true | exp:"@ + expiry_text(sub.expiry_time) + " | inbound:"@
            + decimal_int(sub.inbound_id as int) + " ("@ + sub.inbound_remark + ")"@,
        !sub.enabled ==> subscription_line(sub) == "• "@ + shown(sub.email) + " | tg:"@ + tg
            + " | enabled:false | exp:"@ + expiry_text(sub.expiry_time) + " | inbound:"@
            + decimal_int(sub.inbound_id as int) + " ("@ + sub.inbound_remark + ")"@,
{
    reveal_strlit(" | enabled:");
    reveal_strlit("true");
    reveal_strlit("false");
    reveal_strlit(" | exp:");
    reveal_strlit(" | enabled:true | exp:");
    reveal_strlit(" | enabled:false | exp:");
    let start = "• "@ + shown(sub.email) + " | tg:"@ + tg;
    assert(start + " | enabled:"@ + "true"@ + " | exp:"@ =~= start + " | enabled:true | exp:"@);
    assert(start + " | enabled:"@ + "false"@ + " | exp:"@ =~= start + " | enabled:false | exp:"@);
}

/// The list of subscriptions says how many there are and shows each of them, in the order of their
/// e-mails, in messages that may take 3500 bytes each.
pub proof fn all_subscriptions_are_shown(subs: Seq<SubscriptionModel>)
    ensures
        subs.len() == 0 ==> subs_messages(subs) == seq!["Подписки не найдены."@],
        in_email_order(subs).to_multiset() == subs.to_multiset(),
        in_order(in_email_order(subs), |s: SubscriptionModel| s.email),
        subs.len() > 0 ==> subs_messages(subs) == chunks_or_whole(
            join(
                Seq::new(
                    subs.len() + 1,
                    |i: int|
                        if i == 0 {
                            "Найдено подписок: "@ + decimal(subs.len())
                        } else {
                            subscription_line(in_email_order(subs)[i - 1])
                        },
                ),
                "\n"@,
            ),
            3500,
        ),
{
    let ordered = in_email_order(subs);
    sort_by_sorts(subs, |s: SubscriptionModel| s.email);
    assert(seq!["Найдено подписок: "@ + decimal(subs.len())] + ordered.map_values(
        |s: SubscriptionModel| subscription_line(s),
    ) =~= Seq::new(
        subs.len() + 1,
        |i: int|
            if i == 0 {
                "Найдено подписок: "@ + decimal(subs.len())
            } else {
                subscription_line(ordered[i - 1])
            },
    ));
}

fn expiry_of(expiry_time: i64) -> (r: String)
    ensures
        r@ == expiry_text(expiry_time),
{
    if expiry_time <= 0 {
        "never".to_string()
    } else {
        match utc_minute_of_millis_text(expiry_time) {
            Some(date) => date,
            None => i64_text(expiry_time),
        }
    }
}

fn show_subscription(sub: &ExistingSubscription) -> (r: String)
    ensures
        r@ == subscription_line(sub@),
{
    let mut line = "• ".to_string();
    line.append(&format_login(&sub.email));
    line.append(" | tg:");
    match &sub.tg_id {
        Some(id) => {
            line.append(id);
        },
        None => {
            line.append("-");
        },
    }
    line.append(" | enabled:");
    line.append(
        if sub.enabled {
            "true"
        } else {
            "false"
        },
    );
    line.append(" | exp:");
    line.append(&expiry_of(sub.expiry_time));
    line.append(" | inbound:");
    append_i64(&mut line, sub.inbound_id);
    line.append(" (");
    line.append(&sub.inbound_remark);
    line.append(")");
    line
}

fn email_keys(subs: &Vec<ExistingSubscription>) -> (r: Vec<String>)
    ensures
        r@.len() == subs@.len(),
        forall|i: int| 0 <= i < r@.len() ==> (#[trigger] r@[i])@ == subs@[i]@.email,
{
    let mut keys: Vec<String> = Vec::new();
    let mut i: usize = 0;
    while i < subs.len()
        invariant
            i <= subs@.len(),
            keys@.len() == i,
            forall|j: int| 0 <= j < i ==> (#[trigger] keys@[j])@ == subs@[j]@.email,
        decreases subs@.len() - i,
    {
        keys.push(subs[i].email.clone());
        i = i + 1;
    }
    keys
}

/// What is shown of all subscriptions.
pub fn handle_subs(subs: &Vec<ExistingSubscription>) -> (r: Vec<String>)
    ensures
        r.deep_view() == subs_messages(subscription_models(subs@)),
{
    let ghost all = subscription_models(subs@);
    let ghost ordered = in_email_order(all);
    let ghost listed = ordered.map_values(|s: SubscriptionModel| subscription_line(s));
    let mut lines: Vec<String> = Vec::new();
    if subs.len() == 0 {
        lines.push("Подписки не найдены.".to_string());
        assert(lines.deep_view() =~= seq!["Подписки не найдены."@]);
        return lines;
    }
    let keys = email_keys(subs);
    let order = sorted_positions(&keys);
    proof {
        let model = |i: int| all[i];
        let key = |s: SubscriptionModel| s.email;
        let n = subs@.len();
        sort_of_images(positions(n), model, key);
        assert(positions(n).map_values(model) =~= all);
        crate::bot::overview::same_keys(
            positions(n),
            |i: int| keys@[i]@,
            |i: int| key(model(i)),
        );
        assert(order@.map_values(|i: usize| i as int).map_values(model) =~= ordered);
    }
    let mut head = "Найдено подписок: ".to_string();
    append_u64(&mut head, subs.len() as u64);
    let ghost first = head@;
    lines.push(head);
    assert(lines.deep_view() =~= seq![first] + listed.take(0));
    let mut i: usize = 0;
    while i < order.len()
        invariant
            i <= order@.len(),
            order@.len() == subs@.len(),
            all == subscription_models(subs@),
            ordered.len() == order@.len(),
            forall|k: int| 0 <= k < order@.len() ==> (#[trigger] order@[k]) < subs@.len(),
            forall|k: int| 0 <= k < order@.len() ==> all[(#[trigger] order@[k]) as int] == ordered[k],
            listed == ordered.map_values(|s: SubscriptionModel| subscription_line(s)),
            lines.deep_view() == seq![first] + listed.take(i as int),
        decreases order@.len() - i,
    {
        let ghost before = lines.deep_view();
        assert(all[order@[i as int] as int] == ordered[i as int]);
        let line = show_subscription(&subs[order[i]]);
        let ghost text = line@;
        lines.push(line);
        assert(lines.deep_view() =~= before.push(text));
        assert(seq![first] + listed.take(i + 1) =~= (seq![first] + listed.take(i as int)).push(
            listed[i as int],
        ));
        i = i + 1;
    }
    assert(listed.take(i as int) =~= listed);
    split_text_chunks(&join_texts(&lines, "\n"), CHUNK_SIZE)
}

/// What is shown of a request.
pub open spec fn pending_note(request: WaitingModel) -> NoteModel {
    NoteModel {
        text: "#"@ + decimal(request.id as nat) + "\nuser_id: "@ + decimal(
            request.requester_user_id as nat,
        ) + "\nchat_id: "@ + decimal_int(request.requester_chat_id as int) + "\nlogin: "@ + shown(
            match request.custom_email {
                Some(email) => email,
                None => "-"@,
            },
        ) + "\ncreated: "@ + unix_text(request.created_at_unix),
        keyboard: Some(decision_buttons(request.id)),
    }
}

/// A request is shown with its number, who made it, from which chat, under which login and when, and
/// can be decided.
pub proof fn waiting_request_is_shown(request: WaitingModel, login: Seq<char>)
    requires
        request.custom_email == Some(login) || (request.custom_email is None && login == "-"@),
    ensures
        ("#"@ + decimal(request.id as nat) + "\nuser_id: "@ + decimal(
            request.requester_user_id as nat,
        ) + "\nchat_id: "@ + decimal_int(request.requester_chat_id as int)).is_prefix_of(
            pending_note(request).text,
        ),
        ("\nlogin: "@ + shown(login) + "\ncreated: "@ + unix_text(
            request.created_at_unix,
        )).is_suffix_of(pending_note(request).text),
        pending_note(request).keyboard == Some(decision_buttons(request.id)),
{
    let start = "#"@ + decimal(request.id as nat) + "\nuser_id: "@ + decimal(
        request.requester_user_id as nat,
    ) + "\nchat_id: "@ + decimal_int(request.requester_chat_id as int);
    let end = "\nlogin: "@ + shown(login) + "\ncreated: "@ + unix_text(request.created_at_unix);
    assert(pending_note(request).text =~= start + end);
    parts_stand_at_the_ends(start, end, end);
}

/// What is shown of a request.
pub fn show_request(request: &PendingCreateRequest) -> (r: Note)
    ensures
        r@ == pending_note(request@),
{
    let mut text = "#".to_string();
    append_u64(&mut text, request.id);
    text.append("\nuser_id: ");
    append_u64(&mut text, request.requester_user_id);
    text.append("\nchat_id: ");
    append_i64(&mut text, request.requester_chat_id);
    text.append("\nlogin: ");
    let login = match &request.custom_email {
        Some(email) => format_login(email),
        None => format_login("-"),
    };
    text.append(&login);
    text.append("\ncreated: ");
    text.append(&format_unix(request.created_at_unix));
    Note { text, keyboard: Some(approval_keyboard(request.id)) }
}

/// What is said before the requests are shown.
pub fn handle_requests(count: usize) -> (r: String)
    ensures
        r@ == if count == 0 {
            "Pending-запросов нет."@
        } else {
            "Pending-запросов: "@ + decimal(count as nat)
        },
{
    if count == 0 {
        "Pending-запросов нет.".to_string()
    } else {
        let mut text = "Pending-запросов: ".to_string();
        append_u64(&mut text, count as u64);
        text
    }
}

/// The login of a subscription that is to be deleted.
pub fn handle_delete(arg: Option<&str>) -> (r: Result<String, String>)
    ensures
        match arg {
            None => r matches Err(e) && e@ == "missing login for /delete"@,
            Some(raw) => if normalized(raw@).len() == 0 {
                r matches Err(e) && e@ == "empty login for /delete"@
            } else {
                r matches Ok(login) && login@ == normalized(raw@)
            },
        },
{
    match arg {
        None => Err("missing login for /delete".to_string()),
        Some(raw) => {
            let login = normalize_login(raw);
            if login.as_str().is_empty() {
                Err("empty login for /delete".to_string())
            } else {
                Ok(login)
            }
        },
    }
}

/// What is said of a deletion.
pub fn deleted_text(login: &str, deleted: bool) -> (r: String)
    ensures
        r@ == "Подписка `"@ + login@ + (if deleted {
            "` удалена."@
        } else {
            "` не найдена или не удалена."@
        }),
{
    let mut text = "Подписка `".to_string();
    text.append(login);
    text.append(
        if deleted {
            "` удалена."
        } else {
            "` не найдена или не удалена."
        },
    );
    text
}

/// The text of a broadcast.
pub fn handle_broadcast(text: Option<&str>) -> (r: Result<String, String>)
    ensures
        r is Ok <==> text is Some && trim(text->0@).len() > 0,
        r matches Ok(given) ==> given@ == trim(text->0@),
        r matches Err(e) ==> e@ == "missing text for /broadcast"@,
{
    if let Some(raw) = text {
        let trimmed = trim_text(raw);
        if !trimmed.as_str().is_empty() {
            return Ok(trimmed);
        }
    }
    Err("missing text for /broadcast".to_string())
}

/// What is said where a broadcast would reach nobody.
pub const NO_RECIPIENTS: &'static str = "Не найдено получателей для рассылки (tgId пустой).";

/// The chat that a subscription names, where it is one.
pub open spec fn chat_of(sub: SubscriptionModel) -> Option<i64> {
    match sub.tg_id {
        Some(raw) => match read_i64(trim(raw)) {
            Some(id) => if id > 0 {
                Some(id)
            } else {
                None
            },
            None => None,
        },
        None => None,
    }
}

/// One of the subscriptions names that chat.
pub open spec fn names_chat(subs: Seq<SubscriptionModel>, id: i64) -> bool {
    exists|i: int| 0 <= i < subs.len() && chat_of(#[trigger] subs[i]) == Some(id)
}

/// A subscription names a chat exactly where its identifier is a number above zero, with or without
/// whitespace around it.
pub proof fn chat_is_a_positive_number(
    sub: SubscriptionModel,
    a: Seq<char>,
    id: i64,
    b: Seq<char>,
)
    requires
        forall|i: int| 0 <= i < a.len() ==> is_whitespace(#[trigger] a[i]),
        forall|i: int| 0 <= i < b.len() ==> is_whitespace(#[trigger] b[i]),
        sub.tg_id == Some(a + decimal_int(id as int) + b),
    ensures
        id > 0 ==> chat_of(sub) == Some(id),
        id <= 0 ==> chat_of(sub) is None,
        chat_of((SubscriptionModel { tg_id: None, ..sub })) is None,
{
    i64_reads_back(id);
    let digits = decimal_int(id as int);
    numbers_are_visible(id);
    trim_takes_the_whitespace_around(a, digits, b);
}

proof fn numbers_are_visible(id: i64)
    ensures
        ({
            let s = decimal_int(id as int);
            s.len() > 0 && !is_whitespace(s[0]) && !is_whitespace(s.last())
        }),
{
    let s = decimal_int(id as int);
    if id < 0 {
        decimal_reads_back((-id) as nat);
        assert(is_digit(decimal((-id) as nat).last()));
        assert(s.last() == decimal((-id) as nat).last());
    } else {
        decimal_reads_back(id as nat);
        assert(is_digit(s[0]));
        assert(is_digit(s.last()));
    }
}

/// A broadcast is for the chats of all subscriptions, and for no other chat.
pub proof fn every_subscription_is_counted(
    subs: Seq<SubscriptionModel>,
    sub: SubscriptionModel,
    id: i64,
)
    ensures
        names_chat(subs.push(sub), id) <==> names_chat(subs, id) || chat_of(sub) == Some(id),
        !names_chat(seq![], id),
{
    let more = subs.push(sub);
    assert(more[subs.len() as int] == sub);
    if names_chat(subs, id) {
        let k = choose|k: int| 0 <= k < subs.len() && chat_of(#[trigger] subs[k]) == Some(id);
        assert(chat_of(more[k]) == Some(id));
    }
    if chat_of(sub) == Some(id) {
        assert(chat_of(more[subs.len() as int]) == Some(id));
    }
    if names_chat(more, id) {
        let k = choose|k: int| 0 <= k < more.len() && chat_of(#[trigger] more[k]) == Some(id);
        if k < subs.len() {
            assert(chat_of(subs[k]) == Some(id));
        }
    }
}

fn subscription_chat(sub: &ExistingSubscription) -> (r: Option<i64>)
    ensures
        r == chat_of(sub@),
{
    match &sub.tg_id {
        Some(raw) => match parse_i64(&trim_text(raw)) {
            Some(id) => {
                if id > 0 {
                    Some(id)
                } else {
                    None
                }
            },
            None => None,
        },
        None => None,
    }
}

/// The chats that the subscriptions name.
pub fn collect_recipients_from_subscriptions(subs: &Vec<ExistingSubscription>) -> (r: Vec<i64>)
    ensures
        growing(r@),
        forall|id: i64| r@.contains(id) <==> names_chat(subscription_models(subs@), id),
{
    let ghost all = subscription_models(subs@);
    let mut out: Vec<i64> = Vec::new();
    let mut i: usize = 0;
    while i < subs.len()
        invariant
            i <= subs@.len(),
            all == subscription_models(subs@),
            growing(out@),
            forall|id: i64| out@.contains(id) <==> names_chat(all.take(i as int), id),
        decreases subs@.len() - i,
    {
        let ghost before = out@;
        let ghost head = all.take(i as int);
        let ghost next = all.take(i + 1);
        let ghost sub = all[i as int];
        assert(sub == subs@[i as int]@);
        if let Some(id) = subscription_chat(&subs[i]) {
            insert_recipient(&mut out, id);
        }
        proof {
            assert forall|id: i64| out@.contains(id) <==> names_chat(next, id) by {
                if names_chat(head, id) {
                    let k = choose|k: int| 0 <= k < head.len() && chat_of(#[trigger] head[k]) == Some(
                        id,
                    );
                    assert(chat_of(next[k]) == Some(id));
                }
                if chat_of(sub) == Some(id) {
                    assert(chat_of(next[i as int]) == Some(id));
                }
                if names_chat(next, id) {
                    let k = choose|k: int| 0 <= k < next.len() && chat_of(#[trigger] next[k]) == Some(
                        id,
                    );
                    if k < i {
                        assert(chat_of(head[k]) == Some(id));
                    }
                }
                assert(before.contains(id) <==> names_chat(head, id));
            }
        }
        i = i + 1;
    }
    assert(all.take(i as int) =~= all);
    out
}

/// What is said of a broadcast, for what came of each delivery.
pub fn broadcast_text(results: &Vec<bool>) -> (r: String)
    ensures
        r@ == "Рассылка завершена. Успешно: "@ + decimal(delivered(results@)) + ", ошибок: "@
            + decimal((results@.len() - delivered(results@)) as nat) + "."@,
{
    let (sent, failed) = tally(results);
    let mut text = "Рассылка завершена. Успешно: ".to_string();
    append_u64(&mut text, sent as u64);
    text.append(", ошибок: ");
    append_u64(&mut text, failed as u64);
    text.append(".");
    text
}

/// Whom a message is for, and the message.
pub open spec fn message_parts(payload: Option<Seq<char>>) -> Option<(Seq<char>, Seq<char>)> {
    match payload {
        Some(raw) => if trim(raw).len() > 0 {
            target_and_text(trim(raw))
        } else {
            None
        },
        None => None,
    }
}

/// A message is for whom is named first, and everything behind that is the message.
pub proof fn message_follows_its_target(
    a: Seq<char>,
    target: Seq<char>,
    c: char,
    gap: Seq<char>,
    text: Seq<char>,
    b: Seq<char>,
)
    requires
        forall|i: int| 0 <= i < gap.len() ==> is_whitespace(#[trigger] gap[i]),
        forall|i: int| 0 <= i < a.len() ==> is_whitespace(#[trigger] a[i]),
        forall|i: int| 0 <= i < b.len() ==> is_whitespace(#[trigger] b[i]),
        target.len() > 0,
        forall|i: int| 0 <= i < target.len() ==> !is_whitespace(target[i]),
        is_whitespace(c),
        text.len() > 0,
        !is_whitespace(text[0]),
        !is_whitespace(text.last()),
    ensures
        message_parts(Some(a + (target.push(c) + (gap + text)) + b)) == Some(
            (target, text),
        ),
        message_parts(Some(a + target + b)) is None,
        message_parts(Some(a)) is None,
        message_parts(None) is None,
{
    let whole = target.push(c) + (gap + text);
    assert(whole[0] == target[0]);
    assert(whole.last() == text.last());
    trim_takes_the_whitespace_around(a, whole, b);
    trim_takes_the_whitespace_around(gap, text, seq![]);
    assert(gap + text + seq![] =~= gap + text);
    trim_takes_the_whitespace_around(a, target, b);
    trim_takes_the_whitespace_around(a, seq![], seq![]);
    assert(a + seq![] + seq![] =~= a);
    target_stands_before_the_text(target, c, gap + text);
}

/// Whom a message is for, and the message.
pub fn handle_direct_message(payload: Option<&str>) -> (r: Result<(String, String), String>)
    ensures
        ({
            let parts = message_parts(
                match payload {
                    Some(raw) => Some(raw@),
                    None => None,
                },
            );
            match r {
                Ok(given) => parts == Some((given.0@, given.1@)),
                Err(e) => parts is None && e@ == MSG_USAGE@,
            }
        }),
{
    if let Some(raw) = payload {
        let trimmed = trim_text(raw);
        if !trimmed.as_str().is_empty() {
            if let Some(parts) = split_target_and_text(&trimmed) {
                return Ok(parts);
            }
        }
    }
    Err(MSG_USAGE.to_string())
}

/// Whom a target names.
#[derive(Debug)]
pub enum Target {
    Chat(i64),
    /// The user with this login.
    Login(String),
}

/// Whom a target names: a chat by its number, or a user by the login.
pub fn message_target(target_raw: &str) -> (r: Result<Target, String>)
    ensures
        match read_i64(trim(target_raw@)) {
            Some(id) => if id > 0 {
                r == Ok::<Target, String>(Target::Chat(id))
            } else {
                r matches Err(e) && e@ == "tg_id must be positive"@
            },
            None => if normalized(target_raw@).len() == 0 {
                r matches Err(e) && e@ == "empty login in /msg"@
            } else {
                r matches Ok(Target::Login(login)) && login@ == normalized(target_raw@)
            },
        },
{
    match parse_i64(&trim_text(target_raw)) {
        Some(id) => {
            if id > 0 {
                Ok(Target::Chat(id))
            } else {
                Err("tg_id must be positive".to_string())
            }
        },
        None => {
            let login = normalize_login(target_raw);
            if login.as_str().is_empty() {
                Err("empty login in /msg".to_string())
            } else {
                Ok(Target::Login(login))
            }
        },
    }
}

/// The first subscription whose login is exactly this one, once both are normalized.
pub open spec fn subscription_named(subs: Seq<SubscriptionModel>, login: Seq<char>) -> Option<
    SubscriptionModel,
>
    decreases subs.len(),
{
    if subs.len() == 0 {
        None
    } else if normalized(subs[0].email) == login {
        Some(subs[0])
    } else {
        subscription_named(subs.drop_first(), login)
    }
}

/// The chat of the user with that login; an error says why there is none.
pub open spec fn login_chat(subs: Seq<SubscriptionModel>, login: Seq<char>) -> Result<
    i64,
    Seq<char>,
> {
    match subscription_named(subs, login) {
        None => Err("user not found or tgId is empty"@),
        Some(sub) => match sub.tg_id {
            None => Err("user not found or tgId is empty"@),
            Some(raw) => match read_i64(trim(raw)) {
                None => Err(
                    with_cause("invalid tgId format in subscription"@, i64_refusal(trim(raw))->0),
                ),
                Some(id) => if id > 0 {
                    Ok(id)
                } else {
                    Err("invalid tgId value in subscription"@)
                },
            },
        },
    }
}

/// The user with a login is the one of the first subscription with it, and the message goes to its
/// chat; an error says what is missing there.
pub proof fn message_goes_to_the_named_user(
    subs: Seq<SubscriptionModel>,
    login: Seq<char>,
    i: int,
    a: Seq<char>,
    id: i64,
    b: Seq<char>,
)
    requires
        forall|k: int| 0 <= k < a.len() ==> is_whitespace(#[trigger] a[k]),
        forall|k: int| 0 <= k < b.len() ==> is_whitespace(#[trigger] b[k]),
        0 <= i <= subs.len(),
        i < subs.len() ==> normalized(subs[i].email) == login,
        forall|j: int| 0 <= j < i ==> normalized((#[trigger] subs[j]).email) != login,
    ensures
        subscription_named(subs, login) == if i < subs.len() {
            Some(subs[i])
        } else {
            None
        },
        i == subs.len() ==> login_chat(subs, login) == Err::<i64, Seq<char>>(
            "user not found or tgId is empty"@,
        ),
        i < subs.len() && subs[i].tg_id is None ==> login_chat(subs, login) == Err::<
            i64,
            Seq<char>,
        >("user not found or tgId is empty"@),
        i < subs.len() && subs[i].tg_id == Some(a + decimal_int(id as int) + b) && id > 0
            ==> login_chat(subs, login) == Ok::<i64, Seq<char>>(id),
        i < subs.len() && subs[i].tg_id == Some(a + decimal_int(id as int) + b) && id <= 0
            ==> login_chat(subs, login) == Err::<i64, Seq<char>>(
            "invalid tgId value in subscription"@,
        ),
        i < subs.len() ==> (subs[i].tg_id matches Some(raw) ==> read_i64(trim(raw)) is None
            ==> login_chat(subs, login) == Err::<i64, Seq<char>>(
            "invalid tgId format in subscription"@ + ": "@ + i64_refusal(trim(raw))->0,
        )),
    decreases subs.len(),
{
    i64_reads_back(id);
    numbers_are_visible(id);
    let digits = decimal_int(id as int);
    trim_takes_the_whitespace_around(a, digits, b);
    if i > 0 {
        assert(normalized(subs[0].email) != login);
        let rest = subs.drop_first();
        assert forall|j: int| 0 <= j < i - 1 implies normalized((#[trigger] rest[j]).email)
            != login by {
            assert(rest[j] == subs[j + 1]);
        }
        message_goes_to_the_named_user(rest, login, i - 1, a, id, b);
    }
}

fn find_named(subs: &Vec<ExistingSubscription>, login: &str) -> (r: Option<usize>)
    ensures
        match r {
            Some(i) => i < subs@.len() && subscription_named(subscription_models(subs@), login@)
                == Some(subs@[i as int]@),
            None => subscription_named(subscription_models(subs@), login@) is None,
        },
{
    let ghost all = subscription_models(subs@);
    assert(all.skip(0) =~= all);
    let mut i: usize = 0;
    while i < subs.len()
        invariant
            i <= subs@.len(),
            all == subscription_models(subs@),
            subscription_named(all, login@) == subscription_named(all.skip(i as int), login@),
        decreases subs@.len() - i,
    {
        assert(all.skip(i as int)[0] == subs@[i as int]@);
        if text_eq(&normalize_login(&subs[i].email), login) {
            return Some(i);
        }
        assert(all.skip(i as int).drop_first() =~= all.skip(i + 1));
        i = i + 1;
    }
    None
}

/// The chat of the user with that login.
pub fn resolve_message_target_chat_id(subs: &Vec<ExistingSubscription>, login: &str) -> (r: Result<
    i64,
    String,
>)
    ensures
        match r {
            Ok(id) => login_chat(subscription_models(subs@), login@) == Ok::<i64, Seq<char>>(id),
            Err(e) => login_chat(subscription_models(subs@), login@) == Err::<i64, Seq<char>>(e@),
        },
{
    let i: usize = match find_named(subs, login) {
        Some(i) => i,
        None => {
            return Err("user not found or tgId is empty".to_string());
        },
    };
    match &subs[i].tg_id {
        None => Err("user not found or tgId is empty".to_string()),
        Some(raw) => {
            let raw = trim_text(raw);
            match parse_i64(&raw) {
                None => {
                    let cause = i64_refusal_text(&raw).unwrap();
                    Err(failure_with_cause("invalid tgId format in subscription", &cause))
                },
                Some(id) => {
                    if id > 0 {
                        Ok(id)
                    } else {
                        Err("invalid tgId value in subscription".to_string())
                    }
                },
            }
        },
    }
}

/// What is said of a message that was sent.
pub fn sent_text(chat_id: i64) -> (r: String)
    ensures
        r@ == "Сообщение отправлено пользователю `"@ + decimal_int(chat_id as int) + "`."@,
{
    let mut text = "Сообщение отправлено пользователю `".to_string();
    append_i64(&mut text, chat_id);
    text.append("`.");
    text
}

} // verus!
