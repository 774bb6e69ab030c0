//! What approvers can ask for.

use vstd::pervasive::unreached;
use vstd::prelude::*;
use vstd::utf8::encode_utf8;

use crate::outside::percent_encoded;
use crate::panel::client::{
    client_of, find_client, first_client_is_found, subscription_address, Panel,
};
use crate::panel::login::{normalize_login, normalized};
use crate::panel::models::{client_models, Client, ClientModel};
use crate::storage::{pending_models, PendingModel, PendingRequest};
use crate::text::chars::{
    is_whitespace, parts_stand_at_the_ends, strip_leading, strip_leading_char, trim,
    trim_takes_the_whitespace_around, trim_text,
};
use crate::text::number::{
    append_i64, append_u64, decimal, decimal_int, decimal_reads_back, i64_reads_back, is_digit,
    parse_i64, parse_u64, read_i64, read_u64, u64_reads_back,
};
use crate::text::split::{
    split_once_at_whitespace, split_once_whitespace, words_stand_between_whitespace,
};

use super::recipients::{client_recipients, delivered, growing, has_chat, tally};
use super::ui::{
    approval_buttons, approval_keyboard, format_login, format_unix, shown_login, subscription_message,
    subscription_text, unix_text, Action, ButtonModel, Keyboard, MEME_DISLIKE, MEME_LIKE, SUBSCRIPTION_NOTE,
};

verus! {

/// The title of a subscription that was asked for.
pub const APPROVED_TITLE: &'static str = "Твоя заявка одобрена 🎉";

/// What is said to a user whose request was denied.
pub const DENIED_TEXT: &'static str = "Твоя заявка отклонена.";

/// The commands of approvers, with what is given to them.
#[derive(Debug)]
pub enum AdminCommand {
    Status,
    Subs,
    Requests,
    Approve(String),
    Deny(String),
    Delete(String),
    Broadcast(String),
    Msg(String),
}

/// The number of a request, with or without `#` before it.
pub open spec fn request_id_of(raw: Seq<char>) -> Option<u64> {
    read_u64(strip_leading(trim(raw), '#'))
}

/// Every request can be named by its number, with or without `#` before it and whitespace around it.
pub proof fn requests_are_named_by_their_number(a: Seq<char>, id: u64, b: Seq<char>)
    requires
        forall|i: int| 0 <= i < a.len() ==> is_whitespace(#[trigger] a[i]),
        forall|i: int| 0 <= i < b.len() ==> is_whitespace(#[trigger] b[i]),
    ensures
        request_id_of(a + decimal(id as nat) + b) == Some(id),
        request_id_of(a + ("#"@ + decimal(id as nat)) + b) == Some(id),
        request_id_of(a) is None,
{
    reveal_strlit("#");
    let digits = decimal(id as nat);
    let marked = "#"@ + digits;
    u64_reads_back(id);
    decimal_reads_back(id as nat);
    assert(is_digit(digits[0]));
    assert(is_digit(digits.last()));
    assert(marked.last() == digits.last());
    trim_takes_the_whitespace_around(a, digits, b);
    trim_takes_the_whitespace_around(a, marked, b);
    trim_takes_the_whitespace_around(a, seq![], seq![]);
    assert(a + seq![] + seq![] =~= a);
    assert(marked.drop_first() =~= digits);
    assert(strip_leading(digits, '#') == digits);
    assert(strip_leading(marked, '#') == strip_leading(digits, '#'));
}

/// The number of a request, with or without `#` before it.
pub fn parse_request_id(raw: &str) -> (r: Result<u64, String>)
    ensures
        r is Ok <==> request_id_of(raw@) is Some,
        r matches Ok(id) ==> request_id_of(raw@) == Some(id),
        r matches Err(e) ==> e@ == "укажи номер заявки: /approve <id>"@,
{
    match parse_u64(&strip_leading_char(&trim_text(raw), '#')) {
        Some(id) => Ok(id),
        None => Err("укажи номер заявки: /approve <id>".to_string()),
    }
}

/// What a decision waits for.
#[derive(Debug, Clone, Copy, PartialEq, Eq, Structural)]
pub enum DecisionPhase {
    /// The request.
    Fetch,
    /// The client that is created for it.
    Create,
    /// The end of the request.
    Delete,
    /// Nothing: it is over.
    Closed,
}

/// What comes of what was asked for.
#[derive(Debug)]
pub enum DecisionEvent {
    /// The request, if there is one.
    Request(Option<PendingRequest>),
    /// The client that was created.
    Created(Client),
    /// The request is gone.
    Deleted,
    /// It failed.
    Failed(String),
}

/// What to do next.
#[derive(Debug)]
pub enum DecisionAction {
    /// Create a client with the login of the request, for the user who made it.
    Create { login: String, user_id: u64 },
    /// Delete the request.
    Delete,
    /// It is over: tell the approver.
    Say(String),
    /// It is over: tell the approver and the user. An address is also sent as a picture.
    Announce { approver_text: String, chat_id: i64, text: String, address: Option<String> },
    /// It is over, with this error.
    Fail(String),
}

/// What comes of what was asked for.
pub enum DecisionEventModel {
    Request(Option<PendingModel>),
    Created(ClientModel),
    Deleted,
    Failed(Seq<char>),
}

/// What is to be done next.
pub enum DecisionOutcome {
    Create { login: Seq<char>, user_id: u64 },
    Delete,
    Say(Seq<char>),
    Announce {
        approver_text: Seq<char>,
        chat_id: i64,
        text: Seq<char>,
        address: Option<Seq<char>>,
    },
    Fail(Seq<char>),
}

impl View for DecisionEvent {
    type V = DecisionEventModel;

    open spec fn view(&self) -> DecisionEventModel {
        match self {
            DecisionEvent::Request(Some(request)) => DecisionEventModel::Request(Some(request@)),
            DecisionEvent::Request(None) => DecisionEventModel::Request(None),
            DecisionEvent::Created(client) => DecisionEventModel::Created(client@),
            DecisionEvent::Deleted => DecisionEventModel::Deleted,
            DecisionEvent::Failed(e) => DecisionEventModel::Failed(e@),
        }
    }
}

impl View for DecisionAction {
    type V = DecisionOutcome;

    open spec fn view(&self) -> DecisionOutcome {
        match self {
            DecisionAction::Create { login, user_id } => DecisionOutcome::Create {
                login: login@,
                user_id: *user_id,
            },
            DecisionAction::Delete => DecisionOutcome::Delete,
            DecisionAction::Say(text) => DecisionOutcome::Say(text@),
            DecisionAction::Announce { approver_text, chat_id, text, address } =>
                DecisionOutcome::Announce {
                approver_text: approver_text@,
                chat_id: *chat_id,
                text: text@,
                address: address.deep_view(),
            },
            DecisionAction::Fail(e) => DecisionOutcome::Fail(e@),
        }
    }
}

/// A decision on a request: its approval, or its refusal.
#[derive(Debug)]
pub struct Decision {
    pub id: u64,
    pub approve: bool,
    pub phase: DecisionPhase,
    pub request: Option<PendingRequest>,
    pub client: Option<Client>,
}

/// What a decision is.
pub struct DecisionModel {
    pub id: u64,
    pub approve: bool,
    pub phase: DecisionPhase,
    pub request: Option<PendingModel>,
    pub client: Option<ClientModel>,
}

impl View for Decision {
    type V = DecisionModel;

    open spec fn view(&self) -> DecisionModel {
        DecisionModel {
            id: self.id,
            approve: self.approve,
            phase: self.phase,
            request: match self.request {
                Some(request) => Some(request@),
                None => None,
            },
            client: match self.client {
                Some(client) => Some(client@),
                None => None,
            },
        }
    }
}

/// What is said of a request that is not there.
pub open spec fn missing_text(id: u64) -> Seq<char> {
    "Заявка #"@ + decimal(id as nat) + " не найдена (уже обработана?)."@
}

/// What the approver is told of a request that was approved.
pub open spec fn approved_text(id: u64, login: Seq<char>, address: Seq<char>) -> Seq<char> {
    "Заявка #"@ + decimal(id as nat) + " одобрена: "@ + shown_login(login) + "\n"@ + address
}

/// What the approver is told of a request that was denied.
pub open spec fn denied_text(id: u64) -> Seq<char> {
    "Заявка #"@ + decimal(id as nat) + " отклонена."@
}

/// What is said where no client could be created.
pub open spec fn create_failed_text(id: u64, cause: Seq<char>) -> Seq<char> {
    "не удалось создать клиента для заявки #"@ + decimal(id as nat) + ": "@ + cause
}

/// A decision of which nothing has been done yet.
pub open spec fn new_decision(id: u64, approve: bool) -> DecisionModel {
    DecisionModel { id, approve, phase: DecisionPhase::Fetch, request: None, client: None }
}

impl DecisionModel {
    /// What the phase waits for has been kept.
    pub open spec fn wf(self) -> bool {
        &&& self.phase == DecisionPhase::Create ==> self.approve && self.request is Some
        &&& self.phase == DecisionPhase::Delete ==> self.request is Some && (self.approve
            ==> self.client is Some)
    }

    /// The event is one that the phase waits for.
    pub open spec fn takes(self, event: DecisionEventModel) -> bool {
        match event {
            DecisionEventModel::Request(_) => self.phase == DecisionPhase::Fetch,
            DecisionEventModel::Created(_) => self.phase == DecisionPhase::Create,
            DecisionEventModel::Deleted => self.phase == DecisionPhase::Delete,
            DecisionEventModel::Failed(_) => self.phase != DecisionPhase::Closed,
        }
    }

    /// The decision in another phase.
    pub open spec fn at(self, phase: DecisionPhase) -> DecisionModel {
        DecisionModel { phase, ..self }
    }

    /// The decision after an event, and what is to be done next. A request that is approved is
    /// deleted only when its client has been created.
    pub open spec fn step(self, base: Seq<char>, event: DecisionEventModel) -> (
        DecisionModel,
        DecisionOutcome,
    ) {
        match event {
            DecisionEventModel::Request(None) => (
                self.at(DecisionPhase::Closed),
                DecisionOutcome::Say(missing_text(self.id)),
            ),
            DecisionEventModel::Request(Some(request)) => if self.approve {
                (
                    DecisionModel { request: Some(request), ..self.at(DecisionPhase::Create) },
                    DecisionOutcome::Create { login: request.login, user_id: request.user_id },
                )
            } else {
                (
                    DecisionModel { request: Some(request), ..self.at(DecisionPhase::Delete) },
                    DecisionOutcome::Delete,
                )
            },
            DecisionEventModel::Created(client) => (
                DecisionModel { client: Some(client), ..self.at(DecisionPhase::Delete) },
                DecisionOutcome::Delete,
            ),
            DecisionEventModel::Deleted => (
                self.at(DecisionPhase::Closed),
                if self.approve {
                    let address = subscription_address(base, self.client->0.sub_id);
                    DecisionOutcome::Announce {
                        approver_text: approved_text(self.id, self.client->0.login, address),
                        chat_id: self.request->0.chat_id,
                        text: subscription_message(APPROVED_TITLE@, address),
                        address: Some(address),
                    }
                } else {
                    DecisionOutcome::Announce {
                        approver_text: denied_text(self.id),
                        chat_id: self.request->0.chat_id,
                        text: DENIED_TEXT@,
                        address: None,
                    }
                },
            ),
            DecisionEventModel::Failed(e) => (
                self.at(DecisionPhase::Closed),
                DecisionOutcome::Fail(
                    if self.phase == DecisionPhase::Create {
                        create_failed_text(self.id, e)
                    } else {
                        e
                    },
                ),
            ),
        }
    }
}

/// A request that is approved is not lost: it is deleted only after its client was created, so that
/// a failure before that leaves it waiting.
pub proof fn request_waits_for_its_client(
    decision: DecisionModel,
    base: Seq<char>,
    event: DecisionEventModel,
)
    requires
        decision.wf(),
        decision.takes(event),
        decision.approve,
        decision.step(base, event).1 is Delete,
    ensures
        event is Created,
        decision.step(base, event).0.client == Some(event->Created_0),
{
}

/// A decision waits for the request, then for the client where one is to be created, then for the
/// deletion; a failure can come at any time, and in the end nothing can.
pub proof fn decision_waits_for_what_it_asked_for(
    decision: DecisionModel,
    request: Option<PendingModel>,
    client: ClientModel,
    cause: Seq<char>,
    event: DecisionEventModel,
)
    ensures
        decision.at(DecisionPhase::Fetch).takes(DecisionEventModel::Request(request)),
        decision.at(DecisionPhase::Fetch).takes(DecisionEventModel::Failed(cause)),
        !decision.at(DecisionPhase::Fetch).takes(DecisionEventModel::Created(client)),
        decision.at(DecisionPhase::Create).takes(DecisionEventModel::Created(client)),
        decision.at(DecisionPhase::Create).takes(DecisionEventModel::Failed(cause)),
        !decision.at(DecisionPhase::Create).takes(DecisionEventModel::Deleted),
        decision.at(DecisionPhase::Delete).takes(DecisionEventModel::Deleted),
        decision.at(DecisionPhase::Delete).takes(DecisionEventModel::Failed(cause)),
        !decision.at(DecisionPhase::Delete).takes(DecisionEventModel::Request(request)),
        !decision.at(DecisionPhase::Closed).takes(event),
        decision.at(DecisionPhase::Fetch).wf(),
        decision.at(DecisionPhase::Closed).wf(),
{
}

/// When an approved request is closed, its user, in the chat of the request, is sent the address
/// of the client that was created for it, at the end of the message; the same address goes to the
/// approver and is sent as a picture.
pub proof fn approved_user_gets_their_own_link(
    decision: DecisionModel,
    base: Seq<char>,
    request: PendingModel,
    client: ClientModel,
)
    requires
        decision.approve,
        decision.request == Some(request),
        decision.client == Some(client),
    ensures
        ({
            let link = base + percent_encoded(encode_utf8(client.sub_id));
            decision.step(base, DecisionEventModel::Deleted).1 matches DecisionOutcome::Announce {
                approver_text,
                chat_id,
                text,
                address,
            } && {
                &&& chat_id == request.chat_id
                &&& text == "Твоя заявка одобрена 🎉"@ + SUBSCRIPTION_NOTE@ + link
                &&& address == Some(link)
                &&& approver_text == "Заявка #"@ + decimal(decision.id as nat) + " одобрена: "@
                    + shown_login(client.login) + "\n"@ + link
            }
        }),
{
}

/// When a denied request is closed, its user, in the chat of the request, is told of the refusal
/// and gets no address.
pub proof fn denied_user_gets_no_link(
    decision: DecisionModel,
    base: Seq<char>,
    request: PendingModel,
)
    requires
        !decision.approve,
        decision.request == Some(request),
    ensures
        decision.step(base, DecisionEventModel::Deleted).1 == (DecisionOutcome::Announce {
            approver_text: "Заявка #"@ + decimal(decision.id as nat) + " отклонена."@,
            chat_id: request.chat_id,
            text: "Твоя заявка отклонена."@,
            address: None,
        }),
{
}

/// Two users who get the same text have links that are the same: the link is all that tells the
/// texts apart, and it comes last.
pub proof fn different_links_give_different_texts(
    decision: DecisionModel,
    other: DecisionModel,
    base: Seq<char>,
)
    requires
        decision.wf(),
        other.wf(),
        decision.phase == DecisionPhase::Delete,
        other.phase == DecisionPhase::Delete,
        decision.approve,
        other.approve,
        percent_encoded(encode_utf8(decision.client->0.sub_id)) != percent_encoded(
            encode_utf8(other.client->0.sub_id),
        ),
    ensures
        decision.step(base, DecisionEventModel::Deleted).1->text != other.step(
            base,
            DecisionEventModel::Deleted,
        ).1->text,
{
    let a = percent_encoded(encode_utf8(decision.client->0.sub_id));
    let b = percent_encoded(encode_utf8(other.client->0.sub_id));
    let start = APPROVED_TITLE@ + SUBSCRIPTION_NOTE@ + base;
    let x = decision.step(base, DecisionEventModel::Deleted).1->text;
    let y = other.step(base, DecisionEventModel::Deleted).1->text;
    assert(x =~= start + a);
    assert(y =~= start + b);
    if x == y {
        assert(a =~= x.skip(start.len() as int));
        assert(b =~= y.skip(start.len() as int));
    }
}

/// An approval runs from the request to the announcement: a client with the login of the request is
/// created for its user, then the request is deleted, and then the link of that client is sent.
pub proof fn approval_runs_to_its_end(
    id: u64,
    base: Seq<char>,
    request: PendingModel,
    client: ClientModel,
)
    ensures
        ({
            let (a, first) = new_decision(id, true).step(
                base,
                DecisionEventModel::Request(Some(request)),
            );
            let (b, second) = a.step(base, DecisionEventModel::Created(client));
            let (c, third) = b.step(base, DecisionEventModel::Deleted);
            &&& first == (DecisionOutcome::Create {
                login: request.login,
                user_id: request.user_id,
            })
            &&& second == DecisionOutcome::Delete
            &&& c.phase == DecisionPhase::Closed
            &&& third is Announce
            &&& third->chat_id == request.chat_id
            &&& third->address == Some(base + percent_encoded(encode_utf8(client.sub_id)))
        }),
{
}

/// A denial runs from the request to the announcement: the request is deleted and its user told.
pub proof fn denial_runs_to_its_end(id: u64, base: Seq<char>, request: PendingModel)
    ensures
        ({
            let (a, first) = new_decision(id, false).step(
                base,
                DecisionEventModel::Request(Some(request)),
            );
            let (b, second) = a.step(base, DecisionEventModel::Deleted);
            &&& first == DecisionOutcome::Delete
            &&& b.phase == DecisionPhase::Closed
            &&& second is Announce
            &&& second->chat_id == request.chat_id
            &&& second->address is None
        }),
{
}

/// A request that is not there is said to be missing, and a failure ends the decision with its
/// cause at the end of the error.
pub proof fn missing_request_and_failures_end_a_decision(
    decision: DecisionModel,
    base: Seq<char>,
    cause: Seq<char>,
)
    ensures
        decision.step(base, DecisionEventModel::Request(None)) == (
            DecisionModel { phase: DecisionPhase::Closed, ..decision },
            DecisionOutcome::Say(
                "Заявка #"@ + decimal(decision.id as nat) + " не найдена (уже обработана?)."@,
            ),
        ),
        decision.step(base, DecisionEventModel::Failed(cause)).0.phase == DecisionPhase::Closed,
        decision.step(base, DecisionEventModel::Failed(cause)).1 == DecisionOutcome::Fail(
            if decision.phase == DecisionPhase::Create {
                "не удалось создать клиента для заявки #"@ + decimal(decision.id as nat) + ": "@
                    + cause
            } else {
                cause
            },
        ),
{
}

/// A request that is denied never leads to a client.
pub proof fn denied_request_creates_nothing(
    decision: DecisionModel,
    base: Seq<char>,
    event: DecisionEventModel,
)
    requires
        decision.wf(),
        decision.takes(event),
        !decision.approve,
    ensures
        !(decision.step(base, event).1 is Create),
        decision.step(base, event).0.wf(),
{
}

fn request_text(id: u64, rest: &str) -> (r: String)
    ensures
        r@ == "Заявка #"@ + decimal(id as nat) + rest@,
{
    let mut text = "Заявка #".to_string();
    append_u64(&mut text, id);
    text.append(rest);
    text
}

impl Decision {
    /// A decision on that request; the request is to be fetched first.
    pub fn new(id: u64, approve: bool) -> (r: Decision)
        ensures
            r@ == new_decision(id, approve),
            r@.wf(),
    {
        Decision { id, approve, phase: DecisionPhase::Fetch, request: None, client: None }
    }

    fn announcement(&self, panel: &Panel) -> (r: DecisionAction)
        requires
            self@.wf(),
            self@.phase == DecisionPhase::Delete,
        ensures
            r@ == self@.step(
                panel.config@.subscription_base_url,
                DecisionEventModel::Deleted,
            ).1,
    {
        let chat_id: i64 = match &self.request {
            Some(request) => request.chat_id,
            None => unreached(),
        };
        if self.approve {
            if let Some(client) = &self.client {
                let address = panel.subscription_url(client);
                let mut approver_text = request_text(self.id, " одобрена: ");
                approver_text.append(&format_login(&client.login));
                approver_text.append("\n");
                approver_text.append(&address);
                let text = subscription_text(APPROVED_TITLE, &address);
                return DecisionAction::Announce {
                    approver_text,
                    chat_id,
                    text,
                    address: Some(address),
                };
            }
        }
        DecisionAction::Announce {
            approver_text: request_text(self.id, " отклонена."),
            chat_id,
            text: DENIED_TEXT.to_string(),
            address: None,
        }
    }

    /// Takes the event in, and says what to do next.
    pub fn step(&mut self, panel: &Panel, event: DecisionEvent) -> (r: DecisionAction)
        requires
            old(self)@.wf(),
            old(self)@.takes(event@),
        ensures
            (final(self)@, r@) == old(self)@.step(panel.config@.subscription_base_url, event@),
            final(self)@.wf(),
    {
        match event {
            DecisionEvent::Request(None) => {
                self.phase = DecisionPhase::Closed;
                DecisionAction::Say(request_text(self.id, " не найдена (уже обработана?)."))
            },
            DecisionEvent::Request(Some(request)) => {
                let login = request.login.clone();
                let user_id: u64 = request.user_id;
                self.request = Some(request);
                if self.approve {
                    self.phase = DecisionPhase::Create;
                    DecisionAction::Create { login, user_id }
                } else {
                    self.phase = DecisionPhase::Delete;
                    DecisionAction::Delete
                }
            },
            DecisionEvent::Created(client) => {
                self.client = Some(client);
                self.phase = DecisionPhase::Delete;
                DecisionAction::Delete
            },
            DecisionEvent::Deleted => {
                let action = self.announcement(panel);
                self.phase = DecisionPhase::Closed;
                action
            },
            DecisionEvent::Failed(e) => {
                let creating = match self.phase {
                    DecisionPhase::Create => true,
                    _ => false,
                };
                self.phase = DecisionPhase::Closed;
                if creating {
                    let mut text = "не удалось создать клиента для заявки #".to_string();
                    append_u64(&mut text, self.id);
                    text.append(": ");
                    text.append(&e);
                    DecisionAction::Fail(text)
                } else {
                    DecisionAction::Fail(e)
                }
            },
        }
    }
}

/// A message with buttons under it, where there are any.
#[derive(Debug)]
pub struct Note {
    pub text: String,
    pub keyboard: Option<Keyboard>,
}

/// What a message is.
pub struct NoteModel {
    pub text: Seq<char>,
    pub keyboard: Option<Seq<ButtonModel>>,
}

impl View for Note {
    type V = NoteModel;

    open spec fn view(&self) -> NoteModel {
        NoteModel {
            text: self.text@,
            keyboard: match self.keyboard {
                Some(keyboard) => Some(keyboard@),
                None => None,
            },
        }
    }
}

/// Messages as models.
pub open spec fn note_models(notes: Seq<Note>) -> Seq<NoteModel> {
    Seq::new(notes.len(), |i: int| notes[i]@)
}

/// What is shown of a request.
pub open spec fn request_note(request: PendingModel) -> NoteModel {
    NoteModel {
        text: "#"@ + decimal(request.id as nat) + " — "@ + shown_login(request.login) + " (id "@
            + decimal(request.user_id as nat) + ")\nсоздана "@ + unix_text(
            request.created_at_unix,
        ),
        keyboard: Some(approval_buttons(request.id)),
    }
}

/// What is shown of all requests.
pub open spec fn request_notes(pending: Seq<PendingModel>) -> Seq<NoteModel> {
    if pending.len() == 0 {
        seq![NoteModel { text: "Заявок нет."@, keyboard: None }]
    } else {
        pending.map_values(|request: PendingModel| request_note(request))
    }
}

/// Each request has its own message with its number, its login, its user and when it was made, and
/// the buttons that decide it; without requests there is one message that says so.
pub proof fn each_request_has_its_message(pending: Seq<PendingModel>, i: int)
    requires
        0 <= i < pending.len(),
    ensures
        request_notes(pending).len() == pending.len(),
        ("#"@ + decimal(pending[i].id as nat) + " — "@ + shown_login(
            pending[i].login,
        )).is_prefix_of(request_notes(pending)[i].text),
        (" (id "@ + decimal(pending[i].user_id as nat) + ")\nсоздана "@ + unix_text(
            pending[i].created_at_unix,
        )).is_suffix_of(request_notes(pending)[i].text),
        request_notes(pending)[i].keyboard == Some(approval_buttons(pending[i].id)),
        request_notes(seq![]) == seq![NoteModel { text: "Заявок нет."@, keyboard: None }],
{
    let start = "#"@ + decimal(pending[i].id as nat) + " — "@ + shown_login(pending[i].login);
    let end = " (id "@ + decimal(pending[i].user_id as nat) + ")\nсоздана "@ + unix_text(
        pending[i].created_at_unix,
    );
    assert(request_notes(pending)[i].text =~= start + end);
    parts_stand_at_the_ends(start, end, end);
}

fn note_of(request: &PendingRequest) -> (r: Note)
    ensures
        r@ == request_note(request@),
{
    let mut text = "#".to_string();
    append_u64(&mut text, request.id);
    text.append(" — ");
    text.append(&format_login(&request.login));
    text.append(" (id ");
    append_u64(&mut text, request.user_id);
    text.append(")\nсоздана ");
    text.append(&format_unix(request.created_at_unix));
    Note { text, keyboard: Some(approval_keyboard(request.id)) }
}

/// What is shown of all requests, one message for each.
pub fn requests(pending: &Vec<PendingRequest>) -> (r: Vec<Note>)
    ensures
        note_models(r@) == request_notes(pending_models(pending@)),
{
    let mut out: Vec<Note> = Vec::new();
    if pending.len() == 0 {
        let note = Note { text: "Заявок нет.".to_string(), keyboard: None };
        let ghost model = note@;
        out.push(note);
        assert(note_models(out@) =~= seq![model]);
        return out;
    }
    let ghost all = pending_models(pending@).map_values(
        |request: PendingModel| request_note(request),
    );
    let mut i: usize = 0;
    assert(note_models(out@) =~= all.take(0));
    while i < pending.len()
        invariant
            i <= pending@.len(),
            all == pending_models(pending@).map_values(
                |request: PendingModel| request_note(request),
            ),
            note_models(out@) == all.take(i as int),
        decreases pending@.len() - i,
    {
        let ghost before = out@;
        let note = note_of(&pending[i]);
        let ghost model = note@;
        out.push(note);
        assert(note_models(out@) =~= note_models(before).push(model));
        assert(all.take(i + 1) =~= all.take(i as int).push(all[i as int]));
        i = i + 1;
    }
    assert(all.take(i as int) =~= all);
    out
}

/// The login of a subscription that is to be deleted.
pub fn login_to_delete(raw: &str) -> (r: Result<String, String>)
    ensures
        r is Ok <==> normalized(raw@).len() > 0,
        r matches Ok(login) ==> login@ == normalized(raw@),
        r matches Err(e) ==> e@ == "укажи логин: /delete <login>"@,
{
    let login = normalize_login(raw);
    if login.as_str().is_empty() {
        Err("укажи логин: /delete <login>".to_string())
    } else {
        Ok(login)
    }
}

/// What is said of a deletion.
pub fn deleted_text(login: &str, deleted: bool) -> (r: String)
    ensures
        r@ == "Подписка "@ + shown_login(login@) + (if deleted {
            " удалена."@
        } else {
            " не найдена."@
        }),
{
    let mut text = "Подписка ".to_string();
    text.append(&format_login(login));
    if deleted {
        text.append(" удалена.");
    } else {
        text.append(" не найдена.");
    }
    text
}

/// The text of a broadcast.
pub fn text_to_broadcast(raw: &str) -> (r: Result<String, String>)
    ensures
        r is Ok <==> trim(raw@).len() > 0,
        r matches Ok(text) ==> text@ == trim(raw@),
        r matches Err(e) ==> e@ == "укажи текст: /broadcast <текст>"@,
{
    let text = trim_text(raw);
    if text.as_str().is_empty() {
        Err("укажи текст: /broadcast <текст>".to_string())
    } else {
        Ok(text)
    }
}

/// Whom a broadcast goes to: every client with a Telegram identifier, once.
pub fn broadcast_recipients(clients: &Vec<Client>) -> (r: Vec<i64>)
    ensures
        growing(r@),
        forall|id: i64| r@.contains(id) <==> has_chat(client_models(clients@), id),
{
    client_recipients(clients)
}

/// What is said of a broadcast, for what came of each delivery.
pub fn broadcast_summary(results: &Vec<bool>) -> (r: String)
    ensures
        r@ == "Рассылка завершена: доставлено "@ + decimal(delivered(results@))
            + ", ошибок "@ + decimal((results@.len() - delivered(results@)) as nat) + "."@,
{
    let (sent, failed) = tally(results);
    let mut text = "Рассылка завершена: доставлено ".to_string();
    append_u64(&mut text, sent as u64);
    text.append(", ошибок ");
    append_u64(&mut text, failed as u64);
    text.append(".");
    text
}

/// A broadcast reaches only real chats, each of them once.
pub proof fn broadcast_reaches_each_once(clients: Seq<ClientModel>, recipients: Seq<i64>)
    requires
        growing(recipients),
        forall|id: i64| recipients.contains(id) <==> has_chat(clients, id),
    ensures
        recipients.no_duplicates(),
        forall|i: int| 0 <= i < recipients.len() ==> #[trigger] recipients[i] > 0,
{
    assert forall|i: int| 0 <= i < recipients.len() implies #[trigger] recipients[i] > 0 by {
        assert(recipients.contains(recipients[i]));
        assert(has_chat(clients, recipients[i]));
    }
}

/// Whom a message is for, and the message.
pub open spec fn direct_parts(payload: Seq<char>) -> Option<(Seq<char>, Seq<char>)> {
    match split_once_whitespace(trim(payload)) {
        Some((target, text)) => if trim(text).len() > 0 {
            Some((target, trim(text)))
        } else {
            None
        },
        None => None,
    }
}

/// A message is for whom is named first, and everything behind that is the message.
pub proof fn message_follows_its_target(
    a: Seq<char>,
    target: Seq<char>,
    c: char,
    gap: Seq<char>,
    text: Seq<char>,
    b: Seq<char>,
)
    requires
        forall|i: int| 0 <= i < gap.len() ==> is_whitespace(#[trigger] gap[i]),
        forall|i: int| 0 <= i < a.len() ==> is_whitespace(#[trigger] a[i]),
        forall|i: int| 0 <= i < b.len() ==> is_whitespace(#[trigger] b[i]),
        target.len() > 0,
        forall|i: int| 0 <= i < target.len() ==> !is_whitespace(target[i]),
        is_whitespace(c),
        text.len() > 0,
        !is_whitespace(text[0]),
        !is_whitespace(text.last()),
    ensures
        direct_parts(a + (target.push(c) + (gap + text)) + b) == Some(
            (target, text),
        ),
        direct_parts(a + target + b) is None,
{
    let whole = target.push(c) + (gap + text);
    assert(whole[0] == target[0]);
    assert(whole.last() == text.last());
    trim_takes_the_whitespace_around(a, whole, b);
    trim_takes_the_whitespace_around(gap, text, seq![]);
    assert(gap + text + seq![] =~= gap + text);
    trim_takes_the_whitespace_around(a, target, b);
    words_stand_between_whitespace(target, c, gap + text);
}

/// Whom a message is for, and the message.
pub fn parse_direct(payload: &str) -> (r: Result<(String, String), String>)
    ensures
        r is Ok <==> direct_parts(payload@) is Some,
        r matches Ok(parts) ==> direct_parts(payload@) == Some((parts.0@, parts.1@)),
        r matches Err(e) ==> e@ == "формат: /msg <@login|tg_id> <текст>"@,
{
    match split_once_at_whitespace(&trim_text(payload)) {
        Some((target, text)) => {
            let text = trim_text(&text);
            if !text.as_str().is_empty() {
                return Ok((target, text));
            }
        },
        None => {},
    }
    Err("формат: /msg <@login|tg_id> <текст>".to_string())
}

/// The chat that a target names by its number.
pub open spec fn numbered_chat(target: Seq<char>) -> Option<i64> {
    match read_i64(target) {
        Some(id) => if id > 0 {
            Some(id)
        } else {
            None
        },
        None => None,
    }
}

/// The chat that a target names by its number.
pub fn target_chat(target: &str) -> (r: Option<i64>)
    ensures
        r == numbered_chat(target@),
{
    match parse_i64(target) {
        Some(id) => {
            if id > 0 {
                Some(id)
            } else {
                None
            }
        },
        None => None,
    }
}

/// The chat with the client that a target names by its login.
pub open spec fn named_chat(clients: Seq<ClientModel>, target: Seq<char>) -> Option<i64> {
    match client_of(clients, target) {
        Some(client) => client.chat(),
        None => None,
    }
}

/// A chat is named by its number, where that is above zero, or by the login of the first client that
/// has it, where that client has a chat.
pub proof fn chats_are_named_by_number_or_login(
    id: i64,
    clients: Seq<ClientModel>,
    target: Seq<char>,
    i: int,
)
    requires
        0 <= i <= clients.len(),
        i < clients.len() ==> normalized(clients[i].login) == normalized(target),
        forall|j: int|
            0 <= j < i ==> normalized((#[trigger] clients[j]).login) != normalized(target),
    ensures
        id > 0 ==> numbered_chat(decimal_int(id as int)) == Some(id),
        id <= 0 ==> numbered_chat(decimal_int(id as int)) is None,
        i == clients.len() ==> named_chat(clients, target) is None,
        i < clients.len() && clients[i].tg_id > 0 ==> named_chat(clients, target) == Some(
            clients[i].tg_id,
        ),
        i < clients.len() && clients[i].tg_id <= 0 ==> named_chat(clients, target) is None,
{
    i64_reads_back(id);
    first_client_is_found(clients, target, i);
}

/// The chat with the client that a target names by its login.
pub fn client_chat(clients: &Vec<Client>, target: &str) -> (r: Result<i64, String>)
    ensures
        r is Ok <==> named_chat(client_models(clients@), target@) is Some,
        r matches Ok(id) ==> named_chat(client_models(clients@), target@) == Some(id),
        r matches Err(e) ==> e@ == "у "@ + shown_login(target@) + " нет Telegram id в подписке"@,
{
    let chat = match find_client(clients, target) {
        Some(client) => client.telegram_chat_id(),
        None => None,
    };
    match chat {
        Some(id) => Ok(id),
        None => {
            let mut e = "у ".to_string();
            e.append(&format_login(target));
            e.append(" нет Telegram id в подписке");
            Err(e)
        },
    }
}

/// What is said of a message that was sent.
pub fn sent_text(recipient: i64) -> (r: String)
    ensures
        r@ == "Отправлено пользователю "@ + decimal_int(recipient as int) + "."@,
{
    let mut text = "Отправлено пользователю ".to_string();
    append_i64(&mut text, recipient);
    text.append(".");
    text
}

/// What a command of an approver leads to.
#[derive(Debug)]
pub enum AdminPlan {
    Status,
    Subscriptions,
    Requests,
    /// A decision on a request.
    Decide(Decision),
    /// The subscription of this login is deleted.
    Delete(String),
    /// This text goes to all clients.
    Broadcast(String),
    /// This text goes to one user.
    Direct { target: String, text: String },
}

/// What a command of an approver leads to; an error says what is missing.
pub fn handle(cmd: AdminCommand) -> (r: Result<AdminPlan, String>)
    ensures
        match cmd {
            AdminCommand::Status => r == Ok::<AdminPlan, String>(AdminPlan::Status),
            AdminCommand::Subs => r == Ok::<AdminPlan, String>(AdminPlan::Subscriptions),
            AdminCommand::Requests => r == Ok::<AdminPlan, String>(AdminPlan::Requests),
            AdminCommand::Approve(raw) => match request_id_of(raw@) {
                Some(id) => r matches Ok(AdminPlan::Decide(d)) && d@ == new_decision(id, true),
                None => r matches Err(e) && e@ == "укажи номер заявки: /approve <id>"@,
            },
            AdminCommand::Deny(raw) => match request_id_of(raw@) {
                Some(id) => r matches Ok(AdminPlan::Decide(d)) && d@ == new_decision(id, false),
                None => r matches Err(e) && e@ == "укажи номер заявки: /approve <id>"@,
            },
            AdminCommand::Delete(raw) => if normalized(raw@).len() > 0 {
                r matches Ok(AdminPlan::Delete(login)) && login@ == normalized(raw@)
            } else {
                r matches Err(e) && e@ == "укажи логин: /delete <login>"@
            },
            AdminCommand::Broadcast(raw) => if trim(raw@).len() > 0 {
                r matches Ok(AdminPlan::Broadcast(text)) && text@ == trim(raw@)
            } else {
                r matches Err(e) && e@ == "укажи текст: /broadcast <текст>"@
            },
            AdminCommand::Msg(raw) => match direct_parts(raw@) {
                Some(parts) => r matches Ok(AdminPlan::Direct { target, text }) && (target@, text@)
                    == parts,
                None => r matches Err(e) && e@ == "формат: /msg <@login|tg_id> <текст>"@,
            },
        },
{
    match cmd {
        AdminCommand::Status => Ok(AdminPlan::Status),
        AdminCommand::Subs => Ok(AdminPlan::Subscriptions),
        AdminCommand::Requests => Ok(AdminPlan::Requests),
        AdminCommand::Approve(raw) => match parse_request_id(&raw) {
            Ok(id) => Ok(AdminPlan::Decide(Decision::new(id, true))),
            Err(e) => Err(e),
        },
        AdminCommand::Deny(raw) => match parse_request_id(&raw) {
            Ok(id) => Ok(AdminPlan::Decide(Decision::new(id, false))),
            Err(e) => Err(e),
        },
        AdminCommand::Delete(raw) => match login_to_delete(&raw) {
            Ok(login) => Ok(AdminPlan::Delete(login)),
            Err(e) => Err(e),
        },
        AdminCommand::Broadcast(raw) => match text_to_broadcast(&raw) {
            Ok(text) => Ok(AdminPlan::Broadcast(text)),
            Err(e) => Err(e),
        },
        AdminCommand::Msg(raw) => match parse_direct(&raw) {
            Ok((target, text)) => Ok(AdminPlan::Direct { target, text }),
            Err(e) => Err(e),
        },
    }
}

/// What a button of an approver leads to.
#[derive(Debug)]
pub enum ActionPlan {
    /// A decision on a request.
    Decide(Decision),
    /// A message to a user.
    Tell { chat_id: i64, text: String },
}

/// What a button of an approver leads to.
pub fn handle_action(action: Action) -> (r: ActionPlan)
    requires
        action.admin_only(),
    ensures
        match action {
            Action::Approve(id) => r matches ActionPlan::Decide(d) && d@ == new_decision(id, true),
            Action::Deny(id) => r matches ActionPlan::Decide(d) && d@ == new_decision(id, false),
            Action::MemeLike(chat) => r matches ActionPlan::Tell { chat_id, text } && chat_id
                == chat && text@ == MEME_LIKE@,
            Action::MemeDislike(chat) => r matches ActionPlan::Tell { chat_id, text } && chat_id
                == chat && text@ == MEME_DISLIKE@,
            _ => true,
        },
{
    match action {
        Action::Approve(id) => ActionPlan::Decide(Decision::new(id, true)),
        Action::Deny(id) => ActionPlan::Decide(Decision::new(id, false)),
        Action::MemeLike(chat) => ActionPlan::Tell { chat_id: chat, text: MEME_LIKE.to_string() },
        Action::MemeDislike(chat) => ActionPlan::Tell {
            chat_id: chat,
            text: MEME_DISLIKE.to_string(),
        },
        _ => unreached(),
    }
}

} // verus!
