//! Adding a client: the request, and the way to the client's link.

use vstd::prelude::*;

use crate::json::{
    array_field, every_entry_is_a_field, first_difference_decides, int_field, number_of, push_value,
    Json, JsonModel,
};
use crate::outside::{
    compact_text, is_uuid_v4, keys_ascend, new_uuid, value_entries, value_model, value_of_bool,
    value_of_entries, value_of_i64, value_of_items, value_of_text, value_text,
};
use crate::text::chars::{failure_with_cause, with_cause};
use crate::text::number::{append_u64, decimal, u64_reads_back, u64_text};

use super::endpoints::{
    fetch_subscription_base_url, list_existing_subscriptions, list_outcome, message, msg_or_unknown,
    settings_outcome, EventModel, HttpEvent, HttpModel, HttpReply, XuiClient,
};
use super::find::{LinkQuery, QueryModel};
use super::models::CreatedClientResult;
use super::subscriptions::{find_subscription_link, subscription_link};

verus! {

/// The bytes of a gigabyte.
pub const GIGABYTE: i64 = 0x4000_0000;

/// The milliseconds of a day.
pub const DAY_MILLIS: i64 = 86_400_000;

/// The last millisecond that a date can stand for.
pub const LAST_MILLI: i64 = 8_210_266_876_799_999;

/// A client as it is sent to the panel.
#[derive(Debug)]
pub struct NewXuiClient {
    pub id: String,
    pub flow: String,
    pub email: String,
    pub limit_ip: i64,
    pub total_bytes: i64,
    pub expiry_time: i64,
    pub enable: bool,
    pub tg_id: String,
    pub sub_id: String,
    pub reset: i64,
}

/// What a request says of a new client, in the order of the keys.
pub open spec fn client_entries(client: NewXuiClient) -> Seq<(Seq<char>, JsonModel)> {
    seq![
        ("email"@, JsonModel::Str(client.email@)),
        ("enable"@, JsonModel::Bool(client.enable)),
        ("expiryTime"@, number_of(client.expiry_time as int)),
        ("flow"@, JsonModel::Str(client.flow@)),
        ("id"@, JsonModel::Str(client.id@)),
        ("limitIp"@, number_of(client.limit_ip as int)),
        ("reset"@, number_of(client.reset as int)),
        ("subId"@, JsonModel::Str(client.sub_id@)),
        ("tgId"@, JsonModel::Str(client.tg_id@)),
        ("totalGB"@, number_of(client.total_bytes as int)),
    ]
}

/// The settings that add a client to an inbound.
pub open spec fn addition_settings(client: NewXuiClient) -> JsonModel {
    JsonModel::Object(
        seq![("clients"@, JsonModel::Array(seq![JsonModel::Object(client_entries(client))]))],
    )
}

/// The body of the request that adds a client to an inbound: the settings stand in it as a text.
pub open spec fn addition_body(inbound_id: i64, client: NewXuiClient) -> JsonModel {
    JsonModel::Object(
        seq![
            ("id"@, number_of(inbound_id as int)),
            ("settings"@, JsonModel::Str(compact_text(addition_settings(client)))),
        ],
    )
}

proof fn addition_keys_ascend(inbound_id: i64, client: NewXuiClient)
    ensures
        keys_ascend(client_entries(client)),
        keys_ascend(addition_settings(client)->Object_0),
        keys_ascend(addition_body(inbound_id, client)->Object_0),
{
    reveal_strlit("email");
    reveal_strlit("enable");
    reveal_strlit("expiryTime");
    reveal_strlit("flow");
    reveal_strlit("id");
    reveal_strlit("limitIp");
    reveal_strlit("reset");
    reveal_strlit("subId");
    reveal_strlit("tgId");
    reveal_strlit("totalGB");
    reveal_strlit("settings");
    first_difference_decides("email"@, "enable"@, 1);
    first_difference_decides("enable"@, "expiryTime"@, 1);
    first_difference_decides("expiryTime"@, "flow"@, 0);
    first_difference_decides("flow"@, "id"@, 0);
    first_difference_decides("id"@, "limitIp"@, 0);
    first_difference_decides("limitIp"@, "reset"@, 0);
    first_difference_decides("reset"@, "subId"@, 0);
    first_difference_decides("subId"@, "tgId"@, 0);
    first_difference_decides("tgId"@, "totalGB"@, 1);
    first_difference_decides("id"@, "settings"@, 0);
}

/// What is sent of a new client says everything of it, each thing under the key of the panel, as the
/// only client of the settings; the body holds these as a text, beside the number of the inbound.
pub proof fn client_is_sent_whole(client: NewXuiClient, inbound_id: i64)
    ensures
        ({
            let sent = JsonModel::Object(client_entries(client));
            &&& sent.field("email"@) == Some(JsonModel::Str(client.email@))
            &&& sent.field("id"@) == Some(JsonModel::Str(client.id@))
            &&& sent.field("subId"@) == Some(JsonModel::Str(client.sub_id@))
            &&& sent.field("flow"@) == Some(JsonModel::Str(client.flow@))
            &&& sent.field("tgId"@) == Some(JsonModel::Str(client.tg_id@))
            &&& sent.field("enable"@) == Some(JsonModel::Bool(client.enable))
            &&& int_field(sent, "expiryTime"@) == Some(client.expiry_time)
            &&& int_field(sent, "limitIp"@) == Some(client.limit_ip)
            &&& int_field(sent, "reset"@) == Some(client.reset)
            &&& int_field(sent, "totalGB"@) == Some(client.total_bytes)
            &&& array_field(addition_settings(client), "clients"@) == Some(seq![sent])
            &&& int_field(addition_body(inbound_id, client), "id"@) == Some(inbound_id)
            &&& addition_body(inbound_id, client).field("settings"@) == Some(
                JsonModel::Str(compact_text(addition_settings(client))),
            )
        }),
{
    addition_keys_ascend(inbound_id, client);
    let entries = client_entries(client);
    every_entry_is_a_field(entries, 0);
    every_entry_is_a_field(entries, 1);
    every_entry_is_a_field(entries, 2);
    every_entry_is_a_field(entries, 3);
    every_entry_is_a_field(entries, 4);
    every_entry_is_a_field(entries, 5);
    every_entry_is_a_field(entries, 6);
    every_entry_is_a_field(entries, 7);
    every_entry_is_a_field(entries, 8);
    every_entry_is_a_field(entries, 9);
    every_entry_is_a_field(addition_settings(client)->Object_0, 0);
    every_entry_is_a_field(addition_body(inbound_id, client)->Object_0, 0);
    every_entry_is_a_field(addition_body(inbound_id, client)->Object_0, 1);
}

impl NewXuiClient {
    /// The settings that add the client to an inbound.
    pub fn settings(&self) -> (r: serde_json::Value)
        ensures
            value_model(r) == addition_settings(*self),
    {
        proof {
            addition_keys_ascend(0, *self);
        }
        let mut fields: Vec<(String, serde_json::Value)> = Vec::new();
        assert(value_entries(fields@) =~= seq![]);
        push_value(&mut fields, "email", value_of_text(&self.email));
        push_value(&mut fields, "enable", value_of_bool(self.enable));
        push_value(&mut fields, "expiryTime", value_of_i64(self.expiry_time));
        push_value(&mut fields, "flow", value_of_text(&self.flow));
        push_value(&mut fields, "id", value_of_text(&self.id));
        push_value(&mut fields, "limitIp", value_of_i64(self.limit_ip));
        push_value(&mut fields, "reset", value_of_i64(self.reset));
        push_value(&mut fields, "subId", value_of_text(&self.sub_id));
        push_value(&mut fields, "tgId", value_of_text(&self.tg_id));
        push_value(&mut fields, "totalGB", value_of_i64(self.total_bytes));
        assert(value_entries(fields@) =~= client_entries(*self));
        let client = value_of_entries(fields);
        let mut clients: Vec<serde_json::Value> = Vec::new();
        clients.push(client);
        assert(clients@.map_values(|v: serde_json::Value| value_model(v)) =~= seq![
            value_model(client),
        ]);
        let mut settings: Vec<(String, serde_json::Value)> = Vec::new();
        assert(value_entries(settings@) =~= seq![]);
        push_value(&mut settings, "clients", value_of_items(clients));
        assert(value_entries(settings@) =~= addition_settings(*self)->Object_0);
        value_of_entries(settings)
    }

    /// The text of the settings that add the client to an inbound.
    pub fn settings_text(&self) -> (r: String)
        ensures
            r@ == compact_text(addition_settings(*self)),
    {
        value_text(&self.settings())
    }

    /// The body of the request that adds the client to an inbound.
    pub fn settings_body(&self, inbound_id: i64) -> (r: serde_json::Value)
        ensures
            value_model(r) == addition_body(inbound_id, *self),
    {
        proof {
            addition_keys_ascend(inbound_id, *self);
        }
        let mut body: Vec<(String, serde_json::Value)> = Vec::new();
        assert(value_entries(body@) =~= seq![]);
        push_value(&mut body, "id", value_of_i64(inbound_id));
        push_value(&mut body, "settings", value_of_text(&self.settings_text()));
        assert(value_entries(body@) =~= addition_body(inbound_id, *self)->Object_0);
        value_of_entries(body)
    }
}

/// The e-mail of a new client: the one that was asked for, or one made of the Telegram identifier.
pub open spec fn new_email(custom: Option<Seq<char>>, telegram_user_id: u64) -> Seq<char> {
    match custom {
        Some(email) => email,
        None => "tg_"@ + decimal(telegram_user_id as nat),
    }
}

/// When access ends that is issued at `now_millis` for `days` days; 0 stands for never.
pub open spec fn expiry(days: i64, now_millis: i64) -> int {
    if days <= 0 {
        0
    } else {
        now_millis + days * DAY_MILLIS
    }
}

/// What is said of a client that was created.
pub open spec fn summary_text(
    email: Seq<char>,
    client_uuid: Seq<char>,
    obj_text: Option<Seq<char>>,
) -> Seq<char> {
    match obj_text {
        Some(text) => "Created client `"@ + email + "` (`"@ + client_uuid
            + "`)\\nPanel response: `"@ + text + "`"@,
        None => "Created client `"@ + email + "` (`"@ + client_uuid + "`)."@,
    }
}

/// What is said of a client that was created names its e-mail and its identifier, and what the panel
/// answered where it answered something.
pub proof fn summary_names_the_client(
    email: Seq<char>,
    client_uuid: Seq<char>,
    answer: Seq<char>,
)
    ensures
        ("Created client `"@ + email + "` (`"@ + client_uuid + "`)"@).is_prefix_of(
            summary_text(email, client_uuid, None),
        ),
        ("Created client `"@ + email + "` (`"@ + client_uuid + "`)"@).is_prefix_of(
            summary_text(email, client_uuid, Some(answer)),
        ),
        ("Panel response: `"@ + answer + "`"@).is_suffix_of(
            summary_text(email, client_uuid, Some(answer)),
        ),
{
    reveal_strlit("`)");
    reveal_strlit("`).");
    reveal_strlit("Panel response: `");
    reveal_strlit("`)\\nPanel response: `");
    let start = "Created client `"@ + email + "` (`"@ + client_uuid;
    let end = "Panel response: `"@ + answer + "`"@;
    let plain = summary_text(email, client_uuid, None);
    let whole = summary_text(email, client_uuid, Some(answer));
    assert(start + "`)"@ =~= plain.subrange(0, start.len() as int + 2));
    assert(start + "`)"@ =~= whole.subrange(0, start.len() as int + 2));
    assert(end =~= whole.subrange(start.len() as int + 4, whole.len() as int));
}

/// What an addition waits for.
#[derive(Debug, Clone, Copy, PartialEq, Eq, Structural)]
pub enum AddPhase {
    /// The addition itself.
    Added,
    /// The panel's settings.
    Settings,
    /// The subscriptions.
    List,
    /// The configured inbound.
    Inbound,
    /// All inbounds.
    Inbounds,
    /// Nothing: it is over.
    Closed,
}

/// What to do next.
#[derive(Debug)]
pub enum AddAction {
    /// Ask for what the new phase waits for.
    Ask,
    /// It is over: the client was created.
    Done(CreatedClientResult),
    /// It is over, with this error.
    Fail(String),
}

/// What is to be done next.
pub enum AddOutcome {
    Ask,
    Done { summary: Seq<char>, connection_url: Option<Seq<char>> },
    Fail(Seq<char>),
}

impl View for AddAction {
    type V = AddOutcome;

    open spec fn view(&self) -> AddOutcome {
        match self {
            AddAction::Ask => AddOutcome::Ask,
            AddAction::Done(created) => AddOutcome::Done {
                summary: created.summary@,
                connection_url: created.connection_url.deep_view(),
            },
            AddAction::Fail(e) => AddOutcome::Fail(e@),
        }
    }
}

/// An addition on its way.
#[derive(Debug)]
pub struct AddRun {
    pub query: LinkQuery,
    pub phase: AddPhase,
    pub obj: Option<Json>,
    pub obj_text: Option<String>,
    pub sub_base: String,
}

/// What an addition is.
pub struct AddModel {
    pub query: QueryModel,
    pub phase: AddPhase,
    pub obj: Option<JsonModel>,
    pub obj_text: Option<Seq<char>>,
    pub sub_base: Seq<char>,
}

impl View for AddRun {
    type V = AddModel;

    open spec fn view(&self) -> AddModel {
        AddModel {
            query: self.query@,
            phase: self.phase,
            obj: match self.obj {
                Some(v) => Some(v@),
                None => None,
            },
            obj_text: self.obj_text.deep_view(),
            sub_base: self.sub_base@,
        }
    }
}

/// What the reply to an addition comes to: an error, or nothing.
pub open spec fn add_error(reply: HttpModel) -> Option<Seq<char>> {
    if !reply.ok {
        Some("x-ui addClient failed with status "@ + reply.status + ": "@ + reply.body)
    } else if reply.success() == Some(false) {
        Some(
            "x-ui addClient unsuccessful: "@ + msg_or_unknown(reply.msg()),
        )
    } else {
        None
    }
}

impl AddModel {
    /// The addition in another phase.
    pub open spec fn at(self, phase: AddPhase) -> AddModel {
        AddModel { phase, ..self }
    }

    /// The end of the addition, with that link.
    pub open spec fn done(self, link: Option<Seq<char>>) -> (AddModel, AddOutcome) {
        (
            self.at(AddPhase::Closed),
            AddOutcome::Done {
                summary: summary_text(self.query.email, self.query.client_uuid, self.obj_text),
                connection_url: link,
            },
        )
    }

    /// The end of the addition, with that error.
    pub open spec fn fail(self, e: Seq<char>) -> (AddModel, AddOutcome) {
        (self.at(AddPhase::Closed), AddOutcome::Fail(e))
    }

    /// Without a subscription: the link in the reply to the addition, or else the inbounds are
    /// asked for.
    pub open spec fn without_subscription(self) -> (AddModel, AddOutcome) {
        let given = match self.obj {
            Some(obj) => self.query.given_in(obj),
            None => None,
        };
        match given {
            Some(link) => self.done(Some(link)),
            None => (self.at(AddPhase::Inbound), AddOutcome::Ask),
        }
    }

    /// The addition with the object of the reply.
    pub open spec fn with_obj(self, reply: HttpModel) -> AddModel {
        AddModel {
            obj: match reply.api {
                Ok(api) => api.obj,
                Err(_) => None,
            },
            obj_text: match reply.api {
                Ok(api) => api.obj_text,
                Err(_) => None,
            },
            ..self
        }
    }

    /// The addition after an event, and what is to be done next. Subscriptions are asked for only
    /// with a ranked query.
    pub open spec fn step(self, event: EventModel) -> (AddModel, AddOutcome) {
        match (self.phase, event) {
            (AddPhase::Added, EventModel::Reply(reply)) => match add_error(reply) {
                Some(e) => self.fail(e),
                None => if self.query.ranked {
                    (self.with_obj(reply).at(AddPhase::Settings), AddOutcome::Ask)
                } else {
                    self.with_obj(reply).without_subscription()
                },
            },
            (AddPhase::Settings, EventModel::Reply(reply)) => match settings_outcome(
                reply,
                self.query.base_url,
            ) {
                Ok(Some(base)) => (
                    AddModel { sub_base: base, ..self.at(AddPhase::List) },
                    AddOutcome::Ask,
                ),
                Ok(None) => self.without_subscription(),
                Err(e) => self.fail(e),
            },
            (AddPhase::List, EventModel::Reply(reply)) => match list_outcome(reply) {
                Ok(subs) => match subscription_link(subs, self.query.email, self.sub_base) {
                    Some(link) => self.done(Some(link)),
                    None => self.without_subscription(),
                },
                Err(e) => self.fail(e),
            },
            (AddPhase::Inbound, EventModel::Reply(reply)) => match self.query.new_link(reply) {
                Some(link) => self.done(Some(link)),
                None => (self.at(AddPhase::Inbounds), AddOutcome::Ask),
            },
            (AddPhase::Inbound, EventModel::Broken { .. }) => (
                self.at(AddPhase::Inbounds),
                AddOutcome::Ask,
            ),
            (AddPhase::Inbounds, EventModel::Reply(reply)) => self.done(self.query.new_link(reply)),
            (AddPhase::Inbounds, EventModel::Broken { .. }) => self.done(None),
            (AddPhase::Closed, EventModel::Reply(_)) => self.done(None),
            (_, EventModel::Broken { attempt, cause }) => self.fail(with_cause(attempt, cause)),
        }
    }

    /// A bound on the requests that are still to come.
    pub open spec fn requests_left(self) -> int {
        match self.phase {
            AddPhase::Added => 5,
            AddPhase::Settings => 4,
            AddPhase::List => 3,
            AddPhase::Inbound => 2,
            AddPhase::Inbounds => 1,
            AddPhase::Closed => 0,
        }
    }
}

/// An addition ends: each event closes it or leaves fewer requests to come, and it goes on exactly
/// while the action is to ask.
pub proof fn addition_ends(state: AddModel, event: EventModel)
    requires
        state.phase != AddPhase::Closed,
    ensures
        0 <= state.step(event).0.requests_left() < state.requests_left(),
        state.step(event).1 is Ask <==> state.step(event).0.phase != AddPhase::Closed,
{
}

/// Once the panel has accepted the client, a missing link or an inbound that does not answer never
/// makes the addition fail: only the settings and the list of subscriptions can.
pub proof fn accepted_client_is_reported(state: AddModel, event: EventModel)
    requires
        state.phase == AddPhase::Inbound || state.phase == AddPhase::Inbounds,
    ensures
        !(state.step(event).1 is Fail),
{
}

/// A new client gets the e-mail that was asked for, or one made of the Telegram identifier; access
/// for some days ends that many times 24 hours later, and access for none never ends.
pub proof fn new_client_has_its_email_and_end(
    custom: Seq<char>,
    telegram_user_id: u64,
    other: u64,
    days: i64,
    now_millis: i64,
)
    ensures
        new_email(Some(custom), telegram_user_id) == custom,
        new_email(None, telegram_user_id) == "tg_"@ + decimal(telegram_user_id as nat),
        telegram_user_id != other ==> new_email(None, telegram_user_id) != new_email(None, other),
        days > 0 ==> expiry(days, now_millis) - now_millis == days * (24 * 60 * 60 * 1000),
        days <= 0 ==> expiry(days, now_millis) == 0,
        GIGABYTE == 1024 * 1024 * 1024,
{
    u64_reads_back(telegram_user_id);
    u64_reads_back(other);
    let a = new_email(None, telegram_user_id);
    let b = new_email(None, other);
    if a == b {
        let n = "tg_"@.len() as int;
        assert(a.skip(n) =~= decimal(telegram_user_id as nat));
        assert(b.skip(n) =~= decimal(other as nat));
    }
}

/// The addition of a client fails exactly where the panel refuses it, with what the panel says. Once
/// it is accepted, a ranked addition asks for the settings, and another one takes the link in the
/// reply or asks for the inbound.
pub proof fn additions_are_judged_by_the_panel(state: AddModel, reply: HttpModel)
    requires
        state.phase == AddPhase::Added,
    ensures
        ({
            let (next, outcome) = state.step(EventModel::Reply(reply));
            &&& outcome is Fail <==> !reply.accepted()
            &&& !reply.ok ==> outcome == AddOutcome::Fail(
                "x-ui addClient failed with status "@ + reply.status + ": "@ + reply.body,
            )
            &&& reply.ok && !reply.accepted() ==> outcome == AddOutcome::Fail(
                "x-ui addClient unsuccessful: "@ + (match reply.api->Ok_0.msg {
                    Some(msg) => msg,
                    None => "unknown x-ui error"@,
                }),
            )
            &&& reply.accepted() ==> next.obj == (match reply.api {
                Ok(api) => api.obj,
                Err(_) => None,
            }) && next.obj_text == (match reply.api {
                Ok(api) => api.obj_text,
                Err(_) => None,
            })
            &&& reply.accepted() && state.query.ranked ==> outcome == AddOutcome::Ask && next.phase
                == AddPhase::Settings
            &&& reply.accepted() && !state.query.ranked && reply.api is Err ==> outcome
                == AddOutcome::Ask && next.phase == AddPhase::Inbound
        }),
{
}

/// After the addition the first link is taken that there is: the subscription, the one in the reply
/// to the addition, the one in the configured inbound, the one in all inbounds. The summary names the
/// client and quotes the panel.
pub proof fn first_link_of_a_new_client_is_taken(
    state: AddModel,
    reply: HttpModel,
    attempt: Seq<char>,
    cause: Seq<char>,
)
    ensures
        ({
            let broken = EventModel::Broken { attempt, cause };
            let summary = "Created client `"@ + state.query.email + "` (`"@ + state.query.client_uuid
                + (match state.obj_text {
                Some(text) => "`)\\nPanel response: `"@ + text + "`"@,
                None => "`)."@,
            });
            let on_settings = state.at(AddPhase::Settings).step(EventModel::Reply(reply));
            let on_list = state.at(AddPhase::List).step(EventModel::Reply(reply));
            let on_inbound = state.at(AddPhase::Inbound).step(EventModel::Reply(reply));
            let on_inbounds = state.at(AddPhase::Inbounds).step(EventModel::Reply(reply));
            let given = match state.obj {
                Some(obj) => state.query.given_in(obj),
                None => None,
            };
            &&& (settings_outcome(reply, state.query.base_url) matches Ok(Some(base)) ==> on_settings.1
                == AddOutcome::Ask && on_settings.0.phase == AddPhase::List && on_settings.0.sub_base
                == base)
            &&& (settings_outcome(reply, state.query.base_url) matches Err(e) ==> on_settings.1
                == AddOutcome::Fail(e))
            &&& (settings_outcome(reply, state.query.base_url) matches Ok(None) ==> match given {
                Some(link) => on_settings.1 == (AddOutcome::Done {
                    summary,
                    connection_url: Some(link),
                }),
                None => on_settings.1 == AddOutcome::Ask && on_settings.0.phase == AddPhase::Inbound,
            })
            &&& (list_outcome(reply) matches Ok(subs) ==> match subscription_link(
                subs,
                state.query.email,
                state.sub_base,
            ) {
                Some(link) => on_list.1 == (AddOutcome::Done { summary, connection_url: Some(link) }),
                None => match given {
                    Some(link) => on_list.1 == (AddOutcome::Done {
                        summary,
                        connection_url: Some(link),
                    }),
                    None => on_list.1 == AddOutcome::Ask && on_list.0.phase == AddPhase::Inbound,
                },
            })
            &&& (list_outcome(reply) matches Err(e) ==> on_list.1 == AddOutcome::Fail(e))
            &&& match state.query.new_link(reply) {
                Some(link) => on_inbound.1 == (AddOutcome::Done {
                    summary,
                    connection_url: Some(link),
                }),
                None => on_inbound.1 == AddOutcome::Ask && on_inbound.0.phase == AddPhase::Inbounds,
            }
            &&& on_inbounds.1 == (AddOutcome::Done {
                summary,
                connection_url: state.query.new_link(reply),
            })
            &&& state.at(AddPhase::Added).step(broken).1 == AddOutcome::Fail(
                attempt + ": "@ + cause,
            )
            &&& state.at(AddPhase::Settings).step(broken).1 == AddOutcome::Fail(
                attempt + ": "@ + cause,
            )
            &&& state.at(AddPhase::List).step(broken).1 == AddOutcome::Fail(attempt + ": "@ + cause)
        }),
{
    let start = "Created client `"@ + state.query.email + "` (`"@ + state.query.client_uuid;
    if let Some(text) = state.obj_text {
        assert(start + "`)\\nPanel response: `"@ + text + "`"@ =~= start + (
        "`)\\nPanel response: `"@ + text + "`"@));
    }
}

/// The e-mail of a new client.
pub fn client_email(custom_email: Option<&str>, telegram_user_id: u64) -> (r: String)
    ensures
        r@ == new_email(
            match custom_email {
                Some(email) => Some(email@),
                None => None,
            },
            telegram_user_id,
        ),
{
    match custom_email {
        Some(email) => email.to_string(),
        None => {
            let mut email = "tg_".to_string();
            append_u64(&mut email, telegram_user_id);
            email
        },
    }
}

/// When access ends that is issued at `now_millis`.
pub fn expiry_time(days: i64, now_millis: i64) -> (r: i64)
    requires
        days > 0 ==> days * DAY_MILLIS <= i64::MAX && now_millis + days * DAY_MILLIS <= LAST_MILLI,
    ensures
        r == expiry(days, now_millis),
{
    if days <= 0 {
        0
    } else {
        assert(days * DAY_MILLIS >= days) by (nonlinear_arith)
            requires
                days > 0,
                DAY_MILLIS >= 1,
        ;
        now_millis + days * DAY_MILLIS
    }
}

/// What is said of a client that was created.
pub fn summary(email: &str, client_uuid: &str, obj_text: &Option<String>) -> (r: String)
    ensures
        r@ == summary_text(email@, client_uuid@, obj_text.deep_view()),
{
    let mut text = "Created client `".to_string();
    text.append(email);
    text.append("` (`");
    text.append(client_uuid);
    match obj_text {
        Some(obj) => {
            text.append("`)\\nPanel response: `");
            text.append(obj);
            text.append("`");
        },
        None => {
            text.append("`).");
        },
    }
    text
}

fn check_added(reply: &HttpReply) -> (r: Option<String>)
    ensures
        r.deep_view() == add_error(reply@),
{
    if !reply.ok {
        let mut e = "x-ui addClient failed with status ".to_string();
        e.append(&reply.status);
        e.append(": ");
        e.append(&reply.body);
        return Some(e);
    }
    match &reply.api {
        Ok(api) => match api.success {
            Some(false) => {
                let mut e = "x-ui addClient unsuccessful: ".to_string();
                e.append(&message(&api.msg));
                Some(e)
            },
            _ => None,
        },
        Err(_) => None,
    }
}

impl AddRun {
    fn finish(&mut self, link: Option<String>) -> (r: AddAction)
        ensures
            (final(self)@, r@) == old(self)@.done(link.deep_view()),
    {
        self.phase = AddPhase::Closed;
        let summary = summary(&self.query.email, &self.query.client_uuid, &self.obj_text);
        AddAction::Done(CreatedClientResult { summary, connection_url: link })
    }

    fn give_up(&mut self, e: String) -> (r: AddAction)
        ensures
            (final(self)@, r@) == old(self)@.fail(e@),
    {
        self.phase = AddPhase::Closed;
        AddAction::Fail(e)
    }

    fn ask(&mut self, phase: AddPhase) -> (r: AddAction)
        ensures
            final(self)@ == old(self)@.at(phase),
            r@ == AddOutcome::Ask,
    {
        self.phase = phase;
        AddAction::Ask
    }

    fn go_on_without_subscription(&mut self) -> (r: AddAction)
        ensures
            (final(self)@, r@) == old(self)@.without_subscription(),
    {
        let given = match &self.obj {
            Some(obj) => self.query.given(obj),
            None => None,
        };
        if given.is_some() {
            self.finish(given)
        } else {
            self.ask(AddPhase::Inbound)
        }
    }

    /// Takes the event in, and says what to do next.
    pub fn step(&mut self, event: HttpEvent) -> (r: AddAction)
        requires
            old(self)@.phase != AddPhase::Closed,
        ensures
            (final(self)@, r@) == old(self)@.step(event@),
    {
        match event {
            HttpEvent::Reply(reply) => match self.phase {
                AddPhase::Added => {
                    if let Some(e) = check_added(&reply) {
                        return self.give_up(e);
                    }
                    match reply.api {
                        Ok(api) => {
                            self.obj = api.obj;
                            self.obj_text = api.obj_text;
                        },
                        Err(_) => {
                            self.obj = None;
                            self.obj_text = None;
                        },
                    }
                    if self.query.ranked {
                        self.ask(AddPhase::Settings)
                    } else {
                        self.go_on_without_subscription()
                    }
                },
                AddPhase::Settings => match fetch_subscription_base_url(
                    &reply,
                    &self.query.base_url,
                ) {
                    Ok(Some(base)) => {
                        self.sub_base = base;
                        self.ask(AddPhase::List)
                    },
                    Ok(None) => self.go_on_without_subscription(),
                    Err(e) => self.give_up(e),
                },
                AddPhase::List => match list_existing_subscriptions(&reply) {
                    Ok(subs) => {
                        let link = find_subscription_link(
                            &subs,
                            &self.query.email,
                            &self.sub_base,
                        );
                        if link.is_some() {
                            self.finish(link)
                        } else {
                            self.go_on_without_subscription()
                        }
                    },
                    Err(e) => self.give_up(e),
                },
                AddPhase::Inbound => {
                    let link = self.query.extract_url_from_endpoint(&reply);
                    if link.is_some() {
                        self.finish(link)
                    } else {
                        self.ask(AddPhase::Inbounds)
                    }
                },
                _ => {
                    let link = self.query.extract_url_from_endpoint(&reply);
                    self.finish(link)
                },
            },
            HttpEvent::Broken { attempt, cause } => match self.phase {
                AddPhase::Inbound => self.ask(AddPhase::Inbounds),
                AddPhase::Inbounds => self.finish(None),
                _ => self.give_up(failure_with_cause(&attempt, &cause)),
            },
        }
    }
}

impl XuiClient {
    /// The quota of a new client fits.
    pub open spec fn quota_fits(self) -> bool {
        i64::MIN <= self.config.total_gb * GIGABYTE <= i64::MAX
    }

    /// A client with the given identifiers, and its addition.
    pub fn add_client_as(
        &self,
        telegram_user_id: u64,
        custom_email: Option<&str>,
        client_uuid: String,
        sub_id: String,
        expiry_time: i64,
        ranked: bool,
    ) -> (r: (NewXuiClient, AddRun))
        requires
            self.quota_fits(),
        ensures
            r.0.id@ == client_uuid@,
            r.0.flow@ == ""@,
            r.0.email@ == new_email(
                match custom_email {
                    Some(email) => Some(email@),
                    None => None,
                },
                telegram_user_id,
            ),
            r.0.limit_ip == 0,
            r.0.total_bytes == self.config.total_gb * GIGABYTE,
            r.0.expiry_time == expiry_time,
            r.0.enable,
            r.0.tg_id@ == decimal(telegram_user_id as nat),
            r.0.sub_id@ == sub_id@,
            r.0.reset == 0,
            r.1@.query == (QueryModel {
                base_url: self.config.base_url@,
                inbound_id: self.config.inbound_id,
                email: r.0.email@,
                client_uuid: client_uuid@,
                sub_id: sub_id@,
                ranked,
            }),
            r.1@.phase == AddPhase::Added,
    {
        let email = client_email(custom_email, telegram_user_id);
        let total_bytes: i64 = self.config.total_gb * GIGABYTE;
        let client = NewXuiClient {
            id: client_uuid.clone(),
            flow: "".to_string(),
            email: email.clone(),
            limit_ip: 0,
            total_bytes,
            expiry_time,
            enable: true,
            tg_id: u64_text(telegram_user_id),
            sub_id: sub_id.clone(),
            reset: 0,
        };
        let query = LinkQuery {
            base_url: self.config.base_url.clone(),
            inbound_id: self.config.inbound_id,
            email,
            client_uuid,
            sub_id,
            ranked,
        };
        let run = AddRun {
            query,
            phase: AddPhase::Added,
            obj: None,
            obj_text: None,
            sub_base: "".to_string(),
        };
        (client, run)
    }

    /// A client with fresh identifiers and no end, and its addition.
    pub fn add_client(&self, telegram_user_id: u64, custom_email: Option<&str>) -> (r: (
        NewXuiClient,
        AddRun,
    ))
        requires
            self.quota_fits(),
        ensures
            is_uuid_v4(r.0.id@),
            is_uuid_v4(r.0.sub_id@),
            r.0.email@ == new_email(
                match custom_email {
                    Some(email) => Some(email@),
                    None => None,
                },
                telegram_user_id,
            ),
            r.0.flow@ == ""@,
            r.0.limit_ip == 0,
            r.0.total_bytes == self.config.total_gb * GIGABYTE,
            r.0.expiry_time == 0,
            r.0.enable,
            r.0.tg_id@ == decimal(telegram_user_id as nat),
            r.0.reset == 0,
            r.1@.query == (QueryModel {
                base_url: self.config.base_url@,
                inbound_id: self.config.inbound_id,
                email: r.0.email@,
                client_uuid: r.0.id@,
                sub_id: r.0.sub_id@,
                ranked: true,
            }),
            r.1@.phase == AddPhase::Added,
    {
        self.add_client_as(telegram_user_id, custom_email, new_uuid(), new_uuid(), 0, true)
    }

    /// A client with fresh identifiers whose access ends as configured, and its addition, with
    /// links chosen by score.
    pub fn add_expiring_client(
        &self,
        telegram_user_id: u64,
        custom_email: Option<&str>,
        now_millis: i64,
    ) -> (r: (NewXuiClient, AddRun))
        requires
            self.quota_fits(),
            self.config.expiry_days > 0 ==> self.config.expiry_days * DAY_MILLIS <= i64::MAX
                && now_millis + self.config.expiry_days * DAY_MILLIS <= LAST_MILLI,
        ensures
            is_uuid_v4(r.0.id@),
            is_uuid_v4(r.0.sub_id@),
            r.0.email@ == new_email(
                match custom_email {
                    Some(email) => Some(email@),
                    None => None,
                },
                telegram_user_id,
            ),
            r.0.flow@ == ""@,
            r.0.limit_ip == 0,
            r.0.total_bytes == self.config.total_gb * GIGABYTE,
            r.0.expiry_time == expiry(self.config.expiry_days, now_millis),
            r.0.enable,
            r.0.tg_id@ == decimal(telegram_user_id as nat),
            r.0.reset == 0,
            r.1@.query == (QueryModel {
                base_url: self.config.base_url@,
                inbound_id: self.config.inbound_id,
                email: r.0.email@,
                client_uuid: r.0.id@,
                sub_id: r.0.sub_id@,
                ranked: false,
            }),
            r.1@.phase == AddPhase::Added,
    {
        let expiry_time: i64 = expiry_time(self.config.expiry_days, now_millis);
        self.add_client_as(
            telegram_user_id,
            custom_email,
            new_uuid(),
            new_uuid(),
            expiry_time,
            false,
        )
    }
}

} // verus!
