//! Clients: finding, creating and deleting them.

use vstd::prelude::*;
use vstd::utf8::encode_utf8;

use crate::config::{AuthModel, PanelAuth, PanelConfig, PanelModel};
use crate::json::{
    array_field, every_entry_is_a_field, first_difference_decides, int_field, number_of, push_value,
    uint_field, JsonModel,
};
use crate::outside::{
    is_lower_hex, is_uuid_v4, keys_ascend, new_simple_uuid, new_uuid, percent_encoded,
    percent_encoded_byte, url_encode, value_entries, value_model, value_of_bool, value_of_entries,
    value_of_i64, value_of_items, value_of_text, value_of_u64,
};
use crate::text::chars::{chars_of, string_of, text_eq};

use super::login::{normalize_login, normalized};
use super::models::{client_models, copy_ids, Client, ClientModel};

verus! {

/// The bytes of a gigabyte.
pub const GIGABYTE: u64 = 0x4000_0000;

/// The characters of a subscription's identifier.
pub const SUB_ID_LEN: usize = 16;

/// The panel of one configuration.
#[derive(Debug)]
pub struct Panel {
    pub config: PanelConfig,
}

/// The first client with that login.
pub open spec fn client_of(clients: Seq<ClientModel>, login: Seq<char>) -> Option<ClientModel>
    decreases clients.len(),
{
    if clients.len() == 0 {
        None
    } else if normalized(clients[0].login) == normalized(login) {
        Some(clients[0])
    } else {
        client_of(clients.drop_first(), login)
    }
}

/// Where the subscription of a client is served.
pub open spec fn subscription_address(base: Seq<char>, sub_id: Seq<char>) -> Seq<char> {
    base + percent_encoded(encode_utf8(sub_id))
}

/// The character may stand in a segment of a path: a letter, a digit, one of a few signs, or `%`.
pub open spec fn is_path_safe(c: char) -> bool {
    ('0' <= c && c <= '9') || ('A' <= c && c <= 'Z') || ('a' <= c && c <= 'z') || c == '-' || c
        == '.' || c == '_' || c == '~' || c == '%'
}

/// What is encoded stays in its segment of a path: no login and no identifier can lead elsewhere.
pub proof fn encoded_stays_in_its_segment(bytes: Seq<u8>)
    ensures
        forall|i: int|
            0 <= i < percent_encoded(bytes).len() ==> is_path_safe(
                #[trigger] percent_encoded(bytes)[i],
            ),
    decreases bytes.len(),
{
    if bytes.len() > 0 {
        encoded_stays_in_its_segment(bytes.drop_last());
        let head = percent_encoded(bytes.drop_last());
        let last = percent_encoded_byte(bytes.last());
        assert forall|i: int| 0 <= i < percent_encoded(bytes).len() implies is_path_safe(
            #[trigger] percent_encoded(bytes)[i],
        ) by {
            if i < head.len() {
                assert(percent_encoded(bytes)[i] == head[i]);
            } else {
                assert(percent_encoded(bytes)[i] == last[i - head.len()]);
            }
        }
    }
}

/// A client as it is sent to the panel.
#[derive(Debug)]
pub struct NewClient {
    pub email: String,
    pub id: String,
    pub sub_id: String,
    pub flow: String,
    pub total_bytes: u64,
    pub expiry_time: i64,
    pub limit_ip: i64,
    pub tg_id: u64,
    pub comment: String,
    pub enable: bool,
    pub reset: i64,
    pub inbound_ids: Vec<i64>,
}

/// What a new client is.
pub struct NewClientModel {
    pub email: Seq<char>,
    pub id: Seq<char>,
    pub sub_id: Seq<char>,
    pub flow: Seq<char>,
    pub total_bytes: u64,
    pub expiry_time: i64,
    pub limit_ip: i64,
    pub tg_id: u64,
    pub comment: Seq<char>,
    pub enable: bool,
    pub reset: i64,
    pub inbound_ids: Seq<i64>,
}

impl View for NewClient {
    type V = NewClientModel;

    open spec fn view(&self) -> NewClientModel {
        NewClientModel {
            email: self.email@,
            id: self.id@,
            sub_id: self.sub_id@,
            flow: self.flow@,
            total_bytes: self.total_bytes,
            expiry_time: self.expiry_time,
            limit_ip: self.limit_ip,
            tg_id: self.tg_id,
            comment: self.comment@,
            enable: self.enable,
            reset: self.reset,
            inbound_ids: self.inbound_ids@,
        }
    }
}

/// What a request says of a new client, in the order of the keys.
pub open spec fn client_entries(client: NewClientModel) -> Seq<(Seq<char>, JsonModel)> {
    seq![
        ("comment"@, JsonModel::Str(client.comment)),
        ("email"@, JsonModel::Str(client.email)),
        ("enable"@, JsonModel::Bool(client.enable)),
        ("expiryTime"@, number_of(client.expiry_time as int)),
        ("flow"@, JsonModel::Str(client.flow)),
        ("id"@, JsonModel::Str(client.id)),
        ("limitIp"@, number_of(client.limit_ip as int)),
        ("reset"@, number_of(client.reset as int)),
        ("subId"@, JsonModel::Str(client.sub_id)),
        ("tgId"@, number_of(client.tg_id as int)),
        ("totalGB"@, number_of(client.total_bytes as int)),
    ]
}

/// The body of the request that adds a client: the client, and the inbounds that it goes to.
pub open spec fn body_entries(client: NewClientModel) -> Seq<(Seq<char>, JsonModel)> {
    seq![
        ("client"@, JsonModel::Object(client_entries(client))),
        (
            "inboundIds"@,
            JsonModel::Array(client.inbound_ids.map_values(|id: i64| number_of(id as int))),
        ),
    ]
}

proof fn client_keys_ascend(client: NewClientModel)
    ensures
        keys_ascend(client_entries(client)),
        keys_ascend(body_entries(client)),
{
    reveal_strlit("comment");
    reveal_strlit("email");
    reveal_strlit("enable");
    reveal_strlit("expiryTime");
    reveal_strlit("flow");
    reveal_strlit("id");
    reveal_strlit("limitIp");
    reveal_strlit("reset");
    reveal_strlit("subId");
    reveal_strlit("tgId");
    reveal_strlit("totalGB");
    reveal_strlit("client");
    reveal_strlit("inboundIds");
    first_difference_decides("comment"@, "email"@, 0);
    first_difference_decides("email"@, "enable"@, 1);
    first_difference_decides("enable"@, "expiryTime"@, 1);
    first_difference_decides("expiryTime"@, "flow"@, 0);
    first_difference_decides("flow"@, "id"@, 0);
    first_difference_decides("id"@, "limitIp"@, 0);
    first_difference_decides("limitIp"@, "reset"@, 0);
    first_difference_decides("reset"@, "subId"@, 0);
    first_difference_decides("subId"@, "tgId"@, 0);
    first_difference_decides("tgId"@, "totalGB"@, 1);
    first_difference_decides("client"@, "inboundIds"@, 0);
}

/// What is sent of a new client says everything of it, each thing under the key of the panel, and
/// the inbounds beside it.
pub proof fn client_is_sent_whole(client: NewClientModel)
    ensures
        ({
            let sent = JsonModel::Object(client_entries(client));
            &&& sent.field("email"@) == Some(JsonModel::Str(client.email))
            &&& sent.field("id"@) == Some(JsonModel::Str(client.id))
            &&& sent.field("subId"@) == Some(JsonModel::Str(client.sub_id))
            &&& sent.field("flow"@) == Some(JsonModel::Str(client.flow))
            &&& sent.field("comment"@) == Some(JsonModel::Str(client.comment))
            &&& sent.field("enable"@) == Some(JsonModel::Bool(client.enable))
            &&& int_field(sent, "expiryTime"@) == Some(client.expiry_time)
            &&& int_field(sent, "limitIp"@) == Some(client.limit_ip)
            &&& int_field(sent, "reset"@) == Some(client.reset)
            &&& uint_field(sent, "tgId"@) == Some(client.tg_id)
            &&& uint_field(sent, "totalGB"@) == Some(client.total_bytes)
            &&& JsonModel::Object(body_entries(client)).field("client"@) == Some(sent)
            &&& array_field(JsonModel::Object(body_entries(client)), "inboundIds"@) matches Some(ids)
            &&& ids.len() == client.inbound_ids.len()
            &&& forall|i: int|
                0 <= i < ids.len() ==> (#[trigger] ids[i]).as_i64() == Some(client.inbound_ids[i])
        }),
{
    client_keys_ascend(client);
    let entries = client_entries(client);
    every_entry_is_a_field(entries, 0);
    every_entry_is_a_field(entries, 1);
    every_entry_is_a_field(entries, 2);
    every_entry_is_a_field(entries, 3);
    every_entry_is_a_field(entries, 4);
    every_entry_is_a_field(entries, 5);
    every_entry_is_a_field(entries, 6);
    every_entry_is_a_field(entries, 7);
    every_entry_is_a_field(entries, 8);
    every_entry_is_a_field(entries, 9);
    every_entry_is_a_field(entries, 10);
    every_entry_is_a_field(body_entries(client), 0);
    every_entry_is_a_field(body_entries(client), 1);
}

fn numbers(ids: &Vec<i64>) -> (r: serde_json::Value)
    ensures
        value_model(r) == JsonModel::Array(ids@.map_values(|id: i64| number_of(id as int))),
{
    let ghost model = |v: serde_json::Value| value_model(v);
    let ghost all = ids@.map_values(|id: i64| number_of(id as int));
    let mut items: Vec<serde_json::Value> = Vec::new();
    let mut i: usize = 0;
    assert(items@.map_values(model) =~= all.take(0));
    while i < ids.len()
        invariant
            i <= ids@.len(),
            model == |v: serde_json::Value| value_model(v),
            all == ids@.map_values(|id: i64| number_of(id as int)),
            items@.map_values(model) == all.take(i as int),
        decreases ids@.len() - i,
    {
        let ghost before = items@;
        let item = value_of_i64(ids[i]);
        items.push(item);
        assert(items@.map_values(model) =~= before.map_values(model).push(value_model(item)));
        assert(all.take(i + 1) =~= all.take(i as int).push(all[i as int]));
        i = i + 1;
    }
    assert(all.take(i as int) =~= all);
    value_of_items(items)
}

impl NewClient {
    /// The body of the request that adds the client.
    pub fn body(&self) -> (r: serde_json::Value)
        ensures
            value_model(r) == JsonModel::Object(body_entries(self@)),
    {
        proof {
            client_keys_ascend(self@);
        }
        let mut fields: Vec<(String, serde_json::Value)> = Vec::new();
        assert(value_entries(fields@) =~= seq![]);
        push_value(&mut fields, "comment", value_of_text(&self.comment));
        push_value(&mut fields, "email", value_of_text(&self.email));
        push_value(&mut fields, "enable", value_of_bool(self.enable));
        push_value(&mut fields, "expiryTime", value_of_i64(self.expiry_time));
        push_value(&mut fields, "flow", value_of_text(&self.flow));
        push_value(&mut fields, "id", value_of_text(&self.id));
        push_value(&mut fields, "limitIp", value_of_i64(self.limit_ip));
        push_value(&mut fields, "reset", value_of_i64(self.reset));
        push_value(&mut fields, "subId", value_of_text(&self.sub_id));
        push_value(&mut fields, "tgId", value_of_u64(self.tg_id));
        push_value(&mut fields, "totalGB", value_of_u64(self.total_bytes));
        assert(value_entries(fields@) =~= client_entries(self@));
        let mut body: Vec<(String, serde_json::Value)> = Vec::new();
        assert(value_entries(body@) =~= seq![]);
        push_value(&mut body, "client", value_of_entries(fields));
        push_value(&mut body, "inboundIds", numbers(&self.inbound_ids));
        assert(value_entries(body@) =~= body_entries(self@));
        value_of_entries(body)
    }
}

impl PanelModel {
    /// The quota of a new client fits.
    pub open spec fn quota_fits(self) -> bool {
        self.total_gb * GIGABYTE <= u64::MAX
    }

    /// The client that is created for a login: enabled, without an end, on all inbounds.
    pub open spec fn new_client(
        self,
        login: Seq<char>,
        telegram_user_id: u64,
        id: Seq<char>,
        sub_id: Seq<char>,
    ) -> NewClientModel {
        NewClientModel {
            email: normalized(login),
            id,
            sub_id,
            flow: self.client_flow,
            total_bytes: (self.total_gb * GIGABYTE) as u64,
            expiry_time: 0,
            limit_ip: 0,
            tg_id: telegram_user_id,
            comment: ""@,
            enable: true,
            reset: 0,
            inbound_ids: self.inbound_ids,
        }
    }
}

/// A new client has the login in lower case and without `@`, is enabled on every configured inbound
/// without an end, belongs to the Telegram user, and has the configured traffic: no limit for 0, and
/// as many gigabytes otherwise.
pub proof fn new_client_is_as_configured(
    config: PanelModel,
    login: Seq<char>,
    telegram_user_id: u64,
    id: Seq<char>,
    sub_id: Seq<char>,
)
    requires
        config.quota_fits(),
    ensures
        ({
            let client = config.new_client(login, telegram_user_id, id, sub_id);
            &&& client.email == normalized(login)
            &&& client.id == id
            &&& client.sub_id == sub_id
            &&& client.tg_id == telegram_user_id
            &&& client.enable
            &&& client.expiry_time == 0
            &&& client.limit_ip == 0
            &&& client.reset == 0
            &&& client.comment.len() == 0
            &&& client.flow == config.client_flow
            &&& client.inbound_ids == config.inbound_ids
            &&& client.total_bytes == config.total_gb * 1024 * 1024 * 1024
        }),
{
    reveal_strlit("");
}

/// The address of a subscription is the base and then the identifier, percent-encoded.
pub proof fn address_ends_in_the_identifier(base: Seq<char>, sub_id: Seq<char>)
    ensures
        base.is_prefix_of(subscription_address(base, sub_id)),
        subscription_address(base, sub_id).skip(base.len() as int) == percent_encoded(
            encode_utf8(sub_id),
        ),
{
    let rest = percent_encoded(encode_utf8(sub_id));
    assert(base =~= (base + rest).subrange(0, base.len() as int));
    assert((base + rest).skip(base.len() as int) =~= rest);
}

/// The outcome of a look at the clients, as a model.
pub open spec fn found_model(r: Option<Client>) -> Option<ClientModel> {
    match r {
        Some(client) => Some(client@),
        None => None,
    }
}

/// The first client with that login.
pub fn find_client(clients: &Vec<Client>, login: &str) -> (r: Option<Client>)
    ensures
        found_model(r) == client_of(client_models(clients@), login@),
{
    let ghost all = client_models(clients@);
    let wanted = normalize_login(login);
    assert(all.skip(0) =~= all);
    let mut i: usize = 0;
    while i < clients.len()
        invariant
            i <= clients@.len(),
            all == client_models(clients@),
            wanted@ == normalized(login@),
            client_of(all, login@) == client_of(all.skip(i as int), login@),
        decreases clients@.len() - i,
    {
        assert(all.skip(i as int)[0] == clients@[i as int]@);
        if text_eq(&normalize_login(&clients[i].login), &wanted) {
            return Some(clients[i].copy());
        }
        assert(all.skip(i as int).drop_first() =~= all.skip(i + 1));
        i = i + 1;
    }
    None
}

/// A login finds the client that has it, however the letters are written.
pub proof fn same_login_finds_same_client(
    clients: Seq<ClientModel>,
    login: Seq<char>,
    other: Seq<char>,
)
    requires
        normalized(login) == normalized(other),
    ensures
        client_of(clients, login) == client_of(clients, other),
    decreases clients.len(),
{
    if clients.len() > 0 {
        same_login_finds_same_client(clients.drop_first(), login, other);
    }
}

/// The first client with a login is the one that is found.
pub proof fn first_client_is_found(clients: Seq<ClientModel>, login: Seq<char>, i: int)
    requires
        0 <= i <= clients.len(),
        i < clients.len() ==> normalized(clients[i].login) == normalized(login),
        forall|j: int| 0 <= j < i ==> normalized((#[trigger] clients[j]).login) != normalized(login),
    ensures
        client_of(clients, login) == if i < clients.len() {
            Some(clients[i])
        } else {
            None
        },
    decreases clients.len(),
{
    if i > 0 {
        assert(normalized(clients[0].login) != normalized(login));
        let rest = clients.drop_first();
        assert forall|j: int| 0 <= j < i - 1 implies normalized((#[trigger] rest[j]).login)
            != normalized(login) by {
            assert(rest[j] == clients[j + 1]);
        }
        first_client_is_found(rest, login, i - 1);
    }
}

/// A client is found exactly where one of the clients has that login, and what is found has it.
pub proof fn found_client_has_the_login(clients: Seq<ClientModel>, login: Seq<char>)
    ensures
        client_of(clients, login) is Some <==> exists|i: int|
            0 <= i < clients.len() && normalized((#[trigger] clients[i]).login) == normalized(login),
        client_of(clients, login) matches Some(client) ==> normalized(client.login) == normalized(
            login,
        ) && clients.contains(client),
    decreases clients.len(),
{
    if clients.len() > 0 {
        let rest = clients.drop_first();
        found_client_has_the_login(rest, login);
        if normalized(clients[0].login) == normalized(login) {
            assert(clients[0] == client_of(clients, login)->0);
        } else {
            assert(client_of(clients, login) == client_of(rest, login));
            if let Some(client) = client_of(rest, login) {
                let k = choose|k: int| 0 <= k < rest.len() && rest[k] == client;
                assert(clients[k + 1] == client);
            }
            if exists|i: int|
                0 <= i < clients.len() && normalized((#[trigger] clients[i]).login) == normalized(
                    login,
                ) {
                let i = choose|i: int|
                    0 <= i < clients.len() && normalized((#[trigger] clients[i]).login)
                        == normalized(login);
                assert(rest[i - 1] == clients[i]);
            }
        }
    }
}

/// What a creation waits for.
#[derive(Debug, Clone, Copy, PartialEq, Eq, Structural)]
pub enum CreatePhase {
    /// The clients, before anything is added.
    Look,
    /// The addition.
    Add,
    /// The clients, after the addition.
    Confirm,
    /// Nothing: it is over.
    Closed,
}

/// What comes of a request.
#[derive(Debug)]
pub enum CreateEvent {
    Clients(Vec<Client>),
    Added,
    Failed(String),
}

/// What to do next.
#[derive(Debug)]
pub enum CreateAction {
    /// Send the new client.
    Send,
    /// Ask for the clients.
    Ask,
    /// It is over: this is the client.
    Done(Client),
    /// It is over, with this error.
    Fail(String),
}

/// What comes of a request.
pub enum CreateEventModel {
    Clients(Seq<ClientModel>),
    Added,
    Failed(Seq<char>),
}

/// What is to be done next.
pub enum CreateOutcome {
    Send,
    Ask,
    Done(ClientModel),
    Fail(Seq<char>),
}

impl View for CreateEvent {
    type V = CreateEventModel;

    open spec fn view(&self) -> CreateEventModel {
        match self {
            CreateEvent::Clients(clients) => CreateEventModel::Clients(client_models(clients@)),
            CreateEvent::Added => CreateEventModel::Added,
            CreateEvent::Failed(e) => CreateEventModel::Failed(e@),
        }
    }
}

impl View for CreateAction {
    type V = CreateOutcome;

    open spec fn view(&self) -> CreateOutcome {
        match self {
            CreateAction::Send => CreateOutcome::Send,
            CreateAction::Ask => CreateOutcome::Ask,
            CreateAction::Done(client) => CreateOutcome::Done(client@),
            CreateAction::Fail(e) => CreateOutcome::Fail(e@),
        }
    }
}

/// The creation of a client for a login.
#[derive(Debug)]
pub struct CreateRun {
    pub login: String,
    pub telegram_user_id: u64,
    pub phase: CreatePhase,
}

/// The event is one that the phase waits for.
pub open spec fn fits_phase(phase: CreatePhase, event: CreateEventModel) -> bool {
    match event {
        CreateEventModel::Clients(_) => phase == CreatePhase::Look || phase == CreatePhase::Confirm,
        CreateEventModel::Added => phase == CreatePhase::Add,
        CreateEventModel::Failed(_) => phase != CreatePhase::Closed,
    }
}

/// A creation waits for the clients before and after it, and for the addition in between; a failure
/// can come at any time, and in the end nothing can.
pub proof fn creation_waits_for_what_it_asked_for(
    clients: Seq<ClientModel>,
    cause: Seq<char>,
    event: CreateEventModel,
)
    ensures
        fits_phase(CreatePhase::Look, CreateEventModel::Clients(clients)),
        fits_phase(CreatePhase::Confirm, CreateEventModel::Clients(clients)),
        !fits_phase(CreatePhase::Add, CreateEventModel::Clients(clients)),
        fits_phase(CreatePhase::Add, CreateEventModel::Added),
        !fits_phase(CreatePhase::Look, CreateEventModel::Added),
        !fits_phase(CreatePhase::Confirm, CreateEventModel::Added),
        fits_phase(CreatePhase::Look, CreateEventModel::Failed(cause)),
        fits_phase(CreatePhase::Add, CreateEventModel::Failed(cause)),
        fits_phase(CreatePhase::Confirm, CreateEventModel::Failed(cause)),
        !fits_phase(CreatePhase::Closed, event),
{
}

/// The phase after an event, and what is to be done next: a client that exists already is not
/// created again, and one that was created is looked up under the name that it got.
pub open spec fn create_step(
    phase: CreatePhase,
    login: Seq<char>,
    email: Seq<char>,
    event: CreateEventModel,
) -> (CreatePhase, CreateOutcome) {
    match event {
        CreateEventModel::Failed(e) => (
            CreatePhase::Closed,
            CreateOutcome::Fail(
                if phase == CreatePhase::Add {
                    "clients/add failed: "@ + e
                } else {
                    e
                },
            ),
        ),
        CreateEventModel::Added => (CreatePhase::Confirm, CreateOutcome::Ask),
        CreateEventModel::Clients(clients) => if phase == CreatePhase::Look {
            match client_of(clients, login) {
                Some(client) => (CreatePhase::Closed, CreateOutcome::Done(client)),
                None => (CreatePhase::Add, CreateOutcome::Send),
            }
        } else {
            match client_of(clients, email) {
                Some(client) => (CreatePhase::Closed, CreateOutcome::Done(client)),
                None => (
                    CreatePhase::Closed,
                    CreateOutcome::Fail(
                        "client `"@ + email + "` not found right after creation"@,
                    ),
                ),
            }
        },
    }
}

/// A client that exists is returned as it is, and nothing is sent.
pub proof fn existing_client_is_kept(
    clients: Seq<ClientModel>,
    login: Seq<char>,
    email: Seq<char>,
)
    requires
        client_of(clients, login) is Some,
    ensures
        create_step(CreatePhase::Look, login, email, CreateEventModel::Clients(clients)).1
            == CreateOutcome::Done(client_of(clients, login)->0),
{
}

/// A client that is sent is one that the panel did not have.
pub proof fn only_new_clients_are_sent(
    phase: CreatePhase,
    login: Seq<char>,
    email: Seq<char>,
    event: CreateEventModel,
)
    requires
        fits_phase(phase, event),
        create_step(phase, login, email, event).1 is Send,
    ensures
        phase == CreatePhase::Look,
        event matches CreateEventModel::Clients(clients) && client_of(clients, login) is None,
{
}

/// A creation looks first, adds what is missing, looks again for the normalized login, and ends
/// with the client that is found then; a client that is not there then, and every failure, is an
/// error that says so.
pub proof fn creation_ends_with_the_client(
    login: Seq<char>,
    before: Seq<ClientModel>,
    after: Seq<ClientModel>,
    cause: Seq<char>,
)
    requires
        client_of(before, login) is None,
    ensures
        ({
            let email = normalized(login);
            let found = client_of(after, email);
            &&& create_step(CreatePhase::Look, login, email, CreateEventModel::Clients(before)) == (
                CreatePhase::Add,
                CreateOutcome::Send,
            )
            &&& create_step(CreatePhase::Add, login, email, CreateEventModel::Added) == (
                CreatePhase::Confirm,
                CreateOutcome::Ask,
            )
            &&& (found matches Some(client) ==> create_step(
                CreatePhase::Confirm,
                login,
                email,
                CreateEventModel::Clients(after),
            ) == (CreatePhase::Closed, CreateOutcome::Done(client)))
            &&& (found is None ==> create_step(
                CreatePhase::Confirm,
                login,
                email,
                CreateEventModel::Clients(after),
            ) == (
                CreatePhase::Closed,
                CreateOutcome::Fail("client `"@ + email + "` not found right after creation"@),
            ))
            &&& create_step(CreatePhase::Add, login, email, CreateEventModel::Failed(cause)) == (
                CreatePhase::Closed,
                CreateOutcome::Fail("clients/add failed: "@ + cause),
            )
            &&& create_step(CreatePhase::Look, login, email, CreateEventModel::Failed(cause)) == (
                CreatePhase::Closed,
                CreateOutcome::Fail(cause),
            )
            &&& create_step(CreatePhase::Confirm, login, email, CreateEventModel::Failed(cause))
                == (CreatePhase::Closed, CreateOutcome::Fail(cause))
        }),
{
}

impl CreateRun {
    /// Takes the event in, and says what to do next.
    pub fn step(&mut self, event: CreateEvent) -> (r: CreateAction)
        requires
            fits_phase(old(self).phase, event@),
        ensures
            final(self).login == old(self).login,
            final(self).telegram_user_id == old(self).telegram_user_id,
            (final(self).phase, r@) == create_step(
                old(self).phase,
                old(self).login@,
                normalized(old(self).login@),
                event@,
            ),
    {
        match event {
            CreateEvent::Failed(e) => {
                let adding = match self.phase {
                    CreatePhase::Add => true,
                    _ => false,
                };
                self.phase = CreatePhase::Closed;
                if adding {
                    let mut text = "clients/add failed: ".to_string();
                    text.append(&e);
                    CreateAction::Fail(text)
                } else {
                    CreateAction::Fail(e)
                }
            },
            CreateEvent::Added => {
                self.phase = CreatePhase::Confirm;
                CreateAction::Ask
            },
            CreateEvent::Clients(clients) => match self.phase {
                CreatePhase::Look => match find_client(&clients, &self.login) {
                    Some(client) => {
                        self.phase = CreatePhase::Closed;
                        CreateAction::Done(client)
                    },
                    None => {
                        self.phase = CreatePhase::Add;
                        CreateAction::Send
                    },
                },
                _ => {
                    self.phase = CreatePhase::Closed;
                    let email = normalize_login(&self.login);
                    match find_client(&clients, &email) {
                        Some(client) => CreateAction::Done(client),
                        None => {
                            let mut text = "client `".to_string();
                            text.append(&email);
                            text.append("` not found right after creation");
                            CreateAction::Fail(text)
                        },
                    }
                },
            },
        }
    }
}

impl Panel {
    /// The panel of this configuration.
    pub fn new(config: PanelConfig) -> (r: Panel)
        ensures
            r.config == config,
    {
        Panel { config }
    }

    /// Where the subscription of a client is served.
    pub fn subscription_url(&self, client: &Client) -> (r: String)
        ensures
            r@ == subscription_address(self.config@.subscription_base_url, client@.sub_id),
    {
        let mut url = self.config.subscription_base_url.clone();
        url.append(&url_encode(&client.sub_id));
        url
    }

    /// The client that is created for a login, with the given identifiers.
    pub fn new_client_as(
        &self,
        login: &str,
        telegram_user_id: u64,
        id: String,
        sub_id: String,
    ) -> (r: NewClient)
        requires
            self.config@.quota_fits(),
        ensures
            r@ == self.config@.new_client(login@, telegram_user_id, id@, sub_id@),
    {
        NewClient {
            email: normalize_login(login),
            id,
            sub_id,
            flow: self.config.client_flow.clone(),
            total_bytes: self.config.total_gb * GIGABYTE,
            expiry_time: 0,
            limit_ip: 0,
            tg_id: telegram_user_id,
            comment: "".to_string(),
            enable: true,
            reset: 0,
            inbound_ids: copy_ids(&self.config.inbound_ids),
        }
    }

    /// The creation of a client for a login; the clients are to be asked for first.
    pub fn create_client(&self, login: &str, telegram_user_id: u64) -> (r: CreateRun)
        ensures
            r.phase == CreatePhase::Look,
            r.login@ == login@,
            r.telegram_user_id == telegram_user_id,
    {
        CreateRun { login: login.to_string(), telegram_user_id, phase: CreatePhase::Look }
    }

    /// The client that a creation sends, with fresh identifiers.
    pub fn new_client(&self, run: &CreateRun) -> (r: NewClient)
        requires
            self.config@.quota_fits(),
        ensures
            is_uuid_v4(r@.id),
            r@.sub_id.len() == SUB_ID_LEN,
            forall|i: int| 0 <= i < SUB_ID_LEN ==> is_lower_hex(#[trigger] r@.sub_id[i]),
            r@ == self.config@.new_client(run.login@, run.telegram_user_id, r@.id, r@.sub_id),
    {
        let id = new_uuid();
        let digits = chars_of(&new_simple_uuid());
        let sub_id = string_of(&digits, 0, SUB_ID_LEN);
        self.new_client_as(&run.login, run.telegram_user_id, id, sub_id)
    }

    /// Where a client is deleted, if there is one with that login.
    pub fn delete_path(&self, clients: &Vec<Client>, login: &str) -> (r: Option<String>)
        ensures
            r.deep_view() == match client_of(client_models(clients@), login@) {
                Some(client) => Some(
                    "/panel/api/clients/del/"@ + percent_encoded(encode_utf8(client.login)),
                ),
                None => None,
            },
    {
        match find_client(clients, login) {
            Some(client) => {
                let mut path = "/panel/api/clients/del/".to_string();
                path.append(&url_encode(&client.login));
                Some(path)
            },
            None => None,
        }
    }

    /// Whether the panel is asked in a session.
    pub fn uses_session(&self) -> (r: bool)
        ensures
            r == (self.config@.auth is Password),
    {
        match &self.config.auth {
            PanelAuth::Token(_) => false,
            PanelAuth::Password { username: _, password: _ } => true,
        }
    }

    /// Where the panel is asked.
    pub fn url(&self, path: &str) -> (r: String)
        ensures
            r@ == self.config@.base_url + path@,
    {
        let mut url = self.config.base_url.clone();
        url.append(path);
        url
    }

    /// What is sent as authorization, if anything.
    pub fn authorization(&self) -> (r: Option<String>)
        ensures
            r.deep_view() == match self.config@.auth {
                AuthModel::Token(token) => Some("Bearer "@ + token),
                _ => None,
            },
    {
        match &self.config.auth {
            PanelAuth::Token(token) => {
                let mut value = "Bearer ".to_string();
                value.append(token);
                Some(value)
            },
            PanelAuth::Password { username: _, password: _ } => None,
        }
    }
}

} // verus!
