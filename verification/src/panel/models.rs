//! What the panel answers.

use vstd::prelude::*;

use crate::json::{json_of_value, str_field, uint_field, Json, JsonModel};
use crate::outside::value_model;

verus! {

/// A client of the panel, which calls the login an e-mail.
#[derive(Debug)]
pub struct Client {
    pub login: String,
    pub sub_id: String,
    pub tg_id: i64,
    pub enabled: bool,
    /// Unix milliseconds; 0 or less stands for no end.
    pub expiry_time: i64,
    pub inbound_ids: Vec<i64>,
}

/// What a client is.
#[verifier::ext_equal]
pub struct ClientModel {
    pub login: Seq<char>,
    pub sub_id: Seq<char>,
    pub tg_id: i64,
    pub enabled: bool,
    pub expiry_time: i64,
    pub inbound_ids: Seq<i64>,
}

impl View for Client {
    type V = ClientModel;

    open spec fn view(&self) -> ClientModel {
        ClientModel {
            login: self.login@,
            sub_id: self.sub_id@,
            tg_id: self.tg_id,
            enabled: self.enabled,
            expiry_time: self.expiry_time,
            inbound_ids: self.inbound_ids@,
        }
    }
}

/// Clients as models.
pub open spec fn client_models(clients: Seq<Client>) -> Seq<ClientModel> {
    Seq::new(clients.len(), |i: int| clients[i]@)
}

impl ClientModel {
    /// The chat with the client, where its Telegram identifier is one.
    pub open spec fn chat(self) -> Option<i64> {
        if self.tg_id > 0 {
            Some(self.tg_id)
        } else {
            None
        }
    }
}

/// The same numbers.
pub(crate) fn copy_ids(ids: &Vec<i64>) -> (r: Vec<i64>)
    ensures
        r@ == ids@,
{
    let mut out: Vec<i64> = Vec::new();
    let mut i: usize = 0;
    while i < ids.len()
        invariant
            i <= ids@.len(),
            out@ == ids@.take(i as int),
        decreases ids@.len() - i,
    {
        out.push(ids[i]);
        assert(ids@.take(i + 1) =~= ids@.take(i as int).push(ids@[i as int]));
        i = i + 1;
    }
    assert(out@ =~= ids@);
    out
}

impl Client {
    /// The chat with the client, where its Telegram identifier is one.
    pub fn telegram_chat_id(&self) -> (r: Option<i64>)
        ensures
            r == self@.chat(),
    {
        if self.tg_id > 0 {
            Some(self.tg_id)
        } else {
            None
        }
    }

    /// A client with the same contents.
    pub fn copy(&self) -> (r: Client)
        ensures
            r@ == self@,
    {
        Client {
            login: self.login.clone(),
            sub_id: self.sub_id.clone(),
            tg_id: self.tg_id,
            enabled: self.enabled,
            expiry_time: self.expiry_time,
            inbound_ids: copy_ids(&self.inbound_ids),
        }
    }
}

/// An inbound and its traffic.
#[derive(Debug)]
pub struct Inbound {
    pub id: i64,
    pub remark: String,
    pub enabled: bool,
    pub up: u64,
    pub down: u64,
}

/// What an inbound is.
pub struct InboundModel {
    pub id: i64,
    pub remark: Seq<char>,
    pub enabled: bool,
    pub up: u64,
    pub down: u64,
}

impl View for Inbound {
    type V = InboundModel;

    open spec fn view(&self) -> InboundModel {
        InboundModel {
            id: self.id,
            remark: self.remark@,
            enabled: self.enabled,
            up: self.up,
            down: self.down,
        }
    }
}

/// Inbounds as models.
pub open spec fn inbound_models(inbounds: Seq<Inbound>) -> Seq<InboundModel> {
    Seq::new(inbounds.len(), |i: int| inbounds[i]@)
}

/// The load of the exit server. The processor's load is given as text.
#[derive(Debug)]
pub struct ServerStatus {
    pub cpu_percent: String,
    pub mem_used: u64,
    pub mem_total: u64,
    pub disk_used: u64,
    pub disk_total: u64,
    pub uptime_secs: u64,
    pub xray_state: Option<String>,
}

/// What the load of the exit server is.
pub struct StatusModel {
    pub cpu_percent: Seq<char>,
    pub mem_used: u64,
    pub mem_total: u64,
    pub disk_used: u64,
    pub disk_total: u64,
    pub uptime_secs: u64,
    pub xray_state: Option<Seq<char>>,
}

impl View for ServerStatus {
    type V = StatusModel;

    open spec fn view(&self) -> StatusModel {
        StatusModel {
            cpu_percent: self.cpu_percent@,
            mem_used: self.mem_used,
            mem_total: self.mem_total,
            disk_used: self.disk_used,
            disk_total: self.disk_total,
            uptime_secs: self.uptime_secs,
            xray_state: self.xray_state.deep_view(),
        }
    }
}

/// The number in a field of a field, 0 where there is none.
pub open spec fn nested_number(obj: JsonModel, outer: Seq<char>, inner: Seq<char>) -> u64 {
    match obj.field(outer) {
        Some(v) => number_or_zero(uint_field(v, inner)),
        None => 0,
    }
}

/// The number, 0 where there is none.
pub open spec fn number_or_zero(n: Option<u64>) -> u64 {
    match n {
        Some(n) => n,
        None => 0,
    }
}

/// The load that the panel reports.
pub open spec fn status_in(obj: JsonModel, cpu_percent: Seq<char>) -> StatusModel {
    StatusModel {
        cpu_percent,
        mem_used: nested_number(obj, "mem"@, "current"@),
        mem_total: nested_number(obj, "mem"@, "total"@),
        disk_used: nested_number(obj, "disk"@, "current"@),
        disk_total: nested_number(obj, "disk"@, "total"@),
        uptime_secs: number_or_zero(uint_field(obj, "uptime"@)),
        xray_state: match obj.field("xray"@) {
            Some(xray) => str_field(xray, "state"@),
            None => None,
        },
    }
}

/// The load is read from the fields that the panel reports it in; what is missing counts as nothing.
pub proof fn load_is_what_the_panel_reports(obj: JsonModel, cpu_percent: Seq<char>)
    ensures
        ({
            let load = status_in(obj, cpu_percent);
            &&& load.cpu_percent == cpu_percent
            &&& (obj.field("mem"@) matches Some(mem) ==> {
                &&& (uint_field(mem, "current"@) matches Some(n) ==> load.mem_used == n)
                &&& (uint_field(mem, "total"@) matches Some(n) ==> load.mem_total == n)
            })
            &&& (obj.field("disk"@) matches Some(disk) ==> {
                &&& (uint_field(disk, "current"@) matches Some(n) ==> load.disk_used == n)
                &&& (uint_field(disk, "total"@) matches Some(n) ==> load.disk_total == n)
            })
            &&& (uint_field(obj, "uptime"@) matches Some(n) ==> load.uptime_secs == n)
            &&& (obj.field("xray"@) matches Some(xray) ==> load.xray_state == str_field(
                xray,
                "state"@,
            ))
            &&& (obj.field("mem"@) is None ==> load.mem_used == 0 && load.mem_total == 0)
            &&& (obj.field("disk"@) is None ==> load.disk_used == 0 && load.disk_total == 0)
            &&& (uint_field(obj, "uptime"@) is None ==> load.uptime_secs == 0)
            &&& (obj.field("xray"@) is None ==> load.xray_state is None)
        }),
{
}

/// A chat is a Telegram identifier above zero.
pub proof fn chats_are_positive(client: ClientModel)
    ensures
        client.tg_id > 0 ==> client.chat() == Some(client.tg_id),
        client.tg_id <= 0 ==> client.chat() is None,
{
}

fn nested(obj: &Json, outer: &str, inner: &str) -> (r: u64)
    ensures
        r == nested_number(obj@, outer@, inner@),
{
    match obj.field(outer) {
        Some(v) => match v.uint_field(inner) {
            Some(n) => n,
            None => 0,
        },
        None => 0,
    }
}

impl ServerStatus {
    /// The load that the panel reports.
    pub fn from_json(obj: &Json, cpu_percent: String) -> (r: ServerStatus)
        ensures
            r@ == status_in(obj@, cpu_percent@),
    {
        let uptime_secs: u64 = match obj.uint_field("uptime") {
            Some(n) => n,
            None => 0,
        };
        let xray_state = match obj.field("xray") {
            Some(xray) => xray.str_field("state"),
            None => None,
        };
        ServerStatus {
            cpu_percent,
            mem_used: nested(obj, "mem", "current"),
            mem_total: nested(obj, "mem", "total"),
            disk_used: nested(obj, "disk", "current"),
            disk_total: nested(obj, "disk", "total"),
            uptime_secs,
            xray_state,
        }
    }

    /// The load that the panel reports.
    pub fn from_value(obj: serde_json::Value, cpu_percent: String) -> (r: ServerStatus)
        ensures
            r@ == status_in(value_model(obj), cpu_percent@),
    {
        ServerStatus::from_json(&json_of_value(obj), cpu_percent)
    }
}

} // verus!
