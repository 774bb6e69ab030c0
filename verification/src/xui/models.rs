//! What the panel answers, and what is made of it.

use vstd::prelude::*;

use crate::json::{json_of_value, Json, JsonModel};
use crate::outside::{compact_text, value_model, value_text};

verus! {

/// The envelope of a reply. `obj_text` is the text of `obj`.
#[derive(Debug)]
pub struct XuiApiResponse {
    pub success: Option<bool>,
    pub msg: Option<String>,
    pub obj: Option<Json>,
    pub obj_text: Option<String>,
}

/// What an envelope is.
pub struct ReplyModel {
    pub success: Option<bool>,
    pub msg: Option<Seq<char>>,
    pub obj: Option<JsonModel>,
    pub obj_text: Option<Seq<char>>,
}

impl View for XuiApiResponse {
    type V = ReplyModel;

    open spec fn view(&self) -> ReplyModel {
        ReplyModel {
            success: self.success,
            msg: self.msg.deep_view(),
            obj: match self.obj {
                Some(v) => Some(v@),
                None => None,
            },
            obj_text: self.obj_text.deep_view(),
        }
    }
}

/// An envelope, or the reason why a body holds none, as a model.
pub open spec fn reply_model(r: Result<XuiApiResponse, String>) -> Result<ReplyModel, Seq<char>> {
    match r {
        Ok(api) => Ok(api@),
        Err(cause) => Err(cause@),
    }
}

/// The text of a value.
pub fn compact_json(value: &serde_json::Value) -> (r: String)
    ensures
        r@ == compact_text(value_model(*value)),
{
    value_text(value)
}

impl XuiApiResponse {
    /// The envelope with these fields.
    pub fn new(success: Option<bool>, msg: Option<String>, obj: Option<serde_json::Value>) -> (r:
        XuiApiResponse)
        ensures
            r@ == (ReplyModel {
                success,
                msg: msg.deep_view(),
                obj: match obj {
                    Some(v) => Some(value_model(v)),
                    None => None,
                },
                obj_text: match obj {
                    Some(v) => Some(compact_text(value_model(v))),
                    None => None,
                },
            }),
    {
        match obj {
            Some(v) => {
                let text = compact_json(&v);
                XuiApiResponse {
                    success,
                    msg,
                    obj: Some(json_of_value(v)),
                    obj_text: Some(text),
                }
            },
            None => XuiApiResponse { success, msg, obj: None, obj_text: None },
        }
    }
}

/// A client that was created.
#[derive(Debug)]
pub struct CreatedClientResult {
    pub summary: String,
    pub connection_url: Option<String>,
}

/// A subscription that the panel holds.
#[derive(Debug)]
pub struct ExistingSubscription {
    pub client_id: String,
    pub email: String,
    pub sub_id: Option<String>,
    pub tg_id: Option<String>,
    pub enabled: bool,
    pub expiry_time: i64,
    pub inbound_remark: String,
    pub inbound_id: i64,
}

/// What a subscription is.
#[verifier::ext_equal]
pub struct SubscriptionModel {
    pub client_id: Seq<char>,
    pub email: Seq<char>,
    pub sub_id: Option<Seq<char>>,
    pub tg_id: Option<Seq<char>>,
    pub enabled: bool,
    pub expiry_time: i64,
    pub inbound_remark: Seq<char>,
    pub inbound_id: i64,
}

impl View for ExistingSubscription {
    type V = SubscriptionModel;

    open spec fn view(&self) -> SubscriptionModel {
        SubscriptionModel {
            client_id: self.client_id@,
            email: self.email@,
            sub_id: self.sub_id.deep_view(),
            tg_id: self.tg_id.deep_view(),
            enabled: self.enabled,
            expiry_time: self.expiry_time,
            inbound_remark: self.inbound_remark@,
            inbound_id: self.inbound_id,
        }
    }
}

/// Subscriptions as models.
pub open spec fn subscription_models(subs: Seq<ExistingSubscription>) -> Seq<SubscriptionModel> {
    Seq::new(subs.len(), |i: int| subs[i]@)
}

} // verus!
