//! Where the panel is asked, and what its general answers say.

use vstd::prelude::*;

use crate::json::{bool_field, read_json, str_field, Json, JsonModel};
use crate::outside::json_read;
use crate::text::chars::{
    ends_with_char, failure_with_cause, has_last_char, has_prefix, replace, replace_text,
    start_is_a_prefix, starts_with, strip_leading, strip_leading_char, strip_trailing,
    strip_trailing_char, stripping_takes_the_copies_at_one_end, trim, trim_text, with_cause,
};
use crate::text::number::{decimal_int, i64_text};

use super::models::{
    reply_model, subscription_models, ExistingSubscription, ReplyModel, SubscriptionModel,
    XuiApiResponse,
};
use super::subscriptions::{listed, listed_subscriptions};

verus! {

/// How the panel is reached, and what new clients get.
#[derive(Debug)]
pub struct XuiConfig {
    pub base_url: String,
    pub username: String,
    pub password: String,
    pub login_path: String,
    pub add_client_path: String,
    pub list_inbounds_path: String,
    pub get_inbound_path: String,
    pub delete_client_path: String,
    pub inbound_id: i64,
    pub total_gb: i64,
    pub expiry_days: i64,
}

/// The panel of one configuration.
#[derive(Debug)]
pub struct XuiClient {
    pub config: XuiConfig,
}

/// An HTTP reply: whether its status is a success, the status, the body, and the envelope that the
/// body holds, or the reason why it holds none.
#[derive(Debug)]
pub struct HttpReply {
    pub ok: bool,
    pub status: String,
    pub body: String,
    pub api: Result<XuiApiResponse, String>,
}

/// What comes of a request: a reply, or what was attempted and why it failed.
#[derive(Debug)]
pub enum HttpEvent {
    Reply(HttpReply),
    Broken { attempt: String, cause: String },
}

/// What a reply is.
pub struct HttpModel {
    pub ok: bool,
    pub status: Seq<char>,
    pub body: Seq<char>,
    pub api: Result<ReplyModel, Seq<char>>,
}

/// What comes of a request.
pub enum EventModel {
    Reply(HttpModel),
    Broken { attempt: Seq<char>, cause: Seq<char> },
}

impl View for HttpReply {
    type V = HttpModel;

    open spec fn view(&self) -> HttpModel {
        HttpModel {
            ok: self.ok,
            status: self.status@,
            body: self.body@,
            api: reply_model(self.api),
        }
    }
}

impl View for HttpEvent {
    type V = EventModel;

    open spec fn view(&self) -> EventModel {
        match self {
            HttpEvent::Reply(reply) => EventModel::Reply(reply@),
            HttpEvent::Broken { attempt, cause } => EventModel::Broken {
                attempt: attempt@,
                cause: cause@,
            },
        }
    }
}

impl HttpModel {
    /// What the envelope says of success.
    pub open spec fn success(self) -> Option<bool> {
        match self.api {
            Ok(api) => api.success,
            Err(_) => None,
        }
    }

    /// What the envelope says in words.
    pub open spec fn msg(self) -> Option<Seq<char>> {
        match self.api {
            Ok(api) => api.msg,
            Err(_) => None,
        }
    }

    /// The status is a success and the envelope does not deny it.
    pub open spec fn accepted(self) -> bool {
        self.ok && self.success() != Some(false)
    }
}

/// The base and the path with one slash between them.
pub open spec fn joined(base: Seq<char>, path: Seq<char>) -> Seq<char> {
    strip_trailing(base, '/') + "/"@ + strip_leading(path, '/')
}

/// The text with a slash at its end.
pub open spec fn with_slash(s: Seq<char>) -> Seq<char> {
    if ends_with_char(s, '/') {
        s
    } else {
        s + "/"@
    }
}

/// The message, or what stands for none.
pub open spec fn msg_or_unknown(msg: Option<Seq<char>>) -> Seq<char> {
    match msg {
        Some(m) => m,
        None => "unknown x-ui error"@,
    }
}

/// Where subscriptions are served, as the panel's settings say; nothing where they are not.
pub open spec fn subscription_base(parsed: JsonModel, base_url: Seq<char>) -> Option<Seq<char>> {
    match parsed.field("obj"@) {
        Some(obj) => if bool_field(obj, "subEnable"@) == Some(true) {
            match str_field(obj, "subURI"@) {
                Some(uri) => if trim(uri).len() == 0 {
                    None
                } else if starts_with(trim(uri), "http://"@) || starts_with(
                    trim(uri),
                    "https://"@,
                ) {
                    Some(with_slash(trim(uri)))
                } else {
                    Some(with_slash(joined(base_url, trim(uri))))
                },
                None => None,
            }
        } else {
            None
        },
        None => None,
    }
}

/// What the reply to a request for the settings comes to.
pub open spec fn settings_outcome(reply: HttpModel, base_url: Seq<char>) -> Result<
    Option<Seq<char>>,
    Seq<char>,
> {
    if !reply.ok {
        Ok(None)
    } else {
        match json_read(reply.body) {
            Ok(parsed) => Ok(subscription_base(parsed, base_url)),
            Err(cause) => Err(with_cause("x-ui defaultSettings invalid json"@, cause)),
        }
    }
}

/// What the reply to a request for the inbounds comes to.
pub open spec fn list_outcome(reply: HttpModel) -> Result<Seq<SubscriptionModel>, Seq<char>> {
    if !reply.ok {
        Err("x-ui list inbounds failed with status "@ + reply.status)
    } else {
        match reply.api {
            Ok(api) => Ok(listed(api.obj)),
            Err(cause) => Err(with_cause("x-ui list inbounds invalid json"@, cause)),
        }
    }
}

/// An outcome of a request for the settings, as a model.
pub open spec fn settings_result(r: Result<Option<String>, String>) -> Result<
    Option<Seq<char>>,
    Seq<char>,
> {
    match r {
        Ok(base) => Ok(base.deep_view()),
        Err(e) => Err(e@),
    }
}

/// An outcome of a request for the inbounds, as a model.
pub open spec fn list_result(r: Result<Vec<ExistingSubscription>, String>) -> Result<
    Seq<SubscriptionModel>,
    Seq<char>,
> {
    match r {
        Ok(subs) => Ok(subscription_models(subs@)),
        Err(e) => Err(e@),
    }
}

/// However many slashes the base ends with and the path starts with, there is one between them.
pub proof fn one_slash_joins(base: Seq<char>, path: Seq<char>, m: nat, n: nat)
    requires
        base.len() == 0 || base.last() != '/',
        path.len() == 0 || path[0] != '/',
    ensures
        joined(base + Seq::new(m, |i: int| '/'), Seq::new(n, |i: int| '/') + path) == base + "/"@
            + path,
{
    stripping_takes_the_copies_at_one_end(base, '/', m);
    stripping_takes_the_copies_at_one_end(path, '/', n);
}

/// Subscriptions are served only where the settings switch them on and say where.
pub proof fn settings_switch_subscriptions_on(parsed: JsonModel, base_url: Seq<char>)
    ensures
        subscription_base(parsed, base_url) is Some <==> {
            &&& parsed.field("obj"@) matches Some(obj)
            &&& bool_field(obj, "subEnable"@) == Some(true)
            &&& str_field(obj, "subURI"@) matches Some(uri)
            &&& trim(uri).len() > 0
        },
{
}

/// Subscriptions are served at a whole address as it is, and at a path below the panel, with a slash
/// at the end either way.
pub proof fn settings_say_where_subscriptions_are(
    parsed: JsonModel,
    obj: JsonModel,
    base_url: Seq<char>,
    uri: Seq<char>,
)
    requires
        parsed.field("obj"@) == Some(obj),
        bool_field(obj, "subEnable"@) == Some(true),
        str_field(obj, "subURI"@) == Some(uri),
        trim(uri).len() > 0,
    ensures
        ({
            let whole = "http://"@.is_prefix_of(trim(uri)) || "https://"@.is_prefix_of(trim(uri));
            let place = if whole {
                trim(uri)
            } else {
                joined(base_url, trim(uri))
            };
            subscription_base(parsed, base_url) == Some(
                if place.last() == '/' {
                    place
                } else {
                    place + "/"@
                },
            )
        }),
{
    reveal_strlit("/");
    start_is_a_prefix(trim(uri), "http://"@);
    start_is_a_prefix(trim(uri), "https://"@);
    assert(joined(base_url, trim(uri)).len() > 0);
}

/// Replies that say nothing of subscriptions are no error for the settings and one for the list of
/// inbounds; replies that are no JSON are errors that say why, and the list holds what the envelope
/// holds.
pub proof fn replies_are_judged_by_what_they_are_for(reply: HttpModel, base_url: Seq<char>)
    ensures
        !reply.ok ==> settings_outcome(reply, base_url) == Ok::<Option<Seq<char>>, Seq<char>>(None),
        !reply.ok ==> list_outcome(reply) == Err::<Seq<SubscriptionModel>, Seq<char>>(
            "x-ui list inbounds failed with status "@ + reply.status,
        ),
        reply.ok ==> (json_read(reply.body) matches Ok(parsed) ==> settings_outcome(reply, base_url)
            == Ok::<Option<Seq<char>>, Seq<char>>(subscription_base(parsed, base_url))),
        reply.ok ==> (json_read(reply.body) matches Err(cause) ==> settings_outcome(reply, base_url)
            == Err::<Option<Seq<char>>, Seq<char>>(
            "x-ui defaultSettings invalid json"@ + ": "@ + cause,
        )),
        reply.ok ==> (reply.api matches Ok(api) ==> list_outcome(reply) == Ok::<
            Seq<SubscriptionModel>,
            Seq<char>,
        >(listed(api.obj))),
        reply.ok ==> (reply.api matches Err(cause) ==> list_outcome(reply) == Err::<
            Seq<SubscriptionModel>,
            Seq<char>,
        >("x-ui list inbounds invalid json"@ + ": "@ + cause)),
{
}

/// A reply is accepted exactly where its status is a success and its envelope, if there is one, does
/// not deny it.
pub proof fn reply_is_accepted_unless_denied(reply: HttpModel)
    ensures
        reply.accepted() <==> reply.ok && !(reply.api matches Ok(api) && api.success == Some(false)),
        msg_or_unknown(None) == "unknown x-ui error"@,
        forall|m: Seq<char>| #[trigger] msg_or_unknown(Some(m)) == m,
{
}

/// The base and the path with one slash between them.
pub fn join_url(base: &str, path: &str) -> (r: String)
    ensures
        r@ == joined(base@, path@),
{
    let mut url = strip_trailing_char(base, '/');
    url.append("/");
    url.append(&strip_leading_char(path, '/'));
    url
}

/// The text with a slash at its end.
pub fn ensure_trailing_slash(value: &str) -> (r: String)
    ensures
        r@ == with_slash(value@),
{
    let mut out = value.to_string();
    if !has_last_char(value, '/') {
        out.append("/");
    }
    out
}

/// The message, or what stands for none.
pub(crate) fn message(msg: &Option<String>) -> (r: String)
    ensures
        r@ == msg_or_unknown(msg.deep_view()),
{
    match msg {
        Some(m) => m.clone(),
        None => "unknown x-ui error".to_string(),
    }
}

impl HttpReply {
    /// Whether the envelope denies success.
    pub fn looks_like_api_error(&self) -> (r: bool)
        ensures
            r == (self@.success() == Some(false)),
    {
        match &self.api {
            Ok(api) => match api.success {
                Some(success) => !success,
                None => false,
            },
            Err(_) => false,
        }
    }
}

/// Where subscriptions are served, as the panel's settings say.
pub fn subscription_base_url(parsed: &Json, base_url: &str) -> (r: Option<String>)
    ensures
        r.deep_view() == subscription_base(parsed@, base_url@),
{
    let obj = parsed.field("obj")?;
    let enabled = match obj.bool_field("subEnable") {
        Some(b) => b,
        None => false,
    };
    if !enabled {
        return None;
    }
    let uri = trim_text(&obj.str_field("subURI")?);
    if uri.as_str().is_empty() {
        return None;
    }
    if has_prefix(&uri, "http://") || has_prefix(&uri, "https://") {
        Some(ensure_trailing_slash(&uri))
    } else {
        Some(ensure_trailing_slash(&join_url(base_url, &uri)))
    }
}

/// What the reply to a request for the settings comes to.
pub fn fetch_subscription_base_url(reply: &HttpReply, base_url: &str) -> (r: Result<
    Option<String>,
    String,
>)
    ensures
        settings_result(r) == settings_outcome(reply@, base_url@),
{
    if !reply.ok {
        return Ok(None);
    }
    match read_json(&reply.body) {
        Ok(parsed) => Ok(subscription_base_url(&parsed, base_url)),
        Err(cause) => Err(failure_with_cause("x-ui defaultSettings invalid json", &cause)),
    }
}

/// What the reply to a request for the inbounds comes to.
pub fn list_existing_subscriptions(reply: &HttpReply) -> (r: Result<
    Vec<ExistingSubscription>,
    String,
>)
    ensures
        list_result(r) == list_outcome(reply@),
{
    if !reply.ok {
        let mut e = "x-ui list inbounds failed with status ".to_string();
        e.append(&reply.status);
        return Err(e);
    }
    match &reply.api {
        Ok(api) => Ok(listed_subscriptions(&api.obj)),
        Err(cause) => Err(failure_with_cause("x-ui list inbounds invalid json", cause)),
    }
}

impl XuiClient {
    /// The panel of this configuration.
    pub fn new(config: XuiConfig) -> (r: XuiClient)
        ensures
            r.config == config,
    {
        XuiClient { config }
    }

    /// Where one inbound is described.
    pub open spec fn inbound_endpoint(self) -> Seq<char> {
        joined(
            self.config.base_url@,
            replace(
                self.config.get_inbound_path@,
                "{id}"@,
                decimal_int(self.config.inbound_id as int),
            ),
        )
    }

    /// Where all inbounds are described.
    pub fn list_inbounds_url(&self) -> (r: String)
        ensures
            r@ == joined(self.config.base_url@, self.config.list_inbounds_path@),
    {
        join_url(&self.config.base_url, &self.config.list_inbounds_path)
    }

    /// Where the configured inbound is described.
    pub fn get_inbound_url(&self) -> (r: String)
        ensures
            r@ == self.inbound_endpoint(),
    {
        proof {
            reveal_strlit("{id}");
        }
        let path = replace_text(
            &self.config.get_inbound_path,
            "{id}",
            &i64_text(self.config.inbound_id),
        );
        join_url(&self.config.base_url, &path)
    }

    /// Where clients are added.
    pub fn add_client_url(&self) -> (r: String)
        ensures
            r@ == joined(self.config.base_url@, self.config.add_client_path@),
    {
        join_url(&self.config.base_url, &self.config.add_client_path)
    }

    /// Where the panel's settings are.
    pub fn settings_url(&self) -> (r: String)
        ensures
            r@ == joined(self.config.base_url@, "/panel/setting/defaultSettings"@),
    {
        join_url(&self.config.base_url, "/panel/setting/defaultSettings")
    }
}

} // verus!
