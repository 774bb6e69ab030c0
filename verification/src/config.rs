//! The configuration, read from environment variables.

use std::collections::HashSet;

use vstd::prelude::*;

use crate::text::chars::{
    chars_of, ends_with_char, has_last_char, has_prefix, is_whitespace, start_is_a_prefix,
    starts_and_holds, starts_with, string_of, strip_trailing, strip_trailing_char, text_eq, trim, trim_takes_the_whitespace_around,
    trim_text,
};
use crate::text::number::{parse_i64, parse_u32, parse_u64, read_i64, read_u32, read_u64};
use crate::text::split::{pieces_stand_between_copies, split, split_at_char};

verus! {

/// The variables, as they were when the program started.
#[derive(Debug)]
pub struct Env {
    pub vars: Vec<(String, String)>,
}

/// How the panel is asked for access.
#[derive(Debug)]
pub enum PanelAuth {
    Token(String),
    Password { username: String, password: String },
}

/// The panel.
#[derive(Debug)]
pub struct PanelConfig {
    /// The root of the panel, without a slash at its end.
    pub base_url: String,
    pub auth: PanelAuth,
    /// Every new client is attached to all of these inbounds.
    pub inbound_ids: Vec<i64>,
    /// The VLESS flow of new clients.
    pub client_flow: String,
    /// The traffic of new clients in gigabytes; 0 stands for no limit.
    pub total_gb: u64,
    /// Where subscriptions are served, with a slash at its end.
    pub subscription_base_url: String,
}

/// The checks of the relay.
#[derive(Debug)]
pub struct HealthConfig {
    /// The address of the relay, as `ip:port`.
    pub relay_addr: String,
    pub snis: Vec<String>,
    pub subscription_url: Option<String>,
    pub interval_secs: u64,
    pub fail_threshold: u32,
}

/// The server of the Mini App.
#[derive(Debug)]
pub struct WebConfig {
    /// The address that the server binds to, as `ip:port`.
    pub listen: String,
    /// The public address of the Mini App.
    pub public_url: String,
}

/// The whole configuration.
#[derive(Debug)]
pub struct AppConfig {
    pub panel: PanelConfig,
    pub sqlite_path: String,
    /// Where given, only these users may ask for access.
    pub allow_user_ids: Option<HashSet<u64>>,
    pub approver_user_ids: HashSet<u64>,
    pub health: Option<HealthConfig>,
    pub web: Option<WebConfig>,
}

/// Why a configuration is refused.
#[derive(Debug)]
pub enum ConfigError {
    /// A variable that has to be there is not.
    NotSet(String),
    /// The panel can be asked neither with a token nor with this part of a login.
    NoAuth(String),
    NoApprovers,
    /// The list of inbounds holds something else than a number.
    BadInbound(String),
    NoInbounds,
    /// A number is none.
    BadValue { key: String, value: String },
    /// The address of the relay is none.
    BadRelay(String),
    /// The public address is not encrypted.
    NotHttps,
    /// The address to bind to is none.
    BadListen(String),
}

/// How the panel is asked for access.
pub enum AuthModel {
    Token(Seq<char>),
    Password { username: Seq<char>, password: Seq<char> },
}

/// What a configuration of the panel is.
#[verifier::ext_equal]
pub struct PanelModel {
    pub base_url: Seq<char>,
    pub auth: AuthModel,
    pub inbound_ids: Seq<i64>,
    pub client_flow: Seq<char>,
    pub total_gb: u64,
    pub subscription_base_url: Seq<char>,
}

/// What a configuration of the checks is.
#[verifier::ext_equal]
pub struct HealthModel {
    pub relay_addr: Seq<char>,
    pub snis: Seq<Seq<char>>,
    pub subscription_url: Option<Seq<char>>,
    pub interval_secs: u64,
    pub fail_threshold: u32,
}

/// What a configuration of the server is.
#[verifier::ext_equal]
pub struct WebModel {
    pub listen: Seq<char>,
    pub public_url: Seq<char>,
}

/// What a configuration is.
#[verifier::ext_equal]
pub struct ConfigModel {
    pub panel: PanelModel,
    pub sqlite_path: Seq<char>,
    pub allow_user_ids: Option<Set<u64>>,
    pub approver_user_ids: Set<u64>,
    pub health: Option<HealthModel>,
    pub web: Option<WebModel>,
}

/// Why a configuration is refused.
pub enum ErrorModel {
    NotSet(Seq<char>),
    NoAuth(Seq<char>),
    NoApprovers,
    BadInbound(Seq<char>),
    NoInbounds,
    BadValue { key: Seq<char>, value: Seq<char> },
    BadRelay(Seq<char>),
    NotHttps,
    BadListen(Seq<char>),
}

impl View for PanelAuth {
    type V = AuthModel;

    open spec fn view(&self) -> AuthModel {
        match self {
            PanelAuth::Token(token) => AuthModel::Token(token@),
            PanelAuth::Password { username, password } => AuthModel::Password {
                username: username@,
                password: password@,
            },
        }
    }
}

impl View for PanelConfig {
    type V = PanelModel;

    open spec fn view(&self) -> PanelModel {
        PanelModel {
            base_url: self.base_url@,
            auth: self.auth@,
            inbound_ids: self.inbound_ids@,
            client_flow: self.client_flow@,
            total_gb: self.total_gb,
            subscription_base_url: self.subscription_base_url@,
        }
    }
}

impl View for HealthConfig {
    type V = HealthModel;

    open spec fn view(&self) -> HealthModel {
        HealthModel {
            relay_addr: self.relay_addr@,
            snis: self.snis.deep_view(),
            subscription_url: self.subscription_url.deep_view(),
            interval_secs: self.interval_secs,
            fail_threshold: self.fail_threshold,
        }
    }
}

impl View for WebConfig {
    type V = WebModel;

    open spec fn view(&self) -> WebModel {
        WebModel { listen: self.listen@, public_url: self.public_url@ }
    }
}

impl View for AppConfig {
    type V = ConfigModel;

    open spec fn view(&self) -> ConfigModel {
        ConfigModel {
            panel: self.panel@,
            sqlite_path: self.sqlite_path@,
            allow_user_ids: match self.allow_user_ids {
                Some(ids) => Some(ids@),
                None => None,
            },
            approver_user_ids: self.approver_user_ids@,
            health: match self.health {
                Some(health) => Some(health@),
                None => None,
            },
            web: match self.web {
                Some(web) => Some(web@),
                None => None,
            },
        }
    }
}

impl View for ConfigError {
    type V = ErrorModel;

    open spec fn view(&self) -> ErrorModel {
        match self {
            ConfigError::NotSet(key) => ErrorModel::NotSet(key@),
            ConfigError::NoAuth(key) => ErrorModel::NoAuth(key@),
            ConfigError::NoApprovers => ErrorModel::NoApprovers,
            ConfigError::BadInbound(item) => ErrorModel::BadInbound(item@),
            ConfigError::NoInbounds => ErrorModel::NoInbounds,
            ConfigError::BadValue { key, value } => ErrorModel::BadValue {
                key: key@,
                value: value@,
            },
            ConfigError::BadRelay(cause) => ErrorModel::BadRelay(cause@),
            ConfigError::NotHttps => ErrorModel::NotHttps,
            ConfigError::BadListen(cause) => ErrorModel::BadListen(cause@),
        }
    }
}

impl ErrorModel {
    /// What is said of the error.
    pub open spec fn text(self) -> Seq<char> {
        match self {
            ErrorModel::NotSet(key) => key + " is not set"@,
            ErrorModel::NoAuth(key) => "set XUI_API_TOKEN or XUI_USERNAME/XUI_PASSWORD: "@ + key
                + " is not set"@,
            ErrorModel::NoApprovers => "APPROVER_USER_IDS must contain at least one user id"@,
            ErrorModel::BadInbound(item) =>
                "XUI_INBOUND_IDS must be comma-separated integers: invalid list item `"@ + item
                + "`"@,
            ErrorModel::NoInbounds => "XUI_INBOUND_IDS must contain at least one inbound id"@,
            ErrorModel::BadValue { key, value } => key + " has invalid value `"@ + value + "`"@,
            ErrorModel::BadRelay(cause) => "HEALTH_RELAY_ADDR must be ip:port: "@ + cause,
            ErrorModel::NotHttps =>
                "WEB_PUBLIC_URL must be an https:// URL (Telegram requires it)"@,
            ErrorModel::BadListen(cause) => "WEB_LISTEN must be ip:port: "@ + cause,
        }
    }
}

/// The value of the first variable of that name.
pub open spec fn lookup(vars: Seq<(String, String)>, key: Seq<char>) -> Option<Seq<char>>
    decreases vars.len(),
{
    if vars.len() == 0 {
        None
    } else if vars[0].0@ == key {
        Some(vars[0].1@)
    } else {
        lookup(vars.drop_first(), key)
    }
}

/// The text is put between two copies of `quote`.
pub open spec fn is_quoted(s: Seq<char>, quote: char) -> bool {
    s.len() >= 2 && s[0] == quote && s.last() == quote
}

/// A value without surrounding whitespace and quotes.
pub open spec fn unquoted(raw: Seq<char>) -> Seq<char> {
    let s = trim(raw);
    if is_quoted(s, '"') || is_quoted(s, '\'') {
        trim(s.subrange(1, s.len() - 1))
    } else {
        trim(s)
    }
}

impl Env {
    /// The value of a variable; one that is empty counts as not set.
    pub open spec fn optional(self, key: Seq<char>) -> Option<Seq<char>> {
        match lookup(self.vars@, key) {
            Some(raw) => if unquoted(raw).len() > 0 {
                Some(unquoted(raw))
            } else {
                None
            },
            None => None,
        }
    }

    /// The value of a variable, or a default.
    pub open spec fn or(self, key: Seq<char>, default: Seq<char>) -> Seq<char> {
        match self.optional(key) {
            Some(value) => value,
            None => default,
        }
    }
}

/// The pieces between commas, trimmed, without the empty ones.
pub open spec fn list_items(raw: Seq<char>) -> Seq<Seq<char>> {
    split(raw, ',').map_values(|v: Seq<char>| trim(v)).filter(|v: Seq<char>| v.len() > 0)
}

/// The first item that is no number.
pub open spec fn bad_item(items: Seq<Seq<char>>) -> Option<Seq<char>>
    decreases items.len(),
{
    if items.len() == 0 {
        None
    } else if read_i64(items[0]) is None {
        Some(items[0])
    } else {
        bad_item(items.drop_first())
    }
}

/// The numbers in a list of numbers.
pub open spec fn list_numbers(items: Seq<Seq<char>>) -> Seq<i64> {
    items.map_values(|v: Seq<char>| read_i64(v)->0)
}

/// The identifiers among the pieces between commas.
pub open spec fn user_ids(raw: Seq<char>) -> Set<u64> {
    ids_in(split(raw, ','))
}

/// The identifiers among the pieces.
pub open spec fn ids_in(pieces: Seq<Seq<char>>) -> Set<u64>
    decreases pieces.len(),
{
    if pieces.len() == 0 {
        Set::empty()
    } else {
        match read_u64(trim(pieces.last())) {
            Some(id) => ids_in(pieces.drop_last()).insert(id),
            None => ids_in(pieces.drop_last()),
        }
    }
}

/// How the panel is asked for access, as the variables say.
pub open spec fn auth_of(env: Env) -> Result<AuthModel, ErrorModel> {
    match env.optional("XUI_API_TOKEN"@) {
        Some(token) => Ok(AuthModel::Token(token)),
        None => match env.optional("XUI_USERNAME"@) {
            None => Err(ErrorModel::NoAuth("XUI_USERNAME"@)),
            Some(username) => match env.optional("XUI_PASSWORD"@) {
                None => Err(ErrorModel::NoAuth("XUI_PASSWORD"@)),
                Some(password) => Ok(AuthModel::Password { username, password }),
            },
        },
    }
}

/// The number in a variable, where it is one.
pub open spec fn number_of(env: Env, key: Seq<char>, default: u64) -> Result<u64, ErrorModel> {
    match env.optional(key) {
        Some(value) => match read_u64(value) {
            Some(n) => Ok(n),
            None => Err(ErrorModel::BadValue { key, value }),
        },
        None => Ok(default),
    }
}

/// The small number in a variable, where it is one.
pub open spec fn small_number_of(env: Env, key: Seq<char>, default: u32) -> Result<
    u32,
    ErrorModel,
> {
    match env.optional(key) {
        Some(value) => match read_u32(value) {
            Some(n) => Ok(n),
            None => Err(ErrorModel::BadValue { key, value }),
        },
        None => Ok(default),
    }
}

/// The text with a slash at its end.
pub open spec fn slashed(s: Seq<char>) -> Seq<char> {
    if ends_with_char(s, '/') {
        s
    } else {
        s.push('/')
    }
}

/// The inbounds that new clients are attached to, as the variables say.
pub open spec fn inbounds_of(env: Env) -> Result<Seq<i64>, ErrorModel> {
    match env.optional("XUI_INBOUND_IDS"@) {
        None => Err(ErrorModel::NotSet("XUI_INBOUND_IDS"@)),
        Some(raw) => match bad_item(list_items(raw)) {
            Some(item) => Err(ErrorModel::BadInbound(item)),
            None => if list_items(raw).len() == 0 {
                Err(ErrorModel::NoInbounds)
            } else {
                Ok(list_numbers(list_items(raw)))
            },
        },
    }
}

/// The panel, as the variables say.
pub open spec fn panel_of(env: Env) -> Result<PanelModel, ErrorModel> {
    match auth_of(env) {
        Err(e) => Err(e),
        Ok(auth) => match inbounds_of(env) {
            Err(e) => Err(e),
            Ok(inbound_ids) => match env.optional("XUI_SUBSCRIPTION_BASE_URL"@) {
                None => Err(ErrorModel::NotSet("XUI_SUBSCRIPTION_BASE_URL"@)),
                Some(subscription) => match env.optional("XUI_BASE_URL"@) {
                    None => Err(ErrorModel::NotSet("XUI_BASE_URL"@)),
                    Some(base) => match number_of(env, "XUI_TOTAL_GB"@, 0) {
                        Err(e) => Err(e),
                        Ok(total_gb) => Ok(
                            PanelModel {
                                base_url: strip_trailing(base, '/'),
                                auth,
                                inbound_ids,
                                client_flow: env.or("XUI_CLIENT_FLOW"@, ""@),
                                total_gb,
                                subscription_base_url: slashed(subscription),
                            },
                        ),
                    },
                },
            },
        },
    }
}

/// The checks, as the variables say. `bad_addr` says why the address of the relay is none.
pub open spec fn health_of(env: Env, bad_addr: Option<Seq<char>>) -> Result<
    Option<HealthModel>,
    ErrorModel,
> {
    match env.optional("HEALTH_RELAY_ADDR"@) {
        None => Ok(None),
        Some(relay_addr) => match bad_addr {
            Some(cause) => Err(ErrorModel::BadRelay(cause)),
            None => match number_of(env, "HEALTH_INTERVAL_SECS"@, 300) {
                Err(e) => Err(e),
                Ok(interval_secs) => match small_number_of(env, "HEALTH_FAIL_THRESHOLD"@, 2) {
                    Err(e) => Err(e),
                    Ok(threshold) => Ok(
                        Some(
                            HealthModel {
                                relay_addr,
                                snis: list_items(env.or("HEALTH_SNIS"@, "ign.com"@)),
                                subscription_url: env.optional("HEALTH_SUBSCRIPTION_URL"@),
                                interval_secs,
                                fail_threshold: if threshold < 1 {
                                    1
                                } else {
                                    threshold
                                },
                            },
                        ),
                    ),
                },
            },
        },
    }
}

/// The server of the Mini App, as the variables say. `bad_addr` says why the address to bind to is
/// none.
pub open spec fn web_of(env: Env, bad_addr: Option<Seq<char>>) -> Result<
    Option<WebModel>,
    ErrorModel,
> {
    match env.optional("WEB_PUBLIC_URL"@) {
        None => Ok(None),
        Some(public_url) => if !starts_with(public_url, "https://"@) {
            Err(ErrorModel::NotHttps)
        } else {
            match bad_addr {
                Some(cause) => Err(ErrorModel::BadListen(cause)),
                None => Ok(
                    Some(
                        WebModel {
                            listen: env.or("WEB_LISTEN"@, "127.0.0.1:8080"@),
                            public_url,
                        },
                    ),
                ),
            }
        },
    }
}

/// The configuration, as the variables say.
pub open spec fn config_of(
    env: Env,
    bad_relay: Option<Seq<char>>,
    bad_listen: Option<Seq<char>>,
) -> Result<ConfigModel, ErrorModel> {
    match env.optional("APPROVER_USER_IDS"@) {
        None => Err(ErrorModel::NotSet("APPROVER_USER_IDS"@)),
        Some(approvers) => if user_ids(approvers) == Set::<u64>::empty() {
            Err(ErrorModel::NoApprovers)
        } else {
            match panel_of(env) {
                Err(e) => Err(e),
                Ok(panel) => match health_of(env, bad_relay) {
                    Err(e) => Err(e),
                    Ok(health) => match web_of(env, bad_listen) {
                        Err(e) => Err(e),
                        Ok(web) => Ok(
                            ConfigModel {
                                panel,
                                sqlite_path: env.or("SQLITE_PATH"@, "vpn_bot.sqlite3"@),
                                allow_user_ids: match env.optional("ALLOW_USER_IDS"@) {
                                    Some(raw) => Some(user_ids(raw)),
                                    None => None,
                                },
                                approver_user_ids: user_ids(approvers),
                                health,
                                web,
                            },
                        ),
                    },
                },
            }
        },
    }
}

impl ConfigModel {
    /// The user decides requests.
    pub open spec fn approver(self, user_id: u64) -> bool {
        self.approver_user_ids.contains(user_id)
    }

    /// The user may ask for access.
    pub open spec fn allowed(self, user_id: u64) -> bool {
        match self.allow_user_ids {
            Some(ids) => ids.contains(user_id),
            None => true,
        }
    }
}

/// A result as a model.
pub open spec fn panel_result(r: Result<PanelConfig, ConfigError>) -> Result<
    PanelModel,
    ErrorModel,
> {
    match r {
        Ok(panel) => Ok(panel@),
        Err(e) => Err(e@),
    }
}

/// A result as a model.
pub open spec fn health_result(r: Result<Option<HealthConfig>, ConfigError>) -> Result<
    Option<HealthModel>,
    ErrorModel,
> {
    match r {
        Ok(Some(health)) => Ok(Some(health@)),
        Ok(None) => Ok(None),
        Err(e) => Err(e@),
    }
}

/// A result as a model.
pub open spec fn web_result(r: Result<Option<WebConfig>, ConfigError>) -> Result<
    Option<WebModel>,
    ErrorModel,
> {
    match r {
        Ok(Some(web)) => Ok(Some(web@)),
        Ok(None) => Ok(None),
        Err(e) => Err(e@),
    }
}

/// A result as a model.
pub open spec fn config_result(r: Result<AppConfig, ConfigError>) -> Result<
    ConfigModel,
    ErrorModel,
> {
    match r {
        Ok(config) => Ok(config@),
        Err(e) => Err(e@),
    }
}

impl ConfigError {
    /// What is said of the error.
    pub fn message(&self) -> (r: String)
        ensures
            r@ == self@.text(),
    {
        match self {
            ConfigError::NotSet(key) => {
                let mut text = key.clone();
                text.append(" is not set");
                text
            },
            ConfigError::NoAuth(key) => {
                let mut text = "set XUI_API_TOKEN or XUI_USERNAME/XUI_PASSWORD: ".to_string();
                text.append(key);
                text.append(" is not set");
                text
            },
            ConfigError::NoApprovers => "APPROVER_USER_IDS must contain at least one user id".to_string(),
            ConfigError::BadInbound(item) => {
                let mut text =
                    "XUI_INBOUND_IDS must be comma-separated integers: invalid list item `".to_string();
                text.append(item);
                text.append("`");
                text
            },
            ConfigError::NoInbounds => "XUI_INBOUND_IDS must contain at least one inbound id".to_string(),
            ConfigError::BadValue { key, value } => {
                let mut text = key.clone();
                text.append(" has invalid value `");
                text.append(value);
                text.append("`");
                text
            },
            ConfigError::BadRelay(cause) => {
                let mut text = "HEALTH_RELAY_ADDR must be ip:port: ".to_string();
                text.append(cause);
                text
            },
            ConfigError::NotHttps => "WEB_PUBLIC_URL must be an https:// URL (Telegram requires it)".to_string(),
            ConfigError::BadListen(cause) => {
                let mut text = "WEB_LISTEN must be ip:port: ".to_string();
                text.append(cause);
                text
            },
        }
    }
}

fn unquote(raw: &str) -> (r: String)
    ensures
        r@ == unquoted(raw@),
{
    let trimmed = trim_text(raw);
    let v = chars_of(&trimmed);
    let n: usize = v.len();
    if n >= 2 && ((v[0] == '"' && v[n - 1] == '"') || (v[0] == '\'' && v[n - 1] == '\'')) {
        trim_text(&string_of(&v, 1, n - 1))
    } else {
        trim_text(&trimmed)
    }
}

impl Env {
    /// The value of a variable; one that is empty counts as not set.
    pub fn optional_env(&self, key: &str) -> (r: Option<String>)
        ensures
            r.deep_view() == self.optional(key@),
    {
        assert(self.vars@.skip(0) =~= self.vars@);
        let mut i: usize = 0;
        while i < self.vars.len()
            invariant
                i <= self.vars@.len(),
                lookup(self.vars@, key@) == lookup(self.vars@.skip(i as int), key@),
            decreases self.vars@.len() - i,
        {
            assert(self.vars@.skip(i as int)[0] == self.vars@[i as int]);
            if text_eq(&self.vars[i].0, key) {
                let value = unquote(&self.vars[i].1);
                if value.as_str().is_empty() {
                    return None;
                }
                return Some(value);
            }
            assert(self.vars@.skip(i as int).drop_first() =~= self.vars@.skip(i + 1));
            i = i + 1;
        }
        None
    }

    /// The value of a variable that has to be set.
    pub fn required_env(&self, key: &str) -> (r: Result<String, ConfigError>)
        ensures
            r is Ok <==> self.optional(key@) is Some,
            r matches Ok(value) ==> self.optional(key@) == Some(value@),
            r matches Err(e) ==> e@ == ErrorModel::NotSet(key@),
    {
        match self.optional_env(key) {
            Some(value) => Ok(value),
            None => Err(ConfigError::NotSet(key.to_string())),
        }
    }

    /// The value of a variable, or a default.
    pub fn env_or(&self, key: &str, default: &str) -> (r: String)
        ensures
            r@ == self.or(key@, default@),
    {
        match self.optional_env(key) {
            Some(value) => value,
            None => default.to_string(),
        }
    }

    /// The number in a variable.
    pub fn parse_optional(&self, key: &str, default: u64) -> (r: Result<u64, ConfigError>)
        ensures
            match r {
                Ok(n) => number_of(*self, key@, default) == Ok::<u64, ErrorModel>(n),
                Err(e) => number_of(*self, key@, default) == Err::<u64, ErrorModel>(e@),
            },
    {
        match self.optional_env(key) {
            Some(value) => match parse_u64(&value) {
                Some(n) => Ok(n),
                None => Err(ConfigError::BadValue { key: key.to_string(), value }),
            },
            None => Ok(default),
        }
    }

    /// The small number in a variable.
    pub fn parse_optional_small(&self, key: &str, default: u32) -> (r: Result<u32, ConfigError>)
        ensures
            match r {
                Ok(n) => small_number_of(*self, key@, default) == Ok::<u32, ErrorModel>(n),
                Err(e) => small_number_of(*self, key@, default) == Err::<u32, ErrorModel>(e@),
            },
    {
        match self.optional_env(key) {
            Some(value) => match parse_u32(&value) {
                Some(n) => Ok(n),
                None => Err(ConfigError::BadValue { key: key.to_string(), value }),
            },
            None => Ok(default),
        }
    }
}

/// The pieces between commas that are not blank.
pub fn parse_texts(raw: &str) -> (r: Vec<String>)
    ensures
        r.deep_view() == list_items(raw@),
{
    let pieces = split_at_char(raw, ',');
    let ghost all = split(raw@, ',').map_values(|v: Seq<char>| trim(v));
    let ghost given = |v: Seq<char>| v.len() > 0;
    let mut out: Vec<String> = Vec::new();
    let mut i: usize = 0;
    proof {
        reveal(Seq::filter);
    }
    assert(out.deep_view() =~= all.take(0).filter(given));
    while i < pieces.len()
        invariant
            i <= pieces@.len(),
            pieces.deep_view() == split(raw@, ','),
            all == split(raw@, ',').map_values(|v: Seq<char>| trim(v)),
            given == |v: Seq<char>| v.len() > 0,
            out.deep_view() == all.take(i as int).filter(given),
        decreases pieces@.len() - i,
    {
        proof {
            reveal(Seq::filter);
        }
        let ghost before = out.deep_view();
        assert(pieces.deep_view()[i as int] == pieces@[i as int]@);
        assert(all[i as int] == trim(pieces@[i as int]@));
        assert(all.take(i + 1).drop_last() =~= all.take(i as int));
        let piece = trim_text(&pieces[i]);
        if !piece.as_str().is_empty() {
            out.push(piece);
            assert(out.deep_view() =~= before.push(all[i as int]));
        }
        i = i + 1;
    }
    assert(all.take(i as int) =~= all);
    out
}

/// The numbers between commas; an error names the first piece that is none.
pub fn parse_list(raw: &str) -> (r: Result<Vec<i64>, String>)
    ensures
        match r {
            Ok(numbers) => bad_item(list_items(raw@)) is None && numbers@ == list_numbers(
                list_items(raw@),
            ),
            Err(item) => bad_item(list_items(raw@)) == Some(item@),
        },
{
    let items = parse_texts(raw);
    let ghost all = list_items(raw@);
    let mut out: Vec<i64> = Vec::new();
    let mut i: usize = 0;
    assert(all.skip(0) =~= all);
    assert(out@ =~= list_numbers(all.take(0)));
    while i < items.len()
        invariant
            i <= items@.len(),
            items.deep_view() == all,
            all == list_items(raw@),
            bad_item(all) == bad_item(all.skip(i as int)),
            out@ == list_numbers(all.take(i as int)),
        decreases items@.len() - i,
    {
        assert(all[i as int] == items@[i as int]@);
        assert(all.skip(i as int)[0] == all[i as int]);
        match parse_i64(&items[i]) {
            Some(n) => {
                let ghost before = out@;
                out.push(n);
                assert(list_numbers(all.take(i + 1)) =~= before.push(n));
            },
            None => {
                return Err(items[i].clone());
            },
        }
        assert(all.skip(i as int).drop_first() =~= all.skip(i + 1));
        i = i + 1;
    }
    assert(all.take(i as int) =~= all);
    Ok(out)
}

/// The identifiers between commas; other pieces are passed over.
pub fn parse_user_ids(raw: &str) -> (r: HashSet<u64>)
    ensures
        r@ == user_ids(raw@),
{
    broadcast use vstd::std_specs::hash::group_hash_axioms;

    let pieces = split_at_char(raw, ',');
    let ghost all = split(raw@, ',');
    let mut out: HashSet<u64> = HashSet::new();
    let mut i: usize = 0;
    assert(out@ =~= ids_in(all.take(0)));
    while i < pieces.len()
        invariant
            i <= pieces@.len(),
            pieces.deep_view() == all,
            out@ == ids_in(all.take(i as int)),
        decreases pieces@.len() - i,
    {
        broadcast use vstd::std_specs::hash::group_hash_axioms;

        assert(all[i as int] == pieces@[i as int]@);
        assert(all.take(i + 1).drop_last() =~= all.take(i as int));
        match parse_u64(&trim_text(&pieces[i])) {
            Some(id) => {
                out.insert(id);
            },
            None => {},
        }
        i = i + 1;
    }
    assert(all.take(i as int) =~= all);
    out
}

proof fn ids_are_finite(pieces: Seq<Seq<char>>)
    ensures
        ids_in(pieces).finite(),
    decreases pieces.len(),
{
    if pieces.len() > 0 {
        ids_are_finite(pieces.drop_last());
    }
}

fn no_ids(ids: &HashSet<u64>, Ghost(raw): Ghost<Seq<char>>) -> (r: bool)
    requires
        ids@ == user_ids(raw),
    ensures
        r == (ids@ == Set::<u64>::empty()),
{
    broadcast use vstd::std_specs::hash::group_hash_axioms;

    proof {
        ids_are_finite(split(raw, ','));
    }
    let none = ids.len() == 0;
    assert(none ==> ids@ =~= Set::<u64>::empty());
    none
}

impl PanelAuth {
    /// How the panel is asked for access.
    pub fn from_env(env: &Env) -> (r: Result<PanelAuth, ConfigError>)
        ensures
            match r {
                Ok(auth) => auth_of(*env) == Ok::<AuthModel, ErrorModel>(auth@),
                Err(e) => auth_of(*env) == Err::<AuthModel, ErrorModel>(e@),
            },
    {
        match env.optional_env("XUI_API_TOKEN") {
            Some(token) => Ok(PanelAuth::Token(token)),
            None => {
                let username = match env.optional_env("XUI_USERNAME") {
                    Some(username) => username,
                    None => {
                        return Err(ConfigError::NoAuth("XUI_USERNAME".to_string()));
                    },
                };
                let password = match env.optional_env("XUI_PASSWORD") {
                    Some(password) => password,
                    None => {
                        return Err(ConfigError::NoAuth("XUI_PASSWORD".to_string()));
                    },
                };
                Ok(PanelAuth::Password { username, password })
            },
        }
    }
}

fn inbound_ids(env: &Env) -> (r: Result<Vec<i64>, ConfigError>)
    ensures
        match r {
            Ok(ids) => inbounds_of(*env) == Ok::<Seq<i64>, ErrorModel>(ids@),
            Err(e) => inbounds_of(*env) == Err::<Seq<i64>, ErrorModel>(e@),
        },
{
    let raw = match env.required_env("XUI_INBOUND_IDS") {
        Ok(raw) => raw,
        Err(e) => {
            return Err(e);
        },
    };
    match parse_list(&raw) {
        Ok(ids) => {
            if ids.len() == 0 {
                return Err(ConfigError::NoInbounds);
            }
            Ok(ids)
        },
        Err(item) => Err(ConfigError::BadInbound(item)),
    }
}

impl PanelConfig {
    /// The panel, as the variables say.
    pub fn from_env(env: &Env) -> (r: Result<PanelConfig, ConfigError>)
        ensures
            panel_result(r) == panel_of(*env),
    {
        let auth = match PanelAuth::from_env(env) {
            Ok(auth) => auth,
            Err(e) => {
                return Err(e);
            },
        };
        let inbound_ids = match inbound_ids(env) {
            Ok(ids) => ids,
            Err(e) => {
                return Err(e);
            },
        };
        let mut subscription_base_url = match env.required_env("XUI_SUBSCRIPTION_BASE_URL") {
            Ok(url) => url,
            Err(e) => {
                return Err(e);
            },
        };
        if !has_last_char(&subscription_base_url, '/') {
            subscription_base_url.push('/');
        }
        let base_url = match env.required_env("XUI_BASE_URL") {
            Ok(url) => strip_trailing_char(&url, '/'),
            Err(e) => {
                return Err(e);
            },
        };
        let client_flow = env.env_or("XUI_CLIENT_FLOW", "");
        let total_gb: u64 = match env.parse_optional("XUI_TOTAL_GB", 0) {
            Ok(n) => n,
            Err(e) => {
                return Err(e);
            },
        };
        Ok(
            PanelConfig {
                base_url,
                auth,
                inbound_ids,
                client_flow,
                total_gb,
                subscription_base_url,
            },
        )
    }
}

/// An optional text as a model.
pub open spec fn cause_of(cause: Option<String>) -> Option<Seq<char>> {
    cause.deep_view()
}

impl HealthConfig {
    /// The checks, as the variables say.
    pub fn from_env(env: &Env, bad_addr: Option<String>) -> (r: Result<
        Option<HealthConfig>,
        ConfigError,
    >)
        ensures
            health_result(r) == health_of(*env, cause_of(bad_addr)),
    {
        let relay_addr = match env.optional_env("HEALTH_RELAY_ADDR") {
            Some(addr) => addr,
            None => {
                return Ok(None);
            },
        };
        if let Some(cause) = bad_addr {
            return Err(ConfigError::BadRelay(cause));
        }
        let snis = parse_texts(&env.env_or("HEALTH_SNIS", "ign.com"));
        let subscription_url = env.optional_env("HEALTH_SUBSCRIPTION_URL");
        let interval_secs: u64 = match env.parse_optional("HEALTH_INTERVAL_SECS", 300) {
            Ok(n) => n,
            Err(e) => {
                return Err(e);
            },
        };
        let threshold: u32 = match env.parse_optional_small("HEALTH_FAIL_THRESHOLD", 2) {
            Ok(n) => n,
            Err(e) => {
                return Err(e);
            },
        };
        let fail_threshold: u32 = if threshold < 1 {
            1
        } else {
            threshold
        };
        Ok(
            Some(
                HealthConfig { relay_addr, snis, subscription_url, interval_secs, fail_threshold },
            ),
        )
    }
}

impl WebConfig {
    /// The server of the Mini App, as the variables say.
    pub fn from_env(env: &Env, bad_addr: Option<String>) -> (r: Result<
        Option<WebConfig>,
        ConfigError,
    >)
        ensures
            web_result(r) == web_of(*env, cause_of(bad_addr)),
    {
        let public_url = match env.optional_env("WEB_PUBLIC_URL") {
            Some(url) => url,
            None => {
                return Ok(None);
            },
        };
        if !has_prefix(&public_url, "https://") {
            return Err(ConfigError::NotHttps);
        }
        if let Some(cause) = bad_addr {
            return Err(ConfigError::BadListen(cause));
        }
        let listen = env.env_or("WEB_LISTEN", "127.0.0.1:8080");
        Ok(Some(WebConfig { listen, public_url }))
    }
}

impl AppConfig {
    /// The configuration, as the variables say. `bad_relay` and `bad_listen` say why the addresses
    /// in `HEALTH_RELAY_ADDR` and `WEB_LISTEN` are none.
    pub fn from_env(env: &Env, bad_relay: Option<String>, bad_listen: Option<String>) -> (r: Result<
        AppConfig,
        ConfigError,
    >)
        ensures
            config_result(r) == config_of(*env, cause_of(bad_relay), cause_of(bad_listen)),
    {
        let raw = match env.required_env("APPROVER_USER_IDS") {
            Ok(raw) => raw,
            Err(e) => {
                return Err(e);
            },
        };
        let approver_user_ids = parse_user_ids(&raw);
        if no_ids(&approver_user_ids, Ghost(raw@)) {
            return Err(ConfigError::NoApprovers);
        }
        let panel = match PanelConfig::from_env(env) {
            Ok(panel) => panel,
            Err(e) => {
                return Err(e);
            },
        };
        let sqlite_path = env.env_or("SQLITE_PATH", "vpn_bot.sqlite3");
        let allow_user_ids = match env.optional_env("ALLOW_USER_IDS") {
            Some(raw) => Some(parse_user_ids(&raw)),
            None => None,
        };
        let health = match HealthConfig::from_env(env, bad_relay) {
            Ok(health) => health,
            Err(e) => {
                return Err(e);
            },
        };
        let web = match WebConfig::from_env(env, bad_listen) {
            Ok(web) => web,
            Err(e) => {
                return Err(e);
            },
        };
        Ok(
            AppConfig {
                panel,
                sqlite_path,
                allow_user_ids,
                approver_user_ids,
                health,
                web,
            },
        )
    }

    /// Whether the user decides requests.
    pub fn is_approver(&self, user_id: u64) -> (r: bool)
        ensures
            r == self@.approver(user_id),
    {
        broadcast use vstd::std_specs::hash::group_hash_axioms;

        self.approver_user_ids.contains(&user_id)
    }

    /// Whether the user may ask for access.
    pub fn is_allowed(&self, user_id: u64) -> (r: bool)
        ensures
            r == self@.allowed(user_id),
    {
        broadcast use vstd::std_specs::hash::group_hash_axioms;

        match &self.allow_user_ids {
            Some(ids) => ids.contains(&user_id),
            None => true,
        }
    }
}

proof fn strip_trailing_ends(s: Seq<char>, c: char)
    ensures
        !ends_with_char(strip_trailing(s, c), c),
    decreases s.len(),
{
    if s.len() > 0 && s.last() == c {
        strip_trailing_ends(s.drop_last(), c);
    }
}

/// A configuration that is accepted is usable: there are approvers and inbounds, the root of the
/// panel has no slash at its end and the subscriptions have one, an alert needs at least one
/// failure, and the Mini App is encrypted.
pub proof fn accepted_config_is_usable(
    env: Env,
    bad_relay: Option<Seq<char>>,
    bad_listen: Option<Seq<char>>,
)
    ensures
        config_of(env, bad_relay, bad_listen) matches Ok(config) ==> {
            &&& exists|id: u64| config.approver(id)
            &&& config.panel.inbound_ids.len() > 0
            &&& !ends_with_char(config.panel.base_url, '/')
            &&& ends_with_char(config.panel.subscription_base_url, '/')
            &&& (config.health matches Some(health) ==> health.fail_threshold >= 1)
            &&& (config.web matches Some(web) ==> starts_with(web.public_url, "https://"@))
        },
{
    if let Ok(config) = config_of(env, bad_relay, bad_listen) {
        strip_trailing_ends(env.optional("XUI_BASE_URL"@)->0, '/');
        let approvers = config.approver_user_ids;
        if forall|id: u64| !approvers.contains(id) {
            assert(approvers =~= Set::<u64>::empty());
        }
        let id = choose|id: u64| approvers.contains(id);
        assert(config.approver(id));
    }
}

/// Where the allowed users are listed, nobody else may ask for access, whatever the list holds;
/// where they are not, everybody may.
pub proof fn listed_users_alone_are_allowed(
    env: Env,
    bad_relay: Option<Seq<char>>,
    bad_listen: Option<Seq<char>>,
    user_id: u64,
)
    ensures
        config_of(env, bad_relay, bad_listen) matches Ok(config) ==> (config.allowed(user_id) <==> (
        env.optional("ALLOW_USER_IDS"@) matches Some(raw) ==> user_ids(raw).contains(user_id))),
{
}

/// The first variable of a name gives its value.
pub proof fn first_variable_counts(vars: Seq<(String, String)>, key: Seq<char>, i: int)
    requires
        0 <= i <= vars.len(),
        i < vars.len() ==> vars[i].0@ == key,
        forall|j: int| 0 <= j < i ==> (#[trigger] vars[j]).0@ != key,
    ensures
        lookup(vars, key) == if i < vars.len() {
            Some(vars[i].1@)
        } else {
            None
        },
    decreases vars.len(),
{
    if i > 0 {
        assert(vars[0].0@ != key);
        let rest = vars.drop_first();
        assert forall|j: int| 0 <= j < i - 1 implies (#[trigger] rest[j]).0@ != key by {
            assert(rest[j] == vars[j + 1]);
        }
        first_variable_counts(rest, key, i - 1);
    }
}

/// A value is read without the whitespace around it and without one pair of quotes, double or
/// single; one that is blank counts as not set, and so does one that is not there.
pub proof fn values_are_read_without_blanks_and_quotes(
    env: Env,
    key: Seq<char>,
    a: Seq<char>,
    value: Seq<char>,
    b: Seq<char>,
)
    requires
        forall|i: int| 0 <= i < a.len() ==> is_whitespace(#[trigger] a[i]),
        forall|i: int| 0 <= i < b.len() ==> is_whitespace(#[trigger] b[i]),
        value.len() > 0 ==> !is_whitespace(value[0]) && !is_whitespace(value.last()),
    ensures
        value.len() > 0 && !(value.len() >= 2 && value[0] == value.last() && (value[0] == '"'
            || value[0] == '\'')) && lookup(env.vars@, key) == Some(a + value + b) ==> env.optional(
            key,
        ) == Some(value),
        value.len() > 0 && lookup(env.vars@, key) == Some(
            a + (seq!['"'] + (a + value + b) + seq!['"']) + b,
        ) ==> env.optional(key) == Some(value),
        lookup(env.vars@, key) == Some(a + seq!['"', '"'] + b) ==> env.optional(key) is None,
        lookup(env.vars@, key) == Some(a + seq!['\'', '\''] + b) ==> env.optional(key) is None,
        value.len() > 0 && lookup(env.vars@, key) == Some(a + (seq!['"'] + value + seq!['"']) + b)
            ==> env.optional(key) == Some(value),
        value.len() > 0 && lookup(env.vars@, key) == Some(
            a + (seq!['\''] + value + seq!['\'']) + b,
        ) ==> env.optional(key) == Some(value),
        lookup(env.vars@, key) == Some(a) ==> env.optional(key) is None,
        lookup(env.vars@, key) is None ==> env.optional(key) is None,
{
    let double = seq!['"'] + value + seq!['"'];
    let single = seq!['\''] + value + seq!['\''];
    trim_takes_the_whitespace_around(a, value, b);
    trim_takes_the_whitespace_around(seq![], value, seq![]);
    assert(seq![] + value + seq![] =~= value);
    assert(double.last() == '"');
    assert(single.last() == '\'');
    trim_takes_the_whitespace_around(a, double, b);
    trim_takes_the_whitespace_around(a, single, b);
    assert(double.subrange(1, double.len() - 1) =~= value);
    assert(single.subrange(1, single.len() - 1) =~= value);
    trim_takes_the_whitespace_around(a, seq![], seq![]);
    assert(a + seq![] + seq![] =~= a);
    assert(unquoted(a).len() == 0);
    let spaced = seq!['"'] + (a + value + b) + seq!['"'];
    assert(spaced.last() == '"');
    trim_takes_the_whitespace_around(a, spaced, b);
    assert(spaced.subrange(1, spaced.len() - 1) =~= a + value + b);
    trim_takes_the_whitespace_around(a, seq!['"', '"'], b);
    trim_takes_the_whitespace_around(a, seq!['\'', '\''], b);
    assert(seq!['"', '"'].subrange(1, 1) =~= seq![]);
    assert(seq!['\'', '\''].subrange(1, 1) =~= seq![]);
    trim_takes_the_whitespace_around(seq![], seq![], seq![]);
    assert(seq![] + Seq::<char>::empty() + seq![] =~= Seq::<char>::empty());
    assert(unquoted(a + seq!['"', '"'] + b).len() == 0);
    assert(unquoted(a + seq!['\'', '\''] + b).len() == 0);
}

/// A user is in a list exactly where one of the pieces between its commas is their number.
pub proof fn listed_users_are_the_numbers(pieces: Seq<Seq<char>>, id: u64)
    ensures
        ids_in(pieces).contains(id) <==> exists|i: int|
            0 <= i < pieces.len() && read_u64(trim(#[trigger] pieces[i])) == Some(id),
    decreases pieces.len(),
{
    if pieces.len() > 0 {
        let head = pieces.drop_last();
        listed_users_are_the_numbers(head, id);
        if ids_in(head).contains(id) {
            let i = choose|i: int|
                0 <= i < head.len() && read_u64(trim(#[trigger] head[i])) == Some(id);
            assert(read_u64(trim(pieces[i])) == Some(id));
        }
        if read_u64(trim(pieces.last())) == Some(id) {
            assert(read_u64(trim(pieces[pieces.len() - 1])) == Some(id));
        }
        if exists|i: int| 0 <= i < pieces.len() && read_u64(trim(#[trigger] pieces[i])) == Some(id) {
            let i = choose|i: int|
                0 <= i < pieces.len() && read_u64(trim(#[trigger] pieces[i])) == Some(id);
            if i < head.len() {
                assert(read_u64(trim(head[i])) == Some(id));
            }
        }
    }
}

/// A user decides requests exactly where their number stands in the list of approvers, and may use
/// the bot where there is no list of users, or their number stands in it.
pub proof fn users_have_the_rights_of_their_lists(
    env: Env,
    bad_relay: Option<Seq<char>>,
    bad_listen: Option<Seq<char>>,
    user_id: u64,
)
    ensures
        config_of(env, bad_relay, bad_listen) matches Ok(config) ==> {
            &&& env.optional("APPROVER_USER_IDS"@) matches Some(raw)
            &&& config.approver(user_id) <==> exists|i: int|
                0 <= i < split(raw, ',').len() && read_u64(trim(#[trigger] split(raw, ',')[i]))
                    == Some(user_id)
        },
        config_of(env, bad_relay, bad_listen) matches Ok(config) ==> (config.allowed(user_id) <==> (
        env.optional("ALLOW_USER_IDS"@) matches Some(raw) ==> exists|i: int|
            0 <= i < split(raw, ',').len() && read_u64(trim(#[trigger] split(raw, ',')[i])) == Some(
                user_id,
            ))),
{
    if let Some(raw) = env.optional("APPROVER_USER_IDS"@) {
        listed_users_are_the_numbers(split(raw, ','), user_id);
    }
    if let Some(raw) = env.optional("ALLOW_USER_IDS"@) {
        listed_users_are_the_numbers(split(raw, ','), user_id);
    }
}

proof fn filter_in_front(x: Seq<char>, s: Seq<Seq<char>>, p: spec_fn(Seq<char>) -> bool)
    ensures
        (seq![x] + s).filter(p) == (if p(x) {
            seq![x]
        } else {
            seq![]
        }) + s.filter(p),
    decreases s.len(),
{
    reveal(Seq::filter);
    let all = seq![x] + s;
    if s.len() == 0 {
        assert(all.drop_last() =~= seq![]);
        assert(all.drop_last().filter(p) =~= seq![]);
        assert(s.filter(p) =~= seq![]);
        assert(all.last() == x);
        assert(all.filter(p) =~= if p(x) {
            seq![x]
        } else {
            seq![]
        });
    } else {
        assert(all.drop_last() =~= seq![x] + s.drop_last());
        assert(all.last() == s.last());
        filter_in_front(x, s.drop_last(), p);
    }
}

/// A list is read item by item: what stands before a comma is an item, trimmed, unless it is blank.
pub proof fn lists_are_read_item_by_item(item: Seq<char>, rest: Seq<char>)
    requires
        forall|i: int| 0 <= i < item.len() ==> item[i] != ',',
    ensures
        trim(item).len() > 0 ==> list_items(item) == seq![trim(item)] && list_items(
            item.push(',') + rest,
        ) == seq![trim(item)] + list_items(rest),
        trim(item).len() == 0 ==> list_items(item) == Seq::<Seq<char>>::empty() && list_items(
            item.push(',') + rest,
        ) == list_items(rest),
{
    let trimmed = |v: Seq<char>| trim(v);
    let given = |v: Seq<char>| v.len() > 0;
    pieces_stand_between_copies(item, ',', rest);
    let more = split(rest, ',').map_values(trimmed);
    assert(seq![item].map_values(trimmed) =~= seq![trim(item)] + seq![]);
    assert((seq![item] + split(rest, ',')).map_values(trimmed) =~= seq![trim(item)] + more);
    filter_in_front(trim(item), seq![], given);
    filter_in_front(trim(item), more, given);
    reveal(Seq::filter);
    assert(Seq::<Seq<char>>::empty().filter(given) =~= seq![]);
    assert(list_items(item) =~= if trim(item).len() > 0 {
        seq![trim(item)]
    } else {
        seq![]
    });
    if trim(item).len() == 0 {
        assert(list_items(item.push(',') + rest) =~= list_items(rest));
    }
}

/// The item that a list is refused for is the first one that is no number.
pub proof fn first_bad_item_is_named(items: Seq<Seq<char>>, i: int)
    requires
        0 <= i <= items.len(),
        i < items.len() ==> read_i64(items[i]) is None,
        forall|j: int| 0 <= j < i ==> read_i64(#[trigger] items[j]) is Some,
    ensures
        bad_item(items) == if i < items.len() {
            Some(items[i])
        } else {
            None
        },
    decreases items.len(),
{
    if i > 0 {
        assert(read_i64(items[0]) is Some);
        let rest = items.drop_first();
        assert forall|j: int| 0 <= j < i - 1 implies read_i64(#[trigger] rest[j]) is Some by {
            assert(rest[j] == items[j + 1]);
        }
        first_bad_item_is_named(rest, i - 1);
    }
}

proof fn bad_item_is_first(items: Seq<Seq<char>>)
    ensures
        bad_item(items) is None <==> forall|i: int|
            0 <= i < items.len() ==> read_i64(#[trigger] items[i]) is Some,
        bad_item(items) matches Some(item) ==> items.contains(item) && read_i64(item) is None,
    decreases items.len(),
{
    if items.len() > 0 {
        let rest = items.drop_first();
        bad_item_is_first(rest);
        if read_i64(items[0]) is Some {
            if bad_item(rest) is None {
                assert forall|i: int| 0 <= i < items.len() implies read_i64(
                    #[trigger] items[i],
                ) is Some by {
                    if i > 0 {
                        assert(rest[i - 1] == items[i]);
                    }
                }
            } else {
                let item = bad_item(rest)->0;
                let k = choose|k: int| 0 <= k < rest.len() && rest[k] == item;
                assert(items[k + 1] == item);
            }
        } else {
            assert(items.contains(items[0]));
        }
    }
}

/// The panel is what the variables say: the token before the login, the addresses with and without
/// a slash at their end, the inbounds in their order, and the rest with its defaults.
pub proof fn panel_is_what_the_variables_say(env: Env)
    ensures
        panel_of(env) matches Ok(panel) ==> {
            &&& match env.optional("XUI_API_TOKEN"@) {
                Some(token) => panel.auth == AuthModel::Token(token),
                None => env.optional("XUI_USERNAME"@) is Some && env.optional(
                    "XUI_PASSWORD"@,
                ) is Some && panel.auth == (AuthModel::Password {
                    username: env.optional("XUI_USERNAME"@)->0,
                    password: env.optional("XUI_PASSWORD"@)->0,
                }),
            }
            &&& env.optional("XUI_BASE_URL"@) matches Some(base)
            &&& panel.base_url == strip_trailing(base, '/')
            &&& env.optional("XUI_SUBSCRIPTION_BASE_URL"@) matches Some(subscription)
            &&& panel.subscription_base_url == if subscription.last() == '/' {
                subscription
            } else {
                subscription.push('/')
            }
            &&& env.optional("XUI_INBOUND_IDS"@) matches Some(raw)
            &&& panel.inbound_ids.len() == list_items(raw).len()
            &&& forall|i: int|
                0 <= i < panel.inbound_ids.len() ==> read_i64(#[trigger] list_items(raw)[i])
                    == Some(panel.inbound_ids[i])
            &&& match env.optional("XUI_CLIENT_FLOW"@) {
                Some(flow) => panel.client_flow == flow,
                None => panel.client_flow.len() == 0,
            }
            &&& match env.optional("XUI_TOTAL_GB"@) {
                Some(gigabytes) => read_u64(gigabytes) == Some(panel.total_gb),
                None => panel.total_gb == 0,
            }
        },
{
    reveal_strlit("");
    if let Ok(panel) = panel_of(env) {
        let raw = env.optional("XUI_INBOUND_IDS"@)->0;
        bad_item_is_first(list_items(raw));
    }
}

/// The checks are what the variables say, with their defaults: switched off without a relay, five
/// minutes apart, and at least one failure before an alert.
pub proof fn checks_are_what_the_variables_say(env: Env, bad_addr: Option<Seq<char>>)
    ensures
        env.optional("HEALTH_RELAY_ADDR"@) is None <==> health_of(env, bad_addr) == Ok::<
            Option<HealthModel>,
            ErrorModel,
        >(None),
        health_of(env, bad_addr) matches Ok(Some(health)) ==> {
            &&& bad_addr is None
            &&& env.optional("HEALTH_RELAY_ADDR"@) == Some(health.relay_addr)
            &&& health.subscription_url == env.optional("HEALTH_SUBSCRIPTION_URL"@)
            &&& match env.optional("HEALTH_SNIS"@) {
                Some(raw) => health.snis == list_items(raw),
                None => health.snis == list_items("ign.com"@),
            }
            &&& match env.optional("HEALTH_INTERVAL_SECS"@) {
                Some(secs) => read_u64(secs) == Some(health.interval_secs),
                None => health.interval_secs == 300,
            }
            &&& match env.optional("HEALTH_FAIL_THRESHOLD"@) {
                Some(count) => read_u32(count) == Some(health.fail_threshold) || (read_u32(count)
                    == Some(0u32) && health.fail_threshold == 1),
                None => health.fail_threshold == 2,
            }
            &&& health.fail_threshold >= 1
        },
{
}

/// The server of the Mini App is what the variables say: switched off without a public address,
/// refused where that is not encrypted, and on the local machine by default.
pub proof fn server_is_what_the_variables_say(env: Env, bad_addr: Option<Seq<char>>)
    ensures
        env.optional("WEB_PUBLIC_URL"@) is None <==> web_of(env, bad_addr) == Ok::<
            Option<WebModel>,
            ErrorModel,
        >(None),
        env.optional("WEB_PUBLIC_URL"@) matches Some(url) ==> (!"https://"@.is_prefix_of(url)
            <==> web_of(env, bad_addr) == Err::<Option<WebModel>, ErrorModel>(
            ErrorModel::NotHttps,
        )),
        web_of(env, bad_addr) matches Ok(Some(web)) ==> {
            &&& env.optional("WEB_PUBLIC_URL"@) == Some(web.public_url)
            &&& web.listen == match env.optional("WEB_LISTEN"@) {
                Some(listen) => listen,
                None => "127.0.0.1:8080"@,
            }
        },
        env.optional("WEB_PUBLIC_URL"@) matches Some(url) ==> "https://"@.is_prefix_of(url)
            && bad_addr is None ==> web_of(env, bad_addr) is Ok,
{
    if let Some(url) = env.optional("WEB_PUBLIC_URL"@) {
        starts_and_holds(url, seq![], "https://"@, seq![]);
    }
}

/// A configuration is accepted exactly where everything that has to be there is, and every number
/// is one; and its parts are those that the variables give.
pub proof fn configuration_is_accepted_where_complete(
    env: Env,
    bad_relay: Option<Seq<char>>,
    bad_listen: Option<Seq<char>>,
)
    ensures
        config_of(env, bad_relay, bad_listen) is Ok <==> {
            &&& env.optional("APPROVER_USER_IDS"@) matches Some(raw)
            &&& user_ids(raw) != Set::<u64>::empty()
            &&& panel_of(env) is Ok
            &&& health_of(env, bad_relay) is Ok
            &&& web_of(env, bad_listen) is Ok
        },
        panel_of(env) is Ok <==> {
            &&& env.optional("XUI_API_TOKEN"@) is Some || (env.optional("XUI_USERNAME"@) is Some
                && env.optional("XUI_PASSWORD"@) is Some)
            &&& env.optional("XUI_INBOUND_IDS"@) matches Some(raw)
            &&& list_items(raw).len() > 0
            &&& forall|i: int|
                0 <= i < list_items(raw).len() ==> read_i64(#[trigger] list_items(raw)[i]) is Some
            &&& env.optional("XUI_SUBSCRIPTION_BASE_URL"@) is Some
            &&& env.optional("XUI_BASE_URL"@) is Some
            &&& (env.optional("XUI_TOTAL_GB"@) matches Some(gigabytes) ==> read_u64(
                gigabytes,
            ) is Some)
        },
        config_of(env, bad_relay, bad_listen) matches Ok(config) ==> {
            &&& panel_of(env) == Ok::<PanelModel, ErrorModel>(config.panel)
            &&& health_of(env, bad_relay) == Ok::<Option<HealthModel>, ErrorModel>(config.health)
            &&& web_of(env, bad_listen) == Ok::<Option<WebModel>, ErrorModel>(config.web)
            &&& config.sqlite_path == match env.optional("SQLITE_PATH"@) {
                Some(path) => path,
                None => "vpn_bot.sqlite3"@,
            }
        },
{
    if let Some(raw) = env.optional("XUI_INBOUND_IDS"@) {
        bad_item_is_first(list_items(raw));
    }
}

/// A configuration is refused for the first thing that is wrong with it: the approvers, the panel, the
/// checks, and the server of the Mini App, in this order.
pub proof fn refusal_is_for_the_first_fault(
    env: Env,
    bad_relay: Option<Seq<char>>,
    bad_listen: Option<Seq<char>>,
)
    ensures
        env.optional("APPROVER_USER_IDS"@) is None ==> config_of(env, bad_relay, bad_listen)
            == Err::<ConfigModel, ErrorModel>(ErrorModel::NotSet("APPROVER_USER_IDS"@)),
        env.optional("APPROVER_USER_IDS"@) matches Some(raw) ==> {
            &&& user_ids(raw) == Set::<u64>::empty() ==> config_of(env, bad_relay, bad_listen)
                == Err::<ConfigModel, ErrorModel>(ErrorModel::NoApprovers)
            &&& user_ids(raw) != Set::<u64>::empty() ==> (panel_of(env) matches Err(e)
                ==> config_of(env, bad_relay, bad_listen) == Err::<ConfigModel, ErrorModel>(e))
            &&& user_ids(raw) != Set::<u64>::empty() && panel_of(env) is Ok ==> (health_of(
                env,
                bad_relay,
            ) matches Err(e) ==> config_of(env, bad_relay, bad_listen) == Err::<
                ConfigModel,
                ErrorModel,
            >(e))
            &&& user_ids(raw) != Set::<u64>::empty() && panel_of(env) is Ok && health_of(
                env,
                bad_relay,
            ) is Ok ==> (web_of(env, bad_listen) matches Err(e) ==> config_of(
                env,
                bad_relay,
                bad_listen,
            ) == Err::<ConfigModel, ErrorModel>(e))
        },
{
}

/// A panel is refused for the first of its variables that is missing or wrong: what gives access to
/// it, its inbounds, the address of the subscriptions, its own, and the quota.
pub proof fn panel_is_refused_for_its_first_fault(env: Env)
    ensures
        ({
            let username = env.optional("XUI_USERNAME"@);
            let password = env.optional("XUI_PASSWORD"@);
            let open = env.optional("XUI_API_TOKEN"@) is Some || (username is Some
                && password is Some);
            let inbounds = env.optional("XUI_INBOUND_IDS"@);
            let listed = inbounds is Some && list_items(inbounds->0).len() > 0 && forall|i: int|
                0 <= i < list_items(inbounds->0).len() ==> read_i64(
                    #[trigger] list_items(inbounds->0)[i],
                ) is Some;
            let subscription = env.optional("XUI_SUBSCRIPTION_BASE_URL"@);
            let base = env.optional("XUI_BASE_URL"@);
            let quota = env.optional("XUI_TOTAL_GB"@);
            &&& !open && username is None ==> panel_of(env) == Err::<PanelModel, ErrorModel>(
                ErrorModel::NoAuth("XUI_USERNAME"@),
            )
            &&& !open && username is Some ==> panel_of(env) == Err::<PanelModel, ErrorModel>(
                ErrorModel::NoAuth("XUI_PASSWORD"@),
            )
            &&& open && inbounds is None ==> panel_of(env) == Err::<PanelModel, ErrorModel>(
                ErrorModel::NotSet("XUI_INBOUND_IDS"@),
            )
            &&& open && inbounds is Some && list_items(inbounds->0).len() == 0 ==> panel_of(env)
                == Err::<PanelModel, ErrorModel>(ErrorModel::NoInbounds)
            &&& open && inbounds is Some && !listed && list_items(inbounds->0).len() > 0 ==> panel_of(
                env,
            ) == Err::<PanelModel, ErrorModel>(
                ErrorModel::BadInbound(bad_item(list_items(inbounds->0))->0),
            )
            &&& open && listed && subscription is None ==> panel_of(env) == Err::<
                PanelModel,
                ErrorModel,
            >(ErrorModel::NotSet("XUI_SUBSCRIPTION_BASE_URL"@))
            &&& open && listed && subscription is Some && base is None ==> panel_of(env) == Err::<
                PanelModel,
                ErrorModel,
            >(ErrorModel::NotSet("XUI_BASE_URL"@))
            &&& open && listed && subscription is Some && base is Some && quota is Some && read_u64(
                quota->0,
            ) is None ==> panel_of(env) == Err::<PanelModel, ErrorModel>(
                (ErrorModel::BadValue { key: "XUI_TOTAL_GB"@, value: quota->0 }),
            )
        }),
{
    if let Some(raw) = env.optional("XUI_INBOUND_IDS"@) {
        bad_item_is_first(list_items(raw));
    }
}

/// The checks and the server are refused for the first of their variables that is wrong, and are
/// accepted where none is.
pub proof fn checks_and_server_are_refused_for_their_first_fault(env: Env, cause: Seq<char>)
    ensures
        ({
            let interval = env.optional("HEALTH_INTERVAL_SECS"@);
            let threshold = env.optional("HEALTH_FAIL_THRESHOLD"@);
            let timed = interval matches Some(secs) ==> read_u64(secs) is Some;
            let counted = threshold matches Some(count) ==> read_u32(count) is Some;
            env.optional("HEALTH_RELAY_ADDR"@) is Some ==> {
                &&& health_of(env, Some(cause)) == Err::<Option<HealthModel>, ErrorModel>(
                    ErrorModel::BadRelay(cause),
                )
                &&& !timed ==> health_of(env, None) == Err::<Option<HealthModel>, ErrorModel>(
                    (ErrorModel::BadValue { key: "HEALTH_INTERVAL_SECS"@, value: interval->0 }),
                )
                &&& timed && !counted ==> health_of(env, None) == Err::<
                    Option<HealthModel>,
                    ErrorModel,
                >((ErrorModel::BadValue { key: "HEALTH_FAIL_THRESHOLD"@, value: threshold->0 }))
                &&& timed && counted ==> health_of(env, None) is Ok
            }
        }),
        env.optional("WEB_PUBLIC_URL"@) matches Some(url) ==> "https://"@.is_prefix_of(url)
            ==> web_of(env, Some(cause)) == Err::<Option<WebModel>, ErrorModel>(
            ErrorModel::BadListen(cause),
        ),
{
    if let Some(url) = env.optional("WEB_PUBLIC_URL"@) {
        start_is_a_prefix(url, "https://"@);
    }
}

/// An error names the variable that it is about.
pub proof fn errors_name_their_variable(key: Seq<char>, value: Seq<char>, cause: Seq<char>)
    ensures
        ErrorModel::NotSet(key).text() == key + " is not set"@,
        key.is_prefix_of((ErrorModel::BadValue { key, value }).text()),
        (ErrorModel::BadValue { key, value }).text() == key + " has invalid value `"@ + value
            + "`"@,
        (key + " is not set"@).is_suffix_of(ErrorModel::NoAuth(key).text()),
        ErrorModel::BadInbound(value).text()
            == "XUI_INBOUND_IDS must be comma-separated integers: invalid list item `"@ + value
            + "`"@,
        ErrorModel::BadRelay(cause).text() == "HEALTH_RELAY_ADDR must be ip:port: "@ + cause,
        ErrorModel::BadListen(cause).text() == "WEB_LISTEN must be ip:port: "@ + cause,
{
    let bad = (ErrorModel::BadValue { key, value }).text();
    assert(key =~= bad.subrange(0, key.len() as int));
    let none = ErrorModel::NoAuth(key).text();
    let end = key + " is not set"@;
    assert(end =~= none.subrange(none.len() - end.len(), none.len() as int));
}

/// What is read of a variable is never empty.
pub proof fn values_are_not_empty(env: Env, key: Seq<char>)
    ensures
        env.optional(key) matches Some(value) ==> value.len() > 0,
{
}

} // verus!
