//! What the Mini App is answered.

use vstd::prelude::*;
use vstd::utf8::encode_utf8;

use crate::access::{AccessModel, AccessStatus, RequestModel, RequestOutcome};
use crate::bot::ui::{ACCESS_DENIED, USER_ERROR};
use crate::config::{AppConfig, ConfigModel};
use crate::health::{
    all_good, good_count, good_results_are_counted, result_models, HealthSnapshot, ResultModel,
};
use crate::outside::{
    base64_encode, base64_text, percent_encoded, qr_png, QrFailure, QrFailureModel,
};
use crate::panel::client::{subscription_address, Panel};
use crate::panel::models::{Client, ClientModel};
use crate::qr::render_qr_png;

use super::auth::{AuthError, WebAppUser};

verus! {

/// What is said when the page was open for too long.
pub const SESSION_EXPIRED: &'static str = "Сессия устарела — закрой и открой страницу заново.";

/// What is said when the page was not opened from the bot.
pub const OPEN_FROM_BOT: &'static str = "Открой эту страницу из бота в Telegram.";

/// What is said when a request leads to an error.
pub const SERVER_ERROR: &'static str = USER_ERROR;

/// What is said when the page is asked to open something else than a subscription of the panel.
pub const UNKNOWN_SUBSCRIPTION: &'static str = "unknown subscription";

/// What the page shows. The status decides on the screen; the rest is there where it matters.
#[derive(Debug)]
pub struct StateResponse {
    pub status: String,
    pub name: String,
    pub request_id: Option<u64>,
    pub subscription_url: Option<String>,
    pub qr_png_base64: Option<String>,
}

/// What the page shows.
pub struct ResponseModel {
    pub status: Seq<char>,
    pub name: Seq<char>,
    pub request_id: Option<u64>,
    pub subscription_url: Option<Seq<char>>,
    pub qr_png_base64: Option<Seq<char>>,
}

impl View for StateResponse {
    type V = ResponseModel;

    open spec fn view(&self) -> ResponseModel {
        ResponseModel {
            status: self.status@,
            name: self.name@,
            request_id: self.request_id,
            subscription_url: self.subscription_url.deep_view(),
            qr_png_base64: self.qr_png_base64.deep_view(),
        }
    }
}

/// Why a request is refused.
#[derive(Debug, Clone, Copy, PartialEq, Eq, Structural)]
pub enum Rejection {
    Unauthorized(AuthError),
    Forbidden,
}

impl Rejection {
    /// The HTTP status of the refusal.
    pub open spec fn code(self) -> u16 {
        if self is Forbidden {
            403
        } else {
            401
        }
    }

    /// The HTTP status of the refusal.
    pub fn status(self) -> (r: u16)
        ensures
            r == self.code(),
    {
        match self {
            Rejection::Unauthorized(_) => 401,
            Rejection::Forbidden => 403,
        }
    }

    /// What is said of the refusal.
    pub open spec fn text(self) -> Seq<char> {
        match self {
            Rejection::Unauthorized(AuthError::Expired) => SESSION_EXPIRED@,
            Rejection::Unauthorized(_) => OPEN_FROM_BOT@,
            Rejection::Forbidden => ACCESS_DENIED@,
        }
    }

    /// What is said of the refusal.
    pub fn message(self) -> (r: String)
        ensures
            r@ == self.text(),
    {
        match self {
            Rejection::Unauthorized(error) => match error {
                AuthError::Expired => SESSION_EXPIRED.to_string(),
                AuthError::Malformed => OPEN_FROM_BOT.to_string(),
                AuthError::BadSignature => OPEN_FROM_BOT.to_string(),
            },
            Rejection::Forbidden => ACCESS_DENIED.to_string(),
        }
    }
}

/// Who may ask: a user whose data is signed and who may use the bot.
pub open spec fn authenticated(
    config: ConfigModel,
    verified: Result<WebAppUser, AuthError>,
) -> Result<WebAppUser, Rejection> {
    match verified {
        Err(error) => Err(Rejection::Unauthorized(error)),
        Ok(user) => if config.allowed(user.id) {
            Ok(user)
        } else {
            Err(Rejection::Forbidden)
        },
    }
}

/// Who may ask: a user whose data is signed and who may use the bot.
pub fn authenticate(config: &AppConfig, verified: Result<WebAppUser, AuthError>) -> (r: Result<
    WebAppUser,
    Rejection,
>)
    ensures
        r == authenticated(config@, verified),
{
    match verified {
        Err(error) => Err(Rejection::Unauthorized(error)),
        Ok(user) => {
            if config.is_allowed(user.id) {
                Ok(user)
            } else {
                Err(Rejection::Forbidden)
            }
        },
    }
}

/// Nobody gets through without signed data or without being allowed.
pub proof fn only_allowed_users_pass(
    config: ConfigModel,
    verified: Result<WebAppUser, AuthError>,
)
    ensures
        authenticated(config, verified) matches Ok(user) ==> verified
            == Ok::<WebAppUser, AuthError>(user) && config.allowed(user.id),
{
}

/// A user who may use the bot gets through with signed data, another one is forbidden to, and
/// without signed data nobody is authorized.
pub proof fn every_user_is_answered_by_their_right(
    config: ConfigModel,
    user: WebAppUser,
    error: AuthError,
)
    ensures
        config.allowed(user.id) ==> authenticated(config, Ok(user)) == Ok::<WebAppUser, Rejection>(
            user,
        ),
        !config.allowed(user.id) ==> authenticated(config, Ok(user)) == Err::<WebAppUser, Rejection>(
            Rejection::Forbidden,
        ),
        authenticated(config, Err(error)) == Err::<WebAppUser, Rejection>(
            Rejection::Unauthorized(error),
        ),
{
}

/// A refusal says what to do: to open the page again once it has expired, to open it from the bot
/// where the data is no good, and that there is no access where the user may not use the bot.
pub proof fn refusals_say_what_to_do()
    ensures
        Rejection::Unauthorized(AuthError::Expired).text()
            == "Сессия устарела — закрой и открой страницу заново."@,
        Rejection::Unauthorized(AuthError::Malformed).text()
            == "Открой эту страницу из бота в Telegram."@,
        Rejection::Unauthorized(AuthError::BadSignature).text()
            == "Открой эту страницу из бота в Telegram."@,
        Rejection::Forbidden.text() == "Доступ запрещён."@,
        Rejection::Forbidden.code() == 403,
        forall|e: AuthError| #[trigger] Rejection::Unauthorized(e).code() == 401,
{
}

/// What is shown to a user with nothing but a status.
pub open spec fn bare_response(status: Seq<char>, name: Seq<char>) -> ResponseModel {
    ResponseModel { status, name, request_id: None, subscription_url: None, qr_png_base64: None }
}

/// What is shown to a user who waits.
pub open spec fn pending_response(name: Seq<char>, id: u64) -> ResponseModel {
    ResponseModel { request_id: Some(id), ..bare_response("pending"@, name) }
}

/// What is shown to a user with a subscription.
pub open spec fn active_response(name: Seq<char>, base: Seq<char>, client: ClientModel) -> Result<
    ResponseModel,
    QrFailureModel,
> {
    let url = subscription_address(base, client.sub_id);
    match qr_png(url) {
        Ok(png) => Ok(
            ResponseModel {
                subscription_url: Some(url),
                qr_png_base64: Some(base64_text(png)),
                ..bare_response("active"@, name)
            },
        ),
        Err(failure) => Err(failure),
    }
}

/// A response that may have failed, as a model.
pub open spec fn response_result(r: Result<StateResponse, QrFailure>) -> Result<
    ResponseModel,
    QrFailureModel,
> {
    match r {
        Ok(response) => Ok(response@),
        Err(failure) => Err(failure@),
    }
}

/// What is shown to a user who asks for their state.
pub open spec fn state_response(name: Seq<char>, base: Seq<char>, status: AccessModel) -> Result<
    ResponseModel,
    QrFailureModel,
> {
    match status {
        AccessModel::Active(client) => active_response(name, base, client),
        AccessModel::Pending(id) => Ok(pending_response(name, id)),
        AccessModel::Nothing => Ok(bare_response("none"@, name)),
    }
}

/// What is shown to a user who asks for access.
pub open spec fn access_response(name: Seq<char>, base: Seq<char>, outcome: RequestModel) -> Result<
    ResponseModel,
    QrFailureModel,
> {
    match outcome {
        RequestModel::AlreadyActive(client) => active_response(name, base, client),
        RequestModel::Created(id) => Ok(pending_response(name, id)),
        RequestModel::AlreadyPending(id) => Ok(pending_response(name, id)),
    }
}

/// A user with a client is shown as active, with the own address, which is also the content of the
/// picture; where no picture can be made of it, that is the error.
pub proof fn active_user_sees_the_own_address(
    name: Seq<char>,
    base: Seq<char>,
    client: ClientModel,
)
    ensures
        ({
            let link = base + percent_encoded(encode_utf8(client.sub_id));
            &&& (qr_png(link) matches Ok(png) ==> state_response(
                name,
                base,
                AccessModel::Active(client),
            ) == Ok::<ResponseModel, QrFailureModel>(
                ResponseModel {
                    status: "active"@,
                    name,
                    request_id: None,
                    subscription_url: Some(link),
                    qr_png_base64: Some(base64_text(png)),
                },
            ))
            &&& (qr_png(link) matches Err(failure) ==> state_response(
                name,
                base,
                AccessModel::Active(client),
            ) == Err::<ResponseModel, QrFailureModel>(failure))
        }),
        access_response(name, base, RequestModel::AlreadyActive(client)) == state_response(
            name,
            base,
            AccessModel::Active(client),
        ),
{
}

/// A user who waits is shown the number of their request, whether it is new or not, and nobody but
/// a user with a client is shown an address.
pub proof fn waiting_user_sees_the_number(name: Seq<char>, base: Seq<char>, id: u64)
    ensures
        state_response(name, base, AccessModel::Pending(id)) == Ok::<ResponseModel, QrFailureModel>(
            ResponseModel {
                status: "pending"@,
                name,
                request_id: Some(id),
                subscription_url: None,
                qr_png_base64: None,
            },
        ),
        access_response(name, base, RequestModel::Created(id)) == state_response(
            name,
            base,
            AccessModel::Pending(id),
        ),
        access_response(name, base, RequestModel::AlreadyPending(id)) == state_response(
            name,
            base,
            AccessModel::Pending(id),
        ),
        state_response(name, base, AccessModel::Nothing) == Ok::<ResponseModel, QrFailureModel>(
            ResponseModel {
                status: "none"@,
                name,
                request_id: None,
                subscription_url: None,
                qr_png_base64: None,
            },
        ),
{
}

fn bare(status: &str, name: &str) -> (r: StateResponse)
    ensures
        r@ == bare_response(status@, name@),
{
    StateResponse {
        status: status.to_string(),
        name: name.to_string(),
        request_id: None,
        subscription_url: None,
        qr_png_base64: None,
    }
}

/// What is shown to a user with a subscription, with the image that was made for it.
pub fn active_with_image(name: &str, url: String, png: &Vec<u8>) -> (r: StateResponse)
    ensures
        r@ == (ResponseModel {
            subscription_url: Some(url@),
            qr_png_base64: Some(base64_text(png@)),
            ..bare_response("active"@, name@)
        }),
{
    let mut response = bare("active", name);
    response.subscription_url = Some(url);
    response.qr_png_base64 = Some(base64_encode(png));
    response
}

/// What is shown to a user with a subscription.
pub fn active(panel: &Panel, user: &WebAppUser, client: &Client) -> (r: Result<
    StateResponse,
    QrFailure,
>)
    ensures
        response_result(r) == active_response(
            user.first_name@,
            panel.config@.subscription_base_url,
            client@,
        ),
{
    let url = panel.subscription_url(client);
    match render_qr_png(&url) {
        Ok(png) => Ok(active_with_image(&user.first_name, url, &png)),
        Err(failure) => Err(failure),
    }
}

/// What is shown to a user who waits.
pub fn pending(user: &WebAppUser, id: u64) -> (r: StateResponse)
    ensures
        r@ == pending_response(user.first_name@, id),
{
    let mut response = bare("pending", &user.first_name);
    response.request_id = Some(id);
    response
}

/// What is shown to a user without a username.
pub fn no_username(user: &WebAppUser) -> (r: StateResponse)
    ensures
        r@ == bare_response("no_username"@, user.first_name@),
{
    bare("no_username", &user.first_name)
}

/// The username of a user who asks; what is shown to one who has none.
pub fn respond(user: &WebAppUser) -> (r: Result<String, StateResponse>)
    ensures
        match user.username {
            Some(username) => r matches Ok(name) && name@ == username@,
            None => r matches Err(response) && response@ == bare_response(
                "no_username"@,
                user.first_name@,
            ),
        },
{
    match &user.username {
        Some(username) => Ok(username.clone()),
        None => Err(no_username(user)),
    }
}

/// What is shown to a user who asks for their state.
pub fn get_state(panel: &Panel, user: &WebAppUser, status: &AccessStatus) -> (r: Result<
    StateResponse,
    QrFailure,
>)
    ensures
        response_result(r) == state_response(
            user.first_name@,
            panel.config@.subscription_base_url,
            status@,
        ),
{
    match status {
        AccessStatus::Active(client) => active(panel, user, client),
        AccessStatus::Pending(id) => Ok(pending(user, *id)),
        AccessStatus::Nothing => Ok(bare("none", &user.first_name)),
    }
}

/// What is shown to a user who asks for access.
pub fn request_access(panel: &Panel, user: &WebAppUser, outcome: &RequestOutcome) -> (r: Result<
    StateResponse,
    QrFailure,
>)
    ensures
        response_result(r) == access_response(
            user.first_name@,
            panel.config@.subscription_base_url,
            outcome@,
        ),
{
    match outcome {
        RequestOutcome::AlreadyActive(client) => active(panel, user, client),
        RequestOutcome::Created(id) => Ok(pending(user, *id)),
        RequestOutcome::AlreadyPending(id) => Ok(pending(user, *id)),
    }
}

/// The state of the VPN.
#[derive(Debug)]
pub struct StatusResponse {
    /// `ok`, `degraded`, or `unknown` before the first round of checks.
    pub vpn: String,
    pub checked_at: Option<i64>,
    pub checks_ok: usize,
    pub checks_total: usize,
}

/// The state of the VPN.
pub struct VpnModel {
    pub vpn: Seq<char>,
    pub checked_at: Option<i64>,
    pub checks_ok: nat,
    pub checks_total: nat,
}

impl View for StatusResponse {
    type V = VpnModel;

    open spec fn view(&self) -> VpnModel {
        VpnModel {
            vpn: self.vpn@,
            checked_at: self.checked_at,
            checks_ok: self.checks_ok as nat,
            checks_total: self.checks_total as nat,
        }
    }
}

/// The state of the VPN, as the latest results say.
pub open spec fn vpn_state(latest: Option<(i64, Seq<ResultModel>)>) -> VpnModel {
    match latest {
        None => VpnModel { vpn: "unknown"@, checked_at: None, checks_ok: 0, checks_total: 0 },
        Some((checked_at, results)) => VpnModel {
            vpn: if all_good(results) {
                "ok"@
            } else {
                "degraded"@
            },
            checked_at: Some(checked_at),
            checks_ok: good_count(results),
            checks_total: results.len(),
        },
    }
}

/// The state is good exactly where every check is, unknown before the first round, and degraded
/// otherwise; the checks are counted, and the moment is that of the round.
pub proof fn vpn_is_ok_where_all_checks_are(checked_at: i64, results: Seq<ResultModel>)
    ensures
        ({
            let state = vpn_state(Some((checked_at, results)));
            &&& state.checked_at == Some(checked_at)
            &&& state.checks_total == results.len()
            &&& state.checks_ok == results.filter(|r: ResultModel| r.ok).len()
            &&& ((forall|i: int| 0 <= i < results.len() ==> (#[trigger] results[i]).ok)
                ==> state.vpn == "ok"@)
            &&& ((exists|i: int| 0 <= i < results.len() && !(#[trigger] results[i]).ok)
                ==> state.vpn == "degraded"@)
        }),
        vpn_state(None).vpn == "unknown"@,
        vpn_state(None).checked_at is None,
        vpn_state(None).checks_ok == 0 && vpn_state(None).checks_total == 0,
{
    good_results_are_counted(results);
}

/// The state of the VPN.
pub fn get_status(health: &Option<HealthSnapshot>) -> (r: StatusResponse)
    ensures
        r@ == vpn_state(
            match health {
                None => None,
                Some(snapshot) => Some((snapshot.checked_at, result_models(snapshot.results@))),
            },
        ),
{
    match health {
        None => StatusResponse {
            vpn: "unknown".to_string(),
            checked_at: None,
            checks_ok: 0,
            checks_total: 0,
        },
        Some(snapshot) => {
            let vpn = if snapshot.all_ok() {
                "ok".to_string()
            } else {
                "degraded".to_string()
            };
            StatusResponse {
                vpn,
                checked_at: Some(snapshot.checked_at),
                checks_ok: snapshot.count_ok(),
                checks_total: snapshot.results.len(),
            }
        },
    }
}

} // verus!
