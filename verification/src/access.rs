//! Who has a subscription, who waits for one, and the filing of requests.

use vstd::prelude::*;

use crate::panel::client::{client_of, find_client, first_client_is_found};
use crate::panel::login::{normalize_login, normalized};
use crate::panel::models::{client_models, Client, ClientModel};
use crate::storage::InsertResult;

verus! {

/// What a user has.
#[derive(Debug)]
pub enum AccessStatus {
    Active(Client),
    Pending(u64),
    Nothing,
}

/// What becomes of a request.
#[derive(Debug)]
pub enum RequestOutcome {
    AlreadyActive(Client),
    Created(u64),
    AlreadyPending(u64),
}

/// What a user has.
pub enum AccessModel {
    Active(ClientModel),
    Pending(u64),
    Nothing,
}

/// What becomes of a request.
pub enum RequestModel {
    AlreadyActive(ClientModel),
    Created(u64),
    AlreadyPending(u64),
}

impl View for AccessStatus {
    type V = AccessModel;

    open spec fn view(&self) -> AccessModel {
        match self {
            AccessStatus::Active(client) => AccessModel::Active(client@),
            AccessStatus::Pending(id) => AccessModel::Pending(*id),
            AccessStatus::Nothing => AccessModel::Nothing,
        }
    }
}

impl View for RequestOutcome {
    type V = RequestModel;

    open spec fn view(&self) -> RequestModel {
        match self {
            RequestOutcome::AlreadyActive(client) => RequestModel::AlreadyActive(client@),
            RequestOutcome::Created(id) => RequestModel::Created(*id),
            RequestOutcome::AlreadyPending(id) => RequestModel::AlreadyPending(*id),
        }
    }
}

/// What a user has: a client of the panel counts before a request.
pub open spec fn status_of(
    clients: Seq<ClientModel>,
    username: Seq<char>,
    pending: Option<u64>,
) -> AccessModel {
    match client_of(clients, username) {
        Some(client) => AccessModel::Active(client),
        None => match pending {
            Some(id) => AccessModel::Pending(id),
            None => AccessModel::Nothing,
        },
    }
}

/// What a user has.
pub fn status(clients: &Vec<Client>, username: &str, pending: Option<u64>) -> (r: AccessStatus)
    ensures
        r@ == status_of(client_models(clients@), username@, pending),
{
    match find_client(clients, username) {
        Some(client) => AccessStatus::Active(client),
        None => match pending {
            Some(id) => AccessStatus::Pending(id),
            None => AccessStatus::Nothing,
        },
    }
}

/// What a request leads to before anything is filed.
#[derive(Debug)]
pub enum RequestStep {
    /// The user has a subscription.
    Answer(RequestOutcome),
    /// A request is to be filed under this login.
    File(String),
}

/// What a request leads to before anything is filed.
pub enum StepModel {
    Answer(RequestModel),
    File(Seq<char>),
}

impl View for RequestStep {
    type V = StepModel;

    open spec fn view(&self) -> StepModel {
        match self {
            RequestStep::Answer(outcome) => StepModel::Answer(outcome@),
            RequestStep::File(login) => StepModel::File(login@),
        }
    }
}

/// What a request leads to: nothing is filed for a user who has a subscription.
pub open spec fn requested(clients: Seq<ClientModel>, username: Seq<char>) -> StepModel {
    match client_of(clients, normalized(username)) {
        Some(client) => StepModel::Answer(RequestModel::AlreadyActive(client)),
        None => StepModel::File(normalized(username)),
    }
}

/// What becomes of a request that was filed, and whether the approvers are told of it.
pub open spec fn filing(result: InsertResult) -> (RequestModel, bool) {
    match result {
        InsertResult::Created(id) => (RequestModel::Created(id), true),
        InsertResult::AlreadyPending(id) => (RequestModel::AlreadyPending(id), false),
    }
}

/// A request is filed, under the login of the user, exactly where no client has that login; the
/// user of a client gets that client instead.
pub proof fn only_users_without_a_client_file(
    clients: Seq<ClientModel>,
    username: Seq<char>,
    i: int,
)
    requires
        0 <= i <= clients.len(),
        i < clients.len() ==> normalized(clients[i].login) == normalized(normalized(username)),
        forall|j: int|
            0 <= j < i ==> normalized((#[trigger] clients[j]).login) != normalized(
                normalized(username),
            ),
    ensures
        i < clients.len() ==> requested(clients, username) == StepModel::Answer(
            RequestModel::AlreadyActive(clients[i]),
        ),
        i == clients.len() ==> requested(clients, username) == StepModel::File(
            normalized(username),
        ),
{
    first_client_is_found(clients, normalized(username), i);
}

/// The approvers are told of a request exactly once: when it is new, and not when it waits already.
/// The user gets its number either way.
pub proof fn approvers_are_told_of_new_requests(id: u64)
    ensures
        filing(InsertResult::Created(id)).1,
        !filing(InsertResult::AlreadyPending(id)).1,
        filing(InsertResult::Created(id)).0 == RequestModel::Created(id),
        filing(InsertResult::AlreadyPending(id)).0 == RequestModel::AlreadyPending(id),
{
}

/// What a request leads to: nothing is filed for a user who has a subscription.
pub fn request(clients: &Vec<Client>, username: &str) -> (r: RequestStep)
    ensures
        r@ == requested(client_models(clients@), username@),
{
    let login = normalize_login(username);
    match find_client(clients, &login) {
        Some(client) => RequestStep::Answer(RequestOutcome::AlreadyActive(client)),
        None => RequestStep::File(login),
    }
}

/// What becomes of a request that was filed, and whether the approvers are told of it.
pub fn filed(result: InsertResult) -> (r: (RequestOutcome, bool))
    ensures
        (r.0@, r.1) == filing(result),
{
    match result {
        InsertResult::Created(id) => (RequestOutcome::Created(id), true),
        InsertResult::AlreadyPending(id) => (RequestOutcome::AlreadyPending(id), false),
    }
}

/// A user with a subscription is active, whatever requests they have.
pub proof fn subscription_counts_first(
    clients: Seq<ClientModel>,
    username: Seq<char>,
    pending: Option<u64>,
)
    ensures
        status_of(clients, username, pending) is Active <==> client_of(clients, username) is Some,
        status_of(clients, username, pending) is Pending <==> client_of(clients, username) is None
            && pending is Some,
{
}

/// A user is active with the first client that has their login, however its letters are written;
/// without one, the request counts, and without that, there is nothing.
pub proof fn status_is_what_the_user_has(
    clients: Seq<ClientModel>,
    username: Seq<char>,
    id: u64,
    i: int,
)
    requires
        0 <= i <= clients.len(),
        i < clients.len() ==> normalized(clients[i].login) == normalized(username),
        forall|j: int| 0 <= j < i ==> normalized((#[trigger] clients[j]).login) != normalized(username),
    ensures
        i < clients.len() ==> status_of(clients, username, Some(id)) == AccessModel::Active(clients[i])
            && status_of(clients, username, None) == AccessModel::Active(clients[i]),
        i == clients.len() ==> status_of(clients, username, Some(id)) == AccessModel::Pending(id)
            && status_of(clients, username, None) == AccessModel::Nothing,
{
    first_client_is_found(clients, username, i);
}

} // verus!
