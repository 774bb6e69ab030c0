//! Deleting a subscription: the requests that are tried, and when to stop.

use vstd::prelude::*;
use vstd::utf8::encode_utf8;

use crate::json::{
    every_entry_is_a_field, first_difference_decides, int_field, number_of, push_value, str_field,
    JsonModel,
};
use crate::outside::{
    percent_encoded, url_encode, value_entries, value_model, value_of_entries, value_of_i64,
    value_of_text,
};
use crate::text::chars::{
    contains, failure_with_cause, has_text, replace, replace_text,
    replacing_changes_the_occurrences, starts_with, with_cause,
};
use crate::text::number::{decimal, decimal_int, decimal_reads_back, i64_text, is_digit};

use super::endpoints::{join_url, joined, EventModel, HttpEvent, XuiClient};
use super::models::{subscription_models, ExistingSubscription, SubscriptionModel};
use super::subscriptions::{all_of_login, positions_of_login};

verus! {

/// How a deletion is asked for.
#[derive(Debug, Clone, Copy, PartialEq, Eq, Structural)]
pub enum DeleteKind {
    /// `POST` on a route that names the client.
    RoutePost,
    /// `GET` on a route that names the client.
    RouteGet,
    /// `POST` of a JSON object that names the client.
    Json,
}

/// A request that may delete the client.
#[derive(Debug)]
pub struct DeleteRequest {
    pub kind: DeleteKind,
    pub url: String,
    pub inbound_id: i64,
    pub client_id: String,
    pub email: String,
}

/// What a request is.
#[verifier::ext_equal]
pub struct DeleteModel {
    pub kind: DeleteKind,
    pub url: Seq<char>,
    pub inbound_id: i64,
    pub client_id: Seq<char>,
    pub email: Seq<char>,
}

impl View for DeleteRequest {
    type V = DeleteModel;

    open spec fn view(&self) -> DeleteModel {
        DeleteModel {
            kind: self.kind,
            url: self.url@,
            inbound_id: self.inbound_id,
            client_id: self.client_id@,
            email: self.email@,
        }
    }
}

/// Requests as models.
pub open spec fn delete_models(requests: Seq<DeleteRequest>) -> Seq<DeleteModel> {
    Seq::new(requests.len(), |i: int| requests[i]@)
}

/// The path names the inbound or the client itself.
pub open spec fn is_route(path: Seq<char>) -> bool {
    contains(path, "{id}"@) || contains(path, "{clientId}"@)
}

/// The route for that inbound and client.
pub open spec fn route_url(
    base: Seq<char>,
    path: Seq<char>,
    inbound_id: i64,
    client: Seq<char>,
) -> Seq<char> {
    joined(
        base,
        replace(
            replace(path, "{id}"@, decimal_int(inbound_id as int)),
            "{clientId}"@,
            percent_encoded(encode_utf8(client)),
        ),
    )
}

/// The requests that a path stands for: a route is tried with the identifier and then with the
/// e-mail, each by `POST` and then by `GET`; any other path gets the e-mail and then the
/// identifier as JSON.
pub open spec fn requests_on(base: Seq<char>, path: Seq<char>, sub: SubscriptionModel) -> Seq<
    DeleteModel,
> {
    let on_route = |kind: DeleteKind, client: Seq<char>|
        DeleteModel {
            kind,
            url: route_url(base, path, sub.inbound_id, client),
            inbound_id: sub.inbound_id,
            client_id: client,
            email: sub.email,
        };
    let as_json = |client: Seq<char>|
        DeleteModel {
            kind: DeleteKind::Json,
            url: joined(base, path),
            inbound_id: sub.inbound_id,
            client_id: client,
            email: sub.email,
        };
    if is_route(path) {
        seq![
            on_route(DeleteKind::RoutePost, sub.client_id),
            on_route(DeleteKind::RouteGet, sub.client_id),
            on_route(DeleteKind::RoutePost, sub.email),
            on_route(DeleteKind::RouteGet, sub.email),
        ]
    } else {
        seq![as_json(sub.email), as_json(sub.client_id)]
    }
}

/// All requests: those on the configured path, then those on the usual ones.
pub open spec fn delete_plan(base: Seq<char>, configured: Seq<char>, sub: SubscriptionModel) -> Seq<
    DeleteModel,
> {
    requests_on(base, configured, sub) + requests_on(
        base,
        "/panel/api/inbounds/{id}/delClient/{clientId}"@,
        sub,
    ) + requests_on(base, "/panel/inbound/{id}/delClient/{clientId}"@, sub) + requests_on(
        base,
        "/panel/api/inbounds/delClient"@,
        sub,
    )
}

/// What a deletion has come to.
#[derive(Debug)]
pub enum DeleteAction {
    /// The next request is to be sent.
    Send,
    /// It is over: the client is deleted, or no request was accepted.
    Finished(bool),
    /// It is over: there was no reply.
    Fail(String),
}

/// What a deletion has come to.
pub enum DeleteOutcome {
    Send,
    Finished(bool),
    Fail(Seq<char>),
}

impl View for DeleteAction {
    type V = DeleteOutcome;

    open spec fn view(&self) -> DeleteOutcome {
        match self {
            DeleteAction::Send => DeleteOutcome::Send,
            DeleteAction::Finished(deleted) => DeleteOutcome::Finished(*deleted),
            DeleteAction::Fail(reason) => DeleteOutcome::Fail(reason@),
        }
    }
}

/// A deletion on its way: its requests, and the one that a reply is awaited to.
#[derive(Debug)]
pub struct DeleteRun {
    pub requests: Vec<DeleteRequest>,
    pub next: usize,
}

/// What the event comes to when it is the answer to request `next` of `count`.
pub open spec fn delete_outcome(count: nat, next: nat, event: EventModel) -> DeleteOutcome {
    match event {
        EventModel::Broken { attempt, cause } => DeleteOutcome::Fail(with_cause(attempt, cause)),
        EventModel::Reply(reply) => if reply.accepted() {
            DeleteOutcome::Finished(true)
        } else if next + 1 < count {
            DeleteOutcome::Send
        } else {
            DeleteOutcome::Finished(false)
        },
    }
}

/// What the events come to, as answers to the requests from `next` on; events that come after the
/// end are not looked at.
pub open spec fn delete_result(count: nat, next: nat, events: Seq<EventModel>) -> DeleteOutcome
    decreases events.len(),
{
    if events.len() == 0 {
        DeleteOutcome::Send
    } else {
        match delete_outcome(count, next, events[0]) {
            DeleteOutcome::Send => delete_result(count, next + 1, events.drop_first()),
            outcome => outcome,
        }
    }
}

/// The event is a reply that does not accept the deletion.
pub open spec fn is_rejection(event: EventModel) -> bool {
    match event {
        EventModel::Reply(reply) => !reply.accepted(),
        EventModel::Broken { .. } => false,
    }
}

/// A deletion succeeds with the first reply that accepts it, when rejections alone came before.
pub proof fn first_acceptance_deletes(count: nat, next: nat, events: Seq<EventModel>, k: int)
    requires
        0 <= k < events.len(),
        next + k < count,
        forall|i: int| 0 <= i < k ==> is_rejection(#[trigger] events[i]),
        events[k] matches EventModel::Reply(reply) && reply.accepted(),
    ensures
        delete_result(count, next, events) == DeleteOutcome::Finished(true),
    decreases k,
{
    if k > 0 {
        assert(is_rejection(events[0]));
        assert forall|i: int| 0 <= i < k - 1 implies is_rejection(
            #[trigger] events.drop_first()[i],
        ) by {
            assert(events.drop_first()[i] == events[i + 1]);
        }
        first_acceptance_deletes(count, next + 1, events.drop_first(), k - 1);
    }
}

/// A deletion that is rejected every time tries every request, and then reports that nothing was
/// deleted.
pub proof fn rejected_deletion_tries_all(count: nat, next: nat, events: Seq<EventModel>)
    requires
        next < count,
        forall|i: int| 0 <= i < events.len() ==> is_rejection(#[trigger] events[i]),
    ensures
        events.len() < count - next ==> delete_result(count, next, events) == DeleteOutcome::Send,
        events.len() >= count - next ==> delete_result(count, next, events)
            == DeleteOutcome::Finished(false),
    decreases events.len(),
{
    if events.len() > 0 && next + 1 < count {
        assert(is_rejection(events[0]));
        assert forall|i: int| 0 <= i < events.drop_first().len() implies is_rejection(
            #[trigger] events.drop_first()[i],
        ) by {
            assert(events.drop_first()[i] == events[i + 1]);
        }
        rejected_deletion_tries_all(count, next + 1, events.drop_first());
    } else if events.len() > 0 {
        assert(is_rejection(events[0]));
    }
}

/// The body of a request that names the client in JSON.
pub open spec fn deletion_body(request: DeleteModel) -> JsonModel {
    JsonModel::Object(
        seq![
            ("clientId"@, JsonModel::Str(request.client_id)),
            ("email"@, JsonModel::Str(request.email)),
            ("id"@, number_of(request.inbound_id as int)),
        ],
    )
}

/// The body of a request names the client, its e-mail and its inbound.
pub proof fn deletion_names_the_client(request: DeleteModel)
    ensures
        str_field(deletion_body(request), "clientId"@) == Some(request.client_id),
        str_field(deletion_body(request), "email"@) == Some(request.email),
        int_field(deletion_body(request), "id"@) == Some(request.inbound_id),
{
    reveal_strlit("clientId");
    reveal_strlit("email");
    reveal_strlit("id");
    first_difference_decides("clientId"@, "email"@, 0);
    first_difference_decides("email"@, "id"@, 0);
    let entries = deletion_body(request)->Object_0;
    every_entry_is_a_field(entries, 0);
    every_entry_is_a_field(entries, 1);
    every_entry_is_a_field(entries, 2);
}

/// The requests on a path all concern the subscription: they name its inbound and its e-mail, and
/// its client by the identifier or by the e-mail, both of which are tried.
pub proof fn every_request_concerns_the_subscription(
    base: Seq<char>,
    path: Seq<char>,
    sub: SubscriptionModel,
)
    ensures
        ({
            let requests = requests_on(base, path, sub);
            &&& forall|i: int|
                0 <= i < requests.len() ==> {
                    let request = #[trigger] requests[i];
                    &&& request.inbound_id == sub.inbound_id
                    &&& request.email == sub.email
                    &&& request.client_id == sub.client_id || request.client_id == sub.email
                    &&& request.kind is Json <==> !is_route(path)
                    &&& request.kind is Json ==> request.url == joined(base, path)
                    &&& !(request.kind is Json) ==> request.url == route_url(
                        base,
                        path,
                        sub.inbound_id,
                        request.client_id,
                    )
                }
            &&& is_route(path) ==> requests.len() == 4 && requests[0].client_id == sub.client_id
                && requests[2].client_id == sub.email && requests[0].kind == DeleteKind::RoutePost
                && requests[1].kind == DeleteKind::RouteGet && requests[2].kind
                == DeleteKind::RoutePost && requests[3].kind == DeleteKind::RouteGet
                && requests[1].client_id == sub.client_id && requests[3].client_id == sub.email
            &&& !is_route(path) ==> requests.len() == 2 && requests[0].client_id == sub.email
                && requests[1].client_id == sub.client_id
        }),
        is_route(path) <==> contains(path, "{id}"@) || contains(path, "{clientId}"@),
{
}

/// All requests are those on the configured path and then those on the three usual ones.
pub proof fn usual_paths_follow_the_configured_one(
    base: Seq<char>,
    configured: Seq<char>,
    sub: SubscriptionModel,
)
    ensures
        ({
            let first = requests_on(base, configured, sub);
            let plan = delete_plan(base, configured, sub);
            &&& first.is_prefix_of(plan)
            &&& plan.skip(first.len() as int) == requests_on(
                base,
                "/panel/api/inbounds/{id}/delClient/{clientId}"@,
                sub,
            ) + requests_on(base, "/panel/inbound/{id}/delClient/{clientId}"@, sub) + requests_on(
                base,
                "/panel/api/inbounds/delClient"@,
                sub,
            )
        }),
{
    let a = requests_on(base, configured, sub);
    let b = requests_on(base, "/panel/api/inbounds/{id}/delClient/{clientId}"@, sub);
    let c = requests_on(base, "/panel/inbound/{id}/delClient/{clientId}"@, sub);
    let d = requests_on(base, "/panel/api/inbounds/delClient"@, sub);
    let plan = delete_plan(base, configured, sub);
    assert(a =~= plan.subrange(0, a.len() as int));
    assert(plan.skip(a.len() as int) =~= b + c + d);
}

/// A route is the path with the number of the inbound and the encoded client in their places.
pub proof fn route_names_inbound_and_client(
    base: Seq<char>,
    start: Seq<char>,
    middle: Seq<char>,
    inbound_id: i64,
    client: Seq<char>,
)
    requires
        forall|i: int| 0 <= i < start.len() ==> #[trigger] start[i] != '{',
        forall|i: int| 0 <= i < middle.len() ==> #[trigger] middle[i] != '{',
    ensures
        route_url(base, start + "{id}"@ + (middle + "{clientId}"@), inbound_id, client) == joined(
            base,
            start + decimal_int(inbound_id as int) + middle + percent_encoded(encode_utf8(client)),
        ),
{
    reveal_strlit("{id}");
    reveal_strlit("{clientId}");
    let id = "{id}"@;
    let place = "{clientId}"@;
    let n = decimal_int(inbound_id as int);
    let encoded = percent_encoded(encode_utf8(client));
    replacing_changes_the_occurrences(start, id, middle + place, n);
    client_place_stays(middle, n);
    number_has_no_brace(inbound_id);
    let head = start + n + middle;
    assert(start + n + (middle + place) =~= head + place + seq![]);
    assert forall|i: int| 0 <= i < head.len() implies #[trigger] head[i] != '{' by {
        if i < start.len() {
            assert(head[i] == start[i]);
        } else if i < start.len() + n.len() {
            assert(head[i] == n[i - start.len()]);
        } else {
            assert(head[i] == middle[i - start.len() - n.len()]);
        }
    }
    replacing_changes_the_occurrences(head, place, seq![], encoded);
    assert(replace(seq![], place, encoded) =~= seq![]);
    assert(head + encoded + seq![] =~= head + encoded);
}

proof fn number_has_no_brace(n: i64)
    ensures
        forall|i: int|
            0 <= i < decimal_int(n as int).len() ==> #[trigger] decimal_int(n as int)[i] != '{',
{
    let text = decimal_int(n as int);
    if n < 0 {
        let digits = decimal((-(n as int)) as nat);
        decimal_reads_back((-(n as int)) as nat);
        assert forall|i: int| 0 <= i < text.len() implies #[trigger] text[i] != '{' by {
            if i > 0 {
                assert(is_digit(digits[i - 1]));
            }
        }
    } else {
        decimal_reads_back(n as nat);
        assert forall|i: int| 0 <= i < text.len() implies #[trigger] text[i] != '{' by {
            assert(is_digit(text[i]));
        }
    }
}

proof fn client_place_stays(middle: Seq<char>, n: Seq<char>)
    requires
        forall|i: int| 0 <= i < middle.len() ==> #[trigger] middle[i] != '{',
    ensures
        replace(middle + "{clientId}"@, "{id}"@, n) == middle + "{clientId}"@,
    decreases middle.len(),
{
    reveal_strlit("{id}");
    reveal_strlit("{clientId}");
    let id = "{id}"@;
    let place = "{clientId}"@;
    let s = middle + place;
    if middle.len() > 0 {
        let rest = middle.drop_first();
        assert forall|i: int| 0 <= i < rest.len() implies #[trigger] rest[i] != '{' by {
            assert(middle[i + 1] != '{');
        }
        client_place_stays(rest, n);
        assert(middle[0] != '{');
        assert(!starts_with(s, id)) by {
            if starts_with(s, id) {
                assert(s.subrange(0, 4)[0] == s[0]);
            }
        }
        assert(s.drop_first() =~= rest + place);
        assert(seq![s[0]] + (rest + place) =~= s);
    } else {
        assert(s =~= place);
        assert(!starts_with(s, id)) by {
            if starts_with(s, id) {
                assert(s.subrange(0, 4)[1] == s[1]);
            }
        }
        let tail = place.drop_first();
        assert forall|i: int| 0 <= i < tail.len() implies #[trigger] tail[i] != id[0] by {
            assert(tail[i] == place[i + 1]);
        }
        replacing_changes_the_occurrences(tail, id, seq![], n);
        assert(seq![s[0]] + tail =~= s);
    }
}

/// A deletion without a reply fails with what was attempted and why.
pub proof fn broken_deletion_says_why(
    count: nat,
    next: nat,
    attempt: Seq<char>,
    cause: Seq<char>,
)
    ensures
        delete_outcome(count, next, EventModel::Broken { attempt, cause }) == DeleteOutcome::Fail(
            attempt + ": "@ + cause,
        ),
{
}

impl DeleteRequest {
    /// The body of the request; nothing for a route, which names the client itself.
    pub fn body(&self) -> (r: Option<serde_json::Value>)
        ensures
            r is Some <==> self.kind is Json,
            r matches Some(body) ==> value_model(body) == deletion_body(self@),
    {
        match self.kind {
            DeleteKind::Json => {
                proof {
                    reveal_strlit("clientId");
                    reveal_strlit("email");
                    reveal_strlit("id");
                    first_difference_decides("clientId"@, "email"@, 0);
                    first_difference_decides("email"@, "id"@, 0);
                }
                let mut body: Vec<(String, serde_json::Value)> = Vec::new();
                assert(value_entries(body@) =~= seq![]);
                push_value(&mut body, "clientId", value_of_text(&self.client_id));
                push_value(&mut body, "email", value_of_text(&self.email));
                push_value(&mut body, "id", value_of_i64(self.inbound_id));
                assert(value_entries(body@) =~= deletion_body(self@)->Object_0);
                Some(value_of_entries(body))
            },
            _ => None,
        }
    }

    /// What to say when the request gets no reply.
    pub fn failure_text(&self) -> (r: String)
        ensures
            r@ == (match self.kind {
                DeleteKind::RoutePost => "x-ui delete client route request failed for "@,
                DeleteKind::RouteGet => "x-ui delete client route GET failed for "@,
                DeleteKind::Json => "x-ui delete client request failed for "@,
            }) + self.url@,
    {
        let mut text = match self.kind {
            DeleteKind::RoutePost => "x-ui delete client route request failed for ".to_string(),
            DeleteKind::RouteGet => "x-ui delete client route GET failed for ".to_string(),
            DeleteKind::Json => "x-ui delete client request failed for ".to_string(),
        };
        text.append(&self.url);
        text
    }
}

fn push_request(
    out: &mut Vec<DeleteRequest>,
    kind: DeleteKind,
    url: &str,
    client: &str,
    sub: &ExistingSubscription,
)
    ensures
        delete_models(final(out)@) == delete_models(old(out)@).push(
            DeleteModel {
                kind,
                url: url@,
                inbound_id: sub.inbound_id,
                client_id: client@,
                email: sub.email@,
            },
        ),
{
    let ghost before = out@;
    let request = DeleteRequest {
        kind,
        url: url.to_string(),
        inbound_id: sub.inbound_id,
        client_id: client.to_string(),
        email: sub.email.clone(),
    };
    let ghost model = request@;
    out.push(request);
    assert(delete_models(out@) =~= delete_models(before).push(model));
}

fn route(base: &str, path: &str, inbound_id: i64, client: &str) -> (r: String)
    ensures
        r@ == route_url(base@, path@, inbound_id, client@),
{
    proof {
        reveal_strlit("{id}");
        reveal_strlit("{clientId}");
    }
    let with_id = replace_text(path, "{id}", &i64_text(inbound_id));
    let with_client = replace_text(&with_id, "{clientId}", &url_encode(client));
    join_url(base, &with_client)
}

/// Appends the requests that a path stands for.
pub fn try_delete_client(
    out: &mut Vec<DeleteRequest>,
    base: &str,
    delete_path: &str,
    sub: &ExistingSubscription,
)
    ensures
        delete_models(final(out)@) == delete_models(old(out)@) + requests_on(
            base@,
            delete_path@,
            sub@,
        ),
{
    let ghost start = delete_models(out@);
    if has_text(delete_path, "{id}") || has_text(delete_path, "{clientId}") {
        let by_id = route(base, delete_path, sub.inbound_id, &sub.client_id);
        push_request(out, DeleteKind::RoutePost, &by_id, &sub.client_id, sub);
        push_request(out, DeleteKind::RouteGet, &by_id, &sub.client_id, sub);
        let by_email = route(base, delete_path, sub.inbound_id, &sub.email);
        push_request(out, DeleteKind::RoutePost, &by_email, &sub.email, sub);
        push_request(out, DeleteKind::RouteGet, &by_email, &sub.email, sub);
    } else {
        let url = join_url(base, delete_path);
        push_request(out, DeleteKind::Json, &url, &sub.email, sub);
        push_request(out, DeleteKind::Json, &url, &sub.client_id, sub);
    }
    assert(delete_models(out@) =~= start + requests_on(base@, delete_path@, sub@));
}

/// The only subscription of that login: nothing where there is none, an error where there are
/// more.
pub fn select_subscription(subs: &Vec<ExistingSubscription>, email: &str) -> (r: Result<
    Option<usize>,
    String,
>)
    ensures
        r matches Err(e) ==> e@ == "multiple subscriptions found for login `"@ + email@ + "`"@,
        r is Err <==> all_of_login(subscription_models(subs@), email@).len() > 1,
        r == Ok::<Option<usize>, String>(None) <==> all_of_login(
            subscription_models(subs@),
            email@,
        ).len() == 0,
        r matches Ok(Some(k)) ==> k < subs@.len() && seq![subs@[k as int]@] == all_of_login(
            subscription_models(subs@),
            email@,
        ),
{
    let positions = positions_of_login(subs, email);
    let ghost found = all_of_login(subscription_models(subs@), email@);
    if positions.len() == 0 {
        return Ok(None);
    }
    if positions.len() > 1 {
        let mut e = "multiple subscriptions found for login `".to_string();
        e.append(email);
        e.append("`");
        return Err(e);
    }
    let k: usize = positions[0];
    assert(found[0] == subs@[k as int]@);
    assert(seq![subs@[k as int]@] =~= found);
    Ok(Some(k))
}

impl DeleteRun {
    /// A reply is awaited.
    pub open spec fn open(&self) -> bool {
        self.next < self.requests@.len()
    }

    /// Takes the answer to the present request in, and says what to do next.
    pub fn step(&mut self, event: &HttpEvent) -> (r: DeleteAction)
        requires
            old(self).open(),
        ensures
            final(self).requests == old(self).requests,
            r@ == delete_outcome(old(self).requests@.len(), old(self).next as nat, event@),
            r@ is Send ==> final(self).next == old(self).next + 1 && final(self).open(),
            !(r@ is Send) ==> final(self).next == old(self).next,
    {
        match event {
            HttpEvent::Broken { attempt, cause } => DeleteAction::Fail(failure_with_cause(attempt, cause)),
            HttpEvent::Reply(reply) => {
                if reply.ok && !reply.looks_like_api_error() {
                    DeleteAction::Finished(true)
                } else if self.next < self.requests.len() - 1 {
                    self.next = self.next + 1;
                    DeleteAction::Send
                } else {
                    DeleteAction::Finished(false)
                }
            },
        }
    }
}

impl XuiClient {
    /// The deletion of a subscription; its first request is to be sent.
    pub fn delete_subscription(&self, sub: &ExistingSubscription) -> (r: DeleteRun)
        ensures
            delete_models(r.requests@) == delete_plan(
                self.config.base_url@,
                self.config.delete_client_path@,
                sub@,
            ),
            r.next == 0,
            r.open(),
    {
        let base = &self.config.base_url;
        let mut requests: Vec<DeleteRequest> = Vec::new();
        let ghost start = delete_models(requests@);
        try_delete_client(&mut requests, base, &self.config.delete_client_path, sub);
        assert(start + requests_on(base@, self.config.delete_client_path@, sub@) =~= requests_on(
            base@,
            self.config.delete_client_path@,
            sub@,
        ));
        try_delete_client(
            &mut requests,
            base,
            "/panel/api/inbounds/{id}/delClient/{clientId}",
            sub,
        );
        try_delete_client(&mut requests, base, "/panel/inbound/{id}/delClient/{clientId}", sub);
        try_delete_client(&mut requests, base, "/panel/api/inbounds/delClient", sub);
        assert(delete_models(requests@).len() == requests@.len());
        DeleteRun { requests, next: 0 }
    }

    /// The deletion of the only subscription of that login; nothing where there is none.
    pub fn delete_subscription_by_email(
        &self,
        subs: &Vec<ExistingSubscription>,
        email: &str,
    ) -> (r: Result<Option<DeleteRun>, String>)
        ensures
            r is Err <==> all_of_login(subscription_models(subs@), email@).len() > 1,
            r matches Err(e) ==> e@ == "multiple subscriptions found for login `"@ + email@ + "`"@,
            r matches Ok(None) ==> all_of_login(subscription_models(subs@), email@).len() == 0,
            r matches Ok(Some(run)) ==> all_of_login(subscription_models(subs@), email@).len() == 1
                && run.open() && run.next == 0 && delete_models(run.requests@) == delete_plan(
                self.config.base_url@,
                self.config.delete_client_path@,
                all_of_login(subscription_models(subs@), email@)[0],
            ),
    {
        match select_subscription(subs, email) {
            Ok(Some(k)) => Ok(Some(self.delete_subscription(&subs[k]))),
            Ok(None) => Ok(None),
            Err(e) => Err(e),
        }
    }
}

} // verus!
