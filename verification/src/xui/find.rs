//! The search for a client's link: in the panel's subscriptions, then in its inbounds.

use vstd::prelude::*;

use crate::json::{parse_json, Json, JsonModel};
use crate::outside::json_parsed;
use crate::text::chars::{failure_with_cause, with_cause};

use super::candidates::{
    best_scored_url, best_url, find_best_connection_url, find_best_scored_url,
};
use super::endpoints::{
    fetch_subscription_base_url, list_existing_subscriptions, list_outcome, settings_outcome,
    EventModel, HttpEvent, HttpModel, HttpReply, XuiClient,
};
use super::links::{generate_connection_url_from_server_obj, link_in};
use super::subscriptions::{find_subscription_link, subscription_link};

verus! {

/// Whom a link is searched for, and where. With `ranked`, links are chosen by kind, and an empty
/// identity names nobody; otherwise they are chosen by score.
#[derive(Debug)]
pub struct LinkQuery {
    pub base_url: String,
    pub inbound_id: i64,
    pub email: String,
    pub client_uuid: String,
    pub sub_id: String,
    pub ranked: bool,
}

/// What is searched for.
pub struct QueryModel {
    pub base_url: Seq<char>,
    pub inbound_id: i64,
    pub email: Seq<char>,
    pub client_uuid: Seq<char>,
    pub sub_id: Seq<char>,
    pub ranked: bool,
}

impl View for LinkQuery {
    type V = QueryModel;

    open spec fn view(&self) -> QueryModel {
        QueryModel {
            base_url: self.base_url@,
            inbound_id: self.inbound_id,
            email: self.email@,
            client_uuid: self.client_uuid@,
            sub_id: self.sub_id@,
            ranked: self.ranked,
        }
    }
}

impl QueryModel {
    /// The link that stands in the value.
    pub open spec fn given_in(self, value: JsonModel) -> Option<Seq<char>> {
        if self.ranked {
            best_url(value, self.email, self.client_uuid, self.sub_id)
        } else {
            best_scored_url(value, self.email, self.client_uuid, self.sub_id)
        }
    }

    /// The link that can be made of the value.
    pub open spec fn made_of(self, value: JsonModel) -> Option<Seq<char>> {
        link_in(
            value,
            self.base_url,
            self.inbound_id,
            self.email,
            self.client_uuid,
            self.ranked,
        )
    }

    /// The link that stands in the value, or can be made of it.
    pub open spec fn found_in(self, value: JsonModel) -> Option<Seq<char>> {
        match self.given_in(value) {
            Some(link) => Some(link),
            None => self.made_of(value),
        }
    }

    /// The link that stands in a reply, or can be made of the object that its envelope holds.
    pub open spec fn new_link(self, reply: HttpModel) -> Option<Seq<char>> {
        match json_parsed(reply.body) {
            Some(parsed) if reply.ok => match self.given_in(parsed) {
                Some(link) => Some(link),
                None => self.link_in_envelope(reply),
            },
            _ => None,
        }
    }

    /// The link that stands in a reply or in its envelope, or can be made of either.
    pub open spec fn known_link(self, reply: HttpModel) -> Option<Seq<char>> {
        match json_parsed(reply.body) {
            Some(parsed) if reply.ok => match self.found_in(parsed) {
                Some(link) => Some(link),
                None => self.link_in_envelope(reply),
            },
            _ => None,
        }
    }

    /// The link in the object that the envelope holds.
    pub open spec fn link_in_envelope(self, reply: HttpModel) -> Option<Seq<char>> {
        match reply.api {
            Ok(api) => match api.obj {
                Some(obj) => self.found_in(obj),
                None => None,
            },
            Err(_) => None,
        }
    }
}

impl LinkQuery {
    /// The link that stands in the value.
    pub fn given(&self, value: &Json) -> (r: Option<String>)
        ensures
            r.deep_view() == self@.given_in(value@),
    {
        if self.ranked {
            find_best_connection_url(value, &self.email, &self.client_uuid, &self.sub_id)
        } else {
            find_best_scored_url(value, &self.email, &self.client_uuid, &self.sub_id)
        }
    }

    fn made(&self, value: &Json) -> (r: Option<String>)
        ensures
            r.deep_view() == self@.made_of(value@),
    {
        generate_connection_url_from_server_obj(
            value,
            &self.base_url,
            self.inbound_id,
            &self.email,
            &self.client_uuid,
            self.ranked,
        )
    }

    /// The link that stands in the value, or can be made of it.
    pub fn found(&self, value: &Json) -> (r: Option<String>)
        ensures
            r.deep_view() == self@.found_in(value@),
    {
        match self.given(value) {
            Some(link) => Some(link),
            None => self.made(value),
        }
    }

    fn in_envelope(&self, reply: &HttpReply) -> (r: Option<String>)
        ensures
            r.deep_view() == self@.link_in_envelope(reply@),
    {
        match &reply.api {
            Ok(api) => match &api.obj {
                Some(obj) => self.found(obj),
                None => None,
            },
            Err(_) => None,
        }
    }

    /// The link of a client that was just created, in the reply of an endpoint.
    pub fn extract_url_from_endpoint(&self, reply: &HttpReply) -> (r: Option<String>)
        ensures
            r.deep_view() == self@.new_link(reply@),
    {
        if !reply.ok {
            return None;
        }
        match parse_json(&reply.body) {
            Some(parsed) => match self.given(&parsed) {
                Some(link) => Some(link),
                None => self.in_envelope(reply),
            },
            None => None,
        }
    }

    /// The link of a client that is known, in the reply of an endpoint.
    pub fn extract_specific_client_url(&self, reply: &HttpReply) -> (r: Option<String>)
        ensures
            r.deep_view() == self@.known_link(reply@),
    {
        if !reply.ok {
            return None;
        }
        match parse_json(&reply.body) {
            Some(parsed) => match self.found(&parsed) {
                Some(link) => Some(link),
                None => self.in_envelope(reply),
            },
            None => None,
        }
    }
}

/// What a search waits for.
#[derive(Debug, Clone, Copy, PartialEq, Eq, Structural)]
pub enum FindPhase {
    /// The panel's settings.
    Settings,
    /// The subscriptions.
    List,
    /// The configured inbound.
    Inbound,
    /// All inbounds.
    Inbounds,
    /// Nothing: it is over.
    Closed,
}

/// What to do next.
#[derive(Debug)]
pub enum FindAction {
    /// Ask for what the new phase waits for.
    Ask,
    /// It is over, with this link.
    Done(Option<String>),
    /// It is over, with this error.
    Fail(String),
}

/// What is to be done next.
pub enum FindOutcome {
    Ask,
    Done(Option<Seq<char>>),
    Fail(Seq<char>),
}

impl View for FindAction {
    type V = FindOutcome;

    open spec fn view(&self) -> FindOutcome {
        match self {
            FindAction::Ask => FindOutcome::Ask,
            FindAction::Done(link) => FindOutcome::Done(link.deep_view()),
            FindAction::Fail(e) => FindOutcome::Fail(e@),
        }
    }
}

/// A search for the link of a client that is known.
#[derive(Debug)]
pub struct FindRun {
    pub query: LinkQuery,
    pub phase: FindPhase,
    pub sub_base: String,
}

/// What a search is.
pub struct FindModel {
    pub query: QueryModel,
    pub phase: FindPhase,
    pub sub_base: Seq<char>,
}

impl View for FindRun {
    type V = FindModel;

    open spec fn view(&self) -> FindModel {
        FindModel { query: self.query@, phase: self.phase, sub_base: self.sub_base@ }
    }
}

impl FindModel {
    /// The search in another phase.
    pub open spec fn at(self, phase: FindPhase) -> FindModel {
        FindModel { phase, ..self }
    }

    /// The search after an event, and what is to be done next: the subscription first, then the
    /// configured inbound, then all inbounds. No reply on an inbound counts as no link there.
    pub open spec fn step(self, event: EventModel) -> (FindModel, FindOutcome) {
        match (self.phase, event) {
            (FindPhase::Settings, EventModel::Reply(reply)) => match settings_outcome(
                reply,
                self.query.base_url,
            ) {
                Ok(Some(base)) => (
                    FindModel { sub_base: base, ..self.at(FindPhase::List) },
                    FindOutcome::Ask,
                ),
                Ok(None) => (self.at(FindPhase::Inbound), FindOutcome::Ask),
                Err(e) => (self.at(FindPhase::Closed), FindOutcome::Fail(e)),
            },
            (FindPhase::List, EventModel::Reply(reply)) => match list_outcome(reply) {
                Ok(subs) => match subscription_link(subs, self.query.email, self.sub_base) {
                    Some(link) => (self.at(FindPhase::Closed), FindOutcome::Done(Some(link))),
                    None => (self.at(FindPhase::Inbound), FindOutcome::Ask),
                },
                Err(e) => (self.at(FindPhase::Closed), FindOutcome::Fail(e)),
            },
            (FindPhase::Inbound, EventModel::Reply(reply)) => match self.query.known_link(reply) {
                Some(link) => (self.at(FindPhase::Closed), FindOutcome::Done(Some(link))),
                None => (self.at(FindPhase::Inbounds), FindOutcome::Ask),
            },
            (FindPhase::Inbound, EventModel::Broken { .. }) => (
                self.at(FindPhase::Inbounds),
                FindOutcome::Ask,
            ),
            (FindPhase::Inbounds, EventModel::Reply(reply)) => (
                self.at(FindPhase::Closed),
                FindOutcome::Done(self.query.known_link(reply)),
            ),
            (FindPhase::Inbounds, EventModel::Broken { .. }) => (
                self.at(FindPhase::Closed),
                FindOutcome::Done(None),
            ),
            (_, EventModel::Broken { attempt, cause }) => (
                self.at(FindPhase::Closed),
                FindOutcome::Fail(with_cause(attempt, cause)),
            ),
            (FindPhase::Closed, EventModel::Reply(_)) => (self, FindOutcome::Done(None)),
        }
    }

    /// A bound on the requests that are still to come.
    pub open spec fn requests_left(self) -> int {
        match self.phase {
            FindPhase::Settings => 4,
            FindPhase::List => 3,
            FindPhase::Inbound => 2,
            FindPhase::Inbounds => 1,
            FindPhase::Closed => 0,
        }
    }
}

/// A search ends: each event closes it or leaves fewer requests to come, and it goes on exactly
/// while the action is to ask.
pub proof fn search_ends(state: FindModel, event: EventModel)
    requires
        state.phase != FindPhase::Closed,
    ensures
        0 <= state.step(event).0.requests_left() < state.requests_left(),
        state.step(event).1 is Ask <==> state.step(event).0.phase != FindPhase::Closed,
{
}

/// A search takes the first link that there is: the subscription, then the configured inbound, then
/// all inbounds; where the settings or the list fail, it fails with their cause.
pub proof fn first_link_is_taken(state: FindModel, reply: HttpModel, attempt: Seq<char>, cause: Seq<char>)
    ensures
        ({
            let broken = EventModel::Broken { attempt, cause };
            let on_settings = state.at(FindPhase::Settings).step(EventModel::Reply(reply));
            let on_list = state.at(FindPhase::List).step(EventModel::Reply(reply));
            let on_inbound = state.at(FindPhase::Inbound).step(EventModel::Reply(reply));
            let on_inbounds = state.at(FindPhase::Inbounds).step(EventModel::Reply(reply));
            &&& (settings_outcome(reply, state.query.base_url) matches Ok(Some(base)) ==> on_settings.1
                == FindOutcome::Ask && on_settings.0.phase == FindPhase::List
                && on_settings.0.sub_base == base)
            &&& (settings_outcome(reply, state.query.base_url) matches Ok(None) ==> on_settings.1
                == FindOutcome::Ask && on_settings.0.phase == FindPhase::Inbound)
            &&& (settings_outcome(reply, state.query.base_url) matches Err(e) ==> on_settings.1
                == FindOutcome::Fail(e))
            &&& (list_outcome(reply) matches Ok(subs) ==> match subscription_link(
                subs,
                state.query.email,
                state.sub_base,
            ) {
                Some(link) => on_list.1 == FindOutcome::Done(Some(link)),
                None => on_list.1 == FindOutcome::Ask && on_list.0.phase == FindPhase::Inbound,
            })
            &&& (list_outcome(reply) matches Err(e) ==> on_list.1 == FindOutcome::Fail(e))
            &&& match state.query.known_link(reply) {
                Some(link) => on_inbound.1 == FindOutcome::Done(Some(link)),
                None => on_inbound.1 == FindOutcome::Ask && on_inbound.0.phase
                    == FindPhase::Inbounds,
            }
            &&& on_inbounds.1 == FindOutcome::Done(state.query.known_link(reply))
            &&& state.at(FindPhase::Settings).step(broken).1 == FindOutcome::Fail(
                attempt + ": "@ + cause,
            )
            &&& state.at(FindPhase::List).step(broken).1 == FindOutcome::Fail(
                attempt + ": "@ + cause,
            )
            &&& state.at(FindPhase::Inbound).step(broken).1 == FindOutcome::Ask
            &&& state.at(FindPhase::Inbounds).step(broken).1 == FindOutcome::Done(None)
        }),
{
}

/// A link that stands in a value is taken before one that is made of it, and a reply that is no
/// success or no JSON holds none; the body of a reply comes before the object in its envelope.
pub proof fn given_links_come_first(query: QueryModel, value: JsonModel, reply: HttpModel)
    ensures
        query.given_in(value) matches Some(link) ==> query.found_in(value) == Some(link),
        query.given_in(value) is None ==> query.found_in(value) == query.made_of(value),
        !reply.ok ==> query.known_link(reply) is None && query.new_link(reply) is None,
        json_parsed(reply.body) is None ==> query.known_link(reply) is None && query.new_link(
            reply,
        ) is None,
        reply.ok ==> (json_parsed(reply.body) matches Some(parsed) ==> {
            &&& (query.found_in(parsed) matches Some(link) ==> query.known_link(reply) == Some(link))
            &&& (query.given_in(parsed) matches Some(link) ==> query.new_link(reply) == Some(link))
            &&& (query.found_in(parsed) is None ==> (reply.api matches Ok(api)
                ==> query.known_link(reply) == match api.obj {
                Some(obj) => query.found_in(obj),
                None => None,
            }))
            &&& (query.given_in(parsed) is None ==> (reply.api matches Ok(api) ==> query.new_link(
                reply,
            ) == match api.obj {
                Some(obj) => query.found_in(obj),
                None => None,
            }))
        }),
        query.ranked ==> query.given_in(value) == best_url(
            value,
            query.email,
            query.client_uuid,
            query.sub_id,
        ),
        !query.ranked ==> query.given_in(value) == best_scored_url(
            value,
            query.email,
            query.client_uuid,
            query.sub_id,
        ),
        query.made_of(value) == link_in(
            value,
            query.base_url,
            query.inbound_id,
            query.email,
            query.client_uuid,
            query.ranked,
        ),
        forall|sub_id: Seq<char>|
            #[trigger] (QueryModel { sub_id, ..query }).made_of(value) == query.made_of(value),
{
}

impl FindRun {
    fn close(&mut self, action: FindAction) -> (r: FindAction)
        ensures
            final(self)@ == old(self)@.at(FindPhase::Closed),
            r@ == action@,
    {
        self.phase = FindPhase::Closed;
        action
    }

    fn ask(&mut self, phase: FindPhase) -> (r: FindAction)
        ensures
            final(self)@ == old(self)@.at(phase),
            r@ == FindOutcome::Ask,
    {
        self.phase = phase;
        FindAction::Ask
    }

    /// Takes the event in, and says what to do next.
    pub fn step(&mut self, event: &HttpEvent) -> (r: FindAction)
        requires
            old(self)@.phase != FindPhase::Closed,
        ensures
            (final(self)@, r@) == old(self)@.step(event@),
    {
        match event {
            HttpEvent::Reply(reply) => match self.phase {
                FindPhase::Settings => match fetch_subscription_base_url(
                    reply,
                    &self.query.base_url,
                ) {
                    Ok(Some(base)) => {
                        self.sub_base = base;
                        self.ask(FindPhase::List)
                    },
                    Ok(None) => self.ask(FindPhase::Inbound),
                    Err(e) => self.close(FindAction::Fail(e)),
                },
                FindPhase::List => match list_existing_subscriptions(reply) {
                    Ok(subs) => match find_subscription_link(
                        &subs,
                        &self.query.email,
                        &self.sub_base,
                    ) {
                        Some(link) => self.close(FindAction::Done(Some(link))),
                        None => self.ask(FindPhase::Inbound),
                    },
                    Err(e) => self.close(FindAction::Fail(e)),
                },
                FindPhase::Inbound => match self.query.extract_specific_client_url(reply) {
                    Some(link) => self.close(FindAction::Done(Some(link))),
                    None => self.ask(FindPhase::Inbounds),
                },
                _ => {
                    let link = self.query.extract_specific_client_url(reply);
                    self.close(FindAction::Done(link))
                },
            },
            HttpEvent::Broken { attempt, cause } => match self.phase {
                FindPhase::Inbound => self.ask(FindPhase::Inbounds),
                FindPhase::Inbounds => self.close(FindAction::Done(None)),
                _ => self.close(FindAction::Fail(failure_with_cause(attempt, cause))),
            },
        }
    }
}

impl XuiClient {
    /// The search for the link of a client that is known; the settings are to be asked for first.
    pub fn find_client_connection_url_by_email(&self, email: &str) -> (r: FindRun)
        ensures
            r@.query == (QueryModel {
                base_url: self.config.base_url@,
                inbound_id: self.config.inbound_id,
                email: email@,
                client_uuid: ""@,
                sub_id: ""@,
                ranked: true,
            }),
            r@.phase == FindPhase::Settings,
    {
        let query = LinkQuery {
            base_url: self.config.base_url.clone(),
            inbound_id: self.config.inbound_id,
            email: email.to_string(),
            client_uuid: "".to_string(),
            sub_id: "".to_string(),
            ranked: true,
        };
        FindRun { query, phase: FindPhase::Settings, sub_base: "".to_string() }
    }
}

} // verus!
