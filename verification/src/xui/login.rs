//! Logging in to the panel: by form, then by JSON, on one path after the other.

use vstd::prelude::*;

use crate::text::chars::{contains, failure_with_cause, has_text, text_eq, with_cause};

use super::endpoints::{
    join_url, joined, message, msg_or_unknown, EventModel, HttpEvent, HttpModel, HttpReply, XuiClient,
};

verus! {

/// What a login waits for.
#[derive(Debug, Clone, Copy, PartialEq, Eq, Structural)]
pub enum LoginPhase {
    /// The reply to the form.
    Form,
    /// The reply to the JSON.
    Json,
    /// Nothing: it is over.
    Closed,
}

/// A login on its way. With `plain`, a form is taken as accepted unless the reply denies it, and a
/// denied form is tried again as JSON.
#[derive(Debug)]
pub struct LoginRun {
    pub paths: Vec<String>,
    pub next: usize,
    pub phase: LoginPhase,
    pub plain: bool,
}

/// What to do next.
#[derive(Debug)]
pub enum LoginAction {
    SendForm,
    SendJson,
    Done,
    Fail(String),
}

/// What a login on its way is.
pub struct LoginModel {
    pub paths: Seq<Seq<char>>,
    pub next: nat,
    pub phase: LoginPhase,
    pub plain: bool,
}

/// What is to be done next.
pub enum LoginOutcome {
    SendForm,
    SendJson,
    Done,
    Fail(Seq<char>),
}

impl View for LoginRun {
    type V = LoginModel;

    open spec fn view(&self) -> LoginModel {
        LoginModel {
            paths: self.paths.deep_view(),
            next: self.next as nat,
            phase: self.phase,
            plain: self.plain,
        }
    }
}

impl View for LoginAction {
    type V = LoginOutcome;

    open spec fn view(&self) -> LoginOutcome {
        match self {
            LoginAction::SendForm => LoginOutcome::SendForm,
            LoginAction::SendJson => LoginOutcome::SendJson,
            LoginAction::Done => LoginOutcome::Done,
            LoginAction::Fail(e) => LoginOutcome::Fail(e@),
        }
    }
}

/// The configured path, then the usual ones that differ from it.
pub open spec fn login_paths(configured: Seq<char>) -> Seq<Seq<char>> {
    seq![configured] + seq!["/login"@, "/panel/login"@, "/xui/login"@].filter(
        |p: Seq<char>| p != configured,
    )
}

/// What the reply to a form comes to; nothing where it leaves the matter open.
pub open spec fn form_outcome(reply: HttpModel, plain: bool) -> Option<LoginOutcome> {
    if plain {
        if reply.accepted() {
            Some(LoginOutcome::Done)
        } else {
            None
        }
    } else if !reply.ok {
        None
    } else {
        match reply.success() {
            Some(true) => Some(LoginOutcome::Done),
            Some(false) => Some(
                LoginOutcome::Fail(
                    "x-ui login failed: "@ + msg_or_unknown(reply.msg()),
                ),
            ),
            None => None,
        }
    }
}

/// What the reply to the JSON comes to.
pub open spec fn json_outcome(reply: HttpModel) -> LoginOutcome {
    if !reply.ok {
        LoginOutcome::Fail(
            "x-ui login failed with status "@ + reply.status + ": "@ + reply.body,
        )
    } else if reply.success() == Some(false) {
        LoginOutcome::Fail("x-ui login failed: "@ + reply.body)
    } else {
        LoginOutcome::Done
    }
}

/// The message says that the path does not exist.
pub open spec fn is_missing_path(msg: Seq<char>) -> bool {
    contains(msg, "404 Not Found"@) || contains(msg, "status 404"@)
}

/// The words of a failure that come first: what was attempted, where there was no reply, and all
/// of them otherwise.
pub open spec fn outermost(event: EventModel, msg: Seq<char>) -> Seq<char> {
    match event {
        EventModel::Broken { attempt, .. } => attempt,
        EventModel::Reply(_) => msg,
    }
}

impl LoginModel {
    /// The login is not over.
    pub open spec fn open(self) -> bool {
        self.phase != LoginPhase::Closed && self.next < self.paths.len()
    }

    /// What the event comes to on the present path; nothing where the JSON is still to be tried.
    pub open spec fn verdict(self, event: EventModel) -> Option<LoginOutcome> {
        match event {
            EventModel::Broken { attempt, cause } => Some(
                LoginOutcome::Fail(with_cause(attempt, cause)),
            ),
            EventModel::Reply(reply) => if self.phase == LoginPhase::Form {
                form_outcome(reply, self.plain)
            } else {
                Some(json_outcome(reply))
            },
        }
    }

    /// The state and the action after the event: a failure moves on to the next path only where
    /// it first says that the path does not exist.
    pub open spec fn step(self, event: EventModel) -> (LoginModel, LoginOutcome) {
        match self.verdict(event) {
            None => (
                LoginModel { phase: LoginPhase::Json, ..self },
                LoginOutcome::SendJson,
            ),
            Some(LoginOutcome::Fail(msg)) => if is_missing_path(outermost(event, msg)) && self.next
                + 1 < self.paths.len() {
                (
                    LoginModel { next: self.next + 1, phase: LoginPhase::Form, ..self },
                    LoginOutcome::SendForm,
                )
            } else {
                (LoginModel { phase: LoginPhase::Closed, ..self }, LoginOutcome::Fail(msg))
            },
            Some(outcome) => (LoginModel { phase: LoginPhase::Closed, ..self }, outcome),
        }
    }

    /// A bound on the requests that are still to come.
    pub open spec fn requests_left(self) -> int {
        match self.phase {
            LoginPhase::Form => 2 * (self.paths.len() - self.next),
            LoginPhase::Json => 2 * (self.paths.len() - self.next) - 1,
            LoginPhase::Closed => 0,
        }
    }
}

/// A login ends: each event closes it or leaves fewer requests to come.
pub proof fn login_ends(state: LoginModel, event: EventModel)
    requires
        state.open(),
    ensures
        0 <= state.step(event).0.requests_left() < state.requests_left(),
        state.step(event).0.phase == LoginPhase::Closed <==> (state.step(event).1 is Done
            || state.step(event).1 is Fail),
        state.step(event).0.phase != LoginPhase::Closed ==> state.step(event).0.open(),
{
}

/// A failure that does not first speak of a missing path ends the login with that failure, whatever
/// paths are left.
pub proof fn other_failures_are_final(state: LoginModel, event: EventModel, msg: Seq<char>)
    requires
        state.open(),
        state.verdict(event) == Some(LoginOutcome::Fail(msg)),
        !is_missing_path(outermost(event, msg)),
    ensures
        state.step(event).1 == LoginOutcome::Fail(msg),
        state.step(event).0.phase == LoginPhase::Closed,
{
}

/// A login by form is done exactly where the panel says so, failed where it denies it, and open
/// otherwise; a plain one is done unless it is denied. A login by JSON is done unless it is denied.
pub proof fn logins_are_judged_by_the_panel(reply: HttpModel)
    ensures
        form_outcome(reply, false) == Some(LoginOutcome::Done) <==> reply.ok && (
        reply.api matches Ok(api) && api.success == Some(true)),
        form_outcome(reply, false) is None <==> !reply.ok || reply.api is Err
            || reply.api->Ok_0.success is None,
        reply.ok && (reply.api matches Ok(api) && api.success == Some(false)) ==> form_outcome(
            reply,
            false,
        ) == Some(
            LoginOutcome::Fail(
                "x-ui login failed: "@ + (match reply.api->Ok_0.msg {
                    Some(msg) => msg,
                    None => "unknown x-ui error"@,
                }),
            ),
        ),
        form_outcome(reply, true) == if reply.accepted() {
            Some(LoginOutcome::Done)
        } else {
            None
        },
        json_outcome(reply) == LoginOutcome::Done <==> reply.accepted(),
        !reply.ok ==> json_outcome(reply) == LoginOutcome::Fail(
            "x-ui login failed with status "@ + reply.status + ": "@ + reply.body,
        ),
        reply.ok && !reply.accepted() ==> json_outcome(reply) == LoginOutcome::Fail(
            "x-ui login failed: "@ + reply.body,
        ),
{
}

/// The configured path comes first, then the usual ones, each once.
pub proof fn usual_paths_follow_the_configured_one(configured: Seq<char>)
    ensures
        login_paths(configured)[0] == configured,
        configured != "/login"@ && configured != "/panel/login"@ && configured != "/xui/login"@
            ==> login_paths(configured) == seq![
            configured,
            "/login"@,
            "/panel/login"@,
            "/xui/login"@,
        ],
        configured == "/login"@ ==> login_paths(configured) == seq![
            "/login"@,
            "/panel/login"@,
            "/xui/login"@,
        ],
{
    reveal_strlit("/login");
    reveal_strlit("/panel/login");
    reveal_strlit("/xui/login");
    let usual = seq!["/login"@, "/panel/login"@, "/xui/login"@];
    let differs = |p: Seq<char>| p != configured;
    reveal(Seq::filter);
    reveal_with_fuel(Seq::filter, 4);
    assert("/login"@[1] != "/panel/login"@[1]);
    assert("/login"@[1] != "/xui/login"@[1]);
    assert(usual.drop_last() =~= seq!["/login"@, "/panel/login"@]);
    assert(usual.drop_last().drop_last() =~= seq!["/login"@]);
    assert(usual.drop_last().drop_last().drop_last() =~= seq![]);
    assert(seq![].filter(differs) =~= seq![]);
    if configured == "/login"@ {
        assert(usual.filter(differs) =~= seq!["/panel/login"@, "/xui/login"@]);
        assert(login_paths(configured) =~= seq!["/login"@, "/panel/login"@, "/xui/login"@]);
    } else if configured != "/panel/login"@ && configured != "/xui/login"@ {
        assert(usual.filter(differs) =~= usual);
        assert(login_paths(configured) =~= seq![
            configured,
            "/login"@,
            "/panel/login"@,
            "/xui/login"@,
        ]);
    }
}

/// A login moves on to the next path exactly where the panel says that the path is not there, and
/// there is a next one; a broken request ends it with its cause.
pub proof fn missing_paths_lead_to_the_next(state: LoginModel, event: EventModel, msg: Seq<char>)
    requires
        state.open(),
        state.verdict(event) == Some(LoginOutcome::Fail(msg)),
    ensures
        state.step(event).1 == LoginOutcome::SendForm <==> state.next + 1 < state.paths.len() && (
        contains(outermost(event, msg), "404 Not Found"@) || contains(
            outermost(event, msg),
            "status 404"@,
        )),
        state.step(event).1 == LoginOutcome::SendForm ==> state.step(event).0.next == state.next + 1
            && state.step(event).0.phase == LoginPhase::Form && state.step(event).0.paths
            == state.paths,
        !(state.step(event).1 == LoginOutcome::SendForm) ==> state.step(event).1
            == LoginOutcome::Fail(msg),
        event matches EventModel::Broken { attempt, cause } ==> msg == attempt + ": "@ + cause
            && outermost(event, msg) == attempt,
        event is Reply ==> outermost(event, msg) == msg,
{
}

/// A form that leaves the matter open is followed by the JSON on the same path, and success ends the
/// login.
pub proof fn open_forms_are_followed_by_json(state: LoginModel, reply: HttpModel)
    requires
        state.open(),
    ensures
        state.phase == LoginPhase::Form && form_outcome(reply, state.plain) is None ==> state.step(
            EventModel::Reply(reply),
        ).1 == LoginOutcome::SendJson && state.step(EventModel::Reply(reply)).0.next == state.next
            && state.step(EventModel::Reply(reply)).0.phase == LoginPhase::Json,
        state.verdict(EventModel::Reply(reply)) == Some(LoginOutcome::Done) ==> state.step(
            EventModel::Reply(reply),
        ).1 == LoginOutcome::Done,
        state.phase == LoginPhase::Form ==> state.verdict(EventModel::Reply(reply)) == form_outcome(
            reply,
            state.plain,
        ),
        state.phase == LoginPhase::Json ==> state.verdict(EventModel::Reply(reply)) == Some(
            json_outcome(reply),
        ),
{
}

impl LoginRun {
    fn verdict_text(&self, event: &HttpEvent) -> (r: Option<LoginAction>)
        ensures
            r is Some <==> self@.verdict(event@) is Some,
            r matches Some(action) ==> self@.verdict(event@) == Some(action@),
    {
        match event {
            HttpEvent::Broken { attempt, cause } => Some(
                LoginAction::Fail(failure_with_cause(attempt, cause)),
            ),
            HttpEvent::Reply(reply) => match self.phase {
                LoginPhase::Form => self.on_form(reply),
                _ => Some(on_json(reply)),
            },
        }
    }

    fn on_form(&self, reply: &HttpReply) -> (r: Option<LoginAction>)
        ensures
            r is Some <==> form_outcome(reply@, self.plain) is Some,
            r matches Some(action) ==> form_outcome(reply@, self.plain) == Some(action@),
    {
        if self.plain {
            if reply.ok && !reply.looks_like_api_error() {
                return Some(LoginAction::Done);
            }
            return None;
        }
        if !reply.ok {
            return None;
        }
        let api = match &reply.api {
            Ok(api) => api,
            Err(_) => {
                return None;
            },
        };
        match api.success {
            Some(true) => Some(LoginAction::Done),
            Some(false) => {
                let mut e = "x-ui login failed: ".to_string();
                e.append(&message(&api.msg));
                Some(LoginAction::Fail(e))
            },
            None => None,
        }
    }

    /// Takes the event in, and says what to do next.
    pub fn step(&mut self, event: &HttpEvent) -> (r: LoginAction)
        requires
            old(self)@.open(),
        ensures
            (final(self)@, r@) == old(self)@.step(event@),
    {
        match self.verdict_text(event) {
            None => {
                self.phase = LoginPhase::Json;
                LoginAction::SendJson
            },
            Some(LoginAction::Fail(msg)) => {
                let missing = match event {
                    HttpEvent::Broken { attempt, .. } => says_missing_path(attempt),
                    HttpEvent::Reply(_) => says_missing_path(&msg),
                };
                if missing && self.next < self.paths.len() - 1 {
                    self.next = self.next + 1;
                    self.phase = LoginPhase::Form;
                    LoginAction::SendForm
                } else {
                    self.phase = LoginPhase::Closed;
                    LoginAction::Fail(msg)
                }
            },
            Some(action) => {
                self.phase = LoginPhase::Closed;
                action
            },
        }
    }

    /// Where the login is tried now.
    pub fn url(&self, base_url: &str) -> (r: String)
        requires
            self@.open(),
        ensures
            r@ == joined(base_url@, self@.paths[self@.next as int]),
    {
        join_url(base_url, &self.paths[self.next])
    }
}

fn says_missing_path(msg: &str) -> (r: bool)
    ensures
        r == is_missing_path(msg@),
{
    has_text(msg, "404 Not Found") || has_text(msg, "status 404")
}

fn on_json(reply: &HttpReply) -> (r: LoginAction)
    ensures
        r@ == json_outcome(reply@),
{
    if !reply.ok {
        let mut e = "x-ui login failed with status ".to_string();
        e.append(&reply.status);
        e.append(": ");
        e.append(&reply.body);
        return LoginAction::Fail(e);
    }
    if reply.looks_like_api_error() {
        let mut e = "x-ui login failed: ".to_string();
        e.append(&reply.body);
        return LoginAction::Fail(e);
    }
    LoginAction::Done
}

fn push_fallback(paths: &mut Vec<String>, configured: &str, fallback: &str)
    ensures
        final(paths).deep_view() == if fallback@ != configured@ {
            old(paths).deep_view().push(fallback@)
        } else {
            old(paths).deep_view()
        },
{
    let ghost before = paths.deep_view();
    if !text_eq(fallback, configured) {
        paths.push(fallback.to_string());
        assert(paths.deep_view() =~= before.push(fallback@));
    }
}

impl XuiClient {
    /// A login that falls back to the usual paths; its first request is the form.
    pub fn login(&self) -> (r: LoginRun)
        ensures
            r@ == (LoginModel {
                paths: login_paths(self.config.login_path@),
                next: 0,
                phase: LoginPhase::Form,
                plain: false,
            }),
            r@.open(),
    {
        let configured = &self.config.login_path;
        let mut paths: Vec<String> = Vec::new();
        paths.push(configured.clone());
        push_fallback(&mut paths, configured, "/login");
        push_fallback(&mut paths, configured, "/panel/login");
        push_fallback(&mut paths, configured, "/xui/login");
        proof {
            let usual = seq!["/login"@, "/panel/login"@, "/xui/login"@];
            let differs = |p: Seq<char>| p != configured@;
            reveal(Seq::filter);
            assert(usual.drop_last() =~= seq!["/login"@, "/panel/login"@]);
            assert(usual.drop_last().drop_last() =~= seq!["/login"@]);
            assert(usual.drop_last().drop_last().drop_last() =~= seq![]);
            assert(seq![].filter(differs) =~= seq![]);
            reveal_with_fuel(Seq::filter, 4);
            assert(paths.deep_view() =~= login_paths(configured@));
        }
        LoginRun { paths, next: 0, phase: LoginPhase::Form, plain: false }
    }

    /// A login on the configured path alone; its first request is the form.
    pub fn plain_login(&self) -> (r: LoginRun)
        ensures
            r@ == (LoginModel {
                paths: seq![self.config.login_path@],
                next: 0,
                phase: LoginPhase::Form,
                plain: true,
            }),
            r@.open(),
    {
        let mut paths: Vec<String> = Vec::new();
        paths.push(self.config.login_path.clone());
        assert(paths.deep_view() =~= seq![self.config.login_path@]);
        LoginRun { paths, next: 0, phase: LoginPhase::Form, plain: true }
    }
}

} // verus!
