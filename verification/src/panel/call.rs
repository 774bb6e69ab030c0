//! One call to the panel: a session, a request, and a second try after a new login.

use vstd::prelude::*;

use crate::text::chars::{chars_of, string_of};

verus! {

/// The characters of a body that an error quotes.
pub const QUOTED: usize = 300;

/// The envelope of a reply.
#[derive(Debug)]
pub struct ApiStatus {
    pub success: bool,
    pub msg: String,
}

/// A reply to a call: its status, its body, and the envelope in it or the reason why there is none.
#[derive(Debug)]
pub struct CallReply {
    pub status: u16,
    pub status_text: String,
    pub body: String,
    pub api: Result<ApiStatus, String>,
}

/// What an envelope is.
pub struct ApiStatusModel {
    pub success: bool,
    pub msg: Seq<char>,
}

/// What a reply is.
pub struct CallReplyModel {
    pub status: u16,
    pub status_text: Seq<char>,
    pub body: Seq<char>,
    pub api: Result<ApiStatusModel, Seq<char>>,
}

impl View for CallReply {
    type V = CallReplyModel;

    open spec fn view(&self) -> CallReplyModel {
        CallReplyModel {
            status: self.status,
            status_text: self.status_text@,
            body: self.body@,
            api: match self.api {
                Ok(api) => Ok(ApiStatusModel { success: api.success, msg: api.msg@ }),
                Err(cause) => Err(cause@),
            },
        }
    }
}

/// The panel hides what it has behind these states from those who are not logged in.
pub open spec fn unauthorized(status: u16) -> bool {
    status == 401 || status == 403 || status == 404
}

/// The text, or as much of it as `max` characters.
pub open spec fn truncated(text: Seq<char>, max: nat) -> Seq<char> {
    if text.len() <= max {
        text
    } else {
        text.take(max as int)
    }
}

/// What a call has come to.
#[derive(Debug)]
pub enum CallAction {
    /// Log in again, and send the request once more.
    LogInAgain,
    /// The reply is good.
    Done,
    /// The call has failed.
    Fail(String),
}

/// What a call has come to.
pub enum CallOutcome {
    LogInAgain,
    Done,
    Fail(Seq<char>),
}

impl View for CallAction {
    type V = CallOutcome;

    open spec fn view(&self) -> CallOutcome {
        match self {
            CallAction::LogInAgain => CallOutcome::LogInAgain,
            CallAction::Done => CallOutcome::Done,
            CallAction::Fail(e) => CallOutcome::Fail(e@),
        }
    }
}

/// What a reply comes to when it is final.
pub open spec fn final_outcome(label: Seq<char>, reply: CallReplyModel) -> CallOutcome {
    if !(200 <= reply.status <= 299) {
        CallOutcome::Fail(
            label + ": HTTP "@ + reply.status_text + ": "@ + truncated(reply.body, QUOTED as nat),
        )
    } else {
        match reply.api {
            Err(cause) => CallOutcome::Fail(
                label + ": invalid JSON: "@ + truncated(reply.body, QUOTED as nat) + ": "@ + cause,
            ),
            Ok(api) => if api.success {
                CallOutcome::Done
            } else {
                CallOutcome::Fail(label + ": "@ + api.msg)
            },
        }
    }
}

/// What a reply comes to: in a session, one that says that nobody is logged in leads to one new
/// login.
pub open spec fn call_outcome(
    label: Seq<char>,
    in_session: bool,
    relogged: bool,
    reply: CallReplyModel,
) -> CallOutcome {
    if unauthorized(reply.status) && !relogged && in_session {
        CallOutcome::LogInAgain
    } else {
        final_outcome(label, reply)
    }
}

/// A call logs in again at most once: after that, every reply is final.
pub proof fn login_is_repeated_once(label: Seq<char>, in_session: bool, reply: CallReplyModel)
    ensures
        !(call_outcome(label, in_session, true, reply) is LogInAgain),
{
}

/// A call with a token never logs in.
pub proof fn token_never_logs_in(label: Seq<char>, relogged: bool, reply: CallReplyModel)
    ensures
        !(call_outcome(label, false, relogged, reply) is LogInAgain),
{
}

/// In a session, a reply with 401, 403 or 404 to the first request leads to a new login; any other
/// reply is final.
pub proof fn only_refusals_lead_to_a_login(label: Seq<char>, reply: CallReplyModel)
    ensures
        call_outcome(label, true, false, reply) is LogInAgain <==> reply.status == 401
            || reply.status == 403 || reply.status == 404,
{
}

/// A final reply is good exactly where its status is a success and its envelope says so. An error
/// names the call, and then the status and the body, or what the envelope says, or why there is
/// none.
pub proof fn reply_is_good_where_the_panel_says_so(
    label: Seq<char>,
    in_session: bool,
    reply: CallReplyModel,
)
    ensures
        call_outcome(label, in_session, true, reply) is Done <==> 200 <= reply.status < 300 && (
        reply.api matches Ok(api) && api.success),
        call_outcome(label, in_session, true, reply) == call_outcome(label, false, false, reply),
        call_outcome(label, in_session, true, reply) matches CallOutcome::Fail(e) ==> {
            &&& label.is_prefix_of(e)
            &&& !(200 <= reply.status < 300) ==> e == label + ": HTTP "@ + reply.status_text + ": "@
                + truncated(reply.body, 300)
            &&& 200 <= reply.status < 300 && reply.api is Ok ==> e == label + ": "@
                + reply.api->Ok_0.msg
            &&& 200 <= reply.status < 300 && reply.api is Err ==> e == label + ": invalid JSON: "@
                + truncated(reply.body, 300) + ": "@ + reply.api->Err_0
        },
{
    if let CallOutcome::Fail(e) = call_outcome(label, in_session, true, reply) {
        assert(label =~= e.subrange(0, label.len() as int));
    }
}

/// A text that is cut is a start of the text, with as many characters as fit, and a text that fits
/// is not cut.
pub proof fn cut_text_is_its_start(text: Seq<char>, max: nat)
    ensures
        truncated(text, max).is_prefix_of(text),
        truncated(text, max).len() == if text.len() <= max {
            text.len()
        } else {
            max
        },
{
}

/// The text, or as much of it as `max` characters.
pub fn truncate(text: &str, max: usize) -> (r: String)
    ensures
        r@ == truncated(text@, max as nat),
{
    let v = chars_of(text);
    if v.len() <= max {
        text.to_string()
    } else {
        let r = string_of(&v, 0, max);
        assert(r@ =~= text@.take(max as int));
        r
    }
}

/// Whether the status says that nobody is logged in.
pub fn is_unauthorized(status: u16) -> (r: bool)
    ensures
        r == unauthorized(status),
{
    status == 401 || status == 403 || status == 404
}

/// A call on its way.
#[derive(Debug)]
pub struct Call {
    /// The method and the path.
    pub label: String,
    pub in_session: bool,
    pub relogged: bool,
}

impl Call {
    /// A call that is about to be made.
    pub fn new(method: &str, path: &str, in_session: bool) -> (r: Call)
        ensures
            r.label@ == method@ + " "@ + path@,
            r.in_session == in_session,
            !r.relogged,
    {
        let mut label = method.to_string();
        label.append(" ");
        label.append(path);
        Call { label, in_session, relogged: false }
    }

    /// Takes a reply in, and says what it comes to.
    pub fn step(&mut self, reply: &CallReply) -> (r: CallAction)
        ensures
            final(self).label == old(self).label,
            final(self).in_session == old(self).in_session,
            r@ == call_outcome(
                old(self).label@,
                old(self).in_session,
                old(self).relogged,
                reply@,
            ),
            final(self).relogged == (old(self).relogged || r@ is LogInAgain),
    {
        if is_unauthorized(reply.status) && !self.relogged && self.in_session {
            self.relogged = true;
            return CallAction::LogInAgain;
        }
        if reply.status < 200 || reply.status > 299 {
            let mut e = self.label.clone();
            e.append(": HTTP ");
            e.append(&reply.status_text);
            e.append(": ");
            e.append(&truncate(&reply.body, QUOTED));
            return CallAction::Fail(e);
        }
        match &reply.api {
            Err(cause) => {
                let mut e = self.label.clone();
                e.append(": invalid JSON: ");
                e.append(&truncate(&reply.body, QUOTED));
                e.append(": ");
                e.append(cause);
                CallAction::Fail(e)
            },
            Ok(api) => {
                if api.success {
                    CallAction::Done
                } else {
                    let mut e = self.label.clone();
                    e.append(": ");
                    e.append(&api.msg);
                    CallAction::Fail(e)
                }
            },
        }
    }
}

/// What is known of the session with the panel.
#[derive(Debug)]
pub struct Session {
    pub logged_in: bool,
}

impl Session {
    /// A session in which nobody is logged in.
    pub fn new() -> (r: Session)
        ensures
            !r.logged_in,
    {
        Session { logged_in: false }
    }

    /// Whether a login is needed before a request.
    pub fn needs_login(&self, in_session: bool) -> (r: bool)
        ensures
            r == (in_session && !self.logged_in),
    {
        in_session && !self.logged_in
    }

    /// Takes the reply to a login in.
    pub fn on_login(&mut self, api: &ApiStatus) -> (r: Result<(), String>)
        ensures
            r is Ok <==> api.success,
            r matches Err(e) ==> e@ == "panel login failed: "@ + api.msg@,
            final(self).logged_in == (old(self).logged_in || api.success),
    {
        if api.success {
            self.logged_in = true;
            Ok(())
        } else {
            let mut e = "panel login failed: ".to_string();
            e.append(&api.msg);
            Err(e)
        }
    }

    /// The session was refused.
    pub fn drop_login(&mut self)
        ensures
            !final(self).logged_in,
    {
        self.logged_in = false;
    }
}

/// Whether a request carries a token against forgery: those that change something do, in a session.
pub fn needs_csrf_token(is_post: bool, in_session: bool) -> (r: bool)
    ensures
        r == (is_post && in_session),
{
    is_post && in_session
}

} // verus!
