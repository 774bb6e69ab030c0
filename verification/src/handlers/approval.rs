//! The decision on a request that was typed or pressed: what is done, in which order, and who is
//! told what.

use vstd::prelude::*;

use crate::text::number::decimal;
use crate::xui::CreatedClientResult;

use super::messages::{PendingCreateRequest, WaitingModel};
use super::requests::{
    approval_message, approve_request, approving_text, create_failed_text, denied_text,
    message_ends_in_the_link, not_found_text, url_message, APPROVED_TITLE, DENIED_TEXT,
    NO_LINK_TEXT,
};

verus! {

/// What a decision waits for.
#[derive(Debug, Clone, Copy, PartialEq, Eq, Structural)]
pub enum ApprovalPhase {
    /// The request, which is taken out of the store.
    Take,
    /// The client that is created for it.
    Create,
    /// Nothing: it is over.
    Closed,
}

/// What comes of what was asked for.
#[derive(Debug)]
pub enum ApprovalEvent {
    /// The request that was taken out of the store, if there was one.
    Taken(Option<PendingCreateRequest>),
    /// The client that was created.
    Created(CreatedClientResult),
    /// The client could not be created.
    NotCreated(String),
    /// The store or the panel could not be reached.
    Failed(String),
}

/// What to do next.
#[derive(Debug)]
pub enum ApprovalAction {
    /// It is over: tell the approver.
    Say(String),
    /// Tell the approver, then create a client for this user under this e-mail.
    Create { approver_text: String, user_id: u64, email: Option<String> },
    /// It is over: tell the approver, then this chat. A link is also sent there as a picture.
    Announce { approver_text: String, chat_id: i64, text: String, url: Option<String> },
    /// It is over, with this error.
    Fail(String),
}

/// What comes of what was asked for.
pub enum ApprovalEventModel {
    Taken(Option<WaitingModel>),
    Created { summary: Seq<char>, url: Option<Seq<char>> },
    NotCreated(Seq<char>),
    Failed(Seq<char>),
}

/// What is to be done next.
pub enum ApprovalOutcome {
    Say(Seq<char>),
    Create { approver_text: Seq<char>, user_id: u64, email: Option<Seq<char>> },
    Announce {
        approver_text: Seq<char>,
        chat_id: i64,
        text: Seq<char>,
        url: Option<Seq<char>>,
    },
    Fail(Seq<char>),
}

impl View for ApprovalEvent {
    type V = ApprovalEventModel;

    open spec fn view(&self) -> ApprovalEventModel {
        match self {
            ApprovalEvent::Taken(Some(request)) => ApprovalEventModel::Taken(Some(request@)),
            ApprovalEvent::Taken(None) => ApprovalEventModel::Taken(None),
            ApprovalEvent::Created(created) => ApprovalEventModel::Created {
                summary: created.summary@,
                url: created.connection_url.deep_view(),
            },
            ApprovalEvent::NotCreated(e) => ApprovalEventModel::NotCreated(e@),
            ApprovalEvent::Failed(e) => ApprovalEventModel::Failed(e@),
        }
    }
}

impl View for ApprovalAction {
    type V = ApprovalOutcome;

    open spec fn view(&self) -> ApprovalOutcome {
        match self {
            ApprovalAction::Say(text) => ApprovalOutcome::Say(text@),
            ApprovalAction::Create { approver_text, user_id, email } => ApprovalOutcome::Create {
                approver_text: approver_text@,
                user_id: *user_id,
                email: email.deep_view(),
            },
            ApprovalAction::Announce { approver_text, chat_id, text, url } =>
                ApprovalOutcome::Announce {
                approver_text: approver_text@,
                chat_id: *chat_id,
                text: text@,
                url: url.deep_view(),
            },
            ApprovalAction::Fail(e) => ApprovalOutcome::Fail(e@),
        }
    }
}

/// The approval or the denial of a request.
#[derive(Debug)]
pub struct ApprovalRun {
    pub id: u64,
    pub approve: bool,
    pub phase: ApprovalPhase,
    /// The chat of the request that was taken.
    pub chat_id: i64,
}

/// What is said of a request that is not there.
pub open spec fn missing_message(id: u64) -> Seq<char> {
    "Request #"@ + decimal(id as nat) + " not found."@
}

/// What is said before a client is created.
pub open spec fn approving_message(id: u64) -> Seq<char> {
    "Approving request #"@ + decimal(id as nat) + "..."@
}

/// What the approver is told of a request that was denied.
pub open spec fn denied_message(id: u64) -> Seq<char> {
    "Request #"@ + decimal(id as nat) + " denied."@
}

/// What is said where no client could be created.
pub open spec fn not_created_message(id: u64, cause: Seq<char>) -> Seq<char> {
    "failed to create VPN user for request #"@ + decimal(id as nat) + ": "@ + cause
}

/// What the user is told of an approved request.
pub open spec fn approved_user_text(url: Option<Seq<char>>) -> Seq<char> {
    match url {
        Some(url) => url_message(APPROVED_TITLE@, url),
        None => NO_LINK_TEXT@,
    }
}

impl ApprovalRun {
    /// The event is one that the phase waits for.
    pub open spec fn takes(self, event: ApprovalEventModel) -> bool {
        match event {
            ApprovalEventModel::Taken(_) => self.phase == ApprovalPhase::Take,
            ApprovalEventModel::Created { .. } => self.phase == ApprovalPhase::Create,
            ApprovalEventModel::NotCreated(_) => self.phase == ApprovalPhase::Create,
            ApprovalEventModel::Failed(_) => self.phase != ApprovalPhase::Closed,
        }
    }

    /// The decision in another phase.
    pub open spec fn at(self, phase: ApprovalPhase) -> ApprovalRun {
        ApprovalRun { phase, ..self }
    }

    /// The decision after an event, and what is to be done next. The request is taken out of the
    /// store first; the client is created for its user and under its e-mail, and its chat is told.
    pub open spec fn next(self, event: ApprovalEventModel) -> (ApprovalRun, ApprovalOutcome) {
        match event {
            ApprovalEventModel::Taken(None) => (
                self.at(ApprovalPhase::Closed),
                ApprovalOutcome::Say(missing_message(self.id)),
            ),
            ApprovalEventModel::Taken(Some(request)) => if self.approve {
                (
                    ApprovalRun {
                        chat_id: request.requester_chat_id,
                        ..self.at(ApprovalPhase::Create)
                    },
                    ApprovalOutcome::Create {
                        approver_text: approving_message(self.id),
                        user_id: request.requester_user_id,
                        email: request.custom_email,
                    },
                )
            } else {
                (
                    ApprovalRun {
                        chat_id: request.requester_chat_id,
                        ..self.at(ApprovalPhase::Closed)
                    },
                    ApprovalOutcome::Announce {
                        approver_text: denied_message(self.id),
                        chat_id: request.requester_chat_id,
                        text: DENIED_TEXT@,
                        url: None,
                    },
                )
            },
            ApprovalEventModel::Created { summary, url } => (
                self.at(ApprovalPhase::Closed),
                ApprovalOutcome::Announce {
                    approver_text: approval_message(self.id, summary, url),
                    chat_id: self.chat_id,
                    text: approved_user_text(url),
                    url,
                },
            ),
            ApprovalEventModel::NotCreated(cause) => (
                self.at(ApprovalPhase::Closed),
                ApprovalOutcome::Fail(not_created_message(self.id, cause)),
            ),
            ApprovalEventModel::Failed(e) => (
                self.at(ApprovalPhase::Closed),
                ApprovalOutcome::Fail(e),
            ),
        }
    }

    /// A decision on that request; the request is to be taken out of the store first.
    pub fn new(id: u64, approve: bool) -> (r: ApprovalRun)
        ensures
            r == (ApprovalRun { id, approve, phase: ApprovalPhase::Take, chat_id: 0 }),
    {
        ApprovalRun { id, approve, phase: ApprovalPhase::Take, chat_id: 0 }
    }

    /// Takes the event in, and says what to do next.
    pub fn step(&mut self, event: ApprovalEvent) -> (r: ApprovalAction)
        requires
            old(self).takes(event@),
        ensures
            (*final(self), r@) == old(self).next(event@),
    {
        match event {
            ApprovalEvent::Taken(None) => {
                self.phase = ApprovalPhase::Closed;
                ApprovalAction::Say(not_found_text(self.id))
            },
            ApprovalEvent::Taken(Some(request)) => {
                self.chat_id = request.requester_chat_id;
                if self.approve {
                    self.phase = ApprovalPhase::Create;
                    ApprovalAction::Create {
                        approver_text: approving_text(self.id),
                        user_id: request.requester_user_id,
                        email: request.custom_email,
                    }
                } else {
                    self.phase = ApprovalPhase::Closed;
                    ApprovalAction::Announce {
                        approver_text: denied_text(self.id),
                        chat_id: request.requester_chat_id,
                        text: DENIED_TEXT.to_string(),
                        url: None,
                    }
                }
            },
            ApprovalEvent::Created(created) => {
                self.phase = ApprovalPhase::Closed;
                let approval = approve_request(self.id, created);
                ApprovalAction::Announce {
                    approver_text: approval.approver_text,
                    chat_id: self.chat_id,
                    text: approval.user_text,
                    url: approval.url,
                }
            },
            ApprovalEvent::NotCreated(cause) => {
                self.phase = ApprovalPhase::Closed;
                let mut text = create_failed_text(self.id);
                text.append(": ");
                text.append(&cause);
                ApprovalAction::Fail(text)
            },
            ApprovalEvent::Failed(e) => {
                self.phase = ApprovalPhase::Closed;
                ApprovalAction::Fail(e)
            },
        }
    }
}

/// An approved request leads to a client for its own user and under its own e-mail, and what comes
/// of it is told in its own chat.
pub proof fn approval_serves_the_requester(
    run: ApprovalRun,
    request: WaitingModel,
    summary: Seq<char>,
    url: Option<Seq<char>>,
)
    requires
        run.approve,
        run.phase == ApprovalPhase::Take,
    ensures
        ({
            let (waiting, action) = run.next(ApprovalEventModel::Taken(Some(request)));
            let (over, told) = waiting.next(ApprovalEventModel::Created { summary, url });
            &&& action == ApprovalOutcome::Create {
                approver_text: approving_message(run.id),
                user_id: request.requester_user_id,
                email: request.custom_email,
            }
            &&& waiting.takes(ApprovalEventModel::Created { summary, url })
            &&& told is Announce
            &&& told->Announce_chat_id == request.requester_chat_id
            &&& over.phase == ApprovalPhase::Closed
        }),
{
}

/// An approved user is sent the link and nothing but the link of the own client, as a message and as
/// a picture; without one, the user is told to ask again.
pub proof fn requester_gets_the_link(run: ApprovalRun, summary: Seq<char>, url: Seq<char>)
    requires
        run.phase == ApprovalPhase::Create,
    ensures
        ({
            let (over, told) = run.next(
                ApprovalEventModel::Created { summary, url: Some(url) },
            );
            &&& over.phase == ApprovalPhase::Closed
            &&& told matches ApprovalOutcome::Announce { approver_text, chat_id, text, url: sent }
            &&& chat_id == run.chat_id
            &&& ("Твой запрос подтвержден."@ + "\n\n"@).is_prefix_of(text)
            &&& ("URL:\n"@ + url).is_suffix_of(text)
            &&& sent == Some(url)
            &&& approver_text == approval_message(run.id, summary, Some(url))
        }),
        ({
            let (over, told) = run.next(ApprovalEventModel::Created { summary, url: None });
            &&& over.phase == ApprovalPhase::Closed
            &&& told == ApprovalOutcome::Announce {
                approver_text: approval_message(run.id, summary, None),
                chat_id: run.chat_id,
                text:
                    "Твой запрос подтвержден, но ссылка не найдена в ответе сервера. Попробуй /vpn через минуту."@,
                url: None,
            }
        }),
{
    message_ends_in_the_link(APPROVED_TITLE@, url, url);
}

/// A denial ends at once: the approver and the requester are told, and no link is sent. A request
/// that is not there, and every failure, end a decision with what is wrong.
pub proof fn denials_and_failures_end_a_decision(
    run: ApprovalRun,
    request: WaitingModel,
    cause: Seq<char>,
)
    requires
        run.phase == ApprovalPhase::Take,
    ensures
        !run.approve ==> run.next(ApprovalEventModel::Taken(Some(request))).1
            == (ApprovalOutcome::Announce {
            approver_text: "Request #"@ + decimal(run.id as nat) + " denied."@,
            chat_id: request.requester_chat_id,
            text: "Твой запрос отклонен."@,
            url: None,
        }),
        !run.approve ==> run.next(ApprovalEventModel::Taken(Some(request))).0.phase
            == ApprovalPhase::Closed,
        run.next(ApprovalEventModel::Taken(None)) == (
            run.at(ApprovalPhase::Closed),
            ApprovalOutcome::Say("Request #"@ + decimal(run.id as nat) + " not found."@),
        ),
        run.next(ApprovalEventModel::Failed(cause)) == (
            run.at(ApprovalPhase::Closed),
            ApprovalOutcome::Fail(cause),
        ),
        run.at(ApprovalPhase::Create).next(ApprovalEventModel::NotCreated(cause)).1
            == ApprovalOutcome::Fail(
            "failed to create VPN user for request #"@ + decimal(run.id as nat) + ": "@ + cause,
        ),
        run.approve ==> (run.next(
            ApprovalEventModel::Taken(Some(request)),
        ).1 matches ApprovalOutcome::Create { approver_text, user_id, email } && approver_text
            == "Approving request #"@ + decimal(run.id as nat) + "..."@ && user_id
            == request.requester_user_id && email == request.custom_email),
{
}

/// A decision first waits for the request, then, where a client is to be created, for what comes of
/// that, and in the end for nothing; until then a failure can come at any time.
pub proof fn decision_waits_for_what_it_asked_for(
    run: ApprovalRun,
    request: Option<WaitingModel>,
    summary: Seq<char>,
    url: Option<Seq<char>>,
    cause: Seq<char>,
    event: ApprovalEventModel,
)
    ensures
        run.at(ApprovalPhase::Take).takes(ApprovalEventModel::Taken(request)),
        run.at(ApprovalPhase::Take).takes(ApprovalEventModel::Failed(cause)),
        !run.at(ApprovalPhase::Take).takes(ApprovalEventModel::Created { summary, url }),
        run.at(ApprovalPhase::Create).takes(ApprovalEventModel::Created { summary, url }),
        run.at(ApprovalPhase::Create).takes(ApprovalEventModel::NotCreated(cause)),
        run.at(ApprovalPhase::Create).takes(ApprovalEventModel::Failed(cause)),
        !run.at(ApprovalPhase::Create).takes(ApprovalEventModel::Taken(request)),
        !run.at(ApprovalPhase::Closed).takes(event),
{
}

/// A denied request never leads to a client, and neither does one that is not there.
pub proof fn only_approved_requests_create(run: ApprovalRun, event: ApprovalEventModel)
    requires
        run.takes(event),
        run.next(event).1 is Create,
    ensures
        run.approve,
        event matches ApprovalEventModel::Taken(Some(_)),
{
}

/// A decision ends: it is over unless a client is to be created.
pub proof fn decision_ends(run: ApprovalRun, event: ApprovalEventModel)
    requires
        run.takes(event),
    ensures
        run.next(event).0.phase == ApprovalPhase::Closed || (run.phase == ApprovalPhase::Take
            && run.next(event).0.phase == ApprovalPhase::Create && run.next(event).1 is Create),
{
}

} // verus!
