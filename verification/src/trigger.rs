//! The trigger endpoint: authenticates a merge request before anything is dispatched.

use vstd::prelude::*;
use crate::record::{MergeSelector, SelectorView};
use crate::text::same_text;

verus! {

/// A merge request as it arrives: who submitted the pull requests, their title, and the
/// shared secret that the caller presents.
#[derive(Debug, PartialEq, Eq)]
pub struct AutoMergeRequest {
    pub login: String,
    pub title: String,
    pub auth_token: String,
}

/// The selector that a request asks for.
pub open spec fn requested_selector(request: AutoMergeRequest) -> SelectorView {
    SelectorView { submitter: request.login@, title: request.title@ }
}

/// An authenticated trigger. Only [`receive_trigger`] makes one, so holding one shows that
/// the caller presented the configured secret.
pub struct AcceptedTrigger {
    selector: MergeSelector,
}

impl View for AcceptedTrigger {
    type V = SelectorView;

    closed spec fn view(&self) -> SelectorView {
        self.selector@
    }
}

impl AcceptedTrigger {
    /// The selector that was asked for.
    pub fn selector(&self) -> (selector: &MergeSelector)
        ensures
            selector@ == self@,
    {
        &self.selector
    }

    /// Gives up the trigger for its selector.
    pub fn into_selector(self) -> (selector: MergeSelector)
        ensures
            selector@ == self@,
    {
        self.selector
    }
}

/// What the endpoint does with a request.
pub enum TriggerDecision {
    /// The secret matched: acknowledge at once and dispatch the merge attempt.
    Dispatch(AcceptedTrigger),
    /// The secret did not match: answer with a failure and do nothing else.
    Reject,
}

/// HTTP status that acknowledges an accepted request.
pub const STATUS_ACCEPTED: u16 = 200;

/// HTTP status that answers a request with a wrong secret.
pub const STATUS_REJECTED: u16 = 418;

impl TriggerDecision {
    /// The HTTP status of the answer.
    pub fn status_code(&self) -> (status: u16)
        ensures
            status == if self is Dispatch {
                STATUS_ACCEPTED
            } else {
                STATUS_REJECTED
            },
    {
        match self {
            TriggerDecision::Dispatch(_) => STATUS_ACCEPTED,
            TriggerDecision::Reject => STATUS_REJECTED,
        }
    }

    /// The body of the answer: `ok` for an accepted request, nothing otherwise.
    pub fn body(&self) -> (body: &'static str)
        ensures
            body@ == if self is Dispatch {
                "ok"@
            } else {
                ""@
            },
    {
        match self {
            TriggerDecision::Dispatch(_) => "ok",
            TriggerDecision::Reject => "",
        }
    }
}

/// Authenticates `request` against the configured `secret`. The request is dispatched, with
/// the selector it names, exactly when the presented token equals the secret. The whole
/// token is compared, wherever it first differs from the secret.
pub fn receive_trigger(secret: &String, request: AutoMergeRequest) -> (decision: TriggerDecision)
    ensures
        decision is Dispatch <==> request.auth_token@ == secret@,
        decision is Dispatch ==> decision->Dispatch_0@ == requested_selector(request),
{
    if same_text(request.auth_token.as_str(), secret.as_str()) {
        TriggerDecision::Dispatch(
            AcceptedTrigger {
                selector: MergeSelector { submitter: request.login, title: request.title },
            },
        )
    } else {
        TriggerDecision::Reject
    }
}

} // verus!
