//! Moderation of links in issue comments that arrive as webhook deliveries.
//!
//! A delivery is authenticated by a keyed hash over its raw body, classified by
//! its event header and decoded; the comment it carries is then held against a
//! fixed list of link rules, and every rule that matches yields one remediation
//! for the caller to carry out.

pub mod bytes;
pub mod guards;
pub mod webhook;

use crate::guards::github::{GithubWebhookVerification, Status};
use crate::webhook::issues::{
    clean, issue_comment, lemma_clean_comment_left_alone, plan, remediation_views, scanned_text,
    IssueCommentWebhookEventPayload_, Remediation, RemediationCall, RemediationStrategy,
};
use vstd::prelude::*;

verus! {

/// How a delivery was handled: the status that answers it, and the calls that
/// are to be made for it, in order. The status acknowledges receipt; it does
/// not wait for the calls and says nothing of how they end.
#[derive(Debug, Clone, PartialEq, Eq)]
pub struct Handled {
    pub status: Status,
    pub remediations: Vec<Remediation>,
}

/// The answer to a delivery, given what the guard made of it. A delivery that
/// the guard refused is answered with the guard's status and asks for
/// nothing. One that passed is acknowledged, with the calls planned for its
/// comment; only a rule that is broken turns it into an internal error.
pub open spec fn answer(
    strategy: RemediationStrategy,
    data: Result<GithubWebhookVerification<IssueCommentWebhookEventPayload_>, Status>,
) -> (Status, Seq<RemediationCall>) {
    match data {
        Err(status) => (status, Seq::empty()),
        Ok(verified) => match plan(strategy, verified.payload) {
            Ok(calls) => (Status::Acknowledged, calls),
            Err(_) => (Status::InternalServerError, Seq::empty()),
        },
    }
}

/// Handles one delivery to the endpoint, given what the guard made of it.
pub fn github(
    strategy: RemediationStrategy,
    data: Result<GithubWebhookVerification<IssueCommentWebhookEventPayload_>, Status>,
) -> (handled: Handled)
    ensures
        (handled.status, remediation_views(handled.remediations@)) == answer(strategy, data),
{
    proof {
        assert(remediation_views(Seq::<Remediation>::empty()) =~= Seq::empty());
    }
    match data {
        Err(status) => Handled { status, remediations: Vec::new() },
        Ok(verified) => match issue_comment(strategy, &verified.payload) {
            Ok(remediations) => Handled { status: Status::Acknowledged, remediations },
            Err(_) => Handled { status: Status::InternalServerError, remediations: Vec::new() },
        },
    }
}

/// A delivery that passed the guard and whose comment no rule matches is
/// acknowledged, and no call is made for it.
pub proof fn lemma_clean_delivery_acknowledged(
    strategy: RemediationStrategy,
    verified: GithubWebhookVerification<IssueCommentWebhookEventPayload_>,
)
    requires
        scanned_text(verified.payload) matches Some(text) ==> clean(text),
    ensures
        answer(strategy, Ok(verified)) == (Status::Acknowledged, Seq::<RemediationCall>::empty()),
        Status::Acknowledged.code_of() == 200,
{
    lemma_clean_comment_left_alone(strategy, verified.payload);
}

/// A delivery that the guard refused asks for no call.
pub proof fn lemma_refused_delivery_untouched(strategy: RemediationStrategy, status: Status)
    ensures
        answer(strategy, Err(status)) == (status, Seq::<RemediationCall>::empty()),
{
}

} // verus!
