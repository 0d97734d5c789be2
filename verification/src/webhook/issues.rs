//! Comments on issues: what an event says of one, and what is to be done
//! about the links in it.

use crate::webhook::links::{
    keeps_the_rest, lemma_nothing_matches, lemma_pass_per_match, matching, pattern_match, redact,
    redaction_views, redactions, rules, ruleset, scan, BrokenRule, LinkCategory, Redaction,
};
use crate::webhook::repository::{extract_repository, repository_in};
use vstd::prelude::*;
use vstd::string::StringExecFns;

verus! {

/// What happened to the comment. Only a comment that was created or edited is
/// looked at; every other action is a valid event that calls for nothing.
#[derive(Debug, Clone, Copy, PartialEq, Eq, Structural)]
pub enum IssueCommentWebhookEventAction {
    Created,
    Edited,
    Other,
}

/// What an edit changed: the text of the comment before it.
#[derive(Debug, Clone, PartialEq, Eq)]
pub struct IssueCommentWebhookEventChanges {
    pub body: String,
}

/// The comment: the identifier under which it is updated or deleted, and its
/// text, which may be missing.
#[derive(Debug, Clone, PartialEq, Eq)]
pub struct Comment {
    pub id: u64,
    pub body: Option<String>,
}

/// The issue that the comment stands under, known by the resource URL of its
/// repository.
#[derive(Debug, Clone, PartialEq, Eq)]
pub struct Issue {
    pub repository_url: String,
}

/// The payload of an event about a comment on an issue.
#[derive(Debug, Clone, PartialEq, Eq)]
pub struct IssueCommentWebhookEventPayload_ {
    pub action: IssueCommentWebhookEventAction,
    pub changes: Option<IssueCommentWebhookEventChanges>,
    pub comment: Comment,
    /// Metadata of the enterprise as it came, as JSON text. It is carried and
    /// never read.
    pub enterprise: Option<String>,
    pub issue: Issue,
}

/// What is done about a comment that holds a link it may not hold.
#[derive(Debug, Clone, Copy, PartialEq, Eq, Structural)]
pub enum RemediationStrategy {
    /// The comment stays, with a placeholder wherever a rule matched. Each
    /// rule that matches costs one update of the comment.
    Redact,
    /// The comment goes, whatever else it holds. One match is enough, and
    /// however many rules match, the comment is deleted once.
    Delete,
}

impl Default for RemediationStrategy {
    /// Redaction is what is done unless deletion is asked for.
    fn default() -> (strategy: RemediationStrategy)
        ensures
            strategy == RemediationStrategy::Redact,
    {
        RemediationStrategy::Redact
    }
}

/// One call to the platform that sets a comment right.
#[derive(Debug, Clone, PartialEq, Eq)]
pub enum Remediation {
    UpdateComment { owner: String, repo: String, comment_id: u64, body: String },
    DeleteComment { owner: String, repo: String, comment_id: u64 },
}

/// A remediation as plain values.
pub enum RemediationCall {
    Update { owner: Seq<char>, repo: Seq<char>, comment_id: u64, body: Seq<char> },
    Delete { owner: Seq<char>, repo: Seq<char>, comment_id: u64 },
}

impl View for Remediation {
    type V = RemediationCall;

    open spec fn view(&self) -> RemediationCall {
        match self {
            Remediation::UpdateComment { owner, repo, comment_id, body } => RemediationCall::Update {
                owner: owner@,
                repo: repo@,
                comment_id: *comment_id,
                body: body@,
            },
            Remediation::DeleteComment { owner, repo, comment_id } => RemediationCall::Delete {
                owner: owner@,
                repo: repo@,
                comment_id: *comment_id,
            },
        }
    }
}

/// A list of remediations as plain values.
pub open spec fn remediation_views(calls: Seq<Remediation>) -> Seq<RemediationCall> {
    calls.map_values(|call: Remediation| call@)
}

/// Whether an event with this action has its comment looked at.
pub open spec fn triggers(action: IssueCommentWebhookEventAction) -> bool {
    action is Created || action is Edited
}

/// The text that is held against the rules: that of a comment which was
/// created or edited and has a text.
pub open spec fn scanned_text(payload: IssueCommentWebhookEventPayload_) -> Option<Seq<char>> {
    if triggers(payload.action) && payload.comment.body is Some {
        Some(payload.comment.body->0@)
    } else {
        None
    }
}

/// The updates that carry out the passes of a redaction, one for each pass
/// and in their order, each with the text that its pass has left.
pub open spec fn updates(
    owner: Seq<char>,
    repo: Seq<char>,
    comment_id: u64,
    passes: Seq<(LinkCategory, Seq<char>)>,
) -> Seq<RemediationCall> {
    Seq::new(
        passes.len(),
        |i: int| RemediationCall::Update { owner, repo, comment_id, body: passes[i].1 },
    )
}

/// The one call that deletes a comment in which something was found, and no
/// call for a comment in which nothing was.
pub open spec fn deletion(
    owner: Seq<char>,
    repo: Seq<char>,
    comment_id: u64,
    found: Seq<LinkCategory>,
) -> Seq<RemediationCall> {
    if found.len() == 0 {
        Seq::empty()
    } else {
        seq![RemediationCall::Delete { owner, repo, comment_id }]
    }
}

/// The calls that a text asks for under the rules. A comment in a repository
/// that the URL does not name is left alone.
pub open spec fn calls_for(
    strategy: RemediationStrategy,
    rules: Seq<(LinkCategory, Seq<char>)>,
    text: Seq<char>,
    comment_id: u64,
    repository_url: Seq<char>,
) -> Result<Seq<RemediationCall>, BrokenRule> {
    match strategy {
        RemediationStrategy::Redact => match redactions(rules, text) {
            Err(broken) => Err(broken),
            Ok(passes) => match repository_in(repository_url) {
                None => Ok(Seq::empty()),
                Some((owner, repo)) => Ok(updates(owner, repo, comment_id, passes)),
            },
        },
        RemediationStrategy::Delete => match matching(rules, text) {
            Err(broken) => Err(broken),
            Ok(found) => match repository_in(repository_url) {
                None => Ok(Seq::empty()),
                Some((owner, repo)) => Ok(deletion(owner, repo, comment_id, found)),
            },
        },
    }
}

/// The calls that an event asks for, in the order in which they are to be
/// made: none unless its comment is looked at, else those for its text under
/// the rules in force.
pub open spec fn plan(strategy: RemediationStrategy, payload: IssueCommentWebhookEventPayload_)
    -> Result<Seq<RemediationCall>, BrokenRule> {
    match scanned_text(payload) {
        None => Ok(Seq::empty()),
        Some(text) => calls_for(
            strategy,
            ruleset(),
            text,
            payload.comment.id,
            payload.issue.repository_url@,
        ),
    }
}

/// The updates that carry out a redaction: one for each pass, in the order
/// of the passes, each with the text that its pass has left.
pub fn updates_for(owner: &str, repo: &str, comment_id: u64, passes: &Vec<Redaction>) -> (calls:
    Vec<Remediation>)
    ensures
        remediation_views(calls@) == updates(owner@, repo@, comment_id, redaction_views(passes@)),
{
    let mut calls: Vec<Remediation> = Vec::new();
    let mut i: usize = 0;
    while i < passes.len()
        invariant
            i <= passes@.len(),
            calls@.len() == i,
            forall|k: int|
                0 <= k < i ==> (#[trigger] calls@[k])@ == (RemediationCall::Update {
                    owner: owner@,
                    repo: repo@,
                    comment_id,
                    body: passes@[k].text@,
                }),
        decreases passes@.len() - i,
    {
        calls.push(
            Remediation::UpdateComment {
                owner: String::from_str(owner),
                repo: String::from_str(repo),
                comment_id,
                body: passes[i].text.clone(),
            },
        );
        i = i + 1;
    }
    proof {
        assert(remediation_views(calls@) =~= updates(
            owner@,
            repo@,
            comment_id,
            redaction_views(passes@),
        ));
    }
    calls
}

/// The deletion of a comment in which the rules of the categories `found`
/// matched: one call if there is any, whatever their number.
pub fn deletion_for(owner: &str, repo: &str, comment_id: u64, found: &Vec<LinkCategory>) -> (calls:
    Vec<Remediation>)
    ensures
        remediation_views(calls@) == deletion(owner@, repo@, comment_id, found@),
{
    let mut calls: Vec<Remediation> = Vec::new();
    if found.len() > 0 {
        calls.push(
            Remediation::DeleteComment {
                owner: String::from_str(owner),
                repo: String::from_str(repo),
                comment_id,
            },
        );
    }
    proof {
        assert(remediation_views(calls@) =~= deletion(owner@, repo@, comment_id, found@));
    }
    calls
}

/// Decides what is to be done about the comment of an event. The calls come
/// back in the order in which they are to be made; making them, and bearing
/// with those that fail, is left to the caller. Where a comment is redacted,
/// each update carries the text of the update before it, or of the comment,
/// with the placeholder in the place of some stretches and all the rest kept.
pub fn issue_comment(strategy: RemediationStrategy, payload: &IssueCommentWebhookEventPayload_) -> (calls:
    Result<Vec<Remediation>, BrokenRule>)
    ensures
        match calls {
            Ok(planned) => plan(strategy, *payload) == Ok::<Seq<RemediationCall>, BrokenRule>(
                remediation_views(planned@),
            ),
            Err(broken) => plan(strategy, *payload) == Err::<Seq<RemediationCall>, BrokenRule>(
                broken,
            ),
        },
        strategy is Redact && calls is Ok ==> (scanned_text(*payload) matches Some(text)
            ==> keeps_the_rest(redactions(ruleset(), text)->Ok_0, text)),
{
    match payload.action {
        IssueCommentWebhookEventAction::Created => {},
        IssueCommentWebhookEventAction::Edited => {},
        IssueCommentWebhookEventAction::Other => {
            proof {
                assert(remediation_views(Seq::<Remediation>::empty()) =~= Seq::empty());
            }
            return Ok(Vec::new());
        },
    }
    let text = match &payload.comment.body {
        Some(text) => text,
        None => {
            proof {
                assert(remediation_views(Seq::<Remediation>::empty()) =~= Seq::empty());
            }
            return Ok(Vec::new());
        },
    };
    let rules = rules();
    let comment_id = payload.comment.id;
    proof {
        assert(remediation_views(Seq::<Remediation>::empty()) =~= Seq::empty());
    }
    match strategy {
        RemediationStrategy::Redact => {
            let passes = match redact(&rules, text.as_str()) {
                Ok(passes) => passes,
                Err(broken) => return Err(broken),
            };
            match extract_repository(payload.issue.repository_url.as_str()) {
                Ok((owner, repo)) => Ok(
                    updates_for(owner.as_str(), repo.as_str(), comment_id, &passes),
                ),
                Err(_) => Ok(Vec::new()),
            }
        },
        RemediationStrategy::Delete => {
            let found = match scan(&rules, text.as_str()) {
                Ok(found) => found,
                Err(broken) => return Err(broken),
            };
            match extract_repository(payload.issue.repository_url.as_str()) {
                Ok((owner, repo)) => Ok(
                    deletion_for(owner.as_str(), repo.as_str(), comment_id, &found),
                ),
                Err(_) => Ok(Vec::new()),
            }
        },
    }
}

/// Whether no rule in force matches the text.
pub open spec fn clean(text: Seq<char>) -> bool {
    forall|i: int|
        0 <= i < ruleset().len() ==> pattern_match(#[trigger] ruleset()[i].1, text) == Some(false)
}

/// A comment in which no rule finds anything is left alone, whatever is done
/// about the others.
pub proof fn lemma_clean_comment_left_alone(
    strategy: RemediationStrategy,
    payload: IssueCommentWebhookEventPayload_,
)
    requires
        scanned_text(payload) matches Some(text) ==> clean(text),
    ensures
        plan(strategy, payload) == Ok::<Seq<RemediationCall>, BrokenRule>(Seq::empty()),
{
    if let Some(text) = scanned_text(payload) {
        lemma_nothing_matches(ruleset(), text);
        if let Some((owner, repo)) = repository_in(payload.issue.repository_url@) {
            assert(updates(owner, repo, payload.comment.id, Seq::empty()) =~= Seq::empty());
        }
    }
}

/// A comment without a text is never held against the rules: nothing is
/// asked for it, whatever the rules are and whether or not they are sound.
pub proof fn lemma_missing_text_skipped(
    strategy: RemediationStrategy,
    payload: IssueCommentWebhookEventPayload_,
)
    requires
        payload.comment.body is None,
    ensures
        scanned_text(payload) is None,
        plan(strategy, payload) == Ok::<Seq<RemediationCall>, BrokenRule>(Seq::empty()),
{
}

/// A comment that was neither created nor edited is never held against the
/// rules, whatever its text holds.
pub proof fn lemma_other_action_skipped(
    strategy: RemediationStrategy,
    payload: IssueCommentWebhookEventPayload_,
)
    requires
        !(payload.action is Created),
        !(payload.action is Edited),
    ensures
        scanned_text(payload) is None,
        plan(strategy, payload) == Ok::<Seq<RemediationCall>, BrokenRule>(Seq::empty()),
{
}

/// A comment in a repository that the URL of its issue does not name is left
/// alone, whatever the rules find in it.
pub proof fn lemma_unnamed_repository_left_alone(
    strategy: RemediationStrategy,
    payload: IssueCommentWebhookEventPayload_,
)
    requires
        repository_in(payload.issue.repository_url@) is None,
        plan(strategy, payload) is Ok,
    ensures
        plan(strategy, payload) == Ok::<Seq<RemediationCall>, BrokenRule>(Seq::empty()),
{
}

/// In a repository that the URL names, redaction makes one call for each rule
/// that matches the comment, and deletion makes one call if any rule matches
/// and none otherwise.
pub proof fn lemma_calls_per_match(
    strategy: RemediationStrategy,
    payload: IssueCommentWebhookEventPayload_,
)
    requires
        scanned_text(payload) is Some,
        repository_in(payload.issue.repository_url@) is Some,
        plan(strategy, payload) is Ok,
    ensures
        matching(ruleset(), scanned_text(payload)->0) is Ok,
        strategy is Redact ==> plan(strategy, payload)->Ok_0.len() == matching(
            ruleset(),
            scanned_text(payload)->0,
        )->Ok_0.len(),
        strategy is Delete ==> plan(strategy, payload)->Ok_0.len() == (if matching(
            ruleset(),
            scanned_text(payload)->0,
        )->Ok_0.len() > 0 {
            1nat
        } else {
            0nat
        }),
{
    if strategy is Redact {
        lemma_pass_per_match(ruleset(), scanned_text(payload)->0);
    }
}

/// What is decided about an event depends on the event alone: the same event
/// gets the same calls, so that two deliveries of one deletion ask for the
/// same single call.
pub proof fn lemma_plan_repeats(
    strategy: RemediationStrategy,
    payload: IssueCommentWebhookEventPayload_,
    again: IssueCommentWebhookEventPayload_,
)
    requires
        payload.action == again.action,
        payload.comment.id == again.comment.id,
        payload.issue.repository_url@ == again.issue.repository_url@,
        payload.comment.body is Some == again.comment.body is Some,
        payload.comment.body is Some ==> payload.comment.body->0@ == again.comment.body->0@,
    ensures
        plan(strategy, payload) == plan(strategy, again),
{
}

} // verus!
