//! The guard in front of the webhook endpoint: who sent a delivery, what kind
//! of event it announces, and whether its body decodes.

use crate::bytes::text_equal;
use crate::guards::signature::{
    hmac_sha256_tag, lemma_altered_body_rejected, lemma_own_signature_verifies, signature_of,
    signature_valid, verify,
};
use vstd::prelude::*;

verus! {

/// The answers the endpoint gives. The status is all the sender is told.
#[derive(Debug, Clone, Copy, PartialEq, Eq, Structural)]
pub enum Status {
    Acknowledged,
    BadRequest,
    Unauthorized,
    UnprocessableEntity,
    InternalServerError,
}

impl Status {
    /// The HTTP status code of each answer, as a number.
    pub open spec fn code_of(self) -> u16 {
        match self {
            Status::Acknowledged => 200,
            Status::BadRequest => 400,
            Status::Unauthorized => 401,
            Status::UnprocessableEntity => 422,
            Status::InternalServerError => 500,
        }
    }

    /// The HTTP status code that goes out for this answer.
    pub fn code(&self) -> (code: u16)
        ensures
            code == self.code_of(),
    {
        match self {
            Status::Acknowledged => 200,
            Status::BadRequest => 400,
            Status::Unauthorized => 401,
            Status::UnprocessableEntity => 422,
            Status::InternalServerError => 500,
        }
    }
}

/// One inbound request, as it came off the wire.
#[derive(Debug, Clone, PartialEq, Eq)]
pub struct Delivery {
    /// The body, byte for byte as received. The signature is over these bytes.
    pub body: Vec<u8>,
    /// The value of the signature header, if the request had one.
    pub signature: Option<String>,
    /// Every value of the event header, in the order received.
    pub event_types: Vec<String>,
}

/// The kinds of event the endpoint handles.
#[derive(Debug, Clone, Copy, PartialEq, Eq, Structural)]
pub enum GitHubEvent {
    IssueComment,
}

/// The header value that announces a comment on an issue.
pub open spec fn issue_comment_event() -> Seq<char> {
    seq!['i', 's', 's', 'u', 'e', '_', 'c', 'o', 'm', 'm', 'e', 'n', 't']
}

/// The kind that the event header announces: the header occurs exactly once
/// and names a kind that is handled.
pub open spec fn classified(event_types: Seq<Seq<char>>) -> Option<GitHubEvent> {
    if event_types.len() == 1 && event_types[0] == issue_comment_event() {
        Some(GitHubEvent::IssueComment)
    } else {
        None
    }
}

/// The values of a list of header values, as plain text.
pub open spec fn texts(values: Seq<String>) -> Seq<Seq<char>> {
    values.map_values(|value: String| value@)
}

impl GitHubEvent {
    /// Reads the kind of event off the values of the event header. A request
    /// without the header, with more than one, or with a kind that is not
    /// handled is malformed.
    pub fn from_request(event_types: &Vec<String>) -> (kind: Result<GitHubEvent, Status>)
        ensures
            kind == match classified(texts(event_types@)) {
                Some(event) => Ok::<GitHubEvent, Status>(event),
                None => Err(Status::BadRequest),
            },
    {
        if event_types.len() != 1 {
            return Err(Status::BadRequest);
        }
        proof {
            reveal_strlit("issue_comment");
            assert("issue_comment"@ =~= issue_comment_event());
        }
        if text_equal(event_types[0].as_str(), "issue_comment") {
            Ok(GitHubEvent::IssueComment)
        } else {
            Err(Status::BadRequest)
        }
    }
}

/// A payload out of a delivery that passed the guard.
#[derive(Debug, Clone, PartialEq, Eq)]
pub struct GithubWebhookVerification<T> {
    pub payload: T,
}

/// The shared secret as the key of the MAC: its UTF-8 encoding.
pub open spec fn key_of(secret: Seq<char>) -> Seq<u8> {
    vstd::utf8::encode_utf8(secret)
}

/// Whether the delivery is authentic: it carries a signature, and the
/// signature is the one that belongs to its body under the secret.
pub open spec fn authentic(delivery: Delivery, secret: Seq<char>) -> bool {
    delivery.signature matches Some(signature) && signature_valid(
        key_of(secret),
        delivery.body@,
        signature@,
    )
}

/// Why the guard turns a delivery away before it looks at the body, if it
/// does. The checks come in a fixed order, and the first that fails decides:
/// a missing signature, a missing secret, a signature that does not belong to
/// the body, an event header that does not classify.
pub open spec fn refusal(delivery: Delivery, secret: Option<Seq<char>>) -> Option<Status> {
    if delivery.signature is None {
        Some(Status::Unauthorized)
    } else if secret is None {
        Some(Status::InternalServerError)
    } else if !authentic(delivery, secret->0) {
        Some(Status::Unauthorized)
    } else if classified(texts(delivery.event_types@)) is None {
        Some(Status::BadRequest)
    } else {
        None
    }
}

/// The text of a secret that may be missing.
pub open spec fn secret_text(secret: Option<&str>) -> Option<Seq<char>> {
    match secret {
        Some(text) => Some(text@),
        None => None,
    }
}

/// Why a body gave no payload.
#[derive(Debug, Clone, Copy, PartialEq, Eq, Structural)]
pub enum DecodeFailure {
    /// The body does not parse: it is not the notation the payload travels in.
    Malformed,
    /// The body parses, but what it holds is not the payload: something that
    /// must be there is missing, or is of another type.
    WrongShape,
}

/// The answer to a delivery that gave no payload: a body that does not parse
/// is a bad request, one of the wrong shape cannot be processed.
pub open spec fn failure_status(failure: DecodeFailure) -> Status {
    match failure {
        DecodeFailure::Malformed => Status::BadRequest,
        DecodeFailure::WrongShape => Status::UnprocessableEntity,
    }
}

impl<T> GithubWebhookVerification<T> {
    /// What the guard makes of the decoder's answer for a delivery that it
    /// did not turn away: the payload, or the status that tells why there is
    /// none.
    pub fn decoded(parsed: Result<T, DecodeFailure>) -> (outcome: Result<Self, Status>)
        ensures
            outcome == match parsed {
                Ok(payload) => Ok::<Self, Status>(GithubWebhookVerification { payload }),
                Err(failure) => Err(failure_status(failure)),
            },
    {
        match parsed {
            Ok(payload) => Ok(GithubWebhookVerification { payload }),
            Err(DecodeFailure::Malformed) => Err(Status::BadRequest),
            Err(DecodeFailure::WrongShape) => Err(Status::UnprocessableEntity),
        }
    }

    /// Guards one delivery. The body is handed to `decode` only after the
    /// signature has been found to belong to it and the event has been
    /// classified; what `decode` answers is then passed through `decoded`.
    pub fn from_data<F: FnOnce(&Vec<u8>) -> Result<T, DecodeFailure>>(
        delivery: &Delivery,
        secret: Option<&str>,
        decode: F,
    ) -> (outcome: Result<Self, Status>)
        requires
            decode.requires((&delivery.body,)),
        ensures
            match refusal(*delivery, secret_text(secret)) {
                Some(status) => outcome == Err::<Self, Status>(status),
                None => match outcome {
                    Ok(verified) => decode.ensures(
                        (&delivery.body,),
                        Ok::<T, DecodeFailure>(verified.payload),
                    ),
                    Err(status) => exists|failure: DecodeFailure|
                        status == failure_status(failure) && #[trigger] decode.ensures(
                            (&delivery.body,),
                            Err::<T, DecodeFailure>(failure),
                        ),
                },
            },
    {
        let signature = match &delivery.signature {
            Some(signature) => signature,
            None => return Err(Status::Unauthorized),
        };
        let secret = match secret {
            Some(secret) => secret,
            None => return Err(Status::InternalServerError),
        };
        if !verify(secret.as_bytes(), delivery.body.as_slice(), signature.as_str()) {
            return Err(Status::Unauthorized);
        }
        match GitHubEvent::from_request(&delivery.event_types) {
            Ok(GitHubEvent::IssueComment) => {},
            Err(status) => return Err(status),
        }
        Self::decoded(decode(&delivery.body))
    }
}

/// A delivery without the event header, or with more than one, does not pass
/// the guard whatever else it holds, and is a bad request as soon as its
/// signature belongs to its body.
pub proof fn lemma_event_header_once(delivery: Delivery, secret: Option<Seq<char>>)
    requires
        delivery.event_types@.len() != 1,
    ensures
        refusal(delivery, secret) is Some,
        secret is Some && authentic(delivery, secret->0) ==> refusal(delivery, secret) == Some(
            Status::BadRequest,
        ) && Status::BadRequest.code_of() == 400,
{
}

/// The guard refuses a delivery that is not authentic before it looks at
/// anything else in it.
pub proof fn lemma_signature_first(delivery: Delivery, secret: Seq<char>)
    requires
        !authentic(delivery, secret),
    ensures
        refusal(delivery, Some(secret)) == Some(Status::Unauthorized),
{
}

/// A delivery that carries the signature made for its body under the secret
/// is never turned away as unauthorized: it passes the guard if its event
/// header classifies, and is a bad request if not.
pub proof fn lemma_own_signature_passes(delivery: Delivery, secret: Seq<char>)
    requires
        delivery.signature matches Some(signature) && signature@ == signature_of(
            key_of(secret),
            delivery.body@,
        ),
    ensures
        authentic(delivery, secret),
        refusal(delivery, Some(secret)) != Some(Status::Unauthorized),
        classified(texts(delivery.event_types@)) is Some ==> refusal(delivery, Some(secret))
            is None,
        classified(texts(delivery.event_types@)) is None ==> refusal(delivery, Some(secret))
            == Some(Status::BadRequest),
{
    lemma_own_signature_verifies(key_of(secret), delivery.body@);
}

/// A delivery whose body was changed after it was signed is unauthorized,
/// whatever the changed body would decode to, unless the two bodies have the
/// same tag under the secret.
pub proof fn lemma_altered_body_unauthorized(delivery: Delivery, secret: Seq<char>, signed: Seq<u8>)
    requires
        delivery.signature matches Some(signature) && signature@ == signature_of(
            key_of(secret),
            signed,
        ),
        hmac_sha256_tag(key_of(secret), delivery.body@) != hmac_sha256_tag(key_of(secret), signed),
    ensures
        !authentic(delivery, secret),
        refusal(delivery, Some(secret)) == Some(Status::Unauthorized),
{
    lemma_altered_body_rejected(key_of(secret), signed, delivery.body@);
}

} // verus!
