use link_moderator::guards::github::{
    DecodeFailure, Delivery, GitHubEvent, GithubWebhookVerification, Status,
};
use link_moderator::guards::signature::sign;
use std::cell::Cell;

const SECRET: &str = "It's a Secret to Everybody";

fn signed(body: &[u8], event_types: &[&str]) -> Delivery {
    Delivery {
        body: body.to_vec(),
        signature: sign(SECRET.as_bytes(), body),
        event_types: event_types.iter().map(|value| value.to_string()).collect(),
    }
}

/// A decoder for the tests: the body is text, and a payload is text that is
/// not empty.
fn text_of(body: &Vec<u8>) -> Result<String, DecodeFailure> {
    match String::from_utf8(body.clone()) {
        Err(_) => Err(DecodeFailure::Malformed),
        Ok(text) if text.is_empty() => Err(DecodeFailure::WrongShape),
        Ok(text) => Ok(text),
    }
}

#[test]
fn status_codes_are_those_of_http() {
    assert_eq!(Status::Acknowledged.code(), 200);
    assert_eq!(Status::BadRequest.code(), 400);
    assert_eq!(Status::Unauthorized.code(), 401);
    assert_eq!(Status::UnprocessableEntity.code(), 422);
    assert_eq!(Status::InternalServerError.code(), 500);
}

#[test]
fn one_issue_comment_header_classifies() {
    let values = vec!["issue_comment".to_string()];
    assert_eq!(GitHubEvent::from_request(&values), Ok(GitHubEvent::IssueComment));
}

#[test]
fn a_missing_event_header_is_a_bad_request() {
    let values: Vec<String> = Vec::new();
    assert_eq!(GitHubEvent::from_request(&values), Err(Status::BadRequest));
}

#[test]
fn a_repeated_event_header_is_a_bad_request() {
    let values = vec!["issue_comment".to_string(), "issue_comment".to_string()];
    assert_eq!(GitHubEvent::from_request(&values), Err(Status::BadRequest));
    let values = vec!["issue_comment".to_string(), "push".to_string()];
    assert_eq!(GitHubEvent::from_request(&values), Err(Status::BadRequest));
}

#[test]
fn an_event_of_another_kind_is_a_bad_request() {
    for other in ["push", "issues", "", "issue_comment ", "Issue_Comment", "issue_commen"] {
        let values = vec![other.to_string()];
        assert_eq!(GitHubEvent::from_request(&values), Err(Status::BadRequest), "{:?}", other);
    }
}

#[test]
fn an_authentic_delivery_passes_with_its_payload() {
    let delivery = signed(b"Hello, World!", &["issue_comment"]);
    let outcome = GithubWebhookVerification::from_data(&delivery, Some(SECRET), text_of);
    assert_eq!(
        outcome,
        Ok(GithubWebhookVerification { payload: "Hello, World!".to_string() })
    );
}

#[test]
fn the_decoder_is_handed_the_body_as_received() {
    let body = b"{ \"action\" :\t\"created\" }\r\n";
    let delivery = signed(body, &["issue_comment"]);
    let outcome =
        GithubWebhookVerification::from_data(&delivery, Some(SECRET), |raw: &Vec<u8>| {
            Ok(raw.clone())
        });
    assert_eq!(outcome, Ok(GithubWebhookVerification { payload: body.to_vec() }));
}

#[test]
fn a_delivery_without_signature_is_unauthorized() {
    let mut delivery = signed(b"Hello, World!", &["issue_comment"]);
    delivery.signature = None;
    let outcome = GithubWebhookVerification::from_data(&delivery, Some(SECRET), text_of);
    assert_eq!(outcome, Err(Status::Unauthorized));
}

#[test]
fn a_missing_secret_is_an_internal_error() {
    let delivery = signed(b"Hello, World!", &["issue_comment"]);
    let outcome = GithubWebhookVerification::from_data(&delivery, None, text_of);
    assert_eq!(outcome, Err(Status::InternalServerError));
}

#[test]
fn a_missing_signature_is_found_before_a_missing_secret() {
    let mut delivery = signed(b"Hello, World!", &["issue_comment"]);
    delivery.signature = None;
    let outcome = GithubWebhookVerification::from_data(&delivery, None, text_of);
    assert_eq!(outcome, Err(Status::Unauthorized));
}

#[test]
fn a_signature_for_another_body_is_unauthorized() {
    let mut delivery = signed(b"Hello, World!", &["issue_comment"]);
    delivery.body = b"Hello, World?".to_vec();
    let outcome = GithubWebhookVerification::from_data(&delivery, Some(SECRET), text_of);
    assert_eq!(outcome, Err(Status::Unauthorized));
}

#[test]
fn a_signature_under_another_secret_is_unauthorized() {
    let delivery = signed(b"Hello, World!", &["issue_comment"]);
    let outcome = GithubWebhookVerification::from_data(&delivery, Some("another"), text_of);
    assert_eq!(outcome, Err(Status::Unauthorized));
}

#[test]
fn an_authentic_delivery_without_event_header_is_a_bad_request() {
    let delivery = signed(b"Hello, World!", &[]);
    let outcome = GithubWebhookVerification::from_data(&delivery, Some(SECRET), text_of);
    assert_eq!(outcome, Err(Status::BadRequest));
    assert_eq!(Status::BadRequest.code(), 400);
}

#[test]
fn an_authentic_delivery_with_two_event_headers_is_a_bad_request() {
    let delivery = signed(b"Hello, World!", &["issue_comment", "issue_comment"]);
    let outcome = GithubWebhookVerification::from_data(&delivery, Some(SECRET), text_of);
    assert_eq!(outcome, Err(Status::BadRequest));
}

#[test]
fn the_signature_is_checked_before_the_event_header() {
    let mut delivery = signed(b"Hello, World!", &[]);
    delivery.signature = Some("sha256=00".to_string());
    let outcome = GithubWebhookVerification::from_data(&delivery, Some(SECRET), text_of);
    assert_eq!(outcome, Err(Status::Unauthorized));
}

#[test]
fn a_body_that_does_not_parse_is_a_bad_request() {
    let delivery = signed(&[0xff, 0xfe], &["issue_comment"]);
    let outcome = GithubWebhookVerification::from_data(&delivery, Some(SECRET), text_of);
    assert_eq!(outcome, Err(Status::BadRequest));
}

#[test]
fn a_body_of_the_wrong_shape_cannot_be_processed() {
    let delivery = signed(b"", &["issue_comment"]);
    let outcome = GithubWebhookVerification::from_data(&delivery, Some(SECRET), text_of);
    assert_eq!(outcome, Err(Status::UnprocessableEntity));
}

#[test]
fn a_signed_body_that_is_no_json_is_a_bad_request() {
    let delivery = Delivery {
        body: b"The quick brown fox jumps over the lazy dog".to_vec(),
        signature: Some(
            "sha256=f7bc83f430538424b13298e6aa6fb143ef4d59a14946175997479dbc2d1a3cd8"
                .to_string(),
        ),
        event_types: vec!["issue_comment".to_string()],
    };
    let outcome = GithubWebhookVerification::from_data(
        &delivery,
        Some("key"),
        |raw: &Vec<u8>| match serde_json::from_slice::<serde_json::Value>(raw) {
            Ok(value) => Ok(value),
            Err(error) if error.is_data() => Err(DecodeFailure::WrongShape),
            Err(_) => Err(DecodeFailure::Malformed),
        },
    );
    assert_eq!(outcome, Err(Status::BadRequest));
}

#[test]
fn the_event_header_is_checked_before_the_body_is_decoded() {
    let delivery = signed(b"", &["push"]);
    let outcome = GithubWebhookVerification::from_data(&delivery, Some(SECRET), text_of);
    assert_eq!(outcome, Err(Status::BadRequest));
}

#[test]
fn a_refused_delivery_never_reaches_the_decoder() {
    let unsigned = Delivery {
        body: b"Hello, World!".to_vec(),
        signature: None,
        event_types: vec!["issue_comment".to_string()],
    };
    let mut forged = signed(b"Hello, World!", &["issue_comment"]);
    forged.body = b"Goodbye, World!".to_vec();
    let unclassified = signed(b"Hello, World!", &[]);
    for (delivery, secret) in [
        (&unsigned, Some(SECRET)),
        (&forged, Some(SECRET)),
        (&unclassified, Some(SECRET)),
        (&forged, None),
    ] {
        let asked = Cell::new(false);
        let outcome = GithubWebhookVerification::from_data(delivery, secret, |raw: &Vec<u8>| {
            asked.set(true);
            Ok(raw.len())
        });
        assert!(outcome.is_err());
        assert!(!asked.get());
    }
}

#[test]
fn decoded_maps_the_answer_of_the_decoder() {
    assert_eq!(
        GithubWebhookVerification::decoded(Ok(7u8)),
        Ok(GithubWebhookVerification { payload: 7u8 })
    );
    assert_eq!(
        GithubWebhookVerification::<u8>::decoded(Err(DecodeFailure::Malformed)),
        Err(Status::BadRequest)
    );
    assert_eq!(
        GithubWebhookVerification::<u8>::decoded(Err(DecodeFailure::WrongShape)),
        Err(Status::UnprocessableEntity)
    );
}

#[test]
fn the_secret_keys_the_signature_by_its_utf8_bytes() {
    let body = b"{}".to_vec();
    let delivery = Delivery {
        body,
        signature: Some(
            "sha256=6bdc600d7060e2255d31249ba5148f3467e62926a37d87eeb622e2332f1ca7e7"
                .to_string(),
        ),
        event_types: vec!["issue_comment".to_string()],
    };
    let outcome = GithubWebhookVerification::from_data(&delivery, Some("s\u{e9}cret"), text_of);
    assert_eq!(outcome, Ok(GithubWebhookVerification { payload: "{}".to_string() }));
}
