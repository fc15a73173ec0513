use assinador::client::PollAuthResponse;
use assinador::{Approval, SigningError};

#[test]
fn poll_maps_304_to_pending() {
    assert!(matches!(Approval::from_reply(304, None).unwrap(), Approval::Pending));
}

#[test]
fn poll_approval_carries_the_authorization_token() {
    let body = PollAuthResponse { authorization_token: Some("tok".into()), redirect_url: None };
    match Approval::from_reply(200, Some(body)).unwrap() {
        Approval::Approved { authorization_token } => assert_eq!(authorization_token, "tok"),
        Approval::Pending => panic!("expected approval"),
    }
}

#[test]
fn poll_without_token_is_pending() {
    let body = PollAuthResponse { authorization_token: None, redirect_url: None };
    assert!(matches!(Approval::from_reply(200, Some(body)).unwrap(), Approval::Pending));
    let body = PollAuthResponse { authorization_token: Some("tok".into()), redirect_url: None };
    assert!(matches!(Approval::from_poll(body, 304), Approval::Pending));
}

#[test]
fn poll_failure_is_an_error() {
    assert_eq!(
        Approval::from_reply(404, None).unwrap_err(),
        SigningError::BadRequest("Authentication polling failed: 404".into())
    );
}
