//! The values of the VIDaaS authorization flow (push, poll, exchange).

use vstd::prelude::*;

use crate::client::{is_server_error, poll_outcome, PollAuthResponse};
use crate::error::SigningError;
use crate::text::decimal;

verus! {

/// A push authorization in progress: `code` to poll with, `verifier` for
/// the exchange.
#[derive(Debug, Clone)]
pub struct PushAuthorization {
    pub code: String,
    pub verifier: String,
}

/// State of the push approval. When approved it carries the
/// `authorization_token` to exchange for the access token (not the push
/// `code`).
#[derive(Debug, Clone)]
pub enum Approval {
    Pending,
    Approved { authorization_token: String },
}

/// Access token obtained in the exchange (validity in seconds).
#[derive(Debug, Clone)]
pub struct AccessToken {
    pub value: String,
    pub expires_in: u32,
}

impl Approval {
    /// The approval state of a poll reply with its status: approved, with
    /// the reply's authorization token, exactly when the status is `200`
    /// and a token is present; pending otherwise.
    pub fn from_poll(body: PollAuthResponse, status: u16) -> (a: Approval)
        ensures
            status == 200 && body.authorization_token is Some ==> a == (Approval::Approved {
                authorization_token: body.authorization_token->0,
            }),
            !(status == 200 && body.authorization_token is Some) ==> a is Pending,
    {
        match body.authorization_token {
            Some(token) => {
                if status == 200 {
                    Approval::Approved { authorization_token: token }
                } else {
                    Approval::Pending
                }
            },
            None => Approval::Pending,
        }
    }

    /// The approval state from the reply to a poll (its status and, for a
    /// `200`, its parsed body): `304` is pending; `200` is approved when the
    /// body carries an authorization token and pending when it does not;
    /// a server error is `NetworkError`; an unparsable `200` body and any
    /// other status are failed requests.
    pub fn from_reply(status: u16, body: Option<PollAuthResponse>) -> (r: Result<
        Approval,
        SigningError,
    >)
        ensures
            status == 304 ==> r matches Ok(Approval::Pending),
            status == 200 && body is Some && body->0.authorization_token is Some ==> r == Ok::<
                Approval,
                SigningError,
            >(
                Approval::Approved {
                    authorization_token: body->0.authorization_token->0,
                },
            ),
            status == 200 && body is Some && body->0.authorization_token is None ==> r matches Ok(
                Approval::Pending,
            ),
            status == 200 && body is None ==> (r matches Err(SigningError::BadRequest(m)) && m@
                == "Invalid response format"@),
            is_server_error(status) ==> r matches Err(SigningError::NetworkError),
            status != 200 && status != 304 && !is_server_error(status) ==> (r matches Err(
                SigningError::BadRequest(m),
            ) && m@ == "Authentication polling failed: "@ + decimal(status as nat)),
    {
        let (reply_body, reply_status) = poll_outcome(status, body)?;
        Ok(Approval::from_poll(reply_body, reply_status))
    }
}

} // verus!
