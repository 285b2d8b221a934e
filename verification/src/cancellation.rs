//! Requests in flight and the tokens that stop them.
use tokio_util::sync::CancellationToken;
use vstd::prelude::*;

verus! {

/// `CancellationToken`, carried as it is: a handle on a token that is shared with its clones.
#[verifier::external_type_specification]
#[verifier::external_body]
pub struct ExCancellationToken(tokio_util::sync::CancellationToken);

/// A request in flight. Its token is shared with the task that serves it.
#[derive(Debug)]
pub struct ActiveRequest {
    pub cancel_token: CancellationToken,
}

/// A request whose token was cancelled. [`cancel_request`] alone makes one, so whoever has one
/// knows that the token was cancelled.
#[derive(Debug)]
pub struct CancelledRequest {
    request: ActiveRequest,
}

impl CancelledRequest {
    /// The request that was cancelled.
    pub closed spec fn request(self) -> ActiveRequest {
        self.request
    }

    /// The token that was cancelled.
    pub fn token(&self) -> (token: &CancellationToken)
        ensures
            *token == self.request().cancel_token,
    {
        &self.request.cancel_token
    }
}

/// A token that was made for one request. [`new_token`] alone makes one and it cannot be copied,
/// so whoever has one knows that its token was not anybody's before and had not been cancelled.
#[derive(Debug)]
pub struct FreshToken {
    token: CancellationToken,
}

impl FreshToken {
    /// The token that was made.
    pub closed spec fn made(self) -> CancellationToken {
        self.token
    }

    /// The token that was made.
    pub fn token(&self) -> (token: &CancellationToken)
        ensures
            *token == self.made(),
    {
        &self.token
    }
}

/// `CancellationToken::new`: a token of its own that nobody has cancelled. Whether a token is
/// cancelled is state that it shares with its clones and that changes behind shared references, so
/// no clause speaks of it; the type of the result says where the token comes from.
#[verifier::external_body]
fn new_token() -> (token: FreshToken) {
    FreshToken { token: CancellationToken::new() }
}

/// `CancellationToken::clone`: another handle on the same token.
#[verifier::external_body]
fn share_token(token: &CancellationToken) -> (shared: CancellationToken)
    ensures
        shared == *token,
{
    token.clone()
}

/// A token for a new request, and the request in flight that shares it. No other handle on the
/// token is made, and only whoever owns the request can cancel it.
pub(crate) fn start_request() -> (started: (FreshToken, ActiveRequest))
    ensures
        started.1.cancel_token == started.0.made(),
{
    let fresh = new_token();
    let active = ActiveRequest { cancel_token: share_token(&fresh.token) };
    (fresh, active)
}

/// `CancellationToken::cancel` on the token of a request: wakes whoever waits on the token or on
/// another handle on it. What is claimed is which request the evidence is about.
#[verifier::external_body]
pub(crate) fn cancel_request(request: ActiveRequest) -> (cancelled: CancelledRequest)
    ensures
        cancelled.request() == request,
{
    request.cancel_token.cancel();
    CancelledRequest { request }
}

} // verus!
