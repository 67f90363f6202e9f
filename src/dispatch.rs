use vstd::prelude::*;

use crate::auth::{login_with_credentials, renew_token, session_token};
use crate::schema::{server_error_text, LoginRequest, Request, RequestModel, Response, ServerError};

verus! {

/// What a request is answered with: the token of a `Login` response, or an error.
pub open spec fn dispatch_spec(req: RequestModel) -> Result<Seq<char>, ServerError> {
    match req {
        RequestModel::Credentials(username, password) => if username == password {
            Ok(session_token())
        } else {
            Err(ServerError::WrongUsernamePassword)
        },
        RequestModel::Token(token) => Ok(token),
        RequestModel::Logout => Err(ServerError::UnimplementedRequest),
    }
}

/// Answers one decoded request.
pub fn dispatch(req: &Request) -> (r: Result<Response, ServerError>)
    ensures
        match (r, dispatch_spec(req@)) {
            (Ok(Response::Login { token }), Ok(t)) => token@ == t,
            (Err(e), Err(f)) => e == f,
            _ => false,
        },
{
    match req {
        Request::Login(LoginRequest::Credentials { username, password }) => {
            match login_with_credentials(username, password) {
                Ok(token) => Ok(Response::Login { token }),
                Err(e) => Err(e),
            }
        },
        Request::Login(LoginRequest::Token { token }) => {
            match renew_token(token) {
                Ok(token) => Ok(Response::Login { token }),
                Err(e) => Err(e),
            }
        },
        Request::Logout => Err(ServerError::UnimplementedRequest),
    }
}

/// A login whose password equals the user name is granted a non-empty token, never an error.
pub proof fn lemma_matching_credentials_granted(username: Seq<char>, password: Seq<char>)
    requires
        username == password,
    ensures
        dispatch_spec(RequestModel::Credentials(username, password)) == Ok::<Seq<char>, ServerError>(
            session_token(),
        ),
        session_token().len() > 0,
{
    reveal_strlit("secret_token");
}

/// A login whose password differs from the user name is answered with the error
/// "wrong username or password".
pub proof fn lemma_mismatched_credentials_rejected(username: Seq<char>, password: Seq<char>)
    requires
        username != password,
    ensures
        dispatch_spec(RequestModel::Credentials(username, password)) == Err::<Seq<char>, ServerError>(
            ServerError::WrongUsernamePassword,
        ),
        server_error_text(ServerError::WrongUsernamePassword) == "wrong username or password"@,
{
}

/// Swapping the user name and the password does not change the outcome of a login.
pub proof fn lemma_credentials_symmetric(username: Seq<char>, password: Seq<char>)
    ensures
        dispatch_spec(RequestModel::Credentials(username, password)) == dispatch_spec(
            RequestModel::Credentials(password, username),
        ),
{
}

/// Renewing a token answers with that same token.
pub proof fn lemma_token_renewed_unchanged(token: Seq<char>)
    ensures
        dispatch_spec(RequestModel::Token(token)) == Ok::<Seq<char>, ServerError>(token),
{
}

} // verus!
