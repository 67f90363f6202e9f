use vstd::prelude::*;

use crate::schema::ServerError;

verus! {

broadcast use vstd::string::to_string_from_display_ensures_for_str;

/// The token granted on a successful password login.
pub open spec fn session_token() -> Seq<char> {
    "secret_token"@
}

/// Grants a session when the password matches the user name.
pub fn login_with_credentials(username: &String, password: &String) -> (r: Result<String, ServerError>)
    ensures
        username@ == password@ ==> r is Ok && r->Ok_0@ == session_token(),
        username@ != password@ ==> r == Err::<String, ServerError>(ServerError::WrongUsernamePassword),
{
    let same: bool = username.eq(password);
    if !same {
        return Err(ServerError::WrongUsernamePassword);
    }
    let token = "secret_token".to_string();
    proof {
        reveal_strlit("secret_token");
    }
    Ok(token)
}

/// Renews a token; today every token is renewed as it stands.
pub fn renew_token(token: &String) -> (r: Result<String, ServerError>)
    ensures
        r is Ok && r->Ok_0@ == token@,
{
    Ok(token.clone())
}

} // verus!
