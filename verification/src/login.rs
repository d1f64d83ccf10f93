//! Decisions of the login service: which requests it serves and what it
//! answers once the database has spoken.

use vstd::prelude::*;
use vstd::string::*;

use crate::protocol::{error_reply, Request, Response, ResponseView};

verus! {

/// What the login service does with a request.
pub enum LoginPlan {
    /// Register the user with this password.
    Register { username: String, password: String },
    /// Check the password, then open a session.
    Login { username: String, password: String },
    /// Answer at once.
    Reply(Response),
}

/// The reply to a request the login service does not serve.
pub open spec fn spec_unsupported_login() -> ResponseView {
    ResponseView::Error { message: "unsupported request on login server"@ }
}

/// Chooses what to do with a request: registrations and logins go to the
/// database; anything else is refused.
pub fn plan_login_request(req: Request) -> (plan: LoginPlan)
    ensures
        match req {
            Request::Register { username, password } => plan matches LoginPlan::Register {
                username: u,
                password: p,
            } && u@ == username@ && p@ == password@,
            Request::Login { username, password } => plan matches LoginPlan::Login {
                username: u,
                password: p,
            } && u@ == username@ && p@ == password@,
            _ => plan matches LoginPlan::Reply(r) && r@ == spec_unsupported_login(),
        },
{
    match req {
        Request::Register { username, password } => LoginPlan::Register { username, password },
        Request::Login { username, password } => LoginPlan::Login { username, password },
        _ => LoginPlan::Reply(error_reply("unsupported request on login server")),
    }
}

/// The reply to a registration: success, or the failure described by the
/// text of the database's error.
pub fn register_reply(outcome: Result<(), String>) -> (r: Response)
    ensures
        match outcome {
            Ok(()) => r@ == ResponseView::RegisterOk,
            Err(text) => r@ == (ResponseView::Error { message: "register failed: "@ + text@ }),
        },
{
    match outcome {
        Ok(()) => Response::RegisterOk,
        Err(text) => {
            let mut message = String::from_str("register failed: ");
            message.append(text.as_str());
            Response::Error { message }
        },
    }
}

/// What follows the password check of a login.
pub enum LoginNext {
    /// Open a session for the user.
    CreateSession,
    /// Answer at once.
    Reply(Response),
}

/// After the password check: open a session if it passed, refuse otherwise.
pub fn after_authentication(authenticated: bool) -> (next: LoginNext)
    ensures
        authenticated ==> next is CreateSession,
        !authenticated ==> (next matches LoginNext::Reply(r) && r@ == (ResponseView::Error {
            message: "invalid credentials"@,
        })),
{
    if authenticated {
        LoginNext::CreateSession
    } else {
        LoginNext::Reply(error_reply("invalid credentials"))
    }
}

/// The reply to a successful login: the new session's token (the UUID's
/// 128-bit value) and the
/// supernode the peer should use.
pub fn login_ok(token: u128, assigned_supernode: String) -> (r: Response)
    ensures
        r@ == (ResponseView::LoginOk { token, assigned_supernode: assigned_supernode@ }),
{
    Response::LoginOk { token, assigned_supernode }
}

} // verus!
