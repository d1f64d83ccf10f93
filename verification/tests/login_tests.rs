use skype_rs::login::{after_authentication, login_ok, plan_login_request, register_reply, LoginNext, LoginPlan};
use skype_rs::protocol::{Request, Response};

#[test]
fn login_server_routes_requests() {
    match plan_login_request(Request::Register { username: "alice".into(), password: "secret".into() }) {
        LoginPlan::Register { username, password } => {
            assert_eq!(username, "alice");
            assert_eq!(password, "secret");
        }
        _ => panic!("expected a registration"),
    }
    match plan_login_request(Request::Login { username: "bob".into(), password: "pw".into() }) {
        LoginPlan::Login { username, password } => {
            assert_eq!(username, "bob");
            assert_eq!(password, "pw");
        }
        _ => panic!("expected a login"),
    }
    match plan_login_request(Request::Heartbeat { username: "a".into(), token: "t".into() }) {
        LoginPlan::Reply(Response::Error { message }) => assert_eq!(message, "unsupported request on login server"),
        _ => panic!("expected a refusal"),
    }
}

#[test]
fn register_replies() {
    assert!(matches!(register_reply(Ok(())), Response::RegisterOk));
    match register_reply(Err("database error: UNIQUE constraint failed".into())) {
        Response::Error { message } => assert_eq!(message, "register failed: database error: UNIQUE constraint failed"),
        _ => panic!("expected an error"),
    }
}

#[test]
fn login_outcomes() {
    assert!(matches!(after_authentication(true), LoginNext::CreateSession));
    match after_authentication(false) {
        LoginNext::Reply(Response::Error { message }) => assert_eq!(message, "invalid credentials"),
        _ => panic!("expected a refusal"),
    }
    let token: u128 = 0x1234;
    match login_ok(token, "10.0.0.5:7100".into()) {
        Response::LoginOk { token: t, assigned_supernode } => {
            assert_eq!(t, token);
            assert_eq!(assigned_supernode, "10.0.0.5:7100");
        }
        _ => panic!("expected login ok"),
    }
}
