use wx_counter::api::jwt::{issue, AuthError, Keys, Uid};
use wx_counter::api::user::{
    login, welcome, wx_login, wx_user, AuthBody, Login, LoginEvent, LoginPayload, LoginStage,
    LoginStep, WxConfig, WxUser,
};
use wx_counter::api::ApiError;
use wx_counter::db::statement::{Reply, Statement};
use wx_counter::db::store::Store;
use wx_counter::db::User;

fn config() -> WxConfig {
    WxConfig { app_id: "wx123".to_string(), app_secret: "s3".to_string() }
}

fn code(text: &str) -> LoginPayload {
    LoginPayload { code: text.to_string() }
}

fn wx(openid: &str) -> WxUser {
    WxUser { openid: openid.to_string(), session_key: "key".to_string() }
}

const NOW: u64 = 4_000_000_000;

#[test]
fn auth_body_is_a_bearer_token() {
    let body = AuthBody::new("abc".to_string());
    assert_eq!(body.access_token(), "abc");
    assert_eq!(body.token_type(), "Bearer");
}

#[test]
fn the_code_goes_to_the_providers_address() {
    assert_eq!(
        wx_login("c0de", &config()),
        Ok("https://api.weixin.qq.com/sns/jscode2session?appid=wx123&secret=s3&js_code=c0de&grant_type=authorization_code".to_string())
    );
}

#[test]
fn an_empty_code_is_missing_credentials() {
    assert_eq!(wx_login("", &config()), Err(AuthError::MissingCredentials));
    let mut store = Store::new();
    let end = login(&mut store, &Keys::new(b"k"), &config(), code(""), Some(wx("o")), NOW);
    assert_eq!(end, Err(ApiError::Auth(AuthError::MissingCredentials)));
    assert!(store.tables().users.is_empty());
    assert!(matches!(Login::open(&config(), &code("")), LoginStep::Finish(Err(_))));
}

#[test]
fn a_provider_that_names_nobody_is_wrong_credentials() {
    assert_eq!(wx_user(None), Err(AuthError::WrongCredentials));
    assert_eq!(wx_user(Some(wx(""))), Err(AuthError::WrongCredentials));
    assert_eq!(wx_user(Some(wx("o"))), Ok(wx("o")));
    let keys = Keys::new(b"k");
    let mut store = Store::new();
    for exchanged in [None, Some(wx(""))] {
        let end = login(&mut store, &keys, &config(), code("c"), exchanged, NOW);
        assert_eq!(end, Err(ApiError::Auth(AuthError::WrongCredentials)));
    }
    assert!(store.tables().users.is_empty());
}

#[test]
fn a_first_login_makes_the_user() {
    let keys = Keys::new(b"k");
    let mut store = Store::new();
    store.set_clock(50);
    let body = login(&mut store, &keys, &config(), code("c"), Some(wx("o-1")), NOW).unwrap();
    assert_eq!(
        store.tables().users,
        vec![User {
            id: 1,
            openid: "o-1".to_string(),
            session_key: "key".to_string(),
            created_at: 50,
            updated_at: 50,
        }]
    );
    assert_eq!(body.token_type(), "Bearer");
    assert_eq!(body.access_token(), issue(1, NOW, &keys).unwrap());
    assert_eq!(Uid::from_bearer(body.access_token(), &keys), Ok(Uid(1)));
}

#[test]
fn a_second_login_finds_the_user() {
    let keys = Keys::new(b"k");
    let mut store = Store::new();
    login(&mut store, &keys, &config(), code("c1"), Some(wx("o-1")), NOW).unwrap();
    login(&mut store, &keys, &config(), code("c2"), Some(wx("o-2")), NOW).unwrap();
    let before = store.tables().clone();
    let body = login(&mut store, &keys, &config(), code("c3"), Some(wx("o-1")), NOW + 9).unwrap();
    assert_eq!(*store.tables(), before);
    assert_eq!(store.tables().users.len(), 2);
    assert_eq!(Uid::from_bearer(body.access_token(), &keys), Ok(Uid(1)));
    assert_eq!(body.access_token(), issue(1, NOW + 9, &keys).unwrap());
    let body = login(&mut store, &keys, &config(), code("c4"), Some(wx("o-2")), NOW).unwrap();
    assert_eq!(Uid::from_bearer(body.access_token(), &keys), Ok(Uid(2)));
}

#[test]
fn a_login_step_by_step() {
    let keys = Keys::new(b"k");
    let step = Login::open(&config(), &code("c"));
    let login = match step {
        LoginStep::Exchange(login, address) => {
            assert_eq!(Ok(address), wx_login("c", &config()));
            login
        }
        other => panic!("an exchange was expected, not {:?}", other),
    };
    assert_eq!(login.stage, LoginStage::Exchanging);
    let step = login.resume(LoginEvent::Exchanged(Some(wx("o"))), NOW, &keys);
    let find = Statement::UserByOpenid { openid: "o".to_string() };
    let login = match step {
        LoginStep::Ask(login, statement) => {
            assert_eq!(statement, find);
            login
        }
        other => panic!("a lookup was expected, not {:?}", other),
    };
    let step = login.resume(LoginEvent::Replied(Reply::NoRow), NOW, &keys);
    let login = match step {
        LoginStep::Ask(login, statement) => {
            assert_eq!(
                statement,
                Statement::InsertUser { openid: "o".to_string(), session_key: "key".to_string() }
            );
            login
        }
        other => panic!("an insert was expected, not {:?}", other),
    };
    let step = login.resume(LoginEvent::Replied(Reply::Done), NOW, &keys);
    let login = match step {
        LoginStep::Ask(login, statement) => {
            assert_eq!(statement, find);
            login
        }
        other => panic!("a lookup was expected, not {:?}", other),
    };
    let user = User {
        id: 77,
        openid: "o".to_string(),
        session_key: "key".to_string(),
        created_at: 0,
        updated_at: 0,
    };
    let step = login.resume(LoginEvent::Replied(Reply::User(user)), NOW, &keys);
    assert_eq!(
        step,
        LoginStep::Finish(Ok(AuthBody::new(issue(77, NOW, &keys).unwrap())))
    );
}

#[test]
fn a_store_failure_during_login_is_internal() {
    let keys = Keys::new(b"k");
    let login = match Login::open(&config(), &code("c")) {
        LoginStep::Exchange(login, _) => login,
        other => panic!("an exchange was expected, not {:?}", other),
    };
    let login = match login.resume(LoginEvent::Exchanged(Some(wx("o"))), NOW, &keys) {
        LoginStep::Ask(login, _) => login,
        other => panic!("a lookup was expected, not {:?}", other),
    };
    let step = login.resume(LoginEvent::Replied(Reply::Failed("locked".to_string())), NOW, &keys);
    assert_eq!(step, LoginStep::Finish(Err(ApiError::Internal("locked".to_string()))));
}

#[test]
fn an_answer_out_of_turn_is_internal() {
    let keys = Keys::new(b"k");
    let login = match Login::open(&config(), &code("c")) {
        LoginStep::Exchange(login, _) => login,
        other => panic!("an exchange was expected, not {:?}", other),
    };
    let step = login.resume(LoginEvent::Replied(Reply::Done), NOW, &keys);
    assert_eq!(
        step,
        LoginStep::Finish(Err(ApiError::Internal(
            "the store gave a reply that does not answer the statement".to_string()
        )))
    );
}

#[test]
fn welcome_is_in_the_users_name() {
    let keys = Keys::new(b"k");
    let user = User {
        id: 12,
        openid: "o".to_string(),
        session_key: "key".to_string(),
        created_at: 0,
        updated_at: 0,
    };
    let body = welcome(&user, NOW, &keys).unwrap();
    assert_eq!(Uid::from_bearer(body.access_token(), &keys), Ok(Uid(12)));
}
