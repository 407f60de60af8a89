//! Logging in: a code from the login provider becomes a user and a token.
//!
//! The provider is asked over the network, and the users are kept in the
//! store, so a login is a conversation like the requests of
//! [`crate::api::exchange`]: [`Login::open`] and [`Login::resume`] say what
//! to ask next, of whom, and what each answer means.

use crate::api::decimal::decimal_of;
use crate::api::exchange::{unexpected, unexpected_message};
use crate::api::jwt::{expiry_after, issue, minted, signed_token, AuthError, Keys};
use crate::api::{ApiError, ApiErrorView};
use crate::db::statement::{Reply, ReplyView, Statement};
use crate::db::store::{
    effect, full_message, next_user_id, user_by_openid, Rows, Store, StoreState,
};
use crate::db::User;
use vstd::prelude::*;
use vstd::string::StringExecFns;

verus! {

/// What a caller sends to log in: the one-time code that the login provider
/// gave them.
#[derive(Debug, PartialEq, Eq)]
pub struct LoginPayload {
    pub code: String,
}

/// What a caller gets for logging in.
#[derive(Debug, PartialEq, Eq)]
pub struct AuthBody {
    access_token: String,
    token_type: String,
}

/// An [`AuthBody`] as contracts see it.
pub struct AuthBodyView {
    pub access_token: Seq<char>,
    pub token_type: Seq<char>,
}

impl View for AuthBody {
    type V = AuthBodyView;

    closed spec fn view(&self) -> AuthBodyView {
        AuthBodyView { access_token: self.access_token@, token_type: self.token_type@ }
    }
}

/// The body that carries `token`: a bearer token.
pub open spec fn bearer(token: Seq<char>) -> AuthBodyView {
    AuthBodyView { access_token: token, token_type: "Bearer"@ }
}

impl AuthBody {
    /// The body that carries `access_token` as a bearer token.
    pub fn new(access_token: String) -> (body: AuthBody)
        ensures
            body@ == bearer(access_token@),
    {
        AuthBody { access_token, token_type: String::from_str("Bearer") }
    }

    /// The token.
    pub fn access_token(&self) -> (token: &str)
        ensures
            token@ == self@.access_token,
    {
        self.access_token.as_str()
    }

    /// How the token is to be presented: `Bearer`.
    pub fn token_type(&self) -> (kind: &str)
        ensures
            kind@ == self@.token_type,
    {
        self.token_type.as_str()
    }
}

/// Who this service is to the login provider.
#[derive(Debug, PartialEq, Eq)]
pub struct WxConfig {
    pub app_id: String,
    pub app_secret: String,
}

/// What the login provider says of a caller whose code it accepted.
#[derive(Debug, PartialEq, Eq)]
pub struct WxUser {
    /// The subject: the provider's lasting name for the caller.
    pub openid: String,
    pub session_key: String,
}

/// The address at which the login provider exchanges `code`.
pub open spec fn endpoint_of(app_id: Seq<char>, app_secret: Seq<char>, code: Seq<char>) -> Seq<
    char,
> {
    "https://api.weixin.qq.com/sns/jscode2session?appid="@ + app_id + "&secret="@ + app_secret
        + "&js_code="@ + code + "&grant_type=authorization_code"@
}

/// Where to take a login code: the provider's address for exchanging it, or
/// `MissingCredentials` for an empty code, which is never sent anywhere.
pub open spec fn wx_request(config: WxConfig, code: Seq<char>) -> Result<Seq<char>, AuthError> {
    if code.len() == 0 {
        Err(AuthError::MissingCredentials)
    } else {
        Ok(endpoint_of(config.app_id@, config.app_secret@, code))
    }
}

/// The view of an address or the error in its place.
pub open spec fn address_view(end: Result<String, AuthError>) -> Result<Seq<char>, AuthError> {
    match end {
        Ok(address) => Ok(address@),
        Err(error) => Err(error),
    }
}

/// The first half of the exchange with the login provider: where to send
/// the code. See [`wx_request`].
pub fn wx_login(code: &str, config: &WxConfig) -> (end: Result<String, AuthError>)
    ensures
        address_view(end) == wx_request(*config, code@),
{
    if code.is_empty() {
        return Err(AuthError::MissingCredentials);
    }
    let mut address = String::from_str("https://api.weixin.qq.com/sns/jscode2session?appid=");
    address.append(config.app_id.as_str());
    address.append("&secret=");
    address.append(config.app_secret.as_str());
    address.append("&js_code=");
    address.append(code);
    address.append("&grant_type=authorization_code");
    Ok(address)
}

/// Whom the provider vouched for: the user it named, or `WrongCredentials`
/// where the exchange failed or named nobody.
pub open spec fn vouched(exchanged: Option<WxUser>) -> Result<WxUser, AuthError> {
    match exchanged {
        Some(user) => if user.openid@.len() == 0 {
            Err(AuthError::WrongCredentials)
        } else {
            Ok(user)
        },
        None => Err(AuthError::WrongCredentials),
    }
}

/// The second half of the exchange with the login provider: what its
/// answer means. `None` stands for an exchange that failed or whose answer
/// could not be read. See [`vouched`].
pub fn wx_user(exchanged: Option<WxUser>) -> (end: Result<WxUser, AuthError>)
    ensures
        end == vouched(exchanged),
{
    match exchanged {
        Some(user) => if user.openid.as_str().is_empty() {
            Err(AuthError::WrongCredentials)
        } else {
            Ok(user)
        },
        None => Err(AuthError::WrongCredentials),
    }
}

/// Which answer a login is waiting for.
#[derive(Debug, PartialEq, Eq)]
pub enum LoginStage {
    /// The provider is exchanging the code.
    Exchanging,
    /// The user that the provider named is being looked up.
    Finding { wx: WxUser },
    /// The user is being inserted, not having been found.
    Creating { wx: WxUser },
    /// The user just inserted is being looked up.
    Refinding,
}

/// A login under way.
#[derive(Debug, PartialEq, Eq)]
pub struct Login {
    pub stage: LoginStage,
}

/// What answers a step of a login.
#[derive(Debug, PartialEq, Eq)]
pub enum LoginEvent {
    /// The provider's answer: the user it named, or `None` where the
    /// exchange failed or its answer could not be read.
    Exchanged(Option<WxUser>),
    /// The store's reply.
    Replied(Reply),
}

/// A [`LoginEvent`] as contracts see it.
pub enum LoginEventView {
    Exchanged(Option<WxUser>),
    Replied(ReplyView),
}

impl View for LoginEvent {
    type V = LoginEventView;

    open spec fn view(&self) -> LoginEventView {
        match *self {
            LoginEvent::Exchanged(user) => LoginEventView::Exchanged(user),
            LoginEvent::Replied(reply) => LoginEventView::Replied(reply@),
        }
    }
}

/// What a login does next.
#[derive(Debug, PartialEq, Eq)]
pub enum LoginStep {
    /// Fetch the address from the login provider, and resume with what it
    /// says.
    Exchange(Login, String),
    /// Send the statement to the store, and resume with the reply.
    Ask(Login, Statement),
    /// The login is over.
    Finish(Result<AuthBody, ApiError>),
}

/// How a login ends, as contracts see it.
pub type Session = Result<AuthBodyView, ApiErrorView>;

/// A [`LoginStep`] as contracts see it.
pub enum LoginStepView {
    Exchange(Login, Seq<char>),
    Ask(Login, Statement),
    Finish(Session),
}

/// The view of a login's end.
pub open spec fn session(end: Result<AuthBody, ApiError>) -> Session {
    match end {
        Ok(body) => Ok(body@),
        Err(error) => Err(error@),
    }
}

impl View for LoginStep {
    type V = LoginStepView;

    open spec fn view(&self) -> LoginStepView {
        match *self {
            LoginStep::Exchange(login, address) => LoginStepView::Exchange(login, address@),
            LoginStep::Ask(login, statement) => LoginStepView::Ask(login, statement),
            LoginStep::Finish(end) => LoginStepView::Finish(session(end)),
        }
    }
}

/// A login's first step: the code goes to the provider, unless it is empty.
pub open spec fn login_opening(config: WxConfig, payload: LoginPayload) -> LoginStepView {
    match wx_request(config, payload.code@) {
        Ok(address) => LoginStepView::Exchange(Login { stage: LoginStage::Exchanging }, address),
        Err(error) => LoginStepView::Finish(Err(ApiErrorView::Auth(error))),
    }
}

/// How the login of a user that the store holds ends at the second `now`:
/// with a token in the user's name, good for fifteen days, or with
/// `TokenCreation` where none could be signed.
pub open spec fn welcomed(user: User, now: u64, secret: Seq<u8>) -> Session {
    match minted(signed_token(decimal_of(user.id as int), expiry_after(now), secret)) {
        Ok(token) => Ok(bearer(token)),
        Err(error) => Err(ApiErrorView::Auth(error)),
    }
}

/// The end of a login that met an answer of the wrong kind.
pub open spec fn login_confused() -> LoginStepView {
    LoginStepView::Finish(Err(ApiErrorView::Internal(unexpected_message())))
}

/// The step of a login after an answer, at the second `now`.
pub open spec fn login_after(
    x: Login,
    event: LoginEventView,
    now: u64,
    secret: Seq<u8>,
) -> LoginStepView {
    match (x.stage, event) {
        (LoginStage::Exchanging, LoginEventView::Exchanged(exchanged)) => match vouched(exchanged) {
            Ok(wx) => LoginStepView::Ask(
                Login { stage: LoginStage::Finding { wx } },
                Statement::UserByOpenid { openid: wx.openid },
            ),
            Err(error) => LoginStepView::Finish(Err(ApiErrorView::Auth(error))),
        },
        (_, LoginEventView::Replied(ReplyView::Failed(message))) => LoginStepView::Finish(
            Err(ApiErrorView::Internal(message)),
        ),
        (LoginStage::Finding { wx }, LoginEventView::Replied(ReplyView::User(user))) => {
            LoginStepView::Finish(welcomed(user, now, secret))
        },
        (LoginStage::Finding { wx }, LoginEventView::Replied(ReplyView::NoRow)) => {
            LoginStepView::Ask(
                Login { stage: LoginStage::Creating { wx } },
                Statement::InsertUser { openid: wx.openid, session_key: wx.session_key },
            )
        },
        (LoginStage::Creating { wx }, LoginEventView::Replied(ReplyView::Done)) => {
            LoginStepView::Ask(
                Login { stage: LoginStage::Refinding },
                Statement::UserByOpenid { openid: wx.openid },
            )
        },
        (LoginStage::Refinding, LoginEventView::Replied(ReplyView::User(user))) => {
            LoginStepView::Finish(welcomed(user, now, secret))
        },
        (_, _) => login_confused(),
    }
}

/// Ends the login of a user that the store holds. See [`welcomed`].
pub fn welcome(user: &User, now: u64, keys: &Keys) -> (end: Result<AuthBody, ApiError>)
    ensures
        session(end) == welcomed(*user, now, keys@),
{
    match issue(user.id, now, keys) {
        Ok(token) => Ok(AuthBody::new(token)),
        Err(error) => Err(ApiError::Auth(error)),
    }
}

impl Login {
    /// Begins a login: its first step.
    pub fn open(config: &WxConfig, payload: &LoginPayload) -> (step: LoginStep)
        ensures
            step@ == login_opening(*config, *payload),
    {
        match wx_login(payload.code.as_str(), config) {
            Ok(address) => LoginStep::Exchange(Login { stage: LoginStage::Exchanging }, address),
            Err(error) => LoginStep::Finish(Err(ApiError::Auth(error))),
        }
    }

    /// Takes the answer to the step last given and gives the next step, as
    /// [`login_after`] defines it. `now` is the second at which a token
    /// would be issued.
    pub fn resume(self, event: LoginEvent, now: u64, keys: &Keys) -> (step: LoginStep)
        ensures
            step@ == login_after(self, event@, now, keys@),
    {
        match (self.stage, event) {
            (LoginStage::Exchanging, LoginEvent::Exchanged(exchanged)) => match wx_user(exchanged) {
                Ok(wx) => {
                    let statement = Statement::UserByOpenid { openid: wx.openid.clone() };
                    LoginStep::Ask(Login { stage: LoginStage::Finding { wx } }, statement)
                },
                Err(error) => LoginStep::Finish(Err(ApiError::Auth(error))),
            },
            (_, LoginEvent::Replied(Reply::Failed(message))) => LoginStep::Finish(
                Err(ApiError::Internal(message)),
            ),
            (LoginStage::Finding { wx }, LoginEvent::Replied(Reply::User(user))) => {
                LoginStep::Finish(welcome(&user, now, keys))
            },
            (LoginStage::Finding { wx }, LoginEvent::Replied(Reply::NoRow)) => {
                let statement = Statement::InsertUser {
                    openid: wx.openid.clone(),
                    session_key: wx.session_key.clone(),
                };
                LoginStep::Ask(Login { stage: LoginStage::Creating { wx } }, statement)
            },
            (LoginStage::Creating { wx }, LoginEvent::Replied(Reply::Done)) => {
                LoginStep::Ask(
                    Login { stage: LoginStage::Refinding },
                    Statement::UserByOpenid { openid: wx.openid },
                )
            },
            (LoginStage::Refinding, LoginEvent::Replied(Reply::User(user))) => {
                LoginStep::Finish(welcome(&user, now, keys))
            },
            (_, _) => LoginStep::Finish(Err(unexpected())),
        }
    }
}

impl Clone for WxUser {
    fn clone(&self) -> (copy: Self)
        ensures
            copy == *self,
    {
        WxUser { openid: self.openid.clone(), session_key: self.session_key.clone() }
    }
}

/// How many answers a login may still need.
pub open spec fn login_rank(step: LoginStepView) -> nat {
    match step {
        LoginStepView::Finish(_) => 0,
        LoginStepView::Exchange(x, _) | LoginStepView::Ask(x, _) => match x.stage {
            LoginStage::Exchanging => 4,
            LoginStage::Finding { .. } => 3,
            LoginStage::Creating { .. } => 2,
            LoginStage::Refinding => 1,
        },
    }
}

/// The store and the login's end when the login from `step` on is held
/// with the store `s` and a provider that answers `exchanged`.
pub open spec fn login_outcome(
    s: StoreState,
    step: LoginStepView,
    exchanged: Option<WxUser>,
    now: u64,
    secret: Seq<u8>,
) -> (StoreState, Session)
    decreases login_rank(step),
{
    match step {
        LoginStepView::Finish(end) => (s, end),
        LoginStepView::Exchange(x, _) => {
            let next = login_after(x, LoginEventView::Exchanged(exchanged), now, secret);
            if login_rank(next) < login_rank(step) {
                login_outcome(s, next, exchanged, now, secret)
            } else {
                (s, Err(ApiErrorView::Internal(unexpected_message())))
            }
        },
        LoginStepView::Ask(x, statement) => {
            let (s2, reply) = effect(s, statement);
            let next = login_after(x, LoginEventView::Replied(reply), now, secret);
            if login_rank(next) < login_rank(step) {
                login_outcome(s2, next, exchanged, now, secret)
            } else {
                (s2, Err(ApiErrorView::Internal(unexpected_message())))
            }
        },
    }
}

/// Every answer brings a login nearer to its end.
pub proof fn lemma_login_descends(x: Login, event: LoginEventView, now: u64, secret: Seq<u8>)
    ensures
        login_rank(login_after(x, event, now, secret)) < login_rank(
            LoginStepView::Ask(x, Statement::Begin),
        ),
{
}

/// The user that a first login makes of what the provider said.
pub open spec fn new_user(s: StoreState, wx: WxUser) -> User {
    User {
        id: next_user_id(s.live.users) as i32,
        openid: wx.openid,
        session_key: wx.session_key,
        created_at: s.clock,
        updated_at: s.clock,
    }
}

/// What a login makes of the store, and how it ends. An empty code is
/// `MissingCredentials` and a provider that names nobody is
/// `WrongCredentials`, and neither touches the store. A subject that the
/// store knows logs in as the user it is; one that it does not know becomes
/// a new user first.
pub open spec fn logged_in(
    s: StoreState,
    payload: LoginPayload,
    exchanged: Option<WxUser>,
    now: u64,
    secret: Seq<u8>,
) -> (StoreState, Session) {
    if payload.code@.len() == 0 {
        (s, Err(ApiErrorView::Auth(AuthError::MissingCredentials)))
    } else {
        match vouched(exchanged) {
            Err(error) => (s, Err(ApiErrorView::Auth(error))),
            Ok(wx) => match user_by_openid(s.live.users, wx.openid@) {
                Some(user) => (s, welcomed(user, now, secret)),
                None => if next_user_id(s.live.users) > i32::MAX {
                    (s, Err(ApiErrorView::Internal(full_message())))
                } else {
                    (
                        StoreState {
                            live: Rows { users: s.live.users.push(new_user(s, wx)), ..s.live },
                            ..s
                        },
                        welcomed(new_user(s, wx), now, secret),
                    )
                },
            },
        }
    }
}

/// Looking a subject up in a table that has grown by one user: whoever was
/// found before is found still, and the new user is found for a subject
/// that nobody had.
pub proof fn lemma_user_by_openid_push(rows: Seq<User>, user: User, openid: Seq<char>)
    ensures
        user_by_openid(rows.push(user), openid) == match user_by_openid(rows, openid) {
            Some(found) => Some(found),
            None => if user.openid@ == openid {
                Some(user)
            } else {
                None
            },
        },
    decreases rows.len(),
{
    let grown = rows.push(user);
    if rows.len() == 0 {
        assert(grown.drop_first() =~= Seq::<User>::empty());
    } else {
        assert(grown[0] == rows[0]);
        assert(grown.drop_first() =~= rows.drop_first().push(user));
        lemma_user_by_openid_push(rows.drop_first(), user, openid);
    }
}

/// A login held with a store in memory ends as [`logged_in`] says.
pub proof fn lemma_logged_in(
    s: StoreState,
    config: WxConfig,
    payload: LoginPayload,
    exchanged: Option<WxUser>,
    now: u64,
    secret: Seq<u8>,
)
    ensures
        login_outcome(s, login_opening(config, payload), exchanged, now, secret) == logged_in(
            s,
            payload,
            exchanged,
            now,
            secret,
        ),
{
    reveal_with_fuel(login_outcome, 6);
    if payload.code@.len() > 0 {
        if let Ok(wx) = vouched(exchanged) {
            if user_by_openid(s.live.users, wx.openid@) is None && next_user_id(s.live.users)
                <= i32::MAX {
                lemma_user_by_openid_push(s.live.users, new_user(s, wx), wx.openid@);
            }
        }
    }
}

/// Logs a caller in against the users in memory. `exchanged` is what the
/// login provider answered when the code was taken to the address that
/// [`wx_login`] gives: the user it named, or `None` where the exchange
/// failed. `now` is the second at which the token is issued. See
/// [`logged_in`].
pub fn login(
    store: &mut Store,
    keys: &Keys,
    config: &WxConfig,
    payload: LoginPayload,
    exchanged: Option<WxUser>,
    now: u64,
) -> (end: Result<AuthBody, ApiError>)
    requires
        old(store)@.well_formed(),
    ensures
        final(store)@.well_formed(),
        (final(store)@, session(end)) == logged_in(old(store)@, payload, exchanged, now, keys@),
{
    proof {
        lemma_logged_in(store@, *config, payload, exchanged, now, keys@);
    }
    let mut step = Login::open(config, &payload);
    loop
        invariant
            store@.well_formed(),
            login_outcome(store@, step@, exchanged, now, keys@) == logged_in(
                old(store)@,
                payload,
                exchanged,
                now,
                keys@,
            ),
        decreases login_rank(step@),
    {
        match step {
            LoginStep::Finish(end) => {
                return end;
            },
            LoginStep::Exchange(login, _) => {
                let answer = match &exchanged {
                    Some(wx) => Some(wx.clone()),
                    None => None,
                };
                proof {
                    lemma_login_descends(login, LoginEventView::Exchanged(exchanged), now, keys@);
                }
                step = login.resume(LoginEvent::Exchanged(answer), now, keys);
            },
            LoginStep::Ask(login, statement) => {
                let reply = store.execute(&statement);
                proof {
                    lemma_login_descends(login, LoginEventView::Replied(reply@), now, keys@);
                }
                step = login.resume(LoginEvent::Replied(reply), now, keys);
            },
        }
    }
}

/// Logging in is idempotent in the store. Once a subject has logged in,
/// the store knows it, and a later login of the same subject adds no user
/// and is in the same user's name.
pub proof fn law_login_is_idempotent(
    s: StoreState,
    payload: LoginPayload,
    exchanged: Option<WxUser>,
    now: u64,
    later: u64,
    secret: Seq<u8>,
)
    requires
        payload.code@.len() > 0,
        vouched(exchanged) is Ok,
        !(logged_in(s, payload, exchanged, now, secret).1 matches Err(ApiErrorView::Internal(_))),
    ensures
        ({
            let t = logged_in(s, payload, exchanged, now, secret).0;
            let openid = vouched(exchanged)->Ok_0.openid@;
            &&& user_by_openid(t.live.users, openid) is Some
            &&& logged_in(t, payload, exchanged, later, secret) == (
                t,
                welcomed(user_by_openid(t.live.users, openid)->Some_0, later, secret),
            )
            &&& user_by_openid(s.live.users, openid) is Some ==> t == s
        }),
{
    let wx = vouched(exchanged)->Ok_0;
    if user_by_openid(s.live.users, wx.openid@) is None {
        lemma_user_by_openid_push(s.live.users, new_user(s, wx), wx.openid@);
    }
}

} // verus!
