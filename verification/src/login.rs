//! Signing in: a first request to the portal, which sets its first cookies,
//! then the credentials as a form. A status outside 200..=299 is a refusal;
//! the page that comes with a success is not looked at, and nothing is tried
//! twice.

use vstd::prelude::*;
use crate::errors::{AuthError, Failure, NetworkError};
use crate::form::{lemma_without_absent, Form};
use crate::http::{check_reply, is_success, reply_check, status_ok, Reply, ReplyView};

verus! {

/// The address of the portal.
pub const BASE_URL: &'static str = "https://digi4school.at/";

/// The address that takes the credentials.
pub const LOGIN_URL: &'static str = "https://digi4school.at/br/xhr/login";

/// What a user signs in with.
#[derive(Debug, Clone, PartialEq, Eq)]
pub struct Credentials {
    pub email: String,
    pub password: String,
}

/// The form that carries the credentials: email, password, and the request to
/// stay signed in.
pub open spec fn login_form_of(email: Seq<char>, password: Seq<char>) -> Seq<
    (Seq<char>, Seq<char>),
> {
    seq![("email"@, email), ("password"@, password), ("indefinite"@, "1"@)]
}

/// The form that carries the credentials to `LOGIN_URL`.
pub fn login_form(credentials: &Credentials) -> (form: Form)
    ensures
        form@ == login_form_of(credentials.email@, credentials.password@),
{
    let mut form = Form::new();
    form.set("email".to_owned(), credentials.email.clone());
    form.set("password".to_owned(), credentials.password.clone());
    form.set("indefinite".to_owned(), "1".to_owned());
    proof {
        reveal_strlit("email");
        reveal_strlit("password");
        reveal_strlit("indefinite");
        assert("email"@[0] != "password"@[0]);
        assert("email"@[0] != "indefinite"@[0]);
        assert("password"@[0] != "indefinite"@[0]);
        let none = Seq::<(Seq<char>, Seq<char>)>::empty();
        let one = none.push(("email"@, credentials.email@));
        let two = one.push(("password"@, credentials.password@));
        lemma_without_absent(none, "email"@);
        lemma_without_absent(one, "password"@);
        lemma_without_absent(two, "indefinite"@);
    }
    form
}

/// What the answer to the first request means: the session is primed exactly
/// if the portal answered with a success.
pub fn check_priming(reply: &Reply) -> (r: Result<(), NetworkError>)
    ensures
        r == reply_check(reply@),
{
    check_reply(reply)
}

/// What the answer to the credentials means.
pub open spec fn login_outcome(reply: ReplyView) -> Result<(), Failure> {
    match reply {
        ReplyView::Answer { status, body } => if status_ok(status) {
            Ok(())
        } else {
            Err(Failure::Auth(AuthError::Rejected(status)))
        },
        ReplyView::Failed => Err(Failure::Network(NetworkError::Transport)),
        ReplyView::TimedOut => Err(Failure::Network(NetworkError::Timeout)),
    }
}

/// Takes the answer to the credentials: signed in exactly if it is a success.
pub fn check_login(reply: &Reply) -> (r: Result<(), Failure>)
    ensures
        r == login_outcome(reply@),
{
    match reply {
        Reply::Answer { status, body } => if is_success(*status) {
            Ok(())
        } else {
            Err(Failure::Auth(AuthError::Rejected(*status)))
        },
        Reply::Failed => Err(Failure::Network(NetworkError::Transport)),
        Reply::TimedOut => Err(Failure::Network(NetworkError::Timeout)),
    }
}

/// How an unattended run gets its session.
#[derive(Debug, Clone, Copy, PartialEq, Eq, Structural)]
pub enum AutoPlan {
    /// The cookies of an earlier run are there: nothing is to be done.
    KeepCookies,
    /// Sign in with the credentials that an earlier run has stored.
    StoredCredentials,
    /// Ask for the credentials, store them, and sign in with them.
    AskCredentials,
}

/// How an unattended run gets its session: it signs in where no cookies are
/// stored or a new login is asked for, and asks for the credentials where
/// none are stored or a new login is asked for.
pub open spec fn auto_plan_of(cookies_stored: bool, credentials_stored: bool, redo_login: bool)
    -> AutoPlan {
    if cookies_stored && !redo_login {
        AutoPlan::KeepCookies
    } else if credentials_stored && !redo_login {
        AutoPlan::StoredCredentials
    } else {
        AutoPlan::AskCredentials
    }
}

/// Decides how an unattended run gets its session.
pub fn auto_plan(cookies_stored: bool, credentials_stored: bool, redo_login: bool) -> (plan:
    AutoPlan)
    ensures
        plan == auto_plan_of(cookies_stored, credentials_stored, redo_login),
{
    if !cookies_stored || redo_login {
        if !credentials_stored || redo_login {
            AutoPlan::AskCredentials
        } else {
            AutoPlan::StoredCredentials
        }
    } else {
        AutoPlan::KeepCookies
    }
}

} // verus!
