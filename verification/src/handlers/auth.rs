//! Sign-up, sign-in and sign-out.
use crate::models::{RegisterInput, User};
use crate::passwords::{argon2_accepts, hash_password, phc_prefix, verify_password, MAX_PASSWORD_BYTES};
use crate::pages::{login_form_with, redirects_to, register_form_with, Page};
use crate::session::{
    cookie_text, expired_session_cookie, session_cookie, AUTH_COOKIE, SESSION_COOKIE_PATH, SESSION_SECONDS,
};
use crate::text::{blank, byte_len, is_blank};
use vstd::prelude::*;

verus! {

/// Shown when a sign-up form is incomplete.
pub const INCOMPLETE_SIGNUP: &'static str = "Preencha nome, e-mail e uma senha com ao menos 6 caracteres.";

/// Shown when the e-mail of a sign-up already has an account.
pub const EMAIL_TAKEN: &'static str = "Já existe uma conta com este e-mail.";

/// Shown when the password could not be hashed.
pub const HASH_FAILED: &'static str = "Não foi possível processar a senha. Tente novamente.";

/// Shown when the account could not be created.
pub const CREATE_FAILED: &'static str = "Erro ao criar conta. Tente novamente.";

/// Shown when the e-mail has no account or the password does not match it.
pub const INVALID_CREDENTIALS: &'static str = "E-mail ou senha inválidos.";

/// Shown when no session token could be made.
pub const SESSION_FAILED: &'static str = "Erro ao gerar sessão. Tente novamente.";

/// The shortest password, in bytes of UTF-8.
pub const MIN_PASSWORD_BYTES: usize = 6;

/// A sign-up form that can go on: a name and an e-mail that are not blank and a
/// password of at least six bytes.
pub open spec fn signup_complete(input: RegisterInput) -> bool {
    &&& !blank(input.name@)
    &&& !blank(input.email@)
    &&& byte_len(input.password@) >= MIN_PASSWORD_BYTES
}

/// The sign-up rule: a form goes on exactly when its name and its e-mail are not blank
/// and its password has at least 6 bytes, however long it is.
pub proof fn lemma_signup_rule(input: RegisterInput)
    ensures
        signup_complete(input) <==> (!blank(input.name@) && !blank(input.email@) && byte_len(
            input.password@,
        ) >= 6),
{
}

/// What signing up does next.
pub enum RegisterStep {
    /// Answer with this page.
    Respond(Page),
    /// Look the e-mail up among the accounts, then go on with `register_email_checked`.
    CheckEmail,
    /// Hash the password, then go on with `register_password_hashed`.
    HashPassword,
    /// Create the account with this password hash, then answer with
    /// `register_user_created`.
    CreateUser { password_hash: String },
}

/// What looking an e-mail up among the accounts gave.
pub enum EmailLookup {
    Found,
    NotFound,
    Failed,
}

/// Checks a sign-up form.
pub fn register(input: &RegisterInput) -> (r: RegisterStep)
    ensures
        !signup_complete(*input) ==> (r matches RegisterStep::Respond(p) && register_form_with(
            p,
            Some(INCOMPLETE_SIGNUP@),
        )),
        signup_complete(*input) ==> r is CheckEmail,
        !blank(input.name@) && !blank(input.email@) && byte_len(input.password@) >= 6 ==> r is CheckEmail,
        blank(input.name@) || blank(input.email@) || byte_len(input.password@) < 6 ==> (r matches RegisterStep::Respond(p)
            && register_form_with(p, Some(INCOMPLETE_SIGNUP@))),
{
    if is_blank(input.name.as_str()) || is_blank(input.email.as_str()) || input.password.as_str().len()
        < MIN_PASSWORD_BYTES {
        return RegisterStep::Respond(Page::register_form(Some(INCOMPLETE_SIGNUP)));
    }
    RegisterStep::CheckEmail
}

/// Goes on once the e-mail was looked up: an e-mail that has an account is refused;
/// when the lookup found none, or failed, the password is hashed.
pub fn register_email_checked(lookup: EmailLookup) -> (r: RegisterStep)
    ensures
        lookup is Found ==> (r matches RegisterStep::Respond(p) && register_form_with(
            p,
            Some(EMAIL_TAKEN@),
        )),
        !(lookup is Found) ==> r is HashPassword,
{
    match lookup {
        EmailLookup::Found => RegisterStep::Respond(Page::register_form(Some(EMAIL_TAKEN))),
        _ => RegisterStep::HashPassword,
    }
}

/// Goes on once the password was hashed, or could not be.
pub fn register_password_hashed(hash: Option<String>) -> (r: RegisterStep)
    ensures
        hash is None ==> (r matches RegisterStep::Respond(p) && register_form_with(
            p,
            Some(HASH_FAILED@),
        )),
        hash matches Some(h) ==> (r matches RegisterStep::CreateUser { password_hash } && password_hash@
            == h@),
{
    match hash {
        Some(h) => RegisterStep::CreateUser { password_hash: h },
        None => RegisterStep::Respond(Page::register_form(Some(HASH_FAILED))),
    }
}

/// Hashes the password, then goes on as `register_password_hashed`: with the hash,
/// an Argon2id PHC string which Argon2 accepts for the password, or with the form's
/// error when hashing failed, which it does not for a password of at most
/// 0xFFFF_FFFF bytes.
/// A password used to sign up is thus accepted at sign-in (`login_check_password`).
pub fn register_hash_password(password: &str) -> (r: RegisterStep)
    ensures
        (r matches RegisterStep::Respond(p) && register_form_with(p, Some(HASH_FAILED@)))
            || r is CreateUser,
        byte_len(password@) <= MAX_PASSWORD_BYTES ==> r is CreateUser,
        r matches RegisterStep::CreateUser { password_hash } ==> argon2_accepts(
            password@,
            password_hash@,
        ) && phc_prefix().is_prefix_of(password_hash@),
{
    register_password_hashed(hash_password(password))
}

/// The answer once the account was created, or could not be: the sign-in page, or
/// the sign-up form with an error.
pub fn register_user_created(created: bool) -> (r: Page)
    ensures
        created ==> redirects_to(r, "/login"@),
        !created ==> register_form_with(r, Some(CREATE_FAILED@)),
{
    if created {
        Page::redirect("/login")
    } else {
        Page::register_form(Some(CREATE_FAILED))
    }
}

/// What signing in does next.
pub enum LoginStep {
    /// Answer with this page.
    Respond(Page),
    /// Check the password against this hash, then go on with `login_password_checked`.
    VerifyPassword { user_id: u128, password_hash: String },
    /// Make a session token for this user, then answer with `login_token_issued`.
    IssueToken { user_id: u128 },
}

/// Goes on once the e-mail was looked up: with no account found (or a failed lookup)
/// the form is shown again with the same error as for a wrong password.
pub fn login(found: Option<User>) -> (r: LoginStep)
    ensures
        found is None ==> (r matches LoginStep::Respond(p) && login_form_with(
            p,
            Some(INVALID_CREDENTIALS@),
        )),
        found matches Some(u) ==> (r matches LoginStep::VerifyPassword { user_id, password_hash }
            && user_id == u.id && password_hash@ == u.password_hash@),
{
    match found {
        Some(u) => LoginStep::VerifyPassword { user_id: u.id, password_hash: u.password_hash },
        None => LoginStep::Respond(Page::login_form(Some(INVALID_CREDENTIALS))),
    }
}

/// Goes on once the password was checked: a wrong password gets the same answer as
/// an unknown e-mail.
pub fn login_password_checked(user_id: u128, matches: bool) -> (r: LoginStep)
    ensures
        !matches ==> (r matches LoginStep::Respond(p) && login_form_with(
            p,
            Some(INVALID_CREDENTIALS@),
        )),
        matches ==> r == (LoginStep::IssueToken { user_id }),
{
    if matches {
        LoginStep::IssueToken { user_id }
    } else {
        LoginStep::Respond(Page::login_form(Some(INVALID_CREDENTIALS)))
    }
}

/// Checks the password against the account's hash, then goes on as
/// `login_password_checked`.
pub fn login_check_password(user_id: u128, password: &str, password_hash: &str) -> (r: LoginStep)
    ensures
        !argon2_accepts(password@, password_hash@) ==> (r matches LoginStep::Respond(p)
            && login_form_with(p, Some(INVALID_CREDENTIALS@))),
        argon2_accepts(password@, password_hash@) ==> r == (LoginStep::IssueToken { user_id }),
{
    login_password_checked(user_id, verify_password(password, password_hash))
}

/// The answer once a session token was made, or could not be: the dashboard with
/// the session cookie set, or the form with an error.
pub fn login_token_issued(token: Option<String>) -> (r: Page)
    ensures
        token is None ==> login_form_with(r, Some(SESSION_FAILED@)),
        token matches Some(t) ==> (r matches Page::Redirect { location, set_cookie: Some(c) }
            && location@ == "/dashboard"@ && c@ == cookie_text(
            AUTH_COOKIE@,
            t@,
            SESSION_COOKIE_PATH@,
            true,
            SESSION_SECONDS as nat,
        )),
{
    match token {
        Some(t) => Page::Redirect {
            location: "/dashboard".to_string(),
            set_cookie: Some(session_cookie(t.as_str())),
        },
        None => Page::login_form(Some(SESSION_FAILED)),
    }
}

/// Signing out: back to the sign-in page, with the session cookie emptied and expired.
pub fn logout() -> (r: Page)
    ensures
        r matches Page::Redirect { location, set_cookie: Some(c) } && location@ == "/login"@
            && c@ == cookie_text(AUTH_COOKIE@, Seq::empty(), SESSION_COOKIE_PATH@, true, 0),
{
    Page::Redirect { location: "/login".to_string(), set_cookie: Some(expired_session_cookie()) }
}

} // verus!
