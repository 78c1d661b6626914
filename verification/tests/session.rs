use carteira_investimentos::handlers::auth::{login, login_check_password, login_password_checked, register_hash_password, RegisterStep, login_token_issued, logout, LoginStep, INVALID_CREDENTIALS, SESSION_FAILED};
use carteira_investimentos::models::User;
use carteira_investimentos::pages::Page;
use carteira_investimentos::session::{
    expired_session_cookie, require_session_token, session_cookie, session_token, AuthRedirect, AuthUser,
    AUTH_COOKIE,
};

#[test]
fn token_of_single_pair() {
    assert_eq!(session_token("auth_token=abc.def.ghi"), Some("abc.def.ghi".to_string()));
}

#[test]
fn token_among_other_cookies() {
    assert_eq!(session_token("theme=dark; auth_token=xyz; lang=pt"), Some("xyz".to_string()));
}

#[test]
fn token_pairs_are_trimmed() {
    assert_eq!(session_token("a=1;   auth_token=tok  ;b=2"), Some("tok".to_string()));
    assert_eq!(session_token("\tauth_token=tok"), Some("tok".to_string()));
}

#[test]
fn first_session_pair_wins() {
    assert_eq!(session_token("auth_token=first; auth_token=second"), Some("first".to_string()));
}

#[test]
fn empty_token_is_a_token() {
    assert_eq!(session_token("a=1;auth_token="), Some(String::new()));
}

#[test]
fn no_session_pair() {
    assert_eq!(session_token(""), None);
    assert_eq!(session_token("auth_token2=x; other=auth_token=y"), None);
    assert_eq!(session_token("auth_token"), None);
    assert_eq!(session_token("Auth_Token=x"), None);
}

#[test]
fn missing_session_redirects_to_login() {
    let r = require_session_token("theme=dark");
    match r {
        Err(redirect) => match redirect.page() {
            Page::Redirect { location, set_cookie } => {
                assert_eq!(location, "/login");
                assert!(set_cookie.is_none());
            }
            _ => panic!("expected a redirect"),
        },
        Ok(_) => panic!("expected no session"),
    }
    assert_eq!(require_session_token("auth_token=t").ok(), Some("t".to_string()));
}

#[test]
fn subject_identifiers() {
    let id = 0x550e8400e29b41d4a716446655440000u128;
    assert_eq!(AuthUser::from_subject("550e8400-e29b-41d4-a716-446655440000").ok().map(|u| u.user_id), Some(id));
    assert_eq!(AuthUser::from_subject("550E8400E29B41D4A716446655440000").ok().map(|u| u.user_id), Some(id));
    assert_eq!(AuthUser::from_subject("{550e8400-e29b-41d4-a716-446655440000}").ok().map(|u| u.user_id), Some(id));
    assert!(AuthUser::from_subject("550e8400-e29b-41d4-a716-44665544000").is_err());
    assert!(AuthUser::from_subject("not-a-uuid").is_err());
    assert!(AuthUser::from_subject("").is_err());
}

#[test]
fn session_cookie_text() {
    assert_eq!(AUTH_COOKIE, "auth_token");
    assert_eq!(session_cookie("tok123"), "auth_token=tok123; HttpOnly; Path=/; Max-Age=86400");
    assert_eq!(expired_session_cookie(), "auth_token=; HttpOnly; Path=/; Max-Age=0");
}

#[test]
fn login_cookie_comes_back_as_the_token() {
    let token = "eyJhbGciOiJIUzI1NiJ9.eyJzdWIiOiJ4In0.sig";
    let cookie = session_cookie(token);
    assert_eq!(session_token(&cookie), Some(token.to_string()));
    let pair = cookie.split(';').next().unwrap();
    assert_eq!(session_token(&format!("lang=pt; {}", pair)), Some(token.to_string()));
}

#[test]
fn logout_cookie_holds_an_empty_token() {
    assert_eq!(session_token(&expired_session_cookie()), Some(String::new()));
}

fn user() -> User {
    User {
        id: 42,
        name: "Ana".to_string(),
        email: "ana@example.com".to_string(),
        password_hash: "$argon2id$hash".to_string(),
        created_at: 0,
    }
}

fn login_error(step: LoginStep) -> Option<String> {
    match step {
        LoginStep::Respond(Page::LoginForm { error }) => error,
        _ => panic!("expected the login form"),
    }
}

#[test]
fn unknown_email_and_wrong_password_get_the_same_answer() {
    let unknown = login_error(login(None));
    let wrong = login_error(login_password_checked(42, false));
    assert_eq!(unknown, Some(INVALID_CREDENTIALS.to_string()));
    assert_eq!(unknown, wrong);
    assert_eq!(INVALID_CREDENTIALS, "E-mail ou senha inválidos.");
}

#[test]
fn login_goes_on_to_password_then_token() {
    match login(Some(user())) {
        LoginStep::VerifyPassword { user_id, password_hash } => {
            assert_eq!(user_id, 42);
            assert_eq!(password_hash, "$argon2id$hash");
        }
        _ => panic!("expected the password check"),
    }
    match login_password_checked(42, true) {
        LoginStep::IssueToken { user_id } => assert_eq!(user_id, 42),
        _ => panic!("expected a token"),
    }
}

#[test]
fn login_sets_the_session_cookie() {
    match login_token_issued(Some("tok".to_string())) {
        Page::Redirect { location, set_cookie } => {
            assert_eq!(location, "/dashboard");
            assert_eq!(set_cookie, Some("auth_token=tok; HttpOnly; Path=/; Max-Age=86400".to_string()));
        }
        _ => panic!("expected a redirect"),
    }
    match login_token_issued(None) {
        Page::LoginForm { error } => {
            assert_eq!(error, Some(SESSION_FAILED.to_string()));
            assert_eq!(SESSION_FAILED, "Erro ao gerar sessão. Tente novamente.");
        }
        _ => panic!("expected the login form"),
    }
}

#[test]
fn logout_expires_the_cookie() {
    match logout() {
        Page::Redirect { location, set_cookie } => {
            assert_eq!(location, "/login");
            assert_eq!(set_cookie, Some("auth_token=; HttpOnly; Path=/; Max-Age=0".to_string()));
        }
        _ => panic!("expected a redirect"),
    }
    let _ = AuthRedirect;
}

#[test]
fn the_hashed_password_is_accepted_and_no_other() {
    let hash = match register_hash_password("segredo123") {
        RegisterStep::CreateUser { password_hash } => password_hash,
        _ => panic!("expected a hash"),
    };
    match login_check_password(42, "segredo123", &hash) {
        LoginStep::IssueToken { user_id } => assert_eq!(user_id, 42),
        _ => panic!("expected a token"),
    }
    assert_eq!(login_error(login_check_password(42, "segredo124", &hash)), Some(INVALID_CREDENTIALS.to_string()));
    assert_eq!(login_error(login_check_password(42, "segredo123", "not a hash")), Some(INVALID_CREDENTIALS.to_string()));
}
