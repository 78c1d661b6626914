use carteira_investimentos::amount::Amount;
use carteira_investimentos::config::{parse_port, Config};
use carteira_investimentos::handlers::assets::{
    create_asset, create_asset_saved, delete_asset, edit_asset_form, new_asset_form, update_asset, CreateAssetStep,
    UpdateAssetStep, MISSING_FIELDS, NEGATIVE_NUMBERS, SAVE_FAILED,
};
use carteira_investimentos::handlers::auth::{
    register, register_email_checked, register_hash_password, register_password_hashed, register_user_created, EmailLookup,
    RegisterStep, CREATE_FAILED, EMAIL_TAKEN, HASH_FAILED, INCOMPLETE_SIGNUP,
};
use carteira_investimentos::models::{Asset, CreateAssetInput, RegisterInput, UpdateAssetInput};
use carteira_investimentos::pages::Page;
use carteira_investimentos::text::is_blank;

fn amount(mantissa: i128, scale: u32) -> Amount {
    Amount { mantissa, scale, negative: mantissa < 0 }
}

fn new_asset(name: &str, ticker: &str, quantity: Amount, unit_price: Amount) -> CreateAssetInput {
    CreateAssetInput {
        name: name.to_string(),
        ticker: ticker.to_string(),
        category: "FII".to_string(),
        quantity,
        unit_price,
    }
}

fn form_error(page: Page) -> Option<String> {
    match page {
        Page::AssetForm(f) => {
            assert_eq!(f.title, "Novo ativo");
            assert_eq!(f.action, "/assets");
            assert!(f.asset.is_none());
            f.error
        }
        _ => panic!("expected the asset form"),
    }
}

fn respond_error(step: CreateAssetStep) -> Option<String> {
    match step {
        CreateAssetStep::Respond(p) => form_error(p),
        CreateAssetStep::Insert => panic!("expected a refusal"),
    }
}

#[test]
fn blank_detection() {
    assert!(is_blank(""));
    assert!(is_blank(" \t\n"));
    assert!(is_blank("\u{2003}\u{3000}"));
    assert!(!is_blank(" a "));
    assert!(!is_blank("\u{200b}"));
}

#[test]
fn new_asset_form_is_empty() {
    assert_eq!(form_error(new_asset_form()), None);
}

#[test]
fn blank_name_or_ticker_is_refused_first() {
    let e = respond_error(create_asset(&new_asset("  ", "PETR4", amount(1, 0), amount(1, 0))));
    assert_eq!(e, Some(MISSING_FIELDS.to_string()));
    let e = respond_error(create_asset(&new_asset("Petrobras", "", amount(-1, 0), amount(1, 0))));
    assert_eq!(e, Some(MISSING_FIELDS.to_string()));
    assert_eq!(MISSING_FIELDS, "Nome e ticker são obrigatórios.");
}

#[test]
fn negative_numbers_are_refused() {
    let e = respond_error(create_asset(&new_asset("Petrobras", "PETR4", amount(-1, 2), amount(1, 0))));
    assert_eq!(e, Some(NEGATIVE_NUMBERS.to_string()));
    let e = respond_error(create_asset(&new_asset("Petrobras", "PETR4", amount(1, 0), amount(-35, 1))));
    assert_eq!(e, Some(NEGATIVE_NUMBERS.to_string()));
    assert_eq!(NEGATIVE_NUMBERS, "Quantidade e preço não podem ser negativos.");
}

#[test]
fn valid_asset_is_inserted() {
    assert!(matches!(create_asset(&new_asset("Petrobras", "PETR4", amount(0, 0), amount(0, 2))), CreateAssetStep::Insert));
    match create_asset_saved(true) {
        Page::Redirect { location, set_cookie } => {
            assert_eq!(location, "/dashboard");
            assert!(set_cookie.is_none());
        }
        _ => panic!("expected a redirect"),
    }
    assert_eq!(form_error(create_asset_saved(false)), Some(SAVE_FAILED.to_string()));
}

fn stored(id: u128) -> Asset {
    Asset {
        id,
        user_id: 1,
        name: "Itaú".to_string(),
        ticker: "ITUB4".to_string(),
        category: "Ações".to_string(),
        quantity: amount(100, 0),
        unit_price: amount(3250, 2),
        created_at: 0,
        updated_at: 0,
    }
}

#[test]
fn edit_form_of_found_asset() {
    let id = 0x550e8400e29b41d4a716446655440000u128;
    match edit_asset_form(id, Some(stored(id))) {
        Some(Page::AssetForm(f)) => {
            assert_eq!(f.title, "Editar ativo");
            assert_eq!(f.action, "/assets/550e8400-e29b-41d4-a716-446655440000");
            assert!(f.error.is_none());
            let v = f.asset.expect("asset");
            assert_eq!(v.total_value, "3250.00");
            assert_eq!(v.quantity, "100.0000");
        }
        _ => panic!("expected the edit form"),
    }
}

#[test]
fn edit_form_of_missing_asset_goes_to_dashboard() {
    match edit_asset_form(5, None) {
        Some(Page::Redirect { location, .. }) => assert_eq!(location, "/dashboard"),
        _ => panic!("expected a redirect"),
    }
}

fn edit(quantity: Amount, unit_price: Amount) -> UpdateAssetInput {
    UpdateAssetInput {
        name: "Itaú".to_string(),
        ticker: "ITUB4".to_string(),
        category: "Ações".to_string(),
        quantity,
        unit_price,
    }
}

fn edit_error(step: UpdateAssetStep) -> Option<String> {
    match step {
        UpdateAssetStep::Respond(Page::AssetForm(f)) => {
            assert_eq!(f.title, "Editar ativo");
            assert_eq!(f.action, "/assets/00000000-0000-0000-0000-000000000001");
            assert!(f.asset.is_none());
            f.error
        }
        _ => panic!("expected the edit form"),
    }
}

fn edit_named(name: &str, ticker: &str, quantity: Amount, unit_price: Amount) -> UpdateAssetInput {
    UpdateAssetInput {
        name: name.to_string(),
        ticker: ticker.to_string(),
        category: "Ações".to_string(),
        quantity,
        unit_price,
    }
}

#[test]
fn negative_edit_shows_the_error() {
    assert_eq!(edit_error(update_asset(1, &edit(amount(-1, 0), amount(1, 0)))), Some(NEGATIVE_NUMBERS.to_string()));
    assert_eq!(edit_error(update_asset(1, &edit(amount(1, 0), amount(-1, 3)))), Some(NEGATIVE_NUMBERS.to_string()));
}

#[test]
fn blank_edit_shows_the_error_first() {
    assert_eq!(edit_error(update_asset(1, &edit_named(" ", "ITUB4", amount(1, 0), amount(1, 0)))), Some(MISSING_FIELDS.to_string()));
    assert_eq!(edit_error(update_asset(1, &edit_named("Itaú", "", amount(-1, 0), amount(1, 0)))), Some(MISSING_FIELDS.to_string()));
}

#[test]
fn delete_goes_to_dashboard() {
    match delete_asset() {
        Page::Redirect { location, .. } => assert_eq!(location, "/dashboard"),
        _ => panic!("expected a redirect"),
    }
}

#[test]
fn valid_edit_is_saved_then_dashboard() {
    match update_asset(1, &edit(amount(2, 0), amount(1, 0))) {
        UpdateAssetStep::Update { then: Page::Redirect { location, .. } } => assert_eq!(location, "/dashboard"),
        _ => panic!("expected the update"),
    }
}

fn signup(name: &str, email: &str, password: &str) -> RegisterInput {
    RegisterInput { name: name.to_string(), email: email.to_string(), password: password.to_string() }
}

fn register_error(step: RegisterStep) -> Option<String> {
    match step {
        RegisterStep::Respond(Page::RegisterForm { error }) => error,
        _ => panic!("expected the sign-up form"),
    }
}

#[test]
fn incomplete_signup_is_refused() {
    assert_eq!(register_error(register(&signup("", "a@b.c", "123456"))), Some(INCOMPLETE_SIGNUP.to_string()));
    assert_eq!(register_error(register(&signup("Ana", " ", "123456"))), Some(INCOMPLETE_SIGNUP.to_string()));
    assert_eq!(register_error(register(&signup("Ana", "a@b.c", "12345"))), Some(INCOMPLETE_SIGNUP.to_string()));
    assert!(matches!(register(&signup("Ana", "a@b.c", "123456")), RegisterStep::CheckEmail));
}

#[test]
fn password_length_counts_bytes() {
    // three characters of two bytes each
    assert!(matches!(register(&signup("Ana", "a@b.c", "ççç")), RegisterStep::CheckEmail));
    assert!(register_error(register(&signup("Ana", "a@b.c", "çç"))).is_some());
}

#[test]
fn signup_steps() {
    assert_eq!(register_error(register_email_checked(EmailLookup::Found)), Some(EMAIL_TAKEN.to_string()));
    assert!(matches!(register_email_checked(EmailLookup::NotFound), RegisterStep::HashPassword));
    assert!(matches!(register_email_checked(EmailLookup::Failed), RegisterStep::HashPassword));
    assert_eq!(register_error(register_password_hashed(None)), Some(HASH_FAILED.to_string()));
    match register_password_hashed(Some("h".to_string())) {
        RegisterStep::CreateUser { password_hash } => assert_eq!(password_hash, "h"),
        _ => panic!("expected the account to be created"),
    }
    match register_user_created(true) {
        Page::Redirect { location, .. } => assert_eq!(location, "/login"),
        _ => panic!("expected a redirect"),
    }
    match register_user_created(false) {
        Page::RegisterForm { error } => assert_eq!(error, Some(CREATE_FAILED.to_string())),
        _ => panic!("expected the sign-up form"),
    }
}

#[test]
fn port_settings() {
    let port = |s: Option<&str>| Config::from_settings("db".to_string(), "s".to_string(), s.map(|x| x.to_string())).port;
    assert_eq!(port(None), 3000);
    assert_eq!(port(Some("8080")), 8080);
    assert_eq!(port(Some("+80")), 80);
    assert_eq!(port(Some("0")), 0);
    assert_eq!(port(Some("65535")), 65535);
    assert_eq!(port(Some("65536")), 3000);
    assert_eq!(port(Some("-80")), 3000);
    assert_eq!(port(Some(" 80")), 3000);
    assert_eq!(port(Some("")), 3000);
    assert_eq!(port(Some("+")), 3000);
    assert_eq!(port(Some("8o")), 3000);
    assert_eq!(parse_port("00443"), Some(443));
    let c = Config::from_settings("postgres://x".to_string(), "secret".to_string(), None);
    assert_eq!(c.database_url, "postgres://x");
    assert_eq!(c.jwt_secret, "secret");
}

#[test]
fn hashing_a_password_goes_on_to_create_the_user() {
    match register_hash_password("segredo123") {
        RegisterStep::CreateUser { password_hash } => {
            assert!(password_hash.starts_with("$argon2id$v=19$"));
            assert!(!password_hash.contains("segredo123"));
        }
        _ => panic!("expected the account to be created"),
    }
}

#[test]
fn an_empty_password_is_still_hashed() {
    assert!(matches!(register_hash_password(""), RegisterStep::CreateUser { .. }));
}
