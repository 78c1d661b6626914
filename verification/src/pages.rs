//! What the application answers: the pages it renders and the redirects it sends.
use crate::models::AssetView;
use vstd::prelude::*;

verus! {

/// The form page for adding or editing an asset.
pub struct AssetFormPage {
    pub title: String,
    pub action: String,
    pub error: Option<String>,
    pub asset: Option<AssetView>,
}

/// The dashboard: the user's assets, the portfolio's total value and how many assets
/// there are.
pub struct DashboardPage {
    pub assets: Vec<AssetView>,
    pub total_value: String,
    pub asset_count: usize,
}

/// An answer to a request.
pub enum Page {
    /// A redirect to `location`, setting a cookie with the `Set-Cookie` text if given.
    Redirect { location: String, set_cookie: Option<String> },
    RegisterForm { error: Option<String> },
    LoginForm { error: Option<String> },
    AssetForm(AssetFormPage),
    Dashboard(DashboardPage),
}

/// The text of an optional string.
pub open spec fn opt_text(s: Option<String>) -> Option<Seq<char>> {
    match s {
        Some(t) => Some(t@),
        None => None,
    }
}

/// `p` redirects to `location` and sets no cookie.
pub open spec fn redirects_to(p: Page, location: Seq<char>) -> bool {
    p matches Page::Redirect { location: l, set_cookie: None } && l@ == location
}

/// `p` is the sign-up form showing `error`.
pub open spec fn register_form_with(p: Page, error: Option<Seq<char>>) -> bool {
    p matches Page::RegisterForm { error: e } && opt_text(e) == error
}

/// `p` is the sign-in form showing `error`.
pub open spec fn login_form_with(p: Page, error: Option<Seq<char>>) -> bool {
    p matches Page::LoginForm { error: e } && opt_text(e) == error
}

/// `p` is the empty form for a new asset, showing `error`.
pub open spec fn new_asset_form_with(p: Page, error: Option<Seq<char>>) -> bool {
    &&& p matches Page::AssetForm(f)
    &&& f.title@ == "Novo ativo"@
    &&& f.action@ == "/assets"@
    &&& opt_text(f.error) == error
    &&& f.asset is None
}

impl Page {
    /// A redirect that sets no cookie.
    pub fn redirect(location: &str) -> (r: Page)
        ensures
            redirects_to(r, location@),
    {
        Page::Redirect { location: location.to_string(), set_cookie: None }
    }

    /// The empty form for a new asset, showing `error` if given.
    pub fn new_asset_form(error: Option<&str>) -> (r: Page)
        ensures
            new_asset_form_with(
                r,
                match error {
                    Some(e) => Some(e@),
                    None => None,
                },
            ),
    {
        let e = match error {
            Some(e) => Some(e.to_string()),
            None => None,
        };
        Page::AssetForm(
            AssetFormPage {
                title: "Novo ativo".to_string(),
                action: "/assets".to_string(),
                error: e,
                asset: None,
            },
        )
    }

    /// The sign-up form, showing `error` if given.
    pub fn register_form(error: Option<&str>) -> (r: Page)
        ensures
            register_form_with(
                r,
                match error {
                    Some(e) => Some(e@),
                    None => None,
                },
            ),
    {
        let e = match error {
            Some(e) => Some(e.to_string()),
            None => None,
        };
        Page::RegisterForm { error: e }
    }

    /// The sign-in form, showing `error` if given.
    pub fn login_form(error: Option<&str>) -> (r: Page)
        ensures
            login_form_with(
                r,
                match error {
                    Some(e) => Some(e@),
                    None => None,
                },
            ),
    {
        let e = match error {
            Some(e) => Some(e.to_string()),
            None => None,
        };
        Page::LoginForm { error: e }
    }
}

} // verus!
