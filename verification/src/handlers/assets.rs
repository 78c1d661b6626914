//! The dashboard and the asset forms.
use crate::amount::{can_write, decimal_text, text_fits};
use crate::ids::{hyphenated, uuid_text};
use crate::models::{shows, value_of, view_fits, Asset, AssetView, CreateAssetInput, UpdateAssetInput};
use crate::pages::{new_asset_form_with, opt_text, redirects_to, AssetFormPage, DashboardPage, Page};
use crate::portfolio::{portfolio_total, total_of};
use crate::text::{blank, is_blank};
use vstd::prelude::*;

verus! {

/// Shown when the name or the ticker of a new asset is blank.
pub const MISSING_FIELDS: &'static str = "Nome e ticker são obrigatórios.";

/// Shown when the quantity or the price of a new asset is negative.
pub const NEGATIVE_NUMBERS: &'static str = "Quantidade e preço não podem ser negativos.";

/// Shown when the new asset could not be saved.
pub const SAVE_FAILED: &'static str = "Erro ao salvar o ativo. Tente novamente.";

/// `p` is the dashboard of the assets: every asset shown in order, their number, and
/// the portfolio's total value with two decimal places.
pub open spec fn dashboard_shows(p: Page, assets: Seq<Asset>) -> bool {
    let total = total_of(assets)->0;
    &&& p matches Page::Dashboard(d)
    &&& d.asset_count == assets.len()
    &&& d.assets@.len() == assets.len()
    &&& forall|i: int| 0 <= i < assets.len() ==> shows(#[trigger] d.assets@[i], assets[i])
    &&& d.total_value@ == decimal_text(total.2, total.0, total.1 as nat, 2)
}

/// `p` is the form that edits the asset `a` reached at `/assets/{id}`.
pub open spec fn edit_form_shows(p: Page, id: u128, a: Asset) -> bool {
    &&& p matches Page::AssetForm(f)
    &&& f.title@ == "Editar ativo"@
    &&& f.action@ == "/assets/"@ + hyphenated(id as int)
    &&& f.error is None
    &&& f.asset matches Some(v) && shows(v, a)
}

/// A total exists only where every value does.
proof fn lemma_total_needs_values(assets: Seq<Asset>, i: int)
    requires
        0 <= i < assets.len(),
        total_of(assets) is Some,
    ensures
        value_of(assets[i]) is Some,
    decreases assets.len(),
{
    if i < assets.len() - 1 {
        assert(assets.drop_last()[i] == assets[i]);
        lemma_total_needs_values(assets.drop_last(), i);
    }
}

/// The dashboard can be shown: the total exists, and every number on it can be written.
pub open spec fn dashboard_possible(assets: Seq<Asset>) -> bool {
    let total = total_of(assets)->0;
    &&& total_of(assets) is Some
    &&& forall|i: int| 0 <= i < assets.len() ==> view_fits(#[trigger] assets[i])
    &&& text_fits(total.0, total.1 as nat, 2)
}

/// The dashboard, given what listing the user's assets gave (`None` when the listing
/// failed, which sends the user to the sign-in page). `None` where computing or
/// writing the numbers would fail.
pub fn dashboard(listed: Option<&Vec<Asset>>) -> (r: Option<Page>)
    requires
        listed matches Some(assets) ==> forall|i: int|
            0 <= i < assets@.len() ==> (#[trigger] assets@[i]).wf(),
    ensures
        listed is None ==> (r matches Some(p) && redirects_to(p, "/login"@)),
        listed matches Some(assets) ==> (r is Some <==> dashboard_possible(assets@)),
        listed matches Some(assets) ==> (r matches Some(p) ==> dashboard_shows(p, assets@)),
{
    let assets = match listed {
        Some(a) => a,
        None => return Some(Page::redirect("/login")),
    };
    let total = match portfolio_total(assets) {
        Some(t) => t,
        None => return None,
    };
    if !can_write(total, 2) {
        return None;
    }
    let mut views: Vec<AssetView> = Vec::new();
    let mut i: usize = 0;
    while i < assets.len()
        invariant
            listed == Some(assets),
            i <= assets@.len(),
            forall|j: int| 0 <= j < assets@.len() ==> (#[trigger] assets@[j]).wf(),
            total_of(assets@) is Some,
            views@.len() == i,
            forall|j: int| 0 <= j < i ==> shows(#[trigger] views@[j], assets@[j]),
            forall|j: int| 0 <= j < i ==> view_fits(#[trigger] assets@[j]),
        decreases assets@.len() - i,
    {
        proof {
            lemma_total_needs_values(assets@, i as int);
        }
        match AssetView::try_from_asset(&assets[i]) {
            Some(v) => views.push(v),
            None => {
                assert(!view_fits(assets@[i as int]));
                return None;
            },
        }
        i = i + 1;
    }
    let count = assets.len();
    Some(Page::Dashboard(DashboardPage {
        assets: views,
        total_value: crate::amount::format_amount(total, 2),
        asset_count: count,
    }))
}

/// The empty form for a new asset.
pub fn new_asset_form() -> (r: Page)
    ensures
        new_asset_form_with(r, None),
{
    Page::new_asset_form(None)
}

/// What adding an asset does next.
pub enum CreateAssetStep {
    /// Answer with this page.
    Respond(Page),
    /// Insert the asset, then answer with `create_asset_saved`.
    Insert,
}

/// Checks a new asset: a blank name or ticker is refused first, then a negative
/// quantity or price; otherwise the asset is inserted.
pub fn create_asset(input: &CreateAssetInput) -> (r: CreateAssetStep)
    ensures
        (blank(input.name@) || blank(input.ticker@)) ==> (r matches CreateAssetStep::Respond(p)
            && new_asset_form_with(p, Some(MISSING_FIELDS@))),
        !(blank(input.name@) || blank(input.ticker@)) && (input.quantity.is_negative()
            || input.unit_price.is_negative()) ==> (r matches CreateAssetStep::Respond(p)
            && new_asset_form_with(p, Some(NEGATIVE_NUMBERS@))),
        !(blank(input.name@) || blank(input.ticker@)) && !input.quantity.is_negative()
            && !input.unit_price.is_negative() ==> r is Insert,
{
    if is_blank(input.name.as_str()) || is_blank(input.ticker.as_str()) {
        return CreateAssetStep::Respond(Page::new_asset_form(Some(MISSING_FIELDS)));
    }
    if input.quantity.is_below_zero() || input.unit_price.is_below_zero() {
        return CreateAssetStep::Respond(Page::new_asset_form(Some(NEGATIVE_NUMBERS)));
    }
    CreateAssetStep::Insert
}

/// The answer once the insert of a new asset is done: the dashboard when it was
/// saved, the form with an error otherwise.
pub fn create_asset_saved(saved: bool) -> (r: Page)
    ensures
        saved ==> redirects_to(r, "/dashboard"@),
        !saved ==> new_asset_form_with(r, Some(SAVE_FAILED@)),
{
    if saved {
        Page::redirect("/dashboard")
    } else {
        Page::new_asset_form(Some(SAVE_FAILED))
    }
}

/// The form that edits the asset at `/assets/{id}`, given what the lookup of that
/// asset among the user's found: back to the dashboard when nothing was found, and
/// `None` where the asset's value overflows or one of its numbers is too long to be
/// written.
pub fn edit_asset_form(id: u128, found: Option<Asset>) -> (r: Option<Page>)
    requires
        found matches Some(a) ==> a.wf(),
    ensures
        found is None ==> (r matches Some(p) && redirects_to(p, "/dashboard"@)),
        found matches Some(a) ==> (r is Some <==> (value_of(a) is Some && view_fits(a))),
        found matches Some(a) ==> (r matches Some(p) ==> edit_form_shows(p, id, a)),
{
    match found {
        None => Some(Page::redirect("/dashboard")),
        Some(a) => {
            let view = match AssetView::try_from_asset(&a) {
                Some(v) => v,
                None => return None,
            };
            let mut action = "/assets/".to_string();
            let id_text = uuid_text(id);
            action.append(id_text.as_str());
            Some(Page::AssetForm(AssetFormPage {
                title: "Editar ativo".to_string(),
                action,
                error: None,
                asset: Some(view),
            }))
        },
    }
}

/// `p` is the form that edits the asset at `/assets/{id}`, showing `error`.
pub open spec fn edit_form_with(p: Page, id: u128, error: Seq<char>) -> bool {
    &&& p matches Page::AssetForm(f)
    &&& f.title@ == "Editar ativo"@
    &&& f.action@ == "/assets/"@ + hyphenated(id as int)
    &&& opt_text(f.error) == Some(error)
    &&& f.asset is None
}

/// What editing an asset does next.
pub enum UpdateAssetStep {
    /// Answer with this page; nothing is updated.
    Respond(Page),
    /// Update the asset, then answer with `then` whatever the update did.
    Update { then: Page },
}

/// The edit form of the asset at `/assets/{id}` showing `error`.
fn edit_form_error(id: u128, error: &str) -> (r: Page)
    ensures
        edit_form_with(r, id, error@),
{
    let mut action = "/assets/".to_string();
    let id_text = uuid_text(id);
    action.append(id_text.as_str());
    Page::AssetForm(AssetFormPage {
        title: "Editar ativo".to_string(),
        action,
        error: Some(error.to_string()),
        asset: None,
    })
}

/// Checks an edited asset as a new one is checked: a blank name or ticker is refused
/// first, then a negative quantity or price, each with the edit form showing why;
/// otherwise the asset is updated and the user sent to the dashboard.
pub fn update_asset(id: u128, input: &UpdateAssetInput) -> (r: UpdateAssetStep)
    ensures
        (blank(input.name@) || blank(input.ticker@)) ==> (r matches UpdateAssetStep::Respond(p)
            && edit_form_with(p, id, MISSING_FIELDS@)),
        !(blank(input.name@) || blank(input.ticker@)) && (input.quantity.is_negative()
            || input.unit_price.is_negative()) ==> (r matches UpdateAssetStep::Respond(p)
            && edit_form_with(p, id, NEGATIVE_NUMBERS@)),
        !(blank(input.name@) || blank(input.ticker@)) && !input.quantity.is_negative()
            && !input.unit_price.is_negative() ==> (r matches UpdateAssetStep::Update { then }
            && redirects_to(then, "/dashboard"@)),
{
    if is_blank(input.name.as_str()) || is_blank(input.ticker.as_str()) {
        return UpdateAssetStep::Respond(edit_form_error(id, MISSING_FIELDS));
    }
    if input.quantity.is_below_zero() || input.unit_price.is_below_zero() {
        return UpdateAssetStep::Respond(edit_form_error(id, NEGATIVE_NUMBERS));
    }
    UpdateAssetStep::Update { then: Page::redirect("/dashboard") }
}

/// The answer once an asset was deleted, or could not be: the dashboard.
pub fn delete_asset() -> (r: Page)
    ensures
        redirects_to(r, "/dashboard"@),
{
    Page::redirect("/dashboard")
}

} // verus!
