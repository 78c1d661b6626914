//! The records the application stores and the forms it reads.
use crate::amount::{
    can_write, decimal_mul, decimal_product, decimal_text, exact_product, format_amount, opt_view,
    product_is_exact, text_fits, Amount,
};
use vstd::prelude::*;

verus! {

/// An account. Identifiers are `Uuid`s held as their number; times are microseconds
/// since the Unix epoch.
pub struct User {
    pub id: u128,
    pub name: String,
    pub email: String,
    pub password_hash: String,
    pub created_at: i64,
}

/// The sign-up form.
pub struct RegisterInput {
    pub name: String,
    pub email: String,
    pub password: String,
}

/// The sign-in form.
pub struct LoginInput {
    pub email: String,
    pub password: String,
}

/// An asset of a user's portfolio.
pub struct Asset {
    pub id: u128,
    pub user_id: u128,
    pub name: String,
    pub ticker: String,
    pub category: String,
    pub quantity: Amount,
    pub unit_price: Amount,
    pub created_at: i64,
    pub updated_at: i64,
}

/// The form that adds an asset.
pub struct CreateAssetInput {
    pub name: String,
    pub ticker: String,
    pub category: String,
    pub quantity: Amount,
    pub unit_price: Amount,
}

/// The form that edits an asset.
pub struct UpdateAssetInput {
    pub name: String,
    pub ticker: String,
    pub category: String,
    pub quantity: Amount,
    pub unit_price: Amount,
}

/// An asset as the pages show it, with its numbers already written out.
pub struct AssetView {
    pub id: u128,
    pub name: String,
    pub ticker: String,
    pub category: String,
    pub quantity: String,
    pub unit_price: String,
    pub total_value: String,
}

/// What `quantity * unit_price` gives for the asset, or `None` where the
/// multiplication overflows.
pub open spec fn value_of(a: Asset) -> Option<(int, int, bool)> {
    decimal_product(a.quantity@, a.unit_price@)
}

/// The asset's value when no digit is lost.
pub open spec fn exact_value_of(a: Asset) -> (int, int, bool) {
    exact_product(a.quantity@, a.unit_price@)
}

/// The asset's value loses no digit.
pub open spec fn value_is_exact(a: Asset) -> bool {
    product_is_exact(a.quantity@, a.unit_price@)
}

/// `v` shows the asset `a`: the same identifier and texts, the quantity with four
/// decimal places, the price and the value with two.
pub open spec fn shows(v: AssetView, a: Asset) -> bool {
    let value = value_of(a)->0;
    &&& v.id == a.id
    &&& v.name@ == a.name@
    &&& v.ticker@ == a.ticker@
    &&& v.category@ == a.category@
    &&& v.quantity@ == decimal_text(a.quantity.negative, a.quantity@.0, a.quantity.scale as nat, 4)
    &&& v.unit_price@ == decimal_text(a.unit_price.negative, a.unit_price@.0, a.unit_price.scale as nat, 2)
    &&& v.total_value@ == decimal_text(value.2, value.0, value.1 as nat, 2)
}

/// The asset's numbers can be written as the pages show them: `Decimal`'s `Display`
/// panics on a text longer than its buffer.
pub open spec fn view_fits(a: Asset) -> bool {
    let value = value_of(a)->0;
    &&& text_fits(a.quantity@.0, a.quantity.scale as nat, 4)
    &&& text_fits(a.unit_price@.0, a.unit_price.scale as nat, 2)
    &&& text_fits(value.0, value.1 as nat, 2)
}

impl Asset {
    /// Both numbers are ones a `Decimal` holds.
    pub open spec fn wf(self) -> bool {
        self.quantity.wf() && self.unit_price.wf()
    }

    /// The asset's value, `quantity * unit_price`.
    pub fn total_value(&self) -> (r: Amount)
        requires
            self.wf(),
            value_of(*self) is Some,
        ensures
            Some(r@) == value_of(*self),
            r.wf(),
            value_is_exact(*self) ==> r@ == exact_value_of(*self),
    {
        match decimal_mul(self.quantity, self.unit_price) {
            Some(v) => v,
            None => {
                proof {
                    assert(false);
                }
                Amount::zero()
            },
        }
    }

    /// The asset's value, or `None` where `quantity * unit_price` overflows.
    pub fn checked_total_value(&self) -> (r: Option<Amount>)
        requires
            self.wf(),
        ensures
            opt_view(r) == value_of(*self),
            r matches Some(x) ==> x.wf(),
            value_is_exact(*self) ==> opt_view(r) == Some(exact_value_of(*self)),
    {
        decimal_mul(self.quantity, self.unit_price)
    }
}

/// Whether the asset's view can be written, given its value.
fn view_can_be_written(a: &Asset, total: Amount) -> (r: bool)
    requires
        a.wf(),
        total.wf(),
        Some(total@) == value_of(*a),
    ensures
        r == view_fits(*a),
{
    can_write(a.quantity, 4) && can_write(a.unit_price, 2) && can_write(total, 2)
}

impl AssetView {
    /// How the pages show an asset.
    pub fn from(a: &Asset) -> (r: AssetView)
        requires
            a.wf(),
            value_of(*a) is Some,
            view_fits(*a),
        ensures
            shows(r, *a),
    {
        let total = a.total_value();
        AssetView {
            id: a.id,
            name: a.name.clone(),
            ticker: a.ticker.clone(),
            category: a.category.clone(),
            quantity: format_amount(a.quantity, 4),
            unit_price: format_amount(a.unit_price, 2),
            total_value: format_amount(total, 2),
        }
    }

    /// How the pages show an asset, or `None` where its value overflows or one of its
    /// numbers is too long to be written.
    pub fn try_from_asset(a: &Asset) -> (r: Option<AssetView>)
        requires
            a.wf(),
        ensures
            r is Some <==> (value_of(*a) is Some && view_fits(*a)),
            r matches Some(v) ==> shows(v, *a),
    {
        if AssetView::can_show(a) {
            Some(AssetView::from(a))
        } else {
            None
        }
    }

    /// Whether the asset can be shown: its value does not overflow and its numbers
    /// can be written.
    pub fn can_show(a: &Asset) -> (r: bool)
        requires
            a.wf(),
        ensures
            r == (value_of(*a) is Some && view_fits(*a)),
    {
        match a.checked_total_value() {
            Some(total) => view_can_be_written(a, total),
            None => false,
        }
    }
}

} // verus!
