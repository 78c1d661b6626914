use carteira_investimentos::amount::Amount;
use carteira_investimentos::handlers::assets::dashboard;
use carteira_investimentos::models::{Asset, AssetView};
use carteira_investimentos::pages::Page;
use carteira_investimentos::portfolio::{portfolio_total, stored_total};

fn amount(mantissa: i128, scale: u32) -> Amount {
    Amount { mantissa, scale, negative: mantissa < 0 }
}

fn asset(id: u128, name: &str, quantity: Amount, unit_price: Amount) -> Asset {
    Asset {
        id,
        user_id: 7,
        name: name.to_string(),
        ticker: format!("{}3", name.to_uppercase()),
        category: "Ações".to_string(),
        quantity,
        unit_price,
        created_at: 0,
        updated_at: 0,
    }
}

#[test]
fn total_value_multiplies_quantity_by_price() {
    let a = asset(1, "petr", amount(105, 1), amount(2025, 2));
    assert_eq!(a.total_value(), amount(212625, 3));
}

#[test]
fn total_value_of_zero_quantity_is_zero_at_scale_zero() {
    let a = asset(1, "petr", amount(0, 4), amount(2025, 2));
    assert_eq!(a.total_value(), amount(0, 0));
    assert!(!a.total_value().negative);
}

#[test]
fn checked_total_value_reports_overflow() {
    let a = asset(1, "big", amount(79228162514264337593543950335, 0), amount(10, 0));
    assert_eq!(a.checked_total_value(), None);
}

#[test]
fn asset_view_writes_four_and_two_decimal_places() {
    let a = asset(0x550e8400e29b41d4a716446655440000, "vale", amount(105, 1), amount(2025, 2));
    let v = AssetView::from(&a);
    assert_eq!(v.id, 0x550e8400e29b41d4a716446655440000);
    assert_eq!(v.name, "vale");
    assert_eq!(v.ticker, "VALE3");
    assert_eq!(v.category, "Ações");
    assert_eq!(v.quantity, "10.5000");
    assert_eq!(v.unit_price, "20.25");
    // 212.625 is cut, not rounded, to two places
    assert_eq!(v.total_value, "212.62");
}

#[test]
fn asset_view_of_small_and_negative_numbers() {
    let a = asset(1, "x", amount(-5, 3), amount(7, 0));
    let v = AssetView::from(&a);
    assert_eq!(v.quantity, "-0.0050");
    assert_eq!(v.unit_price, "7.00");
    assert_eq!(v.total_value, "-0.03");
}

#[test]
fn asset_view_refused_when_value_overflows() {
    let a = asset(1, "big", amount(79228162514264337593543950335, 0), amount(10, 0));
    assert!(AssetView::try_from_asset(&a).is_none());
}

#[test]
fn portfolio_total_is_sum_of_values() {
    let assets = vec![
        asset(1, "a", amount(2, 0), amount(1000, 2)),
        asset(2, "b", amount(3, 0), amount(15, 1)),
    ];
    assert_eq!(portfolio_total(&assets), Some(amount(2450, 2)));
}

#[test]
fn portfolio_total_of_no_assets_is_zero() {
    assert_eq!(portfolio_total(&Vec::new()), Some(amount(0, 0)));
}

#[test]
fn portfolio_total_overflow_is_none() {
    let assets = vec![
        asset(1, "a", amount(79228162514264337593543950335, 0), amount(1, 0)),
        asset(2, "b", amount(79228162514264337593543950335, 0), amount(1, 0)),
    ];
    assert_eq!(portfolio_total(&assets), None);
}

#[test]
fn dashboard_shows_total_and_count() {
    // the manual sum of quantity x price: 2 x 10.00 + 3 x 1.5 + 0.5 x 100.10 = 74.55
    let assets = vec![
        asset(1, "a", amount(2, 0), amount(1000, 2)),
        asset(2, "b", amount(3, 0), amount(15, 1)),
        asset(3, "c", amount(5, 1), amount(10010, 2)),
    ];
    match dashboard(Some(&assets)) {
        Some(Page::Dashboard(d)) => {
            assert_eq!(d.total_value, "74.55");
            assert_eq!(d.asset_count, 3);
            assert_eq!(d.assets.len(), 3);
            assert_eq!(d.assets[0].total_value, "20.00");
            assert_eq!(d.assets[1].total_value, "4.50");
            assert_eq!(d.assets[2].total_value, "50.05");
            assert_eq!(d.assets[2].quantity, "0.5000");
        }
        _ => panic!("expected the dashboard"),
    }
}

#[test]
fn dashboard_total_follows_edit_and_removal() {
    let mut assets = vec![
        asset(1, "a", amount(2, 0), amount(1000, 2)),
        asset(2, "b", amount(3, 0), amount(15, 1)),
    ];
    assets[0].quantity = amount(4, 0);
    match dashboard(Some(&assets)) {
        Some(Page::Dashboard(d)) => assert_eq!(d.total_value, "44.50"),
        _ => panic!("expected the dashboard"),
    }
    assets.remove(0);
    match dashboard(Some(&assets)) {
        Some(Page::Dashboard(d)) => {
            assert_eq!(d.total_value, "4.50");
            assert_eq!(d.asset_count, 1);
        }
        _ => panic!("expected the dashboard"),
    }
}

#[test]
fn dashboard_of_no_assets() {
    match dashboard(Some(&Vec::new())) {
        Some(Page::Dashboard(d)) => {
            assert_eq!(d.total_value, "0.00");
            assert_eq!(d.asset_count, 0);
            assert!(d.assets.is_empty());
        }
        _ => panic!("expected the dashboard"),
    }
}

#[test]
fn dashboard_refused_on_overflow() {
    let assets = vec![asset(1, "big", amount(79228162514264337593543950335, 0), amount(10, 0))];
    assert!(dashboard(Some(&assets)).is_none());
}

#[test]
fn stored_total_defaults_to_zero() {
    assert_eq!(stored_total(None), amount(0, 0));
    assert_eq!(stored_total(Some(amount(123, 2))), amount(123, 2));
}

#[test]
fn failed_listing_goes_to_login() {
    match dashboard(None) {
        Some(Page::Redirect { location, set_cookie }) => {
            assert_eq!(location, "/login");
            assert!(set_cookie.is_none());
        }
        _ => panic!("expected a redirect"),
    }
}

#[test]
fn numbers_too_long_to_write_are_refused() {
    // 10^28 written with four places needs 34 characters
    let big = asset(1, "big", amount(10000000000000000000000000000, 0), amount(0, 0));
    assert!(!AssetView::can_show(&big));
    assert!(AssetView::try_from_asset(&big).is_none());
    assert!(dashboard(Some(&vec![big])).is_none());
    // 10^26 with four places needs 32 characters, which still fits
    let fits = asset(2, "fits", amount(100000000000000000000000000, 0), amount(0, 0));
    assert!(AssetView::can_show(&fits));
    let v = AssetView::try_from_asset(&fits).expect("view");
    assert_eq!(v.quantity, "100000000000000000000000000.0000");
    assert_eq!(v.total_value, "0.00");
}

#[test]
fn a_product_rounded_to_a_signed_zero_is_written_with_its_sign() {
    // -2^32 * 10^-28 times 10^-28 needs 56 places; rounded to 28 it is a zero that
    // keeps the minus sign
    let a = asset(1, "tiny", amount(-4294967296, 28), amount(1, 28));
    let v = a.checked_total_value().expect("value");
    assert_eq!(v.mantissa, 0);
    assert!(v.negative);
    let view = AssetView::try_from_asset(&a).expect("view");
    assert_eq!(view.total_value, "-0.00");
    assert_eq!(view.quantity, "-0.0000");
    match dashboard(Some(&vec![a])) {
        Some(Page::Dashboard(d)) => assert_eq!(d.total_value, "-0.00"),
        _ => panic!("expected the dashboard"),
    }
}

#[test]
fn stored_total_keeps_a_signed_zero() {
    let z = Amount { mantissa: 0, scale: 2, negative: true };
    assert_eq!(stored_total(Some(z)), z);
}
