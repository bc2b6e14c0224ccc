use pendulum_kelly::model::{AssetClass, AssetConfig, InstrumentConfig};
use pendulum_kelly::refresh::plan_market_refresh;

fn instrument(id: &str, sym: &str, provider: &str, provider_symbol: &str, enabled: bool) -> InstrumentConfig {
    InstrumentConfig {
        instrument_id: id.to_string(),
        symbol: sym.to_string(),
        display_symbol: None,
        name: sym.to_string(),
        name_zh: None,
        name_en: None,
        description_zh: None,
        category_zh: None,
        display_label: None,
        asset_class: AssetClass::Etf,
        provider: provider.to_string(),
        provider_symbol: provider_symbol.to_string(),
        market: None,
        exchange: None,
        currency: "USD".to_string(),
        quote_unit: "1".to_string(),
        price_unit: "1".to_string(),
        timezone: None,
        enabled,
        archived: false,
        priority: 0,
        tags: vec![],
        note: None,
    }
}

fn asset(id: &str, enabled: bool, inst_sym: Option<&str>, index_sym: Option<&str>) -> AssetConfig {
    let mut a = AssetConfig::default();
    a.asset_id = id.to_string();
    a.enabled = enabled;
    a.reference_instrument_symbol = inst_sym.map(|s| s.to_string());
    a.reference_index_symbol = index_sym.map(|s| s.to_string());
    a
}

fn triple(a: &str, b: &str, c: &str) -> (String, String, String) {
    (a.to_string(), b.to_string(), c.to_string())
}

#[test]
fn plan_lists_watchlist_then_other_symbols() {
    let assets = vec![
        asset("nasdaq", true, Some("QQQ"), Some("^NDX")),
        asset("held1", false, Some("OLD"), Some("HSI")),
    ];
    let risk = vec!["^VIX".to_string(), "^TYX".to_string(), "".to_string()];
    let mut instruments = vec![
        instrument("a", "QQQ", "yahoo", "QQQ", true),
        instrument("b", "AU9999", "eastmoney", "118.AU9999", true),
        instrument("c", "OLD", "eastmoney", "", false),
    ];
    let held = vec!["held1".to_string(), "unknown".to_string()];
    let plan = plan_market_refresh(&assets, &risk, "CNH=X", &mut instruments, &held);
    assert_eq!(
        plan,
        vec![
            triple("QQQ", "yahoo", "QQQ"),
            triple("AU9999", "eastmoney", "118.AU9999"),
            triple("^NDX", "yahoo", "^NDX"),
            triple("^VIX", "yahoo", "^VIX"),
            triple("^TYX", "yahoo", "^TYX"),
            triple("CNH=X", "yahoo", "CNH=X"),
            triple("OLD", "eastmoney", "OLD"),
            triple("HSI", "yahoo", "HSI"),
        ]
    );
}

#[test]
fn plan_skips_archived_instruments_and_repeats() {
    let mut archived = instrument("a", "SPY", "yahoo", "SPY", true);
    archived.archived = true;
    let mut instruments = vec![archived];
    let risk = vec!["SPY".to_string(), "SPY".to_string()];
    let plan = plan_market_refresh(&[], &risk, "", &mut instruments, &[]);
    // The archived entry is not fetched as a watchlist row, but its provider
    // is still used for a symbol that another setting asks for.
    assert_eq!(plan, vec![triple("SPY", "yahoo", "SPY")]);
}

#[test]
fn plan_is_empty_when_nothing_is_asked() {
    let plan = plan_market_refresh(&[], &[], "", &mut Vec::new(), &[]);
    assert!(plan.is_empty());
}

#[test]
fn plan_uses_the_migrated_gold_provider() {
    let mut instruments = vec![instrument("gold", "AU9999", "yahoo", "AU9999", true)];
    let plan = plan_market_refresh(&[], &["AU9999".to_string()], "", &mut instruments, &[]);
    assert_eq!(plan, vec![triple("AU9999", "eastmoney", "118.AU9999")]);
    assert_eq!(instruments[0].provider, "eastmoney");
    assert_eq!(instruments[0].provider_symbol, "118.AU9999");
    assert_eq!(instruments[0].currency, "CNY");
}
