use pendulum_kelly::alipay::{
    bootstrap_assets_from_holdings, find_matching_asset, local_bootstrap_action, match_alipay_holdings, HoldingIdentity,
    plan_local_bootstrap, LocalBootstrapAction, LocalBootstrapFacts,
};
use pendulum_kelly::model::AssetConfig;

fn asset(id: &str, code: &str, name: &str) -> AssetConfig {
    let mut a = AssetConfig::default();
    a.asset_id = id.to_string();
    a.fund_code = code.to_string();
    a.fund_name = name.to_string();
    a.enabled = true;
    a
}

fn holding(code: &str, name: &str) -> HoldingIdentity {
    HoldingIdentity { fund_code: code.to_string(), fund_name: name.to_string() }
}

#[test]
fn match_by_code_then_id_then_name() {
    let assets = vec![asset("nasdaq", "006327", "纳指"), asset("spx", "000001", "标普"), asset("纳指", "", "")];
    assert_eq!(find_matching_asset(&assets, "000001", ""), Some(1));
    assert_eq!(find_matching_asset(&assets, "nasdaq", ""), Some(0));
    assert_eq!(find_matching_asset(&assets, "", "标普"), Some(1));
    assert_eq!(find_matching_asset(&assets, "999999", "纳指"), Some(0));
    assert_eq!(find_matching_asset(&assets, "999999", "无"), None);
    assert_eq!(find_matching_asset(&assets, "", ""), None);
}

#[test]
fn bootstrap_creates_skips_and_fails() {
    let mut assets = vec![asset("fund_006327", "006327", "纳指")];
    let rows = vec![
        holding("006327", ""),
        holding("000001", "标普500"),
        holding("", "黄金 ETF-联接"),
        holding("", ""),
    ];
    let (created, skipped, failed) = bootstrap_assets_from_holdings(&mut assets, &rows);
    assert_eq!((created, skipped, failed), (2, 1, 1));
    assert_eq!(assets.len(), 3);
    assert_eq!(assets[1].asset_id, "fund_000001");
    assert_eq!(assets[1].sector, "未分类");
    assert_eq!(assets[1].currency, "CNY");
    assert_eq!(assets[1].valuation_method, "nav");
    assert_eq!(assets[1].market_data_provider.as_deref(), Some("eastmoney"));
    assert!(assets[1].enabled);
    assert_eq!(assets[2].asset_id, "黄金ETF联接");

    let again = bootstrap_assets_from_holdings(&mut assets, &rows);
    assert_eq!(again, (0, 3, 1));
    assert_eq!(assets.len(), 3);
}

#[test]
fn bootstrap_skips_taken_asset_id() {
    let mut assets = vec![asset("fund_1", "other", "x")];
    let r = bootstrap_assets_from_holdings(&mut assets, &[holding("1", "")]);
    assert_eq!(r, (0, 1, 0));
    assert_eq!(assets.len(), 1);
}

#[test]
fn local_bootstrap_actions() {
    let (a, w) = local_bootstrap_action(false, None, true, true);
    assert_eq!(a, LocalBootstrapAction::Skip);
    assert_eq!(w.as_deref(), Some("AssetConfig not found. Please run bootstrap-assets first."));
    let (a, w) = local_bootstrap_action(true, Some(true), true, false);
    assert_eq!(a, LocalBootstrapAction::Skip);
    assert_eq!(w.as_deref(), Some("Local holding already exists. Use --replace-existing to overwrite."));
    let (a, w) = local_bootstrap_action(true, Some(false), false, false);
    assert_eq!(a, LocalBootstrapAction::Skip);
    assert_eq!(w.as_deref(), Some("NAV not found in cache. Cannot estimate shares."));
    assert_eq!(local_bootstrap_action(true, Some(true), true, true), (LocalBootstrapAction::Replace, None));
    assert_eq!(local_bootstrap_action(true, Some(false), true, true), (LocalBootstrapAction::Create, None));
    assert_eq!(local_bootstrap_action(true, None, true, false), (LocalBootstrapAction::Create, None));
}

#[test]
fn holding_preview_matches_and_counts() {
    let assets = vec![asset("nasdaq", "006327", "纳指"), asset("spx", "000001", "标普")];
    let rows = vec![holding("006327", ""), holding("999999", "无此基金"), holding("", "标普")];
    let m = match_alipay_holdings(&assets, &rows);
    assert_eq!(m.matched, vec![Some(0), None, Some(1)]);
    assert_eq!(m.valid_rows, 2);
    assert_eq!(m.unmatched_rows, 1);
    assert_eq!(m.unmatched_warnings[0], None);
    assert_eq!(m.unmatched_warnings[1].as_deref(), Some("未找到匹配的资产配置: 999999 无此基金"));
}

fn facts(matched: bool, existing: Option<bool>, nav_known: bool, nav_positive: bool) -> LocalBootstrapFacts {
    LocalBootstrapFacts { matched, existing_units_positive: existing, nav_known, nav_positive }
}

#[test]
fn local_bootstrap_plan_lists_actions_and_written_rows() {
    let rows = vec![
        facts(false, None, true, true),
        facts(true, Some(true), true, true),
        facts(true, None, false, false),
        facts(true, Some(false), true, true),
        facts(true, None, true, false),
    ];
    let plan = plan_local_bootstrap(&rows, false);
    assert_eq!(
        plan.actions,
        vec![
            LocalBootstrapAction::Skip,
            LocalBootstrapAction::Skip,
            LocalBootstrapAction::Skip,
            LocalBootstrapAction::Create,
            LocalBootstrapAction::Create,
        ]
    );
    assert_eq!(plan.warnings[0].as_deref(), Some("AssetConfig not found. Please run bootstrap-assets first."));
    assert_eq!(plan.warnings[1].as_deref(), Some("Local holding already exists. Use --replace-existing to overwrite."));
    assert_eq!(plan.warnings[2].as_deref(), Some("NAV not found in cache. Cannot estimate shares."));
    assert_eq!(plan.warnings[3], None);
    assert_eq!(plan.written, vec![3]);
    let replacing = plan_local_bootstrap(&rows, true);
    assert_eq!(replacing.actions[1], LocalBootstrapAction::Replace);
    assert_eq!(replacing.written, vec![1, 3]);
}
