use pendulum_kelly::enrichment::{
    apply_fund_info_to_asset, begin_fund_lookup, classify_unassigned_assets, finish_fund_lookup,
    infer_sector_from_text, is_asset_archived, sector_from_rules, FundLookupStart, NavStatus,
};
use pendulum_kelly::model::{AssetConfig, FundInfo};

fn asset(id: &str, code: &str, name: &str, sector: &str) -> AssetConfig {
    let mut a = AssetConfig::default();
    a.asset_id = id.to_string();
    a.fund_code = code.to_string();
    a.fund_name = name.to_string();
    a.sector = sector.to_string();
    a.enabled = true;
    a
}

#[test]
fn infer_sector_by_name_rules() {
    assert_eq!(infer_sector_from_text("纳斯达克100指数", "", "").as_deref(), Some("美国科技"));
    assert_eq!(infer_sector_from_text("Nasdaq Tech", "", "").as_deref(), Some("美国科技"));
    assert_eq!(infer_sector_from_text("标普500ETF联接", "", "").as_deref(), Some("美国大盘"));
    assert_eq!(infer_sector_from_text("创新药指数", "", "").as_deref(), Some("生物科技"));
    assert_eq!(infer_sector_from_text("日经225", "", "").as_deref(), Some("日本"));
    assert_eq!(infer_sector_from_text("Vietnam Fund", "", "").as_deref(), Some("越南"));
    assert_eq!(infer_sector_from_text("印度基金", "", "").as_deref(), Some("印度"));
    assert_eq!(infer_sector_from_text("某基金", "", " 000216 ").as_deref(), Some("黄金"));
    assert_eq!(infer_sector_from_text("稳健收益", "债券型", "").as_deref(), Some("债券"));
    assert_eq!(infer_sector_from_text("德国DAX", "", "").as_deref(), Some("欧洲"));
    assert_eq!(infer_sector_from_text("抗通胀主题", "", "").as_deref(), Some("商品"));
    assert_eq!(infer_sector_from_text("沪深300", "", "").as_deref(), Some("A股"));
    assert_eq!(infer_sector_from_text("余额宝", "货币型", "").as_deref(), Some("货币基金"));
    assert_eq!(infer_sector_from_text("unknown", "", ""), None);
}

#[test]
fn infer_sector_first_rule_wins() {
    // "gold" and "bond" both appear: the gold rule comes first.
    assert_eq!(infer_sector_from_text("Gold Bond", "", "").as_deref(), Some("黄金"));
}

#[test]
fn archived_assets() {
    let mut a = asset("a", "1", "x", "美国科技");
    assert!(!is_asset_archived(&a));
    a.sector = "美国科技(已归档)".to_string();
    assert!(is_asset_archived(&a));
    let mut b = asset("b", "2", "y", "债券");
    b.enabled = false;
    assert!(is_asset_archived(&b));
}

#[test]
fn classify_assigns_or_marks_pending() {
    let mut assets = vec![
        asset("a", "1", "纳斯达克100", ""),
        asset("b", "2", "未知基金", "未分类"),
        asset("c", "3", "黄金ETF", "商品"),
        asset("d", "4", "未知", "待确认"),
    ];
    let changed = classify_unassigned_assets(&mut assets);
    assert_eq!(changed, 2);
    assert_eq!(assets[0].sector, "美国科技");
    assert_eq!(assets[1].sector, "待确认");
    assert_eq!(assets[2].sector, "商品");
    assert_eq!(assets[3].sector, "待确认");
}

#[test]
fn apply_fund_info_fills_fields() {
    let mut a = asset("a", "", "旧名", "");
    let info = FundInfo {
        fund_code: "006327".to_string(),
        fund_name: "纳斯达克100基金".to_string(),
        fund_type: "QDII".to_string(),
        currency: "USD".to_string(),
        source: "eastmoney".to_string(),
    };
    let nav = NavStatus { nav_date: "2026-05-22".to_string(), is_stale: true };
    let r = apply_fund_info_to_asset(&mut a, &info, Some(&nav));
    assert_eq!(
        r.changed_fields,
        vec!["fund_name", "fund_code", "currency", "sector", "market_data_provider"]
    );
    assert_eq!(r.warnings, vec!["净值可能过期 (日期 2026-05-22)".to_string()]);
    assert_eq!(a.fund_name, "纳斯达克100基金");
    assert_eq!(a.fund_code, "006327");
    assert_eq!(a.currency, "USD");
    assert_eq!(a.sector, "美国科技");
    assert_eq!(a.market_data_provider.as_deref(), Some("eastmoney"));

    let again = apply_fund_info_to_asset(&mut a, &info, None);
    assert!(again.changed_fields.is_empty());
    assert!(again.warnings.is_empty());
}

#[test]
fn fund_lookup_refuses_an_empty_code() {
    match begin_fund_lookup("   ") {
        FundLookupStart::Refused(r) => {
            assert!(!r.success);
            assert_eq!(r.message.as_deref(), Some("基金代码不能为空"));
        }
        FundLookupStart::Search(_) => panic!("an empty code is not searched"),
    }
    match begin_fund_lookup(" 006327 ") {
        FundLookupStart::Search(c) => assert_eq!(c, "006327"),
        FundLookupStart::Refused(_) => panic!("a code is searched"),
    }
}

#[test]
fn fund_lookup_results() {
    let info = FundInfo {
        fund_code: "006327".to_string(),
        fund_name: "纳斯达克100基金".to_string(),
        fund_type: "QDII".to_string(),
        currency: "CNY".to_string(),
        source: "mock".to_string(),
    };
    let r = finish_fund_lookup("006327", Ok(info), Err("timeout".to_string()));
    assert!(r.success);
    assert_eq!(r.inferred_sector.as_deref(), Some("美国科技"));
    assert_eq!(r.nav_date, None);
    assert_eq!(r.warnings, vec!["净值获取失败: timeout".to_string(), "当前使用模拟基金数据源".to_string()]);
    let r = finish_fund_lookup("999999", Err("Fund not found for code: 999999".to_string()), Err(String::new()));
    assert!(!r.success);
    assert_eq!(r.fund_code, "999999");
    assert_eq!(r.warnings, vec!["Fund not found for code: 999999".to_string()]);
    assert_eq!(r.message.as_deref(), Some("基金查询失败: Fund not found for code: 999999"));
}

#[test]
fn classify_counts_nothing_when_nothing_changes() {
    let mut assets = vec![asset("x", "", "某基金", "待确认")];
    assert_eq!(classify_unassigned_assets(&mut assets), 0);
    assert_eq!(assets[0].sector, "待确认");
}

#[test]
fn sector_rules_on_lowercased_text() {
    assert_eq!(sector_from_rules("纳斯达克100", "", "x").as_deref(), Some("美国科技"));
    assert_eq!(sector_from_rules("某基金", "", "000216").as_deref(), Some("黄金"));
    assert_eq!(sector_from_rules("稳健", "货币型", "").as_deref(), Some("货币基金"));
    assert_eq!(sector_from_rules("稳健", "债券型", "").as_deref(), Some("债券"));
    // Upper case is not folded here: the caller lower-cases first.
    assert_eq!(sector_from_rules("NASDAQ", "", "").as_deref(), None);
    assert_eq!(sector_from_rules("nasdaq", "", "").as_deref(), Some("美国科技"));
    assert_eq!(sector_from_rules("plain", "", " 000216 ").as_deref(), None);
}
