use pendulum_kelly::error::AppError;
use pendulum_kelly::import::{preview_import, ImportRowFacts};
use pendulum_kelly::model::{AssetClass, InstrumentConfig};
use pendulum_kelly::providers::{
    create_fund_provider, create_fx_provider, create_instrument_provider, create_market_provider,
    plan_instrument_validation, plan_market_price_fetch, resolve_instrument, ApiConfig, FundProviderKind,
    FxConfig, FxProviderKind, GenericHttpFundProvider, InstrumentProviderKind, MarketConfig,
    MarketProviderKind, MockFundProvider,
};
use pendulum_kelly::reconciliation::{generate_calibration_suggestion, ReconciliationOutcome};
use pendulum_kelly::report::{render_report_to_markdown, ReportContent, ReportSection};
use pendulum_kelly::verification::{
    DataVerificationReport, VerificationIssue, VerificationSeverity, VerificationSummary,
};

fn market(default: &str) -> MarketConfig {
    MarketConfig {
        default_market_provider: default.to_string(),
        market_provider_timeout_seconds: 15,
        allow_mock_market_fallback: true,
        market_cache_stale_hours: 24,
    }
}

fn instrument(id: &str, sym: &str, provider: &str, enabled: bool) -> InstrumentConfig {
    InstrumentConfig {
        instrument_id: id.to_string(),
        symbol: sym.to_string(),
        display_symbol: None,
        name: sym.to_string(),
        name_zh: None,
        name_en: None,
        description_zh: None,
        category_zh: None,
        display_label: None,
        asset_class: AssetClass::Etf,
        provider: provider.to_string(),
        provider_symbol: sym.to_string(),
        market: None,
        exchange: None,
        currency: "USD".to_string(),
        quote_unit: "1".to_string(),
        price_unit: "1".to_string(),
        timezone: None,
        enabled,
        archived: false,
        priority: 0,
        tags: vec![],
        note: None,
    }
}

#[test]
fn fund_provider_selection() {
    let mut api = ApiConfig {
        default_fund_provider: "eastmoney".to_string(),
        fund_provider_timeout_seconds: 10,
        fund_provider_retry_count: 3,
        allow_mock_fallback: false,
        fund_nav_stale_days: 3,
    };
    assert_eq!(create_fund_provider(&api), FundProviderKind::EastMoney { timeout: 10 });
    api.default_fund_provider = "generic_http".to_string();
    assert_eq!(create_fund_provider(&api), FundProviderKind::GenericHttp { timeout: 10, retry: 3 });
    api.default_fund_provider = "other".to_string();
    assert_eq!(create_fund_provider(&api), FundProviderKind::Mock);
}

#[test]
fn market_and_fx_provider_selection() {
    let cfg = market("yahoo");
    assert_eq!(create_market_provider(&cfg, None), MarketProviderKind::Yahoo { timeout: 15 });
    assert_eq!(create_market_provider(&cfg, Some("eastmoney")), MarketProviderKind::EastMoney { timeout: 15 });
    assert_eq!(create_market_provider(&cfg, Some("nope")), MarketProviderKind::Mock);
    let fx = FxConfig {
        default_fx_provider: "yahoo".to_string(),
        allow_mock_fx_fallback: true,
        fx_cache_stale_hours: 12,
        usd_cnh_symbol: "USDCNH=X".to_string(),
    };
    assert_eq!(create_fx_provider(&fx, None), FxProviderKind::Yahoo { timeout: 20 });
    assert_eq!(create_fx_provider(&fx, Some("mock")), FxProviderKind::Mock);
}

#[test]
fn instrument_provider_selection() {
    let cfg = market("mock");
    assert!(matches!(create_instrument_provider(&cfg, None), InstrumentProviderKind::Mock));
    assert!(matches!(create_instrument_provider(&cfg, Some("manual")), InstrumentProviderKind::Manual));
    match create_instrument_provider(&cfg, Some("sina")) {
        InstrumentProviderKind::Unsupported { name } => assert_eq!(name, "sina"),
        other => panic!("unexpected {:?}", other),
    }
}

#[test]
fn market_price_fetch_plan() {
    let cfg = market("mock");
    let req = plan_market_price_fetch(&cfg, "  Yahoo ", " QQQ ").unwrap();
    assert_eq!(req.symbol, "QQQ");
    assert_eq!(req.provider, MarketProviderKind::Yahoo { timeout: 15 });
    let err = plan_market_price_fetch(&cfg, "yahoo", "   ").unwrap_err();
    assert_eq!(err.message(), "provider_symbol 为空");
}

#[test]
fn resolve_and_validate_instruments() {
    let cfg = market("yahoo");
    let list = vec![
        instrument("nasdaq_qqq", "QQQ", "yahoo", true),
        instrument("au9999", "AU9999", "eastmoney", false),
        instrument("spy", "SPY", "manual", true),
    ];
    let req = resolve_instrument(&cfg, &list, "QQQ").unwrap();
    assert_eq!(req.index, 0);
    assert!(matches!(req.provider, InstrumentProviderKind::Yahoo { timeout: 15 }));
    let err = resolve_instrument(&cfg, &list, "au9999").unwrap_err();
    assert_eq!(err.message(), "Instrument is disabled: au9999");
    let err = resolve_instrument(&cfg, &list, "XYZ").unwrap_err();
    assert!(matches!(err, AppError::ApiError(_)));
    assert_eq!(err.message(), "Instrument not found: XYZ");
    let plan = plan_instrument_validation(&cfg, &list);
    let indices: Vec<usize> = plan.iter().map(|r| r.index).collect();
    assert_eq!(indices, vec![0, 2]);
    assert!(matches!(plan[1].provider, InstrumentProviderKind::Manual));
}

#[test]
fn mock_fund_lookup() {
    let p = MockFundProvider::new();
    let f = p.search_fund_by_code("006327").unwrap();
    assert_eq!(f.fund_name, "纳斯达克100基金");
    assert_eq!(f.fund_type, "QDII");
    assert_eq!(f.source, "mock");
    let f = p.search_fund_by_code("000001").unwrap();
    assert_eq!(f.fund_name, "标普500基金");
    let e = p.search_fund_by_code("123").unwrap_err();
    assert_eq!(e.message(), "Fund not found for code: 123");
    let g = GenericHttpFundProvider::new(5, 2);
    assert_eq!((g.timeout, g.retry), (5, 2));
    assert_eq!(
        g.search_fund_by_code("1").unwrap_err().message(),
        "HTTP provider not fully implemented for code: 1"
    );
}

#[test]
fn markdown_report() {
    let report = ReportContent {
        title: "日报".to_string(),
        start_date: "2026-06-01".to_string(),
        end_date: "2026-06-02".to_string(),
        generated_at: "2026-06-02 10:00:00".to_string(),
        warnings: vec!["数据过期".to_string()],
        pending_actions: vec![],
        sections: vec![ReportSection {
            title: "组合概览".to_string(),
            status: "正常".to_string(),
            summary: "一切正常。".to_string(),
            details: vec!["a".to_string(), "b".to_string()],
            warnings: vec![],
            suggested_actions: vec![],
        }],
    };
    let md = render_report_to_markdown(&report);
    let expected = "# 日报\n\n* 周期: 2026-06-01 至 2026-06-02\n* 生成时间: 2026-06-02 10:00:00\n\n## ⚠️ 警告\n\n* 数据过期\n\n## 组合概览\n\n状态: **正常**\n\n一切正常。\n\n### 详细信息\n\n* a\n* b\n\n---\n*本报告由 JDI Portfolio 自动生成*\n";
    assert_eq!(md, expected);
}

#[test]
fn markdown_pending_actions() {
    let report = ReportContent {
        title: "T".to_string(),
        start_date: "s".to_string(),
        end_date: "e".to_string(),
        generated_at: "g".to_string(),
        warnings: vec![],
        pending_actions: vec!["校准".to_string()],
        sections: vec![],
    };
    let md = render_report_to_markdown(&report);
    assert_eq!(md, "# T\n\n* 周期: s 至 e\n* 生成时间: g\n\n## 📋 待处理事项\n\n* [ ] 校准\n\n---\n*本报告由 JDI Portfolio 自动生成*\n");
}

#[test]
fn calibration_suggestions() {
    let mut r = ReconciliationOutcome {
        snapshot_id: "snap".to_string(),
        asset_id: "a".to_string(),
        fund_code: "1".to_string(),
        snapshot_date: "2026-06-01".to_string(),
        status: "一致".to_string(),
    };
    assert!(generate_calibration_suggestion(&r).is_none());
    r.status = "份额不一致".to_string();
    let s = generate_calibration_suggestion(&r).unwrap();
    assert_eq!(s.risk_level, "高");
    assert_eq!(s.reason, "基于支付宝快照 2026-06-01 的校准");
    r.status = "成本不一致".to_string();
    assert_eq!(generate_calibration_suggestion(&r).unwrap().risk_level, "低");
    r.status = "缺少系统持仓".to_string();
    assert_eq!(generate_calibration_suggestion(&r).unwrap().risk_level, "中");
}

#[test]
fn import_review_counts() {
    let rows = vec![
        ImportRowFacts { date: "2026-01-01".to_string(), transaction_type: "buy".to_string(), has_asset_id: true, amount_is_zero: false, fingerprint: "fp1".to_string() },
        ImportRowFacts { date: "".to_string(), transaction_type: "swap".to_string(), has_asset_id: false, amount_is_zero: false, fingerprint: "fp2".to_string() },
        ImportRowFacts { date: "2026-01-02".to_string(), transaction_type: "sell".to_string(), has_asset_id: false, amount_is_zero: true, fingerprint: "fp3".to_string() },
    ];
    let existing = vec!["fp9".to_string(), "fp2".to_string()];
    let r = preview_import(&rows, &existing);
    assert_eq!(r.duplicates, vec![false, true, false]);
    assert!(r.errors[0].is_empty());
    assert_eq!(r.errors[1], vec!["日期不能为空 (Date cannot be empty)".to_string(), "未知交易类型 (Unknown type): swap".to_string()]);
    assert_eq!(r.errors[2], vec!["买卖交易缺少资产ID (Asset ID missing for buy/sell)".to_string()]);
    assert_eq!(r.warnings[2], vec!["交易金额为0 (Amount is 0 for buy/sell)".to_string()]);
    let s = &r.summary;
    assert_eq!((s.total_rows, s.valid_rows, s.error_rows, s.warning_rows, s.duplicate_rows, s.new_rows), (3, 1, 2, 1, 1, 2));
    let none = preview_import(&rows, &[]);
    assert_eq!(none.duplicates, vec![false, false, false]);
    assert_eq!((none.summary.duplicate_rows, none.summary.new_rows), (0, 3));
}

#[test]
fn verification_tally() {
    let issue = |sev| VerificationIssue {
        severity: sev,
        domain: "Transaction".to_string(),
        message: "m".to_string(),
        affected_records: vec![],
    };
    let mut report = DataVerificationReport {
        summary: VerificationSummary::default(),
        issues: vec![issue(VerificationSeverity::Error), issue(VerificationSeverity::Warning), issue(VerificationSeverity::Info), issue(VerificationSeverity::Error)],
        portfolio_id: "p".to_string(),
    };
    report.summary.total_checks = 7;
    report.tally_issues();
    assert_eq!(report.summary.errors, 2);
    assert_eq!(report.summary.warnings, 1);
    assert_eq!(report.summary.total_checks, 7);
}
