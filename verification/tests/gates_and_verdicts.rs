use pendulum_kelly::daily_plan::{
    apply_execution_gates, assemble_plan_items, DailyPlanGates, GateInput, PlanAdjustedItem, PlanDcaItem,
    PlanReconciliation,
};
use pendulum_kelly::model::AssetConfig;
use pendulum_kelly::reconciliation::{reconciliation_verdict, ReconciliationFacts};

fn facts() -> ReconciliationFacts {
    ReconciliationFacts {
        market_value_out_of_tolerance: false,
        market_value_diff_above_one_percent: false,
        units_mismatch: None,
        cost_basis_mismatch: None,
        nav_date_diff: None,
        has_holding: true,
    }
}

#[test]
fn verdict_consistent() {
    let v = reconciliation_verdict(&facts());
    assert_eq!((v.status.as_str(), v.suggested_action.as_str(), v.needs_calibration), ("一致", "无", false));
}

#[test]
fn verdict_market_value_and_nav_date() {
    let mut f = facts();
    f.market_value_out_of_tolerance = true;
    let v = reconciliation_verdict(&f);
    assert_eq!((v.status.as_str(), v.suggested_action.as_str()), ("小幅差异", "核对交易记录"));
    f.market_value_diff_above_one_percent = true;
    assert_eq!(reconciliation_verdict(&f).status, "明显差异");
    let mut g = facts();
    g.nav_date_diff = Some(2);
    assert_eq!(reconciliation_verdict(&g).status, "净值日期不一致");
}

#[test]
fn verdict_cost_and_units() {
    let mut f = facts();
    f.market_value_out_of_tolerance = true;
    f.cost_basis_mismatch = Some(true);
    let v = reconciliation_verdict(&f);
    assert_eq!((v.status.as_str(), v.suggested_action.as_str(), v.needs_calibration), ("成本不一致", "校准成本价格", true));
    f.market_value_diff_above_one_percent = true;
    let v = reconciliation_verdict(&f);
    assert_eq!((v.status.as_str(), v.suggested_action.as_str()), ("需要校准", "校准成本价格"));
    f.units_mismatch = Some(true);
    let v = reconciliation_verdict(&f);
    assert_eq!((v.status.as_str(), v.suggested_action.as_str()), ("份额不一致", "校准持仓份额"));
}

#[test]
fn verdict_missing_holding() {
    let mut f = facts();
    f.has_holding = false;
    f.units_mismatch = Some(true);
    let v = reconciliation_verdict(&f);
    assert_eq!((v.status.as_str(), v.suggested_action.as_str(), v.needs_calibration), ("缺少系统持仓", "初始化持仓", true));
}

fn gates(all: bool) -> DailyPlanGates {
    DailyPlanGates {
        include_reconciliation_gate: true,
        pause_on_reconciliation_mismatch: all,
        pause_on_missing_reconciliation: all,
        pause_on_mock_data: all,
    }
}

fn input(recon: &str, risk: &str, adjusted: Option<&str>) -> GateInput {
    GateInput {
        reconciliation_status: recon.to_string(),
        global_risk_label: risk.to_string(),
        adjusted_status: adjusted.map(|s| s.to_string()),
        status: "今日应执行".to_string(),
    }
}

#[test]
fn gates_pass_clean_item() {
    let r = apply_execution_gates(&gates(true), &input("一致", "中等风险", Some("正常")));
    assert!(!r.paused);
    assert_eq!(r.status, "今日应执行");
    assert!(r.warnings.is_empty());
}

#[test]
fn gates_pause_on_mismatch_and_missing() {
    let r = apply_execution_gates(&gates(true), &input("份额不一致", "低风险", None));
    assert!(r.paused);
    assert_eq!(r.status, "等待对账");
    let r = apply_execution_gates(&gates(false), &input("未知", "低风险", None));
    assert!(!r.paused);
    assert_eq!(r.warnings, vec!["缺少支付宝快照，建议执行前核对。".to_string()]);
}

#[test]
fn gates_extreme_risk_and_mock_data() {
    let r = apply_execution_gates(&gates(true), &input("一致", "极高风险", Some("使用模拟数据")));
    assert!(r.paused);
    assert_eq!(r.status, "数据不足");
    assert_eq!(r.warnings.len(), 2);
    let r = apply_execution_gates(&gates(false), &input("一致", "极高风险", Some("使用模拟数据")));
    assert!(r.paused);
    assert_eq!(r.status, "暂停执行");
}

fn dca(id: &str, status: &str) -> PlanDcaItem {
    PlanDcaItem {
        asset_id: id.to_string(),
        fund_code: format!("c_{}", id),
        fund_name: format!("dca {}", id),
        status: status.to_string(),
    }
}

fn adj(id: &str, buys: bool) -> PlanAdjustedItem {
    PlanAdjustedItem {
        asset_id: id.to_string(),
        fund_code: format!("a_{}", id),
        fund_name: format!("adj {}", id),
        sector: "调整赛道".to_string(),
        buys,
    }
}

#[test]
fn plan_items_merge_dca_and_adjusted_buys() {
    let mut asset_b = AssetConfig::default();
    asset_b.asset_id = "b".to_string();
    asset_b.sector = "科技".to_string();
    let assets = vec![asset_b];
    let dcas = vec![dca("c", "未到日期"), dca("b", "今日应投"), dca("d", "今日应投"), dca("b", "今日应投")];
    let adjs = vec![adj("b", true), adj("a", true), adj("e", false), adj("a", true)];
    let recons = vec![
        PlanReconciliation { asset_id: "b".to_string(), status: "明显差异".to_string(), warnings: vec!["x".to_string(), "y".to_string()] },
        PlanReconciliation { asset_id: "b".to_string(), status: "一致".to_string(), warnings: vec![] },
        PlanReconciliation { asset_id: "a".to_string(), status: "小幅差异".to_string(), warnings: vec!["z".to_string()] },
    ];
    let items = assemble_plan_items(&assets, &dcas, &adjs, &recons);
    let got: Vec<(&str, &str, &str, &str, &str, Option<&str>)> = items
        .iter()
        .map(|i| {
            (
                i.asset_id.as_str(),
                i.fund_code.as_str(),
                i.sector.as_str(),
                i.source.as_str(),
                i.reconciliation_status.as_str(),
                i.reconciliation_warning.as_deref(),
            )
        })
        .collect();
    assert_eq!(
        got,
        vec![
            ("a", "a_a", "调整赛道", "风险调整", "小幅差异", Some("z")),
            ("b", "c_b", "科技", "DCA+风险调整", "一致", Some("x; y")),
            ("d", "c_d", "", "DCA", "未知", None),
        ]
    );
}
