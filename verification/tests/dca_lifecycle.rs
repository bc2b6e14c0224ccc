use pendulum_kelly::dca::{DcaFrequency, DcaPlanTerms};
use pendulum_kelly::dca_lifecycle::{calculate_dca_lifecycle, SettlementRecord, SnapshotRecord};
use pendulum_kelly::model::AssetConfig;

fn asset(id: &str, enabled: bool) -> AssetConfig {
    let mut a = AssetConfig::default();
    a.asset_id = id.to_string();
    a.fund_code = format!("code_{}", id);
    a.enabled = enabled;
    a
}

fn daily_plan(id: &str, asset_id: &str) -> DcaPlanTerms {
    DcaPlanTerms {
        plan_id: id.to_string(),
        asset_id: asset_id.to_string(),
        fund_code: format!("code_{}", asset_id),
        frequency: DcaFrequency::Daily,
        weekday: None,
        month_day: None,
        start_date: "2024-01-01".to_string(),
        end_date: None,
        enabled: true,
        priority: 0,
        amount_positive: true,
    }
}

fn settlement(id: &str, asset_id: &str, scheduled: Option<&str>, deducted: &str, applied: bool) -> SettlementRecord {
    SettlementRecord {
        settlement_id: id.to_string(),
        asset_id: asset_id.to_string(),
        scheduled_date: scheduled.map(|s| s.to_string()),
        deduction_date: deducted.to_string(),
        applied,
    }
}

fn snapshot(id: &str, asset_id: &str, date: &str, status: &str) -> SnapshotRecord {
    SnapshotRecord {
        snapshot_id: id.to_string(),
        asset_id: asset_id.to_string(),
        snapshot_date: date.to_string(),
        reconciliation_status: status.to_string(),
    }
}

#[test]
fn lifecycle_statuses_and_counters() {
    let assets = vec![
        asset("b", true),
        asset("a", true),
        asset("a", false),
        asset("c", false),
        asset("d", true),
        asset("e", true),
    ];
    let plans = vec![daily_plan("pa", "a"), daily_plan("pb", "b")];
    let settlements = vec![
        settlement("s_old", "a", None, "2024-02-01", false),
        settlement("s_a", "a", Some("2024-03-01"), "2024-03-04", true),
        settlement("s_c", "c", None, "2024-03-01", false),
    ];
    let snapshots = vec![
        snapshot("a1", "a", "2024-02-01", "明显差异"),
        snapshot("a2", "a", "2024-02-15", "一致"),
        snapshot("e1", "e", "2024-02-20", "小幅差异"),
        snapshot("e2", "e", "2024-02-20", "份额不一致"),
    ];
    let holdings = vec!["a".to_string(), "d".to_string(), "e".to_string()];
    let r = calculate_dca_lifecycle(&assets, &plans, &settlements, &snapshots, &holdings, "2024-03-01");

    let rows: Vec<(usize, &str, &str, &str)> = r
        .items
        .iter()
        .map(|i| {
            (
                i.asset_index,
                i.lifecycle_status.as_str(),
                i.suggested_next_action.as_str(),
                i.reconciliation_status.as_str(),
            )
        })
        .collect();
    assert_eq!(
        rows,
        vec![
            (1, "对账一致", "无需处理", "一致"),
            (0, "今日应定投", "录入定投确认", "未知"),
            (3, "已暂停", "无需处理", "未知"),
            (4, "等待支付宝快照", "录入支付宝快照", "未知"),
            (5, "对账明显差异", "需要人工处理", "份额不一致"),
        ]
    );
    assert_eq!(r.items[0].plan_index, Some(0));
    assert_eq!(r.items[0].settlement_index, Some(1));
    assert_eq!(r.items[0].snapshot_index, Some(1));
    assert_eq!(r.items[2].settlement_index, Some(2));
    assert_eq!(r.items[4].snapshot_index, Some(3));
    assert_eq!(r.count_due, 2);
    assert_eq!(r.count_waiting_confirmation, 1);
    assert_eq!(r.count_unapplied, 1);
    assert_eq!(r.count_reconciled, 1);
    assert_eq!(r.count_attention_required, 1);
}

#[test]
fn lifecycle_with_unparsable_date_has_no_plans() {
    let assets = vec![asset("a", true)];
    let plans = vec![daily_plan("pa", "a")];
    let r = calculate_dca_lifecycle(&assets, &plans, &[], &[], &[], "03/01/2024");
    assert_eq!(r.items.len(), 1);
    assert_eq!(r.items[0].plan_index, None);
    assert_eq!(r.items[0].lifecycle_status, "无计划");
    assert_eq!(r.count_due, 0);
}

#[test]
fn lifecycle_unapplied_settlement_and_small_difference() {
    let assets = vec![asset("x", true), asset("y", true)];
    let plans = vec![daily_plan("px", "x")];
    let settlements = vec![settlement("s_x", "x", None, "2024-03-01", false)];
    let snapshots = vec![snapshot("y1", "y", "2024-02-28", "小幅差异")];
    let holdings = vec!["y".to_string()];
    let r = calculate_dca_lifecycle(&assets, &plans, &settlements, &snapshots, &holdings, "2024-03-01");
    assert_eq!(r.items[0].lifecycle_status, "已确认未入账");
    assert_eq!(r.items[0].suggested_next_action, "执行定投确认入账");
    assert_eq!(r.items[1].lifecycle_status, "对账小幅差异");
    assert_eq!(r.items[1].suggested_next_action, "先处理对账差异");
    assert_eq!(r.count_due, 1);
    assert_eq!(r.count_waiting_confirmation, 0);
    assert_eq!(r.count_unapplied, 1);
}
