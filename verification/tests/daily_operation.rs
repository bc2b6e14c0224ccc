use pendulum_kelly::daily_operation::{DailyOperationReport, DailyOperationStatus};

fn steps(r: &DailyOperationReport) -> Vec<(&str, DailyOperationStatus, &str)> {
    r.steps.iter().map(|s| (s.name.as_str(), s.status, s.message.as_str())).collect()
}

#[test]
fn a_clean_run_succeeds() {
    let mut r = DailyOperationReport::new();
    assert_eq!(r.status, DailyOperationStatus::Running);
    r.record_nav_refresh(Ok(3));
    r.record_market_refresh(Ok((5, 1, 0)));
    r.record_dca_execution(Ok((true, "今日无待执行计划或已全部执行".to_string())));
    r.record_snapshot_check(Ok(vec!["2024-02-01".to_string(), "2024-03-01".to_string(), "2024-02-15".to_string()]));
    r.record_reconciliation(Ok((0, 0)));
    r.record_verification(Ok(0));
    r.record_plan(Ok(()));
    r.finish();
    assert_eq!(r.status, DailyOperationStatus::Success);
    assert!(r.completed_at.is_some());
    assert!(r.warnings.is_empty() && r.errors.is_empty());
    assert_eq!(
        steps(&r),
        vec![
            ("刷新基金净值", DailyOperationStatus::Success, "成功刷新 3 个基金净值"),
            ("刷新市场行情", DailyOperationStatus::Success, "成功刷新 5 个标的"),
            ("执行到期定投", DailyOperationStatus::Success, "今日无待执行计划或已全部执行"),
            ("持仓对齐检查", DailyOperationStatus::Success, "发现最新支付宝快照日期: 2024-03-01"),
            ("系统一致性对账", DailyOperationStatus::Success, "数据一致，未发现问题"),
            ("数据完整性校验", DailyOperationStatus::Success, "校验通过"),
            ("生成每日执行计划", DailyOperationStatus::Success, "计划生成成功"),
        ]
    );
    assert!(r.steps.iter().all(|s| s.started_at.is_some() && s.completed_at.is_some()));
}

#[test]
fn warnings_make_a_partial_success() {
    let mut r = DailyOperationReport::new();
    r.record_market_refresh(Ok((4, 0, 2)));
    r.record_snapshot_check(Ok(vec![]));
    r.record_reconciliation(Ok((3, 1)));
    r.record_verification(Ok(2));
    r.finish();
    assert_eq!(r.status, DailyOperationStatus::PartialSuccess);
    assert_eq!(
        r.warnings,
        vec![
            "2 个市场行情刷新失败".to_string(),
            "发现 3 个一致性问题 (严重: 1)".to_string(),
            "发现 2 个数据异常".to_string(),
        ]
    );
    assert_eq!(r.steps[0].message, "刷新成功: 4, 失败: 2");
    assert_eq!(r.steps[1].status, DailyOperationStatus::Skipped);
    assert_eq!(r.steps[1].message, "未找到支付宝快照数据，跳过对齐检查");
}

#[test]
fn errors_fail_the_run() {
    let mut r = DailyOperationReport::new();
    r.record_nav_refresh(Err("timeout".to_string()));
    r.record_dca_execution(Err("no plans".to_string()));
    r.record_verification(Err("bad data".to_string()));
    r.record_plan(Err("missing cache".to_string()));
    r.finish();
    assert_eq!(r.status, DailyOperationStatus::Failed);
    assert_eq!(r.warnings, vec!["基金净值刷新失败: timeout".to_string(), "定投执行失败: no plans".to_string()]);
    assert_eq!(r.errors, vec!["计划生成失败: missing cache".to_string()]);
    assert_eq!(r.steps[2].status, DailyOperationStatus::Failed);
    assert_eq!(r.steps[2].message, "校验引擎错误: bad data");
}

#[test]
fn completing_without_a_step_changes_nothing() {
    let mut r = DailyOperationReport::new();
    r.complete_step(DailyOperationStatus::Success, "x".to_string());
    assert!(r.steps.is_empty());
    r.add_step("手动");
    assert_eq!(r.steps[0].status, DailyOperationStatus::Running);
    assert!(r.steps[0].completed_at.is_none());
    r.complete_step(DailyOperationStatus::Skipped, "done".to_string());
    assert_eq!(r.steps[0].status, DailyOperationStatus::Skipped);
    assert_eq!(r.steps[0].message, "done");
}
