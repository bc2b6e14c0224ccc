use pendulum_kelly::dca::{calculate_dca_preview, check_is_due, CalendarDate, DcaFrequency, DcaPlanTerms};
use pendulum_kelly::model::AssetConfig;
use pendulum_kelly::operation;

fn date(year: i32, month: u32, day: u32) -> CalendarDate {
    CalendarDate { year, month, day }
}

fn plan(id: &str, asset_id: &str, code: &str, frequency: DcaFrequency) -> DcaPlanTerms {
    DcaPlanTerms {
        plan_id: id.to_string(),
        asset_id: asset_id.to_string(),
        fund_code: code.to_string(),
        frequency,
        weekday: None,
        month_day: None,
        start_date: "2024-01-01".to_string(),
        end_date: None,
        enabled: true,
        priority: 0,
        amount_positive: true,
    }
}

fn asset(id: &str, code: &str) -> AssetConfig {
    let mut a = AssetConfig::default();
    a.asset_id = id.to_string();
    a.fund_code = code.to_string();
    a.enabled = true;
    a
}

#[test]
fn daily_plan_is_due_every_day() {
    let p = plan("p", "a", "000001", DcaFrequency::Daily);
    assert_eq!(check_is_due(&p, &date(2024, 1, 2)), "今日应投");
    assert_eq!(check_is_due(&p, &date(2024, 2, 29)), "今日应投");
}

#[test]
fn weekly_plan_defaults_to_monday() {
    let p = plan("p", "a", "000001", DcaFrequency::Weekly);
    // 2024-01-01 is a Monday.
    assert_eq!(check_is_due(&p, &date(2024, 1, 1)), "今日应投");
    assert_eq!(check_is_due(&p, &date(2024, 1, 2)), "未到日期");
    let mut wed = plan("p", "a", "000001", DcaFrequency::Weekly);
    wed.weekday = Some(3);
    assert_eq!(check_is_due(&wed, &date(2024, 1, 3)), "今日应投");
    assert_eq!(check_is_due(&wed, &date(2024, 1, 1)), "未到日期");
    // 2023-12-31 is a Sunday, day 7.
    let mut sun = plan("p", "a", "000001", DcaFrequency::Weekly);
    sun.weekday = Some(7);
    assert_eq!(check_is_due(&sun, &date(2023, 12, 31)), "今日应投");
}

#[test]
fn monthly_plan_defaults_to_the_first() {
    let p = plan("p", "a", "000001", DcaFrequency::Monthly);
    assert_eq!(check_is_due(&p, &date(2024, 3, 1)), "今日应投");
    assert_eq!(check_is_due(&p, &date(2024, 3, 2)), "未到日期");
    let mut mid = plan("p", "a", "000001", DcaFrequency::Monthly);
    mid.month_day = Some(15);
    assert_eq!(check_is_due(&mid, &date(2024, 3, 15)), "今日应投");
    assert_eq!(check_is_due(&mid, &date(2024, 3, 1)), "未到日期");
}

#[test]
fn due_check_on_date_text() {
    let p = plan("p", "a", "000001", DcaFrequency::Weekly);
    assert_eq!(operation::check_is_due(&p, "2024-01-01"), "今日应投");
    assert_eq!(operation::check_is_due(&p, "2024-01-05"), "未到日期");
    // Unparsable text stands for today; a daily plan is due on any day.
    let d = plan("p", "a", "000001", DcaFrequency::Daily);
    assert_eq!(operation::check_is_due(&d, "not a date"), "今日应投");
}

#[test]
fn preview_with_invalid_target_date() {
    let assets = vec![asset("a", "000001")];
    let plans = vec![plan("p", "a", "000001", DcaFrequency::Daily)];
    let r = calculate_dca_preview(&assets, &plans, "2024/01/01");
    assert!(r.entries.is_empty());
    assert_eq!(r.warnings, vec!["无效的日期格式: 2024/01/01".to_string()]);
}

#[test]
fn preview_statuses() {
    let assets = vec![asset("a", "000001"), asset("b", "000002")];
    let mut missing = plan("missing", "zzz", "000009", DcaFrequency::Daily);
    missing.start_date = "bad".to_string();
    let mut mismatch = plan("mismatch", "a", "999999", DcaFrequency::Daily);
    mismatch.start_date = String::new();
    let mut no_amount = plan("no_amount", "b", "000002", DcaFrequency::Daily);
    no_amount.amount_positive = false;
    no_amount.start_date = String::new();
    let mut disabled = plan("disabled", "a", "000001", DcaFrequency::Daily);
    disabled.enabled = false;
    let mut early = plan("early", "a", "000001", DcaFrequency::Daily);
    early.start_date = "2024-06-01".to_string();
    let mut ended = plan("ended", "a", "000001", DcaFrequency::Daily);
    ended.end_date = Some("2024-02-01".to_string());
    let due = plan("due", "a", "000001", DcaFrequency::Daily);
    let plans = vec![missing, mismatch, no_amount, disabled, early, ended, due];
    let r = calculate_dca_preview(&assets, &plans, "2024-03-01");
    assert!(r.warnings.is_empty());
    assert_eq!(r.entries.len(), 7);
    let statuses: Vec<(usize, &str)> = r.entries.iter().map(|e| (e.plan_index, e.status.as_str())).collect();
    assert_eq!(
        statuses,
        vec![
            (0, "资产不存在"),
            (1, "基金代码不一致"),
            (2, "金额无效"),
            (3, "已禁用"),
            (4, "未到日期"),
            (5, "已过结束日期"),
            (6, "今日应投"),
        ]
    );
    assert_eq!(r.entries[0].warnings, vec!["资产ID zzz 在配置中不存在".to_string()]);
    assert_eq!(r.entries[1].warnings, vec!["基金代码不一致: 计划为 999999, 配置为 000001".to_string()]);
    assert_eq!(r.entries[2].warnings, vec!["定投金额必须大于 0".to_string()]);
    assert!(r.entries[6].warnings.is_empty());
}

#[test]
fn preview_due_status_overrides_noted_problems() {
    // An enabled plan whose start date parses gets its due status even when
    // its asset is missing; the warning stays.
    let assets: Vec<AssetConfig> = Vec::new();
    let plans = vec![plan("p", "ghost", "000001", DcaFrequency::Daily)];
    let r = calculate_dca_preview(&assets, &plans, "2024-03-01");
    assert_eq!(r.entries[0].status, "今日应投");
    assert_eq!(r.entries[0].warnings, vec!["资产ID ghost 在配置中不存在".to_string()]);
}

#[test]
fn preview_orders_by_priority_stably() {
    let assets = vec![asset("a", "000001")];
    let mut plans = Vec::new();
    for (id, prio) in [("p0", 1), ("p1", 5), ("p2", 5), ("p3", 3)] {
        let mut p = plan(id, "a", "000001", DcaFrequency::Daily);
        p.priority = prio;
        plans.push(p);
    }
    // A repeated plan id is ordered by the priority of its first plan.
    let mut dup = plan("p0", "a", "000001", DcaFrequency::Daily);
    dup.priority = 9;
    plans.push(dup);
    let r = calculate_dca_preview(&assets, &plans, "2024-03-01");
    let order: Vec<usize> = r.entries.iter().map(|e| e.plan_index).collect();
    assert_eq!(order, vec![1, 2, 3, 0, 4]);
}
