use pendulum_kelly::import::{
    commit_action, commit_plan, commit_result, import_result, preview_import, CommitAction, ImportRowFacts,
};
use pendulum_kelly::text::push_decimal;

#[test]
fn commit_actions() {
    assert_eq!(commit_action(true, true, true), CommitAction::Fail);
    assert_eq!(commit_action(true, false, false), CommitAction::Fail);
    assert_eq!(commit_action(false, true, true), CommitAction::Skip);
    assert_eq!(commit_action(false, true, false), CommitAction::Apply);
    assert_eq!(commit_action(false, false, true), CommitAction::Apply);
}

#[test]
fn import_result_message_and_success() {
    let r = import_result(3, 1, 0);
    assert!(r.success);
    assert_eq!(r.message, "导入完成: 成功 3, 跳过 1, 失败 0");
    let r = import_result(0, 12, 105);
    assert!(!r.success);
    assert_eq!((r.inserted, r.skipped, r.failed), (0, 12, 105));
    assert_eq!(r.message, "导入完成: 成功 0, 跳过 12, 失败 105");
}

#[test]
fn decimal_digits() {
    let mut s = String::from("n=");
    push_decimal(&mut s, 0);
    push_decimal(&mut s, 9070);
    assert_eq!(s, "n=09070");
    let mut m = String::new();
    push_decimal(&mut m, usize::MAX);
    assert_eq!(m, usize::MAX.to_string());
}

fn row(date: &str, t: &str, fp: &str) -> ImportRowFacts {
    ImportRowFacts {
        date: date.to_string(),
        transaction_type: t.to_string(),
        has_asset_id: true,
        amount_is_zero: false,
        fingerprint: fp.to_string(),
    }
}

#[test]
fn commit_counts_inserted_skipped_and_failed_rows() {
    let rows = vec![
        row("2026-01-01", "buy", "a"),
        row("", "buy", "b"),
        row("2026-01-02", "sell", "dup"),
        row("2026-01-03", "dividend", "c"),
    ];
    let review = preview_import(&rows, &["dup".to_string()]);
    let plan = commit_plan(&review, true);
    assert_eq!(plan, vec![CommitAction::Apply, CommitAction::Fail, CommitAction::Skip, CommitAction::Apply]);
    let keep = commit_plan(&review, false);
    assert_eq!(keep, vec![CommitAction::Apply, CommitAction::Fail, CommitAction::Apply, CommitAction::Apply]);
    let r = commit_result(&plan, &[true, false, false, false]);
    assert_eq!((r.inserted, r.skipped, r.failed), (1, 1, 2));
    assert!(!r.success);
    assert_eq!(r.message, "导入完成: 成功 1, 跳过 1, 失败 2");
    let all = commit_result(&keep, &[true, true, true, true]);
    assert_eq!((all.inserted, all.skipped, all.failed), (3, 0, 1));
    let empty = commit_result(&[], &[]);
    assert_eq!((empty.inserted, empty.skipped, empty.failed, empty.success), (0, 0, 0, true));
}
