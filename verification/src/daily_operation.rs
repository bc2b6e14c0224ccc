//! The daily operation: its log of steps, what each step's outcome records,
//! and the status of the run as a whole. The steps themselves (refreshes,
//! DCA execution, loading snapshots, reconciliation, data checks, the daily
//! plan) are carried out by the caller, which hands each outcome back here.

use vstd::prelude::*;
use crate::clock::{is_date_text, is_date_time_text, local_now_text};
use crate::model::{opt_view, strings_view};
use crate::text::{decimal, owned, push_decimal, push_str};
use crate::watchlist::{seq_lt, str_less};

verus! {

/// The status of a step or of the whole run.
#[derive(Clone, Copy, Debug, PartialEq, Eq, Structural)]
pub enum DailyOperationStatus {
    Running,
    Success,
    PartialSuccess,
    Failed,
    Skipped,
}

/// One step of the run.
#[derive(Debug)]
pub struct DailyOperationStep {
    pub name: String,
    pub status: DailyOperationStatus,
    pub message: String,
    pub started_at: Option<String>,
    pub completed_at: Option<String>,
}

/// A step as mathematical values.
pub struct StepView {
    pub name: Seq<char>,
    pub status: DailyOperationStatus,
    pub message: Seq<char>,
    pub started_at: Option<Seq<char>>,
    pub completed_at: Option<Seq<char>>,
}

impl View for DailyOperationStep {
    type V = StepView;

    open spec fn view(&self) -> StepView {
        StepView {
            name: self.name@,
            status: self.status,
            message: self.message@,
            started_at: opt_view(self.started_at),
            completed_at: opt_view(self.completed_at),
        }
    }
}

/// The log of a daily operation run.
#[derive(Debug)]
pub struct DailyOperationReport {
    pub date: String,
    pub started_at: String,
    pub completed_at: Option<String>,
    pub status: DailyOperationStatus,
    pub steps: Vec<DailyOperationStep>,
    pub warnings: Vec<String>,
    pub errors: Vec<String>,
}

/// A run's log as mathematical values.
pub struct ReportView {
    pub date: Seq<char>,
    pub started_at: Seq<char>,
    pub completed_at: Option<Seq<char>>,
    pub status: DailyOperationStatus,
    pub steps: Seq<StepView>,
    pub warnings: Seq<Seq<char>>,
    pub errors: Seq<Seq<char>>,
}

impl View for DailyOperationReport {
    type V = ReportView;

    open spec fn view(&self) -> ReportView {
        ReportView {
            date: self.date@,
            started_at: self.started_at@,
            completed_at: opt_view(self.completed_at),
            status: self.status,
            steps: Seq::new(self.steps@.len(), |i: int| self.steps@[i]@),
            warnings: strings_view(self.warnings@),
            errors: strings_view(self.errors@),
        }
    }
}

/// A list with `x` appended when there is one.
pub open spec fn pushed(s: Seq<Seq<char>>, x: Option<Seq<char>>) -> Seq<Seq<char>> {
    match x {
        Some(v) => s.push(v),
        None => s,
    }
}

/// `new` is `old` with one more step, named `name`, started and completed
/// with `status` and `message`, and with `warning` and `error` noted.
pub open spec fn records_step(
    old: ReportView,
    new: ReportView,
    name: Seq<char>,
    status: DailyOperationStatus,
    message: Seq<char>,
    warning: Option<Seq<char>>,
    error: Option<Seq<char>>,
) -> bool {
    &&& new.date == old.date
    &&& new.started_at == old.started_at
    &&& new.completed_at == old.completed_at
    &&& new.status == old.status
    &&& new.steps.len() == old.steps.len() + 1
    &&& new.steps.take(old.steps.len() as int) == old.steps
    &&& new.steps.last().name == name
    &&& new.steps.last().status == status
    &&& new.steps.last().message == message
    &&& new.steps.last().started_at is Some
    &&& new.steps.last().completed_at is Some
    &&& new.warnings == pushed(old.warnings, warning)
    &&& new.errors == pushed(old.errors, error)
}

/// The status of a finished run: failed with errors, partly successful with
/// warnings, successful otherwise.
pub open spec fn run_status(warnings: Seq<Seq<char>>, errors: Seq<Seq<char>>) -> DailyOperationStatus {
    if errors.len() > 0 {
        DailyOperationStatus::Failed
    } else if warnings.len() > 0 {
        DailyOperationStatus::PartialSuccess
    } else {
        DailyOperationStatus::Success
    }
}

/// The latest of the snapshot dates (in the order of text).
pub open spec fn latest_date(ds: Seq<Seq<char>>) -> Option<Seq<char>>
    decreases ds.len(),
{
    if ds.len() == 0 {
        None
    } else {
        match latest_date(ds.drop_last()) {
            None => Some(ds.last()),
            Some(m) => if seq_lt(ds.last(), m) {
                Some(m)
            } else {
                Some(ds.last())
            },
        }
    }
}

impl DailyOperationReport {
    /// A run starting now: today's local date (`%Y-%m-%d`) and the local
    /// start time (`%Y-%m-%d %H:%M:%S`), running, with no steps.
    pub fn new() -> (r: Self)
        ensures
            is_date_text(r@.date),
            is_date_time_text(r@.started_at),
            r@.status == DailyOperationStatus::Running,
            r@.completed_at is None,
            r@.steps.len() == 0,
            r@.warnings.len() == 0,
            r@.errors.len() == 0,
    {
        let report = DailyOperationReport {
            date: local_now_text("%Y-%m-%d"),
            started_at: local_now_text("%Y-%m-%d %H:%M:%S"),
            completed_at: None,
            status: DailyOperationStatus::Running,
            steps: Vec::new(),
            warnings: Vec::new(),
            errors: Vec::new(),
        };
        assert(report@.warnings =~= Seq::<Seq<char>>::empty());
        assert(report@.errors =~= Seq::<Seq<char>>::empty());
        report
    }

    /// Starts a step now, with status `Running`.
    pub fn add_step(&mut self, name: &str)
        ensures
            final(self)@.steps == old(self)@.steps.push(final(self)@.steps.last()),
            final(self)@.steps.last().name == name@,
            final(self)@.steps.last().status == DailyOperationStatus::Running,
            final(self)@.steps.last().message.len() == 0,
            final(self)@.steps.last().started_at is Some,
            final(self)@.steps.last().completed_at is None,
            final(self).date == old(self).date,
            final(self).started_at == old(self).started_at,
            final(self).completed_at == old(self).completed_at,
            final(self).status == old(self).status,
            final(self).warnings == old(self).warnings,
            final(self).errors == old(self).errors,
    {
        let step = DailyOperationStep {
            name: owned(name),
            status: DailyOperationStatus::Running,
            message: String::new(),
            started_at: Some(local_now_text("%H:%M:%S")),
            completed_at: None,
        };
        self.steps.push(step);
        assert(self@.steps =~= old(self)@.steps.push(self@.steps.last()));
    }

    /// Completes the last step now with a status and a message; without a
    /// step, nothing changes.
    pub fn complete_step(&mut self, status: DailyOperationStatus, message: String)
        ensures
            old(self)@.steps.len() == 0 ==> final(self)@ == old(self)@,
            old(self)@.steps.len() > 0 ==> {
                let n = old(self)@.steps.len() - 1;
                &&& final(self)@.steps.len() == old(self)@.steps.len()
                &&& final(self)@.steps.take(n) == old(self)@.steps.take(n)
                &&& final(self)@.steps[n].name == old(self)@.steps[n].name
                &&& final(self)@.steps[n].started_at == old(self)@.steps[n].started_at
                &&& final(self)@.steps[n].status == status
                &&& final(self)@.steps[n].message == message@
                &&& final(self)@.steps[n].completed_at is Some
            },
            final(self).date == old(self).date,
            final(self).started_at == old(self).started_at,
            final(self).completed_at == old(self).completed_at,
            final(self).status == old(self).status,
            final(self).warnings == old(self).warnings,
            final(self).errors == old(self).errors,
    {
        let n = self.steps.len();
        if n > 0 {
            let last = self.steps.pop().unwrap();
            let step = DailyOperationStep {
                name: last.name,
                status,
                message,
                started_at: last.started_at,
                completed_at: Some(local_now_text("%H:%M:%S")),
            };
            self.steps.push(step);
            assert(self@.steps.take(n - 1) =~= old(self)@.steps.take(n - 1));
        } else {
            assert(self@ == old(self)@) by {
                assert(self@.steps =~= old(self)@.steps);
            }
        }
    }

    /// Records a completed step, its warning and its error.
    fn record(&mut self, name: &str, status: DailyOperationStatus, message: String, warning: Option<String>, error: Option<String>)
        ensures
            records_step(old(self)@, final(self)@, name@, status, message@, opt_view(warning), opt_view(error)),
    {
        let ghost m = message@;
        let ghost w = opt_view(warning);
        let ghost e = opt_view(error);
        self.add_step(name);
        let ghost added = self@;
        self.complete_step(status, message);
        proof {
            let n = added.steps.len() - 1;
            assert(self@.steps.take(n) =~= old(self)@.steps) by {
                assert(added.steps.take(n) =~= old(self)@.steps);
            }
        }
        let ghost before = self.warnings@;
        match warning {
            Some(x) => {
                self.warnings.push(x);
            },
            None => {},
        }
        assert(strings_view(self.warnings@) =~= pushed(strings_view(before), w));
        let ghost before_e = self.errors@;
        match error {
            Some(x) => {
                self.errors.push(x);
            },
            None => {},
        }
        assert(strings_view(self.errors@) =~= pushed(strings_view(before_e), e));
    }

    /// The fund NAV refresh step: the number of funds refreshed, or the
    /// error's text (a warning).
    pub fn record_nav_refresh(&mut self, outcome: Result<usize, String>)
        ensures
            match outcome {
                Ok(n) => records_step(
                    old(self)@,
                    final(self)@,
                    "刷新基金净值"@,
                    DailyOperationStatus::Success,
                    "成功刷新 "@ + decimal(n as nat) + " 个基金净值"@,
                    None,
                    None,
                ),
                Err(e) => records_step(
                    old(self)@,
                    final(self)@,
                    "刷新基金净值"@,
                    DailyOperationStatus::PartialSuccess,
                    "基金净值刷新失败: "@ + e@,
                    Some("基金净值刷新失败: "@ + e@),
                    None,
                ),
            },
    {
        match outcome {
            Ok(n) => {
                let mut m = owned("成功刷新 ");
                push_decimal(&mut m, n);
                push_str(&mut m, " 个基金净值");
                self.record("刷新基金净值", DailyOperationStatus::Success, m, None, None);
            },
            Err(e) => {
                let mut m = owned("基金净值刷新失败: ");
                push_str(&mut m, e.as_str());
                let w = owned(m.as_str());
                self.record("刷新基金净值", DailyOperationStatus::PartialSuccess, m, Some(w), None);
            },
        }
    }

    /// The market data refresh step: the counts of refreshed, skipped and
    /// failed symbols, or the error's text (a warning).
    pub fn record_market_refresh(&mut self, outcome: Result<(usize, usize, usize), String>)
        ensures
            match outcome {
                Ok((ok, _skipped, failed)) => if failed > 0 {
                    records_step(
                        old(self)@,
                        final(self)@,
                        "刷新市场行情"@,
                        DailyOperationStatus::PartialSuccess,
                        "刷新成功: "@ + decimal(ok as nat) + ", 失败: "@ + decimal(failed as nat),
                        Some(decimal(failed as nat) + " 个市场行情刷新失败"@),
                        None,
                    )
                } else {
                    records_step(
                        old(self)@,
                        final(self)@,
                        "刷新市场行情"@,
                        DailyOperationStatus::Success,
                        "成功刷新 "@ + decimal(ok as nat) + " 个标的"@,
                        None,
                        None,
                    )
                },
                Err(e) => records_step(
                    old(self)@,
                    final(self)@,
                    "刷新市场行情"@,
                    DailyOperationStatus::PartialSuccess,
                    "市场行情刷新失败: "@ + e@,
                    Some("市场行情刷新失败: "@ + e@),
                    None,
                ),
            },
    {
        match outcome {
            Ok((ok, _skipped, failed)) => {
                if failed > 0 {
                    let mut m = owned("刷新成功: ");
                    push_decimal(&mut m, ok);
                    push_str(&mut m, ", 失败: ");
                    push_decimal(&mut m, failed);
                    let mut w = String::new();
                    push_decimal(&mut w, failed);
                    push_str(&mut w, " 个市场行情刷新失败");
                    proof {
                        reveal_strlit("");
                        assert(""@ + decimal(failed as nat) =~= decimal(failed as nat));
                    }
                    self.record("刷新市场行情", DailyOperationStatus::PartialSuccess, m, Some(w), None);
                } else {
                    let mut m = owned("成功刷新 ");
                    push_decimal(&mut m, ok);
                    push_str(&mut m, " 个标的");
                    self.record("刷新市场行情", DailyOperationStatus::Success, m, None, None);
                }
            },
            Err(e) => {
                let mut m = owned("市场行情刷新失败: ");
                push_str(&mut m, e.as_str());
                let w = owned(m.as_str());
                self.record("刷新市场行情", DailyOperationStatus::PartialSuccess, m, Some(w), None);
            },
        }
    }

    /// The DCA execution step: whether every due plan executed, with the
    /// execution's message; or the error's text (a warning; the step fails).
    pub fn record_dca_execution(&mut self, outcome: Result<(bool, String), String>)
        ensures
            match outcome {
                Ok((success, message)) => records_step(
                    old(self)@,
                    final(self)@,
                    "执行到期定投"@,
                    if success {
                        DailyOperationStatus::Success
                    } else {
                        DailyOperationStatus::PartialSuccess
                    },
                    message@,
                    None,
                    None,
                ),
                Err(e) => records_step(
                    old(self)@,
                    final(self)@,
                    "执行到期定投"@,
                    DailyOperationStatus::Failed,
                    "定投执行失败: "@ + e@,
                    Some("定投执行失败: "@ + e@),
                    None,
                ),
            },
    {
        match outcome {
            Ok((success, message)) => {
                let status = if success {
                    DailyOperationStatus::Success
                } else {
                    DailyOperationStatus::PartialSuccess
                };
                self.record("执行到期定投", status, message, None, None);
            },
            Err(e) => {
                let mut m = owned("定投执行失败: ");
                push_str(&mut m, e.as_str());
                let w = owned(m.as_str());
                self.record("执行到期定投", DailyOperationStatus::Failed, m, Some(w), None);
            },
        }
    }

    /// The holding alignment check: the dates of the Alipay snapshots, or
    /// the error's text of loading them (a warning). The latest date is
    /// reported; without snapshots the step is skipped.
    pub fn record_snapshot_check(&mut self, outcome: Result<Vec<String>, String>)
        ensures
            match outcome {
                Ok(dates) => match latest_date(strings_view(dates@)) {
                    Some(d) => records_step(
                        old(self)@,
                        final(self)@,
                        "持仓对齐检查"@,
                        DailyOperationStatus::Success,
                        "发现最新支付宝快照日期: "@ + d,
                        None,
                        None,
                    ),
                    None => records_step(
                        old(self)@,
                        final(self)@,
                        "持仓对齐检查"@,
                        DailyOperationStatus::Skipped,
                        "未找到支付宝快照数据，跳过对齐检查"@,
                        None,
                        None,
                    ),
                },
                Err(e) => records_step(
                    old(self)@,
                    final(self)@,
                    "持仓对齐检查"@,
                    DailyOperationStatus::PartialSuccess,
                    "加载快照失败: "@ + e@,
                    Some("加载快照失败: "@ + e@),
                    None,
                ),
            },
    {
        match outcome {
            Ok(dates) => {
                let ghost ds = strings_view(dates@);
                let mut latest: Option<usize> = None;
                let n = dates.len();
                let mut k: usize = 0;
                while k < n
                    invariant
                        n == dates@.len(),
                        ds == strings_view(dates@),
                        k <= n,
                        match latest {
                            None => latest_date(ds.take(k as int)) is None,
                            Some(j) => j < k && latest_date(ds.take(k as int)) == Some(ds[j as int]),
                        },
                    decreases n - k,
                {
                    assert(ds.take(k + 1).drop_last() =~= ds.take(k as int));
                    assert(ds[k as int] == dates@[k as int]@);
                    match latest {
                        None => {
                            latest = Some(k);
                        },
                        Some(j) => {
                            assert(ds[j as int] == dates@[j as int]@);
                            if !str_less(dates[k].as_str(), dates[j].as_str()) {
                                latest = Some(k);
                            }
                        },
                    }
                    k += 1;
                }
                assert(ds.take(n as int) =~= ds);
                match latest {
                    Some(j) => {
                        assert(ds[j as int] == dates@[j as int]@);
                        let mut m = owned("发现最新支付宝快照日期: ");
                        push_str(&mut m, dates[j].as_str());
                        self.record("持仓对齐检查", DailyOperationStatus::Success, m, None, None);
                    },
                    None => {
                        self.record(
                            "持仓对齐检查",
                            DailyOperationStatus::Skipped,
                            owned("未找到支付宝快照数据，跳过对齐检查"),
                            None,
                            None,
                        );
                    },
                }
            },
            Err(e) => {
                let mut m = owned("加载快照失败: ");
                push_str(&mut m, e.as_str());
                let w = owned(m.as_str());
                self.record("持仓对齐检查", DailyOperationStatus::PartialSuccess, m, Some(w), None);
            },
        }
    }

    /// The consistency reconciliation step: the numbers of issues and of
    /// critical issues, or the error's text of loading the data (an error;
    /// the step fails).
    pub fn record_reconciliation(&mut self, outcome: Result<(usize, usize), String>)
        ensures
            match outcome {
                Ok((total, critical)) => if total == 0 {
                    records_step(
                        old(self)@,
                        final(self)@,
                        "系统一致性对账"@,
                        DailyOperationStatus::Success,
                        "数据一致，未发现问题"@,
                        None,
                        None,
                    )
                } else {
                    records_step(
                        old(self)@,
                        final(self)@,
                        "系统一致性对账"@,
                        DailyOperationStatus::PartialSuccess,
                        "发现 "@ + decimal(total as nat) + " 个一致性问题 (严重: "@ + decimal(critical as nat) + ")"@,
                        Some("发现 "@ + decimal(total as nat) + " 个一致性问题 (严重: "@ + decimal(critical as nat) + ")"@),
                        None,
                    )
                },
                Err(e) => records_step(
                    old(self)@,
                    final(self)@,
                    "系统一致性对账"@,
                    DailyOperationStatus::Failed,
                    "加载对账数据失败: "@ + e@,
                    None,
                    Some("加载对账数据失败: "@ + e@),
                ),
            },
    {
        match outcome {
            Ok((total, critical)) => {
                if total == 0 {
                    self.record("系统一致性对账", DailyOperationStatus::Success, owned("数据一致，未发现问题"), None, None);
                } else {
                    let mut m = owned("发现 ");
                    push_decimal(&mut m, total);
                    push_str(&mut m, " 个一致性问题 (严重: ");
                    push_decimal(&mut m, critical);
                    push_str(&mut m, ")");
                    let w = owned(m.as_str());
                    self.record("系统一致性对账", DailyOperationStatus::PartialSuccess, m, Some(w), None);
                }
            },
            Err(e) => {
                let mut m = owned("加载对账数据失败: ");
                push_str(&mut m, e.as_str());
                let x = owned(m.as_str());
                self.record("系统一致性对账", DailyOperationStatus::Failed, m, None, Some(x));
            },
        }
    }

    /// The data check step: the number of errors found, or the error's text
    /// of the check itself (the step fails, nothing else is noted).
    pub fn record_verification(&mut self, outcome: Result<usize, String>)
        ensures
            match outcome {
                Ok(errors) => if errors == 0 {
                    records_step(old(self)@, final(self)@, "数据完整性校验"@, DailyOperationStatus::Success, "校验通过"@, None, None)
                } else {
                    records_step(
                        old(self)@,
                        final(self)@,
                        "数据完整性校验"@,
                        DailyOperationStatus::PartialSuccess,
                        "发现 "@ + decimal(errors as nat) + " 个数据异常"@,
                        Some("发现 "@ + decimal(errors as nat) + " 个数据异常"@),
                        None,
                    )
                },
                Err(e) => records_step(
                    old(self)@,
                    final(self)@,
                    "数据完整性校验"@,
                    DailyOperationStatus::Failed,
                    "校验引擎错误: "@ + e@,
                    None,
                    None,
                ),
            },
    {
        match outcome {
            Ok(errors) => {
                if errors == 0 {
                    self.record("数据完整性校验", DailyOperationStatus::Success, owned("校验通过"), None, None);
                } else {
                    let mut m = owned("发现 ");
                    push_decimal(&mut m, errors);
                    push_str(&mut m, " 个数据异常");
                    let w = owned(m.as_str());
                    self.record("数据完整性校验", DailyOperationStatus::PartialSuccess, m, Some(w), None);
                }
            },
            Err(e) => {
                let mut m = owned("校验引擎错误: ");
                push_str(&mut m, e.as_str());
                self.record("数据完整性校验", DailyOperationStatus::Failed, m, None, None);
            },
        }
    }

    /// The daily plan step: generated, or the error's text (an error; the
    /// step fails).
    pub fn record_plan(&mut self, outcome: Result<(), String>)
        ensures
            match outcome {
                Ok(_) => records_step(
                    old(self)@,
                    final(self)@,
                    "生成每日执行计划"@,
                    DailyOperationStatus::Success,
                    "计划生成成功"@,
                    None,
                    None,
                ),
                Err(e) => records_step(
                    old(self)@,
                    final(self)@,
                    "生成每日执行计划"@,
                    DailyOperationStatus::Failed,
                    "计划生成失败: "@ + e@,
                    None,
                    Some("计划生成失败: "@ + e@),
                ),
            },
    {
        match outcome {
            Ok(_) => {
                self.record("生成每日执行计划", DailyOperationStatus::Success, owned("计划生成成功"), None, None);
            },
            Err(e) => {
                let mut m = owned("计划生成失败: ");
                push_str(&mut m, e.as_str());
                let x = owned(m.as_str());
                self.record("生成每日执行计划", DailyOperationStatus::Failed, m, None, Some(x));
            },
        }
    }

    /// Ends the run now: failed with errors, partly successful with
    /// warnings, successful otherwise.
    pub fn finish(&mut self)
        ensures
            final(self)@.status == run_status(old(self)@.warnings, old(self)@.errors),
            final(self)@.completed_at is Some,
            final(self)@.steps == old(self)@.steps,
            final(self)@.warnings == old(self)@.warnings,
            final(self)@.errors == old(self)@.errors,
            final(self)@.date == old(self)@.date,
            final(self)@.started_at == old(self)@.started_at,
    {
        self.completed_at = Some(local_now_text("%Y-%m-%d %H:%M:%S"));
        self.status = if !self.errors.is_empty() {
            DailyOperationStatus::Failed
        } else if !self.warnings.is_empty() {
            DailyOperationStatus::PartialSuccess
        } else {
            DailyOperationStatus::Success
        };
        assert(self@.steps =~= old(self)@.steps);
    }
}

/// Recording a step keeps every earlier step, warning and error: a run that
/// would end failed (or not fully successful) still does after more steps,
/// and a step that notes an error makes the run end failed.
pub proof fn law_recorded_problems_persist(
    old: ReportView,
    new: ReportView,
    name: Seq<char>,
    status: DailyOperationStatus,
    message: Seq<char>,
    warning: Option<Seq<char>>,
    error: Option<Seq<char>>,
)
    requires
        records_step(old, new, name, status, message, warning, error),
    ensures
        new.steps.take(old.steps.len() as int) == old.steps,
        run_status(old.warnings, old.errors) == DailyOperationStatus::Failed ==> run_status(new.warnings, new.errors)
            == DailyOperationStatus::Failed,
        run_status(old.warnings, old.errors) != DailyOperationStatus::Success ==> run_status(new.warnings, new.errors)
            != DailyOperationStatus::Success,
        error is Some ==> run_status(new.warnings, new.errors) == DailyOperationStatus::Failed,
{
}

} // verus!
