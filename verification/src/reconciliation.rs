//! Calibration after reconciling a holding with an Alipay snapshot: whether
//! to calibrate, how risky it is, and why.

use vstd::prelude::*;
use crate::text::{owned, push_str, str_eq};

verus! {

/// What a calibration decision reads of a reconciliation result.
#[derive(Debug)]
pub struct ReconciliationOutcome {
    pub snapshot_id: String,
    pub asset_id: String,
    pub fund_code: String,
    pub snapshot_date: String,
    pub status: String,
}

/// A calibration to propose, without the amounts it carries over from the
/// snapshot.
#[derive(Debug)]
pub struct CalibrationPlan {
    pub asset_id: String,
    pub fund_code: String,
    pub snapshot_id: String,
    pub reason: String,
    pub risk_level: String,
    pub would_modify_state: bool,
    pub would_create_adjustment_transaction: bool,
}

/// The risk of calibrating a holding with this reconciliation status: high
/// for a clear or unit mismatch, low for a small or cost mismatch, else medium.
pub open spec fn calibration_risk(status: Seq<char>) -> Seq<char> {
    if status == "明显差异"@ || status == "份额不一致"@ {
        "高"@
    } else if status == "小幅差异"@ || status == "成本不一致"@ {
        "低"@
    } else {
        "中"@
    }
}

/// Proposes a calibration unless the holding is consistent (`一致`).
pub fn generate_calibration_suggestion(result: &ReconciliationOutcome) -> (r: Option<CalibrationPlan>)
    ensures
        result.status@ == "一致"@ <==> r is None,
        r matches Some(p) ==> {
            &&& p.asset_id@ == result.asset_id@
            &&& p.fund_code@ == result.fund_code@
            &&& p.snapshot_id@ == result.snapshot_id@
            &&& p.reason@ == "基于支付宝快照 "@ + result.snapshot_date@ + " 的校准"@
            &&& p.risk_level@ == calibration_risk(result.status@)
            &&& p.would_modify_state
            &&& p.would_create_adjustment_transaction
        },
{
    let status = result.status.as_str();
    if str_eq(status, "一致") {
        return None;
    }
    let mut reason = owned("基于支付宝快照 ");
    push_str(&mut reason, result.snapshot_date.as_str());
    push_str(&mut reason, " 的校准");
    let risk_level = if str_eq(status, "明显差异") || str_eq(status, "份额不一致") {
        owned("高")
    } else if str_eq(status, "小幅差异") || str_eq(status, "成本不一致") {
        owned("低")
    } else {
        owned("中")
    };
    Some(CalibrationPlan {
        asset_id: result.asset_id.clone(),
        fund_code: result.fund_code.clone(),
        snapshot_id: result.snapshot_id.clone(),
        reason,
        risk_level,
        would_modify_state: true,
        would_create_adjustment_transaction: true,
    })
}


/// What the reconciliation verdict reads of a comparison between the system
/// holding and an Alipay snapshot; the tolerance checks on amounts are made
/// by the caller.
#[derive(Debug)]
pub struct ReconciliationFacts {
    /// The market value differs beyond the absolute or relative tolerance.
    pub market_value_out_of_tolerance: bool,
    /// The relative market value difference exceeds 1%.
    pub market_value_diff_above_one_percent: bool,
    /// Whether the units differ beyond tolerance; `None` without snapshot units.
    pub units_mismatch: Option<bool>,
    /// Whether the cost basis differs beyond tolerance; `None` without a snapshot cost.
    pub cost_basis_mismatch: Option<bool>,
    /// Days between the system and the snapshot NAV dates, when both parse.
    pub nav_date_diff: Option<i64>,
    /// The system has a holding for the asset.
    pub has_holding: bool,
}

/// The status, the suggested action and whether calibration is needed.
#[derive(Debug)]
pub struct ReconciliationVerdict {
    pub status: String,
    pub suggested_action: String,
    pub needs_calibration: bool,
}

/// The verdict of a reconciliation, as the checks apply in order: market
/// value, units, cost basis, NAV date, missing holding; a calibration need
/// that no stronger status names reads `需要校准`.
pub open spec fn verdict_of(f: ReconciliationFacts) -> (Seq<char>, Seq<char>, bool) {
    let s0 = "一致"@;
    let a0 = "无"@;
    let s1 = if f.market_value_out_of_tolerance {
        if f.market_value_diff_above_one_percent {
            "明显差异"@
        } else {
            "小幅差异"@
        }
    } else {
        s0
    };
    let a1 = if f.market_value_out_of_tolerance {
        "核对交易记录"@
    } else {
        a0
    };
    let units = f.units_mismatch == Some(true);
    let s2 = if units {
        "份额不一致"@
    } else {
        s1
    };
    let a2 = if units {
        "校准持仓份额"@
    } else {
        a1
    };
    let c2 = units;
    let cost = f.cost_basis_mismatch == Some(true);
    let s3 = if cost && (s2 == "一致"@ || s2 == "小幅差异"@) {
        "成本不一致"@
    } else {
        s2
    };
    let a3 = if cost && (a2 == "无"@ || a2 == "核对交易记录"@) {
        "校准成本价格"@
    } else {
        a2
    };
    let c3 = c2 || cost;
    let s4 = if (f.nav_date_diff matches Some(d) && d != 0) && s3 == "一致"@ {
        "净值日期不一致"@
    } else {
        s3
    };
    let s5 = if !f.has_holding {
        "缺少系统持仓"@
    } else {
        s4
    };
    let a5 = if !f.has_holding {
        "初始化持仓"@
    } else {
        a3
    };
    let c5 = c3 || !f.has_holding;
    let s6 = if c5 && s5 != "缺少系统持仓"@ && s5 != "份额不一致"@ && s5 != "成本不一致"@ {
        "需要校准"@
    } else {
        s5
    };
    (s6, a5, c5)
}

/// Decides the status and suggested action of a reconciliation.
pub fn reconciliation_verdict(f: &ReconciliationFacts) -> (r: ReconciliationVerdict)
    ensures
        (r.status@, r.suggested_action@, r.needs_calibration) == verdict_of(*f),
{
    let mut status = owned("一致");
    let mut action = owned("无");
    let mut needs = false;
    if f.market_value_out_of_tolerance {
        status = if f.market_value_diff_above_one_percent {
            owned("明显差异")
        } else {
            owned("小幅差异")
        };
        action = owned("核对交易记录");
    }
    if f.units_mismatch == Some(true) {
        status = owned("份额不一致");
        action = owned("校准持仓份额");
        needs = true;
    }
    if f.cost_basis_mismatch == Some(true) {
        if str_eq(status.as_str(), "一致") || str_eq(status.as_str(), "小幅差异") {
            status = owned("成本不一致");
        }
        if str_eq(action.as_str(), "无") || str_eq(action.as_str(), "核对交易记录") {
            action = owned("校准成本价格");
        }
        needs = true;
    }
    match f.nav_date_diff {
        Some(d) => {
            if d != 0 && str_eq(status.as_str(), "一致") {
                status = owned("净值日期不一致");
            }
        },
        None => {},
    }
    if !f.has_holding {
        status = owned("缺少系统持仓");
        action = owned("初始化持仓");
        needs = true;
    }
    if needs && !str_eq(status.as_str(), "缺少系统持仓") && !str_eq(status.as_str(), "份额不一致")
        && !str_eq(status.as_str(), "成本不一致") {
        status = owned("需要校准");
    }
    ReconciliationVerdict { status, suggested_action: action, needs_calibration: needs }
}

/// A reconciliation that needs calibration never reads `一致`, so a
/// calibration is always proposed for it; a missing holding always needs one.
pub proof fn law_calibration_needed_is_proposed(f: ReconciliationFacts)
    ensures
        verdict_of(f).2 ==> verdict_of(f).0 != "一致"@,
        !f.has_holding ==> verdict_of(f).2 && verdict_of(f).0 == "缺少系统持仓"@
            && verdict_of(f).1 == "初始化持仓"@,
{
    reveal_strlit("一致");
    reveal_strlit("需要校准");
    reveal_strlit("缺少系统持仓");
    reveal_strlit("份额不一致");
    reveal_strlit("成本不一致");
    assert("一致"@.len() != "需要校准"@.len());
    assert("一致"@.len() != "缺少系统持仓"@.len());
    assert("一致"@ != "份额不一致"@);
    assert("一致"@ != "成本不一致"@);
}


/// A reconciliation reads `一致` exactly when the market value is within
/// tolerance, units and cost basis match (or are not compared), the NAV dates
/// agree (or are not compared) and the system holds the asset. Calibration
/// is needed exactly when units or cost basis differ or the holding is
/// missing. With a holding, a unit mismatch reads `份额不一致` and asks to
/// calibrate units; without unit or cost mismatch, a market value out of
/// tolerance by more than one percent reads `明显差异`, by less `小幅差异`,
/// and asks to check the transactions.
pub proof fn law_reconciliation_verdicts(f: ReconciliationFacts)
    ensures
        ({
            let v = verdict_of(f);
            let units = f.units_mismatch == Some(true);
            let cost = f.cost_basis_mismatch == Some(true);
            &&& (v.0 == "一致"@) <==> (!f.market_value_out_of_tolerance && !units && !cost && (f.nav_date_diff
                is None || f.nav_date_diff == Some(0i64)) && f.has_holding)
            &&& v.2 <==> (units || cost || !f.has_holding)
            &&& f.has_holding && units ==> v.0 == "份额不一致"@ && v.1 == "校准持仓份额"@
            &&& f.has_holding && !units && !cost && f.market_value_out_of_tolerance ==> v.1 == "核对交易记录"@
                && v.0 == (if f.market_value_diff_above_one_percent {
                "明显差异"@
            } else {
                "小幅差异"@
            })
        }),
{
    reveal_strlit("一致");
    reveal_strlit("需要校准");
    reveal_strlit("缺少系统持仓");
    reveal_strlit("份额不一致");
    reveal_strlit("成本不一致");
    reveal_strlit("明显差异");
    reveal_strlit("小幅差异");
    reveal_strlit("净值日期不一致");
    let names = seq!["一致"@, "需要校准"@, "缺少系统持仓"@, "份额不一致"@, "成本不一致"@, "明显差异"@, "小幅差异"@, "净值日期不一致"@];
    assert forall|a: int, b: int| 0 <= a < b < names.len() implies #[trigger] names[a] != #[trigger] names[b] by {
        if names[a].len() == names[b].len() {
            assert(names[a][0] != names[b][0] || names[a][1] != names[b][1]);
        }
    }
    assert(names[0] != names[1] && names[0] != names[2] && names[0] != names[3] && names[0] != names[4]);
    assert(names[0] != names[5] && names[0] != names[6] && names[0] != names[7]);
    assert(names[5] != names[2] && names[5] != names[3] && names[5] != names[4]);
    assert(names[6] != names[2] && names[6] != names[3] && names[6] != names[4]);
    assert(names[3] != names[2]);
    reveal_strlit("无");
    reveal_strlit("核对交易记录");
    reveal_strlit("校准持仓份额");
    assert("校准持仓份额"@.len() != "无"@.len());
    assert("校准持仓份额"@[0] != "核对交易记录"@[0]);
}

/// Calibrating after a clear or unit mismatch is high risk, after a small or
/// cost mismatch low risk, and otherwise medium.
pub proof fn law_calibration_risk_levels(status: Seq<char>)
    ensures
        status == "明显差异"@ || status == "份额不一致"@ ==> calibration_risk(status) == "高"@,
        status == "小幅差异"@ || status == "成本不一致"@ ==> calibration_risk(status) == "低"@,
        !(status == "明显差异"@ || status == "份额不一致"@ || status == "小幅差异"@ || status == "成本不一致"@)
            ==> calibration_risk(status) == "中"@,
{
    reveal_strlit("明显差异");
    reveal_strlit("份额不一致");
    reveal_strlit("小幅差异");
    reveal_strlit("成本不一致");
    assert("明显差异"@[0] != "小幅差异"@[0]);
    assert("明显差异"@.len() != "成本不一致"@.len());
    assert("份额不一致"@[0] != "小幅差异"@[0]);
    assert("份额不一致"@[0] != "成本不一致"@[0]);
}

} // verus!
