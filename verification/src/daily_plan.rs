//! The daily execution plan: which assets it holds and where their buys come
//! from, and the safety gates that pause an item's buy.

use vstd::prelude::*;
use crate::dca::{find_asset, plan_asset};
use crate::model::{assets_view, opt_view, strings_view, AssetConfig, AssetView};
use crate::text::{has_substring, owned, push_str, str_contains, str_eq};
use crate::watchlist::{lemma_seq_lt_total, lemma_seq_lt_transitive, seq_lt, str_less};

verus! {

/// Which pauses the daily plan configuration turns on.
#[derive(Debug)]
pub struct DailyPlanGates {
    pub include_reconciliation_gate: bool,
    pub pause_on_reconciliation_mismatch: bool,
    pub pause_on_missing_reconciliation: bool,
    pub pause_on_mock_data: bool,
}

/// What the gates read of one plan item.
#[derive(Debug)]
pub struct GateInput {
    /// The reconciliation status of the item's asset (`未知` without a snapshot).
    pub reconciliation_status: String,
    /// The global risk label of the adjusted decision.
    pub global_risk_label: String,
    /// The status of the item in the adjusted decision, when it has one.
    pub adjusted_status: Option<String>,
    /// The item's status before the gates.
    pub status: String,
}

/// The effect of the gates on one item: whether its recommended amount drops
/// to zero, its status, and the warnings they add.
#[derive(Debug)]
pub struct GateOutcome {
    pub paused: bool,
    pub status: String,
    pub warnings: Vec<String>,
}

/// A reconciliation status that calls for checking before buying.
pub open spec fn is_mismatch(s: Seq<char>) -> bool {
    s == "明显差异"@ || s == "份额不一致"@ || s == "需要校准"@
}

/// The gates applied in order: reconciliation, extreme global risk, mock or
/// insufficient market data.
pub open spec fn gates_of(g: DailyPlanGates, recon: Seq<char>, risk: Seq<char>, adjusted: Option<Seq<char>>, status: Seq<char>) -> (bool, Seq<char>, Seq<Seq<char>>) {
    let msg_mismatch = "支付宝对账存在明显差异，请先核对持仓后再买入。"@;
    let msg_missing = "缺少支付宝快照，建议执行前核对。"@;
    let (p1, s1, w1) = if g.include_reconciliation_gate {
        if is_mismatch(recon) {
            if g.pause_on_reconciliation_mismatch {
                (true, "等待对账"@, seq![msg_mismatch])
            } else {
                (false, status, Seq::empty())
            }
        } else if recon == "未知"@ {
            if g.pause_on_missing_reconciliation {
                (true, "等待对账"@, seq![msg_missing])
            } else {
                (false, status, seq![msg_missing])
            }
        } else {
            (false, status, Seq::empty())
        }
    } else {
        (false, status, Seq::empty())
    };
    let extreme = risk == "极高风险"@;
    let p2 = p1 || extreme;
    let s2 = if extreme {
        "暂停执行"@
    } else {
        s1
    };
    let w2 = if extreme {
        w1.push("全局风险极高，已自动暂停所有执行。"@)
    } else {
        w1
    };
    let mock = g.pause_on_mock_data && (adjusted matches Some(a) && (has_substring(a, "模拟"@)
        || has_substring(a, "数据不足"@)));
    (
        p2 || mock,
        if mock {
            "数据不足"@
        } else {
            s2
        },
        if mock {
            w2.push("行情数据为模拟或不足，已暂停执行。"@)
        } else {
            w2
        },
    )
}

/// Applies the daily plan's safety gates to one item.
pub fn apply_execution_gates(g: &DailyPlanGates, item: &GateInput) -> (r: GateOutcome)
    ensures
        (r.paused, r.status@, strings_view(r.warnings@)) == gates_of(
            *g,
            item.reconciliation_status@,
            item.global_risk_label@,
            opt_view(item.adjusted_status),
            item.status@,
        ),
{
    let mut paused = false;
    let mut status = item.status.clone();
    let mut warnings: Vec<String> = Vec::new();
    let recon = item.reconciliation_status.as_str();
    if g.include_reconciliation_gate {
        if str_eq(recon, "明显差异") || str_eq(recon, "份额不一致") || str_eq(recon, "需要校准") {
            if g.pause_on_reconciliation_mismatch {
                paused = true;
                status = owned("等待对账");
                warnings.push(owned("支付宝对账存在明显差异，请先核对持仓后再买入。"));
            }
        } else if str_eq(recon, "未知") {
            if g.pause_on_missing_reconciliation {
                paused = true;
                status = owned("等待对账");
                warnings.push(owned("缺少支付宝快照，建议执行前核对。"));
            } else {
                warnings.push(owned("缺少支付宝快照，建议执行前核对。"));
            }
        }
    }
    if str_eq(item.global_risk_label.as_str(), "极高风险") {
        paused = true;
        status = owned("暂停执行");
        warnings.push(owned("全局风险极高，已自动暂停所有执行。"));
    }
    if g.pause_on_mock_data {
        match &item.adjusted_status {
            Some(a) => {
                if str_contains(a.as_str(), "模拟") || str_contains(a.as_str(), "数据不足") {
                    paused = true;
                    status = owned("数据不足");
                    warnings.push(owned("行情数据为模拟或不足，已暂停执行。"));
                }
            },
            None => {},
        }
    }
    let ghost expected = gates_of(
        *g,
        item.reconciliation_status@,
        item.global_risk_label@,
        opt_view(item.adjusted_status),
        item.status@,
    );
    assert(strings_view(warnings@) =~= expected.2);
    GateOutcome { paused, status, warnings }
}

/// Under extreme global risk every item is paused.
pub proof fn law_extreme_risk_pauses_everything(
    g: DailyPlanGates,
    recon: Seq<char>,
    adjusted: Option<Seq<char>>,
    status: Seq<char>,
)
    ensures
        gates_of(g, recon, "极高风险"@, adjusted, status).0,
{
}

// ---------------------------------------------------------------------------
// The items of the plan
// ---------------------------------------------------------------------------

/// A DCA preview item as the plan reads it.
#[derive(Debug)]
pub struct PlanDcaItem {
    pub asset_id: String,
    pub fund_code: String,
    pub fund_name: String,
    pub status: String,
}

/// A risk-adjusted decision item as the plan reads it. Whether its capped
/// buy is positive is decided by the caller.
#[derive(Debug)]
pub struct PlanAdjustedItem {
    pub asset_id: String,
    pub fund_code: String,
    pub fund_name: String,
    pub sector: String,
    pub buys: bool,
}

/// A reconciliation result as the plan reads it.
#[derive(Debug)]
pub struct PlanReconciliation {
    pub asset_id: String,
    pub status: String,
    pub warnings: Vec<String>,
}

/// One asset of the plan: where its buy comes from and its reconciliation.
#[derive(Debug)]
pub struct PlanItem {
    pub asset_id: String,
    pub fund_code: String,
    pub fund_name: String,
    pub sector: String,
    /// `DCA`, `风险调整` or `DCA+风险调整`.
    pub source: String,
    pub reconciliation_status: String,
    pub reconciliation_warning: Option<String>,
}

/// A DCA item as mathematical values: (asset id, fund code, fund name, status).
pub open spec fn dca_view(v: Seq<PlanDcaItem>) -> Seq<(Seq<char>, Seq<char>, Seq<char>, Seq<char>)> {
    Seq::new(v.len(), |i: int| (v[i].asset_id@, v[i].fund_code@, v[i].fund_name@, v[i].status@))
}

/// An adjusted item as mathematical values: (asset id, fund code, fund name,
/// sector, buys).
pub open spec fn adjusted_view(v: Seq<PlanAdjustedItem>) -> Seq<(Seq<char>, Seq<char>, Seq<char>, Seq<char>, bool)> {
    Seq::new(v.len(), |i: int| (v[i].asset_id@, v[i].fund_code@, v[i].fund_name@, v[i].sector@, v[i].buys))
}

/// A reconciliation as mathematical values: (asset id, status, warnings).
pub open spec fn reconciliations_view(v: Seq<PlanReconciliation>) -> Seq<(Seq<char>, Seq<char>, Seq<Seq<char>>)> {
    Seq::new(v.len(), |i: int| (v[i].asset_id@, v[i].status@, strings_view(v[i].warnings@)))
}

/// DCA item `k` is due today for the asset.
pub open spec fn dca_due_for(ds: Seq<(Seq<char>, Seq<char>, Seq<char>, Seq<char>)>, id: Seq<char>, k: int) -> bool {
    0 <= k < ds.len() && ds[k].0 == id && ds[k].3 == "今日应投"@
}

/// Adjusted item `k` buys the asset.
pub open spec fn adjusted_buys_for(xs: Seq<(Seq<char>, Seq<char>, Seq<char>, Seq<char>, bool)>, id: Seq<char>, k: int) -> bool {
    0 <= k < xs.len() && xs[k].0 == id && xs[k].4
}

/// The first DCA item due for the asset.
pub open spec fn first_due(ds: Seq<(Seq<char>, Seq<char>, Seq<char>, Seq<char>)>, id: Seq<char>) -> Option<int> {
    if exists|k: int| dca_due_for(ds, id, k) && forall|j: int| 0 <= j < k ==> !dca_due_for(ds, id, j) {
        Some(choose|k: int| dca_due_for(ds, id, k) && forall|j: int| 0 <= j < k ==> !dca_due_for(ds, id, j))
    } else {
        None
    }
}

/// The first adjusted item that buys the asset.
pub open spec fn first_buy(xs: Seq<(Seq<char>, Seq<char>, Seq<char>, Seq<char>, bool)>, id: Seq<char>) -> Option<int> {
    if exists|k: int| adjusted_buys_for(xs, id, k) && forall|j: int| 0 <= j < k ==> !adjusted_buys_for(xs, id, j) {
        Some(choose|k: int| adjusted_buys_for(xs, id, k) && forall|j: int| 0 <= j < k ==> !adjusted_buys_for(xs, id, j))
    } else {
        None
    }
}

/// The asset has a buy in the plan: a due DCA item or a buying adjusted item.
pub open spec fn has_buy(ds: Seq<(Seq<char>, Seq<char>, Seq<char>, Seq<char>)>, xs: Seq<(Seq<char>, Seq<char>, Seq<char>, Seq<char>, bool)>, id: Seq<char>) -> bool {
    (exists|k: int| dca_due_for(ds, id, k)) || (exists|k: int| adjusted_buys_for(xs, id, k))
}

/// The text of the warnings joined with `; `.
pub open spec fn joined(ws: Seq<Seq<char>>) -> Seq<char>
    decreases ws.len(),
{
    if ws.len() == 0 {
        Seq::empty()
    } else if ws.len() == 1 {
        ws[0]
    } else {
        joined(ws.drop_last()) + "; "@ + ws.last()
    }
}

/// The reconciliation of the asset among the first `n` results: the status
/// of the last one for the asset (`未知` without one), and the joined
/// warnings of the last one for the asset that has warnings.
pub open spec fn plan_reconciliation(rs: Seq<(Seq<char>, Seq<char>, Seq<Seq<char>>)>, id: Seq<char>, n: int) -> (Seq<char>, Option<Seq<char>>)
    decreases n,
{
    if n <= 0 {
        ("未知"@, None)
    } else {
        let prev = plan_reconciliation(rs, id, n - 1);
        let r = rs[n - 1];
        if r.0 == id {
            (r.1, if r.2.len() > 0 {
                Some(joined(r.2))
            } else {
                prev.1
            })
        } else {
            prev
        }
    }
}

/// The plan item of an asset with a buy.
pub open spec fn plan_item_fields(
    s: Seq<AssetView>,
    ds: Seq<(Seq<char>, Seq<char>, Seq<char>, Seq<char>)>,
    xs: Seq<(Seq<char>, Seq<char>, Seq<char>, Seq<char>, bool)>,
    rs: Seq<(Seq<char>, Seq<char>, Seq<Seq<char>>)>,
    id: Seq<char>,
) -> (Seq<char>, Seq<char>, Seq<char>, Seq<char>, Seq<char>, Option<Seq<char>>) {
    let recon = plan_reconciliation(rs, id, rs.len() as int);
    match first_due(ds, id) {
        Some(k) => (
            ds[k].1,
            ds[k].2,
            match plan_asset(s, id) {
                Some(a) => s[a].sector,
                None => Seq::empty(),
            },
            if first_buy(xs, id) is Some {
                "DCA+风险调整"@
            } else {
                "DCA"@
            },
            recon.0,
            recon.1,
        ),
        None => {
            let k = first_buy(xs, id)->0;
            (xs[k].1, xs[k].2, xs[k].3, "风险调整"@, recon.0, recon.1)
        },
    }
}

/// The ids are in strictly increasing order.
pub open spec fn strictly_sorted(ids: Seq<Seq<char>>) -> bool {
    forall|i: int, j: int| 0 <= i < j < ids.len() ==> seq_lt(#[trigger] ids[i], #[trigger] ids[j])
}

/// The id is in the list.
pub open spec fn lists_id(ids: Seq<Seq<char>>, id: Seq<char>) -> bool {
    exists|k: int| 0 <= k < ids.len() && ids[k] == id
}

/// Adds an id to a sorted list of distinct ids, unless it is there.
fn insert_id(ids: &mut Vec<String>, id: &str)
    requires
        strictly_sorted(strings_view(old(ids)@)),
    ensures
        strictly_sorted(strings_view(final(ids)@)),
        forall|x: Seq<char>|
            #[trigger] lists_id(strings_view(final(ids)@), x) <==> lists_id(strings_view(old(ids)@), x) || x == id@,
{
    let ghost old_ids = strings_view(ids@);
    let mut p: usize = 0;
    while p < ids.len() && str_less(ids[p].as_str(), id)
        invariant
            old_ids == strings_view(ids@),
            ids@ == old(ids)@,
            p <= ids@.len(),
            forall|q: int| 0 <= q < p ==> seq_lt(#[trigger] old_ids[q], id@),
        decreases ids@.len() - p,
    {
        p += 1;
    }
    if p < ids.len() && str_eq(ids[p].as_str(), id) {
        assert(old_ids[p as int] == id@);
        return;
    }
    proof {
        if p < old_ids.len() {
            assert(!seq_lt(old_ids[p as int], id@));
            assert(old_ids[p as int] != id@);
            lemma_seq_lt_total(old_ids[p as int], id@);
        }
        assert forall|q: int| p <= q < old_ids.len() implies seq_lt(id@, #[trigger] old_ids[q]) by {
            if q > p {
                assert(seq_lt(old_ids[p as int], old_ids[q]));
                lemma_seq_lt_transitive(id@, old_ids[p as int], old_ids[q]);
            }
        }
        old_ids.insert_ensures(p as int, id@);
    }
    ids.insert(p, owned(id));
    let ghost new_ids = strings_view(ids@);
    proof {
        assert(new_ids =~= old_ids.insert(p as int, id@));
        assert forall|i: int, j: int| 0 <= i < j < new_ids.len() implies seq_lt(#[trigger] new_ids[i], #[trigger] new_ids[j]) by {
            if i < p {
                if j < p {
                } else if j == p {
                } else {
                    lemma_seq_lt_transitive(old_ids[i], id@, old_ids[j - 1]);
                }
            } else if i == p {
            } else {
                assert(new_ids[i] == old_ids[i - 1]);
                assert(new_ids[j] == old_ids[j - 1]);
            }
        }
        assert forall|x: Seq<char>| #[trigger] lists_id(new_ids, x) <==> lists_id(old_ids, x) || x == id@ by {
            if lists_id(new_ids, x) {
                let k = choose|k: int| 0 <= k < new_ids.len() && new_ids[k] == x;
                if k < p {
                    assert(old_ids[k] == x);
                } else if k > p {
                    assert(old_ids[k - 1] == x);
                }
            }
            if lists_id(old_ids, x) {
                let k = choose|k: int| 0 <= k < old_ids.len() && old_ids[k] == x;
                if k < p {
                    assert(new_ids[k] == x);
                } else {
                    assert(new_ids[k + 1] == x);
                }
            }
            if x == id@ {
                assert(new_ids[p as int] == x);
            }
        }
    }
}

/// The position of the first DCA item due for the asset.
fn first_due_index(dca: &[PlanDcaItem], id: &str) -> (r: Option<usize>)
    ensures
        opt_index(r) == first_due(dca_view(dca@), id@),
{
    let ghost ds = dca_view(dca@);
    let n = dca.len();
    let mut k: usize = 0;
    while k < n
        invariant
            n == dca@.len(),
            ds == dca_view(dca@),
            k <= n,
            forall|j: int| 0 <= j < k ==> !dca_due_for(ds, id@, j),
        decreases n - k,
    {
        if str_eq(dca[k].asset_id.as_str(), id) && str_eq(dca[k].status.as_str(), "今日应投") {
            proof {
                let c = choose|c: int| dca_due_for(ds, id@, c) && forall|j: int| 0 <= j < c ==> !dca_due_for(ds, id@, j);
                assert(dca_due_for(ds, id@, k as int));
                if c < k {
                    assert(!dca_due_for(ds, id@, c));
                } else if c > k {
                    assert(!dca_due_for(ds, id@, k as int));
                }
            }
            return Some(k);
        }
        k += 1;
    }
    None
}

/// The position of the first adjusted item that buys the asset.
fn first_buy_index(adjusted: &[PlanAdjustedItem], id: &str) -> (r: Option<usize>)
    ensures
        opt_index(r) == first_buy(adjusted_view(adjusted@), id@),
{
    let ghost xs = adjusted_view(adjusted@);
    let n = adjusted.len();
    let mut k: usize = 0;
    while k < n
        invariant
            n == adjusted@.len(),
            xs == adjusted_view(adjusted@),
            k <= n,
            forall|j: int| 0 <= j < k ==> !adjusted_buys_for(xs, id@, j),
        decreases n - k,
    {
        if adjusted[k].buys && str_eq(adjusted[k].asset_id.as_str(), id) {
            proof {
                let c = choose|c: int| adjusted_buys_for(xs, id@, c) && forall|j: int| 0 <= j < c ==> !adjusted_buys_for(xs, id@, j);
                assert(adjusted_buys_for(xs, id@, k as int));
                if c < k {
                    assert(!adjusted_buys_for(xs, id@, c));
                } else if c > k {
                    assert(!adjusted_buys_for(xs, id@, k as int));
                }
            }
            return Some(k);
        }
        k += 1;
    }
    None
}

/// An optional position as an optional integer.
pub open spec fn opt_index(o: Option<usize>) -> Option<int> {
    match o {
        Some(i) => Some(i as int),
        None => None,
    }
}

/// The warnings joined with `; `.
fn join_warnings(ws: &Vec<String>) -> (r: String)
    ensures
        r@ == joined(strings_view(ws@)),
{
    let ghost v = strings_view(ws@);
    let mut out = String::new();
    let n = ws.len();
    let mut k: usize = 0;
    proof {
        reveal_strlit("");
    }
    while k < n
        invariant
            n == ws@.len(),
            v == strings_view(ws@),
            k <= n,
            out@ == joined(v.take(k as int)),
        decreases n - k,
    {
        assert(v.take(k + 1).drop_last() =~= v.take(k as int));
        assert(v[k as int] == ws@[k as int]@);
        if k > 0 {
            push_str(&mut out, "; ");
        } else {
            assert(out@ =~= Seq::<char>::empty());
        }
        push_str(&mut out, ws[k].as_str());
        proof {
            if k == 0 {
                assert(out@ =~= v[0]);
            }
        }
        k += 1;
    }
    assert(v.take(n as int) =~= v);
    out
}

/// The reconciliation status and warning of the asset.
fn reconciliation_of(recons: &[PlanReconciliation], id: &str) -> (r: (String, Option<String>))
    ensures
        (r.0@, opt_view(r.1)) == plan_reconciliation(reconciliations_view(recons@), id@, recons@.len() as int),
{
    let ghost rs = reconciliations_view(recons@);
    let mut status = owned("未知");
    let mut warning: Option<String> = None;
    let n = recons.len();
    let mut k: usize = 0;
    while k < n
        invariant
            n == recons@.len(),
            rs == reconciliations_view(recons@),
            k <= n,
            (status@, opt_view(warning)) == plan_reconciliation(rs, id@, k as int),
        decreases n - k,
    {
        let r = &recons[k];
        if str_eq(r.asset_id.as_str(), id) {
            status = owned(r.status.as_str());
            if r.warnings.len() > 0 {
                warning = Some(join_warnings(&r.warnings));
            }
        }
        k += 1;
    }
    (status, warning)
}

/// The plan item of an asset with a buy.
fn plan_item_for(
    assets: &[AssetConfig],
    dca: &[PlanDcaItem],
    adjusted: &[PlanAdjustedItem],
    recons: &[PlanReconciliation],
    id: &str,
) -> (it: PlanItem)
    requires
        has_buy(dca_view(dca@), adjusted_view(adjusted@), id@),
    ensures
        it.asset_id@ == id@,
        (it.fund_code@, it.fund_name@, it.sector@, it.source@, it.reconciliation_status@, opt_view(
            it.reconciliation_warning,
        )) == plan_item_fields(assets_view(assets@), dca_view(dca@), adjusted_view(adjusted@), reconciliations_view(recons@), id@),
{
    let ghost s = assets_view(assets@);
    let ghost ds = dca_view(dca@);
    let ghost xs = adjusted_view(adjusted@);
    let (status, warning) = reconciliation_of(recons, id);
    let due = first_due_index(dca, id);
    let buy = first_buy_index(adjusted, id);
    match due {
        Some(d) => {
            let sector = match find_asset(assets, id) {
                Some(a) => {
                    assert(s[a as int] == assets@[a as int]@);
                    owned(assets[a].sector.as_str())
                },
                None => String::new(),
            };
            let source = if buy.is_some() {
                owned("DCA+风险调整")
            } else {
                owned("DCA")
            };
            PlanItem {
                asset_id: owned(id),
                fund_code: owned(dca[d].fund_code.as_str()),
                fund_name: owned(dca[d].fund_name.as_str()),
                sector,
                source,
                reconciliation_status: status,
                reconciliation_warning: warning,
            }
        },
        None => {
            proof {
                if !(exists|j: int| adjusted_buys_for(xs, id@, j)) {
                    let j = choose|j: int| dca_due_for(ds, id@, j);
                    assert(dca_due_for(ds, id@, j));
                    lemma_first_due_exists(ds, id@, j);
                } else {
                    let j = choose|j: int| adjusted_buys_for(xs, id@, j);
                    lemma_first_buy_exists(xs, id@, j);
                }
            }
            let b = match buy {
                Some(b) => b,
                None => 0,
            };
            PlanItem {
                asset_id: owned(id),
                fund_code: owned(adjusted[b].fund_code.as_str()),
                fund_name: owned(adjusted[b].fund_name.as_str()),
                sector: owned(adjusted[b].sector.as_str()),
                source: owned("风险调整"),
                reconciliation_status: status,
                reconciliation_warning: warning,
            }
        },
    }
}

/// The items of the daily plan: one per asset with a buy (a DCA item due
/// today or a risk-adjusted item that buys), in increasing order of asset
/// id. An item takes its fund from its first due DCA item (its sector from
/// the configured asset) or else from its first buying adjusted item; its
/// source says which kinds of buy it has; its reconciliation is that of the
/// asset's last result.
pub fn assemble_plan_items(
    assets: &[AssetConfig],
    dca: &[PlanDcaItem],
    adjusted: &[PlanAdjustedItem],
    recons: &[PlanReconciliation],
) -> (r: Vec<PlanItem>)
    ensures
        ({
            let s = assets_view(assets@);
            let ds = dca_view(dca@);
            let xs = adjusted_view(adjusted@);
            let rs = reconciliations_view(recons@);
            let ids = Seq::new(r@.len(), |k: int| r@[k].asset_id@);
            &&& strictly_sorted(ids)
            &&& forall|x: Seq<char>| #[trigger] lists_id(ids, x) <==> has_buy(ds, xs, x)
            &&& forall|k: int|
                0 <= k < r@.len() ==> {
                    let it = #[trigger] r@[k];
                    (it.fund_code@, it.fund_name@, it.sector@, it.source@, it.reconciliation_status@, opt_view(
                        it.reconciliation_warning,
                    )) == plan_item_fields(s, ds, xs, rs, it.asset_id@)
                }
        }),
{
    let ghost s = assets_view(assets@);
    let ghost ds = dca_view(dca@);
    let ghost xs = adjusted_view(adjusted@);
    let ghost rs = reconciliations_view(recons@);
    let mut ids: Vec<String> = Vec::new();
    assert(strings_view(ids@) =~= Seq::<Seq<char>>::empty());
    let n = dca.len();
    let mut k: usize = 0;
    while k < n
        invariant
            n == dca@.len(),
            ds == dca_view(dca@),
            k <= n,
            strictly_sorted(strings_view(ids@)),
            forall|x: Seq<char>|
                #[trigger] lists_id(strings_view(ids@), x) <==> exists|j: int| 0 <= j < k && dca_due_for(ds, x, j),
        decreases n - k,
    {
        if str_eq(dca[k].status.as_str(), "今日应投") {
            insert_id(&mut ids, dca[k].asset_id.as_str());
        }
        proof {
            assert forall|x: Seq<char>|
                #[trigger] lists_id(strings_view(ids@), x) <==> exists|j: int| 0 <= j < k + 1 && dca_due_for(ds, x, j) by {
                if dca_due_for(ds, x, k as int) {
                    assert(x == dca@[k as int].asset_id@);
                }
                if exists|j: int| 0 <= j < k + 1 && dca_due_for(ds, x, j) {
                    let j = choose|j: int| 0 <= j < k + 1 && dca_due_for(ds, x, j);
                    if j < k {
                        assert(exists|j2: int| 0 <= j2 < k && dca_due_for(ds, x, j2));
                    }
                }
            }
        }
        k += 1;
    }
    let m = adjusted.len();
    let mut k: usize = 0;
    while k < m
        invariant
            m == adjusted@.len(),
            n == dca@.len(),
            ds == dca_view(dca@),
            xs == adjusted_view(adjusted@),
            k <= m,
            strictly_sorted(strings_view(ids@)),
            forall|x: Seq<char>|
                #[trigger] lists_id(strings_view(ids@), x) <==> (exists|j: int| 0 <= j < n && dca_due_for(ds, x, j)) || (
                exists|j: int| 0 <= j < k && adjusted_buys_for(xs, x, j)),
        decreases m - k,
    {
        if adjusted[k].buys {
            insert_id(&mut ids, adjusted[k].asset_id.as_str());
        }
        proof {
            assert forall|x: Seq<char>|
                #[trigger] lists_id(strings_view(ids@), x) <==> (exists|j: int| 0 <= j < n && dca_due_for(ds, x, j)) || (
                exists|j: int| 0 <= j < k + 1 && adjusted_buys_for(xs, x, j)) by {
                if adjusted_buys_for(xs, x, k as int) {
                    assert(x == adjusted@[k as int].asset_id@);
                }
                if exists|j: int| 0 <= j < k + 1 && adjusted_buys_for(xs, x, j) {
                    let j = choose|j: int| 0 <= j < k + 1 && adjusted_buys_for(xs, x, j);
                    if j < k {
                        assert(exists|j2: int| 0 <= j2 < k && adjusted_buys_for(xs, x, j2));
                    }
                }
            }
        }
        k += 1;
    }
    let ghost sorted_ids = strings_view(ids@);
    proof {
        assert forall|x: Seq<char>| #[trigger] lists_id(sorted_ids, x) <==> has_buy(ds, xs, x) by {
            if exists|j: int| dca_due_for(ds, x, j) {
                let j = choose|j: int| dca_due_for(ds, x, j);
                assert(0 <= j < n && dca_due_for(ds, x, j));
            }
            if exists|j: int| adjusted_buys_for(xs, x, j) {
                let j = choose|j: int| adjusted_buys_for(xs, x, j);
                assert(0 <= j < m && adjusted_buys_for(xs, x, j));
            }
        }
    }
    let count = ids.len();
    let mut items: Vec<PlanItem> = Vec::new();
    let mut q: usize = 0;
    while q < count
        invariant
            count == ids@.len(),
            sorted_ids == strings_view(ids@),
            s == assets_view(assets@),
            ds == dca_view(dca@),
            xs == adjusted_view(adjusted@),
            rs == reconciliations_view(recons@),
            forall|x: Seq<char>| #[trigger] lists_id(sorted_ids, x) <==> has_buy(ds, xs, x),
            q <= count,
            items@.len() == q,
            forall|j: int| 0 <= j < q ==> (#[trigger] items@[j]).asset_id@ == sorted_ids[j],
            forall|j: int|
                0 <= j < q ==> {
                    let it = #[trigger] items@[j];
                    (it.fund_code@, it.fund_name@, it.sector@, it.source@, it.reconciliation_status@, opt_view(
                        it.reconciliation_warning,
                    )) == plan_item_fields(s, ds, xs, rs, it.asset_id@)
                },
        decreases count - q,
    {
        let id = ids[q].as_str();
        assert(sorted_ids[q as int] == id@);
        assert(lists_id(sorted_ids, id@));
        let item = plan_item_for(assets, dca, adjusted, recons, id);
        items.push(item);
        q += 1;
    }
    proof {
        assert(Seq::new(items@.len(), |k: int| items@[k].asset_id@) =~= sorted_ids);
    }
    items
}

proof fn lemma_first_due_exists(ds: Seq<(Seq<char>, Seq<char>, Seq<char>, Seq<char>)>, id: Seq<char>, k: int)
    requires
        dca_due_for(ds, id, k),
    ensures
        first_due(ds, id) is Some,
    decreases k,
{
    if exists|j: int| 0 <= j < k && dca_due_for(ds, id, j) {
        let j = choose|j: int| 0 <= j < k && dca_due_for(ds, id, j);
        lemma_first_due_exists(ds, id, j);
    } else {
        assert(dca_due_for(ds, id, k) && forall|j: int| 0 <= j < k ==> !dca_due_for(ds, id, j));
    }
}

proof fn lemma_first_buy_exists(xs: Seq<(Seq<char>, Seq<char>, Seq<char>, Seq<char>, bool)>, id: Seq<char>, k: int)
    requires
        adjusted_buys_for(xs, id, k),
    ensures
        first_buy(xs, id) is Some,
    decreases k,
{
    if exists|j: int| 0 <= j < k && adjusted_buys_for(xs, id, j) {
        let j = choose|j: int| 0 <= j < k && adjusted_buys_for(xs, id, j);
        lemma_first_buy_exists(xs, id, j);
    } else {
        assert(adjusted_buys_for(xs, id, k) && forall|j: int| 0 <= j < k ==> !adjusted_buys_for(xs, id, j));
    }
}

/// An item's source names the kinds of buy its asset has: `DCA` for due DCA
/// items alone, `风险调整` for buying adjusted items alone, `DCA+风险调整`
/// for both.
pub proof fn law_plan_source_names_the_buys(
    s: Seq<AssetView>,
    ds: Seq<(Seq<char>, Seq<char>, Seq<char>, Seq<char>)>,
    xs: Seq<(Seq<char>, Seq<char>, Seq<char>, Seq<char>, bool)>,
    rs: Seq<(Seq<char>, Seq<char>, Seq<Seq<char>>)>,
    id: Seq<char>,
)
    requires
        has_buy(ds, xs, id),
    ensures
        ({
            let src = plan_item_fields(s, ds, xs, rs, id).3;
            let d = exists|k: int| dca_due_for(ds, id, k);
            let a = exists|k: int| adjusted_buys_for(xs, id, k);
            &&& d && a ==> src == "DCA+风险调整"@
            &&& d && !a ==> src == "DCA"@
            &&& !d && a ==> src == "风险调整"@
        }),
{
    if exists|k: int| dca_due_for(ds, id, k) {
        let k = choose|k: int| dca_due_for(ds, id, k);
        lemma_first_due_exists(ds, id, k);
    }
    if exists|k: int| adjusted_buys_for(xs, id, k) {
        let k = choose|k: int| adjusted_buys_for(xs, id, k);
        lemma_first_buy_exists(xs, id, k);
    }
}


/// With the reconciliation gate and the pause on mismatches on, an item
/// whose reconciliation reads `明显差异`, `份额不一致` or `需要校准` is
/// paused, and its first warning asks to check the holdings before buying;
/// unless extreme risk or mock data pause it further, it waits for
/// reconciliation with that warning alone.
pub proof fn law_reconciliation_mismatch_pauses(
    g: DailyPlanGates,
    recon: Seq<char>,
    risk: Seq<char>,
    adjusted: Option<Seq<char>>,
    status: Seq<char>,
)
    requires
        g.include_reconciliation_gate,
        g.pause_on_reconciliation_mismatch,
        recon == "明显差异"@ || recon == "份额不一致"@ || recon == "需要校准"@,
    ensures
        ({
            let r = gates_of(g, recon, risk, adjusted, status);
            &&& r.0
            &&& r.2.len() >= 1
            &&& r.2[0] == "支付宝对账存在明显差异，请先核对持仓后再买入。"@
            &&& risk != "极高风险"@ && adjusted is None ==> r.1 == "等待对账"@ && r.2 == seq![
                "支付宝对账存在明显差异，请先核对持仓后再买入。"@,
            ]
        }),
{
}

/// With every gate on, an item whose reconciliation is known and matching
/// (not a mismatch), under a risk below extreme and without an adjusted
/// status, is neither paused nor changed, and gets no warning.
pub proof fn law_settled_item_passes(g: DailyPlanGates, recon: Seq<char>, risk: Seq<char>, status: Seq<char>)
    requires
        recon != "明显差异"@ && recon != "份额不一致"@ && recon != "需要校准"@ && recon != "未知"@,
        risk != "极高风险"@,
    ensures
        gates_of(g, recon, risk, None, status) == (false, status, Seq::<Seq<char>>::empty()),
{
}


/// With the reconciliation gate on, an item without a snapshot (`未知`)
/// gets the missing-snapshot warning, and is paused to wait for
/// reconciliation exactly when the pause on missing reconciliation is on.
/// Under extreme global risk every item is paused, reads `暂停执行` (unless
/// mock data overrides it) and gets the extreme-risk warning last before
/// any mock-data warning. With the pause on mock data on, an item whose
/// adjusted status mentions `模拟` or `数据不足` is paused, reads `数据不足`
/// and gets the mock-data warning last.
pub proof fn law_gates_pause_as_configured(
    g: DailyPlanGates,
    recon: Seq<char>,
    risk: Seq<char>,
    adjusted: Option<Seq<char>>,
    status: Seq<char>,
)
    ensures
        ({
            let r = gates_of(g, recon, risk, adjusted, status);
            let missing = "缺少支付宝快照，建议执行前核对。"@;
            let mock = g.pause_on_mock_data && (adjusted matches Some(a) && (has_substring(a, "模拟"@)
                || has_substring(a, "数据不足"@)));
            &&& g.include_reconciliation_gate && recon == "未知"@ ==> r.2.len() >= 1 && r.2[0] == missing
            &&& g.include_reconciliation_gate && recon == "未知"@ && risk != "极高风险"@ && !mock ==> (r.0
                == g.pause_on_missing_reconciliation) && (r.0 ==> r.1 == "等待对账"@) && (!r.0 ==> r.1 == status)
            &&& risk == "极高风险"@ ==> r.0 && r.2.contains("全局风险极高，已自动暂停所有执行。"@)
            &&& risk == "极高风险"@ && !mock ==> r.1 == "暂停执行"@ && r.2.last() == "全局风险极高，已自动暂停所有执行。"@
            &&& mock ==> r.0 && r.1 == "数据不足"@ && r.2.last() == "行情数据为模拟或不足，已暂停执行。"@
            &&& !g.include_reconciliation_gate && risk != "极高风险"@ && !mock ==> r == (false, status, Seq::<Seq<char>>::empty())
        }),
{
    reveal_strlit("未知");
    reveal_strlit("明显差异");
    reveal_strlit("份额不一致");
    reveal_strlit("需要校准");
    assert(!is_mismatch("未知"@)) by {
        assert("未知"@[0] != "明显差异"@[0]);
        assert("未知"@[0] != "份额不一致"@[0]);
        assert("未知"@[0] != "需要校准"@[0]);
    }
    let r = gates_of(g, recon, risk, adjusted, status);
    if risk == "极高风险"@ {
        let mock = g.pause_on_mock_data && (adjusted matches Some(a) && (has_substring(a, "模拟"@)
            || has_substring(a, "数据不足"@)));
        let w2 = r.2;
        if mock {
            assert(r.2[r.2.len() - 2] == "全局风险极高，已自动暂停所有执行。"@);
        } else {
            assert(r.2[r.2.len() - 1] == "全局风险极高，已自动暂停所有执行。"@);
        }
    }
}

} // verus!
