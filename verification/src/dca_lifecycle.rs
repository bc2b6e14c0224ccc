//! The DCA lifecycle of a date: for every configured asset, where its plan,
//! its settlement and its reconciliation stand, and what to do next.

use vstd::prelude::*;
use crate::dca::{
    calculate_dca_preview, date_of, find_asset, has_entry_for, iso_format, parsed_date, plan_asset,
    plans_view, preview_status, priority_keys, ranks_before, DcaPlanTerms, DcaPlanView, DcaPreviewEntry,
};
use crate::model::{assets_view, opt_view, AssetConfig, AssetView};
use crate::text::{owned, str_eq};
use crate::watchlist::{str_less, lemma_seq_lt_asymmetric, lemma_seq_lt_irreflexive, lemma_seq_lt_total, lemma_seq_lt_transitive, seq_lt};

verus! {

// ---------------------------------------------------------------------------
// The assets of a lifecycle, by asset id
// ---------------------------------------------------------------------------

/// Asset `i` is the first one with its asset id.
pub open spec fn first_of_its_id(s: Seq<AssetView>, i: int) -> bool {
    0 <= i < s.len() && plan_asset(s, s[i].asset_id) == Some(i)
}

/// Some position of `order` holds an asset with the asset id `id`.
pub open spec fn lists_asset_id(s: Seq<AssetView>, order: Seq<usize>, id: Seq<char>) -> bool {
    exists|k: int| 0 <= k < order.len() && #[trigger] s[order[k] as int].asset_id == id
}

/// `order` lists one asset per asset id of `s` (the first with that id), in
/// increasing order of asset id, and misses no asset id.
pub open spec fn assets_by_id(s: Seq<AssetView>, order: Seq<usize>) -> bool {
    &&& forall|k: int| 0 <= k < order.len() ==> first_of_its_id(s, #[trigger] order[k] as int)
    &&& forall|k1: int, k2: int|
        0 <= k1 < k2 < order.len() ==> seq_lt(
            s[#[trigger] order[k1] as int].asset_id,
            s[#[trigger] order[k2] as int].asset_id,
        )
    &&& forall|i: int| 0 <= i < s.len() ==> #[trigger] lists_asset_id(s, order, s[i].asset_id)
}

/// One asset per distinct asset id, in increasing order of asset id.
fn distinct_assets_by_id(assets: &[AssetConfig]) -> (order: Vec<usize>)
    ensures
        assets_by_id(assets_view(assets@), order@),
{
    let ghost s = assets_view(assets@);
    let n = assets.len();
    let mut order: Vec<usize> = Vec::new();
    let mut i: usize = 0;
    while i < n
        invariant
            n == assets@.len(),
            s == assets_view(assets@),
            i <= n,
            forall|k: int| 0 <= k < order@.len() ==> (#[trigger] order@[k] as int) < i,
            forall|k: int| 0 <= k < order@.len() ==> first_of_its_id(s, #[trigger] order@[k] as int),
            forall|k1: int, k2: int|
                0 <= k1 < k2 < order@.len() ==> seq_lt(
                    s[#[trigger] order@[k1] as int].asset_id,
                    s[#[trigger] order@[k2] as int].asset_id,
                ),
            forall|j: int| 0 <= j < i ==> #[trigger] lists_asset_id(s, order@, s[j].asset_id),
        decreases n - i,
    {
        assert(s[i as int] == assets@[i as int]@);
        let first = find_asset(assets, assets[i].asset_id.as_str());
        if first == Some(i) {
            let ghost id = s[i as int].asset_id;
            // No listed asset has this id: a listed asset is the first of its
            // id and comes before `i`.
            proof {
                assert forall|q: int| 0 <= q < order@.len() implies s[#[trigger] order@[q] as int].asset_id != id by {
                    let j = order@[q] as int;
                    if s[j].asset_id == id {
                        assert(plan_asset(s, id) == Some(j));
                    }
                }
            }
            let mut p: usize = 0;
            while p < order.len() && str_less(assets[order[p]].asset_id.as_str(), assets[i].asset_id.as_str())
                invariant
                    n == assets@.len(),
                    s == assets_view(assets@),
                    i < n,
                    id == s[i as int].asset_id,
                    p <= order@.len(),
                    forall|k: int| 0 <= k < order@.len() ==> (#[trigger] order@[k] as int) < i,
                    forall|q: int| 0 <= q < p ==> seq_lt(s[#[trigger] order@[q] as int].asset_id, id),
                decreases order@.len() - p,
            {
                assert(s[order@[p as int] as int] == assets@[order@[p as int] as int]@);
                p += 1;
            }
            let ghost old_order = order@;
            proof {
                if p < old_order.len() {
                    let jp = old_order[p as int] as int;
                    assert(s[jp] == assets@[jp]@);
                    assert(!seq_lt(s[jp].asset_id, id));
                    assert(s[jp].asset_id != id);
                    lemma_seq_lt_total(s[jp].asset_id, id);
                }
                assert forall|q: int| p <= q < old_order.len() implies seq_lt(id, s[#[trigger] old_order[q] as int].asset_id) by {
                    let jp = old_order[p as int] as int;
                    if q > p {
                        assert(seq_lt(s[jp].asset_id, s[old_order[q] as int].asset_id));
                        lemma_seq_lt_transitive(id, s[jp].asset_id, s[old_order[q] as int].asset_id);
                    }
                }
                old_order.insert_ensures(p as int, i);
            }
            order.insert(p, i);
            proof {
                assert forall|k: int| 0 <= k < order@.len() implies (#[trigger] order@[k] as int) < i + 1
                    && first_of_its_id(s, order@[k] as int) by {
                    if k < p {
                        assert(order@[k] == old_order[k]);
                    } else if k > p {
                        assert(order@[k] == old_order[k - 1]);
                    }
                }
                assert forall|k1: int, k2: int| 0 <= k1 < k2 < order@.len() implies seq_lt(
                    s[#[trigger] order@[k1] as int].asset_id,
                    s[#[trigger] order@[k2] as int].asset_id,
                ) by {
                    if k1 < p {
                        assert(order@[k1] == old_order[k1]);
                        if k2 < p {
                            assert(order@[k2] == old_order[k2]);
                        } else if k2 > p {
                            assert(order@[k2] == old_order[k2 - 1]);
                            lemma_seq_lt_transitive(
                                s[old_order[k1] as int].asset_id,
                                id,
                                s[old_order[k2 - 1] as int].asset_id,
                            );
                        }
                    } else if k1 == p {
                        assert(order@[k2] == old_order[k2 - 1]);
                    } else {
                        assert(order@[k1] == old_order[k1 - 1]);
                        assert(order@[k2] == old_order[k2 - 1]);
                    }
                }
                assert forall|j: int| 0 <= j < i + 1 implies #[trigger] lists_asset_id(s, order@, s[j].asset_id) by {
                    if j == i {
                        assert(s[order@[p as int] as int].asset_id == s[j].asset_id);
                    } else {
                        assert(lists_asset_id(s, old_order, s[j].asset_id));
                        let k = choose|k: int| 0 <= k < old_order.len() && #[trigger] s[old_order[k] as int].asset_id == s[j].asset_id;
                        if k < p {
                            assert(order@[k] == old_order[k]);
                        } else {
                            assert(order@[k + 1] == old_order[k]);
                        }
                    }
                }
            }
        } else {
            proof {
                // The first asset with this id comes earlier and is listed.
                crate::dca::lemma_plan_asset_found(s, s[i as int].asset_id, i as int);
                let f = match first {
                    Some(x) => x as int,
                    None => 0,
                };
                assert(plan_asset(s, s[i as int].asset_id) == Some(f));
                crate::dca::lemma_plan_asset_is_first(s, s[i as int].asset_id, f);
                assert(f < i);
                assert(lists_asset_id(s, order@, s[f].asset_id));
            }
        }
        i += 1;
    }
    order
}

// ---------------------------------------------------------------------------
// Settlements, snapshots and holdings
// ---------------------------------------------------------------------------

/// What the lifecycle reads of a DCA settlement.
#[derive(Debug)]
pub struct SettlementRecord {
    pub settlement_id: String,
    pub asset_id: String,
    pub scheduled_date: Option<String>,
    pub deduction_date: String,
    pub applied: bool,
}

/// A settlement as mathematical values.
pub struct SettlementView {
    pub settlement_id: Seq<char>,
    pub asset_id: Seq<char>,
    pub scheduled_date: Option<Seq<char>>,
    pub deduction_date: Seq<char>,
    pub applied: bool,
}

impl View for SettlementRecord {
    type V = SettlementView;

    open spec fn view(&self) -> SettlementView {
        SettlementView {
            settlement_id: self.settlement_id@,
            asset_id: self.asset_id@,
            scheduled_date: opt_view(self.scheduled_date),
            deduction_date: self.deduction_date@,
            applied: self.applied,
        }
    }
}

/// The settlements as mathematical values.
pub open spec fn settlements_view(v: Seq<SettlementRecord>) -> Seq<SettlementView> {
    Seq::new(v.len(), |i: int| v[i]@)
}

/// What the lifecycle reads of an Alipay snapshot: the asset, the date, and
/// the status that reconciling the system holding against it gives.
#[derive(Debug)]
pub struct SnapshotRecord {
    pub snapshot_id: String,
    pub asset_id: String,
    pub snapshot_date: String,
    pub reconciliation_status: String,
}

/// A snapshot as mathematical values.
pub struct SnapshotView {
    pub snapshot_id: Seq<char>,
    pub asset_id: Seq<char>,
    pub snapshot_date: Seq<char>,
    pub reconciliation_status: Seq<char>,
}

impl View for SnapshotRecord {
    type V = SnapshotView;

    open spec fn view(&self) -> SnapshotView {
        SnapshotView {
            snapshot_id: self.snapshot_id@,
            asset_id: self.asset_id@,
            snapshot_date: self.snapshot_date@,
            reconciliation_status: self.reconciliation_status@,
        }
    }
}

/// The snapshots as mathematical values.
pub open spec fn snapshots_view(v: Seq<SnapshotRecord>) -> Seq<SnapshotView> {
    Seq::new(v.len(), |i: int| v[i]@)
}

/// The settlement is the asset's and falls on the target date: scheduled for
/// it, or deducted on it.
pub open spec fn settles_on(v: SettlementView, id: Seq<char>, target: Seq<char>) -> bool {
    v.asset_id == id && (v.scheduled_date == Some(target) || v.deduction_date == target)
}

/// `j` is the first settlement of the asset on the target date.
pub open spec fn is_first_settlement(ss: Seq<SettlementView>, id: Seq<char>, target: Seq<char>, j: int) -> bool {
    &&& 0 <= j < ss.len()
    &&& settles_on(ss[j], id, target)
    &&& forall|k: int| 0 <= k < j ==> !settles_on(#[trigger] ss[k], id, target)
}

/// The asset's settlement for the target date: the first that falls on it.
pub open spec fn lifecycle_settlement(ss: Seq<SettlementView>, id: Seq<char>, target: Seq<char>) -> Option<int> {
    if exists|j: int| is_first_settlement(ss, id, target, j) {
        Some(choose|j: int| is_first_settlement(ss, id, target, j))
    } else {
        None
    }
}

/// `j` is the asset's latest snapshot: no snapshot of the asset has a later
/// date, and every later position with the asset has an earlier date (the
/// last of equally late snapshots wins).
pub open spec fn is_latest_snapshot(sn: Seq<SnapshotView>, id: Seq<char>, j: int) -> bool {
    &&& 0 <= j < sn.len()
    &&& sn[j].asset_id == id
    &&& forall|k: int|
        0 <= k < sn.len() && (#[trigger] sn[k]).asset_id == id ==> !seq_lt(sn[j].snapshot_date, sn[k].snapshot_date)
            && (k > j ==> seq_lt(sn[k].snapshot_date, sn[j].snapshot_date))
}

/// The asset's latest snapshot, if it has one.
pub open spec fn latest_snapshot(sn: Seq<SnapshotView>, id: Seq<char>) -> Option<int> {
    if exists|j: int| is_latest_snapshot(sn, id, j) {
        Some(choose|j: int| is_latest_snapshot(sn, id, j))
    } else {
        None
    }
}

/// The system has a holding of the asset.
pub open spec fn holds_asset(hs: Seq<Seq<char>>, id: Seq<char>) -> bool {
    exists|k: int| 0 <= k < hs.len() && hs[k] == id
}

/// `i` is the plan that the preview lists first for the asset.
pub open spec fn is_top_plan(ps: Seq<DcaPlanView>, id: Seq<char>, i: int) -> bool {
    &&& 0 <= i < ps.len()
    &&& ps[i].asset_id == id
    &&& forall|j: int|
        0 <= j < ps.len() && j != i && (#[trigger] ps[j]).asset_id == id ==> ranks_before(priority_keys(ps), i, j)
}

/// The asset's plan in the preview: the one with the highest priority (the
/// earliest among equals).
pub open spec fn top_plan(ps: Seq<DcaPlanView>, id: Seq<char>) -> Option<int> {
    if exists|i: int| is_top_plan(ps, id, i) {
        Some(choose|i: int| is_top_plan(ps, id, i))
    } else {
        None
    }
}

proof fn lemma_first_settlement_unique(ss: Seq<SettlementView>, id: Seq<char>, target: Seq<char>, j: int)
    requires
        is_first_settlement(ss, id, target, j),
    ensures
        lifecycle_settlement(ss, id, target) == Some(j),
{
    let k = choose|k: int| is_first_settlement(ss, id, target, k);
    assert(is_first_settlement(ss, id, target, k));
    if k < j {
        assert(!settles_on(ss[k], id, target));
    } else if k > j {
        assert(!settles_on(ss[j], id, target));
    }
}

proof fn lemma_latest_snapshot_unique(sn: Seq<SnapshotView>, id: Seq<char>, j: int)
    requires
        is_latest_snapshot(sn, id, j),
    ensures
        latest_snapshot(sn, id) == Some(j),
{
    let k = choose|k: int| is_latest_snapshot(sn, id, k);
    assert(is_latest_snapshot(sn, id, k));
    if k < j {
        assert(seq_lt(sn[j].snapshot_date, sn[k].snapshot_date));
    } else if k > j {
        assert(seq_lt(sn[k].snapshot_date, sn[j].snapshot_date));
    }
}

proof fn lemma_top_plan_unique(ps: Seq<DcaPlanView>, id: Seq<char>, i: int)
    requires
        is_top_plan(ps, id, i),
    ensures
        top_plan(ps, id) == Some(i),
{
    let k = choose|k: int| is_top_plan(ps, id, k);
    assert(is_top_plan(ps, id, k));
    if k != i {
        assert(ranks_before(priority_keys(ps), i, k));
        assert(ranks_before(priority_keys(ps), k, i));
    }
}

/// The index of the asset's settlement for the target date.
fn find_settlement(settlements: &[SettlementRecord], asset_id: &str, target: &str) -> (r: Option<usize>)
    ensures
        match r {
            Some(j) => (j as int) < settlements@.len() && lifecycle_settlement(settlements_view(settlements@), asset_id@, target@) == Some(j as int),
            None => lifecycle_settlement(settlements_view(settlements@), asset_id@, target@) == None::<int>,
        },
{
    let ghost ss = settlements_view(settlements@);
    let n = settlements.len();
    let mut j: usize = 0;
    while j < n
        invariant
            n == settlements@.len(),
            ss == settlements_view(settlements@),
            j <= n,
            forall|k: int| 0 <= k < j ==> !settles_on(#[trigger] ss[k], asset_id@, target@),
        decreases n - j,
    {
        let st = &settlements[j];
        let on_date = match &st.scheduled_date {
            Some(d) => str_eq(d.as_str(), target),
            None => false,
        } || str_eq(st.deduction_date.as_str(), target);
        if str_eq(st.asset_id.as_str(), asset_id) && on_date {
            proof {
                assert(is_first_settlement(ss, asset_id@, target@, j as int));
                lemma_first_settlement_unique(ss, asset_id@, target@, j as int);
            }
            return Some(j);
        }
        j += 1;
    }
    None
}

/// The index of the asset's latest snapshot.
fn find_latest_snapshot(snapshots: &[SnapshotRecord], asset_id: &str) -> (r: Option<usize>)
    ensures
        match r {
            Some(j) => (j as int) < snapshots@.len() && latest_snapshot(snapshots_view(snapshots@), asset_id@) == Some(j as int),
            None => latest_snapshot(snapshots_view(snapshots@), asset_id@) == None::<int>,
        },
{
    let ghost sn = snapshots_view(snapshots@);
    let n = snapshots.len();
    let mut best: Option<usize> = None;
    let mut k: usize = 0;
    while k < n
        invariant
            n == snapshots@.len(),
            sn == snapshots_view(snapshots@),
            k <= n,
            match best {
                None => forall|q: int| 0 <= q < k ==> (#[trigger] sn[q]).asset_id != asset_id@,
                Some(b) => is_latest_snapshot(sn.take(k as int), asset_id@, b as int),
            },
        decreases n - k,
    {
        let ghost prefix = sn.take(k as int);
        let ghost next = sn.take(k + 1);
        assert(next.drop_last() =~= prefix);
        assert(next[k as int] == sn[k as int]);
        if str_eq(snapshots[k].asset_id.as_str(), asset_id) {
            let replace = match best {
                None => true,
                Some(b) => !str_less(snapshots[k].snapshot_date.as_str(), snapshots[b].snapshot_date.as_str()),
            };
            if replace {
                proof {
                    match best {
                        None => {},
                        Some(b) => {
                            lemma_seq_lt_total(sn[k as int].snapshot_date, sn[b as int].snapshot_date);
                        },
                    }
                    assert forall|q: int|
                        0 <= q < next.len() && (#[trigger] next[q]).asset_id == asset_id@ implies !seq_lt(
                            next[k as int].snapshot_date,
                            next[q].snapshot_date,
                        ) && (q > k ==> seq_lt(next[q].snapshot_date, next[k as int].snapshot_date)) by {
                        if q < k {
                            assert(next[q] == prefix[q]);
                            match best {
                                None => {},
                                Some(b) => {
                                    assert(prefix[b as int] == sn[b as int]);
                                    assert(!seq_lt(prefix[b as int].snapshot_date, prefix[q].snapshot_date));
                                    if seq_lt(sn[k as int].snapshot_date, sn[q].snapshot_date) {
                                        lemma_seq_lt_total(sn[q].snapshot_date, sn[b as int].snapshot_date);
                                        if seq_lt(sn[q].snapshot_date, sn[b as int].snapshot_date) {
                                            lemma_seq_lt_transitive(
                                                sn[k as int].snapshot_date,
                                                sn[q].snapshot_date,
                                                sn[b as int].snapshot_date,
                                            );
                                            lemma_seq_lt_asymmetric(sn[k as int].snapshot_date, sn[b as int].snapshot_date);
                                        }
                                    }
                                },
                            }
                        } else {
                            lemma_seq_lt_irreflexive(sn[k as int].snapshot_date);
                        }
                    }
                }
                best = Some(k);
            } else {
                proof {
                    let b = best->0 as int;
                    assert(prefix[b] == sn[b]);
                    assert forall|q: int|
                        0 <= q < next.len() && (#[trigger] next[q]).asset_id == asset_id@ implies !seq_lt(
                            next[b].snapshot_date,
                            next[q].snapshot_date,
                        ) && (q > b ==> seq_lt(next[q].snapshot_date, next[b].snapshot_date)) by {
                        if q < k {
                            assert(next[q] == prefix[q]);
                        } else {
                            lemma_seq_lt_asymmetric(sn[k as int].snapshot_date, sn[b].snapshot_date);
                        }
                    }
                }
            }
        } else {
            proof {
                match best {
                    None => {},
                    Some(b) => {
                        assert(prefix[b as int] == sn[b as int]);
                        assert forall|q: int|
                            0 <= q < next.len() && (#[trigger] next[q]).asset_id == asset_id@ implies !seq_lt(
                                next[b as int].snapshot_date,
                                next[q].snapshot_date,
                            ) && (q > b ==> seq_lt(next[q].snapshot_date, next[b as int].snapshot_date)) by {
                            assert(q < k);
                            assert(next[q] == prefix[q]);
                        }
                    },
                }
            }
        }
        k += 1;
    }
    assert(sn.take(n as int) =~= sn);
    match best {
        Some(b) => {
            proof {
                lemma_latest_snapshot_unique(sn, asset_id@, b as int);
            }
            Some(b)
        },
        None => {
            proof {
                if exists|j: int| is_latest_snapshot(sn, asset_id@, j) {
                    let j = choose|j: int| is_latest_snapshot(sn, asset_id@, j);
                    assert(sn[j].asset_id == asset_id@);
                }
            }
            None
        },
    }
}

/// Whether some holding is of the asset.
fn has_holding(holding_asset_ids: &[String], asset_id: &str) -> (r: bool)
    ensures
        r == holds_asset(holding_asset_ids@.map_values(|h: String| h@), asset_id@),
{
    let ghost hs = holding_asset_ids@.map_values(|h: String| h@);
    let n = holding_asset_ids.len();
    let mut k: usize = 0;
    while k < n
        invariant
            n == holding_asset_ids@.len(),
            hs == holding_asset_ids@.map_values(|h: String| h@),
            k <= n,
            forall|q: int| 0 <= q < k ==> hs[q] != asset_id@,
        decreases n - k,
    {
        if str_eq(holding_asset_ids[k].as_str(), asset_id) {
            assert(hs[k as int] == asset_id@);
            return true;
        }
        k += 1;
    }
    false
}

// ---------------------------------------------------------------------------
// The verdict of an asset
// ---------------------------------------------------------------------------

/// Where an asset stands in the lifecycle, and which counters it adds to.
pub struct LifecycleVerdict {
    pub status: Seq<char>,
    pub action: Seq<char>,
    pub reconciliation: Seq<char>,
    pub due: bool,
    pub waiting: bool,
    pub unapplied: bool,
    pub reconciled: bool,
    pub attention: bool,
}

/// The lifecycle of an asset from its plan's preview status (if it has a
/// plan in the preview), its settlement on the date (whether it was
/// applied), the reconciliation status of its latest snapshot, and whether
/// the system holds it. A settlement decides first (`已入账` or
/// `已确认未入账`); without one, a due plan waits for confirmation. An
/// applied settlement, or an asset held without plan or settlement, is then
/// judged by its latest snapshot, or waits for one. A disabled asset reads
/// `已暂停` in the end; its counters stay.
pub open spec fn lifecycle_verdict(
    enabled: bool,
    plan_status: Option<Seq<char>>,
    settlement_applied: Option<bool>,
    snapshot_status: Option<Seq<char>>,
    held: bool,
) -> LifecycleVerdict {
    let due = plan_status == Some("今日应投"@);
    let s1 = match settlement_applied {
        Some(applied) => if applied {
            "已入账"@
        } else {
            "已确认未入账"@
        },
        None => if due {
            "今日应定投"@
        } else {
            "无计划"@
        },
    };
    let a1 = match settlement_applied {
        Some(applied) => if applied {
            "无需处理"@
        } else {
            "执行定投确认入账"@
        },
        None => if due {
            "录入定投确认"@
        } else {
            "无需处理"@
        },
    };
    let refine = s1 == "已入账"@ || (settlement_applied is None && plan_status is None && held);
    let recon = if refine && snapshot_status is Some {
        snapshot_status->0
    } else {
        "未知"@
    };
    let s2 = if !refine {
        s1
    } else {
        match snapshot_status {
            Some(r) => if r == "一致"@ {
                "对账一致"@
            } else if r == "小幅差异"@ {
                "对账小幅差异"@
            } else {
                "对账明显差异"@
            },
            None => if held {
                "等待支付宝快照"@
            } else {
                s1
            },
        }
    };
    let a2 = if !refine {
        a1
    } else {
        match snapshot_status {
            Some(r) => if r == "一致"@ {
                a1
            } else if r == "小幅差异"@ {
                "先处理对账差异"@
            } else {
                "需要人工处理"@
            },
            None => if held {
                "录入支付宝快照"@
            } else {
                a1
            },
        }
    };
    LifecycleVerdict {
        status: if enabled {
            s2
        } else {
            "已暂停"@
        },
        action: if enabled {
            a2
        } else {
            "无需处理"@
        },
        reconciliation: recon,
        due: due,
        waiting: settlement_applied is None && due,
        unapplied: settlement_applied == Some(false),
        reconciled: refine && snapshot_status == Some("一致"@),
        attention: refine && (snapshot_status matches Some(r) && r != "一致"@ && r != "小幅差异"@),
    }
}

/// Decides the lifecycle of one asset.
fn decide(
    enabled: bool,
    plan_status: Option<&str>,
    settlement_applied: Option<bool>,
    snapshot_status: Option<&str>,
    held: bool,
) -> (r: (String, String, String, [bool; 5]))
    ensures
        ({
            let v = lifecycle_verdict(
                enabled,
                match plan_status {
                    Some(p) => Some(p@),
                    None => None,
                },
                settlement_applied,
                match snapshot_status {
                    Some(x) => Some(x@),
                    None => None,
                },
                held,
            );
            &&& r.0@ == v.status
            &&& r.1@ == v.action
            &&& r.2@ == v.reconciliation
            &&& r.3[0] == v.due
            &&& r.3[1] == v.waiting
            &&& r.3[2] == v.unapplied
            &&& r.3[3] == v.reconciled
            &&& r.3[4] == v.attention
        }),
{
    let due = match plan_status {
        Some(p) => str_eq(p, "今日应投"),
        None => false,
    };
    let mut waiting = false;
    let mut unapplied = false;
    let mut reconciled = false;
    let mut attention = false;
    let mut status;
    let mut action = owned("无需处理");
    match settlement_applied {
        Some(applied) => {
            if applied {
                status = owned("已入账");
            } else {
                status = owned("已确认未入账");
                action = owned("执行定投确认入账");
                unapplied = true;
            }
        },
        None => {
            if due {
                status = owned("今日应定投");
                action = owned("录入定投确认");
                waiting = true;
            } else {
                status = owned("无计划");
            }
        },
    }
    let mut recon = owned("未知");
    if str_eq(status.as_str(), "已入账") || (settlement_applied.is_none() && plan_status.is_none() && held) {
        match snapshot_status {
            Some(r) => {
                recon = owned(r);
                if str_eq(r, "一致") {
                    status = owned("对账一致");
                    reconciled = true;
                } else if str_eq(r, "小幅差异") {
                    status = owned("对账小幅差异");
                    action = owned("先处理对账差异");
                } else {
                    status = owned("对账明显差异");
                    action = owned("需要人工处理");
                    attention = true;
                }
            },
            None => {
                if held {
                    status = owned("等待支付宝快照");
                    action = owned("录入支付宝快照");
                }
            },
        }
    }
    if !enabled {
        status = owned("已暂停");
        action = owned("无需处理");
    }
    (status, action, recon, [due, waiting, unapplied, reconciled, attention])
}

// ---------------------------------------------------------------------------
// The lifecycle of a date
// ---------------------------------------------------------------------------

/// The plan of the asset in the preview of the target date: none when the
/// date does not parse (the preview is then empty).
pub open spec fn plan_of(ps: Seq<DcaPlanView>, id: Seq<char>, target: Seq<char>) -> Option<int> {
    match parsed_date(target, iso_format()) {
        Some(_) => top_plan(ps, id),
        None => None,
    }
}

/// The verdict of asset `a` on the target date.
pub open spec fn asset_verdict(
    s: Seq<AssetView>,
    ps: Seq<DcaPlanView>,
    ss: Seq<SettlementView>,
    sn: Seq<SnapshotView>,
    hs: Seq<Seq<char>>,
    target: Seq<char>,
    a: int,
) -> LifecycleVerdict {
    let id = s[a].asset_id;
    lifecycle_verdict(
        s[a].enabled,
        match parsed_date(target, iso_format()) {
            Some(t) => match top_plan(ps, id) {
                Some(i) => Some(preview_status(s, ps[i], date_of(t))),
                None => None,
            },
            None => None,
        },
        match lifecycle_settlement(ss, id, target) {
            Some(j) => Some(ss[j].applied),
            None => None,
        },
        match latest_snapshot(sn, id) {
            Some(j) => Some(sn[j].reconciliation_status),
            None => None,
        },
        holds_asset(hs, id),
    )
}

/// An optional position as an optional integer.
pub open spec fn opt_int(o: Option<usize>) -> Option<int> {
    match o {
        Some(i) => Some(i as int),
        None => None,
    }
}

/// One asset of the lifecycle: the asset (the first with its id), its plan,
/// settlement and latest snapshot by position, and where it stands.
#[derive(Debug)]
pub struct DcaLifecycleItem {
    pub asset_index: usize,
    pub plan_index: Option<usize>,
    pub settlement_index: Option<usize>,
    pub snapshot_index: Option<usize>,
    pub reconciliation_status: String,
    pub lifecycle_status: String,
    pub suggested_next_action: String,
}

/// The lifecycle of a date: one item per asset id, in increasing order of
/// asset id, and the counters.
#[derive(Debug)]
pub struct DcaLifecycleOutcome {
    pub items: Vec<DcaLifecycleItem>,
    pub count_due: usize,
    pub count_waiting_confirmation: usize,
    pub count_unapplied: usize,
    pub count_reconciled: usize,
    pub count_attention_required: usize,
}

/// The item states its asset's plan, settlement, snapshot and verdict.
pub open spec fn item_matches(
    s: Seq<AssetView>,
    ps: Seq<DcaPlanView>,
    ss: Seq<SettlementView>,
    sn: Seq<SnapshotView>,
    hs: Seq<Seq<char>>,
    target: Seq<char>,
    it: DcaLifecycleItem,
) -> bool {
    let a = it.asset_index as int;
    let id = s[a].asset_id;
    let v = asset_verdict(s, ps, ss, sn, hs, target, a);
    &&& opt_int(it.plan_index) == plan_of(ps, id, target)
    &&& opt_int(it.settlement_index) == lifecycle_settlement(ss, id, target)
    &&& opt_int(it.snapshot_index) == latest_snapshot(sn, id)
    &&& it.lifecycle_status@ == v.status
    &&& it.suggested_next_action@ == v.action
    &&& it.reconciliation_status@ == v.reconciliation
}

/// How many verdicts satisfy `f`.
pub open spec fn count_where(vs: Seq<LifecycleVerdict>, f: spec_fn(LifecycleVerdict) -> bool) -> nat
    decreases vs.len(),
{
    if vs.len() == 0 {
        0
    } else {
        count_where(vs.drop_last(), f) + if f(vs.last()) {
            1nat
        } else {
            0nat
        }
    }
}

/// The asset's plan is due today.
pub open spec fn counts_due() -> spec_fn(LifecycleVerdict) -> bool {
    |v: LifecycleVerdict| v.due
}

/// The asset's due plan waits for a settlement.
pub open spec fn counts_waiting() -> spec_fn(LifecycleVerdict) -> bool {
    |v: LifecycleVerdict| v.waiting
}

/// The asset's settlement is confirmed but not applied.
pub open spec fn counts_unapplied() -> spec_fn(LifecycleVerdict) -> bool {
    |v: LifecycleVerdict| v.unapplied
}

/// The asset reconciles with its latest snapshot.
pub open spec fn counts_reconciled() -> spec_fn(LifecycleVerdict) -> bool {
    |v: LifecycleVerdict| v.reconciled
}

/// The asset's reconciliation needs a person.
pub open spec fn counts_attention() -> spec_fn(LifecycleVerdict) -> bool {
    |v: LifecycleVerdict| v.attention
}

/// The verdicts of the listed assets.
pub open spec fn verdicts_of(
    s: Seq<AssetView>,
    ps: Seq<DcaPlanView>,
    ss: Seq<SettlementView>,
    sn: Seq<SnapshotView>,
    hs: Seq<Seq<char>>,
    target: Seq<char>,
    order: Seq<usize>,
) -> Seq<LifecycleVerdict> {
    Seq::new(order.len(), |k: int| asset_verdict(s, ps, ss, sn, hs, target, order[k] as int))
}

/// The position of the preview entry of the asset's plan.
fn top_plan_entry(entries: &Vec<DcaPreviewEntry>, plans: &[DcaPlanTerms], asset_id: &str) -> (r: Option<usize>)
    requires
        forall|k: int| 0 <= k < entries@.len() ==> (#[trigger] entries@[k]).plan_index < plans@.len(),
        forall|k1: int, k2: int|
            0 <= k1 < k2 < entries@.len() ==> ranks_before(
                priority_keys(plans_view(plans@)),
                (#[trigger] entries@[k1]).plan_index as int,
                (#[trigger] entries@[k2]).plan_index as int,
            ),
        forall|i: int| 0 <= i < plans@.len() ==> #[trigger] has_entry_for(entries@, i),
    ensures
        match r {
            Some(k) => (k as int) < entries@.len() && top_plan(plans_view(plans@), asset_id@) == Some(
                entries@[k as int].plan_index as int,
            ),
            None => top_plan(plans_view(plans@), asset_id@) == None::<int>,
        },
{
    let ghost ps = plans_view(plans@);
    let n = entries.len();
    let mut k: usize = 0;
    while k < n
        invariant
            n == entries@.len(),
            ps == plans_view(plans@),
            k <= n,
            forall|q: int| 0 <= q < entries@.len() ==> (#[trigger] entries@[q]).plan_index < plans@.len(),
            forall|q1: int, q2: int|
                0 <= q1 < q2 < entries@.len() ==> ranks_before(
                    priority_keys(ps),
                    (#[trigger] entries@[q1]).plan_index as int,
                    (#[trigger] entries@[q2]).plan_index as int,
                ),
            forall|i: int| 0 <= i < plans@.len() ==> #[trigger] has_entry_for(entries@, i),
            forall|q: int| 0 <= q < k ==> ps[(#[trigger] entries@[q]).plan_index as int].asset_id != asset_id@,
        decreases n - k,
    {
        let i = entries[k].plan_index;
        assert(ps[i as int] == plans@[i as int]@);
        if str_eq(plans[i].asset_id.as_str(), asset_id) {
            proof {
                assert forall|j: int|
                    0 <= j < ps.len() && j != i && (#[trigger] ps[j]).asset_id == asset_id@ implies ranks_before(
                        priority_keys(ps),
                        i as int,
                        j,
                    ) by {
                    assert(has_entry_for(entries@, j));
                    let q = choose|q: int| 0 <= q < entries@.len() && entries@[q].plan_index == j;
                    assert(q != k);
                    if q < k {
                        assert(ps[entries@[q].plan_index as int].asset_id != asset_id@);
                    }
                }
                assert(is_top_plan(ps, asset_id@, i as int));
                lemma_top_plan_unique(ps, asset_id@, i as int);
            }
            return Some(k);
        }
        k += 1;
    }
    proof {
        if exists|i: int| is_top_plan(ps, asset_id@, i) {
            let i = choose|i: int| is_top_plan(ps, asset_id@, i);
            assert(has_entry_for(entries@, i));
            let q = choose|q: int| 0 <= q < entries@.len() && entries@[q].plan_index == i;
            assert(ps[entries@[q].plan_index as int].asset_id != asset_id@);
        }
    }
    None
}

/// The DCA lifecycle of the target date (`%Y-%m-%d`): for every asset id
/// (the first asset with that id), in increasing order of asset id, its
/// plan in the preview of the date, its settlement on the date, its latest
/// Alipay snapshot, and where it stands; with the counters of due plans,
/// plans waiting for confirmation, unapplied settlements, reconciled assets
/// and assets that need a person.
pub fn calculate_dca_lifecycle(
    assets: &[AssetConfig],
    plans: &[DcaPlanTerms],
    settlements: &[SettlementRecord],
    snapshots: &[SnapshotRecord],
    holding_asset_ids: &[String],
    target_date: &str,
) -> (r: DcaLifecycleOutcome)
    ensures
        ({
            let s = assets_view(assets@);
            let ps = plans_view(plans@);
            let ss = settlements_view(settlements@);
            let sn = snapshots_view(snapshots@);
            let hs = holding_asset_ids@.map_values(|h: String| h@);
            let order = r.items@.map_values(|it: DcaLifecycleItem| it.asset_index);
            let vs = verdicts_of(s, ps, ss, sn, hs, target_date@, order);
            &&& assets_by_id(s, order)
            &&& forall|k: int| 0 <= k < r.items@.len() ==> item_matches(s, ps, ss, sn, hs, target_date@, #[trigger] r.items@[k])
            &&& r.count_due == count_where(vs, counts_due())
            &&& r.count_waiting_confirmation == count_where(vs, counts_waiting())
            &&& r.count_unapplied == count_where(vs, counts_unapplied())
            &&& r.count_reconciled == count_where(vs, counts_reconciled())
            &&& r.count_attention_required == count_where(vs, counts_attention())
        }),
{
    let ghost s = assets_view(assets@);
    let ghost ps = plans_view(plans@);
    let ghost ss = settlements_view(settlements@);
    let ghost sn = snapshots_view(snapshots@);
    let ghost hs = holding_asset_ids@.map_values(|h: String| h@);
    let ghost target = target_date@;
    let preview = calculate_dca_preview(assets, plans, target_date);
    let order = distinct_assets_by_id(assets);
    let n = order.len();
    let mut items: Vec<DcaLifecycleItem> = Vec::new();
    let mut count_due: usize = 0;
    let mut count_waiting: usize = 0;
    let mut count_unapplied: usize = 0;
    let mut count_reconciled: usize = 0;
    let mut count_attention: usize = 0;
    let mut k: usize = 0;
    while k < n
        invariant
            n == order@.len(),
            s == assets_view(assets@),
            ps == plans_view(plans@),
            ss == settlements_view(settlements@),
            sn == snapshots_view(snapshots@),
            hs == holding_asset_ids@.map_values(|h: String| h@),
            target == target_date@,
            assets_by_id(s, order@),
            match parsed_date(target_date@, iso_format()) {
                None => preview.entries@.len() == 0,
                Some(t) => {
                    &&& preview.entries@.len() == plans@.len()
                    &&& forall|q: int| 0 <= q < preview.entries@.len() ==> crate::dca::entry_reviews(s, ps, date_of(t), #[trigger] preview.entries@[q])
                    &&& forall|q1: int, q2: int|
                        0 <= q1 < q2 < preview.entries@.len() ==> ranks_before(
                            priority_keys(ps),
                            (#[trigger] preview.entries@[q1]).plan_index as int,
                            (#[trigger] preview.entries@[q2]).plan_index as int,
                        )
                    &&& forall|i: int| 0 <= i < plans@.len() ==> #[trigger] has_entry_for(preview.entries@, i)
                },
            },
            k <= n,
            items@.len() == k,
            forall|q: int| 0 <= q < k ==> (#[trigger] items@[q]).asset_index == order@[q],
            forall|q: int| 0 <= q < k ==> item_matches(s, ps, ss, sn, hs, target, #[trigger] items@[q]),
            count_due <= k,
            count_waiting <= k,
            count_unapplied <= k,
            count_reconciled <= k,
            count_attention <= k,
            count_due == count_where(verdicts_of(s, ps, ss, sn, hs, target, order@.take(k as int)), counts_due()),
            count_waiting == count_where(verdicts_of(s, ps, ss, sn, hs, target, order@.take(k as int)), counts_waiting()),
            count_unapplied == count_where(verdicts_of(s, ps, ss, sn, hs, target, order@.take(k as int)), counts_unapplied()),
            count_reconciled == count_where(verdicts_of(s, ps, ss, sn, hs, target, order@.take(k as int)), counts_reconciled()),
            count_attention == count_where(verdicts_of(s, ps, ss, sn, hs, target, order@.take(k as int)), counts_attention()),
        decreases n - k,
    {
        let a = order[k];
        proof {
            assert(crate::dca_lifecycle::first_of_its_id(s, order@[k as int] as int));
        }
        assert(s[a as int] == assets@[a as int]@);
        let id = assets[a].asset_id.as_str();
        let (plan_index, plan_status) = if preview.entries.len() == 0 {
            proof {
                if parsed_date(target, iso_format()) is Some {
                    assert(!exists|i: int| is_top_plan(ps, s[a as int].asset_id, i));
                }
            }
            (None, None)
        } else {
            match top_plan_entry(&preview.entries, plans, id) {
                Some(q) => {
                    let i = preview.entries[q].plan_index;
                    (Some(i), Some(preview.entries[q].status.as_str()))
                },
                None => (None, None),
            }
        };
        let settlement_index = find_settlement(settlements, id, target_date);
        let applied = match settlement_index {
            Some(j) => {
                assert(ss[j as int] == settlements@[j as int]@);
                Some(settlements[j].applied)
            },
            None => None,
        };
        let snapshot_index = find_latest_snapshot(snapshots, id);
        let snap_status = match snapshot_index {
            Some(j) => {
                assert(sn[j as int] == snapshots@[j as int]@);
                Some(snapshots[j].reconciliation_status.as_str())
            },
            None => None,
        };
        let held = has_holding(holding_asset_ids, id);
        let (status, action, recon, flags) = decide(assets[a].enabled, plan_status, applied, snap_status, held);
        let ghost v = asset_verdict(s, ps, ss, sn, hs, target, a as int);
        let ghost prev = verdicts_of(s, ps, ss, sn, hs, target, order@.take(k as int));
        let ghost next = verdicts_of(s, ps, ss, sn, hs, target, order@.take(k + 1));
        proof {
            assert(next.drop_last() =~= prev);
            assert(next.last() == v);
        }
        if flags[0] {
            count_due = count_due + 1;
        }
        if flags[1] {
            count_waiting = count_waiting + 1;
        }
        if flags[2] {
            count_unapplied = count_unapplied + 1;
        }
        if flags[3] {
            count_reconciled = count_reconciled + 1;
        }
        if flags[4] {
            count_attention = count_attention + 1;
        }
        let item = DcaLifecycleItem {
            asset_index: a,
            plan_index,
            settlement_index,
            snapshot_index,
            reconciliation_status: recon,
            lifecycle_status: status,
            suggested_next_action: action,
        };
        items.push(item);
        k += 1;
    }
    proof {
        assert(order@.take(n as int) =~= order@);
        assert(items@.map_values(|it: DcaLifecycleItem| it.asset_index) =~= order@);
    }
    DcaLifecycleOutcome {
        items,
        count_due,
        count_waiting_confirmation: count_waiting,
        count_unapplied,
        count_reconciled,
        count_attention_required: count_attention,
    }
}

/// A disabled asset reads `已暂停` and needs nothing; an asset waiting for
/// confirmation has a due plan; no asset both waits for confirmation and has
/// an unapplied settlement, nor both reconciles and needs a person.
pub proof fn law_lifecycle_verdicts_are_consistent(
    enabled: bool,
    plan_status: Option<Seq<char>>,
    settlement_applied: Option<bool>,
    snapshot_status: Option<Seq<char>>,
    held: bool,
)
    ensures
        ({
            let v = lifecycle_verdict(enabled, plan_status, settlement_applied, snapshot_status, held);
            &&& !enabled ==> v.status == "已暂停"@ && v.action == "无需处理"@
            &&& v.waiting ==> v.due
            &&& !(v.waiting && v.unapplied)
            &&& !(v.reconciled && v.attention)
        }),
{
}

/// No counter of a lifecycle exceeds the number of its assets.
pub proof fn law_lifecycle_counters_are_bounded(vs: Seq<LifecycleVerdict>, f: spec_fn(LifecycleVerdict) -> bool)
    ensures
        count_where(vs, f) <= vs.len(),
    decreases vs.len(),
{
    if vs.len() > 0 {
        law_lifecycle_counters_are_bounded(vs.drop_last(), f);
    }
}


/// An asset counts as reconciled exactly when its latest snapshot, read for
/// the lifecycle, says `一致`: then an enabled asset reads `对账一致`. A
/// `小幅差异` snapshot never counts as reconciled nor as needing a person;
/// an enabled asset with it reads `对账小幅差异` and is told to handle the
/// difference first. An enabled asset needs a person exactly when it reads
/// `对账明显差异`.
pub proof fn law_only_matching_snapshots_reconcile(
    enabled: bool,
    plan_status: Option<Seq<char>>,
    settlement_applied: Option<bool>,
    snapshot_status: Option<Seq<char>>,
    held: bool,
)
    ensures
        ({
            let v = lifecycle_verdict(enabled, plan_status, settlement_applied, snapshot_status, held);
            &&& v.reconciled <==> v.reconciliation == "一致"@
            &&& v.reconciled ==> snapshot_status == Some("一致"@)
            &&& enabled ==> (v.reconciled <==> v.status == "对账一致"@)
            &&& enabled ==> (v.attention <==> v.status == "对账明显差异"@)
            &&& snapshot_status == Some("小幅差异"@) ==> !v.reconciled && !v.attention
            &&& enabled && v.status == "对账小幅差异"@ ==> v.action == "先处理对账差异"@ && !v.reconciled
                && !v.attention
        }),
{
    reveal_strlit("一致");
    reveal_strlit("小幅差异");
    reveal_strlit("未知");
    reveal_strlit("对账一致");
    reveal_strlit("对账小幅差异");
    reveal_strlit("对账明显差异");
    reveal_strlit("已暂停");
    reveal_strlit("已入账");
    reveal_strlit("已确认未入账");
    reveal_strlit("今日应定投");
    reveal_strlit("无计划");
    reveal_strlit("等待支付宝快照");
    assert("未知"@[0] != "一致"@[0]);
    assert("未知"@ != "一致"@);
    let others = seq!["已入账"@, "已确认未入账"@, "今日应定投"@, "无计划"@, "等待支付宝快照"@, "已暂停"@];
    assert forall|k: int| 0 <= k < others.len() implies {
        &&& #[trigger] others[k] != "对账一致"@
        &&& others[k] != "对账小幅差异"@
        &&& others[k] != "对账明显差异"@
    } by {
        assert(others[k][0] != "对账一致"@[0]);
    }
    assert("对账一致"@.len() != "对账小幅差异"@.len());
    assert("对账一致"@.len() != "对账明显差异"@.len());
    assert("对账小幅差异"@[2] != "对账明显差异"@[2]);
    assert(others[0] != "对账一致"@ && others[1] != "对账一致"@ && others[2] != "对账一致"@);
    assert(others[3] != "对账一致"@ && others[4] != "对账一致"@ && others[5] != "对账一致"@);
    assert(others[0] != "对账明显差异"@ && others[1] != "对账明显差异"@ && others[2] != "对账明显差异"@);
    assert(others[3] != "对账明显差异"@ && others[4] != "对账明显差异"@ && others[5] != "对账明显差异"@);
    assert(others[0] != "对账小幅差异"@ && others[1] != "对账小幅差异"@ && others[2] != "对账小幅差异"@);
    assert(others[3] != "对账小幅差异"@ && others[4] != "对账小幅差异"@ && others[5] != "对账小幅差异"@);
    assert("小幅差异"@ != "一致"@);
}


/// For an enabled asset: a settlement confirmed but not applied reads
/// `已确认未入账` and asks to apply it; a due plan without a settlement reads
/// `今日应定投`, asks to record the confirmation and waits for it; an applied
/// settlement or a held asset without plan or settlement and without a
/// snapshot reads `等待支付宝快照` (when held) and asks for one. An asset is
/// due exactly when its plan is due today, waits exactly when due without a
/// settlement, and has an unapplied settlement exactly when one is
/// confirmed and not applied.
pub proof fn law_lifecycle_follows_plan_and_settlement(
    enabled: bool,
    plan_status: Option<Seq<char>>,
    settlement_applied: Option<bool>,
    snapshot_status: Option<Seq<char>>,
    held: bool,
)
    ensures
        ({
            let v = lifecycle_verdict(enabled, plan_status, settlement_applied, snapshot_status, held);
            &&& v.due <==> plan_status == Some("今日应投"@)
            &&& v.waiting <==> settlement_applied is None && plan_status == Some("今日应投"@)
            &&& v.unapplied <==> settlement_applied == Some(false)
            &&& enabled && settlement_applied == Some(false) ==> v.status == "已确认未入账"@ && v.action
                == "执行定投确认入账"@
            &&& enabled && settlement_applied is None && plan_status == Some("今日应投"@) ==> v.status
                == "今日应定投"@ && v.action == "录入定投确认"@
            &&& enabled && snapshot_status is None && held && (settlement_applied == Some(true) || (
                settlement_applied is None && plan_status is None)) ==> v.status == "等待支付宝快照"@
                && v.action == "录入支付宝快照"@
            &&& !enabled ==> v.status == "已暂停"@ && v.action == "无需处理"@
        }),
{
    reveal_strlit("已入账");
    reveal_strlit("已确认未入账");
    assert("已确认未入账"@.len() != "已入账"@.len());
    assert("已确认未入账"@ != "已入账"@);
    reveal_strlit("今日应定投");
    reveal_strlit("无计划");
    assert("今日应定投"@.len() != "已入账"@.len());
    assert("无计划"@[0] != "已入账"@[0]);
}

} // verus!
