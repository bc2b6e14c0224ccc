//! Dollar-cost averaging schedules: calendar dates, whether a plan is due on
//! a date, and the status of every plan in a preview for a target date.

use vstd::prelude::*;
use chrono::Datelike;
use crate::alipay::{first_where, is_first_where, lemma_first_where_found, lemma_first_where_none};
use crate::model::{assets_view, strings_view, AssetConfig, AssetView};
use crate::text::{owned, push_str, str_eq};

verus! {

// ---------------------------------------------------------------------------
// Calendar dates
// ---------------------------------------------------------------------------

/// A proleptic Gregorian calendar date.
#[derive(Clone, Copy, Debug, PartialEq, Eq, Structural)]
pub struct CalendarDate {
    pub year: i32,
    pub month: u32,
    pub day: u32,
}

/// Leap years of the proleptic Gregorian calendar.
pub open spec fn is_leap_year(y: int) -> bool {
    (y % 4 == 0 && y % 100 != 0) || y % 400 == 0
}

/// The number of days in a month of a year.
pub open spec fn days_in_month(y: int, m: int) -> int {
    if m == 2 {
        if is_leap_year(y) {
            29
        } else {
            28
        }
    } else if m == 4 || m == 6 || m == 9 || m == 11 {
        30
    } else {
        31
    }
}

/// The date exists and lies in the range of dates that chrono represents.
pub open spec fn valid_date(d: CalendarDate) -> bool {
    &&& -262143 <= d.year <= 262142
    &&& 1 <= d.month <= 12
    &&& 1 <= d.day <= days_in_month(d.year as int, d.month as int)
}

/// The date of a `(year, month, day)` triple.
pub open spec fn date_of(t: (i32, u32, u32)) -> CalendarDate {
    CalendarDate { year: t.0, month: t.1, day: t.2 }
}

/// `a` comes strictly before `b` in the calendar.
pub open spec fn date_before(a: CalendarDate, b: CalendarDate) -> bool {
    a.year < b.year || (a.year == b.year && (a.month < b.month || (a.month == b.month && a.day < b.day)))
}

/// Whether `a` comes strictly before `b` in the calendar.
pub fn is_before(a: &CalendarDate, b: &CalendarDate) -> (r: bool)
    ensures
        r == date_before(*a, *b),
{
    a.year < b.year || (a.year == b.year && (a.month < b.month || (a.month == b.month && a.day < b.day)))
}

/// The number of days from 1970-01-01 to a proleptic Gregorian date
/// (negative before it), counted in 400-year eras from March 1st.
pub open spec fn days_from_civil(year: int, month: int, day: int) -> int {
    let y = if month <= 2 { year - 1 } else { year };
    let era = y / 400;
    let yoe = y - era * 400;
    let mp = if month > 2 { month - 3 } else { month + 9 };
    let doy = (153 * mp + 2) / 5 + day - 1;
    let doe = yoe * 365 + yoe / 4 - yoe / 100 + doy;
    era * 146097 + doe - 719468
}

/// The ISO day of the week of a date, Monday being 1 and Sunday 7
/// (1970-01-01 was a Thursday).
pub open spec fn iso_weekday(year: i32, month: u32, day: u32) -> u32 {
    (((days_from_civil(year as int, month as int, day as int) + 3) % 7) + 1) as u32
}

/// The date that chrono reads from `text` with a strftime-style `format`,
/// or `None` when the text does not give a valid date in that format.
pub uninterp spec fn parsed_date(text: Seq<char>, format: Seq<char>) -> Option<(i32, u32, u32)>;

/// Calls chrono's `NaiveDate::from_ymd_opt`, then `Datelike::weekday` and
/// `Weekday::number_from_monday`. Claimed: the result is the ISO day of the
/// week of the date in the proleptic Gregorian calendar, which chrono uses,
/// from 1 (Monday) to 7 (Sunday). The date is valid, so `from_ymd_opt` gives
/// a date.
#[verifier::external_body]
pub(crate) fn weekday_number(date: &CalendarDate) -> (r: u32)
    requires
        valid_date(*date),
    ensures
        r == iso_weekday(date.year, date.month, date.day),
        1 <= r <= 7,
{
    match chrono::NaiveDate::from_ymd_opt(date.year, date.month, date.day) {
        Some(d) => d.weekday().number_from_monday(),
        None => 0,
    }
}

/// Calls chrono's `NaiveDate::parse_from_str` and reads the year, month and
/// day of the parsed date. Claimed: the result is what chrono reads (named
/// `parsed_date`), and a parsed date is a valid one, as every `NaiveDate` is.
#[verifier::external_body]
pub(crate) fn parse_date(text: &str, format: &str) -> (r: Option<CalendarDate>)
    ensures
        r == match parsed_date(text@, format@) {
            Some(t) => Some(date_of(t)),
            None => None,
        },
        r matches Some(d) ==> valid_date(d),
{
    match chrono::NaiveDate::parse_from_str(text, format) {
        Ok(d) => Some(CalendarDate { year: d.year(), month: d.month(), day: d.day() }),
        Err(_) => None,
    }
}

/// Calls `chrono::Local::now` and takes its local calendar date. Claimed:
/// only that the date is a valid one; which date it is depends on the clock
/// and the time zone of the machine.
#[verifier::external_body]
pub(crate) fn today_local() -> (r: CalendarDate)
    ensures
        valid_date(r),
{
    let d = chrono::Local::now().date_naive();
    CalendarDate { year: d.year(), month: d.month(), day: d.day() }
}

// ---------------------------------------------------------------------------
// Plans
// ---------------------------------------------------------------------------

/// How often a plan invests.
#[derive(Clone, Copy, Debug, PartialEq, Eq, Structural)]
pub enum DcaFrequency {
    Daily,
    Weekly,
    Monthly,
}

/// What the schedule logic reads of a DCA plan. The amount is read only as
/// whether it is positive.
#[derive(Debug)]
pub struct DcaPlanTerms {
    pub plan_id: String,
    pub asset_id: String,
    pub fund_code: String,
    pub frequency: DcaFrequency,
    /// Day of the week for weekly plans, Monday being 1.
    pub weekday: Option<u32>,
    /// Day of the month for monthly plans.
    pub month_day: Option<u32>,
    pub start_date: String,
    pub end_date: Option<String>,
    pub enabled: bool,
    pub priority: i32,
    /// The plan's amount is greater than zero.
    pub amount_positive: bool,
}

/// The plan as mathematical values.
pub struct DcaPlanView {
    pub plan_id: Seq<char>,
    pub asset_id: Seq<char>,
    pub fund_code: Seq<char>,
    pub frequency: DcaFrequency,
    pub weekday: Option<u32>,
    pub month_day: Option<u32>,
    pub start_date: Seq<char>,
    pub end_date: Option<Seq<char>>,
    pub enabled: bool,
    pub priority: i32,
    pub amount_positive: bool,
}

impl View for DcaPlanTerms {
    type V = DcaPlanView;

    open spec fn view(&self) -> DcaPlanView {
        DcaPlanView {
            plan_id: self.plan_id@,
            asset_id: self.asset_id@,
            fund_code: self.fund_code@,
            frequency: self.frequency,
            weekday: self.weekday,
            month_day: self.month_day,
            start_date: self.start_date@,
            end_date: crate::model::opt_view(self.end_date),
            enabled: self.enabled,
            priority: self.priority,
            amount_positive: self.amount_positive,
        }
    }
}

/// The plans as mathematical values.
pub open spec fn plans_view(v: Seq<DcaPlanTerms>) -> Seq<DcaPlanView> {
    Seq::new(v.len(), |i: int| v[i]@)
}

/// Whether a plan invests on a day, given the day's weekday (Monday 1) and
/// day of the month: daily plans always; weekly plans on their weekday,
/// Mondays when they name none; monthly plans on their day of the month, the
/// first when they name none.
pub open spec fn due_on(frequency: DcaFrequency, weekday: Option<u32>, month_day: Option<u32>, wd: u32, day: u32) -> bool {
    match frequency {
        DcaFrequency::Daily => true,
        DcaFrequency::Weekly => match weekday {
            Some(t) => wd == t,
            None => wd == 1,
        },
        DcaFrequency::Monthly => match month_day {
            Some(t) => day == t,
            None => day == 1,
        },
    }
}

/// The due status text: `今日应投` when due, `未到日期` otherwise.
pub open spec fn due_text(due: bool) -> Seq<char> {
    if due {
        "今日应投"@
    } else {
        "未到日期"@
    }
}

/// The due status of a plan on a date.
pub open spec fn due_status(p: DcaPlanView, d: CalendarDate) -> Seq<char> {
    due_text(due_on(p.frequency, p.weekday, p.month_day, iso_weekday(d.year, d.month, d.day), d.day))
}

/// Whether the plan invests on the date: `今日应投` or `未到日期`.
pub fn check_is_due(plan: &DcaPlanTerms, date: &CalendarDate) -> (r: String)
    requires
        valid_date(*date),
    ensures
        r@ == due_status(plan@, *date),
{
    let due = match plan.frequency {
        DcaFrequency::Daily => true,
        DcaFrequency::Weekly => {
            let wd = weekday_number(date);
            match plan.weekday {
                Some(t) => wd == t,
                None => wd == 1,
            }
        },
        DcaFrequency::Monthly => match plan.month_day {
            Some(t) => date.day == t,
            None => date.day == 1,
        },
    };
    if due {
        owned("今日应投")
    } else {
        owned("未到日期")
    }
}

// ---------------------------------------------------------------------------
// Preview
// ---------------------------------------------------------------------------

/// The format of dates in plans and previews.
pub open spec fn iso_format() -> Seq<char> {
    "%Y-%m-%d"@
}

/// The index of the configured asset that a plan invests in: the first asset
/// with the plan's asset id.
pub open spec fn plan_asset(s: Seq<AssetView>, asset_id: Seq<char>) -> Option<int> {
    first_where(s, has_asset_id(asset_id))
}

/// The asset has the given asset id.
pub open spec fn has_asset_id(asset_id: Seq<char>) -> spec_fn(AssetView) -> bool {
    |a: AssetView| a.asset_id == asset_id
}

/// The warnings of a plan in a preview: a missing asset or a fund code that
/// differs from the asset's, then an amount that is not positive.
pub open spec fn preview_warnings(s: Seq<AssetView>, p: DcaPlanView) -> Seq<Seq<char>> {
    let w = match plan_asset(s, p.asset_id) {
        None => seq!["资产ID "@ + p.asset_id + " 在配置中不存在"@],
        Some(i) => if s[i].fund_code != p.fund_code {
            seq!["基金代码不一致: 计划为 "@ + p.fund_code + ", 配置为 "@ + s[i].fund_code]
        } else {
            Seq::empty()
        },
    };
    if !p.amount_positive {
        w.push("定投金额必须大于 0"@)
    } else {
        w
    }
}

/// The end date of a plan, when it has one that parses.
pub open spec fn plan_end(p: DcaPlanView) -> Option<(i32, u32, u32)> {
    match p.end_date {
        Some(e) => parsed_date(e, iso_format()),
        None => None,
    }
}

/// The status of a plan on the target date. A missing asset, a differing fund
/// code and a non-positive amount are noted in turn; a disabled plan reads
/// `已禁用`; an enabled plan whose start date parses reads `未到日期` before
/// its start, `已过结束日期` after its end, and its due status otherwise. An
/// enabled plan whose start date does not parse keeps the noted status.
pub open spec fn preview_status(s: Seq<AssetView>, p: DcaPlanView, t: CalendarDate) -> Seq<char> {
    let noted = match plan_asset(s, p.asset_id) {
        None => "资产不存在"@,
        Some(i) => if s[i].fund_code != p.fund_code {
            "基金代码不一致"@
        } else {
            "未到日期"@
        },
    };
    let noted = if !p.amount_positive {
        "金额无效"@
    } else {
        noted
    };
    if !p.enabled {
        "已禁用"@
    } else {
        match parsed_date(p.start_date, iso_format()) {
            None => noted,
            Some(sd) => if date_before(t, date_of(sd)) {
                "未到日期"@
            } else {
                match plan_end(p) {
                    Some(ed) => if date_before(date_of(ed), t) {
                        "已过结束日期"@
                    } else {
                        due_status(p, t)
                    },
                    None => due_status(p, t),
                }
            },
        }
    }
}

pub(crate) proof fn lemma_plan_asset_is_first(s: Seq<AssetView>, id: Seq<char>, f: int)
    requires
        plan_asset(s, id) == Some(f),
    ensures
        is_first_where(s, has_asset_id(id), f),
{
}

pub(crate) proof fn lemma_plan_asset_found(s: Seq<AssetView>, id: Seq<char>, i: int)
    requires
        0 <= i < s.len(),
        s[i].asset_id == id,
    ensures
        plan_asset(s, id) is Some,
{
    crate::alipay::lemma_first_where_exists(s, has_asset_id(id), i);
}

/// The index of the first configured asset with the given asset id.
pub(crate) fn find_asset(assets: &[AssetConfig], asset_id: &str) -> (r: Option<usize>)
    ensures
        match r {
            Some(i) => i < assets@.len() && plan_asset(assets_view(assets@), asset_id@) == Some(i as int),
            None => plan_asset(assets_view(assets@), asset_id@) == None::<int>,
        },
{
    let ghost s = assets_view(assets@);
    let ghost p = has_asset_id(asset_id@);
    let n = assets.len();
    let mut i: usize = 0;
    while i < n
        invariant
            n == assets@.len(),
            s == assets_view(assets@),
            i <= n,
            p == has_asset_id(asset_id@),
            forall|j: int| 0 <= j < i ==> !p(#[trigger] s[j]),
        decreases n - i,
    {
        assert(s[i as int] == assets@[i as int]@);
        if str_eq(assets[i].asset_id.as_str(), asset_id) {
            proof {
                assert(is_first_where(s, p, i as int));
                lemma_first_where_found(s, p, i as int);
            }
            return Some(i);
        }
        i += 1;
    }
    proof {
        lemma_first_where_none(s, p);
    }
    None
}

/// The status and warnings of one plan on the target date.
fn plan_review(assets: &[AssetConfig], plan: &DcaPlanTerms, target: &CalendarDate) -> (r: (String, Vec<String>))
    requires
        valid_date(*target),
    ensures
        r.0@ == preview_status(assets_view(assets@), plan@, *target),
        strings_view(r.1@) == preview_warnings(assets_view(assets@), plan@),
{
    let ghost s = assets_view(assets@);
    let mut warnings: Vec<String> = Vec::new();
    let mut status = owned("未到日期");
    match find_asset(assets, plan.asset_id.as_str()) {
        None => {
            status = owned("资产不存在");
            let mut m = owned("资产ID ");
            push_str(&mut m, plan.asset_id.as_str());
            push_str(&mut m, " 在配置中不存在");
            warnings.push(m);
        },
        Some(i) => {
            assert(s[i as int] == assets@[i as int]@);
            if !str_eq(assets[i].fund_code.as_str(), plan.fund_code.as_str()) {
                let mut m = owned("基金代码不一致: 计划为 ");
                push_str(&mut m, plan.fund_code.as_str());
                push_str(&mut m, ", 配置为 ");
                push_str(&mut m, assets[i].fund_code.as_str());
                warnings.push(m);
                status = owned("基金代码不一致");
            }
        },
    }
    let ghost before = warnings@;
    if !plan.amount_positive {
        status = owned("金额无效");
        warnings.push(owned("定投金额必须大于 0"));
        assert(strings_view(warnings@) =~= strings_view(before).push("定投金额必须大于 0"@));
    }
    if !plan.enabled {
        status = owned("已禁用");
    } else {
        match parse_date(plan.start_date.as_str(), "%Y-%m-%d") {
            None => {},
            Some(sd) => {
                if is_before(target, &sd) {
                    status = owned("未到日期");
                } else {
                    let end = match &plan.end_date {
                        Some(e) => parse_date(e.as_str(), "%Y-%m-%d"),
                        None => None,
                    };
                    match end {
                        Some(ed) => {
                            if is_before(&ed, target) {
                                status = owned("已过结束日期");
                            } else {
                                status = check_is_due(plan, target);
                            }
                        },
                        None => {
                            status = check_is_due(plan, target);
                        },
                    }
                }
            },
        }
    }
    proof {
        assert(strings_view(before) =~= match plan_asset(s, plan@.asset_id) {
            None => seq!["资产ID "@ + plan@.asset_id + " 在配置中不存在"@],
            Some(i) => if s[i].fund_code != plan@.fund_code {
                seq!["基金代码不一致: 计划为 "@ + plan@.fund_code + ", 配置为 "@ + s[i].fund_code]
            } else {
                Seq::empty()
            },
        });
    }
    (status, warnings)
}

/// `j` is the first plan with the plan id `id`.
pub open spec fn first_with_id(ps: Seq<DcaPlanView>, id: Seq<char>, j: int) -> bool {
    &&& 0 <= j < ps.len()
    &&& ps[j].plan_id == id
    &&& forall|k: int| 0 <= k < j ==> (#[trigger] ps[k]).plan_id != id
}

/// The priority by which the preview orders plan `i`: that of the first plan
/// with the same plan id.
pub open spec fn priority_key(ps: Seq<DcaPlanView>, i: int) -> i32 {
    ps[choose|j: int| first_with_id(ps, ps[i].plan_id, j)].priority
}

/// The ordering priorities of all plans.
pub open spec fn priority_keys(ps: Seq<DcaPlanView>) -> Seq<i32> {
    Seq::new(ps.len(), |i: int| priority_key(ps, i))
}

/// Entry `a` comes before entry `b`: a higher priority, or the same priority
/// and an earlier plan (the order is stable).
pub open spec fn ranks_before(keys: Seq<i32>, a: int, b: int) -> bool {
    keys[a] > keys[b] || (keys[a] == keys[b] && a < b)
}

proof fn lemma_first_with_id_unique(ps: Seq<DcaPlanView>, id: Seq<char>, j: int)
    requires
        first_with_id(ps, id, j),
    ensures
        (choose|k: int| first_with_id(ps, id, k)) == j,
{
    let k = choose|k: int| first_with_id(ps, id, k);
    assert(first_with_id(ps, id, k));
    if k < j {
        assert(ps[k].plan_id != id);
    } else if k > j {
        assert(ps[j].plan_id != id);
    }
}

/// The ordering priority of every plan.
fn priority_keys_of(plans: &[DcaPlanTerms]) -> (keys: Vec<i32>)
    ensures
        keys@ == priority_keys(plans_view(plans@)),
{
    let ghost ps = plans_view(plans@);
    let n = plans.len();
    let mut keys: Vec<i32> = Vec::new();
    let mut i: usize = 0;
    while i < n
        invariant
            n == plans@.len(),
            ps == plans_view(plans@),
            i <= n,
            keys@.len() == i,
            forall|k: int| 0 <= k < i ==> keys@[k] == priority_key(ps, k),
        decreases n - i,
    {
        let mut j: usize = 0;
        while j < i && !str_eq(plans[j].plan_id.as_str(), plans[i].plan_id.as_str())
            invariant
                n == plans@.len(),
                ps == plans_view(plans@),
                i < n,
                j <= i,
                forall|k: int| 0 <= k < j ==> (#[trigger] ps[k]).plan_id != ps[i as int].plan_id,
            decreases i - j,
        {
            j += 1;
        }
        proof {
            assert(first_with_id(ps, ps[i as int].plan_id, j as int));
            lemma_first_with_id_unique(ps, ps[i as int].plan_id, j as int);
        }
        keys.push(plans[j].priority);
        i += 1;
    }
    assert(keys@ =~= priority_keys(ps));
    keys
}

/// Position list `order` holds index `i`.
pub open spec fn lists_index(order: Seq<usize>, i: int) -> bool {
    exists|k: int| 0 <= k < order.len() && order[k] == i
}

/// The plan indices ordered by priority, highest first, ties in plan order.
fn priority_order(keys: &Vec<i32>) -> (order: Vec<usize>)
    ensures
        order@.len() == keys@.len(),
        forall|k: int| 0 <= k < order@.len() ==> (#[trigger] order@[k] as int) < keys@.len(),
        forall|k1: int, k2: int|
            0 <= k1 < k2 < order@.len() ==> ranks_before(keys@, #[trigger] order@[k1] as int, #[trigger] order@[k2] as int),
        forall|i: int| 0 <= i < keys@.len() ==> #[trigger] lists_index(order@, i),
{
    let n = keys.len();
    let mut order: Vec<usize> = Vec::new();
    let mut i: usize = 0;
    while i < n
        invariant
            n == keys@.len(),
            i <= n,
            order@.len() == i,
            forall|k: int| 0 <= k < order@.len() ==> (#[trigger] order@[k] as int) < i,
            forall|k1: int, k2: int|
                0 <= k1 < k2 < order@.len() ==> ranks_before(keys@, #[trigger] order@[k1] as int, #[trigger] order@[k2] as int),
            forall|j: int| 0 <= j < i ==> #[trigger] lists_index(order@, j),
        decreases n - i,
    {
        let ki = keys[i];
        let mut p: usize = 0;
        while p < order.len() && keys[order[p]] >= ki
            invariant
                n == keys@.len(),
                i < n,
                order@.len() == i,
                p <= order@.len(),
                forall|k: int| 0 <= k < order@.len() ==> (#[trigger] order@[k] as int) < i,
                forall|q: int| 0 <= q < p ==> keys@[#[trigger] order@[q] as int] >= ki,
            decreases order@.len() - p,
        {
            p += 1;
        }
        let ghost old_order = order@;
        proof {
            assert forall|q: int| p <= q < old_order.len() implies keys@[#[trigger] old_order[q] as int] < ki by {
                if q > p {
                    assert(ranks_before(keys@, old_order[p as int] as int, old_order[q] as int));
                }
            }
            old_order.insert_ensures(p as int, i);
        }
        order.insert(p, i);
        proof {
            assert forall|k: int| 0 <= k < order@.len() implies (#[trigger] order@[k] as int) < i + 1 by {
                if k < p {
                    assert(order@[k] == old_order[k]);
                } else if k > p {
                    assert(order@[k] == old_order[k - 1]);
                }
            }
            assert forall|k1: int, k2: int|
                0 <= k1 < k2 < order@.len() implies ranks_before(keys@, #[trigger] order@[k1] as int, #[trigger] order@[k2] as int) by {
                if k1 < p {
                    assert(order@[k1] == old_order[k1]);
                    if k2 < p {
                        assert(order@[k2] == old_order[k2]);
                    } else if k2 > p {
                        assert(order@[k2] == old_order[k2 - 1]);
                    }
                } else if k1 == p {
                    assert(order@[k2] == old_order[k2 - 1]);
                } else {
                    assert(order@[k1] == old_order[k1 - 1]);
                    assert(order@[k2] == old_order[k2 - 1]);
                }
            }
            assert forall|j: int| 0 <= j < i + 1 implies #[trigger] lists_index(order@, j) by {
                if j == i {
                    assert(order@[p as int] == i);
                } else {
                    assert(lists_index(old_order, j));
                    let k = choose|k: int| 0 <= k < old_order.len() && old_order[k] == j;
                    if k < p {
                        assert(order@[k] == old_order[k]);
                    } else {
                        assert(order@[k + 1] == old_order[k]);
                    }
                }
            }
        }
        i += 1;
    }
    order
}

/// One plan in a preview: its position in the plan list, its status on the
/// target date and its warnings.
#[derive(Debug)]
pub struct DcaPreviewEntry {
    pub plan_index: usize,
    pub status: String,
    pub warnings: Vec<String>,
}

/// A preview: the plans' entries by priority, and the warnings of the preview
/// as a whole.
#[derive(Debug)]
pub struct DcaPreviewOutcome {
    pub entries: Vec<DcaPreviewEntry>,
    pub warnings: Vec<String>,
}

/// Some entry of `es` is that of plan `i`.
pub open spec fn has_entry_for(es: Seq<DcaPreviewEntry>, i: int) -> bool {
    exists|k: int| 0 <= k < es.len() && es[k].plan_index == i
}

/// The entry states the status and warnings of its plan on the target date.
pub open spec fn entry_reviews(s: Seq<AssetView>, ps: Seq<DcaPlanView>, t: CalendarDate, e: DcaPreviewEntry) -> bool {
    let i = e.plan_index as int;
    &&& 0 <= i < ps.len()
    &&& e.status@ == preview_status(s, ps[i], t)
    &&& strings_view(e.warnings@) == preview_warnings(s, ps[i])
}

/// Previews the plans on a target date (`%Y-%m-%d`): for every plan, its
/// status and warnings, ordered by priority (highest first, ties in plan
/// order). A target date that does not parse gives no entries and one
/// warning.
pub fn calculate_dca_preview(assets: &[AssetConfig], plans: &[DcaPlanTerms], target_date_str: &str) -> (r:
    DcaPreviewOutcome)
    ensures
        match parsed_date(target_date_str@, iso_format()) {
            None => {
                &&& r.entries@.len() == 0
                &&& strings_view(r.warnings@) == seq!["无效的日期格式: "@ + target_date_str@]
            },
            Some(t) => {
                let s = assets_view(assets@);
                let ps = plans_view(plans@);
                let keys = priority_keys(ps);
                &&& r.warnings@.len() == 0
                &&& r.entries@.len() == plans@.len()
                &&& forall|k: int| 0 <= k < r.entries@.len() ==> entry_reviews(s, ps, date_of(t), #[trigger] r.entries@[k])
                &&& forall|k1: int, k2: int|
                    0 <= k1 < k2 < r.entries@.len() ==> ranks_before(
                        keys,
                        (#[trigger] r.entries@[k1]).plan_index as int,
                        (#[trigger] r.entries@[k2]).plan_index as int,
                    )
                &&& forall|i: int| 0 <= i < plans@.len() ==> #[trigger] has_entry_for(r.entries@, i)
            },
        },
{
    let target = match parse_date(target_date_str, "%Y-%m-%d") {
        Some(d) => d,
        None => {
            let mut m = owned("无效的日期格式: ");
            push_str(&mut m, target_date_str);
            let mut warnings: Vec<String> = Vec::new();
            warnings.push(m);
            assert(strings_view(warnings@) =~= seq!["无效的日期格式: "@ + target_date_str@]);
            return DcaPreviewOutcome { entries: Vec::new(), warnings };
        },
    };
    let ghost s = assets_view(assets@);
    let ghost ps = plans_view(plans@);
    let keys = priority_keys_of(plans);
    let order = priority_order(&keys);
    let n = order.len();
    let mut entries: Vec<DcaPreviewEntry> = Vec::new();
    let mut k: usize = 0;
    while k < n
        invariant
            n == order@.len(),
            n == plans@.len(),
            keys@ == priority_keys(ps),
            ps == plans_view(plans@),
            s == assets_view(assets@),
            valid_date(target),
            k <= n,
            entries@.len() == k,
            forall|q: int| 0 <= q < order@.len() ==> (#[trigger] order@[q] as int) < plans@.len(),
            forall|q: int| 0 <= q < k ==> (#[trigger] entries@[q]).plan_index == order@[q],
            forall|q: int| 0 <= q < k ==> entry_reviews(s, ps, target, #[trigger] entries@[q]),
        decreases n - k,
    {
        let i = order[k];
        let (status, warnings) = plan_review(assets, &plans[i], &target);
        entries.push(DcaPreviewEntry { plan_index: i, status, warnings });
        k += 1;
    }
    proof {
        assert forall|k1: int, k2: int|
            0 <= k1 < k2 < entries@.len() implies ranks_before(
                keys@,
                (#[trigger] entries@[k1]).plan_index as int,
                (#[trigger] entries@[k2]).plan_index as int,
            ) by {
            assert(ranks_before(keys@, order@[k1] as int, order@[k2] as int));
        }
        assert forall|i: int| 0 <= i < plans@.len() implies #[trigger] has_entry_for(entries@, i) by {
            assert(lists_index(order@, i));
            let q = choose|q: int| 0 <= q < order@.len() && order@[q] == i;
            assert(entries@[q].plan_index == i);
        }
    }
    DcaPreviewOutcome { entries, warnings: Vec::new() }
}

/// A plan that a preview marks due is enabled, its start date parses and the
/// target date lies between its start and its end (when an end parses), and
/// its schedule falls on the target date.
pub proof fn law_due_plans_are_active_on_the_date(s: Seq<AssetView>, p: DcaPlanView, t: CalendarDate)
    ensures
        preview_status(s, p, t) == "今日应投"@ ==> {
            &&& p.enabled
            &&& parsed_date(p.start_date, iso_format()) matches Some(sd) && !date_before(t, date_of(sd))
            &&& plan_end(p) matches Some(ed) ==> !date_before(date_of(ed), t)
            &&& due_on(p.frequency, p.weekday, p.month_day, iso_weekday(t.year, t.month, t.day), t.day)
        },
{
    reveal_strlit("今日应投");
    reveal_strlit("未到日期");
    reveal_strlit("已禁用");
    reveal_strlit("资产不存在");
    reveal_strlit("基金代码不一致");
    reveal_strlit("金额无效");
    reveal_strlit("已过结束日期");
    assert("今日应投"@[0] != "未到日期"@[0]);
    assert("今日应投"@[0] != "已禁用"@[0]);
    assert("今日应投"@[0] != "资产不存在"@[0]);
    assert("今日应投"@[0] != "基金代码不一致"@[0]);
    assert("今日应投"@[0] != "金额无效"@[0]);
    assert("今日应投"@[0] != "已过结束日期"@[0]);
}

/// A daily plan is due on every date; a plan due on the first of the month
/// is due exactly on the first.
pub proof fn law_daily_plans_are_always_due(p: DcaPlanView, d: CalendarDate)
    ensures
        p.frequency == DcaFrequency::Daily ==> due_status(p, d) == "今日应投"@,
        p.frequency == DcaFrequency::Monthly && p.month_day is None ==> (due_status(p, d) == "今日应投"@
            <==> d.day == 1),
{
    reveal_strlit("今日应投");
    reveal_strlit("未到日期");
    assert("今日应投"@[0] != "未到日期"@[0]);
}


/// A weekly plan is due exactly on its weekday (Monday when it names none);
/// a monthly plan exactly on its day of the month (the first when it names
/// none); the status reads `今日应投` when due and `未到日期` otherwise.
pub proof fn law_schedules_fall_on_their_day(p: DcaPlanView, d: CalendarDate)
    ensures
        p.frequency == DcaFrequency::Weekly ==> (due_status(p, d) == "今日应投"@ <==> iso_weekday(
            d.year,
            d.month,
            d.day,
        ) == match p.weekday {
            Some(w) => w,
            None => 1,
        }),
        p.frequency == DcaFrequency::Monthly ==> (due_status(p, d) == "今日应投"@ <==> d.day == match p.month_day {
            Some(m) => m,
            None => 1,
        }),
        due_status(p, d) == "今日应投"@ || due_status(p, d) == "未到日期"@,
{
    reveal_strlit("今日应投");
    reveal_strlit("未到日期");
    assert("今日应投"@[0] != "未到日期"@[0]);
}

} // verus!
