//! Fund metadata lookup and sector/asset inference (no formula changes).

use vstd::prelude::*;
use crate::model::{assets_view, AssetConfig, AssetView, FundInfo};
use crate::text::{
    has_substring, lowercase, owned, push_str, str_contains, str_eq, to_lowercase, trim, trimmed,
};

verus! {

/// Freshness of the latest net asset value of a fund: its date and whether
/// the provider marked it stale.
#[derive(Debug)]
pub struct NavStatus {
    pub nav_date: String,
    pub is_stale: bool,
}

/// The fields that an enrichment changed, and its warnings.
#[derive(Debug)]
pub struct EnrichApplyResult {
    pub changed_fields: Vec<String>,
    pub warnings: Vec<String>,
}

/// The sector that the fund name (lower-cased `name`), the lower-cased fund
/// type `ft` and the trimmed fund code `code` suggest; the first rule that
/// applies wins.
pub open spec fn sector_rule(name: Seq<char>, ft: Seq<char>, code: Seq<char>) -> Option<Seq<char>> {
    if has_substring(name, "纳斯达克科技"@) || has_substring(name, "nasdaq tech"@) || has_substring(
        name,
        "nasdaq100"@,
    ) || has_substring(name, "纳斯达克100"@) || has_substring(name, "nasdaq"@) || has_substring(
        name,
        "qqq"@,
    ) {
        Some("美国科技"@)
    } else if has_substring(name, "标普500"@) || has_substring(name, "s&p 500"@) || has_substring(
        name,
        "s&p500"@,
    ) || has_substring(name, "spy"@) || has_substring(name, "ivv"@) || has_substring(name, "voo"@)
        || has_substring(name, "161125"@) {
        Some("美国大盘"@)
    } else if has_substring(name, "生物科技"@) || has_substring(name, "创新药"@) || has_substring(
        name,
        "医疗"@,
    ) || has_substring(name, "biotech"@) || has_substring(name, "医药"@) {
        Some("生物科技"@)
    } else if has_substring(name, "日经"@) || has_substring(name, "日本"@) || has_substring(
        name,
        "nikkei"@,
    ) {
        Some("日本"@)
    } else if has_substring(name, "越南"@) || has_substring(name, "vietnam"@) {
        Some("越南"@)
    } else if has_substring(name, "印度"@) || has_substring(name, "india"@) {
        Some("印度"@)
    } else if has_substring(name, "黄金"@) || has_substring(name, "gold"@) || code == "000216"@ {
        Some("黄金"@)
    } else if has_substring(name, "债"@) || has_substring(name, "国开"@) || has_substring(
        name,
        "同业存单"@,
    ) || has_substring(name, "中短债"@) || has_substring(name, "美元债"@) || has_substring(
        name,
        "bond"@,
    ) || has_substring(ft, "债"@) {
        Some("债券"@)
    } else if has_substring(name, "dax"@) || has_substring(name, "德国"@) || has_substring(
        name,
        "cac40"@,
    ) || has_substring(name, "法国"@) || has_substring(name, "欧洲"@) || has_substring(name, "euro"@)
        || has_substring(name, "富时100"@) || has_substring(name, "英国"@) || has_substring(
        name,
        "ftse"@,
    ) {
        Some("欧洲"@)
    } else if has_substring(name, "商品"@) || has_substring(name, "抗通胀"@) || has_substring(
        name,
        "commodity"@,
    ) {
        Some("商品"@)
    } else if has_substring(name, "沪深300"@) || has_substring(name, "中证"@) || has_substring(
        name,
        "a股"@,
    ) {
        Some("A股"@)
    } else if has_substring(name, "货币"@) || has_substring(name, "现金"@) || has_substring(
        ft,
        "货币"@,
    ) {
        Some("货币基金"@)
    } else {
        None
    }
}

/// The sector inferred from a fund's name, type and code.
pub open spec fn inferred_sector(name: Seq<char>, fund_type: Seq<char>, fund_code: Seq<char>) -> Option<
    Seq<char>,
> {
    sector_rule(lowercase(name), lowercase(fund_type), trimmed(fund_code))
}

/// The characters of an optional string.
pub open spec fn opt_chars(o: Option<String>) -> Option<Seq<char>> {
    match o {
        Some(s) => Some(s@),
        None => None,
    }
}

/// Infer sector/category from fund name, type, and code (heuristic; user may override).
pub fn infer_sector_from_text(name: &str, fund_type: &str, fund_code: &str) -> (r: Option<String>)
    ensures
        opt_chars(r) == inferred_sector(name@, fund_type@, fund_code@),
{
    let name_l = to_lowercase(name);
    let ft_l = to_lowercase(fund_type);
    let code_t = trim(fund_code);
    sector_from_rules(name_l.as_str(), ft_l.as_str(), code_t.as_str())
}

/// The sector that the sector rules give for an already lower-cased fund
/// name `n`, lower-cased fund type `ft` and trimmed fund code `code`; the
/// first rule that applies wins.
pub fn sector_from_rules(n: &str, ft: &str, code: &str) -> (r: Option<String>)
    ensures
        opt_chars(r) == sector_rule(n@, ft@, code@),
{
    if str_contains(n, "纳斯达克科技") || str_contains(n, "nasdaq tech") || str_contains(n, "nasdaq100")
        || str_contains(n, "纳斯达克100") || str_contains(n, "nasdaq") || str_contains(n, "qqq") {
        return Some(owned("美国科技"));
    }
    if str_contains(n, "标普500") || str_contains(n, "s&p 500") || str_contains(n, "s&p500")
        || str_contains(n, "spy") || str_contains(n, "ivv") || str_contains(n, "voo") || str_contains(
        n,
        "161125",
    ) {
        return Some(owned("美国大盘"));
    }
    if str_contains(n, "生物科技") || str_contains(n, "创新药") || str_contains(n, "医疗")
        || str_contains(n, "biotech") || str_contains(n, "医药") {
        return Some(owned("生物科技"));
    }
    if str_contains(n, "日经") || str_contains(n, "日本") || str_contains(n, "nikkei") {
        return Some(owned("日本"));
    }
    if str_contains(n, "越南") || str_contains(n, "vietnam") {
        return Some(owned("越南"));
    }
    if str_contains(n, "印度") || str_contains(n, "india") {
        return Some(owned("印度"));
    }
    if str_contains(n, "黄金") || str_contains(n, "gold") || str_eq(code, "000216") {
        return Some(owned("黄金"));
    }
    if str_contains(n, "债") || str_contains(n, "国开") || str_contains(n, "同业存单") || str_contains(
        n,
        "中短债",
    ) || str_contains(n, "美元债") || str_contains(n, "bond") || str_contains(ft, "债") {
        return Some(owned("债券"));
    }
    if str_contains(n, "dax") || str_contains(n, "德国") || str_contains(n, "cac40") || str_contains(
        n,
        "法国",
    ) || str_contains(n, "欧洲") || str_contains(n, "euro") || str_contains(n, "富时100")
        || str_contains(n, "英国") || str_contains(n, "ftse") {
        return Some(owned("欧洲"));
    }
    if str_contains(n, "商品") || str_contains(n, "抗通胀") || str_contains(n, "commodity") {
        return Some(owned("商品"));
    }
    if str_contains(n, "沪深300") || str_contains(n, "中证") || str_contains(n, "a股") {
        return Some(owned("A股"));
    }
    if str_contains(n, "货币") || str_contains(n, "现金") || str_contains(ft, "货币") {
        return Some(owned("货币基金"));
    }
    None
}

/// The asset is archived: disabled, or its sector mentions `已归档`.
pub open spec fn asset_archived(a: AssetView) -> bool {
    !a.enabled || has_substring(a.sector, "已归档"@)
}

/// Whether the asset is archived (disabled, or its sector says so).
pub fn is_asset_archived(asset: &AssetConfig) -> (r: bool)
    ensures
        r == asset_archived(asset@),
{
    !asset.enabled || str_contains(asset.sector.as_str(), "已归档")
}

/// The sector is still to be assigned: empty, `未分类` or `待确认`.
pub open spec fn sector_unassigned(sector: Seq<char>) -> bool {
    sector.len() == 0 || sector == "未分类"@ || sector == "待确认"@
}

/// Whether a sector is still to be assigned.
fn needs_sector_assignment(sector: &str) -> (r: bool)
    ensures
        r == sector_unassigned(sector@),
{
    sector.is_empty() || str_eq(sector, "未分类") || str_eq(sector, "待确认")
}

/// One asset after classification, and whether it changed: an unassigned
/// asset takes the inferred sector, or `待确认` when none is inferred; it
/// counts as a change only when its sector differs from before.
pub open spec fn classified(a: AssetView) -> (AssetView, bool) {
    if !sector_unassigned(a.sector) {
        (a, false)
    } else {
        match inferred_sector(a.fund_name, Seq::empty(), a.fund_code) {
            Some(s) => if a.sector != s {
                (AssetView { sector: s, ..a }, true)
            } else {
                (a, false)
            },
            None => if a.sector != "待确认"@ {
                (AssetView { sector: "待确认"@, ..a }, true)
            } else {
                (a, false)
            },
        }
    }
}

/// The number of assets of `s` that classification changes.
pub open spec fn count_classified(s: Seq<AssetView>) -> nat
    decreases s.len(),
{
    if s.len() == 0 {
        0
    } else {
        count_classified(s.drop_last()) + if classified(s.last()).1 {
            1nat
        } else {
            0nat
        }
    }
}

/// Classifies one asset; returns whether it counts as a change.
fn classify_one(asset: &mut AssetConfig) -> (r: bool)
    ensures
        (final(asset)@, r) == classified(old(asset)@),
{
    if !needs_sector_assignment(asset.sector.as_str()) {
        return false;
    }
    proof {
        reveal_strlit("");
    }
    let inferred = infer_sector_from_text(asset.fund_name.as_str(), "", asset.fund_code.as_str());
    assert(""@ =~= Seq::<char>::empty());
    assert(opt_chars(inferred) == inferred_sector(asset.fund_name@, Seq::empty(), asset.fund_code@));
    match inferred {
        Some(s) => {
            if !str_eq(asset.sector.as_str(), s.as_str()) {
                asset.sector = s;
                true
            } else {
                false
            }
        },
        None => {
            if !str_eq(asset.sector.as_str(), "待确认") {
                asset.sector = owned("待确认");
                true
            } else {
                false
            }
        },
    }
}

/// Assign sectors for assets that are empty / 未分类 / 待确认. Returns the
/// number of assets whose sector changed.
pub fn classify_unassigned_assets(assets: &mut Vec<AssetConfig>) -> (r: usize)
    ensures
        final(assets)@.len() == old(assets)@.len(),
        forall|k: int|
            0 <= k < old(assets)@.len() ==> (#[trigger] final(assets)@[k])@ == classified(
                old(assets)@[k]@,
            ).0,
        r as nat == count_classified(assets_view(old(assets)@)),
{
    let ghost s = assets_view(assets@);
    let n = assets.len();
    let mut changed: usize = 0;
    let mut i: usize = 0;
    assert(s.take(0) =~= Seq::<AssetView>::empty());
    while i < n
        invariant
            n == assets@.len(),
            n == old(assets)@.len(),
            s == assets_view(old(assets)@),
            i <= n,
            changed <= i,
            changed as nat == count_classified(s.take(i as int)),
            forall|k: int| 0 <= k < i ==> (#[trigger] assets@[k])@ == classified(s[k]).0,
            forall|k: int| i <= k < n ==> #[trigger] assets@[k] == old(assets)@[k],
        decreases n - i,
    {
        let c = classify_one(&mut assets[i]);
        if c {
            changed += 1;
        }
        proof {
            let t = s.take(i + 1);
            assert(t.drop_last() =~= s.take(i as int));
            assert(t.last() == old(assets)@[i as int]@);
        }
        i += 1;
    }
    assert(s.take(n as int) =~= s);
    changed
}

/// The asset after taking over fund metadata, and the names of the fields
/// that changed, in order.
pub open spec fn fund_info_applied(a: AssetView, info: (Seq<char>, Seq<char>, Seq<char>, Seq<char>, Seq<char>)) -> (
    AssetView,
    Seq<Seq<char>>,
) {
    let (code, name, ftype, currency, source) = info;
    let a1 = if name.len() > 0 && a.fund_name != name {
        AssetView { fund_name: name, ..a }
    } else {
        a
    };
    let c1 = if name.len() > 0 && a.fund_name != name {
        seq!["fund_name"@]
    } else {
        Seq::empty()
    };
    let a2 = if a1.fund_code.len() == 0 {
        AssetView { fund_code: code, ..a1 }
    } else {
        a1
    };
    let c2 = if a1.fund_code.len() == 0 {
        c1.push("fund_code"@)
    } else {
        c1
    };
    let a3 = if currency.len() > 0 && a2.currency != currency {
        AssetView { currency: currency, ..a2 }
    } else {
        a2
    };
    let c3 = if currency.len() > 0 && a2.currency != currency {
        c2.push("currency"@)
    } else {
        c2
    };
    let inferred = inferred_sector(name, ftype, code);
    let sector_set = sector_unassigned(a3.sector) && inferred is Some;
    let a4 = if sector_set {
        AssetView { sector: inferred->0, ..a3 }
    } else {
        a3
    };
    let c4 = if sector_set {
        c3.push("sector"@)
    } else {
        c3
    };
    let provider_set = a4.market_data_provider is None && source == "eastmoney"@;
    let a5 = if provider_set {
        AssetView { market_data_provider: Some("eastmoney"@), ..a4 }
    } else {
        a4
    };
    let c5 = if provider_set {
        c4.push("market_data_provider"@)
    } else {
        c4
    };
    (a5, c5)
}

/// The view of fund metadata as a tuple (code, name, type, currency, source).
pub open spec fn fund_info_view(info: FundInfo) -> (Seq<char>, Seq<char>, Seq<char>, Seq<char>, Seq<char>) {
    (info.fund_code@, info.fund_name@, info.fund_type@, info.currency@, info.source@)
}

/// The warning for a stale net asset value dated `date`.
pub open spec fn stale_nav_warning(date: Seq<char>) -> Seq<char> {
    "净值可能过期 (日期 "@ + date + ")"@
}

/// Applies fund metadata to an asset: name, missing code, currency, a sector
/// for an unassigned one, and the Eastmoney market data provider.
pub fn apply_fund_info_to_asset(
    asset: &mut AssetConfig,
    info: &FundInfo,
    nav: Option<&NavStatus>,
) -> (r: EnrichApplyResult)
    ensures
        ({
            let applied = fund_info_applied(old(asset)@, fund_info_view(*info));
            &&& final(asset)@ == applied.0
            &&& crate::model::strings_view(r.changed_fields@) == applied.1
            &&& crate::model::strings_view(r.warnings@) == match nav {
                Some(n) => if n.is_stale {
                    seq![stale_nav_warning(n.nav_date@)]
                } else {
                    Seq::empty()
                },
                None => Seq::empty(),
            }
        }),
{
    let ghost a0 = asset@;
    let mut changed: Vec<String> = Vec::new();
    let mut warnings: Vec<String> = Vec::new();
    if !info.fund_name.as_str().is_empty() && !str_eq(asset.fund_name.as_str(), info.fund_name.as_str()) {
        asset.fund_name = info.fund_name.clone();
        changed.push(owned("fund_name"));
    }
    if asset.fund_code.as_str().is_empty() {
        asset.fund_code = info.fund_code.clone();
        changed.push(owned("fund_code"));
    }
    if !info.currency.as_str().is_empty() && !str_eq(asset.currency.as_str(), info.currency.as_str()) {
        asset.currency = info.currency.clone();
        changed.push(owned("currency"));
    }
    let needs_sector = needs_sector_assignment(asset.sector.as_str());
    if needs_sector {
        match infer_sector_from_text(
            info.fund_name.as_str(),
            info.fund_type.as_str(),
            info.fund_code.as_str(),
        ) {
            Some(s) => {
                asset.sector = s;
                changed.push(owned("sector"));
            },
            None => {},
        }
    }
    if asset.market_data_provider.is_none() && str_eq(info.source.as_str(), "eastmoney") {
        asset.market_data_provider = Some(owned("eastmoney"));
        changed.push(owned("market_data_provider"));
    }
    match nav {
        Some(n) => {
            if n.is_stale {
                let mut w = owned("净值可能过期 (日期 ");
                push_str(&mut w, n.nav_date.as_str());
                push_str(&mut w, ")");
                warnings.push(w);
            }
        },
        None => {},
    }
    let ghost applied = fund_info_applied(a0, fund_info_view(*info));
    assert(asset@ == applied.0);
    assert(crate::model::strings_view(changed@) =~= applied.1);
    assert(crate::model::strings_view(warnings@) =~= match nav {
        Some(n) => if n.is_stale {
            seq![stale_nav_warning(n.nav_date@)]
        } else {
            Seq::empty()
        },
        None => Seq::empty(),
    });
    EnrichApplyResult { changed_fields: changed, warnings }
}


proof fn lemma_sector_rule_values(name: Seq<char>, ft: Seq<char>, code: Seq<char>)
    ensures
        sector_rule(name, ft, code) matches Some(x) ==> x.len() == 2 || x.len() == 4,
{
    reveal_strlit("美国科技");
    reveal_strlit("美国大盘");
    reveal_strlit("生物科技");
    reveal_strlit("日本");
    reveal_strlit("越南");
    reveal_strlit("印度");
    reveal_strlit("黄金");
    reveal_strlit("债券");
    reveal_strlit("欧洲");
    reveal_strlit("商品");
    reveal_strlit("A股");
    reveal_strlit("货币基金");
}

/// Classification leaves no asset with an empty or `未分类` sector, does
/// not touch an asset whose sector is already assigned, and classifying
/// again changes nothing (and counts nothing).
pub proof fn law_classify_leaves_no_unclassified(a: AssetView)
    ensures
        classified(a).0.sector.len() > 0,
        classified(a).0.sector != "未分类"@,
        !sector_unassigned(a.sector) ==> classified(a) == (a, false),
        classified(classified(a).0) == (classified(a).0, false),
{
    reveal_strlit("未分类");
    reveal_strlit("待确认");
    assert("待确认"@[0] != "未分类"@[0]);
    lemma_sector_rule_values(lowercase(a.fund_name), lowercase(Seq::empty()), trimmed(a.fund_code));
}

// ---------------------------------------------------------------------------
// Fund lookup
// ---------------------------------------------------------------------------

/// The result of looking a fund up. The NAV figure itself is attached by
/// the caller; the NAV date is here.
#[derive(Debug)]
pub struct FundLookupResult {
    pub success: bool,
    pub fund_code: String,
    pub fund_name: Option<String>,
    pub fund_type: Option<String>,
    pub currency: Option<String>,
    pub source: Option<String>,
    pub inferred_sector: Option<String>,
    pub nav_date: Option<String>,
    pub warnings: Vec<String>,
    pub message: Option<String>,
}

/// The first step of a lookup: the trimmed fund code to search for, or the
/// result that refuses an empty code.
#[derive(Debug)]
pub enum FundLookupStart {
    Search(String),
    Refused(FundLookupResult),
}

/// The lookup result with only a code, a failure and a message.
pub open spec fn refusal(r: FundLookupResult, code: Seq<char>, warnings: Seq<Seq<char>>, message: Seq<char>) -> bool {
    &&& !r.success
    &&& r.fund_code@ == code
    &&& r.fund_name is None
    &&& r.fund_type is None
    &&& r.currency is None
    &&& r.source is None
    &&& r.inferred_sector is None
    &&& r.nav_date is None
    &&& crate::model::strings_view(r.warnings@) == warnings
    &&& opt_chars(r.message) == Some(message)
}

/// Starts a fund lookup: an empty code (after trimming) is refused with
/// `基金代码不能为空`; any other code is searched.
pub fn begin_fund_lookup(fund_code: &str) -> (r: FundLookupStart)
    ensures
        trimmed(fund_code@).len() == 0 ==> (r matches FundLookupStart::Refused(res) && refusal(
            res,
            trimmed(fund_code@),
            Seq::empty(),
            "基金代码不能为空"@,
        )),
        trimmed(fund_code@).len() > 0 ==> (r matches FundLookupStart::Search(c) && c@ == trimmed(fund_code@)),
{
    let code = trim(fund_code);
    if code.as_str().is_empty() {
        let res = FundLookupResult {
            success: false,
            fund_code: code,
            fund_name: None,
            fund_type: None,
            currency: None,
            source: None,
            inferred_sector: None,
            nav_date: None,
            warnings: Vec::new(),
            message: Some(owned("基金代码不能为空")),
        };
        assert(crate::model::strings_view(res.warnings@) =~= Seq::<Seq<char>>::empty());
        FundLookupStart::Refused(res)
    } else {
        FundLookupStart::Search(code)
    }
}

/// Finishes a fund lookup from what the provider answered: the search (the
/// fund's metadata or the error's text) and, after a successful search, the
/// NAV fetch (its date or the error's text). A found fund carries its
/// inferred sector, a warning when its NAV could not be fetched and one when
/// the data source is the offline one; a failed search carries its error as
/// a warning and `基金查询失败: <error>` as the message.
pub fn finish_fund_lookup(code: &str, search: Result<FundInfo, String>, nav: Result<String, String>) -> (r: FundLookupResult)
    ensures
        match search {
            Ok(info) => {
                &&& r.success
                &&& r.fund_code@ == info.fund_code@
                &&& opt_chars(r.fund_name) == Some(info.fund_name@)
                &&& opt_chars(r.fund_type) == Some(info.fund_type@)
                &&& opt_chars(r.currency) == Some(info.currency@)
                &&& opt_chars(r.source) == Some(info.source@)
                &&& opt_chars(r.inferred_sector) == inferred_sector(info.fund_name@, info.fund_type@, info.fund_code@)
                &&& opt_chars(r.nav_date) == match nav {
                    Ok(d) => Some(d@),
                    Err(_) => None,
                }
                &&& crate::model::strings_view(r.warnings@) == match nav {
                    Ok(_) => Seq::empty(),
                    Err(e) => seq!["净值获取失败: "@ + e@],
                } + if info.source@ == "mock"@ {
                    seq!["当前使用模拟基金数据源"@]
                } else {
                    Seq::empty()
                }
                &&& r.message is None
            },
            Err(e) => refusal(r, code@, seq![e@], "基金查询失败: "@ + e@),
        },
{
    match search {
        Ok(info) => {
            let inferred = infer_sector_from_text(info.fund_name.as_str(), info.fund_type.as_str(), info.fund_code.as_str());
            let mut warnings: Vec<String> = Vec::new();
            let nav_date = match nav {
                Ok(d) => Some(d),
                Err(e) => {
                    let mut w = owned("净值获取失败: ");
                    push_str(&mut w, e.as_str());
                    warnings.push(w);
                    None
                },
            };
            let ghost before = warnings@;
            if str_eq(info.source.as_str(), "mock") {
                warnings.push(owned("当前使用模拟基金数据源"));
            }
            proof {
                assert(crate::model::strings_view(before) =~= match nav {
                    Ok(_) => Seq::empty(),
                    Err(e) => seq!["净值获取失败: "@ + e@],
                });
                assert(crate::model::strings_view(warnings@) =~= crate::model::strings_view(before) + if info.source@
                    == "mock"@ {
                    seq!["当前使用模拟基金数据源"@]
                } else {
                    Seq::empty()
                });
            }
            FundLookupResult {
                success: true,
                fund_code: info.fund_code,
                fund_name: Some(info.fund_name),
                fund_type: Some(info.fund_type),
                currency: Some(info.currency),
                source: Some(info.source),
                inferred_sector: inferred,
                nav_date,
                warnings,
                message: None,
            }
        },
        Err(e) => {
            let mut m = owned("基金查询失败: ");
            push_str(&mut m, e.as_str());
            let mut warnings: Vec<String> = Vec::new();
            warnings.push(e);
            assert(crate::model::strings_view(warnings@) =~= seq![warnings@[0]@]);
            FundLookupResult {
                success: false,
                fund_code: owned(code),
                fund_name: None,
                fund_type: None,
                currency: None,
                source: None,
                inferred_sector: None,
                nav_date: None,
                warnings,
                message: Some(m),
            }
        },
    }
}

} // verus!
