//! Alipay holding import: matching imported rows to configured assets, and
//! creating asset configurations for holdings that have none.

use vstd::prelude::*;
use crate::model::{assets_view, AssetConfig, AssetView};
use crate::text::{alphanumeric, chars_of, is_alphanumeric, owned, push_char, push_str, str_eq};

verus! {

/// What identifies an imported holding row: its fund code and fund name
/// (either may be empty).
#[derive(Debug)]
pub struct HoldingIdentity {
    pub fund_code: String,
    pub fund_name: String,
}

/// The view of a holding identity: (fund code, fund name).
pub open spec fn identity_view(h: HoldingIdentity) -> (Seq<char>, Seq<char>) {
    (h.fund_code@, h.fund_name@)
}

/// `i` is the first index of `s` whose element satisfies `p`.
pub open spec fn is_first_where(s: Seq<AssetView>, p: spec_fn(AssetView) -> bool, i: int) -> bool {
    &&& 0 <= i < s.len()
    &&& p(s[i])
    &&& forall|j: int| 0 <= j < i ==> !p(#[trigger] s[j])
}

/// The index of the first element of `s` that satisfies `p`, if any.
pub open spec fn first_where(s: Seq<AssetView>, p: spec_fn(AssetView) -> bool) -> Option<int> {
    if exists|i: int| is_first_where(s, p, i) {
        Some(choose|i: int| is_first_where(s, p, i))
    } else {
        None
    }
}

/// Chains two optional lookups: the second only when the first finds nothing.
pub open spec fn or_else(a: Option<int>, b: Option<int>) -> Option<int> {
    match a {
        Some(i) => Some(i),
        None => b,
    }
}

/// The configured asset that an imported row stands for: by fund code, then
/// asset id equal to the code (when the code is not empty); otherwise by fund
/// name, then asset id equal to the name (when the name is not empty).
pub open spec fn matching_asset(s: Seq<AssetView>, code: Seq<char>, name: Seq<char>) -> Option<int> {
    let by_code = if code.len() > 0 {
        or_else(
            first_where(s, |a: AssetView| a.fund_code == code),
            first_where(s, |a: AssetView| a.asset_id == code),
        )
    } else {
        None
    };
    let by_name = if name.len() > 0 {
        or_else(
            first_where(s, |a: AssetView| a.fund_name == name),
            first_where(s, |a: AssetView| a.asset_id == name),
        )
    } else {
        None
    };
    or_else(by_code, by_name)
}

pub(crate) proof fn lemma_first_where_found(s: Seq<AssetView>, p: spec_fn(AssetView) -> bool, i: int)
    requires
        is_first_where(s, p, i),
    ensures
        first_where(s, p) == Some(i),
{
    let j = choose|j: int| is_first_where(s, p, j);
    assert(is_first_where(s, p, j));
    if j < i {
        assert(!p(s[j]));
    } else if j > i {
        assert(!p(s[i]));
    }
}

pub(crate) proof fn lemma_first_where_exists(s: Seq<AssetView>, p: spec_fn(AssetView) -> bool, i: int)
    requires
        0 <= i < s.len(),
        p(s[i]),
    ensures
        exists|j: int| is_first_where(s, p, j),
    decreases i,
{
    if exists|j: int| 0 <= j < i && p(#[trigger] s[j]) {
        let j = choose|j: int| 0 <= j < i && p(#[trigger] s[j]);
        lemma_first_where_exists(s, p, j);
    } else {
        assert(is_first_where(s, p, i));
    }
}

pub(crate) proof fn lemma_first_where_none(s: Seq<AssetView>, p: spec_fn(AssetView) -> bool)
    requires
        forall|j: int| 0 <= j < s.len() ==> !p(#[trigger] s[j]),
    ensures
        first_where(s, p) == None::<int>,
{
}

/// Which field of an asset a lookup compares.
enum AssetField {
    FundCode,
    FundName,
    AssetId,
}

spec fn field_of(a: AssetView, f: AssetField) -> Seq<char> {
    match f {
        AssetField::FundCode => a.fund_code,
        AssetField::FundName => a.fund_name,
        AssetField::AssetId => a.asset_id,
    }
}

/// The index of the first asset whose field `f` equals `value`.
fn find_by_field(assets: &[AssetConfig], f: AssetField, value: &str) -> (r: Option<usize>)
    ensures
        match r {
            Some(i) => i < assets@.len() && is_first_where(
                assets_view(assets@),
                |a: AssetView| field_of(a, f) == value@,
                i as int,
            ),
            None => forall|j: int|
                0 <= j < assets@.len() ==> field_of(#[trigger] assets_view(assets@)[j], f)
                    != value@,
        },
{
    let ghost s = assets_view(assets@);
    let n = assets.len();
    let mut i: usize = 0;
    while i < n
        invariant
            n == assets@.len(),
            s == assets_view(assets@),
            i <= n,
            forall|j: int| 0 <= j < i ==> field_of(#[trigger] s[j], f) != value@,
        decreases n - i,
    {
        let field = match f {
            AssetField::FundCode => &assets[i].fund_code,
            AssetField::FundName => &assets[i].fund_name,
            AssetField::AssetId => &assets[i].asset_id,
        };
        assert(s[i as int] == assets@[i as int]@);
        if str_eq(field.as_str(), value) {
            return Some(i);
        }
        i += 1;
    }
    None
}

/// The first lookup of `f1` then `f2` for `value`.
fn find_by_either(assets: &[AssetConfig], f1: AssetField, f2: AssetField, value: &str) -> (r: Option<
    usize,
>)
    ensures
        ({
            let s = assets_view(assets@);
            let spec_r = or_else(
                first_where(s, |a: AssetView| field_of(a, f1) == value@),
                first_where(s, |a: AssetView| field_of(a, f2) == value@),
            );
            &&& match r {
                Some(i) => spec_r == Some(i as int) && i < assets@.len(),
                None => spec_r == None::<int>,
            }
        }),
{
    let ghost s = assets_view(assets@);
    let ghost p1 = |a: AssetView| field_of(a, f1) == value@;
    let ghost p2 = |a: AssetView| field_of(a, f2) == value@;
    match find_by_field(assets, f1, value) {
        Some(i) => {
            proof {
                lemma_first_where_found(s, p1, i as int);
            }
            Some(i)
        },
        None => {
            proof {
                assert forall|j: int| 0 <= j < s.len() implies !p1(#[trigger] s[j]) by {}
                lemma_first_where_none(s, p1);
            }
            match find_by_field(assets, f2, value) {
                Some(i) => {
                    proof {
                        lemma_first_where_found(s, p2, i as int);
                    }
                    Some(i)
                },
                None => {
                    proof {
                        assert forall|j: int| 0 <= j < s.len() implies !p2(#[trigger] s[j]) by {}
                        lemma_first_where_none(s, p2);
                    }
                    None
                },
            }
        },
    }
}

/// The index of the configured asset that an imported holding row stands for.
pub fn find_matching_asset(assets: &[AssetConfig], fund_code: &str, fund_name: &str) -> (r: Option<
    usize,
>)
    ensures
        match r {
            Some(i) => i < assets@.len() && matching_asset(assets_view(assets@), fund_code@, fund_name@)
                == Some(i as int),
            None => matching_asset(assets_view(assets@), fund_code@, fund_name@) == None::<int>,
        },
{
    let ghost s = assets_view(assets@);
    let ghost code = fund_code@;
    let ghost name = fund_name@;
    assert((|a: AssetView| field_of(a, AssetField::FundCode) == code) =~= (|a: AssetView| a.fund_code == code));
    assert((|a: AssetView| field_of(a, AssetField::AssetId) == code) =~= (|a: AssetView| a.asset_id == code));
    assert((|a: AssetView| field_of(a, AssetField::FundName) == name) =~= (|a: AssetView| a.fund_name == name));
    assert((|a: AssetView| field_of(a, AssetField::AssetId) == name) =~= (|a: AssetView| a.asset_id == name));
    if !fund_code.is_empty() {
        let by_code = find_by_either(assets, AssetField::FundCode, AssetField::AssetId, fund_code);
        if by_code.is_some() {
            return by_code;
        }
    }
    if !fund_name.is_empty() {
        return find_by_either(assets, AssetField::FundName, AssetField::AssetId, fund_name);
    }
    None
}

/// How a holding row ends in the bootstrap.
pub enum BootstrapOutcome {
    Created,
    Skipped,
    Failed,
}

/// The asset stands for the holding: by code (code or asset id) when the
/// code is known, else by name (name or asset id).
pub open spec fn stands_for(a: AssetView, code: Seq<char>, name: Seq<char>) -> bool {
    if code.len() > 0 {
        a.fund_code == code || a.asset_id == code
    } else {
        a.fund_name == name || a.asset_id == name
    }
}

/// An asset of `s` already stands for the holding.
pub open spec fn holding_configured(s: Seq<AssetView>, code: Seq<char>, name: Seq<char>) -> bool {
    exists|i: int| 0 <= i < s.len() && #[trigger] stands_for(s[i], code, name)
}

/// The asset id for a new holding: `fund_<code>`, or the alphanumeric
/// characters of the name when the code is empty.
pub open spec fn new_asset_id(code: Seq<char>, name: Seq<char>) -> Seq<char> {
    if code.len() > 0 {
        "fund_"@ + code
    } else {
        name.filter(|c: char| alphanumeric(c))
    }
}

/// The configuration created for a new holding: unclassified, in CNY, valued
/// by net asset value, quoted through Eastmoney, enabled.
pub open spec fn new_asset_view(id: Seq<char>, code: Seq<char>, name: Seq<char>) -> AssetView {
    AssetView {
        asset_id: id,
        fund_code: code,
        fund_name: name,
        sector: "未分类"@,
        currency: "CNY"@,
        valuation_method: "nav"@,
        enabled: true,
        reference_index_name: None,
        reference_index_symbol: None,
        market_data_provider: Some("eastmoney"@),
        reference_index_currency: None,
        proxy_fx_pair: None,
        use_fx_adjustment: None,
        reference_instrument_id: None,
        reference_instrument_symbol: None,
    }
}

/// One holding bootstrapped into the assets `s`.
pub open spec fn bootstrap_step(s: Seq<AssetView>, code: Seq<char>, name: Seq<char>) -> (
    Seq<AssetView>,
    BootstrapOutcome,
) {
    if code.len() == 0 && name.len() == 0 {
        (s, BootstrapOutcome::Failed)
    } else if holding_configured(s, code, name) {
        (s, BootstrapOutcome::Skipped)
    } else {
        let id = new_asset_id(code, name);
        if exists|i: int| 0 <= i < s.len() && #[trigger] s[i].asset_id == id {
            (s, BootstrapOutcome::Skipped)
        } else {
            (s.push(new_asset_view(id, code, name)), BootstrapOutcome::Created)
        }
    }
}

/// All holdings bootstrapped in order: the assets, and the counts of created,
/// skipped and failed rows.
pub open spec fn bootstrap_all(s: Seq<AssetView>, hs: Seq<(Seq<char>, Seq<char>)>) -> (
    Seq<AssetView>,
    nat,
    nat,
    nat,
)
    decreases hs.len(),
{
    if hs.len() == 0 {
        (s, 0, 0, 0)
    } else {
        let prev = bootstrap_all(s, hs.drop_last());
        let step = bootstrap_step(prev.0, hs.last().0, hs.last().1);
        match step.1 {
            BootstrapOutcome::Created => (step.0, prev.1 + 1, prev.2, prev.3),
            BootstrapOutcome::Skipped => (step.0, prev.1, prev.2 + 1, prev.3),
            BootstrapOutcome::Failed => (step.0, prev.1, prev.2, prev.3 + 1),
        }
    }
}

/// The alphanumeric characters of `s`, in order.
fn alphanumeric_only(s: &str) -> (r: String)
    ensures
        r@ == s@.filter(|c: char| alphanumeric(c)),
{
    let ghost p = |c: char| alphanumeric(c);
    let v = chars_of(s);
    let mut r = String::new();
    let n = v.len();
    let mut i: usize = 0;
    assert(v@.take(0) =~= Seq::<char>::empty());
    proof {
        reveal(Seq::filter);
    }
    while i < n
        invariant
            n == v.len(),
            v@ == s@,
            p == (|c: char| alphanumeric(c)),
            i <= n,
            r@ == v@.take(i as int).filter(p),
        decreases n - i,
    {
        let ghost before = r@;
        if is_alphanumeric(v[i]) {
            push_char(&mut r, v[i]);
        }
        proof {
            reveal(Seq::filter);
            let t = v@.take(i + 1);
            assert(t.drop_last() =~= v@.take(i as int));
            assert(t.last() == v@[i as int]);
        }
        i += 1;
    }
    assert(v@.take(n as int) =~= v@);
    r
}

/// Whether an asset of `assets` already stands for the holding.
fn holding_exists(assets: &Vec<AssetConfig>, code: &str, name: &str) -> (r: bool)
    ensures
        r == holding_configured(assets_view(assets@), code@, name@),
{
    let ghost s = assets_view(assets@);
    let by_code = !code.is_empty();
    let n = assets.len();
    let mut i: usize = 0;
    while i < n
        invariant
            n == assets@.len(),
            s == assets_view(assets@),
            by_code == (code@.len() > 0),
            i <= n,
            forall|j: int| 0 <= j < i ==> !(#[trigger] stands_for(s[j], code@, name@)),
        decreases n - i,
    {
        assert(s[i as int] == assets@[i as int]@);
        let hit = if by_code {
            str_eq(assets[i].fund_code.as_str(), code) || str_eq(assets[i].asset_id.as_str(), code)
        } else {
            str_eq(assets[i].fund_name.as_str(), name) || str_eq(assets[i].asset_id.as_str(), name)
        };
        assert(hit == stands_for(s[i as int], code@, name@));
        if hit {
            return true;
        }
        i += 1;
    }
    false
}

/// Whether an asset of `assets` has the asset id `id`.
fn asset_id_taken(assets: &Vec<AssetConfig>, id: &str) -> (r: bool)
    ensures
        r == exists|i: int|
            0 <= i < assets@.len() && #[trigger] assets_view(assets@)[i].asset_id == id@,
{
    let ghost s = assets_view(assets@);
    let n = assets.len();
    let mut i: usize = 0;
    while i < n
        invariant
            n == assets@.len(),
            s == assets_view(assets@),
            i <= n,
            forall|j: int| 0 <= j < i ==> #[trigger] s[j].asset_id != id@,
        decreases n - i,
    {
        assert(s[i as int] == assets@[i as int]@);
        if str_eq(assets[i].asset_id.as_str(), id) {
            assert(s[i as int].asset_id == id@);
            return true;
        }
        i += 1;
    }
    false
}

/// Bootstraps one holding into the assets.
fn bootstrap_one(assets: &mut Vec<AssetConfig>, h: &HoldingIdentity) -> (r: BootstrapOutcome)
    ensures
        ({
            let step = bootstrap_step(assets_view(old(assets)@), h.fund_code@, h.fund_name@);
            &&& assets_view(final(assets)@) == step.0
            &&& r == step.1
        }),
{
    let ghost s = assets_view(assets@);
    if h.fund_code.as_str().is_empty() && h.fund_name.as_str().is_empty() {
        return BootstrapOutcome::Failed;
    }
    if holding_exists(assets, h.fund_code.as_str(), h.fund_name.as_str()) {
        return BootstrapOutcome::Skipped;
    }
    let asset_id = if !h.fund_code.as_str().is_empty() {
        let mut id = owned("fund_");
        push_str(&mut id, h.fund_code.as_str());
        id
    } else {
        alphanumeric_only(h.fund_name.as_str())
    };
    if asset_id_taken(assets, asset_id.as_str()) {
        return BootstrapOutcome::Skipped;
    }
    let mut new_asset = AssetConfig::default();
    new_asset.asset_id = asset_id;
    new_asset.fund_code = h.fund_code.clone();
    new_asset.fund_name = h.fund_name.clone();
    new_asset.sector = owned("未分类");
    new_asset.currency = owned("CNY");
    new_asset.valuation_method = owned("nav");
    new_asset.market_data_provider = Some(owned("eastmoney"));
    new_asset.enabled = true;
    assets.push(new_asset);
    assert(assets_view(assets@) =~= s.push(
        new_asset_view(new_asset_id(h.fund_code@, h.fund_name@), h.fund_code@, h.fund_name@),
    ));
    BootstrapOutcome::Created
}

/// Creates an asset configuration for every holding that no asset stands for
/// yet. Returns (created, skipped, failed).
pub fn bootstrap_assets_from_holdings(
    assets: &mut Vec<AssetConfig>,
    candidates: &[HoldingIdentity],
) -> (r: (usize, usize, usize))
    ensures
        ({
            let res = bootstrap_all(
                assets_view(old(assets)@),
                candidates@.map_values(|h: HoldingIdentity| identity_view(h)),
            );
            &&& assets_view(final(assets)@) == res.0
            &&& r.0 as nat == res.1
            &&& r.1 as nat == res.2
            &&& r.2 as nat == res.3
        }),
{
    let ghost s0 = assets_view(assets@);
    let ghost hs = candidates@.map_values(|h: HoldingIdentity| identity_view(h));
    let mut created: usize = 0;
    let mut skipped: usize = 0;
    let mut failed: usize = 0;
    let n = candidates.len();
    let mut i: usize = 0;
    assert(hs.take(0) =~= Seq::<(Seq<char>, Seq<char>)>::empty());
    while i < n
        invariant
            n == candidates@.len(),
            hs == candidates@.map_values(|h: HoldingIdentity| identity_view(h)),
            i <= n,
            created + skipped + failed <= i,
            ({
                let res = bootstrap_all(s0, hs.take(i as int));
                &&& assets_view(assets@) == res.0
                &&& created as nat == res.1
                &&& skipped as nat == res.2
                &&& failed as nat == res.3
            }),
        decreases n - i,
    {
        let outcome = bootstrap_one(assets, &candidates[i]);
        match outcome {
            BootstrapOutcome::Created => {
                created += 1;
            },
            BootstrapOutcome::Skipped => {
                skipped += 1;
            },
            BootstrapOutcome::Failed => {
                failed += 1;
            },
        }
        proof {
            let t = hs.take(i + 1);
            assert(t.drop_last() =~= hs.take(i as int));
            assert(t.last() == identity_view(candidates@[i as int]));
        }
        i += 1;
    }
    assert(hs.take(n as int) =~= hs);
    (created, skipped, failed)
}


// ---------------------------------------------------------------------------
// Laws
// ---------------------------------------------------------------------------

/// `t` keeps every element of `s` at its position.
pub open spec fn extends(t: Seq<AssetView>, s: Seq<AssetView>) -> bool {
    s.len() <= t.len() && forall|i: int| 0 <= i < s.len() ==> #[trigger] t[i] == s[i]
}

proof fn lemma_bootstrap_all_extends(s: Seq<AssetView>, hs: Seq<(Seq<char>, Seq<char>)>)
    ensures
        extends(bootstrap_all(s, hs).0, s),
    decreases hs.len(),
{
    if hs.len() > 0 {
        lemma_bootstrap_all_extends(s, hs.drop_last());
    }
}

proof fn lemma_bootstrap_all_extends_prefix(s: Seq<AssetView>, hs: Seq<(Seq<char>, Seq<char>)>, k: int)
    requires
        0 <= k <= hs.len(),
    ensures
        extends(bootstrap_all(s, hs).0, bootstrap_all(s, hs.take(k)).0),
    decreases hs.len(),
{
    if k == hs.len() {
        assert(hs.take(k) =~= hs);
    } else {
        lemma_bootstrap_all_extends_prefix(s, hs.drop_last(), k);
        assert(hs.drop_last().take(k) =~= hs.take(k));
    }
}

proof fn lemma_bootstrap_settled(s: Seq<AssetView>, hs: Seq<(Seq<char>, Seq<char>)>, k: int)
    requires
        0 <= k < hs.len(),
    ensures
        ({
            let f = bootstrap_all(s, hs).0;
            let step = bootstrap_step(f, hs[k].0, hs[k].1);
            &&& step.0 == f
            &&& !(step.1 is Created)
        }),
{
    let f = bootstrap_all(s, hs).0;
    let code = hs[k].0;
    let name = hs[k].1;
    let l = bootstrap_all(s, hs.take(k)).0;
    lemma_bootstrap_all_extends_prefix(s, hs, k + 1);
    let t = hs.take(k + 1);
    assert(t.drop_last() =~= hs.take(k));
    assert(t.last() == hs[k]);
    let after = bootstrap_all(s, t).0;
    let step_k = bootstrap_step(l, code, name);
    assert(after == step_k.0);
    if code.len() == 0 && name.len() == 0 {
    } else if holding_configured(l, code, name) {
        let w = choose|w: int| 0 <= w < l.len() && #[trigger] stands_for(l[w], code, name);
        assert(f[w] == l[w]);
        assert(holding_configured(f, code, name));
    } else {
        let id = new_asset_id(code, name);
        if exists|i: int| 0 <= i < l.len() && #[trigger] l[i].asset_id == id {
            let w = choose|i: int| 0 <= i < l.len() && #[trigger] l[i].asset_id == id;
            assert(f[w] == l[w]);
            assert(f[w].asset_id == id);
        } else {
            let n = new_asset_view(id, code, name);
            assert(after[l.len() as int] == n);
            assert(f[l.len() as int] == n);
            assert(stands_for(f[l.len() as int], code, name));
            assert(holding_configured(f, code, name));
        }
    }
}

/// Bootstrapping the same holdings a second time creates nothing and leaves
/// the asset configurations as the first run left them.
pub proof fn law_bootstrap_twice_creates_nothing(s: Seq<AssetView>, hs: Seq<(Seq<char>, Seq<char>)>)
    ensures
        bootstrap_all(bootstrap_all(s, hs).0, hs).0 == bootstrap_all(s, hs).0,
        bootstrap_all(bootstrap_all(s, hs).0, hs).1 == 0,
{
    let f = bootstrap_all(s, hs).0;
    lemma_bootstrap_rerun(s, hs, hs.len() as int);
    assert(hs.take(hs.len() as int) =~= hs);
}

proof fn lemma_bootstrap_rerun(s: Seq<AssetView>, hs: Seq<(Seq<char>, Seq<char>)>, j: int)
    requires
        0 <= j <= hs.len(),
    ensures
        bootstrap_all(bootstrap_all(s, hs).0, hs.take(j)).0 == bootstrap_all(s, hs).0,
        bootstrap_all(bootstrap_all(s, hs).0, hs.take(j)).1 == 0,
    decreases j,
{
    let f = bootstrap_all(s, hs).0;
    if j == 0 {
        assert(hs.take(0).len() == 0);
    } else {
        lemma_bootstrap_rerun(s, hs, j - 1);
        let t = hs.take(j);
        assert(t.drop_last() =~= hs.take(j - 1));
        assert(t.last() == hs[j - 1]);
        lemma_bootstrap_settled(s, hs, j - 1);
    }
}

// ---------------------------------------------------------------------------
// Local holdings from a snapshot
// ---------------------------------------------------------------------------

/// What the local bootstrap of an imported holding does.
#[derive(Debug, Clone, Copy, PartialEq, Eq, Structural)]
pub enum LocalBootstrapAction {
    Skip,
    Create,
    Replace,
}

/// The action and warning for an imported holding when local holdings are
/// bootstrapped from it, given the matched asset (if any), whether the
/// system already holds units of it (`None` without a holding), whether a NAV
/// is known for it, and whether existing holdings may be replaced.
pub open spec fn local_bootstrap(
    matched: bool,
    existing_units_positive: Option<bool>,
    nav_known: bool,
    replace_existing: bool,
) -> (LocalBootstrapAction, Option<Seq<char>>) {
    if !matched {
        (LocalBootstrapAction::Skip, Some("AssetConfig not found. Please run bootstrap-assets first."@))
    } else if existing_units_positive == Some(true) && !replace_existing {
        (LocalBootstrapAction::Skip, Some("Local holding already exists. Use --replace-existing to overwrite."@))
    } else if !nav_known {
        (LocalBootstrapAction::Skip, Some("NAV not found in cache. Cannot estimate shares."@))
    } else if replace_existing && existing_units_positive == Some(true) {
        (LocalBootstrapAction::Replace, None)
    } else {
        (LocalBootstrapAction::Create, None)
    }
}

/// Decides what bootstrapping local holdings does with an imported holding
/// (see [`local_bootstrap`]); the asset is the one [`find_matching_asset`]
/// finds, and the unit and NAV checks compare amounts, made by the caller.
pub fn local_bootstrap_action(
    matched: bool,
    existing_units_positive: Option<bool>,
    nav_known: bool,
    replace_existing: bool,
) -> (r: (LocalBootstrapAction, Option<String>))
    ensures
        ({
            let spec_r = local_bootstrap(matched, existing_units_positive, nav_known, replace_existing);
            &&& r.0 == spec_r.0
            &&& crate::model::opt_view(r.1) == spec_r.1
        }),
{
    if !matched {
        (LocalBootstrapAction::Skip, Some(owned("AssetConfig not found. Please run bootstrap-assets first.")))
    } else if existing_units_positive == Some(true) && !replace_existing {
        (LocalBootstrapAction::Skip, Some(owned("Local holding already exists. Use --replace-existing to overwrite.")))
    } else if !nav_known {
        (LocalBootstrapAction::Skip, Some(owned("NAV not found in cache. Cannot estimate shares.")))
    } else if replace_existing && existing_units_positive == Some(true) {
        (LocalBootstrapAction::Replace, None)
    } else {
        (LocalBootstrapAction::Create, None)
    }
}

/// What the local bootstrap reads of one imported holding: whether it
/// matched a configured asset, whether the system holds units of that asset
/// (`None` without a holding), whether a NAV is known for it and whether that
/// NAV is positive (the caller compares the amounts).
#[derive(Debug, Clone, Copy)]
pub struct LocalBootstrapFacts {
    pub matched: bool,
    pub existing_units_positive: Option<bool>,
    pub nav_known: bool,
    pub nav_positive: bool,
}

/// The local bootstrap of every imported holding: the action and warning of
/// each row, and the rows whose holding is written (created or replaced with
/// estimated shares, which needs a positive NAV).
#[derive(Debug)]
pub struct LocalBootstrapPlan {
    pub actions: Vec<LocalBootstrapAction>,
    pub warnings: Vec<Option<String>>,
    pub written: Vec<usize>,
}

/// The holding of the row is written: its action is not a skip and its
/// shares can be estimated.
pub open spec fn writes_holding(f: LocalBootstrapFacts, replace_existing: bool) -> bool {
    local_bootstrap(f.matched, f.existing_units_positive, f.nav_known, replace_existing).0
        != LocalBootstrapAction::Skip && f.nav_positive
}

/// The indices of the rows whose holding is written, in order.
pub open spec fn written_rows(rows: Seq<LocalBootstrapFacts>, replace_existing: bool) -> Seq<int>
    decreases rows.len(),
{
    if rows.len() == 0 {
        Seq::empty()
    } else {
        let prev = written_rows(rows.drop_last(), replace_existing);
        if writes_holding(rows.last(), replace_existing) {
            prev.push(rows.len() - 1)
        } else {
            prev
        }
    }
}

/// Plans the local bootstrap of the imported holdings: the action and
/// warning of every row (see [`local_bootstrap`]) and the rows whose holding
/// is written, in order.
pub fn plan_local_bootstrap(rows: &[LocalBootstrapFacts], replace_existing: bool) -> (r: LocalBootstrapPlan)
    ensures
        r.actions@.len() == rows@.len(),
        r.warnings@.len() == rows@.len(),
        forall|k: int|
            0 <= k < rows@.len() ==> {
                let spec_r = local_bootstrap(
                    rows@[k].matched,
                    rows@[k].existing_units_positive,
                    rows@[k].nav_known,
                    replace_existing,
                );
                &&& #[trigger] r.actions@[k] == spec_r.0
                &&& crate::model::opt_view(r.warnings@[k]) == spec_r.1
            },
        r.written@.map_values(|u: usize| u as int) == written_rows(rows@, replace_existing),
{
    let n = rows.len();
    let mut actions: Vec<LocalBootstrapAction> = Vec::new();
    let mut warnings: Vec<Option<String>> = Vec::new();
    let mut written: Vec<usize> = Vec::new();
    let mut k: usize = 0;
    assert(rows@.take(0) =~= Seq::<LocalBootstrapFacts>::empty());
    while k < n
        invariant
            n == rows@.len(),
            k <= n,
            actions@.len() == k,
            warnings@.len() == k,
            forall|q: int|
                0 <= q < k ==> {
                    let spec_r = local_bootstrap(
                        rows@[q].matched,
                        rows@[q].existing_units_positive,
                        rows@[q].nav_known,
                        replace_existing,
                    );
                    &&& #[trigger] actions@[q] == spec_r.0
                    &&& crate::model::opt_view(warnings@[q]) == spec_r.1
                },
            written@.map_values(|u: usize| u as int) == written_rows(rows@.take(k as int), replace_existing),
        decreases n - k,
    {
        let f = rows[k];
        let (action, warning) = local_bootstrap_action(f.matched, f.existing_units_positive, f.nav_known, replace_existing);
        let writes = !matches!(action, LocalBootstrapAction::Skip) && f.nav_positive;
        proof {
            let t = rows@.take(k + 1);
            assert(t.drop_last() =~= rows@.take(k as int));
            assert(t.last() == rows@[k as int]);
        }
        let ghost before = written@.map_values(|u: usize| u as int);
        if writes {
            written.push(k);
            assert(written@.map_values(|u: usize| u as int) =~= before.push(k as int));
        }
        let ghost old_actions = actions@;
        let ghost old_warnings = warnings@;
        actions.push(action);
        warnings.push(warning);
        assert(actions@ == old_actions.push(action));
        assert(warnings@ == old_warnings.push(warning));
        assert forall|q: int| 0 <= q < k + 1 implies {
            let spec_r = local_bootstrap(
                rows@[q].matched,
                rows@[q].existing_units_positive,
                rows@[q].nav_known,
                replace_existing,
            );
            &&& #[trigger] actions@[q] == spec_r.0
            &&& crate::model::opt_view(warnings@[q]) == spec_r.1
        } by {
            if q < k {
                assert(actions@[q] == old_actions[q]);
                assert(warnings@[q] == old_warnings[q]);
            }
        }
        k += 1;
    }
    assert(rows@.take(n as int) =~= rows@);
    LocalBootstrapPlan { actions, warnings, written }
}

/// Every written row is in range, in increasing order, and safe to write: its
/// asset matched, its NAV is known and positive, and an existing holding with
/// units is overwritten only when replacing was asked.
pub proof fn law_written_rows_are_safe(rows: Seq<LocalBootstrapFacts>, replace_existing: bool)
    ensures
        ({
            let w = written_rows(rows, replace_existing);
            &&& forall|a: int, b: int| 0 <= a < b < w.len() ==> #[trigger] w[a] < #[trigger] w[b]
            &&& forall|j: int|
                0 <= j < w.len() ==> {
                    let f = rows[#[trigger] w[j]];
                    &&& 0 <= w[j] < rows.len()
                    &&& f.matched && f.nav_known && f.nav_positive
                    &&& f.existing_units_positive == Some(true) ==> replace_existing
                }
        }),
    decreases rows.len(),
{
    if rows.len() > 0 {
        let init = rows.drop_last();
        law_written_rows_are_safe(init, replace_existing);
        let w0 = written_rows(init, replace_existing);
        let w = written_rows(rows, replace_existing);
        assert forall|j: int| 0 <= j < w0.len() implies rows[w0[j]] == init[w0[j]] by {}
        if writes_holding(rows.last(), replace_existing) {
            assert(w == w0.push(rows.len() - 1));
        }
    }
}

/// A holding is created or replaced only for a matched asset with a known
/// NAV, and an existing holding with units is replaced only when asked.
pub proof fn law_local_bootstrap_writes_only_when_safe(
    matched: bool,
    existing_units_positive: Option<bool>,
    nav_known: bool,
    replace_existing: bool,
)
    ensures
        ({
            let a = local_bootstrap(matched, existing_units_positive, nav_known, replace_existing).0;
            &&& a != LocalBootstrapAction::Skip ==> matched && nav_known
            &&& existing_units_positive == Some(true) && a != LocalBootstrapAction::Skip ==> a
                == LocalBootstrapAction::Replace && replace_existing
        }),
{
}

// ---------------------------------------------------------------------------
// Holding import preview
// ---------------------------------------------------------------------------

/// How the imported holding rows match the configured assets.
#[derive(Debug)]
pub struct HoldingMatches {
    /// The matched asset of every row.
    pub matched: Vec<Option<usize>>,
    /// The warning of every unmatched row.
    pub unmatched_warnings: Vec<Option<String>>,
    pub valid_rows: usize,
    pub unmatched_rows: usize,
}

/// The warning of a row that matches no configured asset.
pub open spec fn unmatched_warning(code: Seq<char>, name: Seq<char>) -> Seq<char> {
    "未找到匹配的资产配置: "@ + code + " "@ + name
}

/// How many of the first `n` rows match an asset.
pub open spec fn matched_count(s: Seq<AssetView>, hs: Seq<HoldingIdentity>, n: int) -> nat
    decreases n,
{
    if n <= 0 {
        0
    } else {
        matched_count(s, hs, n - 1) + if matching_asset(s, hs[n - 1].fund_code@, hs[n - 1].fund_name@) is Some {
            1nat
        } else {
            0nat
        }
    }
}

/// Matches every imported holding row to a configured asset (as
/// [`find_matching_asset`] does), counts the matched and unmatched rows, and
/// words the warning of each unmatched row.
pub fn match_alipay_holdings(assets: &[AssetConfig], holdings: &[HoldingIdentity]) -> (r: HoldingMatches)
    ensures
        ({
            let s = assets_view(assets@);
            let hs = holdings@;
            &&& r.matched@.len() == hs.len()
            &&& r.unmatched_warnings@.len() == hs.len()
            &&& forall|k: int|
                0 <= k < hs.len() ==> {
                    let m = matching_asset(s, hs[k].fund_code@, hs[k].fund_name@);
                    &&& match #[trigger] r.matched@[k] {
                        Some(i) => m == Some(i as int),
                        None => m == None::<int>,
                    }
                    &&& crate::model::opt_view(r.unmatched_warnings@[k]) == if m is Some {
                        None
                    } else {
                        Some(unmatched_warning(hs[k].fund_code@, hs[k].fund_name@))
                    }
                }
            &&& r.valid_rows == matched_count(s, hs, hs.len() as int)
            &&& r.valid_rows + r.unmatched_rows == hs.len()
        }),
{
    let ghost s = assets_view(assets@);
    let n = holdings.len();
    let mut matched: Vec<Option<usize>> = Vec::new();
    let mut warnings: Vec<Option<String>> = Vec::new();
    let mut valid_rows: usize = 0;
    let mut unmatched_rows: usize = 0;
    let mut k: usize = 0;
    while k < n
        invariant
            n == holdings@.len(),
            s == assets_view(assets@),
            k <= n,
            matched@.len() == k,
            warnings@.len() == k,
            forall|q: int|
                0 <= q < k ==> {
                    let m = matching_asset(s, holdings@[q].fund_code@, holdings@[q].fund_name@);
                    &&& match #[trigger] matched@[q] {
                        Some(i) => m == Some(i as int),
                        None => m == None::<int>,
                    }
                    &&& crate::model::opt_view(warnings@[q]) == if m is Some {
                        None
                    } else {
                        Some(unmatched_warning(holdings@[q].fund_code@, holdings@[q].fund_name@))
                    }
                },
            valid_rows == matched_count(s, holdings@, k as int),
            valid_rows + unmatched_rows == k,
        decreases n - k,
    {
        let h = &holdings[k];
        let m = find_matching_asset(assets, h.fund_code.as_str(), h.fund_name.as_str());
        match m {
            Some(_) => {
                valid_rows = valid_rows + 1;
                warnings.push(None);
            },
            None => {
                unmatched_rows = unmatched_rows + 1;
                let mut w = owned("未找到匹配的资产配置: ");
                push_str(&mut w, h.fund_code.as_str());
                push_str(&mut w, " ");
                push_str(&mut w, h.fund_name.as_str());
                warnings.push(Some(w));
            },
        }
        matched.push(m);
        k += 1;
    }
    HoldingMatches { matched, unmatched_warnings: warnings, valid_rows, unmatched_rows }
}

} // verus!
