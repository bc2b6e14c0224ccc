//! The market refresh plan: which symbols to fetch, and from which provider
//! under which provider symbol.

use vstd::prelude::*;
use crate::model::{
    assets_view, instruments_view, opt_view, strings_view, AssetConfig, AssetView, InstrumentConfig,
    InstrumentView,
};
use crate::text::{owned, str_eq};
use crate::watchlist::{archived_view, is_instrument_archived, migrate_au9999_provider, migrated_au9999};

verus! {

/// A fetch pair as characters: cache key, provider name, provider symbol.
pub type PairView = (Seq<char>, Seq<char>, Seq<char>);

/// The characters of a fetch pair.
pub open spec fn pair_view(p: (String, String, String)) -> PairView {
    (p.0@, p.1@, p.2@)
}

/// The characters of a list of fetch pairs.
pub open spec fn pairs_view(v: Seq<(String, String, String)>) -> Seq<PairView> {
    v.map_values(|p: (String, String, String)| pair_view(p))
}

/// The instrument is on the active watchlist: enabled and not archived.
pub open spec fn is_active(v: InstrumentView) -> bool {
    v.enabled && !archived_view(v)
}

/// The symbol asked of the provider: the provider symbol, or the key when
/// there is none.
pub open spec fn fetch_symbol(v: InstrumentView, key: Seq<char>) -> Seq<char> {
    if v.provider_symbol.len() == 0 {
        key
    } else {
        v.provider_symbol
    }
}

/// One fetch pair per active instrument, in watchlist order.
pub open spec fn instrument_pairs(ins: Seq<InstrumentView>) -> Seq<PairView>
    decreases ins.len(),
{
    if ins.len() == 0 {
        Seq::empty()
    } else {
        let rest = instrument_pairs(ins.drop_last());
        let v = ins.last();
        if is_active(v) {
            rest.push((v.symbol, v.provider, fetch_symbol(v, v.symbol)))
        } else {
            rest
        }
    }
}

/// The optional symbol as a list of none or one.
pub open spec fn opt_list(o: Option<Seq<char>>) -> Seq<Seq<char>> {
    match o {
        Some(s) => seq![s],
        None => Seq::empty(),
    }
}

/// The reference symbols of an asset: instrument, then index.
pub open spec fn asset_symbols(a: AssetView) -> Seq<Seq<char>> {
    opt_list(a.reference_instrument_symbol) + opt_list(a.reference_index_symbol)
}

/// The reference symbols of the enabled assets, in order.
pub open spec fn enabled_asset_symbols(assets: Seq<AssetView>) -> Seq<Seq<char>>
    decreases assets.len(),
{
    if assets.len() == 0 {
        Seq::empty()
    } else {
        enabled_asset_symbols(assets.drop_last()) + if assets.last().enabled {
            asset_symbols(assets.last())
        } else {
            Seq::empty()
        }
    }
}

/// The symbols of the active instruments, in order.
pub open spec fn active_symbols(ins: Seq<InstrumentView>) -> Seq<Seq<char>>
    decreases ins.len(),
{
    if ins.len() == 0 {
        Seq::empty()
    } else {
        let rest = active_symbols(ins.drop_last());
        if is_active(ins.last()) {
            rest.push(ins.last().symbol)
        } else {
            rest
        }
    }
}

/// The first asset with the given id.
pub open spec fn first_asset_with_id(assets: Seq<AssetView>, id: Seq<char>) -> Option<AssetView>
    decreases assets.len(),
{
    if assets.len() == 0 {
        None
    } else if assets[0].asset_id == id {
        Some(assets[0])
    } else {
        first_asset_with_id(assets.drop_first(), id)
    }
}

/// The reference symbols of the assets that the held ids name, in order.
pub open spec fn held_symbols(assets: Seq<AssetView>, held: Seq<Seq<char>>) -> Seq<Seq<char>>
    decreases held.len(),
{
    if held.len() == 0 {
        Seq::empty()
    } else {
        held_symbols(assets, held.drop_last()) + match first_asset_with_id(assets, held.last()) {
            Some(a) => asset_symbols(a),
            None => Seq::empty(),
        }
    }
}

/// Every symbol the refresh asks for, in the order the plan considers them:
/// enabled assets' references, the risk symbols, the FX symbol, the active
/// instruments, then the references of held assets.
pub open spec fn refresh_symbols(
    assets: Seq<AssetView>,
    risk: Seq<Seq<char>>,
    fx: Seq<char>,
    ins: Seq<InstrumentView>,
    held: Seq<Seq<char>>,
) -> Seq<Seq<char>> {
    enabled_asset_symbols(assets) + risk + seq![fx] + active_symbols(ins) + held_symbols(assets, held)
}

/// The last instrument with the given symbol (the one a symbol index built in
/// list order keeps).
pub open spec fn last_instrument_with_symbol(ins: Seq<InstrumentView>, sym: Seq<char>) -> Option<
    InstrumentView,
>
    decreases ins.len(),
{
    if ins.len() == 0 {
        None
    } else if ins.last().symbol == sym {
        Some(ins.last())
    } else {
        last_instrument_with_symbol(ins.drop_last(), sym)
    }
}

/// The fetch pair for a symbol: the watchlist's provider when an instrument
/// has that symbol, otherwise Yahoo under the symbol itself.
pub open spec fn pair_for(sym: Seq<char>, ins: Seq<InstrumentView>) -> PairView {
    match last_instrument_with_symbol(ins, sym) {
        Some(v) => (sym, v.provider, fetch_symbol(v, sym)),
        None => (sym, "yahoo"@, sym),
    }
}

/// Some pair already has the key.
pub open spec fn has_key(pairs: Seq<PairView>, key: Seq<char>) -> bool {
    exists|k: int| 0 <= k < pairs.len() && (#[trigger] pairs[k]).0 == key
}

/// The pairs extended by one pair per symbol, skipping empty symbols and keys
/// already planned.
pub open spec fn extend_pairs(pairs: Seq<PairView>, syms: Seq<Seq<char>>, ins: Seq<InstrumentView>) -> Seq<
    PairView,
>
    decreases syms.len(),
{
    if syms.len() == 0 {
        pairs
    } else {
        let s = syms[0];
        if s.len() == 0 || has_key(pairs, s) {
            extend_pairs(pairs, syms.drop_first(), ins)
        } else {
            extend_pairs(pairs.push(pair_for(s, ins)), syms.drop_first(), ins)
        }
    }
}

/// The refresh plan: the active instruments' pairs, then one pair for each
/// other non-empty symbol that is not yet a key.
pub open spec fn refresh_plan(
    assets: Seq<AssetView>,
    risk: Seq<Seq<char>>,
    fx: Seq<char>,
    ins: Seq<InstrumentView>,
    held: Seq<Seq<char>>,
) -> Seq<PairView> {
    extend_pairs(instrument_pairs(ins), refresh_symbols(assets, risk, fx, ins, held), ins)
}

/// Appends a copy of an optional symbol.
fn push_opt(v: &mut Vec<String>, o: &Option<String>)
    ensures
        strings_view(final(v)@) == strings_view(old(v)@) + opt_list(opt_view(*o)),
{
    match o {
        Some(s) => {
            v.push(s.clone());
            assert(strings_view(v@) =~= strings_view(old(v)@) + opt_list(opt_view(*o)));
        },
        None => {
            assert(strings_view(v@) =~= strings_view(old(v)@) + opt_list(opt_view(*o)));
        },
    }
}

/// Appends the reference symbols of an asset.
fn push_asset_symbols(v: &mut Vec<String>, a: &AssetConfig)
    ensures
        strings_view(final(v)@) == strings_view(old(v)@) + asset_symbols(a@),
{
    push_opt(v, &a.reference_instrument_symbol);
    push_opt(v, &a.reference_index_symbol);
    assert(strings_view(v@) =~= strings_view(old(v)@) + asset_symbols(a@));
}

/// The index of the first asset with the given id.
fn find_asset(assets: &[AssetConfig], id: &str) -> (r: Option<usize>)
    ensures
        match first_asset_with_id(assets_view(assets@), id@) {
            Some(a) => r matches Some(i) && i < assets.len() && assets@[i as int]@ == a,
            None => r is None,
        },
{
    let ghost av = assets_view(assets@);
    let n = assets.len();
    let mut i: usize = 0;
    assert(av.skip(0) =~= av);
    while i < n
        invariant
            n == assets.len(),
            av == assets_view(assets@),
            i <= n,
            first_asset_with_id(av, id@) == first_asset_with_id(av.skip(i as int), id@),
        decreases n - i,
    {
        assert(av.skip(i as int)[0] == assets@[i as int]@);
        assert(av.skip(i as int).drop_first() =~= av.skip(i + 1));
        if str_eq(assets[i].asset_id.as_str(), id) {
            return Some(i);
        }
        i += 1;
    }
    assert(av.skip(n as int).len() == 0);
    None
}

/// The index of the last instrument with the given symbol.
fn find_last_instrument(instruments: &[InstrumentConfig], sym: &str) -> (r: Option<usize>)
    ensures
        match last_instrument_with_symbol(instruments_view(instruments@), sym@) {
            Some(v) => r matches Some(i) && i < instruments.len() && instruments@[i as int]@ == v,
            None => r is None,
        },
{
    let ghost iv = instruments_view(instruments@);
    let n = instruments.len();
    let mut found: Option<usize> = None;
    let mut i: usize = 0;
    assert(iv.take(0) =~= Seq::<InstrumentView>::empty());
    while i < n
        invariant
            n == instruments.len(),
            iv == instruments_view(instruments@),
            i <= n,
            match last_instrument_with_symbol(iv.take(i as int), sym@) {
                Some(v) => found matches Some(j) && j < n && instruments@[j as int]@ == v,
                None => found is None,
            },
        decreases n - i,
    {
        assert(iv.take(i + 1).drop_last() =~= iv.take(i as int));
        assert(iv.take(i + 1).last() == instruments@[i as int]@);
        if str_eq(instruments[i].symbol.as_str(), sym) {
            found = Some(i);
        }
        i += 1;
    }
    assert(iv.take(n as int) =~= iv);
    found
}

/// The fetch pair of an instrument under a cache key.
fn pair_of_instrument(key: &str, inst: &InstrumentConfig) -> (r: (String, String, String))
    ensures
        pair_view(r) == (key@, inst@.provider, fetch_symbol(inst@, key@)),
{
    let fetch = if inst.provider_symbol.as_str().is_empty() {
        owned(key)
    } else {
        inst.provider_symbol.clone()
    };
    (owned(key), inst.provider.clone(), fetch)
}

/// Whether some pair already has the key.
fn has_pair_key(pairs: &Vec<(String, String, String)>, key: &str) -> (r: bool)
    ensures
        r == has_key(pairs_view(pairs@), key@),
{
    let ghost pv = pairs_view(pairs@);
    let n = pairs.len();
    let mut i: usize = 0;
    while i < n
        invariant
            n == pairs.len(),
            pv == pairs_view(pairs@),
            i <= n,
            forall|k: int| 0 <= k < i ==> (#[trigger] pv[k]).0 != key@,
        decreases n - i,
    {
        assert(pv[i as int] == pair_view(pairs@[i as int]));
        if str_eq(pairs[i].0.as_str(), key) {
            return true;
        }
        i += 1;
    }
    false
}

/// The plan over an already migrated watchlist.
fn plan_fetch_pairs(
    assets: &[AssetConfig],
    risk_symbols: &[String],
    fx_symbol: &str,
    instruments: &[InstrumentConfig],
    held_asset_ids: &[String],
) -> (r: Vec<(String, String, String)>)
    ensures
        pairs_view(r@) == refresh_plan(
            assets_view(assets@),
            strings_view(risk_symbols@),
            fx_symbol@,
            instruments_view(instruments@),
            strings_view(held_asset_ids@),
        ),
{
    let ghost av = assets_view(assets@);
    let ghost iv = instruments_view(instruments@);
    let ghost hv = strings_view(held_asset_ids@);
    let ghost rv = strings_view(risk_symbols@);
    // Pairs of the active instruments.
    let mut pairs: Vec<(String, String, String)> = Vec::new();
    let n = instruments.len();
    let mut i: usize = 0;
    assert(iv.take(0) =~= Seq::<InstrumentView>::empty());
    while i < n
        invariant
            n == instruments.len(),
            iv == instruments_view(instruments@),
            i <= n,
            pairs_view(pairs@) == instrument_pairs(iv.take(i as int)),
        decreases n - i,
    {
        assert(iv.take(i + 1).drop_last() =~= iv.take(i as int));
        assert(iv.take(i + 1).last() == instruments@[i as int]@);
        let inst = &instruments[i];
        if inst.enabled && !is_instrument_archived(inst) {
            let p = pair_of_instrument(inst.symbol.as_str(), inst);
            pairs.push(p);
            assert(pairs_view(pairs@) =~= instrument_pairs(iv.take(i + 1)));
        }
        i += 1;
    }
    assert(iv.take(n as int) =~= iv);
    // The symbols asked for.
    let mut syms: Vec<String> = Vec::new();
    let na = assets.len();
    let mut j: usize = 0;
    assert(av.take(0) =~= Seq::<AssetView>::empty());
    while j < na
        invariant
            na == assets.len(),
            av == assets_view(assets@),
            j <= na,
            strings_view(syms@) == enabled_asset_symbols(av.take(j as int)),
        decreases na - j,
    {
        assert(av.take(j + 1).drop_last() =~= av.take(j as int));
        assert(av.take(j + 1).last() == assets@[j as int]@);
        if assets[j].enabled {
            push_asset_symbols(&mut syms, &assets[j]);
        } else {
            assert(strings_view(syms@) =~= enabled_asset_symbols(av.take(j + 1)));
        }
        j += 1;
    }
    assert(av.take(na as int) =~= av);
    let ghost after_assets = strings_view(syms@);
    let nr = risk_symbols.len();
    let mut k: usize = 0;
    while k < nr
        invariant
            nr == risk_symbols.len(),
            rv == strings_view(risk_symbols@),
            k <= nr,
            strings_view(syms@) == after_assets + rv.take(k as int),
        decreases nr - k,
    {
        let ghost before = strings_view(syms@);
        let c = risk_symbols[k].clone();
        assert(c@ == rv[k as int]);
        syms.push(c);
        assert(strings_view(syms@) =~= before.push(rv[k as int]));
        assert(rv.take(k + 1) =~= rv.take(k as int).push(rv[k as int]));
        assert(strings_view(syms@) =~= after_assets + rv.take(k + 1));
        k += 1;
    }
    assert(rv.take(nr as int) =~= rv);
    let ghost before_fx = strings_view(syms@);
    syms.push(owned(fx_symbol));
    assert(strings_view(syms@) =~= before_fx + seq![fx_symbol@]);
    let ghost after_fx = strings_view(syms@);
    let mut m: usize = 0;
    while m < n
        invariant
            n == instruments.len(),
            iv == instruments_view(instruments@),
            m <= n,
            strings_view(syms@) == after_fx + active_symbols(iv.take(m as int)),
        decreases n - m,
    {
        assert(iv.take(m + 1).drop_last() =~= iv.take(m as int));
        assert(iv.take(m + 1).last() == instruments@[m as int]@);
        let inst = &instruments[m];
        let ghost before = strings_view(syms@);
        if inst.enabled && !is_instrument_archived(inst) {
            let c = inst.symbol.clone();
            syms.push(c);
            assert(strings_view(syms@) =~= before.push(instruments@[m as int]@.symbol));
        }
        assert(strings_view(syms@) =~= after_fx + active_symbols(iv.take(m + 1)));
        m += 1;
    }
    let ghost after_active = strings_view(syms@);
    let nh = held_asset_ids.len();
    let mut h: usize = 0;
    assert(hv.take(0) =~= Seq::<Seq<char>>::empty());
    while h < nh
        invariant
            nh == held_asset_ids.len(),
            hv == strings_view(held_asset_ids@),
            av == assets_view(assets@),
            h <= nh,
            strings_view(syms@) == after_active + held_symbols(av, hv.take(h as int)),
        decreases nh - h,
    {
        assert(hv.take(h + 1).drop_last() =~= hv.take(h as int));
        assert(hv.take(h + 1).last() == held_asset_ids@[h as int]@);
        match find_asset(assets, held_asset_ids[h].as_str()) {
            Some(a) => {
                push_asset_symbols(&mut syms, &assets[a]);
            },
            None => {},
        }
        assert(strings_view(syms@) =~= after_active + held_symbols(av, hv.take(h + 1)));
        h += 1;
    }
    assert(hv.take(nh as int) =~= hv);
    let ghost sv = strings_view(syms@);
    assert(sv =~= refresh_symbols(av, rv, fx_symbol@, iv, hv));
    // One pair per new symbol.
    let ns = syms.len();
    let mut s: usize = 0;
    let ghost start = pairs_view(pairs@);
    assert(sv.skip(0) =~= sv);
    while s < ns
        invariant
            ns == syms.len(),
            sv == strings_view(syms@),
            iv == instruments_view(instruments@),
            s <= ns,
            extend_pairs(pairs_view(pairs@), sv.skip(s as int), iv) == extend_pairs(start, sv, iv),
        decreases ns - s,
    {
        assert(sv.skip(s as int)[0] == syms@[s as int]@);
        assert(sv.skip(s as int).drop_first() =~= sv.skip(s + 1));
        let sym = syms[s].as_str();
        if sym.is_empty() || has_pair_key(&pairs, sym) {
            assert(sym@.len() == 0 || has_key(pairs_view(pairs@), sym@));
        } else {
            let ghost before = pairs_view(pairs@);
            let p = match find_last_instrument(instruments, sym) {
                Some(t) => pair_of_instrument(sym, &instruments[t]),
                None => (owned(sym), owned("yahoo"), owned(sym)),
            };
            pairs.push(p);
            assert(pairs_view(pairs@) =~= before.push(pair_for(sym@, iv)));
        }
        s += 1;
    }
    assert(sv.skip(ns as int).len() == 0);
    pairs
}

/// Every instrument after the AU9999 provider migration.
pub open spec fn au9999_migrated_all(ins: Seq<InstrumentView>) -> Seq<InstrumentView> {
    ins.map_values(|v: InstrumentView| migrated_au9999(v))
}

/// Plans a market refresh. The watchlist is first migrated to the AU9999
/// provider settings (the caller saves it when it changed); then the plan
/// holds one fetch pair (cache key, provider, provider symbol) for each
/// active watchlist instrument, then one for every other symbol that the
/// enabled assets, the risk settings, the FX settings, the watchlist or the
/// held assets ask for. A symbol with a watchlist entry is fetched from that
/// entry's provider; any other from Yahoo. Empty symbols and keys already
/// planned are skipped. `held_asset_ids` are the ids of the holdings with
/// units.
pub fn plan_market_refresh(
    assets: &[AssetConfig],
    risk_symbols: &[String],
    fx_symbol: &str,
    instruments: &mut Vec<InstrumentConfig>,
    held_asset_ids: &[String],
) -> (r: Vec<(String, String, String)>)
    ensures
        instruments_view(final(instruments)@) == au9999_migrated_all(instruments_view(old(instruments)@)),
        pairs_view(r@) == refresh_plan(
            assets_view(assets@),
            strings_view(risk_symbols@),
            fx_symbol@,
            au9999_migrated_all(instruments_view(old(instruments)@)),
            strings_view(held_asset_ids@),
        ),
{
    let ghost before = instruments_view(instruments@);
    let n = instruments.len();
    let mut i: usize = 0;
    while i < n
        invariant
            n == instruments@.len(),
            before.len() == n,
            i <= n,
            before == instruments_view(old(instruments)@),
            forall|k: int| 0 <= k < i ==> (#[trigger] instruments@[k])@ == migrated_au9999(before[k]),
            forall|k: int| i <= k < n ==> (#[trigger] instruments@[k])@ == before[k],
        decreases n - i,
    {
        migrate_au9999_provider(&mut instruments[i]);
        i += 1;
    }
    assert(instruments_view(instruments@) =~= au9999_migrated_all(before));
    plan_fetch_pairs(assets, risk_symbols, fx_symbol, instruments.as_slice(), held_asset_ids)
}

/// Extending keeps the pairs already planned in front, and gives every
/// non-empty symbol a key.
proof fn lemma_extend_covers(pairs: Seq<PairView>, syms: Seq<Seq<char>>, ins: Seq<InstrumentView>)
    ensures
        ({
            let e = extend_pairs(pairs, syms, ins);
            &&& pairs.len() <= e.len()
            &&& forall|k: int| 0 <= k < pairs.len() ==> #[trigger] e[k] == pairs[k]
            &&& forall|j: int| 0 <= j < syms.len() && (#[trigger] syms[j]).len() > 0 ==> has_key(e, syms[j])
        }),
    decreases syms.len(),
{
    if syms.len() > 0 {
        let s = syms[0];
        let rest = syms.drop_first();
        let next = if s.len() == 0 || has_key(pairs, s) {
            pairs
        } else {
            pairs.push(pair_for(s, ins))
        };
        lemma_extend_covers(next, rest, ins);
        let e = extend_pairs(pairs, syms, ins);
        assert(e == extend_pairs(next, rest, ins));
        assert forall|j: int| 0 <= j < syms.len() && (#[trigger] syms[j]).len() > 0 implies has_key(e, syms[j]) by {
            if j == 0 {
                if has_key(pairs, s) {
                    let k = choose|k: int| 0 <= k < pairs.len() && (#[trigger] pairs[k]).0 == s;
                    assert(e[k] == pairs[k]);
                } else {
                    let k = pairs.len() as int;
                    assert(next[k] == pair_for(s, ins));
                    assert(e[k] == next[k]);
                    assert(e[k].0 == s);
                }
            } else {
                assert(syms[j] == rest[j - 1]);
            }
        }
        assert forall|k: int| 0 <= k < pairs.len() implies #[trigger] e[k] == pairs[k] by {
            assert(next[k] == pairs[k]);
        }
    }
}

/// The refresh plan starts with the pairs of the active instruments, in
/// watchlist order, and has a pair for every non-empty symbol that the
/// assets, risk and FX settings, watchlist or holdings ask for.
pub proof fn law_refresh_plan_covers_symbols(
    assets: Seq<AssetView>,
    risk: Seq<Seq<char>>,
    fx: Seq<char>,
    ins: Seq<InstrumentView>,
    held: Seq<Seq<char>>,
)
    ensures
        ({
            let plan = refresh_plan(assets, risk, fx, ins, held);
            let syms = refresh_symbols(assets, risk, fx, ins, held);
            &&& instrument_pairs(ins).is_prefix_of(plan)
            &&& forall|j: int| 0 <= j < syms.len() && (#[trigger] syms[j]).len() > 0 ==> has_key(plan, syms[j])
        }),
{
    lemma_extend_covers(instrument_pairs(ins), refresh_symbols(assets, risk, fx, ins, held), ins);
}

} // verus!
