//! The market watchlist: filters, archive and test detection, duplicate
//! detection by provider and symbol, migrations and default restoration.

use vstd::prelude::*;
use crate::model::{
    clone_opt_string, opt_view, strings_view, instruments_view, AssetClass, InstrumentConfig,
    InstrumentView,
};
use crate::clock::{is_date_text, local_now_text};
use crate::text::{
    chars_of, has_substring, lowercase, owned, str_contains, str_eq, str_eq_ignore_ascii_case,
    to_lowercase, to_uppercase, trim, trimmed, uppercase, eq_ignore_ascii_case,
};

verus! {

// ---------------------------------------------------------------------------
// Filters
// ---------------------------------------------------------------------------

/// Which instruments a market list shows.
#[derive(Clone, Copy, Debug, PartialEq, Eq, Structural)]
pub enum MarketListFilter {
    /// Default watchlist: enabled, not archived, not test/demo
    Active,
    All,
    Enabled,
    Disabled,
    Archived,
    Test,
    Duplicate,
}

/// The filter that a query word selects.
pub open spec fn filter_of_query(q: Seq<char>) -> MarketListFilter {
    if q == "all"@ {
        MarketListFilter::All
    } else if q == "enabled"@ || q == "监控中"@ {
        MarketListFilter::Enabled
    } else if q == "disabled"@ || q == "已禁用"@ {
        MarketListFilter::Disabled
    } else if q == "archived"@ || q == "已归档"@ {
        MarketListFilter::Archived
    } else if q == "test"@ || q == "重复/测试"@ || q == "duplicate"@ {
        MarketListFilter::Test
    } else if q == "dup"@ || q == "duplicate_only"@ {
        MarketListFilter::Duplicate
    } else {
        MarketListFilter::Active
    }
}

impl MarketListFilter {
    /// Parses a filter from an optional query word; no word means `active`.
    pub fn from_query(s: Option<&str>) -> (r: Self)
        ensures
            r == filter_of_query(
                match s {
                    Some(q) => q@,
                    None => "active"@,
                },
            ),
    {
        let q: &str = match s {
            Some(q) => q,
            None => "active",
        };
        if str_eq(q, "all") {
            MarketListFilter::All
        } else if str_eq(q, "enabled") || str_eq(q, "监控中") {
            MarketListFilter::Enabled
        } else if str_eq(q, "disabled") || str_eq(q, "已禁用") {
            MarketListFilter::Disabled
        } else if str_eq(q, "archived") || str_eq(q, "已归档") {
            MarketListFilter::Archived
        } else if str_eq(q, "test") || str_eq(q, "重复/测试") || str_eq(q, "duplicate") {
            MarketListFilter::Test
        } else if str_eq(q, "dup") || str_eq(q, "duplicate_only") {
            MarketListFilter::Duplicate
        } else {
            MarketListFilter::Active
        }
    }
}

// ---------------------------------------------------------------------------
// Classification
// ---------------------------------------------------------------------------

/// A provider symbol in canonical form: trimmed and upper-cased.
pub open spec fn normalized_symbol(s: Seq<char>) -> Seq<char> {
    uppercase(trimmed(s))
}

/// Trims and upper-cases a provider symbol.
pub fn normalize_provider_symbol(symbol: &str) -> (r: String)
    ensures
        r@ == normalized_symbol(symbol@),
{
    let t = trim(symbol);
    to_uppercase(t.as_str())
}

/// Some tag of the list equals `word` up to ASCII case.
pub open spec fn has_tag_ignore_ascii_case(tags: Seq<Seq<char>>, word: Seq<char>) -> bool {
    exists|k: int| 0 <= k < tags.len() && eq_ignore_ascii_case(#[trigger] tags[k], word)
}

/// Some tag of the list equals `word` exactly.
pub open spec fn has_tag(tags: Seq<Seq<char>>, word: Seq<char>) -> bool {
    exists|k: int| 0 <= k < tags.len() && #[trigger] tags[k] == word
}

/// The instrument counts as archived: by its flag, by a note that mentions
/// "archived" in any case, or by an `archived` tag in any ASCII case.
pub open spec fn archived_view(v: InstrumentView) -> bool {
    ||| v.archived
    ||| (v.note matches Some(n) && has_substring(lowercase(n), "archived"@))
    ||| has_tag_ignore_ascii_case(v.tags, "archived"@)
}

/// A lower-cased tag that marks test or demo data.
pub open spec fn is_test_tag(t: Seq<char>) -> bool {
    t == "test"@ || t == "demo"@ || t == "测试"@
}

/// The instrument is test or demo data.
pub open spec fn test_view(v: InstrumentView) -> bool {
    let sym = uppercase(trimmed(v.symbol));
    ||| sym == "TEST"@
    ||| "TEST"@.is_prefix_of(sym)
    ||| has_substring(uppercase(v.instrument_id), "TEST"@)
    ||| (v.name_zh matches Some(n) && (has_substring(n, "测试"@) || has_substring(n, "演示"@)
        || has_substring(n, "demo"@)))
    ||| has_substring(lowercase(v.name), "test"@)
    ||| exists|k: int| 0 <= k < v.tags.len() && is_test_tag(lowercase(#[trigger] v.tags[k]))
}

/// The provider and symbol under which an instrument is quoted: the provider
/// trimmed and lower-cased, the provider symbol (or the symbol when that is
/// empty) trimmed and upper-cased.
pub open spec fn key_view(v: InstrumentView) -> (Seq<char>, Seq<char>) {
    (
        lowercase(trimmed(v.provider)),
        normalized_symbol(
            if v.provider_symbol.len() == 0 {
                v.symbol
            } else {
                v.provider_symbol
            },
        ),
    )
}

/// Whether some string of `tags` equals `word` up to ASCII case.
fn any_tag_eq_ignore_ascii_case(tags: &Vec<String>, word: &str) -> (r: bool)
    ensures
        r == has_tag_ignore_ascii_case(strings_view(tags@), word@),
{
    let n = tags.len();
    let mut i: usize = 0;
    while i < n
        invariant
            n == tags.len(),
            i <= n,
            forall|k: int| 0 <= k < i ==> !eq_ignore_ascii_case(#[trigger] tags@[k]@, word@),
        decreases n - i,
    {
        if str_eq_ignore_ascii_case(tags[i].as_str(), word) {
            assert(strings_view(tags@)[i as int] == tags@[i as int]@);
            return true;
        }
        i += 1;
    }
    proof {
        assert forall|k: int| 0 <= k < strings_view(tags@).len() implies !eq_ignore_ascii_case(
            #[trigger] strings_view(tags@)[k],
            word@,
        ) by {
            assert(strings_view(tags@)[k] == tags@[k]@);
        }
    }
    false
}

/// Whether some string of `tags` equals `word` exactly.
fn any_tag_eq(tags: &Vec<String>, word: &str) -> (r: bool)
    ensures
        r == has_tag(strings_view(tags@), word@),
{
    let n = tags.len();
    let mut i: usize = 0;
    while i < n
        invariant
            n == tags.len(),
            i <= n,
            forall|k: int| 0 <= k < i ==> #[trigger] tags@[k]@ != word@,
        decreases n - i,
    {
        if str_eq(tags[i].as_str(), word) {
            assert(strings_view(tags@)[i as int] == tags@[i as int]@);
            return true;
        }
        i += 1;
    }
    proof {
        assert forall|k: int| 0 <= k < strings_view(tags@).len() implies #[trigger] strings_view(
            tags@,
        )[k] != word@ by {
            assert(strings_view(tags@)[k] == tags@[k]@);
        }
    }
    false
}

/// Whether the instrument counts as archived (flag, note or tag).
pub fn is_instrument_archived(inst: &InstrumentConfig) -> (r: bool)
    ensures
        r == archived_view(inst@),
{
    if inst.archived {
        return true;
    }
    match &inst.note {
        Some(n) => {
            let lower = to_lowercase(n.as_str());
            if str_contains(lower.as_str(), "archived") {
                return true;
            }
        },
        None => {},
    }
    any_tag_eq_ignore_ascii_case(&inst.tags, "archived")
}

/// Whether a tag, lower-cased, is `test`, `demo` or `测试`.
fn tag_is_test(t: &String) -> (r: bool)
    ensures
        r == is_test_tag(lowercase(t@)),
{
    let tl = to_lowercase(t.as_str());
    str_eq(tl.as_str(), "test") || str_eq(tl.as_str(), "demo") || str_eq(tl.as_str(), "测试")
}

/// Whether the instrument is test or demo data.
pub fn is_test_instrument(inst: &InstrumentConfig) -> (r: bool)
    ensures
        r == test_view(inst@),
{
    let t = trim(inst.symbol.as_str());
    let sym = to_uppercase(t.as_str());
    let sym_chars = chars_of(sym.as_str());
    let test_chars = chars_of("TEST");
    if str_eq(sym.as_str(), "TEST") || crate::text::chars_start_with(&sym_chars, &test_chars) {
        return true;
    }
    let id_upper = to_uppercase(inst.instrument_id.as_str());
    if str_contains(id_upper.as_str(), "TEST") {
        return true;
    }
    match &inst.name_zh {
        Some(n) => {
            if str_contains(n.as_str(), "测试") || str_contains(n.as_str(), "演示") || str_contains(
                n.as_str(),
                "demo",
            ) {
                return true;
            }
        },
        None => {},
    }
    let name_lower = to_lowercase(inst.name.as_str());
    if str_contains(name_lower.as_str(), "test") {
        return true;
    }
    let n = inst.tags.len();
    let mut i: usize = 0;
    while i < n
        invariant
            n == inst.tags.len(),
            i <= n,
            forall|k: int| 0 <= k < i ==> !is_test_tag(lowercase(#[trigger] inst.tags@[k]@)),
        decreases n - i,
    {
        if tag_is_test(&inst.tags[i]) {
            assert(inst@.tags[i as int] == inst.tags@[i as int]@);
            return true;
        }
        i += 1;
    }
    proof {
        assert forall|k: int| 0 <= k < inst@.tags.len() implies !is_test_tag(
            lowercase(#[trigger] inst@.tags[k]),
        ) by {
            assert(inst@.tags[k] == inst.tags@[k]@);
        }
    }
    false
}

/// The (provider, symbol) pair under which the instrument is quoted.
pub fn provider_symbol_key(inst: &InstrumentConfig) -> (r: (String, String))
    ensures
        (r.0@, r.1@) == key_view(inst@),
{
    let p = trim(inst.provider.as_str());
    let provider = to_lowercase(p.as_str());
    let symbol = if inst.provider_symbol.as_str().is_empty() {
        normalize_provider_symbol(inst.symbol.as_str())
    } else {
        normalize_provider_symbol(inst.provider_symbol.as_str())
    };
    (provider, symbol)
}


// ---------------------------------------------------------------------------
// Duplicates and filtering
// ---------------------------------------------------------------------------

/// `a` sorts strictly before `b` by character codes (the order of `str`).
pub open spec fn seq_lt(a: Seq<char>, b: Seq<char>) -> bool
    decreases a.len(),
{
    if a.len() == 0 {
        b.len() > 0
    } else if b.len() == 0 {
        false
    } else if (a[0] as int) < (b[0] as int) {
        true
    } else if a[0] == b[0] {
        seq_lt(a.drop_first(), b.drop_first())
    } else {
        false
    }
}

proof fn lemma_seq_lt_skip(a: Seq<char>, b: Seq<char>, i: int)
    requires
        0 <= i < a.len(),
        i < b.len(),
        a[i] == b[i],
    ensures
        seq_lt(a.skip(i), b.skip(i)) == seq_lt(a.skip(i + 1), b.skip(i + 1)),
{
    assert(a.skip(i).drop_first() =~= a.skip(i + 1));
    assert(b.skip(i).drop_first() =~= b.skip(i + 1));
}

/// Whether `a` sorts strictly before `b`.
pub fn str_less(a: &str, b: &str) -> (r: bool)
    ensures
        r == seq_lt(a@, b@),
{
    let x = chars_of(a);
    let y = chars_of(b);
    let mut i: usize = 0;
    assert(x@.skip(0) =~= x@);
    assert(y@.skip(0) =~= y@);
    while i < x.len() && i < y.len() && x[i] == y[i]
        invariant
            i <= x.len(),
            i <= y.len(),
            seq_lt(x@, y@) == seq_lt(x@.skip(i as int), y@.skip(i as int)),
        decreases x.len() - i,
    {
        proof {
            lemma_seq_lt_skip(x@, y@, i as int);
        }
        i += 1;
    }
    if i == x.len() {
        i < y.len()
    } else if i == y.len() {
        false
    } else {
        assert(x@.skip(i as int)[0] == x@[i as int]);
        assert(y@.skip(i as int)[0] == y@[i as int]);
        x[i] < y[i]
    }
}

/// Enabled and not archived: the instruments that win a shared provider symbol first.
pub open spec fn eligible(v: InstrumentView) -> bool {
    v.enabled && !archived_view(v)
}

/// The instrument `a` at position `i` comes before `b` at position `j` in the
/// watchlist order: higher priority first, then symbol, then list position.
pub open spec fn ranks_before(a: InstrumentView, i: int, b: InstrumentView, j: int) -> bool {
    ||| a.priority > b.priority
    ||| (a.priority == b.priority && seq_lt(a.symbol, b.symbol))
    ||| (a.priority == b.priority && a.symbol == b.symbol && i < j)
}

/// Among instruments with one key, `s[j]` is preferred to `s[i]`: an eligible
/// instrument beats an ineligible one, otherwise the watchlist order decides.
pub open spec fn outranks(s: Seq<InstrumentView>, j: int, i: int) -> bool {
    ||| (eligible(s[j]) && !eligible(s[i]))
    ||| (eligible(s[j]) == eligible(s[i]) && ranks_before(s[j], j, s[i], i))
}

/// Another instrument with the same provider and symbol is preferred to `s[i]`.
pub open spec fn is_duplicate_at(s: Seq<InstrumentView>, i: int) -> bool {
    exists|j: int|
        0 <= j < s.len() && j != i && #[trigger] key_view(s[j]) == key_view(s[i]) && outranks(
            s,
            j,
            i,
        )
}

/// The ids of the instruments that lose their provider and symbol to another one.
pub open spec fn duplicate_ids(s: Seq<InstrumentView>) -> Set<Seq<char>> {
    Set::new(
        |id: Seq<char>|
            exists|i: int| 0 <= i < s.len() && is_duplicate_at(s, i) && #[trigger] s[i].instrument_id == id,
    )
}

/// Whether `v` holds a string equal to `x`.
fn strings_contain(v: &Vec<String>, x: &str) -> (r: bool)
    ensures
        r == strings_view(v@).contains(x@),
{
    let n = v.len();
    let mut i: usize = 0;
    while i < n
        invariant
            n == v.len(),
            i <= n,
            forall|k: int| 0 <= k < i ==> #[trigger] v@[k]@ != x@,
        decreases n - i,
    {
        if str_eq(v[i].as_str(), x) {
            assert(strings_view(v@)[i as int] == x@);
            return true;
        }
        i += 1;
    }
    proof {
        if strings_view(v@).contains(x@) {
            let k = choose|k: int| 0 <= k < strings_view(v@).len() && strings_view(v@)[k] == x@;
            assert(strings_view(v@)[k] == v@[k]@);
        }
    }
    false
}

/// First enabled non-archived instrument per provider+symbol wins; others are duplicates.
///
/// Order among instruments of one provider+symbol: eligible ones (enabled and
/// not archived) first, then higher priority, then symbol, then list position.
/// The result lists each duplicate id once.
pub fn duplicate_instrument_ids(instruments: &[InstrumentConfig]) -> (r: Vec<String>)
    ensures
        strings_view(r@).to_set() == duplicate_ids(instruments_view(instruments@)),
        strings_view(r@).no_duplicates(),
{
    let ghost s = instruments_view(instruments@);
    let n = instruments.len();
    let mut keys: Vec<(String, String)> = Vec::new();
    let mut elig: Vec<bool> = Vec::new();
    let mut i: usize = 0;
    while i < n
        invariant
            n == instruments@.len(),
            s == instruments_view(instruments@),
            i <= n,
            keys@.len() == i,
            elig@.len() == i,
            forall|k: int| 0 <= k < i ==> (#[trigger] keys@[k]).0@ == key_view(s[k]).0 && keys@[k].1@
                == key_view(s[k]).1,
            forall|k: int| 0 <= k < i ==> #[trigger] elig@[k] == eligible(s[k]),
        decreases n - i,
    {
        let key = provider_symbol_key(&instruments[i]);
        keys.push(key);
        let e = instruments[i].enabled && !is_instrument_archived(&instruments[i]);
        elig.push(e);
        i += 1;
    }
    let mut r: Vec<String> = Vec::new();
    let mut i: usize = 0;
    while i < n
        invariant
            n == instruments@.len(),
            s == instruments_view(instruments@),
            keys@.len() == n,
            elig@.len() == n,
            forall|k: int| 0 <= k < n ==> (#[trigger] keys@[k]).0@ == key_view(s[k]).0 && keys@[k].1@
                == key_view(s[k]).1,
            forall|k: int| 0 <= k < n ==> #[trigger] elig@[k] == eligible(s[k]),
            i <= n,
            strings_view(r@).no_duplicates(),
            forall|id: Seq<char>|
                strings_view(r@).contains(id) <==> exists|k: int|
                    0 <= k < i && is_duplicate_at(s, k) && #[trigger] s[k].instrument_id == id,
        decreases n - i,
    {
        let mut found = false;
        let mut j: usize = 0;
        while j < n
            invariant
                n == instruments@.len(),
                s == instruments_view(instruments@),
                keys@.len() == n,
                elig@.len() == n,
                forall|k: int| 0 <= k < n ==> (#[trigger] keys@[k]).0@ == key_view(s[k]).0
                    && keys@[k].1@ == key_view(s[k]).1,
                forall|k: int| 0 <= k < n ==> #[trigger] elig@[k] == eligible(s[k]),
                i < n,
                j <= n,
                found == exists|q: int|
                    0 <= q < j && q != i && #[trigger] key_view(s[q]) == key_view(s[i as int])
                        && outranks(s, q, i as int),
            decreases n - j,
        {
            if j != i && str_eq(keys[j].0.as_str(), keys[i].0.as_str()) && str_eq(
                keys[j].1.as_str(),
                keys[i].1.as_str(),
            ) {
                let ej = elig[j];
                let ei = elig[i];
                let pj = instruments[j].priority;
                let pi = instruments[i].priority;
                let before = pj > pi || (pj == pi && str_less(
                    instruments[j].symbol.as_str(),
                    instruments[i].symbol.as_str(),
                )) || (pj == pi && str_eq(
                    instruments[j].symbol.as_str(),
                    instruments[i].symbol.as_str(),
                ) && j < i);
                if (ej && !ei) || (ej == ei && before) {
                    found = true;
                }
            }
            proof {
                if j != i && key_view(s[j as int]) == key_view(s[i as int]) {
                    assert(keys@[j as int].0@ == keys@[i as int].0@);
                }
            }
            j += 1;
        }
        assert(found == is_duplicate_at(s, i as int));
        let ghost r0 = strings_view(r@);
        let ghost id_i = s[i as int].instrument_id;
        assert(id_i == instruments@[i as int].instrument_id@);
        if found {
            let id = &instruments[i].instrument_id;
            if !strings_contain(&r, id.as_str()) {
                let ghost old_r = r@;
                r.push(id.clone());
                proof {
                    assert(strings_view(r@) =~= strings_view(old_r).push(id@));
                    assert forall|a: int, b: int|
                        0 <= a < b < strings_view(r@).len() implies strings_view(r@)[a]
                        != strings_view(r@)[b] by {
                        if b == strings_view(r@).len() - 1 {
                            assert(strings_view(old_r)[a] == strings_view(r@)[a]);
                        }
                    }
                }
            }
        }
        proof {
            assert forall|id: Seq<char>|
                strings_view(r@).contains(id) <==> (r0.contains(id) || (found && id == id_i)) by {
                if found && !r0.contains(id_i) {
                    if strings_view(r@).contains(id) {
                        let q = choose|q: int| 0 <= q < strings_view(r@).len() && strings_view(r@)[q] == id;
                        if q < r0.len() {
                            assert(r0[q] == id);
                        }
                    }
                    if r0.contains(id) {
                        let q = choose|q: int| 0 <= q < r0.len() && r0[q] == id;
                        assert(strings_view(r@)[q] == id);
                    }
                    if id == id_i {
                        assert(strings_view(r@)[r0.len() as int] == id);
                    }
                }
            }
            assert forall|id: Seq<char>|
                strings_view(r@).contains(id) <==> exists|k: int|
                    0 <= k < i + 1 && is_duplicate_at(s, k) && #[trigger] s[k].instrument_id
                        == id by {
                if exists|k: int|
                    0 <= k < i + 1 && is_duplicate_at(s, k) && #[trigger] s[k].instrument_id
                        == id {
                    let k = choose|k: int|
                        0 <= k < i + 1 && is_duplicate_at(s, k) && #[trigger] s[k].instrument_id
                            == id;
                    if k < i {
                        assert(r0.contains(id));
                    }
                }
                if strings_view(r@).contains(id) {
                    if r0.contains(id) {
                    } else {
                        assert(s[i as int].instrument_id == id);
                    }
                }
            }
        }
        i += 1;
    }
    proof {
        assert forall|id: Seq<char>| #[trigger]
            strings_view(r@).to_set().contains(id) == duplicate_ids(s).contains(id) by {
            assert(strings_view(r@).to_set().contains(id) == strings_view(r@).contains(id));
        }
        assert(strings_view(r@).to_set() =~= duplicate_ids(s));
    }
    r
}

/// The instrument belongs to the list that `filter` selects.
pub open spec fn filter_matches(
    v: InstrumentView,
    filter: MarketListFilter,
    dups: Seq<Seq<char>>,
) -> bool {
    let archived = archived_view(v);
    let test = test_view(v);
    let dup = dups.contains(v.instrument_id);
    match filter {
        MarketListFilter::Active => v.enabled && !archived && !test,
        MarketListFilter::All => true,
        MarketListFilter::Enabled => v.enabled && !archived,
        MarketListFilter::Disabled => !v.enabled && !archived,
        MarketListFilter::Archived => archived,
        MarketListFilter::Test => test || dup,
        MarketListFilter::Duplicate => dup,
    }
}

/// Whether the instrument belongs to the list that `filter` selects, given
/// the duplicate ids of the watchlist.
pub fn matches_filter(inst: &InstrumentConfig, filter: MarketListFilter, dups: &Vec<String>) -> (r:
    bool)
    ensures
        r == filter_matches(inst@, filter, strings_view(dups@)),
{
    let archived = is_instrument_archived(inst);
    let test = is_test_instrument(inst);
    let dup = strings_contain(dups, inst.instrument_id.as_str());
    match filter {
        MarketListFilter::Active => inst.enabled && !archived && !test,
        MarketListFilter::All => true,
        MarketListFilter::Enabled => inst.enabled && !archived,
        MarketListFilter::Disabled => !inst.enabled && !archived,
        MarketListFilter::Archived => archived,
        MarketListFilter::Test => test || dup,
        MarketListFilter::Duplicate => dup,
    }
}


// ---------------------------------------------------------------------------
// Migrations
// ---------------------------------------------------------------------------

/// AU9999 quoted through Eastmoney as `118.AU9999`, in CNY, as a spot commodity.
pub open spec fn migrated_au9999(v: InstrumentView) -> InstrumentView {
    if !eq_ignore_ascii_case(v.symbol, "AU9999"@) {
        v
    } else {
        let prov = lowercase(trimmed(v.provider));
        let ps = trimmed(v.provider_symbol);
        InstrumentView {
            provider: if prov == "yahoo"@ || prov == "manual"@ || prov.len() == 0 {
                "eastmoney"@
            } else {
                v.provider
            },
            provider_symbol: if ps.len() == 0 || eq_ignore_ascii_case(ps, "AU9999"@)
                || !ps.contains('.') {
                "118.AU9999"@
            } else {
                v.provider_symbol
            },
            display_symbol: if v.display_symbol is None {
                Some("AU9999"@)
            } else {
                v.display_symbol
            },
            currency: "CNY"@,
            asset_class: AssetClass::SpotCommodity,
            ..v
        }
    }
}

/// AU9999 must use Eastmoney (118.AU9999), not Yahoo/manual.
pub fn migrate_au9999_provider(inst: &mut InstrumentConfig)
    ensures
        final(inst)@ == migrated_au9999(old(inst)@),
{
    if !str_eq_ignore_ascii_case(inst.symbol.as_str(), "AU9999") {
        return;
    }
    let p = trim(inst.provider.as_str());
    let prov = to_lowercase(p.as_str());
    if str_eq(prov.as_str(), "yahoo") || str_eq(prov.as_str(), "manual") || prov.as_str().is_empty() {
        inst.provider = owned("eastmoney");
    }
    let ps = trim(inst.provider_symbol.as_str());
    let ps_chars = chars_of(ps.as_str());
    if ps.as_str().is_empty() || str_eq_ignore_ascii_case(ps.as_str(), "AU9999")
        || !crate::text::chars_contain_char(&ps_chars, '.') {
        inst.provider_symbol = owned("118.AU9999");
    }
    if inst.display_symbol.is_none() {
        inst.display_symbol = Some(owned("AU9999"));
    }
    inst.currency = owned("CNY");
    inst.asset_class = AssetClass::SpotCommodity;
}

/// The instrument after the AU9999 migration, with `archived` set when it
/// counts as archived and `enabled` cleared when archived.
pub open spec fn flags_migrated(v: InstrumentView) -> InstrumentView {
    let m = migrated_au9999(v);
    let archived = m.archived || archived_view(m);
    InstrumentView { archived: archived, enabled: m.enabled && !archived, ..m }
}

/// Applies [`flags_migrated`] to one instrument.
fn migrate_one_flags(inst: &mut InstrumentConfig)
    ensures
        final(inst)@ == flags_migrated(old(inst)@),
{
    migrate_au9999_provider(inst);
    if !inst.archived && is_instrument_archived(inst) {
        inst.archived = true;
    }
    if inst.archived {
        inst.enabled = false;
    }
}

/// Migrates every instrument: the AU9999 provider, and archive flags that the
/// note or tags imply.
pub fn migrate_instrument_flags(instruments: &mut Vec<InstrumentConfig>)
    ensures
        final(instruments)@.len() == old(instruments)@.len(),
        forall|k: int|
            0 <= k < old(instruments)@.len() ==> (#[trigger] final(instruments)@[k])@
                == flags_migrated(old(instruments)@[k]@),
{
    let n = instruments.len();
    let mut i: usize = 0;
    while i < n
        invariant
            n == instruments@.len(),
            n == old(instruments)@.len(),
            i <= n,
            forall|k: int|
                0 <= k < i ==> (#[trigger] instruments@[k])@ == flags_migrated(old(instruments)@[k]@),
            forall|k: int| i <= k < n ==> #[trigger] instruments@[k] == old(instruments)@[k],
        decreases n - i,
    {
        migrate_one_flags(&mut instruments[i]);
        i += 1;
    }
}


// ---------------------------------------------------------------------------
// Archive and restore
// ---------------------------------------------------------------------------

/// The note of an instrument, empty when it has none.
pub open spec fn note_text(v: InstrumentView) -> Seq<char> {
    match v.note {
        Some(n) => n,
        None => Seq::empty(),
    }
}

/// The instrument archived on `date`: archived, disabled, tagged `archived`,
/// and its note marked `[archived <date>]` unless it already mentions it.
pub open spec fn archived_on(v: InstrumentView, date: Seq<char>) -> InstrumentView {
    let note = note_text(v);
    InstrumentView {
        archived: true,
        enabled: false,
        tags: if has_tag(v.tags, "archived"@) {
            v.tags
        } else {
            v.tags.push("archived"@)
        },
        note: if !has_substring(lowercase(note), "archived"@) {
            Some(trimmed(note) + " [archived "@ + date + "]"@)
        } else {
            v.note
        },
        ..v
    }
}

/// Appends a copy of `word` to a list of strings.
fn push_string(v: &mut Vec<String>, word: &str)
    ensures
        strings_view(final(v)@) == strings_view(old(v)@).push(word@),
{
    v.push(owned(word));
    assert(strings_view(v@) =~= strings_view(old(v)@).push(word@));
}

/// Archives the instrument with the given date in its note.
pub fn archive_instrument_on(inst: &mut InstrumentConfig, date: &str)
    ensures
        final(inst)@ == archived_on(old(inst)@, date@),
{
    inst.archived = true;
    inst.enabled = false;
    if !any_tag_eq(&inst.tags, "archived") {
        push_string(&mut inst.tags, "archived");
    }
    let note = match &inst.note {
        Some(n) => n.clone(),
        None => String::new(),
    };
    let lower = to_lowercase(note.as_str());
    if !str_contains(lower.as_str(), "archived") {
        let mut s = trim(note.as_str());
        crate::text::push_str(&mut s, " [archived ");
        crate::text::push_str(&mut s, date);
        crate::text::push_str(&mut s, "]");
        inst.note = Some(s);
    }
}

/// Archives the instrument, dated with today's local date.
pub fn archive_instrument(inst: &mut InstrumentConfig)
    ensures
        exists|date: Seq<char>| is_date_text(date) && final(inst)@ == archived_on(old(inst)@, date),
{
    let today = local_now_text("%Y-%m-%d");
    archive_instrument_on(inst, today.as_str());
}

/// The tag is `archived` up to ASCII case.
pub open spec fn is_archived_tag_ci(t: Seq<char>) -> bool {
    eq_ignore_ascii_case(t, "archived"@)
}

/// The tag is exactly `archived`.
pub open spec fn is_archived_tag(t: Seq<char>) -> bool {
    t == "archived"@
}

/// Keeps the tags that are not `archived` in any ASCII case.
pub open spec fn keep_tag_ci() -> spec_fn(Seq<char>) -> bool {
    |t: Seq<char>| !is_archived_tag_ci(t)
}

/// Keeps the tags that are not exactly `archived`.
pub open spec fn keep_tag() -> spec_fn(Seq<char>) -> bool {
    |t: Seq<char>| !is_archived_tag(t)
}

/// The restored instrument: not archived, without `archived` tags (any ASCII
/// case), and `archived` replaced by `restored` in its note.
pub open spec fn restored(v: InstrumentView) -> InstrumentView {
    InstrumentView {
        archived: false,
        tags: v.tags.filter(keep_tag_ci()),
        note: match v.note {
            Some(n) => Some(
                crate::text::replace_all(
                    crate::text::replace_all(n, "[archived"@, "[restored"@),
                    "archived"@,
                    "restored"@,
                ),
            ),
            None => None,
        },
        ..v
    }
}

/// The tags that are not `archived` (up to ASCII case when `ignore_case`).
fn tags_without_archived(tags: &Vec<String>, ignore_case: bool) -> (r: Vec<String>)
    ensures
        ignore_case ==> strings_view(r@) == strings_view(tags@).filter(keep_tag_ci()),
        !ignore_case ==> strings_view(r@) == strings_view(tags@).filter(keep_tag()),
{
    let ghost p_ci = keep_tag_ci();
    let ghost p_ex = keep_tag();
    let ghost sv = strings_view(tags@);
    let mut r: Vec<String> = Vec::new();
    let n = tags.len();
    let mut i: usize = 0;
    assert(sv.take(0) =~= Seq::<Seq<char>>::empty());
    proof {
        reveal(Seq::filter);
    }
    while i < n
        invariant
            n == tags.len(),
            sv == strings_view(tags@),
            p_ci == keep_tag_ci(),
            p_ex == keep_tag(),
            i <= n,
            ignore_case ==> strings_view(r@) == sv.take(i as int).filter(p_ci),
            !ignore_case ==> strings_view(r@) == sv.take(i as int).filter(p_ex),
        decreases n - i,
    {
        let drop = if ignore_case {
            str_eq_ignore_ascii_case(tags[i].as_str(), "archived")
        } else {
            str_eq(tags[i].as_str(), "archived")
        };
        let ghost before = r@;
        if !drop {
            r.push(tags[i].clone());
        }
        proof {
            reveal(Seq::filter);
            let t = sv.take(i + 1);
            assert(t.drop_last() =~= sv.take(i as int));
            assert(t.last() == tags@[i as int]@);
            assert(p_ci(t.last()) == !is_archived_tag_ci(tags@[i as int]@));
            assert(p_ex(t.last()) == !is_archived_tag(tags@[i as int]@));
            if !drop {
                assert(strings_view(r@) =~= strings_view(before).push(tags@[i as int]@));
            } else {
                assert(strings_view(r@) =~= strings_view(before));
            }
        }
        i += 1;
    }
    assert(sv.take(n as int) =~= sv);
    r
}

/// Restores an archived instrument; it stays disabled until enabled separately.
pub fn restore_instrument(inst: &mut InstrumentConfig)
    ensures
        final(inst)@ == restored(old(inst)@),
{
    inst.archived = false;
    inst.tags = tags_without_archived(&inst.tags, true);
    proof {
        reveal_strlit("[archived");
        reveal_strlit("archived");
    }
    let cleaned = match &inst.note {
        Some(n) => {
            let step = crate::text::replace(n.as_str(), "[archived", "[restored");
            Some(crate::text::replace(step.as_str(), "archived", "restored"))
        },
        None => None,
    };
    inst.note = cleaned;
}

// ---------------------------------------------------------------------------
// Test cleanup
// ---------------------------------------------------------------------------

/// A test or demo instrument that is not archived yet.
pub open spec fn cleanup_candidate(v: InstrumentView) -> bool {
    test_view(v) && !archived_view(v)
}

/// The number of cleanup candidates in `s`.
pub open spec fn count_candidates(s: Seq<InstrumentView>) -> nat
    decreases s.len(),
{
    if s.len() == 0 {
        0
    } else {
        count_candidates(s.drop_last()) + if cleanup_candidate(s.last()) {
            1nat
        } else {
            0nat
        }
    }
}

/// Some cleanup candidate of `s` has this id.
pub open spec fn candidate_id(s: Seq<InstrumentView>, id: Seq<char>) -> bool {
    exists|j: int| 0 <= j < s.len() && cleanup_candidate(s[j]) && #[trigger] s[j].instrument_id == id
}

/// An instrument archived on `date` by the test cleanup, tagged `test`.
pub open spec fn cleaned_on(v: InstrumentView, date: Seq<char>) -> InstrumentView {
    let a = archived_on(v, date);
    InstrumentView {
        tags: if has_tag(a.tags, "test"@) {
            a.tags
        } else {
            a.tags.push("test"@)
        },
        ..a
    }
}

/// The list after the test cleanup on `date`: every instrument whose id is
/// the id of a candidate is archived and tagged `test`.
pub open spec fn cleanup_result(s: Seq<InstrumentView>, date: Seq<char>) -> Seq<InstrumentView> {
    Seq::new(
        s.len(),
        |k: int|
            if candidate_id(s, s[k].instrument_id) {
                cleaned_on(s[k], date)
            } else {
                s[k]
            },
    )
}

/// Archives test/demo instruments on `date`. Returns count archived.
pub fn cleanup_test_instruments_on(
    instruments: &mut Vec<InstrumentConfig>,
    preview_only: bool,
    date: &str,
) -> (r: usize)
    ensures
        r == count_candidates(instruments_view(old(instruments)@)),
        preview_only ==> final(instruments)@ == old(instruments)@,
        !preview_only ==> instruments_view(final(instruments)@) == cleanup_result(
            instruments_view(old(instruments)@),
            date@,
        ),
{
    let ghost s = instruments_view(instruments@);
    let n = instruments.len();
    let mut ids: Vec<String> = Vec::new();
    let mut i: usize = 0;
    assert(s.take(0) =~= Seq::<InstrumentView>::empty());
    while i < n
        invariant
            n == instruments@.len(),
            s == instruments_view(instruments@),
            i <= n,
            ids@.len() == count_candidates(s.take(i as int)),
            ids@.len() <= i,
            forall|id: Seq<char>|
                strings_view(ids@).contains(id) <==> candidate_id(s.take(i as int), id),
        decreases n - i,
    {
        let c = is_test_instrument(&instruments[i]) && !is_instrument_archived(&instruments[i]);
        let ghost before = ids@;
        if c {
            ids.push(instruments[i].instrument_id.clone());
        }
        proof {
            let t = s.take(i + 1);
            assert(t.drop_last() =~= s.take(i as int));
            assert(t.last() == s[i as int]);
            assert(s[i as int] == instruments@[i as int]@);
            assert forall|id: Seq<char>|
                strings_view(ids@).contains(id) <==> candidate_id(t, id) by {
                if c {
                    assert(strings_view(ids@) =~= strings_view(before).push(
                        instruments@[i as int].instrument_id@,
                    ));
                    if strings_view(ids@).contains(id) && !strings_view(before).contains(id) {
                        assert(t[i as int].instrument_id == id);
                    }
                    if candidate_id(t, id) {
                        let j = choose|j: int|
                            0 <= j < t.len() && cleanup_candidate(t[j]) && #[trigger] t[j].instrument_id
                                == id;
                        if j < i {
                            assert(s.take(i as int)[j] == t[j]);
                            assert(candidate_id(s.take(i as int), id));
                            assert(strings_view(before).contains(id));
                            let q = choose|q: int|
                                0 <= q < strings_view(before).len() && strings_view(before)[q] == id;
                            assert(strings_view(ids@)[q] == id);
                        } else {
                            assert(strings_view(ids@)[before.len() as int] == id);
                        }
                    }
                    if strings_view(before).contains(id) {
                        let j = choose|j: int|
                            0 <= j < s.take(i as int).len() && cleanup_candidate(s.take(i as int)[j])
                                && #[trigger] s.take(i as int)[j].instrument_id == id;
                        assert(t[j] == s.take(i as int)[j]);
                    }
                } else {
                    assert(strings_view(ids@) =~= strings_view(before));
                    if candidate_id(t, id) {
                        let j = choose|j: int|
                            0 <= j < t.len() && cleanup_candidate(t[j]) && #[trigger] t[j].instrument_id
                                == id;
                        assert(s.take(i as int)[j] == t[j]);
                    }
                    if candidate_id(s.take(i as int), id) {
                        let j = choose|j: int|
                            0 <= j < s.take(i as int).len() && cleanup_candidate(s.take(i as int)[j])
                                && #[trigger] s.take(i as int)[j].instrument_id == id;
                        assert(t[j] == s.take(i as int)[j]);
                    }
                }
            }
        }
        i += 1;
    }
    assert(s.take(n as int) =~= s);
    if preview_only {
        return ids.len();
    }
    let mut k: usize = 0;
    while k < n
        invariant
            n == instruments@.len(),
            s.len() == n,
            k <= n,
            forall|id: Seq<char>| strings_view(ids@).contains(id) <==> candidate_id(s, id),
            forall|q: int|
                0 <= q < k ==> (#[trigger] instruments@[q])@ == cleanup_result(s, date@)[q],
            forall|q: int| k <= q < n ==> (#[trigger] instruments@[q])@ == s[q],
        decreases n - k,
    {
        if strings_contain(&ids, instruments[k].instrument_id.as_str()) {
            archive_instrument_on(&mut instruments[k], date);
            if !any_tag_eq(&instruments[k].tags, "test") {
                push_string(&mut instruments[k].tags, "test");
            }
        }
        k += 1;
    }
    assert(instruments_view(instruments@) =~= cleanup_result(s, date@));
    ids.len()
}

/// Archive test/demo instruments. Returns count archived.
pub fn cleanup_test_instruments(instruments: &mut Vec<InstrumentConfig>, preview_only: bool) -> (r:
    usize)
    ensures
        r == count_candidates(instruments_view(old(instruments)@)),
        preview_only ==> final(instruments)@ == old(instruments)@,
        !preview_only ==> exists|date: Seq<char>|
            is_date_text(date) && instruments_view(final(instruments)@) == cleanup_result(
                instruments_view(old(instruments)@),
                date,
            ),
{
    let today = local_now_text("%Y-%m-%d");
    cleanup_test_instruments_on(instruments, preview_only, today.as_str())
}


// ---------------------------------------------------------------------------
// Default watchlist
// ---------------------------------------------------------------------------

/// The view of a default watchlist entry.
pub open spec fn default_entry_view(
    id: Seq<char>,
    symbol: Seq<char>,
    name: Seq<char>,
    name_zh: Seq<char>,
    category_zh: Seq<char>,
    asset_class: AssetClass,
    provider: Seq<char>,
    provider_symbol: Seq<char>,
    currency: Seq<char>,
) -> InstrumentView {
    InstrumentView {
        instrument_id: id,
        symbol: symbol,
        display_symbol: Some(symbol),
        name: name,
        name_zh: Some(name_zh),
        name_en: Some(name),
        description_zh: None,
        category_zh: Some(category_zh),
        display_label: None,
        asset_class: asset_class,
        provider: provider,
        provider_symbol: provider_symbol,
        market: None,
        exchange: None,
        currency: currency,
        quote_unit: "1"@,
        price_unit: "1"@,
        timezone: None,
        enabled: true,
        archived: false,
        priority: 0,
        tags: Seq::empty(),
        note: None,
    }
}

/// The default watchlist: Nasdaq 100 (QQQ), S&P 500 (SPY) and gold spot (AU9999).
pub open spec fn default_instruments_view() -> Seq<InstrumentView> {
    seq![
        default_entry_view("nasdaq_qqq"@, "QQQ"@, "Invesco QQQ Trust"@, "纳斯达克100 ETF"@, "美国科技"@, AssetClass::Etf, "yahoo"@, "QQQ"@, "USD"@),
        default_entry_view("sp500_spy"@, "SPY"@, "SPDR S&P 500 ETF"@, "标普500 ETF"@, "美国大盘"@, AssetClass::Etf, "yahoo"@, "SPY"@, "USD"@),
        default_entry_view("au9999"@, "AU9999"@, "Gold Spot AU9999"@, "黄金现货 AU9999"@, "黄金"@, AssetClass::SpotCommodity, "eastmoney"@, "118.AU9999"@, "CNY"@),
    ]
}

fn default_entry(
    id: &str,
    symbol: &str,
    name: &str,
    name_zh: &str,
    category_zh: &str,
    asset_class: AssetClass,
    provider: &str,
    provider_symbol: &str,
    currency: &str,
) -> (r: InstrumentConfig)
    ensures
        r@ == default_entry_view(
            id@,
            symbol@,
            name@,
            name_zh@,
            category_zh@,
            asset_class,
            provider@,
            provider_symbol@,
            currency@,
        ),
{
    let r = InstrumentConfig {
        instrument_id: owned(id),
        symbol: owned(symbol),
        display_symbol: Some(owned(symbol)),
        name: owned(name),
        name_zh: Some(owned(name_zh)),
        name_en: Some(owned(name)),
        description_zh: None,
        category_zh: Some(owned(category_zh)),
        display_label: None,
        asset_class: asset_class,
        provider: owned(provider),
        provider_symbol: owned(provider_symbol),
        market: None,
        exchange: None,
        currency: owned(currency),
        quote_unit: owned("1"),
        price_unit: owned("1"),
        timezone: None,
        enabled: true,
        archived: false,
        priority: 0,
        tags: Vec::new(),
        note: None,
    };
    assert(strings_view(r.tags@) =~= Seq::<Seq<char>>::empty());
    r
}

/// The instruments of the default watchlist.
pub fn get_default_instruments() -> (r: Vec<InstrumentConfig>)
    ensures
        instruments_view(r@) == default_instruments_view(),
{
    let mut r: Vec<InstrumentConfig> = Vec::new();
    r.push(default_entry("nasdaq_qqq", "QQQ", "Invesco QQQ Trust", "纳斯达克100 ETF", "美国科技", AssetClass::Etf, "yahoo", "QQQ", "USD"));
    r.push(default_entry("sp500_spy", "SPY", "SPDR S&P 500 ETF", "标普500 ETF", "美国大盘", AssetClass::Etf, "yahoo", "SPY", "USD"));
    r.push(default_entry("au9999", "AU9999", "Gold Spot AU9999", "黄金现货 AU9999", "黄金", AssetClass::SpotCommodity, "eastmoney", "118.AU9999", "CNY"));
    assert(instruments_view(r@) =~= default_instruments_view());
    r
}

/// An existing instrument that stands for the default `d`: same id, same
/// symbol up to ASCII case, or same provider and symbol.
pub open spec fn matches_default(e: InstrumentView, d: InstrumentView) -> bool {
    ||| e.instrument_id == d.instrument_id
    ||| eq_ignore_ascii_case(e.symbol, d.symbol)
    ||| key_view(e) == key_view(d)
}

/// `s[i]` is the first instrument of `s` that stands for `d`.
pub open spec fn is_first_match(s: Seq<InstrumentView>, d: InstrumentView, i: int) -> bool {
    &&& 0 <= i < s.len()
    &&& matches_default(s[i], d)
    &&& forall|j: int| 0 <= j < i ==> !matches_default(#[trigger] s[j], d)
}

/// `e` with the quoting fields of the default `d`, and its missing display
/// symbol, Chinese name and category taken from `d`.
pub open spec fn with_default_fields(e: InstrumentView, d: InstrumentView) -> InstrumentView {
    InstrumentView {
        provider: d.provider,
        provider_symbol: d.provider_symbol,
        currency: d.currency,
        asset_class: d.asset_class,
        display_symbol: if e.display_symbol is None {
            d.display_symbol
        } else {
            e.display_symbol
        },
        name_zh: if e.name_zh is None {
            d.name_zh
        } else {
            e.name_zh
        },
        category_zh: if e.category_zh is None {
            d.category_zh
        } else {
            e.category_zh
        },
        ..e
    }
}

/// A refreshed default entry must be brought back: it is archived, or the
/// default is enabled and it is not.
pub open spec fn needs_reactivation(a: InstrumentView, d: InstrumentView) -> bool {
    archived_view(a) || (!a.enabled && d.enabled)
}

/// The existing entry `e` refreshed from the default `d`.
pub open spec fn refreshed(e: InstrumentView, d: InstrumentView) -> InstrumentView {
    let a = migrated_au9999(with_default_fields(e, d));
    if needs_reactivation(a, d) {
        InstrumentView { archived: false, enabled: d.enabled, tags: a.tags.filter(keep_tag()), ..a }
    } else {
        a
    }
}

/// One default restored into `s`: the list after it, and how many entries
/// were added and reactivated.
pub open spec fn restore_step(s: Seq<InstrumentView>, d: InstrumentView) -> (
    Seq<InstrumentView>,
    nat,
    nat,
) {
    if exists|i: int| is_first_match(s, d, i) {
        let i = choose|i: int| is_first_match(s, d, i);
        (
            s.update(i, refreshed(s[i], d)),
            0,
            if needs_reactivation(migrated_au9999(with_default_fields(s[i], d)), d) {
                1
            } else {
                0
            },
        )
    } else {
        (s.push(d), 1, 0)
    }
}

/// All defaults restored into `s` in order, with the counts of added and
/// reactivated entries.
pub open spec fn restore_defaults(s: Seq<InstrumentView>, defs: Seq<InstrumentView>) -> (
    Seq<InstrumentView>,
    nat,
    nat,
)
    decreases defs.len(),
{
    if defs.len() == 0 {
        (s, 0, 0)
    } else {
        let prev = restore_defaults(s, defs.drop_last());
        let step = restore_step(prev.0, defs.last());
        (step.0, prev.1 + step.1, prev.2 + step.2)
    }
}

/// The watchlist `s` after flag migration, the optional test cleanup on
/// `date`, and the restoration of every default; with the counts of added
/// and reactivated entries.
pub open spec fn restore_outcome(s: Seq<InstrumentView>, also_cleanup_test: bool, date: Seq<char>) -> (
    Seq<InstrumentView>,
    nat,
    nat,
) {
    let migrated = all_flags_migrated(s);
    let pre = if also_cleanup_test {
        cleanup_result(migrated, date)
    } else {
        migrated
    };
    restore_defaults(pre, default_instruments_view())
}

/// Every instrument migrated as [`migrate_instrument_flags`] does.
pub open spec fn all_flags_migrated(s: Seq<InstrumentView>) -> Seq<InstrumentView> {
    Seq::new(s.len(), |k: int| flags_migrated(s[k]))
}

proof fn lemma_first_match_unique(s: Seq<InstrumentView>, d: InstrumentView, i: int)
    requires
        is_first_match(s, d, i),
    ensures
        (choose|j: int| is_first_match(s, d, j)) == i,
{
    let j = choose|j: int| is_first_match(s, d, j);
    assert(is_first_match(s, d, j));
    if j < i {
        assert(!matches_default(s[j], d));
    } else if j > i {
        assert(!matches_default(s[i], d));
    }
}

/// Copies the default fields of `def` onto `existing`.
fn apply_default_fields(existing: &mut InstrumentConfig, def: &InstrumentConfig)
    ensures
        final(existing)@ == with_default_fields(old(existing)@, def@),
{
    existing.provider = def.provider.clone();
    existing.provider_symbol = def.provider_symbol.clone();
    existing.currency = def.currency.clone();
    existing.asset_class = def.asset_class;
    if existing.display_symbol.is_none() {
        existing.display_symbol = clone_opt_string(&def.display_symbol);
    }
    if existing.name_zh.is_none() {
        existing.name_zh = clone_opt_string(&def.name_zh);
    }
    if existing.category_zh.is_none() {
        existing.category_zh = clone_opt_string(&def.category_zh);
    }
}

/// Restores one default into the list; returns (added, reactivated).
fn restore_one_default(instruments: &mut Vec<InstrumentConfig>, def: &InstrumentConfig) -> (r: (
    bool,
    bool,
))
    ensures
        ({
            let step = restore_step(instruments_view(old(instruments)@), def@);
            &&& instruments_view(final(instruments)@) == step.0
            &&& (if r.0 { 1nat } else { 0nat }) == step.1
            &&& (if r.1 { 1nat } else { 0nat }) == step.2
        }),
{
    let ghost s = instruments_view(instruments@);
    let key = provider_symbol_key(def);
    let n = instruments.len();
    let mut i: usize = 0;
    while i < n
        invariant
            n == instruments@.len(),
            s == instruments_view(instruments@),
            instruments@ == old(instruments)@,
            (key.0@, key.1@) == key_view(def@),
            i <= n,
            forall|j: int| 0 <= j < i ==> !matches_default(#[trigger] s[j], def@),
        decreases n - i,
    {
        let k = provider_symbol_key(&instruments[i]);
        let m = str_eq(instruments[i].instrument_id.as_str(), def.instrument_id.as_str())
            || str_eq_ignore_ascii_case(instruments[i].symbol.as_str(), def.symbol.as_str())
            || (str_eq(k.0.as_str(), key.0.as_str()) && str_eq(k.1.as_str(), key.1.as_str()));
        assert(s[i as int] == instruments@[i as int]@);
        if m {
            assert(matches_default(s[i as int], def@));
            assert(is_first_match(s, def@, i as int));
            proof {
                lemma_first_match_unique(s, def@, i as int);
            }
            let ghost a = migrated_au9999(with_default_fields(s[i as int], def@));
            apply_default_fields(&mut instruments[i], def);
            migrate_au9999_provider(&mut instruments[i]);
            let needs = is_instrument_archived(&instruments[i]) || (!instruments[i].enabled
                && def.enabled);
            if needs {
                instruments[i].archived = false;
                instruments[i].enabled = def.enabled;
                let kept = tags_without_archived(&instruments[i].tags, false);
                instruments[i].tags = kept;
            }
            assert(needs == needs_reactivation(a, def@));
            assert(instruments@[i as int]@ == refreshed(s[i as int], def@));
            assert(instruments_view(instruments@) =~= s.update(
                i as int,
                refreshed(s[i as int], def@),
            ));
            assert(restore_step(s, def@).0 == s.update(i as int, refreshed(s[i as int], def@)));
            assert(restore_step(s, def@).1 == 0);
            assert(restore_step(s, def@).2 == if needs { 1nat } else { 0nat });
            return (false, needs);
        }
        i += 1;
    }
    instruments.push(def.clone());
    assert(instruments_view(instruments@) =~= s.push(def@));
    (true, false)
}

/// Idempotent restore of default watchlist instruments on `date` (the date
/// that the optional test cleanup writes). Returns (added, reactivated).
pub fn restore_default_instruments_on(
    instruments: &mut Vec<InstrumentConfig>,
    also_cleanup_test: bool,
    date: &str,
) -> (r: (usize, usize))
    ensures
        ({
            let res = restore_outcome(instruments_view(old(instruments)@), also_cleanup_test, date@);
            &&& instruments_view(final(instruments)@) == res.0
            &&& r.0 as nat == res.1
            &&& r.1 as nat == res.2
        }),
{
    migrate_instrument_flags(instruments);
    assert(instruments_view(instruments@) =~= all_flags_migrated(instruments_view(old(instruments)@)));
    if also_cleanup_test {
        let _ = cleanup_test_instruments_on(instruments, false, date);
    }
    let ghost pre = instruments_view(instruments@);
    let defaults = get_default_instruments();
    let ghost dv = instruments_view(defaults@);
    let mut added: usize = 0;
    let mut reactivated: usize = 0;
    let nd = defaults.len();
    let mut idx: usize = 0;
    assert(dv.take(0) =~= Seq::<InstrumentView>::empty());
    while idx < nd
        invariant
            nd == defaults@.len(),
            dv == instruments_view(defaults@),
            idx <= nd,
            added + reactivated <= idx,
            ({
                let res = restore_defaults(pre, dv.take(idx as int));
                &&& instruments_view(instruments@) == res.0
                &&& added as nat == res.1
                &&& reactivated as nat == res.2
            }),
        decreases nd - idx,
    {
        let step = restore_one_default(instruments, &defaults[idx]);
        if step.0 {
            added += 1;
        }
        if step.1 {
            reactivated += 1;
        }
        proof {
            let t = dv.take(idx + 1);
            assert(t.drop_last() =~= dv.take(idx as int));
            assert(t.last() == defaults@[idx as int]@);
        }
        idx += 1;
    }
    assert(dv.take(nd as int) =~= dv);
    (added, reactivated)
}

/// Idempotent restore of default watchlist instruments.
pub fn restore_default_instruments(
    instruments: &mut Vec<InstrumentConfig>,
    also_cleanup_test: bool,
) -> (r: (usize, usize))
    ensures
        exists|date: Seq<char>|
            is_date_text(date) && {
                let res = #[trigger] restore_outcome(
                    instruments_view(old(instruments)@),
                    also_cleanup_test,
                    date,
                );
                &&& instruments_view(final(instruments)@) == res.0
                &&& r.0 as nat == res.1
                &&& r.1 as nat == res.2
            },
{
    let today = local_now_text("%Y-%m-%d");
    restore_default_instruments_on(instruments, also_cleanup_test, today.as_str())
}


// ---------------------------------------------------------------------------
// Insert or update
// ---------------------------------------------------------------------------

/// `s[i]` is the first instrument of `s` quoted under `key`.
pub open spec fn is_first_with_key(s: Seq<InstrumentView>, key: (Seq<char>, Seq<char>), i: int) -> bool {
    &&& 0 <= i < s.len()
    &&& key_view(s[i]) == key
    &&& forall|j: int| 0 <= j < i ==> #[trigger] key_view(s[j]) != key
}

/// The existing entry `e` updated from the new instrument `n`: enabled, and
/// the non-empty Chinese name (trimmed), provider and currency of `n` taken over.
pub open spec fn upserted(e: InstrumentView, n: InstrumentView) -> InstrumentView {
    InstrumentView {
        enabled: true,
        name_zh: match n.name_zh {
            Some(z) => if trimmed(z).len() > 0 {
                Some(trimmed(z))
            } else {
                e.name_zh
            },
            None => e.name_zh,
        },
        provider: if n.provider.len() > 0 {
            n.provider
        } else {
            e.provider
        },
        currency: if n.currency.len() > 0 {
            n.currency
        } else {
            e.currency
        },
        ..e
    }
}

/// The message of the refusal to insert over an archived entry.
pub open spec fn archived_conflict_message() -> Seq<char> {
    "该 provider+symbol 已存在（已归档），请先在「已归档」中恢复或删除"@
}

proof fn lemma_first_with_key_unique(s: Seq<InstrumentView>, key: (Seq<char>, Seq<char>), i: int)
    requires
        is_first_with_key(s, key, i),
    ensures
        (choose|j: int| is_first_with_key(s, key, j)) == i,
{
    let j = choose|j: int| is_first_with_key(s, key, j);
    assert(is_first_with_key(s, key, j));
    if j < i {
        assert(key_view(s[j]) != key);
    } else if j > i {
        assert(key_view(s[i]) != key);
    }
}

/// Inserts the instrument (not archived), or updates the first entry with the
/// same provider and symbol; refuses when that entry is archived.
pub fn upsert_instrument(instruments: &mut Vec<InstrumentConfig>, new_inst: InstrumentConfig) -> (r:
    Result<(), crate::error::AppError>)
    ensures
        match upsert_result(instruments_view(old(instruments)@), new_inst@) {
            Some(t) => r is Ok && instruments_view(final(instruments)@) == t,
            None => {
                &&& final(instruments)@ == old(instruments)@
                &&& r matches Err(crate::error::AppError::EngineError(m))
                &&& m@ == archived_conflict_message()
            },
        },
{
    let ghost s = instruments_view(instruments@);
    let ghost nv = InstrumentView { archived: false, ..new_inst@ };
    let key = provider_symbol_key(&new_inst);
    let n = instruments.len();
    let mut i: usize = 0;
    while i < n
        invariant
            n == instruments@.len(),
            s == instruments_view(instruments@),
            instruments@ == old(instruments)@,
            nv == (InstrumentView { archived: false, ..new_inst@ }),
            (key.0@, key.1@) == key_view(nv),
            i <= n,
            forall|j: int| 0 <= j < i ==> #[trigger] key_view(s[j]) != key_view(nv),
        decreases n - i,
    {
        let k = provider_symbol_key(&instruments[i]);
        assert(s[i as int] == instruments@[i as int]@);
        if str_eq(k.0.as_str(), key.0.as_str()) && str_eq(k.1.as_str(), key.1.as_str()) {
            assert(is_first_with_key(s, key_view(nv), i as int));
            proof {
                lemma_first_with_key_unique(s, key_view(nv), i as int);
            }
            if is_instrument_archived(&instruments[i]) {
                return Err(
                    crate::error::AppError::EngineError(
                        owned("该 provider+symbol 已存在（已归档），请先在「已归档」中恢复或删除"),
                    ),
                );
            }
            instruments[i].enabled = true;
            match &new_inst.name_zh {
                Some(z) => {
                    let t = trim(z.as_str());
                    if !t.as_str().is_empty() {
                        instruments[i].name_zh = Some(t);
                    }
                },
                None => {},
            }
            if !new_inst.provider.as_str().is_empty() {
                instruments[i].provider = new_inst.provider.clone();
            }
            if !new_inst.currency.as_str().is_empty() {
                instruments[i].currency = new_inst.currency.clone();
            }
            assert(instruments_view(instruments@) =~= s.update(
                i as int,
                upserted(s[i as int], nv),
            ));
            return Ok(());
        }
        i += 1;
    }
    let mut new_inst = new_inst;
    new_inst.archived = false;
    instruments.push(new_inst);
    assert(instruments_view(instruments@) =~= s.push(nv));
    Ok(())
}


// ---------------------------------------------------------------------------
// Laws
// ---------------------------------------------------------------------------

/// The enabled, disabled and archived lists split the watchlist: every
/// instrument is in exactly one of them; the active list is part of the
/// enabled list, and holds no test instrument.
pub proof fn law_list_tabs_partition(v: InstrumentView, dups: Seq<Seq<char>>)
    ensures
        filter_matches(v, MarketListFilter::Enabled, dups) || filter_matches(
            v,
            MarketListFilter::Disabled,
            dups,
        ) || filter_matches(v, MarketListFilter::Archived, dups),
        !(filter_matches(v, MarketListFilter::Enabled, dups) && filter_matches(
            v,
            MarketListFilter::Disabled,
            dups,
        )),
        !(filter_matches(v, MarketListFilter::Enabled, dups) && filter_matches(
            v,
            MarketListFilter::Archived,
            dups,
        )),
        !(filter_matches(v, MarketListFilter::Disabled, dups) && filter_matches(
            v,
            MarketListFilter::Archived,
            dups,
        )),
        filter_matches(v, MarketListFilter::Active, dups) ==> filter_matches(
            v,
            MarketListFilter::Enabled,
            dups,
        ),
        test_view(v) ==> !filter_matches(v, MarketListFilter::Active, dups),
        filter_matches(v, MarketListFilter::All, dups),
{
}

/// An archived instrument leaves the active list and shows in the archived
/// list, whatever date the archive records.
pub proof fn law_archive_hides_from_active(v: InstrumentView, date: Seq<char>, dups: Seq<Seq<char>>)
    ensures
        !filter_matches(archived_on(v, date), MarketListFilter::Active, dups),
        filter_matches(archived_on(v, date), MarketListFilter::Archived, dups),
{
}

/// After a test cleanup no test instrument is left unarchived.
pub proof fn law_cleanup_archives_every_test_instrument(s: Seq<InstrumentView>, date: Seq<char>)
    ensures
        cleanup_result(s, date).len() == s.len(),
        forall|k: int|
            0 <= k < s.len() && #[trigger] test_view(cleanup_result(s, date)[k]) ==> archived_view(
                cleanup_result(s, date)[k],
            ),
{
    assert forall|k: int|
        0 <= k < s.len() && #[trigger] test_view(cleanup_result(s, date)[k]) implies archived_view(
        cleanup_result(s, date)[k],
    ) by {
        if !candidate_id(s, s[k].instrument_id) {
            if cleanup_candidate(s[k]) {
                assert(candidate_id(s, s[k].instrument_id));
            }
        }
    }
}

/// A cleanup preview and a cleanup both count the unarchived test
/// instruments (at most the whole list); the cleanup archives every one of
/// them, and changes no instrument that shares its id with none of them.
pub proof fn law_cleanup_preview_counts_archived(s: Seq<InstrumentView>, date: Seq<char>)
    ensures
        count_candidates(s) <= s.len(),
        forall|k: int|
            0 <= k < s.len() && #[trigger] cleanup_candidate(s[k]) ==> cleanup_result(s, date)[k]
                == cleaned_on(s[k], date) && cleaned_on(s[k], date).archived,
        forall|k: int|
            0 <= k < s.len() && !candidate_id(s, s[k].instrument_id) ==> #[trigger] cleanup_result(s, date)[k] == s[k],
    decreases s.len(),
{
    assert forall|k: int| 0 <= k < s.len() && #[trigger] cleanup_candidate(s[k]) implies cleanup_result(
        s,
        date,
    )[k] == cleaned_on(s[k], date) && cleaned_on(s[k], date).archived by {
        assert(candidate_id(s, s[k].instrument_id));
    }
    if s.len() > 0 {
        law_cleanup_preview_counts_archived(s.drop_last(), date);
    }
}

/// The result of an insert-or-update of `n` into `s`: `None` when it is
/// refused, else the new list.
pub open spec fn upsert_result(s: Seq<InstrumentView>, n: InstrumentView) -> Option<Seq<InstrumentView>> {
    let nv = InstrumentView { archived: false, ..n };
    let key = key_view(nv);
    if exists|i: int| is_first_with_key(s, key, i) {
        let i = choose|i: int| is_first_with_key(s, key, i);
        if archived_view(s[i]) {
            None
        } else {
            Some(s.update(i, upserted(s[i], nv)))
        }
    } else {
        Some(s.push(nv))
    }
}

/// `t` holds an instrument under the provider and symbol of `nv`: an enabled
/// one, or `nv` itself.
pub open spec fn holds_entry_for(t: Seq<InstrumentView>, nv: InstrumentView) -> bool {
    exists|i: int|
        0 <= i < t.len() && #[trigger] key_view(t[i]) == key_view(nv) && (t[i].enabled || t[i] == nv)
}

/// After an insert-or-update that is not refused, the watchlist holds an
/// instrument under the new instrument's provider and symbol: the updated
/// entry, enabled, or the new instrument itself; the list keeps its length or
/// grows by one.
pub proof fn law_upsert_then_present(s: Seq<InstrumentView>, n: InstrumentView)
    ensures
        upsert_result(s, n) is Some ==> holds_entry_for(
            upsert_result(s, n)->0,
            InstrumentView { archived: false, ..n },
        ),
        upsert_result(s, n) is Some ==> upsert_result(s, n)->0.len() == s.len() || upsert_result(
            s,
            n,
        )->0.len() == s.len() + 1,
{
    let nv = InstrumentView { archived: false, ..n };
    let key = key_view(nv);
    if exists|i: int| is_first_with_key(s, key, i) {
        let i = choose|i: int| is_first_with_key(s, key, i);
        if !archived_view(s[i]) {
            let e = s[i];
            let u = upserted(e, nv);
            assert(key_view(e) == key);
            assert(u.provider_symbol == e.provider_symbol && u.symbol == e.symbol);
            assert(key_view(u).1 == key_view(e).1);
            if nv.provider.len() > 0 {
                assert(u.provider == nv.provider);
            } else {
                assert(u.provider == e.provider);
            }
            assert(key_view(u).0 == key.0);
            let t = s.update(i, u);
            assert(t[i] == u);
            assert(key_view(t[i]) == key);
            assert(t[i].enabled);
            assert(upsert_result(s, n) == Some(t));
            assert(t.len() == s.len());
        }
    } else {
        let t = s.push(nv);
        assert(t[s.len() as int] == nv);
        assert(key_view(t[s.len() as int]) == key);
        assert(upsert_result(s, n) == Some(t));
        assert(t.len() == s.len() + 1);
    }
}

/// Restoring the defaults keeps every instrument of `s`, at its position,
/// with its id and symbol; it only appends the defaults it adds.
pub proof fn law_restore_keeps_instruments(s: Seq<InstrumentView>, also_cleanup_test: bool, date: Seq<char>)
    ensures
        ({
            let res = restore_outcome(s, also_cleanup_test, date);
            &&& res.0.len() == s.len() + res.1
            &&& forall|k: int|
                0 <= k < s.len() ==> (#[trigger] res.0[k]).instrument_id == s[k].instrument_id
                    && res.0[k].symbol == s[k].symbol
        }),
{
    let migrated = all_flags_migrated(s);
    let pre = if also_cleanup_test {
        cleanup_result(migrated, date)
    } else {
        migrated
    };
    assert forall|k: int| 0 <= k < s.len() implies (#[trigger] pre[k]).instrument_id == s[k].instrument_id
        && pre[k].symbol == s[k].symbol by {}
    lemma_restore_defaults_keeps(pre, default_instruments_view());
}

proof fn lemma_restore_defaults_keeps(s: Seq<InstrumentView>, defs: Seq<InstrumentView>)
    ensures
        ({
            let res = restore_defaults(s, defs);
            &&& res.0.len() == s.len() + res.1
            &&& forall|k: int|
                0 <= k < s.len() ==> (#[trigger] res.0[k]).instrument_id == s[k].instrument_id
                    && res.0[k].symbol == s[k].symbol
        }),
    decreases defs.len(),
{
    if defs.len() > 0 {
        lemma_restore_defaults_keeps(s, defs.drop_last());
        let prev = restore_defaults(s, defs.drop_last());
        let d = defs.last();
        if exists|i: int| is_first_match(prev.0, d, i) {
            let i = choose|i: int| is_first_match(prev.0, d, i);
            let step = restore_step(prev.0, d);
            assert forall|k: int| 0 <= k < s.len() implies (#[trigger] step.0[k]).instrument_id
                == s[k].instrument_id && step.0[k].symbol == s[k].symbol by {
                if k == i {
                    assert(step.0[k] == refreshed(prev.0[k], d));
                }
            }
        }
    }
}


pub(crate) proof fn lemma_seq_lt_irreflexive(a: Seq<char>)
    ensures
        !seq_lt(a, a),
    decreases a.len(),
{
    if a.len() > 0 {
        lemma_seq_lt_irreflexive(a.drop_first());
    }
}

pub(crate) proof fn lemma_seq_lt_asymmetric(a: Seq<char>, b: Seq<char>)
    ensures
        !(seq_lt(a, b) && seq_lt(b, a)),
    decreases a.len(),
{
    if a.len() > 0 && b.len() > 0 && a[0] == b[0] {
        lemma_seq_lt_asymmetric(a.drop_first(), b.drop_first());
    }
}

pub(crate) proof fn lemma_seq_lt_total(a: Seq<char>, b: Seq<char>)
    ensures
        a == b || seq_lt(a, b) || seq_lt(b, a),
    decreases a.len(),
{
    if a.len() == 0 || b.len() == 0 {
        if a.len() == 0 && b.len() == 0 {
            assert(a =~= b);
        }
    } else if a[0] == b[0] {
        lemma_seq_lt_total(a.drop_first(), b.drop_first());
        if a.drop_first() == b.drop_first() {
            assert(a =~= seq![a[0]] + a.drop_first());
            assert(b =~= seq![b[0]] + b.drop_first());
        }
    } else {
        assert((a[0] as int) != (b[0] as int));
    }
}

pub(crate) proof fn lemma_seq_lt_transitive(a: Seq<char>, b: Seq<char>, c: Seq<char>)
    requires
        seq_lt(a, b),
        seq_lt(b, c),
    ensures
        seq_lt(a, c),
    decreases a.len(),
{
    if a.len() > 0 && b.len() > 0 && c.len() > 0 && a[0] == b[0] && b[0] == c[0] {
        lemma_seq_lt_transitive(a.drop_first(), b.drop_first(), c.drop_first());
    }
}

proof fn lemma_outranks_asymmetric(s: Seq<InstrumentView>, i: int, j: int)
    requires
        i != j,
    ensures
        !(outranks(s, i, j) && outranks(s, j, i)),
{
    lemma_seq_lt_asymmetric(s[i].symbol, s[j].symbol);
    lemma_seq_lt_irreflexive(s[i].symbol);
}

proof fn lemma_outranks_total(s: Seq<InstrumentView>, i: int, j: int)
    requires
        i != j,
    ensures
        outranks(s, i, j) || outranks(s, j, i),
{
    lemma_seq_lt_total(s[i].symbol, s[j].symbol);
}

proof fn lemma_outranks_transitive(s: Seq<InstrumentView>, i: int, j: int, k: int)
    requires
        outranks(s, i, j),
        outranks(s, j, k),
    ensures
        outranks(s, i, k),
{
    if s[i].symbol != s[j].symbol && s[j].symbol != s[k].symbol {
        if seq_lt(s[i].symbol, s[j].symbol) && seq_lt(s[j].symbol, s[k].symbol) {
            lemma_seq_lt_transitive(s[i].symbol, s[j].symbol, s[k].symbol);
        }
    }
}

/// The best instrument quoted under `key` among the first `n`: the one that
/// no other of them outranks; -1 when there is none.
pub open spec fn best_with_key(s: Seq<InstrumentView>, key: (Seq<char>, Seq<char>), n: int) -> int
    decreases n,
{
    if n <= 0 {
        -1
    } else {
        let b = best_with_key(s, key, n - 1);
        if key_view(s[n - 1]) != key {
            b
        } else if b < 0 {
            n - 1
        } else if outranks(s, n - 1, b) {
            n - 1
        } else {
            b
        }
    }
}

proof fn lemma_best_with_key(s: Seq<InstrumentView>, key: (Seq<char>, Seq<char>), n: int)
    requires
        0 <= n <= s.len(),
    ensures
        ({
            let b = best_with_key(s, key, n);
            &&& b < n
            &&& b >= 0 ==> key_view(s[b]) == key
            &&& b < 0 ==> forall|j: int| 0 <= j < n ==> #[trigger] key_view(s[j]) != key
            &&& b >= 0 ==> forall|j: int|
                0 <= j < n && j != b && #[trigger] key_view(s[j]) == key ==> !outranks(s, j, b)
        }),
    decreases n,
{
    if n > 0 {
        lemma_best_with_key(s, key, n - 1);
        let b = best_with_key(s, key, n - 1);
        let m = n - 1;
        if key_view(s[m]) == key && b >= 0 && outranks(s, m, b) {
            assert forall|j: int|
                0 <= j < n && j != m && #[trigger] key_view(s[j]) == key implies !outranks(s, j, m) by {
                if outranks(s, j, m) {
                    if j == b {
                        lemma_outranks_asymmetric(s, j, m);
                    } else {
                        lemma_outranks_transitive(s, j, m, b);
                    }
                }
            }
        } else if key_view(s[m]) == key && b >= 0 {
            assert forall|j: int|
                0 <= j < n && j != b && #[trigger] key_view(s[j]) == key implies !outranks(s, j, b) by {
                if j == m {
                    lemma_outranks_total(s, m, b);
                }
            }
        }
    }
}

/// Among the instruments quoted under one provider and symbol, exactly one is
/// not a duplicate: some member wins, and of any two members one is a duplicate.
pub proof fn law_one_winner_per_key(s: Seq<InstrumentView>, i: int)
    requires
        0 <= i < s.len(),
    ensures
        exists|w: int|
            0 <= w < s.len() && #[trigger] key_view(s[w]) == key_view(s[i]) && !is_duplicate_at(s, w),
        forall|a: int, b: int|
            0 <= a < s.len() && 0 <= b < s.len() && a != b && #[trigger] key_view(s[a]) == key_view(s[i])
                && #[trigger] key_view(s[b]) == key_view(s[i]) ==> is_duplicate_at(s, a)
                || is_duplicate_at(s, b),
{
    let key = key_view(s[i]);
    lemma_best_with_key(s, key, s.len() as int);
    let w = best_with_key(s, key, s.len() as int);
    assert(w >= 0);
    if is_duplicate_at(s, w) {
        let j = choose|j: int|
            0 <= j < s.len() && j != w && #[trigger] key_view(s[j]) == key_view(s[w]) && outranks(s, j, w);
        assert(!outranks(s, j, w));
    }
    assert(key_view(s[w]) == key_view(s[i]));
    assert forall|a: int, b: int|
        0 <= a < s.len() && 0 <= b < s.len() && a != b && #[trigger] key_view(s[a]) == key_view(s[i])
            && #[trigger] key_view(s[b]) == key_view(s[i]) implies is_duplicate_at(s, a)
        || is_duplicate_at(s, b) by {
        lemma_outranks_total(s, a, b);
    }
}

/// `s` holds an entry equal to `d`.
pub open spec fn holds_entry(s: Seq<InstrumentView>, d: InstrumentView) -> bool {
    exists|i: int| 0 <= i < s.len() && #[trigger] s[i] == d
}

/// Every default is in the watchlist, and every entry that stands for a
/// default is that default, untouched.
pub open spec fn holds_defaults_untouched(s: Seq<InstrumentView>) -> bool {
    let defs = default_instruments_view();
    &&& forall|k: int, i: int|
        0 <= k < defs.len() && 0 <= i < s.len() && #[trigger] matches_default(s[i], defs[k]) ==> s[i] == defs[k]
    &&& forall|k: int| 0 <= k < defs.len() ==> #[trigger] holds_entry(s, defs[k])
}

/// The watchlist holds no test instrument that a cleanup would archive.
pub open spec fn no_cleanup_candidates(s: Seq<InstrumentView>) -> bool {
    forall|i: int| 0 <= i < s.len() ==> !cleanup_candidate(#[trigger] s[i])
}

proof fn lemma_default_fixed(k: int)
    requires
        0 <= k < default_instruments_view().len(),
    ensures
        ({
            let d = default_instruments_view()[k];
            &&& migrated_au9999(d) == d
            &&& flags_migrated(d) == d
            &&& with_default_fields(d, d) == d
            &&& refreshed(d, d) == d
            &&& !needs_reactivation(migrated_au9999(with_default_fields(d, d)), d)
        }),
{
    let d = default_instruments_view()[k];
    reveal_strlit("QQQ");
    reveal_strlit("SPY");
    reveal_strlit("AU9999");
    assert(!has_tag_ignore_ascii_case(d.tags, "archived"@));
    assert(!archived_view(d));
    if k < 2 {
        assert(!eq_ignore_ascii_case(d.symbol, "AU9999"@));
    }
    assert(migrated_au9999(d) == d);
    assert(with_default_fields(d, d) == d);
}

proof fn lemma_migrated_idempotent(v: InstrumentView)
    ensures
        migrated_au9999(migrated_au9999(v)) == migrated_au9999(v),
{
}

proof fn lemma_flags_migrated_idempotent(v: InstrumentView)
    ensures
        flags_migrated(flags_migrated(v)) == flags_migrated(v),
        test_view(flags_migrated(v)) == test_view(v),
        archived_view(v) ==> archived_view(flags_migrated(v)),
        !eq_ignore_ascii_case(v.symbol, "AU9999"@) ==> ({
            let f = flags_migrated(v);
            &&& f.instrument_id == v.instrument_id
            &&& f.symbol == v.symbol
            &&& f.provider == v.provider
            &&& f.provider_symbol == v.provider_symbol
        }),
{
    let m = migrated_au9999(v);
    let f = flags_migrated(v);
    lemma_migrated_idempotent(v);
    assert(migrated_au9999(f) == f);
    assert(archived_view(m) == archived_view(v));
    assert(test_view(f) == test_view(v));
}

proof fn lemma_first_match_exists(s: Seq<InstrumentView>, d: InstrumentView, i: int)
    requires
        0 <= i < s.len(),
        matches_default(s[i], d),
    ensures
        exists|j: int| is_first_match(s, d, j),
    decreases i,
{
    if exists|j: int| 0 <= j < i && matches_default(#[trigger] s[j], d) {
        let j = choose|j: int| 0 <= j < i && matches_default(#[trigger] s[j], d);
        lemma_first_match_exists(s, d, j);
    } else {
        assert(is_first_match(s, d, i));
    }
}

proof fn lemma_restore_untouched(s: Seq<InstrumentView>, n: int)
    requires
        holds_defaults_untouched(s),
        0 <= n <= default_instruments_view().len(),
    ensures
        restore_defaults(s, default_instruments_view().take(n)) == (s, 0nat, 0nat),
    decreases n,
{
    let dv = default_instruments_view();
    let defs = dv.take(n);
    if n > 0 {
        assert(defs.drop_last() =~= dv.take(n - 1));
        lemma_restore_untouched(s, n - 1);
        let d = defs.last();
        assert(d == dv[n - 1]);
        assert(holds_entry(s, dv[n - 1]));
        let i = choose|i: int| 0 <= i < s.len() && #[trigger] s[i] == dv[n - 1];
        assert(matches_default(s[i], d));
        lemma_first_match_exists(s, d, i);
        let j = choose|j: int| is_first_match(s, d, j);
        assert(matches_default(s[j], dv[n - 1]));
        assert(s[j] == d);
        lemma_default_fixed(n - 1);
        assert(s.update(j, refreshed(s[j], d)) =~= s);
    } else {
        assert(defs.len() == 0);
    }
}

proof fn lemma_untouched_after_migration(s: Seq<InstrumentView>)
    requires
        holds_defaults_untouched(s),
        no_cleanup_candidates(s),
    ensures
        holds_defaults_untouched(all_flags_migrated(s)),
        no_cleanup_candidates(all_flags_migrated(s)),
        all_flags_migrated(all_flags_migrated(s)) == all_flags_migrated(s),
{
    let dv = default_instruments_view();
    let t = all_flags_migrated(s);
    reveal_strlit("AU9999");
    assert forall|k: int, i: int|
        0 <= k < dv.len() && 0 <= i < t.len() && #[trigger] matches_default(t[i], dv[k]) implies t[i] == dv[k] by {
        lemma_flags_migrated_idempotent(s[i]);
        if eq_ignore_ascii_case(s[i].symbol, "AU9999"@) {
            assert(matches_default(s[i], dv[2]));
            assert(s[i] == dv[2]);
            lemma_default_fixed(2);
            assert(t[i] == dv[2]);
            assert(matches_default(s[i], dv[k]));
        } else {
            assert(matches_default(s[i], dv[k]));
            lemma_default_fixed(k);
        }
    }
    assert forall|k: int| 0 <= k < dv.len() implies #[trigger] holds_entry(t, dv[k]) by {
        assert(holds_entry(s, dv[k]));
        let i = choose|i: int| 0 <= i < s.len() && #[trigger] s[i] == dv[k];
        lemma_default_fixed(k);
        assert(t[i] == dv[k]);
    }
    assert forall|i: int| 0 <= i < t.len() implies !cleanup_candidate(#[trigger] t[i]) by {
        assert(!cleanup_candidate(s[i]));
        lemma_flags_migrated_idempotent(s[i]);
    }
    assert forall|i: int| 0 <= i < t.len() implies #[trigger] all_flags_migrated(t)[i] == t[i] by {
        lemma_flags_migrated_idempotent(s[i]);
    }
    assert(all_flags_migrated(t) =~= t);
}

proof fn lemma_cleanup_without_candidates(s: Seq<InstrumentView>, date: Seq<char>)
    requires
        no_cleanup_candidates(s),
    ensures
        cleanup_result(s, date) == s,
{
    assert forall|k: int| 0 <= k < s.len() implies #[trigger] cleanup_result(s, date)[k] == s[k] by {
        if candidate_id(s, s[k].instrument_id) {
            let j = choose|j: int|
                0 <= j < s.len() && cleanup_candidate(s[j]) && #[trigger] s[j].instrument_id == s[k].instrument_id;
            assert(!cleanup_candidate(s[j]));
        }
    }
    assert(cleanup_result(s, date) =~= s);
}

/// Restoring a watchlist that already holds every default untouched (each
/// entry standing for a default is that default) and no test instrument that
/// a cleanup would archive adds nothing and reactivates nothing: it only
/// migrates the flags. Restoring the result again, with or without cleanup,
/// on any date, gives the same watchlist.
pub proof fn law_restore_is_idempotent_on_settled_watchlists(
    s: Seq<InstrumentView>,
    also_cleanup_test: bool,
    date: Seq<char>,
    again_cleanup_test: bool,
    again_date: Seq<char>,
)
    requires
        holds_defaults_untouched(s),
        no_cleanup_candidates(s),
    ensures
        restore_outcome(s, also_cleanup_test, date) == (all_flags_migrated(s), 0nat, 0nat),
        restore_outcome(restore_outcome(s, also_cleanup_test, date).0, again_cleanup_test, again_date) == (
            all_flags_migrated(s),
            0nat,
            0nat,
        ),
{
    let dv = default_instruments_view();
    let t = all_flags_migrated(s);
    lemma_untouched_after_migration(s);
    lemma_cleanup_without_candidates(t, date);
    lemma_cleanup_without_candidates(t, again_date);
    assert(dv.take(3) =~= dv);
    lemma_restore_untouched(t, 3);
}

proof fn lemma_filter_keeps_all(t: Seq<Seq<char>>, p: spec_fn(Seq<char>) -> bool)
    requires
        forall|k: int| 0 <= k < t.len() ==> p(#[trigger] t[k]),
    ensures
        t.filter(p) == t,
    decreases t.len(),
{
    if t.len() > 0 {
        let init = t.drop_last();
        lemma_filter_keeps_all(init, p);
        assert(init.push(t.last()) =~= t);
        init.lemma_filter_push(t.last(), p);
    }
}

proof fn lemma_no_substring_without_first_char(hay: Seq<char>, needle: Seq<char>)
    requires
        needle.len() > 0,
        forall|i: int| 0 <= i < hay.len() ==> hay[i] != needle[0],
    ensures
        !has_substring(hay, needle),
{
    if has_substring(hay, needle) {
        let i = choose|i: int|
            0 <= i && i + needle.len() <= hay.len() && #[trigger] hay.subrange(i, i + needle.len()) == needle;
        assert(hay.subrange(i, i + needle.len())[0] == hay[i]);
    }
}

/// The note that archiving writes on a date, once restored, names the date as
/// restored and holds no `archived`.
proof fn lemma_restored_archive_note(date: Seq<char>)
    requires
        forall|i: int| 0 <= i < date.len() ==> #[trigger] date[i] != '[' && date[i] != 'a',
    ensures
        crate::text::replace_all(
            crate::text::replace_all(" [archived "@ + date + "]"@, "[archived"@, "[restored"@),
            "archived"@,
            "restored"@,
        ) == " [restored "@ + date + "]"@,
        !has_substring(" [restored "@ + date + "]"@, "archived"@),
{
    reveal_strlit("archived");
    reveal_strlit(" [archived ");
    reveal_strlit(" [restored ");
    reveal_strlit("[archived");
    reveal_strlit("[restored");
    reveal_strlit("restored");
    reveal_strlit("]");
    let from = "[archived"@;
    let to = "[restored"@;
    let tail = seq![' '] + date + "]"@;
    assert forall|i: int| 0 <= i < tail.len() implies tail[i] != from[0] by {
        if 1 <= i < 1 + date.len() {
            assert(tail[i] == date[i - 1]);
        }
    }
    crate::text::lemma_replace_all_absent(tail, from, to);
    let body = from + tail;
    assert(from.is_prefix_of(body));
    assert(body.skip(9) =~= tail);
    assert(crate::text::replace_all(body, from, to) == to + crate::text::replace_all(body.skip(9), from, to));
    let written = " [archived "@ + date + "]"@;
    assert(written =~= seq![' '] + body);
    assert(written.drop_first() =~= body);
    assert(written[0] == ' ');
    assert(!from.is_prefix_of(written)) by {
        if from.is_prefix_of(written) {
            assert(written[0] == from[0]);
        }
    }
    assert(crate::text::replace_all(written, from, to) == seq![written[0]] + crate::text::replace_all(written.drop_first(), from, to));
    let first = crate::text::replace_all(written, from, to);
    assert(first =~= " [restored "@ + date + "]"@);
    assert forall|i: int| 0 <= i < first.len() implies first[i] != "archived"@[0] by {
        if 11 <= i < 11 + date.len() {
            assert(first[i] == date[i - 11]);
        }
    }
    crate::text::lemma_replace_all_absent(first, "archived"@, "restored"@);
    lemma_no_substring_without_first_char(first, "archived"@);
}

/// Archiving an instrument that has no note and no `archived` tag (in any
/// case) on a date, then restoring it, clears its archive flag, leaves it
/// disabled (a restore does not enable), gives back its tags and every other
/// field, and leaves the note ` [restored <date>]`: the instrument no longer
/// counts as archived.
pub proof fn law_archive_then_restore(v: InstrumentView, date: Seq<char>)
    requires
        v.note is None,
        forall|k: int| 0 <= k < v.tags.len() ==> !is_archived_tag_ci(#[trigger] v.tags[k]),
        is_date_text(date),
    ensures
        ({
            let r = restored(archived_on(v, date));
            &&& !r.archived
            &&& !r.enabled
            &&& r.tags == v.tags
            &&& r.note == Some(" [restored "@ + date + "]"@)
            &&& !has_substring(" [restored "@ + date + "]"@, "archived"@)
            &&& !archived_view(r)
            &&& r == InstrumentView { archived: false, enabled: false, note: r.note, ..v }
        }),
{
    reveal_strlit("archived");
    reveal_strlit(" [restored ");
    reveal_strlit("]");
    let a = archived_on(v, date);
    assert(!has_tag(v.tags, "archived"@)) by {
        if has_tag(v.tags, "archived"@) {
            let k = choose|k: int| 0 <= k < v.tags.len() && #[trigger] v.tags[k] == "archived"@;
            assert(is_archived_tag_ci(v.tags[k]));
        }
    }
    assert(a.tags == v.tags.push("archived"@));
    assert(is_archived_tag_ci("archived"@));
    v.tags.lemma_filter_push("archived"@, keep_tag_ci());
    lemma_filter_keeps_all(v.tags, keep_tag_ci());
    let d = choose|d: crate::dca::CalendarDate| crate::dca::valid_date(d) && date == #[trigger] crate::clock::date_text(d);
    crate::clock::lemma_date_text_chars(d);
    assert forall|i: int| 0 <= i < date.len() implies #[trigger] date[i] != '[' && date[i] != 'a' by {
        assert(date[i] == crate::clock::date_text(d)[i]);
    }
    lemma_restored_archive_note(date);
    let empty = Seq::<char>::empty();
    assert(trimmed(empty) =~= empty);
    crate::text::lemma_lowercase_plain(empty);
    assert(!has_substring(empty, "archived"@));
    assert(empty + " [archived "@ + date + "]"@ =~= " [archived "@ + date + "]"@);
    let n = " [restored "@ + date + "]"@;
    assert forall|i: int| 0 <= i < n.len() implies (#[trigger] n[i] as u32) < 128 && !('A' <= n[i] <= 'Z') by {
        if 11 <= i < 11 + date.len() {
            assert(n[i] == date[i - 11]);
            assert(date[i - 11] == crate::clock::date_text(d)[i - 11]);
        }
    }
    crate::text::lemma_lowercase_plain(n);
    let r = restored(a);
    assert(!has_tag_ignore_ascii_case(r.tags, "archived"@)) by {
        if has_tag_ignore_ascii_case(r.tags, "archived"@) {
            let k = choose|k: int| 0 <= k < r.tags.len() && eq_ignore_ascii_case(#[trigger] r.tags[k], "archived"@);
            assert(is_archived_tag_ci(v.tags[k]));
        }
    }
}

/// Migrating an instrument to the AU9999 provider settings a second time
/// changes nothing.
pub proof fn law_au9999_migration_is_idempotent(v: InstrumentView)
    ensures
        migrated_au9999(migrated_au9999(v)) == migrated_au9999(v),
{
    let m = migrated_au9999(v);
    if eq_ignore_ascii_case(v.symbol, "AU9999"@) {
        reveal_strlit("118.AU9999");
        reveal_strlit("AU9999");
        let t = "118.AU9999"@;
        assert(!crate::text::is_white_space(t[0]));
        assert(!crate::text::is_white_space(t.last()));
        assert(crate::text::trim_front(t) == t);
        assert(crate::text::trim_back(t) == t);
        assert(trimmed(t) == t);
        assert(t[3] == '.');
        assert(t.contains('.'));
        assert(!eq_ignore_ascii_case(t, "AU9999"@));
        assert(migrated_au9999(m) =~= m);
    }
}

/// Migrating the flags of an instrument a second time changes nothing.
pub proof fn law_flag_migration_is_idempotent(v: InstrumentView)
    ensures
        flags_migrated(flags_migrated(v)) == flags_migrated(v),
{
    let f = flags_migrated(v);
    let m = migrated_au9999(v);
    law_au9999_migration_is_idempotent(v);
    assert(migrated_au9999(f) == InstrumentView { archived: f.archived, enabled: f.enabled, ..migrated_au9999(m) }) by {
        if eq_ignore_ascii_case(v.symbol, "AU9999"@) {
            assert(migrated_au9999(f) =~= InstrumentView { archived: f.archived, enabled: f.enabled, ..migrated_au9999(m) });
        }
    }
    assert(archived_view(migrated_au9999(f)) == archived_view(m));
    assert(flags_migrated(f) =~= f);
}

/// The keys of the defaults: Yahoo `QQQ`, Yahoo `SPY`, Eastmoney `118.AU9999`.
proof fn lemma_default_keys()
    ensures
        key_view(default_instruments_view()[0]) == ("yahoo"@, "QQQ"@),
        key_view(default_instruments_view()[1]) == ("yahoo"@, "SPY"@),
        key_view(default_instruments_view()[2]) == ("eastmoney"@, "118.AU9999"@),
{
    reveal_strlit("yahoo");
    reveal_strlit("eastmoney");
    reveal_strlit("QQQ");
    reveal_strlit("SPY");
    reveal_strlit("118.AU9999");
    let texts = seq!["yahoo"@, "eastmoney"@, "QQQ"@, "SPY"@, "118.AU9999"@];
    assert forall|k: int| 0 <= k < 5 implies trimmed(#[trigger] texts[k]) == texts[k] by {
        crate::text::lemma_trimmed_plain(texts[k]);
    }
    assert(trimmed("yahoo"@) == "yahoo"@);
    assert(trimmed("eastmoney"@) == "eastmoney"@);
    assert(trimmed("QQQ"@) == "QQQ"@);
    assert(trimmed("SPY"@) == "SPY"@);
    assert(trimmed("118.AU9999"@) == "118.AU9999"@);
    crate::text::lemma_lowercase_plain("yahoo"@);
    crate::text::lemma_lowercase_plain("eastmoney"@);
    crate::text::lemma_uppercase_plain("QQQ"@);
    crate::text::lemma_uppercase_plain("SPY"@);
    crate::text::lemma_uppercase_plain("118.AU9999"@);
}

/// No default stands for another default.
proof fn lemma_defaults_distinct(j: int, k: int)
    requires
        0 <= j < 3,
        0 <= k < 3,
    ensures
        matches_default(default_instruments_view()[j], default_instruments_view()[k]) == (j == k),
{
    let dv = default_instruments_view();
    lemma_default_keys();
    reveal_strlit("nasdaq_qqq");
    reveal_strlit("sp500_spy");
    reveal_strlit("au9999");
    reveal_strlit("QQQ");
    reveal_strlit("SPY");
    reveal_strlit("AU9999");
    reveal_strlit("yahoo");
    reveal_strlit("eastmoney");
    reveal_strlit("118.AU9999");
    if j != k {
        assert(dv[j].instrument_id[0] != dv[k].instrument_id[0] || dv[j].instrument_id.len() != dv[k].instrument_id.len());
        assert(dv[j].instrument_id != dv[k].instrument_id);
        if dv[j].symbol.len() == dv[k].symbol.len() {
            assert(crate::text::ascii_fold(dv[j].symbol[0]) != crate::text::ascii_fold(dv[k].symbol[0]));
        }
        assert(!eq_ignore_ascii_case(dv[j].symbol, dv[k].symbol));
        assert(key_view(dv[j]).1[0] != key_view(dv[k]).1[0] || key_view(dv[j]).1.len() != key_view(dv[k]).1.len());
        assert(key_view(dv[j]) != key_view(dv[k]));
    } else {
        assert(dv[j].instrument_id == dv[k].instrument_id);
    }
}

/// `x` stands for the `j`-th default and for no other.
pub open spec fn stands_only_for(x: InstrumentView, j: int) -> bool {
    forall|q: int| 0 <= q < 3 ==> #[trigger] matches_default(x, default_instruments_view()[q]) == (q == j)
}

/// An entry that stands only for one default still stands only for it once
/// refreshed from it, and keeps its id and symbol.
proof fn lemma_refreshed_stands_only_for(x: InstrumentView, j: int)
    requires
        0 <= j < 3,
        stands_only_for(x, j),
    ensures
        stands_only_for(refreshed(x, default_instruments_view()[j]), j),
        refreshed(x, default_instruments_view()[j]).instrument_id == x.instrument_id,
        refreshed(x, default_instruments_view()[j]).symbol == x.symbol,
{
    let dv = default_instruments_view();
    let d = dv[j];
    let w = with_default_fields(x, d);
    let a = migrated_au9999(w);
    let r = refreshed(x, d);
    reveal_strlit("AU9999");
    reveal_strlit("118.AU9999");
    if eq_ignore_ascii_case(x.symbol, "AU9999"@) {
        assert(matches_default(x, dv[2]));
        assert(j == 2);
        let t = "118.AU9999"@;
        crate::text::lemma_trimmed_plain(t);
        assert(t[3] == '.');
        assert(t.contains('.'));
        assert(!eq_ignore_ascii_case(t, "AU9999"@));
        assert(a.provider == d.provider);
        assert(a.provider_symbol == d.provider_symbol);
    } else {
        assert(a == w);
    }
    reveal_strlit("QQQ");
    reveal_strlit("SPY");
    assert(r.provider == d.provider);
    assert(r.provider_symbol == d.provider_symbol);
    assert(d.provider_symbol.len() > 0);
    assert(key_view(r) == key_view(d));
    assert forall|q: int| 0 <= q < 3 implies #[trigger] matches_default(r, dv[q]) == (q == j) by {
        lemma_defaults_distinct(j, q);
        assert(matches_default(x, dv[q]) == (q == j));
    }
}

/// The instrument carries no archive mark in its note (in any case) or in
/// its tags (in any ASCII case).
pub open spec fn no_archive_marks(v: InstrumentView) -> bool {
    &&& !(v.note matches Some(n) && has_substring(lowercase(n), "archived"@))
    &&& !has_tag_ignore_ascii_case(v.tags, "archived"@)
}

/// An entry refreshed from the only default it stands for, with no archive
/// mark left, is settled: refreshing it again changes nothing and
/// reactivates nothing, and so does migrating its flags.
proof fn lemma_refreshed_settled(x: InstrumentView, j: int)
    requires
        0 <= j < 3,
        stands_only_for(x, j),
        no_archive_marks(refreshed(x, default_instruments_view()[j])),
    ensures
        ({
            let d = default_instruments_view()[j];
            let r = refreshed(x, d);
            &&& refreshed(r, d) == r
            &&& !needs_reactivation(migrated_au9999(with_default_fields(r, d)), d)
            &&& flags_migrated(r) == r
        }),
{
    let dv = default_instruments_view();
    let d = dv[j];
    let w = with_default_fields(x, d);
    let a = migrated_au9999(w);
    let r = refreshed(x, d);
    reveal_strlit("AU9999");
    reveal_strlit("118.AU9999");
    let t = "118.AU9999"@;
    crate::text::lemma_trimmed_plain(t);
    assert(t[3] == '.');
    assert(t.contains('.'));
    assert(!eq_ignore_ascii_case(t, "AU9999"@));
    if eq_ignore_ascii_case(x.symbol, "AU9999"@) {
        assert(matches_default(x, dv[2]));
        assert(j == 2);
    } else {
        assert(a == w);
    }
    assert(!archived_view(r));
    assert(r.enabled);
    assert(with_default_fields(r, d) == r);
    assert(migrated_au9999(r) == r);
    assert(flags_migrated(r) == r);
}

/// No entry stands for two defaults.
pub open spec fn no_shared_entry(l: Seq<InstrumentView>) -> bool {
    forall|i: int, q1: int, q2: int|
        0 <= i < l.len() && 0 <= q1 < q2 < 3 ==> !(#[trigger] matches_default(l[i], default_instruments_view()[q1])
            && #[trigger] matches_default(l[i], default_instruments_view()[q2]))
}

/// Entry `i` of `l` is entry `i` of `m`, or that entry refreshed from the
/// only default it stands for, or (past the end of `m`) a default; the
/// defaults involved are among the first `done`.
pub open spec fn entry_from(m: Seq<InstrumentView>, l: Seq<InstrumentView>, done: int, i: int) -> bool {
    if i < m.len() {
        ||| l[i] == m[i]
        ||| exists|j: int|
            0 <= j < done && stands_only_for(m[i], j) && l[i] == refreshed(m[i], #[trigger] default_instruments_view()[j])
    } else {
        exists|j: int| 0 <= j < done && l[i] == #[trigger] default_instruments_view()[j]
    }
}

/// Every entry of `l` comes from `m` as [`entry_from`] says.
pub open spec fn entries_from(m: Seq<InstrumentView>, l: Seq<InstrumentView>, done: int) -> bool {
    &&& m.len() <= l.len()
    &&& forall|i: int| 0 <= i < l.len() ==> #[trigger] entry_from(m, l, done, i)
}

/// The default `k` is represented in `l` at its first match `p`: by itself,
/// or by the entry of `m` that stands only for it, refreshed.
pub open spec fn represented_at(m: Seq<InstrumentView>, l: Seq<InstrumentView>, k: int, p: int) -> bool {
    let d = default_instruments_view()[k];
    &&& is_first_match(l, d, p)
    &&& (l[p] == d || (p < m.len() && stands_only_for(m[p], k) && l[p] == refreshed(m[p], d)))
}

proof fn lemma_entry_stands(m: Seq<InstrumentView>, l: Seq<InstrumentView>, done: int, i: int)
    requires
        no_shared_entry(m),
        entries_from(m, l, done),
        done <= 3,
        0 <= i < l.len(),
    ensures
        forall|q1: int, q2: int|
            0 <= q1 < q2 < 3 ==> !(#[trigger] matches_default(l[i], default_instruments_view()[q1])
                && #[trigger] matches_default(l[i], default_instruments_view()[q2])),
{
    let dv = default_instruments_view();
    assert(entry_from(m, l, done, i));
    if i < m.len() {
        if l[i] != m[i] {
            let j = choose|j: int|
                0 <= j < done && stands_only_for(m[i], j) && l[i] == refreshed(m[i], #[trigger] dv[j]);
            lemma_refreshed_stands_only_for(m[i], j);
        }
    } else {
        let j = choose|j: int| 0 <= j < done && l[i] == #[trigger] dv[j];
        assert forall|q: int| 0 <= q < 3 implies #[trigger] matches_default(l[i], dv[q]) == (q == j) by {
            lemma_defaults_distinct(j, q);
        }
    }
}

/// One restore step of the default `k` over a list whose entries come from
/// `m` and the first `k` defaults, where no entry of `m` stands for two
/// defaults.
proof fn lemma_restore_step_from(m: Seq<InstrumentView>, l: Seq<InstrumentView>, k: int)
    requires
        no_shared_entry(m),
        entries_from(m, l, k),
        0 <= k < 3,
    ensures
        ({
            let dv = default_instruments_view();
            let n = restore_step(l, dv[k]).0;
            &&& entries_from(m, n, k + 1)
            &&& l.len() <= n.len()
            &&& forall|i: int, q: int|
                0 <= i < l.len() && 0 <= q < 3 ==> #[trigger] matches_default(n[i], dv[q]) == matches_default(l[i], dv[q])
            &&& forall|i: int| 0 <= i < l.len() && !matches_default(l[i], dv[k]) ==> #[trigger] n[i] == l[i]
            &&& forall|i: int| l.len() <= i < n.len() ==> #[trigger] n[i] == dv[k]
            &&& exists|p: int| represented_at(m, n, k, p)
        }),
{
    let dv = default_instruments_view();
    let d = dv[k];
    let n = restore_step(l, d).0;
    if exists|i: int| is_first_match(l, d, i) {
        let i = choose|i: int| is_first_match(l, d, i);
        assert(n == l.update(i, refreshed(l[i], d)));
        lemma_entry_stands(m, l, k, i);
        assert(stands_only_for(l[i], k));
        // The entry is an untouched entry of `m`: the defaults handled so far
        // are not `k`, and an entry they touched stands only for them.
        assert(entry_from(m, l, k, i));
        if i >= m.len() {
            let j = choose|j: int| 0 <= j < k && l[i] == #[trigger] dv[j];
            lemma_defaults_distinct(j, k);
            assert(false);
        } else if l[i] != m[i] {
            let j = choose|j: int|
                0 <= j < k && stands_only_for(m[i], j) && l[i] == refreshed(m[i], #[trigger] dv[j]);
            lemma_refreshed_stands_only_for(m[i], j);
            assert(false);
        }
        lemma_refreshed_stands_only_for(l[i], k);
        assert forall|x: int, q: int|
            0 <= x < l.len() && 0 <= q < 3 implies #[trigger] matches_default(n[x], dv[q]) == matches_default(l[x], dv[q]) by {
            if x == i {
                assert(matches_default(l[x], dv[q]) == (q == k));
            }
        }
        assert forall|x: int| 0 <= x < n.len() implies #[trigger] entry_from(m, n, k + 1, x) by {
            assert(entry_from(m, l, k, x));
            if x == i {
                assert(stands_only_for(m[i], k));
                assert(n[x] == refreshed(m[i], dv[k]));
            }
        }
        assert(represented_at(m, n, k, i));
    } else {
        assert(n == l.push(d));
        let p = l.len() as int;
        lemma_default_fixed(k);
        assert forall|q: int| 0 <= q < 3 implies #[trigger] matches_default(n[p], dv[q]) == (q == k) by {
            lemma_defaults_distinct(k, q);
        }
        assert forall|x: int| 0 <= x < p implies !matches_default(#[trigger] n[x], d) by {
            if matches_default(n[x], d) {
                assert(n[x] == l[x]);
                lemma_first_match_exists(l, d, x);
            }
        }
        assert(is_first_match(n, d, p));
        assert forall|x: int| 0 <= x < n.len() implies #[trigger] entry_from(m, n, k + 1, x) by {
            if x < p {
                assert(entry_from(m, l, k, x));
            } else {
                assert(n[x] == dv[k]);
            }
        }
        assert(represented_at(m, n, k, p));
    }
}

/// A later restore step keeps where an earlier default is represented.
proof fn lemma_represented_kept(m: Seq<InstrumentView>, l: Seq<InstrumentView>, k: int, j: int, p: int)
    requires
        no_shared_entry(m),
        entries_from(m, l, k),
        0 <= j < k < 3,
        represented_at(m, l, j, p),
    ensures
        represented_at(m, restore_step(l, default_instruments_view()[k]).0, j, p),
{
    let dv = default_instruments_view();
    let n = restore_step(l, dv[k]).0;
    lemma_restore_step_from(m, l, k);
    lemma_entry_stands(m, l, k, p);
    assert(matches_default(l[p], dv[j]));
    assert(!matches_default(l[p], dv[k]));
    assert(n[p] == l[p]);
    assert forall|x: int| 0 <= x < p implies !matches_default(#[trigger] n[x], dv[j]) by {
        assert(matches_default(n[x], dv[j]) == matches_default(l[x], dv[j]));
    }
    assert(matches_default(n[p], dv[j]));
}

/// Restoring the three defaults is three steps, one per default, in order.
proof fn lemma_restore_defaults_three(x: Seq<InstrumentView>)
    ensures
        ({
            let dv = default_instruments_view();
            let r1 = restore_step(x, dv[0]);
            let r2 = restore_step(r1.0, dv[1]);
            let r3 = restore_step(r2.0, dv[2]);
            restore_defaults(x, dv) == (r3.0, r1.1 + r2.1 + r3.1, r1.2 + r2.2 + r3.2)
        }),
{
    let dv = default_instruments_view();
    let r1 = restore_step(x, dv[0]);
    let r2 = restore_step(r1.0, dv[1]);
    let r3 = restore_step(r2.0, dv[2]);
    assert(dv.drop_last() =~= dv.take(2));
    assert(dv.take(2).drop_last() =~= dv.take(1));
    assert(dv.take(1).drop_last() =~= dv.take(0));
    assert(restore_defaults(x, dv.take(0)) == (x, 0nat, 0nat));
    assert(dv.take(1).last() == dv[0]);
    assert(dv.take(2).last() == dv[1]);
    assert(dv.last() == dv[2]);
    assert(restore_defaults(x, dv.take(1)) == (r1.0, r1.1, r1.2));
    assert(restore_defaults(x, dv.take(2)) == (r2.0, r1.1 + r2.1, r1.2 + r2.2));
    assert(restore_defaults(x, dv) == (r3.0, r1.1 + r2.1 + r3.1, r1.2 + r2.2 + r3.2));
}

/// A default represented by a settled entry is restored without change.
proof fn lemma_step_settled(m: Seq<InstrumentView>, t: Seq<InstrumentView>, k: int, p: int)
    requires
        0 <= k < 3,
        represented_at(m, t, k, p),
        no_archive_marks(t[p]),
    ensures
        restore_step(t, default_instruments_view()[k]) == (t, 0nat, 0nat),
{
    let dv = default_instruments_view();
    let d = dv[k];
    lemma_first_match_unique(t, d, p);
    if t[p] == d {
        lemma_default_fixed(k);
    } else {
        lemma_refreshed_settled(m[p], k);
    }
    assert(t.update(p, refreshed(t[p], d)) =~= t);
}

/// Restoring the defaults a second time, without cleanup, changes nothing
/// and adds and reactivates nothing, on any date: provided no entry of the
/// migrated watchlist stands for two defaults (same id, symbol or provider
/// and symbol as both), and no entry of the first restore's result carries
/// an archive mark in its note or tags.
pub proof fn law_restore_twice_changes_nothing(s: Seq<InstrumentView>, date: Seq<char>, again_date: Seq<char>)
    requires
        no_shared_entry(all_flags_migrated(s)),
        forall|i: int|
            0 <= i < restore_outcome(s, false, date).0.len() ==> no_archive_marks(
                #[trigger] restore_outcome(s, false, date).0[i],
            ),
    ensures
        restore_outcome(restore_outcome(s, false, date).0, false, again_date) == (
            restore_outcome(s, false, date).0,
            0nat,
            0nat,
        ),
{
    let dv = default_instruments_view();
    let m = all_flags_migrated(s);
    assert forall|i: int| 0 <= i < m.len() implies #[trigger] entry_from(m, m, 0, i) by {}
    let l1 = restore_step(m, dv[0]).0;
    lemma_restore_step_from(m, m, 0);
    let p0 = choose|p: int| represented_at(m, l1, 0, p);
    let l2 = restore_step(l1, dv[1]).0;
    lemma_restore_step_from(m, l1, 1);
    let p1 = choose|p: int| represented_at(m, l2, 1, p);
    lemma_represented_kept(m, l1, 1, 0, p0);
    let t = restore_step(l2, dv[2]).0;
    lemma_restore_step_from(m, l2, 2);
    let p2 = choose|p: int| represented_at(m, t, 2, p);
    lemma_represented_kept(m, l2, 2, 0, p0);
    lemma_represented_kept(m, l2, 2, 1, p1);
    lemma_restore_defaults_three(m);
    assert(restore_outcome(s, false, date).0 == t);
    // Migrating the flags of the result changes nothing.
    assert forall|i: int| 0 <= i < t.len() implies #[trigger] all_flags_migrated(t)[i] == t[i] by {
        assert(entry_from(m, t, 3, i));
        assert(no_archive_marks(t[i]));
        if i < m.len() {
            if t[i] == m[i] {
                lemma_flags_migrated_idempotent(s[i]);
            } else {
                let j = choose|j: int|
                    0 <= j < 3 && stands_only_for(m[i], j) && t[i] == refreshed(m[i], #[trigger] dv[j]);
                lemma_refreshed_settled(m[i], j);
            }
        } else {
            let j = choose|j: int| 0 <= j < 3 && t[i] == #[trigger] dv[j];
            lemma_default_fixed(j);
        }
    }
    assert(all_flags_migrated(t) =~= t);
    // Each default is represented by a settled entry.
    lemma_step_settled(m, t, 0, p0);
    lemma_step_settled(m, t, 1, p1);
    lemma_step_settled(m, t, 2, p2);
    lemma_restore_defaults_three(t);
}


/// The duplicate/test list holds every test instrument and every instrument
/// whose id is in the duplicate list, and nothing else; the duplicate list
/// holds exactly the latter, so every duplicate is also on the
/// duplicate/test list. The archived list holds exactly the archived
/// instruments.
pub proof fn law_duplicates_are_listed_with_tests(v: InstrumentView, dups: Seq<Seq<char>>)
    ensures
        filter_matches(v, MarketListFilter::Duplicate, dups) ==> filter_matches(v, MarketListFilter::Test, dups),
        filter_matches(v, MarketListFilter::Test, dups) == (test_view(v) || dups.contains(v.instrument_id)),
        filter_matches(v, MarketListFilter::Duplicate, dups) == dups.contains(v.instrument_id),
        filter_matches(v, MarketListFilter::Archived, dups) == archived_view(v),
{
}


/// The active list holds the enabled instruments that are neither archived
/// nor test data; the enabled list the enabled ones not archived; the
/// disabled list the disabled ones not archived; the full list every
/// instrument.
pub proof fn law_list_filters_select(v: InstrumentView, dups: Seq<Seq<char>>)
    ensures
        filter_matches(v, MarketListFilter::Active, dups) == (v.enabled && !archived_view(v) && !test_view(v)),
        filter_matches(v, MarketListFilter::Enabled, dups) == (v.enabled && !archived_view(v)),
        filter_matches(v, MarketListFilter::Disabled, dups) == (!v.enabled && !archived_view(v)),
        filter_matches(v, MarketListFilter::All, dups),
{
}

/// The query words `test`, `重复/测试` and `duplicate` select the
/// duplicate/test list, and no other word does; `dup` and `duplicate_only`
/// select the duplicate list, and no other word does; the word `active`
/// selects the active list.
pub proof fn law_query_words_select_lists(q: Seq<char>)
    ensures
        (filter_of_query(q) == MarketListFilter::Test) <==> (q == "test"@ || q == "重复/测试"@ || q == "duplicate"@),
        (filter_of_query(q) == MarketListFilter::Duplicate) <==> (q == "dup"@ || q == "duplicate_only"@),
        filter_of_query("active"@) == MarketListFilter::Active,
{
    reveal_strlit("all");
    reveal_strlit("enabled");
    reveal_strlit("监控中");
    reveal_strlit("disabled");
    reveal_strlit("已禁用");
    reveal_strlit("archived");
    reveal_strlit("已归档");
    reveal_strlit("test");
    reveal_strlit("重复/测试");
    reveal_strlit("duplicate");
    reveal_strlit("dup");
    reveal_strlit("duplicate_only");
    reveal_strlit("active");
    let words = seq![
        "all"@, "enabled"@, "监控中"@, "disabled"@, "已禁用"@, "archived"@, "已归档"@, "test"@, "重复/测试"@,
        "duplicate"@, "dup"@, "duplicate_only"@, "active"@,
    ];
    assert forall|a: int, b: int| 0 <= a < b < words.len() implies #[trigger] words[a] != #[trigger] words[b] by {
        if words[a].len() == words[b].len() {
            assert(words[a][0] != words[b][0] || words[a][1] != words[b][1] || words[a][2] != words[b][2]);
        }
    }
    assert("all"@ != "test"@ && "all"@ != "重复/测试"@ && "all"@ != "duplicate"@);
    assert(words[0] != words[7] && words[0] != words[8] && words[0] != words[9] && words[0] != words[10] && words[0] != words[11] && words[0] != words[12]);
    assert(words[1] != words[7] && words[1] != words[8] && words[1] != words[9] && words[1] != words[10] && words[1] != words[11] && words[1] != words[12]);
    assert(words[2] != words[7] && words[2] != words[8] && words[2] != words[9] && words[2] != words[10] && words[2] != words[11] && words[2] != words[12]);
    assert(words[3] != words[7] && words[3] != words[8] && words[3] != words[9] && words[3] != words[10] && words[3] != words[11] && words[3] != words[12]);
    assert(words[4] != words[7] && words[4] != words[8] && words[4] != words[9] && words[4] != words[10] && words[4] != words[11] && words[4] != words[12]);
    assert(words[5] != words[7] && words[5] != words[8] && words[5] != words[9] && words[5] != words[10] && words[5] != words[11] && words[5] != words[12]);
    assert(words[6] != words[7] && words[6] != words[8] && words[6] != words[9] && words[6] != words[10] && words[6] != words[11] && words[6] != words[12]);
    assert(words[7] != words[10] && words[7] != words[11] && words[7] != words[12]);
    assert(words[8] != words[10] && words[8] != words[11] && words[8] != words[12]);
    assert(words[9] != words[10] && words[9] != words[11] && words[9] != words[12]);
}

} // verus!
