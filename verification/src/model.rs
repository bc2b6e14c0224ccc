//! Configuration records shared by the engine: watched instruments and
//! portfolio assets, with their mathematical views.

use vstd::prelude::*;

verus! {

/// The character sequence of an optional string.
pub open spec fn opt_view(o: Option<String>) -> Option<Seq<char>> {
    match o {
        Some(s) => Some(s@),
        None => None,
    }
}

/// The character sequences of a list of strings.
pub open spec fn strings_view(v: Seq<String>) -> Seq<Seq<char>> {
    v.map_values(|s: String| s@)
}

/// A copy of an optional string.
pub fn clone_opt_string(o: &Option<String>) -> (r: Option<String>)
    ensures
        opt_view(r) == opt_view(*o),
{
    match o {
        Some(s) => Some(s.clone()),
        None => None,
    }
}

/// A copy of a list of strings.
pub fn clone_strings(v: &Vec<String>) -> (r: Vec<String>)
    ensures
        strings_view(r@) == strings_view(v@),
{
    let mut r: Vec<String> = Vec::new();
    let n = v.len();
    let mut i: usize = 0;
    while i < n
        invariant
            n == v.len(),
            i <= n,
            r@.len() == i,
            forall|k: int| 0 <= k < i ==> r@[k]@ == v@[k]@,
        decreases n - i,
    {
        r.push(v[i].clone());
        i += 1;
    }
    assert(strings_view(r@) =~= strings_view(v@));
    r
}

/// The kind of market instrument.
#[derive(Clone, Copy, Debug, PartialEq, Eq, Structural)]
pub enum AssetClass {
    Etf,
    Fund,
    Index,
    Futures,
    SpotCommodity,
    Fx,
    Rate,
    Crypto,
    Custom,
}

/// One instrument of the market watchlist.
#[derive(Debug)]
pub struct InstrumentConfig {
    pub instrument_id: String,
    pub symbol: String,
    pub display_symbol: Option<String>,
    pub name: String,
    pub name_zh: Option<String>,
    pub name_en: Option<String>,
    pub description_zh: Option<String>,
    pub category_zh: Option<String>,
    pub display_label: Option<String>,
    pub asset_class: AssetClass,
    pub provider: String,
    pub provider_symbol: String,
    pub market: Option<String>,
    pub exchange: Option<String>,
    pub currency: String,
    pub quote_unit: String,
    pub price_unit: String,
    pub timezone: Option<String>,
    pub enabled: bool,
    pub archived: bool,
    pub priority: i32,
    pub tags: Vec<String>,
    pub note: Option<String>,
}

/// The mathematical value of an [`InstrumentConfig`]: every string as its characters.
pub struct InstrumentView {
    pub instrument_id: Seq<char>,
    pub symbol: Seq<char>,
    pub display_symbol: Option<Seq<char>>,
    pub name: Seq<char>,
    pub name_zh: Option<Seq<char>>,
    pub name_en: Option<Seq<char>>,
    pub description_zh: Option<Seq<char>>,
    pub category_zh: Option<Seq<char>>,
    pub display_label: Option<Seq<char>>,
    pub asset_class: AssetClass,
    pub provider: Seq<char>,
    pub provider_symbol: Seq<char>,
    pub market: Option<Seq<char>>,
    pub exchange: Option<Seq<char>>,
    pub currency: Seq<char>,
    pub quote_unit: Seq<char>,
    pub price_unit: Seq<char>,
    pub timezone: Option<Seq<char>>,
    pub enabled: bool,
    pub archived: bool,
    pub priority: i32,
    pub tags: Seq<Seq<char>>,
    pub note: Option<Seq<char>>,
}

impl View for InstrumentConfig {
    type V = InstrumentView;

    open spec fn view(&self) -> InstrumentView {
        InstrumentView {
            instrument_id: self.instrument_id@,
            symbol: self.symbol@,
            display_symbol: opt_view(self.display_symbol),
            name: self.name@,
            name_zh: opt_view(self.name_zh),
            name_en: opt_view(self.name_en),
            description_zh: opt_view(self.description_zh),
            category_zh: opt_view(self.category_zh),
            display_label: opt_view(self.display_label),
            asset_class: self.asset_class,
            provider: self.provider@,
            provider_symbol: self.provider_symbol@,
            market: opt_view(self.market),
            exchange: opt_view(self.exchange),
            currency: self.currency@,
            quote_unit: self.quote_unit@,
            price_unit: self.price_unit@,
            timezone: opt_view(self.timezone),
            enabled: self.enabled,
            archived: self.archived,
            priority: self.priority,
            tags: strings_view(self.tags@),
            note: opt_view(self.note),
        }
    }
}

/// The views of a list of instruments.
pub open spec fn instruments_view(v: Seq<InstrumentConfig>) -> Seq<InstrumentView> {
    v.map_values(|i: InstrumentConfig| i@)
}

impl Clone for InstrumentConfig {
    fn clone(&self) -> (r: Self)
        ensures
            r@ == self@,
    {
        InstrumentConfig {
            instrument_id: self.instrument_id.clone(),
            symbol: self.symbol.clone(),
            display_symbol: clone_opt_string(&self.display_symbol),
            name: self.name.clone(),
            name_zh: clone_opt_string(&self.name_zh),
            name_en: clone_opt_string(&self.name_en),
            description_zh: clone_opt_string(&self.description_zh),
            category_zh: clone_opt_string(&self.category_zh),
            display_label: clone_opt_string(&self.display_label),
            asset_class: self.asset_class,
            provider: self.provider.clone(),
            provider_symbol: self.provider_symbol.clone(),
            market: clone_opt_string(&self.market),
            exchange: clone_opt_string(&self.exchange),
            currency: self.currency.clone(),
            quote_unit: self.quote_unit.clone(),
            price_unit: self.price_unit.clone(),
            timezone: clone_opt_string(&self.timezone),
            enabled: self.enabled,
            archived: self.archived,
            priority: self.priority,
            tags: clone_strings(&self.tags),
            note: clone_opt_string(&self.note),
        }
    }
}

/// One fund asset of the portfolio configuration.
#[derive(Debug)]
pub struct AssetConfig {
    pub asset_id: String,
    pub fund_code: String,
    pub fund_name: String,
    pub sector: String,
    pub currency: String,
    pub valuation_method: String,
    pub enabled: bool,
    pub reference_index_name: Option<String>,
    pub reference_index_symbol: Option<String>,
    pub market_data_provider: Option<String>,
    pub reference_index_currency: Option<String>,
    pub proxy_fx_pair: Option<String>,
    pub use_fx_adjustment: Option<bool>,
    pub reference_instrument_id: Option<String>,
    pub reference_instrument_symbol: Option<String>,
}

/// The mathematical value of an [`AssetConfig`].
pub struct AssetView {
    pub asset_id: Seq<char>,
    pub fund_code: Seq<char>,
    pub fund_name: Seq<char>,
    pub sector: Seq<char>,
    pub currency: Seq<char>,
    pub valuation_method: Seq<char>,
    pub enabled: bool,
    pub reference_index_name: Option<Seq<char>>,
    pub reference_index_symbol: Option<Seq<char>>,
    pub market_data_provider: Option<Seq<char>>,
    pub reference_index_currency: Option<Seq<char>>,
    pub proxy_fx_pair: Option<Seq<char>>,
    pub use_fx_adjustment: Option<bool>,
    pub reference_instrument_id: Option<Seq<char>>,
    pub reference_instrument_symbol: Option<Seq<char>>,
}

impl View for AssetConfig {
    type V = AssetView;

    open spec fn view(&self) -> AssetView {
        AssetView {
            asset_id: self.asset_id@,
            fund_code: self.fund_code@,
            fund_name: self.fund_name@,
            sector: self.sector@,
            currency: self.currency@,
            valuation_method: self.valuation_method@,
            enabled: self.enabled,
            reference_index_name: opt_view(self.reference_index_name),
            reference_index_symbol: opt_view(self.reference_index_symbol),
            market_data_provider: opt_view(self.market_data_provider),
            reference_index_currency: opt_view(self.reference_index_currency),
            proxy_fx_pair: opt_view(self.proxy_fx_pair),
            use_fx_adjustment: self.use_fx_adjustment,
            reference_instrument_id: opt_view(self.reference_instrument_id),
            reference_instrument_symbol: opt_view(self.reference_instrument_symbol),
        }
    }
}

/// The views of a list of assets.
pub open spec fn assets_view(v: Seq<AssetConfig>) -> Seq<AssetView> {
    v.map_values(|a: AssetConfig| a@)
}

impl Default for AssetConfig {
    fn default() -> (r: Self)
        ensures
            r@ == (AssetView {
                asset_id: Seq::empty(),
                fund_code: Seq::empty(),
                fund_name: Seq::empty(),
                sector: Seq::empty(),
                currency: Seq::empty(),
                valuation_method: Seq::empty(),
                enabled: false,
                reference_index_name: None,
                reference_index_symbol: None,
                market_data_provider: None,
                reference_index_currency: None,
                proxy_fx_pair: None,
                use_fx_adjustment: None,
                reference_instrument_id: None,
                reference_instrument_symbol: None,
            }),
    {
        AssetConfig {
            asset_id: String::new(),
            fund_code: String::new(),
            fund_name: String::new(),
            sector: String::new(),
            currency: String::new(),
            valuation_method: String::new(),
            enabled: false,
            reference_index_name: None,
            reference_index_symbol: None,
            market_data_provider: None,
            reference_index_currency: None,
            proxy_fx_pair: None,
            use_fx_adjustment: None,
            reference_instrument_id: None,
            reference_instrument_symbol: None,
        }
    }
}

/// Fund metadata returned by a fund provider.
#[derive(Debug)]
pub struct FundInfo {
    pub fund_code: String,
    pub fund_name: String,
    pub fund_type: String,
    pub currency: String,
    pub source: String,
}

} // verus!
