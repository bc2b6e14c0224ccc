//! Data provider selection: which fund, market, FX and instrument provider a
//! configuration asks for, with its settings; and the built-in offline
//! providers' fund lookups.

use vstd::prelude::*;
use crate::error::AppError;
use crate::model::{instruments_view, FundInfo, InstrumentConfig, InstrumentView};
use crate::text::{lowercase, owned, push_str, str_eq, to_lowercase, trim, trimmed};

verus! {

/// Fund data API settings.
#[derive(Debug)]
pub struct ApiConfig {
    pub default_fund_provider: String,
    pub fund_provider_timeout_seconds: u64,
    pub fund_provider_retry_count: u32,
    pub allow_mock_fallback: bool,
    pub fund_nav_stale_days: i64,
}

/// Market data settings.
#[derive(Debug)]
pub struct MarketConfig {
    pub default_market_provider: String,
    pub market_provider_timeout_seconds: u64,
    pub allow_mock_market_fallback: bool,
    pub market_cache_stale_hours: i64,
}

/// Exchange rate settings.
#[derive(Debug)]
pub struct FxConfig {
    pub default_fx_provider: String,
    pub allow_mock_fx_fallback: bool,
    pub fx_cache_stale_hours: i64,
    pub usd_cnh_symbol: String,
}

/// A fund provider that would call a generic HTTP endpoint.
#[derive(Debug)]
pub struct GenericHttpFundProvider {
    pub timeout: u64,
    pub retry: u32,
}

impl GenericHttpFundProvider {
    pub fn new(timeout: u64, retry: u32) -> (r: Self)
        ensures
            r.timeout == timeout,
            r.retry == retry,
    {
        GenericHttpFundProvider { timeout, retry }
    }

    /// The generic HTTP provider has no implementation yet: every lookup fails.
    pub fn search_fund_by_code(&self, fund_code: &str) -> (r: Result<FundInfo, AppError>)
        ensures
            r matches Err(AppError::ApiError(m)) && m@ == "HTTP provider not fully implemented for code: "@
                + fund_code@,
    {
        let mut m = owned("HTTP provider not fully implemented for code: ");
        push_str(&mut m, fund_code);
        Err(AppError::ApiError(m))
    }
}

/// The offline fund provider with two sample funds.
#[derive(Debug)]
pub struct MockFundProvider;

/// The fund metadata that the offline fund provider knows, by code.
pub open spec fn mock_fund_info(code: Seq<char>) -> Option<(Seq<char>, Seq<char>, Seq<char>, Seq<char>, Seq<char>)> {
    if code == "006327"@ {
        Some(("006327"@, "纳斯达克100基金"@, "QDII"@, "CNY"@, "mock"@))
    } else if code == "000001"@ {
        Some(("000001"@, "标普500基金"@, "指数型"@, "CNY"@, "mock"@))
    } else {
        None
    }
}

impl MockFundProvider {
    pub fn new() -> Self {
        MockFundProvider
    }

    /// Looks a fund up among the two sample funds.
    pub fn search_fund_by_code(&self, fund_code: &str) -> (r: Result<FundInfo, AppError>)
        ensures
            match mock_fund_info(fund_code@) {
                Some(info) => r matches Ok(f) && (f.fund_code@, f.fund_name@, f.fund_type@, f.currency@, f.source@) == info,
                None => r matches Err(AppError::ApiError(m)) && m@ == "Fund not found for code: "@ + fund_code@,
            },
    {
        if str_eq(fund_code, "006327") {
            Ok(FundInfo {
                fund_code: owned("006327"),
                fund_name: owned("纳斯达克100基金"),
                fund_type: owned("QDII"),
                currency: owned("CNY"),
                source: owned("mock"),
            })
        } else if str_eq(fund_code, "000001") {
            Ok(FundInfo {
                fund_code: owned("000001"),
                fund_name: owned("标普500基金"),
                fund_type: owned("指数型"),
                currency: owned("CNY"),
                source: owned("mock"),
            })
        } else {
            let mut m = owned("Fund not found for code: ");
            push_str(&mut m, fund_code);
            Err(AppError::ApiError(m))
        }
    }
}

/// The offline exchange rate provider.
#[derive(Debug)]
pub struct MockFxProvider;

/// The offline market data provider.
#[derive(Debug)]
pub struct MockMarketProvider;

impl MockMarketProvider {
    pub fn new() -> Self {
        MockMarketProvider
    }
}

/// The fund provider that a configuration selects, with its settings.
#[derive(Debug, PartialEq, Eq, Structural)]
pub enum FundProviderKind {
    EastMoney { timeout: u64 },
    GenericHttp { timeout: u64, retry: u32 },
    Mock,
}

/// The market data provider that a configuration selects, with its settings.
#[derive(Debug, PartialEq, Eq, Structural)]
pub enum MarketProviderKind {
    Yahoo { timeout: u64 },
    EastMoney { timeout: u64 },
    Mock,
}

/// The exchange rate provider that a configuration selects, with its settings.
#[derive(Debug, PartialEq, Eq, Structural)]
pub enum FxProviderKind {
    Yahoo { timeout: u64 },
    Mock,
}

/// The instrument quote provider that a configuration selects.
#[derive(Debug)]
pub enum InstrumentProviderKind {
    Yahoo { timeout: u64 },
    EastMoney { timeout: u64 },
    Mock,
    /// Manual mode: no data source yet.
    Manual,
    /// A provider name that no provider answers to.
    Unsupported { name: String },
}

/// The fund provider for a provider name.
pub open spec fn fund_provider_for(name: Seq<char>, timeout: u64, retry: u32) -> FundProviderKind {
    if name == "eastmoney"@ {
        FundProviderKind::EastMoney { timeout }
    } else if name == "generic_http"@ {
        FundProviderKind::GenericHttp { timeout, retry }
    } else {
        FundProviderKind::Mock
    }
}

/// Selects the fund provider that the configuration names; any other name
/// selects the offline provider.
pub fn create_fund_provider(config: &ApiConfig) -> (r: FundProviderKind)
    ensures
        r == fund_provider_for(
            config.default_fund_provider@,
            config.fund_provider_timeout_seconds,
            config.fund_provider_retry_count,
        ),
{
    let name = config.default_fund_provider.as_str();
    if str_eq(name, "eastmoney") {
        FundProviderKind::EastMoney { timeout: config.fund_provider_timeout_seconds }
    } else if str_eq(name, "generic_http") {
        FundProviderKind::GenericHttp {
            timeout: config.fund_provider_timeout_seconds,
            retry: config.fund_provider_retry_count,
        }
    } else {
        FundProviderKind::Mock
    }
}

/// The provider name in effect: the override when given, else the default.
pub open spec fn effective_name(default: Seq<char>, provider_override: Option<&str>) -> Seq<char> {
    match provider_override {
        Some(p) => p@,
        None => default,
    }
}

/// The market data provider for a provider name.
pub open spec fn market_provider_for(name: Seq<char>, timeout: u64) -> MarketProviderKind {
    if name == "yahoo"@ {
        MarketProviderKind::Yahoo { timeout }
    } else if name == "eastmoney"@ {
        MarketProviderKind::EastMoney { timeout }
    } else {
        MarketProviderKind::Mock
    }
}

/// Selects the market data provider: the override when given, else the
/// configured default; any other name selects the offline provider.
pub fn create_market_provider(config: &MarketConfig, provider_override: Option<&str>) -> (r:
    MarketProviderKind)
    ensures
        r == market_provider_for(
            effective_name(config.default_market_provider@, provider_override),
            config.market_provider_timeout_seconds,
        ),
{
    let name: &str = match provider_override {
        Some(p) => p,
        None => config.default_market_provider.as_str(),
    };
    if str_eq(name, "yahoo") {
        MarketProviderKind::Yahoo { timeout: config.market_provider_timeout_seconds }
    } else if str_eq(name, "eastmoney") {
        MarketProviderKind::EastMoney { timeout: config.market_provider_timeout_seconds }
    } else {
        MarketProviderKind::Mock
    }
}

/// The exchange rate provider for a provider name.
pub open spec fn fx_provider_for(name: Seq<char>) -> FxProviderKind {
    if name == "yahoo"@ {
        FxProviderKind::Yahoo { timeout: 20 }
    } else {
        FxProviderKind::Mock
    }
}

/// Selects the exchange rate provider: the override when given, else the
/// configured default; Yahoo runs with a 20 second timeout.
pub fn create_fx_provider(config: &FxConfig, provider_override: Option<&str>) -> (r: FxProviderKind)
    ensures
        r == fx_provider_for(effective_name(config.default_fx_provider@, provider_override)),
{
    let name: &str = match provider_override {
        Some(p) => p,
        None => config.default_fx_provider.as_str(),
    };
    if str_eq(name, "yahoo") {
        FxProviderKind::Yahoo { timeout: 20 }
    } else {
        FxProviderKind::Mock
    }
}

/// The instrument provider for a provider name.
pub open spec fn instrument_provider_matches(r: InstrumentProviderKind, name: Seq<char>, timeout: u64) -> bool {
    if name == "yahoo"@ {
        r == InstrumentProviderKind::Yahoo { timeout }
    } else if name == "eastmoney"@ {
        r == InstrumentProviderKind::EastMoney { timeout }
    } else if name == "mock"@ {
        r == InstrumentProviderKind::Mock
    } else if name == "manual"@ {
        r == InstrumentProviderKind::Manual
    } else {
        r matches InstrumentProviderKind::Unsupported { name: n } && n@ == name
    }
}

/// Selects the instrument quote provider: the override when given, else the
/// configured default; an unknown name selects the unsupported provider,
/// which keeps the name.
pub fn create_instrument_provider(config: &MarketConfig, provider_override: Option<&str>) -> (r:
    InstrumentProviderKind)
    ensures
        instrument_provider_matches(
            r,
            effective_name(config.default_market_provider@, provider_override),
            config.market_provider_timeout_seconds,
        ),
{
    let name: &str = match provider_override {
        Some(p) => p,
        None => config.default_market_provider.as_str(),
    };
    if str_eq(name, "yahoo") {
        InstrumentProviderKind::Yahoo { timeout: config.market_provider_timeout_seconds }
    } else if str_eq(name, "eastmoney") {
        InstrumentProviderKind::EastMoney { timeout: config.market_provider_timeout_seconds }
    } else if str_eq(name, "mock") {
        InstrumentProviderKind::Mock
    } else if str_eq(name, "manual") {
        InstrumentProviderKind::Manual
    } else {
        InstrumentProviderKind::Unsupported { name: owned(name) }
    }
}

/// A market price fetch to make: the provider and the trimmed symbol.
#[derive(Debug)]
pub struct MarketPriceRequest {
    pub provider: MarketProviderKind,
    pub symbol: String,
}

/// Prepares a quote fetch through the instrument's configured market
/// provider: the provider name is trimmed and lower-cased, the symbol
/// trimmed; an empty symbol is refused.
pub fn plan_market_price_fetch(config: &MarketConfig, provider: &str, provider_symbol: &str) -> (r:
    Result<MarketPriceRequest, AppError>)
    ensures
        trimmed(provider_symbol@).len() == 0 ==> (r matches Err(AppError::ApiError(m)) && m@
            == "provider_symbol 为空"@),
        trimmed(provider_symbol@).len() > 0 ==> (r matches Ok(req) && req.symbol@ == trimmed(
            provider_symbol@,
        ) && req.provider == market_provider_for(
            lowercase(trimmed(provider@)),
            config.market_provider_timeout_seconds,
        )),
{
    let t = trim(provider);
    let p = to_lowercase(t.as_str());
    let sym = trim(provider_symbol);
    if sym.as_str().is_empty() {
        return Err(AppError::ApiError(owned("provider_symbol 为空")));
    }
    let market_provider = create_market_provider(config, Some(p.as_str()));
    Ok(MarketPriceRequest { provider: market_provider, symbol: sym })
}

/// An instrument quote to fetch: the instrument's position in the list and
/// the provider that answers for it.
#[derive(Debug)]
pub struct InstrumentRequest {
    pub index: usize,
    pub provider: InstrumentProviderKind,
}

/// The instrument's id or symbol is `key`.
pub open spec fn is_named(v: InstrumentView, key: Seq<char>) -> bool {
    v.instrument_id == key || v.symbol == key
}

/// `s[i]` is the first instrument whose id or symbol is `key`.
pub open spec fn is_first_named(s: Seq<InstrumentView>, key: Seq<char>, i: int) -> bool {
    &&& 0 <= i < s.len()
    &&& is_named(s[i], key)
    &&& forall|j: int| 0 <= j < i ==> !is_named(#[trigger] s[j], key)
}

/// Finds the instrument named by id or symbol and the provider configured for
/// it; refuses an unknown or disabled instrument.
pub fn resolve_instrument(
    config: &MarketConfig,
    instruments: &[InstrumentConfig],
    symbol_or_id: &str,
) -> (r: Result<InstrumentRequest, AppError>)
    ensures
        ({
            let s = instruments_view(instruments@);
            match r {
                Ok(req) => {
                    &&& is_first_named(s, symbol_or_id@, req.index as int)
                    &&& s[req.index as int].enabled
                    &&& instrument_provider_matches(
                        req.provider,
                        s[req.index as int].provider,
                        config.market_provider_timeout_seconds,
                    )
                },
                Err(AppError::ApiError(m)) => {
                    ||| (forall|j: int| 0 <= j < s.len() ==> !is_named(#[trigger] s[j], symbol_or_id@))
                        && m@ == "Instrument not found: "@ + symbol_or_id@
                    ||| (exists|i: int| is_first_named(s, symbol_or_id@, i) && !s[i].enabled) && m@
                        == "Instrument is disabled: "@ + symbol_or_id@
                },
                Err(_) => false,
            }
        }),
{
    let ghost s = instruments_view(instruments@);
    let n = instruments.len();
    let mut i: usize = 0;
    while i < n
        invariant
            n == instruments@.len(),
            s == instruments_view(instruments@),
            i <= n,
            forall|j: int| 0 <= j < i ==> !is_named(#[trigger] s[j], symbol_or_id@),
        decreases n - i,
    {
        assert(s[i as int] == instruments@[i as int]@);
        if str_eq(instruments[i].instrument_id.as_str(), symbol_or_id) || str_eq(
            instruments[i].symbol.as_str(),
            symbol_or_id,
        ) {
            assert(is_first_named(s, symbol_or_id@, i as int));
            if !instruments[i].enabled {
                let mut m = owned("Instrument is disabled: ");
                push_str(&mut m, symbol_or_id);
                return Err(AppError::ApiError(m));
            }
            let provider = create_instrument_provider(config, Some(instruments[i].provider.as_str()));
            return Ok(InstrumentRequest { index: i, provider });
        }
        i += 1;
    }
    let mut m = owned("Instrument not found: ");
    push_str(&mut m, symbol_or_id);
    Err(AppError::ApiError(m))
}

/// The quote fetches of a validation run: every enabled instrument, in order,
/// with the provider configured for it.
pub fn plan_instrument_validation(config: &MarketConfig, instruments: &[InstrumentConfig]) -> (r: Vec<
    InstrumentRequest,
>)
    ensures
        ({
            let s = instruments_view(instruments@);
            &&& forall|k: int|
                0 <= k < r@.len() ==> {
                    let i = (#[trigger] r@[k]).index as int;
                    &&& 0 <= i < s.len()
                    &&& s[i].enabled
                    &&& instrument_provider_matches(
                        r@[k].provider,
                        s[i].provider,
                        config.market_provider_timeout_seconds,
                    )
                }
            &&& forall|k1: int, k2: int|
                0 <= k1 < k2 < r@.len() ==> (#[trigger] r@[k1]).index < (#[trigger] r@[k2]).index
            &&& forall|i: int|
                0 <= i < s.len() && #[trigger] s[i].enabled ==> exists|k: int|
                    0 <= k < r@.len() && #[trigger] r@[k].index == i
        }),
{
    let ghost s = instruments_view(instruments@);
    let n = instruments.len();
    let mut r: Vec<InstrumentRequest> = Vec::new();
    let mut i: usize = 0;
    while i < n
        invariant
            n == instruments@.len(),
            s == instruments_view(instruments@),
            i <= n,
            forall|k: int|
                0 <= k < r@.len() ==> {
                    let q = (#[trigger] r@[k]).index as int;
                    &&& 0 <= q < i
                    &&& s[q].enabled
                    &&& instrument_provider_matches(
                        r@[k].provider,
                        s[q].provider,
                        config.market_provider_timeout_seconds,
                    )
                },
            forall|k1: int, k2: int|
                0 <= k1 < k2 < r@.len() ==> (#[trigger] r@[k1]).index < (#[trigger] r@[k2]).index,
            forall|q: int|
                0 <= q < i && #[trigger] s[q].enabled ==> exists|k: int|
                    0 <= k < r@.len() && #[trigger] r@[k].index == q,
        decreases n - i,
    {
        assert(s[i as int] == instruments@[i as int]@);
        if instruments[i].enabled {
            let provider = create_instrument_provider(config, Some(instruments[i].provider.as_str()));
            let ghost before = r@;
            r.push(InstrumentRequest { index: i, provider });
            proof {
                assert forall|q: int|
                    0 <= q < i + 1 && #[trigger] s[q].enabled implies exists|k: int|
                        0 <= k < r@.len() && #[trigger] r@[k].index == q by {
                    if q < i {
                        let k = choose|k: int| 0 <= k < before.len() && #[trigger] before[k].index == q;
                        assert(r@[k] == before[k]);
                    } else {
                        assert(r@[before.len() as int].index == q);
                    }
                }
            }
        }
        i += 1;
    }
    r
}

} // verus!
