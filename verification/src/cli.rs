//! The subcommands of the command line, as plain data. The parser that
//! fills them lives with the program.

use vstd::prelude::*;

verus! {

/// Kelly sizing commands.
#[derive(Debug)]
pub enum KellyCommands {
    /// Calculate and preview Kelly-adjusted buy suggestions
    Preview,
    /// Calculate and view Kelly portfolio-level preview
    Portfolio,
    /// Explain Kelly calculation for a specific asset
    Explain { asset_id: String },
}

/// Exchange rate commands.
#[derive(Debug)]
pub enum FxCommands {
    /// Get USD/CNH exchange rate
    UsdCnh,
    /// View USD/CNH exchange rate history
    UsdCnhHistory { days: usize },
}

/// Risk commands.
#[derive(Debug)]
pub enum RiskCommands {
    /// View crypto risk basket
    Crypto { symbol: Option<String> },
    /// View risk snapshot
    Snapshot,
    /// View individual risk factors and their current status
    Factors,
    /// Calculate and view global risk overlay analysis
    Overlay,
    /// Provide detailed explanation of the global risk score
    Explain,
    /// View history for a specific risk symbol
    History {
        symbol: Option<String>,
        symbol_opt: Option<String>,
        days: usize,
        provider: Option<String>,
    },
}

/// Fund metadata commands.
#[derive(Debug)]
pub enum FundCommands {
    /// Lookup a fund by code
    Lookup { fund_code: String },
    /// Validate fund names in config against real data
    Validate,
    /// Sync local fund name with real data for a specific asset
    SyncName { asset_id: String },
    /// Sync all local fund names with real data
    SyncAllNames,
}

/// Market data commands.
#[allow(inconsistent_fields)]
#[derive(Debug)]
pub enum MarketCommands {
    /// Lookup latest market price for a symbol
    Lookup { symbol: String, provider: Option<String> },
    /// View recent market history (daily candles)
    History { symbol: String, days: usize, provider: Option<String> },
    /// Analyze market regime (Pendulum Score)
    Regime {
        symbol: Option<String>,
        asset_id: Option<String>,
        days: usize,
        provider: Option<String>,
    },
    /// Analyze market regime for all assets with reference indexes
    RegimeAll,
    /// Explain market regime calculation for a symbol
    RegimeExplain { symbol: String, provider: Option<String> },
    /// View or set the default market provider
    Provider { command: Option<MarketProviderCommands> },
}

/// Market provider commands.
#[derive(Debug)]
pub enum MarketProviderCommands {
    /// Set the default market provider (yahoo, mock)
    SetProvider { provider: String },
}

/// Report commands.
#[derive(Debug)]
pub enum ReportCommands {
    /// Generate a daily review report
    Daily { date: Option<String>, save: bool },
    /// Generate a weekly review report
    Weekly { start: Option<String>, end: Option<String>, save: bool },
    /// Generate a monthly review report
    Monthly { month: Option<String>, save: bool },
    /// Portfolio status report
    Portfolio,
    /// DCA lifecycle report
    Dca,
    /// Reconciliation summary report
    Reconcile,
    /// Risk and market regime report
    Risk,
    /// Portfolio snapshot commands
    Snapshot { save: bool },
}

/// Daily plan commands.
#[derive(Debug)]
pub enum DailyCommands {
    /// Show daily execution plan
    Plan { date: Option<String> },
    /// Compact summary of daily execution plan
    Summary,
    /// Detailed explanation for a specific asset in the daily plan
    Explain { asset_id: String },
    /// Show a practical daily manual checklist
    Checklist,
}

/// Configuration commands.
#[derive(Debug)]
pub enum ConfigCommands {
    /// Run a configuration health check
    Doctor,
}

/// Proxy valuation commands.
#[derive(Debug)]
pub enum ValuationCommands {
    /// Preview current fund values estimated by reference indexes
    ProxyPreview,
    /// Explain the proxy valuation calculation for a specific asset
    ProxyExplain { asset_id: String },
}

/// Portfolio commands.
#[derive(Debug)]
pub enum PortfolioCommands {
    /// Calculate and view portfolio summary
    Summary,
}

/// Buy decision commands.
#[derive(Debug)]
pub enum DecisionCommands {
    /// Output today's buy suggestions based on targets
    Preview,
    /// Explain the rationale behind the buy suggestions
    Explain,
    /// Calculate and preview risk-adjusted buy suggestions
    AdjustedPreview,
    /// Explain adjusted calculation for a specific asset
    AdjustedExplain { asset_id: String },
    /// Compare base and adjusted suggestions
    Compare,
}

/// Instrument registry commands.
#[allow(inconsistent_fields)]
#[derive(Debug)]
pub enum InstrumentCommands {
    /// List all configured instruments
    List,
    /// Lookup latest price for an instrument
    Lookup { symbol: Option<String>, instrument_id: Option<String> },
    /// View price history for an instrument
    History { symbol: Option<String>, instrument_id: Option<String>, days: usize },
    /// Add a new instrument to the registry
    Add {
        instrument_id: String,
        symbol: String,
        name: String,
        name_zh: Option<String>,
        name_en: Option<String>,
        description_zh: Option<String>,
        category_zh: Option<String>,
        display_label: Option<String>,
        asset_class: String,
        provider: String,
        provider_symbol: String,
        market: Option<String>,
        currency: String,
        quote_unit: String,
        price_unit: String,
        note: Option<String>,
    },
    /// Disable an instrument
    Disable { instrument_id: String },
    /// Enable an instrument
    Enable { instrument_id: String },
    /// Validate all enabled instruments
    Validate,
    /// Compact watchlist-style snapshot of all instruments
    Snapshot,
}

/// Web UI commands.
#[derive(Debug)]
pub enum WebCommands {
    /// Performance and cache diagnostics for web UI
    Doctor,
}

/// Data refresh commands.
#[derive(Debug)]
pub enum DataCommands {
    /// Refresh provider-backed data
    Refresh {
        all: bool,
        fund: bool,
        market: bool,
        risk: bool,
        instrument: bool,
        proxy: bool,
        daily: bool,
    },
    /// Show cache freshness status
    CacheStatus,
}

/// Daily operations commands.
#[derive(Debug)]
pub enum OpsCommands {
    /// Summarize today's investment workflow
    Today { date: Option<String>, verbose: bool },
    /// Refresh all provider-backed data caches
    Refresh,
    /// Compact status view of portfolio and environment
    Status { verbose: bool },
    /// Operational readiness check
    Doctor { verbose: bool },
    /// Comprehensive daily manual checklist
    Checklist,
}

} // verus!
