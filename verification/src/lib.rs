//! A portfolio ledger's verified core: the market watchlist, data provider
//! selection, DCA schedules and lifecycle, Alipay holding imports, import and
//! data checks, reconciliation verdicts, daily plan gates and reports.

pub mod alipay;
pub mod cli;
pub mod clock;
pub mod daily_operation;
pub mod daily_plan;
pub mod dca;
pub mod dca_lifecycle;
pub mod enrichment;
pub mod error;
pub mod holdings_csv;
pub mod import;
pub mod market_data;
pub mod model;
pub mod operation;
pub mod providers;
pub mod reconciliation;
pub mod refresh;
pub mod report;
pub mod text;
pub mod verification;
pub mod watchlist;
