pub mod decimal;
pub mod text;
pub mod types;
pub mod account_types;
pub mod portfolio;
pub mod aggregator;
pub mod indicators;
pub mod strategy;
pub mod trend_strategy;
pub mod seqs;
pub mod engine;
pub mod equity;
pub mod mtf_engine;
pub mod walk_forward;
pub mod market_state;
pub mod multi_symbol;
pub mod portfolio_checks;
pub mod paper;
pub mod events;
pub mod alert;
pub mod event_types;
pub mod cache;
pub mod store;
pub mod performance;
pub mod options;
pub mod report;
pub mod exchange;
