//! Deterministic market-making strategies over exact decimal arithmetic.
//!
//! A [`Strategy`] reads a [`StrategyContext`] and a market event and returns
//! [`Action`]s. What it returns, and the state it is left in, is a mathematical function
//! of its state and of what it read; that function is part of each strategy's contract.
//! Strategies do no I/O, keep no time of their own and handle one instrument each.
//!
//! Where a number would leave the range of a decimal or a divisor would be
//! zero there is no result: the `try_` form of an operation then returns `None`, and the
//! plain form asks its caller to rule that out.

pub mod avellaneda_stoikov;
pub mod decimal;
pub mod flat_mm;
pub mod glft;
pub mod grid;
pub mod hawk;
pub mod hydra;
pub mod joker;
pub mod keel;
pub mod kline_scalp;
pub mod ladder_reentry;
pub mod layered_grid;
pub mod liq_fade;
pub mod mantis;
pub mod market;
pub mod micro_mean_reversion;
pub mod micro_price;
pub mod quoting;
pub mod ratchet;
pub mod rebalance;
pub mod risk;
pub mod rsi_mr;
pub mod scalping;
pub mod simple_gap;
pub mod sizing;
pub mod sorting;
pub mod spread_scalp;
pub mod spread_scalp_basic;
pub mod spread_scalp_old;
pub mod strategy;
pub mod volatility;

pub use avellaneda_stoikov::{AvellanedaStoikov, AvellanedaStoikovConfig};
pub use decimal::Decimal;
pub use flat_mm::{FlatMm, FlatMmConfig};
pub use glft::{Glft, GlftConfig};
pub use hawk::{Hawk, HawkConfig};
pub use hydra::{Hydra, HydraConfig};
pub use joker::{Joker, JokerConfig};
pub use keel::{Keel, KeelConfig, KeelMode};
pub use kline_scalp::{KlineScalp, KlineScalpConfig};
pub use ladder_reentry::{LadderReentry, LadderReentryConfig};
pub use layered_grid::{LayeredGrid, LayeredGridConfig};
pub use liq_fade::{LiqFade, LiqFadeConfig};
pub use mantis::{Mantis, MantisConfig};
pub use micro_mean_reversion::{MicroMeanReversion, MicroMeanReversionConfig};
pub use micro_price::{MicroPrice, MicroPriceConfig};
pub use ratchet::{Ratchet, RatchetConfig};
pub use rebalance::{Rebalance, RebalanceConfig};
pub use rsi_mr::{RsiMr, RsiMrConfig};
pub use simple_gap::{SimpleGap, SimpleGapConfig};
pub use spread_scalp::{SpreadScalp, SpreadScalpConfig};
pub use spread_scalp_old::{SpreadScalpOld, SpreadScalpOldConfig};
pub use strategy::{Action, Strategy, StrategyContext, StrategyResume};
