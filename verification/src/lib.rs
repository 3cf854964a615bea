//! Dice notation: reading expressions such as `2d6r!5+2` or `a20`, and
//! rolling them against a source of draws.

pub mod args;
pub mod config;
pub mod error;
pub mod expression;
pub mod history;
pub mod integer;
pub mod log;
pub mod opts;
pub mod realize;
pub mod rng;
pub mod rolls;
pub mod script;
pub mod show;
pub mod text;
pub mod token;

pub use args::{AddAlias, Args, Mode, PathConfig, RemAlias, SubCommand};
pub use error::{Error, ExpressionError};
pub use expression::{
    parse_threshold_token, Advantage, Explode, Expression, ExpressionParser, Reroll,
    StrategyModifier,
};
pub use history::History;
pub use integer::IntegerError;
pub use log::RollLog;
pub use opts::Opts;
pub use realize::{Highlight, RealizedExpression, Realization, Realizer};
pub use rng::{LogWrapper, RngSource};
pub use script::ScriptedRealizer;
pub use token::{ExplodeTokenExtractor, RerollTokenExtractor, Token, TokenExtractor};
