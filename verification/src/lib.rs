//! Safe rolling restart for a live daemon fleet: the decisions.

pub mod text;
pub mod error;
pub mod calendar;
pub mod table;
pub mod paths;
pub mod fleet;
pub mod scan;
pub mod autogate;
pub mod json;
pub mod output;
pub mod health;
pub mod command;
pub mod warmswap;
pub mod units;
pub mod install;
pub mod restart;
pub mod prove;
pub mod cli;
pub mod cycle;
pub mod apply;
