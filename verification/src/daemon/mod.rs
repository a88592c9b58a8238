//! The daemon: observer reduction, policy gates and reconciliation.

pub mod answers;
pub mod barriers;
pub mod commands;
pub mod config;
pub mod contacts;
pub mod effects;
pub mod enforcement;
pub mod guarantees;
pub mod health;
pub mod hints;
pub mod inputs;
pub mod lifetime;
pub mod listing;
pub mod lists;
pub mod names;
pub mod observers;
pub mod outcomes;
pub mod overrides;
pub mod observer;
pub mod publish;
pub mod reconcile;
pub mod reload;
pub mod reports;
pub mod retry;
pub mod rules;
pub mod service;
pub mod state;
pub mod thermal;
pub mod timing;
pub mod transitions;
pub mod workload;
