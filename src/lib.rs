//! Emergency withdrawal of funds from a set of wallets derived from one seed.
//!
//! The library holds the wallet directory, the sweep guard that decides how
//! much of a balance can be sent, the selection and confirmation state of the
//! operator's screen, and the bookkeeping of one sweep run over the selected
//! wallets. Network access, rendering and configuration loading live outside.
use vstd::prelude::*;

pub mod sweep;
pub mod address;
pub mod amount;
pub mod trusted;
pub mod wallet;
pub mod app_data;
pub mod transfer;
pub mod model;
pub mod view;
