//! A minimal ledger core: accounts, immutable ledger entries, idempotent
//! posting, and the storage the use cases run on.

pub mod amount;
pub mod decimal;
pub mod dto;
pub mod laws;
pub mod memory;
pub mod messages;
pub mod model;
pub mod server;
pub mod state;
pub mod storage;
pub mod text;
pub mod use_case;
