//! A per-owner record store for a single text attribute, the owner's
//! favorite color, with the two guarded writes that create and overwrite it.

pub mod address;
pub mod error;
pub mod guarantees;
pub mod instructions;
pub mod ledger;
pub mod record;

pub use address::{address_matches, is_authorized, namespace_tag, record_address, same_identity};
pub use error::{ErrorCode, LedgerError};
pub use instructions::{initialize, update_color, Initialize, UpdateColor};
pub use ledger::Ledger;
pub use record::{fits, UserColor, MAX_COLOR_LEN, RECORD_SPACE};
