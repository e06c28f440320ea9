//! Fee projection for payment-channel funding transactions.
//!
//! Given a set of spendable coins and a target funding amount, the library
//! picks a deterministic subset of coins covering the target (largest-first,
//! stable on equal amounts), predicts the virtual size of the transaction
//! that would spend them into the two fixed funding/change outputs, and
//! multiplies that size by each of five market fee-rate tiers.
//!
//! The one network interaction (fetching the five tier rates from an oracle)
//! is performed by the caller; its outcome is handed to [`fees::calculate_fee`]
//! as a plain value.

pub mod model;
pub mod selection;
pub mod weight;
pub mod fees;

pub use fees::calculate_fee;
pub use fees::project_fees;
pub use fees::resolve_rates;
pub use fees::uniform_rates;
pub use model::FestivusAddressType;
pub use model::FestivusError;
pub use model::FestivusOutpoint;
pub use model::FestivusUtxo;
pub use model::FeeRateSet;
pub use model::ProjectedFees;
pub use model::SelectionResult;
pub use selection::select_coins;
pub use weight::estimate_virtual_size;
