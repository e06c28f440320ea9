//! Data model: coins, outpoints, fee-rate tiers and the projected-fee report.
//!
//! Every value is constructed, used and discarded within one invocation;
//! nothing here carries state across calls.

use vstd::prelude::*;

verus! {

/// The two terminal failures of a fee projection.
///
/// `NotEnoughBitcoin`: the supplied coins cannot cover the target amount;
/// raised before any rate lookup. `ReqwestError`: the external rate oracle
/// was needed but its answer was unavailable or unusable.
#[derive(Debug, Clone, Copy, PartialEq, Eq, Structural)]
pub enum FestivusError {
    NotEnoughBitcoin,
    ReqwestError,
}

/// Spending-condition classification of a coin.
///
/// `Taproot` is a key-path spend (single Schnorr signature, default sighash);
/// `Other` is a witness-pubkey-hash spend (maximum-size signature plus a
/// compressed public key). Any external address-type code is mapped to one of
/// these two at the ingestion boundary, before the coin reaches this library.
#[derive(Debug, Clone, Copy, PartialEq, Eq, Structural)]
pub enum FestivusAddressType {
    Taproot,
    Other,
}

impl Default for FestivusAddressType {
    /// A coin is assumed Taproot unless classified otherwise.
    fn default() -> (r: Self)
        ensures
            r == FestivusAddressType::Taproot,
    {
        FestivusAddressType::Taproot
    }
}

/// Reference to the prior output a coin spends: transaction id (raw bytes and
/// hex form) plus the output index within that transaction.
#[derive(Debug, Clone, PartialEq, Eq)]
pub struct FestivusOutpoint {
    pub txid_bytes: Vec<u8>,
    pub txid: String,
    pub output_index: i32,
}

impl Default for FestivusOutpoint {
    /// The all-zero transaction id with output index 1, used as a placeholder
    /// where a real outpoint is irrelevant (sizing never reads it).
    fn default() -> (r: Self)
        ensures
            r.txid_bytes@.len() == 32,
            forall|i: int| 0 <= i < 32 ==> r.txid_bytes@[i] == 0u8,
            r.txid@ == "0000000000000000000000000000000000000000000000000000000000000000"@,
            r.output_index == 1,
    {
        let mut txid_bytes: Vec<u8> = Vec::new();
        let mut i: usize = 0;
        while i < 32
            invariant
                i <= 32,
                txid_bytes@.len() == i,
                forall|j: int| 0 <= j < i ==> txid_bytes@[j] == 0u8,
            decreases 32 - i,
        {
            txid_bytes.push(0u8);
            i = i + 1;
        }
        FestivusOutpoint {
            txid_bytes,
            txid: "0000000000000000000000000000000000000000000000000000000000000000".to_owned(),
            output_index: 1,
        }
    }
}

/// A spendable output supplied by the caller. Selection reads `amount_sat`,
/// sizing reads `address_type`; the remaining fields ride along untouched.
#[derive(Debug, Clone, PartialEq, Eq)]
pub struct FestivusUtxo {
    pub address_type: FestivusAddressType,
    pub address: String,
    pub amount_sat: i64,
    pub pk_script: String,
    pub outpoint: Option<FestivusOutpoint>,
}

impl Default for FestivusUtxo {
    /// A zero-amount Taproot coin with empty address and script and no
    /// outpoint; callers fill in the fields they care about.
    fn default() -> (r: Self)
        ensures
            r.address_type == FestivusAddressType::Taproot,
            r.address@ == Seq::<char>::empty(),
            r.amount_sat == 0,
            r.pk_script@ == Seq::<char>::empty(),
            r.outpoint is None,
    {
        FestivusUtxo {
            address_type: FestivusAddressType::Taproot,
            address: String::new(),
            amount_sat: 0,
            pk_script: String::new(),
            outpoint: None,
        }
    }
}

/// Outcome of coin selection: the chosen coins in selection order (sorted
/// largest-first, stable on equal amounts) and the signed amount still
/// uncovered, `remaining = target - sum of selected amounts`. On success
/// `remaining <= 0`; its absolute value is the change amount a real
/// transaction would later carry.
#[derive(Debug, Clone, PartialEq, Eq)]
pub struct SelectionResult {
    pub coins: Vec<FestivusUtxo>,
    pub remaining: i64,
}

/// One sat-per-vbyte rate for each of the five market urgency tiers.
#[derive(Debug, Clone, Copy, PartialEq, Eq, Structural)]
pub struct FeeRateSet {
    pub fastest: u64,
    pub half_hour: u64,
    pub hour: u64,
    pub economy: u64,
    pub minimum: u64,
}

/// The projected-fee report: for each tier, the pair
/// `(projected fee in sats, rate in sat/vbyte)`, where the fee is exactly
/// `virtual size * rate`.
#[derive(Debug, Clone, Copy, PartialEq, Eq)]
pub struct ProjectedFees {
    pub fastest_fee: (u64, u64),
    pub half_hour_fee: (u64, u64),
    pub hour_fee: (u64, u64),
    pub economy_fee: (u64, u64),
    pub minimum_fee: (u64, u64),
}

} // verus!
