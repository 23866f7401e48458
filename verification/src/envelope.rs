//! The ledger transaction that an instruction carries.
//!
//! The program does not look inside the transaction. It has the ledger's own
//! decoder accept or refuse the bytes, and hands the transaction back in the
//! ledger's own encoding.

use bitcoin::consensus::encode::Error;
use bitcoin::Transaction;
use vstd::prelude::*;

verus! {

/// `bitcoin::Transaction`, carried through without a look inside.
#[verifier::external_type_specification]
#[verifier::external_body]
pub struct ExTransaction(Transaction);

/// `bitcoin::consensus::encode::Error`, carried through without a look inside.
#[verifier::external_type_specification]
#[verifier::external_body]
pub struct ExConsensusError(Error);

/// The bytes are not a transaction in the ledger's consensus encoding.
#[derive(Clone, Copy, Debug, PartialEq, Eq, Structural)]
pub struct FormatError;

/// The consensus encoding of a transaction: what `bitcoin::consensus::serialize`
/// returns for it.
pub uninterp spec fn consensus_encoding(tx: Transaction) -> Seq<u8>;

/// What the ledger's decoder makes of `bytes`: the consensus encoding of the
/// transaction that `bitcoin::consensus::deserialize` reads from them, or
/// nothing where it refuses them.
pub uninterp spec fn consensus_decoding(bytes: Seq<u8>) -> Option<Seq<u8>>;

/// `bitcoin::consensus::deserialize`, for a transaction. The decoder reads
/// from the slice alone, so whether it accepts and what it reads depend on
/// the bytes only. Nothing is claimed of which bytes it accepts, nor of how
/// the transaction's encoding relates to the bytes it was read from.
#[verifier::external_body]
fn consensus_deserialize(bytes: &[u8]) -> (read: Result<Transaction, Error>)
    ensures
        match read {
            Ok(tx) => consensus_decoding(bytes@) == Some(consensus_encoding(tx)),
            Err(_) => consensus_decoding(bytes@) is None,
        },
{
    bitcoin::consensus::deserialize::<Transaction>(bytes)
}

/// `bitcoin::consensus::serialize`, for a transaction. It writes into a
/// vector in memory and cannot fail.
#[verifier::external_body]
fn consensus_serialize(tx: &Transaction) -> (bytes: Vec<u8>)
    ensures
        bytes@ == consensus_encoding(*tx),
{
    bitcoin::consensus::serialize(tx)
}

/// Has the ledger's decoder read a transaction from `bytes`, and refuses
/// the bytes where the decoder does.
pub fn parse(bytes: &[u8]) -> (parsed: Result<Transaction, FormatError>)
    ensures
        match parsed {
            Ok(tx) => consensus_decoding(bytes@) == Some(consensus_encoding(tx)),
            Err(_) => consensus_decoding(bytes@) is None,
        },
{
    match consensus_deserialize(bytes) {
        Ok(tx) => Ok(tx),
        Err(_) => Err(FormatError),
    }
}

/// The transaction in the ledger's consensus encoding.
pub fn serialize(tx: &Transaction) -> (bytes: Vec<u8>)
    ensures
        bytes@ == consensus_encoding(*tx),
{
    consensus_serialize(tx)
}

} // verus!
