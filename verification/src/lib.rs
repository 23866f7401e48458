//! Settlement of collateralised loan requests against a borrower's wallet.
//!
//! An invocation carries one instruction as bytes. The instruction is decoded,
//! the loan rule is applied to the borrower's wallet, the embedded ledger
//! transaction is validated, the new wallet snapshot is written to every
//! storage slot of the invocation, and the transaction is handed back in its
//! consensus encoding.

pub mod account;
pub mod codec;
pub mod envelope;
pub mod program;
pub mod settlement;
pub mod wire;

pub use account::{BorrowLoanParams, Wallet, WalletInstruction};
pub use codec::{
    decode_instruction, decode_wallet, encode_instruction, encode_wallet, DecodeError, EncodeError,
};
pub use envelope::FormatError;
pub use program::{commit, dispatch, handler, write_all, ProgramError, StorageSlot};
pub use settlement::{required_payment, BorrowLoan, SettlementError};
