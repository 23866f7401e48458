//! The loan rule: what a borrower pays up front, and the wallet that is left.

use crate::account::{BorrowLoanModel, BorrowLoanParams, Wallet, WalletModel};
use vstd::prelude::*;

verus! {

/// The collateral's price is divided by this to give the borrower's share.
pub const COLLATERAL_RATIO: u32 = 5;

/// Why a loan request was not settled.
#[derive(Clone, Copy, Debug, PartialEq, Eq, Structural)]
pub enum SettlementError {
    /// The wallet holds less than the payment that is due.
    InsufficientFunds,
    /// The payment that is due does not fit the ledger's 32-bit amounts.
    ArithmeticFault,
}

impl SettlementError {
    /// The text that a host shows for the error.
    pub fn message(&self) -> (text: String)
        ensures
            *self == SettlementError::InsufficientFunds ==> text@
                == "Insufficient balance to cover payment and fees."@,
            *self == SettlementError::ArithmeticFault ==> text@
                == "Payment and fees exceed the ledger's amount range."@,
    {
        match self {
            SettlementError::InsufficientFunds => {
                "Insufficient balance to cover payment and fees.".to_string()
            },
            SettlementError::ArithmeticFault => {
                "Payment and fees exceed the ledger's amount range.".to_string()
            },
        }
    }
}

/// The payment due on a request: a fifth of the collateral's price, rounded
/// down, and the flat fee. A mathematical integer, so it never wraps.
pub open spec fn payment_due(nft_price: u32, fee: u32) -> int {
    (nft_price as int) / (COLLATERAL_RATIO as int) + (fee as int)
}

/// What settling a request gives: the fault where the payment due leaves the
/// ledger's amount range, the refusal where the wallet cannot cover it, and
/// else the wallet with the payment taken off and the address untouched.
pub open spec fn settled(request: BorrowLoanModel) -> Result<WalletModel, SettlementError> {
    let due = payment_due(request.nft_price, request.fee);
    if due > u32::MAX {
        Err(SettlementError::ArithmeticFault)
    } else if request.borrower_wallet.balance < due {
        Err(SettlementError::InsufficientFunds)
    } else {
        Ok(
            WalletModel {
                wallet_address: request.borrower_wallet.wallet_address,
                balance: (request.borrower_wallet.balance - due) as u32,
            },
        )
    }
}

/// The payment due, or `None` where it leaves the ledger's amount range.
pub fn required_payment(nft_price: u32, fee: u32) -> (due: Option<u32>)
    ensures
        due == if payment_due(nft_price, fee) <= u32::MAX {
            Some(payment_due(nft_price, fee) as u32)
        } else {
            None
        },
{
    (nft_price / COLLATERAL_RATIO).checked_add(fee)
}

/// The loan rule's result, as contracts see it.
pub open spec fn settlement_model(settlement: Result<Wallet, SettlementError>) -> Result<
    WalletModel,
    SettlementError,
> {
    match settlement {
        Ok(wallet) => Ok(wallet@),
        Err(error) => Err(error),
    }
}

/// Settles a loan request against the borrower's wallet.
///
/// A wallet that covers the payment due is returned with exactly that payment
/// taken off and its address untouched. A wallet that does not is refused.
/// A payment due beyond the ledger's amount range is a fault, never a wrapped
/// amount. Only the collateral's price, the fee and the balance enter the
/// rule; the other amounts of the request are carried and not read.
#[allow(non_snake_case)]
pub fn BorrowLoan(params: BorrowLoanParams) -> (outcome: Result<Wallet, SettlementError>)
    ensures
        settlement_model(outcome) == settled(params@),
        params.borrower_wallet.balance >= payment_due(params.nft_price, params.fee) ==> {
            &&& outcome matches Ok(wallet)
            &&& wallet.balance == params.borrower_wallet.balance - payment_due(
                params.nft_price,
                params.fee,
            )
            &&& wallet.wallet_address@ == params.borrower_wallet.wallet_address@
        },
        params.borrower_wallet.balance < payment_due(params.nft_price, params.fee) <= u32::MAX
            ==> outcome == Err::<Wallet, SettlementError>(SettlementError::InsufficientFunds),
        payment_due(params.nft_price, params.fee) > u32::MAX ==> outcome == Err::<
            Wallet,
            SettlementError,
        >(SettlementError::ArithmeticFault),
{
    let mut wallet = params.borrower_wallet;
    match required_payment(params.nft_price, params.fee) {
        None => Err(SettlementError::ArithmeticFault),
        Some(due) => {
            if wallet.balance < due {
                Err(SettlementError::InsufficientFunds)
            } else {
                wallet.balance = wallet.balance - due;
                Ok(wallet)
            }
        },
    }
}

} // verus!
