//! The records of the program and their mathematical models.

use vstd::prelude::*;

verus! {

/// A participant's balance record as the ledger shows it.
#[derive(Clone, Debug)]
pub struct Wallet {
    pub wallet_address: String,
    pub balance: u32,
}

/// What a [`Wallet`] is in contracts: its address as characters, and its balance.
pub struct WalletModel {
    pub wallet_address: Seq<char>,
    pub balance: u32,
}

impl View for Wallet {
    type V = WalletModel;

    open spec fn view(&self) -> WalletModel {
        WalletModel { wallet_address: self.wallet_address@, balance: self.balance }
    }
}

/// A request to borrow against a collateral item.
#[derive(Clone, Debug)]
pub struct BorrowLoanParams {
    pub borrower_wallet: Wallet,
    pub nft_id: String,
    pub nft_price: u32,
    pub borrower_pay_amount: u32,
    pub loan_amount: u32,
    pub repay_duration: u32,
    pub interest: u32,
    pub fee: u32,
    pub tx_hex: Vec<u8>,
}

/// What a [`BorrowLoanParams`] is in contracts.
pub struct BorrowLoanModel {
    pub borrower_wallet: WalletModel,
    pub nft_id: Seq<char>,
    pub nft_price: u32,
    pub borrower_pay_amount: u32,
    pub loan_amount: u32,
    pub repay_duration: u32,
    pub interest: u32,
    pub fee: u32,
    pub tx_hex: Seq<u8>,
}

impl View for BorrowLoanParams {
    type V = BorrowLoanModel;

    open spec fn view(&self) -> BorrowLoanModel {
        BorrowLoanModel {
            borrower_wallet: self.borrower_wallet@,
            nft_id: self.nft_id@,
            nft_price: self.nft_price,
            borrower_pay_amount: self.borrower_pay_amount,
            loan_amount: self.loan_amount,
            repay_duration: self.repay_duration,
            interest: self.interest,
            fee: self.fee,
            tx_hex: self.tx_hex@,
        }
    }
}

/// The instructions that the program accepts.
#[derive(Clone, Debug)]
pub enum WalletInstruction {
    BorrowLoan(BorrowLoanParams),
}

/// What a [`WalletInstruction`] is in contracts.
pub enum InstructionModel {
    BorrowLoan(BorrowLoanModel),
}

impl InstructionModel {
    /// The ledger transaction that the instruction carries, whatever its kind.
    pub open spec fn tx_hex(self) -> Seq<u8> {
        match self {
            InstructionModel::BorrowLoan(inner) => inner.tx_hex,
        }
    }
}

impl View for WalletInstruction {
    type V = InstructionModel;

    open spec fn view(&self) -> InstructionModel {
        match self {
            WalletInstruction::BorrowLoan(inner) => InstructionModel::BorrowLoan(inner@),
        }
    }
}

impl WalletInstruction {
    /// A copy of the ledger transaction that the instruction carries.
    pub fn tx_hex(&self) -> (bytes: Vec<u8>)
        ensures
            bytes@ == self@.tx_hex(),
    {
        match self {
            WalletInstruction::BorrowLoan(inner) => inner.tx_hex.clone(),
        }
    }
}

} // verus!
