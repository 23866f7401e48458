//! Writing and reading wallets and instructions as bytes.
//!
//! Reading takes bytes from anyone: it never indexes past the end, and it
//! accepts exactly the byte sequences that writing produces.

use crate::account::{
    BorrowLoanParams, InstructionModel, Wallet, WalletInstruction, WalletModel,
};
use crate::wire::{
    blob_bytes, borrow_loan_bytes, borrow_loan_fits, instruction_bytes, instruction_fits,
    law_instruction_canonical, law_instruction_round_trip, law_wallet_canonical,
    law_wallet_round_trip, parse_instruction, parse_wallet, take_amounts,
    take_blob, take_borrow_loan, take_text, take_u32, take_wallet, text_bytes, text_fits,
    u32_bytes, wallet_bytes, wallet_fits, TAG_BORROW_LOAN,
};
use std::string::FromUtf8Error;
use vstd::prelude::*;
use vstd::slice::{slice_subrange, slice_to_vec};
use vstd::utf8::{decode_utf8, valid_utf8};

verus! {

/// The bytes are not the encoding of any value: they are cut short, carry an
/// unknown tag, hold a text that is not UTF-8, or go on after the last field.
#[derive(Clone, Copy, Debug, PartialEq, Eq, Structural)]
pub struct DecodeError;

/// A text or a blob of the value is longer than a length prefix can say.
#[derive(Clone, Copy, Debug, PartialEq, Eq, Structural)]
pub struct EncodeError;

/// `std::string::FromUtf8Error`, carried through without a look inside.
#[verifier::external_type_specification]
#[verifier::external_body]
pub struct ExFromUtf8Error(FromUtf8Error);

/// `String::from_utf8` accepts exactly the byte sequences that are valid
/// UTF-8, and gives the text that they encode.
pub assume_specification[ String::from_utf8 ](vec: Vec<u8>) -> (text: Result<String, FromUtf8Error>)
    ensures
        match text {
            Ok(s) => valid_utf8(vec@) && s@ == decode_utf8(vec@),
            Err(_) => !valid_utf8(vec@),
        },
;

/// Appends the four bytes of an amount.
fn put_u32(out: &mut Vec<u8>, v: u32)
    ensures
        final(out)@ == old(out)@ + u32_bytes(v),
{
    out.push((v % 256) as u8);
    out.push((v / 256 % 256) as u8);
    out.push((v / 65536 % 256) as u8);
    out.push((v / 16777216) as u8);
    assert(out@ =~= old(out)@ + u32_bytes(v));
}

/// Appends a blob: its length, then its bytes.
fn put_blob(out: &mut Vec<u8>, bytes: &[u8])
    requires
        bytes@.len() <= u32::MAX,
    ensures
        final(out)@ == old(out)@ + blob_bytes(bytes@),
{
    put_u32(out, bytes.len() as u32);
    out.extend_from_slice(bytes);
    assert(out@ =~= old(out)@ + blob_bytes(bytes@));
}

/// Appends a text: the blob of its UTF-8 encoding.
fn put_text(out: &mut Vec<u8>, text: &str)
    requires
        text_fits(text@),
    ensures
        final(out)@ == old(out)@ + text_bytes(text@),
{
    put_blob(out, text.as_bytes());
}

/// Whether the text's UTF-8 encoding is short enough for a length prefix.
fn text_len_fits(text: &str) -> (fits: bool)
    ensures
        fits == text_fits(text@),
{
    text.as_bytes().len() <= u32::MAX as usize
}

/// Appends the snapshot of a wallet.
pub(crate) fn put_wallet(out: &mut Vec<u8>, wallet: &Wallet)
    requires
        wallet_fits(wallet@),
    ensures
        final(out)@ == old(out)@ + wallet_bytes(wallet@),
{
    put_text(out, wallet.wallet_address.as_str());
    put_u32(out, wallet.balance);
    assert(out@ =~= old(out)@ + wallet_bytes(wallet@));
}

/// The snapshot of a wallet, as it is kept in a storage slot: the address as
/// a length-prefixed text, then the balance. Refused only where the address
/// is too long for its length prefix.
pub fn encode_wallet(wallet: &Wallet) -> (encoded: Result<Vec<u8>, EncodeError>)
    ensures
        match encoded {
            Ok(bytes) => wallet_fits(wallet@) && bytes@ == wallet_bytes(wallet@),
            Err(_) => !wallet_fits(wallet@),
        },
{
    if !text_len_fits(wallet.wallet_address.as_str()) {
        return Err(EncodeError);
    }
    let mut out: Vec<u8> = Vec::new();
    put_wallet(&mut out, wallet);
    assert(out@ =~= wallet_bytes(wallet@));
    Ok(out)
}

/// Appends a request: the wallet, the collateral's identifier, the six amounts, the transaction.
fn put_borrow_loan(out: &mut Vec<u8>, params: &BorrowLoanParams)
    requires
        borrow_loan_fits(params@),
    ensures
        final(out)@ == old(out)@ + borrow_loan_bytes(params@),
{
    put_wallet(out, &params.borrower_wallet);
    put_text(out, params.nft_id.as_str());
    put_u32(out, params.nft_price);
    put_u32(out, params.borrower_pay_amount);
    put_u32(out, params.loan_amount);
    put_u32(out, params.repay_duration);
    put_u32(out, params.interest);
    put_u32(out, params.fee);
    put_blob(out, params.tx_hex.as_slice());
    assert(out@ =~= old(out)@ + borrow_loan_bytes(params@));
}

/// Whether each variable-length field of the request fits its length prefix.
fn borrow_loan_len_fits(params: &BorrowLoanParams) -> (fits: bool)
    ensures
        fits == borrow_loan_fits(params@),
{
    text_len_fits(params.borrower_wallet.wallet_address.as_str()) && text_len_fits(
        params.nft_id.as_str(),
    ) && params.tx_hex.len() <= u32::MAX as usize
}

/// The encoding of an instruction, as a caller hands it to the program: the
/// tag of its kind, then its fields in their declared order. Refused only
/// where a text or the transaction is too long for its length prefix.
pub fn encode_instruction(instruction: &WalletInstruction) -> (encoded: Result<
    Vec<u8>,
    EncodeError,
>)
    ensures
        match encoded {
            Ok(bytes) => instruction_fits(instruction@) && bytes@ == instruction_bytes(
                instruction@,
            ),
            Err(_) => !instruction_fits(instruction@),
        },
{
    match instruction {
        WalletInstruction::BorrowLoan(params) => {
            if !borrow_loan_len_fits(params) {
                return Err(EncodeError);
            }
            let mut out: Vec<u8> = Vec::new();
            out.push(TAG_BORROW_LOAN);
            put_borrow_loan(&mut out, params);
            assert(out@ =~= instruction_bytes(instruction@));
            Ok(out)
        },
    }
}

/// Reads an amount at `pos`, and says where the next field starts.
fn read_u32(data: &[u8], pos: usize) -> (read: Option<(u32, usize)>)
    requires
        pos <= data@.len(),
    ensures
        match read {
            Some((v, next)) => {
                &&& pos <= next <= data@.len()
                &&& take_u32(data@.skip(pos as int)) == Some((v, data@.skip(next as int)))
            },
            None => take_u32(data@.skip(pos as int)) is None,
        },
{
    if data.len() - pos < 4 {
        return None;
    }
    let b0: u32 = data[pos] as u32;
    let b1: u32 = data[pos + 1] as u32;
    let b2: u32 = data[pos + 2] as u32;
    let b3: u32 = data[pos + 3] as u32;
    let v: u32 = b0 + 256 * b1 + 65536 * b2 + 16777216 * b3;
    assert(data@.skip(pos as int).skip(4) =~= data@.skip(pos + 4));
    Some((v, pos + 4))
}

/// Reads a blob at `pos`, and says where the next field starts.
fn read_blob(data: &[u8], pos: usize) -> (read: Option<(Vec<u8>, usize)>)
    requires
        pos <= data@.len(),
    ensures
        match read {
            Some((bytes, next)) => {
                &&& pos <= next <= data@.len()
                &&& take_blob(data@.skip(pos as int)) == Some((bytes@, data@.skip(next as int)))
            },
            None => take_blob(data@.skip(pos as int)) is None,
        },
{
    match read_u32(data, pos) {
        None => None,
        Some((n, start)) => {
            if n as usize > data.len() - start {
                None
            } else {
                let end: usize = start + n as usize;
                let bytes = slice_to_vec(slice_subrange(data, start, end));
                proof {
                    let rest = data@.skip(start as int);
                    assert(rest.take(n as int) =~= data@.subrange(start as int, end as int));
                    assert(rest.skip(n as int) =~= data@.skip(end as int));
                }
                Some((bytes, end))
            }
        },
    }
}

/// Reads a text at `pos`, and says where the next field starts.
fn read_text(data: &[u8], pos: usize) -> (read: Option<(String, usize)>)
    requires
        pos <= data@.len(),
    ensures
        match read {
            Some((text, next)) => {
                &&& pos <= next <= data@.len()
                &&& take_text(data@.skip(pos as int)) == Some((text@, data@.skip(next as int)))
            },
            None => take_text(data@.skip(pos as int)) is None,
        },
{
    match read_blob(data, pos) {
        None => None,
        Some((bytes, next)) => match String::from_utf8(bytes) {
            Ok(text) => Some((text, next)),
            Err(_) => None,
        },
    }
}

/// Reads a wallet at `pos`, and says where the next field starts.
fn read_wallet(data: &[u8], pos: usize) -> (read: Option<(Wallet, usize)>)
    requires
        pos <= data@.len(),
    ensures
        match read {
            Some((wallet, next)) => {
                &&& pos <= next <= data@.len()
                &&& take_wallet(data@.skip(pos as int)) == Some(
                    (wallet@, data@.skip(next as int)),
                )
            },
            None => take_wallet(data@.skip(pos as int)) is None,
        },
{
    match read_text(data, pos) {
        None => None,
        Some((wallet_address, after_address)) => match read_u32(data, after_address) {
            None => None,
            Some((balance, next)) => Some((Wallet { wallet_address, balance }, next)),
        },
    }
}

/// Reads six amounts at `pos`, and says where the next field starts.
fn read_amounts(data: &[u8], pos: usize) -> (read: Option<
    ((u32, u32, u32, u32, u32, u32), usize),
>)
    requires
        pos <= data@.len(),
    ensures
        match read {
            Some((amounts, next)) => {
                &&& pos <= next <= data@.len()
                &&& take_amounts(data@.skip(pos as int)) == Some(
                    (amounts, data@.skip(next as int)),
                )
            },
            None => take_amounts(data@.skip(pos as int)) is None,
        },
{
    let (a0, at1) = match read_u32(data, pos) {
        Some(read) => read,
        None => { return None; },
    };
    let (a1, at2) = match read_u32(data, at1) {
        Some(read) => read,
        None => { return None; },
    };
    let (a2, at3) = match read_u32(data, at2) {
        Some(read) => read,
        None => { return None; },
    };
    let (a3, at4) = match read_u32(data, at3) {
        Some(read) => read,
        None => { return None; },
    };
    let (a4, at5) = match read_u32(data, at4) {
        Some(read) => read,
        None => { return None; },
    };
    let (a5, next) = match read_u32(data, at5) {
        Some(read) => read,
        None => { return None; },
    };
    Some(((a0, a1, a2, a3, a4, a5), next))
}

/// Reads a request at `pos`, and says where the next field starts.
fn read_borrow_loan(data: &[u8], pos: usize) -> (read: Option<(BorrowLoanParams, usize)>)
    requires
        pos <= data@.len(),
    ensures
        match read {
            Some((params, next)) => {
                &&& pos <= next <= data@.len()
                &&& take_borrow_loan(data@.skip(pos as int)) == Some(
                    (params@, data@.skip(next as int)),
                )
            },
            None => take_borrow_loan(data@.skip(pos as int)) is None,
        },
{
    let (borrower_wallet, after_wallet) = match read_wallet(data, pos) {
        Some(read) => read,
        None => { return None; },
    };
    let (nft_id, after_id) = match read_text(data, after_wallet) {
        Some(read) => read,
        None => { return None; },
    };
    let (amounts, after_amounts) = match read_amounts(data, after_id) {
        Some(read) => read,
        None => { return None; },
    };
    let (tx_hex, next) = match read_blob(data, after_amounts) {
        Some(read) => read,
        None => { return None; },
    };
    let params = BorrowLoanParams {
        borrower_wallet,
        nft_id,
        nft_price: amounts.0,
        borrower_pay_amount: amounts.1,
        loan_amount: amounts.2,
        repay_duration: amounts.3,
        interest: amounts.4,
        fee: amounts.5,
        tx_hex,
    };
    Some((params, next))
}

/// Reads the snapshot of a wallet back.
///
/// Succeeds exactly on the byte sequences that [`encode_wallet`] produces,
/// and gives the wallet that was written.
pub fn decode_wallet(data: &[u8]) -> (decoded: Result<Wallet, DecodeError>)
    ensures
        match decoded {
            Ok(wallet) => {
                &&& parse_wallet(data@) == Some(wallet@)
                &&& wallet_fits(wallet@)
                &&& wallet_bytes(wallet@) == data@
            },
            Err(_) => {
                &&& parse_wallet(data@) is None
                &&& forall|w: WalletModel| wallet_fits(w) ==> #[trigger] wallet_bytes(w) != data@
            },
        },
{
    assert(data@.skip(0) =~= data@);
    let read = read_wallet(data, 0);
    if let Some((wallet, next)) = read {
        if next == data.len() {
            proof {
                law_wallet_canonical(data@);
            }
            return Ok(wallet);
        }
    }
    assert forall|w: WalletModel| wallet_fits(w) implies #[trigger] wallet_bytes(w) != data@ by {
        if wallet_bytes(w) == data@ {
            law_wallet_round_trip(w);
        }
    }
    Err(DecodeError)
}

/// Reads an instruction from bytes that anyone may have sent.
///
/// Succeeds exactly on the byte sequences that [`encode_instruction`]
/// produces, and gives the instruction that was written. Every other input is
/// refused: an empty one, an unknown tag, a field that is cut short, a text
/// that is not UTF-8, bytes after the last field.
pub fn decode_instruction(data: &[u8]) -> (decoded: Result<WalletInstruction, DecodeError>)
    ensures
        match decoded {
            Ok(instruction) => {
                &&& parse_instruction(data@) == Some(instruction@)
                &&& instruction_fits(instruction@)
                &&& instruction_bytes(instruction@) == data@
            },
            Err(_) => {
                &&& parse_instruction(data@) is None
                &&& forall|i: InstructionModel|
                    instruction_fits(i) ==> #[trigger] instruction_bytes(i) != data@
            },
        },
{
    if data.len() >= 1 && data[0] == TAG_BORROW_LOAN {
        let read = read_borrow_loan(data, 1);
        if let Some((params, next)) = read {
            if next == data.len() {
                proof {
                    law_instruction_canonical(data@);
                }
                return Ok(WalletInstruction::BorrowLoan(params));
            }
        }
    }
    assert forall|i: InstructionModel| instruction_fits(i) implies #[trigger] instruction_bytes(
        i,
    ) != data@ by {
        if instruction_bytes(i) == data@ {
            law_instruction_round_trip(i);
        }
    }
    Err(DecodeError)
}

} // verus!
