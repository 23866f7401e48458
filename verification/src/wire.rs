//! The byte layout of wallets and instructions.
//!
//! Amounts are four bytes, least significant first. A blob is its length as an
//! amount, then its bytes. A text is the blob of its UTF-8 encoding. A record
//! is its fields one after another, and an instruction is a tag byte and the
//! record of its kind. `*_bytes` say what is written; `take_*` say what is
//! read off the front of a byte sequence and what is left behind it.

use crate::account::{BorrowLoanModel, InstructionModel, WalletModel};
use vstd::arithmetic::div_mod::lemma_fundamental_div_mod_converse;
use vstd::prelude::*;
use vstd::seq_lib::lemma_concat_associative;
use vstd::utf8::{
    decode_utf8, decode_utf8_encode_utf8, encode_utf8, encode_utf8_decode_utf8,
    encode_utf8_valid_utf8, valid_utf8,
};

verus! {

/// The tag byte of a borrow-loan instruction.
pub const TAG_BORROW_LOAN: u8 = 0;

/// The four bytes of an amount, least significant first.
pub open spec fn u32_bytes(v: u32) -> Seq<u8> {
    seq![
        (v as int % 256) as u8,
        (v as int / 256 % 256) as u8,
        (v as int / 65536 % 256) as u8,
        (v as int / 16777216) as u8,
    ]
}

/// The amount that the first four bytes of `s` stand for.
pub open spec fn u32_value(s: Seq<u8>) -> u32
    recommends
        s.len() >= 4,
{
    (s[0] + 256 * s[1] + 65536 * s[2] + 16777216 * s[3]) as u32
}

/// A length-prefixed run of bytes.
pub open spec fn blob_bytes(b: Seq<u8>) -> Seq<u8>
    recommends
        b.len() <= u32::MAX,
{
    u32_bytes(b.len() as u32) + b
}

/// Whether the UTF-8 encoding of `s` is short enough for a length prefix.
pub open spec fn text_fits(s: Seq<char>) -> bool {
    encode_utf8(s).len() <= u32::MAX
}

/// A length-prefixed text in UTF-8.
pub open spec fn text_bytes(s: Seq<char>) -> Seq<u8>
    recommends
        text_fits(s),
{
    blob_bytes(encode_utf8(s))
}

/// Whether a wallet can be written: its address fits a length prefix.
pub open spec fn wallet_fits(w: WalletModel) -> bool {
    text_fits(w.wallet_address)
}

/// The snapshot of a wallet: its address, then its balance.
pub open spec fn wallet_bytes(w: WalletModel) -> Seq<u8>
    recommends
        wallet_fits(w),
{
    text_bytes(w.wallet_address) + u32_bytes(w.balance)
}

/// The six amounts of a request, in the order in which they are written:
/// the collateral's price, the borrower's own payment, the loan, the time to
/// repay, the interest, the fee.
pub open spec fn amounts_of(p: BorrowLoanModel) -> (u32, u32, u32, u32, u32, u32) {
    (p.nft_price, p.borrower_pay_amount, p.loan_amount, p.repay_duration, p.interest, p.fee)
}

/// Six amounts, one after another.
pub open spec fn amounts_bytes(a: (u32, u32, u32, u32, u32, u32)) -> Seq<u8> {
    u32_bytes(a.0) + u32_bytes(a.1) + u32_bytes(a.2) + u32_bytes(a.3) + u32_bytes(a.4)
        + u32_bytes(a.5)
}

/// Whether a request can be written: each variable-length field fits a length prefix.
pub open spec fn borrow_loan_fits(p: BorrowLoanModel) -> bool {
    &&& wallet_fits(p.borrower_wallet)
    &&& text_fits(p.nft_id)
    &&& p.tx_hex.len() <= u32::MAX
}

/// A request: the wallet, the collateral's identifier, the six amounts, the transaction.
pub open spec fn borrow_loan_bytes(p: BorrowLoanModel) -> Seq<u8>
    recommends
        borrow_loan_fits(p),
{
    wallet_bytes(p.borrower_wallet) + text_bytes(p.nft_id) + amounts_bytes(amounts_of(p))
        + blob_bytes(p.tx_hex)
}

/// Whether an instruction can be written.
pub open spec fn instruction_fits(i: InstructionModel) -> bool {
    match i {
        InstructionModel::BorrowLoan(p) => borrow_loan_fits(p),
    }
}

/// An instruction: the tag of its kind, then its record.
pub open spec fn instruction_bytes(i: InstructionModel) -> Seq<u8>
    recommends
        instruction_fits(i),
{
    match i {
        InstructionModel::BorrowLoan(p) => seq![TAG_BORROW_LOAN] + borrow_loan_bytes(p),
    }
}

/// Reads an amount off the front of `s`.
pub open spec fn take_u32(s: Seq<u8>) -> Option<(u32, Seq<u8>)> {
    if s.len() >= 4 {
        Some((u32_value(s), s.skip(4)))
    } else {
        None
    }
}

/// Reads a blob off the front of `s`: none where the length or the bytes are cut short.
pub open spec fn take_blob(s: Seq<u8>) -> Option<(Seq<u8>, Seq<u8>)> {
    match take_u32(s) {
        Some((n, rest)) => if n <= rest.len() {
            Some((rest.take(n as int), rest.skip(n as int)))
        } else {
            None
        },
        None => None,
    }
}

/// Reads a text off the front of `s`: none where the blob is cut short or is not UTF-8.
pub open spec fn take_text(s: Seq<u8>) -> Option<(Seq<char>, Seq<u8>)> {
    match take_blob(s) {
        Some((b, rest)) => if valid_utf8(b) {
            Some((decode_utf8(b), rest))
        } else {
            None
        },
        None => None,
    }
}

/// Reads a wallet off the front of `s`.
pub open spec fn take_wallet(s: Seq<u8>) -> Option<(WalletModel, Seq<u8>)> {
    match take_text(s) {
        Some((wallet_address, rest)) => match take_u32(rest) {
            Some((balance, rest)) => Some((WalletModel { wallet_address, balance }, rest)),
            None => None,
        },
        None => None,
    }
}

/// Reads six amounts off the front of `s`.
pub open spec fn take_amounts(s: Seq<u8>) -> Option<((u32, u32, u32, u32, u32, u32), Seq<u8>)> {
    match take_u32(s) {
        Some((a0, s1)) => match take_u32(s1) {
            Some((a1, s2)) => match take_u32(s2) {
                Some((a2, s3)) => match take_u32(s3) {
                    Some((a3, s4)) => match take_u32(s4) {
                        Some((a4, s5)) => match take_u32(s5) {
                            Some((a5, rest)) => Some(((a0, a1, a2, a3, a4, a5), rest)),
                            None => None,
                        },
                        None => None,
                    },
                    None => None,
                },
                None => None,
            },
            None => None,
        },
        None => None,
    }
}

/// Reads a request off the front of `s`.
pub open spec fn take_borrow_loan(s: Seq<u8>) -> Option<(BorrowLoanModel, Seq<u8>)> {
    match take_wallet(s) {
        Some((borrower_wallet, s1)) => match take_text(s1) {
            Some((nft_id, s2)) => match take_amounts(s2) {
                Some((a, s3)) => match take_blob(s3) {
                    Some((tx_hex, rest)) => Some(
                        (
                            BorrowLoanModel {
                                borrower_wallet,
                                nft_id,
                                nft_price: a.0,
                                borrower_pay_amount: a.1,
                                loan_amount: a.2,
                                repay_duration: a.3,
                                interest: a.4,
                                fee: a.5,
                                tx_hex,
                            },
                            rest,
                        ),
                    ),
                    None => None,
                },
                None => None,
            },
            None => None,
        },
        None => None,
    }
}

/// The wallet that `s` is the snapshot of: none where `s` is cut short, holds
/// an address that is not UTF-8, or goes on after the balance.
pub open spec fn parse_wallet(s: Seq<u8>) -> Option<WalletModel> {
    match take_wallet(s) {
        Some((w, rest)) => if rest.len() == 0 {
            Some(w)
        } else {
            None
        },
        None => None,
    }
}

/// The instruction that `s` encodes: none where `s` is empty, has an unknown
/// tag, is cut short, holds a text that is not UTF-8, or goes on after the
/// last field.
pub open spec fn parse_instruction(s: Seq<u8>) -> Option<InstructionModel> {
    if s.len() >= 1 && s[0] == TAG_BORROW_LOAN {
        match take_borrow_loan(s.skip(1)) {
            Some((p, rest)) => if rest.len() == 0 {
                Some(InstructionModel::BorrowLoan(p))
            } else {
                None
            },
            None => None,
        }
    } else {
        None
    }
}

/// Four digits below 256 are the digits of their weighted sum.
proof fn lemma_digits_of_sum(b0: int, b1: int, b2: int, b3: int)
    requires
        0 <= b0 < 256,
        0 <= b1 < 256,
        0 <= b2 < 256,
        0 <= b3 < 256,
    ensures
        ({
            let v = b0 + 256 * b1 + 65536 * b2 + 16777216 * b3;
            &&& 0 <= v <= u32::MAX
            &&& v % 256 == b0
            &&& v / 256 % 256 == b1
            &&& v / 65536 % 256 == b2
            &&& v / 16777216 == b3
        }),
{
    let v = b0 + 256 * b1 + 65536 * b2 + 16777216 * b3;
    lemma_fundamental_div_mod_converse(v, 256, b1 + 256 * b2 + 65536 * b3, b0);
    lemma_fundamental_div_mod_converse(b1 + 256 * b2 + 65536 * b3, 256, b2 + 256 * b3, b1);
    lemma_fundamental_div_mod_converse(v, 65536, b2 + 256 * b3, b0 + 256 * b1);
    lemma_fundamental_div_mod_converse(b2 + 256 * b3, 256, b3, b2);
    lemma_fundamental_div_mod_converse(v, 16777216, b3, b0 + 256 * b1 + 65536 * b2);
}

/// An amount is the weighted sum of its four digits.
proof fn lemma_sum_of_digits(v: int)
    requires
        0 <= v <= u32::MAX,
    ensures
        0 <= v / 16777216 < 256,
        v == v % 256 + 256 * (v / 256 % 256) + 65536 * (v / 65536 % 256) + 16777216 * (v
            / 16777216),
{
    let b3 = v / 16777216;
    let low3 = v % 16777216;
    let b2 = low3 / 65536;
    let low2 = low3 % 65536;
    let b1 = low2 / 256;
    let b0 = low2 % 256;
    assert(v == b0 + 256 * b1 + 65536 * b2 + 16777216 * b3);
    lemma_digits_of_sum(b0, b1, b2, b3);
}

/// Four bytes stand for one amount, and an amount for its four bytes.
pub proof fn lemma_u32_round_trip(v: u32)
    ensures
        u32_bytes(v).len() == 4,
        u32_value(u32_bytes(v)) == v,
{
    lemma_sum_of_digits(v as int);
}

/// The first four bytes of `s` are the bytes of the amount they stand for.
pub proof fn lemma_u32_bytes_of_value(s: Seq<u8>)
    requires
        s.len() >= 4,
    ensures
        u32_bytes(u32_value(s)) == s.take(4),
{
    lemma_digits_of_sum(s[0] as int, s[1] as int, s[2] as int, s[3] as int);
    assert(u32_bytes(u32_value(s)) =~= s.take(4));
}

/// An amount written in front of `rest` is read back, and `rest` is left.
pub proof fn lemma_take_u32_of_bytes(v: u32, rest: Seq<u8>)
    ensures
        take_u32(u32_bytes(v) + rest) == Some((v, rest)),
{
    let s = u32_bytes(v) + rest;
    lemma_u32_round_trip(v);
    assert(s.skip(4) =~= rest);
    assert(u32_value(s) == u32_value(u32_bytes(v)));
}

/// What was read as an amount is the amount's bytes, in front of what is left.
pub proof fn lemma_take_u32_is_bytes(s: Seq<u8>)
    requires
        take_u32(s) is Some,
    ensures
        s == u32_bytes(take_u32(s).unwrap().0) + take_u32(s).unwrap().1,
{
    lemma_u32_bytes_of_value(s);
    assert(s =~= s.take(4) + s.skip(4));
}

/// A blob written in front of `rest` is read back, and `rest` is left.
pub proof fn lemma_take_blob_of_bytes(b: Seq<u8>, rest: Seq<u8>)
    requires
        b.len() <= u32::MAX,
    ensures
        take_blob(blob_bytes(b) + rest) == Some((b, rest)),
{
    let n = b.len() as u32;
    let tail = b + rest;
    assert(blob_bytes(b) + rest =~= u32_bytes(n) + tail);
    lemma_take_u32_of_bytes(n, tail);
    assert(tail.take(n as int) =~= b);
    assert(tail.skip(n as int) =~= rest);
}

/// What was read as a blob is the blob's bytes, in front of what is left.
pub proof fn lemma_take_blob_is_bytes(s: Seq<u8>)
    requires
        take_blob(s) is Some,
    ensures
        ({
            let (b, rest) = take_blob(s).unwrap();
            b.len() <= u32::MAX && s == blob_bytes(b) + rest
        }),
{
    let (n, tail) = take_u32(s).unwrap();
    let (b, rest) = take_blob(s).unwrap();
    lemma_take_u32_is_bytes(s);
    assert(tail =~= b + rest);
    assert(s =~= blob_bytes(b) + rest);
}

/// A text written in front of `rest` is read back, and `rest` is left.
pub proof fn lemma_take_text_of_bytes(t: Seq<char>, rest: Seq<u8>)
    requires
        text_fits(t),
    ensures
        take_text(text_bytes(t) + rest) == Some((t, rest)),
{
    lemma_take_blob_of_bytes(encode_utf8(t), rest);
    encode_utf8_valid_utf8(t);
    encode_utf8_decode_utf8(t);
}

/// What was read as a text is the text's bytes, in front of what is left.
pub proof fn lemma_take_text_is_bytes(s: Seq<u8>)
    requires
        take_text(s) is Some,
    ensures
        ({
            let (t, rest) = take_text(s).unwrap();
            text_fits(t) && s == text_bytes(t) + rest
        }),
{
    let (b, rest) = take_blob(s).unwrap();
    lemma_take_blob_is_bytes(s);
    decode_utf8_encode_utf8(b);
}

/// A wallet written in front of `rest` is read back, and `rest` is left.
pub proof fn lemma_take_wallet_of_bytes(w: WalletModel, rest: Seq<u8>)
    requires
        wallet_fits(w),
    ensures
        take_wallet(wallet_bytes(w) + rest) == Some((w, rest)),
{
    let tail = u32_bytes(w.balance) + rest;
    assert(wallet_bytes(w) + rest =~= text_bytes(w.wallet_address) + tail);
    lemma_take_text_of_bytes(w.wallet_address, tail);
    lemma_take_u32_of_bytes(w.balance, rest);
}

/// What was read as a wallet is the wallet's bytes, in front of what is left.
pub proof fn lemma_take_wallet_is_bytes(s: Seq<u8>)
    requires
        take_wallet(s) is Some,
    ensures
        ({
            let (w, rest) = take_wallet(s).unwrap();
            wallet_fits(w) && s == wallet_bytes(w) + rest
        }),
{
    let (t, tail) = take_text(s).unwrap();
    let (w, rest) = take_wallet(s).unwrap();
    lemma_take_text_is_bytes(s);
    lemma_take_u32_is_bytes(tail);
    assert(s =~= wallet_bytes(w) + rest);
}

/// Six amounts written in front of `rest` are read back, and `rest` is left.
pub proof fn lemma_take_amounts_of_bytes(a: (u32, u32, u32, u32, u32, u32), rest: Seq<u8>)
    ensures
        take_amounts(amounts_bytes(a) + rest) == Some((a, rest)),
{
    let s5 = u32_bytes(a.5) + rest;
    let s4 = u32_bytes(a.4) + s5;
    let s3 = u32_bytes(a.3) + s4;
    let s2 = u32_bytes(a.2) + s3;
    let s1 = u32_bytes(a.1) + s2;
    let h1 = u32_bytes(a.0) + u32_bytes(a.1);
    let h2 = h1 + u32_bytes(a.2);
    let h3 = h2 + u32_bytes(a.3);
    let h4 = h3 + u32_bytes(a.4);
    lemma_concat_associative(h4, u32_bytes(a.5), rest);
    lemma_concat_associative(h3, u32_bytes(a.4), s5);
    lemma_concat_associative(h2, u32_bytes(a.3), s4);
    lemma_concat_associative(h1, u32_bytes(a.2), s3);
    lemma_concat_associative(u32_bytes(a.0), u32_bytes(a.1), s2);
    assert(amounts_bytes(a) + rest == u32_bytes(a.0) + s1);
    lemma_take_u32_of_bytes(a.0, s1);
    lemma_take_u32_of_bytes(a.1, s2);
    lemma_take_u32_of_bytes(a.2, s3);
    lemma_take_u32_of_bytes(a.3, s4);
    lemma_take_u32_of_bytes(a.4, s5);
    lemma_take_u32_of_bytes(a.5, rest);
}

/// What was read as six amounts is their bytes, in front of what is left.
pub proof fn lemma_take_amounts_is_bytes(s: Seq<u8>)
    requires
        take_amounts(s) is Some,
    ensures
        ({
            let (a, rest) = take_amounts(s).unwrap();
            s == amounts_bytes(a) + rest
        }),
{
    let (a, rest) = take_amounts(s).unwrap();
    let s1 = take_u32(s).unwrap().1;
    let s2 = take_u32(s1).unwrap().1;
    let s3 = take_u32(s2).unwrap().1;
    let s4 = take_u32(s3).unwrap().1;
    let s5 = take_u32(s4).unwrap().1;
    lemma_take_u32_is_bytes(s);
    lemma_take_u32_is_bytes(s1);
    lemma_take_u32_is_bytes(s2);
    lemma_take_u32_is_bytes(s3);
    lemma_take_u32_is_bytes(s4);
    lemma_take_u32_is_bytes(s5);
    let h1 = u32_bytes(a.0) + u32_bytes(a.1);
    let h2 = h1 + u32_bytes(a.2);
    let h3 = h2 + u32_bytes(a.3);
    let h4 = h3 + u32_bytes(a.4);
    lemma_concat_associative(u32_bytes(a.0), u32_bytes(a.1), s2);
    lemma_concat_associative(h1, u32_bytes(a.2), s3);
    lemma_concat_associative(h2, u32_bytes(a.3), s4);
    lemma_concat_associative(h3, u32_bytes(a.4), s5);
    lemma_concat_associative(h4, u32_bytes(a.5), rest);
}

/// A request written in front of `rest` is read back, and `rest` is left.
pub proof fn lemma_take_borrow_loan_of_bytes(p: BorrowLoanModel, rest: Seq<u8>)
    requires
        borrow_loan_fits(p),
    ensures
        take_borrow_loan(borrow_loan_bytes(p) + rest) == Some((p, rest)),
{
    let w = wallet_bytes(p.borrower_wallet);
    let t = text_bytes(p.nft_id);
    let a = amounts_bytes(amounts_of(p));
    let b = blob_bytes(p.tx_hex);
    let s3 = b + rest;
    let s2 = a + s3;
    let s1 = t + s2;
    lemma_concat_associative(w + t + a, b, rest);
    lemma_concat_associative(w + t, a, s3);
    lemma_concat_associative(w, t, s2);
    assert(borrow_loan_bytes(p) + rest == w + s1);
    lemma_take_wallet_of_bytes(p.borrower_wallet, s1);
    lemma_take_text_of_bytes(p.nft_id, s2);
    lemma_take_amounts_of_bytes(amounts_of(p), s3);
    lemma_take_blob_of_bytes(p.tx_hex, rest);
}

/// What was read as a request is the request's bytes, in front of what is left.
pub proof fn lemma_take_borrow_loan_is_bytes(s: Seq<u8>)
    requires
        take_borrow_loan(s) is Some,
    ensures
        ({
            let (p, rest) = take_borrow_loan(s).unwrap();
            borrow_loan_fits(p) && s == borrow_loan_bytes(p) + rest
        }),
{
    let (p, rest) = take_borrow_loan(s).unwrap();
    let s1 = take_wallet(s).unwrap().1;
    let s2 = take_text(s1).unwrap().1;
    let s3 = take_amounts(s2).unwrap().1;
    lemma_take_wallet_is_bytes(s);
    lemma_take_text_is_bytes(s1);
    lemma_take_amounts_is_bytes(s2);
    lemma_take_blob_is_bytes(s3);
    let w = wallet_bytes(p.borrower_wallet);
    let t = text_bytes(p.nft_id);
    let a = amounts_bytes(amounts_of(p));
    let b = blob_bytes(p.tx_hex);
    assert(take_amounts(s2).unwrap().0 == amounts_of(p));
    lemma_concat_associative(w, t, s2);
    lemma_concat_associative(w + t, a, s3);
    lemma_concat_associative(w + t + a, b, rest);
}

/// A sequence is its first item in front of the others.
proof fn lemma_split_first(s: Seq<u8>)
    requires
        s.len() >= 1,
    ensures
        s == seq![s[0]] + s.skip(1),
        (seq![s[0]] + s.skip(1)).skip(1) == s.skip(1),
{
    assert(s =~= seq![s[0]] + s.skip(1));
}

/// Nothing is added by an empty sequence.
proof fn lemma_empty_rest(s: Seq<u8>, rest: Seq<u8>)
    requires
        rest.len() == 0,
    ensures
        s + rest == s,
{
    assert(s + rest =~= s);
}

/// Reading the snapshot of a wallet gives the wallet back.
pub proof fn law_wallet_round_trip(w: WalletModel)
    requires
        wallet_fits(w),
    ensures
        parse_wallet(wallet_bytes(w)) == Some(w),
{
    lemma_take_wallet_of_bytes(w, Seq::empty());
    lemma_empty_rest(wallet_bytes(w), Seq::empty());
}

/// Only the snapshot of a wallet is read as that wallet: the bytes that are
/// accepted are the ones that writing the result gives.
pub proof fn law_wallet_canonical(s: Seq<u8>)
    requires
        parse_wallet(s) is Some,
    ensures
        wallet_fits(parse_wallet(s).unwrap()),
        wallet_bytes(parse_wallet(s).unwrap()) == s,
{
    lemma_take_wallet_is_bytes(s);
    let (w, rest) = take_wallet(s).unwrap();
    lemma_empty_rest(wallet_bytes(w), rest);
}

/// Reading the encoding of an instruction gives the instruction back.
pub proof fn law_instruction_round_trip(i: InstructionModel)
    requires
        instruction_fits(i),
    ensures
        parse_instruction(instruction_bytes(i)) == Some(i),
{
    match i {
        InstructionModel::BorrowLoan(p) => {
            let body = borrow_loan_bytes(p);
            let s = seq![TAG_BORROW_LOAN] + body;
            assert(s[0] == TAG_BORROW_LOAN);
            assert(s.skip(1) =~= body);
            lemma_take_borrow_loan_of_bytes(p, Seq::empty());
            lemma_empty_rest(body, Seq::empty());
        },
    }
}

/// Only the encoding of an instruction is read as that instruction.
pub proof fn law_instruction_canonical(s: Seq<u8>)
    requires
        parse_instruction(s) is Some,
    ensures
        instruction_fits(parse_instruction(s).unwrap()),
        instruction_bytes(parse_instruction(s).unwrap()) == s,
{
    let tail = s.skip(1);
    lemma_take_borrow_loan_is_bytes(tail);
    let (p, rest) = take_borrow_loan(tail).unwrap();
    lemma_empty_rest(borrow_loan_bytes(p), rest);
    lemma_split_first(s);
}

} // verus!
