use loan_settlement::{
    decode_instruction, decode_wallet, encode_instruction, encode_wallet, BorrowLoanParams,
    DecodeError, Wallet, WalletInstruction,
};

fn sample_params() -> BorrowLoanParams {
    BorrowLoanParams {
        borrower_wallet: Wallet { wallet_address: "a".to_string(), balance: 1000 },
        nft_id: "n".to_string(),
        nft_price: 500,
        borrower_pay_amount: 100,
        loan_amount: 400,
        repay_duration: 30,
        interest: 10,
        fee: 20,
        tx_hex: vec![0xAA, 0xBB],
    }
}

fn sample_bytes() -> Vec<u8> {
    vec![
        0, // tag
        1, 0, 0, 0, 0x61, // address
        0xE8, 0x03, 0, 0, // balance
        1, 0, 0, 0, 0x6E, // collateral identifier
        0xF4, 0x01, 0, 0, // collateral price
        100, 0, 0, 0, // borrower's own payment
        0x90, 0x01, 0, 0, // loan
        30, 0, 0, 0, // time to repay
        10, 0, 0, 0, // interest
        20, 0, 0, 0, // fee
        2, 0, 0, 0, 0xAA, 0xBB, // transaction
    ]
}

fn assert_same_params(a: &BorrowLoanParams, b: &BorrowLoanParams) {
    assert_eq!(a.borrower_wallet.wallet_address, b.borrower_wallet.wallet_address);
    assert_eq!(a.borrower_wallet.balance, b.borrower_wallet.balance);
    assert_eq!(a.nft_id, b.nft_id);
    assert_eq!(a.nft_price, b.nft_price);
    assert_eq!(a.borrower_pay_amount, b.borrower_pay_amount);
    assert_eq!(a.loan_amount, b.loan_amount);
    assert_eq!(a.repay_duration, b.repay_duration);
    assert_eq!(a.interest, b.interest);
    assert_eq!(a.fee, b.fee);
    assert_eq!(a.tx_hex, b.tx_hex);
}

#[test]
fn wallet_snapshot_has_the_documented_bytes() {
    let wallet = Wallet { wallet_address: "ab".to_string(), balance: 880 };
    assert_eq!(encode_wallet(&wallet).unwrap(), vec![2, 0, 0, 0, 0x61, 0x62, 0x70, 0x03, 0, 0]);
}

#[test]
fn amounts_are_written_least_significant_byte_first() {
    let wallet = Wallet { wallet_address: String::new(), balance: 0x0102_0304 };
    assert_eq!(encode_wallet(&wallet).unwrap(), vec![0, 0, 0, 0, 4, 3, 2, 1]);
    let wallet = Wallet { wallet_address: String::new(), balance: u32::MAX };
    assert_eq!(encode_wallet(&wallet).unwrap(), vec![0, 0, 0, 0, 255, 255, 255, 255]);
    let wallet = Wallet { wallet_address: String::new(), balance: 256 };
    assert_eq!(encode_wallet(&wallet).unwrap(), vec![0, 0, 0, 0, 0, 1, 0, 0]);
}

#[test]
fn wallet_round_trip() {
    let balances: [u32; 6] = [0, 1, 255, 256, 880, u32::MAX];
    let addresses = ["", "a", "bc1qexyqtwyxrey8jkq9qmrnu4jtuwqkyusm5adgdn", "caf\u{e9} \u{1F600}"];
    for balance in balances {
        for address in addresses {
            let wallet = Wallet { wallet_address: address.to_string(), balance };
            let bytes = encode_wallet(&wallet).unwrap();
            let back = decode_wallet(&bytes).unwrap();
            assert_eq!(back.wallet_address, address);
            assert_eq!(back.balance, balance);
            assert_eq!(encode_wallet(&back).unwrap(), bytes);
        }
    }
}

#[test]
fn wallet_snapshot_is_the_same_on_every_call() {
    let wallet = Wallet { wallet_address: "bc1q".to_string(), balance: 12345 };
    assert_eq!(encode_wallet(&wallet).unwrap(), encode_wallet(&wallet.clone()).unwrap());
}

#[test]
fn multi_byte_text_is_counted_in_bytes() {
    let wallet = Wallet { wallet_address: "\u{e9}".to_string(), balance: 1 };
    assert_eq!(encode_wallet(&wallet).unwrap(), vec![2, 0, 0, 0, 0xC3, 0xA9, 1, 0, 0, 0]);
    let back = decode_wallet(&[2, 0, 0, 0, 0xC3, 0xA9, 1, 0, 0, 0]).unwrap();
    assert_eq!(back.wallet_address, "\u{e9}");
    assert_eq!(back.wallet_address.chars().count(), 1);
}

#[test]
fn wallet_with_bad_bytes_is_refused() {
    assert_eq!(decode_wallet(&[]).err(), Some(DecodeError));
    assert_eq!(decode_wallet(&[0, 0, 0]).err(), Some(DecodeError));
    assert_eq!(decode_wallet(&[0, 0, 0, 0]).err(), Some(DecodeError));
    assert_eq!(decode_wallet(&[0, 0, 0, 0, 1, 2, 3]).err(), Some(DecodeError));
    assert_eq!(decode_wallet(&[0, 0, 0, 0, 1, 2, 3, 4, 5]).err(), Some(DecodeError));
    assert_eq!(decode_wallet(&[1, 0, 0, 0, 0xFF, 1, 2, 3, 4]).err(), Some(DecodeError));
    assert_eq!(decode_wallet(&[2, 0, 0, 0, 0xC3, 1, 2, 3, 4]).err(), Some(DecodeError));
    assert_eq!(decode_wallet(&[255, 255, 255, 255, 0x61, 1, 2, 3, 4]).err(), Some(DecodeError));
    assert_eq!(decode_wallet(&[0, 0, 0, 0, 1, 2, 3, 4]).unwrap().balance, 0x0403_0201);
}

#[test]
fn instruction_has_the_documented_bytes() {
    let instruction = WalletInstruction::BorrowLoan(sample_params());
    assert_eq!(encode_instruction(&instruction).unwrap(), sample_bytes());
}

#[test]
fn instruction_is_read_field_by_field() {
    match decode_instruction(&sample_bytes()).unwrap() {
        WalletInstruction::BorrowLoan(params) => assert_same_params(&params, &sample_params()),
    }
}

#[test]
fn instruction_round_trip() {
    let mut params = sample_params();
    params.borrower_wallet.wallet_address = "bc1qexyqtwyxrey8jkq9qmrnu4jtuwqkyusm5adgdn".to_string();
    params.nft_id = "nft123 \u{2713}".to_string();
    params.nft_price = u32::MAX;
    params.tx_hex = (0..=255u8).collect();
    let bytes = encode_instruction(&WalletInstruction::BorrowLoan(params.clone())).unwrap();
    match decode_instruction(&bytes).unwrap() {
        WalletInstruction::BorrowLoan(back) => {
            assert_same_params(&back, &params);
            assert_eq!(encode_instruction(&WalletInstruction::BorrowLoan(back)).unwrap(), bytes);
        }
    }
}

#[test]
fn tx_hex_is_the_carried_transaction() {
    let instruction = WalletInstruction::BorrowLoan(sample_params());
    assert_eq!(instruction.tx_hex(), vec![0xAA, 0xBB]);
    let mut params = sample_params();
    params.tx_hex = vec![];
    assert_eq!(WalletInstruction::BorrowLoan(params).tx_hex(), Vec::<u8>::new());
}

#[test]
fn empty_instruction_is_refused() {
    assert_eq!(decode_instruction(&[]).err(), Some(DecodeError));
}

#[test]
fn instruction_cut_after_the_tag_is_refused() {
    assert_eq!(decode_instruction(&[0]).err(), Some(DecodeError));
}

#[test]
fn unknown_tag_is_refused() {
    let mut bytes = sample_bytes();
    bytes[0] = 1;
    assert_eq!(decode_instruction(&bytes).err(), Some(DecodeError));
    bytes[0] = 255;
    assert_eq!(decode_instruction(&bytes).err(), Some(DecodeError));
}

#[test]
fn every_proper_prefix_of_an_instruction_is_refused() {
    let bytes = sample_bytes();
    let mut cut: usize = 0;
    while cut < bytes.len() {
        assert_eq!(decode_instruction(&bytes[..cut]).err(), Some(DecodeError));
        cut += 1;
    }
    assert!(decode_instruction(&bytes).is_ok());
}

#[test]
fn bytes_after_the_last_field_are_refused() {
    let mut bytes = sample_bytes();
    bytes.push(0);
    assert_eq!(decode_instruction(&bytes).err(), Some(DecodeError));
}

#[test]
fn text_that_is_not_utf8_is_refused() {
    let mut bytes = sample_bytes();
    bytes[5] = 0xFF;
    assert_eq!(decode_instruction(&bytes).err(), Some(DecodeError));
    let mut bytes = sample_bytes();
    bytes[14] = 0x80;
    assert_eq!(decode_instruction(&bytes).err(), Some(DecodeError));
}

#[test]
fn length_beyond_the_input_is_refused() {
    let mut bytes = sample_bytes();
    bytes[1] = 255;
    bytes[2] = 255;
    bytes[3] = 255;
    bytes[4] = 255;
    assert_eq!(decode_instruction(&bytes).err(), Some(DecodeError));
    let mut bytes = sample_bytes();
    let at = bytes.len() - 6;
    bytes[at] = 3;
    assert_eq!(decode_instruction(&bytes).err(), Some(DecodeError));
}

#[test]
fn wallet_snapshot_agrees_with_borsh() {
    let wallet = Wallet {
        wallet_address: "bc1qexyqtwyxrey8jkq9qmrnu4jtuwqkyusm5adgdn".to_string(),
        balance: 880,
    };
    let ours = encode_wallet(&wallet).unwrap();
    let theirs = borsh::to_vec(&(wallet.wallet_address.clone(), wallet.balance)).unwrap();
    assert_eq!(ours, theirs);
    let (address, balance) = borsh::from_slice::<(String, u32)>(&ours).unwrap();
    assert_eq!(address, wallet.wallet_address);
    assert_eq!(balance, 880);
}

#[test]
fn instruction_agrees_with_borsh() {
    let params = sample_params();
    let theirs = borsh::to_vec(&(
        0u8,
        (params.borrower_wallet.wallet_address.clone(), params.borrower_wallet.balance),
        params.nft_id.clone(),
        params.nft_price,
        params.borrower_pay_amount,
        params.loan_amount,
        params.repay_duration,
        params.interest,
        params.fee,
        params.tx_hex.clone(),
    ))
    .unwrap();
    assert_eq!(encode_instruction(&WalletInstruction::BorrowLoan(params.clone())).unwrap(), theirs);
    match decode_instruction(&theirs).unwrap() {
        WalletInstruction::BorrowLoan(back) => assert_same_params(&back, &params),
    }
}

#[test]
fn refusals_agree_with_borsh() {
    let bytes = sample_bytes();
    let mut cut: usize = 1;
    while cut <= bytes.len() + 1 {
        let mut input = bytes.clone();
        input.push(0);
        input.truncate(cut);
        let theirs = borsh::from_slice::<(
            (String, u32),
            String,
            u32,
            u32,
            u32,
            u32,
            u32,
            u32,
            Vec<u8>,
        )>(&input[1..]);
        assert_eq!(decode_instruction(&input).is_ok(), theirs.is_ok());
        cut += 1;
    }
}
