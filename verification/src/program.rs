//! One invocation of the program: decode, settle, validate, commit.

use crate::account::{InstructionModel, Wallet, WalletInstruction, WalletModel};
use crate::codec::{decode_instruction, put_wallet};
use crate::envelope::{consensus_decoding, parse, serialize, FormatError};
use crate::settlement::{settled, settlement_model, BorrowLoan, SettlementError};
use crate::wire::{parse_instruction, wallet_bytes, wallet_fits};
use vstd::prelude::*;

verus! {

/// A cell of ledger state that the host lends to the program for one
/// invocation. The program writes to it; it never makes or drops one.
#[derive(Clone, Debug)]
pub struct StorageSlot {
    pub data: Vec<u8>,
}

/// Why an invocation was refused. Nothing is written in any of these cases.
#[derive(Clone, Copy, Debug, PartialEq, Eq, Structural)]
pub enum ProgramError {
    /// The instruction bytes are not the encoding of an instruction.
    Decode,
    /// The embedded transaction is not in the ledger's consensus encoding.
    Format,
    /// The wallet holds less than the payment that is due.
    InsufficientFunds,
    /// The payment that is due does not fit the ledger's 32-bit amounts.
    ArithmeticFault,
}

/// What the slots hold, slot by slot.
pub open spec fn images(slots: Seq<StorageSlot>) -> Seq<Seq<u8>> {
    Seq::new(slots.len(), |i: int| slots[i].data@)
}

/// What the slots hold once `snapshot` was written into each: as many slots
/// as before, each holding `snapshot`.
pub open spec fn overwritten(before: Seq<Seq<u8>>, snapshot: Seq<u8>) -> Seq<Seq<u8>> {
    Seq::new(before.len(), |i: int| snapshot)
}

/// The program's error for a refusal of the loan rule.
pub open spec fn refusal(error: SettlementError) -> ProgramError {
    match error {
        SettlementError::InsufficientFunds => ProgramError::InsufficientFunds,
        SettlementError::ArithmeticFault => ProgramError::ArithmeticFault,
    }
}

/// What the handler of an instruction's kind gives.
pub open spec fn dispatched(instruction: InstructionModel) -> Result<
    WalletModel,
    SettlementError,
> {
    match instruction {
        InstructionModel::BorrowLoan(request) => settled(request),
    }
}

/// The validated transaction's bytes, as contracts see them.
pub open spec fn envelope_model(envelope: Result<Vec<u8>, FormatError>) -> Option<Seq<u8>> {
    match envelope {
        Ok(payload) => Some(payload@),
        Err(_) => None,
    }
}

/// What an invocation comes to, given what the loan rule and the ledger's
/// decoder said: the snapshot to write and the payload to return, or the
/// refusal. A refusal of the loan rule goes before one of the decoder.
pub open spec fn committed(
    settlement: Result<WalletModel, SettlementError>,
    envelope: Option<Seq<u8>>,
) -> Result<(Seq<u8>, Seq<u8>), ProgramError> {
    match settlement {
        Err(error) => Err(refusal(error)),
        Ok(wallet) => match envelope {
            None => Err(ProgramError::Format),
            Some(payload) => Ok((wallet_bytes(wallet), payload)),
        },
    }
}

/// What an invocation on `data` comes to: the snapshot to write and the
/// payload to return, or the refusal. Bytes that are no instruction are
/// refused before anything else is looked at.
pub open spec fn invocation(data: Seq<u8>) -> Result<(Seq<u8>, Seq<u8>), ProgramError> {
    match parse_instruction(data) {
        None => Err(ProgramError::Decode),
        Some(instruction) => committed(
            dispatched(instruction),
            consensus_decoding(instruction.tx_hex()),
        ),
    }
}

/// Slots that were written with one snapshot are byte-identical.
pub proof fn law_written_slots_identical(before: Seq<Seq<u8>>, snapshot: Seq<u8>)
    ensures
        forall|i: int, j: int|
            0 <= i < before.len() && 0 <= j < before.len() ==> #[trigger] overwritten(
                before,
                snapshot,
            )[i] == #[trigger] overwritten(before, snapshot)[j],
{
}

/// Writing the same snapshot a second time changes nothing.
pub proof fn law_commit_idempotent(before: Seq<Seq<u8>>, snapshot: Seq<u8>)
    ensures
        overwritten(overwritten(before, snapshot), snapshot) == overwritten(before, snapshot),
{
    assert(overwritten(overwritten(before, snapshot), snapshot) =~= overwritten(
        before,
        snapshot,
    ));
}

/// Routes an instruction to the handler of its kind.
pub fn dispatch(instruction: WalletInstruction) -> (outcome: Result<Wallet, SettlementError>)
    ensures
        settlement_model(outcome) == dispatched(instruction@),
{
    match instruction {
        WalletInstruction::BorrowLoan(params) => BorrowLoan(params),
    }
}

/// Writes `snapshot` into every slot, in order.
pub fn write_all(slots: &mut Vec<StorageSlot>, snapshot: &Vec<u8>)
    ensures
        images(final(slots)@) == overwritten(images(old(slots)@), snapshot@),
{
    let mut i: usize = 0;
    while i < slots.len()
        invariant
            slots@.len() == old(slots)@.len(),
            0 <= i <= slots@.len(),
            forall|j: int| 0 <= j < i ==> (#[trigger] slots@[j]).data@ == snapshot@,
        decreases slots@.len() - i,
    {
        let data = snapshot.clone();
        assert(data@ =~= snapshot@);
        slots[i] = StorageSlot { data };
        i += 1;
    }
    assert(images(slots@) =~= overwritten(images(old(slots)@), snapshot@));
}

/// Binds the outcome of an invocation to the slots that the host supplied.
///
/// Where the loan rule refused, or the ledger's decoder refused the embedded
/// transaction, no slot is touched and the refusal is returned, the loan
/// rule's first. Otherwise the wallet's snapshot is written into every slot,
/// in order, and the transaction's bytes are returned.
pub fn commit(
    slots: &mut Vec<StorageSlot>,
    settlement: Result<Wallet, SettlementError>,
    envelope: Result<Vec<u8>, FormatError>,
) -> (returned: Result<Vec<u8>, ProgramError>)
    requires
        settlement matches Ok(wallet) ==> wallet_fits(wallet@),
    ensures
        match returned {
            Ok(payload) => {
                &&& committed(settlement_model(settlement), envelope_model(envelope)) matches Ok(
                    (snapshot, sent),
                )
                &&& sent == payload@
                &&& images(final(slots)@) == overwritten(images(old(slots)@), snapshot)
            },
            Err(error) => {
                &&& committed(settlement_model(settlement), envelope_model(envelope)) == Err::<
                    (Seq<u8>, Seq<u8>),
                    ProgramError,
                >(error)
                &&& *final(slots) == *old(slots)
            },
        },
{
    match settlement {
        Err(SettlementError::InsufficientFunds) => Err(ProgramError::InsufficientFunds),
        Err(SettlementError::ArithmeticFault) => Err(ProgramError::ArithmeticFault),
        Ok(wallet) => match envelope {
            Err(_) => Err(ProgramError::Format),
            Ok(payload) => {
                let mut snapshot: Vec<u8> = Vec::new();
                put_wallet(&mut snapshot, &wallet);
                assert(snapshot@ =~= wallet_bytes(wallet@));
                write_all(slots, &snapshot);
                Ok(payload)
            },
        },
    }
}

/// Runs one invocation: decodes the instruction, settles it, has the ledger's
/// decoder validate the embedded transaction, and commits.
///
/// On success every slot holds the snapshot of the settled wallet and the
/// transaction is returned in the ledger's consensus encoding. On any refusal
/// no slot is touched. The program's identifier plays no part.
pub fn handler(
    _program_id: &[u8],
    slots: &mut Vec<StorageSlot>,
    instruction_data: &[u8],
) -> (returned: Result<Vec<u8>, ProgramError>)
    ensures
        match returned {
            Ok(payload) => {
                &&& invocation(instruction_data@) matches Ok((snapshot, sent))
                &&& sent == payload@
                &&& images(final(slots)@) == overwritten(images(old(slots)@), snapshot)
            },
            Err(error) => {
                &&& invocation(instruction_data@) == Err::<(Seq<u8>, Seq<u8>), ProgramError>(error)
                &&& *final(slots) == *old(slots)
            },
        },
{
    let instruction = match decode_instruction(instruction_data) {
        Ok(instruction) => instruction,
        Err(_) => { return Err(ProgramError::Decode); },
    };
    let tx_hex = instruction.tx_hex();
    let ghost request = instruction@;
    let settlement = dispatch(instruction);
    let envelope = match parse(tx_hex.as_slice()) {
        Ok(tx) => Ok(serialize(&tx)),
        Err(error) => Err(error),
    };
    assert(envelope_model(envelope) == consensus_decoding(request.tx_hex()));
    commit(slots, settlement, envelope)
}

} // verus!
