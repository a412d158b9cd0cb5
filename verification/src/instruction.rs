//! The instructions that the vault programs accept, and their wire form: one
//! byte that numbers the variant, then each field in little-endian order, and
//! nothing after it.

use vstd::prelude::*;
use vstd::bytes::{
    lemma_auto_spec_u64_to_from_le_bytes, spec_u64_from_le_bytes, spec_u64_to_le_bytes,
    u64_from_le_bytes, u64_to_le_bytes,
};
use vstd::slice::slice_subrange;

verus! {

/// The amount that follows the variant byte of a nine-byte instruction.
pub open spec fn amount_field(input: Seq<u8>) -> u64 {
    spec_u64_from_le_bytes(input.subrange(1, 9))
}

/// Reads the variant byte and the amount of a nine-byte instruction.
fn read_amount(input: &[u8]) -> (r: u64)
    requires
        input@.len() == 9,
    ensures
        r == amount_field(input@),
{
    u64_from_le_bytes(slice_subrange(input, 1, 9))
}

/// Writes a variant byte followed by an amount.
fn write_amount(variant: u8, amount: u64) -> (r: Vec<u8>)
    ensures
        r@ == seq![variant] + spec_u64_to_le_bytes(amount),
{
    let mut out: Vec<u8> = Vec::new();
    out.push(variant);
    let mut field = u64_to_le_bytes(amount);
    out.append(&mut field);
    assert(out@ =~= seq![variant] + spec_u64_to_le_bytes(amount));
    out
}

/// The instructions of the vault program.
#[derive(Clone, Copy, Debug, PartialEq, Eq, Structural)]
pub enum VaultInstruction {
    InitializeVault,
    InitializeUser,
    Deposit { amount: u64 },
    Withdraw { amount: u64 },
}

impl VaultInstruction {
    /// The wire form of the instruction.
    pub open spec fn encoding(self) -> Seq<u8> {
        match self {
            VaultInstruction::InitializeVault => seq![0u8],
            VaultInstruction::InitializeUser => seq![1u8],
            VaultInstruction::Deposit { amount } => seq![2u8] + spec_u64_to_le_bytes(amount),
            VaultInstruction::Withdraw { amount } => seq![3u8] + spec_u64_to_le_bytes(amount),
        }
    }

    /// The instruction that `input` is the wire form of, if it is one.
    pub open spec fn decoded(input: Seq<u8>) -> Option<VaultInstruction> {
        if input.len() == 1 && input[0] == 0 {
            Some(VaultInstruction::InitializeVault)
        } else if input.len() == 1 && input[0] == 1 {
            Some(VaultInstruction::InitializeUser)
        } else if input.len() == 9 && input[0] == 2 {
            Some(VaultInstruction::Deposit { amount: amount_field(input) })
        } else if input.len() == 9 && input[0] == 3 {
            Some(VaultInstruction::Withdraw { amount: amount_field(input) })
        } else {
            None
        }
    }

    /// Decoding undoes encoding.
    pub proof fn lemma_decode_encode(instruction: VaultInstruction)
        ensures
            VaultInstruction::decoded(instruction.encoding()) == Some(instruction),
    {
        lemma_auto_spec_u64_to_from_le_bytes();
        match instruction {
            VaultInstruction::Deposit { amount } => {
                assert(instruction.encoding().subrange(1, 9) =~= spec_u64_to_le_bytes(amount));
            },
            VaultInstruction::Withdraw { amount } => {
                assert(instruction.encoding().subrange(1, 9) =~= spec_u64_to_le_bytes(amount));
            },
            _ => {},
        }
    }

    /// Only the wire form of an instruction decodes to it.
    pub proof fn lemma_encode_decode(input: Seq<u8>, instruction: VaultInstruction)
        requires
            VaultInstruction::decoded(input) == Some(instruction),
        ensures
            instruction.encoding() == input,
    {
        lemma_auto_spec_u64_to_from_le_bytes();
        if input.len() == 9 {
            assert(input =~= seq![input[0]] + input.subrange(1, 9));
        } else {
            assert(input =~= seq![input[0]]);
        }
    }

    /// Decodes an instruction; `None` for bytes that are the wire form of none.
    pub fn try_from_slice(input: &[u8]) -> (r: Option<VaultInstruction>)
        ensures
            r == VaultInstruction::decoded(input@),
    {
        if input.len() == 1 {
            if input[0] == 0 {
                Some(VaultInstruction::InitializeVault)
            } else if input[0] == 1 {
                Some(VaultInstruction::InitializeUser)
            } else {
                None
            }
        } else if input.len() == 9 {
            if input[0] == 2 {
                Some(VaultInstruction::Deposit { amount: read_amount(input) })
            } else if input[0] == 3 {
                Some(VaultInstruction::Withdraw { amount: read_amount(input) })
            } else {
                None
            }
        } else {
            None
        }
    }

    /// Encodes the instruction.
    pub fn to_vec(&self) -> (r: Vec<u8>)
        ensures
            r@ == self.encoding(),
    {
        match self {
            VaultInstruction::InitializeVault => {
                let r = vec![0u8];
                assert(r@ =~= self.encoding());
                r
            },
            VaultInstruction::InitializeUser => {
                let r = vec![1u8];
                assert(r@ =~= self.encoding());
                r
            },
            VaultInstruction::Deposit { amount } => write_amount(2, *amount),
            VaultInstruction::Withdraw { amount } => write_amount(3, *amount),
        }
    }
}

/// The instructions of the two-operation vault program.
#[derive(Clone, Copy, Debug, PartialEq, Eq, Structural)]
pub enum TokenVaultInstruction {
    Deposit { deposit_amount: u64 },
    Withdraw { withdraw_amount: u64 },
}

impl TokenVaultInstruction {
    /// The wire form of the instruction.
    pub open spec fn encoding(self) -> Seq<u8> {
        match self {
            TokenVaultInstruction::Deposit { deposit_amount } => seq![0u8] + spec_u64_to_le_bytes(
                deposit_amount,
            ),
            TokenVaultInstruction::Withdraw { withdraw_amount } => seq![1u8] + spec_u64_to_le_bytes(
                withdraw_amount,
            ),
        }
    }

    /// The instruction that `input` is the wire form of, if it is one.
    pub open spec fn decoded(input: Seq<u8>) -> Option<TokenVaultInstruction> {
        if input.len() == 9 && input[0] == 0 {
            Some(TokenVaultInstruction::Deposit { deposit_amount: amount_field(input) })
        } else if input.len() == 9 && input[0] == 1 {
            Some(TokenVaultInstruction::Withdraw { withdraw_amount: amount_field(input) })
        } else {
            None
        }
    }

    /// Decoding undoes encoding.
    pub proof fn lemma_decode_encode(instruction: TokenVaultInstruction)
        ensures
            TokenVaultInstruction::decoded(instruction.encoding()) == Some(instruction),
    {
        lemma_auto_spec_u64_to_from_le_bytes();
        match instruction {
            TokenVaultInstruction::Deposit { deposit_amount } => {
                assert(instruction.encoding().subrange(1, 9) =~= spec_u64_to_le_bytes(
                    deposit_amount,
                ));
            },
            TokenVaultInstruction::Withdraw { withdraw_amount } => {
                assert(instruction.encoding().subrange(1, 9) =~= spec_u64_to_le_bytes(
                    withdraw_amount,
                ));
            },
        }
    }

    /// Only the wire form of an instruction decodes to it.
    pub proof fn lemma_encode_decode(input: Seq<u8>, instruction: TokenVaultInstruction)
        requires
            TokenVaultInstruction::decoded(input) == Some(instruction),
        ensures
            instruction.encoding() == input,
    {
        lemma_auto_spec_u64_to_from_le_bytes();
        assert(input =~= seq![input[0]] + input.subrange(1, 9));
    }

    /// Decodes an instruction; `None` for bytes that are the wire form of none.
    pub fn try_from_slice(input: &[u8]) -> (r: Option<TokenVaultInstruction>)
        ensures
            r == TokenVaultInstruction::decoded(input@),
    {
        if input.len() == 9 {
            if input[0] == 0 {
                Some(TokenVaultInstruction::Deposit { deposit_amount: read_amount(input) })
            } else if input[0] == 1 {
                Some(TokenVaultInstruction::Withdraw { withdraw_amount: read_amount(input) })
            } else {
                None
            }
        } else {
            None
        }
    }

    /// Encodes the instruction.
    pub fn to_vec(&self) -> (r: Vec<u8>)
        ensures
            r@ == self.encoding(),
    {
        match self {
            TokenVaultInstruction::Deposit { deposit_amount } => write_amount(0, *deposit_amount),
            TokenVaultInstruction::Withdraw { withdraw_amount } => write_amount(
                1,
                *withdraw_amount,
            ),
        }
    }

    /// The same operation as an instruction of the vault program.
    pub fn to_vault_instruction(&self) -> (r: VaultInstruction)
        ensures
            r == match *self {
                TokenVaultInstruction::Deposit { deposit_amount } => VaultInstruction::Deposit {
                    amount: deposit_amount,
                },
                TokenVaultInstruction::Withdraw { withdraw_amount } => VaultInstruction::Withdraw {
                    amount: withdraw_amount,
                },
            },
    {
        match *self {
            TokenVaultInstruction::Deposit { deposit_amount } => VaultInstruction::Deposit {
                amount: deposit_amount,
            },
            TokenVaultInstruction::Withdraw { withdraw_amount } => VaultInstruction::Withdraw {
                amount: withdraw_amount,
            },
        }
    }
}

} // verus!
