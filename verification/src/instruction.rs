//! The instruction payload: a tag byte followed by the command's argument.
//!
//! | offset | field    | encoding                          |
//! |--------|----------|-----------------------------------|
//! | 0      | tag      | 0 = initialize, 1 = mint          |
//! | 1      | decimals | one byte (tag 0)                  |
//! | 1..9   | amount   | eight bytes, little-endian (tag 1)|

use vstd::prelude::*;

verus! {

/// Tag byte of [`SplTokenMint::Initialize`].
pub const TAG_INITIALIZE: u8 = 0;

/// Tag byte of [`SplTokenMint::Mint`].
pub const TAG_MINT: u8 = 1;

/// Length of an initialize payload: the tag and one byte of decimals.
pub const INITIALIZE_LEN: usize = 2;

/// Length of a mint payload: the tag and eight bytes of amount.
pub const MINT_LEN: usize = 9;

/// Argument of the command that creates a mint.
#[derive(Debug, Clone, Copy, PartialEq, Eq, Structural)]
pub struct InitializeMintArgs {
    /// Number of base-10 digits to the right of the decimal point.
    pub decimals: u8,
}

/// Argument of the command that mints tokens.
#[derive(Debug, Clone, Copy, PartialEq, Eq, Structural)]
pub struct MintToArgs {
    /// Number of tokens to mint, in the mint's smallest unit.
    pub amount: u64,
}

/// A command to the processor.
#[derive(Debug, Clone, Copy, PartialEq, Eq, Structural)]
pub enum SplTokenMint {
    /// Create a mint account and initialize it.
    Initialize(InitializeMintArgs),
    /// Mint tokens into a holder's account.
    Mint(MintToArgs),
}

/// Why a payload is no command.
#[derive(Debug, Clone, Copy, PartialEq, Eq, Structural)]
pub enum DecodeError {
    /// The payload is empty, so it has no tag.
    MissingTag,
    /// The tag byte, held here, names no command.
    UnknownTag(u8),
    /// The bytes after the tag are fewer or more than the command's argument takes.
    WrongLength,
}

/// The number that eight bytes stand for, least significant byte first.
pub open spec fn le_value(bytes: Seq<u8>) -> int
    recommends
        bytes.len() == 8,
{
    bytes[0] + bytes[1] * 0x100 + bytes[2] * 0x1_0000 + bytes[3] * 0x100_0000 + bytes[4]
        * 0x1_0000_0000 + bytes[5] * 0x100_0000_0000 + bytes[6] * 0x1_0000_0000_0000 + bytes[7]
        * 0x100_0000_0000_0000
}

/// The eight bytes that stand for `value`, least significant byte first.
pub open spec fn le_bytes(value: u64) -> Seq<u8> {
    seq![
        (value % 0x100) as u8,
        (value / 0x100 % 0x100) as u8,
        (value / 0x1_0000 % 0x100) as u8,
        (value / 0x100_0000 % 0x100) as u8,
        (value / 0x1_0000_0000 % 0x100) as u8,
        (value / 0x100_0000_0000 % 0x100) as u8,
        (value / 0x1_0000_0000_0000 % 0x100) as u8,
        (value / 0x100_0000_0000_0000 % 0x100) as u8,
    ]
}

/// Eight bytes stand for a number that fits in 64 bits.
pub proof fn lemma_le_value_fits(bytes: Seq<u8>)
    requires
        bytes.len() == 8,
    ensures
        0 <= le_value(bytes) <= u64::MAX,
{
}

/// Reading the bytes written for a number gives the number back.
pub proof fn lemma_le_value_of_bytes(value: u64)
    ensures
        le_bytes(value).len() == 8,
        le_value(le_bytes(value)) == value,
{
    assert(value == value % 0x100 + value / 0x100 % 0x100 * 0x100 + value / 0x1_0000 % 0x100
        * 0x1_0000 + value / 0x100_0000 % 0x100 * 0x100_0000 + value / 0x1_0000_0000 % 0x100
        * 0x1_0000_0000 + value / 0x100_0000_0000 % 0x100 * 0x100_0000_0000 + value
        / 0x1_0000_0000_0000 % 0x100 * 0x1_0000_0000_0000 + value / 0x100_0000_0000_0000 % 0x100
        * 0x100_0000_0000_0000) by (bit_vector);
}

/// Writing the number read from eight bytes gives the bytes back.
pub proof fn lemma_le_bytes_of_value(bytes: Seq<u8>)
    requires
        bytes.len() == 8,
    ensures
        le_bytes(le_value(bytes) as u64) == bytes,
{
    let (b0, b1, b2, b3) = (bytes[0], bytes[1], bytes[2], bytes[3]);
    let (b4, b5, b6, b7) = (bytes[4], bytes[5], bytes[6], bytes[7]);
    let value: u64 = le_value(bytes) as u64;
    assert(value == b0 + b1 * 0x100 + b2 * 0x1_0000 + b3 * 0x100_0000 + b4 * 0x1_0000_0000 + b5
        * 0x100_0000_0000 + b6 * 0x1_0000_0000_0000 + b7 * 0x100_0000_0000_0000);
    assert(value % 0x100 == b0 && value / 0x100 % 0x100 == b1 && value / 0x1_0000 % 0x100 == b2
        && value / 0x100_0000 % 0x100 == b3 && value / 0x1_0000_0000 % 0x100 == b4 && value
        / 0x100_0000_0000 % 0x100 == b5 && value / 0x1_0000_0000_0000 % 0x100 == b6 && value
        / 0x100_0000_0000_0000 % 0x100 == b7) by (bit_vector)
        requires
            value == b0 + b1 * 0x100 + b2 * 0x1_0000 + b3 * 0x100_0000 + b4 * 0x1_0000_0000 + b5
                * 0x100_0000_0000 + b6 * 0x1_0000_0000_0000 + b7 * 0x100_0000_0000_0000,
    ;
}

impl SplTokenMint {
    /// The payload that stands for this command: its tag, then its argument.
    pub open spec fn wire(self) -> Seq<u8> {
        match self {
            SplTokenMint::Initialize(args) => seq![TAG_INITIALIZE, args.decimals],
            SplTokenMint::Mint(args) => seq![TAG_MINT] + le_bytes(args.amount),
        }
    }

    /// What a payload stands for. The first byte selects the command and the
    /// rest must be exactly its argument; nothing is ever filled in.
    pub open spec fn parse(bytes: Seq<u8>) -> Result<SplTokenMint, DecodeError> {
        if bytes.len() == 0 {
            Err(DecodeError::MissingTag)
        } else if bytes[0] == TAG_INITIALIZE {
            if bytes.len() == INITIALIZE_LEN {
                Ok(SplTokenMint::Initialize(InitializeMintArgs { decimals: bytes[1] }))
            } else {
                Err(DecodeError::WrongLength)
            }
        } else if bytes[0] == TAG_MINT {
            if bytes.len() == MINT_LEN {
                Ok(
                    SplTokenMint::Mint(
                        MintToArgs { amount: le_value(bytes.subrange(1, 9)) as u64 },
                    ),
                )
            } else {
                Err(DecodeError::WrongLength)
            }
        } else {
            Err(DecodeError::UnknownTag(bytes[0]))
        }
    }

    /// Decodes a payload. Reads nothing but `data` and changes nothing.
    pub fn try_from_slice(data: &[u8]) -> (command: Result<SplTokenMint, DecodeError>)
        ensures
            command == Self::parse(data@),
    {
        if data.len() == 0 {
            return Err(DecodeError::MissingTag);
        }
        let tag: u8 = data[0];
        if tag == TAG_INITIALIZE {
            if data.len() != INITIALIZE_LEN {
                return Err(DecodeError::WrongLength);
            }
            Ok(SplTokenMint::Initialize(InitializeMintArgs { decimals: data[1] }))
        } else if tag == TAG_MINT {
            if data.len() != MINT_LEN {
                return Err(DecodeError::WrongLength);
            }
            Ok(SplTokenMint::Mint(MintToArgs { amount: read_le(data, 1) }))
        } else {
            Err(DecodeError::UnknownTag(tag))
        }
    }

    /// Appends this command's payload to `buffer`.
    pub fn serialize(&self, buffer: &mut Vec<u8>)
        ensures
            final(buffer)@ == old(buffer)@ + self.wire(),
    {
        match self {
            SplTokenMint::Initialize(args) => {
                buffer.push(TAG_INITIALIZE);
                buffer.push(args.decimals);
            },
            SplTokenMint::Mint(args) => {
                buffer.push(TAG_MINT);
                write_le(buffer, args.amount);
            },
        }
    }

    /// This command's payload, which decodes to this command again.
    pub fn to_vec(&self) -> (bytes: Vec<u8>)
        ensures
            bytes@ == self.wire(),
            Self::parse(bytes@) == Ok::<SplTokenMint, DecodeError>(*self),
    {
        let mut bytes: Vec<u8> = Vec::new();
        self.serialize(&mut bytes);
        proof {
            lemma_decode_of_encode(*self);
        }
        bytes
    }
}

/// Reads the eight bytes of `data` that start at `at` as a number, least
/// significant byte first.
fn read_le(data: &[u8], at: usize) -> (value: u64)
    requires
        at + 8 <= data@.len(),
    ensures
        value == le_value(data@.subrange(at as int, at + 8)),
{
    let b0: u64 = data[at] as u64;
    let b1: u64 = data[at + 1] as u64;
    let b2: u64 = data[at + 2] as u64;
    let b3: u64 = data[at + 3] as u64;
    let b4: u64 = data[at + 4] as u64;
    let b5: u64 = data[at + 5] as u64;
    let b6: u64 = data[at + 6] as u64;
    let b7: u64 = data[at + 7] as u64;
    b0 + b1 * 0x100 + b2 * 0x1_0000 + b3 * 0x100_0000 + b4 * 0x1_0000_0000 + b5
        * 0x100_0000_0000 + b6 * 0x1_0000_0000_0000 + b7 * 0x100_0000_0000_0000
}

/// Appends the eight bytes of `value` to `buffer`, least significant byte first.
fn write_le(buffer: &mut Vec<u8>, value: u64)
    ensures
        final(buffer)@ == old(buffer)@ + le_bytes(value),
{
    buffer.push((value % 0x100) as u8);
    buffer.push((value / 0x100 % 0x100) as u8);
    buffer.push((value / 0x1_0000 % 0x100) as u8);
    buffer.push((value / 0x100_0000 % 0x100) as u8);
    buffer.push((value / 0x1_0000_0000 % 0x100) as u8);
    buffer.push((value / 0x100_0000_0000 % 0x100) as u8);
    buffer.push((value / 0x1_0000_0000_0000 % 0x100) as u8);
    buffer.push((value / 0x100_0000_0000_0000 % 0x100) as u8);
}

/// Decoding the payload of a command gives that command back, whatever its
/// decimals or amount.
pub proof fn lemma_decode_of_encode(command: SplTokenMint)
    ensures
        SplTokenMint::parse(command.wire()) == Ok::<SplTokenMint, DecodeError>(command),
{
    if let SplTokenMint::Mint(args) = command {
        lemma_le_value_of_bytes(args.amount);
    }
}

/// A payload that decodes is the payload of the command it decodes to: no
/// command has two payloads.
pub proof fn lemma_encode_of_decode(bytes: Seq<u8>)
    requires
        SplTokenMint::parse(bytes) is Ok,
    ensures
        SplTokenMint::parse(bytes)->Ok_0.wire() == bytes,
{
    if SplTokenMint::parse(bytes)->Ok_0 is Mint {
        lemma_le_bytes_of_value(bytes.subrange(1, 9));
    }
}

/// A payload decodes only at the exact length of its command: two bytes for
/// tag 0, nine for tag 1. Anything shorter, and anything longer, fails.
pub proof fn lemma_decode_needs_exact_length(bytes: Seq<u8>)
    ensures
        bytes.len() < INITIALIZE_LEN ==> SplTokenMint::parse(bytes) is Err,
        bytes.len() > 0 && bytes[0] == TAG_MINT && bytes.len() < MINT_LEN ==> SplTokenMint::parse(
            bytes,
        ) is Err,
        SplTokenMint::parse(bytes) is Ok ==> bytes.len() == (if bytes[0] == TAG_INITIALIZE {
            INITIALIZE_LEN
        } else {
            MINT_LEN
        }),
{
}

/// A payload whose tag is neither 0 nor 1 fails to decode, whatever follows the tag.
pub proof fn lemma_unknown_tag_fails(bytes: Seq<u8>)
    requires
        bytes.len() > 0,
        bytes[0] != TAG_INITIALIZE,
        bytes[0] != TAG_MINT,
    ensures
        SplTokenMint::parse(bytes) == Err::<SplTokenMint, DecodeError>(
            DecodeError::UnknownTag(bytes[0]),
        ),
{
}

} // verus!
