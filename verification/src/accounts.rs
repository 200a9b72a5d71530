//! The account lists the processor accepts.
//!
//! Accounts are not named in an instruction: the host hands the processor an
//! ordered list, and an account's role and what may be done with it follow
//! from its position alone. Each layout below fixes the positions of one
//! command; a list may be longer than its layout, never shorter.

use vstd::prelude::*;

verus! {

/// Initialize: the mint account to create.
pub const INITIALIZE_MINT: usize = 0;

/// Initialize: the authority, which funds the mint account and becomes its mint authority.
pub const INITIALIZE_AUTHORITY: usize = 1;

/// Initialize: the system module.
pub const INITIALIZE_SYSTEM_PROGRAM: usize = 2;

/// Initialize: the token module.
pub const INITIALIZE_TOKEN_PROGRAM: usize = 3;

/// Initialize: the rent oracle.
pub const INITIALIZE_RENT_SYSVAR: usize = 4;

/// Mint: the mint.
pub const MINT_TO_MINT: usize = 0;

/// Mint: the mint authority.
pub const MINT_TO_AUTHORITY: usize = 1;

/// Mint: the holder's account, derived from the payer and the mint.
pub const MINT_TO_HOLDER: usize = 2;

/// Mint: the payer, which funds the holder's account and owns it.
pub const MINT_TO_PAYER: usize = 3;

/// Mint: the system module.
pub const MINT_TO_SYSTEM_PROGRAM: usize = 4;

/// Mint: the token module.
pub const MINT_TO_TOKEN_PROGRAM: usize = 5;

/// Mint: the associated-account module.
pub const MINT_TO_ASSOCIATED_PROGRAM: usize = 6;

/// Direct mint: the mint.
pub const DIRECT_MINT: usize = 0;

/// Direct mint: the holder's account, which must exist already.
pub const DIRECT_HOLDER: usize = 1;

/// Direct mint: the mint authority.
pub const DIRECT_AUTHORITY: usize = 2;

/// Direct mint: the token module.
pub const DIRECT_TOKEN_PROGRAM: usize = 3;

/// What an instruction may do with an account.
#[derive(Debug, Clone, Copy, PartialEq, Eq, Structural)]
pub struct Capability {
    /// The instruction may change the account.
    pub writable: bool,
    /// The account's owner signed the transaction.
    pub signer: bool,
}

/// An ordered account list.
#[derive(Debug, Clone, Copy, PartialEq, Eq, Structural)]
pub enum AccountLayout {
    /// Mint, authority, system module, token module, rent oracle.
    Initialize,
    /// Mint, authority, holder, payer, system module, token module,
    /// associated-account module. The holder's account is created if it does
    /// not exist yet.
    MintTo,
    /// Mint, holder, authority, token module. The holder's account must exist.
    MintToDirect,
}

/// An account that is read only and did not sign.
pub open spec fn read_only() -> Capability {
    Capability { writable: false, signer: false }
}

/// An account that may change and did not sign.
pub open spec fn writable() -> Capability {
    Capability { writable: true, signer: false }
}

/// An account that is read only and signed.
pub open spec fn signer() -> Capability {
    Capability { writable: false, signer: true }
}

/// An account that may change and signed.
pub open spec fn writable_signer() -> Capability {
    Capability { writable: true, signer: true }
}

impl AccountLayout {
    /// What each position of this layout requires, in order.
    pub open spec fn required(self) -> Seq<Capability> {
        match self {
            AccountLayout::Initialize => seq![
                writable_signer(),
                writable_signer(),
                read_only(),
                read_only(),
                read_only(),
            ],
            AccountLayout::MintTo => seq![
                writable(),
                signer(),
                writable(),
                writable_signer(),
                read_only(),
                read_only(),
                read_only(),
            ],
            AccountLayout::MintToDirect => seq![writable(), writable(), signer(), read_only()],
        }
    }

    /// The number of accounts this layout names.
    pub fn len(self) -> (count: usize)
        ensures
            count == self.required().len(),
    {
        match self {
            AccountLayout::Initialize => 5,
            AccountLayout::MintTo => 7,
            AccountLayout::MintToDirect => 4,
        }
    }

    /// Whether a list of `count` accounts holds every position of this layout.
    pub fn admits(self, count: usize) -> (enough: bool)
        ensures
            enough == (count >= self.required().len()),
    {
        count >= self.len()
    }

    /// What each position of this layout requires, in order: what a client
    /// declares for each account when it builds the instruction.
    pub fn capabilities(self) -> (list: Vec<Capability>)
        ensures
            list@ == self.required(),
    {
        let read_only = Capability { writable: false, signer: false };
        let writable = Capability { writable: true, signer: false };
        let signer = Capability { writable: false, signer: true };
        let writable_signer = Capability { writable: true, signer: true };
        match self {
            AccountLayout::Initialize => vec![
                writable_signer,
                writable_signer,
                read_only,
                read_only,
                read_only,
            ],
            AccountLayout::MintTo => vec![
                writable,
                signer,
                writable,
                writable_signer,
                read_only,
                read_only,
                read_only,
            ],
            AccountLayout::MintToDirect => vec![writable, writable, signer, read_only],
        }
    }
}

} // verus!
