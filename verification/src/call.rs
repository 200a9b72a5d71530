//! Calls into other modules, as values.
//!
//! A call names the accounts it works on by their position in the
//! instruction's account list, so that what the processor asks of another
//! module can be stated, compared and tested without the host.

use vstd::prelude::*;

verus! {

/// One call into another module.
#[derive(Debug, Clone, Copy, PartialEq, Eq, Structural)]
pub enum CrossCall {
    /// System module: allocate `new_account` with `space` bytes, funded by
    /// `payer` with `lamports` and owned by the module at `owner`.
    CreateAccount {
        system_program: usize,
        payer: usize,
        new_account: usize,
        owner: usize,
        lamports: u64,
        space: u64,
    },
    /// Token module: initialize `mint` with `decimals`, with `authority` as
    /// its mint authority and no freeze authority.
    InitializeMint {
        token_program: usize,
        mint: usize,
        authority: usize,
        rent_sysvar: usize,
        decimals: u8,
    },
    /// Associated-account module: create `holder`, the account derived from
    /// `wallet` and `mint`, funded and signed by `payer`.
    CreateAssociatedAccount {
        associated_program: usize,
        payer: usize,
        holder: usize,
        wallet: usize,
        mint: usize,
        system_program: usize,
        token_program: usize,
    },
    /// Token module: mint `amount` of `mint` into `holder`, authorized by
    /// `authority`. With `co_signed` the authority is also listed as the one
    /// co-signer; without, the co-signer list is empty.
    MintTo {
        token_program: usize,
        mint: usize,
        holder: usize,
        authority: usize,
        co_signed: bool,
        amount: u64,
    },
}

impl CrossCall {
    /// The position of the module that is called.
    pub open spec fn target(self) -> usize {
        match self {
            CrossCall::CreateAccount { system_program, .. } => system_program,
            CrossCall::InitializeMint { token_program, .. } => token_program,
            CrossCall::CreateAssociatedAccount { associated_program, .. } => associated_program,
            CrossCall::MintTo { token_program, .. } => token_program,
        }
    }

    /// The positions of the accounts that are handed to the invoker with
    /// this call, in the order in which they are handed over.
    pub open spec fn handles(self) -> Seq<usize> {
        match self {
            CrossCall::CreateAccount { system_program, payer, new_account, owner, .. } => seq![
                new_account,
                payer,
                system_program,
                owner,
            ],
            CrossCall::InitializeMint { token_program, mint, rent_sysvar, .. } => seq![
                mint,
                rent_sysvar,
                token_program,
            ],
            CrossCall::CreateAssociatedAccount {
                associated_program,
                payer,
                holder,
                mint,
                system_program,
                token_program,
                ..
            } => seq![mint, holder, payer, system_program, token_program, associated_program],
            CrossCall::MintTo { token_program, mint, holder, authority, .. } => seq![
                mint,
                authority,
                holder,
                token_program,
            ],
        }
    }

    /// The positions of the accounts whose identities are the arguments of
    /// this call, in the order in which the called module takes them: payer,
    /// new account and owner of an account creation; token module, mint and
    /// authority of a mint initialization; payer, wallet, mint and token
    /// module of an associated-account creation; token module, mint, holder
    /// and authority of a minting.
    pub open spec fn arguments(self) -> Seq<usize> {
        match self {
            CrossCall::CreateAccount { payer, new_account, owner, .. } => seq![
                payer,
                new_account,
                owner,
            ],
            CrossCall::InitializeMint { token_program, mint, authority, .. } => seq![
                token_program,
                mint,
                authority,
            ],
            CrossCall::CreateAssociatedAccount { payer, wallet, mint, token_program, .. } => seq![
                payer,
                wallet,
                mint,
                token_program,
            ],
            CrossCall::MintTo { token_program, mint, holder, authority, .. } => seq![
                token_program,
                mint,
                holder,
                authority,
            ],
        }
    }

    /// Whether every position this call names lies in a list of `count` accounts.
    pub open spec fn within(self, count: nat) -> bool {
        match self {
            CrossCall::CreateAccount { system_program, payer, new_account, owner, .. } => {
                system_program < count && payer < count && new_account < count && owner < count
            },
            CrossCall::InitializeMint { token_program, mint, authority, rent_sysvar, .. } => {
                token_program < count && mint < count && authority < count && rent_sysvar < count
            },
            CrossCall::CreateAssociatedAccount {
                associated_program,
                payer,
                holder,
                wallet,
                mint,
                system_program,
                token_program,
            } => {
                associated_program < count && payer < count && holder < count && wallet < count
                    && mint < count && system_program < count && token_program < count
            },
            CrossCall::MintTo { token_program, mint, holder, authority, .. } => {
                token_program < count && mint < count && holder < count && authority < count
            },
        }
    }

    /// The positions of the accounts whose identities are the arguments of
    /// this call.
    pub fn argument_positions(&self) -> (positions: Vec<usize>)
        ensures
            positions@ == self.arguments(),
    {
        match *self {
            CrossCall::CreateAccount { payer, new_account, owner, .. } => vec![
                payer,
                new_account,
                owner,
            ],
            CrossCall::InitializeMint { token_program, mint, authority, .. } => vec![
                token_program,
                mint,
                authority,
            ],
            CrossCall::CreateAssociatedAccount { payer, wallet, mint, token_program, .. } => vec![
                payer,
                wallet,
                mint,
                token_program,
            ],
            CrossCall::MintTo { token_program, mint, holder, authority, .. } => vec![
                token_program,
                mint,
                holder,
                authority,
            ],
        }
    }

    /// The positions of the accounts to hand to the invoker with this call.
    pub fn account_handles(&self) -> (positions: Vec<usize>)
        ensures
            positions@ == self.handles(),
    {
        match *self {
            CrossCall::CreateAccount { system_program, payer, new_account, owner, .. } => vec![
                new_account,
                payer,
                system_program,
                owner,
            ],
            CrossCall::InitializeMint { token_program, mint, rent_sysvar, .. } => vec![
                mint,
                rent_sysvar,
                token_program,
            ],
            CrossCall::CreateAssociatedAccount {
                associated_program,
                payer,
                holder,
                mint,
                system_program,
                token_program,
                ..
            } => vec![mint, holder, payer, system_program, token_program, associated_program],
            CrossCall::MintTo { token_program, mint, holder, authority, .. } => vec![
                mint,
                authority,
                holder,
                token_program,
            ],
        }
    }
}

impl CrossCall {
    /// Every account that a call takes as an argument or hands over, and the
    /// module it calls, is one that the call's list holds.
    pub proof fn lemma_positions_within(self, count: nat)
        requires
            self.within(count),
        ensures
            forall|i: int| 0 <= i < self.arguments().len() ==> self.arguments()[i] < count,
            forall|i: int| 0 <= i < self.handles().len() ==> self.handles()[i] < count,
            self.target() < count,
    {
    }
}

} // verus!
