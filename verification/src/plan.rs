//! Which calls each command makes, and in which order.
//!
//! A plan depends on the command's argument and on what the processor read
//! from the host before its first call; it never depends on how a call ends.
//! How far the processor gets through a plan is the business of
//! [`crate::sequence`].

use crate::accounts::{
    AccountLayout, DIRECT_AUTHORITY, DIRECT_HOLDER, DIRECT_MINT, DIRECT_TOKEN_PROGRAM,
    INITIALIZE_AUTHORITY, INITIALIZE_MINT, INITIALIZE_RENT_SYSVAR, INITIALIZE_SYSTEM_PROGRAM,
    INITIALIZE_TOKEN_PROGRAM, MINT_TO_ASSOCIATED_PROGRAM, MINT_TO_AUTHORITY, MINT_TO_HOLDER,
    MINT_TO_MINT, MINT_TO_PAYER, MINT_TO_SYSTEM_PROGRAM, MINT_TO_TOKEN_PROGRAM,
};
use crate::call::CrossCall;
use crate::instruction::{InitializeMintArgs, MintToArgs};
use vstd::prelude::*;

verus! {

/// The system module's call of an initialize: allocate the mint account with
/// `space` bytes, funded by the authority with `lamports`, owned by the token
/// module.
pub open spec fn create_mint_account(lamports: u64, space: u64) -> CrossCall {
    CrossCall::CreateAccount {
        system_program: INITIALIZE_SYSTEM_PROGRAM,
        payer: INITIALIZE_AUTHORITY,
        new_account: INITIALIZE_MINT,
        owner: INITIALIZE_TOKEN_PROGRAM,
        lamports,
        space,
    }
}

/// The token module's call of an initialize: make the mint account a mint
/// with `decimals`, the authority as its mint authority and no freeze
/// authority.
pub open spec fn initialize_mint_state(decimals: u8) -> CrossCall {
    CrossCall::InitializeMint {
        token_program: INITIALIZE_TOKEN_PROGRAM,
        mint: INITIALIZE_MINT,
        authority: INITIALIZE_AUTHORITY,
        rent_sysvar: INITIALIZE_RENT_SYSVAR,
        decimals,
    }
}

/// The associated-account module's call of a mint: create the holder's
/// account, derived from the payer and the mint, funded and signed by the payer.
pub open spec fn create_holder_account() -> CrossCall {
    CrossCall::CreateAssociatedAccount {
        associated_program: MINT_TO_ASSOCIATED_PROGRAM,
        payer: MINT_TO_PAYER,
        holder: MINT_TO_HOLDER,
        wallet: MINT_TO_PAYER,
        mint: MINT_TO_MINT,
        system_program: MINT_TO_SYSTEM_PROGRAM,
        token_program: MINT_TO_TOKEN_PROGRAM,
    }
}

/// The token module's call of a mint: mint `amount` into the holder's
/// account, authorized and co-signed by the authority.
pub open spec fn mint_to_holder(amount: u64) -> CrossCall {
    CrossCall::MintTo {
        token_program: MINT_TO_TOKEN_PROGRAM,
        mint: MINT_TO_MINT,
        holder: MINT_TO_HOLDER,
        authority: MINT_TO_AUTHORITY,
        co_signed: true,
        amount,
    }
}

/// The token module's call of a direct mint: mint `amount` into the holder's
/// account, authorized by the authority's own signature, with no co-signer
/// listed.
pub open spec fn mint_to_holder_direct(amount: u64) -> CrossCall {
    CrossCall::MintTo {
        token_program: DIRECT_TOKEN_PROGRAM,
        mint: DIRECT_MINT,
        holder: DIRECT_HOLDER,
        authority: DIRECT_AUTHORITY,
        co_signed: false,
        amount,
    }
}

/// Whether an account with this balance counts as existing. An account that
/// holds nothing is taken not to exist yet.
pub open spec fn holder_exists(lamports: u64) -> bool {
    lamports != 0
}

/// The calls of an initialize: first the mint account is created, then it is
/// initialized.
pub open spec fn initialize_calls(decimals: u8, lamports: u64, space: u64) -> Seq<CrossCall> {
    seq![create_mint_account(lamports, space), initialize_mint_state(decimals)]
}

/// The calls of a mint: the holder's account is created first if it does not
/// exist, then the tokens are minted into it.
pub open spec fn mint_calls(amount: u64, holder_lamports: u64) -> Seq<CrossCall> {
    if holder_exists(holder_lamports) {
        seq![mint_to_holder(amount)]
    } else {
        seq![create_holder_account(), mint_to_holder(amount)]
    }
}

/// The one call of a direct mint.
pub open spec fn direct_mint_calls(amount: u64) -> Seq<CrossCall> {
    seq![mint_to_holder_direct(amount)]
}

/// Whether every call of `plan` names only positions of a list of `count` accounts.
pub open spec fn plan_within(plan: Seq<CrossCall>, count: nat) -> bool {
    forall|i: int| 0 <= i < plan.len() ==> (#[trigger] plan[i]).within(count)
}

/// Plans an initialize. `lamports` is the balance that exempts `space` bytes
/// from rent, as the rent oracle quoted it.
pub fn initialize_plan(args: InitializeMintArgs, lamports: u64, space: u64) -> (plan: Vec<
    CrossCall,
>)
    ensures
        plan@ == initialize_calls(args.decimals, lamports, space),
        plan_within(plan@, AccountLayout::Initialize.required().len()),
{
    vec![
        CrossCall::CreateAccount {
            system_program: INITIALIZE_SYSTEM_PROGRAM,
            payer: INITIALIZE_AUTHORITY,
            new_account: INITIALIZE_MINT,
            owner: INITIALIZE_TOKEN_PROGRAM,
            lamports,
            space,
        },
        CrossCall::InitializeMint {
            token_program: INITIALIZE_TOKEN_PROGRAM,
            mint: INITIALIZE_MINT,
            authority: INITIALIZE_AUTHORITY,
            rent_sysvar: INITIALIZE_RENT_SYSVAR,
            decimals: args.decimals,
        },
    ]
}

/// Plans a mint. `holder_lamports` is the balance of the holder's account as
/// the host held it before the first call.
pub fn mint_plan(args: MintToArgs, holder_lamports: u64) -> (plan: Vec<CrossCall>)
    ensures
        plan@ == mint_calls(args.amount, holder_lamports),
        plan_within(plan@, AccountLayout::MintTo.required().len()),
{
    let mint_to = CrossCall::MintTo {
        token_program: MINT_TO_TOKEN_PROGRAM,
        mint: MINT_TO_MINT,
        holder: MINT_TO_HOLDER,
        authority: MINT_TO_AUTHORITY,
        co_signed: true,
        amount: args.amount,
    };
    if holder_lamports == 0 {
        vec![
            CrossCall::CreateAssociatedAccount {
                associated_program: MINT_TO_ASSOCIATED_PROGRAM,
                payer: MINT_TO_PAYER,
                holder: MINT_TO_HOLDER,
                wallet: MINT_TO_PAYER,
                mint: MINT_TO_MINT,
                system_program: MINT_TO_SYSTEM_PROGRAM,
                token_program: MINT_TO_TOKEN_PROGRAM,
            },
            mint_to,
        ]
    } else {
        vec![mint_to]
    }
}

/// Plans a direct mint.
pub fn direct_mint_plan(args: MintToArgs) -> (plan: Vec<CrossCall>)
    ensures
        plan@ == direct_mint_calls(args.amount),
        plan_within(plan@, AccountLayout::MintToDirect.required().len()),
{
    vec![
        CrossCall::MintTo {
            token_program: DIRECT_TOKEN_PROGRAM,
            mint: DIRECT_MINT,
            holder: DIRECT_HOLDER,
            authority: DIRECT_AUTHORITY,
            co_signed: false,
            amount: args.amount,
        },
    ]
}

/// An initialize hands its decimals to the token module as they came,
/// whatever they are, and asks the system module for an account of exactly
/// the size and balance it was given, owned by the token module.
pub proof fn lemma_initialize_forwards_arguments(decimals: u8, lamports: u64, space: u64)
    ensures
        initialize_calls(decimals, lamports, space).len() == 2,
        initialize_calls(decimals, lamports, space)[0] == (CrossCall::CreateAccount {
            system_program: INITIALIZE_SYSTEM_PROGRAM,
            payer: INITIALIZE_AUTHORITY,
            new_account: INITIALIZE_MINT,
            owner: INITIALIZE_TOKEN_PROGRAM,
            lamports,
            space,
        }),
        initialize_calls(decimals, lamports, space)[1] == (CrossCall::InitializeMint {
            token_program: INITIALIZE_TOKEN_PROGRAM,
            mint: INITIALIZE_MINT,
            authority: INITIALIZE_AUTHORITY,
            rent_sysvar: INITIALIZE_RENT_SYSVAR,
            decimals,
        }),
{
}

/// A mint against a holder's account that exists plans no creation: its one
/// call mints the amount as it came. Against one that does not exist, it
/// plans exactly one creation, before the minting.
pub proof fn lemma_mint_creates_only_missing_holder(amount: u64, holder_lamports: u64)
    ensures
        holder_exists(holder_lamports) ==> mint_calls(amount, holder_lamports) == seq![
            mint_to_holder(amount),
        ],
        !holder_exists(holder_lamports) ==> mint_calls(amount, holder_lamports) == seq![
            create_holder_account(),
            mint_to_holder(amount),
        ],
        forall|i: int|
            0 <= i < mint_calls(amount, holder_lamports).len() && holder_exists(holder_lamports)
                ==> !(#[trigger] mint_calls(
                amount,
                holder_lamports,
            )[i] is CreateAssociatedAccount),
{
}

/// Every call of an initialize names only positions of its layout, so a
/// list that the layout admits holds every account the calls touch.
pub proof fn lemma_initialize_fits_layout(decimals: u8, lamports: u64, space: u64)
    ensures
        forall|call: CrossCall|
            initialize_calls(decimals, lamports, space).contains(call) ==> #[trigger] call.within(
                AccountLayout::Initialize.required().len(),
            ),
{
}

/// Every call of a mint names only positions of its layout.
pub proof fn lemma_mint_fits_layout(amount: u64, holder_lamports: u64)
    ensures
        forall|call: CrossCall|
            mint_calls(amount, holder_lamports).contains(call) ==> #[trigger] call.within(
                AccountLayout::MintTo.required().len(),
            ),
{
}

/// The call of a direct mint names only positions of its layout.
pub proof fn lemma_direct_mint_fits_layout(amount: u64)
    ensures
        forall|call: CrossCall|
            direct_mint_calls(amount).contains(call) ==> #[trigger] call.within(
                AccountLayout::MintToDirect.required().len(),
            ),
{
}

} // verus!
