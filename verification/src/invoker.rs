//! The cross-module invoker: one call, from a value to the host.
//!
//! [`issue`] is the only way a call leaves the processor. It reads the
//! identities of the accounts that the call names, has the called module
//! build the instruction from them, and hands the instruction to the host
//! together with handles on the accounts that the call hands over. Whatever
//! comes back is returned as it came.
//!
//! What the host and the modules do lies outside this crate, and nothing is
//! proved of it. The contracts here therefore speak of `call_ensures`: the
//! results that a function gave when it was called on given arguments.

use crate::call::CrossCall;
use crate::host::{account_key, token_initialize_mint};
use solana_program::account_info::AccountInfo;
use solana_program::instruction::Instruction;
use solana_program::program::invoke;
use solana_program::program_error::ProgramError;
use solana_program::pubkey::Pubkey;
use solana_program::system_instruction::create_account;
use spl_associated_token_account::instruction::create_associated_token_account;
use spl_token::instruction::mint_to;
use vstd::prelude::*;

verus! {

/// Whether `keys` are the identities of the accounts at the positions that
/// `call` takes as arguments, in the call's order, as the host's handles
/// gave them.
pub closed spec fn keys_of(
    call: CrossCall,
    accounts: &[AccountInfo<'_>],
    keys: Seq<&Pubkey>,
) -> bool {
    &&& keys.len() == call.arguments().len()
    &&& forall|i: int|
        0 <= i < keys.len() ==> call_ensures(
            account_key,
            (&accounts@[call.arguments()[i] as int],),
            #[trigger] keys[i],
        )
}

/// Whether `instruction` is what the called module built for `call` from
/// `keys`: the system module's account creation, the token module's mint
/// initialization without a freeze authority, the associated-account
/// module's creation, or the token module's minting, with the authority as
/// the one co-signer or with none.
pub closed spec fn built_from(
    call: CrossCall,
    keys: Seq<&Pubkey>,
    instruction: Result<Instruction, ProgramError>,
) -> bool {
    match call {
        CrossCall::CreateAccount { lamports, space, .. } => {
            &&& instruction is Ok
            &&& call_ensures(
                create_account,
                (keys[0], keys[1], lamports, space, keys[2]),
                instruction->Ok_0,
            )
        },
        CrossCall::InitializeMint { decimals, .. } => call_ensures(
            token_initialize_mint,
            (keys[0], keys[1], keys[2], None::<&Pubkey>, decimals),
            instruction,
        ),
        CrossCall::CreateAssociatedAccount { .. } => {
            &&& instruction is Ok
            &&& call_ensures(
                create_associated_token_account,
                (keys[0], keys[1], keys[2], keys[3]),
                instruction->Ok_0,
            )
        },
        CrossCall::MintTo { co_signed, amount, .. } => exists|signers: &[&Pubkey]|
            {
                &&& signers@ == (if co_signed {
                    seq![keys[3]]
                } else {
                    Seq::<&Pubkey>::empty()
                })
                &&& #[trigger] call_ensures(
                    mint_to,
                    (keys[0], keys[1], keys[2], keys[3], signers, amount),
                    instruction,
                )
            },
    }
}

/// Whether `handed` are handles on the accounts that `call` hands over, in
/// the call's order.
pub open spec fn handles_of(
    call: CrossCall,
    accounts: &[AccountInfo<'_>],
    handed: Seq<AccountInfo<'_>>,
) -> bool {
    &&& handed.len() == call.handles().len()
    &&& forall|i: int|
        0 <= i < handed.len() ==> call_ensures(
            AccountInfo::clone,
            (&accounts@[call.handles()[i] as int],),
            #[trigger] handed[i],
        )
}

/// Whether `outcome` is what issuing `call` on `accounts` returns where the
/// accounts' identities are `keys`, the called module built `instruction`
/// from them, and the host was handed `handed`: the module's error where it
/// built none, and else what the host's invoker returned for the
/// instruction and the handles.
pub open spec fn issued(
    call: CrossCall,
    accounts: &[AccountInfo<'_>],
    keys: Seq<&Pubkey>,
    instruction: Result<Instruction, ProgramError>,
    handed: &[AccountInfo<'_>],
    outcome: Result<(), ProgramError>,
) -> bool {
    &&& keys_of(call, accounts, keys)
    &&& built_from(call, keys, instruction)
    &&& match instruction {
        Err(error) => outcome == Err::<(), ProgramError>(error),
        Ok(built) => handles_of(call, accounts, handed@) && call_ensures(
            invoke,
            (&built, handed),
            outcome,
        ),
    }
}

/// The identities of the accounts that `call` takes as arguments.
fn read_keys<'a>(call: CrossCall, accounts: &[AccountInfo<'a>]) -> (keys: Vec<&'a Pubkey>)
    requires
        call.within(accounts@.len()),
    ensures
        keys_of(call, accounts, keys@),
{
    let positions = call.argument_positions();
    let mut keys: Vec<&'a Pubkey> = Vec::new();
    let mut i: usize = 0;
    while i < positions.len()
        invariant
            call.within(accounts@.len()),
            positions@ == call.arguments(),
            i <= positions.len(),
            keys@.len() == i,
            forall|j: int|
                0 <= j < i ==> call_ensures(
                    account_key,
                    (&accounts@[call.arguments()[j] as int],),
                    #[trigger] keys@[j],
                ),
        decreases positions.len() - i,
    {
        let position: usize = positions[i];
        proof {
            call.lemma_positions_within(accounts@.len());
        }
        keys.push(account_key(&accounts[position]));
        i += 1;
    }
    keys
}

/// The instruction that stands for `call`, built by the module that is
/// called from the identities of the accounts that the call names.
fn build(call: CrossCall, keys: &Vec<&Pubkey>) -> (instruction: Result<Instruction, ProgramError>)
    requires
        keys@.len() == call.arguments().len(),
    ensures
        built_from(call, keys@, instruction),
{
    match call {
        CrossCall::CreateAccount { lamports, space, .. } => Ok(
            create_account(keys[0], keys[1], lamports, space, keys[2]),
        ),
        CrossCall::InitializeMint { decimals, .. } => token_initialize_mint(
            keys[0],
            keys[1],
            keys[2],
            None,
            decimals,
        ),
        CrossCall::CreateAssociatedAccount { .. } => Ok(
            create_associated_token_account(keys[0], keys[1], keys[2], keys[3]),
        ),
        CrossCall::MintTo { co_signed, amount, .. } => {
            let mut co_signers: Vec<&Pubkey> = Vec::new();
            if co_signed {
                co_signers.push(keys[3]);
            }
            let signers = co_signers.as_slice();
            let instruction = mint_to(keys[0], keys[1], keys[2], keys[3], signers, amount);
            assert(call_ensures(
                mint_to,
                (keys@[0], keys@[1], keys@[2], keys@[3], signers, amount),
                instruction,
            ));
            instruction
        },
    }
}

/// Handles on the accounts that go to the invoker with `call`, in the
/// call's order. A handle shares the account with the list; nothing is copied.
fn hand_over<'a>(call: CrossCall, accounts: &[AccountInfo<'a>]) -> (handed: Vec<AccountInfo<'a>>)
    requires
        call.within(accounts@.len()),
    ensures
        handles_of(call, accounts, handed@),
{
    let positions = call.account_handles();
    let mut handed: Vec<AccountInfo<'a>> = Vec::new();
    let mut i: usize = 0;
    while i < positions.len()
        invariant
            call.within(accounts@.len()),
            positions@ == call.handles(),
            i <= positions.len(),
            handed@.len() == i,
            forall|j: int|
                0 <= j < i ==> call_ensures(
                    AccountInfo::clone,
                    (&accounts@[call.handles()[j] as int],),
                    #[trigger] handed@[j],
                ),
        decreases positions.len() - i,
    {
        let position: usize = positions[i];
        proof {
            call.lemma_positions_within(accounts@.len());
        }
        handed.push(accounts[position].clone());
        i += 1;
    }
    handed
}

/// Issues `call`: has the called module build its instruction and hands it
/// to the host's invoker with the accounts that the call hands over.
/// Returns what the module or the invoker returned, unchanged.
pub fn issue(call: CrossCall, accounts: &[AccountInfo<'_>]) -> (outcome: Result<(), ProgramError>)
    requires
        call.within(accounts@.len()),
    ensures
        exists|
            keys: Seq<&Pubkey>,
            instruction: Result<Instruction, ProgramError>,
            handed: &[AccountInfo<'_>],
        | #[trigger] issued(call, accounts, keys, instruction, handed, outcome),
{
    let keys = read_keys(call, accounts);
    let instruction = build(call, &keys);
    let ghost built = instruction;
    match instruction {
        Err(error) => {
            let ghost none: &[AccountInfo<'_>] = accounts;
            assert(issued(call, accounts, keys@, built, none, Err(error)));
            Err(error)
        },
        Ok(instruction) => {
            let handles = hand_over(call, accounts);
            let handed = handles.as_slice();
            let outcome = invoke(&instruction, handed);
            assert(issued(call, accounts, keys@, built, handed, outcome));
            outcome
        },
    }
}

} // verus!
