//! What holds of every initialize and of every mint, whatever the host and
//! the called modules answer.
//!
//! Each law speaks of [`Progress::run`]: the calls that the invoker receives
//! and the result that the processor returns when the calls of a command's
//! plan end with the given outcomes.

use crate::call::CrossCall;
use crate::error::ProcessorError;
use crate::host::MINT_STATE_LEN;
use crate::instruction::{InitializeMintArgs, MintToArgs};
use crate::plan::{
    create_holder_account, create_mint_account, holder_exists, initialize_calls,
    initialize_mint_state, mint_calls, mint_to_holder,
};
use crate::processor::{initialized, minted};
use crate::sequence::{
    lemma_run_completes, lemma_run_ignores_later_outcomes, lemma_run_issues_a_prefix,
    lemma_run_stops_at_first_failure, lemma_run_while_calls_succeed, Progress, Step,
};
use solana_program::account_info::AccountInfo;
use solana_program::program_error::ProgramError;
use vstd::prelude::*;

verus! {

/// If the creation of the mint account fails, the call that initializes the
/// mint is never issued: the invoker receives exactly one call, and the
/// creation's own error is returned.
pub proof fn lemma_failed_creation_ends_initialize(
    decimals: u8,
    lamports: u64,
    space: u64,
    outcomes: Seq<Result<(), ProgramError>>,
)
    requires
        outcomes.len() > 0,
        outcomes[0] is Err,
    ensures
        Progress::run(initialize_calls(decimals, lamports, space), outcomes).0.calls_issued()
            == seq![create_mint_account(lamports, space)],
        !Progress::run(
            initialize_calls(decimals, lamports, space),
            outcomes,
        ).0.calls_issued().contains(initialize_mint_state(decimals)),
        Progress::run(initialize_calls(decimals, lamports, space), outcomes).1 == Step::Return(
            Err(ProcessorError::CrossModule(outcomes[0]->Err_0)),
        ),
{
    let plan = initialize_calls(decimals, lamports, space);
    lemma_run_stops_at_first_failure(plan, outcomes, 0);
}

/// If the creation of the mint account succeeds, the mint is initialized
/// next, with the decimals of the command, and the result of the initialize
/// is the result of that second call.
pub proof fn lemma_initialize_creates_then_initializes(
    decimals: u8,
    lamports: u64,
    space: u64,
    outcomes: Seq<Result<(), ProgramError>>,
)
    requires
        outcomes.len() > 1,
        outcomes[0] is Ok,
    ensures
        Progress::run(initialize_calls(decimals, lamports, space), outcomes).0.calls_issued()
            == seq![create_mint_account(lamports, space), initialize_mint_state(decimals)],
        Progress::run(initialize_calls(decimals, lamports, space), outcomes).1 == Step::Return(
            match outcomes[1] {
                Ok(_) => Ok(()),
                Err(error) => Err(ProcessorError::CrossModule(error)),
            },
        ),
{
    let plan = initialize_calls(decimals, lamports, space);
    if outcomes[1] is Err {
        lemma_run_stops_at_first_failure(plan, outcomes, 1);
    } else {
        let answered = outcomes.take(2);
        lemma_run_completes(plan, answered);
        lemma_run_ignores_later_outcomes(plan, answered, outcomes.skip(2));
        assert(answered + outcomes.skip(2) =~= outcomes);
    }
}

/// A mint against a holder's account that holds a balance issues no
/// creation: the invoker receives the minting of the amount and nothing
/// else, however that call ends.
pub proof fn lemma_existing_holder_is_not_created(
    amount: u64,
    holder_lamports: u64,
    outcomes: Seq<Result<(), ProgramError>>,
)
    requires
        holder_exists(holder_lamports),
    ensures
        Progress::run(mint_calls(amount, holder_lamports), outcomes).0.calls_issued() == seq![
            mint_to_holder(amount),
        ],
        !Progress::run(mint_calls(amount, holder_lamports), outcomes).0.calls_issued().contains(
            create_holder_account(),
        ),
{
    let plan = mint_calls(amount, holder_lamports);
    lemma_run_issues_a_prefix(plan, outcomes);
    lemma_run_issues_at_least_one(plan, outcomes);
}

/// Minting twice into a holder's account that holds a balance both times
/// issues two mintings and no creation: the existence check never leads to
/// a second account.
pub proof fn lemma_minting_twice_creates_nothing(
    first_amount: u64,
    first_lamports: u64,
    first_outcomes: Seq<Result<(), ProgramError>>,
    second_amount: u64,
    second_lamports: u64,
    second_outcomes: Seq<Result<(), ProgramError>>,
)
    requires
        holder_exists(first_lamports),
        holder_exists(second_lamports),
    ensures
        Progress::run(mint_calls(first_amount, first_lamports), first_outcomes).0.calls_issued()
            + Progress::run(
            mint_calls(second_amount, second_lamports),
            second_outcomes,
        ).0.calls_issued() == seq![mint_to_holder(first_amount), mint_to_holder(second_amount)],
{
    lemma_existing_holder_is_not_created(first_amount, first_lamports, first_outcomes);
    lemma_existing_holder_is_not_created(second_amount, second_lamports, second_outcomes);
    assert(seq![mint_to_holder(first_amount)] + seq![mint_to_holder(second_amount)] =~= seq![
        mint_to_holder(first_amount),
        mint_to_holder(second_amount),
    ]);
}

/// A mint against a holder's account that holds nothing creates the account
/// exactly once and before it mints; if the creation fails, nothing is minted.
pub proof fn lemma_missing_holder_is_created_first(
    amount: u64,
    holder_lamports: u64,
    outcomes: Seq<Result<(), ProgramError>>,
)
    requires
        !holder_exists(holder_lamports),
        outcomes.len() > 0,
    ensures
        outcomes[0] is Err ==> {
            &&& Progress::run(mint_calls(amount, holder_lamports), outcomes).0.calls_issued()
                == seq![create_holder_account()]
            &&& Progress::run(mint_calls(amount, holder_lamports), outcomes).1 == Step::Return(
                Err(ProcessorError::CrossModule(outcomes[0]->Err_0)),
            )
        },
        outcomes[0] is Ok ==> Progress::run(
            mint_calls(amount, holder_lamports),
            outcomes,
        ).0.calls_issued() == seq![create_holder_account(), mint_to_holder(amount)],
{
    let plan = mint_calls(amount, holder_lamports);
    if outcomes[0] is Err {
        lemma_run_stops_at_first_failure(plan, outcomes, 0);
    } else {
        lemma_run_issues_a_prefix(plan, outcomes);
        lemma_run_issues_after_success(plan, outcomes);
    }
}

/// On the host too a failed creation ends an initialize: where the rent
/// oracle quoted a balance and the host failed the first call, the result
/// of [`crate::processor::initialize_mint`] is that failure, and the
/// creation is the only call the host received.
pub proof fn lemma_initialize_on_host_stops_at_failed_creation(
    accounts: &[AccountInfo<'_>],
    data: InitializeMintArgs,
    quote: Result<u64, ProcessorError>,
    outcomes: Seq<Result<(), ProgramError>>,
    result: Result<(), ProcessorError>,
)
    requires
        initialized(accounts, data, quote, outcomes, result),
        quote is Ok,
        outcomes.len() > 0,
        outcomes[0] is Err,
    ensures
        result == Err::<(), ProcessorError>(ProcessorError::CrossModule(outcomes[0]->Err_0)),
        Progress::run(
            initialize_calls(data.decimals, quote->Ok_0, MINT_STATE_LEN as u64),
            outcomes,
        ).0.calls_issued() == seq![create_mint_account(quote->Ok_0, MINT_STATE_LEN as u64)],
{
    lemma_failed_creation_ends_initialize(
        data.decimals,
        quote->Ok_0,
        MINT_STATE_LEN as u64,
        outcomes,
    );
}

/// On the host too an existing holder is not created: where the host
/// answered a balance other than zero for the holder's account, the one
/// call that the host received from [`crate::processor::mint_token`] is the
/// minting, and the result is the result of that call.
pub proof fn lemma_mint_on_host_creates_no_existing_holder(
    accounts: &[AccountInfo<'_>],
    data: MintToArgs,
    balance: Result<u64, ProcessorError>,
    outcomes: Seq<Result<(), ProgramError>>,
    result: Result<(), ProcessorError>,
)
    requires
        minted(accounts, data, balance, outcomes, result),
        balance is Ok,
        holder_exists(balance->Ok_0),
    ensures
        Progress::run(
            mint_calls(data.amount, balance->Ok_0),
            outcomes,
        ).0.calls_issued() == seq![mint_to_holder(data.amount)],
        outcomes.len() == 1,
        result == match outcomes[0] {
            Ok(_) => Ok::<(), ProcessorError>(()),
            Err(error) => Err(ProcessorError::CrossModule(error)),
        },
{
    let plan = mint_calls(data.amount, balance->Ok_0);
    lemma_existing_holder_is_not_created(data.amount, balance->Ok_0, outcomes);
    lemma_run_issues_a_prefix(plan, outcomes);
    if outcomes.len() > 0 && outcomes[0] is Err {
        lemma_run_stops_at_first_failure(plan, outcomes, 0);
    } else if outcomes.len() > 0 {
        lemma_run_completes(plan, outcomes);
    }
}

/// A run through a plan that holds a call has issued its first call, even
/// before any outcome came.
proof fn lemma_run_issues_at_least_one(
    plan: Seq<CrossCall>,
    outcomes: Seq<Result<(), ProgramError>>,
)
    requires
        plan.len() > 0,
    ensures
        Progress::run(plan, outcomes).0.issued >= 1,
    decreases outcomes.len(),
{
    if outcomes.len() > 0 {
        lemma_run_issues_at_least_one(plan, outcomes.drop_last());
    }
}

/// A run whose first call succeeded has issued its second call, where the
/// plan holds one.
proof fn lemma_run_issues_after_success(
    plan: Seq<CrossCall>,
    outcomes: Seq<Result<(), ProgramError>>,
)
    requires
        plan.len() > 1,
        outcomes.len() > 0,
        outcomes[0] is Ok,
    ensures
        Progress::run(plan, outcomes).0.issued >= 2,
    decreases outcomes.len(),
{
    if outcomes.len() > 1 {
        lemma_run_issues_after_success(plan, outcomes.drop_last());
    } else {
        lemma_run_while_calls_succeed(plan, outcomes);
    }
}

} // verus!
