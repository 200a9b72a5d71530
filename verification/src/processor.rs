//! The processor: from a payload and an account list to calls into other
//! modules.
//!
//! Every command reads the accounts by position, refuses a list that is too
//! short before it touches any account, and then makes the calls of its plan
//! in order through the invoker. Nothing is retried and nothing is undone:
//! on a failure the host discards what the transaction changed.
//!
//! Each command comes twice. [`initialize_mint`], [`mint_token`] and
//! [`mint_token_direct`] work on the host: they read what the plan depends
//! on from the host and issue the calls with [`issue`]. Their contracts say
//! which result follows from what the host answered.
//! [`initialize_mint_with`], [`mint_token_with`] and
//! [`mint_token_direct_with`] take what was read as arguments and an invoker
//! of the caller's choice: they are the same commands without a host.

use crate::accounts::{AccountLayout, MINT_TO_HOLDER};
use crate::call::CrossCall;
use crate::error::ProcessorError;
use crate::host::{mint_state_len, rent_sysvar, ACCOUNT_STORAGE_OVERHEAD, MINT_STATE_LEN};
use crate::instruction::{InitializeMintArgs, MintToArgs, SplTokenMint};
use crate::invoker::issue;
use crate::plan::{
    direct_mint_calls, direct_mint_plan, initialize_calls, initialize_plan,
    lemma_direct_mint_fits_layout, lemma_initialize_fits_layout, lemma_mint_fits_layout, mint_calls,
    mint_plan,
};
use crate::sequence::{answered_by, run_plan, Progress, Step};
use solana_program::account_info::AccountInfo;
use solana_program::program_error::ProgramError;
use solana_program::pubkey::Pubkey;
use solana_program::rent::Rent;
use vstd::prelude::*;

verus! {

/// Whether the balance that exempts `space` bytes from rent at `rate`
/// lamports per byte and year can be computed in 64 bits.
pub open spec fn rate_in_range(rate: u64, space: usize) -> bool {
    ACCOUNT_STORAGE_OVERHEAD + space <= u64::MAX && (ACCOUNT_STORAGE_OVERHEAD + space) * rate
        <= u64::MAX
}

/// The balance that exempts an account of `space` bytes from rent, as
/// `rent` quotes it. A rate that is out of range is refused; nothing else
/// is, and the balance is the one that `Rent::minimum_balance` returned.
pub fn balance_at(rent: &Rent, space: usize) -> (balance: Result<u64, ProcessorError>)
    ensures
        balance is Ok <==> rate_in_range(rent.lamports_per_byte_year, space),
        balance is Ok ==> call_ensures(Rent::minimum_balance, (rent, space), balance->Ok_0),
        balance is Err ==> balance == Err::<u64, ProcessorError>(ProcessorError::RentOutOfRange),
{
    let rate: u64 = rent.lamports_per_byte_year;
    let bytes: u64 = space as u64;
    if bytes > u64::MAX - ACCOUNT_STORAGE_OVERHEAD {
        return Err(ProcessorError::RentOutOfRange);
    }
    let charged: u64 = ACCOUNT_STORAGE_OVERHEAD + bytes;
    let highest: u64 = u64::MAX / charged;
    if rate > highest {
        assert(charged * rate > u64::MAX) by (nonlinear_arith)
            requires
                charged > 0,
                highest == u64::MAX / charged,
                rate > highest,
        ;
        return Err(ProcessorError::RentOutOfRange);
    }
    assert(charged * rate <= u64::MAX) by (nonlinear_arith)
        requires
            charged > 0,
            highest == u64::MAX / charged,
            0 <= rate <= highest,
    ;
    Ok(rent.minimum_balance(space))
}

/// The size of the account that an initialize asks the system module for:
/// the size of the token module's mint state.
pub fn mint_space() -> (space: usize)
    ensures
        space == MINT_STATE_LEN,
{
    mint_state_len()
}

/// Whether `balance` is what [`rent_exempt_balance`] returns for `space`
/// where the rent oracle answered `answer`: the oracle's error as it came,
/// or what [`balance_at`] returned for the oracle's rates.
pub closed spec fn quoted(
    space: usize,
    answer: Result<Rent, ProgramError>,
    balance: Result<u64, ProcessorError>,
) -> bool {
    &&& call_ensures(rent_sysvar, (), answer)
    &&& match answer {
        Err(error) => balance == Err::<u64, ProcessorError>(ProcessorError::CrossModule(error)),
        Ok(rent) => call_ensures(balance_at, (&rent, space), balance),
    }
}

/// The balance that exempts an account of `space` bytes from rent, as the
/// host's rent oracle quotes it now. An error of the oracle is handed on as
/// it came.
pub fn rent_exempt_balance(space: usize) -> (balance: Result<u64, ProcessorError>)
    ensures
        exists|answer: Result<Rent, ProgramError>| #[trigger] quoted(space, answer, balance),
        balance is Err ==> balance->Err_0 is CrossModule || balance->Err_0 is RentOutOfRange,
{
    let answer = rent_sysvar();
    let ghost rates = answer;
    match answer {
        Err(error) => {
            let balance = Err(ProcessorError::CrossModule(error));
            assert(quoted(space, rates, balance));
            balance
        },
        Ok(rent) => {
            let balance = balance_at(&rent, space);
            assert(quoted(space, rates, balance));
            balance
        },
    }
}

/// Creates a mint through `invoker`: has the system module allocate the
/// mint account with `space` bytes, funded by the authority with `lamports`
/// and owned by the token module, and then has the token module initialize
/// it with `data.decimals`.
///
/// The result is the one that [`Progress::run`] gives for the calls of
/// [`initialize_calls`] and the outcomes that the invoker answered with.
pub fn initialize_mint_with<F>(
    data: InitializeMintArgs,
    lamports: u64,
    space: u64,
    invoker: F,
) -> (result: Result<(), ProcessorError>)
    where F: Fn(CrossCall) -> Result<(), ProgramError>
    requires
        forall|call: CrossCall|
            initialize_calls(data.decimals, lamports, space).contains(call) ==> call_requires(
                invoker,
                (call,),
            ),
    ensures
        exists|outcomes: Seq<Result<(), ProgramError>>|
            {
                &&& #[trigger] answered_by(
                    invoker,
                    initialize_calls(data.decimals, lamports, space),
                    outcomes,
                )
                &&& Progress::run(initialize_calls(data.decimals, lamports, space), outcomes).1
                    == Step::Return(result)
            },
        result is Err ==> result->Err_0 is CrossModule,
{
    let plan = initialize_plan(data, lamports, space);
    assert forall|i: int| 0 <= i < plan@.len() implies call_requires(
        invoker,
        (#[trigger] plan@[i],),
    ) by {
        assert(plan@.contains(plan@[i]));
    }
    run_plan(plan, invoker)
}

/// Mints `data.amount` tokens into the holder's account through `invoker`.
/// The account is created first if `holder_lamports`, its balance, is zero.
///
/// The result is the one that [`Progress::run`] gives for the calls of
/// [`mint_calls`] and the outcomes that the invoker answered with.
pub fn mint_token_with<F>(data: MintToArgs, holder_lamports: u64, invoker: F) -> (result: Result<
    (),
    ProcessorError,
>)
    where F: Fn(CrossCall) -> Result<(), ProgramError>
    requires
        forall|call: CrossCall|
            mint_calls(data.amount, holder_lamports).contains(call) ==> call_requires(
                invoker,
                (call,),
            ),
    ensures
        exists|outcomes: Seq<Result<(), ProgramError>>|
            {
                &&& #[trigger] answered_by(
                    invoker,
                    mint_calls(data.amount, holder_lamports),
                    outcomes,
                )
                &&& Progress::run(mint_calls(data.amount, holder_lamports), outcomes).1
                    == Step::Return(result)
            },
        result is Err ==> result->Err_0 is CrossModule,
{
    let plan = mint_plan(data, holder_lamports);
    assert forall|i: int| 0 <= i < plan@.len() implies call_requires(
        invoker,
        (#[trigger] plan@[i],),
    ) by {
        assert(plan@.contains(plan@[i]));
    }
    run_plan(plan, invoker)
}

/// Mints `data.amount` tokens through `invoker` into a holder's account
/// that exists already.
///
/// The result is the one that [`Progress::run`] gives for the one call of
/// [`direct_mint_calls`] and the outcome that the invoker answered with.
pub fn mint_token_direct_with<F>(data: MintToArgs, invoker: F) -> (result: Result<
    (),
    ProcessorError,
>)
    where F: Fn(CrossCall) -> Result<(), ProgramError>
    requires
        forall|call: CrossCall|
            direct_mint_calls(data.amount).contains(call) ==> call_requires(invoker, (call,)),
    ensures
        exists|outcomes: Seq<Result<(), ProgramError>>|
            {
                &&& #[trigger] answered_by(invoker, direct_mint_calls(data.amount), outcomes)
                &&& Progress::run(direct_mint_calls(data.amount), outcomes).1 == Step::Return(
                    result,
                )
            },
        result is Err ==> result->Err_0 is CrossModule,
{
    let plan = direct_mint_plan(data);
    assert forall|i: int| 0 <= i < plan@.len() implies call_requires(
        invoker,
        (#[trigger] plan@[i],),
    ) by {
        assert(plan@.contains(plan@[i]));
    }
    run_plan(plan, invoker)
}

/// Whether `balance` is what [`holder_balance`] returns where the host
/// answered `answer` for the balance of the holder's account: that balance,
/// or the host's error as it came.
pub open spec fn read_from_holder(
    accounts: &[AccountInfo<'_>],
    answer: Result<u64, ProgramError>,
    balance: Result<u64, ProcessorError>,
) -> bool {
    &&& call_ensures(AccountInfo::try_lamports, (&accounts@[MINT_TO_HOLDER as int],), answer)
    &&& balance == match answer {
        Ok(lamports) => Ok::<u64, ProcessorError>(lamports),
        Err(error) => Err(ProcessorError::CrossModule(error)),
    }
}

/// The balance of the holder's account of a mint, as the host holds it now.
/// An error of the host is handed on as it came.
pub fn holder_balance(accounts: &[AccountInfo<'_>]) -> (balance: Result<u64, ProcessorError>)
    requires
        accounts@.len() > MINT_TO_HOLDER,
    ensures
        exists|answer: Result<u64, ProgramError>| #[trigger]
            read_from_holder(accounts, answer, balance),
        balance is Err ==> balance->Err_0 is CrossModule,
{
    let answer = accounts[MINT_TO_HOLDER].try_lamports();
    let ghost held = answer;
    let balance = match answer {
        Ok(lamports) => Ok(lamports),
        Err(error) => Err(ProcessorError::CrossModule(error)),
    };
    assert(read_from_holder(accounts, held, balance));
    balance
}

/// Whether `outcomes` are answers that [`issue`] returned for the calls of
/// `plan` on `accounts`, the first outcome for the first call.
pub open spec fn answered_by_host(
    accounts: &[AccountInfo<'_>],
    plan: Seq<CrossCall>,
    outcomes: Seq<Result<(), ProgramError>>,
) -> bool {
    &&& outcomes.len() <= plan.len()
    &&& forall|i: int|
        0 <= i < outcomes.len() ==> call_ensures(issue, (plan[i], accounts), #[trigger] outcomes[i])
}

/// Whether `result` is what the sequencing rule gives for `plan` and
/// `outcomes`, and `outcomes` are the host's answers to the plan's calls.
pub open spec fn run_on_host(
    accounts: &[AccountInfo<'_>],
    plan: Seq<CrossCall>,
    outcomes: Seq<Result<(), ProgramError>>,
    result: Result<(), ProcessorError>,
) -> bool {
    &&& answered_by_host(accounts, plan, outcomes)
    &&& Progress::run(plan, outcomes).1 == Step::Return(result)
}

/// Whether `result` is what an initialize returns on `accounts` where the
/// rent oracle answered `quote` and the host answered the calls with
/// `outcomes`: the oracle's error, or else what the sequencing rule gives
/// for the calls of [`initialize_calls`] at the balance quoted.
pub open spec fn initialized(
    accounts: &[AccountInfo<'_>],
    data: InitializeMintArgs,
    quote: Result<u64, ProcessorError>,
    outcomes: Seq<Result<(), ProgramError>>,
    result: Result<(), ProcessorError>,
) -> bool {
    &&& call_ensures(rent_exempt_balance, (MINT_STATE_LEN,), quote)
    &&& match quote {
        Err(error) => result == Err::<(), ProcessorError>(error),
        Ok(lamports) => run_on_host(
            accounts,
            initialize_calls(data.decimals, lamports, MINT_STATE_LEN as u64),
            outcomes,
            result,
        ),
    }
}

/// Whether `result` is what a mint returns on `accounts` where the host
/// answered `balance` for the holder's account and answered the calls with
/// `outcomes`: the host's error, or else what the sequencing rule gives for
/// the calls of [`mint_calls`] at that balance.
pub open spec fn minted(
    accounts: &[AccountInfo<'_>],
    data: MintToArgs,
    balance: Result<u64, ProcessorError>,
    outcomes: Seq<Result<(), ProgramError>>,
    result: Result<(), ProcessorError>,
) -> bool {
    &&& call_ensures(holder_balance, (accounts,), balance)
    &&& match balance {
        Err(error) => result == Err::<(), ProcessorError>(error),
        Ok(lamports) => run_on_host(
            accounts,
            mint_calls(data.amount, lamports),
            outcomes,
            result,
        ),
    }
}

/// Creates a mint: reads the size of mint state and the balance that
/// exempts it from rent, and runs [`initialize_mint_with`] on the host's
/// invoker.
///
/// `accounts` follows [`AccountLayout::Initialize`]. A list that is too
/// short is refused before the host is asked anything. On any other list
/// the result is the one that [`initialized`] describes, for what the rent
/// oracle and the host's invoker answered.
pub fn initialize_mint(accounts: &[AccountInfo<'_>], data: InitializeMintArgs) -> (result: Result<
    (),
    ProcessorError,
>)
    ensures
        accounts@.len() < AccountLayout::Initialize.required().len() <==> result == Err::<
            (),
            ProcessorError,
        >(ProcessorError::NotEnoughAccountKeys),
        accounts@.len() >= AccountLayout::Initialize.required().len() ==> exists|
            quote: Result<u64, ProcessorError>,
            outcomes: Seq<Result<(), ProgramError>>,
        | #[trigger] initialized(accounts, data, quote, outcomes, result),
        result is Err ==> result->Err_0 is NotEnoughAccountKeys || result->Err_0 is RentOutOfRange
            || result->Err_0 is CrossModule,
{
    if !AccountLayout::Initialize.admits(accounts.len()) {
        return Err(ProcessorError::NotEnoughAccountKeys);
    }
    let space: usize = mint_space();
    let quote = rent_exempt_balance(space);
    let ghost answer = quote;
    match quote {
        Err(error) => {
            assert(initialized(accounts, data, answer, Seq::empty(), Err(error)));
            Err(error)
        },
        Ok(lamports) => {
            let invoker = |call: CrossCall| -> (outcome: Result<(), ProgramError>)
                requires
                    call.within(accounts@.len()),
                ensures
                    call_ensures(issue, (call, accounts), outcome),
                { issue(call, accounts) };
            proof {
                lemma_initialize_fits_layout(data.decimals, lamports, space as u64);
            }
            let result = initialize_mint_with(data, lamports, space as u64, invoker);
            proof {
                let plan = initialize_calls(data.decimals, lamports, space as u64);
                let outcomes = choose|outcomes: Seq<Result<(), ProgramError>>|
                    #[trigger] answered_by(invoker, plan, outcomes) && Progress::run(
                        plan,
                        outcomes,
                    ).1 == Step::Return(result);
                assert(initialized(accounts, data, answer, outcomes, result));
            }
            result
        },
    }
}

/// Mints `data.amount` tokens into the holder's account: reads the
/// account's balance and runs [`mint_token_with`] on the host's invoker.
///
/// `accounts` follows [`AccountLayout::MintTo`]. A list that is too short is
/// refused before any account is read. On any other list the result is the
/// one that [`minted`] describes, for what the host answered.
pub fn mint_token(accounts: &[AccountInfo<'_>], data: MintToArgs) -> (result: Result<
    (),
    ProcessorError,
>)
    ensures
        accounts@.len() < AccountLayout::MintTo.required().len() <==> result == Err::<
            (),
            ProcessorError,
        >(ProcessorError::NotEnoughAccountKeys),
        accounts@.len() >= AccountLayout::MintTo.required().len() ==> exists|
            balance: Result<u64, ProcessorError>,
            outcomes: Seq<Result<(), ProgramError>>,
        | #[trigger] minted(accounts, data, balance, outcomes, result),
        result is Err ==> result->Err_0 is NotEnoughAccountKeys || result->Err_0 is CrossModule,
{
    if !AccountLayout::MintTo.admits(accounts.len()) {
        return Err(ProcessorError::NotEnoughAccountKeys);
    }
    let balance = holder_balance(accounts);
    let ghost answer = balance;
    match balance {
        Err(error) => {
            assert(minted(accounts, data, answer, Seq::empty(), Err(error)));
            Err(error)
        },
        Ok(holder_lamports) => {
            let invoker = |call: CrossCall| -> (outcome: Result<(), ProgramError>)
                requires
                    call.within(accounts@.len()),
                ensures
                    call_ensures(issue, (call, accounts), outcome),
                { issue(call, accounts) };
            proof {
                lemma_mint_fits_layout(data.amount, holder_lamports);
            }
            let result = mint_token_with(data, holder_lamports, invoker);
            proof {
                let plan = mint_calls(data.amount, holder_lamports);
                let outcomes = choose|outcomes: Seq<Result<(), ProgramError>>|
                    #[trigger] answered_by(invoker, plan, outcomes) && Progress::run(
                        plan,
                        outcomes,
                    ).1 == Step::Return(result);
                assert(minted(accounts, data, answer, outcomes, result));
            }
            result
        },
    }
}

/// Mints `data.amount` tokens into a holder's account that exists already:
/// runs [`mint_token_direct_with`] on the host's invoker. No account is
/// created, and the authority is not listed as a co-signer.
///
/// `accounts` follows [`AccountLayout::MintToDirect`]. A list that is too
/// short is refused before any account is read. On any other list the
/// result is what the sequencing rule gives for the one call of
/// [`direct_mint_calls`] and what the host answered.
pub fn mint_token_direct(accounts: &[AccountInfo<'_>], data: MintToArgs) -> (result: Result<
    (),
    ProcessorError,
>)
    ensures
        accounts@.len() < AccountLayout::MintToDirect.required().len() <==> result == Err::<
            (),
            ProcessorError,
        >(ProcessorError::NotEnoughAccountKeys),
        accounts@.len() >= AccountLayout::MintToDirect.required().len() ==> exists|
            outcomes: Seq<Result<(), ProgramError>>,
        | #[trigger] run_on_host(accounts, direct_mint_calls(data.amount), outcomes, result),
        result is Err ==> result->Err_0 is NotEnoughAccountKeys || result->Err_0 is CrossModule,
{
    if !AccountLayout::MintToDirect.admits(accounts.len()) {
        return Err(ProcessorError::NotEnoughAccountKeys);
    }
    let invoker = |call: CrossCall| -> (outcome: Result<(), ProgramError>)
        requires
            call.within(accounts@.len()),
        ensures
            call_ensures(issue, (call, accounts), outcome),
        { issue(call, accounts) };
    proof {
        lemma_direct_mint_fits_layout(data.amount);
    }
    let result = mint_token_direct_with(data, invoker);
    proof {
        let plan = direct_mint_calls(data.amount);
        let outcomes = choose|outcomes: Seq<Result<(), ProgramError>>|
            #[trigger] answered_by(invoker, plan, outcomes) && Progress::run(plan, outcomes).1
                == Step::Return(result);
        assert(run_on_host(accounts, plan, outcomes, result));
    }
    result
}

/// Processes one instruction: decodes `instruction_data` and runs the
/// command it stands for on `accounts`. A payload that is no command is
/// refused before any account is read; the result of any other is the
/// result of [`initialize_mint`] or of [`mint_token`] on the command's
/// argument.
pub fn process_instruction(
    _program_id: &Pubkey,
    accounts: &[AccountInfo<'_>],
    instruction_data: &[u8],
) -> (result: Result<(), ProcessorError>)
    ensures
        match SplTokenMint::parse(instruction_data@) {
            Err(error) => result == Err::<(), ProcessorError>(ProcessorError::Decode(error)),
            Ok(SplTokenMint::Initialize(data)) => call_ensures(
                initialize_mint,
                (accounts, data),
                result,
            ),
            Ok(SplTokenMint::Mint(data)) => call_ensures(mint_token, (accounts, data), result),
        },
{
    match SplTokenMint::try_from_slice(instruction_data) {
        Err(error) => Err(ProcessorError::Decode(error)),
        Ok(SplTokenMint::Initialize(data)) => initialize_mint(accounts, data),
        Ok(SplTokenMint::Mint(data)) => mint_token(accounts, data),
    }
}

} // verus!
