use solana_program::program_error::ProgramError;
use spl_token_mint::call::CrossCall;
use spl_token_mint::error::ProcessorError;
use spl_token_mint::instruction::{InitializeMintArgs, MintToArgs};
use spl_token_mint::plan::{initialize_plan, mint_plan};
use spl_token_mint::sequence::{run_plan, Sequencer, Step};
use std::cell::RefCell;

fn creation() -> CrossCall {
    CrossCall::CreateAccount {
        system_program: 2,
        payer: 1,
        new_account: 0,
        owner: 3,
        lamports: 1_461_600,
        space: 82,
    }
}

fn initialization(decimals: u8) -> CrossCall {
    CrossCall::InitializeMint { token_program: 3, mint: 0, authority: 1, rent_sysvar: 4, decimals }
}

fn initialize_two_decimals() -> Vec<CrossCall> {
    initialize_plan(InitializeMintArgs { decimals: 2 }, 1_461_600, 82)
}

#[test]
fn an_empty_plan_succeeds_at_once() {
    let (_, step) = Sequencer::begin(Vec::new());
    assert_eq!(step, Step::Return(Ok(())));
}

#[test]
fn a_run_begins_with_the_first_call() {
    let (_, step) = Sequencer::begin(initialize_two_decimals());
    assert_eq!(step, Step::Invoke(creation()));
}

#[test]
fn a_success_leads_to_the_next_call_and_then_to_the_end() {
    let (run, _) = Sequencer::begin(initialize_two_decimals());
    let (run, step) = run.resume(Ok(()));
    assert_eq!(step, Step::Invoke(initialization(2)));
    let (_, step) = run.resume(Ok(()));
    assert_eq!(step, Step::Return(Ok(())));
}

#[test]
fn a_failed_creation_ends_the_initialize() {
    let (run, step) = Sequencer::begin(initialize_two_decimals());
    assert_eq!(step, Step::Invoke(creation()));
    let (_, step) = run.resume(Err(ProgramError::InsufficientFunds));
    assert_eq!(
        step,
        Step::Return(Err(ProcessorError::CrossModule(ProgramError::InsufficientFunds)))
    );
}

#[test]
fn a_failed_last_call_fails_the_run_with_its_own_error() {
    let (run, _) = Sequencer::begin(initialize_two_decimals());
    let (run, _) = run.resume(Ok(()));
    let (_, step) = run.resume(Err(ProgramError::Custom(6)));
    assert_eq!(step, Step::Return(Err(ProcessorError::CrossModule(ProgramError::Custom(6)))));
}

#[test]
fn run_plan_issues_every_call_in_order() {
    let received = RefCell::new(Vec::new());
    let result = run_plan(initialize_two_decimals(), |call| {
        received.borrow_mut().push(call);
        Ok(())
    });
    assert_eq!(result, Ok(()));
    assert_eq!(received.into_inner(), vec![creation(), initialization(2)]);
}

#[test]
fn run_plan_stops_at_the_first_failure() {
    let received = RefCell::new(Vec::new());
    let result = run_plan(initialize_two_decimals(), |call| {
        received.borrow_mut().push(call);
        Err(ProgramError::AccountAlreadyInitialized)
    });
    assert_eq!(
        result,
        Err(ProcessorError::CrossModule(ProgramError::AccountAlreadyInitialized))
    );
    assert_eq!(received.into_inner(), vec![creation()]);
}

#[test]
fn run_plan_returns_the_error_of_the_call_that_failed() {
    let received = RefCell::new(Vec::new());
    let result = run_plan(initialize_two_decimals(), |call| {
        received.borrow_mut().push(call);
        match call {
            CrossCall::InitializeMint { .. } => Err(ProgramError::Custom(0x2a)),
            _ => Ok(()),
        }
    });
    assert_eq!(result, Err(ProcessorError::CrossModule(ProgramError::Custom(0x2a))));
    assert_eq!(received.into_inner().len(), 2);
}

#[test]
fn run_plan_of_nothing_calls_nothing() {
    let received = RefCell::new(0);
    let result = run_plan(Vec::new(), |_| {
        *received.borrow_mut() += 1;
        Ok(())
    });
    assert_eq!(result, Ok(()));
    assert_eq!(received.into_inner(), 0);
}

#[test]
fn run_plan_never_retries() {
    let received = RefCell::new(Vec::new());
    let plan = mint_plan(MintToArgs { amount: 50 }, 0);
    let result = run_plan(plan.clone(), |call| {
        received.borrow_mut().push(call);
        if received.borrow().len() == 2 {
            Err(ProgramError::InvalidArgument)
        } else {
            Ok(())
        }
    });
    assert_eq!(result, Err(ProcessorError::CrossModule(ProgramError::InvalidArgument)));
    assert_eq!(received.into_inner(), plan);
}
