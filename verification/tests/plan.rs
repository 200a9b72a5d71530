use spl_token_mint::call::CrossCall;
use spl_token_mint::instruction::{InitializeMintArgs, MintToArgs};
use spl_token_mint::plan::{direct_mint_plan, initialize_plan, mint_plan};

fn create_mint_account(lamports: u64, space: u64) -> CrossCall {
    CrossCall::CreateAccount {
        system_program: 2,
        payer: 1,
        new_account: 0,
        owner: 3,
        lamports,
        space,
    }
}

fn initialize_mint_state(decimals: u8) -> CrossCall {
    CrossCall::InitializeMint { token_program: 3, mint: 0, authority: 1, rent_sysvar: 4, decimals }
}

fn create_holder_account() -> CrossCall {
    CrossCall::CreateAssociatedAccount {
        associated_program: 6,
        payer: 3,
        holder: 2,
        wallet: 3,
        mint: 0,
        system_program: 4,
        token_program: 5,
    }
}

fn mint_to_holder(amount: u64) -> CrossCall {
    CrossCall::MintTo {
        token_program: 5,
        mint: 0,
        holder: 2,
        authority: 1,
        co_signed: true,
        amount,
    }
}

#[test]
fn initialize_creates_the_account_and_then_initializes_it() {
    let plan = initialize_plan(InitializeMintArgs { decimals: 2 }, 1_461_600, 82);
    assert_eq!(plan, vec![create_mint_account(1_461_600, 82), initialize_mint_state(2)]);
}

#[test]
fn initialize_forwards_decimals_as_they_came() {
    for decimals in [0, 1, 9, 254, 255] {
        let plan = initialize_plan(InitializeMintArgs { decimals }, 7, 82);
        assert_eq!(plan[1], initialize_mint_state(decimals));
    }
}

#[test]
fn initialize_forwards_balance_and_size_as_they_came() {
    for (lamports, space) in [(0, 0), (1, 82), (u64::MAX, u64::MAX)] {
        let plan = initialize_plan(InitializeMintArgs { decimals: 6 }, lamports, space);
        assert_eq!(plan[0], create_mint_account(lamports, space));
    }
}

#[test]
fn mint_into_a_missing_holder_creates_it_first() {
    let plan = mint_plan(MintToArgs { amount: 50 }, 0);
    assert_eq!(plan, vec![create_holder_account(), mint_to_holder(50)]);
}

#[test]
fn mint_into_an_existing_holder_creates_nothing() {
    for lamports in [1, 2_039_280, u64::MAX] {
        let plan = mint_plan(MintToArgs { amount: 50 }, lamports);
        assert_eq!(plan, vec![mint_to_holder(50)]);
    }
}

#[test]
fn mint_forwards_the_amount_as_it_came() {
    for amount in [0, 1, 50, u64::MAX] {
        assert_eq!(mint_plan(MintToArgs { amount }, 1), vec![mint_to_holder(amount)]);
        assert_eq!(mint_plan(MintToArgs { amount }, 0)[1], mint_to_holder(amount));
    }
}

#[test]
fn direct_mint_is_one_call_without_a_co_signer() {
    let plan = direct_mint_plan(MintToArgs { amount: 50 });
    assert_eq!(
        plan,
        vec![CrossCall::MintTo {
            token_program: 3,
            mint: 0,
            holder: 1,
            authority: 2,
            co_signed: false,
            amount: 50,
        }]
    );
}

#[test]
fn calls_hand_over_their_accounts_in_order() {
    assert_eq!(create_mint_account(1, 82).account_handles(), vec![0, 1, 2, 3]);
    assert_eq!(initialize_mint_state(2).account_handles(), vec![0, 4, 3]);
    assert_eq!(create_holder_account().account_handles(), vec![0, 2, 3, 4, 5, 6]);
    assert_eq!(mint_to_holder(50).account_handles(), vec![0, 1, 2, 5]);
    assert_eq!(direct_mint_plan(MintToArgs { amount: 5 })[0].account_handles(), vec![0, 2, 1, 3]);
}

#[test]
fn calls_take_their_arguments_in_the_order_of_the_called_module() {
    assert_eq!(create_mint_account(1, 82).argument_positions(), vec![1, 0, 3]);
    assert_eq!(initialize_mint_state(2).argument_positions(), vec![3, 0, 1]);
    assert_eq!(create_holder_account().argument_positions(), vec![3, 3, 0, 5]);
    assert_eq!(mint_to_holder(50).argument_positions(), vec![5, 0, 2, 1]);
    assert_eq!(
        direct_mint_plan(MintToArgs { amount: 5 })[0].argument_positions(),
        vec![3, 0, 1, 2]
    );
}
