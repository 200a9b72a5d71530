use solana_program::rent::Rent;
use spl_token_mint::error::ProcessorError;
use spl_token_mint::host::{ACCOUNT_STORAGE_OVERHEAD, MINT_STATE_LEN};
use spl_token_mint::processor::{balance_at, mint_space};

fn rent_at(lamports_per_byte_year: u64) -> Rent {
    Rent { lamports_per_byte_year, exemption_threshold: 2.0, burn_percent: 50 }
}

#[test]
fn mint_state_is_eighty_two_bytes() {
    assert_eq!(mint_space(), 82);
    assert_eq!(MINT_STATE_LEN, 82);
    assert_eq!(ACCOUNT_STORAGE_OVERHEAD, 128);
    assert_eq!(MINT_STATE_LEN, <spl_token::state::Mint as solana_program::program_pack::Pack>::LEN);
    assert_eq!(ACCOUNT_STORAGE_OVERHEAD, solana_program::rent::ACCOUNT_STORAGE_OVERHEAD);
}

#[test]
fn balance_for_mint_state_at_the_default_rate() {
    assert_eq!(balance_at(&Rent::default(), 82), Ok(1_461_600));
    assert_eq!(balance_at(&rent_at(3_480), 82), Ok((128 + 82) * 3_480 * 2));
}

#[test]
fn balance_is_the_oracle_s_own() {
    for (rate, space) in [(0, 82), (1, 0), (3_480, 165), (1_000_000, 10_000)] {
        let rent = rent_at(rate);
        assert_eq!(balance_at(&rent, space), Ok(rent.minimum_balance(space)));
    }
}

#[test]
fn balance_at_the_highest_rate_in_range() {
    let highest = u64::MAX / 210;
    assert!(balance_at(&rent_at(highest), 82).is_ok());
    assert_eq!(balance_at(&rent_at(highest + 1), 82), Err(ProcessorError::RentOutOfRange));
}

#[test]
fn balance_at_a_rate_out_of_range_is_refused() {
    assert_eq!(balance_at(&rent_at(u64::MAX), 82), Err(ProcessorError::RentOutOfRange));
    assert_eq!(balance_at(&rent_at(u64::MAX / 128 + 1), 0), Err(ProcessorError::RentOutOfRange));
    assert!(balance_at(&rent_at(u64::MAX / 128), 0).is_ok());
}

#[test]
fn balance_for_a_size_out_of_range_is_refused() {
    assert_eq!(balance_at(&rent_at(0), usize::MAX), Err(ProcessorError::RentOutOfRange));
    assert_eq!(balance_at(&rent_at(1), usize::MAX - 127), Err(ProcessorError::RentOutOfRange));
    assert_eq!(balance_at(&rent_at(0), usize::MAX - 128), Ok(0));
}
