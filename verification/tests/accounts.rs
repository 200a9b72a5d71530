use spl_token_mint::accounts::{
    AccountLayout, Capability, DIRECT_AUTHORITY, DIRECT_HOLDER, DIRECT_MINT,
    DIRECT_TOKEN_PROGRAM, INITIALIZE_AUTHORITY, INITIALIZE_MINT, INITIALIZE_RENT_SYSVAR,
    INITIALIZE_SYSTEM_PROGRAM, INITIALIZE_TOKEN_PROGRAM, MINT_TO_ASSOCIATED_PROGRAM,
    MINT_TO_AUTHORITY, MINT_TO_HOLDER, MINT_TO_MINT, MINT_TO_PAYER, MINT_TO_SYSTEM_PROGRAM,
    MINT_TO_TOKEN_PROGRAM,
};

const READ_ONLY: Capability = Capability { writable: false, signer: false };
const WRITABLE: Capability = Capability { writable: true, signer: false };
const SIGNER: Capability = Capability { writable: false, signer: true };
const WRITABLE_SIGNER: Capability = Capability { writable: true, signer: true };

#[test]
fn initialize_layout_is_mint_authority_system_token_rent() {
    let list = AccountLayout::Initialize.capabilities();
    assert_eq!(list, vec![WRITABLE_SIGNER, WRITABLE_SIGNER, READ_ONLY, READ_ONLY, READ_ONLY]);
    assert_eq!(list[INITIALIZE_MINT], WRITABLE_SIGNER);
    assert_eq!(list[INITIALIZE_AUTHORITY], WRITABLE_SIGNER);
    assert_eq!(list[INITIALIZE_SYSTEM_PROGRAM], READ_ONLY);
    assert_eq!(list[INITIALIZE_TOKEN_PROGRAM], READ_ONLY);
    assert_eq!(list[INITIALIZE_RENT_SYSVAR], READ_ONLY);
}

#[test]
fn mint_layout_is_mint_authority_holder_payer_and_three_modules() {
    let list = AccountLayout::MintTo.capabilities();
    assert_eq!(
        list,
        vec![WRITABLE, SIGNER, WRITABLE, WRITABLE_SIGNER, READ_ONLY, READ_ONLY, READ_ONLY]
    );
    assert_eq!(list[MINT_TO_MINT], WRITABLE);
    assert_eq!(list[MINT_TO_AUTHORITY], SIGNER);
    assert_eq!(list[MINT_TO_HOLDER], WRITABLE);
    assert_eq!(list[MINT_TO_PAYER], WRITABLE_SIGNER);
    assert_eq!(list[MINT_TO_SYSTEM_PROGRAM], READ_ONLY);
    assert_eq!(list[MINT_TO_TOKEN_PROGRAM], READ_ONLY);
    assert_eq!(list[MINT_TO_ASSOCIATED_PROGRAM], READ_ONLY);
}

#[test]
fn direct_mint_layout_is_mint_holder_authority_token() {
    let list = AccountLayout::MintToDirect.capabilities();
    assert_eq!(list, vec![WRITABLE, WRITABLE, SIGNER, READ_ONLY]);
    assert_eq!(list[DIRECT_MINT], WRITABLE);
    assert_eq!(list[DIRECT_HOLDER], WRITABLE);
    assert_eq!(list[DIRECT_AUTHORITY], SIGNER);
    assert_eq!(list[DIRECT_TOKEN_PROGRAM], READ_ONLY);
}

#[test]
fn layouts_name_five_seven_and_four_accounts() {
    assert_eq!(AccountLayout::Initialize.len(), 5);
    assert_eq!(AccountLayout::MintTo.len(), 7);
    assert_eq!(AccountLayout::MintToDirect.len(), 4);
    for layout in [AccountLayout::Initialize, AccountLayout::MintTo, AccountLayout::MintToDirect] {
        assert_eq!(layout.capabilities().len(), layout.len());
    }
}

#[test]
fn a_layout_admits_every_list_that_is_long_enough() {
    for (layout, needed) in [
        (AccountLayout::Initialize, 5),
        (AccountLayout::MintTo, 7),
        (AccountLayout::MintToDirect, 4),
    ] {
        for count in 0..12 {
            assert_eq!(layout.admits(count), count >= needed);
        }
        assert!(layout.admits(usize::MAX));
    }
}
