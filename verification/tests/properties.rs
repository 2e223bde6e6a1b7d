use carbon_credit_token::admin::{read_administrator, write_administrator};
use carbon_credit_token::allowance::{read_allowance, spend_allowance, write_allowance};
use carbon_credit_token::balance::{read_balance, receive_balance, spend_balance};
use carbon_credit_token::metadata::{read_decimals, read_name, read_symbol, write_metadata};
use carbon_credit_token::storage::{
    is_initialized, read_total_retired, read_total_supply, set_initialized, write_total_retired,
    write_total_supply,
};
use carbon_credit_token::{check_nonnegative_amount, CarbonCreditToken, Error, Principal};

fn create_token(admin: Principal) -> CarbonCreditToken {
    let mut token = CarbonCreditToken::new();
    token
        .initialize(
            admin,
            String::from("Carbon Credit Token"),
            String::from("CCT"),
            0u32,
        )
        .unwrap();
    token
}

// ============ ERROR CASES ============

#[test]
fn test_initialize_twice_fails() {
    let admin = Principal { id: 1 };
    let mut token = create_token(admin);

    let r = token.initialize(admin, String::from("Again"), String::from("AGN"), 7u32);
    assert_eq!(r, Err(Error::AlreadyInitialized));
    // the first metadata stands
    assert_eq!(token.name(), String::from("Carbon Credit Token"));
}

#[test]
fn test_mint_unauthorized() {
    let admin = Principal { id: 1 };
    let user1 = Principal { id: 2 };
    let mut token = create_token(admin);

    assert_eq!(token.mint(user1, user1, 100), Err(Error::Unauthorized));
    assert_eq!(token.balance(user1), 0);
    assert_eq!(token.total_supply(), 0);
}

#[test]
fn test_transfer_wrong_caller() {
    let admin = Principal { id: 1 };
    let user1 = Principal { id: 2 };
    let user2 = Principal { id: 3 };
    let mut token = create_token(admin);

    token.mint(admin, user1, 1000).unwrap();
    assert_eq!(
        token.transfer(user2, user1, user2, 100),
        Err(Error::Unauthorized)
    );
    assert_eq!(token.balance(user1), 1000);
}

#[test]
fn test_negative_amounts_rejected() {
    let admin = Principal { id: 1 };
    let user1 = Principal { id: 2 };
    let spender = Principal { id: 4 };
    let mut token = create_token(admin);

    token.mint(admin, user1, 1000).unwrap();

    assert_eq!(token.mint(admin, user1, -1), Err(Error::NegativeAmount));
    assert_eq!(
        token.transfer(user1, user1, spender, -5),
        Err(Error::NegativeAmount)
    );
    assert_eq!(
        token.burn(user1, user1, -3),
        Err(Error::NegativeAmount)
    );
    assert_eq!(
        token.retire(user1, user1, -2, 0),
        Err(Error::NegativeAmount)
    );
    assert_eq!(
        token.approve(user1, user1, spender, -7, 100, 0),
        Err(Error::NegativeAmount)
    );
    assert_eq!(token.balance(user1), 1000);
    assert_eq!(check_nonnegative_amount(-1), Err(Error::NegativeAmount));
    assert_eq!(check_nonnegative_amount(0), Ok(()));
}

#[test]
fn test_retire_zero_amount_fails() {
    let admin = Principal { id: 1 };
    let user1 = Principal { id: 2 };
    let mut token = create_token(admin);

    token.mint(admin, user1, 1000).unwrap();
    assert_eq!(
        token.retire(user1, user1, 0, 0),
        Err(Error::ZeroAmountDisallowed)
    );
    assert_eq!(token.total_retired(), 0);
}

#[test]
fn test_transfer_insufficient_balance() {
    let admin = Principal { id: 1 };
    let user1 = Principal { id: 2 };
    let user2 = Principal { id: 3 };
    let mut token = create_token(admin);

    token.mint(admin, user1, 1000).unwrap();
    assert_eq!(
        token.transfer(user1, user1, user2, 1001),
        Err(Error::InsufficientBalance)
    );
    assert_eq!(token.balance(user1), 1000);
    assert_eq!(token.balance(user2), 0);
}

#[test]
fn test_transfer_from_insufficient_allowance() {
    let admin = Principal { id: 1 };
    let user1 = Principal { id: 2 };
    let user2 = Principal { id: 3 };
    let spender = Principal { id: 4 };
    let mut token = create_token(admin);

    token.mint(admin, user1, 1000).unwrap();
    token.approve(user1, user1, spender, 500, 1000, 0).unwrap();
    assert_eq!(
        token.transfer_from(spender, spender, user1, user2, 600, 0),
        Err(Error::InsufficientAllowance)
    );
    assert_eq!(token.balance(user1), 1000);
    assert_eq!(token.allowance(user1, spender, 0), 500);
}

#[test]
fn test_approve_expired_expiration_fails() {
    // Scenario: a positive approval whose expiration ordinal already passed
    let admin = Principal { id: 1 };
    let user1 = Principal { id: 2 };
    let spender = Principal { id: 4 };
    let mut token = create_token(admin);

    let r = token.approve(user1, user1, spender, 500, 5, 10);
    assert_eq!(r, Err(Error::InvalidExpiration));
    assert_eq!(token.allowance(user1, spender, 10), 0);
}

#[test]
fn test_mint_overflow_fails() {
    let admin = Principal { id: 1 };
    let user1 = Principal { id: 2 };
    let user2 = Principal { id: 3 };
    let mut token = create_token(admin);

    token.mint(admin, user1, i128::MAX).unwrap();
    assert_eq!(
        token.mint(admin, user2, 1),
        Err(Error::ArithmeticOverflow)
    );
    assert_eq!(token.total_supply(), i128::MAX);
    assert_eq!(token.balance(user2), 0);
}

#[test]
fn test_retired_counter_overflow_fails() {
    let admin = Principal { id: 1 };
    let user1 = Principal { id: 2 };
    let mut token = create_token(admin);

    token.mint(admin, user1, i128::MAX).unwrap();
    token.retire(user1, user1, i128::MAX, 0).unwrap();
    assert_eq!(token.total_retired(), i128::MAX);

    token.mint(admin, user1, 1).unwrap();
    assert_eq!(
        token.retire(user1, user1, 1, 0),
        Err(Error::ArithmeticOverflow)
    );
    assert_eq!(token.balance(user1), 1);
    assert_eq!(token.total_retired(), i128::MAX);
}

// ============ GENERAL PROPERTIES ON CONCRETE VALUES ============

#[test]
fn test_balances_stay_nonnegative() {
    let admin = Principal { id: 1 };
    let user1 = Principal { id: 2 };
    let user2 = Principal { id: 3 };
    let mut token = create_token(admin);

    token.mint(admin, user1, 100).unwrap();
    token.transfer(user1, user1, user2, 100).unwrap();
    let _ = token.transfer(user1, user1, user2, 1);
    let _ = token.burn(user1, user1, 50);
    let _ = token.retire(user2, user2, 500, 0);

    assert!(token.balance(user1) >= 0);
    assert!(token.balance(user2) >= 0);
    assert!(token.balance(admin) >= 0);
}

#[test]
fn test_supply_equals_sum_of_balances() {
    let admin = Principal { id: 1 };
    let user1 = Principal { id: 2 };
    let user2 = Principal { id: 3 };
    let user3 = Principal { id: 5 };
    let mut token = create_token(admin);

    token.mint(admin, user1, 1000).unwrap();
    token.mint(admin, user2, 500).unwrap();
    token.transfer(user1, user1, user3, 250).unwrap();
    token.burn(user2, user2, 100).unwrap();
    token.retire(user3, user3, 50, 0).unwrap();

    let sum = token.balance(admin)
        + token.balance(user1)
        + token.balance(user2)
        + token.balance(user3);
    assert_eq!(token.total_supply(), sum);
}

#[test]
fn test_approve_then_allowance_roundtrip() {
    let admin = Principal { id: 1 };
    let user1 = Principal { id: 2 };
    let spender = Principal { id: 4 };
    let mut token = create_token(admin);

    token.approve(user1, user1, spender, 500, 100, 0).unwrap();
    assert_eq!(token.allowance(user1, spender, 0), 500);
    // still valid at exactly the expiration ordinal
    assert_eq!(token.allowance(user1, spender, 100), 500);
}

#[test]
fn test_allowance_expires() {
    let admin = Principal { id: 1 };
    let user1 = Principal { id: 2 };
    let spender = Principal { id: 4 };
    let mut token = create_token(admin);

    token.approve(user1, user1, spender, 500, 100, 0).unwrap();
    // one ordinal past the expiration the grant reads as zero
    assert_eq!(token.allowance(user1, spender, 101), 0);
    let user2 = Principal { id: 3 };
    token.mint(admin, user1, 1000).unwrap();
    assert_eq!(
        token.transfer_from(spender, spender, user1, user2, 1, 101),
        Err(Error::InsufficientAllowance)
    );
}

#[test]
fn test_read_accessors_idempotent() {
    let admin = Principal { id: 1 };
    let user1 = Principal { id: 2 };
    let spender = Principal { id: 4 };
    let mut token = create_token(admin);

    token.mint(admin, user1, 1000).unwrap();
    token.approve(user1, user1, spender, 500, 100, 0).unwrap();

    assert_eq!(token.balance(user1), token.balance(user1));
    assert_eq!(
        token.allowance(user1, spender, 0),
        token.allowance(user1, spender, 0)
    );
    assert_eq!(token.total_supply(), token.total_supply());
    assert_eq!(token.total_retired(), token.total_retired());
    assert_eq!(token.name(), token.name());
    assert_eq!(token.symbol(), token.symbol());
    assert_eq!(token.decimals(), token.decimals());
}

#[test]
fn test_failed_transfer_from_leaves_no_partial_state() {
    // sufficient allowance but insufficient balance: neither ledger moves
    let admin = Principal { id: 1 };
    let user1 = Principal { id: 2 };
    let user2 = Principal { id: 3 };
    let spender = Principal { id: 4 };
    let mut token = create_token(admin);

    token.mint(admin, user1, 100).unwrap();
    token.approve(user1, user1, spender, 500, 1000, 0).unwrap();

    assert_eq!(
        token.transfer_from(spender, spender, user1, user2, 200, 0),
        Err(Error::InsufficientBalance)
    );
    assert_eq!(token.allowance(user1, spender, 0), 500);
    assert_eq!(token.balance(user1), 100);
    assert_eq!(token.balance(user2), 0);
}

#[test]
fn test_spend_keeps_original_expiration() {
    let admin = Principal { id: 1 };
    let user1 = Principal { id: 2 };
    let user2 = Principal { id: 3 };
    let spender = Principal { id: 4 };
    let mut token = create_token(admin);

    token.mint(admin, user1, 1000).unwrap();
    token.approve(user1, user1, spender, 500, 50, 0).unwrap();
    token.transfer_from(spender, spender, user1, user2, 200, 0).unwrap();

    // the remaining grant keeps the window it was approved with
    assert_eq!(token.allowance(user1, spender, 50), 300);
    assert_eq!(token.allowance(user1, spender, 51), 0);
}

#[test]
fn test_transfer_to_self_changes_nothing() {
    let admin = Principal { id: 1 };
    let user1 = Principal { id: 2 };
    let mut token = create_token(admin);

    token.mint(admin, user1, 1000).unwrap();
    token.transfer(user1, user1, user1, 400).unwrap();

    assert_eq!(token.balance(user1), 1000);
    assert_eq!(token.total_supply(), 1000);
}

// ============ COMPONENT LAYER ============

#[test]
fn test_balance_component() {
    let user = Principal { id: 8 };
    let mut token = CarbonCreditToken::new();

    assert_eq!(read_balance(&token, user), 0);
    receive_balance(&mut token, user, 50).unwrap();
    assert_eq!(read_balance(&token, user), 50);
    spend_balance(&mut token, user, 20).unwrap();
    assert_eq!(read_balance(&token, user), 30);
    assert_eq!(
        spend_balance(&mut token, user, 100),
        Err(Error::InsufficientBalance)
    );
    assert_eq!(
        receive_balance(&mut token, user, i128::MAX),
        Err(Error::ArithmeticOverflow)
    );
    assert_eq!(read_balance(&token, user), 30);
}

#[test]
fn test_allowance_component() {
    let owner = Principal { id: 8 };
    let spender = Principal { id: 9 };
    let mut token = CarbonCreditToken::new();

    assert_eq!(read_allowance(&token, owner, spender, 0), 0);
    write_allowance(&mut token, owner, spender, 10, 5, 0).unwrap();
    assert_eq!(read_allowance(&token, owner, spender, 0), 10);
    spend_allowance(&mut token, owner, spender, 4, 0).unwrap();
    assert_eq!(read_allowance(&token, owner, spender, 5), 6);
    assert_eq!(read_allowance(&token, owner, spender, 6), 0);
    assert_eq!(
        spend_allowance(&mut token, owner, spender, 7, 0),
        Err(Error::InsufficientAllowance)
    );
    assert_eq!(
        write_allowance(&mut token, owner, spender, 5, 1, 10),
        Err(Error::InvalidExpiration)
    );
    assert_eq!(read_allowance(&token, owner, spender, 0), 6);
}

#[test]
fn test_storage_and_metadata_components() {
    let adm = Principal { id: 7 };
    let mut token = CarbonCreditToken::new();

    assert!(!is_initialized(&token));
    assert_eq!(read_total_supply(&token), 0);
    assert_eq!(read_total_retired(&token), 0);

    write_total_supply(&mut token, 30);
    assert_eq!(read_total_supply(&token), 30);
    write_total_retired(&mut token, 7);
    assert_eq!(read_total_retired(&token), 7);

    set_initialized(&mut token);
    assert!(is_initialized(&token));

    write_administrator(&mut token, adm);
    assert_eq!(read_administrator(&token), adm);

    write_metadata(&mut token, String::from("N"), String::from("S"), 2);
    assert_eq!(read_name(&token), String::from("N"));
    assert_eq!(read_symbol(&token), String::from("S"));
    assert_eq!(read_decimals(&token), 2);
}
