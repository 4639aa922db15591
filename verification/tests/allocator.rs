use passkey_dapp::Allocator;
use passkey_dapp::FundingSource;
use passkey_dapp::InitError;
use passkey_dapp::Portfolio;
use passkey_dapp::RECORD_BYTES;

const PROGRAM_ID: [u8; 32] = [7; 32];
const COST_PER_BYTE: u64 = 10;

fn owner(tag: u8) -> [u8; 32] {
    let mut id = [0u8; 32];
    id[0] = tag;
    id[31] = tag.wrapping_mul(3);
    id
}

#[test]
fn derive_address_is_pure() {
    let allocator = Allocator::new(PROGRAM_ID, COST_PER_BYTE);
    let first = allocator.derive_address(&owner(1));
    let second = allocator.derive_address(&owner(1));
    assert!(first.is_some());
    assert_eq!(first, second);
}

#[test]
fn derive_address_distinct_owners_distinct_addresses() {
    let allocator = Allocator::new(PROGRAM_ID, COST_PER_BYTE);
    let (addr_a, _) = allocator.derive_address(&owner(1)).unwrap();
    let (addr_b, _) = allocator.derive_address(&owner(2)).unwrap();
    assert_ne!(addr_a, addr_b);
}

#[test]
fn derive_address_matches_backend_derivation() {
    let allocator = Allocator::new(PROGRAM_ID, COST_PER_BYTE);
    let user = owner(5);
    let (addr, bump) = allocator.derive_address(&user).unwrap();
    let program = solana_pubkey::Pubkey::new_from_array(PROGRAM_ID);
    let (expected, expected_bump) =
        solana_pubkey::Pubkey::try_find_program_address(&[b"portfolio", &user], &program)
            .unwrap();
    assert_eq!(addr, expected.to_bytes());
    assert_eq!(bump, expected_bump);
}

#[test]
fn first_initialize_succeeds_with_zero_counter() {
    let mut allocator = Allocator::new(PROGRAM_ID, COST_PER_BYTE);
    let user = owner(1);
    let mut funding = FundingSource { identity: user, balance: 1_000_000 };
    let record = allocator.initialize_portfolio(&user, &mut funding).unwrap();
    assert_eq!(record.owner, user);
    assert_eq!(record.total_value, 0);
    let (addr, _) = allocator.derive_address(&user).unwrap();
    assert!(allocator.slot_exists(&addr));
    let stored = allocator.record_at_address(&addr).unwrap();
    assert_eq!(stored.owner, user);
    assert_eq!(stored.total_value, 0);
    assert_eq!(funding.balance, 1_000_000 - RECORD_BYTES * COST_PER_BYTE);
}

#[test]
fn exact_allocation_cost_is_debited() {
    let mut allocator = Allocator::new(PROGRAM_ID, COST_PER_BYTE);
    let user = owner(9);
    // RECORD_BYTES is 8 + 32 + 8 = 48 bytes, so the cost is 480 here.
    let cost = 48 * COST_PER_BYTE;
    let mut funding = FundingSource { identity: user, balance: cost };
    let record = allocator.initialize_portfolio(&user, &mut funding);
    assert!(record.is_ok());
    assert_eq!(funding.balance, 0);
}

#[test]
fn second_initialize_fails_and_keeps_record() {
    let mut allocator = Allocator::new(PROGRAM_ID, COST_PER_BYTE);
    let user = owner(1);
    let mut funding = FundingSource { identity: user, balance: 1_000_000 };
    allocator.initialize_portfolio(&user, &mut funding).unwrap();
    let balance_after_first = funding.balance;
    let (addr, _) = allocator.derive_address(&user).unwrap();
    let before = allocator.record_at_address(&addr).unwrap();

    let retry = allocator.initialize_portfolio(&user, &mut funding);
    assert!(matches!(retry, Err(InitError::AlreadyInitialized)));
    assert_eq!(funding.balance, balance_after_first);
    let after = allocator.record_at_address(&addr).unwrap();
    assert_eq!(after.owner, before.owner);
    assert_eq!(after.total_value, before.total_value);
}

#[test]
fn insufficient_funds_creates_no_slot() {
    let mut allocator = Allocator::new(PROGRAM_ID, COST_PER_BYTE);
    let user = owner(2);
    let mut funding = FundingSource { identity: user, balance: 0 };
    let result = allocator.initialize_portfolio(&user, &mut funding);
    assert!(matches!(result, Err(InitError::InsufficientFunds)));
    assert_eq!(funding.balance, 0);
    let (addr, _) = allocator.derive_address(&user).unwrap();
    assert!(!allocator.slot_exists(&addr));
    assert!(allocator.record_at_address(&addr).is_none());
}

#[test]
fn below_cost_balance_is_rejected_and_kept() {
    let mut allocator = Allocator::new(PROGRAM_ID, COST_PER_BYTE);
    let user = owner(3);
    let cost = RECORD_BYTES * COST_PER_BYTE;
    let mut funding = FundingSource { identity: user, balance: cost - 1 };
    let result = allocator.initialize_portfolio(&user, &mut funding);
    assert!(matches!(result, Err(InitError::InsufficientFunds)));
    assert_eq!(funding.balance, cost - 1);
}

#[test]
fn caller_other_than_owner_is_unauthorized() {
    let mut allocator = Allocator::new(PROGRAM_ID, COST_PER_BYTE);
    let user = owner(1);
    let mut funding = FundingSource { identity: owner(2), balance: 1_000_000 };
    let result = allocator.initialize_portfolio(&user, &mut funding);
    assert!(matches!(result, Err(InitError::Unauthorized)));
    assert_eq!(funding.balance, 1_000_000);
    let (addr, _) = allocator.derive_address(&user).unwrap();
    assert!(!allocator.slot_exists(&addr));
}

#[test]
fn distinct_owners_get_distinct_records() {
    let mut allocator = Allocator::new(PROGRAM_ID, COST_PER_BYTE);
    let first = owner(1);
    let second = owner(2);
    let mut funding_first = FundingSource { identity: first, balance: 1_000_000 };
    let mut funding_second = FundingSource { identity: second, balance: 1_000_000 };
    allocator.initialize_portfolio(&first, &mut funding_first).unwrap();
    allocator.initialize_portfolio(&second, &mut funding_second).unwrap();
    let (addr_first, _) = allocator.derive_address(&first).unwrap();
    let (addr_second, _) = allocator.derive_address(&second).unwrap();
    let record_first = allocator.record_at_address(&addr_first).unwrap();
    let record_second = allocator.record_at_address(&addr_second).unwrap();
    assert_eq!(record_first.owner, first);
    assert_eq!(record_second.owner, second);
}

#[test]
fn fresh_allocator_has_no_slots() {
    let allocator = Allocator::new(PROGRAM_ID, COST_PER_BYTE);
    let (addr, _) = allocator.derive_address(&owner(4)).unwrap();
    assert!(!allocator.slot_exists(&addr));
    assert!(allocator.record_at_address(&addr).is_none());
}

#[test]
fn new_portfolio_starts_at_zero() {
    let record = Portfolio::new(owner(6));
    assert_eq!(record.owner, owner(6));
    assert_eq!(record.total_value, 0);
}
