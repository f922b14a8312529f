use std::str::FromStr;

use anchor_lang::solana_program::pubkey::Pubkey;
use expense_tracker::{
    delete_expense, expense_address, expense_seeds, expense_tag_bytes, fits_capacity,
    initialize_expense, le_bytes, modify_expense, Authority, DeleteExpense, ExpenseError,
    ExpenseStore, InitializeExpense, Key, ModifyExpense, EXPENSE_ACCOUNT_SPACE,
    MERCHANT_NAME_CAPACITY,
};

const PROGRAM: &str = "38P5X5bZni6nyT6yg329HyVeGKJr57U9cFPmYPoYdDo5";

fn program_id() -> Key {
    Key::new(Pubkey::from_str(PROGRAM).unwrap().to_bytes())
}

fn identity(b: u8) -> Key {
    Key::new([b; 32])
}

fn signer(key: Key) -> Authority {
    Authority { key, is_signer: true }
}

fn slot(owner: &Key, id: u64) -> Key {
    expense_address(&program_id(), owner, id).unwrap()
}

fn create(store: &mut ExpenseStore, owner: Key, id: u64, name: &str, amount: u64) -> Result<(), ExpenseError> {
    let accounts = InitializeExpense { authority: signer(owner), expense_account: slot(&owner, id) };
    initialize_expense(store, &accounts, id, name.to_string(), amount)
}

fn modify(store: &mut ExpenseStore, owner: Key, id: u64, name: &str, amount: u64) -> Result<(), ExpenseError> {
    let accounts = ModifyExpense { authority: signer(owner), expense_account: slot(&owner, id) };
    modify_expense(store, &accounts, id, name.to_string(), amount)
}

fn delete(store: &mut ExpenseStore, owner: Key, id: u64) -> Result<(), ExpenseError> {
    let accounts = DeleteExpense { authority: signer(owner), expense_account: slot(&owner, id) };
    delete_expense(store, &accounts, id)
}

#[test]
fn address_matches_host_derivation() {
    let owner = identity(1);
    let program = Pubkey::from_str(PROGRAM).unwrap();
    let owner_key = Pubkey::new_from_array(owner.to_bytes());
    let (expected, _bump) = Pubkey::find_program_address(
        &[b"expense", owner_key.as_ref(), &7u64.to_le_bytes()],
        &program,
    );
    let derived = slot(&owner, 7);
    assert_eq!(derived.to_bytes(), expected.to_bytes());
    assert_ne!(derived.to_bytes(), owner.to_bytes());
    assert_ne!(derived.to_bytes(), program_id().to_bytes());
}

#[test]
fn address_is_deterministic() {
    let owner = identity(1);
    assert_eq!(slot(&owner, 7).to_bytes(), slot(&owner, 7).to_bytes());
    assert_eq!(slot(&owner, 0).to_bytes(), slot(&owner, 0).to_bytes());
}

#[test]
fn distinct_owners_get_distinct_addresses() {
    let a = identity(1);
    let b = identity(2);
    assert_ne!(slot(&a, 7).to_bytes(), slot(&b, 7).to_bytes());
    assert_ne!(slot(&a, 7).to_bytes(), slot(&a, 8).to_bytes());
}

#[test]
fn seeds_are_tag_owner_and_le_id() {
    assert_eq!(expense_tag_bytes(), b"expense".to_vec());
    assert_eq!(le_bytes(0x0102030405060708), vec![8, 7, 6, 5, 4, 3, 2, 1]);
    assert_eq!(le_bytes(u64::MAX), vec![255; 8]);
    let owner = identity(9);
    let seeds = expense_seeds(&owner, 500);
    assert_eq!(seeds.len(), 3);
    assert_eq!(seeds[0], b"expense".to_vec());
    assert_eq!(seeds[1], vec![9u8; 32]);
    assert_eq!(seeds[2], 500u64.to_le_bytes().to_vec());
}

#[test]
fn key_comparison() {
    assert!(identity(3).same_as(&identity(3)));
    assert!(!identity(3).same_as(&identity(4)));
    let mut bytes = [3u8; 32];
    bytes[31] = 0;
    assert!(!identity(3).same_as(&Key::new(bytes)));
}

#[test]
fn create_then_get_round_trip() {
    let a = identity(1);
    let mut store = ExpenseStore::new(program_id());
    assert_eq!(create(&mut store, a, 7, "Coffee Shop", 500), Ok(()));
    let record = store.get_expense(&a, 7).unwrap();
    assert_eq!(record.id, 7);
    assert_eq!(record.owner.to_bytes(), a.to_bytes());
    assert_eq!(record.merchant_name, "Coffee Shop");
    assert_eq!(record.amount, 500);
    assert_eq!(store.len(), 1);
    assert!(store.get(&slot(&a, 7)).is_some());
    assert!(store.get_expense(&a, 8).is_none());
}

#[test]
fn second_create_fails_with_address_in_use() {
    let a = identity(1);
    let mut store = ExpenseStore::new(program_id());
    assert_eq!(create(&mut store, a, 7, "Coffee Shop", 500), Ok(()));
    assert_eq!(create(&mut store, a, 7, "Bakery", 3), Err(ExpenseError::AddressAlreadyInUse));
    let record = store.get_expense(&a, 7).unwrap();
    assert_eq!(record.merchant_name, "Coffee Shop");
    assert_eq!(record.amount, 500);
    assert_eq!(store.len(), 1);
}

#[test]
fn other_signer_cannot_reach_the_slot() {
    let a = identity(1);
    let b = identity(2);
    let mut store = ExpenseStore::new(program_id());
    assert_eq!(create(&mut store, a, 7, "Coffee Shop", 500), Ok(()));
    let via_a = ModifyExpense { authority: signer(b), expense_account: slot(&a, 7) };
    assert_eq!(
        modify_expense(&mut store, &via_a, 7, "Stolen".to_string(), 1),
        Err(ExpenseError::InvalidCaller)
    );
    let delete_via_a = DeleteExpense { authority: signer(b), expense_account: slot(&a, 7) };
    assert_eq!(delete_expense(&mut store, &delete_via_a, 7), Err(ExpenseError::InvalidCaller));
    assert_eq!(modify(&mut store, b, 7, "Stolen", 1), Err(ExpenseError::RecordNotFound));
    let record = store.get_expense(&a, 7).unwrap();
    assert_eq!(record.merchant_name, "Coffee Shop");
    assert_eq!(record.amount, 500);
}

#[test]
fn unauthenticated_signer_is_rejected() {
    let a = identity(1);
    let mut store = ExpenseStore::new(program_id());
    let accounts = InitializeExpense {
        authority: Authority { key: a, is_signer: false },
        expense_account: slot(&a, 7),
    };
    assert_eq!(
        initialize_expense(&mut store, &accounts, 7, "Coffee Shop".to_string(), 500),
        Err(ExpenseError::InvalidCaller)
    );
    assert_eq!(store.len(), 0);
}

#[test]
fn wrong_id_for_slot_is_rejected() {
    let a = identity(1);
    let mut store = ExpenseStore::new(program_id());
    let accounts = InitializeExpense { authority: signer(a), expense_account: slot(&a, 7) };
    assert_eq!(
        initialize_expense(&mut store, &accounts, 8, "Coffee Shop".to_string(), 500),
        Err(ExpenseError::InvalidCaller)
    );
    assert_eq!(store.len(), 0);
}

#[test]
fn modify_on_absent_slot_is_not_found() {
    let a = identity(1);
    let mut store = ExpenseStore::new(program_id());
    assert_eq!(modify(&mut store, a, 99, "X", 1), Err(ExpenseError::RecordNotFound));
    assert_eq!(delete(&mut store, a, 99), Err(ExpenseError::RecordNotFound));
}

#[test]
fn modify_overwrites_name_and_amount_only() {
    let a = identity(1);
    let mut store = ExpenseStore::new(program_id());
    assert_eq!(create(&mut store, a, 7, "Coffee Shop", 500), Ok(()));
    assert_eq!(modify(&mut store, a, 7, "Tea House", 320), Ok(()));
    let record = store.get_expense(&a, 7).unwrap();
    assert_eq!(record.id, 7);
    assert_eq!(record.owner.to_bytes(), a.to_bytes());
    assert_eq!(record.merchant_name, "Tea House");
    assert_eq!(record.amount, 320);
    assert_eq!(store.len(), 1);
}

#[test]
fn delete_then_recreate_has_no_residue() {
    let a = identity(1);
    let mut store = ExpenseStore::new(program_id());
    assert_eq!(create(&mut store, a, 7, "Coffee Shop", 500), Ok(()));
    assert_eq!(delete(&mut store, a, 7), Ok(()));
    assert!(store.get_expense(&a, 7).is_none());
    assert_eq!(store.len(), 0);
    assert_eq!(modify(&mut store, a, 7, "X", 1), Err(ExpenseError::RecordNotFound));
    assert_eq!(delete(&mut store, a, 7), Err(ExpenseError::RecordNotFound));
    assert_eq!(create(&mut store, a, 7, "New", 1), Ok(()));
    let record = store.get_expense(&a, 7).unwrap();
    assert_eq!(record.id, 7);
    assert_eq!(record.merchant_name, "New");
    assert_eq!(record.amount, 1);
}

#[test]
fn delete_keeps_other_records() {
    let a = identity(1);
    let b = identity(2);
    let mut store = ExpenseStore::new(program_id());
    assert_eq!(create(&mut store, a, 1, "One", 10), Ok(()));
    assert_eq!(create(&mut store, a, 2, "Two", 20), Ok(()));
    assert_eq!(create(&mut store, b, 1, "Three", 30), Ok(()));
    assert_eq!(delete(&mut store, a, 1), Ok(()));
    assert_eq!(store.len(), 2);
    assert!(store.get_expense(&a, 1).is_none());
    assert_eq!(store.get_expense(&a, 2).unwrap().merchant_name, "Two");
    assert_eq!(store.get_expense(&b, 1).unwrap().merchant_name, "Three");
}

#[test]
fn create_capacity_boundary() {
    let a = identity(1);
    let mut store = ExpenseStore::new(program_id());
    assert_eq!(create(&mut store, a, 1, "abcdefghijkl", 1), Ok(()));
    assert_eq!(
        create(&mut store, a, 2, "abcdefghijklm", 1),
        Err(ExpenseError::CapacityExceeded)
    );
    assert!(store.get_expense(&a, 2).is_none());
    assert_eq!(create(&mut store, a, 3, "ééééééé", 1), Err(ExpenseError::CapacityExceeded));
    assert_eq!(create(&mut store, a, 4, "éééééé", 1), Ok(()));
}

#[test]
fn modify_capacity_boundary() {
    let a = identity(1);
    let mut store = ExpenseStore::new(program_id());
    assert_eq!(create(&mut store, a, 1, "Shop", 1), Ok(()));
    assert_eq!(modify(&mut store, a, 1, "abcdefghijkl", 2), Ok(()));
    assert_eq!(
        modify(&mut store, a, 1, "abcdefghijklm", 3),
        Err(ExpenseError::CapacityExceeded)
    );
    let record = store.get_expense(&a, 1).unwrap();
    assert_eq!(record.merchant_name, "abcdefghijkl");
    assert_eq!(record.amount, 2);
}

#[test]
fn capacity_counts_utf8_bytes() {
    assert_eq!(MERCHANT_NAME_CAPACITY, 12);
    assert_eq!(EXPENSE_ACCOUNT_SPACE, 72);
    assert!(fits_capacity(&String::new()));
    assert!(fits_capacity(&"abcdefghijkl".to_string()));
    assert!(!fits_capacity(&"abcdefghijklm".to_string()));
    assert!(!fits_capacity(&"€€€€€".to_string()));
    assert!(fits_capacity(&"€€€€".to_string()));
}

#[test]
fn empty_store() {
    let store = ExpenseStore::new(program_id());
    assert_eq!(store.len(), 0);
    assert_eq!(store.program_id().to_bytes(), program_id().to_bytes());
    assert!(store.get_expense(&identity(1), 7).is_none());
}
