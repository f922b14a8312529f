//! Expense records kept in program-owned slots whose addresses are derived
//! from the owning identity and a caller-chosen numeric id.
//!
//! Only the owner of a record can name its slot, and every mutating operation
//! checks the signer against the stored owner before it touches the slot.

mod address;
mod key;
mod laws;
mod record;
mod store;

pub use address::{
    address_of, expense_address, expense_seeds, expense_tag, expense_tag_bytes, le_bytes,
    le_bytes_of, program_address, seeds_of, seeds_view,
};
pub use key::Key;
pub use record::{
    fits_capacity, name_fits, name_len, Authority, DeleteExpense, ExpenseAccount, ExpenseError,
    ExpenseRecord, InitializeExpense, ModifyExpense, EXPENSE_ACCOUNT_SPACE,
    MERCHANT_NAME_CAPACITY,
};
pub use store::{
    create_outcome, create_state, delete_outcome, delete_state, lookup, modify_outcome,
    modify_state, records_derived, slot_check, delete_expense, initialize_expense, modify_expense,
    ExpenseStore,
};
pub use laws::{
    lemma_absent_record_not_found, lemma_address_deterministic, lemma_capacity_boundary,
    lemma_create_then_get, lemma_delete_then_recreate, lemma_foreign_slot_rejected,
    lemma_le_bytes_injective, lemma_modify_keeps_owner_and_id, lemma_only_owner_mutates,
    lemma_owners_give_distinct_seeds,
    lemma_second_create_fails, lemma_seeds_injective,
};
