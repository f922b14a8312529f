use vstd::prelude::*;
use vstd::utf8::encode_utf8;

use crate::key::Key;

verus! {

/// Bytes of text that a record reserves for its merchant name.
pub const MERCHANT_NAME_CAPACITY: usize = 12;

/// Bytes that one record reserves in storage: the discriminator, the id, the
/// owner's key, the length prefix and capacity of the merchant name, and the
/// amount.
pub const EXPENSE_ACCOUNT_SPACE: usize = 8 + 8 + 32 + 4 + 12 + 8;

/// One expense, as it is stored in its slot.
#[derive(Debug)]
pub struct ExpenseAccount {
    /// The caller-chosen id, part of the slot's address.
    pub id: u64,
    /// The identity that created the record.
    pub owner: Key,
    /// The merchant's name, at most `MERCHANT_NAME_CAPACITY` bytes of UTF-8.
    pub merchant_name: String,
    /// The amount spent.
    pub amount: u64,
}

/// What a stored record holds, as plain values.
pub struct ExpenseRecord {
    pub id: u64,
    pub owner: Seq<u8>,
    pub merchant_name: Seq<char>,
    pub amount: u64,
}

impl View for ExpenseAccount {
    type V = ExpenseRecord;

    open spec fn view(&self) -> ExpenseRecord {
        ExpenseRecord {
            id: self.id,
            owner: self.owner@,
            merchant_name: self.merchant_name@,
            amount: self.amount,
        }
    }
}

/// The number of bytes that the UTF-8 encoding of `name` takes.
pub open spec fn name_len(name: Seq<char>) -> nat {
    encode_utf8(name).len()
}

/// Whether `name` fits the bytes that a record reserves for it.
pub open spec fn name_fits(name: Seq<char>) -> bool {
    name_len(name) <= MERCHANT_NAME_CAPACITY
}

/// Whether `name` fits the bytes that a record reserves for it.
pub fn fits_capacity(name: &String) -> (r: bool)
    ensures
        r == name_fits(name@),
{
    name.as_str().as_bytes().len() <= MERCHANT_NAME_CAPACITY
}

/// The identity that signs an operation, and whether the host authenticated
/// its signature.
#[derive(Clone, Copy, Debug)]
pub struct Authority {
    pub key: Key,
    pub is_signer: bool,
}

/// The accounts that a create names: the signer and the slot to fill.
#[derive(Clone, Copy, Debug)]
pub struct InitializeExpense {
    pub authority: Authority,
    pub expense_account: Key,
}

/// The accounts that a modify names: the signer and the slot to update.
#[derive(Clone, Copy, Debug)]
pub struct ModifyExpense {
    pub authority: Authority,
    pub expense_account: Key,
}

/// The accounts that a delete names: the signer and the slot to reclaim.
#[derive(Clone, Copy, Debug)]
pub struct DeleteExpense {
    pub authority: Authority,
    pub expense_account: Key,
}

/// Why an operation was rejected. A rejected operation changes nothing.
#[derive(Clone, Copy, Debug, PartialEq, Eq, Structural)]
pub enum ExpenseError {
    /// The signer is not authenticated, or the named slot is not the one
    /// derived from the signer's key and the id, or the stored owner is
    /// another identity.
    InvalidCaller,
    /// A create named a slot that already holds a record.
    AddressAlreadyInUse,
    /// A modify or delete named a slot that holds no record.
    RecordNotFound,
    /// The merchant name is longer than the bytes reserved for it.
    CapacityExceeded,
}

} // verus!
