use vstd::prelude::*;

use crate::address::{address_of, expense_address};
use crate::key::Key;
use crate::record::{
    fits_capacity, name_fits, Authority, DeleteExpense, ExpenseAccount, ExpenseError,
    ExpenseRecord, InitializeExpense, ModifyExpense,
};

verus! {

/// The slots of one program: each holds at most one record, at the address
/// derived from the record's owner and id.
pub struct ExpenseStore {
    program_id: Key,
    slots: Vec<(Key, ExpenseAccount)>,
    records: Ghost<Map<Seq<u8>, ExpenseRecord>>,
}

impl View for ExpenseStore {
    type V = Map<Seq<u8>, ExpenseRecord>;

    /// The records held, by slot address.
    closed spec fn view(&self) -> Map<Seq<u8>, ExpenseRecord> {
        self.records@
    }
}

/// Whether every record in `m` sits at the address derived from its own owner
/// and id under `program`.
pub open spec fn records_derived(m: Map<Seq<u8>, ExpenseRecord>, program: Seq<u8>) -> bool {
    forall|a: Seq<u8>| #[trigger]
        m.contains_key(a) ==> address_of(program, m[a].owner, m[a].id) == Some(a)
}

/// Whether `signer` may act on the slot `target` for record `id`: it must be
/// authenticated, and `target` must be the address derived from its key and
/// the id.
pub open spec fn slot_check(
    program: Seq<u8>,
    signer: Seq<u8>,
    is_signer: bool,
    target: Seq<u8>,
    id: u64,
) -> Result<(), ExpenseError> {
    if !is_signer {
        Err(ExpenseError::InvalidCaller)
    } else if address_of(program, signer, id) == Some(target) {
        Ok(())
    } else {
        Err(ExpenseError::InvalidCaller)
    }
}

/// What a create returns.
pub open spec fn create_outcome(
    m: Map<Seq<u8>, ExpenseRecord>,
    program: Seq<u8>,
    signer: Seq<u8>,
    is_signer: bool,
    target: Seq<u8>,
    id: u64,
    name: Seq<char>,
) -> Result<(), ExpenseError> {
    match slot_check(program, signer, is_signer, target, id) {
        Err(e) => Err(e),
        Ok(_) => if m.contains_key(target) {
            Err(ExpenseError::AddressAlreadyInUse)
        } else if !name_fits(name) {
            Err(ExpenseError::CapacityExceeded)
        } else {
            Ok(())
        },
    }
}

/// The records after a create.
pub open spec fn create_state(
    m: Map<Seq<u8>, ExpenseRecord>,
    program: Seq<u8>,
    signer: Seq<u8>,
    is_signer: bool,
    target: Seq<u8>,
    id: u64,
    name: Seq<char>,
    amount: u64,
) -> Map<Seq<u8>, ExpenseRecord> {
    if create_outcome(m, program, signer, is_signer, target, id, name) is Ok {
        m.insert(target, ExpenseRecord { id, owner: signer, merchant_name: name, amount })
    } else {
        m
    }
}

/// What a modify returns.
pub open spec fn modify_outcome(
    m: Map<Seq<u8>, ExpenseRecord>,
    program: Seq<u8>,
    signer: Seq<u8>,
    is_signer: bool,
    target: Seq<u8>,
    id: u64,
    name: Seq<char>,
) -> Result<(), ExpenseError> {
    match slot_check(program, signer, is_signer, target, id) {
        Err(e) => Err(e),
        Ok(_) => if !m.contains_key(target) {
            Err(ExpenseError::RecordNotFound)
        } else if m[target].owner != signer {
            Err(ExpenseError::InvalidCaller)
        } else if !name_fits(name) {
            Err(ExpenseError::CapacityExceeded)
        } else {
            Ok(())
        },
    }
}

/// The records after a modify: only the name and the amount change.
pub open spec fn modify_state(
    m: Map<Seq<u8>, ExpenseRecord>,
    program: Seq<u8>,
    signer: Seq<u8>,
    is_signer: bool,
    target: Seq<u8>,
    id: u64,
    name: Seq<char>,
    amount: u64,
) -> Map<Seq<u8>, ExpenseRecord> {
    if modify_outcome(m, program, signer, is_signer, target, id, name) is Ok {
        m.insert(target, ExpenseRecord { merchant_name: name, amount, ..m[target] })
    } else {
        m
    }
}

/// What a delete returns.
pub open spec fn delete_outcome(
    m: Map<Seq<u8>, ExpenseRecord>,
    program: Seq<u8>,
    signer: Seq<u8>,
    is_signer: bool,
    target: Seq<u8>,
    id: u64,
) -> Result<(), ExpenseError> {
    match slot_check(program, signer, is_signer, target, id) {
        Err(e) => Err(e),
        Ok(_) => if !m.contains_key(target) {
            Err(ExpenseError::RecordNotFound)
        } else if m[target].owner != signer {
            Err(ExpenseError::InvalidCaller)
        } else {
            Ok(())
        },
    }
}

/// The records after a delete: the slot is empty again.
pub open spec fn delete_state(
    m: Map<Seq<u8>, ExpenseRecord>,
    program: Seq<u8>,
    signer: Seq<u8>,
    is_signer: bool,
    target: Seq<u8>,
    id: u64,
) -> Map<Seq<u8>, ExpenseRecord> {
    if delete_outcome(m, program, signer, is_signer, target, id) is Ok {
        m.remove(target)
    } else {
        m
    }
}

/// The record that `owner` keeps under `id`, if any.
pub open spec fn lookup(
    m: Map<Seq<u8>, ExpenseRecord>,
    program: Seq<u8>,
    owner: Seq<u8>,
    id: u64,
) -> Option<ExpenseRecord> {
    match address_of(program, owner, id) {
        Some(a) => if m.contains_key(a) {
            Some(m[a])
        } else {
            None
        },
        None => None,
    }
}

impl ExpenseStore {
    /// The id of the program that owns the slots.
    pub closed spec fn program(&self) -> Seq<u8> {
        self.program_id@
    }

    /// The slots hold distinct addresses, agree with the records, and each
    /// record sits at the address derived from its owner and id.
    pub closed spec fn wf(&self) -> bool {
        &&& forall|i: int, j: int|
            0 <= i < j < self.slots@.len() ==> self.slots@[i].0@ != self.slots@[j].0@
        &&& forall|i: int|
            0 <= i < self.slots@.len() ==> {
                &&& self.records@.contains_key(#[trigger] self.slots@[i].0@)
                &&& self.records@[self.slots@[i].0@] == self.slots@[i].1@
            }
        &&& forall|a: Seq<u8>| #[trigger]
            self.records@.contains_key(a) ==> exists|i: int|
                0 <= i < self.slots@.len() && self.slots@[i].0@ == a
        &&& records_derived(self.records@, self.program_id@)
    }

    /// Every record held sits at the address derived from its own owner and
    /// id.
    pub proof fn lemma_records_derived(&self)
        requires
            self.wf(),
        ensures
            records_derived(self@, self.program()),
    {
    }

    /// An empty store for the program `program_id`.
    pub fn new(program_id: Key) -> (r: ExpenseStore)
        ensures
            r.wf(),
            r.program() == program_id@,
            r@ == Map::<Seq<u8>, ExpenseRecord>::empty(),
    {
        ExpenseStore { program_id, slots: Vec::new(), records: Ghost(Map::empty()) }
    }

    /// The id of the program that owns the slots.
    pub fn program_id(&self) -> (r: Key)
        ensures
            r@ == self.program(),
    {
        self.program_id
    }

    /// The number of records held.
    pub fn len(&self) -> (r: usize)
        requires
            self.wf(),
        ensures
            r == self@.len(),
    {
        proof {
            self.lemma_len();
        }
        self.slots.len()
    }

    proof fn lemma_len(&self)
        requires
            self.wf(),
        ensures
            self@.len() == self.slots@.len(),
    {
        let keys = self.slots@.map_values(|e: (Key, ExpenseAccount)| e.0@);
        assert(keys.no_duplicates()) by {
            assert forall|i: int, j: int|
                0 <= i < keys.len() && 0 <= j < keys.len() && i != j implies keys[i]
                != keys[j] by {
                assert(keys[i] == self.slots@[i].0@ && keys[j] == self.slots@[j].0@);
            }
        }
        assert(keys.to_set() =~= self.records@.dom()) by {
            assert forall|a: Seq<u8>| keys.to_set().contains(a) implies self.records@.contains_key(
                a,
            ) by {
                let i = choose|i: int| 0 <= i < keys.len() && keys[i] == a;
                assert(self.records@.contains_key(self.slots@[i].0@));
            }
            assert forall|a: Seq<u8>| self.records@.contains_key(a) implies keys.to_set().contains(
                a,
            ) by {
                let i = choose|i: int| 0 <= i < self.slots@.len() && self.slots@[i].0@ == a;
                assert(keys[i] == a);
            }
        }
        keys.unique_seq_to_set();
    }

    /// The position of the slot at `address`, if it holds a record.
    fn find(&self, address: &Key) -> (r: Option<usize>)
        requires
            self.wf(),
        ensures
            r is None ==> !self@.contains_key(address@),
            r matches Some(i) ==> i < self.slots@.len() && self.slots@[i as int].0@ == address@,
    {
        let mut i: usize = 0;
        while i < self.slots.len()
            invariant
                self.wf(),
                i <= self.slots@.len(),
                forall|j: int| 0 <= j < i ==> self.slots@[j].0@ != address@,
            decreases self.slots@.len() - i,
        {
            if self.slots[i].0.same_as(address) {
                return Some(i);
            }
            i = i + 1;
        }
        None
    }

    /// The record at `address`, if any.
    pub fn get(&self, address: &Key) -> (r: Option<&ExpenseAccount>)
        requires
            self.wf(),
        ensures
            r is None ==> !self@.contains_key(address@),
            r matches Some(a) ==> self@.contains_key(address@) && self@[address@] == a@,
    {
        match self.find(address) {
            Some(i) => Some(&self.slots[i].1),
            None => None,
        }
    }

    /// The record that `owner` keeps under `id`, if any.
    pub fn get_expense(&self, owner: &Key, id: u64) -> (r: Option<&ExpenseAccount>)
        requires
            self.wf(),
        ensures
            r is None ==> lookup(self@, self.program(), owner@, id) is None,
            r matches Some(a) ==> lookup(self@, self.program(), owner@, id) == Some(a@),
    {
        match expense_address(&self.program_id, owner, id) {
            Some(address) => self.get(&address),
            None => None,
        }
    }

    /// Checks that `authority` may act on the slot `target` for record `id`.
    fn check_slot(&self, authority: &Authority, target: &Key, id: u64) -> (r: Result<
        (),
        ExpenseError,
    >)
        ensures
            r == slot_check(self.program(), authority.key@, authority.is_signer, target@, id),
    {
        if !authority.is_signer {
            return Err(ExpenseError::InvalidCaller);
        }
        match expense_address(&self.program_id, &authority.key, id) {
            Some(address) => if address.same_as(target) {
                Ok(())
            } else {
                Err(ExpenseError::InvalidCaller)
            },
            None => Err(ExpenseError::InvalidCaller),
        }
    }
}

/// Creates record `id` of the signer in the slot that `accounts` names, with
/// the signer as its owner.
///
/// Fails with `InvalidCaller` unless the signer is authenticated and the slot
/// is the one derived from its key and `id`; with `AddressAlreadyInUse` if the
/// slot holds a record; with `CapacityExceeded` if the name is longer than the
/// bytes reserved for it. A failed create changes nothing.
pub fn initialize_expense(
    store: &mut ExpenseStore,
    accounts: &InitializeExpense,
    id: u64,
    merchant_name: String,
    amount: u64,
) -> (r: Result<(), ExpenseError>)
    requires
        old(store).wf(),
    ensures
        final(store).wf(),
        final(store).program() == old(store).program(),
        r == create_outcome(
            old(store)@,
            old(store).program(),
            accounts.authority.key@,
            accounts.authority.is_signer,
            accounts.expense_account@,
            id,
            merchant_name@,
        ),
        final(store)@ == create_state(
            old(store)@,
            old(store).program(),
            accounts.authority.key@,
            accounts.authority.is_signer,
            accounts.expense_account@,
            id,
            merchant_name@,
            amount,
        ),
{
    let target = accounts.expense_account;
    let owner = accounts.authority.key;
    match store.check_slot(&accounts.authority, &target, id) {
        Err(e) => return Err(e),
        Ok(()) => {},
    }
    if store.find(&target).is_some() {
        return Err(ExpenseError::AddressAlreadyInUse);
    }
    if !fits_capacity(&merchant_name) {
        return Err(ExpenseError::CapacityExceeded);
    }
    let account = ExpenseAccount { id, owner, merchant_name, amount };
    let ghost old_slots = store.slots@;
    let ghost record = account@;
    store.slots.push((target, account));
    proof {
        store.records@ = store.records@.insert(target@, record);
        assert forall|a: Seq<u8>| #[trigger]
            store.records@.contains_key(a) implies exists|i: int|
                0 <= i < store.slots@.len() && store.slots@[i].0@ == a by {
            if a == target@ {
                assert(store.slots@[old_slots.len() as int].0@ == a);
            } else {
                assert(old(store).records@.contains_key(a));
                let i = choose|i: int| 0 <= i < old_slots.len() && old_slots[i].0@ == a;
                assert(store.slots@[i].0@ == a);
            }
        }
    }
    Ok(())
}

/// Overwrites the merchant name and amount of record `id` of the signer in
/// the slot that `accounts` names; its id and owner stay.
///
/// Fails with `InvalidCaller` unless the signer is authenticated and the slot
/// is the one derived from its key and `id`; with `RecordNotFound` if the slot
/// is empty; with `InvalidCaller` if the stored owner is another identity;
/// with `CapacityExceeded` if the name is longer than the bytes reserved for
/// it. A failed modify changes nothing.
pub fn modify_expense(
    store: &mut ExpenseStore,
    accounts: &ModifyExpense,
    id: u64,
    merchant_name: String,
    amount: u64,
) -> (r: Result<(), ExpenseError>)
    requires
        old(store).wf(),
    ensures
        final(store).wf(),
        final(store).program() == old(store).program(),
        r == modify_outcome(
            old(store)@,
            old(store).program(),
            accounts.authority.key@,
            accounts.authority.is_signer,
            accounts.expense_account@,
            id,
            merchant_name@,
        ),
        final(store)@ == modify_state(
            old(store)@,
            old(store).program(),
            accounts.authority.key@,
            accounts.authority.is_signer,
            accounts.expense_account@,
            id,
            merchant_name@,
            amount,
        ),
{
    let target = accounts.expense_account;
    match store.check_slot(&accounts.authority, &target, id) {
        Err(e) => return Err(e),
        Ok(()) => {},
    }
    let i = match store.find(&target) {
        Some(i) => i,
        None => return Err(ExpenseError::RecordNotFound),
    };
    if !store.slots[i].1.owner.same_as(&accounts.authority.key) {
        return Err(ExpenseError::InvalidCaller);
    }
    if !fits_capacity(&merchant_name) {
        return Err(ExpenseError::CapacityExceeded);
    }
    let ghost old_slots = store.slots@;
    let (key, stored) = store.slots.remove(i);
    let account = ExpenseAccount { id: stored.id, owner: stored.owner, merchant_name, amount };
    let ghost record = account@;
    store.slots.insert(i, (key, account));
    proof {
        assert(store.slots@ =~= old_slots.update(i as int, (key, account)));
        store.records@ = store.records@.insert(target@, record);
        assert forall|a: Seq<u8>| #[trigger]
            store.records@.contains_key(a) implies exists|j: int|
                0 <= j < store.slots@.len() && store.slots@[j].0@ == a by {
            assert(old(store).records@.contains_key(a));
            let j = choose|j: int| 0 <= j < old_slots.len() && old_slots[j].0@ == a;
            assert(store.slots@[j].0@ == a);
        }
    }
    Ok(())
}

/// Deletes record `id` of the signer from the slot that `accounts` names,
/// which is then empty again.
///
/// Fails with `InvalidCaller` unless the signer is authenticated and the slot
/// is the one derived from its key and `id`; with `RecordNotFound` if the slot
/// is empty; with `InvalidCaller` if the stored owner is another identity. A
/// failed delete changes nothing.
pub fn delete_expense(store: &mut ExpenseStore, accounts: &DeleteExpense, id: u64) -> (r: Result<
    (),
    ExpenseError,
>)
    requires
        old(store).wf(),
    ensures
        final(store).wf(),
        final(store).program() == old(store).program(),
        r == delete_outcome(
            old(store)@,
            old(store).program(),
            accounts.authority.key@,
            accounts.authority.is_signer,
            accounts.expense_account@,
            id,
        ),
        final(store)@ == delete_state(
            old(store)@,
            old(store).program(),
            accounts.authority.key@,
            accounts.authority.is_signer,
            accounts.expense_account@,
            id,
        ),
{
    let target = accounts.expense_account;
    match store.check_slot(&accounts.authority, &target, id) {
        Err(e) => return Err(e),
        Ok(()) => {},
    }
    let i = match store.find(&target) {
        Some(i) => i,
        None => return Err(ExpenseError::RecordNotFound),
    };
    if !store.slots[i].1.owner.same_as(&accounts.authority.key) {
        return Err(ExpenseError::InvalidCaller);
    }
    let ghost old_slots = store.slots@;
    let _reclaimed = store.slots.remove(i);
    proof {
        assert(store.slots@ =~= old_slots.remove(i as int));
        store.records@ = store.records@.remove(target@);
        assert forall|k: int|
            0 <= k < store.slots@.len() implies store.records@.contains_key(
            #[trigger] store.slots@[k].0@,
        ) by {
            let j = if k < i { k } else { k + 1 };
            assert(store.slots@[k] == old_slots[j]);
            assert(old(store).records@.contains_key(old_slots[j].0@));
        }
        assert forall|a: Seq<u8>| #[trigger]
            store.records@.contains_key(a) implies exists|k: int|
                0 <= k < store.slots@.len() && store.slots@[k].0@ == a by {
            assert(old(store).records@.contains_key(a));
            let j = choose|j: int| 0 <= j < old_slots.len() && old_slots[j].0@ == a;
            assert(j != i);
            if j < i {
                assert(store.slots@[j].0@ == a);
            } else {
                assert(store.slots@[j - 1].0@ == a);
            }
        }
    }
    Ok(())
}

} // verus!
