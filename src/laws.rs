use vstd::prelude::*;

use crate::address::{address_of, le_bytes_of, seeds_of};
use crate::record::{name_fits, name_len, ExpenseError, ExpenseRecord, MERCHANT_NAME_CAPACITY};
use crate::store::{
    create_outcome, create_state, delete_outcome, delete_state, lookup, modify_outcome,
    modify_state, slot_check,
};

verus! {

/// The address of a slot is a function of the program, the owner and the id:
/// equal inputs give equal addresses.
pub proof fn lemma_address_deterministic(
    program: Seq<u8>,
    owner1: Seq<u8>,
    id1: u64,
    owner2: Seq<u8>,
    id2: u64,
)
    requires
        owner1 == owner2,
        id1 == id2,
    ensures
        address_of(program, owner1, id1) == address_of(program, owner2, id2),
{
}

/// Two owners never share the seeds of a slot: for one id, distinct owners
/// hand the derivation distinct seeds.
pub proof fn lemma_owners_give_distinct_seeds(owner1: Seq<u8>, owner2: Seq<u8>, id: u64)
    requires
        owner1 != owner2,
    ensures
        seeds_of(owner1, id) != seeds_of(owner2, id),
{
    assert(seeds_of(owner1, id)[1] == owner1);
    assert(seeds_of(owner2, id)[1] == owner2);
}

/// The little-endian bytes of an id determine the id.
pub proof fn lemma_le_bytes_injective(x: u64, y: u64)
    requires
        le_bytes_of(x) == le_bytes_of(y),
    ensures
        x == y,
{
    assert(le_bytes_of(x)[0] == le_bytes_of(y)[0]);
    assert(le_bytes_of(x)[1] == le_bytes_of(y)[1]);
    assert(le_bytes_of(x)[2] == le_bytes_of(y)[2]);
    assert(le_bytes_of(x)[3] == le_bytes_of(y)[3]);
    assert(le_bytes_of(x)[4] == le_bytes_of(y)[4]);
    assert(le_bytes_of(x)[5] == le_bytes_of(y)[5]);
    assert(le_bytes_of(x)[6] == le_bytes_of(y)[6]);
    assert(le_bytes_of(x)[7] == le_bytes_of(y)[7]);
    assert(x == y) by (bit_vector)
        requires
            (x & 0xff) as u8 == (y & 0xff) as u8,
            ((x >> 8) & 0xff) as u8 == ((y >> 8) & 0xff) as u8,
            ((x >> 16) & 0xff) as u8 == ((y >> 16) & 0xff) as u8,
            ((x >> 24) & 0xff) as u8 == ((y >> 24) & 0xff) as u8,
            ((x >> 32) & 0xff) as u8 == ((y >> 32) & 0xff) as u8,
            ((x >> 40) & 0xff) as u8 == ((y >> 40) & 0xff) as u8,
            ((x >> 48) & 0xff) as u8 == ((y >> 48) & 0xff) as u8,
            ((x >> 56) & 0xff) as u8 == ((y >> 56) & 0xff) as u8,
    ;
}

/// Distinct (owner, id) pairs hand the derivation distinct seeds.
pub proof fn lemma_seeds_injective(owner1: Seq<u8>, id1: u64, owner2: Seq<u8>, id2: u64)
    requires
        seeds_of(owner1, id1) == seeds_of(owner2, id2),
    ensures
        owner1 == owner2,
        id1 == id2,
{
    assert(seeds_of(owner1, id1)[1] == owner1);
    assert(seeds_of(owner2, id2)[1] == owner2);
    assert(seeds_of(owner1, id1)[2] == le_bytes_of(id1));
    assert(seeds_of(owner2, id2)[2] == le_bytes_of(id2));
    lemma_le_bytes_injective(id1, id2);
}

/// After a create succeeds, looking up the signer's record under that id
/// gives exactly the values it was created with.
pub proof fn lemma_create_then_get(
    m: Map<Seq<u8>, ExpenseRecord>,
    program: Seq<u8>,
    signer: Seq<u8>,
    is_signer: bool,
    target: Seq<u8>,
    id: u64,
    name: Seq<char>,
    amount: u64,
)
    requires
        create_outcome(m, program, signer, is_signer, target, id, name) is Ok,
    ensures
        lookup(create_state(m, program, signer, is_signer, target, id, name, amount), program, signer, id)
            == Some(ExpenseRecord { id, owner: signer, merchant_name: name, amount }),
{
}

/// A second create of the same slot, with no delete in between, fails with
/// `AddressAlreadyInUse`, whatever name and amount it brings.
pub proof fn lemma_second_create_fails(
    m: Map<Seq<u8>, ExpenseRecord>,
    program: Seq<u8>,
    signer: Seq<u8>,
    is_signer: bool,
    target: Seq<u8>,
    id: u64,
    name: Seq<char>,
    amount: u64,
    name2: Seq<char>,
)
    requires
        create_outcome(m, program, signer, is_signer, target, id, name) is Ok,
    ensures
        create_outcome(
            create_state(m, program, signer, is_signer, target, id, name, amount),
            program,
            signer,
            is_signer,
            target,
            id,
            name2,
        ) == Err::<(), ExpenseError>(ExpenseError::AddressAlreadyInUse),
{
}

/// A signer cannot reach a slot that is not derived from its own key and the
/// id: every operation on it fails with `InvalidCaller`.
pub proof fn lemma_foreign_slot_rejected(
    m: Map<Seq<u8>, ExpenseRecord>,
    program: Seq<u8>,
    signer: Seq<u8>,
    is_signer: bool,
    target: Seq<u8>,
    id: u64,
    name: Seq<char>,
)
    requires
        address_of(program, signer, id) != Some(target),
    ensures
        create_outcome(m, program, signer, is_signer, target, id, name) == Err::<(), ExpenseError>(
            ExpenseError::InvalidCaller,
        ),
        modify_outcome(m, program, signer, is_signer, target, id, name) == Err::<(), ExpenseError>(
            ExpenseError::InvalidCaller,
        ),
        delete_outcome(m, program, signer, is_signer, target, id) == Err::<(), ExpenseError>(
            ExpenseError::InvalidCaller,
        ),
{
}

/// Only the stored owner can modify or delete a record: any other signer
/// fails with `InvalidCaller`, whatever slot derivation gives.
pub proof fn lemma_only_owner_mutates(
    m: Map<Seq<u8>, ExpenseRecord>,
    program: Seq<u8>,
    signer: Seq<u8>,
    is_signer: bool,
    target: Seq<u8>,
    id: u64,
    name: Seq<char>,
)
    requires
        m.contains_key(target),
        m[target].owner != signer,
    ensures
        modify_outcome(m, program, signer, is_signer, target, id, name) == Err::<(), ExpenseError>(
            ExpenseError::InvalidCaller,
        ),
        delete_outcome(m, program, signer, is_signer, target, id) == Err::<(), ExpenseError>(
            ExpenseError::InvalidCaller,
        ),
{
}

/// Modifying or deleting an empty slot that the signer may reach fails with
/// `RecordNotFound`.
pub proof fn lemma_absent_record_not_found(
    m: Map<Seq<u8>, ExpenseRecord>,
    program: Seq<u8>,
    signer: Seq<u8>,
    is_signer: bool,
    target: Seq<u8>,
    id: u64,
    name: Seq<char>,
)
    requires
        slot_check(program, signer, is_signer, target, id) is Ok,
        !m.contains_key(target),
    ensures
        modify_outcome(m, program, signer, is_signer, target, id, name) == Err::<(), ExpenseError>(
            ExpenseError::RecordNotFound,
        ),
        delete_outcome(m, program, signer, is_signer, target, id) == Err::<(), ExpenseError>(
            ExpenseError::RecordNotFound,
        ),
{
}

/// A modify never changes which identity owns a record, nor its id: after a
/// successful one the slot holds the same owner and id with the new name and
/// amount, and every other slot is as it was.
pub proof fn lemma_modify_keeps_owner_and_id(
    m: Map<Seq<u8>, ExpenseRecord>,
    program: Seq<u8>,
    signer: Seq<u8>,
    is_signer: bool,
    target: Seq<u8>,
    id: u64,
    name: Seq<char>,
    amount: u64,
)
    requires
        modify_outcome(m, program, signer, is_signer, target, id, name) is Ok,
    ensures
        ({
            let m2 = modify_state(m, program, signer, is_signer, target, id, name, amount);
            &&& m2.contains_key(target)
            &&& m2[target] == ExpenseRecord {
                id: m[target].id,
                owner: m[target].owner,
                merchant_name: name,
                amount,
            }
            &&& m2[target].owner == signer
            &&& m2.remove(target) == m.remove(target)
        }),
{
    let m2 = modify_state(m, program, signer, is_signer, target, id, name, amount);
    assert(m2.remove(target) =~= m.remove(target));
}

/// After a delete succeeds, a create of the same slot with a name that fits
/// succeeds, and the slot then holds only the new values.
pub proof fn lemma_delete_then_recreate(
    m: Map<Seq<u8>, ExpenseRecord>,
    program: Seq<u8>,
    signer: Seq<u8>,
    is_signer: bool,
    target: Seq<u8>,
    id: u64,
    name: Seq<char>,
    amount: u64,
)
    requires
        delete_outcome(m, program, signer, is_signer, target, id) is Ok,
        name_fits(name),
    ensures
        ({
            let m2 = delete_state(m, program, signer, is_signer, target, id);
            &&& create_outcome(m2, program, signer, is_signer, target, id, name) is Ok
            &&& lookup(
                create_state(m2, program, signer, is_signer, target, id, name, amount),
                program,
                signer,
                id,
            ) == Some(ExpenseRecord { id, owner: signer, merchant_name: name, amount })
        }),
{
}

/// On a slot where nothing else stops it, a create or a modify succeeds
/// exactly when the name takes at most `MERCHANT_NAME_CAPACITY` bytes, and
/// fails with `CapacityExceeded` otherwise.
pub proof fn lemma_capacity_boundary(
    m: Map<Seq<u8>, ExpenseRecord>,
    program: Seq<u8>,
    signer: Seq<u8>,
    is_signer: bool,
    target: Seq<u8>,
    id: u64,
    name: Seq<char>,
)
    requires
        slot_check(program, signer, is_signer, target, id) is Ok,
    ensures
        !m.contains_key(target) ==> create_outcome(m, program, signer, is_signer, target, id, name)
            == if name_len(name) <= MERCHANT_NAME_CAPACITY {
            Ok::<(), ExpenseError>(())
        } else {
            Err(ExpenseError::CapacityExceeded)
        },
        m.contains_key(target) && m[target].owner == signer ==> modify_outcome(
            m,
            program,
            signer,
            is_signer,
            target,
            id,
            name,
        ) == if name_len(name) <= MERCHANT_NAME_CAPACITY {
            Ok::<(), ExpenseError>(())
        } else {
            Err(ExpenseError::CapacityExceeded)
        },
{
}

} // verus!
