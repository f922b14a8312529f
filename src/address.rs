use vstd::prelude::*;

use crate::key::Key;

verus! {

/// The address that the host derives for a list of seeds under a program id:
/// the program-derived address found with the highest viable bump value, or
/// `None` when no bump value gives an address off the key curve.
pub uninterp spec fn program_address(seeds: Seq<Seq<u8>>, program: Seq<u8>) -> Option<Seq<u8>>;

/// Relies on `Pubkey::try_find_program_address` of solana-program (re-exported
/// by anchor-lang): it searches the bump values from 255 down and returns the
/// first address that is off the curve, or `None`; the bump itself is dropped.
/// The result depends on the seeds and the program id alone.
#[verifier::external_body]
fn find_program_address(seeds: &Vec<Vec<u8>>, program_id: &Key) -> (r: Option<Key>)
    ensures
        r is None ==> program_address(seeds_view(seeds), program_id@) is None,
        r is Some ==> program_address(seeds_view(seeds), program_id@) == Some(r->0@),
{
    let slices: Vec<&[u8]> = seeds.iter().map(|s| s.as_slice()).collect();
    let program = anchor_lang::solana_program::pubkey::Pubkey::new_from_array(program_id.bytes);
    anchor_lang::solana_program::pubkey::Pubkey::try_find_program_address(&slices, &program).map(
        |(k, _bump)| Key { bytes: k.to_bytes() },
    )
}

/// The byte strings held by a list of seeds.
pub open spec fn seeds_view(seeds: &Vec<Vec<u8>>) -> Seq<Seq<u8>> {
    seeds@.map_values(|s: Vec<u8>| s@)
}

/// The domain tag that opens the seeds of every expense slot: the ASCII bytes
/// of the word "expense".
pub open spec fn expense_tag() -> Seq<u8> {
    seq![101u8, 120u8, 112u8, 101u8, 110u8, 115u8, 101u8]
}

/// The eight little-endian bytes of `x`.
pub open spec fn le_bytes_of(x: u64) -> Seq<u8> {
    seq![
        (x & 0xff) as u8,
        ((x >> 8) & 0xff) as u8,
        ((x >> 16) & 0xff) as u8,
        ((x >> 24) & 0xff) as u8,
        ((x >> 32) & 0xff) as u8,
        ((x >> 40) & 0xff) as u8,
        ((x >> 48) & 0xff) as u8,
        ((x >> 56) & 0xff) as u8,
    ]
}

/// The seeds of the slot that holds record `id` of `owner`: the domain tag,
/// the owner's key bytes and the little-endian bytes of the id.
pub open spec fn seeds_of(owner: Seq<u8>, id: u64) -> Seq<Seq<u8>> {
    seq![expense_tag(), owner, le_bytes_of(id)]
}

/// The address of the slot that holds record `id` of `owner` under `program`.
pub open spec fn address_of(program: Seq<u8>, owner: Seq<u8>, id: u64) -> Option<Seq<u8>> {
    program_address(seeds_of(owner, id), program)
}

/// The domain tag as bytes.
pub fn expense_tag_bytes() -> (r: Vec<u8>)
    ensures
        r@ == expense_tag(),
{
    let mut v: Vec<u8> = Vec::new();
    v.push(101u8);
    v.push(120u8);
    v.push(112u8);
    v.push(101u8);
    v.push(110u8);
    v.push(115u8);
    v.push(101u8);
    proof {
        assert(v@ =~= expense_tag());
    }
    v
}

/// The eight little-endian bytes of `x`.
pub fn le_bytes(x: u64) -> (r: Vec<u8>)
    ensures
        r@ == le_bytes_of(x),
{
    let mut v: Vec<u8> = Vec::new();
    v.push((x & 0xff) as u8);
    v.push(((x >> 8) & 0xff) as u8);
    v.push(((x >> 16) & 0xff) as u8);
    v.push(((x >> 24) & 0xff) as u8);
    v.push(((x >> 32) & 0xff) as u8);
    v.push(((x >> 40) & 0xff) as u8);
    v.push(((x >> 48) & 0xff) as u8);
    v.push(((x >> 56) & 0xff) as u8);
    proof {
        assert(v@ =~= le_bytes_of(x));
    }
    v
}

/// The seeds of the slot that holds record `id` of `owner`.
pub fn expense_seeds(owner: &Key, id: u64) -> (r: Vec<Vec<u8>>)
    ensures
        seeds_view(&r) == seeds_of(owner@, id),
{
    let mut v: Vec<Vec<u8>> = Vec::new();
    v.push(expense_tag_bytes());
    v.push(owner.to_vec());
    v.push(le_bytes(id));
    proof {
        assert(seeds_view(&v) =~= seeds_of(owner@, id));
    }
    v
}

/// The address of the slot that holds record `id` of `owner` under the
/// program `program_id`, or `None` where the host can derive none.
///
/// The address depends on its three inputs alone: equal inputs give equal
/// addresses on every call.
pub fn expense_address(program_id: &Key, owner: &Key, id: u64) -> (r: Option<Key>)
    ensures
        r is None ==> address_of(program_id@, owner@, id) is None,
        r is Some ==> address_of(program_id@, owner@, id) == Some(r->0@),
{
    let seeds = expense_seeds(owner, id);
    find_program_address(&seeds, program_id)
}

} // verus!
