use vstd::prelude::*;

use anchor_lang::solana_program::pubkey::Pubkey as SolanaPubkey;

use crate::pubkey::Pubkey;

verus! {

/// The namespace tag `b"agent"` that opens the seeds of every agent address.
pub open spec fn agent_tag() -> Seq<u8> {
    seq![97u8, 103u8, 101u8, 110u8, 116u8]
}

/// The seeds of the agent address of `owner`: the tag, then the owner's key.
pub open spec fn agent_seeds(owner: Seq<u8>) -> Seq<Seq<u8>> {
    seq![agent_tag(), owner]
}

/// The bytes that the seeds of `owner` contribute to the hashed preimage, in order.
pub open spec fn agent_seed_preimage(owner: Seq<u8>) -> Seq<u8> {
    agent_tag() + owner
}

/// The program derived address and bump seed that `seeds` give under
/// `program_id`, or `None` where no bump seed yields an address off the curve.
pub uninterp spec fn program_address(seeds: Seq<Seq<u8>>, program_id: Seq<u8>) -> Option<(Seq<u8>, u8)>;

/// The storage address of the agent record of `owner` under `program_id`.
pub open spec fn agent_address(program_id: Seq<u8>, owner: Seq<u8>) -> Option<Seq<u8>> {
    match program_address(agent_seeds(owner), program_id) {
        Some(found) => Some(found.0),
        None => None,
    }
}

/// The view of an optional key.
pub open spec fn opt_key_view(k: Option<Pubkey>) -> Option<Seq<u8>> {
    match k {
        Some(a) => Some(a@),
        None => None,
    }
}

/// Relies on `Pubkey::try_find_program_address` of solana-pubkey (re-exported
/// through anchor_lang): the address and bump it finds are a function of the
/// seeds and the program id alone; it returns `None` instead of panicking.
#[verifier::external_body]
fn try_find_program_address(seeds: &Vec<Vec<u8>>, program_id: &[u8; 32]) -> (r: Option<([u8; 32], u8)>)
    ensures
        program_address(seeds.deep_view(), program_id@) == (match r {
            Some(found) => Some((found.0@, found.1)),
            None => None,
        }),
{
    let slices: Vec<&[u8]> = seeds.iter().map(|s| s.as_slice()).collect();
    let id = SolanaPubkey::new_from_array(*program_id);
    SolanaPubkey::try_find_program_address(&slices, &id).map(|(k, bump)| (k.to_bytes(), bump))
}

/// The seeds of the agent address of `owner`, as byte vectors.
pub fn agent_seed_bytes(owner: &Pubkey) -> (r: Vec<Vec<u8>>)
    ensures
        r.deep_view() == agent_seeds(owner@),
{
    let tag: Vec<u8> = vec![97u8, 103u8, 101u8, 110u8, 116u8];
    let key: Vec<u8> = vstd::slice::slice_to_vec(owner.bytes.as_slice());
    let r: Vec<Vec<u8>> = vec![tag, key];
    assert(tag.deep_view() =~= agent_tag());
    assert(key.deep_view() =~= owner@);
    assert(r.deep_view() =~= agent_seeds(owner@));
    r
}

/// Finds the storage address of the agent record of `owner` under
/// `program_id`, with the bump seed that completes its seeds.
pub fn find_agent_address(program_id: &Pubkey, owner: &Pubkey) -> (r: Option<(Pubkey, u8)>)
    ensures
        program_address(agent_seeds(owner@), program_id@) == (match r {
            Some(found) => Some((found.0@, found.1)),
            None => None,
        }),
{
    let seeds = agent_seed_bytes(owner);
    match try_find_program_address(&seeds, &program_id.bytes) {
        Some(found) => Some((Pubkey::new_from_array(found.0), found.1)),
        None => None,
    }
}

/// Derives the storage address of the agent record of `owner` under
/// `program_id`. The same arguments always give the same address.
pub fn derive_agent_address(program_id: &Pubkey, owner: &Pubkey) -> (r: Option<Pubkey>)
    ensures
        opt_key_view(r) == agent_address(program_id@, owner@),
{
    match find_agent_address(program_id, owner) {
        Some(found) => Some(found.0),
        None => None,
    }
}

/// Addressing is deterministic and keeps owners apart: one program and one
/// owner always derive the same address, and two distinct owner keys give
/// distinct seeds, whose hashed preimages differ too.
pub proof fn lemma_agent_addressing(program_id: Seq<u8>, o1: Seq<u8>, o2: Seq<u8>)
    requires
        o1.len() == 32,
        o2.len() == 32,
    ensures
        o1 == o2 ==> agent_address(program_id, o1) == agent_address(program_id, o2),
        o1 != o2 ==> agent_seeds(o1) != agent_seeds(o2),
        o1 != o2 ==> agent_seed_preimage(o1) != agent_seed_preimage(o2),
{
    if o1 != o2 {
        assert(agent_seeds(o1)[1] == o1);
        assert(agent_seeds(o2)[1] == o2);
        if agent_seed_preimage(o1) == agent_seed_preimage(o2) {
            assert(o1 =~= agent_seed_preimage(o1).subrange(5, 37));
            assert(o2 =~= agent_seed_preimage(o2).subrange(5, 37));
        }
    }
}

} // verus!
