use vstd::prelude::*;

use crate::address::{Address, AddressV};

verus! {

/// The namespace seed of the configuration record: the bytes of "state".
pub open spec fn state_seed() -> Seq<u8> {
    seq![115u8, 116u8, 97u8, 116u8, 101u8]
}

/// The namespace seed of a per-owner record: the bytes of "user-record".
pub open spec fn user_record_seed() -> Seq<u8> {
    seq![117u8, 115u8, 101u8, 114u8, 45u8, 114u8, 101u8, 99u8, 111u8, 114u8, 100u8]
}

/// The seed sequence a logical address hands to the underlying address
/// space: its namespace seed and, for a per-owner record, the owner's
/// identity bytes.
pub open spec fn seeds_of(a: AddressV) -> Seq<Seq<u8>> {
    match a {
        AddressV::State => seq![state_seed()],
        AddressV::User { owner } => seq![user_record_seed(), owner],
    }
}

/// The program-derived address and bump nonce the underlying address space
/// assigns to a seed sequence under a program id; `None` only in the
/// statistically unreachable case that no nonce moves the address off the
/// curve, or when the seeds break the address space's length limits.
pub uninterp spec fn pda_of(seeds: Seq<Seq<u8>>, program_id: Seq<u8>) -> Option<(Seq<u8>, u8)>;

/// Relies on anchor_lang's `Pubkey::try_find_program_address`: its result is
/// a pure function of the seeds and the program id alone, and it returns
/// `None` rather than panicking when no bump seed is viable.
#[verifier::external_body]
fn try_find_pda(seeds: &Vec<Vec<u8>>, program_id: &[u8; 32]) -> (r: Option<([u8; 32], u8)>)
    ensures
        match r {
            Some(p) => pda_of(seeds.deep_view(), program_id@) == Some((p.0@, p.1)),
            None => pda_of(seeds.deep_view(), program_id@) is None,
        },
{
    let key = anchor_lang::prelude::Pubkey::new_from_array(*program_id);
    let seed_refs: Vec<&[u8]> = seeds.iter().map(|s| s.as_slice()).collect();
    anchor_lang::prelude::Pubkey::try_find_program_address(&seed_refs, &key).map(
        |p: (anchor_lang::prelude::Pubkey, u8)| (p.0.to_bytes(), p.1),
    )
}

fn state_seed_bytes() -> (r: Vec<u8>)
    ensures
        r@ == state_seed(),
{
    // the bytes of "state"
    let mut v: Vec<u8> = Vec::new();
    v.push(115);
    v.push(116);
    v.push(97);
    v.push(116);
    v.push(101);
    proof {
        assert(v@ =~= state_seed());
    }
    v
}

fn user_record_seed_bytes() -> (r: Vec<u8>)
    ensures
        r@ == user_record_seed(),
{
    // the bytes of "user-record"
    let mut v: Vec<u8> = Vec::new();
    v.push(117);
    v.push(115);
    v.push(101);
    v.push(114);
    v.push(45);
    v.push(114);
    v.push(101);
    v.push(99);
    v.push(111);
    v.push(114);
    v.push(100);
    proof {
        assert(v@ =~= user_record_seed());
    }
    v
}

/// The seed sequence for a logical address, as plain byte vectors.
pub fn seeds_for(addr: &Address) -> (r: Vec<Vec<u8>>)
    ensures
        r.deep_view() == seeds_of(addr@),
{
    let mut v: Vec<Vec<u8>> = Vec::new();
    match addr {
        Address::State => {
            let tag = state_seed_bytes();
            proof {
                assert(tag.deep_view() =~= state_seed());
            }
            v.push(tag);
        },
        Address::User { owner } => {
            let tag = user_record_seed_bytes();
            proof {
                assert(tag.deep_view() =~= user_record_seed());
            }
            v.push(tag);
            let bytes = owner.bytes();
            let mut ob: Vec<u8> = Vec::new();
            let mut i: usize = 0;
            while i < 32
                invariant
                    0 <= i <= 32,
                    bytes@ == owner@,
                    ob@ =~= owner@.subrange(0, i as int),
                decreases 32 - i,
            {
                ob.push(bytes[i]);
                i = i + 1;
            }
            proof {
                owner.lemma_len();
                assert(ob.deep_view() =~= owner@);
            }
            v.push(ob);
        },
    }
    proof {
        assert(v.deep_view() =~= seeds_of(addr@));
    }
    v
}

/// Locates a logical address in the underlying address space: the physical
/// 32-byte program-derived address and its bump nonce, under `program_id`.
/// Identical inputs always yield an identical location, since the result is
/// a pure function of the derivation seeds and the program id.
pub fn locate(addr: &Address, program_id: &[u8; 32]) -> (r: Option<([u8; 32], u8)>)
    ensures
        match r {
            Some(p) => pda_of(seeds_of(addr@), program_id@) == Some((p.0@, p.1)),
            None => pda_of(seeds_of(addr@), program_id@) is None,
        },
{
    let seeds = seeds_for(addr);
    try_find_pda(&seeds, program_id)
}

} // verus!
