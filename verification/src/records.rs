use vstd::prelude::*;

use crate::codec::{le_bytes_of, lemma_le_round_trip, u64_from_le_bytes, u64_of_le, u64_to_le_bytes};
use crate::identity::Identity;

verus! {

/// Fixed width, in bytes, of the singleton configuration record: the admin's
/// identity.
pub const STATE_RECORD_SIZE: usize = 32;

/// Fixed width, in bytes, of a per-owner record: the owner's identity
/// followed by the little-endian 64-bit value.
pub const USER_RECORD_SIZE: usize = 40;

/// The singleton configuration record: the one identity permitted to reset
/// other owners' records. Created exactly once; never reassigned.
pub struct ProgramState {
    pub admin: Identity,
}

/// One owner's record: the owner's identity, fixed at creation, and the
/// owner's current favorite number.
pub struct UserInfo {
    pub owner: Identity,
    pub favorite_number: u64,
}

/// The byte layout of the configuration record.
pub open spec fn state_record_bytes(admin: Seq<u8>) -> Seq<u8> {
    admin
}

/// The byte layout of a per-owner record.
pub open spec fn user_record_bytes(owner: Seq<u8>, value: u64) -> Seq<u8> {
    owner + le_bytes_of(value)
}

/// The owner identity stored in a per-owner record's bytes.
pub open spec fn owner_of_bytes(b: Seq<u8>) -> Seq<u8> {
    b.subrange(0, 32)
}

/// The value stored in a per-owner record's bytes.
pub open spec fn value_of_bytes(b: Seq<u8>) -> u64 {
    u64_of_le(b.subrange(32, 40))
}

/// Decoding a freshly encoded per-owner record recovers the owner and the
/// value exactly.
pub proof fn lemma_user_record_round_trip(owner: Seq<u8>, value: u64)
    requires
        owner.len() == 32,
    ensures
        user_record_bytes(owner, value).len() == 40,
        owner_of_bytes(user_record_bytes(owner, value)) == owner,
        value_of_bytes(user_record_bytes(owner, value)) == value,
{
    lemma_le_round_trip(value);
    assert(user_record_bytes(owner, value).subrange(0, 32) =~= owner);
    assert(user_record_bytes(owner, value).subrange(32, 40) =~= le_bytes_of(value));
}

pub fn encode_state(s: &ProgramState) -> (r: Vec<u8>)
    ensures
        r@ == state_record_bytes(s.admin@),
        r@.len() == 32,
{
    let bytes = s.admin.bytes();
    let mut v: Vec<u8> = Vec::new();
    let mut i: usize = 0;
    while i < 32
        invariant
            0 <= i <= 32,
            bytes@ == s.admin@,
            v@ =~= s.admin@.subrange(0, i as int),
        decreases 32 - i,
    {
        v.push(bytes[i]);
        i = i + 1;
    }
    proof {
        s.admin.lemma_len();
        assert(v@ =~= state_record_bytes(s.admin@));
    }
    v
}

pub fn decode_state(b: &Vec<u8>) -> (r: ProgramState)
    requires
        b@.len() == 32,
    ensures
        r.admin@ == b@,
{
    let mut arr: [u8; 32] = [0u8; 32];
    let mut i: usize = 0;
    while i < 32
        invariant
            0 <= i <= 32,
            b@.len() == 32,
            forall|j: int| 0 <= j < i ==> arr@[j] == b@[j],
        decreases 32 - i,
    {
        arr[i] = b[i];
        i = i + 1;
    }
    proof {
        assert(arr@ =~= b@);
    }
    ProgramState { admin: Identity::new(arr) }
}

pub fn encode_user(u: &UserInfo) -> (r: Vec<u8>)
    ensures
        r@ == user_record_bytes(u.owner@, u.favorite_number),
        r@.len() == 40,
{
    let bytes = u.owner.bytes();
    let mut v: Vec<u8> = Vec::new();
    let mut i: usize = 0;
    while i < 32
        invariant
            0 <= i <= 32,
            bytes@ == u.owner@,
            v@ =~= u.owner@.subrange(0, i as int),
        decreases 32 - i,
    {
        v.push(bytes[i]);
        i = i + 1;
    }
    let mut tail = u64_to_le_bytes(u.favorite_number);
    v.append(&mut tail);
    proof {
        u.owner.lemma_len();
        assert(v@ =~= user_record_bytes(u.owner@, u.favorite_number));
    }
    v
}

pub fn decode_user(b: &Vec<u8>) -> (r: UserInfo)
    requires
        b@.len() == 40,
    ensures
        r.owner@ == owner_of_bytes(b@),
        r.favorite_number == value_of_bytes(b@),
{
    let mut arr: [u8; 32] = [0u8; 32];
    let mut i: usize = 0;
    while i < 32
        invariant
            0 <= i <= 32,
            b@.len() == 40,
            forall|j: int| 0 <= j < i ==> arr@[j] == b@[j],
        decreases 32 - i,
    {
        arr[i] = b[i];
        i = i + 1;
    }
    let mut tail: [u8; 8] = [0u8; 8];
    let mut k: usize = 0;
    while k < 8
        invariant
            0 <= k <= 8,
            b@.len() == 40,
            forall|j: int| 0 <= j < k ==> tail@[j] == b@[32 + j],
        decreases 8 - k,
    {
        tail[k] = b[32 + k];
        k = k + 1;
    }
    let value = u64_from_le_bytes(&tail);
    proof {
        assert(arr@ =~= owner_of_bytes(b@));
        assert(tail@ =~= b@.subrange(32, 40));
    }
    UserInfo { owner: Identity::new(arr), favorite_number: value }
}

} // verus!
