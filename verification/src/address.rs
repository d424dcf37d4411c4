use vstd::prelude::*;

use crate::identity::Identity;

verus! {

/// The namespace a record lives in: the singleton configuration record, or
/// one per-owner record.
#[derive(Clone, Copy)]
pub enum Tag {
    State,
    UserRecord,
}

/// A storage location, computed deterministically from a namespace tag and,
/// for per-owner records, the owner's identity. No index structure exists:
/// every relationship between records is re-established by re-deriving
/// addresses from identities.
#[derive(Clone, Copy)]
pub enum Address {
    State,
    User { owner: Identity },
}

/// The mathematical form of an [`Address`]: the tag together with the owner's
/// identity bytes.
pub enum AddressV {
    State,
    User { owner: Seq<u8> },
}

impl View for Address {
    type V = AddressV;

    open spec fn view(&self) -> AddressV {
        match *self {
            Address::State => AddressV::State,
            Address::User { owner } => AddressV::User { owner: owner@ },
        }
    }
}

/// The address of the singleton configuration record.
pub open spec fn state_address() -> AddressV {
    AddressV::State
}

/// The address of `owner`'s record.
pub open spec fn user_address(owner: Seq<u8>) -> AddressV {
    AddressV::User { owner }
}

/// Derives the storage address for a record. The derivation is a pure
/// function of its inputs: the same tag and owner always name the same
/// address, and distinct inputs never collide
/// (see [`lemma_no_address_collision`]).
pub fn derive(tag: Tag, owner: Option<&Identity>) -> (r: Address)
    requires
        (tag is UserRecord) <==> (owner is Some),
    ensures
        tag is State ==> r@ == state_address(),
        owner matches Some(o) ==> r@ == user_address(o@),
{
    match tag {
        Tag::State => Address::State,
        Tag::UserRecord => {
            match owner {
                Some(o) => Address::User { owner: *o },
                None => Address::State,  // excluded by the precondition
            }
        },
    }
}

/// Address derivation never collides: two distinct owners derive distinct
/// record addresses, and no per-owner address coincides with the
/// configuration record's address.
pub proof fn lemma_no_address_collision(o1: Seq<u8>, o2: Seq<u8>)
    requires
        o1 != o2,
    ensures
        user_address(o1) != user_address(o2),
        user_address(o1) != state_address(),
{
}

impl Address {
    pub fn equals(&self, other: &Address) -> (r: bool)
        ensures
            r == (self@ == other@),
    {
        match (self, other) {
            (Address::State, Address::State) => true,
            (Address::User { owner: a }, Address::User { owner: b }) => a.equals(b),
            _ => false,
        }
    }
}

} // verus!
