use vstd::prelude::*;

use crate::address::{state_address, user_address, AddressV};
use crate::error::ErrorCode;
use crate::handlers::{
    admin_of, get_result, has_record, initialize_post, initialize_result, initialized,
    records_well_formed, reset_post, reset_result, set_post,
};
use crate::records::lemma_user_record_round_trip;

verus! {

/// Initialization succeeds exactly once. The first call on an uninitialized
/// store installs the caller as admin; every later call, by whomever, fails
/// with `AlreadyExists` and leaves the store — the original admin included —
/// entirely unchanged.
pub proof fn lemma_initialize_at_most_once(m: Map<AddressV, Seq<u8>>, a1: Seq<u8>, a2: Seq<u8>)
    requires
        !initialized(m),
    ensures
        initialize_result(m) == Ok::<(), ErrorCode>(()),
        initialized(initialize_post(m, a1)),
        admin_of(initialize_post(m, a1)) == a1,
        initialize_result(initialize_post(m, a1)) == Err::<(), ErrorCode>(ErrorCode::AlreadyExists),
        initialize_post(initialize_post(m, a1), a2) == initialize_post(m, a1),
        admin_of(initialize_post(initialize_post(m, a1), a2)) == a1,
{
}

/// No operation ever reassigns the admin: once the registry is initialized,
/// a caller's own write, an admin reset, and a repeated initialization all
/// leave the configuration record exactly as it was.
pub proof fn lemma_admin_never_reassigned(
    m: Map<AddressV, Seq<u8>>,
    caller: Seq<u8>,
    target: Seq<u8>,
    value: u64,
)
    requires
        initialized(m),
    ensures
        initialized(set_post(m, caller, value)),
        admin_of(set_post(m, caller, value)) == admin_of(m),
        initialized(reset_post(m, caller, target, value)),
        admin_of(reset_post(m, caller, target, value)) == admin_of(m),
        initialize_post(m, caller) == m,
        admin_of(initialize_post(m, caller)) == admin_of(m),
{
    assert(user_address(caller) != state_address());
    assert(user_address(target) != state_address());
}

/// Reading an owner's record returns the most recently written value: right
/// after an owner writes `value`, a read of that owner returns `value`.
pub proof fn lemma_read_after_set(m: Map<AddressV, Seq<u8>>, user: Seq<u8>, value: u64)
    requires
        user.len() == 32,
    ensures
        get_result(set_post(m, user, value), user) == Ok::<u64, ErrorCode>(value),
{
    lemma_user_record_round_trip(user, value);
}

/// Reading a target's record right after a successful admin reset returns
/// the reset value; after a failed reset, every read is exactly as before.
pub proof fn lemma_read_after_reset(
    m: Map<AddressV, Seq<u8>>,
    caller: Seq<u8>,
    target: Seq<u8>,
    value: u64,
)
    requires
        records_well_formed(m),
    ensures
        reset_result(m, caller, target) == Ok::<(), ErrorCode>(()) ==> get_result(
            reset_post(m, caller, target, value),
            target,
        ) == Ok::<u64, ErrorCode>(value),
        reset_result(m, caller, target) is Err ==> reset_post(m, caller, target, value) == m,
{
    if reset_result(m, caller, target) == Ok::<(), ErrorCode>(()) {
        assert(m.dom().contains(user_address(target)));
        lemma_user_record_round_trip(crate::handlers::owner_of(m, target), value);
    }
}

/// Operations on one owner never disturb another owner's record: a read of
/// `other` sees the same outcome before and after a different owner's write,
/// any admin reset of a different target, and any initialization.
pub proof fn lemma_read_frame(
    m: Map<AddressV, Seq<u8>>,
    caller: Seq<u8>,
    target: Seq<u8>,
    value: u64,
    other: Seq<u8>,
)
    requires
        caller != other,
        target != other,
    ensures
        get_result(set_post(m, caller, value), other) == get_result(m, other),
        get_result(reset_post(m, caller, target, value), other) == get_result(m, other),
        get_result(initialize_post(m, caller), other) == get_result(m, other),
{
    assert(user_address(caller) != user_address(other));
    assert(user_address(target) != user_address(other));
    assert(state_address() != user_address(other));
}

/// An owner who never wrote has no record to read: on a store whose keys all
/// came from writes by other owners and from initialization, a read of that
/// owner fails with `NotFound`.
pub proof fn lemma_read_never_written(m: Map<AddressV, Seq<u8>>, target: Seq<u8>)
    requires
        !has_record(m, target),
    ensures
        get_result(m, target) == Err::<u64, ErrorCode>(ErrorCode::NotFound),
{
}

/// Only the recorded admin may reset: called by any other identity, the
/// reset fails with `Unauthorized` and changes nothing, even when the
/// target's record exists.
pub proof fn lemma_reset_requires_admin(
    m: Map<AddressV, Seq<u8>>,
    caller: Seq<u8>,
    target: Seq<u8>,
    value: u64,
)
    requires
        initialized(m),
        caller != admin_of(m),
    ensures
        reset_result(m, caller, target) == Err::<(), ErrorCode>(ErrorCode::Unauthorized),
        reset_post(m, caller, target, value) == m,
{
}

/// A creation race between two writes by one owner leaves a single record:
/// whichever write commits last determines the value, and either way the
/// record's owner is that one owner and the store's other records are
/// untouched.
pub proof fn lemma_first_write_race(m: Map<AddressV, Seq<u8>>, user: Seq<u8>, v1: u64, v2: u64)
    requires
        user.len() == 32,
    ensures
        set_post(set_post(m, user, v1), user, v2) == set_post(m, user, v2),
        get_result(set_post(set_post(m, user, v1), user, v2), user) == Ok::<u64, ErrorCode>(v2),
        crate::handlers::owner_of(set_post(set_post(m, user, v1), user, v2), user) == user,
        set_post(set_post(m, user, v1), user, v2).dom() =~= m.dom().insert(user_address(user)),
{
    lemma_user_record_round_trip(user, v2);
    assert(set_post(set_post(m, user, v1), user, v2) =~= set_post(m, user, v2));
}

} // verus!
