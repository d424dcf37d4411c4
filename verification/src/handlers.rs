use vstd::prelude::*;

use crate::address::{state_address, user_address, AddressV, Tag};
use crate::error::ErrorCode;
use crate::identity::Identity;
use crate::records::{
    decode_state, decode_user, encode_state, encode_user, owner_of_bytes, state_record_bytes,
    user_record_bytes, value_of_bytes, ProgramState, UserInfo, STATE_RECORD_SIZE, USER_RECORD_SIZE,
};
use crate::store::RecordStore;

verus! {

/// Every record in the store obeys its fixed layout: the configuration
/// record is exactly the admin identity, and each per-owner record is
/// exactly 40 bytes whose leading 32 bytes are the owner identity that its
/// address was derived from. The last clause is the registry's central
/// invariant: a record's stored owner always equals the identity its address
/// binds it to.
pub open spec fn records_well_formed(m: Map<AddressV, Seq<u8>>) -> bool {
    forall|k: AddressV| #[trigger]
        m.dom().contains(k) ==> match k {
            AddressV::State => m[k].len() == STATE_RECORD_SIZE,
            AddressV::User { owner } => m[k].len() == USER_RECORD_SIZE && owner.len() == 32
                && owner_of_bytes(m[k]) == owner,
        }
}

/// Whether the registry has been initialized: the configuration record
/// exists.
pub open spec fn initialized(m: Map<AddressV, Seq<u8>>) -> bool {
    m.dom().contains(state_address())
}

/// The admin identity recorded at initialization.
pub open spec fn admin_of(m: Map<AddressV, Seq<u8>>) -> Seq<u8> {
    m[state_address()]
}

/// Whether `owner` has a record.
pub open spec fn has_record(m: Map<AddressV, Seq<u8>>, owner: Seq<u8>) -> bool {
    m.dom().contains(user_address(owner))
}

/// The value currently stored in `owner`'s record.
pub open spec fn value_of(m: Map<AddressV, Seq<u8>>, owner: Seq<u8>) -> u64 {
    value_of_bytes(m[user_address(owner)])
}

/// The owner identity currently stored in `owner`'s record.
pub open spec fn owner_of(m: Map<AddressV, Seq<u8>>, owner: Seq<u8>) -> Seq<u8> {
    owner_of_bytes(m[user_address(owner)])
}

/// What `initialize` does to the store: installs the caller as admin, unless
/// a configuration record already exists, in which case nothing changes.
pub open spec fn initialize_post(m: Map<AddressV, Seq<u8>>, admin: Seq<u8>) -> Map<
    AddressV,
    Seq<u8>,
> {
    if initialized(m) {
        m
    } else {
        m.insert(state_address(), state_record_bytes(admin))
    }
}

/// What `initialize` reports: success exactly when no configuration record
/// existed yet.
pub open spec fn initialize_result(m: Map<AddressV, Seq<u8>>) -> Result<(), ErrorCode> {
    if initialized(m) {
        Err(ErrorCode::AlreadyExists)
    } else {
        Ok(())
    }
}

/// What `set_favorite_number` does to the store: creates or overwrites the
/// caller's own record, which afterwards holds the caller as owner and the
/// given value. It never touches any other record.
pub open spec fn set_post(m: Map<AddressV, Seq<u8>>, user: Seq<u8>, value: u64) -> Map<
    AddressV,
    Seq<u8>,
> {
    m.insert(user_address(user), user_record_bytes(user, value))
}

/// What `get_favorite_number` returns: the stored value of the target's
/// record, or `NotFound` if the target never set one.
pub open spec fn get_result(m: Map<AddressV, Seq<u8>>, target: Seq<u8>) -> Result<u64, ErrorCode> {
    if has_record(m, target) {
        Ok(value_of(m, target))
    } else {
        Err(ErrorCode::NotFound)
    }
}

/// What `admin_reset_favorite_number` does to the store: when the caller is
/// the recorded admin and the target has a record, that record's value is
/// replaced and its owner is left unchanged; otherwise nothing changes.
pub open spec fn reset_post(
    m: Map<AddressV, Seq<u8>>,
    caller: Seq<u8>,
    target: Seq<u8>,
    value: u64,
) -> Map<AddressV, Seq<u8>> {
    if initialized(m) && caller == admin_of(m) && has_record(m, target) {
        m.insert(user_address(target), user_record_bytes(owner_of(m, target), value))
    } else {
        m
    }
}

/// What `admin_reset_favorite_number` reports, check by check: the registry
/// must be initialized, the caller must be the recorded admin, and the
/// target must have a record.
pub open spec fn reset_result(
    m: Map<AddressV, Seq<u8>>,
    caller: Seq<u8>,
    target: Seq<u8>,
) -> Result<(), ErrorCode> {
    if !initialized(m) {
        Err(ErrorCode::NotInitialized)
    } else if caller != admin_of(m) {
        Err(ErrorCode::Unauthorized)
    } else if !has_record(m, target) {
        Err(ErrorCode::NotFound)
    } else {
        Ok(())
    }
}

/// The caller of `initialize`, who becomes the admin.
pub struct Initialize {
    pub admin: Identity,
}

/// The caller of `set_favorite_number`. The record address is derived from
/// this identity, so the operation can only ever touch the caller's own
/// record.
pub struct SetFavoriteNumber {
    pub user: Identity,
}

/// The owner whose record `get_favorite_number` reads; not necessarily the
/// caller, since anyone may read any owner's value.
pub struct GetFavoriteNumber {
    pub input_address: Identity,
}

/// The caller and target of `admin_reset_favorite_number`.
pub struct AdminResetFavoriteNumber {
    pub admin: Identity,
    pub input_address: Identity,
}

/// Creates the singleton configuration record with the caller as admin.
/// Fails with `AlreadyExists` if the registry was already initialized, and
/// then changes nothing: the first successful call wins, permanently.
pub fn initialize(store: &mut RecordStore, accounts: &Initialize) -> (r: Result<(), ErrorCode>)
    requires
        old(store).wf(),
        records_well_formed(old(store)@),
    ensures
        final(store).wf(),
        records_well_formed(final(store)@),
        final(store)@ == initialize_post(old(store)@, accounts.admin@),
        r == initialize_result(old(store)@),
{
    let addr = crate::address::derive(Tag::State, None);
    let state = ProgramState { admin: accounts.admin };
    let bytes = encode_state(&state);
    proof {
        accounts.admin.lemma_len();
    }
    let r = store.create_if_absent(addr, STATE_RECORD_SIZE, bytes, &accounts.admin);
    proof {
        if !initialized(old(store)@) {
            assert forall|k: AddressV| #[trigger] store@.dom().contains(k) implies match k {
                AddressV::State => store@[k].len() == STATE_RECORD_SIZE,
                AddressV::User { owner } => store@[k].len() == USER_RECORD_SIZE && owner.len()
                    == 32 && owner_of_bytes(store@[k]) == owner,
            } by {
                if k != state_address() {
                    assert(old(store)@.dom().contains(k));
                }
            }
        }
    }
    r
}

/// Creates or overwrites the caller's own record with the given value. The
/// address derivation binds the record to the caller's identity, so the
/// record's owner always equals the caller, however many times this runs and
/// whichever of two racing first-writes won creation.
pub fn set_favorite_number(
    store: &mut RecordStore,
    accounts: &SetFavoriteNumber,
    favorite_number: u64,
) -> (r: Result<(), ErrorCode>)
    requires
        old(store).wf(),
        records_well_formed(old(store)@),
    ensures
        final(store).wf(),
        records_well_formed(final(store)@),
        final(store)@ == set_post(old(store)@, accounts.user@, favorite_number),
        r == Ok::<(), ErrorCode>(()),
{
    let addr = crate::address::derive(Tag::UserRecord, Some(&accounts.user));
    let info = UserInfo { owner: accounts.user, favorite_number };
    let bytes = encode_user(&info);
    proof {
        accounts.user.lemma_len();
    }
    let created = store.create_if_absent(addr, USER_RECORD_SIZE, bytes, &accounts.user);
    let r = match created {
        Ok(()) => Ok(()),
        Err(_) => {
            // the record already exists: the losing side of a creation race
            // resolves as a plain overwrite
            let info2 = UserInfo { owner: accounts.user, favorite_number };
            let bytes2 = encode_user(&info2);
            store.store(&addr, bytes2)
        },
    };
    proof {
        lemma_set_preserves_well_formed(old(store)@, accounts.user@, favorite_number);
    }
    r
}

/// Returns the value of the target owner's record, or `NotFound` if that
/// owner never set one. A pure read: no mutation, and deliberately no
/// authorization — anyone may read any owner's value.
pub fn get_favorite_number(store: &RecordStore, accounts: &GetFavoriteNumber) -> (r: Result<
    u64,
    ErrorCode,
>)
    requires
        store.wf(),
        records_well_formed(store@),
    ensures
        r == get_result(store@, accounts.input_address@),
{
    let addr = crate::address::derive(Tag::UserRecord, Some(&accounts.input_address));
    match store.load(&addr) {
        Ok(bytes) => {
            let info = decode_user(bytes);
            Ok(info.favorite_number)
        },
        Err(_) => Err(ErrorCode::NotFound),
    }
}

/// Overwrites the target owner's record with a new value, on the admin's
/// sole authority. The one place cross-identity mutation is permitted, gated
/// by a single equality check against the admin recorded at initialization;
/// the record's owner is left unchanged.
pub fn admin_reset_favorite_number(
    store: &mut RecordStore,
    accounts: &AdminResetFavoriteNumber,
    new_favorite_number: u64,
) -> (r: Result<(), ErrorCode>)
    requires
        old(store).wf(),
        records_well_formed(old(store)@),
    ensures
        final(store).wf(),
        records_well_formed(final(store)@),
        final(store)@ == reset_post(
            old(store)@,
            accounts.admin@,
            accounts.input_address@,
            new_favorite_number,
        ),
        r == reset_result(old(store)@, accounts.admin@, accounts.input_address@),
{
    let state_addr = crate::address::derive(Tag::State, None);
    let config = match store.load(&state_addr) {
        Ok(bytes) => decode_state(bytes),
        Err(_) => {
            return Err(ErrorCode::NotInitialized);
        },
    };
    if !accounts.admin.equals(&config.admin) {
        return Err(ErrorCode::Unauthorized);
    }
    let user_addr = crate::address::derive(Tag::UserRecord, Some(&accounts.input_address));
    let info = match store.load(&user_addr) {
        Ok(bytes) => decode_user(bytes),
        Err(_) => {
            return Err(ErrorCode::NotFound);
        },
    };
    let new_info = UserInfo { owner: info.owner, favorite_number: new_favorite_number };
    let bytes2 = encode_user(&new_info);
    let r = store.store(&user_addr, bytes2);
    proof {
        lemma_reset_preserves_well_formed(
            old(store)@,
            accounts.admin@,
            accounts.input_address@,
            new_favorite_number,
        );
    }
    r
}

/// A caller's own write preserves the layout invariant, and afterwards the
/// caller's record holds exactly the caller as owner and the written value.
/// However many times the same caller writes, the stored owner equals that
/// caller's identity.
pub proof fn lemma_set_preserves_well_formed(m: Map<AddressV, Seq<u8>>, user: Seq<u8>, value: u64)
    requires
        records_well_formed(m),
        user.len() == 32,
    ensures
        records_well_formed(set_post(m, user, value)),
        has_record(set_post(m, user, value), user),
        owner_of(set_post(m, user, value), user) == user,
        value_of(set_post(m, user, value), user) == value,
{
    crate::records::lemma_user_record_round_trip(user, value);
    let m2 = set_post(m, user, value);
    assert forall|k: AddressV| #[trigger] m2.dom().contains(k) implies match k {
        AddressV::State => m2[k].len() == STATE_RECORD_SIZE,
        AddressV::User { owner } => m2[k].len() == USER_RECORD_SIZE && owner.len() == 32
            && owner_of_bytes(m2[k]) == owner,
    } by {
        if k != user_address(user) {
            assert(m.dom().contains(k));
        }
    }
}

/// An admin reset preserves the layout invariant; afterwards the target's
/// record holds the new value and its owner is unchanged.
pub proof fn lemma_reset_preserves_well_formed(
    m: Map<AddressV, Seq<u8>>,
    caller: Seq<u8>,
    target: Seq<u8>,
    value: u64,
)
    requires
        records_well_formed(m),
    ensures
        records_well_formed(reset_post(m, caller, target, value)),
        has_record(m, target) ==> owner_of(reset_post(m, caller, target, value), target)
            == owner_of(m, target),
{
    let m2 = reset_post(m, caller, target, value);
    if initialized(m) && caller == admin_of(m) && has_record(m, target) {
        assert(m.dom().contains(user_address(target)));
        crate::records::lemma_user_record_round_trip(owner_of(m, target), value);
        assert forall|k: AddressV| #[trigger] m2.dom().contains(k) implies match k {
            AddressV::State => m2[k].len() == STATE_RECORD_SIZE,
            AddressV::User { owner } => m2[k].len() == USER_RECORD_SIZE && owner.len() == 32
                && owner_of_bytes(m2[k]) == owner,
        } by {
            if k != user_address(target) {
                assert(m.dom().contains(k));
            }
        }
    }
}

} // verus!
