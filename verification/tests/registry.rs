use anchor_lang::prelude::Pubkey;
use favorite_number::address::Tag;
use favorite_number::error::ErrorCode;
use favorite_number::handlers::{
    admin_reset_favorite_number, get_favorite_number, initialize, set_favorite_number,
    AdminResetFavoriteNumber, GetFavoriteNumber, Initialize, SetFavoriteNumber,
};
use favorite_number::identity::Identity;
use favorite_number::records::decode_user;
use favorite_number::store::RecordStore;

fn ident(b: u8) -> Identity {
    Identity::new([b; 32])
}

#[test]
fn derive_addresses_distinct() {
    let o1 = ident(1);
    let o2 = ident(2);
    let a1 = favorite_number::address::derive(Tag::UserRecord, Some(&o1));
    let a2 = favorite_number::address::derive(Tag::UserRecord, Some(&o2));
    let a1_again = favorite_number::address::derive(Tag::UserRecord, Some(&o1));
    let state = favorite_number::address::derive(Tag::State, None);
    assert!(!a1.equals(&a2));
    assert!(a1.equals(&a1_again));
    assert!(!a1.equals(&state));
    assert!(!a2.equals(&state));
}

#[test]
fn initialize_succeeds_exactly_once() {
    let admin = ident(1);
    let late_comer = ident(2);
    let mut store = RecordStore::new();
    assert_eq!(initialize(&mut store, &Initialize { admin }), Ok(()));
    assert_eq!(
        initialize(&mut store, &Initialize { admin: late_comer }),
        Err(ErrorCode::AlreadyExists)
    );
    // the original admin is unchanged: it still holds reset authority,
    // and the late comer never gained it
    let user = ident(3);
    assert_eq!(set_favorite_number(&mut store, &SetFavoriteNumber { user }, 4), Ok(()));
    assert_eq!(
        admin_reset_favorite_number(
            &mut store,
            &AdminResetFavoriteNumber { admin, input_address: user },
            44,
        ),
        Ok(())
    );
    assert_eq!(
        admin_reset_favorite_number(
            &mut store,
            &AdminResetFavoriteNumber { admin: late_comer, input_address: user },
            45,
        ),
        Err(ErrorCode::Unauthorized)
    );
}

#[test]
fn set_binds_owner_to_caller() {
    let user = ident(9);
    let mut store = RecordStore::new();
    assert_eq!(set_favorite_number(&mut store, &SetFavoriteNumber { user }, 1), Ok(()));
    assert_eq!(set_favorite_number(&mut store, &SetFavoriteNumber { user }, 2), Ok(()));
    assert_eq!(set_favorite_number(&mut store, &SetFavoriteNumber { user }, 3), Ok(()));
    let addr = favorite_number::address::derive(Tag::UserRecord, Some(&user));
    let bytes = store.load(&addr).unwrap();
    let info = decode_user(bytes);
    assert!(info.owner.equals(&user));
    assert_eq!(info.favorite_number, 3);
    assert_eq!(store.record_count(), 1);
}

#[test]
fn read_returns_most_recent_write() {
    let admin = ident(1);
    let user = ident(2);
    let bystander = ident(3);
    let mut store = RecordStore::new();
    assert_eq!(initialize(&mut store, &Initialize { admin }), Ok(()));
    assert_eq!(set_favorite_number(&mut store, &SetFavoriteNumber { user }, 5), Ok(()));
    assert_eq!(set_favorite_number(&mut store, &SetFavoriteNumber { user: bystander }, 8), Ok(()));
    assert_eq!(
        get_favorite_number(&store, &GetFavoriteNumber { input_address: user }),
        Ok(5)
    );
    assert_eq!(set_favorite_number(&mut store, &SetFavoriteNumber { user }, 7), Ok(()));
    assert_eq!(
        get_favorite_number(&store, &GetFavoriteNumber { input_address: user }),
        Ok(7)
    );
    assert_eq!(
        admin_reset_favorite_number(
            &mut store,
            &AdminResetFavoriteNumber { admin, input_address: user },
            9,
        ),
        Ok(())
    );
    assert_eq!(
        get_favorite_number(&store, &GetFavoriteNumber { input_address: user }),
        Ok(9)
    );
    // the bystander's record was never disturbed
    assert_eq!(
        get_favorite_number(&store, &GetFavoriteNumber { input_address: bystander }),
        Ok(8)
    );
}

#[test]
fn admin_reset_rejects_non_admin() {
    let admin = ident(1);
    let user = ident(2);
    let impostor = ident(3);
    let mut store = RecordStore::new();
    assert_eq!(initialize(&mut store, &Initialize { admin }), Ok(()));
    assert_eq!(set_favorite_number(&mut store, &SetFavoriteNumber { user }, 5), Ok(()));
    assert_eq!(
        admin_reset_favorite_number(
            &mut store,
            &AdminResetFavoriteNumber { admin: impostor, input_address: user },
            6,
        ),
        Err(ErrorCode::Unauthorized)
    );
    assert_eq!(
        get_favorite_number(&store, &GetFavoriteNumber { input_address: user }),
        Ok(5)
    );
}

#[test]
fn full_scenario() {
    let a = ident(10);
    let b = ident(20);
    let mut store = RecordStore::new();
    assert_eq!(initialize(&mut store, &Initialize { admin: a }), Ok(()));
    assert_eq!(set_favorite_number(&mut store, &SetFavoriteNumber { user: b }, 5), Ok(()));
    assert_eq!(get_favorite_number(&store, &GetFavoriteNumber { input_address: b }), Ok(5));
    assert_eq!(
        admin_reset_favorite_number(
            &mut store,
            &AdminResetFavoriteNumber { admin: a, input_address: b },
            9,
        ),
        Ok(())
    );
    assert_eq!(get_favorite_number(&store, &GetFavoriteNumber { input_address: b }), Ok(9));
    assert_eq!(
        admin_reset_favorite_number(
            &mut store,
            &AdminResetFavoriteNumber { admin: b, input_address: b },
            1,
        ),
        Err(ErrorCode::Unauthorized)
    );
    assert_eq!(get_favorite_number(&store, &GetFavoriteNumber { input_address: b }), Ok(9));
}

#[test]
fn read_before_any_set_fails() {
    let c = ident(5);
    let store = RecordStore::new();
    assert_eq!(
        get_favorite_number(&store, &GetFavoriteNumber { input_address: c }),
        Err(ErrorCode::NotFound)
    );
}

#[test]
fn reset_before_initialize_fails() {
    let caller = ident(1);
    let target = ident(2);
    let mut store = RecordStore::new();
    assert_eq!(
        admin_reset_favorite_number(
            &mut store,
            &AdminResetFavoriteNumber { admin: caller, input_address: target },
            1,
        ),
        Err(ErrorCode::NotInitialized)
    );
}

#[test]
fn reset_of_missing_record_fails() {
    let admin = ident(1);
    let target = ident(2);
    let mut store = RecordStore::new();
    assert_eq!(initialize(&mut store, &Initialize { admin }), Ok(()));
    assert_eq!(
        admin_reset_favorite_number(
            &mut store,
            &AdminResetFavoriteNumber { admin, input_address: target },
            1,
        ),
        Err(ErrorCode::NotFound)
    );
}

#[test]
fn first_write_race_resolves_to_one_record() {
    let d = ident(7);
    let mut store = RecordStore::new();
    // two callers race on first creation of d's record: with the handler,
    // the first write creates and the second resolves as an overwrite
    assert_eq!(set_favorite_number(&mut store, &SetFavoriteNumber { user: d }, 1), Ok(()));
    assert_eq!(set_favorite_number(&mut store, &SetFavoriteNumber { user: d }, 2), Ok(()));
    assert_eq!(get_favorite_number(&store, &GetFavoriteNumber { input_address: d }), Ok(2));
    let addr = favorite_number::address::derive(Tag::UserRecord, Some(&d));
    assert!(store.contains(&addr));
    assert_eq!(store.record_count(), 1);
    let info = decode_user(store.load(&addr).unwrap());
    assert!(info.owner.equals(&d));
}

#[test]
fn create_if_absent_lets_exactly_one_creation_win() {
    let d = ident(7);
    let addr = favorite_number::address::derive(Tag::UserRecord, Some(&d));
    let mut store = RecordStore::new();
    // at the store level: of two racing creations, exactly one wins
    let first = store.create_if_absent(addr, 4, vec![1, 1, 1, 1], &d);
    let second = store.create_if_absent(addr, 4, vec![2, 2, 2, 2], &d);
    assert_eq!(first, Ok(()));
    assert_eq!(second, Err(ErrorCode::AlreadyExists));
    assert_eq!(store.record_count(), 1);
    assert_eq!(store.load(&addr).unwrap().as_slice(), &[1, 1, 1, 1]);
    // the loser retries as a plain overwrite and commits last
    assert_eq!(store.store(&addr, vec![2, 2, 2, 2]), Ok(()));
    assert_eq!(store.load(&addr).unwrap().as_slice(), &[2, 2, 2, 2]);
    assert_eq!(store.record_count(), 1);
}

#[test]
fn store_rejects_wrong_layout_sizes() {
    let d = ident(3);
    let addr = favorite_number::address::derive(Tag::UserRecord, Some(&d));
    let mut store = RecordStore::new();
    assert_eq!(
        store.create_if_absent(addr, 4, vec![1, 2, 3], &d),
        Err(ErrorCode::SizeMismatch)
    );
    assert_eq!(store.create_if_absent(addr, 4, vec![1, 2, 3, 4], &d), Ok(()));
    assert_eq!(store.store(&addr, vec![9, 9]), Err(ErrorCode::SizeMismatch));
    assert_eq!(store.load(&addr).unwrap().as_slice(), &[1, 2, 3, 4]);
    let absent = favorite_number::address::derive(Tag::State, None);
    assert_eq!(store.store(&absent, vec![0; 32]), Err(ErrorCode::NotFound));
    assert_eq!(store.load(&absent), Err(ErrorCode::NotFound));
}

#[test]
fn address_never_survives_as_plain_identity() {
    // the derived location is a transformation of the seeds, not the owner
    // identity handed back unchanged
    let owner = ident(7);
    let program_id: [u8; 32] = [3; 32];
    let addr = favorite_number::address::derive(Tag::UserRecord, Some(&owner));
    let (location, _bump) = favorite_number::pda::locate(&addr, &program_id).unwrap();
    assert_ne!(location, [7u8; 32]);
    assert_ne!(location, program_id);
}

#[test]
fn located_address_matches_runtime_derivation() {
    let owner = ident(7);
    let program_bytes: [u8; 32] = [3; 32];
    let program_id = Pubkey::new_from_array(program_bytes);

    let user_addr = favorite_number::address::derive(Tag::UserRecord, Some(&owner));
    let (location, bump) = favorite_number::pda::locate(&user_addr, &program_bytes).unwrap();
    let (expected, expected_bump) =
        Pubkey::find_program_address(&[b"user-record", &[7u8; 32]], &program_id);
    assert_eq!(location, expected.to_bytes());
    assert_eq!(bump, expected_bump);

    let state_addr = favorite_number::address::derive(Tag::State, None);
    let (location, bump) = favorite_number::pda::locate(&state_addr, &program_bytes).unwrap();
    let (expected, expected_bump) = Pubkey::find_program_address(&[b"state"], &program_id);
    assert_eq!(location, expected.to_bytes());
    assert_eq!(bump, expected_bump);
}
