use contract_storage::capability::AccessRights;
use contract_storage::error::{ApiError, ReadError, Revert};
use contract_storage::key::{Key, Value, ValueKind};
use contract_storage::registry::{create_contract_metadata_at_hash, new_uref};
use contract_storage::storage;
use contract_storage::storage::{
    add, add_local, read, read_local, read_or_revert, write_local, Host,
};

#[test]
fn write_then_read_round_trip() {
    let mut host = Host::new(false);
    let u = new_uref(&mut host, Value::U64(1)).unwrap();
    assert_eq!(storage::write(&mut host, u, Value::Bool(true)), Ok(()));
    assert_eq!(read(&host, u, ValueKind::Bool), Ok(Some(Value::Bool(true))));
    assert_eq!(storage::write(&mut host, u, Value::Bool(false)), Ok(()));
    assert_eq!(read(&host, u, ValueKind::Bool), Ok(Some(Value::Bool(false))));
}

#[test]
fn new_uref_holds_initial_value_with_full_rights() {
    let mut host = Host::new(false);
    let u = new_uref(&mut host, Value::U64(42)).unwrap();
    assert_eq!(u.access_rights(), AccessRights::ReadAddWrite);
    assert_eq!(read(&host, u, ValueKind::U64), Ok(Some(Value::U64(42))));
}

#[test]
fn read_before_write_is_none() {
    let mut host = Host::new(false);
    let (_, access) = create_contract_metadata_at_hash(&mut host).unwrap();
    assert_eq!(read(&host, access, ValueKind::U64), Ok(None));
    assert_eq!(read(&host, access, ValueKind::Unit), Ok(None));
}

#[test]
fn read_of_other_kind_is_a_deserialize_error() {
    let mut host = Host::new(false);
    let u = new_uref(&mut host, Value::U64(5)).unwrap();
    assert_eq!(read(&host, u, ValueKind::Bool), Err(ReadError::Deserialize));
}

#[test]
fn read_or_revert_escalates() {
    let mut host = Host::new(false);
    let u = new_uref(&mut host, Value::U64(5)).unwrap();
    assert_eq!(read_or_revert(&host, u, ValueKind::U64), Ok(Value::U64(5)));
    assert_eq!(
        read_or_revert(&host, u, ValueKind::Key),
        Err(Revert { code: ApiError::Read })
    );
    let (_, access) = create_contract_metadata_at_hash(&mut host).unwrap();
    assert_eq!(
        read_or_revert(&host, access, ValueKind::U64),
        Err(Revert { code: ApiError::ValueNotFound })
    );
}

#[test]
fn add_twice_from_zero_sums() {
    let mut host = Host::new(false);
    let u = new_uref(&mut host, Value::U64(0)).unwrap();
    assert_eq!(add(&mut host, u, Value::U64(3)), Ok(()));
    assert_eq!(add(&mut host, u, Value::U64(4)), Ok(()));
    assert_eq!(read(&host, u, ValueKind::U64), Ok(Some(Value::U64(7))));
}

#[test]
fn add_wraps_at_u64_max() {
    let mut host = Host::new(false);
    let u = new_uref(&mut host, Value::U64(u64::MAX)).unwrap();
    assert_eq!(add(&mut host, u, Value::U64(2)), Ok(()));
    assert_eq!(read(&host, u, ValueKind::U64), Ok(Some(Value::U64(1))));
}

#[test]
fn add_of_incompatible_value_is_fatal() {
    let mut host = Host::new(false);
    let u = new_uref(&mut host, Value::Bool(true)).unwrap();
    assert_eq!(
        add(&mut host, u, Value::U64(1)),
        Err(Revert { code: ApiError::TypeMismatch })
    );
    assert_eq!(read(&host, u, ValueKind::Bool), Ok(Some(Value::Bool(true))));
}

#[test]
fn add_to_missing_value_is_fatal() {
    let mut host = Host::new(false);
    let (_, access) = create_contract_metadata_at_hash(&mut host).unwrap();
    assert_eq!(
        add(&mut host, access, Value::U64(1)),
        Err(Revert { code: ApiError::ValueNotFound })
    );
}

#[test]
fn local_round_trip_and_add() {
    let mut host = Host::new(false);
    let k: Vec<u8> = vec![1, 2, 3];
    assert_eq!(read_local(&host, &k, ValueKind::U64), Ok(None));
    write_local(&mut host, &k, Value::U64(10));
    assert_eq!(read_local(&host, &k, ValueKind::U64), Ok(Some(Value::U64(10))));
    assert_eq!(add_local(&mut host, &k, Value::U64(5)), Ok(()));
    assert_eq!(read_local(&host, &k, ValueKind::U64), Ok(Some(Value::U64(15))));
    assert_eq!(read_local(&host, &k, ValueKind::Bool), Err(ReadError::Deserialize));
    assert_eq!(read_local(&host, &[1u8, 2], ValueKind::U64), Ok(None));
}

#[test]
fn add_local_errors() {
    let mut host = Host::new(false);
    let k: Vec<u8> = vec![9];
    assert_eq!(
        add_local(&mut host, &k, Value::U64(1)),
        Err(Revert { code: ApiError::ValueNotFound })
    );
    write_local(&mut host, &k, Value::Unit);
    assert_eq!(
        add_local(&mut host, &k, Value::U64(1)),
        Err(Revert { code: ApiError::TypeMismatch })
    );
}

#[test]
fn local_and_global_partitions_do_not_collide() {
    let mut host = Host::new(false);
    let u = new_uref(&mut host, Value::U64(1)).unwrap();
    let k = u.addr().to_bytes();
    write_local(&mut host, &k, Value::U64(99));
    assert_eq!(read(&host, u, ValueKind::U64), Ok(Some(Value::U64(1))));
    assert_eq!(storage::write(&mut host, u, Value::U64(2)), Ok(()));
    assert_eq!(read_local(&host, &k, ValueKind::U64), Ok(Some(Value::U64(99))));
}

#[test]
fn missing_rights_are_refused() {
    let mut host = Host::new(false);
    let u = new_uref(&mut host, Value::U64(1)).unwrap();
    let read_only = u.downgrade(AccessRights::Read).unwrap();
    assert_eq!(
        storage::write(&mut host, read_only, Value::U64(2)),
        Err(Revert { code: ApiError::PermissionDenied })
    );
    assert_eq!(
        add(&mut host, read_only, Value::U64(2)),
        Err(Revert { code: ApiError::PermissionDenied })
    );
    let write_only = u.downgrade(AccessRights::Write).unwrap();
    assert_eq!(
        read(&host, write_only, ValueKind::U64),
        Err(ReadError::Revert(ApiError::PermissionDenied))
    );
    assert_eq!(read(&host, u, ValueKind::U64), Ok(Some(Value::U64(1))));
}

#[test]
fn references_of_another_host_are_forged() {
    let mut other = Host::new(false);
    new_uref(&mut other, Value::Unit).unwrap();
    let foreign = new_uref(&mut other, Value::Unit).unwrap();
    let mut host = Host::new(false);
    new_uref(&mut host, Value::Unit).unwrap();
    assert_eq!(
        storage::write(&mut host, foreign, Value::U64(1)),
        Err(Revert { code: ApiError::ForgedReference })
    );
    assert_eq!(
        read(&host, foreign, ValueKind::Unit),
        Err(ReadError::Revert(ApiError::ForgedReference))
    );
}

#[test]
fn downgrade_never_adds_rights() {
    let mut host = Host::new(false);
    let u = new_uref(&mut host, Value::Unit).unwrap();
    let r = u.downgrade(AccessRights::ReadAdd).unwrap();
    assert_eq!(r.access_rights(), AccessRights::ReadAdd);
    assert!(r.downgrade(AccessRights::ReadWrite).is_none());
    assert!(r.downgrade(AccessRights::Add).is_some());
    assert_eq!(r, u);
    assert_eq!(Key::from(u), Key::URef(u));
}
