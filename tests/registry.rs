use contract_storage::capability::AccessRights;
use contract_storage::error::{ApiError, Revert};
use contract_storage::key::{ContractRef, EntryPoint, Key, SemVer, TURef, Value, ValueKind};
use contract_storage::registry::{
    add_contract_version, create_contract_metadata_at_hash, create_contract_user_group,
    new_turef, new_uref, remove_contract_version, store_function, store_function_at_hash,
};
use contract_storage::storage::{read, Host};

fn hash_of(k: Key) -> contract_storage::capability::Address {
    match k {
        Key::Hash(a) => a,
        _ => panic!("expected a hash key"),
    }
}

fn methods() -> Vec<(String, EntryPoint)> {
    vec![(
        "call".to_string(),
        EntryPoint { args: vec![("amount".to_string(), ValueKind::U64)], ret: ValueKind::Unit, groups: vec![] },
    )]
}

#[test]
fn metadata_addresses_are_fresh() {
    let mut host = Host::new(false);
    let (k1, a1) = create_contract_metadata_at_hash(&mut host).unwrap();
    let (k2, a2) = create_contract_metadata_at_hash(&mut host).unwrap();
    assert_ne!(k1, k2);
    assert_ne!(hash_of(k1), a1.addr());
    assert_ne!(a1, a2);
    assert_eq!(a1.access_rights(), AccessRights::ReadAddWrite);
    assert_eq!(a2.access_rights(), AccessRights::ReadAddWrite);
}

#[test]
fn add_then_remove_version() {
    let mut host = Host::new(false);
    let (k, access) = create_contract_metadata_at_hash(&mut host).unwrap();
    let v = SemVer::new(1, 0, 0);
    let h = hash_of(k);
    assert!(!host.is_callable(h, v));
    assert_eq!(add_contract_version(&mut host, k, access, v, methods(), vec![]), Ok(()));
    assert!(host.is_callable(h, v));
    assert!(!host.is_callable(h, SemVer::new(1, 0, 1)));
    let cref = ContractRef::Hash(h);
    assert_eq!(remove_contract_version(&mut host, cref, access, v), Ok(()));
    assert!(!host.is_callable(h, v));
    assert_eq!(
        remove_contract_version(&mut host, cref, access, v),
        Err(ApiError::InvalidVersion)
    );
    assert_eq!(add_contract_version(&mut host, k, access, v, methods(), vec![]), Ok(()));
}

#[test]
fn duplicate_version_refused_or_replaced() {
    let mut strict = Host::new(false);
    let (k, access) = create_contract_metadata_at_hash(&mut strict).unwrap();
    let v = SemVer::new(1, 2, 3);
    assert_eq!(add_contract_version(&mut strict, k, access, v, methods(), vec![]), Ok(()));
    assert_eq!(
        add_contract_version(&mut strict, k, access, v, methods(), vec![]),
        Err(ApiError::DuplicateVersion)
    );
    let mut lenient = Host::new(true);
    let (k, access) = create_contract_metadata_at_hash(&mut lenient).unwrap();
    assert_eq!(add_contract_version(&mut lenient, k, access, v, methods(), vec![]), Ok(()));
    assert_eq!(add_contract_version(&mut lenient, k, access, v, vec![], vec![]), Ok(()));
    assert!(lenient.is_callable(hash_of(k), v));
    let cref = ContractRef::Hash(hash_of(k));
    assert_eq!(remove_contract_version(&mut lenient, cref, access, v), Ok(()));
    assert_eq!(
        remove_contract_version(&mut lenient, cref, access, v),
        Err(ApiError::InvalidVersion)
    );
}

#[test]
fn version_changes_need_the_paired_access_reference() {
    let mut host = Host::new(false);
    let (k1, access1) = create_contract_metadata_at_hash(&mut host).unwrap();
    let (_, access2) = create_contract_metadata_at_hash(&mut host).unwrap();
    let v = SemVer::new(0, 1, 0);
    assert_eq!(
        add_contract_version(&mut host, k1, access2, v, methods(), vec![]),
        Err(ApiError::InvalidAccess)
    );
    let read_only = access1.downgrade(AccessRights::Read).unwrap();
    assert_eq!(
        add_contract_version(&mut host, k1, read_only, v, methods(), vec![]),
        Err(ApiError::PermissionDenied)
    );
    assert_eq!(
        add_contract_version(&mut host, Key::URef(access1), access1, v, methods(), vec![]),
        Err(ApiError::ContractNotFound)
    );
    let u = new_uref(&mut host, Value::Unit).unwrap();
    assert_eq!(
        remove_contract_version(&mut host, ContractRef::URef(u), access1, v),
        Err(ApiError::ContractNotFound)
    );
}

#[test]
fn user_group_returns_fresh_references() {
    let mut host = Host::new(false);
    let (k, access) = create_contract_metadata_at_hash(&mut host).unwrap();
    let existing = new_uref(&mut host, Value::Unit).unwrap();
    assert!(!host.has_group(hash_of(k), "admins"));
    let fresh = create_contract_user_group(&mut host, k, access, "admins", 3, vec![existing]).unwrap();
    assert!(host.has_group(hash_of(k), "admins"));
    assert!(!host.has_group(hash_of(k), "admin"));
    assert_eq!(fresh.len(), 3);
    for i in 0..fresh.len() {
        assert_ne!(fresh[i], existing);
        assert_ne!(fresh[i], access);
        assert_eq!(fresh[i].access_rights(), AccessRights::ReadAddWrite);
        for j in 0..i {
            assert_ne!(fresh[i], fresh[j]);
        }
    }
    let later = new_uref(&mut host, Value::Unit).unwrap();
    assert!(!fresh.contains(&later));
    let none = create_contract_user_group(&mut host, k, access, "nobody", 0, vec![]).unwrap();
    assert!(none.is_empty());
}

#[test]
fn user_group_errors() {
    let mut host = Host::new(false);
    let (k, access) = create_contract_metadata_at_hash(&mut host).unwrap();
    assert!(create_contract_user_group(&mut host, k, access, "g", 1, vec![]).is_ok());
    assert_eq!(
        create_contract_user_group(&mut host, k, access, "g", 1, vec![]),
        Err(ApiError::DuplicateGroup)
    );
    let read_only = access.downgrade(AccessRights::Read).unwrap();
    assert_eq!(
        create_contract_user_group(&mut host, k, read_only, "h", 1, vec![]),
        Err(ApiError::PermissionDenied)
    );
    let mut other = Host::new(false);
    for _ in 0..5 {
        new_uref(&mut other, Value::Unit).unwrap();
    }
    let foreign = new_uref(&mut other, Value::Unit).unwrap();
    assert_eq!(
        create_contract_user_group(&mut host, k, access, "h", 1, vec![foreign]),
        Err(ApiError::ForgedReference)
    );
}

#[test]
fn typed_reference_only_from_reference_keys() {
    let mut host = Host::new(false);
    let (k, access) = create_contract_metadata_at_hash(&mut host).unwrap();
    assert_eq!(TURef::from_key(k, ValueKind::U64), Err(ApiError::UnexpectedKeyVariant));
    let t = TURef::from_key(Key::URef(access), ValueKind::U64).unwrap();
    assert_eq!(t.uref(), access);
    assert_eq!(t.value_kind(), ValueKind::U64);
    let t2 = new_turef(&mut host, Value::U64(8)).unwrap();
    assert_eq!(t2.value_kind(), ValueKind::U64);
    assert_eq!(read(&host, t2.uref(), ValueKind::U64), Ok(Some(Value::U64(8))));
}

#[test]
fn stored_functions_get_fresh_addresses() {
    let mut host = Host::new(false);
    let named = vec![("counter".to_string(), Key::URef(new_uref(&mut host, Value::U64(0)).unwrap()))];
    let r1 = store_function(&mut host, "call", named).unwrap();
    let r2 = store_function_at_hash(&mut host, "call", vec![]).unwrap();
    match r1 {
        ContractRef::URef(u) => assert_eq!(u.access_rights(), AccessRights::ReadAddWrite),
        _ => panic!("expected a reference"),
    }
    match r2 {
        ContractRef::Hash(_) => {}
        _ => panic!("expected a hash"),
    }
    assert_ne!(r1.to_key().slot(), r2.to_key().slot());
    let _ = Revert { code: ApiError::AddressesExhausted };
}
