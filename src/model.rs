//! The abstract state of the host as the library sees it, and what each
//! operation does to it.
use vstd::prelude::*;
use crate::capability::{AccessRights, Address, URef};
use crate::error::{ApiError, ReadError, Revert};
use crate::key::{spec_merge, ContractRef, EntryPoint, Key, SemVer, Slot, Value, ValueKind};

verus! {

/// The host's state: the global partition, the calling context's local
/// partition, the contract metadata records with their callable versions and
/// user groups, the stored functions, and the count of addresses minted.
pub struct HostView {
    pub global: Map<Slot, Value>,
    pub local: Map<Seq<u8>, Value>,
    pub next: nat,
    /// Each record's hash address, mapped to the address of its access reference.
    pub contracts: Map<Address, Address>,
    /// The callable versions, as pairs of a record's hash and a version.
    pub versions: Set<(Address, SemVer)>,
    /// The members of each user group, by record hash and label bytes.
    pub groups: Map<(Address, Seq<u8>), Seq<URef>>,
    /// What each callable version binds: its named entry points and its named keys.
    pub bindings: Map<(Address, SemVer), (Seq<(String, EntryPoint)>, Seq<(String, Key)>)>,
    /// The name and the named keys of the function stored in each slot.
    pub functions: Map<Slot, (Seq<char>, Seq<(String, Key)>)>,
    /// Whether adding a version that is already callable replaces it (or is refused).
    pub replaces_versions: bool,
}

pub open spec fn slot_address(s: Slot) -> Address {
    match s {
        Slot::URef(a) => a,
        Slot::Hash(a) => a,
        Slot::Account(a) => a,
    }
}

pub open spec fn revert<T>(code: ApiError) -> Result<T, Revert> {
    Err(Revert { code })
}

impl HostView {
    /// The address was minted by this host.
    pub open spec fn minted(self, a: Address) -> bool {
        a.high() == 0 && a.low() < self.next
    }

    /// The address that the host mints next.
    pub open spec fn fresh(self) -> Address {
        Address::nth(self.next as u128)
    }

    pub open spec fn can_mint(self, n: nat) -> bool {
        self.next + n < 0x1_0000_0000_0000_0000_0000_0000_0000_0000
    }

    pub open spec fn wf(self) -> bool {
        &&& forall|s: Slot| #[trigger] self.global.contains_key(s) ==> self.minted(slot_address(s))
        &&& forall|h: Address| #[trigger] self.contracts.contains_key(h) ==> self.minted(h)
            && self.minted(self.contracts[h])
        &&& forall|p: (Address, SemVer)| #[trigger] self.versions.contains(p)
            ==> self.contracts.contains_key(p.0)
        &&& forall|g: (Address, Seq<u8>)| #[trigger] self.groups.contains_key(g)
            ==> self.contracts.contains_key(g.0)
        &&& forall|g: (Address, Seq<u8>), i: int| #[trigger] self.groups.contains_key(g) && 0 <= i
            < self.groups[g].len() ==> self.minted(#[trigger] self.groups[g][i].address())
        &&& forall|s: Slot| #[trigger] self.functions.contains_key(s) ==> self.minted(slot_address(s))
    }

    /// The check that every reference-bearing operation makes first.
    pub open spec fn check(self, u: URef, right: bool) -> Option<ApiError> {
        if !self.minted(u.address()) {
            Some(ApiError::ForgedReference)
        } else if !right {
            Some(ApiError::PermissionDenied)
        } else {
            None
        }
    }

    pub open spec fn read(self, u: URef, kind: ValueKind) -> Result<Option<Value>, ReadError> {
        match self.check(u, u.rights().has_read()) {
            Some(e) => Err(ReadError::Revert(e)),
            None => read_found(self.global.get(Slot::URef(u.address())), kind),
        }
    }

    pub open spec fn write(self, u: URef, v: Value) -> (Result<(), Revert>, HostView) {
        match self.check(u, u.rights().has_write()) {
            Some(e) => (revert(e), self),
            None => (Ok(()), HostView { global: self.global.insert(Slot::URef(u.address()), v), ..self }),
        }
    }

    pub open spec fn add(self, u: URef, v: Value) -> (Result<(), Revert>, HostView) {
        let s = Slot::URef(u.address());
        match self.check(u, u.rights().has_add()) {
            Some(e) => (revert(e), self),
            None => if !self.global.contains_key(s) {
                (revert(ApiError::ValueNotFound), self)
            } else {
                match spec_merge(self.global[s], v) {
                    None => (revert(ApiError::TypeMismatch), self),
                    Some(m) => (Ok(()), HostView { global: self.global.insert(s, m), ..self }),
                }
            },
        }
    }

    pub open spec fn read_local(self, k: Seq<u8>, kind: ValueKind) -> Result<Option<Value>, ReadError> {
        read_found(self.local.get(k), kind)
    }

    pub open spec fn write_local(self, k: Seq<u8>, v: Value) -> HostView {
        HostView { local: self.local.insert(k, v), ..self }
    }

    pub open spec fn add_local(self, k: Seq<u8>, v: Value) -> (Result<(), Revert>, HostView) {
        if !self.local.contains_key(k) {
            (revert(ApiError::ValueNotFound), self)
        } else {
            match spec_merge(self.local[k], v) {
                None => (revert(ApiError::TypeMismatch), self),
                Some(m) => (Ok(()), HostView { local: self.local.insert(k, m), ..self }),
            }
        }
    }

    /// Mints a fresh address and stores `init` under a full-rights reference to it.
    pub open spec fn new_uref(self, init: Value) -> (Result<URef, Revert>, HostView) {
        if !self.can_mint(1) {
            (revert(ApiError::AddressesExhausted), self)
        } else {
            (
                Ok(URef::minted(self.fresh(), AccessRights::ReadAddWrite)),
                HostView {
                    global: self.global.insert(Slot::URef(self.fresh()), init),
                    next: self.next + 1,
                    ..self
                },
            )
        }
    }
}

/// The `n` full-rights references that the host mints from its `start`-th address on.
pub open spec fn minted_refs(start: nat, n: nat) -> Seq<URef> {
    Seq::new(n, |i: int| URef::minted(Address::nth((start + i) as u128), AccessRights::ReadAddWrite))
}

impl HostView {
    /// The hash of the record that `contract` names, where `access` may change it.
    pub open spec fn record_access(self, contract: Key, access: URef) -> Result<Address, ApiError> {
        match contract {
            Key::Hash(h) => if !self.contracts.contains_key(h) {
                Err(ApiError::ContractNotFound)
            } else if !self.minted(access.address()) {
                Err(ApiError::ForgedReference)
            } else if access.address() != self.contracts[h] {
                Err(ApiError::InvalidAccess)
            } else if !access.rights().has_write() {
                Err(ApiError::PermissionDenied)
            } else {
                Ok(h)
            },
            _ => Err(ApiError::ContractNotFound),
        }
    }

    /// Creates an empty record: a fresh hash address and a fresh access reference.
    pub open spec fn create_metadata(self) -> (Result<(Key, URef), Revert>, HostView) {
        if !self.can_mint(2) {
            (revert(ApiError::AddressesExhausted), self)
        } else {
            let h = Address::nth(self.next as u128);
            let a = Address::nth((self.next + 1) as u128);
            (
                Ok((Key::Hash(h), URef::minted(a, AccessRights::ReadAddWrite))),
                HostView { contracts: self.contracts.insert(h, a), next: self.next + 2, ..self },
            )
        }
    }

    pub open spec fn add_version(self, contract: Key, access: URef, v: SemVer, methods: Seq<(String, EntryPoint)>, keys: Seq<(String, Key)>) -> (Result<(), ApiError>, HostView) {
        match self.record_access(contract, access) {
            Err(e) => (Err(e), self),
            Ok(h) => if self.versions.contains((h, v)) && !self.replaces_versions {
                (Err(ApiError::DuplicateVersion), self)
            } else {
                (Ok(()), HostView { versions: self.versions.insert((h, v)), bindings: self.bindings.insert((h, v), (methods, keys)), ..self })
            },
        }
    }

    pub open spec fn remove_version(self, contract: Key, access: URef, v: SemVer) -> (Result<(), ApiError>, HostView) {
        match self.record_access(contract, access) {
            Err(e) => (Err(e), self),
            Ok(h) => if !self.versions.contains((h, v)) {
                (Err(ApiError::InvalidVersion), self)
            } else {
                (Ok(()), HostView { versions: self.versions.remove((h, v)), bindings: self.bindings.remove((h, v)), ..self })
            },
        }
    }

    /// Registers `existing` and `n` newly minted references under `label`,
    /// and returns the new ones.
    pub open spec fn create_group(self, contract: Key, access: URef, label: Seq<u8>, n: nat, existing: Seq<URef>) -> (Result<Seq<URef>, ApiError>, HostView) {
        match self.record_access(contract, access) {
            Err(e) => (Err(e), self),
            Ok(h) => if self.groups.contains_key((h, label)) {
                (Err(ApiError::DuplicateGroup), self)
            } else if exists|i: int| 0 <= i < existing.len() && !self.minted(#[trigger] existing[i].address()) {
                (Err(ApiError::ForgedReference), self)
            } else if !self.can_mint(n) {
                (Err(ApiError::AddressesExhausted), self)
            } else {
                let fresh = minted_refs(self.next, n);
                (
                    Ok(fresh),
                    HostView { groups: self.groups.insert((h, label), existing + fresh), next: self.next + n, ..self },
                )
            },
        }
    }

    /// Stores the function `name` at a fresh address: under a full-rights
    /// reference, or at a hash.
    pub open spec fn store_function(self, name: Seq<char>, keys: Seq<(String, Key)>, at_hash: bool) -> (Result<ContractRef, Revert>, HostView) {
        if !self.can_mint(1) {
            (revert(ApiError::AddressesExhausted), self)
        } else {
            let a = self.fresh();
            let (r, s) = if at_hash {
                (ContractRef::Hash(a), Slot::Hash(a))
            } else {
                (ContractRef::URef(URef::minted(a, AccessRights::ReadAddWrite)), Slot::URef(a))
            };
            (Ok(r), HostView { functions: self.functions.insert(s, (name, keys)), next: self.next + 1, ..self })
        }
    }
}

impl HostView {
    pub proof fn lemma_create_metadata_wf(self)
        requires
            self.wf(),
        ensures
            self.create_metadata().1.wf(),
    {
        let t = self.create_metadata().1;
        if self.can_mint(2) {
            assert forall|h: Address| #[trigger] t.contracts.contains_key(h) implies t.minted(h)
                && t.minted(t.contracts[h]) by {
                if h != self.fresh() {
                    assert(self.contracts.contains_key(h));
                }
            }
            assert forall|g: (Address, Seq<u8>), i: int| #[trigger] t.groups.contains_key(g) && 0
                <= i < t.groups[g].len() implies t.minted(#[trigger] t.groups[g][i].address()) by {
                assert(self.minted(self.groups[g][i].address()));
            }
        }
    }
}

impl HostView {
    pub proof fn lemma_create_group_wf(self, contract: Key, access: URef, label: Seq<u8>, n: nat, existing: Seq<URef>)
        requires
            self.wf(),
        ensures
            self.create_group(contract, access, label, n, existing).1.wf(),
    {
        let t = self.create_group(contract, access, label, n, existing).1;
        if let Ok(h) = self.record_access(contract, access) {
            if !self.groups.contains_key((h, label)) && !(exists|i: int| 0 <= i < existing.len()
                && !self.minted(#[trigger] existing[i].address())) && self.can_mint(n) {
                assert forall|g: (Address, Seq<u8>), i: int| #[trigger] t.groups.contains_key(g) && 0
                    <= i < t.groups[g].len() implies t.minted(#[trigger] t.groups[g][i].address()) by {
                    if g != (h, label) {
                        assert(self.minted(self.groups[g][i].address()));
                    } else if i < existing.len() {
                        assert(self.minted(existing[i].address()));
                    }
                }
            }
        }
    }
}

impl HostView {
    pub proof fn lemma_store_function_wf(self, name: Seq<char>, keys: Seq<(String, Key)>, at_hash: bool)
        requires
            self.wf(),
        ensures
            self.store_function(name, keys, at_hash).1.wf(),
    {
        let t = self.store_function(name, keys, at_hash).1;
        if self.can_mint(1) {
            assert forall|g: (Address, Seq<u8>), i: int| #[trigger] t.groups.contains_key(g) && 0
                <= i < t.groups[g].len() implies t.minted(#[trigger] t.groups[g][i].address()) by {
                assert(self.minted(self.groups[g][i].address()));
            }
        }
    }
}

/// What a read returns for what is found under the key.
pub open spec fn read_found(found: Option<Value>, kind: ValueKind) -> Result<Option<Value>, ReadError> {
    match found {
        None => Ok(None),
        Some(v) => if v.spec_kind() == kind {
            Ok(Some(v))
        } else {
            Err(ReadError::Deserialize)
        },
    }
}

} // verus!
