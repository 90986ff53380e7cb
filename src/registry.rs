//! Minting of references, the registry of versioned contracts, user groups,
//! and stored functions.
use vstd::prelude::*;
use crate::capability::{AccessRights, Address, URef};
use vstd::string::StringSliceAdditionalSpecFns;
use crate::error::{ApiError, Revert};
use crate::key::{ContractRef, EntryPoint, Key, SemVer, Slot, TURef, Value};
use crate::model::{minted_refs, HostView};
use crate::storage::{
    bindings_of, bound_entries, function_keyed, last_bound, group_keyed, last_value, lemma_map_of_push, live_at,
    live_versions, Host, StoredFunction, UserGroup, VersionEntry,
    VersionPayload,
};

verus! {

impl Host {
    fn is_minted(&self, a: Address) -> (r: bool)
        ensures
            r == self.view().minted(a),
    {
        let (hi, lo) = a.parts();
        hi == 0 && lo < self.next
    }

    fn find_contract(&self, h: Address) -> (r: Option<Address>)
        ensures
            r == self.view().contracts.get(h),
    {
        let mut i: usize = self.contracts.len();
        proof {
            assert(self.contracts@.subrange(0, i as int) =~= self.contracts@);
        }
        while i > 0
            invariant
                i <= self.contracts@.len(),
                last_value(self.contracts@, h) == last_value(self.contracts@.subrange(0, i as int), h),
            decreases i,
        {
            let e = self.contracts[i - 1];
            proof {
                assert(self.contracts@.subrange(0, i as int).drop_last() =~= self.contracts@.subrange(0, i - 1));
            }
            if e.0 == h {
                return Some(e.1);
            }
            i = i - 1;
        }
        None
    }

    fn record_access(&self, contract: Key, access: URef) -> (r: Result<Address, ApiError>)
        ensures
            r == self.view().record_access(contract, access),
    {
        match contract {
            Key::Hash(h) => match self.find_contract(h) {
                None => Err(ApiError::ContractNotFound),
                Some(a) => if !self.is_minted(access.addr()) {
                    Err(ApiError::ForgedReference)
                } else if access.addr() != a {
                    Err(ApiError::InvalidAccess)
                } else if !access.access_rights().is_writeable() {
                    Err(ApiError::PermissionDenied)
                } else {
                    Ok(h)
                },
            },
            _ => Err(ApiError::ContractNotFound),
        }
    }

    /// Whether version `v` of the record at hash `h` is callable.
    pub fn is_callable(&self, h: Address, v: SemVer) -> (r: bool)
        ensures
            r == self.view().versions.contains((h, v)),
    {
        let mut i: usize = 0;
        while i < self.versions.len()
            invariant
                i <= self.versions@.len(),
                forall|j: int| 0 <= j < i ==> !live_at(self.versions@, j, (h, v)),
            decreases self.versions@.len() - i,
        {
            let e = self.versions[i];
            if e.live && e.contract == h && e.version.same(&v) {
                assert(live_at(self.versions@, i as int, (h, v)));
                return true;
            }
            i = i + 1;
        }
        false
    }
}

/// Returns a new unforgeable reference, with every right, to a fresh slot
/// that holds `init`.
pub fn new_uref(host: &mut Host, init: Value) -> (r: Result<URef, Revert>)
    requires
        old(host).wf(),
    ensures
        (r, final(host).view()) == old(host).view().new_uref(init),
        final(host).wf(),
{
    if host.next == u128::MAX {
        return Err(Revert { code: ApiError::AddressesExhausted });
    }
    let a = Address::mint(host.next);
    proof {
        Address::lemma_nth_parts(host.next);
    }
    host.store_global(Slot::URef(a), init);
    host.next = host.next + 1;
    Ok(URef::new(a, AccessRights::ReadAddWrite))
}


/// Returns a new reference, refined by the kind of `init`, to a fresh slot
/// that holds `init`.
pub fn new_turef(host: &mut Host, init: Value) -> (r: Result<TURef, Revert>)
    requires
        old(host).wf(),
    ensures
        final(host).view() == old(host).view().new_uref(init).1,
        final(host).wf(),
        match old(host).view().new_uref(init).0 {
            Ok(u) => r matches Ok(t) && t.spec_uref() == u && t.spec_value_kind() == init.spec_kind(),
            Err(e) => r == Err::<TURef, Revert>(e),
        },
{
    let u = new_uref(host, init)?;
    match TURef::from_key(Key::from(u), init.kind()) {
        Ok(t) => Ok(t),
        Err(code) => Err(Revert { code }),
    }
}

/// Creates an empty contract metadata record at a fresh hash address, with a
/// fresh full-rights access reference paired with it.
pub fn create_contract_metadata_at_hash(host: &mut Host) -> (r: Result<(Key, URef), Revert>)
    requires
        old(host).wf(),
    ensures
        (r, final(host).view()) == old(host).view().create_metadata(),
        final(host).wf(),
{
    if u128::MAX - host.next < 2 {
        return Err(Revert { code: ApiError::AddressesExhausted });
    }
    let h = Address::mint(host.next);
    let a = Address::mint(host.next + 1);
    host.contracts.push((h, a));
    proof {
        lemma_map_of_push(old(host).contracts@, h, a);
    }
    host.next = host.next + 2;
    proof {
        old(host).view().lemma_create_metadata_wf();
        assert(final(host).view().contracts == old(host).view().create_metadata().1.contracts);
    }
    Ok((Key::Hash(h), URef::new(a, AccessRights::ReadAddWrite)))
}


pub open spec fn retired(e: VersionEntry, h: Address, v: SemVer) -> VersionEntry {
    if e.contract == h && e.version == v {
        VersionEntry { live: false, ..e }
    } else {
        e
    }
}

proof fn lemma_push_live(s: Seq<VersionEntry>, e: VersionEntry)
    requires
        e.live,
    ensures
        live_versions(s.push(e)) == live_versions(s).insert((e.contract, e.version)),
{
    let t = s.push(e);
    assert forall|p: (Address, SemVer)| live_versions(t).contains(p) == live_versions(s).insert(
        (e.contract, e.version),
    ).contains(p) by {
        if live_versions(t).contains(p) {
            let i = choose|i: int| live_at(t, i, p);
            if i < s.len() {
                assert(live_at(s, i, p));
            }
        }
        if live_versions(s).contains(p) {
            let i = choose|i: int| live_at(s, i, p);
            assert(live_at(t, i, p));
        }
        if p == (e.contract, e.version) {
            assert(live_at(t, s.len() as int, p));
        }
    }
    assert(live_versions(t) =~= live_versions(s).insert((e.contract, e.version)));
}

proof fn lemma_retired(s: Seq<VersionEntry>, t: Seq<VersionEntry>, h: Address, v: SemVer)
    requires
        t.len() == s.len(),
        forall|j: int| 0 <= j < s.len() ==> t[j] == retired(s[j], h, v),
    ensures
        live_versions(t) == live_versions(s).remove((h, v)),
{
    assert forall|p: (Address, SemVer)| live_versions(t).contains(p) == live_versions(s).remove(
        (h, v),
    ).contains(p) by {
        if live_versions(t).contains(p) {
            let i = choose|i: int| live_at(t, i, p);
            assert(live_at(s, i, p));
        }
        if live_versions(s).contains(p) && p != (h, v) {
            let i = choose|i: int| live_at(s, i, p);
            assert(live_at(t, i, p));
        }
    }
    assert(live_versions(t) =~= live_versions(s).remove((h, v)));
}

proof fn lemma_bound_push(s: Seq<(VersionEntry, (Seq<(String, EntryPoint)>, Seq<(String, Key)>))>, x: (VersionEntry, (Seq<(String, EntryPoint)>, Seq<(String, Key)>)))
    requires
        x.0.live,
    ensures
        bindings_of(s.push(x)) == bindings_of(s).insert((x.0.contract, x.0.version), x.1),
{
    assert(s.push(x).drop_last() =~= s);
    assert(bindings_of(s.push(x)) =~= bindings_of(s).insert((x.0.contract, x.0.version), x.1));
}

proof fn lemma_bound_retired(s: Seq<(VersionEntry, (Seq<(String, EntryPoint)>, Seq<(String, Key)>))>, t: Seq<(VersionEntry, (Seq<(String, EntryPoint)>, Seq<(String, Key)>))>, h: Address, v: SemVer, p: (Address, SemVer))
    requires
        t.len() == s.len(),
        forall|j: int| 0 <= j < s.len() ==> t[j] == (retired(s[j].0, h, v), s[j].1),
    ensures
        last_bound(t, p) == if p == (h, v) {
            None
        } else {
            last_bound(s, p)
        },
    decreases s.len(),
{
    if s.len() > 0 {
        lemma_bound_retired(s.drop_last(), t.drop_last(), h, v, p);
    }
}

impl Host {
    /// Makes every entry of version `v` of record `h` no longer callable.
    fn retire(&mut self, h: Address, v: SemVer)
        requires
            old(self).versions@.len() == old(self).payloads@.len(),
        ensures
            final(self).view() == (HostView {
                versions: old(self).view().versions.remove((h, v)),
                bindings: old(self).view().bindings.remove((h, v)),
                ..old(self).view()
            }),
            final(self).versions@.len() == final(self).payloads@.len(),
    {
        let mut i: usize = 0;
        while i < self.versions.len()
            invariant
                i <= self.versions@.len(),
                self.versions@.len() == old(self).versions@.len(),
                forall|j: int| 0 <= j < i ==> self.versions@[j] == retired(old(self).versions@[j], h, v),
                forall|j: int| i <= j < self.versions@.len() ==> self.versions@[j] == old(self).versions@[j],
                self.global == old(self).global,
                self.local == old(self).local,
                self.next == old(self).next,
                self.contracts == old(self).contracts,
                self.groups == old(self).groups,
                self.functions == old(self).functions,
                self.payloads == old(self).payloads,
                self.replaces_versions == old(self).replaces_versions,
            decreases self.versions@.len() - i,
        {
            let e = self.versions[i];
            if e.contract == h && e.version.same(&v) {
                self.versions.set(i, VersionEntry { live: false, ..e });
            }
            i = i + 1;
        }
        proof {
            lemma_retired(old(self).versions@, self.versions@, h, v);
            let bs = bound_entries(old(self).versions@, old(self).payloads@);
            let bt = bound_entries(self.versions@, self.payloads@);
            assert forall|p: (Address, SemVer)| last_bound(bt, p) == if p == (h, v) {
                None
            } else {
                last_bound(bs, p)
            } by {
                lemma_bound_retired(bs, bt, h, v, p);
            }
            assert(bindings_of(bt) =~= bindings_of(bs).remove((h, v)));
        }
    }

    fn push_version(&mut self, h: Address, v: SemVer, payload: VersionPayload)
        requires
            old(self).versions@.len() == old(self).payloads@.len(),
        ensures
            final(self).view() == (HostView {
                versions: old(self).view().versions.insert((h, v)),
                bindings: old(self).view().bindings.insert((h, v), (payload.entry_points@, payload.named_keys@)),
                ..old(self).view()
            }),
            final(self).versions@.len() == final(self).payloads@.len(),
    {
        let ghost bound = (payload.entry_points@, payload.named_keys@);
        let e = VersionEntry { contract: h, version: v, live: true };
        self.versions.push(e);
        self.payloads.push(payload);
        proof {
            lemma_push_live(old(self).versions@, e);
            let bs = bound_entries(old(self).versions@, old(self).payloads@);
            assert(bound_entries(self.versions@, self.payloads@) =~= bs.push((e, bound)));
            lemma_bound_push(bs, (e, bound));
        }
    }
}

/// Adds version `version` to the record at `contract`, binding the named
/// entry points `methods` and the named keys `named_keys`. `access_key` must
/// be the record's access reference, with the Write right.
pub fn add_contract_version(
    host: &mut Host,
    contract: Key,
    access_key: URef,
    version: SemVer,
    methods: Vec<(String, EntryPoint)>,
    named_keys: Vec<(String, Key)>,
) -> (r: Result<(), ApiError>)
    requires
        old(host).wf(),
    ensures
        (r, final(host).view()) == old(host).view().add_version(contract, access_key, version, methods@, named_keys@),
        final(host).wf(),
{
    let h = host.record_access(contract, access_key)?;
    if host.is_callable(h, version) {
        if !host.replaces_versions {
            return Err(ApiError::DuplicateVersion);
        }
        host.retire(h, version);
    }
    host.push_version(h, version, VersionPayload { entry_points: methods, named_keys });
    proof {
        assert(final(host).view().versions =~= old(host).view().versions.insert((h, version)));
        assert(final(host).view().bindings =~= old(host).view().bindings.insert((h, version), (methods@, named_keys@)));
    }
    Ok(())
}

/// Removes version `version` from the record that `contract` names: it is no
/// longer callable. Fails where it was not callable.
pub fn remove_contract_version(
    host: &mut Host,
    contract: ContractRef,
    access_key: URef,
    version: SemVer,
) -> (r: Result<(), ApiError>)
    requires
        old(host).wf(),
    ensures
        (r, final(host).view()) == old(host).view().remove_version(contract.spec_key(), access_key, version),
        final(host).wf(),
{
    let h = host.record_access(contract.to_key(), access_key)?;
    if !host.is_callable(h, version) {
        return Err(ApiError::InvalidVersion);
    }
    host.retire(h, version);
    Ok(())
}


impl Host {
    /// Whether the record at hash `h` has a user group labelled `group_label`.
    pub fn has_group(&self, h: Address, group_label: &str) -> (r: bool)
        ensures
            r == self.view().groups.contains_key((h, group_label.spec_bytes())),
    {
        let label = group_label.as_bytes();
        let ghost s = group_keyed(self.groups@);
        let mut i: usize = self.groups.len();
        proof {
            assert(s.subrange(0, i as int) =~= s);
        }
        while i > 0
            invariant
                i <= self.groups@.len(),
                s == group_keyed(self.groups@),
                label@ == group_label.spec_bytes(),
                last_value(s, (h, label@)) == last_value(s.subrange(0, i as int), (h, label@)),
            decreases i,
        {
            proof {
                assert(s.subrange(0, i as int).drop_last() =~= s.subrange(0, i - 1));
            }
            let g = &self.groups[i - 1];
            if g.contract == h && crate::storage::bytes_eq(&g.label, label) {
                return true;
            }
            i = i - 1;
        }
        false
    }
}

/// Creates the user group `group_label` on the record at `contract`: its
/// members are `existing_urefs` and `num_new_urefs` newly minted references,
/// which are returned. `access_key` must be the record's access reference,
/// with the Write right.
pub fn create_contract_user_group(
    host: &mut Host,
    contract: Key,
    access_key: URef,
    group_label: &str,
    num_new_urefs: u8,
    existing_urefs: Vec<URef>,
) -> (r: Result<Vec<URef>, ApiError>)
    requires
        old(host).wf(),
    ensures
        ({
            let (m, t) = old(host).view().create_group(
                contract,
                access_key,
                group_label.spec_bytes(),
                num_new_urefs as nat,
                existing_urefs@,
            );
            &&& final(host).view() == t
            &&& match r {
                Ok(v) => m == Ok::<Seq<URef>, ApiError>(v@),
                Err(e) => m == Err::<Seq<URef>, ApiError>(e),
            }
        }),
        final(host).wf(),
{
    let h = host.record_access(contract, access_key)?;
    let label = group_label.as_bytes();
    if host.has_group(h, group_label) {
        return Err(ApiError::DuplicateGroup);
    }
    let mut members: Vec<URef> = Vec::new();
    let mut i: usize = 0;
    while i < existing_urefs.len()
        invariant
            i <= existing_urefs@.len(),
            members@ == existing_urefs@.subrange(0, i as int),
            host.view() == old(host).view(),
            host.wf(),
            !host.view().groups.contains_key((h, label@)),
            old(host).view().record_access(contract, access_key) == Ok::<Address, ApiError>(h),
            label@ == group_label.spec_bytes(),
            forall|j: int| 0 <= j < i ==> host.view().minted(#[trigger] existing_urefs@[j].address()),
        decreases existing_urefs@.len() - i,
    {
        let u = existing_urefs[i];
        if !host.is_minted(u.addr()) {
            assert(!old(host).view().minted(existing_urefs@[i as int].address()));
            return Err(ApiError::ForgedReference);
        }
        members.push(u);
        proof {
            assert(members@ =~= existing_urefs@.subrange(0, i + 1));
        }
        i = i + 1;
    }
    proof {
        assert(members@ =~= existing_urefs@);
    }
    let n = num_new_urefs as u128;
    if u128::MAX - host.next < n {
        return Err(ApiError::AddressesExhausted);
    }
    let start = host.next;
    let mut fresh: Vec<URef> = Vec::new();
    let mut k: u128 = 0;
    while k < n
        invariant
            k <= n,
            start + n <= u128::MAX,
            fresh@ == minted_refs(start as nat, k as nat),
            members@ == existing_urefs@ + fresh@,
        decreases n - k,
    {
        let u = URef::new(Address::mint(start + k), AccessRights::ReadAddWrite);
        fresh.push(u);
        members.push(u);
        proof {
            assert(fresh@ =~= minted_refs(start as nat, (k + 1) as nat));
            assert(members@ =~= existing_urefs@ + fresh@);
        }
        k = k + 1;
    }
    let ghost entry = ((h, label@), members@);
    host.groups.push(UserGroup { contract: h, label: vstd::slice::slice_to_vec(label), members });
    proof {
        assert(group_keyed(host.groups@) =~= group_keyed(old(host).groups@).push(entry));
        lemma_map_of_push(group_keyed(old(host).groups@), entry.0, entry.1);
    }
    host.next = host.next + n;
    proof {
        let t = old(host).view().create_group(
            contract,
            access_key,
            group_label.spec_bytes(),
            num_new_urefs as nat,
            existing_urefs@,
        ).1;
        assert(final(host).view().groups == t.groups);
        old(host).view().lemma_create_group_wf(contract, access_key, group_label.spec_bytes(), num_new_urefs as nat, existing_urefs@);
    }
    Ok(fresh)
}


fn store_function_in(host: &mut Host, name: &str, named_keys: Vec<(String, Key)>, at_hash: bool) -> (r: Result<ContractRef, Revert>)
    requires
        old(host).wf(),
    ensures
        (r, final(host).view()) == old(host).view().store_function(name@, named_keys@, at_hash),
        final(host).wf(),
{
    if host.next == u128::MAX {
        return Err(Revert { code: ApiError::AddressesExhausted });
    }
    let a = Address::mint(host.next);
    let (r, slot) = if at_hash {
        (ContractRef::Hash(a), Slot::Hash(a))
    } else {
        (ContractRef::URef(URef::new(a, AccessRights::ReadAddWrite)), Slot::URef(a))
    };
    let ghost keys = named_keys@;
    let f = StoredFunction { slot, name: name.to_owned(), named_keys };
    host.functions.push(f);
    proof {
        assert(function_keyed(host.functions@) =~= function_keyed(old(host).functions@).push((slot, (name@, keys))));
        lemma_map_of_push(function_keyed(old(host).functions@), slot, (name@, keys));
    }
    host.next = host.next + 1;
    proof {
        old(host).view().lemma_store_function_wf(name@, keys, at_hash);
        assert(final(host).view().functions == old(host).view().store_function(name@, keys, at_hash).1.functions);
    }
    Ok(r)
}

/// Stores the function `name`, with its named keys, under a new full-rights
/// reference that the host mints.
pub fn store_function(host: &mut Host, name: &str, named_keys: Vec<(String, Key)>) -> (r: Result<ContractRef, Revert>)
    requires
        old(host).wf(),
    ensures
        (r, final(host).view()) == old(host).view().store_function(name@, named_keys@, false),
        final(host).wf(),
{
    store_function_in(host, name, named_keys, false)
}

/// Stores the function `name`, with its named keys, at a new immutable hash
/// address that the host mints.
pub fn store_function_at_hash(host: &mut Host, name: &str, named_keys: Vec<(String, Key)>) -> (r: Result<ContractRef, Revert>)
    requires
        old(host).wf(),
    ensures
        (r, final(host).view()) == old(host).view().store_function(name@, named_keys@, true),
        final(host).wf(),
{
    store_function_in(host, name, named_keys, true)
}

} // verus!
