//! The accessor of the global and the local partition, over an in-memory host.
use vstd::prelude::*;
use crate::capability::{Address, URef};
use crate::error::{ApiError, ReadError, Revert};
use crate::key::{merge, EntryPoint, Key, SemVer, Slot, Value, ValueKind};
use crate::model::HostView;

verus! {

/// The value of the last entry under `k`, if any.
pub open spec fn last_value<K, V>(s: Seq<(K, V)>, k: K) -> Option<V>
    decreases s.len(),
{
    if s.len() == 0 {
        None
    } else if s.last().0 == k {
        Some(s.last().1)
    } else {
        last_value(s.drop_last(), k)
    }
}

/// The local entries, keyed by the bytes' sequence.
pub open spec fn bytes_keyed(s: Seq<(Vec<u8>, Value)>) -> Seq<(Seq<u8>, Value)> {
    s.map_values(|e: (Vec<u8>, Value)| (e.0@, e.1))
}

/// The map that a log of entries stands for: the last entry under a key wins.
pub open spec fn map_of<K, V>(s: Seq<(K, V)>) -> Map<K, V> {
    Map::new(|k: K| last_value(s, k).is_some(), |k: K| last_value(s, k).unwrap())
}

pub proof fn lemma_map_of_push<K, V>(s: Seq<(K, V)>, k: K, v: V)
    ensures
        map_of(s.push((k, v))) == map_of(s).insert(k, v),
{
    assert(s.push((k, v)).drop_last() =~= s);
    assert(map_of(s.push((k, v))) =~= map_of(s).insert(k, v));
}

/// A version of a record: live while it is callable.
#[derive(Clone, Copy, Debug, PartialEq, Eq, Structural)]
pub struct VersionEntry {
    pub contract: Address,
    pub version: SemVer,
    pub live: bool,
}

/// What a version binds: its entry points and its named keys.
pub struct VersionPayload {
    pub entry_points: Vec<(String, EntryPoint)>,
    pub named_keys: Vec<(String, Key)>,
}

/// A labelled set of references on a record.
pub struct UserGroup {
    pub contract: Address,
    pub label: Vec<u8>,
    pub members: Vec<URef>,
}

/// A function stored without versions, with its named keys.
pub struct StoredFunction {
    pub slot: Slot,
    pub name: String,
    pub named_keys: Vec<(String, Key)>,
}

pub open spec fn live_at(s: Seq<VersionEntry>, i: int, p: (Address, SemVer)) -> bool {
    &&& 0 <= i < s.len()
    &&& s[i].live
    &&& s[i].contract == p.0
    &&& s[i].version == p.1
}

pub open spec fn live_versions(s: Seq<VersionEntry>) -> Set<(Address, SemVer)> {
    Set::new(|p: (Address, SemVer)| exists|i: int| #[trigger] live_at(s, i, p))
}

pub open spec fn group_keyed(s: Seq<UserGroup>) -> Seq<((Address, Seq<u8>), Seq<URef>)> {
    s.map_values(|g: UserGroup| ((g.contract, g.label@), g.members@))
}

pub open spec fn function_keyed(s: Seq<StoredFunction>) -> Seq<(Slot, (Seq<char>, Seq<(String, Key)>))> {
    s.map_values(|f: StoredFunction| (f.slot, (f.name@, f.named_keys@)))
}

/// Each version entry beside what it binds.
pub open spec fn bound_entries(vs: Seq<VersionEntry>, ps: Seq<VersionPayload>) -> Seq<(VersionEntry, (Seq<(String, EntryPoint)>, Seq<(String, Key)>))> {
    Seq::new(vs.len(), |i: int| (vs[i], (ps[i].entry_points@, ps[i].named_keys@)))
}

/// What the last live entry of version `p` binds.
pub open spec fn last_bound(s: Seq<(VersionEntry, (Seq<(String, EntryPoint)>, Seq<(String, Key)>))>, p: (Address, SemVer)) -> Option<(Seq<(String, EntryPoint)>, Seq<(String, Key)>)>
    decreases s.len(),
{
    if s.len() == 0 {
        None
    } else if s.last().0.live && s.last().0.contract == p.0 && s.last().0.version == p.1 {
        Some(s.last().1)
    } else {
        last_bound(s.drop_last(), p)
    }
}

pub open spec fn bindings_of(s: Seq<(VersionEntry, (Seq<(String, EntryPoint)>, Seq<(String, Key)>))>) -> Map<(Address, SemVer), (Seq<(String, EntryPoint)>, Seq<(String, Key)>)> {
    Map::new(|p: (Address, SemVer)| last_bound(s, p).is_some(), |p: (Address, SemVer)| last_bound(s, p).unwrap())
}

/// An in-memory host: it keeps every partition and record, mints addresses
/// in order, and arbitrates every access.
pub struct Host {
    pub(crate) global: Vec<(Slot, Value)>,
    pub(crate) local: Vec<(Vec<u8>, Value)>,
    pub(crate) next: u128,
    pub(crate) contracts: Vec<(Address, Address)>,
    pub(crate) versions: Vec<VersionEntry>,
    pub(crate) payloads: Vec<VersionPayload>,
    pub(crate) groups: Vec<UserGroup>,
    pub(crate) functions: Vec<StoredFunction>,
    pub(crate) replaces_versions: bool,
}

impl Host {
    pub open(crate) spec fn view(&self) -> HostView {
        HostView {
            global: map_of(self.global@),
            local: map_of(bytes_keyed(self.local@)),
            next: self.next as nat,
            contracts: map_of(self.contracts@),
            versions: live_versions(self.versions@),
            bindings: bindings_of(bound_entries(self.versions@, self.payloads@)),
            groups: map_of(group_keyed(self.groups@)),
            functions: map_of(function_keyed(self.functions@)),
            replaces_versions: self.replaces_versions,
        }
    }

    pub open(crate) spec fn wf(&self) -> bool {
        &&& self.view().wf()
        &&& self.versions@.len() == self.payloads@.len()
    }

    /// An empty host. `replaces_versions` is its policy for a version that is
    /// added while already callable: replace it, or refuse.
    pub fn new(replaces_versions: bool) -> (r: Host)
        ensures
            r.wf(),
            r.view().global == Map::<Slot, Value>::empty(),
            r.view().local == Map::<Seq<u8>, Value>::empty(),
            r.view().next == 0,
            r.view().contracts == Map::<Address, Address>::empty(),
            r.view().versions == Set::<(Address, SemVer)>::empty(),
            r.view().bindings == Map::<(Address, SemVer), (Seq<(String, EntryPoint)>, Seq<(String, Key)>)>::empty(),
            r.view().groups == Map::<(Address, Seq<u8>), Seq<URef>>::empty(),
            r.view().functions == Map::<Slot, (Seq<char>, Seq<(String, Key)>)>::empty(),
            r.view().replaces_versions == replaces_versions,
    {
        let r = Host {
            global: Vec::new(),
            local: Vec::new(),
            next: 0,
            contracts: Vec::new(),
            versions: Vec::new(),
            payloads: Vec::new(),
            groups: Vec::new(),
            functions: Vec::new(),
            replaces_versions,
        };
        proof {
            assert(r.view().global =~= Map::<Slot, Value>::empty());
            assert(r.view().local =~= Map::<Seq<u8>, Value>::empty());
            assert(r.view().contracts =~= Map::<Address, Address>::empty());
            assert(r.view().versions =~= Set::<(Address, SemVer)>::empty());
            assert(r.view().bindings =~= Map::<(Address, SemVer), (Seq<(String, EntryPoint)>, Seq<(String, Key)>)>::empty());
            assert(r.view().groups =~= Map::<(Address, Seq<u8>), Seq<URef>>::empty());
            assert(r.view().functions =~= Map::<Slot, (Seq<char>, Seq<(String, Key)>)>::empty());
        }
        r
    }

    fn find_global(&self, s: Slot) -> (r: Option<Value>)
        ensures
            r == self.view().global.get(s),
    {
        let mut i: usize = self.global.len();
        proof {
            assert(self.global@.subrange(0, i as int) =~= self.global@);
        }
        while i > 0
            invariant
                i <= self.global@.len(),
                last_value(self.global@, s) == last_value(self.global@.subrange(0, i as int), s),
            decreases i,
        {
            let e = self.global[i - 1];
            proof {
                assert(self.global@.subrange(0, i as int).drop_last() =~= self.global@.subrange(0, i - 1));
            }
            if e.0 == s {
                return Some(e.1);
            }
            i = i - 1;
        }
        None
    }
}


pub(crate) fn bytes_eq(a: &Vec<u8>, b: &[u8]) -> (r: bool)
    ensures
        r == (a@ == b@),
{
    if a.len() != b.len() {
        return false;
    }
    let mut i: usize = 0;
    while i < a.len()
        invariant
            a@.len() == b@.len(),
            i <= a@.len(),
            forall|j: int| 0 <= j < i ==> a@[j] == b@[j],
        decreases a@.len() - i,
    {
        if a[i] != b[i] {
            return false;
        }
        i = i + 1;
    }
    assert(a@ =~= b@);
    true
}

impl Host {
    fn find_local(&self, k: &[u8]) -> (r: Option<Value>)
        ensures
            r == self.view().local.get(k@),
    {
        let ghost s = bytes_keyed(self.local@);
        let mut i: usize = self.local.len();
        proof {
            assert(s.subrange(0, i as int) =~= s);
        }
        while i > 0
            invariant
                i <= self.local@.len(),
                s == bytes_keyed(self.local@),
                last_value(s, k@) == last_value(s.subrange(0, i as int), k@),
            decreases i,
        {
            proof {
                assert(s.subrange(0, i as int).drop_last() =~= s.subrange(0, i - 1));
            }
            if bytes_eq(&self.local[i - 1].0, k) {
                return Some(self.local[i - 1].1);
            }
            i = i - 1;
        }
        None
    }

    fn check(&self, u: URef, right: bool) -> (r: Option<ApiError>)
        ensures
            r == self.view().check(u, right),
    {
        let (hi, lo) = u.addr().parts();
        if !(hi == 0 && lo < self.next) {
            Some(ApiError::ForgedReference)
        } else if !right {
            Some(ApiError::PermissionDenied)
        } else {
            None
        }
    }

    pub(crate) fn store_global(&mut self, s: Slot, v: Value)
        ensures
            final(self).view() == (HostView { global: old(self).view().global.insert(s, v), ..old(self).view() }),
            final(self).versions == old(self).versions,
            final(self).payloads == old(self).payloads,
    {
        self.global.push((s, v));
        proof {
            lemma_map_of_push(old(self).global@, s, v);
            assert(final(self).view().global =~= old(self).view().global.insert(s, v));
        }
    }
}

/// Reads the value under `uref` in the global partition, expecting a value of `kind`.
pub fn read(host: &Host, uref: URef, kind: ValueKind) -> (r: Result<Option<Value>, ReadError>)
    ensures
        r == host.view().read(uref, kind),
{
    match host.check(uref, uref.access_rights().is_readable()) {
        Some(e) => Err(ReadError::Revert(e)),
        None => {
            let found = host.find_global(Slot::URef(uref.addr()));
            match found {
                None => Ok(None),
                Some(v) => if v.kind() == kind {
                    Ok(Some(v))
                } else {
                    Err(ReadError::Deserialize)
                },
            }
        },
    }
}

/// Reads the value under `uref`; a missing value and a value of another kind are fatal.
pub fn read_or_revert(host: &Host, uref: URef, kind: ValueKind) -> (r: Result<Value, Revert>)
    ensures
        r == match host.view().read(uref, kind) {
            Ok(Some(v)) => Ok(v),
            Ok(None) => Err(Revert { code: ApiError::ValueNotFound }),
            Err(ReadError::Deserialize) => Err(Revert { code: ApiError::Read }),
            Err(ReadError::Revert(e)) => Err(Revert { code: e }),
        },
{
    match read(host, uref, kind) {
        Ok(Some(v)) => Ok(v),
        Ok(None) => Err(Revert { code: ApiError::ValueNotFound }),
        Err(ReadError::Deserialize) => Err(Revert { code: ApiError::Read }),
        Err(ReadError::Revert(e)) => Err(Revert { code: e }),
    }
}

/// Reads the value under the serialized key `key` in the local partition.
pub fn read_local(host: &Host, key: &[u8], kind: ValueKind) -> (r: Result<Option<Value>, ReadError>)
    ensures
        r == host.view().read_local(key@, kind),
{
    let found = host.find_local(key);
    match found {
        None => Ok(None),
        Some(v) => if v.kind() == kind {
            Ok(Some(v))
        } else {
            Err(ReadError::Deserialize)
        },
    }
}

/// Writes `value` under `uref` in the global partition; the last write wins.
pub fn write(host: &mut Host, uref: URef, value: Value) -> (r: Result<(), Revert>)
    requires
        old(host).wf(),
    ensures
        (r, final(host).view()) == old(host).view().write(uref, value),
        final(host).wf(),
{
    match host.check(uref, uref.access_rights().is_writeable()) {
        Some(e) => Err(Revert { code: e }),
        None => {
            host.store_global(Slot::URef(uref.addr()), value);
            Ok(())
        },
    }
}

/// Writes `value` under the serialized key `key` in the local partition.
pub fn write_local(host: &mut Host, key: &[u8], value: Value)
    requires
        old(host).wf(),
    ensures
        final(host).view() == old(host).view().write_local(key@, value),
        final(host).wf(),
{
    let k = vstd::slice::slice_to_vec(key);
    host.local.push((k, value));
    proof {
        let s = bytes_keyed(old(host).local@);
        assert(bytes_keyed(final(host).local@) =~= s.push((key@, value)));
        lemma_map_of_push(s, key@, value);
        assert(final(host).view().local =~= old(host).view().local.insert(key@, value));
        assert(final(host).view() == old(host).view().write_local(key@, value));
    }
}

/// Adds `value` to the one under `uref` in the global partition, by the host's merge rule.
pub fn add(host: &mut Host, uref: URef, value: Value) -> (r: Result<(), Revert>)
    requires
        old(host).wf(),
    ensures
        (r, final(host).view()) == old(host).view().add(uref, value),
        final(host).wf(),
{
    match host.check(uref, uref.access_rights().is_addable()) {
        Some(e) => Err(Revert { code: e }),
        None => {
            let s = Slot::URef(uref.addr());
            match host.find_global(s) {
                None => Err(Revert { code: ApiError::ValueNotFound }),
                Some(stored) => match merge(stored, value) {
                    None => Err(Revert { code: ApiError::TypeMismatch }),
                    Some(m) => {
                        host.store_global(s, m);
                        Ok(())
                    },
                },
            }
        },
    }
}

/// Adds `value` to the one under the serialized key `key` in the local partition.
pub fn add_local(host: &mut Host, key: &[u8], value: Value) -> (r: Result<(), Revert>)
    requires
        old(host).wf(),
    ensures
        (r, final(host).view()) == old(host).view().add_local(key@, value),
        final(host).wf(),
{
    match host.find_local(key) {
        None => Err(Revert { code: ApiError::ValueNotFound }),
        Some(stored) => match merge(stored, value) {
            None => Err(Revert { code: ApiError::TypeMismatch }),
            Some(m) => {
                write_local(host, key, m);
                Ok(())
            },
        },
    }
}

} // verus!
