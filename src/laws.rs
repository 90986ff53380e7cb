//! Properties that hold of every host state, proved over the model.
use vstd::prelude::*;
use crate::capability::{AccessRights, Address, URef};
use crate::error::{ApiError, ReadError, Revert};
use crate::key::{EntryPoint, Key, SemVer, Slot, Value, ValueKind};
use crate::model::{minted_refs, HostView};

verus! {

/// A value written under a reference with the Write and Read rights is read
/// back unchanged.
pub proof fn write_then_read(s: HostView, u: URef, v: Value)
    requires
        s.minted(u.address()),
        u.rights().has_write(),
        u.rights().has_read(),
    ensures
        s.write(u, v).0 == Ok::<(), Revert>(()),
        s.write(u, v).1.read(u, v.spec_kind()) == Ok::<Option<Value>, ReadError>(Some(v)),
{
}

/// Reading a slot that nothing was written to gives `None`, never an error.
pub proof fn read_before_write(s: HostView, u: URef, kind: ValueKind)
    requires
        s.minted(u.address()),
        u.rights().has_read(),
        !s.global.contains_key(Slot::URef(u.address())),
    ensures
        s.read(u, kind) == Ok::<Option<Value>, ReadError>(None),
{
}

/// Two adds of integers to a stored integer leave their sum, wrapping at
/// 2^64; from zero and without overflow, exactly `a + b`.
pub proof fn add_twice(s: HostView, u: URef, x: u64, a: u64, b: u64)
    requires
        s.minted(u.address()),
        u.rights().has_add(),
        u.rights().has_read(),
        s.global.get(Slot::URef(u.address())) == Some(Value::U64(x)),
    ensures
        ({
            let (r1, s1) = s.add(u, Value::U64(a));
            let (r2, s2) = s1.add(u, Value::U64(b));
            &&& r1 == Ok::<(), Revert>(())
            &&& r2 == Ok::<(), Revert>(())
            &&& s2.read(u, ValueKind::U64) == Ok::<Option<Value>, ReadError>(
                Some(Value::U64(((x + a + b) % 0x1_0000_0000_0000_0000) as u64)),
            )
            &&& (x == 0 && a + b < 0x1_0000_0000_0000_0000) ==> s2.read(u, ValueKind::U64)
                == Ok::<Option<Value>, ReadError>(Some(Value::U64((a + b) as u64)))
        }),
{
    let s1 = s.add(u, Value::U64(a)).1;
    let m = ((x + a) % 0x1_0000_0000_0000_0000) as u64;
    assert(s1.global.get(Slot::URef(u.address())) == Some(Value::U64(m)));
    assert(((m + b) % 0x1_0000_0000_0000_0000) == ((x + a + b) % 0x1_0000_0000_0000_0000))
        by (nonlinear_arith)
        requires
            m == (x + a) % 0x1_0000_0000_0000_0000,
            0 <= x, 0 <= a, 0 <= b,
    ;
}

/// The local and the global partition never collide: writing or adding
/// under a local key leaves every global read as it was, and writing under
/// a reference leaves every local read as it was.
pub proof fn partitions_disjoint(s: HostView, k: Seq<u8>, v: Value, u: URef, kind: ValueKind)
    ensures
        s.write_local(k, v).read(u, kind) == s.read(u, kind),
        s.add_local(k, v).1.read(u, kind) == s.read(u, kind),
        s.write(u, v).1.read_local(k, kind) == s.read_local(k, kind),
        s.add(u, v).1.read_local(k, kind) == s.read_local(k, kind),
{
}

/// A new record gets a hash address that nothing in the host used before,
/// and a distinct access reference with every right; two records in a row
/// never share an address.
pub proof fn create_metadata_fresh(s: HostView)
    requires
        s.wf(),
        s.can_mint(4),
    ensures
        ({
            let (r1, s1) = s.create_metadata();
            let (r2, s2) = s1.create_metadata();
            &&& r1 matches Ok((Key::Hash(h1), a1)) && r2 matches Ok((Key::Hash(h2), a2)) && {
                &&& !s.minted(h1)
                &&& !s.contracts.contains_key(h1)
                &&& !s.global.contains_key(Slot::Hash(h1))
                &&& a1.rights() == AccessRights::ReadAddWrite
                &&& a1.address() != h1
                &&& h2 != h1
                &&& !s1.contracts.contains_key(h2)
                &&& s2.contracts.contains_key(h1) && s2.contracts.contains_key(h2)
            }
        }),
{
    let s1 = s.create_metadata().1;
    Address::lemma_nth_parts(s.next as u128);
    Address::lemma_nth_parts((s.next + 1) as u128);
    Address::lemma_nth_parts(s1.next as u128);
    assert(!s.global.contains_key(Slot::Hash(s.fresh())));
}

/// On a record without callable versions, adding a version makes it the one
/// callable version, bound to what was given; removing it again restores the
/// host as it was but for what that version bound.
pub proof fn add_then_remove_version(s: HostView, h: Address, access: URef, v: SemVer, methods: Seq<(String, EntryPoint)>, keys: Seq<(String, Key)>)
    requires
        s.record_access(Key::Hash(h), access) == Ok::<Address, ApiError>(h),
        forall|w: SemVer| !s.versions.contains((h, w)),
    ensures
        ({
            let (r1, s1) = s.add_version(Key::Hash(h), access, v, methods, keys);
            let (r2, s2) = s1.remove_version(Key::Hash(h), access, v);
            &&& r1 == Ok::<(), ApiError>(())
            &&& forall|w: SemVer| s1.versions.contains((h, w)) <==> w == v
            &&& s1.bindings.get((h, v)) == Some((methods, keys))
            &&& r2 == Ok::<(), ApiError>(())
            &&& forall|w: SemVer| !s2.versions.contains((h, w))
            &&& s2 == (HostView { bindings: s.bindings.remove((h, v)), ..s })
        }),
{
    let s1 = s.add_version(Key::Hash(h), access, v, methods, keys).1;
    assert(s1.record_access(Key::Hash(h), access) == Ok::<Address, ApiError>(h));
    let s2 = s1.remove_version(Key::Hash(h), access, v).1;
    assert(s2.versions =~= s.versions);
    assert(s2.bindings =~= s.bindings.remove((h, v)));
}

/// A new group hands back exactly `n` references, distinct from one another,
/// from the existing members, and from every reference minted before.
pub proof fn create_group_fresh(s: HostView, contract: Key, access: URef, label: Seq<u8>, n: nat, existing: Seq<URef>)
    requires
        s.wf(),
    ensures
        s.create_group(contract, access, label, n, existing).0 matches Ok(fresh) ==> {
            &&& fresh.len() == n
            &&& forall|i: int, j: int| 0 <= i < j < n ==> fresh[i].address() != fresh[j].address()
            &&& forall|i: int, j: int| 0 <= i < n && 0 <= j < existing.len() ==> fresh[i].address()
                != existing[j].address()
            &&& forall|i: int| 0 <= i < n ==> !s.minted(#[trigger] fresh[i].address())
        },
{
    if let Ok(fresh) = s.create_group(contract, access, label, n, existing).0 {
        assert(fresh == minted_refs(s.next, n));
        assert forall|i: int| 0 <= i < n implies (#[trigger] fresh[i]).address() == Address::nth((s.next + i) as u128) by {
        }
        assert forall|i: int, j: int| 0 <= i < n && 0 <= j < existing.len() implies fresh[i].address()
            != existing[j].address() by {
            assert(s.minted(existing[j].address()));
        }
    }
}

/// A reference without the right that an operation needs is refused with a
/// fatal error, and the host is left as it was.
pub proof fn missing_right_refused(s: HostView, u: URef, v: Value, kind: ValueKind)
    requires
        s.minted(u.address()),
    ensures
        !u.rights().has_read() ==> s.read(u, kind) == Err::<Option<Value>, ReadError>(
            ReadError::Revert(ApiError::PermissionDenied),
        ),
        !u.rights().has_write() ==> s.write(u, v) == (Err::<(), Revert>(Revert { code: ApiError::PermissionDenied }), s),
        !u.rights().has_add() ==> s.add(u, v) == (Err::<(), Revert>(Revert { code: ApiError::PermissionDenied }), s),
{
}

} // verus!
