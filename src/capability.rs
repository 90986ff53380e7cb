//! Capability references, their access rights, and the address kinds of the
//! global partition.
use vstd::prelude::*;

verus! {

/// The subset of {Read, Write, Add} that a reference carries.
#[derive(Clone, Copy, Debug, PartialEq, Eq, Structural)]
pub enum AccessRights {
    NoRights,
    Read,
    Write,
    Add,
    ReadWrite,
    ReadAdd,
    AddWrite,
    ReadAddWrite,
}

impl AccessRights {
    pub open spec fn has_read(self) -> bool {
        match self {
            AccessRights::Read | AccessRights::ReadWrite | AccessRights::ReadAdd
            | AccessRights::ReadAddWrite => true,
            _ => false,
        }
    }

    pub open spec fn has_write(self) -> bool {
        match self {
            AccessRights::Write | AccessRights::ReadWrite | AccessRights::AddWrite
            | AccessRights::ReadAddWrite => true,
            _ => false,
        }
    }

    pub open spec fn has_add(self) -> bool {
        match self {
            AccessRights::Add | AccessRights::ReadAdd | AccessRights::AddWrite
            | AccessRights::ReadAddWrite => true,
            _ => false,
        }
    }

    /// Every right of `self` is also a right of `other`.
    pub open spec fn within(self, other: AccessRights) -> bool {
        &&& self.has_read() ==> other.has_read()
        &&& self.has_write() ==> other.has_write()
        &&& self.has_add() ==> other.has_add()
    }

    pub fn is_readable(self) -> (r: bool)
        ensures
            r == self.has_read(),
    {
        match self {
            AccessRights::Read | AccessRights::ReadWrite | AccessRights::ReadAdd
            | AccessRights::ReadAddWrite => true,
            _ => false,
        }
    }

    pub fn is_writeable(self) -> (r: bool)
        ensures
            r == self.has_write(),
    {
        match self {
            AccessRights::Write | AccessRights::ReadWrite | AccessRights::AddWrite
            | AccessRights::ReadAddWrite => true,
            _ => false,
        }
    }

    pub fn is_addable(self) -> (r: bool)
        ensures
            r == self.has_add(),
    {
        match self {
            AccessRights::Add | AccessRights::ReadAdd | AccessRights::AddWrite
            | AccessRights::ReadAddWrite => true,
            _ => false,
        }
    }

    /// Whether every right of `self` is also a right of `other`.
    pub fn is_within(self, other: AccessRights) -> (r: bool)
        ensures
            r == self.within(other),
    {
        (!self.is_readable() || other.is_readable()) && (!self.is_writeable()
            || other.is_writeable()) && (!self.is_addable() || other.is_addable())
    }
}

/// A 32-byte identifier of a storage slot, as two 128-bit halves. Only the
/// host mints addresses: there is no public constructor.
#[derive(Clone, Copy, Debug, PartialEq, Eq, Structural)]
pub struct Address {
    pub(crate) hi: u128,
    pub(crate) lo: u128,
}

impl Address {
    pub open(crate) spec fn high(self) -> u128 {
        self.hi
    }

    pub open(crate) spec fn low(self) -> u128 {
        self.lo
    }

    /// The address that the host mints as its `n`-th.
    pub open(crate) spec fn nth(n: u128) -> Address {
        Address { hi: 0, lo: n }
    }

    pub proof fn lemma_nth_parts(n: u128)
        ensures
            Address::nth(n).high() == 0,
            Address::nth(n).low() == n,
    {
    }

    pub(crate) fn mint(n: u128) -> (r: Address)
        ensures
            r == Address::nth(n),
    {
        Address { hi: 0, lo: n }
    }

    /// The 32 bytes of the address: the high half first, each half big-endian.
    pub open spec fn spec_bytes(self) -> Seq<u8> {
        Seq::new(32, |i: int| if i < 16 {
            be_byte(self.high(), i)
        } else {
            be_byte(self.low(), i - 16)
        })
    }

    pub fn to_bytes(&self) -> (r: Vec<u8>)
        ensures
            r@ == self.spec_bytes(),
    {
        let mut out: Vec<u8> = Vec::new();
        let mut i: usize = 0;
        while i < 32
            invariant
                i <= 32,
                out@.len() == i,
                forall|j: int| 0 <= j < i ==> out@[j] == self.spec_bytes()[j],
            decreases 32 - i,
        {
            let b = if i < 16 {
                ((self.hi >> ((8 * (15 - i)) as u128)) & 0xff) as u8
            } else {
                ((self.lo >> ((8 * (31 - i)) as u128)) & 0xff) as u8
            };
            out.push(b);
            i = i + 1;
        }
        assert(out@ =~= self.spec_bytes());
        out
    }

    pub(crate) fn parts(&self) -> (r: (u128, u128))
        ensures
            r == (self.high(), self.low()),
    {
        (self.hi, self.lo)
    }
}

/// Byte `i` of `x`, counted from the most significant.
pub open spec fn be_byte(x: u128, i: int) -> u8 {
    ((x >> ((8 * (15 - i)) as u128)) & 0xff) as u8
}

/// An unforgeable, rights-bearing reference to a storage slot. Two references
/// are equal when their addresses are: the rights are carried, not compared.
#[derive(Clone, Copy, Debug)]
pub struct URef {
    pub(crate) addr: Address,
    pub(crate) rights: AccessRights,
}

impl PartialEq for URef {
    fn eq(&self, other: &URef) -> (r: bool) {
        self.addr == other.addr
    }
}

impl vstd::std_specs::cmp::PartialEqSpecImpl for URef {
    open spec fn obeys_eq_spec() -> bool {
        true
    }

    open spec fn eq_spec(&self, other: &URef) -> bool {
        self.address() == other.address()
    }
}

impl Eq for URef {

}

impl URef {
    pub open(crate) spec fn address(self) -> Address {
        self.addr
    }

    pub open(crate) spec fn rights(self) -> AccessRights {
        self.rights
    }

    /// The reference that the host hands out for a newly minted address.
    pub open(crate) spec fn minted(a: Address, rights: AccessRights) -> URef {
        URef { addr: a, rights }
    }


    pub(crate) fn new(addr: Address, rights: AccessRights) -> (r: URef)
        ensures
            r == URef::minted(addr, rights),
    {
        URef { addr, rights }
    }

    pub fn addr(&self) -> (r: Address)
        ensures
            r == self.address(),
    {
        self.addr
    }

    pub fn access_rights(&self) -> (r: AccessRights)
        ensures
            r == self.rights(),
    {
        self.rights
    }

    /// The same reference with fewer rights; `None` where `rights` would add a
    /// right that `self` lacks.
    pub fn downgrade(&self, rights: AccessRights) -> (r: Option<URef>)
        ensures
            rights.within(self.rights()) ==> r == Some(URef::minted(self.address(), rights)),
            !rights.within(self.rights()) ==> r.is_none(),
    {
        if rights.is_within(self.rights) {
            Some(URef { addr: self.addr, rights })
        } else {
            None
        }
    }
}

} // verus!
