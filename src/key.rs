//! Keys of the global partition, stored values, contract references and
//! semantic versions.
use vstd::prelude::*;
use crate::capability::{Address, URef};
use crate::error::ApiError;

verus! {

/// The universal lookup key of the global partition.
#[derive(Clone, Copy, Debug, PartialEq, Eq)]
pub enum Key {
    URef(URef),
    Hash(Address),
    Account(Address),
}

/// A storage slot of the global partition: the variant of a key and its
/// address. The rights of a reference are not part of the slot.
#[derive(Clone, Copy, Debug, PartialEq, Eq, Structural)]
pub enum Slot {
    URef(Address),
    Hash(Address),
    Account(Address),
}

impl Key {
    pub open spec fn spec_slot(self) -> Slot {
        match self {
            Key::URef(u) => Slot::URef(u.address()),
            Key::Hash(a) => Slot::Hash(a),
            Key::Account(a) => Slot::Account(a),
        }
    }

    pub fn slot(&self) -> (r: Slot)
        ensures
            r == self.spec_slot(),
    {
        match self {
            Key::URef(u) => Slot::URef(u.addr()),
            Key::Hash(a) => Slot::Hash(*a),
            Key::Account(a) => Slot::Account(*a),
        }
    }

    pub fn as_uref(&self) -> (r: Option<URef>)
        ensures
            r == (match self {
                Key::URef(u) => Some(*u),
                _ => None::<URef>,
            }),
    {
        match self {
            Key::URef(u) => Some(*u),
            _ => None,
        }
    }
}

impl From<URef> for Key {
    fn from(u: URef) -> (r: Key) {
        Key::URef(u)
    }
}

impl vstd::std_specs::convert::FromSpecImpl<URef> for Key {
    open spec fn obeys_from_spec() -> bool {
        true
    }

    open spec fn from_spec(u: URef) -> Key {
        Key::URef(u)
    }
}

/// A reference to a stored function: under a capability or at a hash.
#[derive(Clone, Copy, Debug, PartialEq, Eq)]
pub enum ContractRef {
    URef(URef),
    Hash(Address),
}

impl ContractRef {
    pub open spec fn spec_key(self) -> Key {
        match self {
            ContractRef::URef(u) => Key::URef(u),
            ContractRef::Hash(a) => Key::Hash(a),
        }
    }

    pub fn to_key(&self) -> (r: Key)
        ensures
            r == self.spec_key(),
    {
        match self {
            ContractRef::URef(u) => Key::URef(*u),
            ContractRef::Hash(a) => Key::Hash(*a),
        }
    }
}

/// A semantic version number.
#[derive(Clone, Copy, Debug, PartialEq, Eq, Structural)]
pub struct SemVer {
    pub major: u32,
    pub minor: u32,
    pub patch: u32,
}

impl SemVer {
    pub fn new(major: u32, minor: u32, patch: u32) -> (r: SemVer)
        ensures
            r == (SemVer { major, minor, patch }),
    {
        SemVer { major, minor, patch }
    }

    pub fn same(&self, other: &SemVer) -> (r: bool)
        ensures
            r == (*self == *other),
    {
        self.major == other.major && self.minor == other.minor && self.patch == other.patch
    }
}

/// The type of a stored value, as a reader expects it.
#[derive(Clone, Copy, Debug, PartialEq, Eq, Structural)]
pub enum ValueKind {
    Unit,
    Bool,
    U64,
    Key,
}

/// A value held in the global or the local partition.
#[derive(Clone, Copy, Debug, PartialEq, Eq)]
pub enum Value {
    Unit,
    Bool(bool),
    U64(u64),
    Key(Key),
}

impl Value {
    pub open spec fn spec_kind(self) -> ValueKind {
        match self {
            Value::Unit => ValueKind::Unit,
            Value::Bool(_) => ValueKind::Bool,
            Value::U64(_) => ValueKind::U64,
            Value::Key(_) => ValueKind::Key,
        }
    }

    pub fn kind(&self) -> (r: ValueKind)
        ensures
            r == self.spec_kind(),
    {
        match self {
            Value::Unit => ValueKind::Unit,
            Value::Bool(_) => ValueKind::Bool,
            Value::U64(_) => ValueKind::U64,
            Value::Key(_) => ValueKind::Key,
        }
    }
}

/// The host's merge rule for `add`: integers are summed, wrapping at 2^64;
/// no other pair of values can be added.
pub open spec fn spec_merge(stored: Value, v: Value) -> Option<Value> {
    match (stored, v) {
        (Value::U64(a), Value::U64(b)) => Some(Value::U64(((a + b) % 0x1_0000_0000_0000_0000) as u64)),
        _ => None,
    }
}

pub fn merge(stored: Value, v: Value) -> (r: Option<Value>)
    ensures
        r == spec_merge(stored, v),
{
    match (stored, v) {
        (Value::U64(a), Value::U64(b)) => Some(Value::U64(a.wrapping_add(b))),
        _ => None,
    }
}

/// The entry point that a contract version exposes under a name.
#[derive(Debug)]
pub struct EntryPoint {
    pub args: Vec<(String, ValueKind)>,
    pub ret: ValueKind,
    /// The labels of the user groups whose members may call it.
    pub groups: Vec<String>,
}

/// A capability reference refined by the kind of value it addresses.
#[derive(Clone, Copy, Debug, PartialEq, Eq)]
pub struct TURef {
    pub(crate) uref: URef,
    pub(crate) kind: ValueKind,
}

impl TURef {
    pub open(crate) spec fn spec_uref(self) -> URef {
        self.uref
    }

    pub open(crate) spec fn spec_value_kind(self) -> ValueKind {
        self.kind
    }

    /// The typed reference under the key; fails unless the key is a reference.
    pub fn from_key(key: Key, kind: ValueKind) -> (r: Result<TURef, ApiError>)
        ensures
            match key {
                Key::URef(u) => r matches Ok(t) && t.spec_uref() == u && t.spec_value_kind() == kind,
                _ => r == Err::<TURef, ApiError>(ApiError::UnexpectedKeyVariant),
            },
    {
        match key {
            Key::URef(u) => Ok(TURef { uref: u, kind }),
            _ => Err(ApiError::UnexpectedKeyVariant),
        }
    }

    pub fn uref(&self) -> (r: URef)
        ensures
            r == self.spec_uref(),
    {
        self.uref
    }

    pub fn value_kind(&self) -> (r: ValueKind)
        ensures
            r == self.spec_value_kind(),
    {
        self.kind
    }
}

} // verus!
