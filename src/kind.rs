use vstd::prelude::*;

verus! {

/// The kind tag recorded for every value that crosses the boundary.
#[derive(Clone, Copy, Debug, PartialEq, Eq, Structural)]
pub enum JniTypes {
    Surreal,
    Value,
    ValueMut,
    ArrayIter,
    SyncArrayIter,
    KeyValueEntry,
    KeyValueMutEntry,
    ObjectIter,
    SyncObjectIter,
    Response,
}

/// The display name of a kind, as it appears in failure messages.
pub open spec fn kind_name(k: JniTypes) -> Seq<char> {
    match k {
        JniTypes::Surreal => "Surreal"@,
        JniTypes::Value => "Value"@,
        JniTypes::ValueMut => "MutableValue"@,
        JniTypes::ArrayIter => "ArrayIterator"@,
        JniTypes::SyncArrayIter => "SynchronizedArrayIterator"@,
        JniTypes::KeyValueEntry => "ObjectEntry"@,
        JniTypes::KeyValueMutEntry => "MutableObjectEntry"@,
        JniTypes::ObjectIter => "ObjectIterator"@,
        JniTypes::SyncObjectIter => "SynchronizedObjectIterator"@,
        JniTypes::Response => "Response"@,
    }
}

impl JniTypes {
    /// The display name of this kind.
    pub fn as_str(&self) -> (r: &'static str)
        ensures
            r@ == kind_name(*self),
    {
        match self {
            JniTypes::Surreal => "Surreal",
            JniTypes::Value => "Value",
            JniTypes::ValueMut => "MutableValue",
            JniTypes::ArrayIter => "ArrayIterator",
            JniTypes::SyncArrayIter => "SynchronizedArrayIterator",
            JniTypes::KeyValueEntry => "ObjectEntry",
            JniTypes::KeyValueMutEntry => "MutableObjectEntry",
            JniTypes::ObjectIter => "ObjectIterator",
            JniTypes::SyncObjectIter => "SynchronizedObjectIterator",
            JniTypes::Response => "Response",
        }
    }
}

} // verus!
