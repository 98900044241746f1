use vstd::prelude::*;
use vstd::string::StringExecFns;

use crate::kind::{kind_name, JniTypes};

verus! {

/// A failure signal raised inside the boundary layer.
#[derive(Debug, PartialEq, Eq)]
pub enum SurrealError {
    /// A call into the host runtime itself failed; carries its message.
    Exception(String),
    /// The handle is zero or denotes no live value of the requested kind.
    NullPointerException(JniTypes),
    /// The handle is live but was registered with another kind.
    WrongType { expected: JniTypes, found: JniTypes },
    /// An iterator was advanced past its last element.
    NoSuchElementException,
    /// The data engine reported a failure; its message is kept verbatim.
    SurrealDB(String),
    /// An invariant the bridge relied on did not hold.
    SurrealDBJni(String),
}

/// A host-visible exception: the class to throw and its message.
pub struct Exception {
    pub class: String,
    pub msg: String,
}

/// The host exception class that a failure is surfaced as.
pub open spec fn exception_class(e: SurrealError) -> Seq<char> {
    match e {
        SurrealError::Exception(_) => "java/lang/Exception"@,
        SurrealError::NullPointerException(_) => "java/lang/NullPointerException"@,
        SurrealError::NoSuchElementException => "java/util/NoSuchElementException"@,
        _ => "com/surrealdb/SurrealException"@,
    }
}

/// The message that a failure is surfaced with.
pub open spec fn exception_message(e: SurrealError) -> Seq<char> {
    match e {
        SurrealError::Exception(m) => m@,
        SurrealError::NullPointerException(k) => kind_name(k) + " instance not found"@,
        SurrealError::WrongType { expected, found } =>
            "Wrong type. Expected "@ + kind_name(expected) + " but got "@ + kind_name(found),
        SurrealError::NoSuchElementException => "No more elements"@,
        SurrealError::SurrealDB(m) => m@,
        SurrealError::SurrealDBJni(m) => m@,
    }
}

/// Whether `x` is the host exception that surfaces `e`.
pub open spec fn surfaces(x: Exception, e: SurrealError) -> bool {
    &&& x.class@ == exception_class(e)
    &&& x.msg@ == exception_message(e)
}

impl SurrealError {
    /// Translates this failure into the host exception that surfaces it.
    pub fn into_exception(self) -> (r: Exception)
        ensures
            surfaces(r, self),
    {
        match self {
            SurrealError::Exception(m) => Exception { class: "java/lang/Exception".to_owned(), msg: m },
            SurrealError::NullPointerException(k) => {
                let mut msg = k.as_str().to_owned();
                msg.append(" instance not found");
                Exception { class: "java/lang/NullPointerException".to_owned(), msg }
            },
            SurrealError::WrongType { expected, found } => {
                let mut msg = "Wrong type. Expected ".to_owned();
                msg.append(expected.as_str());
                msg.append(" but got ");
                msg.append(found.as_str());
                Exception { class: "com/surrealdb/SurrealException".to_owned(), msg }
            },
            SurrealError::NoSuchElementException => Exception {
                class: "java/util/NoSuchElementException".to_owned(),
                msg: "No more elements".to_owned(),
            },
            SurrealError::SurrealDB(m) => Exception {
                class: "com/surrealdb/SurrealException".to_owned(),
                msg: m,
            },
            SurrealError::SurrealDBJni(m) => Exception {
                class: "com/surrealdb/SurrealException".to_owned(),
                msg: m,
            },
        }
    }

    /// Surfaces this failure at an accessor's exit. `pending` is the host's
    /// answer to "is an exception already pending?" (`None` when that query
    /// itself failed). The caller's sentinel `output` is handed back, along
    /// with the exception to throw: there is one only when the host reported
    /// that none was pending, so a more specific earlier failure is never
    /// masked.
    pub fn exception<T>(self, pending: Option<bool>, output: T) -> (r: (T, Option<Exception>))
        ensures
            r.0 == output,
            r.1 is Some <==> pending == Some(false),
            r.1 matches Some(x) ==> surfaces(x, self),
    {
        match pending {
            Some(false) => (output, Some(self.into_exception())),
            _ => (output, None),
        }
    }
}

/// Decides, at an accessor's exit, whether the call failed and what to throw.
/// `pending` is the host's pending-exception answer (`None` when that query
/// failed) and `t` the exception the accessor would raise. Returns whether
/// the call is to be treated as failed, and the exception to throw, if any.
pub fn check_exception(pending: Option<bool>, t: Option<Exception>) -> (r: (bool, Option<Exception>))
    ensures
        r.0 == (pending == Some(true) || (pending == Some(false) && t is Some)),
        r.1 == (if pending == Some(false) { t } else { None }),
{
    match pending {
        Some(true) => (true, None),
        Some(false) => match t {
            Some(x) => (true, Some(x)),
            None => (false, None),
        },
        None => (false, None),
    }
}

/// Like `check_exception`, for an accessor that then returns the null
/// sentinel: only the exception to throw is of interest.
pub fn return_exception(pending: Option<bool>, t: Option<Exception>) -> (r: Option<Exception>)
    ensures
        r == (if pending == Some(false) { t } else { None }),
{
    check_exception(pending, t).1
}

} // verus!
