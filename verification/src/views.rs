//! Views of what may be missing.
use vstd::prelude::*;

verus! {

/// The view of a value, if there is one.
pub open spec fn viewed<T: View>(value: Option<T>) -> Option<T::V> {
    match value {
        Some(value) => Some(value@),
        None => None,
    }
}

/// There is a view exactly where there is a value, and it is the view of that value.
pub proof fn law_viewed<T: View>(value: Option<T>)
    ensures
        viewed(value) is Some <==> value is Some,
        value is Some ==> viewed(value)->0 == value->0@,
{
}

} // verus!
