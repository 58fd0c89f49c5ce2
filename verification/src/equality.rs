use crate::header::{Claims, JweHeader};
use crate::json::{lookup, JsonValue};
use vstd::prelude::*;
use vstd::std_specs::cmp::PartialEqSpecImpl;

verus! {

/// Both hold the same claims: as many, and every claim of the first is a
/// claim of the second with the same value. The order does not count.
pub open spec fn same_claims(a: Claims, b: Claims) -> bool {
    &&& a.len() == b.len()
    &&& forall|i: int| 0 <= i < a.len() ==> lookup(b, (#[trigger] a[i]).0) == Some(a[i].1)
}

impl PartialEq for JsonValue {
    fn eq(&self, other: &JsonValue) -> (r: bool) {
        self.same(other)
    }
}

impl PartialEqSpecImpl for JsonValue {
    open spec fn obeys_eq_spec() -> bool {
        true
    }

    open spec fn eq_spec(&self, other: &JsonValue) -> bool {
        self@ == other@
    }
}

impl PartialEq for JweHeader {
    fn eq(&self, other: &JweHeader) -> (r: bool) {
        self.same_claims_as(other)
    }
}

impl PartialEqSpecImpl for JweHeader {
    open spec fn obeys_eq_spec() -> bool {
        true
    }

    open spec fn eq_spec(&self, other: &JweHeader) -> bool {
        same_claims(self@, other@)
    }
}

} // verus!
