use crate::task::TaskControlBlock;
use std::cmp::Ordering;
use vstd::prelude::*;

verus! {

/// Two processes are equal to the scheduler when their strides are.
impl PartialEq for TaskControlBlock {
    fn eq(&self, other: &Self) -> (r: bool) {
        self.inner.stride == other.inner.stride
    }
}

impl vstd::std_specs::cmp::PartialEqSpecImpl for TaskControlBlock {
    open spec fn obeys_eq_spec() -> bool {
        true
    }

    open spec fn eq_spec(&self, other: &Self) -> bool {
        self.inner.stride == other.inner.stride
    }
}

/// Processes are ordered against their strides, compared as plain numbers:
/// the one with the smaller stride is the greater, so that a structure that
/// hands out its greatest element hands out the least stride.
impl PartialOrd for TaskControlBlock {
    fn partial_cmp(&self, other: &Self) -> (r: Option<Ordering>) {
        if self.inner.stride < other.inner.stride {
            Some(Ordering::Greater)
        } else if self.inner.stride == other.inner.stride {
            Some(Ordering::Equal)
        } else {
            Some(Ordering::Less)
        }
    }
}

impl vstd::std_specs::cmp::PartialOrdSpecImpl for TaskControlBlock {
    open spec fn obeys_partial_cmp_spec() -> bool {
        true
    }

    open spec fn partial_cmp_spec(&self, other: &Self) -> Option<Ordering> {
        if self.inner.stride < other.inner.stride {
            Some(Ordering::Greater)
        } else if self.inner.stride == other.inner.stride {
            Some(Ordering::Equal)
        } else {
            Some(Ordering::Less)
        }
    }
}

/// Whether `a` is to be dispatched before `b`: its stride is the smaller.
pub fn runs_before(a: &TaskControlBlock, b: &TaskControlBlock) -> (r: bool)
    ensures
        r == (a.inner.stride < b.inner.stride),
{
    match a.partial_cmp(b) {
        Some(Ordering::Greater) => true,
        _ => false,
    }
}

} // verus!
