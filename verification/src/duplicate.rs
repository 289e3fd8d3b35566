//! Copies that are known to hold the same value.
use vstd::prelude::*;

verus! {

/// A value that can be copied, with the copy equal to the value in everything
/// that contracts speak of.
pub trait Duplicate: DeepView + Sized {
    /// A copy of `self`.
    fn duplicate(&self) -> (r: Self)
        ensures
            r.deep_view() == self.deep_view(),
    ;
}

impl Duplicate for bool {
    fn duplicate(&self) -> (r: bool) {
        *self
    }
}

impl Duplicate for u64 {
    fn duplicate(&self) -> (r: u64) {
        *self
    }
}

impl Duplicate for String {
    fn duplicate(&self) -> (r: String) {
        self.clone()
    }
}

impl<T: Duplicate> Duplicate for Option<T> {
    fn duplicate(&self) -> (r: Option<T>) {
        match self {
            Some(value) => Some(value.duplicate()),
            None => None,
        }
    }
}

impl<T: Duplicate> Duplicate for Vec<T> {
    fn duplicate(&self) -> (r: Vec<T>) {
        let mut out: Vec<T> = Vec::new();
        let mut i: usize = 0;
        while i < self.len()
            invariant
                i <= self@.len(),
                out.deep_view() == self.deep_view().take(i as int),
            decreases self@.len() - i,
        {
            let ghost before = out.deep_view();
            out.push(self[i].duplicate());
            proof {
                assert(out.deep_view() =~= before.push(self@[i as int].deep_view()));
                assert(self.deep_view()[i as int] == self@[i as int].deep_view());
                assert(self.deep_view().take(i + 1) =~= out.deep_view());
            }
            i = i + 1;
        }
        proof {
            assert(self.deep_view().take(i as int) =~= self.deep_view());
        }
        out
    }
}

} // verus!
