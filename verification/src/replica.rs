//! Copies of values that stand for the same thing.

use vstd::prelude::*;

verus! {

/// A type whose values can be copied without changing what they stand for.
pub trait Replica: DeepView + Sized {
    /// A copy that stands for the same thing.
    fn replica(&self) -> (r: Self)
        ensures
            r.deep_view() == self.deep_view(),
    ;
}

impl Replica for String {
    fn replica(&self) -> (r: Self) {
        self.clone()
    }
}

impl Replica for bool {
    fn replica(&self) -> (r: Self) {
        *self
    }
}

impl Replica for u8 {
    fn replica(&self) -> (r: Self) {
        *self
    }
}

impl Replica for i32 {
    fn replica(&self) -> (r: Self) {
        *self
    }
}

impl<T: Replica> Replica for Option<T> {
    fn replica(&self) -> (r: Self) {
        match self {
            Some(value) => Some(value.replica()),
            None => None,
        }
    }
}

impl<A: Replica, B: Replica> Replica for (A, B) {
    fn replica(&self) -> (r: Self) {
        (self.0.replica(), self.1.replica())
    }
}

impl<T: Replica> Replica for Vec<T> {
    fn replica(&self) -> (r: Self) {
        let mut out: Vec<T> = Vec::new();
        let mut i: usize = 0;
        while i < self.len()
            invariant
                i <= self@.len(),
                out@.len() == i,
                forall|k: int|
                    0 <= k < i ==> (#[trigger] out@[k]).deep_view() == self@[k].deep_view(),
            decreases self@.len() - i,
        {
            out.push(self[i].replica());
            i += 1;
        }
        assert(out.deep_view() =~= self.deep_view());
        out
    }
}

} // verus!
