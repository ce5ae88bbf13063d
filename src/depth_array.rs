use ndarray::Array1;
use vstd::prelude::*;

verus! {

/// A region's dense per-base array of accumulated values, index `i` standing
/// for the region's `start + i`. Its length never changes.
#[verifier::external_body]
#[derive(Debug)]
pub struct DepthArray {
    values: Array1<u64>,
}

/// The values that a depth array holds, in index order.
pub uninterp spec fn depth_values(a: DepthArray) -> Seq<u64>;

impl View for DepthArray {
    type V = Seq<u64>;

    open spec fn view(&self) -> Seq<u64> {
        depth_values(*self)
    }
}

impl DepthArray {
    /// Relies on ndarray's `Array1::zeros`: `n` zeros, which panics only
    /// where `n` overflows `isize`.
    #[verifier::external_body]
    pub(crate) fn zeros(n: usize) -> (a: DepthArray)
        requires
            n <= isize::MAX,
        ensures
            depth_values(a) == Seq::new(n as nat, |i: int| 0u64),
    {
        DepthArray { values: Array1::zeros(n) }
    }

    /// Relies on ndarray's `len`: the number of elements.
    #[verifier::external_body]
    pub(crate) fn len(&self) -> (n: usize)
        ensures
            n == depth_values(*self).len(),
    {
        self.values.len()
    }

    /// Relies on ndarray's indexing: the element at index `i`, which panics
    /// only out of bounds.
    #[verifier::external_body]
    pub(crate) fn get(&self, i: usize) -> (v: u64)
        requires
            i < self@.len(),
        ensures
            v == depth_values(*self)[i as int],
    {
        self.values[i]
    }

    /// Relies on ndarray's mutable indexing: replaces the element at index
    /// `i` and no other, which panics only out of bounds.
    #[verifier::external_body]
    pub(crate) fn set(&mut self, i: usize, v: u64)
        requires
            i < old(self)@.len(),
        ensures
            depth_values(*final(self)) == depth_values(*old(self)).update(i as int, v),
    {
        self.values[i] = v;
    }

    /// The elements in index order.
    pub fn to_vec(&self) -> (v: Vec<u64>)
        ensures
            v@ == self@,
    {
        let n = self.len();
        let mut v: Vec<u64> = Vec::new();
        let mut i: usize = 0;
        while i < n
            invariant
                i <= n,
                n == self@.len(),
                v@ == self@.subrange(0, i as int),
            decreases n - i,
        {
            v.push(self.get(i));
            i = i + 1;
            assert(v@ =~= self@.subrange(0, i as int));
        }
        assert(self@.subrange(0, n as int) =~= self@);
        v
    }

    /// An array holding the given values in order.
    pub fn from_values(values: &Vec<u64>) -> (a: DepthArray)
        requires
            values@.len() <= isize::MAX,
        ensures
            a@ == values@,
    {
        let n = values.len();
        let mut a = DepthArray::zeros(n);
        let mut i: usize = 0;
        while i < n
            invariant
                i <= n,
                n == values@.len(),
                a@.len() == n,
                forall|j: int| 0 <= j < i ==> #[trigger] a@[j] == values@[j],
            decreases n - i,
        {
            a.set(i, values[i]);
            i = i + 1;
        }
        assert(a@ =~= values@);
        a
    }
}

} // verus!
