use vstd::prelude::*;

verus! {

/// An owning table of pivot indices, as pivoted factorizations record them
/// (one-based).
pub struct Pivot {
    indexes: Vec<i32>,
}

impl Pivot {
    /// The entries in order.
    pub closed spec fn view(self) -> Seq<i32> {
        self.indexes@
    }

    /// Creates a table of `size` entries, all zero.
    pub fn new(size: u32) -> (r: Pivot)
        ensures
            r@.len() == size,
            forall|k: int| 0 <= k < size ==> r@[k] == 0,
    {
        let mut indexes: Vec<i32> = Vec::new();
        let mut k: u32 = 0;
        while k < size
            invariant
                k <= size,
                indexes@.len() == k,
                forall|t: int| 0 <= t < k ==> indexes@[t] == 0,
            decreases size - k,
        {
            indexes.push(0);
            k = k + 1;
        }
        Pivot { indexes }
    }

    /// The number of entries.
    pub fn size(&self) -> (r: usize)
        ensures
            r == self@.len(),
    {
        self.indexes.len()
    }

    /// Entry `k`.
    pub fn get(&self, k: usize) -> (r: i32)
        requires
            k < self@.len(),
        ensures
            r == self@[k as int],
    {
        self.indexes[k]
    }

    /// Sets entry `k` to `value`.
    pub fn set(&mut self, k: usize, value: i32)
        requires
            k < old(self)@.len(),
        ensures
            final(self)@ == old(self)@.update(k as int, value),
    {
        self.indexes.set(k, value);
    }

    /// The entries, for handing to a kernel.
    pub fn as_slice(&self) -> (r: &[i32])
        ensures
            r@ == self@,
    {
        self.indexes.as_slice()
    }

    /// The entries, for a kernel to write into.
    pub fn as_mut_slice(&mut self) -> (r: &mut [i32])
        ensures
            r@ == old(self)@,
            final(r)@ == final(self)@,
    {
        self.indexes.as_mut_slice()
    }
}

} // verus!
