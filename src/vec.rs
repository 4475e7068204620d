use vstd::prelude::*;

use crate::common::Error;

verus! {

/// The serialized form of a vector: its elements in index order.
pub struct VectorRecord {
    pub vec: Vec<u64>,
}

/// An owning column vector of IEEE-754 binary64 values, each held as its bit
/// pattern.
pub struct Vector {
    elems: Vec<u64>,
}

impl Vector {
    /// The elements in index order.
    pub closed spec fn view(self) -> Seq<u64> {
        self.elems@
    }

    /// The length fits the size type of the library.
    pub open spec fn wf(self) -> bool {
        self@.len() <= u32::MAX
    }

    /// Creates a vector of `n` elements, all `+0.0`.
    pub fn new(n: u32) -> (r: Vector)
        ensures
            r.wf(),
            r@.len() == n,
            forall|k: int| 0 <= k < n ==> r@[k] == 0,
    {
        let mut elems: Vec<u64> = Vec::new();
        let mut k: u32 = 0;
        while k < n
            invariant
                k <= n,
                elems@.len() == k,
                forall|t: int| 0 <= t < k ==> elems@[t] == 0,
            decreases n - k,
        {
            elems.push(0);
            k = k + 1;
        }
        Vector { elems }
    }

    /// Takes `v` as the storage of a vector.
    pub fn new_from(v: Vec<u64>) -> (r: Vector)
        requires
            v@.len() <= u32::MAX,
        ensures
            r.wf(),
            r@ == v@,
    {
        Vector { elems: v }
    }

    /// The number of elements.
    pub fn size(&self) -> (r: u32)
        requires
            self.wf(),
        ensures
            r == self@.len(),
    {
        self.elems.len() as u32
    }

    /// Element `index`.
    pub fn get(&self, index: u32) -> (r: u64)
        requires
            index < self@.len(),
        ensures
            r == self@[index as int],
    {
        self.elems[index as usize]
    }

    /// Sets element `index` to `value`.
    pub fn set(&mut self, index: u32, value: u64)
        requires
            index < old(self)@.len(),
        ensures
            final(self)@ == old(self)@.update(index as int, value),
    {
        self.elems.set(index as usize, value);
    }

    /// Copies every element into `dst`, which must have the same length;
    /// otherwise `ESize`, and `dst` is unchanged.
    pub fn copy_to(&self, dst: &mut Vector) -> (r: Result<(), Error>)
        ensures
            r == if self@.len() == old(dst)@.len() {
                Ok::<(), Error>(())
            } else {
                Err(Error::ESize)
            },
            r.is_ok() ==> final(dst)@ == self@,
            r.is_err() ==> final(dst)@ == old(dst)@,
    {
        if self.elems.len() != dst.elems.len() {
            return Err(Error::ESize);
        }
        let n = self.elems.len();
        let mut k: usize = 0;
        while k < n
            invariant
                k <= n,
                n == self@.len(),
                dst@.len() == n,
                forall|t: int| 0 <= t < k ==> dst@[t] == self@[t],
            decreases n - k,
        {
            let v = self.elems[k];
            dst.elems.set(k, v);
            k = k + 1;
        }
        assert(dst@ =~= self@);
        Ok(())
    }

    /// The elements, for handing to a kernel.
    pub fn as_slice(&self) -> (r: &[u64])
        ensures
            r@ == self@,
    {
        self.elems.as_slice()
    }

    /// The elements, for a kernel to write into.
    pub fn as_mut_slice(&mut self) -> (r: &mut [u64])
        ensures
            r@ == old(self)@,
            final(r)@ == final(self)@,
    {
        self.elems.as_mut_slice()
    }

    /// The serialized form.
    pub fn to_record(&self) -> (r: VectorRecord)
        ensures
            r.vec@ == self@,
    {
        let vec = self.elems.clone();
        assert(vec@ =~= self.elems@);
        VectorRecord { vec }
    }

    /// The owning vector of a serialized form.
    pub fn from_record(rec: VectorRecord) -> (r: Vector)
        requires
            rec.vec@.len() <= u32::MAX,
        ensures
            r.wf(),
            r@ == rec.vec@,
    {
        Vector::new_from(rec.vec)
    }

    /// An iterator over the `(index, value)` pairs in index order.
    pub fn iter(&self) -> (r: VectorIterator<'_>)
        requires
            self.wf(),
        ensures
            r.wf(),
            r.source() == *self,
            r.position() == 0,
    {
        VectorIterator { source: self, index: 0, size: self.elems.len() as u32 }
    }
}

impl Clone for Vector {
    /// A new owning vector with the same elements.
    fn clone(&self) -> (r: Vector)
        ensures
            r@ == self@,
    {
        let elems = self.elems.clone();
        assert(elems@ =~= self.elems@);
        Vector { elems }
    }
}

/// Iteration over the `(index, value)` pairs of a vector.
pub struct VectorIterator<'a> {
    source: &'a Vector,
    index: u32,
    size: u32,
}

impl<'a> VectorIterator<'a> {
    pub closed spec fn source(self) -> Vector {
        *self.source
    }

    /// How many pairs have been given.
    pub closed spec fn position(self) -> nat {
        self.index as nat
    }

    pub closed spec fn wf(self) -> bool {
        &&& self.size == self.source@.len()
        &&& self.index <= self.size
    }

    /// The next pair, or `None` once every element has been given.
    pub fn next(&mut self) -> (r: Option<(u32, u64)>)
        requires
            old(self).wf(),
        ensures
            final(self).wf(),
            final(self).source() == old(self).source(),
            old(self).position() < old(self).source()@.len() ==> {
                &&& final(self).position() == old(self).position() + 1
                &&& r == Some(
                    (old(self).position() as u32, old(self).source()@[old(self).position() as int]),
                )
            },
            old(self).position() >= old(self).source()@.len() ==> {
                &&& final(self).position() == old(self).position()
                &&& r.is_none()
            },
    {
        if self.index >= self.size {
            return None;
        }
        let i = self.index;
        let v = self.source.elems[i as usize];
        self.index = i + 1;
        Some((i, v))
    }
}

} // verus!
