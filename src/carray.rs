//! Walks over arrays of the engine's metadata in order.
use vstd::prelude::*;

verus! {

/// Iterates through the first `count` elements of an array.
pub struct CArrayIterator<'a, T> {
    items: &'a [T],
    /// Position of the next element
    pos: usize,
    /// Number of elements to visit in all
    count: usize,
}

impl<'a, T> CArrayIterator<'a, T> {
    /// The elements not visited yet, in order.
    pub closed spec fn remaining(&self) -> Seq<T> {
        self.items@.subrange(self.pos as int, self.count as int)
    }

    pub closed spec fn wf(&self) -> bool {
        self.pos <= self.count <= self.items@.len()
    }

    pub fn new(items: &'a [T], count: usize) -> (r: CArrayIterator<'a, T>)
        requires
            count <= items@.len(),
        ensures
            r.wf(),
            r.remaining() == items@.subrange(0, count as int),
    {
        CArrayIterator { items, pos: 0, count }
    }

    /// The next element, if one is left.
    pub fn next(&mut self) -> (r: Option<&'a T>)
        requires
            old(self).wf(),
        ensures
            final(self).wf(),
            old(self).remaining().len() == 0 ==> r is None && final(self).remaining() == old(self).remaining(),
            old(self).remaining().len() > 0 ==> r is Some && *r->0 == old(self).remaining()[0]
                && final(self).remaining() == old(self).remaining().drop_first(),
    {
        if self.pos == self.count {
            None
        } else {
            let items: &'a [T] = self.items;
            let item: &'a T = &items[self.pos];
            self.pos = self.pos + 1;
            proof {
                assert(self.remaining() =~= old(self).remaining().drop_first());
            }
            Some(item)
        }
    }
}

/// Iterates through the first `count` elements of two arrays side by side.
pub struct CTwinArrayIterator<'a, T1, T2> {
    first: &'a [T1],
    second: &'a [T2],
    /// Position of the next pair
    pos: usize,
    /// Number of pairs to visit in all
    count: usize,
}

impl<'a, T1, T2> CTwinArrayIterator<'a, T1, T2> {
    /// The pairs not visited yet, in order.
    pub closed spec fn remaining(&self) -> Seq<(T1, T2)> {
        Seq::new((self.count - self.pos) as nat, |i: int| (self.first@[self.pos + i], self.second@[self.pos + i]))
    }

    pub closed spec fn wf(&self) -> bool {
        &&& self.pos <= self.count
        &&& self.count <= self.first@.len()
        &&& self.count <= self.second@.len()
    }

    pub fn new(count: usize, first: &'a [T1], second: &'a [T2]) -> (r: CTwinArrayIterator<'a, T1, T2>)
        requires
            count <= first@.len(),
            count <= second@.len(),
        ensures
            r.wf(),
            r.remaining() == Seq::new(count as nat, |i: int| (first@[i], second@[i])),
    {
        let r = CTwinArrayIterator { first, second, pos: 0, count };
        assert(r.remaining() =~= Seq::new(count as nat, |i: int| (first@[i], second@[i])));
        r
    }

    /// The next pair, if one is left.
    pub fn next(&mut self) -> (r: Option<(&'a T1, &'a T2)>)
        requires
            old(self).wf(),
        ensures
            final(self).wf(),
            old(self).remaining().len() == 0 ==> r is None && final(self).remaining() == old(self).remaining(),
            old(self).remaining().len() > 0 ==> (r matches Some(p) && *p.0 == old(self).remaining()[0].0
                && *p.1 == old(self).remaining()[0].1)
                && final(self).remaining() == old(self).remaining().drop_first(),
    {
        if self.pos == self.count {
            None
        } else {
            let first: &'a [T1] = self.first;
            let second: &'a [T2] = self.second;
            let a: &'a T1 = &first[self.pos];
            let b: &'a T2 = &second[self.pos];
            self.pos = self.pos + 1;
            proof {
                assert(self.remaining() =~= old(self).remaining().drop_first());
            }
            Some((a, b))
        }
    }
}

} // verus!
