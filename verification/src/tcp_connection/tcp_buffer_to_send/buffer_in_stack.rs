use vstd::prelude::*;
use vstd::slice::slice_subrange;

verus! {

pub const REUSABLE_BUFFER_CAPACITY: usize = 65535;

/// A fixed-capacity byte buffer that takes what fits and hands back the rest.
pub struct BufferInStack {
    len: usize,
    data: Vec<u8>,
}

impl BufferInStack {
    pub closed spec fn bytes(&self) -> Seq<u8> {
        self.data@
    }

    pub closed spec fn used(&self) -> nat {
        self.len as nat
    }

    /// The bytes held.
    pub open spec fn contents(&self) -> Seq<u8> {
        self.bytes().take(self.used() as int)
    }

    pub open spec fn wf(&self) -> bool {
        &&& self.bytes().len() == REUSABLE_BUFFER_CAPACITY
        &&& self.used() <= REUSABLE_BUFFER_CAPACITY
    }

    pub fn new() -> (result: Self)
        ensures
            result.wf(),
            result.contents() == Seq::<u8>::empty(),
    {
        let mut data: Vec<u8> = Vec::new();
        data.resize(REUSABLE_BUFFER_CAPACITY, 0);
        let result = Self { data, len: 0 };
        assert(result.contents() =~= Seq::<u8>::empty());
        result
    }

    /// Appends `b` unless the buffer is full; says whether it did.
    pub fn push_byte(&mut self, b: u8) -> (pushed: bool)
        requires
            old(self).wf(),
        ensures
            final(self).wf(),
            pushed == (old(self).used() < REUSABLE_BUFFER_CAPACITY),
            pushed ==> final(self).contents() == old(self).contents().push(b),
            !pushed ==> *final(self) == *old(self),
    {
        if self.len == REUSABLE_BUFFER_CAPACITY {
            return false;
        }
        self.data.set(self.len, b);
        self.len = self.len + 1;
        assert(self.contents() =~= old(self).contents().push(b));
        true
    }

    /// Appends as much of `slice` as fits and returns what did not fit, or
    /// `None` when there was room to spare.
    pub fn push_as_much_as_possible<'s>(&mut self, slice: &'s [u8]) -> (rest: Option<&'s [u8]>)
        requires
            old(self).wf(),
        ensures
            final(self).wf(),
            ({
                let room = REUSABLE_BUFFER_CAPACITY - old(self).used();
                let taken = if room < slice@.len() { room } else { slice@.len() as int };
                &&& final(self).contents() == old(self).contents() + slice@.take(taken)
                &&& rest is None <==> room > slice@.len()
                &&& rest matches Some(r) ==> r@ == slice@.skip(taken)
            }),
    {
        if self.len == REUSABLE_BUFFER_CAPACITY {
            assert(slice@.take(0) =~= Seq::<u8>::empty());
            assert(slice@.skip(0) =~= slice@);
            assert(self.contents() =~= old(self).contents() + slice@.take(0));
            return Some(slice);
        }
        let remaining_capacity = REUSABLE_BUFFER_CAPACITY - self.len;
        let count = if remaining_capacity > slice.len() {
            slice.len()
        } else {
            remaining_capacity
        };
        let start = self.len;
        let mut i: usize = 0;
        while i < count
            invariant
                self.wf(),
                self.len == start,
                count <= slice@.len(),
                start + count <= REUSABLE_BUFFER_CAPACITY,
                i <= count,
                forall|k: int| 0 <= k < start ==> self.bytes()[k] == old(self).bytes()[k],
                forall|k: int| 0 <= k < i ==> self.bytes()[start + k] == slice@[k],
            decreases count - i,
        {
            self.data.set(start + i, slice[i]);
            i = i + 1;
        }
        self.len = start + count;
        assert(self.contents() =~= old(self).contents() + slice@.take(count as int));
        if remaining_capacity > slice.len() {
            return None;
        }
        Some(slice_subrange(slice, remaining_capacity, slice.len()))
    }

    pub fn clear(&mut self)
        requires
            old(self).wf(),
        ensures
            final(self).wf(),
            final(self).contents() == Seq::<u8>::empty(),
    {
        self.len = 0;
        assert(self.contents() =~= Seq::<u8>::empty());
    }

    pub fn len(&self) -> (r: usize)
        requires
            self.wf(),
        ensures
            r == self.contents().len(),
    {
        self.len
    }

    pub fn as_slice(&self) -> (r: &[u8])
        requires
            self.wf(),
        ensures
            r@ == self.contents(),
    {
        slice_subrange(self.data.as_slice(), 0, self.len)
    }
}

} // verus!
