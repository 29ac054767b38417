use vstd::prelude::*;

use crate::byte_vec::vec_tail_mut;

verus! {

pub const READ_BUFFER_SIZE: usize = 16384;

/// The buffer that a socket reader fills from the socket and serves reads
/// from; bytes leave it in the order they came in.
pub struct MyReadBuffer {
    data: Vec<u8>,
    start_pos: usize,
    data_len: usize,
}

impl MyReadBuffer {
    pub closed spec fn bytes(&self) -> Seq<u8> {
        self.data@
    }

    pub closed spec fn start(&self) -> nat {
        self.start_pos as nat
    }

    pub closed spec fn end(&self) -> nat {
        self.data_len as nat
    }

    /// The bytes received and not read yet.
    pub open spec fn unread(&self) -> Seq<u8> {
        self.bytes().subrange(self.start() as int, self.end() as int)
    }

    pub open spec fn wf(&self) -> bool {
        &&& self.bytes().len() == READ_BUFFER_SIZE
        &&& self.start() <= self.end() <= READ_BUFFER_SIZE
        &&& self.start() == self.end() ==> self.end() == 0
    }

    pub fn new() -> (result: Self)
        ensures
            result.wf(),
            result.unread() == Seq::<u8>::empty(),
            result.end() == 0,
    {
        let mut data: Vec<u8> = Vec::new();
        data.resize(READ_BUFFER_SIZE, 0);
        let result = Self { data, start_pos: 0, data_len: 0 };
        assert(result.unread() =~= Seq::<u8>::empty());
        result
    }

    pub fn data_len_ready(&self) -> (r: usize)
        requires
            self.wf(),
        ensures
            r == self.unread().len(),
    {
        self.data_len - self.start_pos
    }

    /// Records that `size` bytes were received into the free tail.
    pub fn advance_data_len(&mut self, size: usize)
        requires
            old(self).wf(),
            old(self).end() + size <= READ_BUFFER_SIZE,
        ensures
            final(self).wf(),
            final(self).bytes() == old(self).bytes(),
            final(self).start() == old(self).start(),
            final(self).end() == old(self).end() + size,
            final(self).unread() == old(self).unread() + old(self).bytes().subrange(
                old(self).end() as int,
                old(self).end() + size,
            ),
    {
        self.data_len = self.data_len + size;
        assert(self.unread() =~= old(self).unread() + old(self).bytes().subrange(
            old(self).end() as int,
            old(self).end() + size,
        ));
    }

    /// Starts over at the front once everything was read.
    fn fix_start_pos_if_possible(&mut self)
        requires
            old(self).bytes().len() == READ_BUFFER_SIZE,
            old(self).start() <= old(self).end() <= READ_BUFFER_SIZE,
        ensures
            final(self).wf(),
            final(self).bytes() == old(self).bytes(),
            final(self).unread() == old(self).unread(),
            old(self).start() == old(self).end() ==> final(self).end() == 0,
            old(self).start() < old(self).end() ==> *final(self) == *old(self),
    {
        if self.start_pos == self.data_len {
            self.start_pos = 0;
            self.data_len = 0;
            assert(self.unread() =~= old(self).unread());
        }
    }

    /// The next unread byte, if any.
    pub fn read_byte(&mut self) -> (result: Option<u8>)
        requires
            old(self).wf(),
        ensures
            final(self).wf(),
            old(self).unread().len() == 0 ==> result is None && *final(self) == *old(self),
            old(self).unread().len() > 0 ==> result == Some(old(self).unread()[0])
                && final(self).unread() == old(self).unread().drop_first(),
    {
        if self.data_len_ready() == 0 {
            return None;
        }
        let result = self.data[self.start_pos];
        self.start_pos = self.start_pos + 1;
        assert(self.unread() =~= old(self).unread().drop_first());
        self.fix_start_pos_if_possible();
        Some(result)
    }

    /// Copies as many unread bytes as fit into the front of `target`, and
    /// returns how many.
    pub fn write_into_target(&mut self, target: &mut [u8]) -> (count: usize)
        requires
            old(self).wf(),
        ensures
            final(self).wf(),
            count == if old(self).unread().len() < old(target)@.len() {
                old(self).unread().len()
            } else {
                old(target)@.len() as nat
            },
            final(target)@ == old(self).unread().take(count as int) + old(target)@.skip(count as int),
            final(self).unread() == old(self).unread().skip(count as int),
    {
        let data_len = self.data_len_ready();
        if data_len == 0 {
            assert(old(target)@.skip(0) =~= old(target)@);
            return 0;
        }
        let result = if data_len > target.len() {
            target.len()
        } else {
            data_len
        };
        let start = self.start_pos;
        let mut i: usize = 0;
        while i < result
            invariant
                self.wf(),
                self.start_pos == start,
                self.unread() == old(self).unread(),
                result <= self.unread().len(),
                result <= target@.len() == old(target)@.len(),
                i <= result,
                forall|k: int| 0 <= k < i ==> target@[k] == old(self).unread()[k],
                forall|k: int| result <= k < target@.len() ==> target@[k] == old(target)@[k],
            decreases result - i,
        {
            let b = self.data[start + i];
            target[i] = b;
            i = i + 1;
        }
        assert(target@ =~= old(self).unread().take(result as int) + old(target)@.skip(result as int));
        self.start_pos = self.start_pos + result;
        assert(self.unread() =~= old(self).unread().skip(result as int));
        self.fix_start_pos_if_possible();
        result
    }

    /// The free tail of the buffer, to receive bytes into.
    pub fn get_buffer_to_write(&mut self) -> (tail: &mut [u8])
        requires
            old(self).wf(),
        ensures
            tail@.len() == READ_BUFFER_SIZE - old(self).end(),
            final(self).wf(),
            final(self).start() == old(self).start(),
            final(self).end() == old(self).end(),
            final(self).unread() == old(self).unread(),
            final(self).bytes().skip(old(self).end() as int) == final(tail)@,
    {
        let tail = vec_tail_mut(&mut self.data, self.data_len);
        tail
    }
}

} // verus!
