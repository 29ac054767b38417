use std::collections::VecDeque;
use vstd::prelude::*;

use super::buffer_in_stack::REUSABLE_BUFFER_CAPACITY;
use super::tcp_buffer_chunk::TcpBufferChunk;

verus! {

/// The queue of chunks waiting to be sent. New bytes always go to the chunk
/// at the front; the chunks behind it are empty ones kept for reuse.
pub struct TcpBufferToSend {
    payloads: VecDeque<TcpBufferChunk>,
    chunk_capacity: usize,
}

impl TcpBufferToSend {
    pub closed spec fn chunks(&self) -> Seq<TcpBufferChunk> {
        self.payloads@
    }

    /// The capacity of the reusable buffer of each new chunk.
    pub closed spec fn chunk_capacity_of(&self) -> nat {
        self.chunk_capacity as nat
    }

    /// The bytes waiting to be sent, in order.
    pub open spec fn contents(&self) -> Seq<u8> {
        if self.chunks().len() == 0 {
            Seq::<u8>::empty()
        } else {
            self.chunks()[0].contents()
        }
    }

    pub open spec fn wf(&self) -> bool {
        forall|i: int|
            0 <= i < self.chunks().len() ==> {
                &&& #[trigger] self.chunks()[i].wf()
                &&& self.chunks()[i].unsent()
                &&& i > 0 ==> self.chunks()[i].contents().len() == 0
            }
    }

    /// An empty queue whose chunks hold `chunk_capacity` bytes before they
    /// overflow.
    pub fn new(chunk_capacity: usize) -> (result: Self)
        ensures
            result.wf(),
            result.chunks().len() == 0,
            result.chunk_capacity_of() == chunk_capacity,
    {
        Self { payloads: VecDeque::new(), chunk_capacity }
    }

    /// Takes the front chunk out, or a new one when there is none.
    fn take_payload_to_append(&mut self) -> (chunk: TcpBufferChunk)
        requires
            old(self).wf(),
        ensures
            chunk.wf(),
            chunk.unsent(),
            chunk.contents() == old(self).contents(),
            final(self).wf(),
            final(self).chunk_capacity_of() == old(self).chunk_capacity_of(),
            final(self).contents().len() == 0,
            old(self).chunks().len() == 0 ==> final(self).chunks().len() == 0,
            old(self).chunks().len() > 0 ==> final(self).chunks() == old(self).chunks().drop_first(),
    {
        if self.payloads.len() == 0 {
            return TcpBufferChunk::new(self.chunk_capacity);
        }
        let ghost c = self.chunks();
        assert(c[0].wf());
        assert(c.len() > 1 ==> c[1].wf());
        let chunk = self.payloads.pop_front().unwrap();
        assert(self.chunks() =~= c.drop_first());
        assert forall|i: int| 0 <= i < self.chunks().len() implies {
            &&& #[trigger] self.chunks()[i].wf()
            &&& self.chunks()[i].unsent()
            &&& i > 0 ==> self.chunks()[i].contents().len() == 0
        } by {
            assert(self.chunks()[i] == c[i + 1]);
        }
        chunk
    }

    /// Puts a chunk back at the front.
    fn put_back_payload(&mut self, chunk: TcpBufferChunk)
        requires
            old(self).wf(),
            old(self).contents().len() == 0,
            chunk.wf(),
            chunk.unsent(),
        ensures
            final(self).wf(),
            final(self).chunk_capacity_of() == old(self).chunk_capacity_of(),
            final(self).contents() == chunk.contents(),
            final(self).chunks() == seq![chunk] + old(self).chunks(),
    {
        let ghost c = self.chunks();
        self.payloads.push_front(chunk);
        assert forall|i: int| 0 <= i < self.chunks().len() implies {
            &&& #[trigger] self.chunks()[i].wf()
            &&& self.chunks()[i].unsent()
            &&& i > 0 ==> self.chunks()[i].contents().len() == 0
        } by {
            if i > 0 {
                assert(self.chunks()[i] == c[i - 1]);
            }
        }
    }

    /// Appends `payload` to the bytes waiting to be sent.
    pub fn add_payload(&mut self, payload: &[u8])
        requires
            old(self).wf(),
        ensures
            final(self).wf(),
            final(self).chunk_capacity_of() == old(self).chunk_capacity_of(),
            final(self).contents() == old(self).contents() + payload@,
    {
        let mut chunk = self.take_payload_to_append();
        chunk.push_slice(payload);
        self.put_back_payload(chunk);
    }

    /// Lets `fill` write the bytes of one or more outgoing contracts, appends
    /// what it wrote to the bytes waiting to be sent, and returns how many
    /// there were.
    pub fn add_payload_directly_to_chunk<F: Fn() -> Vec<u8>>(&mut self, fill: F) -> (added: usize)
        requires
            old(self).wf(),
            call_requires(fill, ()),
        ensures
            final(self).wf(),
            final(self).chunk_capacity_of() == old(self).chunk_capacity_of(),
            exists|written: Vec<u8>|
                call_ensures(fill, (), written) && added == written@.len() && final(self).contents()
                    == old(self).contents() + written@,
    {
        let written = fill();
        self.add_payload(written.as_slice());
        written.len()
    }

    /// Takes the front chunk, with every waiting byte, out of the queue.
    pub fn get_payload(&mut self) -> (result: Option<TcpBufferChunk>)
        requires
            old(self).wf(),
        ensures
            final(self).wf(),
            final(self).chunk_capacity_of() == old(self).chunk_capacity_of(),
            final(self).contents().len() == 0,
            old(self).chunks().len() == 0 <==> result is None,
            result matches Some(chunk) ==> {
                &&& chunk.wf()
                &&& chunk.unsent()
                &&& chunk.contents() == old(self).contents()
                &&& chunk.remaining() == old(self).contents()
                &&& final(self).chunks() == old(self).chunks().drop_first()
            },
    {
        if self.payloads.len() == 0 {
            return None;
        }
        let chunk = self.take_payload_to_append();
        assert(chunk.remaining() =~= chunk.contents());
        Some(chunk)
    }

    /// The number of bytes waiting to be sent.
    pub fn get_size(&self) -> (size: usize)
        requires
            self.wf(),
            self.contents().len() <= usize::MAX,
        ensures
            size == self.contents().len(),
    {
        let mut result: usize = 0;
        let mut i: usize = 0;
        while i < self.payloads.len()
            invariant
                self.wf(),
                self.contents().len() <= usize::MAX,
                i <= self.chunks().len(),
                i > 0 ==> result == self.contents().len(),
                i == 0 ==> result == 0,
            decreases self.chunks().len() - i,
        {
            assert(self.chunks()[i as int].wf());
            result = result + self.payloads[i].len();
            i = i + 1;
        }
        result
    }

    /// Keeps an emptied chunk for the next round while fewer than two are
    /// queued.
    pub fn reuse_payload(&mut self, payload: TcpBufferChunk)
        requires
            old(self).wf(),
        ensures
            final(self).wf(),
            final(self).chunk_capacity_of() == old(self).chunk_capacity_of(),
            final(self).contents() == old(self).contents(),
            old(self).chunks().len() < 2 ==> {
                &&& final(self).chunks().len() == old(self).chunks().len() + 1
                &&& final(self).chunks().drop_last() == old(self).chunks()
                &&& final(self).chunks().last().contents() == Seq::<u8>::empty()
                &&& final(self).chunks().last().unsent()
                &&& final(self).chunks().last().capacity_of() == payload.capacity_of()
            },
            old(self).chunks().len() >= 2 ==> final(self).chunks() == old(self).chunks(),
    {
        let mut payload = payload;
        if self.payloads.len() < 2 {
            payload.reset();
            let ghost c = self.chunks();
            self.payloads.push_back(payload);
            assert forall|i: int| 0 <= i < self.chunks().len() implies {
                &&& #[trigger] self.chunks()[i].wf()
                &&& self.chunks()[i].unsent()
                &&& i > 0 ==> self.chunks()[i].contents().len() == 0
            } by {
                if i < c.len() {
                    assert(self.chunks()[i] == c[i]);
                    assert(c[i].wf());
                } else {
                    assert(self.chunks()[i] == payload);
                }
            }
            assert(self.chunks().drop_last() =~= c);
        }
    }
}

impl Default for TcpBufferToSend {
    fn default() -> (result: Self)
        ensures
            result.wf(),
            result.chunks().len() == 0,
            result.chunk_capacity_of() == REUSABLE_BUFFER_CAPACITY,
    {
        Self::new(REUSABLE_BUFFER_CAPACITY)
    }
}

} // verus!
