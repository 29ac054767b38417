use vstd::prelude::*;
use vstd::slice::slice_subrange;

use crate::byte_vec::{append_bytes, vec_shrink_to_fit};
use crate::tcp_write_buffer::TcpWriteBuffer;

verus! {

/// Outgoing bytes of one send round: a reusable buffer of fixed capacity,
/// then an overflow buffer for whatever did not fit, sent in slices.
pub struct TcpBufferChunk {
    reusable_data_is_sent: bool,
    reusable_buffer: Vec<u8>,
    pos_to_send: usize,
    additional_buffer: Vec<u8>,
    max_size: usize,
}

impl TcpBufferChunk {
    pub closed spec fn reusable(&self) -> Seq<u8> {
        self.reusable_buffer@
    }

    pub closed spec fn additional(&self) -> Seq<u8> {
        self.additional_buffer@
    }

    pub closed spec fn reusable_sent(&self) -> bool {
        self.reusable_data_is_sent
    }

    pub closed spec fn sent_position(&self) -> nat {
        self.pos_to_send as nat
    }

    /// The capacity of the reusable buffer.
    pub closed spec fn capacity_of(&self) -> nat {
        self.max_size as nat
    }

    /// Everything pushed since the chunk was created or reset.
    pub open spec fn contents(&self) -> Seq<u8> {
        self.reusable() + self.additional()
    }

    /// The bytes that the coming calls of `get_next_slice_to_send` hand out.
    pub open spec fn remaining(&self) -> Seq<u8> {
        (if self.reusable_sent() {
            Seq::<u8>::empty()
        } else {
            self.reusable()
        }) + self.additional().skip(self.sent_position() as int)
    }

    /// Nothing was handed out for sending yet.
    pub open spec fn unsent(&self) -> bool {
        !self.reusable_sent() && self.sent_position() == 0
    }

    /// The reusable buffer never exceeds its capacity, the overflow buffer is
    /// used only once it is full, and sending never passes the end.
    pub open spec fn wf(&self) -> bool {
        &&& self.reusable().len() <= self.capacity_of()
        &&& self.additional().len() > 0 ==> self.reusable().len() == self.capacity_of()
        &&& self.sent_position() <= self.additional().len()
    }

    pub fn new(max_size: usize) -> (result: Self)
        ensures
            result.wf(),
            result.capacity_of() == max_size,
            result.contents() == Seq::<u8>::empty(),
            result.unsent(),
    {
        let result = Self {
            reusable_buffer: Vec::with_capacity(max_size),
            reusable_data_is_sent: false,
            pos_to_send: 0,
            additional_buffer: Vec::new(),
            max_size,
        };
        assert(result.contents() =~= Seq::<u8>::empty());
        result
    }

    pub fn push_byte(&mut self, b: u8)
        requires
            old(self).wf(),
        ensures
            final(self).wf(),
            final(self).contents() == old(self).contents().push(b),
            final(self).capacity_of() == old(self).capacity_of(),
            final(self).reusable_sent() == old(self).reusable_sent(),
            final(self).sent_position() == old(self).sent_position(),
    {
        if self.reusable_buffer.len() >= self.max_size {
            self.additional_buffer.push(b);
            assert(self.contents() =~= old(self).contents().push(b));
            return;
        }
        self.reusable_buffer.push(b);
        assert(self.contents() =~= old(self).contents().push(b));
    }

    pub fn push_slice(&mut self, new_data: &[u8])
        requires
            old(self).wf(),
        ensures
            final(self).wf(),
            final(self).contents() == old(self).contents() + new_data@,
            final(self).capacity_of() == old(self).capacity_of(),
            final(self).reusable_sent() == old(self).reusable_sent(),
            final(self).sent_position() == old(self).sent_position(),
    {
        if self.reusable_buffer.len() >= self.max_size {
            append_bytes(&mut self.additional_buffer, new_data);
            assert(self.contents() =~= old(self).contents() + new_data@);
            return;
        }
        let size_to_upload = self.max_size - self.reusable_buffer.len();
        if new_data.len() <= size_to_upload {
            append_bytes(&mut self.reusable_buffer, new_data);
            assert(self.contents() =~= old(self).contents() + new_data@);
            return;
        }
        append_bytes(&mut self.reusable_buffer, slice_subrange(new_data, 0, size_to_upload));
        append_bytes(&mut self.additional_buffer, slice_subrange(new_data, size_to_upload, new_data.len()));
        assert(self.contents() =~= old(self).contents() + new_data@);
    }

    pub fn has_buffer_to_fill(&self) -> (r: bool)
        ensures
            r == (self.reusable().len() < self.capacity_of()),
    {
        self.reusable_buffer.len() < self.max_size
    }

    pub fn len(&self) -> (r: usize)
        requires
            self.contents().len() <= usize::MAX,
        ensures
            r == self.contents().len(),
    {
        self.reusable_buffer.len() + self.additional_buffer.len()
    }

    /// The bytes held in the reusable buffer.
    pub fn reusable_buffer(&self) -> (r: &[u8])
        ensures
            r@ == self.reusable(),
    {
        self.reusable_buffer.as_slice()
    }

    /// The bytes that overflowed the reusable buffer.
    pub fn additional_buffer(&self) -> (r: &[u8])
        ensures
            r@ == self.additional(),
    {
        self.additional_buffer.as_slice()
    }

    pub fn capacity(&self) -> (r: usize)
        ensures
            r == self.capacity_of(),
    {
        self.max_size
    }

    /// Empties the chunk for another round.
    pub fn reset(&mut self)
        ensures
            final(self).wf(),
            final(self).contents() == Seq::<u8>::empty(),
            final(self).unsent(),
            final(self).capacity_of() == old(self).capacity_of(),
    {
        self.pos_to_send = 0;
        self.additional_buffer.clear();
        self.reusable_buffer.clear();
        self.reusable_data_is_sent = false;
        vec_shrink_to_fit(&mut self.additional_buffer);
        assert(self.contents() =~= Seq::<u8>::empty());
    }

    /// The next slice to send: the whole reusable buffer first, then the
    /// overflow buffer in slices of at most `max_buffer_size` bytes.
    pub fn get_next_slice_to_send(&mut self, max_buffer_size: usize) -> (result: Option<&[u8]>)
        requires
            old(self).wf(),
        ensures
            final(self).wf(),
            final(self).contents() == old(self).contents(),
            final(self).capacity_of() == old(self).capacity_of(),
            result is None <==> old(self).reusable_sent() && old(self).remaining().len() == 0,
            result is None ==> *final(self) == *old(self),
            result matches Some(slice) ==> {
                &&& old(self).remaining() == slice@ + final(self).remaining()
                &&& final(self).reusable_sent()
                &&& !old(self).reusable_sent() ==> slice@ == old(self).reusable()
                &&& old(self).reusable_sent() ==> slice@.len() == if old(self).remaining().len() < max_buffer_size {
                    old(self).remaining().len()
                } else {
                    max_buffer_size as nat
                }
            },
    {
        if !self.reusable_data_is_sent {
            self.reusable_data_is_sent = true;
            assert(old(self).remaining() =~= self.reusable_buffer@ + self.remaining());
            return Some(self.reusable_buffer.as_slice());
        }
        if self.pos_to_send >= self.additional_buffer.len() {
            return None;
        }
        let remain_to_send = self.additional_buffer.len() - self.pos_to_send;
        let size_to_send = if remain_to_send > max_buffer_size {
            max_buffer_size
        } else {
            remain_to_send
        };
        let start = self.pos_to_send;
        self.pos_to_send = self.pos_to_send + size_to_send;
        let slice_to_send = slice_subrange(self.additional_buffer.as_slice(), start, start + size_to_send);
        assert(old(self).remaining() =~= slice_to_send@ + self.remaining());
        Some(slice_to_send)
    }
}

impl TcpWriteBuffer for TcpBufferChunk {
    open spec fn written(&self) -> Seq<u8> {
        self.contents()
    }

    open spec fn writable(&self) -> bool {
        self.wf()
    }

    fn write_byte(&mut self, b: u8) {
        self.push_byte(b);
    }

    fn write_slice(&mut self, slice: &[u8]) {
        self.push_slice(slice)
    }
}

/// A chunk not yet handed out for sending sends exactly what was pushed into
/// it, in order, slice after slice.
pub proof fn law_unsent_chunk_sends_its_contents(chunk: TcpBufferChunk)
    requires
        chunk.wf(),
        chunk.unsent(),
    ensures
        chunk.remaining() == chunk.contents(),
{
    assert(chunk.remaining() =~= chunk.contents());
}

} // verus!
