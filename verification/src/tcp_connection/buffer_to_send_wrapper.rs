use vstd::prelude::*;

use super::tcp_buffer_to_send::{TcpBufferChunk, TcpBufferToSend};

verus! {

/// The outgoing side of a connection: bytes queue up while it is open; once
/// it is closed nothing is queued any more.
pub struct BufferToSendWrapper {
    buffer_to_send: Option<TcpBufferToSend>,
}

impl BufferToSendWrapper {
    /// The queue, while the connection is open.
    pub closed spec fn queue(&self) -> Option<TcpBufferToSend> {
        self.buffer_to_send
    }

    pub open spec fn is_open_spec(&self) -> bool {
        self.queue() is Some
    }

    /// The bytes waiting to be sent; none once closed.
    pub open spec fn pending(&self) -> Seq<u8> {
        match self.queue() {
            Some(queue) => queue.contents(),
            None => Seq::<u8>::empty(),
        }
    }

    pub open spec fn wf(&self) -> bool {
        self.queue() matches Some(queue) ==> queue.wf()
    }

    /// An open connection with nothing queued, whose chunks hold
    /// `chunk_capacity` bytes before they overflow.
    pub fn new(chunk_capacity: usize) -> (result: Self)
        ensures
            result.wf(),
            result.is_open_spec(),
            result.pending() == Seq::<u8>::empty(),
            result.queue()->0.chunk_capacity_of() == chunk_capacity,
    {
        Self { buffer_to_send: Some(TcpBufferToSend::new(chunk_capacity)) }
    }

    pub fn is_open(&self) -> (r: bool)
        ensures
            r == self.is_open_spec(),
    {
        self.buffer_to_send.is_some()
    }

    /// Lets `fill` write the bytes of one or more outgoing contracts and
    /// queues them; returns how many were queued. Once the connection is
    /// closed nothing is written or queued and the result is 0.
    pub fn push_payload<F: Fn() -> Vec<u8>>(&mut self, fill: F) -> (queued: usize)
        requires
            old(self).wf(),
            old(self).is_open_spec() ==> call_requires(fill, ()),
        ensures
            final(self).wf(),
            final(self).is_open_spec() == old(self).is_open_spec(),
            !old(self).is_open_spec() ==> queued == 0 && final(self).pending() == old(self).pending(),
            old(self).is_open_spec() ==> exists|written: Vec<u8>|
                call_ensures(fill, (), written) && queued == written@.len() && final(self).pending()
                    == old(self).pending() + written@,
    {
        match self.buffer_to_send.as_mut() {
            Some(buffer_to_send) => buffer_to_send.add_payload_directly_to_chunk(fill),
            None => 0,
        }
    }

    /// Queues `payload`; returns how many bytes were queued, which is 0 once
    /// the connection is closed.
    pub fn push_bytes(&mut self, payload: &[u8]) -> (queued: usize)
        requires
            old(self).wf(),
        ensures
            final(self).wf(),
            final(self).is_open_spec() == old(self).is_open_spec(),
            !old(self).is_open_spec() ==> queued == 0 && final(self).pending() == old(self).pending(),
            old(self).is_open_spec() ==> queued == payload@.len() && final(self).pending()
                == old(self).pending() + payload@,
    {
        match self.buffer_to_send.as_mut() {
            Some(buffer_to_send) => {
                buffer_to_send.add_payload(payload);
                payload.len()
            },
            None => 0,
        }
    }

    /// Takes everything queued out, as one chunk to send.
    pub fn get_payload(&mut self) -> (result: Option<TcpBufferChunk>)
        requires
            old(self).wf(),
        ensures
            final(self).wf(),
            final(self).is_open_spec() == old(self).is_open_spec(),
            final(self).pending() == Seq::<u8>::empty(),
            result matches Some(chunk) ==> chunk.wf() && chunk.remaining() == old(self).pending(),
            result is None ==> old(self).pending() == Seq::<u8>::empty(),
    {
        match self.buffer_to_send.as_mut() {
            Some(buffer_to_send) => buffer_to_send.get_payload(),
            None => None,
        }
    }

    /// Hands a sent chunk back for reuse, while the connection is open: it is
    /// emptied and queued behind the others while fewer than two are queued.
    pub fn reuse_payload(&mut self, payload: TcpBufferChunk)
        requires
            old(self).wf(),
        ensures
            final(self).wf(),
            final(self).is_open_spec() == old(self).is_open_spec(),
            final(self).pending() == old(self).pending(),
            old(self).queue() matches Some(queue) ==> {
                &&& final(self).queue() matches Some(new_queue)
                &&& new_queue.chunk_capacity_of() == queue.chunk_capacity_of()
                &&& queue.chunks().len() < 2 ==> {
                    &&& new_queue.chunks().len() == queue.chunks().len() + 1
                    &&& new_queue.chunks().drop_last() == queue.chunks()
                    &&& new_queue.chunks().last().contents() == Seq::<u8>::empty()
                    &&& new_queue.chunks().last().unsent()
                    &&& new_queue.chunks().last().capacity_of() == payload.capacity_of()
                }
                &&& queue.chunks().len() >= 2 ==> new_queue.chunks() == queue.chunks()
            },
    {
        if let Some(buffer_to_send) = self.buffer_to_send.as_mut() {
            buffer_to_send.reuse_payload(payload);
        }
    }

    /// Closes the connection's outgoing side, dropping what is queued.
    pub fn close(&mut self)
        ensures
            final(self).wf(),
            !final(self).is_open_spec(),
            final(self).pending() == Seq::<u8>::empty(),
    {
        self.buffer_to_send = None;
    }
}

} // verus!
