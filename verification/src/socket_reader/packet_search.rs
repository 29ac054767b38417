use vstd::prelude::*;

use super::error::ReadingTcpContractFail;
use super::read_buffer::ReadBuffer;

verus! {

/// Searches `read_buffer` for `end_marker` once its last packet is consumed:
/// `Ok(true)` when a packet that ends with the marker is ready, `Ok(false)`
/// when more bytes must be read first. A search that would start past the
/// written data is refused with `ErrorReadingSize` and leaves the buffer as
/// it is.
pub fn search_end_marker(read_buffer: &mut ReadBuffer, end_marker: &[u8]) -> (result: Result<
    bool,
    ReadingTcpContractFail,
>)
    requires
        old(read_buffer).wf(),
    ensures
        final(read_buffer).wf(),
        final(read_buffer).capacity() == old(read_buffer).capacity(),
        !old(read_buffer).packet_end_within_data() ==> {
            &&& result matches Err(ReadingTcpContractFail::ErrorReadingSize)
            &&& *final(read_buffer) == *old(read_buffer)
        },
        old(read_buffer).packet_end_within_data() ==> {
            &&& result matches Ok(found)
            &&& ReadBuffer::search_outcome(
                old(read_buffer).bytes(),
                old(read_buffer).packet_end(),
                old(read_buffer).after_packet(),
                *final(read_buffer),
                end_marker@,
                found,
            )
        },
{
    if !read_buffer.can_find_sequence() {
        return Err(ReadingTcpContractFail::ErrorReadingSize);
    }
    Ok(read_buffer.find_sequence(end_marker))
}

/// Takes in the `size` bytes that a read just wrote into the free tail of
/// `read_buffer` and searches again for `end_marker`. A read of nothing means
/// the peer disconnected; otherwise the outcome is that of
/// `search_end_marker` on the buffer with those bytes committed.
pub fn commit_read_and_search(read_buffer: &mut ReadBuffer, size: usize, end_marker: &[u8]) -> (result:
    Result<bool, ReadingTcpContractFail>)
    requires
        old(read_buffer).wf(),
        old(read_buffer).end() + size <= old(read_buffer).capacity(),
    ensures
        final(read_buffer).wf(),
        final(read_buffer).capacity() == old(read_buffer).capacity(),
        size == 0 ==> {
            &&& result matches Err(ReadingTcpContractFail::SocketDisconnected)
            &&& *final(read_buffer) == *old(read_buffer)
        },
        size > 0 && old(read_buffer).packet_end() > old(read_buffer).start() && old(
            read_buffer,
        ).packet_end() > old(read_buffer).end() + size ==> {
            &&& result matches Err(ReadingTcpContractFail::ErrorReadingSize)
            &&& final(read_buffer).bytes() == old(read_buffer).bytes()
            &&& final(read_buffer).start() == old(read_buffer).start()
            &&& final(read_buffer).packet_end() == old(read_buffer).packet_end()
            &&& final(read_buffer).end() == old(read_buffer).end() + size
        },
        size > 0 && (old(read_buffer).packet_end() > old(read_buffer).start() ==> old(
            read_buffer,
        ).packet_end() <= old(read_buffer).end() + size) ==> {
            &&& result matches Ok(found)
            &&& ReadBuffer::search_outcome(
                old(read_buffer).bytes(),
                old(read_buffer).packet_end(),
                old(read_buffer).bytes().subrange(
                    old(read_buffer).consumed_start() as int,
                    old(read_buffer).end() + size,
                ),
                *final(read_buffer),
                end_marker@,
                found,
            )
        },
{
    if size == 0 {
        return Err(ReadingTcpContractFail::SocketDisconnected);
    }
    read_buffer.commit_written_size(size);
    search_end_marker(read_buffer, end_marker)
}

} // verus!
