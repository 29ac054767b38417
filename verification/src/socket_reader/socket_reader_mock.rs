use vstd::prelude::*;
use vstd::slice::{slice_subrange, slice_to_vec};

use super::error::ReadingTcpContractFail;
use super::packet_search::{commit_read_and_search, search_end_marker};
use super::read_buffer::{
    contains_pattern, is_first_occurrence, lemma_first_occurrence_unique,
    lemma_package_is_packet_through_marker, occurs_at, packet_through_marker, ReadBuffer,
};
use crate::byte_vec::append_bytes;
use crate::encoding::{
    decode_i32, decode_i64, decode_u32, decode_u64, i32_decoding, i64_decoding, u32_decoding,
    u64_decoding,
};

verus! {

/// How many bytes a read round copies out of `unread_len` into a free tail
/// of `free` bytes.
pub open spec fn round_copy_len(free: nat, unread_len: nat) -> nat {
    if unread_len >= free {
        free
    } else {
        unread_len
    }
}

/// How many of them the round commits: all of them, except one less when
/// they fill the whole free tail.
pub open spec fn round_commit_len(free: nat, unread_len: nat) -> nat {
    if unread_len >= free {
        (free - 1) as nat
    } else {
        unread_len
    }
}

/// The outcome of the read rounds on a buffer whose unread bytes `data` sit
/// at its front, with `packet_end` left from the last packet, while `unread`
/// is left to read: what is returned (a packet's bytes or an error), how
/// many bytes of `unread` were taken, and, when a packet is returned, the
/// unread bytes the buffer then holds (the packet first).
///
/// A round fails with `ErrorReadingSize` when the buffer is full; otherwise it
/// copies into the free tail and commits (see above). Committing nothing is a
/// disconnect; a stale `packet_end` past the committed bytes fails the search
/// with `ErrorReadingSize`, and otherwise the search skips the first
/// `packet_end` committed bytes and either finds the packet through the first
/// marker or leaves the rest for the next round.
pub open spec fn rounds_outcome(
    data: Seq<u8>,
    packet_end: nat,
    capacity: nat,
    unread: Seq<u8>,
    marker: Seq<u8>,
) -> (Result<Seq<u8>, ReadingTcpContractFail>, nat, Seq<u8>)
    decreases unread.len(),
{
    if data.len() >= capacity {
        (Err(ReadingTcpContractFail::ErrorReadingSize), 0, data)
    } else {
        let free = (capacity - data.len()) as nat;
        let copied = round_copy_len(free, unread.len());
        let committed = data + unread.take(round_commit_len(free, unread.len()) as int);
        if round_commit_len(free, unread.len()) == 0 {
            (Err(ReadingTcpContractFail::SocketDisconnected), copied, data)
        } else if packet_end > committed.len() {
            (Err(ReadingTcpContractFail::ErrorReadingSize), copied, committed)
        } else {
            let fresh = committed.skip(packet_end as int);
            if contains_pattern(fresh, marker) {
                (Ok(packet_through_marker(fresh, marker)), copied, fresh)
            } else {
                let rest = rounds_outcome(fresh, packet_end, capacity, unread.skip(copied as int), marker);
                (rest.0, copied + rest.1, rest.2)
            }
        }
    }
}

/// The outcome of reading up to `marker` into `buffer` from `unread`: a
/// search that would start past the written data fails with
/// `ErrorReadingSize`; a packet already buffered is returned without reading;
/// otherwise the read rounds decide.
pub open spec fn read_until_marker_outcome(buffer: ReadBuffer, unread: Seq<u8>, marker: Seq<u8>) -> (
    Result<Seq<u8>, ReadingTcpContractFail>,
    nat,
    Seq<u8>,
) {
    if !buffer.packet_end_within_data() {
        (Err(ReadingTcpContractFail::ErrorReadingSize), 0, buffer.pending())
    } else if contains_pattern(buffer.after_packet(), marker) {
        (Ok(packet_through_marker(buffer.after_packet(), marker)), 0, buffer.after_packet())
    } else {
        rounds_outcome(buffer.after_packet(), buffer.packet_end(), buffer.capacity(), unread, marker)
    }
}

/// The read rounds never take more bytes than are left to read.
pub proof fn lemma_rounds_take_at_most_unread(
    data: Seq<u8>,
    packet_end: nat,
    capacity: nat,
    unread: Seq<u8>,
    marker: Seq<u8>,
)
    ensures
        rounds_outcome(data, packet_end, capacity, unread, marker).1 <= unread.len(),
    decreases unread.len(),
{
    if data.len() < capacity {
        let free = (capacity - data.len()) as nat;
        let copied = round_copy_len(free, unread.len());
        let committed = data + unread.take(round_commit_len(free, unread.len()) as int);
        if round_commit_len(free, unread.len()) != 0 && packet_end <= committed.len() {
            let fresh = committed.skip(packet_end as int);
            if !contains_pattern(fresh, marker) {
                lemma_rounds_take_at_most_unread(fresh, packet_end, capacity, unread.skip(copied as int), marker);
            }
        }
    }
}

/// When the unread bytes after the last packet already hold the marker,
/// reading returns exactly those bytes through its first occurrence and takes
/// nothing from the reader.
pub proof fn law_buffered_packet_is_returned_without_reading(
    buffer: ReadBuffer,
    unread: Seq<u8>,
    marker: Seq<u8>,
    i: int,
)
    requires
        buffer.wf(),
        buffer.packet_end_within_data(),
        is_first_occurrence(buffer.after_packet(), marker, i),
    ensures
        read_until_marker_outcome(buffer, unread, marker).0 == Ok::<Seq<u8>, ReadingTcpContractFail>(
            buffer.after_packet().take(i + marker.len()),
        ),
        read_until_marker_outcome(buffer, unread, marker).1 == 0,
        read_until_marker_outcome(buffer, unread, marker).2 == buffer.after_packet(),
{
    assert(occurs_at(buffer.after_packet(), marker, i));
    assert(contains_pattern(buffer.after_packet(), marker));
    lemma_first_occurrence_unique(buffer.after_packet(), marker, i);
}

/// A read round that copies bytes without filling the buffer's free space
/// commits every one of them. So, with no packet end left over and the
/// buffered and unread bytes fitting in the buffer with room to spare,
/// reading takes all the unread bytes and returns the buffered and unread
/// bytes through the first marker when the marker occurs in them, and
/// reports a disconnect when it does not.
pub proof fn law_round_that_fits_commits_every_byte(buffer: ReadBuffer, unread: Seq<u8>, marker: Seq<u8>)
    requires
        buffer.wf(),
        buffer.packet_end() == 0,
        marker.len() > 0,
        !contains_pattern(buffer.after_packet(), marker),
        buffer.after_packet().len() + unread.len() < buffer.capacity(),
    ensures
        read_until_marker_outcome(buffer, unread, marker).1 == unread.len(),
        forall|i: int|
            is_first_occurrence(buffer.after_packet() + unread, marker, i) ==> read_until_marker_outcome(
                buffer,
                unread,
                marker,
            ).0 == Ok::<Seq<u8>, ReadingTcpContractFail>((buffer.after_packet() + unread).take(i + marker.len())),
        !contains_pattern(buffer.after_packet() + unread, marker) ==> read_until_marker_outcome(
            buffer,
            unread,
            marker,
        ).0 == Err::<Seq<u8>, ReadingTcpContractFail>(ReadingTcpContractFail::SocketDisconnected),
{
    let data = buffer.after_packet();
    let cap = buffer.capacity();
    let all = data + unread;
    let u = unread.len();
    let free = (cap - data.len()) as nat;
    assert(round_copy_len(free, u) == u);
    assert(round_commit_len(free, u) == u);
    assert(unread.take(u as int) =~= unread);
    assert(all.skip(0) =~= all);
    let rest = rounds_outcome(all, 0, cap, unread.skip(u as int), marker);
    assert(unread.skip(u as int) =~= Seq::<u8>::empty());
    assert(round_copy_len((cap - all.len()) as nat, 0) == 0);
    assert(round_commit_len((cap - all.len()) as nat, 0) == 0);
    assert(rest == (
        Err::<Seq<u8>, ReadingTcpContractFail>(ReadingTcpContractFail::SocketDisconnected),
        0nat,
        all,
    ));
    if u == 0 {
        assert(all =~= data);
    }
    assert forall|i: int| is_first_occurrence(all, marker, i) implies read_until_marker_outcome(
        buffer,
        unread,
        marker,
    ).0 == Ok::<Seq<u8>, ReadingTcpContractFail>(all.take(i + marker.len())) by {
        assert(occurs_at(all, marker, i));
        lemma_first_occurrence_unique(all, marker, i);
        if u == 0 {
            assert(occurs_at(data, marker, i));
        }
    }
}

/// A buffer already full of unread bytes without the marker cannot take
/// more: reading fails with `ErrorReadingSize` and takes nothing.
pub proof fn law_full_buffer_is_refused(buffer: ReadBuffer, unread: Seq<u8>, marker: Seq<u8>)
    requires
        buffer.wf(),
        buffer.packet_end() == 0,
        !contains_pattern(buffer.after_packet(), marker),
        buffer.after_packet().len() == buffer.capacity(),
    ensures
        read_until_marker_outcome(buffer, unread, marker).0 == Err::<Seq<u8>, ReadingTcpContractFail>(
            ReadingTcpContractFail::ErrorReadingSize,
        ),
        read_until_marker_outcome(buffer, unread, marker).1 == 0,
{
}

/// A read round that fills the buffer's free space copies as many bytes as
/// there is room for and commits one byte less. With no packet end left
/// over, the packet is then searched for in the buffered bytes followed by
/// all but the last copied byte; when it is not there, the next round has
/// room for one byte, commits nothing and reports a disconnect.
pub proof fn law_round_that_fills_commits_one_byte_less(buffer: ReadBuffer, unread: Seq<u8>, marker: Seq<u8>)
    requires
        buffer.wf(),
        buffer.packet_end() == 0,
        marker.len() > 0,
        !contains_pattern(buffer.after_packet(), marker),
        buffer.after_packet().len() < buffer.capacity(),
        unread.len() >= buffer.capacity() - buffer.after_packet().len(),
    ensures
        ({
            let free = buffer.capacity() - buffer.after_packet().len();
            let committed = buffer.after_packet() + unread.take(free - 1);
            let outcome = read_until_marker_outcome(buffer, unread, marker);
            &&& free == 1 ==> outcome.0 == Err::<Seq<u8>, ReadingTcpContractFail>(
                ReadingTcpContractFail::SocketDisconnected,
            ) && outcome.1 == 1
            &&& forall|i: int|
                free > 1 && is_first_occurrence(committed, marker, i) ==> outcome.0 == Ok::<
                    Seq<u8>,
                    ReadingTcpContractFail,
                >(committed.take(i + marker.len())) && outcome.1 == free
            &&& free > 1 && !contains_pattern(committed, marker) ==> outcome.0 == Err::<
                Seq<u8>,
                ReadingTcpContractFail,
            >(ReadingTcpContractFail::SocketDisconnected) && outcome.1 == if unread.len() > free {
                free + 1
            } else {
                free
            }
        }),
{
    let data = buffer.after_packet();
    let cap = buffer.capacity();
    let u = unread.len();
    let free = (cap - data.len()) as nat;
    let committed = data + unread.take(free - 1);
    assert(round_copy_len(free, u) == free);
    assert(round_commit_len(free, u) == free - 1);
    assert(committed.skip(0) =~= committed);
    if free > 1 {
        let left = unread.skip(free as int);
        let free2 = (cap - committed.len()) as nat;
        assert(free2 == 1);
        assert(round_commit_len(free2, left.len()) == 0);
        let rest = rounds_outcome(committed, 0, cap, left, marker);
        assert(rest.0 == Err::<Seq<u8>, ReadingTcpContractFail>(ReadingTcpContractFail::SocketDisconnected));
        assert(rest.1 == round_copy_len(free2, left.len()));
        assert forall|i: int| is_first_occurrence(committed, marker, i) implies read_until_marker_outcome(
            buffer,
            unread,
            marker,
        ).0 == Ok::<Seq<u8>, ReadingTcpContractFail>(committed.take(i + marker.len())) by {
            assert(occurs_at(committed, marker, i));
            lemma_first_occurrence_unique(committed, marker, i);
        }
    }
}

/// A socket reader over bytes held in memory, for exercising serializers.
pub struct SocketReaderMock {
    data: Vec<u8>,
}

impl SocketReaderMock {
    /// The bytes not read yet.
    pub closed spec fn unread(&self) -> Seq<u8> {
        self.data@
    }

    pub fn new() -> (result: Self)
        ensures
            result.unread() == Seq::<u8>::empty(),
    {
        Self { data: Vec::new() }
    }

    /// Makes `data` available to read after what is already there.
    pub fn push(&mut self, data: &[u8])
        ensures
            final(self).unread() == old(self).unread() + data@,
    {
        append_bytes(&mut self.data, data);
    }

    /// Drops the first `count` unread bytes.
    fn consume(&mut self, count: usize)
        requires
            count <= old(self).unread().len(),
        ensures
            final(self).unread() == old(self).unread().skip(count as int),
    {
        let mut i: usize = 0;
        while i < count
            invariant
                i <= count <= old(self).unread().len(),
                self.unread() == old(self).unread().skip(i as int),
            decreases count - i,
        {
            self.data.remove(0);
            i = i + 1;
        }
    }

    pub fn read_byte(&mut self) -> (result: Result<u8, ReadingTcpContractFail>)
        requires
            old(self).unread().len() > 0,
        ensures
            result == Ok::<u8, ReadingTcpContractFail>(old(self).unread()[0]),
            final(self).unread() == old(self).unread().drop_first(),
    {
        let result = self.data.remove(0);
        Ok(result)
    }

    pub fn read_i32(&mut self) -> (result: Result<i32, ReadingTcpContractFail>)
        requires
            old(self).unread().len() >= 4,
        ensures
            result == Ok::<i32, ReadingTcpContractFail>(i32_decoding(old(self).unread().take(4))),
            final(self).unread() == old(self).unread().skip(4),
    {
        let result = decode_i32(slice_subrange(self.data.as_slice(), 0, 4));
        self.consume(4);
        Ok(result)
    }

    pub fn read_bool(&mut self) -> (result: Result<bool, ReadingTcpContractFail>)
        requires
            old(self).unread().len() > 0,
        ensures
            result == Ok::<bool, ReadingTcpContractFail>(old(self).unread()[0] > 0),
            final(self).unread() == old(self).unread().drop_first(),
    {
        let b = self.data.remove(0);
        Ok(b > 0u8)
    }

    /// Reads an `i32` length, then that many bytes.
    pub fn read_byte_array(&mut self) -> (result: Result<Vec<u8>, ReadingTcpContractFail>)
        requires
            old(self).unread().len() >= 4,
            0 <= i32_decoding(old(self).unread().take(4)),
            i32_decoding(old(self).unread().take(4)) <= old(self).unread().len() - 4,
        ensures
            ({
                let n = i32_decoding(old(self).unread().take(4)) as int;
                &&& result matches Ok(bytes) && bytes@ == old(self).unread().subrange(4, 4 + n)
                &&& final(self).unread() == old(self).unread().skip(4 + n)
            }),
    {
        let len = self.read_i32().unwrap() as usize;
        let result = slice_to_vec(slice_subrange(self.data.as_slice(), 0, len));
        self.consume(len);
        assert(old(self).unread().skip(4).skip(len as int) =~= old(self).unread().skip(4 + len));
        assert(old(self).unread().skip(4).subrange(0, len as int) =~= old(self).unread().subrange(4, 4 + len));
        Ok(result)
    }

    /// Fills `buf` with the next bytes.
    pub fn read_buf(&mut self, buf: &mut [u8]) -> (result: Result<(), ReadingTcpContractFail>)
        requires
            old(buf)@.len() <= old(self).unread().len(),
        ensures
            result is Ok,
            final(buf)@ == old(self).unread().take(old(buf)@.len() as int),
            final(self).unread() == old(self).unread().skip(old(buf)@.len() as int),
    {
        let n = buf.len();
        let mut i: usize = 0;
        while i < n
            invariant
                n == buf@.len() == old(buf)@.len(),
                i <= n <= old(self).unread().len(),
                self.unread() == old(self).unread().skip(i as int),
                forall|k: int| 0 <= k < i ==> buf@[k] == old(self).unread()[k],
            decreases n - i,
        {
            let b = self.data.remove(0);
            buf[i] = b;
            i = i + 1;
        }
        assert(buf@ =~= old(self).unread().take(n as int));
        Ok(())
    }

    pub fn read_i64(&mut self) -> (result: Result<i64, ReadingTcpContractFail>)
        requires
            old(self).unread().len() >= 8,
        ensures
            result == Ok::<i64, ReadingTcpContractFail>(i64_decoding(old(self).unread().take(8))),
            final(self).unread() == old(self).unread().skip(8),
    {
        let result = decode_i64(slice_subrange(self.data.as_slice(), 0, 8));
        self.consume(8);
        Ok(result)
    }
    pub fn read_u32(&mut self) -> (result: Result<u32, ReadingTcpContractFail>)
        requires
            old(self).unread().len() >= 4,
        ensures
            result == Ok::<u32, ReadingTcpContractFail>(u32_decoding(old(self).unread().take(4))),
            final(self).unread() == old(self).unread().skip(4),
    {
        let result = decode_u32(slice_subrange(self.data.as_slice(), 0, 4));
        self.consume(4);
        Ok(result)
    }

    pub fn read_u64(&mut self) -> (result: Result<u64, ReadingTcpContractFail>)
        requires
            old(self).unread().len() >= 8,
        ensures
            result == Ok::<u64, ReadingTcpContractFail>(u64_decoding(old(self).unread().take(8))),
            final(self).unread() == old(self).unread().skip(8),
    {
        let result = decode_u64(slice_subrange(self.data.as_slice(), 0, 8));
        self.consume(8);
        Ok(result)
    }

    /// Reads into `read_buffer` until it holds a packet that ends with
    /// `end_marker`, and returns that packet; the outcome and the bytes taken
    /// are those of `read_until_marker_outcome`.
    ///
    /// Each round copies unread bytes into the buffer's free tail; a round
    /// that fills the whole tail commits one byte less than it copied, and a
    /// round that commits nothing reports a disconnect. A search that would
    /// start past the written data is refused with `ErrorReadingSize`, and so
    /// is a buffer full of unread bytes.
    pub fn read_until_end_marker<'s>(
        &mut self,
        read_buffer: &'s mut ReadBuffer,
        end_marker: &[u8],
    ) -> (result: Result<&'s [u8], ReadingTcpContractFail>)
        requires
            old(read_buffer).wf(),
            end_marker@.len() > 0,
        ensures
            final(read_buffer).wf(),
            final(read_buffer).capacity() == old(read_buffer).capacity(),
            ({
                let outcome = read_until_marker_outcome(*old(read_buffer), old(self).unread(), end_marker@);
                &&& final(self).unread() == old(self).unread().skip(outcome.1 as int)
                &&& outcome.1 <= old(self).unread().len()
                &&& (outcome.0 matches Ok(bytes) ==> (result matches Ok(package) && package@ == bytes))
                &&& (outcome.0 is Ok ==> final(read_buffer).pending() == outcome.2)
                &&& (outcome.0 matches Err(ReadingTcpContractFail::SocketDisconnected)
                    ==> result matches Err(ReadingTcpContractFail::SocketDisconnected))
                &&& (outcome.0 matches Err(ReadingTcpContractFail::ErrorReadingSize)
                    ==> result matches Err(ReadingTcpContractFail::ErrorReadingSize))
            }),
            result matches Ok(package) ==> {
                &&& final(read_buffer).packet_end() > final(read_buffer).start()
                &&& package@ == final(read_buffer).bytes().subrange(
                    final(read_buffer).start() as int,
                    final(read_buffer).packet_end() as int,
                )
                &&& exists|i: int|
                    is_first_occurrence(final(read_buffer).pending(), end_marker@, i)
                        && final(read_buffer).packet_end() == final(read_buffer).start() + i
                        + end_marker@.len()
            },
            !old(read_buffer).packet_end_within_data() ==> {
                &&& result matches Err(ReadingTcpContractFail::ErrorReadingSize)
                &&& *final(read_buffer) == *old(read_buffer)
            },
            old(read_buffer).packet_end_within_data() && contains_pattern(
                old(read_buffer).after_packet(),
                end_marker@,
            ) ==> final(read_buffer).pending() == old(read_buffer).after_packet(),
            result is Ok || result matches Err(ReadingTcpContractFail::SocketDisconnected)
                || result matches Err(ReadingTcpContractFail::ErrorReadingSize),
            result matches Err(ReadingTcpContractFail::ErrorReadingSize) ==> {
                ||| !final(read_buffer).packet_end_within_data()
                ||| final(read_buffer).start() == 0
                    && final(read_buffer).end() == final(read_buffer).capacity()
            },
    {
        let ghost total = read_until_marker_outcome(*read_buffer, self.unread(), end_marker@);
        let ghost p = read_buffer.packet_end();
        let ghost cap = read_buffer.capacity();
        assert(self.unread() =~= old(self).unread().skip(0));
        match search_end_marker(read_buffer, end_marker) {
            Err(e) => {
                return Err(e);
            },
            Ok(true) => {
                proof {
                    let i = choose|i: int|
                        is_first_occurrence(read_buffer.pending(), end_marker@, i)
                            && read_buffer.packet_end() == read_buffer.start() + i + end_marker@.len();
                    lemma_package_is_packet_through_marker(*read_buffer, end_marker@, i);
                }
                return Ok(read_buffer.get_package());
            },
            Ok(false) => {},
        }
        let ghost mut consumed: int = 0;
        let ghost mut cur: Seq<u8> = old(read_buffer).after_packet();
        loop
            invariant
                0 <= consumed <= old(self).unread().len(),
                self.unread() == old(self).unread().skip(consumed),
                read_buffer.wf(),
                read_buffer.capacity() == cap,
                cap == old(read_buffer).capacity(),
                read_buffer.start() == 0,
                read_buffer.pending() == cur,
                read_buffer.packet_end() == p,
                p == old(read_buffer).packet_end(),
                end_marker@.len() > 0,
                old(read_buffer).packet_end_within_data(),
                !contains_pattern(old(read_buffer).after_packet(), end_marker@),
                total == read_until_marker_outcome(*old(read_buffer), old(self).unread(), end_marker@),
                total.0 == rounds_outcome(cur, p, cap, self.unread(), end_marker@).0,
                total.1 == consumed + rounds_outcome(cur, p, cap, self.unread(), end_marker@).1,
                total.2 == rounds_outcome(cur, p, cap, self.unread(), end_marker@).2,
            decreases old(self).unread().len() - consumed,
        {
            let ghost unread_before = self.unread();
            let ghost cur_before = cur;
            let ghost end = read_buffer.end();
            let ghost mut tail_bytes: Seq<u8> = Seq::empty();
            let ghost mut copied: nat = 0;
            let ghost mut free: nat = 0;
            proof {
                lemma_rounds_take_at_most_unread(cur, p, cap, self.unread(), end_marker@);
            }
            let read_size = {
                let buf = read_buffer.get_buffer_to_write();
                if buf.is_none() {
                    return Err(ReadingTcpContractFail::ErrorReadingSize);
                }
                let buf = buf.unwrap();
                let mut read: usize = 0;
                let n = buf.len();
                proof {
                    free = n as nat;
                }
                let mut index: usize = 0;
                while index < n
                    invariant_except_break
                        read == (if index == 0 { 0 } else { index - 1 }),
                    invariant
                        n == buf@.len(),
                        n >= 1,
                        index <= n,
                        index <= unread_before.len(),
                        self.unread() == unread_before.skip(index as int),
                        forall|k: int| 0 <= k < index ==> buf@[k] == unread_before[k],
                    ensures
                        index == round_copy_len(n as nat, unread_before.len()),
                        read == round_commit_len(n as nat, unread_before.len()),
                        forall|k: int| 0 <= k < index ==> buf@[k] == unread_before[k],
                        self.unread() == unread_before.skip(index as int),
                    decreases n - index,
                {
                    read = index;
                    if self.data.len() == 0 {
                        break;
                    }
                    let b = self.data.remove(0);
                    buf[index] = b;
                    index = index + 1;
                    assert(self.unread() =~= unread_before.skip(index as int));
                }
                proof {
                    tail_bytes = buf@;
                    copied = index as nat;
                    assert(self.unread() =~= old(self).unread().skip(consumed + index));
                    consumed = consumed + index;
                }
                read
            };
            assert(read_buffer.end() == end);
            assert(free == cap - cur_before.len());
            assert(read_buffer.bytes().skip(end as int) == tail_bytes);
            let ghost committed = cur_before + unread_before.take(read_size as int);
            assert(read_buffer.bytes().subrange(0, end + read_size) =~= committed) by {
                assert forall|k: int| 0 <= k < end + read_size implies read_buffer.bytes()[k] == committed[k] by {
                    if k < end {
                        assert(read_buffer.pending()[k] == read_buffer.bytes()[k]);
                    } else {
                        assert(tail_bytes[k - end] == read_buffer.bytes()[k]);
                    }
                }
            }
            let ghost fresh = committed.skip(p as int);
            let ghost rest = rounds_outcome(fresh, p, cap, self.unread(), end_marker@);
            let ghost round = rounds_outcome(cur_before, p, cap, unread_before, end_marker@);
            assert(cur_before.len() < cap);
            assert(round_commit_len(free, unread_before.len()) == read_size);
            assert(round_copy_len(free, unread_before.len()) == copied);
            assert(self.unread() == unread_before.skip(copied as int));
            assert(read_size > 0 && p <= committed.len() && !contains_pattern(fresh, end_marker@)
                ==> round == (rest.0, copied + rest.1, rest.2));
            assert(read_size > 0 && p <= committed.len() && contains_pattern(fresh, end_marker@)
                ==> round == (Ok::<Seq<u8>, ReadingTcpContractFail>(packet_through_marker(fresh, end_marker@)), copied, fresh));
            assert(read_size == 0 ==> round == (
                Err::<Seq<u8>, ReadingTcpContractFail>(ReadingTcpContractFail::SocketDisconnected),
                copied,
                cur_before,
            ));
            assert(read_size > 0 && p > committed.len() ==> round == (
                Err::<Seq<u8>, ReadingTcpContractFail>(ReadingTcpContractFail::ErrorReadingSize),
                copied,
                committed,
            ));
            assert(p <= committed.len() ==> read_buffer.bytes().subrange(p as int, end + read_size) =~= fresh);
            assert(read_buffer.consumed_start() == p);
            match commit_read_and_search(read_buffer, read_size, end_marker) {
                Err(e) => {
                    return Err(e);
                },
                Ok(true) => {
                    proof {
                        let i = choose|i: int|
                            is_first_occurrence(read_buffer.pending(), end_marker@, i)
                                && read_buffer.packet_end() == read_buffer.start() + i + end_marker@.len();
                        lemma_package_is_packet_through_marker(*read_buffer, end_marker@, i);
                    }
                    return Ok(read_buffer.get_package());
                },
                Ok(false) => {},
            }
            proof {
                cur = fresh;
            }
            assert(self.unread().len() < unread_before.len());
        }
    }
}

} // verus!
