use vstd::prelude::*;
use vstd::slice::slice_subrange;

use crate::byte_vec::vec_tail_mut;

verus! {

/// `pattern` occurs in `data` at position `index`.
pub open spec fn occurs_at(data: Seq<u8>, pattern: Seq<u8>, index: int) -> bool {
    &&& 0 <= index
    &&& index + pattern.len() <= data.len()
    &&& data.subrange(index, index + pattern.len()) == pattern
}

/// `index` is the first position at which `pattern` occurs in `data`.
pub open spec fn is_first_occurrence(data: Seq<u8>, pattern: Seq<u8>, index: int) -> bool {
    &&& occurs_at(data, pattern, index)
    &&& forall|j: int| 0 <= j < index ==> !occurs_at(data, pattern, j)
}

/// `pattern` occurs somewhere in `data`.
pub open spec fn contains_pattern(data: Seq<u8>, pattern: Seq<u8>) -> bool {
    exists|i: int| occurs_at(data, pattern, i)
}

/// The position of the first occurrence of `pattern` in `data`, where it
/// occurs.
pub open spec fn first_occurrence(data: Seq<u8>, pattern: Seq<u8>) -> int {
    choose|i: int| is_first_occurrence(data, pattern, i)
}

/// The bytes of `data` up to and including the first occurrence of `marker`.
pub open spec fn packet_through_marker(data: Seq<u8>, marker: Seq<u8>) -> Seq<u8> {
    data.take(first_occurrence(data, marker) + marker.len())
}

/// A first occurrence is unique.
pub proof fn lemma_first_occurrence_unique(data: Seq<u8>, pattern: Seq<u8>, i: int)
    requires
        is_first_occurrence(data, pattern, i),
    ensures
        first_occurrence(data, pattern) == i,
{
    let j = first_occurrence(data, pattern);
    assert(is_first_occurrence(data, pattern, j));
    if j < i {
        assert(!occurs_at(data, pattern, j));
    }
    if i < j {
        assert(!occurs_at(data, pattern, i));
    }
}

/// A fixed-size buffer that accumulates bytes read from a socket and cuts
/// them into packets that end with a marker sequence.
///
/// The unread bytes are `bytes()[start()..end()]`; a detected packet spans
/// `bytes()[start()..packet_end()]` until the next search consumes it.
pub struct ReadBuffer {
    buffer: Vec<u8>,
    pos_start: usize,
    pos_end: usize,
    max_capacity: usize,
    packet_end: usize,
}

impl ReadBuffer {
    pub closed spec fn bytes(&self) -> Seq<u8> {
        self.buffer@
    }

    pub closed spec fn start(&self) -> nat {
        self.pos_start as nat
    }

    pub closed spec fn end(&self) -> nat {
        self.pos_end as nat
    }

    pub closed spec fn capacity(&self) -> nat {
        self.max_capacity as nat
    }

    pub closed spec fn packet_end(&self) -> nat {
        self.packet_end as nat
    }

    /// The bytes that were written and not yet consumed.
    pub open spec fn pending(&self) -> Seq<u8> {
        self.bytes().subrange(self.start() as int, self.end() as int)
    }

    pub open spec fn wf(&self) -> bool {
        &&& self.bytes().len() == self.capacity()
        &&& self.start() <= self.end() <= self.capacity()
        &&& self.packet_end() <= self.capacity()
    }

    /// Where the unread data begins once the last detected packet is consumed.
    pub open spec fn consumed_start(&self) -> nat {
        if self.packet_end() > self.start() {
            self.packet_end()
        } else {
            self.start()
        }
    }

    /// The unread bytes once the last detected packet is consumed.
    pub open spec fn after_packet(&self) -> Seq<u8> {
        self.bytes().subrange(self.consumed_start() as int, self.end() as int)
    }

    /// The position of the last detected packet's end lies within the written
    /// data whenever it lies past the start (a search otherwise underflows).
    pub open spec fn packet_end_within_data(&self) -> bool {
        self.packet_end() > self.start() ==> self.packet_end() <= self.end()
    }

    /// A buffer of `max_capacity` zero bytes with nothing written yet.
    pub fn new(max_capacity: usize) -> (result: Self)
        ensures
            result.wf(),
            result.capacity() == max_capacity,
            result.bytes() == Seq::new(max_capacity as nat, |i: int| 0u8),
            result.start() == 0,
            result.end() == 0,
            result.packet_end() == 0,
    {
        let mut buffer: Vec<u8> = Vec::with_capacity(max_capacity);
        buffer.resize(max_capacity, 0);
        let result = Self { max_capacity, buffer, pos_start: 0, pos_end: 0, packet_end: 0 };
        assert(result.bytes() == Seq::new(max_capacity as nat, |i: int| 0u8));
        result
    }

    pub fn max_capacity(&self) -> (r: usize)
        ensures
            r == self.capacity(),
    {
        self.max_capacity
    }

    pub fn pos_start(&self) -> (r: usize)
        ensures
            r == self.start(),
    {
        self.pos_start
    }

    pub fn pos_end(&self) -> (r: usize)
        ensures
            r == self.end(),
    {
        self.pos_end
    }

    pub fn buffer_len(&self) -> (r: usize)
        ensures
            r == self.bytes().len(),
    {
        self.buffer.len()
    }

    /// Whether a search may start now (see `packet_end_within_data`).
    pub fn can_find_sequence(&self) -> (r: bool)
        ensures
            r == self.packet_end_within_data(),
    {
        !(self.packet_end > self.pos_start) || self.packet_end <= self.pos_end
    }

    /// Moves the unread bytes to the front of the buffer: everything from the
    /// start to the buffer's end shifts to the front, and the last `start`
    /// bytes keep what they held.
    fn gc(&mut self)
        requires
            old(self).wf(),
        ensures
            final(self).wf(),
            final(self).capacity() == old(self).capacity(),
            final(self).packet_end() == old(self).packet_end(),
            final(self).pending() == old(self).pending(),
            final(self).start() == 0,
            old(self).start() == 0 ==> *final(self) == *old(self),
            old(self).start() == old(self).end() ==> final(self).bytes() == old(self).bytes(),
            0 < old(self).start() < old(self).end() ==> final(self).bytes() == old(self).bytes().skip(
                old(self).start() as int,
            ) + old(self).bytes().skip(old(self).capacity() - old(self).start()),
    {
        if self.pos_start == 0 {
            return;
        }
        if self.pos_start == self.pos_end {
            self.pos_start = 0;
            self.pos_end = 0;
            return;
        }
        let pos_start = self.pos_start;
        let pos_end = self.pos_end;
        let max_capacity = self.max_capacity;
        let ghost old_bytes = self.buffer@;
        let mut i: usize = 0;
        while i < max_capacity - pos_start
            invariant
                0 < pos_start < pos_end <= old_bytes.len(),
                max_capacity == old_bytes.len(),
                i <= max_capacity - pos_start,
                self.buffer@.len() == old_bytes.len(),
                old_bytes == old(self).bytes(),
                self.max_capacity == old(self).max_capacity,
                self.packet_end == old(self).packet_end,
                self.pos_start == pos_start,
                self.pos_end == pos_end,
                old_bytes.len() == old(self).max_capacity,
                forall|k: int| 0 <= k < i ==> self.buffer@[k] == old_bytes[pos_start + k],
                forall|k: int| i <= k < old_bytes.len() ==> self.buffer@[k] == old_bytes[k],
            decreases max_capacity - pos_start - i,
        {
            let b = self.buffer[pos_start + i];
            self.buffer.set(i, b);
            i = i + 1;
        }
        self.pos_start = 0;
        self.pos_end = pos_end - pos_start;
        assert(self.pending() =~= old_bytes.subrange(pos_start as int, pos_end as int));
        assert(self.bytes() =~= old_bytes.skip(pos_start as int) + old_bytes.skip(max_capacity - pos_start));
    }

    /// The free tail of the buffer, after moving the unread bytes to the front
    /// when the buffer is filled up to its end; `None` when it is full of
    /// unread bytes.
    pub fn get_buffer_to_write(&mut self) -> (result: Option<&mut [u8]>)
        requires
            old(self).wf(),
        ensures
            result is None <==> (old(self).end() == old(self).capacity() && old(self).start() == 0),
            result is None ==> *final(self) == *old(self),
            result matches Some(tail) ==> tail@.len() == if old(self).end() < old(self).capacity() {
                old(self).capacity() - old(self).end()
            } else {
                old(self).start() as int
            },
            result matches Some(tail) ==> {
                &&& final(self).wf()
                &&& final(self).capacity() == old(self).capacity()
                &&& final(self).packet_end() == old(self).packet_end()
                &&& final(self).pending() == old(self).pending()
                &&& old(self).end() == old(self).capacity() ==> final(self).start() == 0
                &&& old(self).end() < old(self).capacity() ==> final(self).start() == old(self).start()
                &&& tail@.len() == final(self).capacity() - final(self).end()
                &&& final(self).bytes().skip(final(self).end() as int) == final(tail)@
            },
    {
        if self.pos_end == self.max_capacity {
            if self.pos_start == 0 {
                return None;
            }
            self.gc();
        }
        Some(vec_tail_mut(&mut self.buffer, self.pos_end))
    }

    /// Records that `size` more bytes were written after the unread ones.
    pub fn commit_written_size(&mut self, size: usize)
        requires
            old(self).wf(),
            old(self).end() + size <= old(self).capacity(),
        ensures
            final(self).wf(),
            final(self).bytes() == old(self).bytes(),
            final(self).capacity() == old(self).capacity(),
            final(self).start() == old(self).start(),
            final(self).packet_end() == old(self).packet_end(),
            final(self).end() == old(self).end() + size,
    {
        self.pos_end = self.pos_end + size;
    }

    /// What a search leaves in `after`, for a buffer that held `bytes`, whose
    /// last packet ended at `packet_end`, and whose unread bytes once that
    /// packet is consumed are `data`: those bytes stay unread; when `marker`
    /// occurs in them, the packet runs through its first occurrence and the
    /// bytes do not move; otherwise the unread bytes sit at the front.
    pub open spec fn search_outcome(
        bytes: Seq<u8>,
        packet_end: nat,
        data: Seq<u8>,
        after: ReadBuffer,
        marker: Seq<u8>,
        found: bool,
    ) -> bool {
        &&& after.pending() == data
        &&& found == contains_pattern(data, marker)
        &&& found ==> exists|i: int|
            is_first_occurrence(after.pending(), marker, i) && after.packet_end() == after.start() + i
                + marker.len()
        &&& found ==> after.bytes() == bytes
        &&& !found ==> after.start() == 0
        &&& !found ==> after.packet_end() == packet_end
    }

    /// Consumes the last detected packet, then looks for the first occurrence
    /// of `sequence_to_find` in the unread bytes. When it is found, the packet
    /// ends right after it; otherwise the unread bytes move to the front.
    pub fn find_sequence(&mut self, sequence_to_find: &[u8]) -> (found: bool)
        requires
            old(self).wf(),
            old(self).packet_end_within_data(),
        ensures
            final(self).wf(),
            final(self).capacity() == old(self).capacity(),
            Self::search_outcome(
                old(self).bytes(),
                old(self).packet_end(),
                old(self).after_packet(),
                *final(self),
                sequence_to_find@,
                found,
            ),
    {
        let ghost data = old(self).after_packet();
        if self.packet_end > self.pos_start {
            self.pos_start = self.packet_end;
            if self.pos_start == self.pos_end {
                self.gc();
            }
        }
        assert(self.pending() =~= data);
        let len = sequence_to_find.len();
        let buf_len = self.pos_end - self.pos_start;
        if buf_len < len {
            self.gc();
            return false;
        }
        let ps = self.pos_start;
        let last = self.pos_end - len;
        let mut index = ps;
        loop
            invariant
                self.wf(),
                self.capacity() == old(self).capacity(),
                self.bytes() == old(self).bytes(),
                self.pending() == data,
                data == old(self).after_packet(),
                self.start() == ps,
                self.packet_end() == old(self).packet_end(),
                len == sequence_to_find@.len(),
                ps <= index <= last,
                last + len == self.end(),
                forall|j: int| 0 <= j < index - ps ==> !occurs_at(data, sequence_to_find@, j),
            ensures
                forall|j: int| 0 <= j <= last - ps ==> !occurs_at(data, sequence_to_find@, j),
            decreases last - index,
        {
            let candidate = slice_subrange(self.buffer.as_slice(), index, index + len);
            assert(candidate@ =~= data.subrange(index - ps, index - ps + len));
            if arrays_are_equal(candidate, sequence_to_find) {
                self.packet_end = index + len;
                assert(self.pending() == data);
                assert(occurs_at(data, sequence_to_find@, index - ps));
                assert(is_first_occurrence(self.pending(), sequence_to_find@, index - ps));
                return true;
            }
            if index == last {
                break;
            }
            index = index + 1;
        }
        assert forall|j: int| !occurs_at(data, sequence_to_find@, j) by {
            if 0 <= j && j + len <= data.len() {
                assert(j <= last - ps);
            }
        }
        self.gc();
        false
    }

    /// The packet detected by the last successful search.
    pub fn get_package(&self) -> (package: &[u8])
        requires
            self.wf(),
            self.packet_end() > self.start(),
        ensures
            package@ == self.bytes().subrange(self.start() as int, self.packet_end() as int),
    {
        slice_subrange(self.buffer.as_slice(), self.pos_start, self.packet_end)
    }
}

/// Whether two byte slices hold the same bytes.
pub fn arrays_are_equal(a1: &[u8], a2: &[u8]) -> (r: bool)
    ensures
        r == (a1@ == a2@),
{
    if a1.len() != a2.len() {
        return false;
    }
    let mut index: usize = 0;
    while index < a1.len()
        invariant
            a1@.len() == a2@.len(),
            index <= a1@.len(),
            forall|k: int| 0 <= k < index ==> a1@[k] == a2@[k],
        decreases a1@.len() - index,
    {
        if a1[index] != a2[index] {
            return false;
        }
        index = index + 1;
    }
    assert(a1@ =~= a2@);
    true
}

/// After a successful search, the packet is exactly the unread bytes up to
/// and including the first occurrence of the marker: it ends with the marker
/// and holds no earlier occurrence of it.
pub proof fn law_package_is_unread_bytes_through_first_marker(buffer: ReadBuffer, marker: Seq<u8>, index: int)
    requires
        buffer.wf(),
        is_first_occurrence(buffer.pending(), marker, index),
        buffer.packet_end() == buffer.start() + index + marker.len(),
    ensures
        ({
            let package = buffer.bytes().subrange(buffer.start() as int, buffer.packet_end() as int);
            &&& package == buffer.pending().take(index + marker.len())
            &&& package.skip(index) == marker
            &&& forall|j: int| 0 <= j < index ==> !occurs_at(package, marker, j)
        }),
{
    let package = buffer.bytes().subrange(buffer.start() as int, buffer.packet_end() as int);
    assert(package =~= buffer.pending().take(index + marker.len()));
    assert(package.skip(index) =~= marker);
    assert forall|j: int| 0 <= j < index implies !occurs_at(package, marker, j) by {
        if occurs_at(package, marker, j) {
            assert(buffer.pending().subrange(j, j + marker.len()) =~= package.subrange(j, j + marker.len()));
            assert(occurs_at(buffer.pending(), marker, j));
        }
    }
}

/// The packet that a successful search detected is the unread bytes through
/// the first marker.
pub proof fn lemma_package_is_packet_through_marker(buffer: ReadBuffer, marker: Seq<u8>, index: int)
    requires
        buffer.wf(),
        is_first_occurrence(buffer.pending(), marker, index),
        buffer.packet_end() == buffer.start() + index + marker.len(),
    ensures
        buffer.bytes().subrange(buffer.start() as int, buffer.packet_end() as int) == packet_through_marker(
            buffer.pending(),
            marker,
        ),
{
    law_package_is_unread_bytes_through_first_marker(buffer, marker, index);
    lemma_first_occurrence_unique(buffer.pending(), marker, index);
}

/// Framing, for a commit: committing `size` bytes written after the data
/// appends exactly those bytes to the stream of unread bytes that follow the
/// last packet.
pub proof fn law_commit_appends_to_stream(before: ReadBuffer, after: ReadBuffer, size: nat)
    requires
        before.wf(),
        before.packet_end_within_data(),
        before.end() + size <= before.capacity(),
        after.bytes() == before.bytes(),
        after.capacity() == before.capacity(),
        after.start() == before.start(),
        after.packet_end() == before.packet_end(),
        after.end() == before.end() + size,
    ensures
        after.wf(),
        after.packet_end_within_data(),
        after.after_packet() == before.after_packet() + before.bytes().subrange(
            before.end() as int,
            (before.end() + size) as int,
        ),
{
    assert(after.after_packet() =~= before.after_packet() + before.bytes().subrange(
        before.end() as int,
        (before.end() + size) as int,
    ));
}

/// Framing, for a successful search: the packet is the stream of unread
/// bytes through the first marker, and the stream goes on right after it.
pub proof fn law_found_packet_splits_stream(before: ReadBuffer, after: ReadBuffer, marker: Seq<u8>)
    requires
        before.wf(),
        after.wf(),
        marker.len() > 0,
        ReadBuffer::search_outcome(
            before.bytes(),
            before.packet_end(),
            before.after_packet(),
            after,
            marker,
            true,
        ),
    ensures
        after.packet_end_within_data(),
        after.bytes().subrange(after.start() as int, after.packet_end() as int) == packet_through_marker(
            before.after_packet(),
            marker,
        ),
        before.after_packet() == packet_through_marker(before.after_packet(), marker)
            + after.after_packet(),
{
    let i = choose|i: int|
        is_first_occurrence(after.pending(), marker, i) && after.packet_end() == after.start() + i
            + marker.len();
    lemma_package_is_packet_through_marker(after, marker, i);
    lemma_first_occurrence_unique(before.after_packet(), marker, i);
    assert(before.after_packet() =~= packet_through_marker(before.after_packet(), marker)
        + after.after_packet());
}

/// Framing, for a failed search before any packet was detected: the stream
/// of unread bytes stays as it was, now at the front of the buffer. (Once a
/// packet was detected its end is kept, and a later search skips that many
/// bytes from the front: the stream is not kept there.)
pub proof fn law_failed_search_keeps_stream(before: ReadBuffer, after: ReadBuffer, marker: Seq<u8>)
    requires
        before.wf(),
        after.wf(),
        before.packet_end() == 0,
        ReadBuffer::search_outcome(
            before.bytes(),
            before.packet_end(),
            before.after_packet(),
            after,
            marker,
            false,
        ),
    ensures
        after.start() == 0,
        after.packet_end() == 0,
        after.packet_end_within_data(),
        after.after_packet() == before.after_packet(),
        !contains_pattern(after.after_packet(), marker),
{
}

} // verus!
