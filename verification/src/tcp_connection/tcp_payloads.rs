use vstd::prelude::*;
use vstd::seq_lib::lemma_flatten_concat;
use vstd::slice::slice_subrange;

use crate::byte_vec::{append_bytes, vec_capacity};

verus! {

/// Outgoing bytes cut into payloads of at most `max_send_payload_size` bytes,
/// each filled up before the next one is started.
pub struct TcpPayloads {
    payloads: Vec<Vec<u8>>,
    max_send_payload_size: usize,
}

impl TcpPayloads {
    /// The payloads, oldest first.
    pub closed spec fn chunks(&self) -> Seq<Seq<u8>> {
        self.payloads@.map_values(|v: Vec<u8>| v@)
    }

    pub closed spec fn max_size(&self) -> nat {
        self.max_send_payload_size as nat
    }

    /// All queued bytes in the order they will be sent.
    pub open spec fn contents(&self) -> Seq<u8> {
        self.chunks().flatten()
    }

    /// Every payload holds at most the maximum, and every payload but the
    /// last holds exactly the maximum.
    pub open spec fn wf(&self) -> bool {
        forall|i: int|
            0 <= i < self.chunks().len() ==> {
                &&& #[trigger] self.chunks()[i].len() <= self.max_size()
                &&& i < self.chunks().len() - 1 ==> self.chunks()[i].len() == self.max_size()
            }
    }

    /// The payloads once the last one has room: a first, empty one when
    /// there is none, and a new, empty one after a full last one.
    pub open spec fn with_room(chunks: Seq<Seq<u8>>, max: nat) -> Seq<Seq<u8>> {
        let started = if chunks.len() == 0 {
            seq![Seq::<u8>::empty()]
        } else {
            chunks
        };
        if started.last().len() >= max {
            started.push(Seq::<u8>::empty())
        } else {
            started
        }
    }

    pub fn new(max_send_payload_size: usize) -> (result: Self)
        ensures
            result.wf(),
            result.chunks() == Seq::<Seq<u8>>::empty(),
            result.max_size() == max_send_payload_size,
    {
        let result = Self { payloads: Vec::new(), max_send_payload_size };
        assert(result.chunks() =~= Seq::<Seq<u8>>::empty());
        result
    }

    /// Makes sure the last payload has room, starting a new one when there is
    /// none or the last one is full.
    fn get_payload_to_append(&mut self)
        requires
            old(self).wf(),
        ensures
            final(self).wf(),
            final(self).max_size() == old(self).max_size(),
            final(self).contents() == old(self).contents(),
            final(self).chunks().len() > 0,
            final(self).chunks().last().len() < final(self).max_size() || final(self).max_size() == 0,
            final(self).chunks() == Self::with_room(old(self).chunks(), old(self).max_size()),
    {
        broadcast use Seq::lemma_flatten_push;

        let ghost c0 = self.chunks();
        if self.payloads.len() == 0 {
            self.payloads.push(Vec::with_capacity(self.max_send_payload_size));
            assert(self.chunks() =~= c0.push(Seq::<u8>::empty()));
        }
        let ghost c1 = self.chunks();
        let last_len = self.payloads[self.payloads.len() - 1].len();
        if last_len >= self.max_send_payload_size {
            self.payloads.push(Vec::with_capacity(self.max_send_payload_size));
            assert(self.chunks() =~= c1.push(Seq::<u8>::empty()));
        }
        assert(c0 == Seq::<Seq<u8>>::empty() ==> c1 =~= seq![Seq::<u8>::empty()]);
    }

    /// Appends `part` to the last payload, which has room for it.
    fn append_to_last(&mut self, part: &[u8])
        requires
            old(self).wf(),
            old(self).chunks().len() > 0,
            old(self).chunks().last().len() + part@.len() <= old(self).max_size(),
        ensures
            final(self).wf(),
            final(self).max_size() == old(self).max_size(),
            final(self).chunks() == old(self).chunks().drop_last().push(old(self).chunks().last() + part@),
            final(self).contents() == old(self).contents() + part@,
    {
        broadcast use Seq::lemma_flatten_push;

        let ghost before = self.chunks();
        let mut last = self.payloads.pop().unwrap();
        let ghost rest = self.chunks();
        assert(before =~= rest.push(last@));
        let ghost last_before = last@;
        proof {
            rest.lemma_flatten_push(last_before);
        }
        append_bytes(&mut last, part);
        self.payloads.push(last);
        assert(self.chunks() =~= rest.push(last_before + part@));
        proof {
            rest.lemma_flatten_push(last_before + part@);
        }
        assert(rest.flatten() + (last_before + part@) =~= (rest.flatten() + last_before) + part@);
        assert forall|i: int| 0 <= i < self.chunks().len() implies {
            &&& #[trigger] self.chunks()[i].len() <= self.max_size()
            &&& i < self.chunks().len() - 1 ==> self.chunks()[i].len() == self.max_size()
        } by {
            if i < rest.len() {
                assert(self.chunks()[i] == before[i]);
            }
        }
    }

    /// Appends `payload`, topping up the last payload first and starting new
    /// ones as each fills up.
    pub fn add_payload(&mut self, payload: &[u8])
        requires
            old(self).wf(),
            old(self).max_size() > 0 || payload@.len() == 0,
        ensures
            final(self).wf(),
            final(self).max_size() == old(self).max_size(),
            final(self).contents() == old(self).contents() + payload@,
            final(self).chunks().len() >= old(self).chunks().len(),
            old(self).chunks().len() > 0 ==> final(self).chunks().take(old(self).chunks().len() - 1)
                == old(self).chunks().take(old(self).chunks().len() - 1),
            payload@.len() > 0 ==> final(self).chunks().last().len() > 0,
            payload@.len() == 0 ==> final(self).chunks() == Self::with_room(old(self).chunks(), old(self).max_size()),
    {
        let max_payload_size = self.max_send_payload_size;
        let mut offset: usize = 0;
        let ghost n0 = old(self).chunks().len();
        loop
            invariant
                self.wf(),
                self.max_size() == old(self).max_size(),
                max_payload_size == self.max_size(),
                max_payload_size > 0 || payload@.len() == 0,
                offset <= payload@.len(),
                self.contents() == old(self).contents() + payload@.subrange(0, offset as int),
                n0 == old(self).chunks().len(),
                self.chunks().len() >= n0,
                n0 > 0 ==> self.chunks().take(n0 - 1) == old(self).chunks().take(n0 - 1),
                offset > 0 ==> offset < payload@.len() && self.chunks().len() > 0 && self.chunks().last().len() > 0,
                offset == 0 ==> self.chunks() == old(self).chunks(),
            decreases payload@.len() - offset,
        {
            let ghost c0 = self.chunks();
            self.get_payload_to_append();
            let ghost c1 = self.chunks();
            assert(n0 > 0 ==> c1.take(n0 - 1) =~= old(self).chunks().take(n0 - 1)) by {
                if n0 > 0 {
                    assert forall|k: int| 0 <= k < n0 - 1 implies c1[k] == c0[k] by {}
                }
            }
            let last_len = self.payloads[self.payloads.len() - 1].len();
            assert(last_len == c1.last().len());
            let remains_payload_size = max_payload_size - last_len;
            if remains_payload_size >= payload.len() - offset {
                let tail = slice_subrange(payload, offset, payload.len());
                self.append_to_last(tail);
                assert(payload@.subrange(0, offset as int) + tail@ =~= payload@);
                assert(n0 > 0 ==> self.chunks().take(n0 - 1) =~= old(self).chunks().take(n0 - 1)) by {
                    if n0 > 0 {
                        assert forall|k: int| 0 <= k < n0 - 1 implies self.chunks()[k] == c1[k] by {
                            assert(c1.len() >= n0);
                        }
                    }
                }
                assert(offset == 0 && payload@.len() == 0 ==> self.chunks() =~= c1);
                return;
            }
            let part = slice_subrange(payload, offset, offset + remains_payload_size);
            self.append_to_last(part);
            assert(payload@.subrange(0, offset as int) + part@ =~= payload@.subrange(0, offset + remains_payload_size));
            assert(n0 > 0 ==> self.chunks().take(n0 - 1) =~= old(self).chunks().take(n0 - 1)) by {
                if n0 > 0 {
                    assert forall|k: int| 0 <= k < n0 - 1 implies self.chunks()[k] == c1[k] by {
                        assert(c1.len() >= n0);
                    }
                }
            }
            offset = offset + remains_payload_size;
        }
    }

    /// Kept for callers that trim memory; it leaves the payloads as they are.
    pub fn shrink_capacity(&mut self)
        ensures
            *final(self) == *old(self),
    {
        let capacity = vec_capacity(&self.payloads);
        if capacity < 512 {
            return;
        }
        if self.payloads.len() > capacity / 2 {
            return;
        }
    }

    /// Takes the oldest payload out.
    pub fn get_payload(&mut self) -> (result: Option<Vec<u8>>)
        requires
            old(self).wf(),
        ensures
            final(self).wf(),
            final(self).max_size() == old(self).max_size(),
            old(self).chunks().len() == 0 ==> result is None && final(self).chunks() == old(self).chunks(),
            old(self).chunks().len() > 0 ==> (result matches Some(payload) && payload@ == old(self).chunks()[0]
                && final(self).chunks() == old(self).chunks().drop_first()),
            result matches Some(payload) ==> old(self).contents() == payload@ + final(self).contents(),
    {
        if self.payloads.len() == 0 {
            return None;
        }
        let ghost c = self.chunks();
        let result = self.payloads.remove(0);
        assert(self.chunks() =~= c.drop_first());
        assert(self.wf()) by {
            assert forall|i: int| 0 <= i < self.chunks().len() implies #[trigger] self.chunks()[i].len()
                <= self.max_size() && (i < self.chunks().len() - 1 ==> self.chunks()[i].len() == self.max_size()) by {
                assert(self.chunks()[i] == c[i + 1]);
            }
        }
        Some(result)
    }

    /// Total number of queued bytes.
    pub fn get_size(&self) -> (result: usize)
        requires
            self.contents().len() <= usize::MAX,
        ensures
            result == self.contents().len(),
    {
        broadcast use Seq::lemma_flatten_push;

        let mut result: usize = 0;
        let mut i: usize = 0;
        while i < self.payloads.len()
            invariant
                i <= self.chunks().len(),
                self.chunks().len() == self.payloads@.len(),
                self.contents().len() <= usize::MAX,
                result == self.chunks().take(i as int).flatten().len(),
            decreases self.payloads@.len() - i,
        {
            let ghost c = self.chunks();
            assert(c.take(i + 1) =~= c.take(i as int).push(c[i as int]));
            assert(c =~= c.take(i + 1) + c.skip(i + 1));
            proof {
                lemma_flatten_concat(c.take(i + 1), c.skip(i + 1));
                c.take(i as int).lemma_flatten_push(c[i as int]);
            }
            assert(c[i as int] == self.payloads@[i as int]@);
            assert(c.take(i + 1).flatten() == c.take(i as int).flatten() + c[i as int]);
            result = result + self.payloads[i].len();
            i = i + 1;
        }
        assert(self.chunks().take(i as int) =~= self.chunks());
        result
    }
}

/// The size that `get_size` reports moves with the queue: an `add_payload`
/// of `payload` (which makes `added` from `payloads`) raises it by the
/// payload's length, and a `get_payload` that takes `taken` (which makes
/// `left` from `payloads`) lowers it by that payload's length.
pub proof fn law_size_moves_with_add_and_take(
    payloads: TcpPayloads,
    payload: Seq<u8>,
    added: TcpPayloads,
    taken: Seq<u8>,
    left: TcpPayloads,
)
    requires
        added.contents() == payloads.contents() + payload,
        payloads.contents() == taken + left.contents(),
    ensures
        added.contents().len() == payloads.contents().len() + payload.len(),
        left.contents().len() == payloads.contents().len() - taken.len(),
{
}

/// `bytes` cut into pieces of `max` bytes, the last piece holding the rest.
pub open spec fn cut_into_pieces(bytes: Seq<u8>, max: nat) -> Seq<Seq<u8>>
    decreases bytes.len(),
{
    if bytes.len() == 0 || max == 0 {
        Seq::empty()
    } else if bytes.len() <= max {
        seq![bytes]
    } else {
        seq![bytes.take(max as int)] + cut_into_pieces(bytes.skip(max as int), max)
    }
}

proof fn lemma_full_pieces_are_cut(pieces: Seq<Seq<u8>>, max: nat)
    requires
        max > 0,
        forall|i: int|
            0 <= i < pieces.len() ==> {
                &&& #[trigger] pieces[i].len() <= max
                &&& i < pieces.len() - 1 ==> pieces[i].len() == max
            },
        pieces.len() > 0 ==> pieces.last().len() > 0,
    ensures
        pieces == cut_into_pieces(pieces.flatten(), max),
    decreases pieces.len(),
{
    if pieces.len() == 0 {
        assert(pieces =~= Seq::<Seq<u8>>::empty());
    } else if pieces.len() == 1 {
        pieces.lemma_flatten_one_element();
        assert(pieces =~= seq![pieces[0]]);
    } else {
        let rest = pieces.drop_first();
        assert forall|i: int| 0 <= i < rest.len() implies {
            &&& #[trigger] rest[i].len() <= max
            &&& i < rest.len() - 1 ==> rest[i].len() == max
        } by {
            assert(rest[i] == pieces[i + 1]);
        }
        assert(rest.last() == pieces.last());
        lemma_full_pieces_are_cut(rest, max);
        rest.lemma_flatten_and_flatten_alt_are_equivalent();
        rest.lemma_flatten_length_ge_single_element_length(rest.len() - 1);
        let f = pieces.flatten();
        assert(f == pieces[0] + rest.flatten());
        assert(pieces[0].len() == max);
        assert(f.len() > max);
        assert(f.take(max as int) =~= pieces[0]);
        assert(f.skip(max as int) =~= rest.flatten());
        assert(pieces =~= seq![pieces[0]] + rest);
    }
}

/// The payloads are the queued bytes cut into pieces of the maximum size, as
/// long as the last payload is not empty (which `add_payload` of any bytes
/// and `get_payload` keep): no payload is ever split otherwise.
pub proof fn law_payloads_are_contents_cut_into_pieces(payloads: TcpPayloads)
    requires
        payloads.wf(),
        payloads.max_size() > 0,
        payloads.chunks().len() > 0 ==> payloads.chunks().last().len() > 0,
    ensures
        payloads.chunks() == cut_into_pieces(payloads.contents(), payloads.max_size()),
{
    lemma_full_pieces_are_cut(payloads.chunks(), payloads.max_size());
}

} // verus!
