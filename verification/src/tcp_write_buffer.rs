use vstd::bytes::{u16_to_le_bytes, u32_to_le_bytes, u64_to_le_bytes};
use vstd::prelude::*;

use crate::byte_vec::append_bytes;
use crate::encoding::{
    bool_encoding, byte_array_encoding, i16_encoding, i32_encoding, i64_encoding,
    list_of_arrays_encoding, list_of_pascal_strings_encoding, pascal_string_encoding, u16_encoding,
    u32_encoding, u64_encoding,
};

verus! {

/// A sink of outgoing bytes, with the encodings of the wire format built on
/// its two primitive writes.
pub trait TcpWriteBuffer {
    /// The bytes written so far.
    spec fn written(&self) -> Seq<u8>;

    /// The buffer is in a state where writes append (its own invariant).
    open spec fn writable(&self) -> bool {
        true
    }

    fn write_byte(&mut self, b: u8)
        requires
            old(self).writable(),
        ensures
            final(self).writable(),
            final(self).written() == old(self).written().push(b),
    ;

    fn write_slice(&mut self, slice: &[u8])
        requires
            old(self).writable(),
        ensures
            final(self).writable(),
            final(self).written() == old(self).written() + slice@,
    ;

    fn write_bool(&mut self, v: bool)
        requires
            old(self).writable(),
        ensures
            final(self).writable(),
            final(self).written() == old(self).written() + bool_encoding(v),
    {
        if v {
            self.write_byte(1)
        } else {
            self.write_byte(0);
        }
        assert(final(self).written() =~= old(self).written() + bool_encoding(v));
    }

    fn write_i16(&mut self, v: i16)
        requires
            old(self).writable(),
        ensures
            final(self).writable(),
            final(self).written() == old(self).written() + i16_encoding(v),
    {
        let bytes = u16_to_le_bytes(v as u16);
        self.write_slice(bytes.as_slice());
    }

    fn write_u16(&mut self, v: u16)
        requires
            old(self).writable(),
        ensures
            final(self).writable(),
            final(self).written() == old(self).written() + u16_encoding(v),
    {
        let bytes = u16_to_le_bytes(v);
        self.write_slice(bytes.as_slice());
    }

    fn write_i32(&mut self, v: i32)
        requires
            old(self).writable(),
        ensures
            final(self).writable(),
            final(self).written() == old(self).written() + i32_encoding(v),
    {
        let bytes = u32_to_le_bytes(v as u32);
        self.write_slice(bytes.as_slice());
    }

    fn write_u32(&mut self, v: u32)
        requires
            old(self).writable(),
        ensures
            final(self).writable(),
            final(self).written() == old(self).written() + u32_encoding(v),
    {
        let bytes = u32_to_le_bytes(v);
        self.write_slice(bytes.as_slice());
    }

    fn write_i64(&mut self, v: i64)
        requires
            old(self).writable(),
        ensures
            final(self).writable(),
            final(self).written() == old(self).written() + i64_encoding(v),
    {
        let bytes = u64_to_le_bytes(v as u64);
        self.write_slice(bytes.as_slice());
    }

    fn write_u64(&mut self, v: u64)
        requires
            old(self).writable(),
        ensures
            final(self).writable(),
            final(self).written() == old(self).written() + u64_encoding(v),
    {
        let bytes = u64_to_le_bytes(v);
        self.write_slice(bytes.as_slice());
    }

    fn write_pascal_string(&mut self, v: &str)
        requires
            old(self).writable(),
        ensures
            final(self).writable(),
            final(self).written() == old(self).written() + pascal_string_encoding(v@),
    {
        let str_len = v.len() as u8;
        self.write_byte(str_len);
        self.write_slice(v.as_bytes());
        assert(final(self).written() =~= old(self).written() + pascal_string_encoding(v@));
    }

    fn serialize_list_of_arrays(&mut self, v: &Vec<Vec<u8>>)
        requires
            old(self).writable(),
        ensures
            final(self).writable(),
            final(self).written() == old(self).written() + list_of_arrays_encoding(
                v@.map_values(|a: Vec<u8>| a@),
            ),
    {
        let array_len = v.len() as i32;
        self.write_i32(array_len);
        let ghost arrays = v@.map_values(|a: Vec<u8>| a@);
        let ghost start = self.written();
        let mut i: usize = 0;
        while i < v.len()
            invariant
                self.writable(),
                i <= v@.len(),
                arrays == v@.map_values(|a: Vec<u8>| a@),
                self.written() == start + arrays.take(i as int).map_values(
                    |a: Seq<u8>| byte_array_encoding(a),
                ).flatten(),
            decreases v@.len() - i,
        {
            let ghost before = self.written();
            self.write_byte_array(v[i].as_slice());
            proof {
                let enc = |a: Seq<u8>| byte_array_encoding(a);
                assert(arrays.take(i + 1).map_values(enc) =~= arrays.take(i as int).map_values(
                    enc,
                ).push(enc(arrays[i as int])));
                arrays.take(i as int).map_values(enc).lemma_flatten_push(enc(arrays[i as int]));
            }
            i = i + 1;
        }
        assert(arrays.take(i as int) =~= arrays);
    }

    fn write_byte_array(&mut self, v: &[u8])
        requires
            old(self).writable(),
        ensures
            final(self).writable(),
            final(self).written() == old(self).written() + byte_array_encoding(v@),
    {
        let array_len = v.len() as i32;
        self.write_i32(array_len);
        self.write_slice(v);
        assert(final(self).written() =~= old(self).written() + byte_array_encoding(v@));
    }

    fn write_list_of_pascal_strings(&mut self, v: &Vec<String>)
        requires
            old(self).writable(),
        ensures
            final(self).writable(),
            final(self).written() == old(self).written() + list_of_pascal_strings_encoding(
                v@.map_values(|s: String| s@),
            ),
    {
        let array_len = v.len() as i32;
        self.write_i32(array_len);
        let ghost strings = v@.map_values(|s: String| s@);
        let ghost start = self.written();
        let mut i: usize = 0;
        while i < v.len()
            invariant
                self.writable(),
                i <= v@.len(),
                strings == v@.map_values(|s: String| s@),
                self.written() == start + strings.take(i as int).map_values(
                    |s: Seq<char>| pascal_string_encoding(s),
                ).flatten(),
            decreases v@.len() - i,
        {
            self.write_pascal_string(v[i].as_str());
            proof {
                let enc = |s: Seq<char>| pascal_string_encoding(s);
                assert(strings.take(i + 1).map_values(enc) =~= strings.take(i as int).map_values(
                    enc,
                ).push(enc(strings[i as int])));
                strings.take(i as int).map_values(enc).lemma_flatten_push(enc(strings[i as int]));
            }
            i = i + 1;
        }
        assert(strings.take(i as int) =~= strings);
    }
}

impl TcpWriteBuffer for Vec<u8> {
    open spec fn written(&self) -> Seq<u8> {
        self@
    }

    fn write_byte(&mut self, b: u8) {
        self.push(b);
    }

    fn write_slice(&mut self, slice: &[u8]) {
        append_bytes(self, slice);
    }
}

} // verus!
