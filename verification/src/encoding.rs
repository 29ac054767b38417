use vstd::bytes::*;
use vstd::prelude::*;
use vstd::utf8::encode_utf8;

verus! {

/// The byte that stands for a boolean: 1 for true, 0 for false.
pub open spec fn bool_encoding(v: bool) -> Seq<u8> {
    seq![if v { 1u8 } else { 0u8 }]
}

/// Little-endian bytes of an `i16` (its two's complement bits).
pub open spec fn i16_encoding(v: i16) -> Seq<u8> {
    spec_u16_to_le_bytes(v as u16)
}

/// Little-endian bytes of a `u16`.
pub open spec fn u16_encoding(v: u16) -> Seq<u8> {
    spec_u16_to_le_bytes(v)
}

/// Little-endian bytes of an `i32` (its two's complement bits).
pub open spec fn i32_encoding(v: i32) -> Seq<u8> {
    spec_u32_to_le_bytes(v as u32)
}

/// Little-endian bytes of a `u32`.
pub open spec fn u32_encoding(v: u32) -> Seq<u8> {
    spec_u32_to_le_bytes(v)
}

/// Little-endian bytes of an `i64` (its two's complement bits).
pub open spec fn i64_encoding(v: i64) -> Seq<u8> {
    spec_u64_to_le_bytes(v as u64)
}

/// Little-endian bytes of a `u64`.
pub open spec fn u64_encoding(v: u64) -> Seq<u8> {
    spec_u64_to_le_bytes(v)
}

/// The `i32` that four little-endian bytes stand for.
pub open spec fn i32_decoding(bytes: Seq<u8>) -> i32 {
    spec_u32_from_le_bytes(bytes) as i32
}

/// The `u32` that four little-endian bytes stand for.
pub open spec fn u32_decoding(bytes: Seq<u8>) -> u32 {
    spec_u32_from_le_bytes(bytes)
}

/// The `i64` that eight little-endian bytes stand for.
pub open spec fn i64_decoding(bytes: Seq<u8>) -> i64 {
    spec_u64_from_le_bytes(bytes) as i64
}

/// The `u64` that eight little-endian bytes stand for.
pub open spec fn u64_decoding(bytes: Seq<u8>) -> u64 {
    spec_u64_from_le_bytes(bytes)
}

/// A string as a length byte (the UTF-8 length, cut to its low eight bits)
/// followed by its UTF-8 bytes.
pub open spec fn pascal_string_encoding(chars: Seq<char>) -> Seq<u8> {
    seq![(encode_utf8(chars).len() as usize) as u8] + encode_utf8(chars)
}

/// A byte array as its length, cut to an `i32`, followed by its bytes.
pub open spec fn byte_array_encoding(bytes: Seq<u8>) -> Seq<u8> {
    i32_encoding(bytes.len() as i32) + bytes
}

/// A list of byte arrays as its length, cut to an `i32`, followed by each
/// array in turn.
pub open spec fn list_of_arrays_encoding(arrays: Seq<Seq<u8>>) -> Seq<u8> {
    i32_encoding(arrays.len() as i32) + arrays.map_values(|a: Seq<u8>| byte_array_encoding(a)).flatten()
}

/// A list of strings as its length, cut to an `i32`, followed by each string
/// in its pascal form.
pub open spec fn list_of_pascal_strings_encoding(strings: Seq<Seq<char>>) -> Seq<u8> {
    i32_encoding(strings.len() as i32) + strings.map_values(|s: Seq<char>| pascal_string_encoding(s)).flatten()
}

/// The `i32` read from the first four bytes of `bytes`.
pub fn decode_i32(bytes: &[u8]) -> (v: i32)
    requires
        bytes@.len() == 4,
    ensures
        v == i32_decoding(bytes@),
{
    u32_from_le_bytes(bytes) as i32
}

/// The `u32` read from four little-endian bytes.
pub fn decode_u32(bytes: &[u8]) -> (v: u32)
    requires
        bytes@.len() == 4,
    ensures
        v == u32_decoding(bytes@),
{
    u32_from_le_bytes(bytes)
}

/// The `i64` read from eight little-endian bytes.
pub fn decode_i64(bytes: &[u8]) -> (v: i64)
    requires
        bytes@.len() == 8,
    ensures
        v == i64_decoding(bytes@),
{
    u64_from_le_bytes(bytes) as i64
}

/// The `u64` read from eight little-endian bytes.
pub fn decode_u64(bytes: &[u8]) -> (v: u64)
    requires
        bytes@.len() == 8,
    ensures
        v == u64_decoding(bytes@),
{
    u64_from_le_bytes(bytes)
}

/// Reading an `i32` back from its encoding gives the value, whatever follows.
pub proof fn law_i32_round_trip(v: i32, rest: Seq<u8>)
    ensures
        i32_encoding(v).len() == 4,
        i32_decoding((i32_encoding(v) + rest).take(4)) == v,
        (i32_encoding(v) + rest).skip(4) == rest,
{
    lemma_auto_spec_u32_to_from_le_bytes();
    let e = i32_encoding(v);
    assert((e + rest).take(4) =~= e);
    assert((e + rest).skip(4) =~= rest);
    let u = v as u32;
    assert((u as i32) == v) by (bit_vector)
        requires
            u == v as u32,
    ;
}

/// Reading a `u32` back from its encoding gives the value, whatever follows.
pub proof fn law_u32_round_trip(v: u32, rest: Seq<u8>)
    ensures
        u32_encoding(v).len() == 4,
        u32_decoding((u32_encoding(v) + rest).take(4)) == v,
        (u32_encoding(v) + rest).skip(4) == rest,
{
    lemma_auto_spec_u32_to_from_le_bytes();
    let e = u32_encoding(v);
    assert((e + rest).take(4) =~= e);
    assert((e + rest).skip(4) =~= rest);
}

/// Reading an `i64` back from its encoding gives the value, whatever follows.
pub proof fn law_i64_round_trip(v: i64, rest: Seq<u8>)
    ensures
        i64_encoding(v).len() == 8,
        i64_decoding((i64_encoding(v) + rest).take(8)) == v,
        (i64_encoding(v) + rest).skip(8) == rest,
{
    lemma_auto_spec_u64_to_from_le_bytes();
    let e = i64_encoding(v);
    assert((e + rest).take(8) =~= e);
    assert((e + rest).skip(8) =~= rest);
    let u = v as u64;
    assert((u as i64) == v) by (bit_vector)
        requires
            u == v as u64,
    ;
}

/// Reading a `u64` back from its encoding gives the value, whatever follows.
pub proof fn law_u64_round_trip(v: u64, rest: Seq<u8>)
    ensures
        u64_encoding(v).len() == 8,
        u64_decoding((u64_encoding(v) + rest).take(8)) == v,
        (u64_encoding(v) + rest).skip(8) == rest,
{
    lemma_auto_spec_u64_to_from_le_bytes();
    let e = u64_encoding(v);
    assert((e + rest).take(8) =~= e);
    assert((e + rest).skip(8) =~= rest);
}

/// Reading a boolean back (any nonzero byte is true) from its encoding gives
/// the value.
pub proof fn law_bool_round_trip(v: bool)
    ensures
        bool_encoding(v).len() == 1,
        (bool_encoding(v)[0] > 0) == v,
{
}

/// Reading a byte array back (an `i32` length, then that many bytes) from its
/// encoding gives the array, whatever follows, as long as its length fits an
/// `i32`.
pub proof fn law_byte_array_round_trip(bytes: Seq<u8>, rest: Seq<u8>)
    requires
        bytes.len() <= i32::MAX,
    ensures
        ({
            let stream = byte_array_encoding(bytes) + rest;
            let n = i32_decoding(stream.take(4));
            &&& n == bytes.len()
            &&& stream.subrange(4, 4 + n) == bytes
            &&& stream.skip(4 + n) == rest
        }),
{
    let len = bytes.len() as i32;
    assert(len == bytes.len());
    law_i32_round_trip(len, bytes + rest);
    let stream = byte_array_encoding(bytes) + rest;
    assert(stream =~= i32_encoding(len) + (bytes + rest));
    assert(stream.subrange(4, 4 + bytes.len() as int) =~= bytes);
    assert(stream.skip(4 + bytes.len() as int) =~= rest);
}

/// A string of at most 255 UTF-8 bytes is written with its exact length in
/// the length byte, so a reader can take the string back.
pub proof fn law_pascal_string_length(chars: Seq<char>, rest: Seq<u8>)
    requires
        encode_utf8(chars).len() <= 255,
    ensures
        ({
            let stream = pascal_string_encoding(chars) + rest;
            &&& stream[0] as nat == encode_utf8(chars).len()
            &&& stream.subrange(1, 1 + stream[0] as int) == encode_utf8(chars)
            &&& stream.skip(1 + stream[0] as int) == rest
        }),
{
    let bytes = encode_utf8(chars);
    let n = bytes.len() as usize;
    assert(n as u8 == n);
    let stream = pascal_string_encoding(chars) + rest;
    assert(stream.subrange(1, 1 + bytes.len() as int) =~= bytes);
    assert(stream.skip(1 + bytes.len() as int) =~= rest);
}

/// A list of byte arrays is written as its length, then each array in list
/// order as its `i32` length and its bytes: the empty list is the count
/// alone, and one more array at the end of a list adds exactly its length
/// and bytes after everything the shorter list wrote.
pub proof fn law_list_of_arrays_in_order(arrays: Seq<Seq<u8>>, a: Seq<u8>)
    ensures
        list_of_arrays_encoding(arrays).take(4) == spec_u32_to_le_bytes(arrays.len() as i32 as u32),
        list_of_arrays_encoding(Seq::<Seq<u8>>::empty()).skip(4) == Seq::<u8>::empty(),
        list_of_arrays_encoding(arrays.push(a)).skip(4) == list_of_arrays_encoding(arrays).skip(4)
            + spec_u32_to_le_bytes(a.len() as i32 as u32) + a,
{
    lemma_auto_spec_u32_to_from_le_bytes();
    let enc = |x: Seq<u8>| byte_array_encoding(x);
    let n = arrays.len() as i32;
    let body = arrays.map_values(enc).flatten();
    assert(list_of_arrays_encoding(arrays).take(4) =~= i32_encoding(n));
    assert(list_of_arrays_encoding(arrays).skip(4) =~= body);
    let e = Seq::<Seq<u8>>::empty();
    assert(e.map_values(enc) =~= Seq::<Seq<u8>>::empty());
    assert(list_of_arrays_encoding(e).skip(4) =~= e.map_values(enc).flatten());
    assert(arrays.push(a).map_values(enc) =~= arrays.map_values(enc).push(enc(a)));
    arrays.map_values(enc).lemma_flatten_push(enc(a));
    let m = arrays.push(a).len() as i32;
    assert(list_of_arrays_encoding(arrays.push(a)).skip(4) =~= arrays.push(a).map_values(enc).flatten());
    assert(enc(a) =~= spec_u32_to_le_bytes(a.len() as i32 as u32) + a);
    assert(body + enc(a) =~= body + spec_u32_to_le_bytes(a.len() as i32 as u32) + a);
}

/// A list of strings is written as its length, then each string in list
/// order as its length byte (its UTF-8 length cut to a byte) and its UTF-8
/// bytes: the empty list is the count alone, and one more string at the end
/// of a list adds exactly its length byte and bytes after everything the
/// shorter list wrote.
pub proof fn law_list_of_pascal_strings_in_order(strings: Seq<Seq<char>>, s: Seq<char>)
    ensures
        list_of_pascal_strings_encoding(strings).take(4) == spec_u32_to_le_bytes(
            strings.len() as i32 as u32,
        ),
        list_of_pascal_strings_encoding(Seq::<Seq<char>>::empty()).skip(4) == Seq::<u8>::empty(),
        list_of_pascal_strings_encoding(strings.push(s)).skip(4) == list_of_pascal_strings_encoding(
            strings,
        ).skip(4) + seq![(encode_utf8(s).len() as usize) as u8] + encode_utf8(s),
{
    lemma_auto_spec_u32_to_from_le_bytes();
    let enc = |x: Seq<char>| pascal_string_encoding(x);
    let n = strings.len() as i32;
    let body = strings.map_values(enc).flatten();
    assert(list_of_pascal_strings_encoding(strings).take(4) =~= i32_encoding(n));
    assert(list_of_pascal_strings_encoding(strings).skip(4) =~= body);
    let e = Seq::<Seq<char>>::empty();
    assert(e.map_values(enc) =~= Seq::<Seq<u8>>::empty());
    assert(list_of_pascal_strings_encoding(e).skip(4) =~= e.map_values(enc).flatten());
    assert(strings.push(s).map_values(enc) =~= strings.map_values(enc).push(enc(s)));
    strings.map_values(enc).lemma_flatten_push(enc(s));
    assert(list_of_pascal_strings_encoding(strings.push(s)).skip(4) =~= strings.push(s).map_values(
        enc,
    ).flatten());
    assert(body + enc(s) =~= body + seq![(encode_utf8(s).len() as usize) as u8] + encode_utf8(s));
}

} // verus!
