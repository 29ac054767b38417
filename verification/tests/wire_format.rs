use my_tcp_sockets::encoding::{decode_i32, decode_i64, decode_u32, decode_u64};
use my_tcp_sockets::socket_reader::SocketReaderMock;
use my_tcp_sockets::TcpWriteBuffer;

#[test]
fn integers_are_written_little_endian() {
    let mut out: Vec<u8> = Vec::new();
    out.write_i16(-2);
    out.write_u16(0x0102);
    out.write_i32(-1);
    out.write_u32(0x01020304);
    out.write_i64(1);
    out.write_u64(0x0102030405060708);
    assert_eq!(
        out,
        vec![
            0xfe, 0xff, 0x02, 0x01, 0xff, 0xff, 0xff, 0xff, 0x04, 0x03, 0x02, 0x01, 1, 0, 0, 0,
            0, 0, 0, 0, 8, 7, 6, 5, 4, 3, 2, 1
        ]
    );
}

#[test]
fn bools_strings_and_arrays() {
    let mut out: Vec<u8> = Vec::new();
    out.write_bool(true);
    out.write_bool(false);
    out.write_pascal_string("hé");
    out.write_byte_array(&[9, 8]);
    assert_eq!(out, vec![1, 0, 3, b'h', 0xc3, 0xa9, 2, 0, 0, 0, 9, 8]);
}

#[test]
fn lists_carry_their_length_first() {
    let mut out: Vec<u8> = Vec::new();
    out.serialize_list_of_arrays(&vec![vec![1], vec![]]);
    out.write_list_of_pascal_strings(&vec!["ab".to_string()]);
    assert_eq!(
        out,
        vec![2, 0, 0, 0, 1, 0, 0, 0, 1, 0, 0, 0, 0, 1, 0, 0, 0, 2, b'a', b'b']
    );
}

#[test]
fn long_pascal_string_length_is_cut_to_a_byte() {
    let long = "x".repeat(300);
    let mut out: Vec<u8> = Vec::new();
    out.write_pascal_string(&long);
    assert_eq!(44, out[0]);
    assert_eq!(301, out.len());
}

#[test]
fn decoders_read_little_endian() {
    assert_eq!(-2, decode_i32(&[0xfe, 0xff, 0xff, 0xff]));
    assert_eq!(0x01020304, decode_u32(&[4, 3, 2, 1]));
    assert_eq!(-1, decode_i64(&[0xff; 8]));
    assert_eq!(0x0102030405060708, decode_u64(&[8, 7, 6, 5, 4, 3, 2, 1]));
}

#[test]
fn what_is_written_reads_back() {
    let mut out: Vec<u8> = Vec::new();
    out.write_i32(-123456);
    out.write_bool(true);
    out.write_i64(i64::MIN);
    out.write_byte_array(&[5, 6, 7]);
    out.write_byte(42);

    let mut reader = SocketReaderMock::new();
    reader.push(&out);
    assert_eq!(-123456, reader.read_i32().unwrap());
    assert_eq!(true, reader.read_bool().unwrap());
    assert_eq!(i64::MIN, reader.read_i64().unwrap());
    assert_eq!(vec![5, 6, 7], reader.read_byte_array().unwrap());
    assert_eq!(42, reader.read_byte().unwrap());
}
