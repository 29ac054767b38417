use my_tcp_sockets::socket_reader::{ReadBuffer, ReadingTcpContractFail, SocketReaderMock};

#[test]
fn read_buf_takes_the_next_bytes() {
    let mut reader = SocketReaderMock::new();
    reader.push(&[1, 2, 3]);
    reader.push(&[4]);
    let mut buf = [0u8; 3];
    reader.read_buf(&mut buf).unwrap();
    assert_eq!([1, 2, 3], buf);
    assert_eq!(4, reader.read_byte().unwrap());
}

#[test]
fn read_bool_is_true_for_any_nonzero_byte() {
    let mut reader = SocketReaderMock::new();
    reader.push(&[0, 7]);
    assert_eq!(false, reader.read_bool().unwrap());
    assert_eq!(true, reader.read_bool().unwrap());
}

#[test]
fn read_until_end_marker_collects_a_packet() {
    let mut reader = SocketReaderMock::new();
    reader.push(&[1, 2, 13, 10, 3]);
    let mut read_buffer = ReadBuffer::new(16);
    let package = reader.read_until_end_marker(&mut read_buffer, &[13, 10]).unwrap().to_vec();
    assert_eq!(vec![1, 2, 13, 10], package);
}

#[test]
fn read_until_end_marker_reports_a_disconnect_without_data() {
    let mut reader = SocketReaderMock::new();
    let mut read_buffer = ReadBuffer::new(16);
    let result = reader.read_until_end_marker(&mut read_buffer, &[13, 10]);
    assert!(matches!(result, Err(ReadingTcpContractFail::SocketDisconnected)));
}

#[test]
fn read_until_end_marker_fails_when_buffer_is_full() {
    let mut reader = SocketReaderMock::new();
    reader.push(&[1, 2, 3]);
    let mut read_buffer = ReadBuffer::new(4);
    read_buffer.get_buffer_to_write().unwrap().copy_from_slice(&[5, 6, 7, 8]);
    read_buffer.commit_written_size(4);
    let result = reader.read_until_end_marker(&mut read_buffer, &[13, 10]);
    assert!(matches!(result, Err(ReadingTcpContractFail::ErrorReadingSize)));
}

#[test]
fn a_round_that_fills_the_tail_commits_one_byte_less() {
    let mut reader = SocketReaderMock::new();
    reader.push(&[1, 2, 3, 4, 5, 6, 7, 8, 9]);
    let mut read_buffer = ReadBuffer::new(4);
    let result = reader.read_until_end_marker(&mut read_buffer, &[13, 10]);
    assert!(matches!(result, Err(ReadingTcpContractFail::SocketDisconnected)));
    assert_eq!(3, read_buffer.pos_end());
}

#[test]
fn conversions_into_the_error() {
    let io = std::io::Error::new(std::io::ErrorKind::Other, "x");
    assert!(matches!(ReadingTcpContractFail::from(io), ReadingTcpContractFail::IoError(_)));
    let utf8 = String::from_utf8(vec![0xff]).unwrap_err();
    assert!(matches!(
        ReadingTcpContractFail::from(utf8),
        ReadingTcpContractFail::ParsingUtf8StringError(_)
    ));
}
