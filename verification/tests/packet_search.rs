use my_tcp_sockets::socket_reader::{
    commit_read_and_search, search_end_marker, ReadBuffer, ReadingTcpContractFail,
};

fn write(read_buffer: &mut ReadBuffer, bytes: &[u8]) {
    let tail = read_buffer.get_buffer_to_write().unwrap();
    tail[..bytes.len()].copy_from_slice(bytes);
}

#[test]
fn search_finds_a_packet_already_buffered() {
    let mut read_buffer = ReadBuffer::new(10);
    write(&mut read_buffer, &[1, 2, 13, 10, 3]);
    read_buffer.commit_written_size(5);
    assert!(search_end_marker(&mut read_buffer, &[13, 10]).unwrap());
    assert_eq!(vec![1, 2, 13, 10], read_buffer.get_package().to_vec());
}

#[test]
fn search_without_the_marker_asks_for_more() {
    let mut read_buffer = ReadBuffer::new(10);
    write(&mut read_buffer, &[1, 2, 3]);
    read_buffer.commit_written_size(3);
    assert_eq!(false, search_end_marker(&mut read_buffer, &[13, 10]).unwrap());
    assert_eq!(0, read_buffer.pos_start());
    assert_eq!(3, read_buffer.pos_end());
}

#[test]
fn a_read_of_nothing_is_a_disconnect() {
    let mut read_buffer = ReadBuffer::new(10);
    let result = commit_read_and_search(&mut read_buffer, 0, &[13, 10]);
    assert!(matches!(result, Err(ReadingTcpContractFail::SocketDisconnected)));
    assert_eq!(0, read_buffer.pos_end());
}

#[test]
fn a_read_completes_a_packet_across_rounds() {
    let mut read_buffer = ReadBuffer::new(10);
    write(&mut read_buffer, &[7, 8, 13]);
    assert_eq!(false, commit_read_and_search(&mut read_buffer, 3, &[13, 10]).unwrap());
    write(&mut read_buffer, &[10, 9]);
    assert!(commit_read_and_search(&mut read_buffer, 2, &[13, 10]).unwrap());
    assert_eq!(vec![7, 8, 13, 10], read_buffer.get_package().to_vec());
    assert_eq!(false, search_end_marker(&mut read_buffer, &[13, 10]).unwrap());
    assert_eq!(0, read_buffer.pos_start());
    assert_eq!(1, read_buffer.pos_end());
}

#[test]
fn a_search_past_the_written_data_is_refused() {
    let mut read_buffer = ReadBuffer::new(10);
    write(&mut read_buffer, &[1, 2, 3, 4, 13, 10]);
    read_buffer.commit_written_size(6);
    assert!(search_end_marker(&mut read_buffer, &[13, 10]).unwrap());
    assert_eq!(false, search_end_marker(&mut read_buffer, &[13, 10]).unwrap());
    write(&mut read_buffer, &[5, 6, 7]);
    let result = commit_read_and_search(&mut read_buffer, 3, &[13, 10]);
    assert!(matches!(result, Err(ReadingTcpContractFail::ErrorReadingSize)));
    assert_eq!(3, read_buffer.pos_end());
}
