use my_tcp_sockets::socket_reader::{ReadBuffer, ReadingTcpContractFail, SocketReaderMock};
use my_tcp_sockets::tcp_connection::{
    client_keep_alive_tick, ConnectionStatistics, KeepAliveAction, PingCountdown, TcpPayloads,
    TcpThreadStatus,
};
use my_tcp_sockets::ThreadAmount;

fn write(read_buffer: &mut ReadBuffer, bytes: &[u8]) {
    let tail = read_buffer.get_buffer_to_write().unwrap();
    tail[..bytes.len()].copy_from_slice(bytes);
    read_buffer.commit_written_size(bytes.len());
}

#[test]
fn a_stale_packet_end_makes_a_later_round_skip_bytes() {
    let mut read_buffer = ReadBuffer::new(8);
    write(&mut read_buffer, &[1, 13, 10, 2]);
    assert!(read_buffer.find_sequence(&[13, 10]));
    assert_eq!(vec![1, 13, 10], read_buffer.get_package().to_vec());

    let mut reader = SocketReaderMock::new();
    reader.push(&[3, 13, 10]);
    let result = reader.read_until_end_marker(&mut read_buffer, &[13, 10]);
    assert!(matches!(result, Err(ReadingTcpContractFail::SocketDisconnected)));
    assert_eq!(0, read_buffer.pos_start());
    assert_eq!(1, read_buffer.pos_end());
}

#[test]
fn a_packet_across_one_round_is_returned_and_consumed() {
    let mut read_buffer = ReadBuffer::new(8);
    let mut reader = SocketReaderMock::new();
    reader.push(&[7, 13, 10, 8]);
    let package = reader
        .read_until_end_marker(&mut read_buffer, &[13, 10])
        .unwrap()
        .to_vec();
    assert_eq!(vec![7, 13, 10], package);
    let result = reader.read_until_end_marker(&mut read_buffer, &[13, 10]);
    assert!(matches!(result, Err(ReadingTcpContractFail::SocketDisconnected)));
}

#[test]
fn packets_are_cut_from_the_stream_in_order() {
    let mut read_buffer = ReadBuffer::new(16);
    write(&mut read_buffer, &[1, 13, 10, 2, 3, 13, 10, 4]);
    assert!(read_buffer.find_sequence(&[13, 10]));
    assert_eq!(vec![1, 13, 10], read_buffer.get_package().to_vec());
    assert!(read_buffer.find_sequence(&[13, 10]));
    assert_eq!(vec![2, 3, 13, 10], read_buffer.get_package().to_vec());
    assert_eq!(false, read_buffer.find_sequence(&[13, 10]));
    assert_eq!(0, read_buffer.pos_start());
    assert_eq!(1, read_buffer.pos_end());
}

#[test]
fn compaction_shifts_the_whole_tail_to_the_front() {
    let mut read_buffer = ReadBuffer::new(6);
    write(&mut read_buffer, &[1, 2, 3, 4, 5]);
    assert!(read_buffer.find_sequence(&[1, 2]));
    assert_eq!(false, read_buffer.find_sequence(&[9, 9]));
    assert_eq!(3, read_buffer.pos_end());
    let tail = read_buffer.get_buffer_to_write().unwrap();
    assert_eq!(&[0, 5, 0], tail);
}

#[test]
fn an_exactly_full_payload_leaves_no_empty_one_behind() {
    let mut payloads = TcpPayloads::new(10);
    payloads.add_payload(&[1, 2, 3, 4, 5, 6, 7, 8, 9, 10]);
    assert_eq!(Some(vec![1, 2, 3, 4, 5, 6, 7, 8, 9, 10]), payloads.get_payload());
    assert_eq!(None, payloads.get_payload());
}

#[test]
fn size_moves_with_add_and_take() {
    let mut payloads = TcpPayloads::new(4);
    payloads.add_payload(&[1, 2, 3, 4, 5, 6]);
    assert_eq!(6, payloads.get_size());
    let taken = payloads.get_payload().unwrap();
    assert_eq!(6 - taken.len(), payloads.get_size());
}

#[test]
fn thread_count_is_increases_less_decreases() {
    let mut amount = ThreadAmount::default();
    amount.increase();
    amount.increase();
    amount.decrease();
    amount.increase();
    amount.decrease();
    amount.decrease();
    amount.decrease();
    assert_eq!(-1, amount.get());
}

#[test]
fn client_keep_alive_pings_every_period_and_stops_on_a_finished_thread() {
    let mut countdown = PingCountdown::new(2);
    let mut statistics = ConnectionStatistics::new(0);
    let running = TcpThreadStatus::Started;
    statistics.update_read_amount(5, 10);
    let first = client_keep_alive_tick(&mut countdown, &running, &running, &mut statistics, 1_000_000);
    assert_eq!(KeepAliveAction::Wait, first);
    assert_eq!(5, statistics.received_per_sec.get_value());
    assert_eq!(0, statistics.ping_start);
    let second = client_keep_alive_tick(&mut countdown, &running, &running, &mut statistics, 2_000_000);
    assert_eq!(KeepAliveAction::SendPing, second);
    assert_eq!(2_000_000, statistics.ping_start);
    assert_eq!(0, statistics.received_per_sec.get_value());
    let finished = TcpThreadStatus::Finished;
    let third = client_keep_alive_tick(&mut countdown, &finished, &running, &mut statistics, 3_000_000);
    assert_eq!(KeepAliveAction::Disconnect, third);
    assert_eq!(2_000_000, statistics.ping_start);
}

#[test]
fn a_failed_send_stops_the_round_without_booking() {
    let mut statistics = ConnectionStatistics::new(0);
    assert!(statistics.record_send_result(true, 7, 50));
    assert_eq!(7, statistics.total_sent);
    assert_eq!(50, statistics.last_send_moment);
    assert!(!statistics.record_send_result(false, 9, 60));
    assert_eq!(7, statistics.total_sent);
    assert_eq!(50, statistics.last_send_moment);
}
