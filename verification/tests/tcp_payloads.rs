use my_tcp_sockets::tcp_connection::TcpPayloads;

#[test]
fn tcp_payloads_test_less_amount_than_buffer() {
    let mut tcp_payloads = TcpPayloads::new(10);

    tcp_payloads.add_payload(&[1, 2, 3, 4, 5]);

    assert_eq!(
        &[1, 2, 3, 4, 5],
        tcp_payloads.get_payload().unwrap().as_slice()
    );

    assert!(tcp_payloads.get_payload().is_none());
}

#[test]
fn tcp_payloads_test_less_amount_exactly_as_buffer() {
    let mut tcp_payloads = TcpPayloads::new(10);

    tcp_payloads.add_payload(&[1, 2, 3, 4, 5, 6, 7, 8, 9, 10]);

    assert_eq!(
        &[1, 2, 3, 4, 5, 6, 7, 8, 9, 10],
        tcp_payloads.get_payload().unwrap().as_slice()
    );

    assert!(tcp_payloads.get_payload().is_none());
}

#[test]
fn test_ammount_bugger_than_buffer() {
    let mut tcp_payloads = TcpPayloads::new(10);

    tcp_payloads.add_payload(&[1, 2, 3, 4, 5, 6, 7, 8, 9, 10, 11, 12]);

    assert_eq!(
        &[1, 2, 3, 4, 5, 6, 7, 8, 9, 10],
        tcp_payloads.get_payload().unwrap().as_slice()
    );

    assert_eq!(&[11, 12,], tcp_payloads.get_payload().unwrap().as_slice());

    assert!(tcp_payloads.get_payload().is_none());
}

#[test]
fn test_ammount_bugger_than_buffer_and_append_second_time_not_full_amount() {
    let mut tcp_payloads = TcpPayloads::new(10);

    tcp_payloads.add_payload(&[1, 2, 3, 4, 5, 6, 7, 8, 9, 10, 11, 12]);

    tcp_payloads.add_payload(&[13, 14, 15]);
    assert_eq!(
        &[1, 2, 3, 4, 5, 6, 7, 8, 9, 10],
        tcp_payloads.get_payload().unwrap().as_slice()
    );

    assert_eq!(
        &[11, 12, 13, 14, 15],
        tcp_payloads.get_payload().unwrap().as_slice()
    );

    assert!(tcp_payloads.get_payload().is_none());
}

#[test]
fn test_ammount_bugger_than_buffer_and_append_second_time_full_amount() {
    let mut tcp_payloads = TcpPayloads::new(10);

    tcp_payloads.add_payload(&[1, 2, 3, 4, 5, 6, 7, 8, 9, 10, 11, 12]);

    tcp_payloads.add_payload(&[13, 14, 15, 16, 17, 18, 19, 20]);
    assert_eq!(
        &[1, 2, 3, 4, 5, 6, 7, 8, 9, 10],
        tcp_payloads.get_payload().unwrap().as_slice()
    );

    assert_eq!(
        &[11, 12, 13, 14, 15, 16, 17, 18, 19, 20],
        tcp_payloads.get_payload().unwrap().as_slice()
    );

    assert!(tcp_payloads.get_payload().is_none());
}

#[test]
fn test_ammount_bugger_than_buffer_and_append_second_time_more_than_full_amount() {
    let mut tcp_payloads = TcpPayloads::new(10);

    tcp_payloads.add_payload(&[1, 2, 3, 4, 5, 6, 7, 8, 9, 10, 11, 12]);

    tcp_payloads.add_payload(&[13, 14, 15, 16, 17, 18, 19, 20, 21]);
    assert_eq!(
        &[1, 2, 3, 4, 5, 6, 7, 8, 9, 10],
        tcp_payloads.get_payload().unwrap().as_slice()
    );

    assert_eq!(
        &[11, 12, 13, 14, 15, 16, 17, 18, 19, 20],
        tcp_payloads.get_payload().unwrap().as_slice()
    );

    assert_eq!(&[21], tcp_payloads.get_payload().unwrap().as_slice());

    assert!(tcp_payloads.get_payload().is_none());
}

#[test]
fn payload_size_counts_every_queued_byte() {
    let mut tcp_payloads = TcpPayloads::new(4);
    assert_eq!(0, tcp_payloads.get_size());
    tcp_payloads.add_payload(&[1, 2, 3, 4, 5, 6]);
    assert_eq!(6, tcp_payloads.get_size());
    tcp_payloads.shrink_capacity();
    assert_eq!(6, tcp_payloads.get_size());
    assert_eq!(vec![1, 2, 3, 4], tcp_payloads.get_payload().unwrap());
    assert_eq!(2, tcp_payloads.get_size());
}

#[test]
fn empty_payload_leaves_an_empty_chunk() {
    let mut tcp_payloads = TcpPayloads::new(4);
    tcp_payloads.add_payload(&[]);
    assert_eq!(Some(vec![]), tcp_payloads.get_payload());
    assert!(tcp_payloads.get_payload().is_none());
}
