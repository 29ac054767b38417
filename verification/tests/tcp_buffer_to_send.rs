use my_tcp_sockets::tcp_connection::{TcpBufferChunk, TcpBufferToSend};
use my_tcp_sockets::TcpWriteBuffer;

#[test]
fn test_overload() {
    let mut chunk = TcpBufferChunk::new(5);

    let data_to_add = vec![0u8, 1u8, 2u8, 3u8, 4u8, 5u8, 6u8, 7u8, 8u8, 9u8];

    chunk.push_slice(&data_to_add);

    assert_eq!(chunk.reusable_buffer(), &[0u8, 1u8, 2u8, 3u8, 4u8]);

    assert_eq!(chunk.additional_buffer(), &[5u8, 6u8, 7u8, 8u8, 9u8]);
}

#[test]
fn tcp_buffer_to_send_test_less_amount_than_buffer() {
    let mut tcp_payloads = TcpBufferToSend::new(10);

    tcp_payloads.add_payload(&[1, 2, 3, 4, 5]);

    let mut chunk = tcp_payloads.get_payload().unwrap();

    assert_eq!(&[1, 2, 3, 4, 5], chunk.get_next_slice_to_send(10).unwrap());

    assert!(chunk.get_next_slice_to_send(10).is_none());

    tcp_payloads.reuse_payload(chunk);

    tcp_payloads.add_payload(&[1, 2, 3, 4, 5]);
    let mut chunk = tcp_payloads.get_payload().unwrap();

    assert_eq!(&[1, 2, 3, 4, 5], chunk.get_next_slice_to_send(10).unwrap());

    assert!(chunk.get_next_slice_to_send(10).is_none());

    tcp_payloads.reuse_payload(chunk);
}

#[test]
fn tcp_buffer_to_send_test_less_amount_exactly_as_buffer() {
    let mut tcp_payloads = TcpBufferToSend::new(10);

    tcp_payloads.add_payload(&[1, 2, 3, 4, 5, 6, 7, 8, 9, 10]);

    let mut chunk = tcp_payloads.get_payload().unwrap();

    assert_eq!(
        &[1, 2, 3, 4, 5, 6, 7, 8, 9, 10],
        chunk.get_next_slice_to_send(10).unwrap()
    );

    assert!(chunk.get_next_slice_to_send(10).is_none());

    assert!(tcp_payloads.get_payload().is_none());
}

#[test]
fn test_amount_bugger_than_reusable_buffer() {
    let mut tcp_payloads = TcpBufferToSend::new(10);

    tcp_payloads.add_payload(&[1, 2, 3, 4, 5, 6, 7, 8, 9, 10, 11, 12]);

    let mut chunk = tcp_payloads.get_payload().unwrap();

    assert_eq!(
        &[1, 2, 3, 4, 5, 6, 7, 8, 9, 10],
        chunk.get_next_slice_to_send(10).unwrap()
    );

    assert_eq!(&[11, 12,], chunk.get_next_slice_to_send(10).unwrap());

    assert!(chunk.get_next_slice_to_send(10).is_none());
}

#[test]
fn test_we_add_to_the_same_chunk() {
    let mut tcp_payloads = TcpBufferToSend::new(10);

    tcp_payloads.add_payload(&[1, 2, 3, 4]);

    tcp_payloads.add_payload(&[5, 6, 7]);

    tcp_payloads.add_payload(&[8, 9, 10, 11, 12]);

    let mut chunk = tcp_payloads.get_payload().unwrap();

    assert_eq!(
        &[1, 2, 3, 4, 5, 6, 7, 8, 9, 10],
        chunk.reusable_buffer()
    );

    assert_eq!(&[11, 12], chunk.additional_buffer());

    assert_eq!(
        &[1, 2, 3, 4, 5, 6, 7, 8, 9, 10],
        chunk.get_next_slice_to_send(10).unwrap()
    );

    assert_eq!(&[11, 12], chunk.get_next_slice_to_send(10).unwrap());

    assert!(chunk.get_next_slice_to_send(10).is_none());
}

#[test]
fn overflow_is_sent_in_slices_of_the_given_size() {
    let mut chunk = TcpBufferChunk::new(2);
    chunk.push_slice(&[1, 2, 3, 4, 5, 6, 7]);
    chunk.push_byte(8);
    assert_eq!(8, chunk.len());
    assert_eq!(2, chunk.capacity());
    assert!(!chunk.has_buffer_to_fill());
    assert_eq!(&[1, 2], chunk.get_next_slice_to_send(4).unwrap());
    assert_eq!(&[3, 4, 5, 6], chunk.get_next_slice_to_send(4).unwrap());
    assert_eq!(&[7, 8], chunk.get_next_slice_to_send(4).unwrap());
    assert!(chunk.get_next_slice_to_send(4).is_none());
    chunk.reset();
    assert_eq!(0, chunk.len());
    assert!(chunk.has_buffer_to_fill());
    assert_eq!(&[] as &[u8], chunk.get_next_slice_to_send(4).unwrap());
    assert!(chunk.get_next_slice_to_send(4).is_none());
}

#[test]
fn chunk_takes_typed_writes() {
    let mut chunk = TcpBufferChunk::new(3);
    chunk.write_i32(-2);
    chunk.write_bool(true);
    assert_eq!(&[254, 255, 255], chunk.reusable_buffer());
    assert_eq!(&[255, 1], chunk.additional_buffer());
}

fn two_writes() -> Vec<u8> {
    let mut out: Vec<u8> = Vec::new();
    out.write_byte(7);
    out.write_u16(0x0102);
    out
}

#[test]
fn filler_bytes_are_appended_and_counted() {
    let mut to_send = TcpBufferToSend::new(4);
    to_send.add_payload(&[9]);
    assert_eq!(3, to_send.add_payload_directly_to_chunk(two_writes));
    assert_eq!(4, to_send.get_size());
    let mut chunk = to_send.get_payload().unwrap();
    assert_eq!(&[9, 7, 2, 1], chunk.get_next_slice_to_send(100).unwrap());
    assert_eq!(0, to_send.get_size());
}

#[test]
fn at_most_two_chunks_are_kept_for_reuse() {
    let mut to_send = TcpBufferToSend::default();
    to_send.add_payload(&[1]);
    let a = to_send.get_payload().unwrap();
    to_send.add_payload(&[2]);
    let b = to_send.get_payload().unwrap();
    to_send.add_payload(&[3]);
    let c = to_send.get_payload().unwrap();
    to_send.reuse_payload(a);
    to_send.reuse_payload(b);
    to_send.reuse_payload(c);
    to_send.add_payload(&[4, 5]);
    assert_eq!(2, to_send.get_size());
    let mut d = to_send.get_payload().unwrap();
    assert_eq!(&[4, 5], d.get_next_slice_to_send(10).unwrap());
    assert_eq!(65535, d.capacity());
    assert!(to_send.get_payload().is_some());
    assert!(to_send.get_payload().is_none());
}

#[test]
fn an_open_connection_queues_what_the_fill_wrote() {
    let mut wrapper = my_tcp_sockets::tcp_connection::BufferToSendWrapper::new(4);
    assert_eq!(3, wrapper.push_payload(two_writes));
    assert_eq!(2, wrapper.push_bytes(&[5, 6]));
    let mut chunk = wrapper.get_payload().unwrap();
    assert_eq!(&[7, 2, 1, 5], chunk.get_next_slice_to_send(100).unwrap());
    assert_eq!(&[6], chunk.get_next_slice_to_send(100).unwrap());
}

#[test]
fn a_closed_connection_neither_fills_nor_queues() {
    let mut wrapper = my_tcp_sockets::tcp_connection::BufferToSendWrapper::new(4);
    wrapper.close();
    let calls = std::cell::Cell::new(0);
    let queued = wrapper.push_payload(|| {
        calls.set(calls.get() + 1);
        vec![1, 2, 3]
    });
    assert_eq!(0, queued);
    assert_eq!(0, calls.get());
    assert!(wrapper.get_payload().is_none());
}
