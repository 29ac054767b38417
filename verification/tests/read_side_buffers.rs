use my_tcp_sockets::socket_reader::MyReadBuffer;
use my_tcp_sockets::tcp_connection::BufferInStack;

#[test]
fn my_read_buffer_serves_bytes_in_order() {
    let mut buffer = MyReadBuffer::new();
    assert_eq!(16384, buffer.get_buffer_to_write().len());
    buffer.get_buffer_to_write()[..4].copy_from_slice(&[1, 2, 3, 4]);
    buffer.advance_data_len(4);
    assert_eq!(4, buffer.data_len_ready());
    assert_eq!(Some(1), buffer.read_byte());
    let mut target = [0u8; 2];
    assert_eq!(2, buffer.write_into_target(&mut target));
    assert_eq!([2, 3], target);
    let mut target = [9u8; 3];
    assert_eq!(1, buffer.write_into_target(&mut target));
    assert_eq!([4, 9, 9], target);
    assert_eq!(None, buffer.read_byte());
    assert_eq!(0, buffer.data_len_ready());
    assert_eq!(16384, buffer.get_buffer_to_write().len());
}

#[test]
fn my_read_buffer_with_nothing_to_give() {
    let mut buffer = MyReadBuffer::new();
    let mut target = [5u8; 2];
    assert_eq!(0, buffer.write_into_target(&mut target));
    assert_eq!([5, 5], target);
}

#[test]
fn buffer_in_stack_keeps_what_fits() {
    let mut buffer = BufferInStack::new();
    let big = vec![3u8; 65534];
    assert!(buffer.push_as_much_as_possible(&big).is_none());
    assert!(buffer.push_byte(4));
    assert!(!buffer.push_byte(5));
    assert_eq!(65535, buffer.len());
    assert_eq!(Some(&[1u8, 2][..]), buffer.push_as_much_as_possible(&[1, 2]));
    buffer.clear();
    assert_eq!(0, buffer.len());
    let many = vec![7u8; 65536];
    let rest = buffer.push_as_much_as_possible(&many).unwrap();
    assert_eq!(&[7u8], rest);
    assert_eq!(65535, buffer.as_slice().len());
}

#[test]
fn buffer_in_stack_exact_fit_hands_back_an_empty_rest() {
    let mut buffer = BufferInStack::new();
    let exact = vec![1u8; 65535];
    let rest = buffer.push_as_much_as_possible(&exact).unwrap();
    assert!(rest.is_empty());
    assert_eq!(&[1u8, 1], &buffer.as_slice()[..2]);
}
