use my_tcp_sockets::socket_reader::{arrays_are_equal, ReadBuffer};

#[test]
fn test_array_eq_algo() {
    let data1 = [0u8; 3];
    let data2 = [0u8; 3];

    assert_eq!(true, arrays_are_equal(&data1[..], &data2[..]));
}

#[test]
fn test_brand_new_read_buffer() {
    const MAX_CAPACITY: usize = 10;
    let read_buffer = ReadBuffer::new(MAX_CAPACITY);

    assert_eq!(MAX_CAPACITY, read_buffer.max_capacity());
    assert_eq!(0, read_buffer.pos_start());
    assert_eq!(0, read_buffer.pos_end());
    assert_eq!(MAX_CAPACITY, read_buffer.buffer_len());
}

#[test]
fn test_we_have_exact_amount_of_data() {
    let mut read_buffer = ReadBuffer::new(10);
    let seq_to_fine = vec![13u8, 10u8];

    {
        let buffer_to_write = read_buffer.get_buffer_to_write().unwrap();

        assert_eq!(10, buffer_to_write.len());

        buffer_to_write[0] = 51;
        buffer_to_write[1] = 52;
        buffer_to_write[2] = 53;
        buffer_to_write[3] = 13;
        buffer_to_write[4] = 10;
    }

    read_buffer.commit_written_size(5);

    let found_result = read_buffer.find_sequence(seq_to_fine.as_ref());

    assert_eq!(true, found_result);

    assert_eq!(read_buffer.get_package().to_vec(), vec![51, 52, 53, 13, 10]);
}

#[test]
fn test_we_two_payloads_exact_size() {
    let mut read_buffer = ReadBuffer::new(10);
    let seq_to_fine = vec![13u8, 10u8];

    {
        let buffer_to_write = read_buffer.get_buffer_to_write().unwrap();

        assert_eq!(10, buffer_to_write.len());

        buffer_to_write[0] = 51;
        buffer_to_write[1] = 52;
        buffer_to_write[2] = 53;
        buffer_to_write[3] = 13;
        buffer_to_write[4] = 10;

        buffer_to_write[5] = 54;
        buffer_to_write[6] = 55;
        buffer_to_write[7] = 56;
        buffer_to_write[8] = 13;
        buffer_to_write[9] = 10;
    }

    read_buffer.commit_written_size(10);

    let found_result = read_buffer.find_sequence(seq_to_fine.as_ref());
    assert_eq!(true, found_result);
    assert_eq!(read_buffer.get_package().to_vec(), vec![51, 52, 53, 13, 10]);

    let found_result = read_buffer.find_sequence(seq_to_fine.as_ref());
    assert_eq!(true, found_result);
    assert_eq!(read_buffer.get_package().to_vec(), vec![54, 55, 56, 13, 10]);

    let found_result = read_buffer.find_sequence(seq_to_fine.as_ref());

    assert_eq!(false, found_result);

    assert_eq!(0, read_buffer.pos_start());
    assert_eq!(0, read_buffer.pos_end());
}

#[test]
fn arrays_of_different_length_or_content_differ() {
    assert!(!arrays_are_equal(&[1, 2, 3], &[1, 2]));
    assert!(!arrays_are_equal(&[1, 2, 3], &[1, 2, 4]));
    assert!(arrays_are_equal(&[], &[]));
}

#[test]
fn partial_packet_moves_to_front_and_completes_later() {
    let mut read_buffer = ReadBuffer::new(8);
    {
        let buf = read_buffer.get_buffer_to_write().unwrap();
        buf[..3].copy_from_slice(&[1, 2, 3]);
    }
    read_buffer.commit_written_size(3);
    assert!(!read_buffer.find_sequence(&[13, 10]));
    assert_eq!(0, read_buffer.pos_start());
    assert_eq!(3, read_buffer.pos_end());
    {
        let buf = read_buffer.get_buffer_to_write().unwrap();
        assert_eq!(5, buf.len());
        buf[..2].copy_from_slice(&[13, 10]);
    }
    read_buffer.commit_written_size(2);
    assert!(read_buffer.find_sequence(&[13, 10]));
    assert_eq!(read_buffer.get_package(), &[1, 2, 3, 13, 10]);
}

#[test]
fn full_buffer_without_consumed_bytes_has_no_room() {
    let mut read_buffer = ReadBuffer::new(4);
    {
        let buf = read_buffer.get_buffer_to_write().unwrap();
        buf.copy_from_slice(&[1, 2, 3, 4]);
    }
    read_buffer.commit_written_size(4);
    assert!(read_buffer.get_buffer_to_write().is_none());
}

#[test]
fn full_buffer_after_packet_frees_room_for_the_rest() {
    let mut read_buffer = ReadBuffer::new(6);
    {
        let buf = read_buffer.get_buffer_to_write().unwrap();
        buf.copy_from_slice(&[7, 0, 8, 9, 1, 2]);
    }
    read_buffer.commit_written_size(6);
    assert!(read_buffer.find_sequence(&[0]));
    assert_eq!(read_buffer.get_package(), &[7, 0]);
    assert!(!read_buffer.find_sequence(&[0]));
    assert_eq!(0, read_buffer.pos_start());
    assert_eq!(4, read_buffer.pos_end());
    let buf = read_buffer.get_buffer_to_write().unwrap();
    assert_eq!(2, buf.len());
}

#[test]
fn first_of_two_markers_ends_the_packet() {
    let mut read_buffer = ReadBuffer::new(10);
    {
        let buf = read_buffer.get_buffer_to_write().unwrap();
        buf[..6].copy_from_slice(&[5, 9, 9, 6, 9, 9]);
    }
    read_buffer.commit_written_size(6);
    assert!(read_buffer.can_find_sequence());
    assert!(read_buffer.find_sequence(&[9, 9]));
    assert_eq!(read_buffer.get_package(), &[5, 9, 9]);
    assert!(read_buffer.find_sequence(&[9, 9]));
    assert_eq!(read_buffer.get_package(), &[6, 9, 9]);
}
