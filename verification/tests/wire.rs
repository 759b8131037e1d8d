//! Messages on a stream of bytes: a length, and then so many bytes.
use misterdrillerterm::agreement::{ErrorKind, NetError};
use misterdrillerterm::wire::{
    payload_length, read_frame, write_frame, LENGTH_PREFIX_BYTES, MAX_MESSAGE_PAYLOAD_BYTES,
};

#[test]
fn the_length_prefix_is_four_big_endian_bytes_of_the_payload_length() {
    let buffer = write_frame(&vec![9, 8, 7]).unwrap();

    let length = u32::from_be_bytes(buffer[..LENGTH_PREFIX_BYTES].try_into().unwrap()) as usize;
    assert_eq!(length, buffer.len() - LENGTH_PREFIX_BYTES);
    assert_eq!(buffer, vec![0, 0, 0, 3, 9, 8, 7]);
}

#[test]
fn messages_written_back_to_back_are_read_back_in_order() {
    let first = vec![1, 2, 3];
    let second = vec![];
    let third = vec![4];

    let mut buffer = Vec::new();
    buffer.extend(write_frame(&first).unwrap());
    buffer.extend(write_frame(&second).unwrap());
    buffer.extend(write_frame(&third).unwrap());

    let mut rest = buffer.as_slice();
    for expected in [first, second, third] {
        let (payload, used) = read_frame(rest).unwrap();
        assert_eq!(payload, expected);
        rest = &rest[used..];
    }
    assert!(rest.is_empty());
}

#[test]
fn reading_from_an_empty_or_truncated_stream_fails() {
    assert!(read_frame(&[]).is_err());
    assert_eq!(read_frame(&[]), Err(NetError::Truncated));

    let mut truncated = write_frame(&vec![1, 2, 3]).unwrap();
    truncated.pop();
    assert!(read_frame(&truncated).is_err());
    assert_eq!(read_frame(&truncated), Err(NetError::Truncated));
}

#[test]
fn a_payload_at_the_size_limit_is_still_read_back() {
    let payload = vec![7u8; MAX_MESSAGE_PAYLOAD_BYTES];

    let buffer = write_frame(&payload).unwrap();
    assert_eq!(buffer.len() - LENGTH_PREFIX_BYTES, MAX_MESSAGE_PAYLOAD_BYTES);

    assert_eq!(read_frame(&buffer).unwrap(), (payload, buffer.len()));
}

#[test]
fn a_length_prefix_over_the_limit_is_rejected_before_allocating() {
    for length in [u32::try_from(MAX_MESSAGE_PAYLOAD_BYTES + 1).unwrap(), u32::MAX] {
        let err = payload_length(length.to_be_bytes()).unwrap_err();

        assert_eq!(err, NetError::TooLong { length: length as usize });
        assert_eq!(err.kind(), ErrorKind::InvalidData);
        assert_eq!(read_frame(&length.to_be_bytes()), Err(err));
    }
}
