use eris::error::RpcError;
use eris::frame::{encode_frame, FrameBuffer};

#[test]
fn frame_of_three_bytes_has_a_four_byte_prefix() {
    let frame = encode_frame(&vec![1u8, 2, 3]).unwrap();
    assert_eq!(frame, vec![0u8, 0, 0, 3, 1, 2, 3]);
}

#[test]
fn frame_of_nothing_is_the_prefix_alone() {
    let frame = encode_frame(&Vec::new()).unwrap();
    assert_eq!(frame, vec![0u8, 0, 0, 0]);
}

#[test]
fn prefix_has_the_most_significant_byte_first() {
    let message = vec![7u8; 0x0102_03];
    let frame = encode_frame(&message).unwrap();
    assert_eq!(&frame[..4], &[0u8, 1, 2, 3]);
    assert_eq!(frame.len(), 4 + 0x0102_03);
    assert_eq!(&frame[4..], &message[..]);
}

#[test]
fn buffer_hands_out_nothing_until_the_frame_is_whole() {
    let frame = encode_frame(&vec![10u8, 20, 30, 40, 50]).unwrap();
    let mut buffer = FrameBuffer::new();
    for cut in 0..frame.len() {
        buffer.extend(&vec![frame[cut]]);
        if cut + 1 < frame.len() {
            assert_eq!(buffer.next_message(), None);
            assert_eq!(buffer.len(), cut + 1);
        }
    }
    assert_eq!(buffer.next_message(), Some(vec![10u8, 20, 30, 40, 50]));
    assert_eq!(buffer.len(), 0);
    assert_eq!(buffer.next_message(), None);
}

#[test]
fn buffer_splits_two_frames_that_arrive_together() {
    let mut bytes = encode_frame(&vec![1u8]).unwrap();
    bytes.extend(encode_frame(&vec![2u8, 3]).unwrap());
    bytes.extend(vec![0u8, 0]);
    let mut buffer = FrameBuffer::new();
    buffer.extend(&bytes);
    assert_eq!(buffer.next_message(), Some(vec![1u8]));
    assert_eq!(buffer.next_message(), Some(vec![2u8, 3]));
    assert_eq!(buffer.next_message(), None);
    assert_eq!(buffer.len(), 2);
}

#[test]
fn buffer_takes_an_empty_message() {
    let mut buffer = FrameBuffer::new();
    buffer.extend(&vec![0u8, 0, 0, 0, 9]);
    assert_eq!(buffer.next_message(), Some(Vec::new()));
    assert_eq!(buffer.len(), 1);
}

#[test]
fn encode_error_is_not_retried() {
    assert!(!RpcError::EncodeError.is_retryable());
}
