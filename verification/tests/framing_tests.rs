use simple_caro_app::communication::{
    encode_frame, FrameError, FrameReader, HEADER_LEN, MAX_PAYLOAD_LEN,
};

#[test]
fn frame_is_a_big_endian_length_and_the_payload() {
    assert_eq!(encode_frame(&vec![]), Ok(vec![0, 0, 0, 0]));
    assert_eq!(encode_frame(&vec![7, 8, 9]), Ok(vec![0, 0, 0, 3, 7, 8, 9]));
    let frame = encode_frame(&vec![1; 258]).unwrap();
    assert_eq!(&frame[..4], &[0, 0, 1, 2]);
    assert_eq!(frame.len(), HEADER_LEN + 258);
    let frame = encode_frame(&vec![5; 70000]).unwrap();
    assert_eq!(&frame[..4], &[0, 1, 17, 112]);
}

#[test]
fn payload_at_the_limit_is_framed_and_one_byte_more_is_not() {
    let frame = encode_frame(&vec![0; MAX_PAYLOAD_LEN]).unwrap();
    assert_eq!(&frame[..4], &[0, 16, 0, 0]);
    assert_eq!(encode_frame(&vec![0; MAX_PAYLOAD_LEN + 1]), Err(FrameError::TooLong));
}

#[test]
fn reader_hands_out_nothing_before_a_frame_is_whole() {
    let mut reader = FrameReader::new();
    assert_eq!(reader.next_frame(), Ok(None));
    reader.feed(&vec![0, 0]);
    assert_eq!(reader.next_frame(), Ok(None));
    reader.feed(&vec![0, 3]);
    assert_eq!(reader.next_frame(), Ok(None));
    reader.feed(&vec![10, 11]);
    assert_eq!(reader.next_frame(), Ok(None));
    reader.feed(&vec![12]);
    assert_eq!(reader.next_frame(), Ok(Some(vec![10, 11, 12])));
    assert_eq!(reader.next_frame(), Ok(None));
}

#[test]
fn reader_separates_frames_that_arrive_merged() {
    let mut stream = encode_frame(&vec![1, 2]).unwrap();
    stream.extend(encode_frame(&vec![]).unwrap());
    stream.extend(encode_frame(&vec![3]).unwrap());
    stream.extend(vec![0, 0]);
    let mut reader = FrameReader::new();
    reader.feed(&stream);
    assert_eq!(reader.next_frame(), Ok(Some(vec![1, 2])));
    assert_eq!(reader.next_frame(), Ok(Some(vec![])));
    assert_eq!(reader.next_frame(), Ok(Some(vec![3])));
    assert_eq!(reader.next_frame(), Ok(None));
    reader.feed(&vec![0, 1, 9]);
    assert_eq!(reader.next_frame(), Ok(Some(vec![9])));
}

#[test]
fn frames_survive_any_cut_of_the_stream() {
    let payloads: Vec<Vec<u8>> = vec![vec![1, 2, 3], vec![], vec![4; 300], vec![5]];
    let mut stream: Vec<u8> = Vec::new();
    for payload in &payloads {
        stream.extend(encode_frame(payload).unwrap());
    }
    for chunk_len in [1usize, 2, 3, 5, 7, 64, 1000] {
        let mut reader = FrameReader::new();
        let mut received: Vec<Vec<u8>> = Vec::new();
        for chunk in stream.chunks(chunk_len) {
            reader.feed(&chunk.to_vec());
            while let Some(payload) = reader.next_frame().unwrap() {
                received.push(payload);
            }
        }
        assert_eq!(received, payloads);
    }
}

#[test]
fn header_that_announces_too_much_is_an_error_and_stays() {
    let mut reader = FrameReader::new();
    reader.feed(&vec![0, 16, 0, 1, 42]);
    assert_eq!(reader.next_frame(), Err(FrameError::TooLong));
    assert_eq!(reader.next_frame(), Err(FrameError::TooLong));
    let mut reader = FrameReader::new();
    reader.feed(&vec![255, 255, 255, 255]);
    assert_eq!(reader.next_frame(), Err(FrameError::TooLong));
}
