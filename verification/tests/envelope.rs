use inference_gateway::envelope::{connect_envelope, FrameReader};

#[test]
fn envelopes_are_a_flag_a_length_and_the_message() {
    assert_eq!(&connect_envelope(b"hi", false)[..], b"\x00\x00\x00\x00\x02hi");
    assert_eq!(&connect_envelope(b"", true)[..], b"\x02\x00\x00\x00\x00");
    let long = vec![7u8; 70_000];
    let bytes = connect_envelope(&long, false);
    assert_eq!(&bytes[..5], b"\x00\x00\x01\x11\x70");
    assert_eq!(&bytes[5..], &long[..]);
}

#[test]
fn messages_come_out_as_they_went_in() {
    let mut stream: Vec<u8> = Vec::new();
    stream.extend_from_slice(&connect_envelope(b"first", false));
    stream.extend_from_slice(&connect_envelope(b"", false));
    stream.extend_from_slice(&connect_envelope(b"last", true));
    for cut in 0..=stream.len() {
        let mut reader = FrameReader::new();
        let mut frames = Vec::new();
        for chunk in [&stream[..cut], &stream[cut..]] {
            reader.push(chunk);
            while let Some(frame) = reader.next_frame() {
                frames.push((frame.is_end_stream(), frame.message.to_vec()));
            }
        }
        assert_eq!(
            frames,
            vec![
                (false, b"first".to_vec()),
                (false, b"".to_vec()),
                (true, b"last".to_vec()),
            ]
        );
        assert_eq!(reader.waiting(), 0);
    }
}

#[test]
fn an_incomplete_envelope_waits() {
    let mut reader = FrameReader::new();
    reader.push(b"\x00\x00\x00\x00\x03ab");
    assert!(reader.next_frame().is_none());
    assert_eq!(reader.waiting(), 7);
    reader.push(b"c\x03");
    let frame = reader.next_frame().unwrap();
    assert_eq!(&frame.message[..], b"abc");
    assert_eq!(reader.waiting(), 1);
    assert!(reader.next_frame().is_none());
    reader.push(b"\x00\x00\x00\x00");
    assert!(reader.next_frame().unwrap().is_end_stream());
}
