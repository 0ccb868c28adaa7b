use gesture_ease::framing::{encode_frame, FrameDecoder};

fn round_trip_in_chunks(payload: &[u8], chunk: usize) {
    let wire = encode_frame(payload);
    assert_eq!(wire.len(), payload.len() + 4);
    let mut dec = FrameDecoder::new();
    let mut fed = 0;
    while fed < wire.len() {
        let end = usize::min(fed + chunk, wire.len());
        if end < wire.len() {
            dec.push_chunk(&wire[fed..end]);
            if end < 4 {
                assert!(dec.try_frame().is_none());
            }
        } else {
            dec.push_chunk(&wire[fed..end]);
        }
        fed = end;
    }
    let got = dec.try_frame().expect("complete frame must decode");
    assert_eq!(got, payload.to_vec());
    assert!(dec.try_frame().is_none());
}

#[test]
fn frame_round_trip_empty() {
    round_trip_in_chunks(&[], 1);
}

#[test]
fn frame_round_trip_single_byte_chunks() {
    let payload: Vec<u8> = (0..=255).collect();
    round_trip_in_chunks(&payload, 1);
}

#[test]
fn frame_round_trip_odd_chunks() {
    let payload: Vec<u8> = (0..1000u32).map(|i| (i % 251) as u8).collect();
    round_trip_in_chunks(&payload, 7);
}

#[test]
fn frame_round_trip_64kib() {
    let payload: Vec<u8> = vec![0xA5; 64 * 1024];
    round_trip_in_chunks(&payload, 4096);
}

#[test]
fn frame_prefix_is_big_endian() {
    let wire = encode_frame(&[9, 8, 7]);
    assert_eq!(&wire[..4], &[0, 0, 0, 3]);
    assert_eq!(&wire[4..], &[9, 8, 7]);
    let wire = encode_frame(&vec![1u8; 0x01020304]);
    assert_eq!(&wire[..4], &[1, 2, 3, 4]);
}

#[test]
fn decoder_keeps_rest_of_stream() {
    let mut wire = encode_frame(&[1, 2]);
    wire.extend_from_slice(&encode_frame(&[3]));
    let mut dec = FrameDecoder::new();
    dec.push_chunk(&wire);
    assert_eq!(dec.try_frame(), Some(vec![1, 2]));
    assert_eq!(dec.try_frame(), Some(vec![3]));
    assert_eq!(dec.try_frame(), None);
}

#[test]
fn decoder_waits_for_full_payload() {
    let wire = encode_frame(&[1, 2, 3, 4, 5]);
    let mut dec = FrameDecoder::new();
    dec.push_chunk(&wire[..8]);
    assert!(dec.try_frame().is_none());
    dec.push_chunk(&wire[8..]);
    assert_eq!(dec.try_frame(), Some(vec![1, 2, 3, 4, 5]));
}
