use naori_ai::framing::FrameDecoder;

#[test]
fn line_decoder_returns_complete_lines_and_keeps_the_rest() {
    let mut decoder = FrameDecoder::line_delimited();
    let frames = decoder.push(b"one\ntwo\nthr");
    assert_eq!(frames, vec![b"one".to_vec(), b"two".to_vec()]);
    let frames = decoder.push(b"ee\n");
    assert_eq!(frames, vec![b"three".to_vec()]);
    assert_eq!(decoder.take_rest(), Vec::<u8>::new());
}

#[test]
fn event_decoder_splits_on_blank_lines_only() {
    let mut decoder = FrameDecoder::event_delimited();
    let frames = decoder.push(b"event: a\ndata: 1\n\ndata: 2\n");
    assert_eq!(frames, vec![b"event: a\ndata: 1".to_vec()]);
    let frames = decoder.push(b"\nrest");
    assert_eq!(frames, vec![b"data: 2".to_vec()]);
    assert_eq!(decoder.take_rest(), b"rest".to_vec());
}

#[test]
fn framing_is_the_same_for_every_split_point() {
    let stream = b"{\"a\":1}\n\n{\"b\":2}\n\n\n\n{\"c\":3}\n\ntail";
    let mut whole = FrameDecoder::event_delimited();
    let expected = whole.push(stream);
    let expected_rest = whole.take_rest();
    for cut in 0..=stream.len() {
        let mut decoder = FrameDecoder::event_delimited();
        let mut frames = decoder.push(&stream[..cut]);
        frames.extend(decoder.push(&stream[cut..]));
        assert_eq!(frames, expected);
        assert_eq!(decoder.take_rest(), expected_rest);
    }
}

#[test]
fn separator_cut_between_two_chunks_is_found() {
    let mut decoder = FrameDecoder::event_delimited();
    assert_eq!(decoder.push(b"first\n"), Vec::<Vec<u8>>::new());
    assert_eq!(decoder.carried(), &b"first\n".to_vec());
    assert_eq!(decoder.push(b"\nsecond\n\n\n"), vec![b"first".to_vec(), b"second".to_vec()]);
    assert_eq!(decoder.push(b"\n"), vec![b"".to_vec()]);
    assert_eq!(decoder.push(b""), Vec::<Vec<u8>>::new());
    assert_eq!(decoder.take_rest(), Vec::<u8>::new());
}

#[test]
fn byte_by_byte_delivery_gives_the_same_frames() {
    let stream = b"a\n\nbb\n\n\n\nccc\n\n\nd";
    let mut whole = FrameDecoder::event_delimited();
    let expected = whole.push(stream);
    let mut decoder = FrameDecoder::event_delimited();
    let mut frames = Vec::new();
    for byte in stream.iter() {
        frames.extend(decoder.push(&[*byte]));
    }
    assert_eq!(frames, expected);
    assert_eq!(decoder.take_rest(), whole.take_rest());
}

#[test]
fn empty_lines_are_frames_without_bytes() {
    let mut decoder = FrameDecoder::line_delimited();
    assert_eq!(decoder.push(b"\n\nx\n"), vec![b"".to_vec(), b"".to_vec(), b"x".to_vec()]);
}

#[test]
fn frames_and_rest_give_back_the_bytes() {
    let stream = b"\n\nalpha\n\n\nbeta\n\n\n\ngamma\n";
    let mut decoder = FrameDecoder::event_delimited();
    let frames = decoder.push(stream);
    let mut rejoined = Vec::new();
    for frame in frames.iter() {
        assert!(!frame.windows(2).any(|pair| pair == b"\n\n"));
        rejoined.extend_from_slice(frame);
        rejoined.extend_from_slice(b"\n\n");
    }
    rejoined.extend(decoder.take_rest());
    assert_eq!(rejoined, stream.to_vec());
}
