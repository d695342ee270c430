use iradio_bridge::icy::{parse_stream_title, IcyStripper};

fn frame(audio: &[u8], meta: &[u8]) -> Vec<u8> {
    assert_eq!(meta.len() % 16, 0);
    let mut v = audio.to_vec();
    v.push((meta.len() / 16) as u8);
    v.extend_from_slice(meta);
    v
}

fn padded(text: &str, blocks: usize) -> Vec<u8> {
    let mut m = text.as_bytes().to_vec();
    m.resize(blocks * 16, 0);
    m
}

#[test]
fn strips_one_metadata_block() {
    let mut s = IcyStripper::new(4);
    let mut out = Vec::new();
    let mut input = frame(&[1, 2, 3, 4], &padded("StreamTitle='A - B';", 2));
    input.extend_from_slice(&[5, 6]);
    s.process(&input, &mut out);
    assert_eq!(out, vec![1, 2, 3, 4, 5, 6]);
    assert_eq!(s.take_title(), Some("A - B".to_string()));
}

#[test]
fn chunked_processing_equals_whole() {
    let mut stream = Vec::new();
    for k in 0..5u8 {
        let audio: Vec<u8> = (0..7).map(|i| k * 10 + i).collect();
        let meta = if k % 2 == 0 { padded("StreamTitle='x';", 1) } else { Vec::new() };
        stream.extend(frame(&audio, &meta));
    }
    let mut whole = IcyStripper::new(7);
    let mut out_whole = Vec::new();
    whole.process(&stream, &mut out_whole);
    for split in 0..stream.len() {
        let mut s = IcyStripper::new(7);
        let mut out = Vec::new();
        s.process(&stream[..split], &mut out);
        s.process(&stream[split..], &mut out);
        assert_eq!(out, out_whole, "split at {}", split);
    }
    let expected: Vec<u8> = (0..5u8).flat_map(|k| (0..7).map(move |i| k * 10 + i)).collect();
    assert_eq!(out_whole, expected);
}

#[test]
fn zero_length_metadata_block_passes_audio() {
    let mut s = IcyStripper::new(2);
    let mut out = Vec::new();
    s.process(&[9, 8, 0, 7, 6, 0, 5], &mut out);
    assert_eq!(out, vec![9, 8, 7, 6, 5]);
    assert_eq!(s.take_title(), None);
}

#[test]
fn take_title_clears_metadata() {
    let mut s = IcyStripper::new(1);
    let mut out = Vec::new();
    let input = frame(&[42], &padded("StreamTitle='Song';", 2));
    s.process(&input, &mut out);
    assert_eq!(s.take_title(), Some("Song".to_string()));
    assert_eq!(s.take_title(), None);
}

#[test]
fn title_trimmed_and_empty_rejected() {
    let t: Vec<char> = "StreamTitle='  Artist - Track \t';StreamUrl='';".chars().collect();
    assert_eq!(parse_stream_title(&t), Some("Artist - Track".to_string()));
    let e: Vec<char> = "StreamTitle='   ';".chars().collect();
    assert_eq!(parse_stream_title(&e), None);
    let n: Vec<char> = "StreamUrl='x';".chars().collect();
    assert_eq!(parse_stream_title(&n), None);
    let u: Vec<char> = "StreamTitle='unterminated".chars().collect();
    assert_eq!(parse_stream_title(&u), None);
    let f: Vec<char> = "x StreamTitle='first';StreamTitle='second';".chars().collect();
    assert_eq!(parse_stream_title(&f), Some("first".to_string()));
}

#[test]
fn invalid_utf8_title_is_replaced() {
    let mut s = IcyStripper::new(1);
    let mut out = Vec::new();
    let mut meta = b"StreamTitle='Caf".to_vec();
    meta.push(0xff);
    meta.extend_from_slice(b"';");
    meta.resize(32, 0);
    s.process(&frame(&[0], &meta), &mut out);
    assert_eq!(s.take_title(), Some("Caf\u{fffd}".to_string()));
}
