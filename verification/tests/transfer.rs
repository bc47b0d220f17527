use dribble::codec::{str_equals, trim_byte};
use dribble::header::{decode_chunk_payload, decode_file_header, parse_file_header, HeaderError, PayloadError};
use dribble::receiver::{handle_announcement, handle_chunk_event, try_handle_announcement, try_handle_chunk_event, FileTransferState};
use dribble::sender::{
    chunk_count, chunk_frame, chunk_plan, decimal_bytes, file_frames, file_signals, header_frame,
    length_prefixed, read_slice, ChunkSlice, FileSignalRes,
};

#[test]
fn trim_byte_strips_both_ends_only() {
    assert_eq!(trim_byte(b"\"\"ab\"c\"\"", b'"'), b"ab\"c".to_vec());
    assert_eq!(trim_byte(b"abc", b'"'), b"abc".to_vec());
}

#[test]
fn trim_byte_of_only_the_byte_is_empty() {
    assert_eq!(trim_byte(b"\"\"\"", b'"'), Vec::<u8>::new());
    assert_eq!(trim_byte(b"", b'"'), Vec::<u8>::new());
}

#[test]
fn str_equals_compares_characters() {
    assert!(str_equals("héllo", "héllo"));
    assert!(!str_equals("hello", "hell"));
    assert!(!str_equals("hello", "hellp"));
}

#[test]
fn header_is_read_from_its_bytes() {
    let h = parse_file_header(&[0, 5, 3, b'a', b'b', b'c', 9]).ok().unwrap();
    assert_eq!(h.chunk_count, 5);
    assert_eq!(h.filename, "abc");
}

#[test]
fn header_with_empty_name() {
    let h = parse_file_header(&[0, 7, 0]).ok().unwrap();
    assert_eq!(h.chunk_count, 7);
    assert_eq!(h.filename, "");
}

#[test]
fn header_errors() {
    assert_eq!(parse_file_header(&[0, 1]).err(), Some(HeaderError::TooShort));
    assert_eq!(parse_file_header(&[0, 1, 4, b'a']).err(), Some(HeaderError::NameOverrun));
    assert_eq!(parse_file_header(&[0, 1, 2, 0xff, 0xfe]).err(), Some(HeaderError::InvalidUtf8));
}

#[test]
fn header_is_read_from_base64() {
    let h = decode_file_header("AAUDYWJj").ok().unwrap();
    assert_eq!(h.chunk_count, 5);
    assert_eq!(h.filename, "abc");
    assert_eq!(decode_file_header("AAEC//4").err(), Some(HeaderError::InvalidUtf8));
    assert_eq!(decode_file_header("!!!").err(), Some(HeaderError::InvalidBase64));
    assert_eq!(decode_file_header("AAUDYWJj==").err(), Some(HeaderError::InvalidBase64));
}

#[test]
fn chunk_payload_is_unquoted_and_split() {
    assert_eq!(decode_chunk_payload("\"AQID\""), Ok(Some((1, vec![2, 3]))));
    assert_eq!(decode_chunk_payload("\"\\\"AQID\\\"\""), Ok(Some((1, vec![2, 3]))));
    assert_eq!(decode_chunk_payload("Bw"), Ok(Some((7, vec![]))));
}

#[test]
fn empty_chunk_payload_carries_nothing() {
    assert_eq!(decode_chunk_payload("\"\""), Ok(None));
}

#[test]
fn invalid_chunk_payload() {
    assert_eq!(decode_chunk_payload("\"@@\""), Err(PayloadError::InvalidBase64));
}

#[test]
fn fresh_state_is_idle() {
    let s = FileTransferState::new();
    assert!(!s.is_receiving());
    assert_eq!(s.progress(), 0);
    assert!(s.filename().is_none());
}

#[test]
fn in_order_chunks_are_all_written_and_finish_at_the_last() {
    let mut s = FileTransferState::new();
    s.begin_receive("f.bin".to_string());
    assert_eq!(s.progress(), 1);
    let datas: Vec<Vec<u8>> = vec![vec![1, 2], vec![3], vec![4, 5, 6]];
    let mut written: Vec<u8> = Vec::new();
    for (i, d) in datas.iter().enumerate() {
        let o = s.on_chunk(3, (i + 1) as u8, d.clone());
        let (name, bytes) = o.append.unwrap();
        assert_eq!(name, "f.bin");
        written.extend(bytes);
        assert_eq!(o.finished, i == 2);
    }
    assert_eq!(written, vec![1, 2, 3, 4, 5, 6]);
    assert!(!s.is_receiving());
    assert_eq!(s.progress(), 0);
}

#[test]
fn out_of_order_chunk_is_counted_but_not_written() {
    let mut s = FileTransferState::new();
    s.begin_receive("x".to_string());
    let o = s.on_chunk(5, 2, vec![9]);
    assert!(o.append.is_none());
    assert!(!o.finished);
    assert_eq!(s.progress(), 2);
    let o = s.on_chunk(5, 2, vec![8]);
    assert_eq!(o.append, Some(("x".to_string(), vec![8])));
}

#[test]
fn progress_wraps_around() {
    let mut s = FileTransferState::new();
    for _ in 0..255 {
        s.begin_receive("y".to_string());
    }
    assert_eq!(s.progress(), 255);
    s.begin_receive("y".to_string());
    assert_eq!(s.progress(), 0);
}

#[test]
fn announcement_and_chunk_events() {
    let mut s = FileTransferState::new();
    let count = handle_announcement(&mut s, "AAEDYWJj");
    assert_eq!(count, 1);
    assert_eq!(s.filename().unwrap(), "abc");
    assert_eq!(s.progress(), 1);
    assert!(handle_chunk_event(&mut s, count, "\"\"").is_none());
    assert_eq!(s.progress(), 1);
    let o = handle_chunk_event(&mut s, count, "\"AQID\"").unwrap();
    assert_eq!(o.append, Some(("abc".to_string(), vec![2, 3])));
    assert!(o.finished);
    assert!(!s.is_receiving());
}

#[test]
fn decimal_rendering() {
    assert_eq!(decimal_bytes(0), b"0".to_vec());
    assert_eq!(decimal_bytes(7), b"7".to_vec());
    assert_eq!(decimal_bytes(1234), b"1234".to_vec());
    assert_eq!(decimal_bytes(u64::MAX), u64::MAX.to_string().into_bytes());
}

#[test]
fn length_prefix_wraps_at_256() {
    assert_eq!(length_prefixed(b"ab"), vec![2, b'a', b'b']);
    let long = vec![1u8; 300];
    let p = length_prefixed(&long);
    assert_eq!(p[0], 44);
    assert_eq!(p.len(), 301);
}

#[test]
fn announcement_frame_layout() {
    let f = header_frame(3, "a.txt").unwrap();
    assert_eq!(f.len(), 8192);
    assert_eq!(&f[..9], &[0, 1, b'3', 5, b'a', b'.', b't', b'x', b't']);
    assert!(f[9..].iter().all(|b| *b == 0));
}

#[test]
fn announcement_frame_refused_when_too_long() {
    let name = "n".repeat(8189);
    assert!(header_frame(3, &name).is_none());
    let name = "n".repeat(8188);
    let f = header_frame(3, &name).unwrap();
    assert_eq!(f.len(), 8192);
    assert_eq!(f[3], (8188 % 256) as u8);
}

#[test]
fn chunk_frame_layout() {
    let f = chunk_frame(12, &[9, 9]);
    assert_eq!(f.len(), 3 + 8192);
    assert_eq!(&f[..5], &[2, b'1', b'2', 9, 9]);
    assert!(f[5..].iter().all(|b| *b == 0));
}

#[test]
fn announced_chunk_count() {
    assert_eq!(chunk_count(0), 1);
    assert_eq!(chunk_count(1), 1);
    assert_eq!(chunk_count(8192), 1);
    assert_eq!(chunk_count(8193), 2);
    assert_eq!(chunk_count(3 * 8192), 3);
}

#[test]
fn chunk_plan_slices() {
    assert_eq!(chunk_plan(0), vec![ChunkSlice { index: 1, start: 0, end: 8192 }]);
    assert_eq!(
        chunk_plan(8192),
        vec![
            ChunkSlice { index: 1, start: 0, end: 8192 },
            ChunkSlice { index: 2, start: 8192, end: 16384 },
        ]
    );
    assert_eq!(chunk_plan(10000).len(), 2);
}

#[test]
fn reading_a_slice_clamps_to_the_file() {
    let c: Vec<u8> = (0..10).collect();
    assert_eq!(read_slice(&c, 2, 5), vec![2, 3, 4]);
    assert_eq!(read_slice(&c, 8, 100), vec![8, 9]);
    assert_eq!(read_slice(&c, 20, 30), Vec::<u8>::new());
}

#[test]
fn frames_of_a_file_reassemble_it() {
    let content: Vec<u8> = (0..20000u32).map(|i| (i % 251) as u8).collect();
    let frames = file_frames("data.bin", &content).unwrap();
    assert_eq!(frames.len(), 4);
    assert_eq!(frames[0], header_frame(3, "data.bin").unwrap());
    let mut joined: Vec<u8> = Vec::new();
    for (k, f) in frames[1..].iter().enumerate() {
        let prefix_len = 1 + (k + 1).to_string().len();
        assert_eq!(f.len(), prefix_len + 8192);
        let start = k * 8192;
        let end = std::cmp::min(start + 8192, content.len());
        let take = end.saturating_sub(start);
        joined.extend_from_slice(&f[prefix_len..prefix_len + take]);
    }
    assert_eq!(joined, content);
}

#[test]
fn file_signals_list_each_byte_then_done() {
    assert_eq!(
        file_signals(&[7, 8]),
        vec![
            FileSignalRes { signal: 7, chunk: None },
            FileSignalRes { signal: 8, chunk: None },
            FileSignalRes { signal: 1, chunk: None },
        ]
    );
    assert_eq!(file_signals(&[]), vec![FileSignalRes { signal: 1, chunk: None }]);
}

#[test]
fn default_state_is_idle() {
    let s = FileTransferState::default();
    assert!(!s.is_receiving());
    assert_eq!(s.progress(), 0);
}

#[test]
fn checked_announcement_and_chunk_events() {
    let mut s = FileTransferState::new();
    assert_eq!(try_handle_announcement(&mut s, "!!"), Err(HeaderError::InvalidBase64));
    assert_eq!(try_handle_announcement(&mut s, "AAEC//4"), Err(HeaderError::InvalidUtf8));
    assert!(!s.is_receiving());
    assert_eq!(s.progress(), 0);
    assert_eq!(try_handle_announcement(&mut s, "AAEDYWJj"), Ok(1));
    assert_eq!(s.progress(), 1);
    assert_eq!(try_handle_chunk_event(&mut s, 1, "\"@@\"").err(), Some(PayloadError::InvalidBase64));
    assert_eq!(s.progress(), 1);
    assert!(try_handle_chunk_event(&mut s, 1, "\"\"").unwrap().is_none());
    let o = try_handle_chunk_event(&mut s, 1, "\"AQID\"").unwrap().unwrap();
    assert_eq!(o.append, Some(("abc".to_string(), vec![2, 3])));
    assert!(o.finished);
}
