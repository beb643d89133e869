//! The polling pipeline from the outside: bytes in, decoded characters and
//! complete lines out.

use poe_watch::error::EventError;
use poe_watch::poll::{decode_batch, BytePoll, StringLinePoll};
use std::io::Cursor;

struct FailingReader;

impl std::io::Read for FailingReader {
    fn read(&mut self, _buf: &mut [u8]) -> std::io::Result<usize> {
        Err(std::io::Error::new(std::io::ErrorKind::Other, "broken stream"))
    }
}

fn chars_of(s: &str) -> Vec<char> {
    s.chars().collect()
}

fn string_of(cs: &[char]) -> String {
    cs.iter().collect()
}

#[test]
fn byte_poll_returns_appended_bytes() {
    let mut poll = BytePoll::new(Cursor::new(b"abc".to_vec()), 20, 1024).unwrap();
    let batch = poll.poll_once().unwrap();
    assert_eq!(batch, Some(b"abc".to_vec()));
    // the stream has nothing new: the caller would sleep and retry
    let empty = poll.poll_once().unwrap();
    assert_eq!(empty, None);
    assert_eq!(poll.wait_delay(), 20);
}

#[test]
fn byte_poll_honours_buffer_capacity() {
    let mut poll = BytePoll::new(Cursor::new(b"abcdef".to_vec()), 20, 4).unwrap();
    let first = poll.poll_once().unwrap().unwrap();
    assert_eq!(first, b"abcd".to_vec());
    let second = poll.poll_once().unwrap().unwrap();
    assert_eq!(second, b"ef".to_vec());
}

#[test]
fn byte_poll_surfaces_io_errors() {
    let mut poll = BytePoll::new(FailingReader, 20, 8).unwrap();
    assert!(poll.poll_once().is_err());
}

#[test]
fn decode_batch_decodes_valid_utf8() {
    let chars = decode_batch("h\u{e9}llo".as_bytes().to_vec()).unwrap();
    assert_eq!(string_of(&chars), "h\u{e9}llo");
}

#[test]
fn decode_batch_accepts_empty_input() {
    let chars = decode_batch(Vec::new()).unwrap();
    assert!(chars.is_empty());
}

#[test]
fn decode_batch_rejects_mid_codepoint_boundary() {
    // the first two bytes of a three-byte codepoint, cut off
    let err = decode_batch(vec![0xE2, 0x82]).unwrap_err();
    assert!(matches!(err, EventError::Decode));
}

#[test]
fn split_codepoint_across_polls_is_a_decode_error() {
    // a one-byte poll buffer cuts the two-byte codepoint in half
    let mut poll = StringLinePoll::new(Cursor::new("\u{e9}\n".as_bytes().to_vec()), 20, 1).unwrap();
    let err = poll.poll_once().unwrap_err();
    assert!(matches!(err, EventError::Decode));
}

#[test]
fn assembler_returns_only_complete_lines() {
    let mut poll = StringLinePoll::new(Cursor::new(Vec::<u8>::new()), 20, 64).unwrap();
    let lines = poll.accept_chars(&chars_of("ab\ncd"));
    assert_eq!(lines, vec!["ab".to_string()]);
    // "cd" is unterminated: held back, not returned
    let lines = poll.accept_chars(&chars_of("ef\ngh\n"));
    assert_eq!(lines, vec!["cdef".to_string(), "gh".to_string()]);
}

#[test]
fn assembler_concatenation_reproduces_the_stream() {
    let batches = ["2024/01", "/01 lin", "e one\nline tw", "o\ntail"];
    let mut poll = StringLinePoll::new(Cursor::new(Vec::<u8>::new()), 20, 64).unwrap();
    let mut rebuilt = String::new();
    for batch in batches.iter() {
        for line in poll.accept_chars(&chars_of(batch)) {
            rebuilt.push_str(&line);
            rebuilt.push('\n');
        }
    }
    // everything but the unterminated tail has come back out
    assert_eq!(rebuilt, "2024/01/01 line one\nline two\n");
    // the tail appears once its newline arrives
    let rest = poll.accept_chars(&chars_of("\n"));
    assert_eq!(rest, vec!["tail".to_string()]);
}

#[test]
fn assembler_keeps_empty_lines() {
    let mut poll = StringLinePoll::new(Cursor::new(Vec::<u8>::new()), 20, 64).unwrap();
    let lines = poll.accept_chars(&chars_of("\n\na\n"));
    assert_eq!(lines, vec!["".to_string(), "".to_string(), "a".to_string()]);
}

#[test]
fn line_poll_end_to_end() {
    let content = b"first line\nsecond line\npartial".to_vec();
    let mut poll = StringLinePoll::new(Cursor::new(content), 20, 1024).unwrap();
    let lines = poll.poll_once().unwrap();
    assert_eq!(lines, vec!["first line".to_string(), "second line".to_string()]);
    // only the unterminated fragment is left: nothing comes back
    let lines = poll.poll_once().unwrap();
    assert!(lines.is_empty());
}
