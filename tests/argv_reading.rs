use std::collections::HashMap;
use trace_exec::argv::{append_word_text, format_exec_line, ArgvReader};

fn put_bytes(mem: &mut HashMap<u64, u8>, addr: u64, bytes: &[u8]) {
    for (i, b) in bytes.iter().enumerate() {
        mem.insert(addr + i as u64, *b);
    }
}

fn peek(mem: &HashMap<u64, u8>, addr: u64) -> Option<u64> {
    let mut word = 0u64;
    for i in 0..8u64 {
        let b = *mem.get(&(addr + i))?;
        word |= (b as u64) << (8 * i);
    }
    Some(word)
}

fn lay_out(mem: &mut HashMap<u64, u8>, table: u64, strings: u64, args: &[&str]) {
    let mut at = strings;
    for (i, a) in args.iter().enumerate() {
        put_bytes(mem, table + 8 * i as u64, &at.to_le_bytes());
        put_bytes(mem, at, a.as_bytes());
        put_bytes(mem, at + a.len() as u64, &[0]);
        at += a.len() as u64 + 1;
    }
    put_bytes(mem, table + 8 * args.len() as u64, &0u64.to_le_bytes());
    // the rest of the page is mapped too
    put_bytes(mem, at, &[0; 8]);
}

fn read(mem: &HashMap<u64, u8>, addr: u64) -> Vec<Vec<u8>> {
    let mut reader = ArgvReader::new(addr);
    while let Some(a) = reader.next_address() {
        reader.feed(peek(mem, a));
    }
    reader.args().clone()
}

fn strings(args: &[&str]) -> Vec<Vec<u8>> {
    args.iter().map(|a| a.as_bytes().to_vec()).collect()
}

#[test]
fn word_text_stops_at_nul() {
    let mut buf = vec![b'x'];
    let found = append_word_text(&mut buf, u64::from_le_bytes(*b"abc\0def\0"));
    assert!(found);
    assert_eq!(buf, b"xabc".to_vec());
}

#[test]
fn word_text_without_nul_takes_all_bytes() {
    let mut buf = Vec::new();
    let found = append_word_text(&mut buf, u64::from_le_bytes(*b"/usr/bin"));
    assert!(!found);
    assert_eq!(buf, b"/usr/bin".to_vec());
}

#[test]
fn word_text_of_leading_nul_is_empty() {
    let mut buf = Vec::new();
    assert!(append_word_text(&mut buf, 0));
    assert!(buf.is_empty());
}

#[test]
fn reader_rebuilds_an_argument_vector() {
    let mut mem = HashMap::new();
    lay_out(&mut mem, 0x7ffc_0000, 0x7ffc_1003, &["/bin/echo", "hello", "world"]);
    assert_eq!(read(&mem, 0x7ffc_0000), strings(&["/bin/echo", "hello", "world"]));
}

#[test]
fn reader_handles_strings_of_word_length() {
    let mut mem = HashMap::new();
    let args = ["12345678", "", "1234567", "123456789abcdefgh"];
    lay_out(&mut mem, 0x1000, 0x2000, &args);
    assert_eq!(read(&mem, 0x1000), strings(&args));
}

#[test]
fn reader_of_empty_table_gives_no_arguments() {
    let mut mem = HashMap::new();
    lay_out(&mut mem, 0x1000, 0x2000, &[]);
    assert!(read(&mem, 0x1000).is_empty());
}

#[test]
fn unreadable_table_gives_no_arguments() {
    let mem = HashMap::new();
    assert!(read(&mem, 0x1000).is_empty());
}

#[test]
fn table_read_error_truncates_the_vector() {
    let mut mem = HashMap::new();
    lay_out(&mut mem, 0x1000, 0x2000, &["a", "b", "c"]);
    for i in 0..8u64 {
        mem.remove(&(0x1000 + 16 + i));
    }
    assert_eq!(read(&mem, 0x1000), strings(&["a", "b"]));
}

#[test]
fn string_read_error_keeps_what_was_read() {
    let mut mem = HashMap::new();
    lay_out(&mut mem, 0x1000, 0x2000, &["abcdefghijkl", "z"]);
    // the second word of the first string cannot be read
    mem.remove(&0x200c);
    assert_eq!(read(&mem, 0x1000), strings(&["abcdefgh", "z"]));
}

#[test]
fn reader_stops_at_the_end_of_the_address_space() {
    let mut reader = ArgvReader::new(u64::MAX - 7);
    assert_eq!(reader.next_address(), Some(u64::MAX - 7));
    reader.feed(Some(0x2000));
    assert_eq!(reader.next_address(), Some(0x2000));
    reader.feed(Some(u64::from_le_bytes(*b"ok\0\0\0\0\0\0")));
    assert_eq!(reader.next_address(), None);
    assert_eq!(reader.args().clone(), strings(&["ok"]));
}

#[test]
fn finished_reader_ignores_further_words() {
    let mut reader = ArgvReader::new(0x1000);
    reader.feed(Some(0));
    assert_eq!(reader.next_address(), None);
    reader.feed(Some(0x2000));
    assert_eq!(reader.next_address(), None);
    assert!(reader.args().is_empty());
}

#[test]
fn line_joins_arguments_with_spaces() {
    let line = format_exec_line(&strings(&["/bin/echo", "hello", "world"]));
    assert_eq!(line, b"executable args: '/bin/echo hello world'".to_vec());
}

#[test]
fn line_of_one_argument() {
    assert_eq!(format_exec_line(&strings(&["/bin/true"])), b"executable args: '/bin/true'".to_vec());
}

#[test]
fn line_of_no_arguments() {
    assert_eq!(format_exec_line(&Vec::new()), b"executable args: ''".to_vec());
}

#[test]
fn line_keeps_raw_bytes() {
    let args = vec![b"ls".to_vec(), vec![0xff, 0xfe], Vec::new()];
    let mut expected = b"executable args: 'ls ".to_vec();
    expected.extend_from_slice(&[0xff, 0xfe, b' ', b'\'']);
    assert_eq!(format_exec_line(&args), expected);
}

#[test]
fn argv_round_trips_through_memory_and_line() {
    let args = ["/usr/bin/env", "-i", "A=1", "some-long-argument-value"];
    let mut mem = HashMap::new();
    lay_out(&mut mem, 0x7fff_0010, 0x7fff_0105, &args);
    let line = format_exec_line(&read(&mem, 0x7fff_0010));
    let text = String::from_utf8(line).unwrap();
    let inner = text.strip_prefix("executable args: '").unwrap().strip_suffix('\'').unwrap();
    let back: Vec<&str> = inner.split(' ').collect();
    assert_eq!(back, args.to_vec());
}
