use layout_manager::log::{lines_still_wanted, log_file_order, starts_with, LogFileEntry, TailLines, TailPoll, CHUNK_SIZE};

/// Read lines from the end of `data` the way the application reads a file.
fn tail(data: &[u8], n: usize) -> (Vec<String>, Vec<(u64, usize)>) {
    let mut reader = TailLines::new(data.len() as u64, n);
    let mut lines = Vec::new();
    let mut reads = Vec::new();
    loop {
        match reader.poll_line() {
            TailPoll::Line(l) => lines.push(l),
            TailPoll::NeedChunk { offset, len } => {
                reads.push((offset, len));
                let start = offset as usize;
                reader.accept_chunk(data[start..start + len].to_vec());
            }
            TailPoll::Done => break,
        }
    }
    (lines, reads)
}

#[test]
fn lines_come_newest_first() {
    let (lines, reads) = tail(b"first\nsecond\nthird", usize::MAX);
    assert_eq!(lines, vec!["third", "second", "first"]);
    assert_eq!(reads, vec![(0, 18)]);
}

#[test]
fn final_newline_ends_the_last_line() {
    let (lines, _) = tail(b"a\nb\n", usize::MAX);
    assert_eq!(lines, vec!["b", "a"]);
    // Only the final newline is dropped: an empty line before it stays.
    let (lines, _) = tail(b"a\n\n", usize::MAX);
    assert_eq!(lines, vec!["", "a"]);
}

#[test]
fn leading_newline_gives_no_empty_first_line() {
    let (lines, _) = tail(b"\na", usize::MAX);
    assert_eq!(lines, vec!["a"]);
    let (lines, _) = tail(b"\n", usize::MAX);
    assert!(lines.is_empty());
}

#[test]
fn empty_file_has_no_lines() {
    let (lines, reads) = tail(b"", usize::MAX);
    assert!(lines.is_empty());
    assert!(reads.is_empty());
}

#[test]
fn limit_stops_early_without_reading_more() {
    let (lines, _) = tail(b"1\n2\n3\n4", 2);
    assert_eq!(lines, vec!["4", "3"]);
    let (lines, reads) = tail(b"x\ny", 0);
    assert!(lines.is_empty());
    assert!(reads.is_empty());
}

#[test]
fn large_files_are_read_backwards_in_chunks() {
    let mut data = Vec::new();
    for i in 0..3000 {
        data.extend_from_slice(format!("line {:05}\n", i).as_bytes());
    }
    let len = data.len() as u64;
    assert!(len > 2 * CHUNK_SIZE);
    // Only the last chunk is needed for the newest lines.
    let (lines, reads) = tail(&data, 3);
    assert_eq!(lines, vec!["line 02999", "line 02998", "line 02997"]);
    assert_eq!(reads, vec![(len - CHUNK_SIZE, CHUNK_SIZE as usize)]);
    // Reading everything visits each chunk once, from the end.
    let (lines, reads) = tail(&data, usize::MAX);
    assert_eq!(lines.len(), 3000);
    assert_eq!(lines[0], "line 02999");
    assert_eq!(lines[2999], "line 00000");
    let mut expected = Vec::new();
    let mut pos = len;
    while pos > 0 {
        let size = pos.min(CHUNK_SIZE);
        pos -= size;
        expected.push((pos, size as usize));
    }
    assert_eq!(reads, expected);
}

#[test]
fn a_line_may_span_chunks() {
    let mut data = vec![b'a'; CHUNK_SIZE as usize + 10];
    data.extend_from_slice(b"\nend");
    let (lines, reads) = tail(&data, usize::MAX);
    assert_eq!(lines.len(), 2);
    assert_eq!(lines[0], "end");
    assert_eq!(lines[1].len(), CHUNK_SIZE as usize + 10);
    assert_eq!(reads.len(), 2);
}

#[test]
fn invalid_utf8_is_replaced() {
    let (lines, _) = tail(b"ok\n\xffbad", usize::MAX);
    assert_eq!(lines, vec!["\u{FFFD}bad", "ok"]);
    let (lines, _) = tail(&[0xe2, 0x82, 0xac, b'\n', b'h', 0xc3], usize::MAX);
    assert_eq!(lines, vec!["h\u{FFFD}", "€"]);
}

fn entry(name: &str, modified: u128) -> LogFileEntry {
    LogFileEntry { name: name.to_string(), modified }
}

#[test]
fn prefix_match_is_bytewise() {
    assert!(starts_with(&"layout-manager.log.2024-01-01".to_string(), "layout-manager.log."));
    assert!(starts_with(&"abc".to_string(), ""));
    assert!(starts_with(&"abc".to_string(), "abc"));
    assert!(!starts_with(&"ab".to_string(), "abc"));
    assert!(!starts_with(&"layout-manager.log".to_string(), "layout-manager.log."));
    assert!(!starts_with(&"xlayout-manager.log.1".to_string(), "layout-manager.log."));
    assert!(starts_with(&"é-suffix".to_string(), "é"));
}

#[test]
fn log_files_are_read_newest_first() {
    let files = vec![
        entry("app.log.2024-01-01", 100),
        entry("notes.txt", 900),
        entry("app.log.2024-01-03", 300),
        entry("app.log", 1000),
        entry("app.log.2024-01-02", 200),
    ];
    assert_eq!(log_file_order(&files, "app.log."), vec![2, 4, 0]);
    assert!(log_file_order(&files, "none.").is_empty());
    assert!(log_file_order(&Vec::new(), "app.log.").is_empty());
}

#[test]
fn equally_old_log_files_keep_directory_order() {
    let files = vec![entry("a.1", 5), entry("a.2", 7), entry("a.3", 5), entry("a.4", 7), entry("a.5", 1)];
    assert_eq!(log_file_order(&files, "a."), vec![1, 3, 0, 2, 4]);
}

#[test]
fn line_budget_across_files() {
    assert_eq!(lines_still_wanted(10, 3), 7);
    assert_eq!(lines_still_wanted(10, 10), 0);
    assert_eq!(lines_still_wanted(10, 12), 0);
    assert_eq!(lines_still_wanted(usize::MAX, 0), usize::MAX);
}
