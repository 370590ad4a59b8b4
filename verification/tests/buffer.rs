use pty_mcp::buffer::store::{bytes_to_raw_string, BufferReadError, BufferStore};
use pty_mcp::buffer::view::{BufferReadPage, BufferReadRequest, BufferView};

fn texts(page: &BufferReadPage) -> Vec<String> {
    page.lines.iter().map(|l| l.text.clone()).collect()
}

fn request(view: BufferView) -> BufferReadRequest {
    BufferReadRequest { offset: 0, limit: 100, pattern: None, ignore_case: false, view }
}

#[test]
fn lines_are_numbered_from_one() {
    let mut store = BufferStore::new(10);
    store.append_bytes(b"one\ntwo\nthree");
    let page = store.read(&BufferReadRequest::new(10)).unwrap();
    assert_eq!(texts(&page), ["one", "two", "three"]);
    assert_eq!(page.lines[0].line_number, 1);
    assert_eq!(page.lines[2].line_number, 3);
    assert_eq!(page.total_lines, 3);
    assert!(!page.has_more);
}

#[test]
fn chunks_do_not_matter() {
    let mut whole = BufferStore::new(10);
    whole.append_bytes(b"alpha\r\nbeta\ngam");
    let mut parts = BufferStore::new(10);
    for chunk in [&b"al"[..], &b"pha\r"[..], &b"\nbeta"[..], &b"\ngam"[..]] {
        parts.append_bytes(chunk);
    }
    for view in [BufferView::Plain, BufferView::Ansi, BufferView::Raw] {
        assert_eq!(whole.read(&request(view)).unwrap(), parts.read(&request(view)).unwrap());
    }
    assert_eq!(whole.stats(), parts.stats());
}

#[test]
fn oldest_lines_are_dropped() {
    let mut store = BufferStore::new(2);
    store.append_bytes(b"1\n2\n3\n4\n");
    let page = store.read(&BufferReadRequest::new(10)).unwrap();
    assert_eq!(texts(&page), ["3", "4"]);
    assert_eq!(page.lines[0].line_number, 3);
    let stats = store.stats();
    assert_eq!(stats.total_lines_seen, 4);
    assert_eq!(stats.retained_lines, 2);
    assert_eq!(stats.dropped_lines, 2);
    assert_eq!(stats.total_bytes_seen, 8);
    store.set_max_lines(1);
    assert_eq!(store.max_lines(), 1);
    assert_eq!(texts(&store.read(&BufferReadRequest::new(10)).unwrap()), ["4"]);
    store.set_max_lines(0);
    assert_eq!(store.max_lines(), 1);
}

#[test]
fn views_show_escapes_differently() {
    let mut store = BufferStore::new(10);
    store.append_bytes(b"\x1b[31mred\x1b[0m\xff\n");
    let plain = store.read(&request(BufferView::Plain)).unwrap();
    assert_eq!(texts(&plain), ["red\u{fffd}"]);
    let ansi = store.read(&request(BufferView::Ansi)).unwrap();
    assert_eq!(texts(&ansi), ["\u{1b}[31mred\u{1b}[0m\u{fffd}"]);
    let raw = store.read(&request(BufferView::Raw)).unwrap();
    assert_eq!(texts(&raw), [bytes_to_raw_string(b"\x1b[31mred\x1b[0m\xff")]);
    assert!(texts(&raw)[0].contains("[31mred"));
    assert!(!texts(&raw)[0].contains('\u{1b}'));
}

#[test]
fn patterns_select_lines() {
    let mut store = BufferStore::new(10);
    store.append_bytes(b"Error: a\nok\nerror: b\n");
    let mut want = request(BufferView::Plain);
    want.pattern = Some("^error".to_string());
    assert_eq!(texts(&store.read(&want).unwrap()), ["error: b"]);
    want.ignore_case = true;
    let page = store.read(&want).unwrap();
    assert_eq!(texts(&page), ["Error: a", "error: b"]);
    assert_eq!(page.lines[1].line_number, 3);
    assert_eq!(page.total_lines, 3);
    want.pattern = Some("(".to_string());
    match store.read(&want) {
        Err(error) => {
            assert_eq!(error.error_code(), "INVALID_REGEX");
            let BufferReadError::InvalidRegex { pattern, message } = error;
            assert_eq!(pattern, "(");
            assert!(message.contains("unclosed group"));
        }
        Ok(_) => unreachable!(),
    }
}

#[test]
fn pages_follow_each_other() {
    let mut store = BufferStore::new(100);
    store.append_bytes(b"a\nb\nc\nd\ne\n");
    let mut want = request(BufferView::Plain);
    want.limit = 2;
    let first = store.read(&want).unwrap();
    want.offset = 2;
    let second = store.read(&want).unwrap();
    want.offset = 0;
    want.limit = 4;
    let both = store.read(&want).unwrap();
    let mut joined = texts(&first);
    joined.extend(texts(&second));
    assert_eq!(joined, texts(&both));
    assert!(first.has_more && second.has_more && both.has_more);
    want.offset = 9;
    let none = store.read(&want).unwrap();
    assert_eq!(none.offset, 5);
    assert_eq!(none.returned, 0);
    assert!(!none.has_more);
}

#[test]
fn store_holds_one_line_at_least() {
    let mut store = BufferStore::new(0);
    assert_eq!(store.max_lines(), 1);
    store.append_bytes(b"x\ny\n");
    assert_eq!(texts(&store.read(&BufferReadRequest::new(5)).unwrap()), ["y"]);
}

#[test]
fn raw_view_loses_nothing() {
    assert_eq!(bytes_to_raw_string(b"a\t\\'\"\x00\xfe~"), "a\\t\\\\\\'\\\"\\x00\\xfe~");
    let mut seen = Vec::new();
    for byte in 0..=255u8 {
        let shown = bytes_to_raw_string(&[byte]);
        assert!(!seen.contains(&shown));
        seen.push(shown);
    }
    assert_ne!(bytes_to_raw_string(b"\t"), bytes_to_raw_string(b"\\t"));
}

#[test]
fn counts_agree_with_all_output() {
    let mut store = BufferStore::new(3);
    store.append_bytes(b"a\nbb\r\nccc");
    store.set_max_lines(2);
    store.append_bytes(b"c\n\nopen");
    let stats = store.stats();
    assert_eq!(stats.total_lines_seen, 5);
    assert_eq!(stats.retained_lines, 2);
    assert_eq!(stats.dropped_lines, 3);
    assert_eq!(stats.total_bytes_seen, 16);
    assert_eq!(stats.retained_bytes, 4);
}
