use pipe_gui::demux::StreamBuffer;

fn run_whole(input: &[u8]) -> (Vec<Vec<u8>>, Option<Vec<u8>>) {
    let mut buf = StreamBuffer::new();
    let lines = buf.feed(input);
    (lines, buf.finish())
}

fn run_chunked(input: &[u8], chunk: usize) -> (Vec<Vec<u8>>, Option<Vec<u8>>) {
    let mut buf = StreamBuffer::new();
    let mut lines: Vec<Vec<u8>> = Vec::new();
    let mut i = 0;
    while i < input.len() {
        let end = (i + chunk).min(input.len());
        lines.extend(buf.feed(&input[i..end]));
        i = end;
    }
    (lines, buf.finish())
}

#[test]
fn whole_buffer_lines() {
    let input = b"alpha\r\nbeta\ngamma\rdelta\n\nlast";
    let (lines, tail) = run_whole(input);
    let expected: Vec<Vec<u8>> = vec![
        b"alpha".to_vec(),
        b"beta".to_vec(),
        b"gamma".to_vec(),
        b"delta".to_vec(),
        b"".to_vec(),
    ];
    assert_eq!(lines, expected);
    assert_eq!(tail, Some(b"last".to_vec()));
}

#[test]
fn chunking_is_irrelevant() {
    let input = b"alpha\r\nbeta\ngamma\rdelta\n\nsecond to last\r\nlast fragment";
    let whole = run_whole(input);
    for chunk in 1..=input.len() {
        let chunked = run_chunked(input, chunk);
        assert_eq!(chunked, whole, "chunk size {}", chunk);
    }
}

#[test]
fn crlf_is_one_boundary() {
    let (lines, tail) = run_whole(b"a\r\nb\r\n");
    assert_eq!(lines, vec![b"a".to_vec(), b"b".to_vec()]);
    assert_eq!(tail, None);
}

#[test]
fn crlf_split_across_reads() {
    let mut buf = StreamBuffer::new();
    let mut lines = buf.feed(b"a\r");
    lines.extend(buf.feed(b"\nb"));
    assert_eq!(lines, vec![b"a".to_vec()]);
    assert_eq!(buf.finish(), Some(b"b".to_vec()));
}

#[test]
fn bare_cr_splits() {
    let (lines, tail) = run_whole(b"a\rb\r");
    assert_eq!(lines, vec![b"a".to_vec(), b"b".to_vec()]);
    assert_eq!(tail, None);
}

#[test]
fn empty_stream_has_no_lines() {
    let (lines, tail) = run_whole(b"");
    assert!(lines.is_empty());
    assert_eq!(tail, None);
}

#[test]
fn lone_lf_yields_empty_line() {
    let (lines, tail) = run_whole(b"\n");
    assert_eq!(lines, vec![b"".to_vec()]);
    assert_eq!(tail, None);
}
