use deploy::stream::LineBuffer;
use deploy::stream::render_line;
use deploy::stream::render_lines;

fn feed_all(buf: &mut LineBuffer, chunks: &[&[u8]]) -> Vec<Vec<u8>> {
    let mut lines: Vec<Vec<u8>> = Vec::new();
    for c in chunks {
        let chunk: Vec<u8> = c.to_vec();
        lines.extend(buf.feed(&chunk));
    }
    if let Some(rest) = buf.take_rest() {
        lines.push(rest);
    }
    lines
}

fn delivered(chunks: &[&[u8]]) -> Vec<String> {
    let mut buf = LineBuffer::new();
    let raw = feed_all(&mut buf, chunks);
    let mut out: Vec<String> = Vec::new();
    for l in &raw {
        if let Some(t) = render_line(l) {
            out.push(String::from_utf8(t).unwrap());
        }
    }
    out
}

#[test]
fn stdout_lines_survive_interleaving() {
    // The command produces lines "a", "", "b"; the empty line is dropped,
    // the others arrive in order.
    let out = delivered(&[b"a\n\nb\n"]);
    assert_eq!(out, vec!["a".to_string(), "b".to_string()]);
}

#[test]
fn stderr_lines_are_independent() {
    let err = delivered(&[b"e\n"]);
    assert_eq!(err, vec!["e".to_string()]);
}

#[test]
fn chunk_boundaries_do_not_matter() {
    let whole = delivered(&[b"alpha\r\n\nbeta\ngam", b"ma"]);
    let byte_by_byte = delivered(&[
        b"a", b"l", b"p", b"h", b"a", b"\r", b"\n", b"\n", b"b", b"e", b"t", b"a", b"\n", b"g",
        b"a", b"m", b"m", b"a",
    ]);
    assert_eq!(whole, byte_by_byte);
    assert_eq!(
        whole,
        vec!["alpha".to_string(), "beta".to_string(), "gamma".to_string()]
    );
}

#[test]
fn no_line_is_dropped_or_duplicated() {
    let mut buf = LineBuffer::new();
    let raw = feed_all(&mut buf, &[b"one\ntw", b"o\nthree\n"]);
    let as_strings: Vec<String> = raw
        .iter()
        .map(|l| String::from_utf8(l.clone()).unwrap())
        .collect();
    assert_eq!(
        as_strings,
        vec!["one".to_string(), "two".to_string(), "three".to_string()]
    );
}

#[test]
fn trailing_data_without_newline_is_flushed_at_end() {
    let mut buf = LineBuffer::new();
    let lines = buf.feed(&b"partial".to_vec());
    assert!(lines.is_empty());
    let rest = buf.take_rest().expect("tail expected");
    assert_eq!(rest, b"partial".to_vec());
    assert!(buf.take_rest().is_none());
}

#[test]
fn noise_marker_lines_are_suppressed() {
    assert_eq!(render_line(&b"x/.DS_Store\r\n".to_vec()), None);
    assert_eq!(render_line(&b"path/to/.DS_Store".to_vec()), None);
    // ... but they do not stall the stream: lines after the noise still come.
    let out = delivered(&[b"keep\nsub/.DS_Store\nlast\n"]);
    assert_eq!(out, vec!["keep".to_string(), "last".to_string()]);
}

#[test]
fn empty_and_terminator_only_lines_are_suppressed() {
    assert_eq!(render_line(&b"".to_vec()), None);
    assert_eq!(render_line(&b"\r\n".to_vec()), None);
    assert_eq!(render_line(&b"\r\r\n".to_vec()), None);
}

#[test]
fn rendering_trims_line_terminators_only() {
    assert_eq!(render_line(&b"hello\r\n".to_vec()), Some(b"hello".to_vec()));
    assert_eq!(render_line(&b"  spaced  ".to_vec()), Some(b"  spaced  ".to_vec()));
}

#[test]
fn render_lines_filters_a_batch_in_order() {
    let batch: Vec<Vec<u8>> = vec![
        b"a\r".to_vec(),
        b"".to_vec(),
        b"x/.DS_Store".to_vec(),
        b"b".to_vec(),
    ];
    let out = render_lines(&batch);
    assert_eq!(out, vec![b"a".to_vec(), b"b".to_vec()]);
}
