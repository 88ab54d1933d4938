use albumino::compositor::SlideDims;
use albumino::manifest::{preload_keep, split_lines};

fn lines_of(data: &[u8]) -> Vec<Vec<u8>> {
    split_lines(data)
}

#[test]
fn manifest_lines_split_like_a_text_file() {
    let lines = lines_of(b"a.jpg\nb.jpg\nc.jpg");
    assert_eq!(lines.len(), 3);
    assert_eq!(lines[0], b"a.jpg".to_vec());
    assert_eq!(lines[1], b"b.jpg".to_vec());
    assert_eq!(lines[2], b"c.jpg".to_vec());
}

#[test]
fn a_trailing_newline_adds_no_empty_line() {
    let lines = lines_of(b"a.jpg\nb.jpg\n");
    assert_eq!(lines.len(), 2);
    assert_eq!(lines[1], b"b.jpg".to_vec());
}

#[test]
fn empty_and_blank_manifests() {
    assert_eq!(lines_of(b"").len(), 0);
    let lines = lines_of(b"\n");
    assert_eq!(lines.len(), 1);
    assert_eq!(lines[0], Vec::<u8>::new());
    let lines = lines_of(b"a\n\nb");
    assert_eq!(lines.len(), 3);
    assert_eq!(lines[1], Vec::<u8>::new());
}

#[test]
fn carriage_returns_are_stripped_at_line_ends() {
    let lines = lines_of(b"a.jpg\r\nb.jpg\r\n");
    assert_eq!(lines.len(), 2);
    assert_eq!(lines[0], b"a.jpg".to_vec());
    assert_eq!(lines[1], b"b.jpg".to_vec());
}

#[test]
fn failed_decodes_are_skipped_and_order_is_kept() {
    let d1 = SlideDims { width: 800, height: 600 };
    let d2 = SlideDims { width: 1024, height: 768 };
    // One invalid path between two valid ones: two slides survive.
    let loaded = vec![Some(d1), None, Some(d2)];
    let kept = preload_keep(&loaded);
    assert_eq!(kept.len(), 2);
    assert_eq!(kept[0], d1);
    assert_eq!(kept[1], d2);
    // Nothing survives an all-failed preload.
    assert_eq!(preload_keep(&vec![None, None]).len(), 0);
}
