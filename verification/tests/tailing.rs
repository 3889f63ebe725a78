use loglab::tail::Tailer;

#[test]
fn tail_emits_existing_content_in_order() {
    let content = b"line1\nline2\n".to_vec();
    let (t, lines) = Tailer::start(&content, true);
    assert_eq!(lines, vec![b"line1".to_vec(), b"line2".to_vec()]);
    assert_eq!(t.cursor, content.len());
}

#[test]
fn tail_without_emit_existing_skips_snapshot() {
    let content = b"line1\nline2\n".to_vec();
    let (t, lines) = Tailer::start(&content, false);
    assert!(lines.is_empty());
    assert_eq!(t.cursor, content.len());
}

#[test]
fn tail_snapshot_includes_unterminated_last_line() {
    let content = b"done\npartial".to_vec();
    let (t, lines) = Tailer::start(&content, true);
    assert_eq!(lines, vec![b"done".to_vec(), b"partial".to_vec()]);
    assert_eq!(t.cursor, content.len());
}

#[test]
fn tail_drain_emits_only_appended_complete_lines() {
    let mut content = b"old\n".to_vec();
    let (mut t, _) = Tailer::start(&content, false);
    content.extend_from_slice(b"new1\nnew2\n");
    let lines = t.drain(&content);
    assert_eq!(lines, vec![b"new1".to_vec(), b"new2".to_vec()]);
    assert_eq!(t.cursor, content.len());
}

#[test]
fn tail_rerun_without_new_bytes_emits_nothing() {
    let mut content = b"a\n".to_vec();
    let (mut t, _) = Tailer::start(&content, false);
    content.extend_from_slice(b"b\n");
    let first = t.drain(&content);
    assert_eq!(first, vec![b"b".to_vec()]);
    let cursor_after = t.cursor;
    let second = t.drain(&content);
    assert!(second.is_empty());
    assert_eq!(t.cursor, cursor_after);
}

#[test]
fn tail_leaves_partial_line_until_completed() {
    let mut content = b"start\n".to_vec();
    let (mut t, _) = Tailer::start(&content, false);
    content.extend_from_slice(b"half");
    assert!(t.drain(&content).is_empty());
    content.extend_from_slice(b" done\nnext\n");
    let lines = t.drain(&content);
    assert_eq!(lines, vec![b"half done".to_vec(), b"next".to_vec()]);
}

#[test]
fn tail_no_duplication_no_loss_across_cycles() {
    let mut content: Vec<u8> = Vec::new();
    let (mut t, _) = Tailer::start(&content, false);
    let mut emitted: Vec<Vec<u8>> = Vec::new();
    for chunk in [
        &b"al"[..],
        &b"pha\nbe"[..],
        &b"ta\n"[..],
        &b""[..],
        &b"gamma\ndelta\n"[..],
    ] {
        content.extend_from_slice(chunk);
        emitted.extend(t.drain(&content));
    }
    assert_eq!(
        emitted,
        vec![
            b"alpha".to_vec(),
            b"beta".to_vec(),
            b"gamma".to_vec(),
            b"delta".to_vec(),
        ]
    );
}

#[test]
fn tail_strips_carriage_returns() {
    let content = b"win\r\nunix\n".to_vec();
    let (_, lines) = Tailer::start(&content, true);
    assert_eq!(lines, vec![b"win".to_vec(), b"unix".to_vec()]);
}

#[test]
fn tail_truncated_content_is_left_alone() {
    let content = b"one\ntwo\n".to_vec();
    let (mut t, _) = Tailer::start(&content, false);
    let shorter = b"one\n".to_vec();
    let lines = t.drain(&shorter);
    assert!(lines.is_empty());
    assert_eq!(t.cursor, content.len());
}

#[test]
fn tail_empty_lines_are_emitted() {
    let content = b"\n\nx\n".to_vec();
    let (_, lines) = Tailer::start(&content, true);
    assert_eq!(lines, vec![b"".to_vec(), b"".to_vec(), b"x".to_vec()]);
}
