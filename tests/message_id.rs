use eml_replicator::message_id::{
    find_line_end, locate_message_id, randomize_message_id, replace_header_line, RewriteError,
    MESSAGE_ID_PATTERN, TOKEN_LEN,
};

const PREFIX: &[u8] = b"Message-ID: ";

fn check_rewrite(eml: &[u8], start: usize, end: usize, out: &[u8]) {
    assert_eq!(&out[..start], &eml[..start]);
    assert_eq!(&out[start..start + PREFIX.len()], PREFIX);
    let value = &out[start + PREFIX.len()..start + PREFIX.len() + TOKEN_LEN];
    assert!(value.iter().all(|b| b.is_ascii_alphanumeric()));
    assert_eq!(&out[start + PREFIX.len() + TOKEN_LEN..], &eml[end..]);
}

#[test]
fn rewrite_replaces_only_the_identifier_line() {
    let eml = b"From: a@b\r\nMessage-ID: <old@host>\r\nSubject: hi\r\n\r\nbody\r\n";
    let out = randomize_message_id(eml).unwrap();
    // The line feed closes the header line; the carriage return before it is replaced.
    let start = 11;
    let end = eml.iter().skip(start).position(|&b| b == b'\n').unwrap() + start;
    check_rewrite(eml, start, end, &out);
    assert_eq!(out.len(), eml.len() - (end - start) + PREFIX.len() + TOKEN_LEN);
    assert!(!out.windows(8).any(|w| w == b"old@host"));
}

#[test]
fn rewrite_matches_the_header_name_in_any_case() {
    let eml = b"mEsSaGe-Id: <x@y>\nbody\n";
    let out = randomize_message_id(eml).unwrap();
    check_rewrite(eml, 0, 17, &out);
    assert_eq!(&out[PREFIX.len() + TOKEN_LEN..], b"\nbody\n");
}

#[test]
fn rewrite_takes_the_first_identifier_line() {
    let eml = b"Message-ID: <a>\nMessage-ID: <b>\n";
    let out = randomize_message_id(eml).unwrap();
    check_rewrite(eml, 0, 15, &out);
    assert_eq!(&out[PREFIX.len() + TOKEN_LEN..], b"\nMessage-ID: <b>\n");
}

#[test]
fn rewrite_output_has_exactly_one_identifier_line() {
    let eml = b"To: c@d\nMessage-ID: <old@host>\n\nbody\n";
    let out = randomize_message_id(eml).unwrap();
    let pattern = regex::bytes::Regex::new(MESSAGE_ID_PATTERN).unwrap();
    let found: Vec<_> = pattern.find_iter(&out).collect();
    assert_eq!(found.len(), 1);
    assert_eq!(found[0].start(), 8);
    assert_eq!(found[0].end() - found[0].start(), PREFIX.len() + TOKEN_LEN);
}

#[test]
fn two_rewrites_draw_different_identifiers() {
    let eml = b"Message-ID: <old@host>\n";
    let a = randomize_message_id(eml).unwrap();
    let b = randomize_message_id(eml).unwrap();
    assert_ne!(a, b);
}

#[test]
fn rewrite_fails_without_a_header() {
    let eml = b"From: a@b\nSubject: no id\n\nbody\n";
    assert_eq!(randomize_message_id(eml), Err(RewriteError::NotFound));
    assert_eq!(locate_message_id(eml), Err(RewriteError::NotFound));
}

#[test]
fn rewrite_fails_on_empty_input() {
    assert_eq!(randomize_message_id(b""), Err(RewriteError::NotFound));
}

#[test]
fn header_must_start_a_line() {
    let eml = b"X-Old-Message-ID: <a>\n Message-ID: <b>\n";
    assert_eq!(randomize_message_id(eml), Err(RewriteError::NotFound));
}

#[test]
fn header_needs_a_value() {
    let eml = b"Message-ID:\nbody\n";
    assert_eq!(randomize_message_id(eml), Err(RewriteError::NotFound));
}

#[test]
fn rewrite_fails_without_a_line_feed_after_the_header() {
    let eml = b"Subject: x\nMessage-ID: <last@line>";
    assert_eq!(randomize_message_id(eml), Err(RewriteError::Unterminated));
    assert_eq!(locate_message_id(eml), Err(RewriteError::Unterminated));
}

#[test]
fn rewrite_fails_on_invalid_utf8_after_the_header() {
    let eml = b"Message-ID: <a@b>\nbody \xff\xfe\n";
    assert_eq!(randomize_message_id(eml), Err(RewriteError::InvalidUtf8));
}

#[test]
fn invalid_utf8_before_the_header_is_kept() {
    let eml = b"X-Raw: \xff\nMessage-ID: <a@b>\nbody\n";
    let out = randomize_message_id(eml).unwrap();
    check_rewrite(eml, 9, 26, &out);
}

#[test]
fn locate_gives_the_header_span() {
    let eml = b"A: 1\nMessage-ID: <z>\nB: 2\n";
    assert_eq!(locate_message_id(eml), Ok((5, 20)));
}

#[test]
fn replace_header_line_is_exact() {
    let eml = b"A: 1\nMessage-ID: <z>\nB: 2\n";
    let out = replace_header_line(eml, 5, b"TOKEN").unwrap();
    assert_eq!(out, b"A: 1\nMessage-ID: TOKEN\nB: 2\n".to_vec());
}

#[test]
fn replace_header_line_needs_a_line_feed() {
    assert_eq!(
        replace_header_line(b"A: 1\nMessage-ID: <z>", 5, b"T"),
        Err(RewriteError::Unterminated)
    );
}

#[test]
fn find_line_end_finds_the_next_line_feed() {
    let eml = b"ab\ncd\n";
    assert_eq!(find_line_end(eml, 0), 2);
    assert_eq!(find_line_end(eml, 3), 5);
    assert_eq!(find_line_end(b"abc", 1), 3);
    assert_eq!(find_line_end(b"abc", 3), 3);
}
