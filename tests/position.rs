use echo::position::{find_position, Position};

#[test]
fn position_at_start_is_origin() {
    let p = find_position("hello", 0);
    assert_eq!(p, Position::new(0, 0));
}

#[test]
fn position_counts_lines_and_columns() {
    let content = "ab\ncd\nefg";
    assert_eq!(find_position(content, 1), Position::new(0, 1));
    assert_eq!(find_position(content, 2), Position::new(0, 2));
    assert_eq!(find_position(content, 3), Position::new(1, 0));
    assert_eq!(find_position(content, 4), Position::new(1, 1));
    assert_eq!(find_position(content, 9), Position::new(2, 3));
}

#[test]
fn position_counts_bytes_on_multibyte_content() {
    // 'é' takes two bytes; columns count bytes.
    let content = "é\nxé y";
    assert_eq!(find_position(content, 2), Position::new(0, 2));
    assert_eq!(find_position(content, 3), Position::new(1, 0));
    assert_eq!(find_position(content, 6), Position::new(1, 3));
}

#[test]
fn position_with_empty_lines() {
    let content = "\n\n\nx";
    assert_eq!(find_position(content, 3), Position::new(3, 0));
    assert_eq!(find_position(content, 4), Position::new(3, 1));
}

#[test]
fn position_getters() {
    let p = Position::new(4, 7);
    assert_eq!(p.line(), 4);
    assert_eq!(p.char(), 7);
}

#[test]
fn position_round_trip_rebuilds_offsets() {
    let content = "first line\nsecond\n\nfourth line here\nend";
    let bytes = content.as_bytes();
    let mut line_starts = vec![0usize];
    for (i, b) in bytes.iter().enumerate() {
        if *b == b'\n' {
            line_starts.push(i + 1);
        }
    }
    for offset in 0..=bytes.len() {
        let p = find_position(content, offset);
        let rebuilt = line_starts[p.line() as usize] + p.char() as usize;
        assert_eq!(rebuilt, offset);
    }
}
