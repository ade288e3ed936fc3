use nas_notifier::tail::TailCursor;

fn read(cursor: &mut TailCursor, contents: &[u8]) -> Vec<u8> {
    let len = contents.len() as u64;
    let offset = cursor.start(len) as usize;
    let new = contents[offset..].to_vec();
    cursor.advance(len, new.len() as u64);
    new
}

#[test]
fn new_cursor_stands_at_zero() {
    let cursor = TailCursor::new();
    assert_eq!(cursor.position(), 0);
    assert!(cursor.is_first_read());
}

#[test]
fn first_read_skips_what_the_file_holds() {
    let contents = b"old line 1\nold line 2\n";
    let mut cursor = TailCursor::new();
    let new = read(&mut cursor, contents);
    assert_eq!(new, Vec::<u8>::new());
    assert_eq!(cursor.position(), contents.len() as u64);
    assert!(!cursor.is_first_read());
}

#[test]
fn first_read_starts_at_the_end() {
    let cursor = TailCursor::new();
    assert_eq!(cursor.start(4096), 4096);
    assert_eq!(cursor.start(0), 0);
    assert_eq!(cursor.start(u64::MAX), u64::MAX);
}

#[test]
fn start_does_not_move_the_cursor() {
    let mut cursor = TailCursor::new();
    cursor.start(4096);
    assert_eq!(cursor.position(), 0);
    assert!(cursor.is_first_read());
    cursor.advance(10, 0);
    cursor.start(4);
    assert_eq!(cursor.position(), 10);
}

#[test]
fn first_read_of_an_empty_file_starts_at_zero() {
    let mut cursor = TailCursor::new();
    assert_eq!(read(&mut cursor, b""), Vec::<u8>::new());
    assert_eq!(cursor.position(), 0);
    assert!(!cursor.is_first_read());
}

#[test]
fn later_reads_return_what_was_appended() {
    let mut cursor = TailCursor::new();
    read(&mut cursor, b"old\n");
    assert_eq!(read(&mut cursor, b"old\nnew 1\n"), b"new 1\n".to_vec());
    assert_eq!(cursor.position(), 10);
    assert_eq!(read(&mut cursor, b"old\nnew 1\n"), Vec::<u8>::new());
    assert_eq!(cursor.position(), 10);
    assert_eq!(read(&mut cursor, b"old\nnew 1\nnew 2\n"), b"new 2\n".to_vec());
    assert_eq!(cursor.position(), 16);
}

#[test]
fn cursor_never_moves_back_while_the_file_grows() {
    let mut cursor = TailCursor::new();
    let mut contents: Vec<u8> = b"start\n".to_vec();
    let mut last = cursor.position();
    for round in 0..50u8 {
        read(&mut cursor, &contents);
        assert!(cursor.position() >= last);
        assert_eq!(cursor.position(), contents.len() as u64);
        last = cursor.position();
        for _ in 0..(round % 4) {
            contents.extend_from_slice(b"more\n");
        }
    }
}

#[test]
fn shrunk_file_is_read_from_its_start() {
    let mut cursor = TailCursor::new();
    read(&mut cursor, b"a long old log\n");
    assert_eq!(cursor.position(), 15);
    assert_eq!(cursor.start(4), 0);
    cursor.advance(4, 4);
    assert_eq!(cursor.position(), 4);
}

#[test]
fn rotated_log_is_read_whole() {
    let mut cursor = TailCursor::new();
    read(&mut cursor, b"a long old log\n");
    assert_eq!(read(&mut cursor, b"fresh\n"), b"fresh\n".to_vec());
    assert_eq!(cursor.position(), 6);
}

#[test]
fn emptied_log_sets_the_cursor_to_zero() {
    let mut cursor = TailCursor::new();
    read(&mut cursor, b"a long old log\n");
    assert_eq!(read(&mut cursor, b""), Vec::<u8>::new());
    assert_eq!(cursor.position(), 0);
    assert!(!cursor.is_first_read());
}

#[test]
fn file_of_the_cursors_length_is_not_shrunk() {
    let mut cursor = TailCursor::new();
    read(&mut cursor, b"12345");
    assert_eq!(cursor.start(5), 5);
    assert_eq!(cursor.start(6), 5);
    assert_eq!(cursor.start(4), 0);
}

#[test]
fn advance_counts_from_where_the_read_started() {
    let mut cursor = TailCursor::new();
    cursor.advance(100, 20);
    assert_eq!(cursor.position(), 120);
    assert_eq!(cursor.start(150), 120);
    cursor.advance(150, 30);
    assert_eq!(cursor.position(), 150);
    cursor.advance(149, 7);
    assert_eq!(cursor.position(), 7);
}

#[test]
fn cursor_counts_up_to_the_limit() {
    let mut cursor = TailCursor::new();
    cursor.advance(u64::MAX - 10, 10);
    assert_eq!(cursor.position(), u64::MAX);
    assert_eq!(cursor.start(u64::MAX), u64::MAX);
    cursor.advance(u64::MAX, 0);
    assert_eq!(cursor.position(), u64::MAX);
}
