use py_spy::lnotab::line_number;

// The table of the interpreter's notes on line-number tables: byte code offsets
// 0, 6, 50, 350, 361 begin the lines 1, 2, 7, 207, 208.
const NOTES: [u8; 12] = [0, 1, 6, 1, 44, 5, 255, 0, 45, 200, 11, 1];

#[test]
fn lines_follow_the_interpreters_own_vectors() {
    let vectors: [(i32, &[u8], i32, i32); 16] = [
        (0, &NOTES, 0, 1),
        (0, &NOTES, 5, 1),
        (0, &NOTES, 6, 2),
        (0, &NOTES, 49, 2),
        (0, &NOTES, 50, 7),
        (0, &NOTES, 304, 7),
        (0, &NOTES, 305, 7),
        (0, &NOTES, 349, 7),
        (0, &NOTES, 350, 207),
        (0, &NOTES, 360, 207),
        (0, &NOTES, 361, 208),
        (0, &NOTES, 100_000, 208),
        (0, &NOTES, -1, 0),
        (41, &NOTES, 350, 248),
        (12, &[], 30, 12),
        (12, &[4], 30, 12),
    ];
    for (first_line, table, lasti, expected) in vectors {
        assert_eq!(
            line_number(first_line, table, lasti, false),
            Some(expected),
            "first line {}, instruction {}",
            first_line,
            lasti
        );
    }
}

#[test]
fn signed_increments_go_backwards() {
    // a loop whose header is visited again: +3 lines, then -2
    let table = [0u8, 1, 8, 3, 6, 254, 4, 1];
    assert_eq!(line_number(10, &table, 0, true), Some(11));
    assert_eq!(line_number(10, &table, 8, true), Some(14));
    assert_eq!(line_number(10, &table, 14, true), Some(12));
    assert_eq!(line_number(10, &table, 18, true), Some(13));
    // the same bytes read as unsigned increments
    assert_eq!(line_number(10, &table, 14, false), Some(268));
    assert_eq!(line_number(10, &[0, 128], 0, true), Some(-118));
    assert_eq!(line_number(10, &[0, 127], 0, true), Some(137));
}

#[test]
fn odd_byte_at_the_end_is_not_looked_at() {
    assert_eq!(line_number(1, &[0, 1, 2], 10, false), Some(2));
    assert_eq!(line_number(1, &[0, 1, 2, 5, 9], 10, false), Some(7));
}

#[test]
fn line_that_does_not_fit_is_refused() {
    assert_eq!(line_number(i32::MAX, &[0, 1], 0, false), None);
    assert_eq!(line_number(i32::MAX, &[0, 0], 0, false), Some(i32::MAX));
    assert_eq!(line_number(i32::MAX, &[0, 1, 0, 255], 0, true), Some(i32::MAX));
    assert_eq!(line_number(i32::MIN, &[0, 255], 0, true), None);
    assert_eq!(line_number(i32::MIN, &[0, 255], 0, false), Some(i32::MIN + 255));
}
