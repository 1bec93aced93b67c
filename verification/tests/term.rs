use clrblk::term::{clear_sequence, enter_sequence, Teardown};

#[test]
fn enter_sequence_hides_the_cursor() {
    assert_eq!(enter_sequence(), b"\x1b[?25l".to_vec());
}

#[test]
fn clear_sequence_homes_and_clears() {
    assert_eq!(clear_sequence(), b"\x1b[H\x1b[2J".to_vec());
}

#[test]
fn restore_emits_reset_and_cursor_once() {
    let mut guard = Teardown::new();
    assert_eq!(guard.restore(), b"\x1b[0m\x1b[?25h".to_vec());
}

#[test]
fn restoring_twice_emits_nothing_the_second_time() {
    let mut guard = Teardown::new();
    let first = guard.restore();
    assert_eq!(first, b"\x1b[0m\x1b[?25h".to_vec());
    let second = guard.restore();
    assert!(second.is_empty());
    let third = guard.restore();
    assert!(third.is_empty());
}
