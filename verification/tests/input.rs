use std::sync::mpsc;

use clrblk::input::{is_exit_byte, scan_exit, InputHandler};

#[test]
fn interrupt_byte_requests_exit() {
    let (tx, rx) = mpsc::channel();
    let handler = InputHandler::from_receiver(rx);
    tx.send(0x03).unwrap();
    assert!(handler.check_exit());
}

#[test]
fn escape_byte_requests_exit() {
    let (tx, rx) = mpsc::channel();
    let handler = InputHandler::from_receiver(rx);
    tx.send(0x1b).unwrap();
    assert!(handler.check_exit());
}

#[test]
fn both_quit_letters_request_exit() {
    for byte in [b'q', b'Q'] {
        let (tx, rx) = mpsc::channel();
        let handler = InputHandler::from_receiver(rx);
        tx.send(byte).unwrap();
        assert!(handler.check_exit());
    }
}

#[test]
fn ordinary_bytes_do_not_request_exit() {
    let (tx, rx) = mpsc::channel();
    let handler = InputHandler::from_receiver(rx);
    tx.send(b'a').unwrap();
    tx.send(b'x').unwrap();
    tx.send(b'0').unwrap();
    assert!(!handler.check_exit());
}

#[test]
fn empty_channel_does_not_request_exit() {
    let (_tx, rx) = mpsc::channel::<u8>();
    let handler = InputHandler::from_receiver(rx);
    assert!(!handler.check_exit());
}

#[test]
fn exit_byte_is_found_behind_noise() {
    let (tx, rx) = mpsc::channel();
    let handler = InputHandler::from_receiver(rx);
    tx.send(b'a').unwrap();
    tx.send(b'b').unwrap();
    tx.send(0x03).unwrap();
    assert!(handler.check_exit());
}

#[test]
fn bytes_are_delivered_in_order() {
    let (tx, rx) = mpsc::channel();
    let handler = InputHandler::from_receiver(rx);
    tx.send(1).unwrap();
    tx.send(2).unwrap();
    assert_eq!(handler.try_read(), Some(1));
    assert_eq!(handler.try_read(), Some(2));
    assert_eq!(handler.try_read(), None);
}

#[test]
fn check_exit_drains_everything_buffered() {
    let (tx, rx) = mpsc::channel();
    let handler = InputHandler::from_receiver(rx);
    tx.send(b'a').unwrap();
    tx.send(0x03).unwrap();
    tx.send(b'b').unwrap();
    assert!(handler.check_exit());
    // Per the listener's contract all bytes buffered at the call were
    // drained, including those after the exit byte.
    assert_eq!(handler.try_read(), None);
}

#[test]
fn scan_finds_an_exit_byte_anywhere() {
    assert!(scan_exit(&vec![0x03]));
    assert!(scan_exit(&vec![b'a', 0x1b, b'b']));
    assert!(scan_exit(&vec![b'a', b'b', b'q']));
    assert!(scan_exit(&vec![b'Q', b'a']));
}

#[test]
fn scan_rejects_batches_without_exit_bytes() {
    assert!(!scan_exit(&vec![]));
    assert!(!scan_exit(&vec![b'a']));
    assert!(!scan_exit(&vec![b'a', b'b', b'c', 0x20, 0x00]));
}

#[test]
fn exit_byte_classification() {
    assert!(is_exit_byte(3));
    assert!(is_exit_byte(27));
    assert!(is_exit_byte(b'q'));
    assert!(is_exit_byte(b'Q'));
    assert!(!is_exit_byte(b'p'));
    assert!(!is_exit_byte(0));
    assert!(!is_exit_byte(b' '));
}
