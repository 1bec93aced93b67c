//! The non-blocking input listener.
//!
//! Keyboard bytes are read off the main loop's path by a producer that owns
//! the sending half of a channel; the listener holds the receiving half and
//! drains whatever has arrived without ever blocking. The recognized exit
//! keys are pinned down by `is_exit_code`.

use vstd::prelude::*;

verus! {

#[verifier::external_type_specification]
#[verifier::external_body]
#[verifier::reject_recursive_types(T)]
pub struct ExReceiver<T>(std::sync::mpsc::Receiver<T>);

/// Whether a byte asks the animation to stop: the interrupt byte, the
/// escape byte, or the letters `q` and `Q`.
pub open spec fn is_exit_code(b: u8) -> bool {
    b == 3 || b == 27 || b == 113 || b == 81
}

/// Receives keyboard bytes pushed by a producer thread and reports whether
/// an exit key arrived, without ever blocking the caller.
pub struct InputHandler {
    receiver: std::sync::mpsc::Receiver<u8>,
}

impl InputHandler {
    /// Wraps the receiving half of the channel the byte producer sends into.
    pub fn from_receiver(receiver: std::sync::mpsc::Receiver<u8>) -> InputHandler {
        InputHandler { receiver }
    }

    /// Relies on mpsc::Receiver::try_recv: returns a buffered byte if one
    /// has arrived, and nothing when the channel is empty or the sender is
    /// gone. Which case occurs depends on what was typed, so nothing is
    /// assumed of the result.
    #[verifier::external_body]
    pub fn try_read(&self) -> Option<u8> {
        match self.receiver.try_recv() {
            Ok(byte) => Some(byte),
            Err(_) => None,
        }
    }

    /// Drains the bytes buffered so far and reports whether any of them is
    /// an exit key: the result is `scan_exit` of exactly what was drained.
    /// The drain is bounded so that one call provably terminates; a burst
    /// longer than the bound is picked up by the next call.
    pub fn check_exit(&self) -> bool {
        let drained = self.drain();
        scan_exit(&drained)
    }

    /// Empties the channel of everything buffered so far, in arrival order,
    /// up to the termination bound.
    fn drain(&self) -> Vec<u8> {
        let mut drained: Vec<u8> = Vec::new();
        let mut budget: usize = 65536;
        while budget > 0
            decreases budget,
        {
            match self.try_read() {
                None => {
                    return drained;
                },
                Some(byte) => {
                    drained.push(byte);
                },
            }
            budget = budget - 1;
        }
        drained
    }
}

/// Whether a batch of input bytes asks the animation to stop: true exactly
/// when some byte of it is a recognized exit key.
pub fn scan_exit(bytes: &Vec<u8>) -> (r: bool)
    ensures
        r == exists|i: int| 0 <= i < bytes@.len() && is_exit_code(#[trigger] bytes@[i]),
{
    let mut i: usize = 0;
    while i < bytes.len()
        invariant
            i <= bytes@.len(),
            forall|j: int| 0 <= j < i ==> !is_exit_code(#[trigger] bytes@[j]),
        decreases bytes@.len() - i,
    {
        if is_exit_byte(bytes[i]) {
            return true;
        }
        i = i + 1;
    }
    false
}

/// Whether a byte is one of the recognized exit keys.
pub fn is_exit_byte(b: u8) -> (r: bool)
    ensures
        r == is_exit_code(b),
{
    b == 3 || b == 27 || b == 113 || b == 81
}

} // verus!
