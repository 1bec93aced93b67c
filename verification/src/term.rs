//! Terminal control sequences and the teardown guard.
//!
//! The animation owns the terminal while it runs: the cursor is hidden on
//! entry and must be shown again — and attributes reset — on every exit path.
//! `Teardown` guards that restoration so that running it twice emits the
//! escape sequence only once.

use vstd::prelude::*;

verus! {

/// The bytes that hide the cursor on entering animation mode.
pub open spec fn hide_cursor_bytes() -> Seq<u8> {
    // ESC [ ? 2 5 l
    seq![27u8, 91u8, 63u8, 50u8, 53u8, 108u8]
}

/// The bytes that undo animation mode: reset attributes, then show the
/// cursor again.
pub open spec fn restore_bytes() -> Seq<u8> {
    // ESC [ 0 m ESC [ ? 2 5 h
    seq![27u8, 91u8, 48u8, 109u8, 27u8, 91u8, 63u8, 50u8, 53u8, 104u8]
}

/// The bytes that move the cursor home and clear the screen.
pub open spec fn home_clear_bytes() -> Seq<u8> {
    // ESC [ H ESC [ 2 J
    seq![27u8, 91u8, 72u8, 27u8, 91u8, 50u8, 74u8]
}

/// The bytes that reset all display attributes.
pub open spec fn reset_bytes() -> Seq<u8> {
    // ESC [ 0 m
    seq![27u8, 91u8, 48u8, 109u8]
}

/// The output and the new guard state of one restoration call: the escape
/// sequence is emitted only out of a fresh guard, and the guard is spent
/// afterwards either way.
pub open spec fn restore_model(done: bool) -> (Seq<u8>, bool) {
    if done {
        (Seq::<u8>::empty(), true)
    } else {
        (restore_bytes(), true)
    }
}

/// Restoring a second time in a row emits nothing: the second call sees a
/// spent guard, whatever state the first call started from.
pub proof fn lemma_restore_idempotent(done: bool)
    ensures
        restore_model(restore_model(done).1).0 == Seq::<u8>::empty(),
        restore_model(restore_model(done).1).1,
{
}

/// The escape bytes that hide the cursor, for entering animation mode.
pub fn enter_sequence() -> (v: Vec<u8>)
    ensures
        v@ == hide_cursor_bytes(),
{
    let mut v: Vec<u8> = Vec::new();
    v.push(27);
    v.push(91);
    v.push(63);
    v.push(50);
    v.push(53);
    v.push(108);
    proof {
        assert(v@ =~= hide_cursor_bytes());
    }
    v
}

/// The escape bytes that home the cursor and clear the screen.
pub fn clear_sequence() -> (v: Vec<u8>)
    ensures
        v@ == home_clear_bytes(),
{
    let mut v: Vec<u8> = Vec::new();
    v.push(27);
    v.push(91);
    v.push(72);
    v.push(27);
    v.push(91);
    v.push(50);
    v.push(74);
    proof {
        assert(v@ =~= home_clear_bytes());
    }
    v
}

/// Guards terminal restoration so it happens at most once. Construct one
/// when entering animation mode; every exit path may call `restore` and the
/// escape sequence still reaches the terminal exactly once.
pub struct Teardown {
    done: bool,
}

impl View for Teardown {
    type V = bool;

    closed spec fn view(&self) -> bool {
        self.done
    }
}

impl Teardown {
    /// A fresh guard: restoration has not run yet.
    pub fn new() -> (t: Teardown)
        ensures
            !t@,
    {
        Teardown { done: false }
    }

    /// The bytes to write for this restoration call: the full restore
    /// sequence the first time, nothing on any later call.
    pub fn restore(&mut self) -> (out: Vec<u8>)
        ensures
            out@ == restore_model(old(self)@).0,
            final(self)@ == restore_model(old(self)@).1,
    {
        if self.done {
            Vec::new()
        } else {
            self.done = true;
            let mut v: Vec<u8> = Vec::new();
            v.push(27);
            v.push(91);
            v.push(48);
            v.push(109);
            v.push(27);
            v.push(91);
            v.push(63);
            v.push(50);
            v.push(53);
            v.push(104);
            proof {
                assert(v@ =~= restore_bytes());
            }
            v
        }
    }
}

} // verus!
