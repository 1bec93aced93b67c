//! A small xorshift pseudo-random generator.
//!
//! Within a run the emitted stream is a pure function of the seed and the
//! call order, which the contracts below pin down exactly: `next64` is one
//! state transition, `nth_state` iterates it, and `stream_byte` names the
//! byte produced by the n-th draw.

use vstd::prelude::*;

verus! {

/// One xorshift transition of the generator state.
pub open spec fn next64(s: u64) -> u64 {
    let a = s ^ (s << 13);
    let b = a ^ (a >> 7);
    b ^ (b << 17)
}

/// The state after `n` transitions from `s`.
pub open spec fn nth_state(s: u64, n: nat) -> u64
    decreases n,
{
    if n == 0 {
        s
    } else {
        next64(nth_state(s, (n - 1) as nat))
    }
}

/// The byte exposed by a state: its low eight bits.
pub open spec fn byte_of(s: u64) -> u8 {
    (s & 0xff) as u8
}

/// The byte returned by the n-th draw (counting from 0) from state `s`.
pub open spec fn stream_byte(s: u64, n: nat) -> u8 {
    byte_of(nth_state(s, n + 1))
}

/// Iterating the transition `a + b` times is iterating it `a` times and
/// then `b` more times.
pub proof fn lemma_nth_state_add(s: u64, a: nat, b: nat)
    ensures
        nth_state(s, a + b) == nth_state(nth_state(s, a), b),
    decreases b,
{
    if b > 0 {
        lemma_nth_state_add(s, a, (b - 1) as nat);
    }
}

/// A xorshift generator. The stream it produces is a pure function of the
/// state it was seeded with, so two generators seeded alike agree forever.
pub struct SimpleRng {
    state: u64,
}

impl View for SimpleRng {
    type V = u64;

    closed spec fn view(&self) -> u64 {
        self.state
    }
}

impl SimpleRng {
    /// Seeds from the wall clock, substituting 1 if the clock reads zero:
    /// a zero state is a fixed point of the xorshift transition.
    pub fn new() -> (rng: SimpleRng)
        ensures
            rng@ != 0,
    {
        let t = time_nanos();
        SimpleRng { state: if t == 0 { 1 } else { t } }
    }

    /// Seeds from a caller-chosen value, substituting 1 for zero, so that
    /// runs can be reproduced.
    pub fn from_seed(seed: u64) -> (rng: SimpleRng)
        ensures
            rng@ == if seed == 0 { 1u64 } else { seed },
            rng@ != 0,
    {
        SimpleRng { state: if seed == 0 { 1 } else { seed } }
    }

    /// Advances the state by one transition and returns it.
    pub fn next_u64(&mut self) -> (r: u64)
        ensures
            final(self)@ == next64(old(self)@),
            r == final(self)@,
    {
        let mut s = self.state;
        s = s ^ (s << 13u64);
        s = s ^ (s >> 7u64);
        s = s ^ (s << 17u64);
        self.state = s;
        s
    }

    /// Draws one byte: the low eight bits of the next state.
    pub fn next_u8(&mut self) -> (r: u8)
        ensures
            final(self)@ == next64(old(self)@),
            r == stream_byte(old(self)@, 0),
            r == byte_of(final(self)@),
    {
        let v = self.next_u64();
        let b = #[verifier::truncate] ((v & 0xff) as u8);
        proof {
            assert(nth_state(old(self)@, 0) == old(self)@);
            assert(nth_state(old(self)@, 1) == next64(nth_state(old(self)@, 0)));
        }
        b
    }

    /// Draws one byte; same stream as `next_u8`.
    pub fn random(&mut self) -> (r: u8)
        ensures
            final(self)@ == next64(old(self)@),
            r == stream_byte(old(self)@, 0),
            r == byte_of(final(self)@),
    {
        self.next_u8()
    }

    /// Overwrites every byte of `buf` with successive draws, in order.
    pub fn fill(&mut self, buf: &mut Vec<u8>)
        ensures
            final(buf).len() == old(buf).len(),
            forall|i: int|
                0 <= i < final(buf).len() ==> final(buf)[i] == stream_byte(old(self)@, i as nat),
            final(self)@ == nth_state(old(self)@, final(buf).len() as nat),
    {
        let n = buf.len();
        let mut i: usize = 0;
        while i < n
            invariant
                i <= n,
                n == buf.len(),
                forall|j: int| 0 <= j < i ==> buf[j] == stream_byte(old(self)@, j as nat),
                forall|j: int| i <= j < n ==> buf[j] == old(buf)[j],
                self@ == nth_state(old(self)@, i as nat),
            decreases n - i,
        {
            let ghost pre = self@;
            let b = self.next_u8();
            buf.set(i, b);
            proof {
                lemma_nth_state_add(old(self)@, i as nat, 1);
                assert(nth_state(old(self)@, i as nat + 1) == next64(pre));
                assert(stream_byte(old(self)@, i as nat) == byte_of(next64(pre)));
                assert(stream_byte(pre, 0) == byte_of(next64(pre)));
            }
            i = i + 1;
        }
    }
}

/// Relies on std::time::SystemTime::now for a time-varying seed; the value
/// depends on the clock, so nothing is assumed of it.
#[verifier::external_body]
fn time_nanos() -> u64 {
    match std::time::SystemTime::now().duration_since(std::time::UNIX_EPOCH) {
        Ok(d) => d.as_nanos() as u64,
        Err(_) => 0,
    }
}

} // verus!
