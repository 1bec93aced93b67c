//! The animated pixel grid: current and goal colors for every terminal cell.
//!
//! A `Buffer` holds two `PixelBuffer`s — the colors on screen and the colors
//! each cell is walking toward — plus the generator that draws fresh goals.
//! The tick engine advances every channel of every cell one unit toward its
//! goal and reseeds the goal of each cell that arrives, exactly as the spec
//! functions below describe cell by cell.

use vstd::prelude::*;

use crate::rng::{byte_of, next64, nth_state, stream_byte, SimpleRng};
use crate::rng::lemma_nth_state_add;

verus! {

/// The mathematical content of a `PixelBuffer`: one byte sequence per channel.
#[verifier::ext_equal]
pub ghost struct ChannelsView {
    pub r: Seq<u8>,
    pub g: Seq<u8>,
    pub b: Seq<u8>,
}

/// The mathematical content of a `Buffer`.
#[verifier::ext_equal]
pub ghost struct BufferView {
    pub width: u16,
    pub height: u16,
    pub pixels: ChannelsView,
    pub goals: ChannelsView,
    pub rng: u64,
}

/// The sequence of `len` bytes drawn from generator state `s`.
pub open spec fn filled_seq(s: u64, len: nat) -> Seq<u8> {
    Seq::new(len, |i: int| stream_byte(s, i as nat))
}

/// The three channel sequences produced by seeding `size` cells from
/// generator state `s`: first all red bytes, then all green, then all blue.
pub open spec fn seeded_channels(s: u64, size: nat) -> ChannelsView {
    ChannelsView {
        r: filled_seq(s, size),
        g: filled_seq(nth_state(s, size), size),
        b: filled_seq(nth_state(s, size + size), size),
    }
}

impl BufferView {
    /// The number of cells the dimensions call for.
    pub open spec fn size(self) -> nat {
        self.width as nat * self.height as nat
    }

    /// Every channel of both grids holds exactly one byte per cell.
    pub open spec fn wf(self) -> bool {
        &&& self.pixels.r.len() == self.size()
        &&& self.pixels.g.len() == self.size()
        &&& self.pixels.b.len() == self.size()
        &&& self.goals.r.len() == self.size()
        &&& self.goals.g.len() == self.size()
        &&& self.goals.b.len() == self.size()
    }
}

/// One channel value after a tick: one unit toward the goal, unchanged on
/// arrival. The result never overshoots and never leaves `[0, 255]`.
pub open spec fn step(c: u8, g: u8) -> u8 {
    if c < g {
        (c + 1) as u8
    } else if c > g {
        (c - 1) as u8
    } else {
        c
    }
}

/// Distance between two channel values.
pub open spec fn dist(a: u8, b: u8) -> nat {
    if a >= b {
        (a - b) as nat
    } else {
        (b - a) as nat
    }
}

/// A channel moves by at most one unit per tick, strictly toward its goal,
/// and never past it: the distance to the goal drops by exactly one until
/// it is zero.
pub proof fn lemma_step_progress(c: u8, g: u8)
    ensures
        dist(step(c, g), c) <= 1,
        c == g ==> step(c, g) == c,
        c != g ==> dist(step(c, g), g) == dist(c, g) - 1,
        step(c, g) <= if c >= g { c } else { g },
        step(c, g) >= if c <= g { c } else { g },
{
}

/// Flat arrays of three channels, one byte per cell and channel.
pub struct PixelBuffer {
    r: Vec<u8>,
    g: Vec<u8>,
    b: Vec<u8>,
}

impl View for PixelBuffer {
    type V = ChannelsView;

    closed spec fn view(&self) -> ChannelsView {
        ChannelsView { r: self.r@, g: self.g@, b: self.b@ }
    }
}

impl PixelBuffer {
    /// Allocates all three channels at `size` bytes, zero-filled.
    pub fn new(size: usize) -> (pb: PixelBuffer)
        ensures
            pb@.r == Seq::new(size as nat, |i: int| 0u8),
            pb@.g == Seq::new(size as nat, |i: int| 0u8),
            pb@.b == Seq::new(size as nat, |i: int| 0u8),
    {
        PixelBuffer { r: zero_vec(size), g: zero_vec(size), b: zero_vec(size) }
    }

    /// Grows or shrinks all three channels to `new_size` bytes, keeping the
    /// common prefix and zero-filling any extension.
    pub fn resize(&mut self, new_size: usize)
        ensures
            final(self)@.r.len() == new_size,
            final(self)@.g.len() == new_size,
            final(self)@.b.len() == new_size,
            forall|i: int|
                0 <= i < new_size && i < old(self)@.r.len() ==> final(self)@.r[i] == old(
                    self,
                )@.r[i],
            forall|i: int|
                0 <= i < new_size && i < old(self)@.g.len() ==> final(self)@.g[i] == old(
                    self,
                )@.g[i],
            forall|i: int|
                0 <= i < new_size && i < old(self)@.b.len() ==> final(self)@.b[i] == old(
                    self,
                )@.b[i],
            forall|i: int| old(self)@.r.len() <= i < new_size ==> final(self)@.r[i] == 0u8,
            forall|i: int| old(self)@.g.len() <= i < new_size ==> final(self)@.g[i] == 0u8,
            forall|i: int| old(self)@.b.len() <= i < new_size ==> final(self)@.b[i] == 0u8,
    {
        self.r.resize(new_size, 0);
        self.g.resize(new_size, 0);
        self.b.resize(new_size, 0);
        proof {
            assert forall|i: int|
                old(self)@.r.len() <= i < new_size implies self.r@[i] == 0u8 by {
                assert(cloned::<u8>(0u8, self.r@[i]));
            }
            assert forall|i: int|
                old(self)@.g.len() <= i < new_size implies self.g@[i] == 0u8 by {
                assert(cloned::<u8>(0u8, self.g@[i]));
            }
            assert forall|i: int|
                old(self)@.b.len() <= i < new_size implies self.b@[i] == 0u8 by {
                assert(cloned::<u8>(0u8, self.b@[i]));
            }
        }
    }

    /// Overwrites every channel with fresh draws: all red bytes first, then
    /// all green, then all blue, so the contents are a pure function of the
    /// generator state going in.
    pub fn fill_random(&mut self, rng: &mut SimpleRng)
        ensures
            final(self)@.r.len() == old(self)@.r.len(),
            final(self)@.g.len() == old(self)@.g.len(),
            final(self)@.b.len() == old(self)@.b.len(),
            final(self)@.r == filled_seq(old(rng)@, old(self)@.r.len()),
            final(self)@.g == filled_seq(
                nth_state(old(rng)@, old(self)@.r.len()),
                old(self)@.g.len(),
            ),
            final(self)@.b == filled_seq(
                nth_state(old(rng)@, old(self)@.r.len() + old(self)@.g.len()),
                old(self)@.b.len(),
            ),
            final(rng)@ == nth_state(
                old(rng)@,
                old(self)@.r.len() + old(self)@.g.len() + old(self)@.b.len(),
            ),
    {
        let ghost s0 = rng@;
        let ghost rlen = self.r@.len();
        let ghost glen = self.g@.len();
        let ghost blen = self.b@.len();
        rng.fill(&mut self.r);
        rng.fill(&mut self.g);
        rng.fill(&mut self.b);
        proof {
            lemma_nth_state_add(s0, rlen, glen);
            lemma_nth_state_add(s0, rlen + glen, blen);
            assert(self.r@ =~= filled_seq(s0, rlen)) by {
                assert forall|i: int| 0 <= i < rlen implies self.r@[i] == stream_byte(
                    s0,
                    i as nat,
                ) by {}
            }
            assert(self.g@ =~= filled_seq(nth_state(s0, rlen), glen)) by {
                assert forall|i: int| 0 <= i < glen implies self.g@[i] == stream_byte(
                    nth_state(s0, rlen),
                    i as nat,
                ) by {}
            }
            assert(self.b@ =~= filled_seq(nth_state(s0, rlen + glen), blen)) by {
                assert forall|i: int| 0 <= i < blen implies self.b@[i] == stream_byte(
                    nth_state(s0, rlen + glen),
                    i as nat,
                ) by {}
            }
        }
    }
}

/// The full animation state: dimensions, the colors on screen, the colors
/// being walked toward, and the generator that draws fresh goals.
pub struct Buffer {
    width: u16,
    height: u16,
    pixels: PixelBuffer,
    goals: PixelBuffer,
    rng: SimpleRng,
}

impl View for Buffer {
    type V = BufferView;

    closed spec fn view(&self) -> BufferView {
        BufferView {
            width: self.width,
            height: self.height,
            pixels: self.pixels@,
            goals: self.goals@,
            rng: self.rng@,
        }
    }
}

impl Buffer {
    /// Allocates a `width * height` grid and seeds both current and goal
    /// colors from the given generator, current colors first. The result is
    /// a pure function of the dimensions and the generator state, so two
    /// buffers built from equal seeds hold identical arrays.
    pub fn new(width: u16, height: u16, rng: SimpleRng) -> (buf: Buffer)
        ensures
            buf@.width == width,
            buf@.height == height,
            buf@.wf(),
            buf@.pixels == seeded_channels(rng@, buf@.size()),
            buf@.goals == seeded_channels(nth_state(rng@, 3 * buf@.size()), buf@.size()),
            buf@.rng == nth_state(rng@, 6 * buf@.size()),
    {
        let ghost s0 = rng@;
        let size = checked_size(width, height);
        let mut pixels = PixelBuffer::new(size);
        let mut goals = PixelBuffer::new(size);
        let mut rng = rng;
        pixels.fill_random(&mut rng);
        goals.fill_random(&mut rng);
        proof {
            lemma_seeded(s0, size as nat);
        }
        Buffer { width, height, pixels, goals, rng }
    }

    /// The grid width in cells.
    pub fn width(&self) -> (w: u16)
        ensures
            w == self@.width,
    {
        self.width
    }

    /// The grid height in cells.
    pub fn height(&self) -> (h: u16)
        ensures
            h == self@.height,
    {
        self.height
    }

    /// The number of cells.
    pub fn cell_count(&self) -> (n: usize)
        requires
            self@.wf(),
        ensures
            n == self@.size(),
    {
        self.pixels.r.len()
    }

    /// Checks the grid's integrity: every channel of both grids holds
    /// exactly one byte per cell. Constructors and methods keep this true;
    /// callers outside the verified world can test it before ticking.
    pub fn grid_ok(&self) -> (ok: bool)
        ensures
            ok == self@.wf(),
    {
        let size = checked_size(self.width, self.height);
        self.pixels.r.len() == size && self.pixels.g.len() == size && self.pixels.b.len() == size
            && self.goals.r.len() == size && self.goals.g.len() == size && self.goals.b.len()
            == size
    }

    /// Adopts new dimensions: a no-op when they already match, otherwise the
    /// grid is reallocated and reseeded wholesale — no prior pixel state
    /// survives a real resize.
    pub fn resize(&mut self, width: u16, height: u16)
        requires
            old(self)@.wf(),
        ensures
            final(self)@.width == width,
            final(self)@.height == height,
            final(self)@.wf(),
            old(self)@.width == width && old(self)@.height == height ==> final(self)@ == old(
                self,
            )@,
            old(self)@.width != width || old(self)@.height != height ==> {
                &&& final(self)@.pixels == seeded_channels(old(self)@.rng, final(self)@.size())
                &&& final(self)@.goals == seeded_channels(
                    nth_state(old(self)@.rng, 3 * final(self)@.size()),
                    final(self)@.size(),
                )
                &&& final(self)@.rng == nth_state(old(self)@.rng, 6 * final(self)@.size())
            },
    {
        if width != self.width || height != self.height {
            let ghost s0 = self.rng@;
            self.width = width;
            self.height = height;
            let size = checked_size(width, height);
            self.pixels.resize(size);
            self.goals.resize(size);
            self.pixels.fill_random(&mut self.rng);
            self.goals.fill_random(&mut self.rng);
            proof {
                lemma_seeded(s0, size as nat);
            }
        }
    }
}

/// The outcome of ticking a prefix of the grid: the channel arrays so far
/// and the generator state after the goals drawn along the way.
#[verifier::ext_equal]
pub ghost struct TickView {
    pub pixels: ChannelsView,
    pub goals: ChannelsView,
    pub rng: u64,
}

/// Whether cell `i` arrives this tick: stepping every channel of its current
/// color lands exactly on its goal color. The comparison uses the updated
/// current value and the goal as it stood before the tick.
pub open spec fn arrives(p: ChannelsView, q: ChannelsView, i: int) -> bool {
    &&& step(p.r[i], q.r[i]) == q.r[i]
    &&& step(p.g[i], q.g[i]) == q.g[i]
    &&& step(p.b[i], q.b[i]) == q.b[i]
}

/// The grid after ticking cells `0 .. n` in index order, starting from
/// current colors `p`, goal colors `q` and generator state `s`. Each cell
/// steps every channel toward its goal; a cell that arrives has its goal
/// channels replaced by three fresh draws, red then green then blue.
pub open spec fn tick_upto(p: ChannelsView, q: ChannelsView, s: u64, n: int) -> TickView
    decreases n,
{
    if n <= 0 {
        TickView { pixels: p, goals: q, rng: s }
    } else {
        let prev = tick_upto(p, q, s, n - 1);
        let i = n - 1;
        let pixels = ChannelsView {
            r: prev.pixels.r.update(i, step(p.r[i], q.r[i])),
            g: prev.pixels.g.update(i, step(p.g[i], q.g[i])),
            b: prev.pixels.b.update(i, step(p.b[i], q.b[i])),
        };
        if arrives(p, q, i) {
            let s1 = next64(prev.rng);
            let s2 = next64(s1);
            let s3 = next64(s2);
            TickView {
                pixels,
                goals: ChannelsView {
                    r: prev.goals.r.update(i, byte_of(s1)),
                    g: prev.goals.g.update(i, byte_of(s2)),
                    b: prev.goals.b.update(i, byte_of(s3)),
                },
                rng: s3,
            }
        } else {
            TickView { pixels, goals: prev.goals, rng: prev.rng }
        }
    }
}

/// All six channel arrays hold exactly `len` bytes.
pub open spec fn channels_len(p: ChannelsView, q: ChannelsView, len: int) -> bool {
    &&& p.r.len() == len
    &&& p.g.len() == len
    &&& p.b.len() == len
    &&& q.r.len() == len
    &&& q.g.len() == len
    &&& q.b.len() == len
}

/// Ticking a prefix never changes array lengths.
proof fn lemma_tick_upto_len(p: ChannelsView, q: ChannelsView, s: u64, len: int, n: int)
    requires
        channels_len(p, q, len),
        0 <= n <= len,
    ensures
        channels_len(tick_upto(p, q, s, n).pixels, tick_upto(p, q, s, n).goals, len),
    decreases n,
{
    if n > 0 {
        lemma_tick_upto_len(p, q, s, len, n - 1);
    }
}

/// Ticking cells `0 .. n` leaves every cell at index `n` or beyond untouched.
proof fn lemma_tick_upto_untouched(
    p: ChannelsView,
    q: ChannelsView,
    s: u64,
    len: int,
    n: int,
    j: int,
)
    requires
        channels_len(p, q, len),
        0 <= n <= j < len,
    ensures
        tick_upto(p, q, s, n).pixels.r[j] == p.r[j],
        tick_upto(p, q, s, n).pixels.g[j] == p.g[j],
        tick_upto(p, q, s, n).pixels.b[j] == p.b[j],
        tick_upto(p, q, s, n).goals.r[j] == q.r[j],
        tick_upto(p, q, s, n).goals.g[j] == q.g[j],
        tick_upto(p, q, s, n).goals.b[j] == q.b[j],
    decreases n,
{
    if n > 0 {
        lemma_tick_upto_len(p, q, s, len, n - 1);
        lemma_tick_upto_untouched(p, q, s, len, n - 1, j);
    }
}

/// How many of the cells `0 .. n` arrive this tick. Each arrival consumes
/// three random draws, so this counter fixes which draw lands where.
pub open spec fn arrivals_before(p: ChannelsView, q: ChannelsView, n: int) -> nat
    decreases n,
{
    if n <= 0 {
        0
    } else {
        arrivals_before(p, q, n - 1) + if arrives(p, q, n - 1) {
            1nat
        } else {
            0nat
        }
    }
}

/// After ticking `n` cells the generator has been advanced exactly three
/// draws per arrived cell.
pub proof fn lemma_tick_rng(p: ChannelsView, q: ChannelsView, s: u64, len: int, n: int)
    requires
        channels_len(p, q, len),
        0 <= n <= len,
    ensures
        tick_upto(p, q, s, n).rng == nth_state(s, 3 * arrivals_before(p, q, n)),
    decreases n,
{
    if n > 0 {
        lemma_tick_rng(p, q, s, len, n - 1);
        if arrives(p, q, n - 1) {
            let prev = tick_upto(p, q, s, n - 1);
            let a = arrivals_before(p, q, n - 1);
            lemma_nth_state_add(s, 3 * a, 3);
            assert(nth_state(prev.rng, 1) == next64(nth_state(prev.rng, 0)));
            assert(nth_state(prev.rng, 2) == next64(nth_state(prev.rng, 1)));
            assert(nth_state(prev.rng, 3) == next64(nth_state(prev.rng, 2)));
            assert(3 * a + 3 == 3 * arrivals_before(p, q, n));
        }
    }
}

/// Every channel of every ticked cell moves by at most one unit, strictly
/// toward its goal and never past it: the updated value is exactly the
/// `step` of the old value toward the old goal, so its distance to the goal
/// shrinks by one until it reaches zero.
pub proof fn lemma_tick_pixels(
    p: ChannelsView,
    q: ChannelsView,
    s: u64,
    len: int,
    n: int,
    i: int,
)
    requires
        channels_len(p, q, len),
        0 <= i < n <= len,
    ensures
        tick_upto(p, q, s, n).pixels.r[i] == step(p.r[i], q.r[i]),
        tick_upto(p, q, s, n).pixels.g[i] == step(p.g[i], q.g[i]),
        tick_upto(p, q, s, n).pixels.b[i] == step(p.b[i], q.b[i]),
        dist(tick_upto(p, q, s, n).pixels.r[i], p.r[i]) <= 1,
        dist(tick_upto(p, q, s, n).pixels.g[i], p.g[i]) <= 1,
        dist(tick_upto(p, q, s, n).pixels.b[i], p.b[i]) <= 1,
        p.r[i] != q.r[i] ==> dist(tick_upto(p, q, s, n).pixels.r[i], q.r[i]) == dist(
            p.r[i],
            q.r[i],
        ) - 1,
        p.g[i] != q.g[i] ==> dist(tick_upto(p, q, s, n).pixels.g[i], q.g[i]) == dist(
            p.g[i],
            q.g[i],
        ) - 1,
        p.b[i] != q.b[i] ==> dist(tick_upto(p, q, s, n).pixels.b[i], q.b[i]) == dist(
            p.b[i],
            q.b[i],
        ) - 1,
        p.r[i] == q.r[i] ==> tick_upto(p, q, s, n).pixels.r[i] == p.r[i],
        p.g[i] == q.g[i] ==> tick_upto(p, q, s, n).pixels.g[i] == p.g[i],
        p.b[i] == q.b[i] ==> tick_upto(p, q, s, n).pixels.b[i] == p.b[i],
    decreases n,
{
    lemma_tick_upto_len(p, q, s, len, n - 1);
    if n - 1 > i {
        lemma_tick_pixels(p, q, s, len, n - 1, i);
    }
    lemma_step_progress(p.r[i], q.r[i]);
    lemma_step_progress(p.g[i], q.g[i]);
    lemma_step_progress(p.b[i], q.b[i]);
}

/// A cell whose stepped color lands exactly on its goal — in particular one
/// that already sat on its goal — has its goal replaced that same tick by
/// three fresh draws, one independent byte per channel in red, green, blue
/// order; every other cell keeps its goal untouched.
pub proof fn lemma_tick_goals(p: ChannelsView, q: ChannelsView, s: u64, len: int, n: int, i: int)
    requires
        channels_len(p, q, len),
        0 <= i < n <= len,
    ensures
        arrives(p, q, i) ==> {
            &&& tick_upto(p, q, s, n).goals.r[i] == stream_byte(
                s,
                3 * arrivals_before(p, q, i),
            )
            &&& tick_upto(p, q, s, n).goals.g[i] == stream_byte(
                s,
                3 * arrivals_before(p, q, i) + 1,
            )
            &&& tick_upto(p, q, s, n).goals.b[i] == stream_byte(
                s,
                3 * arrivals_before(p, q, i) + 2,
            )
        },
        !arrives(p, q, i) ==> {
            &&& tick_upto(p, q, s, n).goals.r[i] == q.r[i]
            &&& tick_upto(p, q, s, n).goals.g[i] == q.g[i]
            &&& tick_upto(p, q, s, n).goals.b[i] == q.b[i]
        },
    decreases n,
{
    lemma_tick_upto_len(p, q, s, len, n - 1);
    if n - 1 > i {
        lemma_tick_goals(p, q, s, len, n - 1, i);
    } else {
        let prev = tick_upto(p, q, s, i);
        lemma_tick_upto_untouched(p, q, s, len, i, i);
        if arrives(p, q, i) {
            lemma_tick_rng(p, q, s, len, i);
            let a = arrivals_before(p, q, i);
            lemma_nth_state_add(s, 3 * a, 1);
            lemma_nth_state_add(s, 3 * a + 1, 1);
            lemma_nth_state_add(s, 3 * a + 2, 1);
            assert(nth_state(prev.rng, 1) == next64(nth_state(prev.rng, 0)));
            let s1 = next64(prev.rng);
            let s2 = next64(s1);
            let s3 = next64(s2);
            assert(nth_state(s, 3 * a + 1) == next64(nth_state(s, 3 * a)));
            assert(nth_state(s, 3 * a + 2) == next64(nth_state(s, 3 * a + 1)));
            assert(nth_state(s, 3 * a + 3) == next64(nth_state(s, 3 * a + 2)));
            assert(s1 == nth_state(s, 3 * a + 1));
            assert(s2 == nth_state(s, 3 * a + 2));
            assert(s3 == nth_state(s, 3 * a + 3));
        }
    }
}

impl Buffer {
    /// Advances every cell one tick: each channel steps one unit toward its
    /// goal, and every cell whose updated color equals its goal color draws
    /// a fresh random goal, one byte per channel in red, green, blue order.
    /// Cells are processed in index order, which fixes which random draw
    /// lands in which reassigned goal.
    pub fn tick(&mut self)
        requires
            old(self)@.wf(),
        ensures
            final(self)@.wf(),
            final(self)@.width == old(self)@.width,
            final(self)@.height == old(self)@.height,
            ({
                let t = tick_upto(
                    old(self)@.pixels,
                    old(self)@.goals,
                    old(self)@.rng,
                    old(self)@.size() as int,
                );
                &&& final(self)@.pixels == t.pixels
                &&& final(self)@.goals == t.goals
                &&& final(self)@.rng == t.rng
            }),
    {
        let ghost p0 = self@.pixels;
        let ghost q0 = self@.goals;
        let ghost s0 = self@.rng;
        let len = self.pixels.r.len();
        let mut i: usize = 0;
        while i < len
            invariant
                i <= len,
                len == old(self)@.size(),
                channels_len(p0, q0, len as int),
                self@.width == old(self)@.width,
                self@.height == old(self)@.height,
                self@.wf(),
                p0 == old(self)@.pixels,
                q0 == old(self)@.goals,
                s0 == old(self)@.rng,
                self@.pixels.r == tick_upto(p0, q0, s0, i as int).pixels.r,
                self@.pixels.g == tick_upto(p0, q0, s0, i as int).pixels.g,
                self@.pixels.b == tick_upto(p0, q0, s0, i as int).pixels.b,
                self@.goals.r == tick_upto(p0, q0, s0, i as int).goals.r,
                self@.goals.g == tick_upto(p0, q0, s0, i as int).goals.g,
                self@.goals.b == tick_upto(p0, q0, s0, i as int).goals.b,
                self@.rng == tick_upto(p0, q0, s0, i as int).rng,
            decreases len - i,
        {
            proof {
                lemma_tick_upto_len(p0, q0, s0, len as int, i as int);
                lemma_tick_upto_untouched(p0, q0, s0, len as int, i as int, i as int);
            }
            let pr = self.pixels.r[i];
            let pg = self.pixels.g[i];
            let pb = self.pixels.b[i];
            let gr = self.goals.r[i];
            let gg = self.goals.g[i];
            let gb = self.goals.b[i];
            let nr = self.step_towards_goal(pr, gr);
            let ng = self.step_towards_goal(pg, gg);
            let nb = self.step_towards_goal(pb, gb);
            self.pixels.r.set(i, nr);
            self.pixels.g.set(i, ng);
            self.pixels.b.set(i, nb);
            if nr == gr && ng == gg && nb == gb {
                let a = self.rng.random();
                let b = self.rng.random();
                let c = self.rng.random();
                self.goals.r.set(i, a);
                self.goals.g.set(i, b);
                self.goals.b.set(i, c);
            }
            i = i + 1;
        }
    }

    /// One channel value after a tick: increment below the goal, decrement
    /// above it, hold on arrival. Pure and total on all byte pairs.
    pub fn step_towards_goal(&self, current: u8, goal: u8) -> (r: u8)
        ensures
            r == step(current, goal),
    {
        if current < goal {
            current + 1
        } else if current > goal {
            current - 1
        } else {
            current
        }
    }

    /// The current color of cell `i`, as `(r, g, b)`.
    pub fn cell_current(&self, i: usize) -> (c: (u8, u8, u8))
        requires
            self@.wf(),
            i < self@.size(),
        ensures
            c.0 == self@.pixels.r[i as int],
            c.1 == self@.pixels.g[i as int],
            c.2 == self@.pixels.b[i as int],
    {
        (self.pixels.r[i], self.pixels.g[i], self.pixels.b[i])
    }

    /// The goal color of cell `i`, as `(r, g, b)`.
    pub fn cell_goal(&self, i: usize) -> (c: (u8, u8, u8))
        requires
            self@.wf(),
            i < self@.size(),
        ensures
            c.0 == self@.goals.r[i as int],
            c.1 == self@.goals.g[i as int],
            c.2 == self@.goals.b[i as int],
    {
        (self.goals.r[i], self.goals.g[i], self.goals.b[i])
    }

    /// Overwrites the current and goal colors of cell `i`, leaving the rest
    /// of the grid, the dimensions and the generator untouched.
    pub fn set_cell(&mut self, i: usize, current: (u8, u8, u8), goal: (u8, u8, u8))
        requires
            old(self)@.wf(),
            i < old(self)@.size(),
        ensures
            final(self)@.wf(),
            final(self)@.width == old(self)@.width,
            final(self)@.height == old(self)@.height,
            final(self)@.rng == old(self)@.rng,
            final(self)@.pixels.r == old(self)@.pixels.r.update(i as int, current.0),
            final(self)@.pixels.g == old(self)@.pixels.g.update(i as int, current.1),
            final(self)@.pixels.b == old(self)@.pixels.b.update(i as int, current.2),
            final(self)@.goals.r == old(self)@.goals.r.update(i as int, goal.0),
            final(self)@.goals.g == old(self)@.goals.g.update(i as int, goal.1),
            final(self)@.goals.b == old(self)@.goals.b.update(i as int, goal.2),
    {
        self.pixels.r.set(i, current.0);
        self.pixels.g.set(i, current.1);
        self.pixels.b.set(i, current.2);
        self.goals.r.set(i, goal.0);
        self.goals.g.set(i, goal.1);
        self.goals.b.set(i, goal.2);
    }

    /// Serializes the grid into the byte stream of one full frame: home the
    /// cursor and clear, then every cell in row-major order as a background
    /// truecolor directive plus one space, rows separated by CR LF, and a
    /// final attribute reset. The caller writes the whole thing in one go.
    pub fn render(&self) -> (out: Vec<u8>)
        requires
            self@.wf(),
        ensures
            out@ == frame_bytes(self@),
    {
        let mut out = crate::term::clear_sequence();
        let w = self.width as usize;
        let h = self.height as usize;
        let n = self.pixels.r.len();
        proof {
            assert(w as int * h as int == self@.size()) by (nonlinear_arith)
                requires
                    w == self@.width,
                    h == self@.height,
            ;
        }
        let mut row: usize = 0;
        while row < h
            invariant
                row <= h,
                w == self@.width,
                h == self@.height,
                w as int * h as int == self@.size(),
                n == self@.size(),
                self@.wf(),
                out@ == crate::term::home_clear_bytes() + rows_bytes(self@, row as int),
            decreases h - row,
        {
            let mut col: usize = 0;
            while col < w
                invariant
                    row < h,
                    col <= w,
                    w == self@.width,
                    h == self@.height,
                    w as int * h as int == self@.size(),
                    n == self@.size(),
                    self@.wf(),
                    out@ == crate::term::home_clear_bytes() + rows_bytes(self@, row as int)
                        + row_bytes(self@, row as int, col as int),
                decreases w - col,
            {
                proof {
                    assert(row as int * w as int + col < w as int * h as int) by (nonlinear_arith)
                        requires
                            0 <= (row as int) && (row as int) < (h as int),
                            0 <= (col as int) && (col as int) < (w as int),
                    ;
                }
                let idx = row * w + col;
                push_cell(&mut out, self.pixels.r[idx], self.pixels.g[idx], self.pixels.b[idx]);
                proof {
                    assert(out@ =~= crate::term::home_clear_bytes() + rows_bytes(
                        self@,
                        row as int,
                    ) + row_bytes(self@, row as int, col as int + 1));
                }
                col = col + 1;
            }
            if row < h - 1 {
                out.push(13);
                out.push(10);
            }
            proof {
                assert(out@ =~= crate::term::home_clear_bytes() + rows_bytes(
                    self@,
                    row as int + 1,
                ));
            }
            row = row + 1;
        }
        out.push(27);
        out.push(91);
        out.push(48);
        out.push(109);
        proof {
            assert(out@ =~= frame_bytes(self@));
        }
        out
    }
}

/// The decimal ASCII digits of a byte value, without leading zeros.
pub open spec fn dec_bytes(n: u8) -> Seq<u8> {
    if n < 10 {
        seq![(48 + n) as u8]
    } else if n < 100 {
        seq![(48 + n / 10) as u8, (48 + n % 10) as u8]
    } else {
        seq![(48 + n / 100) as u8, (48 + (n / 10) % 10) as u8, (48 + n % 10) as u8]
    }
}

/// The escape directive that paints one cell: set the background to the
/// cell's color, then one space character.
pub open spec fn cell_bytes(r: u8, g: u8, b: u8) -> Seq<u8> {
    // ESC [ 4 8 ; 2 ;
    seq![27u8, 91u8, 52u8, 56u8, 59u8, 50u8, 59u8] + dec_bytes(r) + seq![59u8] + dec_bytes(g)
        + seq![59u8] + dec_bytes(b) + seq![109u8, 32u8]  // m SPACE
}

/// The directives of the first `cols` cells of one row, in column order.
pub open spec fn row_bytes(v: BufferView, row: int, cols: int) -> Seq<u8>
    decreases cols,
{
    if cols <= 0 {
        Seq::empty()
    } else {
        let i = row * (v.width as int) + (cols - 1);
        row_bytes(v, row, cols - 1) + cell_bytes(v.pixels.r[i], v.pixels.g[i], v.pixels.b[i])
    }
}

/// The first `rows` full rows of a frame, each followed by CR LF except the
/// grid's last row.
pub open spec fn rows_bytes(v: BufferView, rows: int) -> Seq<u8>
    decreases rows,
{
    if rows <= 0 {
        Seq::empty()
    } else {
        rows_bytes(v, rows - 1) + row_bytes(v, rows - 1, v.width as int) + if rows - 1
            < v.height as int - 1 {
            seq![13u8, 10u8]
        } else {
            Seq::empty()
        }
    }
}

/// One full frame: home and clear, all rows, attribute reset.
pub open spec fn frame_bytes(v: BufferView) -> Seq<u8> {
    crate::term::home_clear_bytes() + rows_bytes(v, v.height as int) + crate::term::reset_bytes()
}

/// Appends the decimal digits of `n`.
fn push_dec(out: &mut Vec<u8>, n: u8)
    ensures
        final(out)@ == old(out)@ + dec_bytes(n),
{
    if n >= 100 {
        out.push(48 + n / 100);
        out.push(48 + (n / 10) % 10);
        out.push(48 + n % 10);
    } else if n >= 10 {
        out.push(48 + n / 10);
        out.push(48 + n % 10);
    } else {
        out.push(48 + n);
    }
    proof {
        assert(out@ =~= old(out)@ + dec_bytes(n));
    }
}

/// Appends the directive that paints one cell with color `(r, g, b)`.
fn push_cell(out: &mut Vec<u8>, r: u8, g: u8, b: u8)
    ensures
        final(out)@ == old(out)@ + cell_bytes(r, g, b),
{
    out.push(27);
    out.push(91);
    out.push(52);
    out.push(56);
    out.push(59);
    out.push(50);
    out.push(59);
    push_dec(out, r);
    out.push(59);
    push_dec(out, g);
    out.push(59);
    push_dec(out, b);
    out.push(109);
    out.push(32);
    proof {
        assert(out@ =~= old(out)@ + cell_bytes(r, g, b));
    }
}

/// The cell count `width * height` fits a machine word: both factors are
/// 16-bit, so the product stays below 2^32.
fn checked_size(width: u16, height: u16) -> (size: usize)
    ensures
        size == width as nat * height as nat,
{
    proof {
        assert(width as int * height as int <= 0xffff * 0xffff) by (nonlinear_arith)
            requires
                width as int <= 0xffff,
                height as int <= 0xffff,
                0 <= width as int,
                0 <= height as int,
        ;
    }
    (width as usize) * (height as usize)
}

/// Seeding six channel arrays of `size` bytes in a row walks the generator
/// through six blocks of `size` draws: the goal channels start at state
/// `nth_state(s, 3 * size)` and the final state is `nth_state(s, 6 * size)`.
proof fn lemma_seeded(s: u64, size: nat)
    ensures
        seeded_channels(s, size).r.len() == size,
        seeded_channels(s, size).g.len() == size,
        seeded_channels(s, size).b.len() == size,
        nth_state(s, size + size + size) == nth_state(s, 3 * size),
        seeded_channels(nth_state(s, 3 * size), size).r == filled_seq(nth_state(s, 3 * size), size),
        nth_state(nth_state(s, 3 * size), size + size + size) == nth_state(s, 6 * size),
{
    lemma_nth_state_add(s, 3 * size, size + size + size);
    assert(3 * size + (size + size + size) == 6 * size);
}

/// Builds a zero-filled byte vector of the given length.
fn zero_vec(len: usize) -> (v: Vec<u8>)
    ensures
        v@ == Seq::new(len as nat, |i: int| 0u8),
{
    let mut v: Vec<u8> = Vec::new();
    let mut i: usize = 0;
    while i < len
        invariant
            i <= len,
            v@.len() == i,
            forall|j: int| 0 <= j < i ==> v@[j] == 0u8,
        decreases len - i,
    {
        v.push(0);
        i = i + 1;
    }
    proof {
        assert(v@ =~= Seq::new(len as nat, |i: int| 0u8));
    }
    v
}

} // verus!
