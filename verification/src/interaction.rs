//! The interaction state machine: focus, click-multiplicity disambiguation,
//! drag state and fractional scroll-delta accumulation.

use vstd::prelude::*;
use vstd::arithmetic::div_mod::lemma_fundamental_div_mod_converse;

use crate::commands::Rect;
use crate::keyboard::Modifiers;

verus! {

/// Click multiplicity: a first, second or third press within the timing
/// window.
#[derive(Clone, Copy, Debug, PartialEq, Eq, Structural)]
pub enum ClickKind {
    Single,
    Double,
    Triple,
}

/// What a left-button drag is doing: extending a text selection, or moving
/// the scrollbar thumb grabbed at `start_y` when the scroll fraction (in
/// millionths) was `start_scroll`.
#[derive(Clone, Copy, Debug, PartialEq, Eq, Structural)]
pub enum Dragging {
    Buffer,
    Scrollbar { start_y: i32, start_scroll: i64 },
}

/// Per-widget interaction state, owned by the widget and carried between
/// events and frames. `scrollbar_rect` is written by every draw pass and read
/// by every pointer event: it caches where the scrollbar thumb was last
/// drawn. `scroll_pixels` is the fractional leftover of pixel-based wheel
/// scrolling, always smaller than one line height in magnitude.
#[derive(Clone, Copy, Debug)]
pub struct State {
    pub modifiers: Modifiers,
    pub click: Option<(ClickKind, u64)>,
    pub dragging: Option<Dragging>,
    pub is_focused: bool,
    pub scroll_pixels: i32,
    pub scrollbar_rect: Rect,
}

impl State {
    /// The leftover scroll pixels stay far from the integer range limits, so
    /// a new delta can always be added without overflow. Every event leaves
    /// the leftover strictly below one line height, well within this bound.
    pub open spec fn wf(self) -> bool {
        -0x1000_0000 <= self.scroll_pixels <= 0x1000_0000
    }

    /// Creates the initial state: no modifiers, no click or drag history,
    /// unfocused, no leftover scroll pixels, empty cached scrollbar.
    pub fn new() -> (s: State)
        ensures
            s.wf(),
            s.modifiers == (Modifiers { shift: false, alt: false, ctrl: false, logo: false }),
            s.click is None,
            s.dragging is None,
            !s.is_focused,
            s.scroll_pixels == 0,
            s.scrollbar_rect == (Rect { x: 0, y: 0, width: 0, height: 0 }),
    {
        State {
            modifiers: Modifiers::empty(),
            click: None,
            dragging: None,
            is_focused: false,
            scroll_pixels: 0,
            scrollbar_rect: Rect::zero(),
        }
    }

    /// Whether the widget has keyboard focus.
    pub fn is_focused(&self) -> (r: bool)
        ensures
            r == self.is_focused,
    {
        self.is_focused
    }

    /// Gives the widget keyboard focus.
    pub fn focus(&mut self)
        ensures
            *final(self) == (State { is_focused: true, ..*old(self) }),
    {
        self.is_focused = true;
    }

    /// Takes keyboard focus away.
    pub fn unfocus(&mut self)
        ensures
            *final(self) == (State { is_focused: false, ..*old(self) }),
    {
        self.is_focused = false;
    }
}

/// The multiplicity of a new press given the previous click record: within
/// the timing window the multiplicity advances cyclically
/// Single, Double, Triple, Single, ...; outside it, or with no previous
/// click, the press is a Single.
pub open spec fn spec_next_click_kind(
    prev: Option<(ClickKind, u64)>,
    now: u64,
    timing: u64,
) -> ClickKind {
    match prev {
        Some((kind, t)) => if t <= now < t + timing {
            match kind {
                ClickKind::Single => ClickKind::Double,
                ClickKind::Double => ClickKind::Triple,
                ClickKind::Triple => ClickKind::Single,
            }
        } else {
            ClickKind::Single
        },
        None => ClickKind::Single,
    }
}

/// Decides the multiplicity of a press at time `now` (milliseconds) from the
/// previous click record and the configured timing window.
pub fn next_click_kind(prev: &Option<(ClickKind, u64)>, now: u64, timing: u64) -> (r: ClickKind)
    ensures
        r == spec_next_click_kind(*prev, now, timing),
{
    match prev {
        Some((kind, t)) => {
            if *t <= now && now - *t < timing {
                match kind {
                    ClickKind::Single => ClickKind::Double,
                    ClickKind::Double => ClickKind::Triple,
                    ClickKind::Triple => ClickKind::Single,
                }
            } else {
                ClickKind::Single
            }
        },
        None => ClickKind::Single,
    }
}

/// Three presses within the timing window advance the multiplicity
/// Single, Double, Triple in order; a fourth within-window press wraps back
/// to Single; and a press after the window has elapsed is a Single whatever
/// the prior count was.
pub proof fn lemma_click_sequencing(t1: u64, t2: u64, t3: u64, t4: u64, timing: u64, late: u64)
    requires
        t1 <= t2 < t1 + timing,
        t2 <= t3 < t2 + timing,
        t3 <= t4 < t3 + timing,
        late >= t4 + timing,
    ensures
        spec_next_click_kind(None, t1, timing) == ClickKind::Single,
        spec_next_click_kind(Some((ClickKind::Single, t1)), t2, timing) == ClickKind::Double,
        spec_next_click_kind(Some((ClickKind::Double, t2)), t3, timing) == ClickKind::Triple,
        spec_next_click_kind(Some((ClickKind::Triple, t3)), t4, timing) == ClickKind::Single,
        forall|k: ClickKind|
            spec_next_click_kind(Some((k, t4)), late, timing) == ClickKind::Single,
{
}

/// Truncating (round-toward-zero) integer division, as Rust's `/` computes
/// it.
pub open spec fn trunc_div(a: int, b: int) -> int {
    if a >= 0 {
        a / b
    } else {
        -((-a) / b)
    }
}

/// The remainder of truncating division; it carries the sign of `a`.
pub open spec fn trunc_rem(a: int, b: int) -> int {
    a - b * trunc_div(a, b)
}

/// Truncating division is the unique quotient whose remainder is smaller
/// than the divisor and carries the dividend's sign.
pub proof fn lemma_trunc_div_unique(a: int, b: int, q: int, r: int)
    requires
        b > 0,
        a == q * b + r,
        -b < r < b,
        a >= 0 ==> r >= 0,
        a <= 0 ==> r <= 0,
    ensures
        q == trunc_div(a, b),
        r == trunc_rem(a, b),
{
    if a >= 0 {
        if r < 0 {
            assert(a == 0);
            assert(q * b == -r);
            assert(false);
        }
        lemma_fundamental_div_mod_converse(a, b, q, r);
    } else {
        assert(r <= 0);
        assert((-q) * b == -(q * b)) by (nonlinear_arith);
        assert(-a == (-q) * b + (-r));
        lemma_fundamental_div_mod_converse(-a, b, -q, -r);
        assert((-a) / b == -q);
    }
    assert(b * q == q * b) by (nonlinear_arith);
}

/// Adds a pixel delta to the fractional scroll accumulator and takes out the
/// whole lines it now contains. The leftover keeps the sign of the
/// accumulated total and stays strictly below one line height, so
/// accumulation across events never drifts.
pub fn accumulate_scroll(pixels: &mut i32, delta: i32, line_height: i32) -> (lines: i32)
    requires
        0 < line_height,
        -0x1000_0000 <= delta <= 0x1000_0000,
        -0x1000_0000 <= *old(pixels) <= 0x1000_0000,
        line_height <= 0x1000_0000,
    ensures
        *old(pixels) + delta == lines * line_height + *final(pixels),
        -line_height < *final(pixels) < line_height,
        *old(pixels) + delta >= 0 ==> lines >= 0 && *final(pixels) >= 0,
        *old(pixels) + delta <= 0 ==> lines <= 0 && *final(pixels) <= 0,
        lines == trunc_div(*old(pixels) + delta, line_height as int),
        *final(pixels) == trunc_rem(*old(pixels) + delta, line_height as int),
        -0x2000_0000 <= lines <= 0x2000_0000,
{
    let ghost total: int = *old(pixels) + delta;
    let lh: i64 = line_height as i64;
    let mut px: i64 = *pixels as i64 + delta as i64;
    let mut lines: i64 = 0;
    if px >= 0 {
        while px >= lh
            invariant
                0 < lh <= 0x1000_0000,
                total == lines * lh + px,
                0 <= px,
                px <= total,
                0 <= lines,
                lines <= total,
                total <= 0x2000_0000,
            decreases px,
        {
            proof {
                assert((lines + 1) * lh == lines * lh + lh) by (nonlinear_arith);
                assert(lines + 1 <= (lines + 1) * lh) by (nonlinear_arith)
                    requires
                        lines + 1 >= 1,
                        lh >= 1,
                ;
            }
            lines = lines + 1;
            px = px - lh;
        }
    } else {
        while px <= -lh
            invariant
                0 < lh <= 0x1000_0000,
                total == lines * lh + px,
                px <= 0,
                px >= total,
                lines <= 0,
                lines >= total,
                total >= -0x2000_0000,
            decreases -px,
        {
            proof {
                assert((lines - 1) * lh == lines * lh - lh) by (nonlinear_arith);
                assert(lines - 1 >= (lines - 1) * lh) by (nonlinear_arith)
                    requires
                        lines - 1 <= 0,
                        lh >= 1,
                ;
            }
            lines = lines - 1;
            px = px + lh;
        }
    }
    proof {
        lemma_trunc_div_unique(total, lh as int, lines as int, px as int);
    }
    *pixels = px as i32;
    lines as i32
}

/// The sum of a sequence of integers.
pub open spec fn sum_seq(s: Seq<int>) -> int
    decreases s.len(),
{
    if s.len() == 0 {
        0
    } else {
        s[0] + sum_seq(s.subrange(1, s.len() as int))
    }
}

/// The scroll accumulator folded over a sequence of pixel deltas: the total
/// of the whole lines taken out, and the final leftover.
pub open spec fn accum_fold(rem: int, deltas: Seq<int>, lh: int) -> (int, int)
    decreases deltas.len(),
{
    if deltas.len() == 0 {
        (0, rem)
    } else {
        let l0 = trunc_div(rem + deltas[0], lh);
        let r0 = trunc_rem(rem + deltas[0], lh);
        let rest = accum_fold(r0, deltas.subrange(1, deltas.len() as int), lh);
        (l0 + rest.0, rest.1)
    }
}

/// Accumulating deltas of one (non-negative) direction loses nothing: the
/// lines taken out and the leftover always add back up to the accumulated
/// total, and the leftover stays within one line height.
pub proof fn lemma_accum_fold_nonneg(rem: int, deltas: Seq<int>, lh: int)
    requires
        lh > 0,
        0 <= rem < lh,
        forall|i: int| 0 <= i < deltas.len() ==> deltas[i] >= 0,
    ensures
        accum_fold(rem, deltas, lh).0 * lh + accum_fold(rem, deltas, lh).1 == rem + sum_seq(
            deltas,
        ),
        0 <= accum_fold(rem, deltas, lh).1 < lh,
        accum_fold(rem, deltas, lh).0 >= 0,
    decreases deltas.len(),
{
    if deltas.len() == 0 {
        assert(accum_fold(rem, deltas, lh).0 == 0);
        assert(accum_fold(rem, deltas, lh).1 == rem);
        assert(sum_seq(deltas) == 0);
    } else {
        let a = rem + deltas[0];
        let l0 = trunc_div(a, lh);
        let r0 = trunc_rem(a, lh);
        assert(a >= 0);
        vstd::arithmetic::div_mod::lemma_fundamental_div_mod(a, lh);
        vstd::arithmetic::div_mod::lemma_mod_bound(a, lh);
        vstd::arithmetic::div_mod::lemma_div_pos_is_pos(a, lh);
        assert(l0 == a / lh);
        assert(r0 == a - lh * (a / lh));
        assert(r0 == a % lh);
        let tail = deltas.subrange(1, deltas.len() as int);
        lemma_accum_fold_nonneg(r0, tail, lh);
        let rest = accum_fold(r0, tail, lh);
        assert(accum_fold(rem, deltas, lh).0 == l0 + rest.0);
        assert(accum_fold(rem, deltas, lh).1 == rest.1);
        assert(rest.0 * lh + rest.1 == r0 + sum_seq(tail));
        assert(lh * l0 == l0 * lh) by (nonlinear_arith);
        assert(a == l0 * lh + r0);
        assert((l0 + rest.0) * lh == l0 * lh + rest.0 * lh) by (nonlinear_arith);
        assert(sum_seq(deltas) == deltas[0] + sum_seq(tail));
        assert(l0 >= 0);
    }
}

/// Re-chunking does not change the outcome: for deltas of one direction the
/// accumulated whole lines and the leftover depend only on the total, not on
/// how it was split into events.
pub proof fn lemma_pixel_accumulation_rechunk(deltas: Seq<int>, lh: int)
    requires
        lh > 0,
        forall|i: int| 0 <= i < deltas.len() ==> deltas[i] >= 0,
    ensures
        accum_fold(0, deltas, lh).0 == sum_seq(deltas) / lh,
        accum_fold(0, deltas, lh).1 == sum_seq(deltas) % lh,
{
    lemma_accum_fold_nonneg(0, deltas, lh);
    let l = accum_fold(0, deltas, lh).0;
    let r = accum_fold(0, deltas, lh).1;
    assert(sum_seq(deltas) == l * lh + r);
    lemma_fundamental_div_mod_converse(sum_seq(deltas), lh, l, r);
}

/// Sub-line pixel deltas of one direction that sum to exactly one line
/// height produce exactly one whole scroll line and a leftover of zero,
/// however finely the total was chunked.
pub proof fn lemma_pixel_accumulation_exact(deltas: Seq<int>, lh: int)
    requires
        lh > 0,
        forall|i: int| 0 <= i < deltas.len() ==> deltas[i] >= 0,
        sum_seq(deltas) == lh,
    ensures
        accum_fold(0, deltas, lh).0 == 1,
        accum_fold(0, deltas, lh).1 == 0,
{
    lemma_pixel_accumulation_rechunk(deltas, lh);
    assert(lh / lh == 1) by {
        vstd::arithmetic::div_mod::lemma_div_by_self(lh);
    }
    assert(lh % lh == 0) by {
        vstd::arithmetic::div_mod::lemma_mod_self_0(lh);
    }
}


/// Accumulating deltas of the downward (non-positive) direction likewise
/// loses nothing: the lines taken out and the leftover add back up to the
/// accumulated total, and the leftover stays within one line height.
pub proof fn lemma_accum_fold_nonpos(rem: int, deltas: Seq<int>, lh: int)
    requires
        lh > 0,
        -lh < rem <= 0,
        forall|i: int| 0 <= i < deltas.len() ==> deltas[i] <= 0,
    ensures
        accum_fold(rem, deltas, lh).0 * lh + accum_fold(rem, deltas, lh).1 == rem + sum_seq(
            deltas,
        ),
        -lh < accum_fold(rem, deltas, lh).1 <= 0,
        accum_fold(rem, deltas, lh).0 <= 0,
    decreases deltas.len(),
{
    if deltas.len() == 0 {
        assert(accum_fold(rem, deltas, lh).0 == 0);
        assert(accum_fold(rem, deltas, lh).1 == rem);
        assert(sum_seq(deltas) == 0);
    } else {
        let a = rem + deltas[0];
        let l0 = trunc_div(a, lh);
        let r0 = trunc_rem(a, lh);
        assert(a <= 0);
        vstd::arithmetic::div_mod::lemma_fundamental_div_mod(-a, lh);
        vstd::arithmetic::div_mod::lemma_mod_bound(-a, lh);
        vstd::arithmetic::div_mod::lemma_div_pos_is_pos(-a, lh);
        let q = (-a) / lh;
        if a < 0 {
            assert(l0 == -q);
        } else {
            assert(a == 0);
            vstd::arithmetic::div_mod::lemma_basic_div(0, lh);
            assert(l0 == 0);
        }
        assert((-q) * lh == -(q * lh)) by (nonlinear_arith);
        assert(l0 * lh == -(q * lh));
        assert(r0 == a - lh * l0);
        assert(lh * l0 == l0 * lh) by (nonlinear_arith);
        assert(r0 == a + q * lh);
        assert(lh * q == q * lh) by (nonlinear_arith);
        assert(-lh < r0 <= 0);
        let tail = deltas.subrange(1, deltas.len() as int);
        lemma_accum_fold_nonpos(r0, tail, lh);
        let rest = accum_fold(r0, tail, lh);
        assert(accum_fold(rem, deltas, lh).0 == l0 + rest.0);
        assert(accum_fold(rem, deltas, lh).1 == rest.1);
        assert(rest.0 * lh + rest.1 == r0 + sum_seq(tail));
        assert(a == l0 * lh + r0);
        assert((l0 + rest.0) * lh == l0 * lh + rest.0 * lh) by (nonlinear_arith);
        assert(sum_seq(deltas) == deltas[0] + sum_seq(tail));
        assert(l0 <= 0);
    }
}

/// Re-chunking does not change the outcome in the downward direction either.
pub proof fn lemma_pixel_accumulation_rechunk_down(deltas: Seq<int>, lh: int)
    requires
        lh > 0,
        forall|i: int| 0 <= i < deltas.len() ==> deltas[i] <= 0,
    ensures
        accum_fold(0, deltas, lh).0 == trunc_div(sum_seq(deltas), lh),
        accum_fold(0, deltas, lh).1 == trunc_rem(sum_seq(deltas), lh),
{
    lemma_accum_fold_nonpos(0, deltas, lh);
    let l = accum_fold(0, deltas, lh).0;
    let r = accum_fold(0, deltas, lh).1;
    assert(sum_seq(deltas) <= 0) by {
        lemma_sum_nonpos(deltas);
    }
    if sum_seq(deltas) == 0 {
        assert(l * lh <= 0) by (nonlinear_arith)
            requires
                l <= 0,
                lh > 0,
        ;
        assert(l * lh == -r);
        assert(l * lh == 0);
        assert(r == 0);
    }
    lemma_trunc_div_unique(sum_seq(deltas), lh, l, r);
}

/// Sub-line deltas of the downward direction that sum to exactly one line
/// height produce exactly one whole scroll line and no leftover.
pub proof fn lemma_pixel_accumulation_exact_down(deltas: Seq<int>, lh: int)
    requires
        lh > 0,
        forall|i: int| 0 <= i < deltas.len() ==> deltas[i] <= 0,
        sum_seq(deltas) == -lh,
    ensures
        accum_fold(0, deltas, lh).0 == -1,
        accum_fold(0, deltas, lh).1 == 0,
{
    lemma_pixel_accumulation_rechunk_down(deltas, lh);
    assert(lh / lh == 1) by {
        vstd::arithmetic::div_mod::lemma_div_by_self(lh);
    }
    assert(trunc_div(-lh, lh) == -1);
    assert((-1) * lh == -lh) by (nonlinear_arith);
    assert(lh * (-1) == -lh) by (nonlinear_arith);
    assert(trunc_rem(-lh, lh) == 0);
}

/// A sum of non-positive values is non-positive.
proof fn lemma_sum_nonpos(deltas: Seq<int>)
    requires
        forall|i: int| 0 <= i < deltas.len() ==> deltas[i] <= 0,
    ensures
        sum_seq(deltas) <= 0,
    decreases deltas.len(),
{
    if deltas.len() > 0 {
        lemma_sum_nonpos(deltas.subrange(1, deltas.len() as int));
    }
}

} // verus!
