//! The style-run renderer: turns laid-out glyph runs, the metadata registry
//! and the widget state into a list of plain drawing commands — background
//! fills, decoration rectangles, the scrollbar thumb and the cursor glyph.
//!
//! All coordinates in the emitted commands are relative to the widget's
//! layout origin; the host adds its own offset when painting. Rasterizing the
//! glyph text itself belongs to the external text-layout service: the
//! renderer only emits a `Text` command naming the clip region.

use vstd::prelude::*;
use vstd::arithmetic::div_mod::lemma_fundamental_div_mod;
use vstd::arithmetic::div_mod::lemma_mod_bound;
use vstd::arithmetic::div_mod::lemma_mod_multiples_vanish;
use vstd::arithmetic::div_mod::lemma_small_mod;

use crate::color::Rgba;
use crate::color::shade;
use crate::color::spec_shade;

verus! {

/// One laid-out glyph: its horizontal extent in device units, its interned
/// attribute handle, and the font size its run was shaped with.
#[derive(Clone, Copy, Debug, PartialEq, Eq, Structural)]
pub struct Glyph {
    pub x: i32,
    pub w: i32,
    pub metadata: usize,
    pub font_size: i32,
}

/// One laid-out line of glyphs, with the top edge of its line box.
#[derive(Clone, Debug)]
pub struct LayoutRun {
    pub line_top: i32,
    pub glyphs: Vec<Glyph>,
}

/// A drawing command in device units, relative to the widget origin.
#[derive(Clone, Copy, Debug, PartialEq, Eq, Structural)]
pub enum DrawCommand {
    /// Fill a rectangle with a color.
    Quad { x: i64, y: i64, w: i64, h: i64, color: Rgba },
    /// Fill the widget background, with the configured border.
    Background { w: i64, h: i64, color: Rgba, border_width: i64, border_radius: i64 },
    /// Fill a rounded rectangle (the scrollbar thumb).
    Rounded { x: i64, y: i64, w: i64, h: i64, radius: i64, color: Rgba },
    /// Let the text service paint the glyphs, clipped to this region.
    Text { x: i64, y: i64, w: i64, h: i64 },
}

/// The decoration thickness for a font size: a tenth of the font size,
/// clamped to the 2..16 device-unit range.
pub open spec fn spec_style_height(font_size: int) -> int {
    let t = font_size / 10;
    if t < 2 {
        2
    } else if t > 16 {
        16
    } else {
        t
    }
}

/// Computes the decoration thickness for a font size.
pub fn style_height(font_size: i32) -> (h: i32)
    requires
        0 <= font_size,
    ensures
        h == spec_style_height(font_size as int),
        2 <= h <= 16,
{
    let t = font_size / 10;
    if t < 2 {
        2
    } else if t > 16 {
        16
    } else {
        t
    }
}

/// The total width of a decoration pattern: the sum of its segment widths.
pub open spec fn pat_len(pat: Seq<(i32, Option<i32>)>) -> int
    decreases pat.len(),
{
    if pat.len() == 0 {
        0
    } else {
        pat[0].0 + pat_len(pat.drop_first())
    }
}

/// The width of the first `i` segments of a pattern.
pub open spec fn pat_prefix(pat: Seq<(i32, Option<i32>)>, i: int) -> int {
    pat_len(pat.take(i))
}

/// The drawn height offset of the pattern at offset `off` from a tile start:
/// the `Option` of the segment covering `off`, where `None` is a gap.
pub open spec fn pat_height_at(pat: Seq<(i32, Option<i32>)>, off: int) -> Option<i32>
    decreases pat.len(),
{
    if pat.len() == 0 {
        None
    } else if off < pat[0].0 {
        pat[0].1
    } else {
        pat_height_at(pat.drop_first(), off - pat[0].0)
    }
}

/// All segment widths are positive (so tiling always advances).
pub open spec fn pat_wf(pat: Seq<(i32, Option<i32>)>) -> bool {
    &&& 0 < pat.len() <= 16
    &&& forall|i: int| 0 <= i < pat.len() ==> 0 < (#[trigger] pat[i]).0 <= 0x100
    &&& forall|i: int|
        0 <= i < pat.len() ==> ((#[trigger] pat[i]).1 matches Some(h) ==> 0 <= h <= 0x1000_0000)
}

/// Within segment `i`, the pattern's height is that segment's height and
/// the remaining width runs to the segment's end.
proof fn lemma_pat_segment(pat: Seq<(i32, Option<i32>)>, i: int, off: int)
    requires
        0 <= i < pat.len(),
        forall|j: int| 0 <= j < pat.len() ==> 0 < (#[trigger] pat[j]).0,
        pat_prefix(pat, i) <= off < pat_prefix(pat, i) + pat[i].0,
    ensures
        pat_height_at(pat, off) == pat[i].1,
        pat_seg_rem(pat, off) == pat_prefix(pat, i) + pat[i].0 - off,
    decreases i,
{
    if i == 0 {
        assert(pat.take(0) =~= Seq::empty());
        assert(pat_prefix(pat, 0) == 0);
        assert(off < pat[0].0);
    } else {
        let rest = pat.drop_first();
        assert(pat.take(i).drop_first() =~= rest.take(i - 1));
        assert(pat_prefix(pat, i) == pat[0].0 + pat_prefix(rest, i - 1));
        assert(pat_prefix(pat, 0) == pat_len(pat.take(0)));
        assert(pat.take(0) =~= Seq::empty());
        lemma_pat_prefix_nonneg(rest, i - 1);
        assert(off >= pat[0].0);
        lemma_pat_segment(rest, i - 1, off - pat[0].0);
    }
}

/// A prefix width is never negative (given positive segment widths).
proof fn lemma_pat_prefix_nonneg(pat: Seq<(i32, Option<i32>)>, i: int)
    requires
        0 <= i <= pat.len(),
        forall|j: int| 0 <= j < pat.len() ==> 0 < (#[trigger] pat[j]).0,
    ensures
        0 <= pat_prefix(pat, i),
        i < pat.len() ==> pat_prefix(pat, i) + pat[i].0 <= pat_len(pat),
        pat_prefix(pat, pat.len() as int) == pat_len(pat),
    decreases pat.len(),
{
    assert(pat.take(pat.len() as int) =~= pat);
    if pat.len() == 0 {
        assert(pat.take(0) =~= Seq::<(i32, Option<i32>)>::empty());
    } else {
        let rest = pat.drop_first();
        if i == 0 {
            assert(pat.take(0) =~= Seq::<(i32, Option<i32>)>::empty());
            lemma_pat_len_nonneg(rest);
            if 0 < pat.len() {
                lemma_pat_prefix_nonneg(rest, 0);
            }
        } else {
            assert(pat.take(i).drop_first() =~= rest.take(i - 1));
            lemma_pat_prefix_nonneg(rest, i - 1);
        }
    }
}

/// A pattern's total width is not negative.
proof fn lemma_pat_len_nonneg(pat: Seq<(i32, Option<i32>)>)
    requires
        forall|j: int| 0 <= j < pat.len() ==> 0 < (#[trigger] pat[j]).0,
    ensures
        pat_len(pat) >= pat.len(),
    decreases pat.len(),
{
    if pat.len() > 0 {
        lemma_pat_len_nonneg(pat.drop_first());
    }
}

/// Every drawing command this function appends is a pattern rectangle: it
/// has the decoration thickness, lies within the span and the given color,
/// and every horizontal position it covers carries exactly the pattern
/// height found at that position's absolute phase — so patterns of adjacent
/// spans stay phase-aligned instead of restarting at span boundaries.
/// The width remaining in the pattern segment that covers offset `off`.
pub open spec fn pat_seg_rem(pat: Seq<(i32, Option<i32>)>, off: int) -> int
    decreases pat.len(),
{
    if pat.len() == 0 {
        0
    } else if off < pat[0].0 {
        pat[0].0 - off
    } else {
        pat_seg_rem(pat.drop_first(), off - pat[0].0)
    }
}

/// The rectangles the tiler paints across `[x, end_x)`: walking left to
/// right, each step covers the rest of the pattern segment at the current
/// absolute phase (`x` modulo the pattern width), cropped at the span's end;
/// a rectangle is emitted for segments with a height, nothing for gaps.
/// This is the whole meaning of the patterned decorations: the phase comes
/// from the absolute coordinate, never from the span's start.
pub open spec fn spec_tiles(
    pat: Seq<(i32, Option<i32>)>,
    x: int,
    end_x: int,
    base_y: int,
    sl: int,
    color: Rgba,
) -> Seq<DrawCommand>
    decreases end_x - x,
{
    if x >= end_x || pat.len() == 0 || pat_len(pat) < 1 {
        Seq::empty()
    } else {
        let off = x % pat_len(pat);
        let rem = pat_seg_rem(pat, off);
        let adv = if rem < 1 {
            1
        } else {
            rem
        };
        let w = if adv < end_x - x {
            adv
        } else {
            end_x - x
        };
        let head: Seq<DrawCommand> = match pat_height_at(pat, off) {
            Some(ho) => seq![
                DrawCommand::Quad {
                    x: x as i64,
                    y: (base_y - ho) as i64,
                    w: w as i64,
                    h: sl as i64,
                    color,
                },
            ],
            None => Seq::empty(),
        };
        head + spec_tiles(pat, x + w, end_x, base_y, sl, color)
    }
}

/// One unfolding of the tiler at a position whose phase falls in segment
/// `i`: the step covers to the segment's end or the span's end, whichever
/// comes first.
proof fn lemma_tiles_peel(
    pat: Seq<(i32, Option<i32>)>,
    pos: int,
    end_x: int,
    base_y: int,
    sl: int,
    color: Rgba,
    i: int,
)
    requires
        pat_wf(pat),
        pos < end_x,
        0 <= i < pat.len(),
        pat_prefix(pat, i) <= pos % pat_len(pat) < pat_prefix(pat, i) + pat[i].0,
    ensures
        ({
            let off = pos % pat_len(pat);
            let w = if pat_prefix(pat, i) + pat[i].0 - off < end_x - pos {
                pat_prefix(pat, i) + pat[i].0 - off
            } else {
                end_x - pos
            };
            spec_tiles(pat, pos, end_x, base_y, sl, color) == (match pat[i].1 {
                Some(ho) => seq![
                    DrawCommand::Quad {
                        x: pos as i64,
                        y: (base_y - ho) as i64,
                        w: w as i64,
                        h: sl as i64,
                        color,
                    },
                ],
                None => Seq::<DrawCommand>::empty(),
            }) + spec_tiles(pat, pos + w, end_x, base_y, sl, color)
        }),
{
    let off = pos % pat_len(pat);
    lemma_pat_segment(pat, i, off);
    lemma_pat_len_nonneg(pat);
    assert(pat_seg_rem(pat, off) == pat_prefix(pat, i) + pat[i].0 - off);
    assert(pat_height_at(pat, off) == pat[i].1);
    assert(pat_seg_rem(pat, off) >= 1);
}

/// Tiles a repeating pattern of rectangles and gaps across the span
/// `[start_x, end_x)`, phase-aligned to the absolute x-coordinate, cropped
/// at both span edges. `base_y` is the line's bottom edge; each rectangle of
/// the pattern hangs its own height offset below it. The commands appended
/// are exactly `spec_tiles` of the span.
fn draw_repeated(
    cmds: &mut Vec<DrawCommand>,
    pat: &Vec<(i32, Option<i32>)>,
    start_x: i32,
    end_x: i32,
    base_y: i32,
    sl: i32,
    color: Rgba,
)
    requires
        pat_wf(pat@),
        0 <= start_x <= end_x <= 0x1000_0000,
        -0x4000_0000 <= base_y <= 0x4000_0000,
        0 <= sl <= 0x1000_0000,
    ensures
        final(cmds)@ == old(cmds)@ + spec_tiles(
            pat@,
            start_x as int,
            end_x as int,
            base_y as int,
            sl as int,
            color,
        ),
{
    let ghost orig = cmds@;
    let ghost plen = pat_len(pat@);
    let ghost whole = spec_tiles(
        pat@,
        start_x as int,
        end_x as int,
        base_y as int,
        sl as int,
        color,
    );
    proof {
        lemma_pat_len_nonneg(pat@);
        lemma_pat_prefix_nonneg(pat@, pat@.len() as int);
    }
    // total pattern width
    let mut total: i32 = 0;
    let mut t: usize = 0;
    while t < pat.len()
        invariant
            0 <= t <= pat@.len(),
            pat_wf(pat@),
            total == pat_prefix(pat@, t as int),
            0 <= total <= 0x100 * t,
            t <= 16,
        decreases pat@.len() - t,
    {
        proof {
            lemma_pat_prefix_nonneg(pat@, t as int);
            assert(pat@.take(t + 1).drop_last() =~= pat@.take(t as int));
            assert(pat_len(pat@.take(t + 1)) == pat_len(pat@.take(t as int)) + pat@[t as int].0)
                by {
                lemma_pat_len_snoc(pat@.take(t + 1));
            }
        }
        total = total + pat[t].0;
        t += 1;
    }
    proof {
        assert(pat@.take(pat@.len() as int) =~= pat@);
        assert(total == plen);
        assert(plen >= pat@.len() >= 1);
    }
    let full_width: i32 = end_x - start_x;
    let in_pattern: i32 = start_x % total;
    proof {
        lemma_mod_bound(start_x as int, plen);
    }

    // find the segment covering `in_pattern`, and emit its cropped remainder
    let mut sum: i32 = 0;
    let mut i: usize = 0;
    let mut accu: i32 = 0;
    let mut index: usize = 0;
    while i < pat.len()
        invariant_except_break
            0 <= i <= pat@.len(),
            pat_wf(pat@),
            sum == pat_prefix(pat@, i as int),
            sum <= in_pattern,
            0 <= in_pattern < plen,
            plen == pat_len(pat@),
            plen <= 0x1000,
            pat_prefix(pat@, pat@.len() as int) == plen,
            0 <= sum,
            accu == 0,
            index == 0,
            cmds@ == orig,
            in_pattern == start_x as int % plen,
            0 <= start_x <= end_x <= 0x1000_0000,
            full_width == end_x - start_x,
            -0x4000_0000 <= base_y <= 0x4000_0000,
            0 <= sl <= 0x1000_0000,
            whole == spec_tiles(
                pat@,
                start_x as int,
                end_x as int,
                base_y as int,
                sl as int,
                color,
            ),
        ensures
            0 < index <= pat@.len(),
            0 <= accu <= full_width,
            pat_wf(pat@),
            plen == pat_len(pat@),
            plen <= 0x1000,
            pat_prefix(pat@, pat@.len() as int) == plen,
            in_pattern == start_x as int % plen,
            full_width == end_x - start_x,
            0 <= start_x <= end_x <= 0x1000_0000,
            -0x4000_0000 <= base_y <= 0x4000_0000,
            0 <= sl <= 0x1000_0000,
            accu < full_width ==> in_pattern + accu == pat_prefix(pat@, index as int),
            whole == cmds@.skip(orig.len() as int) + spec_tiles(
                pat@,
                start_x + accu,
                end_x as int,
                base_y as int,
                sl as int,
                color,
            ),
            cmds@.len() >= orig.len(),
            forall|j: int| 0 <= j < orig.len() ==> cmds@[j] == orig[j],
        decreases pat@.len() - i,
    {
        proof {
            lemma_pat_prefix_nonneg(pat@, i as int);
            assert(pat@.take(i + 1).drop_last() =~= pat@.take(i as int));
            lemma_pat_len_snoc(pat@.take(i + 1));
        }
        let seg_w = pat[i].0;
        sum = sum + seg_w;
        if in_pattern < sum {
            // the first, cropped piece of the pattern
            let width = if sum - in_pattern < full_width {
                sum - in_pattern
            } else {
                full_width
            };
            proof {
                lemma_mod_multiples_vanish(0, start_x as int, plen);
                assert(start_x as int % plen == in_pattern);
                if full_width > 0 {
                    lemma_tiles_peel(
                        pat@,
                        start_x as int,
                        end_x as int,
                        base_y as int,
                        sl as int,
                        color,
                        i as int,
                    );
                } else {
                    assert(spec_tiles(
                        pat@,
                        start_x as int,
                        end_x as int,
                        base_y as int,
                        sl as int,
                        color,
                    ) == Seq::<DrawCommand>::empty());
                }
            }
            if width > 0 {
                if let Some(height) = pat[i].1 {
                    let q = DrawCommand::Quad {
                        x: start_x as i64,
                        y: base_y as i64 - height as i64,
                        w: width as i64,
                        h: sl as i64,
                        color,
                    };
                    cmds.push(q);
                    proof {
                        assert(cmds@.skip(orig.len() as int) =~= seq![q]);
                    }
                }
            }
            index = i + 1;
            accu = width;
            proof {
                if accu < full_width {
                    assert(in_pattern + accu == pat_prefix(pat@, index as int));
                }
                if cmds@.len() == orig.len() {
                    assert(cmds@.skip(orig.len() as int) =~= Seq::<DrawCommand>::empty());
                }
                assert(whole == cmds@.skip(orig.len() as int) + spec_tiles(
                    pat@,
                    start_x + accu,
                    end_x as int,
                    base_y as int,
                    sl as int,
                    color,
                ));
            }
            break ;
        }
        i += 1;
    }

    proof {
        if accu < full_width {
            let n = pat@.len() as int;
            if in_pattern + accu == plen {
                lemma_mod_adds_wrap(start_x as int, accu as int, plen);
                lemma_mod_wrap_next_general(index as int, n, plen, pat@);
                assert(pat@.take(0) =~= Seq::<(i32, Option<i32>)>::empty());
                assert((index as int) % n == 0 || pat_prefix(pat@, (index as int) % n) == 0);
            } else {
                lemma_pat_prefix_mono_strict(pat@, index as int);
                lemma_mod_adds_small(start_x as int, accu as int, plen, in_pattern + accu);
                if index < pat.len() {
                    lemma_small_mod(index as nat, pat@.len() as nat);
                } else {
                    assert(index == pat@.len());
                    assert((index as int) % n == 0) by {
                        vstd::arithmetic::div_mod::lemma_mod_self_0(n);
                    }
                    assert(pat@.take(0) =~= Seq::<(i32, Option<i32>)>::empty());
                    assert(pat_prefix(pat@, 0) == 0);
                    assert(in_pattern + accu == plen);
                }
            }
        }
    }
    // whole tiles from the next boundary, cropped at the span's end
    while accu < full_width
        invariant
            pat_wf(pat@),
            plen == pat_len(pat@),
            plen <= 0x1000,
            pat_prefix(pat@, pat@.len() as int) == plen,
            in_pattern == start_x as int % plen,
            full_width == end_x - start_x,
            0 <= start_x <= end_x <= 0x1000_0000,
            -0x4000_0000 <= base_y <= 0x4000_0000,
            0 <= sl <= 0x1000_0000,
            0 <= accu <= full_width,
            0 < index,
            index <= pat@.len() + accu,
            accu < full_width ==> (start_x + accu) % plen == pat_prefix(
                pat@,
                (index as int) % (pat@.len() as int),
            ),
            whole == spec_tiles(
                pat@,
                start_x as int,
                end_x as int,
                base_y as int,
                sl as int,
                color,
            ),
            whole == cmds@.skip(orig.len() as int) + spec_tiles(
                pat@,
                start_x + accu,
                end_x as int,
                base_y as int,
                sl as int,
                color,
            ),
            cmds@.len() >= orig.len(),
            forall|j: int| 0 <= j < orig.len() ==> cmds@[j] == orig[j],
        decreases full_width - accu,
    {
        let k = index % pat.len();
        let ghost ki = (index as int) % (pat@.len() as int);
        proof {
            lemma_mod_bound(index as int, pat@.len() as int);
            assert(k as int == ki);
            lemma_pat_prefix_nonneg(pat@, ki);
        }
        let (width, height_opt) = pat[k];
        let cropped = if width < full_width - accu {
            width
        } else {
            full_width - accu
        };
        let ghost pos = start_x + accu;
        let ghost before = cmds@;
        proof {
            lemma_tiles_peel(
                pat@,
                pos,
                end_x as int,
                base_y as int,
                sl as int,
                color,
                ki,
            );
        }
        if let Some(height) = height_opt {
            let q = DrawCommand::Quad {
                x: start_x as i64 + accu as i64,
                y: base_y as i64 - height as i64,
                w: cropped as i64,
                h: sl as i64,
                color,
            };
            cmds.push(q);
            proof {
                assert(cmds@.skip(orig.len() as int) =~= before.skip(orig.len() as int).push(q));
                assert(before.skip(orig.len() as int) + (seq![q] + spec_tiles(
                    pat@,
                    pos + cropped,
                    end_x as int,
                    base_y as int,
                    sl as int,
                    color,
                )) =~= (before.skip(orig.len() as int).push(q)) + spec_tiles(
                    pat@,
                    pos + cropped,
                    end_x as int,
                    base_y as int,
                    sl as int,
                    color,
                ));
            }
        }
        proof {
            // the next boundary stays phase-aligned
            if accu + cropped < full_width {
                assert(cropped == width);
                let n = pat@.len() as int;
                lemma_pat_prefix_nonneg(pat@, ki);
                assert(pat@.take(ki + 1).drop_last() =~= pat@.take(ki));
                lemma_pat_len_snoc(pat@.take(ki + 1));
                assert(pat_prefix(pat@, ki + 1) == pat_prefix(pat@, ki) + width);
                if ki + 1 == n {
                    assert(pat@.take(n) =~= pat@);
                    assert(pat_prefix(pat@, n) == plen);
                    lemma_mod_adds_wrap(pos, width as int, plen);
                    assert((index as int + 1) % n == 0) by {
                        lemma_mod_wrap_next(index as int, n);
                    }
                    assert(pat@.take(0) =~= Seq::<(i32, Option<i32>)>::empty());
                } else {
                    lemma_pat_prefix_nonneg(pat@, ki + 1);
                    assert(pat_prefix(pat@, ki) + width < plen);
                    lemma_mod_adds_small(
                        pos,
                        width as int,
                        plen,
                        pat_prefix(pat@, ki) + width,
                    );
                    assert((index as int + 1) % n == ki + 1) by {
                        lemma_mod_next(index as int, n);
                    }
                }
            }
        }
        accu = accu + cropped;
        index = index + 1;
    }
    proof {
        assert(spec_tiles(
            pat@,
            start_x + accu,
            end_x as int,
            base_y as int,
            sl as int,
            color,
        ) == Seq::<DrawCommand>::empty());
        assert(cmds@ =~= orig + cmds@.skip(orig.len() as int));
    }
}

/// `pat_len` of a non-empty sequence splits off its last element.
proof fn lemma_pat_len_snoc(pat: Seq<(i32, Option<i32>)>)
    requires
        pat.len() > 0,
    ensures
        pat_len(pat) == pat_len(pat.drop_last()) + pat.last().0,
    decreases pat.len(),
{
    if pat.len() == 1 {
        assert(pat.drop_last() =~= Seq::empty());
        assert(pat.drop_first() =~= Seq::empty());
    } else {
        lemma_pat_len_snoc(pat.drop_first());
        assert(pat.drop_first().drop_last() =~= pat.drop_last().drop_first());
        assert(pat.drop_first().last() == pat.last());
    }
}

/// Adding `d` to a value whose remainder is `r` keeps the remainder small:
/// `(a + d) % m == r + d` when `a % m == r` and `r + d < m`.
proof fn lemma_mod_adds_small(a: int, d: int, m: int, rd: int)
    requires
        m > 0,
        0 <= d,
        a % m + d == rd,
        rd < m,
    ensures
        (a + d) % m == rd,
{
    lemma_fundamental_div_mod(a, m);
    lemma_mod_bound(a, m);
    lemma_mod_multiples_vanish(a / m, rd, m);
    lemma_small_mod(rd as nat, m as nat);
}

/// Crossing exactly one tile boundary wraps the phase to zero.
proof fn lemma_mod_adds_wrap(a: int, d: int, m: int)
    requires
        m > 0,
        0 <= d,
        a % m + d == m,
    ensures
        (a + d) % m == 0,
{
    lemma_fundamental_div_mod(a, m);
    lemma_mod_bound(a, m);
    assert(m * (a / m + 1) == m * (a / m) + m) by (nonlinear_arith);
    assert(a + d == m * (a / m + 1));
    lemma_mod_multiples_vanish(a / m + 1, 0, m);
    lemma_small_mod(0, m as nat);
}

/// The successor's remainder advances by one when it does not wrap.
proof fn lemma_mod_next(i: int, n: int)
    requires
        n > 0,
        0 <= i,
        i % n + 1 < n,
    ensures
        (i + 1) % n == i % n + 1,
{
    lemma_mod_adds_small(i, 1, n, i % n + 1);
}

/// The successor's remainder wraps to zero at the end of the cycle.
proof fn lemma_mod_wrap_next(i: int, n: int)
    requires
        n > 0,
        0 <= i,
        i % n + 1 == n,
    ensures
        (i + 1) % n == 0,
{
    lemma_mod_adds_wrap(i, 1, n);
}


/// A prefix of fewer than all segments is strictly below the total width.
proof fn lemma_pat_prefix_mono_strict(pat: Seq<(i32, Option<i32>)>, i: int)
    requires
        0 <= i <= pat.len(),
        forall|j: int| 0 <= j < pat.len() ==> 0 < (#[trigger] pat[j]).0,
    ensures
        pat_prefix(pat, i) <= pat_len(pat),
        i < pat.len() ==> pat_prefix(pat, i) < pat_len(pat),
{
    lemma_pat_prefix_nonneg(pat, i);
    if i < pat.len() {
        assert(pat_prefix(pat, i) + pat[i].0 <= pat_len(pat));
    } else {
        assert(pat.take(pat.len() as int) =~= pat);
    }
}

/// When an index's prefix reaches the whole pattern, the index is the
/// pattern length, so its cyclic successor prefix is zero.
proof fn lemma_mod_wrap_next_general(i: int, n: int, plen: int, pat: Seq<(i32, Option<i32>)>)
    requires
        n == pat.len(),
        n > 0,
        0 <= i <= n,
        forall|j: int| 0 <= j < pat.len() ==> 0 < (#[trigger] pat[j]).0,
        pat_prefix(pat, i) == plen,
        plen == pat_len(pat),
    ensures
        i % n == 0 || pat_prefix(pat, i % n) == 0,
{
    if i < n {
        lemma_pat_prefix_mono_strict(pat, i);
        lemma_pat_len_nonneg(pat);
        assert(false);
    } else {
        vstd::arithmetic::div_mod::lemma_mod_self_0(n);
    }
}


/// The decoration flags that make a span emit decorations at all.
pub open spec fn has_flag(flags: u16, flag: u16) -> bool {
    flags & flag != 0
}

/// The background rectangle of a span: the span's horizontal extent over the
/// full line height, in the span's (shaded) background color.
pub open spec fn spec_bg_quad(
    start_x: int,
    end_x: int,
    line_top: int,
    line_height: int,
    bg: Rgba,
    focused: bool,
) -> DrawCommand {
    DrawCommand::Quad {
        x: start_x as i64,
        y: line_top as i64,
        w: (end_x - start_x) as i64,
        h: line_height as i64,
        color: spec_shade(bg, focused),
    }
}

/// The strikeout rectangle: decoration thickness, vertically centered in the
/// cell.
pub open spec fn spec_strikeout_quad(
    start_x: int,
    end_x: int,
    line_top: int,
    line_height: int,
    sl: int,
    color: Rgba,
) -> DrawCommand {
    DrawCommand::Quad {
        x: start_x as i64,
        y: (line_top + line_height - (line_height - sl) / 2) as i64,
        w: (end_x - start_x) as i64,
        h: sl as i64,
        color,
    }
}

/// The single-underline rectangle: decoration thickness, two thicknesses
/// above the line's bottom edge.
pub open spec fn spec_underline_quad(
    start_x: int,
    end_x: int,
    line_top: int,
    line_height: int,
    sl: int,
    color: Rgba,
) -> DrawCommand {
    DrawCommand::Quad {
        x: start_x as i64,
        y: (line_top + line_height - 2 * sl) as i64,
        w: (end_x - start_x) as i64,
        h: sl as i64,
        color,
    }
}

/// The double underline: two parallel lines of half thickness, one gap
/// apart, where the gap is at least two device units.
pub open spec fn spec_double_gap(sl: int) -> int {
    if sl / 2 < 2 {
        2
    } else {
        sl / 2
    }
}

/// The lower of the two double-underline rectangles.
pub open spec fn spec_double_quad_low(
    start_x: int,
    end_x: int,
    line_top: int,
    line_height: int,
    sl: int,
    color: Rgba,
) -> DrawCommand {
    let sl2 = sl / 2;
    let off = (sl2 + spec_double_gap(sl)) * 2;
    DrawCommand::Quad {
        x: start_x as i64,
        y: (line_top + line_height - off / 2) as i64,
        w: (end_x - start_x) as i64,
        h: sl2 as i64,
        color,
    }
}

/// The upper of the two double-underline rectangles.
pub open spec fn spec_double_quad_high(
    start_x: int,
    end_x: int,
    line_top: int,
    line_height: int,
    sl: int,
    color: Rgba,
) -> DrawCommand {
    let sl2 = sl / 2;
    let off = (sl2 + spec_double_gap(sl)) * 2;
    DrawCommand::Quad {
        x: start_x as i64,
        y: (line_top + line_height - off) as i64,
        w: (end_x - start_x) as i64,
        h: sl2 as i64,
        color,
    }
}

/// The dotted-underline pattern: two-unit dots and two-unit gaps, hung two
/// thicknesses below the bottom edge.
pub open spec fn spec_dotted_pat(sl: int) -> Seq<(i32, Option<i32>)> {
    seq![(2i32, Some((2 * sl) as i32)), (2i32, None::<i32>)]
}

/// The dashed-underline pattern: six-unit dashes and three-unit gaps.
pub open spec fn spec_dashed_pat(sl: int) -> Seq<(i32, Option<i32>)> {
    seq![(6i32, Some((2 * sl) as i32)), (3i32, None::<i32>)]
}

/// The undercurl pattern: a wave of one-unit columns whose heights step
/// through thirds of the decoration thickness.
pub open spec fn spec_undercurl_pat(sl: int) -> Seq<(i32, Option<i32>)> {
    let bottom = sl * 3 / 2;
    seq![
        (1i32, Some(bottom as i32)),
        (1i32, Some((bottom + sl / 3) as i32)),
        (1i32, Some((bottom + 2 * sl / 3) as i32)),
        (1i32, Some((bottom + sl) as i32)),
        (1i32, Some((bottom + sl) as i32)),
        (1i32, Some((bottom + sl) as i32)),
        (1i32, Some((bottom + 2 * sl / 3) as i32)),
        (1i32, Some((bottom + sl / 3) as i32)),
    ]
}

/// The plain (untiled) decorations for a flag set: the strikeout, the single
/// underline and the double-underline pair, each present exactly when its
/// flag is set, in this order.
pub open spec fn spec_plain_cmds(
    flags: u16,
    color: Rgba,
    start_x: int,
    end_x: int,
    line_top: int,
    line_height: int,
    sl: int,
) -> Seq<DrawCommand> {
    let strike: Seq<DrawCommand> = if has_flag(flags, crate::registry::FLAG_STRIKEOUT) {
        seq![spec_strikeout_quad(start_x, end_x, line_top, line_height, sl, color)]
    } else {
        Seq::empty()
    };
    let under: Seq<DrawCommand> = if has_flag(flags, crate::registry::FLAG_UNDERLINE) {
        seq![spec_underline_quad(start_x, end_x, line_top, line_height, sl, color)]
    } else {
        Seq::empty()
    };
    let dbl: Seq<DrawCommand> = if has_flag(flags, crate::registry::FLAG_DOUBLE_UNDERLINE) {
        seq![
            spec_double_quad_high(start_x, end_x, line_top, line_height, sl, color),
            spec_double_quad_low(start_x, end_x, line_top, line_height, sl, color),
        ]
    } else {
        Seq::empty()
    };
    strike + under + dbl
}

/// The tiled decorations for a flag set: the dotted, dashed and undercurl
/// patterns, each present exactly when its flag is set, in this order.
pub open spec fn spec_pattern_cmds(
    flags: u16,
    color: Rgba,
    start_x: int,
    end_x: int,
    base: int,
    sl: int,
) -> Seq<DrawCommand> {
    let dot: Seq<DrawCommand> = if has_flag(flags, crate::registry::FLAG_DOTTED_UNDERLINE) {
        spec_tiles(spec_dotted_pat(sl), start_x, end_x, base, sl, color)
    } else {
        Seq::empty()
    };
    let dash: Seq<DrawCommand> = if has_flag(flags, crate::registry::FLAG_DASHED_UNDERLINE) {
        spec_tiles(spec_dashed_pat(sl), start_x, end_x, base, sl, color)
    } else {
        Seq::empty()
    };
    let curl: Seq<DrawCommand> = if has_flag(flags, crate::registry::FLAG_UNDERCURL) {
        spec_tiles(spec_undercurl_pat(sl), start_x, end_x, base, sl, color)
    } else {
        Seq::empty()
    };
    dot + dash + curl
}

/// The exact decoration commands of one span, when any flag is set: the
/// plain decorations followed by the tiled patterns.
pub open spec fn spec_deco_cmds(
    meta: crate::registry::Metadata,
    start_x: int,
    end_x: int,
    line_top: int,
    line_height: int,
    font_size: int,
) -> Seq<DrawCommand> {
    if meta.flags == 0 {
        Seq::empty()
    } else {
        let sl = spec_style_height(font_size);
        spec_plain_cmds(
            meta.flags,
            meta.underline_color,
            start_x,
            end_x,
            line_top,
            line_height,
            sl,
        ) + spec_pattern_cmds(
            meta.flags,
            meta.underline_color,
            start_x,
            end_x,
            line_top + line_height,
            sl,
        )
    }
}

/// The exact drawing commands of one span: its background fill (only when
/// its background differs from the default, shaded for the focus state),
/// then its decorations. A span with the default background and no flags
/// draws nothing.
pub open spec fn spec_span_cmds(
    meta: crate::registry::Metadata,
    default_bg: Rgba,
    start_x: int,
    end_x: int,
    line_top: int,
    line_height: int,
    font_size: int,
    focused: bool,
) -> Seq<DrawCommand> {
    let bgp: Seq<DrawCommand> = if meta.bg != default_bg {
        seq![spec_bg_quad(start_x, end_x, line_top, line_height, meta.bg, focused)]
    } else {
        Seq::empty()
    };
    bgp + spec_deco_cmds(meta, start_x, end_x, line_top, line_height, font_size)
}

/// A span to be filled: a maximal stretch of consecutive glyphs sharing one
/// attribute handle.
#[derive(Clone, Copy, Debug, PartialEq, Eq, Structural)]
pub struct Span {
    pub metadata: usize,
    pub font_size: i32,
    pub start_x: i32,
    pub end_x: i32,
}

fn push_pattern(v: &mut Vec<(i32, Option<i32>)>, w: i32, h: Option<i32>)
    ensures
        final(v)@ == old(v)@.push((w, h)),
{
    v.push((w, h));
}

/// Emits the plain decorations of a span: strikeout, single underline, and
/// the double-underline pair, each exactly when its flag asks for it.
fn flush_plain_decos(
    cmds: &mut Vec<DrawCommand>,
    flags: u16,
    color: Rgba,
    start_x: i32,
    end_x: i32,
    line_top: i32,
    line_height: i32,
    sl: i32,
)
    requires
        0 <= start_x <= end_x <= 0x1000_0000,
        0 <= line_top <= 0x1000_0000,
        0 < line_height <= 0x1000_0000,
        2 <= sl <= 16,
    ensures
        final(cmds)@ == old(cmds)@ + spec_plain_cmds(
            flags,
            color,
            start_x as int,
            end_x as int,
            line_top as int,
            line_height as int,
            sl as int,
        ),
{
    let ghost orig = cmds@;
    let base: i32 = line_top + line_height;
    if flags & crate::registry::FLAG_STRIKEOUT != 0 {
        let diff: i32 = line_height - sl;
        let off: i32 = if diff >= 0 {
            diff / 2
        } else {
            -((1 - diff) / 2)
        };
        proof {
            if diff < 0 {
                lemma_fundamental_div_mod(1 - diff, 2);
                lemma_mod_bound(1 - diff, 2);
                vstd::arithmetic::div_mod::lemma_fundamental_div_mod_converse(
                    diff as int,
                    2,
                    -((1 - diff as int) / 2),
                    1 - ((1 - diff as int) % 2),
                );
            }
            assert(off == (line_height - sl) / 2);
        }
        cmds.push(
            DrawCommand::Quad {
                x: start_x as i64,
                y: base as i64 - off as i64,
                w: end_x as i64 - start_x as i64,
                h: sl as i64,
                color,
            },
        );
    }
    let ghost after_strike = cmds@;
    if flags & crate::registry::FLAG_UNDERLINE != 0 {
        cmds.push(
            DrawCommand::Quad {
                x: start_x as i64,
                y: base as i64 - 2 * sl as i64,
                w: end_x as i64 - start_x as i64,
                h: sl as i64,
                color,
            },
        );
    }
    let ghost after_under = cmds@;
    if flags & crate::registry::FLAG_DOUBLE_UNDERLINE != 0 {
        let sl2 = sl / 2;
        let gap = if sl2 < 2 {
            2
        } else {
            sl2
        };
        let off = (sl2 + gap) * 2;
        cmds.push(
            DrawCommand::Quad {
                x: start_x as i64,
                y: base as i64 - off as i64,
                w: end_x as i64 - start_x as i64,
                h: sl2 as i64,
                color,
            },
        );
        cmds.push(
            DrawCommand::Quad {
                x: start_x as i64,
                y: base as i64 - off as i64 / 2,
                w: end_x as i64 - start_x as i64,
                h: sl2 as i64,
                color,
            },
        );
    }
    proof {
        let strike: Seq<DrawCommand> = if has_flag(flags, crate::registry::FLAG_STRIKEOUT) {
            seq![
                spec_strikeout_quad(
                    start_x as int,
                    end_x as int,
                    line_top as int,
                    line_height as int,
                    sl as int,
                    color,
                ),
            ]
        } else {
            Seq::empty()
        };
        let under: Seq<DrawCommand> = if has_flag(flags, crate::registry::FLAG_UNDERLINE) {
            seq![
                spec_underline_quad(
                    start_x as int,
                    end_x as int,
                    line_top as int,
                    line_height as int,
                    sl as int,
                    color,
                ),
            ]
        } else {
            Seq::empty()
        };
        let dbl: Seq<DrawCommand> = if has_flag(flags, crate::registry::FLAG_DOUBLE_UNDERLINE) {
            seq![
                spec_double_quad_high(
                    start_x as int,
                    end_x as int,
                    line_top as int,
                    line_height as int,
                    sl as int,
                    color,
                ),
                spec_double_quad_low(
                    start_x as int,
                    end_x as int,
                    line_top as int,
                    line_height as int,
                    sl as int,
                    color,
                ),
            ]
        } else {
            Seq::empty()
        };
        assert(after_strike =~= orig + strike);
        assert(after_under =~= after_strike + under);
        assert(cmds@ =~= after_under + dbl);
        assert(cmds@ =~= orig + (strike + under + dbl));
        assert(spec_plain_cmds(
            flags,
            color,
            start_x as int,
            end_x as int,
            line_top as int,
            line_height as int,
            sl as int,
        ) == strike + under + dbl);
    }
}

/// Emits the patterned decorations of a span: the dotted, dashed and
/// undercurl tilings, each exactly when its flag asks for it.
fn flush_pattern_decos(
    cmds: &mut Vec<DrawCommand>,
    flags: u16,
    color: Rgba,
    start_x: i32,
    end_x: i32,
    base: i32,
    sl: i32,
)
    requires
        0 <= start_x <= end_x <= 0x1000_0000,
        -0x4000_0000 <= base <= 0x4000_0000,
        2 <= sl <= 16,
    ensures
        final(cmds)@ == old(cmds)@ + spec_pattern_cmds(
            flags,
            color,
            start_x as int,
            end_x as int,
            base as int,
            sl as int,
        ),
{
    let ghost orig = cmds@;
    if flags & crate::registry::FLAG_DOTTED_UNDERLINE != 0 {
        let mut pat: Vec<(i32, Option<i32>)> = Vec::new();
        push_pattern(&mut pat, 2, Some(2 * sl));
        push_pattern(&mut pat, 2, None);
        proof {
            assert(pat@ =~= spec_dotted_pat(sl as int));
        }
        draw_repeated(cmds, &pat, start_x, end_x, base, sl, color);
    }
    let ghost after_dot = cmds@;
    if flags & crate::registry::FLAG_DASHED_UNDERLINE != 0 {
        let mut pat: Vec<(i32, Option<i32>)> = Vec::new();
        push_pattern(&mut pat, 6, Some(2 * sl));
        push_pattern(&mut pat, 3, None);
        proof {
            assert(pat@ =~= spec_dashed_pat(sl as int));
        }
        draw_repeated(cmds, &pat, start_x, end_x, base, sl, color);
    }
    let ghost after_dash = cmds@;
    if flags & crate::registry::FLAG_UNDERCURL != 0 {
        let bottom = sl * 3 / 2;
        let mut pat: Vec<(i32, Option<i32>)> = Vec::new();
        push_pattern(&mut pat, 1, Some(bottom));
        push_pattern(&mut pat, 1, Some(bottom + sl / 3));
        push_pattern(&mut pat, 1, Some(bottom + 2 * sl / 3));
        push_pattern(&mut pat, 1, Some(bottom + sl));
        push_pattern(&mut pat, 1, Some(bottom + sl));
        push_pattern(&mut pat, 1, Some(bottom + sl));
        push_pattern(&mut pat, 1, Some(bottom + 2 * sl / 3));
        push_pattern(&mut pat, 1, Some(bottom + sl / 3));
        proof {
            assert(pat@ =~= spec_undercurl_pat(sl as int));
        }
        draw_repeated(cmds, &pat, start_x, end_x, base, sl, color);
    }
    proof {
        let dot: Seq<DrawCommand> = if has_flag(flags, crate::registry::FLAG_DOTTED_UNDERLINE) {
            spec_tiles(
                spec_dotted_pat(sl as int),
                start_x as int,
                end_x as int,
                base as int,
                sl as int,
                color,
            )
        } else {
            Seq::empty()
        };
        let dash: Seq<DrawCommand> = if has_flag(flags, crate::registry::FLAG_DASHED_UNDERLINE) {
            spec_tiles(
                spec_dashed_pat(sl as int),
                start_x as int,
                end_x as int,
                base as int,
                sl as int,
                color,
            )
        } else {
            Seq::empty()
        };
        let curl: Seq<DrawCommand> = if has_flag(flags, crate::registry::FLAG_UNDERCURL) {
            spec_tiles(
                spec_undercurl_pat(sl as int),
                start_x as int,
                end_x as int,
                base as int,
                sl as int,
                color,
            )
        } else {
            Seq::empty()
        };
        assert(after_dot =~= orig + dot);
        assert(after_dash =~= after_dot + dash);
        assert(cmds@ =~= after_dash + curl);
        assert(cmds@ =~= orig + (dot + dash + curl));
        assert(spec_pattern_cmds(
            flags,
            color,
            start_x as int,
            end_x as int,
            base as int,
            sl as int,
        ) == dot + dash + curl);
    }
}

/// Flushes one span: the background fill when it differs from the default,
/// then each decoration its flag set asks for. The appended commands are
/// exactly `spec_span_cmds` of the span.
#[verifier::rlimit(100)]
#[verifier::spinoff_prover]
fn flush_span(
    cmds: &mut Vec<DrawCommand>,
    meta: crate::registry::Metadata,
    default_bg: Rgba,
    start_x: i32,
    end_x: i32,
    line_top: i32,
    line_height: i32,
    font_size: i32,
    focused: bool,
)
    requires
        0 <= start_x <= end_x <= 0x1000_0000,
        0 <= line_top <= 0x1000_0000,
        0 < line_height <= 0x1000_0000,
        0 <= font_size,
    ensures
        final(cmds)@ == old(cmds)@ + spec_span_cmds(
            meta,
            default_bg,
            start_x as int,
            end_x as int,
            line_top as int,
            line_height as int,
            font_size as int,
            focused,
        ),
{
    let ghost orig = cmds@;
    let ghost bgp: Seq<DrawCommand> = if meta.bg != default_bg {
        seq![
            spec_bg_quad(
                start_x as int,
                end_x as int,
                line_top as int,
                line_height as int,
                meta.bg,
                focused,
            ),
        ]
    } else {
        Seq::empty()
    };
    if meta.bg != default_bg {
        let color = shade(meta.bg, focused);
        cmds.push(
            DrawCommand::Quad {
                x: start_x as i64,
                y: line_top as i64,
                w: end_x as i64 - start_x as i64,
                h: line_height as i64,
                color,
            },
        );
    }
    let ghost after_bg = cmds@;
    proof {
        assert(after_bg =~= orig + bgp);
    }
    if meta.flags != 0 {
        let sl = style_height(font_size);
        let color = meta.underline_color;
        let base: i32 = line_top + line_height;
        flush_plain_decos(cmds, meta.flags, color, start_x, end_x, line_top, line_height, sl);
        flush_pattern_decos(cmds, meta.flags, color, start_x, end_x, base, sl);
        proof {
            let p = spec_plain_cmds(
                meta.flags,
                color,
                start_x as int,
                end_x as int,
                line_top as int,
                line_height as int,
                sl as int,
            );
            let q = spec_pattern_cmds(
                meta.flags,
                color,
                start_x as int,
                end_x as int,
                base as int,
                sl as int,
            );
            vstd::seq_lib::lemma_concat_associative(after_bg, p, q);
            vstd::seq_lib::lemma_concat_associative(orig, bgp, p + q);
            assert(spec_deco_cmds(
                meta,
                start_x as int,
                end_x as int,
                line_top as int,
                line_height as int,
                font_size as int,
            ) == p + q);
            assert(cmds@ == orig + (bgp + (p + q)));
        }
    } else {
        proof {
            assert(spec_deco_cmds(
                meta,
                start_x as int,
                end_x as int,
                line_top as int,
                line_height as int,
                font_size as int,
            ) == Seq::<DrawCommand>::empty());
            assert(bgp + Seq::<DrawCommand>::empty() =~= bgp);
        }
    }
}

/// A glyph sequence fit for coalescing: non-negative extents within the
/// coordinate range, laid out left to right.
pub open spec fn glyphs_wf(glyphs: Seq<Glyph>) -> bool {
    &&& forall|i: int|
        0 <= i < glyphs.len() ==> {
            &&& 0 <= (#[trigger] glyphs[i]).x
            &&& 0 <= glyphs[i].w
            &&& glyphs[i].x + glyphs[i].w <= 0x1000_0000
            &&& 0 <= glyphs[i].font_size <= 0x1000_0000
        }
    &&& forall|i: int, j: int|
        0 <= i <= j < glyphs.len() ==> (#[trigger] glyphs[i]).x <= (#[trigger] glyphs[j]).x
}

/// A span is well formed when its extent is ordered and in range.
pub open spec fn span_wf(s: Span, n_handles: int) -> bool {
    &&& 0 <= s.start_x <= s.end_x <= 0x1000_0000
    &&& 0 <= s.font_size <= 0x1000_0000
    &&& s.metadata < n_handles
}

/// The spans of a glyph sequence: consecutive glyphs sharing an attribute
/// handle coalesce into one span; a handle change closes the pending span.
/// The walk starts from a pending zero-width span of the default handle.
pub open spec fn spec_spans(glyphs: Seq<Glyph>, cur: Span) -> Seq<Span>
    decreases glyphs.len(),
{
    if glyphs.len() == 0 {
        seq![cur]
    } else if glyphs[0].metadata == cur.metadata {
        spec_spans(
            glyphs.drop_first(),
            Span { end_x: (glyphs[0].x + glyphs[0].w) as i32, ..cur },
        )
    } else {
        seq![cur] + spec_spans(
            glyphs.drop_first(),
            Span {
                metadata: glyphs[0].metadata,
                font_size: glyphs[0].font_size,
                start_x: glyphs[0].x,
                end_x: (glyphs[0].x + glyphs[0].w) as i32,
            },
        )
    }
}

/// The initial pending span: zero width at the origin, carrying the default
/// attribute handle.
pub open spec fn spec_initial_span(default_metadata: usize) -> Span {
    Span { metadata: default_metadata, font_size: 0, start_x: 0, end_x: 0 }
}

/// Coalesces a line of glyphs into maximal spans of equal attribute handle,
/// walking left to right.
pub fn coalesce(glyphs: &Vec<Glyph>, default_metadata: usize, n_handles: usize) -> (spans: Vec<
    Span,
>)
    requires
        glyphs_wf(glyphs@),
        forall|i: int| 0 <= i < glyphs@.len() ==> (#[trigger] glyphs@[i]).metadata < n_handles,
        default_metadata < n_handles,
    ensures
        spans@ == spec_spans(glyphs@, spec_initial_span(default_metadata)),
        forall|i: int| 0 <= i < spans@.len() ==> span_wf(#[trigger] spans@[i], n_handles as int),
{
    let ghost init = spec_initial_span(default_metadata);
    let mut cur = Span { metadata: default_metadata, font_size: 0, start_x: 0, end_x: 0 };
    let mut spans: Vec<Span> = Vec::new();
    let mut i: usize = 0;
    proof {
        assert(glyphs@.skip(0) =~= glyphs@);
    }
    while i < glyphs.len()
        invariant
            0 <= i <= glyphs@.len(),
            glyphs_wf(glyphs@),
            forall|j: int| 0 <= j < glyphs@.len() ==> (#[trigger] glyphs@[j]).metadata < n_handles,
            spec_spans(glyphs@, init) == spans@ + spec_spans(glyphs@.skip(i as int), cur),
            span_wf(cur, n_handles as int),
            forall|j: int| 0 <= j < spans@.len() ==> span_wf(#[trigger] spans@[j], n_handles as int),
            forall|j: int| i <= j < glyphs@.len() ==> cur.start_x <= (#[trigger] glyphs@[j]).x,
        decreases glyphs@.len() - i,
    {
        let g = glyphs[i];
        proof {
            assert(glyphs@.skip(i as int)[0] == glyphs@[i as int]);
            assert(glyphs@.skip(i as int).drop_first() =~= glyphs@.skip(i as int + 1));
        }
        if g.metadata == cur.metadata {
            cur.end_x = g.x + g.w;
        } else {
            spans.push(cur);
            cur = Span { metadata: g.metadata, font_size: g.font_size, start_x: g.x, end_x: g.x + g.w };
            proof {
                assert(spec_spans(glyphs@, init) == spans@ + spec_spans(
                    glyphs@.skip(i as int + 1),
                    cur,
                )) by {
                    assert(spans@.drop_last() + seq![spans@.last()] =~= spans@);
                    assert((spans@.drop_last() + (seq![spans@.last()] + spec_spans(
                        glyphs@.skip(i as int + 1),
                        cur,
                    ))) =~= spans@ + spec_spans(glyphs@.skip(i as int + 1), cur));
                }
            }
        }
        i += 1;
    }
    proof {
        assert(glyphs@.skip(glyphs@.len() as int) =~= Seq::<Glyph>::empty());
    }
    spans.push(cur);
    proof {
        assert(spans@.drop_last() + seq![cur] =~= spans@);
    }
    spans
}

/// The exact drawing commands of a whole line: each span's commands, in span
/// order.
pub open spec fn spec_line_cmds(
    spans: Seq<Span>,
    contents: Seq<crate::registry::Metadata>,
    default_bg: Rgba,
    line_top: int,
    line_height: int,
    focused: bool,
) -> Seq<DrawCommand>
    decreases spans.len(),
{
    if spans.len() == 0 {
        Seq::empty()
    } else {
        spec_span_cmds(
            contents[spans[0].metadata as int],
            default_bg,
            spans[0].start_x as int,
            spans[0].end_x as int,
            line_top,
            line_height,
            spans[0].font_size as int,
            focused,
        ) + spec_line_cmds(spans.drop_first(), contents, default_bg, line_top, line_height, focused)
    }
}

/// Fills the spans of one line. The appended commands are exactly
/// `spec_line_cmds` of the spans.
fn render_spans(
    cmds: &mut Vec<DrawCommand>,
    spans: &Vec<Span>,
    registry: &crate::registry::MetadataRegistry,
    default_bg: Rgba,
    line_top: i32,
    line_height: i32,
    focused: bool,
)
    requires
        forall|i: int|
            0 <= i < spans@.len() ==> span_wf(
                #[trigger] spans@[i],
                registry.contents().len() as int,
            ),
        0 <= line_top <= 0x1000_0000,
        0 < line_height <= 0x1000_0000,
    ensures
        final(cmds)@ == old(cmds)@ + spec_line_cmds(
            spans@,
            registry.contents(),
            default_bg,
            line_top as int,
            line_height as int,
            focused,
        ),
{
    let ghost orig = cmds@;
    let ghost contents = registry.contents();
    let ghost whole = spec_line_cmds(
        spans@,
        contents,
        default_bg,
        line_top as int,
        line_height as int,
        focused,
    );
    let mut i: usize = 0;
    proof {
        assert(cmds@.skip(orig.len() as int) =~= Seq::<DrawCommand>::empty());
        assert(spans@.skip(0) =~= spans@);
    }
    while i < spans.len()
        invariant
            0 <= i <= spans@.len(),
            forall|k: int|
                0 <= k < spans@.len() ==> span_wf(
                    #[trigger] spans@[k],
                    registry.contents().len() as int,
                ),
            contents == registry.contents(),
            0 <= line_top <= 0x1000_0000,
            0 < line_height <= 0x1000_0000,
            cmds@.len() >= orig.len(),
            forall|j: int| 0 <= j < orig.len() ==> cmds@[j] == orig[j],
            whole == spec_line_cmds(
                spans@,
                contents,
                default_bg,
                line_top as int,
                line_height as int,
                focused,
            ),
            whole == cmds@.skip(orig.len() as int) + spec_line_cmds(
                spans@.skip(i as int),
                contents,
                default_bg,
                line_top as int,
                line_height as int,
                focused,
            ),
        decreases spans@.len() - i,
    {
        let span = spans[i];
        let meta = registry.resolve(span.metadata);
        let ghost before = cmds@;
        proof {
            assert(spans@.skip(i as int)[0] == spans@[i as int]);
            assert(spans@.skip(i as int).drop_first() =~= spans@.skip(i as int + 1));
        }
        flush_span(
            cmds,
            meta,
            default_bg,
            span.start_x,
            span.end_x,
            line_top,
            line_height,
            span.font_size,
            focused,
        );
        proof {
            let d = spec_span_cmds(
                contents[spans@[i as int].metadata as int],
                default_bg,
                spans@[i as int].start_x as int,
                spans@[i as int].end_x as int,
                line_top as int,
                line_height as int,
                spans@[i as int].font_size as int,
                focused,
            );
            let rest = spec_line_cmds(
                spans@.skip(i as int + 1),
                contents,
                default_bg,
                line_top as int,
                line_height as int,
                focused,
            );
            assert(cmds@ == before + d);
            assert(cmds@.skip(orig.len() as int) =~= before.skip(orig.len() as int) + d);
            assert(before.skip(orig.len() as int) + (d + rest) =~= (before.skip(orig.len() as int)
                + d) + rest);
        }
        i += 1;
    }
    proof {
        assert(spans@.skip(spans@.len() as int) =~= Seq::<Span>::empty());
        assert(cmds@ =~= orig + cmds@.skip(orig.len() as int));
    }
}

/// The cursor shapes of the terminal protocol. Block is not painted by this
/// renderer: a block cursor shows as the inverted cell background, which the
/// grid styling already carries; HollowBlock and Hidden paint nothing here
/// either.
#[derive(Clone, Copy, Debug, PartialEq, Eq, Structural)]
pub enum CursorShape {
    Beam,
    Underline,
    Block,
    HollowBlock,
    Hidden,
}

/// The cursor to draw: its cell position, shape and color.
#[derive(Clone, Copy, Debug, PartialEq, Eq, Structural)]
pub struct CursorInfo {
    pub col: i32,
    pub line: i32,
    pub shape: CursorShape,
    pub color: Rgba,
}

/// The scrollbar's track width and its resolved colors for the three visual
/// states; the host theme computes the blended colors.
#[derive(Clone, Copy, Debug, PartialEq, Eq, Structural)]
pub struct ScrollbarTheme {
    pub width: i32,
    pub base: Rgba,
    pub hover: Rgba,
    pub pressed: Rgba,
}

/// The laid-out runs of a frame, with the line height they were shaped with.
pub open spec fn runs_wf(runs: Seq<LayoutRun>) -> bool {
    forall|i: int|
        0 <= i < runs.len() ==> {
            &&& glyphs_wf((#[trigger] runs[i]).glyphs@)
            &&& 0 <= runs[i].line_top <= 0x1000_0000
        }
}

/// All glyph handles of all runs are valid in the registry: the invariant
/// that every rendered cell's handle belongs to the registry consulted in
/// the same pass.
pub open spec fn runs_handles_ok(runs: Seq<LayoutRun>, n_handles: int) -> bool {
    forall|i: int, j: int|
        0 <= i < runs.len() && 0 <= j < (#[trigger] runs[i]).glyphs@.len() ==> (
        #[trigger] runs[i].glyphs@[j]).metadata < n_handles
}

/// The exact drawing commands of all runs, in order: each run contributes
/// the commands of its coalesced spans.
pub open spec fn spec_runs_cmds(
    runs: Seq<LayoutRun>,
    contents: Seq<crate::registry::Metadata>,
    default_metadata: usize,
    default_bg: Rgba,
    line_height: int,
    focused: bool,
) -> Seq<DrawCommand>
    decreases runs.len(),
{
    if runs.len() == 0 {
        Seq::empty()
    } else {
        spec_line_cmds(
            spec_spans(runs[0].glyphs@, spec_initial_span(default_metadata)),
            contents,
            default_bg,
            runs[0].line_top as int,
            line_height,
            focused,
        ) + spec_runs_cmds(
            runs.drop_first(),
            contents,
            default_metadata,
            default_bg,
            line_height,
            focused,
        )
    }
}

/// The scrollbar thumb rectangle for a frame, relative to the content
/// origin: at the right edge of the text area, spanning the thumb's fraction
/// range of the view height. Fractions are in millionths.
pub open spec fn spec_scrollbar_rect(
    start_m: int,
    end_m: int,
    view_w: int,
    view_h: int,
    track_w: int,
) -> crate::commands::Rect {
    let y = start_m * view_h / 1000000;
    crate::commands::Rect {
        x: view_w as i32,
        y: (start_m * view_h / 1000000) as i32,
        width: track_w as i32,
        height: (end_m * view_h / 1000000 - y) as i32,
    }
}

/// The scrollbar thumb command: full width while hovered or dragged, else
/// half width and centered in the track; colored for the pressed, hover or
/// idle state; drawn at the content origin offset.
pub open spec fn spec_scrollbar_cmds(
    rect: crate::commands::Rect,
    pressed: bool,
    hover: bool,
    theme: ScrollbarTheme,
    pad_left: int,
    pad_top: int,
) -> Seq<DrawCommand> {
    let w = if !hover && !pressed {
        rect.width as int / 2
    } else {
        rect.width as int
    };
    let x = if !hover && !pressed {
        rect.x + w / 2
    } else {
        rect.x as int
    };
    let color = if pressed {
        theme.pressed
    } else if hover {
        theme.hover
    } else {
        theme.base
    };
    seq![
        DrawCommand::Rounded {
            x: (pad_left + x) as i64,
            y: (pad_top + rect.y) as i64,
            w: w as i64,
            h: rect.height as i64,
            radius: (w / 2) as i64,
            color,
        },
    ]
}

/// The cursor command for a frame: a one-unit vertical bar at the cell's
/// left edge for the beam shape, a one-unit horizontal bar at the cell's
/// bottom edge for the underline shape, nothing otherwise.
pub open spec fn spec_cursor_cmds(
    cursor: CursorInfo,
    cell_width: int,
    cell_height: int,
    pad_left: int,
    pad_top: int,
) -> Seq<DrawCommand> {
    match cursor.shape {
        CursorShape::Beam => seq![
            DrawCommand::Quad {
                x: (pad_left + cursor.col * cell_width) as i64,
                y: (pad_top + cursor.line * cell_height) as i64,
                w: 1,
                h: cell_height as i64,
                color: cursor.color,
            },
        ],
        CursorShape::Underline => seq![
            DrawCommand::Quad {
                x: (pad_left + cursor.col * cell_width) as i64,
                y: (pad_top + (cursor.line + 1) * cell_height) as i64,
                w: cell_width as i64,
                h: 1,
                color: cursor.color,
            },
        ],
        _ => Seq::empty(),
    }
}

/// One frame of the renderer, as plain values: the laid-out runs, the
/// viewport and layout sizes, the engine's scrollbar fractions (millionths),
/// the cursor, the scrollbar theme and the pointer position for hover.
pub struct Frame {
    pub runs: Vec<LayoutRun>,
    pub default_metadata: usize,
    pub line_height: i32,
    pub cell_width: i32,
    pub cell_height: i32,
    pub viewport_w: i32,
    pub viewport_h: i32,
    pub bounds_w: i32,
    pub bounds_h: i32,
    pub scrollbar: Option<(i64, i64)>,
    pub theme: ScrollbarTheme,
    pub cursor: CursorInfo,
    pub pointer: Option<crate::commands::Point>,
}

impl Frame {
    /// Geometry stays within the ranges that keep frame arithmetic in
    /// bounds.
    pub open spec fn wf(self) -> bool {
        &&& runs_wf(self.runs@)
        &&& 0 < self.line_height <= 0x1000_0000
        &&& 0 < self.cell_width <= 0x1000_0000
        &&& 0 < self.cell_height <= 0x1000_0000
        &&& 0 <= self.viewport_w <= 0x1000_0000
        &&& 0 <= self.viewport_h <= 0x1000_0000
        &&& 0 <= self.bounds_w <= 0x1000_0000
        &&& 0 <= self.bounds_h <= 0x1000_0000
        &&& 0 < self.theme.width <= 0x10000
        &&& (self.scrollbar matches Some((s, e)) ==> 0 <= s <= e <= 1000000)
        &&& 0 <= self.cursor.col <= 0x10000
        &&& 0 <= self.cursor.line <= 0x10000
    }
}

/// The text area of a frame: the viewport clipped to the layout bounds, less
/// the padding and the scrollbar track.
pub open spec fn spec_view_size(frame: Frame, padding: crate::translator::Padding) -> (int, int) {
    let vw = if frame.viewport_w < frame.bounds_w {
        frame.viewport_w as int
    } else {
        frame.bounds_w as int
    };
    let vh = if frame.viewport_h < frame.bounds_h {
        frame.viewport_h as int
    } else {
        frame.bounds_h as int
    };
    (vw - padding.left - padding.right - frame.theme.width, vh - padding.top - padding.bottom)
}

/// Renders one frame into drawing commands: the shaded background first,
/// then each run's background spans and decorations, the text clip region,
/// the scrollbar thumb, and the cursor. A zero-sized text area draws
/// nothing. As a side effect the scrollbar thumb rectangle is cached in the
/// widget state for the next event pass — or cleared when content fits.
#[verifier::rlimit(100)]
pub fn render(
    cfg: &crate::translator::TerminalBox,
    state: &mut crate::interaction::State,
    registry: &crate::registry::MetadataRegistry,
    frame: &Frame,
) -> (cmds: Vec<DrawCommand>)
    requires
        cfg.wf(),
        frame.wf(),
        frame.default_metadata < registry.contents().len(),
        runs_handles_ok(frame.runs@, registry.contents().len() as int),
    ensures
        ({
            let (view_w, view_h) = spec_view_size(*frame, cfg.padding);
            let focused = old(state).is_focused;
            let default_bg = registry.contents()[frame.default_metadata as int].bg;
            if view_w <= 0 || view_h <= 0 {
                &&& cmds@.len() == 0
                &&& *final(state) == *old(state)
            } else {
                &&& cmds@.len() >= 2
                &&& cmds@[0] == DrawCommand::Background {
                    w: frame.bounds_w as i64,
                    h: frame.bounds_h as i64,
                    color: Rgba {
                        a: match cfg.opacity {
                            Some(a) => a,
                            None => spec_shade(default_bg, focused).a,
                        },
                        ..spec_shade(default_bg, focused)
                    },
                    border_width: cfg.border.width as i64,
                    border_radius: cfg.border.radius as i64,
                }
                &&& cmds@ == seq![
                    DrawCommand::Background {
                        w: frame.bounds_w as i64,
                        h: frame.bounds_h as i64,
                        color: Rgba {
                            a: (match cfg.opacity {
                                Some(a) => a,
                                None => spec_shade(default_bg, focused).a,
                            }),
                            ..spec_shade(default_bg, focused)
                        },
                        border_width: cfg.border.width as i64,
                        border_radius: cfg.border.radius as i64,
                    },
                ] + spec_runs_cmds(
                    frame.runs@,
                    registry.contents(),
                    frame.default_metadata,
                    default_bg,
                    frame.line_height as int,
                    focused,
                ) + seq![
                    DrawCommand::Text {
                        x: cfg.padding.left as i64,
                        y: cfg.padding.top as i64,
                        w: view_w as i64,
                        h: view_h as i64,
                    },
                ] + (match frame.scrollbar {
                    Some((s, e)) => spec_scrollbar_cmds(
                        spec_scrollbar_rect(
                            s as int,
                            e as int,
                            view_w,
                            view_h,
                            frame.theme.width as int,
                        ),
                        old(state).dragging matches Some(
                            crate::interaction::Dragging::Scrollbar { .. },
                        ),
                        (frame.pointer matches Some(p) && {
                            let rect = spec_scrollbar_rect(
                                s as int,
                                e as int,
                                view_w,
                                view_h,
                                frame.theme.width as int,
                            );
                            rect.x <= p.x - cfg.padding.left < rect.x + rect.width
                        }),
                        frame.theme,
                        cfg.padding.left as int,
                        cfg.padding.top as int,
                    ),
                    None => Seq::empty(),
                }) + spec_cursor_cmds(
                    frame.cursor,
                    frame.cell_width as int,
                    frame.cell_height as int,
                    cfg.padding.left as int,
                    cfg.padding.top as int,
                )
                &&& final(state).scrollbar_rect == (match frame.scrollbar {
                    Some((s, e)) => spec_scrollbar_rect(
                        s as int,
                        e as int,
                        view_w,
                        view_h,
                        frame.theme.width as int,
                    ),
                    None => crate::commands::Rect { x: 0, y: 0, width: 0, height: 0 },
                })
                &&& final(state).modifiers == old(state).modifiers
                &&& final(state).click == old(state).click
                &&& final(state).dragging == old(state).dragging
                &&& final(state).is_focused == old(state).is_focused
                &&& final(state).scroll_pixels == old(state).scroll_pixels
            }
        }),
{
    let vw = if frame.viewport_w < frame.bounds_w {
        frame.viewport_w
    } else {
        frame.bounds_w
    };
    let vh = if frame.viewport_h < frame.bounds_h {
        frame.viewport_h
    } else {
        frame.bounds_h
    };
    let view_w: i64 = vw as i64 - cfg.padding.left as i64 - cfg.padding.right as i64
        - frame.theme.width as i64;
    let view_h: i64 = vh as i64 - cfg.padding.top as i64 - cfg.padding.bottom as i64;
    let mut cmds: Vec<DrawCommand> = Vec::new();
    if view_w <= 0 || view_h <= 0 {
        return cmds;
    }
    let focused = state.is_focused();
    let default_meta = registry.resolve(frame.default_metadata);
    let default_bg = default_meta.bg;

    // the whole widget background, shaded when unfocused, with the opacity
    // override applied
    let bg_color = shade(default_bg, focused);
    let alpha = match cfg.opacity {
        Some(a) => a,
        None => bg_color.a,
    };
    cmds.push(
        DrawCommand::Background {
            w: frame.bounds_w as i64,
            h: frame.bounds_h as i64,
            color: Rgba { a: alpha, ..bg_color },
            border_width: cfg.border.width as i64,
            border_radius: cfg.border.radius as i64,
        },
    );

    // per-run span backgrounds and decorations
    let mut i: usize = 0;
    let ghost contents = registry.contents();
    proof {
        assert(cmds@.subrange(1, 1) =~= Seq::<DrawCommand>::empty());
        assert(frame.runs@.skip(0) =~= frame.runs@);
    }
    while i < frame.runs.len()
        invariant
            0 <= i <= frame.runs@.len(),
            frame.wf(),
            cfg.wf(),
            frame.default_metadata < registry.contents().len(),
            runs_handles_ok(frame.runs@, registry.contents().len() as int),
            default_bg == registry.contents()[frame.default_metadata as int].bg,
            cmds@.len() >= 1,
            cmds@[0] == (DrawCommand::Background {
                w: frame.bounds_w as i64,
                h: frame.bounds_h as i64,
                color: Rgba {
                    a: (match cfg.opacity {
                        Some(a) => a,
                        None => spec_shade(default_bg, focused).a,
                    }),
                    ..spec_shade(default_bg, focused)
                },
                border_width: cfg.border.width as i64,
                border_radius: cfg.border.radius as i64,
            }),
            contents == registry.contents(),
            spec_runs_cmds(
                frame.runs@,
                contents,
                frame.default_metadata,
                default_bg,
                frame.line_height as int,
                focused,
            ) == cmds@.subrange(1, cmds@.len() as int) + spec_runs_cmds(
                frame.runs@.skip(i as int),
                contents,
                frame.default_metadata,
                default_bg,
                frame.line_height as int,
                focused,
            ),
        decreases frame.runs@.len() - i,
    {
        let run = &frame.runs[i];
        let spans = coalesce(&run.glyphs, frame.default_metadata, registry.len());
        let ghost before = cmds@;
        render_spans(
            &mut cmds,
            &spans,
            registry,
            default_bg,
            run.line_top,
            frame.line_height,
            focused,
        );
        proof {
            let a = before.subrange(1, before.len() as int);
            let d = spec_line_cmds(
                spec_spans(
                    frame.runs@[i as int].glyphs@,
                    spec_initial_span(frame.default_metadata),
                ),
                contents,
                default_bg,
                frame.runs@[i as int].line_top as int,
                frame.line_height as int,
                focused,
            );
            let rest = spec_runs_cmds(
                frame.runs@.skip(i as int + 1),
                contents,
                frame.default_metadata,
                default_bg,
                frame.line_height as int,
                focused,
            );
            assert(frame.runs@.skip(i as int)[0] == frame.runs@[i as int]);
            assert(frame.runs@.skip(i as int).drop_first() =~= frame.runs@.skip(i as int + 1));
            assert(cmds@ == before + d);
            assert(cmds@.subrange(1, cmds@.len() as int) =~= a + d);
            assert(a + (d + rest) =~= (a + d) + rest);
        }
        i += 1;
    }
    proof {
        assert(frame.runs@.skip(frame.runs@.len() as int) =~= Seq::<LayoutRun>::empty());
    }

    // the text clip region, painted by the external text service
    let ghost text_at = cmds@.len() as int;
    let ghost pre_text = cmds@;
    cmds.push(
        DrawCommand::Text {
            x: cfg.padding.left as i64,
            y: cfg.padding.top as i64,
            w: view_w,
            h: view_h,
        },
    );

    // the scrollbar thumb, and the cached rectangle for the event pass
    match frame.scrollbar {
        Some((s, e)) => {
            proof {
                assert(0 <= s as int * view_h as int <= 0x1000_0000_0000_0000)
                    by (nonlinear_arith)
                    requires
                        0 <= s as int <= 1000000,
                        0 <= view_h as int <= 0x1000_0000,
                ;
                assert(0 <= e as int * view_h as int <= 0x1000_0000_0000_0000)
                    by (nonlinear_arith)
                    requires
                        0 <= e as int <= 1000000,
                        0 <= view_h as int <= 0x1000_0000,
                ;
            }
            let y: i64 = s * view_h / 1000000;
            let h: i64 = e * view_h / 1000000 - y;
            let rect = crate::commands::Rect {
                x: view_w as i32,
                y: y as i32,
                width: frame.theme.width,
                height: h as i32,
            };
            let pressed = match state.dragging {
                Some(crate::interaction::Dragging::Scrollbar { .. }) => true,
                _ => false,
            };
            let hover = match frame.pointer {
                Some(p) => {
                    let px: i64 = p.x as i64 - cfg.padding.left as i64;
                    rect.x as i64 <= px && px < rect.x as i64 + rect.width as i64
                },
                None => false,
            };
            let (dw, dx) = if !hover && !pressed {
                let w2 = rect.width / 2;
                (w2, rect.x + w2 / 2)
            } else {
                (rect.width, rect.x)
            };
            let color = if pressed {
                frame.theme.pressed
            } else if hover {
                frame.theme.hover
            } else {
                frame.theme.base
            };
            cmds.push(
                DrawCommand::Rounded {
                    x: cfg.padding.left as i64 + dx as i64,
                    y: cfg.padding.top as i64 + rect.y as i64,
                    w: dw as i64,
                    h: rect.height as i64,
                    radius: dw as i64 / 2,
                    color,
                },
            );
            state.scrollbar_rect = rect;
        },
        None => {
            state.scrollbar_rect = crate::commands::Rect { x: 0, y: 0, width: 0, height: 0 };
        },
    }

    // the cursor overlay
    proof {
        assert(0 <= frame.cursor.col as int * frame.cell_width as int <= 0x1_0000_0000_0000)
            by (nonlinear_arith)
            requires
                0 <= frame.cursor.col as int <= 0x10000,
                0 < frame.cell_width as int <= 0x1000_0000,
        ;
        assert(0 <= (frame.cursor.line as int + 1) * frame.cell_height as int
            <= 0x2_0000_0000_0000) by (nonlinear_arith)
            requires
                0 <= frame.cursor.line as int <= 0x10000,
                0 < frame.cell_height as int <= 0x1000_0000,
        ;
        assert(0 <= frame.cursor.line as int * frame.cell_height as int <= 0x1_0000_0000_0000)
            by (nonlinear_arith)
            requires
                0 <= frame.cursor.line as int <= 0x10000,
                0 < frame.cell_height as int <= 0x1000_0000,
        ;
    }
    match frame.cursor.shape {
        CursorShape::Beam => {
            cmds.push(
                DrawCommand::Quad {
                    x: cfg.padding.left as i64 + frame.cursor.col as i64 * frame.cell_width as i64,
                    y: cfg.padding.top as i64 + frame.cursor.line as i64 * frame.cell_height as i64,
                    w: 1,
                    h: frame.cell_height as i64,
                    color: frame.cursor.color,
                },
            );
        },
        CursorShape::Underline => {
            cmds.push(
                DrawCommand::Quad {
                    x: cfg.padding.left as i64 + frame.cursor.col as i64 * frame.cell_width as i64,
                    y: cfg.padding.top as i64 + (frame.cursor.line as i64 + 1)
                        * frame.cell_height as i64,
                    w: frame.cell_width as i64,
                    h: 1,
                    color: frame.cursor.color,
                },
            );
        },
        _ => {},
    }
    proof {
        let viewws = spec_view_size(*frame, cfg.padding).0;
        let viewhs = spec_view_size(*frame, cfg.padding).1;
        assert(view_w as int == viewws);
        assert(view_h as int == viewhs);
        assert(cmds@.subrange(1, text_at) =~= pre_text.subrange(1, pre_text.len() as int));
        assert(cmds@[text_at] == (DrawCommand::Text {
            x: cfg.padding.left as i64,
            y: cfg.padding.top as i64,
            w: view_w as i64,
            h: view_h as i64,
        }));
        let sbs: Seq<DrawCommand> = match frame.scrollbar {
            Some((s, e)) => spec_scrollbar_cmds(
                spec_scrollbar_rect(
                    s as int,
                    e as int,
                    viewws,
                    viewhs,
                    frame.theme.width as int,
                ),
                state.dragging matches Some(crate::interaction::Dragging::Scrollbar { .. }),
                (frame.pointer matches Some(p) && {
                    let rect = spec_scrollbar_rect(
                        s as int,
                        e as int,
                        viewws,
                        viewhs,
                        frame.theme.width as int,
                    );
                    rect.x <= p.x - cfg.padding.left < rect.x + rect.width
                }),
                frame.theme,
                cfg.padding.left as int,
                cfg.padding.top as int,
            ),
            None => Seq::empty(),
        };
        let curs = spec_cursor_cmds(
            frame.cursor,
            frame.cell_width as int,
            frame.cell_height as int,
            cfg.padding.left as int,
            cfg.padding.top as int,
        );
        assert(cmds@.skip(text_at + 1) =~= sbs + curs);
        assert(1 <= text_at < cmds@.len());
        let bgcmd = DrawCommand::Background {
            w: frame.bounds_w as i64,
            h: frame.bounds_h as i64,
            color: Rgba {
                a: (match cfg.opacity {
                    Some(a) => a,
                    None => spec_shade(default_bg, focused).a,
                }),
                ..spec_shade(default_bg, focused)
            },
            border_width: cfg.border.width as i64,
            border_radius: cfg.border.radius as i64,
        };
        let runs_cmds = spec_runs_cmds(
            frame.runs@,
            contents,
            frame.default_metadata,
            default_bg,
            frame.line_height as int,
            focused,
        );
        let textcmd = DrawCommand::Text {
            x: cfg.padding.left as i64,
            y: cfg.padding.top as i64,
            w: view_w as i64,
            h: view_h as i64,
        };
        assert(pre_text.subrange(1, pre_text.len() as int) == runs_cmds);
        assert(pre_text[0] == bgcmd);
        assert(cmds@ =~= ((seq![bgcmd] + runs_cmds) + seq![textcmd]) + (sbs + curs));
        assert((((seq![bgcmd] + runs_cmds) + seq![textcmd]) + (sbs + curs)) =~= (((seq![bgcmd]
            + runs_cmds) + seq![textcmd]) + sbs) + curs);
    }
    cmds
}

/// Whether a drawing command is a rectangle covering horizontal position
/// `xx`.
pub open spec fn quad_covers(cmd: DrawCommand, xx: int) -> bool {
    cmd matches DrawCommand::Quad { x, y, w, h, color } && x <= xx < x + w
}

/// Every phase within a pattern falls in some segment.
proof fn lemma_pat_find_segment(pat: Seq<(i32, Option<i32>)>, off: int)
    requires
        pat.len() > 0,
        forall|j: int| 0 <= j < pat.len() ==> 0 < (#[trigger] pat[j]).0,
        0 <= off < pat_len(pat),
    ensures
        exists|i: int|
            0 <= i < pat.len() && #[trigger] pat_prefix(pat, i) <= off < pat_prefix(pat, i)
                + pat[i].0,
    decreases pat.len(),
{
    if off < pat[0].0 {
        assert(pat.take(0) =~= Seq::<(i32, Option<i32>)>::empty());
        assert(pat_prefix(pat, 0) <= off < pat_prefix(pat, 0) + pat[0].0);
    } else {
        let rest = pat.drop_first();
        assert(pat_len(pat) == pat[0].0 + pat_len(rest));
        lemma_pat_find_segment(rest, off - pat[0].0);
        let j = choose|j: int|
            0 <= j < rest.len() && #[trigger] pat_prefix(rest, j) <= off - pat[0].0 < pat_prefix(
                rest,
                j,
            ) + rest[j].0;
        assert(pat.take(j + 2).drop_first() =~= rest.take(j + 1));
        assert(pat_prefix(pat, j + 2) == pat[0].0 + pat_prefix(rest, j + 1));
        assert(rest.take(j + 1).drop_last() =~= rest.take(j));
        lemma_pat_len_snoc(rest.take(j + 1));
        assert(pat_prefix(rest, j + 1) == pat_prefix(rest, j) + rest[j].0);
        assert(pat.take(j + 1).drop_first() =~= rest.take(j));
        assert(pat_prefix(pat, j + 1) == pat[0].0 + pat_prefix(rest, j));
        assert(pat[j + 1] == rest[j]);
        assert(pat_prefix(pat, j + 1) <= off < pat_prefix(pat, j + 1) + pat[j + 1].0);
    }
}

/// Where the tiler paints. A horizontal position is covered by some tiled
/// rectangle exactly when it lies within the span and the pattern has a
/// rectangle (not a gap) at that position's absolute phase; and every
/// rectangle covering it carries the decoration thickness, the decoration
/// color, and the height the pattern assigns to that phase.
#[verifier::rlimit(60)]
pub proof fn lemma_tiles_coverage(
    pat: Seq<(i32, Option<i32>)>,
    a: int,
    b: int,
    base_y: int,
    sl: int,
    color: Rgba,
    xx: int,
)
    requires
        pat_wf(pat),
        0 <= a,
        b <= 0x1000_0000,
        -0x4000_0000 <= base_y <= 0x4000_0000,
        0 <= sl <= 0x1000_0000,
    ensures
        ((exists|j: int|
            0 <= j < spec_tiles(pat, a, b, base_y, sl, color).len() && quad_covers(
                #[trigger] spec_tiles(pat, a, b, base_y, sl, color)[j],
                xx,
            )) <==> (a <= xx < b && pat_height_at(pat, xx % pat_len(pat)) is Some)),
        forall|j: int|
            0 <= j < spec_tiles(pat, a, b, base_y, sl, color).len() && quad_covers(
                #[trigger] spec_tiles(pat, a, b, base_y, sl, color)[j],
                xx,
            ) ==> (spec_tiles(pat, a, b, base_y, sl, color)[j] matches DrawCommand::Quad {
                y,
                h,
                color: c,
                ..
            } && h == sl && c == color && (pat_height_at(pat, xx % pat_len(pat)) matches Some(ho)
                && y == base_y - ho)),
    decreases b - a,
{
    let plen = pat_len(pat);
    lemma_pat_len_nonneg(pat);
    let tiles = spec_tiles(pat, a, b, base_y, sl, color);
    if a >= b {
        assert(tiles =~= Seq::<DrawCommand>::empty());
    } else {
        let off = a % plen;
        lemma_mod_bound(a, plen);
        lemma_pat_find_segment(pat, off);
        let i = choose|i: int|
            0 <= i < pat.len() && #[trigger] pat_prefix(pat, i) <= off < pat_prefix(pat, i)
                + pat[i].0;
        lemma_pat_segment(pat, i, off);
        lemma_pat_prefix_nonneg(pat, i);
        let rem = pat_seg_rem(pat, off);
        assert(rem >= 1);
        assert(off + rem <= plen);
        let w = if rem < b - a {
            rem
        } else {
            b - a
        };
        let rest = spec_tiles(pat, a + w, b, base_y, sl, color);
        let head: Seq<DrawCommand> = match pat_height_at(pat, off) {
            Some(ho) => seq![
                DrawCommand::Quad {
                    x: a as i64,
                    y: (base_y - ho) as i64,
                    w: w as i64,
                    h: sl as i64,
                    color,
                },
            ],
            None => Seq::empty(),
        };
        assert(tiles == head + rest);
        lemma_tiles_coverage(pat, a + w, b, base_y, sl, color, xx);
        lemma_mod_multiples_vanish(0, a, plen);
        assert(a % plen == off);
        if a <= xx < a + w {
            lemma_mod_adds_small(a, xx - a, plen, off + (xx - a));
            assert(xx % plen == off + (xx - a));
            lemma_pat_segment(pat, i, off + (xx - a));
            assert(pat_height_at(pat, xx % plen) == pat[i].1);
            assert forall|j: int|
                head.len() <= j < tiles.len() implies !quad_covers(#[trigger] tiles[j], xx) by {
                assert(tiles[j] == rest[j - head.len()]);
                if quad_covers(rest[j - head.len()], xx) {
                    assert(exists|k: int|
                        0 <= k < rest.len() && quad_covers(#[trigger] rest[k], xx));
                    assert(a + w <= xx);
                    assert(false);
                }
            }
            match pat[i].1 {
                Some(ho) => {
                    assert(tiles[0] == head[0]);
                    assert(quad_covers(tiles[0], xx));
                    assert forall|j: int|
                        0 <= j < tiles.len() && quad_covers(#[trigger] tiles[j], xx) implies (
                    tiles[j] matches DrawCommand::Quad { y, h, color: c, .. } && h == sl && c
                        == color && (pat_height_at(pat, xx % pat_len(pat)) matches Some(ho2)
                        && y == base_y - ho2)) by {
                        assert(j < head.len());
                        assert(tiles[j] == head[0]);
                    }
                },
                None => {
                    assert(head.len() == 0);
                },
            }
        } else {
            assert forall|j: int| 0 <= j < head.len() implies !quad_covers(
                #[trigger] tiles[j],
                xx,
            ) by {
                assert(tiles[j] == head[j]);
            }
            if exists|k: int| 0 <= k < rest.len() && quad_covers(#[trigger] rest[k], xx) {
                let k = choose|k: int| 0 <= k < rest.len() && quad_covers(#[trigger] rest[k], xx);
                assert(tiles[head.len() + k] == rest[k]);
                assert(quad_covers(tiles[head.len() + k], xx));
            }
            if exists|j: int| 0 <= j < tiles.len() && quad_covers(#[trigger] tiles[j], xx) {
                let j = choose|j: int| 0 <= j < tiles.len() && quad_covers(#[trigger] tiles[j], xx);
                assert(j >= head.len());
                assert(tiles[j] == rest[j - head.len()]);
                assert(quad_covers(rest[j - head.len()], xx));
                assert(exists|k: int| 0 <= k < rest.len() && quad_covers(#[trigger] rest[k], xx));
            }
            assert forall|j: int|
                0 <= j < tiles.len() && quad_covers(#[trigger] tiles[j], xx) implies (
            tiles[j] matches DrawCommand::Quad { y, h, color: c, .. } && h == sl && c == color && (
            pat_height_at(pat, xx % pat_len(pat)) matches Some(ho2) && y == base_y - ho2)) by {
                assert(j >= head.len());
                assert(tiles[j] == rest[j - head.len()]);
                assert(quad_covers(rest[j - head.len()], xx));
            }
        }
    }
}

/// Splitting a span does not move its repeating pattern: tiling `[a, b)` and
/// `[b, c)` separately covers exactly the horizontal positions that tiling
/// the combined `[a, c)` covers. The phase is anchored to the absolute
/// coordinate, so the pattern neither restarts nor shifts at the boundary;
/// `lemma_tiles_coverage` pins the covering rectangles' heights to the same
/// per-phase value on both sides.
pub proof fn lemma_tiles_phase_aligned(
    pat: Seq<(i32, Option<i32>)>,
    a: int,
    b: int,
    c: int,
    base_y: int,
    sl: int,
    color: Rgba,
    xx: int,
)
    requires
        pat_wf(pat),
        0 <= a <= b <= c <= 0x1000_0000,
        -0x4000_0000 <= base_y <= 0x4000_0000,
        0 <= sl <= 0x1000_0000,
    ensures
        ({
            let split = spec_tiles(pat, a, b, base_y, sl, color) + spec_tiles(
                pat,
                b,
                c,
                base_y,
                sl,
                color,
            );
            let combined = spec_tiles(pat, a, c, base_y, sl, color);
            (exists|j: int| 0 <= j < split.len() && quad_covers(#[trigger] split[j], xx)) <==> (
            exists|j: int| 0 <= j < combined.len() && quad_covers(#[trigger] combined[j], xx))
        }),
{
    let first = spec_tiles(pat, a, b, base_y, sl, color);
    let second = spec_tiles(pat, b, c, base_y, sl, color);
    let split = first + second;
    let combined = spec_tiles(pat, a, c, base_y, sl, color);
    lemma_tiles_coverage(pat, a, b, base_y, sl, color, xx);
    lemma_tiles_coverage(pat, b, c, base_y, sl, color, xx);
    lemma_tiles_coverage(pat, a, c, base_y, sl, color, xx);
    if exists|j: int| 0 <= j < split.len() && quad_covers(#[trigger] split[j], xx) {
        let j = choose|j: int| 0 <= j < split.len() && quad_covers(#[trigger] split[j], xx);
        if j < first.len() {
            assert(quad_covers(first[j], xx));
        } else {
            assert(quad_covers(second[j - first.len()], xx));
        }
        assert(a <= xx < c && pat_height_at(pat, xx % pat_len(pat)) is Some);
    }
    if exists|j: int| 0 <= j < combined.len() && quad_covers(#[trigger] combined[j], xx) {
        assert(a <= xx < c && pat_height_at(pat, xx % pat_len(pat)) is Some);
        if xx < b {
            let j = choose|j: int| 0 <= j < first.len() && quad_covers(#[trigger] first[j], xx);
            assert(split[j] == first[j]);
            assert(quad_covers(split[j], xx));
        } else {
            let j = choose|j: int|
                0 <= j < second.len() && quad_covers(#[trigger] second[j], xx);
            assert(split[first.len() + j] == second[j]);
            assert(quad_covers(split[first.len() + j], xx));
        }
    }
}

} // verus!
