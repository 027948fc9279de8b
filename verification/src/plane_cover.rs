//! What the greedy sweep achieves: its rectangles tile the set bits of the
//! plane.

use vstd::prelude::*;
use vstd::std_specs::bits::axiom_u32_trailing_ones;
use vstd::std_specs::bits::axiom_u32_trailing_zeros;
use vstd::std_specs::bits::u32_trailing_ones;
use vstd::std_specs::bits::u32_trailing_zeros;
use crate::faces::bit32;
use crate::greedy_mesher_optimized::GreedyQuad;
use crate::greedy_mesher_optimized::clear_span;
use crate::greedy_mesher_optimized::greedy_quads;
use crate::greedy_mesher_optimized::lemma_run_starts;
use crate::greedy_mesher_optimized::lemma_shifts;
use crate::greedy_mesher_optimized::low_bits;
use crate::greedy_mesher_optimized::merge_row;
use crate::greedy_mesher_optimized::merge_rows;
use crate::greedy_mesher_optimized::merge_width;
use crate::greedy_mesher_optimized::quad_fits;
use crate::greedy_mesher_optimized::spans;
use crate::greedy_mesher_optimized::without_span;

verus! {

/// True when the rectangle takes in bit `bit` of row `row`.
pub open spec fn covers(q: GreedyQuad, row: int, bit: int) -> bool {
    q.x <= row < q.x + q.w && q.y <= bit < q.y + q.h
}

/// True when one of the rectangles takes in bit `bit` of row `row`.
pub open spec fn covered(quads: Seq<GreedyQuad>, row: int, bit: int) -> bool {
    exists|i: int| 0 <= i < quads.len() && covers(#[trigger] quads[i], row, bit)
}

/// True when no bit is taken in by two of the rectangles.
pub open spec fn disjoint(quads: Seq<GreedyQuad>) -> bool {
    forall|i: int, j: int, row: int, bit: int|
        0 <= i < j < quads.len() && #[trigger] covers(quads[i], row, bit) ==> !#[trigger] covers(
            quads[j],
            row,
            bit,
        )
}

/// True when every bit that one of the rectangles takes in is set in `rows`.
pub open spec fn within(quads: Seq<GreedyQuad>, rows: Seq<u32>) -> bool {
    forall|i: int, row: int, bit: int|
        0 <= i < quads.len() && #[trigger] covers(quads[i], row, bit) ==> bit32(rows[row], bit)
}

proof fn lemma_span_bits(v: u32, s: u32, h: u32, b: u32, m: u32)
    by (bit_vector)
    requires
        s < 32,
        h <= 32,
        b < 32,
        s + h <= 32,
        m == (if h >= 32 {
            0xffff_ffffu32
        } else {
            ((1u32 << h) - 1) as u32
        }),
    ensures
        ((v & !(m << s)) >> b) & 1 == 1 <==> ((v >> b) & 1 == 1 && !(s <= b && b < s + h)),
        (v >> s) & m == m && s <= b && b < s + h ==> (v >> b) & 1 == 1,
{
}

/// From bit `y` up to the next set bit, the bits of `v` are clear.
proof fn lemma_next_set(v: u32, y: u32)
    requires
        y < 32,
    ensures
        ({
            let s = y + u32_trailing_zeros(v >> y);
            &&& forall|b: int| y <= b < s && b < 32 ==> !bit32(v, b)
            &&& s < 32 ==> bit32(v, s)
        }),
{
    let i = v >> y;
    let t = u32_trailing_zeros(i);
    let s = y + t;
    axiom_u32_trailing_zeros(i);
    assert forall|b: int| y <= b < s && b < 32 implies !bit32(v, b) by {
        let j = (b - y) as u32;
        assert((i >> j) & 1u32 == 0u32);
        lemma_shifts(v, y, j);
    }
    if s < 32 {
        lemma_shifts(v, y, t);
    }
}

/// The run of set bits from a set bit `s` on: all of its bits are set.
proof fn lemma_run(v: u32, s: u32)
    requires
        s < 32,
    ensures
        forall|b: int|
            s <= b < s + u32_trailing_ones(v >> s) && b < 32 ==> bit32(v, b),
{
    let j = v >> s;
    let h = u32_trailing_ones(j);
    axiom_u32_trailing_ones(j);
    assert forall|b: int| s <= b < s + h && b < 32 implies bit32(v, b) by {
        let k = (b - s) as u32;
        assert((j >> k) & 1u32 == 1u32);
        lemma_shifts(v, s, k);
    }
}

/// A rectangle grows over rows that have all of its bits.
proof fn lemma_merge_width(rows: Seq<u32>, row: int, y: u32, h: u32, w: int)
    requires
        rows.len() == 32,
        0 <= row,
        1 <= w,
        row + w <= 32,
        forall|k: int| 1 <= k < w ==> spans(#[trigger] rows[row + k], y, h),
    ensures
        ({
            let width = merge_width(rows, 32, row, y, h, w);
            &&& w <= width
            &&& row + width <= 32
            &&& forall|k: int| 1 <= k < width ==> spans(#[trigger] rows[row + k], y, h)
        }),
    decreases 32 - (row + w),
{
    if row + w < 32 && spans(rows[row + w], y, h) {
        assert forall|k: int| 1 <= k < w + 1 implies spans(#[trigger] rows[row + k], y, h) by {
            if k == w {
            }
        }
        lemma_merge_width(rows, row, y, h, w + 1);
    }
}

/// A bit is taken in by one of two lists of rectangles exactly when it is
/// taken in by one of the first or by one of the second.
proof fn lemma_covered_concat(a: Seq<GreedyQuad>, b: Seq<GreedyQuad>, row: int, bit: int)
    ensures
        covered(a + b, row, bit) <==> covered(a, row, bit) || covered(b, row, bit),
{
    let c = a + b;
    if covered(a, row, bit) {
        let i = choose|i: int| 0 <= i < a.len() && covers(#[trigger] a[i], row, bit);
        assert(c[i] == a[i]);
    }
    if covered(b, row, bit) {
        let i = choose|i: int| 0 <= i < b.len() && covers(#[trigger] b[i], row, bit);
        assert(c[a.len() + i] == b[i]);
    }
    if covered(c, row, bit) {
        let i = choose|i: int| 0 <= i < c.len() && covers(#[trigger] c[i], row, bit);
        if i < a.len() {
            assert(c[i] == a[i]);
        } else {
            assert(c[i] == b[i - a.len()]);
        }
    }
}

/// True when `quads` and `after` are what the sweep makes of `rows` in
/// row `row` from bit `y` upward: rectangles that start in that row at or
/// above that bit, take in set bits only and no bit twice, and take in
/// every set bit of the row from `y` on; and a plane in which the bits that
/// the rectangles take in of later rows are cleared.
pub open spec fn row_swept(
    rows: Seq<u32>,
    row: int,
    y: int,
    quads: Seq<GreedyQuad>,
    after: Seq<u32>,
) -> bool {
    &&& after.len() == 32
    &&& forall|i: int|
        0 <= i < quads.len() ==> (#[trigger] quads[i]).x == row && quads[i].y >= y && quad_fits(
            quads[i],
        )
    &&& within(quads, rows)
    &&& disjoint(quads)
    &&& forall|r: int, b: int|
        0 <= r < 32 && 0 <= b < 32 ==> (#[trigger] bit32(after[r], b) <==> bit32(rows[r], b) && (r
            <= row || !covered(quads, r, b)))
    &&& forall|b: int| y <= b < 32 && #[trigger] bit32(rows[row], b) ==> covered(quads, row, b)
}

/// The sweep over one row does what `row_swept` says.
proof fn lemma_merge_row(rows: Seq<u32>, row: int, y: u32)
    requires
        rows.len() == 32,
        0 <= row < 32,
        y <= 32,
    ensures
        row_swept(
            rows,
            row,
            y as int,
            merge_row(rows, 32, row, y).0,
            merge_row(rows, 32, row, y).1,
        ),
    decreases 32 - y,
{
    let v = rows[row];
    let result = merge_row(rows, 32, row, y);
    if y >= 32 {
        assert(result.0.len() == 0);
    } else {
        lemma_next_set(v, y);
        let start = y + u32_trailing_zeros(v >> y);
        if start >= 32 {
            assert(result.0.len() == 0);
        } else {
            let s = start as u32;
            lemma_run_starts(v, y);
            lemma_run(v, s);
            let h = u32_trailing_ones(v >> s);
            lemma_merge_width(rows, row, s, h, 1);
            let w = merge_width(rows, 32, row, s, h, 1);
            let q = GreedyQuad { x: row as u32, y: s, w: w as u32, h };
            let rows2 = clear_span(rows, row, w, s, h);
            let top = (s + h) as u32;
            lemma_merge_row(rows2, row, top);
            let rest = merge_row(rows2, 32, row, top);
            let quads = seq![q] + rest.0;
            assert(result.0 == quads);
            assert(result.1 == rest.1);
            assert(rows2[row] == v);

            assert forall|r: int, b: int| 0 <= r < 32 && 0 <= b < 32 implies (#[trigger] bit32(
                rows2[r],
                b,
            ) <==> bit32(rows[r], b) && !(row < r && covers(q, r, b))) by {
                if row < r < row + w {
                    lemma_span_bits(rows[r], s, h, b as u32, low_bits(h));
                    assert(rows2[r] == without_span(rows[r], s, h));
                } else {
                    assert(rows2[r] == rows[r]);
                }
            }
            assert forall|r: int, b: int| #[trigger] covers(q, r, b) implies bit32(rows[r], b) by {
                if r == row {
                } else {
                    assert(spans(rows[row + (r - row)], s, h));
                    lemma_span_bits(rows[r], s, h, b as u32, low_bits(h));
                }
            }
            // every rectangle starts in the row, at or above `y`, and fits
            assert forall|i: int| 0 <= i < quads.len() implies (#[trigger] quads[i]).x == row
                && quads[i].y >= y && quad_fits(quads[i]) by {
                if i > 0 {
                    assert(quads[i] == rest.0[i - 1]);
                }
            }
            // the rectangles take in set bits only
            assert forall|i: int, r: int, b: int|
                0 <= i < quads.len() && #[trigger] covers(quads[i], r, b) implies bit32(
                rows[r],
                b,
            ) by {
                if i > 0 {
                    assert(quads[i] == rest.0[i - 1]);
                    assert(covers(rest.0[i - 1], r, b));
                    assert(quad_fits(rest.0[i - 1]));
                    assert(bit32(rows2[r], b));
                    assert(0 <= r < 32 && 0 <= b < 32);
                } else {
                    assert(quads[0] == q);
                    assert(covers(q, r, b));
                }
            }
            // and no bit twice
            assert forall|i: int, j: int, r: int, b: int|
                0 <= i < j < quads.len() && #[trigger] covers(
                    quads[i],
                    r,
                    b,
                ) implies !#[trigger] covers(quads[j], r, b) by {
                assert(quads[j] == rest.0[j - 1]);
                if i == 0 {
                    if covers(quads[j], r, b) {
                        assert(covers(rest.0[j - 1], r, b));
                        assert(bit32(rows2[r], b));
                    }
                } else {
                    assert(quads[i] == rest.0[i - 1]);
                    assert(covers(rest.0[i - 1], r, b));
                }
            }
            // what is left of the plane
            assert forall|r: int, b: int| 0 <= r < 32 && 0 <= b < 32 implies (#[trigger] bit32(
                result.1[r],
                b,
            ) <==> bit32(rows[r], b) && (r <= row || !covered(quads, r, b))) by {
                lemma_covered_concat(seq![q], rest.0, r, b);
                assert(covered(seq![q], r, b) <==> covers(q, r, b)) by {
                    if covers(q, r, b) {
                        assert(seq![q][0] == q);
                    }
                }
                assert(bit32(rest.1[r], b) <==> bit32(rows2[r], b) && (r <= row || !covered(
                    rest.0,
                    r,
                    b,
                )));
            }
            // every set bit of the row from `y` on is taken in
            assert forall|b: int| y <= b < 32 && #[trigger] bit32(rows[row], b) implies covered(
                quads,
                row,
                b,
            ) by {
                lemma_covered_concat(seq![q], rest.0, row, b);
                if b < s {
                } else if b < s + h {
                    assert(covers(seq![q][0], row, b));
                } else {
                    assert(bit32(rows2[row], b));
                }
            }
        }
    }
}

/// True when `quads` is what the sweep makes of the rows of `rows` from
/// `row` on.
pub open spec fn rows_swept(rows: Seq<u32>, row: int, quads: Seq<GreedyQuad>) -> bool {
    &&& forall|i: int|
        0 <= i < quads.len() ==> (#[trigger] quads[i]).x >= row && quad_fits(quads[i])
    &&& within(quads, rows)
    &&& disjoint(quads)
    &&& forall|r: int, b: int|
        row <= r < 32 && 0 <= b < 32 && #[trigger] bit32(rows[r], b) ==> covered(quads, r, b)
}

/// The sweep over the rows from `row` on does what `rows_swept` says.
proof fn lemma_merge_rows(rows: Seq<u32>, row: int)
    requires
        rows.len() == 32,
        0 <= row <= 32,
    ensures
        rows_swept(rows, row, merge_rows(rows, 32, row)),
    decreases 32 - row,
{
    if row < 32 {
        let first = merge_row(rows, 32, row, 0);
        lemma_merge_row(rows, row, 0);
        lemma_merge_rows(first.1, row + 1);
        let later = merge_rows(first.1, 32, row + 1);
        let quads = first.0 + later;
        assert(merge_rows(rows, 32, row) == quads);
        assert forall|i: int| 0 <= i < quads.len() implies (#[trigger] quads[i]).x >= row
            && quad_fits(quads[i]) by {
            if i < first.0.len() {
                assert(quads[i] == first.0[i]);
            } else {
                assert(quads[i] == later[i - first.0.len()]);
            }
        }
        assert forall|i: int, r: int, b: int|
            0 <= i < quads.len() && #[trigger] covers(quads[i], r, b) implies bit32(rows[r], b) by {
            if i < first.0.len() {
                assert(quads[i] == first.0[i]);
            } else {
                let k = i - first.0.len();
                assert(quads[i] == later[k]);
                assert(covers(later[k], r, b));
                assert(bit32(first.1[r], b));
            }
        }
        assert forall|i: int, j: int, r: int, b: int|
            0 <= i < j < quads.len() && #[trigger] covers(quads[i], r, b) implies !#[trigger] covers(
            quads[j],
            r,
            b,
        ) by {
            let n = first.0.len();
            if j < n {
                assert(quads[i] == first.0[i]);
                assert(quads[j] == first.0[j]);
            } else if i >= n {
                assert(quads[i] == later[i - n]);
                assert(quads[j] == later[j - n]);
                assert(covers(later[i - n], r, b));
            } else {
                assert(quads[i] == first.0[i]);
                assert(quads[j] == later[j - n]);
                if covers(quads[j], r, b) {
                    assert(covers(later[j - n], r, b));
                    assert(bit32(first.1[r], b));
                    assert(later[j - n].x >= row + 1);
                    assert(covered(first.0, r, b));
                }
            }
        }
        assert forall|r: int, b: int|
            row <= r < 32 && 0 <= b < 32 && #[trigger] bit32(rows[r], b) implies covered(
            quads,
            r,
            b,
        ) by {
            lemma_covered_concat(first.0, later, r, b);
            if r > row && !covered(first.0, r, b) {
                assert(bit32(first.1[r], b));
            }
        }
    }
}

/// The rectangles of a plane tile its set bits: every set bit lies in one
/// of the rectangles, the rectangles take in nothing but set bits, no two
/// of them take in the same bit, and each lies within the plane.
pub proof fn lemma_greedy_quads_tile(rows: Seq<u32>)
    requires
        rows.len() == 32,
    ensures
        forall|row: int, bit: int|
            0 <= row < 32 && 0 <= bit < 32 ==> (#[trigger] bit32(rows[row], bit) <==> covered(
                greedy_quads(rows, 32),
                row,
                bit,
            )),
        disjoint(greedy_quads(rows, 32)),
        forall|i: int|
            0 <= i < greedy_quads(rows, 32).len() ==> quad_fits(#[trigger] greedy_quads(rows, 32)[i]),
{
    lemma_merge_rows(rows, 0);
    let quads = greedy_quads(rows, 32);
    assert forall|row: int, bit: int| 0 <= row < 32 && 0 <= bit < 32 implies (#[trigger] bit32(
        rows[row],
        bit,
    ) <==> covered(quads, row, bit)) by {
        if covered(quads, row, bit) {
            let i = choose|i: int| 0 <= i < quads.len() && covers(#[trigger] quads[i], row, bit);
            assert(bit32(rows[row], bit));
        }
    }
}

} // verus!
