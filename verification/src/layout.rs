use vstd::prelude::*;

use crate::args::Args;
use crate::rank::GlyphBoundingBoxData;

verus! {

/// Largest padded glyph dimension and desired atlas width the planner
/// accepts; keeps every cursor and the power-of-two growth inside `i32`.
pub const DIM_LIMIT: i32 = 0x2000_0000;

/// Whether `n` is a power of two.
pub open spec fn is_pow2(n: int) -> bool
    decreases n,
{
    if n <= 0 {
        false
    } else if n == 1 {
        true
    } else {
        n % 2 == 0 && is_pow2(n / 2)
    }
}

/// The doubling rule for the next power of two: for `n` itself a power of
/// two the result is `2n`, never `n`; otherwise it is the least power of two
/// above `n`. Downstream packing arithmetic depends on the doubling case, so
/// it is part of the contract, not a defect.
pub open spec fn is_next_pot(n: int, r: int) -> bool {
    is_pow2(r) && n <= r && (if is_pow2(n) {
        r == 2 * n
    } else {
        r < 2 * n
    })
}

/// Doubling a power of two gives a power of two.
pub proof fn lemma_pow2_double(n: int)
    requires
        is_pow2(n),
    ensures
        is_pow2(2 * n),
{
    assert(n >= 1);
    assert((2 * n) % 2 == 0);
    assert((2 * n) / 2 == n);
}

/// Of two powers of two, the larger is at least double the smaller.
pub proof fn lemma_pow2_ordered(p: int, q: int)
    requires
        is_pow2(p),
        is_pow2(q),
        p < q,
    ensures
        2 * p <= q,
    decreases p + q,
{
    assert(q >= 2);
    let h = q / 2;
    assert(is_pow2(h));
    assert(q == 2 * h);
    if h == p {
    } else if h < p {
        lemma_pow2_ordered(h, p);
        assert(2 * h <= p);
        assert(false);
    } else {
        lemma_pow2_ordered(p, h);
    }
}

/// At most one power of two lies in `[n, 2n)`.
pub proof fn lemma_pow2_unique(n: int, p: int, q: int)
    requires
        is_pow2(p),
        is_pow2(q),
        n <= p < 2 * n,
        n <= q < 2 * n,
    ensures
        p == q,
{
    if p < q {
        lemma_pow2_ordered(p, q);
    } else if q < p {
        lemma_pow2_ordered(q, p);
    }
}

/// The power-of-two chain from `acc` upward, stopped at the first value
/// strictly above `n`.
pub open spec fn pot_from(acc: int, n: int) -> int
    decreases (if acc > n { 0int } else { n - acc + 1 }) when acc >= 1
{
    if acc > n {
        acc
    } else {
        pot_from(2 * acc, n)
    }
}

/// The least power of two strictly above `n`: the value of the doubling rule,
/// since for a power of two `n` the least power of two above it is `2n`.
pub open spec fn next_pot_spec(n: int) -> int {
    pot_from(1, n)
}

proof fn lemma_pot_from(acc: int, n: int)
    requires
        is_pow2(acc),
        acc <= n,
    ensures
        is_pow2(pot_from(acc, n)),
        n < pot_from(acc, n) <= 2 * n,
    decreases n - acc,
{
    lemma_pow2_double(acc);
    if 2 * acc > n {
        assert(pot_from(acc, n) == pot_from(2 * acc, n));
        assert(pot_from(2 * acc, n) == 2 * acc);
    } else {
        lemma_pot_from(2 * acc, n);
    }
}

/// `next_pot_spec` realizes the doubling rule.
pub proof fn lemma_next_pot_spec(n: int)
    requires
        n >= 1,
    ensures
        is_next_pot(n, next_pot_spec(n)),
        n < next_pot_spec(n) <= 2 * n,
{
    lemma_pot_from(1, n);
    let r = next_pot_spec(n);
    if is_pow2(n) {
        lemma_pow2_double(n);
        lemma_pow2_unique(n + 1, r, 2 * n);
    } else {
        if r == 2 * n {
            assert((2 * n) % 2 == 0 && (2 * n) / 2 == n);
            assert(is_pow2(n));
        }
    }
}

/// The doubling rule determines its value: anything satisfying `is_next_pot`
/// equals `next_pot_spec`.
pub proof fn lemma_next_pot_unique(n: int, r: int)
    requires
        n >= 1,
        is_next_pot(n, r),
    ensures
        r == next_pot_spec(n),
{
    lemma_next_pot_spec(n);
    let p = next_pot_spec(n);
    if is_pow2(n) {
    } else {
        assert(r != n && p != n);
        if r != p {
            lemma_pow2_unique(n + 1, r, p);
        }
    }
}

/// Returns the next power of two after `number` under the doubling rule: `2n`
/// when `number` is already a power of two, else the least power of two above
/// `number`.
pub fn get_next_power_of_2(number: i32) -> (r: i32)
    requires
        1 <= number,
        number < 0x4000_0000,
        is_pow2(number as int) ==> number <= DIM_LIMIT,
    ensures
        is_next_pot(number as int, r as int),
        r == next_pot_spec(number as int),
        r > number,
        r <= 2 * number,
{
    let mut p: i32 = 1;
    while p < number
        invariant
            1 <= p,
            p < 2 * number,
            number < 0x4000_0000,
            is_pow2(p as int),
        decreases 2 * number - p,
    {
        proof {
            lemma_pow2_double(p as int);
        }
        p = 2 * p;
    }
    let r: i32 = if p == number {
        proof {
            lemma_pow2_double(number as int);
        }
        2 * number
    } else {
        proof {
            if is_pow2(number as int) {
                lemma_pow2_unique(number as int, p as int, number as int);
            }
        }
        p
    };
    proof {
        lemma_next_pot_unique(number as int, r as int);
    }
    r
}

/// The padded width of a glyph under a configuration.
pub open spec fn padded_w(g: GlyphBoundingBoxData, a: Args) -> int {
    a.spec_padded(g.rect.spec_width())
}

/// The padded height of a glyph under a configuration.
pub open spec fn padded_h(g: GlyphBoundingBoxData, a: Args) -> int {
    a.spec_padded(g.rect.spec_height())
}

/// Geometry the planner accepts: an ordered box whose padded dimensions stay
/// under the planner's limit.
pub open spec fn glyph_dims_ok(g: GlyphBoundingBoxData, a: Args) -> bool {
    &&& g.rect.spec_wf()
    &&& padded_w(g, a) <= DIM_LIMIT
    &&& padded_h(g, a) <= DIM_LIMIT
}

/// Width growth: a single glyph whose padded width meets or exceeds the
/// desired atlas width forces the atlas width to the next power of two after
/// that padded width, under the same doubling rule as `get_next_power_of_2`.
pub proof fn lemma_width_growth(r: int, desired: int, glyphs: Seq<GlyphBoundingBoxData>, a: Args)
    requires
        width_policy(r, desired, glyphs, a),
        glyphs.len() == 1,
        desired >= 1,
        padded_w(glyphs[0], a) >= desired,
    ensures
        is_next_pot(padded_w(glyphs[0], a), r),
{
    let w = padded_w(glyphs[0], a);
    assert(glyphs.drop_last().len() == 0);
    assert(max_padded_width(glyphs.drop_last(), a) == 0);
    assert(glyphs.last() == glyphs[0]);
    assert(max_padded_width(glyphs, a) == w);
    assert(is_pow2(r) && w < r <= 2 * w);
    if is_pow2(w) {
        lemma_pow2_double(w);
        lemma_pow2_unique(w + 1, r, 2 * w);
    } else {
        if r == 2 * w {
            assert((2 * w) % 2 == 0);
            assert((2 * w) / 2 == w);
            assert(is_pow2(w));
        }
    }
}

/// Decides whether one glyph's geometry stays within the planner's
/// arithmetic limit.
pub fn glyph_dims_ok_exec(g: &GlyphBoundingBoxData, args: &Args) -> (r: bool)
    requires
        args.spec_wf(),
    ensures
        r == glyph_dims_ok(*g, *args),
{
    if !(g.rect.x_min <= g.rect.x_max && g.rect.y_min <= g.rect.y_max) {
        return false;
    }
    let pw = args.padded_u64(g.rect.width());
    let ph = args.padded_u64(g.rect.height());
    pw <= DIM_LIMIT as u64 && ph <= DIM_LIMIT as u64
}

/// Decides whether every glyph of the list stays within the planner's
/// arithmetic limit.
pub fn all_glyph_dims_ok(glyphs: &Vec<GlyphBoundingBoxData>, args: &Args) -> (r: bool)
    requires
        args.spec_wf(),
    ensures
        r == forall|k: int|
            0 <= k < glyphs@.len() ==> #[trigger] glyph_dims_ok(glyphs@[k], *args),
{
    let n = glyphs.len();
    let mut i: usize = 0;
    while i < n
        invariant
            0 <= i <= n,
            n == glyphs@.len(),
            args.spec_wf(),
            forall|k: int| 0 <= k < i ==> #[trigger] glyph_dims_ok(glyphs@[k], *args),
        decreases n - i,
    {
        let g = glyphs[i];
        if !glyph_dims_ok_exec(&g, args) {
            return false;
        }
        i = i + 1;
    }
    true
}

/// Decides whether the summed padded heights of the workload stay within the
/// planner's arithmetic limit.
pub fn workload_fits(glyphs: &Vec<GlyphBoundingBoxData>, args: &Args) -> (r: bool)
    requires
        args.spec_wf(),
        forall|k: int|
            0 <= k < glyphs@.len() ==> #[trigger] glyph_dims_ok(glyphs@[k], *args),
    ensures
        r == (sum_padded_h(glyphs@, *args) <= DIM_LIMIT),
{
    let ghost s = glyphs@;
    let n = glyphs.len();
    let mut sum: i64 = 0;
    let mut i: usize = 0;
    proof {
        assert(s.take(0).len() == 0);
    }
    while i < n
        invariant
            0 <= i <= n,
            n == s.len(),
            s == glyphs@,
            args.spec_wf(),
            forall|k: int| 0 <= k < s.len() ==> #[trigger] glyph_dims_ok(s[k], *args),
            sum == sum_padded_h(s.take(i as int), *args),
            0 <= sum <= DIM_LIMIT,
        decreases n - i,
    {
        let g = glyphs[i];
        proof {
            assert(glyph_dims_ok(s[i as int], *args));
            crate::args::lemma_scaled_bounds(*args, s[i as int].rect.spec_height());
            lemma_sum_padded_h_take(s, *args, i as int);
        }
        let (_, ph) = g.get_scaled_glyph_dimensions_with_padding(args);
        sum = sum + ph as i64;
        if sum > DIM_LIMIT as i64 {
            proof {
                lemma_sum_take_le_total(s, *args, i as int + 1);
            }
            return false;
        }
        i = i + 1;
    }
    proof {
        assert(s.take(n as int) =~= s);
    }
    true
}

/// A prefix sum of padded heights never exceeds the total.
proof fn lemma_sum_take_le_total(glyphs: Seq<GlyphBoundingBoxData>, a: Args, i: int)
    requires
        0 <= i <= glyphs.len(),
        a.spec_wf(),
        forall|k: int| 0 <= k < glyphs.len() ==> #[trigger] glyph_dims_ok(glyphs[k], a),
    ensures
        sum_padded_h(glyphs.take(i), a) <= sum_padded_h(glyphs, a),
{
    lemma_sum_padded_h_bounds(glyphs, a, i);
    assert(glyphs.take(glyphs.len() as int) =~= glyphs);
}

/// The widest padded glyph of the list; zero for an empty list.
pub open spec fn max_padded_width(glyphs: Seq<GlyphBoundingBoxData>, a: Args) -> int
    decreases glyphs.len(),
{
    if glyphs.len() == 0 {
        0
    } else {
        let m = max_padded_width(glyphs.drop_last(), a);
        let w = padded_w(glyphs.last(), a);
        if w > m {
            w
        } else {
            m
        }
    }
}

/// The width policy of the planner: the atlas keeps the desired width unless
/// some padded glyph meets or exceeds it, in which case the width grows by
/// the doubling rule until the widest glyph fits, landing on the unique power
/// of two in `(m, 2m]` for widest padded width `m`.
pub open spec fn width_policy(r: int, desired: int, glyphs: Seq<GlyphBoundingBoxData>, a: Args) -> bool {
    let m = max_padded_width(glyphs, a);
    &&& (m < desired ==> r == desired)
    &&& (m >= desired ==> is_pow2(r) && m < r <= 2 * m)
}

proof fn lemma_max_padded_width_take(glyphs: Seq<GlyphBoundingBoxData>, a: Args, i: int)
    requires
        0 <= i < glyphs.len(),
    ensures
        max_padded_width(glyphs.take(i + 1), a) == if padded_w(glyphs[i], a) > max_padded_width(
            glyphs.take(i),
            a,
        ) {
            padded_w(glyphs[i], a)
        } else {
            max_padded_width(glyphs.take(i), a)
        },
{
    let t = glyphs.take(i + 1);
    assert(t.drop_last() =~= glyphs.take(i));
    assert(t.last() == glyphs[i]);
}

proof fn lemma_max_padded_width_bounds(glyphs: Seq<GlyphBoundingBoxData>, a: Args, i: int)
    requires
        0 <= i <= glyphs.len(),
        a.spec_wf(),
        forall|k: int| 0 <= k < glyphs.len() ==> #[trigger] glyph_dims_ok(glyphs[k], a),
    ensures
        0 <= max_padded_width(glyphs.take(i), a) <= DIM_LIMIT,
        forall|k: int|
            0 <= k < i ==> #[trigger] padded_w(glyphs[k], a) <= max_padded_width(
                glyphs.take(i),
                a,
            ),
    decreases i,
{
    if i == 0 {
        assert(glyphs.take(0).len() == 0);
    } else {
        lemma_max_padded_width_bounds(glyphs, a, i - 1);
        lemma_max_padded_width_take(glyphs, a, i - 1);
        assert(glyph_dims_ok(glyphs[i - 1], a));
        crate::args::lemma_scaled_bounds(a, glyphs[i - 1].rect.spec_width());
    }
}

/// The atlas width the planner settles on: the desired width, unless some
/// padded glyph meets or exceeds it, in which case the next power of two
/// above the widest padded glyph.
pub open spec fn planned_width(desired: int, glyphs: Seq<GlyphBoundingBoxData>, a: Args) -> int {
    let m = max_padded_width(glyphs, a);
    if m < desired {
        desired
    } else {
        next_pot_spec(m)
    }
}

/// The raw atlas height the shelf cursor reaches: the closed rows plus the
/// open row.
pub open spec fn planned_raw_height(glyphs: Seq<GlyphBoundingBoxData>, a: Args, w: int) -> int {
    if glyphs.len() == 0 {
        0
    } else {
        let st = shelf_state(glyphs, a, w, glyphs.len() as int);
        st.1 + st.2.last()
    }
}

/// The atlas height the planner settles on: the raw shelf height, rounded up
/// by the doubling rule when a power-of-two atlas was requested and the raw
/// height is positive.
pub open spec fn planned_height(glyphs: Seq<GlyphBoundingBoxData>, a: Args, w: int) -> int {
    let raw = planned_raw_height(glyphs, a, w);
    if a.scale_texture_to_po2 && raw >= 1 {
        next_pot_spec(raw)
    } else {
        raw
    }
}

/// Grows the desired atlas width until every padded glyph is narrower,
/// following the doubling rule whenever a glyph meets or exceeds the current
/// width; a single oversized glyph therefore forces the width to the next
/// power of two above its padded width.
pub fn find_best_fit_width(
    desired_width: i32,
    glyph_data: &Vec<GlyphBoundingBoxData>,
    args: &Args,
) -> (r: i32)
    requires
        args.spec_wf(),
        1 <= desired_width <= DIM_LIMIT,
        forall|k: int|
            0 <= k < glyph_data@.len() ==> #[trigger] glyph_dims_ok(glyph_data@[k], *args),
    ensures
        width_policy(r as int, desired_width as int, glyph_data@, *args),
        r == planned_width(desired_width as int, glyph_data@, *args),
        desired_width <= r <= 0x4000_0000,
        forall|k: int| 0 <= k < glyph_data@.len() ==> #[trigger] padded_w(glyph_data@[k], *args) < r,
{
    let ghost s = glyph_data@;
    let mut atlas_width: i32 = desired_width;
    let n = glyph_data.len();
    let mut idx: usize = 0;
    while idx < n
        invariant
            0 <= idx <= n,
            n == s.len(),
            s == glyph_data@,
            args.spec_wf(),
            1 <= desired_width <= DIM_LIMIT,
            forall|k: int| 0 <= k < s.len() ==> #[trigger] glyph_dims_ok(s[k], *args),
            desired_width <= atlas_width <= 0x4000_0000,
            width_policy(atlas_width as int, desired_width as int, s.take(idx as int), *args),
        decreases n - idx,
    {
        let ghost m_prev = max_padded_width(s.take(idx as int), *args);
        proof {
            lemma_max_padded_width_bounds(s, *args, idx as int);
            assert(glyph_dims_ok(s[idx as int], *args));
        }
        let g = glyph_data[idx];
        let (scaled_width, _) = g.get_scaled_glyph_dimensions_with_padding(args);
        let ghost w = padded_w(s[idx as int], *args);
        proof {
            crate::args::lemma_scaled_bounds(*args, s[idx as int].rect.spec_width());
        }
        let ghost entry_width = atlas_width as int;
        while scaled_width >= atlas_width
            invariant
                args.spec_wf(),
                scaled_width == w,
                0 <= w <= DIM_LIMIT,
                1 <= atlas_width <= 0x4000_0000,
                desired_width <= atlas_width,
                atlas_width == entry_width || (is_pow2(atlas_width as int) && atlas_width <= 2
                    * w),
                atlas_width <= entry_width || atlas_width <= 2 * w,
                atlas_width == entry_width || w >= entry_width,
            decreases 2 * w - atlas_width,
        {
            atlas_width = get_next_power_of_2(atlas_width);
        }
        proof {
            lemma_max_padded_width_take(s, *args, idx as int);
            let m_new = max_padded_width(s.take(idx as int + 1), *args);
            if atlas_width == entry_width {
                // the glyph was already narrower than the current width
                assert(w < atlas_width);
                if m_prev < desired_width {
                    assert(atlas_width == desired_width);
                    assert(m_new < desired_width);
                } else {
                    assert(m_prev < atlas_width <= 2 * m_prev);
                    assert(m_new < atlas_width <= 2 * m_new);
                }
            } else {
                assert(is_pow2(atlas_width as int) && w < atlas_width <= 2 * w);
                assert(w >= entry_width >= desired_width);
                assert(w >= m_prev || m_prev < entry_width);
                assert(m_new == w || m_new == m_prev);
                if m_new == m_prev && m_prev > w {
                    // a previous glyph was wider, yet the width still grew:
                    // impossible, since the previous width already exceeded it
                    assert(m_prev < entry_width <= w);
                    assert(false);
                }
                assert(m_new == w);
            }
            assert(width_policy(atlas_width as int, desired_width as int, s.take(idx as int + 1), *args));
        }
        idx = idx + 1;
    }
    proof {
        assert(s.take(n as int) =~= s);
        lemma_max_padded_width_bounds(s, *args, n as int);
        let m = max_padded_width(s, *args);
        assert forall|k: int| 0 <= k < s.len() implies #[trigger] padded_w(s[k], *args)
            < atlas_width by {
            assert(padded_w(s[k], *args) <= m);
        }
        if m >= desired_width {
            lemma_next_pot_spec(m);
            let p = next_pot_spec(m);
            if atlas_width != p {
                lemma_pow2_unique(m + 1, atlas_width as int, p);
            }
        }
    }
    atlas_width
}

/// One glyph of a layout plan: the glyph, its placement offset inside the
/// atlas, the size of the bitmap it reserves (scaled, unpadded), and the
/// stride it occupies on its shelf (scaled plus padding).
#[derive(Clone, Copy)]
pub struct PlacedGlyph {
    pub glyph: GlyphBoundingBoxData,
    pub x: i32,
    pub y: i32,
    pub width: i32,
    pub height: i32,
    pub padded_width: i32,
    pub padded_height: i32,
}

/// The result of the shelf layout: final atlas dimensions, one placement per
/// glyph in rank order, and the height of each shelf row.
pub struct LayoutPlan {
    pub atlas_width: u32,
    pub atlas_height: u32,
    pub entries: Vec<PlacedGlyph>,
    pub line_heights: Vec<i32>,
}

/// The shelf cursor after placing the first `i` glyphs into rows of width
/// `w`: the x cursor, the y offset of the open row, and the heights of all
/// rows opened so far (the open row last). The first row's height is fixed by
/// the first glyph before any placement.
pub open spec fn shelf_state(
    glyphs: Seq<GlyphBoundingBoxData>,
    a: Args,
    w: int,
    i: int,
) -> (int, int, Seq<int>)
    decreases i,
{
    if i <= 0 {
        (0, 0, seq![padded_h(glyphs[0], a)])
    } else {
        let (x, y, hs) = shelf_state(glyphs, a, w, i - 1);
        let pw = padded_w(glyphs[i - 1], a);
        let ph = padded_h(glyphs[i - 1], a);
        if x + pw >= w {
            (pw, y + hs.last(), hs.push(ph))
        } else {
            (x + pw, y, hs)
        }
    }
}

/// The placement offset of glyph `i`: the cursor after its predecessors,
/// wrapped to a fresh row when the glyph's padded width no longer fits.
pub open spec fn shelf_pos(glyphs: Seq<GlyphBoundingBoxData>, a: Args, w: int, i: int) -> (
    int,
    int,
) {
    let (x, y, hs) = shelf_state(glyphs, a, w, i);
    if x + padded_w(glyphs[i], a) >= w {
        (0, y + hs.last())
    } else {
        (x, y)
    }
}

/// The sum of the padded heights of the glyphs: an upper bound on the raw
/// atlas height.
pub open spec fn sum_padded_h(glyphs: Seq<GlyphBoundingBoxData>, a: Args) -> int
    decreases glyphs.len(),
{
    if glyphs.len() == 0 {
        0
    } else {
        sum_padded_h(glyphs.drop_last(), a) + padded_h(glyphs.last(), a)
    }
}

proof fn lemma_sum_padded_h_take(glyphs: Seq<GlyphBoundingBoxData>, a: Args, i: int)
    requires
        0 <= i < glyphs.len(),
    ensures
        sum_padded_h(glyphs.take(i + 1), a) == sum_padded_h(glyphs.take(i), a) + padded_h(
            glyphs[i],
            a,
        ),
{
    let t = glyphs.take(i + 1);
    assert(t.drop_last() =~= glyphs.take(i));
    assert(t.last() == glyphs[i]);
}

proof fn lemma_sum_padded_h_bounds(glyphs: Seq<GlyphBoundingBoxData>, a: Args, i: int)
    requires
        0 <= i <= glyphs.len(),
        a.spec_wf(),
        forall|k: int| 0 <= k < glyphs.len() ==> #[trigger] glyph_dims_ok(glyphs[k], a),
    ensures
        sum_padded_h(glyphs.take(i), a) <= sum_padded_h(glyphs.take(glyphs.len() as int), a),
        0 <= sum_padded_h(glyphs.take(i), a),
    decreases glyphs.len() - i,
{
    if i == glyphs.len() {
        lemma_sum_padded_h_nonneg(glyphs, a, i);
    } else {
        lemma_sum_padded_h_bounds(glyphs, a, i + 1);
        lemma_sum_padded_h_take(glyphs, a, i);
        assert(glyph_dims_ok(glyphs[i], a));
        crate::args::lemma_scaled_bounds(a, glyphs[i].rect.spec_height());
        lemma_sum_padded_h_nonneg(glyphs, a, i);
    }
}

proof fn lemma_sum_padded_h_nonneg(glyphs: Seq<GlyphBoundingBoxData>, a: Args, i: int)
    requires
        0 <= i <= glyphs.len(),
        a.spec_wf(),
        forall|k: int| 0 <= k < glyphs.len() ==> #[trigger] glyph_dims_ok(glyphs[k], a),
    ensures
        0 <= sum_padded_h(glyphs.take(i), a),
    decreases i,
{
    if i > 0 {
        lemma_sum_padded_h_nonneg(glyphs, a, i - 1);
        lemma_sum_padded_h_take(glyphs, a, i - 1);
        assert(glyph_dims_ok(glyphs[i - 1], a));
        crate::args::lemma_scaled_bounds(a, glyphs[i - 1].rect.spec_height());
    } else {
        assert(glyphs.take(0).len() == 0);
    }
}

/// A placement lies inside the atlas, padding included.
pub open spec fn entry_in_bounds(e: PlacedGlyph, w: int, h: int) -> bool {
    &&& 0 <= e.x && e.x + e.padded_width <= w
    &&& 0 <= e.y && e.y + e.padded_height <= h
}

/// The padded footprints of two placements do not overlap.
pub open spec fn entry_disjoint(e1: PlacedGlyph, e2: PlacedGlyph) -> bool {
    ||| e1.x + e1.padded_width <= e2.x
    ||| e2.x + e2.padded_width <= e1.x
    ||| e1.y + e1.padded_height <= e2.y
    ||| e2.y + e2.padded_height <= e1.y
}

/// A geometrically sound plan: every placement lies inside the atlas, no two
/// padded footprints overlap, and every bitmap fits inside its padded cell.
pub open spec fn plan_wf(p: LayoutPlan) -> bool {
    &&& forall|i: int|
        0 <= i < p.entries@.len() ==> entry_in_bounds(
            #[trigger] p.entries@[i],
            p.atlas_width as int,
            p.atlas_height as int,
        )
    &&& forall|i: int, j: int|
        0 <= i < j < p.entries@.len() ==> entry_disjoint(p.entries@[i], p.entries@[j])
    &&& forall|i: int|
        0 <= i < p.entries@.len() ==> 0 <= #[trigger] p.entries@[i].width
            <= p.entries@[i].padded_width && 0 <= p.entries@[i].height
            <= p.entries@[i].padded_height
}

/// No two placement rectangles of a plan overlap, even without their padding:
/// the disjointness that licenses writing every glyph's pixels through
/// independent views of one shared buffer.
pub proof fn lemma_placements_disjoint(p: LayoutPlan, i: int, j: int)
    requires
        plan_wf(p),
        0 <= i < p.entries@.len(),
        0 <= j < p.entries@.len(),
        i != j,
    ensures
        ({
            let e1 = p.entries@[i];
            let e2 = p.entries@[j];
            ||| e1.x + e1.width <= e2.x
            ||| e2.x + e2.width <= e1.x
            ||| e1.y + e1.height <= e2.y
            ||| e2.y + e2.height <= e1.y
        }),
{
    if i < j {
        assert(entry_disjoint(p.entries@[i], p.entries@[j]));
    } else {
        assert(entry_disjoint(p.entries@[j], p.entries@[i]));
    }
}

/// Computes the atlas width, the (optionally power-of-two rounded) atlas
/// height, and the per-row heights for a ranked glyph list, recording every
/// visited character in the tracker, one trace line per shelf row.
pub fn calculate_minimum_atlas_dimensions(
    glyph_data: &Vec<GlyphBoundingBoxData>,
    args: &Args,
    tracker: &mut crate::tracker::CharTracker,
) -> (r: (u32, u32, Vec<i32>))
    requires
        args.spec_wf(),
        1 <= args.max_atlas_width <= DIM_LIMIT,
        glyph_data@.len() >= 1,
        forall|k: int|
            0 <= k < glyph_data@.len() ==> #[trigger] glyph_dims_ok(glyph_data@[k], *args),
        forall|j: int, k: int|
            0 <= j < k < glyph_data@.len() ==> padded_h(glyph_data@[j], *args) >= padded_h(
                glyph_data@[k],
                *args,
            ),
        sum_padded_h(glyph_data@, *args) <= DIM_LIMIT,
    ensures
        width_policy(r.0 as int, args.max_atlas_width as int, glyph_data@, *args),
        r.0 == planned_width(args.max_atlas_width as int, glyph_data@, *args),
        r.1 == planned_height(glyph_data@, *args, r.0 as int),
        ({
            let st = shelf_state(glyph_data@, *args, r.0 as int, glyph_data@.len() as int);
            let raw = st.1 + st.2.last();
            &&& r.2@.map_values(|v: i32| v as int) == st.2
            &&& (if args.scale_texture_to_po2 && raw >= 1 {
                is_next_pot(raw, r.1 as int)
            } else {
                r.1 == raw
            })
        }),
        final(tracker).spec_tracked() == old(tracker).spec_tracked() + glyph_data@.map_values(
            |g: GlyphBoundingBoxData| g.unicode,
        ),
        final(tracker).current@.len() == 0,
{
    let plan = plan_layout(glyph_data, args);
    let n = glyph_data.len();
    let ghost s = glyph_data@;
    let ghost to_char = |g: GlyphBoundingBoxData| g.unicode;
    let mut k: usize = 0;
    proof {
        assert(s.take(0).map_values(to_char) =~= Seq::<char>::empty());
        assert(old(tracker).spec_tracked() + s.take(0).map_values(to_char) =~= old(
            tracker,
        ).spec_tracked());
    }
    while k < n
        invariant
            0 <= k <= n,
            n == s.len(),
            s == glyph_data@,
            n == plan.entries@.len(),
            forall|i: int| 0 <= i < n ==> (#[trigger] plan.entries@[i]).glyph == s[i],
            to_char == (|g: GlyphBoundingBoxData| g.unicode),
            tracker.spec_tracked() == old(tracker).spec_tracked() + s.take(k as int).map_values(
                to_char,
            ),
        decreases n - k,
    {
        if k > 0 {
            let prev_y = plan.entries[k - 1].y;
            let cur_y = plan.entries[k].y;
            if cur_y != prev_y {
                tracker.flush_chars();
            }
        }
        let c = glyph_data[k].unicode;
        tracker.track_char(c);
        proof {
            assert(s.take(k as int + 1).map_values(to_char) =~= s.take(k as int).map_values(
                to_char,
            ).push(s[k as int].unicode));
        }
        k = k + 1;
    }
    tracker.flush_chars();
    proof {
        assert(s.take(n as int) =~= s);
    }
    (plan.atlas_width, plan.atlas_height, plan.line_heights)
}

/// Lays the ranked glyphs out on shelves: a cursor walks left to right,
/// wrapping to a fresh row whenever the next padded width would reach the
/// atlas width; each row is as tall as its first (tallest) glyph. Produces
/// the final atlas dimensions, the placement of every glyph in rank order,
/// and the per-row heights. An empty glyph list gives the empty plan of zero
/// dimensions.
pub fn plan_layout(glyph_data: &Vec<GlyphBoundingBoxData>, args: &Args) -> (r: LayoutPlan)
    requires
        args.spec_wf(),
        1 <= args.max_atlas_width <= DIM_LIMIT,
        forall|k: int|
            0 <= k < glyph_data@.len() ==> #[trigger] glyph_dims_ok(glyph_data@[k], *args),
        forall|j: int, k: int|
            0 <= j < k < glyph_data@.len() ==> padded_h(glyph_data@[j], *args) >= padded_h(
                glyph_data@[k],
                *args,
            ),
        sum_padded_h(glyph_data@, *args) <= DIM_LIMIT,
    ensures
        glyph_data@.len() == 0 ==> r.atlas_width == 0 && r.atlas_height == 0 && r.entries@.len()
            == 0 && r.line_heights@.len() == 0,
        r.entries@.len() == glyph_data@.len(),
        plan_wf(r),
        forall|i: int|
            0 <= i < r.entries@.len() ==> (#[trigger] r.entries@[i]).glyph == glyph_data@[i],
        forall|i: int|
            0 <= i < r.entries@.len() ==> (#[trigger] r.entries@[i]).width == args.spec_scaled(
                glyph_data@[i].rect.spec_width(),
            ) && r.entries@[i].height == args.spec_scaled(glyph_data@[i].rect.spec_height())
                && r.entries@[i].padded_width == padded_w(glyph_data@[i], *args)
                && r.entries@[i].padded_height == padded_h(glyph_data@[i], *args),
        glyph_data@.len() > 0 ==> width_policy(
            r.atlas_width as int,
            args.max_atlas_width as int,
            glyph_data@,
            *args,
        ),
        glyph_data@.len() > 0 ==> r.atlas_width == planned_width(
            args.max_atlas_width as int,
            glyph_data@,
            *args,
        ),
        glyph_data@.len() > 0 ==> r.atlas_height == planned_height(
            glyph_data@,
            *args,
            r.atlas_width as int,
        ),
        forall|i: int|
            0 <= i < r.entries@.len() ==> (r.entries@[i].x as int, r.entries@[i].y as int)
                == shelf_pos(glyph_data@, *args, r.atlas_width as int, i),
        glyph_data@.len() > 0 ==> ({
            let st = shelf_state(
                glyph_data@,
                *args,
                r.atlas_width as int,
                glyph_data@.len() as int,
            );
            let raw = st.1 + st.2.last();
            &&& r.line_heights@.map_values(|v: i32| v as int) == st.2
            &&& (if args.scale_texture_to_po2 && raw >= 1 {
                is_next_pot(raw, r.atlas_height as int)
            } else {
                r.atlas_height == raw
            })
        }),
{
    let n = glyph_data.len();
    if n == 0 {
        return LayoutPlan {
            atlas_width: 0,
            atlas_height: 0,
            entries: Vec::new(),
            line_heights: Vec::new(),
        };
    }
    let ghost s = glyph_data@;
    let ghost a = *args;
    let w: i32 = find_best_fit_width(args.max_atlas_width as i32, glyph_data, args);
    let ghost wi = w as int;

    let mut entries: Vec<PlacedGlyph> = Vec::new();
    let mut line_heights: Vec<i32> = Vec::new();

    // the first row is as tall as the first glyph, which never wraps
    let g0 = glyph_data[0];
    proof {
        assert(glyph_dims_ok(s[0], a));
        assert(padded_w(s[0], a) < wi);
        crate::args::lemma_scaled_bounds(a, s[0].rect.spec_width());
        crate::args::lemma_scaled_bounds(a, s[0].rect.spec_height());
    }
    let (pw0, ph0) = g0.get_scaled_glyph_dimensions_with_padding(args);
    let (sw0, sh0) = g0.get_scaled_glyph_dimensions_no_padding(args);
    line_heights.push(ph0);
    entries.push(
        PlacedGlyph {
            glyph: g0,
            x: 0,
            y: 0,
            width: sw0,
            height: sh0,
            padded_width: pw0,
            padded_height: ph0,
        },
    );
    let mut x: i32 = pw0;
    let mut y: i32 = 0;
    let mut row_h: i32 = ph0;
    let ghost mut row_start: int = 0;
    proof {
        assert(s.take(1).len() == 1);
        assert(s.take(1)[0] == s[0]);
        assert(s.take(1).last() == s[0]);
        assert(s.take(1).drop_last() =~= s.take(0));
        assert(s.take(0).len() == 0);
        assert(sum_padded_h(s.take(0), a) == 0);
        assert(sum_padded_h(s.take(1), a) == padded_h(s[0], a));
        lemma_sum_padded_h_bounds(s, a, 1);
        assert(s.take(n as int) =~= s);
        assert(shelf_state(s, a, wi, 0) == (0int, 0int, seq![padded_h(s[0], a)]));
        assert(0 + padded_w(s[0], a) < wi);
        assert(shelf_state(s, a, wi, 1) == (padded_w(s[0], a), 0int, seq![padded_h(s[0], a)]));
        assert(line_heights@.map_values(|v: i32| v as int) =~= seq![padded_h(s[0], a)]);
        assert(shelf_pos(s, a, wi, 0) == (0int, 0int));
    }

    let mut i: usize = 1;
    while i < n
        invariant
            1 <= i <= n,
            n == s.len(),
            s == glyph_data@,
            a == *args,
            args.spec_wf(),
            1 <= args.max_atlas_width <= DIM_LIMIT,
            forall|k: int| 0 <= k < s.len() ==> #[trigger] glyph_dims_ok(s[k], a),
            forall|j: int, k: int|
                0 <= j < k < s.len() ==> padded_h(s[j], a) >= padded_h(s[k], a),
            sum_padded_h(s.take(n as int), a) <= DIM_LIMIT,
            forall|k: int| 0 <= k < s.len() ==> #[trigger] padded_w(s[k], a) < wi,
            wi == w as int,
            1 <= w <= 0x4000_0000,
            entries@.len() == i,
            forall|k: int| 0 <= k < i ==> (#[trigger] entries@[k]).glyph == s[k],
            forall|k: int|
                0 <= k < i ==> (#[trigger] entries@[k]).width == a.spec_scaled(
                    s[k].rect.spec_width(),
                ) && entries@[k].height == a.spec_scaled(s[k].rect.spec_height())
                    && entries@[k].padded_width == padded_w(s[k], a) && entries@[k].padded_height
                    == padded_h(s[k], a),
            forall|k: int|
                0 <= k < i ==> (entries@[k].x as int, entries@[k].y as int) == shelf_pos(
                    s,
                    a,
                    wi,
                    k,
                ),
            (x as int, y as int) == (shelf_state(s, a, wi, i as int).0, shelf_state(
                s,
                a,
                wi,
                i as int,
            ).1),
            line_heights@.map_values(|v: i32| v as int) == shelf_state(s, a, wi, i as int).2,
            line_heights@.len() >= 1,
            row_h as int == shelf_state(s, a, wi, i as int).2.last(),
            0 <= row_start < i,
            row_h as int == padded_h(s[row_start], a),
            0 <= x < w,
            0 <= y,
            0 <= row_h,
            y + row_h <= sum_padded_h(s.take(i as int), a),
            forall|k: int|
                0 <= k < row_start ==> (#[trigger] entries@[k]).y + entries@[k].padded_height
                    <= y,
            forall|k: int| row_start <= k < i ==> (#[trigger] entries@[k]).y == y,
            forall|k: int|
                row_start <= k < i ==> (#[trigger] entries@[k]).x + entries@[k].padded_width
                    <= x,
            forall|j: int, k: int|
                row_start <= j < k < i ==> entries@[j].x + entries@[j].padded_width
                    <= entries@[k].x,
            forall|k: int|
                0 <= k < i ==> 0 <= (#[trigger] entries@[k]).x && entries@[k].x
                    + entries@[k].padded_width <= wi && 0 <= entries@[k].y,
            forall|k: int|
                0 <= k < i ==> 0 <= (#[trigger] entries@[k]).width <= entries@[k].padded_width
                    && 0 <= entries@[k].height <= entries@[k].padded_height,
            forall|j: int, k: int|
                0 <= j < k < i ==> entry_disjoint(entries@[j], entries@[k]),
        decreases n - i,
    {
        let g = glyph_data[i];
        proof {
            assert(glyph_dims_ok(s[i as int], a));
            assert(padded_w(s[i as int], a) < wi);
            crate::args::lemma_scaled_bounds(a, s[i as int].rect.spec_width());
            crate::args::lemma_scaled_bounds(a, s[i as int].rect.spec_height());
            lemma_sum_padded_h_take(s, a, i as int);
            lemma_sum_padded_h_bounds(s, a, i as int + 1);
        }
        let (pw, ph) = g.get_scaled_glyph_dimensions_with_padding(args);
        let (sw, sh) = g.get_scaled_glyph_dimensions_no_padding(args);
        let ghost st_i = shelf_state(s, a, wi, i as int);
        if x + pw >= w {
            let new_y = y + row_h;
            line_heights.push(ph);
            proof {
                assert(line_heights@.map_values(|v: i32| v as int) =~= st_i.2.push(ph as int));
                assert forall|k: int|
                    0 <= k < i implies (#[trigger] entries@[k]).y + entries@[k].padded_height
                    <= new_y by {
                    if k >= row_start {
                        assert(padded_h(s[k], a) <= padded_h(s[row_start], a));
                    }
                }
            }
            entries.push(
                PlacedGlyph {
                    glyph: g,
                    x: 0,
                    y: new_y,
                    width: sw,
                    height: sh,
                    padded_width: pw,
                    padded_height: ph,
                },
            );
            proof {
                assert forall|j: int, k: int|
                    0 <= j < k < i + 1 implies entry_disjoint(entries@[j], entries@[k]) by {
                    if k == i {
                        assert(entries@[j].y + entries@[j].padded_height <= new_y);
                    }
                }
                row_start = i as int;
            }
            x = pw;
            y = new_y;
            row_h = ph;
        } else {
            entries.push(
                PlacedGlyph {
                    glyph: g,
                    x,
                    y,
                    width: sw,
                    height: sh,
                    padded_width: pw,
                    padded_height: ph,
                },
            );
            proof {
                assert forall|j: int, k: int|
                    0 <= j < k < i + 1 implies entry_disjoint(entries@[j], entries@[k]) by {
                    if k == i {
                        if j >= row_start {
                            assert(entries@[j].x + entries@[j].padded_width <= x);
                        } else {
                            assert(entries@[j].y + entries@[j].padded_height <= y);
                        }
                    }
                }
            }
            x = x + pw;
        }
        i = i + 1;
    }

    let raw_h: i32 = y + row_h;
    proof {
        assert(s.take(n as int) =~= s);
    }
    let height: i32 = if args.scale_texture_to_po2 && raw_h >= 1 {
        get_next_power_of_2(raw_h)
    } else {
        raw_h
    };
    proof {
        let st = shelf_state(s, a, wi, n as int);
        assert(raw_h == st.1 + st.2.last());
        assert(raw_h == planned_raw_height(s, a, wi));
        assert(height == planned_height(s, a, wi));
        assert forall|k: int|
            0 <= k < entries@.len() implies entry_in_bounds(
            #[trigger] entries@[k],
            wi,
            height as int,
        ) by {
            if k >= row_start {
                assert(entries@[k].y == y);
                assert(entries@[k].padded_height == padded_h(s[k], a));
                assert(padded_h(s[k], a) <= padded_h(s[row_start], a));
            } else {
                assert(entries@[k].y + entries@[k].padded_height <= y);
            }
        }
    }
    LayoutPlan { atlas_width: w as u32, atlas_height: height as u32, entries, line_heights }
}

} // verus!
