use vstd::prelude::*;

use crate::args::Args;
use vstd::pervasive::VecAdditionalExecFns;

verus! {

/// A glyph bounding box in font design units.
///
/// Mirrors what the font reports; the font may report boxes whose minimum
/// exceeds their maximum, so well-formedness is a separate predicate that the
/// collection stage establishes by normalizing degenerate boxes.
#[derive(Clone, Copy, PartialEq, Eq, Structural, Debug)]
pub struct RectData {
    pub x_min: i16,
    pub y_min: i16,
    pub x_max: i16,
    pub y_max: i16,
}

impl RectData {
    /// An ordered rectangle: minima do not exceed maxima.
    pub open spec fn spec_wf(self) -> bool {
        self.x_min <= self.x_max && self.y_min <= self.y_max
    }

    /// The rectangle of zero extent at the origin.
    pub fn zero() -> (r: RectData)
        ensures
            r == (RectData { x_min: 0i16, y_min: 0i16, x_max: 0i16, y_max: 0i16 }),
            r.spec_wf(),
    {
        RectData { x_min: 0, y_min: 0, x_max: 0, y_max: 0 }
    }

    /// The width of the rectangle in font units.
    pub open spec fn spec_width(self) -> int {
        self.x_max - self.x_min
    }

    /// The height of the rectangle in font units.
    pub open spec fn spec_height(self) -> int {
        self.y_max - self.y_min
    }

    /// Returns the rectangle's width; negative when the box is malformed.
    pub fn width(&self) -> (r: i32)
        ensures
            r == self.spec_width(),
    {
        self.x_max as i32 - self.x_min as i32
    }

    /// Returns the rectangle's height; negative when the box is malformed.
    pub fn height(&self) -> (r: i32)
        ensures
            r == self.spec_height(),
    {
        self.y_max as i32 - self.y_min as i32
    }
}

/// A glyph's bounding box, the unicode character it renders, and its index in
/// the font, collected once per atlas build and discarded after placement.
#[derive(Clone, Copy)]
pub struct GlyphBoundingBoxData {
    pub rect: RectData,
    pub unicode: char,
    pub glyph_index: u16,
}

impl GlyphBoundingBoxData {
    pub fn new(unicode: char, glyph_index: u16, rect: RectData) -> (r: GlyphBoundingBoxData)
        ensures
            r.unicode == unicode,
            r.glyph_index == glyph_index,
            r.rect == rect,
    {
        GlyphBoundingBoxData { rect, glyph_index, unicode }
    }

    /// The bounding box area in square font units.
    pub open spec fn spec_area(self) -> int {
        self.rect.spec_width() * self.rect.spec_height()
    }

    /// The area of the bounding box, the within-bucket packing priority.
    pub fn area(&self) -> (r: i32)
        requires
            self.rect.spec_wf(),
            self.spec_area() <= i32::MAX,
        ensures
            r == self.spec_area(),
    {
        proof {
            assert(0 <= self.rect.spec_width() * self.rect.spec_height()) by (nonlinear_arith)
                requires
                    self.rect.spec_width() >= 0,
                    self.rect.spec_height() >= 0,
            ;
        }
        self.rect.width() * self.rect.height()
    }

    /// Scaled width and height including the padding gap: the stride the
    /// glyph occupies in the atlas.
    pub fn get_scaled_glyph_dimensions_with_padding(&self, args: &Args) -> (r: (i32, i32))
        requires
            args.spec_wf(),
            self.rect.spec_wf(),
            args.spec_padded(self.rect.spec_width()) <= i32::MAX,
            args.spec_padded(self.rect.spec_height()) <= i32::MAX,
        ensures
            r.0 == args.spec_padded(self.rect.spec_width()),
            r.1 == args.spec_padded(self.rect.spec_height()),
    {
        proof {
            lemma_rect_units_bounded(self.rect, *args);
        }
        let width = args.scale_dimension_with_padding(self.rect.width());
        let height = args.scale_dimension_with_padding(self.rect.height());
        (width, height)
    }

    /// Scaled width and height without padding: the size of the bitmap the
    /// renderer is asked for.
    pub fn get_scaled_glyph_dimensions_no_padding(&self, args: &Args) -> (r: (i32, i32))
        requires
            args.spec_wf(),
            self.rect.spec_wf(),
            args.spec_scaled(self.rect.spec_width()) <= i32::MAX,
            args.spec_scaled(self.rect.spec_height()) <= i32::MAX,
        ensures
            r.0 == args.spec_scaled(self.rect.spec_width()),
            r.1 == args.spec_scaled(self.rect.spec_height()),
    {
        proof {
            lemma_rect_units_bounded(self.rect, *args);
            crate::args::lemma_scaled_bounds(*args, self.rect.spec_width());
            crate::args::lemma_scaled_bounds(*args, self.rect.spec_height());
        }
        let width = args.scale_dimension(self.rect.width());
        let height = args.scale_dimension(self.rect.height());
        (width, height)
    }

    /// The vertical bearing of the glyph relative to the face's ascender.
    pub fn calculate_bearings_y(&self, ascender: i32) -> (r: i32)
        requires
            i32::MIN <= self.rect.y_max - ascender <= i32::MAX,
        ensures
            r == self.rect.y_max - ascender,
    {
        self.rect.y_max as i32 - ascender
    }

    /// The untransformed width and height of the bounding box in font units.
    pub fn get_metrics(&self) -> (r: (i32, i32))
        ensures
            r.0 == self.rect.spec_width(),
            r.1 == self.rect.spec_height(),
    {
        (self.rect.width(), self.rect.height())
    }
}

/// The packing priority order: taller (scaled and padded) glyphs come first,
/// and within a height bucket glyphs of larger bounding-box area come first.
/// Ties keep their encounter order, so ranking is deterministic.
pub open spec fn rank_before(x: GlyphBoundingBoxData, y: GlyphBoundingBoxData, a: Args) -> bool {
    ||| crate::layout::padded_h(x, a) > crate::layout::padded_h(y, a)
    ||| (crate::layout::padded_h(x, a) == crate::layout::padded_h(y, a) && x.spec_area()
        > y.spec_area())
}

/// `x` may stand before `y` in rank order.
pub open spec fn rank_le(x: GlyphBoundingBoxData, y: GlyphBoundingBoxData, a: Args) -> bool {
    !rank_before(y, x, a)
}

/// The sequence is in rank order: non-increasing padded height, and
/// non-increasing area within each height bucket.
pub open spec fn sorted_by_rank(s: Seq<GlyphBoundingBoxData>, a: Args) -> bool {
    forall|i: int, j: int| 0 <= i < j < s.len() ==> rank_le(s[i], s[j], a)
}

/// Decides the packing priority of two glyphs.
fn rank_before_exec(x: &GlyphBoundingBoxData, y: &GlyphBoundingBoxData, args: &Args) -> (r: bool)
    requires
        args.spec_wf(),
        crate::layout::glyph_dims_ok(*x, *args),
        crate::layout::glyph_dims_ok(*y, *args),
    ensures
        r == rank_before(*x, *y, *args),
{
    let (_, xh) = x.get_scaled_glyph_dimensions_with_padding(args);
    let (_, yh) = y.get_scaled_glyph_dimensions_with_padding(args);
    if xh != yh {
        xh > yh
    } else {
        proof {
            assert(0 <= x.rect.spec_width() * x.rect.spec_height() <= 0x1_0000_0000)
                by (nonlinear_arith)
                requires
                    0 <= x.rect.spec_width() <= 0x1_0000,
                    0 <= x.rect.spec_height() <= 0x1_0000,
            ;
            assert(0 <= y.rect.spec_width() * y.rect.spec_height() <= 0x1_0000_0000)
                by (nonlinear_arith)
                requires
                    0 <= y.rect.spec_width() <= 0x1_0000,
                    0 <= y.rect.spec_height() <= 0x1_0000,
            ;
        }
        let xa: i64 = (x.rect.width() as i64) * (x.rect.height() as i64);
        let ya: i64 = (y.rect.width() as i64) * (y.rect.height() as i64);
        xa > ya
    }
}

/// Swapping two elements of a sequence preserves its multiset of elements.
pub proof fn lemma_swap_multiset<T>(s: Seq<T>, i: int, j: int)
    requires
        0 <= i < s.len(),
        0 <= j < s.len(),
        i != j,
    ensures
        s.update(i, s[j]).update(j, s[i]).to_multiset() == s.to_multiset(),
{
    broadcast use vstd::seq_lib::group_to_multiset_ensures;

    let s1 = s.update(i, s[j]);
    let s2 = s1.update(j, s[i]);
    assert(s1[j] == s[j]);
    assert(s1.to_multiset() == s.to_multiset().insert(s[j]).remove(s[i]));
    assert(s2.to_multiset() == s1.to_multiset().insert(s[i]).remove(s1[j]));
    assert(s2.to_multiset() =~= s.to_multiset());
}

/// Inserts one glyph into an already ranked sequence: it lands in front of
/// the first glyph it strictly outranks, so it comes after every glyph of
/// equal priority — the insertion step of a stable sort.
pub open spec fn stable_insert(sorted: Seq<GlyphBoundingBoxData>, x: GlyphBoundingBoxData, a: Args) -> Seq<
    GlyphBoundingBoxData,
>
    decreases sorted.len(),
{
    if sorted.len() == 0 {
        seq![x]
    } else if rank_before(x, sorted.first(), a) {
        seq![x] + sorted
    } else {
        seq![sorted.first()] + stable_insert(sorted.drop_first(), x, a)
    }
}

/// The stable sort by rank: each glyph inserted into the ranking of its
/// predecessors, so glyphs of equal priority keep their encounter order.
pub open spec fn stable_rank_sort(s: Seq<GlyphBoundingBoxData>, a: Args) -> Seq<
    GlyphBoundingBoxData,
>
    decreases s.len(),
{
    if s.len() == 0 {
        Seq::empty()
    } else {
        stable_insert(stable_rank_sort(s.drop_last(), a), s.last(), a)
    }
}

/// In a ranked sequence, a stable insertion lands exactly where the inserted
/// glyph stops strictly outranking its predecessor.
proof fn lemma_stable_insert_at(
    sorted: Seq<GlyphBoundingBoxData>,
    x: GlyphBoundingBoxData,
    a: Args,
    j: int,
)
    requires
        sorted_by_rank(sorted, a),
        0 <= j <= sorted.len(),
        forall|k: int| j <= k < sorted.len() ==> rank_before(x, #[trigger] sorted[k], a),
        j == 0 || !rank_before(x, sorted[j - 1], a),
    ensures
        stable_insert(sorted, x, a) == sorted.take(j) + seq![x] + sorted.skip(j),
    decreases sorted.len(),
{
    if sorted.len() == 0 {
        assert(stable_insert(sorted, x, a) =~= sorted.take(j) + seq![x] + sorted.skip(j));
    } else if j == 0 {
        assert(rank_before(x, sorted[0], a));
        assert(stable_insert(sorted, x, a) =~= sorted.take(0) + seq![x] + sorted.skip(0));
    } else {
        // x does not strictly outrank the glyph at j - 1; the head ranks at
        // or above that glyph, so x does not strictly outrank the head either
        if j - 1 > 0 {
            assert(rank_le(sorted[0], sorted[j - 1], a));
        }
        assert(!rank_before(x, sorted.first(), a));
        let tail = sorted.drop_first();
        assert forall|p: int, q: int|
            0 <= p < q < tail.len() implies rank_le(#[trigger] tail[p], #[trigger] tail[q], a) by {
            assert(tail[p] == sorted[p + 1] && tail[q] == sorted[q + 1]);
            assert(rank_le(sorted[p + 1], sorted[q + 1], a));
        }
        assert forall|k: int| j - 1 <= k < tail.len() implies rank_before(
            x,
            #[trigger] tail[k],
            a,
        ) by {
            assert(tail[k] == sorted[k + 1]);
        }
        lemma_stable_insert_at(tail, x, a, j - 1);
        assert(stable_insert(sorted, x, a) == seq![sorted.first()] + (tail.take(j - 1) + seq![x]
            + tail.skip(j - 1)));
        assert(seq![sorted.first()] + (tail.take(j - 1) + seq![x] + tail.skip(j - 1))
            =~= sorted.take(j) + seq![x] + sorted.skip(j));
    }
}

/// Sorts the glyphs into rank order with a stable insertion sort: the result
/// is exactly the stable sort of the input — non-increasing padded height,
/// non-increasing area within each height bucket, ties kept in encounter
/// order.
pub fn sort_glyph_boxes(rects: &mut Vec<GlyphBoundingBoxData>, args: &Args)
    requires
        args.spec_wf(),
        forall|k: int|
            0 <= k < old(rects)@.len() ==> #[trigger] crate::layout::glyph_dims_ok(
                old(rects)@[k],
                *args,
            ),
    ensures
        final(rects)@ == stable_rank_sort(old(rects)@, *args),
        final(rects)@.len() == old(rects)@.len(),
        sorted_by_rank(final(rects)@, *args),
        final(rects)@.to_multiset() == old(rects)@.to_multiset(),
        forall|k: int|
            0 <= k < final(rects)@.len() ==> #[trigger] crate::layout::glyph_dims_ok(
                final(rects)@[k],
                *args,
            ),
{
    let n = rects.len();
    if n <= 1 {
        proof {
            if n == 1 {
                let s0 = old(rects)@;
                assert(s0.drop_last() =~= Seq::<GlyphBoundingBoxData>::empty());
                assert(stable_rank_sort(s0.drop_last(), *args) == Seq::<
                    GlyphBoundingBoxData,
                >::empty());
                assert(stable_rank_sort(s0, *args) == stable_insert(
                    Seq::<GlyphBoundingBoxData>::empty(),
                    s0.last(),
                    *args,
                ));
                assert(stable_rank_sort(s0, *args) =~= s0);
            } else {
                assert(stable_rank_sort(old(rects)@, *args) =~= old(rects)@);
            }
        }
        return ;
    }
    proof {
        let s0 = old(rects)@;
        assert(s0.take(1).len() == 1);
        assert(s0.take(1).drop_last() =~= Seq::<GlyphBoundingBoxData>::empty());
        assert(stable_rank_sort(s0.take(1).drop_last(), *args) == Seq::<
            GlyphBoundingBoxData,
        >::empty());
        assert(stable_rank_sort(s0.take(1), *args) == stable_insert(
            Seq::<GlyphBoundingBoxData>::empty(),
            s0.take(1).last(),
            *args,
        ));
        assert(rects@.take(1) =~= s0.take(1));
        assert(stable_rank_sort(s0.take(1), *args) =~= rects@.take(1));
        assert(rects@.skip(1) =~= s0.skip(1));
    }
    let mut i: usize = 1;
    while i < n
        invariant
            n == rects@.len(),
            n == old(rects)@.len(),
            1 <= i <= n,
            args.spec_wf(),
            rects@.to_multiset() == old(rects)@.to_multiset(),
            forall|k: int|
                0 <= k < rects@.len() ==> #[trigger] crate::layout::glyph_dims_ok(
                    rects@[k],
                    *args,
                ),
            forall|a: int, b: int| 0 <= a < b < i ==> rank_le(rects@[a], rects@[b], *args),
            rects@.take(i as int) == stable_rank_sort(old(rects)@.take(i as int), *args),
            rects@.skip(i as int) == old(rects)@.skip(i as int),
        decreases n - i,
    {
        let ghost p_seq = rects@.take(i as int);
        let ghost x_g = rects@[i as int];
        let ghost rest = rects@.skip(i as int + 1);
        proof {
            let oi = i as int;
            assert forall|a: int, b: int|
                0 <= a < b < p_seq.len() implies rank_le(p_seq[a], p_seq[b], *args) by {
                assert(p_seq[a] == rects@[a] && p_seq[b] == rects@[b]);
            }
            assert(rects@.skip(oi)[0] == old(rects)@.skip(oi)[0]);
            assert(x_g == old(rects)@[oi]);
            assert(rects@ =~= p_seq.take(oi) + seq![x_g] + p_seq.skip(oi) + rest);
            assert forall|k: int|
                0 <= k < rects@.len() - (oi + 1) implies rest[k] == old(rects)@.skip(oi + 1)[k] by {
                assert(rest[k] == rects@[oi + 1 + k]);
                assert(old(rects)@.skip(oi + 1)[k] == old(rects)@[oi + 1 + k]);
                assert(rects@.skip(oi)[k + 1] == rects@[oi + k + 1]);
                assert(old(rects)@.skip(oi)[k + 1] == old(rects)@[oi + k + 1]);
            }
            assert(rest =~= old(rects)@.skip(oi + 1));
        }
        let mut j: usize = i;
        while j > 0
            invariant
                0 <= j <= i < n,
                n == rects@.len(),
                args.spec_wf(),
                rects@.to_multiset() == old(rects)@.to_multiset(),
                forall|k: int|
                    0 <= k < rects@.len() ==> #[trigger] crate::layout::glyph_dims_ok(
                        rects@[k],
                        *args,
                    ),
                forall|a: int, b: int|
                    0 <= a < b <= i && b != j ==> rank_le(rects@[a], rects@[b], *args),
                p_seq.len() == i,
                sorted_by_rank(p_seq, *args),
                rects@ == p_seq.take(j as int) + seq![x_g] + p_seq.skip(j as int) + rest,
                forall|k: int| j <= k < i ==> rank_before(x_g, #[trigger] p_seq[k], *args),
            ensures
                0 <= j <= i < n,
                n == rects@.len(),
                rects@.to_multiset() == old(rects)@.to_multiset(),
                forall|k: int|
                    0 <= k < rects@.len() ==> #[trigger] crate::layout::glyph_dims_ok(
                        rects@[k],
                        *args,
                    ),
                forall|a: int, b: int|
                    0 <= a < b <= i && b != j ==> rank_le(rects@[a], rects@[b], *args),
                j == 0 || rank_le(rects@[j - 1], rects@[j as int], *args),
                rects@ == p_seq.take(j as int) + seq![x_g] + p_seq.skip(j as int) + rest,
                forall|k: int| j <= k < i ==> rank_before(x_g, #[trigger] p_seq[k], *args),
                j == 0 || !rank_before(x_g, p_seq[j - 1], *args),
            decreases j,
        {
            let cur = rects[j];
            let prev = rects[j - 1];
            proof {
                assert(cur == x_g);
                assert(prev == p_seq[j - 1]);
            }
            let before = rank_before_exec(&cur, &prev, args);
            if !before {
                break ;
            }
            let ghost before_swap = rects@;
            rects.set(j - 1, cur);
            rects.set(j, prev);
            proof {
                lemma_swap_multiset(before_swap, j - 1, j as int);
                assert(rects@ == before_swap.update(j - 1, before_swap[j as int]).update(
                    j as int,
                    before_swap[j - 1],
                ));
                assert(rects@ =~= p_seq.take(j - 1) + seq![x_g] + p_seq.skip(j - 1) + rest);
            }
            j = j - 1;
        }
        proof {
            assert forall|a: int, b: int|
                0 <= a < b <= i implies rank_le(rects@[a], rects@[b], *args) by {
                if b == j {
                    if a == j - 1 {
                    } else {
                        assert(rank_le(rects@[a], rects@[j - 1], *args));
                        assert(rank_le(rects@[j - 1], rects@[j as int], *args));
                    }
                }
            }
            lemma_stable_insert_at(p_seq, x_g, *args, j as int);
            assert(rects@.take(i as int + 1) =~= p_seq.take(j as int) + seq![x_g] + p_seq.skip(
                j as int,
            ));
            assert(old(rects)@.take(i as int + 1).drop_last() =~= old(rects)@.take(i as int));
            assert(old(rects)@.take(i as int + 1).last() == old(rects)@[i as int]);
            assert(rects@.take(i as int + 1) == stable_rank_sort(
                old(rects)@.take(i as int + 1),
                *args,
            ));
            assert(rects@.skip(i as int + 1) =~= old(rects)@.skip(i as int + 1));
        }
        i = i + 1;
    }
    proof {
        assert(rects@.take(n as int) =~= rects@);
        assert(old(rects)@.take(n as int) =~= old(rects)@);
    }
}

/// The bounding box a glyph is collected with: the one the font reports when
/// it is ordered, and the zero box when the font reports none or a box whose
/// minima exceed its maxima.
pub open spec fn normalized_box(bbox: Option<RectData>) -> RectData {
    match bbox {
        Some(b) => if b.spec_wf() {
            b
        } else {
            RectData { x_min: 0i16, y_min: 0i16, x_max: 0i16, y_max: 0i16 }
        },
        None => RectData { x_min: 0i16, y_min: 0i16, x_max: 0i16, y_max: 0i16 },
    }
}

/// Decides whether one character enters the atlas build, from what the font
/// reported about it: a character whose codepoint the font cannot resolve, or
/// whose glyph carries no horizontal advance, is skipped and contributes no
/// layout entry and no record; a missing bounding box still enters, with the
/// zero box.
pub fn glyph_entry(
    c: char,
    glyph_index: Option<u16>,
    advance: Option<u16>,
    bbox: Option<RectData>,
) -> (r: Option<GlyphBoundingBoxData>)
    ensures
        r is Some <==> (glyph_index is Some && advance is Some),
        r matches Some(g) ==> g.unicode == c && g.rect == normalized_box(bbox)
            && g.rect.spec_wf(),
        (glyph_index is Some && advance is Some) ==> r == Some(
            GlyphBoundingBoxData {
                rect: normalized_box(bbox),
                unicode: c,
                glyph_index: glyph_index.unwrap(),
            },
        ),
{
    match (glyph_index, advance) {
        (Some(gi), Some(_)) => {
            let rect = match bbox {
                Some(b) => {
                    if b.x_min <= b.x_max && b.y_min <= b.y_max {
                        b
                    } else {
                        RectData::zero()
                    }
                },
                None => RectData::zero(),
            };
            Some(GlyphBoundingBoxData::new(c, gi, rect))
        },
        _ => None,
    }
}

/// The entries were picked from the requested characters: `idx` names, for
/// each entry, the strictly increasing position of the character it renders.
pub open spec fn picked_from(
    entries: Seq<GlyphBoundingBoxData>,
    chars: Seq<char>,
    idx: Seq<int>,
) -> bool {
    &&& idx.len() == entries.len()
    &&& forall|k: int|
        0 <= k < idx.len() ==> 0 <= #[trigger] idx[k] < chars.len() && entries[k].unicode
            == chars[idx[k]]
    &&& forall|k: int| 0 <= k < idx.len() - 1 ==> #[trigger] idx[k] < idx[k + 1]
}

/// The entry one requested character contributes, as a function of the font
/// bytes: the glyph the font resolves, when it also carries an advance, with
/// the normalized bounding box; `None` when the codepoint does not resolve or
/// the glyph has no advance.
pub open spec fn resolved_entry(data: Seq<u8>, c: char) -> Option<GlyphBoundingBoxData> {
    match crate::font::glyph_index_of(data, c) {
        Some(gi) => match crate::font::advance_of(data, gi) {
            Some(_) => Some(
                GlyphBoundingBoxData {
                    rect: normalized_box(crate::font::box_rect_of(data, gi)),
                    unicode: c,
                    glyph_index: gi,
                },
            ),
            None => None,
        },
        None => None,
    }
}

/// The glyphs a font resolves from a character request, in encounter order:
/// everything the later stages see of the font.
pub open spec fn resolved_entries(data: Seq<u8>, chars: Seq<char>) -> Seq<GlyphBoundingBoxData> {
    kept_entries(chars.map_values(|c: char| resolved_entry(data, c)))
}

/// Looks every requested character up in the font and keeps one entry per
/// character the font can place — resolvable glyph and present advance, as
/// `glyph_entry` decides — in encounter order.
pub fn collect_glyph_boxes(font_data: &[u8], chars: &Vec<char>) -> (r: Vec<GlyphBoundingBoxData>)
    ensures
        r@ == resolved_entries(font_data@, chars@),
        r@.len() <= chars@.len(),
        forall|k: int| 0 <= k < r@.len() ==> (#[trigger] r@[k]).rect.spec_wf(),
        exists|idx: Seq<int>| picked_from(r@, chars@, idx),
{
    let ghost to_entry = |c: char| resolved_entry(font_data@, c);
    let mut out: Vec<GlyphBoundingBoxData> = Vec::new();
    let ghost mut idx: Seq<int> = Seq::empty();
    let n = chars.len();
    let mut i: usize = 0;
    proof {
        assert(chars@.take(0).map_values(to_entry).len() == 0);
        assert(out@ =~= kept_entries(chars@.take(0).map_values(to_entry)));
    }
    while i < n
        invariant
            0 <= i <= n,
            n == chars@.len(),
            out@.len() <= i,
            to_entry == (|c: char| resolved_entry(font_data@, c)),
            out@ == kept_entries(chars@.take(i as int).map_values(to_entry)),
            forall|k: int| 0 <= k < out@.len() ==> (#[trigger] out@[k]).rect.spec_wf(),
            picked_from(out@, chars@, idx),
            idx.len() == 0 || idx.last() < i,
        decreases n - i,
    {
        let c = chars[i];
        let ghost decisions = chars@.take(i as int).map_values(to_entry);
        proof {
            assert(chars@.take(i as int + 1).map_values(to_entry) =~= decisions.push(
                resolved_entry(font_data@, c),
            ));
            assert(decisions.push(resolved_entry(font_data@, c)).drop_last() =~= decisions);
        }
        let glyph_index = crate::font::font_glyph_index(font_data, c);
        match glyph_index {
            Some(gi) => {
                let advance = crate::font::font_glyph_hor_advance(font_data, gi);
                let bbox = crate::font::font_glyph_bounding_box(font_data, gi);
                let entry_opt = glyph_entry(c, Some(gi), advance, bbox);
                proof {
                    assert(entry_opt == resolved_entry(font_data@, c));
                }
                match entry_opt {
                    Some(entry) => {
                        out.push(entry);
                        proof {
                            idx = idx.push(i as int);
                        }
                    },
                    None => {},
                }
            },
            None => {
                proof {
                    assert(resolved_entry(font_data@, c) is None);
                }
            },
        }
        i = i + 1;
    }
    proof {
        assert(chars@.take(n as int) =~= chars@);
        assert(picked_from(out@, chars@, idx));
    }
    out
}

/// Collects the characters the font can place and appends them to `rects` in
/// rank order: exactly the stable rank-sort of the glyphs the font resolves
/// from the request. Returns `false`, leaving `rects` untouched, exactly when
/// some resolved glyph is too large for the planner's arithmetic limit.
pub fn store_and_sort_by_area(
    rects: &mut Vec<GlyphBoundingBoxData>,
    font_data: &[u8],
    chars: &Vec<char>,
    args: &Args,
) -> (r: bool)
    requires
        args.spec_wf(),
    ensures
        ({
            let collected = resolved_entries(font_data@, chars@);
            let added = stable_rank_sort(collected, *args);
            &&& r == (forall|k: int|
                0 <= k < collected.len() ==> #[trigger] crate::layout::glyph_dims_ok(
                    collected[k],
                    *args,
                ))
            &&& !r ==> final(rects)@ == old(rects)@
            &&& r ==> {
                &&& final(rects)@ == old(rects)@ + added
                &&& sorted_by_rank(added, *args)
                &&& added.to_multiset() == collected.to_multiset()
                &&& added.len() == collected.len()
                &&& forall|k: int|
                    0 <= k < added.len() ==> #[trigger] crate::layout::glyph_dims_ok(
                        added[k],
                        *args,
                    )
            }
        }),
{
    let mut collected = collect_glyph_boxes(font_data, chars);
    if !crate::layout::all_glyph_dims_ok(&collected, args) {
        return false;
    }
    let ghost collected_seq = collected@;
    sort_glyph_boxes(&mut collected, args);
    let ghost added = collected@;
    rects.append(&mut collected);
    proof {
        assert(rects@ == old(rects)@ + added);
        assert(added == stable_rank_sort(collected_seq, *args));
    }
    true
}

/// The entries a sequence of per-character decisions keeps, in order.
pub open spec fn kept_entries(outcomes: Seq<Option<GlyphBoundingBoxData>>) -> Seq<
    GlyphBoundingBoxData,
>
    decreases outcomes.len(),
{
    if outcomes.len() == 0 {
        Seq::empty()
    } else {
        kept_entries(outcomes.drop_last()) + (match outcomes.last() {
            Some(g) => seq![g],
            None => Seq::empty(),
        })
    }
}

/// Skip semantics: a character the font cannot place decides to `None`, and a
/// `None` decision contributes nothing and leaves every other glyph's
/// position in the build unchanged — the kept entries, which are all the
/// later stages see, are the same as if the character had not been requested.
pub proof fn lemma_skipped_char_no_effect(outcomes: Seq<Option<GlyphBoundingBoxData>>, i: int)
    requires
        0 <= i < outcomes.len(),
        outcomes[i] is None,
    ensures
        kept_entries(outcomes) == kept_entries(outcomes.remove(i)),
    decreases outcomes.len(),
{
    if i == outcomes.len() - 1 {
        assert(outcomes.remove(i) =~= outcomes.drop_last());
        assert(kept_entries(outcomes) =~= kept_entries(outcomes.drop_last()));
    } else {
        let head = outcomes.drop_last();
        lemma_skipped_char_no_effect(head, i);
        assert(outcomes.remove(i).drop_last() =~= head.remove(i));
        assert(outcomes.remove(i).last() == outcomes.last());
        assert(kept_entries(outcomes.remove(i)) == kept_entries(head.remove(i)) + (
        match outcomes.last() {
            Some(g) => seq![g],
            None => Seq::empty(),
        }));
        assert(kept_entries(outcomes) =~= kept_entries(outcomes.remove(i)));
    }
}

/// Skip semantics, anchored to the pipeline: a character the font does not
/// resolve contributes nothing — the glyphs resolved from a request equal
/// those resolved from the request with that character removed, so ranking,
/// layout and records are exactly as if it had never been requested.
pub proof fn lemma_unresolvable_char_skipped(data: Seq<u8>, chars: Seq<char>, i: int)
    requires
        0 <= i < chars.len(),
        resolved_entry(data, chars[i]) is None,
    ensures
        resolved_entries(data, chars) == resolved_entries(data, chars.remove(i)),
{
    let to_entry = |c: char| resolved_entry(data, c);
    let decisions = chars.map_values(to_entry);
    assert(chars.remove(i).map_values(to_entry) =~= decisions.remove(i));
    assert(decisions[i] is None);
    lemma_skipped_char_no_effect(decisions, i);
}

/// A rectangle held in `i16` coordinates spans at most the full `i16` range,
/// so its scaled dimension never overflows the wide arithmetic used to
/// compute it.
proof fn lemma_rect_units_bounded(rect: RectData, args: Args)
    ensures
        rect.spec_width() <= 0x1_0000,
        rect.spec_height() <= 0x1_0000,
        rect.spec_width() >= 0 ==> 2 * rect.spec_width() * args.scale_numer + args.scale_denom
            <= u64::MAX,
        rect.spec_height() >= 0 ==> 2 * rect.spec_height() * args.scale_numer + args.scale_denom
            <= u64::MAX,
{
    let w = rect.spec_width();
    let h = rect.spec_height();
    assert(w <= 0x1_0000 && h <= 0x1_0000);
    if w >= 0 {
        assert(2 * w * args.scale_numer <= 2 * 0x1_0000 * (u32::MAX as int)) by (nonlinear_arith)
            requires
                0 <= w <= 0x1_0000,
                args.scale_numer <= u32::MAX,
        ;
    }
    if h >= 0 {
        assert(2 * h * args.scale_numer <= 2 * 0x1_0000 * (u32::MAX as int)) by (nonlinear_arith)
            requires
                0 <= h <= 0x1_0000,
                args.scale_numer <= u32::MAX,
        ;
    }
}

} // verus!
