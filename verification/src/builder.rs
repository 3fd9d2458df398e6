use vstd::prelude::*;

use crate::args::Args;
use crate::font_data::FontData;
use crate::glyph_data::uv_axis_map;
use crate::glyph_data::GlyphData;
use crate::layout::plan_layout;
use crate::layout::workload_fits;
use crate::layout::DIM_LIMIT;
use crate::partition::clamped_thread_count;
use crate::partition::partition_workload;
use crate::partition::slice_base;
use crate::partition::ThreadMetadata;
use crate::rank::lemma_swap_multiset;
use crate::rank::store_and_sort_by_area;
use crate::raw_img::GlyphBitmap;
use crate::raw_img::RawImage;
use crate::raw_img::RawImageView;
use vstd::pervasive::VecAdditionalExecFns;

verus! {

/// Why an atlas build was abandoned instead of producing a partial atlas.
#[derive(Clone, Copy, PartialEq, Eq, Structural, Debug)]
pub enum BuildError {
    /// The font binary could not be parsed.
    InvalidFontData,
    /// No requested character could be placed, so no atlas dimensions are
    /// defined.
    NoGlyphsResolved,
    /// A glyph or the whole workload exceeds the planner's arithmetic limits.
    AtlasTooLarge,
}

/// Whether an atlas coordinate lies inside the axis-aligned region at
/// `offset` of size `dim`.
pub open spec fn region_contains(offset: (i32, i32), dim: (u32, u32), gx: int, gy: int) -> bool {
    offset.0 <= gx < offset.0 + dim.0 && offset.1 <= gy < offset.1 + dim.1
}

/// Two placement regions share no pixel.
pub open spec fn region_disjoint(
    o1: (i32, i32),
    d1: (u32, u32),
    o2: (i32, i32),
    d2: (u32, u32),
) -> bool {
    ||| o1.0 + d1.0 <= o2.0
    ||| o2.0 + d2.0 <= o1.0
    ||| o1.1 + d1.1 <= o2.1
    ||| o2.1 + d2.1 <= o1.1
}

/// Whether some glyph before index `n` has a bitmap whose region contains the
/// coordinate.
pub open spec fn covered_before(
    offsets: Seq<(i32, i32)>,
    dims: Seq<(u32, u32)>,
    bitmaps: Seq<Option<GlyphBitmap>>,
    n: int,
    gx: int,
    gy: int,
) -> bool {
    exists|k: int|
        0 <= k < n && bitmaps[k] is Some && #[trigger] region_contains(offsets[k], dims[k], gx, gy)
}

/// Whether a resolved workload fits the planner's arithmetic limits: every
/// glyph within the dimension limit, a representable glyph count, summed row
/// heights within the limit, and a planned atlas of at most `2^28` pixels.
/// Exactly the workloads `Builder::from_font_data` accepts once the font
/// parses and at least one character resolves.
pub open spec fn workload_feasible(collected: Seq<crate::rank::GlyphBoundingBoxData>, a: Args) -> bool {
    let sorted = crate::rank::stable_rank_sort(collected, a);
    let w = crate::layout::planned_width(a.max_atlas_width as int, sorted, a);
    &&& forall|k: int|
        0 <= k < collected.len() ==> #[trigger] crate::layout::glyph_dims_ok(collected[k], a)
    &&& collected.len() <= u32::MAX
    &&& crate::layout::sum_padded_h(sorted, a) <= DIM_LIMIT
    &&& w * crate::layout::planned_height(sorted, a, w) <= 0x1000_0000
}

/// One atlas build: the ranked records, each glyph's placement offset and
/// bitmap size, the workload partition, the atlas dimensions, and the
/// face-wide metrics of the font.
pub struct Builder {
    pub glyph_buffer: Vec<GlyphData>,
    pub atlas_offsets: Vec<(i32, i32)>,
    pub glyph_dims: Vec<(u32, u32)>,
    pub thread_metadata: Vec<ThreadMetadata>,
    pub atlas_dimensions: (u32, u32),
    pub ascender: i32,
    pub descender: i32,
    pub line_height: i32,
    pub units_per_em: u32,
}

impl Builder {
    /// The geometric soundness of a build: one offset and one bitmap size per
    /// record, every region inside the atlas, and no two regions sharing a
    /// pixel — the invariant that lets every glyph's pixels be written
    /// through an independent view of one shared buffer.
    pub open spec fn spec_wf(self) -> bool {
        &&& self.atlas_offsets@.len() == self.glyph_buffer@.len()
        &&& self.glyph_dims@.len() == self.glyph_buffer@.len()
        &&& self.glyph_buffer@.len() <= u32::MAX
        &&& self.atlas_dimensions.0 * self.atlas_dimensions.1 <= 0x1000_0000
        &&& forall|i: int|
            0 <= i < self.atlas_offsets@.len() ==> {
                let o = #[trigger] self.atlas_offsets@[i];
                let d = self.glyph_dims@[i];
                0 <= o.0 && o.0 + d.0 <= self.atlas_dimensions.0 && 0 <= o.1 && o.1 + d.1
                    <= self.atlas_dimensions.1
            }
        &&& forall|i: int, j: int|
            0 <= i < j < self.atlas_offsets@.len() ==> region_disjoint(
                self.atlas_offsets@[i],
                self.glyph_dims@[i],
                self.atlas_offsets@[j],
                self.glyph_dims@[j],
            )
    }

    /// Builds the packing plan and output records for the requested
    /// characters from a font binary.
    ///
    /// The characters the font can place are ranked, laid out on shelves, and
    /// given records whose texture coordinates come from their placement;
    /// characters the font cannot place are skipped and appear nowhere in the
    /// result. Fails, producing no partial atlas, exactly when the font
    /// cannot be parsed, when no character could be placed, or when the
    /// workload exceeds the planner's arithmetic limits. Every field of a
    /// successful build is fixed, by the contract, as a function of the font
    /// bytes, the requested characters and the configuration: two builds from
    /// equal inputs are equal.
    #[verifier::rlimit(100)]
    pub fn from_font_data(font_data: &[u8], chars: &Vec<char>, args: &Args) -> (r: Result<
        Builder,
        BuildError,
    >)
        requires
            args.spec_wf(),
            1 <= args.max_atlas_width <= DIM_LIMIT,
        ensures
            ({
                let data = font_data@;
                let collected = crate::rank::resolved_entries(data, chars@);
                let sorted = crate::rank::stable_rank_sort(collected, *args);
                &&& (r == Err::<Builder, BuildError>(BuildError::InvalidFontData)
                    <==> !crate::font::font_parses(data))
                &&& (crate::font::font_parses(data) ==> ((r == Err::<Builder, BuildError>(
                    BuildError::NoGlyphsResolved,
                )) <==> collected.len() == 0))
                &&& (crate::font::font_parses(data) && collected.len() >= 1 ==> ((r is Ok)
                    <==> workload_feasible(collected, *args)))
                &&& (r matches Ok(b) ==> {
                    &&& b.spec_wf()
                    &&& b.thread_metadata@.len() == 0
                    &&& b.glyph_buffer@.len() == sorted.len()
                    &&& b.atlas_offsets@.len() == sorted.len()
                    &&& b.glyph_dims@.len() == sorted.len()
                    &&& b.glyph_buffer@.len() >= 1
                    &&& b.ascender == crate::font::ascender_of(data) as int
                    &&& b.descender == crate::font::descender_of(data) as int
                    &&& b.line_height == b.ascender + b.descender
                    &&& b.units_per_em == crate::font::units_per_em_of(data)
                    &&& 16 <= b.units_per_em <= 16384
                    &&& b.atlas_dimensions.0 == crate::layout::planned_width(
                        args.max_atlas_width as int,
                        sorted,
                        *args,
                    )
                    &&& b.atlas_dimensions.1 == crate::layout::planned_height(
                        sorted,
                        *args,
                        b.atlas_dimensions.0 as int,
                    )
                    &&& b.atlas_dimensions.0 >= 1
                    &&& forall|i: int|
                        0 <= i < sorted.len() ==> {
                            let g = #[trigger] sorted[i];
                            let rec = b.glyph_buffer@[i];
                            &&& rec.unicode == g.unicode as int
                            &&& rec.advance == (match crate::font::advance_of(
                                data,
                                g.glyph_index,
                            ) {
                                Some(a) => a as int,
                                None => 0int,
                            })
                            &&& rec.spec_bearings() == (
                                (match crate::font::side_bearing_of(data, g.glyph_index) {
                                    Some(sb) => sb as int,
                                    None => 0int,
                                }),
                                g.rect.y_max - crate::font::ascender_of(data),
                            )
                            &&& rec.spec_metrics() == (
                                g.rect.spec_width(),
                                g.rect.spec_height(),
                            )
                            &&& rec.has_bitmap
                            &&& (
                                b.atlas_offsets@[i].0 as int,
                                b.atlas_offsets@[i].1 as int,
                            ) == crate::layout::shelf_pos(
                                sorted,
                                *args,
                                b.atlas_dimensions.0 as int,
                                i,
                            )
                            &&& b.glyph_dims@[i].0 == args.spec_scaled(g.rect.spec_width())
                            &&& b.glyph_dims@[i].1 == args.spec_scaled(g.rect.spec_height())
                        }
                    &&& forall|i: int|
                        0 <= i < b.glyph_buffer@.len() && b.atlas_dimensions.1 >= 1 ==> {
                            let rec = #[trigger] b.glyph_buffer@[i];
                            let o = b.atlas_offsets@[i];
                            let d = b.glyph_dims@[i];
                            &&& (rec.spec_uvs().0, rec.spec_uvs().2) == uv_axis_map(
                                o.0 as int,
                                o.0 + d.0,
                                b.atlas_dimensions.0 as int,
                                args.uv_space.spec_flips_u(),
                            )
                            &&& (rec.spec_uvs().1, rec.spec_uvs().3) == uv_axis_map(
                                o.1 as int,
                                o.1 + d.1,
                                b.atlas_dimensions.1 as int,
                                args.uv_space.spec_flips_v(),
                            )
                            &&& rec.spec_uv_dens() == (
                                b.atlas_dimensions.0 as int,
                                b.atlas_dimensions.1 as int,
                            )
                        }
                    &&& forall|i: int|
                        0 <= i < b.glyph_buffer@.len() && b.atlas_dimensions.1 == 0 ==> {
                            let rec = #[trigger] b.glyph_buffer@[i];
                            rec.spec_uvs() == (0int, 0int, 0int, 0int) && rec.spec_uv_dens() == (
                                0int,
                                0int,
                            )
                        }
                })
            }),
    {
        let ghost data = font_data@;
        if !crate::font::font_check(font_data) {
            return Err(BuildError::InvalidFontData);
        }
        let ascender = crate::font::font_ascender(font_data) as i32;
        let descender = crate::font::font_descender(font_data) as i32;
        let line_height = ascender + descender;
        let units_per_em = crate::font::font_units_per_em(font_data) as u32;

        let ghost collected = crate::rank::resolved_entries(data, chars@);
        let mut boxes: Vec<crate::rank::GlyphBoundingBoxData> = Vec::new();
        if !store_and_sort_by_area(&mut boxes, font_data, chars, args) {
            proof {
                assert(collected.len() >= 1);
                assert(!workload_feasible(collected, *args));
            }
            return Err(BuildError::AtlasTooLarge);
        }
        let ghost sorted = crate::rank::stable_rank_sort(collected, *args);
        proof {
            assert(boxes@ =~= sorted);
        }
        if boxes.len() == 0 {
            return Err(BuildError::NoGlyphsResolved);
        }
        if boxes.len() > u32::MAX as usize {
            proof {
                assert(!workload_feasible(collected, *args));
            }
            return Err(BuildError::AtlasTooLarge);
        }
        if !workload_fits(&boxes, args) {
            proof {
                assert(!workload_feasible(collected, *args));
            }
            return Err(BuildError::AtlasTooLarge);
        }
        proof {
            assert forall|j: int, k: int|
                0 <= j < k < boxes@.len() implies crate::layout::padded_h(boxes@[j], *args)
                >= crate::layout::padded_h(boxes@[k], *args) by {
                assert(crate::rank::rank_le(boxes@[j], boxes@[k], *args));
            }
        }
        let plan = plan_layout(&boxes, args);
        let aw = plan.atlas_width;
        let ah = plan.atlas_height;
        proof {
            assert(aw * ah <= 0xFFFF_FFFFu64 * 0xFFFF_FFFFu64) by (nonlinear_arith)
                requires
                    0 <= aw <= 0xFFFF_FFFF,
                    0 <= ah <= 0xFFFF_FFFF,
            ;
        }
        if (aw as u64) * (ah as u64) > 0x1000_0000 {
            proof {
                assert(!workload_feasible(collected, *args));
            }
            return Err(BuildError::AtlasTooLarge);
        }
        proof {
            assert(workload_feasible(collected, *args));
        }

        let n = plan.entries.len();
        let mut glyph_buffer: Vec<GlyphData> = Vec::new();
        let mut atlas_offsets: Vec<(i32, i32)> = Vec::new();
        let mut glyph_dims: Vec<(u32, u32)> = Vec::new();
        let mut k: usize = 0;
        while k < n
            invariant
                0 <= k <= n,
                n == plan.entries@.len(),
                n == sorted.len(),
                n >= 1,
                n <= u32::MAX,
                args.spec_wf(),
                data == font_data@,
                crate::layout::plan_wf(plan),
                aw == plan.atlas_width,
                ah == plan.atlas_height,
                aw >= 1,
                aw * ah <= 0x1000_0000,
                ascender == crate::font::ascender_of(data) as int,
                ascender <= 0x8000,
                -0x8000 <= ascender,
                forall|i: int| 0 <= i < n ==> (#[trigger] plan.entries@[i]).glyph == sorted[i],
                forall|i: int|
                    0 <= i < n ==> ((#[trigger] plan.entries@[i]).x as int, plan.entries@[
                        i
                    ].y as int) == crate::layout::shelf_pos(sorted, *args, aw as int, i),
                forall|i: int|
                    0 <= i < n ==> (#[trigger] plan.entries@[i]).width == args.spec_scaled(
                        sorted[i].rect.spec_width(),
                    ) && plan.entries@[i].height == args.spec_scaled(
                        sorted[i].rect.spec_height(),
                    ),
                glyph_buffer@.len() == k,
                atlas_offsets@.len() == k,
                glyph_dims@.len() == k,
                forall|i: int|
                    0 <= i < k ==> (#[trigger] atlas_offsets@[i]) == (
                        plan.entries@[i].x,
                        plan.entries@[i].y,
                    ),
                forall|i: int|
                    0 <= i < k ==> (#[trigger] glyph_dims@[i]) == (
                        plan.entries@[i].width as u32,
                        plan.entries@[i].height as u32,
                    ),
                forall|i: int|
                    0 <= i < k ==> {
                        let g = #[trigger] sorted[i];
                        let rec = glyph_buffer@[i];
                        &&& rec.unicode == g.unicode as int
                        &&& rec.advance == (match crate::font::advance_of(data, g.glyph_index) {
                            Some(a) => a as int,
                            None => 0int,
                        })
                        &&& rec.spec_bearings() == (
                            (match crate::font::side_bearing_of(data, g.glyph_index) {
                                Some(sb) => sb as int,
                                None => 0int,
                            }),
                            g.rect.y_max - crate::font::ascender_of(data),
                        )
                        &&& rec.spec_metrics() == (g.rect.spec_width(), g.rect.spec_height())
                        &&& rec.has_bitmap
                    },
                forall|i: int|
                    0 <= i < k && ah >= 1 ==> {
                        let rec = #[trigger] glyph_buffer@[i];
                        let o = atlas_offsets@[i];
                        let d = glyph_dims@[i];
                        &&& (rec.spec_uvs().0, rec.spec_uvs().2) == uv_axis_map(
                            o.0 as int,
                            o.0 + d.0,
                            aw as int,
                            args.uv_space.spec_flips_u(),
                        )
                        &&& (rec.spec_uvs().1, rec.spec_uvs().3) == uv_axis_map(
                            o.1 as int,
                            o.1 + d.1,
                            ah as int,
                            args.uv_space.spec_flips_v(),
                        )
                        &&& rec.spec_uv_dens() == (aw as int, ah as int)
                    },
                forall|i: int|
                    0 <= i < k && ah == 0 ==> {
                        let rec = #[trigger] glyph_buffer@[i];
                        rec.spec_uvs() == (0int, 0int, 0int, 0int) && rec.spec_uv_dens() == (
                            0int,
                            0int,
                        )
                    },
            decreases n - k,
        {
            let e = plan.entries[k];
            proof {
                assert(crate::layout::entry_in_bounds(
                    plan.entries@[k as int],
                    aw as int,
                    ah as int,
                ));
                assert(0 <= plan.entries@[k as int].width <= plan.entries@[
                    k as int
                ].padded_width);
                if ah >= 1 {
                    assert(aw <= 0x1000_0000 && ah <= 0x1000_0000) by (nonlinear_arith)
                        requires
                            aw * ah <= 0x1000_0000,
                            aw >= 1,
                            ah >= 1,
                    ;
                }
            }
            let advance = match crate::font::font_glyph_hor_advance(
                font_data,
                e.glyph.glyph_index,
            ) {
                Some(a) => a,
                None => 0,
            };
            let bearing_x = match crate::font::font_glyph_hor_side_bearing(
                font_data,
                e.glyph.glyph_index,
            ) {
                Some(b) => b as i32,
                None => 0,
            };
            let bearing_y = e.glyph.calculate_bearings_y(ascender);
            let (metrics_w, metrics_h) = e.glyph.get_metrics();
            let mut record = GlyphData::from_char(e.glyph.unicode).with_advance(
                advance,
            ).with_bearings(bearing_x, bearing_y).with_metrics(metrics_w, metrics_h);
            if ah >= 1 {
                record = record.with_uvs(
                    (e.x, e.y),
                    (e.x + e.width, e.y + e.height),
                    (aw as i32, ah as i32),
                    args.uv_space,
                );
            }
            glyph_buffer.push(record);
            atlas_offsets.push((e.x, e.y));
            glyph_dims.push((e.width as u32, e.height as u32));
            k = k + 1;
        }

        let builder = Builder {
            glyph_buffer,
            atlas_offsets,
            glyph_dims,
            thread_metadata: Vec::new(),
            atlas_dimensions: (aw, ah),
            ascender,
            descender,
            line_height,
            units_per_em,
        };
        proof {
            assert forall|i: int, j: int|
                0 <= i < j < builder.atlas_offsets@.len() implies region_disjoint(
                builder.atlas_offsets@[i],
                builder.glyph_dims@[i],
                builder.atlas_offsets@[j],
                builder.glyph_dims@[j],
            ) by {
                crate::layout::lemma_placements_disjoint(plan, i, j);
            }
            assert(builder.spec_wf());
        }
        Ok(builder)
    }

    /// Splits the glyph workload into contiguous slices, one per worker:
    /// every slice but the last holds `total / count` glyphs and the last
    /// absorbs the remainder, with the worker count clamped to the capacity
    /// constant and to the glyph count.
    pub fn prepare_workload(&mut self, thread_count: usize)
        requires
            old(self).glyph_buffer@.len() <= u32::MAX,
        ensures
            *final(self) == (Builder {
                thread_metadata: final(self).thread_metadata,
                ..*old(self)
            }),
            ({
                let total = old(self).glyph_buffer@.len() as u32;
                let req: u32 = if thread_count >= 8 {
                    8u32
                } else {
                    thread_count as u32
                };
                let s = final(self).thread_metadata@;
                &&& s.len() == clamped_thread_count(total, req)
                &&& s.len() <= 8
                &&& s.len() <= total
                &&& total >= 1 ==> s.len() >= 1
                &&& forall|i: int|
                    0 <= i < s.len() ==> (#[trigger] s[i]).start == i * slice_base(total, req)
                &&& forall|i: int|
                    0 <= i < s.len() - 1 ==> (#[trigger] s[i]).work_unit == slice_base(total, req)
                &&& s.len() >= 1 ==> s[s.len() - 1].work_unit == total - (s.len() - 1)
                    * slice_base(total, req)
                &&& forall|i: int| 0 <= i < s.len() ==> (#[trigger] s[i]).work_unit >= 1
                &&& forall|i: int|
                    0 <= i < s.len() - 1 ==> #[trigger] (s[i].start + s[i].work_unit) == s[i
                        + 1].start
                &&& s.len() >= 1 ==> s[0].start == 0
                &&& s.len() >= 1 ==> s[s.len() - 1].start + s[s.len() - 1].work_unit == total
                &&& forall|i: int|
                    0 <= i < s.len() ==> #[trigger] (s[i].start + s[i].work_unit) <= total
            }),
    {
        let total = self.glyph_buffer.len() as u32;
        let req: u32 = if thread_count >= 8 {
            8
        } else {
            thread_count as u32
        };
        self.thread_metadata = partition_workload(total, req);
    }

    /// Composites every rendered bitmap into a fresh atlas buffer at its
    /// planned offset. A glyph whose bitmap is absent is skipped: its region
    /// keeps the background value, exactly like every pixel no glyph
    /// reserves. Because the planned regions are pairwise disjoint, each
    /// glyph's region holds exactly its own bitmap afterwards, whatever order
    /// the copies ran in.
    pub fn build_atlas(&self, bitmaps: &Vec<Option<GlyphBitmap>>) -> (img: RawImage)
        requires
            self.spec_wf(),
            bitmaps@.len() == self.glyph_buffer@.len(),
            forall|i: int|
                0 <= i < bitmaps@.len() ==> ((#[trigger] bitmaps@[i]) matches Some(b)
                    ==> b.spec_wf() && b.width == self.glyph_dims@[i].0 && b.height
                    == self.glyph_dims@[i].1),
        ensures
            img.spec_wf(),
            img.width == self.atlas_dimensions.0,
            img.height == self.atlas_dimensions.1,
            forall|i: int, lx: int, ly: int|
                0 <= i < bitmaps@.len() && bitmaps@[i] is Some && 0 <= lx < self.glyph_dims@[i].0
                    && 0 <= ly < self.glyph_dims@[i].1 ==> img.pix(
                    self.atlas_offsets@[i].0 + lx,
                    self.atlas_offsets@[i].1 + ly,
                ) == bitmaps@[i].unwrap().pix(lx, ly),
            forall|gx: int, gy: int|
                0 <= gx < img.width && 0 <= gy < img.height && !covered_before(
                    self.atlas_offsets@,
                    self.glyph_dims@,
                    bitmaps@,
                    bitmaps@.len() as int,
                    gx,
                    gy,
                ) ==> img.pix(gx, gy) == (crate::raw_img::Pixel { r: 0u8, g: 0u8, b: 0u8, a: 0u8 }),
    {
        let (aw, ah) = self.atlas_dimensions;
        let mut img = RawImage::new_cleared(aw, ah);
        let n = bitmaps.len();
        let ghost offsets = self.atlas_offsets@;
        let ghost dims = self.glyph_dims@;
        let mut i: usize = 0;
        while i < n
            invariant
                0 <= i <= n,
                n == bitmaps@.len(),
                n == self.glyph_buffer@.len(),
                self.spec_wf(),
                offsets == self.atlas_offsets@,
                dims == self.glyph_dims@,
                forall|k: int|
                    0 <= k < bitmaps@.len() ==> ((#[trigger] bitmaps@[k]) matches Some(b)
                        ==> b.spec_wf() && b.width == self.glyph_dims@[k].0 && b.height
                        == self.glyph_dims@[k].1),
                img.spec_wf(),
                img.width == self.atlas_dimensions.0,
                img.height == self.atlas_dimensions.1,
                aw == self.atlas_dimensions.0,
                ah == self.atlas_dimensions.1,
                forall|k: int, lx: int, ly: int|
                    0 <= k < i && bitmaps@[k] is Some && 0 <= lx < dims[k].0 && 0 <= ly
                        < dims[k].1 ==> img.pix(offsets[k].0 + lx, offsets[k].1 + ly)
                        == bitmaps@[k].unwrap().pix(lx, ly),
                forall|gx: int, gy: int|
                    0 <= gx < img.width && 0 <= gy < img.height && !covered_before(
                        offsets,
                        dims,
                        bitmaps@,
                        i as int,
                        gx,
                        gy,
                    ) ==> img.pix(gx, gy) == (crate::raw_img::Pixel {
                        r: 0u8,
                        g: 0u8,
                        b: 0u8,
                        a: 0u8,
                    }),
            decreases n - i,
        {
            let ghost prev_img = img;
            match &bitmaps[i] {
                Some(bm) => {
                    let (ox, oy) = self.atlas_offsets[i];
                    let (dw, dh) = self.glyph_dims[i];
                    let view = RawImageView::new(&img, ox as u32, oy as u32, dw, dh);
                    view.blit(&mut img, bm);
                    proof {
                        let bmv = bitmaps@[i as int].unwrap();
                        assert forall|k: int, lx: int, ly: int|
                            0 <= k < i + 1 && bitmaps@[k] is Some && 0 <= lx < dims[k].0 && 0 <= ly
                                < dims[k].1 implies img.pix(offsets[k].0 + lx, offsets[k].1 + ly)
                            == bitmaps@[k].unwrap().pix(lx, ly) by {
                            if k < i {
                                assert(region_disjoint(offsets[k], dims[k], offsets[i as int], dims[i as int]));
                                assert(!view.spec_contains(offsets[k].0 + lx, offsets[k].1 + ly));
                            }
                        }
                        assert forall|gx: int, gy: int|
                            0 <= gx < img.width && 0 <= gy < img.height && !covered_before(
                                offsets,
                                dims,
                                bitmaps@,
                                i as int + 1,
                                gx,
                                gy,
                            ) implies img.pix(gx, gy) == (crate::raw_img::Pixel {
                            r: 0u8,
                            g: 0u8,
                            b: 0u8,
                            a: 0u8,
                        }) by {
                            assert(!region_contains(offsets[i as int], dims[i as int], gx, gy));
                            assert(!view.spec_contains(gx, gy));
                            assert(!covered_before(offsets, dims, bitmaps@, i as int, gx, gy));
                        }
                    }
                },
                None => {
                    proof {
                        assert forall|gx: int, gy: int|
                            0 <= gx < img.width && 0 <= gy < img.height && !covered_before(
                                offsets,
                                dims,
                                bitmaps@,
                                i as int + 1,
                                gx,
                                gy,
                            ) implies img.pix(gx, gy) == (crate::raw_img::Pixel {
                            r: 0u8,
                            g: 0u8,
                            b: 0u8,
                            a: 0u8,
                        }) by {
                            assert(!covered_before(offsets, dims, bitmaps@, i as int, gx, gy));
                        }
                    }
                },
            }
            i = i + 1;
        }
        img
    }

    /// Packages the build's records into the final font data, ordered by
    /// codepoint: the same records the build produced, stably sorted (records
    /// of equal codepoint keep their build order) beside the face-wide
    /// metrics.
    pub fn package_font_data(&self) -> (r: FontData)
        ensures
            r.line_height == self.line_height,
            r.units_per_em == self.units_per_em,
            r.ascender == self.ascender,
            r.descender == self.descender,
            r.glyph_data@ == stable_unicode_sort(self.glyph_buffer@),
            r.glyph_data@.to_multiset() == self.glyph_buffer@.to_multiset(),
            r.glyph_data@.len() == self.glyph_buffer@.len(),
            forall|i: int, j: int|
                0 <= i < j < r.glyph_data@.len() ==> r.glyph_data@[i].unicode
                    <= r.glyph_data@[j].unicode,
    {
        let mut records = self.glyph_buffer.clone();
        sort_records_by_unicode(&mut records);
        FontData {
            line_height: self.line_height,
            units_per_em: self.units_per_em,
            ascender: self.ascender,
            descender: self.descender,
            glyph_data: records,
        }
    }
}

/// Inserts one record into a codepoint-ordered sequence: it lands in front
/// of the first record of strictly larger codepoint, so it comes after every
/// record of equal codepoint — the insertion step of a stable sort.
pub open spec fn stable_unicode_insert(sorted: Seq<GlyphData>, x: GlyphData) -> Seq<GlyphData>
    decreases sorted.len(),
{
    if sorted.len() == 0 {
        seq![x]
    } else if x.unicode < sorted.first().unicode {
        seq![x] + sorted
    } else {
        seq![sorted.first()] + stable_unicode_insert(sorted.drop_first(), x)
    }
}

/// The stable sort of the records by codepoint: records of equal codepoint
/// keep their build order.
pub open spec fn stable_unicode_sort(s: Seq<GlyphData>) -> Seq<GlyphData>
    decreases s.len(),
{
    if s.len() == 0 {
        Seq::empty()
    } else {
        stable_unicode_insert(stable_unicode_sort(s.drop_last()), s.last())
    }
}

/// In a codepoint-ordered sequence, a stable insertion lands exactly where
/// the inserted record stops outranking its predecessor.
proof fn lemma_unicode_insert_at(sorted: Seq<GlyphData>, x: GlyphData, j: int)
    requires
        forall|a: int, b: int|
            0 <= a < b < sorted.len() ==> sorted[a].unicode <= sorted[b].unicode,
        0 <= j <= sorted.len(),
        forall|k: int| j <= k < sorted.len() ==> x.unicode < (#[trigger] sorted[k]).unicode,
        j == 0 || x.unicode >= sorted[j - 1].unicode,
    ensures
        stable_unicode_insert(sorted, x) == sorted.take(j) + seq![x] + sorted.skip(j),
    decreases sorted.len(),
{
    if sorted.len() == 0 {
        assert(stable_unicode_insert(sorted, x) =~= sorted.take(j) + seq![x] + sorted.skip(j));
    } else if j == 0 {
        assert(x.unicode < sorted[0].unicode);
        assert(stable_unicode_insert(sorted, x) =~= sorted.take(0) + seq![x] + sorted.skip(0));
    } else {
        // x ranks at or above the record at j - 1, which ranks at or above
        // the head, so x does not go in front of the head
        if j - 1 > 0 {
            assert(sorted[0].unicode <= sorted[j - 1].unicode);
        }
        assert(!(x.unicode < sorted.first().unicode));
        let tail = sorted.drop_first();
        assert forall|a: int, b: int|
            0 <= a < b < tail.len() implies (#[trigger] tail[a]).unicode
            <= (#[trigger] tail[b]).unicode by {
            assert(tail[a] == sorted[a + 1] && tail[b] == sorted[b + 1]);
        }
        assert forall|k: int| j - 1 <= k < tail.len() implies x.unicode < (#[trigger] tail[k]).unicode by {
            assert(tail[k] == sorted[k + 1]);
        }
        lemma_unicode_insert_at(tail, x, j - 1);
        assert(stable_unicode_insert(sorted, x) == seq![sorted.first()] + (tail.take(j - 1)
            + seq![x] + tail.skip(j - 1)));
        assert(seq![sorted.first()] + (tail.take(j - 1) + seq![x] + tail.skip(j - 1))
            =~= sorted.take(j) + seq![x] + sorted.skip(j));
    }
}

/// Sorts records by codepoint with a stable insertion sort: the result is
/// exactly the stable sort of the input, records of equal codepoint keeping
/// their order.
fn sort_records_by_unicode(records: &mut Vec<GlyphData>)
    ensures
        final(records)@ == stable_unicode_sort(old(records)@),
        final(records)@.len() == old(records)@.len(),
        final(records)@.to_multiset() == old(records)@.to_multiset(),
        forall|i: int, j: int|
            0 <= i < j < final(records)@.len() ==> final(records)@[i].unicode
                <= final(records)@[j].unicode,
{
    let n = records.len();
    if n <= 1 {
        proof {
            if n == 1 {
                let s0 = old(records)@;
                assert(s0.drop_last() =~= Seq::<GlyphData>::empty());
                assert(stable_unicode_sort(s0.drop_last()) == Seq::<GlyphData>::empty());
                assert(stable_unicode_sort(s0) == stable_unicode_insert(
                    Seq::<GlyphData>::empty(),
                    s0.last(),
                ));
                assert(stable_unicode_sort(s0) =~= s0);
            } else {
                assert(stable_unicode_sort(old(records)@) =~= old(records)@);
            }
        }
        return ;
    }
    proof {
        let s0 = old(records)@;
        assert(s0.take(1).len() == 1);
        assert(s0.take(1).drop_last() =~= Seq::<GlyphData>::empty());
        assert(stable_unicode_sort(s0.take(1).drop_last()) == Seq::<GlyphData>::empty());
        assert(stable_unicode_sort(s0.take(1)) == stable_unicode_insert(
            Seq::<GlyphData>::empty(),
            s0.take(1).last(),
        ));
        assert(records@.take(1) =~= s0.take(1));
        assert(stable_unicode_sort(s0.take(1)) =~= records@.take(1));
        assert(records@.skip(1) =~= s0.skip(1));
    }
    let mut i: usize = 1;
    while i < n
        invariant
            n == records@.len(),
            n == old(records)@.len(),
            1 <= i <= n,
            records@.to_multiset() == old(records)@.to_multiset(),
            forall|a: int, b: int| 0 <= a < b < i ==> records@[a].unicode <= records@[b].unicode,
            records@.take(i as int) == stable_unicode_sort(old(records)@.take(i as int)),
            records@.skip(i as int) == old(records)@.skip(i as int),
        decreases n - i,
    {
        let ghost p_seq = records@.take(i as int);
        let ghost x_g = records@[i as int];
        let ghost rest = records@.skip(i as int + 1);
        proof {
            let oi = i as int;
            assert forall|a: int, b: int|
                0 <= a < b < p_seq.len() implies (#[trigger] p_seq[a]).unicode
                <= (#[trigger] p_seq[b]).unicode by {
                assert(p_seq[a] == records@[a] && p_seq[b] == records@[b]);
            }
            assert(records@.skip(oi)[0] == old(records)@.skip(oi)[0]);
            assert(x_g == old(records)@[oi]);
            assert(records@ =~= p_seq.take(oi) + seq![x_g] + p_seq.skip(oi) + rest);
            assert forall|k: int|
                0 <= k < records@.len() - (oi + 1) implies rest[k] == old(records)@.skip(
                oi + 1,
            )[k] by {
                assert(rest[k] == records@[oi + 1 + k]);
                assert(old(records)@.skip(oi + 1)[k] == old(records)@[oi + 1 + k]);
                assert(records@.skip(oi)[k + 1] == records@[oi + k + 1]);
                assert(old(records)@.skip(oi)[k + 1] == old(records)@[oi + k + 1]);
            }
            assert(rest =~= old(records)@.skip(oi + 1));
        }
        let mut j: usize = i;
        while j > 0
            invariant
                0 <= j <= i < n,
                n == records@.len(),
                records@.to_multiset() == old(records)@.to_multiset(),
                forall|a: int, b: int|
                    0 <= a < b <= i && b != j ==> records@[a].unicode <= records@[b].unicode,
                p_seq.len() == i,
                forall|a: int, b: int|
                    0 <= a < b < p_seq.len() ==> (#[trigger] p_seq[a]).unicode
                        <= (#[trigger] p_seq[b]).unicode,
                records@ == p_seq.take(j as int) + seq![x_g] + p_seq.skip(j as int) + rest,
                forall|k: int| j <= k < i ==> x_g.unicode < (#[trigger] p_seq[k]).unicode,
            ensures
                0 <= j <= i < n,
                n == records@.len(),
                records@.to_multiset() == old(records)@.to_multiset(),
                forall|a: int, b: int|
                    0 <= a < b <= i && b != j ==> records@[a].unicode <= records@[b].unicode,
                j == 0 || records@[j - 1].unicode <= records@[j as int].unicode,
                records@ == p_seq.take(j as int) + seq![x_g] + p_seq.skip(j as int) + rest,
                forall|k: int| j <= k < i ==> x_g.unicode < (#[trigger] p_seq[k]).unicode,
                j == 0 || x_g.unicode >= p_seq[j - 1].unicode,
            decreases j,
        {
            let cur = records[j];
            let prev = records[j - 1];
            proof {
                assert(cur == x_g);
                assert(prev == p_seq[j - 1]);
            }
            if cur.unicode >= prev.unicode {
                break ;
            }
            let ghost before_swap = records@;
            records.set(j - 1, cur);
            records.set(j, prev);
            proof {
                lemma_swap_multiset(before_swap, j - 1, j as int);
                assert(records@ == before_swap.update(j - 1, before_swap[j as int]).update(
                    j as int,
                    before_swap[j - 1],
                ));
                assert(records@ =~= p_seq.take(j - 1) + seq![x_g] + p_seq.skip(j - 1) + rest);
            }
            j = j - 1;
        }
        proof {
            assert forall|a: int, b: int|
                0 <= a < b <= i implies records@[a].unicode <= records@[b].unicode by {
                if b == j {
                    if a != j - 1 {
                        assert(records@[a].unicode <= records@[j - 1].unicode);
                        assert(records@[j - 1].unicode <= records@[j as int].unicode);
                    }
                }
            }
            lemma_unicode_insert_at(p_seq, x_g, j as int);
            assert(records@.take(i as int + 1) =~= p_seq.take(j as int) + seq![x_g] + p_seq.skip(
                j as int,
            ));
            assert(old(records)@.take(i as int + 1).drop_last() =~= old(records)@.take(i as int));
            assert(old(records)@.take(i as int + 1).last() == old(records)@[i as int]);
            assert(records@.take(i as int + 1) == stable_unicode_sort(
                old(records)@.take(i as int + 1),
            ));
            assert(records@.skip(i as int + 1) =~= old(records)@.skip(i as int + 1));
        }
        i = i + 1;
    }
    proof {
        assert(records@.take(n as int) =~= records@);
        assert(old(records)@.take(n as int) =~= old(records)@);
    }
}

} // verus!
