use msdf_atlas::builder::Builder;
use msdf_atlas::glyph_data::GlyphData;
use msdf_atlas::partition::partition_workload;
use msdf_atlas::raw_img::{GlyphBitmap, Pixel, RawImage, RawImageView};

fn solid(width: u32, height: u32, color: Pixel) -> GlyphBitmap {
    let pixels = vec![color; (width * height) as usize];
    GlyphBitmap::new(pixels, width, height)
}

fn px(r: u8, g: u8, b: u8, a: u8) -> Pixel {
    Pixel { r, g, b, a }
}

#[test]
fn raw_image_view_writes_to_same_img_multithread() {
    let pixels: Vec<Pixel> = vec![px(255, 255, 255, 255); 100];
    let mut img = RawImage::new(pixels, 10, 10);

    let v1 = RawImageView::new(&img, 0, 0, 5, 10);
    let v2 = RawImageView::new(&img, 5, 0, 5, 10);

    let red = px(255, 0, 0, 255);
    let blue = px(0, 0, 255, 255);

    v1.for_each_mut(&mut img, &|_x, _y, _p| red);
    v2.for_each_mut(&mut img, &|_x, _y, _p| blue);

    v1.for_each(&img, &|_x, _y, p| {
        assert!(p == red);
    });
    v2.for_each(&img, &|_x, _y, p| {
        assert!(p == blue);
    });

    let bytes = img.process_as_byte_array();
    let atlas: image::ImageBuffer<image::Rgba<u8>, Vec<u8>> =
        image::ImageBuffer::from_raw(10, 10, bytes).expect("Failed to create the image");
    atlas.save("/tmp/test.png").expect("Failed to save img");
}

#[test]
fn byte_array_is_rgba_row_major() {
    let pixels = vec![px(1, 2, 3, 4), px(5, 6, 7, 8)];
    let img = RawImage::new(pixels, 2, 1);
    let bytes = img.process_as_byte_array();
    assert_eq!(bytes, vec![1, 2, 3, 4, 5, 6, 7, 8]);
}

fn builder_with_regions(
    atlas: (u32, u32),
    regions: Vec<((i32, i32), (u32, u32))>,
) -> Builder {
    let mut glyph_buffer = Vec::new();
    let mut atlas_offsets = Vec::new();
    let mut glyph_dims = Vec::new();
    for (i, (o, d)) in regions.iter().enumerate() {
        glyph_buffer.push(GlyphData::from_unicode(i as i32));
        atlas_offsets.push(*o);
        glyph_dims.push(*d);
    }
    Builder {
        glyph_buffer,
        atlas_offsets,
        glyph_dims,
        thread_metadata: Vec::new(),
        atlas_dimensions: atlas,
        ascender: 0,
        descender: 0,
        line_height: 0,
        units_per_em: 1000,
    }
}

#[test]
fn composites_bitmaps_into_disjoint_regions() {
    let builder = builder_with_regions(
        (8, 4),
        vec![((0, 0), (3, 2)), ((4, 0), (2, 2)), ((0, 2), (4, 2))],
    );
    let red = px(200, 0, 0, 255);
    let green = px(0, 200, 0, 255);
    let bitmaps = vec![
        Some(solid(3, 2, red)),
        None,
        Some(solid(4, 2, green)),
    ];
    let img = builder.build_atlas(&bitmaps);
    assert_eq!(img.width, 8);
    assert_eq!(img.height, 4);

    let whole = RawImageView::new(&img, 0, 0, 8, 4);
    // first region holds its bitmap
    for y in 0..2 {
        for x in 0..3 {
            assert!(whole.get_pixel_unchecked(&img, x, y) == red);
        }
    }
    // third region holds its bitmap
    for y in 2..4 {
        for x in 0..4 {
            assert!(whole.get_pixel_unchecked(&img, x, y) == green);
        }
    }
    // the skipped glyph's region keeps the background value
    for y in 0..2 {
        for x in 4..6 {
            assert!(whole.get_pixel_unchecked(&img, x, y) == px(0, 0, 0, 0));
        }
    }
    // pixels no glyph reserves keep the background value
    assert!(whole.get_pixel_unchecked(&img, 7, 3) == px(0, 0, 0, 0));
    assert!(whole.get_pixel_unchecked(&img, 3, 1) == px(0, 0, 0, 0));
}

#[test]
fn checking_workload() {
    let mut builder = builder_with_regions(
        (16, 16),
        (0..10).map(|i| ((i as i32, 0), (1u32, 1u32))).collect(),
    );

    // Check if we only push 1 thread
    builder.prepare_workload(1);
    assert!(builder.thread_metadata.len() == 1);
    let metadata = builder.thread_metadata.first().unwrap();
    assert_eq!(metadata.start, 0);
    assert_eq!(metadata.work_unit, 10);

    // Check if we push 3 threads
    builder.prepare_workload(3);
    assert_eq!(
        builder.thread_metadata.len(),
        3,
        "Should have prepared 3 metadata"
    );
    for i in 0..2 {
        let metadata = &builder.thread_metadata[i];
        assert_eq!(metadata.work_unit, 3, "The unit of work should only be 3");
        let expected = i as u32 * 3;
        assert_eq!(
            metadata.start,
            expected,
            "This thread should start with element: {} / {}",
            expected,
            builder.thread_metadata.len()
        );
    }

    let last = builder.thread_metadata.last().unwrap();
    assert_eq!(last.work_unit, 4, "The last work unit should be 4");
    assert_eq!(last.start, 6, "This thread should start with element 6");

    // Check what happens if we push too many threads
    builder.prepare_workload(10);
    assert_eq!(builder.thread_metadata.len(), 8);

    for i in 0..7 {
        let metadata = &builder.thread_metadata[i];
        assert_eq!(
            metadata.work_unit, 1,
            "Each thread should only process 1 element."
        );
        assert_eq!(
            metadata.start, i as u32,
            "Each thread is responsible for it's current element's index."
        );
    }

    let last = builder.thread_metadata.last().unwrap();
    assert_eq!(
        last.work_unit, 3,
        "The last thread should process the total amt of work - max_capacity."
    );
    assert_eq!(last.start, 7, "The last thread should at 7.");
}

#[test]
fn partition_covers_range_exactly() {
    for total in 1u32..40 {
        for requested in 1u32..12 {
            let slices = partition_workload(total, requested);
            assert!(slices.len() as u32 <= total.min(8));
            assert!(!slices.is_empty());
            assert_eq!(slices[0].start, 0);
            // contiguous, ascending, and ending exactly at total
            for w in slices.windows(2) {
                assert_eq!(w[0].start + w[0].work_unit, w[1].start);
                assert!(w[0].work_unit >= 1);
            }
            let last = slices.last().unwrap();
            assert_eq!(last.start + last.work_unit, total);
        }
    }
}

#[test]
fn partition_of_empty_workload_is_empty() {
    let slices = partition_workload(0, 4);
    assert!(slices.is_empty());
}

#[test]
fn partition_clamps_thread_count() {
    // more threads than glyphs: one slice per glyph
    let slices = partition_workload(5, 100);
    assert_eq!(slices.len(), 5);
    for (i, s) in slices.iter().enumerate() {
        assert_eq!(s.start, i as u32);
        assert_eq!(s.work_unit, 1);
    }
    // more threads than the capacity constant: capped at 8
    let slices = partition_workload(100, 100);
    assert_eq!(slices.len(), 8);
    // a zero request still yields a usable partition
    let slices = partition_workload(7, 0);
    assert_eq!(slices.len(), 1);
    assert_eq!(slices[0].work_unit, 7);
}

#[test]
fn slice_offsets_expose_half_open_range() {
    let slices = partition_workload(10, 3);
    let (start, end) = slices[2].get_slice_offsets();
    assert_eq!(start, 6);
    assert_eq!(end, 10);
}
