use msdf_atlas::args::Args;
use msdf_atlas::enums::UVSpace;
use msdf_atlas::glyph_data::GlyphData;
use msdf_atlas::layout::{find_best_fit_width, get_next_power_of_2, plan_layout};
use msdf_atlas::rank::{glyph_entry, sort_glyph_boxes, GlyphBoundingBoxData, RectData};

fn rect(x_min: i16, y_min: i16, x_max: i16, y_max: i16) -> RectData {
    RectData {
        x_min,
        y_min,
        x_max,
        y_max,
    }
}

fn glyph(c: char, id: u16, w: i16, h: i16) -> GlyphBoundingBoxData {
    GlyphBoundingBoxData::new(c, id, rect(0, 0, w, h))
}

#[test]
fn powers_of_2() {
    let expected = get_next_power_of_2(8);
    assert_eq!(
        expected, 16,
        "Did not return the next power of 2 despite being a power of 2"
    );

    let expected = get_next_power_of_2(30);
    assert_eq!(
        expected, 32,
        "Did not return the next power of 2 that encapsulated the number"
    );
}

#[test]
fn powers_of_2_small_values() {
    assert_eq!(get_next_power_of_2(1), 2);
    assert_eq!(get_next_power_of_2(2), 4);
    assert_eq!(get_next_power_of_2(5), 8);
    assert_eq!(get_next_power_of_2(511), 512);
    assert_eq!(get_next_power_of_2(512), 1024);
}

#[test]
fn glyph_data_constructed() {
    let unicode_version = GlyphData::from_unicode(99);
    let char_version = GlyphData::from_char('c');
    assert!(
        unicode_version == char_version,
        "Failed to convert from char to i32"
    );
}

#[test]
fn width_grows_for_oversized_glyph() {
    // a single glyph wider than the desired atlas width forces the width to
    // the next power of two above its padded width
    let args = Args::default()
        .with_uniform_scale(1, 1)
        .with_padding(0)
        .with_max_atlas(512);
    // padded width 600 >= 512, next power of two above 600 is 1024
    let glyphs = vec![glyph('A', 1, 600, 100)];
    let w = find_best_fit_width(512, &glyphs, &args);
    assert_eq!(w, 1024);

    // a power-of-two padded width doubles, matching get_next_power_of_2
    let glyphs = vec![glyph('A', 1, 512, 100)];
    let w = find_best_fit_width(512, &glyphs, &args);
    assert_eq!(w, 1024);

    // narrower glyphs leave the width alone
    let glyphs = vec![glyph('A', 1, 500, 100)];
    let w = find_best_fit_width(512, &glyphs, &args);
    assert_eq!(w, 512);
}

#[test]
fn plan_places_disjoint_rectangles() {
    let args = Args::default()
        .with_uniform_scale(1, 1)
        .with_padding(4)
        .with_max_atlas(64);
    let mut glyphs = vec![
        glyph('a', 1, 30, 40),
        glyph('b', 2, 20, 40),
        glyph('c', 3, 25, 30),
        glyph('d', 4, 10, 30),
        glyph('e', 5, 8, 10),
        glyph('f', 6, 40, 10),
    ];
    sort_glyph_boxes(&mut glyphs, &args);
    let plan = plan_layout(&glyphs, &args);
    assert_eq!(plan.entries.len(), 6);
    for i in 0..plan.entries.len() {
        let e = &plan.entries[i];
        assert!(e.x >= 0 && e.y >= 0);
        assert!(e.x + e.padded_width <= plan.atlas_width as i32);
        assert!(e.y + e.padded_height <= plan.atlas_height as i32);
        for j in 0..i {
            let f = &plan.entries[j];
            let apart_x = e.x + e.padded_width <= f.x || f.x + f.padded_width <= e.x;
            let apart_y = e.y + e.padded_height <= f.y || f.y + f.padded_height <= e.y;
            assert!(
                apart_x || apart_y,
                "entries {} and {} overlap in the plan",
                j,
                i
            );
        }
    }
}

#[test]
fn plan_keeps_rank_order_and_heights() {
    let args = Args::default()
        .with_uniform_scale(1, 1)
        .with_padding(0)
        .with_max_atlas(100);
    let mut glyphs = vec![
        glyph('a', 1, 60, 50),
        glyph('b', 2, 60, 50),
        glyph('c', 3, 30, 20),
    ];
    sort_glyph_boxes(&mut glyphs, &args);
    let plan = plan_layout(&glyphs, &args);
    // row 1: the two tall glyphs do not both fit (60 + 60 >= 100)
    assert_eq!(plan.entries[0].x, 0);
    assert_eq!(plan.entries[0].y, 0);
    assert_eq!(plan.entries[1].x, 0);
    assert_eq!(plan.entries[1].y, 50);
    assert_eq!(plan.entries[2].x, 60);
    assert_eq!(plan.entries[2].y, 50);
    assert_eq!(plan.line_heights, vec![50, 50]);
    assert_eq!(plan.atlas_width, 100);
    assert_eq!(plan.atlas_height, 100);
}

#[test]
fn empty_glyph_list_gives_empty_plan() {
    let args = Args::default();
    let glyphs: Vec<GlyphBoundingBoxData> = Vec::new();
    let plan = plan_layout(&glyphs, &args);
    assert_eq!(plan.atlas_width, 0);
    assert_eq!(plan.atlas_height, 0);
    assert_eq!(plan.entries.len(), 0);
    assert_eq!(plan.line_heights.len(), 0);
}

#[test]
fn scenario_ascii_letters_atlas() {
    // 52 letters at scale 1/32 with padding 10, range 640, max width 512 and
    // power-of-two height: every glyph cell is 45x49 after scaling and
    // padding, 11 cells fill one 512-wide row, five rows of height 49 sum to
    // 245, and the power-of-two rounding lifts the atlas to 512x256
    let args = Args::default()
        .with_uniform_scale(1, 32)
        .with_range(640)
        .with_padding(10)
        .with_scaled_texture(true)
        .with_max_atlas(512)
        .with_uv_space(UVSpace::one_minus_v());
    let letters: Vec<char> = ('A'..='Z').chain('a'..='z').collect();
    assert_eq!(letters.len(), 52);
    let mut glyphs: Vec<GlyphBoundingBoxData> = Vec::new();
    for (i, c) in letters.iter().enumerate() {
        match glyph_entry(
            *c,
            Some(i as u16 + 1),
            Some(1200),
            Some(rect(0, 0, 1280, 1408)),
        ) {
            Some(g) => glyphs.push(g),
            None => {}
        }
    }
    // a character the font does not carry resolves to no entry at all
    let missing = glyph_entry(' ', None, None, None);
    assert!(missing.is_none());

    sort_glyph_boxes(&mut glyphs, &args);
    let plan = plan_layout(&glyphs, &args);
    assert_eq!(
        plan.entries.len(),
        52,
        "Failed to generate all of the glyph data."
    );
    assert_eq!(
        plan.atlas_width, 512,
        "The image scaled when it should not have."
    );
    assert_eq!(
        plan.atlas_height, 256,
        "The image scaled too much or did not expand to the nearest power of 2."
    );
    assert_eq!(plan.line_heights.len(), 5);
}

#[test]
fn skipped_character_leaves_packing_unchanged() {
    let args = Args::default()
        .with_uniform_scale(1, 1)
        .with_padding(2)
        .with_max_atlas(64);

    // the same requested characters, once with 'x' resolvable and once not
    let mut with_skip: Vec<GlyphBoundingBoxData> = Vec::new();
    let mut without: Vec<GlyphBoundingBoxData> = Vec::new();
    for (i, c) in ['p', 'q', 'r'].iter().enumerate() {
        let e = glyph_entry(*c, Some(i as u16), Some(7), Some(rect(0, 0, 20, 30)))
            .expect("resolvable glyph must produce an entry");
        with_skip.push(e);
        without.push(e);
    }
    // 'x' is absent from the font: no glyph index resolves
    assert!(glyph_entry('x', None, Some(7), Some(rect(0, 0, 20, 30))).is_none());
    // an entry with a glyph but no advance is skipped as well
    assert!(glyph_entry('x', Some(9), None, None).is_none());

    sort_glyph_boxes(&mut with_skip, &args);
    sort_glyph_boxes(&mut without, &args);
    let plan_a = plan_layout(&with_skip, &args);
    let plan_b = plan_layout(&without, &args);
    assert_eq!(plan_a.atlas_width, plan_b.atlas_width);
    assert_eq!(plan_a.atlas_height, plan_b.atlas_height);
    assert_eq!(plan_a.entries.len(), plan_b.entries.len());
    for i in 0..plan_a.entries.len() {
        assert_eq!(plan_a.entries[i].x, plan_b.entries[i].x);
        assert_eq!(plan_a.entries[i].y, plan_b.entries[i].y);
        assert_eq!(plan_a.entries[i].glyph.unicode, plan_b.entries[i].glyph.unicode);
    }
}

#[test]
fn ranking_orders_by_height_bucket_then_area() {
    let args = Args::default().with_uniform_scale(1, 1).with_padding(0);
    let mut glyphs = vec![
        glyph('a', 1, 10, 20),
        glyph('b', 2, 30, 40),
        glyph('c', 3, 20, 40),
        glyph('d', 4, 50, 20),
    ];
    sort_glyph_boxes(&mut glyphs, &args);
    // height 40 bucket first (larger area first), then height 20 bucket
    assert_eq!(glyphs[0].unicode, 'b');
    assert_eq!(glyphs[1].unicode, 'c');
    assert_eq!(glyphs[2].unicode, 'd');
    assert_eq!(glyphs[3].unicode, 'a');
}

#[test]
fn ranking_keeps_encounter_order_on_ties() {
    let args = Args::default().with_uniform_scale(1, 1).with_padding(0);
    let mut glyphs = vec![
        glyph('a', 1, 10, 20),
        glyph('b', 2, 10, 20),
        glyph('c', 3, 10, 20),
    ];
    sort_glyph_boxes(&mut glyphs, &args);
    assert_eq!(glyphs[0].unicode, 'a');
    assert_eq!(glyphs[1].unicode, 'b');
    assert_eq!(glyphs[2].unicode, 'c');
}

#[test]
fn uv_round_trip_recovers_rectangle() {
    let record = GlyphData::from_char('g');

    // no flip
    let plain = record.with_uvs((32, 64), (96, 128), (512, 256), UVSpace::default_space());
    assert_eq!(plain.uvs(), (32, 64, 96, 128));
    assert_eq!(plain.uv_denominators(), (512, 256));
    assert_eq!(
        plain.uvs_to_pixels(UVSpace::default_space()),
        (32, 64, 96, 128)
    );

    // vertical flip keeps v_min below v_max and still round-trips
    let flipped = record.with_uvs((32, 64), (96, 128), (512, 256), UVSpace::one_minus_v());
    assert_eq!(flipped.uvs(), (32, 128, 96, 192));
    assert_eq!(
        flipped.uvs_to_pixels(UVSpace::one_minus_v()),
        (32, 64, 96, 128)
    );

    // both flips
    let both = UVSpace::one_minus_u().union(UVSpace::one_minus_v());
    let mirrored = record.with_uvs((32, 64), (96, 128), (512, 256), both);
    assert_eq!(mirrored.uvs(), (416, 128, 480, 192));
    assert_eq!(mirrored.uvs_to_pixels(both), (32, 64, 96, 128));
}

#[test]
fn uv_coordinates_clamp_into_atlas() {
    let record = GlyphData::from_char('g');
    let clamped = record.with_uvs((-10, 0), (600, 100), (512, 256), UVSpace::default_space());
    assert_eq!(clamped.uvs(), (0, 0, 512, 100));
}
