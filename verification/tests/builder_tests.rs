use msdf_atlas::args::Args;
use msdf_atlas::builder::{BuildError, Builder};
use msdf_atlas::byte_buffer::ByteBuffer;
use msdf_atlas::enums::{ColorType, UVSpace};
use msdf_atlas::glyph_data::GlyphData;
use msdf_atlas::layout::calculate_minimum_atlas_dimensions;
use msdf_atlas::rank::{GlyphBoundingBoxData, RectData};
use msdf_atlas::tracker::CharTracker;
use msdf_atlas::utils::has_font_extension;

#[test]
fn invalid_font_data_is_rejected() {
    let args = Args::default().with_uniform_scale(1, 32).with_padding(10);
    let chars: Vec<char> = "ABC".chars().collect();
    let garbage = [0u8, 1, 2, 3, 4, 5, 6, 7];
    let r = Builder::from_font_data(&garbage, &chars, &args);
    assert!(matches!(r, Err(BuildError::InvalidFontData)));

    let empty: [u8; 0] = [];
    let r = Builder::from_font_data(&empty, &chars, &args);
    assert!(matches!(r, Err(BuildError::InvalidFontData)));
}

fn push_u16(out: &mut Vec<u8>, v: u16) {
    out.extend_from_slice(&v.to_be_bytes());
}

fn push_u32(out: &mut Vec<u8>, v: u32) {
    out.extend_from_slice(&v.to_be_bytes());
}

fn push_i16(out: &mut Vec<u8>, v: i16) {
    out.extend_from_slice(&v.to_be_bytes());
}

fn head_table() -> Vec<u8> {
    let mut t = Vec::new();
    push_u32(&mut t, 0x0001_0000); // version
    push_u32(&mut t, 0); // revision
    push_u32(&mut t, 0); // checksum adjustment
    push_u32(&mut t, 0x5F0F_3CF5); // magic
    push_u16(&mut t, 0); // flags
    push_u16(&mut t, 2048); // units per em
    push_u32(&mut t, 0); // created
    push_u32(&mut t, 0);
    push_u32(&mut t, 0); // modified
    push_u32(&mut t, 0);
    push_i16(&mut t, 0); // x min
    push_i16(&mut t, 0); // y min
    push_i16(&mut t, 100); // x max
    push_i16(&mut t, 100); // y max
    push_u16(&mut t, 0); // mac style
    push_u16(&mut t, 0); // lowest ppem
    push_i16(&mut t, 0); // direction hint
    push_u16(&mut t, 0); // index-to-location format
    push_i16(&mut t, 0); // glyph data format
    t
}

fn hhea_table(number_of_metrics: u16) -> Vec<u8> {
    let mut t = Vec::new();
    push_u32(&mut t, 0x0001_0000); // version
    push_i16(&mut t, 1900); // ascender
    push_i16(&mut t, -500); // descender
    push_i16(&mut t, 0); // line gap
    push_u16(&mut t, 0); // max advance width
    push_i16(&mut t, 0); // min left side bearing
    push_i16(&mut t, 0); // min right side bearing
    push_i16(&mut t, 0); // x max extent
    push_i16(&mut t, 0); // caret slope rise
    push_i16(&mut t, 0); // caret slope run
    push_i16(&mut t, 0); // caret offset
    push_u32(&mut t, 0); // reserved
    push_u32(&mut t, 0);
    push_i16(&mut t, 0); // metric data format
    push_u16(&mut t, number_of_metrics);
    t
}

fn maxp_table(number_of_glyphs: u16) -> Vec<u8> {
    let mut t = Vec::new();
    push_u32(&mut t, 0x0000_5000); // version 0.5
    push_u16(&mut t, number_of_glyphs);
    t
}

/// A character map with one segment mapping 'A'..='Z' to glyphs 1..=26.
fn cmap_table() -> Vec<u8> {
    let mut t = Vec::new();
    push_u16(&mut t, 0); // version
    push_u16(&mut t, 1); // one encoding record
    push_u16(&mut t, 3); // platform: windows
    push_u16(&mut t, 1); // encoding: unicode bmp
    push_u32(&mut t, 12); // subtable offset
    // format 4 subtable with the letter segment and the terminator segment
    push_u16(&mut t, 4); // format
    push_u16(&mut t, 32); // length
    push_u16(&mut t, 0); // language
    push_u16(&mut t, 4); // segment count times two
    push_u16(&mut t, 4); // search range
    push_u16(&mut t, 1); // entry selector
    push_u16(&mut t, 0); // range shift
    push_u16(&mut t, 0x005A); // end codes: 'Z'
    push_u16(&mut t, 0xFFFF);
    push_u16(&mut t, 0); // reserved pad
    push_u16(&mut t, 0x0041); // start codes: 'A'
    push_u16(&mut t, 0xFFFF);
    push_i16(&mut t, -64); // id delta: 'A' maps to glyph 1
    push_i16(&mut t, 1);
    push_u16(&mut t, 0); // id range offsets
    push_u16(&mut t, 0);
    t
}

fn hmtx_table(number_of_metrics: u16) -> Vec<u8> {
    let mut t = Vec::new();
    for _ in 0..number_of_metrics {
        push_u16(&mut t, 1200); // advance
        push_i16(&mut t, 50); // left side bearing
    }
    t
}

/// Assembles a TrueType binary from tables already ordered by tag.
fn assemble_font(tables: Vec<(&[u8; 4], Vec<u8>)>) -> Vec<u8> {
    let mut out = Vec::new();
    push_u32(&mut out, 0x0001_0000); // sfnt magic
    push_u16(&mut out, tables.len() as u16);
    push_u16(&mut out, 16);
    push_u16(&mut out, 0);
    push_u16(&mut out, 0);
    let mut offset = 12 + 16 * tables.len() as u32;
    for (tag, body) in &tables {
        push_u32(&mut out, u32::from_be_bytes(**tag));
        push_u32(&mut out, 0); // checksum
        push_u32(&mut out, offset);
        push_u32(&mut out, body.len() as u32);
        offset += body.len() as u32;
    }
    for (_, body) in tables {
        out.extend_from_slice(&body);
    }
    out
}

/// A minimal TrueType binary holding only the three tables the parser
/// requires (`head`, `hhea`, `maxp`) and no character map, so it parses but
/// resolves no codepoint.
fn minimal_font_without_cmap() -> Vec<u8> {
    assemble_font(vec![
        (b"head", head_table()),
        (b"hhea", hhea_table(1)),
        (b"maxp", maxp_table(1)),
    ])
}

/// A TrueType binary that resolves 'A'..='Z' with advance 1200 and side
/// bearing 50, but carries no outlines, so every bounding box is absent.
fn minimal_font_with_letters() -> Vec<u8> {
    assemble_font(vec![
        (b"cmap", cmap_table()),
        (b"head", head_table()),
        (b"hhea", hhea_table(27)),
        (b"hmtx", hmtx_table(27)),
        (b"maxp", maxp_table(27)),
    ])
}

#[test]
fn font_letters_build_records() {
    // the font resolves letters but reports no bounding boxes, so every
    // glyph enters with the zero box: the cells are pure padding, the
    // metrics come straight from the font's tables
    let args = Args::default()
        .with_uniform_scale(1, 32)
        .with_padding(10)
        .with_max_atlas(512);
    let chars: Vec<char> = "CAB".chars().collect();
    let font = minimal_font_with_letters();
    let builder = Builder::from_font_data(&font, &chars, &args)
        .expect("a parsable font with resolvable letters must build");
    assert_eq!(builder.glyph_buffer.len(), 3);
    assert_eq!(builder.units_per_em, 2048);
    assert_eq!(builder.ascender, 1900);
    assert_eq!(builder.descender, -500);
    assert_eq!(builder.line_height, 1400);
    assert_eq!(builder.atlas_dimensions, (512, 5));
    for g in &builder.glyph_buffer {
        assert_eq!(g.advance, 1200);
        assert_eq!(g.bearings(), (50, -1900));
        assert_eq!(g.metrics(), (0, 0));
        assert_eq!(g.uv_denominators(), (512, 5));
    }
    let font_data = builder.package_font_data();
    let unicodes: Vec<i32> = font_data.glyph_data.iter().map(|g| g.unicode).collect();
    assert_eq!(unicodes, vec![65, 66, 67]);

    // a mixed request places only the letters the font carries
    let chars: Vec<char> = "A9B!".chars().collect();
    let builder = Builder::from_font_data(&font, &chars, &args)
        .expect("the resolvable letters must still build");
    assert_eq!(builder.glyph_buffer.len(), 2);
}

#[test]
fn font_without_codepoints_resolves_no_glyphs() {
    // the font parses, but has no character map: every requested character is
    // skipped, and reaching the layout stage with nothing is a fatal error
    let args = Args::default().with_uniform_scale(1, 32).with_padding(10);
    let chars: Vec<char> = "ABC".chars().collect();
    let font = minimal_font_without_cmap();
    let r = Builder::from_font_data(&font, &chars, &args);
    assert!(matches!(r, Err(BuildError::NoGlyphsResolved)));
}

#[test]
fn font_extension_check() {
    assert!(has_font_extension("Roboto-Medium.ttf".as_bytes()));
    assert!(has_font_extension("font.otf".as_bytes()));
    assert!(!has_font_extension("atlas.png".as_bytes()));
    assert!(!has_font_extension("ttf".as_bytes()));
    assert!(!has_font_extension("".as_bytes()));
    assert!(!has_font_extension("font.ttf.bak".as_bytes()));
}

#[test]
fn default_args_match_documented_defaults() {
    let args = Args::default();
    assert_eq!(args.get_scale(), (1, 1));
    assert_eq!(args.padding, 0);
    assert_eq!(args.max_atlas_width, 512);
    assert_eq!(args.range, 4);
    assert_eq!(args.degrees, 3);
    assert!(args.color_type == ColorType::Simple);
    assert_eq!(args.uv_space.bits, 0);
    assert!(!args.scale_texture_to_po2);
}

#[test]
fn scale_dimension_rounds_to_nearest() {
    let args = Args::default().with_uniform_scale(1, 32).with_padding(10);
    // 1280 / 32 = 40, plus half the padding
    assert_eq!(args.scale_dimension_with_padding(1280), 45);
    // 1264 / 32 = 39.5, rounds up
    assert_eq!(args.scale_dimension_with_padding(1264), 45);
    // 1263 / 32 = 39.47, rounds down
    assert_eq!(args.scale_dimension_with_padding(1263), 44);
    assert_eq!(args.add_padding(40), 45);
}

#[test]
fn byte_buffer_counts_elements() {
    let buffer = ByteBuffer::from_vec(vec![1, 2, 3, 4, 5]);
    assert_eq!(buffer.len(), 5);
    assert_eq!(buffer.element_len(), 5);
    assert_eq!(buffer.element_at(2), 3);

    let sized = ByteBuffer::from_vec_sized(vec![0u8; 24], 8);
    assert_eq!(sized.len(), 24);
    assert_eq!(sized.element_len(), 3);
    let bytes = sized.destroy_into_vec();
    assert_eq!(bytes.len(), 24);

    let dropped = ByteBuffer::from_vec(vec![9]);
    dropped.destroy();
}

#[test]
fn package_font_data_sorts_by_unicode() {
    let builder = Builder {
        glyph_buffer: vec![
            GlyphData::from_unicode(90),
            GlyphData::from_unicode(65),
            GlyphData::from_unicode(77),
        ],
        atlas_offsets: vec![(0, 0); 3],
        glyph_dims: vec![(1, 1); 3],
        thread_metadata: Vec::new(),
        atlas_dimensions: (4, 4),
        ascender: 1900,
        descender: -500,
        line_height: 1400,
        units_per_em: 2048,
    };
    let font_data = builder.package_font_data();
    assert_eq!(font_data.line_height, 1400);
    assert_eq!(font_data.units_per_em, 2048);
    assert_eq!(font_data.ascender, 1900);
    assert_eq!(font_data.descender, -500);
    let unicodes: Vec<i32> = font_data.glyph_data.iter().map(|g| g.unicode).collect();
    assert_eq!(unicodes, vec![65, 77, 90]);
}

#[test]
fn package_font_data_keeps_order_of_equal_codepoints() {
    // the packaging sort is stable: two records for the same codepoint stay
    // in build order
    let first = GlyphData::from_unicode(65).with_metrics(1, 1);
    let second = GlyphData::from_unicode(65).with_metrics(2, 2);
    let builder = Builder {
        glyph_buffer: vec![GlyphData::from_unicode(90), first, second],
        atlas_offsets: vec![(0, 0); 3],
        glyph_dims: vec![(1, 1); 3],
        thread_metadata: Vec::new(),
        atlas_dimensions: (4, 4),
        ascender: 0,
        descender: 0,
        line_height: 0,
        units_per_em: 1000,
    };
    let font_data = builder.package_font_data();
    assert_eq!(font_data.glyph_data[0].metrics(), (1, 1));
    assert_eq!(font_data.glyph_data[1].metrics(), (2, 2));
    assert_eq!(font_data.glyph_data[2].unicode, 90);
}

#[test]
fn from_glyph_reads_font_metrics() {
    let font = minimal_font_with_letters();
    let g = GlyphData::from_glyph('A', &font).expect("the font carries 'A'");
    assert_eq!(g.unicode, 65);
    assert_eq!(g.advance, 1200);
    assert_eq!(g.bearings(), (50, 0));
    assert_eq!(g.metrics(), (0, 0));
    assert!(g.has_bitmap);
    assert_eq!(g.uvs(), (0, 0, 0, 0));
    // a codepoint outside the font's map resolves to no record
    assert!(GlyphData::from_glyph('9', &font).is_none());
}

#[test]
fn builds_are_deterministic() {
    // the build contract fixes every field as a function of the font bytes,
    // the characters and the configuration, so two builds agree
    let args = Args::default()
        .with_uniform_scale(1, 32)
        .with_padding(10)
        .with_max_atlas(512);
    let chars: Vec<char> = "CAB".chars().collect();
    let font = minimal_font_with_letters();
    let first = Builder::from_font_data(&font, &chars, &args).expect("first build");
    let second = Builder::from_font_data(&font, &chars, &args).expect("second build");
    assert_eq!(first.atlas_dimensions, second.atlas_dimensions);
    assert_eq!(first.atlas_offsets, second.atlas_offsets);
    assert_eq!(first.glyph_dims, second.glyph_dims);
    assert_eq!(first.ascender, second.ascender);
    assert_eq!(first.units_per_em, second.units_per_em);
    assert_eq!(first.glyph_buffer.len(), second.glyph_buffer.len());
    for i in 0..first.glyph_buffer.len() {
        assert!(first.glyph_buffer[i] == second.glyph_buffer[i]);
    }
}

#[test]
fn tracker_groups_characters_by_row() {
    let args = Args::default()
        .with_uniform_scale(1, 1)
        .with_padding(0)
        .with_max_atlas(100);
    let glyphs = vec![
        GlyphBoundingBoxData::new(
            'a',
            1,
            RectData {
                x_min: 0,
                y_min: 0,
                x_max: 60,
                y_max: 50,
            },
        ),
        GlyphBoundingBoxData::new(
            'b',
            2,
            RectData {
                x_min: 0,
                y_min: 0,
                x_max: 60,
                y_max: 50,
            },
        ),
        GlyphBoundingBoxData::new(
            'c',
            3,
            RectData {
                x_min: 0,
                y_min: 0,
                x_max: 30,
                y_max: 50,
            },
        ),
    ];
    let mut tracker = CharTracker::new();
    let (w, h, heights) = calculate_minimum_atlas_dimensions(&glyphs, &args, &mut tracker);
    assert_eq!(w, 100);
    assert_eq!(h, 100);
    assert_eq!(heights, vec![50, 50]);
    // 'a' fills the first row; 'b' and 'c' share the second
    assert_eq!(tracker.line_count(), 2);
    assert_eq!(tracker.lines[0], vec!['a']);
    assert_eq!(tracker.lines[1], vec!['b', 'c']);
}

#[test]
fn glyph_metrics_helpers() {
    let g = GlyphBoundingBoxData::new(
        'q',
        7,
        RectData {
            x_min: 10,
            y_min: -20,
            x_max: 110,
            y_max: 180,
        },
    );
    assert_eq!(g.area(), 100 * 200);
    assert_eq!(g.get_metrics(), (100, 200));
    assert_eq!(g.calculate_bearings_y(1500), 180 - 1500);
    let args = Args::default().with_uniform_scale(1, 2).with_padding(6);
    assert_eq!(g.get_scaled_glyph_dimensions_with_padding(&args), (53, 103));
    assert_eq!(g.get_scaled_glyph_dimensions_no_padding(&args), (50, 100));
}

#[test]
fn uv_space_flags_combine() {
    let d = UVSpace::default_space();
    assert!(!d.flips_u() && !d.flips_v());
    let u = UVSpace::one_minus_u();
    assert!(u.flips_u() && !u.flips_v());
    let v = UVSpace::one_minus_v();
    assert!(!v.flips_u() && v.flips_v());
    let both = u.union(v);
    assert!(both.flips_u() && both.flips_v());
    assert_eq!(both.bits, 3);
}

#[test]
fn char_tracker_records_and_flushes() {
    let mut t = CharTracker::new();
    t.track_char('x');
    t.track_char('y');
    assert_eq!(t.current, vec!['x', 'y']);
    t.flush_chars();
    assert_eq!(t.line_count(), 1);
    assert!(t.current.is_empty());
    assert_eq!(t.lines[0], vec!['x', 'y']);
}
