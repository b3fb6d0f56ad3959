use gifc::caption::CaptionLine;
use gifc::color::Px;
use gifc::frame::Frame;
use gifc::glyph::{Glyph, TextColor};
use gifc::pipeline::{Pipeline, Timestamp};
use gifc::errors::CaptionError;

const WHITE: Px = Px { r: 255, g: 255, b: 255, a: 255 };

fn dot_glyph() -> Glyph {
    Glyph { width: 1, height: 1, xmin: 0, ymin: 0, coverage: vec![255] }
}

fn plain_frame(left: u16, top: u16, width: u16, height: u16, pixels: Vec<u8>) -> Frame {
    Frame { left, top, width, height, palette: None, transparent: None, pixels }
}

#[test]
fn scenario_two_frames_global_palette() {
    // A 1x1-pixel, 2-frame source with a 2-color global palette, no
    // transparency, and a one-glyph caption.
    let line = CaptionLine::from_glyphs(vec![dot_glyph()]).unwrap();
    let global = Some(vec![10, 20, 30, 200, 210, 220]);
    let frames = vec![
        plain_frame(0, 0, 1, 1, vec![0]),
        plain_frame(0, 0, 1, 1, vec![1]),
    ];
    let outs = Pipeline::run(1, 1, &line, TextColor::Dark, 60, global, &frames).unwrap();
    assert_eq!(outs.len(), 2);
    for (i, out) in outs.iter().enumerate() {
        // Round-trip dimensions: width kept, height grown by the band.
        assert_eq!(out.rows.len(), 1 + 128);
        assert!(out.rows.iter().all(|r| r.len() == 1));
        assert_eq!(out.index, i as u64);
        assert_eq!(out.timestamp, Timestamp { num: i as u64, den: 60 });
    }
    // The frame row shows the palette color of each frame's index.
    assert_eq!(outs[0].rows[128][0], Px { r: 10, g: 20, b: 30, a: 255 });
    assert_eq!(outs[1].rows[128][0], Px { r: 200, g: 210, b: 220, a: 255 });
    // The band shows the glyph: full coverage under the dark policy is
    // black, at text row 48, centered at column 0; the row above is white.
    assert_eq!(outs[0].rows[48][0], Px { r: 0, g: 0, b: 0, a: 255 });
    assert_eq!(outs[0].rows[47][0], WHITE);
    assert_eq!(outs[1].rows[48][0], Px { r: 0, g: 0, b: 0, a: 255 });
}

#[test]
fn scenario_transparent_index_keeps_prior_value() {
    // Frame 1 paints (0,0); frame 2's pixel there has the transparent
    // index, so the canvas keeps frame 1's color, not the palette's color
    // for index 5.
    let line = CaptionLine::from_glyphs(vec![]).unwrap();
    let mut palette = vec![0u8; 18];
    palette[0] = 40;
    palette[1] = 50;
    palette[2] = 60;
    palette[15] = 90;
    palette[16] = 91;
    palette[17] = 92;
    let global = Some(palette);
    let f1 = plain_frame(0, 0, 1, 1, vec![0]);
    let mut f2 = plain_frame(0, 0, 1, 1, vec![5]);
    f2.transparent = Some(5);
    let frames = vec![f1, f2];
    let outs = Pipeline::run(1, 1, &line, TextColor::Dark, 60, global, &frames).unwrap();
    assert_eq!(outs.len(), 2);
    assert_eq!(outs[0].rows[128][0], Px { r: 40, g: 50, b: 60, a: 255 });
    assert_eq!(outs[1].rows[128][0], Px { r: 40, g: 50, b: 60, a: 255 });
}

#[test]
fn scenario_empty_caption_band_stays_light() {
    // An empty caption: zero total width and an untouched, all-white band.
    let line = CaptionLine::from_glyphs(vec![]).unwrap();
    assert_eq!(line.total_width, 0);
    assert_eq!(line.total_height, 0);
    let p = Pipeline::new(4, 2, &line, TextColor::Dark, 60, None);
    assert_eq!(p.canvas.width, 4);
    assert_eq!(p.canvas.height, 2 + 128);
    for r in 0..p.canvas.height {
        for x in 0..p.canvas.width {
            assert_eq!(p.canvas.px_at(r, x), WHITE);
        }
    }
}

#[test]
fn scenario_missing_palette_fails_before_output() {
    // No local palette and no global one: the run fails naming frame 0.
    let line = CaptionLine::from_glyphs(vec![]).unwrap();
    let frames = vec![plain_frame(0, 0, 1, 1, vec![0])];
    let r = Pipeline::run(1, 1, &line, TextColor::Dark, 60, None, &frames);
    match r {
        Ok(_) => panic!("a frame without any palette was accepted"),
        Err(e) => assert_eq!(e, CaptionError::MissingPalette(0)),
    }
}

#[test]
fn missing_palette_reports_failing_frame_index() {
    // The first frame carries its own palette, the second has none.
    let f1 = Frame {
        left: 0,
        top: 0,
        width: 1,
        height: 1,
        palette: Some(vec![1, 2, 3]),
        transparent: None,
        pixels: vec![0],
    };
    let f2 = plain_frame(0, 0, 1, 1, vec![0]);
    let line = CaptionLine::from_glyphs(vec![]).unwrap();
    let r = Pipeline::run(1, 1, &line, TextColor::Dark, 60, None, &vec![f1, f2]);
    match r {
        Ok(_) => panic!("a frame without any palette was accepted"),
        Err(e) => assert_eq!(e, CaptionError::MissingPalette(1)),
    }
}

#[test]
fn index_outside_palette_is_a_decode_error() {
    // A drawn index with no RGB triple in the palette is a malformed
    // stream.
    let line = CaptionLine::from_glyphs(vec![]).unwrap();
    let global = Some(vec![1, 2, 3]);
    let frames = vec![plain_frame(0, 0, 1, 1, vec![1])];
    let r = Pipeline::run(1, 1, &line, TextColor::Dark, 60, global, &frames);
    match r {
        Ok(_) => panic!("an index outside the palette was accepted"),
        Err(e) => assert_eq!(e, CaptionError::Decode(0)),
    }
}

#[test]
fn transparent_out_of_range_index_is_skipped_not_rejected() {
    // An out-of-range index that equals the transparent index is never
    // resolved, so the frame is accepted and the cell keeps its value.
    let line = CaptionLine::from_glyphs(vec![]).unwrap();
    let global = Some(vec![1, 2, 3]);
    let mut f = plain_frame(0, 0, 1, 1, vec![9]);
    f.transparent = Some(9);
    let outs = Pipeline::run(1, 1, &line, TextColor::Dark, 60, global, &vec![f]).unwrap();
    assert_eq!(outs[0].rows[128][0], WHITE);
}

#[test]
fn partial_frame_leaves_rest_of_canvas() {
    // A 1x1 frame at (1,1) of a 2x2 source: only that cell changes; the
    // whole band and the other source cells stay white.
    let line = CaptionLine::from_glyphs(vec![]).unwrap();
    let global = Some(vec![7, 8, 9]);
    let frames = vec![plain_frame(1, 1, 1, 1, vec![0])];
    let outs = Pipeline::run(2, 2, &line, TextColor::Dark, 60, global, &frames).unwrap();
    let rows = &outs[0].rows;
    for r in 0..128 {
        assert_eq!(rows[r], vec![WHITE, WHITE]);
    }
    assert_eq!(rows[128], vec![WHITE, WHITE]);
    assert_eq!(rows[129][0], WHITE);
    assert_eq!(rows[129][1], Px { r: 7, g: 8, b: 9, a: 255 });
}

#[test]
fn local_palette_wins_over_global() {
    let line = CaptionLine::from_glyphs(vec![]).unwrap();
    let global = Some(vec![1, 1, 1]);
    let f = Frame {
        left: 0,
        top: 0,
        width: 1,
        height: 1,
        palette: Some(vec![100, 101, 102]),
        transparent: None,
        pixels: vec![0],
    };
    let outs = Pipeline::run(1, 1, &line, TextColor::Dark, 60, global, &vec![f]).unwrap();
    assert_eq!(outs[0].rows[128][0], Px { r: 100, g: 101, b: 102, a: 255 });
}

#[test]
fn timestamps_follow_index_over_fps() {
    let line = CaptionLine::from_glyphs(vec![]).unwrap();
    let global = Some(vec![0, 0, 0]);
    let frames = vec![
        plain_frame(0, 0, 1, 1, vec![0]),
        plain_frame(0, 0, 1, 1, vec![0]),
        plain_frame(0, 0, 1, 1, vec![0]),
    ];
    let outs = Pipeline::run(1, 1, &line, TextColor::Dark, 100, global, &frames).unwrap();
    let ts: Vec<Timestamp> = outs.iter().map(|o| o.timestamp).collect();
    assert_eq!(ts[0], Timestamp { num: 0, den: 100 });
    assert_eq!(ts[1], Timestamp { num: 1, den: 100 });
    assert_eq!(ts[2], Timestamp { num: 2, den: 100 });
    // Strictly increasing as rationals.
    assert!(ts[0].num * ts[1].den < ts[1].num * ts[0].den);
    assert!(ts[1].num * ts[2].den < ts[2].num * ts[1].den);
}
