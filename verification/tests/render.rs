use cosmicsnip::render::{check_snip_size, decode_png, encode_png};
use tiny_skia::{Color, LineCap, LineJoin, Paint, PathBuilder, Pixmap, Stroke, Transform};

fn white(w: u32, h: u32) -> Pixmap {
    let mut p = Pixmap::new(w, h).unwrap();
    p.fill(Color::WHITE);
    p
}

fn rgba(p: &Pixmap, x: u32, y: u32) -> [u8; 4] {
    let c = p.pixel(x, y).unwrap().demultiply();
    [c.red(), c.green(), c.blue(), c.alpha()]
}

/// A red pen line 3 px wide from (5, 20) to (35, 20), as the editor paints it.
fn with_pen_line(base: &Pixmap) -> Pixmap {
    let mut out = base.clone();
    let mut pb = PathBuilder::new();
    pb.move_to(5.0, 20.0);
    pb.line_to(35.0, 20.0);
    let path = pb.finish().unwrap();
    let mut paint = Paint::default();
    paint.set_color(Color::from_rgba(0.93, 0.16, 0.16, 1.0).unwrap());
    paint.anti_alias = true;
    let pen = Stroke {
        width: 3.0,
        line_cap: LineCap::Round,
        line_join: LineJoin::Round,
        ..Stroke::default()
    };
    out.stroke_path(&path, &paint, &pen, Transform::identity(), None);
    out
}

#[test]
fn png_round_trips_the_pixels() {
    let out = with_pen_line(&white(40, 40));
    let back = decode_png(&encode_png(&out).unwrap()).unwrap();
    assert_eq!(rgba(&back, 20, 20), rgba(&out, 20, 20));
    assert_eq!((back.width(), back.height()), (40, 40));
}

#[test]
fn garbage_is_refused_with_a_reason() {
    assert!(decode_png(b"not a png")
        .unwrap_err()
        .contains("not a readable PNG"));
}

#[test]
fn an_oversized_snip_is_refused() {
    let wide = encode_png(&white(15_361, 1)).unwrap();
    assert_eq!(
        decode_png(&wide).unwrap_err(),
        "the snip is 15361x1, larger than the 15360x8640 this app accepts"
    );
    let fits = encode_png(&white(15_360, 2)).unwrap();
    assert_eq!(decode_png(&fits).unwrap().width(), 15_360);
}

#[test]
fn the_size_limit_is_16k() {
    assert!(check_snip_size(15_360, 8_640).is_ok());
    assert_eq!(
        check_snip_size(100, 8_641).unwrap_err(),
        "the snip is 100x8641, larger than the 15360x8640 this app accepts"
    );
}

#[test]
fn encoding_gives_a_png() {
    let bytes = encode_png(&white(3, 2)).unwrap();
    assert_eq!(&bytes[..8], &[0x89, b'P', b'N', b'G', 0x0d, 0x0a, 0x1a, 0x0a]);
}

#[test]
fn sizes_are_written_in_decimal() {
    assert_eq!(
        check_snip_size(15_361, 0).unwrap_err(),
        "the snip is 15361x0, larger than the 15360x8640 this app accepts"
    );
    assert_eq!(
        check_snip_size(u32::MAX, 9).unwrap_err(),
        "the snip is 4294967295x9, larger than the 15360x8640 this app accepts"
    );
}

#[test]
fn the_reason_is_the_decoders_own() {
    let reason = Pixmap::decode_png(b"not a png").unwrap_err().to_string();
    assert_eq!(
        decode_png(b"not a png").unwrap_err(),
        format!("not a readable PNG: {reason}")
    );
}
