use whatszara::captcha::{draw_captcha, render_captcha_image, Dot, Glyph, Stroke, CANVAS_LEN};

fn pixel(c: &[u8], x: usize, y: usize) -> (u8, u8, u8) {
    let i = (y * 300 + x) * 3;
    (c[i], c[i + 1], c[i + 2])
}

#[test]
fn blank_canvas_is_light_grey() {
    let c = draw_captcha("", &vec![], &vec![], &vec![]);
    assert_eq!(c.len(), CANVAS_LEN);
    assert!(c.iter().all(|b| *b == 240));
}

#[test]
fn dots_are_painted_where_asked() {
    let dots = vec![Dot { x: 0, y: 0, color: (1, 2, 3) }, Dot { x: 299, y: 99, color: (4, 5, 6) }];
    let c = draw_captcha("", &vec![], &dots, &vec![]);
    assert_eq!(pixel(&c, 0, 0), (1, 2, 3));
    assert_eq!(pixel(&c, 299, 99), (4, 5, 6));
    assert_eq!(pixel(&c, 1, 0), (240, 240, 240));
}

#[test]
fn lines_cover_both_ends_and_the_path_between() {
    let strokes = vec![
        Stroke { x1: 10, y1: 5, x2: 13, y2: 5, color: (9, 9, 9) },
        Stroke { x1: 50, y1: 50, x2: 47, y2: 53, color: (7, 7, 7) },
    ];
    let c = draw_captcha("", &strokes, &vec![], &vec![]);
    for x in 10..=13 {
        assert_eq!(pixel(&c, x, 5), (9, 9, 9));
    }
    assert_eq!(pixel(&c, 14, 5), (240, 240, 240));
    assert_eq!(pixel(&c, 9, 5), (240, 240, 240));
    for k in 0..=3 {
        assert_eq!(pixel(&c, 50 - k, 50 + k), (7, 7, 7));
    }
}

#[test]
fn each_character_is_a_disc() {
    let glyphs = vec![Glyph { drop: 0, color: (1, 1, 1) }];
    let c = draw_captcha("A", &vec![], &vec![], &glyphs);
    // one byte of text: characters 150 pixels apart, the box at (145, 30)
    assert_eq!(pixel(&c, 149, 34), (1, 1, 1));
    assert_eq!(pixel(&c, 149, 30), (1, 1, 1));
    assert_eq!(pixel(&c, 145, 34), (1, 1, 1));
    assert_eq!(pixel(&c, 145, 30), (240, 240, 240));
    assert_eq!(pixel(&c, 153, 38), (240, 240, 240));
    assert_eq!(pixel(&c, 150, 35), (1, 1, 1));
}

#[test]
fn later_characters_step_across() {
    let glyphs = vec![Glyph { drop: 19, color: (2, 2, 2) }, Glyph { drop: 0, color: (3, 3, 3) }];
    let c = draw_captcha("AB", &vec![], &vec![], &glyphs);
    // two bytes: 100 pixels apart, boxes at (95, 49) and (195, 30)
    assert_eq!(pixel(&c, 99, 53), (2, 2, 2));
    assert_eq!(pixel(&c, 199, 34), (3, 3, 3));
}

fn decode_base64(text: &[u8]) -> Vec<u8> {
    let value = |c: u8| -> u32 {
        match c {
            b'A'..=b'Z' => (c - b'A') as u32,
            b'a'..=b'z' => (c - b'a') as u32 + 26,
            b'0'..=b'9' => (c - b'0') as u32 + 52,
            b'+' => 62,
            b'/' => 63,
            _ => panic!("not a base64 digit"),
        }
    };
    let mut out = Vec::new();
    for chunk in text.chunks(4) {
        let pads = chunk.iter().filter(|c| **c == b'=').count();
        let mut n: u32 = 0;
        for c in chunk {
            n = n * 64 + if *c == b'=' { 0 } else { value(*c) };
        }
        let bytes = [(n >> 16) as u8, (n >> 8) as u8, n as u8];
        out.extend_from_slice(&bytes[..3 - pads]);
    }
    out
}

#[test]
fn rendered_captcha_is_a_base64_png_of_the_right_size() {
    let text = render_captcha_image("AB12CD");
    assert_eq!(text.len() % 4, 0);
    assert!(text.starts_with(b"iVBORw0KGgo"));
    let png = decode_base64(&text);
    assert_eq!(&png[..8], &[137, 80, 78, 71, 13, 10, 26, 10]);
    let img = image::load_from_memory(&png).unwrap();
    assert_eq!((img.width(), img.height()), (300, 100));
    assert!(render_captcha_image("").len() > 8);
}
