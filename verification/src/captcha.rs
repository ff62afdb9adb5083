use vstd::prelude::*;
use vstd::string::*;
use crate::text::chars_of;
use crate::encoding::{base64, base64_encode};

verus! {

/// The width of a captcha image, in pixels.
pub const CAPTCHA_WIDTH: u32 = 300;

/// The height of a captcha image, in pixels.
pub const CAPTCHA_HEIGHT: u32 = 100;

/// The number of bytes of a captcha image: three per pixel, row by row.
pub const CANVAS_LEN: usize = 90000;

/// The radius of the disc drawn for each character.
pub const GLYPH_RADIUS: i32 = 4;

/// An RGB colour.
pub type Rgb = (u8, u8, u8);

/// The bytes of an RGB image of the captcha's size, row by row.
pub open spec fn background() -> Seq<u8> {
    Seq::new(CANVAS_LEN as nat, |i: int| 240u8)
}

/// `c` with pixel `(x, y)` painted `color`; pixels outside the image are left alone.
pub open spec fn plot(c: Seq<u8>, x: int, y: int, color: Rgb) -> Seq<u8> {
    if 0 <= x < CAPTCHA_WIDTH && 0 <= y < CAPTCHA_HEIGHT {
        let i = (y * CAPTCHA_WIDTH + x) * 3;
        c.update(i, color.0).update(i + 1, color.1).update(i + 2, color.2)
    } else {
        c
    }
}

/// The fixed quantities of a line from `(x1, y1)` to `(x2, y2)`.
pub struct LineGeom {
    pub x2: int,
    pub y2: int,
    pub dx: int,
    pub dy: int,
    pub sx: int,
    pub sy: int,
}

/// The geometry of the line from `(x1, y1)` to `(x2, y2)`.
pub open spec fn geom(x1: int, y1: int, x2: int, y2: int) -> LineGeom {
    LineGeom {
        x2,
        y2,
        dx: if x2 >= x1 { x2 - x1 } else { x1 - x2 },
        dy: -(if y2 >= y1 { y2 - y1 } else { y1 - y2 }),
        sx: if x1 < x2 { 1 } else { -1 },
        sy: if y1 < y2 { 1 } else { -1 },
    }
}

/// Bresenham's walk: from `(x, y)` with error term `err`, plot each point
/// and step towards the end of the line, for at most `fuel` points.
pub open spec fn walk(c: Seq<u8>, x: int, y: int, err: int, g: LineGeom, color: Rgb, fuel: nat) -> Seq<u8>
    decreases fuel,
{
    if fuel == 0 {
        c
    } else {
        let c1 = plot(c, x, y, color);
        if x == g.x2 && y == g.y2 {
            c1
        } else {
            let e2 = 2 * err;
            let err1 = if e2 >= g.dy { err + g.dy } else { err };
            let xn = if e2 >= g.dy { x + g.sx } else { x };
            let err2 = if e2 <= g.dx { err1 + g.dx } else { err1 };
            let yn = if e2 <= g.dx { y + g.sy } else { y };
            walk(c1, xn, yn, err2, g, color, (fuel - 1) as nat)
        }
    }
}

/// `c` with the line from `(x1, y1)` to `(x2, y2)` drawn in `color`, as
/// Bresenham's algorithm draws it; it ends after `dx + |dy| + 1` points at most.
pub open spec fn line(c: Seq<u8>, x1: int, y1: int, x2: int, y2: int, color: Rgb) -> Seq<u8> {
    let g = geom(x1, y1, x2, y2);
    walk(c, x1, y1, g.dx + g.dy, g, color, (g.dx - g.dy + 1) as nat)
}

/// At each point of the walk, at least one coordinate moves, and neither
/// moves past its end.
proof fn lemma_walk_step(dx: int, b: int, nx: int, ny: int)
    requires
        dx >= 0,
        b >= 0,
        0 <= nx <= dx,
        0 <= ny <= b,
        !(nx == dx && ny == b),
    ensures
        ({
            let e2 = 2 * (dx * (1 + ny) - b * (1 + nx));
            &&& e2 >= -b ==> nx < dx
            &&& e2 <= dx ==> ny < b
            &&& e2 >= -b || e2 <= dx
        }),
{
    let e2 = 2 * (dx * (1 + ny) - b * (1 + nx));
    if nx == dx {
        assert(ny + 1 <= b);
        assert(dx * (1 + ny) <= dx * b) by (nonlinear_arith)
            requires
                dx >= 0,
                1 + ny <= b,
        ;
        assert(b * (1 + nx) == b + b * dx) by (nonlinear_arith)
            requires
                nx == dx,
        ;
        assert(b * dx == dx * b) by (nonlinear_arith);
    }
    if ny == b {
        assert(nx + 1 <= dx);
        assert(b * (1 + nx) <= b * dx) by (nonlinear_arith)
            requires
                b >= 0,
                1 + nx <= dx,
        ;
        assert(dx * (1 + ny) == dx + dx * b) by (nonlinear_arith)
            requires
                ny == b,
        ;
        assert(b * dx == dx * b) by (nonlinear_arith);
    }
}

proof fn lemma_err_bounds(dx: int, b: int, nx: int, ny: int)
    requires
        0 <= dx <= 1000,
        0 <= b <= 1000,
        0 <= nx <= dx,
        0 <= ny <= b,
    ensures
        -2_000_000 <= dx * (1 + ny) - b * (1 + nx) <= 2_000_000,
{
    assert(0 <= dx * (1 + ny) <= 1000 * 1001) by (nonlinear_arith)
        requires
            0 <= dx <= 1000,
            0 <= ny <= b <= 1000,
    ;
    assert(0 <= b * (1 + nx) <= 1000 * 1001) by (nonlinear_arith)
        requires
            0 <= b <= 1000,
            0 <= nx <= dx <= 1000,
    ;
}

/// Paints pixel `(x, y)`, when it lies in the image.
fn plot_exec(c: &mut Vec<u8>, x: i32, y: i32, color: Rgb)
    requires
        old(c)@.len() == CANVAS_LEN,
    ensures
        final(c)@ == plot(old(c)@, x as int, y as int, color),
{
    if 0 <= x && x < 300 && 0 <= y && y < 100 {
        let i = ((y * 300 + x) * 3) as usize;
        c.set(i, color.0);
        c.set(i + 1, color.1);
        c.set(i + 2, color.2);
    }
}

/// Draws the line from `(x1, y1)` to `(x2, y2)` with Bresenham's algorithm.
fn draw_line(c: &mut Vec<u8>, x1: u32, y1: u32, x2: u32, y2: u32, color: Rgb)
    requires
        old(c)@.len() == CANVAS_LEN,
        x1 <= 1000,
        y1 <= 1000,
        x2 <= 1000,
        y2 <= 1000,
    ensures
        final(c)@.len() == CANVAS_LEN,
        final(c)@ == line(old(c)@, x1 as int, y1 as int, x2 as int, y2 as int, color),
{
    let ghost g = geom(x1 as int, y1 as int, x2 as int, y2 as int);
    let xa = x1 as i32;
    let ya = y1 as i32;
    let xb = x2 as i32;
    let yb = y2 as i32;
    let dx: i32 = if xb >= xa { xb - xa } else { xa - xb };
    let dy: i32 = -(if yb >= ya { yb - ya } else { ya - yb });
    let sx: i32 = if xa < xb { 1 } else { -1 };
    let sy: i32 = if ya < yb { 1 } else { -1 };
    let mut err: i32 = dx + dy;
    let mut x = xa;
    let mut y = ya;
    let ghost b: int = -dy;
    let ghost mut nx: int = 0;
    let ghost mut ny: int = 0;
    let ghost mut fuel: nat = (dx - dy + 1) as nat;
    let ghost start = c@;
    assert(dx * (1 + 0int) - b * (1 + 0int) == dx + dy) by (nonlinear_arith)
        requires
            b == -dy,
    ;
    loop
        invariant_except_break
            line(start, x1 as int, y1 as int, x2 as int, y2 as int, color) == walk(c@, x as int, y as int, err as int, g, color, fuel),
        invariant
            c@.len() == CANVAS_LEN,
            start == old(c)@,
            g == geom(x1 as int, y1 as int, x2 as int, y2 as int),
            g.dx == dx,
            g.dy == dy,
            g.sx == sx,
            g.sy == sy,
            g.x2 == xb,
            g.y2 == yb,
            b == -dy,
            0 <= dx <= 1000,
            0 <= b <= 1000,
            0 <= nx <= dx,
            0 <= ny <= b,
            x == xa + sx * nx,
            y == ya + sy * ny,
            xb == xa + sx * dx,
            yb == ya + sy * b,
            sx == 1 || sx == -1,
            sy == 1 || sy == -1,
            err == dx * (1 + ny) - b * (1 + nx),
            fuel >= (dx - nx) + (b - ny) + 1,
        ensures
            c@.len() == CANVAS_LEN,
            c@ == line(start, x1 as int, y1 as int, x2 as int, y2 as int, color),
        decreases (dx - nx) + (b - ny),
    {
        proof {
            lemma_err_bounds(dx as int, b, nx, ny);
        }
        let ghost cb = c@;
        plot_exec(c, x, y, color);
        if x == xb && y == yb {
            assert(walk(cb, x as int, y as int, err as int, g, color, fuel) == c@);
            break;
        }
        proof {
            assert(!(nx == dx && ny == b)) by {
                if nx == dx && ny == b {
                    assert(x == xb && y == yb);
                }
            }
            lemma_walk_step(dx as int, b, nx, ny);
        }
        let e2 = 2 * err;
        let ghost old_nx = nx;
        let ghost old_ny = ny;
        if e2 >= dy {
            err = err + dy;
            x = x + sx;
            proof {
                nx = nx + 1;
                assert(b * (1 + nx) == b * (1 + old_nx) + b) by (nonlinear_arith)
                    requires
                        nx == old_nx + 1,
                ;
                assert(sx * nx == sx * old_nx + sx) by (nonlinear_arith)
                    requires
                        nx == old_nx + 1,
                ;
            }
        }
        if e2 <= dx {
            err = err + dx;
            y = y + sy;
            proof {
                ny = ny + 1;
                assert(dx * (1 + ny) == dx * (1 + old_ny) + dx) by (nonlinear_arith)
                    requires
                        ny == old_ny + 1,
                ;
                assert(sy * ny == sy * old_ny + sy) by (nonlinear_arith)
                    requires
                        ny == old_ny + 1,
                ;
            }
        }
        proof {
            fuel = (fuel - 1) as nat;
        }
    }
}

// ---------------------------------------------------------------- characters

/// Whether offset `(dx, dy)` from the corner of a 9 by 9 box lies in the
/// disc of radius 4 around its centre.
pub open spec fn in_disc(dx: int, dy: int) -> bool {
    (dx - 4) * (dx - 4) + (dy - 4) * (dy - 4) <= 16
}

/// `c` with the points `dx..9` of row `dy` of the disc whose box has its corner at `(x, y)`.
pub open spec fn disc_row(c: Seq<u8>, x: int, y: int, dy: int, dx: int, color: Rgb) -> Seq<u8>
    decreases 9 - dx,
{
    if dx >= 9 {
        c
    } else {
        let c1 = if in_disc(dx, dy) { plot(c, x + dx, y + dy, color) } else { c };
        disc_row(c1, x, y, dy, dx + 1, color)
    }
}

/// `c` with rows `dy..9` of the disc whose box has its corner at `(x, y)`.
pub open spec fn disc_rows(c: Seq<u8>, x: int, y: int, dy: int, color: Rgb) -> Seq<u8>
    decreases 9 - dy,
{
    if dy >= 9 {
        c
    } else {
        disc_rows(disc_row(c, x, y, dy, 0, color), x, y, dy + 1, color)
    }
}

/// `c` with the disc that stands for a character, its box's corner at `(x, y)`.
pub open spec fn disc(c: Seq<u8>, x: int, y: int, color: Rgb) -> Seq<u8> {
    disc_rows(c, x, y, 0, color)
}

/// Draws the disc that stands for a character, its box's corner at `(x, y)`.
fn draw_char(c: &mut Vec<u8>, x: u32, y: u32, color: Rgb)
    requires
        old(c)@.len() == CANVAS_LEN,
        x <= 20000,
        y <= 1000,
    ensures
        final(c)@.len() == CANVAS_LEN,
        final(c)@ == disc(old(c)@, x as int, y as int, color),
{
    let ghost start = c@;
    let mut dy: i32 = 0;
    while dy <= 8
        invariant
            0 <= dy <= 9,
            x <= 20000,
            y <= 1000,
            c@.len() == CANVAS_LEN,
            disc(start, x as int, y as int, color) == disc_rows(c@, x as int, y as int, dy as int, color),
        decreases 9 - dy,
    {
        let ghost row_start = c@;
        let mut dx: i32 = 0;
        while dx <= 8
            invariant
                0 <= dx <= 9,
                0 <= dy <= 8,
                x <= 20000,
                y <= 1000,
                c@.len() == CANVAS_LEN,
                disc_row(row_start, x as int, y as int, dy as int, 0, color) == disc_row(c@, x as int, y as int, dy as int, dx as int, color),
            decreases 9 - dx,
        {
            let px = x as i32 + dx;
            let py = y as i32 + dy;
            let ddx = dx - 4;
            let ddy = dy - 4;
            assert(0 <= ddx * ddx <= 16 && 0 <= ddy * ddy <= 16) by (nonlinear_arith)
                requires
                    -4 <= ddx <= 4,
                    -4 <= ddy <= 4,
            ;
            let dist = ddx * ddx + ddy * ddy;
            if dist <= 16 {
                plot_exec(c, px, py, color);
            }
            dx += 1;
        }
        dy += 1;
    }
}

/// `rand::thread_rng().gen_range(0..n)`: a random index below `n`. Only its
/// range is stated; which index comes back is chance.
#[verifier::external_body]
pub(crate) fn random_below(n: usize) -> (r: usize)
    requires
        n > 0,
    ensures
        r < n,
{
    rand::Rng::gen_range(&mut rand::thread_rng(), 0..n)
}

// ---------------------------------------------------------------- the whole image

/// A line of noise across the image.
#[derive(Clone, Copy, Debug)]
pub struct Stroke {
    pub x1: u32,
    pub y1: u32,
    pub x2: u32,
    pub y2: u32,
    pub color: Rgb,
}

/// A dot of noise.
#[derive(Clone, Copy, Debug)]
pub struct Dot {
    pub x: u32,
    pub y: u32,
    pub color: Rgb,
}

/// How one character is drawn: how far below the top band it sits, and its colour.
#[derive(Clone, Copy, Debug)]
pub struct Glyph {
    pub drop: u32,
    pub color: Rgb,
}

/// `c` with the lines of `s` drawn in order.
pub open spec fn strokes_on(c: Seq<u8>, s: Seq<Stroke>) -> Seq<u8>
    decreases s.len(),
{
    if s.len() == 0 {
        c
    } else {
        let l = s.last();
        line(strokes_on(c, s.drop_last()), l.x1 as int, l.y1 as int, l.x2 as int, l.y2 as int, l.color)
    }
}

/// `c` with the dots of `d` painted in order.
pub open spec fn dots_on(c: Seq<u8>, d: Seq<Dot>) -> Seq<u8>
    decreases d.len(),
{
    if d.len() == 0 {
        c
    } else {
        plot(dots_on(c, d.drop_last()), d.last().x as int, d.last().y as int, d.last().color)
    }
}

/// `c` with the characters drawn in order, `step` pixels apart: character
/// `i` (from 0) at `step * (i + 1) - 5` across and `30 + drop` down.
pub open spec fn glyphs_on(c: Seq<u8>, g: Seq<Glyph>, step: int) -> Seq<u8>
    decreases g.len(),
{
    if g.len() == 0 {
        c
    } else {
        disc(glyphs_on(c, g.drop_last(), step), step * g.len() - 5, 30 + g.last().drop, g.last().color)
    }
}

/// The spacing of the characters of a text of `byte_len` bytes.
pub open spec fn glyph_step(byte_len: nat) -> int {
    CAPTCHA_WIDTH as int / (byte_len + 1) as int
}

/// The captcha image of a text of `byte_len` bytes: a light grey ground,
/// the lines of `s`, the dots of `d`, then one disc per character.
pub open spec fn captcha_canvas(byte_len: nat, s: Seq<Stroke>, d: Seq<Dot>, g: Seq<Glyph>) -> Seq<u8> {
    glyphs_on(dots_on(strokes_on(background(), s), d), g, glyph_step(byte_len))
}

/// The random values are in the ranges the image is drawn with.
pub open spec fn draws_in_range(s: Seq<Stroke>, d: Seq<Dot>, g: Seq<Glyph>) -> bool {
    &&& forall|i: int| 0 <= i < s.len() ==> #[trigger] s[i].x1 < CAPTCHA_WIDTH && s[i].x2 < CAPTCHA_WIDTH
        && s[i].y1 < CAPTCHA_HEIGHT && s[i].y2 < CAPTCHA_HEIGHT
    &&& forall|i: int| 0 <= i < d.len() ==> #[trigger] d[i].x < CAPTCHA_WIDTH && d[i].y < CAPTCHA_HEIGHT
    &&& forall|i: int| 0 <= i < g.len() ==> #[trigger] g[i].drop < 20
}

/// A text has no more characters than its UTF-8 encoding has bytes.
pub proof fn lemma_chars_within_bytes(chars: Seq<char>)
    ensures
        chars.len() <= vstd::utf8::encode_utf8(chars).len(),
    decreases chars.len(),
{
    if chars.len() > 0 {
        lemma_chars_within_bytes(chars.drop_first());
    }
}

/// Draws the captcha image of `text` with the given noise and characters.
pub fn draw_captcha(text: &str, strokes: &Vec<Stroke>, dots: &Vec<Dot>, glyphs: &Vec<Glyph>) -> (r: Vec<u8>)
    requires
        text.spec_bytes().len() <= 59,
        glyphs.len() == text@.len(),
        draws_in_range(strokes@, dots@, glyphs@),
    ensures
        r@.len() == CANVAS_LEN,
        r@ == captcha_canvas(text.spec_bytes().len(), strokes@, dots@, glyphs@),
{
    let mut c: Vec<u8> = Vec::new();
    let mut k: usize = 0;
    while k < CANVAS_LEN
        invariant
            k <= CANVAS_LEN,
            c@ == background().take(k as int),
        decreases CANVAS_LEN - k,
    {
        c.push(240u8);
        assert(background().take(k + 1) =~= background().take(k as int).push(240u8));
        k += 1;
    }
    assert(background().take(CANVAS_LEN as int) =~= background());
    let mut i: usize = 0;
    while i < strokes.len()
        invariant
            i <= strokes.len(),
            c@.len() == CANVAS_LEN,
            draws_in_range(strokes@, dots@, glyphs@),
            c@ == strokes_on(background(), strokes@.take(i as int)),
        decreases strokes.len() - i,
    {
        let s = strokes[i];
        assert(strokes@.take(i + 1).drop_last() =~= strokes@.take(i as int));
        draw_line(&mut c, s.x1, s.y1, s.x2, s.y2, s.color);
        i += 1;
    }
    assert(strokes@.take(strokes.len() as int) =~= strokes@);
    let ghost lined = c@;
    let mut j: usize = 0;
    while j < dots.len()
        invariant
            j <= dots.len(),
            c@.len() == CANVAS_LEN,
            draws_in_range(strokes@, dots@, glyphs@),
            c@ == dots_on(lined, dots@.take(j as int)),
        decreases dots.len() - j,
    {
        let d = dots[j];
        assert(dots@.take(j + 1).drop_last() =~= dots@.take(j as int));
        plot_exec(&mut c, d.x as i32, d.y as i32, d.color);
        j += 1;
    }
    assert(dots@.take(dots.len() as int) =~= dots@);
    let ghost dotted = c@;
    let byte_len = text.len();
    proof { lemma_chars_within_bytes(text@); }
    assert(glyphs.len() <= 59);
    let divisor: u32 = byte_len as u32 + 1;
    let step: u32 = 300 / divisor;
    assert(step as int == glyph_step(text.spec_bytes().len()));
    assert(300u32 / divisor >= 5 && 300u32 / divisor <= 300) by (nonlinear_arith)
        requires
            1 <= divisor <= 60,
    ;
    let mut m: usize = 0;
    while m < glyphs.len()
        invariant
            m <= glyphs.len() <= 59,
            step >= 5,
            step <= 300,
            step as int == glyph_step(text.spec_bytes().len()),
            c@.len() == CANVAS_LEN,
            draws_in_range(strokes@, dots@, glyphs@),
            c@ == glyphs_on(dotted, glyphs@.take(m as int), step as int),
        decreases glyphs.len() - m,
    {
        let g = glyphs[m];
        assert(glyphs@.take(m + 1).drop_last() =~= glyphs@.take(m as int));
        assert(step * (m as u32 + 1) <= 300 * 60) by (nonlinear_arith)
            requires
                step <= 300,
                m < 59,
        ;
        assert(step * (m as u32 + 1) >= 5) by (nonlinear_arith)
            requires
                step >= 5,
        ;
        let x = step * (m as u32 + 1) - 5;
        assert(x as int == step * (m + 1) - 5);
        draw_char(&mut c, x, 30 + g.drop, g.color);
        m += 1;
    }
    assert(glyphs@.take(glyphs.len() as int) =~= glyphs@);
    c
}

/// The bytes of the PNG file that the `image` crate writes for an RGB image
/// of the given size and pixels.
pub uninterp spec fn png_bytes(width: u32, height: u32, pixels: Seq<u8>) -> Seq<u8>;

/// `image::RgbImage::from_raw` and `write_to` with the PNG format: the PNG
/// file of the image, named `png_bytes`. The buffer always fits the size
/// here, and writing into memory does not fail, so the empty result of
/// either failure is not reached; the encoding itself is not written out.
#[verifier::external_body]
fn encode_png(width: u32, height: u32, pixels: Vec<u8>) -> (r: Vec<u8>)
    requires
        pixels.len() == width * height * 3,
    ensures
        r@ == png_bytes(width, height, pixels@),
{
    let mut buf = std::io::Cursor::new(Vec::new());
    if let Some(img) = image::RgbImage::from_raw(width, height, pixels) {
        img.write_to(&mut buf, image::ImageFormat::Png).ok();
    }
    buf.into_inner()
}

/// A random colour with each channel in `lo..hi`.
fn random_color(lo: u8, hi: u8) -> (r: Rgb)
    requires
        lo < hi,
    ensures
        lo <= r.0 < hi,
        lo <= r.1 < hi,
        lo <= r.2 < hi,
{
    let span = (hi - lo) as usize;
    let a = random_below(span) as u8;
    let b = random_below(span) as u8;
    let c = random_below(span) as u8;
    (lo + a, lo + b, lo + c)
}

/// The captcha image for `text`, as a PNG file in base64: 300 by 100 pixels
/// of light grey, eight random lines, two hundred random dots, and one disc
/// per character at a random height. Whatever the random draws, the result
/// is the base64 text (as ASCII bytes) of the PNG of the image that
/// `captcha_canvas` describes for some draws in range.
pub fn render_captcha_image(text: &str) -> (r: Vec<u8>)
    requires
        text.spec_bytes().len() <= 59,
    ensures
        exists|s: Seq<Stroke>, d: Seq<Dot>, g: Seq<Glyph>| {
            &&& s.len() == 8
            &&& d.len() == 200
            &&& g.len() == text@.len()
            &&& draws_in_range(s, d, g)
            &&& r@ == base64(png_bytes(CAPTCHA_WIDTH, CAPTCHA_HEIGHT, captcha_canvas(text.spec_bytes().len(), s, d, g)))
        },
{
    let mut strokes: Vec<Stroke> = Vec::new();
    let mut i: usize = 0;
    while i < 8
        invariant
            i <= 8,
            strokes.len() == i,
            forall|k: int| 0 <= k < i ==> #[trigger] strokes@[k].x1 < CAPTCHA_WIDTH && strokes@[k].x2 < CAPTCHA_WIDTH
                && strokes@[k].y1 < CAPTCHA_HEIGHT && strokes@[k].y2 < CAPTCHA_HEIGHT,
        decreases 8 - i,
    {
        let x1 = random_below(300) as u32;
        let y1 = random_below(100) as u32;
        let x2 = random_below(300) as u32;
        let y2 = random_below(100) as u32;
        let color = random_color(100, 200);
        strokes.push(Stroke { x1, y1, x2, y2, color });
        i += 1;
    }
    let mut dots: Vec<Dot> = Vec::new();
    let mut j: usize = 0;
    while j < 200
        invariant
            j <= 200,
            dots.len() == j,
            forall|k: int| 0 <= k < j ==> #[trigger] dots@[k].x < CAPTCHA_WIDTH && dots@[k].y < CAPTCHA_HEIGHT,
        decreases 200 - j,
    {
        let x = random_below(300) as u32;
        let y = random_below(100) as u32;
        let color = random_color(0, 255);
        dots.push(Dot { x, y, color });
        j += 1;
    }
    let chars = chars_of(text);
    let mut glyphs: Vec<Glyph> = Vec::new();
    let mut m: usize = 0;
    while m < chars.len()
        invariant
            m <= chars.len(),
            glyphs.len() == m,
            forall|k: int| 0 <= k < m ==> #[trigger] glyphs@[k].drop < 20,
        decreases chars.len() - m,
    {
        let drop = random_below(20) as u32;
        let color = random_color(30, 200);
        glyphs.push(Glyph { drop, color });
        m += 1;
    }
    assert(draws_in_range(strokes@, dots@, glyphs@));
    let pixels = draw_captcha(text, &strokes, &dots, &glyphs);
    let png = encode_png(300, 100, pixels);
    assert(png@ == png_bytes(CAPTCHA_WIDTH, CAPTCHA_HEIGHT, captcha_canvas(text.spec_bytes().len(), strokes@, dots@, glyphs@)));
    base64_encode(&png)
}

} // verus!
