//! ASCII-art rendering of a decoded raster image.
use vstd::prelude::*;
use crate::params::Params;

verus! {

/// One pixel as (red, green, blue, alpha).
pub type Rgba = (u8, u8, u8, u8);

/// A decoded raster image: `pixels` holds `width * height` pixels in
/// row-major order.
pub struct Raster {
    pub width: u32,
    pub height: u32,
    pub pixels: Vec<Rgba>,
}

impl Raster {
    pub open spec fn wf(&self) -> bool {
        self.pixels@.len() == self.width as int * self.height as int
    }

    /// The pixel at column `x` of row `y`.
    pub open spec fn pixel(&self, x: int, y: int) -> Rgba {
        self.pixels@[y * self.width as int + x]
    }
}

/// The density ramp, from lightest to darkest.
pub open spec fn ramp() -> Seq<char> {
    seq![' ', '.', ':', '-', '=', '+', '*', '#', '@']
}

/// Position on the ramp of a brightness value.
pub open spec fn ramp_index(b: u8) -> int {
    (b as int * 8) / 255
}

/// The ramp character for a brightness value.
pub open spec fn shade(b: u8) -> char {
    ramp()[ramp_index(b)]
}

/// Unweighted integer average of the three colour channels.
pub open spec fn brightness(p: Rgba) -> u8 {
    ((p.0 as int + p.1 as int + p.2 as int) / 3) as u8
}

/// The character drawn for a sampled pixel: a space when fully transparent.
pub open spec fn glyph(p: Rgba) -> char {
    if p.3 == 0 {
        ' '
    } else {
        shade(brightness(p))
    }
}

/// The sampling step actually used: a zero scale is treated as one.
pub open spec fn step_of(scale: u32) -> int {
    if scale == 0 {
        1
    } else {
        scale as int
    }
}

/// Number of sampled positions along an axis of length `n`: `ceil(n / s)`.
pub open spec fn samples(n: int, s: int) -> int {
    (n + s - 1) / s
}

/// The rendering: `rows` lines of `cols` glyphs, each followed by a newline.
/// Character `c` of line `r` is the glyph of the pixel at `(c * s, r * s)`.
pub open spec fn ascii_art(img: Raster, scale: u32) -> Seq<char> {
    let s = step_of(scale);
    let cols = samples(img.width as int, s);
    let rows = samples(img.height as int, s);
    Seq::new(
        (rows * (cols + 1)) as nat,
        |i: int|
            if i % (cols + 1) == cols {
                '\n'
            } else {
                glyph(img.pixel((i % (cols + 1)) * s, (i / (cols + 1)) * s))
            },
    )
}

/// Relies on `String::push`: appends one character.
#[verifier::external_body]
pub(crate) fn push_char(s: &mut String, c: char)
    ensures
        final(s)@ == old(s)@.push(c),
{
    s.push(c)
}

/// Maps a brightness value to its character on the density ramp.
pub fn bright_to_char(b: u8) -> (r: char)
    ensures
        r == shade(b),
{
    let idx: u32 = (b as u32 * 8) / 255;
    assert(0 <= idx <= 8);
    match idx {
        0 => ' ',
        1 => '.',
        2 => ':',
        3 => '-',
        4 => '=',
        5 => '+',
        6 => '*',
        7 => '#',
        _ => '@',
    }
}

proof fn lemma_sample_in_range(k: int, n: int, s: int)
    requires
        s >= 1,
        n >= 0,
        0 <= k < samples(n, s),
    ensures
        0 <= k * s < n,
        k * s + s <= n + s - 1,
{
    let q = samples(n, s);
    assert(q * s <= n + s - 1) by {
        vstd::arithmetic::div_mod::lemma_fundamental_div_mod(n + s - 1, s);
        vstd::arithmetic::div_mod::lemma_mod_pos_bound(n + s - 1, s);
    }
    assert(k * s + s <= q * s) by (nonlinear_arith)
        requires k + 1 <= q, s >= 1;
    assert(0 <= k * s) by (nonlinear_arith)
        requires k >= 0, s >= 1;
}

proof fn lemma_samples_bound(n: int, s: int)
    requires
        s >= 1,
        0 <= n <= u32::MAX,
    ensures
        0 <= samples(n, s) <= n,
{
    assert(0 <= (n + s - 1) / s) by (nonlinear_arith)
        requires n >= 0, s >= 1;
    if n == 0 {
        assert((s - 1) / s == 0) by {
            vstd::arithmetic::div_mod::lemma_basic_div(s - 1, s);
        }
    } else {
        assert((n + s - 1) / s <= n) by {
            assert(n + s - 1 <= n * s) by (nonlinear_arith)
                requires n >= 1, s >= 1;
            vstd::arithmetic::div_mod::lemma_div_is_ordered(n + s - 1, n * s, s);
            vstd::arithmetic::div_mod::lemma_div_multiples_vanish(n, s);
        }
    }
}

proof fn lemma_cell(pos: int, r: int, c: int, cols: int)
    requires
        cols >= 0,
        0 <= c <= cols,
        r >= 0,
        pos == r * (cols + 1) + c,
    ensures
        pos / (cols + 1) == r,
        pos % (cols + 1) == c,
{
    vstd::arithmetic::div_mod::lemma_fundamental_div_mod_converse(pos, cols + 1, r, c);
}

/// Renders `img` as ASCII art, sampling every `scale`-th pixel in each
/// direction (a zero scale is treated as one).
pub fn image_to_ascii(img: &Raster, scale: u32) -> (out: String)
    requires
        img.wf(),
    ensures
        out@ == ascii_art(*img, scale),
{
    let s: u64 = if scale == 0 { 1 } else { scale as u64 };
    let w: u64 = img.width as u64;
    let h: u64 = img.height as u64;
    let cols: u64 = (w + s - 1) / s;
    let rows: u64 = (h + s - 1) / s;
    proof {
        lemma_samples_bound(w as int, s as int);
        lemma_samples_bound(h as int, s as int);
    }
    let ghost art = ascii_art(*img, scale);
    let ghost width = cols + 1;
    assert(art.len() == rows * width);
    assert(img.pixels@.len() == h * w) by (nonlinear_arith)
        requires img.pixels@.len() == img.width as int * img.height as int, h == img.height, w == img.width;
    let mut out = String::new();
    let mut r: u64 = 0;
    while r < rows
        invariant
            img.wf(),
            s as int == step_of(scale),
            w == img.width,
            h == img.height,
            cols as int == samples(w as int, s as int),
            rows as int == samples(h as int, s as int),
            cols <= w,
            rows <= h,
            art == ascii_art(*img, scale),
            width == cols + 1,
            art.len() == rows * width,
            r <= rows,
            r * width <= art.len(),
            img.pixels@.len() == h * w,
            out@ == art.subrange(0, r * width),
        decreases rows - r,
    {
        proof {
            lemma_sample_in_range(r as int, h as int, s as int);
            assert(r * width + cols <= art.len()) by (nonlinear_arith)
                requires width == cols + 1, r + 1 <= rows, art.len() == rows * width;
        }
        let y: u64 = r * s;
        let mut c: u64 = 0;
        while c < cols
            invariant
                img.wf(),
                s as int == step_of(scale),
                w == img.width,
                h == img.height,
                cols as int == samples(w as int, s as int),
                rows as int == samples(h as int, s as int),
                art == ascii_art(*img, scale),
                width == cols + 1,
                art.len() == rows * width,
                r < rows,
                y == r * s,
                y < h,
                c <= cols,
                r * width + c <= art.len(),
                img.pixels@.len() == h * w,
                out@ == art.subrange(0, r * width + c),
            decreases cols - c,
        {
            proof {
                lemma_sample_in_range(c as int, w as int, s as int);
            }
            let x: u64 = c * s;
            let ghost pos = r * width + c;
            proof {
                lemma_cell(pos, r as int, c as int, cols as int);
                assert(pos < art.len()) by (nonlinear_arith)
                    requires pos == r * width + c, c < cols, width == cols + 1, r + 1 <= rows,
                        art.len() == rows * width;
                assert(y * w + x < h * w) by (nonlinear_arith)
                    requires y < h, x < w;
                assert(h * w <= u64::MAX) by (nonlinear_arith)
                    requires h <= u32::MAX, w <= u32::MAX;
                assert(y * w + x < img.pixels@.len());
            }
            let n: usize = img.pixels.len();
            assert(y * w + x < n);
            let idx: usize = (y * w + x) as usize;
            let p = img.pixels[idx];
            let bright: u8 = ((p.0 as u16 + p.1 as u16 + p.2 as u16) / 3) as u8;
            let ch = if p.3 == 0 { ' ' } else { bright_to_char(bright) };
            assert(p == img.pixel(x as int, y as int));
            assert(ch == glyph(p));
            assert(art[pos] == glyph(img.pixel((pos % (width as int)) * s, (pos / (width as int)) * s)));
            assert(ch == art[pos]);
            push_char(&mut out, ch);
            assert(out@ =~= art.subrange(0, pos + 1));
            assert(r * width + c + 1 <= art.len()) by (nonlinear_arith)
                requires width == cols + 1, r + 1 <= rows, art.len() == rows * width, c < cols;
            c = c + 1;
        }
        let ghost pos = r * width + cols;
        proof {
            lemma_cell(pos, r as int, cols as int, cols as int);
            assert(pos < art.len()) by (nonlinear_arith)
                requires pos == r * width + cols, width == cols + 1, r + 1 <= rows,
                    art.len() == rows * width;
        }
        push_char(&mut out, '\n');
        assert(out@ =~= art.subrange(0, (r + 1) * width)) by {
            assert((r + 1) * width == pos + 1) by (nonlinear_arith)
                requires pos == r * width + cols, width == cols + 1;
        }
        assert((r + 1) * width <= art.len()) by (nonlinear_arith)
            requires width == cols + 1, r + 1 <= rows, art.len() == rows * width;
        r = r + 1;
    }
    assert(out@ =~= art);
    out
}

/// Why a body could not be rendered.
#[derive(Debug, PartialEq, Eq)]
pub enum AsciiError {
    /// The bytes are not an image in a supported format; holds the
    /// decoder's diagnostic.
    UnreadableImage(String),
}

/// Scale used when the caller gives none.
pub const DEFAULT_SCALE: u32 = 3;

/// What the image decoder makes of the bytes: the width, height and RGBA
/// pixels (row-major) of the decoded image, or the decoder's diagnostic.
pub uninterp spec fn image_decoding(b: Seq<u8>) -> Result<(u32, u32, Seq<Rgba>), Seq<char>>;

/// `img` is the image that the bytes `b` decode to.
pub open spec fn is_decoded(img: Raster, b: Seq<u8>) -> bool {
    image_decoding(b) == Ok::<(u32, u32, Seq<Rgba>), Seq<char>>((img.width, img.height, img.pixels@))
}

/// The decoder refuses the bytes `b` with the diagnostic `m`.
pub open spec fn refused_with(b: Seq<u8>, m: Seq<char>) -> bool {
    image_decoding(b) == Err::<(u32, u32, Seq<Rgba>), Seq<char>>(m)
}

/// The scale used for a request: the given one, or the default.
pub open spec fn requested_scale(p: Params) -> u32 {
    match p.scale {
        Some(s) => s,
        None => DEFAULT_SCALE,
    }
}

/// Relies on `image::load_from_memory`, which detects the format from the
/// bytes and decodes them (failing with a diagnostic), and on
/// `DynamicImage::to_rgba8`, whose buffer holds `width * height` pixels in
/// row-major order.
#[verifier::external_body]
fn decode_raster(bytes: &[u8]) -> (r: Result<Raster, String>)
    ensures
        r matches Ok(img) ==> img.wf() && (image_decoding(bytes@) matches Ok(t) && t == (
            img.width,
            img.height,
            img.pixels@,
        )),
        r matches Err(m) ==> (image_decoding(bytes@) matches Err(d) && d == m@),
{
    match image::load_from_memory(bytes) {
        Ok(img) => {
            let rgba = img.to_rgba8();
            let (width, height) = rgba.dimensions();
            let pixels = rgba.pixels().map(|p| (p[0], p[1], p[2], p[3])).collect();
            Ok(Raster { width, height, pixels })
        },
        Err(e) => Err(e.to_string()),
    }
}

/// Decodes an image body and renders the decoded image at the requested
/// scale, which defaults to three when absent. A body that does not decode
/// gives the decoder's diagnostic.
pub fn ascii_handler(params: &Params, body: &[u8]) -> (r: Result<String, AsciiError>)
    ensures
        r is Ok <==> image_decoding(body@) is Ok,
        r matches Ok(text) ==> forall|img: Raster|
            #[trigger] is_decoded(img, body@) ==> text@ == ascii_art(img, requested_scale(*params)),
        r matches Err(AsciiError::UnreadableImage(m)) ==> refused_with(body@, m@),
{
    let s = match params.get_scale() {
        Some(s) => s,
        None => DEFAULT_SCALE,
    };
    match decode_raster(body) {
        Ok(img) => {
            let text = image_to_ascii(&img, s);
            assert forall|other: Raster| #[trigger] is_decoded(other, body@) implies text@
                == ascii_art(other, s) by {
                lemma_render_deterministic(img, other, s);
            }
            Ok(text)
        },
        Err(e) => Err(AsciiError::UnreadableImage(e)),
    }
}

/// The rendering depends on the image's size and pixels alone: the same
/// image and scale always give the same text.
pub proof fn lemma_render_deterministic(a: Raster, b: Raster, scale: u32)
    requires
        a.width == b.width,
        a.height == b.height,
        a.pixels@ == b.pixels@,
    ensures
        ascii_art(a, scale) == ascii_art(b, scale),
{
    assert(ascii_art(a, scale) =~= ascii_art(b, scale));
}

/// The ends of the ramp: brightness 0 is drawn as a space, brightness 255
/// as `@`.
pub proof fn lemma_ramp_ends()
    ensures
        shade(0) == ' ',
        shade(255) == '@',
        forall|p: Rgba| p.3 != 0 && brightness(p) == 0 ==> glyph(p) == ' ',
        forall|p: Rgba| p.3 != 0 && brightness(p) == 255 ==> glyph(p) == '@',
{
}

/// The rendering of a `w x h` image at step `s` has `ceil(h / s)` lines,
/// each of `ceil(w / s)` characters followed by a newline.
pub proof fn lemma_render_shape(img: Raster, scale: u32)
    requires
        img.wf(),
    ensures
        ({
            let s = step_of(scale);
            let cols = samples(img.width as int, s);
            let rows = samples(img.height as int, s);
            let art = ascii_art(img, scale);
            &&& cols == (img.width as int + s - 1) / s
            &&& rows == (img.height as int + s - 1) / s
            &&& art.len() == rows * (cols + 1)
            &&& forall|r: int| 0 <= r < rows ==> #[trigger] art[r * (cols + 1) + cols] == '\n'
            &&& forall|r: int, c: int|
                0 <= r < rows && 0 <= c < cols ==> #[trigger] art[r * (cols + 1) + c] != '\n'
        }),
{
    let s = step_of(scale);
    let cols = samples(img.width as int, s);
    let rows = samples(img.height as int, s);
    let art = ascii_art(img, scale);
    lemma_samples_bound(img.width as int, s);
    lemma_samples_bound(img.height as int, s);
    assert forall|r: int| 0 <= r < rows implies #[trigger] art[r * (cols + 1) + cols] == '\n' by {
        lemma_cell(r * (cols + 1) + cols, r, cols, cols);
        assert(r * (cols + 1) + cols < rows * (cols + 1)) by (nonlinear_arith)
            requires r + 1 <= rows, cols >= 0;
    }
    assert forall|r: int, c: int| 0 <= r < rows && 0 <= c < cols implies #[trigger] art[r * (cols
        + 1) + c] != '\n' by {
        lemma_cell(r * (cols + 1) + c, r, c, cols);
        assert(r * (cols + 1) + c < rows * (cols + 1)) by (nonlinear_arith)
            requires r + 1 <= rows, 0 <= c < cols;
    }
}

/// A fully transparent sampled pixel is drawn as a space, whatever its
/// colour.
pub proof fn lemma_transparent_is_space(img: Raster, scale: u32, r: int, c: int)
    requires
        img.wf(),
        0 <= r < samples(img.height as int, step_of(scale)),
        0 <= c < samples(img.width as int, step_of(scale)),
        img.pixel(c * step_of(scale), r * step_of(scale)).3 == 0,
    ensures
        ascii_art(img, scale)[r * (samples(img.width as int, step_of(scale)) + 1) + c] == ' ',
{
    let s = step_of(scale);
    let cols = samples(img.width as int, s);
    let rows = samples(img.height as int, s);
    lemma_samples_bound(img.width as int, s);
    lemma_cell(r * (cols + 1) + c, r, c, cols);
    assert(r * (cols + 1) + c < rows * (cols + 1)) by (nonlinear_arith)
        requires r + 1 <= rows, 0 <= c < cols;
}

} // verus!
