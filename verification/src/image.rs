//! Pictures: decoding the bytes of an image file into RGBA pixels.
use vstd::prelude::*;
use crate::text::{chars_of, join3};

verus! {

/// An image as rows of RGBA pixels: four bytes a pixel, row after row.
#[derive(Clone)]
pub struct RgbaImage {
    pub width: u32,
    pub height: u32,
    pub pixels: Vec<u8>,
}

/// What the image crate makes of the bytes of an image file named `name`:
/// the width, height and RGBA pixels; or, where it fails, whether it failed
/// while guessing the format (`true`) or while decoding, and its message.
pub uninterp spec fn decoding(name: Seq<char>, bytes: Seq<u8>) -> Result<(u32, u32, Seq<u8>), (bool, Seq<char>)>;

/// Decodes the bytes of the image file `name` with the image crate, as
/// `ImageReader::open` followed by `with_guessed_format` and `decode` does
/// for a file: the format that the file name's extension names
/// (`ImageFormat::from_path`) unless the bytes show another one; then
/// `DynamicImage::to_rgba8`. The result is named by [`decoding`]; of it
/// only this is stated: the decoders fill a buffer of exactly the image's
/// size, so the RGBA pixels take four bytes each. Not stated: for a file
/// whose extension the crate does not know, it reads as one with none.
#[verifier::external_body]
fn decode_rgba(name: &str, bytes: &[u8]) -> (r: Result<(u32, u32, Vec<u8>), (bool, String)>)
    ensures
        match r {
            Ok((w, h, p)) => decoding(name@, bytes@) == Ok::<(u32, u32, Seq<u8>), (bool, Seq<char>)>((w, h, p@))
                && p@.len() == 4 * w * h,
            Err((g, e)) => decoding(name@, bytes@) == Err::<(u32, u32, Seq<u8>), (bool, Seq<char>)>((g, e@)),
        },
{
    let cursor = std::io::Cursor::new(bytes);
    let reader = match image::ImageFormat::from_path(name) {
        Ok(f) => image::ImageReader::with_format(cursor, f),
        Err(_) => image::ImageReader::new(cursor),
    };
    match reader.with_guessed_format() {
        Err(e) => Err((true, e.to_string())),
        Ok(r) => match r.decode() {
            Ok(img) => {
                let rgba = img.to_rgba8();
                Ok((rgba.width(), rgba.height(), rgba.into_raw()))
            },
            Err(e) => Err((false, e.to_string())),
        },
    }
}

/// The message for an image that could not be read: the format could not
/// be recognised, or the image could not be decoded.
pub open spec fn image_error(format_stage: bool, e: Seq<char>) -> Seq<char> {
    if format_stage {
        "无法识别图片格式: "@ + e
    } else {
        "解码图片失败: "@ + e
    }
}

/// The image that the bytes of the image file `name` hold, as RGBA
/// pixels, four bytes each; where they cannot be read, a message that
/// says why.
pub fn load_image_rgba(name: &str, bytes: &[u8]) -> (r: Result<RgbaImage, String>)
    ensures
        match (r, decoding(name@, bytes@)) {
            (Ok(img), Ok((w, h, p))) => img.width == w && img.height == h && img.pixels@ == p
                && img.pixels@.len() == 4 * img.width * img.height,
            (Err(msg), Err((g, e))) => msg@ == image_error(g, e),
            _ => false,
        },
{
    match decode_rgba(name, bytes) {
        Ok((width, height, pixels)) => Ok(RgbaImage { width, height, pixels }),
        Err((g, e)) => {
            let c = chars_of(e.as_str());
            let m = if g {
                join3("无法识别图片格式: ", c.as_slice(), "")
            } else {
                join3("解码图片失败: ", c.as_slice(), "")
            };
            proof {
                reveal_strlit("");
                assert(m@ =~= image_error(g, e@));
            }
            Err(m)
        },
    }
}

} // verus!

verus! {

/// What the image crate's `imageops::resize` with the triangle filter
/// makes of an RGBA image: the pixels of the image of the new size.
pub uninterp spec fn resized(width: u32, height: u32, pixels: Seq<u8>, new_width: u32, new_height: u32) -> Seq<u8>;

/// Resizes an image with `image::imageops::resize` and the triangle
/// filter. The pixels it gives are named by [`resized`]; the crate makes
/// the new buffer with `ImageBuffer::new`, so it holds four bytes for each
/// pixel of the new size.
#[verifier::external_body]
fn resize_triangle(img: &RgbaImage, new_width: u32, new_height: u32) -> (r: Vec<u8>)
    requires
        img.pixels@.len() == 4 * img.width * img.height,
        4 * new_width * new_height <= isize::MAX,
    ensures
        r@ == resized(img.width, img.height, img.pixels@, new_width, new_height),
        r@.len() == 4 * new_width * new_height,
{
    let src = image::RgbaImage::from_raw(img.width, img.height, img.pixels.clone()).unwrap();
    image::imageops::resize(&src, new_width, new_height, image::imageops::FilterType::Triangle).into_raw()
}

/// A terminal cell drawn with `▀`: the upper pixel gives the character's
/// colour, the lower one the cell's background (`None`: the terminal's
/// own).
#[derive(Clone, Copy)]
pub struct HalfBlock {
    pub top: (u8, u8, u8),
    pub bottom: Option<(u8, u8, u8)>,
}

/// Where the pixel `(x, y)` of an image `w` pixels wide starts.
pub open spec fn pixel_index(w: int, x: int, y: int) -> int {
    4 * (y * w + x)
}

/// The colour of the pixel `(x, y)`.
pub open spec fn rgb_of(p: Seq<u8>, w: int, x: int, y: int) -> (u8, u8, u8) {
    let i = pixel_index(w, x, y);
    (p[i], p[i + 1], p[i + 2])
}

/// Whether the pixel `(x, y)` is drawn: its alpha is at least 128.
pub open spec fn opaque_at(p: Seq<u8>, w: int, x: int, y: int) -> bool {
    p[pixel_index(w, x, y) + 3] >= 128
}

/// A grid of rows taken by their elements.
pub open spec fn grid_view<T>(g: Seq<Vec<T>>) -> Seq<Seq<T>> {
    g.map_values(|r: Vec<T>| r@)
}

/// The cells of a picture stretched over `cols` by `rows` cells, `p` being
/// its pixels resized to `cols` by `2 * rows`.
pub open spec fn background_grid(p: Seq<u8>, cols: int, rows: int) -> Seq<Seq<HalfBlock>> {
    Seq::new(
        rows as nat,
        |y: int|
            Seq::new(
                cols as nat,
                |x: int| HalfBlock { top: rgb_of(p, cols, x, 2 * y), bottom: Some(rgb_of(p, cols, x, 2 * y + 1)) },
            ),
    )
}

/// How far right a portrait `tw` pixels wide is drawn in `cols` columns:
/// at the left for position 1, at the right for 3 (not left of the
/// start), else in the middle (rounded toward the start).
pub open spec fn portrait_offset(cols: int, tw: int, position: usize) -> int {
    if position == 1 {
        0
    } else if position == 3 {
        if cols - tw > 0 {
            cols - tw
        } else {
            0
        }
    } else {
        let d = cols - tw;
        if d >= 0 {
            d / 2
        } else {
            -((-d) / 2)
        }
    }
}

/// The cell in column `c` of row `y` of a portrait whose pixels `p` are
/// `tw` wide, shifted right by `off`: nothing where the column is outside
/// the portrait or its upper pixel is transparent; a transparent lower
/// pixel leaves the terminal's background.
pub open spec fn portrait_cell(p: Seq<u8>, tw: int, off: int, c: int, y: int) -> Option<HalfBlock> {
    let x = c - off;
    if x < 0 || x >= tw || !opaque_at(p, tw, x, 2 * y) {
        None
    } else {
        Some(
            HalfBlock {
                top: rgb_of(p, tw, x, 2 * y),
                bottom: if opaque_at(p, tw, x, 2 * y + 1) {
                    Some(rgb_of(p, tw, x, 2 * y + 1))
                } else {
                    None
                },
            },
        )
    }
}

/// The cells of a portrait over `cols` by `rows` cells.
pub open spec fn portrait_grid(p: Seq<u8>, tw: int, off: int, cols: int, rows: int) -> Seq<Seq<Option<HalfBlock>>> {
    Seq::new(rows as nat, |y: int| Seq::new(cols as nat, |c: int| portrait_cell(p, tw, off, c, y)))
}

/// A grid where nothing is drawn.
pub open spec fn blank_grid(cols: int, rows: int) -> Seq<Seq<Option<HalfBlock>>> {
    Seq::new(rows as nat, |y: int| Seq::new(cols as nat, |c: int| None::<HalfBlock>))
}

proof fn lemma_pixel_in_bounds(w: int, h: int, x: int, y: int)
    by (nonlinear_arith)
    requires
        0 <= x < w,
        0 <= y < h,
    ensures
        0 <= y * w + x,
        y * w + x < w * h,
        4 * (y * w + x) + 3 < 4 * w * h,
{
}

fn rgb_at(p: &Vec<u8>, w: u32, h: u32, x: u32, y: u32) -> (r: (u8, u8, u8))
    requires
        p@.len() == 4 * w * h,
        x < w,
        y < h,
    ensures
        r == rgb_of(p@, w as int, x as int, y as int),
{
    proof {
        lemma_pixel_in_bounds(w as int, h as int, x as int, y as int);
    }
    assert(p@.len() == p.len());
    let i: usize = 4 * (y as usize * w as usize + x as usize);
    (p[i], p[i + 1], p[i + 2])
}

fn opaque(p: &Vec<u8>, w: u32, h: u32, x: u32, y: u32) -> (r: bool)
    requires
        p@.len() == 4 * w * h,
        x < w,
        y < h,
    ensures
        r == opaque_at(p@, w as int, x as int, y as int),
{
    proof {
        lemma_pixel_in_bounds(w as int, h as int, x as int, y as int);
    }
    assert(p@.len() == p.len());
    let i: usize = 4 * (y as usize * w as usize + x as usize);
    p[i + 3] >= 128
}

/// The cells that draw a picture stretched over `cols` by `rows` cells,
/// row by row.
pub fn background_cells(img: &RgbaImage, cols: u16, rows: u16) -> (r: Vec<Vec<HalfBlock>>)
    requires
        img.pixels@.len() == 4 * img.width * img.height,
        8 * cols * rows <= isize::MAX,
    ensures
        grid_view(r@) == background_grid(
            resized(img.width, img.height, img.pixels@, cols as u32, (2 * rows) as u32),
            cols as int,
            rows as int,
        ),
{
    let w: u32 = cols as u32;
    let h: u32 = 2 * (rows as u32);
    assert(4 * w * h == 8 * cols * rows) by (nonlinear_arith)
        requires
            w == cols,
            h == 2 * rows,
    ;
    let p = resize_triangle(img, w, h);
    let ghost g = background_grid(p@, cols as int, rows as int);
    let mut out: Vec<Vec<HalfBlock>> = Vec::new();
    let mut y: u16 = 0;
    while y < rows
        invariant
            y <= rows,
            w == cols,
            h == 2 * rows,
            p@.len() == 4 * w * h,
            g == background_grid(p@, cols as int, rows as int),
            grid_view(out@) == g.take(y as int),
        decreases rows - y,
    {
        let mut line: Vec<HalfBlock> = Vec::new();
        let mut x: u16 = 0;
        while x < cols
            invariant
                x <= cols,
                y < rows,
                w == cols,
                h == 2 * rows,
                p@.len() == 4 * w * h,
                g == background_grid(p@, cols as int, rows as int),
                line@ == g[y as int].take(x as int),
            decreases cols - x,
        {
            let top = rgb_at(&p, w, h, x as u32, 2 * (y as u32));
            let bottom = rgb_at(&p, w, h, x as u32, 2 * (y as u32) + 1);
            line.push(HalfBlock { top, bottom: Some(bottom) });
            assert(g[y as int].take(x + 1) =~= g[y as int].take(x as int).push(g[y as int][x as int]));
            x = x + 1;
        }
        assert(g[y as int].take(cols as int) =~= g[y as int]);
        let ghost before = out@;
        out.push(line);
        assert(grid_view(out@) =~= grid_view(before).push(g[y as int]));
        assert(g.take(y + 1) =~= g.take(y as int).push(g[y as int]));
        y = y + 1;
    }
    assert(g.take(rows as int) =~= g);
    out
}

/// The cells that draw a portrait `target_w` pixels wide and as high as
/// `rows` cells (twice as many pixels) in `cols` columns, at `position`
/// (1 left, 3 right, else the middle); `None` leaves a cell as it is.
/// Nothing is drawn where the portrait has no width or height.
pub fn portrait_cells(img: &RgbaImage, cols: u16, rows: u16, position: usize, target_w: u32) -> (r: Vec<Vec<Option<HalfBlock>>>)
    requires
        img.pixels@.len() == 4 * img.width * img.height,
        target_w <= 0x7fff_ffff,
        8 * target_w * rows <= isize::MAX,
    ensures
        grid_view(r@) == if target_w == 0 || rows == 0 {
            blank_grid(cols as int, rows as int)
        } else {
            portrait_grid(
                resized(img.width, img.height, img.pixels@, target_w, (2 * rows) as u32),
                target_w as int,
                portrait_offset(cols as int, target_w as int, position),
                cols as int,
                rows as int,
            )
        },
{
    let h: u32 = 2 * (rows as u32);
    let blank = target_w == 0 || rows == 0;
    let p: Vec<u8> = if blank {
        Vec::new()
    } else {
        assert(4 * target_w * h == 8 * target_w * rows) by (nonlinear_arith)
            requires
                h == 2 * rows,
        ;
        resize_triangle(img, target_w, h)
    };
    let d: i64 = cols as i64 - target_w as i64;
    let off: i64 = if position == 1 {
        0
    } else if position == 3 {
        if d > 0 {
            d
        } else {
            0
        }
    } else if d >= 0 {
        d / 2
    } else {
        -((-d) / 2)
    };
    assert(off == portrait_offset(cols as int, target_w as int, position));
    let ghost g = if blank {
        blank_grid(cols as int, rows as int)
    } else {
        portrait_grid(p@, target_w as int, off as int, cols as int, rows as int)
    };
    let mut out: Vec<Vec<Option<HalfBlock>>> = Vec::new();
    let mut y: u16 = 0;
    while y < rows
        invariant
            y <= rows,
            h == 2 * rows,
            !blank ==> p@.len() == 4 * target_w * h,
            blank == (target_w == 0 || rows == 0),
            -0x1_0000_0000 <= off <= 0x1_0000,
            g == if blank {
                blank_grid(cols as int, rows as int)
            } else {
                portrait_grid(p@, target_w as int, off as int, cols as int, rows as int)
            },
            grid_view(out@) == g.take(y as int),
        decreases rows - y,
    {
        let mut line: Vec<Option<HalfBlock>> = Vec::new();
        let mut c: u16 = 0;
        while c < cols
            invariant
                c <= cols,
                y < rows,
                h == 2 * rows,
                !blank ==> p@.len() == 4 * target_w * h,
                blank == (target_w == 0 || rows == 0),
                -0x1_0000_0000 <= off <= 0x1_0000,
                g == if blank {
                    blank_grid(cols as int, rows as int)
                } else {
                    portrait_grid(p@, target_w as int, off as int, cols as int, rows as int)
                },
                line@ == g[y as int].take(c as int),
            decreases cols - c,
        {
            let x: i64 = c as i64 - off;
            let cell: Option<HalfBlock> = if blank || x < 0 || x >= target_w as i64 {
                None
            } else {
                let xu: u32 = x as u32;
                if !opaque(&p, target_w, h, xu, 2 * (y as u32)) {
                    None
                } else {
                    let top = rgb_at(&p, target_w, h, xu, 2 * (y as u32));
                    let bottom = if opaque(&p, target_w, h, xu, 2 * (y as u32) + 1) {
                        Some(rgb_at(&p, target_w, h, xu, 2 * (y as u32) + 1))
                    } else {
                        None
                    };
                    Some(HalfBlock { top, bottom })
                }
            };
            line.push(cell);
            assert(g[y as int].take(c + 1) =~= g[y as int].take(c as int).push(g[y as int][c as int]));
            c = c + 1;
        }
        assert(g[y as int].take(cols as int) =~= g[y as int]);
        let ghost before = out@;
        out.push(line);
        assert(grid_view(out@) =~= grid_view(before).push(g[y as int]));
        assert(g.take(y + 1) =~= g.take(y as int).push(g[y as int]));
        y = y + 1;
    }
    assert(g.take(rows as int) =~= g);
    out
}

} // verus!
