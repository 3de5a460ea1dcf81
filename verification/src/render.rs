//! The frame renderer: maps per-pixel escape counts to colors and
//! assembles the square pixel grid in the image crate's RGB buffer.
//! The escape-time evaluation itself runs on floating-point complex
//! arithmetic outside this library; what is verified here is every
//! step from an escape count to the finished grid's bytes.

use vstd::prelude::*;
use vstd::arithmetic::div_mod::{
    lemma_div_pos_is_pos, lemma_fundamental_div_mod, lemma_mod_division_less_than_divisor,
    lemma_multiply_divide_lt,
};

verus! {

/// The color for escape count `k`, as its three channel bytes: the
/// gradient entry at `k` when the count is within the table, else
/// black. A count that reached the iteration cap (the "never escaped"
/// sentinel) is exactly the out-of-table case and is deliberately
/// rendered black.
pub open spec fn color_seq_at(gradient: Seq<[u8; 3]>, k: int) -> Seq<u8> {
    if 0 <= k < gradient.len() {
        gradient[k]@
    } else {
        seq![0u8, 0u8, 0u8]
    }
}

/// Byte `i` of a finished frame: three bytes per pixel, so it is
/// channel `i % 3` of the color for the escape count of pixel `i / 3`.
pub open spec fn frame_byte(gradient: Seq<[u8; 3]>, counts: Seq<u32>, i: int) -> u8 {
    color_seq_at(gradient, counts[i / 3] as int)[i % 3]
}

/// Looks up the color for one escape count, falling back to black when
/// the count is past the end of the gradient table.
pub fn color_for_iter(gradient: &Vec<[u8; 3]>, iters: u32) -> (c: [u8; 3])
    ensures
        c@ == color_seq_at(gradient@, iters as int),
{
    if (iters as usize) < gradient.len() {
        let c = gradient[iters as usize];
        proof {
            assert(c@ =~= color_seq_at(gradient@, iters as int));
        }
        c
    } else {
        let black: [u8; 3] = [0, 0, 0];
        proof {
            assert(black@ =~= seq![0u8, 0u8, 0u8]);
        }
        black
    }
}

/// One frame's pixel grid, held in the image crate's RGB buffer. The
/// buffer is opaque to the verifier; `image_pixels` and `image_dims`
/// name what it holds, and the trusted wrappers below say how the
/// buffer's own operations act on them.
#[verifier::external_body]
pub struct FrameImage {
    buffer: image::RgbImage,
}

/// What the buffer holds: the channel bytes at each pixel coordinate.
pub uninterp spec fn image_pixels(img: FrameImage) -> Map<(int, int), Seq<u8>>;

/// The buffer's width and height.
pub uninterp spec fn image_dims(img: FrameImage) -> (int, int);

/// Relies on image::ImageBuffer::new: a width-by-height buffer with
/// every pixel zeroed, that is black. It panics when the byte length
/// (three per pixel) overflows usize, so such sizes are excluded here.
#[verifier::external_body]
fn new_rgb_image(width: u32, height: u32) -> (img: FrameImage)
    requires
        3 * (width as int * height as int) <= usize::MAX as int,
    ensures
        image_dims(img) == (width as int, height as int),
        forall|x: int, y: int|
            #![trigger image_pixels(img)[(x, y)]]
            0 <= x < width && 0 <= y < height ==> image_pixels(img)[(x, y)] == seq![
                0u8,
                0u8,
                0u8,
            ],
{
    FrameImage { buffer: image::RgbImage::new(width, height) }
}

/// Relies on image::ImageBuffer::put_pixel: stores the pixel at
/// `(x, y)` and changes nothing else. It panics out of bounds, so those
/// coordinates are excluded here.
#[verifier::external_body]
fn put_rgb_pixel(img: &mut FrameImage, x: u32, y: u32, color: [u8; 3])
    requires
        (x as int) < image_dims(*old(img)).0,
        (y as int) < image_dims(*old(img)).1,
    ensures
        image_dims(*final(img)) == image_dims(*old(img)),
        image_pixels(*final(img)) == image_pixels(*old(img)).insert((x as int, y as int), color@),
{
    img.buffer.put_pixel(x, y, image::Rgb(color));
}

/// Relies on image::ImageBuffer::into_raw and the buffer's layout:
/// the pixels' bytes row-major, three per pixel, pixel `(x, y)` at byte
/// offset `3 * (y * width + x)`.
#[verifier::external_body]
fn into_raw_bytes(img: FrameImage) -> (bytes: Vec<u8>)
    ensures
        bytes@.len() == 3 * (image_dims(img).0 * image_dims(img).1),
        forall|i: int|
            #![trigger bytes@[i]]
            0 <= i < bytes@.len() ==> ({
                let w = image_dims(img).0;
                bytes@[i] == image_pixels(img)[((i / 3) % w, (i / 3) / w)][i % 3]
            }),
{
    img.buffer.into_raw()
}

/// Renders one frame: a `resolution`-by-`resolution` pixel grid,
/// returned as its raw bytes, three per pixel, row-major. Pixel
/// `(x, y)` gets the gradient color for the escape count
/// `iter_counts[y * resolution + x]`.
pub fn render_frame(iter_counts: &Vec<u32>, gradient: &Vec<[u8; 3]>, resolution: u32) -> (bytes:
    Vec<u8>)
    requires
        iter_counts@.len() == resolution as int * resolution as int,
        3 * (resolution as int * resolution as int) <= usize::MAX as int,
    ensures
        bytes@.len() == 3 * (resolution as int * resolution as int),
        forall|i: int|
            #![trigger bytes@[i]]
            0 <= i < bytes@.len() ==> bytes@[i] == frame_byte(gradient@, iter_counts@, i),
{
    let mut img = new_rgb_image(resolution, resolution);
    let mut y: u32 = 0;
    while y < resolution
        invariant
            iter_counts@.len() == resolution as int * resolution as int,
            3 * (resolution as int * resolution as int) <= usize::MAX as int,
            image_dims(img) == (resolution as int, resolution as int),
            y <= resolution,
            forall|px: int, py: int|
                #![trigger image_pixels(img)[(px, py)]]
                0 <= px < resolution && 0 <= py < y ==> image_pixels(img)[(px, py)]
                    == color_seq_at(gradient@, iter_counts@[py * resolution + px] as int),
        decreases resolution - y,
    {
        let mut x: u32 = 0;
        while x < resolution
            invariant
                iter_counts@.len() == resolution as int * resolution as int,
                3 * (resolution as int * resolution as int) <= usize::MAX as int,
                image_dims(img) == (resolution as int, resolution as int),
                y < resolution,
                x <= resolution,
                forall|px: int, py: int|
                    #![trigger image_pixels(img)[(px, py)]]
                    0 <= px < resolution && 0 <= py < y ==> image_pixels(img)[(px, py)]
                        == color_seq_at(gradient@, iter_counts@[py * resolution + px] as int),
                forall|px: int|
                    #![trigger image_pixels(img)[(px, y as int)]]
                    0 <= px < x ==> image_pixels(img)[(px, y as int)] == color_seq_at(
                        gradient@,
                        iter_counts@[y as int * resolution + px] as int,
                    ),
            decreases resolution - x,
        {
            proof {
                assert((y as int) * (resolution as int) + (x as int) < (resolution as int) * (
                resolution as int)) by (nonlinear_arith)
                    requires
                        (x as int) < resolution as int,
                        (y as int) < resolution as int,
                        0 <= x as int,
                        0 <= y as int,
                ;
            }
            let idx: usize = (y as usize) * (resolution as usize) + (x as usize);
            let c = color_for_iter(gradient, iter_counts[idx]);
            put_rgb_pixel(&mut img, x, y, c);
            x += 1;
        }
        y += 1;
    }
    let ghost final_img = img;
    let bytes = into_raw_bytes(img);
    proof {
        let r = resolution as int;
        assert forall|i: int| 0 <= i < bytes@.len() implies bytes@[i] == frame_byte(
            gradient@,
            iter_counts@,
            i,
        ) by {
            assert(r > 0) by (nonlinear_arith)
                requires
                    0 <= r,
                    3 * (r * r) > 0,
            ;
            let p = i / 3;
            lemma_div_pos_is_pos(i, 3);
            lemma_mod_division_less_than_divisor(i, 3);
            lemma_multiply_divide_lt(i, 3, r * r);
            let px = p % r;
            let py = p / r;
            lemma_div_pos_is_pos(p, r);
            lemma_mod_division_less_than_divisor(p, r);
            lemma_multiply_divide_lt(p, r, r);
            lemma_fundamental_div_mod(p, r);
            assert(p == r * (p / r) + p % r);
            assert(r * py == py * r) by (nonlinear_arith);
            assert(image_pixels(final_img)[(px, py)] == color_seq_at(
                gradient@,
                iter_counts@[py * r + px] as int,
            ));
        }
    }
    bytes
}

} // verus!
