use vstd::prelude::*;

verus! {

/// The decoded width, height and RGBA bytes (row by row, four per pixel) of an ICO
/// file, or `None` when it does not decode.
pub uninterp spec fn ico_rgba(bytes: Seq<u8>) -> Option<(u32, u32, Seq<u8>)>;

/// Relies on `image::load_from_memory_with_format` with `ImageFormat::Ico`, then
/// `DynamicImage::to_rgba8`, `ImageBuffer::dimensions` and `ImageBuffer::into_raw`:
/// the decoded size and RGBA bytes, which depend on the bytes alone. An `RgbaImage`
/// holds at least four bytes per pixel (`ImageBuffer::check_image_fits`).
#[verifier::external_body]
fn decode_ico(bytes: &[u8]) -> (r: Option<(u32, u32, Vec<u8>)>)
    ensures
        r is None <==> ico_rgba(bytes@) is None,
        r matches Some(t) ==> ico_rgba(bytes@) == Some((t.0, t.1, t.2@)),
        r matches Some(t) ==> t.2@.len() >= 4 * (t.0 as int) * (t.1 as int),
{
    match image::load_from_memory_with_format(bytes, image::ImageFormat::Ico) {
        Ok(img) => {
            let rgba = img.to_rgba8();
            let (w, h) = rgba.dimensions();
            Some((w, h, rgba.into_raw()))
        },
        Err(_) => None,
    }
}

/// One pixel as a window icon wants it: alpha, blue, green, red from the high byte
/// down.
pub open spec fn abgr(r: u8, g: u8, b: u8, a: u8) -> u32 {
    (a as int * 0x100_0000 + b as int * 0x1_0000 + g as int * 0x100 + r as int) as u32
}

/// The packed pixels of RGBA bytes; a trailing partial pixel is left out.
pub open spec fn packed(rgba: Seq<u8>) -> Seq<u32> {
    Seq::new(
        rgba.len() / 4,
        |i: int| abgr(rgba[4 * i], rgba[4 * i + 1], rgba[4 * i + 2], rgba[4 * i + 3]),
    )
}

pub fn pack_pixel(r: u8, g: u8, b: u8, a: u8) -> (p: u32)
    ensures
        p == abgr(r, g, b, a),
{
    let p = (a as u32) << 24u32 | (b as u32) << 16u32 | (g as u32) << 8u32 | (r as u32);
    assert(p == (a as u32) * 0x100_0000 + (b as u32) * 0x1_0000 + (g as u32) * 0x100 + (r as u32))
        by (bit_vector)
        requires
            p == (a as u32) << 24u32 | (b as u32) << 16u32 | (g as u32) << 8u32 | (r as u32),
    ;
    p
}

/// Packs RGBA bytes into one `u32` per pixel.
pub fn pack_pixels(rgba: &Vec<u8>) -> (r: Vec<u32>)
    ensures
        r@ == packed(rgba@),
{
    let n = rgba.len() / 4;
    let mut out: Vec<u32> = Vec::new();
    let mut i: usize = 0;
    while i < n
        invariant
            n == rgba@.len() / 4,
            i <= n,
            out@ == packed(rgba@).take(i as int),
        decreases n - i,
    {
        assert(4 * i + 3 < rgba@.len()) by (nonlinear_arith)
            requires
                i < n,
                n == rgba@.len() / 4,
        ;
        assert(rgba@.len() == rgba.len());
        assert(4 * (i as int) < rgba.len());
        let k = 4 * i;
        out.push(pack_pixel(rgba[k], rgba[k + 1], rgba[k + 2], rgba[k + 3]));
        i += 1;
        assert(out@ =~= packed(rgba@).take(i as int));
    }
    assert(packed(rgba@).take(n as int) =~= packed(rgba@));
    out
}

/// A window icon: its size and one packed pixel per position.
pub struct PixelImage {
    pub width: u32,
    pub height: u32,
    pub pixels: Vec<u32>,
}

/// Decodes an ICO file into a window icon, or `None` when it does not decode.
pub fn load_icon(bytes: &[u8]) -> (r: Option<PixelImage>)
    ensures
        r is None <==> ico_rgba(bytes@) is None,
        r matches Some(img) ==> ({
            let d = ico_rgba(bytes@)->Some_0;
            &&& img.width == d.0
            &&& img.height == d.1
            &&& img.pixels@ == packed(d.2)
            &&& img.pixels@.len() >= img.width * img.height
        }),
{
    match decode_ico(bytes) {
        Some((w, h, rgba)) => {
            let pixels = pack_pixels(&rgba);
            assert(pixels@.len() >= w * h) by (nonlinear_arith)
                requires
                    pixels@.len() == rgba@.len() / 4,
                    rgba@.len() >= 4 * (w as int) * (h as int),
            ;
            Some(PixelImage { width: w, height: h, pixels })
        },
        None => None,
    }
}

} // verus!
