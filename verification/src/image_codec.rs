use vstd::prelude::*;

verus! {

#[verifier::external_type_specification]
#[verifier::external_body]
pub struct ExDynamicImage(image::DynamicImage);

#[verifier::external_type_specification]
#[verifier::external_body]
#[verifier::reject_recursive_types(T)]
pub struct ExLazy<T>(lazy_init::Lazy<T>);

/// What an image holds: its pixel grid, rows of packed 8-bit RGBA
/// values, as the codec's pixel accessors present them.
pub uninterp spec fn image_px(img: image::DynamicImage) -> Seq<Seq<u32>>;

/// What PNG bytes decode to: `None` for bytes that are not a PNG image,
/// otherwise the decoded pixel grid. A pure function of the bytes.
pub uninterp spec fn png_image(b: Seq<u8>) -> Option<Seq<Seq<u32>>>;

/// What encoding a pixel grid as PNG produces. A pure function of the
/// grid.
pub uninterp spec fn png_bytes_of(px: Seq<Seq<u32>>) -> Seq<u8>;

/// Every row has the width of the first: the grid is rectangular.
pub open spec fn grid_ok(g: Seq<Seq<u32>>) -> bool {
    forall|i: int| 0 <= i < g.len() ==> (#[trigger] g[i]).len() == grid_w(g)
}

/// The grid's width (its first row's length) and height.
pub open spec fn grid_w(g: Seq<Seq<u32>>) -> int {
    if g.len() == 0 {
        0
    } else {
        g[0].len() as int
    }
}

pub open spec fn grid_h(g: Seq<Seq<u32>>) -> int {
    g.len() as int
}

/// Relies on `image::load_from_memory_with_format` with the PNG format:
/// decoding succeeds or fails on the bytes alone, and the result is a
/// rectangular image; the decode is normalized to 8-bit RGBA.
#[verifier::external_body]
pub fn decode_png(bytes: &[u8]) -> (r: Option<image::DynamicImage>)
    ensures
        r is Some <==> png_image(bytes@) is Some,
        r matches Some(img) ==> png_image(bytes@) matches Some(g) && image_px(img) == g
            && grid_ok(g),
{
    image::load_from_memory_with_format(bytes, image::ImageFormat::Png).ok().map(
        |i| image::DynamicImage::ImageRgba8(i.into_rgba8()),
    )
}

/// Relies on `image::DynamicImage::write_to` with the PNG format on the
/// image's 8-bit RGBA form: the encoding is a function of the pixels
/// alone, and PNG stores 8-bit RGBA losslessly, so decoding the encoding
/// yields the grid back. The encoder refuses an image with a zero
/// dimension, so the contract leaves those out.
#[verifier::external_body]
pub fn encode_png(img: &image::DynamicImage) -> (r: Vec<u8>)
    requires
        grid_w(image_px(*img)) > 0,
        grid_h(image_px(*img)) > 0,
    ensures
        r@ == png_bytes_of(image_px(*img)),
        png_image(r@) == Some(image_px(*img)),
{
    let mut buf = std::io::Cursor::new(Vec::new());
    image::DynamicImage::ImageRgba8(img.to_rgba8())
        .write_to(&mut buf, image::ImageFormat::Png)
        .expect("PNG encoding of an RGBA8 buffer does not fail");
    buf.into_inner()
}

/// Relies on `image::DynamicImage::width` and `height`: the pixel grid's
/// dimensions, `(width, height)`.
#[verifier::external_body]
pub fn image_dims(img: &image::DynamicImage) -> (r: (u32, u32))
    ensures
        r.1 as int == grid_h(image_px(*img)),
        grid_h(image_px(*img)) > 0 ==> r.0 as int == grid_w(image_px(*img)),
{
    (img.width(), img.height())
}

/// Relies on `image::DynamicImage::crop_imm`: with the rectangle inside
/// the image it returns exactly that sub-grid.
#[verifier::external_body]
pub fn crop_image(img: &image::DynamicImage, x: u32, y: u32, w: u32, h: u32) -> (r:
    image::DynamicImage)
    requires
        grid_ok(image_px(*img)),
        y + h <= grid_h(image_px(*img)),
        x + w <= grid_w(image_px(*img)) || h == 0,
    ensures
        grid_h(image_px(r)) == h,
        forall|i: int| 0 <= i < h ==> (#[trigger] image_px(r)[i]).len() == w,
        grid_ok(image_px(r)),
        forall|i: int, j: int|
            0 <= i < h && 0 <= j < w ==> #[trigger] image_px(r)[i][j] == image_px(*img)[y + i][x
                + j],
{
    image::DynamicImage::ImageRgba8(img.crop_imm(x, y, w, h).to_rgba8())
}

/// Relies on `GenericImage::copy_from` on the image's 8-bit RGBA form:
/// with the source inside the bounds it overwrites exactly the rectangle
/// at `(x, y)` and leaves every other pixel as it was.
#[verifier::external_body]
pub fn paste_image(dst: &mut image::DynamicImage, src: &image::DynamicImage, x: u32, y: u32)
    requires
        grid_ok(image_px(*old(dst))),
        grid_ok(image_px(*src)),
        y + grid_h(image_px(*src)) <= grid_h(image_px(*old(dst))),
        x + grid_w(image_px(*src)) <= grid_w(image_px(*old(dst))),
    ensures
        grid_ok(image_px(*final(dst))),
        grid_h(image_px(*final(dst))) == grid_h(image_px(*old(dst))),
        grid_w(image_px(*final(dst))) == grid_w(image_px(*old(dst))),
        forall|i: int, j: int|
            0 <= i < grid_h(image_px(*src)) && 0 <= j < grid_w(image_px(*src))
                ==> #[trigger] image_px(*final(dst))[y + i][x + j] == image_px(*src)[i][j],
        forall|i: int, j: int|
            0 <= i < grid_h(image_px(*old(dst))) && 0 <= j < grid_w(image_px(*old(dst))) && !(y <= i
                < y + grid_h(image_px(*src)) && x <= j < x + grid_w(image_px(*src)))
                ==> #[trigger] image_px(*final(dst))[i][j] == image_px(*old(dst))[i][j],
{
    if dst.as_rgba8().is_none() {
        *dst = image::DynamicImage::ImageRgba8(dst.to_rgba8());
    }
    let s = src.to_rgba8();
    let _ = image::GenericImage::copy_from(dst.as_mut_rgba8().unwrap(), &s, x, y);
}

/// Relies on `lazy_init::Lazy::new`: a cell holding nothing yet.
#[verifier::external_body]
fn lazy_empty() -> lazy_init::Lazy<Option<image::DynamicImage>> {
    lazy_init::Lazy::new()
}

/// One atlas-page cache slot: the page's PNG bytes, fixed when the slot
/// is made, and a write-once cell that memoizes their decode. The cell
/// is shared by all readers and populated at most once.
pub struct TexSlot {
    png: Vec<u8>,
    cell: lazy_init::Lazy<Option<image::DynamicImage>>,
}

impl TexSlot {
    /// The page bytes this slot caches the decode of.
    pub closed spec fn png_bytes(self) -> Seq<u8> {
        self.png@
    }

    /// Makes an unpopulated slot for the given page bytes.
    pub fn new(png: Vec<u8>) -> (r: TexSlot)
        ensures
            r.png_bytes() == png@,
    {
        TexSlot { png, cell: lazy_empty() }
    }

    /// Relies on `lazy_init::Lazy::get_or_create` — if several callers
    /// race on the same uninitialized cell, exactly one runs the closure
    /// and every caller gets a reference to that one value — and on
    /// `image::load_from_memory_with_format` (PNG decode, a function of
    /// the bytes alone, normalized to 8-bit RGBA). The cell is only ever
    /// filled by this method with the decode of this slot's own bytes,
    /// which `new` fixes, so the reference every caller observes is that
    /// decode.
    #[verifier::external_body]
    pub fn get<'a>(&'a self) -> (r: Option<&'a image::DynamicImage>)
        ensures
            r is Some <==> png_image(self.png_bytes()) is Some,
            r matches Some(img) ==> png_image(self.png_bytes()) matches Some(g) && image_px(*img)
                == g && grid_ok(g),
    {
        self.cell.get_or_create(
            || image::load_from_memory_with_format(&self.png, image::ImageFormat::Png).ok().map(
                |i| image::DynamicImage::ImageRgba8(i.into_rgba8()),
            ),
        ).as_ref()
    }
}

} // verus!
