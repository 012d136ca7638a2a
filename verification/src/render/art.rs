//! Pictures: decoding and encoding them, and finding the colour that stands out.
use vstd::prelude::*;

use crate::outside;
use crate::render::RenderError;

verus! {

/// A picture of red, green, blue and alpha bytes, row by row from the top.
#[derive(Clone, Debug, PartialEq, Eq)]
pub struct Bitmap {
    pub width: u32,
    pub height: u32,
    pub pixels: Vec<u8>,
}

impl Bitmap {
    /// Whether there are four bytes for each pixel.
    pub open spec fn sound(&self) -> bool {
        self.pixels@.len() == 4 * self.width * self.height
    }
}

/// The result of an encoder, with its error as one of rendering.
fn or_encode_error(result: std::result::Result<Vec<u8>, String>) -> (res: std::result::Result<
    Vec<u8>,
    RenderError,
>)
    ensures
        match outside::encoded(result) {
            Ok(bytes) => res matches Ok(out) && out@ == bytes,
            Err(text) => res matches Err(RenderError::Encode(err)) && err@ == text,
        },
{
    match result {
        Ok(bytes) => Ok(bytes),
        Err(text) => Err(RenderError::Encode(text)),
    }
}

/// Encodes a picture as PNG. Only one without pixels cannot be encoded.
pub fn encode_png(image: &Bitmap) -> (res: std::result::Result<Vec<u8>, RenderError>)
    requires
        image.sound(),
    ensures
        match outside::png_encoding(image.width, image.height, image.pixels@) {
            Ok(bytes) => res matches Ok(out) && out@ == bytes,
            Err(text) => res matches Err(RenderError::Encode(err)) && err@ == text,
        },
        res is Ok <==> image.width > 0 && image.height > 0,
{
    or_encode_error(outside::png_bytes(image.width, image.height, &image.pixels))
}

/// Encodes a picture as JPEG, without its alpha. One without pixels, or with a side of more than
/// 65535 pixels, cannot be encoded.
pub fn encode_jpeg(image: &Bitmap, quality: u8) -> (res: std::result::Result<Vec<u8>, RenderError>)
    requires
        image.sound(),
    ensures
        match outside::jpeg_encoding(image.width, image.height, image.pixels@, quality) {
            Ok(bytes) => res matches Ok(out) && out@ == bytes,
            Err(text) => res matches Err(RenderError::Encode(err)) && err@ == text,
        },
        res is Ok <==> 1 <= image.width <= 65535 && 1 <= image.height <= 65535,
{
    or_encode_error(outside::jpeg_bytes(image.width, image.height, &image.pixels, quality))
}

/// Whether a picture is one that reading these bytes, and scaling and cropping what they show to a
/// square of this side, can give. Machines differ in the last digits of its colours.
pub closed spec fn decoded_as(bytes: Seq<u8>, side: u32, image: Bitmap) -> bool {
    exists|given: &Vec<u8>, out: Option<(u32, u32, Vec<u8>)>|
        {
            &&& given@ == bytes
            &&& #[trigger] call_ensures(outside::decode_square, (given, side), out)
            &&& out == Some((image.width, image.height, image.pixels))
        }
}

/// Decodes a picture into a square of the given side, or into a part of one, for a picture that is
/// too long to be scaled to it. There is none where there are no bytes or they are no picture.
pub fn decode_art(bytes: Option<&Vec<u8>>, size: u32) -> (res: Option<Bitmap>)
    requires
        size < 0x800_0000,
    ensures
        res is Some <==> bytes is Some && outside::image_decodes(bytes->0@),
        res matches Some(image) ==> {
            &&& decoded_as(bytes->0@, size, image)
            &&& image.sound()
            &&& image.width <= size && image.height <= size
            &&& size >= 1 ==> image.width >= 1 && image.height >= 1
        },
{
    match bytes {
        Some(bytes) => match outside::decode_square(bytes, size) {
            Some((width, height, pixels)) => {
                let image = Bitmap { width, height, pixels };
                proof {
                    assert(decoded_as(bytes@, size, image));
                }
                Some(image)
            },
            None => None,
        },
        None => None,
    }
}

/// The distance between the pixels of a cover that are looked at: an eighth of its width, and at
/// least one.
pub open spec fn step_of(width: u32) -> int {
    if width < 16 {
        1
    } else {
        width as int / 8
    }
}

/// How many steps it takes to pass a side.
pub open spec fn steps(side: u32, step: int) -> int {
    (side + step - 1) / step
}

/// The pixels of a cover that are looked at, row by row.
pub open spec fn sampled(width: u32, height: u32) -> Seq<(u32, u32)> {
    let step = step_of(width);
    let columns = steps(width, step);
    Seq::new(
        (columns * steps(height, step)) as nat,
        |i: int| ((i % columns * step) as u32, (i / columns * step) as u32),
    )
}

/// The pixels of a cover that are looked at.
pub fn sample_points(width: u32, height: u32) -> (res: Vec<(u32, u32)>)
    ensures
        res@ == sampled(width, height),
        forall|i: int|
            0 <= i < res@.len() ==> (#[trigger] res@[i]).0 < width && res@[i].1 < height,
{
    let step: u64 = if width < 16 { 1 } else { (width / 8) as u64 };
    let columns: u64 = (width as u64 + step - 1) / step;
    let rows: u64 = (height as u64 + step - 1) / step;
    let mut res: Vec<(u32, u32)> = Vec::new();
    proof {
        assert(columns <= width as u64 && rows <= height as u64) by (nonlinear_arith)
            requires
                step >= 1,
                columns == (width as u64 + step - 1) / (step as int),
                rows == (height as u64 + step - 1) / (step as int),
        ;
        assert(columns * rows <= 0xffff_ffff * 0xffff_ffff) by (nonlinear_arith)
            requires
                columns <= 0xffff_ffff,
                rows <= 0xffff_ffff,
        ;
    }
    let count: u64 = columns * rows;
    let mut i: u64 = 0;
    while i < count
        invariant
            1 <= step == step_of(width),
            columns == steps(width, step as int),
            rows == steps(height, step as int),
            columns <= 0xffff_ffff,
            rows <= 0xffff_ffff,
            count == columns * rows,
            i <= count,
            res@ == sampled(width, height).take(i as int),
            forall|j: int|
                0 <= j < res@.len() ==> (#[trigger] res@[j]).0 < width && res@[j].1 < height,
        decreases count - i,
    {
        proof {
            lemma_inside(i as int, columns as int, rows as int, step as int, width, height);
        }
        let x: u32 = (i % columns * step) as u32;
        let y: u32 = (i / columns * step) as u32;
        res.push((x, y));
        proof {
            assert(sampled(width, height).take(i + 1) =~= sampled(width, height).take(
                i as int,
            ).push(sampled(width, height)[i as int]));
        }
        i += 1;
    }
    proof {
        assert(sampled(width, height).take(count as int) =~= sampled(width, height));
    }
    res
}

proof fn lemma_before_side(k: int, step: int, side: u32)
    requires
        step >= 1,
        0 <= k < steps(side, step),
    ensures
        0 <= k * step < side,
{
    let n = steps(side, step);
    vstd::arithmetic::div_mod::lemma_fundamental_div_mod(side + step - 1, step);
    assert(k * step <= (n - 1) * step) by (nonlinear_arith)
        requires
            k <= n - 1,
            step >= 1,
    ;
    assert((n - 1) * step == step * n - step) by (nonlinear_arith);
    assert(0 <= k * step) by (nonlinear_arith)
        requires
            k >= 0,
            step >= 1,
    ;
}

proof fn lemma_inside(i: int, columns: int, rows: int, step: int, width: u32, height: u32)
    requires
        step >= 1,
        columns == steps(width, step),
        rows == steps(height, step),
        0 <= i < columns * rows,
        columns >= 0,
        rows >= 0,
    ensures
        columns >= 1,
        0 <= i % columns * step < width,
        0 <= i / columns * step < height,
{
    assert(columns >= 1) by (nonlinear_arith)
        requires
            0 <= i < columns * rows,
            columns >= 0,
            rows >= 0,
    ;
    vstd::arithmetic::div_mod::lemma_fundamental_div_mod(i, columns);
    assert(0 <= i / columns < rows) by (nonlinear_arith)
        requires
            i == columns * (i / columns) + i % columns,
            0 <= i % columns < columns,
            0 <= i < columns * rows,
            columns >= 1,
    ;
    lemma_before_side(i % columns, step, width);
    lemma_before_side(i / columns, step, height);
}

/// The place of the strongest score: the first of the largest ones, unless it is below the floor
/// or zero. Scores are given as numbers in the same order.
pub fn strongest(scores: &Vec<u32>, floor: u32) -> (res: Option<usize>)
    ensures
        res is Some <==> exists|i: int|
            0 <= i < scores@.len() && #[trigger] scores@[i] >= floor && scores@[i] > 0,
        res matches Some(at) ==> {
            &&& at < scores@.len()
            &&& floor <= scores@[at as int]
            &&& 0 < scores@[at as int]
            &&& forall|i: int| 0 <= i < scores@.len() ==> scores@[i] <= scores@[at as int]
            &&& forall|i: int| 0 <= i < at ==> scores@[i] < scores@[at as int]
        },
{
    let mut best: u32 = 0;
    let mut at: usize = 0;
    let mut i: usize = 0;
    while i < scores.len()
        invariant
            i <= scores@.len(),
            best > 0 ==> at < i && scores@[at as int] == best,
            forall|j: int| 0 <= j < i ==> scores@[j] <= best,
            best > 0 ==> forall|j: int| 0 <= j < at ==> scores@[j] < best,
        decreases scores@.len() - i,
    {
        if scores[i] > best {
            best = scores[i];
            at = i;
        }
        i += 1;
    }
    if best == 0 || best < floor {
        None
    } else {
        Some(at)
    }
}

/// Where a pixel at given coordinates stands in a picture of a given size, if it does.
pub fn pixel_at(x: i32, y: i32, width: u32, height: u32) -> (res: Option<(u32, u32)>)
    ensures
        res is Some <==> 0 <= x < width && 0 <= y < height,
        res matches Some((column, row)) ==> column == x && row == y,
{
    if x < 0 || y < 0 {
        return None;
    }
    let column: u32 = x as u32;
    let row: u32 = y as u32;
    if column >= width || row >= height {
        return None;
    }
    Some((column, row))
}

} // verus!
