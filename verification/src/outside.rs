//! The calls into other crates and the few parts of the standard library that are taken on
//! trust. Each item names the function it calls and says what is claimed of it.
use base64::Engine;
use hmac::Mac;
use rand::RngCore;
use sha2::Digest;
use vstd::prelude::*;

verus! {

/// A point in time, as the system clock gives it.
#[verifier::external_type_specification]
#[verifier::external_body]
pub struct ExSystemTime(std::time::SystemTime);

/// Says that one point in time does not come after another.
#[verifier::external_type_specification]
#[verifier::external_body]
pub struct ExSystemTimeError(std::time::SystemTimeError);

/// `SystemTime::now`: the clock's time. Nothing is claimed of it.
pub assume_specification[ std::time::SystemTime::now ]() -> std::time::SystemTime
;

/// `SystemTime::duration_since` with the start of 1970: the time that has passed since then.
/// Nothing is claimed of it.
#[verifier::external_body]
pub(crate) fn since_epoch(time: std::time::SystemTime) -> std::result::Result<
    std::time::Duration,
    std::time::SystemTimeError,
> {
    time.duration_since(std::time::UNIX_EPOCH)
}

/// `Duration::as_secs`: the whole seconds in a span of time. Nothing is claimed of them.
pub assume_specification[ std::time::Duration::as_secs ](span: &std::time::Duration) -> u64
;

/// The code that HMAC with SHA-256 gives to a message under a key.
pub uninterp spec fn hmac_sha256(key: Seq<u8>, message: Seq<u8>) -> Seq<u8>;

/// `Hmac::<Sha256>`: `new_from_slice`, `update` and `finalize` of the crate `hmac`. A key of any
/// length is taken, and the code is a function of the key and the message, with 32 bytes.
#[verifier::external_body]
pub(crate) fn hmac_sha256_code(key: &[u8], message: &[u8]) -> (res: Vec<u8>)
    ensures
        res@ == hmac_sha256(key@, message@),
        res@.len() == 32,
{
    let mut mac = hmac::Hmac::<sha2::Sha256>::new_from_slice(key).expect("any key length is taken");
    mac.update(message);
    mac.finalize().into_bytes().to_vec()
}

/// The lower case hexadecimal digit that stands for `d`.
pub open spec fn hex_digit(d: int) -> char {
    if d < 10 {
        (48 + d) as char
    } else {
        (87 + d) as char
    }
}

/// Two lower case hexadecimal digits for each byte, the higher one first.
pub open spec fn hex_text(bytes: Seq<u8>) -> Seq<char> {
    Seq::new(
        2 * bytes.len(),
        |i: int|
            if i % 2 == 0 {
                hex_digit(bytes[i / 2] as int / 16)
            } else {
                hex_digit(bytes[i / 2] as int % 16)
            },
    )
}

/// `hex::encode`: two lower case hexadecimal digits for each byte.
#[verifier::external_body]
pub(crate) fn hex_encode(bytes: &Vec<u8>) -> (res: String)
    ensures
        res@ == hex_text(bytes@),
{
    hex::encode(bytes)
}

/// What an encoder returned: the encoded bytes, or the text of its error.
pub open spec fn encoded(
    result: std::result::Result<Vec<u8>, String>,
) -> std::result::Result<Seq<u8>, Seq<char>> {
    match result {
        Ok(bytes) => Ok(bytes@),
        Err(text) => Err(text@),
    }
}

/// What the PNG encoder makes of an image with red, green, blue and alpha bytes.
pub uninterp spec fn png_encoding(width: u32, height: u32, pixels: Seq<u8>) -> std::result::Result<
    Seq<u8>,
    Seq<char>,
>;

/// `ImageBuffer::write_to` of the crate `image` with the PNG format. The result is a function of
/// the image, and only an image without pixels fails.
#[verifier::external_body]
pub(crate) fn png_bytes(width: u32, height: u32, pixels: &Vec<u8>) -> (res: std::result::Result<
    Vec<u8>,
    String,
>)
    requires
        pixels@.len() == 4 * width * height,
    ensures
        encoded(res) == png_encoding(width, height, pixels@),
        res is Ok == (width != 0 && height != 0),
{
    let image = image::RgbaImage::from_raw(width, height, pixels.clone()).expect("enough bytes");
    let mut out = std::io::Cursor::new(Vec::new());
    match image.write_to(&mut out, image::ImageFormat::Png) {
        Ok(()) => Ok(out.into_inner()),
        Err(err) => Err(err.to_string()),
    }
}

/// What the JPEG encoder makes of an image with red, green, blue and alpha bytes.
pub uninterp spec fn jpeg_encoding(
    width: u32,
    height: u32,
    pixels: Seq<u8>,
    quality: u8,
) -> std::result::Result<Seq<u8>, Seq<char>>;

/// `DynamicImage::to_rgb8` and `JpegEncoder::encode_image` of the crate `image`. The result is a
/// function of the image and the quality, and fails for an image without pixels and for one that
/// is wider or higher than 65535 pixels.
#[verifier::external_body]
pub(crate) fn jpeg_bytes(
    width: u32,
    height: u32,
    pixels: &Vec<u8>,
    quality: u8,
) -> (res: std::result::Result<Vec<u8>, String>)
    requires
        pixels@.len() == 4 * width * height,
    ensures
        encoded(res) == jpeg_encoding(width, height, pixels@, quality),
        res is Ok == (1 <= width <= 65535 && 1 <= height <= 65535),
{
    let image = image::RgbaImage::from_raw(width, height, pixels.clone()).expect("enough bytes");
    let rgb = image::DynamicImage::ImageRgba8(image).to_rgb8();
    let mut out = std::io::Cursor::new(Vec::new());
    let mut encoder = image::codecs::jpeg::JpegEncoder::new_with_quality(&mut out, quality);
    match encoder.encode_image(&rgb) {
        Ok(()) => Ok(out.into_inner()),
        Err(err) => Err(err.to_string()),
    }
}

/// Whether bytes are an image in a format that can be read.
pub uninterp spec fn image_decodes(bytes: Seq<u8>) -> bool;

/// `image::load_from_memory`, `DynamicImage::resize_to_fill` with the Lanczos filter, and
/// `to_rgba8`. Whether there is an image depends on the bytes alone. It is scaled to fill a square
/// of the given side and cropped to it; of an image that is so long that a scaled side would not
/// fit into 32 bits, the other side comes out shorter. Its colours are not described: the filter
/// computes them with a sine whose last digits depend on the machine. With a larger side than
/// asked for here, a scaled image could take more bytes than can be addressed.
#[verifier::external_body]
pub(crate) fn decode_square(bytes: &Vec<u8>, side: u32) -> (res: Option<(u32, u32, Vec<u8>)>)
    requires
        side < 0x800_0000,
    ensures
        res is Some == image_decodes(bytes@),
        res matches Some((width, height, pixels)) ==> {
            &&& width <= side && height <= side
            &&& side >= 1 ==> width >= 1 && height >= 1
            &&& pixels@.len() == 4 * width * height
        },
{
    let decoded = image::load_from_memory(bytes).ok()?;
    let square = decoded.resize_to_fill(side, side, image::imageops::FilterType::Lanczos3);
    let pixels = square.to_rgba8();
    Some((pixels.width(), pixels.height(), pixels.into_raw()))
}

/// What a text is as a URL: its scheme and its normal form, or what is wrong with it.
pub uninterp spec fn parsed_url(raw: Seq<char>) -> std::result::Result<
    (Seq<char>, Seq<char>),
    Seq<char>,
>;

/// The characters of what the URL parser returned.
pub open spec fn url_read(
    result: std::result::Result<(String, String), String>,
) -> std::result::Result<(Seq<char>, Seq<char>), Seq<char>> {
    match result {
        Ok((scheme, normal)) => Ok((scheme@, normal@)),
        Err(text) => Err(text@),
    }
}

/// `Url::parse` of the crate `url`, with `scheme` and `as_str` of what it returns, or the text of
/// its error. All of it is a function of the text.
#[verifier::external_body]
pub(crate) fn parse_url(raw: &str) -> (res: std::result::Result<(String, String), String>)
    ensures
        url_read(res) == parsed_url(raw@),
{
    match url::Url::parse(raw) {
        Ok(url) => Ok((url.scheme().to_owned(), url.as_str().to_owned())),
        Err(err) => Err(err.to_string()),
    }
}

/// A byte, and zero behind the end.
pub open spec fn byte_at(bytes: Seq<u8>, i: int) -> int {
    if 0 <= i < bytes.len() {
        bytes[i] as int
    } else {
        0
    }
}

/// The `i`-th group of six bits.
pub open spec fn sextet(bytes: Seq<u8>, i: int) -> int {
    let k = i / 4 * 3;
    if i % 4 == 0 {
        byte_at(bytes, k) / 4
    } else if i % 4 == 1 {
        byte_at(bytes, k) % 4 * 16 + byte_at(bytes, k + 1) / 16
    } else if i % 4 == 2 {
        byte_at(bytes, k + 1) % 16 * 4 + byte_at(bytes, k + 2) / 64
    } else {
        byte_at(bytes, k + 2) % 64
    }
}

/// The character that stands for six bits: letters, digits, and two more characters, which are
/// not the same in links.
pub open spec fn base64_char(value: int, in_link: bool) -> char {
    if value < 26 {
        (65 + value) as char
    } else if value < 52 {
        (97 + value - 26) as char
    } else if value < 62 {
        (48 + value - 52) as char
    } else if value == 62 {
        if in_link {
            '-'
        } else {
            '+'
        }
    } else {
        if in_link {
            '_'
        } else {
            '/'
        }
    }
}

/// The characters for all the bits of some bytes, without anything behind them.
pub open spec fn base64_chars(bytes: Seq<u8>, in_link: bool) -> Seq<char> {
    Seq::new(
        (4 * bytes.len() + 2) / 3,
        |i: int| base64_char(sextet(bytes, i), in_link),
    )
}

/// The equals signs that fill the last group of four characters.
pub open spec fn base64_fill(bytes: Seq<u8>) -> Seq<char> {
    Seq::new(((3 - bytes.len() % 3) % 3) as nat, |i: int| '=')
}

/// `Engine::encode` of the crate `base64` with the engine `STANDARD`.
#[verifier::external_body]
pub(crate) fn base64_standard(bytes: &[u8]) -> (res: String)
    ensures
        res@ == base64_chars(bytes@, false) + base64_fill(bytes@),
{
    base64::engine::general_purpose::STANDARD.encode(bytes)
}

/// `Engine::encode` of the crate `base64` with the engine `URL_SAFE_NO_PAD`.
#[verifier::external_body]
pub(crate) fn base64_for_link(bytes: &Vec<u8>) -> (res: String)
    ensures
        res@ == base64_chars(bytes@, true),
{
    base64::engine::general_purpose::URL_SAFE_NO_PAD.encode(bytes)
}

/// The SHA-256 digest of some bytes.
pub uninterp spec fn sha256(bytes: Seq<u8>) -> Seq<u8>;

/// `Sha256::digest` of the crate `sha2`. The digest is a function of the bytes, and has 32 bytes.
#[verifier::external_body]
pub(crate) fn sha256_digest(bytes: &[u8]) -> (res: Vec<u8>)
    ensures
        res@ == sha256(bytes@),
        res@.len() == 32,
{
    sha2::Sha256::digest(bytes).to_vec()
}

/// `RngCore::fill_bytes` of the generator that `rand::thread_rng` returns, on so many bytes.
/// Nothing is claimed of the bytes but their number.
#[verifier::external_body]
pub(crate) fn random_bytes(count: u16) -> (res: Vec<u8>)
    ensures
        res@.len() == count,
{
    let mut bytes = vec![0u8; count.into()];
    rand::thread_rng().fill_bytes(&mut bytes);
    bytes
}

/// Whether a text has the form of a UUID: lower case hexadecimal digits in five groups.
pub open spec fn uuid_form(s: Seq<char>) -> bool {
    &&& s.len() == 36
    &&& forall|i: int|
        0 <= i < 36 ==> if i == 8 || i == 13 || i == 18 || i == 23 {
            #[trigger] s[i] == '-'
        } else {
            '0' <= s[i] <= '9' || 'a' <= s[i] <= 'f'
        }
}

/// `Uuid::now_v7` of the crate `uuid`, written out. It depends on the time and on chance; only
/// its form is claimed.
#[verifier::external_body]
pub(crate) fn new_uuid() -> (res: String)
    ensures
        uuid_form(res@),
{
    uuid::Uuid::now_v7().to_string()
}

/// The bytes that stand for themselves in a link.
pub open spec fn unreserved(b: u8) -> bool {
    48 <= b <= 57 || 65 <= b <= 90 || 97 <= b <= 122 || b == 45 || b == 46 || b == 95 || b == 126
}

/// The upper case hexadecimal digit that stands for `d`.
pub open spec fn upper_hex_digit(d: int) -> char {
    if d < 10 {
        (48 + d) as char
    } else {
        (55 + d) as char
    }
}

/// How a byte is written in a link.
pub open spec fn percent_byte(b: u8) -> Seq<char> {
    if unreserved(b) {
        seq![b as char]
    } else {
        seq!['%', upper_hex_digit(b as int / 16), upper_hex_digit(b as int % 16)]
    }
}

/// How bytes are written in a link.
pub open spec fn percent_bytes(bytes: Seq<u8>) -> Seq<char>
    decreases bytes.len(),
{
    if bytes.len() == 0 {
        Seq::empty()
    } else {
        percent_bytes(bytes.drop_last()) + percent_byte(bytes.last())
    }
}

/// How a text is written in a link.
pub open spec fn percent_text(s: Seq<char>) -> Seq<char> {
    percent_bytes(vstd::utf8::encode_utf8(s))
}

/// `urlencoding::encode`: letters, digits and the four characters `-`, `.`, `_` and `~` stand for
/// themselves, each other byte of the UTF-8 form becomes a percent sign and two upper case
/// hexadecimal digits.
#[verifier::external_body]
pub(crate) fn percent_encode(data: &str) -> (res: String)
    ensures
        res@ == percent_text(data@),
{
    urlencoding::encode(data).into_owned()
}

} // verus!
