//! Where the parts of a card stand, and how large its texts are set.
use vstd::prelude::*;

use crate::render::single::{divide_to_single, round_to_single};
use crate::render::single::{half_up, nearest, nearest_close, nearest_grows, nearest_small, quotient};
use crate::render::single::{quotient_at_most_one, scale, MANTISSA};

verus! {

/// The height of the strip with the progress bar and the times.
pub const CONTROL_H: i32 = 76;

/// The height of the progress bar.
pub const BAR_H: u32 = 12;

/// The gap between the texts of a card.
pub const META_GAP: i32 = 10;

/// The size in which the album is set.
pub const ALBUM_SIZE: u32 = 42;

/// The measures of a card, in pixels.
#[derive(Clone, Copy, Debug)]
pub struct Layout {
    pub pad_x: i32,
    pub pad_top: i32,
    pub pad_bottom: i32,
    pub radius: u32,
    pub gap: i32,
    pub header: i32,
    pub header_gap: i32,
    pub art: u32,
}

impl Default for Layout {
    fn default() -> (res: Self)
        ensures
            res == standard_layout(),
    {
        Layout {
            pad_x: 40,
            pad_top: 40,
            pad_bottom: 40,
            radius: 18,
            gap: 36,
            header: 56,
            header_gap: 32,
            art: 360,
        }
    }
}

/// The measures that every card has.
pub open spec fn standard_layout() -> Layout {
    Layout {
        pad_x: 40,
        pad_top: 40,
        pad_bottom: 40,
        radius: 18,
        gap: 36,
        header: 56,
        header_gap: 32,
        art: 360,
    }
}

/// Whether a number is one of 32 bits.
pub open spec fn fits(n: int) -> bool {
    i32::MIN <= n <= i32::MAX
}

impl Layout {
    /// The side of the cover.
    pub fn art(&self, _height: u32) -> (res: u32)
        ensures
            res == self.art,
    {
        self.art
    }

    /// Where the cover stands.
    pub fn art_origin(&self, _height: u32) -> (res: (i32, i32))
        requires
            fits(self.pad_top + self.header),
            fits(self.pad_top + self.header + self.header_gap),
        ensures
            res.0 == self.pad_x,
            res.1 == self.pad_top + self.header + self.header_gap,
    {
        (self.pad_x, self.pad_top + self.header + self.header_gap)
    }

    /// Where the texts begin.
    pub fn text_x(&self, height: u32) -> (res: i32)
        requires
            self.art <= i32::MAX,
            fits(self.pad_x + self.art),
            fits(self.pad_x + self.art + self.gap),
        ensures
            res == self.pad_x + self.art + self.gap,
    {
        self.pad_x + self.art(height) as i32 + self.gap
    }

    /// Where the texts have to end.
    pub fn text_right(&self, width: u32) -> (res: i32)
        requires
            width <= i32::MAX,
            fits(width - self.pad_x),
        ensures
            res == width - self.pad_x,
    {
        width as i32 - self.pad_x
    }

    /// How wide the texts may be.
    pub fn text_width(&self, width: u32, height: u32) -> (res: i32)
        requires
            width <= i32::MAX,
            self.art <= i32::MAX,
            fits(width - self.pad_x),
            fits(self.pad_x + self.art),
            fits(self.pad_x + self.art + self.gap),
            fits(width - self.pad_x - (self.pad_x + self.art + self.gap)),
        ensures
            res == width - self.pad_x - (self.pad_x + self.art + self.gap),
    {
        self.text_right(width) - self.text_x(height)
    }

    /// Where the content of a card ends.
    pub fn content_bottom(&self, height: u32) -> (res: i32)
        requires
            height <= i32::MAX,
            fits(height - self.pad_bottom),
        ensures
            res == height - self.pad_bottom,
    {
        height as i32 - self.pad_bottom
    }
}

/// The single precision number nearest to 1.16, times `2^23`.
pub const LEADING: u64 = 9730785;

/// The distance between the tops of two lines: 1.16 times the size, computed in single
/// precision and rounded to the nearest integer.
pub open spec fn leading(size: u32) -> nat {
    half_up(nearest(nearest(size as nat) * LEADING as nat), 0x80_0000)
}

/// The height of a line in a given size.
pub open spec fn height_of_line(size: u32) -> int {
    if leading(size) > i32::MAX {
        i32::MAX as int
    } else {
        leading(size) as int
    }
}

/// The height of a line in a given size.
pub fn line_height(size: u32) -> (res: i32)
    ensures
        res == height_of_line(size),
{
    proof {
        nearest_close(size as nat);
        assert(nearest(size as nat) * LEADING <= 0x1_0000_0200 * LEADING);
        nearest_close((nearest(size as nat) * LEADING) as nat);
    }
    let product: u64 = round_to_single(size as u64) * LEADING;
    let scaled: u64 = round_to_single(product);
    let height: u64 = (2 * scaled + 0x80_0000) / 0x100_0000;
    if height > i32::MAX as u64 {
        i32::MAX
    } else {
        height as i32
    }
}

/// In every size that text is set in, the height of a line is the integer nearest to 1.16 times
/// the size.
pub proof fn line_height_is_nearest(size: u32)
    requires
        size <= 100_000,
    ensures
        -50 <= 100 * height_of_line(size) - 116 * size <= 50,
{
    nearest_small(size as nat);
    let product = size as nat * LEADING as nat;
    nearest_close(product);
    let rounded = nearest(product);
    assert(product == 9730785 * size);
    assert(leading(size) == (2 * rounded + 0x80_0000) / 0x100_0000);
    // The product is a little less than 1.16 times 2^23, and rounding moves it a little.
    assert(0x100_0000 * rounded <= 0x100_0001 * (9730785 * size));
    assert(0xff_ffff * (9730785 * size) <= 0x100_0000 * rounded);
}

/// The sizes and the numbers of lines of the three texts of a card.
#[derive(Clone, Copy, Debug)]
pub struct FittedText {
    pub title_size: u32,
    pub artist_size: u32,
    pub album_size: u32,
    pub title_lines: usize,
    pub artist_lines: usize,
    pub album_lines: usize,
}

impl FittedText {
    /// The height of the three texts, with the gaps between them.
    pub open spec fn tall(self) -> int {
        self.title_lines * height_of_line(self.title_size) + META_GAP + self.artist_lines
            * height_of_line(self.artist_size) + META_GAP + self.album_lines * height_of_line(
            self.album_size,
        )
    }

    /// The height of the three texts, with the gaps between them.
    pub fn height(&self) -> (res: i32)
        requires
            self.title_lines <= i32::MAX,
            self.artist_lines <= i32::MAX,
            self.album_lines <= i32::MAX,
            self.tall() <= i32::MAX,
        ensures
            res == self.tall(),
    {
        let title: i32 = line_height(self.title_size);
        let artist: i32 = line_height(self.artist_size);
        let album: i32 = line_height(self.album_size);
        proof {
            assert(self.title_lines * title >= 0) by (nonlinear_arith)
                requires
                    title >= 0,
            ;
            assert(self.artist_lines * artist >= 0) by (nonlinear_arith)
                requires
                    artist >= 0,
            ;
            assert(self.album_lines * album >= 0) by (nonlinear_arith)
                requires
                    album >= 0,
            ;
        }
        self.title_lines as i32 * title + META_GAP + self.artist_lines as i32 * artist + META_GAP
            + self.album_lines as i32 * album
    }
}

/// The filled part of a progress bar of a given width: the width times the quotient of the
/// progress by the duration, computed in single precision and rounded to the nearest integer.
/// The quotient counts as zero without a duration, and as one where it is larger.
pub open spec fn filled_part(bar: u32, progress_ms: u32, duration_ms: u32) -> nat {
    let whole = nearest(bar as nat);
    let at = nearest(progress_ms as nat);
    let end = nearest(duration_ms as nat);
    if duration_ms == 0 || progress_ms == 0 {
        0
    } else if at >= end {
        whole
    } else {
        half_up(nearest(whole * quotient(at, end)), scale(at, end))
    }
}

proof fn lemma_product_at_most(a: nat, b: nat, x: nat, y: nat)
    requires
        a <= x,
        b <= y,
    ensures
        a * b <= x * y,
{
    assert(a * b <= x * y) by (nonlinear_arith)
        requires
            a <= x,
            b <= y,
    ;
}

proof fn lemma_half_up_at_most(n: nat, d: nat, bound: nat)
    requires
        d > 0,
        2 * n < (2 * bound + 1) * d,
    ensures
        half_up(n, d) <= bound,
{
    assert((2 * n + d) / (2 * d) <= bound) by (nonlinear_arith)
        requires
            d > 0,
            2 * n < (2 * bound + 1) * d,
    ;
}

/// The filled part is never wider than the bar, for every bar of fewer than `2^23` pixels.
pub proof fn filled_inside_bar(bar: u32, progress_ms: u32, duration_ms: u32)
    requires
        bar < 0x80_0000,
    ensures
        filled_part(bar, progress_ms, duration_ms) <= bar,
{
    let at = nearest(progress_ms as nat);
    let end = nearest(duration_ms as nat);
    nearest_small(bar as nat);
    if duration_ms != 0 && progress_ms != 0 && at < end {
        nearest_close(progress_ms as nat);
        quotient_at_most_one(at, end);
        let s = scale(at, end);
        let q = quotient(at, end);
        let product = bar as nat * q;
        lemma_product_at_most(bar as nat, q, bar as nat, s);
        nearest_close(product);
        assert(2 * nearest(product) < (2 * bar + 1) * s) by (nonlinear_arith)
            requires
                0x100_0000 * nearest(product) <= 0x100_0001 * product,
                product <= bar * s,
                bar < 0x80_0000,
                s >= 1,
        ;
        lemma_half_up_at_most(nearest(product), s, bar as nat);
    }
}

/// A bar is empty at the start of a track, and without a duration.
pub proof fn filled_nothing(bar: u32, progress_ms: u32, duration_ms: u32)
    requires
        progress_ms == 0 || duration_ms == 0,
    ensures
        filled_part(bar, progress_ms, duration_ms) == 0,
{
}

/// A bar is full at the end of a track.
pub proof fn filled_all(bar: u32, progress_ms: u32, duration_ms: u32)
    requires
        bar < MANTISSA,
        0 < duration_ms <= progress_ms,
    ensures
        filled_part(bar, progress_ms, duration_ms) == bar,
{
    nearest_small(bar as nat);
    nearest_grows(duration_ms as nat, progress_ms as nat);
}

/// The width of the filled part of a progress bar.
pub fn filled_width(bar: u32, progress_ms: u32, duration_ms: u32) -> (res: u32)
    requires
        bar <= i32::MAX,
    ensures
        res == filled_part(bar, progress_ms, duration_ms),
{
    proof {
        nearest_close(bar as nat);
        nearest_close(progress_ms as nat);
        nearest_close(duration_ms as nat);
    }
    let whole: u64 = round_to_single(bar as u64);
    if duration_ms == 0 || progress_ms == 0 {
        return 0;
    }
    let at: u64 = round_to_single(progress_ms as u64);
    let end: u64 = round_to_single(duration_ms as u64);
    if at >= end {
        return whole as u32;
    }
    proof {
        quotient_at_most_one(at as nat, end as nat);
    }
    let (q, s): (u64, u64) = divide_to_single(at, end);
    let ghost product = whole as nat * q as nat;
    proof {
        lemma_product_at_most(whole as nat, q as nat, 0x8000_0080, MANTISSA as nat);
        lemma_product_at_most(whole as nat, q as nat, whole as nat, s as nat);
        nearest_close(product);
        assert(s <= MANTISSA * end) by (nonlinear_arith)
            requires
                at * s <= MANTISSA * end,
                at >= 1,
        ;
        assert(2 * nearest(product) < (2 * 0x9000_0000 + 1) * s) by (nonlinear_arith)
            requires
                0x100_0000 * nearest(product) <= 0x100_0001 * product,
                product <= whole * s,
                whole <= 0x8000_0080,
                s >= 1,
        ;
        lemma_half_up_at_most(nearest(product), s as nat, 0x9000_0000);
    }
    let scaled: u64 = round_to_single(whole * q);
    ((2 * scaled + s) / (2 * s)) as u32
}

} // verus!
