//! A card as a list of strokes: what is drawn, where, in which ink and in which order.
use vstd::prelude::*;

use crate::outside::image_decodes;
use crate::render::art::{decode_art, decoded_as, Bitmap};
use crate::render::card::{clock_text, format_ms, Card, CardKind};
use crate::render::fit::fit_playing_stack;
use crate::render::fit::{chosen, fitted_stays_inside};
use crate::render::layout::{filled_width, line_height, Layout, BAR_H, CONTROL_H, META_GAP};
use crate::render::layout::{filled_part, fits, height_of_line, line_height_is_nearest};
use crate::render::layout::FittedText;
use crate::render::wrap::{ellipsize, measure_text, wrap_lines};
use crate::render::wrap::{ellipsized, ruler, steady, width, wrapped};
use crate::render::wrap_laws::{ellipsized_fits, wrapped_stays_inside};
use crate::render::RenderOptions;
use crate::text::texts;

verus! {

/// The side of the listener's picture.
pub const AVATAR_SIZE: u32 = 56;

/// The size in which the listener's name is set.
pub const NAME_SIZE: u32 = 52;

/// The size in which the times are set.
pub const TIME_SIZE: u32 = 34;

/// The colours that strokes are drawn in: those of the theme, and the accent that is taken from
/// the cover.
#[derive(Clone, Copy, Debug, PartialEq, Eq, Structural)]
pub enum Ink {
    White,
    Muted,
    Faint,
    Track,
    Accent,
}

/// One step of drawing a card.
#[derive(Clone, Debug, PartialEq, Eq)]
pub enum Stroke {
    /// The background, washed with the accent.
    Wash,
    /// The cover, with rounded corners, or a plain square where there is none.
    Cover { x: i32, y: i32, size: u32, radius: u32 },
    /// The large sign behind the texts that says whether the track is playing.
    Watermark { playing: bool },
    /// The listener's picture, with rounded corners.
    Avatar { x: i32, y: i32, radius: u32 },
    /// A line of text.
    Text { ink: Ink, x: i32, y: i32, size: u32, bold: bool, text: String },
    /// A rectangle, drawn with the given opacity in percent.
    Fill { ink: Ink, x: i32, y: i32, width: u32, height: u32, percent: u8 },
}

/// One step of drawing a card, with the characters of its text.
pub enum Drawn {
    Wash,
    Cover { x: int, y: int, size: int, radius: int },
    Watermark { playing: bool },
    Avatar { x: int, y: int, radius: int },
    Text { ink: Ink, x: int, y: int, size: u32, bold: bool, text: Seq<char> },
    Fill { ink: Ink, x: int, y: int, width: int, height: int, percent: int },
}

impl View for Stroke {
    type V = Drawn;

    open spec fn view(&self) -> Drawn {
        match self {
            Stroke::Wash => Drawn::Wash,
            Stroke::Cover { x, y, size, radius } => Drawn::Cover {
                x: *x as int,
                y: *y as int,
                size: *size as int,
                radius: *radius as int,
            },
            Stroke::Watermark { playing } => Drawn::Watermark { playing: *playing },
            Stroke::Avatar { x, y, radius } => Drawn::Avatar {
                x: *x as int,
                y: *y as int,
                radius: *radius as int,
            },
            Stroke::Text { ink, x, y, size, bold, text } => Drawn::Text {
                ink: *ink,
                x: *x as int,
                y: *y as int,
                size: *size,
                bold: *bold,
                text: text@,
            },
            Stroke::Fill { ink, x, y, width, height, percent } => Drawn::Fill {
                ink: *ink,
                x: *x as int,
                y: *y as int,
                width: *width as int,
                height: *height as int,
                percent: *percent as int,
            },
        }
    }
}

/// The steps of a drawing.
pub open spec fn drawn(strokes: Seq<Stroke>) -> Seq<Drawn> {
    strokes.map_values(|stroke: Stroke| stroke@)
}

/// Whether a measuring function gives no text a negative width, and no short text in an
/// ordinary size a width of more than `2^24` pixels.
pub open spec fn modest<F: Fn(&str, u32, bool) -> i32>(measure: F) -> bool {
    forall|s: &str, size: u32, bold: bool, w: i32| #[trigger]
        call_ensures(measure, (s, size, bold), w) ==> 0 <= w && (s@.len() <= 16 && size <= 100
            ==> w <= 0x100_0000)
}

/// The width of a text, as a steady and modest measuring function gives it.
fn measured<F: Fn(&str, u32, bool) -> i32>(
    measure: &F,
    text: &str,
    size: u32,
    bold: bool,
) -> (w: i32)
    requires
        steady(*measure),
        modest(*measure),
    ensures
        w == width(*measure, text@, size, bold),
        0 <= w,
        text@.len() <= 16 && size <= 100 ==> w <= 0x100_0000,
{
    let w: i32 = measure(text, size, bold);
    let again: i32 = measure_text(measure, text, size, bold);
    proof {
        assert(crate::render::wrap::measures(*measure, text@, size, bold, w));
        assert(crate::render::wrap::measures(*measure, text@, size, bold, again));
    }
    w
}

/// The strokes of a block of text: its lines, one below the other.
pub open spec fn block(
    lines: Seq<Seq<char>>,
    ink: Ink,
    x: int,
    y: int,
    size: u32,
    bold: bool,
) -> Seq<Drawn> {
    Seq::new(
        lines.len(),
        |i: int|
            Drawn::Text { ink, x, y: y + i * height_of_line(size), size, bold, text: lines[i] },
    )
}

/// Draws a block of text and returns where the next thing below it goes.
pub fn draw_text_block<F: Fn(&str, u32, bool) -> i32>(
    scene: &mut Vec<Stroke>,
    measure: &F,
    bold: bool,
    text: &str,
    ink: Ink,
    x: i32,
    y: i32,
    size: u32,
    max_width: i32,
    max_lines: usize,
) -> (next: i32)
    requires
        steady(*measure),
        max_lines <= i32::MAX,
        fits(y + max_lines * height_of_line(size)),
        fits(y + height_of_line(size)),
        max_lines * height_of_line(size) <= i32::MAX,
    ensures
        ({
            let lines = wrapped(ruler(*measure, size, bold), text@, max_width, max_lines as nat);
            &&& drawn(final(scene)@) == drawn(old(scene)@) + block(
                lines,
                ink,
                x as int,
                y as int,
                size,
                bold,
            )
            &&& next == y + lines.len() * height_of_line(size)
        }),
{
    let height: i32 = line_height(size);
    let lines = wrap_lines(measure, size, bold, text, max_width, max_lines);
    let ghost set = wrapped(ruler(*measure, size, bold), text@, max_width, max_lines as nat);
    proof {
        wrapped_stays_inside(ruler(*measure, size, bold), text@, max_width, max_lines as nat);
        assert(texts(lines@).len() == lines@.len());
        assert(drawn(scene@) + block(set.take(0), ink, x as int, y as int, size, bold)
            =~= drawn(old(scene)@));
    }
    let count: usize = lines.len();
    let ghost most: int = if max_lines == 0 { 1 } else { max_lines as int };
    let mut i: usize = 0;
    proof {
        assert(0 <= height);
        assert(most * height <= i32::MAX && fits(y + most * height)) by {
            assert(1 * height == height);
        }
    }
    while i < count
        invariant
            count == lines@.len(),
            i <= count,
            count <= most <= i32::MAX,
            0 <= height == height_of_line(size),
            most * height <= i32::MAX,
            fits(y + most * height),
            texts(lines@) == set,
            drawn(scene@) == drawn(old(scene)@) + block(
                set.take(i as int),
                ink,
                x as int,
                y as int,
                size,
                bold,
            ),
        decreases count - i,
    {
        proof {
            assert(0 <= i * height <= most * height) by (nonlinear_arith)
                requires
                    0 <= i <= most,
                    0 <= height,
            ;
            assert(i as int * height as int == i * height);
        }
        let ghost before = scene@;
        let stroke = Stroke::Text {
            ink,
            x,
            y: y + i as i32 * height,
            size,
            bold,
            text: lines[i].clone(),
        };
        scene.push(stroke);
        proof {
            assert(lines@[i as int]@ == set[i as int]);
            assert(drawn(scene@) =~= drawn(before).push(stroke@));
            assert(drawn(old(scene)@) + block(
                set.take(i + 1),
                ink,
                x as int,
                y as int,
                size,
                bold,
            ) =~= (drawn(old(scene)@) + block(
                set.take(i as int),
                ink,
                x as int,
                y as int,
                size,
                bold,
            )).push(stroke@));
        }
        i += 1;
    }
    proof {
        assert(set.take(count as int) =~= set);
        assert(0 <= count * height <= most * height) by (nonlinear_arith)
            requires
                0 <= count <= most,
                0 <= height,
        ;
    }
    y + count as i32 * height
}

/// The strokes of the progress bar with its handle and the two times.
pub open spec fn progress_strokes(
    end_width: int,
    progress_ms: u32,
    duration_ms: u32,
    x: int,
    y: int,
    width: int,
) -> Seq<Drawn> {
    let bar: int = if width < 48 {
        48
    } else {
        width
    };
    let bar_y = y - CONTROL_H + 10;
    let filled = filled_part(bar as u32, progress_ms, duration_ms) as int;
    let behind = if filled < 7 {
        0
    } else {
        filled - 7
    };
    let head = if behind < bar - 14 {
        behind
    } else {
        bar - 14
    };
    let track = Drawn::Fill {
        ink: Ink::Track,
        x,
        y: bar_y,
        width: bar,
        height: BAR_H as int,
        percent: 100,
    };
    let played = Drawn::Fill {
        ink: Ink::Accent,
        x,
        y: bar_y,
        width: filled,
        height: BAR_H as int,
        percent: 100,
    };
    let handle = Drawn::Fill {
        ink: Ink::White,
        x: x + head,
        y: bar_y - 8,
        width: 14,
        height: 28,
        percent: 95,
    };
    let start = Drawn::Text {
        ink: Ink::Faint,
        x,
        y: bar_y + BAR_H + 14,
        size: TIME_SIZE,
        bold: false,
        text: clock_text(progress_ms),
    };
    let end = Drawn::Text {
        ink: Ink::Faint,
        x: x + width - end_width,
        y: bar_y + BAR_H + 14,
        size: TIME_SIZE,
        bold: false,
        text: clock_text(duration_ms),
    };
    if filled > 0 {
        seq![track, played, handle, start, end]
    } else {
        seq![track, handle, start, end]
    }
}

proof fn lemma_clock_text_short(ms: u32)
    ensures
        clock_text(ms).len() <= 16,
{
    reveal_with_fuel(crate::text::decimal, 8);
}

/// Draws the progress bar and the times into the strip that ends at `y`.
pub fn draw_progress<F: Fn(&str, u32, bool) -> i32>(
    scene: &mut Vec<Stroke>,
    measure: &F,
    progress_ms: u32,
    duration_ms: u32,
    x: i32,
    y: i32,
    width: i32,
)
    requires
        steady(*measure),
        modest(*measure),
        fits(y - CONTROL_H - 8),
        fits(x + width),
        fits(x + width - 0x100_0000),
        fits(x + 48),
    ensures
        drawn(final(scene)@) == drawn(old(scene)@) + progress_strokes(
            crate::render::wrap::width(*measure, clock_text(duration_ms), TIME_SIZE, false) as int,
            progress_ms,
            duration_ms,
            x as int,
            y as int,
            width as int,
        ),
{
    let start = format_ms(progress_ms);
    let end = format_ms(duration_ms);
    proof {
        lemma_clock_text_short(duration_ms);
    }
    let end_w: i32 = measured(measure, end.as_str(), TIME_SIZE, false);
    let bar_w: u32 = if width < 48 { 48 } else { width as u32 };
    let bar_y: i32 = y - CONTROL_H + 10;
    let ghost before = scene@;
    scene.push(
        Stroke::Fill {
            ink: Ink::Track,
            x,
            y: bar_y,
            width: bar_w,
            height: BAR_H,
            percent: 100,
        },
    );
    let filled: u32 = filled_width(bar_w, progress_ms, duration_ms);
    if filled > 0 {
        scene.push(
            Stroke::Fill {
                ink: Ink::Accent,
                x,
                y: bar_y,
                width: filled,
                height: BAR_H,
                percent: 100,
            },
        );
    }
    let behind: u32 = filled.saturating_sub(7);
    let room: u32 = bar_w.saturating_sub(14);
    let head: u32 = if behind < room { behind } else { room };
    scene.push(
        Stroke::Fill {
            ink: Ink::White,
            x: x + head as i32,
            y: bar_y - 8,
            width: 14,
            height: 28,
            percent: 95,
        },
    );
    let text_y: i32 = bar_y + BAR_H as i32 + 14;
    scene.push(
        Stroke::Text { ink: Ink::Faint, x, y: text_y, size: TIME_SIZE, bold: false, text: start },
    );
    scene.push(
        Stroke::Text {
            ink: Ink::Faint,
            x: x + width - end_w,
            y: text_y,
            size: TIME_SIZE,
            bold: false,
            text: end,
        },
    );
    proof {
        assert(drawn(scene@) =~= drawn(before) + progress_strokes(
            end_w as int,
            progress_ms,
            duration_ms,
            x as int,
            y as int,
            width as int,
        ));
    }
}

/// What is written after the listener's name.
pub const NOW_PLAYING: &'static str = " is now playing";

/// The strokes of the line that says who is listening. Long names are shortened, and at least 48
/// pixels are left to them.
pub open spec fn listener_strokes(
    width_of: spec_fn(Seq<char>) -> i32,
    suffix_width: int,
    username: Seq<char>,
    avatar: bool,
    x: int,
    y: int,
    max_width: int,
) -> Seq<Drawn> {
    let indent: int = if avatar {
        AVATAR_SIZE + 14
    } else {
        0
    };
    let left = max_width - indent - suffix_width;
    let budget = if left < 48 {
        48
    } else {
        left
    };
    let name = ellipsized(width_of, username, budget as i32);
    let picture = if avatar {
        seq![Drawn::Avatar { x, y, radius: (AVATAR_SIZE / 2) as int }]
    } else {
        Seq::empty()
    };
    picture + seq![
        Drawn::Text {
            ink: Ink::White,
            x: x + indent,
            y: y + 2,
            size: NAME_SIZE,
            bold: true,
            text: name,
        },
        Drawn::Text {
            ink: Ink::Muted,
            x: x + indent + width_of(name),
            y: y + 2,
            size: NAME_SIZE,
            bold: false,
            text: NOW_PLAYING@,
        },
    ]
}

/// Draws the line that says who is listening.
pub fn draw_listener_line<F: Fn(&str, u32, bool) -> i32>(
    scene: &mut Vec<Stroke>,
    measure: &F,
    username: &str,
    avatar: bool,
    x: i32,
    y: i32,
    max_width: i32,
)
    requires
        steady(*measure),
        modest(*measure),
        fits(y + 2),
        fits(max_width - 70 - 0x100_0000),
        fits(x + max_width),
        fits(x + 70 + 48),
        fits(x + 70 + 0x100_0000),
    ensures
        drawn(final(scene)@) == drawn(old(scene)@) + listener_strokes(
            ruler(*measure, NAME_SIZE, true),
            width(*measure, NOW_PLAYING@, NAME_SIZE, false) as int,
            username@,
            avatar,
            x as int,
            y as int,
            max_width as int,
        ),
{
    let ghost before = scene@;
    proof {
        reveal_strlit(" is now playing");
        assert(NOW_PLAYING@.len() <= 16);
    }
    let suffix_w: i32 = measured(measure, NOW_PLAYING, NAME_SIZE, false);
    let indent: i32 = if avatar { AVATAR_SIZE as i32 + 14 } else { 0 };
    if avatar {
        scene.push(Stroke::Avatar { x, y, radius: AVATAR_SIZE / 2 });
    }
    let left: i32 = max_width - indent - suffix_w;
    let budget: i32 = if left < 48 { 48 } else { left };
    let name = ellipsize(measure, NAME_SIZE, true, username, budget);
    let name_w: i32 = measured(measure, name.as_str(), NAME_SIZE, true);
    proof {
        ellipsized_fits(ruler(*measure, NAME_SIZE, true), username@, budget);
    }
    let shown = name.clone();
    scene.push(
        Stroke::Text {
            ink: Ink::White,
            x: x + indent,
            y: y + 2,
            size: NAME_SIZE,
            bold: true,
            text: shown,
        },
    );
    scene.push(
        Stroke::Text {
            ink: Ink::Muted,
            x: x + indent + name_w,
            y: y + 2,
            size: NAME_SIZE,
            bold: false,
            text: NOW_PLAYING.to_owned(),
        },
    );
    proof {
        assert(drawn(scene@) =~= drawn(before) + listener_strokes(
            ruler(*measure, NAME_SIZE, true),
            suffix_w as int,
            username@,
            avatar,
            x as int,
            y as int,
            max_width as int,
        ));
    }
}

/// Where the next thing goes below a text of at most `max_lines` lines.
pub open spec fn below<F: Fn(&str, u32, bool) -> i32>(
    measure: F,
    text: Seq<char>,
    y: int,
    size: u32,
    bold: bool,
    max_width: i32,
    max_lines: nat,
) -> int {
    y + wrapped(ruler(measure, size, bold), text, max_width, max_lines).len() * height_of_line(size)
}

/// The strokes of a text of at most `max_lines` lines.
pub open spec fn text_strokes<F: Fn(&str, u32, bool) -> i32>(
    measure: F,
    text: Seq<char>,
    ink: Ink,
    x: int,
    y: int,
    size: u32,
    bold: bool,
    max_width: i32,
    max_lines: nat,
) -> Seq<Drawn> {
    block(wrapped(ruler(measure, size, bold), text, max_width, max_lines), ink, x, y, size, bold)
}

/// The strokes of a card without a track: a label, a title and what to do.
pub open spec fn status_strokes<F: Fn(&str, u32, bool) -> i32>(
    measure: F,
    label: Seq<char>,
    title: Seq<char>,
    body: Seq<char>,
    x: int,
    y: int,
    max_width: i32,
) -> Seq<Drawn> {
    let title_y = below(measure, label, y + 24, 28, true, max_width, 1) + 18;
    let body_y = below(measure, title, title_y, 52, true, max_width, 3) + 14;
    text_strokes(measure, label, Ink::Accent, x, y + 24, 28, true, max_width, 1) + text_strokes(
        measure,
        title,
        Ink::White,
        x,
        title_y,
        52,
        true,
        max_width,
        3,
    ) + text_strokes(measure, body, Ink::Muted, x, body_y, 28, false, max_width, 3)
}

/// The height of at most three lines in an ordinary size.
proof fn lemma_few_lines(lines: nat, size: u32)
    requires
        lines <= 3,
        size <= 100,
    ensures
        0 <= height_of_line(size) <= 120,
        0 <= lines * height_of_line(size) <= 360,
{
    line_height_is_nearest(size);
    let h = height_of_line(size);
    assert(0 <= lines * h <= 360) by (nonlinear_arith)
        requires
            0 <= lines <= 3,
            0 <= h <= 120,
    ;
}

/// Draws a text of at most three lines in an ordinary size.
fn draw_short_block<F: Fn(&str, u32, bool) -> i32>(
    scene: &mut Vec<Stroke>,
    measure: &F,
    bold: bool,
    text: &str,
    ink: Ink,
    x: i32,
    y: i32,
    size: u32,
    max_width: i32,
    max_lines: usize,
) -> (next: i32)
    requires
        steady(*measure),
        1 <= max_lines <= 3,
        size <= 100,
        fits(y + 360),
    ensures
        drawn(final(scene)@) == drawn(old(scene)@) + text_strokes(
            *measure,
            text@,
            ink,
            x as int,
            y as int,
            size,
            bold,
            max_width,
            max_lines as nat,
        ),
        next == below(*measure, text@, y as int, size, bold, max_width, max_lines as nat),
        y <= next <= y + 360,
{
    proof {
        lemma_few_lines(max_lines as nat, size);
        let lines = wrapped(ruler(*measure, size, bold), text@, max_width, max_lines as nat);
        wrapped_stays_inside(ruler(*measure, size, bold), text@, max_width, max_lines as nat);
        lemma_few_lines(lines.len(), size);
    }
    draw_text_block(scene, measure, bold, text, ink, x, y, size, max_width, max_lines)
}

/// Draws a card without a track.
pub fn draw_status_copy<F: Fn(&str, u32, bool) -> i32>(
    scene: &mut Vec<Stroke>,
    measure: &F,
    label: &str,
    title: &str,
    body: &str,
    x: i32,
    y: i32,
    max_w: i32,
)
    requires
        steady(*measure),
        fits(y + 24 + 360 + 18 + 360 + 14 + 360),
    ensures
        drawn(final(scene)@) == drawn(old(scene)@) + status_strokes(
            *measure,
            label@,
            title@,
            body@,
            x as int,
            y as int,
            max_w,
        ),
{
    let ghost before = scene@;
    let label_end: i32 = draw_short_block(
        scene,
        measure,
        true,
        label,
        Ink::Accent,
        x,
        y + 24,
        28,
        max_w,
        1,
    );
    let title_end: i32 = draw_short_block(
        scene,
        measure,
        true,
        title,
        Ink::White,
        x,
        label_end + 18,
        52,
        max_w,
        3,
    );
    draw_short_block(
        scene,
        measure,
        false,
        body,
        Ink::Muted,
        x,
        title_end + 14,
        28,
        max_w,
        3,
    );
    proof {
        assert(drawn(scene@) =~= drawn(before) + status_strokes(
            *measure,
            label@,
            title@,
            body@,
            x as int,
            y as int,
            max_w,
        ));
    }
}

/// Where the strip with the progress bar ends: at the bottom of the cover, or of the card where
/// that is higher up.
pub open spec fn controls_bottom(height: u32) -> int {
    if height - 40 < 488 {
        height - 40
    } else {
        488
    }
}

/// How high the three texts of a card may be.
pub open spec fn text_budget(height: u32) -> int {
    let room = controls_bottom(height) - CONTROL_H - 128;
    if room < 0 {
        0
    } else {
        room
    }
}

/// The strokes of a card with a track whose texts are set as `fit` says.
pub open spec fn playing_strokes<F: Fn(&str, u32, bool) -> i32>(
    measure: F,
    fit: FittedText,
    username: Seq<char>,
    title: Seq<char>,
    artist: Seq<char>,
    album: Seq<char>,
    progress_ms: u32,
    duration_ms: u32,
    is_playing: bool,
    avatar: bool,
    card_width: u32,
    card_height: u32,
) -> Seq<Drawn> {
    let max_width = (card_width - 476) as i32;
    let spare = text_budget(card_height) - fit.tall();
    let title_y: int = 128 + if spare < 0 {
        0
    } else {
        spare / 2
    };
    let artist_y = below(
        measure,
        title,
        title_y,
        fit.title_size,
        true,
        max_width,
        fit.title_lines as nat,
    ) + META_GAP;
    let album_y = below(
        measure,
        artist,
        artist_y,
        fit.artist_size,
        false,
        max_width,
        fit.artist_lines as nat,
    ) + META_GAP;
    seq![Drawn::Watermark { playing: is_playing }] + listener_strokes(
        ruler(measure, NAME_SIZE, true),
        width(measure, NOW_PLAYING@, NAME_SIZE, false) as int,
        username,
        avatar,
        40,
        40,
        card_width - 80,
    ) + text_strokes(
        measure,
        title,
        Ink::White,
        436,
        title_y,
        fit.title_size,
        true,
        max_width,
        fit.title_lines as nat,
    ) + text_strokes(
        measure,
        artist,
        Ink::Muted,
        436,
        artist_y,
        fit.artist_size,
        false,
        max_width,
        fit.artist_lines as nat,
    ) + text_strokes(
        measure,
        album,
        Ink::Faint,
        436,
        album_y,
        fit.album_size,
        false,
        max_width,
        fit.album_lines as nat,
    ) + progress_strokes(
        width(measure, clock_text(duration_ms), TIME_SIZE, false) as int,
        progress_ms,
        duration_ms,
        436,
        controls_bottom(card_height),
        max_width as int,
    )
}

/// The strokes that each card begins with.
pub open spec fn ground() -> Seq<Drawn> {
    seq![Drawn::Wash, Drawn::Cover { x: 40, y: 128, size: 360, radius: 18 }]
}

/// Whether these are the strokes of a card. `avatar` says whether the listener's picture can be
/// drawn.
pub open spec fn shows_card<F: Fn(&str, u32, bool) -> i32>(
    strokes: Seq<Drawn>,
    measure: F,
    card: Card,
    avatar: bool,
    card_width: u32,
    card_height: u32,
) -> bool {
    &&& strokes.len() >= 2
    &&& strokes.take(2) == ground()
    &&& shows(strokes.skip(2), measure, card, avatar, card_width, card_height)
}

/// Whether these are the strokes of a card that are drawn over the background and the cover.
pub open spec fn shows<F: Fn(&str, u32, bool) -> i32>(
    strokes: Seq<Drawn>,
    measure: F,
    card: Card,
    avatar: bool,
    card_width: u32,
    card_height: u32,
) -> bool {
    let max_width = (card_width - 476) as i32;
    match card {
        Card::Playing {
            username,
            title,
            artist,
            album,
            progress_ms,
            duration_ms,
            is_playing,
            album_art: _,
            avatar: _,
            track_url: _,
        } => exists|fit: FittedText| #[trigger]
            chosen(
                fit,
                measure,
                title,
                artist,
                album,
                max_width,
                text_budget(card_height) as i32,
            ) && strokes == playing_strokes(
                measure,
                fit,
                username,
                title,
                artist,
                album,
                progress_ms,
                duration_ms,
                is_playing,
                avatar,
                card_width,
                card_height,
            ),
        Card::Idle => strokes == status_strokes(
            measure,
            "SPOTIFY"@,
            "Nothing playing"@,
            "Start a track in Spotify, then try again."@,
            436,
            128,
            max_width,
        ),
        Card::NotLinked => strokes == status_strokes(
            measure,
            "SPOTIFY"@,
            "Spotify isn't linked"@,
            "Open the bot and send /link to connect."@,
            436,
            128,
            max_width,
        ),
        Card::Error { message } => strokes == status_strokes(
            measure,
            "STATUS"@,
            "Can't load playback"@,
            message,
            436,
            128,
            max_width,
        ),
    }
}

/// The texts of a card with a track end above the strip with the progress bar, where the card is
/// high enough for the smallest setting of the texts, as the standard card is.
pub proof fn texts_above_controls<F: Fn(&str, u32, bool) -> i32>(
    fit: FittedText,
    measure: F,
    title: Seq<char>,
    artist: Seq<char>,
    album: Seq<char>,
    max_width: i32,
    card_height: u32,
)
    requires
        text_budget(card_height) >= 189,
        chosen(fit, measure, title, artist, album, max_width, text_budget(card_height) as i32),
    ensures
        ({
            let title_y = 128 + (text_budget(card_height) - fit.tall()) / 2;
            let title_end = below(
                measure,
                title,
                title_y,
                fit.title_size,
                true,
                max_width,
                fit.title_lines as nat,
            );
            let artist_end = below(
                measure,
                artist,
                title_end + META_GAP,
                fit.artist_size,
                false,
                max_width,
                fit.artist_lines as nat,
            );
            let album_end = below(
                measure,
                album,
                artist_end + META_GAP,
                fit.album_size,
                false,
                max_width,
                fit.album_lines as nat,
            );
            &&& 128 <= title_y
            &&& album_end <= controls_bottom(card_height) - CONTROL_H
        }),
{
    fitted_stays_inside(
        fit,
        measure,
        title,
        artist,
        album,
        max_width,
        text_budget(card_height) as i32,
    );
    lemma_lines_inside(ruler(measure, fit.title_size, true), title, max_width, fit.title_lines, fit.title_size);
    lemma_lines_inside(
        ruler(measure, fit.artist_size, false),
        artist,
        max_width,
        fit.artist_lines,
        fit.artist_size,
    );
    lemma_lines_inside(
        ruler(measure, fit.album_size, false),
        album,
        max_width,
        fit.album_lines,
        fit.album_size,
    );
}

proof fn lemma_lines_inside(
    width_of: spec_fn(Seq<char>) -> i32,
    text: Seq<char>,
    limit: i32,
    max_lines: usize,
    size: u32,
)
    requires
        max_lines >= 1,
    ensures
        wrapped(width_of, text, limit, max_lines as nat).len() * height_of_line(size) <= max_lines
            * height_of_line(size),
{
    wrapped_stays_inside(width_of, text, limit, max_lines as nat);
    let lines = wrapped(width_of, text, limit, max_lines as nat).len();
    let h = height_of_line(size);
    assert(lines * h <= max_lines * h) by (nonlinear_arith)
        requires
            lines <= max_lines,
            h >= 0,
    ;
}

/// The budget of the standard card leaves room for the smallest setting of the texts.
pub proof fn standard_card_has_room()
    ensures
        text_budget(crate::render::CARD_HEIGHT) == 284,
{
}

/// The handle of the progress bar stays on the bar.
pub proof fn handle_on_bar(
    end_width: int,
    progress_ms: u32,
    duration_ms: u32,
    x: int,
    y: int,
    width: i32,
)
    ensures
        ({
            let strokes = progress_strokes(
                end_width,
                progress_ms,
                duration_ms,
                x,
                y,
                width as int,
            );
            let handle = strokes[strokes.len() - 3];
            let bar: int = if width < 48 {
                48
            } else {
                width as int
            };
            x <= handle->Fill_x && handle->Fill_x + handle->Fill_width <= x + bar
        }),
{
}

/// The strokes of a card that are drawn over the background and the cover.
fn draw_content<F: Fn(&str, u32, bool) -> i32>(
    measure: &F,
    kind: &CardKind,
    avatar: bool,
    options: &RenderOptions,
) -> (res: Vec<Stroke>)
    requires
        steady(*measure),
        modest(*measure),
        options.width <= i32::MAX,
        options.height <= i32::MAX,
    ensures
        shows(drawn(res@), *measure, kind@, avatar, options.width, options.height),
{
    let layout = Layout::default();
    let art_size: u32 = layout.art(options.height);
    let x: i32 = layout.text_x(options.height);
    let max_w: i32 = layout.text_width(options.width, options.height);
    let (_art_x, art_top): (i32, i32) = layout.art_origin(options.height);
    let art_bottom: i32 = art_top + art_size as i32;
    let content_bottom: i32 = layout.content_bottom(options.height);
    let controls_y: i32 = if content_bottom < art_bottom { content_bottom } else { art_bottom };
    let controls_top: i32 = controls_y - CONTROL_H;

    let mut scene: Vec<Stroke> = Vec::new();
    proof {
        assert(drawn(scene@) =~= Seq::<Drawn>::empty());
        assert forall|strokes: Seq<Drawn>| #[trigger] (Seq::<Drawn>::empty() + strokes)
            == strokes by {
            assert(Seq::<Drawn>::empty() + strokes =~= strokes);
        }
    }
    match kind {
        CardKind::Playing {
            username,
            title,
            artist,
            album,
            progress_ms,
            duration_ms,
            is_playing,
            ..
        } => {
            scene.push(Stroke::Watermark { playing: *is_playing });
            proof {
                assert(drawn(scene@) =~= seq![Drawn::Watermark { playing: *is_playing }]);
            }
            draw_listener_line(
                &mut scene,
                measure,
                username.as_str(),
                avatar,
                layout.pad_x,
                layout.pad_top,
                options.width as i32 - layout.pad_x * 2,
            );
            let room: i32 = controls_top - art_top;
            let budget: i32 = if room < 0 { 0 } else { room };
            let fit = fit_playing_stack(
                measure,
                title.as_str(),
                artist.as_str(),
                album.as_str(),
                max_w,
                budget,
            );
            proof {
                lemma_few_lines(fit.title_lines as nat, fit.title_size);
                lemma_few_lines(fit.artist_lines as nat, fit.artist_size);
                lemma_few_lines(fit.album_lines as nat, fit.album_size);
            }
            let spare: i32 = budget - fit.height();
            let title_y: i32 = art_top + (if spare < 0 { 0 } else { spare / 2 });
            let title_end: i32 = draw_short_block(
                &mut scene,
                measure,
                true,
                title.as_str(),
                Ink::White,
                x,
                title_y,
                fit.title_size,
                max_w,
                fit.title_lines,
            );
            let artist_end: i32 = draw_short_block(
                &mut scene,
                measure,
                false,
                artist.as_str(),
                Ink::Muted,
                x,
                title_end + META_GAP,
                fit.artist_size,
                max_w,
                fit.artist_lines,
            );
            draw_short_block(
                &mut scene,
                measure,
                false,
                album.as_str(),
                Ink::Faint,
                x,
                artist_end + META_GAP,
                fit.album_size,
                max_w,
                fit.album_lines,
            );
            draw_progress(&mut scene, measure, *progress_ms, *duration_ms, x, controls_y, max_w);
            proof {
                assert(chosen(
                    fit,
                    *measure,
                    title@,
                    artist@,
                    album@,
                    max_w,
                    text_budget(options.height) as i32,
                ));
                assert(drawn(scene@) == playing_strokes(
                    *measure,
                    fit,
                    username@,
                    title@,
                    artist@,
                    album@,
                    *progress_ms,
                    *duration_ms,
                    *is_playing,
                    avatar,
                    options.width,
                    options.height,
                ));
                assert(kind@->username == username@);
                assert(kind@->title == title@);
                assert(kind@->artist == artist@);
                assert(kind@->album == album@);
            }
        },
        CardKind::Idle => {
            draw_status_copy(
                &mut scene,
                measure,
                "SPOTIFY",
                "Nothing playing",
                "Start a track in Spotify, then try again.",
                x,
                art_top,
                max_w,
            );
        },
        CardKind::NotLinked => {
            draw_status_copy(
                &mut scene,
                measure,
                "SPOTIFY",
                "Spotify isn't linked",
                "Open the bot and send /link to connect.",
                x,
                art_top,
                max_w,
            );
        },
        CardKind::Error { message } => {
            draw_status_copy(
                &mut scene,
                measure,
                "STATUS",
                "Can't load playback",
                message.as_str(),
                x,
                art_top,
                max_w,
            );
        },
    }
    scene
}

/// The strokes of a card, in the order in which they are drawn. `avatar` says whether the
/// listener's picture can be drawn.
pub fn draw_card<F: Fn(&str, u32, bool) -> i32>(
    measure: &F,
    kind: &CardKind,
    avatar: bool,
    options: &RenderOptions,
) -> (res: Vec<Stroke>)
    requires
        steady(*measure),
        modest(*measure),
        options.width <= i32::MAX,
        options.height <= i32::MAX,
    ensures
        shows_card(drawn(res@), *measure, kind@, avatar, options.width, options.height),
{
    let layout = Layout::default();
    let (x, y): (i32, i32) = layout.art_origin(options.height);
    let size: u32 = layout.art(options.height);
    let mut content = draw_content(measure, kind, avatar, options);
    let ghost over = content@;
    let mut strokes: Vec<Stroke> = Vec::new();
    strokes.push(Stroke::Wash);
    strokes.push(Stroke::Cover { x, y, size, radius: layout.radius });
    strokes.append(&mut content);
    proof {
        assert(drawn(strokes@).take(2) =~= ground());
        assert(drawn(strokes@).skip(2) =~= drawn(over));
    }
    strokes
}

/// A card, ready to be painted: its size, its pictures, as far as they could be read, and its
/// strokes.
#[derive(Debug)]
pub struct Scene {
    pub width: u32,
    pub height: u32,
    pub cover: Option<Bitmap>,
    pub avatar: Option<Bitmap>,
    pub strokes: Vec<Stroke>,
}

/// Whether a picture is what the bytes show, in the given size. There is one exactly if there are
/// bytes that can be read as one.
pub open spec fn pictured(image: Option<Bitmap>, bytes: Option<Seq<u8>>, side: u32) -> bool {
    &&& image is Some <==> bytes is Some && image_decodes(bytes->0)
    &&& image matches Some(image) ==> {
        &&& decoded_as(bytes->0, side, image)
        &&& image.sound()
        &&& 1 <= image.width <= side
        &&& 1 <= image.height <= side
    }
}

/// The bytes of a card's cover.
pub open spec fn cover_bytes(card: Card) -> Option<Seq<u8>> {
    match card {
        Card::Playing { album_art, .. } => album_art,
        _ => None,
    }
}

/// The bytes of the listener's picture.
pub open spec fn avatar_bytes(card: Card) -> Option<Seq<u8>> {
    match card {
        Card::Playing { avatar, .. } => avatar,
        _ => None,
    }
}

/// Whether a scene is that of a card. The listener's picture is drawn if it could be read.
pub open spec fn stages<F: Fn(&str, u32, bool) -> i32>(
    scene: Scene,
    measure: F,
    card: Card,
    card_width: u32,
    card_height: u32,
) -> bool {
    &&& scene.width == card_width
    &&& scene.height == card_height
    &&& pictured(scene.cover, cover_bytes(card), 360)
    &&& pictured(scene.avatar, avatar_bytes(card), AVATAR_SIZE)
    &&& shows_card(
        drawn(scene.strokes@),
        measure,
        card,
        scene.avatar is Some,
        card_width,
        card_height,
    )
}

/// The scene of a card of the standard size.
pub fn render_card<F: Fn(&str, u32, bool) -> i32>(measure: &F, kind: &CardKind) -> (res: Scene)
    requires
        steady(*measure),
        modest(*measure),
    ensures
        stages(res, *measure, kind@, crate::render::CARD_WIDTH, crate::render::CARD_HEIGHT),
{
    let options = RenderOptions::default();
    render_card_with(measure, kind, &options)
}

/// The scene of a card.
pub fn render_card_with<F: Fn(&str, u32, bool) -> i32>(
    measure: &F,
    kind: &CardKind,
    options: &RenderOptions,
) -> (res: Scene)
    requires
        steady(*measure),
        modest(*measure),
        options.width <= i32::MAX,
        options.height <= i32::MAX,
    ensures
        stages(res, *measure, kind@, options.width, options.height),
{
    let layout = Layout::default();
    let art_size: u32 = layout.art(options.height);
    let cover = decode_art(kind.album_bytes(), art_size);
    let avatar = match kind {
        CardKind::Playing { avatar, .. } => decode_art(avatar.as_ref(), AVATAR_SIZE),
        _ => None,
    };
    let strokes = draw_card(measure, kind, avatar.is_some(), options);
    Scene { width: options.width, height: options.height, cover, avatar, strokes }
}

} // verus!
