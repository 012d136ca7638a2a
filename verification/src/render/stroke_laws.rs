//! What holds of the places of texts and bars on a card.
use vstd::prelude::*;

use crate::render::card::{clock_text, Card};
use crate::render::fit::{chosen, fitted_stays_inside};
use crate::render::layout::{
    filled_inside_bar, filled_part, height_of_line, FittedText,
};
use crate::render::scene::{
    below, block, controls_bottom, listener_strokes, playing_strokes, progress_strokes, shows_card,
    status_strokes, text_budget, text_strokes, Drawn, Ink, NOW_PLAYING,
};
use crate::render::wrap::{ellipsis, ruler, width, wrapped};
use crate::render::wrap_laws::{ellipsized_fits, wrapped_stays_inside};

verus! {

/// Where a stroke of text begins, from the top.
pub open spec fn top(stroke: Drawn) -> int {
    stroke->Text_y
}

/// Where a stroke of text ends, from the top.
pub open spec fn bottom(stroke: Drawn) -> int {
    stroke->Text_y + height_of_line(stroke->Text_size)
}

proof fn lemma_height_of_line(size: u32)
    ensures
        height_of_line(size) >= 0,
{
}

/// The lines of a block are all drawn, in their order and as they are, and stand one below the
/// other: the first at the top of the block, each next one where the one before it ends.
pub proof fn lines_stand_below_each_other(
    lines: Seq<Seq<char>>,
    ink: Ink,
    x: int,
    y: int,
    size: u32,
    bold: bool,
    i: int,
    j: int,
)
    requires
        0 <= i < j < lines.len(),
    ensures
        ({
            let strokes = block(lines, ink, x, y, size, bold);
            &&& strokes.len() == lines.len()
            &&& strokes[i] is Text && strokes[j] is Text
            &&& strokes[i]->Text_text == lines[i] && strokes[j]->Text_text == lines[j]
            &&& strokes[i]->Text_size == size && strokes[j]->Text_size == size
            &&& top(strokes[0]) == y
            &&& bottom(strokes[i]) <= top(strokes[j])
            &&& j == i + 1 ==> bottom(strokes[i]) == top(strokes[j])
        }),
{
    let h = height_of_line(size);
    lemma_height_of_line(size);
    assert(i * h + h <= j * h) by (nonlinear_arith)
        requires
            i + 1 <= j,
            h >= 0,
    ;
    if j == i + 1 {
        assert(i * h + h == j * h) by (nonlinear_arith)
            requires
                j == i + 1,
        ;
    }
    assert(0 * h == 0) by (nonlinear_arith);
}

/// A text begins where it is put, and what comes below it goes where its last line ends.
pub proof fn text_ends_with_its_last_line<F: Fn(&str, u32, bool) -> i32>(
    measure: F,
    text: Seq<char>,
    ink: Ink,
    x: int,
    y: int,
    size: u32,
    bold: bool,
    max_width: i32,
    max_lines: nat,
)
    ensures
        ({
            let strokes = text_strokes(measure, text, ink, x, y, size, bold, max_width, max_lines);
            let lines = wrapped(ruler(measure, size, bold), text, max_width, max_lines);
            &&& strokes.len() == lines.len()
            &&& strokes.len() > 0
            &&& top(strokes[0]) == y
            &&& bottom(strokes.last()) == below(
                measure,
                text,
                y,
                size,
                bold,
                max_width,
                max_lines,
            )
            &&& forall|i: int|
                0 <= i < strokes.len() ==> {
                    &&& #[trigger] strokes[i] is Text
                    &&& strokes[i]->Text_text == lines[i]
                    &&& strokes[i]->Text_ink == ink
                    &&& strokes[i]->Text_x == x
                    &&& strokes[i]->Text_size == size
                    &&& strokes[i]->Text_bold == bold
                    &&& y <= top(strokes[i])
                    &&& bottom(strokes[i]) <= below(
                        measure,
                        text,
                        y,
                        size,
                        bold,
                        max_width,
                        max_lines,
                    )
                }
            &&& forall|i: int, j: int|
                0 <= i < j < strokes.len() ==> bottom(#[trigger] strokes[i]) <= top(
                    #[trigger] strokes[j],
                )
        }),
{
    let lines = wrapped(ruler(measure, size, bold), text, max_width, max_lines);
    let strokes = text_strokes(measure, text, ink, x, y, size, bold, max_width, max_lines);
    wrapped_stays_inside(ruler(measure, size, bold), text, max_width, max_lines);
    let h = height_of_line(size);
    lemma_height_of_line(size);
    let n = lines.len() as int;
    assert(0 * h == 0) by (nonlinear_arith);
    assert((n - 1) * h + h == n * h) by (nonlinear_arith);
    assert forall|i: int| 0 <= i < strokes.len() implies {
        &&& #[trigger] strokes[i] is Text
        &&& strokes[i]->Text_text == lines[i]
        &&& strokes[i]->Text_ink == ink
        &&& strokes[i]->Text_x == x
        &&& strokes[i]->Text_size == size
        &&& strokes[i]->Text_bold == bold
        &&& y <= top(strokes[i])
        &&& bottom(strokes[i]) <= below(measure, text, y, size, bold, max_width, max_lines)
    } by {
        assert(0 <= i * h && i * h + h <= n * h) by (nonlinear_arith)
            requires
                0 <= i,
                i + 1 <= n,
                h >= 0,
        ;
    }
    assert forall|i: int, j: int| 0 <= i < j < strokes.len() implies bottom(
        #[trigger] strokes[i],
    ) <= top(#[trigger] strokes[j]) by {
        lines_stand_below_each_other(lines, ink, x, y, size, bold, i, j);
    }
}

/// The strokes of a card with a track: the sign that says whether it is playing, who is listening,
/// then the lines of the title, the artist and the album below each other without touching, ten
/// pixels between two texts and none between two lines of one, and the strip with the bar last.
/// The texts are set as they are wrapped, in the sizes that were chosen.
pub proof fn playing_card_can_be_read<F: Fn(&str, u32, bool) -> i32>(
    measure: F,
    fit: FittedText,
    username: Seq<char>,
    title: Seq<char>,
    artist: Seq<char>,
    album: Seq<char>,
    progress_ms: u32,
    duration_ms: u32,
    is_playing: bool,
    avatar: bool,
    card_width: u32,
    card_height: u32,
)
    ensures
        ({
            let max_width = (card_width - 476) as i32;
            let all = playing_strokes(
                measure,
                fit,
                username,
                title,
                artist,
                album,
                progress_ms,
                duration_ms,
                is_playing,
                avatar,
                card_width,
                card_height,
            );
            let titles = wrapped(
                ruler(measure, fit.title_size, true),
                title,
                max_width,
                fit.title_lines as nat,
            );
            let artists = wrapped(
                ruler(measure, fit.artist_size, false),
                artist,
                max_width,
                fit.artist_lines as nat,
            );
            let albums = wrapped(
                ruler(measure, fit.album_size, false),
                album,
                max_width,
                fit.album_lines as nat,
            );
            let first: int = if avatar {
                4
            } else {
                3
            };
            let second = first + titles.len();
            let third = second + artists.len();
            let end = third + albums.len();
            &&& end + 4 <= all.len() <= end + 5
            &&& all[0] == Drawn::Watermark { playing: is_playing }
            &&& forall|i: int|
                first <= i < end ==> (#[trigger] all[i]) is Text && all[i]->Text_x == 436
            &&& forall|i: int|
                first <= i < second ==> {
                    &&& (#[trigger] all[i])->Text_text == titles[i - first]
                    &&& all[i]->Text_size == fit.title_size
                    &&& all[i]->Text_bold
                    &&& all[i]->Text_ink == Ink::White
                }
            &&& forall|i: int|
                second <= i < third ==> {
                    &&& (#[trigger] all[i])->Text_text == artists[i - second]
                    &&& all[i]->Text_size == fit.artist_size
                    &&& !all[i]->Text_bold
                    &&& all[i]->Text_ink == Ink::Muted
                }
            &&& forall|i: int|
                third <= i < end ==> {
                    &&& (#[trigger] all[i])->Text_text == albums[i - third]
                    &&& all[i]->Text_size == fit.album_size
                    &&& !all[i]->Text_bold
                    &&& all[i]->Text_ink == Ink::Faint
                }
            &&& forall|i: int, j: int|
                first <= i < j < end ==> bottom(#[trigger] all[i]) <= top(#[trigger] all[j])
            &&& top(all[second]) == bottom(all[second - 1]) + 10
            &&& top(all[third]) == bottom(all[third - 1]) + 10
            &&& bottom(all[end - 1]) - top(all[first]) == titles.len() * height_of_line(
                fit.title_size,
            ) + 10 + artists.len() * height_of_line(fit.artist_size) + 10 + albums.len()
                * height_of_line(fit.album_size)
        }),
{
    let max_width = (card_width - 476) as i32;
    let all = playing_strokes(
        measure,
        fit,
        username,
        title,
        artist,
        album,
        progress_ms,
        duration_ms,
        is_playing,
        avatar,
        card_width,
        card_height,
    );
    let spare = text_budget(card_height) - fit.tall();
    let title_y: int = 128 + if spare < 0 {
        0
    } else {
        spare / 2
    };
    let title_end = below(
        measure,
        title,
        title_y,
        fit.title_size,
        true,
        max_width,
        fit.title_lines as nat,
    );
    let artist_end = below(
        measure,
        artist,
        title_end + 10,
        fit.artist_size,
        false,
        max_width,
        fit.artist_lines as nat,
    );
    text_ends_with_its_last_line(
        measure,
        title,
        Ink::White,
        436,
        title_y,
        fit.title_size,
        true,
        max_width,
        fit.title_lines as nat,
    );
    text_ends_with_its_last_line(
        measure,
        artist,
        Ink::Muted,
        436,
        title_end + 10,
        fit.artist_size,
        false,
        max_width,
        fit.artist_lines as nat,
    );
    text_ends_with_its_last_line(
        measure,
        album,
        Ink::Faint,
        436,
        artist_end + 10,
        fit.album_size,
        false,
        max_width,
        fit.album_lines as nat,
    );
    let one = text_strokes(
        measure,
        title,
        Ink::White,
        436,
        title_y,
        fit.title_size,
        true,
        max_width,
        fit.title_lines as nat,
    );
    let two = text_strokes(
        measure,
        artist,
        Ink::Muted,
        436,
        title_end + 10,
        fit.artist_size,
        false,
        max_width,
        fit.artist_lines as nat,
    );
    let three = text_strokes(
        measure,
        album,
        Ink::Faint,
        436,
        artist_end + 10,
        fit.album_size,
        false,
        max_width,
        fit.album_lines as nat,
    );
    let first: int = if avatar {
        4
    } else {
        3
    };
    let second = first + one.len();
    let third = second + two.len();
    let end = third + three.len();
    assert forall|i: int| first <= i < second implies #[trigger] all[i] == one[i - first] by {}
    assert forall|i: int| second <= i < third implies #[trigger] all[i] == two[i - second] by {}
    assert forall|i: int| third <= i < end implies #[trigger] all[i] == three[i - third] by {}
}

/// The texts of a card stand in the middle of the room above the strip with the bar, as far as they
/// were given as much room as they take: what is left above and below differs by a pixel at most.
/// They do not reach into the strip.
pub proof fn texts_stand_in_the_middle<F: Fn(&str, u32, bool) -> i32>(
    measure: F,
    fit: FittedText,
    username: Seq<char>,
    title: Seq<char>,
    artist: Seq<char>,
    album: Seq<char>,
    progress_ms: u32,
    duration_ms: u32,
    is_playing: bool,
    avatar: bool,
    card_width: u32,
    card_height: u32,
)
    requires
        card_height >= 441,
        chosen(
            fit,
            measure,
            title,
            artist,
            album,
            (card_width - 476) as i32,
            text_budget(card_height) as i32,
        ),
    ensures
        ({
            let all = playing_strokes(
                measure,
                fit,
                username,
                title,
                artist,
                album,
                progress_ms,
                duration_ms,
                is_playing,
                avatar,
                card_width,
                card_height,
            );
            let first: int = if avatar {
                4
            } else {
                3
            };
            let strip: int = (if card_height < 528 {
                card_height - 40
            } else {
                488
            }) - 76;
            let taken = fit.title_lines * height_of_line(fit.title_size) + 10 + fit.artist_lines
                * height_of_line(fit.artist_size) + 10 + fit.album_lines * height_of_line(
                fit.album_size,
            );
            let above = top(all[first]) - 128;
            &&& 0 <= above
            &&& 0 <= strip - (128 + above + taken) - above <= 1
        }),
{
    let max_width = (card_width - 476) as i32;
    fitted_stays_inside(
        fit,
        measure,
        title,
        artist,
        album,
        max_width,
        text_budget(card_height) as i32,
    );
    playing_card_can_be_read(
        measure,
        fit,
        username,
        title,
        artist,
        album,
        progress_ms,
        duration_ms,
        is_playing,
        avatar,
        card_width,
        card_height,
    );
    let spare = text_budget(card_height) - fit.tall();
    text_ends_with_its_last_line(
        measure,
        title,
        Ink::White,
        436,
        128 + spare / 2,
        fit.title_size,
        true,
        max_width,
        fit.title_lines as nat,
    );
    let all = playing_strokes(
        measure,
        fit,
        username,
        title,
        artist,
        album,
        progress_ms,
        duration_ms,
        is_playing,
        avatar,
        card_width,
        card_height,
    );
    let one = text_strokes(
        measure,
        title,
        Ink::White,
        436,
        128 + spare / 2,
        fit.title_size,
        true,
        max_width,
        fit.title_lines as nat,
    );
    let first: int = if avatar {
        4
    } else {
        3
    };
    assert(all[first] == one[0]);
}

/// Who is listening: their picture at the left if there is one, then their name, as it is if there
/// is room for it and else cut, and right behind it what they do. Name and rest end inside the
/// line, where the rest leaves room for at least 48 pixels and the name is not the bare ellipsis.
pub proof fn listener_line_reads(
    width_of: spec_fn(Seq<char>) -> i32,
    suffix_width: int,
    username: Seq<char>,
    avatar: bool,
    x: int,
    y: int,
    max_width: i32,
)
    requires
        0 <= suffix_width <= 0x100_0000,
        max_width >= i32::MIN + 0x200_0000,
    ensures
        ({
            let strokes = listener_strokes(
                width_of,
                suffix_width,
                username,
                avatar,
                x,
                y,
                max_width as int,
            );
            let taken: int = if avatar {
                70
            } else {
                0
            };
            let room = max_width - taken - suffix_width;
            let name = strokes[strokes.len() - 2];
            let rest = strokes[strokes.len() - 1];
            &&& strokes.len() == if avatar {
                3int
            } else {
                2
            }
            &&& avatar ==> strokes[0] == Drawn::Avatar { x, y, radius: 28 }
            &&& name is Text && rest is Text
            &&& name->Text_x == x + taken
            &&& name->Text_bold && !rest->Text_bold
            &&& name->Text_size == 52 && rest->Text_size == 52
            &&& name->Text_ink == Ink::White && rest->Text_ink == Ink::Muted
            &&& name->Text_y == y + 2 && rest->Text_y == y + 2
            &&& rest->Text_x == name->Text_x + width_of(name->Text_text)
            &&& rest->Text_text == NOW_PLAYING@
            &&& width_of(username) <= room || width_of(username) <= 48 ==> name->Text_text
                == username
            &&& width_of(username) > room && width_of(username) > 48 ==> width_of(
                name->Text_text,
            ) <= room || width_of(name->Text_text) <= 48 || name->Text_text == ellipsis()
            &&& room >= 48 ==> rest->Text_x + suffix_width <= x + max_width || name->Text_text
                == ellipsis()
        }),
{
    let taken: int = if avatar {
        70
    } else {
        0
    };
    let room = max_width - taken - suffix_width;
    let budget: i32 = (if room < 48 {
        48
    } else {
        room
    }) as i32;
    ellipsized_fits(width_of, username, budget);
}

/// The bar: the whole of it below, as wide as the line but at least 48 pixels; what was played
/// above it, from the left, unless that is nothing; and a handle that stands over the place where
/// the one ends, its middle right there where it does not have to stay on the bar.
pub proof fn bar_shows_progress(
    end_width: int,
    progress_ms: u32,
    duration_ms: u32,
    x: int,
    y: int,
    width: i32,
)
    requires
        width < 0x80_0000,
    ensures
        ({
            let strokes = progress_strokes(
                end_width,
                progress_ms,
                duration_ms,
                x,
                y,
                width as int,
            );
            let n = strokes.len() as int;
            let bar: int = if width < 48 {
                48
            } else {
                width as int
            };
            let played = filled_part(bar as u32, progress_ms, duration_ms) as int;
            let handle = strokes[n - 3];
            &&& n == if played > 0 {
                5int
            } else {
                4
            }
            &&& strokes[0] == Drawn::Fill {
                ink: Ink::Track,
                x,
                y: y - 66,
                width: bar,
                height: 12,
                percent: 100,
            }
            &&& played > 0 ==> strokes[1] == Drawn::Fill {
                ink: Ink::Accent,
                x,
                y: y - 66,
                width: played,
                height: 12,
                percent: 100,
            }
            &&& handle is Fill && handle->Fill_ink == Ink::White
            &&& handle->Fill_width == 14 && handle->Fill_height == 28 && handle->Fill_percent == 95
            &&& handle->Fill_y + 14 == strokes[0]->Fill_y + 6
            &&& x <= handle->Fill_x <= x + played <= handle->Fill_x + 14 <= x + bar
            &&& 7 <= played <= bar - 7 ==> handle->Fill_x + 7 == x + played
        }),
{
    let bar: int = if width < 48 {
        48
    } else {
        width as int
    };
    filled_inside_bar(bar as u32, progress_ms, duration_ms);
}

/// The times stand below the bar, on one line: how far the track has been played at the left end,
/// and how long it is so that it ends at the right end.
pub proof fn times_stand_below_the_bar(
    end_width: int,
    progress_ms: u32,
    duration_ms: u32,
    x: int,
    y: int,
    width: int,
)
    ensures
        ({
            let strokes = progress_strokes(end_width, progress_ms, duration_ms, x, y, width);
            let n = strokes.len() as int;
            let start = strokes[n - 2];
            let end = strokes[n - 1];
            &&& start is Text && end is Text
            &&& start->Text_text == clock_text(progress_ms)
            &&& end->Text_text == clock_text(duration_ms)
            &&& start->Text_x == x
            &&& end->Text_x + end_width == x + width
            &&& start->Text_y == end->Text_y
            &&& strokes[0]->Fill_y + strokes[0]->Fill_height + 14 == start->Text_y
            &&& start->Text_size == 34 && end->Text_size == 34
            &&& !start->Text_bold && !end->Text_bold
            &&& start->Text_ink == Ink::Faint && end->Text_ink == Ink::Faint
        }),
{
}

/// A card without a track: label, title and advice below each other, none over another.
pub proof fn status_card_can_be_read<F: Fn(&str, u32, bool) -> i32>(
    measure: F,
    label: Seq<char>,
    title: Seq<char>,
    body: Seq<char>,
    x: int,
    y: int,
    max_width: i32,
)
    ensures
        ({
            let all = status_strokes(measure, label, title, body, x, y, max_width);
            let labels = wrapped(ruler(measure, 28, true), label, max_width, 1);
            let titles = wrapped(ruler(measure, 52, true), title, max_width, 3);
            let bodies = wrapped(ruler(measure, 28, false), body, max_width, 3);
            let second = labels.len() as int;
            let third = second + titles.len();
            let end = third + bodies.len();
            &&& all.len() == end
            &&& labels.len() == 1
            &&& forall|i: int| 0 <= i < end ==> (#[trigger] all[i]) is Text && all[i]->Text_x == x
            &&& all[0]->Text_text == labels[0] && all[0]->Text_ink == Ink::Accent
            &&& forall|i: int|
                second <= i < third ==> (#[trigger] all[i])->Text_text == titles[i - second]
                    && all[i]->Text_size == 52 && all[i]->Text_bold && all[i]->Text_ink
                    == Ink::White
            &&& forall|i: int|
                third <= i < end ==> (#[trigger] all[i])->Text_text == bodies[i - third]
                    && all[i]->Text_size == 28 && !all[i]->Text_bold && all[i]->Text_ink
                    == Ink::Muted
            &&& forall|i: int, j: int|
                0 <= i < j < end ==> bottom(#[trigger] all[i]) <= top(#[trigger] all[j])
            &&& top(all[0]) == y + 24
            &&& top(all[second]) == bottom(all[second - 1]) + 18
            &&& top(all[third]) == bottom(all[third - 1]) + 14
        }),
{
    let all = status_strokes(measure, label, title, body, x, y, max_width);
    wrapped_stays_inside(ruler(measure, 28, true), label, max_width, 1);
    let title_y = below(measure, label, y + 24, 28, true, max_width, 1) + 18;
    let body_y = below(measure, title, title_y, 52, true, max_width, 3) + 14;
    text_ends_with_its_last_line(measure, label, Ink::Accent, x, y + 24, 28, true, max_width, 1);
    text_ends_with_its_last_line(measure, title, Ink::White, x, title_y, 52, true, max_width, 3);
    text_ends_with_its_last_line(measure, body, Ink::Muted, x, body_y, 28, false, max_width, 3);
    let one = text_strokes(measure, label, Ink::Accent, x, y + 24, 28, true, max_width, 1);
    let two = text_strokes(measure, title, Ink::White, x, title_y, 52, true, max_width, 3);
    let three = text_strokes(measure, body, Ink::Muted, x, body_y, 28, false, max_width, 3);
    let second = one.len() as int;
    let third = second + two.len();
    let end = third + three.len();
    assert forall|i: int| 0 <= i < second implies #[trigger] all[i] == one[i] by {}
    assert forall|i: int| second <= i < third implies #[trigger] all[i] == two[i - second] by {}
    assert forall|i: int| third <= i < end implies #[trigger] all[i] == three[i - third] by {}
}

/// On a card with a track stand the listener's name, behind the sign and the picture, and at the end
/// how far the track has been played and how long it is.
pub proof fn playing_card_names_listener_and_times<F: Fn(&str, u32, bool) -> i32>(
    measure: F,
    fit: FittedText,
    username: Seq<char>,
    title: Seq<char>,
    artist: Seq<char>,
    album: Seq<char>,
    progress_ms: u32,
    duration_ms: u32,
    is_playing: bool,
    avatar: bool,
    card_width: u32,
    card_height: u32,
)
    ensures
        ({
            let all = playing_strokes(
                measure,
                fit,
                username,
                title,
                artist,
                album,
                progress_ms,
                duration_ms,
                is_playing,
                avatar,
                card_width,
                card_height,
            );
            let line = listener_strokes(
                ruler(measure, 52, true),
                width(measure, NOW_PLAYING@, 52, false) as int,
                username,
                avatar,
                40,
                40,
                card_width - 80,
            );
            let bar = progress_strokes(
                width(measure, clock_text(duration_ms), 34, false) as int,
                progress_ms,
                duration_ms,
                436,
                controls_bottom(card_height),
                (card_width - 476) as i32 as int,
            );
            &&& all[0] == Drawn::Watermark { playing: is_playing }
            &&& all.len() >= 1 + line.len() + bar.len()
            &&& all.subrange(1, 1 + line.len() as int) == line
            &&& all.skip(all.len() - bar.len()) == bar
        }),
{
    let all = playing_strokes(
        measure,
        fit,
        username,
        title,
        artist,
        album,
        progress_ms,
        duration_ms,
        is_playing,
        avatar,
        card_width,
        card_height,
    );
    let line = listener_strokes(
        ruler(measure, 52, true),
        width(measure, NOW_PLAYING@, 52, false) as int,
        username,
        avatar,
        40,
        40,
        card_width - 80,
    );
    let bar = progress_strokes(
        width(measure, clock_text(duration_ms), 34, false) as int,
        progress_ms,
        duration_ms,
        436,
        controls_bottom(card_height),
        (card_width - 476) as i32 as int,
    );
    assert(all.subrange(1, 1 + line.len() as int) =~= line);
    assert(all.skip(all.len() - bar.len()) =~= bar);
}

/// What a card with a track shows is what is known of the track, each in its place: the strokes are
/// those that `playing_card_can_be_read` and `playing_card_names_listener_and_times` describe, for
/// its own texts and times, in the best setting for them.
pub proof fn card_shows_its_track<F: Fn(&str, u32, bool) -> i32>(
    strokes: Seq<Drawn>,
    measure: F,
    card: Card,
    avatar: bool,
    card_width: u32,
    card_height: u32,
)
    requires
        shows_card(strokes, measure, card, avatar, card_width, card_height),
        card is Playing,
    ensures
        strokes[0] is Wash && strokes[1] is Cover,
        strokes[2] == (Drawn::Watermark { playing: card->is_playing }),
        exists|fit: FittedText|
            {
                &&& #[trigger] chosen(
                    fit,
                    measure,
                    card->title,
                    card->artist,
                    card->album,
                    (card_width - 476) as i32,
                    text_budget(card_height) as i32,
                )
                &&& strokes.skip(2) == playing_strokes(
                    measure,
                    fit,
                    card->username,
                    card->title,
                    card->artist,
                    card->album,
                    card->progress_ms,
                    card->duration_ms,
                    card->is_playing,
                    avatar,
                    card_width,
                    card_height,
                )
            },
{
    assert(strokes.take(2)[0] == strokes[0] && strokes.take(2)[1] == strokes[1]);
    let fit = choose|fit: FittedText| #[trigger]
        chosen(
            fit,
            measure,
            card->title,
            card->artist,
            card->album,
            (card_width - 476) as i32,
            text_budget(card_height) as i32,
        ) && strokes.skip(2) == playing_strokes(
            measure,
            fit,
            card->username,
            card->title,
            card->artist,
            card->album,
            card->progress_ms,
            card->duration_ms,
            card->is_playing,
            avatar,
            card_width,
            card_height,
        );
    playing_card_names_listener_and_times(
        measure,
        fit,
        card->username,
        card->title,
        card->artist,
        card->album,
        card->progress_ms,
        card->duration_ms,
        card->is_playing,
        avatar,
        card_width,
        card_height,
    );
    assert(strokes.skip(2)[0] == strokes[2]);
}

/// What a card without a track says.
pub proof fn card_says_why_there_is_no_track<F: Fn(&str, u32, bool) -> i32>(
    strokes: Seq<Drawn>,
    measure: F,
    card: Card,
    avatar: bool,
    card_width: u32,
    card_height: u32,
)
    requires
        shows_card(strokes, measure, card, avatar, card_width, card_height),
        !(card is Playing),
    ensures
        ({
            let max_width = (card_width - 476) as i32;
            let label = if card is Error {
                "STATUS"@
            } else {
                "SPOTIFY"@
            };
            let title = match card {
                Card::Idle => "Nothing playing"@,
                Card::NotLinked => "Spotify isn't linked"@,
                _ => "Can't load playback"@,
            };
            let body = match card {
                Card::Idle => "Start a track in Spotify, then try again."@,
                Card::NotLinked => "Open the bot and send /link to connect."@,
                _ => card->message,
            };
            &&& strokes[0] is Wash && strokes[1] is Cover
            &&& strokes.skip(2) == status_strokes(measure, label, title, body, 436, 128, max_width)
        }),
{
    assert(strokes.take(2)[0] == strokes[0] && strokes.take(2)[1] == strokes[1]);
}

/// The strip with the bar ends with the cover, or forty pixels above the end of a lower card; the
/// texts have what is left between the top of the cover and the strip.
pub proof fn strip_ends_with_the_cover(card_height: u32)
    ensures
        controls_bottom(card_height) <= 488,
        controls_bottom(card_height) <= card_height - 40,
        controls_bottom(card_height) == 488 || controls_bottom(card_height) == card_height - 40,
        text_budget(card_height) >= 0,
        text_budget(card_height) > 0 ==> 128 + text_budget(card_height) + 76 == controls_bottom(
            card_height,
        ),
        text_budget(card_height) == 0 ==> controls_bottom(card_height) <= 204,
{
}

} // verus!
