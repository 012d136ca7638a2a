//! The choice of sizes and numbers of lines for the three texts of a card.
use vstd::prelude::*;

use crate::render::layout::{height_of_line, line_height_is_nearest, FittedText, ALBUM_SIZE};
use crate::render::wrap::{needed, needed_lines, ruler, steady, wrapped};
use crate::render::wrap_laws::wrapped_stays_inside;

verus! {

/// Whether the texts of a card can be set in these sizes and numbers of lines: the sizes are
/// among those allowed, no text has more lines than it needs, and all fits into the budget.
pub open spec fn offered<F: Fn(&str, u32, bool) -> i32>(
    fit: FittedText,
    measure: F,
    title: Seq<char>,
    artist: Seq<char>,
    album: Seq<char>,
    max_width: i32,
    budget: i32,
) -> bool {
    &&& 64 <= fit.title_size <= 84 && fit.title_size % 2 == 0
    &&& 40 <= fit.artist_size <= 50 && fit.artist_size % 2 == 0
    &&& fit.album_size == ALBUM_SIZE
    &&& 1 <= fit.title_lines <= needed(ruler(measure, fit.title_size, true), title, max_width, 3)
    &&& 1 <= fit.artist_lines <= needed(
        ruler(measure, fit.artist_size, false),
        artist,
        max_width,
        2,
    )
    &&& 1 <= fit.album_lines <= needed(ruler(measure, ALBUM_SIZE, false), album, max_width, 2)
    &&& fit.tall() <= budget
}

/// Whether one setting is at least as good as another: more lines of the title come first,
/// then a larger title, more lines of the artist, a larger artist, more lines of the album.
pub open spec fn as_good(a: FittedText, b: FittedText) -> bool {
    ||| a.title_lines > b.title_lines
    ||| a.title_lines == b.title_lines && a.title_size > b.title_size
    ||| a.title_lines == b.title_lines && a.title_size == b.title_size && a.artist_lines
        > b.artist_lines
    ||| a.title_lines == b.title_lines && a.title_size == b.title_size && a.artist_lines
        == b.artist_lines && a.artist_size > b.artist_size
    ||| a.title_lines == b.title_lines && a.title_size == b.title_size && a.artist_lines
        == b.artist_lines && a.artist_size == b.artist_size && a.album_lines >= b.album_lines
}

/// The setting where nothing fits: the smallest sizes, one line each.
pub open spec fn smallest() -> FittedText {
    FittedText {
        title_size: 64,
        artist_size: 40,
        album_size: ALBUM_SIZE,
        title_lines: 1,
        artist_lines: 1,
        album_lines: 1,
    }
}

/// Whether a setting is the one to choose: one that is offered and at least as good as every
/// other that is offered, or the smallest where none is offered.
pub open spec fn chosen<F: Fn(&str, u32, bool) -> i32>(
    fit: FittedText,
    measure: F,
    title: Seq<char>,
    artist: Seq<char>,
    album: Seq<char>,
    max_width: i32,
    budget: i32,
) -> bool {
    &&& offered(fit, measure, title, artist, album, max_width, budget) || (fit == smallest()
        && forall|other: FittedText|
        !#[trigger] offered(other, measure, title, artist, album, max_width, budget))
    &&& forall|other: FittedText| #[trigger]
        offered(other, measure, title, artist, album, max_width, budget) ==> as_good(fit, other)
}

/// There is only one setting to choose.
pub proof fn chosen_once<F: Fn(&str, u32, bool) -> i32>(
    a: FittedText,
    b: FittedText,
    measure: F,
    title: Seq<char>,
    artist: Seq<char>,
    album: Seq<char>,
    max_width: i32,
    budget: i32,
)
    requires
        chosen(a, measure, title, artist, album, max_width, budget),
        chosen(b, measure, title, artist, album, max_width, budget),
    ensures
        a == b,
{
    if offered(a, measure, title, artist, album, max_width, budget) {
        assert(as_good(b, a));
        assert(offered(b, measure, title, artist, album, max_width, budget));
        assert(as_good(a, b));
    }
}

fn is_better(a: &FittedText, b: &FittedText) -> (res: bool)
    ensures
        res == !as_good(*b, *a),
{
    if a.title_lines != b.title_lines {
        return a.title_lines > b.title_lines;
    }
    if a.title_size != b.title_size {
        return a.title_size > b.title_size;
    }
    if a.artist_lines != b.artist_lines {
        return a.artist_lines > b.artist_lines;
    }
    if a.artist_size != b.artist_size {
        return a.artist_size > b.artist_size;
    }
    a.album_lines > b.album_lines
}

/// The most lines that each of the three texts needs.
#[derive(Clone, Copy)]
struct Needs {
    title: usize,
    artist: usize,
    album: usize,
}

/// The settings in two given sizes.
spec fn in_sizes(
    fit: FittedText,
    title_size: u32,
    artist_size: u32,
    needs: Needs,
    budget: i32,
) -> bool {
    &&& fit.title_size == title_size
    &&& fit.artist_size == artist_size
    &&& fit.album_size == ALBUM_SIZE
    &&& 1 <= fit.title_lines <= needs.title
    &&& 1 <= fit.artist_lines <= needs.artist
    &&& 1 <= fit.album_lines <= needs.album
    &&& fit.tall() <= budget
}

/// The settings that come before one with the given numbers of lines.
spec fn comes_before(fit: FittedText, title: int, artist: int, album: int) -> bool {
    ||| fit.title_lines < title
    ||| fit.title_lines == title && fit.artist_lines < artist
    ||| fit.title_lines == title && fit.artist_lines == artist && fit.album_lines < album
}

/// Whether `best` is the best of `base` and the settings seen so far in two given sizes.
spec fn best_so_far(
    best: Option<FittedText>,
    base: Option<FittedText>,
    title_size: u32,
    artist_size: u32,
    needs: Needs,
    budget: i32,
    title: int,
    artist: int,
    album: int,
) -> bool {
    match best {
        None => {
            &&& base is None
            &&& forall|fit: FittedText| #[trigger]
                in_sizes(fit, title_size, artist_size, needs, budget) ==> !comes_before(
                    fit,
                    title,
                    artist,
                    album,
                )
        },
        Some(winner) => {
            &&& base == Some(winner) || in_sizes(winner, title_size, artist_size, needs, budget)
            &&& base matches Some(other) ==> as_good(winner, other)
            &&& forall|fit: FittedText| #[trigger]
                in_sizes(fit, title_size, artist_size, needs, budget) && comes_before(
                    fit,
                    title,
                    artist,
                    album,
                ) ==> as_good(winner, fit)
        },
    }
}

proof fn lemma_line_product(lines: usize, size: u32)
    requires
        lines <= 3,
        size <= 100,
    ensures
        0 <= lines * height_of_line(size) <= 400,
{
    line_height_is_nearest(size);
    let h = height_of_line(size);
    assert(0 <= lines * h <= 3 * 120) by (nonlinear_arith)
        requires
            0 <= lines <= 3,
            0 <= h <= 120,
    ;
}

/// The best of `base` and all the settings in two given sizes.
fn best_in_sizes(
    base: Option<FittedText>,
    title_size: u32,
    artist_size: u32,
    needs: Needs,
    budget: i32,
) -> (best: Option<FittedText>)
    requires
        needs.title <= 3,
        needs.artist <= 2,
        needs.album <= 2,
        title_size <= 84,
        artist_size <= 50,
    ensures
        best_so_far(best, base, title_size, artist_size, needs, budget, needs.title + 1, 1, 1),
{
    let mut best = base;
    let mut title_lines: usize = 1;
    while title_lines <= needs.title
        invariant
            needs.title <= 3,
            needs.artist <= 2,
            needs.album <= 2,
            title_size <= 84,
            artist_size <= 50,
            1 <= title_lines,
            title_lines <= needs.title + 1,
            best_so_far(
                best,
                base,
                title_size,
                artist_size,
                needs,
                budget,
                title_lines as int,
                1,
                1,
            ),
        decreases needs.title + 1 - title_lines,
    {
        let mut artist_lines: usize = 1;
        while artist_lines <= needs.artist
            invariant
                needs.title <= 3,
                needs.artist <= 2,
                needs.album <= 2,
                title_size <= 84,
                artist_size <= 50,
                1 <= title_lines <= needs.title,
                1 <= artist_lines,
                artist_lines <= needs.artist + 1,
                best_so_far(
                    best,
                    base,
                    title_size,
                    artist_size,
                    needs,
                    budget,
                    title_lines as int,
                    artist_lines as int,
                    1,
                ),
            decreases needs.artist + 1 - artist_lines,
        {
            let mut album_lines: usize = 1;
            while album_lines <= needs.album
                invariant
                    needs.title <= 3,
                    needs.artist <= 2,
                    needs.album <= 2,
                    title_size <= 84,
                    artist_size <= 50,
                    1 <= title_lines <= needs.title,
                    1 <= artist_lines <= needs.artist,
                    1 <= album_lines,
                    album_lines <= needs.album + 1,
                    best_so_far(
                        best,
                        base,
                        title_size,
                        artist_size,
                        needs,
                        budget,
                        title_lines as int,
                        artist_lines as int,
                        album_lines as int,
                    ),
                decreases needs.album + 1 - album_lines,
            {
                let fit = FittedText {
                    title_size,
                    artist_size,
                    album_size: ALBUM_SIZE,
                    title_lines,
                    artist_lines,
                    album_lines,
                };
                let ghost before = best;
                proof {
                    lemma_line_product(title_lines, title_size);
                    lemma_line_product(artist_lines, artist_size);
                    lemma_line_product(album_lines, ALBUM_SIZE);
                }
                if fit.height() <= budget {
                    assert(in_sizes(fit, title_size, artist_size, needs, budget));
                    let wins = match &best {
                        None => true,
                        Some(winner) => is_better(&fit, winner),
                    };
                    if wins {
                        best = Some(fit);
                    }
                }
                proof {
                    assert forall|other: FittedText| #[trigger]
                        in_sizes(other, title_size, artist_size, needs, budget) && comes_before(
                            other,
                            title_lines as int,
                            artist_lines as int,
                            album_lines + 1,
                        ) implies best is Some && as_good(best->0, other) by {
                        if !comes_before(
                            other,
                            title_lines as int,
                            artist_lines as int,
                            album_lines as int,
                        ) {
                            assert(other == fit);
                        }
                    }
                }
                album_lines += 1;
            }
            artist_lines += 1;
        }
        title_lines += 1;
    }
    best
}

/// Whether `best` is the best of the settings whose sizes are larger than the given ones.
spec fn best_above<F: Fn(&str, u32, bool) -> i32>(
    best: Option<FittedText>,
    measure: F,
    title: Seq<char>,
    artist: Seq<char>,
    album: Seq<char>,
    max_width: i32,
    budget: i32,
    title_size: int,
    artist_size: int,
) -> bool {
    match best {
        None => forall|fit: FittedText| #[trigger]
            offered(fit, measure, title, artist, album, max_width, budget) ==> !(fit.title_size
                > title_size || (fit.title_size == title_size && fit.artist_size > artist_size)),
        Some(winner) => {
            &&& offered(winner, measure, title, artist, album, max_width, budget)
            &&& forall|fit: FittedText| #[trigger]
                offered(fit, measure, title, artist, album, max_width, budget) && (fit.title_size
                    > title_size || (fit.title_size == title_size && fit.artist_size
                    > artist_size)) ==> as_good(winner, fit)
        },
    }
}

/// Chooses the sizes and numbers of lines for the texts of a card: the best setting that fits
/// into the budget, and the smallest where none fits.
pub fn fit_playing_stack<F: Fn(&str, u32, bool) -> i32>(
    measure: &F,
    title: &str,
    artist: &str,
    album: &str,
    max_width: i32,
    budget: i32,
) -> (res: FittedText)
    requires
        steady(*measure),
    ensures
        chosen(res, *measure, title@, artist@, album@, max_width, budget),
        budget >= 189 ==> res.tall() <= budget,
        1 <= res.title_lines <= 3,
        1 <= res.artist_lines <= 2,
        1 <= res.album_lines <= 2,
        64 <= res.title_size <= 84,
        40 <= res.artist_size <= 50,
        res.album_size == ALBUM_SIZE,
{
    let mut best: Option<FittedText> = None;
    let mut title_size: u32 = 84;
    proof {
        wrapped_stays_inside(ruler(*measure, ALBUM_SIZE, false), album@, max_width, 2);
    }
    let album_need: usize = needed_lines(measure, ALBUM_SIZE, false, album, max_width, 2);
    while title_size >= 64
        invariant
            steady(*measure),
            62 <= title_size <= 84,
            title_size % 2 == 0,
            album_need <= 2,
            album_need == needed(ruler(*measure, ALBUM_SIZE, false), album@, max_width, 2),
            best_above(
                best,
                *measure,
                title@,
                artist@,
                album@,
                max_width,
                budget,
                title_size as int,
                50,
            ),
        decreases title_size,
    {
        proof {
            wrapped_stays_inside(ruler(*measure, title_size, true), title@, max_width, 3);
        }
        let title_need: usize = needed_lines(measure, title_size, true, title, max_width, 3);
        let mut artist_size: u32 = 50;
        while artist_size >= 40
            invariant
                steady(*measure),
                64 <= title_size <= 84,
                title_size % 2 == 0,
                38 <= artist_size <= 50,
                artist_size % 2 == 0,
                album_need <= 2,
                album_need == needed(ruler(*measure, ALBUM_SIZE, false), album@, max_width, 2),
                title_need <= 3,
                title_need == needed(ruler(*measure, title_size, true), title@, max_width, 3),
                best_above(
                    best,
                    *measure,
                    title@,
                    artist@,
                    album@,
                    max_width,
                    budget,
                    title_size as int,
                    artist_size as int,
                ),
            decreases artist_size,
        {
            proof {
                wrapped_stays_inside(ruler(*measure, artist_size, false), artist@, max_width, 2);
            }
            let artist_need: usize = needed_lines(
                measure,
                artist_size,
                false,
                artist,
                max_width,
                2,
            );
            let needs = Needs { title: title_need, artist: artist_need, album: album_need };
            let ghost before = best;
            best = best_in_sizes(best, title_size, artist_size, needs, budget);
            proof {
                assert forall|fit: FittedText| #[trigger]
                    offered(fit, *measure, title@, artist@, album@, max_width, budget) && (
                    fit.title_size > title_size || (fit.title_size == title_size
                        && fit.artist_size > artist_size - 2)) implies best is Some && as_good(
                    best->0,
                    fit,
                ) by {
                    if fit.title_size == title_size && fit.artist_size == artist_size {
                        assert(in_sizes(fit, title_size, artist_size, needs, budget));
                    } else {
                        assert(fit.title_size > title_size || fit.artist_size > artist_size);
                        assert(before is Some && as_good(before->0, fit));
                    }
                }
                if let Some(winner) = best {
                    if before != Some(winner) {
                        assert(in_sizes(winner, title_size, artist_size, needs, budget));
                        assert(offered(
                            winner,
                            *measure,
                            title@,
                            artist@,
                            album@,
                            max_width,
                            budget,
                        ));
                    }
                }
            }
            artist_size -= 2;
        }
        proof {
            assert forall|fit: FittedText| #[trigger]
                offered(fit, *measure, title@, artist@, album@, max_width, budget) && (
                fit.title_size > title_size - 2 || (fit.title_size == title_size - 2
                    && fit.artist_size > 50)) implies best is Some && as_good(best->0, fit) by {
                assert(fit.title_size > title_size || fit.title_size == title_size);
            }
        }
        title_size -= 2;
    }
    match best {
        Some(fit) => {
            proof {
                wrapped_stays_inside(
                    ruler(*measure, fit.title_size, true),
                    title@,
                    max_width,
                    3,
                );
                wrapped_stays_inside(
                    ruler(*measure, fit.artist_size, false),
                    artist@,
                    max_width,
                    2,
                );
            }
            fit
        },
        None => {
            let fit = FittedText {
                title_size: 64,
                artist_size: 40,
                album_size: ALBUM_SIZE,
                title_lines: 1,
                artist_lines: 1,
                album_lines: 1,
            };
            proof {
                if budget >= 189 {
                    fitted_stays_inside(
                        fit,
                        *measure,
                        title@,
                        artist@,
                        album@,
                        max_width,
                        budget,
                    );
                }
            }
            fit
        },
    }
}

/// The texts stay inside a budget of at least 189 pixels, which is the height of the smallest
/// setting.
pub proof fn fitted_stays_inside<F: Fn(&str, u32, bool) -> i32>(
    fit: FittedText,
    measure: F,
    title: Seq<char>,
    artist: Seq<char>,
    album: Seq<char>,
    max_width: i32,
    budget: i32,
)
    requires
        budget >= 189,
        chosen(fit, measure, title, artist, album, max_width, budget),
    ensures
        fit.tall() <= budget,
{
    if !offered(fit, measure, title, artist, album, max_width, budget) {
        line_height_is_nearest(64);
        line_height_is_nearest(40);
        line_height_is_nearest(42);
        assert(fit.title_lines * height_of_line(64) == height_of_line(64)) by (nonlinear_arith)
            requires
                fit.title_lines == 1,
        ;
        assert(fit.artist_lines * height_of_line(40) == height_of_line(40)) by (nonlinear_arith)
            requires
                fit.artist_lines == 1,
        ;
        assert(fit.album_lines * height_of_line(42) == height_of_line(42)) by (nonlinear_arith)
            requires
                fit.album_lines == 1,
        ;
    }
}

/// The setting that is chosen is the best one that can be had. One can be had if the title is set
/// in an even size from 64 to 84, the artist in one from 40 to 50 and the album in 42; no text is
/// given more lines than it fills, and at most three for the title and two for the others; and all
/// of it with ten pixels between the texts is no higher than the budget. Of these, none has more
/// lines of the title than the chosen one; none with as many of them has a larger title; and so on
/// with the lines of the artist, its size, and the lines of the album. Where there is none, one line
/// each is set in the smallest sizes.
pub proof fn chosen_is_the_best<F: Fn(&str, u32, bool) -> i32>(
    fit: FittedText,
    other: FittedText,
    measure: F,
    title: Seq<char>,
    artist: Seq<char>,
    album: Seq<char>,
    max_width: i32,
    budget: i32,
)
    requires
        chosen(fit, measure, title, artist, album, max_width, budget),
    ensures
        can_be_had(other, measure, title, artist, album, max_width, budget) ==> {
            &&& can_be_had(fit, measure, title, artist, album, max_width, budget)
            &&& other.title_lines <= fit.title_lines
            &&& other.title_lines == fit.title_lines ==> {
                &&& other.title_size <= fit.title_size
                &&& other.title_size == fit.title_size ==> {
                    &&& other.artist_lines <= fit.artist_lines
                    &&& other.artist_lines == fit.artist_lines ==> {
                        &&& other.artist_size <= fit.artist_size
                        &&& other.artist_size == fit.artist_size ==> other.album_lines
                            <= fit.album_lines
                    }
                }
            }
        },
        !can_be_had(fit, measure, title, artist, album, max_width, budget) ==> {
            &&& fit.title_size == 64 && fit.artist_size == 40 && fit.album_size == 42
            &&& fit.title_lines == 1 && fit.artist_lines == 1 && fit.album_lines == 1
        },
{
    wrapped_stays_inside(ruler(measure, other.title_size, true), title, max_width, 3);
    wrapped_stays_inside(ruler(measure, other.artist_size, false), artist, max_width, 2);
    wrapped_stays_inside(ruler(measure, 42, false), album, max_width, 2);
    wrapped_stays_inside(ruler(measure, fit.title_size, true), title, max_width, 3);
    wrapped_stays_inside(ruler(measure, fit.artist_size, false), artist, max_width, 2);
    if can_be_had(other, measure, title, artist, album, max_width, budget) {
        assert(offered(other, measure, title, artist, album, max_width, budget));
        assert(as_good(fit, other));
    }
}

/// Whether the texts of a card can be set like this: see `chosen_is_the_best`.
pub open spec fn can_be_had<F: Fn(&str, u32, bool) -> i32>(
    fit: FittedText,
    measure: F,
    title: Seq<char>,
    artist: Seq<char>,
    album: Seq<char>,
    max_width: i32,
    budget: i32,
) -> bool {
    let titles = wrapped(ruler(measure, fit.title_size, true), title, max_width, 3).len();
    let artists = wrapped(ruler(measure, fit.artist_size, false), artist, max_width, 2).len();
    let albums = wrapped(ruler(measure, 42, false), album, max_width, 2).len();
    let height = fit.title_lines * height_of_line(fit.title_size) + 10 + fit.artist_lines
        * height_of_line(fit.artist_size) + 10 + fit.album_lines * height_of_line(42);
    &&& 64 <= fit.title_size <= 84 && fit.title_size % 2 == 0
    &&& 40 <= fit.artist_size <= 50 && fit.artist_size % 2 == 0
    &&& fit.album_size == 42
    &&& 1 <= fit.title_lines <= titles
    &&& 1 <= fit.artist_lines <= artists
    &&& 1 <= fit.album_lines <= albums
    &&& height <= budget
}

} // verus!
