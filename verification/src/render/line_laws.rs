//! What the lines of a text hold of it.
use vstd::prelude::*;

use crate::render::wrap::{bared, bared_no_longer, cjk, ellipsis, ellipsized, flushed, format_char};
use crate::render::wrap::{joined, joined_rest, needed, scanned, shortened, words, words_not_empty};
use crate::render::wrap::{wrapped, wrapped_from};
use crate::render::wrap_laws::{lemma_letters_add, lemma_letters_joined, lemma_letters_twice};
use crate::render::wrap_laws::{lemma_strung_push, letters, plain, strung, words_spell_text};
use crate::render::wrap_laws::wrapped_stays_inside;
use crate::text::{trimmed_end, white_space};

verus! {

/// The words from index `from` up to, not including, index `to`, set on one line.
pub open spec fn on_one_line(tokens: Seq<Seq<char>>, from: int, to: int) -> Seq<char> {
    joined_rest(Seq::empty(), tokens.subrange(from, to), 0)
}

/// Whether a line is a text that was cut: a shorter beginning of it, and an ellipsis.
pub open spec fn cut_from(line: Seq<char>, text: Seq<char>) -> bool {
    &&& 0 < line.len() <= text.len()
    &&& line.last() == '\u{2026}'
    &&& line.drop_last() == text.take(line.len() - 1)
}

proof fn lemma_bared_begins(text: Seq<char>)
    ensures
        bared(text).len() <= text.len(),
        bared(text) == text.take(bared(text).len() as int),
    decreases text.len(),
{
    if text.len() > 0 && (white_space(text.last()) || format_char(text.last())) {
        lemma_bared_begins(text.drop_last());
        let n = bared(text).len() as int;
        assert(text.drop_last().take(n) =~= text.take(n));
    } else {
        assert(text.take(text.len() as int) =~= text);
    }
}

proof fn lemma_trimmed_end_begins(text: Seq<char>)
    ensures
        trimmed_end(text).len() <= text.len(),
        trimmed_end(text) == text.take(trimmed_end(text).len() as int),
    decreases text.len(),
{
    if text.len() > 0 && white_space(text.last()) {
        lemma_trimmed_end_begins(text.drop_last());
        let n = trimmed_end(text).len() as int;
        assert(text.drop_last().take(n) =~= text.take(n));
    } else {
        assert(text.take(text.len() as int) =~= text);
    }
}

proof fn lemma_shortened_begins(width_of: spec_fn(Seq<char>) -> i32, text: Seq<char>, limit: i32)
    ensures
        ({
            let short = shortened(width_of, text, limit);
            &&& 0 < short.len() <= text.len() || text.len() == 0
            &&& short.len() > 0
            &&& short.last() == '\u{2026}'
            &&& text.len() > 0 ==> short.drop_last() == text.take(short.len() - 1)
            &&& text.len() == 0 ==> short == seq!['\u{2026}']
        }),
    decreases text.len(),
{
    if text.len() > 0 {
        bared_no_longer(text.drop_last());
        let shorter = bared(text.drop_last());
        lemma_bared_begins(text.drop_last());
        assert(shorter =~= text.take(shorter.len() as int));
        if width_of(shorter + ellipsis()) <= limit {
            assert((shorter + ellipsis()).drop_last() =~= shorter);
        } else {
            lemma_shortened_begins(width_of, shorter, limit);
            let short = shortened(width_of, shorter, limit);
            if shorter.len() > 0 {
                assert(shorter.take(short.len() - 1) =~= text.take(short.len() - 1));
            } else {
                assert(short.drop_last() =~= text.take(0));
            }
        }
    }
}

/// What shortening a text that is too wide gives: a shorter beginning of it, and an ellipsis. Only
/// of a text of nothing but white space the ellipsis alone is left.
pub proof fn shortened_is_a_beginning(
    width_of: spec_fn(Seq<char>) -> i32,
    text: Seq<char>,
    limit: i32,
)
    requires
        width_of(text) > limit,
        text.len() > 0,
    ensures
        cut_from(ellipsized(width_of, text, limit), text),
{
    let body = trimmed_end(text);
    lemma_trimmed_end_begins(text);
    lemma_shortened_begins(width_of, body, limit);
    let short = shortened(width_of, body, limit);
    if body.len() > 0 {
        assert(body.take(short.len() - 1) =~= text.take(short.len() - 1));
    } else {
        assert(short.drop_last() =~= text.take(0));
    }
}

/// Shortening keeps as much as it can: no longer beginning of the text fits with an ellipsis, once
/// the white space and the undrawn characters before the ellipsis are dropped.
pub proof fn shortened_is_longest(
    width_of: spec_fn(Seq<char>) -> i32,
    text: Seq<char>,
    limit: i32,
    k: int,
)
    requires
        width_of(text) > limit,
        ellipsized(width_of, text, limit).len() - 1 < k < trimmed_end(text).len(),
        k == bared(trimmed_end(text).take(k)).len(),
    ensures
        width_of(trimmed_end(text).take(k) + seq!['\u{2026}']) > limit,
{
    lemma_shortened_longest(width_of, trimmed_end(text), limit, k);
}

proof fn lemma_bared_stops(text: Seq<char>, k: int)
    requires
        0 <= k <= text.len(),
        bared(text.take(k)).len() == k,
    ensures
        bared(text).len() >= k,
    decreases text.len(),
{
    if k == text.len() {
        assert(text.take(k) =~= text);
    } else if white_space(text.last()) || format_char(text.last()) {
        assert(text.drop_last().take(k) =~= text.take(k));
        lemma_bared_stops(text.drop_last(), k);
    }
}

proof fn lemma_shortened_longest(
    width_of: spec_fn(Seq<char>) -> i32,
    text: Seq<char>,
    limit: i32,
    k: int,
)
    requires
        shortened(width_of, text, limit).len() - 1 < k < text.len(),
        k == bared(text.take(k)).len(),
    ensures
        width_of(text.take(k) + seq!['\u{2026}']) > limit,
    decreases text.len(),
{
    bared_no_longer(text.drop_last());
    let shorter = bared(text.drop_last());
    lemma_bared_begins(text.drop_last());
    assert(shorter =~= text.take(shorter.len() as int));
    assert(text.drop_last().take(k) =~= text.take(k));
    lemma_bared_stops(text.drop_last(), k);
    lemma_bared_begins(text.take(k));
    if width_of(shorter + ellipsis()) <= limit {
        assert((shorter + ellipsis()).len() == shorter.len() + 1);
    } else if k < shorter.len() {
        assert(shorter.take(k) =~= text.take(k));
        lemma_shortened_longest(width_of, shorter, limit, k);
    } else {
        assert(text.take(k) =~= shorter);
    }
}

proof fn lemma_joined_rest_more(
    line: Seq<char>,
    tokens: Seq<Seq<char>>,
    more: Seq<Seq<char>>,
    from: int,
)
    requires
        0 <= from <= tokens.len(),
    ensures
        joined_rest(line, tokens + more, from) == joined_rest(
            joined_rest(line, tokens, from),
            more,
            0,
        ),
    decreases tokens.len() - from,
{
    if from < tokens.len() {
        assert((tokens + more)[from] == tokens[from]);
        lemma_joined_rest_more(joined(line, tokens[from]), tokens, more, from + 1);
    } else {
        lemma_joined_rest_shifted(line, tokens, more, 0);
    }
}

proof fn lemma_joined_rest_shifted(
    line: Seq<char>,
    tokens: Seq<Seq<char>>,
    more: Seq<Seq<char>>,
    from: int,
)
    requires
        0 <= from <= more.len(),
    ensures
        joined_rest(line, tokens + more, tokens.len() + from) == joined_rest(line, more, from),
    decreases more.len() - from,
{
    if from < more.len() {
        assert((tokens + more)[tokens.len() + from] == more[from]);
        lemma_joined_rest_shifted(joined(line, more[from]), tokens, more, from + 1);
    }
}

proof fn lemma_one_more(tokens: Seq<Seq<char>>, start: int, next: int)
    requires
        0 <= start <= next < tokens.len(),
    ensures
        on_one_line(tokens, start, next + 1) == joined(
            on_one_line(tokens, start, next),
            tokens[next],
        ),
{
    let one = seq![tokens[next]];
    assert(tokens.subrange(start, next + 1) =~= tokens.subrange(start, next) + one);
    lemma_joined_rest_more(Seq::empty(), tokens.subrange(start, next), one, 0);
    reveal_with_fuel(joined_rest, 2);
}

proof fn lemma_all_the_rest(tokens: Seq<Seq<char>>, start: int, next: int)
    requires
        0 <= start <= next <= tokens.len(),
    ensures
        on_one_line(tokens, start, tokens.len() as int) == joined_rest(
            on_one_line(tokens, start, next),
            tokens,
            next,
        ),
{
    let n = tokens.len() as int;
    assert(tokens.subrange(start, n) =~= tokens.subrange(start, next) + tokens.subrange(next, n));
    lemma_joined_rest_more(Seq::empty(), tokens.subrange(start, next), tokens.subrange(next, n), 0);
    assert(tokens =~= tokens.take(next) + tokens.subrange(next, n));
    lemma_joined_rest_shifted(
        on_one_line(tokens, start, next),
        tokens.take(next),
        tokens.subrange(next, n),
        0,
    );
}

proof fn lemma_line_not_empty(tokens: Seq<Seq<char>>, start: int, next: int)
    requires
        0 <= start <= next <= tokens.len(),
        forall|i: int| 0 <= i < tokens.len() ==> (#[trigger] tokens[i]).len() > 0,
    ensures
        on_one_line(tokens, start, next).len() > 0 <==> start < next,
        start + 1 == next ==> on_one_line(tokens, start, next) == tokens[start],
    decreases next - start,
{
    if start < next {
        lemma_one_more(tokens, start, next - 1);
        lemma_line_not_empty(tokens, start, next - 1);
    } else {
        assert(tokens.subrange(start, next) =~= Seq::empty());
    }
}

/// How a line comes from the words from index `from` up to, not including, index `to`, where
/// `last` says whether it is the last one allowed: they stand on it as they are; or they are too
/// wide for it and are cut, which happens to the last line allowed and to a word alone. On a line
/// that others follow there was no room for the next word.
pub open spec fn set_of(
    width_of: spec_fn(Seq<char>) -> i32,
    tokens: Seq<Seq<char>>,
    line: Seq<char>,
    from: int,
    to: int,
    limit: i32,
    last: bool,
) -> bool {
    let whole = on_one_line(tokens, from, to);
    &&& 0 <= from < to <= tokens.len()
    &&& line == whole && width_of(whole) <= limit || cut_from(line, whole) && width_of(whole)
        > limit && (last || to == from + 1)
    &&& to < tokens.len() && width_of(whole) <= limit ==> width_of(
        joined(whole, tokens[to]),
    ) > limit
}

/// Whether lines hold words in their order, with none left out: `cuts` says at which word each
/// line begins.
pub open spec fn set_in_order(
    width_of: spec_fn(Seq<char>) -> i32,
    tokens: Seq<Seq<char>>,
    lines: Seq<Seq<char>>,
    cuts: Seq<int>,
    limit: i32,
    limit_lines: nat,
) -> bool {
    &&& cuts.len() == lines.len() + 1
    &&& cuts[0] == 0
    &&& cuts.last() == tokens.len()
    &&& forall|i: int|
        0 <= i < lines.len() ==> set_of(
            width_of,
            tokens,
            #[trigger] lines[i],
            cuts[i],
            cuts[i + 1],
            limit,
            i + 1 == limit_lines,
        )
}

proof fn lemma_set_in_order(
    width_of: spec_fn(Seq<char>) -> i32,
    tokens: Seq<Seq<char>>,
    start: int,
    next: int,
    done: nat,
    limit: i32,
    limit_lines: nat,
) -> (cuts: Seq<int>)
    requires
        0 <= start <= next <= tokens.len(),
        start < tokens.len(),
        done < limit_lines,
        forall|i: int| 0 <= i < tokens.len() ==> (#[trigger] tokens[i]).len() > 0,
        start < next ==> width_of(on_one_line(tokens, start, next)) <= limit,
    ensures
        ({
            let current = on_one_line(tokens, start, next);
            let lines = wrapped_from(width_of, tokens, next, current, done, limit, limit_lines);
            &&& cuts.len() == lines.len() + 1
            &&& cuts[0] == start
            &&& cuts.last() == tokens.len()
            &&& forall|i: int|
                0 <= i < lines.len() ==> set_of(
                    width_of,
                    tokens,
                    #[trigger] lines[i],
                    cuts[i],
                    cuts[i + 1],
                    limit,
                    done + i + 1 == limit_lines,
                )
        }),
    decreases tokens.len() - next, next - start,
{
    let n = tokens.len() as int;
    let current = on_one_line(tokens, start, next);
    let lines = wrapped_from(width_of, tokens, next, current, done, limit, limit_lines);
    lemma_line_not_empty(tokens, start, next);
    if next == n {
        assert(lines =~= seq![current]);
        seq![start, n]
    } else {
        lemma_one_more(tokens, start, next);
        if width_of(joined(current, tokens[next])) <= limit {
            lemma_set_in_order(width_of, tokens, start, next + 1, done, limit, limit_lines)
        } else if done + 1 == limit_lines {
            let whole = on_one_line(tokens, start, n);
            lemma_all_the_rest(tokens, start, next);
            lemma_line_not_empty(tokens, start, n);
            assert(lines =~= seq![ellipsized(width_of, whole, limit)]);
            if width_of(whole) > limit {
                shortened_is_a_beginning(width_of, whole, limit);
            }
            seq![start, n]
        } else if start < next {
            let empty = on_one_line(tokens, next, next);
            assert(tokens.subrange(next, next) =~= Seq::empty());
            assert(empty == Seq::<char>::empty());
            let rest = lemma_set_in_order(
                width_of,
                tokens,
                next,
                next,
                done + 1,
                limit,
                limit_lines,
            );
            let others = wrapped_from(
                width_of,
                tokens,
                next,
                empty,
                done + 1,
                limit,
                limit_lines,
            );
            assert(lines =~= seq![current] + others);
            let cuts = seq![start] + rest;
            assert forall|i: int| 0 <= i < lines.len() implies set_of(
                width_of,
                tokens,
                #[trigger] lines[i],
                cuts[i],
                cuts[i + 1],
                limit,
                done + i + 1 == limit_lines,
            ) by {
                if i > 0 {
                    assert(lines[i] == others[i - 1]);
                    assert(cuts[i] == rest[i - 1] && cuts[i + 1] == rest[i]);
                }
            }
            cuts
        } else {
            let word = tokens[next];
            lemma_line_not_empty(tokens, next, next + 1);
            assert(joined(current, word) == word);
            shortened_is_a_beginning(width_of, word, limit);
            let first = ellipsized(width_of, word, limit);
            let empty = on_one_line(tokens, next + 1, next + 1);
            assert(tokens.subrange(next + 1, next + 1) =~= Seq::empty());
            assert(empty == Seq::<char>::empty());
            let others = wrapped_from(
                width_of,
                tokens,
                next + 1,
                empty,
                done + 1,
                limit,
                limit_lines,
            );
            assert(lines =~= seq![first] + others);
            let rest = if next + 1 == n {
                assert(others =~= Seq::empty());
                seq![n]
            } else {
                lemma_set_in_order(
                    width_of,
                    tokens,
                    next + 1,
                    next + 1,
                    done + 1,
                    limit,
                    limit_lines,
                )
            };
            let cuts = seq![start] + rest;
            assert forall|i: int| 0 <= i < lines.len() implies set_of(
                width_of,
                tokens,
                #[trigger] lines[i],
                cuts[i],
                cuts[i + 1],
                limit,
                done + i + 1 == limit_lines,
            ) by {
                if i > 0 {
                    assert(lines[i] == others[i - 1]);
                    assert(cuts[i] == rest[i - 1] && cuts[i + 1] == rest[i]);
                }
            }
            cuts
        }
    }
}

/// A number, or one where it is zero.
pub open spec fn at_least_one(n: nat) -> nat {
    if n == 0 {
        1
    } else {
        n
    }
}

/// The lines of a text hold its words in their order, and none is left out: each line holds the
/// next few of them as they are, as many as there is room for, or is a beginning of them with an
/// ellipsis, where they are too wide and it is the last line allowed or one word alone.
pub proof fn lines_hold_all_words(
    width_of: spec_fn(Seq<char>) -> i32,
    text: Seq<char>,
    limit: i32,
    max_lines: nat,
)
    requires
        words(text).len() > 0,
    ensures
        exists|cuts: Seq<int>|
            set_in_order(
                width_of,
                words(text),
                wrapped(width_of, text, limit, max_lines),
                cuts,
                limit,
                at_least_one(max_lines),
            ),
{
    let limit_lines = at_least_one(max_lines);
    words_not_empty(text);
    assert(words(text).subrange(0, 0) =~= Seq::empty());
    assert(on_one_line(words(text), 0, 0) == Seq::<char>::empty());
    let cuts = lemma_set_in_order(width_of, words(text), 0, 0, 0, limit, limit_lines);
    assert(set_in_order(
        width_of,
        words(text),
        wrapped(width_of, text, limit, max_lines),
        cuts,
        limit,
        limit_lines,
    ));
}

proof fn lemma_line_letters(tokens: Seq<Seq<char>>, from: int, to: int)
    requires
        0 <= from <= to <= tokens.len(),
    ensures
        letters(on_one_line(tokens, from, to)) == letters(strung(tokens.subrange(from, to))),
    decreases to - from,
{
    if from == to {
        assert(tokens.subrange(from, to) =~= Seq::empty());
    } else {
        lemma_one_more(tokens, from, to - 1);
        lemma_line_letters(tokens, from, to - 1);
        let before = tokens.subrange(from, to - 1);
        assert(tokens.subrange(from, to) =~= before.push(tokens[to - 1]));
        lemma_strung_push(before, tokens[to - 1]);
        lemma_letters_joined(on_one_line(tokens, from, to - 1), tokens[to - 1]);
        lemma_letters_add(strung(before), tokens[to - 1]);
    }
}

proof fn lemma_strung_add(a: Seq<Seq<char>>, b: Seq<Seq<char>>)
    ensures
        strung(a + b) == strung(a) + strung(b),
    decreases b.len(),
{
    if b.len() == 0 {
        assert(a + b =~= a);
        assert(strung(a) + strung(b) =~= strung(a));
    } else {
        assert((a + b).drop_last() =~= a + b.drop_last());
        lemma_strung_add(a, b.drop_last());
        assert(strung(a) + (strung(b.drop_last()) + b.last()) =~= strung(a) + strung(b.drop_last())
            + b.last());
    }
}

/// What the first lines hold, where none of them is cut.
proof fn lemma_first_lines(
    width_of: spec_fn(Seq<char>) -> i32,
    tokens: Seq<Seq<char>>,
    lines: Seq<Seq<char>>,
    cuts: Seq<int>,
    limit: i32,
    limit_lines: nat,
    k: int,
)
    requires
        set_in_order(width_of, tokens, lines, cuts, limit, limit_lines),
        0 <= k <= lines.len(),
        forall|i: int|
            0 <= i < k ==> #[trigger] lines[i] == on_one_line(tokens, cuts[i], cuts[i + 1]),
    ensures
        0 <= cuts[k] <= tokens.len(),
        letters(strung(lines.take(k))) == letters(strung(tokens.take(cuts[k]))),
    decreases k,
{
    if k == 0 {
        assert(lines.take(0) =~= Seq::empty());
        assert(tokens.take(0) =~= Seq::empty());
        if lines.len() > 0 {
            assert(set_of(width_of, tokens, lines[0], cuts[0], cuts[1], limit, 1 == limit_lines));
        }
    } else {
        lemma_first_lines(width_of, tokens, lines, cuts, limit, limit_lines, k - 1);
        assert(set_of(
            width_of,
            tokens,
            lines[k - 1],
            cuts[k - 1],
            cuts[k],
            limit,
            k == limit_lines,
        ));
        lemma_line_letters(tokens, cuts[k - 1], cuts[k]);
        let part = tokens.subrange(cuts[k - 1], cuts[k]);
        assert(lines.take(k) =~= lines.take(k - 1).push(lines[k - 1]));
        lemma_strung_push(lines.take(k - 1), lines[k - 1]);
        lemma_letters_add(strung(lines.take(k - 1)), lines[k - 1]);
        assert(tokens.take(cuts[k]) =~= tokens.take(cuts[k - 1]) + part);
        lemma_strung_add(tokens.take(cuts[k - 1]), part);
        lemma_letters_add(strung(tokens.take(cuts[k - 1])), strung(part));
    }
}

/// Whether `start` is what `whole` begins with.
pub open spec fn begins(start: Seq<char>, whole: Seq<char>) -> bool {
    start.len() <= whole.len() && start == whole.take(start.len() as int)
}

proof fn lemma_letters_begin(text: Seq<char>, k: int)
    requires
        0 <= k <= text.len(),
    ensures
        begins(letters(text.take(k)), letters(text)),
{
    assert(text =~= text.take(k) + text.skip(k));
    lemma_letters_add(text.take(k), text.skip(k));
    assert((letters(text.take(k)) + letters(text.skip(k))).take(
        letters(text.take(k)).len() as int,
    ) =~= letters(text.take(k)));
}

/// Where each word of a text fits into a line, its lines hold all of its letters in their order,
/// or a beginning of them: then something is missing at the end only, and the last line ends with
/// the ellipsis.
pub proof fn lines_hold_a_beginning(
    width_of: spec_fn(Seq<char>) -> i32,
    text: Seq<char>,
    limit: i32,
    max_lines: nat,
)
    requires
        forall|i: int| 0 <= i < words(text).len() ==> width_of(#[trigger] words(text)[i]) <= limit,
    ensures
        ({
            let lines = wrapped(width_of, text, limit, max_lines);
            ||| letters(strung(lines)) == letters(text)
            ||| {
                &&& lines.last().len() > 0
                &&& lines.last().last() == '\u{2026}'
                &&& begins(
                    letters(strung(lines.drop_last()) + lines.last().drop_last()),
                    letters(text),
                )
            }
        }),
{
    let tokens = words(text);
    let lines = wrapped(width_of, text, limit, max_lines);
    words_spell_text(text);
    lemma_letters_twice(text);
    if tokens.len() == 0 {
        reveal_with_fuel(strung, 2);
        assert(lines.drop_last() =~= Seq::<Seq<char>>::empty());
        assert(strung(lines) =~= Seq::<char>::empty());
        assert(letters(text) =~= Seq::<char>::empty());
    } else {
        let limit_lines = at_least_one(max_lines);
        words_not_empty(text);
        wrapped_stays_inside(width_of, text, limit, max_lines);
        lines_hold_all_words(width_of, text, limit, max_lines);
        let cuts = choose|cuts: Seq<int>|
            set_in_order(width_of, tokens, lines, cuts, limit, limit_lines);
        let n = lines.len() - 1;
        assert forall|i: int| 0 <= i < n implies #[trigger] lines[i] == on_one_line(
            tokens,
            cuts[i],
            cuts[i + 1],
        ) by {
            assert(set_of(
                width_of,
                tokens,
                lines[i],
                cuts[i],
                cuts[i + 1],
                limit,
                i + 1 == limit_lines,
            ));
            lemma_line_not_empty(tokens, cuts[i], cuts[i + 1]);
        }
        lemma_first_lines(width_of, tokens, lines, cuts, limit, limit_lines, n);
        assert(set_of(
            width_of,
            tokens,
            lines[n],
            cuts[n],
            cuts[n + 1],
            limit,
            n + 1 == limit_lines,
        ));
        let whole = on_one_line(tokens, cuts[n], tokens.len() as int);
        let part = tokens.subrange(cuts[n], tokens.len() as int);
        lemma_line_letters(tokens, cuts[n], tokens.len() as int);
        assert(tokens =~= tokens.take(cuts[n]) + part);
        lemma_strung_add(tokens.take(cuts[n]), part);
        lemma_letters_add(strung(tokens.take(cuts[n])), strung(part));
        assert(lines =~= lines.drop_last().push(lines.last()));
        assert(lines.take(n) =~= lines.drop_last());
        lemma_strung_push(lines.drop_last(), lines.last());
        let first = strung(lines.drop_last());
        if lines[n] == whole {
            lemma_letters_add(first, whole);
        } else {
            let kept = lines.last().drop_last();
            lemma_letters_begin(whole, lines.last().len() - 1);
            lemma_letters_add(first, kept);
            assert(begins(letters(kept), letters(whole)));
            assert(letters(first + kept) =~= letters(text).take(letters(first + kept).len() as int));
        }
    }
}

/// A text without white space and without characters of a Chinese, Japanese or Korean script is one
/// word.
pub proof fn plain_text_is_one_word(text: Seq<char>)
    requires
        plain(text),
        text.len() > 0,
    ensures
        words(text) == seq![text],
{
    lemma_run(Seq::empty(), text);
    assert(Seq::<char>::empty() + text =~= text);
    assert(words(text) =~= seq![text]);
}

proof fn lemma_run(before: Seq<char>, run: Seq<char>)
    requires
        plain(run),
    ensures
        scanned(before + run) == (scanned(before).0, scanned(before).1 + run),
    decreases run.len(),
{
    if run.len() == 0 {
        assert(before + run =~= before);
        assert(scanned(before).1 + run =~= scanned(before).1);
    } else {
        assert forall|i: int| 0 <= i < run.drop_last().len() implies !white_space(
            #[trigger] run.drop_last()[i],
        ) && !cjk(run.drop_last()[i]) by {
            assert(run[i] == run.drop_last()[i]);
        }
        lemma_run(before, run.drop_last());
        assert((before + run).drop_last() =~= before + run.drop_last());
        assert((before + run).last() == run[run.len() - 1]);
        assert((scanned(before).1 + run.drop_last()).push(run.last()) =~= scanned(before).1 + run);
    }
}

proof fn lemma_scanned_behind(done: Seq<char>, more: Seq<char>)
    requires
        scanned(done).1.len() == 0,
    ensures
        scanned(done + more) == (scanned(done).0 + scanned(more).0, scanned(more).1),
    decreases more.len(),
{
    if more.len() == 0 {
        assert(done + more =~= done);
        assert(scanned(done).0 + scanned(more).0 =~= scanned(done).0);
        assert(scanned(done).1 =~= scanned(more).1);
    } else {
        lemma_scanned_behind(done, more.drop_last());
        assert((done + more).drop_last() =~= done + more.drop_last());
        assert((done + more).last() == more.last());
        let (w, o) = scanned(more.drop_last());
        assert(flushed(scanned(done).0 + w, o) =~= scanned(done).0 + flushed(w, o));
        assert((scanned(done).0 + flushed(w, o)).push(seq![more.last()]) =~= scanned(done).0
            + flushed(w, o).push(seq![more.last()]));
    }
}

/// White space parts words, and is none.
pub proof fn white_space_parts_words(left: Seq<char>, space: char, right: Seq<char>)
    requires
        white_space(space),
    ensures
        words(left + seq![space] + right) == words(left) + words(right),
{
    let done = left + seq![space];
    assert(done.drop_last() =~= left);
    assert(done.last() == space);
    assert(!cjk(space));
    lemma_scanned_behind(done, right);
    assert(flushed(words(left) + scanned(right).0, scanned(right).1) =~= words(left) + words(
        right,
    ));
}

/// A character of a Chinese, Japanese or Korean script is a word of its own, whatever stands around
/// it.
pub proof fn script_characters_are_words(left: Seq<char>, ch: char, right: Seq<char>)
    requires
        cjk(ch),
    ensures
        words(left + seq![ch] + right) == words(left) + seq![seq![ch]] + words(right),
{
    let done = left + seq![ch];
    assert(done.drop_last() =~= left);
    assert(done.last() == ch);
    lemma_scanned_behind(done, right);
    assert(scanned(done).0 =~= words(left) + seq![seq![ch]]);
    assert(flushed(scanned(done).0 + scanned(right).0, scanned(right).1) =~= scanned(done).0
        + words(right));
}

/// A word is joined to a line with nothing or one space between them: with a space exactly if there
/// is something on both sides and no character of a Chinese, Japanese or Korean script next to it.
pub proof fn joined_with_at_most_a_space(line: Seq<char>, word: Seq<char>)
    requires
        word.len() > 0,
    ensures
        begins(line, joined(line, word)),
        joined(line, word).skip(joined(line, word).len() - word.len()) == word,
        line.len() > 0 && !cjk(line.last()) && !cjk(word[0]) ==> joined(line, word).len()
            == line.len() + 1 + word.len() && joined(line, word)[line.len() as int] == ' ',
        line.len() == 0 || cjk(line.last()) || cjk(word[0]) ==> joined(line, word).len()
            == line.len() + word.len(),
{
    let whole = joined(line, word);
    assert(whole.take(line.len() as int) =~= line);
    assert(whole.skip(whole.len() - word.len()) =~= word);
}

/// A text needs as many lines as it is set in, which is at least one.
pub proof fn needed_is_the_number_of_lines(
    width_of: spec_fn(Seq<char>) -> i32,
    text: Seq<char>,
    limit: i32,
    cap: nat,
)
    ensures
        needed(width_of, text, limit, cap) == wrapped(width_of, text, limit, cap).len(),
        1 <= needed(width_of, text, limit, cap),
        needed(width_of, text, limit, cap) <= cap || cap == 0,
{
    wrapped_stays_inside(width_of, text, limit, cap);
}

} // verus!
