//! What holds of every text that is broken into lines.
use vstd::prelude::*;

use crate::render::wrap::{bared, bared_no_longer, cjk, ellipsis, ellipsized, flushed, joined};
use crate::render::wrap::{joined_rest, scanned, shortened, words, words_not_empty, wrapped};
use crate::render::wrap::wrapped_from;
use crate::text::{trimmed_end, white_space};

verus! {

/// The characters of a text that are not white space.
pub open spec fn letters(text: Seq<char>) -> Seq<char>
    decreases text.len(),
{
    if text.len() == 0 {
        Seq::empty()
    } else if white_space(text.last()) {
        letters(text.drop_last())
    } else {
        letters(text.drop_last()).push(text.last())
    }
}

/// Texts written one after the other.
pub open spec fn strung(parts: Seq<Seq<char>>) -> Seq<char>
    decreases parts.len(),
{
    if parts.len() == 0 {
        Seq::empty()
    } else {
        strung(parts.drop_last()) + parts.last()
    }
}

/// The letters of two texts, one behind the other.
pub proof fn lemma_letters_add(a: Seq<char>, b: Seq<char>)
    ensures
        letters(a + b) == letters(a) + letters(b),
    decreases b.len(),
{
    if b.len() == 0 {
        assert(a + b =~= a);
        assert(letters(a) + letters(b) =~= letters(a));
    } else {
        lemma_letters_add(a, b.drop_last());
        assert((a + b).drop_last() =~= a + b.drop_last());
        assert((a + b).last() == b.last());
        if white_space(b.last()) {
        } else {
            assert((letters(a) + letters(b.drop_last())).push(b.last()) =~= letters(a) + letters(
                b.drop_last(),
            ).push(b.last()));
        }
    }
}

/// One more text at the end.
pub proof fn lemma_strung_push(parts: Seq<Seq<char>>, part: Seq<char>)
    ensures
        strung(parts.push(part)) == strung(parts) + part,
{
    assert(parts.push(part).drop_last() =~= parts);
}

proof fn lemma_strung_prepend(part: Seq<char>, parts: Seq<Seq<char>>)
    ensures
        strung(seq![part] + parts) == part + strung(parts),
    decreases parts.len(),
{
    if parts.len() == 0 {
        reveal_with_fuel(strung, 2);
        assert((seq![part] + parts).drop_last() =~= Seq::<Seq<char>>::empty());
        assert(strung(seq![part] + parts) =~= part);
        assert(part + strung(parts) =~= part);
    } else {
        lemma_strung_prepend(part, parts.drop_last());
        assert((seq![part] + parts).drop_last() =~= seq![part] + parts.drop_last());
        assert(part + strung(parts.drop_last()) + parts.last() =~= part + (strung(
            parts.drop_last(),
        ) + parts.last()));
    }
}

proof fn lemma_scanned_letters(text: Seq<char>)
    ensures
        strung(scanned(text).0) + scanned(text).1 == letters(text),
    decreases text.len(),
{
    if text.len() == 0 {
        assert(strung(scanned(text).0) + scanned(text).1 =~= letters(text));
    } else {
        let (done, open_word) = scanned(text.drop_last());
        let ch = text.last();
        lemma_scanned_letters(text.drop_last());
        lemma_strung_push(done, open_word);
        let finished = flushed(done, open_word);
        assert(strung(finished) =~= strung(done) + open_word);
        if cjk(ch) {
            assert(!white_space(ch));
            lemma_strung_push(finished, seq![ch]);
            assert(strung(finished) + seq![ch] + Seq::<char>::empty() =~= letters(text));
        } else if white_space(ch) {
            assert(strung(finished) + Seq::<char>::empty() =~= letters(text));
        } else {
            assert(strung(done) + open_word.push(ch) =~= letters(text));
        }
    }
}

/// Breaking a text into words loses white space and nothing else, and keeps the order.
pub proof fn words_spell_text(text: Seq<char>)
    ensures
        strung(words(text)) == letters(text),
{
    lemma_scanned_letters(text);
    lemma_strung_push(scanned(text).0, scanned(text).1);
    assert(strung(words(text)) =~= letters(text));
}

/// Whether no character of a text is white space.
pub open spec fn solid(text: Seq<char>) -> bool {
    forall|i: int| 0 <= i < text.len() ==> !white_space(#[trigger] text[i])
}

proof fn lemma_scanned_solid(text: Seq<char>)
    ensures
        forall|i: int| 0 <= i < scanned(text).0.len() ==> solid(#[trigger] scanned(text).0[i]),
        solid(scanned(text).1),
    decreases text.len(),
{
    if text.len() > 0 {
        let (done, open_word) = scanned(text.drop_last());
        lemma_scanned_solid(text.drop_last());
        assert forall|i: int| 0 <= i < scanned(text).0.len() implies solid(
            #[trigger] scanned(text).0[i],
        ) by {
            if i < done.len() {
                assert(scanned(text).0[i] == done[i]);
            }
        }
    }
}

/// Words hold at least one character, and no white space.
pub proof fn words_are_solid(text: Seq<char>)
    ensures
        forall|i: int|
            0 <= i < words(text).len() ==> (#[trigger] words(text)[i]).len() > 0 && solid(
                words(text)[i],
            ),
{
    lemma_scanned_solid(text);
    words_not_empty(text);
}

/// Whether a text can be one word: a character of a Chinese, Japanese or Korean script, or other
/// characters without white space.
pub open spec fn wordy(text: Seq<char>) -> bool {
    ||| text.len() == 1 && cjk(text[0])
    ||| text.len() > 0 && plain(text)
}

/// Whether a text holds neither white space nor characters of a Chinese, Japanese or Korean
/// script.
pub open spec fn plain(text: Seq<char>) -> bool {
    forall|i: int| 0 <= i < text.len() ==> !white_space(#[trigger] text[i]) && !cjk(text[i])
}

proof fn lemma_scanned_wordy(text: Seq<char>)
    ensures
        forall|i: int| 0 <= i < scanned(text).0.len() ==> wordy(#[trigger] scanned(text).0[i]),
        plain(scanned(text).1),
    decreases text.len(),
{
    if text.len() > 0 {
        let (done, open_word) = scanned(text.drop_last());
        lemma_scanned_wordy(text.drop_last());
        assert forall|i: int| 0 <= i < scanned(text).0.len() implies wordy(
            #[trigger] scanned(text).0[i],
        ) by {
            if i < done.len() {
                assert(scanned(text).0[i] == done[i]);
            }
        }
    }
}

proof fn lemma_scanned_run(text: Seq<char>, run: Seq<char>)
    requires
        plain(run),
    ensures
        scanned(text + run) == (scanned(text).0, scanned(text).1 + run),
    decreases run.len(),
{
    if run.len() == 0 {
        assert(text + run =~= text);
        assert(scanned(text).1 + run =~= scanned(text).1);
    } else {
        assert forall|i: int| 0 <= i < run.drop_last().len() implies !white_space(
            #[trigger] run.drop_last()[i],
        ) && !cjk(run.drop_last()[i]) by {
            assert(run[i] == run.drop_last()[i]);
        }
        lemma_scanned_run(text, run.drop_last());
        assert((text + run).drop_last() =~= text + run.drop_last());
        assert((text + run).last() == run[run.len() - 1]);
        assert((scanned(text).1 + run.drop_last()).push(run.last()) =~= scanned(text).1 + run);
    }
}

proof fn lemma_joined_words(line: Seq<char>, word: Seq<char>)
    requires
        wordy(word),
    ensures
        words(joined(line, word)) == words(line).push(word),
        joined(line, word).len() > 0,
{
    if word.len() == 1 && cjk(word[0]) {
        let whole = line + word;
        assert(joined(line, word) =~= whole);
        assert(whole.drop_last() =~= line);
        assert(whole.last() == word[0]);
        assert(seq![word[0]] =~= word);
    } else if line.len() == 0 {
        lemma_scanned_run(line, word);
        assert(line + word =~= word);
        assert(scanned(line).1 + word =~= word);
    } else if cjk(line.last()) {
        lemma_scanned_run(line, word);
        assert(scanned(line).1 + word =~= word);
    } else {
        let spaced = line + seq![' '];
        assert(!cjk(word[0]));
        assert(spaced.drop_last() =~= line);
        assert(spaced.last() == ' ');
        lemma_scanned_run(spaced, word);
        assert(scanned(spaced).1 + word =~= word);
    }
}

proof fn lemma_joined_rest_words(line: Seq<char>, tokens: Seq<Seq<char>>, from: int)
    requires
        0 <= from <= tokens.len(),
        forall|i: int| 0 <= i < tokens.len() ==> wordy(#[trigger] tokens[i]),
        words(line) == tokens.take(from),
    ensures
        words(joined_rest(line, tokens, from)) == tokens,
    decreases tokens.len() - from,
{
    if from < tokens.len() {
        lemma_joined_words(line, tokens[from]);
        assert(tokens.take(from + 1) =~= tokens.take(from).push(tokens[from]));
        lemma_joined_rest_words(joined(line, tokens[from]), tokens, from + 1);
    } else {
        assert(tokens.take(from) =~= tokens);
    }
}

/// Joining the words of a text to one line and parting that line again gives the same words.
pub proof fn joining_undoes_parting(text: Seq<char>)
    ensures
        words(joined_rest(Seq::empty(), words(text), 0)) == words(text),
{
    lemma_scanned_wordy(text);
    assert(words(Seq::<char>::empty()) =~= words(text).take(0));
    lemma_joined_rest_words(Seq::empty(), words(text), 0);
}

/// What shortening gives: a text that fits, or the bare ellipsis.
pub proof fn ellipsized_fits(width_of: spec_fn(Seq<char>) -> i32, text: Seq<char>, limit: i32)
    ensures
        width_of(ellipsized(width_of, text, limit)) <= limit || ellipsized(width_of, text, limit)
            == ellipsis(),
{
    lemma_shortened_fits(width_of, trimmed_end(text), limit);
}

proof fn lemma_shortened_fits(width_of: spec_fn(Seq<char>) -> i32, text: Seq<char>, limit: i32)
    ensures
        width_of(shortened(width_of, text, limit)) <= limit || shortened(width_of, text, limit)
            == ellipsis(),
    decreases text.len(),
{
    if text.len() > 0 {
        bared_no_longer(text.drop_last());
        lemma_shortened_fits(width_of, bared(text.drop_last()), limit);
    }
}

/// A text that fits is left as it is.
pub proof fn ellipsized_only_when_needed(
    width_of: spec_fn(Seq<char>) -> i32,
    text: Seq<char>,
    limit: i32,
)
    requires
        width_of(text) <= limit,
    ensures
        ellipsized(width_of, text, limit) == text,
{
}

proof fn lemma_wrapped_from(
    width_of: spec_fn(Seq<char>) -> i32,
    tokens: Seq<Seq<char>>,
    next: int,
    current: Seq<char>,
    done: nat,
    limit: i32,
    limit_lines: nat,
)
    requires
        0 <= next <= tokens.len(),
        done < limit_lines,
        current.len() == 0 || width_of(current) <= limit,
        forall|i: int| 0 <= i < tokens.len() ==> (#[trigger] tokens[i]).len() > 0,
    ensures
        ({
            let lines = wrapped_from(width_of, tokens, next, current, done, limit, limit_lines);
            &&& lines.len() + done <= limit_lines
            &&& next < tokens.len() || current.len() > 0 ==> lines.len() > 0
            &&& forall|i: int|
                0 <= i < lines.len() ==> width_of(#[trigger] lines[i]) <= limit || lines[i]
                    == ellipsis()
        }),
    decreases tokens.len() - next, current.len(),
{
    let lines = wrapped_from(width_of, tokens, next, current, done, limit, limit_lines);
    if next == tokens.len() {
    } else if width_of(joined(current, tokens[next])) <= limit {
        lemma_wrapped_from(
            width_of,
            tokens,
            next + 1,
            joined(current, tokens[next]),
            done,
            limit,
            limit_lines,
        );
        assert(tokens[next].len() > 0);
    } else if done + 1 == limit_lines {
        ellipsized_fits(width_of, joined_rest(current, tokens, next), limit);
    } else if current.len() > 0 {
        let rest = wrapped_from(
            width_of,
            tokens,
            next,
            Seq::empty(),
            done + 1,
            limit,
            limit_lines,
        );
        lemma_wrapped_from(width_of, tokens, next, Seq::empty(), done + 1, limit, limit_lines);
        assert forall|i: int| 0 <= i < lines.len() implies width_of(#[trigger] lines[i]) <= limit
            || lines[i] == ellipsis() by {
            if i > 0 {
                assert(lines[i] == rest[i - 1]);
            }
        }
    } else {
        let rest = wrapped_from(
            width_of,
            tokens,
            next + 1,
            Seq::empty(),
            done + 1,
            limit,
            limit_lines,
        );
        lemma_wrapped_from(width_of, tokens, next + 1, Seq::empty(), done + 1, limit, limit_lines);
        ellipsized_fits(width_of, tokens[next], limit);
        assert forall|i: int| 0 <= i < lines.len() implies width_of(#[trigger] lines[i]) <= limit
            || lines[i] == ellipsis() by {
            if i > 0 {
                assert(lines[i] == rest[i - 1]);
            }
        }
    }
}

/// A text takes at least one line and at most as many as are allowed, of which each fits unless
/// it is the bare ellipsis or the one empty line of a text without words.
pub proof fn wrapped_stays_inside(
    width_of: spec_fn(Seq<char>) -> i32,
    text: Seq<char>,
    limit: i32,
    max_lines: nat,
)
    ensures
        ({
            let lines = wrapped(width_of, text, limit, max_lines);
            &&& 1 <= lines.len()
            &&& lines.len() <= max_lines || lines.len() == 1
            &&& words(text).len() == 0 ==> lines == seq![Seq::<char>::empty()]
            &&& words(text).len() > 0 ==> forall|i: int|
                0 <= i < lines.len() ==> width_of(#[trigger] lines[i]) <= limit || lines[i]
                    == ellipsis()
        }),
{
    words_not_empty(text);
    if words(text).len() > 0 {
        let limit_lines = if max_lines == 0 {
            1
        } else {
            max_lines
        };
        lemma_wrapped_from(width_of, words(text), 0, Seq::empty(), 0, limit, limit_lines);
    }
}

/// Joining a word to a line adds its letters.
pub proof fn lemma_letters_joined(current: Seq<char>, token: Seq<char>)
    ensures
        letters(joined(current, token)) == letters(current) + letters(token),
{
    if current.len() == 0 {
        assert(letters(current) + letters(token) =~= letters(token));
    } else {
        lemma_letters_add(current, token);
        lemma_letters_add(current + seq![' '], token);
        lemma_letters_add(current, seq![' ']);
        reveal_with_fuel(letters, 2);
        assert(seq![' '].drop_last() =~= Seq::<char>::empty());
        assert(letters(seq![' ']) =~= Seq::<char>::empty());
        assert(letters(current) + Seq::<char>::empty() =~= letters(current));
    }
}

/// The letters of the words from index `next` on.
spec fn letters_from(tokens: Seq<Seq<char>>, next: int) -> Seq<char> {
    letters(strung(tokens.skip(next)))
}

proof fn lemma_letters_from(tokens: Seq<Seq<char>>, next: int)
    requires
        0 <= next < tokens.len(),
    ensures
        letters_from(tokens, next) == letters(tokens[next]) + letters_from(tokens, next + 1),
{
    assert(tokens.skip(next) =~= seq![tokens[next]] + tokens.skip(next + 1));
    lemma_strung_prepend(tokens[next], tokens.skip(next + 1));
    lemma_letters_add(tokens[next], strung(tokens.skip(next + 1)));
}

proof fn lemma_keeps_text(
    width_of: spec_fn(Seq<char>) -> i32,
    tokens: Seq<Seq<char>>,
    next: int,
    current: Seq<char>,
    done: nat,
    limit: i32,
    limit_lines: nat,
    ample: nat,
)
    requires
        0 <= next <= tokens.len(),
        done < limit_lines,
        current.len() == 0 || width_of(current) <= limit,
        forall|i: int|
            0 <= i < tokens.len() ==> (#[trigger] tokens[i]).len() > 0 && width_of(tokens[i])
                <= limit,
        ample >= done + (tokens.len() - next) + (if current.len() > 0 {
            1int
        } else {
            0
        }),
        done + wrapped_from(width_of, tokens, next, current, done, limit, ample).len()
            <= limit_lines,
    ensures
        letters(strung(wrapped_from(width_of, tokens, next, current, done, limit, limit_lines)))
            == letters(current) + letters_from(tokens, next),
    decreases tokens.len() - next, current.len(),
{
    let lines = wrapped_from(width_of, tokens, next, current, done, limit, limit_lines);
    if next == tokens.len() {
        assert(tokens.skip(next) =~= Seq::<Seq<char>>::empty());
        assert(letters_from(tokens, next) =~= Seq::<char>::empty());
        if current.len() > 0 {
            assert(seq![current].drop_last() =~= Seq::<Seq<char>>::empty());
            assert(strung(lines) =~= current);
            assert(letters(current) + Seq::<char>::empty() =~= letters(current));
        } else {
            assert(strung(lines) =~= current);
            assert(letters(current) + Seq::<char>::empty() =~= letters(current));
        }
    } else {
        let candidate = joined(current, tokens[next]);
        lemma_letters_joined(current, tokens[next]);
        lemma_letters_from(tokens, next);
        if width_of(candidate) <= limit {
            assert(tokens[next].len() > 0);
            lemma_keeps_text(
                width_of,
                tokens,
                next + 1,
                candidate,
                done,
                limit,
                limit_lines,
                ample,
            );
            assert(letters(current) + letters(tokens[next]) + letters_from(tokens, next + 1)
                =~= letters(current) + (letters(tokens[next]) + letters_from(tokens, next + 1)));
        } else {
            // A word alone fits, so the line under way holds something.
            assert(current.len() > 0);
            let rest_ample = wrapped_from(
                width_of,
                tokens,
                next,
                Seq::empty(),
                done + 1,
                limit,
                ample,
            );
            assert(wrapped_from(width_of, tokens, next, current, done, limit, ample)
                == seq![current] + rest_ample);
            lemma_wrapped_from(width_of, tokens, next, Seq::empty(), done + 1, limit, ample);
            assert(rest_ample.len() > 0);
            lemma_keeps_text(
                width_of,
                tokens,
                next,
                Seq::empty(),
                done + 1,
                limit,
                limit_lines,
                ample,
            );
            let rest = wrapped_from(
                width_of,
                tokens,
                next,
                Seq::empty(),
                done + 1,
                limit,
                limit_lines,
            );
            assert(lines == seq![current] + rest);
            lemma_strung_prepend(current, rest);
            lemma_letters_add(current, strung(rest));
            assert(letters(Seq::<char>::empty()) + letters_from(tokens, next) =~= letters_from(
                tokens,
                next,
            ));
        }
    }
}

/// Nothing of a text is lost where each word fits into a line and the lines that the text takes
/// without a limit on their number, one for each word at most, are no more than are allowed.
pub proof fn wrapped_only_when_needed(
    width_of: spec_fn(Seq<char>) -> i32,
    text: Seq<char>,
    limit: i32,
    max_lines: nat,
)
    requires
        forall|i: int| 0 <= i < words(text).len() ==> width_of(#[trigger] words(text)[i]) <= limit,
        wrapped(width_of, text, limit, words(text).len()).len() <= max_lines,
    ensures
        letters(strung(wrapped(width_of, text, limit, max_lines))) == letters(text),
{
    let tokens = words(text);
    words_spell_text(text);
    words_are_solid(text);
    if tokens.len() == 0 {
        let lines = wrapped(width_of, text, limit, max_lines);
        reveal_with_fuel(strung, 2);
        assert(lines.drop_last() =~= Seq::<Seq<char>>::empty());
        assert(strung(lines) =~= Seq::<char>::empty());
        assert(letters(text) =~= Seq::<char>::empty());
    } else {
        wrapped_stays_inside(width_of, text, limit, tokens.len());
        lemma_keeps_text(
            width_of,
            tokens,
            0,
            Seq::empty(),
            0,
            limit,
            max_lines,
            tokens.len(),
        );
        assert(tokens.skip(0) =~= tokens);
        lemma_letters_twice(text);
        assert(letters(Seq::<char>::empty()) + letters_from(tokens, 0) =~= letters(text));
    }
}

/// White space is dropped once.
pub proof fn lemma_letters_twice(text: Seq<char>)
    ensures
        letters(letters(text)) == letters(text),
    decreases text.len(),
{
    if text.len() > 0 {
        lemma_letters_twice(text.drop_last());
        if !white_space(text.last()) {
            assert(letters(text).drop_last() =~= letters(text.drop_last()));
        }
    }
}

} // verus!
