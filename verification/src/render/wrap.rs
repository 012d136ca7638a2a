//! Breaking text into lines of a limited width, and shortening what does not fit.
//!
//! How wide a text is drawn is known to the fonts alone. The functions here ask for it through
//! a function from a text, a size in pixels and a weight to a width in pixels.
use vstd::prelude::*;

use crate::text::{chars_of, end_of_trimmed, is_white_space, text_between};
use crate::text::{texts, trimmed_end, white_space};

verus! {

/// What a shortened text ends with.
pub const ELLIPSIS: &'static str = "\u{2026}";

/// The character that `ELLIPSIS` consists of.
pub open spec fn ellipsis() -> Seq<char> {
    seq!['\u{2026}']
}

/// Whether a measuring function can be asked for the width of any text, and gives the same
/// answer whenever it is asked for the same characters at the same size and weight.
pub open spec fn steady<F: Fn(&str, u32, bool) -> i32>(measure: F) -> bool {
    &&& forall|s: &str, size: u32, bold: bool| #[trigger] call_requires(measure, (s, size, bold))
    &&& forall|s: &str, t: &str, size: u32, bold: bool, a: i32, b: i32|
        s@ == t@ && #[trigger] call_ensures(measure, (s, size, bold), a)
            && #[trigger] call_ensures(measure, (t, size, bold), b) ==> a == b
}

/// The width that a steady measuring function gives to a text.
pub open spec fn width<F: Fn(&str, u32, bool) -> i32>(
    measure: F,
    text: Seq<char>,
    size: u32,
    bold: bool,
) -> i32 {
    choose|w: i32| measures(measure, text, size, bold, w)
}

/// Whether a measuring function can answer `w` for a text.
pub open spec fn measures<F: Fn(&str, u32, bool) -> i32>(
    measure: F,
    text: Seq<char>,
    size: u32,
    bold: bool,
    w: i32,
) -> bool {
    exists|s: &str| s@ == text && #[trigger] call_ensures(measure, (s, size, bold), w)
}

/// The width of each text at one size and weight.
pub open spec fn ruler<F: Fn(&str, u32, bool) -> i32>(
    measure: F,
    size: u32,
    bold: bool,
) -> spec_fn(Seq<char>) -> i32 {
    |text: Seq<char>| width(measure, text, size, bold)
}

/// The width of a text, as the measuring function gives it.
pub fn measure_text<F: Fn(&str, u32, bool) -> i32>(
    measure: &F,
    text: &str,
    size: u32,
    bold: bool,
) -> (w: i32)
    requires
        steady(*measure),
    ensures
        w == width(*measure, text@, size, bold),
{
    let w: i32 = measure(text, size, bold);
    proof {
        assert(measures(*measure, text@, size, bold, w));
        let chosen = width(*measure, text@, size, bold);
        assert(measures(*measure, text@, size, bold, chosen));
    }
    w
}

/// Characters that shape their neighbours and are not drawn themselves: joiners, the enclosing
/// keycap, variation selectors and skin tones.
pub open spec fn format_char(ch: char) -> bool {
    ||| ch == '\u{200c}'
    ||| ch == '\u{200d}'
    ||| ch == '\u{20e3}'
    ||| '\u{fe00}' <= ch <= '\u{fe0f}'
    ||| '\u{e0100}' <= ch <= '\u{e01ef}'
    ||| '\u{1f3fb}' <= ch <= '\u{1f3ff}'
}

/// Whether a character shapes its neighbours and is not drawn itself.
pub fn is_format_char(ch: char) -> (res: bool)
    ensures
        res == format_char(ch),
{
    ch == '\u{200c}' || ch == '\u{200d}' || ch == '\u{20e3}' || ('\u{fe00}' <= ch && ch
        <= '\u{fe0f}') || ('\u{e0100}' <= ch && ch <= '\u{e01ef}') || ('\u{1f3fb}' <= ch && ch
        <= '\u{1f3ff}')
}

/// The characters of Chinese, Japanese and Korean scripts, between which a line may be broken
/// and no space is written.
pub open spec fn cjk(ch: char) -> bool {
    ||| '\u{3040}' <= ch <= '\u{30ff}'
    ||| '\u{3400}' <= ch <= '\u{4dbf}'
    ||| '\u{4e00}' <= ch <= '\u{9fff}'
    ||| '\u{f900}' <= ch <= '\u{faff}'
    ||| '\u{ac00}' <= ch <= '\u{d7af}'
}

/// Whether a character belongs to a Chinese, Japanese or Korean script.
pub fn is_cjk(ch: char) -> (res: bool)
    ensures
        res == cjk(ch),
{
    ('\u{3040}' <= ch && ch <= '\u{30ff}') || ('\u{3400}' <= ch && ch <= '\u{4dbf}') || (
    '\u{4e00}' <= ch && ch <= '\u{9fff}') || ('\u{f900}' <= ch && ch <= '\u{faff}') || ('\u{ac00}'
        <= ch && ch <= '\u{d7af}')
}

/// The finished words, followed by the word that is still being read unless it is empty.
pub open spec fn flushed(words: Seq<Seq<char>>, open_word: Seq<char>) -> Seq<Seq<char>> {
    if open_word.len() == 0 {
        words
    } else {
        words.push(open_word)
    }
}

/// The words of a text that are finished when all of it has been read, and the one that is not.
pub open spec fn scanned(text: Seq<char>) -> (Seq<Seq<char>>, Seq<char>)
    decreases text.len(),
{
    if text.len() == 0 {
        (Seq::empty(), Seq::empty())
    } else {
        let (words, open_word) = scanned(text.drop_last());
        let ch = text.last();
        if cjk(ch) {
            (flushed(words, open_word).push(seq![ch]), Seq::empty())
        } else if white_space(ch) {
            (flushed(words, open_word), Seq::empty())
        } else {
            (words, open_word.push(ch))
        }
    }
}

/// The words of a text: runs of characters between white space, with each character of a
/// Chinese, Japanese or Korean script a word of its own.
pub open spec fn words(text: Seq<char>) -> Seq<Seq<char>> {
    flushed(scanned(text).0, scanned(text).1)
}

/// The words of a text, in order.
pub fn tokenize(text: &str) -> (res: Vec<String>)
    ensures
        texts(res@) == words(text@),
{
    let chars = chars_of(text);
    let mut tokens: Vec<String> = Vec::new();
    let mut buf = String::new();
    let mut i: usize = 0;
    proof {
        assert(texts(tokens@) =~= scanned(chars@.take(0)).0);
    }
    while i < chars.len()
        invariant
            chars@ == text@,
            i <= chars@.len(),
            texts(tokens@) == scanned(chars@.take(i as int)).0,
            buf@ == scanned(chars@.take(i as int)).1,
        decreases chars@.len() - i,
    {
        let ch = chars[i];
        let ghost before = tokens@;
        let ghost open_word = buf@;
        proof {
            assert(chars@.take(i + 1).drop_last() =~= chars@.take(i as int));
            assert(chars@.take(i + 1).last() == ch);
        }
        if is_cjk(ch) {
            if !buf.as_str().is_empty() {
                tokens.push(buf);
                buf = String::new();
            }
            let mut single = String::new();
            single.push(ch);
            tokens.push(single);
            proof {
                assert(single@ =~= seq![ch]);
                assert(texts(tokens@) =~= flushed(texts(before), open_word).push(seq![ch]));
                assert(buf@ =~= Seq::<char>::empty());
            }
        } else if is_white_space(ch) {
            if !buf.as_str().is_empty() {
                tokens.push(buf);
                buf = String::new();
            }
            proof {
                assert(texts(tokens@) =~= flushed(texts(before), open_word));
                assert(buf@ =~= Seq::<char>::empty());
            }
        } else {
            buf.push(ch);
        }
        i += 1;
    }
    let ghost before = tokens@;
    let ghost open_word = buf@;
    proof {
        assert(chars@.take(chars@.len() as int) =~= chars@);
    }
    if !buf.as_str().is_empty() {
        tokens.push(buf);
    }
    proof {
        assert(texts(tokens@) =~= flushed(texts(before), open_word));
    }
    tokens
}

/// A line with one more word: set off by a space, except next to a character of a Chinese,
/// Japanese or Korean script.
pub open spec fn joined(current: Seq<char>, token: Seq<char>) -> Seq<char> {
    if current.len() == 0 {
        token
    } else if token.len() > 0 && (cjk(current.last()) || cjk(token[0])) {
        current + token
    } else {
        current + seq![' '] + token
    }
}

/// A line with one more word.
pub fn join_token(current: &str, token: &str) -> (res: String)
    ensures
        res@ == joined(current@, token@),
{
    let line = chars_of(current);
    let word = chars_of(token);
    if line.len() == 0 {
        return token.to_owned();
    }
    let mut res = current.to_owned();
    if !(word.len() > 0 && (is_cjk(line[line.len() - 1]) || is_cjk(word[0]))) {
        res.push(' ');
        proof {
            assert(current@ + seq![' '] =~= current@.push(' '));
        }
    }
    res.append(token);
    res
}

/// A line with all the words from index `from` on.
pub open spec fn joined_rest(
    current: Seq<char>,
    tokens: Seq<Seq<char>>,
    from: int,
) -> Seq<char>
    decreases tokens.len() - from,
{
    if 0 <= from < tokens.len() {
        joined_rest(joined(current, tokens[from]), tokens, from + 1)
    } else {
        current
    }
}

/// A line with all the words from index `from` on.
fn join_rest(current: &str, tokens: &Vec<String>, from: usize) -> (res: String)
    requires
        from <= tokens@.len(),
    ensures
        res@ == joined_rest(current@, texts(tokens@), from as int),
{
    let mut rest = current.to_owned();
    let mut i: usize = from;
    while i < tokens.len()
        invariant
            from <= i <= tokens@.len(),
            joined_rest(rest@, texts(tokens@), i as int) == joined_rest(
                current@,
                texts(tokens@),
                from as int,
            ),
        decreases tokens@.len() - i,
    {
        rest = join_token(rest.as_str(), tokens[i].as_str());
        i += 1;
    }
    rest
}

/// A text without the white space and the undrawn characters it ends with.
pub open spec fn bared(text: Seq<char>) -> Seq<char>
    decreases text.len(),
{
    if text.len() > 0 && (white_space(text.last()) || format_char(text.last())) {
        bared(text.drop_last())
    } else {
        text
    }
}

/// Dropping characters at the end does not lengthen a text.
pub proof fn bared_no_longer(text: Seq<char>)
    ensures
        bared(text).len() <= text.len(),
    decreases text.len(),
{
    if text.len() > 0 && (white_space(text.last()) || format_char(text.last())) {
        bared_no_longer(text.drop_last());
    }
}

/// The longest beginning of `text`, at least one character shorter, that fits into `limit` with
/// an ellipsis after it; white space and undrawn characters before the ellipsis are dropped.
/// The ellipsis alone, if none fits.
pub open spec fn shortened(
    width_of: spec_fn(Seq<char>) -> i32,
    text: Seq<char>,
    limit: i32,
) -> Seq<char>
    decreases text.len(),
{
    if text.len() == 0 {
        ellipsis()
    } else {
        proof {
            bared_no_longer(text.drop_last());
        }
        let shorter = bared(text.drop_last());
        if width_of(shorter + ellipsis()) <= limit {
            shorter + ellipsis()
        } else {
            shortened(width_of, shorter, limit)
        }
    }
}

/// The text itself where it fits into `limit`, and otherwise a beginning of it that fits with an
/// ellipsis after it.
pub open spec fn ellipsized(
    width_of: spec_fn(Seq<char>) -> i32,
    text: Seq<char>,
    limit: i32,
) -> Seq<char> {
    if width_of(text) <= limit {
        text
    } else {
        shortened(width_of, trimmed_end(text), limit)
    }
}

/// Shortens a text to a width, and marks it with an ellipsis, unless it fits.
pub fn ellipsize<F: Fn(&str, u32, bool) -> i32>(
    measure: &F,
    size: u32,
    bold: bool,
    text: &str,
    max_width: i32,
) -> (res: String)
    requires
        steady(*measure),
    ensures
        res@ == ellipsized(ruler(*measure, size, bold), text@, max_width),
{
    if measure_text(measure, text, size, bold) <= max_width {
        return text.to_owned();
    }
    let ghost width_of = ruler(*measure, size, bold);
    proof {
        reveal_strlit("\u{2026}");
        assert(ELLIPSIS@ =~= ellipsis());
    }
    let chars = chars_of(text);
    let mut len: usize = end_of_trimmed(&chars, 0);
    proof {
        assert(chars@.skip(0) =~= chars@);
        assert(chars@.subrange(0, len as int) =~= chars@.take(len as int));
    }
    while len > 0
        invariant
            steady(*measure),
            ELLIPSIS@ == ellipsis(),
            width_of == ruler(*measure, size, bold),
            len <= chars@.len(),
            shortened(width_of, chars@.take(len as int), max_width) == ellipsized(
                width_of,
                text@,
                max_width,
            ),
        decreases len,
    {
        let ghost whole = chars@.take(len as int);
        len -= 1;
        proof {
            assert(whole.drop_last() =~= chars@.take(len as int));
        }
        while len > 0 && (is_white_space(chars[len - 1]) || is_format_char(chars[len - 1]))
            invariant
                len < whole.len(),
                len <= chars@.len(),
                bared(chars@.take(len as int)) == bared(whole.drop_last()),
            decreases len,
        {
            proof {
                assert(chars@.take(len as int).drop_last() =~= chars@.take(len - 1));
            }
            len -= 1;
        }
        proof {
            assert(bared(chars@.take(len as int)) == chars@.take(len as int));
        }
        let mut with_ellipsis = text_between(&chars, 0, len);
        with_ellipsis.append(ELLIPSIS);
        proof {
            assert(chars@.subrange(0, len as int) =~= chars@.take(len as int));
        }
        if measure_text(measure, with_ellipsis.as_str(), size, bold) <= max_width {
            return with_ellipsis;
        }
    }
    ELLIPSIS.to_owned()
}

/// The lines that follow when `current` has been set of the line under way, the words from
/// index `next` on are still to be set, and `done` lines are finished. The last line that
/// `limit_lines` allows takes all that is left, shortened.
pub open spec fn wrapped_from(
    width_of: spec_fn(Seq<char>) -> i32,
    tokens: Seq<Seq<char>>,
    next: int,
    current: Seq<char>,
    done: nat,
    limit: i32,
    limit_lines: nat,
) -> Seq<Seq<char>>
    decreases tokens.len() - next, current.len(),
{
    if next < 0 || next >= tokens.len() {
        if current.len() > 0 {
            seq![current]
        } else {
            Seq::empty()
        }
    } else if width_of(joined(current, tokens[next])) <= limit {
        wrapped_from(
            width_of,
            tokens,
            next + 1,
            joined(current, tokens[next]),
            done,
            limit,
            limit_lines,
        )
    } else if done + 1 == limit_lines {
        seq![ellipsized(width_of, joined_rest(current, tokens, next), limit)]
    } else if current.len() > 0 {
        seq![current] + wrapped_from(
            width_of,
            tokens,
            next,
            Seq::empty(),
            done + 1,
            limit,
            limit_lines,
        )
    } else {
        seq![ellipsized(width_of, tokens[next], limit)] + wrapped_from(
            width_of,
            tokens,
            next + 1,
            Seq::empty(),
            done + 1,
            limit,
            limit_lines,
        )
    }
}

/// The lines of a text of which each is at most `limit` wide, at least one and at most
/// `max_lines`, which counts as one where it is zero.
pub open spec fn wrapped(
    width_of: spec_fn(Seq<char>) -> i32,
    text: Seq<char>,
    limit: i32,
    max_lines: nat,
) -> Seq<Seq<char>> {
    let limit_lines = if max_lines == 0 {
        1
    } else {
        max_lines
    };
    if words(text).len() == 0 {
        seq![Seq::empty()]
    } else {
        wrapped_from(width_of, words(text), 0, Seq::empty(), 0, limit, limit_lines)
    }
}

proof fn lemma_scanned_not_empty(text: Seq<char>)
    ensures
        forall|i: int| 0 <= i < scanned(text).0.len() ==> (#[trigger] scanned(text).0[i]).len() > 0,
    decreases text.len(),
{
    if text.len() > 0 {
        let (words, open_word) = scanned(text.drop_last());
        lemma_scanned_not_empty(text.drop_last());
        assert forall|i: int| 0 <= i < scanned(text).0.len() implies (
        #[trigger] scanned(text).0[i]).len() > 0 by {
            if i < words.len() {
                assert(scanned(text).0[i] == words[i]);
            }
        }
    }
}

/// No word is empty.
pub proof fn words_not_empty(text: Seq<char>)
    ensures
        forall|i: int| 0 <= i < words(text).len() ==> (#[trigger] words(text)[i]).len() > 0,
{
    lemma_scanned_not_empty(text);
}

/// Breaks a text into lines, greedily. Only the last allowed line, and a word that is too wide
/// for a line of its own, are shortened.
pub fn wrap_lines<F: Fn(&str, u32, bool) -> i32>(
    measure: &F,
    size: u32,
    bold: bool,
    text: &str,
    max_width: i32,
    max_lines: usize,
) -> (res: Vec<String>)
    requires
        steady(*measure),
    ensures
        texts(res@) == wrapped(ruler(*measure, size, bold), text@, max_width, max_lines as nat),
{
    let limit_lines: usize = if max_lines == 0 { 1 } else { max_lines };
    let tokens = tokenize(text);
    let mut lines: Vec<String> = Vec::new();
    if tokens.len() == 0 {
        lines.push(String::new());
        proof {
            assert(texts(lines@) =~= seq![Seq::<char>::empty()]);
        }
        return lines;
    }
    let ghost width_of = ruler(*measure, size, bold);
    let ghost all = wrapped(width_of, text@, max_width, max_lines as nat);
    let ghost spelled = words(text@);
    let mut current = String::new();
    let mut index: usize = 0;
    proof {
        assert(texts(lines@) + wrapped_from(
            width_of,
            spelled,
            0,
            Seq::empty(),
            0,
            max_width,
            limit_lines as nat,
        ) =~= all);
        assert(current@ =~= Seq::<char>::empty());
        words_not_empty(text@);
    }
    while index < tokens.len()
        invariant
            steady(*measure),
            width_of == ruler(*measure, size, bold),
            spelled == words(text@),
            texts(tokens@) == spelled,
            all == wrapped(width_of, text@, max_width, max_lines as nat),
            limit_lines >= 1,
            lines@.len() + 1 <= limit_lines,
            index <= tokens@.len(),
            all == texts(lines@) + wrapped_from(
                width_of,
                spelled,
                index as int,
                current@,
                lines@.len(),
                max_width,
                limit_lines as nat,
            ),
        decreases tokens@.len() - index, current@.len(),
    {
        let ghost finished = lines@;
        let candidate = join_token(current.as_str(), tokens[index].as_str());
        proof {
            assert(tokens@[index as int]@ == spelled[index as int]);
        }
        if measure_text(measure, candidate.as_str(), size, bold) <= max_width {
            current = candidate;
            index += 1;
        } else if lines.len() + 1 == limit_lines {
            let rest = join_rest(current.as_str(), &tokens, index);
            lines.push(ellipsize(measure, size, bold, rest.as_str(), max_width));
            proof {
                assert(texts(lines@) =~= all);
            }
            return lines;
        } else if !current.as_str().is_empty() {
            lines.push(current);
            current = String::new();
            proof {
                assert(current@ =~= Seq::<char>::empty());
                assert(texts(lines@) + wrapped_from(
                    width_of,
                    spelled,
                    index as int,
                    Seq::empty(),
                    lines@.len(),
                    max_width,
                    limit_lines as nat,
                ) =~= all);
            }
        } else {
            lines.push(ellipsize(measure, size, bold, tokens[index].as_str(), max_width));
            proof {
                assert(current@ =~= Seq::<char>::empty());
                assert(texts(lines@) + wrapped_from(
                    width_of,
                    spelled,
                    index + 1,
                    Seq::empty(),
                    lines@.len(),
                    max_width,
                    limit_lines as nat,
                ) =~= all);
            }
            index += 1;
        }
    }
    let ghost finished = lines@;
    let ghost last = current@;
    if !current.as_str().is_empty() {
        lines.push(current);
    }
    proof {
        assert(texts(lines@) =~= all);
    }
    lines
}

/// How many lines a text takes, up to `cap`.
pub fn needed_lines<F: Fn(&str, u32, bool) -> i32>(
    measure: &F,
    size: u32,
    bold: bool,
    text: &str,
    max_width: i32,
    cap: usize,
) -> (res: usize)
    requires
        steady(*measure),
    ensures
        res == needed(ruler(*measure, size, bold), text@, max_width, cap as nat),
{
    let lines = wrap_lines(measure, size, bold, text, max_width, cap);
    proof {
        assert(texts(lines@).len() == lines@.len());
    }
    if lines.len() < 1 {
        1
    } else {
        lines.len()
    }
}

/// How many lines a text takes, up to `cap`, and at least one.
pub open spec fn needed(
    width_of: spec_fn(Seq<char>) -> i32,
    text: Seq<char>,
    limit: i32,
    cap: nat,
) -> nat {
    let n = wrapped(width_of, text, limit, cap).len();
    if n < 1 {
        1
    } else {
        n
    }
}

} // verus!
