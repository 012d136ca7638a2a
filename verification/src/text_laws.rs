//! What holds of texts that are trimmed, searched, written and read.
use vstd::prelude::*;

use crate::text::{
    all_digits, contains_text, decimal, decimal_digits, decimal_int, digits_value, parsed_u64, trimmed,
    trimmed_end, trimmed_start, white_space,
};

verus! {

/// Whether a text is nothing but white space.
pub open spec fn blank(text: Seq<char>) -> bool {
    forall|i: int| 0 <= i < text.len() ==> white_space(#[trigger] text[i])
}

proof fn lemma_trimmed_start(text: Seq<char>) -> (k: int)
    ensures
        0 <= k <= text.len(),
        blank(text.take(k)),
        trimmed_start(text) == text.skip(k),
        k < text.len() ==> !white_space(text[k]),
    decreases text.len(),
{
    if text.len() > 0 && white_space(text[0]) {
        let k = lemma_trimmed_start(text.drop_first());
        assert(text.drop_first().skip(k) =~= text.skip(k + 1));
        assert forall|i: int| 0 <= i < k + 1 implies white_space(#[trigger] text.take(k + 1)[i]) by {
            if i > 0 {
                assert(text.drop_first().take(k)[i - 1] == text[i]);
            }
        }
        k + 1
    } else {
        assert(text.skip(0) =~= text);
        0
    }
}

proof fn lemma_trimmed_end(text: Seq<char>) -> (k: int)
    ensures
        0 <= k <= text.len(),
        blank(text.skip(k)),
        trimmed_end(text) == text.take(k),
        k > 0 ==> !white_space(text[k - 1]),
    decreases text.len(),
{
    if text.len() > 0 && white_space(text.last()) {
        let k = lemma_trimmed_end(text.drop_last());
        assert(text.drop_last().take(k) =~= text.take(k));
        assert forall|i: int| 0 <= i < text.skip(k).len() implies white_space(
            #[trigger] text.skip(k)[i],
        ) by {
            if i + k < text.len() - 1 {
                assert(text.drop_last().skip(k)[i] == text[i + k]);
            }
        }
        k
    } else {
        assert(text.take(text.len() as int) =~= text);
        text.len() as int
    }
}

/// Trimming takes white space away at both ends and nothing else: what is left neither begins nor
/// ends with any, and stands in the text with only white space around it.
pub proof fn trimming_takes_white_space_only(text: Seq<char>)
    ensures
        trimmed(text).len() > 0 ==> !white_space(trimmed(text)[0]) && !white_space(
            trimmed(text).last(),
        ),
        exists|before: Seq<char>, after: Seq<char>|
            blank(before) && blank(after) && text == #[trigger] (before + trimmed(text) + after),
{
    let k = lemma_trimmed_start(text);
    let rest = trimmed_start(text);
    let n = lemma_trimmed_end(rest);
    let before = text.take(k);
    let after = rest.skip(n);
    assert(text =~= before + trimmed(text) + after);
    assert(blank(before) && blank(after) && text == before + trimmed(text) + after);
}

/// A text is found in every text that holds it, and whatever text it is found in holds it.
pub proof fn found_where_it_stands(
    before: Seq<char>,
    part: Seq<char>,
    after: Seq<char>,
    whole: Seq<char>,
)
    ensures
        contains_text(before + part + after, part),
        contains_text(whole, part) ==> exists|left: Seq<char>, right: Seq<char>|
            whole == #[trigger] (left + part + right),
{
    let text = before + part + after;
    assert(text.subrange(before.len() as int, before.len() as int + part.len()) =~= part);
    if contains_text(whole, part) {
        let i = choose|i: int|
            0 <= i <= whole.len() - part.len() && #[trigger] whole.subrange(i, i + part.len())
                == part;
        let left = whole.take(i);
        let right = whole.skip(i + part.len());
        assert(whole =~= left + part + right);
    }
}

/// The decimal notation of a number is made of digits, does not begin with a zero unless it is one,
/// and differs from that of every other number.
pub proof fn decimals_are_canonical(n: nat, m: nat)
    ensures
        all_digits(decimal(n)),
        decimal(n).len() > 0,
        n > 0 ==> decimal(n)[0] != '0',
        decimal(n) == decimal(m) ==> n == m,
    decreases n,
{
    decimal_digits(n);
    decimal_digits(m);
    if n >= 10 {
        decimals_are_canonical(n / 10, m);
        assert(decimal(n)[0] == decimal(n / 10)[0]);
    }
}

/// A negative number is its opposite behind a minus sign.
pub proof fn negatives_have_a_minus_sign(n: int)
    requires
        n > 0,
    ensures
        decimal_int(-n) == seq!['-'] + decimal_int(n),
{
}

/// What is read as a number is made of digits, with a plus sign at most in front, and zeros in front
/// of it do not matter.
pub proof fn numbers_are_digits(text: Seq<char>)
    ensures
        parsed_u64(text) is Some ==> text.len() > 0 && forall|i: int|
            0 <= i < text.len() ==> '0' <= #[trigger] text[i] <= '9' || (i == 0 && text[i] == '+'),
        text.len() > 0 && text[0] != '+' ==> parsed_u64(seq!['0'] + text) == parsed_u64(text)
            && parsed_u64(seq!['+'] + text) == parsed_u64(text),
{
    let unsigned = crate::text::unsigned_part(text);
    if parsed_u64(text) is Some {
        assert forall|i: int| 0 <= i < text.len() implies '0' <= #[trigger] text[i] <= '9' || (i == 0
            && text[i] == '+') by {
            if text[0] == '+' {
                if i > 0 {
                    assert(unsigned[i - 1] == text[i]);
                }
            } else {
                assert(unsigned[i] == text[i]);
            }
        }
    }
    if text.len() > 0 && text[0] != '+' {
        let zero = seq!['0'] + text;
        let plus = seq!['+'] + text;
        assert(plus.drop_first() =~= text);
        lemma_leading_zero(text);
        if all_digits(text) {
            assert(all_digits(zero));
        }
        if all_digits(zero) {
            assert forall|i: int| 0 <= i < text.len() implies '0' <= #[trigger] text[i] <= '9' by {
                assert(zero[i + 1] == text[i]);
            }
        }
    }
}

proof fn lemma_leading_zero(text: Seq<char>)
    ensures
        digits_value(seq!['0'] + text) == digits_value(text),
    decreases text.len(),
{
    let zero = seq!['0'] + text;
    if text.len() == 0 {
        reveal_with_fuel(digits_value, 2);
        assert(zero =~= seq!['0']);
        assert(zero.drop_last() =~= Seq::empty());
    } else {
        lemma_leading_zero(text.drop_last());
        assert(zero.drop_last() =~= seq!['0'] + text.drop_last());
        assert(zero.last() == text.last());
    }
}

} // verus!
