//! Which characters of a text are drawn, and with which font.
use vstd::prelude::*;

use crate::render::wrap::{format_char, is_format_char};
use crate::text;

verus! {

/// The fonts.
#[derive(Clone, Copy, Debug, PartialEq, Eq, Structural)]
pub enum Face {
    Regular,
    Bold,
    Emoji,
}

/// The font for a character: the bold one if that is wanted and has it, or else the regular one,
/// and the one with the emoji for what that has not either.
pub fn pick(bold: bool, in_bold: bool, in_regular: bool) -> (res: Face)
    ensures
        res == if bold && in_bold {
            Face::Bold
        } else if in_regular {
            Face::Regular
        } else {
            Face::Emoji
        },
{
    if bold && in_bold {
        Face::Bold
    } else if in_regular {
        Face::Regular
    } else {
        Face::Emoji
    }
}

/// The characters of a text that are drawn: all but those that only say how others look.
pub open spec fn visible(text: Seq<char>) -> Seq<char>
    decreases text.len(),
{
    if text.len() == 0 {
        Seq::empty()
    } else if format_char(text.last()) {
        visible(text.drop_last())
    } else {
        visible(text.drop_last()).push(text.last())
    }
}

/// The characters of a text that are drawn.
pub fn visible_chars(text: &str) -> (res: Vec<char>)
    ensures
        res@ == visible(text@),
{
    let chars = text::chars_of(text);
    let mut res: Vec<char> = Vec::new();
    let mut i: usize = 0;
    while i < chars.len()
        invariant
            chars@ == text@,
            i <= chars@.len(),
            res@ == visible(text@.take(i as int)),
        decreases chars@.len() - i,
    {
        let c = chars[i];
        proof {
            assert(text@.take(i + 1).drop_last() =~= text@.take(i as int));
            assert(text@.take(i + 1).last() == c);
        }
        if !is_format_char(c) {
            res.push(c);
        }
        i += 1;
    }
    proof {
        assert(text@.take(i as int) =~= text@);
    }
    res
}

} // verus!
