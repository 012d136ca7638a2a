//! Drawing of status cards: what stands where.
use vstd::prelude::*;

pub mod art;
pub mod card;
pub mod fit;
pub mod glyph;
pub mod layout;
pub mod line_laws;
pub mod scene;
pub mod scene_laws;
pub mod single;
pub mod stroke_laws;
pub mod wrap;
pub mod wrap_laws;

verus! {

/// The width of a card in pixels.
pub const CARD_WIDTH: u32 = 1200;

/// The height of a card in pixels.
pub const CARD_HEIGHT: u32 = 528;

/// Why a card could not be made.
#[derive(Debug)]
pub enum RenderError {
    Font,
    Encode(String),
}

/// The size of a card and the quality of its encoding.
#[derive(Clone, Copy, Debug)]
pub struct RenderOptions {
    pub width: u32,
    pub height: u32,
    pub jpeg_quality: u8,
}

impl Default for RenderOptions {
    fn default() -> (res: Self)
        ensures
            res.width == CARD_WIDTH,
            res.height == CARD_HEIGHT,
            res.jpeg_quality == 90,
    {
        RenderOptions { width: CARD_WIDTH, height: CARD_HEIGHT, jpeg_quality: 90 }
    }
}

impl RenderError {
    /// How the failure is described.
    pub open spec fn description(self) -> Seq<char> {
        match self {
            RenderError::Font => "Invalid font data"@,
            RenderError::Encode(text) => "Failed to encode image: "@ + text@,
        }
    }

    /// How the failure is described.
    pub fn describe(&self) -> (res: String)
        ensures
            res@ == self.description(),
    {
        match self {
            RenderError::Font => "Invalid font data".to_owned(),
            RenderError::Encode(text) => {
                let mut res = "Failed to encode image: ".to_owned();
                res.append(text.as_str());
                res
            },
        }
    }
}

} // verus!
