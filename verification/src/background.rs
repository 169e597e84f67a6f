use vstd::prelude::*;

verus! {

/// The background that replaces the area around the person in a portrait.
#[derive(Clone, Copy, Debug, PartialEq, Eq, Structural)]
pub enum Background {
    Original,
    White,
    LightGray,
    LightBlue,
    Custom,
}

/// The colour a background choice paints with; `None` keeps the photo's own backdrop.
pub open spec fn background_color(choice: Background, custom: [u8; 3]) -> Option<Seq<u8>> {
    match choice {
        Background::Original => None,
        Background::White => Some(seq![255u8, 255u8, 255u8]),
        Background::LightGray => Some(seq![232u8, 234u8, 237u8]),
        Background::LightBlue => Some(seq![200u8, 225u8, 245u8]),
        Background::Custom => Some(custom@),
    }
}

impl Background {
    /// The fill colour of this choice, with `custom` used for the custom choice.
    pub fn color(self, custom: [u8; 3]) -> (result: Option<[u8; 3]>)
        ensures
            result is None <==> background_color(self, custom) is None,
            result matches Some(c) ==> Some(c@) == background_color(self, custom),
    {
        match self {
            Background::Original => None,
            Background::White => Some([255, 255, 255]),
            Background::LightGray => Some([232, 234, 237]),
            Background::LightBlue => Some([200, 225, 245]),
            Background::Custom => Some(custom),
        }
    }
}

} // verus!
