//! Plain values that stand for what the shaping backend is configured with.

use vstd::prelude::*;
use crate::enum_matches::{Stretch, Style, Variant, Weight};
use crate::errors::SvgTextBoxError;
use crate::text::{chars_of, contains_char, lowercase, str_eq, to_lowercase};

verus! {

/// The number of backend units in one point.
pub const SCALE: i32 = 1024;

/// How the lines of a text are placed between the sides of its box.
#[derive(Debug, Clone, Copy, PartialEq, Eq, Structural)]
pub enum Alignment {
    Left,
    Center,
    Right,
}

/// A description of a font: a textual description for the backend to read,
/// and properties that, where set, take precedence over it.
#[derive(Debug, Clone, PartialEq, Eq)]
pub struct FontDescription {
    /// The description as text, such as `Sans 10`; empty for the default font.
    pub text: String,
    /// The font family.
    pub family: Option<String>,
    /// The slant.
    pub style: Option<Style>,
    /// Small capitals or not.
    pub variant: Option<Variant>,
    /// The weight.
    pub weight: Option<Weight>,
    /// The width of the letters.
    pub stretch: Option<Stretch>,
    /// The size in scaled points.
    pub size: Option<i32>,
}


/// A description of a font, with its texts as sequences of characters.
pub struct FontDescriptionView {
    pub text: Seq<char>,
    pub family: Option<Seq<char>>,
    pub style: Option<Style>,
    pub variant: Option<Variant>,
    pub weight: Option<Weight>,
    pub stretch: Option<Stretch>,
    pub size: Option<i32>,
}

impl View for FontDescription {
    type V = FontDescriptionView;

    open spec fn view(&self) -> FontDescriptionView {
        FontDescriptionView {
            text: self.text@,
            family: match self.family {
                Some(family) => Some(family@),
                None => None,
            },
            style: self.style,
            variant: self.variant,
            weight: self.weight,
            stretch: self.stretch,
            size: self.size,
        }
    }
}

impl FontDescription {
    /// The default font: no description and nothing set.
    pub fn new() -> (r: FontDescription)
        ensures
            r.text@.len() == 0,
            r.family is None,
            r.style is None,
            r.variant is None,
            r.weight is None,
            r.stretch is None,
            r.size is None,
    {
        FontDescription {
            text: String::new(),
            family: None,
            style: None,
            variant: None,
            weight: None,
            stretch: None,
            size: None,
        }
    }

    /// The font that the backend reads from the description `s`.
    pub fn from_string(s: &str) -> (r: FontDescription)
        ensures
            r.text@ == s@,
            r.family is None,
            r.style is None,
            r.variant is None,
            r.weight is None,
            r.stretch is None,
            r.size is None,
    {
        FontDescription {
            text: s.to_owned(),
            family: None,
            style: None,
            variant: None,
            weight: None,
            stretch: None,
            size: None,
        }
    }
}

/// An alignment that can be read from and written as a word.
#[derive(Debug, Clone, Copy, PartialEq, Eq, Structural)]
pub struct AlignmentWrapper(pub Alignment);

/// A font description that can be read from and written as a text.
#[derive(Debug, Clone, PartialEq, Eq)]
pub struct FontDescriptionWrapper(pub FontDescription);

/// The alignment that a word in lower case names.
pub open spec fn alignment_named(word: Seq<char>) -> Option<Alignment> {
    if word == "left"@ {
        Some(Alignment::Left)
    } else if word == "centre"@ || word == "center"@ {
        Some(Alignment::Center)
    } else if word == "right"@ {
        Some(Alignment::Right)
    } else {
        None
    }
}

/// The alignment that a word in lower case names.
pub fn alignment_from_word(word: &str) -> (r: Option<Alignment>)
    ensures
        r == alignment_named(word@),
{
    if str_eq(word, "left") {
        Some(Alignment::Left)
    } else if str_eq(word, "centre") || str_eq(word, "center") {
        Some(Alignment::Center)
    } else if str_eq(word, "right") {
        Some(Alignment::Right)
    } else {
        None
    }
}

impl AlignmentWrapper {
    /// The alignment that `s` names, whatever the case of its letters.
    pub fn parse(s: &str) -> (r: Result<AlignmentWrapper, SvgTextBoxError>)
        ensures
            match r {
                Ok(wrapper) => alignment_named(lowercase(s@)) == Some(wrapper.0),
                Err(e) => alignment_named(lowercase(s@)) is None && e == SvgTextBoxError::InvalidAlignment,
            },
    {
        let lower = to_lowercase(s);
        match alignment_from_word(lower.as_str()) {
            Some(alignment) => Ok(AlignmentWrapper(alignment)),
            None => Err(SvgTextBoxError::InvalidAlignment),
        }
    }

    /// The word for the alignment.
    pub fn to_string(&self) -> (s: String)
        ensures
            s@ == match self.0 {
                Alignment::Center => "center"@,
                Alignment::Left => "left"@,
                Alignment::Right => "right"@,
            },
            alignment_named(s@) == Some(self.0),
    {
        proof {
            reveal_strlit("center");
            reveal_strlit("centre");
            reveal_strlit("left");
            reveal_strlit("right");
            assert("center"@.len() == 6 && "left"@.len() == 4 && "right"@.len() == 5);
            assert("centre"@.len() == 6);
            assert("right"@[0] == 'r' && "left"@[0] == 'l' && "center"@[0] == 'c');
        }
        match self.0 {
            Alignment::Center => "center".to_owned(),
            Alignment::Left => "left".to_owned(),
            Alignment::Right => "right".to_owned(),
        }
    }
}

impl Default for AlignmentWrapper {
    /// Centred.
    fn default() -> (r: AlignmentWrapper)
        ensures
            r.0 == Alignment::Center,
    {
        AlignmentWrapper(Alignment::Center)
    }
}

impl std::str::FromStr for AlignmentWrapper {
    type Err = SvgTextBoxError;

    /// The alignment that `s` names, whatever the case of its letters.
    fn from_str(s: &str) -> (r: Result<Self, Self::Err>)
        ensures
            match r {
                Ok(wrapper) => alignment_named(lowercase(s@)) == Some(wrapper.0),
                Err(e) => alignment_named(lowercase(s@)) is None && e == SvgTextBoxError::InvalidAlignment,
            },
    {
        AlignmentWrapper::parse(s)
    }
}

impl FontDescriptionWrapper {
    /// The font that `s` describes. A description that holds a NUL cannot
    /// be handed to the backend and is refused.
    pub fn parse(s: &str) -> (r: Result<FontDescriptionWrapper, SvgTextBoxError>)
        ensures
            match r {
                Ok(wrapper) => !s@.contains('\0') && wrapper.0.text@ == s@ && wrapper.0.size is None,
                Err(e) => s@.contains('\0') && e == SvgTextBoxError::NulError,
            },
    {
        let chars = chars_of(s);
        if contains_char(&chars, '\0') {
            return Err(SvgTextBoxError::NulError);
        }
        Ok(FontDescriptionWrapper(FontDescription::from_string(s)))
    }

    /// The description as text.
    pub fn to_string(&self) -> (s: String)
        ensures
            s@ == self.0.text@,
    {
        self.0.text.clone()
    }
}

impl Default for FontDescriptionWrapper {
    /// The default font.
    fn default() -> (r: FontDescriptionWrapper)
        ensures
            r.0.text@.len() == 0,
            r.0.size is None,
    {
        FontDescriptionWrapper(FontDescription::new())
    }
}

impl std::str::FromStr for FontDescriptionWrapper {
    type Err = SvgTextBoxError;

    /// The font that `s` describes; a description that holds a NUL is
    /// refused.
    fn from_str(s: &str) -> (r: Result<Self, Self::Err>)
        ensures
            match r {
                Ok(wrapper) => !s@.contains('\0') && wrapper.0.text@ == s@ && wrapper.0.size is None,
                Err(e) => s@.contains('\0') && e == SvgTextBoxError::NulError,
            },
    {
        FontDescriptionWrapper::parse(s)
    }
}

} // verus!
