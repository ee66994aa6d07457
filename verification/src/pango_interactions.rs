//! Markup and font descriptions that were checked before they reach the
//! backend.

use vstd::prelude::*;
use crate::enum_matches::{Style, Variant, Weight};
use crate::markup::{clean_markup, cleaned, takes_any_text, trial_answers, unfit, Unfit};
use crate::pango_wrappers::{Alignment, FontDescription};

verus! {

/// Why a text is no markup for the backend.
#[derive(Debug, Clone, PartialEq, Eq)]
pub enum PangoCompatibleStringError {
    /// The text holds nothing but whitespace.
    Whitespace,
    /// The text holds a NUL.
    BadChar { src: String },
    /// The backend refused the text on a trial parse.
    Reported { src: String },
}

/// Markup that the backend accepts: it holds no NUL, its isolated
/// ampersands are written as entities, and a trial parse went through.
#[derive(Debug, Clone, PartialEq, Eq)]
pub struct PangoCompatibleString(String);

impl PangoCompatibleString {
    /// The markup as text.
    pub closed spec fn view(&self) -> Seq<char> {
        self.0@
    }

    /// Checks `s` and makes it fit for the backend; `trial_parse` says
    /// whether the backend can parse what is handed to it.
    pub fn convert<F: Fn(&str) -> bool>(s: &str, trial_parse: F) -> (r: Result<
        PangoCompatibleString,
        PangoCompatibleStringError,
    >)
        requires
            takes_any_text(trial_parse),
        ensures
            match r {
                Ok(markup) => {
                    &&& unfit(s@) is None
                    &&& markup@ == cleaned(s@)
                    &&& trial_answers(trial_parse, cleaned(s@), true)
                },
                Err(PangoCompatibleStringError::Whitespace) => unfit(s@) == Some(Unfit::Whitespace),
                Err(PangoCompatibleStringError::BadChar { src }) => unfit(s@) == Some(Unfit::BadChar) && src@
                    == s@,
                Err(PangoCompatibleStringError::Reported { src }) => {
                    &&& unfit(s@) is None
                    &&& src@ == s@
                    &&& trial_answers(trial_parse, cleaned(s@), false)
                },
            },
    {
        match clean_markup(s) {
            Err(Unfit::Whitespace) => Err(PangoCompatibleStringError::Whitespace),
            Err(Unfit::BadChar) => Err(PangoCompatibleStringError::BadChar { src: s.to_owned() }),
            Ok(text) => {
                let handed: &str = text.as_str();
                let parsed = trial_parse(handed);
                assert(call_ensures(trial_parse, (handed,), parsed));
                PangoCompatibleString::from_trial(s, text, parsed)
            },
        }
    }

    /// The markup `text` that was made of `src`, where the backend parsed
    /// it on trial; else the report that it did not.
    pub fn from_trial(src: &str, text: String, parsed: bool) -> (r: Result<
        PangoCompatibleString,
        PangoCompatibleStringError,
    >)
        ensures
            match r {
                Ok(markup) => parsed && markup@ == text@,
                Err(e) => {
                    &&& !parsed
                    &&& e matches PangoCompatibleStringError::Reported { src: reported }
                    &&& reported@ == src@
                },
            },
    {
        if parsed {
            Ok(PangoCompatibleString(text))
        } else {
            Err(PangoCompatibleStringError::Reported { src: src.to_owned() })
        }
    }

    /// The markup as text.
    pub fn as_ref(&self) -> (s: &str)
        ensures
            s@ == self@,
    {
        self.0.as_str()
    }

    /// The markup as a string.
    pub fn to_string(&self) -> (s: String)
        ensures
            s@ == self@,
    {
        self.0.clone()
    }
}

/// A font description that was read from a checked text.
#[derive(Debug, Clone, PartialEq, Eq)]
pub struct FontDescriptionWrapper(FontDescription);

impl FontDescriptionWrapper {
    /// The description that is held.
    pub closed spec fn view(&self) -> FontDescription {
        self.0
    }

    /// The font that `s` describes, where `s` is fit to be handed to the
    /// backend.
    pub fn convert<F: Fn(&str) -> bool>(s: &str, trial_parse: F) -> (r: Result<
        FontDescriptionWrapper,
        PangoCompatibleStringError,
    >)
        requires
            takes_any_text(trial_parse),
        ensures
            match r {
                Ok(wrapper) => {
                    &&& unfit(s@) is None
                    &&& wrapper@.text@ == cleaned(s@)
                    &&& trial_answers(trial_parse, cleaned(s@), true)
                },
                Err(PangoCompatibleStringError::Whitespace) => unfit(s@) == Some(Unfit::Whitespace),
                Err(PangoCompatibleStringError::BadChar { src }) => unfit(s@) == Some(Unfit::BadChar) && src@
                    == s@,
                Err(PangoCompatibleStringError::Reported { src }) => {
                    &&& unfit(s@) is None
                    &&& src@ == s@
                    &&& trial_answers(trial_parse, cleaned(s@), false)
                },
            },
    {
        match PangoCompatibleString::convert(s, trial_parse) {
            Ok(text) => Ok(FontDescriptionWrapper(FontDescription::from_string(text.as_ref()))),
            Err(e) => Err(e),
        }
    }

    /// Sets the family, and hands out a copy of the description as it is
    /// then.
    pub fn set_family(&mut self, s: &str) -> (r: FontDescriptionWrapper)
        ensures
            final(self)@.family is Some,
            final(self)@.family->0@ == s@,
            final(self)@.text == old(self)@.text,
            final(self)@.style == old(self)@.style,
            final(self)@.variant == old(self)@.variant,
            final(self)@.weight == old(self)@.weight,
            final(self)@.stretch == old(self)@.stretch,
            final(self)@.size == old(self)@.size,
            r@.family is Some,
            r@.family->0@ == s@,
            r@.text@ == old(self)@.text@,
            r@.style == old(self)@.style,
            r@.variant == old(self)@.variant,
            r@.weight == old(self)@.weight,
            r@.stretch == old(self)@.stretch,
            r@.size == old(self)@.size,
    {
        self.0.family = Some(s.to_owned());
        self.copy()
    }

    /// Sets small capitals or not, and hands out a copy of the description
    /// as it is then.
    pub fn set_variant(&mut self, v: Variant) -> (r: FontDescriptionWrapper)
        ensures
            final(self)@ == (FontDescription { variant: Some(v), ..old(self)@ }),
            r@.variant == Some(v),
            r@.text@ == old(self)@.text@,
            r@.style == old(self)@.style,
            r@.weight == old(self)@.weight,
            r@.stretch == old(self)@.stretch,
            r@.size == old(self)@.size,
    {
        self.0.variant = Some(v);
        self.copy()
    }

    /// Sets the slant, and hands out a copy of the description as it is
    /// then.
    pub fn set_style(&mut self, s: Style) -> (r: FontDescriptionWrapper)
        ensures
            final(self)@ == (FontDescription { style: Some(s), ..old(self)@ }),
            r@.style == Some(s),
            r@.text@ == old(self)@.text@,
            r@.variant == old(self)@.variant,
            r@.weight == old(self)@.weight,
            r@.stretch == old(self)@.stretch,
            r@.size == old(self)@.size,
    {
        self.0.style = Some(s);
        self.copy()
    }

    /// Sets the weight, and hands out a copy of the description as it is
    /// then.
    pub fn set_weight(&mut self, w: Weight) -> (r: FontDescriptionWrapper)
        ensures
            final(self)@ == (FontDescription { weight: Some(w), ..old(self)@ }),
            r@.weight == Some(w),
            r@.text@ == old(self)@.text@,
            r@.style == old(self)@.style,
            r@.variant == old(self)@.variant,
            r@.stretch == old(self)@.stretch,
            r@.size == old(self)@.size,
    {
        self.0.weight = Some(w);
        self.copy()
    }

    /// A copy of the description.
    fn copy(&self) -> (r: FontDescriptionWrapper)
        ensures
            r@.text@ == self@.text@,
            r@.style == self@.style,
            r@.variant == self@.variant,
            r@.weight == self@.weight,
            r@.stretch == self@.stretch,
            r@.size == self@.size,
            match self@.family {
                Some(family) => r@.family is Some && r@.family->0@ == family@,
                None => r@.family is None,
            },
    {
        let family = match &self.0.family {
            Some(family) => Some(family.clone()),
            None => None,
        };
        FontDescriptionWrapper(
            FontDescription {
                text: self.0.text.clone(),
                family,
                style: self.0.style,
                variant: self.0.variant,
                weight: self.0.weight,
                stretch: self.0.stretch,
                size: self.0.size,
            },
        )
    }

    /// The description that is held.
    pub fn as_ref(&self) -> (r: &FontDescription)
        ensures
            *r == self@,
    {
        &self.0
    }

    /// The description as text.
    pub fn to_string(&self) -> (s: String)
        ensures
            s@ == self@.text@,
    {
        self.0.text.clone()
    }
}

impl Default for FontDescriptionWrapper {
    /// The default font.
    fn default() -> (r: FontDescriptionWrapper)
        ensures
            r@.text@.len() == 0,
    {
        FontDescriptionWrapper(FontDescription::new())
    }
}

/// The alignments as they are named in a configuration.
#[derive(Debug, Clone, Copy, PartialEq, Eq, Structural)]
pub enum PangoAlignmentDef {
    Left,
    Center,
    Right,
    __Unknown(i32),
}

impl PangoAlignmentDef {
    /// The alignment where none is named: centred.
    pub fn default() -> (r: Alignment)
        ensures
            r == Alignment::Center,
    {
        Alignment::Center
    }

    /// The alignment that is named; one that the backend does not know
    /// counts as centred.
    pub fn alignment(&self) -> (r: Alignment)
        ensures
            r == match *self {
                PangoAlignmentDef::Left => Alignment::Left,
                PangoAlignmentDef::Right => Alignment::Right,
                _ => Alignment::Center,
            },
    {
        match self {
            PangoAlignmentDef::Left => Alignment::Left,
            PangoAlignmentDef::Right => Alignment::Right,
            _ => Alignment::Center,
        }
    }
}

} // verus!
