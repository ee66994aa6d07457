//! The properties of a font, and the words that name their values.

use vstd::prelude::*;
use crate::errors::LayoutError;
use crate::text::str_eq;

verus! {

/// How heavy the strokes of a font are.
#[derive(Debug, Clone, Copy, PartialEq, Eq, Structural)]
pub enum Weight {
    Thin,
    Ultralight,
    Light,
    Semilight,
    Book,
    Normal,
    Medium,
    Semibold,
    Bold,
    Ultrabold,
    Heavy,
    Ultraheavy,
}

/// The slant of a font.
#[derive(Debug, Clone, Copy, PartialEq, Eq, Structural)]
pub enum Style {
    Normal,
    Oblique,
    Italic,
}

/// Whether lower-case letters are drawn as small capitals.
#[derive(Debug, Clone, Copy, PartialEq, Eq, Structural)]
pub enum Variant {
    Normal,
    SmallCaps,
}

/// How wide the letters of a font are.
#[derive(Debug, Clone, Copy, PartialEq, Eq, Structural)]
pub enum Stretch {
    UltraCondensed,
    ExtraCondensed,
    Condensed,
    SemiCondensed,
    Normal,
    SemiExpanded,
    Expanded,
    ExtraExpanded,
    UltraExpanded,
}


/// A property of a font whose values have names.
pub trait PangoEnumMatch: Sized {
    /// The value that a word names, if it names one.
    spec fn named(s: Seq<char>) -> Option<Self>;

    /// The value that `s` names; an error that holds `s` where it names
    /// none.
    fn from_str(s: &str) -> (r: Result<Self, LayoutError>)
        ensures
            match r {
                Ok(value) => Self::named(s@) == Some(value),
                Err(e) => {
                    &&& Self::named(s@) is None
                    &&& e matches LayoutError::CouldNotTransformStrToPangoEnum { msg }
                    &&& msg@ == s@
                },
            },
    ;
}

impl PangoEnumMatch for Weight {
    /// A weight is named by a number of hundreds or by a word.
    open spec fn named(s: Seq<char>) -> Option<Weight> {
        if s == "100"@ {
            Some(Weight::Thin)
        } else if s == "thin"@ {
            Some(Weight::Thin)
        } else if s == "hairline"@ {
            Some(Weight::Thin)
        } else if s == "200"@ {
            Some(Weight::Ultralight)
        } else if s == "ultralight"@ {
            Some(Weight::Ultralight)
        } else if s == "extralight"@ {
            Some(Weight::Ultralight)
        } else if s == "300"@ {
            Some(Weight::Light)
        } else if s == "light"@ {
            Some(Weight::Light)
        } else if s == "350"@ {
            Some(Weight::Semilight)
        } else if s == "semilight"@ {
            Some(Weight::Semilight)
        } else if s == "380"@ {
            Some(Weight::Book)
        } else if s == "book"@ {
            Some(Weight::Book)
        } else if s == "400"@ {
            Some(Weight::Normal)
        } else if s == "normal"@ {
            Some(Weight::Normal)
        } else if s == "500"@ {
            Some(Weight::Medium)
        } else if s == "medium"@ {
            Some(Weight::Medium)
        } else if s == "600"@ {
            Some(Weight::Semibold)
        } else if s == "semibold"@ {
            Some(Weight::Semibold)
        } else if s == "demibold"@ {
            Some(Weight::Semibold)
        } else if s == "700"@ {
            Some(Weight::Bold)
        } else if s == "bold"@ {
            Some(Weight::Bold)
        } else if s == "800"@ {
            Some(Weight::Ultrabold)
        } else if s == "ultrabold"@ {
            Some(Weight::Ultrabold)
        } else if s == "extrabold"@ {
            Some(Weight::Ultrabold)
        } else if s == "900"@ {
            Some(Weight::Heavy)
        } else if s == "black"@ {
            Some(Weight::Heavy)
        } else if s == "heavy"@ {
            Some(Weight::Heavy)
        } else if s == "1000"@ {
            Some(Weight::Ultraheavy)
        } else if s == "ultraheavy"@ {
            Some(Weight::Ultraheavy)
        } else {
            None
        }
    }

    fn from_str(s: &str) -> (r: Result<Weight, LayoutError>) {
        if str_eq(s, "100") {
            Ok(Weight::Thin)
        } else if str_eq(s, "thin") {
            Ok(Weight::Thin)
        } else if str_eq(s, "hairline") {
            Ok(Weight::Thin)
        } else if str_eq(s, "200") {
            Ok(Weight::Ultralight)
        } else if str_eq(s, "ultralight") {
            Ok(Weight::Ultralight)
        } else if str_eq(s, "extralight") {
            Ok(Weight::Ultralight)
        } else if str_eq(s, "300") {
            Ok(Weight::Light)
        } else if str_eq(s, "light") {
            Ok(Weight::Light)
        } else if str_eq(s, "350") {
            Ok(Weight::Semilight)
        } else if str_eq(s, "semilight") {
            Ok(Weight::Semilight)
        } else if str_eq(s, "380") {
            Ok(Weight::Book)
        } else if str_eq(s, "book") {
            Ok(Weight::Book)
        } else if str_eq(s, "400") {
            Ok(Weight::Normal)
        } else if str_eq(s, "normal") {
            Ok(Weight::Normal)
        } else if str_eq(s, "500") {
            Ok(Weight::Medium)
        } else if str_eq(s, "medium") {
            Ok(Weight::Medium)
        } else if str_eq(s, "600") {
            Ok(Weight::Semibold)
        } else if str_eq(s, "semibold") {
            Ok(Weight::Semibold)
        } else if str_eq(s, "demibold") {
            Ok(Weight::Semibold)
        } else if str_eq(s, "700") {
            Ok(Weight::Bold)
        } else if str_eq(s, "bold") {
            Ok(Weight::Bold)
        } else if str_eq(s, "800") {
            Ok(Weight::Ultrabold)
        } else if str_eq(s, "ultrabold") {
            Ok(Weight::Ultrabold)
        } else if str_eq(s, "extrabold") {
            Ok(Weight::Ultrabold)
        } else if str_eq(s, "900") {
            Ok(Weight::Heavy)
        } else if str_eq(s, "black") {
            Ok(Weight::Heavy)
        } else if str_eq(s, "heavy") {
            Ok(Weight::Heavy)
        } else if str_eq(s, "1000") {
            Ok(Weight::Ultraheavy)
        } else if str_eq(s, "ultraheavy") {
            Ok(Weight::Ultraheavy)
        } else {
            Err(LayoutError::CouldNotTransformStrToPangoEnum { msg: s.to_owned() })
        }
    }
}

impl PangoEnumMatch for Style {
    /// The names of the slants.
    open spec fn named(s: Seq<char>) -> Option<Style> {
        if s == "oblique"@ {
            Some(Style::Oblique)
        } else if s == "italic"@ {
            Some(Style::Italic)
        } else if s == "normal"@ {
            Some(Style::Normal)
        } else {
            None
        }
    }

    fn from_str(s: &str) -> (r: Result<Style, LayoutError>) {
        if str_eq(s, "oblique") {
            Ok(Style::Oblique)
        } else if str_eq(s, "italic") {
            Ok(Style::Italic)
        } else if str_eq(s, "normal") {
            Ok(Style::Normal)
        } else {
            Err(LayoutError::CouldNotTransformStrToPangoEnum { msg: s.to_owned() })
        }
    }
}

impl PangoEnumMatch for Variant {
    /// The names of the variants.
    open spec fn named(s: Seq<char>) -> Option<Variant> {
        if s == "smallcaps"@ {
            Some(Variant::SmallCaps)
        } else if s == "normal"@ {
            Some(Variant::Normal)
        } else {
            None
        }
    }

    fn from_str(s: &str) -> (r: Result<Variant, LayoutError>) {
        if str_eq(s, "smallcaps") {
            Ok(Variant::SmallCaps)
        } else if str_eq(s, "normal") {
            Ok(Variant::Normal)
        } else {
            Err(LayoutError::CouldNotTransformStrToPangoEnum { msg: s.to_owned() })
        }
    }
}

impl PangoEnumMatch for Stretch {
    /// The names of the widths.
    open spec fn named(s: Seq<char>) -> Option<Stretch> {
        if s == "ultracondensed"@ {
            Some(Stretch::UltraCondensed)
        } else if s == "extracondensed"@ {
            Some(Stretch::ExtraCondensed)
        } else if s == "condensed"@ {
            Some(Stretch::Condensed)
        } else if s == "semicondensed"@ {
            Some(Stretch::SemiCondensed)
        } else if s == "normal"@ {
            Some(Stretch::Normal)
        } else if s == "semiexpanded"@ {
            Some(Stretch::SemiExpanded)
        } else if s == "expanded"@ {
            Some(Stretch::Expanded)
        } else if s == "extraexpanded"@ {
            Some(Stretch::ExtraExpanded)
        } else if s == "ultraexpanded"@ {
            Some(Stretch::UltraExpanded)
        } else {
            None
        }
    }

    fn from_str(s: &str) -> (r: Result<Stretch, LayoutError>) {
        if str_eq(s, "ultracondensed") {
            Ok(Stretch::UltraCondensed)
        } else if str_eq(s, "extracondensed") {
            Ok(Stretch::ExtraCondensed)
        } else if str_eq(s, "condensed") {
            Ok(Stretch::Condensed)
        } else if str_eq(s, "semicondensed") {
            Ok(Stretch::SemiCondensed)
        } else if str_eq(s, "normal") {
            Ok(Stretch::Normal)
        } else if str_eq(s, "semiexpanded") {
            Ok(Stretch::SemiExpanded)
        } else if str_eq(s, "expanded") {
            Ok(Stretch::Expanded)
        } else if str_eq(s, "extraexpanded") {
            Ok(Stretch::ExtraExpanded)
        } else if str_eq(s, "ultraexpanded") {
            Ok(Stretch::UltraExpanded)
        } else {
            Err(LayoutError::CouldNotTransformStrToPangoEnum { msg: s.to_owned() })
        }
    }
}

} // verus!
