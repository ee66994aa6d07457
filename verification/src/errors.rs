//! The ways in which building or fitting a text box can fail.

use vstd::prelude::*;

verus! {

/// Why a token is not a decimal integer of the width asked for.
#[derive(Debug, Clone, Copy, PartialEq, Eq, Structural)]
pub enum IntParseFailure {
    /// The token holds no digit.
    Empty,
    /// The token holds a character that is no digit.
    InvalidDigit,
    /// The digits stand for a number above the largest of the type.
    PosOverflow,
    /// The digits stand for a number below the smallest of the type.
    NegOverflow,
    /// The token stands for zero where zero is not admitted.
    Zero,
}

/// Errors of the layout engine and of the values it is configured with.
#[derive(Debug, Clone, PartialEq, Eq)]
pub enum SvgTextBoxError {
    /// No valid widths were given.
    NoValidWidths,
    /// No valid heights were given.
    NoValidHeights,
    /// No valid font sizes were given.
    NoValidFontSizes,
    /// No admissible box and font size holds the text.
    CouldNotFit,
    /// A value that was expected to be there was not.
    UnexpectedNone,
    /// An alignment was named that does not exist.
    InvalidAlignment,
    /// Rendered bytes were not UTF-8.
    Utf8Error,
    /// Bytes handed over as a string were not UTF-8.
    FromUtf8Error,
    /// The markup holds nothing but whitespace.
    PCSWhitespace,
    /// The markup holds a character that the shaping backend cannot take.
    BadChar(String),
    /// The shaping backend refused the markup on a trial parse.
    GlibErr(String),
    /// A text box came without markup.
    MissingMarkup,
    /// A number could not be read.
    BadIntParse(IntParseFailure),
    /// A string held an interior NUL.
    NulError,
    /// The rendering surface failed.
    CairoError,
    /// The rendered stream was of an unexpected type.
    Any,
    /// A namespace could not be registered.
    NSError,
    /// Text boxes were nested in one another.
    StackedTextboxes,
    /// The document could not be read or changed.
    Xml,
    /// A set of lengths or sizes is empty or holds zero, or the ends of a
    /// range are out of order, or its step is zero.
    InvalidUnits,
}

/// Errors in the attributes that describe a text box.
#[derive(Debug, Clone, PartialEq, Eq)]
pub enum LayoutError {
    /// The smallest font size asked for is above the largest.
    BadFontRange,
    /// A font family was given that holds nothing but whitespace.
    BadFontFamily,
    /// A word names no value of a font property or alignment.
    CouldNotTransformStrToPangoEnum { msg: String },
    /// A list of lengths held something that is no positive integer.
    IntsFromString { msg: String },
    /// Width or height is missing or invalid.
    BadDistanceValues { msg: String },
    /// A number could not be read.
    BadIntParse(IntParseFailure),
    /// The markup is empty, too long, malformed or holds a forbidden character.
    BadMarkup,
}


/// An error in the attributes that describe a text box, with its message
/// as a text.
pub enum LayoutFault {
    BadFontRange,
    BadFontFamily,
    CouldNotTransformStrToPangoEnum { msg: Seq<char> },
    IntsFromString { msg: Seq<char> },
    BadDistanceValues { msg: Seq<char> },
    BadIntParse(IntParseFailure),
    BadMarkup,
}

impl View for LayoutError {
    type V = LayoutFault;

    open spec fn view(&self) -> LayoutFault {
        match self {
            LayoutError::BadFontRange => LayoutFault::BadFontRange,
            LayoutError::BadFontFamily => LayoutFault::BadFontFamily,
            LayoutError::CouldNotTransformStrToPangoEnum { msg } => LayoutFault::CouldNotTransformStrToPangoEnum {
                msg: msg@,
            },
            LayoutError::IntsFromString { msg } => LayoutFault::IntsFromString { msg: msg@ },
            LayoutError::BadDistanceValues { msg } => LayoutFault::BadDistanceValues { msg: msg@ },
            LayoutError::BadIntParse(kind) => LayoutFault::BadIntParse(*kind),
            LayoutError::BadMarkup => LayoutFault::BadMarkup,
        }
    }
}

} // verus!
