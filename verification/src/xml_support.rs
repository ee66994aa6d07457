//! Text boxes within a larger image: each is read from an element with its
//! attributes and replaced by an element that holds its image.

use vstd::prelude::*;
use crate::errors::SvgTextBoxError;
use crate::markup::takes_any_text;
use crate::attributes::pairs_of;
use crate::text::{decimal_digits, integer_digits, push_decimal, push_integer, str_eq, string_of};
use crate::xml_fetcher::{describes, get_textbox, refuses, with_markup, TextBoxToRender};

verus! {

/// The text `text` in base64, with the standard alphabet and padding.
pub uninterp spec fn base64_of(text: Seq<char>) -> Seq<char>;

/// `base64::encode` of the crate `base64`: the bytes of `text` in base64.
/// The contract gives the result a name and claims no more than that it
/// depends on the text alone.
#[verifier::external_body]
pub(crate) fn base64_encode(text: &str) -> (r: String)
    ensures
        r@ == base64_of(text@),
{
    base64::encode(text)
}

/// What an image in base64 is referred to by.
pub open spec fn data_uri_of(encoded: Seq<char>) -> Seq<char> {
    "data:image/svg+xml;base64, "@ + encoded
}

/// The reference to an image that is given in base64.
pub fn data_uri(encoded: &str) -> (r: String)
    ensures
        r@ == data_uri_of(encoded@),
{
    "data:image/svg+xml;base64, ".to_owned().concat(encoded)
}

/// The reference that holds the image `image` itself.
pub fn image_href(image: &str) -> (r: String)
    ensures
        r@ == data_uri_of(base64_of(image@)),
{
    let encoded = base64_encode(image);
    data_uri(encoded.as_str())
}

/// A text box that was turned into an image, with its place.
#[derive(Debug, Clone, PartialEq, Eq)]
pub struct ConvertedTextBox {
    pub prefix: String,
    pub image: String,
    pub x: u16,
    pub y: u16,
    pub width: i32,
    pub height: i32,
}

/// The attributes of the element that holds the image of a text box.
#[derive(Debug, Clone, PartialEq, Eq)]
pub struct ImageElement {
    pub x: String,
    pub y: String,
    pub width: String,
    pub height: String,
    pub href: String,
}

/// What becomes of the element of a text box.
#[derive(Debug, Clone, PartialEq, Eq)]
pub enum Replacement {
    /// An image is put in its place.
    Image(ImageElement),
    /// It is taken out.
    Remove,
}

/// The markup of an element without content.
pub open spec fn empty_markup() -> Seq<char> {
    "<markup/>"@
}

/// The text box that an element describes: `markup` is its first child,
/// written out, and `attributes` are its attributes. An element without a
/// child, or whose child is empty, has no markup.
pub fn convert_textbox_src<F: Fn(&str) -> bool>(
    markup: Option<String>,
    attributes: Vec<(String, String)>,
    trial_parse: F,
) -> (r: Result<TextBoxToRender, SvgTextBoxError>)
    requires
        takes_any_text(trial_parse),
    ensures
        match markup {
            None => r == Err::<TextBoxToRender, SvgTextBoxError>(SvgTextBoxError::MissingMarkup),
            Some(text) => if text@ == empty_markup() {
                r == Err::<TextBoxToRender, SvgTextBoxError>(SvgTextBoxError::MissingMarkup)
            } else {
                match r {
                    Ok(request) => describes(with_markup(text@, pairs_of(attributes@)), trial_parse, request),
                    Err(e) => refuses(with_markup(text@, pairs_of(attributes@)), trial_parse, e),
                }
            },
        },
{
    let text = match markup {
        Some(text) => text,
        None => {
            return Err(SvgTextBoxError::MissingMarkup);
        },
    };
    if str_eq(text.as_str(), "<markup/>") {
        return Err(SvgTextBoxError::MissingMarkup);
    }
    get_textbox(text.as_str(), attributes, trial_parse)
}

/// The element that holds the image of a text box: its place and size as
/// numbers, and a reference that holds the image itself.
pub fn image_element(converted: &ConvertedTextBox) -> (r: ImageElement)
    ensures
        r.x@ == decimal_digits(converted.x as nat),
        r.y@ == decimal_digits(converted.y as nat),
        r.width@ == integer_digits(converted.width as int),
        r.height@ == integer_digits(converted.height as int),
        r.href@ == data_uri_of(base64_of(converted.image@)),
{
    let mut x: Vec<char> = Vec::new();
    push_decimal(&mut x, converted.x as u64);
    let mut y: Vec<char> = Vec::new();
    push_decimal(&mut y, converted.y as u64);
    let mut width: Vec<char> = Vec::new();
    push_integer(&mut width, converted.width as i64);
    let mut height: Vec<char> = Vec::new();
    push_integer(&mut height, converted.height as i64);
    ImageElement {
        x: string_of(&x),
        y: string_of(&y),
        width: string_of(&width),
        height: string_of(&height),
        href: image_href(converted.image.as_str()),
    }
}

/// What becomes of the element of a text box, given what came of turning
/// it into an image: an image takes its place; an element without markup
/// is taken out; any other error ends the work.
pub fn plan_replacement(conversion: Result<ConvertedTextBox, SvgTextBoxError>) -> (r: Result<
    Replacement,
    SvgTextBoxError,
>)
    ensures
        match conversion {
            Ok(converted) => r matches Ok(Replacement::Image(element)) && element.href@ == data_uri_of(
                base64_of(converted.image@),
            ) && element.x@ == decimal_digits(converted.x as nat) && element.y@ == decimal_digits(
                converted.y as nat,
            ) && element.width@ == integer_digits(converted.width as int) && element.height@
                == integer_digits(converted.height as int),
            Err(SvgTextBoxError::MissingMarkup) => r == Ok::<Replacement, SvgTextBoxError>(Replacement::Remove),
            Err(e) => r == Err::<Replacement, SvgTextBoxError>(e),
        },
{
    match conversion {
        Ok(converted) => Ok(Replacement::Image(image_element(&converted))),
        Err(SvgTextBoxError::MissingMarkup) => Ok(Replacement::Remove),
        Err(e) => Err(e),
    }
}

} // verus!
