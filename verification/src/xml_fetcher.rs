//! A text box as it is described by the attributes of an element: what is
//! given as one attribute, such as `width`, may also be given by a range,
//! such as `min-width`, `max-width` and `width-step`.

use vstd::prelude::*;
use crate::attributes::{pairs_of, remove_attr, value_of, without};
use crate::errors::{IntParseFailure, SvgTextBoxError};
use crate::markup::{takes_any_text, trial_answers, cleaned, unfit, Unfit};
use crate::pango_wrappers::{alignment_named, Alignment, AlignmentWrapper, FontDescriptionWrapper};
use crate::text::{chars_of, lowercase, parse_u16, parse_u16_spec, parse_u16_list};
use crate::textbox::{
    padding_of, units_read, units_stand_for, PaddingSpecification, PangoCompatibleString, TextBox, UnitContainer,
};

verus! {

/// The number that the attribute `key` holds, or `default` where the
/// attribute is not there.
pub open spec fn number_read(attrs: Seq<(Seq<char>, Seq<char>)>, key: Seq<char>, default: u16) -> Result<
    u16,
    IntParseFailure,
> {
    match value_of(attrs, key) {
        None => Ok(default),
        Some(text) => parse_u16_spec(text),
    }
}

/// Takes the attribute `key` out and reads it as a number.
pub fn remove_number(attrs: &mut Vec<(String, String)>, key: &str, default: u16) -> (r: Result<u16, SvgTextBoxError>)
    ensures
        pairs_of(final(attrs)@) == without(pairs_of(old(attrs)@), key@),
        match r {
            Ok(n) => number_read(pairs_of(old(attrs)@), key@, default) == Ok::<u16, IntParseFailure>(n),
            Err(e) => number_read(pairs_of(old(attrs)@), key@, default) is Err && e
                == SvgTextBoxError::BadIntParse(number_read(pairs_of(old(attrs)@), key@, default)->Err_0),
        },
{
    match remove_attr(attrs, key) {
        None => Ok(default),
        Some(text) => match parse_u16(&chars_of(text.as_str())) {
            Ok(n) => Ok(n),
            Err(kind) => Err(SvgTextBoxError::BadIntParse(kind)),
        },
    }
}

/// The names of the attributes that give the widths, the heights or the
/// font sizes of a text box, and the ends and the step of the range that
/// is used where they are not given.
pub struct UnitKeys {
    pub primary: &'static str,
    pub min: &'static str,
    pub min_default: u16,
    pub max: &'static str,
    pub max_default: u16,
    pub step: &'static str,
    pub step_default: u16,
}

/// The attributes of the widths: `width`, or a range from 100 to 1000 in
/// steps of 10.
pub fn width_keys() -> (keys: UnitKeys)
    ensures
        keys == width_keys_spec(),
{
    UnitKeys {
        primary: "width",
        min: "min-width",
        min_default: 100,
        max: "max-width",
        max_default: 1000,
        step: "width-step",
        step_default: 10,
    }
}

/// The attributes of the heights: `height`, or a range from 100 to 1000
/// in steps of 10.
pub fn height_keys() -> (keys: UnitKeys)
    ensures
        keys == height_keys_spec(),
{
    UnitKeys {
        primary: "height",
        min: "min-height",
        min_default: 100,
        max: "max-height",
        max_default: 1000,
        step: "height-step",
        step_default: 10,
    }
}

/// The attributes of the font sizes: `font-size`, or a range from 1 to
/// 100 in steps of 1.
pub fn font_size_keys() -> (keys: UnitKeys)
    ensures
        keys == font_size_keys_spec(),
{
    UnitKeys {
        primary: "font-size",
        min: "min-font-size",
        min_default: 1,
        max: "max-font-size",
        max_default: 100,
        step: "font-size-step",
        step_default: 1,
    }
}

/// The attributes that are left once units were read, or once reading
/// them has failed: the attributes are taken out in the order of the one
/// that gives the units, the ends of the range and its step, up to the
/// first that cannot be read.
pub open spec fn units_left(a0: Seq<(Seq<char>, Seq<char>)>, keys: UnitKeys) -> Seq<(Seq<char>, Seq<char>)> {
    let a1 = without(a0, keys.primary@);
    let a2 = without(a1, keys.min@);
    let a3 = without(a2, keys.max@);
    let a4 = without(a3, keys.step@);
    if value_of(a0, keys.primary@) is Some && units_read(value_of(a0, keys.primary@)->0) is Err {
        a1
    } else if number_read(a1, keys.min@, keys.min_default) is Err {
        a2
    } else if number_read(a2, keys.max@, keys.max_default) is Err {
        a3
    } else {
        a4
    }
}

/// The error of reading units, if there is one: that of the attribute
/// that gives them, else that of the first end or step that is no number,
/// else, where the units are not given, that of a range that is not valid.
pub open spec fn units_fault(a0: Seq<(Seq<char>, Seq<char>)>, keys: UnitKeys) -> Option<SvgTextBoxError> {
    let primary = value_of(a0, keys.primary@);
    let a1 = without(a0, keys.primary@);
    let a2 = without(a1, keys.min@);
    let a3 = without(a2, keys.max@);
    let min = number_read(a1, keys.min@, keys.min_default);
    let max = number_read(a2, keys.max@, keys.max_default);
    let step = number_read(a3, keys.step@, keys.step_default);
    if primary is Some && units_read(primary->0) is Err {
        Some(units_read(primary->0)->Err_0)
    } else if min is Err {
        Some(SvgTextBoxError::BadIntParse(min->Err_0))
    } else if max is Err {
        Some(SvgTextBoxError::BadIntParse(max->Err_0))
    } else if step is Err {
        Some(SvgTextBoxError::BadIntParse(step->Err_0))
    } else if primary is None && !(0 < min->Ok_0 <= max->Ok_0 && step->Ok_0 > 0) {
        Some(SvgTextBoxError::InvalidUnits)
    } else {
        None
    }
}

/// `units` is what the attributes give: what the attribute that gives the
/// units stands for, or the range of the other three.
pub open spec fn units_fetched(a0: Seq<(Seq<char>, Seq<char>)>, keys: UnitKeys, units: UnitContainer) -> bool {
    let primary = value_of(a0, keys.primary@);
    let a1 = without(a0, keys.primary@);
    let a2 = without(a1, keys.min@);
    let a3 = without(a2, keys.max@);
    if primary is Some {
        units_read(primary->0) matches Ok(v) && units_stand_for(v, units)
    } else {
        units == (UnitContainer::AsRange {
            min: number_read(a1, keys.min@, keys.min_default)->Ok_0,
            max: number_read(a2, keys.max@, keys.max_default)->Ok_0,
            step: Some(number_read(a3, keys.step@, keys.step_default)->Ok_0 as usize),
        })
    }
}

/// Reads the widths, the heights or the font sizes of a text box from its
/// attributes, and takes them out.
pub fn fetch_units(attrs: &mut Vec<(String, String)>, keys: &UnitKeys) -> (r: Result<UnitContainer, SvgTextBoxError>)
    ensures
        pairs_of(final(attrs)@) == units_left(pairs_of(old(attrs)@), *keys),
        match r {
            Ok(units) => {
                &&& units_fault(pairs_of(old(attrs)@), *keys) is None
                &&& units_fetched(pairs_of(old(attrs)@), *keys, units)
                &&& units.wf()
            },
            Err(e) => units_fault(pairs_of(old(attrs)@), *keys) == Some(e),
        },
{
    let primary = match remove_attr(attrs, keys.primary) {
        Some(text) => match UnitContainer::parse(text.as_str()) {
            Ok(units) => Some(units),
            Err(e) => {
                return Err(e);
            },
        },
        None => None,
    };
    let min = match remove_number(attrs, keys.min, keys.min_default) {
        Ok(n) => n,
        Err(e) => {
            return Err(e);
        },
    };
    let max = match remove_number(attrs, keys.max, keys.max_default) {
        Ok(n) => n,
        Err(e) => {
            return Err(e);
        },
    };
    let step = match remove_number(attrs, keys.step, keys.step_default) {
        Ok(n) => n,
        Err(e) => {
            return Err(e);
        },
    };
    match primary {
        Some(units) => Ok(units),
        None => UnitContainer::from_range_values(min, max, step),
    }
}

/// The attributes that are left once the padding was read, or once
/// reading it has failed.
pub open spec fn padding_left(a0: Seq<(Seq<char>, Seq<char>)>) -> Seq<(Seq<char>, Seq<char>)> {
    let a1 = without(a0, "padding"@);
    let a2 = without(a1, "padding-top"@);
    let a3 = without(a2, "padding-right"@);
    let a4 = without(a3, "padding-bottom"@);
    let a5 = without(a4, "padding-left"@);
    if value_of(a0, "padding"@) is Some && parse_u16_list(value_of(a0, "padding"@)->0, false) is Err {
        a1
    } else if number_read(a1, "padding-top"@, 0) is Err {
        a2
    } else if number_read(a2, "padding-right"@, 0) is Err {
        a3
    } else if number_read(a3, "padding-bottom"@, 0) is Err {
        a4
    } else {
        a5
    }
}

/// The sides of the padding that the attributes give, as top, right,
/// bottom and left: those of `padding`, read as in a style sheet, or those
/// of `padding-top`, `padding-right`, `padding-bottom` and `padding-left`,
/// each of which is nothing where it is not given. The error is that of
/// the first of the five that cannot be read.
pub open spec fn padding_read(a0: Seq<(Seq<char>, Seq<char>)>) -> Result<(int, int, int, int), IntParseFailure> {
    let primary = value_of(a0, "padding"@);
    let a1 = without(a0, "padding"@);
    let a2 = without(a1, "padding-top"@);
    let a3 = without(a2, "padding-right"@);
    let a4 = without(a3, "padding-bottom"@);
    let top = number_read(a1, "padding-top"@, 0);
    let right = number_read(a2, "padding-right"@, 0);
    let bottom = number_read(a3, "padding-bottom"@, 0);
    let left = number_read(a4, "padding-left"@, 0);
    if primary is Some && parse_u16_list(primary->0, false) is Err {
        Err(parse_u16_list(primary->0, false)->Err_0)
    } else if top is Err {
        Err(top->Err_0)
    } else if right is Err {
        Err(right->Err_0)
    } else if bottom is Err {
        Err(bottom->Err_0)
    } else if left is Err {
        Err(left->Err_0)
    } else if primary is Some {
        Ok(padding_of(parse_u16_list(primary->0, false)->Ok_0))
    } else {
        Ok((top->Ok_0 as int, right->Ok_0 as int, bottom->Ok_0 as int, left->Ok_0 as int))
    }
}

/// Reads the padding of a text box from its attributes, and takes them
/// out.
pub fn fetch_padding(attrs: &mut Vec<(String, String)>) -> (r: Result<PaddingSpecification, SvgTextBoxError>)
    ensures
        pairs_of(final(attrs)@) == padding_left(pairs_of(old(attrs)@)),
        match r {
            Ok(padding) => padding_read(pairs_of(old(attrs)@)) == Ok::<(int, int, int, int), IntParseFailure>(
                padding.sides(),
            ),
            Err(e) => padding_read(pairs_of(old(attrs)@)) is Err && e == SvgTextBoxError::BadIntParse(
                padding_read(pairs_of(old(attrs)@))->Err_0,
            ),
        },
{
    let primary = match remove_attr(attrs, "padding") {
        Some(text) => match PaddingSpecification::parse(text.as_str()) {
            Ok(padding) => Some(padding),
            Err(kind) => {
                return Err(SvgTextBoxError::BadIntParse(kind));
            },
        },
        None => None,
    };
    let top = match remove_number(attrs, "padding-top", 0) {
        Ok(n) => n,
        Err(e) => {
            return Err(e);
        },
    };
    let right = match remove_number(attrs, "padding-right", 0) {
        Ok(n) => n,
        Err(e) => {
            return Err(e);
        },
    };
    let bottom = match remove_number(attrs, "padding-bottom", 0) {
        Ok(n) => n,
        Err(e) => {
            return Err(e);
        },
    };
    let left = match remove_number(attrs, "padding-left", 0) {
        Ok(n) => n,
        Err(e) => {
            return Err(e);
        },
    };
    match primary {
        Some(padding) => Ok(padding),
        None => Ok(PaddingSpecification::new(top, right, bottom, left)),
    }
}

/// A text box with the place at which it is put into a larger image.
#[derive(Debug, Clone)]
pub struct TextBoxToRender {
    pub textbox: TextBox,
    pub x: u16,
    pub y: u16,
    pub prefix: String,
}

impl TextBoxToRender {
    /// The move that brings an image to the place of the text box, as it is
    /// written in a `transform` attribute; none where the place is the
    /// origin.
    pub open spec fn translate_spec(&self) -> Option<Seq<char>> {
        if self.x == 0 && self.y == 0 {
            None
        } else {
            Some(
                "translate("@ + crate::text::decimal_digits(self.x as nat) + ","@ + crate::text::decimal_digits(
                    self.y as nat,
                ) + ")"@,
            )
        }
    }

    /// The move that brings an image to the place of the text box.
    pub fn get_translate_value(&self) -> (r: Option<String>)
        ensures
            match r {
                Some(text) => self.translate_spec() == Some(text@),
                None => self.translate_spec() is None,
            },
    {
        if self.x == 0 && self.y == 0 {
            None
        } else {
            let mut out = chars_of("translate(");
            crate::text::push_decimal(&mut out, self.x as u64);
            out.push(',');
            crate::text::push_decimal(&mut out, self.y as u64);
            out.push(')');
            proof {
                reveal_strlit(",");
                reveal_strlit(")");
                assert(","@ =~= seq![',']);
                assert(")"@ =~= seq![')']);
                assert(out@ =~= self.translate_spec()->0);
            }
            Some(crate::text::string_of(&out))
        }
    }

    /// What is written at the end of the image of the text box: its
    /// prefix and its place, as processing instructions before the end of
    /// the image.
    pub open spec fn extra_info(&self) -> Seq<char> {
        "<?svgtextbox-prefix "@ + self.prefix@ + "?>\n<?svgtextbox-x_offset "@ + crate::text::decimal_digits(
            self.x as nat,
        ) + " ?>\n<svgtextbox-y_offset "@ + crate::text::decimal_digits(self.y as nat) + "?>\n</svg>"@
    }

    /// The image `image` of the text box with its prefix and its place
    /// written before its end.
    pub fn render(&self, image: &str) -> (r: String)
        ensures
            r@ == crate::text::replaced(image@, "</svg>"@, self.extra_info()),
    {
        let mut info = chars_of("<?svgtextbox-prefix ");
        crate::attributes::push_all(&mut info, &chars_of(self.prefix.as_str()));
        crate::attributes::push_all(&mut info, &chars_of("?>\n<?svgtextbox-x_offset "));
        crate::text::push_decimal(&mut info, self.x as u64);
        crate::attributes::push_all(&mut info, &chars_of(" ?>\n<svgtextbox-y_offset "));
        crate::text::push_decimal(&mut info, self.y as u64);
        crate::attributes::push_all(&mut info, &chars_of("?>\n</svg>"));
        let end = chars_of("</svg>");
        proof {
            reveal_strlit("</svg>");
        }
        let patched = crate::text::replace(&chars_of(image), &end, &info);
        crate::text::string_of(&patched)
    }
}


/// `e` is the error that the markup `m` gives: it is nothing but
/// whitespace, or holds a NUL, or the backend could not parse it.
pub open spec fn markup_refused<F: Fn(&str) -> bool>(e: SvgTextBoxError, m: Seq<char>, trial_parse: F) -> bool {
    match e {
        SvgTextBoxError::PCSWhitespace => unfit(m) == Some(Unfit::Whitespace),
        SvgTextBoxError::BadChar(src) => unfit(m) == Some(Unfit::BadChar) && src@ == m,
        SvgTextBoxError::GlibErr(src) => unfit(m) is None && src@ == m && trial_answers(
            trial_parse,
            cleaned(m),
            false,
        ),
        _ => false,
    }
}

/// The attributes of a text box in the order in which they are read, each
/// with the attributes that are left once it was taken out.
pub struct Stages {
    pub a1: Seq<(Seq<char>, Seq<char>)>,
    pub a2: Seq<(Seq<char>, Seq<char>)>,
    pub a3: Seq<(Seq<char>, Seq<char>)>,
    pub a4: Seq<(Seq<char>, Seq<char>)>,
    pub a5: Seq<(Seq<char>, Seq<char>)>,
    pub a6: Seq<(Seq<char>, Seq<char>)>,
    pub a7: Seq<(Seq<char>, Seq<char>)>,
    pub a8: Seq<(Seq<char>, Seq<char>)>,
    pub a9: Seq<(Seq<char>, Seq<char>)>,
    pub a10: Seq<(Seq<char>, Seq<char>)>,
}

/// The attributes that are left after each step of reading a text box: the
/// markup, `x`, `y`, `__id`, the widths, the heights, the padding, the font
/// sizes, the alignment and the font are taken out in this order.
pub open spec fn stages(a0: Seq<(Seq<char>, Seq<char>)>) -> Stages {
    let a1 = without(a0, "markup"@);
    let a2 = without(a1, "x"@);
    let a3 = without(a2, "y"@);
    let a4 = without(a3, "__id"@);
    let a5 = units_left(a4, width_keys_spec());
    let a6 = units_left(a5, height_keys_spec());
    let a7 = padding_left(a6);
    let a8 = units_left(a7, font_size_keys_spec());
    let a9 = without(a8, "alignment"@);
    let a10 = without(a9, "font-desc"@);
    Stages { a1, a2, a3, a4, a5, a6, a7, a8, a9, a10 }
}

/// The attributes of the widths.
pub open spec fn width_keys_spec() -> UnitKeys {
    UnitKeys {
        primary: "width",
        min: "min-width",
        min_default: 100,
        max: "max-width",
        max_default: 1000,
        step: "width-step",
        step_default: 10,
    }
}

/// The attributes of the heights.
pub open spec fn height_keys_spec() -> UnitKeys {
    UnitKeys {
        primary: "height",
        min: "min-height",
        min_default: 100,
        max: "max-height",
        max_default: 1000,
        step: "height-step",
        step_default: 10,
    }
}

/// The attributes of the font sizes.
pub open spec fn font_size_keys_spec() -> UnitKeys {
    UnitKeys {
        primary: "font-size",
        min: "min-font-size",
        min_default: 1,
        max: "max-font-size",
        max_default: 100,
        step: "font-size-step",
        step_default: 1,
    }
}

/// `request` is what the attributes `a0` describe.
pub open spec fn describes<F: Fn(&str) -> bool>(
    a0: Seq<(Seq<char>, Seq<char>)>,
    trial_parse: F,
    request: TextBoxToRender,
) -> bool {
    let s = stages(a0);
    let textbox = request.textbox;
    &&& value_of(a0, "markup"@) matches Some(m)
    &&& unfit(m) is None
    &&& textbox.markup@ == cleaned(m)
    &&& trial_answers(trial_parse, cleaned(m), true)
    &&& number_read(s.a1, "x"@, 0) == Ok::<u16, IntParseFailure>(request.x)
    &&& number_read(s.a2, "y"@, 0) == Ok::<u16, IntParseFailure>(request.y)
    &&& request.prefix@ == match value_of(s.a3, "__id"@) {
        Some(prefix) => prefix,
        None => "textbox-00"@,
    }
    &&& units_fetched(s.a4, width_keys_spec(), textbox.width)
    &&& textbox.width.wf()
    &&& units_fetched(s.a5, height_keys_spec(), textbox.height)
    &&& textbox.height.wf()
    &&& padding_read(s.a6) == Ok::<(int, int, int, int), IntParseFailure>(textbox.padding.sides())
    &&& units_fetched(s.a7, font_size_keys_spec(), textbox.font_size)
    &&& textbox.font_size.wf()
    &&& attribute_fault(a0) is None
    &&& textbox.alignment.0 == match value_of(s.a8, "alignment"@) {
        Some(word) => alignment_named(lowercase(word))->0,
        None => Alignment::Center,
    }
    &&& textbox.font_desc.0.text@ == match value_of(s.a9, "font-desc"@) {
        Some(text) => text,
        None => Seq::empty(),
    }
    &&& pairs_of(textbox.padding_attrs@) == s.a10
}

/// `e` is the error of the first attribute of `a0` that cannot be read.
pub open spec fn refuses<F: Fn(&str) -> bool>(
    a0: Seq<(Seq<char>, Seq<char>)>,
    trial_parse: F,
    e: SvgTextBoxError,
) -> bool {
    if value_of(a0, "markup"@) is None {
        e == SvgTextBoxError::MissingMarkup
    } else if unfit(value_of(a0, "markup"@)->0) is Some {
        markup_refused(e, value_of(a0, "markup"@)->0, trial_parse)
    } else {
        ||| markup_refused(e, value_of(a0, "markup"@)->0, trial_parse)
        ||| (trial_answers(trial_parse, cleaned(value_of(a0, "markup"@)->0), true) && attribute_fault(a0)
            == Some(e))
    }
}

/// The error of the first attribute after the markup that cannot be read,
/// if there is one.
pub open spec fn attribute_fault(a0: Seq<(Seq<char>, Seq<char>)>) -> Option<SvgTextBoxError> {
    let s = stages(a0);
    let x = number_read(s.a1, "x"@, 0);
    let y = number_read(s.a2, "y"@, 0);
    let alignment = value_of(s.a8, "alignment"@);
    let font = value_of(s.a9, "font-desc"@);
    if x is Err {
        Some(SvgTextBoxError::BadIntParse(x->Err_0))
    } else if y is Err {
        Some(SvgTextBoxError::BadIntParse(y->Err_0))
    } else if units_fault(s.a4, width_keys_spec()) is Some {
        units_fault(s.a4, width_keys_spec())
    } else if units_fault(s.a5, height_keys_spec()) is Some {
        units_fault(s.a5, height_keys_spec())
    } else if padding_read(s.a6) is Err {
        Some(SvgTextBoxError::BadIntParse(padding_read(s.a6)->Err_0))
    } else if units_fault(s.a7, font_size_keys_spec()) is Some {
        units_fault(s.a7, font_size_keys_spec())
    } else if alignment is Some && alignment_named(lowercase(alignment->0)) is None {
        Some(SvgTextBoxError::InvalidAlignment)
    } else if font is Some && font->0.contains('\0') {
        Some(SvgTextBoxError::NulError)
    } else {
        None
    }
}

impl TextBoxToRender {
    /// The text box that the attributes describe, `markup` among them.
    /// What is left of the attributes once everything else was read is
    /// kept for the rectangle behind the text.
    pub fn try_from<F: Fn(&str) -> bool>(s: Vec<(String, String)>, trial_parse: F) -> (r: Result<
        TextBoxToRender,
        SvgTextBoxError,
    >)
        requires
            takes_any_text(trial_parse),
        ensures
            match r {
                Ok(request) => describes(pairs_of(s@), trial_parse, request),
                Err(e) => refuses(pairs_of(s@), trial_parse, e),
            },
    {
        let ghost a0 = pairs_of(s@);
        let mut s = s;
        let markup = match remove_attr(&mut s, "markup") {
            Some(text) => match PangoCompatibleString::new(text.as_str(), trial_parse) {
                Ok(markup) => markup,
                Err(e) => {
                    return Err(e);
                },
            },
            None => {
                return Err(SvgTextBoxError::MissingMarkup);
            },
        };
        let x = match remove_number(&mut s, "x", 0) {
            Ok(n) => n,
            Err(e) => {
                return Err(e);
            },
        };
        let y = match remove_number(&mut s, "y", 0) {
            Ok(n) => n,
            Err(e) => {
                return Err(e);
            },
        };
        let prefix = match remove_attr(&mut s, "__id") {
            Some(prefix) => prefix,
            None => "textbox-00".to_owned(),
        };
        let width = match fetch_units(&mut s, &width_keys()) {
            Ok(units) => units,
            Err(e) => {
                return Err(e);
            },
        };
        let height = match fetch_units(&mut s, &height_keys()) {
            Ok(units) => units,
            Err(e) => {
                return Err(e);
            },
        };
        let padding = match fetch_padding(&mut s) {
            Ok(padding) => padding,
            Err(e) => {
                return Err(e);
            },
        };
        let fontsize = match fetch_units(&mut s, &font_size_keys()) {
            Ok(units) => units,
            Err(e) => {
                return Err(e);
            },
        };
        let alignment = match remove_attr(&mut s, "alignment") {
            Some(word) => match AlignmentWrapper::parse(word.as_str()) {
                Ok(alignment) => Some(alignment),
                Err(e) => {
                    return Err(e);
                },
            },
            None => None,
        };
        let font_desc = match remove_attr(&mut s, "font-desc") {
            Some(text) => match FontDescriptionWrapper::parse(text.as_str()) {
                Ok(font_desc) => Some(font_desc),
                Err(e) => {
                    return Err(e);
                },
            },
            None => None,
        };
        let mut textbox = TextBox::new(markup, width, height);
        textbox.set_padding(padding);
        textbox.set_font_size(fontsize);
        if let Some(v) = alignment {
            textbox.set_alignment(v);
        }
        if let Some(v) = font_desc {
            textbox.set_font_desc(v);
        }
        textbox.set_padding_attrs(s);
        let request = TextBoxToRender { x, y, prefix, textbox };
        let ghost textbox = request.textbox;
        proof {
            let st = stages(a0);
            assert(textbox.font_desc.0.text@ =~= match value_of(st.a9, "font-desc"@) {
                Some(text) => text,
                None => Seq::empty(),
            });
            assert(describes(a0, trial_parse, request));
        }
        Ok(request)
    }
}

/// The text box that the attributes describe, with the markup `markup`.
pub fn get_textbox<F: Fn(&str) -> bool>(markup: &str, attributes: Vec<(String, String)>, trial_parse: F) -> (r: Result<
    TextBoxToRender,
    SvgTextBoxError,
>)
    requires
        takes_any_text(trial_parse),
    ensures
        match r {
            Ok(request) => describes(with_markup(markup@, pairs_of(attributes@)), trial_parse, request),
            Err(e) => refuses(with_markup(markup@, pairs_of(attributes@)), trial_parse, e),
        },
{
    let mut attributes = attributes;
    let ghost given = pairs_of(attributes@);
    let taken = remove_attr(&mut attributes, "markup");
    let ghost rest = pairs_of(attributes@);
    attributes.insert(0, ("markup".to_owned(), markup.to_owned()));
    proof {
        assert(pairs_of(attributes@) =~= with_markup(markup@, given));
    }
    TextBoxToRender::try_from(attributes, trial_parse)
}

/// The attributes `attrs` with `markup` in place of any markup among
/// them.
pub open spec fn with_markup(markup: Seq<char>, attrs: Seq<(Seq<char>, Seq<char>)>) -> Seq<(Seq<char>, Seq<char>)> {
    seq![("markup"@, markup)] + without(attrs, "markup"@)
}

} // verus!
