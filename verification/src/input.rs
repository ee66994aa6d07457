//! A text box as it is described by attributes: names with values as texts.

use vstd::prelude::*;
use std::collections::HashSet;
use crate::attributes::{pairs_of, remove_attr, value_of, without};
use crate::enum_matches::{PangoEnumMatch, Stretch, Style, Variant, Weight};
use crate::errors::{IntParseFailure, LayoutError, LayoutFault};
use crate::markup::{clean_markup, cleaned, takes_any_text, trial_answers, unfit};
use crate::pango_wrappers::{
    alignment_from_word, alignment_named, Alignment, FontDescription, FontDescriptionView, SCALE,
};
use crate::text::{chars_of, parse_i32, parse_i32_spec, split_whitespace, tokens, views_of};
use crate::utils::{members_of, set_of};

verus! {

/// The largest font size of a range whose upper end is not given.
pub const DEFAULT_MAX_FONT_SIZE: i32 = 500;

/// The smallest font size of a range whose lower end is not given.
pub const DEFAULT_MIN_FONT_SIZE: i32 = 1;

/// The widths and heights that a box may have, in pixels. The smallest
/// is used that holds the text.
#[derive(Debug)]
pub enum LayoutDimensions {
    /// One width and one height.
    Static(i32, i32),
    /// One width, and any height in the set.
    StaticWidthFlexHeight(i32, HashSet<i32>),
    /// Any width in the set, and one height.
    FlexWidthStaticHeight(HashSet<i32>, i32),
    /// Any width and any height in the sets.
    Flex(HashSet<i32>, HashSet<i32>),
}

/// The one member of a set of one.
pub fn single_member(set: &HashSet<i32>) -> (r: i32)
    requires
        set@.len() == 1,
    ensures
        set@ == set![r],
{
    let members = members_of(set);
    let r = members[0];
    proof {
        assert(members@.to_set().contains(r));
        assert forall|x: i32| set@.contains(x) implies x == r by {
            assert(members@.to_set().contains(x));
            let k = choose|k: int| 0 <= k < members@.len() && members@[k] == x;
        }
        assert(set@ =~= set![r]);
    }
    r
}

impl LayoutDimensions {
    /// The dimensions of the given widths and heights: a set of one is a
    /// fixed width or height, any other set a flexible one.
    pub fn new(width: HashSet<i32>, height: HashSet<i32>) -> (r: LayoutDimensions)
        ensures
            match r {
                LayoutDimensions::Static(w, h) => width@ == set![w] && height@ == set![h],
                LayoutDimensions::StaticWidthFlexHeight(w, heights) => {
                    &&& width@ == set![w]
                    &&& height@.len() != 1
                    &&& heights@ == height@
                },
                LayoutDimensions::FlexWidthStaticHeight(widths, h) => {
                    &&& width@.len() != 1
                    &&& widths@ == width@
                    &&& height@ == set![h]
                },
                LayoutDimensions::Flex(widths, heights) => {
                    &&& width@.len() != 1
                    &&& height@.len() != 1
                    &&& widths@ == width@
                    &&& heights@ == height@
                },
            },
    {
        broadcast use vstd::std_specs::hash::group_hash_axioms;

        let width_is_static = width.len() == 1;
        let height_is_static = height.len() == 1;
        if width_is_static && height_is_static {
            LayoutDimensions::Static(single_member(&width), single_member(&height))
        } else if width_is_static {
            LayoutDimensions::StaticWidthFlexHeight(single_member(&width), height)
        } else if height_is_static {
            LayoutDimensions::FlexWidthStaticHeight(width, single_member(&height))
        } else {
            LayoutDimensions::Flex(width, height)
        }
    }
}

/// The font sizes that may be used, in points.
#[derive(Debug, Clone, PartialEq, Eq)]
pub enum FontSizing {
    /// One size. Where the text does not fit in it, that is an error and
    /// no other size is tried.
    Static(i32),
    /// The largest size of the list in which the text fits.
    Selection(Vec<i32>),
}

/// The whole numbers from `low` to `high`.
pub open spec fn int_range(low: int, high: int) -> Seq<i32> {
    Seq::new((high - low + 1) as nat, |i: int| (low + i) as i32)
}

/// The whole numbers from `low` to `high`.
pub fn range_vec(low: i32, high: i32) -> (r: Vec<i32>)
    requires
        low <= high,
    ensures
        r@ == int_range(low as int, high as int),
{
    let mut r: Vec<i32> = Vec::new();
    let mut next: i64 = low as i64;
    while next <= high as i64
        invariant
            low <= next <= high + 1,
            r@ == int_range(low as int, next - 1),
        decreases high - next + 1,
    {
        r.push(next as i32);
        proof {
            assert(r@ =~= int_range(low as int, next as int));
        }
        next = next + 1;
    }
    r
}

impl FontSizing {
    /// The selection of the sizes from `min` to `max`; from 1 where no
    /// `min` is given, to 500 where no `max` is given. The ends must be in
    /// order, and the smaller one above zero.
    pub fn from_range(min: Option<i32>, max: Option<i32>) -> (r: Result<FontSizing, LayoutError>)
        ensures
            ({
                let low = match min {
                    Some(m) => m,
                    None => DEFAULT_MIN_FONT_SIZE,
                };
                let high = match max {
                    Some(m) => m,
                    None => DEFAULT_MAX_FONT_SIZE,
                };
                match r {
                    Ok(sizing) => {
                        &&& 0 < low <= high
                        &&& sizing matches FontSizing::Selection(sizes)
                        &&& sizes@ == int_range(low as int, high as int)
                    },
                    Err(e) => !(0 < low <= high) && e == LayoutError::BadFontRange,
                }
            }),
    {
        let low: i32 = match min {
            Some(m) => m,
            None => DEFAULT_MIN_FONT_SIZE,
        };
        let high: i32 = match max {
            Some(m) => m,
            None => DEFAULT_MAX_FONT_SIZE,
        };
        if low < 1 || high < low {
            return Err(LayoutError::BadFontRange);
        }
        Ok(FontSizing::Selection(range_vec(low, high)))
    }
}

/// Why a text is no list of lengths.
#[derive(Debug, Clone, Copy, PartialEq, Eq, Structural)]
pub enum LengthFault {
    /// A token is no number.
    NotANumber(IntParseFailure),
    /// A number is not above zero, or there is no number at all.
    NotPositive,
}

/// The numbers that `tokens` stand for, read from the left; the first
/// token that is no number, or is not above zero, ends the reading.
pub open spec fn read_lengths(tokens: Seq<Seq<char>>) -> Result<Seq<i32>, LengthFault>
    decreases tokens.len(),
{
    if tokens.len() == 0 {
        Ok(Seq::empty())
    } else {
        match read_lengths(tokens.drop_last()) {
            Err(e) => Err(e),
            Ok(before) => match parse_i32_spec(tokens.last()) {
                Err(e) => Err(LengthFault::NotANumber(e)),
                Ok(n) => if n > 0 {
                    Ok(before.push(n))
                } else {
                    Err(LengthFault::NotPositive)
                },
            },
        }
    }
}

/// The lengths that a list of numbers names: every whole number between
/// two numbers of which the second is the larger, else the numbers
/// themselves.
pub open spec fn lengths_named(v: Seq<i32>) -> Set<i32> {
    if v.len() == 2 && v[1] > v[0] {
        int_range(v[0] as int, v[1] as int).to_set()
    } else {
        v.to_set()
    }
}

/// What reading the text `s` as lengths gives: the set of the lengths
/// that it names, or what is wrong with it.
pub open spec fn lengths_of(s: Seq<char>) -> Result<Set<i32>, LengthFault> {
    match read_lengths(tokens(s)) {
        Err(e) => Err(e),
        Ok(v) => if v.len() == 0 {
            Err(LengthFault::NotPositive)
        } else {
            Ok(lengths_named(v))
        },
    }
}

/// A failure on the first `n` tokens is the failure on all of them.
proof fn lemma_length_fault_stays(tokens: Seq<Seq<char>>, n: int)
    requires
        0 <= n <= tokens.len(),
    ensures
        read_lengths(tokens.take(n)) is Err ==> read_lengths(tokens) == read_lengths(tokens.take(n)),
    decreases tokens.len() - n,
{
    if n < tokens.len() {
        assert(tokens.take(n + 1).drop_last() == tokens.take(n));
        lemma_length_fault_stays(tokens, n + 1);
    } else {
        assert(tokens.take(n) == tokens);
    }
}

/// Reads a text of lengths between whitespace, such as `100` or
/// `100 200` or `200 100`, as the set of the lengths that it names.
///
/// Two lengths of which the second is the larger name every length
/// between them; to name two lengths alone, put the larger one first.
pub fn lengths_from_str(source: &str) -> (r: Result<HashSet<i32>, LengthFault>)
    ensures
        match r {
            Ok(set) => lengths_of(source@) == Ok::<Set<i32>, LengthFault>(set@),
            Err(e) => lengths_of(source@) == Err::<Set<i32>, LengthFault>(e),
        },
{
    let chars = chars_of(source);
    let words = split_whitespace(&chars);
    let mut ints: Vec<i32> = Vec::new();
    let mut i: usize = 0;
    while i < words.len()
        invariant
            i <= words.len(),
            views_of(words@) == tokens(source@),
            read_lengths(views_of(words@).take(i as int)) == Ok::<Seq<i32>, LengthFault>(ints@),
        decreases words.len() - i,
    {
        proof {
            let next = views_of(words@).take(i + 1);
            assert(next.drop_last() == views_of(words@).take(i as int));
            assert(next.last() == words@[i as int]@);
            lemma_length_fault_stays(views_of(words@), i + 1);
        }
        match parse_i32(&words[i]) {
            Err(e) => {
                return Err(LengthFault::NotANumber(e));
            },
            Ok(n) => {
                if n <= 0 {
                    return Err(LengthFault::NotPositive);
                }
                ints.push(n);
            },
        }
        i += 1;
    }
    assert(views_of(words@).take(i as int) == views_of(words@));
    if ints.len() == 0 {
        return Err(LengthFault::NotPositive);
    }
    if ints.len() == 2 && ints[1] > ints[0] {
        let all = range_vec(ints[0], ints[1]);
        Ok(set_of(&all))
    } else {
        Ok(set_of(&ints))
    }
}


/// The font sizes that may be used, with the list as a sequence.
pub enum FontSizingView {
    Static(i32),
    Selection(Seq<i32>),
}

impl View for FontSizing {
    type V = FontSizingView;

    open spec fn view(&self) -> FontSizingView {
        match self {
            FontSizing::Static(size) => FontSizingView::Static(*size),
            FontSizing::Selection(sizes) => FontSizingView::Selection(sizes@),
        }
    }
}

impl LayoutDimensions {
    /// The widths that the box may have.
    pub open spec fn widths(&self) -> Set<i32> {
        match self {
            LayoutDimensions::Static(w, _) => set![*w],
            LayoutDimensions::StaticWidthFlexHeight(w, _) => set![*w],
            LayoutDimensions::FlexWidthStaticHeight(widths, _) => widths@,
            LayoutDimensions::Flex(widths, _) => widths@,
        }
    }

    /// The heights that the box may have.
    pub open spec fn heights(&self) -> Set<i32> {
        match self {
            LayoutDimensions::Static(_, h) => set![*h],
            LayoutDimensions::StaticWidthFlexHeight(_, heights) => heights@,
            LayoutDimensions::FlexWidthStaticHeight(_, h) => set![*h],
            LayoutDimensions::Flex(_, heights) => heights@,
        }
    }

    /// A width or a height is fixed where, and only where, there is one of
    /// it.
    pub open spec fn wf(&self) -> bool {
        match self {
            LayoutDimensions::Static(_, _) => true,
            LayoutDimensions::StaticWidthFlexHeight(_, heights) => heights@.len() != 1,
            LayoutDimensions::FlexWidthStaticHeight(widths, _) => widths@.len() != 1,
            LayoutDimensions::Flex(widths, heights) => widths@.len() != 1 && heights@.len() != 1,
        }
    }
}

/// The standardised description of a text box.
#[derive(Debug)]
pub struct TextBoxInput {
    /// The text, marked up if desired, as the backend accepts it.
    pub markup: String,
    /// The widths and heights available.
    pub dimensions: LayoutDimensions,
    /// The base font.
    pub font_desc: FontDescription,
    /// The alignment of the text within the box.
    pub alignment: Alignment,
    /// How the font is sized.
    pub fontsizing: FontSizing,
}

/// The lengths that the text `source` names, or the error that says why it
/// names none: the failure of a token that is no number, or the text itself
/// where a number is not above zero or there is none.
pub open spec fn ints_of(source: Seq<char>) -> Result<Set<i32>, LayoutFault> {
    match lengths_of(source) {
        Ok(set) => Ok(set),
        Err(LengthFault::NotANumber(kind)) => Err(LayoutFault::BadIntParse(kind)),
        Err(LengthFault::NotPositive) => Err(LayoutFault::IntsFromString { msg: source }),
    }
}

/// The alignment that the attributes name: centred where they name none.
pub open spec fn alignment_read(attrs: Seq<(Seq<char>, Seq<char>)>) -> Result<Alignment, LayoutFault> {
    match value_of(attrs, "alignment"@) {
        None => Ok(Alignment::Center),
        Some(word) => match alignment_named(word) {
            Some(alignment) => Ok(alignment),
            None => Err(LayoutFault::CouldNotTransformStrToPangoEnum { msg: word }),
        },
    }
}

/// The value of a property of a font that the attribute `key` names, if
/// the attribute is there: `Err` holds the word that names no value.
pub open spec fn property_read<T: PangoEnumMatch>(attrs: Seq<(Seq<char>, Seq<char>)>, key: Seq<char>) -> Result<
    Option<T>,
    LayoutFault,
> {
    match value_of(attrs, key) {
        None => Ok(None),
        Some(word) => match T::named(word) {
            Some(value) => Ok(Some(value)),
            None => Err(LayoutFault::CouldNotTransformStrToPangoEnum { msg: word }),
        },
    }
}

/// What reading a font from attributes gives, and the attributes that are
/// left. Family, style, weight, variant and stretch are taken out in this
/// order, up to the first that is not valid: a family that is nothing but
/// whitespace or holds a NUL, or a word that names no value.
pub open spec fn font_desc_read(a0: Seq<(Seq<char>, Seq<char>)>) -> (
    Seq<(Seq<char>, Seq<char>)>,
    Result<FontDescriptionView, LayoutFault>,
) {
    let family = value_of(a0, "font-family"@);
    let a1 = without(a0, "font-family"@);
    let style = property_read::<Style>(a1, "font-style"@);
    let a2 = without(a1, "font-style"@);
    let weight = property_read::<Weight>(a2, "font-weight"@);
    let a3 = without(a2, "font-weight"@);
    let variant = property_read::<Variant>(a3, "font-variant"@);
    let a4 = without(a3, "font-variant"@);
    let stretch = property_read::<Stretch>(a4, "font-stretch"@);
    let a5 = without(a4, "font-stretch"@);
    if family is Some && unfit(family->0) is Some {
        (a1, Err(LayoutFault::BadFontFamily))
    } else if style is Err {
        (a2, Err(style->Err_0))
    } else if weight is Err {
        (a3, Err(weight->Err_0))
    } else if variant is Err {
        (a4, Err(variant->Err_0))
    } else if stretch is Err {
        (a5, Err(stretch->Err_0))
    } else {
        (
            a5,
            Ok(
                FontDescriptionView {
                    text: Seq::empty(),
                    family,
                    style: style->Ok_0,
                    variant: variant->Ok_0,
                    weight: weight->Ok_0,
                    stretch: stretch->Ok_0,
                    size: None,
                },
            ),
        )
    }
}

/// The number that the attribute `key` holds, if the attribute is there.
pub open spec fn int_read(attrs: Seq<(Seq<char>, Seq<char>)>, key: Seq<char>) -> Result<Option<i32>, LayoutFault> {
    match value_of(attrs, key) {
        None => Ok(None),
        Some(text) => match parse_i32_spec(text) {
            Ok(n) => Ok(Some(n)),
            Err(kind) => Err(LayoutFault::BadIntParse(kind)),
        },
    }
}

/// The sizing of the range from `min` to `max`.
pub open spec fn range_read(min: Option<i32>, max: Option<i32>) -> Result<FontSizingView, LayoutFault> {
    let low = match min {
        Some(m) => m,
        None => DEFAULT_MIN_FONT_SIZE,
    };
    let high = match max {
        Some(m) => m,
        None => DEFAULT_MAX_FONT_SIZE,
    };
    if low < 1 || high < low {
        Err(LayoutFault::BadFontRange)
    } else {
        Ok(FontSizingView::Selection(int_range(low as int, high as int)))
    }
}

/// What reading the font sizes from attributes gives, and the attributes
/// that are left. `font-size`, `min-size` and `max-size` are taken out in
/// this order, up to the first that is no number. A `font-size` is a fixed
/// size; without one, the sizes are those from `min-size` to `max-size`.
pub open spec fn fontsizing_read(a0: Seq<(Seq<char>, Seq<char>)>) -> (
    Seq<(Seq<char>, Seq<char>)>,
    Result<FontSizingView, LayoutFault>,
) {
    let size = int_read(a0, "font-size"@);
    let a1 = without(a0, "font-size"@);
    let min = int_read(a1, "min-size"@);
    let a2 = without(a1, "min-size"@);
    let max = int_read(a2, "max-size"@);
    let a3 = without(a2, "max-size"@);
    if size is Err {
        (a1, Err(size->Err_0))
    } else if min is Err {
        (a2, Err(min->Err_0))
    } else if max is Err {
        (a3, Err(max->Err_0))
    } else if size->Ok_0 is Some {
        (a3, Ok(FontSizingView::Static(size->Ok_0->0)))
    } else {
        (a3, range_read(min->Ok_0, max->Ok_0))
    }
}

/// What reading the dimensions from attributes gives, and the attributes
/// that are left. `width` is taken out, then `height`; where one is
/// missing or names no lengths, the error says which.
pub open spec fn dimensions_read(a0: Seq<(Seq<char>, Seq<char>)>) -> (
    Seq<(Seq<char>, Seq<char>)>,
    Result<(Set<i32>, Set<i32>), LayoutFault>,
) {
    let width = value_of(a0, "width"@);
    let a1 = without(a0, "width"@);
    let height = value_of(a1, "height"@);
    let a2 = without(a1, "height"@);
    if width is None {
        (a1, Err(LayoutFault::BadDistanceValues { msg: "Width missing"@ }))
    } else if height is None {
        (a2, Err(LayoutFault::BadDistanceValues { msg: "Height missing"@ }))
    } else {
        let widths = ints_of(width->0);
        let heights = ints_of(height->0);
        if widths is Ok && heights is Ok {
            (a2, Ok((widths->Ok_0, heights->Ok_0)))
        } else if heights is Ok {
            (
                a2,
                Err(
                    LayoutFault::BadDistanceValues {
                        msg: "Attempted to use an invalid width value ("@ + width->0 + ")"@,
                    },
                ),
            )
        } else if widths is Ok {
            (
                a2,
                Err(
                    LayoutFault::BadDistanceValues {
                        msg: "Attempted to use an invalid height value ("@ + height->0 + ")"@,
                    },
                ),
            )
        } else {
            (
                a2,
                Err(
                    LayoutFault::BadDistanceValues {
                        msg: "Attempted to use invalid width and height values ("@ + width->0 + ", "@
                            + height->0 + ")"@,
                    },
                ),
            )
        }
    }
}

/// Reading a text box from its markup and its attributes.
pub trait FromHashMap: Sized {
    /// The text box that the markup and the attributes describe.
    fn new_from<F: Fn(&str) -> bool>(markup: String, src: &mut Vec<(String, String)>, trial_parse: F) -> Result<
        TextBoxInput,
        LayoutError,
    >
        requires
            takes_any_text(trial_parse),
    ;

    /// The alignment that a word names.
    fn alignment_from_str(s: &str) -> Result<Alignment, LayoutError>;

    /// The font that the attributes describe.
    fn font_desc_from_hashmap(attrs: &mut Vec<(String, String)>) -> Result<FontDescription, LayoutError>;

    /// The font sizes that the attributes describe.
    fn fontsizing_from_hashmap(attrs: &mut Vec<(String, String)>) -> Result<FontSizing, LayoutError>;

    /// The dimensions that the attributes describe.
    fn layoutdimensions_from_hashmap(attrs: &mut Vec<(String, String)>) -> Result<LayoutDimensions, LayoutError>;

    /// The lengths that a text names.
    fn ints_from_str(source: &str) -> Result<HashSet<i32>, LayoutError>;
}

/// The number that the attribute `key` holds, if the attribute is there;
/// the attribute is taken out.
pub fn remove_int(attrs: &mut Vec<(String, String)>, key: &str) -> (r: Result<Option<i32>, LayoutError>)
    ensures
        pairs_of(final(attrs)@) == without(pairs_of(old(attrs)@), key@),
        match r {
            Ok(n) => int_read(pairs_of(old(attrs)@), key@) == Ok::<Option<i32>, LayoutFault>(n),
            Err(e) => int_read(pairs_of(old(attrs)@), key@) == Err::<Option<i32>, LayoutFault>(e@),
        },
{
    match remove_attr(attrs, key) {
        None => Ok(None),
        Some(text) => match parse_i32(&chars_of(text.as_str())) {
            Ok(n) => Ok(Some(n)),
            Err(kind) => Err(LayoutError::BadIntParse(kind)),
        },
    }
}

/// The value of a property of a font that the attribute `key` names, if
/// the attribute is there; the attribute is taken out.
pub fn remove_property<T: PangoEnumMatch>(attrs: &mut Vec<(String, String)>, key: &str) -> (r: Result<
    Option<T>,
    LayoutError,
>)
    ensures
        pairs_of(final(attrs)@) == without(pairs_of(old(attrs)@), key@),
        match r {
            Ok(value) => property_read::<T>(pairs_of(old(attrs)@), key@) == Ok::<Option<T>, LayoutFault>(value),
            Err(e) => property_read::<T>(pairs_of(old(attrs)@), key@) == Err::<Option<T>, LayoutFault>(e@),
        },
{
    match remove_attr(attrs, key) {
        None => Ok(None),
        Some(word) => match T::from_str(word.as_str()) {
            Ok(value) => Ok(Some(value)),
            Err(e) => Err(e),
        },
    }
}

impl FromHashMap for TextBoxInput {
    fn new_from<F: Fn(&str) -> bool>(markup: String, src: &mut Vec<(String, String)>, trial_parse: F) -> (r: Result<
        TextBoxInput,
        LayoutError,
    >)
        ensures
            ({
                let a0 = pairs_of(old(src)@);
                let alignment = alignment_read(a0);
                let a1 = without(a0, "alignment"@);
                let font = font_desc_read(a1);
                let sizing = fontsizing_read(font.0);
                let dimensions = dimensions_read(sizing.0);
                match r {
                    Ok(input) => {
                        &&& alignment == Ok::<Alignment, LayoutFault>(input.alignment)
                        &&& font.1 is Ok
                        &&& sizing.1 == Ok::<FontSizingView, LayoutFault>(input.fontsizing@)
                        &&& fixed_size(input.fontsizing@, font.1->Ok_0) == Some(input.font_desc@)
                        &&& dimensions.1 == Ok::<(Set<i32>, Set<i32>), LayoutFault>(
                            (input.dimensions.widths(), input.dimensions.heights()),
                        )
                        &&& input.dimensions.wf()
                        &&& unfit(markup@) is None
                        &&& input.markup@ == cleaned(markup@)
                        &&& trial_answers(trial_parse, cleaned(markup@), true)
                        &&& pairs_of(final(src)@) == dimensions.0
                    },
                    Err(e) => if alignment is Err {
                        e@ == alignment->Err_0 && pairs_of(final(src)@) == a1
                    } else if font.1 is Err {
                        e@ == font.1->Err_0 && pairs_of(final(src)@) == font.0
                    } else if sizing.1 is Err {
                        e@ == sizing.1->Err_0 && pairs_of(final(src)@) == sizing.0
                    } else if fixed_size(sizing.1->Ok_0, font.1->Ok_0) is None {
                        e@ == LayoutFault::BadFontRange && pairs_of(final(src)@) == sizing.0
                    } else if dimensions.1 is Err {
                        e@ == dimensions.1->Err_0 && pairs_of(final(src)@) == dimensions.0
                    } else {
                        &&& e@ == LayoutFault::BadMarkup
                        &&& pairs_of(final(src)@) == dimensions.0
                        &&& unfit(markup@) is Some || trial_answers(trial_parse, cleaned(markup@), false)
                    },
                }
            }),
    {
        let alignment = match remove_attr(src, "alignment") {
            Some(s) => match Self::alignment_from_str(s.as_str()) {
                Ok(alignment) => alignment,
                Err(e) => {
                    return Err(e);
                },
            },
            None => Alignment::Center,
        };
        let mut font_desc = match Self::font_desc_from_hashmap(src) {
            Ok(font_desc) => font_desc,
            Err(e) => {
                return Err(e);
            },
        };
        let fontsizing = match Self::fontsizing_from_hashmap(src) {
            Ok(fontsizing) => fontsizing,
            Err(e) => {
                return Err(e);
            },
        };
        if let FontSizing::Static(i) = fontsizing {
            match i.checked_mul(SCALE) {
                Some(scaled) => {
                    font_desc.size = Some(scaled);
                },
                None => {
                    return Err(LayoutError::BadFontRange);
                },
            }
        }
        let dimensions = match Self::layoutdimensions_from_hashmap(src) {
            Ok(dimensions) => dimensions,
            Err(e) => {
                return Err(e);
            },
        };
        let compatible_markup = match clean_markup(markup.as_str()) {
            Ok(text) => text,
            Err(_) => {
                return Err(LayoutError::BadMarkup);
            },
        };
        let handed: &str = compatible_markup.as_str();
        let parsed = trial_parse(handed);
        assert(call_ensures(trial_parse, (handed,), parsed));
        if !parsed {
            return Err(LayoutError::BadMarkup);
        }
        Ok(TextBoxInput { markup: compatible_markup, dimensions, font_desc, alignment, fontsizing })
    }

    fn alignment_from_str(s: &str) -> (r: Result<Alignment, LayoutError>)
        ensures
            match r {
                Ok(alignment) => alignment_named(s@) == Some(alignment),
                Err(e) => alignment_named(s@) is None && e@ == (LayoutFault::CouldNotTransformStrToPangoEnum {
                    msg: s@,
                }),
            },
    {
        match alignment_from_word(s) {
            Some(alignment) => Ok(alignment),
            None => Err(LayoutError::CouldNotTransformStrToPangoEnum { msg: s.to_owned() }),
        }
    }

    fn font_desc_from_hashmap(attrs: &mut Vec<(String, String)>) -> (r: Result<FontDescription, LayoutError>)
        ensures
            pairs_of(final(attrs)@) == font_desc_read(pairs_of(old(attrs)@)).0,
            match r {
                Ok(font) => font_desc_read(pairs_of(old(attrs)@)).1 == Ok::<FontDescriptionView, LayoutFault>(
                    font@,
                ),
                Err(e) => font_desc_read(pairs_of(old(attrs)@)).1 == Err::<FontDescriptionView, LayoutFault>(
                    e@,
                ),
            },
    {
        let mut font_desc = FontDescription::new();
        if let Some(family) = remove_attr(attrs, "font-family") {
            match clean_markup(family.as_str()) {
                Ok(_) => {
                    font_desc.family = Some(family);
                },
                Err(_) => {
                    return Err(LayoutError::BadFontFamily);
                },
            }
        }
        match remove_property::<Style>(attrs, "font-style") {
            Ok(style) => {
                font_desc.style = style;
            },
            Err(e) => {
                return Err(e);
            },
        }
        match remove_property::<Weight>(attrs, "font-weight") {
            Ok(weight) => {
                font_desc.weight = weight;
            },
            Err(e) => {
                return Err(e);
            },
        }
        match remove_property::<Variant>(attrs, "font-variant") {
            Ok(variant) => {
                font_desc.variant = variant;
            },
            Err(e) => {
                return Err(e);
            },
        }
        match remove_property::<Stretch>(attrs, "font-stretch") {
            Ok(stretch) => {
                font_desc.stretch = stretch;
            },
            Err(e) => {
                return Err(e);
            },
        }
        proof {
            assert(font_desc.text@ =~= Seq::<char>::empty());
            assert(font_desc_read(pairs_of(old(attrs)@)).1 == Ok::<FontDescriptionView, LayoutFault>(
                font_desc@,
            ));
        }
        Ok(font_desc)
    }

    fn fontsizing_from_hashmap(attrs: &mut Vec<(String, String)>) -> (r: Result<FontSizing, LayoutError>)
        ensures
            pairs_of(final(attrs)@) == fontsizing_read(pairs_of(old(attrs)@)).0,
            match r {
                Ok(sizing) => fontsizing_read(pairs_of(old(attrs)@)).1 == Ok::<FontSizingView, LayoutFault>(
                    sizing@,
                ),
                Err(e) => fontsizing_read(pairs_of(old(attrs)@)).1 == Err::<FontSizingView, LayoutFault>(e@),
            },
    {
        let size = match remove_int(attrs, "font-size") {
            Ok(size) => size,
            Err(e) => {
                return Err(e);
            },
        };
        let min_size = match remove_int(attrs, "min-size") {
            Ok(size) => size,
            Err(e) => {
                return Err(e);
            },
        };
        let max_size = match remove_int(attrs, "max-size") {
            Ok(size) => size,
            Err(e) => {
                return Err(e);
            },
        };
        match size {
            Some(i) => Ok(FontSizing::Static(i)),
            None => FontSizing::from_range(min_size, max_size),
        }
    }

    fn layoutdimensions_from_hashmap(attrs: &mut Vec<(String, String)>) -> (r: Result<
        LayoutDimensions,
        LayoutError,
    >)
        ensures
            pairs_of(final(attrs)@) == dimensions_read(pairs_of(old(attrs)@)).0,
            match r {
                Ok(dimensions) => {
                    &&& dimensions_read(pairs_of(old(attrs)@)).1 == Ok::<(Set<i32>, Set<i32>), LayoutFault>(
                        (dimensions.widths(), dimensions.heights()),
                    )
                    &&& dimensions.wf()
                },
                Err(e) => dimensions_read(pairs_of(old(attrs)@)).1 == Err::<(Set<i32>, Set<i32>), LayoutFault>(
                    e@,
                ),
            },
    {
        let width = match remove_attr(attrs, "width") {
            Some(width) => width,
            None => {
                return Err(LayoutError::BadDistanceValues { msg: "Width missing".to_owned() });
            },
        };
        let height = match remove_attr(attrs, "height") {
            Some(height) => height,
            None => {
                return Err(LayoutError::BadDistanceValues { msg: "Height missing".to_owned() });
            },
        };
        let width_set = Self::ints_from_str(width.as_str());
        let height_set = Self::ints_from_str(height.as_str());
        match (width_set, height_set) {
            (Ok(w), Ok(h)) => Ok(LayoutDimensions::new(w, h)),
            (Err(_), Ok(_)) => {
                let msg = "Attempted to use an invalid width value (".to_owned().concat(width.as_str()).concat(
                    ")",
                );
                Err(LayoutError::BadDistanceValues { msg })
            },
            (Ok(_), Err(_)) => {
                let msg = "Attempted to use an invalid height value (".to_owned().concat(height.as_str()).concat(
                    ")",
                );
                Err(LayoutError::BadDistanceValues { msg })
            },
            (Err(_), Err(_)) => {
                let msg = "Attempted to use invalid width and height values (".to_owned().concat(
                    width.as_str(),
                ).concat(", ").concat(height.as_str()).concat(")");
                Err(LayoutError::BadDistanceValues { msg })
            },
        }
    }

    fn ints_from_str(source: &str) -> (r: Result<HashSet<i32>, LayoutError>)
        ensures
            match r {
                Ok(set) => ints_of(source@) == Ok::<Set<i32>, LayoutFault>(set@),
                Err(e) => ints_of(source@) == Err::<Set<i32>, LayoutFault>(e@),
            },
    {
        match lengths_from_str(source) {
            Ok(set) => Ok(set),
            Err(LengthFault::NotANumber(kind)) => Err(LayoutError::BadIntParse(kind)),
            Err(LengthFault::NotPositive) => Err(LayoutError::IntsFromString { msg: source.to_owned() }),
        }
    }
}

/// The font `font` with the size that a fixed sizing gives it, in the
/// unit of the backend; `None` where that size is beyond what the backend
/// can hold.
pub open spec fn fixed_size(sizing: FontSizingView, font: FontDescriptionView) -> Option<FontDescriptionView> {
    match sizing {
        FontSizingView::Static(i) => if i32::MIN <= i * SCALE <= i32::MAX {
            Some(FontDescriptionView { size: Some((i * SCALE) as i32), ..font })
        } else {
            None
        },
        FontSizingView::Selection(_) => Some(font),
    }
}

} // verus!
