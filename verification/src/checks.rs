//! Checked values: distances in pixels, font sizes in scaled points, and
//! markup that the backend accepts.

use vstd::prelude::*;
use crate::markup::{escape_isolated_ampersands, with_ampersands_escaped};
use crate::pango_wrappers::{FontDescription, SCALE};
use crate::text::{byte_len, chars_of, contains_char, exceeds_bytes, string_of, trim, trimmed};

verus! {

/// The largest number of bytes that markup may have.
pub const MAX_MARKUP_LEN: usize = 1000;

/// The font size to use where the text is not scaled, in points.
pub const DEFAULT_FONT_SIZE: i32 = 10;

/// The largest font size, in points.
pub const MAX_FONT_SIZE: i32 = 500;

/// The smallest font size, in scaled points.
pub const SCALED_MIN_FONT_SIZE: i32 = 1024;

/// The largest font size, in scaled points.
pub const SCALED_MAX_FONT_SIZE: i32 = 512000;

/// A distance in pixels.
#[derive(Debug, PartialEq, Eq, Structural, Clone, Copy)]
pub struct DistanceMeasure {
    value: i32,
}

impl DistanceMeasure {
    /// The distance in pixels that this measure holds.
    pub closed spec fn px(self) -> int {
        self.value as int
    }

    /// The distance in whole points: three quarters of the pixels, rounded
    /// towards zero.
    pub open spec fn whole_points(self) -> int {
        if self.px() >= 0 {
            self.px() * 3 / 4
        } else {
            -((-self.px() * 3) / 4)
        }
    }

    /// A distance of `n` pixels.
    pub fn new(n: i32) -> (d: DistanceMeasure)
        ensures
            d.px() == n,
    {
        DistanceMeasure { value: n }
    }

    /// The distance in pixels.
    pub fn as_px(&self) -> (n: i32)
        ensures
            n == self.px(),
    {
        self.value
    }

    /// The distance in the unit of the backend: a pixel is three quarters
    /// of a point, and a point is `SCALE` units, so that a pixel is 768
    /// units. Nothing is rounded.
    pub open spec fn scaled_points(self) -> int {
        self.px() * crate::output::SCALED_POINTS_PER_PIXEL
    }

    /// The distance in the unit of the backend.
    pub fn as_scaled_pts(&self) -> (n: i32)
        requires
            -2796202 <= self.px() <= 2796202,
        ensures
            n == self.scaled_points(),
            n == self.px() * 768,
    {
        let scaled: i64 = self.value as i64 * 768;
        scaled as i32
    }
}

/// A font size in scaled points, between one point and 500 points; or zero,
/// which stands before the first size when sizes are walked through.
#[derive(Debug, PartialEq, Eq, Structural, Clone, Copy)]
pub struct FontSize {
    value: i32,
}

impl FontSize {
    /// The size in scaled points.
    pub closed spec fn scaled_spec(self) -> int {
        self.value as int
    }

    /// The size of `value` scaled points.
    pub closed spec fn of_scaled(value: int) -> FontSize {
        FontSize { value: value as i32 }
    }

    /// All sizes of whole points, from one point to 500, in ascending
    /// order.
    pub open spec fn all_spec() -> Seq<FontSize> {
        Seq::new(MAX_FONT_SIZE as nat, |i: int| FontSize::of_scaled((i + 1) * SCALE))
    }

    /// A size that a text can be set in.
    pub open spec fn in_range(value: int) -> bool {
        SCALED_MIN_FONT_SIZE <= value <= SCALED_MAX_FONT_SIZE
    }

    /// The size is one that a text can be set in, or the start of a walk.
    pub open spec fn wf(self) -> bool {
        FontSize::in_range(self.scaled_spec()) || self.scaled_spec() == 0
    }

    /// The font size of `value` scaled points; the value itself is handed
    /// back where it is below one point or above 500.
    pub fn new(value: i32) -> (r: Result<FontSize, i32>)
        ensures
            match r {
                Ok(size) => FontSize::in_range(value as int) && size.scaled_spec() == value,
                Err(refused) => !FontSize::in_range(value as int) && refused == value,
            },
    {
        let not_set = value == 0;
        let too_big = value > SCALED_MAX_FONT_SIZE;
        let too_small = value < SCALED_MIN_FONT_SIZE;
        if too_big || too_small || not_set {
            return Err(value);
        }
        Ok(FontSize { value })
    }

    /// The size in whole points.
    pub fn pts(&self) -> (n: i32)
        requires
            self.wf(),
        ensures
            n == self.scaled_spec() / (SCALE as int),
    {
        self.value / SCALE
    }

    /// The size in scaled points.
    pub fn scaled(&self) -> (n: i32)
        ensures
            n == self.scaled_spec(),
    {
        self.value
    }

    /// The size one point below this one, where there is one.
    pub fn step_down(&self) -> (r: Result<FontSize, i32>)
        requires
            self.wf(),
        ensures
            match r {
                Ok(size) => FontSize::in_range(self.scaled_spec() - SCALE) && size.scaled_spec()
                    == self.scaled_spec() - SCALE,
                Err(refused) => !FontSize::in_range(self.scaled_spec() - SCALE) && refused == self.scaled_spec()
                    - SCALE,
            },
    {
        FontSize::new(self.value - SCALE)
    }

    /// The size one point above this one, where there is one.
    pub fn step_up(&self) -> (r: Result<FontSize, i32>)
        requires
            self.wf(),
        ensures
            match r {
                Ok(size) => FontSize::in_range(self.scaled_spec() + SCALE) && size.scaled_spec()
                    == self.scaled_spec() + SCALE,
                Err(refused) => !FontSize::in_range(self.scaled_spec() + SCALE) && refused == self.scaled_spec()
                    + SCALE,
            },
    {
        FontSize::new(self.value + SCALE)
    }

    /// The start of a walk through all sizes of whole points: `next` gives
    /// one point first.
    pub fn range() -> (r: FontSize)
        ensures
            r.scaled_spec() == 0,
            r.wf(),
    {
        FontSize { value: SCALED_MIN_FONT_SIZE - SCALE }
    }

    /// Steps to the size one point above and hands it out; at the largest
    /// size, stays and hands out nothing.
    pub fn next(&mut self) -> (r: Option<FontSize>)
        requires
            old(self).wf(),
        ensures
            final(self).wf(),
            match r {
                Some(size) => {
                    &&& FontSize::in_range(old(self).scaled_spec() + SCALE)
                    &&& size.scaled_spec() == old(self).scaled_spec() + SCALE
                    &&& *final(self) == size
                },
                None => !FontSize::in_range(old(self).scaled_spec() + SCALE) && *final(self) == *old(self),
            },
    {
        match self.step_up() {
            Ok(size) => {
                self.value = size.value;
                Some(size)
            },
            Err(_) => None,
        }
    }

    /// All sizes of whole points, from one point to 500, in ascending
    /// order.
    pub fn all() -> (r: Vec<FontSize>)
        ensures
            r@ == FontSize::all_spec(),
            r@.len() == MAX_FONT_SIZE,
            forall|i: int| 0 <= i < r@.len() ==> (#[trigger] r@[i]).scaled_spec() == (i + 1) * SCALE,
    {
        let mut r: Vec<FontSize> = Vec::new();
        let mut walk = FontSize::range();
        let mut done = false;
        while !done
            invariant
                walk.wf(),
                r@.len() <= MAX_FONT_SIZE,
                walk.scaled_spec() == r@.len() * SCALE,
                done ==> r@.len() == MAX_FONT_SIZE,
                forall|i: int| 0 <= i < r@.len() ==> (#[trigger] r@[i]).scaled_spec() == (i + 1) * SCALE,
            decreases MAX_FONT_SIZE - r@.len() + if done { 0int } else { 1int },
        {
            match walk.next() {
                Some(size) => {
                    r.push(size);
                },
                None => {
                    done = true;
                },
            }
        }
        proof {
            assert(r@ =~= FontSize::all_spec());
        }
        r
    }
}

/// A size is the size of its number of scaled points.
pub proof fn lemma_of_scaled(size: FontSize)
    ensures
        FontSize::of_scaled(size.scaled_spec()) == size,
{
}

/// Two sizes of the same number of scaled points are the same size.
pub proof fn lemma_same_size(a: FontSize, b: FontSize)
    requires
        a.scaled_spec() == b.scaled_spec(),
    ensures
        a == b,
{
}

impl Default for FontSize {
    /// Ten points.
    fn default() -> (r: FontSize)
        ensures
            r.scaled_spec() == DEFAULT_FONT_SIZE * SCALE,
            r.wf(),
    {
        FontSize { value: DEFAULT_FONT_SIZE * SCALE }
    }
}

/// The size of a font description, read and set as a checked font size.
pub trait FontDescriptionExt {
    /// The size that the description holds, in scaled points; zero where
    /// none is set.
    spec fn size_spec(&self) -> int;

    /// Sets the size.
    fn change_size(&mut self, new_size: &FontSize)
        ensures
            final(self).size_spec() == new_size.scaled_spec(),
    ;

    /// The size, where one is set that a text can be set in; else the
    /// number that is there.
    fn fetch_size(&self) -> (r: Result<FontSize, i32>)
        ensures
            match r {
                Ok(size) => FontSize::in_range(self.size_spec()) && size.scaled_spec() == self.size_spec(),
                Err(refused) => !FontSize::in_range(self.size_spec()) && refused == self.size_spec(),
            },
    ;
}

impl FontDescriptionExt for FontDescription {
    open spec fn size_spec(&self) -> int {
        match self.size {
            Some(size) => size as int,
            None => 0,
        }
    }

    fn change_size(&mut self, new_size: &FontSize) {
        self.size = Some(new_size.scaled());
    }

    fn fetch_size(&self) -> (r: Result<FontSize, i32>) {
        let size = match self.size {
            Some(size) => size,
            None => 0,
        };
        FontSize::new(size)
    }
}

/// Markup that was checked and that the backend has accepted.
#[derive(Debug)]
pub struct Markup {
    value: String,
}

/// What is wrong with a markup before the backend is asked: the message
/// for the first of these that holds. It is too long where, without the
/// whitespace at its ends, it has more than 1000 bytes; else it is unfit
/// where nothing is left of it, or a NUL is in it.
pub open spec fn markup_fault(m: Seq<char>) -> Option<Seq<char>> {
    let clean = trimmed(m);
    if byte_len(clean) > MAX_MARKUP_LEN {
        Some("Markup too long"@)
    } else if clean.len() == 0 || clean.contains('\0') {
        Some("Markup contains a null character or is empty"@)
    } else {
        None
    }
}

impl Markup {
    /// The markup as text.
    pub closed spec fn view(&self) -> Seq<char> {
        self.value@
    }

    /// The markup without the whitespace at its ends, where nothing is
    /// wrong with it; else the message that says what is.
    pub fn check(m: &str) -> (r: Result<String, &'static str>)
        ensures
            match r {
                Ok(clean) => markup_fault(m@) is None && clean@ == trimmed(m@),
                Err(message) => markup_fault(m@) == Some(message@),
            },
    {
        let chars = chars_of(m);
        let clean_chars = trim(&chars);
        let clean = string_of(&clean_chars);
        if exceeds_bytes(&clean_chars, MAX_MARKUP_LEN) {
            return Err("Markup too long");
        }
        if clean_chars.len() == 0 || contains_char(&clean_chars, '\0') {
            return Err("Markup contains a null character or is empty");
        }
        Ok(clean)
    }

    /// The markup `text`, where the backend parsed it on trial; else the
    /// message that it is malformed.
    pub fn from_trial(text: String, parsed: bool) -> (r: Result<Markup, &'static str>)
        ensures
            match r {
                Ok(markup) => parsed && markup@ == text@,
                Err(message) => !parsed && message@ == "Improperly formatted markup"@,
            },
    {
        if parsed {
            Ok(Markup { value: text })
        } else {
            Err("Improperly formatted markup")
        }
    }

    /// Checks `m` and makes it fit for the backend.
    ///
    /// The whitespace at its ends is left out. What is left must have at
    /// most 1000 bytes, must not be empty and must hold no NUL. Where it
    /// holds an ampersand, the ampersands of `m` that stand alone before
    /// whitespace are written as entities. The result is handed to
    /// `trial_parse`, which says whether the backend can parse it.
    pub fn new<F: Fn(&str) -> bool>(m: &str, trial_parse: F) -> (r: Result<Markup, &'static str>)
        requires
            forall|text: &str| call_requires(trial_parse, (text,)),
        ensures
            match r {
                Ok(markup) => {
                    &&& markup_fault(m@) is None
                    &&& markup@ == with_ampersands_escaped(trimmed(m@), m@)
                    &&& exists|text: &str| text@ == markup@ && #[trigger] call_ensures(trial_parse, (text,), true)
                },
                Err(message) => match markup_fault(m@) {
                    Some(fault) => message@ == fault,
                    None => {
                        &&& message@ == "Improperly formatted markup"@
                        &&& exists|text: &str|
                            text@ == with_ampersands_escaped(trimmed(m@), m@) && #[trigger] call_ensures(
                                trial_parse,
                                (text,),
                                false,
                            )
                    },
                },
            },
    {
        let clean = match Markup::check(m) {
            Ok(clean) => clean,
            Err(message) => {
                return Err(message);
            },
        };
        let text = escape_isolated_ampersands(clean.as_str(), m);
        let handed: &str = text.as_str();
        let parsed = trial_parse(handed);
        assert(call_ensures(trial_parse, (handed,), parsed));
        Markup::from_trial(text, parsed)
    }

    /// The markup as a string.
    pub fn to_string(&self) -> (s: String)
        ensures
            s@ == self@,
    {
        self.value.clone()
    }
}

} // verus!
