//! A text box: its markup, the widths, heights and font sizes that it may
//! take, and the padding around it.

use vstd::prelude::*;
use std::collections::BTreeSet;
use vstd::std_specs::iter::IteratorSpec;
use crate::errors::{IntParseFailure, SvgTextBoxError};
use crate::fontsizing::{
    ascending_members, lemma_ascending_members_of_list, lemma_members_below, lemma_range_values, range_to_vec,
    step_of, stepped_values,
};
use crate::layout::{
    always_callable, background_rect, candidate_fault, image_made, image_refused, whole_points, LayoutSource,
    Placement, Rectangle,
    RenderedTextbox, Trial,
};
use crate::attributes::pairs_of;
use crate::text::replaced;
use crate::markup::{clean_markup, cleaned, takes_any_text, trial_answers, unfit, Unfit};
use crate::pango_wrappers::{Alignment, AlignmentWrapper, FontDescription, FontDescriptionWrapper, SCALE};
use crate::text::{list_text, parse_u16_list, u16s_from_str, u16s_to_string};
use crate::utils::{ascending, lemma_ascending_list_unique, lemma_increasing_ascends};

verus! {

/// The members of `set` in ascending order.
pub fn ascending_vec(set: &BTreeSet<u16>) -> (r: Vec<u16>)
    ensures
        r@ == ascending_members(set@),
{
    let mut r: Vec<u16> = Vec::new();
    for x in it: set.iter()
        invariant
            it.seq() == set.iter().remaining(),
            r@.len() == it.index(),
            forall|k: int| 0 <= k < r@.len() ==> r@[k] == *it.seq()[k],
    {
        r.push(*x);
    }
    proof {
        let sorted = set.iter().remaining();
        assert(r@ == sorted.unref());
        lemma_increasing_ascends(sorted);
        assert(sorted.unref().to_set() == set@);
        lemma_members_below(set@, 0x10000);
        assert forall|x: u16| r@.contains(x) <==> ascending_members(set@).contains(x) by {
            assert(r@.contains(x) <==> r@.to_set().contains(x));
        }
        lemma_ascending_list_unique(r@, ascending_members(set@));
    }
    r
}

/// The ordered set of the members of `values`.
pub fn ordered_set_of(values: &Vec<u16>) -> (r: BTreeSet<u16>)
    ensures
        r@ == values@.to_set(),
{
    let mut r: BTreeSet<u16> = BTreeSet::new();
    let mut i: usize = 0;
    while i < values.len()
        invariant
            i <= values.len(),
            forall|x: u16| r@.contains(x) <==> exists|k: int| 0 <= k < i && values@[k] == x,
        decreases values.len() - i,
    {
        r.insert(values[i]);
        i += 1;
    }
    assert(r@ =~= values@.to_set());
    r
}

/// Widths, heights or font sizes that may be used: a set of them, or a
/// range.
#[derive(Debug, Clone)]
pub enum UnitContainer {
    /// A set of values.
    AsSet(BTreeSet<u16>),
    /// The values from `min` up to `max`, `step` apart; one apart where no
    /// step is given.
    AsRange { min: u16, max: u16, step: Option<usize> },
}

/// `units` is what the list `v` stands for: the range between two numbers
/// of which the second is the larger, else the set of the numbers.
pub open spec fn units_stand_for(v: Seq<u16>, units: UnitContainer) -> bool {
    if v.len() == 2 && v[0] < v[1] {
        units == (UnitContainer::AsRange { min: v[0], max: v[1], step: None })
    } else {
        units matches UnitContainer::AsSet(set) && set@ == v.to_set()
    }
}

/// What reading the text `s` as units gives: the failure of the first
/// token that is no number from 1 to 65535, `InvalidUnits` where there is
/// no token, else the list of numbers.
pub open spec fn units_read(s: Seq<char>) -> Result<Seq<u16>, SvgTextBoxError> {
    match parse_u16_list(s, true) {
        Err(e) => Err(SvgTextBoxError::BadIntParse(e)),
        Ok(v) => if v.len() == 0 {
            Err(SvgTextBoxError::InvalidUnits)
        } else {
            Ok(v)
        },
    }
}

impl UnitContainer {
    /// There is a value and none is zero; the ends of a range are in order
    /// and its step is not zero.
    pub open spec fn wf(&self) -> bool {
        match self {
            UnitContainer::AsSet(set) => !set@.contains(0u16) && exists|x: u16| set@.contains(x),
            UnitContainer::AsRange { min, max, step } => 0 < *min <= *max && step_of(*step) > 0,
        }
    }

    /// The values in ascending order, each once.
    pub open spec fn values(&self) -> Seq<u16> {
        match self {
            UnitContainer::AsSet(set) => ascending_members(set@),
            UnitContainer::AsRange { min, max, step } => stepped_values(*min as int, *max as int, step_of(*step)),
        }
    }

    /// The values in ascending order, each once.
    pub fn iter(&self) -> (r: Vec<u16>)
        ensures
            r@ == self.values(),
    {
        match self {
            UnitContainer::AsSet(set) => ascending_vec(set),
            UnitContainer::AsRange { min, max, step } => {
                let step: usize = match step {
                    Some(s) => *s,
                    None => 1,
                };
                range_to_vec(*min, *max, step)
            },
        }
    }

    /// The values as an ordered set.
    pub fn into_set(&self) -> (r: BTreeSet<u16>)
        ensures
            r@ == self.values().to_set(),
    {
        ordered_set_of(&self.iter())
    }

    /// The range from `min` to `max` in steps of `step`. The ends must be
    /// in order and above zero, and the step must not be zero.
    pub fn from_range_values(min: u16, max: u16, step: u16) -> (r: Result<UnitContainer, SvgTextBoxError>)
        ensures
            match r {
                Ok(units) => {
                    &&& 0 < min <= max && step > 0
                    &&& units == (UnitContainer::AsRange { min, max, step: Some(step as usize) })
                    &&& units.wf()
                },
                Err(e) => !(0 < min <= max && step > 0) && e == SvgTextBoxError::InvalidUnits,
            },
    {
        if min == 0 || min > max || step == 0 {
            return Err(SvgTextBoxError::InvalidUnits);
        }
        Ok(UnitContainer::AsRange { min, max, step: Some(step as usize) })
    }

    /// The range that a map of `min`, `max` and `step` stands for: from 1
    /// where no `min` is given, to 65535 where no `max` is given.
    pub fn from_map(min: Option<u16>, max: Option<u16>, step: Option<u16>) -> (r: Result<
        UnitContainer,
        SvgTextBoxError,
    >)
        ensures
            ({
                let low = match min {
                    Some(m) => m,
                    None => 1u16,
                };
                let high = match max {
                    Some(m) => m,
                    None => 0xffffu16,
                };
                let units = UnitContainer::AsRange {
                    min: low,
                    max: high,
                    step: match step {
                        Some(s) => Some(s as usize),
                        None => None,
                    },
                };
                match r {
                    Ok(made) => made == units && units.wf(),
                    Err(e) => !units.wf() && e == SvgTextBoxError::InvalidUnits,
                }
            }),
    {
        let low: u16 = match min {
            Some(m) => m,
            None => 1,
        };
        let high: u16 = match max {
            Some(m) => m,
            None => 0xffff,
        };
        let step_ok = match step {
            Some(s) => s > 0,
            None => true,
        };
        if low == 0 || low > high || !step_ok {
            return Err(SvgTextBoxError::InvalidUnits);
        }
        let step: Option<usize> = match step {
            Some(s) => Some(s as usize),
            None => None,
        };
        Ok(UnitContainer::AsRange { min: low, max: high, step })
    }

    /// The set of the values `values`. There must be one, and none may be
    /// zero.
    pub fn from_values(values: &Vec<u16>) -> (r: Result<UnitContainer, SvgTextBoxError>)
        ensures
            match r {
                Ok(units) => {
                    &&& values@.len() > 0 && !values@.contains(0u16)
                    &&& units matches UnitContainer::AsSet(set)
                    &&& set@ == values@.to_set()
                    &&& units.wf()
                },
                Err(e) => (values@.len() == 0 || values@.contains(0u16)) && e == SvgTextBoxError::InvalidUnits,
            },
    {
        if values.len() == 0 || crate::fontsizing::holds_zero(values) {
            return Err(SvgTextBoxError::InvalidUnits);
        }
        let set = ordered_set_of(values);
        proof {
            assert(values@.contains(values@[0]));
            assert(set@.contains(values@[0]));
        }
        Ok(UnitContainer::AsSet(set))
    }

    /// The single value `v`, which must be between 1 and 65535.
    pub fn from_u64(v: u64) -> (r: Result<UnitContainer, SvgTextBoxError>)
        ensures
            match r {
                Ok(units) => {
                    &&& 0 < v <= 0xffff
                    &&& units matches UnitContainer::AsSet(set)
                    &&& set@ == seq![v as u16].to_set()
                    &&& units.wf()
                },
                Err(e) => if v == 0 {
                    e == SvgTextBoxError::BadIntParse(IntParseFailure::Zero)
                } else {
                    v > 0xffff && e == SvgTextBoxError::BadIntParse(IntParseFailure::PosOverflow)
                },
            },
    {
        if v == 0 {
            return Err(SvgTextBoxError::BadIntParse(IntParseFailure::Zero));
        }
        if v > 0xffff {
            return Err(SvgTextBoxError::BadIntParse(IntParseFailure::PosOverflow));
        }
        let mut values: Vec<u16> = Vec::new();
        values.push(v as u16);
        assert(values@ == seq![v as u16]);
        match UnitContainer::from_values(&values) {
            Ok(units) => Ok(units),
            Err(e) => Err(e),
        }
    }

    /// The units that a list of numbers stands for.
    ///
    /// Two numbers of which the second is the larger stand for the range
    /// between them; to name a set of two values, put the larger one
    /// first. The list must hold a number, and no zero.
    pub fn from_list(v: &Vec<u16>) -> (r: Result<UnitContainer, SvgTextBoxError>)
        ensures
            match r {
                Ok(units) => v@.len() > 0 && !v@.contains(0u16) && units.wf() && units_stand_for(v@, units),
                Err(e) => (v@.len() == 0 || v@.contains(0u16)) && e == SvgTextBoxError::InvalidUnits,
            },
    {
        if v.len() == 0 || crate::fontsizing::holds_zero(v) {
            return Err(SvgTextBoxError::InvalidUnits);
        }
        if v.len() == 2 && v[0] < v[1] {
            proof {
                assert(v@.contains(v@[0]));
            }
            return Ok(UnitContainer::AsRange { min: v[0], max: v[1], step: None });
        }
        match UnitContainer::from_values(v) {
            Ok(units) => Ok(units),
            Err(e) => Err(e),
        }
    }

    /// Reads units from a text of numbers between whitespace, such as
    /// `100` or `100 200` or `200 100`.
    pub fn parse(s: &str) -> (r: Result<UnitContainer, SvgTextBoxError>)
        ensures
            match r {
                Ok(units) => units_read(s@) matches Ok(v) && units.wf() && units_stand_for(v, units),
                Err(e) => units_read(s@) == Err::<Seq<u16>, SvgTextBoxError>(e),
            },
    {
        match u16s_from_str(s, true) {
            Err(e) => Err(SvgTextBoxError::BadIntParse(e)),
            Ok(v) => {
                proof {
                    crate::fontsizing::lemma_nonzero_list(crate::text::tokens(s@));
                }
                match UnitContainer::from_list(&v) {
                    Ok(units) => Ok(units),
                    Err(e) => Err(e),
                }
            },
        }
    }

    /// The units are a range of step one with more than one value.
    pub open spec fn is_unit_range(&self) -> bool {
        self matches UnitContainer::AsRange { min, max, step } && step_of(*step) == 1 && *min < *max
    }

    /// The numbers that the units are written as: the two ends of a range
    /// of step one, else the values themselves, two values with the larger
    /// one first.
    pub open spec fn written_as(&self) -> Seq<u16> {
        if self.is_unit_range() {
            seq![self->min, self->max]
        } else {
            let values = self.values();
            if values.len() == 2 {
                seq![values[1], values[0]]
            } else {
                values
            }
        }
    }

    /// The numbers that the units are written as.
    pub fn to_list(&self) -> (r: Vec<u16>)
        ensures
            r@ == self.written_as(),
    {
        if let UnitContainer::AsRange { min, max, step } = self {
            let one = match step {
                Some(s) => *s == 1,
                None => true,
            };
            if one && *min < *max {
                let mut r: Vec<u16> = Vec::new();
                r.push(*min);
                r.push(*max);
                return r;
            }
        }
        let values = self.iter();
        if values.len() == 2 {
            let mut r: Vec<u16> = Vec::new();
            r.push(values[1]);
            r.push(values[0]);
            r
        } else {
            values
        }
    }

    /// The units as a text that `parse` reads.
    pub open spec fn text(&self) -> Seq<char> {
        list_text(self.written_as())
    }

    /// Writes the units as a text that `parse` reads back as units with
    /// the same values.
    pub fn serialize(&self) -> (s: String)
        ensures
            s@ == self.text(),
    {
        u16s_to_string(&self.to_list())
    }
}

/// The values of valid units ascend, none is zero, and there is one.
pub proof fn lemma_unit_values(units: UnitContainer)
    requires
        units.wf(),
    ensures
        ascending(units.values()),
        units.values().len() > 0,
        !units.values().contains(0u16),
{
    match units {
        UnitContainer::AsRange { min, max, step } => {
            lemma_range_values(min as int, max as int, step_of(step));
        },
        UnitContainer::AsSet(set) => {
            lemma_members_below(set@, 0x10000);
            let x = choose|x: u16| set@.contains(x);
            assert(units.values().contains(x));
        },
    }
}

/// Units that were written as a text are read back from it, and what is
/// read back has the same values.
pub proof fn lemma_units_round_trip(units: UnitContainer, back: UnitContainer)
    requires
        units.wf(),
    ensures
        units_read(units.text()) == Ok::<Seq<u16>, SvgTextBoxError>(units.written_as()),
        units_stand_for(units.written_as(), back) ==> back.values() == units.values(),
{
    let values = units.values();
    let list = units.written_as();
    lemma_unit_values(units);
    assert(!list.contains(0u16) && list.len() > 0) by {
        if list.contains(0u16) {
            let k = choose|k: int| 0 <= k < list.len() && list[k] == 0u16;
            if units.is_unit_range() {
            } else if values.len() == 2 {
                assert(values.contains(values[0]) && values.contains(values[1]));
            } else {
                assert(values.contains(list[k]));
            }
        }
    }
    crate::text::lemma_list_text_reads_back(list, true);
    if units_stand_for(list, back) {
        if units.is_unit_range() {
        } else if values.len() == 2 {
            assert(list.to_set() =~= values.to_set()) by {
                assert forall|x: u16| list.contains(x) <==> values.contains(x) by {
                    if list.contains(x) {
                        let k = choose|k: int| 0 <= k < list.len() && list[k] == x;
                        assert(values[1 - k] == x);
                    }
                    if values.contains(x) {
                        let k = choose|k: int| 0 <= k < values.len() && values[k] == x;
                        assert(list[1 - k] == x);
                    }
                }
            }
            lemma_ascending_members_of_list(values);
        } else {
            if values.len() >= 2 {
                assert(values[0] < values[1]);
            }
            lemma_ascending_members_of_list(values);
        }
    }
}

/// The font sizes of a text box for which none are given: 10 to 100.
pub fn get_default_font_size() -> (r: UnitContainer)
    ensures
        r == (UnitContainer::AsRange { min: 10, max: 100, step: None }),
        r.wf(),
{
    UnitContainer::AsRange { min: 10, max: 100, step: None }
}


/// Padding around a text box, in pixels.
#[derive(Debug, PartialEq, Eq, Structural, Clone, Copy)]
pub struct PaddingSpecification {
    top: u16,
    bottom: u16,
    left: u16,
    right: u16,
}

/// The padding that up to four lengths stand for, as in a style sheet: none
/// is no padding; one length is all four sides; two are top and bottom,
/// then right and left; three are top, then right and left, then bottom;
/// four are top, right, bottom and left. Lengths after the fourth are not
/// looked at. The sides are given as top, right, bottom and left.
pub open spec fn padding_of(v: Seq<u16>) -> (int, int, int, int) {
    if v.len() == 0 {
        (0, 0, 0, 0)
    } else if v.len() == 1 {
        (v[0] as int, v[0] as int, v[0] as int, v[0] as int)
    } else if v.len() == 2 {
        (v[0] as int, v[1] as int, v[0] as int, v[1] as int)
    } else if v.len() == 3 {
        (v[0] as int, v[1] as int, v[2] as int, v[1] as int)
    } else {
        (v[0] as int, v[1] as int, v[2] as int, v[3] as int)
    }
}

/// The names and lengths of `entries`, the names as texts.
pub open spec fn names_of(entries: Seq<(String, u16)>) -> Seq<(Seq<char>, u16)> {
    Seq::new(entries.len(), |i: int| (entries[i].0@, entries[i].1))
}

/// The sides that named lengths stand for, as top, right, bottom and left.
pub open spec fn named_sides(entries: Seq<(Seq<char>, u16)>) -> (int, int, int, int)
    decreases entries.len(),
{
    if entries.len() == 0 {
        (0, 0, 0, 0)
    } else {
        let before = named_sides(entries.drop_last());
        let name = entries.last().0;
        let v = entries.last().1 as int;
        if name == "padding-top"@ || name == "top"@ {
            (v, before.1, before.2, before.3)
        } else if name == "padding-bottom"@ || name == "bottom"@ {
            (before.0, before.1, v, before.3)
        } else if name == "padding-right"@ || name == "right"@ {
            (before.0, v, before.2, before.3)
        } else if name == "padding-left"@ || name == "left"@ {
            (before.0, before.1, before.2, v)
        } else {
            before
        }
    }
}

impl PaddingSpecification {
    /// The padding on the left.
    pub closed spec fn left_spec(&self) -> int {
        self.left as int
    }

    /// The padding on the right.
    pub closed spec fn right_spec(&self) -> int {
        self.right as int
    }

    /// The padding at the top.
    pub closed spec fn top_spec(&self) -> int {
        self.top as int
    }

    /// The padding at the bottom.
    pub closed spec fn bottom_spec(&self) -> int {
        self.bottom as int
    }

    /// The four sides: top, right, bottom and left.
    pub open spec fn sides(&self) -> (int, int, int, int) {
        (self.top_spec(), self.right_spec(), self.bottom_spec(), self.left_spec())
    }

    /// Left and right padding together.
    pub open spec fn horizontal(&self) -> int {
        self.left_spec() + self.right_spec()
    }

    /// Top and bottom padding together.
    pub open spec fn vertical(&self) -> int {
        self.top_spec() + self.bottom_spec()
    }

    /// The padding with the given sides.
    pub fn new(top: u16, right: u16, bottom: u16, left: u16) -> (p: PaddingSpecification)
        ensures
            p.sides() == (top as int, right as int, bottom as int, left as int),
    {
        PaddingSpecification { top, right, bottom, left }
    }

    /// The padding that up to four lengths stand for.
    pub fn from_values(v: &Vec<u16>) -> (p: PaddingSpecification)
        ensures
            p.sides() == padding_of(v@),
    {
        if v.len() == 0 {
            PaddingSpecification { top: 0, right: 0, bottom: 0, left: 0 }
        } else if v.len() == 1 {
            PaddingSpecification { top: v[0], right: v[0], bottom: v[0], left: v[0] }
        } else if v.len() == 2 {
            PaddingSpecification { top: v[0], right: v[1], bottom: v[0], left: v[1] }
        } else if v.len() == 3 {
            PaddingSpecification { top: v[0], right: v[1], bottom: v[2], left: v[1] }
        } else {
            PaddingSpecification { top: v[0], right: v[1], bottom: v[2], left: v[3] }
        }
    }

    /// The padding that named lengths stand for: `top`, `right`, `bottom`
    /// and `left`, each also with `padding-` before it. A side that is not
    /// named has no padding; of a side that is named more than once, the
    /// last length counts; other names are not looked at.
    pub fn from_named(entries: &Vec<(String, u16)>) -> (p: PaddingSpecification)
        ensures
            p.sides() == named_sides(names_of(entries@)),
    {
        let mut p = PaddingSpecification { top: 0, right: 0, bottom: 0, left: 0 };
        let mut i: usize = 0;
        assert(names_of(entries@).take(0) =~= Seq::<(Seq<char>, u16)>::empty());
        while i < entries.len()
            invariant
                i <= entries.len(),
                p.sides() == named_sides(names_of(entries@).take(i as int)),
            decreases entries.len() - i,
        {
            proof {
                let next = names_of(entries@).take(i + 1);
                assert(next.drop_last() == names_of(entries@).take(i as int));
                assert(next.last() == (entries@[i as int].0@, entries@[i as int].1));
            }
            let name = entries[i].0.as_str();
            let v = entries[i].1;
            if crate::text::str_eq(name, "padding-top") || crate::text::str_eq(name, "top") {
                p.top = v;
            } else if crate::text::str_eq(name, "padding-bottom") || crate::text::str_eq(name, "bottom") {
                p.bottom = v;
            } else if crate::text::str_eq(name, "padding-right") || crate::text::str_eq(name, "right") {
                p.right = v;
            } else if crate::text::str_eq(name, "padding-left") || crate::text::str_eq(name, "left") {
                p.left = v;
            }
            i += 1;
        }
        assert(names_of(entries@).take(i as int) == names_of(entries@));
        p
    }

    /// Reads a padding from a text of up to four lengths between
    /// whitespace.
    pub fn parse(s: &str) -> (r: Result<PaddingSpecification, IntParseFailure>)
        ensures
            match r {
                Ok(p) => parse_u16_list(s@, false) matches Ok(v) && p.sides() == padding_of(v),
                Err(e) => parse_u16_list(s@, false) == Err::<Seq<u16>, IntParseFailure>(e),
            },
    {
        match u16s_from_str(s, false) {
            Ok(v) => Ok(PaddingSpecification::from_values(&v)),
            Err(e) => Err(e),
        }
    }

    /// The padding on the left.
    pub fn left(&self) -> (r: u16)
        ensures
            r == self.left_spec(),
    {
        self.left
    }

    /// The padding at the top.
    pub fn top(&self) -> (r: u16)
        ensures
            r == self.top_spec(),
    {
        self.top
    }

    /// Left and right padding together.
    pub fn total_horizontal_padding(&self) -> (r: i32)
        ensures
            r == self.horizontal(),
            0 <= r <= 131070,
    {
        self.left as i32 + self.right as i32
    }

    /// Top and bottom padding together.
    pub fn total_vertical_padding(&self) -> (r: i32)
        ensures
            r == self.vertical(),
            0 <= r <= 131070,
    {
        self.top as i32 + self.bottom as i32
    }

    /// Whether there is padding on any side.
    pub fn has_values(&self) -> (r: bool)
        ensures
            r == (self.top_spec() != 0 || self.bottom_spec() != 0 || self.left_spec() != 0 || self.right_spec()
                != 0),
    {
        self.top != 0 || self.bottom != 0 || self.left != 0 || self.right != 0
    }
}

/// The padding of each side is a length of 16 bits.
pub proof fn lemma_padding_bounds(p: PaddingSpecification)
    ensures
        0 <= p.left_spec() <= 0xffff,
        0 <= p.right_spec() <= 0xffff,
        0 <= p.top_spec() <= 0xffff,
        0 <= p.bottom_spec() <= 0xffff,
        0 <= p.horizontal() <= 131070,
        0 <= p.vertical() <= 131070,
{
}

impl Default for PaddingSpecification {
    /// No padding.
    fn default() -> (p: PaddingSpecification)
        ensures
            p.sides() == (0int, 0int, 0int, 0int),
    {
        PaddingSpecification { top: 0, right: 0, bottom: 0, left: 0 }
    }
}

/// Markup that the backend accepts: it holds no NUL, its isolated
/// ampersands are written as entities, and a trial parse went through.
#[derive(Debug, PartialEq, Eq, Clone)]
pub struct PangoCompatibleString(String);

impl PangoCompatibleString {
    /// The markup as text.
    pub closed spec fn view(&self) -> Seq<char> {
        self.0@
    }

    /// Checks `s` and makes it fit for the backend; `trial_parse` says
    /// whether the backend can parse what is handed to it.
    pub fn new<F: Fn(&str) -> bool>(s: &str, trial_parse: F) -> (r: Result<PangoCompatibleString, SvgTextBoxError>)
        requires
            takes_any_text(trial_parse),
        ensures
            match r {
                Ok(markup) => {
                    &&& unfit(s@) is None
                    &&& markup@ == cleaned(s@)
                    &&& trial_answers(trial_parse, cleaned(s@), true)
                },
                Err(SvgTextBoxError::PCSWhitespace) => unfit(s@) == Some(Unfit::Whitespace),
                Err(SvgTextBoxError::BadChar(src)) => unfit(s@) == Some(Unfit::BadChar) && src@ == s@,
                Err(SvgTextBoxError::GlibErr(src)) => {
                    &&& unfit(s@) is None
                    &&& src@ == s@
                    &&& trial_answers(trial_parse, cleaned(s@), false)
                },
                Err(_) => false,
            },
    {
        match clean_markup(s) {
            Err(Unfit::Whitespace) => Err(SvgTextBoxError::PCSWhitespace),
            Err(Unfit::BadChar) => Err(SvgTextBoxError::BadChar(s.to_owned())),
            Ok(text) => {
                let handed: &str = text.as_str();
                let parsed = trial_parse(handed);
                assert(call_ensures(trial_parse, (handed,), parsed));
                PangoCompatibleString::from_trial(s, text, parsed)
            },
        }
    }

    /// The markup `text` that was made of `src`, where the backend parsed
    /// it on trial; else the error that it did not.
    pub fn from_trial(src: &str, text: String, parsed: bool) -> (r: Result<PangoCompatibleString, SvgTextBoxError>)
        ensures
            match r {
                Ok(markup) => parsed && markup@ == text@,
                Err(e) => {
                    &&& !parsed
                    &&& e matches SvgTextBoxError::GlibErr(reported)
                    &&& reported@ == src@
                },
            },
    {
        if parsed {
            Ok(PangoCompatibleString(text))
        } else {
            Err(SvgTextBoxError::GlibErr(src.to_owned()))
        }
    }

    /// The markup as text.
    pub fn as_ref(&self) -> (s: &str)
        ensures
            s@ == self@,
    {
        self.0.as_str()
    }

    /// The markup as a string.
    pub fn to_string(&self) -> (s: String)
        ensures
            s@ == self@,
    {
        self.0.clone()
    }
}

impl Default for PangoCompatibleString {
    /// The empty markup.
    fn default() -> (r: PangoCompatibleString)
        ensures
            r@.len() == 0,
    {
        PangoCompatibleString(String::new())
    }
}

/// The lengths `values`, in pixels, in the unit of the backend, each less
/// `padding` pixels.
pub open spec fn scaled_less(values: Seq<u16>, padding: int) -> Seq<i32> {
    Seq::new(values.len(), |i: int| (values[i] * SCALE - padding * SCALE) as i32)
}

/// The lengths `values`, in pixels, in the unit of the backend, each less
/// `padding` pixels.
pub fn scale_less(values: &Vec<u16>, padding: i32) -> (r: Vec<i32>)
    requires
        0 <= padding <= 131070,
    ensures
        r@ == scaled_less(values@, padding as int),
{
    let mut r: Vec<i32> = Vec::new();
    let mut i: usize = 0;
    while i < values.len()
        invariant
            i <= values.len(),
            0 <= padding <= 131070,
            r@ == scaled_less(values@.take(i as int), padding as int),
        decreases values.len() - i,
    {
        let scaled: i32 = values[i] as i32 * 1024 - padding * 1024;
        r.push(scaled);
        proof {
            assert(SCALE == 1024);
            assert(r@ =~= scaled_less(values@.take(i + 1), padding as int));
        }
        i += 1;
    }
    assert(values@.take(i as int) == values@);
    r
}

/// A text box, possibly with flexible dimensions, whose text is set as
/// large as it fits.
#[derive(Debug, Clone)]
pub struct TextBox {
    /// The text, which may be marked up.
    pub markup: PangoCompatibleString,
    /// The possible widths, in pixels, padding included.
    pub width: UnitContainer,
    /// The possible heights, in pixels, padding included.
    pub height: UnitContainer,
    /// The font.
    pub font_desc: FontDescriptionWrapper,
    /// The alignment of the text.
    pub alignment: AlignmentWrapper,
    /// The possible font sizes, in points.
    pub font_size: UnitContainer,
    /// The padding between the sides of the box and the text.
    pub padding: PaddingSpecification,
    /// Attributes for the rectangle behind the text: names and values.
    pub padding_attrs: Vec<(String, String)>,
}

impl TextBox {
    /// A text box with the default font, centred, in sizes from 1 to 100
    /// points, without padding.
    pub fn new(markup: PangoCompatibleString, width: UnitContainer, height: UnitContainer) -> (r: TextBox)
        ensures
            r.markup == markup,
            r.width == width,
            r.height == height,
            r.alignment.0 == Alignment::Center,
            r.font_desc.0.text@.len() == 0,
            r.font_desc.0.size is None,
            r.font_size == (UnitContainer::AsRange { min: 1, max: 100, step: None }),
            r.padding.sides() == (0int, 0int, 0int, 0int),
            r.padding_attrs@.len() == 0,
    {
        TextBox {
            markup,
            width,
            height,
            alignment: AlignmentWrapper::default(),
            font_desc: FontDescriptionWrapper::default(),
            font_size: UnitContainer::AsRange { min: 1, max: 100, step: None },
            padding: PaddingSpecification::default(),
            padding_attrs: Vec::new(),
        }
    }

    /// Sets the possible font sizes.
    pub fn set_font_size(&mut self, value: UnitContainer)
        ensures
            *final(self) == (TextBox { font_size: value, ..*old(self) }),
    {
        self.font_size = value;
    }

    /// Sets the font.
    pub fn set_font_desc(&mut self, value: FontDescriptionWrapper)
        ensures
            *final(self) == (TextBox { font_desc: value, ..*old(self) }),
    {
        self.font_desc = value;
    }

    /// Sets the alignment.
    pub fn set_alignment(&mut self, value: AlignmentWrapper)
        ensures
            *final(self) == (TextBox { alignment: value, ..*old(self) }),
    {
        self.alignment = value;
    }

    /// Sets the padding.
    pub fn set_padding(&mut self, value: PaddingSpecification)
        ensures
            *final(self) == (TextBox { padding: value, ..*old(self) }),
    {
        self.padding = value;
    }

    /// Sets the attributes of the rectangle behind the text.
    pub fn set_padding_attrs(&mut self, value: Vec<(String, String)>)
        ensures
            *final(self) == (TextBox { padding_attrs: value, ..*old(self) }),
    {
        self.padding_attrs = value;
    }

    /// Finds the layout of the text box and has it rendered; where there
    /// is padding, and attributes for it, a rectangle with these attributes
    /// is put behind the text.
    pub fn to_svg_image<
        S,
        F: Fn(S, Trial) -> (S, bool),
        M: Fn(&S) -> Rectangle,
        R: FnOnce(S, Placement) -> Result<String, SvgTextBoxError>,
    >(&self, state: S, probe: &F, measure: M, render: R) -> (r: Result<RenderedTextbox, SvgTextBoxError>)
        requires
            always_callable(*probe),
            forall|s: &S| call_requires(measure, (s,)),
            forall|s: S, p: Placement| call_requires(render, (s, p)),
        ensures
            r is Ok ==> candidate_fault(self) is None,
            r matches Ok(image) ==> exists|plain: RenderedTextbox| #[trigger]
                image_made(self, *probe, measure, render, state, plain) && image.width == plain.width
                    && image.height == plain.height && image.src@ == if self.padding.horizontal()
                    + self.padding.vertical() > 0 && self.padding_attrs@.len() > 0 {
                    replaced(
                        plain.src@,
                        "</defs>"@,
                        background_rect(pairs_of(self.padding_attrs@), plain.width as int, plain.height as int),
                    )
                } else {
                    plain.src@
                },
            r matches Err(e) ==> image_refused(self, *probe, measure, render, state, e),
    {
        let mut image = match RenderedTextbox::new(self, state, probe, measure, render) {
            Ok(image) => image,
            Err(e) => {
                return Err(e);
            },
        };
        let ghost plain = image;
        if self.has_background() {
            image.insert_background_rect(&self.padding_attrs);
        }
        proof {
            assert(image_made(self, *probe, measure, render, state, plain));
        }
        Ok(image)
    }

    /// Whether a rectangle is drawn behind the text: where there is
    /// padding, and attributes for the rectangle.
    pub fn has_background(&self) -> (r: bool)
        ensures
            r == (self.padding.horizontal() + self.padding.vertical() > 0 && self.padding_attrs@.len() > 0),
    {
        self.padding.has_values() && self.padding_attrs.len() > 0
    }
}

impl LayoutSource for TextBox {
    /// The font sizes of the box, in the unit of the backend.
    open spec fn font_sizes(&self) -> Seq<i32> {
        scaled_less(self.font_size.values(), 0)
    }

    /// The heights of the box without its padding, in the unit of the
    /// backend.
    open spec fn heights(&self) -> Seq<i32> {
        scaled_less(self.height.values(), self.padding.vertical())
    }

    /// The widths of the box without its padding, in the unit of the
    /// backend.
    open spec fn widths(&self) -> Seq<i32> {
        scaled_less(self.width.values(), self.padding.horizontal())
    }

    fn possible_font_sizes(&self) -> (sizes: Vec<i32>) {
        scale_less(&self.font_size.iter(), 0)
    }

    fn possible_heights(&self) -> (heights: Vec<i32>) {
        scale_less(&self.height.iter(), self.padding.total_vertical_padding())
    }

    fn possible_widths(&self) -> (widths: Vec<i32>) {
        scale_less(&self.width.iter(), self.padding.total_horizontal_padding())
    }

    /// The font of the text box.
    fn font_description(&self) -> (r: &FontDescription)
        ensures
            *r == self.font_desc.0,
    {
        &self.font_desc.0
    }

    /// The markup of the text box.
    fn markup(&self) -> (r: &str)
        ensures
            r@ == self.markup@,
    {
        self.markup.as_ref()
    }

    /// The alignment of the text box.
    fn alignment(&self) -> (r: Alignment)
        ensures
            r == self.alignment.0,
    {
        self.alignment.0
    }

    /// The width of the image: that of the layout and the padding on both
    /// sides.
    open spec fn image_width(&self, layout_width: i32) -> int {
        whole_points(layout_width as int) + self.padding.horizontal()
    }

    /// The height of the image: that of the layout and the padding above
    /// and below.
    open spec fn image_height(&self, layout_height: i32) -> int {
        whole_points(layout_height as int) + self.padding.vertical()
    }

    /// The layout stands to the right of the padding on the left.
    open spec fn image_x(&self) -> int {
        self.padding.left_spec()
    }

    /// The layout stands below the padding at the top.
    open spec fn image_y(&self) -> int {
        self.padding.top_spec()
    }

    fn output_width(&self, layout_width: i32) -> (r: i32) {
        layout_width / SCALE + self.padding.total_horizontal_padding()
    }

    fn output_height(&self, layout_height: i32) -> (r: i32) {
        layout_height / SCALE + self.padding.total_vertical_padding()
    }

    fn output_x(&self) -> (r: i32) {
        self.padding.left() as i32
    }

    fn output_y(&self) -> (r: i32) {
        self.padding.top() as i32
    }

    fn centre_output_vertically(&self) -> (r: bool) {
        true
    }
}

/// Padding is taken off each width and height before the text is laid out
/// and put back around the layout afterwards: the image of a layout that
/// was made for a width and a height of the box has that width and that
/// height again, and the layout stands in it at the left and top padding.
pub proof fn lemma_padding_is_restored(textbox: TextBox, i: int, j: int)
    requires
        0 <= i < textbox.width.values().len(),
        0 <= j < textbox.height.values().len(),
        textbox.widths()[i] > 0,
        textbox.heights()[j] > 0,
    ensures
        textbox.image_width(textbox.widths()[i]) == textbox.width.values()[i],
        textbox.image_height(textbox.heights()[j]) == textbox.height.values()[j],
        textbox.image_width(textbox.widths()[i]) == whole_points(textbox.widths()[i] as int)
            + textbox.padding.horizontal(),
        textbox.image_height(textbox.heights()[j]) == whole_points(textbox.heights()[j] as int)
            + textbox.padding.vertical(),
        textbox.image_x() == textbox.padding.left_spec(),
        textbox.image_y() == textbox.padding.top_spec(),
{
    let w = textbox.width.values()[i] as int;
    let h = textbox.height.values()[j] as int;
    let hp = textbox.padding.horizontal();
    let vp = textbox.padding.vertical();
    assert(SCALE == 1024);
    assert(textbox.widths()[i] == (w - hp) * 1024);
    assert(textbox.heights()[j] == (h - vp) * 1024);
    assert(((w - hp) * 1024) / 1024 == w - hp);
    assert(((h - vp) * 1024) / 1024 == h - vp);
}

} // verus!
