//! The font sizes that a text may be set in.

use vstd::prelude::*;
use std::collections::HashSet;
use crate::errors::{IntParseFailure, SvgTextBoxError};
use crate::pango_wrappers::SCALE;
use crate::text::{parse_u16_list, u16s_from_str};
use crate::utils::{ascending, lemma_ascending_list_unique, members_of, set_of, sorted_unique_u16};

verus! {

/// The largest size of a range whose upper end was not given.
pub const DEFAULT_MAX_SIZE: u16 = 500;

/// The smallest size of a range whose lower end was not given.
pub const DEFAULT_MIN_SIZE: u16 = 1;

/// The numbers from `from` up to `max`, `step` apart.
pub open spec fn range_values(from: int, max: int, step: int) -> Seq<u16>
    decreases max - from + step,
    when step > 0
{
    if from > max {
        Seq::empty()
    } else {
        seq![from as u16] + range_values(from + step, max, step)
    }
}

/// The numbers from `min` up to `max`, `step` apart; none where the step
/// is zero.
pub open spec fn stepped_values(min: int, max: int, step: int) -> Seq<u16> {
    if step > 0 {
        range_values(min, max, step)
    } else {
        Seq::empty()
    }
}

/// The numbers from `min` up to `max`, `step` apart.
pub fn range_to_vec(min: u16, max: u16, step: usize) -> (r: Vec<u16>)
    ensures
        r@ == stepped_values(min as int, max as int, step as int),
{
    let mut r: Vec<u16> = Vec::new();
    if min > max || step == 0 {
        return r;
    }
    let top: usize = max as usize;
    let mut v: usize = min as usize;
    while v <= top
        invariant
            step > 0,
            top == max,
            min <= v <= top + 1,
            r@ + range_values(v as int, max as int, step as int) == range_values(
                min as int,
                max as int,
                step as int,
            ),
        decreases top + 1 - v,
    {
        r.push(v as u16);
        if step > top - v {
            proof {
                assert(range_values(v + step, max as int, step as int) == Seq::<u16>::empty());
                assert(range_values(top + 1, max as int, step as int) == Seq::<u16>::empty());
                assert(range_values(v as int, max as int, step as int) == seq![v as u16]);
            }
            v = top + 1;
        } else {
            proof {
                assert(r@ + range_values(v + step, max as int, step as int) == r@.drop_last() + range_values(
                    v as int,
                    max as int,
                    step as int,
                ));
            }
            v = v + step;
        }
    }
    proof {
        assert(range_values(v as int, max as int, step as int) == Seq::<u16>::empty());
        assert(r@ + Seq::<u16>::empty() == r@);
    }
    r
}


/// The members of `set` that are below `k`, in ascending order.
pub open spec fn members_below(set: Set<u16>, k: nat) -> Seq<u16>
    decreases k,
{
    if k == 0 {
        Seq::empty()
    } else {
        let before = members_below(set, (k - 1) as nat);
        if k <= 0x10000 && set.contains((k - 1) as u16) {
            before.push((k - 1) as u16)
        } else {
            before
        }
    }
}

/// The members of `set` in ascending order.
pub open spec fn ascending_members(set: Set<u16>) -> Seq<u16> {
    members_below(set, 0x10000)
}

/// The members below `k` ascend, and are the members below `k`.
pub proof fn lemma_members_below(set: Set<u16>, k: nat)
    requires
        k <= 0x10000,
    ensures
        ascending(members_below(set, k)),
        forall|x: u16| #[trigger] members_below(set, k).contains(x) <==> set.contains(x) && x < k,
    decreases k,
{
    let all = members_below(set, k);
    if k > 0 {
        let before = members_below(set, (k - 1) as nat);
        lemma_members_below(set, (k - 1) as nat);
        let top = (k - 1) as u16;
        if set.contains(top) {
            assert(all == before.push(top));
            assert forall|i: int, j: int| 0 <= i < j < all.len() implies all[i] < all[j] by {
                assert(all[i] == before[i]);
                assert(before.contains(before[i]));
                if j < before.len() {
                    assert(before[j] == all[j]);
                    assert(before[i] < before[j]);
                } else {
                    assert(all[j] == top);
                    assert(before[i] < k - 1);
                    assert(top == k - 1);
                }
            }
            assert forall|x: u16| all.contains(x) <==> set.contains(x) && x < k by {
                if all.contains(x) {
                    let i = choose|i: int| 0 <= i < all.len() && all[i] == x;
                    if i < before.len() {
                        assert(before[i] == x);
                        assert(before.contains(x));
                    }
                }
                if set.contains(x) && x < k {
                    if x == top {
                        assert(all[before.len() as int] == x);
                    } else {
                        assert(before.contains(x));
                        let i = choose|i: int| 0 <= i < before.len() && before[i] == x;
                        assert(all[i] == x);
                    }
                }
            }
        } else {
            assert(all == before);
        }
    }
}

/// An ascending list is the list of its members in ascending order.
pub proof fn lemma_ascending_members_of_list(list: Seq<u16>)
    requires
        ascending(list),
    ensures
        ascending_members(list.to_set()) == list,
{
    let set = list.to_set();
    lemma_members_below(set, 0x10000);
    assert forall|x: u16| list.contains(x) <==> ascending_members(set).contains(x) by {
        assert(set.contains(x) <==> list.contains(x));
        assert(x < 0x10000);
    }
    lemma_ascending_list_unique(list, ascending_members(set));
}

/// The members of `set` in ascending order.
pub fn sorted_members(set: &HashSet<u16>) -> (r: Vec<u16>)
    ensures
        r@ == ascending_members(set@),
{
    let members = members_of(set);
    let r = sorted_unique_u16(&members);
    proof {
        lemma_members_below(set@, 0x10000);
        assert forall|x: u16| r@.contains(x) <==> ascending_members(set@).contains(x) by {
            assert(members@.contains(x) <==> members@.to_set().contains(x));
        }
        lemma_ascending_list_unique(r@, ascending_members(set@));
    }
    r
}

/// The step of a range: one where none is given.
pub open spec fn step_of(step: Option<usize>) -> int {
    match step {
        Some(s) => s as int,
        None => 1,
    }
}

/// The font sizes that may be used, in points.
#[derive(Debug, PartialEq)]
pub enum FontSizing {
    /// A single size.
    Static(u16),
    /// The sizes from `min` up to `max`, `step` apart; one apart where no
    /// step is given.
    Range { min: u16, max: u16, step: Option<usize> },
    /// A selection of sizes.
    Flex(HashSet<u16>),
}

impl Clone for FontSizing {
    fn clone(&self) -> (r: FontSizing)
        ensures
            r.wf() == self.wf(),
            r.values() == self.values(),
    {
        match self {
            FontSizing::Static(size) => FontSizing::Static(*size),
            FontSizing::Range { min, max, step } => FontSizing::Range { min: *min, max: *max, step: *step },
            FontSizing::Flex(sizes) => {
                let members = members_of(sizes);
                let copy = set_of(&members);
                FontSizing::Flex(copy)
            },
        }
    }
}

impl FontSizing {
    /// Every size is above zero and there is at least one; the ends of a
    /// range are in order and its step is not zero.
    pub open spec fn wf(&self) -> bool {
        match self {
            FontSizing::Static(size) => *size > 0,
            FontSizing::Range { min, max, step } => 0 < *min <= *max && step_of(*step) > 0,
            FontSizing::Flex(sizes) => sizes@.len() > 0 && !sizes@.contains(0u16),
        }
    }

    /// The sizes in ascending order, each once.
    pub open spec fn values(&self) -> Seq<u16> {
        match self {
            FontSizing::Static(size) => seq![*size],
            FontSizing::Range { min, max, step } => stepped_values(*min as int, *max as int, step_of(*step)),
            FontSizing::Flex(sizes) => ascending_members(sizes@),
        }
    }

    /// The sizing with `s` as its smallest size: a range keeps its largest
    /// size and its step, anything else becomes the range from `s` to 500.
    pub open spec fn with_min_size(self, s: u16) -> FontSizing {
        match self {
            FontSizing::Range { min, max, step } => FontSizing::Range { min: s, max, step },
            _ => FontSizing::Range { min: s, max: DEFAULT_MAX_SIZE, step: None },
        }
    }

    /// The sizing with `s` as its largest size: a range keeps its smallest
    /// size and its step, anything else becomes the range from 1 to `s`.
    pub open spec fn with_max_size(self, s: u16) -> FontSizing {
        match self {
            FontSizing::Range { min, max, step } => FontSizing::Range { min, max: s, step },
            _ => FontSizing::Range { min: DEFAULT_MIN_SIZE, max: s, step: None },
        }
    }

    /// The sizing with the step `s`, where it is a range; else itself.
    pub open spec fn with_step(self, s: usize) -> FontSizing {
        match self {
            FontSizing::Range { min, max, step } => FontSizing::Range { min, max, step: Some(s) },
            _ => self,
        }
    }

    /// Whether the sizing is valid.
    pub fn is_valid(&self) -> (b: bool)
        ensures
            b == self.wf(),
    {
        match self {
            FontSizing::Static(size) => *size > 0,
            FontSizing::Range { min, max, step } => {
                let step_ok = match step {
                    Some(s) => *s > 0,
                    None => true,
                };
                0 < *min && *min <= *max && step_ok
            },
            FontSizing::Flex(sizes) => {
                broadcast use vstd::std_specs::hash::group_hash_axioms;

                let zero: u16 = 0;
                sizes.len() > 0 && !sizes.contains(&zero)
            },
        }
    }

    /// Sets the smallest size. What comes of it must be valid: a range
    /// whose ends are out of order, or that starts at zero, is refused.
    pub fn set_min_size(self, s: u16) -> (r: Result<FontSizing, SvgTextBoxError>)
        ensures
            match r {
                Ok(sizing) => sizing == self.with_min_size(s) && sizing.wf(),
                Err(e) => e == SvgTextBoxError::NoValidFontSizes && !self.with_min_size(s).wf(),
            },
    {
        let sizing = match self {
            FontSizing::Range { min, max, step } => FontSizing::Range { min: s, max, step },
            _ => FontSizing::Range { min: s, max: DEFAULT_MAX_SIZE, step: None },
        };
        if sizing.is_valid() {
            Ok(sizing)
        } else {
            Err(SvgTextBoxError::NoValidFontSizes)
        }
    }

    /// Sets the largest size. What comes of it must be valid: a range whose
    /// ends are out of order is refused.
    pub fn set_max_size(self, s: u16) -> (r: Result<FontSizing, SvgTextBoxError>)
        ensures
            match r {
                Ok(sizing) => sizing == self.with_max_size(s) && sizing.wf(),
                Err(e) => e == SvgTextBoxError::NoValidFontSizes && !self.with_max_size(s).wf(),
            },
    {
        let sizing = match self {
            FontSizing::Range { min, max, step } => FontSizing::Range { min, max: s, step },
            _ => FontSizing::Range { min: DEFAULT_MIN_SIZE, max: s, step: None },
        };
        if sizing.is_valid() {
            Ok(sizing)
        } else {
            Err(SvgTextBoxError::NoValidFontSizes)
        }
    }

    /// Sets the step of a range, and leaves anything else as it is. What
    /// comes of it must be valid: a step of zero is refused.
    pub fn set_step(self, s: usize) -> (r: Result<FontSizing, SvgTextBoxError>)
        ensures
            match r {
                Ok(sizing) => sizing == self.with_step(s) && sizing.wf(),
                Err(e) => e == SvgTextBoxError::NoValidFontSizes && !self.with_step(s).wf(),
            },
    {
        let sizing = match self {
            FontSizing::Range { min, max, step } => FontSizing::Range { min, max, step: Some(s) },
            other => other,
        };
        if sizing.is_valid() {
            Ok(sizing)
        } else {
            Err(SvgTextBoxError::NoValidFontSizes)
        }
    }

    /// All possible font sizes, in ascending order.
    pub fn to_vec(&self) -> (r: Vec<u16>)
        ensures
            r@ == self.values(),
    {
        match self {
            FontSizing::Static(size) => {
                let mut r: Vec<u16> = Vec::new();
                r.push(*size);
                r
            },
            FontSizing::Range { min, max, step } => {
                let step: usize = match step {
                    Some(s) => *s,
                    None => 1,
                };
                range_to_vec(*min, *max, step)
            },
            FontSizing::Flex(sizes) => sorted_members(sizes),
        }
    }
}


/// The members of a range lie between its ends, and the range ascends.
pub proof fn lemma_range_values(from: int, max: int, step: int)
    requires
        step > 0,
        0 <= from,
        max <= 0xffff,
    ensures
        ascending(range_values(from, max, step)),
        forall|x: u16| range_values(from, max, step).contains(x) ==> from <= x <= max,
        from <= max ==> range_values(from, max, step).len() > 0 && range_values(from, max, step)[0] == from,
    decreases max - from + step,
{
    let all = range_values(from, max, step);
    if from <= max {
        let rest = range_values(from + step, max, step);
        lemma_range_values(from + step, max, step);
        assert(all == seq![from as u16] + rest);
        assert forall|x: u16| all.contains(x) implies from <= x <= max by {
            let k = choose|k: int| 0 <= k < all.len() && all[k] == x;
            if k > 0 {
                assert(rest[k - 1] == x);
                assert(rest.contains(x));
            }
        }
        assert forall|i: int, j: int| 0 <= i < j < all.len() implies all[i] < all[j] by {
            assert(rest[j - 1] == all[j]);
            assert(rest.contains(all[j]));
            if i > 0 {
                assert(rest[i - 1] == all[i]);
            }
        }
    }
}

/// The sizes that a list of numbers names: the range between two numbers
/// of which the second is the larger, else the numbers themselves.
pub open spec fn listed_members(v: Seq<u16>) -> Set<u16> {
    if v.len() == 2 && v[0] < v[1] {
        range_values(v[0] as int, v[1] as int, 1).to_set()
    } else {
        v.to_set()
    }
}

/// `sizing` is what the list `v` stands for: its one number where there
/// is one, else the selection of the sizes that it names. An empty list
/// stands for nothing.
pub open spec fn stands_for(v: Seq<u16>, sizing: FontSizing) -> bool {
    if v.len() == 0 {
        false
    } else if v.len() == 1 {
        sizing == FontSizing::Static(v[0])
    } else {
        sizing matches FontSizing::Flex(sizes) && sizes@ == listed_members(v)
    }
}

impl Default for FontSizing {
    /// The sizes from 10 to 30.
    fn default() -> (r: FontSizing)
        ensures
            r == (FontSizing::Range { min: 10, max: 30, step: None }),
            r.wf(),
    {
        FontSizing::Range { min: 10, max: 30, step: None }
    }
}

impl FontSizing {
    /// All possible font sizes in the unit of the backend.
    pub fn to_pango_scaled_vec(&self) -> (r: Vec<i32>)
        ensures
            r@.len() == self.values().len(),
            forall|i: int| 0 <= i < r@.len() ==> r@[i] == self.values()[i] * SCALE,
    {
        let values = self.to_vec();
        let mut r: Vec<i32> = Vec::new();
        let mut i: usize = 0;
        while i < values.len()
            invariant
                i <= values.len(),
                r@.len() == i,
                forall|k: int| 0 <= k < i ==> r@[k] == values@[k] * SCALE,
            decreases values.len() - i,
        {
            r.push(values[i] as i32 * SCALE);
            i += 1;
        }
        r
    }

    /// The sizing that a list of sizes stands for.
    ///
    /// Two sizes of which the second is the larger stand for the range
    /// between them. To name a selection of two sizes instead, put the
    /// larger one first. A list that is empty or holds zero is refused.
    pub fn from_vec(v: Vec<u16>) -> (r: Result<FontSizing, SvgTextBoxError>)
        ensures
            match r {
                Ok(sizing) => v@.len() > 0 && !v@.contains(0u16) && sizing.wf() && stands_for(v@, sizing),
                Err(e) => (v@.len() == 0 || v@.contains(0u16)) && e == SvgTextBoxError::NoValidFontSizes,
            },
    {
        if v.len() == 0 || crate::fontsizing::holds_zero(&v) {
            return Err(SvgTextBoxError::NoValidFontSizes);
        }
        if v.len() == 1 {
            return Ok(FontSizing::Static(v[0]));
        }
        let sizes = if v.len() == 2 && v[0] < v[1] {
            let range = range_to_vec(v[0], v[1], 1);
            proof {
                lemma_range_values(v@[0] as int, v@[1] as int, 1);
                assert(range@.contains(range@[0]));
            }
            set_of(&range)
        } else {
            proof {
                assert(v@.contains(v@[0]));
            }
            set_of(&v)
        };
        proof {
            broadcast use vstd::std_specs::hash::group_hash_axioms;

            assert(sizes@ == listed_members(v@));
            assert(sizes@.finite());
            let witness = if v@.len() == 2 && v@[0] < v@[1] {
                lemma_range_values(v@[0] as int, v@[1] as int, 1);
                let range = range_values(v@[0] as int, v@[1] as int, 1);
                assert(range.contains(range[0]));
                assert forall|x: u16| range.contains(x) implies x != 0 by {}
                range[0]
            } else {
                assert(v@.contains(v@[0]));
                v@[0]
            };
            assert(sizes@.contains(witness));
            if sizes@.len() == 0 {
                sizes@.lemma_len0_is_empty();
                assert(false);
            }
            assert(!sizes@.contains(0u16));
        }
        Ok(FontSizing::Flex(sizes))
    }

    /// Reads a sizing from a text of sizes between whitespace, such as
    /// `12` or `10 30` or `10 12 14`.
    ///
    /// Each token must be a number from 1 to 65535; the first that is not
    /// gives the error. A text without a token names no size and gives the
    /// error `Empty`.
    pub fn parse(s: &str) -> (r: Result<FontSizing, IntParseFailure>)
        ensures
            match r {
                Ok(sizing) => reads_as(s@, sizing),
                Err(e) => sizes_read(s@) == Err::<Seq<u16>, IntParseFailure>(e),
            },
    {
        match u16s_from_str(s, true) {
            Err(e) => Err(e),
            Ok(v) => {
                proof {
                    lemma_nonzero_list(crate::text::tokens(s@));
                }
                if v.len() == 0 {
                    return Err(IntParseFailure::Empty);
                }
                match FontSizing::from_vec(v) {
                    Ok(sizing) => Ok(sizing),
                    Err(_) => Err(IntParseFailure::Zero),
                }
            },
        }
    }
}

/// Whether zero is among `v`.
pub fn holds_zero(v: &Vec<u16>) -> (b: bool)
    ensures
        b == v@.contains(0u16),
{
    let mut i: usize = 0;
    while i < v.len()
        invariant
            i <= v.len(),
            forall|k: int| 0 <= k < i ==> v@[k] != 0,
        decreases v.len() - i,
    {
        if v[i] == 0 {
            return true;
        }
        i += 1;
    }
    false
}

/// A list that was read with zero not admitted holds no zero.
pub proof fn lemma_nonzero_list(tokens: Seq<Seq<char>>)
    ensures
        crate::text::parse_each(tokens, true) matches Ok(v) ==> !v.contains(0u16),
    decreases tokens.len(),
{
    if tokens.len() > 0 {
        lemma_nonzero_list(tokens.drop_last());
        if let Ok(v) = crate::text::parse_each(tokens, true) {
            let before = crate::text::parse_each(tokens.drop_last(), true)->Ok_0;
            if v.contains(0u16) {
                let k = choose|k: int| 0 <= k < v.len() && v[k] == 0u16;
                if k < before.len() {
                    assert(before[k] == 0u16);
                    assert(before.contains(0u16));
                }
            }
        }
    }
}

impl TryFrom<String> for FontSizing {
    type Error = IntParseFailure;

    /// Reads a sizing from a text of sizes between whitespace, as `parse`
    /// does.
    fn try_from(s: String) -> (r: Result<Self, Self::Error>)
        ensures
            match r {
                Ok(sizing) => reads_as(s@, sizing),
                Err(e) => sizes_read(s@) == Err::<Seq<u16>, IntParseFailure>(e),
            },
    {
        FontSizing::parse(s.as_str())
    }
}

impl vstd::std_specs::convert::TryFromSpecImpl<String> for FontSizing {
    /// The sizing that comes of a text holds a set, which no function of
    /// the text can name; what the conversion does is stated on `try_from`
    /// itself, over what the set holds.
    open spec fn obeys_try_from_spec() -> bool {
        false
    }

    open spec fn try_from_spec(v: String) -> Result<Self, Self::Error> {
        Err(IntParseFailure::Empty)
    }
}

impl std::str::FromStr for FontSizing {
    type Err = IntParseFailure;

    /// Reads a sizing from a text of sizes between whitespace, as `parse`
    /// does.
    fn from_str(s: &str) -> (r: Result<Self, Self::Err>)
        ensures
            match r {
                Ok(sizing) => reads_as(s@, sizing),
                Err(e) => sizes_read(s@) == Err::<Seq<u16>, IntParseFailure>(e),
            },
    {
        FontSizing::parse(s)
    }
}


/// What reading the text `s` as sizes gives: the failure of the first
/// token that is no number from 1 to 65535, `Empty` where there is no
/// token, else the list of numbers.
pub open spec fn sizes_read(s: Seq<char>) -> Result<Seq<u16>, IntParseFailure> {
    match parse_u16_list(s, true) {
        Err(e) => Err(e),
        Ok(v) => if v.len() == 0 {
            Err(IntParseFailure::Empty)
        } else {
            Ok(v)
        },
    }
}

/// `text` reads as the sizing `back`.
pub open spec fn reads_as(text: Seq<char>, back: FontSizing) -> bool {
    &&& sizes_read(text) matches Ok(v)
    &&& back.wf()
    &&& stands_for(v, back)
}

impl FontSizing {
    /// The sizing is a range of step one with more than one size.
    pub open spec fn is_unit_range(&self) -> bool {
        self matches FontSizing::Range { min, max, step } && step_of(*step) == 1 && *min < *max
    }

    /// The numbers that the sizing is written as: the two ends of a range
    /// of step one, else the sizes themselves, two sizes with the larger
    /// one first.
    pub open spec fn written_as(&self) -> Seq<u16> {
        if self.is_unit_range() {
            seq![self->min, self->max]
        } else {
            let values = self.values();
            if values.len() == 2 {
                seq![values[1], values[0]]
            } else {
                values
            }
        }
    }

    /// The sizing as a text that `parse` reads.
    pub open spec fn text(&self) -> Seq<char> {
        crate::text::list_text(self.written_as())
    }

    /// The numbers that the sizing is written as.
    pub fn to_list(&self) -> (r: Vec<u16>)
        ensures
            r@ == self.written_as(),
    {
        if let FontSizing::Range { min, max, step } = self {
            let one = match step {
                Some(s) => *s == 1,
                None => true,
            };
            if one && *min < *max {
                let mut r: Vec<u16> = Vec::new();
                r.push(*min);
                r.push(*max);
                return r;
            }
        }
        let values = self.to_vec();
        if values.len() == 2 {
            let mut r: Vec<u16> = Vec::new();
            r.push(values[1]);
            r.push(values[0]);
            r
        } else {
            values
        }
    }

    /// Writes the sizing as a text that `parse` reads back as a sizing
    /// with the same sizes.
    pub fn serialize(&self) -> (s: String)
        ensures
            s@ == self.text(),
    {
        let list = self.to_list();
        crate::text::u16s_to_string(&list)
    }
}

/// The sizes of a valid sizing ascend, none is zero, and there is one.
pub proof fn lemma_values(sizing: FontSizing)
    requires
        sizing.wf(),
    ensures
        ascending(sizing.values()),
        sizing.values().len() > 0,
        !sizing.values().contains(0u16),
{
    match sizing {
        FontSizing::Static(size) => {},
        FontSizing::Range { min, max, step } => {
            lemma_range_values(min as int, max as int, step_of(step));
        },
        FontSizing::Flex(sizes) => {
            lemma_members_below(sizes@, 0x10000);
            if forall|x: u16| !sizes@.contains(x) {
                assert(sizes@ =~= Set::<u16>::empty());
            }
            let x = choose|x: u16| sizes@.contains(x);
            assert(sizing.values().contains(x));
        },
    }
}

/// A sizing that was written as a text is read back from it, and what is
/// read back has the same sizes.
pub proof fn lemma_round_trip(sizing: FontSizing, back: FontSizing)
    requires
        sizing.wf(),
    ensures
        sizes_read(sizing.text()) == Ok::<Seq<u16>, IntParseFailure>(sizing.written_as()),
        reads_as(sizing.text(), back) ==> back.values() == sizing.values(),
{
    let values = sizing.values();
    let list = sizing.written_as();
    lemma_values(sizing);
    assert(!list.contains(0u16)) by {
        if list.contains(0u16) {
            let k = choose|k: int| 0 <= k < list.len() && list[k] == 0u16;
            if sizing.is_unit_range() {
            } else if values.len() == 2 {
                assert(values.contains(values[0]) && values.contains(values[1]));
            } else {
                assert(values.contains(list[k]));
            }
        }
    }
    crate::text::lemma_list_text_reads_back(list, true);
    if reads_as(sizing.text(), back) {
        if sizing.is_unit_range() {
            lemma_range_values(sizing->min as int, sizing->max as int, 1);
            lemma_ascending_members_of_list(values);
        } else if values.len() == 1 {
            assert(values == seq![values[0]]);
        } else if values.len() == 2 {
            assert(list.to_set() =~= values.to_set()) by {
                assert forall|x: u16| list.contains(x) <==> values.contains(x) by {
                    if list.contains(x) {
                        let k = choose|k: int| 0 <= k < list.len() && list[k] == x;
                        assert(values[1 - k] == x);
                    }
                    if values.contains(x) {
                        let k = choose|k: int| 0 <= k < values.len() && values[k] == x;
                        assert(list[1 - k] == x);
                    }
                }
            }
            lemma_ascending_members_of_list(values);
        } else {
            lemma_ascending_members_of_list(values);
        }
    }
}

} // verus!
