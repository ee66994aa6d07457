//! The search for a box and a font size at which a text fits.
//!
//! The shaping backend is consulted through a probe: a function that takes
//! the backend's state and a candidate, lays the text out for that candidate
//! and answers whether it fits, handing the state back. Nothing is assumed of
//! a probe; what a search returns is stated in terms of the answers it got.

use vstd::prelude::*;
use std::cmp::Ordering;
use crate::attributes::{
    attributes_text, collect_sorted, collected, pairs_of, upsert, upsert_entry, write_attributes,
};
use crate::errors::SvgTextBoxError;
use crate::output::{calculate_top_padding, top_padding};
use crate::text::{chars_of, integer_digits, push_integer, replace, replaced, string_of};
use crate::pango_wrappers::{Alignment, FontDescription, SCALE};
use crate::utils::{sorted_unique, sorted_unique_of, strictly_ascending};

verus! {

/// One layout to try: a box and a font size, all in scaled points.
#[derive(Debug, Clone, Copy, PartialEq, Eq, Structural)]
pub struct Trial {
    pub width: i32,
    pub height: i32,
    pub font_size: i32,
}

/// A rectangle as the backend reports it: the offset of its top left corner
/// and its size.
#[derive(Debug, Clone, Copy, PartialEq, Eq, Structural)]
pub struct Rectangle {
    pub x: i32,
    pub y: i32,
    pub width: i32,
    pub height: i32,
}

/// What the backend reports of a text that it has laid out in a box.
#[derive(Debug, Clone, Copy, PartialEq, Eq, Structural)]
pub struct FitSignals {
    /// The width of the box.
    pub width: i32,
    /// The height of the box.
    pub height: i32,
    /// Whether the backend cut the text short.
    pub ellipsized: bool,
    /// The extents of what is inked.
    pub ink: Rectangle,
    /// The byte index of the character nearest the bottom right corner of
    /// the box.
    pub last_index: i32,
    /// The length of the whole text in bytes.
    pub text_len: usize,
}

impl FitSignals {
    /// The text is not cut short.
    pub open spec fn not_ellipsized(self) -> bool {
        !self.ellipsized
    }

    /// The ink starts at or after the top left corner of the box and ends at
    /// or before its bottom right corner.
    pub open spec fn bounds_respected(self) -> bool {
        &&& self.ink.x >= 0
        &&& self.ink.y >= 0
        &&& self.ink.x + self.ink.width <= self.width
        &&& self.ink.y + self.ink.height <= self.height
    }

    /// The character nearest the bottom right corner is the last of the
    /// text: no trailing line was dropped without notice.
    pub open spec fn nothing_dropped(self) -> bool {
        self.last_index == self.text_len - 1
    }

    /// The text fits: all three of the above.
    pub open spec fn fits_spec(self) -> bool {
        self.not_ellipsized() && self.bounds_respected() && self.nothing_dropped()
    }

    /// Whether the ink lies within the box.
    pub fn respects_bounds(&self) -> (r: bool)
        ensures
            r == self.bounds_respected(),
    {
        if self.ink.x < 0 || self.ink.y < 0 {
            return false;
        }
        let right: i64 = self.ink.x as i64 + self.ink.width as i64;
        let bottom: i64 = self.ink.y as i64 + self.ink.height as i64;
        right <= self.width as i64 && bottom <= self.height as i64
    }

    /// Whether the last character of the text is the one nearest the
    /// bottom right corner of the box.
    pub fn drops_nothing(&self) -> (r: bool)
        ensures
            r == self.nothing_dropped(),
    {
        self.last_index as i128 + 1 == self.text_len as i128
    }

    /// Whether the text fits its box. This is the one place where the
    /// backend's signals are judged.
    pub fn fits(&self) -> (fit: bool)
        ensures
            fit == self.fits_spec(),
    {
        !self.ellipsized && self.respects_bounds() && self.drops_nothing()
    }
}

/// `probe`, asked for `key` in some state, can answer `fit` and leave the
/// state `after`.
pub open spec fn probed<S, K, F: Fn(S, K) -> (S, bool)>(probe: F, key: K, after: S, fit: bool) -> bool {
    exists|before: S| #[trigger] call_ensures(probe, (before, key), (after, fit))
}

/// `probe`, asked for `key` in some state, can answer `fit`.
pub open spec fn answered<S, K, F: Fn(S, K) -> (S, bool)>(probe: F, key: K, fit: bool) -> bool {
    exists|after: S| #[trigger] probed(probe, key, after, fit)
}

/// `probe` may be asked for anything in any state.
pub open spec fn always_callable<S, K, F: Fn(S, K) -> (S, bool)>(probe: F) -> bool {
    forall|state: S, key: K| #[trigger] call_requires(probe, (state, key))
}

/// The answers of `probe` depend on the candidate alone, and are those of `fit`.
pub open spec fn decides<S, K, F: Fn(S, K) -> (S, bool)>(probe: F, fit: spec_fn(K) -> bool) -> bool {
    forall|before: S, key: K, after: S, b: bool| #[trigger]
        call_ensures(probe, (before, key), (after, b)) ==> b == fit(key)
}

/// Once a candidate of `keys` fails to fit, none after it fits.
pub open spec fn fit_is_monotonic<K>(keys: Seq<K>, fit: spec_fn(K) -> bool) -> bool {
    forall|i: int, j: int| 0 <= i <= j < keys.len() && fit(#[trigger] keys[j]) ==> fit(#[trigger] keys[i])
}

/// The index of the last candidate of `keys` that fits, found by walking
/// down from the end.
pub open spec fn last_fitting<K>(keys: Seq<K>, fit: spec_fn(K) -> bool) -> Option<int>
    decreases keys.len(),
{
    if keys.len() == 0 {
        None
    } else if fit(keys.last()) {
        Some(keys.len() - 1)
    } else {
        last_fitting(keys.drop_last(), fit)
    }
}

/// What a search over `keys` that began in the state `start` can end in.
///
/// With `None`, the first candidate was the last one asked for and did not
/// fit (or there was no candidate, and nothing was asked). With `Some(i)`,
/// candidate `i` was seen to fit, the one after it, if there is one, was seen
/// not to, and candidate `i` was the last one asked for.
pub open spec fn search_ends_in<S, K, F: Fn(S, K) -> (S, bool)>(
    probe: F,
    keys: Seq<K>,
    start: S,
    end: S,
    found: Option<int>,
) -> bool {
    match found {
        None => if keys.len() == 0 {
            end == start
        } else {
            probed(probe, keys[0], end, false)
        },
        Some(i) => {
            &&& 0 <= i < keys.len()
            &&& answered(probe, keys[i], true)
            &&& i + 1 < keys.len() ==> answered(probe, keys[i + 1], false)
            &&& exists|fit: bool| #[trigger] probed(probe, keys[i], end, fit)
        },
    }
}

/// Binary search for the last candidate that fits.
///
/// Candidates that fit are taken to sort before those that do not. The
/// candidate found is asked for once more at the end, so that the state
/// handed back is the one that belongs to it and not to whatever was tried
/// last.
pub fn search_last_fitting<S, K: Copy, F: Fn(S, K) -> (S, bool)>(
    state: S,
    keys: &Vec<K>,
    probe: &F,
) -> (r: (S, Option<usize>))
    requires
        always_callable(*probe),
    ensures
        search_ends_in(
            *probe,
            keys@,
            state,
            r.0,
            match r.1 {
                Some(i) => Some(i as int),
                None => None,
            },
        ),
{
    let ghost start = state;
    let mut state = state;
    let mut low: usize = 0;
    let mut high: usize = keys.len();
    while low < high
        invariant
            low <= high <= keys.len(),
            always_callable(*probe),
            low > 0 ==> answered(*probe, keys@[low - 1], true),
            high < keys.len() ==> answered(*probe, keys@[high as int], false),
            low == 0 && high < keys.len() ==> probed(*probe, keys@[high as int], state, false),
            high == keys.len() && low == 0 ==> state == start,
        decreases high - low,
    {
        let mid = low + (high - low) / 2;
        let key = keys[mid];
        let ghost before = state;
        let (next, fit) = probe(state, key);
        assert(call_ensures(*probe, (before, key), (next, fit)));
        assert(probed(*probe, key, next, fit));
        state = next;
        if fit {
            low = mid + 1;
        } else {
            high = mid;
        }
    }
    if low == 0 {
        (state, None)
    } else {
        let key = keys[low - 1];
        let ghost before = state;
        let (next, fit) = probe(state, key);
        assert(call_ensures(*probe, (before, key), (next, fit)));
        assert(probed(*probe, key, next, fit));
        (next, Some(low - 1))
    }
}

/// Asks the backend for the font size `size` and says where the size
/// sorts among the sizes that are searched: `Less`, before the sizes that do
/// not fit, where the text fits; `Greater` where it does not.
pub fn change_size_and_check_fits<S, F: Fn(S, i32) -> (S, bool)>(state: S, size: i32, probe: &F) -> (r: (
    S,
    Ordering,
))
    requires
        call_requires(*probe, (state, size)),
    ensures
        r.1 == Ordering::Less || r.1 == Ordering::Greater,
        call_ensures(*probe, (state, size), (r.0, r.1 == Ordering::Less)),
{
    let (end, fit) = probe(state, size);
    if fit {
        (end, Ordering::Less)
    } else {
        (end, Ordering::Greater)
    }
}

/// What the search for the largest font size of `sizes` that fits, begun
/// in the state `start`, can end in: `Ok` holds the size that the search
/// through `sizes` ended in, and `CouldNotFit` says that it ended in none.
pub open spec fn selection_ends_in<S, F: Fn(S, i32) -> (S, bool)>(
    probe: F,
    sizes: Seq<i32>,
    start: S,
    end: S,
    outcome: Result<i32, SvgTextBoxError>,
) -> bool {
    match outcome {
        Ok(size) => selected(probe, sizes, start, end, size),
        Err(e) => e == SvgTextBoxError::CouldNotFit && search_ends_in(probe, sizes, start, end, None),
    }
}

/// The search through `sizes` ended in the size `size`.
pub open spec fn selected<S, F: Fn(S, i32) -> (S, bool)>(probe: F, sizes: Seq<i32>, start: S, end: S, size: i32) -> bool {
    exists|i: int| 0 <= i < sizes.len() && sizes[i] == size && #[trigger] search_ends_in(
        probe,
        sizes,
        start,
        end,
        Some(i),
    )
}

/// The largest of the font sizes `sizes`, which are in ascending order, at
/// which the text fits.
///
/// The sizes are searched as by `search_last_fitting`: the size that is
/// handed out is the last one that the backend was asked for. Where not
/// even the smallest size fits, the outcome is `CouldNotFit`.
pub fn grow_to_maximum_font_size<S, F: Fn(S, i32) -> (S, bool)>(state: S, sizes: &Vec<i32>, probe: &F) -> (r: (
    S,
    Result<i32, SvgTextBoxError>,
))
    requires
        always_callable(*probe),
    ensures
        selection_ends_in(*probe, sizes@, state, r.0, r.1),
{
    let (end, found) = search_last_fitting(state, sizes, probe);
    match found {
        Some(i) => {
            let size = sizes[i];
            assert(search_ends_in(*probe, sizes@, state, end, Some(i as int)));
            assert(selected(*probe, sizes@, state, end, size));
            (end, Ok(size))
        },
        None => (end, Err(SvgTextBoxError::CouldNotFit)),
    }
}

/// The largest of `sizes` at which `fit` holds, found by walking down from
/// the last: the outcome that the search for the largest font size is held
/// against.
pub open spec fn largest_fitting(sizes: Seq<i32>, fit: spec_fn(i32) -> bool) -> Result<i32, SvgTextBoxError> {
    match last_fitting(sizes, fit) {
        Some(i) => Ok(sizes[i]),
        None => Err(SvgTextBoxError::CouldNotFit),
    }
}

/// For font sizes in ascending order and a backend whose answer depends
/// on the size alone, such that a text that fits at one size fits at every
/// smaller one, the search for the largest font size ends in what a walk
/// down from the largest size would find.
pub proof fn lemma_selection_is_linear_scan<S, F: Fn(S, i32) -> (S, bool)>(
    probe: F,
    sizes: Seq<i32>,
    start: S,
    end: S,
    outcome: Result<i32, SvgTextBoxError>,
    fit: spec_fn(i32) -> bool,
)
    requires
        selection_ends_in(probe, sizes, start, end, outcome),
        decides(probe, fit),
        strictly_ascending(sizes),
        forall|small: i32, large: i32| small < large && #[trigger] fit(large) ==> #[trigger] fit(small),
    ensures
        outcome == largest_fitting(sizes, fit),
{
    lemma_smaller_sizes_fit(sizes, fit);
    match outcome {
        Ok(size) => {
            let i = choose|i: int| 0 <= i < sizes.len() && sizes[i] == size && #[trigger] search_ends_in(
                probe,
                sizes,
                start,
                end,
                Some(i),
            );
            lemma_search_is_linear_scan(probe, sizes, start, end, Some(i), fit);
        },
        Err(_) => {
            lemma_search_is_linear_scan(probe, sizes, start, end, None, fit);
        },
    }
}

/// Where every answer of the probe is that of one function of the candidate,
/// and a candidate that fails is followed by none that fits, a search ends
/// in what a walk down from the last candidate would find: the last
/// candidate that fits, or none.
pub proof fn lemma_search_is_linear_scan<S, K, F: Fn(S, K) -> (S, bool)>(
    probe: F,
    keys: Seq<K>,
    start: S,
    end: S,
    found: Option<int>,
    fit: spec_fn(K) -> bool,
)
    requires
        search_ends_in(probe, keys, start, end, found),
        decides(probe, fit),
        fit_is_monotonic(keys, fit),
    ensures
        found == last_fitting(keys, fit),
{
    match found {
        None => {
            if keys.len() > 0 {
                let before = choose|before: S| #[trigger] call_ensures(probe, (before, keys[0]), (end, false));
                assert(call_ensures(probe, (before, keys[0]), (end, false)));
                assert(!fit(keys[0]));
            }
            lemma_none_fits(keys, fit);
        },
        Some(i) => {
            let after = choose|after: S| #[trigger] probed(probe, keys[i], after, true);
            let before = choose|before: S| #[trigger] call_ensures(probe, (before, keys[i]), (after, true));
            assert(call_ensures(probe, (before, keys[i]), (after, true)));
            assert(fit(keys[i]));
            if i + 1 < keys.len() {
                let next = keys[i + 1];
                let after2 = choose|after: S| #[trigger] probed(probe, next, after, false);
                let before2 = choose|before: S| #[trigger] call_ensures(probe, (before, next), (after2, false));
                assert(call_ensures(probe, (before2, next), (after2, false)));
                assert(!fit(next));
            }
            lemma_last_fitting_at(keys, fit, i);
        },
    }
}

/// Where a text that fits at one size fits at every smaller size, fitting
/// is monotonic on any list of sizes in ascending order.
pub proof fn lemma_smaller_sizes_fit(sizes: Seq<i32>, fit: spec_fn(i32) -> bool)
    requires
        strictly_ascending(sizes),
        forall|small: i32, large: i32| small < large && #[trigger] fit(large) ==> #[trigger] fit(small),
    ensures
        fit_is_monotonic(sizes, fit),
{
    assert forall|i: int, j: int| 0 <= i <= j < sizes.len() && fit(#[trigger] sizes[j]) implies fit(
        #[trigger] sizes[i],
    ) by {
        if i < j {
            assert(sizes[i] < sizes[j]);
        }
    }
}

/// Where, in one box, a text that fits at one size fits at every smaller
/// size, fitting is monotonic on the layouts of that box for any list of
/// sizes in ascending order.
pub proof fn lemma_smaller_sizes_fit_in_box(dimension: (i32, i32), sizes: Seq<i32>, fit: spec_fn(Trial) -> bool)
    requires
        strictly_ascending(sizes),
        forall|small: i32, large: i32|
            small < large && fit(#[trigger] trial_at(dimension, large)) ==> fit(
                #[trigger] trial_at(dimension, small),
            ),
    ensures
        fit_is_monotonic(trials_at(dimension, sizes), fit),
{
    let trials = trials_at(dimension, sizes);
    assert forall|i: int, j: int| 0 <= i <= j < trials.len() && fit(#[trigger] trials[j]) implies fit(
        #[trigger] trials[i],
    ) by {
        assert(trials[i] == trial_at(dimension, sizes[i]));
        assert(trials[j] == trial_at(dimension, sizes[j]));
        if i < j {
            assert(sizes[i] < sizes[j]);
        }
    }
}

/// Where the first candidate does not fit and fitting is monotonic, the walk
/// finds none.
proof fn lemma_none_fits<K>(keys: Seq<K>, fit: spec_fn(K) -> bool)
    requires
        fit_is_monotonic(keys, fit),
        keys.len() > 0 ==> !fit(keys[0]),
    ensures
        last_fitting(keys, fit) is None,
    decreases keys.len(),
{
    if keys.len() > 0 {
        assert(!fit(keys.last())) by {
            assert(keys.last() == keys[keys.len() - 1]);
        }
        let shorter = keys.drop_last();
        assert forall|i: int, j: int| 0 <= i <= j < shorter.len() && fit(#[trigger] shorter[j]) implies fit(
            #[trigger] shorter[i],
        ) by {
            assert(shorter[j] == keys[j] && shorter[i] == keys[i]);
        }
        if shorter.len() > 0 {
            assert(shorter[0] == keys[0]);
        }
        lemma_none_fits(shorter, fit);
    }
}

/// Where candidate `i` fits and its successor, if any, does not, the walk
/// stops at `i`.
proof fn lemma_last_fitting_at<K>(keys: Seq<K>, fit: spec_fn(K) -> bool, i: int)
    requires
        fit_is_monotonic(keys, fit),
        0 <= i < keys.len(),
        fit(keys[i]),
        i + 1 < keys.len() ==> !fit(keys[i + 1]),
    ensures
        last_fitting(keys, fit) == Some(i),
    decreases keys.len(),
{
    if i + 1 == keys.len() {
        assert(keys.last() == keys[i]);
    } else {
        assert(!fit(keys.last())) by {
            assert(keys.last() == keys[keys.len() - 1]);
        }
        let shorter = keys.drop_last();
        assert forall|a: int, b: int| 0 <= a <= b < shorter.len() && fit(#[trigger] shorter[b]) implies fit(
            #[trigger] shorter[a],
        ) by {
            assert(shorter[b] == keys[b] && shorter[a] == keys[a]);
        }
        assert(shorter[i] == keys[i]);
        if i + 1 < shorter.len() {
            assert(shorter[i + 1] == keys[i + 1]);
        }
        lemma_last_fitting_at(shorter, fit, i);
    }
}


/// The layout to try for a box and a font size.
pub open spec fn trial_at(dimension: (i32, i32), font_size: i32) -> Trial {
    Trial { width: dimension.0, height: dimension.1, font_size }
}

/// The layouts to try in one box: one for each font size, in their order.
pub open spec fn trials_at(dimension: (i32, i32), sizes: Seq<i32>) -> Seq<Trial> {
    Seq::new(sizes.len(), |i: int| trial_at(dimension, sizes[i]))
}

/// The boxes to try, in order, for ascending widths and heights.
///
/// With one width, the heights in ascending order; with one height, the
/// widths in ascending order; with several of each, the widths in ascending
/// order at the smallest height, then the heights in ascending order at the
/// largest width.
pub open spec fn dimension_candidates(widths: Seq<i32>, heights: Seq<i32>) -> Seq<(i32, i32)> {
    if widths.len() == 1 {
        Seq::new(heights.len(), |j: int| (widths[0], heights[j]))
    } else if heights.len() == 1 {
        Seq::new(widths.len(), |i: int| (widths[i], heights[0]))
    } else {
        Seq::new(widths.len(), |i: int| (widths[i], heights[0])) + Seq::new(
            heights.len(),
            |j: int| (widths.last(), heights[j]),
        )
    }
}

/// The boxes to try, in order, for ascending widths and heights.
pub fn possible_dimensions(widths: &Vec<i32>, heights: &Vec<i32>) -> (r: Vec<(i32, i32)>)
    requires
        widths.len() > 0,
        heights.len() > 0,
    ensures
        r@ == dimension_candidates(widths@, heights@),
{
    let mut r: Vec<(i32, i32)> = Vec::new();
    let several = widths.len() > 1 && heights.len() > 1;
    if widths.len() > 1 {
        let mut i: usize = 0;
        while i < widths.len()
            invariant
                i <= widths.len(),
                heights.len() > 0,
                r@ == Seq::new(i as nat, |k: int| (widths@[k], heights@[0])),
            decreases widths.len() - i,
        {
            r.push((widths[i], heights[0]));
            i += 1;
        }
    }
    if widths.len() == 1 || several {
        let ghost first = r@;
        let last = widths[widths.len() - 1];
        let mut j: usize = 0;
        while j < heights.len()
            invariant
                j <= heights.len(),
                last == widths@.last(),
                r@ == first + Seq::new(j as nat, |k: int| (last, heights@[k])),
            decreases heights.len() - j,
        {
            r.push((last, heights[j]));
            j += 1;
        }
    }
    r
}

/// The layouts to try in one box: one for each font size, in their order.
pub fn trials_for(dimension: (i32, i32), sizes: &Vec<i32>) -> (r: Vec<Trial>)
    ensures
        r@ == trials_at(dimension, sizes@),
{
    let mut r: Vec<Trial> = Vec::new();
    let mut i: usize = 0;
    while i < sizes.len()
        invariant
            i <= sizes.len(),
            r@ == Seq::new(i as nat, |k: int| trial_at(dimension, sizes@[k])),
        decreases sizes.len() - i,
    {
        r.push(Trial { width: dimension.0, height: dimension.1, font_size: sizes[i] });
        i += 1;
    }
    r
}


/// A length in scaled points, in whole points: the fraction of a point is
/// left out.
pub open spec fn whole_points(scaled: int) -> int {
    if scaled >= 0 {
        scaled / (SCALE as int)
    } else {
        -((-scaled) / (SCALE as int))
    }
}

/// What a text box is laid out from. All lengths and sizes are in scaled
/// points.
pub trait LayoutSource {
    /// The font sizes that may be used. An implementation that is
    /// verified says what they are.
    open spec fn font_sizes(&self) -> Seq<i32> {
        arbitrary()
    }

    /// The heights that the box may have. An implementation that is
    /// verified says what they are.
    open spec fn heights(&self) -> Seq<i32> {
        arbitrary()
    }

    /// The widths that the box may have. An implementation that is
    /// verified says what they are.
    open spec fn widths(&self) -> Seq<i32> {
        arbitrary()
    }

    /// All possible font sizes.
    fn possible_font_sizes(&self) -> (sizes: Vec<i32>)
        ensures
            sizes@ == self.font_sizes(),
    ;

    /// All possible heights.
    fn possible_heights(&self) -> (heights: Vec<i32>)
        ensures
            heights@ == self.heights(),
    ;

    /// All possible widths.
    fn possible_widths(&self) -> (widths: Vec<i32>)
        ensures
            widths@ == self.widths(),
    ;

    /// The font of the text as a whole.
    fn font_description(&self) -> &FontDescription;

    /// The text to set.
    fn markup(&self) -> &str;

    /// The alignment of the text.
    fn alignment(&self) -> Alignment;

    /// The width of the image in points, for a box of the given width in
    /// scaled points; unless an implementation says otherwise, that of the
    /// box.
    open spec fn image_width(&self, layout_width: i32) -> int {
        whole_points(layout_width as int)
    }

    /// The height of the image in points, for a box of the given height in
    /// scaled points; unless an implementation says otherwise, that of the
    /// box.
    open spec fn image_height(&self, layout_height: i32) -> int {
        whole_points(layout_height as int)
    }

    /// Where the box is placed on the image, from the left, in points; at
    /// the left, unless an implementation says otherwise.
    open spec fn image_x(&self) -> int {
        0
    }

    /// Where the box is placed on the image, from the top, in points; at
    /// the top, unless an implementation says otherwise.
    open spec fn image_y(&self) -> int {
        0
    }

    /// Whether the text is moved down so that what is inked stands in the
    /// middle of the height of the box; it is, unless an implementation
    /// says otherwise.
    open spec fn centred(&self) -> bool {
        true
    }

    /// The width of the image in points.
    fn output_width(&self, layout_width: i32) -> (r: i32)
        ensures
            r == self.image_width(layout_width),
    ;

    /// The height of the image in points.
    fn output_height(&self, layout_height: i32) -> (r: i32)
        ensures
            r == self.image_height(layout_height),
    ;

    /// Where the box is placed on the image, from the left, in points.
    fn output_x(&self) -> (r: i32)
        ensures
            r == self.image_x(),
    ;

    /// Where the box is placed on the image, from the top, in points.
    fn output_y(&self) -> (r: i32)
        ensures
            r == self.image_y(),
    ;

    /// Whether the text is moved down so that what is inked stands in the
    /// middle of the height of the box.
    fn centre_output_vertically(&self) -> (r: bool)
        ensures
            r == self.centred(),
    ;
}

/// Every member of `values` is above zero.
pub open spec fn all_positive(values: Seq<i32>) -> bool {
    forall|i: int| 0 <= i < values.len() ==> values[i] > 0
}

/// Whether every member of `values` is above zero.
pub fn all_above_zero(values: &Vec<i32>) -> (r: bool)
    ensures
        r == all_positive(values@),
{
    let mut i: usize = 0;
    while i < values.len()
        invariant
            i <= values.len(),
            forall|k: int| 0 <= k < i ==> values@[k] > 0,
        decreases values.len() - i,
    {
        if values[i] <= 0 {
            return false;
        }
        i += 1;
    }
    true
}

/// Every box before the `n`th was tried at the smallest font size and seen
/// not to hold the text.
pub open spec fn rejected_before<S, F: Fn(S, Trial) -> (S, bool)>(
    probe: F,
    dimensions: Seq<(i32, i32)>,
    sizes: Seq<i32>,
    n: int,
) -> bool {
    forall|d: int| 0 <= d < n ==> answered(probe, #[trigger] trial_at(dimensions[d], sizes[0]), false)
}

/// The layout `trial`, of the box `d` and the font size `i`, was accepted:
/// every box before it was rejected, the layout was seen to fit, the next
/// larger font size in that box, if there is one, was seen not to, and the
/// layout was the last one asked for.
pub open spec fn accepted_at<S, F: Fn(S, Trial) -> (S, bool)>(
    probe: F,
    dimensions: Seq<(i32, i32)>,
    sizes: Seq<i32>,
    end: S,
    trial: Trial,
    d: int,
    i: int,
) -> bool {
    &&& 0 <= d < dimensions.len()
    &&& 0 <= i < sizes.len()
    &&& trial == trial_at(dimensions[d], sizes[i])
    &&& rejected_before(probe, dimensions, sizes, d)
    &&& answered(probe, trial, true)
    &&& i + 1 < sizes.len() ==> answered(probe, trial_at(dimensions[d], sizes[i + 1]), false)
    &&& exists|fit: bool| #[trigger] probed(probe, trial, end, fit)
}

/// What a resolution over the boxes `dimensions` and the font sizes `sizes`
/// that began in the state `start` can end in.
///
/// It ends in the first box that holds the text at the smallest font size,
/// with the font size that a search in that box ended in, or in
/// `CouldNotFit` once every box was rejected.
pub open spec fn resolution_ends_in<S, F: Fn(S, Trial) -> (S, bool)>(
    probe: F,
    dimensions: Seq<(i32, i32)>,
    sizes: Seq<i32>,
    start: S,
    end: S,
    outcome: Result<Trial, SvgTextBoxError>,
) -> bool {
    match outcome {
        Ok(trial) => accepted(probe, dimensions, sizes, end, trial),
        Err(e) => {
            &&& e == SvgTextBoxError::CouldNotFit
            &&& rejected_before(probe, dimensions, sizes, dimensions.len() as int)
            &&& if dimensions.len() == 0 {
                end == start
            } else {
                probed(probe, trial_at(dimensions.last(), sizes[0]), end, false)
            }
        },
    }
}

/// The layout `trial` was accepted in one of the boxes, at one of the font
/// sizes.
pub open spec fn accepted<S, F: Fn(S, Trial) -> (S, bool)>(
    probe: F,
    dimensions: Seq<(i32, i32)>,
    sizes: Seq<i32>,
    end: S,
    trial: Trial,
) -> bool {
    exists|d: int, i: int| #[trigger] accepted_at(probe, dimensions, sizes, end, trial, d, i)
}

/// The layout that a walk through the boxes from the `from`th on comes to:
/// in the first box in which some font size fits, the last size that does.
pub open spec fn best_fit_from(
    dimensions: Seq<(i32, i32)>,
    sizes: Seq<i32>,
    fit: spec_fn(Trial) -> bool,
    from: int,
) -> Option<Trial>
    decreases dimensions.len() - from,
{
    if from < 0 || from >= dimensions.len() {
        None
    } else {
        match last_fitting(trials_at(dimensions[from], sizes), fit) {
            Some(i) => Some(trial_at(dimensions[from], sizes[i])),
            None => best_fit_from(dimensions, sizes, fit, from + 1),
        }
    }
}

/// What is wrong with the candidates of `src`, if anything: a list that is
/// empty or holds a value that is not above zero. The font sizes are looked
/// at first, then the heights, then the widths.
pub open spec fn candidate_fault<L: LayoutSource>(src: &L) -> Option<SvgTextBoxError> {
    if src.font_sizes().len() == 0 || !all_positive(src.font_sizes()) {
        Some(SvgTextBoxError::NoValidFontSizes)
    } else if src.heights().len() == 0 || !all_positive(src.heights()) {
        Some(SvgTextBoxError::NoValidHeights)
    } else if src.widths().len() == 0 || !all_positive(src.widths()) {
        Some(SvgTextBoxError::NoValidWidths)
    } else {
        None
    }
}

/// `manager` holds the candidates of `src`: its font sizes in ascending
/// order, and its boxes in the order in which they are tried.
pub open spec fn manages<L: LayoutSource>(manager: LayoutManager, src: &L) -> bool {
    &&& manager.wf()
    &&& manager.font_sizes() == sorted_unique_of(src.font_sizes())
    &&& manager.dimensions() == dimension_candidates(
        sorted_unique_of(src.widths()),
        sorted_unique_of(src.heights()),
    )
}

/// The candidates of one resolution: the boxes in the order in which they
/// are tried, and the font sizes in ascending order.
pub struct LayoutManager {
    dimensions: Vec<(i32, i32)>,
    font_sizes: Vec<i32>,
}

impl LayoutManager {
    /// The boxes, in the order in which they are tried.
    pub closed spec fn dimensions(&self) -> Seq<(i32, i32)> {
        self.dimensions@
    }

    /// The font sizes, in ascending order.
    pub closed spec fn font_sizes(&self) -> Seq<i32> {
        self.font_sizes@
    }

    /// There is a box and a font size to try, and the font sizes ascend.
    pub open spec fn wf(&self) -> bool {
        &&& self.dimensions().len() > 0
        &&& self.font_sizes().len() > 0
        &&& strictly_ascending(self.font_sizes())
    }

    /// The candidates that `src` gives.
    ///
    /// Font sizes, heights and widths are each put in ascending order, with
    /// nothing twice. A list that is empty, or holds a value that is not
    /// above zero, is refused: the font sizes are looked at first, then the
    /// heights, then the widths.
    pub fn new<L: LayoutSource>(src: &L) -> (r: Result<LayoutManager, SvgTextBoxError>)
        ensures
            match r {
                Ok(manager) => candidate_fault(src) is None && manages(manager, src),
                Err(e) => candidate_fault(src) == Some(e),
            },
    {
        let sizes = src.possible_font_sizes();
        if sizes.len() == 0 || !all_above_zero(&sizes) {
            return Err(SvgTextBoxError::NoValidFontSizes);
        }
        let heights = src.possible_heights();
        if heights.len() == 0 || !all_above_zero(&heights) {
            return Err(SvgTextBoxError::NoValidHeights);
        }
        let widths = src.possible_widths();
        if widths.len() == 0 || !all_above_zero(&widths) {
            return Err(SvgTextBoxError::NoValidWidths);
        }
        let font_sizes = sorted_unique(&sizes);
        let heights = sorted_unique(&heights);
        let widths = sorted_unique(&widths);
        proof {
            assert(sizes@.contains(sizes@[0]));
            assert(src.heights().contains(src.heights()[0]));
            assert(src.widths().contains(src.widths()[0]));
            assert(font_sizes@.len() > 0) by {
                let k = choose|k: int| 0 <= k < font_sizes@.len() && font_sizes@[k] == sizes@[0];
            }
            assert(heights@.len() > 0) by {
                let k = choose|k: int| 0 <= k < heights@.len() && heights@[k] == src.heights()[0];
            }
            assert(widths@.len() > 0) by {
                let k = choose|k: int| 0 <= k < widths@.len() && widths@[k] == src.widths()[0];
            }
        }
        let dimensions = possible_dimensions(&widths, &heights);
        Ok(LayoutManager { dimensions, font_sizes })
    }

    /// Tries the boxes in order and, in each, searches for the largest font
    /// size that fits; the first box in which one does is taken.
    pub fn get_best_fit<S, F: Fn(S, Trial) -> (S, bool)>(&self, state: S, probe: &F) -> (r: (
        S,
        Result<Trial, SvgTextBoxError>,
    ))
        requires
            self.wf(),
            always_callable(*probe),
        ensures
            resolution_ends_in(*probe, self.dimensions(), self.font_sizes(), state, r.0, r.1),
    {
        let ghost start = state;
        let mut state = state;
        let mut d: usize = 0;
        while d < self.dimensions.len()
            invariant
                d <= self.dimensions.len(),
                self.wf(),
                always_callable(*probe),
                rejected_before(*probe, self.dimensions(), self.font_sizes(), d as int),
                d == 0 ==> state == start,
                d > 0 ==> probed(
                    *probe,
                    trial_at(self.dimensions()[d - 1], self.font_sizes()[0]),
                    state,
                    false,
                ),
            decreases self.dimensions.len() - d,
        {
            let dimension = self.dimensions[d];
            let trials = trials_for(dimension, &self.font_sizes);
            let ghost before = state;
            let (next, found) = search_last_fitting(state, &trials, probe);
            state = next;
            match found {
                Some(i) => {
                    let trial = trials[i];
                    proof {
                        assert(trials@[i as int] == trial_at(dimension, self.font_sizes()[i as int]));
                        if i + 1 < trials@.len() {
                            assert(trials@[i + 1] == trial_at(dimension, self.font_sizes()[i + 1]));
                        }
                        let at = d as int;
                        let size = i as int;
                        assert(accepted_at(*probe, self.dimensions(), self.font_sizes(), state, trial, at, size));
                        assert(accepted(*probe, self.dimensions(), self.font_sizes(), state, trial));
                    }
                    return (state, Ok(trial));
                },
                None => {
                    proof {
                        assert(trials@[0] == trial_at(dimension, self.font_sizes()[0]));
                        assert(answered(*probe, trial_at(dimension, self.font_sizes()[0]), false));
                    }
                },
            }
            d += 1;
        }
        (state, Err(SvgTextBoxError::CouldNotFit))
    }
}


/// Where the probe decides by `fit`, an answer that was seen is that of `fit`.
proof fn lemma_answer_is_fit<S, K, F: Fn(S, K) -> (S, bool)>(probe: F, key: K, b: bool, fit: spec_fn(K) -> bool)
    requires
        answered(probe, key, b),
        decides(probe, fit),
    ensures
        fit(key) == b,
{
    let after = choose|after: S| #[trigger] probed(probe, key, after, b);
    let before = choose|before: S| #[trigger] call_ensures(probe, (before, key), (after, b));
    assert(call_ensures(probe, (before, key), (after, b)));
}

/// Boxes that do not hold the text at the smallest font size are passed
/// over by the walk.
proof fn lemma_rejected_boxes_are_skipped(
    dimensions: Seq<(i32, i32)>,
    sizes: Seq<i32>,
    fit: spec_fn(Trial) -> bool,
    from: int,
    to: int,
)
    requires
        0 <= from <= to <= dimensions.len(),
        sizes.len() > 0,
        forall|d: int|
            0 <= d < dimensions.len() ==> fit_is_monotonic(#[trigger] trials_at(dimensions[d], sizes), fit),
        forall|d: int| from <= d < to ==> !fit(#[trigger] trial_at(dimensions[d], sizes[0])),
    ensures
        best_fit_from(dimensions, sizes, fit, from) == best_fit_from(dimensions, sizes, fit, to),
    decreases to - from,
{
    if from < to {
        let trials = trials_at(dimensions[from], sizes);
        assert(trials[0] == trial_at(dimensions[from], sizes[0]));
        lemma_none_fits(trials, fit);
        lemma_rejected_boxes_are_skipped(dimensions, sizes, fit, from + 1, to);
    }
}

/// Where every answer of the probe is that of one function of the layout,
/// and in each box a font size that fails is followed by none that fits, a
/// resolution ends in what a walk through the boxes would find: in the
/// first box in which any font size fits, the largest size that does; and
/// in an error only where no box holds the text at any size.
pub proof fn lemma_resolution_is_walk<S, F: Fn(S, Trial) -> (S, bool)>(
    probe: F,
    dimensions: Seq<(i32, i32)>,
    sizes: Seq<i32>,
    start: S,
    end: S,
    outcome: Result<Trial, SvgTextBoxError>,
    fit: spec_fn(Trial) -> bool,
)
    requires
        resolution_ends_in(probe, dimensions, sizes, start, end, outcome),
        decides(probe, fit),
        sizes.len() > 0,
        forall|d: int|
            0 <= d < dimensions.len() ==> fit_is_monotonic(#[trigger] trials_at(dimensions[d], sizes), fit),
    ensures
        match outcome {
            Ok(trial) => best_fit_from(dimensions, sizes, fit, 0) == Some(trial),
            Err(_) => best_fit_from(dimensions, sizes, fit, 0) is None,
        },
{
    match outcome {
        Ok(trial) => {
            let (d, i) = choose|d: int, i: int| #[trigger]
                accepted_at(probe, dimensions, sizes, end, trial, d, i);
            assert(accepted_at(probe, dimensions, sizes, end, trial, d, i));
            assert forall|e: int| 0 <= e < d implies !fit(#[trigger] trial_at(dimensions[e], sizes[0])) by {
                lemma_answer_is_fit(probe, trial_at(dimensions[e], sizes[0]), false, fit);
            }
            lemma_rejected_boxes_are_skipped(dimensions, sizes, fit, 0, d);
            let trials = trials_at(dimensions[d], sizes);
            lemma_answer_is_fit(probe, trial, true, fit);
            assert(trials[i] == trial);
            if i + 1 < sizes.len() {
                lemma_answer_is_fit(probe, trial_at(dimensions[d], sizes[i + 1]), false, fit);
                assert(trials[i + 1] == trial_at(dimensions[d], sizes[i + 1]));
            }
            lemma_last_fitting_at(trials, fit, i);
        },
        Err(_) => {
            assert forall|e: int| 0 <= e < dimensions.len() implies !fit(
                #[trigger] trial_at(dimensions[e], sizes[0]),
            ) by {
                lemma_answer_is_fit(probe, trial_at(dimensions[e], sizes[0]), false, fit);
            }
            lemma_rejected_boxes_are_skipped(dimensions, sizes, fit, 0, dimensions.len() as int);
        },
    }
}


/// Where a layout is drawn: the size of the image and the place of the
/// layout on it, in points.
#[derive(Debug, Clone, Copy, PartialEq, Eq, Structural)]
pub struct Placement {
    /// The width of the image.
    pub width: i32,
    /// The height of the image.
    pub height: i32,
    /// How far from the left the layout stands.
    pub x: i32,
    /// How far from the top the layout stands.
    pub y: i64,
}

/// The place of the layout `trial` of `src` whose ink has the extents
/// `ink`: the image has the size that `src` gives it, and the layout stands
/// where `src` puts it, moved down where `src` centres it by what brings
/// the ink to the middle of the height, in whole points.
pub open spec fn placement_of<L: LayoutSource>(src: &L, trial: Trial, ink: Rectangle) -> Placement {
    Placement {
        width: src.image_width(trial.width) as i32,
        height: src.image_height(trial.height) as i32,
        x: src.image_x() as i32,
        y: (src.image_y() + if src.centred() {
            whole_points(top_padding(trial.height as int, ink))
        } else {
            0
        }) as i64,
    }
}

/// Where the layout `trial` of `src` is drawn, given the extents of its
/// ink.
pub fn place<L: LayoutSource>(src: &L, trial: &Trial, ink: &Rectangle) -> (p: Placement)
    ensures
        p == placement_of(src, *trial, *ink),
{
    let width = src.output_width(trial.width);
    let height = src.output_height(trial.height);
    let x = src.output_x();
    let vertical_offset: i64 = if src.centre_output_vertically() {
        calculate_top_padding(trial.height, ink) / (SCALE as i64)
    } else {
        0
    };
    let y: i64 = src.output_y() as i64 + vertical_offset;
    Placement { width, height, x, y }
}

/// A rendered layout, with the width and height of the image in points.
#[derive(Debug, Clone, PartialEq, Eq)]
pub struct RenderedTextbox {
    pub src: String,
    pub width: i32,
    pub height: i32,
}

/// The attributes of the rectangle behind a text: those that were given,
/// in the order of their names, with the place at the top left corner and
/// the size of the image.
pub open spec fn background_entries(attrs: Seq<(Seq<char>, Seq<char>)>, width: int, height: int) -> Seq<
    (Seq<char>, Seq<char>),
> {
    upsert(
        upsert(upsert(upsert(collected(attrs), "x"@, "0"@), "y"@, "0"@), "width"@, integer_digits(width)),
        "height"@,
        integer_digits(height),
    )
}

/// What the end of the definitions of an image is replaced by: itself, and
/// a group that holds the rectangle.
pub open spec fn background_rect(attrs: Seq<(Seq<char>, Seq<char>)>, width: int, height: int) -> Seq<char> {
    "</defs>\n<g>\n<rect "@ + attributes_text(background_entries(attrs, width, height)) + "/>\n</g>"@
}

/// What happens after a layout was found: `measure` gives the extents of
/// the ink in the state `fitted`, and `render`, handed that state and the
/// place of the layout, gives `rendered`.
pub open spec fn rendered_as<
    L: LayoutSource,
    S,
    M: Fn(&S) -> Rectangle,
    R: FnOnce(S, Placement) -> Result<String, SvgTextBoxError>,
>(src: &L, trial: Trial, fitted: S, measure: M, render: R, place: Placement, rendered: Result<
    String,
    SvgTextBoxError,
>) -> bool {
    exists|ink: Rectangle|
        {
            &&& #[trigger] call_ensures(measure, (&fitted,), ink)
            &&& place == placement_of(src, trial, ink)
            &&& call_ensures(render, (fitted, place), rendered)
        }
}

/// The steps by which an image comes about: `manager` holds the
/// candidates of `src`, the resolution that began in `start` ended in the
/// layout `trial` and the state `fitted`, and the layout was rendered at
/// `place` with the outcome `rendered`.
pub open spec fn image_steps<
    L: LayoutSource,
    S,
    F: Fn(S, Trial) -> (S, bool),
    M: Fn(&S) -> Rectangle,
    R: FnOnce(S, Placement) -> Result<String, SvgTextBoxError>,
>(
    src: &L,
    probe: F,
    measure: M,
    render: R,
    start: S,
    manager: LayoutManager,
    trial: Trial,
    fitted: S,
    place: Placement,
    rendered: Result<String, SvgTextBoxError>,
) -> bool {
    &&& manages(manager, src)
    &&& resolution_ends_in(
        probe,
        manager.dimensions(),
        manager.font_sizes(),
        start,
        fitted,
        Ok::<Trial, SvgTextBoxError>(trial),
    )
    &&& rendered_as(src, trial, fitted, measure, render, place, rendered)
}

/// The image `image` came about by the steps above, and has the width and
/// height that its place gives it.
pub open spec fn image_made<
    L: LayoutSource,
    S,
    F: Fn(S, Trial) -> (S, bool),
    M: Fn(&S) -> Rectangle,
    R: FnOnce(S, Placement) -> Result<String, SvgTextBoxError>,
>(src: &L, probe: F, measure: M, render: R, start: S, image: RenderedTextbox) -> bool {
    exists|manager: LayoutManager, trial: Trial, fitted: S, place: Placement|
        {
            &&& #[trigger] image_steps(
                src,
                probe,
                measure,
                render,
                start,
                manager,
                trial,
                fitted,
                place,
                Ok(image.src),
            )
            &&& image.width == place.width
            &&& image.height == place.height
        }
}

/// No layout of the candidates of `src` was found.
pub open spec fn nothing_fits<L: LayoutSource, S, F: Fn(S, Trial) -> (S, bool)>(
    src: &L,
    probe: F,
    start: S,
    manager: LayoutManager,
    end: S,
) -> bool {
    &&& manages(manager, src)
    &&& resolution_ends_in(
        probe,
        manager.dimensions(),
        manager.font_sizes(),
        start,
        end,
        Err::<Trial, SvgTextBoxError>(SvgTextBoxError::CouldNotFit),
    )
}

/// No image came about, and `e` says why: the candidates of `src` are not
/// valid, or no layout was found, or the layout that was found could not be
/// rendered.
pub open spec fn image_refused<
    L: LayoutSource,
    S,
    F: Fn(S, Trial) -> (S, bool),
    M: Fn(&S) -> Rectangle,
    R: FnOnce(S, Placement) -> Result<String, SvgTextBoxError>,
>(src: &L, probe: F, measure: M, render: R, start: S, e: SvgTextBoxError) -> bool {
    match candidate_fault(src) {
        Some(fault) => e == fault,
        None => {
            ||| (e == SvgTextBoxError::CouldNotFit && exists|manager: LayoutManager, end: S| #[trigger]
                nothing_fits(src, probe, start, manager, end))
            ||| (exists|manager: LayoutManager, trial: Trial, fitted: S, place: Placement| #[trigger]
                image_steps(src, probe, measure, render, start, manager, trial, fitted, place, Err(e)))
        },
    }
}

impl RenderedTextbox {
    /// Finds the layout of `src` and has it rendered.
    ///
    /// The candidates of `src` are checked, and the boxes and font sizes
    /// are tried through `probe`, starting in the state `state`. For the
    /// layout that is found, `measure` gives the extents of the ink and
    /// `render` the image, which is handed out with its width and height.
    /// An error is that of the candidates, or `CouldNotFit` where no layout
    /// was found, or that of `render`.
    pub fn new<
        L: LayoutSource,
        S,
        F: Fn(S, Trial) -> (S, bool),
        M: Fn(&S) -> Rectangle,
        R: FnOnce(S, Placement) -> Result<String, SvgTextBoxError>,
    >(src: &L, state: S, probe: &F, measure: M, render: R) -> (r: Result<RenderedTextbox, SvgTextBoxError>)
        requires
            always_callable(*probe),
            forall|s: &S| call_requires(measure, (s,)),
            forall|s: S, p: Placement| call_requires(render, (s, p)),
        ensures
            r is Ok ==> candidate_fault(src) is None,
            r matches Ok(image) ==> image_made(src, *probe, measure, render, state, image),
            r matches Err(e) ==> image_refused(src, *probe, measure, render, state, e),
    {
        let manager = match LayoutManager::new(src) {
            Ok(manager) => manager,
            Err(e) => {
                return Err(e);
            },
        };
        let (fitted, found) = manager.get_best_fit(state, probe);
        let trial = match found {
            Ok(trial) => trial,
            Err(e) => {
                proof {
                    assert(e == SvgTextBoxError::CouldNotFit);
                    assert(nothing_fits(src, *probe, state, manager, fitted));
                    assert(exists|manager: LayoutManager, end: S| #[trigger]
                        nothing_fits(src, *probe, state, manager, end));
                }
                return Err(e);
            },
        };
        let ink = measure(&fitted);
        assert(call_ensures(measure, (&fitted,), ink));
        let place = place(src, &trial, &ink);
        let ghost handed = fitted;
        let rendered = render(fitted, place);
        assert(call_ensures(render, (handed, place), rendered));
        assert(rendered_as(src, trial, handed, measure, render, place, rendered));
        assert(image_steps(src, *probe, measure, render, state, manager, trial, handed, place, rendered));
        match rendered {
            Ok(svg) => {
                let image = RenderedTextbox { src: svg, width: place.width, height: place.height };
                assert(image_steps(
                    src,
                    *probe,
                    measure,
                    render,
                    state,
                    manager,
                    trial,
                    handed,
                    place,
                    Ok(image.src),
                ));
                assert(image_made(src, *probe, measure, render, state, image));
                Ok(image)
            },
            Err(e) => {
                assert(image_steps(src, *probe, measure, render, state, manager, trial, handed, place, Err(e)));
                assert(exists|manager: LayoutManager, trial: Trial, fitted: S, place: Placement| #[trigger]
                    image_steps(src, *probe, measure, render, state, manager, trial, fitted, place, Err(e)));
                Err(e)
            },
        }
    }

    /// Puts a rectangle behind the text: after the definitions of the
    /// image, a group with a rectangle that has the size of the image and the
    /// attributes `attrs`. An attribute named `x`, `y`, `width` or `height`
    /// gives way to the place and size of the rectangle.
    pub fn insert_background_rect(&mut self, attrs: &Vec<(String, String)>)
        ensures
            final(self).src@ == replaced(
                old(self).src@,
                "</defs>"@,
                background_rect(pairs_of(attrs@), old(self).width as int, old(self).height as int),
            ),
            final(self).width == old(self).width,
            final(self).height == old(self).height,
    {
        let mut entries = collect_sorted(attrs);
        upsert_entry(&mut entries, chars_of("x"), chars_of("0"));
        upsert_entry(&mut entries, chars_of("y"), chars_of("0"));
        let mut width: Vec<char> = Vec::new();
        push_integer(&mut width, self.width as i64);
        assert(width@ == integer_digits(self.width as int));
        upsert_entry(&mut entries, chars_of("width"), width);
        let mut height: Vec<char> = Vec::new();
        push_integer(&mut height, self.height as i64);
        assert(height@ == integer_digits(self.height as int));
        upsert_entry(&mut entries, chars_of("height"), height);
        let written = write_attributes(&entries);
        let mut rect = chars_of("</defs>\n<g>\n<rect ");
        crate::attributes::push_all(&mut rect, &written);
        crate::attributes::push_all(&mut rect, &chars_of("/>\n</g>"));
        let end_of_defs = chars_of("</defs>");
        proof {
            reveal_strlit("</defs>");
        }
        let image = chars_of(self.src.as_str());
        let patched = replace(&image, &end_of_defs, &rect);
        self.src = string_of(&patched);
    }

    /// The image as text.
    pub fn as_ref(&self) -> (s: &str)
        ensures
            s@ == self.src@,
    {
        self.src.as_str()
    }

    /// The image as a string.
    pub fn to_string(&self) -> (s: String)
        ensures
            s@ == self.src@,
    {
        self.src.clone()
    }
}

} // verus!
