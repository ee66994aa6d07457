//! Setting a text in one box: at a fixed font size, or at the largest of
//! all sizes of whole points at which it fits.

use vstd::prelude::*;
use crate::checks::{DistanceMeasure, FontDescriptionExt, FontSize, MAX_FONT_SIZE};
use crate::pango_wrappers::FontDescription;
use crate::layout::{
    always_callable, answered, probed, search_ends_in, search_last_fitting, FitSignals, Rectangle,
};
use crate::pango_wrappers::SCALE;

verus! {

/// What the backend reports of a text that it has laid out in a box.
#[derive(Debug, Clone, Copy, PartialEq, Eq, Structural)]
pub struct InkReport {
    /// The width of the box, in scaled points.
    pub width: i32,
    /// The height of the box, in scaled points.
    pub height: i32,
    /// Whether the backend cut the text short.
    pub ellipsized: bool,
    /// The extents of what is inked.
    pub ink: Rectangle,
    /// The byte index of the character nearest the bottom right corner of
    /// the box.
    pub last_index: i32,
    /// The length of the whole text in bytes.
    pub text_len: usize,
}

impl InkReport {
    /// The report as the signals that the one judgement of fitting takes.
    pub open spec fn signals(self) -> FitSignals {
        FitSignals {
            width: self.width,
            height: self.height,
            ellipsized: self.ellipsized,
            ink: self.ink,
            last_index: self.last_index,
            text_len: self.text_len,
        }
    }

    /// The text fits: it is not cut short, no ink lies outside the box, and
    /// nothing of its end was dropped.
    pub open spec fn fits_spec(self) -> bool {
        self.signals().fits_spec()
    }

    /// Whether the text fits within its box, as the one judgement of
    /// fitting has it.
    pub fn fits(&self) -> (fit: bool)
        ensures
            fit == self.fits_spec(),
    {
        let signals = FitSignals {
            width: self.width,
            height: self.height,
            ellipsized: self.ellipsized,
            ink: self.ink,
            last_index: self.last_index,
            text_len: self.text_len,
        };
        signals.fits()
    }

    /// The height of the box in whole points.
    pub fn height(&self) -> (d: DistanceMeasure)
        ensures
            d.px() == crate::layout::whole_points(self.height as int),
    {
        DistanceMeasure::new(self.height / SCALE)
    }

    /// The width of the box in whole points.
    pub fn width(&self) -> (d: DistanceMeasure)
        ensures
            d.px() == crate::layout::whole_points(self.width as int),
    {
        DistanceMeasure::new(self.width / SCALE)
    }
}

/// The space that is left of a height above and below a text of the
/// logical height `logical_height`.
pub fn height_units_surplus(height: &DistanceMeasure, logical_height: &DistanceMeasure) -> (r: i64)
    ensures
        r == height.px() - logical_height.px(),
{
    height.as_px() as i64 - logical_height.as_px() as i64
}

/// Half of a surplus, rounded towards zero.
pub open spec fn half(surplus: int) -> int {
    if surplus >= 0 {
        surplus / 2
    } else {
        -((-surplus) / 2)
    }
}

/// How far down a text is moved so that it stands in the middle of its
/// box: half of the space that is left.
pub fn pad_top_for(height_units_surplus: i64) -> (r: i64)
    ensures
        r == half(height_units_surplus as int),
{
    height_units_surplus / 2
}

/// One question to the backend: a font size, and whether the text is laid
/// out as a single paragraph.
#[derive(Debug, Clone, Copy, PartialEq, Eq, Structural)]
pub struct SizeTrial {
    pub size: FontSize,
    pub single_paragraph: bool,
}

/// The question whether the text fits at `size` as it is set in the end.
pub open spec fn final_trial(size: FontSize) -> SizeTrial {
    SizeTrial { size, single_paragraph: false }
}

/// The size that a font description holds, or ten points where it holds
/// none that a text can be set in.
pub open spec fn static_size(base: Result<FontSize, i32>) -> int {
    match base {
        Ok(size) => size.scaled_spec(),
        Err(_) => crate::checks::DEFAULT_FONT_SIZE * SCALE,
    }
}

/// Sets the text at one size: that of `base`, or ten points where `base`
/// is none. The size is tried once. Where the text does not fit, that is an
/// error: no other size is tried.
pub fn set_static<S, F: Fn(S, SizeTrial) -> (S, bool)>(state: S, base: Result<FontSize, i32>, probe: &F) -> (r: (
    S,
    Result<FontSize, &'static str>,
))
    requires
        always_callable(*probe),
    ensures
        fixed_ends_in(*probe, base, state, r.0, r.1),
{
    let size = match base {
        Ok(size) => size,
        Err(_) => FontSize::default(),
    };
    let ghost start = state;
    let (end, fit) = probe(state, SizeTrial { size, single_paragraph: false });
    assert(call_ensures(*probe, (start, final_trial(size)), (end, fit)));
    if fit {
        (end, Ok(size))
    } else {
        assert(tried_in_vain(*probe, base, start, end));
        (end, Err("Could not fit text at static font size."))
    }
}

/// The questions of a search through all sizes of whole points: each size
/// as a single paragraph.
pub open spec fn search_trials() -> Seq<SizeTrial> {
    Seq::new(FontSize::all_spec().len(), |i: int| SizeTrial { size: FontSize::all_spec()[i], single_paragraph: true })
}

/// The sizes of whole points from `to` points up to `from` points were
/// tried as they are set in the end, and at none of them the text was seen
/// to fit.
pub open spec fn stepped_down<S, F: Fn(S, SizeTrial) -> (S, bool)>(probe: F, from: int, to: int) -> bool {
    forall|size: FontSize|
        to * 1024 <= size.scaled_spec() <= from * 1024 && size.scaled_spec() % 1024 == 0 ==> answered(
            probe,
            #[trigger] final_trial(size),
            false,
        )
}

/// What the walk down from `points` whole points can end in.
///
/// The sizes are tried as they are set in the end, one point down at a
/// time, until the text fits. `Ok` is the first size at which it did, and
/// the last one asked for. `Err` says that it did not fit at one point
/// either.
pub open spec fn flex_ends_in<S, F: Fn(S, SizeTrial) -> (S, bool)>(
    probe: F,
    points: int,
    end: S,
    outcome: Result<FontSize, &'static str>,
) -> bool {
    match outcome {
        Ok(size) => {
            &&& 1024 <= size.scaled_spec() <= points * 1024
            &&& size.scaled_spec() % 1024 == 0
            &&& probed(probe, SizeTrial { size, single_paragraph: false }, end, true)
            &&& stepped_down(probe, points, size.scaled_spec() / 1024 + 1)
        },
        Err(message) => {
            &&& message@ == "Could not fit text at any font size."@
            &&& stepped_down(probe, points, 1)
        },
    }
}

/// What the search for the largest size, begun in the state `start`, can
/// end in: a binary search through all sizes, laid out as single
/// paragraphs, has ended in a size (one point where it found none), and the
/// walk down from that size has ended in `outcome`.
pub open spec fn maximum_ends_in<S, F: Fn(S, SizeTrial) -> (S, bool)>(
    probe: F,
    start: S,
    end: S,
    outcome: Result<FontSize, &'static str>,
) -> bool {
    exists|searched: S, found: Option<int>| #[trigger]
        search_ends_in(probe, search_trials(), start, searched, found) && flex_ends_in(
            probe,
            match found {
                Some(i) => i + 1,
                None => 1,
            },
            end,
            outcome,
        )
}

/// The largest size of whole points, from one point to 500, at which the
/// text fits.
///
/// A binary search through the sizes, with the text laid out as a single
/// paragraph, gives a first size. From there the sizes are tried as they
/// are set in the end, one point down at a time, until the text fits.
pub fn find_maximum_font_size<S, F: Fn(S, SizeTrial) -> (S, bool)>(state: S, probe: &F) -> (r: (
    S,
    Result<FontSize, &'static str>,
))
    requires
        always_callable(*probe),
    ensures
        maximum_ends_in(*probe, state, r.0, r.1),
{
    let ghost start = state;
    let sizes = FontSize::all();
    let mut trials: Vec<SizeTrial> = Vec::new();
    let mut k: usize = 0;
    while k < sizes.len()
        invariant
            k <= sizes.len(),
            trials@.len() == k,
            forall|i: int| 0 <= i < k ==> trials@[i] == (SizeTrial { size: sizes@[i], single_paragraph: true }),
        decreases sizes.len() - k,
    {
        trials.push(SizeTrial { size: sizes[k], single_paragraph: true });
        k += 1;
    }
    assert(trials@ =~= search_trials());
    let (searched, found) = search_last_fitting(state, &trials, probe);
    let index: usize = match found {
        Some(i) => i,
        None => 0,
    };
    let ghost points: int = index + 1;
    let ghost found_at: Option<int> = match found {
        Some(i) => Some(i as int),
        None => None,
    };
    let mut current = searched;
    let mut size = sizes[index];
    assert(SCALE == 1024);
    assert(size.scaled_spec() == points * 1024);
    loop
        invariant
            always_callable(*probe),
            start == state,
            size.wf(),
            1 <= points <= MAX_FONT_SIZE,
            1024 <= size.scaled_spec() <= points * 1024,
            size.scaled_spec() % 1024 == 0,
            stepped_down(*probe, points, size.scaled_spec() / 1024 + 1),
            search_ends_in(*probe, search_trials(), start, searched, found_at),
            points == match found_at {
                Some(i) => i + 1,
                None => 1,
            },
        decreases size.scaled_spec(),
    {
        let ghost before = current;
        let trial = SizeTrial { size, single_paragraph: false };
        let (next, fit) = probe(current, trial);
        assert(call_ensures(*probe, (before, trial), (next, fit)));
        assert(probed(*probe, trial, next, fit));
        current = next;
        if fit {
            proof {
                assert(flex_ends_in(*probe, points, current, Ok::<FontSize, &'static str>(size)));
                assert(search_ends_in(*probe, search_trials(), start, searched, found_at));
                assert(maximum_ends_in(*probe, start, current, Ok::<FontSize, &'static str>(size)));
            }
            return (current, Ok(size));
        }
        assert(answered(*probe, trial, false));
        assert(SCALE == 1024);
        match size.step_down() {
            Ok(smaller) => {
                proof {
                    let low = smaller.scaled_spec() / 1024 + 1;
                    assert(smaller.scaled_spec() == size.scaled_spec() - 1024);
                    assert(low == size.scaled_spec() / 1024);
                    assert forall|other: FontSize|
                        low * 1024 <= other.scaled_spec() <= points * 1024 && other.scaled_spec() % 1024
                            == 0 implies answered(
                        *probe,
                        #[trigger] final_trial(other),
                        false,
                    ) by {
                        if other.scaled_spec() == size.scaled_spec() {
                            crate::checks::lemma_same_size(other, size);
                        } else {
                            assert(other.scaled_spec() >= size.scaled_spec() + 1024);
                        }
                    }
                }
                size = smaller;
            },
            Err(_) => {
                proof {
                    assert(size.scaled_spec() == 1024);
                    assert forall|other: FontSize|
                        1 * 1024 <= other.scaled_spec() <= points * 1024 && other.scaled_spec() % 1024
                            == 0 implies answered(*probe, #[trigger] final_trial(other), false) by {
                        if other.scaled_spec() == size.scaled_spec() {
                            crate::checks::lemma_same_size(other, size);
                        } else {
                            assert(other.scaled_spec() >= 2 * 1024);
                        }
                    }
                    let failure = Err::<FontSize, &'static str>("Could not fit text at any font size.");
                    assert(flex_ends_in(*probe, points, current, failure));
                    assert(search_ends_in(*probe, search_trials(), start, searched, found_at));
                    assert(maximum_ends_in(*probe, start, current, failure));
                }
                return (current, Err("Could not fit text at any font size."));
            },
        }
    }
}

/// Sets the text at the largest size at which it fits.
pub fn set_flex<S, F: Fn(S, SizeTrial) -> (S, bool)>(state: S, probe: &F) -> (r: (S, Result<FontSize, &'static str>))
    requires
        always_callable(*probe),
    ensures
        maximum_ends_in(*probe, state, r.0, r.1),
{
    find_maximum_font_size(state, probe)
}

/// What one trial of the base size can end in: the size where the text
/// fits, else the error that it does not fit at the fixed size.
pub open spec fn fixed_ends_in<S, F: Fn(S, SizeTrial) -> (S, bool)>(
    probe: F,
    base: Result<FontSize, i32>,
    start: S,
    end: S,
    outcome: Result<FontSize, &'static str>,
) -> bool {
    match outcome {
        Ok(size) => size.scaled_spec() == static_size(base) && call_ensures(
            probe,
            (start, final_trial(size)),
            (end, true),
        ),
        Err(message) => message@ == "Could not fit text at static font size."@ && tried_in_vain(
            probe,
            base,
            start,
            end,
        ),
    }
}

/// The base size was tried in the state `start`, and the text did not fit.
pub open spec fn tried_in_vain<S, F: Fn(S, SizeTrial) -> (S, bool)>(
    probe: F,
    base: Result<FontSize, i32>,
    start: S,
    end: S,
) -> bool {
    exists|size: FontSize|
        size.scaled_spec() == static_size(base) && #[trigger] call_ensures(
            probe,
            (start, final_trial(size)),
            (end, false),
        )
}

/// What sizing a layout can end in: where the text grows, what the search
/// for the largest size ends in, else what one trial of the base size ends
/// in. The error of either is handed on as it is, so that a fixed size that
/// does not fit can be told from a text that fits at no size.
pub open spec fn sizing_ends_in<S, F: Fn(S, SizeTrial) -> (S, bool)>(
    probe: F,
    grow: bool,
    base: Result<FontSize, i32>,
    start: S,
    end: S,
    outcome: Result<FontSize, &'static str>,
) -> bool {
    if grow {
        maximum_ends_in(probe, start, end, outcome)
    } else {
        fixed_ends_in(probe, base, start, end, outcome)
    }
}

/// Sizes the text of a layout: at the largest size at which it fits where
/// `grow` is set, else at its base size.
pub fn size_layout<S, F: Fn(S, SizeTrial) -> (S, bool)>(
    state: S,
    grow: bool,
    base: Result<FontSize, i32>,
    probe: &F,
) -> (r: (S, Result<FontSize, &'static str>))
    requires
        always_callable(*probe),
    ensures
        sizing_ends_in(*probe, grow, base, state, r.0, r.1),
{
    if grow {
        set_flex(state, probe)
    } else {
        set_static(state, base, probe)
    }
}

/// The size that a font description holds, where it is one that a text
/// can be set in; else the number that is there.
pub open spec fn base_of(font_desc: FontDescription) -> Result<FontSize, i32> {
    if FontSize::in_range(font_desc.size_spec()) {
        Ok(FontSize::of_scaled(font_desc.size_spec()))
    } else {
        Err(font_desc.size_spec() as i32)
    }
}

/// `bytes` is the image of a layout that began in the state `start`: the
/// text was sized and ended in the state `sized`; `logical_height` gave the
/// height that the text takes in that state, and `render`, handed the state
/// and half of what is left of the height of the box, gave the image.
pub open spec fn svg_made<
    S,
    F: Fn(S, SizeTrial) -> (S, bool),
    H: Fn(&S) -> i32,
    R: FnOnce(S, i64) -> Vec<u8>,
>(
    height: DistanceMeasure,
    font_desc: FontDescription,
    grow: bool,
    start: S,
    probe: F,
    logical_height: H,
    render: R,
    sized: S,
    size: FontSize,
    taken: i32,
    bytes: Vec<u8>,
) -> bool {
    &&& sizing_ends_in(probe, grow, base_of(font_desc), start, sized, Ok::<FontSize, &'static str>(size))
    &&& call_ensures(logical_height, (&sized,), taken)
    &&& call_ensures(render, (sized, half(height.whole_points() - taken) as i64), bytes)
}

/// `bytes` is the image of a layout that began in the state `start`.
pub open spec fn svg_rendered<
    S,
    F: Fn(S, SizeTrial) -> (S, bool),
    H: Fn(&S) -> i32,
    R: FnOnce(S, i64) -> Vec<u8>,
>(
    height: DistanceMeasure,
    font_desc: FontDescription,
    grow: bool,
    start: S,
    probe: F,
    logical_height: H,
    render: R,
    bytes: Vec<u8>,
) -> bool {
    exists|sized: S, size: FontSize, taken: i32| #[trigger]
        svg_made(height, font_desc, grow, start, probe, logical_height, render, sized, size, taken, bytes)
}

/// The text of a layout that began in the state `start` could not be
/// sized: sizing ended in the error `message`.
pub open spec fn sizing_failed<S, F: Fn(S, SizeTrial) -> (S, bool)>(
    probe: F,
    grow: bool,
    base: Result<FontSize, i32>,
    start: S,
    message: &'static str,
) -> bool {
    exists|end: S| #[trigger] sizing_ends_in(probe, grow, base, start, end, Err::<FontSize, &'static str>(message))
}

/// Sizes the text of a layout and has it rendered in the middle of the
/// height of its box.
///
/// The layout is in the state `state`, and its box has the height
/// `height`. The text is set at the largest size at which it fits where
/// `grow` is set, else at the size of `font_desc`. Where it cannot be
/// sized, the error of the sizing is handed on.
pub fn generate_svg<S, F: Fn(S, SizeTrial) -> (S, bool), H: Fn(&S) -> i32, R: FnOnce(S, i64) -> Vec<u8>>(
    height: &DistanceMeasure,
    font_desc: &FontDescription,
    grow: bool,
    state: S,
    probe: &F,
    logical_height: H,
    render: R,
) -> (r: Result<Vec<u8>, &'static str>)
    requires
        -2796202 <= height.px() <= 2796202,
        always_callable(*probe),
        forall|s: &S| call_requires(logical_height, (s,)),
        forall|s: S, pad: i64| call_requires(render, (s, pad)),
    ensures
        match r {
            Ok(bytes) => svg_rendered(*height, *font_desc, grow, state, *probe, logical_height, render, bytes),
            Err(message) => sizing_failed(*probe, grow, base_of(*font_desc), state, message),
        },
{
    let base = font_desc.fetch_size();
    proof {
        match base {
            Ok(size) => {
                crate::checks::lemma_of_scaled(size);
            },
            Err(_) => {},
        }
    }
    assert(base == base_of(*font_desc));
    let (sized, outcome) = size_layout(state, grow, base, probe);
    let size = match outcome {
        Ok(size) => size,
        Err(message) => {
            assert(sizing_ends_in(
                *probe,
                grow,
                base_of(*font_desc),
                state,
                sized,
                Err::<FontSize, &'static str>(message),
            ));
            assert(sizing_failed(*probe, grow, base_of(*font_desc), state, message));
            return Err(message);
        },
    };
    let taken = logical_height(&sized);
    assert(call_ensures(logical_height, (&sized,), taken));
    let box_height = DistanceMeasure::new(height.as_scaled_pts() / SCALE);
    let surplus = height_units_surplus(&box_height, &DistanceMeasure::new(taken));
    let pad = pad_top_for(surplus);
    let ghost handed = sized;
    let bytes = render(sized, pad);
    proof {
        assert(SCALE == 1024);
        assert(box_height.px() == height.whole_points());
        assert(call_ensures(render, (handed, pad), bytes));
        assert(svg_made(*height, *font_desc, grow, state, *probe, logical_height, render, handed, size, taken, bytes));
        assert(svg_rendered(*height, *font_desc, grow, state, *probe, logical_height, render, bytes));
    }
    Ok(bytes)
}

} // verus!
