//! Padding around a text box, and a text box set into a padded rectangle.

use vstd::prelude::*;
use crate::attributes::pairs_of;
use crate::errors::SvgTextBoxError;
use crate::layout::{
    always_callable, candidate_fault, image_made, image_refused, LayoutSource, Placement, Rectangle,
    RenderedTextbox, Trial,
};
use crate::pango_wrappers::{Alignment, FontDescription, SCALE};
use crate::text::{
    chars_of, integer_digits, list_text, parse_u16_list, push_integer, str_eq, string_of, u16s_from_str,
    u16s_to_string,
};
use crate::textbox::TextBox;
use crate::xml_support::{base64_encode, base64_of};
use vstd::utf8::{decode_utf8, valid_utf8};
use xml::reader::EventReader;
use xml::writer::EventWriter;

verus! {

/// A padding was given as no, or as more than four, lengths, or as
/// something that is no list of lengths.
#[derive(Debug, Clone, Copy, PartialEq, Eq, Structural)]
pub struct PaddingError;

/// Padding around a text box, in pixels.
#[derive(Debug, Clone, Copy, PartialEq, Eq, Structural)]
pub struct PaddingSpecification {
    pub left: u16,
    pub right: u16,
    pub top: u16,
    pub bottom: u16,
}

/// The padding that one to four lengths stand for, as in a style sheet:
/// one length is all four sides; two are top and bottom, then right and
/// left; three are top, then right and left, then bottom; four are top,
/// right, bottom and left.
pub open spec fn shorthand(v: Seq<u16>) -> Option<PaddingSpecification> {
    if v.len() == 1 {
        Some(PaddingSpecification { top: v[0], right: v[0], bottom: v[0], left: v[0] })
    } else if v.len() == 2 {
        Some(PaddingSpecification { top: v[0], right: v[1], bottom: v[0], left: v[1] })
    } else if v.len() == 3 {
        Some(PaddingSpecification { top: v[0], right: v[1], bottom: v[2], left: v[1] })
    } else if v.len() == 4 {
        Some(PaddingSpecification { top: v[0], right: v[1], bottom: v[2], left: v[3] })
    } else {
        None
    }
}

impl PaddingSpecification {
    /// The padding with the given sides.
    pub fn new(top: u16, right: u16, bottom: u16, left: u16) -> (p: PaddingSpecification)
        ensures
            p == (PaddingSpecification { top, right, bottom, left }),
    {
        PaddingSpecification { top, right, bottom, left }
    }

    /// The padding that one to four lengths stand for.
    pub fn from_vec(v: Vec<u16>) -> (r: Result<PaddingSpecification, PaddingError>)
        ensures
            match r {
                Ok(p) => shorthand(v@) == Some(p),
                Err(_) => shorthand(v@) is None,
            },
    {
        if v.len() == 1 {
            Ok(PaddingSpecification::new(v[0], v[0], v[0], v[0]))
        } else if v.len() == 2 {
            Ok(PaddingSpecification::new(v[0], v[1], v[0], v[1]))
        } else if v.len() == 3 {
            Ok(PaddingSpecification::new(v[0], v[1], v[2], v[1]))
        } else if v.len() == 4 {
            Ok(PaddingSpecification::new(v[0], v[1], v[2], v[3]))
        } else {
            Err(PaddingError)
        }
    }

    /// The padding that a text of one to four lengths stands for.
    pub open spec fn parsed(s: Seq<char>) -> Option<PaddingSpecification> {
        match parse_u16_list(s, false) {
            Ok(v) => shorthand(v),
            Err(_) => None,
        }
    }

    /// Reads a padding from a text of one to four lengths between
    /// whitespace.
    pub fn from_str(s: &str) -> (r: Result<PaddingSpecification, PaddingError>)
        ensures
            match r {
                Ok(p) => PaddingSpecification::parsed(s@) == Some(p),
                Err(_) => PaddingSpecification::parsed(s@) is None,
            },
    {
        match u16s_from_str(s, false) {
            Ok(v) => PaddingSpecification::from_vec(v),
            Err(_) => Err(PaddingError),
        }
    }

    /// Left and right padding together, in pixels.
    pub open spec fn horizontal(&self) -> int {
        self.left + self.right
    }

    /// Top and bottom padding together, in pixels.
    pub open spec fn vertical(&self) -> int {
        self.top + self.bottom
    }

    /// Left and right padding together, in pixels.
    pub fn horizontal_padding(&self) -> (r: i32)
        ensures
            r == self.horizontal(),
    {
        self.left as i32 + self.right as i32
    }

    /// Top and bottom padding together, in pixels.
    pub fn vertical_padding(&self) -> (r: i32)
        ensures
            r == self.vertical(),
    {
        self.top as i32 + self.bottom as i32
    }

    /// Left and right padding together, in the unit of the backend.
    pub fn scaled_horizontal_padding(&self) -> (r: i32)
        ensures
            r == self.horizontal() * SCALE,
    {
        self.horizontal_padding() * SCALE
    }

    /// Top and bottom padding together, in the unit of the backend.
    pub fn scaled_vertical_padding(&self) -> (r: i32)
        ensures
            r == self.vertical() * SCALE,
    {
        self.vertical_padding() * SCALE
    }

    /// The four sides as a list: top, right, bottom, left.
    pub open spec fn sides(&self) -> Seq<u16> {
        seq![self.top, self.right, self.bottom, self.left]
    }

    /// The padding as a text of four lengths: top, right, bottom, left.
    pub fn to_string(&self) -> (s: String)
        ensures
            s@ == list_text(self.sides()),
    {
        let mut v: Vec<u16> = Vec::new();
        v.push(self.top);
        v.push(self.right);
        v.push(self.bottom);
        v.push(self.left);
        assert(v@ == self.sides());
        u16s_to_string(&v)
    }
}

/// A padding that was written as a text is read back from it as it was.
pub proof fn lemma_padding_reads_back(p: PaddingSpecification)
    ensures
        PaddingSpecification::parsed(list_text(p.sides())) == Some(p),
{
    crate::text::lemma_list_text_reads_back(p.sides(), false);
}


/// An event of a document, as the crate `xml` reads and writes it.
#[verifier::external_type_specification]
#[verifier::external_body]
pub struct ExReaderEvent(xml::reader::XmlEvent);

/// A writer of documents of the crate `xml`.
#[verifier::external_type_specification]
#[verifier::external_body]
#[verifier::reject_recursive_types(W)]
pub struct ExEventWriter<W>(xml::writer::EventWriter<W>);

/// The start of an element that is being put together, of the crate `xml`.
#[verifier::external_type_specification]
#[verifier::external_body]
pub struct ExStartElementBuilder<'a>(xml::writer::events::StartElementBuilder<'a>);

/// An event of an image: the event itself, and the name of the element
/// that it closes, where it closes one.
pub struct SvgEvent {
    pub closes: Option<String>,
    pub event: xml::reader::XmlEvent,
}

/// An event of an image, the name of the element that it closes as a text.
pub struct SvgEventView {
    pub closes: Option<Seq<char>>,
    pub event: xml::reader::XmlEvent,
}

impl View for SvgEvent {
    type V = SvgEventView;

    open spec fn view(&self) -> SvgEventView {
        SvgEventView {
            closes: match self.closes {
                Some(name) => Some(name@),
                None => None,
            },
            event: self.event,
        }
    }
}

/// What each of `events` is.
pub open spec fn views_of(events: Seq<SvgEvent>) -> Seq<SvgEventView> {
    Seq::new(events.len(), |i: int| events[i]@)
}

/// One thing that was handed to a writer: an event that was read, the
/// start of an element with its attributes, or the end of the element that
/// is open.
pub enum Step {
    Event(xml::reader::XmlEvent),
    Start { name: Seq<char>, attributes: Seq<(Seq<char>, Seq<char>)> },
    End,
}

/// The events of the document `image`, in its order, each with the local
/// name of the element that it closes, where it closes one. Nothing where
/// the document cannot be read.
pub uninterp spec fn events_of(image: Seq<char>) -> Option<Seq<SvgEventView>>;

/// What a writer has taken since it was made, in the order in which it
/// was handed over.
pub uninterp spec fn steps(writer: EventWriter<Vec<u8>>) -> Seq<Step>;

/// Whether a writer that has taken `before` takes `step` without an error.
pub uninterp spec fn accepted(before: Seq<Step>, step: Step) -> bool;

/// The bytes that a writer has written once it has taken `steps`.
pub uninterp spec fn emitted(steps: Seq<Step>) -> Seq<u8>;

/// The name and the attributes of the start of an element that is being
/// put together.
pub uninterp spec fn started(builder: xml::writer::events::StartElementBuilder<'_>) -> (
    Seq<char>,
    Seq<(Seq<char>, Seq<char>)>,
);

/// The local names of the elements that the events of the document
/// `image` close, one entry for each event: the name for an event that
/// closes an element, `None` for any other event. Nothing where the
/// document cannot be read.
pub open spec fn closing_names(image: Seq<char>) -> Option<Seq<Option<Seq<char>>>> {
    match events_of(image) {
        Some(events) => Some(Seq::new(events.len(), |i: int| events[i].closes)),
        None => None,
    }
}

/// `EventReader::from_str` of the crate `xml`, and the events that it
/// reads: all events of the document `image`, each with the local name of
/// the element that it closes; nothing where the document cannot be read.
/// The contract gives the events a name and claims no more than that they
/// depend on the document alone.
#[verifier::external_body]
fn read_events(image: &str) -> (r: Option<Vec<SvgEvent>>)
    ensures
        match r {
            Some(events) => events_of(image@) == Some(views_of(events@)),
            None => events_of(image@) is None,
        },
{
    EventReader::from_str(image).into_iter().map(
        |read| read.map(
            |event| SvgEvent {
                closes: match &event {
                    xml::reader::XmlEvent::EndElement { name } => Some(name.local_name.clone()),
                    _ => None,
                },
                event,
            },
        ),
    ).collect::<Result<Vec<SvgEvent>, xml::reader::Error>>().ok()
}

/// `EventWriter::new` of the crate `xml`: a writer that has taken nothing
/// yet.
#[verifier::external_body]
fn new_writer() -> (writer: EventWriter<Vec<u8>>)
    ensures
        steps(writer) == Seq::<Step>::empty(),
{
    EventWriter::new(Vec::new())
}

/// `XmlEvent::as_writer_event` and `EventWriter::write` of the crate
/// `xml`: hands an event that was read to the writer and says whether no
/// error came of it. The contract gives that answer a name, which depends
/// on what the writer has taken before and on the event alone, and says
/// that the writer has then taken the event too. Nothing is claimed of a
/// writer that answered with an error.
#[verifier::external_body]
fn write_event(writer: &mut EventWriter<Vec<u8>>, event: &xml::reader::XmlEvent) -> (r: bool)
    ensures
        r == accepted(steps(*old(writer)), Step::Event(*event)),
        r ==> steps(*final(writer)) == steps(*old(writer)).push(Step::Event(*event)),
{
    match event.as_writer_event() {
        Some(written) => writer.write(written).is_ok(),
        None => true,
    }
}

/// `XmlEvent::start_element` of the crate `xml`: the start of a `rect`
/// element without attributes.
#[verifier::external_body]
fn start_rect<'a>() -> (builder: xml::writer::events::StartElementBuilder<'a>)
    ensures
        started(builder) == ("rect"@, Seq::<(Seq<char>, Seq<char>)>::empty()),
{
    xml::writer::XmlEvent::start_element("rect")
}

/// `StartElementBuilder::attr` of the crate `xml`: the start of the same
/// element with one more attribute after those that it has.
#[verifier::external_body]
fn with_attr<'a>(
    builder: xml::writer::events::StartElementBuilder<'a>,
    name: &'a str,
    value: &'a str,
) -> (r: xml::writer::events::StartElementBuilder<'a>)
    ensures
        started(r) == (started(builder).0, started(builder).1.push((name@, value@))),
{
    builder.attr(name, value)
}

/// `EventWriter::write` of the crate `xml`, for the start of an element:
/// hands it to the writer and says whether no error came of it. The
/// contract is that of `write_event`, for the start of an element with its
/// name and attributes.
#[verifier::external_body]
fn write_start<'a>(writer: &mut EventWriter<Vec<u8>>, builder: xml::writer::events::StartElementBuilder<'a>) -> (r:
    bool)
    ensures
        r == accepted(
            steps(*old(writer)),
            Step::Start { name: started(builder).0, attributes: started(builder).1 },
        ),
        r ==> steps(*final(writer)) == steps(*old(writer)).push(
            Step::Start { name: started(builder).0, attributes: started(builder).1 },
        ),
{
    writer.write(builder).is_ok()
}

/// `XmlEvent::end_element` and `EventWriter::write` of the crate `xml`:
/// hands the end of the element that is open to the writer and says whether
/// no error came of it. The contract is that of `write_event`, for the end
/// of an element.
#[verifier::external_body]
fn write_end(writer: &mut EventWriter<Vec<u8>>) -> (r: bool)
    ensures
        r == accepted(steps(*old(writer)), Step::End),
        r ==> steps(*final(writer)) == steps(*old(writer)).push(Step::End),
{
    writer.write(xml::writer::XmlEvent::end_element()).is_ok()
}

/// `EventWriter::into_inner` of the crate `xml`: the bytes that the writer
/// has written. The contract gives them a name, which depends on what the
/// writer has taken alone.
#[verifier::external_body]
fn written_bytes(writer: EventWriter<Vec<u8>>) -> (bytes: Vec<u8>)
    ensures
        bytes@ == emitted(steps(writer)),
{
    writer.into_inner()
}

/// `String::from_utf8`: the string that the bytes encode, where they are
/// UTF-8; nothing where they are not.
#[verifier::external_body]
fn string_from_utf8(bytes: Vec<u8>) -> (r: Option<String>)
    ensures
        match r {
            Some(text) => valid_utf8(bytes@) && text@ == decode_utf8(bytes@),
            None => !valid_utf8(bytes@),
        },
{
    String::from_utf8(bytes).ok()
}

/// The place of the first event that closes an element named `defs`, if
/// there is one.
pub open spec fn end_of_defs_spec(closes: Seq<Option<Seq<char>>>) -> Option<int>
    decreases closes.len(),
{
    if closes.len() == 0 {
        None
    } else if closes[0] == Some("defs"@) {
        Some(0)
    } else {
        match end_of_defs_spec(closes.drop_first()) {
            Some(i) => Some(i + 1),
            None => None,
        }
    }
}

/// The names of the elements that the events close.
pub open spec fn closes_of(events: Seq<SvgEvent>) -> Seq<Option<Seq<char>>> {
    Seq::new(
        events.len(),
        |i: int|
            match events[i].closes {
                Some(name) => Some(name@),
                None => None,
            },
    )
}

/// The place of the first event that closes an element named `defs`.
pub fn end_of_defs(events: &Vec<SvgEvent>) -> (r: Option<usize>)
    ensures
        match r {
            Some(i) => end_of_defs_spec(closes_of(events@)) == Some(i as int) && i < events.len(),
            None => end_of_defs_spec(closes_of(events@)) is None,
        },
{
    let ghost all = closes_of(events@);
    let mut i: usize = 0;
    assert(all.subrange(0, all.len() as int) == all);
    while i < events.len()
        invariant
            i <= events.len(),
            all == closes_of(events@),
            end_of_defs_spec(all) == match end_of_defs_spec(all.subrange(i as int, all.len() as int)) {
                Some(k) => Some(k + i),
                None => None,
            },
        decreases events.len() - i,
    {
        let ghost rest = all.subrange(i as int, all.len() as int);
        proof {
            assert(rest[0] == all[i as int]);
            assert(rest.drop_first() == all.subrange(i + 1, all.len() as int));
        }
        let found = match &events[i].closes {
            Some(name) => str_eq(name.as_str(), "defs"),
            None => false,
        };
        if found {
            return Some(i);
        }
        i += 1;
    }
    None
}

/// The attributes of the rectangle behind a text box: its width and its
/// height, then the attributes that were given, `x` and `y` left out.
pub open spec fn rect_attributes(other: Seq<(Seq<char>, Seq<char>)>, width: int, height: int) -> Seq<
    (Seq<char>, Seq<char>),
> {
    seq![("width"@, integer_digits(width)), ("height"@, integer_digits(height))] + crate::attributes::without(
        crate::attributes::without(other, "x"@),
        "y"@,
    )
}

/// The attributes of the rectangle behind a text box of the given width
/// and height.
pub fn rect_attrs(other: &Vec<(String, String)>, width: i32, height: i32) -> (r: Vec<(String, String)>)
    ensures
        pairs_of(r@) == rect_attributes(pairs_of(other@), width as int, height as int),
{
    let mut kept: Vec<(String, String)> = Vec::new();
    let mut i: usize = 0;
    while i < other.len()
        invariant
            i <= other.len(),
            pairs_of(kept@) == pairs_of(other@).take(i as int),
        decreases other.len() - i,
    {
        let name = other[i].0.clone();
        let value = other[i].1.clone();
        let ghost before = pairs_of(kept@);
        kept.push((name, value));
        proof {
            assert(pairs_of(kept@) =~= before.push((other@[i as int].0@, other@[i as int].1@)));
            assert(pairs_of(kept@) =~= pairs_of(other@).take(i + 1));
        }
        i += 1;
    }
    assert(pairs_of(other@).take(i as int) == pairs_of(other@));
    crate::attributes::remove_attr(&mut kept, "x");
    crate::attributes::remove_attr(&mut kept, "y");
    let mut w: Vec<char> = Vec::new();
    push_integer(&mut w, width as i64);
    let mut h: Vec<char> = Vec::new();
    push_integer(&mut h, height as i64);
    let ghost rest = pairs_of(kept@);
    kept.insert(0, ("height".to_owned(), string_of(&h)));
    kept.insert(0, ("width".to_owned(), string_of(&w)));
    proof {
        assert(pairs_of(kept@) =~= seq![("width"@, integer_digits(width as int)), ("height"@, integer_digits(
            height as int,
        ))] + rest);
    }
    kept
}

/// Whether the document `image` can be read and holds the end of an
/// element named `defs`.
pub open spec fn holds_definitions(image: Seq<char>) -> bool {
    closing_names(image) matches Some(closes) && end_of_defs_spec(closes) is Some
}

/// What is handed to the writer to put a rectangle after the event `end`:
/// the events up to `end` and `end` itself, the start of a `rect` element
/// with the attributes `attrs`, its end, and the events after `end`.
pub open spec fn spliced(events: Seq<SvgEventView>, end: int, attrs: Seq<(Seq<char>, Seq<char>)>) -> Seq<Step> {
    Seq::new((end + 1) as nat, |i: int| Step::Event(events[i].event)) + seq![
        Step::Start { name: "rect"@, attributes: attrs },
        Step::End,
    ] + Seq::new((events.len() - end - 1) as nat, |i: int| Step::Event(events[end + 1 + i].event))
}

/// A writer that has taken nothing takes each of `steps` in turn without
/// an error.
pub open spec fn all_accepted(steps: Seq<Step>) -> bool {
    forall|i: int| 0 <= i < steps.len() ==> #[trigger] accepted(steps.take(i), steps[i])
}

/// The image `image` with a rectangle of the attributes `attrs` after its
/// definitions, or the error that stands in the way.
///
/// An image that cannot be read, or that holds no end of an element named
/// `defs`, gives `Xml`. Else its events up to the first that closes such an
/// element, a `rect` element with the attributes in their order, and the
/// rest of the events are handed to a writer. Where the writer takes them
/// all, the result is the text that it has written, or `Utf8Error` where
/// that is no text; where it refuses one, `Xml`.
pub open spec fn rect_inserted(image: Seq<char>, attrs: Seq<(Seq<char>, Seq<char>)>) -> Result<
    Seq<char>,
    SvgTextBoxError,
> {
    match events_of(image) {
        None => Err(SvgTextBoxError::Xml),
        Some(events) => match end_of_defs_spec(closing_names(image)->0) {
            None => Err(SvgTextBoxError::Xml),
            Some(end) => {
                let steps = spliced(events, end, attrs);
                if !all_accepted(steps) {
                    Err(SvgTextBoxError::Xml)
                } else if !valid_utf8(emitted(steps)) {
                    Err(SvgTextBoxError::Utf8Error)
                } else {
                    Ok(decode_utf8(emitted(steps)))
                }
            },
        },
    }
}

/// Puts a rectangle with the attributes `attrs` into the image `image`,
/// after its definitions.
pub fn insert_rect(image: &str, attrs: &Vec<(String, String)>) -> (r: Result<String, SvgTextBoxError>)
    ensures
        match r {
            Ok(text) => rect_inserted(image@, pairs_of(attrs@)) == Ok::<Seq<char>, SvgTextBoxError>(text@),
            Err(e) => rect_inserted(image@, pairs_of(attrs@)) == Err::<Seq<char>, SvgTextBoxError>(e),
        },
        !holds_definitions(image@) ==> r == Err::<String, SvgTextBoxError>(SvgTextBoxError::Xml),
{
    let events = match read_events(image) {
        Some(events) => events,
        None => {
            return Err(SvgTextBoxError::Xml);
        },
    };
    proof {
        assert(closing_names(image@)->0 =~= closes_of(events@));
    }
    let end = match end_of_defs(&events) {
        Some(end) => end,
        None => {
            return Err(SvgTextBoxError::Xml);
        },
    };
    let ghost read = views_of(events@);
    let ghost planned = spliced(read, end as int, pairs_of(attrs@));
    let mut writer = new_writer();
    let mut i: usize = 0;
    assert(planned.take(0) =~= Seq::<Step>::empty());
    while i <= end
        invariant
            end < events.len(),
            i <= end + 1,
            read == views_of(events@),
            planned == spliced(read, end as int, pairs_of(attrs@)),
            rect_inserted(image@, pairs_of(attrs@)) == if !all_accepted(planned) {
                Err::<Seq<char>, SvgTextBoxError>(SvgTextBoxError::Xml)
            } else if !valid_utf8(emitted(planned)) {
                Err(SvgTextBoxError::Utf8Error)
            } else {
                Ok(decode_utf8(emitted(planned)))
            },
            steps(writer) == planned.take(i as int),
            forall|j: int| 0 <= j < i ==> #[trigger] accepted(planned.take(j), planned[j]),
        decreases end + 1 - i,
    {
        proof {
            assert(planned[i as int] == Step::Event(events@[i as int].event));
            assert(planned.take(i + 1) =~= planned.take(i as int).push(planned[i as int]));
        }
        if !write_event(&mut writer, &events[i].event) {
            return Err(SvgTextBoxError::Xml);
        }
        i += 1;
    }
    let mut builder = start_rect();
    let mut k: usize = 0;
    assert(pairs_of(attrs@).take(0) =~= Seq::<(Seq<char>, Seq<char>)>::empty());
    while k < attrs.len()
        invariant
            k <= attrs.len(),
            started(builder) == ("rect"@, pairs_of(attrs@).take(k as int)),
        decreases attrs.len() - k,
    {
        builder = with_attr(builder, attrs[k].0.as_str(), attrs[k].1.as_str());
        proof {
            assert(pairs_of(attrs@).take(k + 1) =~= pairs_of(attrs@).take(k as int).push(
                (attrs@[k as int].0@, attrs@[k as int].1@),
            ));
        }
        k += 1;
    }
    proof {
        assert(pairs_of(attrs@).take(k as int) == pairs_of(attrs@));
        assert(planned[end + 1] == (Step::Start { name: "rect"@, attributes: pairs_of(attrs@) }));
        assert(planned[end + 2] == Step::End);
        assert(planned.take(end + 2) =~= planned.take(end + 1).push(planned[end + 1]));
        assert(planned.take(end + 3) =~= planned.take(end + 2).push(planned[end + 2]));
    }
    if !write_start(&mut writer, builder) {
        return Err(SvgTextBoxError::Xml);
    }
    if !write_end(&mut writer) {
        return Err(SvgTextBoxError::Xml);
    }
    while i < events.len()
        invariant
            end < events.len(),
            end + 1 <= i <= events.len(),
            read == views_of(events@),
            planned == spliced(read, end as int, pairs_of(attrs@)),
            rect_inserted(image@, pairs_of(attrs@)) == if !all_accepted(planned) {
                Err::<Seq<char>, SvgTextBoxError>(SvgTextBoxError::Xml)
            } else if !valid_utf8(emitted(planned)) {
                Err(SvgTextBoxError::Utf8Error)
            } else {
                Ok(decode_utf8(emitted(planned)))
            },
            steps(writer) == planned.take(i + 2),
            forall|j: int| 0 <= j < i + 2 ==> #[trigger] accepted(planned.take(j), planned[j]),
        decreases events.len() - i,
    {
        proof {
            assert(planned[i + 2] == Step::Event(events@[i as int].event));
            assert(planned.take(i + 3) =~= planned.take(i + 2).push(planned[i + 2]));
        }
        if !write_event(&mut writer, &events[i].event) {
            return Err(SvgTextBoxError::Xml);
        }
        i += 1;
    }
    proof {
        assert(planned.len() == events@.len() + 2);
        assert(planned.take(i + 2) == planned);
        assert(all_accepted(planned));
    }
    match string_from_utf8(written_bytes(writer)) {
        Some(text) => Ok(text),
        None => Err(SvgTextBoxError::Utf8Error),
    }
}

/// A text box set into a rectangle with padding around it. The attributes
/// `other` are those of the rectangle.
#[derive(Debug, Clone)]
pub struct PaddedTextBox {
    pub textbox: TextBox,
    pub padding: PaddingSpecification,
    pub other: Vec<(String, String)>,
}

/// The lengths `values`, each less `amount`.
pub open spec fn each_less(values: Seq<i32>, amount: int) -> Seq<i32> {
    Seq::new(values.len(), |i: int| (values[i] - amount) as i32)
}

/// The lengths `values`, each less `amount`.
pub fn lessen(values: &Vec<i32>, amount: i32) -> (r: Vec<i32>)
    requires
        0 <= amount <= 0x800_0000,
        forall|i: int| 0 <= i < values@.len() ==> -0x4000_0000 <= #[trigger] values@[i],
    ensures
        r@ == each_less(values@, amount as int),
{
    let mut r: Vec<i32> = Vec::new();
    let mut i: usize = 0;
    while i < values.len()
        invariant
            i <= values.len(),
            0 <= amount <= 0x800_0000,
            forall|i: int| 0 <= i < values@.len() ==> -0x4000_0000 <= #[trigger] values@[i],
            r@ == each_less(values@.take(i as int), amount as int),
        decreases values.len() - i,
    {
        r.push(values[i] - amount);
        proof {
            assert(r@ =~= each_less(values@.take(i + 1), amount as int));
        }
        i += 1;
    }
    assert(values@.take(i as int) == values@);
    r
}

impl LayoutSource for PaddedTextBox {
    /// The font sizes of the text box.
    open spec fn font_sizes(&self) -> Seq<i32> {
        self.textbox.font_sizes()
    }

    /// The heights of the text box, less the padding above and below.
    open spec fn heights(&self) -> Seq<i32> {
        each_less(self.textbox.heights(), self.padding.vertical() * SCALE)
    }

    /// The widths of the text box, less the padding on both sides.
    open spec fn widths(&self) -> Seq<i32> {
        each_less(self.textbox.widths(), self.padding.horizontal() * SCALE)
    }

    /// The width of the image: that of the text box and the padding on
    /// both sides.
    open spec fn image_width(&self, layout_width: i32) -> int {
        self.textbox.image_width(layout_width) + self.padding.horizontal()
    }

    /// The height of the image: that of the text box and the padding
    /// above and below.
    open spec fn image_height(&self, layout_height: i32) -> int {
        self.textbox.image_height(layout_height) + self.padding.vertical()
    }

    /// The text box stands to the right of the padding on the left.
    open spec fn image_x(&self) -> int {
        self.textbox.image_x() + self.padding.left
    }

    /// The text box stands below the padding at the top.
    open spec fn image_y(&self) -> int {
        self.textbox.image_y() + self.padding.top
    }

    fn possible_font_sizes(&self) -> (sizes: Vec<i32>) {
        self.textbox.possible_font_sizes()
    }

    fn possible_heights(&self) -> (heights: Vec<i32>) {
        let own = self.textbox.possible_heights();
        proof {
            let inner = self.textbox.padding.vertical();
            crate::textbox::lemma_padding_bounds(self.textbox.padding);
            assert(SCALE == 1024);
            assert forall|i: int| 0 <= i < own@.len() implies -0x4000_0000 <= #[trigger] own@[i] by {
                assert(own@[i] == (self.textbox.height.values()[i] * SCALE - inner * SCALE) as i32);
            }
        }
        lessen(&own, self.padding.scaled_vertical_padding())
    }

    fn possible_widths(&self) -> (widths: Vec<i32>) {
        let own = self.textbox.possible_widths();
        proof {
            let inner = self.textbox.padding.horizontal();
            crate::textbox::lemma_padding_bounds(self.textbox.padding);
            assert(SCALE == 1024);
            assert forall|i: int| 0 <= i < own@.len() implies -0x4000_0000 <= #[trigger] own@[i] by {
                assert(own@[i] == (self.textbox.width.values()[i] * SCALE - inner * SCALE) as i32);
            }
        }
        lessen(&own, self.padding.scaled_horizontal_padding())
    }

    /// The font of the text box.
    fn font_description(&self) -> (r: &FontDescription)
        ensures
            *r == self.textbox.font_desc.0,
    {
        self.textbox.font_description()
    }

    /// The markup of the text box.
    fn markup(&self) -> (r: &str)
        ensures
            r@ == self.textbox.markup@,
    {
        self.textbox.markup()
    }

    /// The alignment of the text box.
    fn alignment(&self) -> (r: Alignment)
        ensures
            r == self.textbox.alignment.0,
    {
        self.textbox.alignment()
    }

    fn output_width(&self, layout_width: i32) -> (r: i32) {
        proof {
            crate::textbox::lemma_padding_bounds(self.textbox.padding);
            assert(SCALE == 1024);
        }
        self.textbox.output_width(layout_width) + self.padding.horizontal_padding()
    }

    fn output_height(&self, layout_height: i32) -> (r: i32) {
        proof {
            crate::textbox::lemma_padding_bounds(self.textbox.padding);
            assert(SCALE == 1024);
        }
        self.textbox.output_height(layout_height) + self.padding.vertical_padding()
    }

    fn output_x(&self) -> (r: i32) {
        proof {
            crate::textbox::lemma_padding_bounds(self.textbox.padding);
        }
        self.textbox.output_x() + self.padding.left as i32
    }

    fn output_y(&self) -> (r: i32) {
        proof {
            crate::textbox::lemma_padding_bounds(self.textbox.padding);
        }
        self.textbox.output_y() + self.padding.top as i32
    }

    fn centre_output_vertically(&self) -> (r: bool) {
        true
    }
}

/// The tag of an image of the given place and size that holds the image
/// `svg` itself.
pub open spec fn image_tag(svg: Seq<char>, x: int, y: int, width: int, height: int) -> Seq<char> {
    "<image xmlns:xlink=\"http://www.w3.org/1999/xlink\" x=\""@ + integer_digits(x) + "\" y=\""@
        + integer_digits(y) + "\" width=\""@ + integer_digits(width) + "\" height=\""@ + integer_digits(height)
        + "\" xlink:href=\"data:image/svg+xml;base64, "@ + base64_of(svg) + "\"/>"@
}

/// The tag of an image of the given place and size, given the image in
/// base64.
pub fn tag_of(encoded: &str, x: i32, y: i32, width: i32, height: i32) -> (r: String)
    ensures
        r@ == "<image xmlns:xlink=\"http://www.w3.org/1999/xlink\" x=\""@ + integer_digits(x as int)
            + "\" y=\""@ + integer_digits(y as int) + "\" width=\""@ + integer_digits(width as int)
            + "\" height=\""@ + integer_digits(height as int) + "\" xlink:href=\"data:image/svg+xml;base64, "@
            + encoded@ + "\"/>"@,
{
    let mut out = chars_of("<image xmlns:xlink=\"http://www.w3.org/1999/xlink\" x=\"");
    push_integer(&mut out, x as i64);
    crate::attributes::push_all(&mut out, &chars_of("\" y=\""));
    push_integer(&mut out, y as i64);
    crate::attributes::push_all(&mut out, &chars_of("\" width=\""));
    push_integer(&mut out, width as i64);
    crate::attributes::push_all(&mut out, &chars_of("\" height=\""));
    push_integer(&mut out, height as i64);
    crate::attributes::push_all(&mut out, &chars_of("\" xlink:href=\"data:image/svg+xml;base64, "));
    crate::attributes::push_all(&mut out, &chars_of(encoded));
    crate::attributes::push_all(&mut out, &chars_of("\"/>"));
    string_of(&out)
}

/// `out` holds the image of the padded text box `this`, its width and its
/// height: a layout of the text box was found and rendered as `plain`, and
/// the image is `plain` with a rectangle after its definitions that has the
/// width and the height of `plain` and the attributes of `this`.
pub open spec fn padded_image_made<
    S,
    F: Fn(S, Trial) -> (S, bool),
    M: Fn(&S) -> Rectangle,
    R: FnOnce(S, Placement) -> Result<String, SvgTextBoxError>,
>(this: &PaddedTextBox, probe: F, measure: M, render: R, start: S, out: (String, i32, i32)) -> bool {
    exists|plain: RenderedTextbox|
        {
            &&& #[trigger] image_made(this, probe, measure, render, start, plain)
            &&& out.1 == plain.width
            &&& out.2 == plain.height
            &&& rect_inserted(
                plain.src@,
                rect_attributes(pairs_of(this.other@), plain.width as int, plain.height as int),
            ) == Ok::<Seq<char>, SvgTextBoxError>(out.0@)
        }
}

/// No image of the padded text box `this` came about, and `e` says why:
/// no image of the text box came about, or the rectangle could not be put
/// into the image that did.
pub open spec fn padded_image_refused<
    S,
    F: Fn(S, Trial) -> (S, bool),
    M: Fn(&S) -> Rectangle,
    R: FnOnce(S, Placement) -> Result<String, SvgTextBoxError>,
>(this: &PaddedTextBox, probe: F, measure: M, render: R, start: S, e: SvgTextBoxError) -> bool {
    ||| image_refused(this, probe, measure, render, start, e)
    ||| (candidate_fault(this) is None && exists|plain: RenderedTextbox|
        {
            &&& #[trigger] image_made(this, probe, measure, render, start, plain)
            &&& rect_inserted(
                plain.src@,
                rect_attributes(pairs_of(this.other@), plain.width as int, plain.height as int),
            ) == Err::<Seq<char>, SvgTextBoxError>(e)
        })
}

/// `tag` is the tag for the place `x`, `y` that holds the image of the
/// padded text box `this`.
pub open spec fn padded_tag_made<
    S,
    F: Fn(S, Trial) -> (S, bool),
    M: Fn(&S) -> Rectangle,
    R: FnOnce(S, Placement) -> Result<String, SvgTextBoxError>,
>(this: &PaddedTextBox, x: int, y: int, probe: F, measure: M, render: R, start: S, tag: Seq<char>) -> bool {
    exists|out: (String, i32, i32)|
        {
            &&& #[trigger] padded_image_made(this, probe, measure, render, start, out)
            &&& tag == image_tag(out.0@, x, y, out.1 as int, out.2 as int)
        }
}

impl PaddedTextBox {
    /// Finds the layout of the text box, has it rendered and puts the
    /// rectangle behind it. Handed out are the image, its width and its
    /// height.
    pub fn to_svg_image<
        S,
        F: Fn(S, Trial) -> (S, bool),
        M: Fn(&S) -> Rectangle,
        R: FnOnce(S, Placement) -> Result<String, SvgTextBoxError>,
    >(&self, state: S, probe: &F, measure: M, render: R) -> (r: Result<(String, i32, i32), SvgTextBoxError>)
        requires
            always_callable(*probe),
            forall|s: &S| call_requires(measure, (s,)),
            forall|s: S, p: Placement| call_requires(render, (s, p)),
        ensures
            r is Ok ==> candidate_fault(self) is None,
            r matches Ok(out) ==> padded_image_made(self, *probe, measure, render, state, out),
            r matches Err(e) ==> padded_image_refused(self, *probe, measure, render, state, e),
    {
        let image = match RenderedTextbox::new(self, state, probe, measure, render) {
            Ok(image) => image,
            Err(e) => {
                return Err(e);
            },
        };
        let attrs = rect_attrs(&self.other, image.width, image.height);
        match insert_rect(image.as_ref(), &attrs) {
            Ok(svg) => {
                let out = (svg, image.width, image.height);
                assert(padded_image_made(self, *probe, measure, render, state, out));
                Ok(out)
            },
            Err(e) => {
                assert(padded_image_refused(self, *probe, measure, render, state, e));
                Err(e)
            },
        }
    }

    /// The image of the text box as a tag that holds it, for the place
    /// `x`, `y`.
    pub fn to_svg_image_tag<
        S,
        F: Fn(S, Trial) -> (S, bool),
        M: Fn(&S) -> Rectangle,
        R: FnOnce(S, Placement) -> Result<String, SvgTextBoxError>,
    >(&self, x: i32, y: i32, state: S, probe: &F, measure: M, render: R) -> (r: Result<String, SvgTextBoxError>)
        requires
            always_callable(*probe),
            forall|s: &S| call_requires(measure, (s,)),
            forall|s: S, p: Placement| call_requires(render, (s, p)),
        ensures
            r is Ok ==> candidate_fault(self) is None,
            r matches Ok(tag) ==> padded_tag_made(self, x as int, y as int, *probe, measure, render, state, tag@),
            r matches Err(e) ==> padded_image_refused(self, *probe, measure, render, state, e),
    {
        let out = match self.to_svg_image(state, probe, measure, render) {
            Ok(out) => out,
            Err(e) => {
                return Err(e);
            },
        };
        let b64 = base64_encode(out.0.as_str());
        let tag = tag_of(b64.as_str(), x, y, out.1, out.2);
        proof {
            assert(tag@ == image_tag(out.0@, x as int, y as int, out.1 as int, out.2 as int));
            assert(padded_tag_made(self, x as int, y as int, *probe, measure, render, state, tag@));
        }
        Ok(tag)
    }
}

} // verus!
