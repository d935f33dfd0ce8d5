//! Reading a capability document from its text.
//!
//! The text is cut into events by `quick_xml`. What is verified here is
//! what the events mean: which element stands where, which texts are names
//! and numbers, and when a text is no capability document at all.

use crate::backends::escl::capabilities::{
    unit_view, AdfCaps, AdfCapsView, DiscreteResolution, InputCaps, InputCapsView, PlatenCaps,
    PlatenCapsView, ScannerCapabilities, ScannerCapabilitiesView, SettingProfile,
    SettingProfileView,
};
use crate::text::{parse_u32, parsed_u32, same_text, texts};
use quick_xml::events::Event;
use quick_xml::Reader;
use vstd::prelude::*;
use vstd::string::StringSliceAdditionalSpecFns;
use vstd::utf8::{encode_utf8, is_char_boundary};

verus! {

/// One piece of a document.
#[derive(Debug)]
pub enum XmlEvent {
    /// An element opens. The name is the one behind the namespace prefix.
    Start(String),
    /// An element closes.
    End(String),
    /// An element that opens and closes at once.
    Empty(String),
    /// Text between tags, as it stands.
    Text(String),
    /// A comment, a declaration, a reference or the like.
    Other,
    /// The end of the text.
    Eof,
    /// The text is no XML from here on.
    Malformed,
}

pub enum XmlEventView {
    Start(Seq<char>),
    End(Seq<char>),
    Empty(Seq<char>),
    Text(Seq<char>),
    Other,
    Eof,
    Malformed,
}

impl View for XmlEvent {
    type V = XmlEventView;

    open spec fn view(&self) -> XmlEventView {
        match self {
            XmlEvent::Start(name) => XmlEventView::Start(name@),
            XmlEvent::End(name) => XmlEventView::End(name@),
            XmlEvent::Empty(name) => XmlEventView::Empty(name@),
            XmlEvent::Text(text) => XmlEventView::Text(text@),
            XmlEvent::Other => XmlEventView::Other,
            XmlEvent::Eof => XmlEventView::Eof,
            XmlEvent::Malformed => XmlEventView::Malformed,
        }
    }
}

impl XmlEventView {
    /// Reading stops at this event.
    pub open spec fn is_last(self) -> bool {
        self is Eof || self is Malformed
    }
}

/// The event that starts at a byte position of a text, and the number of
/// bytes that it takes.
pub uninterp spec fn xml_event_at(text: Seq<char>, position: nat) -> (XmlEventView, nat);

/// The bytes of a byte order mark stand at a position.
pub open spec fn mark_at(bytes: Seq<u8>, position: int) -> bool {
    &&& 0 <= position
    &&& position + 3 <= bytes.len()
    &&& bytes[position] == 0xEF
    &&& bytes[position + 1] == 0xBB
    &&& bytes[position + 2] == 0xBF
}

/// Reads the event that starts at a byte position, by `Reader::read_event`
/// of `quick_xml` on a reader over the rest of the text that takes an end
/// tag without its start tag (`allow_unmatched_ends`), since the start tag
/// lies before the position. Names lose their namespace prefix
/// (`local_name`), text comes as it stands, every error is `Malformed`, and
/// the bytes that the event takes are those that the reader counts
/// (`Reader::buffer_position`). A reader drops a byte order mark at its
/// start without counting it, so no mark may stand at the position. The
/// contract names what is read and says nothing of what it is.
#[verifier::external_body]
fn read_event_at(xml: &str, position: usize) -> (read: (XmlEvent, usize))
    requires
        is_char_boundary(xml.spec_bytes(), position as int),
        !mark_at(xml.spec_bytes(), position as int),
    ensures
        (read.0@, read.1 as nat) == xml_event_at(xml@, position as nat),
{
    let mut reader = Reader::from_str(&xml[position..]);
    reader.config_mut().allow_unmatched_ends = true;
    let event = match reader.read_event() {
        Ok(Event::Start(e)) => XmlEvent::Start(e.local_name().into_inner().to_string()),
        Ok(Event::End(e)) => XmlEvent::End(e.local_name().into_inner().to_string()),
        Ok(Event::Empty(e)) => XmlEvent::Empty(e.local_name().into_inner().to_string()),
        Ok(Event::Text(t)) => XmlEvent::Text(t.into_inner().into_owned()),
        Ok(Event::Eof) => XmlEvent::Eof,
        Ok(_) => XmlEvent::Other,
        Err(_) => XmlEvent::Malformed,
    };
    (event, reader.buffer_position() as usize)
}

/// The events of a text from a byte position on, up to the one at which
/// reading stops. A byte order mark before an event is passed over.
/// Reading also stops, as for a malformed text, where an event does not
/// lead on to a later position inside the text.
pub open spec fn events_from(text: Seq<char>, position: nat) -> Seq<XmlEventView>
    decreases encode_utf8(text).len() - position,
{
    let bytes = encode_utf8(text);
    if mark_at(bytes, position as int) {
        if is_char_boundary(bytes, (position + 3) as int) {
            events_from(text, position + 3)
        } else {
            seq![XmlEventView::Malformed]
        }
    } else {
        let (event, taken) = xml_event_at(text, position);
        if event.is_last() {
            seq![event]
        } else if 0 < taken && position + taken <= bytes.len() && is_char_boundary(
            bytes,
            (position + taken) as int,
        ) {
            seq![event] + events_from(text, position + taken)
        } else {
            seq![event, XmlEventView::Malformed]
        }
    }
}

/// The events of a text.
pub open spec fn events_of(text: Seq<char>) -> Seq<XmlEventView> {
    events_from(text, 0)
}

pub open spec fn event_views(events: Seq<XmlEvent>) -> Seq<XmlEventView> {
    events.map_values(|e: XmlEvent| e@)
}

/// Tells whether the bytes of a byte order mark stand at a position.
fn has_mark_at(bytes: &[u8], position: usize) -> (found: bool)
    ensures
        found == mark_at(bytes@, position as int),
{
    let total = bytes.len();
    if total < 3 || position > total - 3 {
        return false;
    }
    bytes[position] == 0xEF && bytes[position + 1] == 0xBB && bytes[position + 2] == 0xBF
}

/// Cuts a text into events.
pub fn read_events(xml: &str) -> (events: Vec<XmlEvent>)
    ensures
        event_views(events@) == events_of(xml@),
{
    broadcast use vstd::utf8::encode_utf8_valid_utf8;

    let bytes = xml.as_bytes();
    let total = bytes.len();
    let mut events: Vec<XmlEvent> = Vec::new();
    let mut position: usize = 0;
    assert(event_views(events@) + events_from(xml@, 0) =~= events_of(xml@));
    loop
        invariant
            bytes@ == encode_utf8(xml@),
            total == encode_utf8(xml@).len(),
            position <= total,
            is_char_boundary(encode_utf8(xml@), position as int),
            event_views(events@) + events_from(xml@, position as nat) == events_of(xml@),
        decreases total - position,
    {
        let ghost before = events@;
        if has_mark_at(bytes, position) {
            if !xml.is_char_boundary(position + 3) {
                events.push(XmlEvent::Malformed);
                assert(event_views(events@) =~= event_views(before) + seq![
                    XmlEventView::Malformed,
                ]);
                return events;
            }
            position = position + 3;
        } else {
            let (event, taken) = read_event_at(xml, position);
            let last = match &event {
                XmlEvent::Eof => true,
                XmlEvent::Malformed => true,
                _ => false,
            };
            events.push(event);
            assert(event_views(events@) =~= event_views(before).push(event@));
            if last {
                assert(event_views(events@) =~= event_views(before) + seq![event@]);
                return events;
            }
            if taken == 0 || taken > total - position || !xml.is_char_boundary(position + taken) {
                events.push(XmlEvent::Malformed);
                assert(event_views(events@) =~= event_views(before) + seq![
                    event@,
                    XmlEventView::Malformed,
                ]);
                return events;
            }
            let next = position + taken;
            assert(event_views(events@) + events_from(xml@, next as nat) =~= event_views(before)
                + (seq![event@] + events_from(xml@, next as nat)));
            position = next;
        }
    }
}

/// The units of a scanner that a document describes.
#[derive(Debug, Clone, Copy, PartialEq, Eq, Structural)]
pub enum Unit {
    Platen,
    Simplex,
    Duplex,
}

/// The dimensions that the input capabilities of a unit give.
#[derive(Debug, Clone, Copy, PartialEq, Eq, Structural)]
pub enum Dimension {
    MinWidth,
    MaxWidth,
    MinHeight,
    MaxHeight,
}

/// A place in a capability document: the element that is open.
#[derive(Debug, Clone, Copy, PartialEq, Eq, Structural)]
pub enum Place {
    /// Outside every element.
    Top,
    /// The element that holds the document, whatever its name.
    Document,
    Platen,
    Adf,
    AdfSimplex,
    AdfDuplex,
    InputCaps(Unit),
    Dimension(Unit, Dimension),
    SettingProfiles(Unit),
    SettingProfile(Unit),
    ColorModes(Unit),
    ColorMode(Unit),
    SupportedResolutions(Unit),
    DiscreteResolutions(Unit),
    DiscreteResolution(Unit),
    XResolution(Unit),
    YResolution(Unit),
    /// An element that the record is not drawn from, or anything inside one.
    Elsewhere,
}

/// The place of an element with a name that opens in a place.
pub open spec fn child_place(place: Place, name: Seq<char>) -> Place {
    match place {
        Place::Top => Place::Document,
        Place::Document => if name == "Platen"@ {
            Place::Platen
        } else if name == "Adf"@ {
            Place::Adf
        } else {
            Place::Elsewhere
        },
        Place::Platen => if name == "PlatenInputCaps"@ {
            Place::InputCaps(Unit::Platen)
        } else {
            Place::Elsewhere
        },
        Place::Adf => if name == "AdfSimplex"@ {
            Place::AdfSimplex
        } else if name == "AdfDuplex"@ {
            Place::AdfDuplex
        } else {
            Place::Elsewhere
        },
        Place::AdfSimplex => if name == "AdfSimplexInputCaps"@ {
            Place::InputCaps(Unit::Simplex)
        } else {
            Place::Elsewhere
        },
        Place::AdfDuplex => if name == "AdfDuplexInputCaps"@ {
            Place::InputCaps(Unit::Duplex)
        } else {
            Place::Elsewhere
        },
        Place::InputCaps(unit) => if name == "SettingProfiles"@ {
            Place::SettingProfiles(unit)
        } else if name == "MinWidth"@ {
            Place::Dimension(unit, Dimension::MinWidth)
        } else if name == "MaxWidth"@ {
            Place::Dimension(unit, Dimension::MaxWidth)
        } else if name == "MinHeight"@ {
            Place::Dimension(unit, Dimension::MinHeight)
        } else if name == "MaxHeight"@ {
            Place::Dimension(unit, Dimension::MaxHeight)
        } else {
            Place::Elsewhere
        },
        Place::SettingProfiles(unit) => if name == "SettingProfile"@ {
            Place::SettingProfile(unit)
        } else {
            Place::Elsewhere
        },
        Place::SettingProfile(unit) => if name == "ColorModes"@ {
            Place::ColorModes(unit)
        } else if name == "SupportedResolutions"@ {
            Place::SupportedResolutions(unit)
        } else {
            Place::Elsewhere
        },
        Place::ColorModes(unit) => if name == "ColorMode"@ {
            Place::ColorMode(unit)
        } else {
            Place::Elsewhere
        },
        Place::SupportedResolutions(unit) => if name == "DiscreteResolutions"@ {
            Place::DiscreteResolutions(unit)
        } else {
            Place::Elsewhere
        },
        Place::DiscreteResolutions(unit) => if name == "DiscreteResolution"@ {
            Place::DiscreteResolution(unit)
        } else {
            Place::Elsewhere
        },
        Place::DiscreteResolution(unit) => if name == "XResolution"@ {
            Place::XResolution(unit)
        } else if name == "YResolution"@ {
            Place::YResolution(unit)
        } else {
            Place::Elsewhere
        },
        _ => Place::Elsewhere,
    }
}

pub fn child(place: Place, name: &str) -> (found: Place)
    ensures
        found == child_place(place, name@),
{
    match place {
        Place::Top => Place::Document,
        Place::Document => if same_text(name, "Platen") {
            Place::Platen
        } else if same_text(name, "Adf") {
            Place::Adf
        } else {
            Place::Elsewhere
        },
        Place::Platen => if same_text(name, "PlatenInputCaps") {
            Place::InputCaps(Unit::Platen)
        } else {
            Place::Elsewhere
        },
        Place::Adf => if same_text(name, "AdfSimplex") {
            Place::AdfSimplex
        } else if same_text(name, "AdfDuplex") {
            Place::AdfDuplex
        } else {
            Place::Elsewhere
        },
        Place::AdfSimplex => if same_text(name, "AdfSimplexInputCaps") {
            Place::InputCaps(Unit::Simplex)
        } else {
            Place::Elsewhere
        },
        Place::AdfDuplex => if same_text(name, "AdfDuplexInputCaps") {
            Place::InputCaps(Unit::Duplex)
        } else {
            Place::Elsewhere
        },
        Place::InputCaps(unit) => if same_text(name, "SettingProfiles") {
            Place::SettingProfiles(unit)
        } else if same_text(name, "MinWidth") {
            Place::Dimension(unit, Dimension::MinWidth)
        } else if same_text(name, "MaxWidth") {
            Place::Dimension(unit, Dimension::MaxWidth)
        } else if same_text(name, "MinHeight") {
            Place::Dimension(unit, Dimension::MinHeight)
        } else if same_text(name, "MaxHeight") {
            Place::Dimension(unit, Dimension::MaxHeight)
        } else {
            Place::Elsewhere
        },
        Place::SettingProfiles(unit) => if same_text(name, "SettingProfile") {
            Place::SettingProfile(unit)
        } else {
            Place::Elsewhere
        },
        Place::SettingProfile(unit) => if same_text(name, "ColorModes") {
            Place::ColorModes(unit)
        } else if same_text(name, "SupportedResolutions") {
            Place::SupportedResolutions(unit)
        } else {
            Place::Elsewhere
        },
        Place::ColorModes(unit) => if same_text(name, "ColorMode") {
            Place::ColorMode(unit)
        } else {
            Place::Elsewhere
        },
        Place::SupportedResolutions(unit) => if same_text(name, "DiscreteResolutions") {
            Place::DiscreteResolutions(unit)
        } else {
            Place::Elsewhere
        },
        Place::DiscreteResolutions(unit) => if same_text(name, "DiscreteResolution") {
            Place::DiscreteResolution(unit)
        } else {
            Place::Elsewhere
        },
        Place::DiscreteResolution(unit) => if same_text(name, "XResolution") {
            Place::XResolution(unit)
        } else if same_text(name, "YResolution") {
            Place::YResolution(unit)
        } else {
            Place::Elsewhere
        },
        _ => Place::Elsewhere,
    }
}

/// The input capabilities of a unit of which nothing is known yet.
pub open spec fn empty_unit() -> InputCapsView {
    InputCapsView {
        min_width: None,
        max_width: None,
        min_height: None,
        max_height: None,
        profiles: Seq::empty(),
    }
}

/// What is known of a unit; nothing, where the unit was not met.
pub open spec fn opened(unit: Option<InputCapsView>) -> InputCapsView {
    match unit {
        Some(caps) => caps,
        None => empty_unit(),
    }
}

pub open spec fn empty_profile() -> SettingProfileView {
    SettingProfileView { color_modes: Seq::empty(), resolutions: Seq::empty() }
}

/// The unit with one more setting profile, which lists nothing yet.
pub open spec fn with_profile(unit: InputCapsView) -> InputCapsView {
    InputCapsView { profiles: unit.profiles.push(empty_profile()), ..unit }
}

/// The unit with one more color mode name in its last setting profile.
pub open spec fn with_mode(unit: InputCapsView, name: Seq<char>) -> InputCapsView {
    if unit.profiles.len() == 0 {
        unit
    } else {
        let last = unit.profiles.last();
        InputCapsView {
            profiles: unit.profiles.drop_last().push(
                SettingProfileView { color_modes: last.color_modes.push(name), ..last },
            ),
            ..unit
        }
    }
}

/// The unit with one more resolution in its last setting profile.
pub open spec fn with_resolution(unit: InputCapsView, resolution: DiscreteResolution) -> InputCapsView {
    if unit.profiles.len() == 0 {
        unit
    } else {
        let last = unit.profiles.last();
        InputCapsView {
            profiles: unit.profiles.drop_last().push(
                SettingProfileView { resolutions: last.resolutions.push(resolution), ..last },
            ),
            ..unit
        }
    }
}

/// The unit with one of its dimensions set.
pub open spec fn with_dimension(unit: InputCapsView, which: Dimension, value: u32) -> InputCapsView {
    match which {
        Dimension::MinWidth => InputCapsView { min_width: Some(value), ..unit },
        Dimension::MaxWidth => InputCapsView { max_width: Some(value), ..unit },
        Dimension::MinHeight => InputCapsView { min_height: Some(value), ..unit },
        Dimension::MaxHeight => InputCapsView { max_height: Some(value), ..unit },
    }
}

/// A document in the making: the elements that are open, and what was read.
pub struct DraftView {
    /// The places of the open elements, the innermost last.
    pub places: Seq<Place>,
    /// The names of the open elements.
    pub names: Seq<Seq<char>>,
    /// An element that holds the document was met.
    pub rooted: bool,
    pub platen_seen: bool,
    pub adf_seen: bool,
    pub platen: Option<InputCapsView>,
    pub simplex: Option<InputCapsView>,
    pub duplex: Option<InputCapsView>,
    /// The resolution that is being read, as far as it is read.
    pub x: Option<u32>,
    pub y: Option<u32>,
}

impl DraftView {
    pub open spec fn start() -> DraftView {
        DraftView {
            places: Seq::empty(),
            names: Seq::empty(),
            rooted: false,
            platen_seen: false,
            adf_seen: false,
            platen: None,
            simplex: None,
            duplex: None,
            x: None,
            y: None,
        }
    }

    /// The place of the innermost open element.
    pub open spec fn place(self) -> Place {
        if self.places.len() == 0 {
            Place::Top
        } else {
            self.places.last()
        }
    }

    pub open spec fn unit(self, unit: Unit) -> Option<InputCapsView> {
        match unit {
            Unit::Platen => self.platen,
            Unit::Simplex => self.simplex,
            Unit::Duplex => self.duplex,
        }
    }

    pub open spec fn set_unit(self, unit: Unit, caps: InputCapsView) -> DraftView {
        match unit {
            Unit::Platen => DraftView { platen: Some(caps), ..self },
            Unit::Simplex => DraftView { simplex: Some(caps), ..self },
            Unit::Duplex => DraftView { duplex: Some(caps), ..self },
        }
    }

    /// An element opens in a place: the document, the flatbed and the
    /// feeder are marked as met, a unit is taken up, a setting profile is
    /// added to its unit, and a resolution starts with nothing read.
    pub open spec fn enter(self, place: Place) -> DraftView {
        match place {
            Place::Document => DraftView { rooted: true, ..self },
            Place::Platen => DraftView { platen_seen: true, ..self },
            Place::Adf => DraftView { adf_seen: true, ..self },
            Place::AdfDuplex => self.set_unit(Unit::Duplex, opened(self.duplex)),
            Place::InputCaps(unit) => self.set_unit(unit, opened(self.unit(unit))),
            Place::SettingProfile(unit) => self.set_unit(
                unit,
                with_profile(opened(self.unit(unit))),
            ),
            Place::DiscreteResolution(_) => DraftView { x: None, y: None, ..self },
            _ => self,
        }
    }

    /// An element closes: a resolution goes to its setting profile, and is
    /// no resolution where one of its numbers was not read.
    pub open spec fn leave(self, place: Place) -> Option<DraftView> {
        match place {
            Place::DiscreteResolution(unit) => match (self.x, self.y) {
                (Some(x), Some(y)) => Some(
                    (DraftView { x: None, y: None, ..self }).set_unit(
                        unit,
                        with_resolution(
                            opened(self.unit(unit)),
                            DiscreteResolution { x_resolution: x, y_resolution: y },
                        ),
                    ),
                ),
                _ => None,
            },
            _ => Some(self),
        }
    }

    /// Text stands in a place: the name of a color mode goes to its setting
    /// profile, and a number is read where one is due, which fails where
    /// the text is no number.
    pub open spec fn text(self, text: Seq<char>) -> Option<DraftView> {
        match self.place() {
            Place::ColorMode(unit) => Some(
                self.set_unit(unit, with_mode(opened(self.unit(unit)), text)),
            ),
            Place::XResolution(_) => match parsed_u32(text) {
                Some(n) => Some(DraftView { x: Some(n), ..self }),
                None => None,
            },
            Place::YResolution(_) => match parsed_u32(text) {
                Some(n) => Some(DraftView { y: Some(n), ..self }),
                None => None,
            },
            Place::Dimension(unit, which) => match parsed_u32(text) {
                Some(n) => Some(self.set_unit(unit, with_dimension(opened(self.unit(unit)), which, n))),
                None => None,
            },
            _ => Some(self),
        }
    }

    /// The draft after one more event; `None` where the event shows that
    /// the text is no capability document: an end tag without its start
    /// tag, a number that is none, a resolution that lacks a number, or
    /// text that is no XML.
    pub open spec fn step(self, event: XmlEventView) -> Option<DraftView> {
        match event {
            XmlEventView::Start(name) => {
                let place = child_place(self.place(), name);
                let entered = self.enter(place);
                Some(
                    DraftView {
                        places: entered.places.push(place),
                        names: entered.names.push(name),
                        ..entered
                    },
                )
            },
            XmlEventView::Empty(name) => {
                let place = child_place(self.place(), name);
                self.enter(place).leave(place)
            },
            XmlEventView::End(name) => {
                if self.places.len() > 0 && self.names.len() > 0 && self.names.last() == name {
                    (DraftView {
                        places: self.places.drop_last(),
                        names: self.names.drop_last(),
                        ..self
                    }).leave(self.places.last())
                } else {
                    None
                }
            },
            XmlEventView::Text(text) => self.text(text),
            XmlEventView::Other => Some(self),
            XmlEventView::Eof => Some(self),
            XmlEventView::Malformed => None,
        }
    }

    /// The document that was read.
    pub open spec fn document(self) -> ScannerCapabilitiesView {
        ScannerCapabilitiesView {
            platen: if self.platen_seen {
                Some(PlatenCapsView { input_caps: self.platen })
            } else {
                None
            },
            adf: if self.adf_seen {
                Some(AdfCapsView { simplex: self.simplex, duplex: self.duplex })
            } else {
                None
            },
        }
    }
}

/// The draft after a sequence of events.
pub open spec fn draft_after(events: Seq<XmlEventView>) -> Option<DraftView>
    decreases events.len(),
{
    if events.len() == 0 {
        Some(DraftView::start())
    } else {
        match draft_after(events.drop_last()) {
            Some(draft) => draft.step(events.last()),
            None => None,
        }
    }
}

/// The capability document that a sequence of events holds; `None` where
/// the events hold none: where an event is out of place, where no element
/// holds the document, or where the text ends inside an element.
pub open spec fn document_of(events: Seq<XmlEventView>) -> Option<ScannerCapabilitiesView> {
    match draft_after(events) {
        Some(draft) => if draft.rooted && draft.places.len() == 0 {
            Some(draft.document())
        } else {
            None
        },
        None => None,
    }
}

/// A document in the making.
struct Draft {
    places: Vec<Place>,
    names: Vec<String>,
    rooted: bool,
    platen_seen: bool,
    adf_seen: bool,
    platen: Option<InputCaps>,
    simplex: Option<InputCaps>,
    duplex: Option<InputCaps>,
    x: Option<u32>,
    y: Option<u32>,
}

impl View for Draft {
    type V = DraftView;

    closed spec fn view(&self) -> DraftView {
        DraftView {
            places: self.places@,
            names: texts(self.names@),
            rooted: self.rooted,
            platen_seen: self.platen_seen,
            adf_seen: self.adf_seen,
            platen: unit_view(self.platen),
            simplex: unit_view(self.simplex),
            duplex: unit_view(self.duplex),
            x: self.x,
            y: self.y,
        }
    }
}

/// Takes what is known of a unit out of its place.
fn take_unit(unit: &mut Option<InputCaps>) -> (caps: InputCaps)
    ensures
        caps@ == opened(unit_view(*old(unit))),
        *final(unit) is None,
{
    match unit.take() {
        Some(caps) => caps,
        None => {
            let caps = InputCaps {
                min_width: None,
                max_width: None,
                min_height: None,
                max_height: None,
                profiles: Vec::new(),
            };
            assert(caps@.profiles =~= Seq::<SettingProfileView>::empty());
            caps
        },
    }
}

fn open_unit(unit: &mut Option<InputCaps>)
    ensures
        unit_view(*final(unit)) == Some(opened(unit_view(*old(unit)))),
{
    let caps = take_unit(unit);
    *unit = Some(caps);
}

fn add_profile(unit: &mut Option<InputCaps>)
    ensures
        unit_view(*final(unit)) == Some(with_profile(opened(unit_view(*old(unit))))),
{
    let mut caps = take_unit(unit);
    let ghost before = caps@;
    let profile = SettingProfile { color_modes: Vec::new(), resolutions: Vec::new() };
    assert(profile@.color_modes =~= Seq::<Seq<char>>::empty());
    caps.profiles.push(profile);
    assert(caps@.profiles =~= before.profiles.push(empty_profile()));
    *unit = Some(caps);
}

fn add_mode(unit: &mut Option<InputCaps>, name: String)
    ensures
        unit_view(*final(unit)) == Some(with_mode(opened(unit_view(*old(unit))), name@)),
{
    let mut caps = take_unit(unit);
    let ghost before = caps@;
    match caps.profiles.pop() {
        Some(profile) => {
            let mut profile = profile;
            let ghost last = profile@;
            assert(caps@.profiles =~= before.profiles.drop_last());
            profile.color_modes.push(name);
            assert(profile@.color_modes =~= last.color_modes.push(name@));
            caps.profiles.push(profile);
            assert(caps@.profiles =~= before.profiles.drop_last().push(profile@));
        },
        None => {
            assert(caps@.profiles =~= before.profiles);
        },
    }
    *unit = Some(caps);
}

fn add_resolution(unit: &mut Option<InputCaps>, resolution: DiscreteResolution)
    ensures
        unit_view(*final(unit)) == Some(
            with_resolution(opened(unit_view(*old(unit))), resolution),
        ),
{
    let mut caps = take_unit(unit);
    let ghost before = caps@;
    match caps.profiles.pop() {
        Some(profile) => {
            let mut profile = profile;
            assert(caps@.profiles =~= before.profiles.drop_last());
            profile.resolutions.push(resolution);
            caps.profiles.push(profile);
            assert(caps@.profiles =~= before.profiles.drop_last().push(profile@));
        },
        None => {
            assert(caps@.profiles =~= before.profiles);
        },
    }
    *unit = Some(caps);
}

fn set_dimension(unit: &mut Option<InputCaps>, which: Dimension, value: u32)
    ensures
        unit_view(*final(unit)) == Some(
            with_dimension(opened(unit_view(*old(unit))), which, value),
        ),
{
    let mut caps = take_unit(unit);
    match which {
        Dimension::MinWidth => {
            caps.min_width = Some(value);
        },
        Dimension::MaxWidth => {
            caps.max_width = Some(value);
        },
        Dimension::MinHeight => {
            caps.min_height = Some(value);
        },
        Dimension::MaxHeight => {
            caps.max_height = Some(value);
        },
    }
    *unit = Some(caps);
}

impl Draft {
    fn new() -> (draft: Draft)
        ensures
            draft@ == DraftView::start(),
    {
        let draft = Draft {
            places: Vec::new(),
            names: Vec::new(),
            rooted: false,
            platen_seen: false,
            adf_seen: false,
            platen: None,
            simplex: None,
            duplex: None,
            x: None,
            y: None,
        };
        assert(draft@.names =~= Seq::<Seq<char>>::empty());
        draft
    }

    fn place(&self) -> (place: Place)
        ensures
            place == self@.place(),
    {
        if self.places.len() == 0 {
            Place::Top
        } else {
            self.places[self.places.len() - 1]
        }
    }

    fn enter(&mut self, place: Place)
        ensures
            final(self)@ == old(self)@.enter(place),
    {
        match place {
            Place::Document => {
                self.rooted = true;
            },
            Place::Platen => {
                self.platen_seen = true;
            },
            Place::Adf => {
                self.adf_seen = true;
            },
            Place::AdfDuplex => {
                open_unit(&mut self.duplex);
            },
            Place::InputCaps(unit) => match unit {
                Unit::Platen => {
                    open_unit(&mut self.platen);
                },
                Unit::Simplex => {
                    open_unit(&mut self.simplex);
                },
                Unit::Duplex => {
                    open_unit(&mut self.duplex);
                },
            },
            Place::SettingProfile(unit) => match unit {
                Unit::Platen => {
                    add_profile(&mut self.platen);
                },
                Unit::Simplex => {
                    add_profile(&mut self.simplex);
                },
                Unit::Duplex => {
                    add_profile(&mut self.duplex);
                },
            },
            Place::DiscreteResolution(_) => {
                self.x = None;
                self.y = None;
            },
            _ => {},
        }
    }

    fn leave(&mut self, place: Place) -> (left: bool)
        ensures
            match old(self)@.leave(place) {
                Some(next) => left && final(self)@ == next,
                None => !left,
            },
    {
        match place {
            Place::DiscreteResolution(unit) => match (self.x, self.y) {
                (Some(x), Some(y)) => {
                    let resolution = DiscreteResolution { x_resolution: x, y_resolution: y };
                    self.x = None;
                    self.y = None;
                    match unit {
                        Unit::Platen => {
                            add_resolution(&mut self.platen, resolution);
                        },
                        Unit::Simplex => {
                            add_resolution(&mut self.simplex, resolution);
                        },
                        Unit::Duplex => {
                            add_resolution(&mut self.duplex, resolution);
                        },
                    }
                    true
                },
                _ => false,
            },
            _ => true,
        }
    }

    fn text(&mut self, text: String) -> (taken: bool)
        ensures
            match old(self)@.text(text@) {
                Some(next) => taken && final(self)@ == next,
                None => !taken,
            },
    {
        match self.place() {
            Place::ColorMode(unit) => {
                match unit {
                    Unit::Platen => {
                        add_mode(&mut self.platen, text);
                    },
                    Unit::Simplex => {
                        add_mode(&mut self.simplex, text);
                    },
                    Unit::Duplex => {
                        add_mode(&mut self.duplex, text);
                    },
                }
                true
            },
            Place::XResolution(_) => match parse_u32(text.as_str()) {
                Some(n) => {
                    self.x = Some(n);
                    true
                },
                None => false,
            },
            Place::YResolution(_) => match parse_u32(text.as_str()) {
                Some(n) => {
                    self.y = Some(n);
                    true
                },
                None => false,
            },
            Place::Dimension(unit, which) => match parse_u32(text.as_str()) {
                Some(n) => {
                    match unit {
                        Unit::Platen => {
                            set_dimension(&mut self.platen, which, n);
                        },
                        Unit::Simplex => {
                            set_dimension(&mut self.simplex, which, n);
                        },
                        Unit::Duplex => {
                            set_dimension(&mut self.duplex, which, n);
                        },
                    }
                    true
                },
                None => false,
            },
            _ => true,
        }
    }

    fn step(&mut self, event: XmlEvent) -> (taken: bool)
        ensures
            match old(self)@.step(event@) {
                Some(next) => taken && final(self)@ == next,
                None => !taken,
            },
    {
        match event {
            XmlEvent::Start(name) => {
                let place = child(self.place(), name.as_str());
                self.enter(place);
                let ghost entered = self@;
                self.places.push(place);
                self.names.push(name);
                assert(self@.names =~= entered.names.push(name@));
                true
            },
            XmlEvent::Empty(name) => {
                let place = child(self.place(), name.as_str());
                self.enter(place);
                self.leave(place)
            },
            XmlEvent::End(name) => {
                if self.places.len() == 0 || self.names.len() == 0 {
                    return false;
                }
                let ghost before = self@;
                if !same_text(self.names[self.names.len() - 1].as_str(), name.as_str()) {
                    return false;
                }
                let place = self.places[self.places.len() - 1];
                self.places.pop();
                self.names.pop();
                assert(self@.names =~= before.names.drop_last());
                assert(self@.places =~= before.places.drop_last());
                self.leave(place)
            },
            XmlEvent::Text(text) => self.text(text),
            XmlEvent::Other => true,
            XmlEvent::Eof => true,
            XmlEvent::Malformed => false,
        }
    }

    fn into_document(self) -> (document: ScannerCapabilities)
        ensures
            document@ == self@.document(),
    {
        ScannerCapabilities {
            platen: if self.platen_seen {
                Some(PlatenCaps { input_caps: self.platen })
            } else {
                None
            },
            adf: if self.adf_seen {
                Some(AdfCaps { simplex: self.simplex, duplex: self.duplex })
            } else {
                None
            },
        }
    }
}

pub open spec fn read_view(document: Option<ScannerCapabilities>) -> Option<
    ScannerCapabilitiesView,
> {
    match document {
        Some(doc) => Some(doc@),
        None => None,
    }
}

/// Draws the capability document from a sequence of events.
pub fn document_from_events(events: Vec<XmlEvent>) -> (document: Option<ScannerCapabilities>)
    ensures
        read_view(document) == document_of(event_views(events@)),
{
    let ghost whole = event_views(events@);
    let mut draft = Draft::new();
    assert(whole.take(0) =~= Seq::<XmlEventView>::empty());
    for event in it: events
        invariant
            whole == event_views(it.seq()),
            draft_after(whole.take(it.index() as int)) == Some(draft@),
    {
        proof {
            let next = whole.take(it.index() + 1);
            assert(next.drop_last() =~= whole.take(it.index() as int));
            assert(next.last() == event@);
        }
        if !draft.step(event) {
            proof {
                lemma_failure_stays(whole, it.index() + 1);
            }
            return None;
        }
    }
    assert(whole.take(whole.len() as int) =~= whole);
    if draft.rooted && draft.places.len() == 0 {
        Some(draft.into_document())
    } else {
        None
    }
}

/// Events that are out of place at some point hold no document, whatever
/// follows.
proof fn lemma_failure_stays(events: Seq<XmlEventView>, n: int)
    requires
        0 <= n <= events.len(),
        draft_after(events.take(n)) is None,
    ensures
        draft_after(events) is None,
    decreases events.len() - n,
{
    if n < events.len() {
        assert(events.take(n + 1).drop_last() =~= events.take(n));
        lemma_failure_stays(events, n + 1);
    } else {
        assert(events.take(n) =~= events);
    }
}

/// Reads a capability document from its text; `None` where the text is no
/// capability document.
pub fn read_document(xml: &str) -> (document: Option<ScannerCapabilities>)
    ensures
        read_view(document) == document_of(events_of(xml@)),
{
    document_from_events(read_events(xml))
}

} // verus!
