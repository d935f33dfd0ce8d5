//! From a scanner's capability document to a capability record, and from
//! the reply to a capability query to its outcome.

use crate::backends::escl::document::{document_of, events_of, read_document};
use crate::backends::escl::status::{
    append_status_line, is_success, status_is_success, status_line,
};
use crate::models::{
    default_color_mode_list, default_color_modes, default_dpi_list, default_dpis,
    default_page_size_list, default_page_sizes, default_source_list, default_sources, has_color_mode,
    has_dpi, Capabilities, CapabilitiesView, ColorMode, PapyrError, PapyrErrorView, ScanSource,
};
use crate::seqs::{distinct, lemma_distinct, lemma_distinct_by_push, lemma_has_item};
use crate::text::{same_text, texts};
use vstd::prelude::*;

verus! {

/// One resolution that a setting profile lists.
#[derive(Debug, Clone, Copy, PartialEq, Eq, Structural)]
pub struct DiscreteResolution {
    pub x_resolution: u32,
    pub y_resolution: u32,
}

/// One setting profile: color modes by their protocol names, and discrete
/// resolutions.
#[derive(Debug)]
pub struct SettingProfile {
    pub color_modes: Vec<String>,
    pub resolutions: Vec<DiscreteResolution>,
}

/// The input capabilities of one unit of the scanner.
#[derive(Debug)]
pub struct InputCaps {
    pub min_width: Option<u32>,
    pub max_width: Option<u32>,
    pub min_height: Option<u32>,
    pub max_height: Option<u32>,
    pub profiles: Vec<SettingProfile>,
}

/// The flatbed glass.
#[derive(Debug)]
pub struct PlatenCaps {
    pub input_caps: Option<InputCaps>,
}

/// The document feeder: one side of a sheet, and both sides where the
/// feeder can turn it.
#[derive(Debug)]
pub struct AdfCaps {
    pub simplex: Option<InputCaps>,
    pub duplex: Option<InputCaps>,
}

/// A capability document, as far as a capability record is drawn from it.
#[derive(Debug)]
pub struct ScannerCapabilities {
    pub platen: Option<PlatenCaps>,
    pub adf: Option<AdfCaps>,
}

/// The color mode that a protocol name stands for.
pub open spec fn color_mode_of(name: Seq<char>) -> Option<ColorMode> {
    if name == "RGB24"@ || name == "RGB48"@ {
        Some(ColorMode::Color)
    } else if name == "Grayscale8"@ || name == "Grayscale16"@ {
        Some(ColorMode::Gray)
    } else if name == "BlackAndWhite1"@ {
        Some(ColorMode::Bw)
    } else {
        None
    }
}

/// The protocol name under which a color mode is asked for.
pub open spec fn protocol_name(mode: ColorMode) -> Seq<char> {
    match mode {
        ColorMode::Color => "RGB24"@,
        ColorMode::Gray => "Grayscale8"@,
        ColorMode::Bw => "BlackAndWhite1"@,
    }
}

/// Every color mode is read back from the name it is asked for under.
pub proof fn lemma_protocol_name_round_trip(mode: ColorMode)
    ensures
        color_mode_of(protocol_name(mode)) == Some(mode),
{
    reveal_strlit("RGB24");
    reveal_strlit("RGB48");
    reveal_strlit("Grayscale8");
    reveal_strlit("Grayscale16");
    reveal_strlit("BlackAndWhite1");
    assert("Grayscale8"@.len() == 10);
    assert("RGB24"@.len() == 5);
    assert("RGB48"@.len() == 5);
    assert("Grayscale16"@.len() == 11);
    assert("BlackAndWhite1"@.len() == 14);
}

pub fn parse_color_mode(name: &str) -> (mode: Option<ColorMode>)
    ensures
        mode == color_mode_of(name@),
{
    if same_text(name, "RGB24") || same_text(name, "RGB48") {
        Some(ColorMode::Color)
    } else if same_text(name, "Grayscale8") || same_text(name, "Grayscale16") {
        Some(ColorMode::Gray)
    } else if same_text(name, "BlackAndWhite1") {
        Some(ColorMode::Bw)
    } else {
        None
    }
}

pub fn color_mode_name(mode: ColorMode) -> (name: &'static str)
    ensures
        name@ == protocol_name(mode),
{
    match mode {
        ColorMode::Color => "RGB24",
        ColorMode::Gray => "Grayscale8",
        ColorMode::Bw => "BlackAndWhite1",
    }
}

pub struct SettingProfileView {
    pub color_modes: Seq<Seq<char>>,
    pub resolutions: Seq<DiscreteResolution>,
}

pub struct InputCapsView {
    pub min_width: Option<u32>,
    pub max_width: Option<u32>,
    pub min_height: Option<u32>,
    pub max_height: Option<u32>,
    pub profiles: Seq<SettingProfileView>,
}

pub struct PlatenCapsView {
    pub input_caps: Option<InputCapsView>,
}

pub struct AdfCapsView {
    pub simplex: Option<InputCapsView>,
    pub duplex: Option<InputCapsView>,
}

pub struct ScannerCapabilitiesView {
    pub platen: Option<PlatenCapsView>,
    pub adf: Option<AdfCapsView>,
}

impl View for SettingProfile {
    type V = SettingProfileView;

    open spec fn view(&self) -> SettingProfileView {
        SettingProfileView {
            color_modes: texts(self.color_modes@),
            resolutions: self.resolutions@,
        }
    }
}

pub open spec fn profile_views(profiles: Seq<SettingProfile>) -> Seq<SettingProfileView> {
    profiles.map_values(|p: SettingProfile| p@)
}

impl View for InputCaps {
    type V = InputCapsView;

    open spec fn view(&self) -> InputCapsView {
        InputCapsView {
            min_width: self.min_width,
            max_width: self.max_width,
            min_height: self.min_height,
            max_height: self.max_height,
            profiles: profile_views(self.profiles@),
        }
    }
}

pub open spec fn unit_view(unit: Option<InputCaps>) -> Option<InputCapsView> {
    match unit {
        Some(caps) => Some(caps@),
        None => None,
    }
}

impl View for PlatenCaps {
    type V = PlatenCapsView;

    open spec fn view(&self) -> PlatenCapsView {
        PlatenCapsView { input_caps: unit_view(self.input_caps) }
    }
}

impl View for AdfCaps {
    type V = AdfCapsView;

    open spec fn view(&self) -> AdfCapsView {
        AdfCapsView { simplex: unit_view(self.simplex), duplex: unit_view(self.duplex) }
    }
}

impl View for ScannerCapabilities {
    type V = ScannerCapabilitiesView;

    open spec fn view(&self) -> ScannerCapabilitiesView {
        ScannerCapabilitiesView {
            platen: match self.platen {
                Some(platen) => Some(platen@),
                None => None,
            },
            adf: match self.adf {
                Some(adf) => Some(adf@),
                None => None,
            },
        }
    }
}

/// A document that may be missing, as a value.
pub open spec fn document_view(document: Option<&ScannerCapabilities>) -> Option<
    ScannerCapabilitiesView,
> {
    match document {
        Some(doc) => Some(doc@),
        None => None,
    }
}

/// The horizontal resolutions of one profile, in document order.
pub open spec fn profile_dpis(profile: SettingProfileView) -> Seq<u32> {
    profile.resolutions.map_values(|r: DiscreteResolution| r.x_resolution)
}

/// The color modes that the names of a list stand for, in order; a name that
/// stands for none is passed over.
pub open spec fn named_modes(names: Seq<Seq<char>>) -> Seq<ColorMode>
    decreases names.len(),
{
    if names.len() == 0 {
        Seq::empty()
    } else {
        match color_mode_of(names.last()) {
            Some(mode) => named_modes(names.drop_last()).push(mode),
            None => named_modes(names.drop_last()),
        }
    }
}

pub open spec fn profiles_dpis(profiles: Seq<SettingProfileView>) -> Seq<u32>
    decreases profiles.len(),
{
    if profiles.len() == 0 {
        Seq::empty()
    } else {
        profiles_dpis(profiles.drop_last()) + profile_dpis(profiles.last())
    }
}

pub open spec fn profiles_modes(profiles: Seq<SettingProfileView>) -> Seq<ColorMode>
    decreases profiles.len(),
{
    if profiles.len() == 0 {
        Seq::empty()
    } else {
        profiles_modes(profiles.drop_last()) + named_modes(profiles.last().color_modes)
    }
}

pub open spec fn unit_dpis(unit: Option<InputCapsView>) -> Seq<u32> {
    match unit {
        Some(caps) => profiles_dpis(caps.profiles),
        None => Seq::empty(),
    }
}

pub open spec fn unit_modes(unit: Option<InputCapsView>) -> Seq<ColorMode> {
    match unit {
        Some(caps) => profiles_modes(caps.profiles),
        None => Seq::empty(),
    }
}

impl ScannerCapabilitiesView {
    pub open spec fn platen_unit(self) -> Option<InputCapsView> {
        match self.platen {
            Some(platen) => platen.input_caps,
            None => None,
        }
    }

    pub open spec fn simplex_unit(self) -> Option<InputCapsView> {
        match self.adf {
            Some(adf) => adf.simplex,
            None => None,
        }
    }

    pub open spec fn duplex_unit(self) -> Option<InputCapsView> {
        match self.adf {
            Some(adf) => adf.duplex,
            None => None,
        }
    }

    /// The feeder can scan both sides.
    pub open spec fn has_duplex(self) -> bool {
        self.duplex_unit() is Some
    }

    /// Every horizontal resolution in the document: the flatbed's, then the
    /// feeder's one-sided, then its two-sided ones.
    pub open spec fn listed_dpis(self) -> Seq<u32> {
        unit_dpis(self.platen_unit()) + unit_dpis(self.simplex_unit()) + unit_dpis(
            self.duplex_unit(),
        )
    }

    /// Every color mode in the document, in the same order.
    pub open spec fn listed_modes(self) -> Seq<ColorMode> {
        unit_modes(self.platen_unit()) + unit_modes(self.simplex_unit()) + unit_modes(
            self.duplex_unit(),
        )
    }

    /// The units that the document describes, as sources.
    pub open spec fn listed_sources(self) -> Seq<ScanSource> {
        let flatbed = if self.platen is Some {
            seq![ScanSource::Flatbed]
        } else {
            Seq::empty()
        };
        let feeder = if self.adf is Some {
            seq![ScanSource::Adf]
        } else {
            Seq::empty()
        };
        let both_sides = if self.has_duplex() {
            seq![ScanSource::AdfDuplex]
        } else {
            Seq::empty()
        };
        flatbed + feeder + both_sides
    }
}

/// `list`, or `fallback` where `list` is empty.
pub open spec fn or_default<A>(list: Seq<A>, fallback: Seq<A>) -> Seq<A> {
    if list.len() == 0 {
        fallback
    } else {
        list
    }
}

/// The capability record of a scanner, from its capability document;
/// `None` stands for a document that could not be read.
pub open spec fn capabilities_of(document: Option<ScannerCapabilitiesView>) -> CapabilitiesView {
    match document {
        None => CapabilitiesView::defaults(),
        Some(doc) => CapabilitiesView {
            sources: or_default(doc.listed_sources(), default_sources()),
            dpis: or_default(distinct(doc.listed_dpis().filter(|d: u32| d > 0)), default_dpis()),
            color_modes: or_default(distinct(doc.listed_modes()), default_color_modes()),
            page_sizes: default_page_sizes(),
            supports_duplex: doc.has_duplex(),
        },
    }
}

fn append_profile_modes(out: &mut Vec<ColorMode>, profile: &SettingProfile)
    ensures
        final(out)@ == old(out)@ + named_modes(profile@.color_modes),
{
    let names = &profile.color_modes;
    let ghost views = texts(names@);
    let mut i: usize = 0;
    assert(views.take(0) =~= Seq::<Seq<char>>::empty());
    assert(old(out)@ + Seq::<ColorMode>::empty() =~= old(out)@);
    while i < names.len()
        invariant
            i <= names@.len(),
            views == texts(names@),
            out@ == old(out)@ + named_modes(views.take(i as int)),
        decreases names@.len() - i,
    {
        proof {
            let next = views.take(i + 1);
            assert(next.drop_last() =~= views.take(i as int));
            assert(next.last() == names@[i as int]@);
            match color_mode_of(names@[i as int]@) {
                Some(mode) => {
                    assert((old(out)@ + named_modes(views.take(i as int))).push(mode) =~= old(
                        out,
                    )@ + named_modes(next));
                },
                None => {},
            }
        }
        match parse_color_mode(names[i].as_str()) {
            Some(mode) => {
                out.push(mode);
            },
            None => {},
        }
        i = i + 1;
    }
    assert(views.take(i as int) =~= views);
}

fn append_profile_dpis(out: &mut Vec<u32>, profile: &SettingProfile)
    ensures
        final(out)@ == old(out)@ + profile_dpis(profile@),
{
    let list = &profile.resolutions;
    let mut i: usize = 0;
    assert(old(out)@ + profile_dpis(profile@).take(0) =~= old(out)@);
    while i < list.len()
        invariant
            i <= list@.len(),
            list@ == profile.resolutions@,
            out@ == old(out)@ + profile_dpis(profile@).take(i as int),
        decreases list@.len() - i,
    {
        out.push(list[i].x_resolution);
        assert(out@ =~= old(out)@ + profile_dpis(profile@).take(i + 1));
        i = i + 1;
    }
    assert(profile_dpis(profile@).take(i as int) =~= profile_dpis(profile@));
}

fn append_unit(dpis: &mut Vec<u32>, modes: &mut Vec<ColorMode>, unit: &Option<InputCaps>)
    ensures
        final(dpis)@ == old(dpis)@ + unit_dpis(unit_view(*unit)),
        final(modes)@ == old(modes)@ + unit_modes(unit_view(*unit)),
{
    match unit {
        None => {
            assert(old(dpis)@ + Seq::<u32>::empty() =~= old(dpis)@);
            assert(old(modes)@ + Seq::<ColorMode>::empty() =~= old(modes)@);
        },
        Some(caps) => {
            let profiles = &caps.profiles;
            let ghost views = profile_views(profiles@);
            let mut i: usize = 0;
            assert(views.take(0) =~= Seq::<SettingProfileView>::empty());
            assert(old(dpis)@ + Seq::<u32>::empty() =~= old(dpis)@);
            assert(old(modes)@ + Seq::<ColorMode>::empty() =~= old(modes)@);
            while i < profiles.len()
                invariant
                    i <= profiles@.len(),
                    views == profile_views(profiles@),
                    dpis@ == old(dpis)@ + profiles_dpis(views.take(i as int)),
                    modes@ == old(modes)@ + profiles_modes(views.take(i as int)),
                decreases profiles@.len() - i,
            {
                proof {
                    let next = views.take(i + 1);
                    assert(next.drop_last() =~= views.take(i as int));
                    assert(next.last() == profiles@[i as int]@);
                    assert((old(dpis)@ + profiles_dpis(views.take(i as int))) + profile_dpis(
                        profiles@[i as int]@,
                    ) =~= old(dpis)@ + profiles_dpis(next));
                    assert((old(modes)@ + profiles_modes(views.take(i as int))) + named_modes(
                        profiles@[i as int]@.color_modes,
                    ) =~= old(modes)@ + profiles_modes(next));
                }
                append_profile_dpis(dpis, &profiles[i]);
                append_profile_modes(modes, &profiles[i]);
                i = i + 1;
            }
            assert(views.take(i as int) =~= views);
        },
    }
}

fn distinct_positive(list: &Vec<u32>) -> (kept: Vec<u32>)
    ensures
        kept@ == distinct(list@.filter(|d: u32| d > 0)),
{
    let ghost pred = |d: u32| d > 0;
    let ghost key = |a: u32| a;
    let mut kept: Vec<u32> = Vec::new();
    let mut i: usize = 0;
    assert(list@.take(0) =~= Seq::<u32>::empty());
    assert(Seq::<u32>::empty().filter(pred) =~= Seq::<u32>::empty()) by {
        reveal(Seq::filter);
    }
    while i < list.len()
        invariant
            i <= list@.len(),
            pred == (|d: u32| d > 0),
            key == (|a: u32| a),
            kept@ == distinct(list@.take(i as int).filter(pred)),
        decreases list@.len() - i,
    {
        let x = list[i];
        proof {
            let seen = list@.take(i as int);
            assert(list@.take(i + 1) =~= seen.push(x));
            seen.lemma_filter_push(x, pred);
            lemma_distinct_by_push(seen.filter(pred), key, x);
            lemma_has_item(kept@, x);
        }
        if x > 0 && !has_dpi(&kept, x) {
            kept.push(x);
        }
        i = i + 1;
    }
    assert(list@.take(i as int) =~= list@);
    kept
}

fn distinct_modes(list: &Vec<ColorMode>) -> (kept: Vec<ColorMode>)
    ensures
        kept@ == distinct(list@),
{
    let ghost key = |a: ColorMode| a;
    let mut kept: Vec<ColorMode> = Vec::new();
    let mut i: usize = 0;
    assert(list@.take(0) =~= Seq::<ColorMode>::empty());
    while i < list.len()
        invariant
            i <= list@.len(),
            key == (|a: ColorMode| a),
            kept@ == distinct(list@.take(i as int)),
        decreases list@.len() - i,
    {
        let x = list[i];
        proof {
            let seen = list@.take(i as int);
            assert(list@.take(i + 1) =~= seen.push(x));
            lemma_distinct_by_push(seen, key, x);
            lemma_has_item(kept@, x);
        }
        if !has_color_mode(&kept, x) {
            kept.push(x);
        }
        i = i + 1;
    }
    assert(list@.take(i as int) =~= list@);
    kept
}

/// Draws the capability record from a scanner's capability document. A
/// document that could not be read is handed in as `None` and gives the
/// defaults, as does every list that the document leaves empty.
pub fn capabilities_from_document(document: Option<&ScannerCapabilities>) -> (caps: Capabilities)
    ensures
        caps@ == capabilities_of(document_view(document)),
        caps.is_consistent(),
{
    match document {
        None => Capabilities::defaults(),
        Some(doc) => {
            let mut sources: Vec<ScanSource> = Vec::new();
            let mut dpis: Vec<u32> = Vec::new();
            let mut modes: Vec<ColorMode> = Vec::new();
            let mut supports_duplex = false;
            match &doc.platen {
                Some(platen) => {
                    sources.push(ScanSource::Flatbed);
                    append_unit(&mut dpis, &mut modes, &platen.input_caps);
                },
                None => {},
            }
            match &doc.adf {
                Some(adf) => {
                    sources.push(ScanSource::Adf);
                    append_unit(&mut dpis, &mut modes, &adf.simplex);
                    append_unit(&mut dpis, &mut modes, &adf.duplex);
                    if adf.duplex.is_some() {
                        sources.push(ScanSource::AdfDuplex);
                        supports_duplex = true;
                    }
                },
                None => {},
            }
            assert(sources@ =~= doc@.listed_sources());
            assert(dpis@ =~= doc@.listed_dpis());
            assert(modes@ =~= doc@.listed_modes());
            let dpis = distinct_positive(&dpis);
            let modes = distinct_modes(&modes);
            let caps = Capabilities {
                sources: if sources.len() == 0 {
                    default_source_list()
                } else {
                    sources
                },
                dpis: if dpis.len() == 0 {
                    default_dpi_list()
                } else {
                    dpis
                },
                color_modes: if modes.len() == 0 {
                    default_color_mode_list()
                } else {
                    modes
                },
                page_sizes: default_page_size_list(),
                supports_duplex,
            };
            proof {
                lemma_capabilities_of_consistent(document_view(document));
            }
            caps
        },
    }
}

/// Whatever the document holds, the record drawn from it is consistent.
pub proof fn lemma_capabilities_of_consistent(document: Option<ScannerCapabilitiesView>)
    ensures
        capabilities_of(document).is_consistent(),
{
    let caps = capabilities_of(document);
    CapabilitiesView::defaults().lemma_completed_is_consistent();
    assert(CapabilitiesView::defaults().completed() == CapabilitiesView::defaults()) by {
        assert(CapabilitiesView::defaults().is_consistent()) by {
            assert(default_page_sizes()[0].is_positive());
            assert(default_page_sizes()[1].is_positive());
        }
        CapabilitiesView::defaults().lemma_completed_keeps_consistent();
    }
    match document {
        None => {},
        Some(doc) => {
            let positive = doc.listed_dpis().filter(|d: u32| d > 0);
            lemma_distinct(positive);
            assert forall|i: int| 0 <= i < caps.dpis.len() implies caps.dpis[i] > 0 by {
                if distinct(positive).len() > 0 {
                    assert(distinct(positive).contains(caps.dpis[i]));
                    assert(positive.contains(caps.dpis[i]));
                    let k = choose|k: int| 0 <= k < positive.len() && positive[k] == caps.dpis[i];
                    doc.listed_dpis().lemma_filter_pred(|d: u32| d > 0, k);
                }
            }
            if doc.has_duplex() {
                let s = doc.listed_sources();
                assert(s[s.len() - 1] == ScanSource::AdfDuplex);
            }
        },
    }
}

/// How long a capability query may take, in seconds.
pub const CAPABILITY_TIMEOUT_SECS: u64 = 30;

/// The URL of a scanner's capability document.
pub open spec fn capabilities_url_of(base_url: Seq<char>) -> Seq<char> {
    base_url + "/ScannerCapabilities"@
}

pub fn capabilities_url(base_url: &str) -> (url: String)
    ensures
        url@ == capabilities_url_of(base_url@),
{
    let mut url = String::from_str(base_url);
    url.append("/ScannerCapabilities");
    url
}

/// The capability record that the text of a capability document stands
/// for: the defaults where the text is no capability document.
pub open spec fn capabilities_of_text(xml: Seq<char>) -> CapabilitiesView {
    capabilities_of(document_of(events_of(xml)))
}

/// Reads the capability record of a scanner from the text of its
/// capability document. A text that is no capability document gives the
/// defaults, as does every list that the document leaves empty.
pub fn parse_capabilities(xml: &str) -> (caps: Capabilities)
    ensures
        caps@ == capabilities_of_text(xml@),
        caps.is_consistent(),
{
    let document = read_document(xml);
    match &document {
        Some(doc) => capabilities_from_document(Some(doc)),
        None => capabilities_from_document(None),
    }
}

/// What a capability query gives, from the status of the reply and the
/// text in it: the record on success, else a backend error that names
/// the status in a line of text.
pub open spec fn capability_reply(status: u16, body: Seq<char>) -> Result<
    CapabilitiesView,
    PapyrErrorView,
> {
    if is_success(status) {
        Ok(capabilities_of_text(body))
    } else {
        Err(PapyrErrorView::Backend("HTTP error: "@ + status_line(status)))
    }
}

/// Reads the reply to a capability query.
pub fn capabilities_from_reply(status: u16, body: &str) -> (reply: Result<Capabilities, PapyrError>)
    ensures
        match reply {
            Ok(caps) => capability_reply(status, body@) == Ok::<CapabilitiesView, PapyrErrorView>(
                caps@,
            ) && caps.is_consistent(),
            Err(e) => capability_reply(status, body@) == Err::<CapabilitiesView, PapyrErrorView>(
                e@,
            ),
        },
{
    if status_is_success(status) {
        Ok(parse_capabilities(body))
    } else {
        let mut text = String::from_str("HTTP error: ");
        append_status_line(&mut text, status);
        Err(PapyrError::Backend(text))
    }
}

} // verus!
