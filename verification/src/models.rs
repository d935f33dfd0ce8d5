//! Scanner descriptors, capability records, scan requests, events and errors.

use crate::text::{occurs_at, starts_with};
use vstd::prelude::*;

verus! {

/// The driver stack through which a scanner is reached.
#[derive(Debug, Clone, Copy, PartialEq, Eq, Structural)]
pub enum Backend {
    /// Windows Image Acquisition.
    Wia,
    /// Scanner Access Now Easy.
    Sane,
    /// Image Capture Architecture.
    Ica,
    /// eSCL / AirScan network scanners.
    Escl,
    /// TWAIN data sources.
    Twain,
    Unknown,
}

impl Backend {
    /// The start of every identifier that a backend of this kind gives out.
    /// Kinds are kept apart by it: no identifier starts in two ways.
    pub open spec fn spec_namespace(&self) -> Seq<char> {
        match self {
            Backend::Wia => "wia_"@,
            Backend::Sane => "sane_"@,
            Backend::Ica => "ica_"@,
            Backend::Escl => "escl_"@,
            Backend::Twain => "twain_"@,
            Backend::Unknown => Seq::empty(),
        }
    }

    pub fn namespace(&self) -> (start: &'static str)
        ensures
            start@ == self.spec_namespace(),
    {
        match self {
            Backend::Wia => "wia_",
            Backend::Sane => "sane_",
            Backend::Ica => "ica_",
            Backend::Escl => "escl_",
            Backend::Twain => "twain_",
            Backend::Unknown => {
                proof {
                    reveal_strlit("");
                    assert(""@ =~= Seq::<char>::empty());
                }
                ""
            },
        }
    }
}

/// The identifier lies in the namespace of a kind of backend.
pub open spec fn in_namespace(device_id: Seq<char>, backend: Backend) -> bool {
    backend != Backend::Unknown && occurs_at(device_id, backend.spec_namespace(), 0)
}

/// The namespaces keep the kinds apart: an identifier lies in at most one.
pub proof fn lemma_namespaces_apart(device_id: Seq<char>, a: Backend, b: Backend)
    requires
        in_namespace(device_id, a),
        in_namespace(device_id, b),
    ensures
        a == b,
{
    reveal_strlit("wia_");
    reveal_strlit("sane_");
    reveal_strlit("ica_");
    reveal_strlit("escl_");
    reveal_strlit("twain_");
    let first = device_id[0];
    assert(device_id.subrange(0, a.spec_namespace().len() as int)[0] == first);
    assert(device_id.subrange(0, b.spec_namespace().len() as int)[0] == first);
}

/// The kind of backend in whose namespace an identifier lies; `Unknown`
/// where it lies in none.
pub fn backend_of_id(device_id: &str) -> (backend: Backend)
    ensures
        backend != Backend::Unknown ==> in_namespace(device_id@, backend),
        backend == Backend::Unknown ==> forall|b: Backend| !in_namespace(device_id@, b),
{
    if starts_with(device_id, "wia_") {
        Backend::Wia
    } else if starts_with(device_id, "sane_") {
        Backend::Sane
    } else if starts_with(device_id, "ica_") {
        Backend::Ica
    } else if starts_with(device_id, "escl_") {
        Backend::Escl
    } else if starts_with(device_id, "twain_") {
        Backend::Twain
    } else {
        Backend::Unknown
    }
}

#[derive(Debug, Clone, Copy, PartialEq, Eq, Structural)]
pub enum ScanSource {
    Flatbed,
    Adf,
    AdfDuplex,
}

#[derive(Debug, Clone, Copy, PartialEq, Eq, Structural)]
pub enum ColorMode {
    Color,
    Gray,
    Bw,
}

#[derive(Debug, Clone, Copy, PartialEq, Eq, Structural)]
pub struct PageSize {
    pub width_mm: u32,
    pub height_mm: u32,
}

impl PageSize {
    /// US Letter, 216 x 279 mm.
    pub open spec fn spec_letter() -> PageSize {
        PageSize { width_mm: 216, height_mm: 279 }
    }

    /// ISO A4, 210 x 297 mm.
    pub open spec fn spec_a4() -> PageSize {
        PageSize { width_mm: 210, height_mm: 297 }
    }

    /// ISO A5, 148 x 210 mm.
    pub open spec fn spec_a5() -> PageSize {
        PageSize { width_mm: 148, height_mm: 210 }
    }

    /// Both dimensions are positive.
    pub open spec fn is_positive(self) -> bool {
        self.width_mm > 0 && self.height_mm > 0
    }

    #[verifier::when_used_as_spec(spec_letter)]
    pub fn letter() -> (p: PageSize)
        ensures
            p == Self::spec_letter(),
    {
        PageSize { width_mm: 216, height_mm: 279 }
    }

    #[verifier::when_used_as_spec(spec_a4)]
    pub fn a4() -> (p: PageSize)
        ensures
            p == Self::spec_a4(),
    {
        PageSize { width_mm: 210, height_mm: 297 }
    }

    #[verifier::when_used_as_spec(spec_a5)]
    pub fn a5() -> (p: PageSize)
        ensures
            p == Self::spec_a5(),
    {
        PageSize { width_mm: 148, height_mm: 210 }
    }
}

/// A discovered scanner: an identifier that is unique over all backends, a
/// name for people, and the backend that owns the device.
#[derive(Debug)]
pub struct ScannerInfo {
    pub id: String,
    pub name: String,
    pub backend: Backend,
}

pub struct ScannerInfoView {
    pub id: Seq<char>,
    pub name: Seq<char>,
    pub backend: Backend,
}

impl View for ScannerInfo {
    type V = ScannerInfoView;

    open spec fn view(&self) -> ScannerInfoView {
        ScannerInfoView { id: self.id@, name: self.name@, backend: self.backend }
    }
}

impl Clone for ScannerInfo {
    fn clone(&self) -> (r: Self)
        ensures
            r@ == self@,
    {
        ScannerInfo { id: self.id.clone(), name: self.name.clone(), backend: self.backend }
    }
}

/// A region of the page, in millimetres from its top left corner.
#[derive(Debug, Clone, Copy, PartialEq, Eq, Structural)]
pub struct ScanArea {
    pub x_mm: u32,
    pub y_mm: u32,
    pub width_mm: u32,
    pub height_mm: u32,
}

impl ScanArea {
    /// The area is not empty and lies inside a page of the given size.
    pub open spec fn within(self, page: PageSize) -> bool {
        &&& self.width_mm > 0
        &&& self.height_mm > 0
        &&& self.x_mm + self.width_mm <= page.width_mm
        &&& self.y_mm + self.height_mm <= page.height_mm
    }

    pub fn fits(&self, page: PageSize) -> (b: bool)
        ensures
            b == self.within(page),
    {
        self.width_mm > 0 && self.height_mm > 0 && self.x_mm <= page.width_mm
            && self.width_mm <= page.width_mm - self.x_mm && self.y_mm <= page.height_mm
            && self.height_mm <= page.height_mm - self.y_mm
    }
}

#[derive(Debug, Clone, Copy, PartialEq, Eq, Structural)]
pub struct PageMeta {
    pub index: u32,
    pub width_px: u32,
    pub height_px: u32,
    pub dpi: u32,
    pub color_mode: ColorMode,
}

/// One element of a session's event stream.
#[derive(Debug)]
pub enum ScanEvent {
    PageStarted(u32),
    PageData(Vec<u8>),
    PageComplete(PageMeta),
    JobComplete,
}

pub enum ScanEventView {
    PageStarted(u32),
    PageData(Seq<u8>),
    PageComplete(PageMeta),
    JobComplete,
}

impl View for ScanEvent {
    type V = ScanEventView;

    open spec fn view(&self) -> ScanEventView {
        match self {
            ScanEvent::PageStarted(i) => ScanEventView::PageStarted(*i),
            ScanEvent::PageData(bytes) => ScanEventView::PageData(bytes@),
            ScanEvent::PageComplete(meta) => ScanEventView::PageComplete(*meta),
            ScanEvent::JobComplete => ScanEventView::JobComplete,
        }
    }
}

/// What a device can do. No list is empty in a consistent record: where a
/// device advertises nothing for a list, the defaults stand in.
#[derive(Debug)]
pub struct Capabilities {
    pub sources: Vec<ScanSource>,
    pub dpis: Vec<u32>,
    pub color_modes: Vec<ColorMode>,
    pub page_sizes: Vec<PageSize>,
    pub supports_duplex: bool,
}

pub struct CapabilitiesView {
    pub sources: Seq<ScanSource>,
    pub dpis: Seq<u32>,
    pub color_modes: Seq<ColorMode>,
    pub page_sizes: Seq<PageSize>,
    pub supports_duplex: bool,
}

impl View for Capabilities {
    type V = CapabilitiesView;

    open spec fn view(&self) -> CapabilitiesView {
        CapabilitiesView {
            sources: self.sources@,
            dpis: self.dpis@,
            color_modes: self.color_modes@,
            page_sizes: self.page_sizes@,
            supports_duplex: self.supports_duplex,
        }
    }
}

pub open spec fn default_sources() -> Seq<ScanSource> {
    seq![ScanSource::Flatbed]
}

pub open spec fn default_dpis() -> Seq<u32> {
    seq![75u32, 150u32, 300u32, 600u32]
}

pub open spec fn default_color_modes() -> Seq<ColorMode> {
    seq![ColorMode::Color, ColorMode::Gray, ColorMode::Bw]
}

pub open spec fn default_page_sizes() -> Seq<PageSize> {
    seq![PageSize::spec_letter(), PageSize::spec_a4()]
}

/// The sources with `AdfDuplex` added at the end where the duplex flag asks
/// for it and the list lacks it.
pub open spec fn sources_with_duplex(sources: Seq<ScanSource>, duplex: bool) -> Seq<ScanSource> {
    if duplex && !sources.contains(ScanSource::AdfDuplex) {
        sources.push(ScanSource::AdfDuplex)
    } else {
        sources
    }
}

impl CapabilitiesView {
    /// The record of a device that advertises nothing.
    pub open spec fn defaults() -> CapabilitiesView {
        CapabilitiesView {
            sources: default_sources(),
            dpis: default_dpis(),
            color_modes: default_color_modes(),
            page_sizes: default_page_sizes(),
            supports_duplex: false,
        }
    }

    /// No list is empty, every resolution and page dimension is positive, and
    /// a record that claims duplex lists the duplex feeder among its sources.
    pub open spec fn is_consistent(self) -> bool {
        &&& self.sources.len() > 0
        &&& self.dpis.len() > 0
        &&& forall|i: int| 0 <= i < self.dpis.len() ==> self.dpis[i] > 0
        &&& self.color_modes.len() > 0
        &&& self.page_sizes.len() > 0
        &&& forall|i: int| 0 <= i < self.page_sizes.len() ==> (#[trigger] self.page_sizes[i]).is_positive()
        &&& self.supports_duplex ==> self.sources.contains(ScanSource::AdfDuplex)
    }

    /// The record made consistent: zero resolutions and page sizes with a zero
    /// dimension are dropped, a list left empty takes its default, and the
    /// duplex feeder joins the sources of a record that claims duplex.
    pub open spec fn completed(self) -> CapabilitiesView {
        let sources = if self.sources.len() == 0 {
            default_sources()
        } else {
            self.sources
        };
        let dpis = self.dpis.filter(|d: u32| d > 0);
        let sizes = self.page_sizes.filter(|p: PageSize| p.is_positive());
        CapabilitiesView {
            sources: sources_with_duplex(sources, self.supports_duplex),
            dpis: if dpis.len() == 0 {
                default_dpis()
            } else {
                dpis
            },
            color_modes: if self.color_modes.len() == 0 {
                default_color_modes()
            } else {
                self.color_modes
            },
            page_sizes: if sizes.len() == 0 {
                default_page_sizes()
            } else {
                sizes
            },
            supports_duplex: self.supports_duplex,
        }
    }

    /// A completed record is consistent.
    pub proof fn lemma_completed_is_consistent(self)
        ensures
            self.completed().is_consistent(),
    {
        let c = self.completed();
        let dpis = self.dpis.filter(|d: u32| d > 0);
        let sizes = self.page_sizes.filter(|p: PageSize| p.is_positive());
        assert forall|i: int| 0 <= i < c.dpis.len() implies c.dpis[i] > 0 by {
            if dpis.len() != 0 {
                self.dpis.lemma_filter_pred(|d: u32| d > 0, i);
            }
        }
        assert forall|i: int| 0 <= i < c.page_sizes.len() implies (#[trigger] c.page_sizes[i]).is_positive() by {
            if sizes.len() != 0 {
                self.page_sizes.lemma_filter_pred(|p: PageSize| p.is_positive(), i);
            }
        }
        if self.supports_duplex {
            let sources = if self.sources.len() == 0 {
                default_sources()
            } else {
                self.sources
            };
            if !sources.contains(ScanSource::AdfDuplex) {
                let t = sources.push(ScanSource::AdfDuplex);
                assert(t[t.len() - 1] == ScanSource::AdfDuplex);
            }
        }
    }

    /// Completing a consistent record changes nothing.
    pub proof fn lemma_completed_keeps_consistent(self)
        requires
            self.is_consistent(),
        ensures
            self.completed() == self,
    {
        let keep_dpi = |d: u32| d > 0;
        let keep_size = |p: PageSize| p.is_positive();
        lemma_filter_all(self.dpis, keep_dpi);
        lemma_filter_all(self.page_sizes, keep_size);
    }
}

/// A filter keeps a sequence whose every element passes it.
pub proof fn lemma_filter_all<A>(s: Seq<A>, pred: spec_fn(A) -> bool)
    requires
        forall|i: int| 0 <= i < s.len() ==> pred(#[trigger] s[i]),
    ensures
        s.filter(pred) == s,
    decreases s.len(),
{
    reveal(Seq::filter);
    if s.len() > 0 {
        lemma_filter_all(s.drop_last(), pred);
        assert(s.drop_last().push(s.last()) =~= s);
    }
}

pub fn has_source(list: &Vec<ScanSource>, wanted: ScanSource) -> (found: bool)
    ensures
        found == list@.contains(wanted),
{
    let mut i: usize = 0;
    while i < list.len()
        invariant
            i <= list@.len(),
            forall|k: int| 0 <= k < i ==> list@[k] != wanted,
        decreases list@.len() - i,
    {
        if list[i] == wanted {
            return true;
        }
        i = i + 1;
    }
    false
}

pub fn has_dpi(list: &Vec<u32>, wanted: u32) -> (found: bool)
    ensures
        found == list@.contains(wanted),
{
    let mut i: usize = 0;
    while i < list.len()
        invariant
            i <= list@.len(),
            forall|k: int| 0 <= k < i ==> list@[k] != wanted,
        decreases list@.len() - i,
    {
        if list[i] == wanted {
            return true;
        }
        i = i + 1;
    }
    false
}

pub fn has_color_mode(list: &Vec<ColorMode>, wanted: ColorMode) -> (found: bool)
    ensures
        found == list@.contains(wanted),
{
    let mut i: usize = 0;
    while i < list.len()
        invariant
            i <= list@.len(),
            forall|k: int| 0 <= k < i ==> list@[k] != wanted,
        decreases list@.len() - i,
    {
        if list[i] == wanted {
            return true;
        }
        i = i + 1;
    }
    false
}

pub fn has_page_size(list: &Vec<PageSize>, wanted: PageSize) -> (found: bool)
    ensures
        found == list@.contains(wanted),
{
    let mut i: usize = 0;
    while i < list.len()
        invariant
            i <= list@.len(),
            forall|k: int| 0 <= k < i ==> list@[k] != wanted,
        decreases list@.len() - i,
    {
        if list[i] == wanted {
            return true;
        }
        i = i + 1;
    }
    false
}

fn positive_dpis(list: &Vec<u32>) -> (kept: Vec<u32>)
    ensures
        kept@ == list@.filter(|d: u32| d > 0),
{
    let ghost pred = |d: u32| d > 0;
    let mut kept: Vec<u32> = Vec::new();
    let mut i: usize = 0;
    assert(list@.take(0) =~= Seq::<u32>::empty());
    while i < list.len()
        invariant
            i <= list@.len(),
            pred == (|d: u32| d > 0),
            kept@ == list@.take(i as int).filter(pred),
        decreases list@.len() - i,
    {
        proof {
            assert(list@.take(i + 1) =~= list@.take(i as int).push(list@[i as int]));
            list@.take(i as int).lemma_filter_push(list@[i as int], pred);
        }
        if list[i] > 0 {
            kept.push(list[i]);
        }
        i = i + 1;
    }
    assert(list@.take(i as int) =~= list@);
    kept
}

fn positive_page_sizes(list: &Vec<PageSize>) -> (kept: Vec<PageSize>)
    ensures
        kept@ == list@.filter(|p: PageSize| p.is_positive()),
{
    let ghost pred = |p: PageSize| p.is_positive();
    let mut kept: Vec<PageSize> = Vec::new();
    let mut i: usize = 0;
    assert(list@.take(0) =~= Seq::<PageSize>::empty());
    while i < list.len()
        invariant
            i <= list@.len(),
            pred == (|p: PageSize| p.is_positive()),
            kept@ == list@.take(i as int).filter(pred),
        decreases list@.len() - i,
    {
        proof {
            assert(list@.take(i + 1) =~= list@.take(i as int).push(list@[i as int]));
            list@.take(i as int).lemma_filter_push(list@[i as int], pred);
        }
        if list[i].width_mm > 0 && list[i].height_mm > 0 {
            kept.push(list[i]);
        }
        i = i + 1;
    }
    assert(list@.take(i as int) =~= list@);
    kept
}

pub fn default_dpi_list() -> (list: Vec<u32>)
    ensures
        list@ == default_dpis(),
{
    let mut list: Vec<u32> = Vec::new();
    list.push(75);
    list.push(150);
    list.push(300);
    list.push(600);
    assert(list@ =~= default_dpis());
    list
}

pub fn default_color_mode_list() -> (list: Vec<ColorMode>)
    ensures
        list@ == default_color_modes(),
{
    let mut list: Vec<ColorMode> = Vec::new();
    list.push(ColorMode::Color);
    list.push(ColorMode::Gray);
    list.push(ColorMode::Bw);
    assert(list@ =~= default_color_modes());
    list
}

pub fn default_page_size_list() -> (list: Vec<PageSize>)
    ensures
        list@ == default_page_sizes(),
{
    let mut list: Vec<PageSize> = Vec::new();
    list.push(PageSize::letter());
    list.push(PageSize::a4());
    assert(list@ =~= default_page_sizes());
    list
}

pub fn default_source_list() -> (list: Vec<ScanSource>)
    ensures
        list@ == default_sources(),
{
    let mut list: Vec<ScanSource> = Vec::new();
    list.push(ScanSource::Flatbed);
    assert(list@ =~= default_sources());
    list
}

impl Capabilities {
    pub open spec fn is_consistent(&self) -> bool {
        self@.is_consistent()
    }

    /// The record of a device that advertises nothing: flatbed only, 75, 150,
    /// 300 and 600 DPI, all three color modes, Letter and A4, no duplex.
    pub fn defaults() -> (caps: Capabilities)
        ensures
            caps@ == CapabilitiesView::defaults(),
            caps.is_consistent(),
    {
        let caps = Capabilities {
            sources: default_source_list(),
            dpis: default_dpi_list(),
            color_modes: default_color_mode_list(),
            page_sizes: default_page_size_list(),
            supports_duplex: false,
        };
        proof {
            CapabilitiesView::defaults().lemma_completed_is_consistent();
            assert(CapabilitiesView::defaults().is_consistent());
        }
        caps
    }

    /// Tells whether the record is consistent.
    pub fn check_consistent(&self) -> (ok: bool)
        ensures
            ok == self.is_consistent(),
    {
        if self.sources.len() == 0 || self.dpis.len() == 0 || self.color_modes.len() == 0
            || self.page_sizes.len() == 0 {
            return false;
        }
        if has_dpi(&self.dpis, 0) {
            return false;
        }
        let mut i: usize = 0;
        while i < self.page_sizes.len()
            invariant
                i <= self.page_sizes@.len(),
                forall|k: int| 0 <= k < i ==> (#[trigger] self.page_sizes@[k]).is_positive(),
            decreases self.page_sizes@.len() - i,
        {
            if self.page_sizes[i].width_mm == 0 || self.page_sizes[i].height_mm == 0 {
                return false;
            }
            i = i + 1;
        }
        !self.supports_duplex || has_source(&self.sources, ScanSource::AdfDuplex)
    }

    /// Makes the record consistent, changing as little as that takes.
    pub fn completed(self) -> (caps: Capabilities)
        ensures
            caps@ == self@.completed(),
            caps.is_consistent(),
            self.is_consistent() ==> caps@ == self@,
    {
        proof {
            self@.lemma_completed_is_consistent();
            if self.is_consistent() {
                self@.lemma_completed_keeps_consistent();
            }
        }
        let mut sources = if self.sources.len() == 0 {
            default_source_list()
        } else {
            self.sources
        };
        if self.supports_duplex && !has_source(&sources, ScanSource::AdfDuplex) {
            sources.push(ScanSource::AdfDuplex);
        }
        let dpis = positive_dpis(&self.dpis);
        let sizes = positive_page_sizes(&self.page_sizes);
        Capabilities {
            sources,
            dpis: if dpis.len() == 0 {
                default_dpi_list()
            } else {
                dpis
            },
            color_modes: if self.color_modes.len() == 0 {
                default_color_mode_list()
            } else {
                self.color_modes
            },
            page_sizes: if sizes.len() == 0 {
                default_page_size_list()
            } else {
                sizes
            },
            supports_duplex: self.supports_duplex,
        }
    }
}

impl Clone for Capabilities {
    fn clone(&self) -> (r: Self)
        ensures
            r@ == self@,
    {
        let r = Capabilities {
            sources: self.sources.clone(),
            dpis: self.dpis.clone(),
            color_modes: self.color_modes.clone(),
            page_sizes: self.page_sizes.clone(),
            supports_duplex: self.supports_duplex,
        };
        assert(r.sources@ =~= self.sources@);
        assert(r.dpis@ =~= self.dpis@);
        assert(r.color_modes@ =~= self.color_modes@);
        assert(r.page_sizes@ =~= self.page_sizes@);
        r
    }
}

#[derive(Debug, Clone, Copy, PartialEq, Eq, Structural)]
pub struct ScanConfig {
    pub source: ScanSource,
    pub duplex: bool,
    pub dpi: u32,
    pub color_mode: ColorMode,
    pub page_size: PageSize,
    pub area: Option<ScanArea>,
    /// Device-specific range.
    pub brightness: Option<i32>,
    /// Device-specific range.
    pub contrast: Option<i32>,
    /// Stop after this many pages even if the feeder holds more.
    pub max_pages: Option<u32>,
}

#[derive(Debug)]
pub enum PapyrError {
    NotFound(String),
    InvalidConfig(String),
    Backend(String),
    NotImplemented,
    Other(String),
}

pub enum PapyrErrorView {
    NotFound(Seq<char>),
    InvalidConfig(Seq<char>),
    Backend(Seq<char>),
    NotImplemented,
    Other(Seq<char>),
}

impl View for PapyrError {
    type V = PapyrErrorView;

    open spec fn view(&self) -> PapyrErrorView {
        match self {
            PapyrError::NotFound(s) => PapyrErrorView::NotFound(s@),
            PapyrError::InvalidConfig(s) => PapyrErrorView::InvalidConfig(s@),
            PapyrError::Backend(s) => PapyrErrorView::Backend(s@),
            PapyrError::NotImplemented => PapyrErrorView::NotImplemented,
            PapyrError::Other(s) => PapyrErrorView::Other(s@),
        }
    }
}

impl PapyrErrorView {
    /// The text shown for an error: a fixed prefix for its kind, then its
    /// detail.
    pub open spec fn message(self) -> Seq<char> {
        match self {
            PapyrErrorView::NotFound(s) => "scanner not found: "@ + s,
            PapyrErrorView::InvalidConfig(s) => "invalid config: "@ + s,
            PapyrErrorView::Backend(s) => "backend error: "@ + s,
            PapyrErrorView::NotImplemented => "not implemented"@,
            PapyrErrorView::Other(s) => "other: "@ + s,
        }
    }
}

impl PapyrError {
    pub fn message(&self) -> (text: String)
        ensures
            text@ == self@.message(),
    {
        match self {
            PapyrError::NotFound(s) => String::from_str("scanner not found: ").concat(s.as_str()),
            PapyrError::InvalidConfig(s) => String::from_str("invalid config: ").concat(
                s.as_str(),
            ),
            PapyrError::Backend(s) => String::from_str("backend error: ").concat(s.as_str()),
            PapyrError::NotImplemented => String::from_str("not implemented"),
            PapyrError::Other(s) => String::from_str("other: ").concat(s.as_str()),
        }
    }
}

impl Clone for PapyrError {
    fn clone(&self) -> (r: Self)
        ensures
            r@ == self@,
    {
        match self {
            PapyrError::NotFound(s) => PapyrError::NotFound(s.clone()),
            PapyrError::InvalidConfig(s) => PapyrError::InvalidConfig(s.clone()),
            PapyrError::Backend(s) => PapyrError::Backend(s.clone()),
            PapyrError::NotImplemented => PapyrError::NotImplemented,
            PapyrError::Other(s) => PapyrError::Other(s.clone()),
        }
    }
}

/// The first way in which a request goes against a capability record, as the
/// text that names it; `None` where the record allows the request.
pub open spec fn config_fault(config: ScanConfig, caps: CapabilitiesView) -> Option<Seq<char>> {
    if !caps.sources.contains(config.source) {
        Some("source not supported"@)
    } else if config.duplex && !caps.supports_duplex {
        Some("duplex not supported"@)
    } else if !caps.dpis.contains(config.dpi) {
        Some("resolution not supported"@)
    } else if !caps.color_modes.contains(config.color_mode) {
        Some("color mode not supported"@)
    } else if !caps.page_sizes.contains(config.page_size) {
        Some("page size not supported"@)
    } else if config.area matches Some(area) && !area.within(config.page_size) {
        Some("scan area outside the page"@)
    } else {
        None
    }
}

/// The record allows the request: it lists the source, the resolution, the
/// color mode and the page size, supports duplex where duplex is asked for,
/// and the scan area, where one is given, lies inside the page.
pub open spec fn config_allowed(config: ScanConfig, caps: CapabilitiesView) -> bool {
    &&& caps.sources.contains(config.source)
    &&& config.duplex ==> caps.supports_duplex
    &&& caps.dpis.contains(config.dpi)
    &&& caps.color_modes.contains(config.color_mode)
    &&& caps.page_sizes.contains(config.page_size)
    &&& config.area matches Some(area) ==> area.within(config.page_size)
}

impl ScanConfig {
    /// Holds the request against a capability record.
    pub fn validate(&self, caps: &Capabilities) -> (checked: Result<(), PapyrError>)
        ensures
            checked is Ok <==> config_allowed(*self, caps@),
            match checked {
                Ok(_) => config_fault(*self, caps@) is None,
                Err(e) => config_fault(*self, caps@) matches Some(text) && e@
                    == PapyrErrorView::InvalidConfig(text),
            },
    {
        let fault = if !has_source(&caps.sources, self.source) {
            Some("source not supported")
        } else if self.duplex && !caps.supports_duplex {
            Some("duplex not supported")
        } else if !has_dpi(&caps.dpis, self.dpi) {
            Some("resolution not supported")
        } else if !has_color_mode(&caps.color_modes, self.color_mode) {
            Some("color mode not supported")
        } else if !has_page_size(&caps.page_sizes, self.page_size) {
            Some("page size not supported")
        } else {
            match &self.area {
                Some(area) => {
                    if !area.fits(self.page_size) {
                        Some("scan area outside the page")
                    } else {
                        None
                    }
                },
                None => None,
            }
        };
        match fault {
            Some(text) => Err(PapyrError::InvalidConfig(String::from_str(text))),
            None => Ok(()),
        }
    }
}

/// A scan in progress: a stream of events that is pulled one by one.
pub trait ScanSession: Send {
    /// The next event, `Ok(None)` at the end of the stream, or the error
    /// that ends it.
    fn next_event(&mut self) -> Result<Option<ScanEvent>, PapyrError>;
}

/// One way of reaching scanners.
pub trait BackendProvider: Send + Sync {
    /// A short name for diagnostics.
    fn name(&self) -> &'static str;

    fn kind(&self) -> Backend;

    /// The scanners that can be reached now; none where discovery fails.
    fn enumerate(&self) -> Vec<ScannerInfo>;

    /// What the device can do; `NotFound` where the backend does not own
    /// the identifier.
    fn capabilities(&self, device_id: &str) -> Result<Capabilities, PapyrError>;

    /// Starts a scan on the device.
    fn start_scan(&self, device_id: &str, cfg: ScanConfig) -> Result<
        Box<dyn ScanSession>,
        PapyrError,
    >;
}

} // verus!
