//! What crosses the foreign boundary, as plain values: the numbers that
//! stand for the library's enums, scan requests and capability records in
//! their foreign form, the table of live sessions, and the host that a
//! foreign caller drives by the numbers of its sessions.

use crate::events::{is_stream_prefix, StreamGuard};
use crate::models::{
    Backend, BackendProvider, Capabilities, CapabilitiesView, ColorMode, PageSize, PapyrError,
    PapyrErrorView, ScanConfig, ScanEvent, ScanEventView, ScanSession, ScanSource, ScannerInfo,
};
use crate::registry::{
    answered_by, info_key, listed_by, merged, no_owner, owner_of, reply_view, reply_views, routed,
    scan_routed, BackendRegistry,
};
use crate::seqs::keys_differ;
use std::collections::HashMap;
use vstd::prelude::*;

verus! {

/// The number that stands for a backend tag: 0 to 3 for WIA, SANE, ICA and
/// eSCL, and 99 for every other one.
pub open spec fn backend_code(backend: Backend) -> i32 {
    match backend {
        Backend::Wia => 0,
        Backend::Sane => 1,
        Backend::Ica => 2,
        Backend::Escl => 3,
        Backend::Twain => 99,
        Backend::Unknown => 99,
    }
}

pub open spec fn scan_source_code(source: ScanSource) -> i32 {
    match source {
        ScanSource::Flatbed => 0,
        ScanSource::Adf => 1,
        ScanSource::AdfDuplex => 2,
    }
}

/// The source that a number stands for; a number that stands for none is
/// read as the flatbed.
pub open spec fn scan_source_of(code: i32) -> ScanSource {
    if code == 1 {
        ScanSource::Adf
    } else if code == 2 {
        ScanSource::AdfDuplex
    } else {
        ScanSource::Flatbed
    }
}

pub open spec fn color_mode_code(mode: ColorMode) -> i32 {
    match mode {
        ColorMode::Color => 0,
        ColorMode::Gray => 1,
        ColorMode::Bw => 2,
    }
}

/// The color mode that a number stands for; a number that stands for none
/// is read as color.
pub open spec fn color_mode_of_code(code: i32) -> ColorMode {
    if code == 1 {
        ColorMode::Gray
    } else if code == 2 {
        ColorMode::Bw
    } else {
        ColorMode::Color
    }
}

pub open spec fn scan_event_code(event: ScanEventView) -> i32 {
    match event {
        ScanEventView::PageStarted(_) => 0,
        ScanEventView::PageData(_) => 1,
        ScanEventView::PageComplete(_) => 2,
        ScanEventView::JobComplete => 3,
    }
}

/// Sources and color modes are read back from their numbers.
pub proof fn lemma_codes_round_trip(source: ScanSource, mode: ColorMode)
    ensures
        scan_source_of(scan_source_code(source)) == source,
        color_mode_of_code(color_mode_code(mode)) == mode,
{
}

pub fn backend_to_int(backend: Backend) -> (code: i32)
    ensures
        code == backend_code(backend),
{
    match backend {
        Backend::Wia => 0,
        Backend::Sane => 1,
        Backend::Ica => 2,
        Backend::Escl => 3,
        Backend::Twain => 99,
        Backend::Unknown => 99,
    }
}

pub fn scan_source_to_int(source: ScanSource) -> (code: i32)
    ensures
        code == scan_source_code(source),
{
    match source {
        ScanSource::Flatbed => 0,
        ScanSource::Adf => 1,
        ScanSource::AdfDuplex => 2,
    }
}

pub fn int_to_scan_source(val: i32) -> (source: ScanSource)
    ensures
        source == scan_source_of(val),
{
    if val == 1 {
        ScanSource::Adf
    } else if val == 2 {
        ScanSource::AdfDuplex
    } else {
        ScanSource::Flatbed
    }
}

pub fn color_mode_to_int(mode: ColorMode) -> (code: i32)
    ensures
        code == color_mode_code(mode),
{
    match mode {
        ColorMode::Color => 0,
        ColorMode::Gray => 1,
        ColorMode::Bw => 2,
    }
}

pub fn int_to_color_mode(val: i32) -> (mode: ColorMode)
    ensures
        mode == color_mode_of_code(val),
{
    if val == 1 {
        ColorMode::Gray
    } else if val == 2 {
        ColorMode::Bw
    } else {
        ColorMode::Color
    }
}

pub fn scan_event_to_int(event: &ScanEvent) -> (code: i32)
    ensures
        code == scan_event_code(event@),
{
    match event {
        ScanEvent::PageStarted(_) => 0,
        ScanEvent::PageData(_) => 1,
        ScanEvent::PageComplete(_) => 2,
        ScanEvent::JobComplete => 3,
    }
}

/// A scan request as a foreign host writes it: every field a number.
#[derive(Debug, Clone, Copy, PartialEq, Eq, Structural)]
pub struct RawScanConfig {
    pub source: i32,
    /// Zero for no, anything else for yes.
    pub duplex: i32,
    pub dpi: i32,
    pub color_mode: i32,
    pub page_width_mm: i32,
    pub page_height_mm: i32,
}

/// The request that a foreign one stands for: the whole page, without
/// adjustments and without page cap. A number that stands for no source or
/// color mode is read as the flatbed or as color; a resolution or page
/// dimension keeps its bits, so a negative one becomes a large one.
pub open spec fn scan_config_of(raw: RawScanConfig) -> ScanConfig {
    ScanConfig {
        source: scan_source_of(raw.source),
        duplex: raw.duplex != 0,
        dpi: raw.dpi as u32,
        color_mode: color_mode_of_code(raw.color_mode),
        page_size: PageSize {
            width_mm: raw.page_width_mm as u32,
            height_mm: raw.page_height_mm as u32,
        },
        area: None,
        brightness: None,
        contrast: None,
        max_pages: None,
    }
}

/// Reads a foreign scan request.
pub fn decode_scan_config(raw: &RawScanConfig) -> (config: ScanConfig)
    ensures
        config == scan_config_of(*raw),
{
    ScanConfig {
        source: int_to_scan_source(raw.source),
        duplex: raw.duplex != 0,
        dpi: #[verifier::truncate]
        (raw.dpi as u32),
        color_mode: int_to_color_mode(raw.color_mode),
        page_size: PageSize {
            width_mm: #[verifier::truncate]
            (raw.page_width_mm as u32),
            height_mm: #[verifier::truncate]
            (raw.page_height_mm as u32),
        },
        area: None,
        brightness: None,
        contrast: None,
        max_pages: None,
    }
}

/// A capability record as a foreign host reads it: lists of numbers. Page
/// sizes do not cross the boundary.
#[derive(Debug)]
pub struct RawCapabilities {
    pub sources: Vec<i32>,
    pub dpis: Vec<i32>,
    pub color_modes: Vec<i32>,
    /// 1 for yes, 0 for no.
    pub supports_duplex: i32,
}

/// A resolution as a number of the foreign form: it keeps its bits, so one
/// above the largest such number becomes a negative one.
pub open spec fn dpi_code(dpi: u32) -> i32 {
    dpi as i32
}

/// Writes a capability record in its foreign form: every list item by item,
/// in order.
pub fn encode_capabilities(caps: &Capabilities) -> (raw: RawCapabilities)
    ensures
        raw.sources@ == caps.sources@.map_values(|s: ScanSource| scan_source_code(s)),
        raw.dpis@ == caps.dpis@.map_values(|d: u32| dpi_code(d)),
        raw.color_modes@ == caps.color_modes@.map_values(|m: ColorMode| color_mode_code(m)),
        raw.supports_duplex == if caps.supports_duplex {
            1i32
        } else {
            0i32
        },
{
    let mut sources: Vec<i32> = Vec::new();
    let mut i: usize = 0;
    while i < caps.sources.len()
        invariant
            i <= caps.sources@.len(),
            sources@ == caps.sources@.take(i as int).map_values(|s: ScanSource| scan_source_code(s)),
        decreases caps.sources@.len() - i,
    {
        sources.push(scan_source_to_int(caps.sources[i]));
        assert(sources@ =~= caps.sources@.take(i + 1).map_values(
            |s: ScanSource| scan_source_code(s),
        ));
        i = i + 1;
    }
    assert(caps.sources@.take(i as int) =~= caps.sources@);
    let mut dpis: Vec<i32> = Vec::new();
    let mut j: usize = 0;
    while j < caps.dpis.len()
        invariant
            j <= caps.dpis@.len(),
            dpis@ == caps.dpis@.take(j as int).map_values(|d: u32| dpi_code(d)),
        decreases caps.dpis@.len() - j,
    {
        let code: i32 = #[verifier::truncate]
        (caps.dpis[j] as i32);
        dpis.push(code);
        assert(dpis@ =~= caps.dpis@.take(j + 1).map_values(|d: u32| dpi_code(d)));
        j = j + 1;
    }
    assert(caps.dpis@.take(j as int) =~= caps.dpis@);
    let mut color_modes: Vec<i32> = Vec::new();
    let mut k: usize = 0;
    while k < caps.color_modes.len()
        invariant
            k <= caps.color_modes@.len(),
            color_modes@ == caps.color_modes@.take(k as int).map_values(
                |m: ColorMode| color_mode_code(m),
            ),
        decreases caps.color_modes@.len() - k,
    {
        color_modes.push(color_mode_to_int(caps.color_modes[k]));
        assert(color_modes@ =~= caps.color_modes@.take(k + 1).map_values(
            |m: ColorMode| color_mode_code(m),
        ));
        k = k + 1;
    }
    assert(caps.color_modes@.take(k as int) =~= caps.color_modes@);
    RawCapabilities {
        sources,
        dpis,
        color_modes,
        supports_duplex: if caps.supports_duplex {
            1
        } else {
            0
        },
    }
}

/// The number that tells a foreign host that a scan could not be started.
pub const START_FAILED: i32 = -1;

/// The live sessions of a process, each under the number that the host
/// holds for it and behind a guard on its stream. Numbers are given out in
/// rising order from 1; 0 is never given out.
pub struct SessionTable<S> {
    next_id: u32,
    entries: HashMap<u32, StreamGuard<S>>,
}

pub struct SessionTableView<S> {
    /// The number that the next session gets.
    pub next_id: u32,
    /// The live sessions, each under its number.
    pub entries: Map<u32, StreamGuard<S>>,
}

impl<S> SessionTableView<S> {
    /// The table of a process that has started no scan.
    pub open spec fn empty() -> Self {
        SessionTableView { next_id: 1, entries: Map::empty() }
    }

    /// A session is live under this number.
    pub open spec fn has(self, id: i32) -> bool {
        id > 0 && self.entries.contains_key(id as u32)
    }

    /// The guard of the session that is live under a number.
    pub open spec fn guard(self, id: i32) -> StreamGuard<S> {
        self.entries[id as u32]
    }

    /// The events that the session under a number has given so far.
    pub open spec fn events(self, id: i32) -> Seq<ScanEventView> {
        self.guard(id)@.events
    }

    /// How many sessions are live.
    pub open spec fn count(self) -> nat {
        self.entries.len()
    }

    /// The numbers of the live sessions lie from 1 up to the next number,
    /// which is itself at least 1. What each live session has given so far
    /// is the beginning of a stream that has not ended.
    pub open spec fn is_valid(self) -> bool {
        &&& self.next_id >= 1
        &&& self.next_id <= i32::MAX + 1
        &&& self.entries.dom().finite()
        &&& forall|k: u32| #[trigger]
            self.entries.contains_key(k) ==> 1 <= k < self.next_id && self.entries[k]@.is_valid()
                && !self.entries[k]@.ended
    }

    /// The table without the session under a number.
    pub open spec fn without(self, id: i32) -> Self {
        SessionTableView { next_id: self.next_id, entries: self.entries.remove(id as u32) }
    }

    /// Event well-formedness at the table: what a live session has given so
    /// far is the beginning of a stream with open pages.
    pub proof fn lemma_live_streams_well_formed(self, id: i32)
        requires
            self.is_valid(),
            self.has(id),
        ensures
            is_stream_prefix(self.events(id), false),
            !self.guard(id)@.ended,
    {
        assert(self.entries.contains_key(id as u32));
    }
}

impl<S> View for SessionTable<S> {
    type V = SessionTableView<S>;

    closed spec fn view(&self) -> SessionTableView<S> {
        SessionTableView { next_id: self.next_id, entries: self.entries@ }
    }
}

/// What a pull on a session means for the host: the event to hand over, if
/// there is one, and whether the session stays live. The end of the stream
/// and an error give no event; they and `JobComplete` end the session.
pub open spec fn pull_result(pulled: Result<Option<ScanEvent>, PapyrError>) -> (
    Option<ScanEvent>,
    bool,
) {
    match pulled {
        Ok(Some(ScanEvent::JobComplete)) => (Some(ScanEvent::JobComplete), false),
        Ok(Some(event)) => (Some(event), true),
        Ok(None) => (None, false),
        Err(_) => (None, false),
    }
}

/// Reads what a pull on a session gave.
pub fn settle_pull(pulled: Result<Option<ScanEvent>, PapyrError>) -> (settled: (
    Option<ScanEvent>,
    bool,
))
    ensures
        settled == pull_result(pulled),
{
    match pulled {
        Ok(Some(ScanEvent::JobComplete)) => (Some(ScanEvent::JobComplete), false),
        Ok(Some(event)) => (Some(event), true),
        Ok(None) => (None, false),
        Err(_) => (None, false),
    }
}

impl<S> SessionTable<S> {
    #[verifier::type_invariant]
    spec fn valid(&self) -> bool {
        self@.is_valid()
    }

    /// A table without sessions; the first session gets the number 1.
    pub fn new() -> (table: Self)
        ensures
            table@ == SessionTableView::<S>::empty(),
            table@.is_valid(),
    {
        SessionTable { next_id: 1, entries: HashMap::new() }
    }

    /// How many sessions are live.
    pub fn len(&self) -> (count: usize)
        ensures
            count == self@.count(),
            self@.is_valid(),
    {
        proof {
            use_type_invariant(self);
        }
        self.entries.len()
    }

    /// Takes the entries out, to be changed and put back; none are held
    /// meanwhile.
    fn take_entries(&mut self) -> (entries: HashMap<u32, StreamGuard<S>>)
        ensures
            entries@ == old(self)@.entries,
            final(self)@.next_id == old(self)@.next_id,
            final(self)@.entries == Map::<u32, StreamGuard<S>>::empty(),
    {
        proof {
            use_type_invariant(&*self);
        }
        let mut entries: HashMap<u32, StreamGuard<S>> = HashMap::new();
        core::mem::swap(&mut self.entries, &mut entries);
        entries
    }

    /// Takes a session in, behind a guard that has seen no event, and gives
    /// the number under which it is live: the next number, which is
    /// positive. Where the positive numbers are used up, the session is
    /// dropped and `START_FAILED` comes back.
    pub fn insert(&mut self, session: S) -> (id: i32)
        ensures
            final(self)@.is_valid(),
            old(self)@.next_id <= i32::MAX ==> {
                &&& id == old(self)@.next_id
                &&& id > 0
                &&& final(self)@.next_id == old(self)@.next_id + 1
                &&& final(self)@.entries == old(self)@.entries.insert(
                    id as u32,
                    final(self)@.guard(id),
                )
                &&& final(self)@.count() == old(self)@.count() + 1
                &&& final(self)@.has(id)
                &&& !old(self)@.has(id)
                &&& final(self)@.guard(id).session() == session
                &&& final(self)@.events(id) == Seq::<ScanEventView>::empty()
            },
            old(self)@.next_id > i32::MAX ==> id == START_FAILED && final(self)@ == old(self)@,
            forall|other: i32| old(self)@.has(other) ==> final(self)@.has(other),
            forall|other: i32|
                old(self)@.has(other) ==> #[trigger] final(self)@.guard(other) == old(self)@.guard(
                    other,
                ),
    {
        proof {
            use_type_invariant(&*self);
        }
        if self.next_id > 0x7fff_ffff {
            return START_FAILED;
        }
        let id = self.next_id;
        let guard = StreamGuard::new(session);
        let mut entries = self.take_entries();
        entries.insert(id, guard);
        self.next_id = id + 1;
        self.entries = entries;
        proof {
            assert(!old(self)@.entries.contains_key(id));
        }
        id as i32
    }

    /// Tells whether a session is live under a number.
    pub fn contains(&self, id: i32) -> (live: bool)
        ensures
            live == self@.has(id),
    {
        if id <= 0 {
            return false;
        }
        let key = id as u32;
        self.entries.contains_key(&key)
    }

    /// Takes the guard of a session out of the table.
    fn take(&mut self, id: i32) -> (guard: Option<StreamGuard<S>>)
        ensures
            final(self)@.is_valid(),
            old(self)@.is_valid(),
            match guard {
                Some(g) => old(self)@.has(id) && g == old(self)@.guard(id) && final(self)@
                    == old(self)@.without(id) && final(self)@.count() + 1 == old(self)@.count(),
                None => !old(self)@.has(id) && final(self)@ == old(self)@,
            },
    {
        proof {
            use_type_invariant(&*self);
        }
        if id <= 0 {
            return None;
        }
        let key = id as u32;
        let mut entries = self.take_entries();
        let guard = entries.remove(&key);
        self.entries = entries;
        proof {
            if guard is None {
                assert(self@.entries =~= old(self)@.entries);
            }
        }
        guard
    }

    /// Ends the session with a number and hands it out; nothing happens
    /// where no session is live under it.
    pub fn remove(&mut self, id: i32) -> (session: Option<S>)
        ensures
            final(self)@.is_valid(),
            !final(self)@.has(id),
            final(self)@.next_id == old(self)@.next_id,
            forall|other: i32| other != id ==> final(self)@.has(other) == old(self)@.has(other),
            forall|other: i32|
                other != id && old(self)@.has(other) ==> #[trigger] final(self)@.guard(other)
                    == old(self)@.guard(other),
            match session {
                Some(s) => old(self)@.has(id) && s == old(self)@.guard(id).session() && final(self)@ == old(self)@.without(id),
                None => !old(self)@.has(id) && final(self)@ == old(self)@,
            },
    {
        match self.take(id) {
            Some(guard) => Some(guard.into_session()),
            None => None,
        }
    }

    /// Ends all sessions and starts numbering from 1 again. A second call
    /// finds nothing to do.
    pub fn clear(&mut self)
        ensures
            final(self)@ == SessionTableView::<S>::empty(),
            final(self)@.is_valid(),
    {
        proof {
            use_type_invariant(&*self);
        }
        self.entries = HashMap::new();
        self.next_id = 1;
    }
}

impl<S: ScanSession> SessionTable<S> {
    /// Puts the guard of a session back under its number.
    fn put_back(&mut self, id: i32, guard: StreamGuard<S>)
        requires
            1 <= id < old(self)@.next_id,
            !old(self)@.has(id),
            guard@.is_valid(),
            !guard@.ended,
        ensures
            final(self)@.next_id == old(self)@.next_id,
            final(self)@.entries == old(self)@.entries.insert(id as u32, guard),
            final(self)@.count() == old(self)@.count() + 1,
            final(self)@.is_valid(),
    {
        proof {
            use_type_invariant(&*self);
        }
        let key = id as u32;
        let mut entries = self.take_entries();
        entries.insert(key, guard);
        self.entries = entries;
    }

    /// Pulls the next event from the session with a number, through its
    /// guard. No event comes where no session is live under the number, at
    /// the end of its stream, and where the pull fails. A session ends
    /// with `JobComplete`, with the end of its stream and with an error;
    /// any other event leaves every session live under its number. Every
    /// event that comes may come where the stream of its session stands.
    pub fn next_scan_event(&mut self, id: i32) -> (event: Option<ScanEvent>)
        ensures
            final(self)@.is_valid(),
            final(self)@.next_id == old(self)@.next_id,
            forall|other: i32| other != id ==> final(self)@.has(other) == old(self)@.has(other),
            forall|other: i32|
                other != id && old(self)@.has(other) ==> #[trigger] final(self)@.events(other)
                    == old(self)@.events(other),
            !old(self)@.has(id) ==> event is None && final(self)@ == old(self)@,
            old(self)@.has(id) ==> {
                if event is None || event == Some(ScanEvent::JobComplete) {
                    !final(self)@.has(id) && final(self)@.count() + 1 == old(self)@.count()
                } else {
                    final(self)@.has(id) && final(self)@.count() == old(self)@.count()
                        && final(self)@.events(id) == old(self)@.events(id).push(event->0@)
                }
            },
            event matches Some(e) ==> old(self)@.has(id) && is_stream_prefix(
                old(self)@.events(id).push(e@),
                false,
            ),
    {
        match self.take(id) {
            None => None,
            Some(taken) => {
                let mut guard = taken;
                let (event, live) = settle_pull(guard.pull());
                if live {
                    self.put_back(id, guard);
                }
                event
            },
        }
    }
}

/// The number that the host gives for what a backend started: the next
/// session number for a session, if a positive number is left, else
/// `START_FAILED`.
pub open spec fn session_number(
    started: Result<Box<dyn ScanSession>, PapyrError>,
    next_id: u32,
) -> i32 {
    if started is Ok && next_id <= i32::MAX {
        next_id as i32
    } else {
        START_FAILED
    }
}

/// What the host hands over for the reply to a capability query: the
/// record, or nothing for an error.
pub open spec fn capability_answer(reply: Result<CapabilitiesView, PapyrErrorView>) -> Option<
    CapabilitiesView,
> {
    match reply {
        Ok(caps) => Some(caps),
        Err(_) => None,
    }
}

pub open spec fn capability_view(caps: Option<Capabilities>) -> Option<CapabilitiesView> {
    match caps {
        Some(c) => Some(c@),
        None => None,
    }
}

/// What a process holds for its host between setting up and tearing down:
/// the registry of its backends, once it is set up, and its live sessions.
pub struct ScanHost<P: BackendProvider> {
    registry: Option<BackendRegistry<P>>,
    sessions: SessionTable<Box<dyn ScanSession>>,
}

impl<P: BackendProvider> ScanHost<P> {
    /// The host is set up.
    pub closed spec fn is_set_up(&self) -> bool {
        self.registry is Some
    }

    /// The backends that the host was set up with.
    pub closed spec fn backends(&self) -> Seq<P> {
        match self.registry {
            Some(registry) => registry@,
            None => Seq::empty(),
        }
    }

    /// How many sessions are live.
    pub closed spec fn live_sessions(&self) -> nat {
        self.sessions@.count()
    }

    /// The number that the next session gets.
    pub closed spec fn next_session_id(&self) -> u32 {
        self.sessions@.next_id
    }

    /// A session is live under this number.
    pub closed spec fn has_session(&self, id: i32) -> bool {
        self.sessions@.has(id)
    }

    /// The events that the session under a number has given so far.
    pub closed spec fn session_events(&self, id: i32) -> Seq<ScanEventView> {
        self.sessions@.events(id)
    }

    /// The table of sessions is in order: numbers rise below the next
    /// number, and every live session stands behind a guard that has not
    /// ended its stream. Every host is so at all times.
    pub closed spec fn is_valid(&self) -> bool {
        self.sessions@.is_valid()
    }

    /// Event well-formedness at the host, whatever the backend: what a
    /// live session has given so far is the beginning of a stream with
    /// open pages.
    pub proof fn lemma_live_streams_well_formed(&self, id: i32)
        requires
            self.is_valid(),
            self.has_session(id),
        ensures
            is_stream_prefix(self.session_events(id), false),
    {
        self.sessions@.lemma_live_streams_well_formed(id);
    }

    /// A host that is not set up.
    pub fn new() -> (host: Self)
        ensures
            host.is_valid(),
            !host.is_set_up(),
            host.backends().len() == 0,
            host.live_sessions() == 0,
            forall|id: i32| !host.has_session(id),
            host.next_session_id() == 1,
    {
        ScanHost { registry: None, sessions: SessionTable::new() }
    }

    #[verifier::when_used_as_spec(is_set_up)]
    pub fn is_initialized(&self) -> (set_up: bool)
        ensures
            set_up == self.is_set_up(),
    {
        self.registry.is_some()
    }

    /// Sets the host up with a registry and gives 0. A host that is set up
    /// stays as it is, and the registry that was handed in is dropped.
    pub fn init(&mut self, registry: BackendRegistry<P>) -> (status: i32)
        ensures
            status == 0,
            final(self).is_valid(),
            final(self).is_set_up(),
            final(self).backends() == if old(self).is_set_up() {
                old(self).backends()
            } else {
                registry@
            },
            final(self).live_sessions() == old(self).live_sessions(),
            forall|id: i32| final(self).has_session(id) == old(self).has_session(id),
            forall|id: i32| final(self).session_events(id) == old(self).session_events(id),
            final(self).next_session_id() == old(self).next_session_id(),
    {
        proof {
            use_type_invariant(&self.sessions);
        }
        if self.registry.is_none() {
            self.registry = Some(registry);
        }
        0
    }

    /// Lists the scanners of all backends: what the backends list, merged
    /// in their order, no identifier twice. `None` where the host is not
    /// set up.
    pub fn list_scanners(&self) -> (list: Option<Vec<ScannerInfo>>)
        ensures
            list is Some <==> self.is_set_up(),
            list matches Some(l) ==> keys_differ(l@, info_key()) && exists|
                listings: Seq<Vec<ScannerInfo>>,
            |
                #[trigger] listed_by(self.backends(), listings) && listings.len()
                    == self.backends().len() && l@ == merged(listings),
            self.backends().len() == 0 ==> (list matches Some(l) ==> l@.len() == 0),
    {
        match &self.registry {
            Some(registry) => {
                let listed = registry.list_devices();
                proof {
                    let l = listed->Ok_0;
                    let listings = choose|listings: Seq<Vec<ScannerInfo>>|
                        #[trigger] listed_by(registry@, listings) && listings.len()
                            == registry@.len() && l@ == merged(listings);
                    assert(listed_by(self.backends(), listings));
                }
                match listed {
                    Ok(list) => Some(list),
                    Err(_) => None,
                }
            },
            None => None,
        }
    }

    /// What a device can do: the record of the first backend, in the order
    /// of the registry, that answers with something other than `NotFound`,
    /// made consistent. `None` where the host is not set up, where that
    /// answer is an error, and where every backend answers `NotFound`.
    pub fn get_capabilities(&self, device_id: &str) -> (caps: Option<Capabilities>)
        ensures
            !self.is_set_up() ==> caps is None,
            self.backends().len() == 0 ==> caps is None,
            caps matches Some(c) ==> c.is_consistent(),
            self.is_set_up() ==> exists|answers: Seq<Result<Capabilities, PapyrError>>|
                #[trigger] answered_by(self.backends(), device_id, answers) && capability_answer(
                    routed(reply_views(answers), device_id@),
                ) == capability_view(caps),
    {
        match &self.registry {
            Some(registry) => {
                let reply = registry.capabilities(device_id);
                proof {
                    let answers = choose|answers: Seq<Result<Capabilities, PapyrError>>|
                        #[trigger] answered_by(registry@, device_id, answers) && routed(
                            reply_views(answers),
                            device_id@,
                        ) == reply_view(reply);
                    assert(answered_by(self.backends(), device_id, answers));
                }
                match reply {
                    Ok(caps) => Some(caps),
                    Err(_) => None,
                }
            },
            None => None,
        }
    }

    /// Starts a scan on the backend that owns the device, with the request
    /// decoded, and gives the number of its session, which is positive and
    /// under which the session is live from then on. `START_FAILED` where
    /// the host is not set up, no backend lists the identifier, the owner
    /// does not start the scan, or the numbers are used up; then no session
    /// is stored.
    pub fn start_scan(&mut self, device_id: &str, config: &RawScanConfig) -> (id: i32)
        ensures
            final(self).is_valid(),
            id > 0 || id == START_FAILED,
            !old(self).is_set_up() ==> id == START_FAILED,
            old(self).backends().len() == 0 ==> id == START_FAILED,
            old(self).is_set_up() ==> exists|
                listings: Seq<Vec<ScannerInfo>>,
                started: Result<Box<dyn ScanSession>, PapyrError>,
            |
                #[trigger] scan_routed(
                    old(self).backends(),
                    device_id,
                    scan_config_of(*config),
                    listings,
                    started,
                ) && id == session_number(started, old(self).next_session_id()),
            id > 0 ==> id == old(self).next_session_id() && final(self).next_session_id() == id + 1
                && final(self).has_session(id) && !old(self).has_session(id)
                && final(self).live_sessions() == old(self).live_sessions() + 1,
            id == START_FAILED ==> final(self).next_session_id() == old(self).next_session_id()
                && final(self).live_sessions() == old(self).live_sessions(),
            id == START_FAILED ==> forall|other: i32|
                final(self).has_session(other) == old(self).has_session(other),
            id > 0 ==> final(self).session_events(id) == Seq::<ScanEventView>::empty(),
            forall|other: i32| old(self).has_session(other) ==> final(self).has_session(other),
            forall|other: i32|
                old(self).has_session(other) ==> #[trigger] final(self).session_events(other)
                    == old(self).session_events(other),
            final(self).is_set_up() == old(self).is_set_up(),
            final(self).backends() == old(self).backends(),
    {
        proof {
            use_type_invariant(&self.sessions);
        }
        let decoded = decode_scan_config(config);
        let ghost providers = self.backends();
        let started = match &self.registry {
            Some(registry) => {
                assert(registry@ == providers);
                registry.start_scan(device_id, decoded)
            },
            None => {
                return START_FAILED;
            },
        };
        let ghost given = started;
        let ghost listings = choose|listings: Seq<Vec<ScannerInfo>>| #[trigger]
            scan_routed(providers, device_id, decoded, listings, given);
        let id = match started {
            Ok(session) => self.sessions.insert(session),
            Err(_) => START_FAILED,
        };
        proof {
            assert(scan_routed(
                old(self).backends(),
                device_id,
                scan_config_of(*config),
                listings,
                given,
            ));
            assert(id == session_number(given, old(self).next_session_id()));
            assert(providers == old(self).backends());
        }
        id
    }

    /// Pulls the next event from a session; `None` where no session is
    /// live under the number, the stream of the session has ended, or the
    /// pull fails. A session that has given `JobComplete` or no event is
    /// live no more; every other session stays as live as it was.
    pub fn next_scan_event(&mut self, session_id: i32) -> (event: Option<ScanEvent>)
        ensures
            final(self).is_valid(),
            !old(self).has_session(session_id) ==> event is None && final(self).live_sessions()
                == old(self).live_sessions(),
            old(self).has_session(session_id) ==> final(self).has_session(session_id) == (event
                is Some && event != Some(ScanEvent::JobComplete)),
            forall|other: i32|
                other != session_id ==> final(self).has_session(other) == old(self).has_session(
                    other,
                ),
            forall|other: i32|
                other != session_id && old(self).has_session(other) ==> #[trigger] final(self).session_events(other) == old(self).session_events(other),
            final(self).has_session(session_id) ==> event is Some && final(self).session_events(
                session_id,
            ) == old(self).session_events(session_id).push(event->0@),
            event matches Some(e) ==> old(self).has_session(session_id) && is_stream_prefix(
                old(self).session_events(session_id).push(e@),
                false,
            ),
            final(self).next_session_id() == old(self).next_session_id(),
            final(self).is_set_up() == old(self).is_set_up(),
            final(self).backends() == old(self).backends(),
    {
        self.sessions.next_scan_event(session_id)
    }

    /// Tears the host down: the registry and every session go, and the
    /// numbering of sessions starts again. On a host that is not set up
    /// nothing changes, so tearing down twice is tearing down once.
    pub fn cleanup(&mut self)
        ensures
            final(self).is_valid(),
            !final(self).is_set_up(),
            final(self).live_sessions() == 0,
            forall|id: i32| !final(self).has_session(id),
            final(self).next_session_id() == 1,
            final(self).backends().len() == 0,
    {
        self.registry = None;
        self.sessions.clear();
    }
}

} // verus!
