//! TWAIN: data source numbers as identifiers, pixel types, names of data
//! sources, the capability record that stands for every source, and the
//! states of a session with the data source manager.

use crate::models::{
    in_namespace, Backend, Capabilities, CapabilitiesView, ColorMode, PageSize, PapyrError,
    PapyrErrorView, ScanSource,
};
use crate::text::{
    append_decimal, decimal, lemma_parse_decimal, occurs_at, parse_u32, parsed_u32, strip_prefix,
};
use vstd::prelude::*;
use vstd::string::StringSliceAdditionalSpecFns;
use vstd::utf8::encode_utf8;

verus! {

/// The identifier of the data source with a number: `twain_` and the
/// number.
pub open spec fn device_id_of(source: u32) -> Seq<char> {
    "twain_"@ + decimal(source as nat)
}

/// The number of the data source behind an identifier: what stands behind
/// `twain_`, read as a number.
pub open spec fn source_of(device_id: Seq<char>) -> Option<u32> {
    if occurs_at(device_id, "twain_"@, 0) {
        parsed_u32(device_id.skip("twain_"@.len() as int))
    } else {
        None
    }
}

pub fn device_id(source: u32) -> (id: String)
    ensures
        id@ == device_id_of(source),
{
    let mut id = String::from_str("twain_");
    append_decimal(&mut id, source as u64);
    id
}

/// Reads the number of the data source from an identifier.
pub fn source_id(device_id: &str) -> (source: Result<u32, PapyrError>)
    ensures
        match source {
            Ok(n) => source_of(device_id@) == Some(n),
            Err(e) => source_of(device_id@) is None && e@ == PapyrErrorView::Backend(
                "Invalid TWAIN device ID"@,
            ),
        },
{
    let number = match strip_prefix(device_id, "twain_") {
        Some(rest) => parse_u32(rest.as_str()),
        None => None,
    };
    match number {
        Some(n) => Ok(n),
        None => Err(PapyrError::Backend(String::from_str("Invalid TWAIN device ID"))),
    }
}

/// What the device with an identifier can do: the record that stands for
/// every data source where the identifier names one, and `NotFound` of the
/// identifier where it names none, so that the query passes on to the next
/// backend.
pub open spec fn capabilities_of(device_id: Seq<char>) -> Result<CapabilitiesView, PapyrErrorView> {
    if source_of(device_id) is Some {
        Ok(source_capabilities())
    } else {
        Err(PapyrErrorView::NotFound(device_id))
    }
}

pub fn capabilities_for(device_id: &str) -> (reply: Result<Capabilities, PapyrError>)
    ensures
        match reply {
            Ok(caps) => capabilities_of(device_id@) == Ok::<CapabilitiesView, PapyrErrorView>(
                caps@,
            ) && caps.is_consistent(),
            Err(e) => capabilities_of(device_id@) == Err::<CapabilitiesView, PapyrErrorView>(e@),
        },
{
    match source_id(device_id) {
        Ok(_) => Ok(capabilities()),
        Err(_) => Err(PapyrError::NotFound(String::from_str(device_id))),
    }
}

/// Every data source is found again behind its identifier.
pub proof fn lemma_source_round_trip(source: u32)
    ensures
        source_of(device_id_of(source)) == Some(source),
{
    let prefix = "twain_"@;
    let id = device_id_of(source);
    lemma_parse_decimal(source as nat);
    assert(id.subrange(0, prefix.len() as int) =~= prefix);
    assert(id.skip(prefix.len() as int) =~= decimal(source as nat));
}

/// The pixel type under which a color mode is asked for.
pub open spec fn pixel_type_of(mode: ColorMode) -> u16 {
    match mode {
        ColorMode::Bw => 0,
        ColorMode::Gray => 1,
        ColorMode::Color => 2,
    }
}

pub fn pixel_type(mode: ColorMode) -> (code: u16)
    ensures
        code == pixel_type_of(mode),
{
    match mode {
        ColorMode::Bw => 0,
        ColorMode::Gray => 1,
        ColorMode::Color => 2,
    }
}

/// The name of a data source: its product name, behind the manufacturer
/// and a space where the manufacturer is known.
pub open spec fn source_name_of(manufacturer: Seq<char>, product: Seq<char>) -> Seq<char> {
    if manufacturer.len() == 0 {
        product
    } else {
        manufacturer + seq![' '] + product
    }
}

pub fn source_name(manufacturer: &str, product: &str) -> (name: String)
    ensures
        name@ == source_name_of(manufacturer@, product@),
{
    if manufacturer.unicode_len() == 0 {
        String::from_str(product)
    } else {
        proof {
            reveal_strlit(" ");
            assert(" "@ =~= seq![' ']);
        }
        let mut name = String::from_str(manufacturer);
        name.append(" ");
        name.append(product);
        name
    }
}

/// What is taken to hold of every data source: flatbed and feeder with
/// both sides, six resolutions, all color modes, Letter, A4 and A5.
pub open spec fn source_capabilities() -> CapabilitiesView {
    CapabilitiesView {
        sources: seq![ScanSource::Flatbed, ScanSource::Adf, ScanSource::AdfDuplex],
        dpis: seq![75u32, 150u32, 200u32, 300u32, 600u32, 1200u32],
        color_modes: seq![ColorMode::Bw, ColorMode::Gray, ColorMode::Color],
        page_sizes: seq![PageSize::spec_letter(), PageSize::spec_a4(), PageSize::spec_a5()],
        supports_duplex: true,
    }
}

pub fn capabilities() -> (caps: Capabilities)
    ensures
        caps@ == source_capabilities(),
        caps.is_consistent(),
{
    let mut sources: Vec<ScanSource> = Vec::new();
    sources.push(ScanSource::Flatbed);
    sources.push(ScanSource::Adf);
    sources.push(ScanSource::AdfDuplex);
    let mut dpis: Vec<u32> = Vec::new();
    dpis.push(75);
    dpis.push(150);
    dpis.push(200);
    dpis.push(300);
    dpis.push(600);
    dpis.push(1200);
    let mut color_modes: Vec<ColorMode> = Vec::new();
    color_modes.push(ColorMode::Bw);
    color_modes.push(ColorMode::Gray);
    color_modes.push(ColorMode::Color);
    let mut page_sizes: Vec<PageSize> = Vec::new();
    page_sizes.push(PageSize::letter());
    page_sizes.push(PageSize::a4());
    page_sizes.push(PageSize::a5());
    let caps = Capabilities { sources, dpis, color_modes, page_sizes, supports_duplex: true };
    proof {
        assert(caps.sources@ =~= source_capabilities().sources);
        assert(caps.dpis@ =~= source_capabilities().dpis);
        assert(caps.color_modes@ =~= source_capabilities().color_modes);
        assert(caps.page_sizes@ =~= source_capabilities().page_sizes);
        assert(caps.sources@[2] == ScanSource::AdfDuplex);
        assert(caps.page_sizes@[0].is_positive());
        assert(caps.page_sizes@[1].is_positive());
        assert(caps.page_sizes@[2].is_positive());
    }
    caps
}

/// Every identifier of a data source lies in the namespace of TWAIN.
pub proof fn lemma_device_id_in_namespace(source: u32)
    ensures
        in_namespace(device_id_of(source), Backend::Twain),
{
    let id = device_id_of(source);
    assert(id.subrange(0, "twain_"@.len() as int) =~= "twain_"@);
}

/// How far the session with the data source manager has come.
#[derive(Debug, Clone, Copy, PartialEq, Eq, Structural)]
pub enum TwainState {
    /// Nothing is loaded.
    State1,
    /// The manager is loaded.
    State2,
    /// The manager is open.
    State3,
    /// A data source is open.
    State4,
    /// The data source is enabled, and images can be transferred.
    State5,
}

/// What can be asked of the manager or of a data source.
#[derive(Debug, Clone, Copy, PartialEq, Eq, Structural)]
pub enum TwainStep {
    LoadManager,
    OpenManager,
    OpenSource,
    SetCapability,
    EnableSource,
    Transfer,
    DisableSource,
    CloseSource,
    CloseManager,
}

impl TwainState {
    pub open spec fn spec_rank(&self) -> u8 {
        match self {
            TwainState::State1 => 1,
            TwainState::State2 => 2,
            TwainState::State3 => 3,
            TwainState::State4 => 4,
            TwainState::State5 => 5,
        }
    }

    /// The number of the state.
    #[verifier::when_used_as_spec(spec_rank)]
    pub fn rank(&self) -> (rank: u8)
        ensures
            rank == self.spec_rank(),
    {
        match self {
            TwainState::State1 => 1,
            TwainState::State2 => 2,
            TwainState::State3 => 3,
            TwainState::State4 => 4,
            TwainState::State5 => 5,
        }
    }

    /// The step may be taken in this state: the manager is loaded from
    /// nothing and opened once loaded; a source is opened with the manager
    /// open, configured when open, and enabled when open and not enabled;
    /// images are transferred and the source is disabled when it is
    /// enabled; and closing needs what it closes to be open.
    pub open spec fn allows(&self, step: TwainStep) -> bool {
        match step {
            TwainStep::LoadManager => self.spec_rank() == 1,
            TwainStep::OpenManager => self.spec_rank() == 2,
            TwainStep::OpenSource => self.spec_rank() >= 3,
            TwainStep::SetCapability => self.spec_rank() >= 4,
            TwainStep::EnableSource => self.spec_rank() == 4,
            TwainStep::Transfer => self.spec_rank() >= 5,
            TwainStep::DisableSource => self.spec_rank() >= 5,
            TwainStep::CloseSource => self.spec_rank() >= 4,
            TwainStep::CloseManager => self.spec_rank() >= 3,
        }
    }

    /// The state after a step that went well.
    pub open spec fn after(&self, step: TwainStep) -> TwainState {
        match step {
            TwainStep::LoadManager => TwainState::State2,
            TwainStep::OpenManager => TwainState::State3,
            TwainStep::OpenSource => TwainState::State4,
            TwainStep::SetCapability => *self,
            TwainStep::EnableSource => TwainState::State5,
            TwainStep::Transfer => *self,
            TwainStep::DisableSource => TwainState::State4,
            TwainStep::CloseSource => TwainState::State3,
            TwainStep::CloseManager => TwainState::State2,
        }
    }

    /// Tells whether a step may be taken in this state.
    pub fn may(&self, step: TwainStep) -> (allowed: bool)
        ensures
            allowed == self.allows(step),
    {
        let rank = self.rank();
        match step {
            TwainStep::LoadManager => rank == 1,
            TwainStep::OpenManager => rank == 2,
            TwainStep::OpenSource => rank >= 3,
            TwainStep::SetCapability => rank >= 4,
            TwainStep::EnableSource => rank == 4,
            TwainStep::Transfer => rank >= 5,
            TwainStep::DisableSource => rank >= 5,
            TwainStep::CloseSource => rank >= 4,
            TwainStep::CloseManager => rank >= 3,
        }
    }

    /// The state after a step that went well.
    pub fn then(&self, step: TwainStep) -> (next: TwainState)
        ensures
            next == self.after(step),
    {
        match step {
            TwainStep::LoadManager => TwainState::State2,
            TwainStep::OpenManager => TwainState::State3,
            TwainStep::OpenSource => TwainState::State4,
            TwainStep::SetCapability => *self,
            TwainStep::EnableSource => TwainState::State5,
            TwainStep::Transfer => *self,
            TwainStep::DisableSource => TwainState::State4,
            TwainStep::CloseSource => TwainState::State3,
            TwainStep::CloseManager => TwainState::State2,
        }
    }
}

/// A step that goes well leads to a state in which what it opened can be
/// closed again, and what it closed can be opened again.
pub proof fn lemma_steps_can_be_undone(state: TwainState)
    ensures
        state.allows(TwainStep::OpenManager) ==> state.after(TwainStep::OpenManager).allows(
            TwainStep::CloseManager,
        ),
        state.allows(TwainStep::OpenSource) ==> state.after(TwainStep::OpenSource).allows(
            TwainStep::CloseSource,
        ),
        state.allows(TwainStep::EnableSource) ==> state.after(TwainStep::EnableSource).allows(
            TwainStep::DisableSource,
        ) && state.after(TwainStep::EnableSource).allows(TwainStep::Transfer),
        state.allows(TwainStep::DisableSource) ==> state.after(TwainStep::DisableSource).allows(
            TwainStep::EnableSource,
        ),
        state.allows(TwainStep::CloseSource) ==> state.after(TwainStep::CloseSource).allows(
            TwainStep::OpenSource,
        ),
        state.allows(TwainStep::CloseManager) ==> state.after(TwainStep::CloseManager).allows(
            TwainStep::OpenManager,
        ),
{
}

/// The error for a step that may not be taken.
pub open spec fn refusal_of(step: TwainStep) -> PapyrErrorView {
    PapyrErrorView::Backend(
        match step {
            TwainStep::LoadManager => "DSM already loaded"@,
            TwainStep::OpenManager => "DSM not loaded"@,
            TwainStep::OpenSource => "DSM not opened"@,
            TwainStep::SetCapability => "Source not opened"@,
            TwainStep::EnableSource => "Source not opened"@,
            TwainStep::Transfer => "Source not enabled"@,
            TwainStep::DisableSource => "Source not enabled"@,
            TwainStep::CloseSource => "Source not opened"@,
            TwainStep::CloseManager => "DSM not opened"@,
        },
    )
}

pub fn refusal(step: TwainStep) -> (e: PapyrError)
    ensures
        e@ == refusal_of(step),
{
    let text = match step {
        TwainStep::LoadManager => "DSM already loaded",
        TwainStep::OpenManager => "DSM not loaded",
        TwainStep::OpenSource => "DSM not opened",
        TwainStep::SetCapability => "Source not opened",
        TwainStep::EnableSource => "Source not opened",
        TwainStep::Transfer => "Source not enabled",
        TwainStep::DisableSource => "Source not enabled",
        TwainStep::CloseSource => "Source not opened",
        TwainStep::CloseManager => "DSM not opened",
    };
    PapyrError::Backend(String::from_str(text))
}

/// A text as a field of an identity: 34 bytes, of which the first hold the
/// bytes of the text, as far as 33 bytes hold them, and the others are 0.
pub open spec fn identity_field_of(bytes: Seq<u8>) -> Seq<u8> {
    Seq::new(
        34,
        |i: int|
            if i < bytes.len() && i < 33 {
                bytes[i]
            } else {
                0u8
            },
    )
}

pub fn identity_field(text: &str) -> (field: Vec<u8>)
    ensures
        field@ == identity_field_of(encode_utf8(text@)),
{
    let bytes = text.as_bytes();
    let mut field: Vec<u8> = Vec::new();
    let mut i: usize = 0;
    while i < 34
        invariant
            i <= 34,
            bytes@ == encode_utf8(text@),
            field@ == identity_field_of(bytes@).take(i as int),
        decreases 34 - i,
    {
        if i < bytes.len() && i < 33 {
            field.push(bytes[i]);
        } else {
            field.push(0);
        }
        assert(field@ =~= identity_field_of(bytes@).take(i + 1));
        i = i + 1;
    }
    assert(identity_field_of(bytes@).take(34) =~= identity_field_of(bytes@));
    field
}

} // verus!
