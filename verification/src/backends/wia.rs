//! WIA: the identifiers and names of enumerated devices, and the capability
//! record that stands for every device.

use crate::models::{
    in_namespace, Backend, Capabilities, CapabilitiesView, ColorMode, PageSize, PapyrError,
    PapyrErrorView, ScanSource,
};
use crate::text::{
    append_decimal, decimal, lemma_parse_decimal, occurs_at, parse_u32, parsed_u32, strip_prefix,
};
use vstd::prelude::*;

verus! {

/// The identifier of the device at a place of the enumeration:
/// `wia_device_` and the place, counted from 0.
pub open spec fn device_id_of(place: u32) -> Seq<char> {
    "wia_device_"@ + decimal(place as nat)
}

/// The name of the device at a place of the enumeration: `WIA Scanner ` and
/// the place, counted from 1.
pub open spec fn device_name_of(place: u32) -> Seq<char> {
    "WIA Scanner "@ + decimal(place as nat + 1)
}

pub fn device_id(place: u32) -> (id: String)
    ensures
        id@ == device_id_of(place),
{
    let mut id = String::from_str("wia_device_");
    append_decimal(&mut id, place as u64);
    id
}

pub fn device_name(place: u32) -> (name: String)
    ensures
        name@ == device_name_of(place),
{
    let mut name = String::from_str("WIA Scanner ");
    append_decimal(&mut name, place as u64 + 1);
    name
}

/// What is taken to hold of every device: flatbed and feeder with both
/// sides, five resolutions, all color modes, Letter and A4.
pub open spec fn device_capabilities() -> CapabilitiesView {
    CapabilitiesView {
        sources: seq![ScanSource::Flatbed, ScanSource::Adf, ScanSource::AdfDuplex],
        dpis: seq![75u32, 150u32, 300u32, 600u32, 1200u32],
        color_modes: seq![ColorMode::Color, ColorMode::Gray, ColorMode::Bw],
        page_sizes: seq![PageSize::spec_letter(), PageSize::spec_a4()],
        supports_duplex: true,
    }
}

pub fn capabilities() -> (caps: Capabilities)
    ensures
        caps@ == device_capabilities(),
        caps.is_consistent(),
{
    let mut sources: Vec<ScanSource> = Vec::new();
    sources.push(ScanSource::Flatbed);
    sources.push(ScanSource::Adf);
    sources.push(ScanSource::AdfDuplex);
    let mut dpis: Vec<u32> = Vec::new();
    dpis.push(75);
    dpis.push(150);
    dpis.push(300);
    dpis.push(600);
    dpis.push(1200);
    let mut color_modes: Vec<ColorMode> = Vec::new();
    color_modes.push(ColorMode::Color);
    color_modes.push(ColorMode::Gray);
    color_modes.push(ColorMode::Bw);
    let mut page_sizes: Vec<PageSize> = Vec::new();
    page_sizes.push(PageSize::letter());
    page_sizes.push(PageSize::a4());
    let caps = Capabilities { sources, dpis, color_modes, page_sizes, supports_duplex: true };
    proof {
        assert(caps.sources@ =~= device_capabilities().sources);
        assert(caps.dpis@ =~= device_capabilities().dpis);
        assert(caps.color_modes@ =~= device_capabilities().color_modes);
        assert(caps.page_sizes@ =~= device_capabilities().page_sizes);
        assert(caps.sources@[2] == ScanSource::AdfDuplex);
        assert(caps.page_sizes@[0].is_positive());
        assert(caps.page_sizes@[1].is_positive());
    }
    caps
}

/// The place in the enumeration behind an identifier: what stands behind
/// `wia_device_`, read as a number.
pub open spec fn place_of(device_id: Seq<char>) -> Option<u32> {
    if occurs_at(device_id, "wia_device_"@, 0) {
        parsed_u32(device_id.skip("wia_device_"@.len() as int))
    } else {
        None
    }
}

/// Reads the place in the enumeration from an identifier.
pub fn device_place(device_id: &str) -> (place: Option<u32>)
    ensures
        place == place_of(device_id@),
{
    match strip_prefix(device_id, "wia_device_") {
        Some(rest) => parse_u32(rest.as_str()),
        None => None,
    }
}

/// Every place is found again behind its identifier.
pub proof fn lemma_place_round_trip(place: u32)
    ensures
        place_of(device_id_of(place)) == Some(place),
{
    let prefix = "wia_device_"@;
    let id = device_id_of(place);
    lemma_parse_decimal(place as nat);
    assert(id.subrange(0, prefix.len() as int) =~= prefix);
    assert(id.skip(prefix.len() as int) =~= decimal(place as nat));
}

/// What the device with an identifier can do: the record that stands for
/// every device where the identifier names a place of the enumeration, and
/// `NotFound` of the identifier where it names none, so that the query
/// passes on to the next backend.
pub open spec fn capabilities_of(device_id: Seq<char>) -> Result<CapabilitiesView, PapyrErrorView> {
    if place_of(device_id) is Some {
        Ok(device_capabilities())
    } else {
        Err(PapyrErrorView::NotFound(device_id))
    }
}

pub fn capabilities_for(device_id: &str) -> (reply: Result<Capabilities, PapyrError>)
    ensures
        match reply {
            Ok(caps) => capabilities_of(device_id@) == Ok::<CapabilitiesView, PapyrErrorView>(
                caps@,
            ) && caps.is_consistent(),
            Err(e) => capabilities_of(device_id@) == Err::<CapabilitiesView, PapyrErrorView>(e@),
        },
{
    match device_place(device_id) {
        Some(_) => Ok(capabilities()),
        None => Err(PapyrError::NotFound(String::from_str(device_id))),
    }
}

/// Every identifier of a device lies in the namespace of WIA.
pub proof fn lemma_device_id_in_namespace(place: u32)
    ensures
        in_namespace(device_id_of(place), Backend::Wia),
{
    reveal_strlit("wia_device_");
    reveal_strlit("wia_");
    let id = device_id_of(place);
    assert(id.subrange(0, "wia_"@.len() as int) =~= "wia_"@);
}

} // verus!
