//! Image Capture: identifiers made from device names, what a device is
//! taken to be able to do, what the help text of `scanimage` says of one,
//! and, in `discovery`, what the tools of the system list.

pub mod discovery;

use crate::models::{
    default_color_mode_list, default_color_modes, in_namespace, Backend, Capabilities,
    CapabilitiesView, ColorMode, PageSize, ScanSource,
};
use crate::text::{
    append_decimal, contains_text, decimal, decimal_string, lines_of, lowercase, occurs_at,
    occurs_in, replace_char, replaced, split_lines, strip_prefix, texts, to_lowercase,
    without_prefix,
};
use vstd::prelude::*;

verus! {

/// The identifier of the device whose name in lower case is given: `ica_`,
/// then that name with an underscore for every space.
pub open spec fn device_id_of_lower(lower: Seq<char>) -> Seq<char> {
    "ica_"@ + replaced(lower, ' ', '_')
}

/// The identifier of the device with a name: made from the name in lower
/// case.
pub open spec fn device_id_of(name: Seq<char>) -> Seq<char> {
    device_id_of_lower(lowercase(name))
}

pub fn device_id_from_lower(lower: &str) -> (id: String)
    ensures
        id@ == device_id_of_lower(lower@),
{
    let mut id = String::from_str("ica_");
    let tail = replace_char(lower, ' ', '_');
    id.append(tail.as_str());
    id
}

pub fn device_id(name: &str) -> (id: String)
    ensures
        id@ == device_id_of(name@),
{
    let lower = to_lowercase(name);
    device_id_from_lower(lower.as_str())
}

/// The identifier of a network scanner that was found by its host:
/// `ica_escl_`, then the host with an underscore for every dot and space.
pub open spec fn network_device_id_of(host: Seq<char>) -> Seq<char> {
    "ica_escl_"@ + replaced(replaced(host, '.', '_'), ' ', '_')
}

pub fn network_device_id(host: &str) -> (id: String)
    ensures
        id@ == network_device_id_of(host@),
{
    let mut id = String::from_str("ica_escl_");
    let dotless = replace_char(host, '.', '_');
    let tail = replace_char(dotless.as_str(), ' ', '_');
    id.append(tail.as_str());
    id
}

/// The host behind the identifier of a network scanner: what stands
/// behind `ica_escl_`, with a dot for every underscore. `None` for an
/// identifier of another kind.
pub open spec fn network_host_of(device_id: Seq<char>) -> Option<Seq<char>> {
    if occurs_at(device_id, "ica_escl_"@, 0) {
        Some(replaced(device_id.skip("ica_escl_"@.len() as int), '_', '.'))
    } else {
        None
    }
}

/// The address at which scan jobs are created on the network scanner
/// behind an identifier.
pub open spec fn network_job_url_of(device_id: Seq<char>) -> Option<Seq<char>> {
    match network_host_of(device_id) {
        Some(host) => Some("http://"@ + host + ":80/eSCL/ScanJobs"@),
        None => None,
    }
}

pub fn network_job_url(device_id: &str) -> (url: Option<String>)
    ensures
        match url {
            Some(u) => network_job_url_of(device_id@) == Some(u@),
            None => network_job_url_of(device_id@) is None,
        },
{
    match strip_prefix(device_id, "ica_escl_") {
        Some(rest) => {
            let host = replace_char(rest.as_str(), '_', '.');
            let mut url = String::from_str("http://");
            url.append(host.as_str());
            url.append(":80/eSCL/ScanJobs");
            Some(url)
        },
        None => None,
    }
}

/// The identifier of the device at a place of a listing that gives no
/// names to go by: `ica_`, the label of the listing, an underscore and the
/// place.
pub open spec fn numbered_device_id_of(label: Seq<char>, place: u64) -> Seq<char> {
    "ica_"@ + label + seq!['_'] + decimal(place as nat)
}

pub fn numbered_device_id(label: &str, place: u64) -> (id: String)
    ensures
        id@ == numbered_device_id_of(label@, place),
{
    proof {
        reveal_strlit("_");
        assert("_"@ =~= seq!['_']);
    }
    let mut id = String::from_str("ica_");
    id.append(label);
    id.append("_");
    append_decimal(&mut id, place);
    id
}

/// The identifier of a device that a tool of the system knows under a
/// name: `ica_` and that name.
pub open spec fn tool_device_id_of(name: Seq<char>) -> Seq<char> {
    "ica_"@ + name
}

pub fn tool_device_id(name: &str) -> (id: String)
    ensures
        id@ == tool_device_id_of(name@),
{
    let mut id = String::from_str("ica_");
    id.append(name);
    id
}

/// The name under which the tools of the system know a device: its
/// identifier without `ica_` at the start.
pub fn tool_device_name(device_id: &str) -> (name: String)
    ensures
        name@ == without_prefix(device_id@, "ica_"@),
{
    match strip_prefix(device_id, "ica_") {
        Some(rest) => rest,
        None => String::from_str(device_id),
    }
}

/// A device is known to the tools under the name that its identifier was
/// made from, and every identifier lies in the namespace of Image Capture.
pub proof fn lemma_identifiers(name: Seq<char>, label: Seq<char>, place: u64)
    ensures
        without_prefix(tool_device_id_of(name), "ica_"@) == name,
        in_namespace(tool_device_id_of(name), Backend::Ica),
        in_namespace(device_id_of(name), Backend::Ica),
        in_namespace(network_device_id_of(name), Backend::Ica),
        in_namespace(numbered_device_id_of(label, place), Backend::Ica),
{
    reveal_strlit("ica_");
    reveal_strlit("ica_escl_");
    let prefix = "ica_"@;
    assert(tool_device_id_of(name).subrange(0, 4) =~= prefix);
    assert(tool_device_id_of(name).skip(4) =~= name);
    assert(device_id_of(name).subrange(0, 4) =~= prefix);
    assert(network_device_id_of(name).subrange(0, 4) =~= prefix);
    assert(numbered_device_id_of(label, place).subrange(0, 4) =~= prefix);
}

/// The identifier looks like that of a multifunction device with a feeder.
pub open spec fn looks_like_feeder_device(device_id: Seq<char>) -> bool {
    ||| occurs_in(device_id, "hp"@)
    ||| occurs_in(device_id, "HP"@)
    ||| occurs_in(device_id, "LaserJet"@)
    ||| occurs_in(device_id, "MFP"@)
}

pub open spec fn ica_page_sizes() -> Seq<PageSize> {
    seq![PageSize::spec_letter(), PageSize::spec_a4(), PageSize::spec_a5()]
}

/// What a device is taken to be able to do by its identifier alone: a
/// flatbed with three resolutions, and for a device that looks like one
/// with a feeder also the feeder, two higher resolutions, and duplex.
pub open spec fn guessed_capabilities(device_id: Seq<char>) -> CapabilitiesView {
    if looks_like_feeder_device(device_id) {
        CapabilitiesView {
            sources: seq![ScanSource::Flatbed, ScanSource::Adf],
            dpis: seq![75u32, 150u32, 300u32, 600u32, 1200u32],
            color_modes: default_color_modes(),
            page_sizes: ica_page_sizes(),
            supports_duplex: true,
        }
    } else {
        CapabilitiesView {
            sources: seq![ScanSource::Flatbed],
            dpis: seq![75u32, 150u32, 300u32],
            color_modes: default_color_modes(),
            page_sizes: ica_page_sizes(),
            supports_duplex: false,
        }
    }
}

/// `list`, or `fallback` where `list` is empty.
pub open spec fn or_else<A>(list: Seq<A>, fallback: Seq<A>) -> Seq<A> {
    if list.len() == 0 {
        fallback
    } else {
        list
    }
}

/// The capability record of a device: what its identifier lets guess,
/// overruled list by list and in the duplex flag by what a probe of the
/// device found, and made consistent.
pub open spec fn device_capabilities(
    device_id: Seq<char>,
    probed: Option<CapabilitiesView>,
) -> CapabilitiesView {
    let guess = guessed_capabilities(device_id);
    match probed {
        None => guess.completed(),
        Some(found) => (CapabilitiesView {
            sources: or_else(found.sources, guess.sources),
            dpis: or_else(found.dpis, guess.dpis),
            color_modes: or_else(found.color_modes, guess.color_modes),
            page_sizes: guess.page_sizes,
            supports_duplex: found.supports_duplex,
        }).completed(),
    }
}

pub open spec fn probed_view(probed: Option<Capabilities>) -> Option<CapabilitiesView> {
    match probed {
        Some(caps) => Some(caps@),
        None => None,
    }
}

fn ica_page_size_list() -> (list: Vec<PageSize>)
    ensures
        list@ == ica_page_sizes(),
{
    let mut list: Vec<PageSize> = Vec::new();
    list.push(PageSize::letter());
    list.push(PageSize::a4());
    list.push(PageSize::a5());
    assert(list@ =~= ica_page_sizes());
    list
}

fn guess_capabilities(device_id: &str) -> (caps: Capabilities)
    ensures
        caps@ == guessed_capabilities(device_id@),
{
    let feeder = contains_text(device_id, "hp") || contains_text(device_id, "HP") || contains_text(
        device_id,
        "LaserJet",
    ) || contains_text(device_id, "MFP");
    let mut sources: Vec<ScanSource> = Vec::new();
    sources.push(ScanSource::Flatbed);
    let mut dpis: Vec<u32> = Vec::new();
    dpis.push(75);
    dpis.push(150);
    dpis.push(300);
    if feeder {
        sources.push(ScanSource::Adf);
        dpis.push(600);
        dpis.push(1200);
    }
    let caps = Capabilities {
        sources,
        dpis,
        color_modes: default_color_mode_list(),
        page_sizes: ica_page_size_list(),
        supports_duplex: feeder,
    };
    proof {
        assert(caps.sources@ =~= guessed_capabilities(device_id@).sources);
        assert(caps.dpis@ =~= guessed_capabilities(device_id@).dpis);
    }
    caps
}

/// The capability record of a device. `probed` is what a probe of the
/// device found, if one could be made.
pub fn capabilities_for(device_id: &str, probed: Option<Capabilities>) -> (caps: Capabilities)
    ensures
        caps@ == device_capabilities(device_id@, probed_view(probed)),
        caps.is_consistent(),
{
    let guess = guess_capabilities(device_id);
    match probed {
        None => guess.completed(),
        Some(found) => {
            let merged = Capabilities {
                sources: if found.sources.len() == 0 {
                    guess.sources
                } else {
                    found.sources
                },
                dpis: if found.dpis.len() == 0 {
                    guess.dpis
                } else {
                    found.dpis
                },
                color_modes: if found.color_modes.len() == 0 {
                    guess.color_modes
                } else {
                    found.color_modes
                },
                page_sizes: guess.page_sizes,
                supports_duplex: found.supports_duplex,
            };
            merged.completed()
        },
    }
}

/// The resolutions that a help text is searched for.
pub open spec fn known_dpis() -> Seq<u32> {
    seq![75u32, 150u32, 300u32, 600u32, 1200u32]
}

/// The sources that one line of the help text names: those of a line on
/// the source option.
pub open spec fn line_sources(line: Seq<char>) -> Seq<ScanSource> {
    if occurs_in(line, "--source"@) {
        (if occurs_in(line, "Flatbed"@) {
            seq![ScanSource::Flatbed]
        } else {
            Seq::empty()
        }) + (if occurs_in(line, "ADF"@) || occurs_in(line, "Automatic Document Feeder"@) {
            seq![ScanSource::Adf]
        } else {
            Seq::empty()
        }) + (if occurs_in(line, "Duplex"@) {
            seq![ScanSource::AdfDuplex]
        } else {
            Seq::empty()
        })
    } else {
        Seq::empty()
    }
}

/// The line is on the source option and names duplex.
pub open spec fn line_duplex(line: Seq<char>) -> bool {
    occurs_in(line, "--source"@) && occurs_in(line, "Duplex"@)
}

/// Those of the first `n` known resolutions whose number stands in the
/// line.
pub open spec fn dpis_in(line: Seq<char>, n: int) -> Seq<u32>
    decreases n,
{
    if n <= 0 {
        Seq::empty()
    } else if occurs_in(line, decimal(known_dpis()[n - 1] as nat)) {
        dpis_in(line, n - 1).push(known_dpis()[n - 1])
    } else {
        dpis_in(line, n - 1)
    }
}

/// The resolutions that one line of the help text names: the known ones
/// whose number stands in a line on the resolution option.
pub open spec fn line_dpis(line: Seq<char>) -> Seq<u32> {
    if occurs_in(line, "--resolution"@) {
        dpis_in(line, 5)
    } else {
        Seq::empty()
    }
}

/// The color modes that one line of the help text names: those of a line
/// on the mode option.
pub open spec fn line_modes(line: Seq<char>) -> Seq<ColorMode> {
    if occurs_in(line, "--mode"@) {
        (if occurs_in(line, "Color"@) {
            seq![ColorMode::Color]
        } else {
            Seq::empty()
        }) + (if occurs_in(line, "Gray"@) {
            seq![ColorMode::Gray]
        } else {
            Seq::empty()
        }) + (if occurs_in(line, "Black"@) || occurs_in(line, "Lineart"@) {
            seq![ColorMode::Bw]
        } else {
            Seq::empty()
        })
    } else {
        Seq::empty()
    }
}

/// What the lines of a help text say of a device, line after line. Lists
/// stay empty where no line names anything, and no page size is named.
pub open spec fn help_capabilities(lines: Seq<Seq<char>>) -> CapabilitiesView
    decreases lines.len(),
{
    if lines.len() == 0 {
        CapabilitiesView {
            sources: Seq::empty(),
            dpis: Seq::empty(),
            color_modes: Seq::empty(),
            page_sizes: Seq::empty(),
            supports_duplex: false,
        }
    } else {
        let front = help_capabilities(lines.drop_last());
        let line = lines.last();
        CapabilitiesView {
            sources: front.sources + line_sources(line),
            dpis: front.dpis + line_dpis(line),
            color_modes: front.color_modes + line_modes(line),
            page_sizes: Seq::empty(),
            supports_duplex: front.supports_duplex || line_duplex(line),
        }
    }
}

fn known_dpi_list() -> (list: Vec<u32>)
    ensures
        list@ == known_dpis(),
{
    let mut list: Vec<u32> = Vec::new();
    list.push(75);
    list.push(150);
    list.push(300);
    list.push(600);
    list.push(1200);
    assert(list@ =~= known_dpis());
    list
}

fn read_help_line(caps: &mut Capabilities, line: &str)
    ensures
        final(caps).sources@ == old(caps).sources@ + line_sources(line@),
        final(caps).dpis@ == old(caps).dpis@ + line_dpis(line@),
        final(caps).color_modes@ == old(caps).color_modes@ + line_modes(line@),
        final(caps).page_sizes@ == old(caps).page_sizes@,
        final(caps).supports_duplex == (old(caps).supports_duplex || line_duplex(line@)),
{
    let ghost sources = caps.sources@;
    let ghost dpis = caps.dpis@;
    let ghost modes = caps.color_modes@;
    if contains_text(line, "--source") {
        if contains_text(line, "Flatbed") {
            caps.sources.push(ScanSource::Flatbed);
        }
        if contains_text(line, "ADF") || contains_text(line, "Automatic Document Feeder") {
            caps.sources.push(ScanSource::Adf);
        }
        if contains_text(line, "Duplex") {
            caps.sources.push(ScanSource::AdfDuplex);
            caps.supports_duplex = true;
        }
    }
    assert(caps.sources@ =~= sources + line_sources(line@));
    if contains_text(line, "--resolution") {
        let known = known_dpi_list();
        let mut i: usize = 0;
        assert(dpis + dpis_in(line@, 0) =~= dpis);
        while i < known.len()
            invariant
                i <= known@.len(),
                known@ == known_dpis(),
                caps.dpis@ == dpis + dpis_in(line@, i as int),
                caps.sources@ == sources + line_sources(line@),
                caps.color_modes@ == modes,
                caps.page_sizes@ == old(caps).page_sizes@,
                caps.supports_duplex == (old(caps).supports_duplex || line_duplex(line@)),
            decreases known@.len() - i,
        {
            let number = decimal_string(known[i] as u64);
            if contains_text(line, number.as_str()) {
                caps.dpis.push(known[i]);
                assert(caps.dpis@ =~= dpis + dpis_in(line@, i + 1));
            }
            i = i + 1;
        }
    } else {
        assert(caps.dpis@ =~= dpis + line_dpis(line@));
    }
    if contains_text(line, "--mode") {
        if contains_text(line, "Color") {
            caps.color_modes.push(ColorMode::Color);
        }
        if contains_text(line, "Gray") {
            caps.color_modes.push(ColorMode::Gray);
        }
        if contains_text(line, "Black") || contains_text(line, "Lineart") {
            caps.color_modes.push(ColorMode::Bw);
        }
    }
    assert(caps.color_modes@ =~= modes + line_modes(line@));
}

/// Reads what the help text of `scanimage` says of a device.
pub fn capabilities_from_help(help: &str) -> (caps: Capabilities)
    ensures
        caps@ == help_capabilities(lines_of(help@)),
{
    let lines = split_lines(help);
    let mut caps = Capabilities {
        sources: Vec::new(),
        dpis: Vec::new(),
        color_modes: Vec::new(),
        page_sizes: Vec::new(),
        supports_duplex: false,
    };
    let mut i: usize = 0;
    assert(texts(lines@).take(0) =~= Seq::<Seq<char>>::empty());
    while i < lines.len()
        invariant
            i <= lines@.len(),
            caps@ == help_capabilities(texts(lines@).take(i as int)),
        decreases lines@.len() - i,
    {
        proof {
            let next = texts(lines@).take(i + 1);
            assert(next.drop_last() =~= texts(lines@).take(i as int));
            assert(next.last() == lines@[i as int]@);
        }
        read_help_line(&mut caps, lines[i].as_str());
        i = i + 1;
    }
    assert(texts(lines@).take(i as int) =~= texts(lines@));
    caps
}

} // verus!
