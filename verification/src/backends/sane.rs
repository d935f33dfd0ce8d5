//! SANE: how device names become identifiers and back, how devices are
//! shown, what its options say of a device, and how its frames and status
//! numbers are read.

use crate::backends::native::{ScannedPage, SinglePageView};
use crate::events::{is_whole_stream, single_page_stream};
use crate::models::{
    default_color_mode_list, default_color_modes, default_dpi_list, default_dpis,
    default_page_size_list, default_page_sizes, in_namespace, Backend, Capabilities,
    CapabilitiesView, ColorMode, PageMeta, PapyrError, PapyrErrorView, ScanSource,
};
use crate::text::{
    append_signed_decimal, same_text, signed_decimal, strip_prefix, texts, trim, trimmed,
    without_prefix,
};
use vstd::prelude::*;

verus! {

/// The status with which SANE reports success.
pub const STATUS_GOOD: i32 = 0;

/// The status with which SANE reports the end of the data.
pub const STATUS_EOF: i32 = 5;

/// The identifier of the device with a SANE name: `sane_`, then the name
/// as it stands, so that two names never share an identifier.
pub open spec fn device_id_of(name: Seq<char>) -> Seq<char> {
    "sane_"@ + name
}

/// The SANE name behind an identifier: the identifier without `sane_` at
/// its start.
pub open spec fn device_name_of(device_id: Seq<char>) -> Seq<char> {
    without_prefix(device_id, "sane_"@)
}

pub fn device_id(name: &str) -> (id: String)
    ensures
        id@ == device_id_of(name@),
{
    let mut id = String::from_str("sane_");
    id.append(name);
    id
}

pub fn device_name(device_id: &str) -> (name: String)
    ensures
        name@ == device_name_of(device_id@),
{
    match strip_prefix(device_id, "sane_") {
        Some(rest) => rest,
        None => String::from_str(device_id),
    }
}

/// Every name is found again behind its identifier.
pub proof fn lemma_device_name_round_trip(name: Seq<char>)
    ensures
        device_name_of(device_id_of(name)) == name,
{
    let prefix = "sane_"@;
    let id = device_id_of(name);
    assert(id.subrange(0, prefix.len() as int) =~= prefix);
    assert(id.skip(prefix.len() as int) =~= name);
}

/// Two names with one identifier are one name.
pub proof fn lemma_device_ids_differ(a: Seq<char>, b: Seq<char>)
    requires
        device_id_of(a) == device_id_of(b),
    ensures
        a == b,
{
    lemma_device_name_round_trip(a);
    lemma_device_name_round_trip(b);
}

/// The sources of a device whose options are named: the flatbed, and the
/// feeder where there is an option to choose the source.
pub open spec fn option_sources(names: Seq<Seq<char>>) -> Seq<ScanSource> {
    if names.contains("source"@) {
        seq![ScanSource::Flatbed, ScanSource::Adf]
    } else {
        seq![ScanSource::Flatbed]
    }
}

/// The capability record of a device whose options are named. The options
/// tell no more than whether the source can be chosen; resolutions, color
/// modes and page sizes are the defaults.
pub open spec fn option_capabilities(names: Seq<Seq<char>>) -> CapabilitiesView {
    CapabilitiesView {
        sources: option_sources(names),
        dpis: default_dpis(),
        color_modes: default_color_modes(),
        page_sizes: default_page_sizes(),
        supports_duplex: false,
    }
}

pub fn capabilities_for_options(names: &Vec<String>) -> (caps: Capabilities)
    ensures
        caps@ == option_capabilities(texts(names@)),
        caps.is_consistent(),
{
    let ghost views = texts(names@);
    let mut has_source = false;
    let mut i: usize = 0;
    while i < names.len()
        invariant
            i <= names@.len(),
            views == texts(names@),
            has_source == exists|k: int| 0 <= k < i && views[k] == "source"@,
        decreases names@.len() - i,
    {
        if same_text(names[i].as_str(), "source") {
            assert(views[i as int] == "source"@);
            has_source = true;
        }
        i = i + 1;
    }
    let mut sources: Vec<ScanSource> = Vec::new();
    sources.push(ScanSource::Flatbed);
    if has_source {
        sources.push(ScanSource::Adf);
    }
    let caps = Capabilities {
        sources,
        dpis: default_dpi_list(),
        color_modes: default_color_mode_list(),
        page_sizes: default_page_size_list(),
        supports_duplex: false,
    };
    proof {
        assert(caps.sources@ =~= option_sources(views));
        assert(default_page_sizes()[0].is_positive());
        assert(default_page_sizes()[1].is_positive());
    }
    caps
}

/// The color mode of a frame format: gray for 0, color for 1, black and
/// white for any other.
pub open spec fn frame_mode(format: i32) -> ColorMode {
    if format == 0 {
        ColorMode::Gray
    } else if format == 1 {
        ColorMode::Color
    } else {
        ColorMode::Bw
    }
}

pub fn frame_color_mode(format: i32) -> (mode: ColorMode)
    ensures
        mode == frame_mode(format),
{
    if format == 0 {
        ColorMode::Gray
    } else if format == 1 {
        ColorMode::Color
    } else {
        ColorMode::Bw
    }
}

/// The description of the page of a frame: the first page of its job, with
/// the measures of the frame, the resolution that was asked for, and the
/// color mode of the frame's format.
pub open spec fn frame_meta(pixels_per_line: i32, lines: i32, format: i32, dpi: u32) -> PageMeta {
    PageMeta {
        index: 0,
        width_px: pixels_per_line as u32,
        height_px: lines as u32,
        dpi,
        color_mode: frame_mode(format),
    }
}

/// The page that was read, from its bytes, the parameters of its last
/// frame and the resolution that was asked for. The dimensions keep their
/// bits.
pub fn page_from_frame(
    bytes: Vec<u8>,
    pixels_per_line: i32,
    lines: i32,
    format: i32,
    dpi: u32,
) -> (page: ScannedPage)
    ensures
        page.bytes@ == bytes@,
        page.width_px == pixels_per_line as u32,
        page.height_px == lines as u32,
        page.dpi == dpi,
        page.color_mode == frame_mode(format),
        page.meta() == frame_meta(pixels_per_line, lines, format, dpi),
{
    ScannedPage {
        bytes,
        width_px: #[verifier::truncate]
        (pixels_per_line as u32),
        height_px: #[verifier::truncate]
        (lines as u32),
        dpi,
        color_mode: frame_color_mode(format),
    }
}

/// What is to be done after one read on a frame.
pub enum ReadStep {
    /// The bytes were taken in: read on.
    ReadOn,
    /// The frame is at its end: the page is whole.
    PageRead,
    /// The read failed: the scan ends with this error.
    Failed(PapyrError),
}

pub enum ReadStepView {
    ReadOn,
    PageRead,
    Failed(PapyrErrorView),
}

impl View for ReadStep {
    type V = ReadStepView;

    open spec fn view(&self) -> ReadStepView {
        match self {
            ReadStep::ReadOn => ReadStepView::ReadOn,
            ReadStep::PageRead => ReadStepView::PageRead,
            ReadStep::Failed(e) => ReadStepView::Failed(e@),
        }
    }
}

/// The bytes of a page after one read, and what is to be done next, from
/// the bytes before it, the status of the read and the bytes that it gave.
/// A read that succeeds adds its bytes; the end of the data leaves the
/// page as it is and ends it; any other status is an error.
pub open spec fn after_read(data: Seq<u8>, status: i32, chunk: Seq<u8>) -> (Seq<u8>, ReadStepView) {
    if status == STATUS_GOOD {
        (data + chunk, ReadStepView::ReadOn)
    } else if status == STATUS_EOF {
        (data, ReadStepView::PageRead)
    } else {
        (data, ReadStepView::Failed(status_failure("SANE read error"@, status)))
    }
}

/// Takes one read on a frame in.
pub fn read_step(data: &mut Vec<u8>, status: i32, chunk: &[u8]) -> (step: ReadStep)
    ensures
        (final(data)@, step@) == after_read(old(data)@, status, chunk@),
{
    if status == STATUS_GOOD {
        let mut i: usize = 0;
        while i < chunk.len()
            invariant
                i <= chunk@.len(),
                data@ == old(data)@ + chunk@.take(i as int),
            decreases chunk@.len() - i,
        {
            data.push(chunk[i]);
            proof {
                assert(chunk@.take(i + 1) =~= chunk@.take(i as int).push(chunk@[i as int]));
                assert(data@ =~= old(data)@ + chunk@.take(i + 1));
            }
            i = i + 1;
        }
        proof {
            assert(chunk@.take(chunk@.len() as int) =~= chunk@);
        }
        ReadStep::ReadOn
    } else if status == STATUS_EOF {
        ReadStep::PageRead
    } else {
        ReadStep::Failed(status_error("SANE read error", status))
    }
}

/// The chunks that a frame gave, joined in their order.
pub open spec fn joined_chunks(chunks: Seq<Seq<u8>>) -> Seq<u8>
    decreases chunks.len(),
{
    if chunks.len() == 0 {
        Seq::empty()
    } else {
        joined_chunks(chunks.drop_last()) + chunks.last()
    }
}

/// The bytes after a run of reads that all succeeded.
pub open spec fn after_reads(data: Seq<u8>, chunks: Seq<Seq<u8>>) -> Seq<u8>
    decreases chunks.len(),
{
    if chunks.len() == 0 {
        data
    } else {
        after_read(after_reads(data, chunks.drop_last()), STATUS_GOOD, chunks.last()).0
    }
}

/// Reads that succeed one after another give a page of their chunks,
/// joined in their order: none lost, none twice, none changed.
pub proof fn lemma_reads_join(chunks: Seq<Seq<u8>>)
    ensures
        after_reads(Seq::empty(), chunks) == joined_chunks(chunks),
    decreases chunks.len(),
{
    if chunks.len() > 0 {
        lemma_reads_join(chunks.drop_last());
    }
}

/// The stream of a scan: where the reads on a frame give chunks and then
/// the end of the data, the session gives on four pulls the stream of one
/// page whose data is the chunks joined in their order, with the measures
/// of the frame, and then the job completes.
pub proof fn lemma_scan_of_a_frame(
    chunks: Seq<Seq<u8>>,
    pixels_per_line: i32,
    lines: i32,
    format: i32,
    dpi: u32,
)
    ensures
        ({
            let read = after_reads(Seq::empty(), chunks);
            let (bytes, step) = after_read(read, STATUS_EOF, Seq::empty());
            let meta = frame_meta(pixels_per_line, lines, format, dpi);
            let opened = SinglePageView::fresh().step(Some((bytes, meta)), None).0;
            let end = opened.step(None, None).0.step(None, None).0.step(None, None).0;
            &&& step == ReadStepView::PageRead
            &&& end.events == single_page_stream(joined_chunks(chunks), meta)
            &&& is_whole_stream(end.events, true)
        }),
{
    lemma_reads_join(chunks);
    SinglePageView::lemma_scan_of_one_page(
        joined_chunks(chunks),
        frame_meta(pixels_per_line, lines, format, dpi),
    );
}

/// The error for a call that SANE answered with a status other than
/// success: what failed, and the status.
pub open spec fn status_failure(what: Seq<char>, status: i32) -> PapyrErrorView {
    PapyrErrorView::Backend(what + ": "@ + signed_decimal(status as int))
}

pub fn status_error(what: &str, status: i32) -> (e: PapyrError)
    ensures
        e@ == status_failure(what@, status),
{
    let mut text = String::from_str(what);
    text.append(": ");
    append_signed_decimal(&mut text, status);
    PapyrError::Backend(text)
}

/// Every identifier of a device lies in the namespace of SANE.
pub proof fn lemma_device_id_in_namespace(name: Seq<char>)
    ensures
        in_namespace(device_id_of(name), Backend::Sane),
{
    let id = device_id_of(name);
    assert(id.subrange(0, "sane_"@.len() as int) =~= "sane_"@);
}

/// The name under which a device is shown: its vendor and its model with a
/// space between them, without the white space at the ends.
pub open spec fn display_name_of(vendor: Seq<char>, model: Seq<char>) -> Seq<char> {
    trimmed(vendor + seq![' '] + model)
}

pub fn display_name(vendor: &str, model: &str) -> (name: String)
    ensures
        name@ == display_name_of(vendor@, model@),
{
    proof {
        reveal_strlit(" ");
        assert(" "@ =~= seq![' ']);
    }
    let mut whole = String::from_str(vendor);
    whole.append(" ");
    whole.append(model);
    trim(whole.as_str())
}

} // verus!
