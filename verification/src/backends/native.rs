//! What the backends over native frameworks share: the stream of a scan
//! that the framework makes in one go and hands over as one page, and the
//! layout of a page as an uncompressed bitmap.

use crate::events::{
    is_stream_prefix, is_whole_stream, lemma_prefix_of_prefix, lemma_single_page_stream,
    single_page_stream,
};
use crate::models::{
    ColorMode, PageMeta, PapyrError, PapyrErrorView, ScanEvent, ScanEventView,
};
use vstd::prelude::*;

verus! {

/// A page as a native framework hands it over: the bytes, and what is known
/// of the image.
#[derive(Debug)]
pub struct ScannedPage {
    pub bytes: Vec<u8>,
    pub width_px: u32,
    pub height_px: u32,
    pub dpi: u32,
    pub color_mode: ColorMode,
}

impl ScannedPage {
    /// The description of the page, which is the first of its job.
    pub open spec fn meta(self) -> PageMeta {
        PageMeta {
            index: 0,
            width_px: self.width_px,
            height_px: self.height_px,
            dpi: self.dpi,
            color_mode: self.color_mode,
        }
    }
}

#[derive(Debug, Clone, Copy, PartialEq, Eq, Structural)]
pub enum SinglePageStage {
    /// The scan has not been made.
    NotStarted,
    /// The page is opened; its data comes next.
    Opened,
    /// The data is given; the page is completed next.
    DataGiven,
    /// The page is completed; the job completes next.
    PageDone,
    /// The stream has ended.
    Completed,
}

/// What came of the scan that a session was waiting for.
#[derive(Debug)]
pub enum ScanResult {
    /// The framework handed over a page.
    Page(ScannedPage),
    /// The scan failed.
    Failed(PapyrError),
    /// No scan was made.
    Nothing,
}

/// A session as a value: where it stands, the page it holds, and the events
/// it has given.
pub struct SinglePageView {
    pub stage: SinglePageStage,
    /// The bytes of the page, once the scan is made.
    pub bytes: Seq<u8>,
    /// The bytes that the session still holds: those of the page until they
    /// are given.
    pub held: Seq<u8>,
    pub meta: PageMeta,
    pub events: Seq<ScanEventView>,
}

pub open spec fn no_scan() -> PapyrErrorView {
    PapyrErrorView::Other("no result of the scan that was due"@)
}

pub open spec fn pulled(event: Result<Option<ScanEvent>, PapyrError>) -> Result<
    Option<ScanEventView>,
    PapyrErrorView,
> {
    match event {
        Ok(Some(e)) => Ok(Some(e@)),
        Ok(None) => Ok(None),
        Err(e) => Err(e@),
    }
}

impl SinglePageView {
    pub open spec fn fresh() -> SinglePageView {
        SinglePageView {
            stage: SinglePageStage::NotStarted,
            bytes: Seq::empty(),
            held: Seq::empty(),
            meta: PageMeta { index: 0, width_px: 0, height_px: 0, dpi: 0, color_mode: ColorMode::Color },
            events: Seq::empty(),
        }
    }

    pub open spec fn emit(self, stage: SinglePageStage, event: ScanEventView) -> (
        SinglePageView,
        Result<Option<ScanEventView>, PapyrErrorView>,
    ) {
        (SinglePageView { stage, events: self.events.push(event), ..self }, Ok(Some(event)))
    }

    pub open spec fn fail(self, error: PapyrErrorView) -> (
        SinglePageView,
        Result<Option<ScanEventView>, PapyrErrorView>,
    ) {
        (SinglePageView { stage: SinglePageStage::Completed, ..self }, Err(error))
    }

    /// One pull. Before the scan, its result decides: a page opens the
    /// stream, anything else ends the session with an error. After it the
    /// session gives the data of the page, completes the page, completes
    /// the job, and from then on gives the end of the stream.
    pub open spec fn step(
        self,
        page: Option<(Seq<u8>, PageMeta)>,
        failure: Option<PapyrErrorView>,
    ) -> (SinglePageView, Result<Option<ScanEventView>, PapyrErrorView>) {
        match self.stage {
            SinglePageStage::NotStarted => match (page, failure) {
                (Some((bytes, meta)), _) => (SinglePageView { bytes, held: bytes, meta, ..self }).emit(
                    SinglePageStage::Opened,
                    ScanEventView::PageStarted(0),
                ),
                (None, Some(error)) => self.fail(error),
                (None, None) => self.fail(no_scan()),
            },
            SinglePageStage::Opened => (SinglePageView { held: Seq::empty(), ..self }).emit(
                SinglePageStage::DataGiven,
                ScanEventView::PageData(self.held),
            ),
            SinglePageStage::DataGiven => self.emit(
                SinglePageStage::PageDone,
                ScanEventView::PageComplete(self.meta),
            ),
            SinglePageStage::PageDone => self.emit(
                SinglePageStage::Completed,
                ScanEventView::JobComplete,
            ),
            SinglePageStage::Completed => (self, Ok(None)),
        }
    }

    /// What holds of every session that was made fresh and then only
    /// pulled on: its events are the beginning of the stream of its page,
    /// as far as its stage says.
    pub open spec fn is_valid(self) -> bool {
        let whole = single_page_stream(self.bytes, self.meta);
        &&& self.meta.index == 0
        &&& self.stage == SinglePageStage::Opened ==> self.held == self.bytes
        &&& match self.stage {
            SinglePageStage::NotStarted => self.events == whole.take(0),
            SinglePageStage::Opened => self.events == whole.take(1),
            SinglePageStage::DataGiven => self.events == whole.take(2),
            SinglePageStage::PageDone => self.events == whole.take(3),
            SinglePageStage::Completed => self.events == whole || self.events == whole.take(0),
        }
    }

    /// A pull leaves a valid session valid.
    pub proof fn lemma_step_keeps_valid(
        self,
        page: Option<(Seq<u8>, PageMeta)>,
        failure: Option<PapyrErrorView>,
    )
        requires
            self.is_valid(),
            page matches Some((_, meta)) ==> meta.index == 0,
        ensures
            self.step(page, failure).0.is_valid(),
    {
        let next = self.step(page, failure).0;
        let whole = single_page_stream(next.bytes, next.meta);
        match self.stage {
            SinglePageStage::NotStarted => {
                assert(self.events =~= Seq::<ScanEventView>::empty());
                if page is Some {
                    assert(next.events =~= whole.take(1));
                } else {
                    assert(next.events =~= whole.take(0));
                }
            },
            SinglePageStage::Opened => {
                assert(next.events =~= whole.take(2));
            },
            SinglePageStage::DataGiven => {
                assert(next.events =~= whole.take(3));
            },
            SinglePageStage::PageDone => {
                assert(next.events =~= whole);
            },
            SinglePageStage::Completed => {},
        }
    }

    /// Event well-formedness: the events of a valid session are the
    /// beginning of a stream with closed pages, and once the job has
    /// completed they are a whole one: the page is opened, its data comes,
    /// it is completed, the job completes.
    pub proof fn lemma_stream_well_formed(self)
        requires
            self.is_valid(),
        ensures
            is_stream_prefix(self.events, true),
            self.events.len() == 4 ==> self.events == single_page_stream(self.bytes, self.meta)
                && is_whole_stream(self.events, true),
    {
        let whole = single_page_stream(self.bytes, self.meta);
        lemma_single_page_stream(self.bytes, self.meta);
        assert(whole.take(4) =~= whole);
        lemma_prefix_of_prefix(whole, self.events.len() as int, true);
        assert(self.events =~= whole.take(self.events.len() as int));
    }

    /// A scan of one page: where the scan gives a page, a fresh session
    /// gives on four pulls exactly the stream of that page: the page is
    /// opened, its bytes come as they are, it is completed with its
    /// measures, the job completes. Then the session is completed.
    pub proof fn lemma_scan_of_one_page(bytes: Seq<u8>, meta: PageMeta)
        requires
            meta.index == 0,
        ensures
            ({
                let opened = Self::fresh().step(Some((bytes, meta)), None).0;
                let given = opened.step(None, None).0;
                let done = given.step(None, None).0;
                let end = done.step(None, None).0;
                &&& end.events == single_page_stream(bytes, meta)
                &&& end.stage == SinglePageStage::Completed
                &&& is_whole_stream(end.events, true)
            }),
    {
        let opened = Self::fresh().step(Some((bytes, meta)), None).0;
        let given = opened.step(None, None).0;
        let done = given.step(None, None).0;
        let end = done.step(None, None).0;
        assert(end.events =~= single_page_stream(bytes, meta));
        lemma_single_page_stream(bytes, meta);
    }

    /// The stream ends once: a completed session stays as it is and gives
    /// the end of the stream on every pull.
    pub proof fn lemma_completed_stays(
        self,
        page: Option<(Seq<u8>, PageMeta)>,
        failure: Option<PapyrErrorView>,
    )
        requires
            self.stage == SinglePageStage::Completed,
        ensures
            self.step(page, failure) == (self, Ok::<Option<ScanEventView>, PapyrErrorView>(None)),
    {
    }
}

/// The session of a backend whose framework makes a scan in one go and
/// hands over one page. Whoever drives the session makes the scan when the
/// session asks for it.
pub struct SinglePageSession {
    stage: SinglePageStage,
    held: Vec<u8>,
    meta: PageMeta,
    bytes: Ghost<Seq<u8>>,
    events: Ghost<Seq<ScanEventView>>,
}

impl View for SinglePageSession {
    type V = SinglePageView;

    closed spec fn view(&self) -> SinglePageView {
        SinglePageView {
            stage: self.stage,
            bytes: self.bytes@,
            held: self.held@,
            meta: self.meta,
            events: self.events@,
        }
    }
}

pub open spec fn page_of(result: ScanResult) -> Option<(Seq<u8>, PageMeta)> {
    match result {
        ScanResult::Page(page) => Some((page.bytes@, page.meta())),
        _ => None,
    }
}

pub open spec fn failure_of(result: ScanResult) -> Option<PapyrErrorView> {
    match result {
        ScanResult::Failed(error) => Some(error@),
        _ => None,
    }
}

impl SinglePageSession {
    pub fn new() -> (session: SinglePageSession)
        ensures
            session@ == SinglePageView::fresh(),
            session@.is_valid(),
    {
        let session = SinglePageSession {
            stage: SinglePageStage::NotStarted,
            held: Vec::new(),
            meta: PageMeta { index: 0, width_px: 0, height_px: 0, dpi: 0, color_mode: ColorMode::Color },
            bytes: Ghost(Seq::empty()),
            events: Ghost(Seq::empty()),
        };
        assert(session@.events =~= single_page_stream(session@.bytes, session@.meta).take(0));
        session
    }

    pub fn stage(&self) -> (stage: SinglePageStage)
        ensures
            stage == self@.stage,
    {
        self.stage
    }

    /// Tells whether the scan is due: its result goes to the next pull.
    pub fn needs_scan(&self) -> (due: bool)
        ensures
            due == (self@.stage == SinglePageStage::NotStarted),
    {
        self.stage == SinglePageStage::NotStarted
    }

    /// One pull on the session. `result` is what came of the scan, where
    /// the scan was due, and is passed over where it was not.
    pub fn advance(&mut self, result: ScanResult) -> (event: Result<Option<ScanEvent>, PapyrError>)
        ensures
            final(self)@ == old(self)@.step(page_of(result), failure_of(result)).0,
            pulled(event) == old(self)@.step(page_of(result), failure_of(result)).1,
            old(self)@.is_valid() ==> final(self)@.is_valid(),
    {
        proof {
            if self@.is_valid() {
                self@.lemma_step_keeps_valid(page_of(result), failure_of(result));
            }
        }
        match self.stage {
            SinglePageStage::NotStarted => match result {
                ScanResult::Page(page) => {
                    self.meta =
                    PageMeta {
                        index: 0,
                        width_px: page.width_px,
                        height_px: page.height_px,
                        dpi: page.dpi,
                        color_mode: page.color_mode,
                    };
                    self.bytes = Ghost(page.bytes@);
                    self.held = page.bytes;
                    self.stage = SinglePageStage::Opened;
                    self.events = Ghost(self.events@.push(ScanEventView::PageStarted(0)));
                    Ok(Some(ScanEvent::PageStarted(0)))
                },
                ScanResult::Failed(error) => {
                    self.stage = SinglePageStage::Completed;
                    Err(error)
                },
                ScanResult::Nothing => {
                    self.stage = SinglePageStage::Completed;
                    Err(PapyrError::Other(String::from_str("no result of the scan that was due")))
                },
            },
            SinglePageStage::Opened => {
                let mut bytes: Vec<u8> = Vec::new();
                core::mem::swap(&mut self.held, &mut bytes);
                self.stage = SinglePageStage::DataGiven;
                self.events = Ghost(self.events@.push(ScanEventView::PageData(bytes@)));
                Ok(Some(ScanEvent::PageData(bytes)))
            },
            SinglePageStage::DataGiven => {
                self.stage = SinglePageStage::PageDone;
                self.events = Ghost(self.events@.push(ScanEventView::PageComplete(self.meta)));
                Ok(Some(ScanEvent::PageComplete(self.meta)))
            },
            SinglePageStage::PageDone => {
                self.stage = SinglePageStage::Completed;
                self.events = Ghost(self.events@.push(ScanEventView::JobComplete));
                Ok(Some(ScanEvent::JobComplete))
            },
            SinglePageStage::Completed => Ok(None),
        }
    }
}

/// A number of 16 bits as two bytes, the low one first.
pub open spec fn le16(x: u16) -> Seq<u8> {
    seq![(x % 256) as u8, (x / 256) as u8]
}

/// A number of 32 bits as four bytes, the lowest first.
pub open spec fn le32(x: u32) -> Seq<u8> {
    seq![
        (x % 256) as u8,
        (x / 256 % 256) as u8,
        (x / 65536 % 256) as u8,
        (x / 16777216) as u8,
    ]
}

fn push_le16(out: &mut Vec<u8>, x: u16)
    ensures
        final(out)@ == old(out)@ + le16(x),
{
    out.push((x % 256) as u8);
    out.push((x / 256) as u8);
    assert(out@ =~= old(out)@ + le16(x));
}

fn push_le32(out: &mut Vec<u8>, x: u32)
    ensures
        final(out)@ == old(out)@ + le32(x),
{
    out.push((x % 256) as u8);
    out.push((x / 256 % 256) as u8);
    out.push((x / 65536 % 256) as u8);
    out.push((x / 16777216) as u8);
    assert(out@ =~= old(out)@ + le32(x));
}

/// What the header of a bitmap says of its image.
#[derive(Debug, Clone, Copy, PartialEq, Eq, Structural)]
pub struct BitmapInfo {
    pub width: u32,
    pub height: u32,
    pub bits_per_pixel: u16,
    /// How many bytes the pixels take.
    pub image_size: u32,
    /// Pixels per metre, in both directions.
    pub resolution: u32,
}

/// The number of bytes of a bitmap file with a header of 54 bytes, as far as
/// 32 bits can tell it.
pub open spec fn bitmap_file_size(image_size: u32) -> u32 {
    if image_size + 54 <= u32::MAX {
        (image_size + 54) as u32
    } else {
        u32::MAX
    }
}

/// The header of an uncompressed bitmap file: the file header of 14 bytes
/// and the image header of 40 bytes, with one plane and no palette.
pub open spec fn bitmap_header_of(info: BitmapInfo, data_size: u32) -> Seq<u8> {
    seq![0x42u8, 0x4Du8] + le32(bitmap_file_size(data_size)) + le32(0) + le32(54) + le32(40)
        + le32(info.width) + le32(info.height) + le16(1) + le16(info.bits_per_pixel) + le32(0)
        + le32(info.image_size) + le32(info.resolution) + le32(info.resolution) + le32(0) + le32(
        0,
    )
}

/// Writes the header of a bitmap file whose pixels take `data_size` bytes.
pub fn bitmap_header(info: &BitmapInfo, data_size: u32) -> (header: Vec<u8>)
    ensures
        header@ == bitmap_header_of(*info, data_size),
        header@.len() == 54,
{
    let file_size: u32 = if data_size <= u32::MAX - 54 {
        data_size + 54
    } else {
        u32::MAX
    };
    let mut header: Vec<u8> = Vec::new();
    header.push(0x42);
    header.push(0x4D);
    assert(header@ =~= seq![0x42u8, 0x4Du8]);
    push_le32(&mut header, file_size);
    push_le32(&mut header, 0);
    push_le32(&mut header, 54);
    push_le32(&mut header, 40);
    push_le32(&mut header, info.width);
    push_le32(&mut header, info.height);
    push_le16(&mut header, 1);
    push_le16(&mut header, info.bits_per_pixel);
    push_le32(&mut header, 0);
    push_le32(&mut header, info.image_size);
    push_le32(&mut header, info.resolution);
    push_le32(&mut header, info.resolution);
    push_le32(&mut header, 0);
    push_le32(&mut header, 0);
    header
}

/// How many bytes the pixels of an image take, each row filled up to a
/// multiple of four bytes; no more than 32 bits can tell.
pub open spec fn padded_image_size(width: u32, height: u32, bytes_per_pixel: u32) -> u32 {
    let row = (width * bytes_per_pixel + 3) / 4 * 4;
    if row * height <= u32::MAX {
        (row * height) as u32
    } else {
        u32::MAX
    }
}

pub fn image_size(width: u32, height: u32, bytes_per_pixel: u32) -> (size: u32)
    ensures
        size == padded_image_size(width, height, bytes_per_pixel),
{
    assert((width as nat) * (bytes_per_pixel as nat) <= 0xffff_ffff * 0xffff_ffff) by (nonlinear_arith)
        requires
            width <= 0xffff_ffff,
            bytes_per_pixel <= 0xffff_ffff,
    ;
    let row: u64 = ((width as u64) * (bytes_per_pixel as u64) + 3) / 4 * 4;
    if height == 0 {
        assert(row * 0 == 0) by (nonlinear_arith);
        return 0;
    }
    let limit: u64 = 0xffff_ffffu64 / (height as u64);
    if row > limit {
        assert(row * height > u32::MAX) by (nonlinear_arith)
            requires
                row >= 0xffff_ffffint / (height as int) + 1,
                height > 0,
        ;
        return u32::MAX;
    }
    assert(row * height <= u32::MAX) by (nonlinear_arith)
        requires
            row <= 0xffff_ffffint / (height as int),
            height > 0,
    ;
    (row * (height as u64)) as u32
}

/// A white page as an uncompressed bitmap: the header, and every byte of
/// the pixels 255.
pub open spec fn white_bitmap_of(info: BitmapInfo) -> Seq<u8> {
    bitmap_header_of(info, info.image_size) + Seq::new(info.image_size as nat, |i: int| 255u8)
}

pub fn white_bitmap(info: &BitmapInfo) -> (bytes: Vec<u8>)
    ensures
        bytes@ == white_bitmap_of(*info),
{
    let mut bytes = bitmap_header(info, info.image_size);
    let ghost header = bytes@;
    let mut i: u32 = 0;
    assert(bytes@ =~= header + Seq::new(0, |k: int| 255u8));
    while i < info.image_size
        invariant
            i <= info.image_size,
            bytes@ == header + Seq::new(i as nat, |k: int| 255u8),
        decreases info.image_size - i,
    {
        bytes.push(255);
        assert(bytes@ =~= header + Seq::new((i + 1) as nat, |k: int| 255u8));
        i = i + 1;
    }
    bytes
}

} // verus!
