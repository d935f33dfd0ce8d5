//! The scan session of an eSCL scanner, as a state machine.
//!
//! The session itself talks to nobody. It says which request is due, takes
//! the reply to it, and gives the next event of the stream together with the
//! job that is to be deleted, if one is. Whoever drives it sends the
//! requests.

use crate::backends::escl::device::EsclDevice;
use crate::backends::escl::settings::{create_scan_settings_xml, scan_settings_xml};
use crate::backends::escl::status::{append_status_line, status_line};
use crate::events::{
    is_stream_prefix, is_whole_stream, lemma_indices_count_up, lemma_job_complete_is_last,
    lemma_stream_run_push, started_indices, stream_run, StreamPhase, StreamState,
};
use crate::models::{PapyrError, PapyrErrorView, ScanConfig, ScanEvent, ScanEventView};
use crate::text::{append_decimal, decimal};
use vstd::prelude::*;

verus! {

/// The content type of a job request.
pub const JOB_CONTENT_TYPE: &'static str = "text/xml";

/// How long a document may take to arrive, in seconds.
pub const DOCUMENT_TIMEOUT_SECS: u64 = 120;

#[derive(Debug, Clone, Copy, PartialEq, Eq, Structural)]
pub enum EsclState {
    /// No job has been asked for.
    NotStarted,
    /// The scanner holds a job, and pages are fetched from it.
    JobCreated,
    /// The stream has ended, by `JobComplete` or by an error.
    Completed,
}

/// The request that is due.
#[derive(Debug)]
pub enum EsclRequest {
    /// POST the scan settings to the scan jobs resource.
    CreateJob { url: String, body: String },
    /// GET the next document of the job.
    NextDocument { url: String },
    /// No request: the next event is at hand.
    Nothing,
}

pub enum EsclRequestView {
    CreateJob { url: Seq<char>, body: Seq<char> },
    NextDocument { url: Seq<char> },
    Nothing,
}

impl View for EsclRequest {
    type V = EsclRequestView;

    open spec fn view(&self) -> EsclRequestView {
        match self {
            EsclRequest::CreateJob { url, body } => EsclRequestView::CreateJob {
                url: url@,
                body: body@,
            },
            EsclRequest::NextDocument { url } => EsclRequestView::NextDocument { url: url@ },
            EsclRequest::Nothing => EsclRequestView::Nothing,
        }
    }
}

/// What came of the request that was due.
#[derive(Debug)]
pub enum EsclReply {
    /// The scanner answered: the status, the `Location` header if there was
    /// one, and the body.
    Response { status: u16, location: Option<String>, body: Vec<u8> },
    /// No answer came; the text says why.
    Failed(String),
    /// No request was sent.
    Nothing,
}

pub enum EsclReplyView {
    Response { status: u16, location: Option<Seq<char>>, body: Seq<u8> },
    Failed(Seq<char>),
    Nothing,
}

pub open spec fn text_view(text: Option<String>) -> Option<Seq<char>> {
    match text {
        Some(t) => Some(t@),
        None => None,
    }
}

impl View for EsclReply {
    type V = EsclReplyView;

    open spec fn view(&self) -> EsclReplyView {
        match self {
            EsclReply::Response { status, location, body } => EsclReplyView::Response {
                status: *status,
                location: text_view(*location),
                body: body@,
            },
            EsclReply::Failed(reason) => EsclReplyView::Failed(reason@),
            EsclReply::Nothing => EsclReplyView::Nothing,
        }
    }
}

/// One pull on the session: the next event, the end of the stream
/// (`Ok(None)`) or the error that ends it; and the URL of the job to delete,
/// on a best effort, where the job is over.
#[derive(Debug)]
pub struct EsclOutcome {
    pub event: Result<Option<ScanEvent>, PapyrError>,
    pub delete: Option<String>,
}

pub struct EsclOutcomeView {
    pub event: Result<Option<ScanEventView>, PapyrErrorView>,
    pub delete: Option<Seq<char>>,
}

pub open spec fn event_view(event: Result<Option<ScanEvent>, PapyrError>) -> Result<
    Option<ScanEventView>,
    PapyrErrorView,
> {
    match event {
        Ok(Some(e)) => Ok(Some(e@)),
        Ok(None) => Ok(None),
        Err(e) => Err(e@),
    }
}

impl View for EsclOutcome {
    type V = EsclOutcomeView;

    open spec fn view(&self) -> EsclOutcomeView {
        EsclOutcomeView { event: event_view(self.event), delete: text_view(self.delete) }
    }
}

/// A session as a value: what it was made with, where it stands, and what
/// it has done so far.
pub struct EsclSessionView {
    pub state: EsclState,
    /// The URL that the scanner's resources hang off.
    pub base_url: Seq<char>,
    /// The body of the job request.
    pub settings: Seq<char>,
    /// The page cap of the request.
    pub max_pages: Option<u32>,
    /// The URL of the job, once there is one.
    pub job_url: Seq<char>,
    /// How many pages were opened.
    pub started: u32,
    /// The page opened last has not had its data.
    pub owed: bool,
    /// The job was created ahead of the first pull, which is still to give
    /// `PageStarted(0)`.
    pub announce: bool,
    /// The data of the page opened last, where it is at hand.
    pub pending: Option<Seq<u8>>,
    /// Every event given so far.
    pub events: Seq<ScanEventView>,
    /// How many times the deletion of the job was asked for.
    pub deletes: nat,
}

pub open spec fn scan_jobs_url(base_url: Seq<char>) -> Seq<char> {
    base_url + "/ScanJobs"@
}

pub open spec fn next_document_url(job_url: Seq<char>) -> Seq<char> {
    job_url + "/NextDocument"@
}

pub open spec fn job_creation_failed(status: u16) -> PapyrErrorView {
    PapyrErrorView::Backend("Scan job creation failed: HTTP "@ + decimal(status as nat))
}

pub open spec fn no_location() -> PapyrErrorView {
    PapyrErrorView::Backend("No Location header in scan response"@)
}

pub open spec fn start_failed(reason: Seq<char>) -> PapyrErrorView {
    PapyrErrorView::Backend("Failed to start scan: "@ + reason)
}

pub open spec fn download_failed(status: u16) -> PapyrErrorView {
    PapyrErrorView::Backend("Download failed: "@ + status_line(status))
}

pub open spec fn fetch_failed(reason: Seq<char>) -> PapyrErrorView {
    PapyrErrorView::Backend("Failed to download: "@ + reason)
}

pub open spec fn no_reply() -> PapyrErrorView {
    PapyrErrorView::Other("no reply to the request that was due"@)
}

impl EsclSessionView {
    /// A session on which nothing has been done.
    pub open spec fn fresh(base_url: Seq<char>, config: ScanConfig) -> EsclSessionView {
        EsclSessionView {
            state: EsclState::NotStarted,
            base_url,
            settings: scan_settings_xml(config),
            max_pages: config.max_pages,
            job_url: Seq::empty(),
            started: 0,
            owed: false,
            announce: false,
            pending: None,
            events: Seq::empty(),
            deletes: 0,
        }
    }

    /// How many pages had their data.
    pub open spec fn delivered(self) -> nat {
        if self.owed && self.started > 0 {
            (self.started - 1) as nat
        } else {
            self.started as nat
        }
    }

    /// The most pages that the session gives: the cap of the request, and
    /// in any case no more than page indices can count.
    pub open spec fn page_cap(self) -> nat {
        match self.max_pages {
            Some(cap) => cap as nat,
            None => u32::MAX as nat,
        }
    }

    /// As many pages as the session gives have had their data.
    pub open spec fn is_capped(self) -> bool {
        self.delivered() >= self.page_cap()
    }

    /// The request that is due.
    pub open spec fn request(self) -> EsclRequestView {
        match self.state {
            EsclState::NotStarted => EsclRequestView::CreateJob {
                url: scan_jobs_url(self.base_url),
                body: self.settings,
            },
            EsclState::JobCreated => {
                if self.announce || self.pending is Some || self.is_capped() {
                    EsclRequestView::Nothing
                } else {
                    EsclRequestView::NextDocument { url: next_document_url(self.job_url) }
                }
            },
            EsclState::Completed => EsclRequestView::Nothing,
        }
    }

    /// The session gives an event.
    pub open spec fn emit(self, next: EsclSessionView, event: ScanEventView) -> (
        EsclSessionView,
        EsclOutcomeView,
    ) {
        (
            EsclSessionView { events: self.events.push(event), ..next },
            EsclOutcomeView { event: Ok(Some(event)), delete: None },
        )
    }

    /// The session ends with an error. The job, if there is one, is left to
    /// the scanner.
    pub open spec fn fail(self, error: PapyrErrorView) -> (EsclSessionView, EsclOutcomeView) {
        (
            EsclSessionView { state: EsclState::Completed, pending: None, ..self },
            EsclOutcomeView { event: Err(error), delete: None },
        )
    }

    /// The job is over: the stream completes, and the job is to be deleted.
    pub open spec fn finish(self) -> (EsclSessionView, EsclOutcomeView) {
        (
            EsclSessionView {
                state: EsclState::Completed,
                pending: None,
                events: self.events.push(ScanEventView::JobComplete),
                deletes: self.deletes + 1,
                ..self
            },
            EsclOutcomeView {
                event: Ok(Some(ScanEventView::JobComplete)),
                delete: Some(self.job_url),
            },
        )
    }

    /// The data of the page opened last is given.
    pub open spec fn deliver(self, bytes: Seq<u8>) -> (EsclSessionView, EsclOutcomeView) {
        self.emit(
            EsclSessionView { owed: false, pending: None, ..self },
            ScanEventView::PageData(bytes),
        )
    }

    /// What the reply to the job request makes of a session without job:
    /// status 201 with a `Location` creates the job and opens page 0;
    /// anything else ends the session with an error.
    pub open spec fn job_reply(self, reply: EsclReplyView) -> (
        EsclSessionView,
        Option<PapyrErrorView>,
    ) {
        match reply {
            EsclReplyView::Response { status, location, body } => {
                if status == 201 {
                    match location {
                        Some(url) => (
                            EsclSessionView {
                                state: EsclState::JobCreated,
                                job_url: url,
                                started: 1,
                                owed: true,
                                announce: true,
                                pending: None,
                                ..self
                            },
                            None,
                        ),
                        None => (self.fail(no_location()).0, Some(no_location())),
                    }
                } else {
                    (self.fail(job_creation_failed(status)).0, Some(job_creation_failed(status)))
                }
            },
            EsclReplyView::Failed(reason) => (
                self.fail(start_failed(reason)).0,
                Some(start_failed(reason)),
            ),
            EsclReplyView::Nothing => (self.fail(no_reply()).0, Some(no_reply())),
        }
    }

    /// The job is created ahead of the first pull: the session after the
    /// reply to the job request, and the error if the job could not be
    /// created. A session that is past its start stays as it is.
    pub open spec fn create_job(self, reply: EsclReplyView) -> (
        EsclSessionView,
        Option<PapyrErrorView>,
    ) {
        if self.state == EsclState::NotStarted {
            self.job_reply(reply)
        } else {
            (self, None)
        }
    }

    /// `PageStarted(0)` is given.
    pub open spec fn announced(self) -> (EsclSessionView, EsclOutcomeView) {
        self.emit(EsclSessionView { announce: false, ..self }, ScanEventView::PageStarted(0))
    }

    /// One pull: the session after it, and what the pull gives. `reply` is
    /// what came of the request that was due.
    ///
    /// Before there is a job, the reply to the job request decides: the job
    /// is created and `PageStarted(0)` given, or the error ends the
    /// session. With a job that was created ahead, `PageStarted(0)` is
    /// given first. Then data at hand is given; then the page cap ends the
    /// job;
    /// else status 200 gives the data of the open page or, where that page
    /// has its data, opens the next one and keeps the data for the pull
    /// after; status 404 ends the job; anything else ends the session with
    /// an error. A completed session gives the end of the stream.
    pub open spec fn step(self, reply: EsclReplyView) -> (EsclSessionView, EsclOutcomeView) {
        match self.state {
            EsclState::NotStarted => match self.job_reply(reply) {
                (next, None) => next.announced(),
                (next, Some(error)) => (next, EsclOutcomeView { event: Err(error), delete: None }),
            },
            EsclState::JobCreated => {
                if self.announce {
                    self.announced()
                } else if self.pending is Some {
                    self.deliver(self.pending->0)
                } else if self.is_capped() {
                    self.finish()
                } else {
                    match reply {
                        EsclReplyView::Response { status, location, body } => {
                            if status == 200 {
                                if self.owed {
                                    self.deliver(body)
                                } else {
                                    self.emit(
                                        EsclSessionView {
                                            started: (self.started + 1) as u32,
                                            owed: true,
                                            pending: Some(body),
                                            ..self
                                        },
                                        ScanEventView::PageStarted(self.started),
                                    )
                                }
                            } else if status == 404 {
                                self.finish()
                            } else {
                                self.fail(download_failed(status))
                            }
                        },
                        EsclReplyView::Failed(reason) => self.fail(fetch_failed(reason)),
                        EsclReplyView::Nothing => self.fail(no_reply()),
                    }
                }
            },
            EsclState::Completed => (self, EsclOutcomeView { event: Ok(None), delete: None }),
        }
    }

    /// The session is given up: where it holds a job, the job is to be
    /// deleted, and the session is completed.
    pub open spec fn close(self) -> (EsclSessionView, Option<Seq<char>>) {
        if self.state == EsclState::JobCreated {
            (
                EsclSessionView {
                    state: EsclState::Completed,
                    pending: None,
                    deletes: self.deletes + 1,
                    ..self
                },
                Some(self.job_url),
            )
        } else {
            (self, None)
        }
    }

    /// What holds of every session that was made fresh and then only pulled
    /// on and closed.
    pub open spec fn is_valid(self) -> bool {
        match self.state {
            EsclState::NotStarted => {
                &&& self.events.len() == 0
                &&& self.started == 0
                &&& !self.owed
                &&& !self.announce
                &&& self.pending is None
                &&& self.deletes == 0
            },
            EsclState::JobCreated => {
                &&& self.announce ==> self.events.len() == 0 && self.started == 1 && self.owed
                    && self.pending is None
                &&& !self.announce ==> stream_run(self.events, false) == Some(
                    StreamState { phase: StreamPhase::InPage, pages: self.started as nat },
                )
                &&& self.started >= 1
                &&& self.pending is Some ==> self.owed
                &&& self.deletes == 0
            },
            EsclState::Completed => {
                &&& is_stream_prefix(self.events, false)
                &&& self.deletes <= 1
            },
        }
    }

    /// A fresh session is valid.
    pub proof fn lemma_fresh_is_valid(base_url: Seq<char>, config: ScanConfig)
        ensures
            Self::fresh(base_url, config).is_valid(),
    {
    }

    /// Event well-formedness: a pull leaves a valid session valid, so the
    /// events of a session are at every moment the beginning of a stream
    /// with open pages, in which page indices count up from 0.
    pub proof fn lemma_step_keeps_valid(self, reply: EsclReplyView)
        requires
            self.is_valid(),
        ensures
            self.step(reply).0.is_valid(),
            is_stream_prefix(self.step(reply).0.events, false),
    {
        let next = self.step(reply).0;
        match self.step(reply).1.event {
            Ok(Some(event)) => {
                lemma_stream_run_push(self.events, event, false);
            },
            _ => {},
        }
        if self.state == EsclState::NotStarted {
            assert(self.events =~= Seq::<ScanEventView>::empty());
        }
    }

    /// Closing leaves a valid session valid.
    pub proof fn lemma_close_keeps_valid(self)
        requires
            self.is_valid(),
        ensures
            self.close().0.is_valid(),
    {
    }

    /// Creating the job ahead leaves a valid session valid.
    pub proof fn lemma_create_job_keeps_valid(self, reply: EsclReplyView)
        requires
            self.is_valid(),
        ensures
            self.create_job(reply).0.is_valid(),
    {
        if self.state == EsclState::NotStarted {
            assert(self.events =~= Seq::<ScanEventView>::empty());
        }
    }

    /// Event well-formedness: the events of a valid session are the
    /// beginning of a stream with open pages; the k-th `PageStarted` carries
    /// k; and `JobComplete` comes at most once, as the last event, of a
    /// whole stream, and of a completed session.
    pub proof fn lemma_stream_well_formed(self)
        requires
            self.is_valid(),
        ensures
            is_stream_prefix(self.events, false),
            forall|k: int|
                0 <= k < started_indices(self.events).len() ==> #[trigger] started_indices(
                    self.events,
                )[k] == k,
            forall|k: int|
                0 <= k < self.events.len() && #[trigger] self.events[k] == ScanEventView::JobComplete
                    ==> k == self.events.len() - 1 && is_whole_stream(self.events, false)
                    && self.state == EsclState::Completed,
    {
        if self.state == EsclState::JobCreated && self.announce {
            assert(self.events =~= Seq::<ScanEventView>::empty());
        }
        if self.state == EsclState::NotStarted {
            assert(self.events =~= Seq::<ScanEventView>::empty());
        }
        lemma_indices_count_up(self.events, false);
        assert forall|k: int|
            0 <= k < self.events.len() && #[trigger] self.events[k]
                == ScanEventView::JobComplete implies k == self.events.len() - 1 && is_whole_stream(
            self.events,
            false,
        ) && self.state == EsclState::Completed by {
            lemma_job_complete_is_last(self.events, k, false);
        }
    }

    /// The stream ends once: a completed session stays as it is, gives the
    /// end of the stream on every pull, and asks for no deletion.
    pub proof fn lemma_completed_stays(self, reply: EsclReplyView)
        requires
            self.state == EsclState::Completed,
        ensures
            self.step(reply).0 == self,
            self.step(reply).1 == (EsclOutcomeView { event: Ok(None), delete: None }),
            self.close() == (self, None::<Seq<char>>),
            self.create_job(reply) == (self, None::<PapyrErrorView>),
    {
    }

    /// After `JobComplete` or an error the session is completed.
    pub proof fn lemma_terminal_completes(self, reply: EsclReplyView)
        ensures
            self.step(reply).1.event is Err ==> self.step(reply).0.state == EsclState::Completed,
            self.step(reply).1.event == Ok::<Option<ScanEventView>, PapyrErrorView>(
                Some(ScanEventView::JobComplete),
            ) ==> self.step(reply).0.state == EsclState::Completed,
    {
    }

    /// At most one deletion: a valid session has asked for the deletion of
    /// its job at most once, and one that has asked is completed, so that
    /// neither a pull nor closing asks again.
    pub proof fn lemma_at_most_one_delete(self, reply: EsclReplyView)
        requires
            self.is_valid(),
        ensures
            self.deletes <= 1,
            self.deletes == 1 ==> self.state == EsclState::Completed,
            self.step(reply).1.delete is Some ==> self.deletes == 0 && self.step(reply).0.deletes
                == 1,
            self.close().1 is Some ==> self.deletes == 0 && self.close().0.deletes == 1,
            self.close().1 is Some <==> self.state == EsclState::JobCreated,
    {
    }
}

/// What may be done with a session.
pub enum EsclActionView {
    /// A pull, with the reply to the request that was due.
    Pull(EsclReplyView),
    /// The job is created ahead of the first pull.
    CreateJob(EsclReplyView),
    /// The session is given up.
    Close,
}

/// The reply of a scanner that has created a job at an address.
pub open spec fn job_created(url: Seq<char>) -> EsclReplyView {
    EsclReplyView::Response { status: 201, location: Some(url), body: Seq::empty() }
}

/// The reply of a scanner that serves a document.
pub open spec fn document_served(bytes: Seq<u8>) -> EsclReplyView {
    EsclReplyView::Response { status: 200, location: None, body: bytes }
}

/// The reply of a scanner that has no more documents.
pub open spec fn no_more_documents() -> EsclReplyView {
    EsclReplyView::Response { status: 404, location: None, body: Seq::empty() }
}

/// The events of pages that hold these documents, in their order: for
/// each, `PageStarted` with its place and `PageData` with its bytes.
pub open spec fn page_events(documents: Seq<Seq<u8>>) -> Seq<ScanEventView>
    decreases documents.len(),
{
    if documents.len() == 0 {
        Seq::empty()
    } else {
        page_events(documents.drop_last()) + seq![
            ScanEventView::PageStarted((documents.len() - 1) as u32),
            ScanEventView::PageData(documents.last()),
        ]
    }
}

impl EsclSessionView {
    /// The session after an action, and the job whose deletion the action
    /// asks for.
    pub open spec fn act(self, action: EsclActionView) -> (EsclSessionView, Option<Seq<char>>) {
        match action {
            EsclActionView::Pull(reply) => (self.step(reply).0, self.step(reply).1.delete),
            EsclActionView::CreateJob(reply) => (self.create_job(reply).0, None),
            EsclActionView::Close => self.close(),
        }
    }

    /// The session after a run of actions, and how many deletions the
    /// actions of the run asked for.
    pub open spec fn life(self, actions: Seq<EsclActionView>) -> (EsclSessionView, nat)
        decreases actions.len(),
    {
        if actions.len() == 0 {
            (self, 0)
        } else {
            let (before, asked) = self.life(actions.drop_last());
            let (after, delete) = before.act(actions.last());
            (after, if delete is Some {
                asked + 1
            } else {
                asked
            })
        }
    }

    /// At most one deletion in the life of a session: whatever is done
    /// with a fresh session, in whatever order and with whatever replies,
    /// the deletion of its job is asked for at most once, by a pull or by
    /// giving the session up, and never by both.
    pub proof fn lemma_one_delete_in_a_life(
        base_url: Seq<char>,
        config: ScanConfig,
        actions: Seq<EsclActionView>,
    )
        ensures
            Self::fresh(base_url, config).life(actions).1 <= 1,
            Self::fresh(base_url, config).life(actions).0.is_valid(),
            Self::fresh(base_url, config).life(actions).0.deletes == Self::fresh(
                base_url,
                config,
            ).life(actions).1,
            Self::fresh(base_url, config).life(actions).1 == 1 ==> Self::fresh(
                base_url,
                config,
            ).life(actions).0.state == EsclState::Completed,
        decreases actions.len(),
    {
        let fresh = Self::fresh(base_url, config);
        if actions.len() == 0 {
            Self::lemma_fresh_is_valid(base_url, config);
        } else {
            Self::lemma_one_delete_in_a_life(base_url, config, actions.drop_last());
            let before = fresh.life(actions.drop_last()).0;
            match actions.last() {
                EsclActionView::Pull(reply) => {
                    before.lemma_step_keeps_valid(reply);
                    before.lemma_at_most_one_delete(reply);
                },
                EsclActionView::CreateJob(reply) => {
                    before.lemma_create_job_keeps_valid(reply);
                },
                EsclActionView::Close => {
                    before.lemma_close_keeps_valid();
                    before.lemma_at_most_one_delete(EsclReplyView::Nothing);
                },
            }
        }
    }

    /// The session after the scanner has created the job at an address and
    /// served the first documents of a list: the first on the two pulls
    /// that open the first page and give its data, each later one on the
    /// pull that opens its page and the pull that gives its data.
    pub open spec fn after_pages(self, url: Seq<char>, documents: Seq<Seq<u8>>, pages: nat) -> EsclSessionView
        decreases pages,
    {
        if pages == 0 || pages > documents.len() {
            self
        } else if pages == 1 {
            self.step(job_created(url)).0.step(document_served(documents[0])).0
        } else {
            self.after_pages(url, documents, (pages - 1) as nat).step(
                document_served(documents[pages - 1]),
            ).0.step(EsclReplyView::Nothing).0
        }
    }

    /// The request does not cap the pages below a number.
    pub open spec fn allows_pages(config: ScanConfig, pages: nat) -> bool {
        &&& pages <= u32::MAX
        &&& config.max_pages matches Some(cap) ==> pages <= cap
    }

    /// Pages come in the order served: after the scanner has served the
    /// first documents of a list to a fresh session, the events are those
    /// of their pages, none lost, none twice, none changed; the job stands,
    /// and no deletion was asked for.
    pub proof fn lemma_pages_in_order(
        base_url: Seq<char>,
        config: ScanConfig,
        url: Seq<char>,
        documents: Seq<Seq<u8>>,
        pages: nat,
    )
        requires
            1 <= pages <= documents.len(),
            Self::allows_pages(config, pages),
        ensures
            ({
                let session = Self::fresh(base_url, config).after_pages(url, documents, pages);
                &&& session.events == page_events(documents.take(pages as int))
                &&& session.state == EsclState::JobCreated
                &&& session.job_url == url
                &&& session.max_pages == config.max_pages
                &&& session.started == pages
                &&& !session.owed
                &&& !session.announce
                &&& session.pending is None
                &&& session.deletes == 0
            }),
        decreases pages,
    {
        let fresh = Self::fresh(base_url, config);
        let taken = documents.take(pages as int);
        assert(taken.drop_last() =~= documents.take(pages - 1));
        assert(taken.last() == documents[pages - 1]);
        if pages == 1 {
            assert(page_events(taken.drop_last()) =~= Seq::<ScanEventView>::empty());
            let opened = fresh.step(job_created(url)).0;
            let given = opened.step(document_served(documents[0])).0;
            assert(given.events =~= page_events(taken));
        } else {
            Self::lemma_pages_in_order(base_url, config, url, documents, (pages - 1) as nat);
            let before = fresh.after_pages(url, documents, (pages - 1) as nat);
            let opened = before.step(document_served(documents[pages - 1])).0;
            let given = opened.step(EsclReplyView::Nothing).0;
            assert(given.events =~= page_events(taken));
        }
    }

    /// A scan of k documents: where the scanner creates the job, serves k
    /// documents and then has no more, a fresh session gives exactly the
    /// events of the k pages in the order served and then `JobComplete`;
    /// it is completed, has asked for the deletion of the job once, with
    /// that pull, and gives the end of the stream from then on.
    pub proof fn lemma_scan_of_pages(
        base_url: Seq<char>,
        config: ScanConfig,
        url: Seq<char>,
        documents: Seq<Seq<u8>>,
    )
        requires
            1 <= documents.len(),
            Self::allows_pages(config, documents.len()),
        ensures
            ({
                let served = Self::fresh(base_url, config).after_pages(
                    url,
                    documents,
                    documents.len(),
                );
                let (end, outcome) = served.step(no_more_documents());
                &&& end.events == page_events(documents) + seq![ScanEventView::JobComplete]
                &&& outcome.event == Ok::<Option<ScanEventView>, PapyrErrorView>(
                    Some(ScanEventView::JobComplete),
                )
                &&& outcome.delete == Some(url)
                &&& end.state == EsclState::Completed
                &&& end.deletes == 1
                &&& is_whole_stream(end.events, false)
            }),
    {
        Self::lemma_pages_in_order(base_url, config, url, documents, documents.len());
        assert(documents.take(documents.len() as int) =~= documents);
        let served = Self::fresh(base_url, config).after_pages(url, documents, documents.len());
        Self::lemma_pages_valid(base_url, config, url, documents, documents.len());
        served.lemma_step_keeps_valid(no_more_documents());
        let end = served.step(no_more_documents()).0;
        end.lemma_stream_well_formed();
        assert(end.events[end.events.len() - 1] == ScanEventView::JobComplete);
    }

    /// The session after the first documents of a list is valid.
    pub proof fn lemma_pages_valid(
        base_url: Seq<char>,
        config: ScanConfig,
        url: Seq<char>,
        documents: Seq<Seq<u8>>,
        pages: nat,
    )
        ensures
            Self::fresh(base_url, config).after_pages(url, documents, pages).is_valid(),
        decreases pages,
    {
        let fresh = Self::fresh(base_url, config);
        Self::lemma_fresh_is_valid(base_url, config);
        if pages == 0 || pages > documents.len() {
        } else if pages == 1 {
            fresh.lemma_step_keeps_valid(job_created(url));
            fresh.step(job_created(url)).0.lemma_step_keeps_valid(document_served(documents[0]));
        } else {
            Self::lemma_pages_valid(base_url, config, url, documents, (pages - 1) as nat);
            let before = fresh.after_pages(url, documents, (pages - 1) as nat);
            before.lemma_step_keeps_valid(document_served(documents[pages - 1]));
            before.step(document_served(documents[pages - 1])).0.lemma_step_keeps_valid(
                EsclReplyView::Nothing,
            );
        }
    }
}

/// A scan session on an eSCL scanner.
pub struct EsclSession {
    state: EsclState,
    base_url: String,
    settings: String,
    max_pages: Option<u32>,
    job_url: String,
    started: u32,
    owed: bool,
    announce: bool,
    pending: Option<Vec<u8>>,
    events: Ghost<Seq<ScanEventView>>,
    deletes: Ghost<nat>,
}

pub open spec fn error_view(error: Option<PapyrError>) -> Option<PapyrErrorView> {
    match error {
        Some(e) => Some(e@),
        None => None,
    }
}

pub open spec fn bytes_view(bytes: Option<Vec<u8>>) -> Option<Seq<u8>> {
    match bytes {
        Some(b) => Some(b@),
        None => None,
    }
}

impl View for EsclSession {
    type V = EsclSessionView;

    closed spec fn view(&self) -> EsclSessionView {
        EsclSessionView {
            state: self.state,
            base_url: self.base_url@,
            settings: self.settings@,
            max_pages: self.max_pages,
            job_url: self.job_url@,
            started: self.started,
            owed: self.owed,
            announce: self.announce,
            pending: bytes_view(self.pending),
            events: self.events@,
            deletes: self.deletes@,
        }
    }
}

fn backend_error(prefix: &str, reason: &str) -> (e: PapyrError)
    ensures
        e@ == PapyrErrorView::Backend(prefix@ + reason@),
{
    let mut text = String::from_str(prefix);
    text.append(reason);
    PapyrError::Backend(text)
}

fn status_error(prefix: &str, status: u16) -> (e: PapyrError)
    ensures
        e@ == PapyrErrorView::Backend(prefix@ + decimal(status as nat)),
{
    let mut text = String::from_str(prefix);
    append_decimal(&mut text, status as u64);
    PapyrError::Backend(text)
}

impl EsclSession {
    /// A session for one scan on the given device. Nothing is sent before
    /// the first pull.
    pub fn new(device: &EsclDevice, config: &ScanConfig) -> (session: EsclSession)
        ensures
            session@ == EsclSessionView::fresh(device@.base_url(), *config),
            session@.is_valid(),
    {
        EsclSession {
            state: EsclState::NotStarted,
            base_url: device.base_url(),
            settings: create_scan_settings_xml(config),
            max_pages: config.max_pages,
            job_url: String::new(),
            started: 0,
            owed: false,
            announce: false,
            pending: None,
            events: Ghost(Seq::empty()),
            deletes: Ghost(0),
        }
    }

    pub fn state(&self) -> (state: EsclState)
        ensures
            state == self@.state,
    {
        self.state
    }

    /// The URL of the job. It is empty before there is a job.
    pub fn job_url(&self) -> (url: &str)
        ensures
            url@ == self@.job_url,
    {
        self.job_url.as_str()
    }

    /// How many pages were opened.
    pub fn pages_started(&self) -> (pages: u32)
        ensures
            pages == self@.started,
    {
        self.started
    }

    fn is_capped(&self) -> (capped: bool)
        ensures
            capped == self@.is_capped(),
    {
        let delivered: u32 = if self.owed && self.started > 0 {
            self.started - 1
        } else {
            self.started
        };
        match self.max_pages {
            Some(cap) => delivered >= cap,
            None => delivered >= u32::MAX,
        }
    }

    /// The request that is due. The reply to it goes to `advance`.
    pub fn next_request(&self) -> (request: EsclRequest)
        ensures
            request@ == self@.request(),
    {
        match self.state {
            EsclState::NotStarted => {
                let mut url = self.base_url.clone();
                url.append("/ScanJobs");
                EsclRequest::CreateJob { url, body: self.settings.clone() }
            },
            EsclState::JobCreated => {
                if self.announce || self.pending.is_some() || self.is_capped() {
                    EsclRequest::Nothing
                } else {
                    let mut url = self.job_url.clone();
                    url.append("/NextDocument");
                    EsclRequest::NextDocument { url }
                }
            },
            EsclState::Completed => EsclRequest::Nothing,
        }
    }

    fn fail(&mut self, error: PapyrError) -> (outcome: EsclOutcome)
        ensures
            final(self)@ == old(self)@.fail(error@).0,
            outcome@ == old(self)@.fail(error@).1,
    {
        self.state = EsclState::Completed;
        self.pending = None;
        EsclOutcome { event: Err(error), delete: None }
    }

    fn finish(&mut self) -> (outcome: EsclOutcome)
        ensures
            final(self)@ == old(self)@.finish().0,
            outcome@ == old(self)@.finish().1,
    {
        self.state = EsclState::Completed;
        self.pending = None;
        self.events = Ghost(self.events@.push(ScanEventView::JobComplete));
        self.deletes = Ghost(self.deletes@ + 1);
        EsclOutcome { event: Ok(Some(ScanEvent::JobComplete)), delete: Some(self.job_url.clone()) }
    }

    fn deliver(&mut self, bytes: Vec<u8>) -> (outcome: EsclOutcome)
        ensures
            final(self)@ == old(self)@.deliver(bytes@).0,
            outcome@ == old(self)@.deliver(bytes@).1,
    {
        self.owed = false;
        self.pending = None;
        self.events = Ghost(self.events@.push(ScanEventView::PageData(bytes@)));
        EsclOutcome { event: Ok(Some(ScanEvent::PageData(bytes))), delete: None }
    }

    fn take_job_reply(&mut self, reply: EsclReply) -> (error: Option<PapyrError>)
        requires
            old(self)@.state == EsclState::NotStarted,
        ensures
            final(self)@ == old(self)@.job_reply(reply@).0,
            error_view(error) == old(self)@.job_reply(reply@).1,
    {
        match reply {
            EsclReply::Response { status, location, body } => {
                if status == 201 {
                    match location {
                        Some(url) => {
                            self.state = EsclState::JobCreated;
                            self.job_url = url;
                            self.started = 1;
                            self.owed = true;
                            self.announce = true;
                            self.pending = None;
                            None
                        },
                        None => {
                            self.state = EsclState::Completed;
                            self.pending = None;
                            Some(
                                PapyrError::Backend(
                                    String::from_str("No Location header in scan response"),
                                ),
                            )
                        },
                    }
                } else {
                    self.state = EsclState::Completed;
                    self.pending = None;
                    Some(status_error("Scan job creation failed: HTTP ", status))
                }
            },
            EsclReply::Failed(reason) => {
                self.state = EsclState::Completed;
                self.pending = None;
                Some(backend_error("Failed to start scan: ", reason.as_str()))
            },
            EsclReply::Nothing => {
                self.state = EsclState::Completed;
                self.pending = None;
                Some(PapyrError::Other(String::from_str("no reply to the request that was due")))
            },
        }
    }

    fn announce_page(&mut self) -> (outcome: EsclOutcome)
        ensures
            final(self)@ == old(self)@.announced().0,
            outcome@ == old(self)@.announced().1,
    {
        self.announce = false;
        self.events = Ghost(self.events@.push(ScanEventView::PageStarted(0)));
        EsclOutcome { event: Ok(Some(ScanEvent::PageStarted(0))), delete: None }
    }

    /// Creates the job ahead of the first pull. `reply` is what came of the
    /// job request. Where the job could not be created, the error comes
    /// back and the session is completed; else the first pull gives
    /// `PageStarted(0)`. On a session that is past its start nothing
    /// happens.
    pub fn create_job(&mut self, reply: EsclReply) -> (created: Result<(), PapyrError>)
        ensures
            final(self)@ == old(self)@.create_job(reply@).0,
            match created {
                Ok(_) => old(self)@.create_job(reply@).1 is None,
                Err(e) => old(self)@.create_job(reply@).1 == Some(e@),
            },
            old(self)@.is_valid() ==> final(self)@.is_valid(),
    {
        proof {
            if self@.is_valid() {
                self@.lemma_create_job_keeps_valid(reply@);
            }
        }
        if self.state == EsclState::NotStarted {
            match self.take_job_reply(reply) {
                None => Ok(()),
                Some(error) => Err(error),
            }
        } else {
            Ok(())
        }
    }

    /// One pull on the session. `reply` is what came of the request that
    /// `next_request` named: the scanner's answer, the reason why there is
    /// none, or `Nothing` where no request was due.
    pub fn advance(&mut self, reply: EsclReply) -> (outcome: EsclOutcome)
        ensures
            final(self)@ == old(self)@.step(reply@).0,
            outcome@ == old(self)@.step(reply@).1,
            old(self)@.is_valid() ==> final(self)@.is_valid(),
    {
        proof {
            if self@.is_valid() {
                self@.lemma_step_keeps_valid(reply@);
            }
        }
        match self.state {
            EsclState::NotStarted => match self.take_job_reply(reply) {
                None => self.announce_page(),
                Some(error) => EsclOutcome { event: Err(error), delete: None },
            },
            EsclState::JobCreated => if self.announce {
                self.announce_page()
            } else {
                let held = self.pending.take();
                match held {
                    Some(bytes) => self.deliver(bytes),
                    None => {
                        if self.is_capped() {
                            self.finish()
                        } else {
                            match reply {
                                EsclReply::Response { status, location, body } => {
                                    if status == 200 {
                                        if self.owed {
                                            self.deliver(body)
                                        } else {
                                            let index = self.started;
                                            self.started = index + 1;
                                            self.owed = true;
                                            self.events = Ghost(
                                                self.events@.push(
                                                    ScanEventView::PageStarted(index),
                                                ),
                                            );
                                            self.pending = Some(body);
                                            EsclOutcome {
                                                event: Ok(Some(ScanEvent::PageStarted(index))),
                                                delete: None,
                                            }
                                        }
                                    } else if status == 404 {
                                        self.finish()
                                    } else {
                                        let mut text = String::from_str("Download failed: ");
                                        append_status_line(&mut text, status);
                                        self.fail(PapyrError::Backend(text))
                                    }
                                },
                                EsclReply::Failed(reason) => self.fail(
                                    backend_error("Failed to download: ", reason.as_str()),
                                ),
                                EsclReply::Nothing => self.fail(
                                    PapyrError::Other(
                                        String::from_str("no reply to the request that was due"),
                                    ),
                                ),
                            }
                        }
                    },
                }
            },
            EsclState::Completed => EsclOutcome { event: Ok(None), delete: None },
        }
    }

    /// Gives the session up. Where it holds a job, the URL of the job comes
    /// back, to be deleted on a best effort; a second call gives none.
    pub fn close(&mut self) -> (delete: Option<String>)
        ensures
            final(self)@ == old(self)@.close().0,
            text_view(delete) == old(self)@.close().1,
            old(self)@.is_valid() ==> final(self)@.is_valid(),
    {
        if self.state == EsclState::JobCreated {
            self.state = EsclState::Completed;
            self.pending = None;
            self.deletes = Ghost(self.deletes@ + 1);
            Some(self.job_url.clone())
        } else {
            None
        }
    }
}

} // verus!
