//! The shape of a session's event stream.
//!
//! A stream is a run of pages and then `JobComplete`. A page opens with
//! `PageStarted`, which carries the number of pages opened before it, and
//! holds any number of `PageData`. In a stream with closed pages each page
//! ends with its `PageComplete`; in one with open pages a page may also end
//! where the next one starts or where the job completes. A guard holds
//! the stream of any session to the second shape and ends it once.

use crate::models::{
    PageMeta, PapyrError, PapyrErrorView, ScanEvent, ScanEventView, ScanSession,
};
use vstd::prelude::*;

verus! {

#[derive(PartialEq, Eq, Structural)]
pub enum StreamPhase {
    /// No page is open.
    Between,
    /// A page is open.
    InPage,
    /// `JobComplete` has come: nothing may follow.
    Finished,
}

/// Where a stream stands after some events: its phase, and how many pages
/// were opened.
pub struct StreamState {
    pub phase: StreamPhase,
    pub pages: nat,
}

pub open spec fn stream_start() -> StreamState {
    StreamState { phase: StreamPhase::Between, pages: 0 }
}

/// The state after one more event, or `None` where the event may not come
/// in this state. `closed_pages` tells whether every page has to end with
/// its `PageComplete`.
pub open spec fn stream_step(state: StreamState, event: ScanEventView, closed_pages: bool) -> Option<
    StreamState,
> {
    match event {
        ScanEventView::PageStarted(index) => {
            if index == state.pages && (state.phase == StreamPhase::Between || (!closed_pages
                && state.phase == StreamPhase::InPage)) {
                Some(StreamState { phase: StreamPhase::InPage, pages: state.pages + 1 })
            } else {
                None
            }
        },
        ScanEventView::PageData(_) => {
            if state.phase == StreamPhase::InPage {
                Some(state)
            } else {
                None
            }
        },
        ScanEventView::PageComplete(meta) => {
            if state.phase == StreamPhase::InPage && meta.index + 1 == state.pages {
                Some(StreamState { phase: StreamPhase::Between, pages: state.pages })
            } else {
                None
            }
        },
        ScanEventView::JobComplete => {
            if state.phase == StreamPhase::Between || (!closed_pages && state.phase
                == StreamPhase::InPage) {
                Some(StreamState { phase: StreamPhase::Finished, pages: state.pages })
            } else {
                None
            }
        },
    }
}

/// The state after a sequence of events, or `None` where some event came
/// out of place.
pub open spec fn stream_run(events: Seq<ScanEventView>, closed_pages: bool) -> Option<StreamState>
    decreases events.len(),
{
    if events.len() == 0 {
        Some(stream_start())
    } else {
        match stream_run(events.drop_last(), closed_pages) {
            Some(state) => stream_step(state, events.last(), closed_pages),
            None => None,
        }
    }
}

/// The events are the beginning of a stream.
pub open spec fn is_stream_prefix(events: Seq<ScanEventView>, closed_pages: bool) -> bool {
    stream_run(events, closed_pages) is Some
}

/// The events are a whole stream: pages, then `JobComplete`.
pub open spec fn is_whole_stream(events: Seq<ScanEventView>, closed_pages: bool) -> bool {
    stream_run(events, closed_pages) matches Some(state) && state.phase == StreamPhase::Finished
}

/// The indices that the `PageStarted` events of a sequence carry, in order.
pub open spec fn started_indices(events: Seq<ScanEventView>) -> Seq<u32>
    decreases events.len(),
{
    if events.len() == 0 {
        Seq::empty()
    } else {
        match events.last() {
            ScanEventView::PageStarted(index) => started_indices(events.drop_last()).push(index),
            _ => started_indices(events.drop_last()),
        }
    }
}

/// What one more event does to a run.
pub proof fn lemma_stream_run_push(
    events: Seq<ScanEventView>,
    event: ScanEventView,
    closed_pages: bool,
)
    ensures
        stream_run(events.push(event), closed_pages) == match stream_run(events, closed_pages) {
            Some(state) => stream_step(state, event, closed_pages),
            None => None,
        },
{
    assert(events.push(event).drop_last() =~= events);
}

/// A stream with closed pages is also one with open pages, and stands in
/// the same state.
pub proof fn lemma_closed_is_open(events: Seq<ScanEventView>)
    requires
        is_stream_prefix(events, true),
    ensures
        stream_run(events, false) == stream_run(events, true),
    decreases events.len(),
{
    if events.len() > 0 {
        lemma_closed_is_open(events.drop_last());
    }
}

/// Every beginning of a beginning of a stream is one.
pub proof fn lemma_prefix_of_prefix(events: Seq<ScanEventView>, n: int, closed_pages: bool)
    requires
        is_stream_prefix(events, closed_pages),
        0 <= n <= events.len(),
    ensures
        is_stream_prefix(events.take(n), closed_pages),
    decreases events.len(),
{
    if n < events.len() {
        lemma_prefix_of_prefix(events.drop_last(), n, closed_pages);
        assert(events.drop_last().take(n) =~= events.take(n));
    } else {
        assert(events.take(n) =~= events);
    }
}

/// Page indices count up from 0: in the beginning of a stream the k-th
/// `PageStarted` carries k, and the state counts them.
pub proof fn lemma_indices_count_up(events: Seq<ScanEventView>, closed_pages: bool)
    requires
        is_stream_prefix(events, closed_pages),
    ensures
        started_indices(events).len() == stream_run(events, closed_pages)->0.pages,
        forall|k: int|
            0 <= k < started_indices(events).len() ==> #[trigger] started_indices(events)[k] == k,
    decreases events.len(),
{
    if events.len() > 0 {
        lemma_indices_count_up(events.drop_last(), closed_pages);
    }
}

/// Nothing follows `JobComplete`: in the beginning of a stream it can only
/// be the last event.
pub proof fn lemma_job_complete_is_last(events: Seq<ScanEventView>, k: int, closed_pages: bool)
    requires
        is_stream_prefix(events, closed_pages),
        0 <= k < events.len(),
        events[k] == ScanEventView::JobComplete,
    ensures
        k == events.len() - 1,
        is_whole_stream(events, closed_pages),
    decreases events.len(),
{
    let front = events.drop_last();
    if k < events.len() - 1 {
        assert(front[k] == events[k]);
        lemma_job_complete_is_last(front, k, closed_pages);
    }
}

/// The stream of a scan that gave one page as a whole: the page is opened,
/// its bytes come, it is completed, and the job completes.
pub open spec fn single_page_stream(bytes: Seq<u8>, meta: PageMeta) -> Seq<ScanEventView> {
    seq![
        ScanEventView::PageStarted(0),
        ScanEventView::PageData(bytes),
        ScanEventView::PageComplete(meta),
        ScanEventView::JobComplete,
    ]
}

/// The stream of a one-page scan is a whole stream with closed pages.
pub proof fn lemma_single_page_stream(bytes: Seq<u8>, meta: PageMeta)
    requires
        meta.index == 0,
    ensures
        is_whole_stream(single_page_stream(bytes, meta), true),
{
    let s = single_page_stream(bytes, meta);
    let s1 = s.take(1);
    let s2 = s.take(2);
    let s3 = s.take(3);
    assert(s1.drop_last() =~= Seq::<ScanEventView>::empty());
    assert(s2.drop_last() =~= s1);
    assert(s3.drop_last() =~= s2);
    assert(s.drop_last() =~= s3);
    assert(stream_run(s1.drop_last(), true) == Some(stream_start()));
    assert(stream_run(s1, true) == Some(StreamState { phase: StreamPhase::InPage, pages: 1 }));
    assert(stream_run(s2, true) == Some(StreamState { phase: StreamPhase::InPage, pages: 1 }));
    assert(stream_run(s3, true) == Some(StreamState { phase: StreamPhase::Between, pages: 1 }));
}

/// What a guard has seen of a stream: the events that it has passed on,
/// where the stream stands after them, and whether it has ended.
pub struct GuardView {
    pub events: Seq<ScanEventView>,
    pub phase: StreamPhase,
    pub pages: nat,
    pub ended: bool,
}

impl GuardView {
    pub open spec fn start() -> GuardView {
        GuardView { events: Seq::empty(), phase: StreamPhase::Between, pages: 0, ended: false }
    }

    pub open spec fn state(self) -> StreamState {
        StreamState { phase: self.phase, pages: self.pages }
    }

    /// The events passed on are the beginning of a stream with open pages,
    /// the guard knows where the stream stands after them, and a stream
    /// that has completed has ended.
    pub open spec fn is_valid(self) -> bool {
        &&& stream_run(self.events, false) == Some(self.state())
        &&& self.phase == StreamPhase::Finished ==> self.ended
    }

    /// What the guard makes of a pull on the session behind it. An event
    /// that may come where the stream stands is passed on, and
    /// `JobComplete` ends the stream; an event that is out of place ends
    /// the stream with an error and is not passed on; an error and the end
    /// of the stream are passed on and end the stream.
    pub open spec fn pulled(self, pull: Result<Option<ScanEventView>, PapyrErrorView>) -> (
        GuardView,
        Result<Option<ScanEventView>, PapyrErrorView>,
    ) {
        match pull {
            Ok(Some(event)) => match stream_step(self.state(), event, false) {
                Some(next) => (
                    GuardView {
                        events: self.events.push(event),
                        phase: next.phase,
                        pages: next.pages,
                        ended: next.phase == StreamPhase::Finished,
                    },
                    Ok(Some(event)),
                ),
                None => (GuardView { ended: true, ..self }, Err(out_of_place())),
            },
            Ok(None) => (GuardView { ended: true, ..self }, Ok(None)),
            Err(e) => (GuardView { ended: true, ..self }, Err(e)),
        }
    }

    /// Event well-formedness, whatever the session: what a guard passes on
    /// is at every moment the beginning of a stream with open pages, and
    /// the stream goes on after an event other than `JobComplete` only.
    pub proof fn lemma_pulled_keeps_valid(
        self,
        pull: Result<Option<ScanEventView>, PapyrErrorView>,
    )
        requires
            self.is_valid(),
        ensures
            self.pulled(pull).0.is_valid(),
            is_stream_prefix(self.pulled(pull).0.events, false),
            !self.pulled(pull).0.ended <==> (self.pulled(pull).1 matches Ok(Some(event)) && event
                != ScanEventView::JobComplete),
    {
        match pull {
            Ok(Some(event)) => {
                lemma_stream_run_push(self.events, event, false);
            },
            _ => {},
        }
    }
}

/// The error with which a guard ends a stream whose session gave an event
/// that may not come where the stream stands.
pub open spec fn out_of_place() -> PapyrErrorView {
    PapyrErrorView::Backend("scan event out of place"@)
}

pub open spec fn pull_view(pull: Result<Option<ScanEvent>, PapyrError>) -> Result<
    Option<ScanEventView>,
    PapyrErrorView,
> {
    match pull {
        Ok(Some(e)) => Ok(Some(e@)),
        Ok(None) => Ok(None),
        Err(e) => Err(e@),
    }
}

/// A session behind a guard that holds its stream to the shape of a
/// stream with open pages, and ends it once: after `JobComplete`, an error
/// or the end of the stream, every pull gives the end of the stream and
/// the session behind the guard is pulled no more.
pub struct StreamGuard<S> {
    inner: S,
    phase: StreamPhase,
    pages: u64,
    ended: bool,
    events: Ghost<Seq<ScanEventView>>,
}

impl<S> View for StreamGuard<S> {
    type V = GuardView;

    closed spec fn view(&self) -> GuardView {
        GuardView {
            events: self.events@,
            phase: self.phase,
            pages: self.pages as nat,
            ended: self.ended,
        }
    }
}

impl<S> StreamGuard<S> {
    /// The session behind the guard.
    pub closed spec fn session(&self) -> S {
        self.inner
    }

    pub fn new(session: S) -> (guard: Self)
        ensures
            guard@ == GuardView::start(),
            guard@.is_valid(),
            guard.session() == session,
    {
        StreamGuard {
            inner: session,
            phase: StreamPhase::Between,
            pages: 0,
            ended: false,
            events: Ghost(Seq::empty()),
        }
    }

    /// Tells whether the stream has ended.
    pub fn has_ended(&self) -> (ended: bool)
        ensures
            ended == self@.ended,
    {
        self.ended
    }

    /// Takes the guard away and hands the session out.
    pub fn into_session(self) -> (session: S)
        ensures
            session == self.session(),
    {
        self.inner
    }
}

impl<S: ScanSession> StreamGuard<S> {
    /// Where the stream stands after an event, if the event may come.
    fn step(&self, event: &ScanEvent) -> (next: Option<(StreamPhase, u64)>)
        ensures
            match next {
                Some((phase, pages)) => stream_step(self@.state(), event@, false) == Some(
                    StreamState { phase, pages: pages as nat },
                ),
                None => stream_step(self@.state(), event@, false) is None,
            },
    {
        let open = match self.phase {
            StreamPhase::InPage => true,
            _ => false,
        };
        let between = match self.phase {
            StreamPhase::Between => true,
            _ => false,
        };
        match event {
            ScanEvent::PageStarted(index) => {
                if *index as u64 == self.pages && (between || open) {
                    Some((StreamPhase::InPage, self.pages + 1))
                } else {
                    None
                }
            },
            ScanEvent::PageData(_) => {
                if open {
                    Some((StreamPhase::InPage, self.pages))
                } else {
                    None
                }
            },
            ScanEvent::PageComplete(meta) => {
                if open && meta.index as u64 + 1 == self.pages {
                    Some((StreamPhase::Between, self.pages))
                } else {
                    None
                }
            },
            ScanEvent::JobComplete => {
                if between || open {
                    Some((StreamPhase::Finished, self.pages))
                } else {
                    None
                }
            },
        }
    }

    /// Takes what a pull on the session gave, on a stream that has not
    /// ended, and gives what the guard makes of it.
    pub fn settle(&mut self, pulled: Result<Option<ScanEvent>, PapyrError>) -> (event: Result<
        Option<ScanEvent>,
        PapyrError,
    >)
        requires
            !old(self)@.ended,
        ensures
            (final(self)@, pull_view(event)) == old(self)@.pulled(pull_view(pulled)),
            event is Ok ==> event == pulled,
            final(self).session() == old(self).session(),
            old(self)@.is_valid() ==> final(self)@.is_valid(),
    {
        proof {
            if self@.is_valid() {
                self@.lemma_pulled_keeps_valid(pull_view(pulled));
            }
        }
        match pulled {
            Ok(Some(event)) => {
                match self.step(&event) {
                    Some((phase, pages)) => {
                        self.ended = match phase {
                            StreamPhase::Finished => true,
                            _ => false,
                        };
                        self.phase = phase;
                        self.pages = pages;
                        self.events = Ghost(self.events@.push(event@));
                        Ok(Some(event))
                    },
                    None => {
                        self.ended = true;
                        Err(PapyrError::Backend(String::from_str("scan event out of place")))
                    },
                }
            },
            Ok(None) => {
                self.ended = true;
                Ok(None)
            },
            Err(e) => {
                self.ended = true;
                Err(e)
            },
        }
    }

    /// One pull through the guard. On a stream that has ended the session
    /// is not pulled; else it is pulled once, and the guard settles what
    /// came.
    pub fn pull(&mut self) -> (event: Result<Option<ScanEvent>, PapyrError>)
        ensures
            old(self)@.ended ==> final(self)@ == old(self)@ && event matches Ok(None),
            !old(self)@.ended ==> exists|pull: Result<Option<ScanEventView>, PapyrErrorView>|
                (final(self)@, pull_view(event)) == #[trigger] old(self)@.pulled(pull),
            old(self)@.is_valid() ==> final(self)@.is_valid(),
    {
        if self.ended {
            return Ok(None);
        }
        let pulled = self.inner.next_event();
        self.settle(pulled)
    }
}

impl<S: ScanSession> ScanSession for StreamGuard<S> {
    /// One pull through the guard, as `pull` makes it.
    fn next_event(&mut self) -> (event: Result<Option<ScanEvent>, PapyrError>)
        ensures
            old(self)@.ended ==> final(self)@ == old(self)@ && event matches Ok(None),
            !old(self)@.ended ==> exists|pull: Result<Option<ScanEventView>, PapyrErrorView>|
                (final(self)@, pull_view(event)) == #[trigger] old(self)@.pulled(pull),
            old(self)@.is_valid() ==> final(self)@.is_valid(),
    {
        self.pull()
    }
}

} // verus!
