//! Request telemetry: the event every completed API call emits, and the
//! run-scoped monitor that collects events and structured notes. The cost
//! and reporting layer consumes what is collected here.

use vstd::prelude::*;
use vstd::string::StringExecFns;

verus! {

/// One completed API call. Timestamps are clock readings in milliseconds;
/// the token counts are whatever the response reported.
#[derive(Debug, Clone)]
pub struct RequestEvent {
    pub model: String,
    pub modality: String,
    pub started_at_ms: u64,
    pub finished_at_ms: u64,
    pub input_tokens: Option<u32>,
    pub output_tokens: Option<u32>,
    pub total_tokens: Option<u32>,
    pub chunk_index: Option<u64>,
    pub chunk_start_ms: Option<u64>,
    pub chunk_end_ms: Option<u64>,
    pub file_uri: Option<String>,
    pub retries: u64,
}

impl RequestEvent {
    /// How long the call took, clamped at zero when the clock readings are
    /// out of order.
    pub fn duration_ms(&self) -> (d: u64)
        ensures
            d as int == if self.started_at_ms <= self.finished_at_ms {
                self.finished_at_ms - self.started_at_ms
            } else {
                0
            },
    {
        if self.started_at_ms <= self.finished_at_ms {
            self.finished_at_ms - self.started_at_ms
        } else {
            0
        }
    }
}

/// One structured note: a named occurrence worth reporting, with the clock
/// reading it was taken at.
#[derive(Debug, Clone)]
pub struct Note {
    pub name: String,
    pub detail: String,
    pub at_ms: u64,
}

/// The run-scoped collector of events and notes.
pub struct RunMonitor {
    events: Vec<RequestEvent>,
    notes: Vec<Note>,
    first_started_ms: Option<u64>,
    last_finished_ms: Option<u64>,
}

impl RunMonitor {
    pub closed spec fn spec_events(&self) -> Seq<RequestEvent> {
        self.events@
    }

    pub closed spec fn spec_notes(&self) -> Seq<Note> {
        self.notes@
    }

    pub closed spec fn spec_first_started_ms(&self) -> Option<u64> {
        self.first_started_ms
    }

    pub closed spec fn spec_last_finished_ms(&self) -> Option<u64> {
        self.last_finished_ms
    }

    pub fn new() -> (m: RunMonitor)
        ensures
            m.spec_events().len() == 0,
            m.spec_notes().len() == 0,
            m.spec_first_started_ms() is None,
            m.spec_last_finished_ms() is None,
    {
        RunMonitor { events: Vec::new(), notes: Vec::new(), first_started_ms: None, last_finished_ms: None }
    }

    /// Record one completed call: the event joins the log, and the run's
    /// first-start and last-finish readings widen as needed.
    pub fn record(&mut self, event: RequestEvent)
        ensures
            final(self).spec_events() == old(self).spec_events().push(event),
            final(self).spec_notes() == old(self).spec_notes(),
            final(self).spec_first_started_ms() == match old(self).spec_first_started_ms() {
                None => Some(event.started_at_ms),
                Some(f) => if event.started_at_ms < f {
                    Some(event.started_at_ms)
                } else {
                    Some(f)
                },
            },
            final(self).spec_last_finished_ms() == match old(self).spec_last_finished_ms() {
                None => Some(event.finished_at_ms),
                Some(l) => if event.finished_at_ms > l {
                    Some(event.finished_at_ms)
                } else {
                    Some(l)
                },
            },
    {
        match self.first_started_ms {
            None => {
                self.first_started_ms = Some(event.started_at_ms);
            },
            Some(f) => {
                if event.started_at_ms < f {
                    self.first_started_ms = Some(event.started_at_ms);
                }
            },
        }
        match self.last_finished_ms {
            None => {
                self.last_finished_ms = Some(event.finished_at_ms);
            },
            Some(l) => {
                if event.finished_at_ms > l {
                    self.last_finished_ms = Some(event.finished_at_ms);
                }
            },
        }
        self.events.push(event);
    }

    /// Append one structured note.
    pub fn note_event(&mut self, name: &str, detail: &str, at_ms: u64)
        ensures
            final(self).spec_events() == old(self).spec_events(),
            final(self).spec_first_started_ms() == old(self).spec_first_started_ms(),
            final(self).spec_last_finished_ms() == old(self).spec_last_finished_ms(),
            final(self).spec_notes().len() == old(self).spec_notes().len() + 1,
            final(self).spec_notes() == old(self).spec_notes().push(
                final(self).spec_notes().last(),
            ),
            final(self).spec_notes().last().name@ == name@,
            final(self).spec_notes().last().detail@ == detail@,
            final(self).spec_notes().last().at_ms == at_ms,
    {
        let note = Note {
            name: String::from_str(name),
            detail: String::from_str(detail),
            at_ms,
        };
        self.notes.push(note);
    }

    /// Every event recorded so far, in order.
    pub fn events(&self) -> (r: &Vec<RequestEvent>)
        ensures
            r@ == self.spec_events(),
    {
        &self.events
    }

    /// Every note recorded so far, in order.
    pub fn notes(&self) -> (r: &Vec<Note>)
        ensures
            r@ == self.spec_notes(),
    {
        &self.notes
    }

    /// The earliest start among the recorded events.
    pub fn first_started_ms(&self) -> (r: Option<u64>)
        ensures
            r == self.spec_first_started_ms(),
    {
        self.first_started_ms
    }

    /// The latest finish among the recorded events.
    pub fn last_finished_ms(&self) -> (r: Option<u64>)
        ensures
            r == self.spec_last_finished_ms(),
    {
        self.last_finished_ms
    }
}

} // verus!
