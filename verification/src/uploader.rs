//! The resumable-upload protocol as an explicit state machine: start a
//! session, stream and finalize the payload, then poll the remote file
//! until it is active. Every HTTP step retries transient failures on its
//! own, without restarting the whole upload; any terminal non-active state
//! is fatal for the upload.
//!
//! The I/O shell performs the step this machine asks for and feeds the
//! observed outcome back in; the transitions themselves are pure.

use vstd::prelude::*;
use crate::retry::{spec_retryable, spec_retry_status, CallFailure, MAX_RETRIES};
use crate::text::str_eq;

verus! {

/// Where one upload stands.
#[derive(Debug, Clone)]
pub enum UploadPhase {
    /// The session-start request is due (or being retried).
    Start { attempt: u64 },
    /// The server granted an upload URL; the payload is due.
    Uploading { attempt: u64, upload_url: String },
    /// The payload landed but the file is still processing remotely.
    Polling { attempt: u64, name: String },
    /// The file is active and addressable.
    Active { uri: String, name: Option<String> },
    /// The upload is lost; nothing further will be tried.
    Failed { reason: UploadError },
}

/// Why an upload died.
#[derive(Debug, Clone)]
pub enum UploadError {
    /// A session or finalize or poll response had a non-retryable status,
    /// or retries ran out on one.
    Http { code: u16 },
    /// The connection failed and retries ran out.
    Transport,
    /// A successful session response carried no upload URL.
    MissingUploadUrl,
    /// The finalize response carried no file object or no URI.
    MissingFile,
    /// The remote file settled in a state other than active.
    NonActiveState { state: String },
}

/// What a finalize or poll response reported about the remote file.
#[derive(Debug, Clone)]
pub struct FileReport {
    pub state: String,
    pub uri: Option<String>,
    pub name: Option<String>,
}

/// The file states that mean "keep polling".
pub open spec fn spec_retryable_file_state(s: Seq<char>) -> bool {
    s == "PROCESSING"@ || s == "INTERNAL"@
}

/// The file states that mean "keep polling": still being processed, or a
/// transient internal condition.
pub fn is_retryable_file_state(state: &str) -> (r: bool)
    ensures
        r == spec_retryable_file_state(state@),
{
    str_eq(state, "PROCESSING") || str_eq(state, "INTERNAL")
}

/// A fresh upload: the session-start request is due first.
pub fn upload_start() -> (p: UploadPhase)
    ensures
        p == (UploadPhase::Start { attempt: 0u64 }),
{
    UploadPhase::Start { attempt: 0 }
}

impl UploadPhase {
    /// No transition ever needs more retries than the policy grants.
    pub open spec fn wf(&self) -> bool {
        match *self {
            UploadPhase::Start { attempt } => attempt <= MAX_RETRIES,
            UploadPhase::Uploading { attempt, .. } => attempt <= MAX_RETRIES,
            UploadPhase::Polling { attempt, .. } => attempt <= MAX_RETRIES,
            _ => true,
        }
    }

    /// Is the upload settled, for better or worse?
    pub open spec fn spec_terminal(&self) -> bool {
        self is Active || self is Failed
    }
}

/// The session-start request failed; retry it or give the upload up.
pub fn on_session_failure(attempt: u64, failure: &CallFailure) -> (next: UploadPhase)
    requires
        attempt <= MAX_RETRIES,
    ensures
        next.wf(),
        spec_retryable(*failure) && attempt < MAX_RETRIES ==> next == (UploadPhase::Start {
            attempt: (attempt + 1) as u64,
        }),
        !(spec_retryable(*failure) && attempt < MAX_RETRIES) ==> {
            &&& next is Failed
            &&& match *failure {
                CallFailure::Status { code } => next == (UploadPhase::Failed {
                    reason: UploadError::Http { code },
                }),
                _ => next == (UploadPhase::Failed { reason: UploadError::Transport }),
            }
        },
{
    if crate::retry::should_attempt_retry(attempt, failure) {
        UploadPhase::Start { attempt: attempt + 1 }
    } else {
        match failure {
            CallFailure::Status { code } => UploadPhase::Failed {
                reason: UploadError::Http { code: *code },
            },
            _ => UploadPhase::Failed { reason: UploadError::Transport },
        }
    }
}

/// The session-start request succeeded: the upload URL, when the server
/// sent one, moves the machine on; a success without one is fatal.
pub fn on_session_success(upload_url: Option<String>) -> (next: UploadPhase)
    ensures
        next.wf(),
        match upload_url {
            Some(url) => next == (UploadPhase::Uploading { attempt: 0u64, upload_url: url }),
            None => next == (UploadPhase::Failed { reason: UploadError::MissingUploadUrl }),
        },
{
    match upload_url {
        Some(url) => UploadPhase::Uploading { attempt: 0, upload_url: url },
        None => UploadPhase::Failed { reason: UploadError::MissingUploadUrl },
    }
}

/// The finalize request failed; retry it or give the upload up.
pub fn on_finalize_failure(attempt: u64, upload_url: String, failure: &CallFailure) -> (next:
    UploadPhase)
    requires
        attempt <= MAX_RETRIES,
    ensures
        next.wf(),
        spec_retryable(*failure) && attempt < MAX_RETRIES ==> next == (UploadPhase::Uploading {
            attempt: (attempt + 1) as u64,
            upload_url,
        }),
        !(spec_retryable(*failure) && attempt < MAX_RETRIES) ==> next is Failed,
{
    if crate::retry::should_attempt_retry(attempt, failure) {
        UploadPhase::Uploading { attempt: attempt + 1, upload_url }
    } else {
        match failure {
            CallFailure::Status { code } => UploadPhase::Failed {
                reason: UploadError::Http { code: *code },
            },
            _ => UploadPhase::Failed { reason: UploadError::Transport },
        }
    }
}

/// The finalize response arrived: an active file with a URI completes the
/// upload; a file still processing (and named) moves to polling; anything
/// else is terminal.
pub fn on_finalize_report(report: FileReport) -> (next: UploadPhase)
    ensures
        next.wf(),
        report.state@ == "ACTIVE"@ && report.uri is Some ==> next == (UploadPhase::Active {
            uri: report.uri->0,
            name: report.name,
        }),
        report.state@ == "ACTIVE"@ && report.uri is None ==> next == (UploadPhase::Failed {
            reason: UploadError::MissingFile,
        }),
        report.state@ != "ACTIVE"@ && spec_retryable_file_state(report.state@) && report.name
            is Some ==> next == (UploadPhase::Polling { attempt: 0u64, name: report.name->0 }),
        report.state@ != "ACTIVE"@ && !(spec_retryable_file_state(report.state@) && report.name
            is Some) ==> next == (UploadPhase::Failed {
            reason: UploadError::NonActiveState { state: report.state },
        }),
{
    if str_eq(report.state.as_str(), "ACTIVE") {
        match report.uri {
            Some(uri) => UploadPhase::Active { uri, name: report.name },
            None => UploadPhase::Failed { reason: UploadError::MissingFile },
        }
    } else if is_retryable_file_state(report.state.as_str()) {
        match report.name {
            Some(name) => UploadPhase::Polling { attempt: 0, name },
            None => UploadPhase::Failed {
                reason: UploadError::NonActiveState { state: report.state },
            },
        }
    } else {
        UploadPhase::Failed { reason: UploadError::NonActiveState { state: report.state } }
    }
}

/// The status poll failed; retry it or give the upload up.
pub fn on_poll_failure(attempt: u64, name: String, failure: &CallFailure) -> (next: UploadPhase)
    requires
        attempt <= MAX_RETRIES,
    ensures
        next.wf(),
        spec_retryable(*failure) && attempt < MAX_RETRIES ==> next == (UploadPhase::Polling {
            attempt: (attempt + 1) as u64,
            name,
        }),
        !(spec_retryable(*failure) && attempt < MAX_RETRIES) ==> next is Failed,
{
    if crate::retry::should_attempt_retry(attempt, failure) {
        UploadPhase::Polling { attempt: attempt + 1, name }
    } else {
        match failure {
            CallFailure::Status { code } => UploadPhase::Failed {
                reason: UploadError::Http { code: *code },
            },
            _ => UploadPhase::Failed { reason: UploadError::Transport },
        }
    }
}

/// The status poll answered: active completes the upload, a still-retryable
/// state polls again while attempts remain, anything else is a terminal
/// remote state.
pub fn on_poll_report(attempt: u64, name: String, report: FileReport) -> (next: UploadPhase)
    requires
        attempt <= MAX_RETRIES,
    ensures
        next.wf(),
        report.state@ == "ACTIVE"@ && report.uri is Some ==> next == (UploadPhase::Active {
            uri: report.uri->0,
            name: report.name,
        }),
        report.state@ == "ACTIVE"@ && report.uri is None ==> next == (UploadPhase::Failed {
            reason: UploadError::MissingFile,
        }),
        report.state@ != "ACTIVE"@ && spec_retryable_file_state(report.state@) && attempt
            < MAX_RETRIES ==> next == (UploadPhase::Polling {
            attempt: (attempt + 1) as u64,
            name,
        }),
        report.state@ != "ACTIVE"@ && !(spec_retryable_file_state(report.state@) && attempt
            < MAX_RETRIES) ==> next == (UploadPhase::Failed {
            reason: UploadError::NonActiveState { state: report.state },
        }),
{
    if str_eq(report.state.as_str(), "ACTIVE") {
        match report.uri {
            Some(uri) => UploadPhase::Active { uri, name: report.name },
            None => UploadPhase::Failed { reason: UploadError::MissingFile },
        }
    } else if is_retryable_file_state(report.state.as_str()) && attempt < MAX_RETRIES {
        UploadPhase::Polling { attempt: attempt + 1, name }
    } else {
        UploadPhase::Failed { reason: UploadError::NonActiveState { state: report.state } }
    }
}


/// Is a name already registered for cleanup?
pub open spec fn spec_registered(names: Seq<String>, name: Seq<char>) -> bool {
    exists|i: int| 0 <= i < names.len() && #[trigger] names[i]@ == name
}

/// The remote files uploaded during a run, remembered once each so the run's
/// end can delete them whether they were used once or reused from the cache.
#[derive(Debug)]
pub struct CleanupRegistry {
    names: Vec<String>,
}

impl CleanupRegistry {
    pub closed spec fn spec_names(&self) -> Seq<String> {
        self.names@
    }

    pub fn new() -> (r: CleanupRegistry)
        ensures
            r.spec_names().len() == 0,
    {
        CleanupRegistry { names: Vec::new() }
    }

    /// Remember one uploaded file; a name already present is not added
    /// again. Says whether the name was new.
    pub fn register(&mut self, name: &str) -> (inserted: bool)
        ensures
            inserted == !spec_registered(old(self).spec_names(), name@),
            inserted ==> final(self).spec_names().len() == old(self).spec_names().len() + 1
                && final(self).spec_names().last()@ == name@ && forall|i: int|
                0 <= i < old(self).spec_names().len() ==> #[trigger] final(self).spec_names()[i]
                    == old(self).spec_names()[i],
            !inserted ==> final(self).spec_names() == old(self).spec_names(),
            spec_registered(final(self).spec_names(), name@),
    {
        let n = self.names.len();
        let mut i: usize = 0;
        while i < n
            invariant
                0 <= i <= n,
                n == self.names@.len(),
                *self == *old(self),
                forall|j: int| 0 <= j < i ==> #[trigger] self.names@[j]@ != name@,
            decreases n - i,
        {
            if crate::text::str_eq(self.names[i].as_str(), name) {
                proof {
                    assert(self.names@[i as int]@ == name@);
                }
                return false;
            }
            i += 1;
        }
        self.names.push(<String as vstd::string::StringExecFns>::from_str(name));
        proof {
            assert(self.names@.last()@ == name@);
        }
        true
    }

    /// Hand every remembered name out, leaving the registry empty.
    pub fn take_all(&mut self) -> (r: Vec<String>)
        ensures
            r@ == old(self).spec_names(),
            final(self).spec_names().len() == 0,
    {
        let mut drained: Vec<String> = Vec::new();
        std::mem::swap(&mut drained, &mut self.names);
        drained
    }
}

} // verus!
