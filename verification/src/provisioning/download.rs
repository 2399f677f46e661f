//! The decisions of a download: what counts as a usable response, and when to try again.

use vstd::prelude::*;
use vstd::string::*;

use crate::text::{
    a_decimal_gives_back_its_number, ascii_lower, ascii_lower_char, before,
    before_ends_at_the_first_occurrence, cat2, cat3, cat4, cat5,
    contains, decimal, ends_with, lemma_contains_middle, lower_char, push_char, push_decimal, same_ascii_text,
    starts_with, text_before, text_contains, text_starts_with, trim, trim_text,
};

verus! {

/// The number of times that a download is tried.
pub const MODEL_DOWNLOAD_MAX_ATTEMPTS: usize = 3;

/// The seconds that an answer is waited for.
pub const MODEL_DOWNLOAD_REQUEST_TIMEOUT_SECONDS: u64 = 60;

/// The seconds that the next part of a body is waited for.
pub const MODEL_DOWNLOAD_CHUNK_TIMEOUT_SECONDS: u64 = 60;

/// The number of bytes that are kept to recognise a page in place of an asset.
pub const SNIFFED_BYTES: usize = 512;

/// Why an attempt at a download failed.
#[derive(Debug)]
pub enum DownloadAttemptError {
    Cancelled,
    /// Trying again would not help.
    NonRetryable(String),
    /// Trying again may help.
    Retryable(String),
}

/// The content of a [`DownloadAttemptError`].
pub enum AttemptErrorView {
    Cancelled,
    NonRetryable(Seq<char>),
    Retryable(Seq<char>),
}

impl View for DownloadAttemptError {
    type V = AttemptErrorView;

    open spec fn view(&self) -> AttemptErrorView {
        match self {
            DownloadAttemptError::Cancelled => AttemptErrorView::Cancelled,
            DownloadAttemptError::NonRetryable(m) => AttemptErrorView::NonRetryable(m@),
            DownloadAttemptError::Retryable(m) => AttemptErrorView::Retryable(m@),
        }
    }
}

impl DownloadAttemptError {
    /// The message of the error.
    pub fn message(&self) -> (r: &str)
        ensures
            r@ == match self@ {
                AttemptErrorView::Cancelled => "cancelled"@,
                AttemptErrorView::NonRetryable(m) => m,
                AttemptErrorView::Retryable(m) => m,
            },
    {
        match self {
            DownloadAttemptError::Cancelled => "cancelled",
            DownloadAttemptError::NonRetryable(m) => m.as_str(),
            DownloadAttemptError::Retryable(m) => m.as_str(),
        }
    }
}

// ---------------------------------------------------------------------------
// Pages in place of assets
// ---------------------------------------------------------------------------

/// A byte of ASCII white space.
pub open spec fn is_ascii_space(b: u8) -> bool {
    b == 0x20 || b == 0x09 || b == 0x0a || b == 0x0c || b == 0x0d
}

/// Bytes without the ASCII white space they begin with.
pub open spec fn skip_space(bytes: Seq<u8>) -> Seq<u8>
    decreases bytes.len(),
{
    if bytes.len() > 0 && is_ascii_space(bytes[0]) {
        skip_space(bytes.skip(1))
    } else {
        bytes
    }
}

/// Bytes read as characters, ASCII letters in lower case.
pub open spec fn lower_text(bytes: Seq<u8>) -> Seq<char> {
    bytes.map_values(|b: u8| lower_char(b as char))
}

/// Whether bytes are the beginning of a page or of an XML document.
pub open spec fn looks_like_html(bytes: Seq<u8>) -> bool {
    let text = lower_text(skip_space(bytes));
    starts_with(text, "<"@) && (starts_with(text, "<!doctype html"@) || starts_with(text, "<html"@)
        || starts_with(text, "<?xml"@) || contains(text, "<html"@))
}

/// Whether the beginning of a response looks like a page.
pub fn response_looks_like_html(prefix: &[u8]) -> (r: bool)
    ensures
        r == looks_like_html(prefix@),
{
    let mut start: usize = 0;
    assert(prefix@.skip(0) =~= prefix@);
    while start < prefix.len() && (prefix[start] == 0x20 || prefix[start] == 0x09
        || prefix[start] == 0x0a || prefix[start] == 0x0c || prefix[start] == 0x0d)
        invariant
            start <= prefix@.len(),
            skip_space(prefix@.skip(start as int)) == skip_space(prefix@),
        decreases prefix@.len() - start,
    {
        assert(prefix@.skip(start as int).skip(1) =~= prefix@.skip(start + 1));
        start = start + 1;
    }
    let ghost rest = prefix@.skip(start as int);
    let mut text: String = String::new();
    let mut i: usize = start;
    while i < prefix.len()
        invariant
            start <= i <= prefix@.len(),
            rest == prefix@.skip(start as int),
            text@ == lower_text(rest.take(i - start)),
        decreases prefix@.len() - i,
    {
        push_char(&mut text, ascii_lower_char(prefix[i] as char));
        assert(rest.take(i + 1 - start) =~= rest.take(i - start).push(prefix@[i as int]));
        assert(text@ =~= lower_text(rest.take(i + 1 - start)));
        i = i + 1;
    }
    assert(rest.take(i - start) =~= rest);
    if !text_starts_with(text.as_str(), "<") {
        return false;
    }
    text_starts_with(text.as_str(), "<!doctype html") || text_starts_with(text.as_str(), "<html")
        || text_starts_with(text.as_str(), "<?xml") || text_contains(text.as_str(), "<html")
}

// ---------------------------------------------------------------------------
// One attempt
// ---------------------------------------------------------------------------

/// What ends an attempt other than the response itself.
pub enum AttemptEvent {
    Cancelled,
    /// No answer came in time.
    RequestTimedOut,
    RequestFailed(String),
    /// The temporary file could not be created.
    NotCreated(String),
    /// The body stopped coming.
    StreamTimedOut,
    StreamFailed(String),
    NotWritten(String),
    NotFlushed(String),
    NotSynced(String),
}

/// The error of an event: what happens on the network may pass, what happens on the disk will not.
pub open spec fn event_error(event: AttemptEvent) -> AttemptErrorView {
    match event {
        AttemptEvent::Cancelled => AttemptErrorView::Cancelled,
        AttemptEvent::RequestTimedOut => AttemptErrorView::Retryable(
            "request timed out after "@ + decimal(MODEL_DOWNLOAD_REQUEST_TIMEOUT_SECONDS as nat)
                + "s"@,
        ),
        AttemptEvent::RequestFailed(e) => AttemptErrorView::Retryable("request failed: "@ + e@),
        AttemptEvent::NotCreated(e) => AttemptErrorView::NonRetryable(
            "failed to create temporary download file: "@ + e@,
        ),
        AttemptEvent::StreamTimedOut => AttemptErrorView::Retryable(
            "download stream timed out after "@ + decimal(
                MODEL_DOWNLOAD_CHUNK_TIMEOUT_SECONDS as nat,
            ) + "s"@,
        ),
        AttemptEvent::StreamFailed(e) => AttemptErrorView::Retryable(
            "download stream failure: "@ + e@,
        ),
        AttemptEvent::NotWritten(e) => AttemptErrorView::NonRetryable(
            "failed to write download: "@ + e@,
        ),
        AttemptEvent::NotFlushed(e) => AttemptErrorView::NonRetryable(
            "failed to flush download: "@ + e@,
        ),
        AttemptEvent::NotSynced(e) => AttemptErrorView::NonRetryable(
            "failed to sync download: "@ + e@,
        ),
    }
}

fn seconds_text(prefix: &str, seconds: u64) -> (r: String)
    ensures
        r@ == prefix@ + decimal(seconds as nat) + "s"@,
{
    let mut text: String = prefix.to_owned();
    push_decimal(&mut text, seconds);
    text.append("s");
    text
}

/// Makes the error of an event.
pub fn attempt_error(event: &AttemptEvent) -> (r: DownloadAttemptError)
    ensures
        r@ == event_error(*event),
{
    match event {
        AttemptEvent::Cancelled => DownloadAttemptError::Cancelled,
        AttemptEvent::RequestTimedOut => DownloadAttemptError::Retryable(
            seconds_text("request timed out after ", MODEL_DOWNLOAD_REQUEST_TIMEOUT_SECONDS),
        ),
        AttemptEvent::RequestFailed(e) => DownloadAttemptError::Retryable(
            cat2("request failed: ", e.as_str()),
        ),
        AttemptEvent::NotCreated(e) => DownloadAttemptError::NonRetryable(
            cat2("failed to create temporary download file: ", e.as_str()),
        ),
        AttemptEvent::StreamTimedOut => DownloadAttemptError::Retryable(
            seconds_text(
                "download stream timed out after ",
                MODEL_DOWNLOAD_CHUNK_TIMEOUT_SECONDS,
            ),
        ),
        AttemptEvent::StreamFailed(e) => DownloadAttemptError::Retryable(
            cat2("download stream failure: ", e.as_str()),
        ),
        AttemptEvent::NotWritten(e) => DownloadAttemptError::NonRetryable(
            cat2("failed to write download: ", e.as_str()),
        ),
        AttemptEvent::NotFlushed(e) => DownloadAttemptError::NonRetryable(
            cat2("failed to flush download: ", e.as_str()),
        ),
        AttemptEvent::NotSynced(e) => DownloadAttemptError::NonRetryable(
            cat2("failed to sync download: ", e.as_str()),
        ),
    }
}

/// The head of a response.
pub struct DownloadResponse {
    pub status: u16,
    pub content_length: Option<u64>,
    pub content_type: Option<String>,
}

/// Whether a content type names a page.
pub open spec fn is_html_type(content_type: Option<String>) -> bool {
    content_type matches Some(t) && ascii_lower(trim(before(t@, ";"@))) == ascii_lower(
        "text/html"@,
    )
}

/// What is wrong with the head of a response, if anything. A server's own failure, a timeout and a
/// refusal for too many requests may pass; anything else will not.
pub open spec fn response_problem(response: DownloadResponse) -> Option<AttemptErrorView> {
    if !(200 <= response.status < 300) {
        let message = "download failed with HTTP "@ + decimal(response.status as nat);
        if 500 <= response.status < 600 || response.status == 408 || response.status == 429 {
            Some(AttemptErrorView::Retryable(message))
        } else {
            Some(AttemptErrorView::NonRetryable(message))
        }
    } else if response.content_length == Some(0u64) {
        Some(AttemptErrorView::NonRetryable("downloaded file is empty"@))
    } else if is_html_type(response.content_type) {
        Some(
            AttemptErrorView::NonRetryable(
                "download returned an HTML response instead of a model asset"@,
            ),
        )
    } else {
        None
    }
}

/// Checks the head of a response before its body is written anywhere.
pub fn download_to_temp(response: &DownloadResponse) -> (r: Result<(), DownloadAttemptError>)
    ensures
        match response_problem(*response) {
            None => r is Ok,
            Some(problem) => r is Err && r->Err_0@ == problem,
        },
{
    let code: u16 = response.status;
    if !(200 <= code && code < 300) {
        let mut message: String = "download failed with HTTP ".to_owned();
        push_decimal(&mut message, code as u64);
        if (500 <= code && code < 600) || code == 408 || code == 429 {
            return Err(DownloadAttemptError::Retryable(message));
        }
        return Err(DownloadAttemptError::NonRetryable(message));
    }
    if let Some(length) = response.content_length {
        if length == 0 {
            return Err(DownloadAttemptError::NonRetryable("downloaded file is empty".to_owned()));
        }
    }
    if let Some(content_type) = &response.content_type {
        let kind: String = trim_text(text_before(content_type.as_str(), ";").as_str());
        if same_ascii_text(kind.as_str(), "text/html") {
            return Err(
                DownloadAttemptError::NonRetryable(
                    "download returned an HTML response instead of a model asset".to_owned(),
                ),
            );
        }
    }
    Ok(())
}

/// What has been received of a body.
pub struct ReceivedBody {
    /// The first bytes.
    pub prefix: Vec<u8>,
    /// The number of bytes, as far as it can be counted.
    pub total_bytes: u64,
}

impl ReceivedBody {
    /// Nothing has been received.
    pub fn new() -> (r: ReceivedBody)
        ensures
            r.prefix@ == Seq::<u8>::empty(),
            r.total_bytes == 0,
    {
        ReceivedBody { prefix: Vec::new(), total_bytes: 0 }
    }

    /// Counts a chunk, and keeps what is needed of it.
    pub fn receive(&mut self, chunk: &[u8])
        requires
            old(self).prefix@.len() <= SNIFFED_BYTES,
        ensures
            final(self).prefix@.len() <= SNIFFED_BYTES,
            (old(self).prefix@ + chunk@).len() <= SNIFFED_BYTES ==> final(self).prefix@ == old(
                self,
            ).prefix@ + chunk@,
            (old(self).prefix@ + chunk@).len() > SNIFFED_BYTES ==> final(self).prefix@ == (old(
                self,
            ).prefix@ + chunk@).take(SNIFFED_BYTES as int),
            final(self).total_bytes == if old(self).total_bytes + chunk@.len() > u64::MAX {
                u64::MAX as int
            } else {
                old(self).total_bytes + chunk@.len()
            },
    {
        let mut i: usize = 0;
        while i < chunk.len() && self.prefix.len() < SNIFFED_BYTES
            invariant
                i <= chunk@.len(),
                self.total_bytes == old(self).total_bytes,
                self.prefix@ == old(self).prefix@ + chunk@.take(i as int),
                self.prefix@.len() <= SNIFFED_BYTES,
            decreases chunk@.len() - i,
        {
            self.prefix.push(chunk[i]);
            assert(self.prefix@ =~= old(self).prefix@ + chunk@.take(i + 1));
            i = i + 1;
        }
        proof {
            if i == chunk@.len() {
                assert(chunk@.take(i as int) =~= chunk@);
            }
            if (old(self).prefix@ + chunk@).len() > SNIFFED_BYTES {
                assert(self.prefix@ =~= (old(self).prefix@ + chunk@).take(SNIFFED_BYTES as int));
            }
        }
        let len: u64 = chunk.len() as u64;
        if self.total_bytes > u64::MAX - len {
            self.total_bytes = u64::MAX;
        } else {
            self.total_bytes = self.total_bytes + len;
        }
    }
}

/// What is wrong with a body, if anything.
pub open spec fn body_problem(body: ReceivedBody) -> Option<AttemptErrorView> {
    if body.total_bytes == 0 {
        Some(AttemptErrorView::NonRetryable("downloaded file is empty"@))
    } else if looks_like_html(body.prefix@) {
        Some(
            AttemptErrorView::NonRetryable("download returned HTML instead of a model asset"@),
        )
    } else {
        None
    }
}

/// Checks a body that has been received completely.
pub fn check_received_body(body: &ReceivedBody) -> (r: Result<(), DownloadAttemptError>)
    ensures
        match body_problem(*body) {
            None => r is Ok,
            Some(problem) => r is Err && r->Err_0@ == problem,
        },
{
    if body.total_bytes == 0 {
        return Err(DownloadAttemptError::NonRetryable("downloaded file is empty".to_owned()));
    }
    if response_looks_like_html(&body.prefix) {
        return Err(
            DownloadAttemptError::NonRetryable(
                "download returned HTML instead of a model asset".to_owned(),
            ),
        );
    }
    Ok(())
}

// ---------------------------------------------------------------------------
// Several attempts
// ---------------------------------------------------------------------------

/// What follows a failed attempt.
pub enum RetryDecision {
    /// Wait and try again.
    Retry,
    /// The download failed.
    GiveUp(String),
}

/// An error, and what went wrong while cleaning up after it.
pub open spec fn with_cleanup(error: Seq<char>, cleanup: Result<(), String>) -> Seq<char> {
    match cleanup {
        Ok(_) => error,
        Err(c) => error + "; "@ + c@,
    }
}

fn join_cleanup(error: &str, cleanup: &Result<(), String>) -> (r: String)
    ensures
        r@ == with_cleanup(error@, *cleanup),
{
    match cleanup {
        Ok(_) => error.to_owned(),
        Err(c) => cat3(error, "; ", c.as_str()),
    }
}

/// Decides what follows the failed attempt number `attempt`, whose temporary file was cleaned up
/// as `cleanup` says. A download is tried again only after a failure that may pass, when nothing
/// was left behind, and a limited number of times.
pub fn download_to_path(
    attempt: usize,
    error: &DownloadAttemptError,
    cleanup: &Result<(), String>,
) -> (r: RetryDecision)
    ensures
        r is Retry <==> error@ is Retryable && cleanup is Ok && attempt
            < MODEL_DOWNLOAD_MAX_ATTEMPTS,
        error@ is Retryable && cleanup is Ok && attempt <= 2 ==> r is Retry,
        attempt >= 3 ==> r is GiveUp,
        r matches RetryDecision::GiveUp(text) ==> text@ == match error@ {
            AttemptErrorView::Cancelled => "cancelled"@,
            AttemptErrorView::NonRetryable(e) => with_cleanup(e, *cleanup),
            AttemptErrorView::Retryable(e) => if cleanup is Err {
                with_cleanup(e, *cleanup)
            } else {
                "download failed after "@ + decimal(MODEL_DOWNLOAD_MAX_ATTEMPTS as nat)
                    + " attempts: "@ + e
            },
        },
{
    match error {
        DownloadAttemptError::Cancelled => RetryDecision::GiveUp("cancelled".to_owned()),
        DownloadAttemptError::NonRetryable(e) => RetryDecision::GiveUp(
            join_cleanup(e.as_str(), cleanup),
        ),
        DownloadAttemptError::Retryable(e) => {
            if cleanup.is_err() {
                return RetryDecision::GiveUp(join_cleanup(e.as_str(), cleanup));
            }
            if attempt < MODEL_DOWNLOAD_MAX_ATTEMPTS {
                return RetryDecision::Retry;
            }
            let mut text: String = "download failed after ".to_owned();
            push_decimal(&mut text, MODEL_DOWNLOAD_MAX_ATTEMPTS as u64);
            text.append(" attempts: ");
            text.append(e.as_str());
            RetryDecision::GiveUp(text)
        },
    }
}

/// The name under which a file is downloaded: no two downloads of a process share one, and it is
/// not the name of the file.
pub open spec fn temp_name(filename: Option<Seq<char>>, process: nat, sequence: nat) -> Seq<char> {
    "."@ + (match filename {
        Some(name) => name,
        None => "download"@,
    }) + ".part-"@ + decimal(process) + "-"@ + decimal(sequence)
}

/// Names the file that a download is written to.
pub fn download_temp_name(filename: Option<&str>, process: u64, sequence: u64) -> (r: String)
    ensures
        r@ == temp_name(
            (match filename {
                Some(name) => Some(name@),
                None => None,
            }),
            process as nat,
            sequence as nat,
        ),
{
    let mut out: String = ".".to_owned();
    match filename {
        Some(name) => out.append(name),
        None => out.append("download"),
    }
    out.append(".part-");
    push_decimal(&mut out, process);
    out.append("-");
    push_decimal(&mut out, sequence);
    out
}

/// Names a directory that stands in for another one while that is replaced.
pub fn provisioning_swap_name(prefix: &str, process: u64, sequence: u64) -> (r: String)
    ensures
        r@ == "."@ + prefix@ + "-"@ + decimal(process as nat) + "-"@ + decimal(sequence as nat),
{
    let mut out: String = ".".to_owned();
    out.append(prefix);
    out.append("-");
    push_decimal(&mut out, process);
    out.append("-");
    push_decimal(&mut out, sequence);
    out
}

/// Decides whether a complete download is published. A file that appeared at its destination in
/// the meantime is never overwritten.
pub fn publish_download(destination: &str, cancelled: bool, destination_exists: bool) -> (r: Result<
    (),
    String,
>)
    ensures
        r is Ok <==> !cancelled && !destination_exists,
        cancelled ==> r->Err_0@ == "cancelled"@,
        !cancelled && destination_exists ==> r->Err_0@
            == "download destination appeared while installing '"@ + destination@
            + "'; refusing to overwrite it"@,
{
    if cancelled {
        return Err("cancelled".to_owned());
    }
    if destination_exists {
        return Err(
            cat3(
                "download destination appeared while installing '",
                destination,
                "'; refusing to overwrite it",
            ),
        );
    }
    Ok(())
}

/// Words the error of a download that could not be renamed to its destination.
pub fn publish_download_error(destination: &str, error: &str, cleanup: &Result<(), String>) -> (r:
    String)
    ensures
        r@ == with_cleanup(
            "failed to finalize download '"@ + destination@ + "': "@ + error@,
            *cleanup,
        ),
{
    let text: String = cat4("failed to finalize download '", destination, "': ", error);
    join_cleanup(text.as_str(), cleanup)
}

/// The steps by which an asset is copied from a local directory, in order. It is copied beside its
/// destination and renamed into place, so that a file at the destination is complete.
#[derive(Clone, Copy, PartialEq, Eq, Structural, Debug)]
pub enum LocalStage {
    /// Find the asset.
    Find,
    /// See whether the run was cancelled.
    BeforeCopy,
    /// Clear the temporary file's place.
    ClearTemp,
    /// Copy the asset to the temporary file.
    Copy,
    /// See whether the run was cancelled.
    AfterCopy,
    /// Remove what is at the destination; a file that is not there counts as removed.
    RemoveOld,
    /// Rename the temporary file to the destination.
    Publish,
    /// The asset is in its place.
    Over,
}

/// The paths of a local copy.
pub struct LocalStagePaths {
    pub asset_name: String,
    pub root: String,
    pub source: String,
    pub destination: String,
}

/// The step that follows a step that succeeded.
pub open spec fn local_following(step: LocalStage) -> LocalStage {
    match step {
        LocalStage::Find => LocalStage::BeforeCopy,
        LocalStage::BeforeCopy => LocalStage::ClearTemp,
        LocalStage::ClearTemp => LocalStage::Copy,
        LocalStage::Copy => LocalStage::AfterCopy,
        LocalStage::AfterCopy => LocalStage::RemoveOld,
        LocalStage::RemoveOld => LocalStage::Publish,
        LocalStage::Publish => LocalStage::Over,
        LocalStage::Over => LocalStage::Over,
    }
}

/// Whether a step that fails leaves a temporary file behind.
pub open spec fn leaves_temp(step: LocalStage) -> bool {
    step is Copy || step is AfterCopy || step is RemoveOld || step is Publish
}

/// The error of a step of a local copy that failed with `error`.
pub open spec fn local_stage_text(
    step: LocalStage,
    paths: LocalStagePaths,
    error: Seq<char>,
) -> Seq<char> {
    match step {
        LocalStage::Find => "local release asset '"@ + paths.asset_name@ + "' is missing in '"@
            + paths.root@ + "'."@,
        LocalStage::BeforeCopy | LocalStage::AfterCopy => "cancelled"@,
        LocalStage::ClearTemp | LocalStage::Over => error,
        LocalStage::Copy => "failed to stage local release asset '"@ + paths.source@ + "': "@
            + error,
        LocalStage::RemoveOld => "failed to replace staged release asset '"@ + paths.destination@
            + "': "@ + error,
        LocalStage::Publish => "failed to finalize local release asset '"@ + paths.destination@
            + "': "@ + error,
    }
}

/// Why a local copy ended, and what is left to do.
pub struct LocalFailure {
    /// Whether the temporary file is removed.
    pub remove_temp: bool,
    /// Whether a temporary file that cannot be removed is reported too.
    pub reports_removal: bool,
    pub error: String,
}

/// What follows a step of a local copy.
pub enum LocalNext {
    Go(LocalStage),
    Fail(LocalFailure),
}

/// Decides what follows a step of a local copy. `error` is why it failed, if it did; a run that was
/// cancelled fails the two steps that look for that.
pub fn stage_release_asset(step: LocalStage, error: &Option<String>, paths: &LocalStagePaths) -> (r:
    LocalNext)
    ensures
        match error {
            None => r == LocalNext::Go(local_following(step)),
            Some(e) => {
                &&& r is Fail
                &&& r->Fail_0.remove_temp == leaves_temp(step)
                &&& r->Fail_0.reports_removal == (step is Publish)
                &&& r->Fail_0.error@ == local_stage_text(step, *paths, e@)
            },
        },
{
    let reason: &str = match error {
        None => {
            return LocalNext::Go(
                match step {
                    LocalStage::Find => LocalStage::BeforeCopy,
                    LocalStage::BeforeCopy => LocalStage::ClearTemp,
                    LocalStage::ClearTemp => LocalStage::Copy,
                    LocalStage::Copy => LocalStage::AfterCopy,
                    LocalStage::AfterCopy => LocalStage::RemoveOld,
                    LocalStage::RemoveOld => LocalStage::Publish,
                    LocalStage::Publish => LocalStage::Over,
                    LocalStage::Over => LocalStage::Over,
                },
            );
        },
        Some(e) => e.as_str(),
    };
    let text: String = match step {
        LocalStage::Find => cat5(
            "local release asset '",
            paths.asset_name.as_str(),
            "' is missing in '",
            paths.root.as_str(),
            "'.",
        ),
        LocalStage::BeforeCopy => "cancelled".to_owned(),
        LocalStage::AfterCopy => "cancelled".to_owned(),
        LocalStage::ClearTemp => reason.to_owned(),
        LocalStage::Over => reason.to_owned(),
        LocalStage::Copy => cat4(
            "failed to stage local release asset '",
            paths.source.as_str(),
            "': ",
            reason,
        ),
        LocalStage::RemoveOld => cat4(
            "failed to replace staged release asset '",
            paths.destination.as_str(),
            "': ",
            reason,
        ),
        LocalStage::Publish => cat4(
            "failed to finalize local release asset '",
            paths.destination.as_str(),
            "': ",
            reason,
        ),
    };
    LocalNext::Fail(
        LocalFailure {
            remove_temp: step == LocalStage::Copy || step == LocalStage::AfterCopy || step
                == LocalStage::RemoveOld || step == LocalStage::Publish,
            reports_removal: step == LocalStage::Publish,
            error: text,
        },
    )
}

/// Words why a local copy ended, after its temporary file was removed, or was not.
pub fn local_failure_text(failure: &LocalFailure, removal: &Result<(), String>) -> (r: String)
    ensures
        r@ == if failure.reports_removal {
            with_cleanup(failure.error@, *removal)
        } else {
            failure.error@
        },
{
    if failure.reports_removal {
        join_cleanup(failure.error.as_str(), removal)
    } else {
        failure.error.clone()
    }
}

/// What is at the destination is removed only once the whole asset was copied and the run was not
/// cancelled by then, and a step that fails after the copy began leaves no temporary file.
pub proof fn local_copies_replace_whole_files(step: LocalStage)
    ensures
        local_following(step) is RemoveOld <==> step is AfterCopy,
        local_following(step) is AfterCopy <==> step is Copy,
        leaves_temp(step) && !(local_following(step) is Over) ==> leaves_temp(
            local_following(step),
        ),
        leaves_temp(LocalStage::Copy),
{
}

/// A page is told from an asset by how it begins: behind white space, with a bracket; and what begins
/// with the tag of a page is one, whatever the case.
pub proof fn a_page_begins_with_a_bracket(bytes: Seq<u8>)
    ensures
        looks_like_html(bytes) ==> skip_space(bytes).len() > 0 && skip_space(bytes)[0] == 0x3c,
        starts_with(lower_text(skip_space(bytes)), "<html"@) ==> looks_like_html(bytes),
        starts_with(lower_text(skip_space(bytes)), "<!doctype html"@) ==> looks_like_html(bytes),
        starts_with(lower_text(skip_space(bytes)), "<?xml"@) ==> looks_like_html(bytes),
        skip_space(bytes).len() > 0 ==> !is_ascii_space(skip_space(bytes)[0]),
{
    reveal_strlit("<");
    reveal_strlit("<html");
    reveal_strlit("<!doctype html");
    reveal_strlit("<?xml");
    lemma_skip_space(bytes);
    let rest = skip_space(bytes);
    let text = lower_text(rest);
    if text.len() > 0 {
        assert(text.take(1)[0] == text[0]);
        assert(text[0] == lower_char(rest[0] as char));
    }
    if starts_with(text, "<html"@) {
        assert(text.take(5)[0] == text[0]);
        assert(text.take(1) =~= "<"@);
    }
    if starts_with(text, "<!doctype html"@) {
        assert(text.take(14)[0] == text[0]);
        assert(text.take(1) =~= "<"@);
    }
    if starts_with(text, "<?xml"@) {
        assert(text.take(5)[0] == text[0]);
        assert(text.take(1) =~= "<"@);
    }
}

proof fn lemma_skip_space(bytes: Seq<u8>)
    ensures
        skip_space(bytes).len() > 0 ==> !is_ascii_space(skip_space(bytes)[0]),
    decreases bytes.len(),
{
    if bytes.len() > 0 && is_ascii_space(bytes[0]) {
        lemma_skip_space(bytes.skip(1));
    }
}

/// What goes wrong on the network may pass and what goes wrong on the disk will not; either is told with
/// its reason.
pub proof fn only_network_failures_may_pass(event: AttemptEvent)
    ensures
        event_error(event) is Cancelled <==> event is Cancelled,
        event_error(event) is Retryable <==> event is RequestTimedOut || event is RequestFailed
            || event is StreamTimedOut || event is StreamFailed,
        match event {
            AttemptEvent::RequestFailed(e) => contains(event_error(event)->Retryable_0, e@),
            AttemptEvent::StreamFailed(e) => contains(event_error(event)->Retryable_0, e@),
            AttemptEvent::NotCreated(e) => contains(event_error(event)->NonRetryable_0, e@),
            AttemptEvent::NotWritten(e) => contains(event_error(event)->NonRetryable_0, e@),
            AttemptEvent::NotFlushed(e) => contains(event_error(event)->NonRetryable_0, e@),
            AttemptEvent::NotSynced(e) => contains(event_error(event)->NonRetryable_0, e@),
            _ => true,
        },
{
    match event {
        AttemptEvent::RequestFailed(e) => lemma_told("request failed: "@, e@),
        AttemptEvent::StreamFailed(e) => lemma_told("download stream failure: "@, e@),
        AttemptEvent::NotCreated(e) => lemma_told(
            "failed to create temporary download file: "@,
            e@,
        ),
        AttemptEvent::NotWritten(e) => lemma_told("failed to write download: "@, e@),
        AttemptEvent::NotFlushed(e) => lemma_told("failed to flush download: "@, e@),
        AttemptEvent::NotSynced(e) => lemma_told("failed to sync download: "@, e@),
        _ => {},
    }
}

proof fn lemma_told(a: Seq<char>, e: Seq<char>)
    ensures
        contains(a + e, e),
{
    lemma_contains_middle(a, e, Seq::empty());
    assert(a + e + Seq::empty() =~= a + e);
}

/// A response is taken exactly when it is a success, announces something and is no page. A failure of the
/// server, a timeout and too many requests may pass; another refusal will not.
pub proof fn only_usable_responses_are_taken(response: DownloadResponse)
    ensures
        response_problem(response) is None <==> 200 <= response.status < 300 && response.content_length
            != Some(0u64) && !is_html_type(response.content_type),
        response_problem(response) is Some ==> (response_problem(response)->0 is Retryable <==> 500
            <= response.status < 600 || response.status == 408 || response.status == 429),
        !(response_problem(response) == Some(AttemptErrorView::Cancelled)),
{
}

/// A body is taken exactly when it holds anything and does not begin as a page.
pub proof fn only_whole_assets_are_taken(body: ReceivedBody)
    ensures
        body_problem(body) is None <==> body.total_bytes > 0 && !looks_like_html(body.prefix@),
        body_problem(body) is Some ==> body_problem(body)->0 is NonRetryable,
{
}

/// What went wrong is told first, and what went wrong while cleaning up behind it.
pub proof fn a_failed_cleanup_is_told_too(error: Seq<char>, cleanup: Result<(), String>)
    ensures
        starts_with(with_cleanup(error, cleanup), error),
        cleanup is Ok ==> with_cleanup(error, cleanup) == error,
        cleanup matches Err(c) ==> contains(with_cleanup(error, cleanup), c@),
{
    let all = with_cleanup(error, cleanup);
    assert(all.take(error.len() as int) =~= error);
    if cleanup is Err {
        lemma_told(error + "; "@, cleanup->Err_0@);
    }
}

/// Two downloads of one process never share a temporary name, and it is never the name of the file.
pub proof fn temporary_names_differ(name: Seq<char>, process: nat, a: nat, b: nat)
    ensures
        temp_name(Some(name), process, a) == temp_name(Some(name), process, b) ==> a == b,
        temp_name(Some(name), process, a) != name,
        temp_name(Some(name), process, a)[0] == '.',
{
    reveal_strlit(".");
    reveal_strlit(".part-");
    let head = "."@ + name + ".part-"@ + decimal(process) + "-"@;
    let x = temp_name(Some(name), process, a);
    let y = temp_name(Some(name), process, b);
    assert(x.len() > name.len());
    if x == y {
        assert(x.skip(head.len() as int) =~= decimal(a));
        assert(y.skip(head.len() as int) =~= decimal(b));
        a_decimal_gives_back_its_number(a);
        a_decimal_gives_back_its_number(b);
    }
}

/// A local copy that fails says what went wrong, and names the asset and the directory that it is missing
/// in, or the file that could not be handled; a cancelled one says only that.
pub proof fn a_failed_local_copy_says_why(
    step: LocalStage,
    paths: LocalStagePaths,
    error: Seq<char>,
)
    ensures
        step is BeforeCopy || step is AfterCopy ==> local_stage_text(step, paths, error)
            == "cancelled"@,
        step is Find ==> contains(local_stage_text(step, paths, error), paths.asset_name@) && contains(
            local_stage_text(step, paths, error),
            paths.root@,
        ),
        step is ClearTemp || step is Copy || step is RemoveOld || step is Publish ==> ends_with(
            local_stage_text(step, paths, error),
            error,
        ),
        step is Copy ==> contains(local_stage_text(step, paths, error), paths.source@),
        step is RemoveOld || step is Publish ==> contains(
            local_stage_text(step, paths, error),
            paths.destination@,
        ),
{
    let text = local_stage_text(step, paths, error);
    match step {
        LocalStage::Find => {
            let a = "local release asset '"@;
            let b = "' is missing in '"@;
            lemma_contains_middle(a, paths.asset_name@, b + paths.root@ + "'."@);
            assert(a + paths.asset_name@ + (b + paths.root@ + "'."@) =~= text);
            lemma_contains_middle(a + paths.asset_name@ + b, paths.root@, "'."@);
        },
        LocalStage::Copy => lemma_named(
            "failed to stage local release asset '"@,
            paths.source@,
            error,
        ),
        LocalStage::RemoveOld => lemma_named(
            "failed to replace staged release asset '"@,
            paths.destination@,
            error,
        ),
        LocalStage::Publish => lemma_named(
            "failed to finalize local release asset '"@,
            paths.destination@,
            error,
        ),
        LocalStage::ClearTemp => {
            assert(error.skip(0) =~= error);
        },
        _ => {},
    }
}

proof fn lemma_named(a: Seq<char>, path: Seq<char>, error: Seq<char>)
    ensures
        contains(a + path + "': "@ + error, path),
        ends_with(a + path + "': "@ + error, error),
{
    let text = a + path + "': "@ + error;
    lemma_contains_middle(a, path, "': "@ + error);
    assert(a + path + ("': "@ + error) =~= text);
    assert(text.skip(text.len() - error.len()) =~= error);
}

/// The place of a step of a local copy.
pub open spec fn local_rank(step: LocalStage) -> int {
    match step {
        LocalStage::Find => 0,
        LocalStage::BeforeCopy => 1,
        LocalStage::ClearTemp => 2,
        LocalStage::Copy => 3,
        LocalStage::AfterCopy => 4,
        LocalStage::RemoveOld => 5,
        LocalStage::Publish => 6,
        LocalStage::Over => 7,
    }
}

/// A local copy takes every step once and in its order.
pub proof fn a_local_copy_takes_every_step(step: LocalStage)
    requires
        step !is Over,
    ensures
        local_rank(local_following(step)) == local_rank(step) + 1,
{
}

/// A response is a page when its type is that of one, whatever the case of its letters and whatever is
/// said behind it.
pub proof fn a_page_is_told_by_its_type(content_type: String)
    ensures
        ascii_lower(content_type@) == "text/html"@ && !contains(content_type@, ";"@) && trim(
            content_type@,
        ) == content_type@ ==> is_html_type(Some(content_type)),
        is_html_type(Some(content_type)) ==> ascii_lower(trim(before(content_type@, ";"@)))
            == "text/html"@,
        !is_html_type(None),
{
    reveal_strlit("text/html");
    reveal_strlit(";");
    assert(ascii_lower("text/html"@) =~= "text/html"@);
    before_ends_at_the_first_occurrence(content_type@, ";"@);
}

} // verus!
