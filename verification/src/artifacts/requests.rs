//! Requests to make something of a transcript, to list artifacts, and to empty the trash.

use vstd::prelude::*;
use vstd::string::*;

use crate::artifacts::ask::{check_providers, provider_problem};
use crate::artifacts::payloads::{
    GenerateArtifactPackPayload, GeneratedArtifactPack, ListArtifactsPayload,
    SummarizeArtifactPayload,
};
use crate::artifacts::prompts::{
    build_generated_pack_instructions, build_summary_instructions, pack_instructions,
    summary_lines,
};
use crate::domain::ArtifactKind;
use crate::error::{command_error, CommandError, CommandErrorView};
use crate::text::{
    inked, join, lemma_inked_edge, opt_view, trim, trim_text, trimming_takes_white_only, views,
};

verus! {

/// Why nothing is made of a transcript, if nothing is.
pub open spec fn transcript_problem(
    found: bool,
    providers: Result<usize, String>,
    unavailable: CommandErrorView,
    transcript: Seq<char>,
    empty_message: Seq<char>,
) -> Option<CommandErrorView> {
    if !found {
        Some(command_error("not_found"@, "artifact not found"@))
    } else if provider_problem(providers, unavailable) is Some {
        provider_problem(providers, unavailable)
    } else if trim(transcript).len() == 0 {
        Some(command_error("empty_content"@, empty_message))
    } else {
        None
    }
}

fn check_transcript(
    found: bool,
    providers: &Result<usize, String>,
    unavailable: CommandError,
    transcript: &str,
    empty_message: &str,
) -> (r: Result<(), CommandError>)
    ensures
        match transcript_problem(
            found,
            *providers,
            unavailable@,
            transcript@,
            empty_message@,
        ) {
            None => r is Ok,
            Some(e) => r is Err && r->Err_0@ == e,
        },
{
    if !found {
        return Err(CommandError::new("not_found", "artifact not found"));
    }
    match check_providers(providers, unavailable) {
        Ok(()) => {},
        Err(error) => {
            return Err(error);
        },
    }
    if trim_text(transcript).as_str().is_empty() {
        return Err(CommandError::new("empty_content", empty_message));
    }
    Ok(())
}

/// Checks a request for a summary, and writes its instructions. The transcript is as the AI is
/// shown it.
pub fn summarize_artifact(
    payload: &SummarizeArtifactPayload,
    found: bool,
    output_language: &str,
    providers: &Result<usize, String>,
    unavailable: CommandError,
    transcript: &str,
) -> (r: Result<String, CommandError>)
    ensures
        match transcript_problem(
            found,
            *providers,
            unavailable@,
            transcript@,
            "no transcription available to summarize"@,
        ) {
            None => r is Ok && r->Ok_0@ == join(
                summary_lines(*payload, output_language@),
                "\n\n"@,
            ),
            Some(e) => r is Err && r->Err_0@ == e,
        },
{
    match check_transcript(
        found,
        providers,
        unavailable,
        transcript,
        "no transcription available to summarize",
    ) {
        Ok(()) => Ok(build_summary_instructions(payload, output_language)),
        Err(error) => Err(error),
    }
}

/// Checks a request for a pack, and writes its instructions.
pub fn generate_artifact_pack(
    payload: &GenerateArtifactPackPayload,
    found: bool,
    output_language: &str,
    providers: &Result<usize, String>,
    unavailable: CommandError,
    transcript: &str,
) -> (r: Result<String, CommandError>)
    ensures
        match transcript_problem(
            found,
            *providers,
            unavailable@,
            transcript@,
            "no transcription available to summarize"@,
        ) {
            None => r is Ok && r->Ok_0@ == pack_instructions(
                payload.kind,
                output_language@,
                payload.context.include_timestamps,
                payload.context.include_speakers,
            ),
            Some(e) => r is Err && r->Err_0@ == e,
        },
{
    match check_transcript(
        found,
        providers,
        unavailable,
        transcript,
        "no transcription available to summarize",
    ) {
        Ok(()) => Ok(
            build_generated_pack_instructions(
                payload.kind,
                output_language,
                payload.context.include_timestamps,
                payload.context.include_speakers,
            ),
        ),
        Err(error) => Err(error),
    }
}

/// Makes a pack of what the AI wrote.
pub fn finish_artifact_pack(
    payload: &GenerateArtifactPackPayload,
    body_markdown: String,
    generated_at: String,
) -> (r: GeneratedArtifactPack)
    ensures
        r.kind == payload.kind,
        r.body_markdown@ == body_markdown@,
        r.generated_at@ == generated_at@,
{
    GeneratedArtifactPack { kind: payload.kind, generated_at, body_markdown }
}

/// Checks a request to analyze the emotions of a transcript.
pub fn analyze_artifact_emotions(
    found: bool,
    providers: &Result<usize, String>,
    unavailable: CommandError,
    transcript: &str,
) -> (r: Result<(), CommandError>)
    ensures
        match transcript_problem(
            found,
            *providers,
            unavailable@,
            transcript@,
            "no transcription available to analyze"@,
        ) {
            None => r is Ok,
            Some(e) => r is Err && r->Err_0@ == e,
        },
{
    check_transcript(
        found,
        providers,
        unavailable,
        transcript,
        "no transcription available to analyze",
    )
}

// ---------------------------------------------------------------------------
// Listing
// ---------------------------------------------------------------------------

/// A query of the stored artifacts.
#[derive(Debug)]
pub struct ArtifactQuery {
    pub kind: Option<ArtifactKind>,
    pub query: Option<String>,
    pub limit: Option<usize>,
    pub offset: Option<usize>,
}

/// The number of artifacts that are listed when nothing is asked for.
pub const DEFAULT_LIST_LIMIT: usize = 100;

/// Whether a query is the one that a payload asks for: without a payload, the first page of all.
pub open spec fn asks_for(query: ArtifactQuery, payload: Option<ListArtifactsPayload>) -> bool {
    match payload {
        Some(p) => {
            &&& query.kind == p.kind
            &&& opt_view(query.query) == opt_view(p.query)
            &&& query.limit == p.limit
            &&& query.offset == p.offset
        },
        None => {
            &&& query.kind is None
            &&& query.query is None
            &&& query.limit == Some(DEFAULT_LIST_LIMIT)
            &&& query.offset == Some(0usize)
        },
    }
}

/// The query that lists artifacts.
pub fn list_artifacts(payload: Option<ListArtifactsPayload>) -> (r: ArtifactQuery)
    ensures
        asks_for(r, payload),
        payload matches Some(p) ==> r.kind == p.kind && r.limit == p.limit && r.offset == p.offset
            && opt_view(r.query) == opt_view(p.query),
        payload is None ==> r.kind is None && r.query is None && r.limit == Some(100usize) && r.offset
            == Some(0usize),
{
    match payload {
        Some(p) => ArtifactQuery {
            kind: p.kind,
            query: p.query,
            limit: p.limit,
            offset: p.offset,
        },
        None => ArtifactQuery {
            kind: None,
            query: None,
            limit: Some(DEFAULT_LIST_LIMIT),
            offset: Some(0),
        },
    }
}

/// The days after which an artifact in the trash is deleted for good, before the trash is listed.
pub const DELETED_KEEP_DAYS: u32 = 30;

/// The query that lists the trash.
pub fn list_deleted_artifacts(payload: Option<ListArtifactsPayload>) -> (r: ArtifactQuery)
    ensures
        asks_for(r, payload),
{
    list_artifacts(payload)
}

/// The query that lists the latest artifacts.
pub fn list_recent_artifacts(limit: Option<usize>) -> (r: ArtifactQuery)
    ensures
        r.kind is None,
        r.query is None,
        r.limit == limit,
        r.offset == Some(0usize),
{
    ArtifactQuery { kind: None, query: None, limit, offset: Some(0) }
}

/// The query that lists the saved live sessions.
pub fn list_realtime_sessions() -> (r: ArtifactQuery)
    ensures
        r.kind == Some(ArtifactKind::Realtime),
        r.query is None,
        r.limit == Some(DEFAULT_LIST_LIMIT),
        r.offset == Some(0usize),
{
    ArtifactQuery {
        kind: Some(ArtifactKind::Realtime),
        query: None,
        limit: Some(DEFAULT_LIST_LIMIT),
        offset: Some(0),
    }
}

/// The audio of an artifact, where it is kept.
pub fn read_artifact_audio(bytes: Option<Vec<u8>>) -> (r: Result<Vec<u8>, CommandError>)
    ensures
        match bytes {
            Some(b) => r == Ok::<Vec<u8>, CommandError>(b),
            None => r is Err && r->Err_0@ == command_error(
                "audio"@,
                "artifact audio is not available"@,
            ),
        },
{
    match bytes {
        Some(b) => Ok(b),
        None => Err(CommandError::new("audio", "artifact audio is not available")),
    }
}

// ---------------------------------------------------------------------------
// The trash
// ---------------------------------------------------------------------------

/// The number of artifacts of a page.
pub const DELETED_PAGE_SIZE: usize = 500;

/// Takes a page of the trash: adds its artifacts to those to delete, and says whether there may be
/// another page, which then starts after those that were taken.
pub fn empty_deleted_artifacts(ids: &mut Vec<String>, page: &Vec<String>) -> (r: bool)
    ensures
        views(final(ids)@) == views(old(ids)@) + views(page@),
        r == (page@.len() >= DELETED_PAGE_SIZE),
{
    let ghost start = views(ids@);
    let mut i: usize = 0;
    while i < page.len()
        invariant
            i <= page@.len(),
            views(ids@) =~= start + views(page@).take(i as int),
        decreases page@.len() - i,
    {
        let ghost prior = views(ids@);
        let id: String = page[i].clone();
        ids.push(id);
        assert(views(ids@) =~= prior.push(id@));
        i = i + 1;
    }
    assert(views(page@).take(i as int) =~= views(page@));
    page.len() >= DELETED_PAGE_SIZE
}

/// Something is made of a transcript exactly when it was found, an AI is there and it says anything; what
/// was not found is told first, and an empty transcript last.
pub proof fn a_request_needs_a_transcript_and_an_ai(
    found: bool,
    providers: Result<usize, String>,
    unavailable: CommandErrorView,
    transcript: Seq<char>,
    empty_message: Seq<char>,
)
    ensures
        ({
            let p = transcript_problem(found, providers, unavailable, transcript, empty_message);
            &&& p is None <==> found && provider_problem(providers, unavailable) is None && inked(
                transcript,
            ).len() > 0
            &&& !found ==> p->0.code == "not_found"@
            &&& found && provider_problem(providers, unavailable) is None && inked(transcript).len()
                == 0 ==> p->0 == command_error("empty_content"@, empty_message)
        }),
{
    trimming_takes_white_only(transcript);
    lemma_inked_edge(trim(transcript));
}

} // verus!
