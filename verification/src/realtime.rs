//! Live sessions: when one may start, how it is stopped, and what is saved of it.

use vstd::prelude::*;
use vstd::string::*;

use crate::domain::{
    ArtifactKind, ArtifactSourceOrigin, TranscriptionComputeDevice, TranscriptionEngine,
};
use crate::error::{
    command_error, ApplicationError, ApplicationErrorView, CommandError, CommandErrorView,
};
use crate::paths::{
    file_name, is_same_path, join_path, joined, parent, parent_path, path_file_name, same_path,
    PathStyle,
};
use crate::text::{
    a_join_holds_its_parts_in_order, cat3, contains, decimal, in_order, inked, join, join_texts,
    lemma_contains_middle, lemma_inked_edge, list_contains, opt_view, push_decimal, same_text,
    starts_with, trim, trim_text, trimming_takes_white_only, views,
};
use crate::text_map::TextMap;

verus! {

/// The input path under which live sessions are reported.
pub const REALTIME_INPUT_PATH: &'static str = "realtime://microphone";

/// The source under which live sessions are reported.
pub const REALTIME_SOURCE_LABEL: &'static str = "Live microphone";

// ---------------------------------------------------------------------------
// Stops in progress
// ---------------------------------------------------------------------------

/// The sessions whose stop has not finished, oldest first. No session occurs twice.
pub struct RealtimeStops {
    pub jobs: Vec<String>,
}

/// A reservation of a session's stop.
#[derive(Debug)]
pub struct RealtimeStopMarker {
    pub job_id: String,
}

impl RealtimeStops {
    /// The sessions whose stop has not finished.
    pub open spec fn ids(&self) -> Seq<Seq<char>> {
        views(self.jobs@)
    }

    /// No session occurs twice.
    pub open spec fn wf(&self) -> bool {
        self.ids().no_duplicates()
    }

    /// No stop is in progress.
    pub fn new() -> (r: RealtimeStops)
        ensures
            r.wf(),
            r.ids() == Seq::<Seq<char>>::empty(),
    {
        let r = RealtimeStops { jobs: Vec::new() };
        assert(r.ids() =~= Seq::empty());
        r
    }
}

/// The error for a stop that is still in progress, with or without its session's name.
pub open spec fn stop_in_progress(job_id: Option<Seq<char>>) -> CommandErrorView {
    command_error(
        "realtime_stop_in_progress"@,
        match job_id {
            Some(id) => "Realtime stop/finalization is already in progress for session '"@ + id
                + "'; retry after it finishes."@,
            None =>
                "Realtime stop/finalization is still in progress; wait for it to finish before starting another live session."@,
        },
    )
}

/// Makes the error for a stop that is still in progress.
pub fn stop_in_progress_error(job_id: Option<&str>) -> (r: CommandError)
    ensures
        r@ == stop_in_progress(
            match job_id {
                Some(id) => Some(id@),
                None => None,
            },
        ),
{
    match job_id {
        Some(id) => CommandError::new(
            "realtime_stop_in_progress",
            cat3(
                "Realtime stop/finalization is already in progress for session '",
                id,
                "'; retry after it finishes.",
            ).as_str(),
        ),
        None => CommandError::new(
            "realtime_stop_in_progress",
            "Realtime stop/finalization is still in progress; wait for it to finish before starting another live session.",
        ),
    }
}

/// Refuses to go on while any stop is in progress, naming the oldest.
pub fn reject_if_realtime_stop_in_progress(stops: &RealtimeStops) -> (r: Result<(), CommandError>)
    ensures
        r is Ok <==> stops.ids().len() == 0,
        r is Err ==> r->Err_0@ == stop_in_progress(Some(stops.ids()[0])),
{
    if stops.jobs.len() == 0 {
        Ok(())
    } else {
        Err(stop_in_progress_error(Some(stops.jobs[0].as_str())))
    }
}

/// Reserves the stop of a session. Of two reservations for one session only the first succeeds,
/// until it is released.
pub fn reserve_realtime_stop(stops: &mut RealtimeStops, job_id: &str) -> (r: Result<
    RealtimeStopMarker,
    CommandError,
>)
    requires
        old(stops).wf(),
    ensures
        final(stops).wf(),
        r is Ok <==> !old(stops).ids().contains(job_id@),
        r is Ok ==> r->Ok_0.job_id@ == job_id@ && final(stops).ids() == old(stops).ids().push(
            job_id@,
        ),
        r is Err ==> r->Err_0@ == stop_in_progress(Some(job_id@)) && final(stops).ids() == old(
            stops,
        ).ids(),
{
    if list_contains(&stops.jobs, job_id) {
        return Err(stop_in_progress_error(Some(job_id)));
    }
    let ghost before = stops.ids();
    stops.jobs.push(job_id.to_owned());
    proof {
        assert(stops.ids() =~= before.push(job_id@));
        assert forall|i: int, j: int|
            0 <= i < stops.ids().len() && 0 <= j < stops.ids().len() && i
                != j implies stops.ids()[i] != stops.ids()[j] by {
            if i == before.len() {
                assert(before[j] == stops.ids()[j]);
            } else if j == before.len() {
                assert(before[i] == stops.ids()[i]);
            }
        }
    }
    Ok(RealtimeStopMarker { job_id: job_id.to_owned() })
}

/// Releases the reservation of a session's stop.
pub fn release_realtime_stop(stops: &mut RealtimeStops, marker: RealtimeStopMarker)
    requires
        old(stops).wf(),
    ensures
        final(stops).wf(),
        !final(stops).ids().contains(marker.job_id@),
        forall|id: Seq<char>|
            id != marker.job_id@ ==> (#[trigger] final(stops).ids().contains(id) <==> old(
                stops,
            ).ids().contains(id)),
{
    let ghost before = stops.ids();
    let mut i: usize = 0;
    while i < stops.jobs.len()
        invariant
            i <= stops.jobs@.len(),
            stops.ids() == before,
            before == old(stops).ids(),
            before.no_duplicates(),
            forall|k: int| 0 <= k < i ==> #[trigger] before[k] != marker.job_id@,
        decreases stops.jobs@.len() - i,
    {
        if same_text(stops.jobs[i].as_str(), marker.job_id.as_str()) {
            let removed: String = stops.jobs.remove(i);
            proof {
                assert(before[i as int] == marker.job_id@);
                assert(stops.ids() =~= before.remove(i as int));
                let now = stops.ids();
                assert forall|id: Seq<char>| id != marker.job_id@ implies (#[trigger] now.contains(
                    id,
                ) <==> before.contains(id)) by {
                    if before.contains(id) {
                        let k = choose|k: int| 0 <= k < before.len() && before[k] == id;
                        if k < i {
                            assert(now[k] == id);
                        } else {
                            assert(now[k - 1] == id);
                        }
                    }
                    if now.contains(id) {
                        let k = choose|k: int| 0 <= k < now.len() && now[k] == id;
                        if k < i {
                            assert(before[k] == id);
                        } else {
                            assert(before[k + 1] == id);
                        }
                    }
                }
                assert(!now.contains(marker.job_id@)) by {
                    if now.contains(marker.job_id@) {
                        let k = choose|k: int| 0 <= k < now.len() && now[k] == marker.job_id@;
                        if k < i {
                            assert(before[k] == now[k]);
                        } else {
                            assert(before[k + 1] == now[k]);
                        }
                    }
                }
                assert(now.no_duplicates()) by {
                    assert forall|a: int, b: int|
                        0 <= a < now.len() && 0 <= b < now.len() && a != b implies now[a]
                        != now[b] by {
                        let x = if a < i { a } else { a + 1 };
                        let y = if b < i { b } else { b + 1 };
                        assert(before[x] == now[a]);
                        assert(before[y] == now[b]);
                    }
                }
            }
            return ;
        }
        i = i + 1;
    }
}

// ---------------------------------------------------------------------------
// Parakeet live
// ---------------------------------------------------------------------------

/// Refuses a Parakeet live session, on every device: none keeps real time.
pub fn ensure_parakeet_live_device_supported(device: TranscriptionComputeDevice) -> (r: Result<
    (),
    CommandError,
>)
    ensures
        r is Err,
        r->Err_0@ == parakeet_live_unsupported(),
        r->Err_0.code@ == "parakeet_live_realtime_unsupported"@,
{
    Err(
        CommandError::new(
            "parakeet_live_realtime_unsupported",
            "Parakeet live is temporarily disabled because the packaged streaming models cannot keep real time on the validated computers. Sbobino uses Whisper for live sessions; Parakeet file transcription remains available.",
        ),
    )
}

/// The error for a Parakeet live session.
pub open spec fn parakeet_live_unsupported() -> CommandErrorView {
    command_error(
        "parakeet_live_realtime_unsupported"@,
        "Parakeet live is temporarily disabled because the packaged streaming models cannot keep real time on the validated computers. Sbobino uses Whisper for live sessions; Parakeet file transcription remains available."@,
    )
}

/// The platform that a live library is looked for on.
#[derive(Clone, Copy, PartialEq, Eq, Structural, Debug)]
pub enum ParakeetLiveLibraryPlatform {
    MacOs,
    Windows,
}

impl ParakeetLiveLibraryPlatform {
    /// The platform of a host.
    pub fn current(is_windows: bool) -> (r: ParakeetLiveLibraryPlatform)
        ensures
            r == if is_windows {
                ParakeetLiveLibraryPlatform::Windows
            } else {
                ParakeetLiveLibraryPlatform::MacOs
            },
    {
        if is_windows {
            ParakeetLiveLibraryPlatform::Windows
        } else {
            ParakeetLiveLibraryPlatform::MacOs
        }
    }

    /// The name of the library.
    pub open spec fn filename(self) -> Seq<char> {
        match self {
            ParakeetLiveLibraryPlatform::MacOs => "libparakeet.dylib"@,
            ParakeetLiveLibraryPlatform::Windows => "parakeet.dll"@,
        }
    }

    /// Names the library.
    pub fn library_filename(self) -> (r: &'static str)
        ensures
            r@ == self.filename(),
    {
        match self {
            ParakeetLiveLibraryPlatform::MacOs => "libparakeet.dylib",
            ParakeetLiveLibraryPlatform::Windows => "parakeet.dll",
        }
    }
}

/// The places at which a platform's layout puts the library, before those that hold for both.
pub open spec fn layout_candidates(
    style: PathStyle,
    platform: ParakeetLiveLibraryPlatform,
    bin: Seq<char>,
    in_bin: bool,
    root: Option<Seq<char>>,
) -> Seq<Seq<char>> {
    match platform {
        ParakeetLiveLibraryPlatform::Windows => seq![joined(style, bin, "parakeet.dll"@)] + (if in_bin {
            seq![joined(style, bin, "../lib/parakeet.dll"@)] + (match root {
                Some(r) => seq![
                    joined(style, r, "lib/parakeet.dll"@),
                    joined(style, r, "parakeet.dll"@),
                    joined(style, r, "../lib/parakeet.dll"@),
                ],
                None => Seq::empty(),
            })
        } else {
            match root {
                Some(r) => seq![joined(style, r, "lib/parakeet.dll"@), joined(style, r, "parakeet.dll"@)],
                None => Seq::empty(),
            }
        }),
        ParakeetLiveLibraryPlatform::MacOs => if in_bin {
            seq![joined(style, bin, "../lib/libparakeet.dylib"@)] + (match root {
                Some(r) => seq![
                    joined(style, r, "lib/libparakeet.dylib"@),
                    joined(style, r, "libparakeet.dylib"@),
                    joined(style, r, "../lib/libparakeet.dylib"@),
                ],
                None => Seq::empty(),
            })
        } else {
            seq![joined(style, bin, "libparakeet.dylib"@)] + (match root {
                Some(r) => seq![
                    joined(style, r, "lib/libparakeet.dylib"@),
                    joined(style, r, "libparakeet.dylib"@),
                ],
                None => Seq::empty(),
            })
        },
    }
}

/// All the places at which the library is looked for, in order.
pub open spec fn all_candidates(
    style: PathStyle,
    platform: ParakeetLiveLibraryPlatform,
    bin: Seq<char>,
    in_bin: bool,
    root: Option<Seq<char>>,
) -> Seq<Seq<char>> {
    layout_candidates(style, platform, bin, in_bin, root) + seq![joined(style, bin, platform.filename())] + (
    match root {
        Some(r) => seq![joined(style, joined(style, r, "lib"@), platform.filename())],
        None => Seq::empty(),
    })
}

/// Whether a list holds a path, however it is written there.
pub open spec fn holds_path(style: PathStyle, list: Seq<Seq<char>>, path: Seq<char>) -> bool {
    exists|i: int| 0 <= i < list.len() && same_path(style, #[trigger] list[i], path)
}

/// The first occurrences of the paths of a list, in order.
pub open spec fn distinct(style: PathStyle, list: Seq<Seq<char>>) -> Seq<Seq<char>>
    decreases list.len(),
{
    if list.len() == 0 {
        list
    } else {
        let front = distinct(style, list.drop_last());
        if holds_path(style, front, list.last()) {
            front
        } else {
            front.push(list.last())
        }
    }
}

fn lists_path(style: PathStyle, list: &Vec<String>, path: &str) -> (r: bool)
    ensures
        r == holds_path(style, views(list@), path@),
{
    let mut i: usize = 0;
    while i < list.len()
        invariant
            i <= list@.len(),
            forall|k: int| 0 <= k < i ==> !same_path(style, #[trigger] views(list@)[k], path@),
        decreases list@.len() - i,
    {
        assert(views(list@)[i as int] == list@[i as int]@);
        if is_same_path(style, list[i].as_str(), path) {
            return true;
        }
        i = i + 1;
    }
    false
}

fn push_candidate(
    style: PathStyle,
    list: &mut Vec<String>,
    Ghost(all): Ghost<Seq<Seq<char>>>,
    candidate: String,
)
    requires
        views(old(list)@) == distinct(style, all),
    ensures
        views(final(list)@) == distinct(style, all.push(candidate@)),
{
    let ghost before = views(list@);
    assert(all.push(candidate@).drop_last() =~= all);
    if !lists_path(style, list, candidate.as_str()) {
        list.push(candidate);
        assert(views(list@) =~= before.push(candidate@));
    }
}

/// Lists the places at which the library of a command-line tool is looked for, each once. A tool
/// without a directory leaves the bare name.
pub fn resolve_parakeet_live_library_path(
    parakeet_cli_path: &str,
    platform: ParakeetLiveLibraryPlatform,
    style: PathStyle,
) -> (r: Vec<String>)
    ensures
        views(r@) == match parent(style, parakeet_cli_path@) {
            None => seq![platform.filename()],
            Some(bin) => distinct(
                style,
                all_candidates(
                    style,
                    platform,
                    bin,
                    file_name(style, bin) == Some("bin"@),
                    parent(style, bin),
                ),
            ),
        },
        r@.len() > 0,
{
    let mut list: Vec<String> = Vec::new();
    let dir: String = match parent_path(style, parakeet_cli_path) {
        None => {
            list.push(platform.library_filename().to_owned());
            assert(views(list@) =~= seq![platform.filename()]);
            return list;
        },
        Some(dir) => dir,
    };
    let bin: &str = dir.as_str();
    let in_bin: bool = match path_file_name(style, bin) {
        Some(name) => same_text(name.as_str(), "bin"),
        None => false,
    };
    let above: Option<String> = parent_path(style, bin);
    let ghost mut all: Seq<Seq<char>> = Seq::empty();
    assert(views(list@) =~= distinct(style, all));
    let ghost root_view = opt_view(above);
    match platform {
        ParakeetLiveLibraryPlatform::Windows => {
            let c: String = join_path(style, bin, "parakeet.dll");
            push_candidate(style, &mut list, Ghost(all), c);
            proof {
                all = all.push(joined(style, bin@, "parakeet.dll"@));
            }
            if in_bin {
                let c: String = join_path(style, bin, "../lib/parakeet.dll");
                push_candidate(style, &mut list, Ghost(all), c);
                proof {
                    all = all.push(joined(style, bin@, "../lib/parakeet.dll"@));
                }
                if let Some(root) = &above {
                    let c: String = join_path(style, root.as_str(), "lib/parakeet.dll");
                    push_candidate(style, &mut list, Ghost(all), c);
                    proof {
                        all = all.push(joined(style, root@, "lib/parakeet.dll"@));
                    }
                    let c: String = join_path(style, root.as_str(), "parakeet.dll");
                    push_candidate(style, &mut list, Ghost(all), c);
                    proof {
                        all = all.push(joined(style, root@, "parakeet.dll"@));
                    }
                    let c: String = join_path(style, root.as_str(), "../lib/parakeet.dll");
                    push_candidate(style, &mut list, Ghost(all), c);
                    proof {
                        all = all.push(joined(style, root@, "../lib/parakeet.dll"@));
                    }
                }
            } else {
                if let Some(root) = &above {
                    let c: String = join_path(style, root.as_str(), "lib/parakeet.dll");
                    push_candidate(style, &mut list, Ghost(all), c);
                    proof {
                        all = all.push(joined(style, root@, "lib/parakeet.dll"@));
                    }
                    let c: String = join_path(style, root.as_str(), "parakeet.dll");
                    push_candidate(style, &mut list, Ghost(all), c);
                    proof {
                        all = all.push(joined(style, root@, "parakeet.dll"@));
                    }
                }
            }
        },
        ParakeetLiveLibraryPlatform::MacOs => {
            if in_bin {
                let c: String = join_path(style, bin, "../lib/libparakeet.dylib");
                push_candidate(style, &mut list, Ghost(all), c);
                proof {
                    all = all.push(joined(style, bin@, "../lib/libparakeet.dylib"@));
                }
                if let Some(root) = &above {
                    let c: String = join_path(style, root.as_str(), "lib/libparakeet.dylib");
                    push_candidate(style, &mut list, Ghost(all), c);
                    proof {
                        all = all.push(joined(style, root@, "lib/libparakeet.dylib"@));
                    }
                    let c: String = join_path(style, root.as_str(), "libparakeet.dylib");
                    push_candidate(style, &mut list, Ghost(all), c);
                    proof {
                        all = all.push(joined(style, root@, "libparakeet.dylib"@));
                    }
                    let c: String = join_path(style, root.as_str(), "../lib/libparakeet.dylib");
                    push_candidate(style, &mut list, Ghost(all), c);
                    proof {
                        all = all.push(joined(style, root@, "../lib/libparakeet.dylib"@));
                    }
                }
            } else {
                let c: String = join_path(style, bin, "libparakeet.dylib");
                push_candidate(style, &mut list, Ghost(all), c);
                proof {
                    all = all.push(joined(style, bin@, "libparakeet.dylib"@));
                }
                if let Some(root) = &above {
                    let c: String = join_path(style, root.as_str(), "lib/libparakeet.dylib");
                    push_candidate(style, &mut list, Ghost(all), c);
                    proof {
                        all = all.push(joined(style, root@, "lib/libparakeet.dylib"@));
                    }
                    let c: String = join_path(style, root.as_str(), "libparakeet.dylib");
                    push_candidate(style, &mut list, Ghost(all), c);
                    proof {
                        all = all.push(joined(style, root@, "libparakeet.dylib"@));
                    }
                }
            }
        },
    }
    assert(all =~= layout_candidates(style, platform, bin@, in_bin, root_view));
    let c: String = join_path(style, bin, platform.library_filename());
    push_candidate(style, &mut list, Ghost(all), c);
    proof {
        all = all.push(joined(style, bin@, platform.filename()));
    }
    if let Some(root) = &above {
        let dir: String = join_path(style, root.as_str(), "lib");
        let c: String = join_path(style, dir.as_str(), platform.library_filename());
        push_candidate(style, &mut list, Ghost(all), c);
        proof {
            all = all.push(joined(style, joined(style, root@, "lib"@), platform.filename()));
        }
    }
    assert(all =~= all_candidates(style, platform, bin@, in_bin, root_view));
    proof {
        lemma_distinct_not_empty(style, all);
        assert(views(list@).len() == list@.len());
    }
    list
}

proof fn lemma_distinct_not_empty(style: PathStyle, list: Seq<Seq<char>>)
    requires
        list.len() > 0,
    ensures
        distinct(style, list).len() > 0,
    decreases list.len(),
{
    if list.len() > 1 {
        lemma_distinct_not_empty(style, list.drop_last());
    }
}

/// Chooses the library among its candidates: the first that exists, else the first, so that the
/// loader's error names the place that is expected. `existing` says which candidates exist.
pub fn resolve_parakeet_live_library_path_for_platform(
    candidates: &Vec<String>,
    existing: &Vec<bool>,
) -> (r: usize)
    requires
        candidates@.len() > 0,
        existing@.len() == candidates@.len(),
    ensures
        r < candidates@.len(),
        existing@.contains(true) ==> existing@[r as int] && forall|k: int|
            0 <= k < r ==> !#[trigger] existing@[k],
        !existing@.contains(true) ==> r == 0,
{
    let mut i: usize = 0;
    while i < existing.len()
        invariant
            i <= existing@.len(),
            existing@.len() == candidates@.len(),
            forall|k: int| 0 <= k < i ==> !#[trigger] existing@[k],
        decreases existing@.len() - i,
    {
        if existing[i] {
            assert(existing@[i as int]);
            return i;
        }
        i = i + 1;
    }
    0
}

/// The language that a live session is started with, whatever is preferred.
pub fn parakeet_live_target_lang() -> (r: &'static str)
    ensures
        r@ == "auto"@,
{
    "auto"
}

/// A model that a live session could use.
pub struct LiveModel {
    pub filename: String,
    pub multilingual_streaming: bool,
    pub installed: bool,
}

/// The model of a live session.
#[derive(Clone, Copy, PartialEq, Eq, Structural, Debug)]
pub enum LiveModelChoice {
    /// The one that was asked for.
    Requested,
    /// The one at this position of the list of live models.
    Candidate(usize),
}

/// Chooses the model of a live session: the one that was asked for when it streams and is
/// installed, else the first of the live models that is installed.
pub fn select_parakeet_live_model(
    models_dir: &str,
    requested: &LiveModel,
    live_candidates: &Vec<LiveModel>,
) -> (r: Result<LiveModelChoice, ApplicationError>)
    ensures
        ({
            let usable = requested.multilingual_streaming && requested.installed;
            let any = exists|i: int|
                0 <= i < live_candidates@.len() && (#[trigger] live_candidates@[i]).installed;
            &&& r is Ok <==> usable || any
            &&& usable ==> r->Ok_0 == LiveModelChoice::Requested
            &&& !usable && any ==> {
                &&& r->Ok_0 is Candidate
                &&& r->Ok_0->Candidate_0 < live_candidates@.len()
                &&& live_candidates@[r->Ok_0->Candidate_0 as int].installed
                &&& forall|k: int|
                    0 <= k < r->Ok_0->Candidate_0 ==> !(#[trigger] live_candidates@[k]).installed
            }
            &&& r is Err ==> r->Err_0@ == ApplicationErrorView::SpeechToText(
                "Parakeet live requires the NVIDIA Nemotron live model in "@ + models_dir@
                    + ". Install it from Settings > Local Models."@,
            )
        }),
{
    if requested.multilingual_streaming && requested.installed {
        return Ok(LiveModelChoice::Requested);
    }
    let mut i: usize = 0;
    while i < live_candidates.len()
        invariant
            i <= live_candidates@.len(),
            !(requested.multilingual_streaming && requested.installed),
            forall|k: int| 0 <= k < i ==> !(#[trigger] live_candidates@[k]).installed,
        decreases live_candidates@.len() - i,
    {
        if live_candidates[i].installed {
            assert(live_candidates@[i as int].installed);
            return Ok(LiveModelChoice::Candidate(i));
        }
        i = i + 1;
    }
    Err(
        ApplicationError::SpeechToText(
            cat3(
                "Parakeet live requires the NVIDIA Nemotron live model in ",
                models_dir,
                ". Install it from Settings > Local Models.",
            ),
        ),
    )
}

/// Chooses what to say when the engine cannot be built: an error where the managed runtime is
/// required, else the configured paths are used as they are.
pub fn resolve_realtime_engine(build_error: &Option<String>, managed_runtime_required: bool) -> (r:
    Result<bool, ApplicationError>)
    ensures
        r is Err <==> build_error is Some && managed_runtime_required,
        r is Err ==> r->Err_0@ == ApplicationErrorView::SpeechToText(build_error->0@),
        r is Ok ==> r->Ok_0 == (build_error is None),
{
    match build_error {
        None => Ok(true),
        Some(error) => {
            if managed_runtime_required {
                Err(ApplicationError::SpeechToText(error.clone()))
            } else {
                Ok(false)
            }
        },
    }
}

/// Checks that the live library is there.
pub fn resolve_parakeet_live_runtime_paths(lib_path: &str, lib_exists: bool) -> (r: Result<
    (),
    ApplicationError,
>)
    ensures
        r is Ok <==> lib_exists,
        r is Err ==> r->Err_0@ == ApplicationErrorView::SpeechToText(
            "Parakeet live library not found at "@ + lib_path@
                + ". Reinstall the local runtime from Settings > Local Models."@,
        ),
{
    if lib_exists {
        return Ok(());
    }
    Err(
        ApplicationError::SpeechToText(
            cat3(
                "Parakeet live library not found at ",
                lib_path,
                ". Reinstall the local runtime from Settings > Local Models.",
            ),
        ),
    )
}

// ---------------------------------------------------------------------------
// Sessions
// ---------------------------------------------------------------------------

/// A title without the space around it, if anything is left.
pub open spec fn cleaned_title(title: Option<Seq<char>>) -> Option<Seq<char>> {
    match title {
        Some(t) if trim(t).len() > 0 => Some(trim(t)),
        _ => None,
    }
}

/// Cleans a title.
pub fn clean_optional_title(title: &Option<String>) -> (r: Option<String>)
    ensures
        opt_view(r) == cleaned_title(opt_view(*title)),
{
    match title {
        None => None,
        Some(value) => {
            let cleaned: String = trim_text(value.as_str());
            if cleaned.as_str().is_empty() {
                None
            } else {
                Some(cleaned)
            }
        },
    }
}

/// What is asked of a session when it starts.
pub struct StartRealtimePayload {
    pub engine: Option<TranscriptionEngine>,
    pub model: Option<String>,
    pub parakeet_model: Option<String>,
    pub language: Option<String>,
    pub resume_artifact_id: Option<String>,
    pub title: Option<String>,
}

/// The answer to a start.
#[derive(Debug)]
pub struct StartRealtimeResponse {
    pub started: bool,
    pub job_id: String,
}

/// What is asked of a session when it stops.
#[derive(Debug)]
pub struct StopRealtimePayload {
    pub save: Option<bool>,
    pub title: Option<String>,
    pub elapsed_seconds: Option<u64>,
}

/// A change of a session's state.
#[derive(Debug)]
pub struct RealtimeStatusEvent {
    pub state: String,
    pub message: String,
}

/// The live session that the commands know of.
pub struct RealtimeSession {
    pub active_job_id: Option<String>,
    pub session_name: Option<String>,
    pub model_filename: Option<String>,
    pub model: Option<String>,
    pub language: Option<String>,
    pub language_code: String,
    pub active_engine: TranscriptionEngine,
    /// The handle of the Parakeet engine, while there is one.
    pub parakeet_engine: Option<u64>,
}

impl RealtimeSession {
    /// The session's description is gone.
    pub open spec fn cleared(&self) -> bool {
        &&& self.active_job_id is None
        &&& self.session_name is None
        &&& self.model_filename is None
        &&& self.model is None
        &&& self.language is None
    }

    /// Whether a job is the session's own.
    pub open spec fn is_current(&self, job_id: Seq<char>) -> bool {
        opt_view(self.active_job_id) == Some(job_id)
    }

    /// Whether a job is the session's own, or there is no session.
    pub open spec fn belongs_to(&self, job_id: Seq<char>) -> bool {
        self.active_job_id matches Some(id) ==> id@ == job_id
    }
}

/// A session's description is gone, and nothing else has changed.
pub open spec fn forgotten(before: RealtimeSession, after: RealtimeSession) -> bool {
    &&& after.cleared()
    &&& after.parakeet_engine == before.parakeet_engine
    &&& after.active_engine == before.active_engine
    &&& after.language_code == before.language_code
}

/// Forgets the session's description. The engine and the language code stay.
pub fn clear_active_realtime_metadata(session: &mut RealtimeSession)
    ensures
        forgotten(*old(session), *final(session)),
{
    session.active_job_id = None;
    session.session_name = None;
    session.model_filename = None;
    session.model = None;
    session.language = None;
}

fn session_belongs_to(session: &RealtimeSession, job_id: &str) -> (r: bool)
    ensures
        r == session.belongs_to(job_id@),
{
    match &session.active_job_id {
        Some(id) => same_text(id.as_str(), job_id),
        None => true,
    }
}

/// Retires the session of a job whose engine has stopped. A newer session is left alone.
pub fn clear_completed_realtime_session(
    session: &mut RealtimeSession,
    active_engine: TranscriptionEngine,
    job_id: &str,
)
    ensures
        !old(session).belongs_to(job_id@) ==> *final(session) == *old(session),
        old(session).belongs_to(job_id@) ==> {
            &&& final(session).cleared()
            &&& final(session).parakeet_engine == if active_engine
                == TranscriptionEngine::ParakeetCpp {
                None
            } else {
                old(session).parakeet_engine
            }
            &&& final(session).active_engine == old(session).active_engine
            &&& final(session).language_code == old(session).language_code
        },
{
    if !session_belongs_to(session, job_id) {
        return ;
    }
    clear_active_realtime_metadata(session);
    if active_engine == TranscriptionEngine::ParakeetCpp {
        session.parakeet_engine = None;
    }
}

/// Puts the engine of a job whose stop failed back, so that the stop can be tried again. That is
/// done only while the job is current: any other session, or none, is left alone.
pub fn retain_failed_parakeet_session(session: &mut RealtimeSession, job_id: &str, engine: u64)
    ensures
        old(session).is_current(job_id@) ==> *final(session) == (RealtimeSession {
            parakeet_engine: Some(engine),
            ..*old(session)
        }),
        !old(session).is_current(job_id@) ==> *final(session) == *old(session),
{
    let current: bool = match &session.active_job_id {
        Some(id) => same_text(id.as_str(), job_id),
        None => false,
    };
    if current {
        session.parakeet_engine = Some(engine);
    }
}

/// The error for a start while a session is active.
pub open spec fn session_active() -> CommandErrorView {
    command_error(
        "realtime_active"@,
        "A live session is already active or awaiting stop recovery; stop it before starting another session."@,
    )
}

/// Whether a session may start: no stop is in progress and no session is active.
pub open spec fn start_allowed(stops: RealtimeStops, session: RealtimeSession) -> bool {
    stops.ids().len() == 0 && session.active_job_id is None
}

/// Checks that a session may start: no stop is in progress and none is active.
pub fn ensure_realtime_start_allowed(stops: &RealtimeStops, session: &RealtimeSession) -> (r:
    Result<(), CommandError>)
    ensures
        r is Ok <==> start_allowed(*stops, *session),
        stops.ids().len() > 0 ==> r->Err_0@ == stop_in_progress(Some(stops.ids()[0])),
        stops.ids().len() == 0 && r is Err ==> r->Err_0@ == session_active(),
{
    if let Err(error) = reject_if_realtime_stop_in_progress(stops) {
        return Err(error);
    }
    if session.active_job_id.is_some() {
        return Err(
            CommandError::new(
                "realtime_active",
                "A live session is already active or awaiting stop recovery; stop it before starting another session.",
            ),
        );
    }
    Ok(())
}

/// The settings that a start falls back on.
pub struct RealtimeDefaults {
    pub engine: TranscriptionEngine,
    pub model: String,
    pub language: String,
}

/// What a session is started with.
pub struct RealtimeStart {
    pub engine: TranscriptionEngine,
    pub model: String,
    pub language: String,
    pub requested_title: Option<String>,
    pub resume_artifact_id: Option<String>,
}

/// The engine of a start.
pub open spec fn start_engine(
    payload: Option<StartRealtimePayload>,
    defaults: RealtimeDefaults,
) -> TranscriptionEngine {
    match payload {
        Some(p) if p.engine is Some => p.engine->0,
        _ => defaults.engine,
    }
}

/// Plans the start of a session. What the payload leaves open comes from the settings; a session
/// of the Parakeet engine is refused.
pub fn start_realtime(
    stops: &RealtimeStops,
    session: &RealtimeSession,
    payload: &Option<StartRealtimePayload>,
    defaults: &RealtimeDefaults,
    device: TranscriptionComputeDevice,
) -> (r: Result<RealtimeStart, CommandError>)
    ensures
        ({
            let allowed = start_allowed(*stops, *session);
            let engine = start_engine(*payload, *defaults);
            &&& r is Ok <==> allowed && engine == TranscriptionEngine::WhisperCpp
            &&& stops.ids().len() > 0 ==> r->Err_0@ == stop_in_progress(Some(stops.ids()[0]))
            &&& stops.ids().len() == 0 && !allowed ==> r->Err_0@ == session_active()
            &&& allowed && r is Err ==> r->Err_0@ == parakeet_live_unsupported()
            &&& r matches Ok(start) ==> {
                &&& start.engine == engine
                &&& start.model@ == (match payload {
                    Some(p) if p.model is Some => p.model->0@,
                    _ => defaults.model@,
                })
                &&& start.language@ == (match payload {
                    Some(p) if p.language is Some => p.language->0@,
                    _ => defaults.language@,
                })
                &&& opt_view(start.requested_title) == (match payload {
                    Some(p) => cleaned_title(opt_view(p.title)),
                    None => None,
                })
                &&& opt_view(start.resume_artifact_id) == (match payload {
                    Some(p) => opt_view(p.resume_artifact_id),
                    None => None,
                })
            }
        }),
{
    if let Err(error) = ensure_realtime_start_allowed(stops, session) {
        return Err(error);
    }
    match payload {
        None => {
            if defaults.engine == TranscriptionEngine::ParakeetCpp {
                if let Err(error) = ensure_parakeet_live_device_supported(device) {
                    return Err(error);
                }
            }
            Ok(
                RealtimeStart {
                    engine: defaults.engine,
                    model: defaults.model.clone(),
                    language: defaults.language.clone(),
                    requested_title: None,
                    resume_artifact_id: None,
                },
            )
        },
        Some(p) => {
            let engine: TranscriptionEngine = match p.engine {
                Some(chosen) => chosen,
                None => defaults.engine,
            };
            if engine == TranscriptionEngine::ParakeetCpp {
                if let Err(error) = ensure_parakeet_live_device_supported(device) {
                    return Err(error);
                }
            }
            Ok(
                RealtimeStart {
                    engine,
                    model: match &p.model {
                        Some(model) => model.clone(),
                        None => defaults.model.clone(),
                    },
                    language: match &p.language {
                        Some(language) => language.clone(),
                        None => defaults.language.clone(),
                    },
                    requested_title: clean_optional_title(&p.title),
                    resume_artifact_id: p.resume_artifact_id.clone(),
                },
            )
        },
    }
}

/// The title of a session that starts: the requested one, else that of the artifact that is
/// resumed, else the fallback. `resumed` is `Some(None)` for an artifact that was not found.
pub fn realtime_session_title(
    requested: &Option<String>,
    resumed: &Option<Option<String>>,
    fallback: &str,
) -> (r: Result<String, CommandError>)
    ensures
        r is Err <==> *resumed == Some(None::<String>),
        r is Err ==> r->Err_0@ == command_error("not_found"@, "realtime session not found"@),
        r matches Ok(title) ==> title@ == (match requested {
            Some(t) => t@,
            None => match resumed {
                Some(Some(t)) => t@,
                _ => fallback@,
            },
        }),
{
    match resumed {
        Some(None) => Err(CommandError::new("not_found", "realtime session not found")),
        Some(Some(artifact_title)) => match requested {
            Some(title) => Ok(title.clone()),
            None => Ok(artifact_title.clone()),
        },
        None => match requested {
            Some(title) => Ok(title.clone()),
            None => Ok(fallback.to_owned()),
        },
    }
}

/// Continues under the title of a saved session, where there is one.
pub fn load_realtime_session(session: &mut RealtimeSession, title: Option<&str>)
    ensures
        match title {
            None => *final(session) == *old(session),
            Some(t) => {
                &&& opt_view(final(session).session_name) == Some(t@)
                &&& *final(session) == (RealtimeSession {
                    session_name: final(session).session_name,
                    ..*old(session)
                })
            },
        },
{
    if let Some(t) = title {
        session.session_name = Some(t.to_owned());
    }
}

/// Enters a session that is about to start.
pub fn enter_realtime_session(
    session: &mut RealtimeSession,
    start: &RealtimeStart,
    job_id: &str,
    title: &str,
)
    ensures
        opt_view(final(session).active_job_id) == Some(job_id@),
        opt_view(final(session).session_name) == Some(title@),
        final(session).language_code@ == start.language@,
        final(session).active_engine == start.engine,
        opt_view(final(session).model) == Some(start.model@),
        opt_view(final(session).language) == Some(start.language@),
        final(session).model_filename == old(session).model_filename,
        final(session).parakeet_engine == old(session).parakeet_engine,
{
    session.active_job_id = Some(job_id.to_owned());
    session.session_name = Some(title.to_owned());
    session.language_code = start.language.clone();
    session.active_engine = start.engine;
    session.model = Some(start.model.clone());
    session.language = Some(start.language.clone());
}

/// Holds the engine of a session, just before it is started, and the file of its model. A Parakeet
/// engine is kept by its handle; a session of the other engine keeps none.
pub fn hold_realtime_engine(session: &mut RealtimeSession, model_filename: &str, handle: u64)
    ensures
        opt_view(final(session).model_filename) == Some(model_filename@),
        *final(session) == (RealtimeSession {
            model_filename: final(session).model_filename,
            parakeet_engine: match old(session).active_engine {
                TranscriptionEngine::WhisperCpp => None,
                TranscriptionEngine::ParakeetCpp => Some(handle),
            },
            ..*old(session)
        }),
{
    session.model_filename = Some(model_filename.to_owned());
    session.parakeet_engine =
    match session.active_engine {
        TranscriptionEngine::WhisperCpp => None,
        TranscriptionEngine::ParakeetCpp => Some(handle),
    };
}

/// How far a start came before it failed.
#[derive(Clone, Copy, PartialEq, Eq, Structural, Debug)]
pub enum StartFailure {
    /// There is no engine, or no model for it.
    Preparing,
    /// The engine did not start.
    Launching,
}

/// What is told of a start that failed: of the microphone, once the engine was to start.
pub open spec fn start_failure_steps(
    engine: TranscriptionEngine,
    failure: StartFailure,
    error: Seq<char>,
) -> Seq<LiveStepView> {
    match failure {
        StartFailure::Preparing => Seq::empty(),
        StartFailure::Launching => seq![
            LiveStepView::Level(
                "idle"@,
                match engine {
                    TranscriptionEngine::WhisperCpp => "Microphone preview stopped."@,
                    TranscriptionEngine::ParakeetCpp => error,
                },
            ),
        ],
    }
}

/// Gives a start up: the session's description is forgotten.
pub fn fail_realtime_start(
    session: &mut RealtimeSession,
    engine: TranscriptionEngine,
    failure: StartFailure,
    error: &str,
) -> (r: Vec<LiveStep>)
    ensures
        forgotten(*old(session), *final(session)),
        steps_view(r@) == start_failure_steps(engine, failure, error@),
{
    clear_active_realtime_metadata(session);
    let mut out: Vec<LiveStep> = Vec::new();
    if failure == StartFailure::Launching {
        let message: &str = match engine {
            TranscriptionEngine::WhisperCpp => "Microphone preview stopped.",
            TranscriptionEngine::ParakeetCpp => error,
        };
        out.push(LiveStep::Level(status_event("idle", message)));
    }
    assert(steps_view(out@) =~= start_failure_steps(engine, failure, error@));
    out
}

/// A start that was given up can be tried again at once, unless a stop is in progress.
pub proof fn a_failed_start_can_be_tried_again(
    before: RealtimeSession,
    after: RealtimeSession,
    stops: RealtimeStops,
)
    requires
        forgotten(before, after),
        stops.ids().len() == 0,
    ensures
        start_allowed(stops, after),
{
}

/// What is said of a session that stopped as soon as it started.
pub open spec fn stopped_immediately(diagnostics: Seq<Seq<char>>) -> Seq<char> {
    if diagnostics.len() == 0 {
        "Realtime transcription stopped immediately. Verify microphone access and that at least one audio input device is available."@
    } else {
        join(diagnostics, " "@)
    }
}

/// Decides whether a session that was started runs. When it does not, its description is
/// forgotten, and the error holds the engine's diagnostics.
pub fn confirm_realtime_start(
    session: &mut RealtimeSession,
    running: bool,
    diagnostics: &Vec<String>,
    job_id: &str,
) -> (r: Result<StartRealtimeResponse, ApplicationError>)
    ensures
        r is Ok <==> running,
        r is Ok ==> r->Ok_0.started && r->Ok_0.job_id@ == job_id@ && *final(session) == *old(
            session,
        ),
        r is Err ==> {
            &&& r->Err_0@ == ApplicationErrorView::SpeechToText(
                stopped_immediately(views(diagnostics@)),
            )
            &&& forgotten(*old(session), *final(session))
        },
{
    if running {
        return Ok(StartRealtimeResponse { started: true, job_id: job_id.to_owned() });
    }
    clear_active_realtime_metadata(session);
    let detail: String = if diagnostics.len() == 0 {
        "Realtime transcription stopped immediately. Verify microphone access and that at least one audio input device is available.".to_owned()
    } else {
        join_texts(diagnostics, " ")
    };
    Err(ApplicationError::SpeechToText(detail))
}

// ---------------------------------------------------------------------------
// Stopping
// ---------------------------------------------------------------------------

/// The stage of a live job.
#[derive(Clone, Copy, PartialEq, Eq, Structural, Debug)]
pub enum JobStage {
    Transcribing,
    Persisting,
    Completed,
    Cancelled,
}

/// The progress of a live job.
pub struct RealtimeJobProgress {
    pub job_id: String,
    pub stage: JobStage,
    pub message: String,
    pub percentage: u8,
    pub current_seconds: Option<u64>,
    pub total_seconds: Option<u64>,
    pub committed_seconds: u64,
    pub processed_seconds: u64,
    pub stage_percentage: u8,
    pub overall_percentage: u8,
}

/// The content of a [`RealtimeJobProgress`].
pub struct JobProgressView {
    pub job_id: Seq<char>,
    pub stage: JobStage,
    pub message: Seq<char>,
    pub percentage: u8,
    pub current_seconds: Option<u64>,
    pub total_seconds: Option<u64>,
    pub committed_seconds: u64,
    pub processed_seconds: u64,
    pub stage_percentage: u8,
    pub overall_percentage: u8,
}

impl View for RealtimeJobProgress {
    type V = JobProgressView;

    open spec fn view(&self) -> JobProgressView {
        JobProgressView {
            job_id: self.job_id@,
            stage: self.stage,
            message: self.message@,
            percentage: self.percentage,
            current_seconds: self.current_seconds,
            total_seconds: self.total_seconds,
            committed_seconds: self.committed_seconds,
            processed_seconds: self.processed_seconds,
            stage_percentage: self.stage_percentage,
            overall_percentage: self.overall_percentage,
        }
    }
}

/// The progress of a live job. What was committed and processed is what was heard so far, and the
/// stage is as far as the job.
pub open spec fn job_progress(
    job_id: Seq<char>,
    stage: JobStage,
    message: Seq<char>,
    percentage: u8,
    current_seconds: Option<u64>,
    total_seconds: Option<u64>,
) -> JobProgressView {
    let so_far = match current_seconds {
        Some(n) => n,
        None => 0,
    };
    JobProgressView {
        job_id,
        stage,
        message,
        percentage,
        current_seconds,
        total_seconds,
        committed_seconds: so_far,
        processed_seconds: so_far,
        stage_percentage: percentage,
        overall_percentage: percentage,
    }
}

/// Makes the progress of a live job.
pub fn realtime_job_progress(
    job_id: &str,
    stage: JobStage,
    message: &str,
    percentage: u8,
    current_seconds: Option<u64>,
    total_seconds: Option<u64>,
) -> (r: RealtimeJobProgress)
    ensures
        r@ == job_progress(
            job_id@,
            stage,
            message@,
            percentage,
            current_seconds,
            total_seconds,
        ),
{
    let so_far: u64 = match current_seconds {
        Some(n) => n,
        None => 0,
    };
    RealtimeJobProgress {
        job_id: job_id.to_owned(),
        stage,
        message: message.to_owned(),
        percentage,
        current_seconds,
        total_seconds,
        committed_seconds: so_far,
        processed_seconds: so_far,
        stage_percentage: percentage,
        overall_percentage: percentage,
    }
}

/// What a stop that was accepted is answered: it goes on in the background, and the artifact
/// comes later.
#[derive(Debug)]
pub struct StopRealtimeResponse {
    pub saved: bool,
    pub queued: bool,
    pub job_id: Option<String>,
    pub artifact: Option<RealtimeArtifact>,
}

/// Answers a stop that was accepted.
pub fn stop_response(job_id: &str) -> (r: StopRealtimeResponse)
    ensures
        !r.saved,
        r.queued,
        opt_view(r.job_id) == Some(job_id@),
        r.artifact is None,
{
    StopRealtimeResponse {
        saved: false,
        queued: true,
        job_id: Some(job_id.to_owned()),
        artifact: None,
    }
}

/// The model of a session: its own, else that of the settings.
pub open spec fn session_model(session: RealtimeSession, settings_model: Seq<char>) -> Seq<char> {
    or_text(opt_view(session.model), settings_model)
}

/// Names the model of a session that stops. A session that knows no file of its own is recorded with
/// this model's file.
pub fn stop_model(session: &RealtimeSession, settings_model: &str) -> (r: String)
    ensures
        r@ == session_model(*session, settings_model@),
{
    text_or(&session.model, settings_model)
}

/// What a stop falls back on, and a new job's id and title.
pub struct StopDefaults {
    /// The model of the settings.
    pub model: String,
    /// The file of the model that [`stop_model`] names for the session and the settings' model.
    pub model_filename: String,
    /// The language of the settings.
    pub language: String,
    pub new_job_id: String,
    pub fallback_title: String,
}

/// How a session is stopped.
pub struct RealtimeStop {
    pub save: bool,
    pub job_id: String,
    pub engine: TranscriptionEngine,
    pub processing_engine: String,
    pub session_title: String,
    pub language: String,
    pub model: String,
    pub language_code: String,
    pub model_filename: String,
    pub elapsed_seconds: Option<u64>,
    pub progress: RealtimeJobProgress,
    pub marker: RealtimeStopMarker,
}

/// A value that may be absent, with a fallback.
pub open spec fn or_text(value: Option<Seq<char>>, fallback: Seq<char>) -> Seq<char> {
    match value {
        Some(v) => v,
        None => fallback,
    }
}

fn text_or(value: &Option<String>, fallback: &str) -> (r: String)
    ensures
        r@ == or_text(opt_view(*value), fallback@),
{
    match value {
        Some(v) => v.clone(),
        None => fallback.to_owned(),
    }
}

/// Whether a session is saved when it stops: unless the payload says otherwise.
pub open spec fn wants_save(payload: Option<StopRealtimePayload>) -> bool {
    !(payload matches Some(p) && p.save == Some(false))
}

/// Plans the stop of a session and reserves it. A stop that is in progress, for whichever session,
/// refuses another, before any engine is touched; a Parakeet session without an engine is refused.
pub fn stop_realtime(
    stops: &mut RealtimeStops,
    session: &RealtimeSession,
    payload: &Option<StopRealtimePayload>,
    defaults: &StopDefaults,
) -> (r: Result<RealtimeStop, CommandError>)
    requires
        old(stops).wf(),
    ensures
        final(stops).wf(),
        ({
            let busy = old(stops).ids().len() > 0;
            let absent = session.active_engine == TranscriptionEngine::ParakeetCpp
                && session.parakeet_engine is None;
            let job_id = or_text(opt_view(session.active_job_id), defaults.new_job_id@);
            let title = match payload {
                Some(p) => cleaned_title(opt_view(p.title)),
                None => None,
            };
            let elapsed = match payload {
                Some(p) => p.elapsed_seconds,
                None => None,
            };
            let save = wants_save(*payload);
            &&& r is Ok <==> !busy && !absent
            &&& busy ==> r->Err_0@ == stop_in_progress(Some(old(stops).ids()[0]))
            &&& !busy && absent ==> r->Err_0@ == command_error(
                "realtime"@,
                "Parakeet live is not running"@,
            )
            &&& r is Err ==> final(stops).ids() == old(stops).ids()
            &&& r matches Ok(stop) ==> {
                &&& final(stops).ids() == seq![job_id]
                &&& stop.marker.job_id@ == job_id
                &&& stop.save == save
                &&& stop.job_id@ == job_id
                &&& stop.engine == session.active_engine
                &&& stop.processing_engine@ == (match session.active_engine {
                    TranscriptionEngine::WhisperCpp => "whisper_stream"@,
                    TranscriptionEngine::ParakeetCpp => "parakeet_cpp"@,
                })
                &&& stop.session_title@ == or_text(
                    title,
                    or_text(opt_view(session.session_name), defaults.fallback_title@),
                )
                &&& stop.language@ == or_text(opt_view(session.language), defaults.language@)
                &&& stop.model@ == session_model(*session, defaults.model@)
                &&& stop.language_code@ == session.language_code@
                &&& stop.model_filename@ == or_text(
                    opt_view(session.model_filename),
                    defaults.model_filename@,
                )
                &&& stop.elapsed_seconds == elapsed
                &&& session.active_job_id is Some ==> stop.job_id@ == session.active_job_id->0@
                &&& session.model is Some ==> stop.model@ == session.model->0@
                &&& session.model is None ==> stop.model@ == defaults.model@
                &&& session.language is Some ==> stop.language@ == session.language->0@
                &&& session.model_filename is Some ==> stop.model_filename@
                    == session.model_filename->0@
                &&& stop.save <==> !(payload matches Some(p) && p.save == Some(false))
                &&& stop.progress@ == job_progress(
                    job_id,
                    if save { JobStage::Persisting } else { JobStage::Cancelled },
                    if save {
                        "Saving live transcription"@
                    } else {
                        "Live transcription discarded"@
                    },
                    if save { 90 } else { 100 },
                    elapsed,
                    None,
                )
            }
        }),
{
    let save: bool = match payload {
        Some(p) => match p.save {
            Some(wanted) => wanted,
            None => true,
        },
        None => true,
    };
    let elapsed: Option<u64> = match payload {
        Some(p) => p.elapsed_seconds,
        None => None,
    };
    let requested: Option<String> = match payload {
        Some(p) => clean_optional_title(&p.title),
        None => None,
    };
    let job_id: String = text_or(&session.active_job_id, defaults.new_job_id.as_str());
    if let Err(error) = reject_if_realtime_stop_in_progress(stops) {
        return Err(error);
    }
    if session.active_engine == TranscriptionEngine::ParakeetCpp
        && session.parakeet_engine.is_none() {
        return Err(CommandError::new("realtime", "Parakeet live is not running"));
    }
    let processing_engine: &str = match session.active_engine {
        TranscriptionEngine::WhisperCpp => "whisper_stream",
        TranscriptionEngine::ParakeetCpp => "parakeet_cpp",
    };
    let current_title: String = text_or(&session.session_name, defaults.fallback_title.as_str());
    let session_title: String = text_or(&requested, current_title.as_str());
    let marker: RealtimeStopMarker = match reserve_realtime_stop(stops, job_id.as_str()) {
        Ok(marker) => marker,
        Err(error) => {
            assert(false);
            return Err(error);
        },
    };
    assert(stops.ids() =~= seq![job_id@]);
    let progress: RealtimeJobProgress = realtime_job_progress(
        job_id.as_str(),
        if save {
            JobStage::Persisting
        } else {
            JobStage::Cancelled
        },
        if save {
            "Saving live transcription"
        } else {
            "Live transcription discarded"
        },
        if save {
            90
        } else {
            100
        },
        elapsed,
        None,
    );
    Ok(
        RealtimeStop {
            save,
            job_id,
            engine: session.active_engine,
            processing_engine: processing_engine.to_owned(),
            session_title,
            language: text_or(&session.language, defaults.language.as_str()),
            model: stop_model(session, defaults.model.as_str()),
            language_code: session.language_code.clone(),
            model_filename: text_or(&session.model_filename, defaults.model_filename.as_str()),
            elapsed_seconds: elapsed,
            progress,
            marker,
        },
    )
}

/// What follows the engine's stop.
pub enum StopFollowUp {
    /// The stop failed: report the job as failed with this message.
    Failed(String),
    /// Nothing is saved: report this progress.
    Discarded(RealtimeJobProgress),
    /// Build the artifact and save it.
    Save,
}

/// Settles a session after its engine stopped. A failed stop of a Parakeet engine keeps the
/// session, with its engine, for another try; otherwise the session is retired.
pub fn settle_realtime_stop(
    session: &mut RealtimeSession,
    stop: &RealtimeStop,
    engine_handle: u64,
    stopped: &Result<String, String>,
) -> (r: StopFollowUp)
    ensures
        ({
            let own = old(session).belongs_to(stop.job_id@);
            let current = old(session).is_current(stop.job_id@);
            let retry = stopped is Err && stop.engine == TranscriptionEngine::ParakeetCpp;
            &&& retry && current ==> *final(session) == (RealtimeSession {
                parakeet_engine: Some(engine_handle),
                ..*old(session)
            })
            &&& retry && !current ==> *final(session) == *old(session)
            &&& !retry && !own ==> *final(session) == *old(session)
            &&& !retry && own ==> {
                &&& final(session).cleared()
                &&& final(session).parakeet_engine == if stop.engine
                    == TranscriptionEngine::ParakeetCpp {
                    None
                } else {
                    old(session).parakeet_engine
                }
                &&& final(session).active_engine == old(session).active_engine
                &&& final(session).language_code == old(session).language_code
            }
            &&& stopped matches Err(e) ==> r matches StopFollowUp::Failed(m) && m@ == e@
            &&& stopped matches Ok(transcript) ==> {
                &&& r is Save <==> stop.save && trim(transcript@).len() > 0
                &&& r is Failed ==> false
                &&& r matches StopFollowUp::Discarded(p) ==> p@ == job_progress(
                    stop.job_id@,
                    JobStage::Cancelled,
                    if !stop.save {
                        "Live transcription discarded"@
                    } else {
                        "Live transcription stopped with no captured speech"@
                    },
                    100,
                    stop.elapsed_seconds,
                    None,
                )
            }
        }),
{
    match stopped {
        Err(error) => {
            if stop.engine == TranscriptionEngine::ParakeetCpp {
                retain_failed_parakeet_session(session, stop.job_id.as_str(), engine_handle);
            } else {
                clear_completed_realtime_session(session, stop.engine, stop.job_id.as_str());
            }
            StopFollowUp::Failed(error.clone())
        },
        Ok(transcript) => {
            clear_completed_realtime_session(session, stop.engine, stop.job_id.as_str());
            if !stop.save {
                return StopFollowUp::Discarded(
                    realtime_job_progress(
                        stop.job_id.as_str(),
                        JobStage::Cancelled,
                        "Live transcription discarded",
                        100,
                        stop.elapsed_seconds,
                        None,
                    ),
                );
            }
            if trim_text(transcript.as_str()).as_str().is_empty() {
                return StopFollowUp::Discarded(
                    realtime_job_progress(
                        stop.job_id.as_str(),
                        JobStage::Cancelled,
                        "Live transcription stopped with no captured speech",
                        100,
                        stop.elapsed_seconds,
                        None,
                    ),
                );
            }
            StopFollowUp::Save
        },
    }
}

// ---------------------------------------------------------------------------
// Announcing
// ---------------------------------------------------------------------------

/// A step of a command on a running session.
pub enum LiveStep {
    /// Ask the engine to do what the command is for; when it fails, the command ends with its
    /// error.
    Engine,
    /// Tell of a silent microphone, in this state and with this message.
    Level(RealtimeStatusEvent),
    /// Tell of the session's state.
    Status(RealtimeStatusEvent),
}

/// The content of a [`LiveStep`].
pub enum LiveStepView {
    Engine,
    Level(Seq<char>, Seq<char>),
    Status(Seq<char>, Seq<char>),
}

impl View for LiveStep {
    type V = LiveStepView;

    open spec fn view(&self) -> LiveStepView {
        match self {
            LiveStep::Engine => LiveStepView::Engine,
            LiveStep::Level(e) => LiveStepView::Level(e.state@, e.message@),
            LiveStep::Status(e) => LiveStepView::Status(e.state@, e.message@),
        }
    }
}

/// What a list of steps holds.
pub open spec fn steps_view(steps: Seq<LiveStep>) -> Seq<LiveStepView> {
    Seq::new(steps.len(), |i: int| steps[i]@)
}

fn status_event(state: &str, message: &str) -> (r: RealtimeStatusEvent)
    ensures
        r.state@ == state@,
        r.message@ == message@,
{
    RealtimeStatusEvent { state: state.to_owned(), message: message.to_owned() }
}

/// The steps of a pause: the engine pauses first, and only then is it told.
pub open spec fn pause_steps() -> Seq<LiveStepView> {
    seq![
        LiveStepView::Engine,
        LiveStepView::Level("paused"@, "Microphone preview paused."@),
        LiveStepView::Status("paused"@, "Live paused"@),
    ]
}

/// Plans a pause of the session.
pub fn pause_realtime() -> (r: Vec<LiveStep>)
    ensures
        steps_view(r@) == pause_steps(),
{
    let mut out: Vec<LiveStep> = Vec::new();
    out.push(LiveStep::Engine);
    out.push(LiveStep::Level(status_event("paused", "Microphone preview paused.")));
    out.push(LiveStep::Status(status_event("paused", "Live paused")));
    assert(steps_view(out@) =~= pause_steps());
    out
}

/// The steps that resume a session. A whisper.cpp engine is told of as running before it
/// resumes, a Parakeet engine after.
pub open spec fn resume_steps(engine: TranscriptionEngine) -> Seq<LiveStepView> {
    let level = LiveStepView::Level("running"@, "Microphone preview resumed."@);
    let status = LiveStepView::Status("running"@, "Live resumed"@);
    match engine {
        TranscriptionEngine::WhisperCpp => seq![level, LiveStepView::Engine, status],
        TranscriptionEngine::ParakeetCpp => seq![LiveStepView::Engine, level, status],
    }
}

/// Plans to resume the session.
pub fn resume_realtime(engine: TranscriptionEngine) -> (r: Vec<LiveStep>)
    ensures
        steps_view(r@) == resume_steps(engine),
{
    let level: LiveStep = LiveStep::Level(status_event("running", "Microphone preview resumed."));
    let mut out: Vec<LiveStep> = Vec::new();
    match engine {
        TranscriptionEngine::WhisperCpp => {
            out.push(level);
            out.push(LiveStep::Engine);
        },
        TranscriptionEngine::ParakeetCpp => {
            out.push(LiveStep::Engine);
            out.push(level);
        },
    }
    out.push(LiveStep::Status(status_event("running", "Live resumed")));
    assert(steps_view(out@) =~= resume_steps(engine));
    out
}

/// What is told of a stop once it is reserved, before the engine stops.
pub fn announce_stop() -> (r: Vec<LiveStep>)
    ensures
        steps_view(r@) == seq![
            LiveStepView::Level("idle"@, "Microphone preview stopped."@),
            LiveStepView::Status("stopped"@, "Live stopped"@),
        ],
{
    let mut out: Vec<LiveStep> = Vec::new();
    out.push(LiveStep::Level(status_event("idle", "Microphone preview stopped.")));
    out.push(LiveStep::Status(status_event("stopped", "Live stopped")));
    assert(steps_view(out@) =~= seq![
        LiveStepView::Level("idle"@, "Microphone preview stopped."@),
        LiveStepView::Status("stopped"@, "Live stopped"@),
    ]);
    out
}

/// What is told before the engine of a session is looked for.
pub open spec fn start_steps(engine: TranscriptionEngine) -> Seq<LiveStepView> {
    match engine {
        TranscriptionEngine::WhisperCpp => Seq::empty(),
        TranscriptionEngine::ParakeetCpp => seq![
            LiveStepView::Level("idle"@, "Microphone preview stopped."@),
        ],
    }
}

/// Announces a start.
pub fn announce_start(engine: TranscriptionEngine) -> (r: Vec<LiveStep>)
    ensures
        steps_view(r@) == start_steps(engine),
{
    let mut out: Vec<LiveStep> = Vec::new();
    if engine == TranscriptionEngine::ParakeetCpp {
        out.push(LiveStep::Level(status_event("idle", "Microphone preview stopped.")));
    }
    assert(steps_view(out@) =~= start_steps(engine));
    out
}

/// What is told once it is known whether the engine runs.
pub open spec fn started_steps(running: bool) -> Seq<LiveStepView> {
    if running {
        seq![LiveStepView::Status("running"@, "Live listening"@)]
    } else {
        seq![LiveStepView::Level("idle"@, "Microphone preview stopped."@)]
    }
}

/// Announces how a start ended.
pub fn announce_started(running: bool) -> (r: Vec<LiveStep>)
    ensures
        steps_view(r@) == started_steps(running),
{
    let mut out: Vec<LiveStep> = Vec::new();
    if running {
        out.push(LiveStep::Status(status_event("running", "Live listening")));
    } else {
        out.push(LiveStep::Level(status_event("idle", "Microphone preview stopped.")));
    }
    assert(steps_view(out@) =~= started_steps(running));
    out
}

/// What is told with the measurements of a whisper.cpp engine, which come also after it was asked
/// to stop.
pub fn telemetry_event(finalizing: bool) -> (r: RealtimeStatusEvent)
    ensures
        r.state@ == if finalizing { "finalizing"@ } else { "running"@ },
        r.message@ == if finalizing {
            "Finalizing Whisper live audio"@
        } else {
            "Whisper live telemetry"@
        },
{
    if finalizing {
        status_event("finalizing", "Finalizing Whisper live audio")
    } else {
        status_event("running", "Whisper live telemetry")
    }
}

/// The progress that is reported once a session listens.
pub fn listening_progress(job_id: &str) -> (r: RealtimeJobProgress)
    ensures
        r@ == job_progress(
            job_id@,
            JobStage::Transcribing,
            "Live listening"@,
            0,
            Some(0),
            None,
        ),
{
    realtime_job_progress(job_id, JobStage::Transcribing, "Live listening", 0, Some(0), None)
}

// ---------------------------------------------------------------------------
// Saving
// ---------------------------------------------------------------------------

/// What a session leaves to be saved.
pub struct RealtimeArtifactInput {
    pub job_id: String,
    pub session_title: String,
    pub language_code: String,
    pub model_filename: String,
    pub processing_engine: String,
    pub elapsed_seconds: Option<u64>,
    pub transcript: String,
    /// The path of the saved audio and its file name, where it has one.
    pub saved_audio: Option<(String, Option<String>)>,
    /// The language that the transcript was found to be in.
    pub processing_language: String,
    /// The languages that were found, as they are stored.
    pub detected_languages: String,
    /// The timeline, as it is stored, when there are segments.
    pub timeline: Option<String>,
}

/// The artifact of a session.
#[derive(Debug)]
pub struct RealtimeArtifact {
    pub job_id: String,
    pub title: String,
    pub kind: ArtifactKind,
    pub source_label: String,
    pub source_origin: ArtifactSourceOrigin,
    pub raw_transcript: String,
    pub metadata: TextMap,
    pub audio_available: bool,
    pub audio_duration_seconds: Option<u64>,
    pub processing_engine: Option<String>,
    pub processing_model: Option<String>,
    pub processing_language: Option<String>,
    pub source_external_path: Option<String>,
}

/// The metadata of a session's artifact.
pub open spec fn realtime_metadata(input: RealtimeArtifactInput) -> Map<Seq<char>, Seq<char>> {
    let base = Map::<Seq<char>, Seq<char>>::empty().insert("kind"@, "realtime"@).insert(
        "language"@,
        input.processing_language@,
    ).insert("preferred_language"@, input.language_code@).insert(
        "language_detection_version"@,
        "1"@,
    ).insert("detected_languages"@, input.detected_languages@).insert(
        "model"@,
        input.model_filename@,
    );
    let timed = match input.elapsed_seconds {
        Some(n) => base.insert("duration_seconds"@, decimal(n as nat)),
        None => base,
    };
    let audible = timed.insert(
        "audio_saved"@,
        if input.saved_audio is Some { "true"@ } else { "false"@ },
    );
    match input.timeline {
        Some(t) => audible.insert("timeline_v2"@, t@),
        None => audible,
    }
}

/// The label of a session's source: the name of the saved audio, else the title as a file name.
pub open spec fn realtime_source_label(input: RealtimeArtifactInput) -> Seq<char> {
    match input.saved_audio {
        Some((_, Some(name))) => name@,
        _ => input.session_title@ + ".wav"@,
    }
}

/// Builds the artifact of a session. A transcript that is blank makes none, and neither does one
/// whose artifact is refused: `refusal` is what the application's own check of these parts says, where
/// it says anything.
pub fn build_realtime_artifact(input: &RealtimeArtifactInput, refusal: &Option<String>) -> (r: Result<
    RealtimeArtifact,
    ApplicationError,
>)
    ensures
        r is Ok <==> trim(input.transcript@).len() > 0 && refusal is None,
        trim(input.transcript@).len() == 0 ==> r->Err_0@ == ApplicationErrorView::Validation(
            "raw transcript cannot be empty"@,
        ),
        trim(input.transcript@).len() > 0 && refusal is Some ==> r->Err_0@
            == ApplicationErrorView::Validation(refusal->0@),
        r matches Ok(a) ==> {
            &&& a.job_id@ == input.job_id@
            &&& a.title@ == input.session_title@
            &&& a.kind == ArtifactKind::Realtime
            &&& a.source_label@ == realtime_source_label(*input)
            &&& a.source_origin == ArtifactSourceOrigin::Realtime
            &&& a.raw_transcript@ == input.transcript@
            &&& a.metadata@ == realtime_metadata(*input)
            &&& a.audio_available == (input.saved_audio is Some)
            &&& a.audio_duration_seconds == input.elapsed_seconds
            &&& opt_view(a.processing_engine) == Some(input.processing_engine@)
            &&& opt_view(a.processing_model) == Some(input.model_filename@)
            &&& opt_view(a.processing_language) == Some(input.processing_language@)
            &&& opt_view(a.source_external_path) == (match input.saved_audio {
                Some(audio) => Some(audio.0@),
                None => None,
            })
        },
{
    if trim_text(input.transcript.as_str()).as_str().is_empty() {
        return Err(
            ApplicationError::Validation("raw transcript cannot be empty".to_owned()),
        );
    }
    if let Some(reason) = refusal {
        return Err(ApplicationError::Validation(reason.clone()));
    }
    let mut metadata: TextMap = TextMap::new();
    metadata.insert("kind", "realtime");
    metadata.insert("language", input.processing_language.as_str());
    metadata.insert("preferred_language", input.language_code.as_str());
    metadata.insert("language_detection_version", "1");
    metadata.insert("detected_languages", input.detected_languages.as_str());
    metadata.insert("model", input.model_filename.as_str());
    if let Some(elapsed) = input.elapsed_seconds {
        let mut text: String = String::new();
        push_decimal(&mut text, elapsed);
        assert(text@ =~= decimal(elapsed as nat));
        metadata.insert("duration_seconds", text.as_str());
    }
    metadata.insert(
        "audio_saved",
        if input.saved_audio.is_some() {
            "true"
        } else {
            "false"
        },
    );
    if let Some(timeline) = &input.timeline {
        metadata.insert("timeline_v2", timeline.as_str());
    }
    let mut default_label: String = input.session_title.clone();
    default_label.append(".wav");
    let source_label: String = match &input.saved_audio {
        Some((_, Some(name))) => name.clone(),
        _ => default_label,
    };
    let source_external_path: Option<String> = match &input.saved_audio {
        Some((path, _)) => Some(path.clone()),
        None => None,
    };
    Ok(
        RealtimeArtifact {
            job_id: input.job_id.clone(),
            title: input.session_title.clone(),
            kind: ArtifactKind::Realtime,
            source_label,
            source_origin: ArtifactSourceOrigin::Realtime,
            raw_transcript: input.transcript.clone(),
            metadata,
            audio_available: input.saved_audio.is_some(),
            audio_duration_seconds: input.elapsed_seconds,
            processing_engine: Some(input.processing_engine.clone()),
            processing_model: Some(input.model_filename.clone()),
            processing_language: Some(input.processing_language.clone()),
            source_external_path,
        },
    )
}

/// How an attempt to save an artifact is reported: as completed, or as failed with the reason.
pub fn finish_realtime_save(artifact: &RealtimeArtifact, saved: &Result<(), String>) -> (r: Result<
    RealtimeJobProgress,
    String,
>)
    ensures
        match saved {
            Ok(_) => r is Ok && r->Ok_0@ == job_progress(
                artifact.job_id@,
                JobStage::Completed,
                "Live transcription saved"@,
                100,
                None,
                None,
            ),
            Err(e) => r is Err && r->Err_0@ == e@,
        },
{
    match saved {
        Ok(_) => Ok(
            realtime_job_progress(
                artifact.job_id.as_str(),
                JobStage::Completed,
                "Live transcription saved",
                100,
                None,
                None,
            ),
        ),
        Err(error) => Err(error.clone()),
    }
}

// ---------------------------------------------------------------------------
// What is promised of live sessions
// ---------------------------------------------------------------------------

/// The refusal of a stop names the session whose stop is in progress.
pub proof fn a_refused_stop_names_the_session(id: Seq<char>)
    ensures
        contains(stop_in_progress(Some(id)).message, id),
        stop_in_progress(Some(id)).code == stop_in_progress(None).code,
{
    lemma_contains_middle(
        "Realtime stop/finalization is already in progress for session '"@,
        id,
        "'; retry after it finishes."@,
    );
}

/// Every place is looked at, each once and in the order of the list: of two ways to write one path the
/// first is kept.
pub proof fn each_place_is_looked_at_once(style: PathStyle, list: Seq<Seq<char>>)
    ensures
        forall|i: int|
            0 <= i < list.len() ==> holds_path(style, distinct(style, list), #[trigger] list[i]),
        forall|i: int, j: int|
            0 <= i < j < distinct(style, list).len() ==> !same_path(
                style,
                #[trigger] distinct(style, list)[i],
                #[trigger] distinct(style, list)[j],
            ),
        forall|i: int|
            0 <= i < distinct(style, list).len() ==> list.contains(
                #[trigger] distinct(style, list)[i],
            ),
        list.len() > 0 ==> distinct(style, list)[0] == list[0],
    decreases list.len(),
{
    if list.len() > 0 {
        let front = list.drop_last();
        let before = distinct(style, front);
        let all = distinct(style, list);
        each_place_is_looked_at_once(style, front);
        assert forall|i: int| 0 <= i < list.len() implies holds_path(
            style,
            all,
            #[trigger] list[i],
        ) by {
            if i < front.len() {
                assert(front[i] == list[i]);
                let k = choose|k: int|
                    0 <= k < before.len() && same_path(style, #[trigger] before[k], list[i]);
                assert(all[k] == before[k]);
            } else if holds_path(style, before, list.last()) {
                let k = choose|k: int|
                    0 <= k < before.len() && same_path(style, #[trigger] before[k], list.last());
                assert(all[k] == before[k]);
            } else {
                assert(all[before.len() as int] == list[i]);
            }
        }
        assert forall|i: int| 0 <= i < all.len() implies list.contains(#[trigger] all[i]) by {
            if i < before.len() {
                assert(all[i] == before[i]);
                assert(front.contains(before[i]));
                let k = choose|k: int| 0 <= k < front.len() && front[k] == before[i];
                assert(list[k] == before[i]);
            } else {
                assert(list[list.len() - 1] == all[i]);
            }
        }
        if front.len() > 0 {
            lemma_distinct_not_empty(style, front);
        } else {
            assert(before =~= Seq::<Seq<char>>::empty());
        }
        assert forall|i: int, j: int| 0 <= i < j < all.len() implies !same_path(
            style,
            #[trigger] all[i],
            #[trigger] all[j],
        ) by {
            assert(all[i] == before[i]);
            if j < before.len() {
                assert(all[j] == before[j]);
            }
        }
    }
}

/// The library is looked for beside the tool and in the directory for libraries beside the tool's own,
/// under the name that the platform gives it; first where the platform's layout puts it.
pub proof fn the_library_is_looked_for_near_the_tool(
    style: PathStyle,
    platform: ParakeetLiveLibraryPlatform,
    bin: Seq<char>,
    in_bin: bool,
    root: Option<Seq<char>>,
)
    ensures
        ({
            let all = all_candidates(style, platform, bin, in_bin, root);
            let name = match platform {
                ParakeetLiveLibraryPlatform::MacOs => "libparakeet.dylib"@,
                ParakeetLiveLibraryPlatform::Windows => "parakeet.dll"@,
            };
            &&& all.contains(joined(style, bin, name))
            &&& root is Some ==> all.contains(joined(style, joined(style, root->0, "lib"@), name))
            &&& platform is Windows ==> all[0] == joined(style, bin, "parakeet.dll"@)
            &&& platform is MacOs && in_bin ==> all[0] == joined(
                style,
                bin,
                "../lib/libparakeet.dylib"@,
            )
            &&& platform is MacOs && !in_bin ==> all[0] == joined(style, bin, "libparakeet.dylib"@)
            &&& root is Some && platform is MacOs ==> all.contains(
                joined(style, root->0, "lib/libparakeet.dylib"@),
            )
            &&& root is Some && platform is Windows ==> all.contains(
                joined(style, root->0, "lib/parakeet.dll"@),
            )
        }),
{
    let lay = layout_candidates(style, platform, bin, in_bin, root);
    let all = all_candidates(style, platform, bin, in_bin, root);
    let n = lay.len() as int;
    assert(all[n] == joined(style, bin, platform.filename()));
    if root is Some {
        assert(all[n + 1] == joined(style, joined(style, root->0, "lib"@), platform.filename()));
        if platform is MacOs {
            assert(all[1] == joined(style, root->0, "lib/libparakeet.dylib"@));
        } else if in_bin {
            assert(all[2] == joined(style, root->0, "lib/parakeet.dll"@));
        } else {
            assert(all[1] == joined(style, root->0, "lib/parakeet.dll"@));
        }
    }
}

/// A title that says anything is kept without the white space around it; any other is none.
pub proof fn a_title_says_something(title: Option<Seq<char>>)
    ensures
        title is Some && inked(title->0).len() > 0 ==> cleaned_title(title) == Some(trim(title->0)),
        title is None || inked(title->0).len() == 0 ==> cleaned_title(title) is None,
{
    if title is Some {
        trimming_takes_white_only(title->0);
        lemma_inked_edge(trim(title->0));
    }
}

/// The engine is asked before a pause is told; a resumed Parakeet session too is told of only after, and
/// every change ends with the state that the session is in.
pub proof fn a_pause_is_told_after_it_happened(engine: TranscriptionEngine)
    ensures
        pause_steps()[0] is Engine,
        pause_steps().last() == LiveStepView::Status("paused"@, "Live paused"@),
        resume_steps(engine).last() == LiveStepView::Status("running"@, "Live resumed"@),
        engine == TranscriptionEngine::ParakeetCpp ==> resume_steps(engine)[0] is Engine,
        engine == TranscriptionEngine::WhisperCpp ==> resume_steps(engine)[1] is Engine,
        resume_steps(engine).len() == 3,
        pause_steps().len() == 3,
        started_steps(true) == seq![LiveStepView::Status("running"@, "Live listening"@)],
        started_steps(false).len() == 1 && started_steps(false)[0] is Level,
{
}

/// What a session that ended at once is said to have: what its engine told, all of it and in order.
pub proof fn diagnostics_are_all_told(diagnostics: Seq<Seq<char>>)
    requires
        diagnostics.len() > 0,
    ensures
        in_order(stopped_immediately(diagnostics), diagnostics),
{
    a_join_holds_its_parts_in_order(diagnostics, " "@);
}

/// The progress of a job is told the same everywhere: as far as the job is the stage, and what was heard
/// is what was processed.
pub proof fn progress_is_told_alike(
    job_id: Seq<char>,
    stage: JobStage,
    message: Seq<char>,
    percentage: u8,
    current_seconds: Option<u64>,
    total_seconds: Option<u64>,
)
    ensures
        ({
            let p = job_progress(job_id, stage, message, percentage, current_seconds, total_seconds);
            &&& p.job_id == job_id && p.stage == stage && p.message == message
            &&& p.percentage == percentage && p.stage_percentage == percentage
                && p.overall_percentage == percentage
            &&& p.current_seconds == current_seconds && p.total_seconds == total_seconds
            &&& p.committed_seconds == p.processed_seconds
            &&& current_seconds is Some ==> p.committed_seconds == current_seconds->0
            &&& current_seconds is None ==> p.committed_seconds == 0
        }),
{
}

proof fn lemma_metadata_keys()
    ensures
        "kind"@.len() == 4,
        "language"@.len() == 8,
        "preferred_language"@.len() == 18 && "preferred_language"@[0] == 'p',
        "detected_languages"@.len() == 18 && "detected_languages"@[0] == 'd',
        "language_detection_version"@.len() == 26,
        "model"@.len() == 5,
        "duration_seconds"@.len() == 16,
        "audio_saved"@.len() == 11 && "audio_saved"@[0] == 'a',
        "timeline_v2"@.len() == 11 && "timeline_v2"@[0] == 't',
{
    reveal_strlit("kind");
    reveal_strlit("language");
    reveal_strlit("preferred_language");
    reveal_strlit("detected_languages");
    reveal_strlit("language_detection_version");
    reveal_strlit("model");
    reveal_strlit("duration_seconds");
    reveal_strlit("audio_saved");
    reveal_strlit("timeline_v2");
}

/// The metadata of a saved session tell what it was: a live one, in which language it was found to be and
/// which one was preferred, with which model, how long it was where that is known, whether its audio was
/// saved, and its timeline where there is one.
pub proof fn metadata_tell_the_session(input: RealtimeArtifactInput)
    ensures
        ({
            let m = realtime_metadata(input);
            &&& m.contains_key("kind"@) && m["kind"@] == "realtime"@
            &&& m.contains_key("language"@) && m["language"@] == input.processing_language@
            &&& m.contains_key("preferred_language"@) && m["preferred_language"@]
                == input.language_code@
            &&& m.contains_key("detected_languages"@) && m["detected_languages"@]
                == input.detected_languages@
            &&& m.contains_key("model"@) && m["model"@] == input.model_filename@
            &&& m.contains_key("duration_seconds"@) <==> input.elapsed_seconds is Some
            &&& input.elapsed_seconds is Some ==> m["duration_seconds"@] == decimal(
                input.elapsed_seconds->0 as nat,
            )
            &&& m.contains_key("audio_saved"@)
            &&& input.saved_audio is Some ==> m["audio_saved"@] == "true"@
            &&& input.saved_audio is None ==> m["audio_saved"@] == "false"@
            &&& m.contains_key("timeline_v2"@) <==> input.timeline is Some
            &&& input.timeline is Some ==> m["timeline_v2"@] == input.timeline->0@
        }),
{
    lemma_metadata_keys();
}

/// A saved session is labelled by the name of its audio where that has one, and else by its title.
pub proof fn a_session_is_labelled_by_its_audio(input: RealtimeArtifactInput)
    ensures
        input.saved_audio is Some && (input.saved_audio->0).1 is Some ==> realtime_source_label(input)
            == (input.saved_audio->0).1->0@,
        input.saved_audio is None || (input.saved_audio->0).1 is None ==> starts_with(
            realtime_source_label(input),
            input.session_title@,
        ) && realtime_source_label(input).len() == input.session_title@.len() + 4,
{
    reveal_strlit(".wav");
    let t = input.session_title@;
    assert((t + ".wav"@).take(t.len() as int) =~= t);
}

/// A session is that of a job when it is the one that runs; one that is over belongs to any.
pub proof fn a_session_is_known_by_its_job(session: RealtimeSession, job_id: Seq<char>)
    ensures
        session.is_current(job_id) <==> session.active_job_id is Some && session.active_job_id->0@
            == job_id,
        session.belongs_to(job_id) <==> session.active_job_id is None || session.active_job_id->0@
            == job_id,
        session.cleared() ==> session.active_job_id is None && session.session_name is None
            && session.model is None && session.model_filename is None && session.language is None,
{
}

/// The engine that is asked for goes before the one that is set.
pub proof fn an_asked_engine_goes_first(
    payload: Option<StartRealtimePayload>,
    defaults: RealtimeDefaults,
)
    ensures
        payload matches Some(p) ==> (p.engine matches Some(e) ==> start_engine(payload, defaults) == e),
        payload matches Some(p) ==> (p.engine is None ==> start_engine(payload, defaults)
            == defaults.engine),
        payload is None ==> start_engine(payload, defaults) == defaults.engine,
{
}

/// A start that fails while it launches stops the preview, and says why where the engine is Parakeet; one
/// that fails before that shows nothing, and neither does a start with Whisper.
pub proof fn a_failed_start_stops_the_preview(
    engine: TranscriptionEngine,
    failure: StartFailure,
    error: Seq<char>,
)
    ensures
        failure is Preparing ==> start_failure_steps(engine, failure, error).len() == 0,
        failure is Launching ==> start_failure_steps(engine, failure, error).len() == 1
            && start_failure_steps(engine, failure, error)[0]->Level_0 == "idle"@,
        failure is Launching && engine is ParakeetCpp ==> start_failure_steps(engine, failure, error)[0]
            == LiveStepView::Level("idle"@, error),
        engine is WhisperCpp ==> start_steps(engine).len() == 0,
        engine is ParakeetCpp ==> start_steps(engine) == seq![
            LiveStepView::Level("idle"@, "Microphone preview stopped."@),
        ],
{
}

} // verus!
