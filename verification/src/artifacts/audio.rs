//! Cutting regions out of a recording.

use vstd::prelude::*;
use vstd::string::*;

use crate::error::{command_error, CommandError, CommandErrorView};
use crate::order::{
    an_order_is_sorted_and_stable, goes_before, ordered, places, stable_order,
};
use crate::text::{
    a_join_holds_its_parts_in_order, cat3, decimal, ends_with, in_order, join, join_texts,
    push_decimal, replace, replace_text, starts_with, total_len, views,
};

verus! {

/// A region to keep.
#[derive(Debug)]
pub struct TrimRegion {
    /// Orders regions as their starts do.
    pub start_rank: i64,
    /// The start in seconds, with three decimals.
    pub start: String,
    /// The end in seconds, with three decimals.
    pub end: String,
}

#[derive(Debug)]
pub struct WriteTrimmedAudioPayload {
    pub artifact_id: Option<String>,
    pub input_path: Option<String>,
    pub regions: Vec<TrimRegion>,
}

/// What a trimmed recording is: its length is `frames` over `sample_rate` seconds.
#[derive(Debug)]
pub struct WriteTrimmedAudioResponse {
    pub path: String,
    pub frames: u32,
    pub sample_rate: u32,
    pub file_size_bytes: u64,
}

/// An error of the command.
pub open spec fn trim_error(message: Seq<char>) -> CommandErrorView {
    command_error("trim"@, message)
}

fn make_trim_error(prefix: &str, detail: &str) -> (r: CommandError)
    ensures
        r@ == trim_error(prefix@ + detail@),
{
    let mut message: String = prefix.to_owned();
    message.append(detail);
    CommandError::new("trim", message.as_str())
}

// ---------------------------------------------------------------------------
// What is cut
// ---------------------------------------------------------------------------

/// Where the recording comes from.
pub enum TrimSource {
    /// The audio that is stored with an artifact; it is put into a file of this name.
    Stored { artifact_id: String, file_name: String },
    /// A file.
    File(String),
}

/// The content of a [`TrimSource`].
pub enum TrimSourceView {
    Stored { artifact_id: Seq<char>, file_name: Seq<char> },
    File(Seq<char>),
}

impl View for TrimSource {
    type V = TrimSourceView;

    open spec fn view(&self) -> TrimSourceView {
        match self {
            TrimSource::Stored { artifact_id, file_name } => TrimSourceView::Stored {
                artifact_id: artifact_id@,
                file_name: file_name@,
            },
            TrimSource::File(path) => TrimSourceView::File(path@),
        }
    }
}

/// How regions are cut.
pub struct TrimPlan {
    pub source: TrimSource,
    /// The regions, by their start.
    pub order: Vec<usize>,
}

/// The source of a request.
pub open spec fn source_of(payload: WriteTrimmedAudioPayload) -> Option<TrimSourceView> {
    match payload.artifact_id {
        Some(id) => Some(
            TrimSourceView::Stored {
                artifact_id: id@,
                file_name: "sbobino_trim_source_"@ + id@ + ".wav"@,
            },
        ),
        None => match payload.input_path {
            Some(path) => Some(TrimSourceView::File(path@)),
            None => None,
        },
    }
}

/// Why a request is refused, if it is.
pub open spec fn trim_problem(payload: WriteTrimmedAudioPayload, settings: Result<(), String>) -> Option<
    CommandErrorView,
> {
    if payload.regions@.len() == 0 {
        Some(trim_error("no regions selected"@))
    } else {
        match settings {
            Err(e) => Some(trim_error("failed to load settings: "@ + e@)),
            Ok(()) => if source_of(payload) is None {
                Some(trim_error("missing input source for trim"@))
            } else {
                None
            },
        }
    }
}

/// The ranks of regions.
pub open spec fn region_ranks(regions: Seq<TrimRegion>) -> Seq<i64> {
    regions.map_values(|r: TrimRegion| r.start_rank)
}

/// Checks a request to cut regions, and plans it. `settings` says whether the settings, which name
/// the tool, could be loaded.
pub fn write_trimmed_audio(payload: &WriteTrimmedAudioPayload, settings: &Result<(), String>) -> (r:
    Result<TrimPlan, CommandError>)
    ensures
        match trim_problem(*payload, *settings) {
            Some(e) => r is Err && r->Err_0@ == e,
            None => {
                &&& r is Ok
                &&& r->Ok_0.source@ == source_of(*payload)->0
                &&& places(r->Ok_0.order@) == ordered(region_ranks(payload.regions@))
                &&& r->Ok_0.order@.len() == payload.regions@.len()
                &&& forall|i: int|
                    0 <= i < r->Ok_0.order@.len() ==> #[trigger] r->Ok_0.order@[i]
                        < payload.regions@.len()
                &&& forall|i: int, j: int|
                    0 <= i < j < r->Ok_0.order@.len() ==> payload.regions@[#[trigger] r->Ok_0.order@[i] as int].start_rank
                        <= payload.regions@[#[trigger] r->Ok_0.order@[j] as int].start_rank
                &&& forall|i: int, j: int|
                    0 <= i < j < r->Ok_0.order@.len() ==> #[trigger] r->Ok_0.order@[i]
                        != #[trigger] r->Ok_0.order@[j]
            },
        },
        r is Ok ==> payload.regions@.len() > 0,
        r is Ok && payload.artifact_id is Some ==> r->Ok_0.source is Stored
            && r->Ok_0.source->artifact_id@ == payload.artifact_id->0@,
        r is Ok && payload.artifact_id is None ==> payload.input_path is Some && r->Ok_0.source is File
            && r->Ok_0.source->File_0@ == payload.input_path->0@,
{
    if payload.regions.len() == 0 {
        return Err(CommandError::new("trim", "no regions selected"));
    }
    if let Err(e) = settings {
        return Err(make_trim_error("failed to load settings: ", e.as_str()));
    }
    let source: TrimSource = match &payload.artifact_id {
        Some(id) => TrimSource::Stored {
            artifact_id: id.clone(),
            file_name: cat3("sbobino_trim_source_", id.as_str(), ".wav"),
        },
        None => match &payload.input_path {
            Some(path) => TrimSource::File(path.clone()),
            None => {
                return Err(CommandError::new("trim", "missing input source for trim"));
            },
        },
    };
    let mut ranks: Vec<i64> = Vec::new();
    let mut i: usize = 0;
    while i < payload.regions.len()
        invariant
            i <= payload.regions@.len(),
            ranks@ =~= region_ranks(payload.regions@).take(i as int),
        decreases payload.regions@.len() - i,
    {
        ranks.push(payload.regions[i].start_rank);
        i = i + 1;
    }
    assert(region_ranks(payload.regions@).take(i as int) =~= region_ranks(payload.regions@));
    let order: Vec<usize> = stable_order(&ranks);
    proof {
        an_order_is_sorted_and_stable(ranks@);
        assert(places(order@).len() == order@.len());
        assert forall|i: int, j: int| 0 <= i < j < order@.len() implies payload.regions@[#[trigger] order@[i] as int].start_rank
            <= payload.regions@[#[trigger] order@[j] as int].start_rank && order@[i] != order@[j] by {
            assert(places(order@)[i] == order@[i]);
            assert(places(order@)[j] == order@[j]);
            assert(goes_before(ranks@, ordered(ranks@)[i], ordered(ranks@)[j]));
        }
    }
    Ok(TrimPlan { source, order })
}

/// What came of getting the recording.
pub enum SourceOutcome {
    Ready,
    /// The artifact has no audio, or the file is not there.
    Missing,
    /// The stored audio could not be put into a file.
    NotWritten(String),
}

/// Why the recording cannot be cut, if it cannot.
pub open spec fn source_problem(source: TrimSourceView, outcome: SourceOutcome) -> Option<
    CommandErrorView,
> {
    match outcome {
        SourceOutcome::Ready => None,
        SourceOutcome::Missing => match source {
            TrimSourceView::Stored { .. } => Some(trim_error("artifact audio is not available"@)),
            TrimSourceView::File(path) => Some(trim_error("input file not found: "@ + path)),
        },
        SourceOutcome::NotWritten(e) => Some(
            trim_error("failed to write temporary trim source: "@ + e@),
        ),
    }
}

/// Checks what came of getting the recording.
pub fn check_trim_source(source: &TrimSource, outcome: &SourceOutcome) -> (r: Result<
    (),
    CommandError,
>)
    ensures
        match source_problem(source@, *outcome) {
            None => r is Ok,
            Some(e) => r is Err && r->Err_0@ == e,
        },
{
    match outcome {
        SourceOutcome::Ready => Ok(()),
        SourceOutcome::Missing => match source {
            TrimSource::Stored { .. } => Err(
                CommandError::new("trim", "artifact audio is not available"),
            ),
            TrimSource::File(path) => Err(
                make_trim_error("input file not found: ", path.as_str()),
            ),
        },
        SourceOutcome::NotWritten(e) => Err(
            make_trim_error("failed to write temporary trim source: ", e.as_str()),
        ),
    }
}

// ---------------------------------------------------------------------------
// Names and arguments
// ---------------------------------------------------------------------------

/// Names the file that holds the result; `unique` tells it from others.
pub fn trim_output_name(stem: &str, unique: &str) -> (r: String)
    ensures
        r@ == "sbobino_trim_"@ + stem@ + "_"@ + unique@ + ".wav"@,
{
    let mut out: String = "sbobino_trim_".to_owned();
    out.append(stem);
    out.append("_");
    out.append(unique);
    out.append(".wav");
    out
}

/// Names the file of one region.
pub fn trim_part_name(stem: &str, region: usize, unique: &str) -> (r: String)
    ensures
        r@ == "sbobino_part_"@ + stem@ + "_"@ + decimal(region as nat) + "_"@ + unique@ + ".wav"@,
{
    let mut out: String = "sbobino_part_".to_owned();
    out.append(stem);
    out.append("_");
    push_decimal(&mut out, region as u64);
    out.append("_");
    out.append(unique);
    out.append(".wav");
    out
}

/// Names the file that lists the parts.
pub fn trim_list_name(unique: &str) -> (r: String)
    ensures
        r@ == "sbobino_concat_"@ + unique@ + ".txt"@,
{
    cat3("sbobino_concat_", unique, ".txt")
}

/// The arguments that cut a region: mono, at sixteen kilohertz, as sixteen-bit samples.
pub open spec fn cut_args(input: Seq<char>, region: TrimRegion, output: Seq<char>) -> Seq<Seq<char>> {
    seq![
        "-y"@,
        "-i"@,
        input,
        "-ss"@,
        region.start@,
        "-to"@,
        region.end@,
        "-ar"@,
        "16000"@,
        "-ac"@,
        "1"@,
        "-c:a"@,
        "pcm_s16le"@,
        output,
    ]
}

/// What an option is set to: the tool reads its arguments from the first to the last but one, which
/// names the output. `-y` stands alone; every other option has its value behind it.
pub open spec fn option_value(args: Seq<Seq<char>>, name: Seq<char>, from: int) -> Option<Seq<char>>
    decreases args.len() - from,
{
    if from < 0 || from + 2 >= args.len() {
        None
    } else if args[from] == seq!['-', 'y'] {
        option_value(args, name, from + 1)
    } else if args[from] == name {
        Some(args[from + 1])
    } else {
        option_value(args, name, from + 2)
    }
}

/// What the tool is told to cut out: from where to where.
pub open spec fn cut_interval(args: Seq<Seq<char>>) -> (Option<Seq<char>>, Option<Seq<char>>) {
    (option_value(args, seq!['-', 's', 's'], 0), option_value(args, seq!['-', 't', 'o'], 0))
}

proof fn lemma_option_names()
    ensures
        "-y"@ == seq!['-', 'y'],
        "-i"@ == seq!['-', 'i'],
        "-ss"@ == seq!['-', 's', 's'],
        "-to"@ == seq!['-', 't', 'o'],
        "-ar"@ == seq!['-', 'a', 'r'],
        "-ac"@ == seq!['-', 'a', 'c'],
        "-c:a"@ == seq!['-', 'c', ':', 'a'],
        "-f"@ == seq!['-', 'f'],
        "-safe"@ == seq!['-', 's', 'a', 'f', 'e'],
        "-c"@ == seq!['-', 'c'],
{
    reveal_strlit("-y");
    reveal_strlit("-i");
    reveal_strlit("-ss");
    reveal_strlit("-to");
    reveal_strlit("-ar");
    reveal_strlit("-ac");
    reveal_strlit("-c:a");
    reveal_strlit("-f");
    reveal_strlit("-safe");
    reveal_strlit("-c");
}

proof fn lemma_names_apart(name: Seq<char>)
    requires
        name.len() >= 2,
    ensures
        name.len() != 2 ==> name != seq!['-', 'i'] && name != seq!['-', 'y'] && name != seq!['-', 'f']
            && name != seq!['-', 'c'],
        name.len() == 2 && name[1] != 'i' ==> name != seq!['-', 'i'],
        name.len() == 2 && name[1] != 'y' ==> name != seq!['-', 'y'],
        name.len() == 2 && name[1] != 'f' ==> name != seq!['-', 'f'],
        name.len() == 2 && name[1] != 'c' ==> name != seq!['-', 'c'],
        name.len() == 3 && name[1] != 's' ==> name != seq!['-', 's', 's'],
        name.len() == 3 && name[1] != 't' ==> name != seq!['-', 't', 'o'],
        name.len() == 3 && name[2] != 'r' ==> name != seq!['-', 'a', 'r'],
        name.len() == 3 && name[2] != 'c' ==> name != seq!['-', 'a', 'c'],
        name.len() != 3 ==> name != seq!['-', 's', 's'] && name != seq!['-', 't', 'o'] && name != seq![
            '-',
            'a',
            'r',
        ] && name != seq!['-', 'a', 'c'],
        name.len() != 4 ==> name != seq!['-', 'c', ':', 'a'],
        name.len() != 5 ==> name != seq!['-', 's', 'a', 'f', 'e'],
{
}

/// Cutting a region keeps what lies between its start and its end: the tool is told to begin at the
/// start and to stop at the end, in the time of the recording, which it opens first. No length is
/// given. The result is one channel of sixteen-bit samples at sixteen kilohertz, and goes to the
/// output, which may be overwritten.
pub proof fn a_region_is_cut_from_its_start_to_its_end(
    input: Seq<char>,
    region: TrimRegion,
    output: Seq<char>,
)
    ensures
        ({
            let args = cut_args(input, region, output);
            &&& cut_interval(args) == (Some(region.start@), Some(region.end@))
            &&& option_value(args, seq!['-', 't'], 0) is None
            &&& args[0] == seq!['-', 'y'] && args[1] == seq!['-', 'i'] && args[2] == input
            &&& option_value(args, seq!['-', 'i'], 0) == Some(input)
            &&& option_value(args, seq!['-', 'a', 'r'], 0) == Some("16000"@)
            &&& option_value(args, seq!['-', 'a', 'c'], 0) == Some("1"@)
            &&& option_value(args, seq!['-', 'c', ':', 'a'], 0) == Some("pcm_s16le"@)
            &&& args.last() == output
        }),
{
    reveal_with_fuel(option_value, 9);
    lemma_option_names();
    lemma_names_apart(seq!['-', 't']);
    lemma_names_apart(seq!['-', 'i']);
    lemma_names_apart(seq!['-', 's', 's']);
    lemma_names_apart(seq!['-', 't', 'o']);
    lemma_names_apart(seq!['-', 'a', 'r']);
    lemma_names_apart(seq!['-', 'a', 'c']);
    lemma_names_apart(seq!['-', 'c', ':', 'a']);
}

fn push_arg(args: &mut Vec<String>, arg: &str)
    ensures
        views(final(args)@) == views(old(args)@).push(arg@),
{
    args.push(arg.to_owned());
    assert(views(args@) =~= views(old(args)@).push(arg@));
}

/// Lists the arguments that cut a region.
pub fn trim_args(input: &str, region: &TrimRegion, output: &str) -> (r: Vec<String>)
    ensures
        views(r@) == cut_args(input@, *region, output@),
{
    let mut args: Vec<String> = Vec::new();
    push_arg(&mut args, "-y");
    push_arg(&mut args, "-i");
    push_arg(&mut args, input);
    push_arg(&mut args, "-ss");
    push_arg(&mut args, region.start.as_str());
    push_arg(&mut args, "-to");
    push_arg(&mut args, region.end.as_str());
    push_arg(&mut args, "-ar");
    push_arg(&mut args, "16000");
    push_arg(&mut args, "-ac");
    push_arg(&mut args, "1");
    push_arg(&mut args, "-c:a");
    push_arg(&mut args, "pcm_s16le");
    push_arg(&mut args, output);
    assert(views(args@) =~= cut_args(input@, *region, output@));
    args
}

/// The arguments that put the listed parts together.
pub open spec fn concat_command(list: Seq<char>, output: Seq<char>) -> Seq<Seq<char>> {
    seq![
        "-y"@,
        "-f"@,
        "concat"@,
        "-safe"@,
        "0"@,
        "-i"@,
        list,
        "-c"@,
        "copy"@,
        output,
    ]
}

/// Lists the arguments that put the listed parts together.
pub fn concat_args(list: &str, output: &str) -> (r: Vec<String>)
    ensures
        views(r@) == concat_command(list@, output@),
{
    let mut args: Vec<String> = Vec::new();
    push_arg(&mut args, "-y");
    push_arg(&mut args, "-f");
    push_arg(&mut args, "concat");
    push_arg(&mut args, "-safe");
    push_arg(&mut args, "0");
    push_arg(&mut args, "-i");
    push_arg(&mut args, list);
    push_arg(&mut args, "-c");
    push_arg(&mut args, "copy");
    push_arg(&mut args, output);
    assert(views(args@) =~= concat_command(list@, output@));
    args
}

/// The line of a part: its path in quotes, and each quote in it closed, escaped and opened again.
pub open spec fn list_line(path: Seq<char>) -> Seq<char> {
    "file '"@ + replace(path, "'"@, "'\\''"@) + "'"@
}

/// The list of parts.
pub open spec fn concat_list(parts: Seq<Seq<char>>) -> Seq<char> {
    join(parts.map_values(|p: Seq<char>| list_line(p)), "\n"@)
}

/// Putting parts together takes them as the list names them, wherever they lie, and copies them
/// unchanged into the output.
pub proof fn listed_parts_are_put_together(list: Seq<char>, output: Seq<char>)
    ensures
        ({
            let args = concat_command(list, output);
            &&& args[0] == seq!['-', 'y']
            &&& option_value(args, seq!['-', 'f'], 0) == Some("concat"@)
            &&& option_value(args, seq!['-', 's', 'a', 'f', 'e'], 0) == Some("0"@)
            &&& option_value(args, seq!['-', 'i'], 0) == Some(list)
            &&& option_value(args, seq!['-', 'c'], 0) == Some("copy"@)
            &&& args.last() == output
        }),
{
    reveal_with_fuel(option_value, 7);
    lemma_option_names();
    lemma_names_apart(seq!['-', 'f']);
    lemma_names_apart(seq!['-', 'i']);
    lemma_names_apart(seq!['-', 'c']);
    lemma_names_apart(seq!['-', 's', 'a', 'f', 'e']);
}

/// A quote as it stands in the list: closed, escaped and opened again.
pub open spec fn listed_quote() -> Seq<char> {
    seq!['\'', '\\', '\'', '\'']
}

/// What a quoted path of the list says.
pub open spec fn unquoted(s: Seq<char>) -> Seq<char>
    decreases s.len(),
{
    if s.len() == 0 {
        Seq::empty()
    } else if starts_with(s, listed_quote()) {
        seq!['\''] + unquoted(s.skip(4))
    } else {
        seq![s[0]] + unquoted(s.skip(1))
    }
}

proof fn lemma_unquoted(path: Seq<char>)
    ensures
        unquoted(replace(path, seq!['\''], listed_quote())) == path,
    decreases path.len(),
{
    let q = listed_quote();
    let done = replace(path, seq!['\''], q);
    if path.len() == 0 {
        assert(done =~= path);
    } else {
        let rest = path.skip(1);
        lemma_unquoted(rest);
        let tail = replace(rest, seq!['\''], q);
        assert(path =~= seq![path[0]] + rest);
        if path[0] == '\'' {
            assert(path.take(1) =~= seq!['\'']);
            assert(done =~= q + tail);
            assert(done.take(4) =~= q);
            assert(done.skip(4) =~= tail);
        } else {
            assert(!starts_with(path, seq!['\''])) by {
                assert(path.take(1)[0] == path[0]);
            }
            assert(done =~= seq![path[0]] + tail);
            assert(done.skip(1) =~= tail);
            assert(!starts_with(done, q)) by {
                if starts_with(done, q) {
                    assert(done.take(4)[0] == done[0]);
                }
            }
        }
    }
}

/// The list names every part, in order and on a line of its own: behind the word for a file, in quotes,
/// and so that its path can be read back.
pub proof fn the_list_names_every_part(parts: Seq<Seq<char>>) -> (named: Seq<Seq<char>>)
    ensures
        named.len() == parts.len(),
        in_order(concat_list(parts), named),
        parts.len() > 0 ==> concat_list(parts).len() == total_len(named) + parts.len() - 1,
        forall|i: int|
            0 <= i < parts.len() ==> {
                let line = #[trigger] named[i];
                &&& line.len() >= 7
                &&& line.take(6) == seq!['f', 'i', 'l', 'e', ' ', '\'']
                &&& line.last() == '\''
                &&& unquoted(line.subrange(6, line.len() - 1)) == parts[i]
            },
{
    let named = parts.map_values(|p: Seq<char>| list_line(p));
    reveal_strlit("\n");
    reveal_strlit("file '");
    reveal_strlit("'");
    reveal_strlit("'\\''");
    a_join_holds_its_parts_in_order(named, "\n"@);
    assert("'"@ =~= seq!['\'']);
    assert("'\\''"@ =~= listed_quote());
    assert forall|i: int| 0 <= i < parts.len() implies ({
        let line = #[trigger] named[i];
        &&& line.len() >= 7
        &&& line.take(6) == seq!['f', 'i', 'l', 'e', ' ', '\'']
        &&& line.last() == '\''
        &&& unquoted(line.subrange(6, line.len() - 1)) == parts[i]
    }) by {
        let line = named[i];
        lemma_unquoted(parts[i]);
        assert(line.take(6) =~= seq!['f', 'i', 'l', 'e', ' ', '\'']);
        assert(line.subrange(6, line.len() - 1) =~= replace(parts[i], seq!['\''], listed_quote()));
    }
    named
}

// ---------------------------------------------------------------------------
// The course of cutting
// ---------------------------------------------------------------------------

/// What came of running the tool.
pub enum ToolOutcome {
    Succeeded,
    /// It could not be started, for this reason.
    NotStarted(String),
    /// It failed, and said this.
    Failed(String),
}

/// A failure, and the files to remove because of it.
pub struct TrimFailure {
    pub error: CommandError,
    pub remove: Vec<String>,
}

/// Checks what came of cutting the only region.
pub fn check_single_region(outcome: &ToolOutcome) -> (r: Result<(), CommandError>)
    ensures
        match outcome {
            ToolOutcome::Succeeded => r is Ok,
            ToolOutcome::NotStarted(e) => r is Err && r->Err_0@ == trim_error(
                "ffmpeg failed to start: "@ + e@,
            ),
            ToolOutcome::Failed(said) => r is Err && r->Err_0@ == trim_error(
                "ffmpeg trim failed: "@ + said@,
            ),
        },
{
    match outcome {
        ToolOutcome::Succeeded => Ok(()),
        ToolOutcome::NotStarted(e) => Err(
            make_trim_error("ffmpeg failed to start: ", e.as_str()),
        ),
        ToolOutcome::Failed(said) => Err(make_trim_error("ffmpeg trim failed: ", said.as_str())),
    }
}

/// Takes what came of cutting one of several regions. When it worked, its file joins the parts. When
/// the tool failed, the parts are to be removed; when it did not start, nothing is.
pub fn take_region(parts: &mut Vec<String>, path: &str, outcome: &ToolOutcome) -> (r: Result<
    (),
    TrimFailure,
>)
    ensures
        match outcome {
            ToolOutcome::Succeeded => r is Ok && views(final(parts)@) == views(old(parts)@).push(
                path@,
            ),
            ToolOutcome::NotStarted(e) => {
                &&& r is Err
                &&& r->Err_0.error@ == trim_error("ffmpeg failed to start: "@ + e@)
                &&& views(r->Err_0.remove@) == Seq::<Seq<char>>::empty()
                &&& *final(parts) == *old(parts)
            },
            ToolOutcome::Failed(said) => {
                &&& r is Err
                &&& r->Err_0.error@ == trim_error(
                    "ffmpeg trim failed on region "@ + decimal(old(parts)@.len() as nat) + ": "@
                        + said@,
                )
                &&& views(r->Err_0.remove@) == views(old(parts)@)
                &&& *final(parts) == *old(parts)
            },
        },
{
    match outcome {
        ToolOutcome::Succeeded => {
            parts.push(path.to_owned());
            assert(views(parts@) =~= views(old(parts)@).push(path@));
            Ok(())
        },
        ToolOutcome::NotStarted(e) => {
            let remove: Vec<String> = Vec::new();
            assert(views(remove@) =~= Seq::<Seq<char>>::empty());
            Err(
                TrimFailure {
                    error: make_trim_error("ffmpeg failed to start: ", e.as_str()),
                    remove,
                },
            )
        },
        ToolOutcome::Failed(said) => {
            let mut message: String = "ffmpeg trim failed on region ".to_owned();
            push_decimal(&mut message, parts.len() as u64);
            message.append(": ");
            message.append(said.as_str());
            let remove: Vec<String> = copy_paths(parts);
            Err(TrimFailure { error: CommandError::new("trim", message.as_str()), remove })
        },
    }
}

fn copy_paths(list: &Vec<String>) -> (r: Vec<String>)
    ensures
        views(r@) == views(list@),
{
    let mut out: Vec<String> = Vec::new();
    let mut i: usize = 0;
    while i < list.len()
        invariant
            i <= list@.len(),
            views(out@) =~= views(list@).take(i as int),
        decreases list@.len() - i,
    {
        let ghost prior = views(out@);
        let path: String = list[i].clone();
        out.push(path);
        assert(views(out@) =~= prior.push(path@));
        i = i + 1;
    }
    assert(views(list@).take(i as int) =~= views(list@));
    out
}

/// Writes the list of parts.
pub fn write_concat_list(parts: &Vec<String>) -> (r: String)
    ensures
        r@ == concat_list(views(parts@)),
{
    let ghost f = |p: Seq<char>| list_line(p);
    proof {
        reveal_strlit("'");
        assert("'"@.len() == 1);
    }
    let mut list: Vec<String> = Vec::new();
    let mut i: usize = 0;
    while i < parts.len()
        invariant
            i <= parts@.len(),
            "'"@.len() == 1,
            f == |p: Seq<char>| list_line(p),
            views(list@) =~= views(parts@).take(i as int).map_values(f),
        decreases parts@.len() - i,
    {
        let ghost prior = views(list@);
        let line: String = cat3(
            "file '",
            replace_text(parts[i].as_str(), "'", "'\\''").as_str(),
            "'",
        );
        list.push(line);
        proof {
            assert(views(parts@)[i as int] == parts@[i as int]@);
            assert(line@ == f(views(parts@)[i as int]));
            assert(views(list@) =~= prior.push(line@));
        }
        i = i + 1;
    }
    assert(views(parts@).take(i as int) =~= views(parts@));
    join_texts(&list, "\n")
}

/// Checks that the list of parts was written.
pub fn check_concat_list(written: &Result<(), String>) -> (r: Result<(), CommandError>)
    ensures
        match written {
            Ok(()) => r is Ok,
            Err(e) => r is Err && r->Err_0@ == trim_error("failed to write concat list: "@ + e@),
        },
{
    match written {
        Ok(()) => Ok(()),
        Err(e) => Err(make_trim_error("failed to write concat list: ", e.as_str())),
    }
}

/// What follows putting the parts together: the files to remove, and whether it worked.
pub struct ConcatEnd {
    pub remove: Vec<String>,
    pub result: Result<(), CommandError>,
}

/// Takes what came of putting the parts together. Once the tool has run, the list and every part
/// are to be removed, whether it worked or not.
pub fn finish_concat(parts: &Vec<String>, list: &str, outcome: &ToolOutcome) -> (r: ConcatEnd)
    ensures
        match outcome {
            ToolOutcome::NotStarted(e) => {
                &&& views(r.remove@) == Seq::<Seq<char>>::empty()
                &&& r.result is Err
                &&& r.result->Err_0@ == trim_error("ffmpeg concat failed to start: "@ + e@)
            },
            ToolOutcome::Succeeded => {
                &&& views(r.remove@) == seq![list@] + views(parts@)
                &&& r.result is Ok
            },
            ToolOutcome::Failed(said) => {
                &&& views(r.remove@) == seq![list@] + views(parts@)
                &&& r.result is Err
                &&& r.result->Err_0@ == trim_error("ffmpeg concat failed: "@ + said@)
            },
        },
{
    if let ToolOutcome::NotStarted(e) = outcome {
        let remove: Vec<String> = Vec::new();
        assert(views(remove@) =~= Seq::<Seq<char>>::empty());
        return ConcatEnd {
            remove,
            result: Err(make_trim_error("ffmpeg concat failed to start: ", e.as_str())),
        };
    }
    let mut remove: Vec<String> = Vec::new();
    remove.push(list.to_owned());
    let ghost head = views(remove@);
    assert(head =~= seq![list@]);
    let mut copies: Vec<String> = copy_paths(parts);
    let ghost tail = views(copies@);
    remove.append(&mut copies);
    assert(views(remove@) =~= head + tail);
    let result: Result<(), CommandError> = match outcome {
        ToolOutcome::Failed(said) => Err(
            make_trim_error("ffmpeg concat failed: ", said.as_str()),
        ),
        _ => Ok(()),
    };
    ConcatEnd { remove, result }
}

// ---------------------------------------------------------------------------
// The result
// ---------------------------------------------------------------------------

/// The least length of a result, in half seconds.
pub const MIN_TRIMMED_AUDIO_HALF_SECONDS: u64 = 3;

/// Checks what the header of the result says.
pub fn trimmed_audio_output_metadata(sample_rate: u32) -> (r: Result<(), CommandError>)
    ensures
        r is Ok <==> sample_rate != 0,
        r is Err ==> r->Err_0@ == trim_error("trimmed audio has invalid sample rate"@),
{
    if sample_rate == 0 {
        return Err(CommandError::new("trim", "trimmed audio has invalid sample rate"));
    }
    Ok(())
}

/// Why a result is refused, if it is: it is empty, has no length, or is too short. `shown` is its
/// length in seconds, as it is shown.
pub open spec fn output_problem(
    frames: nat,
    sample_rate: nat,
    file_size_bytes: nat,
    shown: Seq<char>,
) -> Option<CommandErrorView> {
    if file_size_bytes == 0 {
        Some(trim_error("trimmed audio file is empty"@))
    } else if frames == 0 {
        Some(trim_error("trimmed audio duration is invalid"@))
    } else if 2 * frames < MIN_TRIMMED_AUDIO_HALF_SECONDS * sample_rate {
        Some(
            trim_error(
                "trimmed audio is too short ("@ + shown
                    + "s). Select at least 1.5s before retranscribing."@,
            ),
        )
    } else {
        None
    }
}

/// Checks the result of cutting: its length is `frames` over `sample_rate` seconds.
pub fn validate_trimmed_audio_output(
    frames: u32,
    sample_rate: u32,
    file_size_bytes: u64,
    shown_duration: &str,
) -> (r: Result<(), CommandError>)
    ensures
        match output_problem(
            frames as nat,
            sample_rate as nat,
            file_size_bytes as nat,
            shown_duration@,
        ) {
            None => r is Ok,
            Some(e) => r is Err && r->Err_0@ == e,
        },
{
    if file_size_bytes == 0 {
        return Err(CommandError::new("trim", "trimmed audio file is empty"));
    }
    if frames == 0 {
        return Err(CommandError::new("trim", "trimmed audio duration is invalid"));
    }
    if 2 * (frames as u64) < MIN_TRIMMED_AUDIO_HALF_SECONDS * (sample_rate as u64) {
        let message: String = cat3(
            "trimmed audio is too short (",
            shown_duration,
            "s). Select at least 1.5s before retranscribing.",
        );
        return Err(CommandError::new("trim", message.as_str()));
    }
    Ok(())
}

/// A result is taken exactly when its file holds something and it lasts a second and a half at least.
pub proof fn a_result_lasts_long_enough(
    frames: nat,
    sample_rate: nat,
    file_size_bytes: nat,
    shown: Seq<char>,
)
    ensures
        output_problem(frames, sample_rate, file_size_bytes, shown) is None <==> file_size_bytes > 0
            && frames > 0 && 2 * frames >= 3 * sample_rate,
{
}

/// A request is taken exactly when there are regions, the settings could be loaded, and it says where
/// the recording is.
pub proof fn a_request_has_regions_and_a_source(
    payload: WriteTrimmedAudioPayload,
    settings: Result<(), String>,
)
    ensures
        trim_problem(payload, settings) is None <==> payload.regions@.len() > 0 && settings is Ok && (
        payload.artifact_id is Some || payload.input_path is Some),
{
}

/// A source that is ready raises no problem. One that is missing is told, with its path where it has one,
/// and one that could not be written is told with the reason.
pub proof fn a_source_that_is_not_ready_is_told(source: TrimSourceView, outcome: SourceOutcome)
    ensures
        source_problem(source, outcome) is None <==> outcome is Ready,
        source_problem(source, outcome) matches Some(e) ==> e.code == "trim"@,
        outcome is Missing ==> (source matches TrimSourceView::File(path) ==> ends_with(
            source_problem(source, outcome)->0.message,
            path,
        )),
        outcome matches SourceOutcome::NotWritten(e) ==> ends_with(
            source_problem(source, outcome)->0.message,
            e@,
        ),
{
    if let Some(e) = source_problem(source, outcome) {
        let m = e.message;
        if let TrimSourceView::File(path) = source {
            if outcome is Missing {
                assert(m.skip(m.len() - path.len()) =~= path);
            }
        }
        if let SourceOutcome::NotWritten(why) = outcome {
            assert(m.skip(m.len() - why@.len()) =~= why@);
        }
    }
}

} // verus!
