//! The probe that runs the toolchain on a second of silence before a transcription starts.

use vstd::prelude::*;
use vstd::string::*;

use crate::domain::{TranscriptionComputeDevice, TranscriptionEngine};
use crate::runtime::health::{compute_device_to_wire, device_wire, engine_to_wire, engine_wire};
use crate::paths::{join_path, joined, parent, parent_path, PathStyle};
use crate::text::{
    a_decimal_gives_back_its_number, cat3, cat4, cat5, contains, decimal, inked, lemma_contains_middle,
    lemma_inked_edge, lines, opt_view, push_decimal, same_text, split_lines, starts_with, trim,
    trim_text, trimming_takes_white_only, views,
};

verus! {

/// The number of seconds that a probe may take.
pub const DEEP_RUNTIME_PROBE_TIMEOUT_SECONDS: u64 = 30;

/// The number of seconds that a probe's result is good for.
pub const DEEP_RUNTIME_PROBE_CACHE_SECONDS: u64 = 300;

/// Why a probe failed.
#[derive(Clone, Debug)]
pub struct RuntimeProbeFailure {
    pub reason_code: String,
    pub message: String,
}

/// The content of a [`RuntimeProbeFailure`].
pub struct ProbeFailureView {
    pub reason_code: Seq<char>,
    pub message: Seq<char>,
}

impl View for RuntimeProbeFailure {
    type V = ProbeFailureView;

    open spec fn view(&self) -> ProbeFailureView {
        ProbeFailureView { reason_code: self.reason_code@, message: self.message@ }
    }
}

/// The failure with this reason and this message.
pub open spec fn failure(reason_code: Seq<char>, message: Seq<char>) -> ProbeFailureView {
    ProbeFailureView { reason_code, message }
}

fn probe_failure(reason_code: &str, message: String) -> (r: RuntimeProbeFailure)
    ensures
        r@ == failure(reason_code@, message@),
{
    RuntimeProbeFailure { reason_code: reason_code.to_owned(), message }
}

// ---------------------------------------------------------------------------
// The cache
// ---------------------------------------------------------------------------

/// A file as the cache knows it.
pub struct FileStamp {
    pub path: String,
    pub size: u64,
    /// The time of its last change in nanoseconds, as text; empty when it is not known.
    pub modified: String,
}

/// The text of a file stamp.
pub open spec fn stamp_text(f: FileStamp) -> Seq<char> {
    f.path@ + ":"@ + decimal(f.size as nat) + ":"@ + f.modified@
}

fn push_stamp(out: &mut String, f: &FileStamp)
    ensures
        final(out)@ == old(out)@ + stamp_text(*f),
{
    let ghost start = out@;
    out.append(f.path.as_str());
    out.append(":");
    push_decimal(out, f.size);
    out.append(":");
    out.append(f.modified.as_str());
    assert(out@ =~= start + stamp_text(*f));
}

/// The key under which the result of a probe is kept: the engine, the three files and the device.
pub open spec fn cache_key(
    engine: TranscriptionEngine,
    ffmpeg: FileStamp,
    engine_file: FileStamp,
    model: FileStamp,
    device: TranscriptionComputeDevice,
) -> Seq<char> {
    engine_wire(engine) + "|"@ + stamp_text(ffmpeg) + "|"@ + stamp_text(engine_file) + "|"@
        + stamp_text(model) + "|"@ + device_wire(device)
}

/// Makes the key under which the result of a probe is kept.
pub fn runtime_probe_cache_key(
    engine: TranscriptionEngine,
    ffmpeg: &FileStamp,
    engine_file: &FileStamp,
    model: &FileStamp,
    device: TranscriptionComputeDevice,
) -> (r: String)
    ensures
        r@ == cache_key(engine, *ffmpeg, *engine_file, *model, device),
{
    let mut out: String = engine_to_wire(engine).to_owned();
    out.append("|");
    push_stamp(&mut out, ffmpeg);
    out.append("|");
    push_stamp(&mut out, engine_file);
    out.append("|");
    push_stamp(&mut out, model);
    out.append("|");
    out.append(compute_device_to_wire(device));
    out
}

/// Probes on different devices are kept apart, whatever the files are.
pub proof fn cache_key_tells_devices_apart(
    engine: TranscriptionEngine,
    ffmpeg: FileStamp,
    engine_file: FileStamp,
    model: FileStamp,
    a: TranscriptionComputeDevice,
    b: TranscriptionComputeDevice,
)
    requires
        a != b,
    ensures
        cache_key(engine, ffmpeg, engine_file, model, a) != cache_key(
            engine,
            ffmpeg,
            engine_file,
            model,
            b,
        ),
{
    reveal_strlit("auto");
    reveal_strlit("gpu");
    reveal_strlit("cpu");
    let head = engine_wire(engine) + "|"@ + stamp_text(ffmpeg) + "|"@ + stamp_text(engine_file)
        + "|"@ + stamp_text(model) + "|"@;
    let ka = cache_key(engine, ffmpeg, engine_file, model, a);
    let kb = cache_key(engine, ffmpeg, engine_file, model, b);
    assert(ka == head + device_wire(a));
    assert(kb == head + device_wire(b));
    assert(device_wire(a) != device_wire(b)) by {
        assert("auto"@.len() == 4);
        assert("gpu"@.len() == 3);
        assert("cpu"@.len() == 3);
        assert("gpu"@[0] == 'g');
        assert("cpu"@[0] == 'c');
    }
    if ka == kb {
        assert(ka.skip(head.len() as int) =~= device_wire(a));
        assert(kb.skip(head.len() as int) =~= device_wire(b));
    }
}

/// A model file of another size, or changed at another time, has another key.
#[verifier::rlimit(40)]
pub proof fn cache_key_tells_model_files_apart(
    engine: TranscriptionEngine,
    ffmpeg: FileStamp,
    engine_file: FileStamp,
    a: FileStamp,
    b: FileStamp,
    device: TranscriptionComputeDevice,
)
    requires
        a.path@ == b.path@,
        a.size != b.size || a.modified@ != b.modified@,
    ensures
        cache_key(engine, ffmpeg, engine_file, a, device) != cache_key(
            engine,
            ffmpeg,
            engine_file,
            b,
            device,
        ),
{
    reveal_strlit(":");
    let head = engine_wire(engine) + "|"@ + stamp_text(ffmpeg) + "|"@ + stamp_text(engine_file)
        + "|"@ + a.path@ + ":"@;
    let tail = "|"@ + device_wire(device);
    let ka = cache_key(engine, ffmpeg, engine_file, a, device);
    let kb = cache_key(engine, ffmpeg, engine_file, b, device);
    let da = decimal(a.size as nat);
    let db = decimal(b.size as nat);
    let sa = da + ":"@ + a.modified@;
    let sb = db + ":"@ + b.modified@;
    assert(ka =~= head + sa + tail);
    assert(kb =~= head + sb + tail);
    a_decimal_gives_back_its_number(a.size as nat);
    a_decimal_gives_back_its_number(b.size as nat);
    if ka == kb {
        assert(sa.len() == sb.len());
        assert(ka.subrange(head.len() as int, head.len() + sa.len() as int) =~= sa);
        assert(kb.subrange(head.len() as int, head.len() + sb.len() as int) =~= sb);
        assert(sa == sb);
        assert(sa[da.len() as int] == ':');
        assert(sb[db.len() as int] == ':');
        if da.len() < db.len() {
            assert(sb[da.len() as int] == db[da.len() as int]);
        }
        if db.len() < da.len() {
            assert(sa[db.len() as int] == da[db.len() as int]);
        }
        assert(sa.take(da.len() as int) =~= da);
        assert(sb.take(db.len() as int) =~= db);
        assert(sa.skip(da.len() as int + 1) =~= a.modified@);
        assert(sb.skip(db.len() as int + 1) =~= b.modified@);
    }
}

/// A key names the engine, the stamps of the three files and the device: nothing that a probe's result
/// depends on is left out of it.
pub proof fn a_key_names_everything(
    engine: TranscriptionEngine,
    ffmpeg: FileStamp,
    engine_file: FileStamp,
    model: FileStamp,
    device: TranscriptionComputeDevice,
)
    ensures
        ({
            let key = cache_key(engine, ffmpeg, engine_file, model, device);
            &&& starts_with(key, engine_wire(engine))
            &&& contains(key, ffmpeg.path@ + ":"@ + decimal(ffmpeg.size as nat) + ":"@
                + ffmpeg.modified@)
            &&& contains(key, engine_file.path@ + ":"@ + decimal(engine_file.size as nat) + ":"@
                + engine_file.modified@)
            &&& contains(key, model.path@ + ":"@ + decimal(model.size as nat) + ":"@ + model.modified@)
        }),
{
    let key = cache_key(engine, ffmpeg, engine_file, model, device);
    let e = engine_wire(engine);
    let f = stamp_text(ffmpeg);
    let g = stamp_text(engine_file);
    let m = stamp_text(model);
    let d = device_wire(device);
    let b = "|"@;
    assert(key.take(e.len() as int) =~= e);
    lemma_contains_middle(e + b, f, b + g + b + m + b + d);
    assert(key =~= e + b + f + (b + g + b + m + b + d));
    lemma_contains_middle(e + b + f + b, g, b + m + b + d);
    assert(key =~= e + b + f + b + g + (b + m + b + d));
    lemma_contains_middle(e + b + f + b + g + b, m, b + d);
    assert(key =~= e + b + f + b + g + b + m + (b + d));
}

/// Whether a result that is some seconds old is still good.
pub fn probe_result_is_fresh(age_seconds: u64) -> (r: bool)
    ensures
        r == (age_seconds < DEEP_RUNTIME_PROBE_CACHE_SECONDS),
        r <==> age_seconds < 5 * 60,
{
    age_seconds < DEEP_RUNTIME_PROBE_CACHE_SECONDS
}

// ---------------------------------------------------------------------------
// Running a command
// ---------------------------------------------------------------------------

/// A change to the environment of a probe: a variable is set, or removed where it has no value.
#[derive(Debug)]
pub struct EnvironmentChange {
    pub name: String,
    pub value: Option<String>,
}

/// The variables and values of a list of changes.
pub open spec fn environment_view(changes: Seq<EnvironmentChange>) -> Seq<
    (Seq<char>, Option<Seq<char>>),
> {
    Seq::new(changes.len(), |i: int| (changes[i].name@, opt_view(changes[i].value)))
}

/// The changes that choose a device: only the Parakeet engine takes it from the environment, and
/// an explicit choice is not left to what was inherited.
pub open spec fn device_environment(
    engine: TranscriptionEngine,
    device: TranscriptionComputeDevice,
) -> Seq<(Seq<char>, Option<Seq<char>>)> {
    if engine != TranscriptionEngine::ParakeetCpp {
        Seq::empty()
    } else {
        match device {
            TranscriptionComputeDevice::Cpu => seq![
                ("PARAKEET_DEVICE"@, Some("cpu"@)),
                ("SBOBINO_PARAKEET_FORCE_METAL"@, None),
            ],
            TranscriptionComputeDevice::Gpu => seq![
                ("PARAKEET_DEVICE"@, None),
                ("SBOBINO_PARAKEET_FORCE_CPU"@, None),
            ],
            TranscriptionComputeDevice::Auto => Seq::empty(),
        }
    }
}

/// Lists the changes to a probe's environment that choose its device.
pub fn configure_probe_compute_environment(
    engine: TranscriptionEngine,
    device: TranscriptionComputeDevice,
) -> (r: Vec<EnvironmentChange>)
    ensures
        environment_view(r@) == device_environment(engine, device),
{
    let mut out: Vec<EnvironmentChange> = Vec::new();
    if engine == TranscriptionEngine::ParakeetCpp {
        match device {
            TranscriptionComputeDevice::Cpu => {
                out.push(
                    EnvironmentChange {
                        name: "PARAKEET_DEVICE".to_owned(),
                        value: Some("cpu".to_owned()),
                    },
                );
                out.push(
                    EnvironmentChange {
                        name: "SBOBINO_PARAKEET_FORCE_METAL".to_owned(),
                        value: None,
                    },
                );
            },
            TranscriptionComputeDevice::Gpu => {
                out.push(
                    EnvironmentChange { name: "PARAKEET_DEVICE".to_owned(), value: None },
                );
                out.push(
                    EnvironmentChange {
                        name: "SBOBINO_PARAKEET_FORCE_CPU".to_owned(),
                        value: None,
                    },
                );
            },
            TranscriptionComputeDevice::Auto => {},
        }
    }
    assert(environment_view(out@) =~= device_environment(engine, device));
    out
}

/// An environment after changes: a variable with a value is set, one without is removed.
pub open spec fn changed_environment(
    inherited: Map<Seq<char>, Seq<char>>,
    changes: Seq<(Seq<char>, Option<Seq<char>>)>,
) -> Map<Seq<char>, Seq<char>>
    decreases changes.len(),
{
    if changes.len() == 0 {
        inherited
    } else {
        let before = changed_environment(inherited, changes.drop_last());
        match changes.last().1 {
            Some(value) => before.insert(changes.last().0, value),
            None => before.remove(changes.last().0),
        }
    }
}

/// An explicit device is what Parakeet finds in its environment, whatever was inherited: the processor
/// is named and nothing forces the graphics device, or neither names nor forces the processor. No other
/// choice touches the environment, and neither does any choice for Whisper.
pub proof fn an_explicit_device_overrides_the_environment(
    inherited: Map<Seq<char>, Seq<char>>,
    engine: TranscriptionEngine,
    device: TranscriptionComputeDevice,
)
    ensures
        ({
            let e = changed_environment(inherited, device_environment(engine, device));
            let parakeet = engine == TranscriptionEngine::ParakeetCpp;
            &&& parakeet && device == TranscriptionComputeDevice::Cpu ==> {
                &&& e.dom().contains("PARAKEET_DEVICE"@)
                &&& e["PARAKEET_DEVICE"@] == "cpu"@
                &&& !e.dom().contains("SBOBINO_PARAKEET_FORCE_METAL"@)
            }
            &&& parakeet && device == TranscriptionComputeDevice::Gpu ==> {
                &&& !e.dom().contains("PARAKEET_DEVICE"@)
                &&& !e.dom().contains("SBOBINO_PARAKEET_FORCE_CPU"@)
            }
            &&& !parakeet || device == TranscriptionComputeDevice::Auto ==> e == inherited
        }),
{
    reveal_with_fuel(changed_environment, 3);
    reveal_strlit("PARAKEET_DEVICE");
    reveal_strlit("SBOBINO_PARAKEET_FORCE_METAL");
    reveal_strlit("SBOBINO_PARAKEET_FORCE_CPU");
    assert("PARAKEET_DEVICE"@[0] != "SBOBINO_PARAKEET_FORCE_METAL"@[0]);
    assert("PARAKEET_DEVICE"@[0] != "SBOBINO_PARAKEET_FORCE_CPU"@[0]);
    let changes = device_environment(engine, device);
    if changes.len() == 2 {
        assert(changes.drop_last() =~= seq![changes[0]]);
        assert(changes.drop_last().drop_last() =~= Seq::<(Seq<char>, Option<Seq<char>>)>::empty());
    }
}

/// How a probe's command ended.
pub enum ProbeRun {
    /// There is no such executable.
    Missing,
    SpawnFailed(String),
    TimedOut,
    WaitFailed(String),
    Succeeded,
    /// It exited with this status, having written this.
    Failed { status: String, stdout: String, stderr: String },
}

/// The failure that the end of a probe's command stands for, if any.
pub open spec fn run_failure(executable: Seq<char>, run: ProbeRun) -> Option<ProbeFailureView> {
    match run {
        ProbeRun::Succeeded => None,
        ProbeRun::Missing => Some(
            failure(
                "runtime_probe_missing"@,
                "Runtime probe executable is missing at '"@ + executable + "'."@,
            ),
        ),
        ProbeRun::SpawnFailed(error) => Some(
            failure(
                "runtime_probe_spawn_failed"@,
                "Failed to start runtime probe '"@ + executable + "': "@ + error@,
            ),
        ),
        ProbeRun::TimedOut => Some(
            failure(
                "runtime_probe_timeout"@,
                "Runtime probe '"@ + executable + "' timed out after "@ + decimal(
                    DEEP_RUNTIME_PROBE_TIMEOUT_SECONDS as nat,
                ) + " seconds."@,
            ),
        ),
        ProbeRun::WaitFailed(error) => Some(
            failure(
                "runtime_probe_wait_failed"@,
                "Runtime probe '"@ + executable + "' could not be collected: "@ + error@,
            ),
        ),
        ProbeRun::Failed { status, stdout, stderr } => {
            let detail = if trim(stderr@).len() == 0 { trim(stdout@) } else { trim(stderr@) };
            Some(
                failure(
                    "runtime_probe_failed"@,
                    if detail.len() == 0 {
                        "Runtime probe '"@ + executable + "' exited with status "@ + status@ + "."@
                    } else {
                        "Runtime probe '"@ + executable + "' failed: "@ + detail
                    },
                ),
            )
        },
    }
}

/// Turns the end of a probe's command into a result.
pub fn run_runtime_probe_command_capture(executable: &str, run: &ProbeRun) -> (r: Result<
    (),
    RuntimeProbeFailure,
>)
    ensures
        match run_failure(executable@, *run) {
            None => r is Ok,
            Some(f) => r is Err && r->Err_0@ == f,
        },
{
    match run {
        ProbeRun::Succeeded => Ok(()),
        ProbeRun::Missing => Err(
            probe_failure(
                "runtime_probe_missing",
                cat3("Runtime probe executable is missing at '", executable, "'."),
            ),
        ),
        ProbeRun::SpawnFailed(error) => Err(
            probe_failure(
                "runtime_probe_spawn_failed",
                cat4("Failed to start runtime probe '", executable, "': ", error.as_str()),
            ),
        ),
        ProbeRun::TimedOut => {
            let mut message: String = cat3("Runtime probe '", executable, "' timed out after ");
            push_decimal(&mut message, DEEP_RUNTIME_PROBE_TIMEOUT_SECONDS);
            message.append(" seconds.");
            Err(probe_failure("runtime_probe_timeout", message))
        },
        ProbeRun::WaitFailed(error) => Err(
            probe_failure(
                "runtime_probe_wait_failed",
                cat4(
                    "Runtime probe '",
                    executable,
                    "' could not be collected: ",
                    error.as_str(),
                ),
            ),
        ),
        ProbeRun::Failed { status, stdout, stderr } => {
            let err: String = trim_text(stderr.as_str());
            let out: String = trim_text(stdout.as_str());
            let detail: String = if err.as_str().is_empty() {
                out
            } else {
                err
            };
            let message: String = if detail.as_str().is_empty() {
                cat5(
                    "Runtime probe '",
                    executable,
                    "' exited with status ",
                    status.as_str(),
                    ".",
                )
            } else {
                cat4("Runtime probe '", executable, "' failed: ", detail.as_str())
            };
            Err(probe_failure("runtime_probe_failed", message))
        },
    }
}

/// A probe fails unless its command succeeded, and each way of failing has a reason of its own. The
/// executable is named, and what went wrong is told: what the command wrote to its error output goes
/// before what it wrote otherwise.
pub proof fn a_failed_probe_says_why(executable: Seq<char>, run: ProbeRun)
    ensures
        run_failure(executable, run) is None <==> run is Succeeded,
        run_failure(executable, run) matches Some(f) ==> contains(f.message, executable),
        match run {
            ProbeRun::SpawnFailed(e) => contains(run_failure(executable, run)->0.message, e@),
            ProbeRun::WaitFailed(e) => contains(run_failure(executable, run)->0.message, e@),
            ProbeRun::Failed { status, stdout, stderr } => {
                let said = run_failure(executable, run)->0.message;
                &&& inked(stderr@).len() > 0 ==> contains(said, trim(stderr@))
                &&& inked(stderr@).len() == 0 && inked(stdout@).len() > 0 ==> contains(
                    said,
                    trim(stdout@),
                )
                &&& inked(stderr@).len() == 0 && inked(stdout@).len() == 0 ==> contains(said, status@)
            },
            _ => true,
        },
{
    match run {
        ProbeRun::Succeeded => {},
        ProbeRun::Missing => {
            lemma_contains_middle("Runtime probe executable is missing at '"@, executable, "'."@);
        },
        ProbeRun::SpawnFailed(e) => {
            lemma_said("Failed to start runtime probe '"@, executable, "': "@, e@);
        },
        ProbeRun::TimedOut => {
            let tail = "' timed out after "@ + decimal(DEEP_RUNTIME_PROBE_TIMEOUT_SECONDS as nat)
                + " seconds."@;
            lemma_contains_middle("Runtime probe '"@, executable, tail);
            assert("Runtime probe '"@ + executable + tail =~= run_failure(executable, run)->0.message);
        },
        ProbeRun::WaitFailed(e) => {
            lemma_said("Runtime probe '"@, executable, "' could not be collected: "@, e@);
        },
        ProbeRun::Failed { status, stdout, stderr } => {
            trimming_takes_white_only(stdout@);
            trimming_takes_white_only(stderr@);
            lemma_inked_edge(trim(stdout@));
            lemma_inked_edge(trim(stderr@));
            let detail = if trim(stderr@).len() == 0 { trim(stdout@) } else { trim(stderr@) };
            let said = run_failure(executable, run)->0.message;
            if detail.len() == 0 {
                let head = "Runtime probe '"@ + executable + "' exited with status "@;
                lemma_contains_middle(head, status@, "."@);
                lemma_contains_middle(
                    "Runtime probe '"@,
                    executable,
                    "' exited with status "@ + status@ + "."@,
                );
                assert(said =~= "Runtime probe '"@ + executable + ("' exited with status "@ + status@
                    + "."@));
            } else {
                lemma_said("Runtime probe '"@, executable, "' failed: "@, detail);
            }
        },
    }
}

proof fn lemma_said(a: Seq<char>, x: Seq<char>, b: Seq<char>, y: Seq<char>)
    ensures
        contains(a + x + b + y, x),
        contains(a + x + b + y, y),
{
    lemma_contains_middle(a, x, b + y);
    assert(a + x + (b + y) =~= a + x + b + y);
    lemma_contains_middle(a + x + b, y, Seq::empty());
    assert(a + x + b + y + Seq::empty() =~= a + x + b + y);
}

// ---------------------------------------------------------------------------
// The fixture
// ---------------------------------------------------------------------------

/// The audio that the toolchain is tried on.
pub struct ProbeFixture {
    pub channels: u16,
    pub sample_rate: u32,
    pub bits_per_sample: u16,
    pub samples: Vec<i16>,
}

/// Makes the audio that the toolchain is tried on: one second of silence.
pub fn write_runtime_probe_wav() -> (r: ProbeFixture)
    ensures
        r.channels == 1,
        r.sample_rate == 16_000,
        r.bits_per_sample == 16,
        r.samples@ == Seq::new(16_000, |i: int| 0i16),
{
    let mut samples: Vec<i16> = Vec::new();
    let mut i: usize = 0;
    while i < 16_000
        invariant
            i <= 16_000,
            samples@ =~= Seq::new(i as nat, |k: int| 0i16),
        decreases 16_000 - i,
    {
        samples.push(0);
        i = i + 1;
    }
    ProbeFixture { channels: 1, sample_rate: 16_000, bits_per_sample: 16, samples }
}

/// Where the batch worker lies: beside the command-line tool.
pub fn parakeet_batch_worker_path(cli_path: &str, style: PathStyle) -> (r: String)
    ensures
        ({
            let name = match style {
                PathStyle::Windows => "parakeet-batch-json.exe"@,
                PathStyle::Unix => "parakeet-batch-json"@,
            };
            r@ == match parent(style, cli_path@) {
                Some(dir) => joined(style, dir, name),
                None => name,
            }
        }),
{
    let name: &str = match style {
        PathStyle::Windows => "parakeet-batch-json.exe",
        PathStyle::Unix => "parakeet-batch-json",
    };
    match parent_path(style, cli_path) {
        Some(dir) => join_path(style, dir.as_str(), name),
        None => name.to_owned(),
    }
}

/// The manifest of the batch worker: one chunk, the first second of the fixture.
pub fn write_runtime_probe_manifest(wav_path: &str) -> (r: String)
    ensures
        r@ == "0\t0.000\t1.000\t0.000\t1.000\t"@ + wav_path@ + "\n"@,
{
    cat3("0\t0.000\t1.000\t0.000\t1.000\t", wav_path, "\n")
}

/// The texts of a list of arguments.
fn push_arg(args: &mut Vec<String>, arg: &str)
    ensures
        views(final(args)@) == views(old(args)@).push(arg@),
{
    args.push(arg.to_owned());
    assert(views(args@) =~= views(old(args)@).push(arg@));
}

/// The arguments of the Whisper probe.
pub open spec fn whisper_args(
    model: Seq<char>,
    fixture: Seq<char>,
    device: TranscriptionComputeDevice,
) -> Seq<Seq<char>> {
    seq!["-m"@, model, "-f"@, fixture, "-nt"@, "-np"@] + (if device
        == TranscriptionComputeDevice::Cpu {
        seq!["-ng"@, "-nfa"@]
    } else {
        Seq::empty()
    })
}

/// Lists the arguments of the Whisper probe. Only an explicit choice of the processor turns the
/// graphics device off.
pub fn whisper_probe_args(
    model_path: &str,
    fixture_path: &str,
    device: TranscriptionComputeDevice,
) -> (r: Vec<String>)
    ensures
        views(r@) == whisper_args(model_path@, fixture_path@, device),
{
    let mut args: Vec<String> = Vec::new();
    push_arg(&mut args, "-m");
    push_arg(&mut args, model_path);
    push_arg(&mut args, "-f");
    push_arg(&mut args, fixture_path);
    push_arg(&mut args, "-nt");
    push_arg(&mut args, "-np");
    if device == TranscriptionComputeDevice::Cpu {
        push_arg(&mut args, "-ng");
        push_arg(&mut args, "-nfa");
    }
    assert(views(args@) =~= whisper_args(model_path@, fixture_path@, device));
    args
}

/// The Whisper probe runs the model on the fixture, and keeps off the graphics device exactly when the
/// processor was chosen.
pub proof fn a_whisper_probe_runs_the_model_on_the_fixture(
    model: Seq<char>,
    fixture: Seq<char>,
    device: TranscriptionComputeDevice,
)
    ensures
        ({
            let args = whisper_args(model, fixture, device);
            let n = args.len();
            &&& args[0] == seq!['-', 'm'] && args[1] == model
            &&& args[2] == seq!['-', 'f'] && args[3] == fixture
            &&& args[4] == seq!['-', 'n', 't'] && args[5] == seq!['-', 'n', 'p']
            &&& device == TranscriptionComputeDevice::Cpu ==> n == 8 && args[6] == seq!['-', 'n', 'g']
                && args[7] == seq!['-', 'n', 'f', 'a']
            &&& device != TranscriptionComputeDevice::Cpu ==> n == 6
        }),
{
    reveal_strlit("-m");
    reveal_strlit("-f");
    reveal_strlit("-nt");
    reveal_strlit("-np");
    reveal_strlit("-ng");
    reveal_strlit("-nfa");
    assert("-m"@ =~= seq!['-', 'm']);
    assert("-f"@ =~= seq!['-', 'f']);
    assert("-nt"@ =~= seq!['-', 'n', 't']);
    assert("-np"@ =~= seq!['-', 'n', 'p']);
    assert("-ng"@ =~= seq!['-', 'n', 'g']);
    assert("-nfa"@ =~= seq!['-', 'n', 'f', 'a']);
}

/// Lists the arguments of the Parakeet probe.
pub fn parakeet_probe_args(model_path: &str, manifest_path: &str) -> (r: Vec<String>)
    ensures
        views(r@) == seq![
            "--model"@,
            model_path@,
            "--manifest"@,
            manifest_path@,
            "--lang"@,
            "auto"@,
        ],
{
    let mut args: Vec<String> = Vec::new();
    push_arg(&mut args, "--model");
    push_arg(&mut args, model_path);
    push_arg(&mut args, "--manifest");
    push_arg(&mut args, manifest_path);
    push_arg(&mut args, "--lang");
    push_arg(&mut args, "auto");
    assert(views(args@) =~= seq![
        "--model"@,
        model_path@,
        "--manifest"@,
        manifest_path@,
        "--lang"@,
        "auto"@,
    ]);
    args
}

/// Lists the arguments of the decoding probe.
pub fn ffmpeg_probe_args(fixture_path: &str) -> (r: Vec<String>)
    ensures
        views(r@) == seq![
            "-hide_banner"@,
            "-loglevel"@,
            "error"@,
            "-i"@,
            fixture_path@,
            "-f"@,
            "null"@,
            "-"@,
        ],
{
    let mut args: Vec<String> = Vec::new();
    push_arg(&mut args, "-hide_banner");
    push_arg(&mut args, "-loglevel");
    push_arg(&mut args, "error");
    push_arg(&mut args, "-i");
    push_arg(&mut args, fixture_path);
    push_arg(&mut args, "-f");
    push_arg(&mut args, "null");
    push_arg(&mut args, "-");
    assert(views(args@) =~= seq![
        "-hide_banner"@,
        "-loglevel"@,
        "error"@,
        "-i"@,
        fixture_path@,
        "-f"@,
        "null"@,
        "-"@,
    ]);
    args
}

// ---------------------------------------------------------------------------
// The worker's output
// ---------------------------------------------------------------------------

/// What a line holds under a key when it is read as JSON: nothing, or something, with its value
/// where that is an integer; or the parser's complaint.
pub uninterp spec fn json_field(line: Seq<char>, key: Seq<char>) -> Result<
    Option<Option<i64>>,
    Seq<char>,
>;

/// What a line of the worker's output tells: the integer under `index`, if there is one, and whether
/// there is a `result`; or the parser's complaint.
pub open spec fn json_row(line: Seq<char>) -> Result<(Option<i64>, bool), Seq<char>> {
    match json_field(line, "index"@) {
        Err(error) => Err(error),
        Ok(index) => match json_field(line, "result"@) {
            Err(error) => Err(error),
            Ok(result) => Ok(
                (
                    match index {
                        Some(n) => n,
                        None => None,
                    },
                    result is Some,
                ),
            ),
        },
    }
}

/// A line of the worker's output.
pub struct WorkerRow {
    pub index: Option<i64>,
    pub has_result: bool,
}

/// Reads a line as JSON, and what it holds under a key.
///
/// Trusted: `serde_json::from_str` parses the line into a value or complains; `Value::get` looks the
/// key up in it, and `Value::as_i64` reads what is there. All of this depends on the line and the key
/// alone.
#[verifier::external_body]
fn read_json_field(line: &str, key: &str) -> (r: Result<Option<Option<i64>>, String>)
    ensures
        match r {
            Ok(field) => json_field(line@, key@) == Ok::<Option<Option<i64>>, Seq<char>>(field),
            Err(error) => json_field(line@, key@) == Err::<Option<Option<i64>>, Seq<char>>(error@),
        },
{
    match serde_json::from_str::<serde_json::Value>(line) {
        Ok(value) => Ok(value.get(key).map(serde_json::Value::as_i64)),
        Err(error) => Err(error.to_string()),
    }
}

/// Reads a line of the worker's output.
fn read_json_row(line: &str) -> (r: Result<WorkerRow, String>)
    ensures
        match r {
            Ok(row) => json_row(line@) == Ok::<(Option<i64>, bool), Seq<char>>(
                (row.index, row.has_result),
            ),
            Err(error) => json_row(line@) == Err::<(Option<i64>, bool), Seq<char>>(error@),
        },
{
    let index: Option<i64> = match read_json_field(line, "index") {
        Err(error) => {
            return Err(error);
        },
        Ok(Some(n)) => n,
        Ok(None) => None,
    };
    match read_json_field(line, "result") {
        Err(error) => Err(error),
        Ok(field) => Ok(WorkerRow { index, has_result: field.is_some() }),
    }
}

/// What is wrong with a line that was read, if anything.
pub open spec fn row_failure(row: Result<(Option<i64>, bool), Seq<char>>) -> Option<
    ProbeFailureView,
> {
    match row {
        Err(error) => Some(
            failure(
                "parakeetcpp_smoke_invalid_json"@,
                "Parakeet short smoke emitted invalid JSON: "@ + error,
            ),
        ),
        Ok((index, has_result)) => if index == Some(0i64) && has_result {
            None
        } else {
            Some(
                failure(
                    "parakeetcpp_smoke_invalid_json"@,
                    "Parakeet short smoke returned incomplete chunk metadata."@,
                ),
            )
        },
    }
}

/// What is wrong with the lines that were read, if anything: the first that is wrong, or that there
/// is not exactly one.
pub open spec fn rows_failure(rows: Seq<Result<(Option<i64>, bool), Seq<char>>>, from: int) -> Option<
    ProbeFailureView,
>
    decreases rows.len() - from,
{
    if from < 0 || from >= rows.len() {
        if rows.len() == 1 {
            None
        } else {
            Some(
                failure(
                    "parakeetcpp_smoke_invalid_json"@,
                    "Parakeet short smoke expected exactly one JSON row, got "@ + decimal(
                        rows.len(),
                    ) + "."@,
                ),
            )
        }
    } else if row_failure(rows[from]) is Some {
        row_failure(rows[from])
    } else {
        rows_failure(rows, from + 1)
    }
}

/// The worker's output is good exactly when it is one line, for the first chunk and with a result.
pub proof fn one_row_for_the_first_chunk_is_good(rows: Seq<Result<(Option<i64>, bool), Seq<char>>>)
    ensures
        rows_failure(rows, 0) is None <==> rows.len() == 1 && rows[0] == Ok::<
            (Option<i64>, bool),
            Seq<char>,
        >((Some(0i64), true)),
        rows_failure(rows, 0) is Some ==> rows_failure(rows, 0)->0.reason_code
            == "parakeetcpp_smoke_invalid_json"@,
        rows.len() > 0 && rows[0] is Err ==> contains(
            rows_failure(rows, 0)->0.message,
            rows[0]->Err_0,
        ),
{
    lemma_rows_failure(rows, 0);
    reveal_with_fuel(rows_failure, 3);
    if rows.len() > 0 && rows[0] is Err {
        let head = "Parakeet short smoke emitted invalid JSON: "@;
        lemma_contains_middle(head, rows[0]->Err_0, Seq::empty());
        assert(head + rows[0]->Err_0 + Seq::empty() =~= head + rows[0]->Err_0);
    }
}

proof fn lemma_rows_failure(rows: Seq<Result<(Option<i64>, bool), Seq<char>>>, from: int)
    requires
        0 <= from,
    ensures
        rows_failure(rows, from) is None ==> rows.len() == 1,
        rows_failure(rows, from) is Some ==> rows_failure(rows, from)->0.reason_code
            == "parakeetcpp_smoke_invalid_json"@,
    decreases rows.len() - from,
{
    if from < rows.len() && row_failure(rows[from]) is None {
        lemma_rows_failure(rows, from + 1);
    }
}

/// The content of a list of lines that were read.
pub open spec fn row_views(rows: Seq<Result<WorkerRow, String>>) -> Seq<
    Result<(Option<i64>, bool), Seq<char>>,
> {
    rows.map_values(
        |row: Result<WorkerRow, String>|
            match row {
                Ok(w) => Ok::<(Option<i64>, bool), Seq<char>>((w.index, w.has_result)),
                Err(e) => Err::<(Option<i64>, bool), Seq<char>>(e@),
            },
    )
}

/// Checks the lines of the worker's output that were read: exactly one, for the first chunk, with
/// a result.
pub fn check_worker_rows(rows: &Vec<Result<WorkerRow, String>>) -> (r: Result<
    (),
    RuntimeProbeFailure,
>)
    ensures
        match rows_failure(row_views(rows@), 0) {
            None => r is Ok,
            Some(f) => r is Err && r->Err_0@ == f,
        },
{
    let ghost all = row_views(rows@);
    let mut i: usize = 0;
    while i < rows.len()
        invariant
            i <= rows@.len(),
            all == row_views(rows@),
            rows_failure(all, i as int) == rows_failure(all, 0),
        decreases rows@.len() - i,
    {
        match &rows[i] {
            Err(error) => {
                let mut message: String =
                    "Parakeet short smoke emitted invalid JSON: ".to_owned();
                message.append(error.as_str());
                assert(all[i as int] == Err::<(Option<i64>, bool), Seq<char>>(error@));
                return Err(probe_failure("parakeetcpp_smoke_invalid_json", message));
            },
            Ok(row) => {
                let first: bool = match row.index {
                    Some(n) => n == 0,
                    None => false,
                };
                assert(all[i as int] == Ok::<(Option<i64>, bool), Seq<char>>(
                    (row.index, row.has_result),
                ));
                if !first || !row.has_result {
                    return Err(
                        probe_failure(
                            "parakeetcpp_smoke_invalid_json",
                            "Parakeet short smoke returned incomplete chunk metadata.".to_owned(),
                        ),
                    );
                }
            },
        }
        i = i + 1;
    }
    if rows.len() != 1 {
        let mut message: String =
            "Parakeet short smoke expected exactly one JSON row, got ".to_owned();
        push_decimal(&mut message, rows.len() as u64);
        message.append(".");
        return Err(probe_failure("parakeetcpp_smoke_invalid_json", message));
    }
    Ok(())
}

/// Checks the worker's output.
pub fn validate_parakeet_worker_output(stdout: &str) -> (r: Result<(), RuntimeProbeFailure>)
    ensures
        match rows_failure(lines(stdout@).map_values(|l: Seq<char>| json_row(l)), 0) {
            None => r is Ok,
            Some(f) => r is Err && r->Err_0@ == f,
        },
{
    let text_lines: Vec<String> = split_lines(stdout);
    let mut rows: Vec<Result<WorkerRow, String>> = Vec::new();
    let ghost want = lines(stdout@).map_values(|l: Seq<char>| json_row(l));
    let mut i: usize = 0;
    while i < text_lines.len()
        invariant
            i <= text_lines@.len(),
            views(text_lines@) == lines(stdout@),
            want == lines(stdout@).map_values(|l: Seq<char>| json_row(l)),
            row_views(rows@) =~= want.take(i as int),
        decreases text_lines@.len() - i,
    {
        let ghost before = row_views(rows@);
        let row: Result<WorkerRow, String> = read_json_row(text_lines[i].as_str());
        rows.push(row);
        proof {
            assert(views(text_lines@)[i as int] == text_lines@[i as int]@);
            assert(row_views(rows@) =~= before.push(want[i as int]));
            assert(want.take(i + 1) =~= want.take(i as int).push(want[i as int]));
        }
        i = i + 1;
    }
    proof {
        assert(views(text_lines@).len() == text_lines@.len());
        assert(want.take(i as int) =~= want);
    }
    check_worker_rows(&rows)
}

// ---------------------------------------------------------------------------
// The whole probe
// ---------------------------------------------------------------------------

/// The failure of the decoding probe.
pub fn ffmpeg_probe_failure(error: &RuntimeProbeFailure) -> (r: RuntimeProbeFailure)
    ensures
        r@ == failure(
            "ffmpeg_decode_failed"@,
            "FFmpeg decode readiness failed: "@ + error@.message,
        ),
{
    let mut message: String = "FFmpeg decode readiness failed: ".to_owned();
    message.append(error.message.as_str());
    probe_failure("ffmpeg_decode_failed", message)
}

/// The failure of an engine's probe. A Parakeet worker that is not there has a reason of its own.
pub open spec fn engine_failure(
    engine: TranscriptionEngine,
    error: ProbeFailureView,
) -> ProbeFailureView {
    match engine {
        TranscriptionEngine::WhisperCpp => failure(
            "whispercpp_smoke_failed"@,
            "Whisper.cpp"@ + " short transcription readiness failed: "@ + error.message,
        ),
        TranscriptionEngine::ParakeetCpp => failure(
            if error.reason_code == "runtime_probe_missing"@ {
                "parakeet_worker_missing"@
            } else {
                "parakeetcpp_smoke_failed"@
            },
            "Parakeet.cpp"@ + " short transcription readiness failed: "@ + error.message,
        ),
    }
}

/// Words the failure of an engine's probe.
pub fn engine_probe_failure(engine: TranscriptionEngine, error: &RuntimeProbeFailure) -> (r:
    RuntimeProbeFailure)
    ensures
        r@ == engine_failure(engine, error@),
{
    match engine {
        TranscriptionEngine::WhisperCpp => probe_failure(
            "whispercpp_smoke_failed",
            cat3(
                "Whisper.cpp",
                " short transcription readiness failed: ",
                error.message.as_str(),
            ),
        ),
        TranscriptionEngine::ParakeetCpp => {
            let reason: &str = if same_text(error.reason_code.as_str(), "runtime_probe_missing") {
                "parakeet_worker_missing"
            } else {
                "parakeetcpp_smoke_failed"
            };
            probe_failure(
                reason,
                cat3(
                    "Parakeet.cpp",
                    " short transcription readiness failed: ",
                    error.message.as_str(),
                ),
            )
        },
    }
}

/// The steps of the probe, in order.
#[derive(Clone, Copy, PartialEq, Eq, Structural, Debug)]
pub enum DeepProbeStep {
    /// Decode the second of silence with FFmpeg.
    Decode,
    /// Write the list of chunks that Parakeet's worker reads.
    WriteManifest,
    /// Run the engine on the second of silence.
    Transcribe,
    /// The toolchain works.
    Over,
}

/// The step that follows a step that succeeded.
pub open spec fn probe_following(step: DeepProbeStep, engine: TranscriptionEngine) -> DeepProbeStep {
    match step {
        DeepProbeStep::Decode => match engine {
            TranscriptionEngine::WhisperCpp => DeepProbeStep::Transcribe,
            TranscriptionEngine::ParakeetCpp => DeepProbeStep::WriteManifest,
        },
        DeepProbeStep::WriteManifest => DeepProbeStep::Transcribe,
        DeepProbeStep::Transcribe | DeepProbeStep::Over => DeepProbeStep::Over,
    }
}

/// The failure of the probe on a step that failed with `error`.
pub open spec fn step_failure(
    step: DeepProbeStep,
    engine: TranscriptionEngine,
    error: ProbeFailureView,
) -> ProbeFailureView {
    match step {
        DeepProbeStep::Decode => failure(
            "ffmpeg_decode_failed"@,
            "FFmpeg decode readiness failed: "@ + error.message,
        ),
        DeepProbeStep::Transcribe => engine_failure(engine, error),
        DeepProbeStep::WriteManifest | DeepProbeStep::Over => error,
    }
}

/// Decides what follows a step of the probe. `outcome` is what the step's tool wrote, or why the
/// step failed. What Parakeet's worker wrote is checked.
pub fn run_deep_runtime_probe(
    step: DeepProbeStep,
    engine: TranscriptionEngine,
    outcome: &Result<String, RuntimeProbeFailure>,
) -> (r: Result<DeepProbeStep, RuntimeProbeFailure>)
    ensures
        match outcome {
            Err(e) => r is Err && r->Err_0@ == step_failure(step, engine, e@),
            Ok(written) => if step is Transcribe && engine == TranscriptionEngine::ParakeetCpp {
                match rows_failure(
                    lines(written@).map_values(|l: Seq<char>| json_row(l)),
                    0,
                ) {
                    None => r is Ok && r->Ok_0 is Over,
                    Some(f) => r is Err && r->Err_0@ == f,
                }
            } else {
                r is Ok && r->Ok_0 == probe_following(step, engine)
            },
        },
{
    let written: &String = match outcome {
        Err(error) => {
            return Err(
                match step {
                    DeepProbeStep::Decode => ffmpeg_probe_failure(error),
                    DeepProbeStep::Transcribe => engine_probe_failure(engine, error),
                    _ => probe_failure(error.reason_code.as_str(), error.message.clone()),
                },
            );
        },
        Ok(text) => text,
    };
    match step {
        DeepProbeStep::Decode => match engine {
            TranscriptionEngine::WhisperCpp => Ok(DeepProbeStep::Transcribe),
            TranscriptionEngine::ParakeetCpp => Ok(DeepProbeStep::WriteManifest),
        },
        DeepProbeStep::WriteManifest => Ok(DeepProbeStep::Transcribe),
        DeepProbeStep::Transcribe => match engine {
            TranscriptionEngine::WhisperCpp => Ok(DeepProbeStep::Over),
            TranscriptionEngine::ParakeetCpp => match validate_parakeet_worker_output(
                written.as_str(),
            ) {
                Ok(()) => Ok(DeepProbeStep::Over),
                Err(failed) => Err(failed),
            },
        },
        DeepProbeStep::Over => Ok(DeepProbeStep::Over),
    }
}

/// The probe decodes first and transcribes last, and the list of chunks is written in between for
/// Parakeet and never for Whisper.
pub proof fn a_probe_ends_with_a_transcription(engine: TranscriptionEngine)
    ensures
        ({
            let second = probe_following(DeepProbeStep::Decode, engine);
            &&& engine == TranscriptionEngine::WhisperCpp ==> second is Transcribe
            &&& engine == TranscriptionEngine::ParakeetCpp ==> second is WriteManifest
                && probe_following(second, engine) is Transcribe
            &&& probe_following(DeepProbeStep::Transcribe, engine) is Over
            &&& forall|step: DeepProbeStep|
                #[trigger] probe_following(step, engine) is Over ==> step is Transcribe || step is Over
        }),
{
}

/// The failure of a step keeps what went wrong, and its reason tells which step failed. A Parakeet
/// worker that is not there is told apart from one that failed.
pub proof fn a_failed_step_is_told(engine: TranscriptionEngine, error: ProbeFailureView)
    ensures
        contains(step_failure(DeepProbeStep::Decode, engine, error).message, error.message),
        contains(step_failure(DeepProbeStep::Transcribe, engine, error).message, error.message),
        step_failure(DeepProbeStep::WriteManifest, engine, error) == error,
        step_failure(DeepProbeStep::Decode, engine, error).reason_code == "ffmpeg_decode_failed"@,
        engine == TranscriptionEngine::WhisperCpp ==> step_failure(
            DeepProbeStep::Transcribe,
            engine,
            error,
        ).reason_code == "whispercpp_smoke_failed"@,
        engine == TranscriptionEngine::ParakeetCpp ==> (step_failure(
            DeepProbeStep::Transcribe,
            engine,
            error,
        ).reason_code == "parakeet_worker_missing"@ <==> error.reason_code
            == "runtime_probe_missing"@),
{
    let head = "FFmpeg decode readiness failed: "@;
    lemma_contains_middle(head, error.message, Seq::empty());
    assert(head + error.message + Seq::empty() =~= head + error.message);
    let name = match engine {
        TranscriptionEngine::WhisperCpp => "Whisper.cpp"@,
        TranscriptionEngine::ParakeetCpp => "Parakeet.cpp"@,
    };
    let head = name + " short transcription readiness failed: "@;
    lemma_contains_middle(head, error.message, Seq::empty());
    assert(head + error.message + Seq::empty() =~= head + error.message);
    reveal_strlit("parakeet_worker_missing");
    reveal_strlit("parakeetcpp_smoke_failed");
    assert("parakeet_worker_missing"@[8] != "parakeetcpp_smoke_failed"@[8]);
}

/// A row of the worker is read by its two fields: the number of its chunk, and whether it has a result.
pub proof fn a_row_is_read_by_its_fields(line: Seq<char>)
    ensures
        json_row(line) is Ok <==> json_field(line, "index"@) is Ok && json_field(line, "result"@) is Ok,
        json_row(line) matches Ok(row) ==> {
            &&& row.1 <==> json_field(line, "result"@)->Ok_0 is Some
            &&& json_field(line, "index"@)->Ok_0 matches Some(n) ==> row.0 == n
            &&& json_field(line, "index"@)->Ok_0 is None ==> row.0 is None
        },
        json_field(line, "index"@) matches Err(e) ==> json_row(line) == Err::<
            (Option<i64>, bool),
            Seq<char>,
        >(e),
{
}

} // verus!
