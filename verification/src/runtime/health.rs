//! The health of the toolchain, the messages about it, and the settings it needs.

use vstd::prelude::*;
use vstd::string::*;

use crate::domain::{
    check_toolchain, toolchain_ready, ManagedRuntimeBinaryHealth, ManagedRuntimeHealth,
    PyannoteRuntimeHealth, RuntimeHealth, TranscriptionComputeDevice, TranscriptionEngine,
};
use crate::text::{
    ascii_lower, ascii_lower_text, cat3, cat4, cat5, contains, ends_with, inked, join,
    join_holds_its_parts, join_texts, lemma_contains_around, lemma_contains_middle, lemma_found,
    lemma_inked_edge, opt_view, same_text, text_contains, trim, trim_text, trimming_takes_white_only,
    views,
};

verus! {

/// The name of an engine on the wire.
pub open spec fn engine_wire(engine: TranscriptionEngine) -> Seq<char> {
    match engine {
        TranscriptionEngine::WhisperCpp => "whisper_cpp"@,
        TranscriptionEngine::ParakeetCpp => "parakeet_cpp"@,
    }
}

/// Names an engine on the wire.
pub fn engine_to_wire(engine: TranscriptionEngine) -> (r: &'static str)
    ensures
        r@ == engine_wire(engine),
{
    match engine {
        TranscriptionEngine::WhisperCpp => "whisper_cpp",
        TranscriptionEngine::ParakeetCpp => "parakeet_cpp",
    }
}

/// The name of a device on the wire.
pub open spec fn device_wire(device: TranscriptionComputeDevice) -> Seq<char> {
    match device {
        TranscriptionComputeDevice::Auto => "auto"@,
        TranscriptionComputeDevice::Gpu => "gpu"@,
        TranscriptionComputeDevice::Cpu => "cpu"@,
    }
}

/// Names a device on the wire.
pub fn compute_device_to_wire(device: TranscriptionComputeDevice) -> (r: &'static str)
    ensures
        r@ == device_wire(device),
{
    match device {
        TranscriptionComputeDevice::Auto => "auto",
        TranscriptionComputeDevice::Gpu => "gpu",
        TranscriptionComputeDevice::Cpu => "cpu",
    }
}

/// The names of the engines and of the devices say which they are.
pub proof fn wire_names_say_what_they_name()
    ensures
        contains(engine_wire(TranscriptionEngine::WhisperCpp), "whisper"@),
        contains(engine_wire(TranscriptionEngine::ParakeetCpp), "parakeet"@),
        device_wire(TranscriptionComputeDevice::Auto) == "auto"@,
        device_wire(TranscriptionComputeDevice::Gpu) == "gpu"@,
        device_wire(TranscriptionComputeDevice::Cpu) == "cpu"@,
        forall|a: TranscriptionEngine, b: TranscriptionEngine|
            #[trigger] engine_wire(a) == #[trigger] engine_wire(b) ==> a == b,
        forall|a: TranscriptionComputeDevice, b: TranscriptionComputeDevice|
            #[trigger] device_wire(a) == #[trigger] device_wire(b) ==> a == b,
{
    reveal_strlit("whisper_cpp");
    reveal_strlit("whisper");
    reveal_strlit("parakeet_cpp");
    reveal_strlit("parakeet");
    reveal_strlit("auto");
    reveal_strlit("gpu");
    reveal_strlit("cpu");
    lemma_found("whisper_cpp"@, "whisper"@, 0);
    lemma_found("parakeet_cpp"@, "parakeet"@, 0);
    assert("whisper_cpp"@[0] != "parakeet_cpp"@[0]);
    assert("auto"@[0] != "gpu"@[0]);
    assert("auto"@[0] != "cpu"@[0]);
    assert("gpu"@[0] != "cpu"@[0]);
}

/// The state of the provisioning slot, as recovery sees it.
#[derive(Clone, Copy, PartialEq, Eq, Structural, Debug)]
pub enum SlotState {
    /// Nothing runs. The slot stays locked while recovery runs.
    Idle,
    /// A provisioning run holds it.
    Active,
    /// It is locked by someone else, so a run may hold it.
    Contended,
}

/// Decides whether an interrupted install may be recovered now: only while nothing else can touch
/// the transaction.
pub fn recover_interrupted_runtime_install_for_slot(slot: SlotState) -> (r: bool)
    ensures
        r == (slot == SlotState::Idle),
{
    slot == SlotState::Idle
}

/// Decides whether the diarization runtime is probed in the background, and marks the probe as
/// running: when it is enabled and installed, and no probe runs already.
pub fn schedule_optional_pyannote_probe(health: &PyannoteRuntimeHealth, in_flight: &mut bool) -> (r:
    bool)
    ensures
        r == (health.enabled && health.runtime_installed && health.model_installed && !*old(
            in_flight,
        )),
        *final(in_flight) == (*old(in_flight) || r),
{
    if !health.enabled || !health.runtime_installed || !health.model_installed {
        return false;
    }
    if *in_flight {
        return false;
    }
    *in_flight = true;
    true
}

/// The status that a background probe leaves: none when it was cancelled.
pub fn pyannote_probe_status(result: &Result<(), String>) -> (r: Option<(String, String)>)
    ensures
        match result {
            Ok(_) => r is Some && (r->0).0@ == "ok"@ && (r->0).1@
                == "Pyannote diarization runtime import/load probe passed."@,
            Err(error) => if error@ == "cancelled"@ {
                r is None
            } else {
                r is Some && (r->0).0@ == "pyannote_import_load_failed"@ && (r->0).1@ == error@
            },
        },
{
    match result {
        Ok(_) => Some(
            (
                "ok".to_owned(),
                "Pyannote diarization runtime import/load probe passed.".to_owned(),
            ),
        ),
        Err(error) => {
            if same_text(error.as_str(), "cancelled") {
                None
            } else {
                Some(("pyannote_import_load_failed".to_owned(), error.clone()))
            }
        },
    }
}

/// Whether the binaries that a transcription needs can be used.
pub fn runtime_toolchain_ready(health: &RuntimeHealth) -> (r: bool)
    ensures
        r == toolchain_ready(*health),
{
    check_toolchain(health)
}

/// The first managed binary that an engine needs and that cannot be used, with its name.
pub open spec fn managed_failure(m: ManagedRuntimeHealth, engine: TranscriptionEngine) -> Option<
    (Seq<char>, ManagedRuntimeBinaryHealth),
> {
    if !m.ffmpeg.available {
        Some(("FFmpeg"@, m.ffmpeg))
    } else {
        match engine {
            TranscriptionEngine::WhisperCpp => if !m.whisper_cli.available {
                Some(("Whisper CLI"@, m.whisper_cli))
            } else if !m.whisper_stream.available {
                Some(("Whisper Stream"@, m.whisper_stream))
            } else {
                None
            },
            TranscriptionEngine::ParakeetCpp => if !m.parakeet_cli.available {
                Some(("Parakeet CLI"@, m.parakeet_cli))
            } else {
                None
            },
        }
    }
}

/// Finds the first managed binary that an engine needs and that cannot be used: its name, its
/// path and what failed.
pub fn first_managed_runtime_failure<'a>(
    managed_runtime: &'a ManagedRuntimeHealth,
    engine: TranscriptionEngine,
) -> (r: Option<(&'static str, &'a str, &'a str)>)
    ensures
        match managed_failure(*managed_runtime, engine) {
            None => r is None,
            Some((label, tool)) => r is Some && (r->0).0@ == label && (r->0).1@ == tool.resolved_path@
                && (r->0).2@ == tool.failure_message@,
        },
{
    if !managed_runtime.ffmpeg.available {
        return Some(
            (
                "FFmpeg",
                managed_runtime.ffmpeg.resolved_path.as_str(),
                managed_runtime.ffmpeg.failure_message.as_str(),
            ),
        );
    }
    match engine {
        TranscriptionEngine::WhisperCpp => {
            if !managed_runtime.whisper_cli.available {
                return Some(
                    (
                        "Whisper CLI",
                        managed_runtime.whisper_cli.resolved_path.as_str(),
                        managed_runtime.whisper_cli.failure_message.as_str(),
                    ),
                );
            }
            if !managed_runtime.whisper_stream.available {
                return Some(
                    (
                        "Whisper Stream",
                        managed_runtime.whisper_stream.resolved_path.as_str(),
                        managed_runtime.whisper_stream.failure_message.as_str(),
                    ),
                );
            }
        },
        TranscriptionEngine::ParakeetCpp => {
            if !managed_runtime.parakeet_cli.available {
                return Some(
                    (
                        "Parakeet CLI",
                        managed_runtime.parakeet_cli.resolved_path.as_str(),
                        managed_runtime.parakeet_cli.failure_message.as_str(),
                    ),
                );
            }
        },
    }
    None
}

/// A message with a note behind it, and what to do about it.
pub open spec fn with_repair(message: Seq<char>, note: Option<Seq<char>>) -> Seq<char> {
    (match note {
        Some(n) => message + " "@ + n,
        None => message,
    }) + " Repair the local runtime from Settings > Local Models."@
}

/// The complaints about the binaries of an engine that cannot be used, in order.
pub open spec fn complaints(h: RuntimeHealth) -> Seq<Seq<char>> {
    (if !h.ffmpeg_available {
        seq!["FFmpeg is not runnable at '"@ + h.ffmpeg_resolved@ + "'."@]
    } else {
        Seq::empty()
    }) + (match h.configured_engine {
        TranscriptionEngine::WhisperCpp => (if !h.whisper_cli_available {
            seq!["Whisper CLI is not runnable at '"@ + h.whisper_cli_resolved@ + "'."@]
        } else {
            Seq::empty()
        }) + (if !h.whisper_stream_available {
            seq!["Whisper Stream is not runnable at '"@ + h.whisper_stream_resolved@ + "'."@]
        } else {
            Seq::empty()
        }),
        TranscriptionEngine::ParakeetCpp => if !h.parakeet_cli_available {
            seq!["Parakeet CLI is not runnable at '"@ + h.parakeet_cli_resolved@ + "'."@]
        } else {
            Seq::empty()
        },
    })
}

/// What is said of a toolchain that is not ready.
pub open spec fn toolchain_message(h: RuntimeHealth, note: Option<Seq<char>>) -> Seq<char> {
    let managed = managed_failure(h.managed_runtime, h.configured_engine);
    if h.managed_runtime_required && managed is Some {
        let label = (managed->0).0;
        let tool = (managed->0).1;
        with_repair(
            if trim(tool.failure_message@).len() == 0 {
                label + " is not runnable at '"@ + tool.resolved_path@ + "'."@
            } else {
                label + " verification failed at '"@ + tool.resolved_path@ + "': "@ + trim(
                    tool.failure_message@,
                )
            },
            note,
        )
    } else if complaints(h).len() == 0 {
        with_repair("Transcription runtime unavailable."@, note)
    } else {
        with_repair(join(complaints(h), " "@), note)
    }
}

/// A toolchain is ready with everything that it needs and only then: all the managed binaries where
/// they are required, else the tools of the configured engine.
pub proof fn a_ready_toolchain_has_its_tools(h: RuntimeHealth)
    ensures
        h.managed_runtime_required ==> (toolchain_ready(h) <==> h.managed_runtime.ffmpeg.available
            && h.managed_runtime.whisper_cli.available && h.managed_runtime.whisper_stream.available
            && h.managed_runtime.parakeet_cli.available),
        !h.managed_runtime_required ==> (toolchain_ready(h) ==> h.ffmpeg_available),
        !h.managed_runtime_required && h.configured_engine == TranscriptionEngine::WhisperCpp ==> (
        toolchain_ready(h) <==> h.ffmpeg_available && h.whisper_cli_available
            && h.whisper_stream_available),
        !h.managed_runtime_required && h.configured_engine == TranscriptionEngine::ParakeetCpp ==> (
        toolchain_ready(h) <==> h.ffmpeg_available && h.parakeet_cli_available),
        !h.managed_runtime_required ==> (toolchain_ready(h) <==> complaints(h).len() == 0),
{
}

/// A managed binary is blamed only when it cannot be used, and none only when every one that the engine
/// needs can be.
pub proof fn only_a_broken_binary_is_blamed(m: ManagedRuntimeHealth, engine: TranscriptionEngine)
    ensures
        match managed_failure(m, engine) {
            Some((label, tool)) => {
                &&& !tool.available
                &&& tool == m.ffmpeg ==> !m.ffmpeg.available
                &&& label == "FFmpeg"@ && tool == m.ffmpeg || (m.ffmpeg.available && match engine {
                    TranscriptionEngine::WhisperCpp => (label == "Whisper CLI"@ && tool
                        == m.whisper_cli) || (label == "Whisper Stream"@ && tool == m.whisper_stream
                        && m.whisper_cli.available),
                    TranscriptionEngine::ParakeetCpp => label == "Parakeet CLI"@ && tool
                        == m.parakeet_cli,
                })
            },
            None => m.ffmpeg.available && match engine {
                TranscriptionEngine::WhisperCpp => m.whisper_cli.available && m.whisper_stream.available,
                TranscriptionEngine::ParakeetCpp => m.parakeet_cli.available,
            },
        },
{
}

proof fn lemma_with_repair(message: Seq<char>, note: Option<Seq<char>>, p: Seq<char>)
    ensures
        contains(message, p) ==> contains(with_repair(message, note), p),
        note is Some ==> contains(with_repair(message, note), note->0),
        ends_with(
            with_repair(message, note),
            " Repair the local runtime from Settings > Local Models."@,
        ),
{
    let tail = " Repair the local runtime from Settings > Local Models."@;
    let all = with_repair(message, note);
    assert(all.skip(all.len() - tail.len()) =~= tail);
    if note is Some {
        let n = note->0;
        lemma_contains_middle(message + " "@, n, tail);
        assert(all =~= Seq::empty() + message + (" "@ + n + tail));
        if contains(message, p) {
            lemma_contains_around(Seq::empty(), message, " "@ + n + tail, p);
        }
    } else {
        assert(all =~= Seq::empty() + message + tail);
        if contains(message, p) {
            lemma_contains_around(Seq::empty(), message, tail, p);
        }
    }
}

/// What is said of a toolchain that is not ready: where the broken tool lies, the note, and how to mend
/// it. A managed binary that said why it failed is quoted.
pub proof fn a_message_names_the_broken_tool(h: RuntimeHealth, note: Option<Seq<char>>)
    ensures
        ({
            let said = toolchain_message(h, note);
            let managed = managed_failure(h.managed_runtime, h.configured_engine);
            &&& note is Some ==> contains(said, note->0)
            &&& ends_with(said, " Repair the local runtime from Settings > Local Models."@)
            &&& h.managed_runtime_required && managed is Some ==> {
                &&& contains(said, (managed->0).0)
                &&& contains(said, (managed->0).1.resolved_path@)
                &&& inked((managed->0).1.failure_message@).len() > 0 ==> contains(
                    said,
                    trim((managed->0).1.failure_message@),
                )
            }
            &&& !h.managed_runtime_required && !h.ffmpeg_available ==> contains(
                said,
                h.ffmpeg_resolved@,
            )
            &&& !h.managed_runtime_required && h.configured_engine
                == TranscriptionEngine::WhisperCpp && !h.whisper_cli_available ==> contains(
                said,
                h.whisper_cli_resolved@,
            )
            &&& !h.managed_runtime_required && h.configured_engine
                == TranscriptionEngine::WhisperCpp && !h.whisper_stream_available ==> contains(
                said,
                h.whisper_stream_resolved@,
            )
            &&& !h.managed_runtime_required && h.configured_engine
                == TranscriptionEngine::ParakeetCpp && !h.parakeet_cli_available ==> contains(
                said,
                h.parakeet_cli_resolved@,
            )
        }),
{
    let said = toolchain_message(h, note);
    let managed = managed_failure(h.managed_runtime, h.configured_engine);
    if h.managed_runtime_required && managed is Some {
        let label = (managed->0).0;
        let path = (managed->0).1.resolved_path@;
        let why = trim((managed->0).1.failure_message@);
        trimming_takes_white_only((managed->0).1.failure_message@);
        lemma_inked_edge(why);
        let message = if why.len() == 0 {
            label + " is not runnable at '"@ + path + "'."@
        } else {
            label + " verification failed at '"@ + path + "': "@ + why
        };
        if why.len() == 0 {
            lemma_contains_middle(label + " is not runnable at '"@, path, "'."@);
            lemma_contains_middle(Seq::empty(), label, " is not runnable at '"@ + path + "'."@);
            assert(message =~= Seq::empty() + label + (" is not runnable at '"@ + path + "'."@));
        } else {
            lemma_contains_middle(label + " verification failed at '"@, path, "': "@ + why);
            assert(message =~= label + " verification failed at '"@ + path + ("': "@ + why));
            lemma_contains_middle(
                Seq::empty(),
                label,
                " verification failed at '"@ + path + "': "@ + why,
            );
            assert(message =~= Seq::empty() + label + (" verification failed at '"@ + path + "': "@
                + why));
            lemma_contains_middle(
                label + " verification failed at '"@ + path + "': "@,
                why,
                Seq::empty(),
            );
            assert(message =~= label + " verification failed at '"@ + path + "': "@ + why
                + Seq::empty());
        }
        lemma_with_repair(message, note, label);
        lemma_with_repair(message, note, path);
        lemma_with_repair(message, note, why);
    } else {
        let c = complaints(h);
        let message = if c.len() == 0 {
            "Transcription runtime unavailable."@
        } else {
            join(c, " "@)
        };
        lemma_with_repair(message, note, Seq::empty());
        lemma_with_repair(message, note, h.ffmpeg_resolved@);
        lemma_with_repair(message, note, h.whisper_cli_resolved@);
        lemma_with_repair(message, note, h.whisper_stream_resolved@);
        lemma_with_repair(message, note, h.parakeet_cli_resolved@);
        lemma_contains_middle("FFmpeg is not runnable at '"@, h.ffmpeg_resolved@, "'."@);
        lemma_contains_middle("Whisper CLI is not runnable at '"@, h.whisper_cli_resolved@, "'."@);
        lemma_contains_middle(
            "Whisper Stream is not runnable at '"@,
            h.whisper_stream_resolved@,
            "'."@,
        );
        lemma_contains_middle("Parakeet CLI is not runnable at '"@, h.parakeet_cli_resolved@, "'."@);
        if !h.ffmpeg_available {
            assert(c[0] == "FFmpeg is not runnable at '"@ + h.ffmpeg_resolved@ + "'."@);
            join_holds_its_parts(c, " "@, 0, h.ffmpeg_resolved@);
        }
        let n: int = if h.ffmpeg_available { 0 } else { 1 };
        if h.configured_engine == TranscriptionEngine::WhisperCpp {
            if !h.whisper_cli_available {
                join_holds_its_parts(c, " "@, n, h.whisper_cli_resolved@);
            }
            if !h.whisper_stream_available {
                join_holds_its_parts(c, " "@, c.len() - 1, h.whisper_stream_resolved@);
            }
        } else if !h.parakeet_cli_available {
            join_holds_its_parts(c, " "@, n, h.parakeet_cli_resolved@);
        }
    }
}

fn add_repair(message: String, note: &Option<String>) -> (r: String)
    ensures
        r@ == with_repair(message@, opt_view(*note)),
{
    let mut out: String = message;
    if let Some(n) = note {
        out.append(" ");
        out.append(n.as_str());
    }
    out.append(" Repair the local runtime from Settings > Local Models.");
    out
}

fn push_text(list: &mut Vec<String>, text: String)
    ensures
        views(final(list)@) == views(old(list)@).push(text@),
{
    list.push(text);
    assert(views(list@) =~= views(old(list)@).push(text@));
}

/// Says what is wrong with a toolchain that is not ready.
pub fn runtime_toolchain_message(health: &RuntimeHealth, setup_note: &Option<String>) -> (r: String)
    ensures
        r@ == toolchain_message(*health, opt_view(*setup_note)),
{
    if health.managed_runtime_required {
        if let Some((label, path, detail)) = first_managed_runtime_failure(
            &health.managed_runtime,
            health.configured_engine,
        ) {
            let trimmed: String = trim_text(detail);
            let message: String = if trimmed.as_str().is_empty() {
                cat4(label, " is not runnable at '", path, "'.")
            } else {
                cat5(label, " verification failed at '", path, "': ", trimmed.as_str())
            };
            return add_repair(message, setup_note);
        }
    }
    let mut missing: Vec<String> = Vec::new();
    assert(views(missing@) =~= Seq::<Seq<char>>::empty());
    if !health.ffmpeg_available {
        push_text(
            &mut missing,
            cat3("FFmpeg is not runnable at '", health.ffmpeg_resolved.as_str(), "'."),
        );
    }
    match health.configured_engine {
        TranscriptionEngine::WhisperCpp => {
            if !health.whisper_cli_available {
                push_text(
                    &mut missing,
                    cat3(
                        "Whisper CLI is not runnable at '",
                        health.whisper_cli_resolved.as_str(),
                        "'.",
                    ),
                );
            }
            if !health.whisper_stream_available {
                push_text(
                    &mut missing,
                    cat3(
                        "Whisper Stream is not runnable at '",
                        health.whisper_stream_resolved.as_str(),
                        "'.",
                    ),
                );
            }
        },
        TranscriptionEngine::ParakeetCpp => {
            if !health.parakeet_cli_available {
                push_text(
                    &mut missing,
                    cat3(
                        "Parakeet CLI is not runnable at '",
                        health.parakeet_cli_resolved.as_str(),
                        "'.",
                    ),
                );
            }
        },
    }
    assert(views(missing@) =~= complaints(*health));
    assert(views(missing@).len() == missing@.len());
    let message: String = if missing.len() == 0 {
        "Transcription runtime unavailable.".to_owned()
    } else {
        join_texts(&missing, " ")
    };
    add_repair(message, setup_note)
}

// ---------------------------------------------------------------------------
// The report
// ---------------------------------------------------------------------------

/// The health report as the interface gets it: what is measured, with the version and with the
/// engines by name.
pub struct RuntimeHealthResponse {
    pub app_version: String,
    pub host_os: String,
    pub host_arch: String,
    pub is_apple_silicon: bool,
    pub preferred_engine: String,
    pub configured_engine: String,
    pub runtime_source: String,
    pub managed_runtime_required: bool,
    pub managed_runtime: ManagedRuntimeHealth,
    pub ffmpeg_path: String,
    pub ffmpeg_resolved: String,
    pub ffmpeg_available: bool,
    pub whisper_cli_path: String,
    pub whisper_cli_resolved: String,
    pub whisper_cli_available: bool,
    pub whisper_stream_path: String,
    pub whisper_stream_resolved: String,
    pub whisper_stream_available: bool,
    pub parakeet_cli_path: String,
    pub parakeet_cli_resolved: String,
    pub parakeet_cli_available: bool,
    pub models_dir_configured: String,
    pub models_dir_resolved: String,
    pub parakeet_models_dir_configured: String,
    pub parakeet_models_dir_resolved: String,
    pub model_filename: String,
    pub model_present: bool,
    pub parakeet_model_filename: String,
    pub parakeet_model_present: bool,
    pub missing_parakeet_models: Vec<String>,
    pub coreml_encoder_present: bool,
    pub missing_models: Vec<String>,
    pub missing_encoders: Vec<String>,
    pub pyannote: PyannoteRuntimeHealth,
    pub setup_complete: bool,
}

/// Makes the health report: the engines by their wire names, the rest as it is.
pub fn runtime_health_response(health: RuntimeHealth, app_version: &str) -> (r:
    RuntimeHealthResponse)
    ensures
        r.app_version@ == app_version@,
        r.host_os == health.host_os,
        r.host_arch == health.host_arch,
        r.is_apple_silicon == health.is_apple_silicon,
        r.preferred_engine@ == engine_wire(health.preferred_engine),
        r.configured_engine@ == engine_wire(health.configured_engine),
        r.runtime_source == health.runtime_source,
        r.managed_runtime_required == health.managed_runtime_required,
        r.managed_runtime == health.managed_runtime,
        r.ffmpeg_path == health.ffmpeg_path,
        r.ffmpeg_resolved == health.ffmpeg_resolved,
        r.ffmpeg_available == health.ffmpeg_available,
        r.whisper_cli_path == health.whisper_cli_path,
        r.whisper_cli_resolved == health.whisper_cli_resolved,
        r.whisper_cli_available == health.whisper_cli_available,
        r.whisper_stream_path == health.whisper_stream_path,
        r.whisper_stream_resolved == health.whisper_stream_resolved,
        r.whisper_stream_available == health.whisper_stream_available,
        r.parakeet_cli_path == health.parakeet_cli_path,
        r.parakeet_cli_resolved == health.parakeet_cli_resolved,
        r.parakeet_cli_available == health.parakeet_cli_available,
        r.models_dir_configured == health.models_dir_configured,
        r.models_dir_resolved == health.models_dir_resolved,
        r.parakeet_models_dir_configured == health.parakeet_models_dir_configured,
        r.parakeet_models_dir_resolved == health.parakeet_models_dir_resolved,
        r.model_filename == health.model_filename,
        r.model_present == health.model_present,
        r.parakeet_model_filename == health.parakeet_model_filename,
        r.parakeet_model_present == health.parakeet_model_present,
        r.missing_parakeet_models == health.missing_parakeet_models,
        r.coreml_encoder_present == health.coreml_encoder_present,
        r.missing_models == health.missing_models,
        r.missing_encoders == health.missing_encoders,
        r.pyannote == health.pyannote,
        r.setup_complete == health.setup_complete,
{
    RuntimeHealthResponse {
        app_version: app_version.to_owned(),
        host_os: health.host_os,
        host_arch: health.host_arch,
        is_apple_silicon: health.is_apple_silicon,
        preferred_engine: engine_to_wire(health.preferred_engine).to_owned(),
        configured_engine: engine_to_wire(health.configured_engine).to_owned(),
        runtime_source: health.runtime_source,
        managed_runtime_required: health.managed_runtime_required,
        managed_runtime: health.managed_runtime,
        ffmpeg_path: health.ffmpeg_path,
        ffmpeg_resolved: health.ffmpeg_resolved,
        ffmpeg_available: health.ffmpeg_available,
        whisper_cli_path: health.whisper_cli_path,
        whisper_cli_resolved: health.whisper_cli_resolved,
        whisper_cli_available: health.whisper_cli_available,
        whisper_stream_path: health.whisper_stream_path,
        whisper_stream_resolved: health.whisper_stream_resolved,
        whisper_stream_available: health.whisper_stream_available,
        parakeet_cli_path: health.parakeet_cli_path,
        parakeet_cli_resolved: health.parakeet_cli_resolved,
        parakeet_cli_available: health.parakeet_cli_available,
        models_dir_configured: health.models_dir_configured,
        models_dir_resolved: health.models_dir_resolved,
        parakeet_models_dir_configured: health.parakeet_models_dir_configured,
        parakeet_models_dir_resolved: health.parakeet_models_dir_resolved,
        model_filename: health.model_filename,
        model_present: health.model_present,
        parakeet_model_filename: health.parakeet_model_filename,
        parakeet_model_present: health.parakeet_model_present,
        missing_parakeet_models: health.missing_parakeet_models,
        coreml_encoder_present: health.coreml_encoder_present,
        missing_models: health.missing_models,
        missing_encoders: health.missing_encoders,
        pyannote: health.pyannote,
        setup_complete: health.setup_complete,
    }
}

// ---------------------------------------------------------------------------
// Settings of old versions
// ---------------------------------------------------------------------------

/// Whether a path is that of a tool that is no longer used.
pub fn is_legacy_whisperkit_path(path: &str) -> (r: bool)
    ensures
        r == contains(ascii_lower(path@), "whisperkit-cli"@),
{
    text_contains(ascii_lower_text(path).as_str(), "whisperkit-cli")
}

/// The settings that the Whisper runtime depends on.
pub struct WhisperSettings {
    pub engine: TranscriptionEngine,
    pub legacy_engine: TranscriptionEngine,
    pub whisper_cli_path: String,
    pub legacy_whisper_cli_path: String,
    pub whisper_stream_path: String,
    pub legacy_whisper_stream_path: String,
}

/// Whether a path has to be replaced: it is blank, or that of a tool that is no longer used.
pub open spec fn outdated(path: Seq<char>) -> bool {
    trim(path).len() == 0 || contains(ascii_lower(trim(path)), "whisperkit-cli"@)
}

/// A path, or the tool's bare name when it has to be replaced.
pub open spec fn current_path(path: Seq<char>, tool: Seq<char>) -> Seq<char> {
    if outdated(path) {
        tool
    } else {
        path
    }
}

fn is_outdated(path: &str) -> (r: bool)
    ensures
        r == outdated(path@),
{
    let trimmed: String = trim_text(path);
    trimmed.as_str().is_empty() || is_legacy_whisperkit_path(trimmed.as_str())
}

/// Brings the settings up to date with the Whisper runtime, and says whether anything changed.
pub fn normalize_runtime_settings_for_whisper_cpp(settings: &mut WhisperSettings) -> (changed: bool)
    ensures
        final(settings).engine == TranscriptionEngine::WhisperCpp,
        final(settings).legacy_engine == if old(settings).engine
            != TranscriptionEngine::WhisperCpp {
            TranscriptionEngine::WhisperCpp
        } else {
            old(settings).legacy_engine
        },
        final(settings).whisper_cli_path@ == current_path(
            old(settings).whisper_cli_path@,
            "whisper-cli"@,
        ),
        final(settings).legacy_whisper_cli_path@ == current_path(
            old(settings).legacy_whisper_cli_path@,
            "whisper-cli"@,
        ),
        final(settings).whisper_stream_path@ == current_path(
            old(settings).whisper_stream_path@,
            "whisper-stream"@,
        ),
        final(settings).legacy_whisper_stream_path@ == current_path(
            old(settings).legacy_whisper_stream_path@,
            "whisper-stream"@,
        ),
        changed == (old(settings).engine != TranscriptionEngine::WhisperCpp || outdated(
            old(settings).whisper_cli_path@,
        ) || outdated(old(settings).legacy_whisper_cli_path@) || outdated(
            old(settings).whisper_stream_path@,
        ) || outdated(old(settings).legacy_whisper_stream_path@)),
{
    let mut changed: bool = false;
    if settings.engine != TranscriptionEngine::WhisperCpp {
        settings.engine = TranscriptionEngine::WhisperCpp;
        settings.legacy_engine = TranscriptionEngine::WhisperCpp;
        changed = true;
    }
    if is_outdated(settings.whisper_cli_path.as_str()) {
        settings.whisper_cli_path = "whisper-cli".to_owned();
        changed = true;
    }
    if is_outdated(settings.legacy_whisper_cli_path.as_str()) {
        settings.legacy_whisper_cli_path = "whisper-cli".to_owned();
        changed = true;
    }
    if is_outdated(settings.whisper_stream_path.as_str()) {
        settings.whisper_stream_path = "whisper-stream".to_owned();
        changed = true;
    }
    if is_outdated(settings.legacy_whisper_stream_path.as_str()) {
        settings.legacy_whisper_stream_path = "whisper-stream".to_owned();
        changed = true;
    }
    changed
}

/// Bringing a path up to date twice gives what bringing it up to date once gives.
pub proof fn current_settings_are_stable(path: Seq<char>, tool: Seq<char>)
    requires
        tool == "whisper-cli"@ || tool == "whisper-stream"@,
    ensures
        current_path(current_path(path, tool), tool) == current_path(path, tool),
{
}

/// A path that says something and is not that of the old tool stays as it is; any other becomes the
/// tool's bare name.
pub proof fn only_outdated_paths_change(path: Seq<char>, tool: Seq<char>)
    ensures
        inked(path).len() == 0 ==> current_path(path, tool) == tool,
        contains(ascii_lower(trim(path)), "whisperkit-cli"@) ==> current_path(path, tool) == tool,
        inked(path).len() > 0 && !contains(ascii_lower(trim(path)), "whisperkit-cli"@)
            ==> current_path(path, tool) == path,
{
    trimming_takes_white_only(path);
    lemma_inked_edge(trim(path));
}

/// How persisting changed settings ended: whether anything was set up, and a note when it was not.
pub fn whisper_setup_result(
    changed: bool,
    loaded: &Result<(), String>,
    saved: &Result<(), String>,
) -> (r: (bool, Option<String>))
    ensures
        match loaded {
            Err(e) => !r.0 && opt_view(r.1) == Some(
                "Failed to load settings for whisper.cpp runtime setup: "@ + e@,
            ),
            Ok(_) => if !changed {
                !r.0 && r.1 is None
            } else {
                match saved {
                    Ok(_) => r.0 && r.1 is None,
                    Err(e) => !r.0 && opt_view(r.1) == Some(
                        "Failed to persist whisper.cpp runtime settings: "@ + e@,
                    ),
                }
            },
        },
{
    match loaded {
        Err(e) => {
            let mut note: String =
                "Failed to load settings for whisper.cpp runtime setup: ".to_owned();
            note.append(e.as_str());
            (false, Some(note))
        },
        Ok(_) => {
            if !changed {
                return (false, None);
            }
            match saved {
                Ok(_) => (true, None),
                Err(e) => {
                    let mut note: String =
                        "Failed to persist whisper.cpp runtime settings: ".to_owned();
                    note.append(e.as_str());
                    (false, Some(note))
                },
            }
        },
    }
}

} // verus!
