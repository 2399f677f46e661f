//! Whether a transcription or a live session may start.

use vstd::prelude::*;
use vstd::string::*;

use crate::domain::{PyannoteRuntimeHealth, RuntimeHealth, TranscriptionEngine, toolchain_ready};
use crate::runtime::health::{
    engine_to_wire, engine_wire, runtime_toolchain_message, runtime_toolchain_ready,
    toolchain_message,
};
use crate::runtime::probe::RuntimeProbeFailure;
use crate::paths::{join_path, joined, PathStyle};
use crate::text::{
    cat3, cat4, cat5, contains, lemma_contains_middle, opt_view,
};

verus! {

// ---------------------------------------------------------------------------
// The toolchain
// ---------------------------------------------------------------------------

/// Whether the runtime is ready, and what was done about it.
#[derive(Debug)]
pub struct EnsureRuntimeResponse {
    pub ready: bool,
    pub engine: String,
    pub did_setup: bool,
    pub message: String,
    pub ffmpeg_resolved: String,
    pub whisper_cli_resolved: String,
    pub whisper_stream_resolved: String,
    pub parakeet_cli_resolved: String,
}

/// What is said of a runtime that is available.
pub open spec fn available_text(engine: TranscriptionEngine) -> Seq<char> {
    match engine {
        TranscriptionEngine::WhisperCpp => "Whisper.cpp runtime available."@,
        TranscriptionEngine::ParakeetCpp => "Parakeet.cpp runtime available."@,
    }
}

fn available_message(engine: TranscriptionEngine) -> (r: &'static str)
    ensures
        r@ == available_text(engine),
{
    match engine {
        TranscriptionEngine::WhisperCpp => "Whisper.cpp runtime available.",
        TranscriptionEngine::ParakeetCpp => "Parakeet.cpp runtime available.",
    }
}

/// The response has the paths of a health report.
pub open spec fn reports_paths(r: EnsureRuntimeResponse, h: RuntimeHealth) -> bool {
    &&& r.engine@ == engine_wire(h.configured_engine)
    &&& r.ffmpeg_resolved@ == h.ffmpeg_resolved@
    &&& r.whisper_cli_resolved@ == h.whisper_cli_resolved@
    &&& r.whisper_stream_resolved@ == h.whisper_stream_resolved@
    &&& r.parakeet_cli_resolved@ == h.parakeet_cli_resolved@
}

fn ensure_response(ready: bool, did_setup: bool, message: String, health: &RuntimeHealth) -> (r:
    EnsureRuntimeResponse)
    ensures
        r.ready == ready,
        r.did_setup == did_setup,
        r.message@ == message@,
        reports_paths(r, *health),
{
    EnsureRuntimeResponse {
        ready,
        engine: engine_to_wire(health.configured_engine).to_owned(),
        did_setup,
        message,
        ffmpeg_resolved: health.ffmpeg_resolved.clone(),
        whisper_cli_resolved: health.whisper_cli_resolved.clone(),
        whisper_stream_resolved: health.whisper_stream_resolved.clone(),
        parakeet_cli_resolved: health.parakeet_cli_resolved.clone(),
    }
}

/// Answers at once when the runtime is ready. Otherwise the settings are brought up to date, for
/// the Whisper engine, and the health is measured again for [`ensure_after_setup`].
pub fn ensure_transcription_runtime(health: &RuntimeHealth) -> (r: Option<EnsureRuntimeResponse>)
    ensures
        r is Some <==> toolchain_ready(*health),
        r matches Some(answer) ==> {
            &&& answer.ready
            &&& !answer.did_setup
            &&& answer.message@ == available_text(health.configured_engine)
            &&& reports_paths(answer, *health)
            &&& answer.ffmpeg_resolved@ == health.ffmpeg_resolved@
            &&& answer.whisper_cli_resolved@ == health.whisper_cli_resolved@
            &&& answer.whisper_stream_resolved@ == health.whisper_stream_resolved@
            &&& answer.parakeet_cli_resolved@ == health.parakeet_cli_resolved@
            &&& health.configured_engine is WhisperCpp ==> answer.message@
                == "Whisper.cpp runtime available."@
            &&& health.configured_engine is ParakeetCpp ==> answer.message@
                == "Parakeet.cpp runtime available."@
        },
{
    if runtime_toolchain_ready(health) {
        Some(
            ensure_response(
                true,
                false,
                available_message(health.configured_engine).to_owned(),
                health,
            ),
        )
    } else {
        None
    }
}

/// Whether the settings are brought up to date for a runtime that is not ready.
pub fn ensure_needs_setup(health: &RuntimeHealth) -> (r: bool)
    ensures
        r == (health.configured_engine == TranscriptionEngine::WhisperCpp),
{
    health.configured_engine == TranscriptionEngine::WhisperCpp
}

/// Answers with the health that was measured after the setup.
pub fn ensure_after_setup(
    refreshed: &RuntimeHealth,
    did_setup: bool,
    setup_note: &Option<String>,
) -> (r: EnsureRuntimeResponse)
    ensures
        r.ready == toolchain_ready(*refreshed),
        r.did_setup == did_setup,
        r.message@ == if toolchain_ready(*refreshed) {
            if did_setup {
                "Whisper.cpp runtime is ready."@
            } else {
                available_text(refreshed.configured_engine)
            }
        } else {
            toolchain_message(*refreshed, opt_view(*setup_note))
        },
        reports_paths(r, *refreshed),
        r.ffmpeg_resolved@ == refreshed.ffmpeg_resolved@,
        r.whisper_cli_resolved@ == refreshed.whisper_cli_resolved@,
        r.whisper_stream_resolved@ == refreshed.whisper_stream_resolved@,
        r.parakeet_cli_resolved@ == refreshed.parakeet_cli_resolved@,
{
    let ready: bool = runtime_toolchain_ready(refreshed);
    let message: String = if ready {
        if did_setup {
            "Whisper.cpp runtime is ready.".to_owned()
        } else {
            available_message(refreshed.configured_engine).to_owned()
        }
    } else {
        runtime_toolchain_message(refreshed, setup_note)
    };
    ensure_response(ready, did_setup, message, refreshed)
}

// ---------------------------------------------------------------------------
// Live sessions
// ---------------------------------------------------------------------------

/// Whether a live session may start, and why not.
#[derive(Debug)]
pub struct RealtimeStartReadinessResponse {
    pub allowed: bool,
    pub reason_code: String,
    pub message: String,
    pub engine: String,
    pub model_filename: String,
    pub model_path: String,
    pub ffmpeg_resolved: String,
    pub whisper_stream_resolved: String,
    pub parakeet_cli_resolved: String,
    pub input_device_name: Option<String>,
}

/// The outcome of a readiness check: whether it passed, the reason, the message, and the input
/// device when it did.
pub struct Verdict {
    pub allowed: bool,
    pub reason_code: Seq<char>,
    pub message: Seq<char>,
    pub device: Option<Seq<char>>,
}

/// A refusal.
pub open spec fn refused(reason_code: Seq<char>, message: Seq<char>) -> Verdict {
    Verdict { allowed: false, reason_code, message, device: None }
}

/// The verdict that a response holds.
pub open spec fn verdict_of(r: RealtimeStartReadinessResponse) -> Verdict {
    Verdict {
        allowed: r.allowed,
        reason_code: r.reason_code@,
        message: r.message@,
        device: opt_view(r.input_device_name),
    }
}

/// Why no input device can be used.
#[derive(Debug)]
pub struct InputDeviceError {
    pub reason_code: String,
    pub message: String,
}

/// How paths are written, and the paths that a response repeats.
pub struct ReadinessPaths {
    pub style: PathStyle,
    pub ffmpeg_resolved: String,
    pub whisper_stream_resolved: String,
    pub parakeet_cli_resolved: String,
}

/// The response names a model and repeats the paths.
pub open spec fn reports_model(
    r: RealtimeStartReadinessResponse,
    engine: TranscriptionEngine,
    models_dir: Seq<char>,
    model_filename: Seq<char>,
    paths: ReadinessPaths,
) -> bool {
    &&& r.engine@ == engine_wire(engine)
    &&& r.model_filename@ == model_filename
    &&& r.model_path@ == joined(paths.style, models_dir, model_filename)
    &&& r.ffmpeg_resolved@ == paths.ffmpeg_resolved@
    &&& r.whisper_stream_resolved@ == paths.whisper_stream_resolved@
    &&& r.parakeet_cli_resolved@ == paths.parakeet_cli_resolved@
}

fn readiness_response(
    allowed: bool,
    reason_code: &str,
    message: String,
    device: Option<String>,
    engine: TranscriptionEngine,
    models_dir: &str,
    model_filename: &str,
    paths: &ReadinessPaths,
) -> (r: RealtimeStartReadinessResponse)
    ensures
        verdict_of(r) == (Verdict {
            allowed,
            reason_code: reason_code@,
            message: message@,
            device: opt_view(device),
        }),
        reports_model(r, engine, models_dir@, model_filename@, *paths),
{
    RealtimeStartReadinessResponse {
        allowed,
        reason_code: reason_code.to_owned(),
        message,
        engine: engine_to_wire(engine).to_owned(),
        model_filename: model_filename.to_owned(),
        model_path: join_path(paths.style, models_dir, model_filename),
        ffmpeg_resolved: paths.ffmpeg_resolved.clone(),
        whisper_stream_resolved: paths.whisper_stream_resolved.clone(),
        parakeet_cli_resolved: paths.parakeet_cli_resolved.clone(),
        input_device_name: device,
    }
}

/// What is known before a Parakeet live session starts. A fact that depends on an earlier one that
/// does not hold is not looked at.
pub struct ParakeetLiveFacts {
    pub models_dir: String,
    pub requested_model_filename: String,
    /// The model that was chosen, or why none was.
    pub selected_model: Result<String, String>,
    pub cli_available: bool,
    pub lib_path: String,
    pub lib_exists: bool,
    /// Why the library cannot be loaded, if it cannot.
    pub lib_error: Option<String>,
    pub model_exists: bool,
    pub input_device: Result<String, InputDeviceError>,
    pub paths: ReadinessPaths,
}

/// The verdict on a Parakeet live session: the first thing that is missing, in this order.
pub open spec fn parakeet_verdict(f: ParakeetLiveFacts) -> Verdict {
    match f.selected_model {
        Err(error) => refused("parakeet_realtime_model_missing"@, error@),
        Ok(model) => if !f.cli_available {
            refused(
                "parakeet_cli_missing"@,
                "Parakeet.cpp runtime is not available at "@ + f.paths.parakeet_cli_resolved@
                    + "."@,
            )
        } else if !f.lib_exists {
            refused(
                "parakeet_live_library_missing"@,
                "Parakeet.cpp live library is missing at "@ + f.lib_path@
                    + ". Reinstall the local runtime."@,
            )
        } else if f.lib_error is Some {
            refused(
                "parakeet_live_library_unloadable"@,
                "Parakeet.cpp live library is not loadable at "@ + f.lib_path@ + ". "@
                    + f.lib_error->0@,
            )
        } else if !f.model_exists {
            refused(
                "parakeet_realtime_model_missing"@,
                "Parakeet.cpp live requires the selected streaming model. Download '"@ + model@
                    + "' in Local Models."@,
            )
        } else {
            match f.input_device {
                Err(e) => refused(e.reason_code@, e.message@),
                Ok(device) => Verdict {
                    allowed: true,
                    reason_code: "ok"@,
                    message: "Parakeet.cpp live is ready with '"@ + model@ + "' (lang "@ + "auto"@
                        + ")."@,
                    device: Some(device@),
                },
            }
        },
    }
}

/// Decides whether a Parakeet live session may start.
pub fn parakeet_start_readiness(facts: &ParakeetLiveFacts) -> (r: RealtimeStartReadinessResponse)
    ensures
        verdict_of(r) == parakeet_verdict(*facts),
        reports_model(
            r,
            TranscriptionEngine::ParakeetCpp,
            facts.models_dir@,
            match facts.selected_model {
                Ok(model) => model@,
                Err(_) => facts.requested_model_filename@,
            },
            facts.paths,
        ),
{
    let engine = TranscriptionEngine::ParakeetCpp;
    let dir: &str = facts.models_dir.as_str();
    let model: &str = match &facts.selected_model {
        Err(error) => {
            return readiness_response(
                false,
                "parakeet_realtime_model_missing",
                error.clone(),
                None,
                engine,
                dir,
                facts.requested_model_filename.as_str(),
                &facts.paths,
            );
        },
        Ok(model) => model.as_str(),
    };
    if !facts.cli_available {
        return readiness_response(
            false,
            "parakeet_cli_missing",
            cat3(
                "Parakeet.cpp runtime is not available at ",
                facts.paths.parakeet_cli_resolved.as_str(),
                ".",
            ),
            None,
            engine,
            dir,
            model,
            &facts.paths,
        );
    }
    if !facts.lib_exists {
        return readiness_response(
            false,
            "parakeet_live_library_missing",
            cat3(
                "Parakeet.cpp live library is missing at ",
                facts.lib_path.as_str(),
                ". Reinstall the local runtime.",
            ),
            None,
            engine,
            dir,
            model,
            &facts.paths,
        );
    }
    if let Some(error) = &facts.lib_error {
        return readiness_response(
            false,
            "parakeet_live_library_unloadable",
            cat4(
                "Parakeet.cpp live library is not loadable at ",
                facts.lib_path.as_str(),
                ". ",
                error.as_str(),
            ),
            None,
            engine,
            dir,
            model,
            &facts.paths,
        );
    }
    if !facts.model_exists {
        return readiness_response(
            false,
            "parakeet_realtime_model_missing",
            cat3(
                "Parakeet.cpp live requires the selected streaming model. Download '",
                model,
                "' in Local Models.",
            ),
            None,
            engine,
            dir,
            model,
            &facts.paths,
        );
    }
    match &facts.input_device {
        Err(error) => readiness_response(
            false,
            error.reason_code.as_str(),
            error.message.clone(),
            None,
            engine,
            dir,
            model,
            &facts.paths,
        ),
        Ok(device) => readiness_response(
            true,
            "ok",
            cat5("Parakeet.cpp live is ready with '", model, "' (lang ", "auto", ")."),
            Some(device.clone()),
            engine,
            dir,
            model,
            &facts.paths,
        ),
    }
}

/// What is known before a Whisper live session starts.
pub struct WhisperLiveFacts {
    pub models_dir: String,
    pub model_filename: String,
    pub ffmpeg_available: bool,
    pub whisper_stream_available: bool,
    pub model_present: bool,
    pub input_device: Result<String, InputDeviceError>,
    pub paths: ReadinessPaths,
}

/// The verdict on a Whisper live session: the first thing that is missing, in this order.
pub open spec fn whisper_verdict(f: WhisperLiveFacts) -> Verdict {
    if !f.ffmpeg_available {
        refused(
            "ffmpeg_missing"@,
            "FFmpeg is not runnable at '"@ + f.paths.ffmpeg_resolved@
                + "'. Repair the local runtime from Settings > Local Models."@,
        )
    } else if !f.whisper_stream_available {
        refused(
            "whisper_stream_missing"@,
            "Whisper Stream is not runnable at '"@ + f.paths.whisper_stream_resolved@
                + "'. Repair the local runtime from Settings > Local Models."@,
        )
    } else if !f.model_present {
        refused(
            "model_missing"@,
            "Model file '"@ + f.model_filename@ + "' was not found in '"@ + f.models_dir@
                + "'. Download models from Settings > Local Models."@,
        )
    } else {
        match f.input_device {
            Err(e) => refused(e.reason_code@, e.message@),
            Ok(device) => Verdict {
                allowed: true,
                reason_code: "ok"@,
                message: "Realtime start readiness passed."@,
                device: Some(device@),
            },
        }
    }
}

/// Decides whether a Whisper live session may start.
pub fn whisper_start_readiness(facts: &WhisperLiveFacts) -> (r: RealtimeStartReadinessResponse)
    ensures
        verdict_of(r) == whisper_verdict(*facts),
        reports_model(
            r,
            TranscriptionEngine::WhisperCpp,
            facts.models_dir@,
            facts.model_filename@,
            facts.paths,
        ),
{
    let engine = TranscriptionEngine::WhisperCpp;
    let dir: &str = facts.models_dir.as_str();
    let model: &str = facts.model_filename.as_str();
    if !facts.ffmpeg_available {
        return readiness_response(
            false,
            "ffmpeg_missing",
            cat3(
                "FFmpeg is not runnable at '",
                facts.paths.ffmpeg_resolved.as_str(),
                "'. Repair the local runtime from Settings > Local Models.",
            ),
            None,
            engine,
            dir,
            model,
            &facts.paths,
        );
    }
    if !facts.whisper_stream_available {
        return readiness_response(
            false,
            "whisper_stream_missing",
            cat3(
                "Whisper Stream is not runnable at '",
                facts.paths.whisper_stream_resolved.as_str(),
                "'. Repair the local runtime from Settings > Local Models.",
            ),
            None,
            engine,
            dir,
            model,
            &facts.paths,
        );
    }
    if !facts.model_present {
        return readiness_response(
            false,
            "model_missing",
            cat5(
                "Model file '",
                model,
                "' was not found in '",
                dir,
                "'. Download models from Settings > Local Models.",
            ),
            None,
            engine,
            dir,
            model,
            &facts.paths,
        );
    }
    match &facts.input_device {
        Err(error) => readiness_response(
            false,
            error.reason_code.as_str(),
            error.message.clone(),
            None,
            engine,
            dir,
            model,
            &facts.paths,
        ),
        Ok(device) => readiness_response(
            true,
            "ok",
            "Realtime start readiness passed.".to_owned(),
            Some(device.clone()),
            engine,
            dir,
            model,
            &facts.paths,
        ),
    }
}

/// What is known before a live session starts, of the engine that it would use.
pub enum LiveStartFacts {
    Whisper(WhisperLiveFacts),
    Parakeet(ParakeetLiveFacts),
}

/// The engine of a readiness check: the one that is asked for, else the configured one.
pub fn readiness_engine(
    requested: Option<TranscriptionEngine>,
    configured: TranscriptionEngine,
) -> (r: TranscriptionEngine)
    ensures
        r == match requested {
            Some(e) => e,
            None => configured,
        },
{
    match requested {
        Some(engine) => engine,
        None => configured,
    }
}

/// Decides whether a live session may start.
pub fn get_realtime_start_readiness(facts: &LiveStartFacts) -> (r: RealtimeStartReadinessResponse)
    ensures
        verdict_of(r) == (match facts {
            LiveStartFacts::Whisper(f) => whisper_verdict(*f),
            LiveStartFacts::Parakeet(f) => parakeet_verdict(*f),
        }),
        match facts {
            LiveStartFacts::Whisper(f) => reports_model(
                r,
                TranscriptionEngine::WhisperCpp,
                f.models_dir@,
                f.model_filename@,
                f.paths,
            ),
            LiveStartFacts::Parakeet(f) => reports_model(
                r,
                TranscriptionEngine::ParakeetCpp,
                f.models_dir@,
                match f.selected_model {
                    Ok(model) => model@,
                    Err(_) => f.requested_model_filename@,
                },
                f.paths,
            ),
        },
        match facts {
            LiveStartFacts::Whisper(f) => {
                &&& r.engine@ == "whisper_cpp"@
                &&& r.model_filename@ == f.model_filename@
                &&& r.model_path@ == joined(f.paths.style, f.models_dir@, f.model_filename@)
                &&& r.allowed ==> f.model_present && f.input_device is Ok && opt_view(
                    r.input_device_name,
                ) == Some(f.input_device->Ok_0@)
            },
            LiveStartFacts::Parakeet(f) => {
                &&& r.engine@ == "parakeet_cpp"@
                &&& f.selected_model is Ok ==> r.model_filename@ == f.selected_model->Ok_0@
                &&& f.selected_model is Err ==> r.model_filename@ == f.requested_model_filename@
                    && r.message@ == f.selected_model->Err_0@ && !r.allowed
                &&& r.model_path@ == joined(f.paths.style, f.models_dir@, r.model_filename@)
                &&& r.allowed ==> f.model_exists && f.input_device is Ok && opt_view(
                    r.input_device_name,
                ) == Some(f.input_device->Ok_0@)
            },
        },
{
    match facts {
        LiveStartFacts::Whisper(f) => whisper_start_readiness(f),
        LiveStartFacts::Parakeet(f) => parakeet_start_readiness(f),
    }
}

/// A refusal of a live session says what is missing: where the tool or the library lies that cannot be
/// used, or which model is to be downloaded.
pub proof fn a_refused_live_session_names_what_is_missing(w: WhisperLiveFacts, p: ParakeetLiveFacts)
    ensures
        !w.ffmpeg_available ==> contains(whisper_verdict(w).message, w.paths.ffmpeg_resolved@),
        w.ffmpeg_available && !w.whisper_stream_available ==> contains(
            whisper_verdict(w).message,
            w.paths.whisper_stream_resolved@,
        ),
        w.ffmpeg_available && w.whisper_stream_available && !w.model_present ==> contains(
            whisper_verdict(w).message,
            w.model_filename@,
        ) && contains(whisper_verdict(w).message, w.models_dir@),
        p.selected_model is Ok && !p.cli_available ==> contains(
            parakeet_verdict(p).message,
            p.paths.parakeet_cli_resolved@,
        ),
        p.selected_model is Ok && p.cli_available && !p.lib_exists ==> contains(
            parakeet_verdict(p).message,
            p.lib_path@,
        ),
        p.selected_model is Ok && p.cli_available && p.lib_exists && p.lib_error is Some ==> contains(
            parakeet_verdict(p).message,
            p.lib_error->0@,
        ),
        p.selected_model is Ok && p.cli_available && p.lib_exists && p.lib_error is None
            && !p.model_exists ==> contains(parakeet_verdict(p).message, p.selected_model->Ok_0@),
        parakeet_verdict(p).allowed ==> contains(
            parakeet_verdict(p).message,
            p.selected_model->Ok_0@,
        ),
        whisper_verdict(w).allowed ==> whisper_verdict(w).reason_code == "ok"@,
        parakeet_verdict(p).allowed ==> parakeet_verdict(p).reason_code == "ok"@,
{
    let repair = "'. Repair the local runtime from Settings > Local Models."@;
    lemma_contains_middle("FFmpeg is not runnable at '"@, w.paths.ffmpeg_resolved@, repair);
    lemma_contains_middle(
        "Whisper Stream is not runnable at '"@,
        w.paths.whisper_stream_resolved@,
        repair,
    );
    let a = "Model file '"@;
    let b = "' was not found in '"@;
    let c = "'. Download models from Settings > Local Models."@;
    lemma_contains_middle(a, w.model_filename@, b + w.models_dir@ + c);
    assert(a + w.model_filename@ + (b + w.models_dir@ + c) =~= a + w.model_filename@ + b
        + w.models_dir@ + c);
    lemma_contains_middle(a + w.model_filename@ + b, w.models_dir@, c);
    lemma_contains_middle(
        "Parakeet.cpp runtime is not available at "@,
        p.paths.parakeet_cli_resolved@,
        "."@,
    );
    lemma_contains_middle(
        "Parakeet.cpp live library is missing at "@,
        p.lib_path@,
        ". Reinstall the local runtime."@,
    );
    if p.lib_error is Some {
        let head = "Parakeet.cpp live library is not loadable at "@ + p.lib_path@ + ". "@;
        lemma_contains_middle(head, p.lib_error->0@, Seq::empty());
        assert(head + p.lib_error->0@ + Seq::empty() =~= head + p.lib_error->0@);
    }
    if p.selected_model is Ok {
        let model = p.selected_model->Ok_0@;
        lemma_contains_middle(
            "Parakeet.cpp live requires the selected streaming model. Download '"@,
            model,
            "' in Local Models."@,
        );
        let head = "Parakeet.cpp live is ready with '"@;
        let tail = "' (lang "@ + "auto"@ + ")."@;
        lemma_contains_middle(head, model, tail);
        assert(head + model + tail =~= head + model + "' (lang "@ + "auto"@ + ")."@);
    }
}

/// A live session is allowed only with everything that it needs, and then the input device is
/// named.
pub proof fn allowed_live_session_has_everything(w: WhisperLiveFacts, p: ParakeetLiveFacts)
    ensures
        whisper_verdict(w).allowed <==> w.ffmpeg_available && w.whisper_stream_available
            && w.model_present && w.input_device is Ok,
        whisper_verdict(w).allowed <==> whisper_verdict(w).device is Some,
        parakeet_verdict(p).allowed <==> p.selected_model is Ok && p.cli_available && p.lib_exists
            && p.lib_error is None && p.model_exists && p.input_device is Ok,
        parakeet_verdict(p).allowed <==> parakeet_verdict(p).device is Some,
{
}

// ---------------------------------------------------------------------------
// File transcriptions
// ---------------------------------------------------------------------------

/// Whether a transcription may start, and why not.
#[derive(Debug)]
pub struct StartPreflightResponse {
    pub allowed: bool,
    pub reason_code: String,
    pub message: String,
    pub engine: String,
    pub model_filename: String,
    pub model_path: String,
    pub whisper_cli_resolved: String,
    pub whisper_stream_resolved: String,
    pub parakeet_cli_resolved: String,
    pub pyannote: PyannoteRuntimeHealth,
}

/// What a preflight is asked for. The models are named by their files.
#[derive(Debug)]
pub struct StartPreflightPayload {
    pub engine: Option<TranscriptionEngine>,
    pub model: String,
    pub parakeet_model: Option<String>,
    pub language: Option<String>,
}

/// The engine of a preflight.
pub open spec fn preflight_engine(
    q: Option<StartPreflightPayload>,
    h: RuntimeHealth,
) -> TranscriptionEngine {
    match q {
        Some(p) if p.engine is Some => p.engine->0,
        _ => h.configured_engine,
    }
}

/// The model of a preflight: the one that is asked for, else the configured one.
pub open spec fn preflight_model(q: Option<StartPreflightPayload>, h: RuntimeHealth) -> Seq<char> {
    match preflight_engine(q, h) {
        TranscriptionEngine::WhisperCpp => match q {
            Some(p) => p.model@,
            None => h.model_filename@,
        },
        TranscriptionEngine::ParakeetCpp => match q {
            Some(p) if p.parakeet_model is Some => p.parakeet_model->0@,
            _ => h.parakeet_model_filename@,
        },
    }
}

/// The directory of a preflight's model.
pub open spec fn preflight_dir(q: Option<StartPreflightPayload>, h: RuntimeHealth) -> Seq<char> {
    match preflight_engine(q, h) {
        TranscriptionEngine::WhisperCpp => h.models_dir_resolved@,
        TranscriptionEngine::ParakeetCpp => h.parakeet_models_dir_resolved@,
    }
}

/// What a preflight says that it is about, held against the request: the engine that is asked for, or
/// the configured one; the model that is asked for, or for Parakeet the configured one where none is;
/// and that model's path in the directory of the engine's models.
pub open spec fn asks_for(
    p: StartPreflightPayload,
    h: RuntimeHealth,
    style: PathStyle,
    engine: Seq<char>,
    model: Seq<char>,
    path: Seq<char>,
) -> bool {
    let parakeet = p.engine == Some(TranscriptionEngine::ParakeetCpp) || (p.engine is None
        && h.configured_engine == TranscriptionEngine::ParakeetCpp);
    &&& parakeet ==> {
        &&& engine == "parakeet_cpp"@
        &&& p.parakeet_model is Some ==> model == p.parakeet_model->0@
        &&& p.parakeet_model is None ==> model == h.parakeet_model_filename@
        &&& path == joined(style, h.parakeet_models_dir_resolved@, model)
    }
    &&& !parakeet ==> {
        &&& engine == "whisper_cpp"@
        &&& model == p.model@
        &&& path == joined(style, h.models_dir_resolved@, model)
    }
}

/// A preflight is about the engine and the model that are asked for. Only what is left open is taken
/// from the configuration, and the models of each engine lie in a directory of their own.
pub proof fn a_preflight_is_about_what_is_asked_for(p: StartPreflightPayload, h: RuntimeHealth)
    ensures
        p.engine is Some ==> preflight_engine(Some(p), h) == p.engine->0,
        p.engine is None ==> preflight_engine(Some(p), h) == h.configured_engine,
        preflight_engine(None, h) == h.configured_engine,
        preflight_engine(Some(p), h) == TranscriptionEngine::WhisperCpp ==> preflight_model(Some(p), h)
            == p.model@ && preflight_dir(Some(p), h) == h.models_dir_resolved@,
        preflight_engine(Some(p), h) == TranscriptionEngine::ParakeetCpp ==> preflight_dir(Some(p), h)
            == h.parakeet_models_dir_resolved@,
        preflight_engine(Some(p), h) == TranscriptionEngine::ParakeetCpp && p.parakeet_model is Some
            ==> preflight_model(Some(p), h) == p.parakeet_model->0@,
        preflight_engine(Some(p), h) == TranscriptionEngine::ParakeetCpp && p.parakeet_model is None
            ==> preflight_model(Some(p), h) == h.parakeet_model_filename@,
        h.configured_engine == TranscriptionEngine::WhisperCpp ==> preflight_model(None, h)
            == h.model_filename@ && preflight_dir(None, h) == h.models_dir_resolved@,
        h.configured_engine == TranscriptionEngine::ParakeetCpp ==> preflight_model(None, h)
            == h.parakeet_model_filename@ && preflight_dir(None, h) == h.parakeet_models_dir_resolved@,
{
}

fn asked_engine(request: &Option<StartPreflightPayload>, health: &RuntimeHealth) -> (r:
    TranscriptionEngine)
    ensures
        r == preflight_engine(*request, *health),
{
    match request {
        Some(payload) => readiness_engine(payload.engine, health.configured_engine),
        None => health.configured_engine,
    }
}

fn asked_model<'a>(request: &'a Option<StartPreflightPayload>, health: &'a RuntimeHealth) -> (r:
    &'a str)
    ensures
        r@ == preflight_model(*request, *health),
{
    match asked_engine(request, health) {
        TranscriptionEngine::WhisperCpp => match request {
            Some(payload) => payload.model.as_str(),
            None => health.model_filename.as_str(),
        },
        TranscriptionEngine::ParakeetCpp => match request {
            Some(payload) => match &payload.parakeet_model {
                Some(model) => model.as_str(),
                None => health.parakeet_model_filename.as_str(),
            },
            None => health.parakeet_model_filename.as_str(),
        },
    }
}

fn asked_dir<'a>(request: &Option<StartPreflightPayload>, health: &'a RuntimeHealth) -> (r: &'a str)
    ensures
        r@ == preflight_dir(*request, *health),
{
    match asked_engine(request, health) {
        TranscriptionEngine::WhisperCpp => health.models_dir_resolved.as_str(),
        TranscriptionEngine::ParakeetCpp => health.parakeet_models_dir_resolved.as_str(),
    }
}

/// Where the model of a preflight lies.
pub fn preflight_model_path(
    request: &Option<StartPreflightPayload>,
    health: &RuntimeHealth,
    style: PathStyle,
) -> (r: String)
    ensures
        r@ == joined(style, preflight_dir(*request, *health), preflight_model(*request, *health)),
        request matches Some(p) ==> (p.engine == Some(TranscriptionEngine::WhisperCpp) ==> r@
            == joined(style, health.models_dir_resolved@, p.model@)),
        request matches Some(p) ==> (p.engine == Some(TranscriptionEngine::ParakeetCpp)
            && p.parakeet_model is Some ==> r@ == joined(
            style,
            health.parakeet_models_dir_resolved@,
            p.parakeet_model->0@,
        )),
{
    join_path(style, asked_dir(request, health), asked_model(request, health))
}

/// The tool that the probe of a preflight runs: that of the engine.
pub fn preflight_tool_path(request: &Option<StartPreflightPayload>, health: &RuntimeHealth) -> (r:
    String)
    ensures
        r@ == match preflight_engine(*request, *health) {
            TranscriptionEngine::WhisperCpp => health.whisper_cli_resolved@,
            TranscriptionEngine::ParakeetCpp => health.parakeet_cli_resolved@,
        },
        request matches Some(p) && p.engine == Some(TranscriptionEngine::WhisperCpp) ==> r@
            == health.whisper_cli_resolved@,
        request matches Some(p) && p.engine == Some(TranscriptionEngine::ParakeetCpp) ==> r@
            == health.parakeet_cli_resolved@,
        request is None && health.configured_engine == TranscriptionEngine::WhisperCpp ==> r@
            == health.whisper_cli_resolved@,
        request is None && health.configured_engine == TranscriptionEngine::ParakeetCpp ==> r@
            == health.parakeet_cli_resolved@,
{
    match asked_engine(request, health) {
        TranscriptionEngine::WhisperCpp => health.whisper_cli_resolved.clone(),
        TranscriptionEngine::ParakeetCpp => health.parakeet_cli_resolved.clone(),
    }
}

/// The verdict on a transcription before the probe: `None` when nothing is known to be missing.
pub open spec fn preflight_problem(
    q: Option<StartPreflightPayload>,
    h: RuntimeHealth,
    model_exists: bool,
) -> Option<(Seq<char>, Seq<char>)> {
    let engine = preflight_engine(q, h);
    if !h.ffmpeg_available {
        Some(
            (
                "ffmpeg_missing"@,
                if h.managed_runtime_required {
                    toolchain_message(h, None)
                } else {
                    "FFmpeg is not runnable at '"@ + h.ffmpeg_resolved@
                        + "'. Configure FFmpeg path in Settings > Advanced."@
                },
            ),
        )
    } else if engine == TranscriptionEngine::WhisperCpp && !h.whisper_cli_available {
        Some(
            (
                "whispercpp_missing"@,
                if h.managed_runtime_required {
                    toolchain_message(h, None)
                } else {
                    "Whisper CLI is not runnable at '"@ + h.whisper_cli_resolved@
                        + "'. Configure Whisper CLI path in Settings > Local Models."@
                },
            ),
        )
    } else if engine == TranscriptionEngine::ParakeetCpp && !h.parakeet_cli_available {
        Some(
            (
                "parakeetcpp_missing"@,
                "Parakeet CLI is not runnable at '"@ + h.parakeet_cli_resolved@
                    + "'. Repair the local runtime from Settings > Local Models."@,
            ),
        )
    } else if !model_exists {
        Some(
            (
                "model_missing"@,
                "Model file '"@ + preflight_model(q, h) + "' was not found in '"@ + preflight_dir(
                    q,
                    h,
                ) + "'. Download models from Settings > Local Models."@,
            ),
        )
    } else {
        None
    }
}

/// The verdict on a transcription, with the result of the probe.
pub open spec fn preflight_verdict(
    q: Option<StartPreflightPayload>,
    h: RuntimeHealth,
    model_exists: bool,
    probe: Result<(), RuntimeProbeFailure>,
) -> (bool, Seq<char>, Seq<char>) {
    match preflight_problem(q, h, model_exists) {
        Some((reason, message)) => (false, reason, message),
        None => match probe {
            Err(e) => (
                false,
                e.reason_code@,
                e.message@
                    + " Repair the local runtime or selected model from Settings > Local Models."@,
            ),
            Ok(_) => (
                true,
                "ok"@,
                match preflight_engine(q, h) {
                    TranscriptionEngine::WhisperCpp => "Whisper.cpp preflight passed."@,
                    TranscriptionEngine::ParakeetCpp => "Parakeet.cpp preflight passed."@,
                },
            ),
        },
    }
}

/// A transcription may start exactly when FFmpeg, the engine's own tool and the model are there and the
/// probe passed. A missing model is named, with the directory in which it was looked for, and only when
/// the tools are there; a failed probe is told by its own reason.
pub proof fn an_allowed_transcription_has_everything(
    q: Option<StartPreflightPayload>,
    h: RuntimeHealth,
    model_exists: bool,
    probe: Result<(), RuntimeProbeFailure>,
)
    ensures
        ({
            let whisper = preflight_engine(q, h) == TranscriptionEngine::WhisperCpp;
            let tools = h.ffmpeg_available && (whisper ==> h.whisper_cli_available) && (!whisper
                ==> h.parakeet_cli_available);
            let (allowed, reason, message) = preflight_verdict(q, h, model_exists, probe);
            &&& allowed <==> tools && model_exists && probe is Ok
            &&& allowed ==> reason == "ok"@
            &&& reason == "model_missing"@ && (probe is Ok || !model_exists) ==> tools && !model_exists
            &&& tools && !model_exists ==> {
                &&& reason == "model_missing"@
                &&& contains(message, preflight_model(q, h))
                &&& contains(message, preflight_dir(q, h))
            }
            &&& tools && model_exists && probe is Err ==> reason == probe->Err_0.reason_code@
                && contains(message, probe->Err_0.message@)
            &&& !h.ffmpeg_available ==> reason == "ffmpeg_missing"@
            &&& !h.ffmpeg_available && !h.managed_runtime_required ==> contains(
                message,
                h.ffmpeg_resolved@,
            )
        }),
{
    let m = preflight_model(q, h);
    let d = preflight_dir(q, h);
    let a = "Model file '"@;
    let b = "' was not found in '"@;
    let c = "'. Download models from Settings > Local Models."@;
    lemma_contains_middle(a, m, b + d + c);
    assert(a + m + (b + d + c) =~= a + m + b + d + c);
    lemma_contains_middle(a + m + b, d, c);
    lemma_contains_middle(
        "FFmpeg is not runnable at '"@,
        h.ffmpeg_resolved@,
        "'. Configure FFmpeg path in Settings > Advanced."@,
    );
    if probe is Err {
        let said = probe->Err_0.message@;
        let tail = " Repair the local runtime or selected model from Settings > Local Models."@;
        lemma_contains_middle(Seq::empty(), said, tail);
        assert(Seq::<char>::empty() + said + tail =~= said + tail);
    }
    reveal_strlit("model_missing");
    reveal_strlit("ffmpeg_missing");
    reveal_strlit("whispercpp_missing");
    reveal_strlit("parakeetcpp_missing");
    reveal_strlit("ok");
    assert("model_missing"@[0] == 'm');
    assert("ffmpeg_missing"@[0] == 'f');
    assert("whispercpp_missing"@[0] == 'w');
    assert("parakeetcpp_missing"@[0] == 'p');
    assert("ok"@[0] == 'o');
}

/// Finds what is missing for a transcription before the probe is run.
pub fn preflight_before_probe(
    request: &Option<StartPreflightPayload>,
    health: &RuntimeHealth,
    model_exists: bool,
) -> (r: Option<(&'static str, String)>)
    ensures
        match preflight_problem(*request, *health, model_exists) {
            None => r is None,
            Some((reason, message)) => r is Some && (r->0).0@ == reason && (r->0).1@ == message,
        },
{
    let engine: TranscriptionEngine = asked_engine(request, health);
    if !health.ffmpeg_available {
        let message: String = if health.managed_runtime_required {
            runtime_toolchain_message(health, &None)
        } else {
            cat3(
                "FFmpeg is not runnable at '",
                health.ffmpeg_resolved.as_str(),
                "'. Configure FFmpeg path in Settings > Advanced.",
            )
        };
        return Some(("ffmpeg_missing", message));
    }
    if engine == TranscriptionEngine::WhisperCpp && !health.whisper_cli_available {
        let message: String = if health.managed_runtime_required {
            runtime_toolchain_message(health, &None)
        } else {
            cat3(
                "Whisper CLI is not runnable at '",
                health.whisper_cli_resolved.as_str(),
                "'. Configure Whisper CLI path in Settings > Local Models.",
            )
        };
        return Some(("whispercpp_missing", message));
    }
    if engine == TranscriptionEngine::ParakeetCpp && !health.parakeet_cli_available {
        return Some(
            (
                "parakeetcpp_missing",
                cat3(
                    "Parakeet CLI is not runnable at '",
                    health.parakeet_cli_resolved.as_str(),
                    "'. Repair the local runtime from Settings > Local Models.",
                ),
            ),
        );
    }
    if !model_exists {
        let message: String = cat5(
            "Model file '",
            asked_model(request, health),
            "' was not found in '",
            asked_dir(request, health),
            "'. Download models from Settings > Local Models.",
        );
        return Some(("model_missing", message));
    }
    None
}

/// Decides whether a transcription may start. The probe's result counts only when nothing is known
/// to be missing.
pub fn get_transcription_start_preflight(
    request: &Option<StartPreflightPayload>,
    health: RuntimeHealth,
    style: PathStyle,
    model_exists: bool,
    probe: &Result<(), RuntimeProbeFailure>,
) -> (r: StartPreflightResponse)
    ensures
        (r.allowed, r.reason_code@, r.message@) == preflight_verdict(
            *request,
            health,
            model_exists,
            *probe,
        ),
        r.engine@ == engine_wire(preflight_engine(*request, health)),
        r.model_filename@ == preflight_model(*request, health),
        r.model_path@ == joined(
            style,
            preflight_dir(*request, health),
            preflight_model(*request, health),
        ),
        request is None && health.configured_engine == TranscriptionEngine::WhisperCpp
            ==> r.model_filename@ == health.model_filename@ && r.model_path@ == joined(
            style,
            health.models_dir_resolved@,
            health.model_filename@,
        ),
        request is None && health.configured_engine == TranscriptionEngine::ParakeetCpp
            ==> r.model_filename@ == health.parakeet_model_filename@ && r.model_path@ == joined(
            style,
            health.parakeet_models_dir_resolved@,
            health.parakeet_model_filename@,
        ),
        request matches Some(p) ==> asks_for(
            *p,
            health,
            style,
            r.engine@,
            r.model_filename@,
            r.model_path@,
        ),
        r.allowed ==> health.ffmpeg_available && model_exists && probe is Ok,
        r.whisper_cli_resolved@ == health.whisper_cli_resolved@,
        r.whisper_stream_resolved@ == health.whisper_stream_resolved@,
        r.parakeet_cli_resolved@ == health.parakeet_cli_resolved@,
        r.pyannote == health.pyannote,
{
    let engine: TranscriptionEngine = asked_engine(request, &health);
    let mut allowed: bool = false;
    let mut reason_code: String = String::new();
    let mut message: String = String::new();
    match preflight_before_probe(request, &health, model_exists) {
        Some((reason, text)) => {
            reason_code = reason.to_owned();
            message = text;
        },
        None => match probe {
            Err(error) => {
                reason_code = error.reason_code.clone();
                message = error.message.clone();
                message.append(
                    " Repair the local runtime or selected model from Settings > Local Models.",
                );
            },
            Ok(_) => {
                allowed = true;
                reason_code = "ok".to_owned();
                message = match engine {
                    TranscriptionEngine::WhisperCpp => "Whisper.cpp preflight passed.".to_owned(),
                    TranscriptionEngine::ParakeetCpp => "Parakeet.cpp preflight passed.".to_owned(),
                };
            },
        },
    }
    let model_filename: String = asked_model(request, &health).to_owned();
    let model_path: String = preflight_model_path(request, &health, style);
    StartPreflightResponse {
        allowed,
        reason_code,
        message,
        engine: engine_to_wire(engine).to_owned(),
        model_filename,
        model_path,
        whisper_cli_resolved: health.whisper_cli_resolved,
        whisper_stream_resolved: health.whisper_stream_resolved,
        parakeet_cli_resolved: health.parakeet_cli_resolved,
        pyannote: health.pyannote,
    }
}

} // verus!
