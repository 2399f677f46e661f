//! The models that can be provisioned, and which of them are missing.

use vstd::prelude::*;
use vstd::string::*;

use crate::domain::PyannoteRuntimeHealth;
use crate::text::{list_contains, trim, trim_text, views};

verus! {

/// Where the Whisper models and encoders are downloaded from.
pub const MODEL_BASE_URL: &'static str = "https://huggingface.co/ggerganov/whisper.cpp/resolve/main/";

/// Where the Parakeet models are downloaded from.
pub const PARAKEET_MODEL_BASE_URL: &'static str = "https://huggingface.co/mudler/parakeet-cpp-gguf/resolve/main/";

/// A Whisper model and its Core ML encoder.
#[derive(Clone, Copy)]
pub struct WhisperModel {
    pub key: &'static str,
    pub label: &'static str,
    pub file: &'static str,
    pub encoder_dir: &'static str,
    pub encoder_archive: &'static str,
}

/// A Parakeet model.
#[derive(Clone, Copy)]
pub struct ParakeetModelEntry {
    pub key: &'static str,
    pub label: &'static str,
    pub file: &'static str,
}

/// One line of the Whisper catalog: key, label, model file, encoder directory, encoder archive.
pub type WhisperLine = (Seq<char>, Seq<char>, Seq<char>, Seq<char>, Seq<char>);

/// The Whisper models, from the smallest to the largest.
pub open spec fn whisper_catalog() -> Seq<WhisperLine> {
    seq![
        (
            "tiny"@,
            "Tiny"@,
            "ggml-tiny.bin"@,
            "ggml-tiny-encoder.mlmodelc"@,
            "ggml-tiny-encoder.mlmodelc.zip"@,
        ),
        (
            "base"@,
            "Base"@,
            "ggml-base.bin"@,
            "ggml-base-encoder.mlmodelc"@,
            "ggml-base-encoder.mlmodelc.zip"@,
        ),
        (
            "small"@,
            "Small"@,
            "ggml-small.bin"@,
            "ggml-small-encoder.mlmodelc"@,
            "ggml-small-encoder.mlmodelc.zip"@,
        ),
        (
            "medium"@,
            "Medium"@,
            "ggml-medium.bin"@,
            "ggml-medium-encoder.mlmodelc"@,
            "ggml-medium-encoder.mlmodelc.zip"@,
        ),
        (
            "large_turbo"@,
            "Large Turbo"@,
            "ggml-large-v3-turbo-q8_0.bin"@,
            "ggml-large-v3-turbo-encoder.mlmodelc"@,
            "ggml-large-v3-turbo-encoder.mlmodelc.zip"@,
        ),
    ]
}

/// The Parakeet models: key, label and file.
pub open spec fn parakeet_catalog() -> Seq<(Seq<char>, Seq<char>, Seq<char>)> {
    seq![
        ("tdt06b_v3_q4"@, "Parakeet TDT 0.6B Q4 — file only"@, "tdt-0.6b-v3-q4_k.gguf"@),
        (
            "nemotron35_asr_streaming_06b_q4"@,
            "NVIDIA Nemotron 3.5 ASR 0.6B Q4 — live + multilingual"@,
            "nemotron-3.5-asr-streaming-0.6b-q4_k.gguf"@,
        ),
    ]
}

impl WhisperModel {
    /// The catalog line of a model.
    pub open spec fn line(&self) -> WhisperLine {
        (self.key@, self.label@, self.file@, self.encoder_dir@, self.encoder_archive@)
    }
}

impl ParakeetModelEntry {
    /// The catalog line of a model.
    pub open spec fn line(&self) -> (Seq<char>, Seq<char>, Seq<char>) {
        (self.key@, self.label@, self.file@)
    }
}

/// Lists the Whisper models.
pub fn whisper_models() -> (r: Vec<WhisperModel>)
    ensures
        r@.map_values(|m: WhisperModel| m.line()) == whisper_catalog(),
{
    let r: Vec<WhisperModel> = vec![
        WhisperModel {
            key: "tiny",
            label: "Tiny",
            file: "ggml-tiny.bin",
            encoder_dir: "ggml-tiny-encoder.mlmodelc",
            encoder_archive: "ggml-tiny-encoder.mlmodelc.zip",
        },
        WhisperModel {
            key: "base",
            label: "Base",
            file: "ggml-base.bin",
            encoder_dir: "ggml-base-encoder.mlmodelc",
            encoder_archive: "ggml-base-encoder.mlmodelc.zip",
        },
        WhisperModel {
            key: "small",
            label: "Small",
            file: "ggml-small.bin",
            encoder_dir: "ggml-small-encoder.mlmodelc",
            encoder_archive: "ggml-small-encoder.mlmodelc.zip",
        },
        WhisperModel {
            key: "medium",
            label: "Medium",
            file: "ggml-medium.bin",
            encoder_dir: "ggml-medium-encoder.mlmodelc",
            encoder_archive: "ggml-medium-encoder.mlmodelc.zip",
        },
        WhisperModel {
            key: "large_turbo",
            label: "Large Turbo",
            file: "ggml-large-v3-turbo-q8_0.bin",
            encoder_dir: "ggml-large-v3-turbo-encoder.mlmodelc",
            encoder_archive: "ggml-large-v3-turbo-encoder.mlmodelc.zip",
        },
    ];
    assert(r@.map_values(|m: WhisperModel| m.line()) =~= whisper_catalog());
    r
}

/// Lists the Parakeet models.
pub fn parakeet_models() -> (r: Vec<ParakeetModelEntry>)
    ensures
        r@.map_values(|m: ParakeetModelEntry| m.line()) == parakeet_catalog(),
{
    let r: Vec<ParakeetModelEntry> = vec![
        ParakeetModelEntry {
            key: "tdt06b_v3_q4",
            label: "Parakeet TDT 0.6B Q4 — file only",
            file: "tdt-0.6b-v3-q4_k.gguf",
        },
        ParakeetModelEntry {
            key: "nemotron35_asr_streaming_06b_q4",
            label: "NVIDIA Nemotron 3.5 ASR 0.6B Q4 — live + multilingual",
            file: "nemotron-3.5-asr-streaming-0.6b-q4_k.gguf",
        },
    ];
    assert(r@.map_values(|m: ParakeetModelEntry| m.line()) =~= parakeet_catalog());
    r
}

/// The model files of the Whisper catalog, in its order.
pub open spec fn required_models() -> Seq<Seq<char>> {
    whisper_catalog().map_values(|l: WhisperLine| l.2)
}

/// The encoder directories of the Whisper catalog, in its order.
pub open spec fn coreml_encoders() -> Seq<Seq<char>> {
    whisper_catalog().map_values(|l: WhisperLine| l.3)
}

/// The names of a list that are not among those that exist, in the list's order.
pub open spec fn missing_from(names: Seq<Seq<char>>, existing: Seq<Seq<char>>) -> Seq<Seq<char>> {
    names.filter(|n: Seq<char>| !existing.contains(n))
}

/// Lists the required model files that are missing. `existing` holds the names that are found in
/// the models directory.
pub fn collect_missing_models(existing: &Vec<String>) -> (r: Vec<String>)
    ensures
        views(r@) == missing_from(required_models(), views(existing@)),
{
    let models: Vec<WhisperModel> = whisper_models();
    let ghost lines = models@.map_values(|m: WhisperModel| m.line());
    let ghost absent = |n: Seq<char>| !views(existing@).contains(n);
    let mut out: Vec<String> = Vec::new();
    let mut i: usize = 0;
    assert(required_models().take(0) =~= Seq::<Seq<char>>::empty());
    proof {
        reveal(Seq::filter);
    }
    assert(views(out@) =~= required_models().take(0).filter(absent));
    while i < models.len()
        invariant
            i <= models@.len(),
            lines == models@.map_values(|m: WhisperModel| m.line()),
            lines == whisper_catalog(),
            absent == (|n: Seq<char>| !views(existing@).contains(n)),
            views(out@) == required_models().take(i as int).filter(absent),
        decreases models@.len() - i,
    {
        let ghost before = views(out@);
        proof {
            reveal(Seq::filter);
            assert(lines[i as int] == models@[i as int].line());
            assert(required_models()[i as int] == models@[i as int].file@);
            assert(required_models().take(i + 1).drop_last() =~= required_models().take(i as int));
            assert(required_models().take(i + 1).last() == required_models()[i as int]);
        }
        if !list_contains(existing, models[i].file) {
            out.push(models[i].file.to_owned());
            assert(views(out@) =~= before.push(models@[i as int].file@));
        }
        i = i + 1;
    }
    assert(required_models().take(i as int) =~= required_models());
    out
}

/// Lists the encoder directories that are missing. `existing` holds the names of the directories
/// that are found in the models directory.
pub fn collect_missing_encoders(existing: &Vec<String>) -> (r: Vec<String>)
    ensures
        views(r@) == missing_from(coreml_encoders(), views(existing@)),
{
    let models: Vec<WhisperModel> = whisper_models();
    let ghost lines = models@.map_values(|m: WhisperModel| m.line());
    let ghost absent = |n: Seq<char>| !views(existing@).contains(n);
    let mut out: Vec<String> = Vec::new();
    let mut i: usize = 0;
    assert(coreml_encoders().take(0) =~= Seq::<Seq<char>>::empty());
    proof {
        reveal(Seq::filter);
    }
    assert(views(out@) =~= coreml_encoders().take(0).filter(absent));
    while i < models.len()
        invariant
            i <= models@.len(),
            lines == models@.map_values(|m: WhisperModel| m.line()),
            lines == whisper_catalog(),
            absent == (|n: Seq<char>| !views(existing@).contains(n)),
            views(out@) == coreml_encoders().take(i as int).filter(absent),
        decreases models@.len() - i,
    {
        let ghost before = views(out@);
        proof {
            reveal(Seq::filter);
            assert(lines[i as int] == models@[i as int].line());
            assert(coreml_encoders()[i as int] == models@[i as int].encoder_dir@);
            assert(coreml_encoders().take(i + 1).drop_last() =~= coreml_encoders().take(i as int));
            assert(coreml_encoders().take(i + 1).last() == coreml_encoders()[i as int]);
        }
        if coreml_missing_for(existing, models[i].encoder_dir) {
            out.push(models[i].encoder_dir.to_owned());
            assert(views(out@) =~= before.push(models@[i as int].encoder_dir@));
        }
        i = i + 1;
    }
    assert(coreml_encoders().take(i as int) =~= coreml_encoders());
    out
}

/// Whether an encoder directory is missing.
pub fn coreml_missing_for(existing: &Vec<String>, dir_name: &str) -> (r: bool)
    ensures
        r == !views(existing@).contains(dir_name@),
{
    !list_contains(existing, dir_name)
}

/// The models directory that is configured: the one of the transcription section, unless it is
/// blank.
pub fn configured_models_dir(section: &str, legacy: &str) -> (r: String)
    ensures
        r@ == if trim(section@).len() == 0 { legacy@ } else { section@ },
{
    if trim_text(section).as_str().is_empty() {
        legacy.to_owned()
    } else {
        section.to_owned()
    }
}

/// What of the models is missing.
#[derive(Debug)]
pub struct ProvisioningStatusResponse {
    pub ready: bool,
    pub models_dir: String,
    pub missing_models: Vec<String>,
    pub missing_encoders: Vec<String>,
    pub pyannote: PyannoteRuntimeHealth,
}

/// Reports what of the models is missing.
pub fn provisioning_status(
    models_dir: &str,
    existing_files: &Vec<String>,
    existing_dirs: &Vec<String>,
    pyannote: PyannoteRuntimeHealth,
) -> (r: ProvisioningStatusResponse)
    ensures
        r.models_dir@ == models_dir@,
        views(r.missing_models@) == missing_from(required_models(), views(existing_files@)),
        views(r.missing_encoders@) == missing_from(coreml_encoders(), views(existing_dirs@)),
        r.ready <==> (r.missing_models@.len() == 0 && r.missing_encoders@.len() == 0),
        r.pyannote == pyannote,
{
    let missing_models: Vec<String> = collect_missing_models(existing_files);
    let missing_encoders: Vec<String> = collect_missing_encoders(existing_dirs);
    ProvisioningStatusResponse {
        ready: missing_models.len() == 0 && missing_encoders.len() == 0,
        models_dir: models_dir.to_owned(),
        missing_models,
        missing_encoders,
        pyannote,
    }
}

/// Provisioning is reported as ready exactly when every model file and every encoder is there.
pub proof fn ready_means_nothing_missing(names: Seq<Seq<char>>, existing: Seq<Seq<char>>)
    ensures
        missing_from(names, existing).len() == 0 <==> forall|i: int|
            0 <= i < names.len() ==> existing.contains(#[trigger] names[i]),
    decreases names.len(),
{
    reveal(Seq::filter);
    if names.len() > 0 {
        let front = names.drop_last();
        ready_means_nothing_missing(front, existing);
        let absent = |n: Seq<char>| !existing.contains(n);
        assert(missing_from(names, existing) == if absent(names.last()) {
            missing_from(front, existing).push(names.last())
        } else {
            missing_from(front, existing)
        });
        if missing_from(names, existing).len() == 0 {
            assert forall|i: int| 0 <= i < names.len() implies existing.contains(
                #[trigger] names[i],
            ) by {
                if i < front.len() {
                    assert(names[i] == front[i]);
                }
            }
        }
        if forall|i: int| 0 <= i < names.len() ==> existing.contains(#[trigger] names[i]) {
            assert forall|i: int| 0 <= i < front.len() implies existing.contains(
                #[trigger] front[i],
            ) by {
                assert(front[i] == names[i]);
            }
            assert(names.last() == names[names.len() - 1]);
        }
    }
}

/// No more names are missing than there are.
pub proof fn lemma_missing_bound(names: Seq<Seq<char>>, existing: Seq<Seq<char>>)
    ensures
        missing_from(names, existing).len() <= names.len(),
    decreases names.len(),
{
    reveal(Seq::filter);
    if names.len() > 0 {
        lemma_missing_bound(names.drop_last(), existing);
    }
}

// ---------------------------------------------------------------------------
// The catalog as it is shown
// ---------------------------------------------------------------------------

/// A model of the catalog and whether it is installed.
#[derive(Debug)]
pub struct ProvisioningModelCatalogEntry {
    pub key: String,
    pub label: String,
    pub model_file: String,
    pub installed: bool,
    pub coreml_installed: bool,
    pub engine: String,
    pub experimental: bool,
}

/// The content of a [`ProvisioningModelCatalogEntry`].
pub struct CatalogEntryView {
    pub key: Seq<char>,
    pub label: Seq<char>,
    pub model_file: Seq<char>,
    pub installed: bool,
    pub coreml_installed: bool,
    pub engine: Seq<char>,
    pub experimental: bool,
}

impl View for ProvisioningModelCatalogEntry {
    type V = CatalogEntryView;

    open spec fn view(&self) -> CatalogEntryView {
        CatalogEntryView {
            key: self.key@,
            label: self.label@,
            model_file: self.model_file@,
            installed: self.installed,
            coreml_installed: self.coreml_installed,
            engine: self.engine@,
            experimental: self.experimental,
        }
    }
}

/// The entry of a Whisper model.
pub open spec fn whisper_entry(
    line: WhisperLine,
    files: Seq<Seq<char>>,
    dirs: Seq<Seq<char>>,
) -> CatalogEntryView {
    CatalogEntryView {
        key: line.0,
        label: line.1,
        model_file: line.2,
        installed: files.contains(line.2),
        coreml_installed: dirs.contains(line.3),
        engine: "whisper_cpp"@,
        experimental: false,
    }
}

/// The entry of a Parakeet model.
pub open spec fn parakeet_entry(
    line: (Seq<char>, Seq<char>, Seq<char>),
    files: Seq<Seq<char>>,
) -> CatalogEntryView {
    CatalogEntryView {
        key: line.0,
        label: line.1,
        model_file: line.2,
        installed: files.contains(line.2),
        coreml_installed: false,
        engine: "parakeet_cpp"@,
        experimental: false,
    }
}

/// The contents of a list of entries.
pub open spec fn entry_views(v: Seq<ProvisioningModelCatalogEntry>) -> Seq<CatalogEntryView> {
    v.map_values(|e: ProvisioningModelCatalogEntry| e@)
}

/// The catalog: the Whisper models, then the Parakeet models.
pub open spec fn catalog_entries(
    files: Seq<Seq<char>>,
    dirs: Seq<Seq<char>>,
    parakeet_files: Seq<Seq<char>>,
) -> Seq<CatalogEntryView> {
    whisper_catalog().map_values(|l: WhisperLine| whisper_entry(l, files, dirs))
        + parakeet_catalog().map_values(
        |l: (Seq<char>, Seq<char>, Seq<char>)| parakeet_entry(l, parakeet_files),
    )
}

/// Lists the catalog with what is installed of it.
pub fn provisioning_models(
    files: &Vec<String>,
    dirs: &Vec<String>,
    parakeet_files: &Vec<String>,
) -> (r: Vec<ProvisioningModelCatalogEntry>)
    ensures
        entry_views(r@) == catalog_entries(views(files@), views(dirs@), views(parakeet_files@)),
{
    let whisper: Vec<WhisperModel> = whisper_models();
    let parakeet: Vec<ParakeetModelEntry> = parakeet_models();
    let ghost first = whisper_catalog().map_values(
        |l: WhisperLine| whisper_entry(l, views(files@), views(dirs@)),
    );
    let ghost second = parakeet_catalog().map_values(
        |l: (Seq<char>, Seq<char>, Seq<char>)| parakeet_entry(l, views(parakeet_files@)),
    );
    let mut out: Vec<ProvisioningModelCatalogEntry> = Vec::new();
    let mut i: usize = 0;
    while i < whisper.len()
        invariant
            i <= whisper@.len(),
            whisper@.map_values(|m: WhisperModel| m.line()) == whisper_catalog(),
            first == whisper_catalog().map_values(
                |l: WhisperLine| whisper_entry(l, views(files@), views(dirs@)),
            ),
            entry_views(out@) =~= first.take(i as int),
        decreases whisper@.len() - i,
    {
        let m: WhisperModel = whisper[i];
        proof {
            assert(whisper@.map_values(|m: WhisperModel| m.line())[i as int] == m.line());
        }
        let entry = ProvisioningModelCatalogEntry {
            key: m.key.to_owned(),
            label: m.label.to_owned(),
            model_file: m.file.to_owned(),
            installed: list_contains(files, m.file),
            coreml_installed: !coreml_missing_for(dirs, m.encoder_dir),
            engine: "whisper_cpp".to_owned(),
            experimental: false,
        };
        let ghost before = entry_views(out@);
        assert(entry@ == first[i as int]);
        out.push(entry);
        assert(entry_views(out@) =~= before.push(first[i as int]));
        assert(first.take(i + 1) =~= first.take(i as int).push(first[i as int]));
        i = i + 1;
    }
    assert(first.take(i as int) =~= first);
    let mut j: usize = 0;
    while j < parakeet.len()
        invariant
            j <= parakeet@.len(),
            parakeet@.map_values(|m: ParakeetModelEntry| m.line()) == parakeet_catalog(),
            second == parakeet_catalog().map_values(
                |l: (Seq<char>, Seq<char>, Seq<char>)| parakeet_entry(l, views(parakeet_files@)),
            ),
            entry_views(out@) =~= first + second.take(j as int),
        decreases parakeet@.len() - j,
    {
        let m: ParakeetModelEntry = parakeet[j];
        proof {
            assert(parakeet@.map_values(|m: ParakeetModelEntry| m.line())[j as int] == m.line());
        }
        let entry = ProvisioningModelCatalogEntry {
            key: m.key.to_owned(),
            label: m.label.to_owned(),
            model_file: m.file.to_owned(),
            installed: list_contains(parakeet_files, m.file),
            coreml_installed: false,
            engine: "parakeet_cpp".to_owned(),
            experimental: false,
        };
        let ghost before = entry_views(out@);
        assert(entry@ == second[j as int]);
        out.push(entry);
        assert(entry_views(out@) =~= before.push(second[j as int]));
        assert(second.take(j + 1) =~= second.take(j as int).push(second[j as int]));
        j = j + 1;
    }
    assert(second.take(j as int) =~= second);
    out
}

/// The names that are missing are those of the list that do not exist, and all of them.
pub proof fn every_missing_name_is_listed(
    names: Seq<Seq<char>>,
    existing: Seq<Seq<char>>,
    name: Seq<char>,
)
    ensures
        missing_from(names, existing).contains(name) <==> names.contains(name) && !existing.contains(
            name,
        ),
    decreases names.len(),
{
    reveal(Seq::filter);
    if names.len() > 0 {
        let front = names.drop_last();
        every_missing_name_is_listed(front, existing, name);
        let absent = |n: Seq<char>| !existing.contains(n);
        let before = missing_from(front, existing);
        let all = missing_from(names, existing);
        assert(all == if absent(names.last()) {
            before.push(names.last())
        } else {
            before
        });
        if names.contains(name) {
            let k = choose|k: int| 0 <= k < names.len() && names[k] == name;
            if k < front.len() {
                assert(front[k] == name);
                if before.contains(name) {
                    let j = choose|j: int| 0 <= j < before.len() && before[j] == name;
                    assert(all[j] == name);
                }
            } else if absent(name) {
                assert(all[before.len() as int] == name);
            }
        }
        if front.contains(name) {
            let k = choose|k: int| 0 <= k < front.len() && front[k] == name;
            assert(names[k] == name);
        }
        if all.contains(name) {
            let j = choose|j: int| 0 <= j < all.len() && all[j] == name;
            if j < before.len() {
                assert(before[j] == name);
            } else {
                assert(names[names.len() - 1] == name);
            }
        }
    }
}

proof fn lemma_small_lines()
    ensures
        "ggml-tiny-encoder.mlmodelc.zip"@ == "ggml-tiny-encoder.mlmodelc"@ + ".zip"@,
        "ggml-base-encoder.mlmodelc.zip"@ == "ggml-base-encoder.mlmodelc"@ + ".zip"@,
        "ggml-small-encoder.mlmodelc.zip"@ == "ggml-small-encoder.mlmodelc"@ + ".zip"@,
{
    reveal_strlit(".zip");
    reveal_strlit("ggml-tiny-encoder.mlmodelc.zip");
    reveal_strlit("ggml-tiny-encoder.mlmodelc");
    reveal_strlit("ggml-base-encoder.mlmodelc.zip");
    reveal_strlit("ggml-base-encoder.mlmodelc");
    reveal_strlit("ggml-small-encoder.mlmodelc.zip");
    reveal_strlit("ggml-small-encoder.mlmodelc");
}

proof fn lemma_large_lines()
    ensures
        "ggml-medium-encoder.mlmodelc.zip"@ == "ggml-medium-encoder.mlmodelc"@ + ".zip"@,
        "ggml-large-v3-turbo-encoder.mlmodelc.zip"@ == "ggml-large-v3-turbo-encoder.mlmodelc"@
            + ".zip"@,
{
    reveal_strlit(".zip");
    reveal_strlit("ggml-medium-encoder.mlmodelc.zip");
    reveal_strlit("ggml-medium-encoder.mlmodelc");
    reveal_strlit("ggml-large-v3-turbo-encoder.mlmodelc.zip");
    reveal_strlit("ggml-large-v3-turbo-encoder.mlmodelc");
}

/// The archive of an encoder is named as the directory that it holds.
pub proof fn archives_are_named_by_their_directories(i: int)
    requires
        0 <= i < whisper_catalog().len(),
    ensures
        whisper_catalog()[i].4 == whisper_catalog()[i].3 + ".zip"@,
        whisper_catalog().len() == 5,
{
    lemma_small_lines();
    lemma_large_lines();
}

/// The catalog shows every model of both engines, in order, under its engine, and as installed exactly
/// when its file is there; an encoder only for a Whisper model whose encoder is there.
pub proof fn the_catalog_shows_what_is_installed(
    files: Seq<Seq<char>>,
    dirs: Seq<Seq<char>>,
    parakeet_files: Seq<Seq<char>>,
    i: int,
)
    requires
        0 <= i < catalog_entries(files, dirs, parakeet_files).len(),
    ensures
        ({
            let all = catalog_entries(files, dirs, parakeet_files);
            let n = whisper_catalog().len();
            &&& all.len() == n + parakeet_catalog().len()
            &&& i < n ==> all[i].engine == "whisper_cpp"@ && all[i].key == whisper_catalog()[i].0
                && all[i].model_file == whisper_catalog()[i].2 && (all[i].installed
                <==> files.contains(all[i].model_file)) && (all[i].coreml_installed
                <==> dirs.contains(whisper_catalog()[i].3))
            &&& i >= n ==> all[i].engine == "parakeet_cpp"@ && all[i].key == parakeet_catalog()[i - n].0
                && all[i].model_file == parakeet_catalog()[i - n].2 && (all[i].installed
                <==> parakeet_files.contains(all[i].model_file)) && !all[i].coreml_installed
            &&& !all[i].experimental
        }),
{
}

/// Every model of the Whisper catalog is required, by its file, and its encoder by its directory.
pub proof fn every_whisper_model_is_required(i: int)
    requires
        0 <= i < whisper_catalog().len(),
    ensures
        required_models().len() == whisper_catalog().len(),
        required_models()[i] == whisper_catalog()[i].2,
        coreml_encoders().len() == whisper_catalog().len(),
        coreml_encoders()[i] == whisper_catalog()[i].3,
{
}

} // verus!
