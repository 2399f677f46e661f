//! The manifests of a release, and the choice of the assets for this host.

use vstd::prelude::*;
use vstd::string::*;

use crate::provisioning::digest::{hex, normalize_sha256, sha256, sha256_bytes_hex, sha256_key};
use crate::provisioning::pyannote_plan::{normalize_pyannote_compat_level, PYANNOTE_COMPAT_LEVEL};
use crate::text::{ascii_lower, cat4, cat5, decimal, push_decimal, same_text, trim, trim_text};

verus! {

/// The name of the speech runtimes' manifest, without its suffix.
pub const RUNTIME_MANIFEST_STEM: &'static str = "runtime-manifest";

/// The suffix of a manifest's name.
pub const MANIFEST_SUFFIX: &'static str = ".json";

pub const RUNTIME_AARCH64_ASSET: &'static str = "speech-runtime-macos-aarch64.zip";

pub const RUNTIME_X86_64_ASSET: &'static str = "speech-runtime-macos-x86_64.zip";

pub const RUNTIME_WINDOWS_X86_64_ASSET: &'static str = "speech-runtime-windows-x86_64.zip";

/// The name of the diarization runtimes' manifest, without its suffix.
pub const PYANNOTE_MANIFEST_STEM: &'static str = "pyannote-manifest";

pub const PYANNOTE_RUNTIME_AARCH64_ASSET: &'static str = "pyannote-runtime-macos-aarch64.zip";

pub const PYANNOTE_RUNTIME_X86_64_ASSET: &'static str = "pyannote-runtime-macos-x86_64.zip";

pub const PYANNOTE_RUNTIME_WINDOWS_X86_64_ASSET: &'static str = "pyannote-runtime-windows-x86_64.zip";

pub const PYANNOTE_MODEL_ASSET: &'static str = "pyannote-model-community-1.zip";

/// The free space that an install of the diarization runtime leaves untouched.
pub const PYANNOTE_INSTALL_HEADROOM_BYTES: u64 = 134_217_728;

/// An asset as the setup manifest announces it.
#[derive(Debug)]
pub struct ReleaseAssetDescriptor {
    pub name: String,
    pub sha256: String,
    pub size_bytes: Option<u64>,
    pub expanded_size_bytes: Option<u64>,
}

/// An asset of the runtime manifest.
#[derive(Debug)]
pub struct RuntimeReleaseAsset {
    pub kind: String,
    pub name: String,
    pub sha256: String,
    pub size_bytes: Option<u64>,
    pub expanded_size_bytes: Option<u64>,
}

/// An asset of the diarization manifest.
#[derive(Debug)]
pub struct PyannoteReleaseAsset {
    pub kind: String,
    pub name: String,
    pub sha256: String,
    pub size_bytes: Option<u64>,
    pub expanded_size_bytes: Option<u64>,
}

/// The runtime manifest of a release.
#[derive(Debug)]
pub struct RuntimeReleaseManifest {
    pub app_version: String,
    pub assets: Vec<RuntimeReleaseAsset>,
}

/// The diarization manifest of a release.
#[derive(Debug)]
pub struct PyannoteReleaseManifest {
    pub app_version: String,
    pub compat_level: u32,
    pub assets: Vec<PyannoteReleaseAsset>,
}

/// The manifest that announces everything else of a release. The assets of the targets are pairs
/// of a target and a descriptor.
#[derive(Debug)]
pub struct SetupReleaseManifest {
    pub app_version: String,
    pub release_tag: String,
    pub pyannote_compat_level: u32,
    pub runtime_manifest: ReleaseAssetDescriptor,
    pub runtime_assets: Vec<(String, ReleaseAssetDescriptor)>,
    pub pyannote_manifest: ReleaseAssetDescriptor,
    pub pyannote_runtime_assets: Vec<(String, ReleaseAssetDescriptor)>,
    pub pyannote_model_asset: ReleaseAssetDescriptor,
}

/// The manifests of a release that belong together.
#[derive(Debug)]
pub struct SetupReleaseBundle {
    pub setup_manifest: SetupReleaseManifest,
    pub runtime_manifest: RuntimeReleaseManifest,
    pub pyannote_manifest: PyannoteReleaseManifest,
    pub release_version: String,
}

/// The diarization assets to install.
#[derive(Debug)]
pub struct PyannoteAssetSelection {
    pub runtime_asset: PyannoteReleaseAsset,
    pub model_asset: PyannoteReleaseAsset,
    pub compat_level: u32,
    pub release_version: String,
}

/// The runtime asset to install.
#[derive(Debug)]
pub struct RuntimeAssetSelection {
    pub runtime_asset: RuntimeReleaseAsset,
    pub release_version: String,
}

// ---------------------------------------------------------------------------
// The host
// ---------------------------------------------------------------------------

/// The host that assets are chosen for. Any other host takes the assets of the first.
#[derive(Clone, Copy, PartialEq, Eq, Structural, Debug)]
pub enum HostPlatform {
    MacAarch64,
    MacX86,
    WindowsX86,
    Other,
}

/// The kind of the diarization runtime for a host.
pub open spec fn pyannote_kind(host: HostPlatform) -> Seq<char> {
    match host {
        HostPlatform::MacAarch64 | HostPlatform::Other => "pyannote_runtime_macos_aarch64"@,
        HostPlatform::MacX86 => "pyannote_runtime_macos_x86_64"@,
        HostPlatform::WindowsX86 => "pyannote_runtime_windows_x86_64"@,
    }
}

/// Names the kind of the diarization runtime for a host.
pub fn host_pyannote_runtime_kind(host: HostPlatform) -> (r: &'static str)
    ensures
        r@ == pyannote_kind(host),
{
    match host {
        HostPlatform::MacAarch64 => "pyannote_runtime_macos_aarch64",
        HostPlatform::MacX86 => "pyannote_runtime_macos_x86_64",
        HostPlatform::WindowsX86 => "pyannote_runtime_windows_x86_64",
        HostPlatform::Other => "pyannote_runtime_macos_aarch64",
    }
}

/// The kind of the speech runtime for a host.
pub open spec fn runtime_kind(host: HostPlatform) -> Seq<char> {
    match host {
        HostPlatform::MacAarch64 | HostPlatform::Other => "speech_runtime_macos_aarch64"@,
        HostPlatform::MacX86 => "speech_runtime_macos_x86_64"@,
        HostPlatform::WindowsX86 => "speech_runtime_windows_x86_64"@,
    }
}

/// Names the kind of the speech runtime for a host.
pub fn host_runtime_asset_kind(host: HostPlatform) -> (r: &'static str)
    ensures
        r@ == runtime_kind(host),
{
    match host {
        HostPlatform::MacAarch64 => "speech_runtime_macos_aarch64",
        HostPlatform::MacX86 => "speech_runtime_macos_x86_64",
        HostPlatform::WindowsX86 => "speech_runtime_windows_x86_64",
        HostPlatform::Other => "speech_runtime_macos_aarch64",
    }
}

/// The target of a host.
pub open spec fn arch_label(host: HostPlatform) -> Seq<char> {
    match host {
        HostPlatform::MacAarch64 | HostPlatform::Other => "aarch64-apple-darwin"@,
        HostPlatform::MacX86 => "x86_64-apple-darwin"@,
        HostPlatform::WindowsX86 => "x86_64-pc-windows-msvc"@,
    }
}

/// Names the target of a host.
pub fn host_pyannote_arch_label(host: HostPlatform) -> (r: &'static str)
    ensures
        r@ == arch_label(host),
{
    match host {
        HostPlatform::MacAarch64 => "aarch64-apple-darwin",
        HostPlatform::MacX86 => "x86_64-apple-darwin",
        HostPlatform::WindowsX86 => "x86_64-pc-windows-msvc",
        HostPlatform::Other => "aarch64-apple-darwin",
    }
}

// ---------------------------------------------------------------------------
// Descriptors
// ---------------------------------------------------------------------------

/// What is wrong with a descriptor's name or digest, if anything.
pub open spec fn descriptor_problem(
    d: ReleaseAssetDescriptor,
    expected_name: Seq<char>,
    label: Seq<char>,
) -> Option<Seq<char>> {
    if trim(d.name@) != expected_name {
        Some(label + " name mismatch: expected '"@ + expected_name + "', got '"@ + d.name@ + "'."@)
    } else if sha256_key(d.sha256@).len() == 0 {
        Some(label + " '"@ + d.name@ + "' is missing a checksum."@)
    } else {
        None
    }
}

/// Checks that a descriptor has the expected name, and a digest.
pub fn validate_release_descriptor_name(
    descriptor: &ReleaseAssetDescriptor,
    expected_name: &str,
    label: &str,
) -> (r: Result<(), String>)
    ensures
        match descriptor_problem(*descriptor, expected_name@, label@) {
            None => r is Ok,
            Some(problem) => r is Err && r->Err_0@ == problem,
        },
{
    if !same_text(trim_text(descriptor.name.as_str()).as_str(), expected_name) {
        let mut message: String = cat5(
            label,
            " name mismatch: expected '",
            expected_name,
            "', got '",
            descriptor.name.as_str(),
        );
        message.append("'.");
        return Err(message);
    }
    if normalize_sha256(descriptor.sha256.as_str()).as_str().is_empty() {
        return Err(cat4(label, " '", descriptor.name.as_str(), "' is missing a checksum."));
    }
    Ok(())
}

/// What is wrong with an asset that a descriptor announces, if anything.
pub open spec fn asset_problem(
    d: ReleaseAssetDescriptor,
    actual_name: Seq<char>,
    actual_sha256: Seq<char>,
    label: Seq<char>,
) -> Option<Seq<char>> {
    if trim(d.name@) != trim(actual_name) {
        Some(label + " name mismatch: expected '"@ + d.name@ + "', got '"@ + actual_name + "'."@)
    } else if sha256_key(d.sha256@) != sha256_key(actual_sha256) {
        Some(
            label + " checksum mismatch for '"@ + actual_name + "': expected "@ + sha256_key(
                d.sha256@,
            ) + ", got "@ + sha256_key(actual_sha256) + "."@,
        )
    } else {
        None
    }
}

/// Checks that an asset has the name and the digest that a descriptor announces.
pub fn validate_manifest_asset_descriptor(
    descriptor: &ReleaseAssetDescriptor,
    actual_name: &str,
    actual_sha256: &str,
    label: &str,
) -> (r: Result<(), String>)
    ensures
        match asset_problem(*descriptor, actual_name@, actual_sha256@, label@) {
            None => r is Ok,
            Some(problem) => r is Err && r->Err_0@ == problem,
        },
{
    if !same_text(
        trim_text(descriptor.name.as_str()).as_str(),
        trim_text(actual_name).as_str(),
    ) {
        let mut message: String = cat5(
            label,
            " name mismatch: expected '",
            descriptor.name.as_str(),
            "', got '",
            actual_name,
        );
        message.append("'.");
        return Err(message);
    }
    let expected: String = normalize_sha256(descriptor.sha256.as_str());
    let actual: String = normalize_sha256(actual_sha256);
    if !same_text(expected.as_str(), actual.as_str()) {
        let mut message: String = cat5(
            label,
            " checksum mismatch for '",
            actual_name,
            "': expected ",
            expected.as_str(),
        );
        message.append(", got ");
        message.append(actual.as_str());
        message.append(".");
        return Err(message);
    }
    Ok(())
}

/// The descriptor of a target: the first one under its name.
pub open spec fn descriptor_of(
    entries: Seq<(String, ReleaseAssetDescriptor)>,
    target: Seq<char>,
) -> Option<ReleaseAssetDescriptor>
    decreases entries.len(),
{
    if entries.len() == 0 {
        None
    } else if entries[0].0@ == target {
        Some(entries[0].1)
    } else {
        descriptor_of(entries.skip(1), target)
    }
}

/// The message for a target without a descriptor.
pub open spec fn missing_descriptor(label: Seq<char>, target: Seq<char>) -> Seq<char> {
    "Setup manifest is missing "@ + label + " for target '"@ + target + "'."@
}

/// Finds the descriptor of a target.
pub fn setup_arch_descriptor<'a>(
    descriptors: &'a Vec<(String, ReleaseAssetDescriptor)>,
    target_triple: &str,
    label: &str,
) -> (r: Result<&'a ReleaseAssetDescriptor, String>)
    ensures
        match descriptor_of(descriptors@, target_triple@) {
            Some(d) => r is Ok && *r->Ok_0 == d,
            None => r is Err && r->Err_0@ == missing_descriptor(label@, target_triple@),
        },
{
    let mut i: usize = 0;
    assert(descriptors@.skip(0) =~= descriptors@);
    while i < descriptors.len()
        invariant
            i <= descriptors@.len(),
            descriptor_of(descriptors@.skip(i as int), target_triple@) == descriptor_of(
                descriptors@,
                target_triple@,
            ),
        decreases descriptors@.len() - i,
    {
        if same_text(descriptors[i].0.as_str(), target_triple) {
            return Ok(&descriptors[i].1);
        }
        assert(descriptors@.skip(i as int).skip(1) =~= descriptors@.skip(i + 1));
        i = i + 1;
    }
    Err(cat5("Setup manifest is missing ", label, " for target '", target_triple, "'."))
}

/// The first problem with the descriptors of a list of targets, if any: each target must have one,
/// with the expected name and a digest.
pub open spec fn arch_problem(
    entries: Seq<(String, ReleaseAssetDescriptor)>,
    expected: Seq<(Seq<char>, Seq<char>)>,
    label: Seq<char>,
) -> Option<Seq<char>>
    decreases expected.len(),
{
    if expected.len() == 0 {
        None
    } else {
        match descriptor_of(entries, expected[0].0) {
            None => Some(missing_descriptor(label, expected[0].0)),
            Some(d) => match descriptor_problem(d, expected[0].1, label) {
                Some(problem) => Some(problem),
                None => arch_problem(entries, expected.skip(1), label),
            },
        }
    }
}

/// The texts of a list of target and name pairs.
pub open spec fn pair_texts(v: Seq<(&str, &str)>) -> Seq<(Seq<char>, Seq<char>)> {
    v.map_values(|p: (&str, &str)| (p.0@, p.1@))
}

/// Checks the descriptors of a list of targets.
pub fn validate_arch_descriptors(
    descriptors: &Vec<(String, ReleaseAssetDescriptor)>,
    expected_assets: &[(&str, &str)],
    label: &str,
) -> (r: Result<(), String>)
    ensures
        match arch_problem(descriptors@, pair_texts(expected_assets@), label@) {
            None => r is Ok,
            Some(problem) => r is Err && r->Err_0@ == problem,
        },
{
    let ghost wanted = pair_texts(expected_assets@);
    let mut i: usize = 0;
    assert(wanted.skip(0) =~= wanted);
    while i < expected_assets.len()
        invariant
            i <= expected_assets@.len(),
            wanted == pair_texts(expected_assets@),
            arch_problem(descriptors@, wanted.skip(i as int), label@) == arch_problem(
                descriptors@,
                wanted,
                label@,
            ),
        decreases expected_assets@.len() - i,
    {
        let target: &str = expected_assets[i].0;
        let name: &str = expected_assets[i].1;
        assert(wanted.skip(i as int)[0] == (target@, name@));
        assert(wanted.skip(i as int).skip(1) =~= wanted.skip(i + 1));
        match setup_arch_descriptor(descriptors, target, label) {
            Err(problem) => {
                return Err(problem);
            },
            Ok(descriptor) => {
                if let Err(problem) = validate_release_descriptor_name(descriptor, name, label) {
                    return Err(problem);
                }
            },
        }
        i = i + 1;
    }
    Ok(())
}

// ---------------------------------------------------------------------------
// The setup manifest
// ---------------------------------------------------------------------------

/// The tag of a version's release.
pub fn release_tag(version: &str) -> (r: String)
    ensures
        r@ == "v"@ + version@,
{
    let mut tag: String = "v".to_owned();
    tag.append(version);
    tag
}

/// The compatibility level that a manifest means.
pub open spec fn compat_level(level: u32) -> u32 {
    if level == 0 {
        PYANNOTE_COMPAT_LEVEL
    } else {
        level
    }
}

/// The first of two problems.
pub open spec fn first_problem(a: Option<Seq<char>>, b: Option<Seq<char>>) -> Option<Seq<char>> {
    if a is Some {
        a
    } else {
        b
    }
}

/// What is wrong with the version, the tag or the level of a setup manifest, if anything.
pub open spec fn setup_header_problem(version: Seq<char>, m: SetupReleaseManifest) -> Option<
    Seq<char>,
> {
    if trim(m.app_version@) != version {
        Some(
            "Setup manifest version '"@ + trim(m.app_version@) + "' does not match app version '"@
                + version + "'."@,
        )
    } else if trim(m.release_tag@) != "v"@ + version {
        Some(
            "Setup manifest release tag '"@ + trim(m.release_tag@) + "' does not match expected '"@
                + ("v"@ + version) + "'."@,
        )
    } else if compat_level(m.pyannote_compat_level) != PYANNOTE_COMPAT_LEVEL {
        Some(
            "Setup manifest pyannote compatibility level '"@ + decimal(
                compat_level(m.pyannote_compat_level) as nat,
            ) + "' does not match expected '"@ + decimal(PYANNOTE_COMPAT_LEVEL as nat) + "'."@,
        )
    } else {
        None
    }
}

/// The full name of a manifest.
pub open spec fn manifest_name(stem: Seq<char>) -> Seq<char> {
    stem + MANIFEST_SUFFIX@
}

fn write_manifest_name(stem: &str) -> (r: String)
    ensures
        r@ == manifest_name(stem@),
{
    let mut name: String = stem.to_owned();
    name.append(MANIFEST_SUFFIX);
    name
}

/// The targets of a release with the names of their speech runtimes.
pub open spec fn runtime_targets() -> Seq<(Seq<char>, Seq<char>)> {
    seq![
        ("aarch64-apple-darwin"@, RUNTIME_AARCH64_ASSET@),
        ("x86_64-apple-darwin"@, RUNTIME_X86_64_ASSET@),
        ("x86_64-pc-windows-msvc"@, RUNTIME_WINDOWS_X86_64_ASSET@),
    ]
}

/// The targets of a release with the names of their diarization runtimes.
pub open spec fn pyannote_targets() -> Seq<(Seq<char>, Seq<char>)> {
    seq![
        ("aarch64-apple-darwin"@, PYANNOTE_RUNTIME_AARCH64_ASSET@),
        ("x86_64-apple-darwin"@, PYANNOTE_RUNTIME_X86_64_ASSET@),
        ("x86_64-pc-windows-msvc"@, PYANNOTE_RUNTIME_WINDOWS_X86_64_ASSET@),
    ]
}

/// The first problem with a setup manifest, if any.
pub open spec fn setup_problem(version: Seq<char>, m: SetupReleaseManifest) -> Option<Seq<char>> {
    first_problem(
        setup_header_problem(version, m),
        first_problem(
            descriptor_problem(
                m.runtime_manifest,
                manifest_name(RUNTIME_MANIFEST_STEM@),
                "runtime manifest descriptor"@,
            ),
            first_problem(
                arch_problem(m.runtime_assets@, runtime_targets(), "runtime asset descriptor"@),
                first_problem(
                    descriptor_problem(
                        m.pyannote_manifest,
                        manifest_name(PYANNOTE_MANIFEST_STEM@),
                        "pyannote manifest descriptor"@,
                    ),
                    first_problem(
                        arch_problem(
                            m.pyannote_runtime_assets@,
                            pyannote_targets(),
                            "pyannote runtime asset descriptor"@,
                        ),
                        descriptor_problem(
                            m.pyannote_model_asset,
                            PYANNOTE_MODEL_ASSET@,
                            "pyannote model asset descriptor"@,
                        ),
                    ),
                ),
            ),
        ),
    )
}

fn setup_header_error(version: &str, manifest: &SetupReleaseManifest) -> (r: Option<String>)
    ensures
        match setup_header_problem(version@, *manifest) {
            None => r is None,
            Some(problem) => r is Some && r->0@ == problem,
        },
{
    let app_version: String = trim_text(manifest.app_version.as_str());
    if !same_text(app_version.as_str(), version) {
        return Some(
            cat5(
                "Setup manifest version '",
                app_version.as_str(),
                "' does not match app version '",
                version,
                "'.",
            ),
        );
    }
    let expected_tag: String = release_tag(version);
    let tag: String = trim_text(manifest.release_tag.as_str());
    if !same_text(tag.as_str(), expected_tag.as_str()) {
        return Some(
            cat5(
                "Setup manifest release tag '",
                tag.as_str(),
                "' does not match expected '",
                expected_tag.as_str(),
                "'.",
            ),
        );
    }
    let level: u32 = normalize_pyannote_compat_level(manifest.pyannote_compat_level);
    if level != PYANNOTE_COMPAT_LEVEL {
        let mut message: String = "Setup manifest pyannote compatibility level '".to_owned();
        push_decimal(&mut message, level as u64);
        message.append("' does not match expected '");
        push_decimal(&mut message, PYANNOTE_COMPAT_LEVEL as u64);
        message.append("'.");
        return Some(message);
    }
    None
}

/// Checks a setup manifest against the version that asks for it: the version, the tag and the
/// compatibility level, and then every descriptor.
pub fn validate_setup_manifest(version: &str, manifest: &SetupReleaseManifest) -> (r: Result<
    (),
    String,
>)
    ensures
        match setup_problem(version@, *manifest) {
            None => r is Ok,
            Some(problem) => r is Err && r->Err_0@ == problem,
        },
{
    if let Some(problem) = setup_header_error(version, manifest) {
        return Err(problem);
    }
    if let Err(problem) = validate_release_descriptor_name(
        &manifest.runtime_manifest,
        write_manifest_name(RUNTIME_MANIFEST_STEM).as_str(),
        "runtime manifest descriptor",
    ) {
        return Err(problem);
    }
    let runtime: [(&str, &str); 3] = [
        ("aarch64-apple-darwin", RUNTIME_AARCH64_ASSET),
        ("x86_64-apple-darwin", RUNTIME_X86_64_ASSET),
        ("x86_64-pc-windows-msvc", RUNTIME_WINDOWS_X86_64_ASSET),
    ];
    assert(pair_texts(runtime@) =~= runtime_targets());
    if let Err(problem) = validate_arch_descriptors(
        &manifest.runtime_assets,
        &runtime,
        "runtime asset descriptor",
    ) {
        return Err(problem);
    }
    if let Err(problem) = validate_release_descriptor_name(
        &manifest.pyannote_manifest,
        write_manifest_name(PYANNOTE_MANIFEST_STEM).as_str(),
        "pyannote manifest descriptor",
    ) {
        return Err(problem);
    }
    let pyannote: [(&str, &str); 3] = [
        ("aarch64-apple-darwin", PYANNOTE_RUNTIME_AARCH64_ASSET),
        ("x86_64-apple-darwin", PYANNOTE_RUNTIME_X86_64_ASSET),
        ("x86_64-pc-windows-msvc", PYANNOTE_RUNTIME_WINDOWS_X86_64_ASSET),
    ];
    assert(pair_texts(pyannote@) =~= pyannote_targets());
    if let Err(problem) = validate_arch_descriptors(
        &manifest.pyannote_runtime_assets,
        &pyannote,
        "pyannote runtime asset descriptor",
    ) {
        return Err(problem);
    }
    validate_release_descriptor_name(
        &manifest.pyannote_model_asset,
        PYANNOTE_MODEL_ASSET,
        "pyannote model asset descriptor",
    )
}

/// What is wrong with the bytes of a manifest that a descriptor announces, if anything.
pub open spec fn manifest_body_problem(
    d: ReleaseAssetDescriptor,
    label: Seq<char>,
    body: Seq<u8>,
) -> Option<Seq<char>> {
    if hex(sha256(body)) != sha256_key(d.sha256@) {
        Some(
            "Checksum mismatch for "@ + label + " '"@ + d.name@ + "': expected "@ + sha256_key(
                d.sha256@,
            ) + ", got "@ + hex(sha256(body)) + "."@,
        )
    } else {
        None
    }
}

/// Checks the bytes of a manifest against the digest that its descriptor announces.
pub fn read_release_manifest_from_descriptor(
    descriptor: &ReleaseAssetDescriptor,
    label: &str,
    body: &[u8],
) -> (r: Result<(), String>)
    ensures
        match manifest_body_problem(*descriptor, label@, body@) {
            None => r is Ok,
            Some(problem) => r is Err && r->Err_0@ == problem,
        },
{
    let actual: String = sha256_bytes_hex(body);
    let expected: String = normalize_sha256(descriptor.sha256.as_str());
    if !same_text(actual.as_str(), expected.as_str()) {
        let mut message: String = cat5(
            "Checksum mismatch for ",
            label,
            " '",
            descriptor.name.as_str(),
            "': expected ",
        );
        message.append(expected.as_str());
        message.append(", got ");
        message.append(actual.as_str());
        message.append(".");
        return Err(message);
    }
    Ok(())
}

/// What is wrong with three manifests as a bundle, if anything: each must belong to the version,
/// and the compatibility levels must agree with each other and with this version's.
pub open spec fn bundle_problem(
    version: Seq<char>,
    setup: SetupReleaseManifest,
    runtime: RuntimeReleaseManifest,
    pyannote: PyannoteReleaseManifest,
) -> Option<Seq<char>> {
    let setup_level = compat_level(setup.pyannote_compat_level);
    let level = compat_level(pyannote.compat_level);
    if trim(runtime.app_version@) != version {
        Some(
            "Runtime manifest version '"@ + trim(runtime.app_version@)
                + "' does not match app version '"@ + version + "'."@,
        )
    } else if trim(pyannote.app_version@) != version {
        Some(
            "Pyannote manifest version '"@ + trim(pyannote.app_version@)
                + "' does not match app version '"@ + version + "'."@,
        )
    } else if setup_level != level {
        Some(
            "Pyannote compatibility level mismatch between setup manifest ("@ + decimal(
                setup_level as nat,
            ) + ") and pyannote manifest ("@ + decimal(level as nat) + ")."@,
        )
    } else if setup_level != PYANNOTE_COMPAT_LEVEL {
        Some(
            "Pyannote compatibility level '"@ + decimal(setup_level as nat)
                + "' does not match app compatibility level '"@ + decimal(
                PYANNOTE_COMPAT_LEVEL as nat,
            ) + "'."@,
        )
    } else {
        None
    }
}

/// Puts the manifests of a release together.
pub fn fetch_setup_release_bundle(
    version: &str,
    setup_manifest: SetupReleaseManifest,
    runtime_manifest: RuntimeReleaseManifest,
    pyannote_manifest: PyannoteReleaseManifest,
) -> (r: Result<SetupReleaseBundle, String>)
    ensures
        match bundle_problem(version@, setup_manifest, runtime_manifest, pyannote_manifest) {
            None => {
                &&& r is Ok
                &&& r->Ok_0.setup_manifest == setup_manifest
                &&& r->Ok_0.runtime_manifest == runtime_manifest
                &&& r->Ok_0.pyannote_manifest == pyannote_manifest
                &&& r->Ok_0.release_version@ == version@
            },
            Some(problem) => r is Err && r->Err_0@ == problem,
        },
{
    let runtime_version: String = trim_text(runtime_manifest.app_version.as_str());
    if !same_text(runtime_version.as_str(), version) {
        return Err(
            cat5(
                "Runtime manifest version '",
                runtime_version.as_str(),
                "' does not match app version '",
                version,
                "'.",
            ),
        );
    }
    let pyannote_version: String = trim_text(pyannote_manifest.app_version.as_str());
    if !same_text(pyannote_version.as_str(), version) {
        return Err(
            cat5(
                "Pyannote manifest version '",
                pyannote_version.as_str(),
                "' does not match app version '",
                version,
                "'.",
            ),
        );
    }
    let setup_level: u32 = normalize_pyannote_compat_level(setup_manifest.pyannote_compat_level);
    let level: u32 = normalize_pyannote_compat_level(pyannote_manifest.compat_level);
    if setup_level != level {
        let mut message: String =
            "Pyannote compatibility level mismatch between setup manifest (".to_owned();
        push_decimal(&mut message, setup_level as u64);
        message.append(") and pyannote manifest (");
        push_decimal(&mut message, level as u64);
        message.append(").");
        return Err(message);
    }
    if setup_level != PYANNOTE_COMPAT_LEVEL {
        let mut message: String = "Pyannote compatibility level '".to_owned();
        push_decimal(&mut message, setup_level as u64);
        message.append("' does not match app compatibility level '");
        push_decimal(&mut message, PYANNOTE_COMPAT_LEVEL as u64);
        message.append("'.");
        return Err(message);
    }
    Ok(
        SetupReleaseBundle {
            setup_manifest,
            runtime_manifest,
            pyannote_manifest,
            release_version: version.to_owned(),
        },
    )
}

/// A descriptor is accepted exactly when it has the name that is expected, and a digest.
pub proof fn a_descriptor_needs_its_name_and_a_digest(
    d: ReleaseAssetDescriptor,
    expected_name: Seq<char>,
    label: Seq<char>,
)
    ensures
        descriptor_problem(d, expected_name, label) is None <==> trim(d.name@) == expected_name && trim(
            d.sha256@,
        ).len() > 0,
{
    assert(sha256_key(d.sha256@).len() == trim(d.sha256@).len());
}

/// An asset is accepted exactly when it has the name and the digest that are announced, the case of the
/// digest and the white space around both aside.
pub proof fn an_asset_must_be_as_announced(
    d: ReleaseAssetDescriptor,
    name: Seq<char>,
    sha256: Seq<char>,
    label: Seq<char>,
)
    ensures
        asset_problem(d, name, sha256, label) is None <==> trim(d.name@) == trim(name) && ascii_lower(
            trim(d.sha256@),
        ) == ascii_lower(trim(sha256)),
{
}

/// A target's descriptor is found by its name: the first that has it, and none only where none has it.
pub proof fn a_descriptor_is_found_by_its_target(
    entries: Seq<(String, ReleaseAssetDescriptor)>,
    target: Seq<char>,
) -> (at: int)
    ensures
        match descriptor_of(entries, target) {
            Some(d) => 0 <= at < entries.len() && entries[at].1 == d && entries[at].0@ == target && forall|
                k: int,
            |
                0 <= k < at ==> (#[trigger] entries[k]).0@ != target,
            None => forall|k: int| 0 <= k < entries.len() ==> (#[trigger] entries[k]).0@ != target,
        },
    decreases entries.len(),
{
    if entries.len() == 0 || entries[0].0@ == target {
        0
    } else {
        let rest = entries.skip(1);
        let at = a_descriptor_is_found_by_its_target(rest, target) + 1;
        if descriptor_of(entries, target) is Some {
            assert(entries[at] == rest[at - 1]);
            assert forall|k: int| 0 <= k < at implies (#[trigger] entries[k]).0@ != target by {
                if k > 0 {
                    assert(rest[k - 1] == entries[k]);
                }
            }
        } else {
            assert forall|k: int| 0 <= k < entries.len() implies (#[trigger] entries[k]).0@ != target by {
                if k > 0 {
                    assert(rest[k - 1] == entries[k]);
                }
            }
        }
        at
    }
}

/// The descriptors of targets are accepted exactly when every target has one, under its name and with a
/// digest.
pub proof fn every_target_needs_its_descriptor(
    entries: Seq<(String, ReleaseAssetDescriptor)>,
    expected: Seq<(Seq<char>, Seq<char>)>,
    label: Seq<char>,
)
    ensures
        arch_problem(entries, expected, label) is None <==> forall|i: int|
            0 <= i < expected.len() ==> {
                let d = descriptor_of(entries, (#[trigger] expected[i]).0);
                d is Some && descriptor_problem(d->0, expected[i].1, label) is None
            },
    decreases expected.len(),
{
    if expected.len() > 0 {
        let rest = expected.skip(1);
        every_target_needs_its_descriptor(entries, rest, label);
        if arch_problem(entries, expected, label) is None {
            assert forall|i: int| 0 <= i < expected.len() implies ({
                let d = descriptor_of(entries, (#[trigger] expected[i]).0);
                d is Some && descriptor_problem(d->0, expected[i].1, label) is None
            }) by {
                if i > 0 {
                    assert(rest[i - 1] == expected[i]);
                }
            }
        }
        if forall|i: int|
            0 <= i < expected.len() ==> {
                let d = descriptor_of(entries, (#[trigger] expected[i]).0);
                d is Some && descriptor_problem(d->0, expected[i].1, label) is None
            } {
            assert(descriptor_of(entries, expected[0].0) is Some);
            assert forall|i: int| 0 <= i < rest.len() implies ({
                let d = descriptor_of(entries, (#[trigger] rest[i]).0);
                d is Some && descriptor_problem(d->0, rest[i].1, label) is None
            }) by {
                assert(rest[i] == expected[i + 1]);
            }
        }
    }
}

/// A setup manifest is accepted only for the version that asks, under the tag of that version, and with
/// everything that it must announce: both manifests, the model and the assets of every target.
pub proof fn a_setup_manifest_must_be_complete(version: Seq<char>, m: SetupReleaseManifest)
    ensures
        setup_problem(version, m) is None <==> {
            &&& trim(m.app_version@) == version
            &&& trim(m.release_tag@) == "v"@ + version
            &&& m.pyannote_compat_level == 0 || m.pyannote_compat_level == PYANNOTE_COMPAT_LEVEL
            &&& descriptor_problem(
                m.runtime_manifest,
                manifest_name(RUNTIME_MANIFEST_STEM@),
                "runtime manifest descriptor"@,
            ) is None
            &&& descriptor_problem(
                m.pyannote_manifest,
                manifest_name(PYANNOTE_MANIFEST_STEM@),
                "pyannote manifest descriptor"@,
            ) is None
            &&& descriptor_problem(
                m.pyannote_model_asset,
                PYANNOTE_MODEL_ASSET@,
                "pyannote model asset descriptor"@,
            ) is None
            &&& arch_problem(m.runtime_assets@, runtime_targets(), "runtime asset descriptor"@) is None
            &&& arch_problem(
                m.pyannote_runtime_assets@,
                pyannote_targets(),
                "pyannote runtime asset descriptor"@,
            ) is None
        },
        runtime_targets().len() == 3,
        pyannote_targets().len() == 3,
        forall|i: int| 0 <= i < 3 ==> (#[trigger] runtime_targets()[i]).0 == pyannote_targets()[i].0,
{
}

/// The manifests of a bundle are those of one version and of one level of compatibility.
pub proof fn a_bundle_is_of_one_version(
    version: Seq<char>,
    setup: SetupReleaseManifest,
    runtime: RuntimeReleaseManifest,
    pyannote: PyannoteReleaseManifest,
)
    ensures
        bundle_problem(version, setup, runtime, pyannote) is None <==> {
            &&& trim(runtime.app_version@) == version
            &&& trim(pyannote.app_version@) == version
            &&& setup.pyannote_compat_level == 0 || setup.pyannote_compat_level == PYANNOTE_COMPAT_LEVEL
            &&& pyannote.compat_level == 0 || pyannote.compat_level == PYANNOTE_COMPAT_LEVEL
        },
{
}

/// A manifest is read only when its bytes have the digest that was announced for it.
pub proof fn a_manifest_has_the_announced_digest(
    d: ReleaseAssetDescriptor,
    label: Seq<char>,
    body: Seq<u8>,
)
    ensures
        manifest_body_problem(d, label, body) is None <==> hex(sha256(body)) == ascii_lower(
            trim(d.sha256@),
        ),
{
}

} // verus!
