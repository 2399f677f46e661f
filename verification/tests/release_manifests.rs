//! Release manifests and the assets that they announce.

use sbobino_commands::provisioning::assets::{
    ensure_pyannote_install_has_free_space, estimate_pyannote_required_free_bytes, format_bytes,
};
use sbobino_commands::provisioning::manifests::{
    validate_arch_descriptors, validate_manifest_asset_descriptor, validate_setup_manifest,
    PyannoteAssetSelection, PyannoteReleaseAsset, ReleaseAssetDescriptor, SetupReleaseManifest,
    PYANNOTE_INSTALL_HEADROOM_BYTES,
};

fn descriptor(name: &str, sha256: &str) -> ReleaseAssetDescriptor {
    ReleaseAssetDescriptor {
        name: name.to_string(),
        sha256: sha256.to_string(),
        size_bytes: None,
        expanded_size_bytes: None,
    }
}

fn manifest_file(stem: &str) -> String {
    format!("{}.{}", stem, "json")
}

fn sample_manifest() -> SetupReleaseManifest {
    SetupReleaseManifest {
        app_version: "0.1.16".to_string(),
        release_tag: "v0.1.16".to_string(),
        pyannote_compat_level: 1,
        runtime_manifest: descriptor(&manifest_file("runtime-manifest"), "deadbeef"),
        runtime_assets: vec![
            (
                "aarch64-apple-darwin".to_string(),
                descriptor("speech-runtime-macos-aarch64.zip", "deadbeef"),
            ),
            (
                "x86_64-apple-darwin".to_string(),
                descriptor("speech-runtime-macos-x86_64.zip", "deadbeef"),
            ),
            (
                "x86_64-pc-windows-msvc".to_string(),
                descriptor("speech-runtime-windows-x86_64.zip", "deadbeef"),
            ),
        ],
        pyannote_manifest: descriptor(&manifest_file("pyannote-manifest"), "deadbeef"),
        pyannote_runtime_assets: vec![
            (
                "aarch64-apple-darwin".to_string(),
                descriptor("pyannote-runtime-macos-aarch64.zip", "deadbeef"),
            ),
            (
                "x86_64-apple-darwin".to_string(),
                descriptor("pyannote-runtime-macos-x86_64.zip", "deadbeef"),
            ),
            (
                "x86_64-pc-windows-msvc".to_string(),
                descriptor("pyannote-runtime-windows-x86_64.zip", "deadbeef"),
            ),
        ],
        pyannote_model_asset: descriptor("pyannote-model-community-1.zip", "deadbeef"),
    }
}

#[test]
fn validate_setup_manifest_rejects_mismatched_release_tag() {
    let mut manifest = sample_manifest();
    manifest.release_tag = "v0.1.8".to_string();

    let error = validate_setup_manifest("0.1.16", &manifest)
        .expect_err("release tag mismatch should fail");
    assert!(error.contains("release tag"));
}

#[test]
fn validate_setup_manifest_accepts_a_complete_manifest() {
    assert!(validate_setup_manifest("0.1.16", &sample_manifest()).is_ok());
}

#[test]
fn validate_setup_manifest_names_the_first_wrong_descriptor() {
    let mut manifest = sample_manifest();
    manifest.runtime_manifest.name = "other".to_string();
    manifest.pyannote_model_asset.name = "other".to_string();
    let error = validate_setup_manifest("0.1.16", &manifest).expect_err("wrong name");
    assert!(error.contains("runtime manifest descriptor"));
}

#[test]
fn validate_manifest_asset_descriptor_rejects_checksum_mismatch() {
    let descriptor = descriptor("speech-runtime-macos-aarch64.zip", "deadbeef");
    let error = validate_manifest_asset_descriptor(
        &descriptor,
        "speech-runtime-macos-aarch64.zip",
        "cafebabe",
        "runtime asset",
    )
    .expect_err("checksum mismatch should fail");
    assert!(error.contains("checksum mismatch"));
}

#[test]
fn validate_arch_descriptors_requires_the_intel_runtime_entry() {
    let descriptors = vec![(
        "aarch64-apple-darwin".to_string(),
        descriptor("speech-runtime-macos-aarch64.zip", "deadbeef"),
    )];

    let error = validate_arch_descriptors(
        &descriptors,
        &[
            ("aarch64-apple-darwin", "speech-runtime-macos-aarch64.zip"),
            ("x86_64-apple-darwin", "speech-runtime-macos-x86_64.zip"),
            (
                "x86_64-pc-windows-msvc",
                "speech-runtime-windows-x86_64.zip",
            ),
        ],
        "runtime asset descriptor",
    )
    .expect_err("dual-arch releases must hold an Intel runtime descriptor");

    assert!(error.contains("x86_64-apple-darwin"));
}

fn sample_selection() -> PyannoteAssetSelection {
    PyannoteAssetSelection {
        runtime_asset: PyannoteReleaseAsset {
            kind: "pyannote_runtime_macos_aarch64".to_string(),
            name: "pyannote-runtime.zip".to_string(),
            sha256: "deadbeef".to_string(),
            size_bytes: Some(300),
            expanded_size_bytes: Some(1000),
        },
        model_asset: PyannoteReleaseAsset {
            kind: "pyannote_model".to_string(),
            name: "pyannote-model.zip".to_string(),
            sha256: "cafebabe".to_string(),
            size_bytes: Some(30),
            expanded_size_bytes: Some(120),
        },
        compat_level: 1,
        release_version: "0.1.16".to_string(),
    }
}

#[test]
fn estimate_pyannote_required_free_bytes_counts_archives_and_expanded_payloads() {
    assert_eq!(
        estimate_pyannote_required_free_bytes(&sample_selection()),
        300 + 1000 + 30 + 120 + PYANNOTE_INSTALL_HEADROOM_BYTES
    );
}

#[test]
fn bytes_are_shown_in_the_largest_unit_that_fits() {
    assert_eq!(format_bytes(0), "0 B");
    assert_eq!(format_bytes(1023), "1023 B");
    assert_eq!(format_bytes(1024), "1.0 KB");
    assert_eq!(format_bytes(1536), "1.5 KB");
    assert_eq!(format_bytes(1_048_576), "1.0 MB");
    assert_eq!(format_bytes(5 * 1_073_741_824), "5.0 GB");
    assert_eq!(format_bytes(3 * 1_099_511_627_776), "3.0 TB");
}

#[test]
fn bytes_are_rounded_as_decimal_formatting_rounds() {
    let mut bytes: u64 = 1;
    while bytes < (1 << 52) {
        for candidate in [bytes, bytes + 1, bytes + bytes / 3, bytes + bytes / 4, bytes + bytes / 8] {
            let mut value = candidate as f64;
            let mut unit = "B";
            for next_unit in ["KB", "MB", "GB", "TB"] {
                if value < 1024.0 {
                    break;
                }
                value /= 1024.0;
                unit = next_unit;
            }
            let expected = if unit == "B" {
                format!("{candidate} {unit}")
            } else {
                format!("{value:.1} {unit}")
            };
            assert_eq!(format_bytes(candidate), expected);
        }
        bytes *= 2;
    }
    for tenth in 0_u64..400 {
        let candidate = 1024 + tenth * 32;
        let expected = format!("{:.1} KB", candidate as f64 / 1024.0);
        assert_eq!(format_bytes(candidate), expected);
    }
}

#[test]
fn too_little_space_is_reported_with_both_sizes() {
    let selection = sample_selection();
    let error = ensure_pyannote_install_has_free_space("/runtime", &selection, &Ok(100))
        .expect_err("too little space");
    assert!(error.contains("only 100 B is available near '/runtime'"));
    assert!(ensure_pyannote_install_has_free_space("/runtime", &selection, &Ok(u64::MAX)).is_ok());
    let unknown = ensure_pyannote_install_has_free_space(
        "/runtime",
        &selection,
        &Err("statvfs failed".to_string()),
    );
    assert_eq!(unknown, Err("statvfs failed".to_string()));
}
