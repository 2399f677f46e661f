//! The choice of a release's assets for a host, and the space that they need.

use vstd::prelude::*;
use vstd::string::*;

use crate::provisioning::digest::sha256_key;
use crate::provisioning::manifests::{
    asset_problem, arch_label, compat_level, descriptor_of, first_problem, host_pyannote_arch_label,
    host_pyannote_runtime_kind, host_runtime_asset_kind, missing_descriptor, pyannote_kind,
    runtime_kind, setup_arch_descriptor, validate_manifest_asset_descriptor, HostPlatform,
    PyannoteAssetSelection, PyannoteReleaseAsset, ReleaseAssetDescriptor, RuntimeAssetSelection,
    RuntimeReleaseAsset, SetupReleaseBundle, PYANNOTE_INSTALL_HEADROOM_BYTES,
};
use crate::provisioning::pyannote_plan::normalize_pyannote_compat_level;
use crate::rounding::{as_double, double_step, find_double_step, find_nearest, nearest};
use crate::text::{
    ascii_lower, cat3, cat5, contains, decimal, digit, digit_char, ends_with, lemma_contains_middle,
    lemma_found, push_char, push_decimal, same_text, starts_with, trim,
};

verus! {

// ---------------------------------------------------------------------------
// Sizes
// ---------------------------------------------------------------------------

/// An asset that may announce its sizes.
pub trait ReleaseAssetSizeExt {
    /// The announced size of the archive.
    spec fn announced_size(&self) -> Option<u64>;

    /// The announced size of what the archive holds.
    spec fn announced_expanded_size(&self) -> Option<u64>;

    /// Reads the announced size of the archive.
    fn size_bytes(&self) -> (r: Option<u64>)
        ensures
            r == self.announced_size(),
    ;

    /// Reads the announced size of what the archive holds.
    fn expanded_size_bytes(&self) -> (r: Option<u64>)
        ensures
            r == self.announced_expanded_size(),
    ;
}

impl ReleaseAssetSizeExt for ReleaseAssetDescriptor {
    open spec fn announced_size(&self) -> Option<u64> {
        self.size_bytes
    }

    open spec fn announced_expanded_size(&self) -> Option<u64> {
        self.expanded_size_bytes
    }

    fn size_bytes(&self) -> (r: Option<u64>) {
        self.size_bytes
    }

    fn expanded_size_bytes(&self) -> (r: Option<u64>) {
        self.expanded_size_bytes
    }
}

impl ReleaseAssetSizeExt for RuntimeReleaseAsset {
    open spec fn announced_size(&self) -> Option<u64> {
        self.size_bytes
    }

    open spec fn announced_expanded_size(&self) -> Option<u64> {
        self.expanded_size_bytes
    }

    fn size_bytes(&self) -> (r: Option<u64>) {
        self.size_bytes
    }

    fn expanded_size_bytes(&self) -> (r: Option<u64>) {
        self.expanded_size_bytes
    }
}

impl ReleaseAssetSizeExt for PyannoteReleaseAsset {
    open spec fn announced_size(&self) -> Option<u64> {
        self.size_bytes
    }

    open spec fn announced_expanded_size(&self) -> Option<u64> {
        self.expanded_size_bytes
    }

    fn size_bytes(&self) -> (r: Option<u64>) {
        self.size_bytes
    }

    fn expanded_size_bytes(&self) -> (r: Option<u64>) {
        self.expanded_size_bytes
    }
}

/// A size that may be unknown, taken as nothing then.
pub open spec fn or_zero(size: Option<u64>) -> u64 {
    match size {
        Some(n) => n,
        None => 0,
    }
}

/// The announced size of an archive, zero when there is none.
pub fn descriptor_bytes_or_zero<T: ReleaseAssetSizeExt>(descriptor: &T) -> (r: u64)
    ensures
        r == or_zero(descriptor.announced_size()),
{
    match descriptor.size_bytes() {
        Some(n) => n,
        None => 0,
    }
}

/// The announced size of what an archive holds, zero when there is none.
pub fn descriptor_expanded_bytes_or_zero<T: ReleaseAssetSizeExt>(descriptor: &T) -> (r: u64)
    ensures
        r == or_zero(descriptor.announced_expanded_size()),
{
    match descriptor.expanded_size_bytes() {
        Some(n) => n,
        None => 0,
    }
}

/// The space that an install needs: both archives, what they hold, and the headroom.
pub open spec fn required_free_bytes(s: PyannoteAssetSelection) -> nat {
    (or_zero(s.runtime_asset.size_bytes) + or_zero(s.model_asset.size_bytes) + or_zero(
        s.runtime_asset.expanded_size_bytes,
    ) + or_zero(s.model_asset.expanded_size_bytes) + PYANNOTE_INSTALL_HEADROOM_BYTES) as nat
}

/// Computes the space that an install needs.
pub fn estimate_pyannote_required_free_bytes(selection: &PyannoteAssetSelection) -> (r: u64)
    requires
        required_free_bytes(*selection) <= u64::MAX,
    ensures
        r == required_free_bytes(*selection),
{
    descriptor_bytes_or_zero(&selection.runtime_asset) + descriptor_bytes_or_zero(
        &selection.model_asset,
    ) + descriptor_expanded_bytes_or_zero(&selection.runtime_asset)
        + descriptor_expanded_bytes_or_zero(&selection.model_asset)
        + PYANNOTE_INSTALL_HEADROOM_BYTES
}

// ---------------------------------------------------------------------------
// Sizes for people
// ---------------------------------------------------------------------------

/// The unit in which a size is written, and the bytes it stands for: the largest one that the
/// size reaches.
pub open spec fn unit_of(bytes: u64) -> (Seq<char>, nat) {
    if bytes < 1024 {
        ("B"@, 1)
    } else if bytes < 1_048_576 {
        ("KB"@, 1024)
    } else if bytes < 1_073_741_824 {
        ("MB"@, 1_048_576)
    } else if bytes < 1_099_511_627_776 {
        ("GB"@, 1_073_741_824)
    } else {
        ("TB"@, 1_099_511_627_776)
    }
}

/// A size in tenths of a unit.
pub open spec fn tenths(bytes: nat, unit: nat) -> nat {
    nearest(as_double(bytes) * 10, unit)
}

/// A size as it is shown: whole bytes, or a larger unit with one decimal.
pub open spec fn bytes_text(bytes: u64) -> Seq<char> {
    let (name, unit) = unit_of(bytes);
    if bytes < 1024 {
        decimal(bytes as nat) + " "@ + name
    } else {
        let t = tenths(bytes as nat, unit);
        (decimal(t / 10) + "."@).push(digit((t % 10) as int)) + " "@ + name
    }
}

/// Writes a size as it is shown.
pub fn format_bytes(bytes: u64) -> (r: String)
    ensures
        r@ == bytes_text(bytes),
{
    let mut out: String = String::new();
    if bytes < 1024 {
        push_decimal(&mut out, bytes);
        assert(out@ =~= decimal(bytes as nat));
        out.append(" ");
        out.append("B");
        return out;
    }
    let name: &str = if bytes < 1_048_576 {
        "KB"
    } else if bytes < 1_073_741_824 {
        "MB"
    } else if bytes < 1_099_511_627_776 {
        "GB"
    } else {
        "TB"
    };
    let unit: u128 = if bytes < 1_048_576 {
        1024
    } else if bytes < 1_073_741_824 {
        1_048_576
    } else if bytes < 1_099_511_627_776 {
        1_073_741_824
    } else {
        1_099_511_627_776
    };
    let step: u128 = find_double_step(bytes) as u128;
    let steps: u128 = find_nearest(bytes as u128, step);
    let rounded: u128 = steps * step;
    let t: u128 = find_nearest(rounded * 10, unit);
    assert(t * 1024 <= t * unit) by (nonlinear_arith)
        requires
            unit >= 1024,
            t >= 0,
    ;
    let n: u64 = t as u64;
    push_decimal(&mut out, n / 10);
    assert(out@ =~= decimal((n / 10) as nat));
    out.append(".");
    push_char(&mut out, digit_char((n % 10) as u8));
    out.append(" ");
    out.append(name);
    out
}

/// What is wrong with the free space, if anything. Assets that announce no size are not held
/// against it, and neither is a failure to find out about it then.
pub open spec fn space_problem(
    dir: Seq<char>,
    s: PyannoteAssetSelection,
    available: Result<u64, String>,
) -> Option<Seq<char>> {
    let required = required_free_bytes(s);
    if required == PYANNOTE_INSTALL_HEADROOM_BYTES {
        None
    } else {
        match available {
            Err(error) => Some(error@),
            Ok(free) => if free >= required {
                None
            } else {
                Some(
                    "Pyannote install needs about "@ + bytes_text(required as u64)
                        + " of free disk space but only "@ + bytes_text(free)
                        + " is available near '"@ + dir
                        + "'. Install it later from Settings > Local Models after freeing some space."@,
                )
            },
        }
    }
}

/// Checks the free space near a directory for an install.
pub fn ensure_pyannote_install_has_free_space(
    runtime_dir: &str,
    selection: &PyannoteAssetSelection,
    available: &Result<u64, String>,
) -> (r: Result<(), String>)
    requires
        required_free_bytes(*selection) <= u64::MAX,
    ensures
        match space_problem(runtime_dir@, *selection, *available) {
            None => r is Ok,
            Some(problem) => r is Err && r->Err_0@ == problem,
        },
{
    let required: u64 = estimate_pyannote_required_free_bytes(selection);
    if required == PYANNOTE_INSTALL_HEADROOM_BYTES {
        return Ok(());
    }
    match available {
        Err(error) => Err(error.clone()),
        Ok(free) => {
            if *free >= required {
                return Ok(());
            }
            let mut message: String = cat5(
                "Pyannote install needs about ",
                format_bytes(required).as_str(),
                " of free disk space but only ",
                format_bytes(*free).as_str(),
                " is available near '",
            );
            message.append(runtime_dir);
            message.append(
                "'. Install it later from Settings > Local Models after freeing some space.",
            );
            Err(message)
        },
    }
}

// ---------------------------------------------------------------------------
// Selection
// ---------------------------------------------------------------------------

/// The first diarization asset of a kind.
pub open spec fn pyannote_asset_of(assets: Seq<PyannoteReleaseAsset>, kind: Seq<char>) -> Option<
    PyannoteReleaseAsset,
>
    decreases assets.len(),
{
    if assets.len() == 0 {
        None
    } else if assets[0].kind@ == kind {
        Some(assets[0])
    } else {
        pyannote_asset_of(assets.skip(1), kind)
    }
}

/// The first runtime asset of a kind.
pub open spec fn runtime_asset_of(assets: Seq<RuntimeReleaseAsset>, kind: Seq<char>) -> Option<
    RuntimeReleaseAsset,
>
    decreases assets.len(),
{
    if assets.len() == 0 {
        None
    } else if assets[0].kind@ == kind {
        Some(assets[0])
    } else {
        runtime_asset_of(assets.skip(1), kind)
    }
}

fn find_pyannote_asset(assets: &Vec<PyannoteReleaseAsset>, kind: &str) -> (r: Option<
    PyannoteReleaseAsset,
>)
    ensures
        r == pyannote_asset_of(assets@, kind@),
{
    let mut i: usize = 0;
    assert(assets@.skip(0) =~= assets@);
    while i < assets.len()
        invariant
            i <= assets@.len(),
            pyannote_asset_of(assets@.skip(i as int), kind@) == pyannote_asset_of(assets@, kind@),
        decreases assets@.len() - i,
    {
        if same_text(assets[i].kind.as_str(), kind) {
            return Some(
                PyannoteReleaseAsset {
                    kind: assets[i].kind.clone(),
                    name: assets[i].name.clone(),
                    sha256: assets[i].sha256.clone(),
                    size_bytes: assets[i].size_bytes,
                    expanded_size_bytes: assets[i].expanded_size_bytes,
                },
            );
        }
        assert(assets@.skip(i as int).skip(1) =~= assets@.skip(i + 1));
        i = i + 1;
    }
    None
}

fn find_runtime_asset(assets: &Vec<RuntimeReleaseAsset>, kind: &str) -> (r: Option<
    RuntimeReleaseAsset,
>)
    ensures
        r == runtime_asset_of(assets@, kind@),
{
    let mut i: usize = 0;
    assert(assets@.skip(0) =~= assets@);
    while i < assets.len()
        invariant
            i <= assets@.len(),
            runtime_asset_of(assets@.skip(i as int), kind@) == runtime_asset_of(assets@, kind@),
        decreases assets@.len() - i,
    {
        if same_text(assets[i].kind.as_str(), kind) {
            return Some(
                RuntimeReleaseAsset {
                    kind: assets[i].kind.clone(),
                    name: assets[i].name.clone(),
                    sha256: assets[i].sha256.clone(),
                    size_bytes: assets[i].size_bytes,
                    expanded_size_bytes: assets[i].expanded_size_bytes,
                },
            );
        }
        assert(assets@.skip(i as int).skip(1) =~= assets@.skip(i + 1));
        i = i + 1;
    }
    None
}

/// What is wrong with an asset that the setup manifest must announce for a target, if anything.
pub open spec fn announced_problem(
    entries: Seq<(String, ReleaseAssetDescriptor)>,
    target: Seq<char>,
    descriptor_label: Seq<char>,
    name: Seq<char>,
    sha256: Seq<char>,
    asset_label: Seq<char>,
) -> Option<Seq<char>> {
    match descriptor_of(entries, target) {
        None => Some(missing_descriptor(descriptor_label, target)),
        Some(d) => asset_problem(d, name, sha256, asset_label),
    }
}

/// What stands against choosing diarization assets from a bundle, if anything.
pub open spec fn pyannote_selection_problem(b: SetupReleaseBundle, host: HostPlatform) -> Option<
    Seq<char>,
> {
    let runtime = pyannote_asset_of(b.pyannote_manifest.assets@, pyannote_kind(host));
    let model = pyannote_asset_of(b.pyannote_manifest.assets@, "pyannote_model"@);
    first_problem(
        if runtime is None {
            Some(
                "Pyannote release manifest is missing runtime asset kind '"@ + pyannote_kind(host)
                    + "'."@,
            )
        } else {
            announced_problem(
                b.setup_manifest.pyannote_runtime_assets@,
                arch_label(host),
                "pyannote runtime asset descriptor"@,
                runtime->0.name@,
                runtime->0.sha256@,
                "pyannote runtime asset"@,
            )
        },
        if model is None {
            Some("Pyannote release manifest is missing the model asset."@)
        } else {
            asset_problem(
                b.setup_manifest.pyannote_model_asset,
                model->0.name@,
                model->0.sha256@,
                "pyannote model asset"@,
            )
        },
    )
}

/// Chooses the diarization assets of a bundle for a host. An asset is chosen only when the setup
/// manifest announces it under the same name and with the same digest.
pub fn fetch_pyannote_asset_selection(bundle: &SetupReleaseBundle, host: HostPlatform) -> (r: Result<
    PyannoteAssetSelection,
    String,
>)
    ensures
        match pyannote_selection_problem(*bundle, host) {
            Some(problem) => r is Err && r->Err_0@ == problem,
            None => {
                &&& r is Ok
                &&& Some(r->Ok_0.runtime_asset) == pyannote_asset_of(
                    bundle.pyannote_manifest.assets@,
                    pyannote_kind(host),
                )
                &&& Some(r->Ok_0.model_asset) == pyannote_asset_of(
                    bundle.pyannote_manifest.assets@,
                    "pyannote_model"@,
                )
                &&& r->Ok_0.compat_level == compat_level(bundle.pyannote_manifest.compat_level)
                &&& r->Ok_0.release_version@ == bundle.release_version@
            },
        },
{
    let kind: &str = host_pyannote_runtime_kind(host);
    let runtime_asset: PyannoteReleaseAsset = match find_pyannote_asset(
        &bundle.pyannote_manifest.assets,
        kind,
    ) {
        Some(asset) => asset,
        None => {
            return Err(
                cat3("Pyannote release manifest is missing runtime asset kind '", kind, "'."),
            );
        },
    };
    match setup_arch_descriptor(
        &bundle.setup_manifest.pyannote_runtime_assets,
        host_pyannote_arch_label(host),
        "pyannote runtime asset descriptor",
    ) {
        Err(problem) => {
            return Err(problem);
        },
        Ok(descriptor) => {
            if let Err(problem) = validate_manifest_asset_descriptor(
                descriptor,
                runtime_asset.name.as_str(),
                runtime_asset.sha256.as_str(),
                "pyannote runtime asset",
            ) {
                return Err(problem);
            }
        },
    }
    let model_asset: PyannoteReleaseAsset = match find_pyannote_asset(
        &bundle.pyannote_manifest.assets,
        "pyannote_model",
    ) {
        Some(asset) => asset,
        None => {
            return Err("Pyannote release manifest is missing the model asset.".to_owned());
        },
    };
    if let Err(problem) = validate_manifest_asset_descriptor(
        &bundle.setup_manifest.pyannote_model_asset,
        model_asset.name.as_str(),
        model_asset.sha256.as_str(),
        "pyannote model asset",
    ) {
        return Err(problem);
    }
    Ok(
        PyannoteAssetSelection {
            runtime_asset,
            model_asset,
            compat_level: normalize_pyannote_compat_level(bundle.pyannote_manifest.compat_level),
            release_version: bundle.release_version.clone(),
        },
    )
}

/// What stands against choosing a runtime asset from a bundle, if anything.
pub open spec fn runtime_selection_problem(b: SetupReleaseBundle, host: HostPlatform) -> Option<
    Seq<char>,
> {
    let runtime = runtime_asset_of(b.runtime_manifest.assets@, runtime_kind(host));
    if runtime is None {
        Some(
            "Runtime release manifest is missing the speech runtime asset kind '"@ + runtime_kind(
                host,
            ) + "'."@,
        )
    } else {
        announced_problem(
            b.setup_manifest.runtime_assets@,
            arch_label(host),
            "runtime asset descriptor"@,
            runtime->0.name@,
            runtime->0.sha256@,
            "runtime asset"@,
        )
    }
}

/// Chooses the runtime asset of a bundle for a host, under the same condition.
pub fn fetch_runtime_asset_selection(bundle: &SetupReleaseBundle, host: HostPlatform) -> (r: Result<
    RuntimeAssetSelection,
    String,
>)
    ensures
        match runtime_selection_problem(*bundle, host) {
            Some(problem) => r is Err && r->Err_0@ == problem,
            None => {
                &&& r is Ok
                &&& Some(r->Ok_0.runtime_asset) == runtime_asset_of(
                    bundle.runtime_manifest.assets@,
                    runtime_kind(host),
                )
                &&& r->Ok_0.release_version@ == bundle.release_version@
            },
        },
{
    let kind: &str = host_runtime_asset_kind(host);
    let runtime_asset: RuntimeReleaseAsset = match find_runtime_asset(
        &bundle.runtime_manifest.assets,
        kind,
    ) {
        Some(asset) => asset,
        None => {
            return Err(
                cat3(
                    "Runtime release manifest is missing the speech runtime asset kind '",
                    kind,
                    "'.",
                ),
            );
        },
    };
    match setup_arch_descriptor(
        &bundle.setup_manifest.runtime_assets,
        host_pyannote_arch_label(host),
        "runtime asset descriptor",
    ) {
        Err(problem) => {
            return Err(problem);
        },
        Ok(descriptor) => {
            if let Err(problem) = validate_manifest_asset_descriptor(
                descriptor,
                runtime_asset.name.as_str(),
                runtime_asset.sha256.as_str(),
                "runtime asset",
            ) {
                return Err(problem);
            }
        },
    }
    Ok(
        RuntimeAssetSelection { runtime_asset, release_version: bundle.release_version.clone() },
    )
}

/// An asset that is chosen has the digest that the setup manifest announces for it, whatever the
/// case and the space around the two are.
pub proof fn selected_digests_agree(b: SetupReleaseBundle, host: HostPlatform)
    requires
        pyannote_selection_problem(b, host) is None,
    ensures
        ({
            let runtime = pyannote_asset_of(b.pyannote_manifest.assets@, pyannote_kind(host));
            let model = pyannote_asset_of(b.pyannote_manifest.assets@, "pyannote_model"@);
            let announced = descriptor_of(
                b.setup_manifest.pyannote_runtime_assets@,
                arch_label(host),
            );
            &&& runtime is Some && model is Some && announced is Some
            &&& sha256_key(announced->0.sha256@)
                == sha256_key(runtime->0.sha256@)
            &&& sha256_key(
                b.setup_manifest.pyannote_model_asset.sha256@,
            ) == sha256_key(model->0.sha256@)
        }),
{
}

/// An install needs the space of both archives and of all that they hold, and a hundred and twenty-eight
/// megabytes more.
pub proof fn an_install_needs_archives_and_contents(s: PyannoteAssetSelection)
    requires
        s.runtime_asset.size_bytes is Some,
        s.model_asset.size_bytes is Some,
        s.runtime_asset.expanded_size_bytes is Some,
        s.model_asset.expanded_size_bytes is Some,
    ensures
        required_free_bytes(s) == s.runtime_asset.size_bytes->0 + s.model_asset.size_bytes->0
            + s.runtime_asset.expanded_size_bytes->0 + s.model_asset.expanded_size_bytes->0 + 128 * 1024
            * 1024,
{
}

/// There is room for an install exactly when the free space is as much as it needs, or when no sizes were
/// announced at all.
pub proof fn an_install_has_room(dir: Seq<char>, s: PyannoteAssetSelection, free: u64)
    ensures
        space_problem(dir, s, Ok(free)) is None <==> free >= required_free_bytes(s)
            || required_free_bytes(s) == 128 * 1024 * 1024,
        space_problem(dir, s, Ok(free)) is Some ==> contains(
            space_problem(dir, s, Ok(free))->0,
            bytes_text(required_free_bytes(s) as u64),
        ) && contains(space_problem(dir, s, Ok(free))->0, bytes_text(free)) && contains(
            space_problem(dir, s, Ok(free))->0,
            dir,
        ),
{
    let r = bytes_text(required_free_bytes(s) as u64);
    let f = bytes_text(free);
    let a = "Pyannote install needs about "@;
    let b = " of free disk space but only "@;
    let c = " is available near '"@;
    let d =
        "'. Install it later from Settings > Local Models after freeing some space."@;
    let all = a + r + b + f + c + dir + d;
    lemma_contains_middle(a, r, b + f + c + dir + d);
    assert(a + r + (b + f + c + dir + d) =~= all);
    lemma_contains_middle(a + r + b, f, c + dir + d);
    assert(a + r + b + f + (c + dir + d) =~= all);
    lemma_contains_middle(a + r + b + f + c, dir, d);
}

/// A size is shown in the largest unit that it reaches, each a thousand and twenty-four times the one
/// before, and whole bytes below that.
pub proof fn a_size_is_shown_in_its_unit(bytes: u64)
    ensures
        ({
            let (name, unit) = unit_of(bytes);
            &&& unit == 1 || bytes >= unit
            &&& name == "TB"@ || bytes < 1024 * unit
            &&& bytes < 1024 ==> name == "B"@ && unit == 1
            &&& 1024 <= bytes < 1024 * 1024 ==> name == "KB"@ && unit == 1024
            &&& 1024 * 1024 <= bytes < 1024 * 1024 * 1024 ==> name == "MB"@ && unit == 1024 * 1024
            &&& 1024 * 1024 * 1024 <= bytes < 1024 * 1024 * 1024 * 1024 ==> name == "GB"@ && unit == 1024
                * 1024 * 1024
            &&& bytes >= 1024 * 1024 * 1024 * 1024 ==> name == "TB"@
            &&& ends_with(bytes_text(bytes), name)
        }),
{
    let (name, unit) = unit_of(bytes);
    let t = bytes_text(bytes);
    assert(t.skip(t.len() - name.len()) =~= name);
}

/// A size is shown to the nearest tenth of its unit.
pub proof fn a_shown_size_is_near(bytes: u64)
    requires
        1024 <= bytes < 0x20_0000_0000_0000,
    ensures
        ({
            let unit = unit_of(bytes).1;
            let t = tenths(bytes as nat, unit);
            &&& 2 * (t * unit - 10 * bytes) <= unit
            &&& 2 * (10 * bytes - t * unit) <= unit
            &&& starts_with(bytes_text(bytes), decimal(t / 10) + "."@)
            &&& bytes_text(bytes)[(decimal(t / 10).len() + 1) as int] == digit((t % 10) as int)
        }),
{
    reveal_strlit(".");
    let unit = unit_of(bytes).1;
    let n = bytes as nat;
    assert(as_double(n) == n) by {
        reveal_with_fuel(double_step, 2);
        assert(double_step(n) == 1);
        assert(nearest(n, 1) == n);
    }
    let ten = n * 10;
    let q = ten / unit;
    let rest = ten % unit;
    assert(q * unit + rest == ten && rest < unit) by (nonlinear_arith)
        requires
            q == ten / unit,
            rest == ten % unit,
            unit > 0,
    ;
    assert((q + 1) * unit == q * unit + unit) by (nonlinear_arith);
    let t = tenths(n, unit);
    let head = decimal(t / 10) + "."@;
    let all = bytes_text(bytes);
    assert(all.take(head.len() as int) =~= head);
}

/// An asset is found by its kind: the first of those that have it, and none only where none has it.
pub proof fn an_asset_is_found_by_its_kind(assets: Seq<PyannoteReleaseAsset>, kind: Seq<char>) -> (at:
    int)
    ensures
        match pyannote_asset_of(assets, kind) {
            Some(a) => 0 <= at < assets.len() && assets[at] == a && a.kind@ == kind && forall|k: int|
                0 <= k < at ==> (#[trigger] assets[k]).kind@ != kind,
            None => forall|k: int| 0 <= k < assets.len() ==> (#[trigger] assets[k]).kind@ != kind,
        },
    decreases assets.len(),
{
    if assets.len() == 0 || assets[0].kind@ == kind {
        0
    } else {
        let rest = assets.skip(1);
        let at = an_asset_is_found_by_its_kind(rest, kind) + 1;
        if pyannote_asset_of(assets, kind) is Some {
            assert(assets[at] == rest[at - 1]);
            assert forall|k: int| 0 <= k < at implies (#[trigger] assets[k]).kind@ != kind by {
                if k > 0 {
                    assert(rest[k - 1] == assets[k]);
                }
            }
        } else {
            assert forall|k: int| 0 <= k < assets.len() implies (#[trigger] assets[k]).kind@ != kind by {
                if k > 0 {
                    assert(rest[k - 1] == assets[k]);
                }
            }
        }
        at
    }
}

/// A runtime asset is found by its kind in the same way.
pub proof fn a_runtime_is_found_by_its_kind(assets: Seq<RuntimeReleaseAsset>, kind: Seq<char>) -> (at:
    int)
    ensures
        match runtime_asset_of(assets, kind) {
            Some(a) => 0 <= at < assets.len() && assets[at] == a && a.kind@ == kind && forall|k: int|
                0 <= k < at ==> (#[trigger] assets[k]).kind@ != kind,
            None => forall|k: int| 0 <= k < assets.len() ==> (#[trigger] assets[k]).kind@ != kind,
        },
    decreases assets.len(),
{
    if assets.len() == 0 || assets[0].kind@ == kind {
        0
    } else {
        let rest = assets.skip(1);
        let at = a_runtime_is_found_by_its_kind(rest, kind) + 1;
        if runtime_asset_of(assets, kind) is Some {
            assert(assets[at] == rest[at - 1]);
            assert forall|k: int| 0 <= k < at implies (#[trigger] assets[k]).kind@ != kind by {
                if k > 0 {
                    assert(rest[k - 1] == assets[k]);
                }
            }
        } else {
            assert forall|k: int| 0 <= k < assets.len() implies (#[trigger] assets[k]).kind@ != kind by {
                if k > 0 {
                    assert(rest[k - 1] == assets[k]);
                }
            }
        }
        at
    }
}

/// A runtime is chosen for the host it is meant for, and only under the name and with the digest that the
/// setup manifest announces for the host's target.
pub proof fn a_chosen_runtime_is_the_announced_one(b: SetupReleaseBundle, host: HostPlatform)
    requires
        runtime_selection_problem(b, host) is None,
    ensures
        ({
            let chosen = runtime_asset_of(b.runtime_manifest.assets@, runtime_kind(host));
            let announced = descriptor_of(b.setup_manifest.runtime_assets@, arch_label(host));
            &&& chosen is Some && announced is Some
            &&& chosen->0.kind@ == runtime_kind(host)
            &&& trim(chosen->0.name@) == trim(announced->0.name@)
            &&& ascii_lower(trim(chosen->0.sha256@)) == ascii_lower(trim(announced->0.sha256@))
        }),
{
    let at = a_runtime_is_found_by_its_kind(b.runtime_manifest.assets@, runtime_kind(host));
}

/// The assets of a host are those of its system and its processor.
pub proof fn assets_are_those_of_the_host()
    ensures
        contains(runtime_kind(HostPlatform::MacAarch64), "macos_aarch64"@),
        contains(runtime_kind(HostPlatform::MacX86), "macos_x86_64"@),
        contains(runtime_kind(HostPlatform::WindowsX86), "windows_x86_64"@),
        contains(pyannote_kind(HostPlatform::MacAarch64), "macos_aarch64"@),
        contains(pyannote_kind(HostPlatform::MacX86), "macos_x86_64"@),
        contains(pyannote_kind(HostPlatform::WindowsX86), "windows_x86_64"@),
        starts_with(arch_label(HostPlatform::MacAarch64), "aarch64"@),
        contains(arch_label(HostPlatform::MacX86), "x86_64-apple"@),
        contains(arch_label(HostPlatform::WindowsX86), "windows"@),
        runtime_kind(HostPlatform::Other) == runtime_kind(HostPlatform::MacAarch64),
{
    reveal_strlit("macos_aarch64");
    reveal_strlit("macos_x86_64");
    reveal_strlit("windows_x86_64");
    reveal_strlit("aarch64");
    reveal_strlit("x86_64-apple");
    reveal_strlit("windows");
    assert(contains(runtime_kind(HostPlatform::MacAarch64), "macos_aarch64"@)) by {
        reveal_strlit("speech_runtime_macos_aarch64");
        lemma_found("speech_runtime_macos_aarch64"@, "macos_aarch64"@, 15);
    }
    assert(contains(runtime_kind(HostPlatform::MacX86), "macos_x86_64"@)) by {
        reveal_strlit("speech_runtime_macos_x86_64");
        lemma_found("speech_runtime_macos_x86_64"@, "macos_x86_64"@, 15);
    }
    assert(contains(runtime_kind(HostPlatform::WindowsX86), "windows_x86_64"@)) by {
        reveal_strlit("speech_runtime_windows_x86_64");
        lemma_found("speech_runtime_windows_x86_64"@, "windows_x86_64"@, 15);
    }
    assert(contains(pyannote_kind(HostPlatform::MacAarch64), "macos_aarch64"@)) by {
        reveal_strlit("pyannote_runtime_macos_aarch64");
        lemma_found("pyannote_runtime_macos_aarch64"@, "macos_aarch64"@, 17);
    }
    assert(contains(pyannote_kind(HostPlatform::MacX86), "macos_x86_64"@)) by {
        reveal_strlit("pyannote_runtime_macos_x86_64");
        lemma_found("pyannote_runtime_macos_x86_64"@, "macos_x86_64"@, 17);
    }
    assert(contains(pyannote_kind(HostPlatform::WindowsX86), "windows_x86_64"@)) by {
        reveal_strlit("pyannote_runtime_windows_x86_64");
        lemma_found("pyannote_runtime_windows_x86_64"@, "windows_x86_64"@, 17);
    }
    assert(starts_with(arch_label(HostPlatform::MacAarch64), "aarch64"@)) by {
        reveal_strlit("aarch64-apple-darwin");
        assert("aarch64-apple-darwin"@.take(7) =~= "aarch64"@);
    }
    assert(contains(arch_label(HostPlatform::MacX86), "x86_64-apple"@)) by {
        reveal_strlit("x86_64-apple-darwin");
        lemma_found("x86_64-apple-darwin"@, "x86_64-apple"@, 0);
    }
    assert(contains(arch_label(HostPlatform::WindowsX86), "windows"@)) by {
        reveal_strlit("x86_64-pc-windows-msvc");
        lemma_found("x86_64-pc-windows-msvc"@, "windows"@, 10);
    }
}

/// A diarization runtime is chosen for the host that it is meant for, and with it the model; both only
/// under the names and with the digests that the setup manifest announces.
pub proof fn chosen_diarization_assets_are_the_announced_ones(
    b: SetupReleaseBundle,
    host: HostPlatform,
)
    requires
        pyannote_selection_problem(b, host) is None,
    ensures
        ({
            let runtime = pyannote_asset_of(b.pyannote_manifest.assets@, pyannote_kind(host));
            let model = pyannote_asset_of(b.pyannote_manifest.assets@, "pyannote_model"@);
            let announced = descriptor_of(b.setup_manifest.pyannote_runtime_assets@, arch_label(host));
            &&& runtime is Some && model is Some && announced is Some
            &&& runtime->0.kind@ == pyannote_kind(host)
            &&& model->0.kind@ == "pyannote_model"@
            &&& trim(runtime->0.name@) == trim(announced->0.name@)
            &&& ascii_lower(trim(runtime->0.sha256@)) == ascii_lower(trim(announced->0.sha256@))
            &&& trim(model->0.name@) == trim(b.setup_manifest.pyannote_model_asset.name@)
            &&& ascii_lower(trim(model->0.sha256@)) == ascii_lower(
                trim(b.setup_manifest.pyannote_model_asset.sha256@),
            )
        }),
{
    let r = an_asset_is_found_by_its_kind(b.pyannote_manifest.assets@, pyannote_kind(host));
    let m = an_asset_is_found_by_its_kind(b.pyannote_manifest.assets@, "pyannote_model"@);
}

} // verus!
