//! The managed Python: where it lies, the environment that it runs in, and the probe that loads
//! the diarization pipeline with it.

use vstd::prelude::*;
use vstd::string::*;

use crate::paths::{
    a_join_is_the_directory_and_the_name, is_rooted, join_path, joined, prefix_len, PathStyle,
};
use crate::text::{
    cat3, contains, decimal, ends_with, lemma_contains_middle, list_contains, opt_view, prefix,
    prefix_text, push_decimal, starts_with, text_starts_with, trim, trim_text, views,
};

verus! {

/// The seconds after which a probe is given up.
pub const PYANNOTE_IMPORT_LOAD_TIMEOUT_SECONDS: u64 = 90;

/// The program that the probe runs: it loads the pipeline from the directory that it is given.
pub const PYANNOTE_PROBE_SCRIPT: &'static str = "\nimport sys\nfrom pyannote.audio import Pipeline\nPipeline.from_pretrained(sys.argv[1])\nprint(\"pyannote-import-load-ok\")\n";

// ---------------------------------------------------------------------------
// Where it lies
// ---------------------------------------------------------------------------

/// The places at which the interpreter is looked for, in order.
pub open spec fn python_candidates(python_dir: Seq<char>, style: PathStyle) -> Seq<Seq<char>> {
    let bin = joined(style, python_dir, "bin"@);
    let unix = seq![joined(style, bin, "python3"@), joined(style, bin, "python"@)];
    if style == PathStyle::Windows {
        seq![
            joined(style, python_dir, "python.exe"@),
            joined(style, python_dir, "python3.exe"@),
        ] + unix
    } else {
        unix
    }
}

/// Lists the places at which the interpreter is looked for.
pub fn managed_pyannote_python_candidates(python_dir: &str, style: PathStyle) -> (r: Vec<String>)
    ensures
        views(r@) == python_candidates(python_dir@, style),
{
    let mut out: Vec<String> = Vec::new();
    if style == PathStyle::Windows {
        out.push(join_path(style, python_dir, "python.exe"));
        out.push(join_path(style, python_dir, "python3.exe"));
    }
    let bin: String = join_path(style, python_dir, "bin");
    out.push(join_path(style, bin.as_str(), "python3"));
    out.push(join_path(style, bin.as_str(), "python"));
    assert(views(out@) =~= python_candidates(python_dir@, style));
    out
}

/// The first entry of `list` that `present` holds.
pub open spec fn first_present(list: Seq<Seq<char>>, present: Seq<Seq<char>>) -> Option<Seq<char>>
    decreases list.len(),
{
    if list.len() == 0 {
        None
    } else if present.contains(list[0]) {
        Some(list[0])
    } else {
        first_present(list.skip(1), present)
    }
}

/// Finds the interpreter: the first of its places at which a file lies. `files` are the files
/// that exist.
pub fn managed_pyannote_python_executable(
    python_dir: &str,
    style: PathStyle,
    files: &Vec<String>,
) -> (r: Option<String>)
    ensures
        opt_view(r) == first_present(python_candidates(python_dir@, style), views(files@)),
{
    let candidates: Vec<String> = managed_pyannote_python_candidates(python_dir, style);
    let ghost all = python_candidates(python_dir@, style);
    let mut i: usize = 0;
    assert(all.skip(0) =~= all);
    while i < candidates.len()
        invariant
            i <= candidates@.len(),
            all == views(candidates@),
            all == python_candidates(python_dir@, style),
            first_present(all, views(files@)) == first_present(all.skip(i as int), views(files@)),
        decreases candidates@.len() - i,
    {
        assert(all.skip(i as int)[0] == candidates@[i as int]@);
        if list_contains(files, candidates[i].as_str()) {
            return Some(candidates[i].clone());
        }
        assert(all.skip(i as int).skip(1) =~= all.skip(i + 1));
        i = i + 1;
    }
    None
}

// ---------------------------------------------------------------------------
// The environment
// ---------------------------------------------------------------------------

/// The variables that are removed from the environment of the managed Python.
pub open spec fn cleared_python_vars() -> Seq<Seq<char>> {
    seq![
        "PYTHONPATH"@,
        "PYTHONEXECUTABLE"@,
        "PYTHONHOME"@,
        "PYTHONNOUSERSITE"@,
        "PYTHONUSERBASE"@,
        "PYTHONSTARTUP"@,
        "PYTHONPLATLIBDIR"@,
        "PYTHONPYCACHEPREFIX"@,
        "PYTHONBREAKPOINT"@,
        "__PYVENV_LAUNCHER__"@,
        "VIRTUAL_ENV"@,
        "CONDA_PREFIX"@,
        "CONDA_DEFAULT_ENV"@,
    ]
}

/// Lists the variables that are removed from the environment of the managed Python.
pub fn pyannote_python_env_vars_to_clear() -> (r: Vec<String>)
    ensures
        views(r@) == cleared_python_vars(),
{
    let mut out: Vec<String> = Vec::new();
    out.push("PYTHONPATH".to_owned());
    out.push("PYTHONEXECUTABLE".to_owned());
    out.push("PYTHONHOME".to_owned());
    out.push("PYTHONNOUSERSITE".to_owned());
    out.push("PYTHONUSERBASE".to_owned());
    out.push("PYTHONSTARTUP".to_owned());
    out.push("PYTHONPLATLIBDIR".to_owned());
    out.push("PYTHONPYCACHEPREFIX".to_owned());
    out.push("PYTHONBREAKPOINT".to_owned());
    out.push("__PYVENV_LAUNCHER__".to_owned());
    out.push("VIRTUAL_ENV".to_owned());
    out.push("CONDA_PREFIX".to_owned());
    out.push("CONDA_DEFAULT_ENV".to_owned());
    assert(views(out@) =~= cleared_python_vars());
    out
}

/// The first directory name that belongs to a version of Python.
pub open spec fn version_name(names: Seq<Seq<char>>) -> Option<Seq<char>>
    decreases names.len(),
{
    if names.len() == 0 {
        None
    } else if starts_with(names[0], "python3."@) {
        Some(names[0])
    } else {
        version_name(names.skip(1))
    }
}

fn find_version_name(names: &Vec<String>) -> (r: Option<String>)
    ensures
        opt_view(r) == version_name(views(names@)),
{
    let ghost all = views(names@);
    let mut i: usize = 0;
    assert(all.skip(0) =~= all);
    while i < names.len()
        invariant
            i <= names@.len(),
            all == views(names@),
            version_name(all) == version_name(all.skip(i as int)),
        decreases names@.len() - i,
    {
        assert(all.skip(i as int)[0] == names@[i as int]@);
        if text_starts_with(names[i].as_str(), "python3.") {
            return Some(names[i].clone());
        }
        assert(all.skip(i as int).skip(1) =~= all.skip(i + 1));
        i = i + 1;
    }
    None
}

/// The directories that modules may be imported from, where they exist. Outside Windows they
/// depend on the version: `lib_dirs` are the directories below `lib`, if it can be listed.
pub open spec fn module_dirs(
    python_root: Seq<char>,
    style: PathStyle,
    lib_dirs: Option<Seq<Seq<char>>>,
) -> Option<Seq<Seq<char>>> {
    if style == PathStyle::Windows {
        Some(
            seq![
                joined(style, python_root, "Lib"@),
                joined(style, python_root, "DLLs"@),
                joined(style, joined(style, python_root, "Lib"@), "site-packages"@),
            ],
        )
    } else {
        match lib_dirs {
            None => None,
            Some(names) => match version_name(names) {
                None => None,
                Some(name) => {
                    let dir = joined(style, joined(style, python_root, "lib"@), name);
                    Some(
                        seq![
                            dir,
                            joined(style, dir, "lib-dynload"@),
                            joined(style, dir, "site-packages"@),
                        ],
                    )
                },
            },
        }
    }
}

/// What a list of names that may be absent holds.
pub open spec fn opt_views(o: Option<Vec<String>>) -> Option<Seq<Seq<char>>> {
    match o {
        Some(v) => Some(views(v@)),
        None => None,
    }
}

/// Lists the directories that modules may be imported from.
pub fn managed_pyannote_module_dirs(
    python_root: &str,
    style: PathStyle,
    lib_dirs: &Option<Vec<String>>,
) -> (r: Option<Vec<String>>)
    ensures
        opt_views(r) == module_dirs(python_root@, style, opt_views(*lib_dirs)),
{
    let mut out: Vec<String> = Vec::new();
    if style == PathStyle::Windows {
        let library: String = join_path(style, python_root, "Lib");
        let packages: String = join_path(style, library.as_str(), "site-packages");
        out.push(library);
        out.push(join_path(style, python_root, "DLLs"));
        out.push(packages);
    } else {
        let name: String = match lib_dirs {
            None => {
                return None;
            },
            Some(names) => match find_version_name(names) {
                None => {
                    return None;
                },
                Some(name) => name,
            },
        };
        let dir: String = join_path(
            style,
            join_path(style, python_root, "lib").as_str(),
            name.as_str(),
        );
        let dynload: String = join_path(style, dir.as_str(), "lib-dynload");
        let packages: String = join_path(style, dir.as_str(), "site-packages");
        out.push(dir);
        out.push(dynload);
        out.push(packages);
    }
    proof {
        let m = module_dirs(python_root@, style, opt_views(*lib_dirs));
        assert(views(out@) =~= m->0);
    }
    Some(out)
}

/// The entries of `list` that `present` holds.
pub open spec fn those_present(list: Seq<Seq<char>>, present: Seq<Seq<char>>) -> Seq<Seq<char>>
    decreases list.len(),
{
    if list.len() == 0 {
        list
    } else {
        let front = those_present(list.drop_last(), present);
        if present.contains(list.last()) {
            front.push(list.last())
        } else {
            front
        }
    }
}

/// The directories that modules are imported from: those that exist. Without any, the variable
/// is not set. `dirs` are the directories that exist.
pub fn managed_pyannote_python_path_env(
    python_root: &str,
    style: PathStyle,
    lib_dirs: &Option<Vec<String>>,
    dirs: &Vec<String>,
) -> (r: Option<Vec<String>>)
    ensures
        opt_views(r) == match module_dirs(python_root@, style, opt_views(*lib_dirs)) {
            None => None,
            Some(list) => if those_present(list, views(dirs@)).len() == 0 {
                None
            } else {
                Some(those_present(list, views(dirs@)))
            },
        },
{
    let list: Vec<String> = match managed_pyannote_module_dirs(python_root, style, lib_dirs) {
        None => {
            return None;
        },
        Some(list) => list,
    };
    let ghost all = views(list@);
    let mut out: Vec<String> = Vec::new();
    let mut i: usize = 0;
    while i < list.len()
        invariant
            i <= list@.len(),
            all == views(list@),
            views(out@) == those_present(all.take(i as int), views(dirs@)),
        decreases list@.len() - i,
    {
        let ghost prior = views(out@);
        assert(all.take(i + 1).drop_last() =~= all.take(i as int));
        if list_contains(dirs, list[i].as_str()) {
            out.push(list[i].clone());
            assert(views(out@) =~= prior.push(all[i as int]));
        }
        i = i + 1;
    }
    assert(all.take(i as int) =~= all);
    if out.len() == 0 {
        None
    } else {
        Some(out)
    }
}

/// The search path of programs that the probe runs with: the interpreter's directory, the
/// program directory of the data, and what was there.
pub open spec fn probe_path(
    style: PathStyle,
    parent: Option<Seq<char>>,
    python_root: Seq<char>,
    data_dir: Seq<char>,
    existing: Seq<Seq<char>>,
) -> Seq<Seq<char>> {
    seq![
        (match parent {
            Some(dir) => dir,
            None => joined(style, python_root, "bin"@),
        }),
        joined(style, data_dir, "bin"@),
    ] + existing
}

fn append_all(out: &mut Vec<String>, more: &Vec<String>)
    ensures
        views(final(out)@) == views(old(out)@) + views(more@),
{
    let ghost start = views(out@);
    let ghost all = views(more@);
    let mut i: usize = 0;
    assert(start + all.take(0) =~= start);
    while i < more.len()
        invariant
            i <= more@.len(),
            all == views(more@),
            views(out@) == start + all.take(i as int),
        decreases more@.len() - i,
    {
        let ghost prior = views(out@);
        out.push(more[i].clone());
        assert(views(out@) =~= prior.push(all[i as int]));
        assert(start + all.take(i + 1) =~= prior.push(all[i as int]));
        i = i + 1;
    }
    assert(all.take(i as int) =~= all);
}

/// Lists the search path of programs that the probe runs with. `parent` is the directory of the
/// interpreter, `existing` the search path so far.
pub fn probe_path_entries(
    style: PathStyle,
    parent: &Option<String>,
    python_root: &str,
    data_dir: &str,
    existing: &Vec<String>,
) -> (r: Vec<String>)
    ensures
        views(r@) == probe_path(
            style,
            opt_view(*parent),
            python_root@,
            data_dir@,
            views(existing@),
        ),
{
    let mut out: Vec<String> = Vec::new();
    match parent {
        Some(dir) => {
            out.push(dir.clone());
        },
        None => {
            out.push(join_path(style, python_root, "bin"));
        },
    }
    out.push(join_path(style, data_dir, "bin"));
    let ghost first = match opt_view(*parent) {
        Some(dir) => dir,
        None => joined(style, python_root@, "bin"@),
    };
    assert(views(out@) =~= seq![first, joined(style, data_dir@, "bin"@)]);
    append_all(&mut out, existing);
    out
}

/// The search path of libraries that the probe runs with on macOS: the libraries of the data,
/// those that come with the interpreter where they exist, and what was there.
pub fn probe_library_entries(
    python_root: &str,
    data_dir: &str,
    has_embedded: bool,
    existing: &Vec<String>,
) -> (r: Vec<String>)
    ensures
        views(r@) == (if has_embedded {
            seq![
                joined(PathStyle::Unix, data_dir@, "lib"@),
                joined(
                    PathStyle::Unix,
                    joined(PathStyle::Unix, python_root@, "lib"@),
                    "embedded-dylibs"@,
                ),
            ]
        } else {
            seq![joined(PathStyle::Unix, data_dir@, "lib"@)]
        }) + views(existing@),
{
    let mut out: Vec<String> = Vec::new();
    let style: PathStyle = PathStyle::Unix;
    let ghost data_lib = joined(style, data_dir@, "lib"@);
    let ghost python_lib = joined(style, python_root@, "lib"@);
    out.push(join_path(style, data_dir, "lib"));
    if has_embedded {
        let library: String = join_path(style, python_root, "lib");
        out.push(join_path(style, library.as_str(), "embedded-dylibs"));
    }
    assert(views(out@) =~= if has_embedded {
        seq![data_lib, joined(style, python_lib, "embedded-dylibs"@)]
    } else {
        seq![data_lib]
    });
    append_all(&mut out, existing);
    out
}

// ---------------------------------------------------------------------------
// The probe
// ---------------------------------------------------------------------------

/// Checks that a probe can run, and names the interpreter that it runs with.
pub fn check_pyannote_probe(
    cancelled: bool,
    executable: &Option<String>,
    model_dir: &str,
    model_present: bool,
) -> (r: Result<String, String>)
    ensures
        if cancelled {
            r is Err && r->Err_0@ == "cancelled"@
        } else {
            match executable {
                None => r is Err && r->Err_0@
                    == "Pyannote import probe could not find the managed Python executable."@,
                Some(path) => if model_present {
                    r is Ok && r->Ok_0@ == path@
                } else {
                    r is Err && r->Err_0@
                        == "Pyannote import probe could not find the managed model at '"@
                        + model_dir@ + "'."@
                },
            }
        },
{
    if cancelled {
        return Err("cancelled".to_owned());
    }
    match executable {
        None => Err(
            "Pyannote import probe could not find the managed Python executable.".to_owned(),
        ),
        Some(path) => {
            if model_present {
                Ok(path.clone())
            } else {
                Err(
                    cat3(
                        "Pyannote import probe could not find the managed model at '",
                        model_dir,
                        "'.",
                    ),
                )
            }
        },
    }
}

/// How a probe ended.
pub enum ProbeEnd {
    /// It could not be started.
    NotStarted(String),
    /// It was cancelled.
    Cancelled,
    /// It ran for too long.
    TimedOut,
    /// What it wrote could not be collected.
    NotCollected(String),
    /// It came to an end.
    Exited(ProbeExit),
}

/// What a probe that came to an end left.
pub struct ProbeExit {
    pub success: bool,
    pub stderr: String,
    pub stdout: String,
    /// The exit status, as it is shown.
    pub status: String,
}

/// The output of a probe that did not succeed, as it is quoted: what it wrote to its error
/// stream, else what it wrote at all, cut when it is long.
pub open spec fn probe_detail(stderr: Seq<char>, stdout: Seq<char>) -> Seq<char> {
    let detail = if trim(stderr).len() == 0 { trim(stdout) } else { trim(stderr) };
    if vstd::utf8::encode_utf8(detail).len() > 600 {
        prefix(detail, 600) + "…"@
    } else {
        detail
    }
}

/// Why a probe failed, if it did.
pub open spec fn probe_failure(end: ProbeEnd) -> Option<Seq<char>> {
    match end {
        ProbeEnd::NotStarted(e) => Some(
            "failed to start Pyannote import/load probe: "@ + e@,
        ),
        ProbeEnd::Cancelled => Some("cancelled"@),
        ProbeEnd::TimedOut => Some(
            "Pyannote import/load probe timed out after "@ + decimal(
                PYANNOTE_IMPORT_LOAD_TIMEOUT_SECONDS as nat,
            ) + " seconds."@,
        ),
        ProbeEnd::NotCollected(e) => Some(
            "Pyannote import/load probe could not be collected: "@ + e@,
        ),
        ProbeEnd::Exited(x) => if x.success {
            None
        } else if probe_detail(x.stderr@, x.stdout@).len() == 0 {
            Some("Pyannote import/load probe exited with status "@ + x.status@ + "."@)
        } else {
            Some("Pyannote import/load probe failed: "@ + probe_detail(x.stderr@, x.stdout@))
        },
    }
}

/// Judges a probe by how it ended.
pub fn probe_pyannote_import_and_load(end: &ProbeEnd) -> (r: Result<(), String>)
    ensures
        match probe_failure(*end) {
            None => r is Ok,
            Some(message) => r is Err && r->Err_0@ == message,
        },
{
    match end {
        ProbeEnd::NotStarted(error) => {
            let mut m: String = "failed to start Pyannote import/load probe: ".to_owned();
            m.append(error.as_str());
            Err(m)
        },
        ProbeEnd::Cancelled => Err("cancelled".to_owned()),
        ProbeEnd::TimedOut => {
            let mut m: String = "Pyannote import/load probe timed out after ".to_owned();
            push_decimal(&mut m, PYANNOTE_IMPORT_LOAD_TIMEOUT_SECONDS);
            m.append(" seconds.");
            Err(m)
        },
        ProbeEnd::NotCollected(error) => {
            let mut m: String = "Pyannote import/load probe could not be collected: ".to_owned();
            m.append(error.as_str());
            Err(m)
        },
        ProbeEnd::Exited(exit) => {
            if exit.success {
                return Ok(());
            }
            let err: String = trim_text(exit.stderr.as_str());
            let out: String = trim_text(exit.stdout.as_str());
            let detail: String = if err.as_str().is_empty() {
                out
            } else {
                err
            };
            let shown: String = if detail.as_str().as_bytes().len() > 600 {
                let mut cut: String = prefix_text(detail.as_str(), 600);
                cut.append("…");
                cut
            } else {
                detail
            };
            if shown.as_str().is_empty() {
                Err(
                    cat3(
                        "Pyannote import/load probe exited with status ",
                        exit.status.as_str(),
                        ".",
                    ),
                )
            } else {
                let mut m: String = "Pyannote import/load probe failed: ".to_owned();
                m.append(shown.as_str());
                Err(m)
            }
        },
    }
}

/// The interpreter is the first of its places at which a file lies, and there is none only where no file
/// lies at any of them.
pub proof fn the_first_interpreter_is_used(list: Seq<Seq<char>>, present: Seq<Seq<char>>) -> (at: int)
    ensures
        match first_present(list, present) {
            Some(path) => 0 <= at < list.len() && list[at] == path && present.contains(path) && forall|
                k: int,
            |
                0 <= k < at ==> !present.contains(#[trigger] list[k]),
            None => forall|k: int| 0 <= k < list.len() ==> !present.contains(#[trigger] list[k]),
        },
    decreases list.len(),
{
    if list.len() == 0 || present.contains(list[0]) {
        0
    } else {
        let rest = list.skip(1);
        let at = the_first_interpreter_is_used(rest, present) + 1;
        let end = if first_present(list, present) is Some { at } else { list.len() as int };
        assert forall|k: int| 0 <= k < end implies !present.contains(#[trigger] list[k]) by {
            if k > 0 {
                assert(rest[k - 1] == list[k]);
            }
        }
        if first_present(list, present) is Some {
            assert(rest[at - 1] == list[at]);
        }
        at
    }
}

proof fn lemma_plain_names(style: PathStyle)
    ensures
        prefix_len(style, "bin"@) == 0 && !is_rooted(style, "bin"@),
        prefix_len(style, "python3"@) == 0 && !is_rooted(style, "python3"@),
        prefix_len(style, "python"@) == 0 && !is_rooted(style, "python"@),
        prefix_len(style, "python.exe"@) == 0 && !is_rooted(style, "python.exe"@),
        prefix_len(style, "python3.exe"@) == 0 && !is_rooted(style, "python3.exe"@),
{
    reveal_strlit("bin");
    reveal_strlit("python3");
    reveal_strlit("python");
    reveal_strlit("python.exe");
    reveal_strlit("python3.exe");
}

/// Every place of the interpreter lies in the directory of the managed Python, and is named as an
/// interpreter; one named for the version goes before one that is not, outside Windows.
#[verifier::rlimit(40)]
pub proof fn interpreters_lie_in_their_directory(python_dir: Seq<char>, style: PathStyle, i: int)
    requires
        0 <= i < python_candidates(python_dir, style).len(),
    ensures
        starts_with(python_candidates(python_dir, style)[i], python_dir),
        style == PathStyle::Unix ==> python_candidates(python_dir, style).len() == 2,
        style == PathStyle::Unix && i == 0 ==> ends_with(
            python_candidates(python_dir, style)[i],
            "python3"@,
        ),
        style == PathStyle::Unix && i == 1 ==> ends_with(
            python_candidates(python_dir, style)[i],
            "python"@,
        ),
        style == PathStyle::Windows ==> python_candidates(python_dir, style).len() == 4,
        style == PathStyle::Windows && i == 0 ==> ends_with(
            python_candidates(python_dir, style)[i],
            "python.exe"@,
        ),
        style == PathStyle::Windows && i == 1 ==> ends_with(
            python_candidates(python_dir, style)[i],
            "python3.exe"@,
        ),
{
    lemma_plain_names(style);
    let bin = joined(style, python_dir, "bin"@);
    let all = python_candidates(python_dir, style);
    a_join_is_the_directory_and_the_name(style, python_dir, "bin"@);
    a_join_is_the_directory_and_the_name(style, bin, "python3"@);
    a_join_is_the_directory_and_the_name(style, bin, "python"@);
    a_join_is_the_directory_and_the_name(style, python_dir, "python.exe"@);
    a_join_is_the_directory_and_the_name(style, python_dir, "python3.exe"@);
    let n = python_dir.len() as int;
    let a = joined(style, bin, "python3"@);
    let b = joined(style, bin, "python"@);
    assert(a.take(n) =~= a.take(bin.len() as int).take(n));
    assert(b.take(n) =~= b.take(bin.len() as int).take(n));
}

/// Only entries of the list that exist are kept, and all of them, in their order.
pub proof fn present_entries_are_kept(
    list: Seq<Seq<char>>,
    present: Seq<Seq<char>>,
    entry: Seq<char>,
)
    ensures
        those_present(list, present).contains(entry) <==> list.contains(entry) && present.contains(
            entry,
        ),
        those_present(list, present) == list.filter(|e: Seq<char>| present.contains(e)),
    decreases list.len(),
{
    reveal(Seq::filter);
    let all = those_present(list, present);
    if list.len() > 0 {
        let front = list.drop_last();
        present_entries_are_kept(front, present, entry);
        let before = those_present(front, present);
        if list.contains(entry) && present.contains(entry) {
            let k = choose|k: int| 0 <= k < list.len() && list[k] == entry;
            if k < front.len() {
                assert(front[k] == entry);
                let j = choose|j: int| 0 <= j < before.len() && before[j] == entry;
                assert(all[j] == entry);
            } else {
                assert(all[before.len() as int] == entry);
            }
        }
        if all.contains(entry) {
            let j = choose|j: int| 0 <= j < all.len() && all[j] == entry;
            if j < before.len() {
                assert(before[j] == entry);
                let k = choose|k: int| 0 <= k < front.len() && front[k] == entry;
                assert(list[k] == entry);
            } else {
                assert(list[list.len() - 1] == entry);
            }
        }
    }
}

/// What was on the search path stays on it, in its order, behind the interpreter's directory and the
/// programs of the data.
pub proof fn the_search_path_is_kept(
    style: PathStyle,
    parent: Option<Seq<char>>,
    python_root: Seq<char>,
    data_dir: Seq<char>,
    existing: Seq<Seq<char>>,
)
    ensures
        ({
            let path = probe_path(style, parent, python_root, data_dir, existing);
            &&& path.len() == existing.len() + 2
            &&& path.skip(2) == existing
            &&& parent matches Some(dir) ==> path[0] == dir
            &&& parent is None ==> starts_with(path[0], python_root) && ends_with(path[0], "bin"@)
            &&& starts_with(path[1], data_dir) && ends_with(path[1], "bin"@)
        }),
{
    lemma_plain_names(style);
    a_join_is_the_directory_and_the_name(style, python_root, "bin"@);
    a_join_is_the_directory_and_the_name(style, data_dir, "bin"@);
    let path = probe_path(style, parent, python_root, data_dir, existing);
    assert(path.skip(2) =~= existing);
}

/// Variables of another Python do not reach the managed one.
pub proof fn no_other_python_is_left()
    ensures
        cleared_python_vars().contains("PYTHONPATH"@),
        cleared_python_vars().contains("PYTHONHOME"@),
        cleared_python_vars().contains("PYTHONEXECUTABLE"@),
        cleared_python_vars().contains("PYTHONNOUSERSITE"@),
        cleared_python_vars().contains("PYTHONUSERBASE"@),
        cleared_python_vars().contains("PYTHONSTARTUP"@),
        cleared_python_vars().contains("PYTHONPLATLIBDIR"@),
        cleared_python_vars().contains("PYTHONPYCACHEPREFIX"@),
        cleared_python_vars().contains("PYTHONBREAKPOINT"@),
        cleared_python_vars().contains("__PYVENV_LAUNCHER__"@),
        cleared_python_vars().contains("VIRTUAL_ENV"@),
        cleared_python_vars().contains("CONDA_PREFIX"@),
        cleared_python_vars().contains("CONDA_DEFAULT_ENV"@),
        cleared_python_vars().len() == 13,
{
    let v = cleared_python_vars();
    assert(v[0] == "PYTHONPATH"@);
    assert(v[1] == "PYTHONEXECUTABLE"@);
    assert(v[2] == "PYTHONHOME"@);
    assert(v[3] == "PYTHONNOUSERSITE"@);
    assert(v[4] == "PYTHONUSERBASE"@);
    assert(v[5] == "PYTHONSTARTUP"@);
    assert(v[6] == "PYTHONPLATLIBDIR"@);
    assert(v[7] == "PYTHONPYCACHEPREFIX"@);
    assert(v[8] == "PYTHONBREAKPOINT"@);
    assert(v[9] == "__PYVENV_LAUNCHER__"@);
    assert(v[10] == "VIRTUAL_ENV"@);
    assert(v[11] == "CONDA_PREFIX"@);
    assert(v[12] == "CONDA_DEFAULT_ENV"@);
}

/// The version's directory is the first that is named as one.
pub proof fn the_first_version_is_used(list: Seq<Seq<char>>) -> (at: int)
    ensures
        match version_name(list) {
            Some(name) => 0 <= at < list.len() && list[at] == name && starts_with(name, "python3."@)
                && forall|k: int| 0 <= k < at ==> !starts_with(#[trigger] list[k], "python3."@),
            None => forall|k: int|
                0 <= k < list.len() ==> !starts_with(#[trigger] list[k], "python3."@),
        },
    decreases list.len(),
{
    if list.len() == 0 || starts_with(list[0], "python3."@) {
        0
    } else {
        let rest = list.skip(1);
        let at = the_first_version_is_used(rest) + 1;
        let end = if version_name(list) is Some { at } else { list.len() as int };
        assert forall|k: int| 0 <= k < end implies !starts_with(#[trigger] list[k], "python3."@) by {
            if k > 0 {
                assert(rest[k - 1] == list[k]);
            }
        }
        if version_name(list) is Some {
            assert(rest[at - 1] == list[at]);
        }
        at
    }
}

/// A probe is good exactly when it came to an end with success. One that was cancelled says only that;
/// another failure says what went wrong: the error, else what the probe wrote, its error stream first,
/// else its exit status.
#[verifier::rlimit(40)]
pub proof fn a_bad_probe_says_why(end: ProbeEnd)
    ensures
        probe_failure(end) is None <==> end is Exited && end->Exited_0.success,
        match end {
            ProbeEnd::NotStarted(e) => contains(probe_failure(end)->0, e@),
            ProbeEnd::NotCollected(e) => contains(probe_failure(end)->0, e@),
            ProbeEnd::Cancelled => probe_failure(end) == Some("cancelled"@),
            ProbeEnd::TimedOut => contains(probe_failure(end)->0, decimal(90)),
            ProbeEnd::Exited(x) => !x.success ==> {
                let err = trim(x.stderr@);
                let out = trim(x.stdout@);
                let m = probe_failure(end)->0;
                &&& err.len() > 0 ==> contains(m, prefix(err, 600))
                &&& err.len() == 0 && out.len() > 0 ==> contains(m, prefix(out, 600))
                &&& err.len() == 0 && out.len() == 0 ==> contains(m, x.status@)
            },
        },
{
    match end {
        ProbeEnd::NotStarted(e) => lemma_tail("failed to start Pyannote import/load probe: "@, e@),
        ProbeEnd::NotCollected(e) => lemma_tail(
            "Pyannote import/load probe could not be collected: "@,
            e@,
        ),
        ProbeEnd::Cancelled => {},
        ProbeEnd::TimedOut => lemma_contains_middle(
            "Pyannote import/load probe timed out after "@,
            decimal(90),
            " seconds."@,
        ),
        ProbeEnd::Exited(x) => {
            let detail = if trim(x.stderr@).len() == 0 {
                trim(x.stdout@)
            } else {
                trim(x.stderr@)
            };
            lemma_short_text(detail);
            lemma_shown_detail(
                "Pyannote import/load probe failed: "@,
                detail,
                "…"@,
                vstd::utf8::encode_utf8(detail).len() > 600,
            );
            lemma_contains_middle(
                "Pyannote import/load probe exited with status "@,
                x.status@,
                "."@,
            );
        },
    }
}

proof fn lemma_shown_detail(head: Seq<char>, detail: Seq<char>, mark: Seq<char>, long: bool)
    requires
        !long ==> detail.len() <= 600,
        detail.len() == 0 ==> !long,
    ensures
        ({
            let shown = if long { prefix(detail, 600) + mark } else { detail };
            &&& contains(head + shown, prefix(detail, 600))
            &&& shown.len() == 0 <==> detail.len() == 0
        }),
{
    let short = prefix(detail, 600);
    if long {
        lemma_contains_middle(head, short, mark);
        assert(head + short + mark =~= head + (short + mark));
    } else {
        lemma_tail(head, detail);
    }
}

proof fn lemma_tail(a: Seq<char>, e: Seq<char>)
    ensures
        contains(a + e, e),
{
    lemma_contains_middle(a, e, Seq::empty());
    assert(a + e + Seq::empty() =~= a + e);
}

proof fn lemma_short_text(s: Seq<char>)
    ensures
        s.len() <= vstd::utf8::encode_utf8(s).len(),
    decreases s.len(),
{
    if s.len() > 0 {
        vstd::utf8::encode_utf8_first_scalar(s);
        lemma_short_text(s.drop_first());
    }
}

/// Modules are imported from the directories of the managed Python alone: those of its version, and on
/// Windows those of its library; without a version there are none.
#[verifier::rlimit(40)]
pub proof fn modules_lie_in_the_managed_python(
    python_root: Seq<char>,
    style: PathStyle,
    lib_dirs: Option<Seq<Seq<char>>>,
)
    requires
        lib_dirs matches Some(names) ==> forall|k: int|
            0 <= k < names.len() ==> prefix_len(style, #[trigger] names[k]) == 0 && !is_rooted(
                style,
                names[k],
            ),
    ensures
        module_dirs(python_root, style, lib_dirs) matches Some(list) ==> list.len() == 3 && forall|
            k: int,
        |
            0 <= k < list.len() ==> starts_with(#[trigger] list[k], python_root),
        style == PathStyle::Windows ==> module_dirs(python_root, style, lib_dirs) is Some,
        style != PathStyle::Windows ==> (module_dirs(python_root, style, lib_dirs) is Some <==> (
        lib_dirs matches Some(names) && version_name(names) is Some)),
        module_dirs(python_root, style, lib_dirs) matches Some(list) ==> ends_with(
            list[2],
            "site-packages"@,
        ),
        module_dirs(python_root, style, lib_dirs) matches Some(list) ==> ends_with(
            list[1],
            if style == PathStyle::Windows {
                "DLLs"@
            } else {
                "lib-dynload"@
            },
        ),
{
    if style == PathStyle::Windows {
        lemma_library_dirs(style, python_root);
    } else if let Some(names) = lib_dirs {
        let at = the_first_version_is_used(names);
        if let Some(name) = version_name(names) {
            lemma_version_dirs(style, python_root, name);
        }
    }
}

proof fn lemma_library_dirs(style: PathStyle, python_root: Seq<char>)
    ensures
        ({
            let library = joined(style, python_root, "Lib"@);
            let dlls = joined(style, python_root, "DLLs"@);
            let packages = joined(style, library, "site-packages"@);
            &&& starts_with(library, python_root)
            &&& starts_with(dlls, python_root) && ends_with(dlls, "DLLs"@)
            &&& starts_with(packages, python_root) && ends_with(packages, "site-packages"@)
        }),
{
    let library = joined(style, python_root, "Lib"@);
    lemma_module_names(style);
    a_join_is_the_directory_and_the_name(style, python_root, "Lib"@);
    a_join_is_the_directory_and_the_name(style, python_root, "DLLs"@);
    a_join_is_the_directory_and_the_name(style, library, "site-packages"@);
    lemma_below(joined(style, library, "site-packages"@), library, python_root);
}

proof fn lemma_version_dirs(style: PathStyle, python_root: Seq<char>, name: Seq<char>)
    requires
        prefix_len(style, name) == 0,
        !is_rooted(style, name),
    ensures
        ({
            let dir = joined(style, joined(style, python_root, "lib"@), name);
            let dynload = joined(style, dir, "lib-dynload"@);
            let packages = joined(style, dir, "site-packages"@);
            &&& starts_with(dir, python_root)
            &&& starts_with(dynload, python_root) && ends_with(dynload, "lib-dynload"@)
            &&& starts_with(packages, python_root) && ends_with(packages, "site-packages"@)
        }),
{
    let library = joined(style, python_root, "lib"@);
    let dir = joined(style, library, name);
    lemma_module_names(style);
    a_join_is_the_directory_and_the_name(style, python_root, "lib"@);
    a_join_is_the_directory_and_the_name(style, library, name);
    lemma_below(dir, library, python_root);
    a_join_is_the_directory_and_the_name(style, dir, "lib-dynload"@);
    lemma_below(joined(style, dir, "lib-dynload"@), dir, python_root);
    a_join_is_the_directory_and_the_name(style, dir, "site-packages"@);
    lemma_below(joined(style, dir, "site-packages"@), dir, python_root);
}

proof fn lemma_below(path: Seq<char>, dir: Seq<char>, root: Seq<char>)
    requires
        starts_with(path, dir),
        starts_with(dir, root),
    ensures
        starts_with(path, root),
{
    assert(path.take(root.len() as int) =~= path.take(dir.len() as int).take(root.len() as int));
}

proof fn lemma_module_names(style: PathStyle)
    ensures
        prefix_len(style, "Lib"@) == 0 && !is_rooted(style, "Lib"@),
        prefix_len(style, "lib"@) == 0 && !is_rooted(style, "lib"@),
        prefix_len(style, "DLLs"@) == 0 && !is_rooted(style, "DLLs"@),
        prefix_len(style, "lib-dynload"@) == 0 && !is_rooted(style, "lib-dynload"@),
        prefix_len(style, "site-packages"@) == 0 && !is_rooted(style, "site-packages"@),
{
    reveal_strlit("Lib");
    reveal_strlit("lib");
    reveal_strlit("DLLs");
    reveal_strlit("lib-dynload");
    reveal_strlit("site-packages");
}

} // verus!
