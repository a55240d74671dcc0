use vstd::prelude::*;
use vstd::string::*;

use crate::command::{interpreter, pip_args, spec_pip_args};
use crate::context::{
    entries_view, last_index_of, lemma_last_index_in_range, lemma_last_index_push_other,
    lemma_set_entry_again, spec_add_cache_dir, spec_set_env, Context, ContextView,
};
use crate::features::{scan_features, spec_scan};
use crate::manifest::{parse_requirements, spec_parse_requirements};
use crate::packages::Package;
use crate::text::{joined, owned, push_string, views};

verus! {

/// The host directory under which the installer caches live; it has to
/// exist before `configure` binds its parts.
pub const CACHE_ROOT: &'static str = "/vagga/root/tmp/pip-cache";

/// A process to run: its arguments, its working directory if it needs one,
/// and the environment variables to add.
pub struct Invocation {
    pub argv: Vec<String>,
    pub workdir: Option<String>,
    pub env: Vec<(String, String)>,
}

/// What an installation takes: the system packages to ensure first, then
/// the installer run.
pub struct InstallPlan {
    pub features: Vec<Package>,
    pub command: Invocation,
}

/// One freeze snapshot: the run whose output is the package list, and the
/// file it is written to.
pub struct FreezeStep {
    pub version: u8,
    pub command: Invocation,
    pub report: String,
}

/// Keeps the installer away from packages that an earlier layer left half
/// installed.
pub open spec fn isolation_env() -> Seq<(Seq<char>, Seq<char>)> {
    seq![("PYTHONPATH"@, "/tmp/non-existent:/tmp/pip-install"@)]
}

pub open spec fn workdir() -> Seq<char> {
    "/work"@
}

fn isolation() -> (r: Vec<(String, String)>)
    ensures
        entries_view(r@) == isolation_env(),
{
    let r = vec![(owned("PYTHONPATH"), owned("/tmp/non-existent:/tmp/pip-install"))];
    assert(entries_view(r@) =~= isolation_env());
    r
}

/// An installer run in the build workspace with the isolating environment.
pub open spec fn install_run(inv: &Invocation, argv: Seq<Seq<char>>) -> bool {
    &&& views(inv.argv@) == argv
    &&& inv.workdir matches Some(w) && w@ == workdir()
    &&& entries_view(inv.env@) == isolation_env()
}

/// The plan to install the packages `pkgs` for interpreter version `ver`.
pub fn pip_install(ctx: &Context, ver: u8, pkgs: &Vec<String>) -> (r: InstallPlan)
    ensures
        r.features@ == spec_scan(ver, views(pkgs@)),
        install_run(&r.command, spec_pip_args(ctx@.settings, ver) + views(pkgs@)),
{
    let features = scan_features(ver, pkgs);
    let mut argv = pip_args(ctx, ver);
    let ghost base = views(argv@);
    for i in 0..pkgs.len()
        invariant
            views(argv@) == base + views(pkgs@).subrange(0, i as int),
    {
        push_string(&mut argv, pkgs[i].clone());
        assert(views(argv@) =~= base + views(pkgs@).subrange(0, i + 1));
    }
    assert(views(pkgs@).subrange(0, pkgs@.len() as int) =~= views(pkgs@));
    InstallPlan {
        features,
        command: Invocation { argv, workdir: Some(owned("/work")), env: isolation() },
    }
}

/// The plan to install what the manifest `manifest` at `reqtxt` (relative
/// to the workspace) requires for interpreter version `ver`: the system
/// packages come from the manifest's specifiers, and the installer reads
/// the file itself.
pub fn pip_requirements(ctx: &Context, ver: u8, reqtxt: &str, manifest: &str) -> (r: InstallPlan)
    ensures
        r.features@ == spec_scan(ver, spec_parse_requirements(manifest@)),
        install_run(
            &r.command,
            spec_pip_args(ctx@.settings, ver) + seq!["--requirement"@, reqtxt@],
        ),
{
    let names = parse_requirements(manifest);
    let features = scan_features(ver, &names);
    let mut argv = pip_args(ctx, ver);
    let ghost base = views(argv@);
    push_string(&mut argv, owned("--requirement"));
    push_string(&mut argv, owned(reqtxt));
    assert(views(argv@) =~= base + seq!["--requirement"@, reqtxt@]);
    InstallPlan {
        features,
        command: Invocation { argv, workdir: Some(owned("/work")), env: isolation() },
    }
}

pub open spec fn http_cache_path() -> Seq<char> {
    "/tmp/pip-cache/http"@
}

pub open spec fn wheels_cache_path() -> Seq<char> {
    "/tmp/pip-cache/wheels"@
}

pub open spec fn wheels_cache_name(ident: Seq<char>) -> Seq<char> {
    "pip-cache-wheels-"@ + ident
}

/// The state after `configure` and its error, if any: the download cache
/// is bound, the wheel cache too (under the build's identity) where the
/// policy keeps wheels, and the installer is pointed at the cache root.
pub open spec fn spec_configure(c: ContextView) -> (ContextView, Option<Seq<char>>) {
    let (c1, e1) = spec_add_cache_dir(c, http_cache_path(), "pip-cache-http"@);
    if e1 is Some {
        (c1, e1)
    } else {
        let (c2, e2) = if c.settings.cache_wheels {
            spec_add_cache_dir(c1, wheels_cache_path(), wheels_cache_name(c.ident))
        } else {
            (c1, None)
        };
        if e2 is Some {
            (c2, e2)
        } else {
            (spec_set_env(c2, "PIP_CACHE_DIR"@, "/tmp/pip-cache"@), None)
        }
    }
}

/// Binds the installer's persistent caches and points the installer at
/// them. The directory `CACHE_ROOT` is expected to exist.
pub fn configure(ctx: &mut Context) -> (r: Result<(), String>)
    ensures
        final(ctx)@ == spec_configure(old(ctx)@).0,
        r is Ok <==> spec_configure(old(ctx)@).1 is None,
        r matches Err(e) ==> spec_configure(old(ctx)@).1 == Some(e@),
{
    ctx.add_cache_dir("/tmp/pip-cache/http", owned("pip-cache-http"))?;
    if ctx.pip_settings.cache_wheels {
        let name = joined("pip-cache-wheels-", ctx.binary_ident.as_str());
        ctx.add_cache_dir("/tmp/pip-cache/wheels", name)?;
    }
    ctx.set_env("PIP_CACHE_DIR", "/tmp/pip-cache");
    Ok(())
}

proof fn lemma_added_dir_stays(c: ContextView, p: Seq<char>, n: Seq<char>)
    requires
        spec_add_cache_dir(c, p, n).1 is None,
    ensures
        ({
            let c1 = spec_add_cache_dir(c, p, n).0;
            &&& last_index_of(c1.cache_dirs, p) matches Some(i) && c1.cache_dirs[i].1 == n
            &&& spec_add_cache_dir(c1, p, n) == (c1, None::<Seq<char>>)
            &&& c1.environ == c.environ && c1.settings == c.settings && c1.ident == c.ident
        }),
{
    lemma_last_index_in_range(c.cache_dirs, p);
    if last_index_of(c.cache_dirs, p) is None {
        let d = c.cache_dirs.push((p, n));
        assert(d.drop_last() =~= c.cache_dirs);
    }
}

/// Binding an already bound path again to the same cache, under another
/// path, changes nothing for it.
proof fn lemma_dir_survives(c: ContextView, p: Seq<char>, n: Seq<char>, q: Seq<char>, m: Seq<char>)
    requires
        p != q,
        last_index_of(c.cache_dirs, p) matches Some(i) && c.cache_dirs[i].1 == n,
        spec_add_cache_dir(c, q, m).1 is None,
    ensures
        spec_add_cache_dir(spec_add_cache_dir(c, q, m).0, p, n) == (
            spec_add_cache_dir(c, q, m).0,
            None::<Seq<char>>,
        ),
{
    if last_index_of(c.cache_dirs, q) is None {
        lemma_last_index_push_other(c.cache_dirs, (q, m), p);
        lemma_last_index_in_range(c.cache_dirs, p);
        let i = last_index_of(c.cache_dirs, p)->Some_0;
        assert(c.cache_dirs.push((q, m))[i] == c.cache_dirs[i]);
    }
}

/// Configuring twice is harmless: once `configure` has succeeded, a second
/// call succeeds too and leaves the build state as it was, with no binding
/// added twice.
pub proof fn lemma_configure_twice(c: ContextView)
    requires
        spec_configure(c).1 is None,
    ensures
        spec_configure(spec_configure(c).0) == (spec_configure(c).0, None::<Seq<char>>),
{
    reveal_strlit("/tmp/pip-cache/http");
    reveal_strlit("/tmp/pip-cache/wheels");
    assert(http_cache_path().len() != wheels_cache_path().len());
    let hn = "pip-cache-http"@;
    let wn = wheels_cache_name(c.ident);
    let c1 = spec_add_cache_dir(c, http_cache_path(), hn).0;
    lemma_added_dir_stays(c, http_cache_path(), hn);
    let c2 = if c.settings.cache_wheels {
        spec_add_cache_dir(c1, wheels_cache_path(), wn).0
    } else {
        c1
    };
    if c.settings.cache_wheels {
        lemma_added_dir_stays(c1, wheels_cache_path(), wn);
        lemma_dir_survives(c1, http_cache_path(), hn, wheels_cache_path(), wn);
    }
    assert(spec_add_cache_dir(c2, http_cache_path(), hn) == (c2, None::<Seq<char>>));
    let c3 = spec_set_env(c2, "PIP_CACHE_DIR"@, "/tmp/pip-cache"@);
    assert(spec_configure(c).0 == c3);
    assert(spec_add_cache_dir(c3, http_cache_path(), hn) == (c3, None::<Seq<char>>));
    if c.settings.cache_wheels {
        assert(spec_add_cache_dir(c3, wheels_cache_path(), wn) == (c3, None::<Seq<char>>));
    }
    lemma_set_entry_again(c2.environ, "PIP_CACHE_DIR"@, "/tmp/pip-cache"@);
    assert(spec_set_env(c3, "PIP_CACHE_DIR"@, "/tmp/pip-cache"@) == c3);
}

/// The interpreter versions whose installer this build has set up, 2
/// before 3.
pub open spec fn frozen_versions(c: ContextView) -> Seq<u8> {
    (if c.features.contains(Package::PipPy2) {
        seq![2u8]
    } else {
        seq![]
    }) + (if c.features.contains(Package::PipPy3) {
        seq![3u8]
    } else {
        seq![]
    })
}

pub open spec fn freeze_args(ver: u8) -> Seq<Seq<char>> {
    seq![interpreter(ver), "-m"@, "pip"@, "freeze"@]
}

/// Where the package list of a version goes in the image.
pub open spec fn report_path(ver: u8) -> Seq<char> {
    if ver == 2 {
        "/vagga/container/pip2-freeze.txt"@
    } else {
        "/vagga/container/pip3-freeze.txt"@
    }
}

pub open spec fn freeze_step_is(s: &FreezeStep, ver: u8) -> bool {
    &&& s.version == ver
    &&& views(s.command.argv@) == freeze_args(ver)
    &&& s.command.workdir is None
    &&& entries_view(s.command.env@) == isolation_env()
    &&& s.report@ == report_path(ver)
}

fn freeze_step(ver: u8) -> (r: FreezeStep)
    ensures
        freeze_step_is(&r, ver),
{
    let mut argv: Vec<String> = Vec::new();
    push_string(&mut argv, owned(if ver == 2 { "python2" } else { "python3" }));
    push_string(&mut argv, owned("-m"));
    push_string(&mut argv, owned("pip"));
    push_string(&mut argv, owned("freeze"));
    assert(views(argv@) =~= freeze_args(ver));
    let report = owned(
        if ver == 2 {
            "/vagga/container/pip2-freeze.txt"
        } else {
            "/vagga/container/pip3-freeze.txt"
        },
    );
    FreezeStep { version: ver, command: Invocation { argv, workdir: None, env: isolation() }, report }
}

/// The snapshots to take at the end of the build: one for each interpreter
/// version whose installer was set up, none for the others.
pub fn freeze(ctx: &Context) -> (r: Vec<FreezeStep>)
    ensures
        r@.len() == frozen_versions(ctx@).len(),
        forall|i: int| 0 <= i < r@.len() ==> freeze_step_is(&r@[i], frozen_versions(ctx@)[i]),
{
    let mut steps: Vec<FreezeStep> = Vec::new();
    if ctx.has_feature(Package::PipPy2) {
        steps.push(freeze_step(2));
    }
    if ctx.has_feature(Package::PipPy3) {
        steps.push(freeze_step(3));
    }
    steps
}

/// A version is frozen, into its own report file, exactly where its
/// installer was recorded as set up: an untouched version gets no step.
pub proof fn lemma_freeze_only_recorded(c: ContextView, ver: u8)
    ensures
        frozen_versions(c).contains(ver) <==> (ver == 2 && c.features.contains(Package::PipPy2))
            || (ver == 3 && c.features.contains(Package::PipPy3)),
        frozen_versions(c).no_duplicates(),
        report_path(2) != report_path(3),
{
    reveal_strlit("/vagga/container/pip2-freeze.txt");
    reveal_strlit("/vagga/container/pip3-freeze.txt");
    assert(report_path(2)[20] != report_path(3)[20]);
    let f = frozen_versions(c);
    if (ver == 2 && c.features.contains(Package::PipPy2)) {
        assert(f[0] == ver);
    }
    if (ver == 3 && c.features.contains(Package::PipPy3)) {
        assert(f[f.len() - 1] == ver);
    }
}

} // verus!
