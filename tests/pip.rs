use pip_provision::command::pip_args;
use pip_provision::context::Context;
use pip_provision::features::{classify, scan_features, SourceKind};
use pip_provision::manifest::{lines_of, parse_requirements, requirement_from_trimmed};
use pip_provision::packages::Package;
use pip_provision::pip::{configure, freeze, pip_install, pip_requirements};
use pip_provision::settings::PipSettings;

fn strings(items: &[&str]) -> Vec<String> {
    items.iter().map(|s| s.to_string()).collect()
}

fn ctx_with(settings: PipSettings) -> Context {
    Context::new(settings, "build-7".to_string())
}

#[test]
fn scan_empty_python2_is_baseline() {
    let r = scan_features(2, &Vec::new());
    assert_eq!(
        r,
        vec![Package::BuildEssential, Package::Python2, Package::Python2Dev, Package::PipPy2]
    );
}

#[test]
fn scan_empty_python3_is_baseline() {
    let r = scan_features(3, &Vec::new());
    assert_eq!(
        r,
        vec![Package::BuildEssential, Package::Python3, Package::Python3Dev, Package::PipPy3]
    );
}

#[test]
fn scan_git_https_adds_git_and_tls() {
    let r = scan_features(3, &strings(&["flask", "git+https://example.org/repo.git"]));
    assert!(r.contains(&Package::Git));
    assert!(r.contains(&Package::Https));
    assert_eq!(&r[..4], &[Package::BuildEssential, Package::Python3, Package::Python3Dev, Package::PipPy3]);
    assert_eq!(r.len(), 6);
}

#[test]
fn scan_plain_hg_adds_mercurial_only() {
    let r = scan_features(2, &strings(&["hg+http://example.org/repo"]));
    assert!(r.contains(&Package::Mercurial));
    assert!(!r.contains(&Package::Https));
    assert_eq!(r.len(), 5);
}

#[test]
fn scan_plain_hg_with_other_tls_source() {
    let r = scan_features(2, &strings(&["hg+ssh://example.org/repo", "hg+https://example.org/other"]));
    assert_eq!(
        r,
        vec![
            Package::BuildEssential,
            Package::Python2,
            Package::Python2Dev,
            Package::PipPy2,
            Package::Mercurial,
            Package::Mercurial,
            Package::Https,
        ]
    );
}

#[test]
fn scan_keeps_specifier_order() {
    let r = scan_features(3, &strings(&["git+ssh://a", "requests", "hg+https://b", "git+https://c"]));
    assert_eq!(
        &r[4..],
        &[Package::Git, Package::Mercurial, Package::Https, Package::Git, Package::Https]
    );
}

#[test]
fn classify_prefix_rules() {
    assert_eq!(classify("git+https://x"), SourceKind::GitHttps);
    assert_eq!(classify("git+git://x"), SourceKind::Git);
    assert_eq!(classify("hg+https://x"), SourceKind::HgHttps);
    assert_eq!(classify("hg+http://x"), SourceKind::Hg);
    assert_eq!(classify("https://example.org/pkg.tar.gz"), SourceKind::Plain);
    assert_eq!(classify("git"), SourceKind::Plain);
    assert_eq!(classify(""), SourceKind::Plain);
    assert_eq!(SourceKind::GitHttps.required_packages(), vec![Package::Git, Package::Https]);
    assert_eq!(SourceKind::Plain.required_packages(), Vec::<Package>::new());
}

#[test]
fn settings_default_policy() {
    let s = PipSettings::default();
    assert!(s.find_links.is_empty());
    assert!(s.index_urls.is_empty());
    assert!(s.trusted_hosts.is_empty());
    assert!(!s.dependencies);
    assert!(s.cache_wheels);
}

#[test]
fn pip_args_default_policy() {
    let ctx = ctx_with(PipSettings::default());
    assert_eq!(
        pip_args(&ctx, 2),
        strings(&["python2", "-m", "pip", "install", "--ignore-installed", "--no-deps"])
    );
    assert_eq!(
        pip_args(&ctx, 3),
        strings(&["python3", "-m", "pip", "install", "--ignore-installed", "--no-deps"])
    );
}

#[test]
fn pip_args_full_policy() {
    let settings = PipSettings {
        find_links: strings(&["/wheels", "/more"]),
        index_urls: strings(&["http://a/simple"]),
        trusted_hosts: strings(&["a", "b"]),
        dependencies: true,
        cache_wheels: true,
    };
    let ctx = ctx_with(settings);
    assert_eq!(
        pip_args(&ctx, 3),
        strings(&[
            "python3",
            "-m",
            "pip",
            "install",
            "--ignore-installed",
            "--index-url=http://a/simple",
            "--trusted-host",
            "a",
            "--trusted-host",
            "b",
            "--find-links=/wheels",
            "--find-links=/more",
        ])
    );
}

#[test]
fn pip_args_repeatable() {
    let mk = || PipSettings {
        find_links: strings(&["/l"]),
        index_urls: strings(&["A", "B"]),
        trusted_hosts: strings(&["h"]),
        dependencies: false,
        cache_wheels: false,
    };
    let a = ctx_with(mk());
    let b = Context::new(mk(), "another".to_string());
    assert_eq!(pip_args(&a, 3), pip_args(&a, 3));
    assert_eq!(pip_args(&a, 3), pip_args(&b, 3));
}

#[test]
fn pip_args_three_indexes() {
    let mut settings = PipSettings::default();
    settings.index_urls = strings(&["A", "B", "C"]);
    let args = pip_args(&ctx_with(settings), 3);
    let primary: Vec<&String> = args.iter().filter(|a| a.starts_with("--index-url=")).collect();
    let extra: Vec<&String> = args.iter().filter(|a| a.starts_with("--extra-index-url=")).collect();
    assert_eq!(primary, vec!["--index-url=A"]);
    assert_eq!(extra, vec!["--extra-index-url=B", "--extra-index-url=C"]);
    assert_eq!(&args[5..8], &strings(&["--index-url=A", "--extra-index-url=B", "--extra-index-url=C"])[..]);
}

#[test]
fn no_deps_flag_once_by_default() {
    let mut settings = PipSettings::default();
    settings.trusted_hosts = strings(&["h1", "h2"]);
    let args = pip_args(&ctx_with(settings), 2);
    assert_eq!(args.iter().filter(|a| *a == "--no-deps").count(), 1);
}

#[test]
fn no_deps_flag_absent_when_following() {
    let mut settings = PipSettings::default();
    settings.dependencies = true;
    let args = pip_args(&ctx_with(settings), 2);
    assert_eq!(args.iter().filter(|a| *a == "--no-deps").count(), 0);
}

#[test]
fn parse_manifest_blank_comment_two_specs() {
    let text = "\n  flask==1.0  \n\n# a comment\n\t requests \n\n";
    assert_eq!(parse_requirements(text), strings(&["flask==1.0", "requests"]));
}

#[test]
fn parse_manifest_trims_and_keeps_hash_inside() {
    let text = "   # indented comment\r\n  pkg#egg=x\r\nlast";
    assert_eq!(parse_requirements(text), strings(&["pkg#egg=x", "last"]));
}

#[test]
fn parse_manifest_empty() {
    assert_eq!(parse_requirements(""), Vec::<String>::new());
}

#[test]
fn lines_of_splits_at_newlines() {
    assert_eq!(lines_of("a\nb\n"), strings(&["a", "b", ""]));
    assert_eq!(lines_of(""), strings(&[""]));
    assert_eq!(lines_of("é\n\nz"), strings(&["é", "", "z"]));
}

#[test]
fn requirement_from_trimmed_cases() {
    assert_eq!(requirement_from_trimmed(""), None);
    assert_eq!(requirement_from_trimmed("# x"), None);
    assert_eq!(requirement_from_trimmed("six"), Some("six".to_string()));
}

#[test]
fn set_env_replaces_value() {
    let mut ctx = ctx_with(PipSettings::default());
    ctx.set_env("A", "1");
    ctx.set_env("B", "2");
    ctx.set_env("A", "3");
    assert_eq!(ctx.environ, vec![("A".to_string(), "3".to_string()), ("B".to_string(), "2".to_string())]);
    assert_eq!(ctx.env_value("A"), Some("3".to_string()));
    assert_eq!(ctx.env_value("C"), None);
}

#[test]
fn add_cache_dir_conflict_is_error() {
    let mut ctx = ctx_with(PipSettings::default());
    assert_eq!(ctx.add_cache_dir("/tmp/x", "one".to_string()), Ok(()));
    assert_eq!(ctx.add_cache_dir("/tmp/x", "one".to_string()), Ok(()));
    assert_eq!(
        ctx.add_cache_dir("/tmp/x", "two".to_string()),
        Err("Cache dir /tmp/x is already used as one".to_string())
    );
    assert_eq!(ctx.cache_dirs.len(), 1);
}

#[test]
fn configure_binds_caches_and_env() {
    let mut ctx = ctx_with(PipSettings::default());
    assert_eq!(configure(&mut ctx), Ok(()));
    assert_eq!(
        ctx.cache_dirs,
        vec![
            ("/tmp/pip-cache/http".to_string(), "pip-cache-http".to_string()),
            ("/tmp/pip-cache/wheels".to_string(), "pip-cache-wheels-build-7".to_string()),
        ]
    );
    assert_eq!(ctx.env_value("PIP_CACHE_DIR"), Some("/tmp/pip-cache".to_string()));
}

#[test]
fn configure_without_wheel_cache() {
    let mut settings = PipSettings::default();
    settings.cache_wheels = false;
    let mut ctx = ctx_with(settings);
    assert_eq!(configure(&mut ctx), Ok(()));
    assert_eq!(
        ctx.cache_dirs,
        vec![("/tmp/pip-cache/http".to_string(), "pip-cache-http".to_string())]
    );
}

#[test]
fn configure_twice_no_duplicates() {
    let mut ctx = ctx_with(PipSettings::default());
    assert_eq!(configure(&mut ctx), Ok(()));
    let dirs = ctx.cache_dirs.clone();
    let env = ctx.environ.clone();
    assert_eq!(configure(&mut ctx), Ok(()));
    assert_eq!(ctx.cache_dirs, dirs);
    assert_eq!(ctx.environ, env);
    assert_eq!(ctx.cache_dirs.len(), 2);
}

#[test]
fn configure_conflicting_binding_fails() {
    let mut ctx = ctx_with(PipSettings::default());
    ctx.add_cache_dir("/tmp/pip-cache/http", "other".to_string()).unwrap();
    assert_eq!(
        configure(&mut ctx),
        Err("Cache dir /tmp/pip-cache/http is already used as other".to_string())
    );
    assert_eq!(ctx.env_value("PIP_CACHE_DIR"), None);
}

#[test]
fn freeze_only_recorded_versions() {
    let mut ctx = ctx_with(PipSettings::default());
    assert!(freeze(&ctx).is_empty());
    ctx.add_feature(Package::PipPy3);
    ctx.add_feature(Package::PipPy3);
    assert_eq!(ctx.featured_packages, vec![Package::PipPy3]);
    let steps = freeze(&ctx);
    assert_eq!(steps.len(), 1);
    assert_eq!(steps[0].version, 3);
    assert_eq!(steps[0].report, "/vagga/container/pip3-freeze.txt");
    assert_eq!(steps[0].command.argv, strings(&["python3", "-m", "pip", "freeze"]));
    assert_eq!(steps[0].command.workdir, None);
    ctx.add_feature(Package::PipPy2);
    let steps = freeze(&ctx);
    assert_eq!(steps.len(), 2);
    assert_eq!(steps[0].report, "/vagga/container/pip2-freeze.txt");
    assert_eq!(steps[1].report, "/vagga/container/pip3-freeze.txt");
}

#[test]
fn pip_install_plan() {
    let ctx = ctx_with(PipSettings::default());
    let plan = pip_install(&ctx, 3, &strings(&["git+https://x/y.git", "six"]));
    assert_eq!(
        plan.features,
        vec![
            Package::BuildEssential,
            Package::Python3,
            Package::Python3Dev,
            Package::PipPy3,
            Package::Git,
            Package::Https,
        ]
    );
    assert_eq!(
        plan.command.argv,
        strings(&[
            "python3",
            "-m",
            "pip",
            "install",
            "--ignore-installed",
            "--no-deps",
            "git+https://x/y.git",
            "six",
        ])
    );
    assert_eq!(plan.command.workdir, Some("/work".to_string()));
    assert_eq!(
        plan.command.env,
        vec![("PYTHONPATH".to_string(), "/tmp/non-existent:/tmp/pip-install".to_string())]
    );
}

#[test]
fn pip_requirements_plan() {
    let ctx = ctx_with(PipSettings::default());
    let plan = pip_requirements(&ctx, 2, "requirements.txt", "# deps\nhg+https://h/r\n\nsix\n");
    assert_eq!(
        plan.features,
        vec![
            Package::BuildEssential,
            Package::Python2,
            Package::Python2Dev,
            Package::PipPy2,
            Package::Mercurial,
            Package::Https,
        ]
    );
    assert_eq!(
        plan.command.argv,
        strings(&[
            "python2",
            "-m",
            "pip",
            "install",
            "--ignore-installed",
            "--no-deps",
            "--requirement",
            "requirements.txt",
        ])
    );
    assert_eq!(plan.command.workdir, Some("/work".to_string()));
}
