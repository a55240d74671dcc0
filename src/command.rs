use vstd::prelude::*;
use vstd::string::*;

use crate::context::{Context, ContextView};
use crate::settings::SettingsView;
use crate::text::{joined, owned, push_string, views};

verus! {

pub open spec fn interpreter(ver: u8) -> Seq<char> {
    if ver == 2 {
        "python2"@
    } else {
        "python3"@
    }
}

/// The fixed start of every install command: the installer module of the
/// chosen interpreter, told to reinstall what is present already.
pub open spec fn args_prefix(ver: u8) -> Seq<Seq<char>> {
    seq![interpreter(ver), "-m"@, "pip"@, "install"@, "--ignore-installed"@]
}

pub open spec fn extra_index_arg(u: Seq<char>) -> Seq<char> {
    "--extra-index-url="@ + u
}

/// The first index is the primary one, each other one an extra index, in
/// order.
pub open spec fn index_args(urls: Seq<Seq<char>>) -> Seq<Seq<char>> {
    if urls.len() == 0 {
        seq![]
    } else {
        seq!["--index-url="@ + urls[0]] + urls.drop_first().map_values(|u: Seq<char>| extra_index_arg(u))
    }
}

/// A `--trusted-host` pair for each host, in order.
pub open spec fn host_args(hosts: Seq<Seq<char>>) -> Seq<Seq<char>>
    decreases hosts.len(),
{
    if hosts.len() == 0 {
        seq![]
    } else {
        host_args(hosts.drop_last()) + seq!["--trusted-host"@, hosts.last()]
    }
}

pub open spec fn deps_args(dependencies: bool) -> Seq<Seq<char>> {
    if dependencies {
        seq![]
    } else {
        seq!["--no-deps"@]
    }
}

pub open spec fn link_arg(l: Seq<char>) -> Seq<char> {
    "--find-links="@ + l
}

pub open spec fn link_args(links: Seq<Seq<char>>) -> Seq<Seq<char>> {
    links.map_values(|l: Seq<char>| link_arg(l))
}

/// The installer command line that the policy `s` asks for, before the
/// packages to install.
pub open spec fn spec_pip_args(s: SettingsView, ver: u8) -> Seq<Seq<char>> {
    args_prefix(ver) + index_args(s.index_urls) + host_args(s.trusted_hosts) + deps_args(
        s.dependencies,
    ) + link_args(s.find_links)
}

/// The installer command line for interpreter version `ver` under the
/// build's policy.
pub fn pip_args(ctx: &Context, ver: u8) -> (r: Vec<String>)
    ensures
        views(r@) == spec_pip_args(ctx@.settings, ver),
{
    let s = &ctx.pip_settings;
    let mut args: Vec<String> = Vec::new();
    push_string(&mut args, owned(if ver == 2 { "python2" } else { "python3" }));
    push_string(&mut args, owned("-m"));
    push_string(&mut args, owned("pip"));
    push_string(&mut args, owned("install"));
    push_string(&mut args, owned("--ignore-installed"));
    let ghost prefix = args_prefix(ver);
    assert(views(args@) =~= prefix);

    let urls = &s.index_urls;
    if urls.len() > 0 {
        push_string(&mut args, joined("--index-url=", urls[0].as_str()));
        let ghost uv = views(urls@);
        let ghost first = views(args@);
        for i in 1..urls.len()
            invariant
                uv == views(urls@),
                uv.len() > 0,
                views(args@) == first + uv.subrange(1, i as int).map_values(
                    |u: Seq<char>| extra_index_arg(u),
                ),
        {
            push_string(&mut args, joined("--extra-index-url=", urls[i].as_str()));
            assert(uv.subrange(1, i + 1).map_values(|u: Seq<char>| extra_index_arg(u))
                =~= uv.subrange(1, i as int).map_values(|u: Seq<char>| extra_index_arg(u)).push(
                extra_index_arg(uv[i as int]),
            ));
        }
        assert(uv.subrange(1, uv.len() as int) =~= uv.drop_first());
    }
    let ghost after_index = views(args@);
    assert(after_index == prefix + index_args(s@.index_urls));

    let hosts = &s.trusted_hosts;
    for i in 0..hosts.len()
        invariant
            views(args@) == after_index + host_args(views(hosts@).subrange(0, i as int)),
    {
        push_string(&mut args, owned("--trusted-host"));
        push_string(&mut args, hosts[i].clone());
        proof {
            let hv = views(hosts@).subrange(0, i + 1);
            assert(hv.drop_last() =~= views(hosts@).subrange(0, i as int));
            assert(hv.last() == hosts@[i as int]@);
        }
    }
    assert(views(hosts@).subrange(0, hosts@.len() as int) =~= views(hosts@));
    let ghost after_hosts = views(args@);

    if !s.dependencies {
        push_string(&mut args, owned("--no-deps"));
    }
    let ghost after_deps = views(args@);
    assert(after_deps =~= after_hosts + deps_args(s.dependencies));

    let links = &s.find_links;
    for i in 0..links.len()
        invariant
            views(args@) == after_deps + link_args(views(links@).subrange(0, i as int)),
    {
        push_string(&mut args, joined("--find-links=", links[i].as_str()));
        assert(link_args(views(links@).subrange(0, i + 1)) =~= link_args(
            views(links@).subrange(0, i as int),
        ).push(link_arg(links@[i as int]@)));
    }
    assert(views(links@).subrange(0, links@.len() as int) =~= views(links@));
    assert(views(args@) =~= spec_pip_args(ctx@.settings, ver));
    args
}

/// The command line is a function of the policy and the version alone: two
/// builds with the same policy get the same arguments, and each list of the
/// policy keeps its order.
pub proof fn lemma_pip_args_deterministic(a: ContextView, b: ContextView, ver: u8)
    requires
        a.settings == b.settings,
    ensures
        spec_pip_args(a.settings, ver) == spec_pip_args(b.settings, ver),
        a.settings.index_urls.len() > 0 ==> index_args(a.settings.index_urls).len()
            == a.settings.index_urls.len() && forall|k: int|
            1 <= k < a.settings.index_urls.len() ==> #[trigger] index_args(
                a.settings.index_urls,
            )[k] == extra_index_arg(a.settings.index_urls[k]),
        forall|k: int|
            0 <= k < a.settings.find_links.len() ==> #[trigger] link_args(
                a.settings.find_links,
            )[k] == link_arg(a.settings.find_links[k]),
{
}

/// Three indexes give one primary index flag for the first, then an extra
/// index flag for the second and one for the third.
pub proof fn lemma_three_indexes(s: SettingsView, ver: u8, a: Seq<char>, b: Seq<char>, c: Seq<char>)
    requires
        s.index_urls == seq![a, b, c],
    ensures
        index_args(s.index_urls) == seq![
            "--index-url="@ + a,
            "--extra-index-url="@ + b,
            "--extra-index-url="@ + c,
        ],
        spec_pip_args(s, ver) == args_prefix(ver) + seq![
            "--index-url="@ + a,
            "--extra-index-url="@ + b,
            "--extra-index-url="@ + c,
        ] + host_args(s.trusted_hosts) + deps_args(s.dependencies) + link_args(s.find_links),
{
    assert(index_args(s.index_urls) =~= seq![
        "--index-url="@ + a,
        "--extra-index-url="@ + b,
        "--extra-index-url="@ + c,
    ]);
}

/// How many times `x` stands in `s`.
pub open spec fn count_of(s: Seq<Seq<char>>, x: Seq<char>) -> nat
    decreases s.len(),
{
    if s.len() == 0 {
        0
    } else {
        count_of(s.drop_last(), x) + if s.last() == x {
            1nat
        } else {
            0nat
        }
    }
}

proof fn lemma_count_concat(a: Seq<Seq<char>>, b: Seq<Seq<char>>, x: Seq<char>)
    ensures
        count_of(a + b, x) == count_of(a, x) + count_of(b, x),
    decreases b.len(),
{
    if b.len() > 0 {
        assert((a + b).drop_last() =~= a + b.drop_last());
        lemma_count_concat(a, b.drop_last(), x);
    }
}

proof fn lemma_count_absent(s: Seq<Seq<char>>, x: Seq<char>)
    requires
        forall|k: int| 0 <= k < s.len() ==> s[k] != x,
    ensures
        count_of(s, x) == 0,
    decreases s.len(),
{
    if s.len() > 0 {
        lemma_count_absent(s.drop_last(), x);
    }
}

proof fn lemma_host_args_items(hosts: Seq<Seq<char>>)
    ensures
        forall|k: int|
            0 <= k < host_args(hosts).len() ==> #[trigger] host_args(hosts)[k] == "--trusted-host"@
                || hosts.contains(host_args(hosts)[k]),
    decreases hosts.len(),
{
    if hosts.len() > 0 {
        let init = hosts.drop_last();
        lemma_host_args_items(init);
        let h = host_args(hosts);
        let hi = host_args(init);
        assert forall|k: int| 0 <= k < h.len() implies #[trigger] h[k] == "--trusted-host"@
            || hosts.contains(h[k]) by {
            if k < hi.len() {
                assert(h[k] == hi[k]);
                if init.contains(hi[k]) {
                    let j = choose|j: int| 0 <= j < init.len() && init[j] == hi[k];
                    assert(hosts[j] == init[j]);
                }
            } else if k == hi.len() {
                assert(h[k] == "--trusted-host"@);
            } else {
                assert(h[k] == hosts[hosts.len() - 1]);
            }
        }
    }
}

/// The flag that keeps transitive dependencies out stands exactly once
/// when they are not followed and not at all when they are (no trusted host
/// being named like the flag itself).
pub proof fn lemma_no_deps_flag(s: SettingsView, ver: u8)
    requires
        !s.trusted_hosts.contains("--no-deps"@),
    ensures
        count_of(spec_pip_args(s, ver), "--no-deps"@) == (if s.dependencies {
            0nat
        } else {
            1nat
        }),
{
    reveal_strlit("--no-deps");
    reveal_strlit("python2");
    reveal_strlit("python3");
    reveal_strlit("-m");
    reveal_strlit("pip");
    reveal_strlit("install");
    reveal_strlit("--ignore-installed");
    reveal_strlit("--index-url=");
    reveal_strlit("--extra-index-url=");
    reveal_strlit("--trusted-host");
    reveal_strlit("--find-links=");
    let x = "--no-deps"@;
    let p = args_prefix(ver);
    let i = index_args(s.index_urls);
    let h = host_args(s.trusted_hosts);
    let d = deps_args(s.dependencies);
    let l = link_args(s.find_links);
    assert forall|k: int| 0 <= k < p.len() implies p[k] != x by {
        assert(p[k].len() != x.len());
    }
    assert forall|k: int| 0 <= k < i.len() implies i[k] != x by {
        assert(i[k].len() != x.len());
    }
    lemma_host_args_items(s.trusted_hosts);
    assert forall|k: int| 0 <= k < h.len() implies h[k] != x by {
        if h[k] == "--trusted-host"@ {
            assert(h[k].len() != x.len());
        }
    }
    assert forall|k: int| 0 <= k < l.len() implies l[k] != x by {
        assert(l[k].len() != x.len());
    }
    lemma_count_absent(p, x);
    lemma_count_absent(i, x);
    lemma_count_absent(h, x);
    lemma_count_absent(l, x);
    lemma_count_concat(p, i, x);
    lemma_count_concat(p + i, h, x);
    lemma_count_concat(p + i + h, d, x);
    lemma_count_concat(p + i + h + d, l, x);
    if !s.dependencies {
        assert(d.drop_last() =~= Seq::<Seq<char>>::empty());
        assert(count_of(d.drop_last(), x) == 0);
        assert(count_of(d, x) == 1);
    } else {
        assert(count_of(d, x) == 0);
    }
}

} // verus!
