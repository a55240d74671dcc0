use vstd::prelude::*;

use crate::packages::Package;
use crate::text::{has_prefix, spec_has_prefix, views};

verus! {

/// How a requirement specifier names its source, by its prefix.
#[derive(Clone, Copy, Debug, PartialEq, Eq, Structural)]
pub enum SourceKind {
    GitHttps,
    Git,
    HgHttps,
    Hg,
    Plain,
}

/// The prefix rules, most specific first; the first that matches decides.
pub open spec fn spec_classify(s: Seq<char>) -> SourceKind {
    if spec_has_prefix(s, "git+https"@) {
        SourceKind::GitHttps
    } else if spec_has_prefix(s, "git+"@) {
        SourceKind::Git
    } else if spec_has_prefix(s, "hg+https"@) {
        SourceKind::HgHttps
    } else if spec_has_prefix(s, "hg+"@) {
        SourceKind::Hg
    } else {
        SourceKind::Plain
    }
}

impl SourceKind {
    /// The system packages that fetching from such a source needs.
    pub open spec fn spec_required(self) -> Seq<Package> {
        match self {
            SourceKind::GitHttps => seq![Package::Git, Package::Https],
            SourceKind::Git => seq![Package::Git],
            SourceKind::HgHttps => seq![Package::Mercurial, Package::Https],
            SourceKind::Hg => seq![Package::Mercurial],
            SourceKind::Plain => seq![],
        }
    }

    pub fn required_packages(&self) -> (r: Vec<Package>)
        ensures
            r@ == self.spec_required(),
    {
        match self {
            SourceKind::GitHttps => vec![Package::Git, Package::Https],
            SourceKind::Git => vec![Package::Git],
            SourceKind::HgHttps => vec![Package::Mercurial, Package::Https],
            SourceKind::Hg => vec![Package::Mercurial],
            SourceKind::Plain => vec![],
        }
    }
}

pub fn classify(name: &str) -> (r: SourceKind)
    ensures
        r == spec_classify(name@),
{
    if has_prefix(name, "git+https") {
        SourceKind::GitHttps
    } else if has_prefix(name, "git+") {
        SourceKind::Git
    } else if has_prefix(name, "hg+https") {
        SourceKind::HgHttps
    } else if has_prefix(name, "hg+") {
        SourceKind::Hg
    } else {
        SourceKind::Plain
    }
}

/// The interpreter package of a version selector: 2 picks Python 2, any
/// other value Python 3.
pub open spec fn runtime(ver: u8) -> Package {
    if ver == 2 { Package::Python2 } else { Package::Python3 }
}

pub open spec fn headers(ver: u8) -> Package {
    if ver == 2 { Package::Python2Dev } else { Package::Python3Dev }
}

pub open spec fn installer(ver: u8) -> Package {
    if ver == 2 { Package::PipPy2 } else { Package::PipPy3 }
}

/// What every installation for `ver` needs, whatever it installs.
pub open spec fn baseline(ver: u8) -> Seq<Package> {
    seq![Package::BuildEssential, runtime(ver), headers(ver), installer(ver)]
}

pub open spec fn specifier_packages(s: Seq<char>) -> Seq<Package> {
    spec_classify(s).spec_required()
}

/// The packages that the specifiers add, in their order.
pub open spec fn specifiers_packages(ss: Seq<Seq<char>>) -> Seq<Package>
    decreases ss.len(),
{
    if ss.len() == 0 {
        seq![]
    } else {
        specifiers_packages(ss.drop_last()) + specifier_packages(ss.last())
    }
}

pub open spec fn spec_scan(ver: u8, ss: Seq<Seq<char>>) -> Seq<Package> {
    baseline(ver) + specifiers_packages(ss)
}

/// The system packages needed to install `pkgs` for interpreter version
/// `ver`: the baseline first, then what each specifier adds, in order.
pub fn scan_features(ver: u8, pkgs: &Vec<String>) -> (r: Vec<Package>)
    ensures
        r@ == spec_scan(ver, views(pkgs@)),
{
    let mut res: Vec<Package> = Vec::new();
    res.push(Package::BuildEssential);
    if ver == 2 {
        res.push(Package::Python2);
        res.push(Package::Python2Dev);
        res.push(Package::PipPy2);
    } else {
        res.push(Package::Python3);
        res.push(Package::Python3Dev);
        res.push(Package::PipPy3);
    }
    assert(res@ =~= spec_scan(ver, views(pkgs@).subrange(0, 0)));
    for i in 0..pkgs.len()
        invariant
            res@ == spec_scan(ver, views(pkgs@).subrange(0, i as int)),
    {
        let kind = classify(pkgs[i].as_str());
        let mut extra = kind.required_packages();
        res.append(&mut extra);
        proof {
            let ss = views(pkgs@).subrange(0, i + 1);
            assert(ss.drop_last() =~= views(pkgs@).subrange(0, i as int));
            assert(ss.last() == pkgs@[i as int]@);
            assert(res@ =~= spec_scan(ver, ss));
        }
    }
    assert(views(pkgs@).subrange(0, pkgs@.len() as int) =~= views(pkgs@));
    res
}

proof fn lemma_specifiers_contains(ss: Seq<Seq<char>>, p: Package)
    ensures
        specifiers_packages(ss).contains(p) <==> exists|i: int|
            0 <= i < ss.len() && #[trigger] specifier_packages(ss[i]).contains(p),
    decreases ss.len(),
{
    if ss.len() > 0 {
        let init = ss.drop_last();
        lemma_specifiers_contains(init, p);
        let a = specifiers_packages(init);
        let b = specifier_packages(ss.last());
        if specifiers_packages(ss).contains(p) {
            let k = choose|k: int| 0 <= k < (a + b).len() && (a + b)[k] == p;
            if k < a.len() {
                assert(a[k] == p);
                let i = choose|i: int| 0 <= i < init.len() && #[trigger] specifier_packages(init[i]).contains(p);
                assert(ss[i] == init[i]);
            } else {
                assert(b[k - a.len()] == p);
                assert(specifier_packages(ss[ss.len() - 1]).contains(p));
            }
        }
        if exists|i: int| 0 <= i < ss.len() && #[trigger] specifier_packages(ss[i]).contains(p) {
            let i = choose|i: int| 0 <= i < ss.len() && #[trigger] specifier_packages(ss[i]).contains(p);
            if i < ss.len() - 1 {
                assert(init[i] == ss[i]);
                let k = choose|k: int| 0 <= k < a.len() && a[k] == p;
                assert((a + b)[k] == p);
            } else {
                let k = choose|k: int| 0 <= k < b.len() && b[k] == p;
                assert((a + b)[a.len() + k] == p);
            }
        }
    }
}

/// With no specifiers the scan gives the baseline of the version and
/// nothing else: the build toolchain, the interpreter, its headers and its
/// installer.
pub proof fn lemma_scan_without_specifiers(ver: u8)
    ensures
        spec_scan(ver, seq![]) == baseline(ver),
        forall|p: Package|
            spec_scan(ver, seq![]).contains(p) <==> (p == Package::BuildEssential || p == runtime(
                ver,
            ) || p == headers(ver) || p == installer(ver)),
{
    assert(spec_scan(ver, seq![]) =~= baseline(ver));
    assert forall|p: Package|
        spec_scan(ver, seq![]).contains(p) <==> (p == Package::BuildEssential || p == runtime(ver)
            || p == headers(ver) || p == installer(ver)) by {
        let b = baseline(ver);
        if p == Package::BuildEssential {
            assert(b[0] == p);
        }
        if p == runtime(ver) {
            assert(b[1] == p);
        }
        if p == headers(ver) {
            assert(b[2] == p);
        }
        if p == installer(ver) {
            assert(b[3] == p);
        }
    }
}

/// The baseline is always part of the scan: specifiers only add.
pub proof fn lemma_scan_keeps_baseline(ver: u8, ss: Seq<Seq<char>>)
    ensures
        spec_scan(ver, ss).subrange(0, 4) == baseline(ver),
{
    assert(spec_scan(ver, ss).subrange(0, 4) =~= baseline(ver));
}

/// A specifier fetched by git over https brings in both git and https
/// support.
pub proof fn lemma_git_https_needs_git_and_tls(ver: u8, ss: Seq<Seq<char>>, i: int)
    requires
        0 <= i < ss.len(),
        spec_has_prefix(ss[i], "git+https"@),
    ensures
        spec_scan(ver, ss).contains(Package::Git),
        spec_scan(ver, ss).contains(Package::Https),
{
    let r = specifier_packages(ss[i]);
    assert(r == seq![Package::Git, Package::Https]);
    assert(r[0] == Package::Git && r[1] == Package::Https);
    assert(specifier_packages(ss[i]).contains(Package::Git));
    assert(specifier_packages(ss[i]).contains(Package::Https));
    lemma_specifiers_contains(ss, Package::Git);
    lemma_specifiers_contains(ss, Package::Https);
    let b = baseline(ver);
    let s = specifiers_packages(ss);
    let k0 = choose|k: int| 0 <= k < s.len() && s[k] == Package::Git;
    let k1 = choose|k: int| 0 <= k < s.len() && s[k] == Package::Https;
    assert(spec_scan(ver, ss)[b.len() + k0] == Package::Git);
    assert(spec_scan(ver, ss)[b.len() + k1] == Package::Https);
}

/// A mercurial specifier that is not fetched over https brings in
/// mercurial, and https support only where another specifier asks for it.
pub proof fn lemma_plain_hg_needs_mercurial_only(ver: u8, ss: Seq<Seq<char>>, i: int)
    requires
        0 <= i < ss.len(),
        spec_has_prefix(ss[i], "hg+"@),
        !spec_has_prefix(ss[i], "hg+https"@),
    ensures
        spec_scan(ver, ss).contains(Package::Mercurial),
        spec_scan(ver, ss).contains(Package::Https) ==> exists|j: int|
            0 <= j < ss.len() && j != i && #[trigger] specifier_packages(ss[j]).contains(
                Package::Https,
            ),
{
    reveal_strlit("hg+");
    reveal_strlit("git+");
    reveal_strlit("git+https");
    let s = ss[i];
    assert(s[0] == "hg+"@[0]);
    assert(!spec_has_prefix(s, "git+https"@)) by {
        if spec_has_prefix(s, "git+https"@) {
            assert(s[0] == "git+https"@[0]);
        }
    }
    assert(!spec_has_prefix(s, "git+"@)) by {
        if spec_has_prefix(s, "git+"@) {
            assert(s[0] == "git+"@[0]);
        }
    }
    let r = specifier_packages(s);
    assert(r == seq![Package::Mercurial]);
    assert(r[0] == Package::Mercurial);
    assert(specifier_packages(ss[i]).contains(Package::Mercurial));
    lemma_specifiers_contains(ss, Package::Mercurial);
    lemma_specifiers_contains(ss, Package::Https);
    let b = baseline(ver);
    let sp = specifiers_packages(ss);
    let k0 = choose|k: int| 0 <= k < sp.len() && sp[k] == Package::Mercurial;
    assert(spec_scan(ver, ss)[b.len() + k0] == Package::Mercurial);
    if spec_scan(ver, ss).contains(Package::Https) {
        let k = choose|k: int| 0 <= k < spec_scan(ver, ss).len() && spec_scan(ver, ss)[k] == Package::Https;
        assert(k >= 4);
        assert(sp[k - 4] == Package::Https);
        let j = choose|j: int| 0 <= j < ss.len() && #[trigger] specifier_packages(ss[j]).contains(Package::Https);
        if j == i {
            let m = choose|m: int| 0 <= m < r.len() && r[m] == Package::Https;
            assert(false);
        }
    }
}

} // verus!
