use vstd::prelude::*;
use vstd::string::*;

use crate::packages::Package;
use crate::settings::{PipSettings, SettingsView};
use crate::text::{joined, owned};

verus! {

/// The state of one build that installer steps read and update.
pub struct Context {
    pub pip_settings: PipSettings,
    /// Environment overrides for the final image, as (name, value) pairs.
    pub environ: Vec<(String, String)>,
    /// Persistent cache bindings, as (path in the build, cache name) pairs.
    pub cache_dirs: Vec<(String, String)>,
    /// System packages installed so far.
    pub featured_packages: Vec<Package>,
    /// Identity of the build, used to keep its wheel cache apart.
    pub binary_ident: String,
}

pub ghost struct ContextView {
    pub settings: SettingsView,
    pub environ: Seq<(Seq<char>, Seq<char>)>,
    pub cache_dirs: Seq<(Seq<char>, Seq<char>)>,
    pub features: Seq<Package>,
    pub ident: Seq<char>,
}

pub open spec fn entries_view(v: Seq<(String, String)>) -> Seq<(Seq<char>, Seq<char>)> {
    v.map_values(|e: (String, String)| (e.0@, e.1@))
}

impl View for Context {
    type V = ContextView;

    open spec fn view(&self) -> ContextView {
        ContextView {
            settings: self.pip_settings@,
            environ: entries_view(self.environ@),
            cache_dirs: entries_view(self.cache_dirs@),
            features: self.featured_packages@,
            ident: self.binary_ident@,
        }
    }
}

/// The position of the last entry whose key is `key`: that entry is the one
/// in force.
pub open spec fn last_index_of(d: Seq<(Seq<char>, Seq<char>)>, key: Seq<char>) -> Option<int>
    decreases d.len(),
{
    if d.len() == 0 {
        None
    } else if d.last().0 == key {
        Some(d.len() - 1)
    } else {
        last_index_of(d.drop_last(), key)
    }
}

/// The value that `key` has in `d`, if any.
pub open spec fn lookup(d: Seq<(Seq<char>, Seq<char>)>, key: Seq<char>) -> Option<Seq<char>> {
    match last_index_of(d, key) {
        Some(i) => Some(d[i].1),
        None => None,
    }
}

/// `d` with `key` set to `value`: the entry in force is replaced, or a new
/// one is added at the end.
pub open spec fn set_entry(d: Seq<(Seq<char>, Seq<char>)>, key: Seq<char>, value: Seq<char>) -> Seq<
    (Seq<char>, Seq<char>),
> {
    match last_index_of(d, key) {
        Some(i) => d.update(i, (key, value)),
        None => d.push((key, value)),
    }
}

pub open spec fn spec_set_env(c: ContextView, key: Seq<char>, value: Seq<char>) -> ContextView {
    ContextView { environ: set_entry(c.environ, key, value), ..c }
}

pub open spec fn conflict_message(path: Seq<char>, existing: Seq<char>) -> Seq<char> {
    "Cache dir "@ + path + " is already used as "@ + existing
}

/// Binding `path` to the cache `name`: added where the path is free, kept
/// where it is bound to that name already, refused where it is bound to
/// another. The second component is the error, if any.
pub open spec fn spec_add_cache_dir(c: ContextView, path: Seq<char>, name: Seq<char>) -> (
    ContextView,
    Option<Seq<char>>,
) {
    match last_index_of(c.cache_dirs, path) {
        None => (ContextView { cache_dirs: c.cache_dirs.push((path, name)), ..c }, None),
        Some(i) => if c.cache_dirs[i].1 == name {
            (c, None)
        } else {
            (c, Some(conflict_message(path, c.cache_dirs[i].1)))
        },
    }
}

pub proof fn lemma_last_index_in_range(d: Seq<(Seq<char>, Seq<char>)>, key: Seq<char>)
    ensures
        last_index_of(d, key) matches Some(i) ==> 0 <= i < d.len() && d[i].0 == key,
        last_index_of(d, key) is None ==> forall|j: int| 0 <= j < d.len() ==> d[j].0 != key,
    decreases d.len(),
{
    if d.len() > 0 && d.last().0 != key {
        lemma_last_index_in_range(d.drop_last(), key);
        assert forall|j: int| 0 <= j < d.len() - 1 implies d[j] == d.drop_last()[j] by {}
    }
}

/// Replacing the value of the entry in force leaves it in force.
pub proof fn lemma_last_index_update(
    d: Seq<(Seq<char>, Seq<char>)>,
    key: Seq<char>,
    value: Seq<char>,
    i: int,
)
    requires
        last_index_of(d, key) == Some(i),
    ensures
        last_index_of(d.update(i, (key, value)), key) == Some(i),
    decreases d.len(),
{
    lemma_last_index_in_range(d, key);
    let u = d.update(i, (key, value));
    if i < d.len() - 1 {
        assert(u.drop_last() =~= d.drop_last().update(i, (key, value)));
        lemma_last_index_update(d.drop_last(), key, value, i);
    }
}

/// An entry added under another key leaves the one in force for `key`.
pub proof fn lemma_last_index_push_other(
    d: Seq<(Seq<char>, Seq<char>)>,
    e: (Seq<char>, Seq<char>),
    key: Seq<char>,
)
    requires
        e.0 != key,
    ensures
        last_index_of(d.push(e), key) == last_index_of(d, key),
{
    assert(d.push(e).drop_last() =~= d);
}

/// Setting a key to the value it has already changes nothing.
pub proof fn lemma_set_entry_again(d: Seq<(Seq<char>, Seq<char>)>, key: Seq<char>, value: Seq<char>)
    ensures
        set_entry(set_entry(d, key, value), key, value) == set_entry(d, key, value),
{
    let d1 = set_entry(d, key, value);
    match last_index_of(d, key) {
        Some(i) => {
            lemma_last_index_in_range(d, key);
            lemma_last_index_update(d, key, value, i);
            assert(d1.update(i, (key, value)) =~= d1);
        },
        None => {
            assert(d1.drop_last() =~= d);
            assert(d1.update(d.len() as int, (key, value)) =~= d1);
        },
    }
}

/// The position of the entry in force for `key`.
fn find_entry(entries: &Vec<(String, String)>, key: &String) -> (r: Option<usize>)
    ensures
        r matches Some(i) ==> i < entries@.len() && last_index_of(entries_view(entries@), key@)
            == Some(i as int),
        r is None ==> last_index_of(entries_view(entries@), key@) is None,
{
    let ghost ev = entries_view(entries@);
    let mut i: usize = entries.len();
    assert(ev.subrange(0, i as int) =~= ev);
    while i > 0
        invariant
            i <= entries@.len(),
            ev == entries_view(entries@),
            last_index_of(ev, key@) == last_index_of(ev.subrange(0, i as int), key@),
        decreases i,
    {
        let ghost prefix = ev.subrange(0, i as int);
        assert(prefix.last() == ev[i - 1]);
        if entries[i - 1].0 == *key {
            return Some(i - 1);
        }
        assert(prefix.drop_last() =~= ev.subrange(0, i - 1));
        i = i - 1;
    }
    None
}

impl Context {
    /// A fresh build state: no overrides, no cache bindings, nothing
    /// installed.
    pub fn new(pip_settings: PipSettings, binary_ident: String) -> (r: Context)
        ensures
            r@.settings == pip_settings@,
            r@.environ.len() == 0,
            r@.cache_dirs.len() == 0,
            r@.features.len() == 0,
            r@.ident == binary_ident@,
    {
        Context {
            pip_settings,
            environ: Vec::new(),
            cache_dirs: Vec::new(),
            featured_packages: Vec::new(),
            binary_ident,
        }
    }

    /// Sets an environment override of the final image.
    pub fn set_env(&mut self, key: &str, value: &str)
        ensures
            final(self)@ == spec_set_env(old(self)@, key@, value@),
    {
        let k = owned(key);
        let v = owned(value);
        match find_entry(&self.environ, &k) {
            Some(i) => {
                self.environ.set(i, (k, v));
            },
            None => {
                self.environ.push((k, v));
            },
        }
        assert(entries_view(self.environ@) =~= set_entry(entries_view(old(self).environ@), key@, value@));
    }

    /// The value of an environment override, if it is set.
    pub fn env_value(&self, key: &str) -> (r: Option<String>)
        ensures
            r matches Some(v) ==> lookup(self@.environ, key@) == Some(v@),
            r is None ==> lookup(self@.environ, key@) is None,
    {
        let k = owned(key);
        match find_entry(&self.environ, &k) {
            Some(i) => Some(self.environ[i].1.clone()),
            None => None,
        }
    }

    /// Binds `path` in the build to the persistent cache `name`.
    pub fn add_cache_dir(&mut self, path: &str, name: String) -> (r: Result<(), String>)
        ensures
            final(self)@ == spec_add_cache_dir(old(self)@, path@, name@).0,
            r is Ok <==> spec_add_cache_dir(old(self)@, path@, name@).1 is None,
            r matches Err(e) ==> spec_add_cache_dir(old(self)@, path@, name@).1 == Some(e@),
    {
        let p = owned(path);
        match find_entry(&self.cache_dirs, &p) {
            Some(i) => {
                if self.cache_dirs[i].1 == name {
                    Ok(())
                } else {
                    let mut msg = joined("Cache dir ", path);
                    msg.append(" is already used as ");
                    msg.append(self.cache_dirs[i].1.as_str());
                    Err(msg)
                }
            },
            None => {
                self.cache_dirs.push((p, name));
                assert(entries_view(self.cache_dirs@) =~= entries_view(old(self).cache_dirs@).push(
                    (path@, name@),
                ));
                Ok(())
            },
        }
    }

    /// Whether the system package `p` has been installed in this build.
    pub fn has_feature(&self, p: Package) -> (r: bool)
        ensures
            r == self@.features.contains(p),
    {
        for i in 0..self.featured_packages.len()
            invariant
                forall|j: int| 0 <= j < i ==> self.featured_packages@[j] != p,
        {
            if self.featured_packages[i] == p {
                return true;
            }
        }
        false
    }

    /// Records that the system package `p` is installed.
    pub fn add_feature(&mut self, p: Package)
        ensures
            final(self)@ == (if old(self)@.features.contains(p) {
                old(self)@
            } else {
                ContextView { features: old(self)@.features.push(p), ..old(self)@ }
            }),
    {
        if !self.has_feature(p) {
            self.featured_packages.push(p);
        }
    }
}

} // verus!
