use vstd::prelude::*;

use crate::text::views;

verus! {

/// Build-wide policy for installer runs.
pub struct PipSettings {
    /// Local directories or pages searched for archives, in order.
    pub find_links: Vec<String>,
    /// Package indexes: the first is the primary one, the others are extra.
    pub index_urls: Vec<String>,
    /// Hosts trusted without valid TLS.
    pub trusted_hosts: Vec<String>,
    /// Whether transitive dependencies are installed too.
    pub dependencies: bool,
    /// Whether built wheels are kept in a persistent cache.
    pub cache_wheels: bool,
}

pub ghost struct SettingsView {
    pub find_links: Seq<Seq<char>>,
    pub index_urls: Seq<Seq<char>>,
    pub trusted_hosts: Seq<Seq<char>>,
    pub dependencies: bool,
    pub cache_wheels: bool,
}

impl View for PipSettings {
    type V = SettingsView;

    open spec fn view(&self) -> SettingsView {
        SettingsView {
            find_links: views(self.find_links@),
            index_urls: views(self.index_urls@),
            trusted_hosts: views(self.trusted_hosts@),
            dependencies: self.dependencies,
            cache_wheels: self.cache_wheels,
        }
    }
}

impl Default for PipSettings {
    /// No links, indexes or trusted hosts; dependencies not followed;
    /// wheels cached.
    fn default() -> (r: PipSettings)
        ensures
            r@.find_links.len() == 0,
            r@.index_urls.len() == 0,
            r@.trusted_hosts.len() == 0,
            !r@.dependencies,
            r@.cache_wheels,
    {
        PipSettings {
            find_links: Vec::new(),
            index_urls: Vec::new(),
            trusted_hosts: Vec::new(),
            dependencies: false,
            cache_wheels: true,
        }
    }
}

} // verus!
