//! Toolchain provisioning decisions.
//!
//! The external toolchain manager does the actual installing; this module
//! decides, from the version cache, whether an install has to run at all,
//! builds the exact argument lists for the manager's commands, and records
//! completed installs. The surrounding application invokes the manager and
//! serialises racing requests for one (language, version) pair through a
//! single-flight cell, so each recorded install ran exactly once; a failed
//! install records nothing, which leaves the pair open for one retry at a
//! time.

use vstd::prelude::*;

use crate::cachemap::CacheMap;
use crate::langs::{Lang, LangV};

verus! {

/// The version cache: language identifier to the set of installed versions.
/// The outer assignment means "plugin installed", the inner one means
/// "version installed".
pub type VersionCache = CacheMap<CacheMap<()>>;

/// Every inner map of the cache is well-formed too.
pub open spec fn cache_wf(c: &VersionCache) -> bool {
    &&& c.wf()
    &&& forall|l: Seq<char>| c.spec_contains(l) ==> c.spec_value(l).wf()
}

/// The plugin for `lang` has been installed.
pub open spec fn plugin_ready(c: &VersionCache, lang: Seq<char>) -> bool {
    c.spec_contains(lang)
}

/// Version `version` of `lang` has been installed.
pub open spec fn version_installed(c: &VersionCache, lang: Seq<char>, version: Seq<char>) -> bool {
    c.spec_contains(lang) && c.spec_value(lang).spec_contains(version)
}

/// Whether serving a request for `lang` must first run the plugin install.
pub open spec fn spec_needs_plugin(c: &VersionCache, lang: Seq<char>) -> bool {
    !plugin_ready(c, lang)
}

/// Whether serving a request for (`lang`, `version`) must first run the
/// version install.
pub open spec fn spec_needs_version(c: &VersionCache, lang: Seq<char>, version: Seq<char>) -> bool {
    !version_installed(c, lang, version)
}

/// An empty cache: nothing installed yet.
pub fn new_cache() -> (c: VersionCache)
    ensures
        cache_wf(&c),
        forall|l: Seq<char>| !plugin_ready(&c, l),
        forall|l: Seq<char>, v: Seq<char>| !version_installed(&c, l, v),
{
    CacheMap::new()
}

/// Decides whether the plugin install command has to run for `lang`.
pub fn needs_plugin(c: &VersionCache, lang: &String) -> (r: bool)
    requires
        cache_wf(c),
    ensures
        r == spec_needs_plugin(c, lang@),
{
    c.get(lang).is_none()
}

/// Decides whether the version install command has to run for (`lang`,
/// `version`).
pub fn needs_version(c: &VersionCache, lang: &String, version: &String) -> (r: bool)
    requires
        cache_wf(c),
    ensures
        r == spec_needs_version(c, lang@, version@),
{
    match c.get(lang) {
        Some(inner) => inner.get(version).is_none(),
        None => true,
    }
}

/// Records that the plugin install for `lang` completed successfully,
/// seeding an empty set of installed versions. On failure nothing is
/// recorded, so a later request may retry.
pub fn note_plugin_installed(c: &mut VersionCache, lang: &String)
    requires
        cache_wf(old(c)),
        spec_needs_plugin(old(c), lang@),
    ensures
        cache_wf(final(c)),
        plugin_ready(final(c), lang@),
        forall|v: Seq<char>| !version_installed(final(c), lang@, v),
        forall|l: Seq<char>|
            l != lang@ ==> plugin_ready(final(c), l) == plugin_ready(old(c), l),
        forall|l: Seq<char>, v: Seq<char>|
            l != lang@ ==> version_installed(final(c), l, v) == version_installed(old(c), l, v),
{
    let inner: CacheMap<()> = CacheMap::new();
    c.fill(lang, inner);
}

/// Records that the install of `version` for `lang` completed successfully.
pub fn note_version_installed(c: &mut VersionCache, lang: &String, version: &String)
    requires
        cache_wf(old(c)),
        plugin_ready(old(c), lang@),
        spec_needs_version(old(c), lang@, version@),
    ensures
        cache_wf(final(c)),
        version_installed(final(c), lang@, version@),
        forall|l: Seq<char>| plugin_ready(final(c), l) == plugin_ready(old(c), l),
        forall|l: Seq<char>, v: Seq<char>|
            !(l == lang@ && v == version@) ==> version_installed(final(c), l, v)
                == version_installed(old(c), l, v),
{
    c.fill_inner(lang, version);
}

// ---------------------------------------------------------------------------
// Argument lists for the toolchain manager
// ---------------------------------------------------------------------------

/// Arguments of the command that installs the plugin for a language.
pub open spec fn spec_plugin_add_args(l: LangV) -> Seq<Seq<char>> {
    seq!["plugin"@, "add"@, l.plugin_name, l.plugin]
}

/// Arguments of the command that installs one version of a language.
pub open spec fn spec_install_args(l: LangV, version: Seq<char>) -> Seq<Seq<char>> {
    seq!["install"@, l.plugin_name, version]
}

/// Arguments of the query for the install root of one version.
pub open spec fn spec_where_args(l: LangV, version: Seq<char>) -> Seq<Seq<char>> {
    seq!["where"@, l.plugin_name, version]
}

/// Arguments of the query for the installed versions of one language.
pub open spec fn spec_list_args(name: Seq<char>) -> Seq<Seq<char>> {
    seq!["list"@, name]
}

/// Arguments of the query for the installed plugins.
pub open spec fn spec_plugin_list_args() -> Seq<Seq<char>> {
    seq!["plugin"@, "list"@]
}

pub fn plugin_add_args(lang: &Lang) -> (r: Vec<String>)
    ensures
        r@.map_values(|s: String| s@) == spec_plugin_add_args(lang@),
{
    let mut r: Vec<String> = Vec::new();
    r.push("plugin".to_owned());
    r.push("add".to_owned());
    r.push(lang.plugin_name.clone());
    r.push(lang.plugin.clone());
    proof {
        assert(r@.map_values(|s: String| s@) =~= spec_plugin_add_args(lang@));
    }
    r
}

pub fn install_args(lang: &Lang, version: &String) -> (r: Vec<String>)
    ensures
        r@.map_values(|s: String| s@) == spec_install_args(lang@, version@),
{
    let mut r: Vec<String> = Vec::new();
    r.push("install".to_owned());
    r.push(lang.plugin_name.clone());
    r.push(version.clone());
    proof {
        assert(r@.map_values(|s: String| s@) =~= spec_install_args(lang@, version@));
    }
    r
}

pub fn where_args(lang: &Lang, version: &String) -> (r: Vec<String>)
    ensures
        r@.map_values(|s: String| s@) == spec_where_args(lang@, version@),
{
    let mut r: Vec<String> = Vec::new();
    r.push("where".to_owned());
    r.push(lang.plugin_name.clone());
    r.push(version.clone());
    proof {
        assert(r@.map_values(|s: String| s@) =~= spec_where_args(lang@, version@));
    }
    r
}

pub fn list_args(name: &String) -> (r: Vec<String>)
    ensures
        r@.map_values(|s: String| s@) == spec_list_args(name@),
{
    let mut r: Vec<String> = Vec::new();
    r.push("list".to_owned());
    r.push(name.clone());
    proof {
        assert(r@.map_values(|s: String| s@) =~= spec_list_args(name@));
    }
    r
}

pub fn plugin_list_args() -> (r: Vec<String>)
    ensures
        r@.map_values(|s: String| s@) == spec_plugin_list_args(),
{
    let mut r: Vec<String> = Vec::new();
    r.push("plugin".to_owned());
    r.push("list".to_owned());
    proof {
        assert(r@.map_values(|s: String| s@) =~= spec_plugin_list_args());
    }
    r
}

// ---------------------------------------------------------------------------
// Laws of provisioning
// ---------------------------------------------------------------------------

/// Re-running the ensure step after a recorded success performs no further
/// install: the decision function reports a cache hit.
pub proof fn lemma_ensure_version_idempotent(c: &VersionCache, lang: Seq<char>, version: Seq<char>)
    requires
        version_installed(c, lang, version),
    ensures
        !spec_needs_version(c, lang, version),
{
}

/// How many installs run when `n` requests for one (language, version) pair
/// are served one after the other — the order the single-flight cell enforces
/// among racing requests. A request runs the install only when the pair is
/// not yet recorded, and a completed install records it.
pub open spec fn spec_installs_run(installed: bool, n: nat) -> nat
    decreases n,
{
    if n == 0 {
        0
    } else if installed {
        spec_installs_run(installed, (n - 1) as nat)
    } else {
        1 + spec_installs_run(true, (n - 1) as nat)
    }
}

/// However many requests race on one uninstalled pair, the install command
/// runs exactly once; on an already-installed pair it never runs again. All
/// requests then observe the same recorded state.
pub proof fn lemma_install_exactly_once(installed: bool, n: nat)
    ensures
        spec_installs_run(installed, n) <= 1,
        installed ==> spec_installs_run(installed, n) == 0,
        n > 0 && !installed ==> spec_installs_run(installed, n) == 1,
    decreases n,
{
    if n > 0 {
        lemma_install_exactly_once(true, (n - 1) as nat);
    }
}


/// Rebuilds the cache from the host's installed-toolchain listing: one
/// (language, versions) group per plugin. Exactly the listed pairs are
/// recorded; repeated names are folded together.
pub fn seed_cache(pairs: &Vec<(String, Vec<String>)>) -> (c: VersionCache)
    ensures
        cache_wf(&c),
        forall|i: int, j: int|
            0 <= i < pairs@.len() && 0 <= j < pairs@[i].1@.len() ==> version_installed(
                &c,
                pairs@[i].0@,
                #[trigger] pairs@[i].1@[j]@,
            ),
        forall|l: Seq<char>|
            #[trigger] plugin_ready(&c, l) ==> exists|i: int|
                0 <= i < pairs@.len() && pairs@[i].0@ == l,
        forall|l: Seq<char>, v: Seq<char>|
            #[trigger] version_installed(&c, l, v) ==> exists|i: int, j: int|
                0 <= i < pairs@.len() && pairs@[i].0@ == l && 0 <= j < pairs@[i].1@.len()
                    && pairs@[i].1@[j]@ == v,
{
    let mut c = new_cache();
    let n = pairs.len();
    let mut i: usize = 0;
    while i < n
        invariant
            i <= n,
            n == pairs@.len(),
            cache_wf(&c),
            forall|a: int, b: int|
                0 <= a < i && 0 <= b < pairs@[a].1@.len() ==> version_installed(
                    &c,
                    pairs@[a].0@,
                    #[trigger] pairs@[a].1@[b]@,
                ),
            forall|l: Seq<char>|
                #[trigger] plugin_ready(&c, l) ==> exists|a: int|
                    0 <= a < i && pairs@[a].0@ == l,
            forall|l: Seq<char>, v: Seq<char>|
                #[trigger] version_installed(&c, l, v) ==> exists|a: int, b: int|
                    0 <= a < i && pairs@[a].0@ == l && 0 <= b < pairs@[a].1@.len()
                        && pairs@[a].1@[b]@ == v,
        decreases n - i,
    {
        let (name, versions) = &pairs[i];
        if needs_plugin(&c, name) {
            note_plugin_installed(&mut c, name);
        }
        let m = versions.len();
        let mut j: usize = 0;
        while j < m
            invariant
                j <= m,
                i < n,
                n == pairs@.len(),
                m == pairs@[i as int].1@.len(),
                *name == pairs@[i as int].0,
                *versions == pairs@[i as int].1,
                cache_wf(&c),
                plugin_ready(&c, name@),
                forall|b: int|
                    0 <= b < j ==> version_installed(
                        &c,
                        pairs@[i as int].0@,
                        #[trigger] pairs@[i as int].1@[b]@,
                    ),
                forall|a: int, b: int|
                    0 <= a < i && 0 <= b < pairs@[a].1@.len() ==> version_installed(
                        &c,
                        pairs@[a].0@,
                        #[trigger] pairs@[a].1@[b]@,
                    ),
                forall|l: Seq<char>|
                    #[trigger] plugin_ready(&c, l) ==> exists|a: int|
                        0 <= a <= i && a < n && pairs@[a].0@ == l,
                forall|l: Seq<char>, v: Seq<char>|
                    #[trigger] version_installed(&c, l, v) ==> exists|a: int, b: int|
                        0 <= a <= i && a < n && pairs@[a].0@ == l && 0 <= b
                            < pairs@[a].1@.len() && pairs@[a].1@[b]@ == v,
            decreases m - j,
        {
            let v = &versions[j];
            if needs_version(&c, name, v) {
                note_version_installed(&mut c, name, v);
            }
            proof {
                assert(version_installed(&c, pairs@[i as int].0@, pairs@[i as int].1@[j as int]@));
            }
            j = j + 1;
        }
        i = i + 1;
    }
    c
}

} // verus!
