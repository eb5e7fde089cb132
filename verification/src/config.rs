//! User configuration: defaults, migration of retired endpoints, watch entries
//! and engine-binary resolution.

use vstd::prelude::*;
use crate::text::{
    trim, trim_by, trim_end_by, ws_pred, eq_pred, class_pred, CharClass, chars_of, string_of, trim_vec,
    trim_end_vec, chars_eq, cat, str_eq, owned, first_index_char, is_ws, trim_start_by,
};

verus! {

/// One watched folder mapped to a project.
#[derive(Debug, Clone, PartialEq, Eq)]
pub struct WatchEntry {
    pub project_id: String,
    pub cloud_project_id: Option<String>,
    pub path: String,
    pub include_globs: Vec<String>,
    pub ifc_project_guid: Option<String>,
    pub project_name: Option<String>,
}

/// User-editable settings.
#[derive(Debug, Clone, PartialEq, Eq)]
pub struct Config {
    pub api_base: String,
    pub web_base: String,
    pub vex_serve_host: String,
    pub vex_bin: String,
    pub port: u16,
    pub default_author_name: Option<String>,
    pub default_author_email: Option<String>,
    pub watch: Vec<WatchEntry>,
}

pub const DEFAULT_API_BASE: &'static str = "https://ca-vexatlas-api.calmtree-edee8174.northeurope.azurecontainerapps.io";
pub const DEFAULT_WEB_BASE: &'static str = "https://ca-vexatlas-web.calmtree-edee8174.northeurope.azurecontainerapps.io";
pub const DEFAULT_VEX_SERVE_HOST: &'static str = "vexatlas-serve-ne.northeurope.azurecontainer.io";
pub const DEFAULT_PORT: u16 = 7878;

pub fn default_api_base() -> (r: String)
    ensures
        r@ == DEFAULT_API_BASE@,
{
    owned(DEFAULT_API_BASE)
}

pub fn default_web_base() -> (r: String)
    ensures
        r@ == DEFAULT_WEB_BASE@,
{
    owned(DEFAULT_WEB_BASE)
}

pub fn default_vex_serve_host() -> (r: String)
    ensures
        r@ == DEFAULT_VEX_SERVE_HOST@,
{
    owned(DEFAULT_VEX_SERVE_HOST)
}

pub fn default_port() -> (r: u16)
    ensures
        r == DEFAULT_PORT,
{
    DEFAULT_PORT
}

/// The default include globs: `*.ifc`.
pub fn default_globs() -> (r: Vec<String>)
    ensures
        r@.len() == 1,
        r@[0]@ == "*.ifc"@,
{
    let mut v = Vec::new();
    v.push(owned("*.ifc"));
    v
}

/// The engine command used when nothing better is known.
pub fn default_vex_bin(bundled: Option<String>) -> (r: String)
    ensures
        r@ == match bundled {
            Some(b) => b@,
            None => "vex"@,
        },
{
    match bundled {
        Some(b) => b,
        None => owned("vex"),
    }
}

impl Config {
    /// Defaults, with the given engine command.
    pub fn default_with_vex_bin(vex_bin: String) -> (c: Self)
        ensures
            c.api_base@ == DEFAULT_API_BASE@,
            c.web_base@ == DEFAULT_WEB_BASE@,
            c.vex_serve_host@ == DEFAULT_VEX_SERVE_HOST@,
            c.vex_bin == vex_bin,
            c.port == DEFAULT_PORT,
            c.default_author_name is None,
            c.default_author_email is None,
            c.watch@.len() == 0,
    {
        Config {
            api_base: default_api_base(),
            web_base: default_web_base(),
            vex_serve_host: default_vex_serve_host(),
            vex_bin,
            port: default_port(),
            default_author_name: None,
            default_author_email: None,
            watch: Vec::new(),
        }
    }
}

/// `value.trim().trim_end_matches('/')`.
pub open spec fn endpoint_core(v: Seq<char>) -> Seq<char> {
    trim_end_by(trim(v), eq_pred('/'))
}

/// A retired PlanMorph endpoint: the bare domain, or `<subdomain>.planmorph.software`,
/// over `https` or `http`.
pub open spec fn spec_is_expired_planmorph_host(value: Seq<char>, subdomain: Seq<char>) -> bool {
    let t = endpoint_core(value);
    t == "https://planmorph.software"@ || t == "http://planmorph.software"@ || t == "https://"@
        + subdomain + ".planmorph.software"@ || t == "http://"@ + subdomain + ".planmorph.software"@
}

fn endpoint_core_vec(value: &str) -> (r: Vec<char>)
    ensures
        r@ == endpoint_core(value@),
{
    let t = trim_vec(&chars_of(value), &CharClass::Whitespace);
    proof {
        assert(class_pred(CharClass::Whitespace) == ws_pred());
        assert(class_pred(CharClass::Exactly('/')) == eq_pred('/'));
    }
    trim_end_vec(&t, &CharClass::Exactly('/'))
}

pub fn is_expired_planmorph_host(value: &str, subdomain: &str) -> (r: bool)
    ensures
        r == spec_is_expired_planmorph_host(value@, subdomain@),
{
    let t = endpoint_core_vec(value);
    let sub = chars_of(subdomain);
    let suffix = chars_of(".planmorph.software");
    let https_host = cat(&cat(&chars_of("https://"), &sub), &suffix);
    let http_host = cat(&cat(&chars_of("http://"), &sub), &suffix);
    chars_eq(&t, &chars_of("https://planmorph.software")) || chars_eq(
        &t,
        &chars_of("http://planmorph.software"),
    ) || chars_eq(&t, &https_host) || chars_eq(&t, &http_host)
}

/// The SSH hosts of the retired deployment.
pub open spec fn spec_is_retired_serve_host(value: Seq<char>) -> bool {
    let t = endpoint_core(value);
    t == "vex.planmorph.software"@ || t == "planmorph.software"@ || t == "20.223.15.197"@ || t
        == "20.166.239.248"@
}

/// Config after moving only the known retired defaults to the current deployment.
pub open spec fn migrated(old: Config, new: Config) -> bool {
    &&& new.api_base@ == if spec_is_expired_planmorph_host(old.api_base@, "studio"@)
        || spec_is_expired_planmorph_host(old.api_base@, "api"@) {
        DEFAULT_API_BASE@
    } else {
        old.api_base@
    }
    &&& new.web_base@ == if spec_is_expired_planmorph_host(old.web_base@, "studio"@)
        || spec_is_expired_planmorph_host(old.web_base@, "app"@) {
        DEFAULT_WEB_BASE@
    } else {
        old.web_base@
    }
    &&& new.vex_serve_host@ == if spec_is_retired_serve_host(old.vex_serve_host@) {
        DEFAULT_VEX_SERVE_HOST@
    } else {
        old.vex_serve_host@
    }
    &&& new.vex_bin == old.vex_bin
    &&& new.port == old.port
    &&& new.default_author_name == old.default_author_name
    &&& new.default_author_email == old.default_author_email
    &&& new.watch == old.watch
}

/// Move known expired endpoint defaults to the current deployment; custom
/// endpoints stay. Returns whether anything changed.
pub fn migrate_expired_endpoints(cfg: &mut Config) -> (changed: bool)
    ensures
        migrated(*old(cfg), *final(cfg)),
        changed == (spec_is_expired_planmorph_host(old(cfg).api_base@, "studio"@)
            || spec_is_expired_planmorph_host(old(cfg).api_base@, "api"@)
            || spec_is_expired_planmorph_host(old(cfg).web_base@, "studio"@)
            || spec_is_expired_planmorph_host(old(cfg).web_base@, "app"@)
            || spec_is_retired_serve_host(old(cfg).vex_serve_host@)),
{
    let mut changed = false;
    if is_expired_planmorph_host(cfg.api_base.as_str(), "studio") || is_expired_planmorph_host(
        cfg.api_base.as_str(),
        "api",
    ) {
        cfg.api_base = default_api_base();
        changed = true;
    }
    if is_expired_planmorph_host(cfg.web_base.as_str(), "studio") || is_expired_planmorph_host(
        cfg.web_base.as_str(),
        "app",
    ) {
        cfg.web_base = default_web_base();
        changed = true;
    }
    let host = endpoint_core_vec(cfg.vex_serve_host.as_str());
    if chars_eq(&host, &chars_of("vex.planmorph.software")) || chars_eq(
        &host,
        &chars_of("planmorph.software"),
    ) || chars_eq(&host, &chars_of("20.223.15.197")) || chars_eq(
        &host,
        &chars_of("20.166.239.248"),
    ) {
        cfg.vex_serve_host = default_vex_serve_host();
        changed = true;
    }
    changed
}

impl Config {
    /// Remove the first watch entry for `project_id`, returning it.
    pub fn remove_watch(&mut self, project_id: &str) -> (r: Option<WatchEntry>)
        ensures
            match r {
                None => final(self).watch@ == old(self).watch@ && forall|i: int|
                    0 <= i < old(self).watch@.len() ==> (#[trigger] old(self).watch@[i]).project_id@
                        != project_id@,
                Some(e) => exists|i: int|
                    0 <= i < old(self).watch@.len() && old(self).watch@[i] == e && e.project_id@
                        == project_id@ && (forall|j: int|
                        0 <= j < i ==> (#[trigger] old(self).watch@[j]).project_id@ != project_id@)
                        && final(self).watch@ == old(self).watch@.remove(i),
            },
            final(self).api_base == old(self).api_base,
            final(self).web_base == old(self).web_base,
            final(self).vex_serve_host == old(self).vex_serve_host,
            final(self).vex_bin == old(self).vex_bin,
            final(self).port == old(self).port,
            final(self).default_author_name == old(self).default_author_name,
            final(self).default_author_email == old(self).default_author_email,
    {
        let mut i: usize = 0;
        while i < self.watch.len()
            invariant
                *self == *old(self),
                i <= self.watch@.len(),
                forall|j: int| 0 <= j < i ==> (#[trigger] self.watch@[j]).project_id@ != project_id@,
            decreases self.watch.len() - i,
        {
            if str_eq(self.watch[i].project_id.as_str(), project_id) {
                let e = self.watch.remove(i);
                return Some(e);
            }
            i = i + 1;
        }
        None
    }
}

/// Pick the engine binary given the persisted value: an existing file wins, then
/// a bare command name other than `vex`, then the bundled engine, then `vex`.
/// `stored_is_file` tells whether the trimmed value names an existing file.
pub open spec fn spec_resolve_vex_bin(
    stored: Seq<char>,
    stored_is_file: bool,
    bundled: Option<Seq<char>>,
) -> Seq<char> {
    let t = trim(stored);
    if t.len() > 0 && stored_is_file {
        t
    } else if t.len() > 0 && t != "vex"@ && !t.contains('/') && !t.contains('\\') {
        t
    } else {
        match bundled {
            Some(b) => b,
            None => "vex"@,
        }
    }
}

pub fn resolve_vex_bin(stored: &str, stored_is_file: bool, bundled: Option<String>) -> (r: String)
    ensures
        r@ == spec_resolve_vex_bin(
            stored@,
            stored_is_file,
            match bundled {
                Some(b) => Some(b@),
                None => None,
            },
        ),
{
    let t = trim_vec(&chars_of(stored), &CharClass::Whitespace);
    proof {
        assert(class_pred(CharClass::Whitespace) == ws_pred());
    }
    if t.len() > 0 && stored_is_file {
        return string_of(&t);
    }
    let looks_like_path = first_index_char(&t, '/').is_some() || first_index_char(&t, '\\').is_some();
    if t.len() > 0 && !chars_eq(&t, &chars_of("vex")) && !looks_like_path {
        return string_of(&t);
    }
    match bundled {
        Some(b) => b,
        None => owned("vex"),
    }
}

impl Config {
    /// Settle a configuration just read from disk: re-resolve the engine
    /// binary (`stored_is_file` tells whether the stored value names an
    /// existing file, `bundled` is the engine next to the executable, if any)
    /// and move retired endpoints. Returns whether the file must be saved again.
    pub fn settle_loaded(&mut self, stored_is_file: bool, bundled: Option<String>) -> (save: bool)
        ensures
            final(self).vex_bin@ == spec_resolve_vex_bin(
                old(self).vex_bin@,
                stored_is_file,
                match bundled {
                    Some(b) => Some(b@),
                    None => None,
                },
            ),
            final(self).api_base@ == if spec_is_expired_planmorph_host(old(self).api_base@, "studio"@)
                || spec_is_expired_planmorph_host(old(self).api_base@, "api"@) {
                DEFAULT_API_BASE@
            } else {
                old(self).api_base@
            },
            final(self).web_base@ == if spec_is_expired_planmorph_host(old(self).web_base@, "studio"@)
                || spec_is_expired_planmorph_host(old(self).web_base@, "app"@) {
                DEFAULT_WEB_BASE@
            } else {
                old(self).web_base@
            },
            final(self).vex_serve_host@ == if spec_is_retired_serve_host(old(self).vex_serve_host@) {
                DEFAULT_VEX_SERVE_HOST@
            } else {
                old(self).vex_serve_host@
            },
            final(self).port == old(self).port,
            final(self).default_author_name == old(self).default_author_name,
            final(self).default_author_email == old(self).default_author_email,
            final(self).watch == old(self).watch,
            save == (spec_is_expired_planmorph_host(old(self).api_base@, "studio"@)
                || spec_is_expired_planmorph_host(old(self).api_base@, "api"@)
                || spec_is_expired_planmorph_host(old(self).web_base@, "studio"@)
                || spec_is_expired_planmorph_host(old(self).web_base@, "app"@)
                || spec_is_retired_serve_host(old(self).vex_serve_host@)),
    {
        self.vex_bin = resolve_vex_bin(self.vex_bin.as_str(), stored_is_file, bundled);
        migrate_expired_endpoints(self)
    }
}

proof fn lemma_plain_endpoint(d: Seq<char>)
    requires
        d.len() > 0,
        !is_ws(d[0]),
        !is_ws(d.last()),
        d.last() != '/',
    ensures
        endpoint_core(d) == d,
{
    assert(trim_start_by(d, ws_pred()) == d);
    assert(trim_end_by(d, ws_pred()) == d);
    assert(trim_end_by(d, eq_pred('/')) == d);
}

proof fn lemma_defaults_are_current()
    ensures
        !spec_is_expired_planmorph_host(DEFAULT_API_BASE@, "studio"@),
        !spec_is_expired_planmorph_host(DEFAULT_API_BASE@, "api"@),
        !spec_is_expired_planmorph_host(DEFAULT_WEB_BASE@, "studio"@),
        !spec_is_expired_planmorph_host(DEFAULT_WEB_BASE@, "app"@),
        !spec_is_retired_serve_host(DEFAULT_VEX_SERVE_HOST@),
{
    reveal_strlit("https://ca-vexatlas-api.calmtree-edee8174.northeurope.azurecontainerapps.io");
    reveal_strlit("https://ca-vexatlas-web.calmtree-edee8174.northeurope.azurecontainerapps.io");
    reveal_strlit("vexatlas-serve-ne.northeurope.azurecontainer.io");
    reveal_strlit("https://planmorph.software");
    reveal_strlit("http://planmorph.software");
    reveal_strlit("https://");
    reveal_strlit("http://");
    reveal_strlit(".planmorph.software");
    reveal_strlit("studio");
    reveal_strlit("api");
    reveal_strlit("app");
    reveal_strlit("vex.planmorph.software");
    reveal_strlit("planmorph.software");
    reveal_strlit("20.223.15.197");
    reveal_strlit("20.166.239.248");
    lemma_plain_endpoint(DEFAULT_API_BASE@);
    lemma_plain_endpoint(DEFAULT_WEB_BASE@);
    lemma_plain_endpoint(DEFAULT_VEX_SERVE_HOST@);
}

/// Migration is idempotent: migrating an already migrated configuration
/// changes none of its settings.
pub proof fn law_migration_is_idempotent(c0: Config, c1: Config, c2: Config)
    requires
        migrated(c0, c1),
        migrated(c1, c2),
    ensures
        c2.api_base@ == c1.api_base@,
        c2.web_base@ == c1.web_base@,
        c2.vex_serve_host@ == c1.vex_serve_host@,
        c2.vex_bin == c1.vex_bin,
        c2.port == c1.port,
        c2.default_author_name == c1.default_author_name,
        c2.default_author_email == c1.default_author_email,
        c2.watch == c1.watch,
{
    lemma_defaults_are_current();
}


/// The bare PlanMorph domain is retired under every subdomain: an endpoint that
/// is `https://planmorph.software` or `http://planmorph.software` once trimmed
/// of whitespace and trailing `/` is expired, and migration moves such an API
/// or web base to the current default.
pub proof fn law_bare_planmorph_domain_is_expired(value: Seq<char>, subdomain: Seq<char>, old: Config, new: Config)
    ensures
        (endpoint_core(value) == "https://planmorph.software"@ || endpoint_core(value)
            == "http://planmorph.software"@) ==> spec_is_expired_planmorph_host(value, subdomain),
        migrated(old, new) && (endpoint_core(old.api_base@) == "https://planmorph.software"@ || endpoint_core(
            old.api_base@,
        ) == "http://planmorph.software"@) ==> new.api_base@ == DEFAULT_API_BASE@,
        migrated(old, new) && (endpoint_core(old.web_base@) == "https://planmorph.software"@ || endpoint_core(
            old.web_base@,
        ) == "http://planmorph.software"@) ==> new.web_base@ == DEFAULT_WEB_BASE@,
{
}

} // verus!
