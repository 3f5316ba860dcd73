//! Registry manifests and the resolution of plugin references to concrete
//! versions and on-disk artifact locations.

use vstd::prelude::*;
use vstd::string::*;

use crate::permissions::{Permissions, str_equals};

verus! {

/// One published version of a plugin.
pub struct RegistryPluginVersion {
    pub version: String,
    pub deprecated: Option<(bool, String)>,
    pub compatible_program_version: String,
}

/// A plugin entry of a registry manifest; `versions` runs oldest to newest.
pub struct RegistryPlugin {
    pub versions: Vec<RegistryPluginVersion>,
    pub deprecated: Option<(bool, String)>,
    pub description: String,
    pub release_time: String,
}

/// A registry manifest; `plugins` maps a registry plugin id to its entry.
pub struct Registry {
    pub name: String,
    pub description: String,
    pub maintainers: Vec<String>,
    pub plugins: Vec<(String, RegistryPlugin)>,
}

/// A plugin as configured: its reference string, an optional override of the
/// cache setting, its permissions, environment and settings (encoded JSON).
pub struct ConfigPlugin {
    pub plugin: String,
    pub cache: Option<bool>,
    pub permissions: Permissions,
    pub environment: Option<Vec<(String, String)>>,
    pub settings: Option<Vec<u8>>,
}

/// A plugin resolved to a concrete version whose artifacts are on disk under
/// `directory`, relative to the plugin directory.
pub struct AvailablePlugin {
    pub id: String,
    pub version: String,
    pub directory: String,
    pub permissions: Permissions,
    pub environment: Option<Vec<(String, String)>>,
    pub settings: Option<Vec<u8>>,
}

/// The registry used when a reference names none.
pub const DEFAULT_REGISTRY_ID: &'static str = "celarye/discord-bot-plugins";

pub open spec fn default_registry() -> Seq<char> {
    "celarye/discord-bot-plugins"@
}

pub open spec fn latest() -> Seq<char> {
    "latest"@
}

/// The index of the last occurrence of `c` in `s`.
pub open spec fn last_index_of(s: Seq<char>, c: char) -> Option<int>
    decreases s.len(),
{
    if s.len() == 0 {
        None
    } else if s.last() == c {
        Some(s.len() - 1)
    } else {
        last_index_of(s.drop_last(), c)
    }
}

/// `[<registry>/]<plugin-id>[:<version>]` split into registry, plugin id and
/// version, with the default registry and `latest` filled in.
pub open spec fn reference_parts(s: Seq<char>) -> (Seq<char>, Seq<char>, Seq<char>) {
    let (reg, rest) = match last_index_of(s, '/') {
        Some(k) => (s.subrange(0, k), s.subrange(k + 1, s.len() as int)),
        None => (default_registry(), s),
    };
    match last_index_of(rest, ':') {
        Some(k) => (reg, rest.subrange(0, k), rest.subrange(k + 1, rest.len() as int)),
        None => (reg, rest, latest()),
    }
}

/// Whether a version built for `compat` runs on host version `host`: `compat`
/// is a prefix of `host`.
pub open spec fn host_compatible(compat: Seq<char>, host: Seq<char>) -> bool {
    compat.len() <= host.len() && host.subrange(0, compat.len() as int) == compat
}

pub open spec fn is_deprecated(d: Option<(bool, String)>) -> bool {
    match d {
        Some(p) => p.0,
        None => false,
    }
}

/// Whether `latest` may pick this version.
pub open spec fn version_usable(v: RegistryPluginVersion, host: Seq<char>) -> bool {
    !is_deprecated(v.deprecated) && host_compatible(v.compatible_program_version@, host)
}

/// The index of the newest usable version.
pub open spec fn newest_usable(vs: Seq<RegistryPluginVersion>, host: Seq<char>) -> Option<int>
    decreases vs.len(),
{
    if vs.len() == 0 {
        None
    } else if version_usable(vs.last(), host) {
        Some(vs.len() - 1)
    } else {
        newest_usable(vs.drop_last(), host)
    }
}

/// The index of the first version named `req`.
pub open spec fn first_named(vs: Seq<RegistryPluginVersion>, req: Seq<char>) -> Option<int>
    decreases vs.len(),
{
    if vs.len() == 0 {
        None
    } else {
        match first_named(vs.drop_last(), req) {
            Some(i) => Some(i),
            None => if vs.last().version@ == req {
                Some(vs.len() - 1)
            } else {
                None
            },
        }
    }
}

/// The version a request selects: for `latest` the newest usable one; else
/// the first version of that exact name, if it is compatible with the host
/// (deprecation does not reject an explicitly requested version).
pub open spec fn selected_version(
    vs: Seq<RegistryPluginVersion>,
    req: Seq<char>,
    host: Seq<char>,
) -> Option<Seq<char>> {
    if req == latest() {
        match newest_usable(vs, host) {
            Some(i) => Some(vs[i].version@),
            None => None,
        }
    } else {
        match first_named(vs, req) {
            Some(i) => if host_compatible(vs[i].compatible_program_version@, host) {
                Some(vs[i].version@)
            } else {
                None
            },
            None => None,
        }
    }
}

/// The index of the first entry keyed `id`.
pub open spec fn find_entry<V>(ps: Seq<(String, V)>, id: Seq<char>) -> Option<int>
    decreases ps.len(),
{
    if ps.len() == 0 {
        None
    } else {
        match find_entry(ps.drop_last(), id) {
            Some(i) => Some(i),
            None => if ps.last().0@ == id {
                Some(ps.len() - 1)
            } else {
                None
            },
        }
    }
}

/// Where the artifacts of one version of a plugin live, relative to the plugin directory.
pub open spec fn artifact_directory(id: Seq<char>, version: Seq<char>) -> Seq<char> {
    id + "/"@ + version
}

/// The position of the last `c` in `s`.
pub fn rfind_char(s: &str, c: char) -> (r: Option<usize>)
    ensures
        match last_index_of(s@, c) {
            Some(k) => 0 <= k < s@.len() && r == Some(k as usize),
            None => r is None,
        },
{
    let n = s.unicode_len();
    let mut found: Option<usize> = None;
    let mut i: usize = 0;
    while i < n
        invariant
            n == s@.len(),
            i <= n,
            match last_index_of(s@.subrange(0, i as int), c) {
                Some(k) => 0 <= k < i && found == Some(k as usize),
                None => found is None,
            },
        decreases n - i,
    {
        assert(s@.subrange(0, i + 1).drop_last() =~= s@.subrange(0, i as int));
        if s.get_char(i) == c {
            found = Some(i);
        }
        i = i + 1;
    }
    assert(s@.subrange(0, n as int) =~= s@);
    found
}

/// Splits a plugin reference `[<registry>/]<plugin-id>[:<version>]` into
/// registry id, registry plugin id and requested version.
pub fn parse_plugin_string(value: &str) -> (r: (String, String, String))
    ensures
        (r.0@, r.1@, r.2@) == reference_parts(value@),
{
    let n = value.unicode_len();
    let (registry_id, rest) = match rfind_char(value, '/') {
        Some(k) => (value.substring_char(0, k).to_owned(), value.substring_char(k + 1, n)),
        None => (DEFAULT_REGISTRY_ID.to_owned(), value),
    };
    let m = rest.unicode_len();
    match rfind_char(rest, ':') {
        Some(k) => (
            registry_id,
            rest.substring_char(0, k).to_owned(),
            rest.substring_char(k + 1, m).to_owned(),
        ),
        None => (registry_id, rest.to_owned(), "latest".to_owned()),
    }
}

/// Whether `host` begins with `prefix`.
pub fn has_prefix(host: &str, prefix: &str) -> (r: bool)
    ensures
        r == host_compatible(prefix@, host@),
{
    let n = host.unicode_len();
    let m = prefix.unicode_len();
    if m > n {
        return false;
    }
    str_equals(host.substring_char(0, m), prefix)
}

/// Whether `latest` may select this version on host version `host_version`:
/// it is not deprecated and its compatible host version is a prefix of the
/// host version.
pub fn check_plugin_version_usability(
    plugin_version: &RegistryPluginVersion,
    _plugin_id: &str,
    host_version: &str,
) -> (r: bool)
    ensures
        r == version_usable(*plugin_version, host_version@),
{
    match &plugin_version.deprecated {
        Some(d) => {
            if d.0 {
                return false;
            }
        },
        None => {},
    }
    has_prefix(host_version, plugin_version.compatible_program_version.as_str())
}

/// The version of `plugin_versions` that `requested_version` selects on host
/// version `host_version`, if any.
pub fn find_plugin_version_match(
    requested_version: &str,
    plugin_versions: &[RegistryPluginVersion],
    plugin_id: &str,
    host_version: &str,
) -> (r: Option<String>)
    ensures
        match selected_version(plugin_versions@, requested_version@, host_version@) {
            Some(v) => r matches Some(s) && s@ == v,
            None => r is None,
        },
{
    let vs = plugin_versions;
    let n = vs.len();
    if str_equals(requested_version, "latest") {
        let mut found: Option<usize> = None;
        let mut i: usize = 0;
        while i < n
            invariant
                n == vs@.len(),
                i <= n,
                match newest_usable(vs@.subrange(0, i as int), host_version@) {
                    Some(k) => 0 <= k < i && found == Some(k as usize),
                    None => found is None,
                },
            decreases n - i,
        {
            assert(vs@.subrange(0, i + 1).drop_last() =~= vs@.subrange(0, i as int));
            if check_plugin_version_usability(&vs[i], plugin_id, host_version) {
                found = Some(i);
            }
            i = i + 1;
        }
        assert(vs@.subrange(0, n as int) =~= vs@);
        match found {
            Some(k) => Some(vs[k].version.clone()),
            None => None,
        }
    } else {
        let mut found: Option<usize> = None;
        let mut i: usize = 0;
        while i < n
            invariant
                n == vs@.len(),
                i <= n,
                match first_named(vs@.subrange(0, i as int), requested_version@) {
                    Some(k) => 0 <= k < i && found == Some(k as usize),
                    None => found is None,
                },
            decreases n - i,
        {
            assert(vs@.subrange(0, i + 1).drop_last() =~= vs@.subrange(0, i as int));
            if found.is_none() && str_equals(vs[i].version.as_str(), requested_version) {
                found = Some(i);
            }
            i = i + 1;
        }
        assert(vs@.subrange(0, n as int) =~= vs@);
        match found {
            Some(k) => {
                if has_prefix(host_version, vs[k].compatible_program_version.as_str()) {
                    Some(vs[k].version.clone())
                } else {
                    None
                }
            },
            None => None,
        }
    }
}

/// Whether the version that a request for `requested_version` by exact
/// name finds (the first of that name) is marked deprecated; such a version
/// is still accepted, with a warning.
pub fn version_is_deprecated(plugin_versions: &[RegistryPluginVersion], requested_version: &str) -> (r:
    bool)
    ensures
        r == match first_named(plugin_versions@, requested_version@) {
            Some(i) => is_deprecated(plugin_versions@[i].deprecated),
            None => false,
        },
{
    let vs = plugin_versions;
    let n = vs.len();
    let mut found: Option<usize> = None;
    let mut i: usize = 0;
    while i < n
        invariant
            n == vs@.len(),
            i <= n,
            match first_named(vs@.subrange(0, i as int), requested_version@) {
                Some(k) => 0 <= k < i && found == Some(k as usize),
                None => found is None,
            },
        decreases n - i,
    {
        assert(vs@.subrange(0, i + 1).drop_last() =~= vs@.subrange(0, i as int));
        if found.is_none() && str_equals(vs[i].version.as_str(), requested_version) {
            found = Some(i);
        }
        i = i + 1;
    }
    assert(vs@.subrange(0, n as int) =~= vs@);
    match found {
        Some(k) => match &vs[k].deprecated {
            Some(d) => d.0,
            None => false,
        },
        None => false,
    }
}

/// Why a plugin was left out of resolution.
#[derive(Clone, Copy, Debug, PartialEq, Eq, Structural)]
pub enum ResolveError {
    /// Its registry's manifest could not be fetched or read.
    RegistryUnavailable,
    /// Its registry lists no plugin of that id.
    PluginNotFound,
    /// No version matches the request (none usable for `latest`).
    NoUsableVersion,
}

/// The next thing to do to resolve one configured plugin.
pub enum ResolutionStep {
    /// Find out whether `<directory>/plugin.wasm` exists on disk.
    CheckArtifact { directory: String },
    /// Fetch the manifest of this registry.
    FetchRegistry { registry_id: String },
    /// Fetch both files from the registry into `directory`, then the plugin is ready.
    Download {
        registry_id: String,
        metadata_path: String,
        wasm_path: String,
        directory: String,
        version: String,
    },
    /// The plugin's artifacts are in place.
    Ready { version: String, directory: String },
    /// The plugin is skipped.
    Skip(ResolveError),
}

/// A resolution step over plain sequences.
pub enum StepModel {
    CheckArtifact(Seq<char>),
    FetchRegistry(Seq<char>),
    Download(Seq<char>, Seq<char>, Seq<char>, Seq<char>, Seq<char>),
    Ready(Seq<char>, Seq<char>),
    Skip(ResolveError),
}

impl ResolutionStep {
    pub open spec fn model(&self) -> StepModel {
        match self {
            ResolutionStep::CheckArtifact { directory } => StepModel::CheckArtifact(directory@),
            ResolutionStep::FetchRegistry { registry_id } => StepModel::FetchRegistry(
                registry_id@,
            ),
            ResolutionStep::Download {
                registry_id,
                metadata_path,
                wasm_path,
                directory,
                version,
            } => StepModel::Download(
                registry_id@,
                metadata_path@,
                wasm_path@,
                directory@,
                version@,
            ),
            ResolutionStep::Ready { version, directory } => StepModel::Ready(version@, directory@),
            ResolutionStep::Skip(e) => StepModel::Skip(*e),
        }
    }
}

/// The step that resolves a plugin once a version is chosen.
pub open spec fn step_for_version(
    registry_id: Seq<char>,
    id: Seq<char>,
    version: Seq<char>,
    cache: bool,
    artifact: Option<bool>,
) -> StepModel {
    let dir = artifact_directory(id, version);
    if cache && artifact is None {
        StepModel::CheckArtifact(dir)
    } else if cache && artifact == Some(true) {
        StepModel::Ready(version, dir)
    } else {
        StepModel::Download(registry_id, dir + "/metadata.json"@, dir + "/plugin.wasm"@, dir, version)
    }
}

/// The next resolution step for the plugin reference `reference`, given
/// whether caching is on, the host version, what is known of the registry
/// manifest (`None`: not fetched yet; `Some(None)`: fetching failed) and what
/// is known of the artifact on disk (`None`: not checked yet).
/// A pinned version with caching on is looked for on disk before the registry
/// is asked; `latest` needs the manifest.
pub open spec fn resolution_step(
    reference: Seq<char>,
    cache: bool,
    host: Seq<char>,
    registry: Option<Option<Registry>>,
    artifact: Option<bool>,
) -> StepModel {
    let (reg, id, ver) = reference_parts(reference);
    let pinned = ver != latest();
    if pinned && cache && artifact is None {
        StepModel::CheckArtifact(artifact_directory(id, ver))
    } else if pinned && cache && artifact == Some(true) {
        StepModel::Ready(ver, artifact_directory(id, ver))
    } else {
        match registry {
            None => StepModel::FetchRegistry(reg),
            Some(None) => StepModel::Skip(ResolveError::RegistryUnavailable),
            Some(Some(r)) => match find_entry(r.plugins@, id) {
                None => StepModel::Skip(ResolveError::PluginNotFound),
                Some(k) => match selected_version(r.plugins@[k].1.versions@, ver, host) {
                    None => StepModel::Skip(ResolveError::NoUsableVersion),
                    Some(v) => step_for_version(reg, id, v, cache, artifact),
                },
            },
        }
    }
}

/// The position of the first entry keyed `id`.
pub fn find_keyed<V>(plugins: &Vec<(String, V)>, id: &str) -> (r: Option<usize>)
    ensures
        match r {
            Some(i) => i < plugins@.len() && find_entry(plugins@, id@) == Some(i as int),
            None => find_entry(plugins@, id@) is None,
        },
{
    let n = plugins.len();
    let mut i: usize = 0;
    while i < n
        invariant
            n == plugins@.len(),
            i <= n,
            find_entry(plugins@.subrange(0, i as int), id@) is None,
        decreases n - i,
    {
        assert(plugins@.subrange(0, i + 1).drop_last() =~= plugins@.subrange(0, i as int));
        if str_equals(plugins[i].0.as_str(), id) {
            proof {
                lemma_find_entry_prefix(plugins@, id@, i + 1);
            }
            return Some(i);
        }
        i = i + 1;
    }
    assert(plugins@.subrange(0, n as int) =~= plugins@);
    None
}

proof fn lemma_find_entry_prefix<V>(ps: Seq<(String, V)>, id: Seq<char>, n: int)
    requires
        0 <= n <= ps.len(),
        find_entry(ps.subrange(0, n), id) is Some,
    ensures
        find_entry(ps, id) == find_entry(ps.subrange(0, n), id),
    decreases ps.len() - n,
{
    if n < ps.len() {
        assert(ps.subrange(0, n + 1).drop_last() =~= ps.subrange(0, n));
        lemma_find_entry_prefix(ps, id, n + 1);
    } else {
        assert(ps.subrange(0, n) =~= ps);
    }
}

fn artifact_dir(id: &str, version: &str) -> (r: String)
    ensures
        r@ == artifact_directory(id@, version@),
{
    id.to_owned().concat("/").concat(version)
}

fn version_step(
    registry_id: String,
    id: &str,
    version: String,
    cache: bool,
    artifact: Option<bool>,
) -> (r: ResolutionStep)
    ensures
        r.model() == step_for_version(registry_id@, id@, version@, cache, artifact),
{
    let directory = artifact_dir(id, version.as_str());
    if cache && artifact.is_none() {
        ResolutionStep::CheckArtifact { directory }
    } else if cache && artifact == Some(true) {
        ResolutionStep::Ready { version, directory }
    } else {
        let metadata_path = directory.clone().concat("/metadata.json");
        let wasm_path = directory.clone().concat("/plugin.wasm");
        ResolutionStep::Download { registry_id, metadata_path, wasm_path, directory, version }
    }
}

/// The next step of resolving the plugin referenced by `reference`; see
/// `resolution_step`.
pub fn resolve_step(
    reference: &str,
    cache: bool,
    host_version: &str,
    registry: Option<&Option<Registry>>,
    artifact: Option<bool>,
) -> (r: ResolutionStep)
    ensures
        r.model() == resolution_step(
            reference@,
            cache,
            host_version@,
            match registry {
                Some(x) => Some(*x),
                None => None,
            },
            artifact,
        ),
{
    let (registry_id, id, version) = parse_plugin_string(reference);
    let pinned = !str_equals(version.as_str(), "latest");
    if pinned && cache && artifact.is_none() {
        let d = artifact_dir(id.as_str(), version.as_str());
        return ResolutionStep::CheckArtifact { directory: d };
    }
    if pinned && cache && artifact == Some(true) {
        let directory = artifact_dir(id.as_str(), version.as_str());
        return ResolutionStep::Ready { version, directory };
    }
    match registry {
        None => ResolutionStep::FetchRegistry { registry_id },
        Some(None) => ResolutionStep::Skip(ResolveError::RegistryUnavailable),
        Some(Some(r)) => match find_keyed(&r.plugins, id.as_str()) {
            None => ResolutionStep::Skip(ResolveError::PluginNotFound),
            Some(k) => match find_plugin_version_match(
                version.as_str(),
                r.plugins[k].1.versions.as_slice(),
                id.as_str(),
                host_version,
            ) {
                None => ResolutionStep::Skip(ResolveError::NoUsableVersion),
                Some(v) => {
                    version_step(registry_id, id.as_str(), v, cache, artifact)
                },
            },
        },
    }
}

impl ConfigPlugin {
    /// Whether caching applies to this plugin: its own setting, else `default`.
    pub fn cache_enabled(&self, default: bool) -> (r: bool)
        ensures
            r == match self.cache {
                Some(c) => c,
                None => default,
            },
    {
        match self.cache {
            Some(c) => c,
            None => default,
        }
    }

    /// The record of this plugin, configured under `id`, once resolved to
    /// `version` with its artifacts in `directory`.
    pub fn into_available(self, id: String, version: String, directory: String) -> (r:
        AvailablePlugin)
        ensures
            r.id == id,
            r.version == version,
            r.directory == directory,
            r.permissions == self.permissions,
            r.environment == self.environment,
            r.settings == self.settings,
    {
        AvailablePlugin {
            id,
            version,
            directory,
            permissions: self.permissions,
            environment: self.environment,
            settings: self.settings,
        }
    }
}

/// Resolving a pinned version with caching on, once its artifact is known to
/// be on disk, fetches nothing and gives the same record whatever is known of
/// the registry: repeated runs give identical results without network access.
pub proof fn lemma_cached_pinned_resolution_is_stable(
    reference: Seq<char>,
    host: Seq<char>,
    r1: Option<Option<Registry>>,
    r2: Option<Option<Registry>>,
)
    requires
        reference_parts(reference).2 != latest(),
    ensures
        resolution_step(reference, true, host, r1, None) == StepModel::CheckArtifact(
            artifact_directory(reference_parts(reference).1, reference_parts(reference).2),
        ),
        resolution_step(reference, true, host, r1, Some(true)) == StepModel::Ready(
            reference_parts(reference).2,
            artifact_directory(reference_parts(reference).1, reference_parts(reference).2),
        ),
        resolution_step(reference, true, host, r1, Some(true)) == resolution_step(
            reference,
            true,
            host,
            r2,
            Some(true),
        ),
{
}

/// Registry manifests fetched so far, keyed by registry id; `None` records
/// a failed fetch so that it is not tried again.
pub struct Registries {
    pub entries: Vec<(String, Option<Registry>)>,
}

impl Registries {
    /// What is known of registry `id`: `None` if it was never fetched.
    pub open spec fn known(&self, id: Seq<char>) -> Option<Option<Registry>> {
        match find_entry(self.entries@, id) {
            Some(i) => Some(self.entries@[i].1),
            None => None,
        }
    }

    pub fn new() -> (r: Registries)
        ensures
            forall|id: Seq<char>| r.known(id) is None,
    {
        Registries { entries: Vec::new() }
    }

    /// What is known of registry `id`.
    pub fn lookup(&self, id: &str) -> (r: Option<&Option<Registry>>)
        ensures
            match self.known(id@) {
                Some(x) => r matches Some(y) && *y == x,
                None => r is None,
            },
    {
        match find_keyed(&self.entries, id) {
            Some(i) => Some(&self.entries[i].1),
            None => None,
        }
    }

    /// Records the outcome of fetching registry `id`, `None` for a failure.
    pub fn record(&mut self, id: String, fetched: Option<Registry>)
        requires
            old(self).known(id@) is None,
        ensures
            final(self).known(id@) == Some(fetched),
            forall|k: Seq<char>| k != id@ ==> final(self).known(k) == old(self).known(k),
    {
        let ghost before = self.entries@;
        self.entries.push((id, fetched));
        proof {
            let after = self.entries@;
            assert(after.drop_last() =~= before);
            assert forall|k: Seq<char>| k != id@ implies self.known(k) == old(self).known(k) by {
                assert(find_entry(after, k) == find_entry(before, k));
                match find_entry(before, k) {
                    Some(i) => {
                        lemma_find_entry_range(before, k);
                        assert(after[i] == before[i]);
                    },
                    None => {},
                }
            }
        }
    }
}

proof fn lemma_find_entry_range<V>(ps: Seq<(String, V)>, id: Seq<char>)
    ensures
        find_entry(ps, id) matches Some(i) ==> 0 <= i < ps.len() && ps[i].0@ == id,
    decreases ps.len(),
{
    if ps.len() > 0 {
        lemma_find_entry_range(ps.drop_last(), id);
    }
}

} // verus!
