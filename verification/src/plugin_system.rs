//! Plugins: a registry of what can be loaded, and the life cycle of loaded plugins
//! (loaded, running, paused, unloaded) with their dependencies and request limits.
//!
//! Loading native code is not done: a loaded plugin has no handler, so its requests fail after
//! the checks and the accounting.
use vstd::prelude::*;
use crate::assoc::{
    distinct_keys, index_of, remove_key, lemma_distinct_keys, lemma_index_of, lemma_index_of_is, lemma_index_of_none,
    lemma_removed_absent, upsert,
};
use crate::opencode_connector::path_from;
use crate::protocol::Protocol;
use crate::text::{owned, push_decimal, push_str, str_eq, string_of};

verus! {

/// The state of a plugin.
#[derive(Debug, Clone, Copy, PartialEq, Eq, Structural)]
pub enum PluginState {
    Unloaded,
    Loading,
    Loaded,
    Running,
    Paused,
    Error,
}

/// The name of a state (as `Debug` prints it).
pub open spec fn state_name(s: PluginState) -> Seq<char> {
    match s {
        PluginState::Unloaded => "Unloaded"@,
        PluginState::Loading => "Loading"@,
        PluginState::Loaded => "Loaded"@,
        PluginState::Running => "Running"@,
        PluginState::Paused => "Paused"@,
        PluginState::Error => "Error"@,
    }
}

impl PluginState {
    /// The name of the state.
    pub fn name(&self) -> (r: &'static str)
        ensures
            r@ == state_name(*self),
    {
        match self {
            PluginState::Unloaded => "Unloaded",
            PluginState::Loading => "Loading",
            PluginState::Loaded => "Loaded",
            PluginState::Running => "Running",
            PluginState::Paused => "Paused",
            PluginState::Error => "Error",
        }
    }
}

/// What a plugin provides.
#[derive(Debug, Clone, Copy, PartialEq, Eq, Structural)]
pub enum PluginType {
    Agent,
    Middleware,
    Tool,
    ModelProvider,
    ProtocolExtension,
}

/// The resources a plugin may use.
#[derive(Debug, Clone, Copy, PartialEq, Eq, Structural)]
pub struct ResourceLimits {
    pub max_memory_mb: u64,
    pub max_cpu_percent: u8,
    pub max_concurrent_requests: usize,
    pub request_timeout_secs: u64,
}

impl Default for ResourceLimits {
    /// 512 MB, half a CPU, ten requests at a time, thirty seconds each.
    fn default() -> (r: Self)
        ensures
            r == (ResourceLimits { max_memory_mb: 512, max_cpu_percent: 50, max_concurrent_requests: 10, request_timeout_secs: 30 }),
    {
        ResourceLimits { max_memory_mb: 512, max_cpu_percent: 50, max_concurrent_requests: 10, request_timeout_secs: 30 }
    }
}

/// What is known of a plugin before it is loaded.
#[derive(Debug)]
pub struct PluginMetadata {
    pub plugin_id: String,
    pub name: String,
    pub version: String,
    pub author: String,
    pub description: String,
    pub plugin_type: PluginType,
    /// The plugins it needs loaded first.
    pub dependencies: Vec<String>,
    pub supported_protocols: Vec<Protocol>,
    pub resource_limits: ResourceLimits,
    /// Unix seconds.
    pub created_at: i64,
}

/// The settings of a plugin.
#[derive(Debug)]
pub struct PluginConfig {
    pub settings: Vec<(String, String)>,
}

/// A request to a plugin.
#[derive(Debug)]
pub struct PluginRequest {
    pub request_id: String,
    pub user_input: String,
    pub context: Vec<(String, String)>,
    pub protocol: Option<Protocol>,
}

/// A plugin's answer.
#[derive(Debug)]
pub struct PluginResponse {
    pub request_id: String,
    pub content: String,
    pub metadata: Vec<(String, String)>,
    pub success: bool,
}

/// How plugins are found and run.
#[derive(Debug)]
pub struct PluginSystemConfig {
    pub plugins_dir: std::path::PathBuf,
    pub enable_hot_reload: bool,
    pub reload_check_interval_secs: u64,
    pub enable_sandboxing: bool,
    pub max_plugins: usize,
}

impl Default for PluginSystemConfig {
    /// `./plugins`, hot reload every five seconds, sandboxed, at most 100 plugins.
    fn default() -> (r: Self)
        ensures
            r.enable_hot_reload,
            r.reload_check_interval_secs == 5,
            r.enable_sandboxing,
            r.max_plugins == 100,
    {
        PluginSystemConfig {
            plugins_dir: path_from("./plugins"),
            enable_hot_reload: true,
            reload_check_interval_secs: 5,
            enable_sandboxing: true,
            max_plugins: 100,
        }
    }
}

/// A loaded plugin.
pub struct LoadedPlugin {
    pub metadata: PluginMetadata,
    pub state: PluginState,
    pub config: PluginConfig,
    pub plugin_path: std::path::PathBuf,
    pub total_requests: u64,
    pub successful_requests: u64,
    pub failed_requests: u64,
    pub current_concurrent: usize,
}

/// The abstract value of a loaded plugin: its dependencies, state, request limit and number
/// of requests.
pub struct PluginView {
    pub dependencies: Seq<Seq<char>>,
    pub state: PluginState,
    pub max_concurrent: usize,
    pub concurrent: usize,
    pub total_requests: u64,
}

/// The abstract value of a registered plugin: its name, version and dependencies.
pub struct RegisteredView {
    pub name: Seq<char>,
    pub version: Seq<char>,
    pub dependencies: Seq<Seq<char>>,
}

/// The abstract value of plugin metadata, as the registry keeps it.
pub open spec fn registered_view(m: PluginMetadata) -> RegisteredView {
    RegisteredView { name: m.name@, version: m.version@, dependencies: names_view(m.dependencies@) }
}

/// The abstract state of the plugin system.
pub struct PluginSystemView {
    pub max_plugins: usize,
    /// The registered plugins' ids and metadata, in registration order.
    pub registry: Seq<(Seq<char>, RegisteredView)>,
    pub plugins: Seq<(Seq<char>, PluginView)>,
}

/// Loads, runs and unloads plugins.
pub struct PluginSystem {
    config: PluginSystemConfig,
    registry: Vec<(String, PluginMetadata)>,
    plugins: Vec<(String, LoadedPlugin)>,
}

/// The views of a list of names.
pub open spec fn names_view(v: Seq<String>) -> Seq<Seq<char>> {
    Seq::new(v.len(), |i: int| v[i]@)
}

/// The view of a loaded plugin.
pub open spec fn plugin_view(p: LoadedPlugin) -> PluginView {
    PluginView {
        dependencies: names_view(p.metadata.dependencies@),
        state: p.state,
        max_concurrent: p.metadata.resource_limits.max_concurrent_requests,
        concurrent: p.current_concurrent,
        total_requests: p.total_requests,
    }
}

/// The abstract value of the loaded plugins.
pub open spec fn loaded_view(v: Seq<(String, LoadedPlugin)>) -> Seq<(Seq<char>, PluginView)> {
    Seq::new(v.len(), |i: int| (v[i].0@, plugin_view(v[i].1)))
}

impl View for PluginSystem {
    type V = PluginSystemView;

    closed spec fn view(&self) -> PluginSystemView {
        PluginSystemView {
            max_plugins: self.config.max_plugins,
            registry: Seq::new(
                self.registry@.len(),
                |i: int| (self.registry@[i].0@, registered_view(self.registry@[i].1)),
            ),
            plugins: loaded_view(self.plugins@),
        }
    }
}

/// Why loading would fail, if it would: already loaded, not registered, or a dependency that
/// is not loaded or not available (in error or unloaded).
pub open spec fn load_refusal(s: PluginSystemView, id: Seq<char>) -> Option<Seq<char>> {
    if index_of(s.plugins, id) is Some {
        Some("Plugin already loaded: "@ + id)
    } else {
        match index_of(s.registry, id) {
            None => Some("Plugin not registered: "@ + id),
            Some(r) => dependency_refusal(s.plugins, s.registry[r].1.dependencies, 0),
        }
    }
}

/// The first unmet dependency at or after `i`, as an error.
pub open spec fn dependency_refusal(plugins: Seq<(Seq<char>, PluginView)>, deps: Seq<Seq<char>>, i: int) -> Option<Seq<char>>
    decreases deps.len() - i,
{
    if i < 0 || i >= deps.len() {
        None
    } else {
        match index_of(plugins, deps[i]) {
            None => Some("Missing dependency plugin: "@ + deps[i]),
            Some(j) => if plugins[j].1.state == PluginState::Error || plugins[j].1.state == PluginState::Unloaded {
                Some("Dependency plugin not available: "@ + deps[i] + " ("@ + state_name(plugins[j].1.state) + ")"@)
            } else {
                dependency_refusal(plugins, deps, i + 1)
            },
        }
    }
}

/// `s` with the state of the first entry of key `k` set.
pub open spec fn with_state(s: Seq<(Seq<char>, PluginView)>, k: Seq<char>, state: PluginState) -> Seq<(Seq<char>, PluginView)> {
    match index_of(s, k) {
        Some(i) => s.update(i, (k, PluginView { state, ..s[i].1 })),
        None => s,
    }
}

fn copy_names(v: &Vec<String>) -> (r: Vec<String>)
    ensures
        names_view(r@) == names_view(v@),
{
    let n = v.len();
    let mut out: Vec<String> = Vec::new();
    let mut i: usize = 0;
    while i < n
        invariant
            i <= n,
            n == v@.len(),
            out@.len() == i,
            forall|k: int| 0 <= k < i ==> (#[trigger] out@[k])@ == v@[k]@,
        decreases n - i,
    {
        out.push(v[i].clone());
        i = i + 1;
    }
    assert(names_view(out@) =~= names_view(v@));
    out
}

fn copy_protocols(v: &Vec<Protocol>) -> (r: Vec<Protocol>)
    ensures
        r@ == v@,
{
    let n = v.len();
    let mut out: Vec<Protocol> = Vec::new();
    let mut i: usize = 0;
    while i < n
        invariant
            i <= n,
            n == v@.len(),
            out@ == v@.subrange(0, i as int),
        decreases n - i,
    {
        out.push(crate::protocol::copy_protocol(&v[i]));
        i = i + 1;
        assert(out@ =~= v@.subrange(0, i as int));
    }
    assert(v@.subrange(0, n as int) =~= v@);
    out
}

/// A copy of plugin metadata.
fn copy_metadata(m: &PluginMetadata) -> (r: PluginMetadata)
    ensures
        r.plugin_id@ == m.plugin_id@,
        r.name@ == m.name@,
        r.version@ == m.version@,
        names_view(r.dependencies@) == names_view(m.dependencies@),
        r.resource_limits == m.resource_limits,
        r.plugin_type == m.plugin_type,
{
    PluginMetadata {
        plugin_id: m.plugin_id.clone(),
        name: m.name.clone(),
        version: m.version.clone(),
        author: m.author.clone(),
        description: m.description.clone(),
        plugin_type: m.plugin_type,
        dependencies: copy_names(&m.dependencies),
        supported_protocols: copy_protocols(&m.supported_protocols),
        resource_limits: m.resource_limits,
        created_at: m.created_at,
    }
}

fn message(prefix: &str, id: &str) -> (r: String)
    ensures
        r@ == prefix@ + id@,
{
    let mut m: Vec<char> = Vec::new();
    push_str(&mut m, prefix);
    push_str(&mut m, id);
    string_of(&m)
}

impl PluginSystem {
    /// No plugin is loaded twice.
    #[verifier::type_invariant]
    spec fn loaded_once(&self) -> bool {
        distinct_keys(self@.plugins)
    }

    fn take_plugins(&mut self) -> (r: Vec<(String, LoadedPlugin)>)
        ensures
            r@ == old(self).plugins@,
            final(self).plugins@.len() == 0,
            final(self).registry == old(self).registry,
            final(self).config == old(self).config,
    {
        let mut plugins: Vec<(String, LoadedPlugin)> = Vec::new();
        std::mem::swap(&mut plugins, &mut self.plugins);
        plugins
    }

    fn take_registry(&mut self) -> (r: Vec<(String, PluginMetadata)>)
        ensures
            r@ == old(self).registry@,
            final(self).registry@.len() == 0,
            final(self).plugins == old(self).plugins,
            final(self).config == old(self).config,
    {
        proof {
            use_type_invariant(&*self);
        }
        let mut registry: Vec<(String, PluginMetadata)> = Vec::new();
        std::mem::swap(&mut registry, &mut self.registry);
        registry
    }

    /// A system with nothing registered or loaded.
    pub fn new(config: PluginSystemConfig) -> (r: Self)
        ensures
            r@.max_plugins == config.max_plugins,
            r@.registry.len() == 0,
            r@.plugins.len() == 0,
    {
        let r = PluginSystem { config, registry: Vec::new(), plugins: Vec::new() };
        assert(r@.registry =~= seq![]);
        assert(r@.plugins =~= seq![]);
        r
    }

    fn registry_position(&self, id: &str) -> (r: Option<usize>)
        ensures
            match r {
                Some(k) => index_of(self@.registry, id@) == Some(k as int),
                None => index_of(self@.registry, id@) is None,
            },
            r matches Some(k) ==> k < self@.registry.len(),
    {
        let ghost reg = self@.registry;
        let n = self.registry.len();
        let mut i: usize = 0;
        while i < n
            invariant
                i <= n,
                n == reg.len(),
                reg == self@.registry,
                forall|j: int| 0 <= j < i ==> reg[j].0 != id@,
            decreases n - i,
        {
            if str_eq(self.registry[i].0.as_str(), id) {
                assert(reg[i as int].0 == id@);
                proof {
                    lemma_index_of_is(reg, id@, i as int);
                }
                return Some(i);
            }
            i = i + 1;
        }
        proof {
            lemma_index_of_none(reg, id@);
        }
        None
    }

    fn plugin_position(&self, id: &str) -> (r: Option<usize>)
        ensures
            match r {
                Some(k) => index_of(self@.plugins, id@) == Some(k as int),
                None => index_of(self@.plugins, id@) is None,
            },
            r matches Some(k) ==> k < self@.plugins.len(),
    {
        let ghost ps = self@.plugins;
        let n = self.plugins.len();
        let mut i: usize = 0;
        while i < n
            invariant
                i <= n,
                n == ps.len(),
                ps == self@.plugins,
                forall|j: int| 0 <= j < i ==> ps[j].0 != id@,
            decreases n - i,
        {
            if str_eq(self.plugins[i].0.as_str(), id) {
                assert(ps[i as int].0 == id@);
                proof {
                    lemma_index_of_is(ps, id@, i as int);
                }
                return Some(i);
            }
            i = i + 1;
        }
        proof {
            lemma_index_of_none(ps, id@);
        }
        None
    }

    /// Finds plugins in the plugin directory; none are found yet.
    pub fn discover_plugins(&self) -> (r: Result<Vec<PluginMetadata>, String>)
        ensures
            r matches Ok(v) && v@.len() == 0,
    {
        Ok(Vec::new())
    }

    /// Registers a plugin (replacing one of the same id), unless the registry is full.
    pub fn register_plugin(&mut self, metadata: PluginMetadata) -> (r: Result<(), String>)
        ensures
            old(self)@.registry.len() >= old(self)@.max_plugins ==> final(self)@ == old(self)@ && (r matches Err(e) && e@
                == "Maximum number of plugins ("@ + crate::text::decimal(old(self)@.max_plugins as nat) + ") reached"@),
            old(self)@.registry.len() < old(self)@.max_plugins ==> r is Ok && final(self)@ == (PluginSystemView {
                registry: upsert(old(self)@.registry, metadata.plugin_id@, registered_view(metadata)),
                ..old(self)@
            }),
    {
        if self.registry.len() >= self.config.max_plugins {
            let mut m: Vec<char> = Vec::new();
            push_str(&mut m, "Maximum number of plugins (");
            push_decimal(&mut m, self.config.max_plugins as u64);
            push_str(&mut m, ") reached");
            return Err(string_of(&m));
        }
        let id = metadata.plugin_id.clone();
        let ghost entry = (id@, registered_view(metadata));
        proof {
            use_type_invariant(&*self);
        }
        let pos = self.registry_position(id.as_str());
        let mut registry = self.take_registry();
        match pos {
            Some(i) => {
                registry.set(i, (id, metadata));
            },
            None => {
                registry.push((id, metadata));
            },
        }
        self.registry = registry;
        match pos {
            Some(i) => {
                assert(self@.registry =~= old(self)@.registry.update(i as int, entry));
            },
            None => {
                assert(self@.registry =~= old(self)@.registry.push(entry));
            },
        }
        assert(self@.plugins =~= old(self)@.plugins);
        Ok(())
    }

    /// Checks the dependencies from position `i` on.
    fn check_dependencies(&self, deps: &Vec<String>) -> (r: Result<(), String>)
        ensures
            match dependency_refusal(self@.plugins, names_view(deps@), 0) {
                Some(e) => r matches Err(m) && m@ == e,
                None => r is Ok,
            },
    {
        let ghost dv = names_view(deps@);
        let n = deps.len();
        let mut i: usize = 0;
        while i < n
            invariant
                i <= n,
                n == deps@.len(),
                dv == names_view(deps@),
                dependency_refusal(self@.plugins, dv, 0) == dependency_refusal(self@.plugins, dv, i as int),
            decreases n - i,
        {
            let d = deps[i].as_str();
            assert(dv[i as int] == d@);
            match self.plugin_position(d) {
                None => {
                    return Err(message("Missing dependency plugin: ", d));
                },
                Some(j) => {
                    let state = self.plugins[j].1.state;
                    if state == PluginState::Error || state == PluginState::Unloaded {
                        let mut m: Vec<char> = Vec::new();
                        push_str(&mut m, "Dependency plugin not available: ");
                        push_str(&mut m, d);
                        push_str(&mut m, " (");
                        push_str(&mut m, state.name());
                        push_str(&mut m, ")");
                        return Err(string_of(&m));
                    }
                },
            }
            i = i + 1;
        }
        Ok(())
    }

    /// Loads a registered plugin whose dependencies are available (see `load_refusal`); it
    /// starts out loaded, with no requests counted.
    pub fn load_plugin(&mut self, plugin_id: &str, plugin_path: std::path::PathBuf, config: PluginConfig) -> (r: Result<(), String>)
        ensures
            match load_refusal(old(self)@, plugin_id@) {
                Some(e) => (r matches Err(m) && m@ == e) && final(self)@ == old(self)@,
                None => r is Ok && final(self)@.registry == old(self)@.registry && final(self)@.max_plugins == old(self)@.max_plugins
                    && final(self)@.plugins == old(self)@.plugins.push(
                    (
                        plugin_id@,
                        PluginView {
                            dependencies: old(self)@.registry[index_of(old(self)@.registry, plugin_id@)->Some_0].1.dependencies,
                            state: PluginState::Loaded,
                            max_concurrent: final(self)@.plugins.last().1.max_concurrent,
                            concurrent: 0,
                            total_requests: 0,
                        },
                    ),
                ),
            },
    {
        if self.plugin_position(plugin_id).is_some() {
            return Err(message("Plugin already loaded: ", plugin_id));
        }
        let metadata = match self.registry_position(plugin_id) {
            None => {
                return Err(message("Plugin not registered: ", plugin_id));
            },
            Some(r) => copy_metadata(&self.registry[r].1),
        };
        proof {
            lemma_index_of(old(self)@.registry, plugin_id@);
        }
        self.check_dependencies(&metadata.dependencies)?;
        let plugin = LoadedPlugin {
            metadata,
            state: PluginState::Loaded,
            config,
            plugin_path,
            total_requests: 0,
            successful_requests: 0,
            failed_requests: 0,
            current_concurrent: 0,
        };
        let ghost pv = plugin_view(plugin);
        proof {
            use_type_invariant(&*self);
            lemma_distinct_keys(self@.plugins, plugin_id@, pv, 0);
        }
        let mut plugins = self.take_plugins();
        plugins.push((owned(plugin_id), plugin));
        assert(loaded_view(plugins@) =~= old(self)@.plugins.push((plugin_id@, pv)));
        self.plugins = plugins;
        assert(self@.plugins =~= old(self)@.plugins.push((plugin_id@, pv)));
        assert(self@.registry =~= old(self)@.registry);
        Ok(())
    }

    /// Unloads a loaded plugin.
    pub fn unload_plugin(&mut self, plugin_id: &str) -> (r: Result<(), String>)
        ensures
            index_of(old(self)@.plugins, plugin_id@) is None ==> (r matches Err(e) && e@ == "Plugin not found: "@ + plugin_id@)
                && final(self)@ == old(self)@,
            index_of(old(self)@.plugins, plugin_id@) is Some ==> r is Ok && final(self)@ == (PluginSystemView {
                plugins: remove_key(old(self)@.plugins, plugin_id@),
                ..old(self)@
            }),
            r is Ok ==> index_of(final(self)@.plugins, plugin_id@) is None,
    {
        proof {
            use_type_invariant(&*self);
            lemma_index_of(self@.plugins, plugin_id@);
            if let Some(i) = index_of(self@.plugins, plugin_id@) {
                lemma_removed_absent(self@.plugins, i);
            }
        }
        match self.plugin_position(plugin_id) {
            None => Err(message("Plugin not found: ", plugin_id)),
            Some(i) => {
                proof {
                    use_type_invariant(&*self);
                    lemma_distinct_keys(self@.plugins, plugin_id@, self@.plugins[i as int].1, i as int);
                }
                let mut plugins = self.take_plugins();
                plugins.remove(i);
                assert(loaded_view(plugins@) =~= old(self)@.plugins.remove(i as int));
                self.plugins = plugins;
                assert(self@.plugins =~= old(self)@.plugins.remove(i as int));
                assert(self@.registry =~= old(self)@.registry);
                Ok(())
            },
        }
    }

    /// Unloads a plugin and loads it again with its path and settings.
    pub fn reload_plugin(&mut self, plugin_id: &str) -> (r: Result<(), String>)
        ensures
            index_of(old(self)@.plugins, plugin_id@) is None ==> (r matches Err(e) && e@ == "Plugin not found: "@ + plugin_id@)
                && final(self)@ == old(self)@,
            index_of(old(self)@.plugins, plugin_id@) is Some ==> final(self)@.registry == old(self)@.registry,
    {
        let (path, config) = match self.plugin_position(plugin_id) {
            None => {
                return Err(message("Plugin not found: ", plugin_id));
            },
            Some(i) => {
                let p = &self.plugins[i].1;
                let n = p.config.settings.len();
                let mut settings: Vec<(String, String)> = Vec::new();
                let mut k: usize = 0;
                while k < n
                    invariant
                        k <= n,
                        n == p.config.settings@.len(),
                    decreases n - k,
                {
                    settings.push((p.config.settings[k].0.clone(), p.config.settings[k].1.clone()));
                    k = k + 1;
                }
                (clone_path(&p.plugin_path), PluginConfig { settings })
            },
        };
        self.unload_plugin(plugin_id)?;
        self.load_plugin(plugin_id, path, config)
    }

    /// Sets the state of a loaded plugin.
    fn set_state(&mut self, plugin_id: &str, state: PluginState) -> (r: Result<(), String>)
        ensures
            index_of(old(self)@.plugins, plugin_id@) is None ==> (r matches Err(e) && e@ == "Plugin not found: "@ + plugin_id@)
                && final(self)@ == old(self)@,
            index_of(old(self)@.plugins, plugin_id@) is Some ==> r is Ok && final(self)@ == (PluginSystemView {
                plugins: with_state(old(self)@.plugins, plugin_id@, state),
                ..old(self)@
            }),
    {
        match self.plugin_position(plugin_id) {
            None => Err(message("Plugin not found: ", plugin_id)),
            Some(i) => {
                proof {
                    lemma_index_of(old(self)@.plugins, plugin_id@);
                    use_type_invariant(&*self);
                    let p = self@.plugins[i as int].1;
                    lemma_distinct_keys(self@.plugins, plugin_id@, PluginView { state, ..p }, i as int);
                }
                let mut plugins = self.take_plugins();
                let (key, mut plugin) = plugins.remove(i);
                plugin.state = state;
                plugins.insert(i, (key, plugin));
                assert(loaded_view(plugins@) =~= with_state(old(self)@.plugins, plugin_id@, state));
                self.plugins = plugins;
                assert(self@.plugins =~= with_state(old(self)@.plugins, plugin_id@, state));
                assert(self@.registry =~= old(self)@.registry);
                Ok(())
            },
        }
    }

    /// Starts a loaded plugin: it is running.
    pub fn start_plugin(&mut self, plugin_id: &str) -> (r: Result<(), String>)
        ensures
            index_of(old(self)@.plugins, plugin_id@) is None ==> (r matches Err(e) && e@ == "Plugin not found: "@ + plugin_id@)
                && final(self)@ == old(self)@,
            index_of(old(self)@.plugins, plugin_id@) is Some ==> r is Ok && final(self)@ == (PluginSystemView {
                plugins: with_state(old(self)@.plugins, plugin_id@, PluginState::Running),
                ..old(self)@
            }),
    {
        self.set_state(plugin_id, PluginState::Running)
    }

    /// Stops a loaded plugin: it is paused.
    pub fn stop_plugin(&mut self, plugin_id: &str) -> (r: Result<(), String>)
        ensures
            index_of(old(self)@.plugins, plugin_id@) is None ==> (r matches Err(e) && e@ == "Plugin not found: "@ + plugin_id@)
                && final(self)@ == old(self)@,
            index_of(old(self)@.plugins, plugin_id@) is Some ==> r is Ok && final(self)@ == (PluginSystemView {
                plugins: with_state(old(self)@.plugins, plugin_id@, PluginState::Paused),
                ..old(self)@
            }),
    {
        self.set_state(plugin_id, PluginState::Paused)
    }

    /// Sends a request: refused for a plugin that is not loaded, not running, or at its limit
    /// of concurrent requests (or whose request count would overflow); otherwise it is counted,
    /// and fails because no handler is loaded.
    pub fn send_request(&mut self, plugin_id: &str, request: PluginRequest) -> (r: Result<PluginResponse, String>)
        ensures
            r is Err,
            match index_of(old(self)@.plugins, plugin_id@) {
                None => (r matches Err(e) && e@ == "Plugin not found: "@ + plugin_id@) && final(self)@ == old(self)@,
                Some(i) => {
                    let p = old(self)@.plugins[i].1;
                    if p.state != PluginState::Running {
                        (r matches Err(e) && e@ == "Plugin not running: "@ + state_name(p.state)) && final(self)@ == old(self)@
                    } else if p.concurrent >= p.max_concurrent {
                        (r matches Err(e) && e@ == "Plugin concurrent request limit exceeded"@) && final(self)@ == old(self)@
                    } else if p.total_requests == u64::MAX {
                        (r matches Err(e) && e@ == "Plugin request count exhausted"@) && final(self)@ == old(self)@
                    } else {
                        (r matches Err(e) && e@ == "Plugin handler not initialized"@) && final(self)@ == (PluginSystemView {
                            plugins: old(self)@.plugins.update(i, (plugin_id@, PluginView { total_requests: (p.total_requests + 1) as u64, ..p })),
                            ..old(self)@
                        })
                    }
                },
            },
    {
        match self.plugin_position(plugin_id) {
            None => Err(message("Plugin not found: ", plugin_id)),
            Some(i) => {
                proof {
                    lemma_index_of(old(self)@.plugins, plugin_id@);
                }
                let state = self.plugins[i].1.state;
                if state != PluginState::Running {
                    return Err(message("Plugin not running: ", state.name()));
                }
                if self.plugins[i].1.current_concurrent >= self.plugins[i].1.metadata.resource_limits.max_concurrent_requests {
                    return Err(owned("Plugin concurrent request limit exceeded"));
                }
                if self.plugins[i].1.total_requests == u64::MAX {
                    return Err(owned("Plugin request count exhausted"));
                }
                proof {
                    use_type_invariant(&*self);
                    let p = self@.plugins[i as int].1;
                    lemma_distinct_keys(
                        self@.plugins,
                        plugin_id@,
                        PluginView { total_requests: (p.total_requests + 1) as u64, ..p },
                        i as int,
                    );
                }
                let mut plugins = self.take_plugins();
                let (key, mut plugin) = plugins.remove(i);
                plugin.current_concurrent = plugin.current_concurrent + 1;
                plugin.total_requests = plugin.total_requests + 1;
                plugin.current_concurrent = plugin.current_concurrent - 1;
                plugins.insert(i, (key, plugin));
                assert(loaded_view(plugins@) =~= old(self)@.plugins.update(
                    i as int,
                    (plugin_id@, PluginView { total_requests: (old(self)@.plugins[i as int].1.total_requests + 1) as u64, ..old(self)@.plugins[i as int].1 }),
                ));
                self.plugins = plugins;
                assert(self@.plugins =~= old(self)@.plugins.update(
                    i as int,
                    (plugin_id@, PluginView { total_requests: (old(self)@.plugins[i as int].1.total_requests + 1) as u64, ..old(self)@.plugins[i as int].1 }),
                ));
                assert(self@.registry =~= old(self)@.registry);
                Err(owned("Plugin handler not initialized"))
            },
        }
    }

    /// The metadata of the registered plugins, in registration order.
    pub fn list_plugins(&self) -> (r: Vec<PluginMetadata>)
        ensures
            r@.len() == self@.registry.len(),
            forall|k: int|
                0 <= k < r@.len() ==> (#[trigger] r@[k]).plugin_id@ == self@.registry[k].0 && registered_view(r@[k])
                    == self@.registry[k].1,
    {
        let n = self.registry.len();
        let mut out: Vec<PluginMetadata> = Vec::new();
        let mut i: usize = 0;
        while i < n
            invariant
                i <= n,
                n == self.registry@.len(),
                out@.len() == i,
                forall|k: int|
                    0 <= k < i ==> (#[trigger] out@[k]).plugin_id@ == self@.registry[k].0 && registered_view(out@[k])
                        == self@.registry[k].1,
            decreases n - i,
        {
            let mut m = copy_metadata(&self.registry[i].1);
            m.plugin_id = self.registry[i].0.clone();
            out.push(m);
            i = i + 1;
        }
        out
    }

    /// The state of a loaded plugin.
    pub fn get_plugin_state(&self, plugin_id: &str) -> (r: Option<PluginState>)
        ensures
            r == match index_of(self@.plugins, plugin_id@) {
                Some(i) => Some(self@.plugins[i].1.state),
                None => None,
            },
    {
        match self.plugin_position(plugin_id) {
            Some(i) => Some(self.plugins[i].1.state),
            None => None,
        }
    }

    /// The health of every loaded plugin; without a handler none is healthy.
    pub fn health_check_all(&self) -> (r: Vec<(String, bool)>)
        ensures
            r@.len() == self@.plugins.len(),
            forall|k: int| 0 <= k < r@.len() ==> (#[trigger] r@[k]).0@ == self@.plugins[k].0 && !r@[k].1,
    {
        let n = self.plugins.len();
        let mut out: Vec<(String, bool)> = Vec::new();
        let mut i: usize = 0;
        while i < n
            invariant
                i <= n,
                n == self.plugins@.len(),
                out@.len() == i,
                forall|k: int| 0 <= k < i ==> (#[trigger] out@[k]).0@ == self@.plugins[k].0 && !out@[k].1,
            decreases n - i,
        {
            out.push((self.plugins[i].0.clone(), false));
            i = i + 1;
        }
        out
    }
}

/// Loading a plugin that may be loaded makes it loaded: it is found, with the state it was
/// loaded in.
pub proof fn law_load_then_loaded(s: PluginSystemView, id: Seq<char>, pv: PluginView)
    requires
        load_refusal(s, id) is None,
    ensures
        index_of(s.plugins.push((id, pv)), id) == Some(s.plugins.len() as int),
        s.plugins.push((id, pv))[s.plugins.len() as int].1 == pv,
{
    lemma_index_of(s.plugins, id);
    lemma_index_of_is(s.plugins.push((id, pv)), id, s.plugins.len() as int);
}

/// Unloading a loaded plugin leaves it not loaded.
pub proof fn law_unload_then_absent(plugins: Seq<(Seq<char>, PluginView)>, id: Seq<char>)
    requires
        distinct_keys(plugins),
        index_of(plugins, id) is Some,
    ensures
        index_of(remove_key(plugins, id), id) is None,
{
    lemma_index_of(plugins, id);
    lemma_removed_absent(plugins, index_of(plugins, id)->Some_0);
}

/// Unloading a plugin just loaded gives back the plugins loaded before.
pub proof fn law_load_unload_restores(s: PluginSystemView, id: Seq<char>, pv: PluginView)
    requires
        load_refusal(s, id) is None,
    ensures
        remove_key(s.plugins.push((id, pv)), id) == s.plugins,
{
    law_load_then_loaded(s, id, pv);
    assert(s.plugins.push((id, pv)).remove(s.plugins.len() as int) =~= s.plugins);
}

/// Starting or stopping a loaded plugin sets the state that is then read back, and keeps the
/// other loaded plugins as they were.
pub proof fn law_state_read_back(plugins: Seq<(Seq<char>, PluginView)>, id: Seq<char>, state: PluginState, other: Seq<char>)
    requires
        index_of(plugins, id) is Some,
        other != id,
    ensures
        index_of(with_state(plugins, id, state), id) == index_of(plugins, id),
        with_state(plugins, id, state)[index_of(plugins, id)->Some_0].1.state == state,
        index_of(with_state(plugins, id, state), other) == index_of(plugins, other),
{
    lemma_index_of(plugins, id);
    let i = index_of(plugins, id)->Some_0;
    let w = with_state(plugins, id, state);
    lemma_index_of_is(w, id, i);
    lemma_index_of(plugins, other);
    match index_of(plugins, other) {
        Some(j) => {
            lemma_index_of_is(w, other, j);
        },
        None => {
            lemma_index_of_none(w, other);
        },
    }
}

/// A copy of a path (`PathBuf::clone`).
///
/// Nothing is stated: the path is opaque here.
#[verifier::external_body]
fn clone_path(p: &std::path::PathBuf) -> std::path::PathBuf {
    p.clone()
}

} // verus!
