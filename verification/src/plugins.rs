//! Plugin descriptions, their validation, a registry keyed by plugin name,
//! and the reload timer of the plugin loader.
use vstd::prelude::*;
use crate::text::{chars_of, string_from_chars, append_chars};
use dashmap::DashMap;
use crate::paths::{joined_path, path_join};

verus! {

/// What a plugin does.
#[derive(Debug, Clone, Copy, PartialEq, Eq, Structural)]
pub enum PluginType {
    Detection,
    Exporter,
}

/// Life-cycle state of a plugin.
#[derive(Debug, Clone)]
pub enum PluginStatus {
    Loaded,
    Enabled,
    Disabled,
    Error(String),
}

/// Descriptive fields of a plugin.
#[derive(Debug, Clone)]
pub struct PluginMetadata {
    pub name: String,
    pub version: String,
    pub description: String,
    pub author: String,
    pub plugin_type: PluginType,
}

/// Patterns that a detection plugin adds for one attack type.
#[derive(Debug, Clone)]
pub struct DetectionRuleConfig {
    pub patterns: Vec<String>,
    pub attack_type: String,
}

/// Where and how an exporter plugin ships log entries.
#[derive(Debug, Clone)]
pub struct LogExporterConfig {
    pub export_endpoint: String,
    pub format: String,
    pub batch_size: usize,
}

/// Configuration of a plugin.
#[derive(Debug, Clone)]
pub enum PluginConfig {
    Detection(DetectionRuleConfig),
    Exporter(LogExporterConfig),
    Generic(std::collections::HashMap<String, serde_json::Value>),
}

/// A loaded plugin.
#[derive(Debug, Clone)]
pub struct PluginInstance {
    pub metadata: PluginMetadata,
    pub config: PluginConfig,
    pub status: PluginStatus,
    pub file_path: Option<String>,
}

impl PluginInstance {
    /// A freshly loaded plugin without a file.
    pub fn new(metadata: PluginMetadata, config: PluginConfig) -> (p: Self)
        ensures
            p.metadata == metadata,
            p.config == config,
            p.status == PluginStatus::Loaded,
            p.file_path.is_none(),
    {
        PluginInstance { metadata, config, status: PluginStatus::Loaded, file_path: None }
    }

    /// The same plugin, read from `path`.
    pub fn with_file_path(self, path: String) -> (p: Self)
        ensures
            p.metadata == self.metadata,
            p.config == self.config,
            p.status == self.status,
            p.file_path == Some(path),
    {
        PluginInstance { file_path: Some(path), ..self }
    }

    /// Marks the plugin enabled.
    pub fn enable(&mut self)
        ensures
            final(self).status == PluginStatus::Enabled,
            final(self).metadata == old(self).metadata,
            final(self).config == old(self).config,
            final(self).file_path == old(self).file_path,
    {
        self.status = PluginStatus::Enabled;
    }

    /// Marks the plugin disabled.
    pub fn disable(&mut self)
        ensures
            final(self).status == PluginStatus::Disabled,
            final(self).metadata == old(self).metadata,
            final(self).config == old(self).config,
            final(self).file_path == old(self).file_path,
    {
        self.status = PluginStatus::Disabled;
    }

    /// Whether the plugin is enabled.
    pub fn is_enabled(&self) -> (b: bool)
        ensures
            b == (self.status is Enabled),
    {
        match self.status {
            PluginStatus::Enabled => true,
            _ => false,
        }
    }
}

/// Why a plugin file is refused, if it is.
pub open spec fn validation_error(meta: PluginMetadata, config: PluginConfig) -> Option<Seq<char>> {
    if meta.name@.len() == 0 {
        Some("Plugin name cannot be empty"@)
    } else if meta.version@.len() == 0 {
        Some("Plugin version cannot be empty"@)
    } else {
        match meta.plugin_type {
            PluginType::Detection => match config {
                PluginConfig::Detection(d) => if d.patterns@.len() == 0 {
                    Some("Detection plugin must have at least one pattern"@)
                } else if d.attack_type@.len() == 0 {
                    Some("Detection plugin must specify attack_type"@)
                } else {
                    None
                },
                _ => Some("Detection plugin requires detection config"@),
            },
            PluginType::Exporter => match config {
                PluginConfig::Exporter(e) => if e.export_endpoint@.len() == 0 {
                    Some("Exporter plugin must specify export_endpoint"@)
                } else if e.format@.len() == 0 {
                    Some("Exporter plugin must specify format"@)
                } else {
                    None
                },
                _ => Some("Exporter plugin requires exporter config"@),
            },
        }
    }
}

/// Checks a plugin description: a name and a version, and a configuration
/// of the plugin's type with its required fields.
pub fn validate_plugin(meta: &PluginMetadata, config: &PluginConfig) -> (r: Result<(), String>)
    ensures
        match r {
            Ok(()) => validation_error(*meta, *config) is None,
            Err(m) => validation_error(*meta, *config) == Some(m@),
        },
{
    if meta.name.as_str().is_empty() {
        return Err(String::from_str("Plugin name cannot be empty"));
    }
    if meta.version.as_str().is_empty() {
        return Err(String::from_str("Plugin version cannot be empty"));
    }
    match meta.plugin_type {
        PluginType::Detection => match config {
            PluginConfig::Detection(d) => {
                if d.patterns.len() == 0 {
                    return Err(String::from_str("Detection plugin must have at least one pattern"));
                }
                if d.attack_type.as_str().is_empty() {
                    return Err(String::from_str("Detection plugin must specify attack_type"));
                }
                Ok(())
            },
            _ => Err(String::from_str("Detection plugin requires detection config")),
        },
        PluginType::Exporter => match config {
            PluginConfig::Exporter(e) => {
                if e.export_endpoint.as_str().is_empty() {
                    return Err(String::from_str("Exporter plugin must specify export_endpoint"));
                }
                if e.format.as_str().is_empty() {
                    return Err(String::from_str("Exporter plugin must specify format"));
                }
                Ok(())
            },
            _ => Err(String::from_str("Exporter plugin requires exporter config")),
        },
    }
}

/// A plugin's status as plain values.
pub enum StatusView {
    Loaded,
    Enabled,
    Disabled,
    Error(Seq<char>),
}

/// The status as plain values.
pub open spec fn status_view(s: PluginStatus) -> StatusView {
    match s {
        PluginStatus::Loaded => StatusView::Loaded,
        PluginStatus::Enabled => StatusView::Enabled,
        PluginStatus::Disabled => StatusView::Disabled,
        PluginStatus::Error(m) => StatusView::Error(m@),
    }
}

/// A plugin's configuration as plain values; of a free-form configuration
/// only its kind.
pub enum ConfigView {
    Detection { patterns: Seq<Seq<char>>, attack_type: Seq<char> },
    Exporter { export_endpoint: Seq<char>, format: Seq<char>, batch_size: usize },
    Generic { entries: Map<String, serde_json::Value> },
}

/// The configuration as plain values.
pub open spec fn config_view(c: PluginConfig) -> ConfigView {
    match c {
        PluginConfig::Detection(d) => ConfigView::Detection {
            patterns: d.patterns@.map_values(|p: String| p@),
            attack_type: d.attack_type@,
        },
        PluginConfig::Exporter(e) => ConfigView::Exporter {
            export_endpoint: e.export_endpoint@,
            format: e.format@,
            batch_size: e.batch_size,
        },
        PluginConfig::Generic(m) => ConfigView::Generic { entries: m@ },
    }
}

/// A registered plugin as plain values.
pub struct PluginView {
    pub name: Seq<char>,
    pub version: Seq<char>,
    pub description: Seq<char>,
    pub author: Seq<char>,
    pub plugin_type: PluginType,
    pub status: StatusView,
    pub config: ConfigView,
    pub file_path: Option<Seq<char>>,
}

/// The plugin as plain values.
pub open spec fn plugin_view(p: PluginInstance) -> PluginView {
    PluginView {
        name: p.metadata.name@,
        version: p.metadata.version@,
        description: p.metadata.description@,
        author: p.metadata.author@,
        plugin_type: p.metadata.plugin_type,
        status: status_view(p.status),
        config: config_view(p.config),
        file_path: match p.file_path {
            Some(f) => Some(f@),
            None => None,
        },
    }
}

/// The concurrent map of plugins by name.
pub type PluginTable = DashMap<String, PluginInstance>;

/// The plugins held by a concurrent map, by name.
pub uninterp spec fn plugin_table(m: PluginTable) -> Map<Seq<char>, PluginView>;

/// An empty map (`DashMap::new`).
#[verifier::external_body]
fn table_new() -> (fresh: PluginTable)
    ensures
        plugin_table(fresh).dom() == Set::<Seq<char>>::empty(),
{
    DashMap::new()
}

/// Stores a plugin under a name, replacing any (`DashMap::insert`).
#[verifier::external_body]
fn table_insert(m: &mut PluginTable, k: String, v: PluginInstance)
    ensures
        plugin_table(*final(m)) == plugin_table(*old(m)).insert(k@, plugin_view(v)),
{
    m.insert(k, v);
}

/// Removes the plugin of a name; says whether there was one (`DashMap::remove`).
#[verifier::external_body]
fn table_remove(m: &mut PluginTable, k: &str) -> (r: bool)
    ensures
        r == plugin_table(*old(m)).dom().contains(k@),
        plugin_table(*final(m)) == plugin_table(*old(m)).remove(k@),
{
    m.remove(k).is_some()
}

/// A copy of the plugin of a name (`DashMap::get`).
#[verifier::external_body]
fn table_get(m: &PluginTable, k: &str) -> (r: Option<PluginInstance>)
    ensures
        match r {
            Some(v) => plugin_table(*m).dom().contains(k@) && plugin_view(v) == plugin_table(*m)[k@],
            None => !plugin_table(*m).dom().contains(k@),
        },
{
    m.get(k).map(|e| e.value().clone())
}

/// `v` lists the map: every name with its plugin, each name once.
pub open spec fn lists_table(v: Seq<(String, PluginInstance)>, t: Map<Seq<char>, PluginView>) -> bool {
    &&& forall|i: int| 0 <= i < v.len() ==> t.dom().contains(#[trigger] v[i].0@) && plugin_view(v[i].1) == t[v[i].0@]
    &&& forall|i: int, j: int| 0 <= i < j < v.len() ==> v[i].0@ != v[j].0@
    &&& forall|k: Seq<char>| t.dom().contains(k) ==> exists|i: int| 0 <= i < v.len() && #[trigger] v[i].0@ == k
}

/// Every name and plugin of the map, each once, in no particular order
/// (`DashMap::iter`).
#[verifier::external_body]
fn table_entries(m: &PluginTable) -> (v: Vec<(String, PluginInstance)>)
    ensures
        lists_table(v@, plugin_table(*m)),
{
    m.iter().map(|e| (e.key().clone(), e.value().clone())).collect()
}

/// The number of plugins (`DashMap::len`).
#[verifier::external_body]
fn table_len(m: &PluginTable) -> (n: usize)
    ensures
        n == plugin_table(*m).dom().len(),
{
    m.len()
}

/// `"Plugin '<name>' " + tail`
pub open spec fn plugin_message(name: Seq<char>, tail: Seq<char>) -> Seq<char> {
    "Plugin '"@ + name + "' "@ + tail
}

/// Which plugins a listing shows.
pub enum Selection {
    All,
    OfType(PluginType),
    Enabled,
    DetectionRules,
}

/// Whether a listing shows a plugin: every one, those of a type, the
/// enabled ones, or the enabled detection plugins with a detection
/// configuration.
pub open spec fn selected(sel: Selection, v: PluginView) -> bool {
    match sel {
        Selection::All => true,
        Selection::OfType(t) => v.plugin_type == t,
        Selection::Enabled => v.status is Enabled,
        Selection::DetectionRules => v.status is Enabled && v.plugin_type == PluginType::Detection
            && v.config is Detection,
    }
}

/// `ks` names each selected plugin of the map once, in some order.
pub open spec fn lists_selected(ks: Seq<Seq<char>>, t: Map<Seq<char>, PluginView>, sel: Selection) -> bool {
    &&& ks.no_duplicates()
    &&& forall|i: int| 0 <= i < ks.len() ==> t.dom().contains(#[trigger] ks[i]) && selected(sel, t[ks[i]])
    &&& forall|k: Seq<char>| t.dom().contains(k) && selected(sel, t[k]) ==> #[trigger] ks.contains(k)
}

/// The attack type and patterns of a detection plugin.
pub open spec fn rule_of(v: PluginView) -> (Seq<char>, Seq<Seq<char>>) {
    match v.config {
        ConfigView::Detection { patterns, attack_type } => (attack_type, patterns),
        _ => (Seq::empty(), Seq::empty()),
    }
}

/// Plugins by unique name.
pub struct PluginRegistry {
    plugins: PluginTable,
}

impl PluginRegistry {
    /// The registered plugins by name.
    pub closed spec fn table(&self) -> Map<Seq<char>, PluginView> {
        plugin_table(self.plugins)
    }

    /// An empty registry.
    pub fn new() -> (r: Self)
        ensures
            r.table() == Map::<Seq<char>, PluginView>::empty(),
    {
        let r = PluginRegistry { plugins: table_new() };
        assert(r.table() =~= Map::<Seq<char>, PluginView>::empty());
        r
    }

    /// Number of registered plugins.
    pub fn count(&self) -> (n: usize)
        ensures
            n == self.table().dom().len(),
    {
        table_len(&self.plugins)
    }

    /// A copy of the plugin called `name`.
    pub fn get(&self, name: &str) -> (r: Option<PluginInstance>)
        ensures
            match r {
                Some(p) => self.table().dom().contains(name@) && plugin_view(p) == self.table()[name@],
                None => !self.table().dom().contains(name@),
            },
    {
        table_get(&self.plugins, name)
    }

    /// Registers a plugin under its name; refused when the name is taken.
    pub fn register(&mut self, plugin: PluginInstance) -> (r: Result<(), String>)
        ensures
            if old(self).table().dom().contains(plugin.metadata.name@) {
                r == Err::<(), String>(r->Err_0)
                    && r->Err_0@ == plugin_message(plugin.metadata.name@, "already registered"@)
                    && final(self).table() == old(self).table()
            } else {
                r is Ok && final(self).table() == old(self).table().insert(plugin.metadata.name@, plugin_view(plugin))
            },
    {
        let name = plugin.metadata.name.clone();
        match table_get(&self.plugins, name.as_str()) {
            Some(_) => Err(plugin_text(name.as_str(), "already registered")),
            None => {
                table_insert(&mut self.plugins, name, plugin);
                Ok(())
            },
        }
    }

    /// Removes the plugin called `name`; refused when there is none.
    pub fn unregister(&mut self, name: &str) -> (r: Result<(), String>)
        ensures
            if old(self).table().dom().contains(name@) {
                r is Ok && final(self).table() == old(self).table().remove(name@)
            } else {
                r == Err::<(), String>(r->Err_0) && r->Err_0@ == plugin_message(name@, "not found"@)
                    && final(self).table() == old(self).table()
            },
    {
        if table_remove(&mut self.plugins, name) {
            Ok(())
        } else {
            Err(plugin_text(name, "not found"))
        }
    }

    /// Sets the status of the plugin called `name` to enabled or disabled.
    fn set_enabled(&mut self, name: &str, on: bool) -> (r: Result<(), String>)
        ensures
            if old(self).table().dom().contains(name@) {
                r is Ok && final(self).table() == old(self).table().insert(name@, PluginView {
                    status: if on { StatusView::Enabled } else { StatusView::Disabled },
                    ..old(self).table()[name@]
                })
            } else {
                r == Err::<(), String>(r->Err_0) && r->Err_0@ == plugin_message(name@, "not found"@)
                    && final(self).table() == old(self).table()
            },
    {
        match table_get(&self.plugins, name) {
            Some(mut p) => {
                if on {
                    p.enable();
                } else {
                    p.disable();
                }
                table_insert(&mut self.plugins, name.to_string(), p);
                Ok(())
            },
            None => Err(plugin_text(name, "not found")),
        }
    }

    /// Enables the plugin called `name`.
    pub fn enable(&mut self, name: &str) -> (r: Result<(), String>)
        ensures
            if old(self).table().dom().contains(name@) {
                r is Ok && final(self).table() == old(self).table().insert(name@,
                    PluginView { status: StatusView::Enabled, ..old(self).table()[name@] })
            } else {
                r == Err::<(), String>(r->Err_0) && r->Err_0@ == plugin_message(name@, "not found"@)
                    && final(self).table() == old(self).table()
            },
    {
        self.set_enabled(name, true)
    }

    /// Disables the plugin called `name`.
    pub fn disable(&mut self, name: &str) -> (r: Result<(), String>)
        ensures
            if old(self).table().dom().contains(name@) {
                r is Ok && final(self).table() == old(self).table().insert(name@,
                    PluginView { status: StatusView::Disabled, ..old(self).table()[name@] })
            } else {
                r == Err::<(), String>(r->Err_0) && r->Err_0@ == plugin_message(name@, "not found"@)
                    && final(self).table() == old(self).table()
            },
    {
        self.set_enabled(name, false)
    }

    /// Replaces the configuration of the plugin called `name`.
    pub fn update_config(&mut self, name: &str, new_config: PluginConfig) -> (r: Result<(), String>)
        ensures
            if old(self).table().dom().contains(name@) {
                r is Ok && final(self).table() == old(self).table().insert(name@,
                    PluginView { config: config_view(new_config), ..old(self).table()[name@] })
            } else {
                r == Err::<(), String>(r->Err_0) && r->Err_0@ == plugin_message(name@, "not found"@)
                    && final(self).table() == old(self).table()
            },
    {
        match table_get(&self.plugins, name) {
            Some(p) => {
                let q = PluginInstance { config: new_config, ..p };
                table_insert(&mut self.plugins, name.to_string(), q);
                Ok(())
            },
            None => Err(plugin_text(name, "not found")),
        }
    }

    /// Copies of the selected plugins, each once, in no particular order.
    fn select(&self, sel: Selection) -> (out: Vec<PluginInstance>)
        ensures
            exists|ks: Seq<Seq<char>>| #[trigger] lists_selected(ks, self.table(), sel)
                && ks.len() == out@.len()
                && forall|i: int| 0 <= i < ks.len() ==> plugin_view(#[trigger] out@[i]) == self.table()[ks[i]],
    {
        let mut entries = table_entries(&self.plugins);
        let ghost t = self.table();
        let ghost all = entries@;
        let mut out: Vec<PluginInstance> = Vec::new();
        let ghost mut ks: Seq<Seq<char>> = Seq::empty();
        while entries.len() > 0
            invariant
                t == self.table(),
                lists_table(all, t),
                entries@ == all.take(entries@.len() as int),
                entries@.len() <= all.len(),
                ks.len() == out@.len(),
                ks.no_duplicates(),
                forall|i: int| 0 <= i < ks.len() ==> plugin_view(#[trigger] out@[i]) == t[ks[i]],
                forall|i: int| 0 <= i < ks.len() ==> t.dom().contains(#[trigger] ks[i]) && selected(sel, t[ks[i]]),
                forall|i: int| #![trigger ks.contains(all[i].0@)] entries@.len() <= i < all.len() && selected(sel, t[all[i].0@])
                    ==> ks.contains(all[i].0@),
                forall|i: int, j: int| 0 <= i < ks.len() && 0 <= j < entries@.len() ==> #[trigger] ks[i] != #[trigger] all[j].0@,
            decreases entries@.len(),
        {
            let ghost n = entries@.len() as int;
            let ghost old_ks = ks;
            let e = entries.pop();
            match e {
                Some((k, p)) => {
                    proof {
                        assert(all[n - 1] == (k, p));
                        assert(entries@ =~= all.take(n - 1));
                        assert(t.dom().contains(k@) && plugin_view(p) == t[k@]);
                    }
                    if select_matches(&sel, &p) {
                        proof {
                            assert forall|i: int| 0 <= i < ks.len() implies ks[i] != k@ by {
                                assert(ks[i] != all[n - 1].0@);
                            }
                            ks = ks.push(k@);
                        }
                        out.push(p);
                    }
                },
                None => {},
            }
            proof {
                assert forall|i: int| entries@.len() <= i < all.len() && selected(sel, t[all[i].0@])
                    implies #[trigger] ks.contains(all[i].0@) by {
                    if i == n - 1 {
                        assert(ks[ks.len() - 1] == all[i].0@);
                    } else {
                        assert(old_ks.contains(all[i].0@));
                        let w = choose|w: int| 0 <= w < old_ks.len() && old_ks[w] == all[i].0@;
                        assert(ks[w] == old_ks[w]);
                    }
                }
            }
        }
        proof {
            assert forall|k: Seq<char>| t.dom().contains(k) && selected(sel, t[k]) implies #[trigger] ks.contains(k) by {
                let i = choose|i: int| 0 <= i < all.len() && #[trigger] all[i].0@ == k;
                assert(ks.contains(all[i].0@));
            }
            assert(lists_selected(ks, t, sel));
        }
        out
    }

    /// Copies of every registered plugin, in no particular order.
    pub fn list(&self) -> (out: Vec<PluginInstance>)
        ensures
            exists|ks: Seq<Seq<char>>| #[trigger] lists_selected(ks, self.table(), Selection::All)
                && ks.len() == out@.len()
                && forall|i: int| 0 <= i < ks.len() ==> plugin_view(#[trigger] out@[i]) == self.table()[ks[i]],
    {
        self.select(Selection::All)
    }

    /// Copies of the registered plugins of a type, in no particular order.
    pub fn list_by_type(&self, plugin_type: &PluginType) -> (out: Vec<PluginInstance>)
        ensures
            exists|ks: Seq<Seq<char>>| #[trigger] lists_selected(ks, self.table(), Selection::OfType(*plugin_type))
                && ks.len() == out@.len()
                && forall|i: int| 0 <= i < ks.len() ==> plugin_view(#[trigger] out@[i]) == self.table()[ks[i]],
    {
        self.select(Selection::OfType(*plugin_type))
    }

    /// Copies of the enabled plugins, in no particular order.
    pub fn list_enabled(&self) -> (out: Vec<PluginInstance>)
        ensures
            exists|ks: Seq<Seq<char>>| #[trigger] lists_selected(ks, self.table(), Selection::Enabled)
                && ks.len() == out@.len()
                && forall|i: int| 0 <= i < ks.len() ==> plugin_view(#[trigger] out@[i]) == self.table()[ks[i]],
    {
        self.select(Selection::Enabled)
    }

    /// Takes in the plugins of a directory scan, in order (see
    /// [`reload_one`]); returns how many were reloaded.
    pub fn reload(&mut self, scanned: Vec<PluginInstance>) -> (n: usize)
        ensures
            (final(self).table(), n as nat) == reload_spec(old(self).table(), scanned@.map_values(|p: PluginInstance| plugin_view(p))),
    {
        let ghost orig = scanned@.map_values(|p: PluginInstance| plugin_view(p));
        let total: usize = scanned.len();
        let mut rest = scanned;
        let mut n: usize = 0;
        let mut k: usize = 0;
        assert(orig.take(0) =~= Seq::<PluginView>::empty());
        assert(rest@.map_values(|p: PluginInstance| plugin_view(p)) =~= orig.skip(0));
        while rest.len() > 0
            invariant
                k <= orig.len(),
                orig.len() == total,
                rest@.map_values(|p: PluginInstance| plugin_view(p)) == orig.skip(k as int),
                (self.table(), n as nat) == reload_spec(old(self).table(), orig.take(k as int)),
                n <= k,
            decreases rest@.len(),
        {
            let ghost before_rest = rest@;
            let p = rest.remove(0);
            proof {
                let vr = before_rest.map_values(|q: PluginInstance| plugin_view(q));
                assert(vr.len() == before_rest.len());
                assert(k < orig.len());
                assert(vr[0] == plugin_view(p));
                assert(orig[k as int] == vr[0]);
                assert(orig.take(k + 1).drop_last() =~= orig.take(k as int));
                assert(orig.take(k + 1).last() == plugin_view(p));
                assert(rest@ =~= before_rest.subrange(1, before_rest.len() as int));
                let nr = rest@.map_values(|q: PluginInstance| plugin_view(q));
                assert forall|j: int| 0 <= j < nr.len() implies #[trigger] nr[j] == orig.skip(k + 1)[j] by {
                    assert(vr[j + 1] == orig.skip(k as int)[j + 1]);
                }
                assert(nr =~= orig.skip(k + 1));
            }
            let name = p.metadata.name.clone();
            match table_get(&self.plugins, name.as_str()) {
                Some(existing) => {
                    if same_file(&existing.file_path, &p.file_path) {
                        let q = PluginInstance { status: existing.status, ..p };
                        table_insert(&mut self.plugins, name, q);
                        n = n + 1;
                    }
                },
                None => {
                    table_insert(&mut self.plugins, name, p);
                    n = n + 1;
                },
            }
            k = k + 1;
        }
        proof {
            assert(orig.take(k as int) =~= orig);
        }
        n
    }

    /// Registers the plugins of a directory scan in order, skipping taken
    /// names; returns how many were scanned.
    pub fn load_from_directory(&mut self, scanned: Vec<PluginInstance>) -> (r: Result<usize, String>)
        ensures
            final(self).table() == register_all(old(self).table(), scanned@.map_values(|p: PluginInstance| plugin_view(p))),
            r == Ok::<usize, String>(scanned@.len() as usize),
    {
        let ghost orig = scanned@.map_values(|p: PluginInstance| plugin_view(p));
        let n = scanned.len();
        let mut rest = scanned;
        let mut k: usize = 0;
        assert(orig.take(0) =~= Seq::<PluginView>::empty());
        assert(rest@.map_values(|p: PluginInstance| plugin_view(p)) =~= orig.skip(0));
        while rest.len() > 0
            invariant
                k <= orig.len(),
                orig.len() == n,
                rest@.map_values(|p: PluginInstance| plugin_view(p)) == orig.skip(k as int),
                self.table() == register_all(old(self).table(), orig.take(k as int)),
            decreases rest@.len(),
        {
            let ghost before_rest = rest@;
            let p = rest.remove(0);
            proof {
                let vr = before_rest.map_values(|q: PluginInstance| plugin_view(q));
                assert(vr.len() == before_rest.len());
                assert(k < orig.len());
                assert(vr[0] == plugin_view(p));
                assert(orig[k as int] == vr[0]);
                assert(orig.take(k + 1).drop_last() =~= orig.take(k as int));
                assert(orig.take(k + 1).last() == plugin_view(p));
                assert(rest@ =~= before_rest.subrange(1, before_rest.len() as int));
                let nr = rest@.map_values(|q: PluginInstance| plugin_view(q));
                assert forall|j: int| 0 <= j < nr.len() implies #[trigger] nr[j] == orig.skip(k + 1)[j] by {
                    assert(vr[j + 1] == orig.skip(k as int)[j + 1]);
                }
                assert(nr =~= orig.skip(k + 1));
            }
            let _ = self.register(p);
            k = k + 1;
        }
        proof {
            assert(orig.take(k as int) =~= orig);
        }
        Ok(n)
    }

    /// The attack types and patterns of the enabled detection plugins, one
    /// pair per plugin, in no particular order.
    pub fn detection_rules(&self) -> (rules: Vec<(String, Vec<String>)>)
        ensures
            exists|ks: Seq<Seq<char>>| #[trigger] lists_selected(ks, self.table(), Selection::DetectionRules)
                && rules_view(rules@) == ks.map_values(|k: Seq<char>| rule_of(self.table()[k])),
    {
        let mut chosen = self.select(Selection::DetectionRules);
        let ghost t = self.table();
        let ghost ks = choose|ks: Seq<Seq<char>>| #[trigger] lists_selected(ks, t, Selection::DetectionRules)
            && ks.len() == chosen@.len()
            && forall|i: int| 0 <= i < ks.len() ==> plugin_view(#[trigger] chosen@[i]) == t[ks[i]];
        let ghost all = chosen@;
        let mut rules: Vec<(String, Vec<String>)> = Vec::new();
        let ghost mut picked: Seq<Seq<char>> = Seq::empty();
        while chosen.len() > 0
            invariant
                t == self.table(),
                lists_selected(ks, t, Selection::DetectionRules),
                ks.len() == all.len(),
                forall|i: int| 0 <= i < ks.len() ==> plugin_view(#[trigger] all[i]) == t[ks[i]],
                chosen@ == all.take(chosen@.len() as int),
                chosen@.len() <= all.len(),
                rules_view(rules@) == ks.skip(chosen@.len() as int).reverse().map_values(|k: Seq<char>| rule_of(t[k])),
            decreases chosen@.len(),
        {
            let ghost m = chosen@.len() as int;
            let e = chosen.pop();
            match e {
                Some(p) => {
                    proof {
                        assert(all[m - 1] == p);
                        assert(chosen@ =~= all.take(m - 1));
                        assert(plugin_view(p) == t[ks[m - 1]]);
                        assert(selected(Selection::DetectionRules, t[ks[m - 1]]));
                    }
                    match p.config {
                        PluginConfig::Detection(d) => {
                            let ghost before = rules_view(rules@);
                            rules.push((d.attack_type, d.patterns));
                            proof {
                                assert(rules_view(rules@) =~= before.push(rule_of(t[ks[m - 1]])));
                                assert(ks.skip(m - 1).reverse() =~= ks.skip(m).reverse().push(ks[m - 1]));
                                assert(ks.skip(m - 1).reverse().map_values(|k: Seq<char>| rule_of(t[k]))
                                    =~= ks.skip(m).reverse().map_values(|k: Seq<char>| rule_of(t[k])).push(rule_of(t[ks[m - 1]])));
                            }
                        },
                        _ => {},
                    }
                },
                None => {},
            }
        }
        proof {
            let rks = ks.reverse();
            assert(ks.skip(0) =~= ks);
            assert(rules_view(rules@) == rks.map_values(|k: Seq<char>| rule_of(t[k])));
            assert forall|a: int, b: int| 0 <= a < rks.len() && 0 <= b < rks.len() && a != b implies rks[a] != rks[b] by {
                assert(ks[ks.len() - 1 - a] != ks[ks.len() - 1 - b]);
            }
            assert forall|k: Seq<char>| t.dom().contains(k) && selected(Selection::DetectionRules, t[k]) implies #[trigger] rks.contains(k) by {
                assert(ks.contains(k));
                let i = choose|i: int| 0 <= i < ks.len() && ks[i] == k;
                assert(rks[ks.len() - 1 - i] == k);
            }
            assert forall|i: int| 0 <= i < rks.len() implies t.dom().contains(#[trigger] rks[i]) && selected(Selection::DetectionRules, t[rks[i]]) by {
                assert(rks[i] == ks[ks.len() - 1 - i]);
            }
            assert(lists_selected(rks, t, Selection::DetectionRules));
        }
        rules
    }
}

/// Whether a listing shows the plugin.
fn select_matches(sel: &Selection, p: &PluginInstance) -> (b: bool)
    ensures
        b == selected(*sel, plugin_view(*p)),
{
    match sel {
        Selection::All => true,
        Selection::OfType(t) => p.metadata.plugin_type == *t,
        Selection::Enabled => p.is_enabled(),
        Selection::DetectionRules => p.is_enabled() && p.metadata.plugin_type == PluginType::Detection
            && match p.config {
                PluginConfig::Detection(_) => true,
                _ => false,
            },
    }
}

/// Rules as plain values.
pub open spec fn rules_view(rules: Seq<(String, Vec<String>)>) -> Seq<(Seq<char>, Seq<Seq<char>>)> {
    rules.map_values(|r: (String, Vec<String>)| (r.0@, r.1@.map_values(|p: String| p@)))
}

/// The registry after one scanned plugin is taken in, and whether it
/// counts as reloaded: a plugin of a known name read from the same file
/// replaces it and keeps its status; one of a new name is registered; one
/// of a known name from another file is ignored.
pub open spec fn reload_one(t: Map<Seq<char>, PluginView>, p: PluginView) -> (Map<Seq<char>, PluginView>, nat) {
    if t.dom().contains(p.name) {
        if t[p.name].file_path == p.file_path {
            (t.insert(p.name, PluginView { status: t[p.name].status, ..p }), 1)
        } else {
            (t, 0)
        }
    } else {
        (t.insert(p.name, p), 1)
    }
}

/// The registry after the scanned plugins are taken in, in order, and how
/// many were reloaded.
pub open spec fn reload_spec(t: Map<Seq<char>, PluginView>, news: Seq<PluginView>) -> (Map<Seq<char>, PluginView>, nat)
    decreases news.len(),
{
    if news.len() == 0 {
        (t, 0)
    } else {
        let (t1, n1) = reload_spec(t, news.drop_last());
        let (t2, hit) = reload_one(t1, news.last());
        (t2, n1 + hit)
    }
}

/// The registry after registering each plugin in order (a taken name is
/// skipped).
pub open spec fn register_all(t: Map<Seq<char>, PluginView>, news: Seq<PluginView>) -> Map<Seq<char>, PluginView>
    decreases news.len(),
{
    if news.len() == 0 {
        t
    } else {
        let t1 = register_all(t, news.drop_last());
        if t1.dom().contains(news.last().name) {
            t1
        } else {
            t1.insert(news.last().name, news.last())
        }
    }
}

/// Registering a plugin under a free name and then unregistering that name
/// gives back the registry as it was.
pub proof fn law_register_then_unregister_restores(t: Map<Seq<char>, PluginView>, p: PluginView)
    requires
        !t.dom().contains(p.name),
    ensures
        t.insert(p.name, p).remove(p.name) == t,
{
    assert(t.insert(p.name, p).remove(p.name) =~= t);
}

/// Whether two optional file paths are the same text (or both absent).
fn same_file(a: &Option<String>, b: &Option<String>) -> (r: bool)
    ensures
        r == (match (*a, *b) {
            (Some(x), Some(y)) => x@ == y@,
            (None, None) => true,
            _ => false,
        }),
{
    match (a, b) {
        (Some(x), Some(y)) => crate::text::str_eq(x.as_str(), y.as_str()),
        (None, None) => true,
        _ => false,
    }
}

/// `"Plugin '<name>' " + tail`
fn plugin_text(name: &str, tail: &str) -> (s: String)
    ensures
        s@ == plugin_message(name@, tail@),
{
    let mut v = chars_of("Plugin '");
    append_chars(&mut v, chars_of(name).as_slice());
    append_chars(&mut v, chars_of("' ").as_slice());
    append_chars(&mut v, chars_of(tail).as_slice());
    assert(v@ =~= plugin_message(name@, tail@));
    string_from_chars(v.as_slice())
}

/// Seconds between plugin directory scans.
pub const PLUGIN_WATCH_INTERVAL_SECS: u64 = 30;

/// Where plugin files are looked for, and when they were last scanned.
pub struct PluginLoader {
    pub plugin_dirs: Vec<String>,
    pub watch_interval_secs: u64,
    /// Monotonic time of the last scan, in nanoseconds.
    pub last_scan: u64,
}

impl PluginLoader {
    /// A loader for `<base>/plugins/detection` and `<base>/plugins/exporters`,
    /// scanned every thirty seconds, last scanned at `now`.
    pub fn new(base_dir: &str, now: u64) -> (l: Self)
        ensures
            l.plugin_dirs@.len() == 2,
            l.plugin_dirs@[0]@ == joined_path(joined_path(base_dir@, "plugins"@), "detection"@),
            l.plugin_dirs@[1]@ == joined_path(joined_path(base_dir@, "plugins"@), "exporters"@),
            l.watch_interval_secs == PLUGIN_WATCH_INTERVAL_SECS,
            l.last_scan == now,
    {
        let plugins = path_join(base_dir, "plugins");
        let detection = path_join(plugins.as_str(), "detection");
        let exporters = path_join(plugins.as_str(), "exporters");
        let mut dirs: Vec<String> = Vec::new();
        dirs.push(detection);
        dirs.push(exporters);
        PluginLoader { plugin_dirs: dirs, watch_interval_secs: PLUGIN_WATCH_INTERVAL_SECS, last_scan: now }
    }

    /// Whether the watch interval has passed since the last scan.
    pub fn should_reload(&self, now: u64) -> (b: bool)
        ensures
            b == (now >= self.last_scan && (now - self.last_scan) >= self.watch_interval_secs as int * crate::clock::NANOS_PER_SEC as int),
    {
        now >= self.last_scan && (now - self.last_scan) as u128 >= (self.watch_interval_secs as u128) * (crate::clock::NANOS_PER_SEC as u128)
    }

    /// Records a scan at `now`.
    pub fn mark_scanned(&mut self, now: u64)
        ensures
            final(self).last_scan == now,
            final(self).plugin_dirs == old(self).plugin_dirs,
            final(self).watch_interval_secs == old(self).watch_interval_secs,
    {
        self.last_scan = now;
    }
}

} // verus!
