//! The plugin registry: plugins by name, with the roles they were
//! registered in.
//!
//! The registrar names the role. A name has one plugin: registering again
//! under a name puts the new plugin in place of the old one and adds the
//! role to the roles that the name has.

use crate::error::OomdError;
use crate::keyed::{key_texts, KeyedList};
use crate::plugins::interface::{PluginConfig, PluginMetadata, PluginType};
use crate::plugins::value::{view_under, Value, ValueView};
use crate::text::{chars_of, has_prefix, starts_with};
use vstd::prelude::*;

verus! {

/// A registered plugin with its roles.
#[derive(Debug)]
pub struct Registered<P> {
    pub plugin: P,
    pub detector: bool,
    pub action: bool,
}

/// Whether an entry has the roles that a plugin type asks for.
pub open spec fn has_roles<P>(e: Registered<P>, plugin_type: PluginType) -> bool {
    match plugin_type {
        PluginType::Detector => e.detector,
        PluginType::Action => e.action,
        PluginType::Hybrid => e.detector && e.action,
    }
}

/// The keys of the entries that have the roles of `plugin_type`, in order.
pub open spec fn names_with<P>(
    keys: Seq<Seq<char>>,
    entries: Seq<Registered<P>>,
    plugin_type: PluginType,
) -> Seq<Seq<char>>
    decreases keys.len(),
{
    if keys.len() == 0 || entries.len() != keys.len() {
        Seq::empty()
    } else if has_roles(entries.last(), plugin_type) {
        names_with(keys.drop_last(), entries.drop_last(), plugin_type).push(keys.last())
    } else {
        names_with(keys.drop_last(), entries.drop_last(), plugin_type)
    }
}

/// The plugins of the entries that have the roles of `plugin_type`, in
/// order.
pub open spec fn plugins_with<P>(entries: Seq<Registered<P>>, plugin_type: PluginType) -> Seq<P>
    decreases entries.len(),
{
    if entries.len() == 0 {
        Seq::empty()
    } else if has_roles(entries.last(), plugin_type) {
        plugins_with(entries.drop_last(), plugin_type).push(entries.last().plugin)
    } else {
        plugins_with(entries.drop_last(), plugin_type)
    }
}

/// A plugin that the daemon knows how to make.
#[derive(Debug, Clone, Copy, PartialEq, Eq, Structural)]
pub enum KnownPlugin {
    MemoryPressureDetector,
    MemoryUsageDetector,
    IoPressureDetector,
    KillAction,
    MemoryReclaimAction,
}

impl KnownPlugin {
    /// The role of the plugin.
    pub open spec fn role(self) -> PluginType {
        match self {
            KnownPlugin::MemoryPressureDetector => PluginType::Detector,
            KnownPlugin::MemoryUsageDetector => PluginType::Detector,
            KnownPlugin::IoPressureDetector => PluginType::Detector,
            KnownPlugin::KillAction => PluginType::Action,
            KnownPlugin::MemoryReclaimAction => PluginType::Action,
        }
    }

    /// The role under which the plugin is registered.
    pub fn plugin_type(&self) -> (r: PluginType)
        ensures
            r == self.role(),
    {
        match self {
            KnownPlugin::MemoryPressureDetector => PluginType::Detector,
            KnownPlugin::MemoryUsageDetector => PluginType::Detector,
            KnownPlugin::IoPressureDetector => PluginType::Detector,
            KnownPlugin::KillAction => PluginType::Action,
            KnownPlugin::MemoryReclaimAction => PluginType::Action,
        }
    }
}

/// The plugin that a record of the configuration asks for, by its type and
/// the beginning of its name; none where the daemon knows no such plugin.
pub open spec fn known_plugin(plugin_type: PluginType, name: Seq<char>) -> Option<KnownPlugin> {
    match plugin_type {
        PluginType::Detector => if starts_with(name, "memory_pressure"@) {
            Some(KnownPlugin::MemoryPressureDetector)
        } else if starts_with(name, "memory_usage"@) {
            Some(KnownPlugin::MemoryUsageDetector)
        } else if starts_with(name, "io_pressure"@) {
            Some(KnownPlugin::IoPressureDetector)
        } else {
            None
        },
        PluginType::Action => if starts_with(name, "kill"@) {
            Some(KnownPlugin::KillAction)
        } else if starts_with(name, "memory_reclaim"@) {
            Some(KnownPlugin::MemoryReclaimAction)
        } else {
            None
        },
        PluginType::Hybrid => None,
    }
}

/// The plugins that the enabled records ask for, in order; none where an
/// enabled record asks for a plugin that the daemon does not know.
pub open spec fn load_plan(config: Seq<PluginConfig>) -> Option<Seq<KnownPlugin>>
    decreases config.len(),
{
    if config.len() == 0 {
        Some(Seq::empty())
    } else {
        match load_plan(config.drop_last()) {
            None => None,
            Some(rest) => if !config.last().enabled {
                Some(rest)
            } else {
                match known_plugin(config.last().plugin_type, config.last().name@) {
                    Some(k) => Some(rest.push(k)),
                    None => None,
                }
            },
        }
    }
}

/// The plugin that a record asks for.
pub fn find_known_plugin(plugin_type: PluginType, name: &str) -> (r: Option<KnownPlugin>)
    ensures
        r == known_plugin(plugin_type, name@),
{
    let n = chars_of(name);
    match plugin_type {
        PluginType::Detector => {
            if has_prefix(&n, &chars_of("memory_pressure")) {
                Some(KnownPlugin::MemoryPressureDetector)
            } else if has_prefix(&n, &chars_of("memory_usage")) {
                Some(KnownPlugin::MemoryUsageDetector)
            } else if has_prefix(&n, &chars_of("io_pressure")) {
                Some(KnownPlugin::IoPressureDetector)
            } else {
                None
            }
        },
        PluginType::Action => {
            if has_prefix(&n, &chars_of("kill")) {
                Some(KnownPlugin::KillAction)
            } else if has_prefix(&n, &chars_of("memory_reclaim")) {
                Some(KnownPlugin::MemoryReclaimAction)
            } else {
                None
            }
        },
        PluginType::Hybrid => None,
    }
}

/// The registry of plugins of the handle type `P`.
#[derive(Debug)]
pub struct PluginRegistry<P> {
    pub plugins: KeyedList<Registered<P>>,
    pub metadata: KeyedList<PluginMetadata>,
}

impl<P> PluginRegistry<P> {
    /// Whether the name is registered as a detector.
    pub open spec fn is_detector(self, name: Seq<char>) -> bool {
        match self.plugins.lookup(name) {
            Some(e) => e.detector,
            None => false,
        }
    }

    /// Whether the name is registered as an action.
    pub open spec fn is_action(self, name: Seq<char>) -> bool {
        match self.plugins.lookup(name) {
            Some(e) => e.action,
            None => false,
        }
    }

    /// The plugin under the name.
    pub open spec fn plugin(self, name: Seq<char>) -> Option<P> {
        match self.plugins.lookup(name) {
            Some(e) => Some(e.plugin),
            None => None,
        }
    }

    /// Whether `after` is `self` with `plugin` registered under `name`, the
    /// roles of the name being those it had and those given.
    pub open spec fn registered(
        self,
        after: PluginRegistry<P>,
        name: Seq<char>,
        plugin: P,
        detector: bool,
        action: bool,
    ) -> bool {
        after.plugins.lookup(name) == Some(
            Registered {
                plugin,
                detector: detector || self.is_detector(name),
                action: action || self.is_action(name),
            },
        ) && after.metadata == self.metadata && (forall|k: Seq<char>|
            k != name ==> #[trigger] after.plugins.lookup(k) == self.plugins.lookup(k)) && (
        self.plugins.has(name) ==> after.plugins.keys() == self.plugins.keys()) && (
        !self.plugins.has(name) ==> after.plugins.keys() == self.plugins.keys().push(name))
    }

    /// The empty registry.
    pub fn new() -> (r: PluginRegistry<P>)
        ensures
            r.plugins.keys() == Seq::<Seq<char>>::empty(),
            r.metadata.keys() == Seq::<Seq<char>>::empty(),
    {
        PluginRegistry { plugins: KeyedList::new(), metadata: KeyedList::new() }
    }

    /// Registers under `name`, adding the given roles.
    fn register(&mut self, name: String, plugin: P, detector: bool, action: bool)
        ensures
            old(self).registered(*final(self), name@, plugin, detector, action),
    {
        let (was_detector, was_action) = match self.plugins.get(name.as_str()) {
            Some(e) => (e.detector, e.action),
            None => (false, false),
        };
        self.plugins.insert(
            name,
            Registered { plugin, detector: detector || was_detector, action: action || was_action },
        );
    }

    /// Registers a plugin under `name` without a role.
    pub fn register_plugin(&mut self, name: String, plugin: P) -> (r: Result<(), OomdError>)
        ensures
            r is Ok,
            old(self).registered(*final(self), name@, plugin, false, false),
    {
        self.register(name, plugin, false, false);
        Ok(())
    }

    /// Registers a plugin under `name` as a detector.
    pub fn register_detector(&mut self, name: String, detector: P) -> (r: Result<(), OomdError>)
        ensures
            r is Ok,
            old(self).registered(*final(self), name@, detector, true, false),
            final(self).is_detector(name@),
    {
        self.register(name, detector, true, false);
        Ok(())
    }

    /// Registers a plugin under `name` as an action.
    pub fn register_action(&mut self, name: String, action: P) -> (r: Result<(), OomdError>)
        ensures
            r is Ok,
            old(self).registered(*final(self), name@, action, false, true),
            final(self).is_action(name@),
    {
        self.register(name, action, false, true);
        Ok(())
    }

    /// The plugin under `name`.
    pub fn get_plugin(&self, name: &str) -> (r: Option<&P>)
        ensures
            match r {
                Some(p) => self.plugin(name@) == Some(*p),
                None => self.plugin(name@) is None,
            },
    {
        match self.plugins.get(name) {
            Some(e) => Some(&e.plugin),
            None => None,
        }
    }

    /// The plugin under `name`, where the name is registered as a detector.
    pub fn get_detector(&self, name: &str) -> (r: Option<&P>)
        ensures
            match r {
                Some(p) => self.is_detector(name@) && self.plugin(name@) == Some(*p),
                None => !self.is_detector(name@),
            },
    {
        match self.plugins.get(name) {
            Some(e) => if e.detector {
                Some(&e.plugin)
            } else {
                None
            },
            None => None,
        }
    }

    /// The plugin under `name`, where the name is registered as an action.
    pub fn get_action(&self, name: &str) -> (r: Option<&P>)
        ensures
            match r {
                Some(p) => self.is_action(name@) && self.plugin(name@) == Some(*p),
                None => !self.is_action(name@),
            },
    {
        match self.plugins.get(name) {
            Some(e) => if e.action {
                Some(&e.plugin)
            } else {
                None
            },
            None => None,
        }
    }

    /// The names of all plugins, in the order in which they were first
    /// registered.
    pub fn list_plugins(&self) -> (r: Vec<String>)
        ensures
            key_texts(r@) == self.plugins.keys(),
    {
        self.plugins.key_list()
    }

    /// The names that have the roles of `plugin_type`.
    fn list_with(&self, plugin_type: PluginType) -> (r: Vec<String>)
        ensures
            key_texts(r@) == names_with(self.plugins.keys(), self.plugins.values(), plugin_type),
    {
        let n = self.plugins.len();
        let ghost keys = self.plugins.keys();
        let ghost entries = self.plugins.values();
        let mut out: Vec<String> = Vec::new();
        let mut i: usize = 0;
        assert(keys.take(0) =~= Seq::<Seq<char>>::empty());
        assert(key_texts(out@) =~= Seq::<Seq<char>>::empty());
        while i < n
            invariant
                i <= n,
                n == keys.len(),
                n == entries.len(),
                keys == self.plugins.keys(),
                entries == self.plugins.values(),
                key_texts(out@) == names_with(
                    keys.take(i as int),
                    entries.take(i as int),
                    plugin_type,
                ),
            decreases n - i,
        {
            proof {
                assert(keys.take(i + 1).drop_last() =~= keys.take(i as int));
                assert(entries.take(i + 1).drop_last() =~= entries.take(i as int));
                assert(keys.take(i + 1).last() == keys[i as int]);
                assert(entries.take(i + 1).last() == entries[i as int]);
            }
            let e = self.plugins.value_at(i);
            let wanted = match plugin_type {
                PluginType::Detector => e.detector,
                PluginType::Action => e.action,
                PluginType::Hybrid => e.detector && e.action,
            };
            if wanted {
                let ghost before = key_texts(out@);
                out.push(self.plugins.key_at(i).clone());
                assert(key_texts(out@) =~= before.push(keys[i as int]));
            }
            i += 1;
        }
        assert(keys.take(n as int) =~= keys);
        assert(entries.take(n as int) =~= entries);
        out
    }

    /// The names that are registered as detectors.
    pub fn list_detectors(&self) -> (r: Vec<String>)
        ensures
            key_texts(r@) == names_with(
                self.plugins.keys(),
                self.plugins.values(),
                PluginType::Detector,
            ),
    {
        self.list_with(PluginType::Detector)
    }

    /// The names that are registered as actions.
    pub fn list_actions(&self) -> (r: Vec<String>)
        ensures
            key_texts(r@) == names_with(
                self.plugins.keys(),
                self.plugins.values(),
                PluginType::Action,
            ),
    {
        self.list_with(PluginType::Action)
    }

    /// Puts the metadata of a plugin under `name`.
    pub fn set_metadata(&mut self, name: String, metadata: PluginMetadata)
        ensures
            final(self).metadata.lookup(name@) == Some(metadata),
            forall|k: Seq<char>|
                k != name@ ==> #[trigger] final(self).metadata.lookup(k) == old(self).metadata.lookup(k),
            final(self).plugins == old(self).plugins,
    {
        self.metadata.insert(name, metadata);
    }

    /// The metadata under `name`.
    pub fn get_metadata(&self, name: &str) -> (r: Option<&PluginMetadata>)
        ensures
            match r {
                Some(m) => self.metadata.lookup(name@) == Some(*m),
                None => self.metadata.lookup(name@) is None,
            },
    {
        self.metadata.get(name)
    }

    /// Whether a plugin is registered under `name`.
    pub fn has_plugin(&self, name: &str) -> (r: bool)
        ensures
            r == self.plugins.has(name@),
            r == (self.plugin(name@) is Some),
    {
        self.plugins.contains_key(name)
    }

    /// Whether `name` is registered as a detector.
    pub fn has_detector(&self, name: &str) -> (r: bool)
        ensures
            r == self.is_detector(name@),
    {
        match self.plugins.get(name) {
            Some(e) => e.detector,
            None => false,
        }
    }

    /// Whether `name` is registered as an action.
    pub fn has_action(&self, name: &str) -> (r: bool)
        ensures
            r == self.is_action(name@),
    {
        match self.plugins.get(name) {
            Some(e) => e.action,
            None => false,
        }
    }

    /// Takes the plugin under `name` out of the registry, with its roles
    /// and its metadata. Other names are not touched.
    pub fn unregister_plugin(&mut self, name: &str) -> (r: Result<(), OomdError>)
        ensures
            r is Ok,
            !final(self).plugins.has(name@),
            final(self).plugin(name@) is None,
            !final(self).is_detector(name@),
            !final(self).is_action(name@),
            final(self).metadata.lookup(name@) is None,
            forall|k: Seq<char>|
                k != name@ ==> #[trigger] final(self).plugins.lookup(k) == old(self).plugins.lookup(k),
            forall|k: Seq<char>|
                k != name@ ==> #[trigger] final(self).metadata.lookup(k) == old(self).metadata.lookup(k),
    {
        self.plugins.remove(name);
        self.metadata.remove(name);
        proof {
            crate::keyed::lemma_key_position(self.plugins.keys(), name@);
            crate::keyed::lemma_key_position(self.metadata.keys(), name@);
        }
        Ok(())
    }

    /// The plugins that have the roles of `plugin_type`: detectors,
    /// actions, or for hybrid those that are both.
    pub fn get_plugins_by_type(&self, plugin_type: PluginType) -> (r: Vec<&P>)
        ensures
            r@.len() == plugins_with(self.plugins.values(), plugin_type).len(),
            forall|i: int|
                0 <= i < r@.len() ==> *(#[trigger] r@[i]) == plugins_with(
                    self.plugins.values(),
                    plugin_type,
                )[i],
    {
        let n = self.plugins.len();
        let ghost entries = self.plugins.values();
        let mut out: Vec<&P> = Vec::new();
        let mut i: usize = 0;
        assert(entries.take(0) =~= Seq::<Registered<P>>::empty());
        while i < n
            invariant
                i <= n,
                n == entries.len(),
                entries == self.plugins.values(),
                out@.len() == plugins_with(entries.take(i as int), plugin_type).len(),
                forall|j: int|
                    0 <= j < out@.len() ==> *(#[trigger] out@[j]) == plugins_with(
                        entries.take(i as int),
                        plugin_type,
                    )[j],
            decreases n - i,
        {
            proof {
                assert(entries.take(i + 1).drop_last() =~= entries.take(i as int));
                assert(entries.take(i + 1).last() == entries[i as int]);
            }
            let e = self.plugins.value_at(i);
            let wanted = match plugin_type {
                PluginType::Detector => e.detector,
                PluginType::Action => e.action,
                PluginType::Hybrid => e.detector && e.action,
            };
            if wanted {
                out.push(&e.plugin);
            }
            i += 1;
        }
        assert(entries.take(n as int) =~= entries);
        out
    }

    /// The plugins that the configuration asks to be made and registered:
    /// one for each enabled record, in order. An enabled record that asks
    /// for a plugin that the daemon does not know is a configuration error.
    pub fn load_from_config(config: &Vec<PluginConfig>) -> (r: Result<Vec<KnownPlugin>, OomdError>)
        ensures
            match load_plan(config@) {
                Some(plan) => r is Ok && r->Ok_0@ == plan,
                None => r is Err && r->Err_0 is Config,
            },
    {
        let mut out: Vec<KnownPlugin> = Vec::new();
        let mut i: usize = 0;
        assert(config@.take(0) =~= Seq::<PluginConfig>::empty());
        while i < config.len()
            invariant
                i <= config.len(),
                load_plan(config@.take(i as int)) == Some(out@),
            decreases config.len() - i,
        {
            proof {
                assert(config@.take(i + 1).drop_last() =~= config@.take(i as int));
                assert(config@.take(i + 1).last() == config@[i as int]);
            }
            let c = &config[i];
            if c.enabled {
                match find_known_plugin(c.plugin_type, c.name.as_str()) {
                    Some(k) => {
                        out.push(k);
                    },
                    None => {
                        proof {
                            lemma_plan_fails(config@, i as int + 1);
                        }
                        return Err(OomdError::Config(String::from_str("Unknown plugin")));
                    },
                }
            }
            i += 1;
        }
        assert(config@.take(config.len() as int) =~= config@);
        Ok(out)
    }

    /// How many plugins, detectors and actions are registered.
    pub fn get_stats(&self) -> (r: KeyedList<Value>)
        ensures
            view_under(r, "total_plugins"@) == Some(
                ValueView::Unsigned(self.plugins.keys().len() as u64),
            ),
            view_under(r, "total_detectors"@) == Some(
                ValueView::Unsigned(
                    names_with(
                        self.plugins.keys(),
                        self.plugins.values(),
                        PluginType::Detector,
                    ).len() as u64,
                ),
            ),
            view_under(r, "total_actions"@) == Some(
                ValueView::Unsigned(
                    names_with(
                        self.plugins.keys(),
                        self.plugins.values(),
                        PluginType::Action,
                    ).len() as u64,
                ),
            ),
    {
        proof {
            reveal_strlit("total_plugins");
            reveal_strlit("total_detectors");
            reveal_strlit("total_actions");
            assert("total_plugins"@.len() == 13);
            assert("total_detectors"@.len() == 15);
            assert("total_actions"@.len() == 13);
            assert("total_plugins"@[6] == 'p');
            assert("total_actions"@[6] == 'a');
        }
        let detectors = self.list_detectors();
        let actions = self.list_actions();
        let mut stats: KeyedList<Value> = KeyedList::new();
        stats.insert(
            String::from_str("total_plugins"),
            Value::Unsigned(self.plugins.len() as u64),
        );
        stats.insert(String::from_str("total_detectors"), Value::Unsigned(detectors.len() as u64));
        stats.insert(String::from_str("total_actions"), Value::Unsigned(actions.len() as u64));
        stats
    }
}

/// Once the records up to `n` cannot be planned, none of the longer lists
/// can.
pub proof fn lemma_plan_fails(config: Seq<PluginConfig>, n: int)
    requires
        0 <= n <= config.len(),
        load_plan(config.take(n)) is None,
    ensures
        load_plan(config) is None,
    decreases config.len() - n,
{
    if n == config.len() {
        assert(config.take(n) =~= config);
    } else {
        assert(config.take(n + 1).drop_last() =~= config.take(n));
        lemma_plan_fails(config, n + 1);
    }
}

} // verus!
