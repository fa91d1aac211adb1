//! Loading of plugin modules and the registry of loaded plugins.

use crate::config::SecretStore;
use crate::plugin_api_v1;
use crate::plugin_api_v2;
use std::sync::Arc;
use vstd::prelude::*;

verus! {

/// The generations of the plugin interface that this host supports.
#[derive(Clone, Copy, Debug, PartialEq, Eq, Structural)]
pub enum Generation {
    V1,
    V2,
}

impl Generation {
    /// The generation that a module reporting `version` implements.
    pub open spec fn spec_from_version(version: u32) -> Option<Generation> {
        if version == 1 {
            Some(Generation::V1)
        } else if version == 2 {
            Some(Generation::V2)
        } else {
            None
        }
    }

    /// The generation that a module reporting `version` implements; `None`
    /// for every version this host does not support.
    #[verifier::when_used_as_spec(spec_from_version)]
    pub fn from_version(version: u32) -> (generation: Option<Generation>)
        ensures
            generation == Self::spec_from_version(version),
    {
        match version {
            1 => Some(Generation::V1),
            2 => Some(Generation::V2),
            _ => None,
        }
    }
}

/// What an opened module exports.
///
/// The embedding application implements this for its handle to loaded code.
/// A value of this type must stay alive for as long as any object that one
/// of its constructors returned: the object's code lives inside the module.
/// The host makes no assumption about what the three calls return.
pub trait Module {
    /// The objects that the module's generation-1 constructor makes.
    type V1: plugin_api_v1::Plugin;

    /// The objects that the module's generation-2 constructor makes.
    type V2: plugin_api_v2::Plugin;

    /// Calls the module's version export; `None` if the module has none.
    fn api_version(&self) -> Option<u32>;

    /// Calls the module's constructor for a generation-1 object; `None` if
    /// the module has no constructor.
    fn load_v1(&self) -> Option<Self::V1>;

    /// Calls the module's constructor for a generation-2 object; `None` if
    /// the module has no constructor.
    fn load_v2(&self) -> Option<Self::V2>;
}

/// A plugin object together with the module that constructed it.
///
/// The two are bundled so that the module cannot be released while the
/// object is reachable: the fields are private, nothing hands the module
/// out, and the object is declared first so that it is destroyed first.
pub struct PluginApi<V, L> {
    plugin: V,
    loaded_libraries: L,
}

impl<V, L> PluginApi<V, L> {
    pub closed spec fn spec_plugin(&self) -> &V {
        &self.plugin
    }

    /// The module that constructed the plugin object.
    pub closed spec fn loaded_libraries(&self) -> L {
        self.loaded_libraries
    }

    /// The plugin object.
    #[verifier::when_used_as_spec(spec_plugin)]
    pub fn plugin(&self) -> (plugin: &V)
        ensures
            plugin == self.spec_plugin(),
    {
        &self.plugin
    }
}

/// Calls `Arc::clone` of the standard library, which returns another handle
/// to the same shared value and leaves that value untouched.
#[verifier::external_body]
pub(crate) fn share<T>(handle: &Arc<T>) -> (shared: Arc<T>)
    ensures
        shared == *handle,
{
    Arc::clone(handle)
}

/// A handle to a loaded plugin, tagged with its generation.
///
/// Every handle shares ownership of the record that bundles the plugin
/// object with its module: the record goes when its last handle goes.
pub enum PluginVersion<M: Module> {
    V1(Arc<PluginApi<M::V1, M>>),
    V2(Arc<PluginApi<M::V2, M>>),
}

impl<M: Module> PluginVersion<M> {
    pub open spec fn spec_generation(&self) -> Generation {
        match self {
            PluginVersion::V1(_) => Generation::V1,
            PluginVersion::V2(_) => Generation::V2,
        }
    }

    /// The generation of the plugin behind this handle.
    #[verifier::when_used_as_spec(spec_generation)]
    pub fn generation(&self) -> (generation: Generation)
        ensures
            generation == self.spec_generation(),
    {
        match self {
            PluginVersion::V1(_) => Generation::V1,
            PluginVersion::V2(_) => Generation::V2,
        }
    }

    /// Another handle to the same plugin.
    pub fn duplicate(&self) -> (handle: PluginVersion<M>)
        ensures
            handle == *self,
    {
        match self {
            PluginVersion::V1(plugin) => PluginVersion::V1(share(plugin)),
            PluginVersion::V2(plugin) => PluginVersion::V2(share(plugin)),
        }
    }
}

/// How the loading of one module ended.
#[derive(Clone, Copy, Debug, PartialEq, Eq, Structural)]
pub enum LoadOutcome {
    /// The module's object is registered under this generation.
    Loaded(Generation),
    /// The module has no version export: it is no plugin for this host.
    NotAPlugin,
    /// The module reports a version that this host does not support.
    UnsupportedVersion(u32),
    /// The module reports this generation but has no constructor.
    NoConstructor(Generation),
}

/// What the loader does once it knows which version a module reports.
#[derive(Clone, Copy, Debug, PartialEq, Eq, Structural)]
pub enum LoadPlan {
    /// Have the module construct its object of this generation.
    Construct(Generation),
    /// Drop the module; loading ends with this outcome.
    Reject(LoadOutcome),
}

impl LoadPlan {
    /// The plan for a module whose version export returned `version`, or
    /// that has no version export.
    pub open spec fn spec_of(version: Option<u32>) -> LoadPlan {
        match version {
            None => LoadPlan::Reject(LoadOutcome::NotAPlugin),
            Some(version) => match Generation::from_version(version) {
                Some(generation) => LoadPlan::Construct(generation),
                None => LoadPlan::Reject(LoadOutcome::UnsupportedVersion(version)),
            },
        }
    }

    /// The plan for a module whose version export returned `version`, or
    /// that has no version export.
    #[verifier::when_used_as_spec(spec_of)]
    pub fn of(version: Option<u32>) -> (plan: LoadPlan)
        ensures
            plan == Self::spec_of(version),
    {
        match version {
            None => LoadPlan::Reject(LoadOutcome::NotAPlugin),
            Some(version) => match Generation::from_version(version) {
                Some(generation) => LoadPlan::Construct(generation),
                None => LoadPlan::Reject(LoadOutcome::UnsupportedVersion(version)),
            },
        }
    }
}

/// How the loading of a module ends whose version export returned
/// `version` and whose constructor for the generation of that version did
/// (`constructed`) or did not return an object. A module that is rejected
/// for its version is never asked to construct anything.
pub open spec fn outcome_of(version: Option<u32>, constructed: bool) -> LoadOutcome {
    match LoadPlan::of(version) {
        LoadPlan::Reject(rejected) => rejected,
        LoadPlan::Construct(generation) => if constructed {
            LoadOutcome::Loaded(generation)
        } else {
            LoadOutcome::NoConstructor(generation)
        },
    }
}

/// Whether `lib` can answer the loader in this way: its version export can
/// return `version`, and, where that version is supported, its constructor
/// for the generation of that version can return an object (`constructed`)
/// or none.
pub open spec fn answers<M: Module>(lib: M, version: Option<u32>, constructed: bool) -> bool {
    &&& call_ensures(M::api_version, (&lib,), version)
    &&& match LoadPlan::of(version) {
        LoadPlan::Reject(_) => true,
        LoadPlan::Construct(Generation::V1) => exists|made: Option<M::V1>| #[trigger]
            call_ensures(M::load_v1, (&lib,), made) && (made is Some) == constructed,
        LoadPlan::Construct(Generation::V2) => exists|made: Option<M::V2>| #[trigger]
            call_ensures(M::load_v2, (&lib,), made) && (made is Some) == constructed,
    }
}

/// The loader and the registry of what it loaded.
///
/// The registry only grows: loading appends one record, and nothing removes
/// one while the manager lives. It keeps the records by generation, and
/// beside that a handle to each record in the order of loading, whatever
/// the generation.
pub struct PluginManager<M: Module> {
    secrets: SecretStore,
    logger_sender: <M::V2 as plugin_api_v2::Plugin>::Logger,
    plugin_sender: <M::V2 as plugin_api_v2::Plugin>::Sender,
    plugins_api_1: Vec<Arc<PluginApi<M::V1, M>>>,
    plugins_api_2: Vec<Arc<PluginApi<M::V2, M>>>,
    load_order: Vec<PluginVersion<M>>,
}

impl<M: Module> PluginManager<M> {
    /// The registered generation-1 plugins, in the order of their loading.
    pub closed spec fn v1(&self) -> Seq<Arc<PluginApi<M::V1, M>>> {
        self.plugins_api_1@
    }

    /// The registered generation-2 plugins, in the order of their loading.
    pub closed spec fn v2(&self) -> Seq<Arc<PluginApi<M::V2, M>>> {
        self.plugins_api_2@
    }

    /// A handle to each registered plugin, of either generation, in the
    /// order of their loading.
    pub closed spec fn order(&self) -> Seq<PluginVersion<M>> {
        self.load_order@
    }

    /// The secrets that this manager hands to generation-1 plugins.
    pub closed spec fn secrets(&self) -> SecretStore {
        self.secrets
    }

    /// The sending end for log records, of which this manager hands copies
    /// to generation-2 plugins.
    pub closed spec fn logger_sender(&self) -> <M::V2 as plugin_api_v2::Plugin>::Logger {
        self.logger_sender
    }

    /// The sending end for requests, of which this manager hands copies to
    /// generation-2 plugins.
    pub closed spec fn plugin_sender(&self) -> <M::V2 as plugin_api_v2::Plugin>::Sender {
        self.plugin_sender
    }

    /// Whether `self` hands to plugins what `before` handed to them: the
    /// secrets and the two sending ends are the same.
    pub open spec fn same_capabilities(&self, before: &Self) -> bool {
        &&& self.secrets() == before.secrets()
        &&& self.logger_sender() == before.logger_sender()
        &&& self.plugin_sender() == before.plugin_sender()
    }

    /// Whether `self` holds what `before` held and, after it, one more
    /// generation-1 plugin, constructed by `lib`.
    pub open spec fn grew_v1(&self, before: &Self, lib: M) -> bool {
        &&& self.v1().len() == before.v1().len() + 1
        &&& self.v1().drop_last() =~= before.v1()
        &&& self.v1().last().loaded_libraries() == lib
        &&& self.v2() == before.v2()
        &&& self.order() == before.order().push(PluginVersion::V1(self.v1().last()))
        &&& self.same_capabilities(before)
    }

    /// Whether `self` holds what `before` held and, after it, one more
    /// generation-2 plugin, constructed by `lib`.
    pub open spec fn grew_v2(&self, before: &Self, lib: M) -> bool {
        &&& self.v2().len() == before.v2().len() + 1
        &&& self.v2().drop_last() =~= before.v2()
        &&& self.v2().last().loaded_libraries() == lib
        &&& self.v1() == before.v1()
        &&& self.order() == before.order().push(PluginVersion::V2(self.v2().last()))
        &&& self.same_capabilities(before)
    }

    /// Whether `self` holds exactly what `before` held.
    pub open spec fn same_registry(&self, before: &Self) -> bool {
        &&& self.v1() == before.v1()
        &&& self.v2() == before.v2()
        &&& self.order() == before.order()
        &&& self.same_capabilities(before)
    }

    /// Whether `self` is what `before` becomes when the loading of `lib`
    /// ends in `outcome`: an object that was loaded is registered, once,
    /// under its generation and together with `lib`; a module that was
    /// rejected leaves no trace.
    pub open spec fn loaded(&self, before: &Self, lib: M, outcome: LoadOutcome) -> bool {
        match outcome {
            LoadOutcome::Loaded(Generation::V1) => self.grew_v1(before, lib),
            LoadOutcome::Loaded(Generation::V2) => self.grew_v2(before, lib),
            LoadOutcome::NotAPlugin => self.same_registry(before),
            LoadOutcome::UnsupportedVersion(version) => Generation::from_version(version) is None
                && self.same_registry(before),
            LoadOutcome::NoConstructor(_) => self.same_registry(before),
        }
    }

    /// A manager with an empty registry. It hands copies of `secrets` to
    /// generation-1 plugins, and copies of the two sending ends to
    /// generation-2 plugins.
    pub fn new(
        secrets: SecretStore,
        logger_sender: <M::V2 as plugin_api_v2::Plugin>::Logger,
        plugin_sender: <M::V2 as plugin_api_v2::Plugin>::Sender,
    ) -> (manager: Self)
        ensures
            manager.v1() == Seq::<Arc<PluginApi<M::V1, M>>>::empty(),
            manager.v2() == Seq::<Arc<PluginApi<M::V2, M>>>::empty(),
            manager.order() == Seq::<PluginVersion<M>>::empty(),
            manager.secrets() == secrets,
            manager.logger_sender() == logger_sender,
            manager.plugin_sender() == plugin_sender,
    {
        PluginManager {
            secrets,
            logger_sender,
            plugin_sender,
            plugins_api_1: Vec::new(),
            plugins_api_2: Vec::new(),
            load_order: Vec::new(),
        }
    }

    /// What a generation-1 plugin is handed when it is loaded: copies of
    /// the two tokens, and of the directory for its settings.
    pub fn v1_capabilities(&self) -> (handed: (plugin_api_v1::Slack, String))
        ensures
            handed.0.api_token@ == self.secrets()@.slack.api_token,
            handed.0.admin_api_token@ == self.secrets()@.slack.admin_api_token,
            handed.1@ == self.secrets()@.plugin_config_path,
    {
        let slack = self.secrets.slack();
        (
            plugin_api_v1::Slack {
                api_token: slack.api_token.clone(),
                admin_api_token: slack.admin_api_token.clone(),
            },
            self.secrets.plugin_config_path().clone(),
        )
    }

    /// Ends the loading of a module `lib` that reports generation 1, given
    /// what its constructor returned. An object that was constructed gets
    /// its load hook called, with the capabilities of its generation, and is
    /// registered together with `lib`; without an object, `lib` is dropped.
    pub fn load_plugin_api_v1(&mut self, constructed: Option<M::V1>, lib: M) -> (outcome:
        LoadOutcome)
        ensures
            outcome == (if constructed is Some {
                LoadOutcome::Loaded(Generation::V1)
            } else {
                LoadOutcome::NoConstructor(Generation::V1)
            }),
            final(self).loaded(old(self), lib, outcome),
            constructed is Some ==> exists|
                hook: &mut M::V1,
                slack: plugin_api_v1::Slack,
                config_path: String,
            | #[trigger]
                call_ensures(
                    <M::V1 as plugin_api_v1::Plugin>::on_plugin_load,
                    (hook, slack, config_path),
                    (),
                ) && mut_ref_current(hook) == constructed.unwrap() && mut_ref_future(hook)
                    == *final(self).v1().last().plugin() && slack.api_token@ == old(
                    self,
                ).secrets()@.slack.api_token && slack.admin_api_token@ == old(
                    self,
                ).secrets()@.slack.admin_api_token && config_path@ == old(
                    self,
                ).secrets()@.plugin_config_path,
    {
        match constructed {
            Some(obj) => {
                let mut obj = obj;
                let (slack, config_path) = self.v1_capabilities();
                plugin_api_v1::Plugin::on_plugin_load(&mut obj, slack, config_path);
                let record = Arc::new(PluginApi { plugin: obj, loaded_libraries: lib });
                self.load_order.push(PluginVersion::V1(share(&record)));
                self.plugins_api_1.push(record);
                LoadOutcome::Loaded(Generation::V1)
            },
            None => LoadOutcome::NoConstructor(Generation::V1),
        }
    }

    /// Ends the loading of a module `lib` that reports generation 2, given
    /// what its constructor returned. An object that was constructed gets
    /// its load hook called, with the capabilities of its generation, and is
    /// registered together with `lib`; without an object, `lib` is dropped.
    pub fn load_plugin_api_v2(&mut self, constructed: Option<M::V2>, lib: M) -> (outcome:
        LoadOutcome)
        ensures
            outcome == (if constructed is Some {
                LoadOutcome::Loaded(Generation::V2)
            } else {
                LoadOutcome::NoConstructor(Generation::V2)
            }),
            final(self).loaded(old(self), lib, outcome),
            constructed is Some ==> exists|
                hook: &mut M::V2,
                logger: <M::V2 as plugin_api_v2::Plugin>::Logger,
                sender: <M::V2 as plugin_api_v2::Plugin>::Sender,
            | #[trigger]
                call_ensures(
                    <M::V2 as plugin_api_v2::Plugin>::on_plugin_load,
                    (hook, logger, sender),
                    (),
                ) && mut_ref_current(hook) == constructed.unwrap() && mut_ref_future(hook)
                    == *final(self).v2().last().plugin() && cloned(
                    old(self).logger_sender(),
                    logger,
                ) && cloned(old(self).plugin_sender(), sender),
    {
        match constructed {
            Some(obj) => {
                let mut obj = obj;
                plugin_api_v2::Plugin::on_plugin_load(
                    &mut obj,
                    self.logger_sender.clone(),
                    self.plugin_sender.clone(),
                );
                let record = Arc::new(PluginApi { plugin: obj, loaded_libraries: lib });
                self.load_order.push(PluginVersion::V2(share(&record)));
                self.plugins_api_2.push(record);
                LoadOutcome::Loaded(Generation::V2)
            },
            None => LoadOutcome::NoConstructor(Generation::V2),
        }
    }

    /// The registered generation-1 plugins, in the order of their loading.
    pub fn list_of_api_v1_plugins(&self) -> (plugins: &Vec<Arc<PluginApi<M::V1, M>>>)
        ensures
            plugins@ == self.v1(),
    {
        &self.plugins_api_1
    }

    /// The registered generation-2 plugins, in the order of their loading.
    pub fn list_of_api_v2_plugins(&self) -> (plugins: &Vec<Arc<PluginApi<M::V2, M>>>)
        ensures
            plugins@ == self.v2(),
    {
        &self.plugins_api_2
    }

    /// A handle to each registered plugin, of either generation, in the
    /// order of their loading.
    pub fn list_of_plugins(&self) -> (plugins: &Vec<PluginVersion<M>>)
        ensures
            plugins@ == self.order(),
    {
        &self.load_order
    }

    /// Loads the plugin of an opened module: asks the module for its
    /// version, has it construct the object of that generation, calls the
    /// object's load hook and registers object and module together.
    ///
    /// The outcome is the one that follows from what the module answered:
    /// from the version that its version export returned and, where that
    /// version is supported, from whether its constructor for that
    /// generation returned an object. A module that is rejected leaves the
    /// registry as it was, and is dropped; a module that is loaded adds one
    /// record, under the generation of the version it reported. The object
    /// in that record is what the load hook made of the object that the
    /// module's constructor returned; the hook was called with copies of
    /// the two tokens and the settings directory (generation 1) or with
    /// clones of the two sending ends (generation 2).
    pub fn load_plugin(&mut self, lib: M) -> (outcome: LoadOutcome)
        ensures
            exists|version: Option<u32>, constructed: bool| #[trigger]
                answers(lib, version, constructed) && outcome == outcome_of(version, constructed),
            final(self).loaded(old(self), lib, outcome),
            outcome == LoadOutcome::Loaded(Generation::V1) ==> exists|
                hook: &mut M::V1,
                slack: plugin_api_v1::Slack,
                config_path: String,
            | #[trigger]
                call_ensures(
                    <M::V1 as plugin_api_v1::Plugin>::on_plugin_load,
                    (hook, slack, config_path),
                    (),
                ) && call_ensures(M::load_v1, (&lib,), Some(mut_ref_current(hook)))
                    && mut_ref_future(hook) == *final(self).v1().last().plugin()
                    && slack.api_token@ == old(self).secrets()@.slack.api_token
                    && slack.admin_api_token@ == old(self).secrets()@.slack.admin_api_token
                    && config_path@ == old(self).secrets()@.plugin_config_path,
            outcome == LoadOutcome::Loaded(Generation::V2) ==> exists|
                hook: &mut M::V2,
                logger: <M::V2 as plugin_api_v2::Plugin>::Logger,
                sender: <M::V2 as plugin_api_v2::Plugin>::Sender,
            | #[trigger]
                call_ensures(
                    <M::V2 as plugin_api_v2::Plugin>::on_plugin_load,
                    (hook, logger, sender),
                    (),
                ) && call_ensures(M::load_v2, (&lib,), Some(mut_ref_current(hook)))
                    && mut_ref_future(hook) == *final(self).v2().last().plugin() && cloned(
                    old(self).logger_sender(),
                    logger,
                ) && cloned(old(self).plugin_sender(), sender),
    {
        let version = lib.api_version();
        match LoadPlan::of(version) {
            LoadPlan::Construct(Generation::V1) => {
                let constructed = lib.load_v1();
                assert(answers(lib, version, constructed is Some));
                self.load_plugin_api_v1(constructed, lib)
            },
            LoadPlan::Construct(Generation::V2) => {
                let constructed = lib.load_v2();
                assert(answers(lib, version, constructed is Some));
                self.load_plugin_api_v2(constructed, lib)
            },
            LoadPlan::Reject(outcome) => {
                assert(answers(lib, version, false));
                outcome
            },
        }
    }
}

/// How many of `outcomes` are a load under `generation`.
pub open spec fn count_loaded(outcomes: Seq<LoadOutcome>, generation: Generation) -> nat
    decreases outcomes.len(),
{
    if outcomes.len() == 0 {
        0
    } else {
        count_loaded(outcomes.drop_last(), generation) + (if outcomes.last() == LoadOutcome::Loaded(
            generation,
        ) {
            1nat
        } else {
            0nat
        })
    }
}

/// A module that reports a version other than 1 and 2 is rejected before
/// anything is constructed, whatever the version is.
pub proof fn lemma_unsupported_versions_are_rejected(version: u32)
    requires
        version != 1,
        version != 2,
    ensures
        LoadPlan::of(Some(version)) == LoadPlan::Reject(LoadOutcome::UnsupportedVersion(version)),
{
}

/// A module that reports version 1 or 2 is asked for its object of the
/// generation with that number.
pub proof fn lemma_supported_versions_are_constructed()
    ensures
        LoadPlan::of(Some(1)) == LoadPlan::Construct(Generation::V1),
        LoadPlan::of(Some(2)) == LoadPlan::Construct(Generation::V2),
{
}

/// The registry holds exactly one handle for each module that was loaded,
/// under the generation it was loaded as, in the order of loading, and
/// none for a module that was rejected.
///
/// `states` are the states of one manager, from an empty registry on,
/// before and after each of a series of loads; `libs` are the modules and
/// `outcomes` the outcomes of those loads.
pub proof fn lemma_one_handle_per_loaded_module<M: Module>(
    states: Seq<PluginManager<M>>,
    libs: Seq<M>,
    outcomes: Seq<LoadOutcome>,
)
    requires
        states.len() == outcomes.len() + 1,
        libs.len() == outcomes.len(),
        states[0].v1().len() == 0,
        states[0].v2().len() == 0,
        forall|i: int|
            0 <= i < outcomes.len() ==> (#[trigger] states[i + 1]).loaded(
                &states[i],
                libs[i],
                outcomes[i],
            ),
    ensures
        states.last().v1().len() == count_loaded(outcomes, Generation::V1),
        states.last().v2().len() == count_loaded(outcomes, Generation::V2),
        forall|i: int|
            0 <= i < outcomes.len() && #[trigger] outcomes[i] == LoadOutcome::Loaded(Generation::V1)
                ==> states.last().v1()[count_loaded(
                outcomes.take(i),
                Generation::V1,
            ) as int].loaded_libraries() == libs[i],
        forall|i: int|
            0 <= i < outcomes.len() && #[trigger] outcomes[i] == LoadOutcome::Loaded(Generation::V2)
                ==> states.last().v2()[count_loaded(
                outcomes.take(i),
                Generation::V2,
            ) as int].loaded_libraries() == libs[i],
    decreases outcomes.len(),
{
    if outcomes.len() > 0 {
        let n = outcomes.len() as int;
        let earlier_states = states.drop_last();
        let earlier_libs = libs.drop_last();
        let earlier = outcomes.drop_last();
        assert forall|i: int| 0 <= i < earlier.len() implies (#[trigger] earlier_states[i
            + 1]).loaded(&earlier_states[i], earlier_libs[i], earlier[i]) by {
            assert(states[i + 1].loaded(&states[i], libs[i], outcomes[i]));
        }
        lemma_one_handle_per_loaded_module(earlier_states, earlier_libs, earlier);
        let before = states[n - 1];
        let after = states[n];
        assert(earlier_states.last() == before);
        assert(after.loaded(&before, libs[n - 1], outcomes[n - 1]));
        assert(outcomes.take(n - 1) =~= earlier);
        assert forall|i: int|
            0 <= i < outcomes.len() && #[trigger] outcomes[i] == LoadOutcome::Loaded(
                Generation::V1,
            ) implies after.v1()[count_loaded(outcomes.take(i), Generation::V1) as int].loaded_libraries()
            == libs[i] by {
            if i < n - 1 {
                assert(earlier[i] == outcomes[i]);
                assert(earlier.take(i) =~= outcomes.take(i));
                lemma_count_loaded_grows(earlier, i, Generation::V1);
                let k = count_loaded(earlier.take(i), Generation::V1) as int;
                assert(k < before.v1().len());
                if outcomes[n - 1] == LoadOutcome::Loaded(Generation::V1) {
                    assert(after.v1().drop_last()[k] == after.v1()[k]);
                }
            }
        }
        assert forall|i: int|
            0 <= i < outcomes.len() && #[trigger] outcomes[i] == LoadOutcome::Loaded(
                Generation::V2,
            ) implies after.v2()[count_loaded(outcomes.take(i), Generation::V2) as int].loaded_libraries()
            == libs[i] by {
            if i < n - 1 {
                assert(earlier[i] == outcomes[i]);
                assert(earlier.take(i) =~= outcomes.take(i));
                lemma_count_loaded_grows(earlier, i, Generation::V2);
                let k = count_loaded(earlier.take(i), Generation::V2) as int;
                assert(k < before.v2().len());
                if outcomes[n - 1] == LoadOutcome::Loaded(Generation::V2) {
                    assert(after.v2().drop_last()[k] == after.v2()[k]);
                }
            }
        }
    }
}

impl<M: Module> PluginVersion<M> {
    /// The module that constructed the plugin behind this handle.
    pub open spec fn loaded_libraries(&self) -> M {
        match self {
            PluginVersion::V1(plugin) => plugin.loaded_libraries(),
            PluginVersion::V2(plugin) => plugin.loaded_libraries(),
        }
    }
}

/// How many of `outcomes` are a load, under whichever generation.
pub open spec fn count_all_loaded(outcomes: Seq<LoadOutcome>) -> nat
    decreases outcomes.len(),
{
    if outcomes.len() == 0 {
        0
    } else {
        count_all_loaded(outcomes.drop_last()) + (if outcomes.last() is Loaded {
            1nat
        } else {
            0nat
        })
    }
}

/// A load at place `i` is counted after the loads before it.
proof fn lemma_count_all_loaded_grows(outcomes: Seq<LoadOutcome>, i: int)
    requires
        0 <= i < outcomes.len(),
        outcomes[i] is Loaded,
    ensures
        count_all_loaded(outcomes.take(i)) < count_all_loaded(outcomes),
    decreases outcomes.len(),
{
    if i == outcomes.len() - 1 {
        assert(outcomes.take(i) =~= outcomes.drop_last());
    } else {
        assert(outcomes.drop_last().take(i) =~= outcomes.take(i));
        lemma_count_all_loaded_grows(outcomes.drop_last(), i);
    }
}

/// The registry's list of handles is in load order, across generations:
/// the module that was the k-th to be loaded, counting from 0 and whatever
/// its generation, has its handle at place k, under the generation it was
/// loaded as; a module that was rejected has none.
///
/// `states` are the states of one manager, from an empty registry on,
/// before and after each of a series of loads; `libs` are the modules and
/// `outcomes` the outcomes of those loads.
pub proof fn lemma_handles_are_in_load_order<M: Module>(
    states: Seq<PluginManager<M>>,
    libs: Seq<M>,
    outcomes: Seq<LoadOutcome>,
)
    requires
        states.len() == outcomes.len() + 1,
        libs.len() == outcomes.len(),
        states[0].order().len() == 0,
        forall|i: int|
            0 <= i < outcomes.len() ==> (#[trigger] states[i + 1]).loaded(
                &states[i],
                libs[i],
                outcomes[i],
            ),
    ensures
        states.last().order().len() == count_all_loaded(outcomes),
        forall|i: int|
            0 <= i < outcomes.len() && (#[trigger] outcomes[i]) is Loaded ==> {
                let handle = states.last().order()[count_all_loaded(outcomes.take(i)) as int];
                &&& LoadOutcome::Loaded(handle.generation()) == outcomes[i]
                &&& handle.loaded_libraries() == libs[i]
            },
    decreases outcomes.len(),
{
    if outcomes.len() > 0 {
        let n = outcomes.len() as int;
        let earlier_states = states.drop_last();
        let earlier_libs = libs.drop_last();
        let earlier = outcomes.drop_last();
        assert forall|i: int| 0 <= i < earlier.len() implies (#[trigger] earlier_states[i
            + 1]).loaded(&earlier_states[i], earlier_libs[i], earlier[i]) by {
            assert(states[i + 1].loaded(&states[i], libs[i], outcomes[i]));
        }
        lemma_handles_are_in_load_order(earlier_states, earlier_libs, earlier);
        let before = states[n - 1];
        let after = states[n];
        assert(earlier_states.last() == before);
        assert(after.loaded(&before, libs[n - 1], outcomes[n - 1]));
        assert(outcomes.take(n - 1) =~= earlier);
        assert forall|i: int| 0 <= i < outcomes.len() && (#[trigger] outcomes[i]) is Loaded implies ({
            let handle = after.order()[count_all_loaded(outcomes.take(i)) as int];
            &&& LoadOutcome::Loaded(handle.generation()) == outcomes[i]
            &&& handle.loaded_libraries() == libs[i]
        }) by {
            if i < n - 1 {
                assert(earlier[i] == outcomes[i]);
                assert(earlier.take(i) =~= outcomes.take(i));
                lemma_count_all_loaded_grows(earlier, i);
                let k = count_all_loaded(earlier.take(i)) as int;
                assert(k < before.order().len());
                assert(after.order()[k] == before.order()[k]);
            }
        }
    }
}

/// A load under `generation` at place `i` is counted after the loads
/// before it.
proof fn lemma_count_loaded_grows(outcomes: Seq<LoadOutcome>, i: int, generation: Generation)
    requires
        0 <= i < outcomes.len(),
        outcomes[i] == LoadOutcome::Loaded(generation),
    ensures
        count_loaded(outcomes.take(i), generation) < count_loaded(outcomes, generation),
    decreases outcomes.len(),
{
    if i == outcomes.len() - 1 {
        assert(outcomes.take(i) =~= outcomes.drop_last());
    } else {
        assert(outcomes.drop_last().take(i) =~= outcomes.take(i));
        lemma_count_loaded_grows(outcomes.drop_last(), i, generation);
    }
}

} // verus!
