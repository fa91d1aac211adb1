//! The handler of the realtime feed: it keeps the list of subscribers and
//! delivers each event to the plugins that subscribed to its category.

use crate::events::{Event, EventKind};
use crate::plugin_api_v1;
use crate::plugin_api_v2;
use crate::plugin_manager::{share, Module, PluginApi, PluginVersion};
use std::sync::Arc;
use vstd::prelude::*;

verus! {

/// The subscriber list after a plugin has declared `interest`: the plugin's
/// handle is added at the end, once, if it declared ordinary messages.
pub open spec fn subscribed<H>(list: Seq<H>, handle: H, interest: Seq<EventKind>) -> Seq<H> {
    if interest.contains(EventKind::StandardMessage) {
        list.push(handle)
    } else {
        list
    }
}

/// Whether the plugin behind `handle` has been handed `event`: the event
/// entry of its generation was called on the plugin object with this event,
/// and has returned.
pub open spec fn reached<M: Module>(handle: PluginVersion<M>, event: &Event) -> bool {
    match handle {
        PluginVersion::V1(plugin) => call_ensures(
            <M::V1 as plugin_api_v1::Plugin>::event,
            (plugin.plugin(), event),
            (),
        ),
        PluginVersion::V2(plugin) => call_ensures(
            <M::V2 as plugin_api_v2::Plugin>::event,
            (plugin.plugin(), event),
            (),
        ),
    }
}

/// Whether a generation-1 plugin's declaration says what `wanted` says:
/// its declaration of interest returned categories that do (`wanted`) or do
/// not include ordinary messages.
pub open spec fn declares_v1<M: Module>(plugin: Arc<PluginApi<M::V1, M>>, wanted: bool) -> bool {
    exists|interest: Vec<EventKind>| #[trigger]
        call_ensures(
            <M::V1 as plugin_api_v1::Plugin>::event_subscript,
            (plugin.plugin(),),
            interest,
        ) && wanted == interest@.contains(EventKind::StandardMessage)
}

/// Whether a generation-2 plugin's declaration says what `wanted` says:
/// its declaration of interest returned categories that do (`wanted`) or do
/// not include ordinary messages.
pub open spec fn declares_v2<M: Module>(plugin: Arc<PluginApi<M::V2, M>>, wanted: bool) -> bool {
    exists|interest: Vec<EventKind>| #[trigger]
        call_ensures(
            <M::V2 as plugin_api_v2::Plugin>::event_subscript,
            (plugin.plugin(),),
            interest,
        ) && wanted == interest@.contains(EventKind::StandardMessage)
}

/// Whether the declaration of the plugin behind `handle` says what `wanted`
/// says: its declaration of interest returned categories that do
/// (`wanted`) or do not include ordinary messages.
pub open spec fn declares<M: Module>(handle: PluginVersion<M>, wanted: bool) -> bool {
    match handle {
        PluginVersion::V1(plugin) => declares_v1::<M>(plugin, wanted),
        PluginVersion::V2(plugin) => declares_v2::<M>(plugin, wanted),
    }
}

/// The handler of the realtime feed: the list of subscribers to ordinary
/// messages. The handles in it are never changed once they are in.
pub struct MyHandler<M: Module> {
    message_standard: Vec<PluginVersion<M>>,
}

impl<M: Module> MyHandler<M> {
    /// The subscribers to ordinary messages, in the order of subscription.
    pub closed spec fn subscribers(&self) -> Seq<PluginVersion<M>> {
        self.message_standard@
    }

    /// The plugins that `event` is delivered to, in the order of delivery.
    pub open spec fn recipients(&self, event: &Event) -> Seq<PluginVersion<M>> {
        match event.kind() {
            Some(EventKind::StandardMessage) => self.subscribers(),
            None => Seq::empty(),
        }
    }

    /// A handler without subscribers.
    pub fn new() -> (handler: Self)
        ensures
            handler.subscribers() == Seq::<PluginVersion<M>>::empty(),
    {
        MyHandler { message_standard: Vec::new() }
    }

    /// Subscribes `plugin` to the event categories in `interest`.
    pub fn subscribe(&mut self, plugin: PluginVersion<M>, interest: &Vec<EventKind>)
        ensures
            final(self).subscribers() == subscribed(old(self).subscribers(), plugin, interest@),
    {
        let mut wanted = false;
        let mut i: usize = 0;
        while i < interest.len()
            invariant
                i <= interest@.len(),
                wanted <==> exists|k: int| 0 <= k < i && interest@[k] == EventKind::StandardMessage,
            decreases interest@.len() - i,
        {
            match interest[i] {
                EventKind::StandardMessage => {
                    wanted = true;
                },
            }
            i += 1;
        }
        if wanted {
            self.message_standard.push(plugin);
        }
    }

    /// Subscribes a generation-1 plugin to the event categories that it
    /// declares: the list of subscribers becomes what [`MyHandler::subscribe`]
    /// makes of it for a handle to this plugin and the categories that the
    /// plugin's own declaration returned. So the list stays as it was, or
    /// gains this plugin at its end.
    pub fn subscript_to_v1(&mut self, plugin: &Arc<PluginApi<M::V1, M>>)
        ensures
            exists|interest: Vec<EventKind>| #[trigger]
                call_ensures(
                    <M::V1 as plugin_api_v1::Plugin>::event_subscript,
                    (plugin.plugin(),),
                    interest,
                ) && final(self).subscribers() == subscribed(
                    old(self).subscribers(),
                    PluginVersion::V1(*plugin),
                    interest@,
                ),
    {
        let interest = plugin_api_v1::Plugin::event_subscript(plugin.plugin());
        self.subscribe(PluginVersion::V1(share(plugin)), &interest);
    }

    /// Subscribes a generation-2 plugin to the event categories that it
    /// declares: the list of subscribers becomes what [`MyHandler::subscribe`]
    /// makes of it for a handle to this plugin and the categories that the
    /// plugin's own declaration returned. So the list stays as it was, or
    /// gains this plugin at its end.
    pub fn subscript_to_v2(&mut self, plugin: &Arc<PluginApi<M::V2, M>>)
        ensures
            exists|interest: Vec<EventKind>| #[trigger]
                call_ensures(
                    <M::V2 as plugin_api_v2::Plugin>::event_subscript,
                    (plugin.plugin(),),
                    interest,
                ) && final(self).subscribers() == subscribed(
                    old(self).subscribers(),
                    PluginVersion::V2(*plugin),
                    interest@,
                ),
    {
        let interest = plugin_api_v2::Plugin::event_subscript(plugin.plugin());
        self.subscribe(PluginVersion::V2(share(plugin)), &interest);
    }

    /// Subscribes a plugin of either generation to the event categories
    /// that it declares: the list of subscribers gains this plugin at its
    /// end if the plugin's own declaration returned ordinary messages, and
    /// stays as it was if not.
    pub fn subscript_to(&mut self, plugin: &PluginVersion<M>)
        ensures
            exists|wanted: bool| #[trigger]
                declares(*plugin, wanted) && final(self).subscribers() == (if wanted {
                    old(self).subscribers().push(*plugin)
                } else {
                    old(self).subscribers()
                }),
    {
        let ghost before = self.subscribers();
        match plugin {
            PluginVersion::V1(record) => {
                self.subscript_to_v1(record);
                assert(declares(*plugin, self.subscribers().len() > before.len()));
            },
            PluginVersion::V2(record) => {
                self.subscript_to_v2(record);
                assert(declares(*plugin, self.subscribers().len() > before.len()));
            },
        }
    }

    /// Subscribes each of `plugins`, in their order and whatever their
    /// generation, to what it declares: the list of subscribers gains, at
    /// its end and in their order, exactly those of them whose declaration
    /// of interest returned ordinary messages, and nothing else. With the
    /// registry's list of handles, the subscribers are in load order.
    pub fn subscribe_all(&mut self, plugins: &Vec<PluginVersion<M>>)
        ensures
            exists|picks: Seq<bool>|
                picks.len() == plugins@.len() && final(self).subscribers() == old(
                    self,
                ).subscribers() + #[trigger] picked(plugins@, picks) && forall|k: int|
                    0 <= k < plugins@.len() ==> declares(#[trigger] plugins@[k], picks[k]),
    {
        let ghost mut picks: Seq<bool> = Seq::empty();
        let mut i: usize = 0;
        assert(self.subscribers() =~= old(self).subscribers() + picked(plugins@.take(0), picks));
        while i < plugins.len()
            invariant
                i <= plugins@.len(),
                picks.len() == i,
                self.subscribers() == old(self).subscribers() + picked(
                    plugins@.take(i as int),
                    picks,
                ),
                forall|k: int| 0 <= k < i ==> declares(#[trigger] plugins@[k], picks[k]),
            decreases plugins@.len() - i,
        {
            let ghost before = self.subscribers();
            self.subscript_to(&plugins[i]);
            proof {
                let grown = self.subscribers().len() > before.len();
                assert(declares(plugins@[i as int], grown));
                assert(plugins@.take(i + 1).drop_last() =~= plugins@.take(i as int));
                assert(plugins@.take(i + 1).last() == plugins@[i as int]);
                assert(picks.push(grown).drop_last() =~= picks);
                picks = picks.push(grown);
            }
            i += 1;
        }
        assert(plugins@.take(i as int) =~= plugins@);
    }

    /// The subscribers to events of category `kind`, in the order of
    /// subscription.
    pub fn subscribers_of(&self, kind: EventKind) -> (list: &Vec<PluginVersion<M>>)
        ensures
            list@ == self.subscribers(),
    {
        match kind {
            EventKind::StandardMessage => &self.message_standard,
        }
    }

    /// Delivers `event` to every plugin that subscribed to its category, in
    /// the order of subscription, one after the other, and returns how many
    /// deliveries it made: the event entry of each recipient has been called
    /// with this event.
    pub fn on_event(&self, event: &Event) -> (delivered: usize)
        ensures
            delivered == self.recipients(event).len(),
            forall|k: int|
                0 <= k < self.recipients(event).len() ==> reached(
                    #[trigger] self.recipients(event)[k],
                    event,
                ),
    {
        match event.kind() {
            Some(kind) => {
                let subscribers = self.subscribers_of(kind);
                let mut i: usize = 0;
                while i < subscribers.len()
                    invariant
                        i <= subscribers@.len(),
                        forall|k: int| 0 <= k < i ==> reached(#[trigger] subscribers@[k], event),
                    decreases subscribers@.len() - i,
                {
                    match &subscribers[i] {
                        PluginVersion::V1(plugin) => {
                            plugin_api_v1::Plugin::event(plugin.plugin(), event);
                        },
                        PluginVersion::V2(plugin) => {
                            plugin_api_v2::Plugin::event(plugin.plugin(), event);
                        },
                    }
                    i += 1;
                }
                i
            },
            None => 0,
        }
    }
}

/// Those of `handles` that `picks` marks, in their order.
pub open spec fn picked<H>(handles: Seq<H>, picks: Seq<bool>) -> Seq<H>
    decreases handles.len(),
{
    if handles.len() == 0 || picks.len() != handles.len() {
        Seq::empty()
    } else {
        let earlier = picked(handles.drop_last(), picks.drop_last());
        if picks.last() {
            earlier.push(handles.last())
        } else {
            earlier
        }
    }
}

/// The generation-1 handles to `plugins`, in their order.
pub open spec fn handles_v1<M: Module>(plugins: Seq<Arc<PluginApi<M::V1, M>>>) -> Seq<
    PluginVersion<M>,
> {
    Seq::new(plugins.len(), |i: int| PluginVersion::V1(plugins[i]))
}

/// The generation-2 handles to `plugins`, in their order.
pub open spec fn handles_v2<M: Module>(plugins: Seq<Arc<PluginApi<M::V2, M>>>) -> Seq<
    PluginVersion<M>,
> {
    Seq::new(plugins.len(), |i: int| PluginVersion::V2(plugins[i]))
}

impl<M: Module> MyHandler<M> {
    /// Subscribes each of the generation-1 `plugins`, in their order, to
    /// what it declares: the list of subscribers gains, at its end and in
    /// their order, exactly those of them whose declaration of interest
    /// returned ordinary messages, and nothing else.
    pub fn plugin_api_v1(&mut self, plugins: &Vec<Arc<PluginApi<M::V1, M>>>)
        ensures
            exists|picks: Seq<bool>|
                picks.len() == plugins@.len() && final(self).subscribers() == old(
                    self,
                ).subscribers() + #[trigger] picked(handles_v1::<M>(plugins@), picks) && forall|
                    k: int,
                |
                    0 <= k < plugins@.len() ==> declares_v1::<M>(
                        #[trigger] plugins@[k],
                        picks[k],
                    ),
    {
        let ghost mut picks: Seq<bool> = Seq::empty();
        let mut i: usize = 0;
        assert(self.subscribers() =~= old(self).subscribers() + picked(
            handles_v1::<M>(plugins@).take(0),
            picks,
        ));
        while i < plugins.len()
            invariant
                i <= plugins@.len(),
                picks.len() == i,
                self.subscribers() == old(self).subscribers() + picked(
                    handles_v1::<M>(plugins@).take(i as int),
                    picks,
                ),
                forall|k: int| 0 <= k < i ==> declares_v1::<M>(#[trigger] plugins@[k], picks[k]),
            decreases plugins@.len() - i,
        {
            let ghost before = self.subscribers();
            self.subscript_to_v1(&plugins[i]);
            proof {
                let all = handles_v1::<M>(plugins@);
                let grown = self.subscribers().len() > before.len();
                assert(declares_v1::<M>(plugins@[i as int], grown));
                assert(all.take(i + 1).drop_last() =~= all.take(i as int));
                assert(all.take(i + 1).last() == PluginVersion::<M>::V1(plugins@[i as int]));
                assert(picks.push(grown).drop_last() =~= picks);
                picks = picks.push(grown);
            }
            i += 1;
        }
        assert(handles_v1::<M>(plugins@).take(i as int) =~= handles_v1::<M>(plugins@));
    }

    /// Subscribes each of the generation-2 `plugins`, in their order, to
    /// what it declares: the list of subscribers gains, at its end and in
    /// their order, exactly those of them whose declaration of interest
    /// returned ordinary messages, and nothing else.
    pub fn plugin_api_v2(&mut self, plugins: &Vec<Arc<PluginApi<M::V2, M>>>)
        ensures
            exists|picks: Seq<bool>|
                picks.len() == plugins@.len() && final(self).subscribers() == old(
                    self,
                ).subscribers() + #[trigger] picked(handles_v2::<M>(plugins@), picks) && forall|
                    k: int,
                |
                    0 <= k < plugins@.len() ==> declares_v2::<M>(
                        #[trigger] plugins@[k],
                        picks[k],
                    ),
    {
        let ghost mut picks: Seq<bool> = Seq::empty();
        let mut i: usize = 0;
        assert(self.subscribers() =~= old(self).subscribers() + picked(
            handles_v2::<M>(plugins@).take(0),
            picks,
        ));
        while i < plugins.len()
            invariant
                i <= plugins@.len(),
                picks.len() == i,
                self.subscribers() == old(self).subscribers() + picked(
                    handles_v2::<M>(plugins@).take(i as int),
                    picks,
                ),
                forall|k: int| 0 <= k < i ==> declares_v2::<M>(#[trigger] plugins@[k], picks[k]),
            decreases plugins@.len() - i,
        {
            let ghost before = self.subscribers();
            self.subscript_to_v2(&plugins[i]);
            proof {
                let all = handles_v2::<M>(plugins@);
                let grown = self.subscribers().len() > before.len();
                assert(declares_v2::<M>(plugins@[i as int], grown));
                assert(all.take(i + 1).drop_last() =~= all.take(i as int));
                assert(all.take(i + 1).last() == PluginVersion::<M>::V2(plugins@[i as int]));
                assert(picks.push(grown).drop_last() =~= picks);
                picks = picks.push(grown);
            }
            i += 1;
        }
        assert(handles_v2::<M>(plugins@).take(i as int) =~= handles_v2::<M>(plugins@));
    }
}

/// The subscriber list that results when plugins declare their interest
/// one after the other, starting from an empty list. Each element of
/// `declared` is a plugin's handle with the categories it declared.
pub open spec fn wired<H>(declared: Seq<(H, Seq<EventKind>)>) -> Seq<H>
    decreases declared.len(),
{
    if declared.len() == 0 {
        Seq::empty()
    } else {
        subscribed(wired(declared.drop_last()), declared.last().0, declared.last().1)
    }
}

/// Whether a declaration names ordinary messages.
pub open spec fn wants_messages<H>(declaration: (H, Seq<EventKind>)) -> bool {
    declaration.1.contains(EventKind::StandardMessage)
}

/// An ordinary message goes to exactly the plugins that declared ordinary
/// messages, in the order in which the plugins were subscribed, and to no
/// other plugin: the subscriber list is the list of all plugins, with those
/// left out that did not declare the category.
pub proof fn lemma_dispatch_in_load_order<H>(declared: Seq<(H, Seq<EventKind>)>)
    ensures
        wired(declared) == declared.filter(|d: (H, Seq<EventKind>)| wants_messages(d)).map_values(
            |d: (H, Seq<EventKind>)| d.0,
        ),
    decreases declared.len(),
{
    reveal(Seq::filter);
    let keep = |d: (H, Seq<EventKind>)| wants_messages(d);
    let handle = |d: (H, Seq<EventKind>)| d.0;
    if declared.len() == 0 {
        assert(wired(declared) =~= declared.filter(keep).map_values(handle));
    } else {
        lemma_dispatch_in_load_order(declared.drop_last());
        let earlier = declared.drop_last().filter(keep);
        if wants_messages(declared.last()) {
            assert(declared.filter(keep) == earlier.push(declared.last()));
            assert(earlier.push(declared.last()).map_values(handle) =~= earlier.map_values(
                handle,
            ).push(declared.last().0));
        } else {
            assert(declared.filter(keep) == earlier);
        }
    }
}

} // verus!
