//! The instance registry: owns every live plugin instance, keyed by
//! instance id and additionally indexed by plugin id, and drives the
//! lifecycle state machine Unmounted -> Mounted -> (Connected <->
//! Disconnected) -> Disposed. Every hook invocation is recorded, in call
//! order, in the registry's log, which is what the lifecycle-ordering
//! guarantees are stated over.

use vstd::prelude::*;
use crate::bridge::{HostBridge, ShellTransport};
use crate::errors::{HostError, LoaderError};
use crate::keyed::{distinct_keys, key_index, lemma_key_index, lemma_key_index_at,
    lemma_key_index_push};
use crate::message::FrontendEvent;
use crate::metadata::{HistoryMessage, PluginMetadata};
use crate::stream::{is_terminal, StreamControlData, StreamError, StreamEventKind,
    StreamMessageData, StreamMessageWrapper, StreamStatus};
use crate::strutil::str_eq;
use crate::ui::{Context, Ui, UiComponent};

verus! {

/// What the registry requires of a plugin implementation. The host
/// application implements this over the dynamic-library ABI; the crate's
/// own demo plugins implement it directly. Status results follow the ABI:
/// zero is success. Nothing is assumed of an implementation's behaviour.
pub trait PluginHandler: Sized {
    /// Construct the plugin for this metadata: open its library, resolve
    /// the create export, invoke it.
    fn create(metadata: &PluginMetadata) -> Result<Self, LoaderError>;

    /// Hand the plugin its metadata and the host callbacks.
    fn initialize(&mut self, metadata: &PluginMetadata) -> i32;

    /// The mount hook.
    fn on_mount(&mut self) -> i32;

    /// The dispose hook.
    fn on_dispose(&mut self) -> i32;

    /// The connect hook.
    fn on_connect(&mut self) -> i32;

    /// The disconnect hook.
    fn on_disconnect(&mut self) -> i32;

    /// Inject or clear the conversation history.
    fn set_history(&mut self, history: &Option<Vec<HistoryMessage>>) -> i32;

    /// Handle one message and produce the response.
    fn handle_message(&mut self, message: &str) -> Result<String, String>;

    /// Rebuild the widget tree for this frame.
    fn update_ui(&mut self, ctx: &Context, ui: &mut Ui);

    /// Release the instance, exactly once, before its library goes away.
    fn destroy(&mut self);
}

/// Which hook or registry action a log entry records.
#[derive(Debug, Clone, Copy, PartialEq, Eq, Structural)]
pub enum HookKind {
    Initialize,
    Mount,
    UpdateUi,
    Connect,
    Disconnect,
    SetHistory,
    HandleMessage,
    Dispose,
    Destroy,
    Deregister,
}

/// One recorded invocation, in call order.
#[derive(Debug)]
pub struct HookEvent {
    pub kind: HookKind,
    pub instance_id: String,
}

/// Whether a log entry records the given action on the given instance.
pub open spec fn hook_is(e: HookEvent, kind: HookKind, instance_id: Seq<char>) -> bool {
    e.kind == kind && e.instance_id@ == instance_id
}

/// One re-invocation of an instance's update routine with a submitted
/// component value, as the registry's dispatch log records it.
pub struct UiDispatch {
    pub instance_id: Seq<char>,
    pub component_id: Seq<char>,
    pub value: Seq<char>,
}

/// One mounted, independently stateful activation of a plugin.
#[verifier::reject_recursive_types(P)]
pub struct PluginInstance<P> {
    pub metadata: PluginMetadata,
    pub instance_id: String,
    pub plugin_id: String,
    pub handler: P,
    pub is_mounted: bool,
    pub is_connected: bool,
    pub ui: Ui,
}

/// The instance ids of a registry table, in table order.
pub open spec fn inst_ids<P>(s: Seq<PluginInstance<P>>) -> Seq<Seq<char>> {
    s.map_values(|e: PluginInstance<P>| e.instance_id@)
}

/// The registry entry for one instance id, if any.
pub open spec fn find_inst<P>(s: Seq<PluginInstance<P>>, id: Seq<char>) -> Option<
    PluginInstance<P>,
> {
    let i = key_index(inst_ids(s), id);
    if i >= 0 {
        Some(s[i])
    } else {
        None
    }
}

/// Replacing the entry at the position of its own id keeps keys distinct,
/// makes that id resolve to the new entry, and leaves every other lookup
/// unchanged.
pub proof fn lemma_inst_update<P>(pre: Seq<PluginInstance<P>>, i: int, e: PluginInstance<P>)
    requires
        distinct_keys(inst_ids(pre)),
        0 <= i < pre.len(),
        e.instance_id@ == pre[i].instance_id@,
        key_index(inst_ids(pre), e.instance_id@) == i,
    ensures
        distinct_keys(inst_ids(pre.update(i, e))),
        find_inst(pre.update(i, e), e.instance_id@) == Some(e),
        forall|k: Seq<char>|
            k != e.instance_id@ ==> find_inst(pre.update(i, e), k) == find_inst(pre, k),
{
    let post = pre.update(i, e);
    assert(inst_ids(post) =~= inst_ids(pre));
    lemma_key_index(inst_ids(pre), e.instance_id@);
    assert forall|k: Seq<char>|
        k != e.instance_id@ implies find_inst(post, k) == find_inst(pre, k) by {
        lemma_key_index(inst_ids(pre), k);
        let r = key_index(inst_ids(pre), k);
        if r >= 0 {
            assert(inst_ids(pre)[r] == k);
            assert(r != i);
        }
    }
}

/// Appending an entry with a fresh id keeps keys distinct, makes that id
/// resolve to the appended entry, and leaves every other lookup unchanged.
pub proof fn lemma_inst_push<P>(pre: Seq<PluginInstance<P>>, e: PluginInstance<P>)
    requires
        distinct_keys(inst_ids(pre)),
        key_index(inst_ids(pre), e.instance_id@) == -1,
    ensures
        distinct_keys(inst_ids(pre.push(e))),
        find_inst(pre.push(e), e.instance_id@) == Some(e),
        forall|k: Seq<char>| k != e.instance_id@ ==> find_inst(pre.push(e), k) == find_inst(
            pre,
            k,
        ),
{
    let post = pre.push(e);
    assert(inst_ids(post) =~= inst_ids(pre).push(e.instance_id@));
    lemma_key_index(inst_ids(pre), e.instance_id@);
    lemma_key_index_push(inst_ids(pre), e.instance_id@, e.instance_id@);
    assert forall|a: int, b: int|
        0 <= a < b < inst_ids(post).len() implies inst_ids(post)[a] != inst_ids(post)[b] by {
        if b == pre.len() as int {
            assert(inst_ids(pre)[a] != e.instance_id@);
        }
    }
    assert forall|k: Seq<char>|
        k != e.instance_id@ implies find_inst(post, k) == find_inst(pre, k) by {
        lemma_key_index_push(inst_ids(pre), k, e.instance_id@);
        lemma_key_index(inst_ids(pre), k);
    }
}

/// The plugin ids of the secondary index, in order.
pub open spec fn pidx_keys(s: Seq<(String, Vec<String>)>) -> Seq<Seq<char>> {
    s.map_values(|p: (String, Vec<String>)| p.0@)
}

/// The instance-id list recorded under one plugin id, if any.
pub open spec fn pidx_lookup(s: Seq<(String, Vec<String>)>, k: Seq<char>) -> Option<
    Seq<String>,
> {
    let i = key_index(pidx_keys(s), k);
    if i >= 0 {
        Some(s[i].1@)
    } else {
        None
    }
}

/// l with every string whose view is id removed, keeping order.
pub open spec fn remove_id(l: Seq<String>, id: Seq<char>) -> Seq<String>
    decreases l.len(),
{
    if l.len() == 0 {
        Seq::<String>::empty()
    } else {
        let rest = remove_id(l.drop_last(), id);
        if l.last()@ == id {
            rest
        } else {
            rest.push(l.last())
        }
    }
}

/// The metadata ids of the scanner's list, in order.
pub open spec fn meta_ids(s: Seq<PluginMetadata>) -> Seq<Seq<char>> {
    s.map_values(|m: PluginMetadata| m.id@)
}

/// The first metadata record with the given plugin id, if any.
pub open spec fn find_meta(s: Seq<PluginMetadata>, id: Seq<char>) -> Option<PluginMetadata> {
    let i = key_index(meta_ids(s), id);
    if i >= 0 {
        Some(s[i])
    } else {
        None
    }
}

/// The registry: the scanner's metadata list, the instance table, the
/// plugin-id index, the hook log, and the one bridge every instance shares.
#[verifier::reject_recursive_types(P)]
#[verifier::reject_recursive_types(T)]
pub struct PluginManager<P, T> {
    pub available: Vec<PluginMetadata>,
    pub instances: Vec<PluginInstance<P>>,
    pub plugin_index: Vec<(String, Vec<String>)>,
    pub hook_log: Vec<HookEvent>,
    pub ui_calls: Ghost<Seq<UiDispatch>>,
    pub bridge: HostBridge<T>,
}

impl<P: PluginHandler, T: ShellTransport> PluginManager<P, T> {
    /// No instance id occurs twice, and the bridge ledger is well formed.
    pub open spec fn wf(&self) -> bool {
        &&& distinct_keys(inst_ids(self.instances@))
        &&& distinct_keys(pidx_keys(self.plugin_index@))
        &&& self.bridge.wf()
    }

    /// A registry over the scanner's metadata list, with no instances.
    pub fn new(available: Vec<PluginMetadata>, transport: T) -> (r: PluginManager<P, T>)
        ensures
            r.wf(),
            r.available == available,
            r.instances@ =~= Seq::<PluginInstance<P>>::empty(),
            r.plugin_index@ =~= Seq::<(String, Vec<String>)>::empty(),
            r.hook_log@ =~= Seq::<HookEvent>::empty(),
            r.ui_calls@ =~= Seq::<UiDispatch>::empty(),
            r.bridge.transport == transport,
            r.bridge.shadow() =~= Seq::<crate::bridge::BackendStreamInfo>::empty(),
            r.bridge.emitted@ =~= Seq::<FrontendEvent>::empty(),
    {
        PluginManager {
            available,
            instances: Vec::new(),
            plugin_index: Vec::new(),
            hook_log: Vec::new(),
            ui_calls: Ghost(Seq::empty()),
            bridge: HostBridge::new(transport),
        }
    }

    /// The table position of an instance id.
    fn inst_pos(&self, instance_id: &str) -> (r: Option<usize>)
        ensures
            match r {
                Some(i) => key_index(inst_ids(self.instances@), instance_id@) == i,
                None => key_index(inst_ids(self.instances@), instance_id@) == -1,
            },
    {
        let n = self.instances.len();
        let mut i: usize = 0;
        while i < n
            invariant
                n == self.instances@.len(),
                i <= n,
                forall|j: int| 0 <= j < i ==> inst_ids(self.instances@)[j] != instance_id@,
            decreases n - i,
        {
            if str_eq(self.instances[i].instance_id.as_str(), instance_id) {
                proof {
                    lemma_key_index_at(inst_ids(self.instances@), instance_id@, i as int);
                }
                return Some(i);
            }
            i += 1;
        }
        proof {
            lemma_key_index(inst_ids(self.instances@), instance_id@);
            let r = key_index(inst_ids(self.instances@), instance_id@);
            if r >= 0 {
                assert(inst_ids(self.instances@)[r] != instance_id@);
            }
        }
        None
    }

    /// The scanner position of a plugin id.
    fn meta_pos(&self, plugin_id: &str) -> (r: Option<usize>)
        ensures
            match r {
                Some(i) => key_index(meta_ids(self.available@), plugin_id@) == i,
                None => key_index(meta_ids(self.available@), plugin_id@) == -1,
            },
    {
        let n = self.available.len();
        let mut i: usize = 0;
        while i < n
            invariant
                n == self.available@.len(),
                i <= n,
                forall|j: int| 0 <= j < i ==> meta_ids(self.available@)[j] != plugin_id@,
            decreases n - i,
        {
            if str_eq(self.available[i].id.as_str(), plugin_id) {
                proof {
                    lemma_key_index_at(meta_ids(self.available@), plugin_id@, i as int);
                }
                return Some(i);
            }
            i += 1;
        }
        proof {
            lemma_key_index(meta_ids(self.available@), plugin_id@);
            let r = key_index(meta_ids(self.available@), plugin_id@);
            if r >= 0 {
                assert(meta_ids(self.available@)[r] != plugin_id@);
            }
        }
        None
    }

    /// The metadata the scanner found for a plugin id, if any.
    pub fn find_plugin_metadata(&self, plugin_id: &str) -> (r: Option<PluginMetadata>)
        ensures
            r == find_meta(self.available@, plugin_id@),
    {
        match self.meta_pos(plugin_id) {
            Some(i) => {
                proof {
                    lemma_key_index(meta_ids(self.available@), plugin_id@);
                }
                Some(self.available[i].clone())
            },
            None => None,
        }
    }

    /// Whether an instance is mounted and whether it is connected.
    pub fn get_plugin_status(&self, instance_id: &str) -> (r: Option<(bool, bool)>)
        ensures
            r == (match find_inst(self.instances@, instance_id@) {
                Some(inst) => Some((inst.is_mounted, inst.is_connected)),
                None => None::<(bool, bool)>,
            }),
    {
        match self.inst_pos(instance_id) {
            Some(i) => {
                proof {
                    lemma_key_index(inst_ids(self.instances@), instance_id@);
                }
                Some((self.instances[i].is_mounted, self.instances[i].is_connected))
            },
            None => None,
        }
    }

    /// Connect a mounted instance. Connecting an already connected instance
    /// succeeds without invoking anything; connecting an unmounted or
    /// unknown instance is an error. The hook is recorded before it runs;
    /// the transition commits only on a zero status.
    pub fn connect_plugin(&mut self, instance_id: &str) -> (r: Result<(), HostError>)
        requires
            old(self).wf(),
        ensures
            final(self).wf(),
            final(self).available == old(self).available,
            final(self).plugin_index == old(self).plugin_index,
            final(self).ui_calls == old(self).ui_calls,
            final(self).bridge == old(self).bridge,
            forall|k: Seq<char>|
                k != instance_id@ ==> find_inst(final(self).instances@, k) == find_inst(
                    old(self).instances@,
                    k,
                ),
            match find_inst(old(self).instances@, instance_id@) {
                None => r == Err::<(), HostError>(HostError::RegistryError) && *final(self)
                    == *old(self),
                Some(i0) => {
                    if !i0.is_mounted {
                        r == Err::<(), HostError>(HostError::LifecycleError) && *final(self)
                            == *old(self)
                    } else if i0.is_connected {
                        r == Ok::<(), HostError>(()) && *final(self) == *old(self)
                    } else {
                        &&& final(self).hook_log@.len() == old(self).hook_log@.len() + 1
                        &&& forall|j: int|
                            0 <= j < old(self).hook_log@.len() ==> final(self).hook_log@[j]
                                == old(self).hook_log@[j]
                        &&& hook_is(
                            final(self).hook_log@.last(),
                            HookKind::Connect,
                            instance_id@,
                        )
                        &&& match find_inst(final(self).instances@, instance_id@) {
                            Some(i1) => {
                                &&& i1.metadata == i0.metadata
                                &&& i1.instance_id == i0.instance_id
                                &&& i1.plugin_id == i0.plugin_id
                                &&& i1.is_mounted
                                &&& i1.ui == i0.ui
                                &&& i1.is_connected == (r is Ok)
                            },
                            None => false,
                        }
                        &&& (r == Ok::<(), HostError>(()) || r == Err::<(), HostError>(
                            HostError::LifecycleError,
                        ))
                    }
                },
            },
    {
        let i = match self.inst_pos(instance_id) {
            Some(i) => i,
            None => {
                return Err(HostError::RegistryError);
            },
        };
        proof {
            lemma_key_index(inst_ids(self.instances@), instance_id@);
        }
        if !self.instances[i].is_mounted {
            return Err(HostError::LifecycleError);
        }
        if self.instances[i].is_connected {
            return Ok(());
        }
        self.hook_log.push(
            HookEvent { kind: HookKind::Connect, instance_id: instance_id.to_owned() },
        );
        let slot = &mut self.instances[i];
        let status = slot.handler.on_connect();
        let ok = status == 0;
        if ok {
            slot.is_connected = true;
        }
        proof {
            lemma_inst_update(
                old(self).instances@,
                i as int,
                self.instances@[i as int],
            );
        }
        if ok {
            Ok(())
        } else {
            Err(HostError::LifecycleError)
        }
    }

    /// Disconnect a mounted instance. Disconnecting an already disconnected
    /// instance succeeds without invoking anything; an unmounted or unknown
    /// instance is an error. The instance is recorded as disconnected even
    /// if the hook reports a failure: teardown always makes progress.
    pub fn disconnect_plugin(&mut self, instance_id: &str) -> (r: Result<(), HostError>)
        requires
            old(self).wf(),
        ensures
            final(self).wf(),
            final(self).available == old(self).available,
            final(self).plugin_index == old(self).plugin_index,
            final(self).ui_calls == old(self).ui_calls,
            final(self).bridge == old(self).bridge,
            forall|k: Seq<char>|
                k != instance_id@ ==> find_inst(final(self).instances@, k) == find_inst(
                    old(self).instances@,
                    k,
                ),
            match find_inst(old(self).instances@, instance_id@) {
                None => r == Err::<(), HostError>(HostError::RegistryError) && *final(self)
                    == *old(self),
                Some(i0) => {
                    if !i0.is_mounted {
                        r == Err::<(), HostError>(HostError::LifecycleError) && *final(self)
                            == *old(self)
                    } else if !i0.is_connected {
                        r == Ok::<(), HostError>(()) && *final(self) == *old(self)
                    } else {
                        &&& r == Ok::<(), HostError>(())
                        &&& final(self).hook_log@.len() == old(self).hook_log@.len() + 1
                        &&& forall|j: int|
                            0 <= j < old(self).hook_log@.len() ==> final(self).hook_log@[j]
                                == old(self).hook_log@[j]
                        &&& hook_is(
                            final(self).hook_log@.last(),
                            HookKind::Disconnect,
                            instance_id@,
                        )
                        &&& match find_inst(final(self).instances@, instance_id@) {
                            Some(i1) => {
                                &&& i1.metadata == i0.metadata
                                &&& i1.instance_id == i0.instance_id
                                &&& i1.plugin_id == i0.plugin_id
                                &&& i1.is_mounted
                                &&& i1.ui == i0.ui
                                &&& !i1.is_connected
                            },
                            None => false,
                        }
                    }
                },
            },
    {
        let i = match self.inst_pos(instance_id) {
            Some(i) => i,
            None => {
                return Err(HostError::RegistryError);
            },
        };
        proof {
            lemma_key_index(inst_ids(self.instances@), instance_id@);
        }
        if !self.instances[i].is_mounted {
            return Err(HostError::LifecycleError);
        }
        if !self.instances[i].is_connected {
            return Ok(());
        }
        self.hook_log.push(
            HookEvent { kind: HookKind::Disconnect, instance_id: instance_id.to_owned() },
        );
        let slot = &mut self.instances[i];
        let _ = slot.handler.on_disconnect();
        slot.is_connected = false;
        proof {
            lemma_inst_update(
                old(self).instances@,
                i as int,
                self.instances@[i as int],
            );
        }
        Ok(())
    }

    /// Record one more instance id under a plugin id in the secondary
    /// index.
    fn pidx_add(&mut self, plugin_id: &str, instance_id: &String)
        requires
            distinct_keys(pidx_keys(old(self).plugin_index@)),
        ensures
            distinct_keys(pidx_keys(final(self).plugin_index@)),
            final(self).available == old(self).available,
            final(self).instances == old(self).instances,
            final(self).hook_log == old(self).hook_log,
            final(self).ui_calls == old(self).ui_calls,
            final(self).bridge == old(self).bridge,
            pidx_lookup(final(self).plugin_index@, plugin_id@) == Some(
                match pidx_lookup(old(self).plugin_index@, plugin_id@) {
                    Some(l) => l.push(*instance_id),
                    None => seq![*instance_id],
                },
            ),
            forall|k: Seq<char>|
                k != plugin_id@ ==> pidx_lookup(final(self).plugin_index@, k) == pidx_lookup(
                    old(self).plugin_index@,
                    k,
                ),
    {
        let n = self.plugin_index.len();
        let mut i: usize = 0;
        while i < n
            invariant
                n == self.plugin_index@.len(),
                i <= n,
                *self == *old(self),
                distinct_keys(pidx_keys(old(self).plugin_index@)),
                forall|j: int| 0 <= j < i ==> pidx_keys(self.plugin_index@)[j] != plugin_id@,
            decreases n - i,
        {
            if str_eq(self.plugin_index[i].0.as_str(), plugin_id) {
                proof {
                    lemma_key_index_at(pidx_keys(old(self).plugin_index@), plugin_id@, i as int);
                }
                let slot = &mut self.plugin_index[i];
                slot.1.push(instance_id.clone());
                proof {
                    assert(pidx_keys(self.plugin_index@) =~= pidx_keys(old(self).plugin_index@));
                    lemma_key_index_at(pidx_keys(self.plugin_index@), plugin_id@, i as int);
                    assert forall|k: Seq<char>|
                        k != plugin_id@ implies pidx_lookup(self.plugin_index@, k) == pidx_lookup(
                        old(self).plugin_index@,
                        k,
                    ) by {
                        lemma_key_index(pidx_keys(old(self).plugin_index@), k);
                        let r = key_index(pidx_keys(old(self).plugin_index@), k);
                        if r >= 0 {
                            assert(pidx_keys(old(self).plugin_index@)[r] == k);
                            assert(r != i);
                        }
                    }
                }
                return;
            }
            i += 1;
        }
        proof {
            lemma_key_index(pidx_keys(old(self).plugin_index@), plugin_id@);
            let r = key_index(pidx_keys(old(self).plugin_index@), plugin_id@);
            if r >= 0 {
                assert(pidx_keys(old(self).plugin_index@)[r] != plugin_id@);
            }
        }
        let mut fresh: Vec<String> = Vec::new();
        fresh.push(instance_id.clone());
        self.plugin_index.push((plugin_id.to_owned(), fresh));
        proof {
            assert(pidx_keys(self.plugin_index@) =~= pidx_keys(old(self).plugin_index@).push(
                plugin_id@,
            ));
            lemma_key_index_at(
                pidx_keys(self.plugin_index@),
                plugin_id@,
                old(self).plugin_index@.len() as int,
            );
            assert(self.plugin_index@.last().1@ =~= seq![*instance_id]);
            assert forall|a: int, b: int|
                0 <= a < b < pidx_keys(self.plugin_index@).len() implies pidx_keys(
                self.plugin_index@,
            )[a] != pidx_keys(self.plugin_index@)[b] by {
                if b == old(self).plugin_index@.len() as int {
                    assert(pidx_keys(old(self).plugin_index@)[a] != plugin_id@);
                }
            }
            assert forall|k: Seq<char>|
                k != plugin_id@ implies pidx_lookup(self.plugin_index@, k) == pidx_lookup(
                old(self).plugin_index@,
                k,
            ) by {
                lemma_key_index_push(pidx_keys(old(self).plugin_index@), k, plugin_id@);
                lemma_key_index(pidx_keys(old(self).plugin_index@), k);
            }
        }
    }

    /// Mount a plugin instance. An id that names a still-mounted instance
    /// returns success at once, creating nothing and invoking nothing.
    /// Otherwise the metadata is resolved, the plugin is created,
    /// initialized and mounted, its initial tree is seeded with one update
    /// call, and the instance is registered under both indices. Any failure
    /// on the way destroys the fresh instance and registers nothing. The
    /// result carries the instance id.
    pub fn mount_plugin(&mut self, plugin_id: &str, instance_id: Option<String>) -> (r: Result<
        String,
        HostError,
    >)
        requires
            old(self).wf(),
        ensures
            final(self).wf(),
            final(self).available == old(self).available,
            final(self).ui_calls == old(self).ui_calls,
            final(self).bridge == old(self).bridge,
            match instance_id {
                Some(given) => match find_inst(old(self).instances@, given@) {
                    Some(prior) => prior.is_mounted ==> r == Ok::<String, HostError>(given)
                        && *final(self) == *old(self),
                    None => true,
                },
                None => true,
            },
            match r {
                Ok(iid) => {
                    &&& (match instance_id {
                        Some(given) => iid@ == given@,
                        None => true,
                    })
                    &&& (match find_inst(old(self).instances@, iid@) {
                        Some(prior) => prior.is_mounted ==> *final(self) == *old(self) && (
                        match instance_id {
                            Some(given) => iid == given,
                            None => true,
                        }),
                        None => true,
                    })
                    &&& (match find_inst(old(self).instances@, iid@) {
                        Some(prior) => prior.is_mounted,
                        None => false,
                    }) || {
                        // a fresh instance was registered
                        &&& match find_inst(final(self).instances@, iid@) {
                            Some(inst) => {
                                &&& inst.is_mounted
                                &&& !inst.is_connected
                                &&& inst.plugin_id@ == plugin_id@
                                &&& inst.instance_id@ == iid@
                                &&& inst.metadata.id@ == plugin_id@
                                &&& match inst.metadata.instance_id {
                                    Some(mid) => mid@ == iid@,
                                    None => false,
                                }
                            },
                            None => false,
                        }
                        &&& forall|k: Seq<char>|
                            k != iid@ ==> find_inst(final(self).instances@, k) == find_inst(
                                old(self).instances@,
                                k,
                            )
                        &&& final(self).hook_log@.len() == old(self).hook_log@.len() + 3
                        &&& forall|j: int|
                            0 <= j < old(self).hook_log@.len() ==> final(self).hook_log@[j]
                                == old(self).hook_log@[j]
                        &&& hook_is(
                            final(self).hook_log@[old(self).hook_log@.len() as int],
                            HookKind::Initialize,
                            iid@,
                        )
                        &&& hook_is(
                            final(self).hook_log@[old(self).hook_log@.len() as int + 1],
                            HookKind::Mount,
                            iid@,
                        )
                        &&& hook_is(
                            final(self).hook_log@[old(self).hook_log@.len() as int + 2],
                            HookKind::UpdateUi,
                            iid@,
                        )
                        &&& pidx_lookup(final(self).plugin_index@, plugin_id@) == Some(
                            match pidx_lookup(old(self).plugin_index@, plugin_id@) {
                                Some(l) => l.push(iid),
                                None => seq![iid],
                            },
                        )
                        &&& forall|k: Seq<char>|
                            k != plugin_id@ ==> pidx_lookup(final(self).plugin_index@, k)
                                == pidx_lookup(old(self).plugin_index@, k)
                    }
                },
                Err(e) => {
                    let base = old(self).hook_log@.len() as int;
                    &&& final(self).instances == old(self).instances
                    &&& final(self).plugin_index == old(self).plugin_index
                    &&& (e == HostError::RegistryError || e == HostError::LoadError || e
                        == HostError::SymbolError || e == HostError::CreationError || e
                        == HostError::LifecycleError)
                    &&& (e == HostError::RegistryError ==> *final(self) == *old(self) && find_meta(
                        old(self).available@,
                        plugin_id@,
                    ) is None)
                    &&& ((e == HostError::LoadError || e == HostError::SymbolError || e
                        == HostError::CreationError) ==> final(self).hook_log == old(
                        self,
                    ).hook_log)
                    &&& (e == HostError::LifecycleError ==> {
                        // the fresh handle was destroyed before anything was registered
                        &&& forall|j: int|
                            0 <= j < base ==> final(self).hook_log@[j] == old(self).hook_log@[j]
                        &&& ((final(self).hook_log@.len() == base + 2 && final(self).hook_log@[base].kind == HookKind::Initialize && final(self).hook_log@[base + 1].kind == HookKind::Destroy) || (final(self).hook_log@.len() == base + 3 && final(self).hook_log@[base].kind
                            == HookKind::Initialize && final(self).hook_log@[base + 1].kind
                            == HookKind::Mount && final(self).hook_log@[base + 2].kind
                            == HookKind::Destroy))
                    })
                },
            },
    {
        let iid: String = match instance_id {
            Some(id) => id,
            None => crate::sys::fresh_uuid(),
        };
        match self.inst_pos(iid.as_str()) {
            Some(i) => {
                proof {
                    lemma_key_index(inst_ids(self.instances@), iid@);
                }
                if self.instances[i].is_mounted {
                    return Ok(iid);
                }
            },
            None => {},
        }
        let mut metadata = match self.find_plugin_metadata(plugin_id) {
            Some(m) => m,
            None => {
                return Err(HostError::RegistryError);
            },
        };
        proof {
            lemma_key_index(meta_ids(self.available@), plugin_id@);
        }
        metadata.instance_id = Some(iid.clone());
        let mut handler = match P::create(&metadata) {
            Ok(h) => h,
            Err(e) => {
                return Err(HostError::from_loader(e));
            },
        };
        self.hook_log.push(
            HookEvent { kind: HookKind::Initialize, instance_id: iid.clone() },
        );
        if handler.initialize(&metadata) != 0 {
            handler.destroy();
            self.hook_log.push(
                HookEvent { kind: HookKind::Destroy, instance_id: iid.clone() },
            );
            return Err(HostError::LifecycleError);
        }
        self.hook_log.push(HookEvent { kind: HookKind::Mount, instance_id: iid.clone() });
        if handler.on_mount() != 0 {
            handler.destroy();
            self.hook_log.push(
                HookEvent { kind: HookKind::Destroy, instance_id: iid.clone() },
            );
            return Err(HostError::LifecycleError);
        }
        let mut ui = Ui::new(iid.clone());
        let ctx = Context::new(iid.clone());
        self.hook_log.push(HookEvent { kind: HookKind::UpdateUi, instance_id: iid.clone() });
        handler.update_ui(&ctx, &mut ui);
        let inst = PluginInstance {
            metadata,
            instance_id: iid.clone(),
            plugin_id: plugin_id.to_owned(),
            handler,
            is_mounted: true,
            is_connected: false,
            ui,
        };
        match self.inst_pos(iid.as_str()) {
            Some(i) => {
                proof {
                    lemma_key_index(inst_ids(self.instances@), iid@);
                    lemma_inst_update(self.instances@, i as int, inst);
                }
                let slot = &mut self.instances[i];
                *slot = inst;
            },
            None => {
                proof {
                    lemma_inst_push(self.instances@, inst);
                }
                self.instances.push(inst);
            },
        }
        self.pidx_add(plugin_id, &iid);
        Ok(iid)
    }

    /// Drop one instance id from the list under a plugin id, removing the
    /// list when it becomes empty.
    fn pidx_remove(&mut self, plugin_id: &str, instance_id: &str)
        requires
            distinct_keys(pidx_keys(old(self).plugin_index@)),
        ensures
            distinct_keys(pidx_keys(final(self).plugin_index@)),
            final(self).available == old(self).available,
            final(self).instances == old(self).instances,
            final(self).hook_log == old(self).hook_log,
            final(self).ui_calls == old(self).ui_calls,
            final(self).bridge == old(self).bridge,
            match pidx_lookup(old(self).plugin_index@, plugin_id@) {
                Some(l) => {
                    let kept = remove_id(l, instance_id@);
                    if kept.len() == 0 {
                        pidx_lookup(final(self).plugin_index@, plugin_id@) is None
                    } else {
                        pidx_lookup(final(self).plugin_index@, plugin_id@) == Some(kept)
                    }
                },
                None => final(self).plugin_index == old(self).plugin_index,
            },
            forall|k: Seq<char>|
                k != plugin_id@ ==> pidx_lookup(final(self).plugin_index@, k) == pidx_lookup(
                    old(self).plugin_index@,
                    k,
                ),
    {
        let n = self.plugin_index.len();
        let mut i: usize = 0;
        while i < n
            invariant
                n == self.plugin_index@.len(),
                i <= n,
                *self == *old(self),
                distinct_keys(pidx_keys(old(self).plugin_index@)),
                forall|j: int| 0 <= j < i ==> pidx_keys(self.plugin_index@)[j] != plugin_id@,
            decreases n - i,
        {
            if str_eq(self.plugin_index[i].0.as_str(), plugin_id) {
                proof {
                    lemma_key_index_at(pidx_keys(old(self).plugin_index@), plugin_id@, i as int);
                }
                let m = self.plugin_index[i].1.len();
                let mut kept: Vec<String> = Vec::new();
                let mut j: usize = 0;
                proof {
                    assert(self.plugin_index@[i as int].1@.subrange(0, 0)
                        =~= Seq::<String>::empty());
                }
                while j < m
                    invariant
                        0 <= i < self.plugin_index@.len(),
                        m == self.plugin_index@[i as int].1@.len(),
                        j <= m,
                        *self == *old(self),
                        distinct_keys(pidx_keys(old(self).plugin_index@)),
                        key_index(pidx_keys(self.plugin_index@), plugin_id@) == i,
                        kept@ == remove_id(
                            self.plugin_index@[i as int].1@.subrange(0, j as int),
                            instance_id@,
                        ),
                    decreases m - j,
                {
                    let ghost l = self.plugin_index@[i as int].1@;
                    proof {
                        assert(l.subrange(0, j + 1 as int).drop_last() =~= l.subrange(
                            0,
                            j as int,
                        ));
                        assert(l.subrange(0, j + 1 as int).last() == l[j as int]);
                    }
                    if !str_eq(self.plugin_index[i].1[j].as_str(), instance_id) {
                        kept.push(self.plugin_index[i].1[j].clone());
                    }
                    j += 1;
                }
                proof {
                    assert(self.plugin_index@[i as int].1@.subrange(0, m as int)
                        =~= self.plugin_index@[i as int].1@);
                }
                if kept.len() == 0 {
                    self.plugin_index.remove(i);
                    proof {
                        lemma_pidx_remove_frame(old(self).plugin_index@, i as int, plugin_id@);
                        assert(pidx_keys(self.plugin_index@) =~= pidx_keys(
                            old(self).plugin_index@,
                        ).remove(i as int));
                        assert forall|a: int, b: int|
                            0 <= a < b < pidx_keys(self.plugin_index@).len() implies pidx_keys(
                            self.plugin_index@,
                        )[a] != pidx_keys(self.plugin_index@)[b] by {
                            let a0 = if a < i {
                                a
                            } else {
                                a + 1
                            };
                            let b0 = if b < i {
                                b
                            } else {
                                b + 1
                            };
                            assert(pidx_keys(old(self).plugin_index@)[a0] != pidx_keys(
                                old(self).plugin_index@,
                            )[b0]);
                        }
                        lemma_key_index(pidx_keys(self.plugin_index@), plugin_id@);
                        let rq = key_index(pidx_keys(self.plugin_index@), plugin_id@);
                        if rq >= 0 {
                            let rq0 = if rq < i {
                                rq
                            } else {
                                rq + 1
                            };
                            assert(pidx_keys(self.plugin_index@)[rq] == pidx_keys(
                                old(self).plugin_index@,
                            )[rq0]);
                            assert(pidx_keys(old(self).plugin_index@)[i as int] == plugin_id@);
                        }
                    }
                } else {
                    let slot = &mut self.plugin_index[i];
                    slot.1 = kept;
                    proof {
                        assert(pidx_keys(self.plugin_index@) =~= pidx_keys(
                            old(self).plugin_index@,
                        ));
                        lemma_key_index_at(pidx_keys(self.plugin_index@), plugin_id@, i as int);
                        assert forall|k: Seq<char>|
                            k != plugin_id@ implies pidx_lookup(self.plugin_index@, k)
                            == pidx_lookup(old(self).plugin_index@, k) by {
                            lemma_key_index(pidx_keys(old(self).plugin_index@), k);
                            let r = key_index(pidx_keys(old(self).plugin_index@), k);
                            if r >= 0 {
                                assert(pidx_keys(old(self).plugin_index@)[r] == k);
                                assert(r != i);
                            }
                        }
                    }
                }
                return;
            }
            i += 1;
        }
        proof {
            lemma_key_index(pidx_keys(old(self).plugin_index@), plugin_id@);
            let r = key_index(pidx_keys(old(self).plugin_index@), plugin_id@);
            if r >= 0 {
                assert(pidx_keys(old(self).plugin_index@)[r] != plugin_id@);
            }
        }
    }

    /// Dispose an instance: disconnect it if it is connected, run the
    /// dispose hook, destroy the handle, and deregister it from the plugin
    /// index — in exactly that order, as the log records. Disposing an
    /// already unmounted instance succeeds without invoking anything, so a
    /// handle is never destroyed twice; an unknown id is an error. Hook
    /// failures during teardown are recorded but never stop it.
    pub fn dispose_plugin(&mut self, instance_id: &str) -> (r: Result<(), HostError>)
        requires
            old(self).wf(),
        ensures
            final(self).wf(),
            final(self).available == old(self).available,
            final(self).ui_calls == old(self).ui_calls,
            final(self).bridge == old(self).bridge,
            forall|k: Seq<char>|
                k != instance_id@ ==> find_inst(final(self).instances@, k) == find_inst(
                    old(self).instances@,
                    k,
                ),
            match find_inst(old(self).instances@, instance_id@) {
                None => r == Err::<(), HostError>(HostError::RegistryError) && *final(self)
                    == *old(self),
                Some(i0) => {
                    if !i0.is_mounted {
                        r == Ok::<(), HostError>(()) && *final(self) == *old(self)
                    } else {
                        let base = old(self).hook_log@.len() as int;
                        &&& r == Ok::<(), HostError>(())
                        &&& match find_inst(final(self).instances@, instance_id@) {
                            Some(i1) => {
                                &&& i1.metadata == i0.metadata
                                &&& i1.instance_id == i0.instance_id
                                &&& i1.plugin_id == i0.plugin_id
                                &&& !i1.is_mounted
                                &&& !i1.is_connected
                                &&& i1.ui == i0.ui
                            },
                            None => false,
                        }
                        &&& forall|j: int|
                            0 <= j < base ==> final(self).hook_log@[j] == old(self).hook_log@[j]
                        &&& (if i0.is_connected {
                            &&& final(self).hook_log@.len() == base + 4
                            &&& hook_is(
                                final(self).hook_log@[base],
                                HookKind::Disconnect,
                                instance_id@,
                            )
                            &&& hook_is(
                                final(self).hook_log@[base + 1],
                                HookKind::Dispose,
                                instance_id@,
                            )
                            &&& hook_is(
                                final(self).hook_log@[base + 2],
                                HookKind::Destroy,
                                instance_id@,
                            )
                            &&& hook_is(
                                final(self).hook_log@[base + 3],
                                HookKind::Deregister,
                                instance_id@,
                            )
                        } else {
                            &&& final(self).hook_log@.len() == base + 3
                            &&& hook_is(
                                final(self).hook_log@[base],
                                HookKind::Dispose,
                                instance_id@,
                            )
                            &&& hook_is(
                                final(self).hook_log@[base + 1],
                                HookKind::Destroy,
                                instance_id@,
                            )
                            &&& hook_is(
                                final(self).hook_log@[base + 2],
                                HookKind::Deregister,
                                instance_id@,
                            )
                        })
                        &&& (match pidx_lookup(old(self).plugin_index@, i0.plugin_id@) {
                            Some(l) => {
                                let kept = remove_id(l, instance_id@);
                                if kept.len() == 0 {
                                    pidx_lookup(
                                        final(self).plugin_index@,
                                        i0.plugin_id@,
                                    ) is None
                                } else {
                                    pidx_lookup(final(self).plugin_index@, i0.plugin_id@)
                                        == Some(kept)
                                }
                            },
                            None => final(self).plugin_index == old(self).plugin_index,
                        })
                        &&& forall|k: Seq<char>|
                            k != i0.plugin_id@ ==> pidx_lookup(final(self).plugin_index@, k)
                                == pidx_lookup(old(self).plugin_index@, k)
                    }
                },
            },
    {
        let i = match self.inst_pos(instance_id) {
            Some(i) => i,
            None => {
                return Err(HostError::RegistryError);
            },
        };
        proof {
            lemma_key_index(inst_ids(self.instances@), instance_id@);
        }
        if !self.instances[i].is_mounted {
            return Ok(());
        }
        if self.instances[i].is_connected {
            self.hook_log.push(
                HookEvent { kind: HookKind::Disconnect, instance_id: instance_id.to_owned() },
            );
            let slot = &mut self.instances[i];
            let _ = slot.handler.on_disconnect();
            slot.is_connected = false;
        }
        self.hook_log.push(
            HookEvent { kind: HookKind::Dispose, instance_id: instance_id.to_owned() },
        );
        {
            let slot = &mut self.instances[i];
            let _ = slot.handler.on_dispose();
        }
        self.hook_log.push(
            HookEvent { kind: HookKind::Destroy, instance_id: instance_id.to_owned() },
        );
        {
            let slot = &mut self.instances[i];
            slot.handler.destroy();
            slot.is_mounted = false;
        }
        proof {
            assert(self.instances@ =~= old(self).instances@.update(
                i as int,
                self.instances@[i as int],
            ));
            lemma_inst_update(
                old(self).instances@,
                i as int,
                self.instances@[i as int],
            );
        }
        let pid = self.instances[i].plugin_id.clone();
        self.pidx_remove(pid.as_str(), instance_id);
        self.hook_log.push(
            HookEvent { kind: HookKind::Deregister, instance_id: instance_id.to_owned() },
        );
        Ok(())
    }

    /// Deliver one message to an instance. The instance must exist, carry
    /// the given plugin id, and be both mounted and connected. When the
    /// plugin declares require_history the history is injected first; a
    /// failure there is recorded and superseded. The plugin's answer is the
    /// result; a nonzero handler status surfaces as MessageError.
    pub fn send_message_to_plugin_instance(
        &mut self,
        plugin_id: &str,
        instance_id: &str,
        message: &str,
        history: Option<Vec<HistoryMessage>>,
    ) -> (r: Result<String, HostError>)
        requires
            old(self).wf(),
        ensures
            final(self).wf(),
            final(self).available == old(self).available,
            final(self).plugin_index == old(self).plugin_index,
            final(self).ui_calls == old(self).ui_calls,
            final(self).bridge == old(self).bridge,
            forall|k: Seq<char>|
                k != instance_id@ ==> find_inst(final(self).instances@, k) == find_inst(
                    old(self).instances@,
                    k,
                ),
            match find_inst(old(self).instances@, instance_id@) {
                None => r == Err::<String, HostError>(HostError::RegistryError) && *final(self)
                    == *old(self),
                Some(i0) => {
                    if i0.plugin_id@ != plugin_id@ {
                        r == Err::<String, HostError>(HostError::RegistryError) && *final(self)
                            == *old(self)
                    } else if !i0.is_mounted || !i0.is_connected {
                        r == Err::<String, HostError>(HostError::LifecycleError) && *final(self)
                            == *old(self)
                    } else {
                        let base = old(self).hook_log@.len() as int;
                        &&& match find_inst(final(self).instances@, instance_id@) {
                            Some(i1) => {
                                &&& i1.metadata == i0.metadata
                                &&& i1.instance_id == i0.instance_id
                                &&& i1.plugin_id == i0.plugin_id
                                &&& i1.is_mounted
                                &&& i1.is_connected
                                &&& i1.ui == i0.ui
                            },
                            None => false,
                        }
                        &&& forall|j: int|
                            0 <= j < base ==> final(self).hook_log@[j] == old(self).hook_log@[j]
                        &&& (if i0.metadata.require_history {
                            &&& final(self).hook_log@.len() == base + 2
                            &&& hook_is(
                                final(self).hook_log@[base],
                                HookKind::SetHistory,
                                instance_id@,
                            )
                            &&& hook_is(
                                final(self).hook_log@[base + 1],
                                HookKind::HandleMessage,
                                instance_id@,
                            )
                        } else {
                            &&& final(self).hook_log@.len() == base + 1
                            &&& hook_is(
                                final(self).hook_log@[base],
                                HookKind::HandleMessage,
                                instance_id@,
                            )
                        })
                        &&& (r is Ok || r == Err::<String, HostError>(HostError::MessageError))
                    }
                },
            },
    {
        let i = match self.inst_pos(instance_id) {
            Some(i) => i,
            None => {
                return Err(HostError::RegistryError);
            },
        };
        proof {
            lemma_key_index(inst_ids(self.instances@), instance_id@);
        }
        if !str_eq(self.instances[i].plugin_id.as_str(), plugin_id) {
            return Err(HostError::RegistryError);
        }
        if !self.instances[i].is_mounted || !self.instances[i].is_connected {
            return Err(HostError::LifecycleError);
        }
        if self.instances[i].metadata.require_history {
            self.hook_log.push(
                HookEvent { kind: HookKind::SetHistory, instance_id: instance_id.to_owned() },
            );
            let slot = &mut self.instances[i];
            let _ = slot.handler.set_history(&history);
        }
        self.hook_log.push(
            HookEvent { kind: HookKind::HandleMessage, instance_id: instance_id.to_owned() },
        );
        let outcome = {
            let slot = &mut self.instances[i];
            slot.handler.handle_message(message)
        };
        proof {
            assert(self.instances@ =~= old(self).instances@.update(
                i as int,
                self.instances@[i as int],
            ));
            lemma_inst_update(
                old(self).instances@,
                i as int,
                self.instances@[i as int],
            );
        }
        match outcome {
            Ok(resp) => Ok(resp),
            Err(_) => Err(HostError::MessageError),
        }
    }

    /// The current widget tree of a mounted instance, in issue order.
    pub fn get_plugin_ui(&self, instance_id: &str) -> (r: Result<&Vec<UiComponent>, HostError>)
        ensures
            match find_inst(self.instances@, instance_id@) {
                None => r == Err::<&Vec<UiComponent>, HostError>(HostError::RegistryError),
                Some(i0) => {
                    if i0.is_mounted {
                        match r {
                            Ok(v) => v@ == i0.ui.components@,
                            Err(_) => false,
                        }
                    } else {
                        r == Err::<&Vec<UiComponent>, HostError>(HostError::LifecycleError)
                    }
                },
            },
    {
        let i = match self.inst_pos(instance_id) {
            Some(i) => i,
            None => {
                return Err(HostError::RegistryError);
            },
        };
        proof {
            lemma_key_index(inst_ids(self.instances@), instance_id@);
        }
        if !self.instances[i].is_mounted {
            return Err(HostError::LifecycleError);
        }
        Ok(&self.instances[i].ui.components)
    }

    /// Tell the shell that an instance's tree changed: exactly one
    /// ui-updated event naming the plugin and the instance is handed to
    /// the transport.
    pub fn notify_plugin_ui_update(&mut self, plugin_id: &str, instance_id: &str) -> (r: Result<
        (),
        HostError,
    >)
        requires
            old(self).wf(),
        ensures
            final(self).wf(),
            final(self).available == old(self).available,
            final(self).instances == old(self).instances,
            final(self).plugin_index == old(self).plugin_index,
            final(self).hook_log == old(self).hook_log,
            final(self).ui_calls == old(self).ui_calls,
            final(self).bridge.shadow() == old(self).bridge.shadow(),
            crate::stream::handed_one(old(self).bridge.emitted@, final(self).bridge.emitted@),
            match final(self).bridge.emitted@.last() {
                FrontendEvent::UiUpdated { plugin_id: p, instance_id: i } => p@ == plugin_id@
                    && i@ == instance_id@,
                _ => false,
            },
            r is Ok || r == Err::<(), HostError>(HostError::MessageError),
    {
        let event = FrontendEvent::UiUpdated {
            plugin_id: plugin_id.to_owned(),
            instance_id: instance_id.to_owned(),
        };
        let sent = self.bridge.send_to_frontend(event);
        proof {
            assert(self.bridge.emitted@.drop_last() =~= old(self).bridge.emitted@);
        }
        if sent {
            Ok(())
        } else {
            Err(HostError::MessageError)
        }
    }

    /// Route one interaction event to a mounted instance. The event is
    /// recorded in the instance's builder and classified by its id prefix;
    /// when it belongs to a widget kind that bears events, the update
    /// routine is re-invoked over a context carrying the submitted value,
    /// the event record is cleared, and the shell is notified. The report
    /// says whether the event was handled.
    pub fn handle_plugin_ui_event(
        &mut self,
        instance_id: &str,
        component_id: &str,
        value: &str,
    ) -> (r: Result<bool, HostError>)
        requires
            old(self).wf(),
        ensures
            final(self).wf(),
            final(self).available == old(self).available,
            final(self).plugin_index == old(self).plugin_index,
            final(self).bridge.shadow() == old(self).bridge.shadow(),
            forall|k: Seq<char>|
                k != instance_id@ ==> find_inst(final(self).instances@, k) == find_inst(
                    old(self).instances@,
                    k,
                ),
            match find_inst(old(self).instances@, instance_id@) {
                None => r == Err::<bool, HostError>(HostError::RegistryError) && *final(self)
                    == *old(self),
                Some(i0) => {
                    if !i0.is_mounted {
                        r == Err::<bool, HostError>(HostError::LifecycleError) && *final(self)
                            == *old(self)
                    } else {
                        let handled = crate::ui::is_widget_event(component_id@);
                        let base = old(self).hook_log@.len() as int;
                        &&& r == Ok::<bool, HostError>(handled)
                        &&& (handled ==> {
                            &&& final(self).ui_calls@ == old(self).ui_calls@.push(
                                UiDispatch {
                                    instance_id: instance_id@,
                                    component_id: component_id@,
                                    value: value@,
                                },
                            )
                            &&& crate::stream::handed_one(
                                old(self).bridge.emitted@,
                                final(self).bridge.emitted@,
                            )
                            &&& match final(self).bridge.emitted@.last() {
                                FrontendEvent::UiUpdated { plugin_id: p, instance_id: i } => p@
                                    == i0.plugin_id@ && i@ == instance_id@,
                                _ => false,
                            }
                        })
                        &&& (!handled ==> final(self).ui_calls == old(self).ui_calls && final(self).bridge == old(self).bridge)
                        &&& match find_inst(final(self).instances@, instance_id@) {
                            Some(i1) => {
                                &&& i1.metadata == i0.metadata
                                &&& i1.instance_id == i0.instance_id
                                &&& i1.plugin_id == i0.plugin_id
                                &&& i1.is_mounted
                                &&& i1.is_connected == i0.is_connected
                                &&& (!handled ==> i1.ui.components == i0.ui.components)
                                &&& (handled ==> i1.ui.clicked_components@ =~= Seq::<
                                    String,
                                >::empty() && i1.ui.changed_components@ =~= Seq::<
                                    String,
                                >::empty() && i1.ui.ui_event_data@ =~= Seq::<
                                    (String, String),
                                >::empty())
                            },
                            None => false,
                        }
                        &&& (if handled {
                            &&& final(self).hook_log@.len() == base + 1
                            &&& hook_is(
                                final(self).hook_log@[base],
                                HookKind::UpdateUi,
                                instance_id@,
                            )
                        } else {
                            final(self).hook_log == old(self).hook_log
                        })
                        &&& forall|j: int|
                            0 <= j < base ==> final(self).hook_log@[j] == old(self).hook_log@[j]
                    }
                },
            },
    {
        let i = match self.inst_pos(instance_id) {
            Some(i) => i,
            None => {
                return Err(HostError::RegistryError);
            },
        };
        proof {
            lemma_key_index(inst_ids(self.instances@), instance_id@);
        }
        if !self.instances[i].is_mounted {
            return Err(HostError::LifecycleError);
        }
        let handled = {
            let slot = &mut self.instances[i];
            slot.ui.handle_ui_event(component_id, value)
        };
        if handled {
            self.hook_log.push(
                HookEvent { kind: HookKind::UpdateUi, instance_id: instance_id.to_owned() },
            );
            self.ui_calls = Ghost(
                self.ui_calls@.push(
                    UiDispatch {
                        instance_id: instance_id@,
                        component_id: component_id@,
                        value: value@,
                    },
                ),
            );
            {
                let slot = &mut self.instances[i];
                slot.ui.clear_components_only();
                let mut event_data: Vec<(String, String)> = Vec::new();
                event_data.push((component_id.to_owned(), value.to_owned()));
                let ctx = Context::with_ui_event_data(instance_id.to_owned(), event_data);
                slot.handler.update_ui(&ctx, &mut slot.ui);
                slot.ui.clear_events();
            }
            proof {
                assert(self.instances@ =~= old(self).instances@.update(
                    i as int,
                    self.instances@[i as int],
                ));
                lemma_inst_update(
                    old(self).instances@,
                    i as int,
                    self.instances@[i as int],
                );
            }
            let pid = self.instances[i].plugin_id.clone();
            let _ = self.notify_plugin_ui_update(pid.as_str(), instance_id);
            Ok(true)
        } else {
            proof {
                assert(self.instances@ =~= old(self).instances@.update(
                    i as int,
                    self.instances@[i as int],
                ));
                lemma_inst_update(
                    old(self).instances@,
                    i as int,
                    self.instances@[i as int],
                );
            }
            Ok(false)
        }
    }

    /// Re-invoke a mounted instance's update routine with one submitted
    /// value, unconditionally, and notify the shell. Used when the shell
    /// pushes a value change rather than a widget event.
    pub fn handle_plugin_ui_update(
        &mut self,
        instance_id: &str,
        component_id: &str,
        value: &str,
    ) -> (r: Result<bool, HostError>)
        requires
            old(self).wf(),
        ensures
            final(self).wf(),
            final(self).available == old(self).available,
            final(self).plugin_index == old(self).plugin_index,
            final(self).bridge.shadow() == old(self).bridge.shadow(),
            forall|k: Seq<char>|
                k != instance_id@ ==> find_inst(final(self).instances@, k) == find_inst(
                    old(self).instances@,
                    k,
                ),
            match find_inst(old(self).instances@, instance_id@) {
                None => r == Err::<bool, HostError>(HostError::RegistryError) && *final(self)
                    == *old(self),
                Some(i0) => {
                    if !i0.is_mounted {
                        r == Err::<bool, HostError>(HostError::LifecycleError) && *final(self)
                            == *old(self)
                    } else {
                        let base = old(self).hook_log@.len() as int;
                        &&& r == Ok::<bool, HostError>(true)
                        &&& final(self).ui_calls@ == old(self).ui_calls@.push(
                            UiDispatch {
                                instance_id: instance_id@,
                                component_id: component_id@,
                                value: value@,
                            },
                        )
                        &&& crate::stream::handed_one(
                            old(self).bridge.emitted@,
                            final(self).bridge.emitted@,
                        )
                        &&& match final(self).bridge.emitted@.last() {
                            FrontendEvent::UiUpdated { plugin_id: p, instance_id: i } => p@
                                == i0.plugin_id@ && i@ == instance_id@,
                            _ => false,
                        }
                        &&& match find_inst(final(self).instances@, instance_id@) {
                            Some(i1) => {
                                &&& i1.metadata == i0.metadata
                                &&& i1.instance_id == i0.instance_id
                                &&& i1.plugin_id == i0.plugin_id
                                &&& i1.is_mounted
                                &&& i1.is_connected == i0.is_connected
                                &&& i1.ui.clicked_components@ =~= Seq::<String>::empty()
                                &&& i1.ui.changed_components@ =~= Seq::<String>::empty()
                                &&& i1.ui.ui_event_data@ =~= Seq::<(String, String)>::empty()
                            },
                            None => false,
                        }
                        &&& final(self).hook_log@.len() == base + 1
                        &&& hook_is(
                            final(self).hook_log@[base],
                            HookKind::UpdateUi,
                            instance_id@,
                        )
                        &&& forall|j: int|
                            0 <= j < base ==> final(self).hook_log@[j] == old(self).hook_log@[j]
                    }
                },
            },
    {
        let i = match self.inst_pos(instance_id) {
            Some(i) => i,
            None => {
                return Err(HostError::RegistryError);
            },
        };
        proof {
            lemma_key_index(inst_ids(self.instances@), instance_id@);
        }
        if !self.instances[i].is_mounted {
            return Err(HostError::LifecycleError);
        }
        self.hook_log.push(
            HookEvent { kind: HookKind::UpdateUi, instance_id: instance_id.to_owned() },
        );
        self.ui_calls = Ghost(
            self.ui_calls@.push(
                UiDispatch {
                    instance_id: instance_id@,
                    component_id: component_id@,
                    value: value@,
                },
            ),
        );
        {
            let slot = &mut self.instances[i];
            slot.ui.clear_components_only();
            let mut event_data: Vec<(String, String)> = Vec::new();
            event_data.push((component_id.to_owned(), value.to_owned()));
            let ctx = Context::with_ui_event_data(instance_id.to_owned(), event_data);
            slot.handler.update_ui(&ctx, &mut slot.ui);
            slot.ui.clear_events();
        }
        proof {
            assert(self.instances@ =~= old(self).instances@.update(
                i as int,
                self.instances@[i as int],
            ));
            lemma_inst_update(
                old(self).instances@,
                i as int,
                self.instances@[i as int],
            );
        }
        let pid = self.instances[i].plugin_id.clone();
        let _ = self.notify_plugin_ui_update(pid.as_str(), instance_id);
        Ok(true)
    }

    /// Cancel one stream centrally. The instance must be mounted and
    /// connected and the shadow ledger must still hold the stream in a
    /// non-terminal status. The entry is flipped to Cancelled — and kept,
    /// so the bridge keeps refusing delivery for this stream — and a cancel
    /// event goes straight to the transport, past the refusal check.
    pub fn cancel_stream_message(&mut self, instance_id: &str, stream_id: &str) -> (r: Result<
        (),
        HostError,
    >)
        requires
            old(self).wf(),
        ensures
            final(self).wf(),
            final(self).available == old(self).available,
            final(self).instances == old(self).instances,
            final(self).plugin_index == old(self).plugin_index,
            final(self).hook_log == old(self).hook_log,
            final(self).ui_calls == old(self).ui_calls,
            forall|k: Seq<char>|
                k != stream_id@ ==> crate::bridge::shadow_find(final(self).bridge.shadow(), k)
                    == crate::bridge::shadow_find(old(self).bridge.shadow(), k),
            match find_inst(old(self).instances@, instance_id@) {
                None => r == Err::<(), HostError>(HostError::RegistryError) && *final(self)
                    == *old(self),
                Some(i0) => {
                    if !i0.is_mounted || !i0.is_connected {
                        r == Err::<(), HostError>(HostError::LifecycleError) && *final(self)
                            == *old(self)
                    } else {
                        match old(self).bridge.shadow_status(stream_id@) {
                            None => r == Err::<(), HostError>(
                                HostError::Stream(StreamError::StreamNotFound),
                            ) && final(self).bridge == old(self).bridge,
                            Some(st) => {
                                if is_terminal(st) {
                                    r == Err::<(), HostError>(
                                        HostError::Stream(StreamError::InvalidState),
                                    ) && final(self).bridge == old(self).bridge
                                } else {
                                    &&& r == Ok::<(), HostError>(())
                                    &&& final(self).bridge.shadow_status(stream_id@) == Some(
                                        StreamStatus::Cancelled,
                                    )
                                    &&& crate::stream::handed_one(
                                        old(self).bridge.emitted@,
                                        final(self).bridge.emitted@,
                                    )
                                    &&& match old(self).bridge.shadow_status(stream_id@) {
                                        Some(_) => crate::stream::is_stream_event(
                                            final(self).bridge.emitted@.last(),
                                            StreamEventKind::Cancel,
                                            crate::bridge::shadow_find(
                                                old(self).bridge.shadow(),
                                                stream_id@,
                                            )->Some_0.plugin_id@,
                                            instance_id@,
                                            stream_id@,
                                        ),
                                        None => false,
                                    }
                                }
                            },
                        }
                    }
                },
            },
    {
        let i = match self.inst_pos(instance_id) {
            Some(i) => i,
            None => {
                return Err(HostError::RegistryError);
            },
        };
        proof {
            lemma_key_index(inst_ids(self.instances@), instance_id@);
        }
        if !self.instances[i].is_mounted || !self.instances[i].is_connected {
            return Err(HostError::LifecycleError);
        }
        let entry = match self.bridge.get_shadow_entry(stream_id) {
            Some(e) => e,
            None => {
                return Err(HostError::Stream(StreamError::StreamNotFound));
            },
        };
        match entry.status {
            StreamStatus::Completed | StreamStatus::Error | StreamStatus::Cancelled => {
                return Err(HostError::Stream(StreamError::InvalidState));
            },
            _ => {},
        }
        let _ = self.bridge.set_shadow_status(stream_id, StreamStatus::Cancelled);
        let wrapper = StreamMessageWrapper {
            kind: StreamEventKind::Cancel,
            plugin_id: entry.plugin_id,
            instance_id: instance_id.to_owned(),
            data: StreamMessageData::Control(
                StreamControlData { stream_id: stream_id.to_owned() },
            ),
            timestamp: crate::sys::now_unix_nanos() / 1000000,
        };
        let ghost gw = wrapper;
        let _ = self.bridge.emit_direct(FrontendEvent::Stream(wrapper));
        proof {
            assert(self.bridge.emitted@.drop_last() =~= old(self).bridge.emitted@);
        }
        Ok(())
    }

    /// Tear down every instance from position i on: disconnect if
    /// connected, dispose, destroy, mark unmounted — ignoring individual
    /// hook failures.
    fn cleanup_from(&mut self, i: usize)
        requires
            old(self).wf(),
            i <= old(self).instances@.len(),
        ensures
            final(self).wf(),
            final(self).available == old(self).available,
            final(self).plugin_index == old(self).plugin_index,
            final(self).ui_calls == old(self).ui_calls,
            final(self).bridge == old(self).bridge,
            final(self).instances@.len() == old(self).instances@.len(),
            forall|j: int| 0 <= j < i ==> final(self).instances@[j] == old(self).instances@[j],
            forall|j: int|
                i <= j < old(self).instances@.len() ==> {
                    &&& !final(self).instances@[j].is_mounted
                    &&& (old(self).instances@[j].is_mounted ==> {
                        &&& !final(self).instances@[j].is_connected
                        &&& final(self).instances@[j].metadata == old(
                            self,
                        ).instances@[j].metadata
                        &&& final(self).instances@[j].instance_id == old(
                            self,
                        ).instances@[j].instance_id
                        &&& final(self).instances@[j].plugin_id == old(
                            self,
                        ).instances@[j].plugin_id
                        &&& final(self).instances@[j].ui == old(self).instances@[j].ui
                    })
                    &&& (!old(self).instances@[j].is_mounted ==> final(self).instances@[j]
                        == old(self).instances@[j])
                },
            final(self).hook_log@.len() >= old(self).hook_log@.len(),
            forall|j: int|
                0 <= j < old(self).hook_log@.len() ==> final(self).hook_log@[j] == old(
                    self,
                ).hook_log@[j],
            cleanup_log_ok(
                old(self).instances@.skip(i as int),
                final(self).hook_log@.skip(old(self).hook_log@.len() as int),
            ),
        decreases old(self).instances@.len() - i,
    {
        if i == self.instances.len() {
            proof {
                assert(old(self).instances@.skip(i as int) =~= Seq::<
                    PluginInstance<P>,
                >::empty());
                assert(self.hook_log@.skip(old(self).hook_log@.len() as int) =~= Seq::<
                    HookEvent,
                >::empty());
            }
            return;
        }
        let ghost log0 = self.hook_log@;
        if self.instances[i].is_mounted {
            let iid = self.instances[i].instance_id.clone();
            if self.instances[i].is_connected {
                self.hook_log.push(
                    HookEvent { kind: HookKind::Disconnect, instance_id: iid.clone() },
                );
                let slot = &mut self.instances[i];
                let _ = slot.handler.on_disconnect();
                slot.is_connected = false;
            }
            self.hook_log.push(HookEvent { kind: HookKind::Dispose, instance_id: iid.clone() });
            {
                let slot = &mut self.instances[i];
                let _ = slot.handler.on_dispose();
            }
            self.hook_log.push(HookEvent { kind: HookKind::Destroy, instance_id: iid.clone() });
            {
                let slot = &mut self.instances[i];
                slot.handler.destroy();
                slot.is_mounted = false;
            }
        }
        let ghost mid = *self;
        proof {
            assert(mid.instances@ =~= old(self).instances@.update(
                i as int,
                mid.instances@[i as int],
            ));
            assert(inst_ids(mid.instances@) =~= inst_ids(old(self).instances@));
        }
        self.cleanup_from(i + 1);
        proof {
            assert(mid.instances@.skip(i + 1 as int) =~= old(self).instances@.skip(
                i + 1 as int,
            ));
            let insts = old(self).instances@.skip(i as int);
            assert(insts[0] == old(self).instances@[i as int]);
            assert(insts.drop_first() =~= old(self).instances@.skip(i + 1 as int));
            let added = self.hook_log@.skip(old(self).hook_log@.len() as int);
            let added_rest = self.hook_log@.skip(mid.hook_log@.len() as int);
            if old(self).instances@[i as int].is_mounted {
                if old(self).instances@[i as int].is_connected {
                    assert(added.skip(3) =~= added_rest);
                    assert(hook_is(
                        added[0],
                        HookKind::Disconnect,
                        old(self).instances@[i as int].instance_id@,
                    ));
                } else {
                    assert(added.skip(2) =~= added_rest);
                }
            } else {
                assert(added =~= added_rest);
            }
        }
    }

    /// Tear down every mounted instance, in table order, and clear the
    /// plugin index. Individual hook failures are ignored: after the sweep
    /// no instance is mounted or connected, and the log shows the dispose
    /// sequence for each instance that was mounted.
    pub fn cleanup_all_plugins(&mut self)
        requires
            old(self).wf(),
        ensures
            final(self).wf(),
            final(self).available == old(self).available,
            final(self).ui_calls == old(self).ui_calls,
            final(self).bridge == old(self).bridge,
            final(self).plugin_index@ =~= Seq::<(String, Vec<String>)>::empty(),
            final(self).instances@.len() == old(self).instances@.len(),
            forall|j: int|
                0 <= j < old(self).instances@.len() ==> {
                    &&& !final(self).instances@[j].is_mounted
                    &&& (old(self).instances@[j].is_mounted ==> {
                        &&& !final(self).instances@[j].is_connected
                        &&& final(self).instances@[j].metadata == old(
                            self,
                        ).instances@[j].metadata
                        &&& final(self).instances@[j].instance_id == old(
                            self,
                        ).instances@[j].instance_id
                        &&& final(self).instances@[j].plugin_id == old(
                            self,
                        ).instances@[j].plugin_id
                    })
                    &&& (!old(self).instances@[j].is_mounted ==> final(self).instances@[j]
                        == old(self).instances@[j])
                },
            forall|j: int|
                0 <= j < old(self).hook_log@.len() ==> final(self).hook_log@[j] == old(
                    self,
                ).hook_log@[j],
            cleanup_log_ok(
                old(self).instances@,
                final(self).hook_log@.skip(old(self).hook_log@.len() as int),
            ),
    {
        self.cleanup_from(0);
        self.plugin_index = Vec::new();
        proof {
            assert(old(self).instances@.skip(0) =~= old(self).instances@);
        }
    }
}

/// The log entries one teardown sweep appends, instance by instance in
/// table order: nothing for an unmounted instance, and the dispose sequence
/// — preceded by a disconnect for a connected instance — for a mounted one.
pub open spec fn cleanup_log_ok<P>(insts: Seq<PluginInstance<P>>, added: Seq<HookEvent>) -> bool
    decreases insts.len(),
{
    if insts.len() == 0 {
        added.len() == 0
    } else {
        let i0 = insts[0];
        let rest = insts.drop_first();
        if !i0.is_mounted {
            cleanup_log_ok(rest, added)
        } else if i0.is_connected {
            &&& added.len() >= 3
            &&& hook_is(added[0], HookKind::Disconnect, i0.instance_id@)
            &&& hook_is(added[1], HookKind::Dispose, i0.instance_id@)
            &&& hook_is(added[2], HookKind::Destroy, i0.instance_id@)
            &&& cleanup_log_ok(rest, added.skip(3))
        } else {
            &&& added.len() >= 2
            &&& hook_is(added[0], HookKind::Dispose, i0.instance_id@)
            &&& hook_is(added[1], HookKind::Destroy, i0.instance_id@)
            &&& cleanup_log_ok(rest, added.skip(2))
        }
    }
}

/// After removing the entry at the position of k, every other key still
/// resolves to its old list.
proof fn lemma_pidx_remove_frame(pre: Seq<(String, Vec<String>)>, i: int, k0: Seq<char>)
    requires
        0 <= i < pre.len(),
        key_index(pidx_keys(pre), k0) == i,
        forall|j: int| 0 <= j < i ==> pidx_keys(pre)[j] != k0,
    ensures
        key_index(pidx_keys(pre.remove(i)), k0) == key_index(pidx_keys(pre).remove(i), k0),
        forall|k: Seq<char>|
            k != k0 && pidx_keys(pre.remove(i)) =~= pidx_keys(pre).remove(i) ==> pidx_lookup(
                pre.remove(i),
                k,
            ) == pidx_lookup(pre, k),
        pidx_keys(pre.remove(i)) =~= pidx_keys(pre).remove(i),
{
    assert(pidx_keys(pre.remove(i)) =~= pidx_keys(pre).remove(i));
    lemma_key_index(pidx_keys(pre), k0);
    let post = pre.remove(i);
    assert forall|k: Seq<char>| k != k0 implies pidx_lookup(post, k) == pidx_lookup(pre, k) by {
        lemma_key_index(pidx_keys(pre), k);
        lemma_key_index(pidx_keys(post), k);
        let rp = key_index(pidx_keys(pre), k);
        let rq = key_index(pidx_keys(post), k);
        if rp >= 0 {
            assert(rp != i);
            let rn = if rp < i {
                rp
            } else {
                rp - 1
            };
            assert(pidx_keys(post)[rn] == k) by {
                if rp < i {
                    assert(pidx_keys(post)[rn] == pidx_keys(pre)[rp]);
                } else {
                    assert(pidx_keys(post)[rn] == pidx_keys(pre)[rp]);
                }
            }
            assert forall|j: int| 0 <= j < rn implies pidx_keys(post)[j] != k by {
                let j0 = if j < i {
                    j
                } else {
                    j + 1
                };
                assert(pidx_keys(post)[j] == pidx_keys(pre)[j0]);
                assert(j0 < rp);
            }
            lemma_key_index_at(pidx_keys(post), k, rn);
        } else {
            if rq >= 0 {
                let rq0 = if rq < i {
                    rq
                } else {
                    rq + 1
                };
                assert(pidx_keys(post)[rq] == pidx_keys(pre)[rq0]);
            }
        }
    }
}

} // verus!
