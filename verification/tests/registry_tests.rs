//! Tests of the instance registry: lifecycle, idempotence, isolation,
//! message delivery, the UI round trip, and central stream cancellation.

use plugin_host::bridge::{HostBridge, RecordingTransport};
use plugin_host::demo::{CounterPlugin, EchoPlugin};
use plugin_host::errors::HostError;
use plugin_host::metadata::PluginMetadata;
use plugin_host::registry::{HookKind, PluginManager};
use plugin_host::stream::{StreamError, StreamManager, StreamStatus};
use plugin_host::ui::UiComponentType;

fn demo_metadata(id: &str) -> PluginMetadata {
    PluginMetadata {
        id: id.to_string(),
        disabled: false,
        name: format!("{} plugin", id),
        description: "a test plugin".to_string(),
        version: "0.1.0".to_string(),
        author: Some("tester".to_string()),
        library_path: None,
        config_path: String::new(),
        instance_id: None,
        require_history: false,
    }
}

fn echo_manager() -> PluginManager<EchoPlugin, RecordingTransport> {
    PluginManager::new(vec![demo_metadata("demo")], RecordingTransport::new())
}

fn counter_manager() -> PluginManager<CounterPlugin, RecordingTransport> {
    PluginManager::new(vec![demo_metadata("counter")], RecordingTransport::new())
}

#[test]
fn end_to_end_echo_session() {
    let mut mgr = echo_manager();
    let instance = mgr.mount_plugin("demo", None).unwrap();
    mgr.connect_plugin(&instance).unwrap();
    let response = mgr
        .send_message_to_plugin_instance("demo", &instance, "ping", None)
        .unwrap();
    assert_eq!(response, "Echo: ping");
    mgr.disconnect_plugin(&instance).unwrap();
    mgr.dispose_plugin(&instance).unwrap();
    // disposing again is still a success
    mgr.dispose_plugin(&instance).unwrap();
}

#[test]
fn mount_is_idempotent_for_a_mounted_instance() {
    let mut mgr = echo_manager();
    let instance = mgr
        .mount_plugin("demo", Some("inst-1".to_string()))
        .unwrap();
    assert_eq!(instance, "inst-1");
    let log_len = mgr.hook_log.len();
    let instances = mgr.instances.len();

    // a second mount under the same still-mounted id creates no second handle
    let again = mgr
        .mount_plugin("demo", Some("inst-1".to_string()))
        .unwrap();
    assert_eq!(again, "inst-1");
    assert_eq!(mgr.hook_log.len(), log_len);
    assert_eq!(mgr.instances.len(), instances);
}

#[test]
fn dispose_never_destroys_twice() {
    let mut mgr = echo_manager();
    let instance = mgr.mount_plugin("demo", None).unwrap();
    mgr.dispose_plugin(&instance).unwrap();
    let destroys = mgr
        .hook_log
        .iter()
        .filter(|e| e.kind == HookKind::Destroy)
        .count();
    assert_eq!(destroys, 1);
    mgr.dispose_plugin(&instance).unwrap();
    let destroys_after = mgr
        .hook_log
        .iter()
        .filter(|e| e.kind == HookKind::Destroy)
        .count();
    assert_eq!(destroys_after, 1);
}

#[test]
fn dispose_order_on_a_connected_instance() {
    let mut mgr = echo_manager();
    let instance = mgr.mount_plugin("demo", None).unwrap();
    mgr.connect_plugin(&instance).unwrap();
    let base = mgr.hook_log.len();
    mgr.dispose_plugin(&instance).unwrap();
    let kinds: Vec<HookKind> = mgr.hook_log[base..].iter().map(|e| e.kind).collect();
    assert_eq!(
        kinds,
        vec![
            HookKind::Disconnect,
            HookKind::Dispose,
            HookKind::Destroy,
            HookKind::Deregister
        ]
    );
    for entry in &mgr.hook_log[base..] {
        assert_eq!(entry.instance_id, instance);
    }
}

#[test]
fn dispose_order_skips_disconnect_when_not_connected() {
    let mut mgr = echo_manager();
    let instance = mgr.mount_plugin("demo", None).unwrap();
    let base = mgr.hook_log.len();
    mgr.dispose_plugin(&instance).unwrap();
    let kinds: Vec<HookKind> = mgr.hook_log[base..].iter().map(|e| e.kind).collect();
    assert_eq!(
        kinds,
        vec![HookKind::Dispose, HookKind::Destroy, HookKind::Deregister]
    );
}

#[test]
fn two_instances_of_one_plugin_have_independent_state() {
    let mut mgr = counter_manager();
    let a = mgr
        .mount_plugin("counter", Some("counter-1".to_string()))
        .unwrap();
    let b = mgr
        .mount_plugin("counter", Some("counter-2".to_string()))
        .unwrap();
    mgr.connect_plugin(&a).unwrap();
    mgr.connect_plugin(&b).unwrap();

    let send = |mgr: &mut PluginManager<CounterPlugin, RecordingTransport>,
                id: &str,
                msg: &str| {
        mgr.send_message_to_plugin_instance("counter", id, msg, None)
            .unwrap()
    };
    assert_eq!(send(&mut mgr, &a, "increment"), "Counter is now: 1");
    assert_eq!(send(&mut mgr, &a, "increment"), "Counter is now: 2");
    assert_eq!(send(&mut mgr, &b, "increment"), "Counter is now: 1");
    assert_eq!(send(&mut mgr, &a, "get"), "Counter is: 2");
    assert_eq!(send(&mut mgr, &b, "get"), "Counter is: 1");
    assert_eq!(send(&mut mgr, &b, "purge"), "Unknown command: purge");
    assert_eq!(send(&mut mgr, &b, "get"), "Counter is: 1");
}

#[test]
fn lifecycle_preconditions_are_enforced() {
    let mut mgr = echo_manager();
    assert_eq!(
        mgr.mount_plugin("missing", None),
        Err(HostError::RegistryError)
    );
    assert_eq!(
        mgr.connect_plugin("ghost"),
        Err(HostError::RegistryError)
    );
    assert_eq!(
        mgr.dispose_plugin("ghost"),
        Err(HostError::RegistryError)
    );

    let instance = mgr.mount_plugin("demo", None).unwrap();
    // sending before connecting is a lifecycle error
    assert_eq!(
        mgr.send_message_to_plugin_instance("demo", &instance, "ping", None),
        Err(HostError::LifecycleError)
    );
    // a mismatched plugin id is a registry error
    mgr.connect_plugin(&instance).unwrap();
    assert_eq!(
        mgr.send_message_to_plugin_instance("other", &instance, "ping", None),
        Err(HostError::RegistryError)
    );
    // connecting twice succeeds without a second hook
    let log_len = mgr.hook_log.len();
    mgr.connect_plugin(&instance).unwrap();
    assert_eq!(mgr.hook_log.len(), log_len);
    // disconnecting twice succeeds as well
    mgr.disconnect_plugin(&instance).unwrap();
    mgr.disconnect_plugin(&instance).unwrap();
    // connect after dispose is a lifecycle error
    mgr.dispose_plugin(&instance).unwrap();
    assert_eq!(
        mgr.connect_plugin(&instance),
        Err(HostError::LifecycleError)
    );
}

#[test]
fn get_ui_returns_the_seeded_tree_in_issue_order() {
    let mut mgr = echo_manager();
    let instance = mgr.mount_plugin("demo", None).unwrap();
    let tree = mgr.get_plugin_ui(&instance).unwrap();
    assert_eq!(tree.len(), 5);
    match &tree[0].component {
        UiComponentType::Label { text } => assert_eq!(text, "Echo Plugin"),
        _ => panic!("expected the title label first"),
    }
    match &tree[1].component {
        UiComponentType::Button { text, enabled } => {
            assert_eq!(text, "Ping");
            assert!(*enabled);
        }
        _ => panic!("expected the ping button second"),
    }
    assert_eq!(tree[1].id, "button_1_Ping");
    match &tree[2].component {
        UiComponentType::Label { text } => assert_eq!(text, "Clicks: 0"),
        _ => panic!("expected the click counter third"),
    }
    match &tree[3].component {
        UiComponentType::TextEdit { value, .. } => assert_eq!(value, ""),
        _ => panic!("expected the note editor fourth"),
    }
    match &tree[4].component {
        UiComponentType::Horizontal { children } => {
            assert_eq!(children.len(), 2);
            match &children[1].component {
                UiComponentType::Toggle { value } => assert!(!value),
                _ => panic!("expected the dark-mode toggle"),
            }
        }
        _ => panic!("expected the horizontal group last"),
    }
}

#[test]
fn ui_event_reinvokes_update_and_the_tree_reflects_it() {
    let mut mgr = echo_manager();
    let instance = mgr.mount_plugin("demo", None).unwrap();
    let handled = mgr
        .handle_plugin_ui_event(&instance, "button_1_Ping", "")
        .unwrap();
    assert!(handled);
    let tree = mgr.get_plugin_ui(&instance).unwrap();
    match &tree[2].component {
        UiComponentType::Label { text } => assert_eq!(text, "Clicks: 1"),
        _ => panic!("expected the click counter third"),
    }
    // an id of no widget kind is recorded but not handled
    let handled = mgr
        .handle_plugin_ui_event(&instance, "label_0", "")
        .unwrap();
    assert!(!handled);
    // the submitted value of a text edit reaches the plugin's binding
    let handled = mgr
        .handle_plugin_ui_event(&instance, "textedit_3", "a note")
        .unwrap();
    assert!(handled);
    let tree = mgr.get_plugin_ui(&instance).unwrap();
    match &tree[3].component {
        UiComponentType::TextEdit { value, .. } => assert_eq!(value, "a note"),
        _ => panic!("expected the note editor fourth"),
    }
}

#[test]
fn host_cancel_gates_a_plugin_stream() {
    let mut mgr = echo_manager();
    let instance = mgr.mount_plugin("demo", None).unwrap();
    mgr.connect_plugin(&instance).unwrap();

    let mut engine = StreamManager::new("demo", &instance);
    let sid = engine
        .send_message_stream_start("chat", None, &mut mgr.bridge)
        .unwrap();
    engine
        .send_message_stream(&sid, "first", false, &mut mgr.bridge)
        .unwrap();

    // the user stops the stream through the host
    mgr.cancel_stream_message(&instance, &sid).unwrap();

    // the plugin's next attempt is refused and nothing reaches the shell
    let delivered = mgr.bridge.transport.events.len();
    assert_eq!(
        engine.send_message_stream(&sid, "second", false, &mut mgr.bridge),
        Err(StreamError::StreamCancelled)
    );
    assert_eq!(mgr.bridge.transport.events.len(), delivered);
    assert_eq!(engine.get_stream_status(&sid), Some(StreamStatus::Cancelled));

    // cancelling an already cancelled stream is an invalid state
    assert_eq!(
        mgr.cancel_stream_message(&instance, &sid),
        Err(HostError::Stream(StreamError::InvalidState))
    );
    assert_eq!(
        mgr.cancel_stream_message(&instance, "stream_0"),
        Err(HostError::Stream(StreamError::StreamNotFound))
    );
}

#[test]
fn cleanup_sweeps_every_mounted_instance() {
    let mut mgr = echo_manager();
    let a = mgr.mount_plugin("demo", Some("a".to_string())).unwrap();
    let b = mgr.mount_plugin("demo", Some("b".to_string())).unwrap();
    mgr.connect_plugin(&a).unwrap();
    mgr.cleanup_all_plugins();
    assert_eq!(mgr.get_plugin_status(&a), Some((false, false)));
    assert_eq!(mgr.get_plugin_status(&b), Some((false, false)));
    assert!(mgr.plugin_index.is_empty());
    // a second sweep is safe
    mgr.cleanup_all_plugins();
}

#[test]
fn plugin_index_tracks_instances_per_plugin() {
    let mut mgr = echo_manager();
    let a = mgr.mount_plugin("demo", Some("a".to_string())).unwrap();
    let b = mgr.mount_plugin("demo", Some("b".to_string())).unwrap();
    assert_eq!(mgr.plugin_index.len(), 1);
    assert_eq!(mgr.plugin_index[0].0, "demo");
    assert_eq!(mgr.plugin_index[0].1, vec![a.clone(), b.clone()]);
    mgr.dispose_plugin(&a).unwrap();
    assert_eq!(mgr.plugin_index[0].1, vec![b.clone()]);
    mgr.dispose_plugin(&b).unwrap();
    assert!(mgr.plugin_index.is_empty());
}

#[test]
fn host_error_messages_are_stable() {
    assert_eq!(
        HostError::LoadError.message(),
        "failed to open the plugin library"
    );
    assert_eq!(
        HostError::SymbolError.message(),
        "a required plugin export is missing"
    );
    assert_eq!(
        HostError::CreationError.message(),
        "the plugin could not be created"
    );
    assert_eq!(
        HostError::LifecycleError.message(),
        "a plugin lifecycle call failed"
    );
    assert_eq!(
        HostError::MessageError.message(),
        "the plugin could not handle the message"
    );
    assert_eq!(
        HostError::Stream(StreamError::SendFailed).message(),
        "a streaming operation failed"
    );
    assert_eq!(HostError::RegistryError.message(), "no such plugin instance");
}

/// A plugin whose hooks fail on demand, for the unwinding paths.
struct FailingPlugin;

impl plugin_host::registry::PluginHandler for FailingPlugin {
    fn create(
        metadata: &PluginMetadata,
    ) -> Result<Self, plugin_host::errors::LoaderError> {
        if metadata.id == "unloadable" {
            Err(plugin_host::errors::LoaderError::Load)
        } else {
            Ok(FailingPlugin)
        }
    }

    fn initialize(&mut self, _metadata: &PluginMetadata) -> i32 {
        1
    }

    fn on_mount(&mut self) -> i32 {
        0
    }

    fn on_dispose(&mut self) -> i32 {
        0
    }

    fn on_connect(&mut self) -> i32 {
        0
    }

    fn on_disconnect(&mut self) -> i32 {
        0
    }

    fn set_history(
        &mut self,
        _history: &Option<Vec<plugin_host::metadata::HistoryMessage>>,
    ) -> i32 {
        0
    }

    fn handle_message(&mut self, _message: &str) -> Result<String, String> {
        Err("always failing".to_string())
    }

    fn update_ui(
        &mut self,
        _ctx: &plugin_host::ui::Context,
        _ui: &mut plugin_host::ui::Ui,
    ) {
    }

    fn destroy(&mut self) {}
}

#[test]
fn failed_initialization_unwinds_and_registers_nothing() {
    let mut mgr: PluginManager<FailingPlugin, RecordingTransport> = PluginManager::new(
        vec![demo_metadata("demo"), demo_metadata("unloadable")],
        RecordingTransport::new(),
    );
    assert_eq!(
        mgr.mount_plugin("unloadable", None),
        Err(HostError::LoadError)
    );
    assert!(mgr.instances.is_empty());
    assert!(mgr.hook_log.is_empty());

    assert_eq!(
        mgr.mount_plugin("demo", None),
        Err(HostError::LifecycleError)
    );
    assert!(mgr.instances.is_empty());
    assert!(mgr.plugin_index.is_empty());
    // the fresh handle was destroyed right after the failed initialize
    let kinds: Vec<HookKind> = mgr.hook_log.iter().map(|e| e.kind).collect();
    assert_eq!(kinds, vec![HookKind::Initialize, HookKind::Destroy]);
}

#[test]
fn history_reaches_a_plugin_that_requires_it() {
    let mut with_history = demo_metadata("demo");
    with_history.require_history = true;
    let mut mgr: PluginManager<EchoPlugin, RecordingTransport> =
        PluginManager::new(vec![with_history], RecordingTransport::new());
    let instance = mgr.mount_plugin("demo", None).unwrap();
    mgr.connect_plugin(&instance).unwrap();

    let history = vec![plugin_host::metadata::HistoryMessage {
        role: "user".to_string(),
        content: "earlier".to_string(),
    }];
    let base = mgr.hook_log.len();
    let response = mgr
        .send_message_to_plugin_instance("demo", &instance, "ping", Some(history))
        .unwrap();
    assert_eq!(response, "Echo: ping");
    let kinds: Vec<HookKind> = mgr.hook_log[base..].iter().map(|e| e.kind).collect();
    assert_eq!(kinds, vec![HookKind::SetHistory, HookKind::HandleMessage]);
    // the injected history is now held by the instance's plugin state
    let stored = &mgr.instances[0].handler.history;
    assert_eq!(stored.as_ref().unwrap().len(), 1);
    assert_eq!(stored.as_ref().unwrap()[0].content, "earlier");
}

#[test]
fn ui_update_push_reinvokes_the_routine() {
    let mut mgr = echo_manager();
    let instance = mgr.mount_plugin("demo", None).unwrap();
    let base = mgr.hook_log.len();
    let updated = mgr
        .handle_plugin_ui_update(&instance, "textedit_3", "pushed")
        .unwrap();
    assert!(updated);
    // the routine ran once more; the pushed value travels in the context,
    // which the echo plugin does not read, so its tree keeps its own state
    assert_eq!(mgr.hook_log.len(), base + 1);
    assert_eq!(mgr.hook_log[base].kind, HookKind::UpdateUi);
    let tree = mgr.get_plugin_ui(&instance).unwrap();
    assert_eq!(tree.len(), 5);
    match &tree[3].component {
        UiComponentType::TextEdit { value, .. } => assert_eq!(value, ""),
        _ => panic!("expected the note editor fourth"),
    }
    assert_eq!(
        mgr.handle_plugin_ui_update("ghost", "textedit_3", ""),
        Err(HostError::RegistryError)
    );
}
