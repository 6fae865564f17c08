//! The cross-call guarantees of the host, each written as a function whose
//! body performs the calls it speaks about and whose assertions Verus
//! checks from the library's contracts alone — for every plugin
//! implementation, every transport, and every input the guarantee names.

use vstd::prelude::*;
use crate::bridge::{HostBridge, ShellTransport};
use crate::demo::EchoPlugin;
use crate::dict::contains_str;
use crate::registry::{find_inst, hook_is, HookKind, PluginHandler, PluginManager};
use crate::stream::{find_stream, status_in, StreamError, StreamManager, StreamStatus};
use crate::strutil::dec_digits;
use crate::ui::{button_id, Context, Ui, UiComponentType};

verus! {

/// Mounting an id that is already mounted a second time changes nothing:
/// no handle is created, no hook runs, no index moves.
pub fn law_mount_is_idempotent<P: PluginHandler, T: ShellTransport>(
    mgr: &mut PluginManager<P, T>,
    plugin_id: &str,
    instance_id: &str,
)
    requires
        old(mgr).wf(),
{
    let first = mgr.mount_plugin(plugin_id, Some(instance_id.to_owned()));
    match first {
        Ok(iid) => {
            let ghost snapshot = *mgr;
            let second = mgr.mount_plugin(plugin_id, Some(instance_id.to_owned()));
            proof {
                assert(second is Ok);
                assert(*mgr == snapshot);
            }
        },
        Err(_) => {},
    }
}

/// Disposing an instance a second time succeeds and does nothing at all —
/// in particular, no handle is ever destroyed twice.
pub fn law_dispose_never_destroys_twice<P: PluginHandler, T: ShellTransport>(
    mgr: &mut PluginManager<P, T>,
    instance_id: &str,
)
    requires
        old(mgr).wf(),
{
    let first = mgr.dispose_plugin(instance_id);
    match first {
        Ok(()) => {
            let ghost snapshot = *mgr;
            let second = mgr.dispose_plugin(instance_id);
            proof {
                assert(second is Ok);
                assert(*mgr == snapshot);
            }
        },
        Err(_) => {},
    }
}

/// Disposing a Connected instance invokes disconnect, dispose, destroy and
/// deregister in exactly that order; on a Mounted but not Connected
/// instance the disconnect is skipped.
pub fn law_dispose_order<P: PluginHandler, T: ShellTransport>(
    mgr: &mut PluginManager<P, T>,
    instance_id: &str,
)
    requires
        old(mgr).wf(),
        match find_inst(old(mgr).instances@, instance_id@) {
            Some(inst) => inst.is_mounted,
            None => false,
        },
{
    let ghost was_connected = find_inst(old(mgr).instances@, instance_id@)->Some_0.is_connected;
    let ghost base = mgr.hook_log@.len() as int;
    let result = mgr.dispose_plugin(instance_id);
    proof {
        assert(result is Ok);
        if was_connected {
            assert(mgr.hook_log@.len() == base + 4);
            assert(hook_is(mgr.hook_log@[base], HookKind::Disconnect, instance_id@));
            assert(hook_is(mgr.hook_log@[base + 1], HookKind::Dispose, instance_id@));
            assert(hook_is(mgr.hook_log@[base + 2], HookKind::Destroy, instance_id@));
            assert(hook_is(mgr.hook_log@[base + 3], HookKind::Deregister, instance_id@));
        } else {
            assert(mgr.hook_log@.len() == base + 3);
            assert(hook_is(mgr.hook_log@[base], HookKind::Dispose, instance_id@));
            assert(hook_is(mgr.hook_log@[base + 1], HookKind::Destroy, instance_id@));
            assert(hook_is(mgr.hook_log@[base + 2], HookKind::Deregister, instance_id@));
        }
    }
}

/// Delivering a message to one instance leaves every other instance's
/// entry — its plugin state included — exactly as it was: instances are
/// isolated from each other's traffic.
pub fn law_message_isolation<P: PluginHandler, T: ShellTransport>(
    mgr: &mut PluginManager<P, T>,
    plugin_id: &str,
    target: &str,
    other: &str,
    message: &str,
)
    requires
        old(mgr).wf(),
        target@ != other@,
{
    let ghost before = find_inst(old(mgr).instances@, other@);
    let _ = mgr.send_message_to_plugin_instance(plugin_id, target, message, None);
    proof {
        assert(find_inst(mgr.instances@, other@) == before);
    }
}

/// From Active, a delivered final chunk moves the stream to Finalizing —
/// and never to Completed.
pub fn law_final_chunk_finalizes<T: ShellTransport>(
    engine: &mut StreamManager,
    stream_id: &str,
    chunk: &str,
    bridge: &mut HostBridge<T>,
)
    requires
        old(engine).wf(),
        old(bridge).wf(),
        status_in(old(engine).table(), stream_id@) == Some(StreamStatus::Active),
{
    let result = engine.send_message_stream(stream_id, chunk, true, bridge);
    proof {
        if result is Ok {
            assert(status_in(engine.table(), stream_id@) == Some(StreamStatus::Finalizing));
            assert(status_in(engine.table(), stream_id@) != Some(StreamStatus::Completed));
        }
    }
}

/// Only a successful end yields Completed: a delivered failing end yields
/// Error, a delivered successful end yields Completed.
pub fn law_only_successful_end_completes<T: ShellTransport>(
    engine: &mut StreamManager,
    stream_id: &str,
    success: bool,
    bridge: &mut HostBridge<T>,
)
    requires
        old(engine).wf(),
        old(bridge).wf(),
        match status_in(old(engine).table(), stream_id@) {
            Some(st) => !crate::stream::is_terminal(st),
            None => false,
        },
{
    let result = engine.send_message_stream_end(stream_id, success, None, bridge);
    proof {
        if result is Ok {
            if success {
                assert(status_in(engine.table(), stream_id@) == Some(StreamStatus::Completed));
            } else {
                assert(status_in(engine.table(), stream_id@) == Some(StreamStatus::Error));
                assert(status_in(engine.table(), stream_id@) != Some(StreamStatus::Completed));
            }
        }
    }
}

/// Cancel is legal exactly from the live states: from Active, Paused or
/// Finalizing the entry becomes Cancelled, while from any terminal state
/// the call reports InvalidState and changes nothing.
pub fn law_cancel_legality<T: ShellTransport>(
    engine: &mut StreamManager,
    stream_id: &str,
    bridge: &mut HostBridge<T>,
)
    requires
        old(engine).wf(),
        old(bridge).wf(),
        status_in(old(engine).table(), stream_id@) is Some,
{
    let ghost before = status_in(old(engine).table(), stream_id@)->Some_0;
    let result = engine.send_message_stream_cancel(stream_id, bridge);
    proof {
        if crate::stream::is_terminal(before) {
            assert(result == Err::<(), StreamError>(StreamError::InvalidState));
            assert(engine.table() == old(engine).table());
        } else {
            assert(status_in(engine.table(), stream_id@) == Some(StreamStatus::Cancelled));
        }
    }
}

/// Once the host has cancelled a stream in the shadow ledger, a further
/// chunk attempt is refused: the bridge delivers nothing and stays as it
/// was, the attempt reports StreamCancelled, and the plugin's own table
/// records the cancellation, so its status queries report Cancelled.
pub fn law_cancellation_starves_delivery<T: ShellTransport>(
    engine: &mut StreamManager,
    stream_id: &str,
    chunk: &str,
    is_final: bool,
    bridge: &mut HostBridge<T>,
)
    requires
        old(engine).wf(),
        old(bridge).wf(),
        old(bridge).shadow_status(stream_id@) == Some(StreamStatus::Cancelled),
        match status_in(old(engine).table(), stream_id@) {
            Some(st) => st == StreamStatus::Active || st == StreamStatus::Finalizing,
            None => false,
        },
{
    let result = engine.send_message_stream(stream_id, chunk, is_final, bridge);
    proof {
        assert(result == Err::<(), StreamError>(StreamError::StreamCancelled));
        assert(*bridge == *old(bridge));
        assert(status_in(engine.table(), stream_id@) == Some(StreamStatus::Cancelled));
    }
    let reported = engine.get_stream_status(stream_id);
    proof {
        assert(reported == Some(StreamStatus::Cancelled));
    }
}

/// The registry hands back exactly the tree the update routine issued: a
/// lookup of a mounted instance's tree is the stored widget list, verbatim
/// and in issue order.
pub fn law_ui_round_trip<P: PluginHandler, T: ShellTransport>(
    mgr: &PluginManager<P, T>,
    instance_id: &str,
)
    requires
        match find_inst(mgr.instances@, instance_id@) {
            Some(inst) => inst.is_mounted,
            None => false,
        },
{
    let tree = mgr.get_plugin_ui(instance_id);
    proof {
        let ghost inst = find_inst(mgr.instances@, instance_id@)->Some_0;
        match tree {
            Ok(v) => {
                assert(v@ == inst.ui.components@);
            },
            Err(_) => {
                assert(false);
            },
        }
    }
}

/// The UI round trip on the demo plugin: rebuilding the tree over a frame
/// that recorded a click of the Ping button raises the click counter by
/// one, and the freshly issued tree shows exactly the new count — the
/// handler's state change is reflected in the nodes the routine issues.
pub fn law_echo_tree_reflects_click(plugin: &mut EchoPlugin, ui: &mut Ui)
    requires
        old(ui).components@.len() == 0,
        contains_str(old(ui).clicked_components@, button_id(1, "Ping"@)),
        old(plugin).click_count < u64::MAX,
{
    let ghost before = plugin.click_count;
    let ctx = Context::new(String::new());
    plugin.update_ui(&ctx, ui);
    proof {
        assert(plugin.click_count == before + 1);
        assert(match ui.components@[2].component {
            UiComponentType::Label { text } => text@ == "Clicks: "@ + dec_digits(
                (before + 1) as nat,
            ),
            _ => false,
        });
        assert(ui.components@.len() == 5);
    }
}

} // verus!
