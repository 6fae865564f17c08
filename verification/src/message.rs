//! The events the host can send towards the shell, and the plain message
//! channel plugins use to talk to the frontend.

use vstd::prelude::*;
use crate::bridge::{HostBridge, ShellTransport};
use crate::stream::StreamMessageWrapper;

verus! {

/// The flavour of a plain plugin message.
#[derive(Debug, Clone, Copy, PartialEq, Eq, Structural)]
pub enum MessageType {
    Normal,
    Success,
    Warning,
    Error,
    Info,
}

impl MessageType {
    /// The wire name of this flavour.
    pub fn as_str(&self) -> (r: &'static str)
        ensures
            r@ == match self {
                MessageType::Normal => "normal"@,
                MessageType::Success => "success"@,
                MessageType::Warning => "warning"@,
                MessageType::Error => "error"@,
                MessageType::Info => "info"@,
            },
    {
        match self {
            MessageType::Normal => "normal",
            MessageType::Success => "success",
            MessageType::Warning => "warning",
            MessageType::Error => "error",
            MessageType::Info => "info",
        }
    }
}

/// One outbound event, by channel. The shell transport turns these into its
/// own wire form.
#[derive(Debug)]
pub enum FrontendEvent {
    /// The plugin-ui-updated channel: a tree changed and should be re-read.
    UiUpdated { plugin_id: String, instance_id: String },
    /// The plugin-ui-refreshed channel: a plugin asked for a repaint.
    UiRefreshed { plugin_id: String },
    /// The plugin-message channel.
    Message { plugin_id: String, content: String, message_type: MessageType, timestamp: u64 },
    /// The legacy plugin-message-response channel, carrying a preformatted
    /// payload.
    MessageResponse { payload: String },
    /// The plugin-stream channel.
    Stream(StreamMessageWrapper),
}

/// The preformatted payload of the legacy message channel.
pub fn legacy_payload(plugin_id: &str, payload: &str) -> (r: String)
    ensures
        r@ == "{\"plugin\": \""@ + plugin_id@ + "\", \"response\": \""@ + payload@ + "\"}"@,
{
    let mut s: String = "{\"plugin\": \"".to_owned();
    s.append(plugin_id);
    s.append("\", \"response\": \"");
    s.append(payload);
    s.append("\"}");
    s
}

/// Send one typed message to the frontend on behalf of a plugin: exactly
/// one event carrying the plugin id, the content and the flavour is handed
/// to the transport.
pub fn send_message_to_frontend<T: ShellTransport>(
    bridge: &mut HostBridge<T>,
    plugin_id: &str,
    content: &str,
    message_type: MessageType,
) -> (r: bool)
    requires
        old(bridge).wf(),
    ensures
        final(bridge).wf(),
        final(bridge).shadow() == old(bridge).shadow(),
        final(bridge).emitted@.drop_last() == old(bridge).emitted@,
        final(bridge).emitted@.len() == old(bridge).emitted@.len() + 1,
        match final(bridge).emitted@.last() {
            FrontendEvent::Message { plugin_id: p, content: c, message_type: m, .. } => p@
                == plugin_id@ && c@ == content@ && m == message_type,
            _ => false,
        },
{
    let event = FrontendEvent::Message {
        plugin_id: plugin_id.to_owned(),
        content: content.to_owned(),
        message_type,
        timestamp: crate::sys::now_unix_nanos() / 1000000,
    };
    let r = bridge.send_to_frontend(event);
    proof {
        assert(bridge.emitted@.drop_last() =~= old(bridge).emitted@);
    }
    r
}

/// Send one message on the legacy response channel: exactly one event is
/// handed to the transport, and its payload is the preformatted string
/// with the plugin id and the response interpolated verbatim.
pub fn send_message_to_frontend_legacy<T: ShellTransport>(
    bridge: &mut HostBridge<T>,
    plugin_id: &str,
    payload: &str,
) -> (r: bool)
    requires
        old(bridge).wf(),
    ensures
        final(bridge).wf(),
        final(bridge).shadow() == old(bridge).shadow(),
        final(bridge).emitted@.drop_last() == old(bridge).emitted@,
        final(bridge).emitted@.len() == old(bridge).emitted@.len() + 1,
        match final(bridge).emitted@.last() {
            FrontendEvent::MessageResponse { payload: p } => p@ == "{\"plugin\": \""@
                + plugin_id@ + "\", \"response\": \""@ + payload@ + "\"}"@,
            _ => false,
        },
{
    let event = FrontendEvent::MessageResponse {
        payload: legacy_payload(plugin_id, payload),
    };
    let r = bridge.send_to_frontend(event);
    proof {
        assert(bridge.emitted@.drop_last() =~= old(bridge).emitted@);
    }
    r
}

/// Ask the shell to repaint a plugin's surface: exactly one refresh event
/// naming the plugin is handed to the transport.
pub fn refresh_ui<T: ShellTransport>(bridge: &mut HostBridge<T>, plugin_id: &str) -> (r: bool)
    requires
        old(bridge).wf(),
    ensures
        final(bridge).wf(),
        final(bridge).shadow() == old(bridge).shadow(),
        final(bridge).emitted@.drop_last() == old(bridge).emitted@,
        final(bridge).emitted@.len() == old(bridge).emitted@.len() + 1,
        match final(bridge).emitted@.last() {
            FrontendEvent::UiRefreshed { plugin_id: p } => p@ == plugin_id@,
            _ => false,
        },
{
    let event = FrontendEvent::UiRefreshed { plugin_id: plugin_id.to_owned() };
    let r = bridge.send_to_frontend(event);
    proof {
        assert(bridge.emitted@.drop_last() =~= old(bridge).emitted@);
    }
    r
}

} // verus!
