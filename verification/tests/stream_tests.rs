//! Tests of the streaming protocol engine and the cancellation gate.

use plugin_host::bridge::{HostBridge, RecordingTransport};
use plugin_host::message::FrontendEvent;
use plugin_host::stream::{StreamError, StreamEventKind, StreamManager, StreamStatus};

fn engine_and_bridge() -> (StreamManager, HostBridge<RecordingTransport>) {
    let engine = StreamManager::new("demo", "inst-1");
    let bridge = HostBridge::new(RecordingTransport::new());
    (engine, bridge)
}

#[test]
fn final_chunk_moves_stream_to_finalizing_not_completed() {
    let (mut engine, mut bridge) = engine_and_bridge();
    let sid = engine
        .send_message_stream_start("chat", None, &mut bridge)
        .unwrap();
    assert!(sid.starts_with("stream_"));
    assert_eq!(engine.get_stream_status(&sid), Some(StreamStatus::Active));

    engine
        .send_message_stream(&sid, "part one", false, &mut bridge)
        .unwrap();
    assert_eq!(engine.get_stream_status(&sid), Some(StreamStatus::Active));

    engine
        .send_message_stream(&sid, "the end", true, &mut bridge)
        .unwrap();
    assert_eq!(engine.get_stream_status(&sid), Some(StreamStatus::Finalizing));

    // only a successful end yields Completed
    engine
        .send_message_stream_end(&sid, true, None, &mut bridge)
        .unwrap();
    assert_eq!(engine.get_stream_status(&sid), Some(StreamStatus::Completed));
}

#[test]
fn failed_end_yields_error_status() {
    let (mut engine, mut bridge) = engine_and_bridge();
    let sid = engine
        .send_message_stream_start("chat", None, &mut bridge)
        .unwrap();
    engine
        .send_message_stream_end(&sid, false, Some("boom"), &mut bridge)
        .unwrap();
    assert_eq!(engine.get_stream_status(&sid), Some(StreamStatus::Error));
    // a stream is never resurrected
    assert_eq!(
        engine.send_message_stream(&sid, "late", false, &mut bridge),
        Err(StreamError::StreamAlreadyEnded)
    );
    assert_eq!(
        engine.send_message_stream_end(&sid, true, None, &mut bridge),
        Err(StreamError::StreamAlreadyEnded)
    );
}

#[test]
fn chunk_validation_by_status() {
    let (mut engine, mut bridge) = engine_and_bridge();
    assert_eq!(
        engine.send_message_stream("stream_0", "x", false, &mut bridge),
        Err(StreamError::StreamNotFound)
    );
    let sid = engine
        .send_message_stream_start("chat", None, &mut bridge)
        .unwrap();
    engine.send_message_stream_pause(&sid, &mut bridge).unwrap();
    assert_eq!(engine.get_stream_status(&sid), Some(StreamStatus::Paused));
    assert_eq!(
        engine.send_message_stream(&sid, "x", false, &mut bridge),
        Err(StreamError::InvalidState)
    );
    // pausing a paused stream is illegal; resuming it is fine
    assert_eq!(
        engine.send_message_stream_pause(&sid, &mut bridge),
        Err(StreamError::InvalidState)
    );
    engine.send_message_stream_resume(&sid, &mut bridge).unwrap();
    assert_eq!(engine.get_stream_status(&sid), Some(StreamStatus::Active));
    assert_eq!(
        engine.send_message_stream_resume(&sid, &mut bridge),
        Err(StreamError::InvalidState)
    );
}

#[test]
fn cancel_is_legal_from_live_states_only() {
    let (mut engine, mut bridge) = engine_and_bridge();
    let sid = engine
        .send_message_stream_start("chat", None, &mut bridge)
        .unwrap();
    engine.send_message_stream(&sid, "x", true, &mut bridge).unwrap();
    // Finalizing is still cancellable
    engine.send_message_stream_cancel(&sid, &mut bridge).unwrap();
    assert_eq!(engine.get_stream_status(&sid), Some(StreamStatus::Cancelled));
    // terminal states refuse a second cancel
    assert_eq!(
        engine.send_message_stream_cancel(&sid, &mut bridge),
        Err(StreamError::InvalidState)
    );
    assert_eq!(
        engine.send_message_stream_cancel("stream_0", &mut bridge),
        Err(StreamError::StreamNotFound)
    );
}

#[test]
fn batch_sends_all_chunks_and_finalizes() {
    let (mut engine, mut bridge) = engine_and_bridge();
    let sid = engine
        .send_message_stream_start("chat", None, &mut bridge)
        .unwrap();
    let before = bridge.transport.events.len();
    let chunks = vec!["a".to_string(), "b".to_string(), "c".to_string()];
    engine
        .send_message_stream_batch(&sid, &chunks, &mut bridge)
        .unwrap();
    assert_eq!(bridge.transport.events.len(), before + 3);
    assert_eq!(engine.get_stream_status(&sid), Some(StreamStatus::Finalizing));
}

#[test]
fn refusing_transport_rolls_back_pause() {
    let (mut engine, mut bridge) = engine_and_bridge();
    let sid = engine
        .send_message_stream_start("chat", None, &mut bridge)
        .unwrap();
    bridge.transport.accept = false;
    assert_eq!(
        engine.send_message_stream_pause(&sid, &mut bridge),
        Err(StreamError::SendFailed)
    );
    // the optimistic transition was rolled back
    assert_eq!(engine.get_stream_status(&sid), Some(StreamStatus::Active));
    assert_eq!(
        engine.send_message_stream(&sid, "x", false, &mut bridge),
        Err(StreamError::SendFailed)
    );
}

#[test]
fn refusing_transport_fails_start() {
    let (mut engine, mut bridge) = engine_and_bridge();
    bridge.transport.accept = false;
    assert_eq!(
        engine.send_message_stream_start("chat", None, &mut bridge),
        Err(StreamError::SendFailed)
    );
    assert_eq!(engine.list_active_streams().len(), 0);
}

#[test]
fn host_cancel_starves_delivery_and_is_visible_to_the_plugin() {
    let (mut engine, mut bridge) = engine_and_bridge();
    let sid = engine
        .send_message_stream_start("chat", None, &mut bridge)
        .unwrap();
    // the host flips the shadow ledger entry to Cancelled
    assert!(bridge.set_shadow_status(&sid, StreamStatus::Cancelled));
    let delivered_before = bridge.transport.events.len();

    // the plugin still attempts a chunk, but the bridge refuses delivery
    let attempt = engine.send_message_stream(&sid, "more", false, &mut bridge);
    assert_eq!(attempt, Err(StreamError::StreamCancelled));
    assert_eq!(bridge.transport.events.len(), delivered_before);

    // and the plugin's own table now reports the cancellation
    assert_eq!(engine.get_stream_status(&sid), Some(StreamStatus::Cancelled));
}

#[test]
fn list_active_streams_reports_live_streams() {
    let (mut engine, mut bridge) = engine_and_bridge();
    assert!(engine.list_active_streams().is_empty());
    let sid = engine
        .send_message_stream_start("chat", None, &mut bridge)
        .unwrap();
    assert_eq!(engine.list_active_streams(), vec![sid.clone()]);
    engine.send_message_stream_pause(&sid, &mut bridge).unwrap();
    assert_eq!(engine.list_active_streams(), vec![sid.clone()]);
    engine
        .send_message_stream_end(&sid, true, None, &mut bridge)
        .unwrap();
    assert!(engine.list_active_streams().is_empty());
}

#[test]
fn shadow_ledger_follows_announced_statuses() {
    let (mut engine, mut bridge) = engine_and_bridge();
    let sid = engine
        .send_message_stream_start("chat", None, &mut bridge)
        .unwrap();
    assert!(bridge.get_shadow_entry(&sid).is_some());
    assert_eq!(
        bridge.get_shadow_entry(&sid).unwrap().status,
        StreamStatus::Active
    );
    engine.send_message_stream_pause(&sid, &mut bridge).unwrap();
    assert_eq!(
        bridge.get_shadow_entry(&sid).unwrap().status,
        StreamStatus::Paused
    );
    engine.send_message_stream_resume(&sid, &mut bridge).unwrap();
    engine
        .send_message_stream_end(&sid, true, None, &mut bridge)
        .unwrap();
    // entries leave the shadow ledger on a terminal status
    assert!(bridge.get_shadow_entry(&sid).is_none());
    assert!(!bridge.is_stream_cancelled(&sid));
}

#[test]
fn stream_events_carry_the_plugin_identity() {
    let (mut engine, mut bridge) = engine_and_bridge();
    let sid = engine
        .send_message_stream_start("chat", Some("meta"), &mut bridge)
        .unwrap();
    let _ = sid;
    assert_eq!(bridge.transport.events.len(), 1);
    match &bridge.transport.events[0] {
        FrontendEvent::Stream(w) => {
            assert_eq!(w.plugin_id, "demo");
            assert_eq!(w.instance_id, "inst-1");
        }
        _ => panic!("expected a stream event"),
    }
}

#[test]
fn stream_error_messages_are_stable() {
    assert_eq!(
        StreamError::SendFailed.message(),
        "Failed to send message to frontend"
    );
    assert_eq!(StreamError::InvalidStreamId.message(), "Invalid stream ID");
    assert_eq!(StreamError::StreamNotFound.message(), "Stream not found");
    assert_eq!(
        StreamError::StreamAlreadyEnded.message(),
        "Stream already ended"
    );
    assert_eq!(StreamError::InvalidState.message(), "Invalid stream state");
    assert_eq!(
        StreamError::StreamCancelled.message(),
        "Stream was cancelled"
    );
}

#[test]
fn every_delivered_operation_reaches_the_transport_in_order() {
    let (mut engine, mut bridge) = engine_and_bridge();
    let sid = engine
        .send_message_stream_start("chat", None, &mut bridge)
        .unwrap();
    engine
        .send_message_stream(&sid, "alpha", false, &mut bridge)
        .unwrap();
    engine.send_message_stream_pause(&sid, &mut bridge).unwrap();
    engine.send_message_stream_resume(&sid, &mut bridge).unwrap();
    engine
        .send_message_stream_end(&sid, true, None, &mut bridge)
        .unwrap();
    let kinds: Vec<_> = bridge
        .transport
        .events
        .iter()
        .map(|e| match e {
            FrontendEvent::Stream(w) => w.kind,
            _ => panic!("expected stream events only"),
        })
        .collect();
    assert_eq!(
        kinds,
        vec![
            StreamEventKind::Start,
            StreamEventKind::Data,
            StreamEventKind::Pause,
            StreamEventKind::Resume,
            StreamEventKind::End,
        ]
    );
    match &bridge.transport.events[1] {
        FrontendEvent::Stream(w) => match &w.data {
            plugin_host::stream::StreamMessageData::Data(d) => {
                assert_eq!(d.chunk, "alpha");
                assert!(!d.is_final);
            }
            _ => panic!("expected a data payload"),
        },
        _ => unreachable!(),
    }
}

#[test]
fn stream_ids_are_fresh_even_across_many_starts() {
    let (mut engine, mut bridge) = engine_and_bridge();
    let mut seen: Vec<String> = Vec::new();
    for _ in 0..64 {
        let sid = engine
            .send_message_stream_start("chat", None, &mut bridge)
            .unwrap();
        assert!(!seen.contains(&sid));
        seen.push(sid);
    }
}
