use livekit_portal::keypoint::{Keypoint, KeypointOutcome, KeypointSlot, KeypointWire};

fn wire(kind: &str, timestamp_us: u64) -> Option<KeypointWire> {
    Some(KeypointWire {
        kind: kind.to_string(),
        payload: Some("{}".to_string()),
        timestamp_us,
    })
}

#[test]
fn slot_warns_once_per_sender_and_keeps_delivering() {
    let mut slot = KeypointSlot::new();
    let mut seen: Vec<String> = Vec::new();
    let mut warnings = 0;
    for (packet, sender) in
        [(None, "broken"), (None, "broken"), (wire("idle", 1), "teleop")]
    {
        match slot.handle_packet(packet, sender.to_string()) {
            KeypointOutcome::Deliver(kp) => seen.push(kp.kind),
            KeypointOutcome::Malformed { first } => warnings += first as usize,
        }
    }
    assert_eq!(seen, vec!["idle".to_string()]);
    assert_eq!(warnings, 1);
}

#[test]
fn every_sender_is_reported() {
    let mut slot = KeypointSlot::new();
    for sender in ["a", "b"] {
        assert!(matches!(
            slot.handle_packet(None, sender.to_string()),
            KeypointOutcome::Malformed { first: true }
        ));
    }
}

#[test]
fn a_missing_payload_is_an_empty_object() {
    let mut slot = KeypointSlot::new();
    let w = KeypointWire { kind: "idle".to_string(), payload: None, timestamp_us: 7 };
    match slot.handle_packet(Some(w), "teleop".to_string()) {
        KeypointOutcome::Deliver(kp) => assert_eq!(
            kp,
            Keypoint {
                kind: "idle".to_string(),
                payload: "{}".to_string(),
                timestamp_us: 7,
                sender: "teleop".to_string(),
            }
        ),
        other => panic!("expected Deliver, got {other:?}"),
    }
}
