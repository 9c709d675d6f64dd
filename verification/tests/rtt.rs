use livekit_portal::metrics::MetricsRegistry;
use livekit_portal::name_map::NameMap;
use livekit_portal::rtt::{build_ping, handle_packet, PING_KIND, PONG_KIND};

#[test]
fn an_echo_tells_the_round_trip() {
    let mut m = MetricsRegistry::new(&[]);
    let ping = build_ping(1_000);
    assert_eq!(ping[0], PING_KIND);
    let pong = handle_packet(&ping, 1_200, &mut m).unwrap();
    assert_eq!(pong[0], PONG_KIND);
    assert_eq!(&pong[1..], &ping[1..]);
    assert!(handle_packet(&pong, 1_500, &mut m).is_none());
    let snap = m.snapshot(NameMap::new(), 0);
    assert_eq!(snap.rtt.rtt_us_last, Some(500));
    assert_eq!(snap.rtt.pongs_received, 1);
}

#[test]
fn odd_packets_are_ignored() {
    let mut m = MetricsRegistry::new(&[]);
    assert!(handle_packet(&[], 1, &mut m).is_none());
    assert!(handle_packet(&[0u8; 8], 1, &mut m).is_none());
    assert!(handle_packet(&[9u8; 9], 1, &mut m).is_none());
    assert_eq!(m.snapshot(NameMap::new(), 0).rtt.pongs_received, 0);
}

#[test]
fn a_clock_that_went_back_counts_as_no_time() {
    let mut m = MetricsRegistry::new(&[]);
    let mut pong = build_ping(9_000);
    pong[0] = PONG_KIND;
    handle_packet(&pong, 1_000, &mut m);
    let snap = m.snapshot(NameMap::new(), 0);
    assert_eq!(snap.rtt.rtt_us_last, Some(1));
    assert_eq!(snap.rtt.rtt_us_mean, Some(0));
}
