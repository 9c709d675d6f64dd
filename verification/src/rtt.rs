//! Round-trip time: pings on a timer, and their echoes.
//!
//! A packet is a kind byte and the send time of the ping, eight bytes
//! little-endian.
use crate::metrics::MetricsRegistry;
use crate::wire;
use vstd::arithmetic::power2::*;
use vstd::prelude::*;

verus! {

/// Topic of the packets.
pub const RTT_TOPIC: &'static str = "portal_rtt";

pub const PING_KIND: u8 = 0;

pub const PONG_KIND: u8 = 1;

/// Capacity of the send queue. A packet that does not fit is dropped.
pub const RTT_QUEUE_CAP: usize = 64;

/// A packet of a kind.
pub open spec fn rtt_packet(kind: u8, send_ts_us: u64) -> Seq<u8> {
    seq![kind] + wire::le_bytes(send_ts_us as nat, 8)
}

fn build_packet(kind: u8, send_ts_us: u64) -> (p: Vec<u8>)
    ensures
        p@ == rtt_packet(kind, send_ts_us),
{
    let mut p: Vec<u8> = Vec::new();
    p.push(kind);
    assert(p@ =~= seq![kind]);
    wire::put_le(&mut p, send_ts_us, 8);
    p
}

/// The ping that is sent at a time.
pub fn build_ping(now_us: u64) -> (p: Vec<u8>)
    ensures
        p@ == rtt_packet(PING_KIND, now_us),
{
    build_packet(PING_KIND, now_us)
}

/// What is sent back for a packet: the echo of a ping.
pub open spec fn echo_of(payload: Seq<u8>) -> Option<Seq<u8>> {
    if payload.len() == 9 && payload[0] == PING_KIND {
        Some(seq![PONG_KIND] + payload.skip(1))
    } else {
        None
    }
}

/// The round-trip time that a packet tells when it arrives at a time: that of
/// an echo, counted from its send time. A clock that went back counts as no
/// time at all.
pub open spec fn rtt_of(payload: Seq<u8>, now_us: u64) -> Option<u64> {
    if payload.len() == 9 && payload[0] == PONG_KIND {
        let sent = wire::le_value(payload.skip(1));
        Some(
            if sent > now_us {
                0
            } else {
                (now_us - sent) as u64
            },
        )
    } else {
        None
    }
}

/// Handles a packet that arrived: returns the echo of a ping, and records the
/// round-trip time of an echo. Other packets are ignored.
pub fn handle_packet(payload: &[u8], now_us: u64, metrics: &mut MetricsRegistry) -> (pong: Option<
    Vec<u8>,
>)
    requires
        old(metrics).wf(),
    ensures
        final(metrics).wf(),
        match pong {
            Some(p) => echo_of(payload@) == Some(p@),
            None => echo_of(payload@) is None,
        },
        final(metrics)@ == (match rtt_of(payload@, now_us) {
            Some(rtt) => crate::metrics::rtt_recorded(old(metrics)@, rtt),
            None => old(metrics)@,
        }),
{
    if payload.len() != 9 {
        return None;
    }
    let kind: u8 = payload[0];
    let send_ts: u64 = wire::get_le(payload, 1, 8);
    proof {
        lemma2_to64();
        assert(payload@.subrange(1, 9) =~= payload@.skip(1));
    }
    if kind == PING_KIND {
        proof {
            wire::law_le_bytes_of_value(payload@.skip(1));
        }
        Some(build_packet(PONG_KIND, send_ts))
    } else {
        if kind == PONG_KIND {
            metrics.record_rtt(now_us.saturating_sub(send_ts));
        }
        None
    }
}

/// The echo of a ping tells the time since the ping was sent.
pub proof fn law_echo_tells_the_round_trip(sent_us: u64, now_us: u64)
    requires
        sent_us <= now_us,
    ensures
        echo_of(rtt_packet(PING_KIND, sent_us)) matches Some(pong) && pong == rtt_packet(
            PONG_KIND,
            sent_us,
        ) && rtt_of(pong, now_us) == Some((now_us - sent_us) as u64) && echo_of(pong) is None,
{
    lemma2_to64();
    wire::law_le_round_trip(sent_us as nat, 8);
    let ping = rtt_packet(PING_KIND, sent_us);
    let pong = rtt_packet(PONG_KIND, sent_us);
    assert(ping.skip(1) =~= wire::le_bytes(sent_us as nat, 8));
    assert(pong.skip(1) =~= wire::le_bytes(sent_us as nat, 8));
}

} // verus!
