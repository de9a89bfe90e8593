use tincan::net::voice::{accept_datagram, link_status_of, plan_membership, voice_datagram, LinkStatus, PathReading, MAX_VOICE_PAYLOAD};
use tincan::proto::{ChannelId, PeerId, VoiceHeader};

fn id(seed: u8) -> PeerId {
    PeerId([seed; 32])
}

#[test]
fn the_lower_identity_dials_and_the_higher_waits() {
    let members = vec![id(1), id(2), id(3)];
    let plan = plan_membership(&id(2), Some(ChannelId(0)), &members, &[]);
    assert_eq!(plan.dial, vec![id(3)], "2 dials 3 and waits for 1");
    assert!(plan.close.is_empty());

    let low = plan_membership(&id(1), Some(ChannelId(0)), &members, &[]);
    assert_eq!(low.dial, vec![id(2), id(3)]);
}

#[test]
fn leaving_the_channel_drops_every_connection() {
    let plan = plan_membership(&id(1), None, &[id(2)], &[id(2), id(3)]);
    assert_eq!(plan.close, vec![id(2), id(3)]);
    assert!(plan.dial.is_empty());
}

#[test]
fn connections_to_peers_still_here_are_kept() {
    let plan = plan_membership(&id(1), Some(ChannelId(0)), &[id(2), id(4)], &[id(2), id(3)]);
    assert_eq!(plan.close, vec![id(3)], "3 left the channel");
    assert_eq!(plan.dial, vec![id(4)], "2 is already connected");
}

#[test]
fn speaking_outside_a_channel_is_a_no_op() {
    assert_eq!(voice_datagram(None, 1, &[1, 2, 3]), None);
    assert_eq!(voice_datagram(Some(ChannelId(0)), 1, &vec![0; MAX_VOICE_PAYLOAD + 1]), None);
}

#[test]
fn voice_flows_to_the_same_channel_and_not_across() {
    let datagram = voice_datagram(Some(ChannelId(2)), 77, &[5, 6, 7]).unwrap();
    assert_eq!(datagram.len(), VoiceHeader::SIZE + 3);

    let heard = accept_datagram(Some(ChannelId(2)), id(9), &datagram).unwrap();
    assert_eq!(heard.from, id(9));
    assert_eq!(heard.seq, 77);
    assert_eq!(heard.payload, vec![5, 6, 7]);

    assert!(accept_datagram(Some(ChannelId(1)), id(9), &datagram).is_none(), "another channel hears nothing");
    assert!(accept_datagram(None, id(9), &datagram).is_none());
    assert!(accept_datagram(Some(ChannelId(2)), id(9), &datagram[..5]).is_none(), "a bare header is dropped");
}

#[test]
fn link_status_counts_everyone_reached() {
    let status = LinkStatus { direct: 2, relayed: 1, worst_rtt: None };
    assert_eq!(status.peers(), 3);
    assert_eq!(LinkStatus::default().peers(), 0);
}

#[test]
fn the_link_counts_direct_and_relayed_paths_and_keeps_the_worst_round_trip() {
    let paths = vec![
        Some(PathReading { relay: false, rtt_ms: 12 }),
        None,
        Some(PathReading { relay: true, rtt_ms: 80 }),
        Some(PathReading { relay: false, rtt_ms: 30 }),
    ];
    let status = link_status_of(&paths);
    assert_eq!(status, LinkStatus { direct: 2, relayed: 1, worst_rtt: Some(80) });
    assert_eq!(link_status_of(&vec![None]), LinkStatus::default(), "a connection with no path yet counts for nothing");
}
