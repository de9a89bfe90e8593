use tincan::audio::jitter::{Frame, JitterBuffer, STARVE_LIMIT};

fn packet(n: u8) -> Vec<u8> {
    vec![n; 4]
}

#[test]
fn waits_until_target_depth_before_playing() {
    let mut buffer = JitterBuffer::new(3);
    buffer.push(0, packet(0));
    assert_eq!(buffer.pop(), Frame::Silence, "must not start on a single packet");
    buffer.push(1, packet(1));
    assert_eq!(buffer.pop(), Frame::Silence);
    buffer.push(2, packet(2));

    assert_eq!(buffer.pop(), Frame::Packet(packet(0)), "must flow once the target is met");
    assert_eq!(buffer.pop(), Frame::Packet(packet(1)));
    assert_eq!(buffer.pop(), Frame::Packet(packet(2)));
}

#[test]
fn reorders_out_of_order_arrivals() {
    let mut buffer = JitterBuffer::new(3);
    buffer.push(2, packet(2));
    buffer.push(0, packet(0));
    buffer.push(1, packet(1));

    assert_eq!(buffer.pop(), Frame::Packet(packet(0)));
    assert_eq!(buffer.pop(), Frame::Packet(packet(1)));
    assert_eq!(buffer.pop(), Frame::Packet(packet(2)));
}

#[test]
fn reports_loss_when_a_gap_is_surrounded_by_data() {
    let mut buffer = JitterBuffer::new(2);
    buffer.push(0, packet(0));
    buffer.push(2, packet(2));
    buffer.push(3, packet(3));

    assert_eq!(buffer.pop(), Frame::Packet(packet(0)));
    assert_eq!(buffer.pop(), Frame::Lost, "frame 1 is missing");
    assert_eq!(buffer.pop(), Frame::Packet(packet(2)));
    assert_eq!(buffer.pop(), Frame::Packet(packet(3)));
}

#[test]
fn silence_is_not_treated_as_loss() {
    let mut buffer = JitterBuffer::new(2);
    buffer.push(0, packet(0));
    buffer.push(1, packet(1));
    buffer.pop();
    buffer.pop();

    for _ in 0..20 {
        assert_eq!(buffer.pop(), Frame::Silence, "silence must not count as loss");
    }
}

#[test]
fn resynchronises_after_a_long_pause() {
    let mut buffer = JitterBuffer::new(2);
    buffer.push(0, packet(0));
    buffer.push(1, packet(1));
    buffer.pop();
    buffer.pop();
    for _ in 0..STARVE_LIMIT + 2 {
        buffer.pop();
    }

    buffer.push(900, packet(9));
    buffer.push(901, packet(10));
    assert_eq!(buffer.pop(), Frame::Packet(packet(9)));
    assert_eq!(buffer.pop(), Frame::Packet(packet(10)));
}

#[test]
fn rejects_packets_that_arrive_too_late() {
    let mut buffer = JitterBuffer::new(1);
    buffer.push(5, packet(5));
    buffer.push(6, packet(6));
    assert_eq!(buffer.pop(), Frame::Packet(packet(5)));

    assert!(!buffer.push(5, packet(5)), "a past frame must not be taken back");
    assert_eq!(buffer.pop(), Frame::Packet(packet(6)), "the stream must be undisturbed");
}

#[test]
fn rejects_duplicates() {
    let mut buffer = JitterBuffer::new(2);
    assert!(buffer.push(0, packet(0)));
    assert!(!buffer.push(0, packet(0)), "the same frame must not be taken twice");
    assert_eq!(buffer.depth(), 1);
}

#[test]
fn drops_backlog_instead_of_accumulating_delay() {
    let mut buffer = JitterBuffer::new(3);
    for seq in 0..100u32 {
        buffer.push(seq, packet(seq as u8));
    }

    assert!(buffer.depth() <= 12, "latency must not grow without bound, depth: {}", buffer.depth());

    assert!(matches!(buffer.pop(), Frame::Packet(_)));
    assert!(matches!(buffer.pop(), Frame::Packet(_)));
}

// ── Further cases ────────────────────────────────────────────────────────────────

#[test]
fn the_backlog_never_passes_four_times_the_target() {
    let mut buffer = JitterBuffer::new(2);
    for seq in (0..50u32).rev() {
        buffer.push(seq, packet(seq as u8));
        assert!(buffer.depth() <= 8);
    }
}

#[test]
fn a_zero_target_still_plays() {
    let mut buffer = JitterBuffer::new(0);
    buffer.push(4, packet(4));
    assert_eq!(buffer.pop(), Frame::Packet(packet(4)));
}

#[test]
fn a_refused_packet_changes_nothing() {
    let mut buffer = JitterBuffer::new(1);
    buffer.push(1, packet(1));
    assert!(!buffer.push(1, packet(7)));
    assert_eq!(buffer.depth(), 1);
    assert_eq!(buffer.pop(), Frame::Packet(packet(1)), "the first copy stays");
}

#[test]
fn the_last_sequence_number_cannot_be_played_past() {
    let mut buffer = JitterBuffer::new(1);
    assert!(buffer.can_pop(), "an empty buffer only waits");
    buffer.push(u32::MAX - 1, packet(1));
    assert!(buffer.can_pop());
    assert_eq!(buffer.pop(), Frame::Packet(packet(1)));
    assert!(!buffer.can_pop(), "the number after the last one does not exist");

    let mut fresh = JitterBuffer::new(1);
    fresh.push(u32::MAX, packet(2));
    assert!(!fresh.can_pop());
}
