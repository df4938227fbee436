use naia_socket::client::packet::Packet;
use naia_socket::client::resend::ResendQueue;

fn packet(bytes: &[u8]) -> Packet {
    Packet::new(bytes.to_vec())
}

/// Drives one send through a channel whose answers are given in order;
/// returns the payloads tried, in order.
fn drive(queue: &mut ResendQueue, p: Packet, answers: &[bool]) -> Vec<Vec<u8>> {
    let mut tried = Vec::new();
    queue.start_send(p);
    let mut i = 0;
    while let Some(next) = queue.next_attempt() {
        tried.push(next.payload().to_vec());
        let ok = answers[i];
        i += 1;
        queue.report_outcome(ok);
    }
    assert_eq!(i, answers.len());
    tried
}

#[test]
fn delivered_send_tries_once_and_keeps_nothing() {
    let mut q = ResendQueue::new();
    let tried = drive(&mut q, packet(b"a"), &[true]);
    assert_eq!(tried, vec![b"a".to_vec()]);
    assert_eq!(q.dropped_len(), 0);
    assert!(!q.is_sending());
}

#[test]
fn refused_packet_is_kept() {
    let mut q = ResendQueue::new();
    let tried = drive(&mut q, packet(b"a"), &[false]);
    assert_eq!(tried, vec![b"a".to_vec()]);
    assert_eq!(q.dropped_len(), 1);
    let kept = q.take_dropped();
    assert_eq!(kept.len(), 1);
    assert_eq!(kept[0].payload(), b"a");
    assert_eq!(q.dropped_len(), 0);
}

#[test]
fn dropped_packets_go_before_the_new_one() {
    let mut q = ResendQueue::new();
    drive(&mut q, packet(b"a"), &[false]);
    drive(&mut q, packet(b"b"), &[false, false]);
    // a was retried before b; both were refused again.
    assert_eq!(q.dropped_len(), 2);
    let tried = drive(&mut q, packet(b"c"), &[true, true, true]);
    assert_eq!(tried, vec![b"a".to_vec(), b"b".to_vec(), b"c".to_vec()]);
    assert_eq!(q.dropped_len(), 0);
}

#[test]
fn second_send_retries_first_refusal() {
    let mut q = ResendQueue::new();
    drive(&mut q, packet(b"a"), &[false]);
    let tried = drive(&mut q, packet(b"b"), &[false, true]);
    assert_eq!(tried, vec![b"a".to_vec(), b"b".to_vec()]);
    let kept = q.take_dropped();
    assert_eq!(kept.len(), 1);
    assert_eq!(kept[0].payload(), b"a");
}

#[test]
fn nested_resend_retries_earlier_failures() {
    // Two refused packets a, b wait. A send of c first takes [a, b]:
    // a is tried and refused; then b's own send first resends a, then b.
    let mut q = ResendQueue::new();
    drive(&mut q, packet(b"a"), &[false]);
    drive(&mut q, packet(b"b"), &[true, false]); // a delivered, b refused
    assert_eq!(q.dropped_len(), 1);
    drive(&mut q, packet(b"x"), &[false, false]); // b, x refused
    assert_eq!(q.dropped_len(), 2);
    let tried = drive(&mut q, packet(b"c"), &[false, false, false, true]);
    assert_eq!(
        tried,
        vec![b"b".to_vec(), b"b".to_vec(), b"x".to_vec(), b"c".to_vec()]
    );
    let kept = q.take_dropped();
    let payloads: Vec<&[u8]> = kept.iter().map(|p| p.payload()).collect();
    assert_eq!(payloads, vec![&b"b"[..], &b"x"[..]]);
}
