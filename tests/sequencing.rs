use elemeld::{Sequencer, Verdict};

#[test]
fn in_order_packet_advances() {
    let mut s = Sequencer::expecting(5);
    assert_eq!(s.accept(5), Verdict::Accept { lost: 0 });
    assert_eq!(s.expected(), 6);
}

#[test]
fn gap_reports_lost_packets() {
    let mut s = Sequencer::expecting(5);
    assert_eq!(s.accept(7), Verdict::Accept { lost: 2 });
    assert_eq!(s.expected(), 8);
}

#[test]
fn stale_packet_is_discarded() {
    let mut s = Sequencer::expecting(5);
    assert_eq!(s.accept(5), Verdict::Accept { lost: 0 });
    assert_eq!(s.accept(3), Verdict::Stale);
    assert_eq!(s.expected(), 6);
    assert_eq!(s.accept(7), Verdict::Accept { lost: 1 });
    assert_eq!(s.expected(), 8);
    assert_eq!(s.accept(3), Verdict::Stale);
    assert_eq!(s.accept(7), Verdict::Stale);
    assert_eq!(s.expected(), 8);
}

#[test]
fn top_of_id_range() {
    let mut s = Sequencer::new();
    assert_eq!(s.accept(u64::MAX), Verdict::Accept { lost: u64::MAX });
    assert_eq!(s.expected(), u64::MAX);
}

#[test]
fn outgoing_ids_count_up() {
    let mut s = Sequencer::new();
    assert_eq!(s.next_outgoing(), Some(0));
    assert_eq!(s.next_outgoing(), Some(1));
    assert_eq!(s.next_outgoing(), Some(2));
    assert_eq!(s.expected(), 0);
}

#[test]
fn frame_writes_id_little_endian() {
    let packet = elemeld::frame(0x0102_0304_0506_0708, &vec![9, 10]);
    assert_eq!(packet, vec![8, 7, 6, 5, 4, 3, 2, 1, 9, 10]);
    assert_eq!(elemeld::frame(5, &vec![]), vec![5, 0, 0, 0, 0, 0, 0, 0]);
}

#[test]
fn unframe_reads_back() {
    let packet = elemeld::frame(u64::MAX - 3, &vec![1, 2, 3]);
    assert_eq!(elemeld::unframe(&packet), Some((u64::MAX - 3, vec![1, 2, 3])));
    assert_eq!(elemeld::unframe(&vec![1, 0, 0, 0, 0, 0, 0, 0]), Some((1, vec![])));
}

#[test]
fn unframe_refuses_short_packet() {
    assert_eq!(elemeld::unframe(&vec![1, 2, 3, 4, 5, 6, 7]), None);
    assert_eq!(elemeld::unframe(&vec![]), None);
}
