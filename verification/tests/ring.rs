use lb_inter_node_exporter::ring::EventRing;

#[test]
fn new_ring_is_empty() {
    let mut ring = EventRing::new(4);
    assert_eq!(ring.len(), 0);
    assert_eq!(ring.next(), None);
}

#[test]
fn records_come_out_in_the_order_they_went_in() {
    let mut ring = EventRing::new(4);
    assert!(ring.push([1u8; 12]));
    assert!(ring.push([2u8; 12]));
    assert!(ring.push([3u8; 12]));
    assert_eq!(ring.len(), 3);
    assert_eq!(ring.next(), Some([1u8; 12]));
    assert_eq!(ring.next(), Some([2u8; 12]));
    assert_eq!(ring.len(), 1);
    assert_eq!(ring.next(), Some([3u8; 12]));
    assert_eq!(ring.next(), None);
}

#[test]
fn full_ring_drops_the_new_record() {
    let mut ring = EventRing::new(2);
    assert!(ring.push([1u8; 12]));
    assert!(ring.push([2u8; 12]));
    assert!(!ring.push([3u8; 12]));
    assert_eq!(ring.len(), 2);
    assert_eq!(ring.next(), Some([1u8; 12]));
    assert_eq!(ring.next(), Some([2u8; 12]));
    assert_eq!(ring.next(), None);
}

#[test]
fn ring_has_room_again_after_a_record_left() {
    let mut ring = EventRing::new(1);
    assert!(ring.push([1u8; 12]));
    assert!(!ring.push([2u8; 12]));
    assert_eq!(ring.next(), Some([1u8; 12]));
    assert!(ring.push([3u8; 12]));
    assert_eq!(ring.next(), Some([3u8; 12]));
}

#[test]
fn ring_without_room_holds_nothing() {
    let mut ring = EventRing::new(0);
    assert!(!ring.push([1u8; 12]));
    assert_eq!(ring.len(), 0);
    assert_eq!(ring.next(), None);
}
