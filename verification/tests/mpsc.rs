use vita_gdb::mpsc::MpscRing;

#[test]
fn ring_is_fifo() {
    let mut r: MpscRing<u32, 4> = MpscRing::new();
    assert_eq!(r.len(), 0);
    assert!(r.push(1));
    assert!(r.push(2));
    assert_eq!(r.pop(), Some(1));
    assert!(r.push(3));
    assert_eq!(r.len(), 2);
    assert!(r.push(4));
    // The next free slot has wrapped to 0 behind the oldest item in slot 1.
    assert_eq!(r.len(), usize::MAX);
    assert_eq!(r.pop(), Some(2));
    assert_eq!(r.pop(), Some(3));
    assert_eq!(r.pop(), Some(4));
    assert_eq!(r.pop(), None);
}

#[test]
fn ring_holds_one_less_than_its_slots() {
    let mut r: MpscRing<u8, 4> = MpscRing::new();
    assert!(r.push(10));
    assert!(r.push(11));
    assert!(r.push(12));
    assert!(!r.push(13));
    assert_eq!(r.len(), 3);
    assert_eq!(r.pop(), Some(10));
    assert!(r.push(13));
    assert_eq!(r.pop(), Some(11));
    assert_eq!(r.pop(), Some(12));
    assert_eq!(r.pop(), Some(13));
}

#[test]
fn ring_len_after_wrapping() {
    let mut r: MpscRing<u8, 3> = MpscRing::new();
    assert!(r.push(1));
    assert!(r.push(2));
    assert_eq!(r.len(), 2);
    assert_eq!(r.pop(), Some(1));
    assert_eq!(r.pop(), Some(2));
    assert_eq!(r.len(), 0);
    // The next free slot wraps to 0 while the oldest item sits in slot 2:
    // the distance wraps around `usize`.
    assert!(r.push(3));
    assert_eq!(r.len(), usize::MAX - 1);
    assert!(r.push(4));
    assert_eq!(r.len(), usize::MAX);
    assert_eq!(r.pop(), Some(3));
    assert_eq!(r.len(), 1);
    assert_eq!(r.pop(), Some(4));
    assert_eq!(r.len(), 0);
}

#[test]
fn ring_clear_empties() {
    let mut r: MpscRing<String, 8> = MpscRing::new();
    r.push("a".to_string());
    r.push("b".to_string());
    r.clear();
    assert_eq!(r.len(), 0);
    assert_eq!(r.pop(), None);
    assert!(r.push("c".to_string()));
    assert_eq!(r.pop(), Some("c".to_string()));
}

#[test]
fn single_slot_ring_holds_nothing() {
    let mut r: MpscRing<u8, 1> = MpscRing::new();
    assert!(!r.push(1));
    assert_eq!(r.pop(), None);
}
