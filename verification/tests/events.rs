use asahi::buffer::FwVersion;
use asahi::event::{EventInner, EventManager, EventManagerInner, EventValue, GpuArray, NUM_EVENTS};
use asahi::fw::event::{Notifier, NotifierList, Threshold};
use asahi::slotalloc::SlotItem;
use std::cmp::Ordering;

fn inner() -> EventManagerInner {
    EventManagerInner {
        stamps: GpuArray { base: 0x1000, item_size: 4, count: 128 },
        fw_stamps: GpuArray { base: 0x8000, item_size: 8, count: 128 },
    }
}

#[test]
fn event_value_steps_by_0x100() {
    let mut v = EventValue(0x1234);
    assert_eq!(v.stamp(), 0x1234);
    assert_eq!(v.counter(), 0x12);
    assert_eq!(v.next(), EventValue(0x1334));
    v.increment();
    assert_eq!(v, EventValue(0x1334));
}

#[test]
fn event_value_wraps_around() {
    let v = EventValue(0xffff_ff05);
    assert_eq!(v.next(), EventValue(5));
    assert_eq!(v.next().delta(&v), 0x100);
    assert_eq!(v.delta(&v.next()), -0x100);
    assert!(v < v.next());
    assert!(v <= v.next());
    assert!(v.next() > v);
}

#[test]
fn event_values_are_ordered_by_distance() {
    let a = EventValue(0x10_0000);
    let b = EventValue(0x20_0000);
    let c = EventValue(0x7000_0000);
    assert!(a < b && b < c && a < c);
    assert_eq!(a.cmp(&b), Ordering::Less);
    assert_eq!(b.cmp(&a), Ordering::Greater);
    assert_eq!(a.cmp(&a), Ordering::Equal);
    assert_eq!(a.partial_cmp(&b), Some(Ordering::Less));
    assert_eq!(a.delta(&b), -b.delta(&a));
    assert_eq!(EventValue(0x8000_0000).delta(&EventValue(0)), i32::MIN);
}

#[test]
fn many_steps_stay_ordered_and_add_up() {
    let start = EventValue(0xffff_f000);
    let mut v = start;
    for n in 1..1000 {
        let before = v;
        v.increment();
        assert_eq!(v.delta(&start), 0x100 * n);
        assert!(start < v);
        assert_eq!(before.next(), v);
    }
    let mut back = v;
    for _ in 0..999 {
        back = EventValue(back.stamp().wrapping_sub(0x100));
    }
    assert_eq!(back, start);
}

#[test]
fn event_manager_hands_out_stamps() {
    let mut m = EventManager::new(inner());
    let e = m.get(None).unwrap();
    assert_eq!(e.slot(), 0);
    assert_eq!(e.item.stamp_pointer(), 0x1000);
    assert_eq!(e.item.fw_stamp_pointer(), 0x8000);
    assert_eq!(e.item.owner, None);
    let f = m.get(None).unwrap();
    assert_eq!(f.item.stamp_pointer(), 0x1004);
    assert_eq!(f.item.fw_stamp_pointer(), 0x8008);
    let token = e.token();
    assert!(m.put(e));
    assert!(!m.get(Some(token)).unwrap().changed());
}

#[test]
fn all_events_can_be_in_use() {
    let mut m = EventManager::new(inner());
    for _ in 0..NUM_EVENTS {
        assert!(m.get(None).is_some());
    }
    assert!(m.get(None).is_none());
}

#[test]
fn released_event_has_no_owner() {
    let mut e = EventInner { gpu_stamp: 1, gpu_fw_stamp: 2, owner: Some(3) };
    e.release();
    assert_eq!(e.owner, None);
    assert_eq!(e.gpu_stamp, 1);
    assert_eq!(e.gpu_fw_stamp, 2);
}

#[test]
fn array_items_follow_each_other() {
    let a = GpuArray { base: 0x4000, item_size: 0x30, count: 4 };
    assert_eq!(a.weak_item_pointer(3), 0x4090);
}

#[test]
fn threshold_counts_and_wraps() {
    let mut t = Threshold(4);
    t.increment();
    assert_eq!(t, Threshold(5));
    let mut t = Threshold(u64::MAX);
    t.increment();
    assert_eq!(t, Threshold(0));
}

#[test]
fn notifier_of_each_firmware() {
    let n = Notifier::new(FwVersion::V12_3, 0x77, 0x1_0000_0002);
    assert_eq!((n.threshold, n.generation, n.cur_count, n.unk_10), (0x77, 2, 0, 0x50));
    assert!(n.unk_buf.is_empty());
    let n = Notifier::new(FwVersion::V13_0B4, 0x77, 3);
    assert_eq!(n.unk_buf, vec![0xff; 8]);
    assert_eq!(NotifierList::new(0x100, 8).next, 0x108);
}
