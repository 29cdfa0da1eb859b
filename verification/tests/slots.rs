use asahi::error::Error;
use asahi::slotalloc::{after_wait, Guard, SlotAllocator, SlotItem, SlotToken};

#[derive(Debug, PartialEq)]
struct Item(u32);

impl SlotItem for Item {
    type Owner = u32;
}

fn allocator(n: u32) -> SlotAllocator<Item> {
    SlotAllocator::new(n, 100, |base: &u32, slot: u32| Item(*base + slot))
}

fn take(a: &mut SlotAllocator<Item>, token: Option<SlotToken>) -> Guard<Item> {
    a.get(token).unwrap()
}

#[test]
fn slots_are_handed_out_in_order() {
    let mut a = allocator(3);
    for i in 0..3 {
        let g = take(&mut a, None);
        assert_eq!(g.slot(), i);
        assert_eq!(g.item, Item(100 + i));
        assert!(g.changed());
        assert_eq!(g.token().time, i as u64 + 1);
    }
    assert!(a.get(None).is_none());
}

#[test]
fn no_slots_means_none() {
    let mut a = allocator(0);
    assert!(a.get(None).is_none());
}

#[test]
fn last_user_gets_its_slot_back_unchanged() {
    let mut a = allocator(2);
    let mut g = take(&mut a, None);
    let token = g.token();
    g.item = Item(7);
    assert!(a.put(g));
    let g = take(&mut a, Some(token));
    assert_eq!(g.slot(), token.last_slot());
    assert!(!g.changed());
    assert_eq!(g.item, Item(7));
    assert_eq!(g.token().time, token.time);
}

#[test]
fn longest_idle_slot_goes_first() {
    let mut a = allocator(2);
    let g0 = take(&mut a, None);
    let g1 = take(&mut a, None);
    assert!(a.put(g1));
    assert!(a.put(g0));
    assert_eq!(take(&mut a, None).slot(), 1);
    assert_eq!(take(&mut a, None).slot(), 0);
}

#[test]
fn lost_slot_is_reported_as_changed() {
    let mut a = allocator(1);
    let g = take(&mut a, None);
    let token = g.token();
    a.put(g);
    let other = take(&mut a, None);
    assert!(other.changed());
    a.put(other);
    let g = take(&mut a, Some(token));
    assert!(g.changed());
    assert_eq!(g.token().time, 3);
    a.put(g);
    assert!(take(&mut a, Some(token)).changed());
}

#[test]
fn held_slot_is_not_handed_out_again() {
    let mut a = allocator(2);
    let g = take(&mut a, None);
    let token = g.token();
    let h = take(&mut a, Some(token));
    assert_eq!(h.slot(), 1);
    assert!(a.get(Some(token)).is_none());
    a.put(g);
    assert_eq!(take(&mut a, None).slot(), 0);
}

#[test]
fn full_slot_takes_nothing_back() {
    let mut a = allocator(1);
    let g = take(&mut a, None);
    let token = g.token();
    assert!(a.put(g));
    let again = Guard { item: Item(9), changed: false, token };
    assert!(!a.put(again));
    assert_eq!(take(&mut a, Some(token)).item, Item(100));
}

#[test]
fn callbacks_see_the_shared_state() {
    let mut a = allocator(1);
    let r = a.with_inner(|owner: &mut u32| {
        *owner += 1;
        *owner
    });
    assert_eq!(r, 101);
    let g = a
        .get_inner(None, |owner: &mut u32, guard: &mut Guard<Item>| {
            *owner += 10;
            guard.item = Item(*owner);
            Ok(())
        })
        .unwrap();
    assert_eq!(g.item, Item(111));
    assert_eq!(a.with_inner(|owner: &mut u32| *owner), 111);
    assert!(a.get_inner(None, |_o: &mut u32, _g: &mut Guard<Item>| Ok(())).is_none());
}

#[test]
fn holders_never_share_a_slot() {
    let mut a = allocator(3);
    let mut held: Vec<Guard<Item>> = Vec::new();
    let mut last: Option<SlotToken> = None;
    for round in 0..40 {
        let got = if round % 2 == 0 {
            a.get(last)
        } else {
            a.get_inner(last, |_owner: &mut u32, g: &mut Guard<Item>| {
                g.item = Item(round);
                Ok(())
            })
        };
        match got {
            Some(g) => {
                assert!(g.slot() < 3);
                assert!(held.iter().all(|h| h.slot() != g.slot()));
                held.push(g);
                assert!(held.len() <= 3);
            }
            None => {
                assert_eq!(held.len(), 3);
                let g = held.remove(round as usize % 3);
                last = Some(g.token());
                assert!(a.put(g));
            }
        }
    }
}

#[test]
fn callback_leaves_the_guard_its_slot() {
    let mut a = allocator(2);
    let g = take(&mut a, None);
    let token = g.token();
    assert!(a.put(g));
    let g = a
        .get_inner(Some(token), |owner: &mut u32, g: &mut Guard<Item>| {
            *owner += 1;
            g.item = Item(9);
            Ok(())
        })
        .unwrap();
    assert_eq!((g.token().slot, g.token().time), (token.slot, token.time));
    assert!(!g.changed());
    assert_eq!(g.item, Item(9));
}

#[test]
fn signal_ends_a_wait() {
    assert_eq!(after_wait(true), Err(Error::ERESTARTSYS));
    assert_eq!(after_wait(false), Ok(()));
}
