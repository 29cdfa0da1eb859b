use asahi::error::Error;
use asahi::event::{EventManager, EventManagerInner, EventValue, GpuArray};
use asahi::workqueue::{PipeType, QueueEvent, QueueInfo, RunWorkQueueMsg, WorkQueue, WQ_SIZE};

fn manager() -> EventManager {
    EventManager::new(EventManagerInner {
        stamps: GpuArray { base: 0x1000, item_size: 4, count: 128 },
        fw_stamps: GpuArray { base: 0x8000, item_size: 8, count: 128 },
    })
}

fn queue() -> (EventManager, WorkQueue<u32>) {
    (manager(), WorkQueue::new(0xabc, PipeType::Vertex))
}

fn first_event(m: &mut EventManager, q: &WorkQueue<u32>, value: u32) -> Option<QueueEvent> {
    let event = q.get_event(m).unwrap();
    Some(QueueEvent { event, value: EventValue(value) })
}

#[test]
fn queue_descriptor() {
    let info = QueueInfo::new(1, 2, 3, 4, 5, 0x12_0000_0034);
    assert_eq!(info.state, 1);
    assert_eq!(info.ring, 2);
    assert_eq!(info.notifier_list, 3);
    assert_eq!(info.gpu_buf, 4);
    assert_eq!(info.gpu_context, 5);
    assert_eq!(info.uuid, 0x34);
    assert_eq!((info.event_id, info.unk_4c, info.unk_54), (-1, -1, -1));
}

#[test]
fn batch_runs_and_completes() {
    let (mut m, q) = queue();
    assert!(q.needs_event());
    let e = first_event(&mut m, &q, 0x500);
    let mut b = q.begin_batch(e);
    assert_eq!(b.event_value(), EventValue(0x500));
    assert_eq!(b.event().slot(), 0);
    assert_eq!(b.wptr(), 0);
    assert!(b.add(0x10, 1, 0).is_none());
    assert!(b.add(0x20, 2, 0).is_none());
    assert_eq!(b.wptr(), 2);
    let first = b.commit().unwrap();
    assert_eq!(first.value(), EventValue(0x600));
    assert_eq!(first.commands, 2);
    assert!(b.add(0x30, 3, 0).is_none());
    let second = b.commit().unwrap();
    assert_eq!(second.value(), EventValue(0x700));
    let (mut q, msg) = b.submit();
    assert_eq!(
        msg.unwrap(),
        RunWorkQueueMsg {
            pipe_type: PipeType::Vertex,
            work_queue: 0xabc,
            wptr: 3,
            event_slot: 0,
            is_new: true,
        }
    );
    assert_eq!(q.wptr(), 3);
    assert!(!q.needs_event());

    let s = q.signal(EventValue(0x500));
    assert!(!s.empty && s.completed.is_empty() && s.released.is_none());
    let s = q.signal(EventValue(0x600));
    assert!(!s.empty);
    assert_eq!(s.completed.len(), 1);
    assert_eq!(s.completed[0].value, EventValue(0x600));
    let s = q.signal(EventValue(0x700));
    assert!(s.empty);
    assert_eq!(s.completed.len(), 1);
    assert_eq!(s.completed[0].commands, 1);
    assert_eq!(s.released.unwrap().slot(), 0);
    assert!(q.needs_event());
    let s = q.signal(EventValue(0x800));
    assert!(s.empty && s.completed.is_empty() && s.released.is_none());
}

#[test]
fn one_value_completes_several_batches() {
    let (mut m, q) = queue();
    let e = first_event(&mut m, &q, 0xffff_ff00);
    let mut b = q.begin_batch(e);
    for i in 0..3 {
        b.add(i, i as u32, 0);
        b.commit().unwrap();
    }
    let mut q = b.end();
    let s = q.signal(EventValue(0x100));
    assert_eq!(s.completed.len(), 2);
    assert_eq!(s.completed[0].value, EventValue(0));
    assert_eq!(s.completed[1].value, EventValue(0x100));
    assert!(!s.empty);
    assert!(q.signal(EventValue(0x200)).empty);
}

#[test]
fn queue_gets_its_event_back() {
    let (mut m, q) = queue();
    let e = first_event(&mut m, &q, 0);
    let mut b = q.begin_batch(e);
    b.add(1, 1, 0);
    b.commit().unwrap();
    let mut q = b.end();
    let released = q.signal(EventValue(0x100)).released.unwrap();
    assert!(m.put(released));
    let again = q.get_event(&mut m).unwrap();
    assert_eq!(again.slot(), 0);
    assert!(!again.changed());
}

#[test]
fn queue_with_an_event_keeps_it() {
    let (mut m, q) = queue();
    let e = first_event(&mut m, &q, 0);
    let mut b = q.begin_batch(e);
    b.add(1, 1, 0);
    b.commit().unwrap();
    let q = b.end();
    let b = q.begin_batch(None);
    assert_eq!(b.event_value(), EventValue(0x100));
    assert_eq!(b.pipe_type(), PipeType::Vertex);
    assert_eq!(b.info_pointer(), 0xabc);
    let q = b.end();
    assert_eq!(q.info_pointer(), 0xabc);
    assert_eq!(q.pipe_type(), PipeType::Vertex);
}

#[test]
fn empty_batch_cannot_be_committed() {
    let (mut m, q) = queue();
    let e = first_event(&mut m, &q, 0);
    let mut b = q.begin_batch(e);
    assert_eq!(b.commit().unwrap_err(), Error::EINVAL);
    assert_eq!(b.event_value(), EventValue(0));
}

#[test]
fn uncommitted_commands_cannot_be_submitted() {
    let (mut m, q) = queue();
    let e = first_event(&mut m, &q, 0);
    let mut b = q.begin_batch(e);
    b.add(1, 1, 0);
    let (q, r) = b.submit();
    assert_eq!(r.unwrap_err(), Error::EINVAL);
    assert_eq!(q.wptr(), 0);
    let (_q, r) = q.begin_batch(None).submit();
    assert!(r.unwrap().is_new);
}

#[test]
fn submitted_queue_is_no_longer_new() {
    let (mut m, q) = queue();
    let e = first_event(&mut m, &q, 0);
    let (q, r) = q.begin_batch(e).submit();
    assert!(r.unwrap().is_new);
    let (_q, r) = q.begin_batch(None).submit();
    assert!(!r.unwrap().is_new);
}

#[test]
fn ended_batch_takes_commands_back() {
    let (mut m, q) = queue();
    let e = first_event(&mut m, &q, 0);
    let mut b = q.begin_batch(e);
    b.add(1, 1, 0);
    b.add(2, 2, 0);
    let q = b.end();
    assert_eq!(q.wptr(), 0);
    let mut b = q.begin_batch(None);
    b.add(3, 3, 0);
    assert_eq!(b.commit().unwrap().commands, 1);
    let (q, msg) = b.submit();
    assert_eq!(msg.unwrap().wptr, 1);
    assert_eq!(q.wptr(), 1);
}

#[test]
fn full_ring_hands_the_command_back() {
    let (mut m, q) = queue();
    let e = first_event(&mut m, &q, 0);
    let mut b = q.begin_batch(e);
    for i in 0..WQ_SIZE - 1 {
        assert!(b.add(i as u64, i, 0).is_none());
    }
    assert_eq!(b.add(7, 77, 0), Some(77));
    assert!(b.add(7, 77, 1).is_none());
    assert_eq!(b.commit().unwrap().commands, 0x500);
    let (q, _) = b.submit();
    assert_eq!(q.wptr(), 0);
}
