use asahi::driver::{dma_mask, ioctl_flags, Request};
use asahi::drm::ioctl::{AUTH, RENDER_ALLOW};
use asahi::error::Error;
use asahi::event::{EventManager, EventManagerInner, EventValue, GpuArray};
use asahi::gpu::{
    device_control_doorbell, fwctl_doorbell, handle_fault, handle_timeout, idle_timeout, init,
    invalidate_context, io_mapping, iomap, kick_firmware, next_iomap, pipe_doorbell, recover,
    recv_message, rx_sources, show_fault_info, submit_batch, take_pending_events, wait_for_poweroff,
    DestroyContext, FaultReport, GpuContextData, GpuManager, HaltFlags, InitAction, IoMapPlan,
    Message, PendingEvent, PendingStamp, RawIOMapping, Recovery, RxSource, SequenceIDs, EP_DOORBELL,
    EP_FIRMWARE, ID, MSG_RX_DOORBELL,
};
use asahi::hw::{t8103, IOMapping};
use asahi::mmu::{
    UatBase, KERNEL_LOWER_VM_ID, KERNEL_VM_ID, PROT_FW_PRIV_RW, PROT_FW_SHARED_RW,
    PROT_GPU_FW_SHARED_RW,
};
use asahi::regs::{FaultReason, FaultUnit};
use asahi::workqueue::{PipeType, QueueEvent, RunWorkQueueMsg, WorkQueue};

fn manager() -> GpuManager {
    GpuManager::new(UatBase {
        ttbs: 0x8000_0000,
        pagetables: 0x8001_0000,
        lower_ttb: 0x8002_0000,
        kernel_ttb: 0x8003_0000,
    })
}

fn hung() -> (Vec<PendingStamp>, HaltFlags) {
    (
        vec![
            PendingStamp { info: 0x2b, wait_value: 0x700 },
            PendingStamp { info: 0, wait_value: 0x900 },
            PendingStamp { info: 0x10, wait_value: 0x100 },
        ],
        HaltFlags { halt_count: 3, halted: 1, resume: 0 },
    )
}

#[test]
fn counters_count_from_two_and_wrap() {
    let mut ids = SequenceIDs::default();
    assert_eq!(ids.file, ID::default());
    assert_eq!(ids.file.next(), 2);
    assert_eq!(ids.file.next(), 3);
    assert_eq!(ids.buf, ID(2));
    let mut id = ID::new(u64::MAX);
    assert_eq!(id.next(), u64::MAX);
    assert_eq!(id.next(), 0);
}

#[test]
fn new_address_spaces_are_told_apart() {
    let mut m = manager();
    let mut a = m.new_vm(0x9000_0000);
    let b = m.new_vm(0x9001_0000);
    assert_eq!(a.id(), 2);
    assert_eq!(b.id(), 3);
    assert!(a.id() != KERNEL_VM_ID && a.id() != KERNEL_LOWER_VM_ID);
    assert_eq!(a.ttb(), 0x9000_0000);
    assert_eq!(m.new_renderer(), 2);
    assert_eq!(m.new_renderer(), 3);
    let bound = m.bind_vm(&mut a).unwrap();
    assert_eq!(bound.bind.vm_id, 2);
    assert_eq!(bound.bind.slot(), 1);
    assert!(bound.update.is_some());
    let again = m.bind_vm(&mut a).unwrap();
    assert_eq!(again.bind.slot(), 1);
    assert!(again.update.is_none());
    assert_eq!(m.uat.kernel_vm().id(), KERNEL_VM_ID);
    assert_eq!(m.uat.context_table_base(), 0x8000_0000);
}

#[test]
fn allocators_differ_in_protection() {
    let a = manager().allocators;
    assert_eq!(a.private.min_align, 0x20);
    assert_eq!(a.private.prot, PROT_FW_PRIV_RW);
    assert_eq!(a.shared.prot, PROT_FW_SHARED_RW);
    assert_eq!(a.gpu.prot, PROT_GPU_FW_SHARED_RW);
}

#[test]
fn the_firmware_starts_in_order() {
    let at = 0xffff_ffa0_1234_4000;
    let mut actions = Vec::new();
    while let Some(action) = init(at, actions.len()) {
        actions.push(action);
    }
    assert_eq!(
        actions,
        vec![
            InitAction::Initialize,
            InitAction::Boot,
            InitAction::StartEndpoint(0x20),
            InitAction::StartEndpoint(0x21),
            InitAction::Send(Message { endpoint: 0x20, msg: 0x81_0fa0_1234_4000 }),
            InitAction::Send(Message { endpoint: 0x21, msg: 0x83_0000_0000_0011 }),
        ]
    );
    assert_eq!(init(at, 6), None);
    assert_eq!(init(at, usize::MAX), None);
}

#[test]
fn doorbells_differ() {
    assert_eq!(kick_firmware(), Message { endpoint: EP_DOORBELL, msg: 0x83_0000_0000_0010 });
    assert_eq!(fwctl_doorbell(), Message { endpoint: EP_DOORBELL, msg: 0x84_0000_0000_0000 });
    let mut seen = vec![kick_firmware().msg, device_control_doorbell().msg];
    for pipe in [PipeType::Vertex, PipeType::Fragment, PipeType::Compute] {
        for index in 0..4 {
            let bell = pipe_doorbell(pipe, index);
            assert_eq!(bell.endpoint, EP_DOORBELL);
            assert!(!seen.contains(&bell.msg));
            seen.push(bell.msg);
        }
    }
    assert_eq!(pipe_doorbell(PipeType::Compute, 3).msg, 0x83_0000_0000_000e);
}

#[test]
fn a_batch_goes_to_the_first_channel_of_its_kind() {
    let mut m = EventManager::new(EventManagerInner {
        stamps: GpuArray { base: 0x1000, item_size: 4, count: 128 },
        fw_stamps: GpuArray { base: 0x8000, item_size: 8, count: 128 },
    });
    let q = WorkQueue::<u32>::new(0xabc, PipeType::Fragment);
    let event = q.get_event(&mut m).unwrap();
    let mut b = q.begin_batch(Some(QueueEvent { event, value: EventValue(0) }));
    assert!(b.add(0x10, 1, 0).is_none());
    b.commit().unwrap();
    let (q, sent) = submit_batch(b);
    let sent = sent.unwrap();
    assert_eq!(sent.pipe_type, PipeType::Fragment);
    assert_eq!(sent.index, 0);
    assert_eq!(sent.doorbell, Message { endpoint: EP_DOORBELL, msg: 0x83_0000_0000_0001 });
    assert_eq!(
        sent.msg,
        RunWorkQueueMsg {
            pipe_type: PipeType::Fragment,
            work_queue: 0xabc,
            wptr: 1,
            event_slot: 0,
            is_new: true,
        }
    );
    let mut b = q.begin_batch(None);
    assert!(b.add(0x20, 2, 0).is_none());
    let (_, refused) = submit_batch(b);
    assert_eq!(refused.unwrap_err(), Error::EINVAL);
}

#[test]
fn only_the_doorbell_of_the_firmware_is_known() {
    assert!(recv_message(EP_FIRMWARE, MSG_RX_DOORBELL));
    assert!(!recv_message(EP_DOORBELL, MSG_RX_DOORBELL));
    assert!(!recv_message(EP_FIRMWARE, MSG_RX_DOORBELL + 1));
}

#[test]
fn whole_pages_of_registers_are_mapped() {
    let map = IOMapping::new(0x23b2e8800, 0x5000, 0x6000, false);
    let plan = iomap(&map);
    assert_eq!(
        plan,
        IoMapPlan { base: 0x23b2e8000, size: 0x8000, writable: false, offset: 0x800 }
    );
    assert!(plan.base <= map.base && map.base + map.size <= plan.base + plan.size);
    assert_eq!(
        io_mapping(&map, &plan, 0xffff_ffa0_0000_4000),
        RawIOMapping {
            phys_addr: 0x23b2e8800,
            virt_addr: 0xffff_ffa0_0000_4800,
            size: 0x5000,
            range_size: 0x6000,
            readwrite: 0,
        }
    );
    let wide = IOMapping::new(0, 0x1_0000_1000, 0x2_0000_0000, true);
    let raw = io_mapping(&wide, &iomap(&wide), 0);
    assert_eq!((raw.size, raw.range_size, raw.readwrite), (0x1000, 0, 1));
}

#[test]
fn all_registers_of_a_chip_are_mapped() {
    let maps = t8103::hwconfig().io_mappings;
    let mut seen = Vec::new();
    let mut from = 0;
    while let Some((i, plan)) = next_iomap(&maps, from) {
        assert_eq!(plan, iomap(maps[i].as_ref().unwrap()));
        seen.push(i);
        from = i + 1;
    }
    assert_eq!(seen, vec![0, 1, 2, 3, 7, 8, 9, 10, 11, 13]);
    assert_eq!(next_iomap(&maps, 100), None);
}

#[test]
fn pending_events_are_listed_once() {
    let (mut stamps, _) = hung();
    assert_eq!(
        take_pending_events(&mut stamps),
        vec![
            PendingEvent { slot: 5, flags: 3, wait_value: 0x700 },
            PendingEvent { slot: 2, flags: 0, wait_value: 0x100 },
        ]
    );
    assert_eq!(stamps[0], PendingStamp { info: 0, wait_value: 0 });
    assert_eq!(stamps[1], PendingStamp { info: 0, wait_value: 0x900 });
    assert_eq!(stamps[2], PendingStamp { info: 0, wait_value: 0 });
    assert_eq!(take_pending_events(&mut stamps), Vec::new());
}

#[test]
fn recovery_depends_on_the_halt() {
    let mut flags = HaltFlags { halt_count: 3, halted: 1, resume: 0 };
    assert_eq!(recover(&mut flags, true), Recovery::Disabled);
    assert_eq!(flags, HaltFlags { halt_count: 3, halted: 1, resume: 0 });
    assert_eq!(recover(&mut flags, false), Recovery::Attempted);
    assert_eq!(flags, HaltFlags { halt_count: 3, halted: 0, resume: 1 });
    assert_eq!(recover(&mut flags, false), Recovery::Impossible);
    assert_eq!(flags, HaltFlags { halt_count: 3, halted: 0, resume: 1 });
}

#[test]
fn a_hang_is_reported_and_recovered_from() {
    let (mut stamps, mut flags) = hung();
    let report = handle_fault(&mut stamps, Some((0xa1 << 9) | 1), &mut flags, false);
    assert_eq!(report.pending.len(), 2);
    match report.fault {
        FaultReport::Fault(info) => {
            assert_eq!(info.unit, FaultUnit::dPM);
            assert_eq!(info.reason, FaultReason::Unmapped);
        }
        _ => panic!("no fault"),
    }
    assert_eq!(report.recovery, Recovery::Attempted);
    assert_eq!(flags.resume, 1);
    let (slot, count, report) = handle_timeout(7, 5, &mut stamps, None, &mut flags, false);
    assert_eq!((slot, count), (5, 7));
    assert_eq!(report.pending.len(), 0);
    assert_eq!(report.fault, FaultReport::NoResources);
    assert_eq!(report.recovery, Recovery::Impossible);
    assert_eq!(show_fault_info(Some(0x100)), FaultReport::NoFault);
}

#[test]
fn waiting_for_power_off_beats_keeping_the_gpu_on() {
    assert_eq!(idle_timeout(false, false), 2);
    assert_eq!(idle_timeout(false, true), 5000);
    assert_eq!(idle_timeout(true, false), 0);
    assert_eq!(idle_timeout(true, true), 0);
}

#[test]
fn power_off_has_to_be_seen_in_time() {
    let wait = |timeout: usize, statuses: &[u32]| {
        let mut looks = 0;
        loop {
            let status = if looks < statuses.len() { statuses[looks] } else { 0 };
            if let Some(r) = wait_for_poweroff(looks, timeout, status) {
                return (looks, r);
            }
            looks += 1;
        }
    };
    assert_eq!(wait(10, &[1, 2, 4]), (2, Ok(())));
    assert_eq!(wait(3, &[1, 2, 4]), (2, Ok(())));
    assert_eq!(wait(2, &[1, 2, 4]), (2, Err(Error::ETIMEDOUT)));
    assert_eq!(wait(0, &[4]), (0, Err(Error::ETIMEDOUT)));
}

#[test]
fn a_context_is_named_by_its_fields_and_address() {
    let context = GpuContextData { unk_0: 1, unk_1: 2, unk_4: 3, unk_23: 4 };
    assert_eq!(
        invalidate_context(&context, 0xabcd),
        DestroyContext { ctx_23: 4, ctx_0: 1, ctx_1: 2, ctx_4: 3, gpu_context: 0xabcd }
    );
}

#[test]
fn requests_and_reach_of_the_driver() {
    assert_eq!(ioctl_flags(Request::GetParam), RENDER_ALLOW);
    for request in [
        Request::Submit,
        Request::Wait,
        Request::CreateBo,
        Request::MmapBo,
        Request::GetBoOffset,
    ] {
        assert_eq!(ioctl_flags(request), AUTH | RENDER_ALLOW);
        assert_eq!(ioctl_flags(request), 0x21);
    }
    assert_eq!(dma_mask(40), 0xff_ffff_ffff);
    assert_eq!(dma_mask(0), 0);
    assert_eq!(dma_mask(63), u64::MAX / 2);
}

#[test]
fn channels_are_looked_at_in_order() {
    let mut expected: Vec<RxSource> = (0..6).map(|index| RxSource::FwLog { index }).collect();
    expected.extend([RxSource::KTrace, RxSource::Stats, RxSource::Event]);
    assert_eq!(rx_sources(EP_FIRMWARE, MSG_RX_DOORBELL), expected);
    assert_eq!(rx_sources(EP_DOORBELL, MSG_RX_DOORBELL), vec![]);
    assert_eq!(rx_sources(EP_FIRMWARE, MSG_RX_DOORBELL + 1), vec![]);
}
