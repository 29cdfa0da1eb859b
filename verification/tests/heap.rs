use asahi::allocator::{
    array_layout, page_align, AllocEvent, AllocStep, CpuPointer, GuardRange, HeapAllocator, SimpleAllocator,
};
use asahi::drm::mm::{InsertMode, InsertRequest};
use asahi::error::Error;
use asahi::util::{align, align_u32, is_power_of_two, low_half, max_u64};

fn heap(cpu_maps: bool) -> HeapAllocator<u32> {
    HeapAllocator::new(0x10_0000, 0x4f_ffff, 0x80, 7, 0x8000, cpu_maps).ok().unwrap()
}

#[test]
fn rounding() {
    assert_eq!(align(0, 0x10), 0);
    assert_eq!(align(1, 0x10), 0x10);
    assert_eq!(align(0x10, 0x10), 0x10);
    assert_eq!(align(0x11, 0x10), 0x20);
    assert_eq!(align_u32(0x11, 8), 0x18);
    assert_eq!(page_align(1), 0x4000);
    assert_eq!(page_align(0x4000), 0x4000);
    assert_eq!(max_u64(3, 5), 5);
    assert_eq!(max_u64(5, 3), 5);
    assert_eq!(low_half(0x1_2345_6789), 0x2345_6789);
}

#[test]
fn powers_of_two() {
    assert!(is_power_of_two(1) && is_power_of_two(0x4000) && is_power_of_two(1 << 63));
    assert!(!is_power_of_two(0) && !is_power_of_two(3) && !is_power_of_two(u64::MAX));
}

#[test]
fn array_sizes() {
    assert_eq!(array_layout::<u32>(10), (40, 4));
    assert_eq!(array_layout::<u64>(0), (0, 8));
}

#[test]
fn simple_allocation_ends_with_its_object() {
    let a = SimpleAllocator::new(0x1000, 0x9000, 0x80, 3);
    let plan = a.allocate(0x123, 0x10);
    assert_eq!(plan.object_size, 0x4000);
    assert_eq!(plan.offset, 0x3e80);
    assert_eq!((plan.map_align, plan.start, plan.end, plan.prot), (0x4000, 0x1000, 0x9000, 3));
    let placed = plan.place(0x8000, 0x123);
    assert_eq!((placed.gpu_ptr, placed.offset, placed.size), (0xbe80, 0x3e80, 0x123));
    assert_eq!(placed.gpu_ptr % 0x80, 0);
    let plan = a.allocate(0x4000, 0x1000);
    assert_eq!((plan.object_size, plan.offset), (0x4000, 0));
    let wide = SimpleAllocator::new(0, 0, 0x1_0000, 3).allocate(1, 1);
    assert_eq!((wide.map_align, wide.offset), (0x1_0000, 0));
}

#[test]
fn heap_wants_a_power_of_two() {
    assert_eq!(HeapAllocator::<u32>::new(0, 1, 3, 0, 1, true).err(), Some(Error::EINVAL));
    assert_eq!(HeapAllocator::<u32>::new(0, 1, 0, 0, 1, true).err(), Some(Error::EINVAL));
    assert_eq!(heap(true).mm_size(), 0x40_0000);
}

#[test]
fn heap_requests_are_rounded() {
    let h = heap(true);
    assert_eq!(
        h.alloc_request(0x81, 0),
        Ok(InsertRequest {
            size: 0x100,
            alignment: 0x80,
            color: 0,
            start: 0,
            end: u64::MAX,
            mode: InsertMode::Best,
        })
    );
    let r = h.alloc_request(1, 0x400).unwrap();
    assert_eq!((r.size, r.alignment), (0x400, 0x400));
    assert_eq!(h.alloc_request(1, 3), Err(Error::EINVAL));
    assert_eq!(h.alloc_request(u64::MAX, 3), Err(Error::EINVAL));
    assert_eq!(h.alloc_request(u64::MAX, u64::MAX), Err(Error::EINVAL));
}

#[test]
fn living_objects_never_overlap() {
    let mut h = heap(true);
    let mut live: Vec<(u64, u64)> = Vec::new();
    let mut next: u64 = 0x10_0000;
    for (asked, wanted) in [(1, 0), (0x81, 0x100), (0x7f00, 0), (0x9001, 0x4000), (0x10, 0)] {
        let request = h.alloc_request(asked, wanted).unwrap();
        let mut start = align(next, request.alignment);
        // A range that meets a guard is not free.
        if start < h.plan_block(1).gpu_ptr && start + request.size > h.plan_block(1).gpu_ptr - 0x4000 {
            start = align(h.plan_block(1).gpu_ptr, request.alignment);
        }
        let grows = h.needs_block(start, request.size);
        if let Some(size) = grows {
            assert_eq!(h.add_block(size, 1, Ok(()), Ok(())), Ok(()));
        }
        let a = h.allocate(start, request.size, grows.is_some()).unwrap();
        assert_eq!(a.gpu_ptr % request.alignment, 0);
        assert_eq!(a.size % request.alignment, 0);
        assert!(a.size >= asked && a.cpu.is_some());
        assert!(a.gpu_ptr >= 0x10_0000 && a.gpu_ptr + a.size - 1 <= 0x4f_ffff);
        assert!(live.iter().all(|(s, n)| s + n <= a.gpu_ptr || a.gpu_ptr + a.size <= *s));
        live.push((a.gpu_ptr, a.size));
        next = a.gpu_ptr + a.size;
    }
    let starts: Vec<u64> = live.iter().map(|(s, _)| *s).collect();
    assert_eq!(starts, vec![0x10_0000, 0x10_0100, 0x10_c000, 0x11_8000, 0x12_8000]);
}

#[test]
fn heap_grows_with_guards() {
    let mut h = heap(true);
    assert_eq!(h.needs_block(0x10_0000, 0x100), Some(0x8000));
    let plan = h.plan_block(0x8000);
    assert_eq!((plan.size, plan.gpu_ptr, plan.prot), (0x8000, 0x10_0000, 7));
    assert_eq!(h.plan_guard(0x8000), Some(GuardRange { start: 0x10_8000, size: 0x4000 }));
    assert!(!plan.exhausted);
    assert_eq!(h.add_block(0x8000, 1, Ok(()), Ok(())), Ok(()));
    assert_eq!(h.needs_block(0x10_0100, 0x100), None);
    let a = h.allocate(0x10_0100, 0x100, false).unwrap();
    assert_eq!((a.gpu_ptr, a.size), (0x10_0100, 0x100));
    assert_eq!(a.cpu, Some(CpuPointer { block: 0, offset: 0x100 }));

    assert_eq!(h.needs_block(0x10_c000, 0x9001), Some(0x9001));
    assert_eq!(h.add_block(0x9001, 2, Ok(()), Ok(())), Ok(()));
    let a = h.allocate(0x10_c000, 0x9001, true).unwrap();
    assert_eq!(a.cpu, Some(CpuPointer { block: 1, offset: 0 }));
    assert_eq!(h.plan_block(1).gpu_ptr, 0x11_c000);
}

#[test]
fn blocks_are_found_by_address() {
    let mut h = heap(true);
    for i in 0..5 {
        h.add_block(0x4000, i, Ok(()), Ok(())).unwrap();
    }
    for i in 0..5u64 {
        let start = 0x10_0000 + i * 0x8000;
        assert_eq!(h.find_obj(start), Ok(i as usize));
        assert_eq!(h.find_obj(start + 0x3fff), Ok(i as usize));
        assert_eq!(h.find_obj(start + 0x4000), Err(Error::ENOENT));
    }
    assert_eq!(h.find_obj(0xf_ffff), Err(Error::ENOENT));
    assert_eq!(h.allocate(0x10_4000, 0, false), Err(Error::EIO));
}

#[test]
fn failed_blocks_leave_the_heap_alone() {
    let mut h = heap(true);
    assert_eq!(h.add_block(0x4000, 1, Err(Error::ENOSPC), Ok(())), Err(Error::ENOSPC));
    assert_eq!(h.add_block(0x4000, 1, Ok(()), Err(Error::ENOSPC)), Err(Error::EIO));
    assert_eq!(h.plan_block(1).gpu_ptr, 0x10_0000);
    assert_eq!(h.find_obj(0x10_0000), Err(Error::ENOENT));
}

#[test]
fn unmapped_heap_needs_no_guards() {
    let mut h = heap(false);
    assert_eq!(h.plan_guard(0x4000), None);
    assert_eq!(h.add_block(0x4000, 1, Ok(()), Err(Error::EIO)), Ok(()));
    assert_eq!(h.plan_block(1).gpu_ptr, 0x10_4000);
    assert_eq!(h.allocate(0x10_0000, 0x100, false).unwrap().cpu, None);
    assert!(h.plan_block(0x3f_c000).exhausted);
}

#[test]
fn failed_mapping_needs_no_room() {
    let mut h = HeapAllocator::<u32>::new(u64::MAX - 0xffff, u64::MAX, 0x80, 7, 0x4000, true)
        .ok()
        .unwrap();
    assert!(h.plan_block(0x1_0000).exhausted);
    assert_eq!(h.add_block(0x1_0000, 1, Err(Error::ENOMEM), Ok(())), Err(Error::ENOMEM));
    assert_eq!(h.plan_block(1).gpu_ptr, u64::MAX - 0xffff);
}

fn range_of(step: &AllocStep<u32>) -> (u64, u64) {
    match step {
        AllocStep::MakeObject { range, .. }
        | AllocStep::MapBlock { range, .. }
        | AllocStep::ReserveGuard { range, .. }
        | AllocStep::MapForCpu { range, .. }
        | AllocStep::Release { range, .. } => (range.start, range.size),
        _ => panic!(),
    }
}

#[test]
fn allocation_grows_the_heap_step_by_step() {
    let mut h = heap(true);
    let step = h.alloc_begin(0x81, 0);
    match &step {
        AllocStep::Insert { request } => {
            assert_eq!((request.size, request.alignment), (0x100, 0x80))
        }
        _ => panic!(),
    }
    let step = h.alloc_next(step, AllocEvent::Placed { start: 0x10_0000 });
    match &step {
        AllocStep::MakeObject { need, plan, .. } => {
            assert_eq!((*need, plan.size, plan.gpu_ptr, plan.prot), (0x8000, 0x8000, 0x10_0000, 7))
        }
        _ => panic!(),
    }
    assert_eq!(range_of(&step), (0x10_0000, 0x100));
    let step = h.alloc_next(step, AllocEvent::Made { object: 5 });
    match &step {
        AllocStep::MapBlock { object, .. } => assert_eq!(*object, 5),
        _ => panic!(),
    }
    let step = h.alloc_next(step, AllocEvent::Success);
    match &step {
        AllocStep::ReserveGuard { guard, .. } => {
            assert_eq!(*guard, GuardRange { start: 0x10_8000, size: 0x4000 })
        }
        _ => panic!(),
    }
    assert_eq!(h.plan_block(1).gpu_ptr, 0x10_0000);
    let step = h.alloc_next(step, AllocEvent::Success);
    assert_eq!(h.plan_block(1).gpu_ptr, 0x10_c000);
    assert!(matches!(step, AllocStep::MapForCpu { .. }));
    match h.alloc_next(step, AllocEvent::Success) {
        AllocStep::Done { result: Ok(a) } => {
            assert_eq!((a.gpu_ptr, a.size), (0x10_0000, 0x100));
            assert_eq!(a.cpu, Some(CpuPointer { block: 0, offset: 0 }));
        }
        _ => panic!(),
    }
    let step = h.alloc_begin(0x10, 0x100);
    let step = h.alloc_next(step, AllocEvent::Placed { start: 0x10_0100 });
    match step {
        AllocStep::MapForCpu { allocation, .. } => {
            assert_eq!(allocation.cpu, Some(CpuPointer { block: 0, offset: 0x100 }))
        }
        _ => panic!(),
    }
}

#[test]
fn allocation_without_cpu_mapping_needs_fewer_steps() {
    let mut h = heap(false);
    let step = h.alloc_begin(0x80, 0);
    let step = h.alloc_next(step, AllocEvent::Placed { start: 0x10_0000 });
    let step = h.alloc_next(step, AllocEvent::Made { object: 5 });
    match h.alloc_next(step, AllocEvent::Success) {
        AllocStep::Done { result: Ok(a) } => assert_eq!((a.gpu_ptr, a.cpu), (0x10_0000, None)),
        _ => panic!(),
    }
    assert_eq!(h.plan_block(1).gpu_ptr, 0x10_8000);
}

fn ends_with(h: &mut HeapAllocator<u32>, step: AllocStep<u32>) -> Error {
    assert_eq!(range_of(&step), (0x10_0000, 0x80));
    assert!(matches!(step, AllocStep::Release { .. }));
    match h.alloc_next(step, AllocEvent::Success) {
        AllocStep::Done { result: Err(e) } => e,
        _ => panic!(),
    }
}

#[test]
fn failed_allocation_gives_its_range_back() {
    let mut h = heap(true);
    let fail = |error: Error| AllocEvent::Failure { error };
    assert!(matches!(h.alloc_begin(1, 3), AllocStep::Done { result: Err(Error::EINVAL) }));
    let step = h.alloc_begin(0x80, 0);
    match h.alloc_next(step, fail(Error::ENOSPC)) {
        AllocStep::Done { result } => assert_eq!(result, Err(Error::ENOSPC)),
        _ => panic!(),
    }
    let placed = |h: &mut HeapAllocator<u32>| {
        let step = h.alloc_begin(0x80, 0);
        h.alloc_next(step, AllocEvent::Placed { start: 0x10_0000 })
    };
    let step = placed(&mut h);
    let step = h.alloc_next(step, fail(Error::ENOMEM));
    assert_eq!(ends_with(&mut h, step), Error::ENOMEM);
    let step = placed(&mut h);
    let step = h.alloc_next(step, AllocEvent::Made { object: 1 });
    let step = h.alloc_next(step, fail(Error::EBUSY));
    assert_eq!(ends_with(&mut h, step), Error::EBUSY);
    let step = placed(&mut h);
    let step = h.alloc_next(step, AllocEvent::Made { object: 1 });
    let step = h.alloc_next(step, AllocEvent::Success);
    let step = h.alloc_next(step, fail(Error::EBUSY));
    assert_eq!(ends_with(&mut h, step), Error::EIO);
    assert_eq!(h.plan_block(1).gpu_ptr, 0x10_0000);
    let step = placed(&mut h);
    let step = h.alloc_next(step, AllocEvent::Made { object: 1 });
    let step = h.alloc_next(step, AllocEvent::Success);
    let step = h.alloc_next(step, AllocEvent::Success);
    let step = h.alloc_next(step, fail(Error::ENOMEM));
    assert_eq!(ends_with(&mut h, step), Error::ENOMEM);
}
