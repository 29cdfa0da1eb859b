use asahi::error::Error;
use asahi::file::{
    create_bo, create_bo_place, get_bo_offset, get_bo_offset_place, get_param, mmap_bo, open,
    submit, wait_bo, BoReply,
};
use asahi::gem::DriverObject;
use asahi::mmu::Mapping;

fn at(start: u64) -> Mapping {
    Mapping { start, node_size: 0x8000, prot: 7 }
}

#[test]
fn object_is_mapped_once_per_address_space() {
    let mut o = DriverObject::new_object(5);
    assert_eq!((o.kernel, o.flags), (false, 5));
    assert_eq!(o.iova(1), None);
    let r = o.map_into_request(1, 0x4000).unwrap();
    assert_eq!((r.size, r.start, r.end), (0x8000, 0, u64::MAX));
    assert_eq!(o.map_into(1, Ok(at(0x1_0000))), Ok(0x1_0000));
    assert_eq!(o.map_into(2, Ok(at(0x2_0000))), Ok(0x2_0000));
    assert_eq!(o.map_into(3, Ok(at(0x3_0000))), Ok(0x3_0000));
    assert_eq!(o.map_into(1, Ok(at(0x9_0000))), Err(Error::EBUSY));
    assert_eq!(o.map_into_request(1, 0x4000), Err(Error::EBUSY));
    assert_eq!(o.map_into_range_request(1, 0x4000, 0, 1, 2), Err(Error::EBUSY));
    assert_eq!((o.iova(1), o.iova(2), o.iova(3)), (Some(0x1_0000), Some(0x2_0000), Some(0x3_0000)));
    assert_eq!(o.drop_mappings(1), Some(at(0x1_0000)));
    assert_eq!((o.iova(1), o.iova(2), o.iova(3)), (None, Some(0x2_0000), Some(0x3_0000)));
    assert_eq!(o.drop_mappings(1), None);
    assert_eq!(o.map_into(1, Ok(at(0x4_0000))), Ok(0x4_0000));
}

#[test]
fn failed_mapping_leaves_no_trace() {
    let mut o = DriverObject::new_kernel_object();
    assert_eq!((o.kernel, o.flags), (true, 0));
    assert_eq!(o.map_into(1, Err(Error::ENOSPC)), Err(Error::ENOSPC));
    assert_eq!(o.iova(1), None);
    let r = o.map_into_range_request(1, 0x4000, 0x10, 0x20, 0x4000).unwrap();
    assert_eq!((r.start, r.end, r.alignment), (0x10, 0x20, 0x4000));
}

#[test]
fn files_have_ranges() {
    let p = create_bo_place(3, true);
    assert_eq!((p.start, p.end), (0x11_1800_0000, 0x11_1fff_ffff));
    assert_eq!((p.alignment, p.prot), (0x4000, 0xf));
    let o = create_bo_place(3, false);
    assert_eq!((o.start, o.end), (0x23_0000_0000, 0x23_ffff_ffff));
    assert_eq!(create_bo_place(35, false), o);
    let l = get_bo_offset_place(3);
    assert_eq!((l.start, l.end), (0x23_8000_0000, 0x24_7fff_ffff));
    for a in 0..32 {
        for b in 0..a {
            assert!(create_bo_place(b, true).end < create_bo_place(a, true).start);
            assert!(create_bo_place(b, false).end < create_bo_place(a, false).start);
            assert!(create_bo_place(a, true).end < create_bo_place(b, false).start);
        }
    }
}

#[test]
fn new_objects_are_answered() {
    let mut reply = BoReply { offset: 1, handle: 2 };
    assert_eq!(create_bo(true, &mut reply, Ok(0x11_0000_4000), Ok(7)), Ok(0));
    assert_eq!(reply, BoReply { offset: 0x4000, handle: 7 });
    assert_eq!(create_bo(false, &mut reply, Ok(0x20_0000_4000), Ok(8)), Ok(0));
    assert_eq!(reply, BoReply { offset: 0x20_0000_4000, handle: 8 });
    assert_eq!(create_bo(false, &mut reply, Ok(5), Err(Error::ENOMEM)), Err(Error::ENOMEM));
    assert_eq!(reply, BoReply { offset: 5, handle: 8 });
    assert_eq!(create_bo(false, &mut reply, Err(Error::ENOSPC), Ok(9)), Err(Error::ENOSPC));
    assert_eq!(reply, BoReply { offset: 5, handle: 8 });
}

#[test]
fn object_address_is_found_or_made() {
    let mut o = DriverObject::new_object(0);
    let mut offset = 0;
    let mapped = o.map_into(4, Ok(at(0xa_0000)));
    assert_eq!(get_bo_offset(&mut offset, mapped, o.iova(4)), Ok(0));
    assert_eq!(offset, 0xa_0000);
    let mapped = o.map_into(4, Ok(at(0xb_0000)));
    assert_eq!(mapped, Err(Error::EBUSY));
    assert_eq!(get_bo_offset(&mut offset, mapped, o.iova(4)), Ok(0));
    assert_eq!(offset, 0xa_0000);
    let mapped = o.map_into(5, Err(Error::ENOSPC));
    assert_eq!(get_bo_offset(&mut offset, mapped, o.iova(5)), Err(Error::ENOSPC));
    assert_eq!(get_bo_offset(&mut offset, Ok(1), None), Err(Error::EIO));
    assert_eq!(offset, 0xa_0000);
}

#[test]
fn other_requests() {
    let mut offset = 3;
    assert_eq!(mmap_bo(&mut offset, Err(Error::ENOENT)), Err(Error::ENOENT));
    assert_eq!(offset, 3);
    assert_eq!(mmap_bo(&mut offset, Ok(0x10_0000)), Ok(0));
    assert_eq!(offset, 0x10_0000);
    assert_eq!(submit(Ok(())), Ok(0));
    assert_eq!(submit(Err(Error::EINVAL)), Err(Error::EINVAL));
    assert_eq!(wait_bo(), Ok(0));
    assert_eq!(get_param(), Ok(0));
}

#[test]
fn file_allocators() {
    let a = open();
    assert_eq!((a.ualloc.start, a.ualloc.end, a.ualloc.prot), (0x60_0000_0000, 0x60_ffff_ffff, 0xf));
    assert_eq!((a.ualloc_priv.start, a.ualloc_priv.prot), (0x61_0000_0000, 0x7));
    assert_eq!((a.ualloc_extra.start, a.ualloc_extra.end), (0x6f_ffff_8000, 0x70_0000_0000));
    assert_eq!((a.ualloc.min_align, a.ualloc_extra.min_align), (0x8000, 0x4000));
}
