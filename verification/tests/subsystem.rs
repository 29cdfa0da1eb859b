use asahi::drm::file::{open_callback, postclose_callback, DriverFile, File};
use asahi::drm::gem::shmem::{gem_create_object, SGEntry, SGTable};
use asahi::drm::gem::{
    create_handle, create_mmap_offset, lookup_handle, BaseDriverObject, Object,
};
use asahi::drm::ioctl::{
    check_table, ioctl_return, DRMIOCTLDescriptor, AUTH, IO, IOR, IOW, IOWR, MASTER, RENDER_ALLOW,
    ROOT_ONLY, UNLOCKED,
};
use asahi::drm::mm::{AllocInner, Allocator, InsertMode, InsertRequest, Placement};
use asahi::error::{to_result, Error};
use asahi::ioctl::{_IO, _IOC, _IOC_DIR, _IOC_NR, _IOC_SIZE, _IOC_TYPE, _IOR, _IOW, _IOWR};

#[test]
fn error_codes() {
    let named = [
        (Error::ENOENT, -2),
        (Error::EIO, -5),
        (Error::ENXIO, -6),
        (Error::ENOMEM, -12),
        (Error::EBUSY, -16),
        (Error::ENODEV, -19),
        (Error::EINVAL, -22),
        (Error::ENOSPC, -28),
        (Error::ERANGE, -34),
        (Error::ETIMEDOUT, -110),
        (Error::ERESTARTSYS, -512),
        (Error::Other(-1), -1),
    ];
    for (e, code) in named {
        assert_eq!(e.to_kernel_errno(), code);
        assert_eq!(Error::from_kernel_errno(code), e);
        assert_eq!(to_result(code), Err(e));
    }
    assert_eq!(to_result(0), Ok(()));
    assert_eq!(to_result(5), Ok(()));
}

#[test]
fn ioctl_numbers_pack_and_unpack() {
    let n = _IOC(3, 0x64, 0x42, 0x123);
    assert_eq!(n, 0xc123_6442);
    assert_eq!((_IOC_DIR(n), _IOC_TYPE(n), _IOC_NR(n), _IOC_SIZE(n)), (3, 0x64, 0x42, 0x123));
    let n = _IOC(3, 0xff, 0xff, 0x3fff);
    assert_eq!(n, u32::MAX);
    assert_eq!((_IOC_DIR(n), _IOC_TYPE(n), _IOC_NR(n), _IOC_SIZE(n)), (3, 0xff, 0xff, 0x3fff));
    let n = 0x1234_5678;
    assert_eq!(_IOC(_IOC_DIR(n), _IOC_TYPE(n), _IOC_NR(n), _IOC_SIZE(n)), n);
}

#[test]
fn ioctl_directions() {
    assert_eq!(_IO(0x41, 3), 0x4103);
    assert_eq!(_IOR::<u64>(0x41, 3), 0x8008_4103);
    assert_eq!(_IOW::<u32>(0x41, 3), 0x4004_4103);
    assert_eq!(_IOWR::<[u8; 24]>(0x41, 3), 0xc018_4103);
    assert_eq!(IO(1), 0x6401);
    assert_eq!(IOR::<u8>(2), 0x8001_6402);
    assert_eq!(IOW::<u16>(3), 0x4002_6403);
    assert_eq!(IOWR::<u128>(4), 0xc010_6404);
    assert_eq!((AUTH, MASTER, ROOT_ONLY, UNLOCKED, RENDER_ALLOW), (1, 2, 4, 16, 32));
}

#[test]
fn ioctl_tables_have_no_gaps() {
    let entry = |nr: u32, size: usize| DRMIOCTLDescriptor {
        cmd: _IOC(3, 0x64, nr, 16),
        size,
        flags: RENDER_ALLOW,
    };
    assert!(check_table(&vec![]));
    assert!(check_table(&vec![entry(0x40, 16), entry(0x41, 16)]));
    assert!(!check_table(&vec![entry(0x41, 16)]));
    assert!(!check_table(&vec![entry(0x40, 16), entry(0x42, 16)]));
    assert!(!check_table(&vec![entry(0x40, 8)]));
}

#[test]
fn ioctl_results() {
    assert_eq!(ioctl_return(Ok(0)), 0);
    assert_eq!(ioctl_return(Ok(0x7fff_ffff)), i32::MAX);
    assert_eq!(ioctl_return(Ok(0x8000_0000)), -34);
    assert_eq!(ioctl_return(Err(Error::ENOENT)), -2);
}

struct Owner {
    dropped: Vec<(u64, u64, usize, u8)>,
}

impl AllocInner<u8> for Owner {
    fn drop_object(&mut self, start: u64, size: u64, color: usize, object: &mut u8) {
        self.dropped.push((start, size, color, *object));
    }
}

#[test]
fn requests_to_the_range_allocator() {
    let anywhere = Allocator::<Owner, u8>::insert_node(0x4000);
    assert_eq!(
        anywhere,
        InsertRequest {
            size: 0x4000,
            alignment: 0,
            color: 0,
            start: 0,
            end: u64::MAX,
            mode: InsertMode::Best,
        }
    );
    let aligned = Allocator::<Owner, u8>::insert_node_generic(1, 2, 3, InsertMode::High);
    assert_eq!((aligned.alignment, aligned.color, aligned.mode), (2, 3, InsertMode::High));
    assert_eq!(InsertMode::Best.to_u32(), 0);
    assert_eq!(InsertMode::Low.to_u32(), 1);
    assert_eq!(InsertMode::High.to_u32(), 2);
    assert_eq!(InsertMode::Evict.to_u32(), 3);
}

#[test]
fn owner_hears_of_removed_nodes() {
    let mut mm = Allocator::new(0x1000, 0x9000, Owner { dropped: Vec::new() });
    let request = Allocator::<Owner, u8>::insert_node_generic(0x20, 4, 7, InsertMode::Low);
    let placed = Placement { code: 0, start: 0x1040 };
    let node = Allocator::<Owner, u8>::insert_node_in_range(9, request, placed).unwrap();
    assert_eq!((node.start(), node.size(), node.color()), (0x1040, 0x20, 7));
    assert_eq!(node.with_inner(&mut mm, |o: &mut Owner| o.dropped.len()), 0);
    assert!(mm.remove_node(*node));
    let node = Allocator::<Owner, u8>::reserve_node(8, 0x2000, 0x10, 1, 0).unwrap();
    assert!(mm.remove_node(*node));
    let mut node = *Allocator::<Owner, u8>::reserve_node(7, 0x3000, 0x10, 1, 0).unwrap();
    node.valid = false;
    assert!(!mm.remove_node(node));
    let dropped = mm.with_inner(|o: &mut Owner| o.dropped.clone());
    assert_eq!(dropped, vec![(0x1040, 0x20, 7, 9), (0x2000, 0x10, 1, 8)]);
    assert_eq!((mm.start, mm.size), (0x1000, 0x9000));
}

#[test]
fn range_allocator_can_refuse() {
    let request = Allocator::<Owner, u8>::insert_node(1);
    let placed = Placement { code: -28, start: 0 };
    let r = Allocator::<Owner, u8>::insert_node_in_range(9, request, placed);
    assert_eq!(r.err(), Some(Error::ENOSPC));
    let r = Allocator::<Owner, u8>::reserve_node(9, 0, 1, 0, -17);
    assert_eq!(r.err(), Some(Error::Other(-17)));
}

#[derive(Debug)]
struct State(u32);

impl DriverFile for State {
    type Device = u32;

    fn open(device: &u32) -> asahi::error::Result<Box<State>> {
        if *device == 0 {
            Err(Error::ENODEV)
        } else {
            Ok(Box::new(State(*device)))
        }
    }
}

#[test]
fn files_open_and_close() {
    let mut file: File<State> = File { driver_priv: None };
    assert_eq!(open_callback(&0, &mut file), -19);
    assert!(file.driver_priv.is_none());
    assert_eq!(open_callback(&5, &mut file), 0);
    assert_eq!(postclose_callback(file).unwrap().0, 5);
}

impl BaseDriverObject for State {
    type Device = u32;

    fn new(dev: &u32, size: usize) -> asahi::error::Result<State> {
        if *dev == 0 {
            Err(Error::EBUSY)
        } else {
            Ok(State(*dev + size as u32))
        }
    }
}

#[test]
fn objects_are_made_in_two_steps() {
    let made = Object::<State>::new(&1, 8, |size: usize| size as i32).unwrap();
    assert_eq!(made.object.size(), 8);
    assert_eq!(made.into_ref().object.inner.0, 9);
    let r = Object::<State>::new(&1, 8, |_size: usize| -12);
    assert_eq!(r.err(), Some(Error::ENOMEM));
    let r = Object::<State>::new(&0, 8, |_size: usize| -12);
    assert_eq!(r.err(), Some(Error::EBUSY));
    let made = gem_create_object::<State, _>(&2, 4, || true).unwrap();
    assert_eq!((made.size, made.inner.0), (4, 6));
    let r = gem_create_object::<State, _>(&2, 4, || false);
    assert_eq!(r.err(), Some(Error::ENOMEM));
    let r = gem_create_object::<State, _>(&0, 4, || false);
    assert_eq!(r.err(), Some(Error::EBUSY));
}

#[test]
fn handles_and_offsets() {
    assert_eq!(create_handle(0, 5), Ok(5));
    assert_eq!(create_handle(-12, 5), Err(Error::ENOMEM));
    assert_eq!(lookup_handle(Some(3)), Ok(3));
    assert_eq!(lookup_handle::<u32>(None), Err(Error::ENOENT));
    assert_eq!(create_mmap_offset(0, 0x1000), Ok(0x1000));
    assert_eq!(create_mmap_offset(-22, 0x1000), Err(Error::EINVAL));
}

#[test]
fn scatter_tables_are_walked_in_order() {
    let e = |a: u64| SGEntry { dma_address: a, dma_len: 0x4000 };
    let table = SGTable { entries: vec![e(0x8000), e(0x4000)] };
    let mut it = table.iter();
    let first = it.next().unwrap();
    assert_eq!((first.dma_address(), first.dma_len()), (0x8000, 0x4000));
    assert_eq!(it.next(), Some(e(0x4000)));
    assert_eq!(it.next(), None);
    assert_eq!(it.next(), None);
}
