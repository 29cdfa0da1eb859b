use asahi::error::{Error, Result};
use asahi::io_pgtable::{prot, AppleUATCfg, Config, FlushOps, FormatCfg, IOPagetable};
use asahi::rtkit::{FoundBuffer, FoundMemory, Operations, ShMem, ShMemRequest};

struct Flush;

impl FlushOps for Flush {
    type Data = ();

    fn tlb_flush_all(_data: &()) {}

    fn tlb_flush_walk(_data: &(), _iova: usize, _size: usize, _granule: usize) {}

    fn tlb_add_page(_data: &(), _iova: usize, _granule: usize) {}
}

type Table = IOPagetable<Flush, AppleUATCfg>;

fn config() -> Config {
    Config { quirks: 0, pgsize_bitmap: 0x4000, ias: 39, oas: 40, coherent_walk: true }
}

#[test]
fn page_tables_report_their_format() {
    let made = FormatCfg::AppleUAT(AppleUATCfg { ttbr: 0x8000 });
    let t = Table::new_fmt(&config(), Some(made)).ok().unwrap();
    assert_eq!(t.cfg().ttbr, 0x8000);
    assert_eq!((t.raw.ias, t.raw.oas, t.raw.pgsize_bitmap), (39, 40, 0x4000));
    assert!(t.raw.coherent_walk);
    let t = IOPagetable::<Flush, ()>::new_fmt(&config(), Some(FormatCfg::Plain)).ok().unwrap();
    assert_eq!(t.cfg(), ());
}

#[test]
fn page_tables_can_be_refused() {
    assert_eq!(Table::new_fmt(&config(), None).err(), Some(Error::EINVAL));
    let wide = Config { ias: 0x1_0000_0000, ..config() };
    assert_eq!(wide.to_raw(), Err(Error::EINVAL));
    let wide = Config { oas: 0x1_0000_0000, ..config() };
    assert_eq!(Table::new_fmt(&wide, Some(FormatCfg::Plain)).err(), Some(Error::EINVAL));
}

#[test]
fn mapped_pages_are_counted() {
    assert_eq!(Table::map_pages_result(0, 3), Ok(3));
    assert_eq!(Table::map_pages_result(-12, 3), Err(Error::ENOMEM));
    assert_eq!(
        (prot::READ, prot::WRITE, prot::CACHE, prot::NOEXEC, prot::MMIO, prot::PRIV),
        (1, 2, 4, 8, 16, 32)
    );
}

struct Nothing;

impl Operations for Nothing {
    type Data = ();
    type Buffer = u32;
}

#[test]
fn coprocessor_operations_default_to_nothing() {
    Nothing::crashed(&());
    Nothing::recv_message(&(), 1, 2);
    assert!(!Nothing::recv_message_early(&(), 1, 2));
    assert_eq!(Nothing::shmem_alloc(&(), 3), Err(Error::EINVAL));
    assert_eq!(Nothing::shmem_map(&(), 3, 4), Err(Error::EINVAL));
}

fn shmem(iova: u64) -> ShMem {
    ShMem { iova, size: 0x1000, is_mapped: false, buffer: 0, private: None }
}

fn found(iova: Option<u64>, len: Option<usize>) -> Result<FoundBuffer> {
    let buf = match len {
        Some(len) => Some(FoundMemory { ptr: 0x7000, len }),
        None => None,
    };
    Ok(FoundBuffer { object: 0x55, iova, buf })
}

#[test]
fn buffers_are_mapped_or_allocated() {
    let mut b = shmem(0x9000);
    assert_eq!(b.request(), ShMemRequest::MapAt { iova: 0x9000, size: 0x1000 });
    assert!(b.is_mapped);
    let mut b = shmem(0);
    b.is_mapped = true;
    assert_eq!(b.request(), ShMemRequest::Alloc { size: 0x1000 });
    assert!(!b.is_mapped);
}

#[test]
fn buffer_is_taken_over_and_given_back_once() {
    let mut b = shmem(0);
    assert_eq!(b.setup(found(Some(0xa000), Some(0x1000))), 0);
    assert_eq!((b.iova, b.buffer, b.private), (0xa000, 0x7000, Some(0x55)));
    assert_eq!(b.destroy(), Some(0x55));
    assert_eq!(b.destroy(), None);
    assert_eq!(b.iova, 0xa000);
}

#[test]
fn unfit_buffers_are_refused() {
    let mut b = shmem(0);
    assert_eq!(b.setup(Err(Error::EINVAL)), -22);
    assert_eq!(b.setup(found(None, Some(0x1000))), -5);
    assert_eq!(b.setup(found(Some(1), None)), -12);
    assert_eq!(b.setup(found(Some(1), Some(0xfff))), -12);
    assert_eq!(b, shmem(0));
}
