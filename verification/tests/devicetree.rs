use asahi::error::{Error, Result};
use asahi::of::{DeviceId, FromProperty, Node, NodeIterator, Property};

fn prop(name: &[u8], value: &[u8]) -> Property {
    Property { name: name.to_vec(), value: value.to_vec() }
}

fn node() -> Node {
    Node {
        name: b"gpu".to_vec(),
        full_name: b"gpu@406400000".to_vec(),
        phandle: 0x42,
        properties: vec![
            prop(b"one", &[0x80]),
            prop(b"two", &[0x12, 0x34]),
            prop(b"four", &[0xff, 0xff, 0xff, 0xfe]),
            prop(b"eight", &[0x80, 0, 0, 0, 0, 0, 0, 1]),
            prop(b"none", &[]),
            prop(b"one", &[1]),
        ],
    }
}

fn read<T: FromProperty>(name: &[u8]) -> Result<T> {
    node().get_property(&name.to_vec())
}

#[test]
fn node_names() {
    let n = node();
    assert_eq!(n.name(), &b"gpu".to_vec());
    assert_eq!(n.full_name(), &b"gpu@406400000".to_vec());
    assert_eq!(n.phandle(), 0x42);
}

#[test]
fn numbers_are_big_endian() {
    assert_eq!(read::<u8>(b"one"), Ok(0x80));
    assert_eq!(read::<i8>(b"one"), Ok(-0x80));
    assert_eq!(read::<u16>(b"two"), Ok(0x1234));
    assert_eq!(read::<i16>(b"two"), Ok(0x1234));
    assert_eq!(read::<u32>(b"four"), Ok(0xffff_fffe));
    assert_eq!(read::<i32>(b"four"), Ok(-2));
    assert_eq!(read::<u64>(b"eight"), Ok(0x8000_0000_0000_0001));
    assert_eq!(read::<i64>(b"eight"), Ok(i64::MIN + 1));
    assert_eq!(i16::from_property(&prop(b"", &[0xff, 0x00])), Ok(-256));
    assert_eq!(i64::from_property(&prop(b"", &[0xff; 8])), Ok(-1));
}

#[test]
fn sizes_have_to_fit() {
    assert_eq!(read::<u16>(b"one"), Err(Error::EINVAL));
    assert_eq!(read::<u8>(b"two"), Err(Error::EINVAL));
    assert_eq!(read::<u32>(b"eight"), Err(Error::EINVAL));
    assert_eq!(read::<u64>(b"four"), Err(Error::EINVAL));
    assert_eq!(read::<i8>(b"none"), Err(Error::EINVAL));
    assert_eq!(read::<i16>(b"one"), Err(Error::EINVAL));
    assert_eq!(read::<i32>(b"one"), Err(Error::EINVAL));
    assert_eq!(read::<i64>(b"one"), Err(Error::EINVAL));
}

#[test]
fn missing_properties() {
    assert_eq!(read::<u32>(b"five"), Err(Error::ENOENT));
    assert_eq!(node().get_opt_property::<u32>(&b"five".to_vec()), Ok(None));
    assert_eq!(node().get_opt_property::<u32>(&b"four".to_vec()), Ok(Some(0xffff_fffe)));
    assert_eq!(node().get_opt_property::<u32>(&b"two".to_vec()), Err(Error::EINVAL));
}

#[test]
fn first_property_of_a_name_counts() {
    let n = node();
    let p = n.find_property(&b"one".to_vec()).unwrap();
    assert_eq!(p.name(), &b"one".to_vec());
    assert_eq!(p.value(), &vec![0x80]);
    assert_eq!(p.len(), 1);
    assert!(!p.is_empty());
    assert!(n.find_property(&b"none".to_vec()).unwrap().is_empty());
    assert!(n.find_property(&b"on".to_vec()).is_none());
}

#[test]
fn phandle_indices() {
    assert_eq!(Node::phandle_index(3), Some(3));
    assert_eq!(Node::phandle_index(0x7fff_ffff), Some(i32::MAX));
    assert_eq!(Node::phandle_index(0x8000_0000), None);
}

#[test]
fn device_ids_are_zero_filled() {
    let id = DeviceId::Compatible(b"apple,agx-t8103").to_rawid(-7);
    assert_eq!(&id.compatible[..15], b"apple,agx-t8103");
    assert!(id.compatible[15..].iter().all(|b| *b == 0));
    assert_eq!(id.name, [0; 32]);
    assert_eq!(id.type_, [0; 32]);
    assert_eq!(id.data, -7);
}

#[test]
fn nodes_are_walked_once() {
    let mut it = NodeIterator::new(|cur: Option<u32>| match cur {
        None => Some(0),
        Some(2) => None,
        Some(n) => Some(n + 1),
    });
    assert_eq!(it.next(), Some(0));
    assert_eq!(it.next(), Some(1));
    assert_eq!(it.next(), Some(2));
    assert_eq!(it.next(), None);
    assert_eq!(it.next(), None);
}

#[test]
fn iteration_asks_once_for_each_node() {
    let asked = std::cell::RefCell::new(Vec::new());
    let mut it = NodeIterator::new(|cur: Option<u32>| {
        asked.borrow_mut().push(cur);
        match cur {
            None => Some(10),
            Some(12) => None,
            Some(n) => Some(n + 1),
        }
    });
    let given: Vec<Option<u32>> = (0..6).map(|_| it.next()).collect();
    assert_eq!(given, vec![Some(10), Some(11), Some(12), None, None, None]);
    assert_eq!(*asked.borrow(), vec![None, Some(10), Some(11), Some(12)]);
}
