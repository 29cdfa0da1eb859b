//! How the firmware reports completed jobs.
use crate::buffer::FwVersion;
use crate::util::{low32, low_half};
use vstd::prelude::*;

verus! {

/// The fill of the buffer that newer firmware has in a notifier.
pub const NOTIFIER_BUF_FILL: u8 = 0xff;

/// The size of that buffer.
pub const NOTIFIER_BUF_SIZE: usize = 8;

/// Counts the jobs that a client waits for.
#[derive(Copy, Clone, Debug, PartialEq, Eq, Structural)]
pub struct Threshold(pub u64);

impl Threshold {
    /// One job more. The counter wraps around.
    pub fn increment(&mut self)
        ensures
            final(self).0 == (old(self).0 + 1) % 0x1_0000_0000_0000_0000,
    {
        self.0 = self.0.wrapping_add(1);
    }
}

/// A client as the firmware knows it. The fields that are zero are left out.
#[derive(Debug)]
pub struct Notifier {
    pub threshold: u64,
    pub generation: u32,
    pub cur_count: u32,
    pub unk_10: u32,
    /// Only newer firmware has this.
    pub unk_buf: Vec<u8>,
}

impl Notifier {
    /// The notifier of the client with an id, whose threshold lies at an address.
    pub fn new(version: FwVersion, threshold: u64, id: u64) -> (r: Notifier)
        ensures
            r.threshold == threshold,
            r.generation == low32(id),
            r.cur_count == 0,
            r.unk_10 == 0x50,
            r.unk_buf@ == if version == FwVersion::V13_0B4 {
                Seq::new(8, |i: int| 0xffu8)
            } else {
                Seq::empty()
            },
    {
        let mut unk_buf: Vec<u8> = Vec::new();
        match version {
            FwVersion::V12_3 => {},
            FwVersion::V13_0B4 => {
                while unk_buf.len() < NOTIFIER_BUF_SIZE
                    invariant
                        unk_buf@.len() <= NOTIFIER_BUF_SIZE,
                        unk_buf@ =~= Seq::new(unk_buf@.len(), |i: int| 0xffu8),
                    decreases NOTIFIER_BUF_SIZE - unk_buf@.len(),
                {
                    unk_buf.push(NOTIFIER_BUF_FILL);
                }
            },
        }
        Notifier { threshold, generation: low_half(id), cur_count: 0, unk_10: 0x50, unk_buf }
    }
}

/// The list that the notifiers of a client are on. The fields that are zero are left
/// out.
#[derive(Copy, Clone, Debug, PartialEq, Eq, Structural)]
pub struct NotifierList {
    pub next: u64,
}

impl NotifierList {
    /// A list at `address` that holds nothing: it points to its own head.
    pub fn new(address: u64, list_head_offset: u64) -> (r: NotifierList)
        requires
            address + list_head_offset <= u64::MAX,
        ensures
            r.next == address + list_head_offset,
    {
        NotifierList { next: address + list_head_offset }
    }
}

/// A new notifier watches the client's threshold, is told apart by the low half of the
/// client's id, and has seen nothing; newer firmware gets eight bytes of ones with it.
pub proof fn law_new_notifier(version: FwVersion, threshold: u64, id: u64, r: Notifier, i: int)
    requires
        call_ensures(Notifier::new, (version, threshold, id), r),
    ensures
        r.threshold == threshold,
        r.generation == id % 0x1_0000_0000,
        r.cur_count == 0,
        r.unk_10 == 0x50,
        version == FwVersion::V12_3 ==> r.unk_buf@.len() == 0,
        version == FwVersion::V13_0B4 ==> r.unk_buf@.len() == 8,
        0 <= i < r.unk_buf@.len() ==> r.unk_buf@[i] == 0xff,
{
}

/// A list that holds nothing leads back to its own head.
pub proof fn law_empty_list_leads_to_itself(address: u64, offset: u64, r: NotifierList)
    requires
        address + offset <= u64::MAX,
        call_ensures(NotifierList::new, (address, offset), r),
    ensures
        r.next - address == offset,
{
}

/// A threshold counts one job at a time.
pub proof fn law_threshold_counts(t: &mut Threshold)
    requires
        call_ensures(Threshold::increment, (t,), ()),
    ensures
        old(t).0 < u64::MAX ==> final(t).0 == old(t).0 + 1,
        old(t).0 == u64::MAX ==> final(t).0 == 0,
{
}

} // verus!
