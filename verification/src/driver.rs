//! The driver as the subsystem sees it.
use crate::drm::ioctl::{AUTH, RENDER_ALLOW};
use vstd::arithmetic::power2::{lemma_pow2_pos, pow2};
use vstd::bits::{lemma_u64_pow2_no_overflow, lemma_u64_shl_is_mul};
use vstd::prelude::*;

verus! {

/// What a client can ask for, in the order of the ioctl numbers.
#[derive(Copy, Clone, Debug, PartialEq, Eq, Structural)]
pub enum Request {
    GetParam,
    Submit,
    Wait,
    CreateBo,
    MmapBo,
    GetBoOffset,
}

/// Who may ask: every request can come from a render client, and all but the one for
/// parameters need authentication.
pub fn ioctl_flags(request: Request) -> (r: u32)
    ensures
        r == if request is GetParam {
            RENDER_ALLOW
        } else {
            AUTH | RENDER_ALLOW
        },
{
    match request {
        Request::GetParam => RENDER_ALLOW,
        Request::Submit | Request::Wait | Request::CreateBo | Request::MmapBo
        | Request::GetBoOffset => AUTH | RENDER_ALLOW,
    }
}

/// The addresses that the GPU can reach, as a mask, if it has `uat_oas` address lines.
pub fn dma_mask(uat_oas: u32) -> (r: u64)
    requires
        uat_oas < 64,
    ensures
        r == pow2(uat_oas as nat) - 1,
{
    proof {
        lemma_pow2_pos(uat_oas as nat);
        lemma_u64_pow2_no_overflow(uat_oas as nat);
        lemma_u64_shl_is_mul(1, uat_oas as u64);
    }
    (1u64 << (uat_oas as u64)) - 1
}

/// Every request is open to render clients, and all but the one for parameters to
/// authenticated ones only.
pub proof fn law_who_may_ask(request: Request, r: u32)
    requires
        call_ensures(ioctl_flags, (request,), r),
    ensures
        request is GetParam ==> r == RENDER_ALLOW,
        request !is GetParam ==> r == AUTH | RENDER_ALLOW,
        RENDER_ALLOW == 0x20,
        AUTH == 1,
{
}

/// One address line more doubles the addresses that the GPU can reach.
pub proof fn law_address_lines_double(uat_oas: u32, less: u64, more: u64)
    requires
        uat_oas < 63,
        call_ensures(dma_mask, (uat_oas,), less),
        call_ensures(dma_mask, ((uat_oas + 1) as u32,), more),
    ensures
        more + 1 == 2 * (less + 1),
        uat_oas == 0 ==> less == 0,
{
    vstd::arithmetic::power2::lemma_pow2_unfold((uat_oas + 1) as nat);
    vstd::arithmetic::power2::lemma2_to64();
}

} // verus!
