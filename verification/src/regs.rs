//! What the GPU's registers mean.
use crate::error::{Error, Result};
use crate::hw::{GpuGen, GpuIdConfig, GpuRevision, GpuVariant};
use crate::util::{low32, low_half};
use vstd::arithmetic::power2::{
    lemma2_to64, lemma_pow2_adds, lemma_pow2_pos, lemma_pow2_unfold, pow2,
};
use vstd::bits::{
    lemma_u64_low_bits_mask_is_mod, lemma_u64_pow2_no_overflow, lemma_u64_shl_is_mul,
    lemma_u64_shr_is_div, low_bits_mask,
};
use vstd::prelude::*;

verus! {

pub const ASC_CTL_SIZE: usize = 0x4000;

pub const SGX_SIZE: usize = 0x1000000;

pub const CPU_CONTROL: usize = 0x44;

/// The bit that starts the coprocessor.
pub const CPU_RUN: u32 = 0x10;

pub const FAULT_INFO: usize = 0x17030;

pub const ID_VERSION: usize = 0xd04000;

pub const ID_UNK08: usize = 0xd04008;

pub const ID_COUNTS_1: usize = 0xd04010;

pub const ID_COUNTS_2: usize = 0xd04014;

pub const ID_UNK18: usize = 0xd04018;

pub const ID_CLUSTERS: usize = 0xd0401c;

pub const CORE_MASK_0: usize = 0xd01500;

pub const CORE_MASK_1: usize = 0xd01514;

/// What to write to the control register to start the coprocessor, given what it holds.
pub fn start_cpu(control: u32) -> (r: u32)
    ensures
        r == control | CPU_RUN,
{
    control | CPU_RUN
}

/// The identification registers.
#[derive(Copy, Clone, Debug, PartialEq, Eq, Structural)]
pub struct IdRegisters {
    pub id_version: u32,
    pub id_counts_1: u32,
    pub id_counts_2: u32,
    pub id_unk18: u32,
    pub id_clusters: u32,
    pub core_mask_0: u32,
    pub core_mask_1: u32,
}

/// The bits of a number that are set.
pub open spec fn popcount(x: nat) -> nat
    decreases x,
{
    if x == 0 {
        0
    } else {
        x % 2 + popcount(x / 2)
    }
}

proof fn lemma_popcount_bound(x: nat, n: nat)
    requires
        x < pow2(n),
    ensures
        popcount(x) <= n,
    decreases n,
{
    lemma2_to64();
    if n == 0 {
    } else if x > 0 {
        lemma_pow2_unfold(n);
        lemma_popcount_bound(x / 2, (n - 1) as nat);
    }
}

fn count_ones(x: u64) -> (r: u32)
    ensures
        r == popcount(x as nat),
        r <= 64,
{
    let mut rest: u64 = x;
    let mut count: u32 = 0;
    proof {
        lemma2_to64();
        lemma_popcount_bound(x as nat, 64);
    }
    while rest != 0
        invariant
            count + popcount(rest as nat) == popcount(x as nat),
            popcount(x as nat) <= 64,
        decreases rest,
    {
        count = count + (rest % 2) as u32;
        rest = rest / 2;
    }
    count
}

/// The fields of the identification registers.
proof fn lemma_byte_fields(x: u32)
    ensures
        x & 0xff == x % 0x100,
        (x >> 8) & 0xff == x / 0x100 % 0x100,
        (x >> 12) & 0xff == x / 0x1000 % 0x100,
        (x >> 16) & 0xff == x / 0x1_0000 % 0x100,
        (x >> 24) & 0xff == x / 0x100_0000 % 0x100,
        (x >> 20) & 0xf == x / 0x10_0000 % 0x10,
{
    assert(x & 0xff == x % 0x100 && (x >> 8) & 0xff == x / 0x100 % 0x100 && (x >> 12) & 0xff == x
        / 0x1000 % 0x100 && (x >> 16) & 0xff == x / 0x1_0000 % 0x100 && (x >> 24) & 0xff == x
        / 0x100_0000 % 0x100 && (x >> 20) & 0xf == x / 0x10_0000 % 0x10) by (bit_vector);
}

impl IdRegisters {
    pub open spec fn num_clusters(self) -> u32 {
        self.id_clusters / 0x1000 % 0x100
    }

    pub open spec fn num_cores(self) -> u32 {
        self.id_counts_1 % 0x100
    }

    pub open spec fn too_many(self) -> bool {
        self.num_cores() * self.num_clusters() > 64
    }

    pub open spec fn core_mask(self) -> nat {
        (self.core_mask_0 + 0x1_0000_0000 * self.core_mask_1) as nat
    }

    /// What is left of the mask after the cores of `i` clusters.
    pub open spec fn rest(self, i: int) -> nat
        decreases i,
    {
        if i <= 0 {
            self.core_mask()
        } else {
            self.rest(i - 1) / pow2(self.num_cores() as nat)
        }
    }

    /// The mask of a cluster.
    pub open spec fn mask(self, i: int) -> nat {
        self.rest(i) % pow2(self.num_cores() as nat)
    }

    /// The working cores of the first `n` clusters.
    pub open spec fn active(self, n: int) -> nat
        decreases n,
    {
        if n <= 0 {
            0
        } else {
            self.active(n - 1) + popcount(self.mask(n - 1))
        }
    }

    pub open spec fn gpu_gen(self) -> Option<GpuGen> {
        let code = self.id_version / 0x100_0000 % 0x100;
        if code == 4 {
            Some(GpuGen::G13)
        } else if code == 5 {
            Some(GpuGen::G14)
        } else {
            None
        }
    }

    pub open spec fn gpu_variant(self) -> Option<GpuVariant> {
        let code = self.id_version / 0x1_0000 % 0x100;
        if code == 1 {
            Some(GpuVariant::P)
        } else if code == 2 {
            Some(GpuVariant::G)
        } else if code == 3 {
            Some(GpuVariant::S)
        } else if code == 4 && self.num_clusters() > 4 {
            Some(GpuVariant::D)
        } else if code == 4 {
            Some(GpuVariant::C)
        } else {
            None
        }
    }

    pub open spec fn gpu_rev(self) -> Option<GpuRevision> {
        let code = self.id_unk18 / 0x100 % 0x100;
        if code == 0 {
            Some(GpuRevision::A0)
        } else if code == 1 {
            Some(GpuRevision::A1)
        } else if code == 2 {
            Some(GpuRevision::B0)
        } else if code == 3 {
            Some(GpuRevision::B1)
        } else if code == 4 {
            Some(GpuRevision::C0)
        } else if code == 5 {
            Some(GpuRevision::C1)
        } else {
            None
        }
    }

    /// The words that hold the mask: the second only if it is needed.
    pub open spec fn packed(self) -> Seq<u32> {
        if self.core_mask_1 != 0 {
            seq![self.core_mask_0, self.core_mask_1]
        } else {
            seq![self.core_mask_0]
        }
    }

    /// What the registers say, if they make sense.
    pub open spec fn config_is(self, r: Result<GpuIdConfig>) -> bool {
        if self.too_many() {
            r == Err::<GpuIdConfig, Error>(Error::ENODEV)
        } else if self.rest(self.num_clusters() as int) != 0 {
            r == Err::<GpuIdConfig, Error>(Error::EIO)
        } else if self.gpu_gen() is None || self.gpu_variant() is None || self.gpu_rev() is None {
            r == Err::<GpuIdConfig, Error>(Error::ENODEV)
        } else {
            &&& r is Ok
            &&& r->Ok_0.gpu_gen == self.gpu_gen()->0
            &&& r->Ok_0.gpu_variant == self.gpu_variant()->0
            &&& r->Ok_0.gpu_rev == self.gpu_rev()->0
            &&& r->Ok_0.max_dies == self.id_clusters / 0x10_0000 % 0x10
            &&& r->Ok_0.num_clusters == self.num_clusters()
            &&& r->Ok_0.num_cores == self.num_cores()
            &&& r->Ok_0.num_active_cores == self.active(self.num_clusters() as int)
            &&& r->Ok_0.num_frags == self.id_counts_1 / 0x100 % 0x100
            &&& r->Ok_0.num_gps == self.id_counts_2 / 0x1_0000 % 0x100
            &&& r->Ok_0.core_masks@ == Seq::new(
                self.num_clusters() as nat,
                |i: int| low32(self.mask(i) as u64),
            )
            &&& r->Ok_0.core_masks_packed@ == self.packed()
        }
    }

    /// What the registers say of the GPU. A mask of more cores than the counts allow is
    /// an error, and so are a generation, variant or revision that the driver does not
    /// know, or more cores than a mask has bits.
    pub fn get_gpu_id(&self) -> (r: Result<GpuIdConfig>)
        requires
            self.too_many() || self.num_cores() < 64,
        ensures
            self.config_is(r),
    {
        let core_mask_0: u32 = self.core_mask_0;
        let core_mask_1: u32 = self.core_mask_1;
        let id_clusters: u32 = self.id_clusters;
        let id_counts_1: u32 = self.id_counts_1;
        let id_counts_2: u32 = self.id_counts_2;
        let id_version: u32 = self.id_version;
        let id_unk18: u32 = self.id_unk18;
        proof {
            assert((core_mask_0 as u64) | ((core_mask_1 as u64) << 32) == core_mask_0
                + 0x1_0000_0000 * core_mask_1) by (bit_vector);
            lemma_byte_fields(id_clusters);
            lemma_byte_fields(id_counts_1);
            lemma_byte_fields(id_counts_2);
            lemma_byte_fields(id_version);
            lemma_byte_fields(id_unk18);
        }
        let mut core_mask: u64 = (core_mask_0 as u64) | ((core_mask_1 as u64) << 32);
        let num_clusters: u32 = (id_clusters >> 12) & 0xff;
        let num_cores: u32 = id_counts_1 & 0xff;
        assert(num_cores * num_clusters <= 0xff * 0xff) by (nonlinear_arith)
            requires
                num_cores <= 0xff,
                num_clusters <= 0xff,
        ;
        if num_cores * num_clusters > 64 {
            return Err(Error::ENODEV);
        }
        let mut core_masks: Vec<u32> = Vec::new();
        let mut num_active_cores: u32 = 0;
        proof {
            lemma2_to64();
            lemma_pow2_pos(num_cores as nat);
            lemma_u64_pow2_no_overflow(num_cores as nat);
            lemma_u64_shl_is_mul(1, num_cores as u64);
        }
        let max_core_mask: u64 = (1u64 << (num_cores as u64)) - 1;
        let mut i: u32 = 0;
        while i < num_clusters
            invariant
                i <= num_clusters <= 0xff,
                num_clusters == self.num_clusters(),
                num_cores == self.num_cores(),
                num_cores < 64,
                max_core_mask == low_bits_mask(num_cores as nat),
                core_mask == self.rest(i as int),
                num_active_cores == self.active(i as int),
                num_active_cores <= 64 * i,
                core_masks@ =~= Seq::new(
                    i as nat,
                    |i: int| low32(self.mask(i) as u64),
                ),
            decreases num_clusters - i,
        {
            let mask: u64 = core_mask & max_core_mask;
            proof {
                lemma_u64_pow2_no_overflow(num_cores as nat);
                lemma_u64_low_bits_mask_is_mod(core_mask, num_cores as nat);
                lemma_u64_shr_is_div(core_mask, num_cores as u64);
                assert(mask == self.mask(i as int));
            }
            core_masks.push(low_half(mask));
            core_mask = core_mask >> (num_cores as u64);
            num_active_cores = num_active_cores + count_ones(mask);
            i = i + 1;
        }
        let mut core_masks_packed: Vec<u32> = Vec::new();
        core_masks_packed.push(core_mask_0);
        if core_mask_1 != 0 {
            core_masks_packed.push(core_mask_1);
        }
        assert(core_masks_packed@ =~= self.packed());
        if core_mask != 0 {
            return Err(Error::EIO);
        }
        let gpu_gen = match (id_version >> 24) & 0xff {
            4 => GpuGen::G13,
            5 => GpuGen::G14,
            _ => {
                return Err(Error::ENODEV);
            },
        };
        let gpu_variant = match (id_version >> 16) & 0xff {
            1 => GpuVariant::P,
            2 => GpuVariant::G,
            3 => GpuVariant::S,
            4 => if num_clusters > 4 {
                GpuVariant::D
            } else {
                GpuVariant::C
            },
            _ => {
                return Err(Error::ENODEV);
            },
        };
        let gpu_rev = match (id_unk18 >> 8) & 0xff {
            0 => GpuRevision::A0,
            1 => GpuRevision::A1,
            2 => GpuRevision::B0,
            3 => GpuRevision::B1,
            4 => GpuRevision::C0,
            5 => GpuRevision::C1,
            _ => {
                return Err(Error::ENODEV);
            },
        };
        Ok(
            GpuIdConfig {
                gpu_gen,
                gpu_variant,
                gpu_rev,
                max_dies: (id_clusters >> 20) & 0xf,
                num_clusters,
                num_cores,
                num_active_cores,
                num_frags: (id_counts_1 >> 8) & 0xff,
                num_gps: (id_counts_2 >> 16) & 0xff,
                core_masks,
                core_masks_packed,
            },
        )
    }
}

/// What cutting off one more cluster does.
proof fn lemma_cut_cluster(regs: IdRegisters, n: int)
    requires
        0 <= n,
    ensures
        regs.rest(n) == regs.rest(n + 1) * pow2(regs.num_cores() as nat) + regs.mask(n),
        regs.mask(n) < pow2(regs.num_cores() as nat),
{
    lemma_pow2_pos(regs.num_cores() as nat);
    vstd::arithmetic::div_mod::lemma_fundamental_div_mod(
        regs.rest(n) as int,
        pow2(regs.num_cores() as nat) as int,
    );
    vstd::arithmetic::div_mod::lemma_mod_bound(
        regs.rest(n) as int,
        pow2(regs.num_cores() as nat) as int,
    );
    vstd::arithmetic::mul::lemma_mul_is_commutative(
        regs.rest(n + 1) as int,
        pow2(regs.num_cores() as nat) as int,
    );
}

/// The masks of the first `n` clusters, put together.
pub open spec fn joined(regs: IdRegisters, n: int) -> nat
    decreases n,
{
    if n <= 0 {
        0
    } else {
        joined(regs, n - 1) + regs.mask(n - 1) * pow2((regs.num_cores() * (n - 1)) as nat)
    }
}

/// The masks of the clusters and what is left over, put together, give the core mask.
proof fn lemma_joined(regs: IdRegisters, n: int)
    requires
        0 <= n,
    ensures
        regs.core_mask() == regs.rest(n) * pow2((regs.num_cores() * n) as nat) + joined(regs, n),
    decreases n,
{
    let c = regs.num_cores() as int;
    lemma2_to64();
    if n == 0 {
        assert(pow2((c * n) as nat) == 1);
        assert(regs.rest(n) * 1 == regs.rest(n));
    } else {
        lemma_joined(regs, n - 1);
        lemma_cut_cluster(regs, n - 1);
        assert(c * n == c + c * (n - 1) && c * (n - 1) >= 0) by (nonlinear_arith)
            requires
                c >= 0,
                n >= 1,
        ;
        let low = pow2((c * (n - 1)) as nat) as int;
        let step = pow2(c as nat) as int;
        lemma_pow2_adds(c as nat, (c * (n - 1)) as nat);
        let rest = regs.rest(n) as int;
        let mask = regs.mask(n - 1) as int;
        assert((rest * step + mask) * low == rest * (step * low) + mask * low) by (nonlinear_arith);
        assert(pow2((c * n) as nat) == step * low);
    }
}

/// The masks of the clusters tell the same as the core mask of a GPU that is accepted:
/// put together they give it back.
pub proof fn law_cluster_masks_make_up_the_core_mask(regs: IdRegisters)
    requires
        regs.rest(regs.num_clusters() as int) == 0,
    ensures
        joined(regs, regs.num_clusters() as int) == regs.core_mask(),
{
    lemma_joined(regs, regs.num_clusters() as int);
}

/// The bits that are set in a number are those of its two parts.
proof fn lemma_popcount_joined(high: nat, low: nat, n: nat)
    requires
        low < pow2(n),
    ensures
        popcount(high * pow2(n) + low) == popcount(high) + popcount(low),
    decreases n,
{
    lemma2_to64();
    if n == 0 {
        assert(high * 1 == high);
    } else {
        lemma_pow2_unfold(n);
        let half = pow2((n - 1) as nat);
        assert(high * (2 * half) == 2 * (high * half)) by (nonlinear_arith);
        lemma_popcount_joined(high, low / 2, (n - 1) as nat);
        let x = high * pow2(n) + low;
        assert(x / 2 == high * half + low / 2);
        assert(x % 2 == low % 2);
        if x == 0 {
            assert(high * half + low / 2 == 0);
        }
    }
}

/// The working cores of all clusters are the bits of the core mask of a GPU that is
/// accepted.
pub proof fn law_active_cores_are_the_bits_of_the_mask(regs: IdRegisters)
    requires
        regs.rest(regs.num_clusters() as int) == 0,
    ensures
        regs.active(regs.num_clusters() as int) == popcount(regs.core_mask()),
{
    lemma_active(regs, regs.num_clusters() as int);
}

proof fn lemma_active(regs: IdRegisters, n: int)
    requires
        0 <= n,
    ensures
        popcount(regs.core_mask()) == popcount(regs.rest(n)) + regs.active(n),
    decreases n,
{
    if n > 0 {
        lemma_active(regs, n - 1);
        lemma_cut_cluster(regs, n - 1);
        lemma_popcount_joined(regs.rest(n), regs.mask(n - 1), regs.num_cores() as nat);
    }
}

/// No cluster has more working cores than cores.
pub proof fn law_active_cores_are_cores(regs: IdRegisters, n: int)
    requires
        0 <= n,
    ensures
        regs.active(n) <= n * regs.num_cores(),
    decreases n,
{
    if n > 0 {
        law_active_cores_are_cores(regs, n - 1);
        lemma_cut_cluster(regs, n - 1);
        lemma_popcount_bound(regs.mask(n - 1), regs.num_cores() as nat);
        assert((n - 1) * regs.num_cores() + regs.num_cores() == n * regs.num_cores())
            by (nonlinear_arith);
    }
}

/// The part of the GPU that a fault comes from.
#[derive(Copy, Clone, Debug, PartialEq, Eq, Structural)]
pub enum FaultUnit {
    DCMP(u8),
    UL1C(u8),
    CMP(u8),
    GSL1(u8),
    IAP(u8),
    VCE(u8),
    TE(u8),
    RAS(u8),
    VDM(u8),
    PPP(u8),
    IPF(u8),
    IPF_CPF(u8),
    VF(u8),
    VF_CPF(u8),
    ZL(u8),
    dPM,
    dCDM_KS(u8),
    dIPP,
    dIPP_CS,
    dVDM_CSD,
    dVDM_SSD,
    dVDM_ILF,
    dVDM_ILD,
    dRDE(u8),
    FC,
    GSL2,
    GL2CC_META(u8),
    GL2CC_MB,
    gPM_SP(u8),
    gVDM_CSD_SP(u8),
    gVDM_SSD_SP(u8),
    gVDM_ILF_SP(u8),
    gVDM_TFP_SP(u8),
    gVDM_MMB_SP(u8),
    gCDM_CS_KS0_SP(u8),
    gCDM_CS_KS1_SP(u8),
    gCDM_CS_KS2_SP(u8),
    gCDM_KS0_SP(u8),
    gCDM_KS1_SP(u8),
    gCDM_KS2_SP(u8),
    gIPP_SP(u8),
    gIPP_CS_SP(u8),
    gRDE0_SP(u8),
    gRDE1_SP(u8),
    Unknown(u8),
}

/// Why a memory access failed.
#[derive(Copy, Clone, Debug, PartialEq, Eq, Structural)]
pub enum FaultReason {
    Unmapped,
    AfFault,
    WriteOnly,
    ReadOnly,
    NoAccess,
    Unknown(u8),
}

/// A failed memory access.
#[derive(Copy, Clone, Debug, PartialEq, Eq, Structural)]
pub struct FaultInfo {
    pub address: u64,
    pub write: bool,
    pub vm_slot: u32,
    pub unit: FaultUnit,
    pub unk_8: bool,
    pub reason: FaultReason,
}

/// The units that each cluster has, by the low half of their code; the high half is the
/// cluster.
pub open spec fn cluster_unit(kind: u8, index: u8) -> Option<FaultUnit> {
    match kind {
        0x0 => Some(FaultUnit::DCMP(index)),
        0x1 => Some(FaultUnit::UL1C(index)),
        0x2 => Some(FaultUnit::CMP(index)),
        0x3 => Some(FaultUnit::GSL1(index)),
        0x4 => Some(FaultUnit::IAP(index)),
        0x5 => Some(FaultUnit::VCE(index)),
        0x6 => Some(FaultUnit::TE(index)),
        0x7 => Some(FaultUnit::RAS(index)),
        0x8 => Some(FaultUnit::VDM(index)),
        0x9 => Some(FaultUnit::PPP(index)),
        0xa => Some(FaultUnit::IPF(index)),
        0xb => Some(FaultUnit::IPF_CPF(index)),
        0xc => Some(FaultUnit::VF(index)),
        0xd => Some(FaultUnit::VF_CPF(index)),
        0xe => Some(FaultUnit::VF_CPF(index)),
        _ => None,
    }
}

/// The units that exist once.
pub open spec fn single_unit(code: u8) -> Option<FaultUnit> {
    match code {
        0xa1 => Some(FaultUnit::dPM),
        0xa2 => Some(FaultUnit::dCDM_KS(0)),
        0xa3 => Some(FaultUnit::dCDM_KS(1)),
        0xa4 => Some(FaultUnit::dCDM_KS(2)),
        0xa5 => Some(FaultUnit::dIPP),
        0xa6 => Some(FaultUnit::dIPP_CS),
        0xa7 => Some(FaultUnit::dVDM_CSD),
        0xa8 => Some(FaultUnit::dVDM_SSD),
        0xa9 => Some(FaultUnit::dVDM_ILF),
        0xaa => Some(FaultUnit::dVDM_ILD),
        0xab => Some(FaultUnit::dRDE(0)),
        0xac => Some(FaultUnit::dRDE(1)),
        0xad => Some(FaultUnit::FC),
        0xae => Some(FaultUnit::GSL2),
        0xb8 => Some(FaultUnit::GL2CC_MB),
        _ => None,
    }
}

/// The units that exist twice, by the low half of their code; the lowest bit of the high
/// half tells which.
pub open spec fn paired_unit(kind: u8, index: u8) -> FaultUnit {
    match kind {
        0x0 => FaultUnit::gPM_SP(index),
        0x1 => FaultUnit::gVDM_CSD_SP(index),
        0x2 => FaultUnit::gVDM_SSD_SP(index),
        0x3 => FaultUnit::gVDM_ILF_SP(index),
        0x4 => FaultUnit::gVDM_TFP_SP(index),
        0x5 => FaultUnit::gVDM_MMB_SP(index),
        0x6 => FaultUnit::gCDM_CS_KS0_SP(index),
        0x7 => FaultUnit::gCDM_CS_KS1_SP(index),
        0x8 => FaultUnit::gCDM_CS_KS2_SP(index),
        0x9 => FaultUnit::gCDM_KS0_SP(index),
        0xa => FaultUnit::gCDM_KS1_SP(index),
        0xb => FaultUnit::gCDM_KS2_SP(index),
        0xc => FaultUnit::gIPP_SP(index),
        0xd => FaultUnit::gIPP_CS_SP(index),
        0xe => FaultUnit::gRDE0_SP(index),
        _ => FaultUnit::gRDE1_SP(index),
    }
}

/// The unit that a code stands for.
pub open spec fn unit_of(code: u8) -> FaultUnit {
    let known = if code < 0xa0 {
        cluster_unit(code % 0x10, code / 0x10)
    } else if 0xb0 <= code < 0xb8 {
        Some(FaultUnit::GL2CC_META(code % 0x10))
    } else if code >= 0xe0 {
        Some(paired_unit(code % 0x10, code / 0x10 % 2))
    } else {
        single_unit(code)
    };
    match known {
        Some(unit) => unit,
        None => FaultUnit::Unknown(code),
    }
}

fn decode_unit(code: u8) -> (r: FaultUnit)
    ensures
        r == unit_of(code),
{
    proof {
        assert(code & 0xf == code % 0x10 && code >> 4 == code / 0x10 && (code >> 4) & 1 == code
            / 0x10 % 2) by (bit_vector);
    }
    let low: u8 = code & 0xf;
    let high: u8 = code >> 4;
    let odd: u8 = (code >> 4) & 1;
    if code < 0xa0 {
        match low {
            0x0 => FaultUnit::DCMP(high),
            0x1 => FaultUnit::UL1C(high),
            0x2 => FaultUnit::CMP(high),
            0x3 => FaultUnit::GSL1(high),
            0x4 => FaultUnit::IAP(high),
            0x5 => FaultUnit::VCE(high),
            0x6 => FaultUnit::TE(high),
            0x7 => FaultUnit::RAS(high),
            0x8 => FaultUnit::VDM(high),
            0x9 => FaultUnit::PPP(high),
            0xa => FaultUnit::IPF(high),
            0xb => FaultUnit::IPF_CPF(high),
            0xc => FaultUnit::VF(high),
            0xd => FaultUnit::VF_CPF(high),
            0xe => FaultUnit::VF_CPF(high),
            _ => FaultUnit::Unknown(code),
        }
    } else if code >= 0xe0 {
        match low {
            0x0 => FaultUnit::gPM_SP(odd),
            0x1 => FaultUnit::gVDM_CSD_SP(odd),
            0x2 => FaultUnit::gVDM_SSD_SP(odd),
            0x3 => FaultUnit::gVDM_ILF_SP(odd),
            0x4 => FaultUnit::gVDM_TFP_SP(odd),
            0x5 => FaultUnit::gVDM_MMB_SP(odd),
            0x6 => FaultUnit::gCDM_CS_KS0_SP(odd),
            0x7 => FaultUnit::gCDM_CS_KS1_SP(odd),
            0x8 => FaultUnit::gCDM_CS_KS2_SP(odd),
            0x9 => FaultUnit::gCDM_KS0_SP(odd),
            0xa => FaultUnit::gCDM_KS1_SP(odd),
            0xb => FaultUnit::gCDM_KS2_SP(odd),
            0xc => FaultUnit::gIPP_SP(odd),
            0xd => FaultUnit::gIPP_CS_SP(odd),
            0xe => FaultUnit::gRDE0_SP(odd),
            _ => FaultUnit::gRDE1_SP(odd),
        }
    } else if 0xb0 <= code && code < 0xb8 {
        FaultUnit::GL2CC_META(low)
    } else {
        match code {
            0xa1 => FaultUnit::dPM,
            0xa2 => FaultUnit::dCDM_KS(0),
            0xa3 => FaultUnit::dCDM_KS(1),
            0xa4 => FaultUnit::dCDM_KS(2),
            0xa5 => FaultUnit::dIPP,
            0xa6 => FaultUnit::dIPP_CS,
            0xa7 => FaultUnit::dVDM_CSD,
            0xa8 => FaultUnit::dVDM_SSD,
            0xa9 => FaultUnit::dVDM_ILF,
            0xaa => FaultUnit::dVDM_ILD,
            0xab => FaultUnit::dRDE(0),
            0xac => FaultUnit::dRDE(1),
            0xad => FaultUnit::FC,
            0xae => FaultUnit::GSL2,
            0xb8 => FaultUnit::GL2CC_MB,
            _ => FaultUnit::Unknown(code),
        }
    }
}

/// The reason that a code stands for.
pub open spec fn reason_of(code: u8) -> FaultReason {
    match code {
        0 => FaultReason::Unmapped,
        1 => FaultReason::AfFault,
        2 => FaultReason::WriteOnly,
        3 => FaultReason::ReadOnly,
        4 => FaultReason::NoAccess,
        _ => FaultReason::Unknown(code),
    }
}

/// What the fault register says: there is no fault unless its lowest bit is set.
pub open spec fn fault_info_of(fault_info: u64) -> Option<FaultInfo> {
    if fault_info % 2 == 0 {
        None
    } else {
        Some(
            FaultInfo {
                address: fault_info / 0x100_0000,
                write: fault_info / 0x80_0000 % 2 == 1,
                vm_slot: (fault_info / 0x2_0000 % 0x40) as u32,
                unit: unit_of((fault_info / 0x200 % 0x100) as u8),
                unk_8: fault_info / 0x100 % 2 == 1,
                reason: reason_of((fault_info / 2 % 8) as u8),
            },
        )
    }
}

/// Decodes the fault register.
pub fn get_fault_info(fault_info: u64) -> (r: Option<FaultInfo>)
    ensures
        r == fault_info_of(fault_info),
{
    let f: u64 = fault_info;
    proof {
        assert((f & 1 == 0) == (f % 2 == 0) && (f >> 9) & 0xff == f / 0x200 % 0x100 && (f >> 1)
            & 0x7 == f / 2 % 8 && f >> 24 == f / 0x100_0000 && (f >> 17) & 0x3f == f / 0x2_0000
            % 0x40 && (f & (1u64 << 23) != 0) == (f / 0x80_0000 % 2 == 1) && (f & (1u64 << 8) != 0)
            == (f / 0x100 % 2 == 1)) by (bit_vector);
    }
    if f & 1 == 0 {
        return None;
    }
    let unit_code: u8 = ((f >> 9) & 0xff) as u8;
    let unit = decode_unit(unit_code);
    let reason_code: u8 = ((f >> 1) & 0x7) as u8;
    let reason = match reason_code {
        0 => FaultReason::Unmapped,
        1 => FaultReason::AfFault,
        2 => FaultReason::WriteOnly,
        3 => FaultReason::ReadOnly,
        4 => FaultReason::NoAccess,
        _ => FaultReason::Unknown(reason_code),
    };
    Some(
        FaultInfo {
            address: f >> 24,
            write: f & (1u64 << 23) != 0,
            vm_slot: ((f >> 17) & 0x3f) as u32,
            unit,
            unk_8: f & (1u64 << 8) != 0,
            reason,
        },
    )
}

/// Whether a code stands for a unit. Units that each cluster has carry the cluster in the
/// upper half of the code, those that exist twice carry which of the two it is.
pub open spec fn unit_has_code(unit: FaultUnit, code: int) -> bool {
    match unit {
        FaultUnit::DCMP(i) => i < 0xa && code == 0x10 * i,
        FaultUnit::UL1C(i) => i < 0xa && code == 0x10 * i + 1,
        FaultUnit::CMP(i) => i < 0xa && code == 0x10 * i + 2,
        FaultUnit::GSL1(i) => i < 0xa && code == 0x10 * i + 3,
        FaultUnit::IAP(i) => i < 0xa && code == 0x10 * i + 4,
        FaultUnit::VCE(i) => i < 0xa && code == 0x10 * i + 5,
        FaultUnit::TE(i) => i < 0xa && code == 0x10 * i + 6,
        FaultUnit::RAS(i) => i < 0xa && code == 0x10 * i + 7,
        FaultUnit::VDM(i) => i < 0xa && code == 0x10 * i + 8,
        FaultUnit::PPP(i) => i < 0xa && code == 0x10 * i + 9,
        FaultUnit::IPF(i) => i < 0xa && code == 0x10 * i + 0xa,
        FaultUnit::IPF_CPF(i) => i < 0xa && code == 0x10 * i + 0xb,
        FaultUnit::VF(i) => i < 0xa && code == 0x10 * i + 0xc,
        FaultUnit::VF_CPF(i) => i < 0xa && (code == 0x10 * i + 0xd || code == 0x10 * i + 0xe),
        FaultUnit::ZL(_) => false,
        FaultUnit::dPM => code == 0xa1,
        FaultUnit::dCDM_KS(i) => i < 3 && code == 0xa2 + i,
        FaultUnit::dIPP => code == 0xa5,
        FaultUnit::dIPP_CS => code == 0xa6,
        FaultUnit::dVDM_CSD => code == 0xa7,
        FaultUnit::dVDM_SSD => code == 0xa8,
        FaultUnit::dVDM_ILF => code == 0xa9,
        FaultUnit::dVDM_ILD => code == 0xaa,
        FaultUnit::dRDE(i) => i < 2 && code == 0xab + i,
        FaultUnit::FC => code == 0xad,
        FaultUnit::GSL2 => code == 0xae,
        FaultUnit::GL2CC_META(i) => i < 8 && code == 0xb0 + i,
        FaultUnit::GL2CC_MB => code == 0xb8,
        FaultUnit::gPM_SP(i) => i < 2 && code == 0xe0 + 0x10 * i,
        FaultUnit::gVDM_CSD_SP(i) => i < 2 && code == 0xe1 + 0x10 * i,
        FaultUnit::gVDM_SSD_SP(i) => i < 2 && code == 0xe2 + 0x10 * i,
        FaultUnit::gVDM_ILF_SP(i) => i < 2 && code == 0xe3 + 0x10 * i,
        FaultUnit::gVDM_TFP_SP(i) => i < 2 && code == 0xe4 + 0x10 * i,
        FaultUnit::gVDM_MMB_SP(i) => i < 2 && code == 0xe5 + 0x10 * i,
        FaultUnit::gCDM_CS_KS0_SP(i) => i < 2 && code == 0xe6 + 0x10 * i,
        FaultUnit::gCDM_CS_KS1_SP(i) => i < 2 && code == 0xe7 + 0x10 * i,
        FaultUnit::gCDM_CS_KS2_SP(i) => i < 2 && code == 0xe8 + 0x10 * i,
        FaultUnit::gCDM_KS0_SP(i) => i < 2 && code == 0xe9 + 0x10 * i,
        FaultUnit::gCDM_KS1_SP(i) => i < 2 && code == 0xea + 0x10 * i,
        FaultUnit::gCDM_KS2_SP(i) => i < 2 && code == 0xeb + 0x10 * i,
        FaultUnit::gIPP_SP(i) => i < 2 && code == 0xec + 0x10 * i,
        FaultUnit::gIPP_CS_SP(i) => i < 2 && code == 0xed + 0x10 * i,
        FaultUnit::gRDE0_SP(i) => i < 2 && code == 0xee + 0x10 * i,
        FaultUnit::gRDE1_SP(i) => i < 2 && code == 0xef + 0x10 * i,
        FaultUnit::Unknown(c) => code == c && {
            ||| c < 0xa0 && c % 0x10 == 0xf
            ||| c == 0xa0
            ||| c == 0xaf
            ||| 0xb9 <= c < 0xe0
        },
    }
}

/// Whether a code stands for a reason.
pub open spec fn reason_has_code(reason: FaultReason, code: int) -> bool {
    match reason {
        FaultReason::Unmapped => code == 0,
        FaultReason::AfFault => code == 1,
        FaultReason::WriteOnly => code == 2,
        FaultReason::ReadOnly => code == 3,
        FaultReason::NoAccess => code == 4,
        FaultReason::Unknown(c) => code == c && 5 <= c < 8,
    }
}

/// A reported fault gives the register back: put together again, its address, its slot, its
/// unit, its reason and whether it was a write make up all of the register but the four
/// bits that tell nothing. There is a report exactly if the lowest bit is set.
pub proof fn law_fault_report_gives_the_register_back(fault_info: u64, r: Option<FaultInfo>)
    requires
        call_ensures(get_fault_info, (fault_info,), r),
    ensures
        r is Some <==> fault_info % 2 == 1,
        r matches Some(info) ==> ({
            let unit = fault_info / 0x200 % 0x100;
            let reason = fault_info / 2 % 8;
            let nothing = fault_info / 0x10 % 0x10;
            &&& unit_has_code(info.unit, unit as int)
            &&& reason_has_code(info.reason, reason as int)
            &&& info.vm_slot < 0x40
            &&& fault_info == 1 + 2 * reason + 0x10 * nothing + (if info.unk_8 {
                0x100int
            } else {
                0
            }) + 0x200 * unit + 0x2_0000 * info.vm_slot + (if info.write {
                0x80_0000int
            } else {
                0
            }) + 0x100_0000 * info.address
        }),
{
    if fault_info % 2 == 1 {
        lemma_unit_has_its_code((fault_info / 0x200 % 0x100) as u8);
        lemma_reason_has_its_code((fault_info / 2 % 8) as u8);
        lemma_register_parts(fault_info as int);
    }
}

proof fn lemma_register_parts(f: int)
    requires
        0 <= f,
    ensures
        f == f % 2 + 2 * (f / 2 % 8) + 0x10 * (f / 0x10 % 0x10) + 0x100 * (f / 0x100 % 2) + 0x200
            * (f / 0x200 % 0x100) + 0x2_0000 * (f / 0x2_0000 % 0x40) + 0x80_0000 * (f / 0x80_0000
            % 2) + 0x100_0000 * (f / 0x100_0000),
{
    assert(f / 2 == 8 * (f / 0x10) + f / 2 % 8);
    assert(f / 0x10 == 0x10 * (f / 0x100) + f / 0x10 % 0x10);
    assert(f / 0x100 == 2 * (f / 0x200) + f / 0x100 % 2);
    assert(f / 0x200 == 0x100 * (f / 0x2_0000) + f / 0x200 % 0x100);
    assert(f / 0x2_0000 == 0x40 * (f / 0x80_0000) + f / 0x2_0000 % 0x40);
    assert(f / 0x80_0000 == 2 * (f / 0x100_0000) + f / 0x80_0000 % 2);
}

proof fn lemma_reason_has_its_code(code: u8)
    requires
        code < 8,
    ensures
        reason_has_code(reason_of(code), code as int),
{
}

proof fn lemma_unit_has_its_code(code: u8)
    ensures
        unit_has_code(unit_of(code), code as int),
{
}

/// The masks of the first `n` clusters, put together again.
pub open spec fn masks_joined(masks: Seq<u32>, num_cores: nat, n: int) -> nat
    decreases n,
{
    if n <= 0 {
        0
    } else {
        masks_joined(masks, num_cores, n - 1) + (masks[n - 1] as nat) * pow2(
            (num_cores * (n - 1)) as nat,
        )
    }
}

proof fn lemma_masks_joined(regs: IdRegisters, masks: Seq<u32>, n: int)
    requires
        regs.num_cores() <= 32,
        0 <= n <= masks.len(),
        forall|i: int| 0 <= i < n ==> #[trigger] masks[i] == low32(regs.mask(i) as u64),
    ensures
        masks_joined(masks, regs.num_cores() as nat, n) == joined(regs, n),
    decreases n,
{
    if n > 0 {
        lemma_masks_joined(regs, masks, n - 1);
        lemma_cut_cluster(regs, n - 1);
        lemma2_to64();
        if regs.num_cores() < 32 {
            vstd::arithmetic::power2::lemma_pow2_strictly_increases(regs.num_cores() as nat, 32);
        }
        assert(masks[n - 1] == regs.mask(n - 1));
    }
}

/// What the driver takes a GPU for gives the identification registers back: the generation,
/// variant and revision have their codes, the counts stand in their fields, and the masks
/// of the clusters, put together, are the two mask registers, whose bits are the working
/// cores.
pub proof fn law_identification_gives_the_registers_back(regs: IdRegisters, r: Result<GpuIdConfig>)
    requires
        regs.too_many() || regs.num_cores() < 64,
        call_ensures(IdRegisters::get_gpu_id, (&regs,), r),
    ensures
        r matches Ok(c) ==> {
            &&& c.num_cores + 0x100 * c.num_frags == regs.id_counts_1 % 0x1_0000
            &&& c.num_gps == regs.id_counts_2 / 0x1_0000 % 0x100
            &&& c.num_clusters + 0x100 * c.max_dies == regs.id_clusters / 0x1000 % 0x1000
            &&& c.num_cores * c.num_clusters <= 64
            &&& regs.id_version / 0x100_0000 == match c.gpu_gen {
                GpuGen::G13 => 4int,
                GpuGen::G14 => 5,
            }
            &&& regs.id_version / 0x1_0000 % 0x100 == match c.gpu_variant {
                GpuVariant::P => 1int,
                GpuVariant::G => 2,
                GpuVariant::S => 3,
                GpuVariant::C => 4,
                GpuVariant::D => 4,
            }
            &&& c.gpu_variant is C ==> c.num_clusters <= 4
            &&& c.gpu_variant is D ==> c.num_clusters > 4
            &&& regs.id_unk18 / 0x100 % 0x100 == match c.gpu_rev {
                GpuRevision::A0 => 0int,
                GpuRevision::A1 => 1,
                GpuRevision::B0 => 2,
                GpuRevision::B1 => 3,
                GpuRevision::C0 => 4,
                GpuRevision::C1 => 5,
            }
            &&& c.core_masks@.len() == c.num_clusters
            &&& c.num_cores <= 32 ==> masks_joined(
                c.core_masks@,
                c.num_cores as nat,
                c.num_clusters as int,
            ) == regs.core_mask_0 + 0x1_0000_0000 * regs.core_mask_1
            &&& c.num_active_cores == popcount(
                (regs.core_mask_0 + 0x1_0000_0000 * regs.core_mask_1) as nat,
            )
            &&& c.core_masks_packed@.len() >= 1 && c.core_masks_packed@[0] == regs.core_mask_0
            &&& c.core_masks_packed@.len() == 2 <==> regs.core_mask_1 != 0
            &&& c.core_masks_packed@.len() == 2 ==> c.core_masks_packed@[1] == regs.core_mask_1
            &&& c.core_masks_packed@.len() <= 2
        },
{
    if let Ok(c) = r {
        assert(!regs.too_many());
        law_cluster_masks_make_up_the_core_mask(regs);
        law_active_cores_are_the_bits_of_the_mask(regs);
        if c.num_cores <= 32 {
            lemma_masks_joined(regs, c.core_masks@, c.num_clusters as int);
        }
    }
}

proof fn lemma_leftover(regs: IdRegisters, n: int)
    requires
        0 <= n,
    ensures
        regs.rest(n) == 0 <==> regs.core_mask() < pow2((regs.num_cores() * n) as nat),
    decreases n,
{
    let c = regs.num_cores() as int;
    assert(c * n >= 0) by (nonlinear_arith)
        requires
            c >= 0,
            n >= 0,
    ;
    let all = pow2((c * n) as nat) as int;
    lemma_joined(regs, n);
    lemma_joined_bound(regs, n);
    lemma_pow2_pos((c * n) as nat);
    let rest = regs.rest(n) as int;
    if rest > 0 {
        assert(rest * all >= all) by (nonlinear_arith)
            requires
                rest >= 1,
                all >= 1,
        ;
    } else {
        assert(rest * all == 0);
    }
}

proof fn lemma_joined_bound(regs: IdRegisters, n: int)
    requires
        0 <= n,
    ensures
        joined(regs, n) < pow2((regs.num_cores() * n) as nat),
    decreases n,
{
    let c = regs.num_cores() as int;
    lemma2_to64();
    if n == 0 {
        assert(c * n == 0);
    } else {
        lemma_joined_bound(regs, n - 1);
        lemma_cut_cluster(regs, n - 1);
        assert(c * n == c + c * (n - 1) && c * (n - 1) >= 0) by (nonlinear_arith)
            requires
                c >= 0,
                n >= 1,
        ;
        let low = pow2((c * (n - 1)) as nat) as int;
        let step = pow2(c as nat) as int;
        lemma_pow2_adds(c as nat, (c * (n - 1)) as nat);
        let mask = regs.mask(n - 1) as int;
        assert(low + mask * low <= step * low) by (nonlinear_arith)
            requires
                mask + 1 <= step,
                low >= 0,
        ;
    }
}

/// A GPU is refused if it has more cores than a mask has bits, if its mask has bits beyond
/// its cores, or if the driver does not know its generation, variant or revision, and for
/// no other reason.
pub proof fn law_refused_gpus(regs: IdRegisters, r: Result<GpuIdConfig>)
    requires
        regs.too_many() || regs.num_cores() < 64,
        call_ensures(IdRegisters::get_gpu_id, (&regs,), r),
    ensures
        ({
            let cores = regs.id_counts_1 % 0x100;
            let clusters = regs.id_clusters / 0x1000 % 0x100;
            let mask = regs.core_mask_0 + 0x1_0000_0000 * regs.core_mask_1;
            let gen = regs.id_version / 0x100_0000;
            let variant = regs.id_version / 0x1_0000 % 0x100;
            let rev = regs.id_unk18 / 0x100 % 0x100;
            let known = (gen == 4 || gen == 5) && 1 <= variant <= 4 && rev <= 5;
            let fits = mask < pow2((cores * clusters) as nat);
            &&& r is Ok <==> cores * clusters <= 64 && fits && known
            &&& r == Err::<GpuIdConfig, Error>(Error::EIO) <==> cores * clusters <= 64 && !fits
            &&& r == Err::<GpuIdConfig, Error>(Error::ENODEV) <==> cores * clusters > 64 || fits
                && !known
        }),
{
    lemma_leftover(regs, regs.num_clusters() as int);
}

/// A power of two has one bit set, and bits that do not overlap add up.
pub proof fn law_set_bits_add_up(high: nat, low: nat, n: nat)
    requires
        low < pow2(n),
    ensures
        popcount(pow2(n)) == 1,
        popcount(high * pow2(n) + low) == popcount(high) + popcount(low),
{
    lemma_popcount_joined(high, low, n);
    lemma_pow2_pos(n);
    lemma_popcount_joined(1, 0, n);
    assert(1 * pow2(n) + 0 == pow2(n));
    reveal_with_fuel(popcount, 2);
}

/// Starting the coprocessor sets its bit and leaves the others.
pub proof fn law_start_sets_one_bit(control: u32, r: u32)
    requires
        call_ensures(start_cpu, (control,), r),
    ensures
        r == control | 0x10,
{
}

} // verus!
