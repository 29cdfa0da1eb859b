//! Vertex jobs.
use crate::buffer::Scene;
use crate::event::EventValue;
use crate::file::PIPELINE_BASE;
use crate::fw::job::{EncoderParams, JobMeta};
use crate::fw::workqueue::CommandType;
use crate::render::Cmdbuf;
use vstd::prelude::*;

verus! {

/// How a frame is cut into tiles and macrotiles.
#[derive(Copy, Clone, Debug, PartialEq, Eq, Structural)]
pub struct TilingParameters {
    /// The distance of macrotiles in the tile map, in words.
    pub rgn_size: u32,
    pub unk_4: u32,
    pub ppp_ctrl: u32,
    pub x_max: u16,
    pub y_max: u16,
    /// The last tile: its column, and its row from bit 12.
    pub te_screen: u32,
    /// The columns at which macrotiles start, 9 bits each.
    pub te_mtile1: u32,
    /// The rows at which macrotiles start, 9 bits each.
    pub te_mtile2: u32,
    pub tiles_per_mtile: u32,
    /// The distance of macrotiles in the tile pointers, in words.
    pub tpc_stride: u32,
    pub unk_24: u32,
    pub unk_28: u32,
}

/// What the tiler of a vertex job is set to. The fields that are zero are left out.
#[derive(Copy, Clone, Debug, PartialEq, Eq, Structural)]
pub struct JobParameters1 {
    pub unk_0: u64,
    pub unk_8: u32,
    pub unk_c: u32,
    pub tvb_tilemap: u64,
    pub tvb_cluster_tilemaps: Option<u64>,
    pub tpc: u64,
    pub tvb_heapmeta: u64,
    pub iogpu_unk_54: u32,
    pub iogpu_unk_55: u32,
    pub iogpu_unk_56: u64,
    pub tvb_cluster_meta1: Option<u64>,
    pub utile_config: u32,
    pub ppp_multisamplectl: u64,
    pub tvb_heapmeta_2: u64,
    pub core_mask0: u32,
    pub core_mask1: u32,
    pub preempt_buf1: u64,
    pub preempt_buf2: u64,
    pub unk_80: u64,
    pub preempt_buf3: u64,
    pub encoder_addr: u64,
    pub tvb_cluster_meta2: Option<u64>,
    pub tvb_cluster_meta3: Option<u64>,
    pub tiling_control: u32,
    pub pipeline_base: u64,
    pub tvb_cluster_meta4: Option<u64>,
    pub unk_f0: u64,
    pub unk_f8: u64,
    pub unk_118: u32,
}

/// The mask of a group of cores; zero if there is no such group.
pub open spec fn mask_at(core_masks: Seq<u32>, i: int) -> u32 {
    if i < core_masks.len() {
        core_masks[i]
    } else {
        0
    }
}

fn mask_or_zero(core_masks: &Vec<u32>, i: usize) -> (r: u32)
    ensures
        r == mask_at(core_masks@, i as int),
{
    if i < core_masks.len() {
        core_masks[i]
    } else {
        0
    }
}

impl JobParameters1 {
    pub open spec fn spec_new(
        cmdbuf: Cmdbuf,
        scene: Scene,
        utile_config: u32,
        core_masks: Seq<u32>,
        tiling_control: u32,
        clustering: bool,
    ) -> JobParameters1 {
        JobParameters1 {
            unk_0: 0x200,
            unk_8: 0x1e3c_e508,
            unk_c: 0x1e3c_e508,
            tvb_tilemap: scene.buffers.tvb_tilemap,
            tvb_cluster_tilemaps: match scene.buffers.clustering {
                Some(c) => Some(c.tilemaps),
                None => None,
            },
            tpc: scene.buffers.tpc,
            tvb_heapmeta: scene.buffers.tvb_heapmeta | 0x8000_0000_0000_0000,
            iogpu_unk_54: 0x6b_0003,
            iogpu_unk_55: 0x3a_0012,
            iogpu_unk_56: 1,
            tvb_cluster_meta1: scene.meta_at(0),
            utile_config,
            ppp_multisamplectl: cmdbuf.ppp_multisamplectl,
            tvb_heapmeta_2: scene.buffers.tvb_heapmeta,
            core_mask0: mask_at(core_masks, 0),
            core_mask1: mask_at(core_masks, 1),
            preempt_buf1: scene.buffers.preempt_buf,
            preempt_buf2: (scene.buffers.preempt_buf + scene.offsets.preempt2_off) as u64,
            unk_80: 1,
            preempt_buf3: ((scene.buffers.preempt_buf + scene.offsets.preempt3_off) as u64) | 0x4_0000_0000_0000,
            encoder_addr: cmdbuf.encoder_ptr,
            tvb_cluster_meta2: scene.meta_at(scene.offsets.meta2_off),
            tvb_cluster_meta3: scene.meta_at(scene.offsets.meta3_off),
            tiling_control,
            pipeline_base: PIPELINE_BASE,
            tvb_cluster_meta4: scene.meta_at(scene.offsets.meta4_off),
            unk_f0: if clustering {
                0x20
            } else {
                0x1c
            },
            unk_f8: 0x8c60,
            unk_118: 0x1c,
        }
    }

    pub fn new(
        cmdbuf: &Cmdbuf,
        scene: &Scene,
        utile_config: u32,
        core_masks: &Vec<u32>,
        tiling_control: u32,
        clustering: bool,
    ) -> (r: JobParameters1)
        requires
            scene.wf(),
        ensures
            r == Self::spec_new(
                *cmdbuf,
                *scene,
                utile_config,
                core_masks@,
                tiling_control,
                clustering,
            ),
    {
        JobParameters1 {
            unk_0: 0x200,
            unk_8: 0x1e3c_e508,
            unk_c: 0x1e3c_e508,
            tvb_tilemap: scene.tvb_tilemap_pointer(),
            tvb_cluster_tilemaps: scene.cluster_tilemaps_pointer(),
            tpc: scene.tpc_pointer(),
            tvb_heapmeta: scene.tvb_heapmeta_pointer() | 0x8000_0000_0000_0000,
            iogpu_unk_54: 0x6b_0003,
            iogpu_unk_55: 0x3a_0012,
            iogpu_unk_56: 1,
            tvb_cluster_meta1: scene.meta_1_pointer(),
            utile_config,
            ppp_multisamplectl: cmdbuf.ppp_multisamplectl,
            tvb_heapmeta_2: scene.tvb_heapmeta_pointer(),
            core_mask0: mask_or_zero(core_masks, 0),
            core_mask1: mask_or_zero(core_masks, 1),
            preempt_buf1: scene.preempt_buf_1_pointer(),
            preempt_buf2: scene.preempt_buf_2_pointer(),
            unk_80: 1,
            preempt_buf3: scene.preempt_buf_3_pointer() | 0x4_0000_0000_0000,
            encoder_addr: cmdbuf.encoder_ptr,
            tvb_cluster_meta2: scene.meta_2_pointer(),
            tvb_cluster_meta3: scene.meta_3_pointer(),
            tiling_control,
            pipeline_base: PIPELINE_BASE,
            tvb_cluster_meta4: scene.meta_4_pointer(),
            unk_f0: if clustering {
                0x20
            } else {
                0x1c
            },
            unk_f8: 0x8c60,
            unk_118: 0x1c,
        }
    }
}

/// A vertex job. The fields that are zero are left out.
#[derive(Copy, Clone, Debug, PartialEq, Eq, Structural)]
pub struct RunVertex {
    pub tag: CommandType,
    /// Only newer firmware has this.
    pub counter: Option<u64>,
    pub vm_slot: u32,
    pub notifier: u64,
    pub buffer_slot: u32,
    pub buffer: u64,
    pub scene: u64,
    pub unk_buffer_buf: u64,
    pub job_params1: JobParameters1,
    pub tiling_params: TilingParameters,
    pub tpc: u64,
    pub tpc_size: u64,
    pub microsequence: u64,
    pub microsequence_size: u32,
    pub fragment_stamp_slot: u32,
    pub fragment_stamp_value: EventValue,
    /// This and what follows up to the encoder are the second group of parameters.
    pub preempt_buf1: u64,
    pub encoder_params: EncoderParams,
    pub memoryless_rts_used: u32,
    pub meta: JobMeta,
    pub client_seq: u8,
}

/// A vertex job that may use several clusters says so, and is set up like any other
/// otherwise.
pub proof fn law_clustering_changes_one_setting(
    cmdbuf: Cmdbuf,
    scene: Scene,
    utile_config: u32,
    core_masks: Vec<u32>,
    tiling_control: u32,
    alone: JobParameters1,
    clustered: JobParameters1,
)
    requires
        scene.wf(),
        call_ensures(
            JobParameters1::new,
            (&cmdbuf, &scene, utile_config, &core_masks, tiling_control, false),
            alone,
        ),
        call_ensures(
            JobParameters1::new,
            (&cmdbuf, &scene, utile_config, &core_masks, tiling_control, true),
            clustered,
        ),
    ensures
        alone.unk_f0 == 0x1c,
        clustered.unk_f0 == 0x20,
        clustered == (JobParameters1 { unk_f0: clustered.unk_f0, ..alone }),
        clustered.encoder_addr == alone.encoder_addr == cmdbuf.encoder_ptr,
{
}

} // verus!
