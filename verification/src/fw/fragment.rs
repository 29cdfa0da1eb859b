//! Fragment jobs.
use crate::buffer::{FwVersion, Scene};
use crate::file::PIPELINE_BASE;
use crate::fw::job::{EncoderParams, JobMeta};
use crate::fw::workqueue::CommandType;
use crate::render::{Cmdbuf, TileInfo};
use vstd::prelude::*;

verus! {

/// A pipeline that loads a tile.
#[derive(Copy, Clone, Debug, PartialEq, Eq, Structural)]
pub struct ClearPipelineBinding {
    pub pipeline_bind: u64,
    pub address: u64,
}

/// A pipeline that stores a tile. The fields that are zero are left out.
#[derive(Copy, Clone, Debug, PartialEq, Eq, Structural)]
pub struct StorePipelineBinding {
    pub pipeline_bind: u32,
    pub address: u32,
}

impl StorePipelineBinding {
    pub fn new(pipeline_bind: u32, address: u32) -> (r: StorePipelineBinding)
        ensures
            r == (StorePipelineBinding { pipeline_bind, address }),
    {
        StorePipelineBinding { pipeline_bind, address }
    }
}

/// The size of a frame, for the firmware. The fields that are zero are left out.
#[derive(Copy, Clone, Debug, PartialEq, Eq, Structural)]
pub struct AuxFBInfo {
    pub iogpu_unk_214: u32,
    pub width: u32,
    pub height: u32,
    /// Only newer firmware has this.
    pub unk3: Option<u64>,
}

impl AuxFBInfo {
    pub open spec fn spec_new(cmdbuf: Cmdbuf, version: FwVersion) -> AuxFBInfo {
        AuxFBInfo {
            iogpu_unk_214: cmdbuf.iogpu_unk_214,
            width: cmdbuf.fb_width,
            height: cmdbuf.fb_height,
            unk3: match version {
                FwVersion::V12_3 => None,
                FwVersion::V13_0B4 => Some(0x10_0000),
            },
        }
    }

    pub fn new(cmdbuf: &Cmdbuf, version: FwVersion) -> (r: AuxFBInfo)
        ensures
            r == Self::spec_new(*cmdbuf, version),
    {
        AuxFBInfo {
            iogpu_unk_214: cmdbuf.iogpu_unk_214,
            width: cmdbuf.fb_width,
            height: cmdbuf.fb_height,
            unk3: match version {
                FwVersion::V12_3 => None,
                FwVersion::V13_0B4 => Some(0x10_0000),
            },
        }
    }
}

/// What the first stage of a fragment job is set to. The fields that are zero are left
/// out.
#[derive(Copy, Clone, Debug, PartialEq, Eq, Structural)]
pub struct JobParameters1 {
    pub utile_config: u32,
    pub clear_pipeline: ClearPipelineBinding,
    pub ppp_multisamplectl: u64,
    pub scissor_array: u64,
    pub depth_bias_array: u64,
    pub aux_fb_info: AuxFBInfo,
    pub depth_dimensions: u64,
    pub zls_ctrl: u64,
    pub depth_buffer_ptr1: u64,
    pub depth_buffer_ptr2: u64,
    pub stencil_buffer_ptr1: u64,
    pub stencil_buffer_ptr2: u64,
    pub depth_meta_buffer_ptr1: u64,
    pub depth_meta_buffer_ptr2: u64,
    pub stencil_meta_buffer_ptr1: u64,
    pub stencil_meta_buffer_ptr2: u64,
    pub tvb_tilemap: u64,
    pub tvb_heapmeta: u64,
    pub mtile_stride_dwords: u64,
    pub tvb_heapmeta_2: u64,
    pub tile_config: u64,
    pub aux_fb: u64,
    pub pipeline_base: u64,
    pub unk_140: u64,
    pub unk_158: u64,
}

impl JobParameters1 {
    pub open spec fn spec_new(
        cmdbuf: Cmdbuf,
        version: FwVersion,
        scene: Scene,
        utile_config: u32,
        tile_config: u64,
        rgn_size: u32,
        aux_fb: u64,
    ) -> JobParameters1 {
        JobParameters1 {
            utile_config,
            clear_pipeline: ClearPipelineBinding {
                pipeline_bind: cmdbuf.load_pipeline_bind as u64,
                address: (cmdbuf.load_pipeline as u64) | 4,
            },
            ppp_multisamplectl: cmdbuf.ppp_multisamplectl,
            scissor_array: cmdbuf.scissor_array,
            depth_bias_array: cmdbuf.depth_bias_array,
            aux_fb_info: AuxFBInfo::spec_new(cmdbuf, version),
            depth_dimensions: cmdbuf.depth_dimensions,
            zls_ctrl: cmdbuf.zls_ctrl,
            depth_buffer_ptr1: cmdbuf.depth_buffer_1,
            depth_buffer_ptr2: cmdbuf.depth_buffer_2,
            stencil_buffer_ptr1: cmdbuf.stencil_buffer_1,
            stencil_buffer_ptr2: cmdbuf.stencil_buffer_2,
            depth_meta_buffer_ptr1: cmdbuf.depth_meta_buffer_1,
            depth_meta_buffer_ptr2: cmdbuf.depth_meta_buffer_2,
            stencil_meta_buffer_ptr1: cmdbuf.stencil_meta_buffer_1,
            stencil_meta_buffer_ptr2: cmdbuf.stencil_meta_buffer_2,
            tvb_tilemap: scene.buffers.tvb_tilemap,
            tvb_heapmeta: scene.buffers.tvb_heapmeta,
            mtile_stride_dwords: ((4 * rgn_size) as u64) << 24,
            tvb_heapmeta_2: scene.buffers.tvb_heapmeta,
            tile_config,
            aux_fb,
            pipeline_base: PIPELINE_BASE,
            unk_140: 0x8c60,
            unk_158: 0x1c,
        }
    }

    pub fn new(
        cmdbuf: &Cmdbuf,
        version: FwVersion,
        scene: &Scene,
        utile_config: u32,
        tile_config: u64,
        rgn_size: u32,
        aux_fb: u64,
    ) -> (r: JobParameters1)
        ensures
            r == Self::spec_new(
                *cmdbuf,
                version,
                *scene,
                utile_config,
                tile_config,
                rgn_size,
                aux_fb,
            ),
    {
        JobParameters1 {
            utile_config,
            clear_pipeline: ClearPipelineBinding {
                pipeline_bind: cmdbuf.load_pipeline_bind as u64,
                address: (cmdbuf.load_pipeline as u64) | 4,
            },
            ppp_multisamplectl: cmdbuf.ppp_multisamplectl,
            scissor_array: cmdbuf.scissor_array,
            depth_bias_array: cmdbuf.depth_bias_array,
            aux_fb_info: AuxFBInfo::new(cmdbuf, version),
            depth_dimensions: cmdbuf.depth_dimensions,
            zls_ctrl: cmdbuf.zls_ctrl,
            depth_buffer_ptr1: cmdbuf.depth_buffer_1,
            depth_buffer_ptr2: cmdbuf.depth_buffer_2,
            stencil_buffer_ptr1: cmdbuf.stencil_buffer_1,
            stencil_buffer_ptr2: cmdbuf.stencil_buffer_2,
            depth_meta_buffer_ptr1: cmdbuf.depth_meta_buffer_1,
            depth_meta_buffer_ptr2: cmdbuf.depth_meta_buffer_2,
            stencil_meta_buffer_ptr1: cmdbuf.stencil_meta_buffer_1,
            stencil_meta_buffer_ptr2: cmdbuf.stencil_meta_buffer_2,
            tvb_tilemap: scene.tvb_tilemap_pointer(),
            tvb_heapmeta: scene.tvb_heapmeta_pointer(),
            mtile_stride_dwords: (4 * rgn_size as u64) << 24,
            tvb_heapmeta_2: scene.tvb_heapmeta_pointer(),
            tile_config,
            aux_fb,
            pipeline_base: PIPELINE_BASE,
            unk_140: 0x8c60,
            unk_158: 0x1c,
        }
    }
}

/// What the second stage of a fragment job is set to. The fields that are zero are left
/// out.
#[derive(Copy, Clone, Debug, PartialEq, Eq, Structural)]
pub struct JobParameters2 {
    pub store_pipeline_bind: u32,
    pub store_pipeline_addr: u32,
    pub merge_upper_x: u32,
    pub merge_upper_y: u32,
    pub utiles_per_mtile_y: u16,
    pub utiles_per_mtile_x: u16,
    pub tile_counts: u32,
    pub iogpu_unk_212: u32,
    pub isp_bgobjdepth: u32,
    pub isp_bgobjvals: u32,
    pub unk_3c: u32,
}

impl JobParameters2 {
    pub open spec fn spec_new(cmdbuf: Cmdbuf, tiles: TileInfo) -> JobParameters2 {
        JobParameters2 {
            store_pipeline_bind: cmdbuf.store_pipeline_bind,
            store_pipeline_addr: cmdbuf.store_pipeline | 4,
            merge_upper_x: cmdbuf.merge_upper_x,
            merge_upper_y: cmdbuf.merge_upper_y,
            utiles_per_mtile_y: tiles.utiles_per_mtile_y as u16,
            utiles_per_mtile_x: tiles.utiles_per_mtile_x as u16,
            tile_counts: (((tiles.tiles_y - 1) as u32) << 12) | ((tiles.tiles_x - 1) as u32),
            iogpu_unk_212: cmdbuf.iogpu_unk_212,
            isp_bgobjdepth: cmdbuf.isp_bgobjdepth,
            isp_bgobjvals: cmdbuf.isp_bgobjvals | 0x400,
            unk_3c: 1,
        }
    }

    pub fn new(cmdbuf: &Cmdbuf, tiles: &TileInfo) -> (r: JobParameters2)
        requires
            tiles.tiles_x >= 1,
            tiles.tiles_y >= 1,
        ensures
            r == Self::spec_new(*cmdbuf, *tiles),
    {
        JobParameters2 {
            store_pipeline_bind: cmdbuf.store_pipeline_bind,
            store_pipeline_addr: cmdbuf.store_pipeline | 4,
            merge_upper_x: cmdbuf.merge_upper_x,
            merge_upper_y: cmdbuf.merge_upper_y,
            utiles_per_mtile_y: tiles.utiles_per_mtile_y as u16,
            utiles_per_mtile_x: tiles.utiles_per_mtile_x as u16,
            tile_counts: ((tiles.tiles_y - 1) << 12) | (tiles.tiles_x - 1),
            iogpu_unk_212: cmdbuf.iogpu_unk_212,
            isp_bgobjdepth: cmdbuf.isp_bgobjdepth,
            isp_bgobjvals: cmdbuf.isp_bgobjvals | 0x400,
            unk_3c: 1,
        }
    }
}

/// What a fragment job is set to that has been interrupted. The fields that are zero are
/// left out.
#[derive(Copy, Clone, Debug, PartialEq, Eq, Structural)]
pub struct JobParameters3 {
    pub depth_bias_array: u64,
    pub scissor_array: u64,
    pub unk_reload_pipeline: ClearPipelineBinding,
    pub reload_pipeline: ClearPipelineBinding,
    pub zls_ctrl: u64,
    pub depth_buffer_ptr1: u64,
    pub depth_buffer_ptr2: u64,
    pub depth_buffer_ptr3: u64,
    pub depth_meta_buffer_ptr3: u64,
    pub stencil_buffer_ptr1: u64,
    pub stencil_buffer_ptr2: u64,
    pub stencil_buffer_ptr3: u64,
    pub stencil_meta_buffer_ptr3: u64,
    pub iogpu_unk_212: u32,
    pub aux_fb_info: AuxFBInfo,
    pub unk_partial_store_pipeline: StorePipelineBinding,
    pub partial_store_pipeline: StorePipelineBinding,
    pub isp_bgobjdepth: u32,
    pub isp_bgobjvals: u32,
    pub iogpu_unk_49: u32,
    pub depth_dimensions: u64,
}

impl JobParameters3 {
    pub open spec fn spec_new(cmdbuf: Cmdbuf, version: FwVersion) -> JobParameters3 {
        JobParameters3 {
            depth_bias_array: cmdbuf.depth_bias_array,
            scissor_array: cmdbuf.scissor_array,
            unk_reload_pipeline: ClearPipelineBinding {
                pipeline_bind: cmdbuf.partial_reload_pipeline_bind as u64,
                address: (cmdbuf.partial_reload_pipeline as u64) | 4,
            },
            reload_pipeline: ClearPipelineBinding {
                pipeline_bind: cmdbuf.partial_reload_pipeline_bind as u64,
                address: (cmdbuf.partial_reload_pipeline as u64) | 4,
            },
            zls_ctrl: cmdbuf.zls_ctrl,
            depth_buffer_ptr1: cmdbuf.depth_buffer_1,
            depth_buffer_ptr2: cmdbuf.depth_buffer_2,
            depth_buffer_ptr3: cmdbuf.depth_buffer_3,
            depth_meta_buffer_ptr3: cmdbuf.depth_meta_buffer_3,
            stencil_buffer_ptr1: cmdbuf.stencil_buffer_1,
            stencil_buffer_ptr2: cmdbuf.stencil_buffer_2,
            stencil_buffer_ptr3: cmdbuf.stencil_buffer_3,
            stencil_meta_buffer_ptr3: cmdbuf.stencil_meta_buffer_3,
            iogpu_unk_212: cmdbuf.iogpu_unk_212,
            aux_fb_info: AuxFBInfo::spec_new(cmdbuf, version),
            unk_partial_store_pipeline: StorePipelineBinding {
                pipeline_bind: cmdbuf.partial_store_pipeline_bind,
                address: cmdbuf.partial_store_pipeline | 4,
            },
            partial_store_pipeline: StorePipelineBinding {
                pipeline_bind: cmdbuf.partial_store_pipeline_bind,
                address: cmdbuf.partial_store_pipeline | 4,
            },
            isp_bgobjdepth: cmdbuf.isp_bgobjdepth,
            isp_bgobjvals: cmdbuf.isp_bgobjvals,
            iogpu_unk_49: cmdbuf.iogpu_unk_49,
            depth_dimensions: cmdbuf.depth_dimensions,
        }
    }

    pub fn new(cmdbuf: &Cmdbuf, version: FwVersion) -> (r: JobParameters3)
        ensures
            r == Self::spec_new(*cmdbuf, version),
    {
        JobParameters3 {
            depth_bias_array: cmdbuf.depth_bias_array,
            scissor_array: cmdbuf.scissor_array,
            unk_reload_pipeline: ClearPipelineBinding {
                pipeline_bind: cmdbuf.partial_reload_pipeline_bind as u64,
                address: (cmdbuf.partial_reload_pipeline as u64) | 4,
            },
            reload_pipeline: ClearPipelineBinding {
                pipeline_bind: cmdbuf.partial_reload_pipeline_bind as u64,
                address: (cmdbuf.partial_reload_pipeline as u64) | 4,
            },
            zls_ctrl: cmdbuf.zls_ctrl,
            depth_buffer_ptr1: cmdbuf.depth_buffer_1,
            depth_buffer_ptr2: cmdbuf.depth_buffer_2,
            depth_buffer_ptr3: cmdbuf.depth_buffer_3,
            depth_meta_buffer_ptr3: cmdbuf.depth_meta_buffer_3,
            stencil_buffer_ptr1: cmdbuf.stencil_buffer_1,
            stencil_buffer_ptr2: cmdbuf.stencil_buffer_2,
            stencil_buffer_ptr3: cmdbuf.stencil_buffer_3,
            stencil_meta_buffer_ptr3: cmdbuf.stencil_meta_buffer_3,
            iogpu_unk_212: cmdbuf.iogpu_unk_212,
            aux_fb_info: AuxFBInfo::new(cmdbuf, version),
            unk_partial_store_pipeline: StorePipelineBinding::new(
                cmdbuf.partial_store_pipeline_bind,
                cmdbuf.partial_store_pipeline | 4,
            ),
            partial_store_pipeline: StorePipelineBinding::new(
                cmdbuf.partial_store_pipeline_bind,
                cmdbuf.partial_store_pipeline | 4,
            ),
            isp_bgobjdepth: cmdbuf.isp_bgobjdepth,
            isp_bgobjvals: cmdbuf.isp_bgobjvals,
            iogpu_unk_49: cmdbuf.iogpu_unk_49,
            depth_dimensions: cmdbuf.depth_dimensions,
        }
    }
}

/// A fragment job. The fields that are zero are left out.
#[derive(Copy, Clone, Debug, PartialEq, Eq, Structural)]
pub struct RunFragment {
    pub tag: CommandType,
    /// Only newer firmware has this.
    pub counter: Option<u64>,
    pub vm_slot: u32,
    pub microsequence: u64,
    pub microsequence_size: u32,
    pub notifier: u64,
    pub buffer: u64,
    pub scene: u64,
    pub unk_buffer_buf: u64,
    pub tvb_tilemap: u64,
    pub ppp_multisamplectl: u64,
    pub samples: u32,
    pub tiles_per_mtile_y: u16,
    pub tiles_per_mtile_x: u16,
    pub merge_upper_x: u32,
    pub merge_upper_y: u32,
    pub tile_count: u64,
    pub job_params1: JobParameters1,
    pub job_params2: JobParameters2,
    pub job_params3: JobParameters3,
    pub encoder_params: EncoderParams,
    pub process_empty_tiles: u32,
    pub no_clear_pipeline_textures: u32,
    pub meta: JobMeta,
    pub client_seq: u8,
}

} // verus!
