//! Renders a frame: checks what a user submitted, works out the tiling, and makes the
//! vertex and the fragment job with their microsequences.
use crate::buffer::{FwVersion, Scene, SceneSizes};
use crate::error::{Error, Result};
use crate::fw::fragment;
use crate::fw::fragment::RunFragment;
use crate::fw::job::{EncoderParams, JobMeta, MicroSeqRef, QueueRef};
use crate::fw::microseq::{
    bytes_of, law_attachments_are_counted, law_attachments_read_back, law_finalize_fragment_layout,
    law_finalize_fragment_size, law_finalize_vertex_layout, law_finalize_vertex_size,
    law_plain_operation_sizes, law_retire_stamp_layout, law_start_fragment_layout,
    law_start_fragment_size, law_start_vertex_layout, law_start_vertex_size,
    law_wait_for_idle_layout, lemma_bytes_len, read_at, Attachment, FinalizeFragment,
    FinalizeVertex, Operation, Pipe, RetireStamp, StartFragment, StartVertex, WaitForIdle,
    MAX_ATTACHMENTS,
};
use crate::fw::vertex;
use crate::fw::vertex::{RunVertex, TilingParameters};
use crate::fw::workqueue::{Barrier, CommandType};
use crate::microseq::Builder;
use crate::util::{align_u32, law_round_up, lemma_powers_of_two, low32, low_half, round_up};
use crate::workqueue::{OpenBatch, WorkQueueBatch};
use vstd::prelude::*;

verus! {

/// Tells the tiler not to use several clusters.
pub const TILECTL_DISABLE_CLUSTERING: u32 = 1;

/// The largest width and height of a frame.
pub const MAX_DIMENSION: u32 = 16384;

/// The least number of tiler blocks for each cluster.
pub const MIN_TVB_BLOCKS: usize = 8;

/// An image that a frame is written to.
#[derive(Copy, Clone, Debug, PartialEq, Eq, Structural)]
pub struct CmdAttachment {
    pub pointer: u64,
    pub size: u32,
}

/// The choices that a user can make for a frame.
#[derive(Copy, Clone, Debug, PartialEq, Eq, Structural)]
pub struct CmdFlags {
    pub no_clear_pipeline_textures: bool,
    pub set_when_reloading_z_or_s: bool,
    pub memoryless_rts_used: bool,
    pub process_empty_tiles: bool,
}

/// What a user submits for a frame.
#[derive(Debug)]
pub struct Cmdbuf {
    pub flags: CmdFlags,
    pub encoder_ptr: u64,
    pub encoder_id: u32,
    pub cmd_ta_id: u32,
    pub cmd_3d_id: u32,
    pub ppp_ctrl: u32,
    pub ppp_multisamplectl: u64,
    pub fb_width: u32,
    pub fb_height: u32,
    pub utile_width: u32,
    pub utile_height: u32,
    pub samples: u32,
    pub layers: u32,
    pub attachments: Vec<CmdAttachment>,
    pub attachment_count: u32,
    pub load_pipeline: u32,
    pub load_pipeline_bind: u32,
    pub store_pipeline: u32,
    pub store_pipeline_bind: u32,
    pub partial_reload_pipeline: u32,
    pub partial_reload_pipeline_bind: u32,
    pub partial_store_pipeline: u32,
    pub partial_store_pipeline_bind: u32,
    pub depth_dimensions: u64,
    pub depth_buffer_1: u64,
    pub depth_buffer_2: u64,
    pub depth_buffer_3: u64,
    pub depth_meta_buffer_1: u64,
    pub depth_meta_buffer_2: u64,
    pub depth_meta_buffer_3: u64,
    pub stencil_buffer_1: u64,
    pub stencil_buffer_2: u64,
    pub stencil_buffer_3: u64,
    pub stencil_meta_buffer_1: u64,
    pub stencil_meta_buffer_2: u64,
    pub stencil_meta_buffer_3: u64,
    pub scissor_array: u64,
    pub depth_bias_array: u64,
    pub zls_ctrl: u64,
    pub isp_bgobjdepth: u32,
    pub isp_bgobjvals: u32,
    /// The bits of a floating point number.
    pub merge_upper_x: u32,
    /// The bits of a floating point number.
    pub merge_upper_y: u32,
    pub iogpu_unk_49: u32,
    pub iogpu_unk_212: u32,
    pub iogpu_unk_214: u32,
}

/// How a frame is cut into tiles.
#[derive(Copy, Clone, Debug, PartialEq, Eq, Structural)]
pub struct TileInfo {
    pub tiles_x: u32,
    pub tiles_y: u32,
    pub tiles: u32,
    pub utile_width: u32,
    pub utile_height: u32,
    pub mtiles_x: u32,
    pub mtiles_y: u32,
    pub tiles_per_mtile_x: u32,
    pub tiles_per_mtile_y: u32,
    pub tiles_per_mtile: u32,
    pub utiles_per_mtile_x: u32,
    pub utiles_per_mtile_y: u32,
    pub utiles_per_mtile: u32,
    pub tilemap_size: u64,
    pub tpc_size: u64,
    pub params: TilingParameters,
}

/// The number of tiles, 32 pixels wide or high, that a length takes.
pub open spec fn tiles_for(length: int) -> int {
    (length + 31) / 32
}

/// The number of tiles of a macrotile: a quarter of them, in fours.
pub open spec fn mtile_tiles(tiles: int) -> int {
    round_up((tiles + 3) / 4, 4)
}

/// The sizes of small tiles that the GPU has.
pub open spec fn utile_ok(width: u32, height: u32) -> bool {
    ||| width == 32 && height == 32
    ||| width == 32 && height == 16
    ||| width == 16 && height == 16
}

/// The small tiles of a tile.
pub open spec fn utiles_per_tile(width: u32, height: u32) -> int {
    (32int / width as int) * (32int / height as int)
}

/// The frame can be tiled at all.
pub open spec fn tiling_ok(cmdbuf: Cmdbuf) -> bool {
    &&& cmdbuf.fb_width <= 65536
    &&& cmdbuf.fb_height <= 65536
    &&& 1 <= cmdbuf.layers <= 2048
    &&& utile_ok(cmdbuf.utile_width, cmdbuf.utile_height)
}

/// Three macrotile borders in one word.
pub open spec fn pack_mtiles(tiles: int) -> u32 {
    ((3 * tiles) as u32) | (((2 * tiles) as u32) << 9) | ((tiles as u32) << 18)
}

/// The tile map's size for each macrotile, in words: 5 bytes for each small tile.
pub open spec fn region_words(tiles: int, utiles: int) -> int {
    round_up(5 * tiles * utiles, 4) / 4
}

/// The tiling of a frame.
pub open spec fn tiling(cmdbuf: Cmdbuf) -> TileInfo {
    let tx = tiles_for(cmdbuf.fb_width as int);
    let ty = tiles_for(cmdbuf.fb_height as int);
    let mx = mtile_tiles(tx);
    let my = mtile_tiles(ty);
    let utiles = utiles_per_tile(cmdbuf.utile_width, cmdbuf.utile_height);
    let region = region_words(mx * my, utiles);
    let stride = 2 * utiles * (mx * my);
    TileInfo {
        tiles_x: tx as u32,
        tiles_y: ty as u32,
        tiles: (tx * ty) as u32,
        utile_width: cmdbuf.utile_width,
        utile_height: cmdbuf.utile_height,
        mtiles_x: 4,
        mtiles_y: 4,
        tiles_per_mtile_x: mx as u32,
        tiles_per_mtile_y: my as u32,
        tiles_per_mtile: (mx * my) as u32,
        utiles_per_mtile_x: (mx * (32int / cmdbuf.utile_width as int)) as u32,
        utiles_per_mtile_y: (my * (32int / cmdbuf.utile_height as int)) as u32,
        utiles_per_mtile: (mx * my * utiles) as u32,
        tilemap_size: (64 * region) as u64,
        tpc_size: (64 * stride) as u64,
        params: TilingParameters {
            rgn_size: region as u32,
            unk_4: 0x88,
            ppp_ctrl: cmdbuf.ppp_ctrl,
            x_max: (cmdbuf.fb_width - 1) as u16,
            y_max: (cmdbuf.fb_height - 1) as u16,
            te_screen: ((ty - 1) * 0x1000 + (tx - 1)) as u32,
            te_mtile1: pack_mtiles(mx),
            te_mtile2: pack_mtiles(my),
            tiles_per_mtile: (mx * my) as u32,
            tpc_stride: stride as u32,
            unk_24: 0x100,
            unk_28: if cmdbuf.layers > 1 {
                (0xe000 + (cmdbuf.layers - 1)) as u32
            } else {
                0x8000
            },
        },
    }
}

proof fn lemma_utile_counts(size: u32)
    requires
        size == 32 || size == 16,
    ensures
        32int / size as int == if size == 32 {
            1int
        } else {
            2int
        },
{
    assert(32int / size as int == if size == 32 {
        1int
    } else {
        2int
    }) by (nonlinear_arith)
        requires
            size == 32 || size == 16,
    ;
}

proof fn lemma_utiles_per_tile(width: u32, height: u32)
    requires
        utile_ok(width, height),
    ensures
        1 <= 32int / width as int <= 2,
        1 <= 32int / height as int <= 2,
        ({
            let n = utiles_per_tile(width, height);
            n == 1 || n == 2 || n == 4
        }),
{
    lemma_utile_counts(width);
    lemma_utile_counts(height);
    let (x, y) = (32int / width as int, 32int / height as int);
    assert(x * y == 1 || x * y == 2 || x * y == 4) by (nonlinear_arith)
        requires
            x == 1 || x == 2,
            y == 1 || y == 2,
    ;
}

proof fn lemma_tiling_bounds(length: u32)
    requires
        1 <= length <= 65536,
    ensures
        1 <= tiles_for(length as int) <= 2048,
        4 <= mtile_tiles(tiles_for(length as int)) <= 512,
        mtile_tiles(tiles_for(length as int)) % 4 == 0,
        tiles_for(length as int) <= 4 * mtile_tiles(tiles_for(length as int)),
        length <= 16384 ==> tiles_for(length as int) <= 512 && mtile_tiles(
            tiles_for(length as int),
        ) <= 128,
{
    let q = (tiles_for(length as int) + 3) / 4;
    law_round_up(q, 4);
    assert(512int % 4 == 0);
    assert(128int % 4 == 0);
    assert(4int % 4 == 0);
}

/// Cuts a frame into tiles and works out what the tiler needs for it.
pub fn get_tiling_params(cmdbuf: &Cmdbuf) -> (r: Result<TileInfo>)
    requires
        tiling_ok(*cmdbuf) ==> cmdbuf.fb_width >= 1 && cmdbuf.fb_height >= 1,
    ensures
        r == if tiling_ok(*cmdbuf) {
            Ok(tiling(*cmdbuf))
        } else {
            Err(Error::EINVAL)
        },
{
    let width: u32 = cmdbuf.fb_width;
    let height: u32 = cmdbuf.fb_height;
    let layers: u32 = cmdbuf.layers;
    if width > 65536 || height > 65536 {
        return Err(Error::EINVAL);
    }
    if layers == 0 || layers > 2048 {
        return Err(Error::EINVAL);
    }
    let tile_width: u32 = 32;
    let tile_height: u32 = 32;
    let utile_width: u32 = cmdbuf.utile_width;
    let utile_height: u32 = cmdbuf.utile_height;
    let known = (utile_width == 32 && utile_height == 32) || (utile_width == 32 && utile_height
        == 16) || (utile_width == 16 && utile_height == 16);
    if !known {
        return Err(Error::EINVAL);
    }
    let utiles_per_tile_x: u32 = tile_width / utile_width;
    let utiles_per_tile_y: u32 = tile_height / utile_height;
    proof {
        lemma_utiles_per_tile(utile_width, utile_height);
    }
    let utiles_per_tile: u32 = utiles_per_tile_x * utiles_per_tile_y;
    let tiles_x: u32 = (width + tile_width - 1) / tile_width;
    let tiles_y: u32 = (height + tile_height - 1) / tile_height;
    proof {
        lemma_tiling_bounds(width);
        lemma_tiling_bounds(height);
        lemma_powers_of_two();
        assert(tiles_x * tiles_y <= 2048 * 2048) by (nonlinear_arith)
            requires
                tiles_x <= 2048,
                tiles_y <= 2048,
        ;
    }
    let tiles: u32 = tiles_x * tiles_y;
    let mtiles_x: u32 = 4;
    let mtiles_y: u32 = 4;
    let mtiles: u32 = mtiles_x * mtiles_y;
    let tiles_per_mtile_x: u32 = align_u32((tiles_x + mtiles_x - 1) / mtiles_x, 4);
    let tiles_per_mtile_y: u32 = align_u32((tiles_y + mtiles_y - 1) / mtiles_y, 4);
    assert(tiles_per_mtile_x == mtile_tiles(tiles_x as int));
    assert(tiles_per_mtile_y == mtile_tiles(tiles_y as int));
    assert(16 <= tiles_per_mtile_x * tiles_per_mtile_y <= 512 * 512) by (nonlinear_arith)
        requires
            4 <= tiles_per_mtile_x <= 512,
            4 <= tiles_per_mtile_y <= 512,
    ;
    let tiles_per_mtile: u32 = tiles_per_mtile_x * tiles_per_mtile_y;
    let mtile_x1: u32 = tiles_per_mtile_x;
    let mtile_x2: u32 = 2 * tiles_per_mtile_x;
    let mtile_x3: u32 = 3 * tiles_per_mtile_x;
    let mtile_y1: u32 = tiles_per_mtile_y;
    let mtile_y2: u32 = 2 * tiles_per_mtile_y;
    let mtile_y3: u32 = 3 * tiles_per_mtile_y;
    let rgn_entry_size: u32 = 5;
    proof {
        assert(utiles_per_tile == 1 || utiles_per_tile == 2 || utiles_per_tile == 4);
        assert(rgn_entry_size * tiles_per_mtile * utiles_per_tile == 5 * (tiles_per_mtile
            * utiles_per_tile)) by (nonlinear_arith)
            requires
                rgn_entry_size == 5,
        ;
        assert(16 <= tiles_per_mtile * utiles_per_tile <= 512 * 512 * 4) by (nonlinear_arith)
            requires
                16 <= tiles_per_mtile <= 512 * 512,
                1 <= utiles_per_tile <= 4,
        ;
        law_round_up(5 * tiles_per_mtile * utiles_per_tile, 4);
    }
    let rgn_size: u32 = align_u32(rgn_entry_size * tiles_per_mtile * utiles_per_tile, 4) / 4;
    assert(rgn_size == region_words(tiles_per_mtile as int, utiles_per_tile as int));
    let tilemap_size: u64 = (4 * rgn_size * mtiles) as u64;
    let tpc_entry_size: u32 = 8;
    assert(tpc_entry_size * utiles_per_tile * tiles_per_mtile == 8 * (tiles_per_mtile
        * utiles_per_tile)) by (nonlinear_arith)
        requires
            tpc_entry_size == 8,
    ;
    assert(2 * utiles_per_tile * tiles_per_mtile == 2 * (tiles_per_mtile * utiles_per_tile))
        by (nonlinear_arith);
    let tpc_mtile_stride: u32 = tpc_entry_size * utiles_per_tile * tiles_per_mtile / 4;
    let tpc_size: u64 = (4 * tpc_mtile_stride * mtiles) as u64;
    proof {
        let (a, b) = ((tiles_y - 1) as u32, (tiles_x - 1) as u32);
        assert((a << 12) | b == a * 0x1000 + b) by (bit_vector)
            requires
                a < 2048,
                b < 2048,
        ;
        let l = (layers - 1) as u32;
        assert(0xe000 | l == 0xe000 + l) by (bit_vector)
            requires
                l < 2048,
        ;
        assert(tiles_per_mtile_x * utiles_per_tile_x <= 512 * 2) by (nonlinear_arith)
            requires
                tiles_per_mtile_x <= 512,
                utiles_per_tile_x <= 2,
        ;
        assert(tiles_per_mtile_y * utiles_per_tile_y <= 512 * 2) by (nonlinear_arith)
            requires
                tiles_per_mtile_y <= 512,
                utiles_per_tile_y <= 2,
        ;
    }
    Ok(
        TileInfo {
            tiles_x,
            tiles_y,
            tiles,
            utile_width,
            utile_height,
            mtiles_x,
            mtiles_y,
            tiles_per_mtile_x,
            tiles_per_mtile_y,
            tiles_per_mtile,
            utiles_per_mtile_x: tiles_per_mtile_x * utiles_per_tile_x,
            utiles_per_mtile_y: tiles_per_mtile_y * utiles_per_tile_y,
            utiles_per_mtile: tiles_per_mtile * utiles_per_tile,
            tilemap_size,
            tpc_size,
            params: TilingParameters {
                rgn_size,
                unk_4: 0x88,
                ppp_ctrl: cmdbuf.ppp_ctrl,
                x_max: (width - 1) as u16,
                y_max: (height - 1) as u16,
                te_screen: ((tiles_y - 1) << 12) | (tiles_x - 1),
                te_mtile1: mtile_x3 | (mtile_x2 << 9) | (mtile_x1 << 18),
                te_mtile2: mtile_y3 | (mtile_y2 << 9) | (mtile_y1 << 18),
                tiles_per_mtile,
                tpc_stride: tpc_mtile_stride,
                unk_24: 0x100,
                unk_28: if layers > 1 {
                    0xe000 | (layers - 1)
                } else {
                    0x8000
                },
            },
        },
    )
}

/// The tiles cover a frame, and so do the 4 by 4 macrotiles.
pub proof fn law_tiles_cover_the_frame(cmdbuf: Cmdbuf)
    requires
        tiling_ok(cmdbuf),
        cmdbuf.fb_width >= 1,
        cmdbuf.fb_height >= 1,
    ensures
        32 * (tiling(cmdbuf).tiles_x - 1) < cmdbuf.fb_width <= 32 * tiling(cmdbuf).tiles_x,
        32 * (tiling(cmdbuf).tiles_y - 1) < cmdbuf.fb_height <= 32 * tiling(cmdbuf).tiles_y,
        tiling(cmdbuf).tiles_x <= 4 * tiling(cmdbuf).tiles_per_mtile_x,
        tiling(cmdbuf).tiles_y <= 4 * tiling(cmdbuf).tiles_per_mtile_y,
{
    lemma_tiling_bounds(cmdbuf.fb_width);
    lemma_tiling_bounds(cmdbuf.fb_height);
}

/// The macrotile borders of a frame that may be rendered can be read back from the word
/// that they are packed into.
pub proof fn law_mtile_borders_unpack(length: u32)
    requires
        1 <= length <= MAX_DIMENSION,
    ensures
        ({
            let tiles = mtile_tiles(tiles_for(length as int));
            let word = pack_mtiles(tiles);
            &&& word & 0x1ff == 3 * tiles
            &&& (word >> 9) & 0x1ff == 2 * tiles
            &&& word >> 18 == tiles
        }),
{
    lemma_tiling_bounds(length);
    let tiles = mtile_tiles(tiles_for(length as int)) as u32;
    let (x3, x2) = ((3 * tiles) as u32, (2 * tiles) as u32);
    let word = x3 | (x2 << 9) | (tiles << 18);
    assert(word & 0x1ff == x3 && (word >> 9) & 0x1ff == x2 && word >> 18 == tiles) by (bit_vector)
        requires
            x3 < 512,
            x2 < 512,
            tiles < 512,
            word == x3 | (x2 << 9) | (tiles << 18),
    ;
}

/// The tile map and the tile pointers have room for every small tile of every macrotile:
/// 5 and 8 bytes each.
pub proof fn law_tile_memory_suffices(cmdbuf: Cmdbuf)
    requires
        tiling_ok(cmdbuf),
        cmdbuf.fb_width >= 1,
        cmdbuf.fb_height >= 1,
    ensures
        tiling(cmdbuf).tilemap_size >= 16 * (5 * tiling(cmdbuf).utiles_per_mtile),
        tiling(cmdbuf).tpc_size == 16 * (8 * tiling(cmdbuf).utiles_per_mtile),
{
    lemma_tiling_bounds(cmdbuf.fb_width);
    lemma_tiling_bounds(cmdbuf.fb_height);
    let mx = mtile_tiles(tiles_for(cmdbuf.fb_width as int));
    let my = mtile_tiles(tiles_for(cmdbuf.fb_height as int));
    let utiles = utiles_per_tile(cmdbuf.utile_width, cmdbuf.utile_height);
    lemma_utiles_per_tile(cmdbuf.utile_width, cmdbuf.utile_height);
    let m = mx * my;
    assert(16 <= m <= 512 * 512) by (nonlinear_arith)
        requires
            4 <= mx <= 512,
            4 <= my <= 512,
            m == mx * my,
    ;
    assert(5 * m * utiles == 5 * (m * utiles)) by (nonlinear_arith);
    assert(2 * utiles * m == 2 * (m * utiles)) by (nonlinear_arith);
    assert(m * utiles <= 512 * 512 * 4) by (nonlinear_arith)
        requires
            16 <= m <= 512 * 512,
            1 <= utiles <= 4,
    ;
    law_round_up(5 * m * utiles, 4);
}

/// Checks the size of a frame and works out its tiling.
pub fn prepare(cmdbuf: &Cmdbuf) -> (r: Result<TileInfo>)
    ensures
        r == if 1 <= cmdbuf.fb_width <= MAX_DIMENSION && 1 <= cmdbuf.fb_height <= MAX_DIMENSION
            && tiling_ok(*cmdbuf) {
            Ok(tiling(*cmdbuf))
        } else {
            Err(Error::EINVAL)
        },
{
    if cmdbuf.fb_width == 0 || cmdbuf.fb_height == 0 || cmdbuf.fb_width > MAX_DIMENSION
        || cmdbuf.fb_height > MAX_DIMENSION {
        return Err(Error::EINVAL);
    }
    get_tiling_params(cmdbuf)
}

/// What a scene needs to know of the tiling.
pub fn scene_sizes(tile_info: &TileInfo) -> (r: SceneSizes)
    ensures
        r == (SceneSizes { tilemap_size: tile_info.tilemap_size, tpc_size: tile_info.tpc_size }),
{
    SceneSizes { tilemap_size: tile_info.tilemap_size, tpc_size: tile_info.tpc_size }
}

/// The settings of a frame that do not depend on where things are.
#[derive(Copy, Clone, Debug, PartialEq, Eq, Structural)]
pub struct FrameConfig {
    pub tile_config: u64,
    pub utile_config: u32,
}

/// The code of a number of samples.
pub open spec fn samples_code(samples: u32) -> Option<u32> {
    if samples == 1 {
        Some(0)
    } else if samples == 2 {
        Some(1)
    } else if samples == 4 {
        Some(2)
    } else {
        None
    }
}

/// The settings of a frame, if it has a number of samples that the GPU can do.
pub fn frame_config(cmdbuf: &Cmdbuf, tile_info: &TileInfo) -> (r: Result<FrameConfig>)
    requires
        tile_info.utile_width <= 32,
        tile_info.utile_height <= 32,
    ensures
        match samples_code(cmdbuf.samples) {
            Some(code) => r == Ok::<FrameConfig, Error>(
                FrameConfig {
                    tile_config: (0x280 + (if cmdbuf.layers > 1 {
                        1int
                    } else {
                        0
                    }) + (if cmdbuf.flags.process_empty_tiles {
                        0x10000int
                    } else {
                        0
                    })) as u64,
                    utile_config: ((tile_info.utile_width / 16) * 0x1000 + (tile_info.utile_height
                        / 16) * 0x4000 + code) as u32,
                },
            ),
            None => r == Err::<FrameConfig, Error>(Error::EINVAL),
        },
{
    let mut tile_config: u64 = 0x280;
    assert(0x280u64 | 1 == 0x281 && 0x280u64 | 0x10000 == 0x10280 && 0x281u64 | 0x10000 == 0x10281)
        by (bit_vector);
    if cmdbuf.layers > 1 {
        tile_config = tile_config | 1;
    }
    if cmdbuf.flags.process_empty_tiles {
        tile_config = tile_config | 0x10000;
    }
    let utile_config: u32 = ((tile_info.utile_width / 16) << 12) | ((tile_info.utile_height / 16)
        << 14);
    let samples: u32 = match cmdbuf.samples {
        1 => 0,
        2 => 1,
        4 => 2,
        _ => {
            return Err(Error::EINVAL);
        },
    };
    proof {
        let (w, h) = (tile_info.utile_width / 16, tile_info.utile_height / 16);
        assert(((w << 12) | (h << 14)) | samples == w * 0x1000 + h * 0x4000 + samples)
            by (bit_vector)
            requires
                w <= 2,
                h <= 2,
                samples <= 2,
        ;
    }
    Ok(FrameConfig { tile_config, utile_config: utile_config | samples })
}

/// The tiler setting of a frame. Frames are never spread over clusters.
pub fn tiling_control(configured: u32) -> (r: u32)
    ensures
        r == configured | TILECTL_DISABLE_CLUSTERING,
{
    configured | TILECTL_DISABLE_CLUSTERING
}

/// How many blocks a new client's buffer starts with: what is configured, and at least
/// so many for each cluster.
pub fn initial_tvb_blocks(num_clusters: usize, configured: usize) -> (r: usize)
    requires
        MIN_TVB_BLOCKS * num_clusters <= usize::MAX,
    ensures
        r == if MIN_TVB_BLOCKS * num_clusters >= configured {
            MIN_TVB_BLOCKS * num_clusters
        } else {
            configured as int
        },
{
    let min_tvb_blocks: usize = MIN_TVB_BLOCKS * num_clusters;
    if min_tvb_blocks >= configured {
        min_tvb_blocks
    } else {
        configured
    }
}

/// What the jobs of a frame share.
#[derive(Copy, Clone, Debug, PartialEq, Eq, Structural)]
pub struct Frame {
    pub version: FwVersion,
    /// The id of the client.
    pub renderer_id: u64,
    /// The client's notifier.
    pub notifier: u64,
    /// Where the notifier of newer firmware has its buffer.
    pub notifier_buf: u64,
    pub vm_slot: u32,
    pub scene: Scene,
    pub tiles: TileInfo,
    pub config: FrameConfig,
}

/// Where in a fragment job its parts are.
#[derive(Copy, Clone, Debug, PartialEq, Eq, Structural)]
pub struct FragmentParts {
    pub job: u64,
    pub job_params1: u64,
    pub job_params2: u64,
    pub busy_flag: u64,
    pub tvb_overflow_count: u64,
    pub unk_pointee: u64,
    pub unk_758_flag: u64,
    pub unk_buf_0: u64,
}

/// Where in a vertex job its parts are.
#[derive(Copy, Clone, Debug, PartialEq, Eq, Structural)]
pub struct VertexParts {
    pub job: u64,
    pub tiling_params: u64,
    pub job_params1: u64,
    pub unk_pointee: u64,
    pub unk_buf_0: u64,
}

/// The number of attachments that are looked at.
pub open spec fn attachments_used(cmdbuf: Cmdbuf) -> int {
    if cmdbuf.attachment_count < cmdbuf.attachments@.len() {
        cmdbuf.attachment_count as int
    } else {
        cmdbuf.attachments@.len() as int
    }
}

/// An attachment as the firmware takes it: its size is in cache lines of 128 bytes.
pub open spec fn attachment_of(att: CmdAttachment) -> Attachment {
    Attachment {
        address: att.pointer,
        size: ((att.size + 127) / 128) as u32,
        unk_c: 0x17,
        unk_e: 1,
    }
}

/// There is room for the attachments that are looked at, and each has a size that can be
/// rounded up.
pub open spec fn attachments_ok(cmdbuf: Cmdbuf) -> bool {
    &&& attachments_used(cmdbuf) <= MAX_ATTACHMENTS
    &&& forall|i: int|
        0 <= i < attachments_used(cmdbuf) ==> (#[trigger] cmdbuf.attachments@[i]).size + 127
            <= u32::MAX
}

/// The attachments of a frame, as the firmware takes them.
pub fn attachments(cmdbuf: &Cmdbuf) -> (r: Vec<Attachment>)
    requires
        attachments_ok(*cmdbuf),
    ensures
        r@ == Seq::new(
            attachments_used(*cmdbuf) as nat,
            |i: int| attachment_of(cmdbuf.attachments@[i]),
        ),
{
    let mut v: Vec<Attachment> = Vec::new();
    let mut i: usize = 0;
    let count: usize = if (cmdbuf.attachment_count as usize) < cmdbuf.attachments.len() {
        cmdbuf.attachment_count as usize
    } else {
        cmdbuf.attachments.len()
    };
    while i < count
        invariant
            attachments_ok(*cmdbuf),
            i <= count == attachments_used(*cmdbuf),
            count <= cmdbuf.attachments@.len(),
            v@ =~= Seq::new(i as nat, |i: int| attachment_of(cmdbuf.attachments@[i])),
        decreases count - i,
    {
        let att = cmdbuf.attachments[i];
        let size: u32 = att.size + 127;
        assert(size >> 7 == size / 128) by (bit_vector);
        v.push(Attachment { address: att.pointer, size: size >> 7, unk_c: 0x17, unk_e: 1 });
        i = i + 1;
    }
    v
}

/// The notifier buffer, for firmware that takes it.
pub open spec fn notifier_buf(frame: Frame) -> Option<u64> {
    if frame.version == FwVersion::V13_0B4 {
        Some(frame.notifier_buf)
    } else {
        None
    }
}

fn is_ventura(version: FwVersion) -> (r: bool)
    ensures
        r == (version == FwVersion::V13_0B4),
{
    match version {
        FwVersion::V12_3 => false,
        FwVersion::V13_0B4 => true,
    }
}

fn notifier_buf_for(frame: &Frame) -> (r: Option<u64>)
    ensures
        r == notifier_buf(*frame),
{
    if is_ventura(frame.version) {
        Some(frame.notifier_buf)
    } else {
        None
    }
}

/// The operation that starts the fragment job of a frame.
pub open spec fn starts_fragment(
    op: StartFragment,
    cmdbuf: Cmdbuf,
    frame: Frame,
    parts: FragmentParts,
    queue: QueueRef,
    stats: u64,
) -> bool {
    &&& op == (StartFragment {
        job_params2: parts.job_params2,
        job_params1: parts.job_params1,
        scene: frame.scene.buffers.object,
        stats,
        busy_flag: parts.busy_flag,
        tvb_overflow_count: parts.tvb_overflow_count,
        unk_pointer: parts.unk_pointee,
        work_queue: queue.info,
        work_item: parts.job,
        vm_slot: frame.vm_slot,
        event_generation: low32(frame.renderer_id),
        buffer_slot: frame.scene.slot.slot,
        prev_stamp_value: (queue.value.0 / 0x100) as u64,
        unk_758_flag: parts.unk_758_flag,
        unk_job_buf: parts.unk_buf_0,
        uuid: cmdbuf.cmd_3d_id,
        attachments: op.attachments,
        notifier_buf: notifier_buf(frame),
    })
    &&& op.attachments@ == Seq::new(
        attachments_used(cmdbuf) as nat,
        |i: int| attachment_of(cmdbuf.attachments@[i]),
    )
}

/// The operation that finishes the fragment job of a frame.
pub open spec fn finalize_fragment(
    cmdbuf: Cmdbuf,
    frame: Frame,
    parts: FragmentParts,
    queue: QueueRef,
    stats: u64,
    restart_branch_offset: i32,
) -> FinalizeFragment {
    FinalizeFragment {
        uuid: cmdbuf.cmd_3d_id,
        fw_stamp: queue.fw_stamp,
        stamp_value: queue.value.plus(1).0,
        scene: frame.scene.buffers.object,
        buffer: frame.scene.buffers.buffer_info,
        stats,
        unk_pointer: parts.unk_pointee,
        busy_flag: parts.busy_flag,
        work_queue: queue.info,
        work_item: parts.job,
        vm_slot: frame.vm_slot,
        unk_758_flag: parts.unk_758_flag,
        restart_branch_offset,
        ventura: frame.version == FwVersion::V13_0B4,
    }
}

/// A microsequence that starts a job, waits for its pipe, finishes the job and retires
/// its stamp.
pub open spec fn sequence_of<A: Operation, B: Operation>(start: A, pipe: Pipe, finalize: B) -> Seq<
    u8,
> {
    bytes_of(start.fields()) + bytes_of(WaitForIdle { pipe }.fields()) + bytes_of(
        finalize.fields(),
    ) + bytes_of(RetireStamp.fields())
}

/// The microsequence of a fragment job. If the job has to run again, it goes back from
/// its last but one operation to its first.
pub fn fragment_sequence(
    cmdbuf: &Cmdbuf,
    frame: &Frame,
    parts: &FragmentParts,
    queue: &QueueRef,
    stats: u64,
) -> (r: Vec<u8>)
    requires
        attachments_ok(*cmdbuf),
    ensures
        exists|start: StartFragment|
            #![trigger start.fields()]
            {
                &&& starts_fragment(start, *cmdbuf, *frame, *parts, *queue, stats)
                &&& r@ == sequence_of(
                    start,
                    Pipe::Fragment,
                    finalize_fragment(
                        *cmdbuf,
                        *frame,
                        *parts,
                        *queue,
                        stats,
                        -(bytes_of(start.fields()).len() + 4) as i32,
                    ),
                )
            },
        r@.len() == if frame.version == FwVersion::V13_0B4 {
            0x258int
        } else {
            0x238int
        },
{
    let mut builder = Builder::new();
    let start = StartFragment {
        job_params2: parts.job_params2,
        job_params1: parts.job_params1,
        scene: frame.scene.gpu_pointer(),
        stats,
        busy_flag: parts.busy_flag,
        tvb_overflow_count: parts.tvb_overflow_count,
        unk_pointer: parts.unk_pointee,
        work_queue: queue.info,
        work_item: parts.job,
        vm_slot: frame.vm_slot,
        event_generation: low_half(frame.renderer_id),
        buffer_slot: frame.scene.slot(),
        prev_stamp_value: queue.value.counter() as u64,
        unk_758_flag: parts.unk_758_flag,
        unk_job_buf: parts.unk_buf_0,
        uuid: cmdbuf.cmd_3d_id,
        attachments: attachments(cmdbuf),
        notifier_buf: notifier_buf_for(frame),
    };
    let wait = WaitForIdle { pipe: Pipe::Fragment };
    let retire = RetireStamp;
    proof {
        law_start_fragment_size(start);
        law_plain_operation_sizes(wait, retire);
        lemma_bytes_len(start.fields(), start.fields().len() as int);
        lemma_bytes_len(wait.fields(), wait.fields().len() as int);
        lemma_bytes_len(retire.fields(), retire.fields().len() as int);
    }
    let start_frag: i32 = builder.add(&start);
    builder.add(&wait);
    let off: i32 = builder.offset_to(start_frag);
    let finalize = FinalizeFragment {
        uuid: cmdbuf.cmd_3d_id,
        fw_stamp: queue.fw_stamp,
        stamp_value: queue.value.next().stamp(),
        scene: frame.scene.gpu_pointer(),
        buffer: frame.scene.buffer_pointer(),
        stats,
        unk_pointer: parts.unk_pointee,
        busy_flag: parts.busy_flag,
        work_queue: queue.info,
        work_item: parts.job,
        vm_slot: frame.vm_slot,
        unk_758_flag: parts.unk_758_flag,
        restart_branch_offset: off,
        ventura: is_ventura(frame.version),
    };
    proof {
        law_finalize_fragment_size(finalize);
        lemma_bytes_len(finalize.fields(), finalize.fields().len() as int);
    }
    builder.add(&finalize);
    builder.add(&retire);
    let r = builder.build();
    proof {
        assert(starts_fragment(start, *cmdbuf, *frame, *parts, *queue, stats));
        assert(finalize == finalize_fragment(
            *cmdbuf,
            *frame,
            *parts,
            *queue,
            stats,
            -(bytes_of(start.fields()).len() + 4) as i32,
        ));
        assert(r@ =~= sequence_of(start, Pipe::Fragment, finalize));
    }
    r
}

/// The operation that starts the vertex job of a frame.
pub open spec fn start_vertex(
    cmdbuf: Cmdbuf,
    frame: Frame,
    parts: VertexParts,
    queue: QueueRef,
    stats: u64,
) -> StartVertex {
    StartVertex {
        tiling_params: parts.tiling_params,
        job_params1: parts.job_params1,
        buffer: frame.scene.buffers.buffer_info,
        scene: frame.scene.buffers.object,
        stats,
        work_queue: queue.info,
        vm_slot: frame.vm_slot,
        event_generation: low32(frame.renderer_id),
        buffer_slot: frame.scene.slot.slot,
        prev_stamp_value: (queue.value.0 / 0x100) as u64,
        unk_pointer: parts.unk_pointee,
        unk_job_buf: parts.unk_buf_0,
        uuid: cmdbuf.cmd_ta_id,
        notifier_buf: notifier_buf(frame),
    }
}

/// The operation that finishes the vertex job of a frame.
pub open spec fn finalize_vertex(
    cmdbuf: Cmdbuf,
    frame: Frame,
    parts: VertexParts,
    queue: QueueRef,
    stats: u64,
    restart_branch_offset: i32,
) -> FinalizeVertex {
    FinalizeVertex {
        scene: frame.scene.buffers.object,
        buffer: frame.scene.buffers.buffer_info,
        stats,
        work_queue: queue.info,
        vm_slot: frame.vm_slot,
        unk_pointer: parts.unk_pointee,
        uuid: cmdbuf.cmd_ta_id,
        fw_stamp: queue.fw_stamp,
        stamp_value: queue.value.plus(1).0,
        restart_branch_offset,
        ventura: frame.version == FwVersion::V13_0B4,
    }
}

/// The microsequence of a vertex job. If the job has to run again, it goes back from its
/// last but one operation to its first.
pub fn vertex_sequence(
    cmdbuf: &Cmdbuf,
    frame: &Frame,
    parts: &VertexParts,
    queue: &QueueRef,
    stats: u64,
) -> (r: Vec<u8>)
    ensures
        r@ == sequence_of(
            start_vertex(*cmdbuf, *frame, *parts, *queue, stats),
            Pipe::Vertex,
            finalize_vertex(
                *cmdbuf,
                *frame,
                *parts,
                *queue,
                stats,
                if frame.version == FwVersion::V13_0B4 {
                    -0x190i32
                } else {
                    -0x180i32
                } as i32,
            ),
        ),
        r@.len() == if frame.version == FwVersion::V13_0B4 {
            0x218int
        } else {
            0x1f8int
        },
{
    let mut builder = Builder::new();
    let start = StartVertex {
        tiling_params: parts.tiling_params,
        job_params1: parts.job_params1,
        buffer: frame.scene.buffer_pointer(),
        scene: frame.scene.gpu_pointer(),
        stats,
        work_queue: queue.info,
        vm_slot: frame.vm_slot,
        event_generation: low_half(frame.renderer_id),
        buffer_slot: frame.scene.slot(),
        prev_stamp_value: queue.value.counter() as u64,
        unk_pointer: parts.unk_pointee,
        unk_job_buf: parts.unk_buf_0,
        uuid: cmdbuf.cmd_ta_id,
        notifier_buf: notifier_buf_for(frame),
    };
    let wait = WaitForIdle { pipe: Pipe::Vertex };
    let retire = RetireStamp;
    proof {
        law_start_vertex_size(start);
        law_plain_operation_sizes(wait, retire);
        lemma_bytes_len(start.fields(), start.fields().len() as int);
        lemma_bytes_len(wait.fields(), wait.fields().len() as int);
        lemma_bytes_len(retire.fields(), retire.fields().len() as int);
    }
    let start_vtx: i32 = builder.add(&start);
    builder.add(&wait);
    let off: i32 = builder.offset_to(start_vtx);
    let finalize = FinalizeVertex {
        scene: frame.scene.gpu_pointer(),
        buffer: frame.scene.buffer_pointer(),
        stats,
        work_queue: queue.info,
        vm_slot: frame.vm_slot,
        unk_pointer: parts.unk_pointee,
        uuid: cmdbuf.cmd_ta_id,
        fw_stamp: queue.fw_stamp,
        stamp_value: queue.value.next().stamp(),
        restart_branch_offset: off,
        ventura: is_ventura(frame.version),
    };
    proof {
        law_finalize_vertex_size(finalize);
        lemma_bytes_len(finalize.fields(), finalize.fields().len() as int);
    }
    builder.add(&finalize);
    builder.add(&retire);
    let r = builder.build();
    proof {
        assert(start == start_vertex(*cmdbuf, *frame, *parts, *queue, stats));
        assert(r@ =~= sequence_of(start, Pipe::Vertex, finalize));
    }
    r
}

/// The counter that newer firmware has in a job.
pub open spec fn job_counter(version: FwVersion) -> Option<u64> {
    if version == FwVersion::V13_0B4 {
        Some(1)
    } else {
        None
    }
}

fn counter_for(version: FwVersion) -> (r: Option<u64>)
    ensures
        r == job_counter(version),
{
    match version {
        FwVersion::V12_3 => None,
        FwVersion::V13_0B4 => Some(1),
    }
}

fn flag(set: bool) -> (r: u32)
    ensures
        r == if set {
            1u32
        } else {
            0u32
        },
{
    if set {
        1
    } else {
        0
    }
}

pub open spec fn flag_word(set: bool) -> u32 {
    if set {
        1
    } else {
        0
    }
}

/// The fragment job of a frame.
pub open spec fn fragment_job(
    cmdbuf: Cmdbuf,
    frame: Frame,
    queue: QueueRef,
    micro_seq: MicroSeqRef,
    aux_fb: u64,
) -> RunFragment {
    RunFragment {
        tag: CommandType::RunFragment,
        counter: job_counter(frame.version),
        vm_slot: frame.vm_slot,
        microsequence: micro_seq.address,
        microsequence_size: micro_seq.size,
        notifier: frame.notifier,
        buffer: frame.scene.buffers.buffer_info,
        scene: frame.scene.buffers.object,
        unk_buffer_buf: frame.scene.buffers.kernel_buffer,
        tvb_tilemap: frame.scene.buffers.tvb_tilemap,
        ppp_multisamplectl: cmdbuf.ppp_multisamplectl,
        samples: cmdbuf.samples,
        tiles_per_mtile_y: frame.tiles.tiles_per_mtile_y as u16,
        tiles_per_mtile_x: frame.tiles.tiles_per_mtile_x as u16,
        merge_upper_x: cmdbuf.merge_upper_x,
        merge_upper_y: cmdbuf.merge_upper_y,
        tile_count: frame.tiles.tiles as u64,
        job_params1: fragment::JobParameters1::spec_new(
            cmdbuf,
            frame.version,
            frame.scene,
            frame.config.utile_config,
            frame.config.tile_config,
            frame.tiles.params.rgn_size,
            aux_fb,
        ),
        job_params2: fragment::JobParameters2::spec_new(cmdbuf, frame.tiles),
        job_params3: fragment::JobParameters3::spec_new(cmdbuf, frame.version),
        encoder_params: EncoderParams {
            unk_8: flag_word(cmdbuf.flags.set_when_reloading_z_or_s),
            encoder_id: cmdbuf.encoder_id,
            unk_1c: 0xffff_ffff,
            seq_buffer: frame.scene.buffers.seq_buf,
        },
        process_empty_tiles: flag_word(cmdbuf.flags.process_empty_tiles),
        no_clear_pipeline_textures: flag_word(cmdbuf.flags.no_clear_pipeline_textures),
        meta: JobMeta {
            stamp: queue.stamp,
            fw_stamp: queue.fw_stamp,
            stamp_value: queue.value.plus(1),
            stamp_slot: queue.slot,
            uuid: cmdbuf.cmd_3d_id,
            prev_stamp_value: queue.value.0 / 0x100,
        },
        client_seq: (frame.renderer_id % 0x100) as u8,
    }
}

fn client_seq(id: u64) -> (r: u8)
    ensures
        r == id % 0x100,
{
    (id % 0x100) as u8
}

pub fn run_fragment(
    cmdbuf: &Cmdbuf,
    frame: &Frame,
    queue: &QueueRef,
    micro_seq: &MicroSeqRef,
    aux_fb: u64,
) -> (r: RunFragment)
    requires
        frame.tiles.tiles_x >= 1,
        frame.tiles.tiles_y >= 1,
    ensures
        r == fragment_job(*cmdbuf, *frame, *queue, *micro_seq, aux_fb),
{
    RunFragment {
        tag: CommandType::RunFragment,
        counter: counter_for(frame.version),
        vm_slot: frame.vm_slot,
        microsequence: micro_seq.address,
        microsequence_size: micro_seq.size,
        notifier: frame.notifier,
        buffer: frame.scene.buffer_pointer(),
        scene: frame.scene.gpu_pointer(),
        unk_buffer_buf: frame.scene.kernel_buffer_pointer(),
        tvb_tilemap: frame.scene.tvb_tilemap_pointer(),
        ppp_multisamplectl: cmdbuf.ppp_multisamplectl,
        samples: cmdbuf.samples,
        tiles_per_mtile_y: frame.tiles.tiles_per_mtile_y as u16,
        tiles_per_mtile_x: frame.tiles.tiles_per_mtile_x as u16,
        merge_upper_x: cmdbuf.merge_upper_x,
        merge_upper_y: cmdbuf.merge_upper_y,
        tile_count: frame.tiles.tiles as u64,
        job_params1: fragment::JobParameters1::new(
            cmdbuf,
            frame.version,
            &frame.scene,
            frame.config.utile_config,
            frame.config.tile_config,
            frame.tiles.params.rgn_size,
            aux_fb,
        ),
        job_params2: fragment::JobParameters2::new(cmdbuf, &frame.tiles),
        job_params3: fragment::JobParameters3::new(cmdbuf, frame.version),
        encoder_params: EncoderParams::new(
            flag(cmdbuf.flags.set_when_reloading_z_or_s),
            cmdbuf.encoder_id,
            frame.scene.seq_buf_pointer(),
        ),
        process_empty_tiles: flag(cmdbuf.flags.process_empty_tiles),
        no_clear_pipeline_textures: flag(cmdbuf.flags.no_clear_pipeline_textures),
        meta: JobMeta::new(queue, cmdbuf.cmd_3d_id),
        client_seq: client_seq(frame.renderer_id),
    }
}

/// The vertex job of a frame.
pub open spec fn vertex_job(
    cmdbuf: Cmdbuf,
    frame: Frame,
    queue: QueueRef,
    frag: QueueRef,
    micro_seq: MicroSeqRef,
    core_masks: Seq<u32>,
    tiling_control: u32,
) -> RunVertex {
    RunVertex {
        tag: CommandType::RunVertex,
        counter: job_counter(frame.version),
        vm_slot: frame.vm_slot,
        notifier: frame.notifier,
        buffer_slot: frame.scene.slot.slot,
        buffer: frame.scene.buffers.buffer_info,
        scene: frame.scene.buffers.object,
        unk_buffer_buf: frame.scene.buffers.kernel_buffer,
        job_params1: vertex::JobParameters1::spec_new(
            cmdbuf,
            frame.scene,
            frame.config.utile_config,
            core_masks,
            tiling_control,
            false,
        ),
        tiling_params: frame.tiles.params,
        tpc: frame.scene.buffers.tpc,
        tpc_size: frame.tiles.tpc_size,
        microsequence: micro_seq.address,
        microsequence_size: micro_seq.size,
        fragment_stamp_slot: frag.slot,
        fragment_stamp_value: frag.value.plus(1),
        preempt_buf1: frame.scene.buffers.preempt_buf,
        encoder_params: EncoderParams {
            unk_8: 0,
            encoder_id: cmdbuf.encoder_id,
            unk_1c: 0xffff_ffff,
            seq_buffer: frame.scene.buffers.seq_buf,
        },
        memoryless_rts_used: flag_word(cmdbuf.flags.memoryless_rts_used),
        meta: JobMeta {
            stamp: queue.stamp,
            fw_stamp: queue.fw_stamp,
            stamp_value: queue.value.plus(1),
            stamp_slot: queue.slot,
            uuid: cmdbuf.cmd_ta_id,
            prev_stamp_value: queue.value.0 / 0x100,
        },
        client_seq: (frame.renderer_id % 0x100) as u8,
    }
}

pub fn run_vertex(
    cmdbuf: &Cmdbuf,
    frame: &Frame,
    queue: &QueueRef,
    frag: &QueueRef,
    micro_seq: &MicroSeqRef,
    core_masks: &Vec<u32>,
    tiling_control: u32,
) -> (r: RunVertex)
    requires
        frame.scene.wf(),
    ensures
        r == vertex_job(*cmdbuf, *frame, *queue, *frag, *micro_seq, core_masks@, tiling_control),
{
    RunVertex {
        tag: CommandType::RunVertex,
        counter: counter_for(frame.version),
        vm_slot: frame.vm_slot,
        notifier: frame.notifier,
        buffer_slot: frame.scene.slot(),
        buffer: frame.scene.buffer_pointer(),
        scene: frame.scene.gpu_pointer(),
        unk_buffer_buf: frame.scene.kernel_buffer_pointer(),
        job_params1: vertex::JobParameters1::new(
            cmdbuf,
            &frame.scene,
            frame.config.utile_config,
            core_masks,
            tiling_control,
            false,
        ),
        tiling_params: frame.tiles.params,
        tpc: frame.scene.tpc_pointer(),
        tpc_size: frame.tiles.tpc_size,
        microsequence: micro_seq.address,
        microsequence_size: micro_seq.size,
        fragment_stamp_slot: frag.slot,
        fragment_stamp_value: frag.value.next(),
        preempt_buf1: frame.scene.preempt_buf_1_pointer(),
        encoder_params: EncoderParams::new(0, cmdbuf.encoder_id, frame.scene.seq_buf_pointer()),
        memoryless_rts_used: flag(cmdbuf.flags.memoryless_rts_used),
        meta: JobMeta::new(queue, cmdbuf.cmd_ta_id),
        client_seq: client_seq(frame.renderer_id),
    }
}

/// What is done for a frame, in this order. If a step fails the frame fails with its
/// error, and open batches end, which takes back what they had not committed.
#[derive(Copy, Clone, Debug, PartialEq, Eq, Structural)]
pub enum RenderStep {
    /// Open a batch on the vertex queue.
    BeginVertex,
    /// Open a batch on the fragment queue.
    BeginFragment,
    /// Open a scene in the tiler buffer.
    NewScene,
    /// Bind the user's address space.
    BindVm,
    /// Let the fragment queue wait for the vertex job.
    AddBarrier,
    /// Settle the configuration of the frame and make the fragment job.
    MakeFragment,
    /// Let the vertex queue tell the GPU about the tiler buffer.
    AddInitBuffer,
    /// Make the vertex job.
    MakeVertex,
    /// Count the fragment job in the notifier threshold.
    CountFragment,
    /// Add the fragment job to its batch.
    AddFragment,
    /// Commit the fragment batch.
    CommitFragment,
    /// Count the vertex job in the notifier threshold.
    CountVertex,
    /// Add the vertex job to its batch.
    AddVertex,
    /// Commit the vertex batch.
    CommitVertex,
    /// Tell the GPU to run the fragment queue.
    SubmitFragment,
    /// Tell the GPU to run the vertex queue.
    SubmitVertex,
    /// Wait for the vertex batch.
    WaitVertex,
    /// Wait for the fragment batch.
    WaitFragment,
    /// Wait until the GPU has powered off, for debugging.
    WaitForPowerOff,
    /// The frame is finished.
    Done,
}

impl RenderStep {
    /// Where the step stands in the order.
    pub open spec fn position(self) -> int {
        match self {
            RenderStep::BeginVertex => 0,
            RenderStep::BeginFragment => 1,
            RenderStep::NewScene => 2,
            RenderStep::BindVm => 3,
            RenderStep::AddBarrier => 4,
            RenderStep::MakeFragment => 5,
            RenderStep::AddInitBuffer => 6,
            RenderStep::MakeVertex => 7,
            RenderStep::CountFragment => 8,
            RenderStep::AddFragment => 9,
            RenderStep::CommitFragment => 10,
            RenderStep::CountVertex => 11,
            RenderStep::AddVertex => 12,
            RenderStep::CommitVertex => 13,
            RenderStep::SubmitFragment => 14,
            RenderStep::SubmitVertex => 15,
            RenderStep::WaitVertex => 16,
            RenderStep::WaitFragment => 17,
            RenderStep::WaitForPowerOff => 18,
            RenderStep::Done => 19,
        }
    }

    /// A step that only some frames take.
    pub open spec fn skipped(self, rebind: bool, power_off: bool) -> bool {
        ||| self is AddInitBuffer && !rebind
        ||| self is WaitForPowerOff && !power_off
    }

    /// The step after this one: the tiler buffer is introduced to the GPU if its slot is
    /// new to it (`rebind`), and waiting for the power to go off is optional.
    pub fn next(self, rebind: bool, power_off: bool) -> (r: RenderStep)
        ensures
            self is Done ==> r is Done,
            self !is Done ==> {
                &&& self.position() < r.position()
                &&& !r.skipped(rebind, power_off)
                &&& forall|between: RenderStep|
                    self.position() < #[trigger] between.position() < r.position()
                        ==> between.skipped(rebind, power_off)
            },
    {
        match self {
            RenderStep::BeginVertex => RenderStep::BeginFragment,
            RenderStep::BeginFragment => RenderStep::NewScene,
            RenderStep::NewScene => RenderStep::BindVm,
            RenderStep::BindVm => RenderStep::AddBarrier,
            RenderStep::AddBarrier => RenderStep::MakeFragment,
            RenderStep::MakeFragment => if rebind {
                RenderStep::AddInitBuffer
            } else {
                RenderStep::MakeVertex
            },
            RenderStep::AddInitBuffer => RenderStep::MakeVertex,
            RenderStep::MakeVertex => RenderStep::CountFragment,
            RenderStep::CountFragment => RenderStep::AddFragment,
            RenderStep::AddFragment => RenderStep::CommitFragment,
            RenderStep::CommitFragment => RenderStep::CountVertex,
            RenderStep::CountVertex => RenderStep::AddVertex,
            RenderStep::AddVertex => RenderStep::CommitVertex,
            RenderStep::CommitVertex => RenderStep::SubmitFragment,
            RenderStep::SubmitFragment => RenderStep::SubmitVertex,
            RenderStep::SubmitVertex => RenderStep::WaitVertex,
            RenderStep::WaitVertex => RenderStep::WaitFragment,
            RenderStep::WaitFragment => if power_off {
                RenderStep::WaitForPowerOff
            } else {
                RenderStep::Done
            },
            RenderStep::WaitForPowerOff => RenderStep::Done,
            RenderStep::Done => RenderStep::Done,
        }
    }
}

/// The order of the steps keeps what the queues need: a batch is opened, filled,
/// committed and submitted in that order, the fragment queue is told to run before the
/// vertex queue, and every job is counted before it can complete.
pub proof fn law_steps_are_ordered()
    ensures
        RenderStep::BeginFragment.position() < RenderStep::AddBarrier.position()
            < RenderStep::AddFragment.position() < RenderStep::CommitFragment.position()
            < RenderStep::SubmitFragment.position() < RenderStep::WaitFragment.position(),
        RenderStep::BeginVertex.position() < RenderStep::AddInitBuffer.position()
            < RenderStep::AddVertex.position() < RenderStep::CommitVertex.position()
            < RenderStep::SubmitVertex.position() < RenderStep::WaitVertex.position(),
        RenderStep::SubmitFragment.position() < RenderStep::SubmitVertex.position(),
        RenderStep::CountFragment.position() < RenderStep::SubmitFragment.position(),
        RenderStep::CountVertex.position() < RenderStep::SubmitVertex.position(),
        forall|a: RenderStep, b: RenderStep| #[trigger]
            a.position() == #[trigger] b.position() ==> a == b,
{
}

/// The queue and event that a batch is open on.
pub fn queue_ref<C>(batch: &WorkQueueBatch<C>) -> (r: QueueRef)
    requires
        batch.wf(),
    ensures
        r == (QueueRef {
            info: batch@.queue.info,
            stamp: batch@.queue.event->0.event.item.gpu_stamp,
            fw_stamp: batch@.queue.event->0.event.item.gpu_fw_stamp,
            slot: batch@.queue.event->0.event.token.slot,
            value: batch@.queue.event->0.value,
        }),
{
    let event = batch.event();
    QueueRef {
        info: batch.info_pointer(),
        stamp: event.item.stamp_pointer(),
        fw_stamp: event.item.fw_stamp_pointer(),
        slot: event.slot(),
        value: batch.event_value(),
    }
}

/// The value that the fragment queue's barrier waits for, and that the vertex job's
/// stamp reaches, is the one that the vertex batch completes with.
pub proof fn law_barrier_waits_for_the_vertex_batch<C>(
    batch: OpenBatch<C>,
    vtx: QueueRef,
    frag: QueueRef,
    uuid: u32,
    meta: JobMeta,
    barrier: Barrier,
)
    requires
        batch.wf(),
        vtx.value == batch.queue.event->0.value,
        meta == (JobMeta {
            stamp: vtx.stamp,
            fw_stamp: vtx.fw_stamp,
            stamp_value: vtx.value.plus(1),
            stamp_slot: vtx.slot,
            uuid,
            prev_stamp_value: vtx.value.0 / 0x100,
        }),
        barrier == (Barrier {
            tag: CommandType::Barrier,
            wait_stamp: vtx.fw_stamp,
            wait_value: vtx.value.plus(1),
            wait_slot: vtx.slot,
            stamp_self: frag.value.plus(1),
            uuid,
        }),
    ensures
        barrier.wait_value == batch.batch().value,
        meta.stamp_value == batch.batch().value,
        barrier.wait_slot == meta.stamp_slot,
        barrier.wait_stamp == meta.fw_stamp,
{
}

/// A frame is refused if it is too large, has no layer or too many, or asks for small
/// tiles of a size that the GPU does not have, and for no other reason.
pub proof fn law_refused_frames(cmdbuf: Cmdbuf, r: Result<TileInfo>, checked: Result<TileInfo>)
    requires
        call_ensures(get_tiling_params, (&cmdbuf,), r),
        call_ensures(prepare, (&cmdbuf,), checked),
    ensures
        r is Err <==> {
            ||| cmdbuf.fb_width > 65536
            ||| cmdbuf.fb_height > 65536
            ||| cmdbuf.layers == 0
            ||| cmdbuf.layers > 2048
            ||| (cmdbuf.utile_width, cmdbuf.utile_height) != (32u32, 32u32) && (
            cmdbuf.utile_width,
            cmdbuf.utile_height,
        ) != (32u32, 16u32) && (cmdbuf.utile_width, cmdbuf.utile_height) != (16u32, 16u32)
        },
        r is Err ==> r == Err::<TileInfo, Error>(Error::EINVAL),
        checked is Err ==> checked == Err::<TileInfo, Error>(Error::EINVAL),
        checked is Err <==> {
            ||| cmdbuf.fb_width == 0
            ||| cmdbuf.fb_height == 0
            ||| cmdbuf.fb_width > 16384
            ||| cmdbuf.fb_height > 16384
            ||| r is Err
        },
        checked is Ok ==> checked == r,
{
}

/// The small tiles of a macrotile fill it exactly, by their area and along each side.
pub proof fn law_small_tiles_fill_a_macrotile(cmdbuf: Cmdbuf, r: Result<TileInfo>)
    requires
        cmdbuf.fb_width >= 1,
        cmdbuf.fb_height >= 1,
        call_ensures(get_tiling_params, (&cmdbuf,), r),
    ensures
        r matches Ok(t) ==> {
            &&& t.utile_width == cmdbuf.utile_width
            &&& t.utile_height == cmdbuf.utile_height
            &&& t.utiles_per_mtile_x * t.utile_width == 32 * t.tiles_per_mtile_x
            &&& t.utiles_per_mtile_y * t.utile_height == 32 * t.tiles_per_mtile_y
            &&& t.utiles_per_mtile == t.utiles_per_mtile_x * t.utiles_per_mtile_y
            &&& t.utiles_per_mtile * (t.utile_width * t.utile_height) == t.tiles_per_mtile * (32
                * 32)
        },
{
    if let Ok(t) = r {
        lemma_tiling_bounds(cmdbuf.fb_width);
        lemma_tiling_bounds(cmdbuf.fb_height);
        lemma_utile_counts(cmdbuf.utile_width);
        lemma_utile_counts(cmdbuf.utile_height);
        let (w, h) = (cmdbuf.utile_width as int, cmdbuf.utile_height as int);
        let (a, b) = (32int / w, 32int / h);
        let mx = mtile_tiles(tiles_for(cmdbuf.fb_width as int));
        let my = mtile_tiles(tiles_for(cmdbuf.fb_height as int));
        assert(a * w == 32 && b * h == 32);
        assert(0 <= mx * a <= 1024) by (nonlinear_arith)
            requires
                4 <= mx <= 512,
                1 <= a <= 2,
        ;
        assert(0 <= my * b <= 1024) by (nonlinear_arith)
            requires
                4 <= my <= 512,
                1 <= b <= 2,
        ;
        assert(0 <= mx * my <= 512 * 512) by (nonlinear_arith)
            requires
                4 <= mx <= 512,
                4 <= my <= 512,
        ;
        let m = mx * my;
        assert(0 <= m * (a * b) <= 512 * 512 * 4) by (nonlinear_arith)
            requires
                0 <= m <= 512 * 512,
                a == 1 || a == 2,
                b == 1 || b == 2,
        ;
        assert(t.utiles_per_mtile == m * (a * b));
        assert(mx * a * w == 32 * mx && my * b * h == 32 * my && m * (a * b) == (mx * a) * (my * b)
            && m * (a * b) * (w * h) == m * (32 * 32)) by (nonlinear_arith)
            requires
                a * w == 32,
                b * h == 32,
                m == mx * my,
        ;
    }
}

/// The tiles cover the frame without one to spare, and the macrotiles, of which there are
/// four each way, cover the tiles with as few as can be had in fours.
pub proof fn law_tiles_are_as_few_as_possible(cmdbuf: Cmdbuf, r: Result<TileInfo>)
    requires
        cmdbuf.fb_width >= 1,
        cmdbuf.fb_height >= 1,
        call_ensures(get_tiling_params, (&cmdbuf,), r),
    ensures
        r matches Ok(t) ==> {
            &&& 32 * (t.tiles_x - 1) < cmdbuf.fb_width <= 32 * t.tiles_x
            &&& 32 * (t.tiles_y - 1) < cmdbuf.fb_height <= 32 * t.tiles_y
            &&& t.tiles == t.tiles_x * t.tiles_y
            &&& t.mtiles_x == t.mtiles_y == 4
            &&& t.tiles_per_mtile_x % 4 == 0 && t.tiles_per_mtile_y % 4 == 0
            &&& t.mtiles_x * (t.tiles_per_mtile_x - 4) < t.tiles_x <= t.mtiles_x
                * t.tiles_per_mtile_x
            &&& t.mtiles_y * (t.tiles_per_mtile_y - 4) < t.tiles_y <= t.mtiles_y
                * t.tiles_per_mtile_y
            &&& t.tiles_per_mtile == t.tiles_per_mtile_x * t.tiles_per_mtile_y
        },
{
    if let Ok(t) = r {
        lemma_tiling_bounds(cmdbuf.fb_width);
        lemma_tiling_bounds(cmdbuf.fb_height);
        let (tx, ty) = (tiles_for(cmdbuf.fb_width as int), tiles_for(cmdbuf.fb_height as int));
        law_round_up((tx + 3) / 4, 4);
        law_round_up((ty + 3) / 4, 4);
        let (mx, my) = (mtile_tiles(tx), mtile_tiles(ty));
        assert(0 <= tx * ty <= 2048 * 2048) by (nonlinear_arith)
            requires
                1 <= tx <= 2048,
                1 <= ty <= 2048,
        ;
        assert(0 <= mx * my <= 512 * 512) by (nonlinear_arith)
            requires
                4 <= mx <= 512,
                4 <= my <= 512,
        ;
    }
}

/// The memory of the tiler: five bytes for each small tile of a macrotile, in whole words,
/// and eight bytes for each pointer, both for all of the macrotiles.
pub proof fn law_tiler_memory_is_exact(cmdbuf: Cmdbuf, r: Result<TileInfo>)
    requires
        cmdbuf.fb_width >= 1,
        cmdbuf.fb_height >= 1,
        call_ensures(get_tiling_params, (&cmdbuf,), r),
    ensures
        r matches Ok(t) ==> {
            &&& 5 * t.utiles_per_mtile <= 4 * t.params.rgn_size < 5 * t.utiles_per_mtile + 4
            &&& 4 * t.params.tpc_stride == 8 * t.utiles_per_mtile
            &&& t.tilemap_size == t.mtiles_x * t.mtiles_y * (4 * t.params.rgn_size)
            &&& t.tpc_size == t.mtiles_x * t.mtiles_y * (4 * t.params.tpc_stride)
        },
{
    if let Ok(t) = r {
        lemma_tiling_bounds(cmdbuf.fb_width);
        lemma_tiling_bounds(cmdbuf.fb_height);
        let mx = mtile_tiles(tiles_for(cmdbuf.fb_width as int));
        let my = mtile_tiles(tiles_for(cmdbuf.fb_height as int));
        let utiles = utiles_per_tile(cmdbuf.utile_width, cmdbuf.utile_height);
        lemma_utiles_per_tile(cmdbuf.utile_width, cmdbuf.utile_height);
        let m = mx * my;
        assert(16 <= m <= 512 * 512) by (nonlinear_arith)
            requires
                4 <= mx <= 512,
                4 <= my <= 512,
                m == mx * my,
        ;
        assert(5 * m * utiles == 5 * (m * utiles)) by (nonlinear_arith);
        assert(2 * utiles * m == 2 * (m * utiles)) by (nonlinear_arith);
        assert(0 <= m * utiles <= 512 * 512 * 4) by (nonlinear_arith)
            requires
                16 <= m <= 512 * 512,
                1 <= utiles <= 4,
        ;
        law_round_up(5 * m * utiles, 4);
        let (a, b) = (t.params.rgn_size as int, t.params.tpc_stride as int);
        assert(t.mtiles_x * t.mtiles_y * (4 * a) == 64 * a && t.mtiles_x * t.mtiles_y * (4 * b)
            == 64 * b) by (nonlinear_arith)
            requires
                t.mtiles_x == 4,
                t.mtiles_y == 4,
        ;
    }
}

/// The tiler finds in its parameters the last pixel, the last tile, the macrotile borders
/// and the number of layers of the frame.
pub proof fn law_tiler_parameters_describe_the_frame(cmdbuf: Cmdbuf, r: Result<TileInfo>)
    requires
        cmdbuf.fb_width >= 1,
        cmdbuf.fb_height >= 1,
        call_ensures(get_tiling_params, (&cmdbuf,), r),
    ensures
        r matches Ok(t) ==> {
            &&& t.params.x_max + 1 == cmdbuf.fb_width
            &&& t.params.y_max + 1 == cmdbuf.fb_height
            &&& t.params.te_screen % 0x1000 + 1 == t.tiles_x
            &&& t.params.te_screen / 0x1000 + 1 == t.tiles_y
            &&& cmdbuf.fb_width <= MAX_DIMENSION ==> {
                &&& t.params.te_mtile1 >> 18 == t.tiles_per_mtile_x
                &&& (t.params.te_mtile1 >> 9) & 0x1ff == 2 * t.tiles_per_mtile_x
                &&& t.params.te_mtile1 & 0x1ff == 3 * t.tiles_per_mtile_x
            }
            &&& cmdbuf.fb_height <= MAX_DIMENSION ==> {
                &&& t.params.te_mtile2 >> 18 == t.tiles_per_mtile_y
                &&& (t.params.te_mtile2 >> 9) & 0x1ff == 2 * t.tiles_per_mtile_y
                &&& t.params.te_mtile2 & 0x1ff == 3 * t.tiles_per_mtile_y
            }
            &&& t.params.tiles_per_mtile == t.tiles_per_mtile
            &&& t.params.ppp_ctrl == cmdbuf.ppp_ctrl
            &&& cmdbuf.layers == 1 ==> t.params.unk_28 == 0x8000
            &&& cmdbuf.layers > 1 ==> t.params.unk_28 - 0xe000 + 1 == cmdbuf.layers
            &&& t.params.unk_4 == 0x88
            &&& t.params.unk_24 == 0x100
        },
{
    if let Ok(t) = r {
        lemma_tiling_bounds(cmdbuf.fb_width);
        lemma_tiling_bounds(cmdbuf.fb_height);
        if cmdbuf.fb_width <= MAX_DIMENSION {
            law_mtile_borders_unpack(cmdbuf.fb_width);
        }
        if cmdbuf.fb_height <= MAX_DIMENSION {
            law_mtile_borders_unpack(cmdbuf.fb_height);
        }
    }
}

/// The settings of a frame can be read back: the number of samples, the size of the small
/// tiles, whether there are layers, and whether empty tiles are looked at.
pub proof fn law_frame_settings_read_back(
    cmdbuf: Cmdbuf,
    tiles: TileInfo,
    r: Result<FrameConfig>,
)
    requires
        tiles.utile_width <= 32,
        tiles.utile_height <= 32,
        call_ensures(frame_config, (&cmdbuf, &tiles), r),
    ensures
        r is Ok <==> cmdbuf.samples == 1 || cmdbuf.samples == 2 || cmdbuf.samples == 4,
        r is Err ==> r == Err::<FrameConfig, Error>(Error::EINVAL),
        r matches Ok(c) ==> {
            &&& vstd::arithmetic::power2::pow2((c.utile_config % 0x1000) as nat) == cmdbuf.samples
            &&& 16 * ((c.utile_config / 0x1000) % 4) <= tiles.utile_width < 16 * ((c.utile_config
                / 0x1000) % 4) + 16
            &&& 16 * (c.utile_config / 0x4000) <= tiles.utile_height < 16 * (c.utile_config
                / 0x4000) + 16
            &&& c.tile_config % 2 == 1 <==> cmdbuf.layers > 1
            &&& c.tile_config >= 0x10000 <==> cmdbuf.flags.process_empty_tiles
            &&& (c.tile_config % 0x10000) / 2 == 0x140
            &&& c.tile_config < 0x20000
        },
{
    vstd::arithmetic::power2::lemma2_to64();
}

/// The firmware's attachments are the user's, in order and as many as the user counts: an
/// image is covered by whole cache lines, with less than one to spare.
pub proof fn law_attachments_cover_their_images(cmdbuf: Cmdbuf, r: Vec<Attachment>, i: int)
    requires
        attachments_ok(cmdbuf),
        call_ensures(attachments, (&cmdbuf,), r),
    ensures
        r@.len() <= cmdbuf.attachment_count,
        r@.len() <= cmdbuf.attachments@.len(),
        r@.len() == cmdbuf.attachment_count || r@.len() == cmdbuf.attachments@.len(),
        0 <= i < r@.len() ==> {
            &&& r@[i].address == cmdbuf.attachments@[i].pointer
            &&& cmdbuf.attachments@[i].size <= 128 * r@[i].size < cmdbuf.attachments@[i].size + 128
            &&& r@[i].unk_c == 0x17
            &&& r@[i].unk_e == 1
        },
{
}

/// A scene is given room for the whole tile map and for all tile pointers.
pub proof fn law_scene_fits_the_tiling(tiles: TileInfo, r: SceneSizes)
    requires
        call_ensures(scene_sizes, (&tiles,), r),
    ensures
        r.tilemap_size == tiles.tilemap_size,
        r.tpc_size == tiles.tpc_size,
{
}

/// A client starts with no fewer blocks than configured and no fewer than eight for each
/// cluster, and with no more than one of the two asks for.
pub proof fn law_first_blocks(num_clusters: usize, configured: usize, r: usize)
    requires
        8 * num_clusters <= usize::MAX,
        call_ensures(initial_tvb_blocks, (num_clusters, configured), r),
    ensures
        r >= configured,
        r >= 8 * num_clusters,
        r == configured || r == 8 * num_clusters,
{
}

/// Clustering is always off, and the other settings of the tiler are as configured.
pub proof fn law_clustering_is_off(configured: u32, r: u32)
    requires
        call_ensures(tiling_control, (configured,), r),
    ensures
        r % 2 == 1,
        r / 2 == configured / 2,
{
    assert((configured | 1) % 2 == 1 && (configured | 1) / 2 == configured / 2) by (bit_vector);
}

/// Each step is followed by the next; two of them only where they are wanted.
pub proof fn law_steps_in_order(s: RenderStep, rebind: bool, power_off: bool, r: RenderStep)
    requires
        call_ensures(RenderStep::next, (s, rebind, power_off), r),
    ensures
        s is BeginVertex ==> r is BeginFragment,
        s is BeginFragment ==> r is NewScene,
        s is NewScene ==> r is BindVm,
        s is BindVm ==> r is AddBarrier,
        s is AddBarrier ==> r is MakeFragment,
        s is MakeFragment && rebind ==> r is AddInitBuffer,
        s is MakeFragment && !rebind ==> r is MakeVertex,
        s is AddInitBuffer ==> r is MakeVertex,
        s is MakeVertex ==> r is CountFragment,
        s is CountFragment ==> r is AddFragment,
        s is AddFragment ==> r is CommitFragment,
        s is CommitFragment ==> r is CountVertex,
        s is CountVertex ==> r is AddVertex,
        s is AddVertex ==> r is CommitVertex,
        s is CommitVertex ==> r is SubmitFragment,
        s is SubmitFragment ==> r is SubmitVertex,
        s is SubmitVertex ==> r is WaitVertex,
        s is WaitVertex ==> r is WaitFragment,
        s is WaitFragment && power_off ==> r is WaitForPowerOff,
        s is WaitFragment && !power_off ==> r is Done,
        s is WaitForPowerOff ==> r is Done,
        s is Done ==> r is Done,
{
    assert(RenderStep::BeginFragment.position() == 1);
    assert(RenderStep::NewScene.position() == 2);
    assert(RenderStep::BindVm.position() == 3);
    assert(RenderStep::AddBarrier.position() == 4);
    assert(RenderStep::MakeFragment.position() == 5);
    assert(RenderStep::AddInitBuffer.position() == 6);
    assert(RenderStep::MakeVertex.position() == 7);
    assert(RenderStep::CountFragment.position() == 8);
    assert(RenderStep::AddFragment.position() == 9);
    assert(RenderStep::CommitFragment.position() == 10);
    assert(RenderStep::CountVertex.position() == 11);
    assert(RenderStep::AddVertex.position() == 12);
    assert(RenderStep::CommitVertex.position() == 13);
    assert(RenderStep::SubmitFragment.position() == 14);
    assert(RenderStep::SubmitVertex.position() == 15);
    assert(RenderStep::WaitVertex.position() == 16);
    assert(RenderStep::WaitFragment.position() == 17);
    assert(RenderStep::WaitForPowerOff.position() == 18);
    assert(RenderStep::Done.position() == 19);
}

/// The depth, the stencil and their metadata are written to and read from the buffers that
/// the user gave for them, and a job that was interrupted goes on with the same ones.
pub proof fn law_depth_and_stencil_stay_apart(
    cmdbuf: Cmdbuf,
    frame: Frame,
    queue: QueueRef,
    micro_seq: MicroSeqRef,
    aux_fb: u64,
    r: RunFragment,
)
    requires
        frame.tiles.tiles_x >= 1,
        frame.tiles.tiles_y >= 1,
        call_ensures(run_fragment, (&cmdbuf, &frame, &queue, &micro_seq, aux_fb), r),
    ensures
        r.job_params1.depth_buffer_ptr1 == r.job_params3.depth_buffer_ptr1 == cmdbuf.depth_buffer_1,
        r.job_params1.depth_buffer_ptr2 == r.job_params3.depth_buffer_ptr2 == cmdbuf.depth_buffer_2,
        r.job_params3.depth_buffer_ptr3 == cmdbuf.depth_buffer_3,
        r.job_params1.stencil_buffer_ptr1 == r.job_params3.stencil_buffer_ptr1
            == cmdbuf.stencil_buffer_1,
        r.job_params1.stencil_buffer_ptr2 == r.job_params3.stencil_buffer_ptr2
            == cmdbuf.stencil_buffer_2,
        r.job_params3.stencil_buffer_ptr3 == cmdbuf.stencil_buffer_3,
        r.job_params1.depth_meta_buffer_ptr1 == cmdbuf.depth_meta_buffer_1,
        r.job_params1.depth_meta_buffer_ptr2 == cmdbuf.depth_meta_buffer_2,
        r.job_params3.depth_meta_buffer_ptr3 == cmdbuf.depth_meta_buffer_3,
        r.job_params1.stencil_meta_buffer_ptr1 == cmdbuf.stencil_meta_buffer_1,
        r.job_params1.stencil_meta_buffer_ptr2 == cmdbuf.stencil_meta_buffer_2,
        r.job_params3.stencil_meta_buffer_ptr3 == cmdbuf.stencil_meta_buffer_3,
        r.job_params1.depth_dimensions == r.job_params3.depth_dimensions
            == cmdbuf.depth_dimensions,
        r.job_params1.zls_ctrl == r.job_params3.zls_ctrl == cmdbuf.zls_ctrl,
        r.job_params1.depth_bias_array == r.job_params3.depth_bias_array
            == cmdbuf.depth_bias_array,
        r.job_params1.scissor_array == r.job_params3.scissor_array == cmdbuf.scissor_array,
{
}

/// Tiles are loaded, stored, and after an interruption reloaded and stored again by the
/// pipelines that the user gave for each, and the background is the user's.
pub proof fn law_pipelines_keep_their_places(
    cmdbuf: Cmdbuf,
    frame: Frame,
    queue: QueueRef,
    micro_seq: MicroSeqRef,
    aux_fb: u64,
    r: RunFragment,
)
    requires
        frame.tiles.tiles_x >= 1,
        frame.tiles.tiles_y >= 1,
        call_ensures(run_fragment, (&cmdbuf, &frame, &queue, &micro_seq, aux_fb), r),
    ensures
        r.job_params1.clear_pipeline.pipeline_bind == cmdbuf.load_pipeline_bind,
        r.job_params1.clear_pipeline.address == (cmdbuf.load_pipeline as u64) | 4,
        r.job_params2.store_pipeline_bind == cmdbuf.store_pipeline_bind,
        r.job_params2.store_pipeline_addr == cmdbuf.store_pipeline | 4,
        r.job_params3.reload_pipeline.pipeline_bind == cmdbuf.partial_reload_pipeline_bind,
        r.job_params3.reload_pipeline.address == (cmdbuf.partial_reload_pipeline as u64) | 4,
        r.job_params3.unk_reload_pipeline == r.job_params3.reload_pipeline,
        r.job_params3.partial_store_pipeline.pipeline_bind == cmdbuf.partial_store_pipeline_bind,
        r.job_params3.partial_store_pipeline.address == cmdbuf.partial_store_pipeline | 4,
        r.job_params3.unk_partial_store_pipeline == r.job_params3.partial_store_pipeline,
        r.job_params2.isp_bgobjdepth == r.job_params3.isp_bgobjdepth == cmdbuf.isp_bgobjdepth,
        r.job_params3.isp_bgobjvals == cmdbuf.isp_bgobjvals,
        r.job_params2.isp_bgobjvals == r.job_params3.isp_bgobjvals | 0x400,
        r.ppp_multisamplectl == r.job_params1.ppp_multisamplectl == cmdbuf.ppp_multisamplectl,
        r.merge_upper_x == r.job_params2.merge_upper_x == cmdbuf.merge_upper_x,
        r.merge_upper_y == r.job_params2.merge_upper_y == cmdbuf.merge_upper_y,
        r.job_params2.iogpu_unk_212 == r.job_params3.iogpu_unk_212 == cmdbuf.iogpu_unk_212,
        r.job_params3.iogpu_unk_49 == cmdbuf.iogpu_unk_49,
        r.samples == cmdbuf.samples,
        r.encoder_params.encoder_id == cmdbuf.encoder_id,
        r.encoder_params.unk_1c == u32::MAX,
        r.encoder_params.unk_8 == 1 <==> cmdbuf.flags.set_when_reloading_z_or_s,
        r.encoder_params.unk_8 <= 1,
        r.process_empty_tiles == 1 <==> cmdbuf.flags.process_empty_tiles,
        r.process_empty_tiles <= 1,
        r.no_clear_pipeline_textures == 1 <==> cmdbuf.flags.no_clear_pipeline_textures,
        r.no_clear_pipeline_textures <= 1,
        r.job_params1.pipeline_base == 0x11_0000_0000,
        r.job_params1.unk_140 == 0x8c60,
        r.job_params1.unk_158 == 0x1c,
        r.job_params2.unk_3c == 1,
{
}

/// The fragment job knows the size of the frame, and how it was cut into tiles.
pub proof fn law_fragment_job_knows_the_tiling(
    cmdbuf: Cmdbuf,
    frame: Frame,
    queue: QueueRef,
    micro_seq: MicroSeqRef,
    aux_fb: u64,
    r: RunFragment,
)
    requires
        cmdbuf.fb_width >= 1,
        cmdbuf.fb_height >= 1,
        call_ensures(get_tiling_params, (&cmdbuf,), Ok(frame.tiles)),
        call_ensures(run_fragment, (&cmdbuf, &frame, &queue, &micro_seq, aux_fb), r),
    ensures
        r.job_params1.aux_fb_info.width == cmdbuf.fb_width,
        r.job_params1.aux_fb_info.height == cmdbuf.fb_height,
        r.job_params1.aux_fb_info.iogpu_unk_214 == cmdbuf.iogpu_unk_214,
        r.job_params1.aux_fb_info.unk3 is Some <==> frame.version == FwVersion::V13_0B4,
        r.job_params1.aux_fb_info.unk3 is Some ==> r.job_params1.aux_fb_info.unk3->0 == 0x10_0000,
        r.job_params3.aux_fb_info == r.job_params1.aux_fb_info,
        r.job_params1.aux_fb == aux_fb,
        r.job_params1.utile_config == frame.config.utile_config,
        r.job_params1.tile_config == frame.config.tile_config,
        r.job_params1.mtile_stride_dwords == 4 * frame.tiles.params.rgn_size * 0x100_0000,
        r.tiles_per_mtile_x == frame.tiles.tiles_per_mtile_x,
        r.tiles_per_mtile_y == frame.tiles.tiles_per_mtile_y,
        r.job_params2.utiles_per_mtile_x * cmdbuf.utile_width == 32 * r.tiles_per_mtile_x,
        r.job_params2.utiles_per_mtile_y * cmdbuf.utile_height == 32 * r.tiles_per_mtile_y,
        r.tile_count == frame.tiles.tiles_x * frame.tiles.tiles_y,
        r.job_params2.tile_counts % 0x1000 + 1 == frame.tiles.tiles_x,
        r.job_params2.tile_counts / 0x1000 + 1 == frame.tiles.tiles_y,
{
    let t = frame.tiles;
    lemma_tiling_bounds(cmdbuf.fb_width);
    lemma_tiling_bounds(cmdbuf.fb_height);
    lemma_utile_counts(cmdbuf.utile_width);
    lemma_utile_counts(cmdbuf.utile_height);
    law_small_tiles_fill_a_macrotile(cmdbuf, Ok(t));
    law_tiles_are_as_few_as_possible(cmdbuf, Ok(t));
    let (a, b) = ((t.tiles_y - 1) as u32, (t.tiles_x - 1) as u32);
    assert(((a << 12) | b) % 0x1000 == b && ((a << 12) | b) / 0x1000 == a) by (bit_vector)
        requires
            a < 2048,
            b < 2048,
    ;
    vstd::arithmetic::power2::lemma2_to64();
    vstd::bits::lemma_u64_shl_is_mul((4 * t.params.rgn_size) as u64, 24);
}

/// The fragment job works on the scene that the vertex job left, runs its own
/// microsequence for its own client, and advances the stamp of its own queue by one step.
pub proof fn law_fragment_job_is_wired(
    cmdbuf: Cmdbuf,
    frame: Frame,
    queue: QueueRef,
    micro_seq: MicroSeqRef,
    aux_fb: u64,
    r: RunFragment,
)
    requires
        frame.tiles.tiles_x >= 1,
        frame.tiles.tiles_y >= 1,
        call_ensures(run_fragment, (&cmdbuf, &frame, &queue, &micro_seq, aux_fb), r),
    ensures
        r.tag is RunFragment,
        r.counter is Some <==> frame.version == FwVersion::V13_0B4,
        r.counter is Some ==> r.counter->0 == 1,
        r.vm_slot == frame.vm_slot,
        r.microsequence == micro_seq.address,
        r.microsequence_size == micro_seq.size,
        r.notifier == frame.notifier,
        r.buffer == frame.scene.buffers.buffer_info,
        r.scene == frame.scene.buffers.object,
        r.unk_buffer_buf == frame.scene.buffers.kernel_buffer,
        r.tvb_tilemap == r.job_params1.tvb_tilemap == frame.scene.buffers.tvb_tilemap,
        r.job_params1.tvb_heapmeta == r.job_params1.tvb_heapmeta_2
            == frame.scene.buffers.tvb_heapmeta,
        r.encoder_params.seq_buffer == frame.scene.buffers.seq_buf,
        r.meta.stamp == queue.stamp,
        r.meta.fw_stamp == queue.fw_stamp,
        r.meta.stamp_slot == queue.slot,
        r.meta.stamp_value.0 == (queue.value.0 + 0x100) % 0x1_0000_0000,
        r.meta.prev_stamp_value == queue.value.0 / 0x100,
        r.meta.uuid == cmdbuf.cmd_3d_id,
        r.client_seq == frame.renderer_id % 0x100,
{
}

/// The vertex job runs the user's encoder, with the user's settings.
pub proof fn law_vertex_job_runs_the_encoder(
    cmdbuf: Cmdbuf,
    frame: Frame,
    queue: QueueRef,
    frag: QueueRef,
    micro_seq: MicroSeqRef,
    core_masks: Vec<u32>,
    control: u32,
    r: RunVertex,
)
    requires
        frame.scene.wf(),
        call_ensures(
            run_vertex,
            (&cmdbuf, &frame, &queue, &frag, &micro_seq, &core_masks, control),
            r,
        ),
    ensures
        r.job_params1.encoder_addr == cmdbuf.encoder_ptr,
        r.encoder_params.encoder_id == cmdbuf.encoder_id,
        r.encoder_params.unk_8 == 0,
        r.encoder_params.unk_1c == u32::MAX,
        r.job_params1.ppp_multisamplectl == cmdbuf.ppp_multisamplectl,
        r.job_params1.utile_config == frame.config.utile_config,
        r.job_params1.tiling_control == control,
        core_masks@.len() >= 1 ==> r.job_params1.core_mask0 == core_masks@[0],
        core_masks@.len() >= 2 ==> r.job_params1.core_mask1 == core_masks@[1],
        core_masks@.len() == 0 ==> r.job_params1.core_mask0 == 0,
        core_masks@.len() <= 1 ==> r.job_params1.core_mask1 == 0,
        r.memoryless_rts_used == 1 <==> cmdbuf.flags.memoryless_rts_used,
        r.memoryless_rts_used <= 1,
        r.tiling_params == frame.tiles.params,
        r.tpc_size == frame.tiles.tpc_size,
        r.job_params1.pipeline_base == 0x11_0000_0000,
        r.job_params1.unk_0 == 0x200,
        r.job_params1.unk_8 == r.job_params1.unk_c == 0x1e3c_e508,
        r.job_params1.iogpu_unk_54 == 0x6b_0003,
        r.job_params1.iogpu_unk_55 == 0x3a_0012,
        r.job_params1.iogpu_unk_56 == r.job_params1.unk_80 == 1,
        r.job_params1.unk_f0 == r.job_params1.unk_118 == 0x1c,
        r.job_params1.unk_f8 == 0x8c60,
{
}

/// The vertex job fills the buffers of its scene: each part of them is found where the
/// scene has it.
pub proof fn law_vertex_job_fills_the_scene(
    cmdbuf: Cmdbuf,
    frame: Frame,
    queue: QueueRef,
    frag: QueueRef,
    micro_seq: MicroSeqRef,
    core_masks: Vec<u32>,
    control: u32,
    r: RunVertex,
)
    requires
        frame.scene.wf(),
        call_ensures(
            run_vertex,
            (&cmdbuf, &frame, &queue, &frag, &micro_seq, &core_masks, control),
            r,
        ),
    ensures
        r.buffer_slot == frame.scene.slot.slot,
        r.buffer == frame.scene.buffers.buffer_info,
        r.scene == frame.scene.buffers.object,
        r.unk_buffer_buf == frame.scene.buffers.kernel_buffer,
        r.tpc == r.job_params1.tpc == frame.scene.buffers.tpc,
        r.encoder_params.seq_buffer == frame.scene.buffers.seq_buf,
        r.job_params1.tvb_tilemap == frame.scene.buffers.tvb_tilemap,
        r.job_params1.tvb_heapmeta_2 == frame.scene.buffers.tvb_heapmeta,
        r.job_params1.tvb_heapmeta == r.job_params1.tvb_heapmeta_2 | 0x8000_0000_0000_0000,
        r.preempt_buf1 == r.job_params1.preempt_buf1 == frame.scene.buffers.preempt_buf,
        r.job_params1.preempt_buf2 - r.preempt_buf1 == frame.scene.offsets.preempt2_off,
        r.job_params1.preempt_buf3 == ((r.preempt_buf1 + frame.scene.offsets.preempt3_off) as u64)
            | 0x4_0000_0000_0000,
        frame.scene.buffers.clustering matches Some(c) ==> {
            &&& r.job_params1.tvb_cluster_tilemaps == Some(c.tilemaps)
            &&& r.job_params1.tvb_cluster_meta1 == Some(c.meta)
            &&& r.job_params1.tvb_cluster_meta2 matches Some(m) && m - c.meta
                == frame.scene.offsets.meta2_off
            &&& r.job_params1.tvb_cluster_meta3 matches Some(m) && m - c.meta
                == frame.scene.offsets.meta3_off
            &&& r.job_params1.tvb_cluster_meta4 matches Some(m) && m - c.meta
                == frame.scene.offsets.meta4_off
        },
        frame.scene.buffers.clustering is None ==> {
            &&& r.job_params1.tvb_cluster_tilemaps is None
            &&& r.job_params1.tvb_cluster_meta1 is None
            &&& r.job_params1.tvb_cluster_meta2 is None
            &&& r.job_params1.tvb_cluster_meta3 is None
            &&& r.job_params1.tvb_cluster_meta4 is None
        },
{
}

/// The vertex job runs its own microsequence for its own client, advances the stamp of its
/// own queue by one step, and knows the step that the fragment job will reach.
pub proof fn law_vertex_job_is_wired(
    cmdbuf: Cmdbuf,
    frame: Frame,
    queue: QueueRef,
    frag: QueueRef,
    micro_seq: MicroSeqRef,
    core_masks: Vec<u32>,
    control: u32,
    r: RunVertex,
)
    requires
        frame.scene.wf(),
        call_ensures(
            run_vertex,
            (&cmdbuf, &frame, &queue, &frag, &micro_seq, &core_masks, control),
            r,
        ),
    ensures
        r.tag is RunVertex,
        r.counter is Some <==> frame.version == FwVersion::V13_0B4,
        r.counter is Some ==> r.counter->0 == 1,
        r.vm_slot == frame.vm_slot,
        r.notifier == frame.notifier,
        r.microsequence == micro_seq.address,
        r.microsequence_size == micro_seq.size,
        r.fragment_stamp_slot == frag.slot,
        r.fragment_stamp_value.0 == (frag.value.0 + 0x100) % 0x1_0000_0000,
        r.meta.stamp == queue.stamp,
        r.meta.fw_stamp == queue.fw_stamp,
        r.meta.stamp_slot == queue.slot,
        r.meta.stamp_value.0 == (queue.value.0 + 0x100) % 0x1_0000_0000,
        r.meta.prev_stamp_value == queue.value.0 / 0x100,
        r.meta.uuid == cmdbuf.cmd_ta_id,
        r.client_seq == frame.renderer_id % 0x100,
{
}

/// Frames that differ in what the user gave for the vertex job, or for the fragment job,
/// get jobs that differ.
pub proof fn law_jobs_tell_frames_apart(
    a: Cmdbuf,
    b: Cmdbuf,
    frame: Frame,
    queue: QueueRef,
    frag: QueueRef,
    micro_seq: MicroSeqRef,
    core_masks: Vec<u32>,
    control: u32,
    aux_fb: u64,
    vtx_a: RunVertex,
    vtx_b: RunVertex,
    frag_a: RunFragment,
    frag_b: RunFragment,
)
    requires
        frame.scene.wf(),
        frame.tiles.tiles_x >= 1,
        frame.tiles.tiles_y >= 1,
        call_ensures(
            run_vertex,
            (&a, &frame, &queue, &frag, &micro_seq, &core_masks, control),
            vtx_a,
        ),
        call_ensures(
            run_vertex,
            (&b, &frame, &queue, &frag, &micro_seq, &core_masks, control),
            vtx_b,
        ),
        call_ensures(run_fragment, (&a, &frame, &frag, &micro_seq, aux_fb), frag_a),
        call_ensures(run_fragment, (&b, &frame, &frag, &micro_seq, aux_fb), frag_b),
    ensures
        vtx_a == vtx_b ==> {
            &&& a.encoder_ptr == b.encoder_ptr
            &&& a.encoder_id == b.encoder_id
            &&& a.ppp_multisamplectl == b.ppp_multisamplectl
            &&& a.cmd_ta_id == b.cmd_ta_id
            &&& a.flags.memoryless_rts_used == b.flags.memoryless_rts_used
        },
        frag_a == frag_b ==> {
            &&& a.encoder_id == b.encoder_id
            &&& a.cmd_3d_id == b.cmd_3d_id
            &&& a.ppp_multisamplectl == b.ppp_multisamplectl
            &&& a.fb_width == b.fb_width && a.fb_height == b.fb_height
            &&& a.samples == b.samples
            &&& a.load_pipeline_bind == b.load_pipeline_bind
            &&& a.store_pipeline_bind == b.store_pipeline_bind
            &&& a.partial_reload_pipeline_bind == b.partial_reload_pipeline_bind
            &&& a.partial_store_pipeline_bind == b.partial_store_pipeline_bind
            &&& a.depth_dimensions == b.depth_dimensions
            &&& a.depth_buffer_1 == b.depth_buffer_1
            &&& a.depth_buffer_2 == b.depth_buffer_2
            &&& a.depth_buffer_3 == b.depth_buffer_3
            &&& a.depth_meta_buffer_1 == b.depth_meta_buffer_1
            &&& a.depth_meta_buffer_2 == b.depth_meta_buffer_2
            &&& a.depth_meta_buffer_3 == b.depth_meta_buffer_3
            &&& a.stencil_buffer_1 == b.stencil_buffer_1
            &&& a.stencil_buffer_2 == b.stencil_buffer_2
            &&& a.stencil_buffer_3 == b.stencil_buffer_3
            &&& a.stencil_meta_buffer_1 == b.stencil_meta_buffer_1
            &&& a.stencil_meta_buffer_2 == b.stencil_meta_buffer_2
            &&& a.stencil_meta_buffer_3 == b.stencil_meta_buffer_3
            &&& a.scissor_array == b.scissor_array
            &&& a.depth_bias_array == b.depth_bias_array
            &&& a.zls_ctrl == b.zls_ctrl
            &&& a.isp_bgobjdepth == b.isp_bgobjdepth
            &&& a.isp_bgobjvals == b.isp_bgobjvals
            &&& a.merge_upper_x == b.merge_upper_x
            &&& a.merge_upper_y == b.merge_upper_y
            &&& a.iogpu_unk_49 == b.iogpu_unk_49
            &&& a.iogpu_unk_212 == b.iogpu_unk_212
            &&& a.iogpu_unk_214 == b.iogpu_unk_214
            &&& a.flags.no_clear_pipeline_textures == b.flags.no_clear_pipeline_textures
            &&& a.flags.set_when_reloading_z_or_s == b.flags.set_when_reloading_z_or_s
            &&& a.flags.process_empty_tiles == b.flags.process_empty_tiles
        },
{
}

/// The barrier on the fragment queue waits for exactly the stamp that the vertex job
/// advances, and the two jobs of a frame advance different queues by one step each.
pub proof fn law_barrier_matches_the_vertex_job(
    vtx: QueueRef,
    frag: QueueRef,
    uuid: u32,
    vtx_uuid: u32,
    frag_uuid: u32,
    barrier: Barrier,
    vtx_meta: JobMeta,
    frag_meta: JobMeta,
)
    requires
        call_ensures(Barrier::new, (&vtx, &frag, uuid), barrier),
        call_ensures(JobMeta::new, (&vtx, vtx_uuid), vtx_meta),
        call_ensures(JobMeta::new, (&frag, frag_uuid), frag_meta),
    ensures
        barrier.tag is Barrier,
        barrier.uuid == uuid,
        barrier.wait_slot == vtx_meta.stamp_slot == vtx.slot,
        barrier.wait_stamp == vtx_meta.fw_stamp == vtx.fw_stamp,
        barrier.wait_value == vtx_meta.stamp_value,
        barrier.stamp_self == frag_meta.stamp_value,
        vtx_meta.stamp_value.0 == (vtx.value.0 + 0x100) % 0x1_0000_0000,
        frag_meta.stamp_value.0 == (frag.value.0 + 0x100) % 0x1_0000_0000,
        vtx_meta.stamp == vtx.stamp,
        vtx_meta.uuid == vtx_uuid,
        vtx_meta.prev_stamp_value == vtx.value.0 / 0x100,
{
}

/// The command that tells the GPU about a tiler buffer names that buffer, its slot and the
/// number of its blocks, and belongs to the batch of the vertex job.
pub proof fn law_buffer_is_introduced(
    scene: Scene,
    vm_slot: u32,
    block_count: u32,
    vtx: QueueRef,
    uuid: u32,
    r: crate::fw::workqueue::InitBuffer,
    meta: JobMeta,
)
    requires
        call_ensures(
            crate::fw::workqueue::InitBuffer::new,
            (&scene, vm_slot, block_count, &vtx),
            r,
        ),
        call_ensures(JobMeta::new, (&vtx, uuid), meta),
    ensures
        r.tag is InitBuffer,
        r.vm_slot == vm_slot,
        r.buffer_slot == scene.slot.slot,
        r.block_count == block_count,
        r.buffer == scene.buffers.buffer_info,
        r.stamp_value == meta.stamp_value,
{
}

/// What a job knows of its queue and event is what its batch has.
pub proof fn law_jobs_know_their_batch<C>(batch: WorkQueueBatch<C>, r: QueueRef)
    requires
        batch.wf(),
        call_ensures(queue_ref::<C>, (&batch,), r),
    ensures
        r.info == batch@.queue.info,
        r.stamp == batch@.queue.event->0.event.item.gpu_stamp,
        r.fw_stamp == batch@.queue.event->0.event.item.gpu_fw_stamp,
        r.slot == batch@.queue.event->0.event.token.slot,
        r.value == batch@.queue.event->0.value,
        r.value.plus(1) == batch@.batch().value,
{
}

proof fn lemma_read_in_front(a: Seq<u8>, b: Seq<u8>, at: int, n: int)
    requires
        0 <= at,
        0 <= n,
        at + n <= a.len(),
    ensures
        read_at(a + b, at, n) == read_at(a, at, n),
{
    assert((a + b).subrange(at, at + n) =~= a.subrange(at, at + n));
}

proof fn lemma_read_behind(a: Seq<u8>, b: Seq<u8>, at: int, n: int)
    requires
        0 <= at,
        0 <= n,
        at + n <= b.len(),
    ensures
        read_at(a + b, a.len() + at, n) == read_at(b, at, n),
{
    assert((a + b).subrange(a.len() + at, a.len() + at + n) =~= b.subrange(at, at + n));
}

/// What can be read from the operations of a microsequence can be read from the whole.
proof fn lemma_read_in_sequence<A: Operation, B: Operation>(
    start: A,
    pipe: Pipe,
    finalize: B,
    at: int,
    n: int,
)
    requires
        0 <= at,
        0 <= n,
    ensures
        ({
            let a = bytes_of(start.fields());
            let b = bytes_of(finalize.fields());
            let all = sequence_of(start, pipe, finalize);
            &&& at + n <= a.len() ==> read_at(all, at, n) == read_at(a, at, n)
            &&& at + n <= b.len() ==> read_at(all, a.len() + 4 + at, n) == read_at(b, at, n)
            &&& read_at(all, a.len() as int, 4) == 1 + 0x100 * pipe.number()
            &&& read_at(all, all.len() - 4, 4) == 0x4000_0018
        }),
{
    let a = bytes_of(start.fields());
    let w = bytes_of(WaitForIdle { pipe }.fields());
    let b = bytes_of(finalize.fields());
    let e = bytes_of(RetireStamp.fields());
    law_wait_for_idle_layout(WaitForIdle { pipe });
    law_retire_stamp_layout(RetireStamp);
    if at + n <= a.len() {
        lemma_read_in_front(a, w, at, n);
        lemma_read_in_front(a + w, b, at, n);
        lemma_read_in_front(a + w + b, e, at, n);
    }
    if at + n <= b.len() {
        lemma_read_behind(a + w, b, at, n);
        lemma_read_in_front(a + w + b, e, a.len() + 4 + at, n);
    }
    lemma_read_behind(a, w, 0, 4);
    lemma_read_in_front(a + w, b, a.len() as int, 4);
    lemma_read_in_front(a + w + b, e, a.len() as int, 4);
    lemma_read_behind(a + w + b, e, 0, 4);
}

/// The microsequence of a vertex job can be read back: it starts the job with the arguments
/// of this frame, waits for the vertex pipe, finishes the job with the stamp's next value or
/// goes back to its beginning, and retires the stamp.
#[verifier::spinoff_prover]
#[verifier::rlimit(60)]
pub proof fn law_vertex_sequence_reads_back(
    cmdbuf: Cmdbuf,
    frame: Frame,
    parts: VertexParts,
    queue: QueueRef,
    stats: u64,
    r: Vec<u8>,
)
    requires
        call_ensures(vertex_sequence, (&cmdbuf, &frame, &parts, &queue, stats), r),
    ensures
        ({
            let ventura = frame.version == FwVersion::V13_0B4;
            let wait: int = if ventura {
                0x18c
            } else {
                0x17c
            };
            let end = wait + 4;
            &&& read_at(r@, 0x0, 4) == 0x22
            &&& read_at(r@, 0x4, 8) == parts.tiling_params
            &&& read_at(r@, 0xc, 8) == parts.job_params1
            &&& read_at(r@, 0x14, 8) == frame.scene.buffers.buffer_info
            &&& read_at(r@, 0x1c, 8) == frame.scene.buffers.object
            &&& read_at(r@, 0x24, 8) == stats
            &&& read_at(r@, 0x2c, 8) == queue.info
            &&& read_at(r@, 0x34, 4) == frame.vm_slot
            &&& read_at(r@, 0x38, 4) == 1
            &&& read_at(r@, 0x3c, 4) == frame.renderer_id % 0x1_0000_0000
            &&& read_at(r@, 0x40, 4) == frame.scene.slot.slot
            &&& read_at(r@, 0x48, 8) == queue.value.0 / 0x100
            &&& read_at(r@, 0x54, 8) == parts.unk_pointee
            &&& read_at(r@, 0x5c, 8) == parts.unk_buf_0
            &&& read_at(r@, 0x6c, 4) == cmdbuf.cmd_ta_id
            &&& ventura ==> read_at(r@, 0x180, 8) == frame.notifier_buf
            &&& read_at(r@, wait, 4) == 1 + 0x100 * 0x1
            &&& read_at(r@, end + 0x0, 4) == 0x23
            &&& read_at(r@, end + 0x4, 8) == frame.scene.buffers.object
            &&& read_at(r@, end + 0xc, 8) == frame.scene.buffers.buffer_info
            &&& read_at(r@, end + 0x14, 8) == stats
            &&& read_at(r@, end + 0x1c, 8) == queue.info
            &&& read_at(r@, end + 0x24, 4) == frame.vm_slot
            &&& read_at(r@, end + 0x2c, 8) == parts.unk_pointee
            &&& read_at(r@, end + 0x38, 4) == cmdbuf.cmd_ta_id
            &&& read_at(r@, end + 0x3c, 8) == queue.fw_stamp
            &&& read_at(r@, end + 0x44, 4) == (queue.value.0 + 0x100) % 0x1_0000_0000
            &&& end + read_at(r@, end + 0x6c, 4) == 0x1_0000_0000
            &&& read_at(r@, r@.len() - 4, 4) == 0x4000_0018
        }),
{
    let ventura = frame.version == FwVersion::V13_0B4;
    let start = start_vertex(cmdbuf, frame, parts, queue, stats);
    let finalize = finalize_vertex(
        cmdbuf,
        frame,
        parts,
        queue,
        stats,
        if ventura {
            -0x190i32
        } else {
            -0x180i32
        } as i32,
    );
    law_start_vertex_layout(start);
    law_finalize_vertex_layout(finalize);
    lemma_read_in_sequence(start, Pipe::Vertex, finalize, 0x0, 4);
    lemma_read_in_sequence(start, Pipe::Vertex, finalize, 0x4, 8);
    lemma_read_in_sequence(start, Pipe::Vertex, finalize, 0xc, 8);
    lemma_read_in_sequence(start, Pipe::Vertex, finalize, 0x14, 8);
    lemma_read_in_sequence(start, Pipe::Vertex, finalize, 0x1c, 8);
    lemma_read_in_sequence(start, Pipe::Vertex, finalize, 0x24, 8);
    lemma_read_in_sequence(start, Pipe::Vertex, finalize, 0x2c, 8);
    lemma_read_in_sequence(start, Pipe::Vertex, finalize, 0x34, 4);
    lemma_read_in_sequence(start, Pipe::Vertex, finalize, 0x38, 4);
    lemma_read_in_sequence(start, Pipe::Vertex, finalize, 0x3c, 4);
    lemma_read_in_sequence(start, Pipe::Vertex, finalize, 0x40, 4);
    lemma_read_in_sequence(start, Pipe::Vertex, finalize, 0x48, 8);
    lemma_read_in_sequence(start, Pipe::Vertex, finalize, 0x54, 8);
    lemma_read_in_sequence(start, Pipe::Vertex, finalize, 0x5c, 8);
    lemma_read_in_sequence(start, Pipe::Vertex, finalize, 0x6c, 4);
    if ventura {
        lemma_read_in_sequence(start, Pipe::Vertex, finalize, 0x180, 8);
    }
    lemma_read_in_sequence(start, Pipe::Vertex, finalize, 0x24, 4);
    lemma_read_in_sequence(start, Pipe::Vertex, finalize, 0x3c, 8);
    lemma_read_in_sequence(start, Pipe::Vertex, finalize, 0x44, 4);
}

/// The microsequence of a fragment job can be read back: it starts the job with the
/// arguments of this frame, waits for the fragment pipe, finishes the job with the stamp's
/// next value or goes back to its beginning, and retires the stamp.
#[verifier::spinoff_prover]
#[verifier::rlimit(60)]
pub proof fn law_fragment_sequence_reads_back(
    cmdbuf: Cmdbuf,
    frame: Frame,
    parts: FragmentParts,
    queue: QueueRef,
    stats: u64,
    r: Vec<u8>,
)
    requires
        attachments_ok(cmdbuf),
        call_ensures(fragment_sequence, (&cmdbuf, &frame, &parts, &queue, stats), r),
    ensures
        ({
            let ventura = frame.version == FwVersion::V13_0B4;
            let wait: int = if ventura {
                0x1a4
            } else {
                0x194
            };
            let end = wait + 4;
            &&& read_at(r@, 0x0, 4) == 0x24
            &&& read_at(r@, 0x4, 8) == parts.job_params2
            &&& read_at(r@, 0xc, 8) == parts.job_params1
            &&& read_at(r@, 0x14, 8) == frame.scene.buffers.object
            &&& read_at(r@, 0x1c, 8) == stats
            &&& read_at(r@, 0x24, 8) == parts.busy_flag
            &&& read_at(r@, 0x2c, 8) == parts.tvb_overflow_count
            &&& read_at(r@, 0x34, 8) == parts.unk_pointee
            &&& read_at(r@, 0x3c, 8) == queue.info
            &&& read_at(r@, 0x44, 8) == parts.job
            &&& read_at(r@, 0x4c, 4) == frame.vm_slot
            &&& read_at(r@, 0x50, 4) == 1
            &&& read_at(r@, 0x54, 4) == frame.renderer_id % 0x1_0000_0000
            &&& read_at(r@, 0x58, 4) == frame.scene.slot.slot
            &&& read_at(r@, 0x60, 8) == queue.value.0 / 0x100
            &&& read_at(r@, 0x6c, 8) == parts.unk_758_flag
            &&& read_at(r@, 0x74, 8) == parts.unk_buf_0
            &&& read_at(r@, 0x88, 4) == cmdbuf.cmd_3d_id
            &&& ventura ==> read_at(r@, 0x19c, 8) == frame.notifier_buf
            &&& read_at(r@, wait, 4) == 1 + 0x100 * 0x100
            &&& read_at(r@, end + 0x0, 4) == 0x25
            &&& read_at(r@, end + 0x4, 4) == cmdbuf.cmd_3d_id
            &&& read_at(r@, end + 0xc, 8) == queue.fw_stamp
            &&& read_at(r@, end + 0x14, 4) == (queue.value.0 + 0x100) % 0x1_0000_0000
            &&& read_at(r@, end + 0x1c, 8) == frame.scene.buffers.object
            &&& read_at(r@, end + 0x24, 8) == frame.scene.buffers.buffer_info
            &&& read_at(r@, end + 0x2c, 8) == 1
            &&& read_at(r@, end + 0x34, 8) == stats
            &&& read_at(r@, end + 0x3c, 8) == parts.unk_pointee
            &&& read_at(r@, end + 0x44, 8) == parts.busy_flag
            &&& read_at(r@, end + 0x4c, 8) == queue.info
            &&& read_at(r@, end + 0x54, 8) == parts.job
            &&& read_at(r@, end + 0x5c, 4) == frame.vm_slot
            &&& read_at(r@, end + 0x64, 8) == parts.unk_758_flag
            &&& end + read_at(r@, end + 0x94, 4) == 0x1_0000_0000
            &&& read_at(r@, r@.len() - 4, 4) == 0x4000_0018
        }),
{
    let ventura = frame.version == FwVersion::V13_0B4;
    let start = choose|start: StartFragment|
        #![trigger start.fields()]
        {
            &&& starts_fragment(start, cmdbuf, frame, parts, queue, stats)
            &&& r@ == sequence_of(
                start,
                Pipe::Fragment,
                finalize_fragment(
                    cmdbuf,
                    frame,
                    parts,
                    queue,
                    stats,
                    -(bytes_of(start.fields()).len() + 4) as i32,
                ),
            )
        };
    let finalize = finalize_fragment(
        cmdbuf,
        frame,
        parts,
        queue,
        stats,
        -(bytes_of(start.fields()).len() + 4) as i32,
    );
    law_start_fragment_size(start);
    lemma_bytes_len(start.fields(), start.fields().len() as int);
    law_start_fragment_layout(start);
    law_attachments_are_counted(start);
    law_finalize_fragment_layout(finalize);
    lemma_read_in_sequence(start, Pipe::Fragment, finalize, 0x0, 4);
    lemma_read_in_sequence(start, Pipe::Fragment, finalize, 0x4, 8);
    lemma_read_in_sequence(start, Pipe::Fragment, finalize, 0xc, 8);
    lemma_read_in_sequence(start, Pipe::Fragment, finalize, 0x14, 8);
    lemma_read_in_sequence(start, Pipe::Fragment, finalize, 0x1c, 8);
    lemma_read_in_sequence(start, Pipe::Fragment, finalize, 0x24, 8);
    lemma_read_in_sequence(start, Pipe::Fragment, finalize, 0x2c, 8);
    lemma_read_in_sequence(start, Pipe::Fragment, finalize, 0x34, 8);
    lemma_read_in_sequence(start, Pipe::Fragment, finalize, 0x3c, 8);
    lemma_read_in_sequence(start, Pipe::Fragment, finalize, 0x44, 8);
    lemma_read_in_sequence(start, Pipe::Fragment, finalize, 0x4c, 4);
    lemma_read_in_sequence(start, Pipe::Fragment, finalize, 0x50, 4);
    lemma_read_in_sequence(start, Pipe::Fragment, finalize, 0x54, 4);
    lemma_read_in_sequence(start, Pipe::Fragment, finalize, 0x58, 4);
    lemma_read_in_sequence(start, Pipe::Fragment, finalize, 0x60, 8);
    lemma_read_in_sequence(start, Pipe::Fragment, finalize, 0x6c, 8);
    lemma_read_in_sequence(start, Pipe::Fragment, finalize, 0x74, 8);
    lemma_read_in_sequence(start, Pipe::Fragment, finalize, 0x88, 4);
    if ventura {
        lemma_read_in_sequence(start, Pipe::Fragment, finalize, 0x19c, 8);
    }
    lemma_read_in_sequence(start, Pipe::Fragment, finalize, 0x4, 4);
    lemma_read_in_sequence(start, Pipe::Fragment, finalize, 0x14, 4);
    lemma_read_in_sequence(start, Pipe::Fragment, finalize, 0x4c, 8);
    lemma_read_in_sequence(start, Pipe::Fragment, finalize, 0x54, 8);
    lemma_read_in_sequence(start, Pipe::Fragment, finalize, 0x5c, 4);
    lemma_read_in_sequence(start, Pipe::Fragment, finalize, 0x64, 8);
    lemma_read_in_sequence(start, Pipe::Fragment, finalize, 0x94, 4);
}

/// The attachments of the user can be read back from the microsequence of a fragment job,
/// each at its own place, and so can their number.
#[verifier::spinoff_prover]
pub proof fn law_fragment_sequence_has_the_attachments(
    cmdbuf: Cmdbuf,
    frame: Frame,
    parts: FragmentParts,
    queue: QueueRef,
    stats: u64,
    r: Vec<u8>,
    i: int,
)
    requires
        attachments_ok(cmdbuf),
        call_ensures(fragment_sequence, (&cmdbuf, &frame, &parts, &queue, stats), r),
    ensures
        ({
            let n = read_at(r@, 0x18c, 4);
            let at = 0x8c + 0x10 * i;
            &&& n == cmdbuf.attachment_count || n == cmdbuf.attachments@.len()
            &&& n <= cmdbuf.attachment_count && n <= cmdbuf.attachments@.len()
            &&& 0 <= i < n ==> {
                &&& read_at(r@, at, 8) == cmdbuf.attachments@[i].pointer
                &&& cmdbuf.attachments@[i].size <= 128 * read_at(r@, at + 8, 4)
                    < cmdbuf.attachments@[i].size + 128
                &&& read_at(r@, at + 0xc, 2) == 0x17
                &&& read_at(r@, at + 0xe, 2) == 1
            }
        }),
{
    let start = choose|start: StartFragment|
        #![trigger start.fields()]
        {
            &&& starts_fragment(start, cmdbuf, frame, parts, queue, stats)
            &&& r@ == sequence_of(
                start,
                Pipe::Fragment,
                finalize_fragment(
                    cmdbuf,
                    frame,
                    parts,
                    queue,
                    stats,
                    -(bytes_of(start.fields()).len() + 4) as i32,
                ),
            )
        };
    let finalize = finalize_fragment(
        cmdbuf,
        frame,
        parts,
        queue,
        stats,
        -(bytes_of(start.fields()).len() + 4) as i32,
    );
    law_start_fragment_size(start);
    lemma_bytes_len(start.fields(), start.fields().len() as int);
    law_attachments_are_counted(start);
    lemma_read_in_sequence(start, Pipe::Fragment, finalize, 0x18c, 4);
    if 0 <= i < attachments_used(cmdbuf) {
        let at = 0x8c + 0x10 * i;
        law_attachments_read_back(start, i);
        lemma_read_in_sequence(start, Pipe::Fragment, finalize, at, 8);
        lemma_read_in_sequence(start, Pipe::Fragment, finalize, at + 8, 4);
        lemma_read_in_sequence(start, Pipe::Fragment, finalize, at + 0xc, 2);
        lemma_read_in_sequence(start, Pipe::Fragment, finalize, at + 0xe, 2);
    }
}

} // verus!
