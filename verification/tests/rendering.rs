use asahi::buffer::{FwVersion, Scene, SceneBuffers, SceneOffsets, SceneSlot};
use asahi::error::Error;
use asahi::event::{EventManager, EventManagerInner, EventValue, GpuArray};
use asahi::fw::fragment::AuxFBInfo;
use asahi::fw::job::{MicroSeqRef, QueueRef};
use asahi::fw::microseq::{
    Field, FinalizeVertex, OpCode, OpHeader, Operation, Pipe, RetireStamp, WaitForIdle,
};
use asahi::fw::workqueue::{Barrier, CommandType, InitBuffer};
use asahi::microseq::Builder;
use asahi::render::{
    attachments, fragment_sequence, frame_config, get_tiling_params, initial_tvb_blocks, prepare,
    queue_ref, run_fragment, run_vertex, scene_sizes, tiling_control, vertex_sequence,
    CmdAttachment, CmdFlags, Cmdbuf, FragmentParts, Frame, RenderStep, VertexParts,
};
use asahi::workqueue::{PipeType, QueueEvent, WorkQueue};

fn cmdbuf(width: u32, height: u32) -> Cmdbuf {
    Cmdbuf {
        flags: CmdFlags {
            no_clear_pipeline_textures: true,
            set_when_reloading_z_or_s: false,
            memoryless_rts_used: true,
            process_empty_tiles: false,
        },
        encoder_ptr: 0x1500,
        encoder_id: 11,
        cmd_ta_id: 12,
        cmd_3d_id: 13,
        ppp_ctrl: 0x202,
        ppp_multisamplectl: 0x88,
        fb_width: width,
        fb_height: height,
        utile_width: 32,
        utile_height: 16,
        samples: 1,
        layers: 1,
        attachments: vec![
            CmdAttachment { pointer: 0x15_0000_0000, size: 0x1001 },
            CmdAttachment { pointer: 0x16_0000_0000, size: 0x1000 },
        ],
        attachment_count: 1,
        load_pipeline: 0x10,
        load_pipeline_bind: 0x20,
        store_pipeline: 0x30,
        store_pipeline_bind: 0x40,
        partial_reload_pipeline: 0x50,
        partial_reload_pipeline_bind: 0x60,
        partial_store_pipeline: 0x70,
        partial_store_pipeline_bind: 0x80,
        depth_dimensions: 0x77,
        depth_buffer_1: 1,
        depth_buffer_2: 2,
        depth_buffer_3: 3,
        depth_meta_buffer_1: 4,
        depth_meta_buffer_2: 5,
        depth_meta_buffer_3: 6,
        stencil_buffer_1: 7,
        stencil_buffer_2: 8,
        stencil_buffer_3: 9,
        stencil_meta_buffer_1: 10,
        stencil_meta_buffer_2: 11,
        stencil_meta_buffer_3: 12,
        scissor_array: 0x99,
        depth_bias_array: 0xaa,
        zls_ctrl: 0xbb,
        isp_bgobjdepth: 0xcc,
        isp_bgobjvals: 0x300,
        merge_upper_x: 0x3f80_0000,
        merge_upper_y: 0x4000_0000,
        iogpu_unk_49: 0xd,
        iogpu_unk_212: 0xe,
        iogpu_unk_214: 0xf,
    }
}

#[test]
fn full_hd_tiling() {
    let t = get_tiling_params(&cmdbuf(1920, 1080)).unwrap();
    assert_eq!((t.tiles_x, t.tiles_y, t.tiles), (60, 34, 2040));
    assert_eq!((t.tiles_per_mtile_x, t.tiles_per_mtile_y, t.tiles_per_mtile), (16, 12, 192));
    assert_eq!((t.utiles_per_mtile_x, t.utiles_per_mtile_y, t.utiles_per_mtile), (16, 24, 384));
    assert_eq!((t.utile_width, t.utile_height, t.mtiles_x, t.mtiles_y), (32, 16, 4, 4));
    assert_eq!(t.params.rgn_size, 480);
    assert_eq!((t.tilemap_size, t.tpc_size), (30720, 49152));
    assert_eq!((t.params.x_max, t.params.y_max), (1919, 1079));
    assert_eq!(t.params.te_screen, (33 << 12) | 59);
    assert_eq!(t.params.te_mtile1, 48 | (32 << 9) | (16 << 18));
    assert_eq!(t.params.te_mtile2, 36 | (24 << 9) | (12 << 18));
    assert_eq!((t.params.tiles_per_mtile, t.params.tpc_stride), (192, 768));
    assert_eq!((t.params.unk_4, t.params.unk_24, t.params.unk_28), (0x88, 0x100, 0x8000));
    assert_eq!(t.params.ppp_ctrl, 0x202);
    let s = scene_sizes(&t);
    assert_eq!((s.tilemap_size, s.tpc_size), (30720, 49152));
}

#[test]
fn smallest_and_largest_frames() {
    let t = prepare(&cmdbuf(1, 1)).unwrap();
    assert_eq!((t.tiles_x, t.tiles_y, t.tiles), (1, 1, 1));
    assert_eq!((t.tiles_per_mtile_x, t.params.te_screen), (4, 0));
    let t = prepare(&cmdbuf(16384, 16384)).unwrap();
    assert_eq!((t.tiles_x, t.tiles_per_mtile_x), (512, 128));
    let w = t.params.te_mtile1;
    assert_eq!((w & 0x1ff, (w >> 9) & 0x1ff, w >> 18), (384, 256, 128));
    assert_eq!(prepare(&cmdbuf(16385, 1)), Err(Error::EINVAL));
    assert_eq!(prepare(&cmdbuf(1, 16385)), Err(Error::EINVAL));
    assert_eq!(prepare(&cmdbuf(0, 1)), Err(Error::EINVAL));
    assert_eq!(prepare(&cmdbuf(1, 0)), Err(Error::EINVAL));
    assert!(get_tiling_params(&cmdbuf(65536, 65536)).is_ok());
    assert_eq!(get_tiling_params(&cmdbuf(65537, 1)), Err(Error::EINVAL));
    assert_eq!(get_tiling_params(&cmdbuf(1, 65537)), Err(Error::EINVAL));
}

#[test]
fn layers_and_small_tiles_are_checked() {
    let with = |layers: u32, w: u32, h: u32| {
        let mut c = cmdbuf(64, 64);
        c.layers = layers;
        c.utile_width = w;
        c.utile_height = h;
        prepare(&c)
    };
    assert_eq!(with(2, 32, 32).unwrap().params.unk_28, 0xe001);
    assert_eq!(with(2048, 16, 16).unwrap().params.unk_28, 0xe7ff);
    assert_eq!(with(1, 16, 16).unwrap().utiles_per_mtile, 64);
    assert_eq!(with(0, 32, 32), Err(Error::EINVAL));
    assert_eq!(with(2049, 32, 32), Err(Error::EINVAL));
    assert_eq!(with(1, 16, 32), Err(Error::EINVAL));
    assert_eq!(with(1, 0, 0), Err(Error::EINVAL));
}

#[test]
fn frame_settings() {
    let mut c = cmdbuf(64, 64);
    let t = prepare(&c).unwrap();
    let f = frame_config(&c, &t).unwrap();
    assert_eq!((f.tile_config, f.utile_config), (0x280, 0x6000));
    c.layers = 2;
    c.samples = 4;
    c.flags.process_empty_tiles = true;
    let f = frame_config(&c, &t).unwrap();
    assert_eq!((f.tile_config, f.utile_config), (0x1_0281, 0x6002));
    c.samples = 2;
    assert_eq!(frame_config(&c, &t).unwrap().utile_config, 0x6001);
    c.samples = 3;
    assert_eq!(frame_config(&c, &t), Err(Error::EINVAL));
    assert_eq!(tiling_control(0xa040), 0xa041);
    assert_eq!(initial_tvb_blocks(1, 4), 8);
    assert_eq!(initial_tvb_blocks(8, 100), 100);
}

#[test]
fn attachments_are_counted_in_cache_lines() {
    let mut c = cmdbuf(64, 64);
    let a = attachments(&c);
    assert_eq!(a.len(), 1);
    assert_eq!((a[0].address, a[0].size, a[0].unk_c, a[0].unk_e), (0x15_0000_0000, 33, 0x17, 1));
    c.attachment_count = 9;
    let a = attachments(&c);
    assert_eq!(a.len(), 2);
    assert_eq!(a[1].size, 32);
}

fn frame(version: FwVersion, c: &Cmdbuf) -> Frame {
    let tiles = prepare(c).unwrap();
    Frame {
        version,
        renderer_id: 0x1_0000_0123,
        notifier: 0x9000,
        notifier_buf: 0x9080,
        vm_slot: 5,
        scene: Scene {
            buffers: SceneBuffers {
                object: 0x100,
                buffer_info: 0x200,
                kernel_buffer: 0x300,
                user_buffer: 0x400,
                tvb_heapmeta: 0x500,
                tvb_tilemap: 0x600,
                tpc: 0x700,
                preempt_buf: 0x800,
                seq_buf: 0x900,
                clustering: None,
            },
            slot: SceneSlot { slot: 7, rebind: true },
            offsets: SceneOffsets {
                preempt2_off: 0x10,
                preempt3_off: 0x20,
                meta2_off: 0x80,
                meta3_off: 0x100,
                meta4_off: 0x180,
            },
        },
        tiles,
        config: frame_config(c, &tiles).unwrap(),
    }
}

fn queue(info: u64, slot: u32) -> QueueRef {
    QueueRef { info, stamp: 0x10, fw_stamp: 0x20, slot, value: EventValue(0x700) }
}

fn word(bytes: &[u8], at: usize) -> u32 {
    u32::from_le_bytes([bytes[at], bytes[at + 1], bytes[at + 2], bytes[at + 3]])
}

#[test]
fn fragment_sequence_layout() {
    let parts = FragmentParts {
        job: 0xa1,
        job_params1: 0xa2,
        job_params2: 0xa3,
        busy_flag: 0xa4,
        tvb_overflow_count: 0xa5,
        unk_pointee: 0xa6,
        unk_758_flag: 0xa7,
        unk_buf_0: 0xa8,
    };
    let c = cmdbuf(64, 64);
    let s = fragment_sequence(&c, &frame(FwVersion::V12_3, &c), &parts, &queue(0xb, 1), 0xc);
    assert_eq!(s.len(), 0x238);
    assert_eq!(word(&s, 0), 0x24);
    assert_eq!(word(&s, 4), 0xa3);
    assert_eq!(word(&s, 0x4c), 5);
    assert_eq!(word(&s, 0x50), 1);
    assert_eq!(word(&s, 0x54), 0x123);
    assert_eq!(word(&s, 0x58), 7);
    assert_eq!(word(&s, 0x60), 7);
    assert_eq!(word(&s, 0x88), 13);
    assert_eq!(word(&s, 0x90), 0x15);
    assert_eq!(word(&s, 0x94), 33);
    assert_eq!(word(&s, 0x98), 0x1_0017);
    assert_eq!(word(&s, 0x9c), 0);
    assert_eq!(word(&s, 0x18c), 1);
    assert_eq!(word(&s, 0x194), 0x1_0001);
    assert_eq!(word(&s, 0x198), 0x25);
    assert_eq!(word(&s, 0x198 + 0x14), 0x800);
    assert_eq!(word(&s, 0x198 + 0x94) as i32, -0x198);
    assert_eq!(word(&s, 0x234), 0x4000_0018);
    let s = fragment_sequence(&c, &frame(FwVersion::V13_0B4, &c), &parts, &queue(0xb, 1), 0xc);
    assert_eq!(s.len(), 0x258);
    assert_eq!(word(&s, 0x19c), 0x9080);
    assert_eq!(word(&s, 0x1a8 + 0x94) as i32, -0x1a8);
}

#[test]
fn vertex_sequence_layout() {
    let parts = VertexParts {
        job: 0xa1,
        tiling_params: 0xa2,
        job_params1: 0xa3,
        unk_pointee: 0xa4,
        unk_buf_0: 0xa5,
    };
    let c = cmdbuf(64, 64);
    let s = vertex_sequence(&c, &frame(FwVersion::V12_3, &c), &parts, &queue(0xb, 1), 0xc);
    assert_eq!(s.len(), 0x1f8);
    assert_eq!((word(&s, 0), word(&s, 4), word(&s, 0xc)), (0x22, 0xa2, 0xa3));
    assert_eq!(word(&s, 0x6c), 12);
    assert_eq!(word(&s, 0x17c), 0x101);
    assert_eq!(word(&s, 0x180), 0x23);
    assert_eq!(word(&s, 0x180 + 0x6c) as i32, -0x180);
    assert_eq!(word(&s, 0x1f4), 0x4000_0018);
    let s = vertex_sequence(&c, &frame(FwVersion::V13_0B4, &c), &parts, &queue(0xb, 1), 0xc);
    assert_eq!(s.len(), 0x218);
    assert_eq!(word(&s, 0x180), 0x9080);
    assert_eq!(word(&s, 0x190 + 0x6c) as i32, -0x190);
}

#[test]
fn fragment_job_fields() {
    let c = cmdbuf(1920, 1080);
    let micro = MicroSeqRef { address: 0x4000, size: 0x238 };
    let f = frame(FwVersion::V12_3, &c);
    let j = run_fragment(&c, &f, &queue(0xb, 1), &micro, 0x5000);
    assert_eq!((j.tag, j.counter, j.vm_slot), (CommandType::RunFragment, None, 5));
    assert_eq!((j.microsequence, j.microsequence_size, j.notifier), (0x4000, 0x238, 0x9000));
    assert_eq!((j.buffer, j.scene, j.unk_buffer_buf, j.tvb_tilemap), (0x200, 0x100, 0x300, 0x600));
    assert_eq!((j.tiles_per_mtile_x, j.tiles_per_mtile_y, j.tile_count), (16, 12, 2040));
    assert_eq!(j.job_params1.mtile_stride_dwords, (4 * 480) << 24);
    assert_eq!(j.job_params1.clear_pipeline.address, 0x14);
    assert_eq!(j.job_params1.pipeline_base, 0x11_0000_0000);
    assert_eq!((j.job_params1.unk_140, j.job_params1.unk_158), (0x8c60, 0x1c));
    assert_eq!((j.job_params1.aux_fb, j.job_params1.tile_config), (0x5000, 0x280));
    assert_eq!(j.job_params2.store_pipeline_addr, 0x34);
    assert_eq!(j.job_params2.tile_counts, (33 << 12) | 59);
    assert_eq!(j.job_params2.isp_bgobjvals, 0x700);
    assert_eq!(j.job_params3.isp_bgobjvals, 0x300);
    assert_eq!(j.job_params3.partial_store_pipeline.address, 0x74);
    assert_eq!(j.job_params3.reload_pipeline.pipeline_bind, 0x60);
    assert_eq!((j.encoder_params.unk_8, j.encoder_params.unk_1c), (0, u32::MAX));
    assert_eq!((j.process_empty_tiles, j.no_clear_pipeline_textures), (0, 1));
    assert_eq!((j.meta.stamp_value, j.meta.prev_stamp_value), (EventValue(0x800), 7));
    assert_eq!((j.meta.uuid, j.meta.stamp_slot, j.client_seq), (13, 1, 0x23));
    let f = frame(FwVersion::V13_0B4, &c);
    let j = run_fragment(&c, &f, &queue(0xb, 1), &micro, 0x5000);
    assert_eq!(j.counter, Some(1));
    assert_eq!(j.job_params1.aux_fb_info.unk3, Some(0x10_0000));
    assert_eq!(AuxFBInfo::new(&c, FwVersion::V12_3).unk3, None);
}

#[test]
fn vertex_job_fields() {
    let c = cmdbuf(1920, 1080);
    let micro = MicroSeqRef { address: 0x4000, size: 0x1f8 };
    let f = frame(FwVersion::V12_3, &c);
    let j = run_vertex(&c, &f, &queue(0xb, 1), &queue(0xd, 2), &micro, &vec![0xff], 0xa041);
    assert_eq!((j.tag, j.counter, j.buffer_slot), (CommandType::RunVertex, None, 7));
    assert_eq!(j.job_params1.tvb_heapmeta, 0x8000_0000_0000_0500);
    assert_eq!(j.job_params1.tvb_heapmeta_2, 0x500);
    assert_eq!((j.job_params1.core_mask0, j.job_params1.core_mask1), (0xff, 0));
    assert_eq!(j.job_params1.preempt_buf3, 0x4_0000_0000_0820);
    assert_eq!((j.job_params1.tiling_control, j.job_params1.unk_f0), (0xa041, 0x1c));
    assert_eq!((j.job_params1.unk_8, j.job_params1.iogpu_unk_54), (0x1e3c_e508, 0x6b_0003));
    assert_eq!((j.tiling_params, j.tpc, j.tpc_size), (f.tiles.params, 0x700, 49152));
    assert_eq!((j.fragment_stamp_slot, j.fragment_stamp_value), (2, EventValue(0x800)));
    assert_eq!((j.preempt_buf1, j.memoryless_rts_used), (0x800, 1));
    assert_eq!((j.meta.uuid, j.client_seq), (12, 0x23));
}

#[test]
fn steps_of_a_frame() {
    let walk = |rebind: bool, power_off: bool| {
        let mut all = Vec::new();
        let mut s = RenderStep::BeginVertex;
        while s != RenderStep::Done {
            all.push(s);
            s = s.next(rebind, power_off);
        }
        all
    };
    let all = walk(true, true);
    assert_eq!(all.len(), 19);
    let at = |s: RenderStep| all.iter().position(|x| *x == s).unwrap();
    assert!(at(RenderStep::AddInitBuffer) < at(RenderStep::AddVertex));
    assert!(at(RenderStep::AddBarrier) < at(RenderStep::AddFragment));
    assert!(at(RenderStep::CommitVertex) < at(RenderStep::SubmitFragment));
    assert!(at(RenderStep::SubmitFragment) < at(RenderStep::SubmitVertex));
    assert!(at(RenderStep::SubmitVertex) < at(RenderStep::WaitVertex));
    let short = walk(false, false);
    assert_eq!(short.len(), 17);
    assert!(!short.contains(&RenderStep::AddInitBuffer));
    assert!(!short.contains(&RenderStep::WaitForPowerOff));
    assert_eq!(RenderStep::Done.next(true, true), RenderStep::Done);
}

#[test]
fn barrier_waits_for_the_vertex_batch() {
    let mut events = EventManager::new(EventManagerInner {
        stamps: GpuArray { base: 0x1000, item_size: 4, count: 128 },
        fw_stamps: GpuArray { base: 0x8000, item_size: 8, count: 128 },
    });
    let q: WorkQueue<u32> = WorkQueue::new(0xabc, PipeType::Vertex);
    let event = q.get_event(&mut events).unwrap();
    let mut vtx = q.begin_batch(Some(QueueEvent { event, value: EventValue(0x300) }));
    let r = queue_ref(&vtx);
    assert_eq!((r.info, r.stamp, r.fw_stamp, r.slot), (0xabc, 0x1000, 0x8000, 0));
    let b = Barrier::new(&r, &queue(0xd, 2), 13);
    vtx.add(1, 1, 0);
    assert_eq!(vtx.commit().unwrap().value, b.wait_value);
    assert_eq!((b.tag, b.wait_stamp, b.wait_slot), (CommandType::Barrier, 0x8000, 0));
    assert_eq!((b.stamp_self, b.uuid), (EventValue(0x800), 13));
    let f = frame(FwVersion::V12_3, &cmdbuf(64, 64));
    let i = InitBuffer::new(&f.scene, 5, 8, &r);
    assert_eq!((i.tag, i.vm_slot, i.buffer_slot), (CommandType::InitBuffer, 5, 7));
    assert_eq!((i.block_count, i.buffer, i.stamp_value), (8, 0x200, EventValue(0x400)));
}

#[test]
fn operation_headers() {
    assert_eq!(OpHeader::new(OpCode::StartCompute).0, 0x29);
    assert_eq!(OpHeader::with_args(OpCode::FinalizeCompute, 0x100).0, 0x12a);
    assert_eq!(OpHeader::retire_stamp().0, 0x4000_0018);
    assert_eq!(OpHeader::wait_for_idle(Pipe::Compute).0, 0x80_0001);
    assert_eq!(OpHeader::timestamp(true).0, 0x8000_0019);
    assert_eq!(OpHeader::timestamp(false).0, 0x19);
    assert_eq!(OpCode::WaitForIdle.to_u32(), 1);
    assert_eq!((Pipe::Vertex.to_u32(), Pipe::Fragment.to_u32()), (1, 0x100));
}

#[test]
fn operations_are_little_endian() {
    let mut b = Builder::new();
    assert_eq!(b.add(&WaitForIdle { pipe: Pipe::Vertex }), 0);
    assert_eq!(b.add(&RetireStamp), 4);
    assert_eq!(b.offset_to(4), -4);
    assert_eq!(b.build(), vec![0x01, 0x01, 0, 0, 0x18, 0, 0, 0x40]);
    let f = FinalizeVertex {
        scene: 0x0102_0304_0506_0708,
        buffer: 0,
        stats: 0,
        work_queue: 0,
        vm_slot: 0,
        unk_pointer: 0,
        uuid: 0,
        fw_stamp: 0,
        stamp_value: 0,
        restart_branch_offset: -2,
        ventura: false,
    };
    assert_eq!(f.to_fields()[13], Field::I32(-2));
    let mut b = Builder::new();
    b.add(&f);
    let bytes = b.build();
    assert_eq!(bytes.len(), 0x74);
    assert_eq!(&bytes[4..12], &[8, 7, 6, 5, 4, 3, 2, 1]);
    assert_eq!(&bytes[0x6c..0x70], &[0xfe, 0xff, 0xff, 0xff]);
}

#[test]
fn offsets_count_back() {
    let mut b = Builder::new();
    b.add(&RetireStamp);
    assert_eq!(b.offset_to(4), 0);
    let start = b.add(&WaitForIdle { pipe: Pipe::Fragment });
    assert_eq!((start, b.offset_to(start)), (4, -4));
    b.add(&RetireStamp);
    b.add(&WaitForIdle { pipe: Pipe::Vertex });
    assert_eq!(b.offset_to(start), -12);
    assert_eq!(b.offset_to(0), -16);
    assert_eq!(b.offset_to(16), 0);
    assert_eq!(b.add(&RetireStamp), 16);
}
