use cros_codecs::backend::v4l2::decoder::stateless::BackendHandle;
use cros_codecs::backend::v4l2::decoder::stateless::PictureRef;
use cros_codecs::backend::v4l2::decoder::stateless::V4l2Picture;
use cros_codecs::backend::v4l2::decoder::stateless::V4l2StatelessDecoderBackend;
use cros_codecs::backend::v4l2::decoder::stateless::V4l2StatelessDecoderHandle;
use cros_codecs::codec::h264::Dpb;
use cros_codecs::codec::h264::DpbEntry;
use cros_codecs::codec::h264::Nalu;
use cros_codecs::codec::h264::NaluHeader;
use cros_codecs::codec::h264::NaluType;
use cros_codecs::codec::h264::PictureData;
use cros_codecs::codec::h264::Pps;
use cros_codecs::codec::h264::Slice;
use cros_codecs::codec::h264::SliceHeader;
use cros_codecs::codec::h264::Sps;
use cros_codecs::decoder::stateless::StatelessDecoder;
use cros_codecs::device::v4l2::stateless::buffer::BufferState;
use cros_codecs::device::v4l2::stateless::buffer::DqBufReply;
use cros_codecs::device::v4l2::stateless::buffer::V4l2CaptureCompletion;
use cros_codecs::device::v4l2::stateless::buffer::TimeVal;
use cros_codecs::device::v4l2::stateless::controls::h264::V4l2Ctrl;
use cros_codecs::device::v4l2::stateless::controls::h264::V4l2CtrlH264DecodeMode;
use cros_codecs::device::v4l2::stateless::format::Format;
use cros_codecs::device::v4l2::stateless::format::PixelFormat;
use cros_codecs::device::v4l2::stateless::format::PlaneLayout;
use cros_codecs::device::v4l2::stateless::queue::V4l2CaptureQueue;
use cros_codecs::device::v4l2::stateless::queue::V4l2OutputQueue;
use cros_codecs::error::Error;
use cros_codecs::BlockingMode;
use cros_codecs::DecodedFormat;
use cros_codecs::Resolution;

fn capture_format() -> Format {
    Format {
        width: 320,
        height: 200,
        pixelformat: PixelFormat::from_fourcc(&[b'N', b'V', b'1', b'2']),
        plane_fmt: vec![PlaneLayout { sizeimage: 96000, bytesperline: 320 }],
    }
}

fn streaming_backend(outputs: usize, captures: usize) -> V4l2StatelessDecoderBackend {
    let mut backend = V4l2StatelessDecoderBackend::new();
    let request = V4l2OutputQueue::format_request(Resolution { width: 320, height: 200 });
    backend.set_output_resolution(Some(request), Some(outputs)).unwrap();
    backend.set_capture_resolution(Some(capture_format()), Some(captures)).unwrap();
    backend
}

fn picture_data(frame_num: u32) -> PictureData {
    PictureData {
        frame_num,
        pic_num: frame_num as i32,
        top_field_order_cnt: 2 * frame_num as i32,
        bottom_field_order_cnt: 2 * frame_num as i32 + 1,
        is_idr: frame_num == 0,
        is_long_term: false,
    }
}

fn sps() -> Sps {
    Sps {
        seq_parameter_set_id: 1,
        profile_idc: 100,
        level_idc: 31,
        chroma_format_idc: 1,
        max_num_ref_frames: 4,
        pic_width_in_mbs_minus1: 19,
        pic_height_in_map_units_minus1: 12,
    }
}

fn pps() -> Pps {
    Pps {
        pic_parameter_set_id: 2,
        seq_parameter_set_id: 1,
        num_ref_idx_l0_default_active_minus1: 3,
        num_ref_idx_l1_default_active_minus1: 0,
        pic_init_qp_minus26: -4,
    }
}

fn slice_header(frame_num: u16) -> SliceHeader {
    SliceHeader { first_mb_in_slice: 0, frame_num, idr_pic_id: 7, pic_order_cnt_lsb: 2 * frame_num }
}

fn slice_of<'a>(data: &'a [u8], frame_num: u16) -> Slice<'a> {
    let header = NaluHeader { ref_idc: 1, type_: NaluType::Slice, idr_pic_flag: false };
    let nalu = Nalu::new(header, &data[3..], 0, 3).unwrap();
    Slice { header: slice_header(frame_num), nalu }
}

fn handle_of(picture: PictureRef) -> V4l2StatelessDecoderHandle {
    V4l2StatelessDecoderHandle { handle: BackendHandle { picture } }
}

fn decode_unit(
    backend: &mut V4l2StatelessDecoderBackend,
    timestamp: u64,
    dpb: &Dpb<V4l2StatelessDecoderHandle>,
    stream: &[u8],
) -> (V4l2StatelessDecoderHandle, usize, usize) {
    let picture = backend.new_picture(&picture_data(timestamp as u32), timestamp).unwrap();
    backend
        .start_picture(
            &picture,
            &picture_data(timestamp as u32),
            &sps(),
            &pps(),
            dpb,
            &slice_header(timestamp as u16),
        )
        .unwrap();
    let slice = slice_of(stream, timestamp as u16);
    let job = backend.decode_slice(&picture, &slice, &sps(), &pps(), &[], &[]).unwrap();
    assert_eq!(job.request.timestamp, TimeVal { tv_sec: 0, tv_usec: timestamp as i64 });
    let handle = backend.submit_picture(picture).unwrap();
    (handle, job.request.index, job.capture_index.unwrap())
}

#[test]
fn new_backend_has_nothing_in_flight() {
    let backend = V4l2StatelessDecoderBackend::new();
    assert!(!backend.output_queue().is_streaming());
    assert!(!backend.capture_queue().is_streaming());
    assert_eq!(backend.output_queue().requested_buffers(), 8);
    assert_eq!(backend.capture_queue().requested_buffers(), 8);
    assert_eq!(backend.num_in_flight(), 0);
    assert_eq!(backend.device().video_device(), "/dev/video-dec0");
    assert_eq!(backend.device().media_device(), "/dev/media-dec0");
    let info = backend.stream_info().unwrap();
    assert_eq!(info.format, DecodedFormat::I420);
    assert_eq!(info.min_num_frames, 4);
    assert_eq!(info.coded_resolution, Resolution { width: 320, height: 200 });
    assert_eq!(info.display_resolution, Resolution { width: 320, height: 200 });
}

#[test]
fn new_v4l2_keeps_the_blocking_mode() {
    let decoder = StatelessDecoder::new_v4l2(BlockingMode::NonBlocking);
    assert_eq!(decoder.blocking_mode, BlockingMode::NonBlocking);
    assert_eq!(decoder.backend.num_in_flight(), 0);
    assert!(!decoder.backend.output_queue().is_streaming());
    let decoder = StatelessDecoder::new_v4l2(BlockingMode::Blocking);
    assert_eq!(decoder.blocking_mode, BlockingMode::Blocking);
}

#[test]
fn new_sequence_keeps_the_parameters() {
    let mut backend = V4l2StatelessDecoderBackend::new();
    assert_eq!(backend.sequence(), None);
    assert_eq!(backend.new_sequence(&sps()), Ok(()));
    assert_eq!(backend.sequence(), Some(sps()));
    assert!(!backend.output_queue().is_streaming());
}

#[test]
fn new_picture_registers_under_its_timestamp() {
    let mut backend = V4l2StatelessDecoderBackend::new();
    let first = backend.new_picture(&picture_data(0), 10).unwrap();
    let second = backend.new_picture(&picture_data(1), 20).unwrap();
    assert_eq!(first, PictureRef { id: 0, timestamp: 10 });
    assert_eq!(second, PictureRef { id: 1, timestamp: 20 });
    assert!(backend.is_registered(10));
    assert!(backend.is_registered(20));
    assert!(!backend.is_registered(30));
    assert_eq!(backend.num_in_flight(), 2);
    let picture = backend.picture(&first).unwrap();
    assert_eq!(picture.timestamp, 10);
    assert!(picture.buf.is_none());
    assert!(picture.ref_pic_list.is_empty());
}

#[test]
fn one_picture_per_timestamp_in_the_registry() {
    let mut backend = V4l2StatelessDecoderBackend::new();
    let first = backend.new_picture(&picture_data(0), 10).unwrap();
    let second = backend.new_picture(&picture_data(1), 10).unwrap();
    assert_eq!(backend.num_in_flight(), 1);
    assert!(backend.is_registered(10));
    // The picture that lost its place in the registry is still alive.
    assert!(backend.picture(&first).is_some());
    assert!(backend.picture(&second).is_some());
    assert_eq!(first.timestamp, second.timestamp);
    assert_ne!(first.id, second.id);
    // Only the picture in the registry is in flight: the other one can be
    // let go of.
    assert_eq!(backend.release_picture(second), Err(Error::ProtocolViolation));
    assert_eq!(backend.release_picture(first), Ok(()));
}

#[test]
fn new_field_picture_is_unimplemented() {
    let mut backend = V4l2StatelessDecoderBackend::new();
    let first = backend.new_picture(&picture_data(0), 10).unwrap();
    let r = backend.new_field_picture(&picture_data(0), 10, &handle_of(first));
    assert_eq!(r, Err(Error::Unimplemented));
    assert_eq!(backend.num_in_flight(), 1);
}

#[test]
fn attaching_a_second_buffer_is_a_protocol_violation() {
    let mut queue = V4l2CaptureQueue::new(2);
    queue.set_resolution(Some(capture_format()), Some(2)).unwrap();
    for _ in 0..2 {
        let buf = queue.alloc_buffer().unwrap();
        queue.queue_buffer(buf).unwrap();
    }
    queue.complete(0, TimeVal::from_key(10), vec![vec![1, 2]]).unwrap();
    queue.complete(1, TimeVal::from_key(20), vec![vec![3, 4]]).unwrap();
    let a = queue.dequeue_buffer().unwrap();
    let b = queue.dequeue_buffer().unwrap();
    let mut picture = V4l2Picture::new(10);
    picture.ref_pic_list.push(PictureRef { id: 5, timestamp: 5 });
    assert_eq!(picture.attach(a), Ok(()));
    assert!(picture.is_ready());
    assert!(picture.ref_pic_list.is_empty());
    assert_eq!(picture.attach(b), Err(Error::ProtocolViolation));
    let buf = picture.buf.as_ref().unwrap();
    assert_eq!(buf.index(), 0);
    assert_eq!(buf.plane(0), &vec![1u8, 2]);
}

#[test]
fn a_completion_for_an_attached_picture_is_a_protocol_violation() {
    let mut backend = streaming_backend(2, 3);
    let stream = [0u8, 0, 1, 0x65, 0x88];
    let (handle, _, capture) = decode_unit(&mut backend, 10, &Dpb::new(), &stream);
    backend.capture_completed(capture, TimeVal::from_key(10), vec![vec![1]]).unwrap();
    let queued = backend.process_capture_queue().unwrap();
    assert_eq!(queued.len(), 2);
    assert!(handle.is_ready(&backend));
    // The device echoes the same time stamp once more.
    backend.capture_completed(queued[0], TimeVal::from_key(10), vec![vec![2]]).unwrap();
    assert_eq!(backend.process_capture_queue(), Err(Error::ProtocolViolation));
    // The first frame stays where it is.
    let picture = handle.handle.dyn_mappable_handle(&backend).unwrap().unwrap();
    assert_eq!(picture.buf.as_ref().unwrap().plane(0), &vec![1u8]);
    // The buffer of the orphaned frame is free again.
    assert_eq!(backend.capture_queue().buffer_state(queued[0]), Some(BufferState::Free));
}

#[test]
fn dpb_order_is_kept_in_the_reference_list() {
    let mut backend = streaming_backend(4, 4);
    let t1 = backend.new_picture(&picture_data(1), 30).unwrap();
    let t2 = backend.new_picture(&picture_data(2), 10).unwrap();
    let t3 = backend.new_picture(&picture_data(3), 20).unwrap();
    let mut dpb = Dpb::new();
    for (n, r) in [(1u32, t1), (2, t2), (3, t3)] {
        dpb.store_picture(DpbEntry { pic: picture_data(n), handle: Some(handle_of(r)) }).unwrap();
    }
    let current = backend.new_picture(&picture_data(4), 40).unwrap();
    let r = backend.start_picture(
        &current,
        &picture_data(4),
        &sps(),
        &pps(),
        &dpb,
        &slice_header(4),
    );
    assert_eq!(r, Ok(()));
    let picture = backend.picture(&current).unwrap();
    let params = &picture.h264_decode_params;
    assert_eq!(params.num_dpb_entries, 3);
    let timestamps: Vec<u64> = params.dpb[..3].iter().map(|e| e.timestamp).collect();
    assert_eq!(timestamps, vec![30, 10, 20]);
    assert_eq!(params.dpb[0].pic, picture_data(1));
    assert_eq!(params.dpb[2].pic, picture_data(3));
    assert_eq!(params.dpb[3].timestamp, 0);
    assert_eq!(picture.ref_pic_list, vec![t1, t2, t3]);
    assert_eq!(params.frame_num, 4);
    assert_eq!(params.idr_pic_id, 7);
    assert_eq!(params.pic_order_cnt_lsb, 8);
    assert_eq!(params.top_field_order_cnt, 8);
    assert_eq!(params.bottom_field_order_cnt, 9);
    assert!(!params.idr_pic_flag);
    assert_eq!(picture.h264_sps.profile_idc, 100);
    assert_eq!(picture.h264_sps.level_idc, 31);
    assert_eq!(picture.h264_sps.pic_width_in_mbs_minus1, 19);
    assert_eq!(picture.h264_pps.pic_parameter_set_id, 2);
    assert_eq!(picture.h264_pps.pic_init_qp_minus26, -4);
}

#[test]
fn start_picture_with_unregistered_reference_fails() {
    let mut backend = streaming_backend(4, 4);
    let known = backend.new_picture(&picture_data(1), 10).unwrap();
    let mut dpb = Dpb::new();
    dpb.store_picture(DpbEntry { pic: picture_data(1), handle: Some(handle_of(known)) }).unwrap();
    dpb.store_picture(DpbEntry {
        pic: picture_data(2),
        handle: Some(handle_of(PictureRef { id: 77, timestamp: 99 })),
    }).unwrap();
    let current = backend.new_picture(&picture_data(3), 30).unwrap();
    let r = backend.start_picture(
        &current,
        &picture_data(3),
        &sps(),
        &pps(),
        &dpb,
        &slice_header(3),
    );
    assert_eq!(r, Err(Error::ProtocolViolation));
    // Nothing was written: the entry was not left out in silence.
    let picture = backend.picture(&current).unwrap();
    assert_eq!(picture.h264_decode_params.num_dpb_entries, 0);
    assert!(picture.ref_pic_list.is_empty());
    assert_eq!(picture.h264_sps.profile_idc, 0);
}

#[test]
fn start_picture_refuses_what_does_not_resolve() {
    let mut backend = streaming_backend(4, 4);
    let current = backend.new_picture(&picture_data(3), 30).unwrap();
    // An entry without a handle.
    let mut dpb = Dpb::new();
    dpb.store_picture(DpbEntry { pic: picture_data(1), handle: None }).unwrap();
    let r =
        backend.start_picture(&current, &picture_data(3), &sps(), &pps(), &dpb, &slice_header(3));
    assert_eq!(r, Err(Error::ProtocolViolation));
    // A handle with the right place and the wrong time stamp.
    let mut dpb = Dpb::new();
    dpb.store_picture(DpbEntry {
        pic: picture_data(1),
        handle: Some(handle_of(PictureRef { id: current.id, timestamp: 31 })),
    }).unwrap();
    let r =
        backend.start_picture(&current, &picture_data(3), &sps(), &pps(), &dpb, &slice_header(3));
    assert_eq!(r, Err(Error::ProtocolViolation));
    // A picture that is not alive.
    let r = backend.start_picture(
        &PictureRef { id: 9, timestamp: 30 },
        &picture_data(3),
        &sps(),
        &pps(),
        &Dpb::new(),
        &slice_header(3),
    );
    assert_eq!(r, Err(Error::ProtocolViolation));
    // A decoded picture buffer takes sixteen entries, and all of them fit
    // into the control block.
    let mut dpb = Dpb::new();
    for _ in 0..16 {
        dpb.store_picture(DpbEntry { pic: picture_data(3), handle: Some(handle_of(current)) })
            .unwrap();
    }
    assert_eq!(
        dpb.store_picture(DpbEntry { pic: picture_data(3), handle: Some(handle_of(current)) }),
        Err(Error::ProtocolViolation)
    );
    assert_eq!(dpb.len(), 16);
    assert_eq!(dpb.entries().len(), 16);
    let r =
        backend.start_picture(&current, &picture_data(3), &sps(), &pps(), &dpb, &slice_header(3));
    assert_eq!(r, Ok(()));
    assert_eq!(backend.picture(&current).unwrap().h264_decode_params.num_dpb_entries, 16);
}

#[test]
fn decode_slice_builds_the_job() {
    let mut backend = streaming_backend(2, 2);
    let picture = backend.new_picture(&picture_data(5), 50).unwrap();
    backend
        .start_picture(&picture, &picture_data(5), &sps(), &pps(), &Dpb::new(), &slice_header(5))
        .unwrap();
    let stream = [0u8, 0, 0, 0x88, 0x84, 0x21];
    let slice = slice_of(&stream, 5);
    let job = backend.decode_slice(&picture, &slice, &sps(), &pps(), &[], &[]).unwrap();
    assert_eq!(job.request.index, 0);
    assert_eq!(job.capture_index, Some(0));
    assert_eq!(job.request.timestamp, TimeVal { tv_sec: 0, tv_usec: 50 });
    assert_eq!(job.request.data, vec![0, 0, 1, 0x88, 0x84, 0x21]);
    assert_eq!(job.request.ctrls.len(), 4);
    match job.request.ctrls[0] {
        V4l2Ctrl::H264Sps(c) => assert_eq!(c.profile_idc, 100),
        _ => panic!("the first block is the sequence parameters"),
    }
    match job.request.ctrls[1] {
        V4l2Ctrl::H264Pps(c) => assert_eq!(c.pic_parameter_set_id, 2),
        _ => panic!("the second block is the picture parameters"),
    }
    match job.request.ctrls[2] {
        V4l2Ctrl::H264DecodeParams(c) => assert_eq!(c.frame_num, 5),
        _ => panic!("the third block is the decode parameters"),
    }
    match job.request.ctrls[3] {
        V4l2Ctrl::H264DecodeMode(m) => assert_eq!(m, V4l2CtrlH264DecodeMode::FrameBased),
        _ => panic!("the fourth block is the decode mode"),
    }
    assert_eq!(backend.output_queue().buffer_state(0), Some(BufferState::Queued));
    assert_eq!(backend.output_queue().buffer_state(1), Some(BufferState::Free));
    assert_eq!(backend.capture_queue().buffer_state(0), Some(BufferState::Queued));
    assert_eq!(backend.capture_queue().buffer_state(1), Some(BufferState::Free));
    let handle = backend.submit_picture(picture).unwrap();
    assert_eq!(handle.timestamp(), 50);
    assert_eq!(handle.sync(), Ok(()));
    assert!(!handle.is_ready(&backend));
    assert_eq!(handle.dyn_picture(), BackendHandle { picture });
}

#[test]
fn decode_slice_refusals_change_nothing() {
    let mut backend = streaming_backend(1, 2);
    let stream = [0u8, 0, 1, 0x65, 0x88, 0x84];
    let slice = slice_of(&stream, 5);
    // A picture that is not alive.
    let ghost = PictureRef { id: 3, timestamp: 50 };
    let r = backend.decode_slice(&ghost, &slice, &sps(), &pps(), &[], &[]);
    assert_eq!(r.err(), Some(Error::ProtocolViolation));
    // No free buffer for encoded data.
    let picture = backend.new_picture(&picture_data(5), 50).unwrap();
    assert!(backend.decode_slice(&picture, &slice, &sps(), &pps(), &[], &[]).is_ok());
    let r = backend.decode_slice(&picture, &slice, &sps(), &pps(), &[], &[]);
    assert_eq!(r.err(), Some(Error::ResourceExhausted));
    assert_eq!(backend.capture_queue().num_free_buffers(), 1);
    assert_eq!(backend.output_queue().num_free_buffers(), 0);
    // A slice that does not fit into a buffer.
    let mut small = V4l2StatelessDecoderBackend::new();
    let tiny =
        Format { width: 16, height: 16, pixelformat: PixelFormat(0), plane_fmt: vec![PlaneLayout {
            sizeimage: 5,
            bytesperline: 0,
        }] };
    small.set_output_resolution(Some(tiny), Some(1)).unwrap();
    small.set_capture_resolution(Some(capture_format()), Some(1)).unwrap();
    let picture = small.new_picture(&picture_data(5), 50).unwrap();
    let r = small.decode_slice(&picture, &slice, &sps(), &pps(), &[], &[]);
    assert_eq!(r.err(), Some(Error::DeviceIo));
    assert_eq!(small.output_queue().num_free_buffers(), 1);
    assert_eq!(small.capture_queue().num_free_buffers(), 1);
}

#[test]
fn completions_out_of_order_reach_their_pictures() {
    let mut backend = streaming_backend(4, 4);
    let stream = [0u8, 0, 1, 0x65, 0x88];
    let dpb = Dpb::new();
    let (h10, o10, c10) = decode_unit(&mut backend, 10, &dpb, &stream);
    let (h20, o20, c20) = decode_unit(&mut backend, 20, &dpb, &stream);
    let (h30, o30, c30) = decode_unit(&mut backend, 30, &dpb, &stream);
    assert_eq!((o10, o20, o30), (0, 1, 2));
    assert_eq!((c10, c20, c30), (0, 1, 2));
    assert_eq!(backend.num_in_flight(), 3);

    // The device finishes the second job first, and picks its own buffers.
    for index in [o20, o10, o30] {
        backend.output_completed(index).unwrap();
    }
    backend.capture_completed(c30, TimeVal::from_key(20), vec![vec![20; 4], vec![21; 2]]).unwrap();
    backend.capture_completed(c10, TimeVal::from_key(10), vec![vec![10; 4], vec![11; 2]]).unwrap();
    backend.capture_completed(c20, TimeVal::from_key(30), vec![vec![30; 4], vec![31; 2]]).unwrap();

    let queued = backend.poll().unwrap();
    assert_eq!(queued, vec![3]);
    assert_eq!(backend.num_in_flight(), 0);
    assert_eq!(backend.output_queue().num_free_buffers(), 4);
    assert_eq!(backend.capture_queue().num_free_buffers(), 0);

    for (handle, timestamp, index) in [(h10, 10u64, c10), (h20, 20, c30), (h30, 30, c20)] {
        assert!(backend.picture(&handle.handle.picture).unwrap().ref_pic_list.is_empty());
        assert_eq!(handle.timestamp(), timestamp);
        assert!(handle.is_ready(&backend));
        let picture = handle.dyn_picture().dyn_mappable_handle(&backend).unwrap().unwrap();
        assert_eq!(picture.timestamp, timestamp);
        let buf = picture.buf.as_ref().unwrap();
        assert_eq!(buf.index(), index);
        assert_eq!(buf.timestamp().key(), timestamp);
        assert_eq!(buf.num_planes(), 2);
        assert_eq!(picture.image_size(), 6);
        let mut data = [0xffu8; 8];
        assert_eq!(picture.read(&mut data), Ok(()));
        let t = timestamp as u8;
        assert_eq!(data, [t, t, t, t, t + 1, t + 1, 0xff, 0xff]);
    }
}

#[test]
fn a_poll_clears_the_references_of_a_decoded_picture() {
    let mut backend = streaming_backend(2, 2);
    let stream = [0u8, 0, 1, 0x65, 0x88];
    let (h10, _, c10) = decode_unit(&mut backend, 10, &Dpb::new(), &stream);
    let mut dpb = Dpb::new();
    dpb.store_picture(DpbEntry { pic: picture_data(10), handle: Some(h10) }).unwrap();
    let (h20, _, c20) = decode_unit(&mut backend, 20, &dpb, &stream);
    assert_eq!(backend.picture(&h20.handle.picture).unwrap().ref_pic_list, vec![h10.handle.picture]);
    backend.capture_completed(c10, TimeVal::from_key(10), vec![vec![1]]).unwrap();
    backend.capture_completed(c20, TimeVal::from_key(20), vec![vec![2]]).unwrap();
    assert_eq!(backend.process_capture_queue(), Ok(vec![]));
    assert!(backend.picture(&h20.handle.picture).unwrap().ref_pic_list.is_empty());
    assert!(backend.picture(&h20.handle.picture).unwrap().is_ready());
}

#[test]
fn unregistered_completion_is_a_protocol_violation() {
    let mut backend = streaming_backend(2, 3);
    let stream = [0u8, 0, 1, 0x65, 0x88];
    let (h10, _, c10) = decode_unit(&mut backend, 10, &Dpb::new(), &stream);
    let (h20, _, c20) = decode_unit(&mut backend, 20, &Dpb::new(), &stream);
    backend.capture_completed(c10, TimeVal::from_key(11), vec![vec![1]]).unwrap();
    backend.capture_completed(c20, TimeVal::from_key(20), vec![vec![2]]).unwrap();
    assert_eq!(backend.process_capture_queue(), Err(Error::ProtocolViolation));
    // The frame that found no picture gave its buffer back, the frame behind
    // it is still with the device, and nothing was queued.
    assert_eq!(backend.capture_queue().buffer_state(c10), Some(BufferState::Free));
    assert_eq!(backend.capture_queue().buffer_state(c20), Some(BufferState::Done));
    assert_eq!(backend.capture_queue().buffer_state(2), Some(BufferState::Free));
    assert!(!h10.is_ready(&backend));
    assert!(!h20.is_ready(&backend));
    assert_eq!(backend.num_in_flight(), 2);
    // The next poll goes on behind it.
    assert_eq!(backend.process_capture_queue(), Ok(vec![0, 2]));
    assert!(h20.is_ready(&backend));
    assert!(!h10.is_ready(&backend));
}

#[test]
fn after_a_poll_no_capture_buffer_is_free() {
    let mut backend = streaming_backend(2, 5);
    assert_eq!(backend.capture_queue().num_free_buffers(), 5);
    assert_eq!(backend.process_capture_queue(), Ok(vec![0, 1, 2, 3, 4]));
    assert_eq!(backend.capture_queue().num_free_buffers(), 0);
    for i in 0..5 {
        assert_eq!(backend.capture_queue().buffer_state(i), Some(BufferState::Queued));
    }
    assert_eq!(backend.process_capture_queue(), Ok(vec![]));
}

#[test]
fn releasing_a_picture_frees_its_buffer() {
    let mut backend = streaming_backend(2, 2);
    let stream = [0u8, 0, 1, 0x65, 0x88];
    let (h10, _, c10) = decode_unit(&mut backend, 10, &Dpb::new(), &stream);
    // A picture in flight cannot be let go of.
    assert_eq!(backend.release_picture(h10.handle.picture), Err(Error::ProtocolViolation));
    backend.capture_completed(c10, TimeVal::from_key(10), vec![vec![1]]).unwrap();
    assert_eq!(backend.process_capture_queue(), Ok(vec![1]));
    assert_eq!(backend.capture_queue().buffer_state(c10), Some(BufferState::Dequeued));
    assert_eq!(backend.release_picture(h10.handle.picture), Ok(()));
    assert_eq!(backend.capture_queue().buffer_state(c10), Some(BufferState::Free));
    assert!(backend.picture(&h10.handle.picture).is_none());
    assert_eq!(h10.handle.dyn_mappable_handle(&backend).err(), Some(Error::ProtocolViolation));
    // A second time there is nothing to let go of.
    assert_eq!(backend.release_picture(h10.handle.picture), Err(Error::ProtocolViolation));
    // The freed buffer goes back to the device with the next poll.
    assert_eq!(backend.process_capture_queue(), Ok(vec![c10]));
}

#[test]
fn a_released_reference_no_longer_resolves() {
    let mut backend = streaming_backend(2, 2);
    let stream = [0u8, 0, 1, 0x65, 0x88];
    let (h10, _, c10) = decode_unit(&mut backend, 10, &Dpb::new(), &stream);
    backend.capture_completed(c10, TimeVal::from_key(10), vec![vec![1]]).unwrap();
    backend.process_capture_queue().unwrap();
    backend.release_picture(h10.handle.picture).unwrap();
    let mut dpb = Dpb::new();
    dpb.store_picture(DpbEntry { pic: picture_data(10), handle: Some(h10) }).unwrap();
    let current = backend.new_picture(&picture_data(11), 11).unwrap();
    let r =
        backend.start_picture(&current, &picture_data(11), &sps(), &pps(), &dpb, &slice_header(11));
    assert_eq!(r, Err(Error::ProtocolViolation));
}

#[test]
fn a_picture_of_two_slices_gets_one_frame_buffer() {
    let mut backend = streaming_backend(4, 2);
    let picture = backend.new_picture(&picture_data(7), 70).unwrap();
    assert!(!backend.picture(&picture).unwrap().provisioned);
    backend
        .start_picture(&picture, &picture_data(7), &sps(), &pps(), &Dpb::new(), &slice_header(7))
        .unwrap();
    let first = [0u8, 0, 1, 0x65, 0x88];
    let second = [0u8, 0, 1, 0x41, 0x10, 0x20];
    let one = backend.decode_slice(&picture, &slice_of(&first, 7), &sps(), &pps(), &[], &[]).unwrap();
    assert_eq!(one.request.index, 0);
    assert_eq!(one.capture_index, Some(0));
    assert!(backend.picture(&picture).unwrap().provisioned);
    let two =
        backend.decode_slice(&picture, &slice_of(&second, 7), &sps(), &pps(), &[], &[]).unwrap();
    // The second slice is a job of its own under the same time stamp, and
    // decodes into the frame of the first: nothing more is queued for it.
    assert_eq!(two.request.index, 1);
    assert_eq!(two.request.timestamp, one.request.timestamp);
    assert_eq!(two.request.data, vec![0, 0, 1, 0x41, 0x10, 0x20]);
    assert_eq!(two.capture_index, None);
    assert_eq!(backend.capture_queue().buffer_state(0), Some(BufferState::Queued));
    assert_eq!(backend.capture_queue().buffer_state(1), Some(BufferState::Free));
    assert_eq!(backend.capture_queue().num_free_buffers(), 1);
    assert_eq!(backend.output_queue().num_free_buffers(), 2);
    let handle = backend.submit_picture(picture).unwrap();

    // The device reads both jobs and hands over one frame.
    backend.output_completed(0).unwrap();
    backend.output_completed(1).unwrap();
    backend.capture_completed(0, TimeVal::from_key(70), vec![vec![7, 7]]).unwrap();
    assert_eq!(backend.poll(), Ok(vec![1]));
    assert!(handle.is_ready(&backend));
    assert_eq!(backend.num_in_flight(), 0);
    let decoded = handle.dyn_picture().dyn_mappable_handle(&backend).unwrap().unwrap();
    assert_eq!(decoded.buf.as_ref().unwrap().plane(0), &vec![7u8, 7]);
    // Nothing is left over that could arrive without a picture.
    assert_eq!(backend.poll(), Ok(vec![]));
    assert_eq!(backend.capture_queue().buffer_state(1), Some(BufferState::Queued));
}

#[test]
fn later_slices_need_no_free_frame_buffer() {
    let mut backend = streaming_backend(3, 1);
    let stream = [0u8, 0, 1, 0x65, 0x88];
    let picture = backend.new_picture(&picture_data(1), 10).unwrap();
    let other = backend.new_picture(&picture_data(2), 20).unwrap();
    let one = backend.decode_slice(&picture, &slice_of(&stream, 1), &sps(), &pps(), &[], &[]).unwrap();
    assert_eq!(one.capture_index, Some(0));
    assert_eq!(backend.capture_queue().num_free_buffers(), 0);
    // The first slice of another picture finds no buffer for its frame.
    let r = backend.decode_slice(&other, &slice_of(&stream, 2), &sps(), &pps(), &[], &[]);
    assert_eq!(r.err(), Some(Error::ResourceExhausted));
    assert!(!backend.picture(&other).unwrap().provisioned);
    assert_eq!(backend.output_queue().num_free_buffers(), 2);
    // A later slice of the first picture needs none.
    let two = backend.decode_slice(&picture, &slice_of(&stream, 1), &sps(), &pps(), &[], &[]).unwrap();
    assert_eq!(two.capture_index, None);
    assert_eq!(backend.output_queue().num_free_buffers(), 1);
}

#[test]
fn provision_frame_queues_once() {
    let mut backend = streaming_backend(1, 2);
    let picture = backend.new_picture(&picture_data(1), 10).unwrap();
    assert_eq!(backend.provision_frame(&picture), Ok(Some(0)));
    assert_eq!(backend.provision_frame(&picture), Ok(None));
    assert_eq!(backend.provision_frame(&picture), Ok(None));
    assert_eq!(backend.capture_queue().num_free_buffers(), 1);
    assert_eq!(
        backend.provision_frame(&PictureRef { id: 4, timestamp: 10 }),
        Err(Error::ProtocolViolation)
    );
    let other = backend.new_picture(&picture_data(2), 20).unwrap();
    assert_eq!(backend.provision_frame(&other), Ok(Some(1)));
    let third = backend.new_picture(&picture_data(3), 30).unwrap();
    assert_eq!(backend.provision_frame(&third), Err(Error::ResourceExhausted));
}

#[test]
fn a_refused_setup_keeps_the_queues_streaming() {
    let mut backend = streaming_backend(2, 3);
    let stream = [0u8, 0, 1, 0x65, 0x88];
    decode_unit(&mut backend, 10, &Dpb::new(), &stream);
    let request = V4l2OutputQueue::format_request(Resolution { width: 640, height: 480 });
    assert_eq!(backend.set_output_resolution(Some(request), Some(5)), Err(Error::Unimplemented));
    assert_eq!(
        backend.set_capture_resolution(Some(capture_format()), Some(5)),
        Err(Error::Unimplemented)
    );
    assert!(backend.output_queue().is_streaming());
    assert!(backend.capture_queue().is_streaming());
    assert_eq!(backend.output_queue().num_buffers(), 2);
    assert_eq!(backend.output_queue().num_free_buffers(), 1);
    assert_eq!(backend.output_queue().buffer_state(0), Some(BufferState::Queued));
    assert_eq!(backend.capture_queue().num_buffers(), 3);
    assert_eq!(backend.capture_queue().num_free_buffers(), 2);
    // A refusal of the device leaves a new queue as it was.
    let mut fresh = V4l2StatelessDecoderBackend::new();
    assert_eq!(fresh.set_output_resolution(None, Some(5)), Err(Error::SetupFailure));
    assert!(!fresh.output_queue().is_streaming());
    assert_eq!(fresh.output_queue().requested_buffers(), 8);
    let request = V4l2OutputQueue::format_request(Resolution { width: 640, height: 480 });
    assert_eq!(fresh.set_output_resolution(Some(request), Some(5)), Ok(()));
    assert_eq!(fresh.output_queue().num_buffers(), 5);
}

#[test]
fn the_answer_of_the_device_to_a_dequeue() {
    let mut backend = streaming_backend(2, 2);
    let stream = [0u8, 0, 1, 0x65, 0x88];
    let (handle, output, capture) = decode_unit(&mut backend, 10, &Dpb::new(), &stream);
    // Nothing yet: that is all for now.
    assert_eq!(backend.output_answered(DqBufReply::NotReady), Ok(false));
    assert_eq!(backend.capture_answered(DqBufReply::NotReady), Ok(false));
    // Any other failure is an error of the device.
    assert_eq!(backend.output_answered(DqBufReply::Failed), Err(Error::DeviceIo));
    assert_eq!(backend.capture_answered(DqBufReply::Failed), Err(Error::DeviceIo));
    assert_eq!(backend.output_queue().buffer_state(output), Some(BufferState::Queued));
    assert_eq!(backend.capture_queue().buffer_state(capture), Some(BufferState::Queued));
    // A finished buffer is recorded, and the device is asked again.
    assert_eq!(backend.output_answered(DqBufReply::Finished(output)), Ok(true));
    assert_eq!(backend.output_queue().buffer_state(output), Some(BufferState::Done));
    let frame = V4l2CaptureCompletion {
        index: capture,
        timestamp: TimeVal::from_key(10),
        planes: vec![vec![5, 6]],
    };
    assert_eq!(backend.capture_answered(DqBufReply::Finished(frame)), Ok(true));
    assert_eq!(backend.capture_queue().buffer_state(capture), Some(BufferState::Done));
    // A buffer that the device does not hold cannot be finished.
    assert_eq!(
        backend.output_answered(DqBufReply::Finished(output)),
        Err(Error::ProtocolViolation)
    );
    let again = V4l2CaptureCompletion {
        index: capture,
        timestamp: TimeVal::from_key(10),
        planes: Vec::new(),
    };
    assert_eq!(
        backend.capture_answered(DqBufReply::Finished(again)),
        Err(Error::ProtocolViolation)
    );
    backend.poll().unwrap();
    let picture = handle.dyn_picture().dyn_mappable_handle(&backend).unwrap().unwrap();
    assert_eq!(picture.checked_image_size(), Some(2));
    assert_eq!(picture.image_size(), 2);
}

#[test]
fn image_size_of_a_picture_without_frame() {
    let picture = V4l2Picture::new(3);
    assert_eq!(picture.checked_image_size(), None);
}

#[test]
fn a_missing_input_buffer_is_reported_before_the_size() {
    let mut backend = V4l2StatelessDecoderBackend::new();
    let tiny =
        Format { width: 16, height: 16, pixelformat: PixelFormat(0), plane_fmt: vec![PlaneLayout {
            sizeimage: 5,
            bytesperline: 0,
        }] };
    backend.set_output_resolution(Some(tiny), Some(1)).unwrap();
    backend.set_capture_resolution(Some(capture_format()), Some(2)).unwrap();
    let picture = backend.new_picture(&picture_data(1), 10).unwrap();
    let fits = [0u8, 0, 1, 0x65, 0x88];
    let too_long = [0u8, 0, 1, 0x65, 0x88, 0x84];
    // With a buffer free, the size is what fails.
    let r = backend.decode_slice(&picture, &slice_of(&too_long, 1), &sps(), &pps(), &[], &[]);
    assert_eq!(r.err(), Some(Error::DeviceIo));
    assert!(backend.decode_slice(&picture, &slice_of(&fits, 1), &sps(), &pps(), &[], &[]).is_ok());
    assert_eq!(backend.output_queue().num_free_buffers(), 0);
    // With none free, that is what is reported, whatever the size.
    let r = backend.decode_slice(&picture, &slice_of(&too_long, 1), &sps(), &pps(), &[], &[]);
    assert_eq!(r.err(), Some(Error::ResourceExhausted));
    let r = backend.decode_slice(&picture, &slice_of(&fits, 1), &sps(), &pps(), &[], &[]);
    assert_eq!(r.err(), Some(Error::ResourceExhausted));
    // Nothing was submitted or queued, and the picture is as it was.
    assert_eq!(backend.output_queue().buffer_state(0), Some(BufferState::Queued));
    assert_eq!(backend.capture_queue().num_free_buffers(), 1);
    assert_eq!(backend.num_in_flight(), 1);
    // A poll frees the buffer, and the slice that fits goes through.
    backend.output_completed(0).unwrap();
    backend.poll().unwrap();
    assert!(backend.decode_slice(&picture, &slice_of(&fits, 1), &sps(), &pps(), &[], &[]).is_ok());
}

#[test]
fn a_first_slice_without_frame_buffer_fails_behind_the_size() {
    let mut backend = V4l2StatelessDecoderBackend::new();
    let tiny =
        Format { width: 16, height: 16, pixelformat: PixelFormat(0), plane_fmt: vec![PlaneLayout {
            sizeimage: 5,
            bytesperline: 0,
        }] };
    backend.set_output_resolution(Some(tiny), Some(2)).unwrap();
    backend.set_capture_resolution(Some(capture_format()), Some(0)).unwrap();
    let picture = backend.new_picture(&picture_data(1), 10).unwrap();
    let fits = [0u8, 0, 1, 0x65, 0x88];
    let too_long = [0u8, 0, 1, 0x65, 0x88, 0x84];
    let r = backend.decode_slice(&picture, &slice_of(&too_long, 1), &sps(), &pps(), &[], &[]);
    assert_eq!(r.err(), Some(Error::DeviceIo));
    let r = backend.decode_slice(&picture, &slice_of(&fits, 1), &sps(), &pps(), &[], &[]);
    assert_eq!(r.err(), Some(Error::ResourceExhausted));
    assert_eq!(backend.output_queue().num_free_buffers(), 2);
}
