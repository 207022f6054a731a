use std::rc::Rc;

use cros_codecs::encoder::stateless::vp9::BackendRequest;
use cros_codecs::encoder::stateless::vp9::EncoderConfig;
use cros_codecs::encoder::stateless::vp9::Header;
use cros_codecs::encoder::stateless::vp9::LowDelayVP9;
use cros_codecs::encoder::stateless::vp9::ReferenceUse;
use cros_codecs::encoder::stateless::vp9::StatelessEncoder;
use cros_codecs::encoder::stateless::vp9::StatelessVP9EncoderBackend;
use cros_codecs::encoder::stateless::EncodeError;
use cros_codecs::encoder::stateless::FrameMetadata;
use cros_codecs::encoder::stateless::PredictionStructure;
use cros_codecs::encoder::stateless::StatelessBackendResult;
use cros_codecs::encoder::stateless::Tunings;
use cros_codecs::error::Error;
use cros_codecs::BlockingMode;
use cros_codecs::Resolution;

// A backend that "encodes" a frame by copying it behind the output the caller
// brought, and refuses frames that have no pixels.
struct CopyBackend {
    jobs: usize,
    references: Vec<Option<ReferenceUse>>,
}

impl StatelessVP9EncoderBackend for CopyBackend {
    type Picture = Vec<u8>;
    type Reconstructed = Vec<u8>;
    type ReconPromise = Vec<u8>;
    type CodedPromise = Vec<u8>;

    fn encode_frame(
        &mut self,
        request: BackendRequest<Vec<u8>, Vec<u8>>,
    ) -> StatelessBackendResult<(Vec<u8>, Vec<u8>)> {
        self.jobs += 1;
        self.references = vec![
            request.last_frame_ref.as_ref().map(|r| r.1),
            request.golden_frame_ref.as_ref().map(|r| r.1),
            request.altref_frame_ref.as_ref().map(|r| r.1),
        ];
        if request.input.is_empty() {
            return Err(Error::DeviceIo);
        }
        let mut coded = request.coded_output;
        coded.extend_from_slice(&request.input);
        Ok((request.input, coded))
    }
}

fn tunings() -> Tunings {
    Tunings { framerate: 30, min_quality: 0, max_quality: 255 }
}

fn config() -> EncoderConfig {
    EncoderConfig {
        resolution: Resolution { width: 64, height: 64 },
        pred_structure: PredictionStructure::LowDelay { limit: 12 },
        initial_tunings: tunings(),
    }
}

fn meta(timestamp: u64) -> FrameMetadata {
    FrameMetadata {
        display_resolution: Resolution { width: 64, height: 64 },
        timestamp,
        force_keyframe: false,
    }
}

fn request(input: Vec<u8>, timestamp: u64) -> BackendRequest<Vec<u8>, Vec<u8>> {
    BackendRequest {
        header: Header {
            key_frame: timestamp == 0,
            width: 64,
            height: 64,
            base_q_idx: 10,
            refresh_frame_flags: 1,
        },
        input,
        input_meta: meta(timestamp),
        last_frame_ref: Some((Rc::new(vec![1]), ReferenceUse::Single)),
        golden_frame_ref: Some((Rc::new(vec![2]), ReferenceUse::Hybrid)),
        altref_frame_ref: None,
        tunings: tunings(),
        coded_output: vec![0x49],
    }
}

fn encoder() -> StatelessEncoder<CopyBackend> {
    let backend = CopyBackend { jobs: 0, references: Vec::new() };
    StatelessEncoder::new_vp9(backend, config(), BlockingMode::Blocking).unwrap()
}

#[test]
fn new_vp9_takes_the_predictor_from_the_config() {
    let e = encoder();
    assert_eq!(e.predictor, LowDelayVP9 { config: config(), limit: 12, counter: 0 });
    assert_eq!(e.predictor, LowDelayVP9::new(config(), 12));
    assert_eq!(e.mode, BlockingMode::Blocking);
    assert_eq!(e.predictor_frame_count, 0);
    assert!(e.output_queue.is_empty());
    assert!(e.recon_queue.is_empty());
    assert_eq!(e.backend.jobs, 0);
}

#[test]
fn execute_queues_both_promises() {
    let mut e = encoder();
    e.predictor_frame_count = 2;
    assert_eq!(e.execute(request(vec![7, 8], 0)), Ok(()));
    assert_eq!(e.execute(request(vec![9], 1)), Ok(()));
    assert_eq!(e.predictor_frame_count, 0);
    assert_eq!(e.backend.jobs, 2);
    assert_eq!(
        e.backend.references,
        vec![Some(ReferenceUse::Single), Some(ReferenceUse::Hybrid), None]
    );
    assert_eq!(e.output_queue.len(), 2);
    assert_eq!(e.output_queue[0].bitstream, vec![0x49, 7, 8]);
    assert_eq!(e.output_queue[0].meta, meta(0));
    assert_eq!(e.output_queue[1].bitstream, vec![0x49, 9]);
    assert_eq!(e.output_queue[1].meta, meta(1));
    assert_eq!(e.recon_queue, vec![vec![7, 8], vec![9]]);
}

#[test]
fn execute_passes_on_the_error_of_the_backend() {
    let mut e = encoder();
    e.predictor_frame_count = 3;
    assert_eq!(e.execute(request(vec![7], 0)), Ok(()));
    assert_eq!(
        e.execute(request(Vec::new(), 1)),
        Err(EncodeError::StatelessBackendError(Error::DeviceIo))
    );
    // The frame no longer counts as waiting, and nothing was queued for it.
    assert_eq!(e.predictor_frame_count, 1);
    assert_eq!(e.output_queue.len(), 1);
    assert_eq!(e.recon_queue.len(), 1);
}

#[test]
fn resolve_is_what_execute_does_with_the_answer() {
    let mut e = encoder();
    assert_eq!(e.resolve(meta(5), Ok((vec![1], vec![2]))), Ok(()));
    assert_eq!(e.output_queue[0].meta.timestamp, 5);
    assert_eq!(e.output_queue[0].bitstream, vec![2]);
    assert_eq!(e.recon_queue, vec![vec![1]]);
    assert_eq!(
        e.resolve(meta(6), Err(Error::ResourceExhausted)),
        Err(EncodeError::StatelessBackendError(Error::ResourceExhausted))
    );
    assert_eq!(e.output_queue.len(), 1);
    assert_eq!(e.predictor_frame_count, 0);
}
