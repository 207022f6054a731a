use std::rc::Rc;
use vstd::prelude::*;

use crate::encoder::stateless::BitstreamPromise;
use crate::encoder::stateless::EncodeError;
use crate::encoder::stateless::EncodeResult;
use crate::encoder::stateless::FrameMetadata;
use crate::encoder::stateless::PredictionStructure;
use crate::encoder::stateless::StatelessBackendResult;
use crate::encoder::stateless::Tunings;
use crate::BlockingMode;
use crate::Resolution;

verus! {

/// The part of the header of a coded frame that the backend needs.
#[derive(Clone, Copy, Debug, PartialEq, Eq, Structural)]
pub struct Header {
    pub key_frame: bool,
    pub width: u32,
    pub height: u32,
    pub base_q_idx: u8,
    pub refresh_frame_flags: u8,
}

/// How an encoder is set up.
#[derive(Clone, Copy, Debug, PartialEq, Eq, Structural)]
pub struct EncoderConfig {
    pub resolution: Resolution,
    pub pred_structure: PredictionStructure,
    pub initial_tunings: Tunings,
}

/// The predictor of the low delay structure: it decides which frames a
/// frame is predicted from.
#[derive(Clone, Copy, Debug, PartialEq, Eq, Structural)]
pub struct LowDelayVP9 {
    pub config: EncoderConfig,
    pub limit: u16,
    pub counter: usize,
}

impl LowDelayVP9 {
    pub fn new(config: EncoderConfig, limit: u16) -> (p: Self)
        ensures
            p == (LowDelayVP9 { config, limit, counter: 0 }),
    {
        LowDelayVP9 { config, limit, counter: 0 }
    }
}

/// Determines how reference frame shall be used
#[derive(Clone, Copy, Debug, PartialEq, Eq, Structural)]
pub enum ReferenceUse {
    /// The frame will be used for single prediction
    Single,
    /// The frame will be used for compound prediction
    Compound,
    /// The frame will be used for both single and compound prediction
    Hybrid,
}

/// One job for an encoder backend.
pub struct BackendRequest<P, R> {
    pub header: Header,
    /// Input frame to be encoded
    pub input: P,
    /// Input frame metadata
    pub input_meta: FrameMetadata,
    /// Reference frames
    pub last_frame_ref: Option<(Rc<R>, ReferenceUse)>,
    pub golden_frame_ref: Option<(Rc<R>, ReferenceUse)>,
    pub altref_frame_ref: Option<(Rc<R>, ReferenceUse)>,
    /// Tunings for the frame
    pub tunings: Tunings,
    /// Container for the request output. The backend moves it and appends the
    /// slice data to it. This prevents unnecessary copying of bitstream
    /// around.
    pub coded_output: Vec<u8>,
}

/// What a backend must offer to encode VP9. It executes the job it is given
/// and answers two promises: one for the reconstructed picture, which later
/// frames may refer to, and one for the coded bitstream.
pub trait StatelessVP9EncoderBackend {
    /// An input frame.
    type Picture;

    /// A reconstructed picture.
    type Reconstructed;

    /// A reconstructed picture on its way.
    type ReconPromise;

    /// A coded bitstream on its way.
    type CodedPromise;

    fn encode_frame(
        &mut self,
        request: BackendRequest<Self::Picture, Self::Reconstructed>,
    ) -> StatelessBackendResult<(Self::ReconPromise, Self::CodedPromise)>;
}

/// An encoder: the backend, the predictor, the number of frames that the
/// predictor has asked for and that have not been submitted, and the promises
/// that have not been kept yet, oldest first.
pub struct StatelessEncoder<Backend: StatelessVP9EncoderBackend> {
    pub backend: Backend,
    pub mode: BlockingMode,
    pub predictor: LowDelayVP9,
    pub predictor_frame_count: usize,
    pub output_queue: Vec<BitstreamPromise<Backend::CodedPromise>>,
    pub recon_queue: Vec<Backend::ReconPromise>,
}

impl<Backend: StatelessVP9EncoderBackend> StatelessEncoder<Backend> {
    /// An encoder that has nothing under way.
    pub fn new(backend: Backend, mode: BlockingMode, predictor: LowDelayVP9) -> (r: EncodeResult<
        Self,
    >)
        ensures
            r matches Ok(e) && e.backend == backend && e.mode == mode && e.predictor == predictor
                && e.predictor_frame_count == 0 && e.output_queue@.len() == 0
                && e.recon_queue@.len() == 0,
    {
        Ok(
            StatelessEncoder {
                backend,
                mode,
                predictor,
                predictor_frame_count: 0,
                output_queue: Vec::new(),
                recon_queue: Vec::new(),
            },
        )
    }

    /// An encoder on `backend` with the predictor that `config` asks for.
    pub fn new_vp9(backend: Backend, config: EncoderConfig, mode: BlockingMode) -> (r:
        EncodeResult<Self>)
        ensures
            r matches Ok(e) && e.backend == backend && e.mode == mode
                && e.predictor_frame_count == 0 && e.output_queue@.len() == 0
                && e.recon_queue@.len() == 0 && (config.pred_structure
                matches PredictionStructure::LowDelay { limit } && e.predictor == (LowDelayVP9 {
                config,
                limit,
                counter: 0,
            })),
    {
        let predictor = match config.pred_structure {
            PredictionStructure::LowDelay { limit } => LowDelayVP9::new(config, limit),
        };
        Self::new(backend, mode, predictor)
    }

    /// Takes what the backend answered to the job of a frame with metadata
    /// `meta`. The two promises go to the ends of their queues, the one for
    /// the bitstream together with `meta`. An error of the backend is passed
    /// on, and the queues stay as they are.
    pub fn resolve(
        &mut self,
        meta: FrameMetadata,
        outcome: StatelessBackendResult<(Backend::ReconPromise, Backend::CodedPromise)>,
    ) -> (r: EncodeResult<()>)
        ensures
            final(self).backend == old(self).backend,
            final(self).mode == old(self).mode,
            final(self).predictor == old(self).predictor,
            final(self).predictor_frame_count == old(self).predictor_frame_count,
            match outcome {
                Ok((recon, bitstream)) => {
                    &&& r is Ok
                    &&& final(self).output_queue@ == old(self).output_queue@.push(
                        BitstreamPromise { bitstream, meta },
                    )
                    &&& final(self).recon_queue@ == old(self).recon_queue@.push(recon)
                },
                Err(e) => {
                    &&& r == Err::<(), EncodeError>(EncodeError::StatelessBackendError(e))
                    &&& final(self).output_queue@ == old(self).output_queue@
                    &&& final(self).recon_queue@ == old(self).recon_queue@
                },
            },
    {
        match outcome {
            Err(e) => Err(EncodeError::StatelessBackendError(e)),
            Ok((recon, bitstream)) => {
                // Wrap promise from backend with headers and metadata
                let slice_promise = BitstreamPromise { bitstream, meta };
                self.output_queue.push(slice_promise);
                self.recon_queue.push(recon);
                Ok(())
            },
        }
    }

    /// Submits `request`, which the predictor asked for, to the backend, and
    /// queues the promises that it answers. Whatever the backend answers, the
    /// frame no longer counts as waiting.
    pub fn execute(&mut self, request: BackendRequest<Backend::Picture, Backend::Reconstructed>) -> (r:
        EncodeResult<()>)
        requires
            old(self).predictor_frame_count > 0,
        ensures
            final(self).mode == old(self).mode,
            final(self).predictor == old(self).predictor,
            final(self).predictor_frame_count == old(self).predictor_frame_count - 1,
            r is Ok ==> {
                &&& final(self).output_queue@.len() == old(self).output_queue@.len() + 1
                &&& final(self).output_queue@.drop_last() == old(self).output_queue@
                &&& final(self).output_queue@.last().meta == request.input_meta
                &&& final(self).recon_queue@.len() == old(self).recon_queue@.len() + 1
                &&& final(self).recon_queue@.drop_last() == old(self).recon_queue@
            },
            r matches Err(e) ==> {
                &&& e is StatelessBackendError
                &&& final(self).output_queue@ == old(self).output_queue@
                &&& final(self).recon_queue@ == old(self).recon_queue@
            },
    {
        let meta: FrameMetadata = request.input_meta;

        // The request has a frame from predictor. Decreasing internal counter.
        self.predictor_frame_count = self.predictor_frame_count - 1;

        let outcome = self.backend.encode_frame(request);
        let r = self.resolve(meta, outcome);
        proof {
            if r is Ok {
                assert(self.output_queue@.drop_last() =~= old(self).output_queue@);
                assert(self.recon_queue@.drop_last() =~= old(self).recon_queue@);
            }
        }
        r
    }
}

} // verus!
