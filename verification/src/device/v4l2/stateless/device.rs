use vstd::prelude::*;

use crate::device::v4l2::stateless::buffer::TimeVal;
use crate::device::v4l2::stateless::buffer::V4l2OutputQBuf;
use crate::device::v4l2::stateless::request::RequestView;
use crate::device::v4l2::stateless::request::V4l2Request;

verus! {

/// The node of the video decoder.
pub const VIDEO_DEVICE_PATH: &'static str = "/dev/video-dec0";

/// The node of the media controller that hands out requests.
pub const MEDIA_DEVICE_PATH: &'static str = "/dev/media-dec0";

/// The device: which nodes it is reached through.
#[derive(Debug)]
pub struct V4l2Device {
    video_device: &'static str,
    media_device: &'static str,
}

impl V4l2Device {
    pub closed spec fn spec_video_device(&self) -> &'static str {
        self.video_device
    }

    pub closed spec fn spec_media_device(&self) -> &'static str {
        self.media_device
    }

    /// The device that is reached through the two nodes above.
    pub closed spec fn initial() -> V4l2Device {
        V4l2Device { video_device: VIDEO_DEVICE_PATH, media_device: MEDIA_DEVICE_PATH }
    }

    pub fn new() -> (d: Self)
        ensures
            d == Self::initial(),
            d.spec_video_device() == VIDEO_DEVICE_PATH,
            d.spec_media_device() == MEDIA_DEVICE_PATH,
    {
        V4l2Device { video_device: VIDEO_DEVICE_PATH, media_device: MEDIA_DEVICE_PATH }
    }

    /// The node of the video decoder.
    #[verifier::when_used_as_spec(spec_video_device)]
    pub fn video_device(&self) -> (p: &'static str)
        ensures
            p == self.spec_video_device(),
    {
        self.video_device
    }

    /// The node of the media controller.
    #[verifier::when_used_as_spec(spec_media_device)]
    pub fn media_device(&self) -> (p: &'static str)
        ensures
            p == self.spec_media_device(),
    {
        self.media_device
    }

    /// Opens a job on `buf`.
    pub fn alloc_request(&self, buf: V4l2OutputQBuf) -> (r: V4l2Request)
        ensures
            r@ == (RequestView {
                timestamp: TimeVal { tv_sec: 0, tv_usec: 0 },
                index: buf.spec_index(),
                capacity: buf.spec_capacity(),
                data: Seq::empty(),
                ctrls: Seq::empty(),
            }),
    {
        V4l2Request::new(buf)
    }
}

} // verus!
