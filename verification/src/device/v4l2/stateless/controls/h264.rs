use vstd::prelude::*;

use crate::codec::h264::PictureData;
use crate::codec::h264::Pps;
use crate::codec::h264::SliceHeader;
use crate::codec::h264::Sps;
use crate::device::v4l2::stateless::buffer::TimeVal;

verus! {

/// The number of reference pictures that the decode parameters can name.
pub const V4L2_H264_NUM_DPB_ENTRIES: usize = 16;

/// The control block of the sequence parameters.
#[derive(Clone, Copy, Debug, PartialEq, Eq, Structural)]
pub struct V4l2CtrlH264Sps {
    pub profile_idc: u8,
    pub level_idc: u8,
    pub seq_parameter_set_id: u8,
    pub chroma_format_idc: u8,
    pub max_num_ref_frames: u32,
    pub pic_width_in_mbs_minus1: u32,
    pub pic_height_in_map_units_minus1: u32,
}

impl V4l2CtrlH264Sps {
    /// The block that stands for `sps`.
    pub open spec fn of(sps: Sps) -> Self {
        V4l2CtrlH264Sps {
            profile_idc: sps.profile_idc,
            level_idc: sps.level_idc,
            seq_parameter_set_id: sps.seq_parameter_set_id,
            chroma_format_idc: sps.chroma_format_idc,
            max_num_ref_frames: sps.max_num_ref_frames,
            pic_width_in_mbs_minus1: sps.pic_width_in_mbs_minus1,
            pic_height_in_map_units_minus1: sps.pic_height_in_map_units_minus1,
        }
    }

    /// The block before anything was written to it.
    pub open spec fn zeroed() -> Self {
        V4l2CtrlH264Sps {
            profile_idc: 0,
            level_idc: 0,
            seq_parameter_set_id: 0,
            chroma_format_idc: 0,
            max_num_ref_frames: 0,
            pic_width_in_mbs_minus1: 0,
            pic_height_in_map_units_minus1: 0,
        }
    }

    /// Writes `sps` into the block.
    pub fn set(&mut self, sps: &Sps) -> (r: &mut Self)
        ensures
            *r == Self::of(*sps),
            *final(self) == *final(r),
    {
        self.profile_idc = sps.profile_idc;
        self.level_idc = sps.level_idc;
        self.seq_parameter_set_id = sps.seq_parameter_set_id;
        self.chroma_format_idc = sps.chroma_format_idc;
        self.max_num_ref_frames = sps.max_num_ref_frames;
        self.pic_width_in_mbs_minus1 = sps.pic_width_in_mbs_minus1;
        self.pic_height_in_map_units_minus1 = sps.pic_height_in_map_units_minus1;
        self
    }
}

impl Default for V4l2CtrlH264Sps {
    fn default() -> (c: Self)
        ensures
            c == Self::zeroed(),
    {
        V4l2CtrlH264Sps {
            profile_idc: 0,
            level_idc: 0,
            seq_parameter_set_id: 0,
            chroma_format_idc: 0,
            max_num_ref_frames: 0,
            pic_width_in_mbs_minus1: 0,
            pic_height_in_map_units_minus1: 0,
        }
    }
}

/// The control block of the picture parameters.
#[derive(Clone, Copy, Debug, PartialEq, Eq, Structural)]
pub struct V4l2CtrlH264Pps {
    pub pic_parameter_set_id: u8,
    pub seq_parameter_set_id: u8,
    pub num_ref_idx_l0_default_active_minus1: u8,
    pub num_ref_idx_l1_default_active_minus1: u8,
    pub pic_init_qp_minus26: i8,
}

impl V4l2CtrlH264Pps {
    /// The block that stands for `pps`.
    pub open spec fn of(pps: Pps) -> Self {
        V4l2CtrlH264Pps {
            pic_parameter_set_id: pps.pic_parameter_set_id,
            seq_parameter_set_id: pps.seq_parameter_set_id,
            num_ref_idx_l0_default_active_minus1: pps.num_ref_idx_l0_default_active_minus1,
            num_ref_idx_l1_default_active_minus1: pps.num_ref_idx_l1_default_active_minus1,
            pic_init_qp_minus26: pps.pic_init_qp_minus26,
        }
    }

    /// The block before anything was written to it.
    pub open spec fn zeroed() -> Self {
        V4l2CtrlH264Pps {
            pic_parameter_set_id: 0,
            seq_parameter_set_id: 0,
            num_ref_idx_l0_default_active_minus1: 0,
            num_ref_idx_l1_default_active_minus1: 0,
            pic_init_qp_minus26: 0,
        }
    }

    /// Writes `pps` into the block.
    pub fn set(&mut self, pps: &Pps) -> (r: &mut Self)
        ensures
            *r == Self::of(*pps),
            *final(self) == *final(r),
    {
        self.pic_parameter_set_id = pps.pic_parameter_set_id;
        self.seq_parameter_set_id = pps.seq_parameter_set_id;
        self.num_ref_idx_l0_default_active_minus1 = pps.num_ref_idx_l0_default_active_minus1;
        self.num_ref_idx_l1_default_active_minus1 = pps.num_ref_idx_l1_default_active_minus1;
        self.pic_init_qp_minus26 = pps.pic_init_qp_minus26;
        self
    }
}

impl Default for V4l2CtrlH264Pps {
    fn default() -> (c: Self)
        ensures
            c == Self::zeroed(),
    {
        V4l2CtrlH264Pps {
            pic_parameter_set_id: 0,
            seq_parameter_set_id: 0,
            num_ref_idx_l0_default_active_minus1: 0,
            num_ref_idx_l1_default_active_minus1: 0,
            pic_init_qp_minus26: 0,
        }
    }
}

/// Whether the device is given a picture slice by slice or whole.
#[derive(Clone, Copy, Debug, PartialEq, Eq, Structural)]
pub enum V4l2CtrlH264DecodeMode {
    SliceBased,
    FrameBased,
}

/// One reference picture as the device sees it: the time stamp under which
/// it was decoded, and what the codec state machine knows of it.
#[derive(Clone, Copy, Debug, PartialEq, Eq, Structural)]
pub struct V4l2CtrlH264DpbEntry {
    pub timestamp: u64,
    pub pic: PictureData,
}

impl V4l2CtrlH264DpbEntry {
    /// The number by which the device knows the decoded frame of the
    /// picture: the time stamp that carries the picture's key, in
    /// nanoseconds.
    pub fn reference_ts(&self) -> (ts: u64)
        ensures
            ts == TimeVal::of_key(self.timestamp).spec_to_ns(),
    {
        TimeVal::from_key(self.timestamp).to_ns()
    }
}

/// The control block of the parameters of one picture. Of `dpb`, the first
/// `num_dpb_entries` entries are in use.
#[derive(Clone, Copy, Debug)]
pub struct V4l2CtrlH264DecodeParams {
    pub dpb: [V4l2CtrlH264DpbEntry; 16],
    pub num_dpb_entries: usize,
    pub frame_num: u16,
    pub idr_pic_id: u16,
    pub pic_order_cnt_lsb: u16,
    pub top_field_order_cnt: i32,
    pub bottom_field_order_cnt: i32,
    pub idr_pic_flag: bool,
}

/// The time stamps of `entries`, in their order.
pub open spec fn dpb_timestamps(entries: Seq<V4l2CtrlH264DpbEntry>) -> Seq<u64> {
    Seq::new(entries.len(), |i: int| entries[i].timestamp)
}

/// An entry that names no picture.
pub open spec fn unused_dpb_entry() -> V4l2CtrlH264DpbEntry {
    V4l2CtrlH264DpbEntry {
        timestamp: 0,
        pic: PictureData {
            frame_num: 0,
            pic_num: 0,
            top_field_order_cnt: 0,
            bottom_field_order_cnt: 0,
            is_idr: false,
            is_long_term: false,
        },
    }
}

impl V4l2CtrlH264DecodeParams {
    /// The reference pictures that the block names, in their order.
    pub open spec fn references(&self) -> Seq<V4l2CtrlH264DpbEntry> {
        self.dpb@.take(self.num_dpb_entries as int)
    }

    /// The block holds nothing: no entry is in use, and every number is zero.
    pub open spec fn is_zeroed(&self) -> bool {
        &&& self.num_dpb_entries == 0
        &&& forall|i: int| 0 <= i < V4L2_H264_NUM_DPB_ENTRIES ==> self.dpb@[i] == unused_dpb_entry()
        &&& self.frame_num == 0
        &&& self.idr_pic_id == 0
        &&& self.pic_order_cnt_lsb == 0
        &&& self.top_field_order_cnt == 0
        &&& self.bottom_field_order_cnt == 0
        &&& !self.idr_pic_flag
    }

    /// The block holds what `picture_data`, `entries` and `slice_header` say,
    /// the reference pictures in the order of `entries` and nothing behind
    /// them.
    pub open spec fn describes(
        &self,
        picture_data: PictureData,
        entries: Seq<V4l2CtrlH264DpbEntry>,
        slice_header: SliceHeader,
    ) -> bool {
        &&& self.num_dpb_entries == entries.len()
        &&& self.references() == entries
        &&& forall|i: int|
            self.num_dpb_entries <= i < V4L2_H264_NUM_DPB_ENTRIES ==> self.dpb@[i]
                == unused_dpb_entry()
        &&& self.frame_num == slice_header.frame_num
        &&& self.idr_pic_id == slice_header.idr_pic_id
        &&& self.pic_order_cnt_lsb == slice_header.pic_order_cnt_lsb
        &&& self.top_field_order_cnt == picture_data.top_field_order_cnt
        &&& self.bottom_field_order_cnt == picture_data.bottom_field_order_cnt
        &&& self.idr_pic_flag == picture_data.is_idr
    }

    /// Writes what the codec state machine knows of the picture.
    pub fn set_picture_data(&mut self, picture_data: &PictureData) -> (r: &mut Self)
        ensures
            *r == (V4l2CtrlH264DecodeParams {
                top_field_order_cnt: picture_data.top_field_order_cnt,
                bottom_field_order_cnt: picture_data.bottom_field_order_cnt,
                idr_pic_flag: picture_data.is_idr,
                ..*old(self)
            }),
            *final(self) == *final(r),
    {
        self.top_field_order_cnt = picture_data.top_field_order_cnt;
        self.bottom_field_order_cnt = picture_data.bottom_field_order_cnt;
        self.idr_pic_flag = picture_data.is_idr;
        self
    }

    /// Writes the reference pictures, in the order given, and marks the
    /// entries behind them as unused. The block has room for
    /// `V4L2_H264_NUM_DPB_ENTRIES` of them.
    pub fn set_dpb_entries(&mut self, dpb: &Vec<V4l2CtrlH264DpbEntry>) -> (r: &mut Self)
        requires
            dpb@.len() <= V4L2_H264_NUM_DPB_ENTRIES,
        ensures
            r.num_dpb_entries == dpb@.len(),
            r.references() == dpb@,
            forall|i: int|
                dpb@.len() <= i < V4L2_H264_NUM_DPB_ENTRIES ==> r.dpb@[i] == unused_dpb_entry(),
            r.top_field_order_cnt == old(self).top_field_order_cnt,
            r.bottom_field_order_cnt == old(self).bottom_field_order_cnt,
            r.idr_pic_flag == old(self).idr_pic_flag,
            r.frame_num == old(self).frame_num,
            r.idr_pic_id == old(self).idr_pic_id,
            r.pic_order_cnt_lsb == old(self).pic_order_cnt_lsb,
            *final(self) == *final(r),
    {
        let unused = V4l2CtrlH264DpbEntry {
            timestamp: 0,
            pic: PictureData {
                frame_num: 0,
                pic_num: 0,
                top_field_order_cnt: 0,
                bottom_field_order_cnt: 0,
                is_idr: false,
                is_long_term: false,
            },
        };
        let mut entries: [V4l2CtrlH264DpbEntry; 16] = [unused; 16];
        let mut i: usize = 0;
        while i < dpb.len()
            invariant
                i <= dpb@.len() <= V4L2_H264_NUM_DPB_ENTRIES,
                unused == unused_dpb_entry(),
                forall|j: int| 0 <= j < i ==> entries@[j] == dpb@[j],
                forall|j: int| i <= j < V4L2_H264_NUM_DPB_ENTRIES ==> entries@[j] == unused,
            decreases dpb@.len() - i,
        {
            entries[i] = dpb[i];
            i = i + 1;
        }
        self.dpb = entries;
        self.num_dpb_entries = dpb.len();
        assert(self.references() =~= dpb@);
        self
    }

    /// Writes what the slice header says of the picture.
    pub fn set_slice_header(&mut self, slice_header: &SliceHeader) -> (r: &mut Self)
        ensures
            *r == (V4l2CtrlH264DecodeParams {
                frame_num: slice_header.frame_num,
                idr_pic_id: slice_header.idr_pic_id,
                pic_order_cnt_lsb: slice_header.pic_order_cnt_lsb,
                ..*old(self)
            }),
            *final(self) == *final(r),
    {
        self.frame_num = slice_header.frame_num;
        self.idr_pic_id = slice_header.idr_pic_id;
        self.pic_order_cnt_lsb = slice_header.pic_order_cnt_lsb;
        self
    }
}

impl Default for V4l2CtrlH264DecodeParams {
    fn default() -> (c: Self)
        ensures
            c.is_zeroed(),
    {
        let unused = V4l2CtrlH264DpbEntry {
            timestamp: 0,
            pic: PictureData {
                frame_num: 0,
                pic_num: 0,
                top_field_order_cnt: 0,
                bottom_field_order_cnt: 0,
                is_idr: false,
                is_long_term: false,
            },
        };
        V4l2CtrlH264DecodeParams {
            dpb: [unused; 16],
            num_dpb_entries: 0,
            frame_num: 0,
            idr_pic_id: 0,
            pic_order_cnt_lsb: 0,
            top_field_order_cnt: 0,
            bottom_field_order_cnt: 0,
            idr_pic_flag: false,
        }
    }
}

/// A control block of any of the kinds that a request can carry.
#[derive(Clone, Copy, Debug)]
pub enum V4l2Ctrl {
    H264Sps(V4l2CtrlH264Sps),
    H264Pps(V4l2CtrlH264Pps),
    H264DecodeParams(V4l2CtrlH264DecodeParams),
    H264DecodeMode(V4l2CtrlH264DecodeMode),
}

} // verus!
