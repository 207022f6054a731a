use vstd::prelude::*;

use crate::error::Error;

verus! {

/// The kinds of NAL unit that an H.264 stream carries.
#[derive(Clone, Copy, Debug, PartialEq, Eq, Structural)]
pub enum NaluType {
    Unknown,
    Slice,
    SliceDpa,
    SliceDpb,
    SliceDpc,
    SliceIdr,
    Sei,
    Sps,
    Pps,
    AuDelimiter,
    SeqEnd,
    StreamEnd,
    FillerData,
    SpsExt,
    PrefixUnit,
    SubsetSps,
    DepthSps,
    SliceAux,
    SliceExt,
    SliceDepth,
}

impl NaluType {
    /// A unit of one of these kinds opens a coded picture.
    pub open spec fn starts_picture(self) -> bool {
        self is Slice || self is SliceDpa || self is SliceDpb || self is SliceDpc
            || self is SliceIdr || self is SliceExt
    }

    /// Parameter sets and enhancement information never belong to a picture
    /// that has already begun.
    pub open spec fn is_parameter_or_sei(self) -> bool {
        self is Sei || self is Sps || self is Pps
    }

    /// The slice kinds whose payload begins with `first_mb_in_slice`.
    pub open spec fn leads_with_first_mb(self) -> bool {
        self is Slice || self is SliceDpa || self is SliceIdr
    }
}

/// The parsed one-byte header of a NAL unit.
#[derive(Clone, Copy, Debug, PartialEq, Eq, Structural)]
pub struct NaluHeader {
    pub ref_idc: u8,
    pub type_: NaluType,
    pub idr_pic_flag: bool,
}

impl NaluHeader {
    pub open spec fn spec_len(&self) -> usize {
        1
    }

    /// Number of bytes that the header takes at the start of the unit.
    #[verifier::when_used_as_spec(spec_len)]
    pub fn len(&self) -> (n: usize)
        ensures
            n == self.spec_len(),
    {
        1
    }

    pub fn nalu_type(&self) -> (t: NaluType)
        ensures
            t == self.type_,
    {
        self.type_
    }
}

/// One NAL unit, as a parser found it in a byte stream.
///
/// `data` holds the bytes of the unit, its header first; `sc_offset` is the
/// place of its start code in the stream and `offset` the place of its
/// header.
#[derive(Clone, Copy, Debug)]
pub struct Nalu<'a> {
    header: NaluHeader,
    data: &'a [u8],
    offset: usize,
    sc_offset: usize,
}

impl<'a> Nalu<'a> {
    #[verifier::type_invariant]
    pub closed spec fn well_formed(&self) -> bool {
        Self::admissible(self.header, self.data@, self.sc_offset, self.offset)
    }

    pub closed spec fn spec_header(&self) -> NaluHeader {
        self.header
    }

    pub closed spec fn spec_data(&self) -> Seq<u8> {
        self.data@
    }

    pub closed spec fn spec_offset(&self) -> usize {
        self.offset
    }

    pub closed spec fn spec_sc_offset(&self) -> usize {
        self.sc_offset
    }

    /// The number of bytes of the unit.
    pub open spec fn spec_size(&self) -> nat {
        self.spec_data().len()
    }

    /// The position just behind the last byte of the unit.
    pub open spec fn spec_end(&self) -> int {
        self.spec_offset() + self.spec_size()
    }

    /// What a unit must fulfil to be built: the header lies within `data`, the
    /// start code comes before the header, and the end of the unit is a
    /// position that `usize` can hold.
    pub open spec fn admissible(
        header: NaluHeader,
        data: Seq<u8>,
        sc_offset: usize,
        offset: usize,
    ) -> bool {
        &&& header.spec_len() <= data.len()
        &&& sc_offset <= offset
        &&& offset + data.len() <= usize::MAX
    }

    /// Builds a unit from what a parser found, or `None` where the values
    /// contradict each other.
    pub fn new(header: NaluHeader, data: &'a [u8], sc_offset: usize, offset: usize) -> (r: Option<
        Self,
    >)
        ensures
            r is Some <==> Self::admissible(header, data@, sc_offset, offset),
            r matches Some(n) ==> {
                &&& n.spec_header() == header
                &&& n.spec_data() == data@
                &&& n.spec_sc_offset() == sc_offset
                &&& n.spec_offset() == offset
            },
    {
        if header.len() <= data.len() && sc_offset <= offset && data.len() <= usize::MAX - offset {
            Some(Nalu { header, data, offset, sc_offset })
        } else {
            None
        }
    }

    #[verifier::when_used_as_spec(spec_header)]
    pub fn header(&self) -> (h: NaluHeader)
        ensures
            h == self.spec_header(),
    {
        self.header
    }

    /// The bytes of the unit, from its header to its end.
    pub fn data(&self) -> (d: &'a [u8])
        ensures
            d@ == self.spec_data(),
    {
        self.data
    }

    pub fn size(&self) -> (n: usize)
        ensures
            n == self.spec_size(),
    {
        self.data.len()
    }

    #[verifier::when_used_as_spec(spec_offset)]
    pub fn offset(&self) -> (n: usize)
        ensures
            n == self.spec_offset(),
    {
        self.offset
    }

    #[verifier::when_used_as_spec(spec_sc_offset)]
    pub fn sc_offset(&self) -> (n: usize)
        ensures
            n == self.spec_sc_offset(),
            n <= self.spec_offset(),
    {
        proof {
            use_type_invariant(self);
        }
        self.sc_offset
    }

    /// The position just behind the last byte of the unit.
    pub fn end(&self) -> (e: usize)
        ensures
            e == self.spec_end(),
    {
        proof {
            use_type_invariant(self);
        }
        self.offset + self.data.len()
    }

    /// The Exp-Golomb code that follows the header stands for zero exactly
    /// when its first bit is set: the payload then begins with
    /// `first_mb_in_slice == 0`.
    pub open spec fn first_mb_is_zero(&self) -> bool {
        let skip = self.spec_header().spec_len() as int;
        skip < self.spec_data().len() && self.spec_data()[skip] >= 0x80
    }

    /// Reads the first bit behind the header.
    pub fn leads_with_zero_code(&self) -> (b: bool)
        ensures
            b == self.first_mb_is_zero(),
    {
        let skip: usize = self.header.len();
        skip < self.data.len() && self.data[skip] >= 0x80
    }
}

/// The sequence parameters that the backend hands to the device.
#[derive(Clone, Copy, Debug, PartialEq, Eq, Structural)]
pub struct Sps {
    pub seq_parameter_set_id: u8,
    pub profile_idc: u8,
    pub level_idc: u8,
    pub chroma_format_idc: u8,
    pub max_num_ref_frames: u32,
    pub pic_width_in_mbs_minus1: u32,
    pub pic_height_in_map_units_minus1: u32,
}

/// The picture parameters that the backend hands to the device.
#[derive(Clone, Copy, Debug, PartialEq, Eq, Structural)]
pub struct Pps {
    pub pic_parameter_set_id: u8,
    pub seq_parameter_set_id: u8,
    pub num_ref_idx_l0_default_active_minus1: u8,
    pub num_ref_idx_l1_default_active_minus1: u8,
    pub pic_init_qp_minus26: i8,
}

/// The part of a slice header that the backend hands to the device.
#[derive(Clone, Copy, Debug, PartialEq, Eq, Structural)]
pub struct SliceHeader {
    pub first_mb_in_slice: u32,
    pub frame_num: u16,
    pub idr_pic_id: u16,
    pub pic_order_cnt_lsb: u16,
}

/// What the codec state machine knows of a picture.
#[derive(Clone, Copy, Debug, PartialEq, Eq, Structural)]
pub struct PictureData {
    pub frame_num: u32,
    pub pic_num: i32,
    pub top_field_order_cnt: i32,
    pub bottom_field_order_cnt: i32,
    pub is_idr: bool,
    pub is_long_term: bool,
}

/// A parsed slice: its header and the unit that carries it.
#[derive(Clone, Copy, Debug)]
pub struct Slice<'a> {
    pub header: SliceHeader,
    pub nalu: Nalu<'a>,
}

/// One slot of the decoded picture buffer: a reference picture, and the
/// handle of the backend's picture for it.
#[derive(Debug)]
pub struct DpbEntry<H> {
    pub pic: PictureData,
    pub handle: Option<H>,
}

/// The number of reference pictures that a decoded picture buffer can hold.
pub const MAX_DPB_FRAMES: usize = 16;

/// The decoded picture buffer: the reference pictures that later pictures
/// may be predicted from, in the order the codec state machine keeps them,
/// `MAX_DPB_FRAMES` at most. The state machine alone decides what is in it.
#[derive(Debug)]
pub struct Dpb<H> {
    entries: Vec<DpbEntry<H>>,
}

impl<H> Dpb<H> {
    #[verifier::type_invariant]
    closed spec fn inv(&self) -> bool {
        self.entries@.len() <= MAX_DPB_FRAMES
    }

    pub closed spec fn spec_entries(&self) -> Seq<DpbEntry<H>> {
        self.entries@
    }

    pub fn new() -> (d: Self)
        ensures
            d.spec_entries() == Seq::<DpbEntry<H>>::empty(),
    {
        Dpb { entries: Vec::new() }
    }

    /// Adds `entry` behind the entries that are there. A buffer that is full
    /// takes no more: that is a `ProtocolViolation`, and the buffer stays as
    /// it is.
    pub fn store_picture(&mut self, entry: DpbEntry<H>) -> (r: Result<(), Error>)
        ensures
            r is Ok <==> old(self).spec_entries().len() < MAX_DPB_FRAMES,
            r is Ok ==> final(self).spec_entries() == old(self).spec_entries().push(entry),
            r matches Err(e) ==> e == Error::ProtocolViolation && final(self).spec_entries() == old(
                self,
            ).spec_entries(),
    {
        proof {
            use_type_invariant(&*self);
        }
        if self.entries.len() >= MAX_DPB_FRAMES {
            return Err(Error::ProtocolViolation);
        }
        let mut entries: Vec<DpbEntry<H>> = Vec::new();
        std::mem::swap(&mut self.entries, &mut entries);
        entries.push(entry);
        std::mem::swap(&mut self.entries, &mut entries);
        Ok(())
    }

    /// Empties the buffer.
    pub fn clear(&mut self)
        ensures
            final(self).spec_entries() == Seq::<DpbEntry<H>>::empty(),
    {
        self.entries = Vec::new();
    }

    /// The entries, oldest first.
    pub fn entries(&self) -> (e: &Vec<DpbEntry<H>>)
        ensures
            e@ == self.spec_entries(),
            e@.len() <= MAX_DPB_FRAMES,
    {
        proof {
            use_type_invariant(self);
        }
        &self.entries
    }

    /// A decoded picture buffer holds `MAX_DPB_FRAMES` entries at most.
    pub fn len(&self) -> (n: usize)
        ensures
            n == self.spec_entries().len(),
            n <= MAX_DPB_FRAMES,
    {
        proof {
            use_type_invariant(self);
        }
        self.entries.len()
    }
}

} // verus!
