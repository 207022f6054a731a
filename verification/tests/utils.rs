use cros_codecs::codec::h264::Nalu;
use cros_codecs::codec::h264::NaluHeader;
use cros_codecs::codec::h264::NaluType;
use cros_codecs::utils::AccessUnitParser;
use cros_codecs::utils::H264FrameIterator;
use cros_codecs::utils::IvfIterator;

fn nalu<'a>(data: &'a [u8], type_: NaluType, sc_offset: usize, size: usize) -> Nalu<'a> {
    let header = NaluHeader { ref_idc: 0, type_, idr_pic_flag: type_ == NaluType::SliceIdr };
    let offset = sc_offset + 3;
    Nalu::new(header, &data[offset..offset + size], sc_offset, offset).unwrap()
}

fn types(nalus: &[Nalu]) -> Vec<NaluType> {
    nalus.iter().map(|n| n.header().nalu_type()).collect()
}

// A stream of five units of five bytes each: three bytes of start code, a
// header byte and one byte of payload.
fn stream(payloads: [u8; 5]) -> Vec<u8> {
    let mut s = Vec::new();
    for p in payloads {
        s.extend_from_slice(&[0, 0, 1, 0x41, p]);
    }
    s
}

#[test]
fn nalu_knows_its_place_in_the_stream() {
    let data = [0u8, 0, 1, 0x65, 0x88];
    let header = NaluHeader { ref_idc: 3, type_: NaluType::SliceIdr, idr_pic_flag: true };
    let n = Nalu::new(header, &data[3..], 0, 3).unwrap();
    assert_eq!(n.header().len(), 1);
    assert_eq!(n.header().nalu_type(), NaluType::SliceIdr);
    assert_eq!(n.sc_offset(), 0);
    assert_eq!(n.offset(), 3);
    assert_eq!(n.size(), 2);
    assert_eq!(n.end(), 5);
    assert_eq!(n.data(), &[0x65, 0x88]);
    // The start code comes before the header.
    assert!(Nalu::new(header, &data[3..], 4, 3).is_none());
    assert!(Nalu::new(header, &data[3..], 3, 3).is_some());
    // A unit holds its header at least.
    assert!(Nalu::new(header, &[], 0, 0).is_none());
    assert!(Nalu::new(header, &data[4..], 0, 0).is_some());
    // The end of the unit is a position.
    assert!(Nalu::new(header, &data[3..], 0, usize::MAX - 1).is_none());
    assert!(Nalu::new(header, &data[3..], 0, usize::MAX - 2).is_some());
}

#[test]
fn first_mb_is_read_behind_the_header() {
    let header = NaluHeader { ref_idc: 3, type_: NaluType::Slice, idr_pic_flag: false };
    let zero = [0x41u8, 0x80];
    assert!(Nalu::new(header, &zero, 0, 3).unwrap().leads_with_zero_code());
    let zero = [0x41u8, 0xff];
    assert!(Nalu::new(header, &zero, 0, 3).unwrap().leads_with_zero_code());
    let one = [0x41u8, 0x7f];
    assert!(!Nalu::new(header, &one, 0, 3).unwrap().leads_with_zero_code());
    let none = [0x41u8];
    assert!(!Nalu::new(header, &none, 0, 3).unwrap().leads_with_zero_code());
}

#[test]
fn accumulate_closes_on_delimiter() {
    let data = stream([0x80, 0x10, 0x10, 0x10, 0x10]);
    let mut parser = AccessUnitParser::new();
    // A delimiter before any picture is gathered like any other unit.
    assert!(parser.accumulate(nalu(&data, NaluType::AuDelimiter, 0, 2)).is_none());
    assert!(parser.accumulate(nalu(&data, NaluType::Sps, 5, 2)).is_none());
    assert!(parser.accumulate(nalu(&data, NaluType::SliceIdr, 10, 2)).is_none());
    // A slice of the same picture: its first macroblock is not zero.
    assert!(parser.accumulate(nalu(&data, NaluType::Slice, 15, 2)).is_none());
    let au = parser.accumulate(nalu(&data, NaluType::AuDelimiter, 20, 2)).unwrap();
    // The closing delimiter is left out.
    assert_eq!(
        types(&au.nalus),
        vec![NaluType::AuDelimiter, NaluType::Sps, NaluType::SliceIdr, NaluType::Slice]
    );
    assert!(parser.take_pending().is_empty());
}

#[test]
fn accumulate_closes_on_parameter_sets() {
    let data = stream([0x10; 5]);
    for closing in [NaluType::Sei, NaluType::Sps, NaluType::Pps] {
        let mut parser = AccessUnitParser::default();
        assert!(parser.accumulate(nalu(&data, NaluType::SliceDpb, 0, 2)).is_none());
        assert!(parser.accumulate(nalu(&data, NaluType::SeqEnd, 5, 2)).is_none());
        let au = parser.accumulate(nalu(&data, closing, 10, 2)).unwrap();
        assert_eq!(types(&au.nalus), vec![NaluType::SliceDpb, NaluType::SeqEnd, closing]);
        // Nothing is open after that.
        assert!(parser.accumulate(nalu(&data, closing, 15, 2)).is_none());
        assert_eq!(types(&parser.take_pending()), vec![closing]);
    }
}

#[test]
fn accumulate_closes_on_the_first_slice_of_the_next_picture() {
    let data = stream([0x10, 0x80, 0x80, 0x80, 0x10]);
    let mut parser = AccessUnitParser::new();
    assert!(parser.accumulate(nalu(&data, NaluType::SliceExt, 0, 2)).is_none());
    // These kinds do not start with the number of the first macroblock.
    assert!(parser.accumulate(nalu(&data, NaluType::SliceDpb, 5, 2)).is_none());
    assert!(parser.accumulate(nalu(&data, NaluType::SliceDpc, 10, 2)).is_none());
    let au = parser.accumulate(nalu(&data, NaluType::SliceDpa, 15, 2)).unwrap();
    assert_eq!(
        types(&au.nalus),
        vec![NaluType::SliceExt, NaluType::SliceDpb, NaluType::SliceDpc, NaluType::SliceDpa]
    );
    // The slice that closed the unit did not open a picture.
    assert!(parser.accumulate(nalu(&data, NaluType::AuDelimiter, 20, 2)).is_none());
}

#[test]
fn accumulate_waits_for_a_picture() {
    let data = stream([0x80; 5]);
    let mut parser = AccessUnitParser::new();
    for t in [NaluType::Sei, NaluType::Sps, NaluType::Pps, NaluType::AuDelimiter, NaluType::Unknown]
    {
        assert!(parser.accumulate(nalu(&data, t, 0, 2)).is_none());
    }
    assert_eq!(parser.take_pending().len(), 5);
}

fn ivf(frames: &[&[u8]]) -> Vec<u8> {
    let mut f = vec![0xaau8; 32];
    for (i, frame) in frames.iter().enumerate() {
        f.extend_from_slice(&(frame.len() as u32).to_le_bytes());
        f.extend_from_slice(&(i as u64).to_le_bytes());
        f.extend_from_slice(frame);
    }
    f
}

#[test]
fn ivf_frames_in_order() {
    let file = ivf(&[&[1, 2, 3], &[], &[4; 300]]);
    let mut it = IvfIterator::new(&file);
    assert_eq!(it.next(), Some(&[1u8, 2, 3][..]));
    assert_eq!(it.next(), Some(&[][..]));
    assert_eq!(it.next(), Some(&[4u8; 300][..]));
    assert_eq!(it.next(), None);
    assert_eq!(it.next(), None);
}

#[test]
fn ivf_length_is_little_endian() {
    let mut file = vec![0u8; 32];
    file.extend_from_slice(&[0x02, 0x01, 0x00, 0x00]);
    file.extend_from_slice(&[0xff; 8]);
    file.extend_from_slice(&[7; 0x102]);
    file.extend_from_slice(&[9; 5]);
    let mut it = IvfIterator::new(&file);
    assert_eq!(it.next().map(|f| f.len()), Some(0x102));
    // Five bytes are no frame header.
    assert_eq!(it.next(), None);
}

#[test]
fn ivf_short_files_hold_no_frame() {
    assert_eq!(IvfIterator::new(&[]).next(), None);
    assert_eq!(IvfIterator::new(&[0; 10]).next(), None);
    assert_eq!(IvfIterator::new(&[0; 32]).next(), None);
    assert_eq!(IvfIterator::new(&[0; 37]).next(), None);
    // A frame header that is cut short.
    assert_eq!(IvfIterator::new(&[0; 43]).next(), None);
    // A whole header of an empty frame.
    assert_eq!(IvfIterator::new(&[0; 44]).next(), Some(&[][..]));
}

#[test]
fn ivf_frame_longer_than_the_file_ends_the_iteration() {
    let mut file = ivf(&[&[1, 2, 3]]);
    file.extend_from_slice(&[4, 0, 0, 0]);
    file.extend_from_slice(&[0; 8]);
    file.extend_from_slice(&[5, 5, 5]);
    let mut it = IvfIterator::new(&file);
    assert_eq!(it.next(), Some(&[1u8, 2, 3][..]));
    assert_eq!(it.next(), None);
    // The iterator went past the header: three bytes are left.
    assert_eq!(it.next(), None);
}

#[test]
fn h264_frames_follow_the_access_units() {
    // Units: SPS, PPS, IDR slice, slice of the next picture, delimiter, slice.
    let mut data = Vec::new();
    for payload in [0x10u8, 0x10, 0x80, 0x80, 0x10, 0x80] {
        data.extend_from_slice(&[0, 0, 1, 0x41, payload]);
    }
    let kinds = [
        NaluType::Sps,
        NaluType::Pps,
        NaluType::SliceIdr,
        NaluType::Slice,
        NaluType::AuDelimiter,
        NaluType::Slice,
    ];
    let nalus: Vec<Nalu> =
        kinds.iter().enumerate().map(|(i, t)| nalu(&data, *t, 5 * i, 2)).collect();
    let mut it = H264FrameIterator::new(&data, nalus).unwrap();
    // The slice of the next picture closes the first group and is its last
    // member.
    assert_eq!(it.next(), Some(&data[0..20]));
    // The delimiter finds no picture open and is gathered; the stream ends
    // with what is left.
    assert_eq!(it.next(), Some(&data[20..30]));
    assert_eq!(it.next(), None);
    assert_eq!(it.next(), None);
}

#[test]
fn h264_delimiter_closes_a_group_without_joining_it() {
    let mut data = Vec::new();
    for payload in [0x80u8, 0x10, 0x80] {
        data.extend_from_slice(&[0, 0, 0, 1, 0x41, payload]);
    }
    let header = |t| NaluHeader { ref_idc: 0, type_: t, idr_pic_flag: false };
    let nalus = vec![
        Nalu::new(header(NaluType::SliceIdr), &data[4..6], 0, 4).unwrap(),
        Nalu::new(header(NaluType::AuDelimiter), &data[10..12], 6, 10).unwrap(),
        Nalu::new(header(NaluType::SliceIdr), &data[16..18], 12, 16).unwrap(),
    ];
    let mut it = H264FrameIterator::new(&data, nalus).unwrap();
    assert_eq!(it.next(), Some(&data[0..6]));
    assert_eq!(it.next(), Some(&data[12..18]));
    assert_eq!(it.next(), None);
}

#[test]
fn h264_units_must_be_in_stream_order() {
    let data = stream([0x80; 5]);
    let longer = stream([0x80; 5]).repeat(2);
    assert!(H264FrameIterator::new(&data, Vec::new()).is_some());
    let swapped =
        vec![nalu(&data, NaluType::Slice, 5, 2), nalu(&data, NaluType::Slice, 0, 2)];
    assert!(H264FrameIterator::new(&data, swapped).is_none());
    let overlapping =
        vec![nalu(&data, NaluType::Slice, 0, 2), nalu(&data, NaluType::Slice, 4, 2)];
    assert!(H264FrameIterator::new(&data, overlapping).is_none());
    let beyond = vec![nalu(&longer, NaluType::Slice, 20, 2), nalu(&longer, NaluType::Slice, 25, 2)];
    assert!(H264FrameIterator::new(&data, beyond).is_none());
    let mut empty = H264FrameIterator::new(&data, Vec::new()).unwrap();
    assert_eq!(empty.next(), None);
}
