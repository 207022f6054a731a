use vstd::prelude::*;

verus! {

/// A pixel format, as the four-character code that names it.
#[derive(Clone, Copy, Debug, PartialEq, Eq, Structural)]
pub struct PixelFormat(pub u32);

impl PixelFormat {
    /// The number that four characters stand for: the first one fills the
    /// lowest byte.
    pub open spec fn code_of(n: [u8; 4]) -> u32 {
        (n[0] as u32 + n[1] as u32 * 0x100 + n[2] as u32 * 0x1_0000 + n[3] as u32 * 0x100_0000) as u32
    }

    pub fn from_fourcc(n: &[u8; 4]) -> (p: Self)
        ensures
            p.0 == Self::code_of(*n),
    {
        let a: u32 = n[0] as u32;
        let b: u32 = n[1] as u32;
        let c: u32 = n[2] as u32;
        let d: u32 = n[3] as u32;
        assert(a | (b << 8) | (c << 16) | (d << 24) == a + b * 0x100 + c * 0x1_0000 + d
            * 0x100_0000) by (bit_vector)
            requires
                a < 0x100,
                b < 0x100,
                c < 0x100,
                d < 0x100,
        ;
        PixelFormat(a | (b << 8) | (c << 16) | (d << 24))
    }
}

/// Size and stride of one plane of a buffer.
#[derive(Clone, Copy, Debug, PartialEq, Eq, Structural)]
pub struct PlaneLayout {
    pub sizeimage: u32,
    pub bytesperline: u32,
}

/// A format of a queue: what is asked of the device, or what it answered.
#[derive(Debug)]
pub struct Format {
    pub width: u32,
    pub height: u32,
    pub pixelformat: PixelFormat,
    pub plane_fmt: Vec<PlaneLayout>,
}

/// The number of bytes that the first plane of a buffer takes under `format`.
pub open spec fn first_plane_size(format: Format) -> usize {
    if format.plane_fmt@.len() > 0 {
        format.plane_fmt@[0].sizeimage as usize
    } else {
        0
    }
}

} // verus!
