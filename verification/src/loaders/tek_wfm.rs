//! Tektronix WFM files, versions 1, 2 and 3: the header, the layout of the
//! frames and the raw curve points.

use vstd::prelude::*;

verus! {

/// Version of the file format.
#[derive(Debug, Clone, Copy, PartialEq, Eq, Structural)]
pub enum WfmVersion {
    V1,
    V2,
    V3,
}

/// Encoding of one curve point.
#[derive(Debug, Clone, Copy, PartialEq, Eq, Structural)]
pub enum ExplicitFormat {
    Int16,
    Int32,
    Uint32,
    Uint64,
    Fp32,
    Fp64,
    Uint8,
    Int8,
}

impl ExplicitFormat {
    /// Number of bytes of one curve point.
    pub open spec fn spec_bytes_per_point(self) -> int {
        match self {
            ExplicitFormat::Int8 | ExplicitFormat::Uint8 => 1,
            ExplicitFormat::Int16 => 2,
            ExplicitFormat::Int32 | ExplicitFormat::Uint32 | ExplicitFormat::Fp32 => 4,
            ExplicitFormat::Uint64 | ExplicitFormat::Fp64 => 8,
        }
    }

    /// Returns the number of bytes of one curve point.
    pub fn bytes_per_point(self) -> (n: usize)
        ensures
            n == self.spec_bytes_per_point(),
    {
        match self {
            ExplicitFormat::Int8 | ExplicitFormat::Uint8 => 1,
            ExplicitFormat::Int16 => 2,
            ExplicitFormat::Int32 | ExplicitFormat::Uint32 | ExplicitFormat::Fp32 => 4,
            ExplicitFormat::Uint64 | ExplicitFormat::Fp64 => 8,
        }
    }
}

/// Why a file cannot be read.
#[derive(Debug, Clone, Copy, PartialEq, Eq, Structural)]
pub enum WfmError {
    /// The file is shorter than the 78 bytes of the static file header.
    TooSmall,
    /// The first two bytes are neither `0F 0F` nor `F0 F0`.
    InvalidByteOrder,
    /// The version tag names none of the three versions.
    UnsupportedVersion,
    /// The file ends inside its header.
    Truncated,
    /// The code of the curve format is unknown for the version of the file.
    UnsupportedFormat,
    /// The header gives another number of bytes per point than the format has.
    BytesPerPointMismatch,
    /// The curve points of a frame do not lie inside the file.
    FrameOutOfBounds,
}

/// The 16-bit number at `pos`, low byte first when `little`.
pub open spec fn u16_at(b: Seq<u8>, pos: int, little: bool) -> int {
    if little {
        b[pos] + b[pos + 1] * 0x100
    } else {
        b[pos + 1] + b[pos] * 0x100
    }
}

/// The 32-bit number at `pos`, low byte first when `little`.
pub open spec fn u32_at(b: Seq<u8>, pos: int, little: bool) -> int {
    if little {
        b[pos] + b[pos + 1] * 0x100 + b[pos + 2] * 0x1_0000 + b[pos + 3] * 0x100_0000
    } else {
        b[pos + 3] + b[pos + 2] * 0x100 + b[pos + 1] * 0x1_0000 + b[pos] * 0x100_0000
    }
}

/// The 64-bit number at `pos`, low byte first when `little`.
pub open spec fn u64_at(b: Seq<u8>, pos: int, little: bool) -> int {
    if little {
        u32_at(b, pos, true) + u32_at(b, pos + 4, true) * 0x1_0000_0000
    } else {
        u32_at(b, pos + 4, false) + u32_at(b, pos, false) * 0x1_0000_0000
    }
}

/// A 16-bit number read as a signed one.
pub open spec fn signed16(v: int) -> int {
    if v >= 0x8000 {
        v - 0x1_0000
    } else {
        v
    }
}

/// A 32-bit number read as a signed one.
pub open spec fn signed32(v: int) -> int {
    if v >= 0x8000_0000 {
        v - 0x1_0000_0000
    } else {
        v
    }
}

/// A byte read as a signed one.
pub open spec fn signed8(v: int) -> int {
    if v >= 0x80 {
        v - 0x100
    } else {
        v
    }
}

/// Number of leading bytes of `b` before its first zero byte, or the length
/// of `b` where it holds none.
pub open spec fn text_len(b: Seq<u8>) -> int
    decreases b.len(),
{
    if b.len() == 0 || b[0] == 0 {
        0
    } else {
        1 + text_len(b.drop_first())
    }
}

/// A raw curve point, before it is scaled to a voltage.
#[derive(Debug, Clone, Copy, PartialEq, Eq, Structural)]
pub enum RawSample {
    /// A point of a signed integer format.
    Signed(i64),
    /// A point of an unsigned integer format.
    Unsigned(u64),
    /// The bits of a point in single precision.
    Single(u32),
    /// The bits of a point in double precision.
    Double(u64),
}

/// The curve point of the given format at `offset`.
pub open spec fn raw_sample_at(b: Seq<u8>, offset: int, format: ExplicitFormat, little: bool)
    -> RawSample {
    match format {
        ExplicitFormat::Int8 => RawSample::Signed(signed8(b[offset] as int) as i64),
        ExplicitFormat::Uint8 => RawSample::Unsigned(b[offset] as u64),
        ExplicitFormat::Int16 => RawSample::Signed(signed16(u16_at(b, offset, little)) as i64),
        ExplicitFormat::Int32 => RawSample::Signed(signed32(u32_at(b, offset, little)) as i64),
        ExplicitFormat::Uint32 => RawSample::Unsigned(u32_at(b, offset, little) as u64),
        ExplicitFormat::Uint64 => RawSample::Unsigned(u64_at(b, offset, little) as u64),
        ExplicitFormat::Fp32 => RawSample::Single(u32_at(b, offset, little) as u32),
        ExplicitFormat::Fp64 => RawSample::Double(u64_at(b, offset, little) as u64),
    }
}

/// Where the curve points of one frame lie, relative to the part of the
/// curve buffer that belongs to the frame.
#[derive(Debug, Clone, Copy, PartialEq, Eq, Structural)]
pub struct CurveObject {
    pub data_start: usize,
    pub postcharge_start: usize,
    pub postcharge_stop: usize,
}

/// The curve object whose 30 bytes start at `pos`.
pub open spec fn curve_object_at(b: Seq<u8>, pos: int, little: bool) -> CurveObject {
    CurveObject {
        data_start: u32_at(b, pos + 14, little) as usize,
        postcharge_start: u32_at(b, pos + 18, little) as usize,
        postcharge_stop: u32_at(b, pos + 22, little) as usize,
    }
}

/// Length of the user view section of a dimension.
pub open spec fn user_view_len(version: WfmVersion) -> int {
    if version == WfmVersion::V3 {
        60
    } else {
        56
    }
}

/// Reader of a file with a position and a byte order.
pub struct WfmParser {
    pub data: Vec<u8>,
    pub pos: usize,
    pub little_endian: bool,
}

impl WfmParser {
    /// A reader at the start of `data`, low byte first.
    pub fn new(data: Vec<u8>) -> (p: Self)
        ensures
            p.data@ == data@,
            p.pos == 0,
            p.little_endian,
    {
        Self { data, pos: 0, little_endian: true }
    }

    /// Moves the position `n` bytes on. Returns `false`, and stays, where the
    /// position would not fit in a `usize`.
    pub fn skip(&mut self, n: usize) -> (ok: bool)
        ensures
            final(self).data@ == old(self).data@,
            final(self).little_endian == old(self).little_endian,
            ok == (old(self).pos + n <= usize::MAX),
            ok ==> final(self).pos == old(self).pos + n,
            !ok ==> final(self).pos == old(self).pos,
    {
        match self.pos.checked_add(n) {
            Some(pos) => {
                self.pos = pos;
                true
            },
            None => false,
        }
    }

    /// True when `n` bytes can be read at the position.
    pub open spec fn has(&self, n: int) -> bool {
        self.pos + n <= self.data@.len()
    }

    /// Reads one byte, or `None` at the end of the file.
    pub fn read_u8(&mut self) -> (r: Option<u8>)
        ensures
            final(self).data@ == old(self).data@,
            final(self).little_endian == old(self).little_endian,
            r.is_some() == old(self).has(1),
            r.is_some() ==> r.unwrap() == old(self).data@[old(self).pos as int] && final(self).pos
                == old(self).pos + 1,
            r.is_none() ==> final(self).pos == old(self).pos,
    {
        if self.pos < self.data.len() {
            let v = self.data[self.pos];
            self.pos += 1;
            Some(v)
        } else {
            None
        }
    }

    /// The 16-bit number at `offset`, in the byte order of the file.
    pub fn u16_at(&self, offset: usize) -> (v: u16)
        requires
            offset + 2 <= self.data@.len(),
        ensures
            v == u16_at(self.data@, offset as int, self.little_endian),
    {
        let len: usize = self.data.len();
        let b0: u16 = self.data[offset] as u16;
        let b1: u16 = self.data[offset + 1] as u16;
        if self.little_endian {
            b0 + b1 * 0x100
        } else {
            b1 + b0 * 0x100
        }
    }

    /// The 32-bit number at `offset`, in the byte order of the file.
    pub fn u32_at(&self, offset: usize) -> (v: u32)
        requires
            offset + 4 <= self.data@.len(),
        ensures
            v == u32_at(self.data@, offset as int, self.little_endian),
    {
        let len: usize = self.data.len();
        let b0: u32 = self.data[offset] as u32;
        let b1: u32 = self.data[offset + 1] as u32;
        let b2: u32 = self.data[offset + 2] as u32;
        let b3: u32 = self.data[offset + 3] as u32;
        if self.little_endian {
            b0 + b1 * 0x100 + b2 * 0x1_0000 + b3 * 0x100_0000
        } else {
            b3 + b2 * 0x100 + b1 * 0x1_0000 + b0 * 0x100_0000
        }
    }

    /// The 64-bit number at `offset`, in the byte order of the file.
    pub fn u64_at(&self, offset: usize) -> (v: u64)
        requires
            offset + 8 <= self.data@.len(),
        ensures
            v == u64_at(self.data@, offset as int, self.little_endian),
    {
        let len: usize = self.data.len();
        let a: u64 = self.u32_at(offset) as u64;
        let b: u64 = self.u32_at(offset + 4) as u64;
        if self.little_endian {
            a + b * 0x1_0000_0000
        } else {
            b + a * 0x1_0000_0000
        }
    }

    /// Reads a 32-bit number, or `None` where the file ends before its last
    /// byte.
    pub fn read_u32(&mut self) -> (r: Option<u32>)
        ensures
            final(self).data@ == old(self).data@,
            final(self).little_endian == old(self).little_endian,
            r.is_some() == old(self).has(4),
            r.is_some() ==> r.unwrap() == u32_at(
                old(self).data@,
                old(self).pos as int,
                old(self).little_endian,
            ) && final(self).pos == old(self).pos + 4,
            r.is_none() ==> final(self).pos == old(self).pos,
    {
        if self.data.len() >= 4 && self.pos <= self.data.len() - 4 {
            let v = self.u32_at(self.pos);
            self.pos += 4;
            Some(v)
        } else {
            None
        }
    }

    /// Reads the 64 bits of a number in double precision, or `None` where
    /// the file ends before its last byte.
    pub fn read_f64_bits(&mut self) -> (r: Option<u64>)
        ensures
            final(self).data@ == old(self).data@,
            final(self).little_endian == old(self).little_endian,
            r.is_some() == old(self).has(8),
            r.is_some() ==> r.unwrap() == u64_at(
                old(self).data@,
                old(self).pos as int,
                old(self).little_endian,
            ) && final(self).pos == old(self).pos + 8,
            r.is_none() ==> final(self).pos == old(self).pos,
    {
        if self.data.len() >= 8 && self.pos <= self.data.len() - 8 {
            let v = self.u64_at(self.pos);
            self.pos += 8;
            Some(v)
        } else {
            None
        }
    }

    /// Reads a text field of `n` bytes: its bytes up to the first zero byte.
    /// `None` where the file ends inside the field.
    pub fn read_string(&mut self, n: usize) -> (r: Option<Vec<u8>>)
        ensures
            final(self).data@ == old(self).data@,
            final(self).little_endian == old(self).little_endian,
            r.is_some() == old(self).has(n as int),
            r.is_some() ==> final(self).pos == old(self).pos + n && r.unwrap()@ == old(self).data@.subrange(old(self).pos as int, old(self).pos + n).take(
                text_len(old(self).data@.subrange(old(self).pos as int, old(self).pos + n)),
            ),
            r.is_some() ==> r.unwrap()@.len() <= n,
            r.is_none() ==> final(self).pos == old(self).pos,
    {
        if self.data.len() < n || self.pos > self.data.len() - n {
            return None;
        }
        let ghost field = self.data@.subrange(self.pos as int, self.pos + n);
        let len: usize = self.data.len();
        let mut text: Vec<u8> = Vec::new();
        let mut i: usize = 0;
        assert(field.skip(0) =~= field);
        assert(field.take(0) =~= Seq::<u8>::empty());
        while i < n && self.data[self.pos + i] != 0
            invariant
                i <= n,
                self.data@.len() == len,
                self.pos + n <= self.data@.len(),
                field == self.data@.subrange(self.pos as int, self.pos + n),
                text@ == field.take(i as int),
                text_len(field) == i + text_len(field.skip(i as int)),
                *self == *old(self),
            decreases n - i,
        {
            proof {
                let rest = field.skip(i as int);
                assert(rest[0] == self.data@[self.pos + i]);
                assert(rest.drop_first() =~= field.skip(i + 1));
                assert(field.take(i + 1) =~= field.take(i as int).push(field[i as int]));
            }
            text.push(self.data[self.pos + i]);
            i += 1;
        }
        proof {
            let rest = field.skip(i as int);
            if i < n {
                assert(rest[0] == self.data@[self.pos + i]);
            }
            assert(text_len(rest) == 0);
        }
        self.pos += n;
        Some(text)
    }

    /// The raw curve point of the given format at `offset`.
    pub fn read_sample_at(&self, offset: usize, format: ExplicitFormat) -> (r: RawSample)
        requires
            offset + format.spec_bytes_per_point() <= self.data@.len(),
        ensures
            r == raw_sample_at(self.data@, offset as int, format, self.little_endian),
    {
        match format {
            ExplicitFormat::Int8 => {
                let v: i64 = self.data[offset] as i64;
                RawSample::Signed(
                    if v >= 0x80 {
                        v - 0x100
                    } else {
                        v
                    },
                )
            },
            ExplicitFormat::Uint8 => RawSample::Unsigned(self.data[offset] as u64),
            ExplicitFormat::Int16 => {
                let v: i64 = self.u16_at(offset) as i64;
                RawSample::Signed(
                    if v >= 0x8000 {
                        v - 0x1_0000
                    } else {
                        v
                    },
                )
            },
            ExplicitFormat::Int32 => {
                let v: i64 = self.u32_at(offset) as i64;
                RawSample::Signed(
                    if v >= 0x8000_0000 {
                        v - 0x1_0000_0000
                    } else {
                        v
                    },
                )
            },
            ExplicitFormat::Uint32 => RawSample::Unsigned(self.u32_at(offset) as u64),
            ExplicitFormat::Uint64 => RawSample::Unsigned(self.u64_at(offset)),
            ExplicitFormat::Fp32 => RawSample::Single(self.u32_at(offset)),
            ExplicitFormat::Fp64 => RawSample::Double(self.u64_at(offset)),
        }
    }

    /// Reads a curve object of 30 bytes. `None` where the file ends inside
    /// the object.
    pub fn read_curve_object(&mut self) -> (r: Option<CurveObject>)
        ensures
            final(self).data@ == old(self).data@,
            final(self).little_endian == old(self).little_endian,
            r.is_some() == old(self).has(30),
            r.is_some() ==> final(self).pos == old(self).pos + 30 && r.unwrap() == curve_object_at(
                old(self).data@,
                old(self).pos as int,
                old(self).little_endian,
            ),
            r.is_none() ==> final(self).pos == old(self).pos,
    {
        if self.data.len() < 30 || self.pos > self.data.len() - 30 {
            return None;
        }
        let data_start = self.u32_at(self.pos + 14) as usize;
        let postcharge_start = self.u32_at(self.pos + 18) as usize;
        let postcharge_stop = self.u32_at(self.pos + 22) as usize;
        self.pos += 30;
        Some(CurveObject { data_start, postcharge_start, postcharge_stop })
    }

    /// Reads one byte of a file that is known to hold it.
    fn next_u8(&mut self) -> (v: u8)
        requires
            old(self).has(1),
        ensures
            final(self).data@ == old(self).data@,
            final(self).little_endian == old(self).little_endian,
            final(self).pos == old(self).pos + 1,
            v == old(self).data@[old(self).pos as int],
    {
        match self.read_u8() {
            Some(v) => v,
            None => 0,
        }
    }

    /// Reads a 32-bit number of a file that is known to hold it.
    fn next_u32(&mut self) -> (v: u32)
        requires
            old(self).has(4),
        ensures
            final(self).data@ == old(self).data@,
            final(self).little_endian == old(self).little_endian,
            final(self).pos == old(self).pos + 4,
            v == u32_at(old(self).data@, old(self).pos as int, old(self).little_endian),
    {
        match self.read_u32() {
            Some(v) => v,
            None => 0,
        }
    }

    /// Reads a 64-bit number of a file that is known to hold it.
    fn next_u64(&mut self) -> (v: u64)
        requires
            old(self).has(8),
        ensures
            final(self).data@ == old(self).data@,
            final(self).little_endian == old(self).little_endian,
            final(self).pos == old(self).pos + 8,
            v == u64_at(old(self).data@, old(self).pos as int, old(self).little_endian),
    {
        match self.read_f64_bits() {
            Some(v) => v,
            None => 0,
        }
    }

    /// Reads a curve object of a file that is known to hold it.
    fn next_curve_object(&mut self) -> (c: CurveObject)
        requires
            old(self).has(30),
        ensures
            final(self).data@ == old(self).data@,
            final(self).little_endian == old(self).little_endian,
            final(self).pos == old(self).pos + 30,
            c == curve_object_at(old(self).data@, old(self).pos as int, old(self).little_endian),
    {
        match self.read_curve_object() {
            Some(c) => c,
            None => CurveObject { data_start: 0, postcharge_start: 0, postcharge_stop: 0 },
        }
    }

    /// Skips the user view section of a dimension. Returns `false`, and
    /// stays, where the position would not fit in a `usize`.
    pub fn skip_user_view(&mut self, version: WfmVersion) -> (ok: bool)
        ensures
            final(self).data@ == old(self).data@,
            final(self).little_endian == old(self).little_endian,
            ok == (old(self).pos + user_view_len(version) <= usize::MAX),
            ok ==> final(self).pos == old(self).pos + user_view_len(version),
            !ok ==> final(self).pos == old(self).pos,
    {
        if version == WfmVersion::V3 {
            self.skip(60)
        } else {
            self.skip(56)
        }
    }
}

/// The byte order that the first two bytes of a file announce: low byte
/// first for `0F 0F`, high byte first for `F0 F0`.
pub open spec fn byte_order_of(b: Seq<u8>) -> Option<bool> {
    if b[0] == 0x0f && b[1] == 0x0f {
        Some(true)
    } else if b[0] == 0xf0 && b[1] == 0xf0 {
        Some(false)
    } else {
        None
    }
}

/// True when the seven bytes of `tag` from `k` on spell `WFM#00` and `digit`.
pub open spec fn tag_at(tag: Seq<u8>, k: int, digit: u8) -> bool {
    &&& 0 <= k
    &&& k + 7 <= tag.len()
    &&& tag[k] == 0x57
    &&& tag[k + 1] == 0x46
    &&& tag[k + 2] == 0x4d
    &&& tag[k + 3] == 0x23
    &&& tag[k + 4] == 0x30
    &&& tag[k + 5] == 0x30
    &&& tag[k + 6] == digit
}

/// True when a tag of at most eight bytes holds `WFM#00` and `digit`.
pub open spec fn tag_holds(tag: Seq<u8>, digit: u8) -> bool {
    tag_at(tag, 0, digit) || tag_at(tag, 1, digit)
}

/// The version that a version tag names.
pub open spec fn version_of_tag(tag: Seq<u8>) -> Option<WfmVersion> {
    if tag_holds(tag, 0x31) {
        Some(WfmVersion::V1)
    } else if tag_holds(tag, 0x32) {
        Some(WfmVersion::V2)
    } else if tag_holds(tag, 0x33) {
        Some(WfmVersion::V3)
    } else {
        None
    }
}

/// The version tag of a file: the text of the eight bytes after the byte
/// order.
pub open spec fn version_tag(b: Seq<u8>) -> Seq<u8> {
    b.subrange(2, 10).take(text_len(b.subrange(2, 10)))
}

/// Offset of the first explicit dimension: the summary frame of versions 2
/// and 3 moves it by two bytes.
pub open spec fn base_offset(version: WfmVersion) -> int {
    if version == WfmVersion::V1 {
        166
    } else {
        168
    }
}

/// Offset of the curve object of the first frame.
pub open spec fn first_curve_offset(version: WfmVersion) -> int {
    base_offset(version) + 400 + 4 * user_view_len(version)
}

/// Offset of the curve object of frame `k`, in a file with `extra` frames
/// after the first. The update specifications of the extra frames, 24 bytes
/// each, stand between the first curve object and the others.
pub open spec fn curve_offset(version: WfmVersion, extra: int, k: int) -> int {
    if k == 0 {
        first_curve_offset(version)
    } else {
        first_curve_offset(version) + 30 + extra * 24 + (k - 1) * 30
    }
}

/// Length of the header of a file with `extra` frames after the first.
pub open spec fn header_len(version: WfmVersion, extra: int) -> int {
    first_curve_offset(version) + 30 + extra * 54
}

/// The curve format that a format code stands for. The two formats of one
/// byte exist from version 2 on.
pub open spec fn format_of_code(code: int, version: WfmVersion) -> Option<ExplicitFormat> {
    if code == 0 {
        Some(ExplicitFormat::Int16)
    } else if code == 1 {
        Some(ExplicitFormat::Int32)
    } else if code == 2 {
        Some(ExplicitFormat::Uint32)
    } else if code == 3 {
        Some(ExplicitFormat::Uint64)
    } else if code == 4 {
        Some(ExplicitFormat::Fp32)
    } else if code == 5 {
        Some(ExplicitFormat::Fp64)
    } else if code == 6 && version != WfmVersion::V1 {
        Some(ExplicitFormat::Uint8)
    } else if code == 7 && version != WfmVersion::V1 {
        Some(ExplicitFormat::Int8)
    } else {
        None
    }
}

/// What the header of a file says.
#[derive(Debug)]
pub struct WfmHeader {
    /// Byte order of the numbers of the file.
    pub little_endian: bool,
    pub version: WfmVersion,
    /// Encoding of the curve points.
    pub format: ExplicitFormat,
    pub bytes_per_point: usize,
    /// Offset of the curve buffer in the file.
    pub curve_buffer_offset: usize,
    /// Kind of waveform; 5 is a waveform database.
    pub data_type: u32,
    /// Bits of the factor, in double precision, from a raw point to volts.
    pub voltage_scale_bits: u64,
    /// Bits of the voltage, in double precision, of the raw point zero.
    pub voltage_offset_bits: u64,
    /// Bits of the time, in double precision, between two points.
    pub time_scale_bits: u64,
    /// The curve object of each frame, the first frame first.
    pub frames: Vec<CurveObject>,
}

/// Why the header of the file `b` cannot be read, or `None` where it can.
pub open spec fn header_error(b: Seq<u8>) -> Option<WfmError> {
    if b.len() < 78 {
        Some(WfmError::TooSmall)
    } else if byte_order_of(b).is_none() {
        Some(WfmError::InvalidByteOrder)
    } else if version_of_tag(version_tag(b)).is_none() {
        Some(WfmError::UnsupportedVersion)
    } else {
        let little = byte_order_of(b).unwrap();
        let version = version_of_tag(version_tag(b)).unwrap();
        if b.len() < header_len(version, u32_at(b, 72, little)) {
            Some(WfmError::Truncated)
        } else if format_of_code(u32_at(b, base_offset(version) + 72, little), version).is_none() {
            Some(WfmError::UnsupportedFormat)
        } else if b[15] != format_of_code(
            u32_at(b, base_offset(version) + 72, little),
            version,
        ).unwrap().spec_bytes_per_point() {
            Some(WfmError::BytesPerPointMismatch)
        } else {
            None
        }
    }
}

impl WfmHeader {
    /// The header holds what the file `b` says, field by field.
    pub open spec fn describes(&self, b: Seq<u8>) -> bool {
        &&& Some(self.little_endian) == byte_order_of(b)
        &&& Some(self.version) == version_of_tag(version_tag(b))
        &&& self.bytes_per_point == b[15]
        &&& self.curve_buffer_offset == u32_at(b, 16, self.little_endian)
        &&& self.data_type == u32_at(b, 122, self.little_endian)
        &&& self.voltage_scale_bits == u64_at(b, base_offset(self.version), self.little_endian)
        &&& self.voltage_offset_bits == u64_at(
            b,
            base_offset(self.version) + 8,
            self.little_endian,
        )
        &&& Some(self.format) == format_of_code(
            u32_at(b, base_offset(self.version) + 72, self.little_endian),
            self.version,
        )
        &&& self.time_scale_bits == u64_at(
            b,
            base_offset(self.version) + 200 + 2 * user_view_len(self.version),
            self.little_endian,
        )
        &&& self.frames@.len() == u32_at(b, 72, self.little_endian) + 1
        &&& forall|k: int|
            0 <= k < self.frames@.len() ==> #[trigger] self.frames@[k] == curve_object_at(
                b,
                curve_offset(self.version, u32_at(b, 72, self.little_endian), k),
                self.little_endian,
            )
    }

    /// A point has as many bytes as its format says, and there is a frame.
    pub open spec fn wf(&self) -> bool {
        &&& self.bytes_per_point == self.format.spec_bytes_per_point()
        &&& self.frames@.len() >= 1
    }

    /// Offset in the file of the part of the curve buffer of frame `k`. Each
    /// frame has as many bytes as the first frame says.
    pub open spec fn frame_base(&self, k: int) -> int {
        self.curve_buffer_offset + k * self.frames@[0].postcharge_stop
    }

    /// Offset in the file of the first point of frame `k`.
    pub open spec fn frame_start(&self, k: int) -> int {
        self.frame_base(k) + self.frames@[k].data_start
    }

    /// Offset in the file after the last point of frame `k`.
    pub open spec fn frame_end(&self, k: int) -> int {
        self.frame_base(k) + self.frames@[k].postcharge_start
    }

    /// Number of points of frame `k`.
    pub open spec fn frame_points(&self, k: int) -> int {
        (self.frame_end(k) - self.frame_start(k)) / (self.bytes_per_point as int)
    }

    /// True when the points of frame `k` lie in a file of `len` bytes.
    pub open spec fn frame_fits(&self, k: int, len: int) -> bool {
        self.frame_start(k) <= self.frame_end(k) <= len
    }

    /// Number of frames.
    pub fn frame_count(&self) -> (n: usize)
        ensures
            n == self.frames@.len(),
    {
        self.frames.len()
    }

    /// Offset of the first point of frame `k` and number of its points, in a
    /// file of `len` bytes. Fails where the points do not lie inside the
    /// file.
    pub fn frame_extent(&self, k: usize, len: usize) -> (r: Result<(usize, usize), WfmError>)
        requires
            self.wf(),
            k < self.frames@.len(),
        ensures
            r.is_ok() == self.frame_fits(k as int, len as int),
            r.is_ok() ==> r.unwrap().0 == self.frame_start(k as int) && r.unwrap().1
                == self.frame_points(k as int),
            r.is_err() ==> r.unwrap_err() == WfmError::FrameOutOfBounds,
    {
        let stride: u128 = self.frames[0].postcharge_stop as u128;
        assert(0 <= (k as int) * (stride as int) <= 0xffff_ffff_ffff_ffff * 0xffff_ffff_ffff_ffff)
            by (nonlinear_arith)
            requires
                0 <= k <= 0xffff_ffff_ffff_ffff,
                0 <= stride <= 0xffff_ffff_ffff_ffff,
        ;
        let base: u128 = (self.curve_buffer_offset as u128) + (k as u128) * stride;
        let start: u128 = base + self.frames[k].data_start as u128;
        let end: u128 = base + self.frames[k].postcharge_start as u128;
        if start <= end && end <= len as u128 {
            let points: u128 = (end - start) / (self.bytes_per_point as u128);
            Ok((start as usize, points as usize))
        } else {
            Err(WfmError::FrameOutOfBounds)
        }
    }
}

/// True when the tag holds `WFM#00` and `digit`.
fn tag_has(tag: &Vec<u8>, digit: u8) -> (b: bool)
    requires
        tag@.len() <= 8,
    ensures
        b == tag_holds(tag@, digit),
{
    let n = tag.len();
    let mut k: usize = 0;
    while k < 2
        invariant
            k <= 2,
            n == tag@.len(),
            n <= 8,
            forall|j: int| 0 <= j < k ==> !tag_at(tag@, j, digit),
        decreases 2 - k,
    {
        if k + 7 <= n && tag[k] == 0x57 && tag[k + 1] == 0x46 && tag[k + 2] == 0x4d && tag[k + 3]
            == 0x23 && tag[k + 4] == 0x30 && tag[k + 5] == 0x30 && tag[k + 6] == digit {
            return true;
        }
        k += 1;
    }
    false
}

/// The first fields of a header: what is needed to know how long the header
/// is.
#[derive(Debug)]
struct Preamble {
    little: bool,
    version: WfmVersion,
    bytes_per_point: usize,
    curve_buffer_offset: usize,
    extra: u32,
}

/// Reads the static file information of 78 bytes, and checks that the file
/// holds the whole header.
fn read_preamble(p: &mut WfmParser) -> (r: Result<Preamble, WfmError>)
    requires
        old(p).pos == 0,
    ensures
        final(p).data@ == old(p).data@,
        r.is_err() ==> Some(r.unwrap_err()) == header_error(old(p).data@),
        r.is_ok() ==> {
            let b = old(p).data@;
            let pre = r.unwrap();
            &&& b.len() >= 78
            &&& Some(pre.little) == byte_order_of(b)
            &&& Some(pre.version) == version_of_tag(version_tag(b))
            &&& pre.bytes_per_point == b[15]
            &&& pre.curve_buffer_offset == u32_at(b, 16, pre.little)
            &&& pre.extra == u32_at(b, 72, pre.little)
            &&& header_len(pre.version, pre.extra as int) <= b.len()
            &&& final(p).little_endian == pre.little
            &&& final(p).pos == 78
        },
{
    let len: usize = p.data.len();
    if len < 78 {
        return Err(WfmError::TooSmall);
    }
    if p.data[0] == 0x0f && p.data[1] == 0x0f {
        p.little_endian = true;
    } else if p.data[0] == 0xf0 && p.data[1] == 0xf0 {
        p.little_endian = false;
    } else {
        return Err(WfmError::InvalidByteOrder);
    }
    let little = p.little_endian;
    p.pos = 2;
    let tag = match p.read_string(8) {
        Some(t) => t,
        None => {
            return Err(WfmError::Truncated);
        },
    };
    let version = if tag_has(&tag, 0x31) {
        WfmVersion::V1
    } else if tag_has(&tag, 0x32) {
        WfmVersion::V2
    } else if tag_has(&tag, 0x33) {
        WfmVersion::V3
    } else {
        return Err(WfmError::UnsupportedVersion);
    };
    // Digits of the byte count, bytes to the end of the file.
    let _ = p.skip(1 + 4);
    let bytes_per_point: usize = p.next_u8() as usize;
    let curve_buffer_offset: usize = p.next_u32() as usize;
    // Zoom settings and label of the waveform.
    let _ = p.skip(20 + 32);
    let extra: u32 = p.next_u32();
    // Size of the waveform header.
    let _ = p.skip(2);
    let total: u64 = (if version == WfmVersion::V1 {
        166u64
    } else {
        168u64
    }) + 400 + 4 * (if version == WfmVersion::V3 {
        60u64
    } else {
        56u64
    }) + 30 + (extra as u64) * 54;
    if (len as u64) < total {
        return Err(WfmError::Truncated);
    }
    Ok(Preamble { little, version, bytes_per_point, curve_buffer_offset, extra })
}

/// What the waveform header and the four dimensions say.
#[derive(Debug)]
struct Dimensions {
    data_type: u32,
    voltage_scale_bits: u64,
    voltage_offset_bits: u64,
    code: u32,
    time_scale_bits: u64,
}

/// Reads the waveform header and the four dimensions, up to the curve object
/// of the first frame.
fn read_dimensions(p: &mut WfmParser, version: WfmVersion) -> (d: Dimensions)
    requires
        old(p).pos == 78,
        first_curve_offset(version) <= old(p).data@.len(),
    ensures
        final(p).data@ == old(p).data@,
        final(p).little_endian == old(p).little_endian,
        final(p).pos == first_curve_offset(version),
        d.data_type == u32_at(old(p).data@, 122, old(p).little_endian),
        d.voltage_scale_bits == u64_at(old(p).data@, base_offset(version), old(p).little_endian),
        d.voltage_offset_bits == u64_at(
            old(p).data@,
            base_offset(version) + 8,
            old(p).little_endian,
        ),
        d.code == u32_at(old(p).data@, base_offset(version) + 72, old(p).little_endian),
        d.time_scale_bits == u64_at(
            old(p).data@,
            base_offset(version) + 200 + 2 * user_view_len(version),
            old(p).little_endian,
        ),
{
    let len: usize = p.data.len();
    // Waveform header, up to the kind of data.
    let _ = p.skip(4 + 4 + 8 + 8 + 4 + 4 + 4 + 4 + 4);
    let data_type = p.next_u32();
    // Counters of the acquisition.
    let _ = p.skip(8 + 4 + 4 + 4 + 4 + 4);
    if version != WfmVersion::V1 {
        // Summary frame.
        let _ = p.skip(2);
    }
    // Format and largest value of the pixel map.
    let _ = p.skip(4 + 8);
    // First explicit dimension: the voltage axis.
    let voltage_scale_bits = p.next_u64();
    let voltage_offset_bits = p.next_u64();
    // Size, units, extents, resolution and reference point.
    let _ = p.skip(4 + 20);
    let _ = p.skip(8 + 8 + 8 + 8);
    let code = p.next_u32();
    // Storage type and ranges.
    let _ = p.skip(4 + 4 * 5);
    let _ = p.skip_user_view(version);
    // Second explicit dimension, with its user view.
    let _ = p.skip(8 + 8 + 4 + 20 + 8 + 8 + 8 + 8 + 4 + 4 + 4 * 5);
    let _ = p.skip_user_view(version);
    // First implicit dimension: the time axis.
    let time_scale_bits = p.next_u64();
    let _ = p.skip(8 + 4 + 20 + 8 + 8 + 8 + 8 + 4);
    let _ = p.skip_user_view(version);
    // Second implicit dimension, with its user view.
    let _ = p.skip(8 + 8 + 4 + 20 + 8 + 8 + 8 + 8 + 4);
    let _ = p.skip_user_view(version);
    // Two time bases, and the update specification of the first frame.
    let _ = p.skip(12 + 12);
    let _ = p.skip(24);
    Dimensions { data_type, voltage_scale_bits, voltage_offset_bits, code, time_scale_bits }
}

/// Reads the curve object of the first frame, skips the update
/// specifications of the other frames, and reads their curve objects.
fn read_curve_objects(p: &mut WfmParser, version: WfmVersion, extra: u32) -> (frames: Vec<
    CurveObject,
>)
    requires
        old(p).pos == first_curve_offset(version),
        header_len(version, extra as int) <= old(p).data@.len(),
    ensures
        final(p).data@ == old(p).data@,
        final(p).little_endian == old(p).little_endian,
        frames@.len() == extra + 1,
        forall|k: int|
            0 <= k < frames@.len() ==> #[trigger] frames@[k] == curve_object_at(
                old(p).data@,
                curve_offset(version, extra as int, k),
                old(p).little_endian,
            ),
{
    let ghost b = p.data@;
    let ghost little = p.little_endian;
    let len: usize = p.data.len();
    let mut frames: Vec<CurveObject> = Vec::new();
    let first = p.next_curve_object();
    frames.push(first);
    let n: usize = extra as usize;
    let _ = p.skip(n * 24);
    let mut k: usize = 0;
    while k < n
        invariant
            k <= n,
            n == extra,
            len == p.data@.len(),
            p.data@ == b,
            p.little_endian == little,
            header_len(version, extra as int) <= len,
            p.pos == first_curve_offset(version) + 30 + n * 24 + k * 30,
            frames@.len() == k + 1,
            forall|j: int|
                0 <= j < frames@.len() ==> #[trigger] frames@[j] == curve_object_at(
                    b,
                    curve_offset(version, extra as int, j),
                    little,
                ),
        decreases n - k,
    {
        let c = p.next_curve_object();
        frames.push(c);
        k += 1;
    }
    frames
}

/// The curve format of a format code.
fn format_from_code(code: u32, version: WfmVersion) -> (r: Option<ExplicitFormat>)
    ensures
        r == format_of_code(code as int, version),
{
    if code == 0 {
        Some(ExplicitFormat::Int16)
    } else if code == 1 {
        Some(ExplicitFormat::Int32)
    } else if code == 2 {
        Some(ExplicitFormat::Uint32)
    } else if code == 3 {
        Some(ExplicitFormat::Uint64)
    } else if code == 4 {
        Some(ExplicitFormat::Fp32)
    } else if code == 5 {
        Some(ExplicitFormat::Fp64)
    } else if code == 6 && version != WfmVersion::V1 {
        Some(ExplicitFormat::Uint8)
    } else if code == 7 && version != WfmVersion::V1 {
        Some(ExplicitFormat::Int8)
    } else {
        None
    }
}

/// Reads the header of a file.
///
/// Fails where the file is shorter than its header, where its byte order,
/// its version or its curve format is not known, and where the number of
/// bytes per point does not go with the format.
pub fn parse_header(p: &mut WfmParser) -> (r: Result<WfmHeader, WfmError>)
    requires
        old(p).pos == 0,
    ensures
        final(p).data@ == old(p).data@,
        r.is_err() == header_error(old(p).data@).is_some(),
        r.is_err() ==> Some(r.unwrap_err()) == header_error(old(p).data@),
        r.is_ok() ==> r.unwrap().describes(old(p).data@) && r.unwrap().wf() && final(p).little_endian
            == r.unwrap().little_endian,
{
    let pre = match read_preamble(p) {
        Ok(pre) => pre,
        Err(e) => {
            return Err(e);
        },
    };
    let dims = read_dimensions(p, pre.version);
    let frames = read_curve_objects(p, pre.version, pre.extra);
    let format = match format_from_code(dims.code, pre.version) {
        Some(f) => f,
        None => {
            return Err(WfmError::UnsupportedFormat);
        },
    };
    if pre.bytes_per_point != format.bytes_per_point() {
        return Err(WfmError::BytesPerPointMismatch);
    }
    Ok(
        WfmHeader {
            little_endian: pre.little,
            version: pre.version,
            format,
            bytes_per_point: pre.bytes_per_point,
            curve_buffer_offset: pre.curve_buffer_offset,
            data_type: dims.data_type,
            voltage_scale_bits: dims.voltage_scale_bits,
            voltage_offset_bits: dims.voltage_offset_bits,
            time_scale_bits: dims.time_scale_bits,
            frames,
        },
    )
}

/// The raw points of frame `k`.
pub fn read_frame(p: &WfmParser, header: &WfmHeader, k: usize) -> (r: Result<
    Vec<RawSample>,
    WfmError,
>)
    requires
        header.wf(),
        k < header.frames@.len(),
    ensures
        r.is_ok() == header.frame_fits(k as int, p.data@.len() as int),
        r.is_err() ==> r.unwrap_err() == WfmError::FrameOutOfBounds,
        r.is_ok() ==> r.unwrap()@.len() == header.frame_points(k as int),
        r.is_ok() ==> forall|i: int|
            0 <= i < r.unwrap()@.len() ==> #[trigger] r.unwrap()@[i] == raw_sample_at(
                p.data@,
                header.frame_start(k as int) + i * header.bytes_per_point,
                header.format,
                p.little_endian,
            ),
{
    let len = p.data.len();
    let (start, points) = match header.frame_extent(k, len) {
        Ok(e) => e,
        Err(e) => {
            return Err(e);
        },
    };
    let size: usize = header.bytes_per_point;
    proof {
        let span = header.frame_end(k as int) - header.frame_start(k as int);
        vstd::arithmetic::div_mod::lemma_fundamental_div_mod(span, size as int);
        vstd::arithmetic::div_mod::lemma_mod_bound(span, size as int);
        assert(size * (span / (size as int)) <= span);
    }
    let mut samples: Vec<RawSample> = Vec::new();
    let mut i: usize = 0;
    while i < points
        invariant
            i <= points,
            size == header.bytes_per_point,
            size == header.format.spec_bytes_per_point(),
            len == p.data@.len(),
            start == header.frame_start(k as int),
            points == header.frame_points(k as int),
            start + size * points <= len,
            samples@.len() == i,
            forall|j: int|
                0 <= j < i ==> #[trigger] samples@[j] == raw_sample_at(
                    p.data@,
                    start + j * size,
                    header.format,
                    p.little_endian,
                ),
        decreases points - i,
    {
        assert(i * size + size <= size * points) by (nonlinear_arith)
            requires
                i < points,
                size >= 0,
        ;
        let offset: usize = start + i * size;
        let sample = p.read_sample_at(offset, header.format);
        samples.push(sample);
        i += 1;
    }
    Ok(samples)
}

/// Number of frames of a file whose header can be read.
pub open spec fn frames_of(b: Seq<u8>) -> int {
    u32_at(b, 72, byte_order_of(b).unwrap()) + 1
}

/// True when the points of frame `k` lie inside the file `b`, whose header
/// can be read.
pub open spec fn file_frame_fits(b: Seq<u8>, k: int) -> bool {
    let little = byte_order_of(b).unwrap();
    let version = version_of_tag(version_tag(b)).unwrap();
    let extra = u32_at(b, 72, little);
    let first = curve_object_at(b, curve_offset(version, extra, 0), little);
    let frame = curve_object_at(b, curve_offset(version, extra, k), little);
    let base = u32_at(b, 16, little) + k * first.postcharge_stop;
    base + frame.data_start <= base + frame.postcharge_start <= b.len()
}

/// A header that describes a file places the frames where the file does.
pub proof fn lemma_frame_fits(header: &WfmHeader, b: Seq<u8>, k: int)
    requires
        header.describes(b),
        0 <= k < header.frames@.len(),
    ensures
        header.frames@.len() == frames_of(b),
        header.frame_fits(k, b.len() as int) == file_frame_fits(b, k),
{
    let little = header.little_endian;
    let extra = u32_at(b, 72, little);
    assert(header.frames@[0] == curve_object_at(b, curve_offset(header.version, extra, 0), little));
    assert(header.frames@[k] == curve_object_at(b, curve_offset(header.version, extra, k), little));
}

/// A file taken apart: its header and the raw points of each frame.
#[derive(Debug)]
pub struct WfmFile {
    pub header: WfmHeader,
    pub little_endian: bool,
    pub frames: Vec<Vec<RawSample>>,
}

/// Takes a Tektronix WFM file apart: the header, then the raw points of
/// every frame. A file with one frame gives one trace, a FastFrame file one
/// trace per frame. Fails where the header cannot be read, and where the
/// points of a frame do not lie inside the file.
///
/// The voltage of a point is its raw value multiplied by the voltage scale of
/// the header, plus the voltage offset.
pub fn decode_tek_wfm(data: Vec<u8>) -> (r: Result<WfmFile, WfmError>)
    ensures
        r.is_ok() == (header_error(data@).is_none() && forall|k: int|
            0 <= k < frames_of(data@) ==> file_frame_fits(data@, k)),
        header_error(data@).is_some() ==> r.is_err() && Some(r.unwrap_err()) == header_error(data@),
        r.is_err() && header_error(data@).is_none() ==> r.unwrap_err()
            == WfmError::FrameOutOfBounds,
        r.is_ok() ==> {
            let file = r.unwrap();
            &&& file.header.describes(data@)
            &&& file.header.wf()
            &&& Some(file.little_endian) == byte_order_of(data@)
            &&& file.frames@.len() == file.header.frames@.len()
            &&& forall|k: int|
                0 <= k < file.frames@.len() ==> {
                    &&& file.header.frame_fits(k, data@.len() as int)
                    &&& (#[trigger] file.frames@[k])@.len() == file.header.frame_points(k)
                    &&& forall|i: int|
                        0 <= i < file.frames@[k]@.len() ==> #[trigger] file.frames@[k]@[i]
                            == raw_sample_at(
                            data@,
                            file.header.frame_start(k) + i * file.header.bytes_per_point,
                            file.header.format,
                            file.little_endian,
                        )
                }
        },
{
    let mut p = WfmParser::new(data);
    let header = match parse_header(&mut p) {
        Ok(h) => h,
        Err(e) => {
            return Err(e);
        },
    };
    let count = header.frame_count();
    let mut frames: Vec<Vec<RawSample>> = Vec::new();
    let mut k: usize = 0;
    while k < count
        invariant
            k <= count,
            count == header.frames@.len(),
            header.wf(),
            header.describes(data@),
            header_error(data@).is_none(),
            p.data@ == data@,
            p.little_endian == header.little_endian,
            frames@.len() == k,
            forall|j: int|
                0 <= j < k ==> {
                    &&& header.frame_fits(j, data@.len() as int)
                    &&& (#[trigger] frames@[j])@.len() == header.frame_points(j)
                    &&& forall|i: int|
                        0 <= i < frames@[j]@.len() ==> #[trigger] frames@[j]@[i] == raw_sample_at(
                            data@,
                            header.frame_start(j) + i * header.bytes_per_point,
                            header.format,
                            header.little_endian,
                        )
                },
        decreases count - k,
    {
        let samples = match read_frame(&p, &header, k) {
            Ok(s) => s,
            Err(e) => {
                proof {
                    lemma_frame_fits(&header, data@, k as int);
                    assert(!file_frame_fits(data@, k as int));
                }
                return Err(e);
            },
        };
        frames.push(samples);
        k += 1;
    }
    proof {
        assert forall|j: int| 0 <= j < frames_of(data@) implies file_frame_fits(data@, j) by {
            lemma_frame_fits(&header, data@, 0);
            lemma_frame_fits(&header, data@, j);
            assert(frames@[j]@.len() == header.frame_points(j));
        }
    }
    let little_endian = header.little_endian;
    Ok(WfmFile { header, little_endian, frames })
}

} // verus!
