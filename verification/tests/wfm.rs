use turboplot::loaders::tek_wfm::{
    decode_tek_wfm, parse_header, read_frame, CurveObject, ExplicitFormat, RawSample, WfmError,
    WfmParser, WfmVersion,
};

/// What a synthetic file holds.
#[derive(Clone)]
struct Layout {
    version: u8,
    little: bool,
    code: u32,
    bytes_per_point: u8,
    /// Data start, postcharge start and postcharge stop of each frame.
    frames: Vec<(u32, u32, u32)>,
    curve: Vec<u8>,
}

fn put_u32(file: &mut Vec<u8>, at: usize, v: u32, little: bool) {
    let bytes = if little { v.to_le_bytes() } else { v.to_be_bytes() };
    file[at..at + 4].copy_from_slice(&bytes);
}

fn put_u64(file: &mut Vec<u8>, at: usize, v: u64, little: bool) {
    let bytes = if little { v.to_le_bytes() } else { v.to_be_bytes() };
    file[at..at + 8].copy_from_slice(&bytes);
}

fn base_of(version: u8) -> usize {
    if version == 1 { 166 } else { 168 }
}

fn view_of(version: u8) -> usize {
    if version == 3 { 60 } else { 56 }
}

fn header_len_of(version: u8, frames: usize) -> usize {
    base_of(version) + 400 + 4 * view_of(version) + 30 + (frames - 1) * 54
}

fn build(layout: &Layout) -> Vec<u8> {
    let extra = layout.frames.len() - 1;
    let header = header_len_of(layout.version, layout.frames.len());
    let mut file = vec![0xaau8; header];
    let order = if layout.little { 0x0f } else { 0xf0 };
    file[0] = order;
    file[1] = order;
    file[2..10].copy_from_slice(format!(":WFM#00{}", layout.version).as_bytes());
    file[15] = layout.bytes_per_point;
    put_u32(&mut file, 16, header as u32, layout.little);
    put_u32(&mut file, 72, extra as u32, layout.little);
    put_u32(&mut file, 122, 2, layout.little);
    let base = base_of(layout.version);
    put_u64(&mut file, base, 0x4000_0000_0000_0000, layout.little);
    put_u64(&mut file, base + 8, 0x3ff0_0000_0000_0000, layout.little);
    put_u32(&mut file, base + 72, layout.code, layout.little);
    put_u64(
        &mut file,
        base + 200 + 2 * view_of(layout.version),
        0x3e45_798e_e230_8c3a,
        layout.little,
    );
    let first = base + 400 + 4 * view_of(layout.version);
    for (k, &(start, post, stop)) in layout.frames.iter().enumerate() {
        let at = if k == 0 { first } else { first + 30 + extra * 24 + (k - 1) * 30 };
        put_u32(&mut file, at + 14, start, layout.little);
        put_u32(&mut file, at + 18, post, layout.little);
        put_u32(&mut file, at + 22, stop, layout.little);
    }
    file.extend_from_slice(&layout.curve);
    file
}

fn int16_file() -> Layout {
    let samples: [i16; 5] = [1, -2, 300, -32768, 32767];
    let mut curve = Vec::new();
    for s in samples {
        curve.extend_from_slice(&s.to_le_bytes());
    }
    Layout {
        version: 3,
        little: true,
        code: 0,
        bytes_per_point: 2,
        frames: vec![(0, 10, 10)],
        curve,
    }
}

#[test]
fn bytes_per_point_of_each_format() {
    assert_eq!(ExplicitFormat::Int8.bytes_per_point(), 1);
    assert_eq!(ExplicitFormat::Uint8.bytes_per_point(), 1);
    assert_eq!(ExplicitFormat::Int16.bytes_per_point(), 2);
    assert_eq!(ExplicitFormat::Int32.bytes_per_point(), 4);
    assert_eq!(ExplicitFormat::Uint32.bytes_per_point(), 4);
    assert_eq!(ExplicitFormat::Fp32.bytes_per_point(), 4);
    assert_eq!(ExplicitFormat::Uint64.bytes_per_point(), 8);
    assert_eq!(ExplicitFormat::Fp64.bytes_per_point(), 8);
}

#[test]
fn parser_starts_at_the_front_low_byte_first() {
    let p = WfmParser::new(vec![1, 2, 3]);
    assert_eq!(p.pos, 0);
    assert!(p.little_endian);
    assert_eq!(p.data, vec![1, 2, 3]);
}

#[test]
fn parser_skip_moves_the_position() {
    let mut p = WfmParser::new(vec![1, 2, 3]);
    assert!(p.skip(2));
    assert_eq!(p.pos, 2);
    // Skipping past the end is no error by itself.
    assert!(p.skip(10));
    assert_eq!(p.pos, 12);
    assert!(!p.skip(usize::MAX));
    assert_eq!(p.pos, 12);
}

#[test]
fn parser_reads_bytes_until_the_end() {
    let mut p = WfmParser::new(vec![7, 8]);
    assert_eq!(p.read_u8(), Some(7));
    assert_eq!(p.read_u8(), Some(8));
    assert_eq!(p.pos, 2);
    assert_eq!(p.read_u8(), None);
    assert_eq!(p.pos, 2);
}

#[test]
fn parser_reads_numbers_in_both_byte_orders() {
    let bytes = vec![0x01, 0x02, 0x03, 0x04, 0x05, 0x06, 0x07, 0x08, 0x09];
    let mut le = WfmParser::new(bytes.clone());
    assert_eq!(le.u16_at(0), 0x0201);
    assert_eq!(le.u32_at(1), 0x0504_0302);
    assert_eq!(le.u64_at(1), 0x0908_0706_0504_0302);
    assert_eq!(le.read_u32(), Some(0x0403_0201));
    assert_eq!(le.pos, 4);
    assert_eq!(le.read_u32(), Some(0x0807_0605));
    assert_eq!(le.read_u32(), None);
    assert_eq!(le.pos, 8);
    let mut be = WfmParser::new(bytes);
    be.little_endian = false;
    assert_eq!(be.u16_at(0), 0x0102);
    assert_eq!(be.u32_at(1), 0x0203_0405);
    assert_eq!(be.u64_at(1), 0x0203_0405_0607_0809);
    assert_eq!(be.read_f64_bits(), Some(0x0102_0304_0506_0708));
    assert_eq!(be.pos, 8);
    assert_eq!(be.read_f64_bits(), None);
    let mut high = WfmParser::new(vec![0xff, 0xff, 0xff, 0xff]);
    assert_eq!(high.read_u32(), Some(u32::MAX));
}

#[test]
fn parser_reads_text_up_to_the_first_zero() {
    let mut p = WfmParser::new(b"abc\0de\0\0xyz".to_vec());
    assert_eq!(p.read_string(8), Some(b"abc".to_vec()));
    assert_eq!(p.pos, 8);
    assert_eq!(p.read_string(3), Some(b"xyz".to_vec()));
    assert_eq!(p.pos, 11);
    assert_eq!(p.read_string(1), None);
    assert_eq!(p.read_string(0), Some(Vec::new()));
    let mut q = WfmParser::new(b"\0abc".to_vec());
    assert_eq!(q.read_string(4), Some(Vec::new()));
    assert_eq!(q.pos, 4);
}

#[test]
fn parser_reads_a_curve_object() {
    let mut bytes = vec![0u8; 64];
    for (i, b) in bytes.iter_mut().enumerate() {
        *b = i as u8;
    }
    let mut p = WfmParser::new(bytes);
    p.pos = 2;
    let c = p.read_curve_object().unwrap();
    // The three numbers stand 14, 18 and 22 bytes into the object.
    assert_eq!(
        c,
        CurveObject {
            data_start: 0x1312_1110,
            postcharge_start: 0x1716_1514,
            postcharge_stop: 0x1b1a_1918,
        }
    );
    assert_eq!(p.pos, 32);
    assert_eq!(p.read_curve_object().unwrap().data_start, 0x3130_2f2e);
    assert_eq!(p.read_curve_object(), None);
    assert_eq!(p.pos, 62);
}

#[test]
fn parser_skips_the_user_view_of_each_version() {
    let mut p = WfmParser::new(Vec::new());
    assert!(p.skip_user_view(WfmVersion::V1));
    assert_eq!(p.pos, 56);
    assert!(p.skip_user_view(WfmVersion::V2));
    assert_eq!(p.pos, 112);
    assert!(p.skip_user_view(WfmVersion::V3));
    assert_eq!(p.pos, 172);
}

#[test]
fn raw_samples_of_each_format() {
    let bytes = vec![0xfe, 0xff, 0xff, 0xff, 0x00, 0x00, 0x80, 0x3f, 0x80];
    let mut p = WfmParser::new(bytes);
    assert_eq!(p.read_sample_at(0, ExplicitFormat::Int8), RawSample::Signed(-2));
    assert_eq!(p.read_sample_at(8, ExplicitFormat::Int8), RawSample::Signed(-128));
    assert_eq!(p.read_sample_at(7, ExplicitFormat::Int8), RawSample::Signed(0x3f));
    assert_eq!(p.read_sample_at(0, ExplicitFormat::Uint8), RawSample::Unsigned(0xfe));
    assert_eq!(p.read_sample_at(0, ExplicitFormat::Int16), RawSample::Signed(-2));
    assert_eq!(p.read_sample_at(6, ExplicitFormat::Int16), RawSample::Signed(0x3f80));
    assert_eq!(p.read_sample_at(0, ExplicitFormat::Int32), RawSample::Signed(-2));
    assert_eq!(p.read_sample_at(4, ExplicitFormat::Int32), RawSample::Signed(0x3f80_0000));
    assert_eq!(p.read_sample_at(0, ExplicitFormat::Uint32), RawSample::Unsigned(0xffff_fffe));
    assert_eq!(
        p.read_sample_at(0, ExplicitFormat::Uint64),
        RawSample::Unsigned(0x3f80_0000_ffff_fffe)
    );
    // One in single precision.
    assert_eq!(p.read_sample_at(4, ExplicitFormat::Fp32), RawSample::Single(0x3f80_0000));
    assert_eq!(
        p.read_sample_at(1, ExplicitFormat::Fp64),
        RawSample::Double(0x803f_8000_00ff_ffff)
    );
    p.little_endian = false;
    assert_eq!(p.read_sample_at(0, ExplicitFormat::Int16), RawSample::Signed(-257));
    assert_eq!(p.read_sample_at(6, ExplicitFormat::Int16), RawSample::Signed(-32705));
    assert_eq!(p.read_sample_at(4, ExplicitFormat::Int32), RawSample::Signed(0x0000_803f));
    assert_eq!(p.read_sample_at(0, ExplicitFormat::Uint32), RawSample::Unsigned(0xfeff_ffff));
    assert_eq!(p.read_sample_at(4, ExplicitFormat::Fp32), RawSample::Single(0x0000_803f));
    assert_eq!(
        p.read_sample_at(0, ExplicitFormat::Fp64),
        RawSample::Double(0xfeff_ffff_0000_803f)
    );
}

#[test]
fn header_of_a_version_3_file() {
    let file = build(&int16_file());
    assert_eq!(file.len(), 838 + 10);
    let mut p = WfmParser::new(file);
    let header = parse_header(&mut p).unwrap();
    assert!(header.little_endian);
    assert_eq!(header.version, WfmVersion::V3);
    assert_eq!(header.format, ExplicitFormat::Int16);
    assert_eq!(header.bytes_per_point, 2);
    assert_eq!(header.curve_buffer_offset, 838);
    assert_eq!(header.data_type, 2);
    assert_eq!(f64::from_bits(header.voltage_scale_bits), 2.0);
    assert_eq!(f64::from_bits(header.voltage_offset_bits), 1.0);
    assert_eq!(f64::from_bits(header.time_scale_bits), 1e-8);
    assert_eq!(header.frame_count(), 1);
    assert_eq!(
        header.frames,
        vec![CurveObject { data_start: 0, postcharge_start: 10, postcharge_stop: 10 }]
    );
    assert_eq!(header.frame_extent(0, 848), Ok((838, 5)));
    assert_eq!(header.frame_extent(0, 847), Err(WfmError::FrameOutOfBounds));
}

#[test]
fn single_frame_file_gives_one_trace() {
    let file = decode_tek_wfm(build(&int16_file())).unwrap();
    assert_eq!(file.frames.len(), 1);
    assert!(file.little_endian);
    assert_eq!(
        file.frames[0],
        vec![
            RawSample::Signed(1),
            RawSample::Signed(-2),
            RawSample::Signed(300),
            RawSample::Signed(-32768),
            RawSample::Signed(32767),
        ]
    );
}

#[test]
fn versions_1_and_2_have_shorter_headers() {
    for (version, len) in [(1u8, 820usize), (2, 822), (3, 838)] {
        let mut layout = int16_file();
        layout.version = version;
        let bytes = build(&layout);
        assert_eq!(bytes.len(), len + 10);
        let file = decode_tek_wfm(bytes).unwrap();
        let expected = match version {
            1 => WfmVersion::V1,
            2 => WfmVersion::V2,
            _ => WfmVersion::V3,
        };
        assert_eq!(file.header.version, expected);
        assert_eq!(file.header.curve_buffer_offset, len);
        assert_eq!(f64::from_bits(file.header.voltage_scale_bits), 2.0);
        assert_eq!(f64::from_bits(file.header.time_scale_bits), 1e-8);
        assert_eq!(file.frames[0].len(), 5);
        assert_eq!(file.frames[0][2], RawSample::Signed(300));
    }
}

#[test]
fn high_byte_first_file() {
    let mut layout = int16_file();
    layout.little = false;
    layout.curve = vec![0x01, 0x02, 0xff, 0xfe];
    layout.frames = vec![(0, 4, 4)];
    let file = decode_tek_wfm(build(&layout)).unwrap();
    assert!(!file.little_endian);
    assert!(!file.header.little_endian);
    assert_eq!(file.header.curve_buffer_offset, 838);
    assert_eq!(file.frames[0], vec![RawSample::Signed(0x0102), RawSample::Signed(-2)]);
}

#[test]
fn fast_frame_file_gives_one_trace_per_frame() {
    // Three frames of 8 bytes each; the points of a frame start 2 bytes into
    // its part of the buffer and end after 6.
    let layout = Layout {
        version: 2,
        little: true,
        code: 6,
        bytes_per_point: 1,
        frames: vec![(2, 6, 8), (2, 6, 8), (1, 4, 8)],
        curve: (0u8..24).collect(),
    };
    let bytes = build(&layout);
    assert_eq!(bytes.len(), 822 + 108 + 24);
    let file = decode_tek_wfm(bytes).unwrap();
    assert_eq!(file.header.format, ExplicitFormat::Uint8);
    assert_eq!(file.header.frame_count(), 3);
    assert_eq!(file.frames.len(), 3);
    let values = |frame: &Vec<RawSample>| -> Vec<u64> {
        frame
            .iter()
            .map(|s| match s {
                RawSample::Unsigned(v) => *v,
                _ => panic!("unsigned points"),
            })
            .collect()
    };
    assert_eq!(values(&file.frames[0]), vec![2, 3, 4, 5]);
    assert_eq!(values(&file.frames[1]), vec![10, 11, 12, 13]);
    assert_eq!(values(&file.frames[2]), vec![17, 18, 19]);
}

#[test]
fn points_of_several_bytes_leave_a_rest_out() {
    let mut layout = int16_file();
    layout.code = 1;
    layout.bytes_per_point = 4;
    layout.curve = vec![1, 0, 0, 0, 0xff, 0xff, 0xff, 0xff, 9, 9];
    layout.frames = vec![(0, 10, 10)];
    let file = decode_tek_wfm(build(&layout)).unwrap();
    assert_eq!(file.header.format, ExplicitFormat::Int32);
    assert_eq!(file.frames[0], vec![RawSample::Signed(1), RawSample::Signed(-1)]);
}

#[test]
fn format_codes() {
    let cases = [
        (0u32, 2u8, ExplicitFormat::Int16),
        (1, 4, ExplicitFormat::Int32),
        (2, 4, ExplicitFormat::Uint32),
        (3, 8, ExplicitFormat::Uint64),
        (4, 4, ExplicitFormat::Fp32),
        (5, 8, ExplicitFormat::Fp64),
        (6, 1, ExplicitFormat::Uint8),
        (7, 1, ExplicitFormat::Int8),
    ];
    for (code, size, format) in cases {
        let mut layout = int16_file();
        layout.code = code;
        layout.bytes_per_point = size;
        layout.curve = vec![0; 16];
        layout.frames = vec![(0, 16, 16)];
        let file = decode_tek_wfm(build(&layout)).unwrap();
        assert_eq!(file.header.format, format);
        assert_eq!(file.frames[0].len(), 16 / size as usize);
    }
}

#[test]
fn error_too_small() {
    assert_eq!(decode_tek_wfm(Vec::new()).unwrap_err(), WfmError::TooSmall);
    let mut bytes = build(&int16_file());
    bytes.truncate(77);
    assert_eq!(decode_tek_wfm(bytes).unwrap_err(), WfmError::TooSmall);
}

#[test]
fn error_invalid_byte_order() {
    let mut bytes = build(&int16_file());
    bytes[1] = 0xf0;
    assert_eq!(decode_tek_wfm(bytes).unwrap_err(), WfmError::InvalidByteOrder);
    let mut zero = build(&int16_file());
    zero[0] = 0;
    zero[1] = 0;
    assert_eq!(decode_tek_wfm(zero).unwrap_err(), WfmError::InvalidByteOrder);
}

#[test]
fn error_unsupported_version() {
    let mut bytes = build(&int16_file());
    bytes[9] = b'4';
    assert_eq!(decode_tek_wfm(bytes).unwrap_err(), WfmError::UnsupportedVersion);
    // A zero byte ends the tag before the version.
    let mut cut = build(&int16_file());
    cut[5] = 0;
    assert_eq!(decode_tek_wfm(cut).unwrap_err(), WfmError::UnsupportedVersion);
}

#[test]
fn version_tag_may_start_at_the_first_byte() {
    let mut bytes = build(&int16_file());
    bytes[2..10].copy_from_slice(b"WFM#003\0");
    assert_eq!(decode_tek_wfm(bytes).unwrap().header.version, WfmVersion::V3);
}

#[test]
fn error_truncated() {
    let mut bytes = build(&int16_file());
    bytes.truncate(837);
    assert_eq!(decode_tek_wfm(bytes).unwrap_err(), WfmError::Truncated);
    let mut short = build(&int16_file());
    short.truncate(78);
    assert_eq!(decode_tek_wfm(short).unwrap_err(), WfmError::Truncated);
    // The header announces more frames than the file holds.
    let mut more = build(&int16_file());
    more[72] = 1;
    assert_eq!(decode_tek_wfm(more).unwrap_err(), WfmError::Truncated);
    let mut many = build(&int16_file());
    many[72..76].copy_from_slice(&[0xff; 4]);
    assert_eq!(decode_tek_wfm(many).unwrap_err(), WfmError::Truncated);
}

#[test]
fn error_unsupported_format() {
    let mut layout = int16_file();
    layout.code = 8;
    assert_eq!(decode_tek_wfm(build(&layout)).unwrap_err(), WfmError::UnsupportedFormat);
    // The formats of one byte do not exist in version 1.
    for code in [6, 7] {
        let mut old = int16_file();
        old.version = 1;
        old.code = code;
        old.bytes_per_point = 1;
        assert_eq!(decode_tek_wfm(build(&old)).unwrap_err(), WfmError::UnsupportedFormat);
    }
}

#[test]
fn error_bytes_per_point_mismatch() {
    let mut layout = int16_file();
    layout.bytes_per_point = 4;
    assert_eq!(decode_tek_wfm(build(&layout)).unwrap_err(), WfmError::BytesPerPointMismatch);
}

#[test]
fn error_frame_out_of_bounds() {
    let mut past = int16_file();
    past.frames = vec![(0, 12, 12)];
    assert_eq!(decode_tek_wfm(build(&past)).unwrap_err(), WfmError::FrameOutOfBounds);
    let mut backwards = int16_file();
    backwards.frames = vec![(6, 4, 10)];
    assert_eq!(decode_tek_wfm(build(&backwards)).unwrap_err(), WfmError::FrameOutOfBounds);
    // The second frame lies after the end of the file.
    let mut second = int16_file();
    second.frames = vec![(0, 10, 10), (0, 10, 10)];
    assert_eq!(decode_tek_wfm(build(&second)).unwrap_err(), WfmError::FrameOutOfBounds);
}

#[test]
fn header_errors_come_in_the_order_of_the_fields() {
    // Both the byte order and the version are wrong: the byte order is
    // reported. Both the format and the length are wrong: the length is.
    let mut bytes = build(&int16_file());
    bytes[0] = 1;
    bytes[9] = b'9';
    assert_eq!(decode_tek_wfm(bytes).unwrap_err(), WfmError::InvalidByteOrder);
    let mut layout = int16_file();
    layout.code = 99;
    let mut cut = build(&layout);
    cut.truncate(800);
    assert_eq!(decode_tek_wfm(cut).unwrap_err(), WfmError::Truncated);
    let mut both = int16_file();
    both.code = 99;
    both.bytes_per_point = 3;
    assert_eq!(decode_tek_wfm(build(&both)).unwrap_err(), WfmError::UnsupportedFormat);
}

#[test]
fn an_empty_frame_gives_an_empty_trace() {
    let mut layout = int16_file();
    layout.frames = vec![(4, 4, 10)];
    let file = decode_tek_wfm(build(&layout)).unwrap();
    assert_eq!(file.frames, vec![Vec::<RawSample>::new()]);
    let mut p = WfmParser::new(build(&layout));
    let header = parse_header(&mut p).unwrap();
    assert_eq!(read_frame(&p, &header, 0), Ok(Vec::new()));
}
