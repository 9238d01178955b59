//! End-to-end decoding tests over hand-built classic-format byte
//! streams.

use netcdf_classic::cursor::ByteCursor;
use netcdf_classic::netcdf::{
    NetCDFError, NetCDFOffset, NetCDFStreaming, NetCDFType, NetCDFValue, NetCDFVersion,
};
use netcdf_classic::reader::{
    load, read_dim_list, read_name, read_nc_type, read_numrecs, read_offset, read_values,
    read_version,
};

fn push_u32(v: &mut Vec<u8>, x: u32) {
    v.extend_from_slice(&x.to_be_bytes());
}

fn push_name(v: &mut Vec<u8>, s: &str) {
    push_u32(v, s.len() as u32);
    v.extend_from_slice(s.as_bytes());
    let m = s.len() % 4;
    if m != 0 {
        for _ in 0..(4 - m) {
            v.push(0);
        }
    }
}

/// Magic, a fixed record count, and three empty lists.
fn empty_file(version_byte: u8, numrecs: u32) -> Vec<u8> {
    let mut v = vec![0x43, 0x44, 0x46, version_byte];
    push_u32(&mut v, numrecs);
    for _ in 0..6 {
        push_u32(&mut v, 0);
    }
    v
}

#[test]
fn empty_file_decodes_to_empty_lists() {
    let nc = load(empty_file(1, 0)).unwrap();
    assert_eq!(nc.header.version, NetCDFVersion::CDF01);
    assert_eq!(nc.header.numrecs, NetCDFStreaming::Normal(0));
    assert_eq!(nc.header.dim_list.len(), 0);
    assert_eq!(nc.header.att_list.len(), 0);
    assert_eq!(nc.header.var_list.len(), 0);
    assert_eq!(nc.data.non_recs.len(), 0);
    assert_eq!(nc.data.recs.len(), 0);
    assert_eq!(nc.num_of_records(), 0);
    assert_eq!(nc.num_of_dimensions(), 0);
    assert_eq!(nc.num_of_attributes(), 0);
    assert_eq!(nc.num_of_variables(), 0);
}

#[test]
fn version_markers() {
    let mut c = ByteCursor::new(vec![0x43, 0x44, 0x46, 0x01]);
    assert_eq!(read_version(&mut c).unwrap(), NetCDFVersion::CDF01);
    let mut c = ByteCursor::new(vec![0x43, 0x44, 0x46, 0x02]);
    assert_eq!(read_version(&mut c).unwrap(), NetCDFVersion::CDF02);
    let mut c = ByteCursor::new(vec![0x89, 0x48, 0x44, 0x46]);
    assert_eq!(read_version(&mut c).unwrap(), NetCDFVersion::HDF5);
}

#[test]
fn unknown_version_carries_tag_after_exactly_four_bytes() {
    let mut c = ByteCursor::new(vec![0x00, 0x11, 0x22, 0x33, 0x44]);
    let e = read_version(&mut c).unwrap_err();
    assert!(matches!(e, NetCDFError::UnknownVersion(0x0011_2233)));
    assert_eq!(c.pos, 4);
}

#[test]
fn hdf5_magic_is_refused_distinctly() {
    let mut v = vec![0x89, 0x48, 0x44, 0x46];
    push_u32(&mut v, 0);
    let e = load(v).unwrap_err();
    assert!(matches!(e, NetCDFError::HDF5NotSupportetYet));
}

#[test]
fn numrecs_sentinel_and_fixed() {
    let mut c = ByteCursor::new(vec![0xff, 0xff, 0xff, 0xff]);
    assert_eq!(read_numrecs(&mut c).unwrap(), NetCDFStreaming::Streaming);
    let mut c = ByteCursor::new(vec![0x00, 0x00, 0x00, 0x07]);
    assert_eq!(read_numrecs(&mut c).unwrap(), NetCDFStreaming::Normal(7));
}

#[test]
fn dim_list_bad_tag_yields_mismatch_and_no_header() {
    // first tag neither zero nor the dimension marker
    let mut v = vec![0x43, 0x44, 0x46, 0x01];
    push_u32(&mut v, 0); // numrecs
    push_u32(&mut v, 0x99); // bad first tag
    push_u32(&mut v, 0x01); // second tag
    let e = load(v).unwrap_err();
    assert!(matches!(e, NetCDFError::DimListTag(0x99, 0x01)));
}

#[test]
fn dim_list_decodes_declared_count() {
    let mut v = Vec::new();
    push_u32(&mut v, 0x0a); // NC_DIMENSION
    push_u32(&mut v, 2);
    push_name(&mut v, "x");
    push_u32(&mut v, 5);
    push_name(&mut v, "time");
    push_u32(&mut v, 0);
    let mut c = ByteCursor::new(v);
    let dims = read_dim_list(&mut c).unwrap();
    assert_eq!(dims.len(), 2);
    assert_eq!(dims[0].name, "x");
    assert_eq!(dims[0].dim_length, 5);
    assert_eq!(dims[1].name, "time");
    assert_eq!(dims[1].dim_length, 0);
}

#[test]
fn name_with_invalid_utf8_fails_with_raw_bytes() {
    let mut v = Vec::new();
    push_u32(&mut v, 2);
    v.extend_from_slice(&[0xff, 0xfe, 0x00, 0x00]);
    let mut c = ByteCursor::new(v);
    let e = read_name(&mut c).unwrap_err();
    match e {
        NetCDFError::FromUtf8(raw) => assert_eq!(raw, vec![0xff, 0xfe]),
        other => panic!("wrong error: {:?}", other),
    }
    assert_eq!(c.pos, 6); // the length and the name bytes, not the fill
}

#[test]
fn name_read_consumes_its_padding() {
    // a 5-byte name is followed by 3 fill bytes
    let mut v = Vec::new();
    push_name(&mut v, "hello");
    assert_eq!(v.len(), 12);
    let mut c = ByteCursor::new(v);
    let s = read_name(&mut c).unwrap();
    assert_eq!(s, "hello");
    assert_eq!(c.pos, 12);
}

#[test]
fn empty_name_reads_only_its_length() {
    let mut c = ByteCursor::new(vec![0, 0, 0, 0]);
    let s = read_name(&mut c).unwrap();
    assert_eq!(s, "");
    assert_eq!(c.pos, 4);
}

#[test]
fn unknown_type_tag_carries_tag_after_exactly_four_bytes() {
    let mut c = ByteCursor::new(vec![0x00, 0x00, 0x00, 0x07, 0xaa]);
    let e = read_nc_type(&mut c).unwrap_err();
    assert!(matches!(e, NetCDFError::NCType(7)));
    assert_eq!(c.pos, 4);
}

#[test]
fn attribute_with_unknown_type_fails_before_values() {
    // header with one global attribute whose type tag is 7; no value
    // bytes follow, so reaching for them would give IOError instead
    let mut v = vec![0x43, 0x44, 0x46, 0x01];
    push_u32(&mut v, 0); // numrecs
    push_u32(&mut v, 0); // dim_list tags
    push_u32(&mut v, 0);
    push_u32(&mut v, 0x0c); // NC_ATTRIBUTE
    push_u32(&mut v, 1);
    push_name(&mut v, "a");
    push_u32(&mut v, 7); // unknown type tag
    let e = load(v).unwrap_err();
    assert!(matches!(e, NetCDFError::NCType(7)));
}

#[test]
fn byte_run_consumes_whole_words() {
    // 5 bytes of payload are followed by 3 fill bytes
    let mut c = ByteCursor::new(vec![1, 2, 3, 4, 5, 0, 0, 0]);
    let vals = read_values(&mut c, NetCDFType::NCByte, 5).unwrap();
    assert_eq!(vals.len(), 5);
    assert_eq!(c.pos, 8);
    assert_eq!(vals[0], NetCDFValue::Byte(1));
    assert_eq!(vals[4], NetCDFValue::Byte(5));
}

#[test]
fn short_run_pads_only_odd_counts() {
    let mut c = ByteCursor::new(vec![0xff, 0xfe, 0, 0]);
    let vals = read_values(&mut c, NetCDFType::NCShort, 1).unwrap();
    assert_eq!(vals, vec![NetCDFValue::Short(-2)]);
    assert_eq!(c.pos, 4);
    let mut c = ByteCursor::new(vec![0x00, 0x01, 0x00, 0x02]);
    let vals = read_values(&mut c, NetCDFType::NCShort, 2).unwrap();
    assert_eq!(vals, vec![NetCDFValue::Short(1), NetCDFValue::Short(2)]);
    assert_eq!(c.pos, 4);
}

#[test]
fn char_run_is_latin1() {
    let mut c = ByteCursor::new(vec![b'h', b'i', 0xe9, 0x00]);
    let vals = read_values(&mut c, NetCDFType::NCChar, 3).unwrap();
    assert_eq!(
        vals,
        vec![
            NetCDFValue::Char('h'),
            NetCDFValue::Char('i'),
            NetCDFValue::Char('\u{e9}')
        ]
    );
    assert_eq!(c.pos, 4);
}

#[test]
fn int_and_float_runs_have_no_padding() {
    let mut c = ByteCursor::new(vec![0xff, 0xff, 0xff, 0xff]);
    let vals = read_values(&mut c, NetCDFType::NCInt, 1).unwrap();
    assert_eq!(vals, vec![NetCDFValue::Int(-1)]);
    assert_eq!(c.pos, 4);
    // 1.0f32 is 0x3f800000 big-endian; the run keeps the raw bits
    let mut c = ByteCursor::new(vec![0x3f, 0x80, 0x00, 0x00]);
    let vals = read_values(&mut c, NetCDFType::NCFloat, 1).unwrap();
    assert_eq!(vals, vec![NetCDFValue::Float(0x3f80_0000)]);
    assert_eq!(c.pos, 4);
}

#[test]
fn double_run_keeps_raw_bits() {
    // 1.5f64 is 0x3ff8000000000000 big-endian
    let mut c = ByteCursor::new(vec![0x3f, 0xf8, 0, 0, 0, 0, 0, 0]);
    let vals = read_values(&mut c, NetCDFType::NCDouble, 1).unwrap();
    assert_eq!(vals, vec![NetCDFValue::Double(0x3ff8_0000_0000_0000)]);
    assert_eq!(c.pos, 8);
}

#[test]
fn offset_width_follows_version() {
    let mut c = ByteCursor::new(vec![0, 0, 0, 9, 0, 0, 0, 0]);
    let off = read_offset(&mut c, &NetCDFVersion::CDF01).unwrap();
    assert_eq!(off, NetCDFOffset::Pos32(9));
    assert_eq!(c.pos, 4);
    let mut c = ByteCursor::new(vec![0, 0, 0, 0, 0, 0, 0, 9]);
    let off = read_offset(&mut c, &NetCDFVersion::CDF02).unwrap();
    assert_eq!(off, NetCDFOffset::Pos64(9));
    assert_eq!(c.pos, 8);
}

#[test]
fn offset_without_classic_version_is_defensive_error() {
    let mut c = ByteCursor::new(vec![0, 0, 0, 9]);
    let e = read_offset(&mut c, &NetCDFVersion::HDF5).unwrap_err();
    assert!(matches!(e, NetCDFError::UnknownOffsetVersion));
}

#[test]
fn truncated_source_is_io_error() {
    let e = load(vec![0x43, 0x44, 0x46, 0x01, 0x00]).unwrap_err();
    assert!(matches!(e, NetCDFError::IOError));
}

#[test]
fn var_list_bad_tag_is_var_list_mismatch() {
    let mut v = vec![0x43, 0x44, 0x46, 0x01];
    push_u32(&mut v, 0); // numrecs
    for _ in 0..4 {
        push_u32(&mut v, 0); // empty dim and att lists
    }
    push_u32(&mut v, 0x77); // bad var list tag
    push_u32(&mut v, 2);
    let e = load(v).unwrap_err();
    assert!(matches!(e, NetCDFError::VarListTag(0x77, 2)));
}
