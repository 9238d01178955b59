//! Whole-file decodes: non-record data, record data, fixed and
//! streaming record counts.

use netcdf_classic::netcdf::{NetCDFError, NetCDFOffset, NetCDFStreaming, NetCDFValue};
use netcdf_classic::reader::load;

fn push_u32(v: &mut Vec<u8>, x: u32) {
    v.extend_from_slice(&x.to_be_bytes());
}

fn push_name(v: &mut Vec<u8>, s: &str) {
    push_u32(v, s.len() as u32);
    v.extend_from_slice(s.as_bytes());
    let m = s.len() % 4;
    if m != 0 {
        for _ in 0..(4 - m) {
            v.push(0);
        }
    }
}

fn push_dim(v: &mut Vec<u8>, name: &str, len: u32) {
    push_name(v, name);
    push_u32(v, len);
}

fn push_var(v: &mut Vec<u8>, name: &str, dimids: &[u32], nc_type: u32, vsize: u32, offset: u32) {
    push_name(v, name);
    push_u32(v, dimids.len() as u32);
    for id in dimids {
        push_u32(v, *id);
    }
    push_u32(v, 0); // empty attribute list
    push_u32(v, 0);
    push_u32(v, nc_type);
    push_u32(v, vsize);
    push_u32(v, offset);
}

/// CDF-1 file with dimensions x(3) and t(unlimited), a non-record
/// Short variable over x and a record Byte variable over (t, x);
/// `numrecs` as given, then the matching data region for `nrecs`
/// records.
fn two_var_file(numrecs: u32, nrecs: usize) -> Vec<u8> {
    let mut v = vec![0x43, 0x44, 0x46, 0x01];
    push_u32(&mut v, numrecs);
    push_u32(&mut v, 0x0a); // NC_DIMENSION
    push_u32(&mut v, 2);
    push_dim(&mut v, "x", 3);
    push_dim(&mut v, "t", 0);
    push_u32(&mut v, 0); // empty global attribute list
    push_u32(&mut v, 0);
    push_u32(&mut v, 0x0b); // NC_VARIABLE
    push_u32(&mut v, 2);
    push_var(&mut v, "a", &[0], 3, 8, 32); // NCShort over x: 3*2 padded to 8
    push_var(&mut v, "b", &[1, 0], 1, 4, 40); // NCByte over (t, x): 3+1 pad
    // non-record data of "a": shorts 10, 20, 30 plus 2 fill bytes
    for x in [10u16, 20, 30] {
        v.extend_from_slice(&x.to_be_bytes());
    }
    v.extend_from_slice(&[0, 0]);
    // each record: 3 bytes of "b" plus 1 fill byte
    for r in 0..nrecs {
        v.extend_from_slice(&[r as u8, 1, 2, 0]);
    }
    v
}

#[test]
fn non_record_run_is_read_once() {
    let nc = load(two_var_file(2, 2)).unwrap();
    assert_eq!(nc.data.non_recs.len(), 1);
    assert_eq!(
        nc.data.non_recs[0].values,
        vec![
            NetCDFValue::Short(10),
            NetCDFValue::Short(20),
            NetCDFValue::Short(30)
        ]
    );
}

#[test]
fn fixed_count_reads_that_many_records() {
    let nc = load(two_var_file(2, 2)).unwrap();
    assert_eq!(nc.header.numrecs, NetCDFStreaming::Normal(2));
    assert_eq!(nc.data.recs.len(), 2);
    for (r, rec) in nc.data.recs.iter().enumerate() {
        assert_eq!(rec.record.len(), 1);
        assert_eq!(
            rec.record[0].varslab,
            vec![
                NetCDFValue::Byte(r as u8),
                NetCDFValue::Byte(1),
                NetCDFValue::Byte(2)
            ]
        );
    }
}

#[test]
fn streaming_count_is_derived_from_remaining_length() {
    // three records' worth of bytes follow; the stride is the record
    // variable's vsize, 4
    let nc = load(two_var_file(0xffff_ffff, 3)).unwrap();
    assert_eq!(nc.header.numrecs, NetCDFStreaming::Streaming);
    assert_eq!(nc.data.recs.len(), 3);
    assert_eq!(nc.num_of_records(), 0); // the header never knew a count
}

#[test]
fn offsets_decode_with_version_width() {
    let nc = load(two_var_file(2, 2)).unwrap();
    assert_eq!(nc.header.var_list[0].offset, NetCDFOffset::Pos32(32));
    assert_eq!(nc.header.var_list[1].offset, NetCDFOffset::Pos32(40));
}

#[test]
fn var_list_length_matches_declared_count() {
    let nc = load(two_var_file(2, 2)).unwrap();
    assert_eq!(nc.header.var_list.len(), 2);
    assert_eq!(nc.header.var_list[0].name, "a");
    assert_eq!(nc.header.var_list[0].dimid, vec![0]);
    assert_eq!(nc.header.var_list[1].name, "b");
    assert_eq!(nc.header.var_list[1].dimid, vec![1, 0]);
}

#[test]
fn record_data_ending_early_is_io_error() {
    // a fixed count of 2 but only one record's bytes present
    let mut v = two_var_file(2, 2);
    v.truncate(v.len() - 4);
    let e = load(v).unwrap_err();
    assert!(matches!(e, NetCDFError::IOError));
}

#[test]
fn cdf2_offsets_are_eight_bytes() {
    let mut v = vec![0x43, 0x44, 0x46, 0x02];
    push_u32(&mut v, 0); // numrecs
    push_u32(&mut v, 0x0a); // one dimension y(2)
    push_u32(&mut v, 1);
    push_dim(&mut v, "y", 2);
    push_u32(&mut v, 0); // empty global attribute list
    push_u32(&mut v, 0);
    push_u32(&mut v, 0x0b); // one non-record Int variable over y
    push_u32(&mut v, 1);
    push_name(&mut v, "v");
    push_u32(&mut v, 1);
    push_u32(&mut v, 0);
    push_u32(&mut v, 0); // empty attribute list
    push_u32(&mut v, 0);
    push_u32(&mut v, 4); // NCInt
    push_u32(&mut v, 8); // vsize
    push_u32(&mut v, 0); // offset, high half
    push_u32(&mut v, 48); // offset, low half
    push_u32(&mut v, 7); // data: 2 ints
    push_u32(&mut v, 8);
    let nc = load(v).unwrap();
    assert_eq!(nc.header.var_list[0].offset, NetCDFOffset::Pos64(48));
    assert_eq!(
        nc.data.non_recs[0].values,
        vec![NetCDFValue::Int(7), NetCDFValue::Int(8)]
    );
}

#[test]
fn element_count_is_product_of_dimension_lengths() {
    // one non-record Byte variable over (p, q) with lengths 2 and 3
    let mut v = vec![0x43, 0x44, 0x46, 0x01];
    push_u32(&mut v, 0);
    push_u32(&mut v, 0x0a);
    push_u32(&mut v, 2);
    push_dim(&mut v, "p", 2);
    push_dim(&mut v, "q", 3);
    push_u32(&mut v, 0);
    push_u32(&mut v, 0);
    push_u32(&mut v, 0x0b);
    push_u32(&mut v, 1);
    push_var(&mut v, "m", &[0, 1], 1, 8, 44); // 6 bytes padded to 8
    v.extend_from_slice(&[1, 2, 3, 4, 5, 6, 0, 0]);
    let nc = load(v).unwrap();
    assert_eq!(nc.data.non_recs[0].values.len(), 6);
    assert_eq!(nc.data.non_recs[0].values[5], NetCDFValue::Byte(6));
}

#[test]
fn no_record_variables_means_no_records_whatever_the_count() {
    // a fixed count of 5 but no record variable declared: no records
    let mut v = vec![0x43, 0x44, 0x46, 0x01];
    push_u32(&mut v, 5);
    push_u32(&mut v, 0x0a);
    push_u32(&mut v, 1);
    push_dim(&mut v, "x", 1);
    push_u32(&mut v, 0);
    push_u32(&mut v, 0);
    push_u32(&mut v, 0x0b);
    push_u32(&mut v, 1);
    push_var(&mut v, "a", &[0], 1, 4, 32); // one byte padded to 4
    v.extend_from_slice(&[9, 0, 0, 0]);
    let nc = load(v).unwrap();
    assert_eq!(nc.data.non_recs[0].values, vec![NetCDFValue::Byte(9)]);
    assert_eq!(nc.data.recs.len(), 0);
    assert_eq!(nc.num_of_records(), 5); // as read, not as resolved
}

#[test]
fn variable_own_attribute_list_decodes() {
    let mut v = vec![0x43, 0x44, 0x46, 0x01];
    push_u32(&mut v, 0);
    push_u32(&mut v, 0x0a);
    push_u32(&mut v, 1);
    push_dim(&mut v, "x", 1);
    push_u32(&mut v, 0);
    push_u32(&mut v, 0);
    push_u32(&mut v, 0x0b);
    push_u32(&mut v, 1);
    // one variable carrying one attribute of its own
    push_name(&mut v, "a");
    push_u32(&mut v, 1); // one dimension id
    push_u32(&mut v, 0);
    push_u32(&mut v, 0x0c); // its attribute list
    push_u32(&mut v, 1);
    push_name(&mut v, "units");
    push_u32(&mut v, 4); // NCInt
    push_u32(&mut v, 1);
    push_u32(&mut v, 42);
    push_u32(&mut v, 4); // NCInt element type of the variable
    push_u32(&mut v, 4); // vsize
    push_u32(&mut v, 60); // offset
    push_u32(&mut v, 11); // data: one int
    let nc = load(v).unwrap();
    let var = &nc.header.var_list[0];
    assert_eq!(var.att_list.len(), 1);
    assert_eq!(var.att_list[0].name, "units");
    assert_eq!(var.att_list[0].values, vec![NetCDFValue::Int(42)]);
    assert_eq!(nc.data.non_recs[0].values, vec![NetCDFValue::Int(11)]);
}

#[test]
fn dimension_id_out_of_range_reads_nothing() {
    // the sole variable names a dimension that does not exist; its
    // element count is taken as 0 and no data bytes are consumed
    let mut v = vec![0x43, 0x44, 0x46, 0x01];
    push_u32(&mut v, 0);
    push_u32(&mut v, 0);
    push_u32(&mut v, 0);
    push_u32(&mut v, 0);
    push_u32(&mut v, 0);
    push_u32(&mut v, 0x0b);
    push_u32(&mut v, 1);
    push_var(&mut v, "ghostly", &[5], 1, 0, 32);
    let nc = load(v).unwrap();
    assert_eq!(nc.data.non_recs.len(), 1);
    assert_eq!(nc.data.non_recs[0].values.len(), 0);
}

#[test]
fn global_attribute_values_decode() {
    let mut v = vec![0x43, 0x44, 0x46, 0x01];
    push_u32(&mut v, 0);
    push_u32(&mut v, 0); // empty dim list
    push_u32(&mut v, 0);
    push_u32(&mut v, 0x0c); // NC_ATTRIBUTE
    push_u32(&mut v, 1);
    push_name(&mut v, "title");
    push_u32(&mut v, 2); // NCChar
    push_u32(&mut v, 3); // three chars plus one fill byte
    v.extend_from_slice(&[b'a', b'b', b'c', 0]);
    push_u32(&mut v, 0); // empty var list
    push_u32(&mut v, 0);
    let nc = load(v).unwrap();
    assert_eq!(nc.header.att_list.len(), 1);
    assert_eq!(nc.header.att_list[0].name, "title");
    assert_eq!(
        nc.header.att_list[0].values,
        vec![
            NetCDFValue::Char('a'),
            NetCDFValue::Char('b'),
            NetCDFValue::Char('c')
        ]
    );
}
