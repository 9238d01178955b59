//! The executable decoders. Each one is proved to return exactly what
//! the spec grammar in [`crate::grammar`] assigns to the bytes at the
//! cursor: on success the decoded value (through its view) and the new
//! position, on failure the owed error and the position the cursor is
//! left at, with the buffer never changed.

use vstd::prelude::*;
use vstd::utf8::{decode_utf8, valid_utf8};

use crate::cursor::ByteCursor;
use crate::grammar::{
    dim_len_at, has_record_var, is_record_var, prod_ids, sp_att_list, sp_attribute, sp_atts,
    sp_data, sp_dim_list, sp_dimension, sp_dimids, sp_dims, sp_header, sp_load, sp_name,
    sp_nc_type, sp_non_recs, sp_numrecs, sp_offset, sp_record_count, sp_records, sp_run, sp_slabs,
    sp_u32, sp_value, sp_values, sp_var_list, sp_variable, sp_vars, sp_version, sum_vsize,
    MAX_RUN, NC_ATTRIBUTE, NC_BYTE, NC_CHAR, NC_DIMENSION, NC_DOUBLE, NC_FLOAT, NC_INT, NC_SHORT,
    NC_VARIABLE, STREAMING, VERSION1, VERSION2, VERSION4,
};
use crate::netcdf::{
    atts_view, dims_view, recs_view, slabs_view, var_data_view, vars_view, AttView, DimView,
    ErrView, NetCDF, NetCDFAttribute, NetCDFData, NetCDFDimension, NetCDFError, NetCDFHeader,
    NetCDFOffset, NetCDFRecord, NetCDFStreaming, NetCDFType, NetCDFValue, NetCDFVarData,
    NetCDFVarSlab, NetCDFVariable, NetCDFVersion, VarView,
};

verus! {

/// Relies on `String::from_utf8`: it succeeds exactly when the bytes
/// are valid UTF-8, returning the string those bytes encode (vstd's
/// `decode_utf8` of them), and on failure `FromUtf8Error::into_bytes`
/// returns the input bytes unchanged.
#[verifier::external_body]
fn utf8_to_string(bytes: Vec<u8>) -> (r: Result<String, Vec<u8>>)
    ensures
        (match r {
            Ok(s) => valid_utf8(bytes@) && s@ == decode_utf8(bytes@),
            Err(b) => !valid_utf8(bytes@) && b@ == bytes@,
        }),
{
    match String::from_utf8(bytes) {
        Ok(s) => Ok(s),
        Err(e) => Err(e.into_bytes()),
    }
}

/// The 4-byte magic: one of the two classic markers, the HDF5-family
/// magic, or `UnknownVersion` carrying the tag.
pub fn read_version(c: &mut ByteCursor) -> (r: Result<NetCDFVersion, NetCDFError>)
    requires
        old(c).wf(),
    ensures
        final(c).wf(),
        final(c).data@ == old(c).data@,
        (match sp_version(old(c).data@, old(c).pos as int) {
            Ok((v, p)) => r matches Ok(got) && got == v && final(c).pos == p,
            Err((e, ep)) => r matches Err(err) && err@ == e && final(c).pos == ep,
        }),
{
    let tag = match c.read_u32() {
        Ok(v) => v,
        Err(e) => {
            return Err(e);
        },
    };
    if tag == VERSION1 {
        Ok(NetCDFVersion::CDF01)
    } else if tag == VERSION2 {
        Ok(NetCDFVersion::CDF02)
    } else if tag == VERSION4 {
        Ok(NetCDFVersion::HDF5)
    } else {
        Err(NetCDFError::UnknownVersion(tag))
    }
}

/// The header's record count: the all-ones sentinel or a fixed count.
pub fn read_numrecs(c: &mut ByteCursor) -> (r: Result<NetCDFStreaming, NetCDFError>)
    requires
        old(c).wf(),
    ensures
        final(c).wf(),
        final(c).data@ == old(c).data@,
        (match sp_numrecs(old(c).data@, old(c).pos as int) {
            Ok((v, p)) => r matches Ok(got) && got == v && final(c).pos == p,
            Err((e, ep)) => r matches Err(err) && err@ == e && final(c).pos == ep,
        }),
{
    let v = match c.read_u32() {
        Ok(v) => v,
        Err(e) => {
            return Err(e);
        },
    };
    if v == STREAMING {
        Ok(NetCDFStreaming::Streaming)
    } else {
        Ok(NetCDFStreaming::Normal(v))
    }
}

/// A 4-byte big-endian count, as every list and value run declares one.
pub fn read_number_of_elements(c: &mut ByteCursor) -> (r: Result<u32, NetCDFError>)
    requires
        old(c).wf(),
    ensures
        final(c).wf(),
        final(c).data@ == old(c).data@,
        (match sp_u32(old(c).data@, old(c).pos as int) {
            Ok((v, p)) => r matches Ok(got) && got == v && final(c).pos == p,
            Err((e, ep)) => r matches Err(err) && err@ == e && final(c).pos == ep,
        }),
{
    c.read_u32()
}

/// An element type tag, or `NCType` carrying an unknown one.
pub fn read_nc_type(c: &mut ByteCursor) -> (r: Result<NetCDFType, NetCDFError>)
    requires
        old(c).wf(),
    ensures
        final(c).wf(),
        final(c).data@ == old(c).data@,
        (match sp_nc_type(old(c).data@, old(c).pos as int) {
            Ok((t, p)) => r matches Ok(got) && got == t && final(c).pos == p,
            Err((e, ep)) => r matches Err(err) && err@ == e && final(c).pos == ep,
        }),
{
    let tag = match c.read_u32() {
        Ok(v) => v,
        Err(e) => {
            return Err(e);
        },
    };
    if tag == NC_BYTE {
        Ok(NetCDFType::NCByte)
    } else if tag == NC_CHAR {
        Ok(NetCDFType::NCChar)
    } else if tag == NC_SHORT {
        Ok(NetCDFType::NCShort)
    } else if tag == NC_INT {
        Ok(NetCDFType::NCInt)
    } else if tag == NC_FLOAT {
        Ok(NetCDFType::NCFloat)
    } else if tag == NC_DOUBLE {
        Ok(NetCDFType::NCDouble)
    } else {
        Err(NetCDFError::NCType(tag))
    }
}

/// A name: length, UTF-8 bytes, then the fill bytes to the next 4-byte
/// boundary. Invalid UTF-8 fails with the raw bytes.
pub fn read_name(c: &mut ByteCursor) -> (r: Result<String, NetCDFError>)
    requires
        old(c).wf(),
    ensures
        final(c).wf(),
        final(c).data@ == old(c).data@,
        (match sp_name(old(c).data@, old(c).pos as int) {
            Ok((chars, p)) => r matches Ok(s) && s@ == chars && final(c).pos == p,
            Err((e, ep)) => r matches Err(err) && err@ == e && final(c).pos == ep,
        }),
{
    let len = match c.read_u32() {
        Ok(v) => v,
        Err(e) => {
            return Err(e);
        },
    };
    let bytes = match c.read_bytes(len as usize) {
        Ok(v) => v,
        Err(e) => {
            return Err(e);
        },
    };
    let name = match utf8_to_string(bytes) {
        Ok(s) => s,
        Err(raw) => {
            return Err(NetCDFError::FromUtf8(raw));
        },
    };
    let m = len % 4;
    let fill: u32 = if m == 0 {
        0
    } else {
        4 - m
    };
    match c.skip(fill as usize) {
        Ok(_) => Ok(name),
        Err(e) => Err(e),
    }
}

/// A variable's offset, whose width the already-resolved version fixes;
/// the HDF5 variant has no offsets and is a defensive error.
pub fn read_offset(c: &mut ByteCursor, version: &NetCDFVersion) -> (r: Result<
    NetCDFOffset,
    NetCDFError,
>)
    requires
        old(c).wf(),
    ensures
        final(c).wf(),
        final(c).data@ == old(c).data@,
        (match sp_offset(old(c).data@, old(c).pos as int, *version) {
            Ok((off, p)) => r matches Ok(got) && got == off && final(c).pos == p,
            Err((e, ep)) => r matches Err(err) && err@ == e && final(c).pos == ep,
        }),
{
    match version {
        NetCDFVersion::CDF01 => {
            match c.read_u32() {
                Ok(v) => Ok(NetCDFOffset::Pos32(v)),
                Err(e) => Err(e),
            }
        },
        NetCDFVersion::CDF02 => {
            match c.read_u64() {
                Ok(v) => Ok(NetCDFOffset::Pos64(v)),
                Err(e) => Err(e),
            }
        },
        NetCDFVersion::HDF5 => Err(NetCDFError::UnknownOffsetVersion),
    }
}

/// One element of kind `t`, read big-endian.
fn read_one_value(c: &mut ByteCursor, t: NetCDFType) -> (r: Result<NetCDFValue, NetCDFError>)
    requires
        old(c).wf(),
    ensures
        final(c).wf(),
        final(c).data@ == old(c).data@,
        (match sp_value(old(c).data@, old(c).pos as int, t) {
            Ok((v, p)) => r matches Ok(got) && got == v && final(c).pos == p,
            Err((e, ep)) => r matches Err(err) && err@ == e && final(c).pos == ep,
        }),
{
    match t {
        NetCDFType::NCByte => {
            match c.read_u8() {
                Ok(b) => Ok(NetCDFValue::Byte(b)),
                Err(e) => Err(e),
            }
        },
        NetCDFType::NCChar => {
            match c.read_u8() {
                Ok(b) => Ok(NetCDFValue::Char(b as char)),
                Err(e) => Err(e),
            }
        },
        NetCDFType::NCShort => {
            match c.read_u16() {
                Ok(v) => Ok(NetCDFValue::Short(v as i16)),
                Err(e) => Err(e),
            }
        },
        NetCDFType::NCInt => {
            match c.read_u32() {
                Ok(v) => Ok(NetCDFValue::Int(v as i32)),
                Err(e) => Err(e),
            }
        },
        NetCDFType::NCFloat => {
            match c.read_u32() {
                Ok(v) => Ok(NetCDFValue::Float(v)),
                Err(e) => Err(e),
            }
        },
        NetCDFType::NCDouble => {
            match c.read_u64() {
                Ok(v) => Ok(NetCDFValue::Double(v)),
                Err(e) => Err(e),
            }
        },
    }
}

/// A homogeneous run of `nvals` elements of kind `nc_type`, including
/// the fill bytes that bring the payload to a 4-byte boundary.
pub fn read_values(c: &mut ByteCursor, nc_type: NetCDFType, nvals: u32) -> (r: Result<
    Vec<NetCDFValue>,
    NetCDFError,
>)
    requires
        old(c).wf(),
    ensures
        final(c).wf(),
        final(c).data@ == old(c).data@,
        (match sp_run(old(c).data@, old(c).pos as int, nc_type, nvals as nat) {
            Ok((vs, p)) => r matches Ok(v) && v@ == vs && final(c).pos == p,
            Err((e, ep)) => r matches Err(err) && err@ == e && final(c).pos == ep,
        }),
{
    let ghost s = old(c).data@;
    let ghost pos0 = old(c).pos as int;
    let mut result: Vec<NetCDFValue> = Vec::new();
    let mut i: u32 = 0;
    while i < nvals
        invariant
            c.wf(),
            c.data@ == s,
            s == old(c).data@,
            pos0 == old(c).pos as int,
            i <= nvals,
            (match sp_values(s, c.pos as int, nc_type, (nvals - i) as nat) {
                Ok((rest, p)) => sp_values(s, pos0, nc_type, nvals as nat) matches Ok(all)
                    && all.0 == result@ + rest && all.1 == p,
                Err(e) => sp_values(s, pos0, nc_type, nvals as nat) == Err::<
                    (Seq<NetCDFValue>, int),
                    (ErrView, int),
                >(e),
            }),
        decreases nvals - i,
    {
        let v = match read_one_value(c, nc_type) {
            Ok(v) => v,
            Err(e) => {
                return Err(e);
            },
        };
        proof {
            match sp_values(s, c.pos as int, nc_type, (nvals - i - 1) as nat) {
                Ok((rest, p)) => {
                    assert((result@ + seq![v]) + rest =~= result@ + (seq![v] + rest));
                },
                Err(e) => {},
            }
        }
        result.push(v);
        i = i + 1;
    }
    proof {
        assert(result@ + Seq::<NetCDFValue>::empty() =~= result@);
    }
    let total: u64 = match nc_type {
        NetCDFType::NCByte => nvals as u64,
        NetCDFType::NCChar => nvals as u64,
        NetCDFType::NCShort => (nvals as u64) * 2,
        NetCDFType::NCInt => (nvals as u64) * 4,
        NetCDFType::NCFloat => (nvals as u64) * 4,
        NetCDFType::NCDouble => (nvals as u64) * 8,
    };
    let m = total % 4;
    let fill: u64 = if m == 0 {
        0
    } else {
        4 - m
    };
    match c.skip(fill as usize) {
        Ok(_) => Ok(result),
        Err(e) => Err(e),
    }
}

/// One dimension: name, then its 4-byte length.
pub fn read_dimension(c: &mut ByteCursor) -> (r: Result<NetCDFDimension, NetCDFError>)
    requires
        old(c).wf(),
    ensures
        final(c).wf(),
        final(c).data@ == old(c).data@,
        (match sp_dimension(old(c).data@, old(c).pos as int) {
            Ok((d, p)) => r matches Ok(x) && x@ == d && final(c).pos == p,
            Err((e, ep)) => r matches Err(err) && err@ == e && final(c).pos == ep,
        }),
{
    let name = match read_name(c) {
        Ok(v) => v,
        Err(e) => {
            return Err(e);
        },
    };
    let length = match read_number_of_elements(c) {
        Ok(v) => v,
        Err(e) => {
            return Err(e);
        },
    };
    Ok(NetCDFDimension { name, dim_length: length })
}

/// A variable's dimension-id list: a 4-byte count, then that many
/// 4-byte positional ids.
pub fn read_dimension_ids(c: &mut ByteCursor) -> (r: Result<Vec<u32>, NetCDFError>)
    requires
        old(c).wf(),
    ensures
        final(c).wf(),
        final(c).data@ == old(c).data@,
        (match sp_u32(old(c).data@, old(c).pos as int) {
            Ok((n, p)) => (match sp_dimids(old(c).data@, p, n as nat) {
                Ok((ids, p2)) => r matches Ok(v) && v@ == ids && final(c).pos == p2,
                Err((e, ep)) => r matches Err(err) && err@ == e && final(c).pos == ep,
            }),
            Err((e, ep)) => r matches Err(err) && err@ == e && final(c).pos == ep,
        }),
{
    let ghost s = old(c).data@;
    let nelems = match c.read_u32() {
        Ok(v) => v,
        Err(e) => {
            return Err(e);
        },
    };
    let ghost pos0 = c.pos as int;
    let mut result: Vec<u32> = Vec::new();
    let mut i: u32 = 0;
    while i < nelems
        invariant
            c.wf(),
            c.data@ == s,
            s == old(c).data@,
            sp_u32(s, old(c).pos as int) == Ok::<(u32, int), (ErrView, int)>((nelems, pos0)),
            i <= nelems,
            (match sp_dimids(s, c.pos as int, (nelems - i) as nat) {
                Ok((rest, p)) => sp_dimids(s, pos0, nelems as nat) matches Ok(all) && all.0
                    == result@ + rest && all.1 == p,
                Err(e) => sp_dimids(s, pos0, nelems as nat) == Err::<(Seq<u32>, int), (ErrView, int)>(e),
            }),
        decreases nelems - i,
    {
        let id = match c.read_u32() {
            Ok(v) => v,
            Err(e) => {
                return Err(e);
            },
        };
        proof {
            match sp_dimids(s, c.pos as int, (nelems - i - 1) as nat) {
                Ok((rest, p)) => {
                    assert((result@ + seq![id]) + rest =~= result@ + (seq![id] + rest));
                },
                Err(e) => {},
            }
        }
        result.push(id);
        i = i + 1;
    }
    proof {
        assert(result@ + Seq::<u32>::empty() =~= result@);
    }
    Ok(result)
}

/// One attribute: name, element type, element count, then its value
/// run. An unknown type tag fails before any value is read.
pub fn read_attribute(c: &mut ByteCursor) -> (r: Result<NetCDFAttribute, NetCDFError>)
    requires
        old(c).wf(),
    ensures
        final(c).wf(),
        final(c).data@ == old(c).data@,
        (match sp_attribute(old(c).data@, old(c).pos as int) {
            Ok((a, p)) => r matches Ok(x) && x@ == a && final(c).pos == p,
            Err((e, ep)) => r matches Err(err) && err@ == e && final(c).pos == ep,
        }),
{
    let name = match read_name(c) {
        Ok(v) => v,
        Err(e) => {
            return Err(e);
        },
    };
    let nc_type = match read_nc_type(c) {
        Ok(v) => v,
        Err(e) => {
            return Err(e);
        },
    };
    let nvals = match read_number_of_elements(c) {
        Ok(v) => v,
        Err(e) => {
            return Err(e);
        },
    };
    let values = match read_values(c, nc_type, nvals) {
        Ok(v) => v,
        Err(e) => {
            return Err(e);
        },
    };
    Ok(NetCDFAttribute { name, nc_type, values })
}

/// The dimension list: both tags zero means empty with nothing further
/// read; the dimension marker then a count means exactly that many
/// dimensions; anything else is `DimListTag` with both raw tags.
pub fn read_dim_list(c: &mut ByteCursor) -> (r: Result<Vec<NetCDFDimension>, NetCDFError>)
    requires
        old(c).wf(),
    ensures
        final(c).wf(),
        final(c).data@ == old(c).data@,
        (match sp_dim_list(old(c).data@, old(c).pos as int) {
            Ok((dims, p)) => r matches Ok(v) && dims_view(v@) == dims && final(c).pos == p,
            Err((e, ep)) => r matches Err(err) && err@ == e && final(c).pos == ep,
        }),
{
    let ghost s = old(c).data@;
    let t1 = match c.read_u32() {
        Ok(v) => v,
        Err(e) => {
            return Err(e);
        },
    };
    let t2 = match c.read_u32() {
        Ok(v) => v,
        Err(e) => {
            return Err(e);
        },
    };
    if t1 == 0 && t2 == 0 {
        let result: Vec<NetCDFDimension> = Vec::new();
        proof {
            assert(dims_view(result@) =~= Seq::<DimView>::empty());
        }
        Ok(result)
    } else if t1 == NC_DIMENSION {
        let nelem = t2;
        let ghost pos0 = c.pos as int;
        let mut result: Vec<NetCDFDimension> = Vec::new();
        let mut i: u32 = 0;
        while i < nelem
            invariant
                c.wf(),
                c.data@ == s,
                s == old(c).data@,
                sp_dim_list(s, old(c).pos as int) == sp_dims(s, pos0, nelem as nat),
                i <= nelem,
                (match sp_dims(s, c.pos as int, (nelem - i) as nat) {
                    Ok((rest, p)) => sp_dims(s, pos0, nelem as nat) matches Ok(all) && all.0
                        == dims_view(result@) + rest && all.1 == p,
                    Err(e) => sp_dims(s, pos0, nelem as nat) == Err::<(Seq<DimView>, int), (ErrView, int)>(
                        e,
                    ),
                }),
            decreases nelem - i,
        {
            let d = match read_dimension(c) {
                Ok(v) => v,
                Err(e) => {
                    return Err(e);
                },
            };
            proof {
                match sp_dims(s, c.pos as int, (nelem - i - 1) as nat) {
                    Ok((rest, p)) => {
                        assert(dims_view(result@.push(d)) =~= dims_view(result@) + seq![d@]);
                        assert((dims_view(result@) + seq![d@]) + rest =~= dims_view(result@) + (
                        seq![d@] + rest));
                    },
                    Err(e) => {
                        assert(dims_view(result@.push(d)) =~= dims_view(result@) + seq![d@]);
                    },
                }
            }
            result.push(d);
            i = i + 1;
        }
        proof {
            assert(dims_view(result@) + Seq::<DimView>::empty() =~= dims_view(result@));
        }
        Ok(result)
    } else {
        Err(NetCDFError::DimListTag(t1, t2))
    }
}

/// An attribute list, used both for the global list and for each
/// variable's own list; tag handling as for the dimension list, with
/// `AttrListTag`.
pub fn read_att_list(c: &mut ByteCursor) -> (r: Result<Vec<NetCDFAttribute>, NetCDFError>)
    requires
        old(c).wf(),
    ensures
        final(c).wf(),
        final(c).data@ == old(c).data@,
        (match sp_att_list(old(c).data@, old(c).pos as int) {
            Ok((atts, p)) => r matches Ok(v) && atts_view(v@) == atts && final(c).pos == p,
            Err((e, ep)) => r matches Err(err) && err@ == e && final(c).pos == ep,
        }),
{
    let ghost s = old(c).data@;
    let t1 = match c.read_u32() {
        Ok(v) => v,
        Err(e) => {
            return Err(e);
        },
    };
    let t2 = match c.read_u32() {
        Ok(v) => v,
        Err(e) => {
            return Err(e);
        },
    };
    if t1 == 0 && t2 == 0 {
        let result: Vec<NetCDFAttribute> = Vec::new();
        proof {
            assert(atts_view(result@) =~= Seq::<AttView>::empty());
        }
        Ok(result)
    } else if t1 == NC_ATTRIBUTE {
        let nelem = t2;
        let ghost pos0 = c.pos as int;
        let mut result: Vec<NetCDFAttribute> = Vec::new();
        let mut i: u32 = 0;
        while i < nelem
            invariant
                c.wf(),
                c.data@ == s,
                s == old(c).data@,
                sp_att_list(s, old(c).pos as int) == sp_atts(s, pos0, nelem as nat),
                i <= nelem,
                (match sp_atts(s, c.pos as int, (nelem - i) as nat) {
                    Ok((rest, p)) => sp_atts(s, pos0, nelem as nat) matches Ok(all) && all.0
                        == atts_view(result@) + rest && all.1 == p,
                    Err(e) => sp_atts(s, pos0, nelem as nat) == Err::<(Seq<AttView>, int), (ErrView, int)>(
                        e,
                    ),
                }),
            decreases nelem - i,
        {
            let a = match read_attribute(c) {
                Ok(v) => v,
                Err(e) => {
                    return Err(e);
                },
            };
            proof {
                match sp_atts(s, c.pos as int, (nelem - i - 1) as nat) {
                    Ok((rest, p)) => {
                        assert(atts_view(result@.push(a)) =~= atts_view(result@) + seq![a@]);
                        assert((atts_view(result@) + seq![a@]) + rest =~= atts_view(result@) + (
                        seq![a@] + rest));
                    },
                    Err(e) => {
                        assert(atts_view(result@.push(a)) =~= atts_view(result@) + seq![a@]);
                    },
                }
            }
            result.push(a);
            i = i + 1;
        }
        proof {
            assert(atts_view(result@) + Seq::<AttView>::empty() =~= atts_view(result@));
        }
        Ok(result)
    } else {
        Err(NetCDFError::AttrListTag(t1, t2))
    }
}

/// One variable: name, dimension ids, its attribute list, element type,
/// `vsize`, then the offset whose width the version fixes.
pub fn read_variable(c: &mut ByteCursor, version: &NetCDFVersion) -> (r: Result<
    NetCDFVariable,
    NetCDFError,
>)
    requires
        old(c).wf(),
    ensures
        final(c).wf(),
        final(c).data@ == old(c).data@,
        (match sp_variable(old(c).data@, old(c).pos as int, *version) {
            Ok((v, p)) => r matches Ok(x) && x@ == v && final(c).pos == p,
            Err((e, ep)) => r matches Err(err) && err@ == e && final(c).pos == ep,
        }),
{
    let name = match read_name(c) {
        Ok(v) => v,
        Err(e) => {
            return Err(e);
        },
    };
    let dimid = match read_dimension_ids(c) {
        Ok(v) => v,
        Err(e) => {
            return Err(e);
        },
    };
    let att_list = match read_att_list(c) {
        Ok(v) => v,
        Err(e) => {
            return Err(e);
        },
    };
    let nc_type = match read_nc_type(c) {
        Ok(v) => v,
        Err(e) => {
            return Err(e);
        },
    };
    let vsize = match read_number_of_elements(c) {
        Ok(v) => v,
        Err(e) => {
            return Err(e);
        },
    };
    let offset = match read_offset(c, version) {
        Ok(v) => v,
        Err(e) => {
            return Err(e);
        },
    };
    Ok(NetCDFVariable { name, dimid, att_list, nc_type, vsize, offset })
}

/// The variable list; tag handling as for the other lists, with
/// `VarListTag` naming this list in a mismatch.
pub fn read_var_list(c: &mut ByteCursor, version: &NetCDFVersion) -> (r: Result<
    Vec<NetCDFVariable>,
    NetCDFError,
>)
    requires
        old(c).wf(),
    ensures
        final(c).wf(),
        final(c).data@ == old(c).data@,
        (match sp_var_list(old(c).data@, old(c).pos as int, *version) {
            Ok((vars, p)) => r matches Ok(v) && vars_view(v@) == vars && final(c).pos == p,
            Err((e, ep)) => r matches Err(err) && err@ == e && final(c).pos == ep,
        }),
{
    let ghost s = old(c).data@;
    let t1 = match c.read_u32() {
        Ok(v) => v,
        Err(e) => {
            return Err(e);
        },
    };
    let t2 = match c.read_u32() {
        Ok(v) => v,
        Err(e) => {
            return Err(e);
        },
    };
    if t1 == 0 && t2 == 0 {
        let result: Vec<NetCDFVariable> = Vec::new();
        proof {
            assert(vars_view(result@) =~= Seq::<VarView>::empty());
        }
        Ok(result)
    } else if t1 == NC_VARIABLE {
        let nelem = t2;
        let ghost pos0 = c.pos as int;
        let mut result: Vec<NetCDFVariable> = Vec::new();
        let mut i: u32 = 0;
        while i < nelem
            invariant
                c.wf(),
                c.data@ == s,
                s == old(c).data@,
                sp_var_list(s, old(c).pos as int, *version) == sp_vars(
                    s,
                    pos0,
                    nelem as nat,
                    *version,
                ),
                i <= nelem,
                (match sp_vars(s, c.pos as int, (nelem - i) as nat, *version) {
                    Ok((rest, p)) => sp_vars(s, pos0, nelem as nat, *version) matches Ok(all)
                        && all.0 == vars_view(result@) + rest && all.1 == p,
                    Err(e) => sp_vars(s, pos0, nelem as nat, *version) == Err::<
                        (Seq<VarView>, int),
                        (ErrView, int),
                    >(e),
                }),
            decreases nelem - i,
        {
            let x = match read_variable(c, version) {
                Ok(v) => v,
                Err(e) => {
                    return Err(e);
                },
            };
            proof {
                match sp_vars(s, c.pos as int, (nelem - i - 1) as nat, *version) {
                    Ok((rest, p)) => {
                        assert(vars_view(result@.push(x)) =~= vars_view(result@) + seq![x@]);
                        assert((vars_view(result@) + seq![x@]) + rest =~= vars_view(result@) + (
                        seq![x@] + rest));
                    },
                    Err(e) => {
                        assert(vars_view(result@.push(x)) =~= vars_view(result@) + seq![x@]);
                    },
                }
            }
            result.push(x);
            i = i + 1;
        }
        proof {
            assert(vars_view(result@) + Seq::<VarView>::empty() =~= vars_view(result@));
        }
        Ok(result)
    } else {
        Err(NetCDFError::VarListTag(t1, t2))
    }
}

/// The whole header, read in a strict sequence with no backtracking:
/// version, record count, dimension list, global attribute list,
/// variable list. The HDF5-family magic is refused distinctly, and any
/// step failing aborts the header whole — no partial header escapes.
pub fn read_header(c: &mut ByteCursor) -> (r: Result<NetCDFHeader, NetCDFError>)
    requires
        old(c).wf(),
    ensures
        final(c).wf(),
        final(c).data@ == old(c).data@,
        (match sp_header(old(c).data@, old(c).pos as int) {
            Ok((h, p)) => r matches Ok(x) && x@ == h && final(c).pos == p,
            Err((e, ep)) => r matches Err(err) && err@ == e && final(c).pos == ep,
        }),
{
    let version = match read_version(c) {
        Ok(v) => v,
        Err(e) => {
            return Err(e);
        },
    };
    match version {
        NetCDFVersion::HDF5 => Err(NetCDFError::HDF5NotSupportetYet),
        _ => {
            let numrecs = match read_numrecs(c) {
                Ok(v) => v,
                Err(e) => {
                    return Err(e);
                },
            };
            let dim_list = match read_dim_list(c) {
                Ok(v) => v,
                Err(e) => {
                    return Err(e);
                },
            };
            let att_list = match read_att_list(c) {
                Ok(v) => v,
                Err(e) => {
                    return Err(e);
                },
            };
            let var_list = match read_var_list(c, &version) {
                Ok(v) => v,
                Err(e) => {
                    return Err(e);
                },
            };
            Ok(NetCDFHeader { version, numrecs, dim_list, att_list, var_list })
        },
    }
}

/// Whether `v` is a record variable: its first dimension id names the
/// length-0 (unlimited) dimension.
fn is_record_variable(v: &NetCDFVariable, dims: &Vec<NetCDFDimension>) -> (r: bool)
    ensures
        r == is_record_var(v@, dims_view(dims@)),
{
    if v.dimid.len() > 0 {
        let id = v.dimid[0];
        (id as usize) < dims.len() && dims[id as usize].dim_length == 0
    } else {
        false
    }
}

/// The product of the referenced dimension lengths from index `start`
/// on, or `None` when it exceeds the largest run the format's 32-bit
/// sizes can describe. An id pointing outside the dimension list
/// contributes length 0.
fn nvals_from(ids: &Vec<u32>, start: usize, dims: &Vec<NetCDFDimension>) -> (r: Option<u32>)
    requires
        start <= ids@.len(),
    ensures
        (match r {
            Some(n) => n as nat == prod_ids(ids@, dims_view(dims@), start as int),
            None => prod_ids(ids@, dims_view(dims@), start as int) > MAX_RUN,
        }),
{
    let ghost idsv = ids@;
    let ghost dimsv = dims_view(dims@);
    let mut acc: u64 = 1;
    let mut big: bool = false;
    let ghost mut exact: nat = 1nat;
    let mut i: usize = start;
    while i < ids.len()
        invariant
            start <= i <= idsv.len(),
            idsv == ids@,
            dimsv == dims_view(dims@),
            prod_ids(idsv, dimsv, start as int) == exact * prod_ids(idsv, dimsv, i as int),
            big ==> exact > MAX_RUN,
            !big ==> acc as nat == exact && acc <= MAX_RUN,
        decreases idsv.len() - i,
    {
        let id = ids[i];
        let l: u32 = if (id as usize) < dims.len() {
            dims[id as usize].dim_length
        } else {
            0
        };
        proof {
            assert(l as nat == dim_len_at(id, dimsv));
            assert(prod_ids(idsv, dimsv, i as int) == dim_len_at(id, dimsv) * prod_ids(
                idsv,
                dimsv,
                i as int + 1,
            ));
        }
        if l == 0 {
            proof {
                assert(dim_len_at(id, dimsv) * prod_ids(idsv, dimsv, i as int + 1) == 0)
                    by (nonlinear_arith)
                    requires
                        dim_len_at(id, dimsv) == 0nat,
                ;
                assert(exact * prod_ids(idsv, dimsv, i as int) == 0) by (nonlinear_arith)
                    requires
                        prod_ids(idsv, dimsv, i as int) == 0nat,
                ;
                assert(prod_ids(idsv, dimsv, start as int) == 0);
            }
            return Some(0);
        }
        proof {
            assert(exact * ((l as nat) * prod_ids(idsv, dimsv, i as int + 1)) == (exact * (
            l as nat)) * prod_ids(idsv, dimsv, i as int + 1)) by (nonlinear_arith);
        }
        if big {
            proof {
                assert(exact * (l as nat) >= exact) by (nonlinear_arith)
                    requires
                        l >= 1,
                        exact >= 0nat,
                ;
                exact = exact * (l as nat);
            }
        } else {
            proof {
                assert(acc * (l as u64) <= 0xffff_ffffu64 * 0xffff_ffffu64) by (nonlinear_arith)
                    requires
                        acc <= 0xffff_ffffu64,
                        l <= 0xffff_ffffu32,
                ;
            }
            let next: u64 = acc * (l as u64);
            proof {
                exact = exact * (l as nat);
            }
            if next > MAX_RUN as u64 {
                big = true;
            } else {
                acc = next;
            }
        }
        i = i + 1;
    }
    proof {
        assert(prod_ids(idsv, dimsv, i as int) == 1);
        assert(exact * 1nat == exact) by (nonlinear_arith);
    }
    if big {
        None
    } else {
        Some(acc as u32)
    }
}

/// The non-record region: one value run per non-record variable, in
/// variable-list order. The run of each is sized by the product of its
/// dimension lengths.
pub fn read_non_records(c: &mut ByteCursor, header: &NetCDFHeader) -> (r: Result<
    Vec<NetCDFVarData>,
    NetCDFError,
>)
    requires
        old(c).wf(),
    ensures
        final(c).wf(),
        final(c).data@ == old(c).data@,
        (match sp_non_recs(old(c).data@, old(c).pos as int, header@.var_list, header@.dim_list, 0) {
            Ok((runs, p)) => r matches Ok(v) && var_data_view(v@) == runs && final(c).pos == p,
            Err((e, ep)) => r matches Err(err) && err@ == e && final(c).pos == ep,
        }),
{
    let ghost s = old(c).data@;
    let ghost pos0 = old(c).pos as int;
    let ghost vars = header@.var_list;
    let ghost dims = header@.dim_list;
    let mut result: Vec<NetCDFVarData> = Vec::new();
    let mut i: usize = 0;
    while i < header.var_list.len()
        invariant
            c.wf(),
            c.data@ == s,
            s == old(c).data@,
            pos0 == old(c).pos as int,
            vars == header@.var_list,
            dims == header@.dim_list,
            i <= vars.len(),
            (match sp_non_recs(s, c.pos as int, vars, dims, i as int) {
                Ok((rest, p)) => sp_non_recs(s, pos0, vars, dims, 0) matches Ok(all) && all.0
                    == var_data_view(result@) + rest && all.1 == p,
                Err(e) => sp_non_recs(s, pos0, vars, dims, 0) == Err::<
                    (Seq<Seq<NetCDFValue>>, int),
                    (ErrView, int),
                >(e),
            }),
        decreases vars.len() - i,
    {
        let v = &header.var_list[i];
        proof {
            assert(v@ == vars[i as int]);
        }
        if !is_record_variable(v, &header.dim_list) {
            let n = match nvals_from(&v.dimid, 0, &header.dim_list) {
                Some(n) => n,
                None => {
                    return Err(NetCDFError::IOError);
                },
            };
            let vals = match read_values(c, v.nc_type, n) {
                Ok(x) => x,
                Err(e) => {
                    return Err(e);
                },
            };
            proof {
                match sp_non_recs(s, c.pos as int, vars, dims, i as int + 1) {
                    Ok((rest, p)) => {
                        assert(var_data_view(result@.push(NetCDFVarData { values: vals }))
                            =~= var_data_view(result@) + seq![vals@]);
                        assert((var_data_view(result@) + seq![vals@]) + rest =~= var_data_view(
                            result@,
                        ) + (seq![vals@] + rest));
                    },
                    Err(e) => {
                        assert(var_data_view(result@.push(NetCDFVarData { values: vals }))
                            =~= var_data_view(result@) + seq![vals@]);
                    },
                }
            }
            result.push(NetCDFVarData { values: vals });
        }
        i = i + 1;
    }
    proof {
        assert(var_data_view(result@) + Seq::<Seq<NetCDFValue>>::empty() =~= var_data_view(
            result@,
        ));
    }
    Ok(result)
}

/// One logical record: one slab per record variable, in variable-list
/// order; the slab run of each is sized by the product of its dimension
/// lengths past the record dimension.
fn read_slabs(c: &mut ByteCursor, header: &NetCDFHeader) -> (r: Result<NetCDFRecord, NetCDFError>)
    requires
        old(c).wf(),
    ensures
        final(c).wf(),
        final(c).data@ == old(c).data@,
        (match sp_slabs(old(c).data@, old(c).pos as int, header@.var_list, header@.dim_list, 0) {
            Ok((slabs, p)) => r matches Ok(x) && slabs_view(x.record@) == slabs && final(c).pos
                == p,
            Err((e, ep)) => r matches Err(err) && err@ == e && final(c).pos == ep,
        }),
{
    let ghost s = old(c).data@;
    let ghost pos0 = old(c).pos as int;
    let ghost vars = header@.var_list;
    let ghost dims = header@.dim_list;
    let mut result: Vec<NetCDFVarSlab> = Vec::new();
    let mut i: usize = 0;
    while i < header.var_list.len()
        invariant
            c.wf(),
            c.data@ == s,
            s == old(c).data@,
            pos0 == old(c).pos as int,
            vars == header@.var_list,
            dims == header@.dim_list,
            i <= vars.len(),
            (match sp_slabs(s, c.pos as int, vars, dims, i as int) {
                Ok((rest, p)) => sp_slabs(s, pos0, vars, dims, 0) matches Ok(all) && all.0
                    == slabs_view(result@) + rest && all.1 == p,
                Err(e) => sp_slabs(s, pos0, vars, dims, 0) == Err::<
                    (Seq<Seq<NetCDFValue>>, int),
                    (ErrView, int),
                >(e),
            }),
        decreases vars.len() - i,
    {
        let v = &header.var_list[i];
        proof {
            assert(v@ == vars[i as int]);
        }
        if is_record_variable(v, &header.dim_list) {
            let n = match nvals_from(&v.dimid, 1, &header.dim_list) {
                Some(n) => n,
                None => {
                    return Err(NetCDFError::IOError);
                },
            };
            let vals = match read_values(c, v.nc_type, n) {
                Ok(x) => x,
                Err(e) => {
                    return Err(e);
                },
            };
            proof {
                match sp_slabs(s, c.pos as int, vars, dims, i as int + 1) {
                    Ok((rest, p)) => {
                        assert(slabs_view(result@.push(NetCDFVarSlab { varslab: vals }))
                            =~= slabs_view(result@) + seq![vals@]);
                        assert((slabs_view(result@) + seq![vals@]) + rest =~= slabs_view(result@)
                            + (seq![vals@] + rest));
                    },
                    Err(e) => {
                        assert(slabs_view(result@.push(NetCDFVarSlab { varslab: vals }))
                            =~= slabs_view(result@) + seq![vals@]);
                    },
                }
            }
            result.push(NetCDFVarSlab { varslab: vals });
        }
        i = i + 1;
    }
    proof {
        assert(slabs_view(result@) + Seq::<Seq<NetCDFValue>>::empty() =~= slabs_view(result@));
    }
    Ok(NetCDFRecord { record: result })
}

/// Whether any variable of the header is a record variable.
fn any_record_variable(header: &NetCDFHeader) -> (r: bool)
    ensures
        r == has_record_var(header@.var_list, header@.dim_list),
{
    let ghost vars = header@.var_list;
    let ghost dims = header@.dim_list;
    let mut i: usize = 0;
    while i < header.var_list.len()
        invariant
            vars == header@.var_list,
            dims == header@.dim_list,
            i <= vars.len(),
            forall|k: int| 0 <= k < i ==> !is_record_var(vars[k], dims),
        decreases vars.len() - i,
    {
        if is_record_variable(&header.var_list[i], &header.dim_list) {
            proof {
                assert(is_record_var(vars[i as int], dims));
            }
            return true;
        }
        i = i + 1;
    }
    false
}

/// The record stride: the sum of `vsize` over the record variables.
fn record_stride(header: &NetCDFHeader) -> (r: u128)
    ensures
        r == sum_vsize(header@.var_list, header@.dim_list, 0),
{
    let ghost vars = header@.var_list;
    let ghost dims = header@.dim_list;
    let mut acc: u128 = 0;
    let mut i: usize = 0;
    while i < header.var_list.len()
        invariant
            vars == header@.var_list,
            dims == header@.dim_list,
            i <= vars.len(),
            acc <= (i as nat) * 0xffff_ffff,
            sum_vsize(vars, dims, 0) == acc + sum_vsize(vars, dims, i as int),
        decreases vars.len() - i,
    {
        let v = &header.var_list[i];
        proof {
            assert(v@ == vars[i as int]);
            assert((i as nat) * 0xffff_ffff + 0xffff_ffff == ((i + 1) as nat) * 0xffff_ffff)
                by (nonlinear_arith);
            assert((i as nat) * 0xffff_ffff <= ((vars.len()) as nat) * 0xffff_ffff)
                by (nonlinear_arith)
                requires
                    i <= vars.len(),
            ;
        }
        if is_record_variable(v, &header.dim_list) {
            acc = acc + (v.vsize as u128);
        }
        i = i + 1;
    }
    acc
}

/// The record region: the effective record count is resolved — a fixed
/// count used directly, the streaming sentinel derived from the
/// remaining source length and the record stride — and then each record
/// is read in turn. With no record variables there are no records,
/// whatever the count says.
pub fn read_records(c: &mut ByteCursor, header: &NetCDFHeader) -> (r: Result<
    Vec<NetCDFRecord>,
    NetCDFError,
>)
    requires
        old(c).wf(),
    ensures
        final(c).wf(),
        final(c).data@ == old(c).data@,
        (match sp_records(
            old(c).data@,
            old(c).pos as int,
            header@.var_list,
            header@.dim_list,
            sp_record_count(
                old(c).data@,
                old(c).pos as int,
                header@.numrecs,
                header@.var_list,
                header@.dim_list,
            ),
        ) {
            Ok((rs, p)) => r matches Ok(v) && recs_view(v@) == rs && final(c).pos == p,
            Err((e, ep)) => r matches Err(err) && err@ == e && final(c).pos == ep,
        }),
{
    let ghost s = old(c).data@;
    let ghost pos0 = old(c).pos as int;
    let ghost vars = header@.var_list;
    let ghost dims = header@.dim_list;
    let count: usize = if !any_record_variable(header) {
        0
    } else {
        match header.numrecs {
            NetCDFStreaming::Normal(n) => n as usize,
            NetCDFStreaming::Streaming => {
                let stride = record_stride(header);
                if stride == 0 {
                    0
                } else {
                    let rem = c.remaining();
                    proof {
                        assert((rem as u128) / stride <= rem as u128) by (nonlinear_arith)
                            requires
                                stride >= 1,
                        ;
                    }
                    ((rem as u128) / stride) as usize
                }
            },
        }
    };
    let ghost total = sp_record_count(s, pos0, header@.numrecs, vars, dims);
    proof {
        assert(count as nat == total);
    }
    let mut result: Vec<NetCDFRecord> = Vec::new();
    let mut i: usize = 0;
    while i < count
        invariant
            c.wf(),
            c.data@ == s,
            s == old(c).data@,
            pos0 == old(c).pos as int,
            vars == header@.var_list,
            dims == header@.dim_list,
            count as nat == sp_record_count(s, pos0, header@.numrecs, vars, dims),
            i <= count,
            (match sp_records(s, c.pos as int, vars, dims, (count - i) as nat) {
                Ok((rest, p)) => sp_records(s, pos0, vars, dims, count as nat) matches Ok(all)
                    && all.0 == recs_view(result@) + rest && all.1 == p,
                Err(e) => sp_records(s, pos0, vars, dims, count as nat) == Err::<
                    (Seq<Seq<Seq<NetCDFValue>>>, int),
                    (ErrView, int),
                >(e),
            }),
        decreases count - i,
    {
        let rec = match read_slabs(c, header) {
            Ok(x) => x,
            Err(e) => {
                return Err(e);
            },
        };
        proof {
            match sp_records(s, c.pos as int, vars, dims, (count - i - 1) as nat) {
                Ok((rest, p)) => {
                    assert(recs_view(result@.push(rec)) =~= recs_view(result@) + seq![
                        slabs_view(rec.record@),
                    ]);
                    assert((recs_view(result@) + seq![slabs_view(rec.record@)]) + rest
                        =~= recs_view(result@) + (seq![slabs_view(rec.record@)] + rest));
                },
                Err(e) => {
                    assert(recs_view(result@.push(rec)) =~= recs_view(result@) + seq![
                        slabs_view(rec.record@),
                    ]);
                },
            }
        }
        result.push(rec);
        i = i + 1;
    }
    proof {
        assert(recs_view(result@) + Seq::<Seq<Seq<NetCDFValue>>>::empty() =~= recs_view(result@));
    }
    Ok(result)
}

/// The data section: the non-record region once, then one record per
/// resolved record index.
pub fn read_data(c: &mut ByteCursor, header: &NetCDFHeader) -> (r: Result<
    NetCDFData,
    NetCDFError,
>)
    requires
        old(c).wf(),
    ensures
        final(c).wf(),
        final(c).data@ == old(c).data@,
        (match sp_data(old(c).data@, old(c).pos as int, header@) {
            Ok((d, p)) => r matches Ok(x) && x@ == d && final(c).pos == p,
            Err((e, ep)) => r matches Err(err) && err@ == e && final(c).pos == ep,
        }),
{
    let non_recs = match read_non_records(c, header) {
        Ok(v) => v,
        Err(e) => {
            return Err(e);
        },
    };
    let recs = match read_records(c, header) {
        Ok(v) => v,
        Err(e) => {
            return Err(e);
        },
    };
    Ok(NetCDFData { non_recs, recs })
}

/// Decodes a whole classic-format file from its bytes: header, then
/// data section, all or nothing. Bytes past the data section are left
/// unread.
pub fn load(data: Vec<u8>) -> (r: Result<NetCDF, NetCDFError>)
    ensures
        (match sp_load(data@) {
            Ok(n) => r matches Ok(x) && x@ == n,
            Err((e, ep)) => r matches Err(err) && err@ == e,
        }),
{
    let mut c = ByteCursor::new(data);
    let header = match read_header(&mut c) {
        Ok(v) => v,
        Err(e) => {
            return Err(e);
        },
    };
    let d = match read_data(&mut c, &header) {
        Ok(v) => v,
        Err(e) => {
            return Err(e);
        },
    };
    Ok(NetCDF { header, data: d })
}

} // verus!
