//! The binary-layout grammar of the classic netCDF format, as spec
//! functions.
//!
//! Each `sp_*` function maps the input byte sequence and a start
//! position to either the decoded value together with the position just
//! past it, or the error the decoder owes on that input together with
//! the position the decoder stands at when it fails. The executable
//! decoders in [`crate::reader`] are proved to return exactly these
//! results. Positions are `int` so that arithmetic in the definitions is
//! unbounded; a decode starts at position 0.

use vstd::prelude::*;
use vstd::utf8::{decode_utf8, valid_utf8};

use crate::netcdf::{
    AttView, DataView, DimView, ErrView, HeaderView, NetCDFOffset, NetCDFStreaming, NetCDFType,
    NetCDFValue, NetCDFVersion, NetCDFView, VarView,
};

verus! {

/// Magic of a CDF-1 file: `43 44 46 01` read big-endian.
pub const VERSION1: u32 = 0x4344_4601;

/// Magic of a CDF-2 file: `43 44 46 02` read big-endian.
pub const VERSION2: u32 = 0x4344_4602;

/// Magic of the HDF5-based container: `89 48 44 46` read big-endian.
/// Recognized so that it can be refused distinctly, never decoded.
pub const VERSION4: u32 = 0x8948_4446;

/// The all-ones record-count sentinel meaning "streaming".
pub const STREAMING: u32 = 0xffff_ffff;

/// List marker announcing a dimension list.
pub const NC_DIMENSION: u32 = 0x0000_000a;

/// List marker announcing a variable list.
pub const NC_VARIABLE: u32 = 0x0000_000b;

/// List marker announcing an attribute list.
pub const NC_ATTRIBUTE: u32 = 0x0000_000c;

/// Type tags of the six element kinds.
pub const NC_BYTE: u32 = 0x0000_0001;

pub const NC_CHAR: u32 = 0x0000_0002;

pub const NC_SHORT: u32 = 0x0000_0003;

pub const NC_INT: u32 = 0x0000_0004;

pub const NC_FLOAT: u32 = 0x0000_0005;

pub const NC_DOUBLE: u32 = 0x0000_0006;

// --- primitive big-endian readers ---------------------------------------

/// The big-endian value of the 2 bytes at `pos`.
pub open spec fn be16(s: Seq<u8>, pos: int) -> u16 {
    (s[pos] * 0x100 + s[pos + 1]) as u16
}

/// The big-endian value of the 4 bytes at `pos`.
pub open spec fn be32(s: Seq<u8>, pos: int) -> u32 {
    (s[pos] * 0x100_0000 + s[pos + 1] * 0x1_0000 + s[pos + 2] * 0x100 + s[pos + 3]) as u32
}

/// The big-endian value of the 8 bytes at `pos`.
pub open spec fn be64(s: Seq<u8>, pos: int) -> u64 {
    (be32(s, pos) * 0x1_0000_0000 + be32(s, pos + 4)) as u64
}

/// How many fill bytes follow a payload of `n` bytes to reach the next
/// 4-byte boundary: 0 to 3.
pub open spec fn pad4(n: nat) -> nat {
    if n % 4 == 0 {
        0
    } else {
        (4 - n % 4) as nat
    }
}

/// The byte width of one element of kind `t`.
pub open spec fn type_width(t: NetCDFType) -> nat {
    match t {
        NetCDFType::NCByte => 1,
        NetCDFType::NCChar => 1,
        NetCDFType::NCShort => 2,
        NetCDFType::NCInt => 4,
        NetCDFType::NCFloat => 4,
        NetCDFType::NCDouble => 8,
    }
}

/// Reads one 4-byte big-endian unsigned value; the shared shape of every
/// marker, count and tag read.
pub open spec fn sp_u32(s: Seq<u8>, pos: int) -> Result<(u32, int), (ErrView, int)> {
    if 0 <= pos && pos + 4 <= s.len() {
        Ok((be32(s, pos), pos + 4))
    } else {
        Err((ErrView::IOError, pos))
    }
}

/// Reads one 8-byte big-endian unsigned value.
pub open spec fn sp_u64(s: Seq<u8>, pos: int) -> Result<(u64, int), (ErrView, int)> {
    if 0 <= pos && pos + 8 <= s.len() {
        Ok((be64(s, pos), pos + 8))
    } else {
        Err((ErrView::IOError, pos))
    }
}

// --- header pieces -------------------------------------------------------

/// The version: the magic must be one of the two classic markers or the
/// HDF5-family magic; anything else is `UnknownVersion` carrying the tag.
pub open spec fn sp_version(s: Seq<u8>, pos: int) -> Result<(NetCDFVersion, int), (ErrView, int)> {
    match sp_u32(s, pos) {
        Ok((tag, p)) => {
            if tag == VERSION1 {
                Ok((NetCDFVersion::CDF01, p))
            } else if tag == VERSION2 {
                Ok((NetCDFVersion::CDF02, p))
            } else if tag == VERSION4 {
                Ok((NetCDFVersion::HDF5, p))
            } else {
                Err((ErrView::UnknownVersion(tag), p))
            }
        },
        Err(e) => Err(e),
    }
}

/// The record count: the all-ones sentinel means streaming, any other
/// 4 bytes are a fixed big-endian count.
pub open spec fn sp_numrecs(s: Seq<u8>, pos: int) -> Result<(NetCDFStreaming, int), (ErrView, int)> {
    match sp_u32(s, pos) {
        Ok((v, p)) => {
            if v == STREAMING {
                Ok((NetCDFStreaming::Streaming, p))
            } else {
                Ok((NetCDFStreaming::Normal(v), p))
            }
        },
        Err(e) => Err(e),
    }
}

/// A name: 4-byte big-endian length, that many bytes of UTF-8, then fill
/// bytes to the next 4-byte boundary. Invalid UTF-8 is an error carrying
/// the raw bytes, never a substitution.
pub open spec fn sp_name(s: Seq<u8>, pos: int) -> Result<(Seq<char>, int), (ErrView, int)> {
    match sp_u32(s, pos) {
        Ok((n, p)) => {
            let len = n as int;
            if p + len <= s.len() {
                let bytes = s.subrange(p, p + len);
                if valid_utf8(bytes) {
                    if p + len + pad4(n as nat) <= s.len() {
                        Ok((decode_utf8(bytes), p + len + pad4(n as nat)))
                    } else {
                        Err((ErrView::IOError, p + len))
                    }
                } else {
                    Err((ErrView::FromUtf8(bytes), p + len))
                }
            } else {
                Err((ErrView::IOError, p))
            }
        },
        Err(e) => Err(e),
    }
}

/// An element type tag: `1` to `6`, else `NCType` carrying the tag.
pub open spec fn sp_nc_type(s: Seq<u8>, pos: int) -> Result<(NetCDFType, int), (ErrView, int)> {
    match sp_u32(s, pos) {
        Ok((tag, p)) => {
            if tag == NC_BYTE {
                Ok((NetCDFType::NCByte, p))
            } else if tag == NC_CHAR {
                Ok((NetCDFType::NCChar, p))
            } else if tag == NC_SHORT {
                Ok((NetCDFType::NCShort, p))
            } else if tag == NC_INT {
                Ok((NetCDFType::NCInt, p))
            } else if tag == NC_FLOAT {
                Ok((NetCDFType::NCFloat, p))
            } else if tag == NC_DOUBLE {
                Ok((NetCDFType::NCDouble, p))
            } else {
                Err((ErrView::NCType(tag), p))
            }
        },
        Err(e) => Err(e),
    }
}

/// One element of kind `t`: its big-endian bytes, reinterpreted. A char
/// is the Latin-1 code point of its byte; floats keep their raw bits.
pub open spec fn sp_value(s: Seq<u8>, pos: int, t: NetCDFType) -> Result<(NetCDFValue, int), (ErrView, int)> {
    match t {
        NetCDFType::NCByte => {
            if 0 <= pos && pos + 1 <= s.len() {
                Ok((NetCDFValue::Byte(s[pos]), pos + 1))
            } else {
                Err((ErrView::IOError, pos))
            }
        },
        NetCDFType::NCChar => {
            if 0 <= pos && pos + 1 <= s.len() {
                Ok((NetCDFValue::Char(s[pos] as char), pos + 1))
            } else {
                Err((ErrView::IOError, pos))
            }
        },
        NetCDFType::NCShort => {
            if 0 <= pos && pos + 2 <= s.len() {
                Ok((NetCDFValue::Short(be16(s, pos) as i16), pos + 2))
            } else {
                Err((ErrView::IOError, pos))
            }
        },
        NetCDFType::NCInt => {
            match sp_u32(s, pos) {
                Ok((v, p)) => Ok((NetCDFValue::Int(v as i32), p)),
                Err(e) => Err(e),
            }
        },
        NetCDFType::NCFloat => {
            match sp_u32(s, pos) {
                Ok((v, p)) => Ok((NetCDFValue::Float(v), p)),
                Err(e) => Err(e),
            }
        },
        NetCDFType::NCDouble => {
            match sp_u64(s, pos) {
                Ok((v, p)) => Ok((NetCDFValue::Double(v), p)),
                Err(e) => Err(e),
            }
        },
    }
}

/// `n` consecutive elements of kind `t`, without the trailing padding.
pub open spec fn sp_values(s: Seq<u8>, pos: int, t: NetCDFType, n: nat) -> Result<
    (Seq<NetCDFValue>, int),
    (ErrView, int),
>
    decreases n,
{
    if n == 0 {
        Ok((Seq::<NetCDFValue>::empty(), pos))
    } else {
        match sp_value(s, pos, t) {
            Ok((v, p)) => {
                match sp_values(s, p, t, (n - 1) as nat) {
                    Ok((rest, p2)) => Ok((seq![v] + rest, p2)),
                    Err(e) => Err(e),
                }
            },
            Err(e) => Err(e),
        }
    }
}

/// A complete value run: `n` elements of kind `t` followed by the fill
/// bytes that bring the payload to a 4-byte boundary; the fill bytes
/// must be present in the source.
pub open spec fn sp_run(s: Seq<u8>, pos: int, t: NetCDFType, n: nat) -> Result<
    (Seq<NetCDFValue>, int),
    (ErrView, int),
> {
    match sp_values(s, pos, t, n) {
        Ok((vs, p)) => {
            let fill = pad4(n * type_width(t));
            if p + fill <= s.len() {
                Ok((vs, p + fill))
            } else {
                Err((ErrView::IOError, p))
            }
        },
        Err(e) => Err(e),
    }
}

// --- list elements -------------------------------------------------------

/// One dimension: name, then its 4-byte length.
pub open spec fn sp_dimension(s: Seq<u8>, pos: int) -> Result<(DimView, int), (ErrView, int)> {
    match sp_name(s, pos) {
        Ok((name, p)) => {
            match sp_u32(s, p) {
                Ok((len, p2)) => Ok((DimView { name, dim_length: len }, p2)),
                Err(e) => Err(e),
            }
        },
        Err(e) => Err(e),
    }
}

/// `n` consecutive dimensions.
pub open spec fn sp_dims(s: Seq<u8>, pos: int, n: nat) -> Result<(Seq<DimView>, int), (ErrView, int)>
    decreases n,
{
    if n == 0 {
        Ok((Seq::<DimView>::empty(), pos))
    } else {
        match sp_dimension(s, pos) {
            Ok((d, p)) => {
                match sp_dims(s, p, (n - 1) as nat) {
                    Ok((rest, p2)) => Ok((seq![d] + rest, p2)),
                    Err(e) => Err(e),
                }
            },
            Err(e) => Err(e),
        }
    }
}

/// The dimension list: two 4-byte tags; both zero means the empty list
/// with nothing further read, the dimension marker then the element
/// count means exactly that many dimensions, and anything else is a
/// `DimListTag` mismatch carrying both raw tags.
pub open spec fn sp_dim_list(s: Seq<u8>, pos: int) -> Result<(Seq<DimView>, int), (ErrView, int)> {
    match sp_u32(s, pos) {
        Ok((t1, p1)) => {
            match sp_u32(s, p1) {
                Ok((t2, p2)) => {
                    if t1 == 0 && t2 == 0 {
                        Ok((Seq::<DimView>::empty(), p2))
                    } else if t1 == NC_DIMENSION {
                        sp_dims(s, p2, t2 as nat)
                    } else {
                        Err((ErrView::DimListTag(t1, t2), p2))
                    }
                },
                Err(e) => Err(e),
            }
        },
        Err(e) => Err(e),
    }
}

/// One attribute: name, element type, 4-byte element count, value run.
/// An unknown type tag fails before any value is read.
pub open spec fn sp_attribute(s: Seq<u8>, pos: int) -> Result<(AttView, int), (ErrView, int)> {
    match sp_name(s, pos) {
        Ok((name, p)) => {
            match sp_nc_type(s, p) {
                Ok((t, p2)) => {
                    match sp_u32(s, p2) {
                        Ok((nvals, p3)) => {
                            match sp_run(s, p3, t, nvals as nat) {
                                Ok((vals, p4)) => Ok(
                                    (AttView { name, nc_type: t, values: vals }, p4),
                                ),
                                Err(e) => Err(e),
                            }
                        },
                        Err(e) => Err(e),
                    }
                },
                Err(e) => Err(e),
            }
        },
        Err(e) => Err(e),
    }
}

/// `n` consecutive attributes.
pub open spec fn sp_atts(s: Seq<u8>, pos: int, n: nat) -> Result<(Seq<AttView>, int), (ErrView, int)>
    decreases n,
{
    if n == 0 {
        Ok((Seq::<AttView>::empty(), pos))
    } else {
        match sp_attribute(s, pos) {
            Ok((a, p)) => {
                match sp_atts(s, p, (n - 1) as nat) {
                    Ok((rest, p2)) => Ok((seq![a] + rest, p2)),
                    Err(e) => Err(e),
                }
            },
            Err(e) => Err(e),
        }
    }
}

/// An attribute list, shared by the global list and each variable's own
/// list; tag handling as for the dimension list, with `AttrListTag`.
pub open spec fn sp_att_list(s: Seq<u8>, pos: int) -> Result<(Seq<AttView>, int), (ErrView, int)> {
    match sp_u32(s, pos) {
        Ok((t1, p1)) => {
            match sp_u32(s, p1) {
                Ok((t2, p2)) => {
                    if t1 == 0 && t2 == 0 {
                        Ok((Seq::<AttView>::empty(), p2))
                    } else if t1 == NC_ATTRIBUTE {
                        sp_atts(s, p2, t2 as nat)
                    } else {
                        Err((ErrView::AttrListTag(t1, t2), p2))
                    }
                },
                Err(e) => Err(e),
            }
        },
        Err(e) => Err(e),
    }
}

/// `n` consecutive 4-byte dimension ids.
pub open spec fn sp_dimids(s: Seq<u8>, pos: int, n: nat) -> Result<(Seq<u32>, int), (ErrView, int)>
    decreases n,
{
    if n == 0 {
        Ok((Seq::<u32>::empty(), pos))
    } else {
        match sp_u32(s, pos) {
            Ok((id, p)) => {
                match sp_dimids(s, p, (n - 1) as nat) {
                    Ok((rest, p2)) => Ok((seq![id] + rest, p2)),
                    Err(e) => Err(e),
                }
            },
            Err(e) => Err(e),
        }
    }
}

/// A variable's offset: 4 bytes in a CDF-1 file, 8 bytes in a CDF-2
/// file. Decoding one without a resolved classic version is a defensive
/// error and should be unreachable from [`sp_header`].
pub open spec fn sp_offset(s: Seq<u8>, pos: int, v: NetCDFVersion) -> Result<
    (NetCDFOffset, int),
    (ErrView, int),
> {
    match v {
        NetCDFVersion::CDF01 => {
            match sp_u32(s, pos) {
                Ok((off, p)) => Ok((NetCDFOffset::Pos32(off), p)),
                Err(e) => Err(e),
            }
        },
        NetCDFVersion::CDF02 => {
            match sp_u64(s, pos) {
                Ok((off, p)) => Ok((NetCDFOffset::Pos64(off), p)),
                Err(e) => Err(e),
            }
        },
        NetCDFVersion::HDF5 => Err((ErrView::UnknownOffsetVersion, pos)),
    }
}

/// One variable: name, dimension-id list (4-byte count plus ids), its
/// attribute list, element type, `vsize`, then its offset whose width
/// the version fixes.
pub open spec fn sp_variable(s: Seq<u8>, pos: int, v: NetCDFVersion) -> Result<
    (VarView, int),
    (ErrView, int),
> {
    match sp_name(s, pos) {
        Ok((name, p)) => {
            match sp_u32(s, p) {
                Ok((nids, p2)) => {
                    match sp_dimids(s, p2, nids as nat) {
                        Ok((ids, p3)) => {
                            match sp_att_list(s, p3) {
                                Ok((atts, p4)) => {
                                    match sp_nc_type(s, p4) {
                                        Ok((t, p5)) => {
                                            match sp_u32(s, p5) {
                                                Ok((vsize, p6)) => {
                                                    match sp_offset(s, p6, v) {
                                                        Ok((off, p7)) => Ok(
                                                            (
                                                                VarView {
                                                                    name,
                                                                    dimid: ids,
                                                                    att_list: atts,
                                                                    nc_type: t,
                                                                    vsize,
                                                                    offset: off,
                                                                },
                                                                p7,
                                                            ),
                                                        ),
                                                        Err(e) => Err(e),
                                                    }
                                                },
                                                Err(e) => Err(e),
                                            }
                                        },
                                        Err(e) => Err(e),
                                    }
                                },
                                Err(e) => Err(e),
                            }
                        },
                        Err(e) => Err(e),
                    }
                },
                Err(e) => Err(e),
            }
        },
        Err(e) => Err(e),
    }
}

/// `n` consecutive variables.
pub open spec fn sp_vars(s: Seq<u8>, pos: int, n: nat, v: NetCDFVersion) -> Result<
    (Seq<VarView>, int),
    (ErrView, int),
>
    decreases n,
{
    if n == 0 {
        Ok((Seq::<VarView>::empty(), pos))
    } else {
        match sp_variable(s, pos, v) {
            Ok((x, p)) => {
                match sp_vars(s, p, (n - 1) as nat, v) {
                    Ok((rest, p2)) => Ok((seq![x] + rest, p2)),
                    Err(e) => Err(e),
                }
            },
            Err(e) => Err(e),
        }
    }
}

/// The variable list; tag handling as for the other lists, with
/// `VarListTag` naming this list in a mismatch, so that a caller can
/// tell which list failed without re-parsing.
pub open spec fn sp_var_list(s: Seq<u8>, pos: int, v: NetCDFVersion) -> Result<
    (Seq<VarView>, int),
    (ErrView, int),
> {
    match sp_u32(s, pos) {
        Ok((t1, p1)) => {
            match sp_u32(s, p1) {
                Ok((t2, p2)) => {
                    if t1 == 0 && t2 == 0 {
                        Ok((Seq::<VarView>::empty(), p2))
                    } else if t1 == NC_VARIABLE {
                        sp_vars(s, p2, t2 as nat, v)
                    } else {
                        Err((ErrView::VarListTag(t1, t2), p2))
                    }
                },
                Err(e) => Err(e),
            }
        },
        Err(e) => Err(e),
    }
}

/// The whole header: version, record count, then the three lists, in a
/// strict sequence with no backtracking. The HDF5-family magic is
/// refused with its own error; any step failing fails the header whole.
pub open spec fn sp_header(s: Seq<u8>, pos: int) -> Result<(HeaderView, int), (ErrView, int)> {
    match sp_version(s, pos) {
        Ok((v, p)) => {
            if v is HDF5 {
                Err((ErrView::HDF5NotSupportetYet, p))
            } else {
                match sp_numrecs(s, p) {
                    Ok((nr, p2)) => {
                        match sp_dim_list(s, p2) {
                            Ok((dims, p3)) => {
                                match sp_att_list(s, p3) {
                                    Ok((atts, p4)) => {
                                        match sp_var_list(s, p4, v) {
                                            Ok((vars, p5)) => Ok(
                                                (
                                                    HeaderView {
                                                        version: v,
                                                        numrecs: nr,
                                                        dim_list: dims,
                                                        att_list: atts,
                                                        var_list: vars,
                                                    },
                                                    p5,
                                                ),
                                            ),
                                            Err(e) => Err(e),
                                        }
                                    },
                                    Err(e) => Err(e),
                                }
                            },
                            Err(e) => Err(e),
                        }
                    },
                    Err(e) => Err(e),
                }
            }
        },
        Err(e) => Err(e),
    }
}

// --- the data section ----------------------------------------------------

/// The length of the dimension `id` refers to, or 0 for an id that
/// points outside the dimension list (such a variable reads no bytes
/// rather than guessing).
pub open spec fn dim_len_at(id: u32, dims: Seq<DimView>) -> nat {
    if (id as int) < dims.len() {
        dims[id as int].dim_length as nat
    } else {
        0
    }
}

/// The product of the referenced dimension lengths from index `i` on.
pub open spec fn prod_ids(ids: Seq<u32>, dims: Seq<DimView>, i: int) -> nat
    decreases ids.len() - i,
{
    if 0 <= i < ids.len() {
        dim_len_at(ids[i], dims) * prod_ids(ids, dims, i + 1)
    } else {
        1
    }
}

/// A variable is a record variable exactly when its first dimension is
/// the length-0 (unlimited) dimension.
pub open spec fn is_record_var(v: VarView, dims: Seq<DimView>) -> bool {
    v.dimid.len() > 0 && (v.dimid[0] as int) < dims.len() && dims[v.dimid[0] as int].dim_length
        == 0
}

/// How many elements a non-record variable holds: the product of all its
/// dimension lengths (1 for a scalar).
pub open spec fn var_nvals(v: VarView, dims: Seq<DimView>) -> nat {
    prod_ids(v.dimid, dims, 0)
}

/// How many elements one of a record variable's slabs holds: the product
/// of its dimension lengths past the record dimension.
pub open spec fn slab_nvals(v: VarView, dims: Seq<DimView>) -> nat {
    prod_ids(v.dimid, dims, 1)
}

/// Whether any variable from index `i` on is a record variable.
pub open spec fn has_record_var(vars: Seq<VarView>, dims: Seq<DimView>) -> bool {
    exists|j: int| 0 <= j < vars.len() && is_record_var(vars[j], dims)
}

/// The record stride: the sum of `vsize` over the record variables from
/// index `i` on.
pub open spec fn sum_vsize(vars: Seq<VarView>, dims: Seq<DimView>, i: int) -> nat
    decreases vars.len() - i,
{
    if 0 <= i < vars.len() {
        (if is_record_var(vars[i], dims) {
            vars[i].vsize as nat
        } else {
            0
        }) + sum_vsize(vars, dims, i + 1)
    } else {
        0
    }
}

/// The largest element count one run may declare; a run longer than
/// this cannot be described by the format's 32-bit `vsize` and is
/// refused as a short read before any of it is consumed.
pub const MAX_RUN: u32 = 0xffff_ffff;

/// The non-record region: one value run per non-record variable, in
/// variable-list order, from index `i` on.
pub open spec fn sp_non_recs(
    s: Seq<u8>,
    pos: int,
    vars: Seq<VarView>,
    dims: Seq<DimView>,
    i: int,
) -> Result<(Seq<Seq<NetCDFValue>>, int), (ErrView, int)>
    decreases vars.len() - i,
{
    if 0 <= i < vars.len() {
        if is_record_var(vars[i], dims) {
            sp_non_recs(s, pos, vars, dims, i + 1)
        } else {
            let n = var_nvals(vars[i], dims);
            if n > MAX_RUN {
                Err((ErrView::IOError, pos))
            } else {
                match sp_run(s, pos, vars[i].nc_type, n) {
                    Ok((vals, p)) => {
                        match sp_non_recs(s, p, vars, dims, i + 1) {
                            Ok((rest, p2)) => Ok((seq![vals] + rest, p2)),
                            Err(e) => Err(e),
                        }
                    },
                    Err(e) => Err(e),
                }
            }
        }
    } else {
        Ok((Seq::<Seq<NetCDFValue>>::empty(), pos))
    }
}

/// One logical record: one slab per record variable, in variable-list
/// order, from index `i` on; the slabs of one record are contiguous.
pub open spec fn sp_slabs(
    s: Seq<u8>,
    pos: int,
    vars: Seq<VarView>,
    dims: Seq<DimView>,
    i: int,
) -> Result<(Seq<Seq<NetCDFValue>>, int), (ErrView, int)>
    decreases vars.len() - i,
{
    if 0 <= i < vars.len() {
        if !is_record_var(vars[i], dims) {
            sp_slabs(s, pos, vars, dims, i + 1)
        } else {
            let n = slab_nvals(vars[i], dims);
            if n > MAX_RUN {
                Err((ErrView::IOError, pos))
            } else {
                match sp_run(s, pos, vars[i].nc_type, n) {
                    Ok((vals, p)) => {
                        match sp_slabs(s, p, vars, dims, i + 1) {
                            Ok((rest, p2)) => Ok((seq![vals] + rest, p2)),
                            Err(e) => Err(e),
                        }
                    },
                    Err(e) => Err(e),
                }
            }
        }
    } else {
        Ok((Seq::<Seq<NetCDFValue>>::empty(), pos))
    }
}

/// `count` consecutive records.
pub open spec fn sp_records(
    s: Seq<u8>,
    pos: int,
    vars: Seq<VarView>,
    dims: Seq<DimView>,
    count: nat,
) -> Result<(Seq<Seq<Seq<NetCDFValue>>>, int), (ErrView, int)>
    decreases count,
{
    if count == 0 {
        Ok((Seq::<Seq<Seq<NetCDFValue>>>::empty(), pos))
    } else {
        match sp_slabs(s, pos, vars, dims, 0) {
            Ok((slabs, p)) => {
                match sp_records(s, p, vars, dims, (count - 1) as nat) {
                    Ok((rest, p2)) => Ok((seq![slabs] + rest, p2)),
                    Err(e) => Err(e),
                }
            },
            Err(e) => Err(e),
        }
    }
}

/// The effective record count once the non-record region has been read
/// and the position stands at `pos`: a fixed count is used directly; the
/// streaming sentinel makes the count the remaining source length
/// divided by the record stride — the one place the count is computed
/// rather than read. With no record variables there are no records
/// regardless, and a zero stride resolves to zero rather than divide.
pub open spec fn sp_record_count(
    s: Seq<u8>,
    pos: int,
    numrecs: NetCDFStreaming,
    vars: Seq<VarView>,
    dims: Seq<DimView>,
) -> nat {
    if !has_record_var(vars, dims) {
        0
    } else {
        match numrecs {
            NetCDFStreaming::Normal(n) => n as nat,
            NetCDFStreaming::Streaming => {
                let stride = sum_vsize(vars, dims, 0);
                if stride == 0 || s.len() - pos < 0 {
                    0
                } else {
                    ((s.len() - pos) as nat) / stride
                }
            },
        }
    }
}

/// The data section: the non-record region once, then one record per
/// resolved record index.
pub open spec fn sp_data(s: Seq<u8>, pos: int, h: HeaderView) -> Result<(DataView, int), (ErrView, int)> {
    match sp_non_recs(s, pos, h.var_list, h.dim_list, 0) {
        Ok((nrs, p)) => {
            let count = sp_record_count(s, p, h.numrecs, h.var_list, h.dim_list);
            match sp_records(s, p, h.var_list, h.dim_list, count) {
                Ok((rs, p2)) => Ok((DataView { non_recs: nrs, recs: rs }, p2)),
                Err(e) => Err(e),
            }
        },
        Err(e) => Err(e),
    }
}

/// A whole file: header then data section, all or nothing. Bytes past
/// the data section are not read.
pub open spec fn sp_load(s: Seq<u8>) -> Result<NetCDFView, (ErrView, int)> {
    match sp_header(s, 0) {
        Ok((h, p)) => {
            match sp_data(s, p, h) {
                Ok((d, _)) => Ok(NetCDFView { header: h, data: d }),
                Err(e) => Err(e),
            }
        },
        Err(e) => Err(e),
    }
}

} // verus!
