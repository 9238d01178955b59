//! Laws of the grammar, stated and proved once over the spec functions
//! that every decoder contract already speaks of: declared counts are
//! honored exactly, runs end on 4-byte boundaries, a streaming record
//! count is recovered from the file's geometry, and an offset's width is
//! fixed by the version for the whole file.

use vstd::prelude::*;

use vstd::arithmetic::div_mod::lemma_div_by_multiple;

use crate::grammar::{
    be32, pad4, sp_att_list, sp_atts, sp_attribute, sp_dim_list, sp_dims, sp_header, sp_record_count,
    sp_run, sp_u32, sp_value, sp_values, sp_var_list, sp_variable, sp_vars, sum_vsize,
    has_record_var, type_width,
};
use crate::netcdf::{DimView, NetCDFStreaming, NetCDFVersion, VarView};

verus! {

/// A run of `n` elements holds exactly `n` values and consumes exactly
/// `n` times the element width (before padding).
pub proof fn lemma_values_shape(s: Seq<u8>, pos: int, t: crate::netcdf::NetCDFType, n: nat)
    ensures
        (match sp_values(s, pos, t, n) {
            Ok((vs, p)) => vs.len() == n && p == pos + n * type_width(t),
            Err(e) => true,
        }),
    decreases n,
{
    if n > 0 {
        match sp_value(s, pos, t) {
            Ok((v, p)) => {
                lemma_values_shape(s, p, t, (n - 1) as nat);
                match sp_values(s, p, t, (n - 1) as nat) {
                    Ok((rest, p2)) => {
                        assert(p == pos + type_width(t));
                        assert(type_width(t) + (n - 1) * type_width(t) == n * type_width(t))
                            by (nonlinear_arith);
                    },
                    Err(e) => {},
                }
            },
            Err(e) => {},
        }
    }
}

/// Law: every value run — the padded form every attribute and every
/// variable's data uses — consumes a whole number of 4-byte words, so
/// in particular every Byte, Char and Short run does.
pub proof fn lemma_run_consumes_multiple_of_4(
    s: Seq<u8>,
    pos: int,
    t: crate::netcdf::NetCDFType,
    n: nat,
)
    ensures
        (match sp_run(s, pos, t, n) {
            Ok((vs, p)) => (p - pos) % 4 == 0,
            Err(e) => true,
        }),
{
    lemma_values_shape(s, pos, t, n);
    match sp_values(s, pos, t, n) {
        Ok((vs, p)) => {
            let m = n * type_width(t);
            assert((m + pad4(m)) % 4 == 0) by (nonlinear_arith);
        },
        Err(e) => {},
    }
}

/// A sequence of `n` dimensions decodes to exactly `n` of them.
pub proof fn lemma_dims_len(s: Seq<u8>, pos: int, n: nat)
    ensures
        (match sp_dims(s, pos, n) {
            Ok((dims, p)) => dims.len() == n,
            Err(e) => true,
        }),
    decreases n,
{
    if n > 0 {
        match crate::grammar::sp_dimension(s, pos) {
            Ok((d, p)) => {
                lemma_dims_len(s, p, (n - 1) as nat);
            },
            Err(e) => {},
        }
    }
}

/// A sequence of `n` attributes decodes to exactly `n` of them.
pub proof fn lemma_atts_len(s: Seq<u8>, pos: int, n: nat)
    ensures
        (match sp_atts(s, pos, n) {
            Ok((atts, p)) => atts.len() == n,
            Err(e) => true,
        }),
    decreases n,
{
    if n > 0 {
        match sp_attribute(s, pos) {
            Ok((a, p)) => {
                lemma_atts_len(s, p, (n - 1) as nat);
            },
            Err(e) => {},
        }
    }
}

/// A sequence of `n` variables decodes to exactly `n` of them.
pub proof fn lemma_vars_len(s: Seq<u8>, pos: int, n: nat, v: NetCDFVersion)
    ensures
        (match sp_vars(s, pos, n, v) {
            Ok((vars, p)) => vars.len() == n,
            Err(e) => true,
        }),
    decreases n,
{
    if n > 0 {
        match sp_variable(s, pos, v) {
            Ok((x, p)) => {
                lemma_vars_len(s, p, (n - 1) as nat, v);
            },
            Err(e) => {},
        }
    }
}

/// Law: a decoded dimension list is as long as its declared element
/// count — the second of the two 4-byte tags that open it (zero for the
/// empty form).
pub proof fn lemma_dim_list_len(s: Seq<u8>, pos: int)
    ensures
        (match sp_dim_list(s, pos) {
            Ok((dims, p)) => dims.len() == be32(s, pos + 4),
            Err(e) => true,
        }),
{
    match sp_u32(s, pos) {
        Ok((t1, p1)) => {
            match sp_u32(s, p1) {
                Ok((t2, p2)) => {
                    lemma_dims_len(s, p2, t2 as nat);
                },
                Err(e) => {},
            }
        },
        Err(e) => {},
    }
}

/// Law: a decoded attribute list is as long as its declared element
/// count.
pub proof fn lemma_att_list_len(s: Seq<u8>, pos: int)
    ensures
        (match sp_att_list(s, pos) {
            Ok((atts, p)) => atts.len() == be32(s, pos + 4),
            Err(e) => true,
        }),
{
    match sp_u32(s, pos) {
        Ok((t1, p1)) => {
            match sp_u32(s, p1) {
                Ok((t2, p2)) => {
                    lemma_atts_len(s, p2, t2 as nat);
                },
                Err(e) => {},
            }
        },
        Err(e) => {},
    }
}

/// Law: a decoded variable list is as long as its declared element
/// count.
pub proof fn lemma_var_list_len(s: Seq<u8>, pos: int, v: NetCDFVersion)
    ensures
        (match sp_var_list(s, pos, v) {
            Ok((vars, p)) => vars.len() == be32(s, pos + 4),
            Err(e) => true,
        }),
{
    match sp_u32(s, pos) {
        Ok((t1, p1)) => {
            match sp_u32(s, p1) {
                Ok((t2, p2)) => {
                    lemma_vars_len(s, p2, t2 as nat, v);
                },
                Err(e) => {},
            }
        },
        Err(e) => {},
    }
}

/// Law: an attribute's value sequence is as long as its declared
/// element count.
pub proof fn lemma_attribute_values_len(s: Seq<u8>, pos: int)
    ensures
        (match sp_attribute(s, pos) {
            Ok((a, p)) => (match crate::grammar::sp_name(s, pos) {
                Ok((name, p1)) => (match crate::grammar::sp_nc_type(s, p1) {
                    Ok((t, p2)) => a.values.len() == be32(s, p2),
                    Err(e) => true,
                }),
                Err(e) => true,
            }),
            Err(e) => true,
        }),
{
    match crate::grammar::sp_name(s, pos) {
        Ok((name, p1)) => {
            match crate::grammar::sp_nc_type(s, p1) {
                Ok((t, p2)) => {
                    match sp_u32(s, p2) {
                        Ok((nvals, p3)) => {
                            lemma_values_shape(s, p3, t, nvals as nat);
                        },
                        Err(e) => {},
                    }
                },
                Err(e) => {},
            }
        },
        Err(e) => {},
    }
}

/// A dimension-id list of `n` ids decodes to exactly `n` of them.
pub proof fn lemma_dimids_len(s: Seq<u8>, pos: int, n: nat)
    ensures
        (match crate::grammar::sp_dimids(s, pos, n) {
            Ok((ids, p)) => ids.len() == n,
            Err(e) => true,
        }),
    decreases n,
{
    if n > 0 {
        match sp_u32(s, pos) {
            Ok((id, p)) => {
                lemma_dimids_len(s, p, (n - 1) as nat);
            },
            Err(e) => {},
        }
    }
}

/// Law: an offset decodes as exactly 4 bytes under CDF-1 and exactly 8
/// bytes under CDF-2, yielding the matching position width.
pub proof fn lemma_offset_width(s: Seq<u8>, pos: int, v: NetCDFVersion)
    ensures
        (match crate::grammar::sp_offset(s, pos, v) {
            Ok((off, p)) => (v is CDF01 ==> p == pos + 4 && off is Pos32) && (v is CDF02 ==> p
                == pos + 8 && off is Pos64),
            Err(e) => true,
        }),
{
}

/// Law: a streaming file whose remaining bytes are exactly `n` records'
/// worth resolves its record count to `n`, from the remaining length and
/// the record stride alone.
pub proof fn lemma_streaming_count_resolves(
    s: Seq<u8>,
    pos: int,
    vars: Seq<VarView>,
    dims: Seq<DimView>,
    n: nat,
)
    requires
        has_record_var(vars, dims),
        sum_vsize(vars, dims, 0) > 0,
        0 <= pos,
        s.len() - pos == n * sum_vsize(vars, dims, 0),
    ensures
        sp_record_count(s, pos, NetCDFStreaming::Streaming, vars, dims) == n,
{
    let stride = sum_vsize(vars, dims, 0);
    lemma_div_by_multiple(n as int, stride as int);
    assert((n * stride) as int / (stride as int) == n);
}

/// Every variable of a well-decoded sequence carries the offset width
/// its version fixes.
pub proof fn lemma_vars_offset_width(s: Seq<u8>, pos: int, n: nat, v: NetCDFVersion)
    ensures
        (match sp_vars(s, pos, n, v) {
            Ok((vars, p)) => forall|j: int|
                0 <= j < vars.len() ==> (v is CDF01 ==> vars[j].offset is Pos32) && (v is CDF02
                    ==> vars[j].offset is Pos64),
            Err(e) => true,
        }),
    decreases n,
{
    if n > 0 {
        match sp_variable(s, pos, v) {
            Ok((x, p)) => {
                lemma_vars_offset_width(s, p, (n - 1) as nat, v);
            },
            Err(e) => {},
        }
    }
}

/// Law: within one decoded header the offset widths are never mixed — a
/// CDF-1 header decodes every variable's offset as a 4-byte position,
/// a CDF-2 header as an 8-byte one.
pub proof fn lemma_header_offsets_never_mixed(s: Seq<u8>, pos: int)
    ensures
        (match sp_header(s, pos) {
            Ok((h, p)) => forall|j: int|
                0 <= j < h.var_list.len() ==> (h.version is CDF01 ==> h.var_list[j].offset
                    is Pos32) && (h.version is CDF02 ==> h.var_list[j].offset is Pos64),
            Err(e) => true,
        }),
{
    match crate::grammar::sp_version(s, pos) {
        Ok((v, p)) => {
            if !(v is HDF5) {
                match crate::grammar::sp_numrecs(s, p) {
                    Ok((nr, p2)) => {
                        match sp_dim_list(s, p2) {
                            Ok((dims, p3)) => {
                                match sp_att_list(s, p3) {
                                    Ok((atts, p4)) => {
                                        match sp_u32(s, p4) {
                                            Ok((t1, q1)) => {
                                                match sp_u32(s, q1) {
                                                    Ok((t2, q2)) => {
                                                        lemma_vars_offset_width(
                                                            s,
                                                            q2,
                                                            t2 as nat,
                                                            v,
                                                        );
                                                    },
                                                    Err(e) => {},
                                                }
                                            },
                                            Err(e) => {},
                                        }
                                    },
                                    Err(e) => {},
                                }
                            },
                            Err(e) => {},
                        }
                    },
                    Err(e) => {},
                }
            }
        },
        Err(e) => {},
    }
}

} // verus!
