//! The decoded netCDF value tree: versions, dimensions, attributes,
//! variables, the data section, and the error taxonomy.
//!
//! Each executable type has a mathematical view (a ghost mirror whose
//! collections are `Seq` and whose text is `Seq<char>`); the decoder
//! contracts are stated over those views.

use vstd::prelude::*;

verus! {

/// The format variant, fixed per file by the 4-byte magic at offset 0.
/// `CDF01` uses 32-bit variable offsets, `CDF02` 64-bit ones. `HDF5` is
/// the newer HDF5-based container, recognized but not decoded.
#[derive(Clone, Copy, Debug, PartialEq, Eq, Structural)]
pub enum NetCDFVersion {
    CDF01,
    CDF02,
    HDF5,
}

/// The record count as written in the header: either the streaming
/// sentinel (all-ones tag; the writer did not know the final count) or a
/// fixed count.
#[derive(Clone, Copy, Debug, PartialEq, Eq, Structural)]
pub enum NetCDFStreaming {
    Streaming,
    Normal(u32),
}

/// The six element kinds of the classic format, with big-endian widths
/// 1/1/2/4/4/8 bytes.
#[derive(Clone, Copy, Debug, PartialEq, Eq, Structural)]
pub enum NetCDFType {
    NCByte,
    NCChar,
    NCShort,
    NCInt,
    NCFloat,
    NCDouble,
}

/// One decoded element. A char element is the Latin-1 code point of its
/// single byte. Float and Double elements carry the raw IEEE-754 bit
/// pattern read big-endian from the stream; interpreting the bits as a
/// floating-point number is presentation, not decoding.
#[derive(Clone, Copy, Debug, PartialEq, Eq, Structural)]
pub enum NetCDFValue {
    Byte(u8),
    Char(char),
    Short(i16),
    Int(i32),
    Float(u32),
    Double(u64),
}

/// A variable's byte position in the file: 32 bits wide in CDF-1 files,
/// 64 bits wide in CDF-2 files, never mixed within one file.
#[derive(Clone, Copy, Debug, PartialEq, Eq, Structural)]
pub enum NetCDFOffset {
    Pos32(u32),
    Pos64(u64),
}

/// A named dimension. Length 0 marks the single permitted unlimited
/// (record) dimension.
#[derive(Debug)]
pub struct NetCDFDimension {
    pub name: String,
    pub dim_length: u32,
}

/// A named attribute: one element type and a homogeneous run of values.
#[derive(Debug)]
pub struct NetCDFAttribute {
    pub name: String,
    pub nc_type: NetCDFType,
    pub values: Vec<NetCDFValue>,
}

/// A variable descriptor: name, positional dimension ids into the
/// dimension list, its own attribute list, element type, `vsize` (the
/// 4-byte-padded per-slab byte size), and its offset.
#[derive(Debug)]
pub struct NetCDFVariable {
    pub name: String,
    pub dimid: Vec<u32>,
    pub att_list: Vec<NetCDFAttribute>,
    pub nc_type: NetCDFType,
    pub vsize: u32,
    pub offset: NetCDFOffset,
}

/// Everything the header declares, in the order it is read.
#[derive(Debug)]
pub struct NetCDFHeader {
    pub version: NetCDFVersion,
    pub numrecs: NetCDFStreaming,
    pub dim_list: Vec<NetCDFDimension>,
    pub att_list: Vec<NetCDFAttribute>,
    pub var_list: Vec<NetCDFVariable>,
}

/// The data of one non-record variable: a single contiguous value run.
#[derive(Debug)]
pub struct NetCDFVarData {
    pub values: Vec<NetCDFValue>,
}

/// One variable's data for one logical record.
#[derive(Debug)]
pub struct NetCDFVarSlab {
    pub varslab: Vec<NetCDFValue>,
}

/// One logical record: one slab per record variable, in variable-list
/// order.
#[derive(Debug)]
pub struct NetCDFRecord {
    pub record: Vec<NetCDFVarSlab>,
}

/// The decoded data section: one entry per non-record variable in
/// variable-list order, then one record per resolved record index.
#[derive(Debug)]
pub struct NetCDFData {
    pub non_recs: Vec<NetCDFVarData>,
    pub recs: Vec<NetCDFRecord>,
}

/// A completely decoded file. Immutable once built; decode is
/// all-or-nothing, so no partial value of this type ever escapes.
#[derive(Debug)]
pub struct NetCDF {
    pub header: NetCDFHeader,
    pub data: NetCDFData,
}

/// Every way a decode can fail. All failures are terminal for the
/// current call; each carries the offending raw tag bytes (as their
/// big-endian value) or the raw text bytes, enough for diagnosis
/// without re-parsing.
#[derive(Debug)]
pub enum NetCDFError {
    /// The source ended before a declared read completed.
    IOError,
    /// The first 4 bytes match no known magic; carries them.
    UnknownVersion(u32),
    /// A name is not valid UTF-8; carries the raw name bytes.
    FromUtf8(Vec<u8>),
    /// The dimension list's tags are neither both zero nor the
    /// dimension marker; carries both raw tags.
    DimListTag(u32, u32),
    /// Likewise for an attribute list (global or a variable's own).
    AttrListTag(u32, u32),
    /// Likewise for the variable list.
    VarListTag(u32, u32),
    /// A type tag outside the six known values; carries it.
    NCType(u32),
    /// The HDF5-family magic was recognized but is not decoded.
    HDF5NotSupportetYet,
    /// An offset decode was attempted with no resolved version.
    UnknownOffsetVersion,
}

// --- ghost mirrors -------------------------------------------------------

/// Mathematical view of [`NetCDFDimension`].
#[verifier::ext_equal]
pub ghost struct DimView {
    pub name: Seq<char>,
    pub dim_length: u32,
}

/// Mathematical view of [`NetCDFAttribute`].
#[verifier::ext_equal]
pub ghost struct AttView {
    pub name: Seq<char>,
    pub nc_type: NetCDFType,
    pub values: Seq<NetCDFValue>,
}

/// Mathematical view of [`NetCDFVariable`].
#[verifier::ext_equal]
pub ghost struct VarView {
    pub name: Seq<char>,
    pub dimid: Seq<u32>,
    pub att_list: Seq<AttView>,
    pub nc_type: NetCDFType,
    pub vsize: u32,
    pub offset: NetCDFOffset,
}

/// Mathematical view of [`NetCDFHeader`].
#[verifier::ext_equal]
pub ghost struct HeaderView {
    pub version: NetCDFVersion,
    pub numrecs: NetCDFStreaming,
    pub dim_list: Seq<DimView>,
    pub att_list: Seq<AttView>,
    pub var_list: Seq<VarView>,
}

/// Mathematical view of [`NetCDFData`]: each non-record variable's run
/// as a value sequence, and each record as its slabs' value sequences.
#[verifier::ext_equal]
pub ghost struct DataView {
    pub non_recs: Seq<Seq<NetCDFValue>>,
    pub recs: Seq<Seq<Seq<NetCDFValue>>>,
}

/// Mathematical view of [`NetCDF`].
#[verifier::ext_equal]
pub ghost struct NetCDFView {
    pub header: HeaderView,
    pub data: DataView,
}

/// Mathematical view of [`NetCDFError`].
#[verifier::ext_equal]
pub ghost enum ErrView {
    IOError,
    UnknownVersion(u32),
    FromUtf8(Seq<u8>),
    DimListTag(u32, u32),
    AttrListTag(u32, u32),
    VarListTag(u32, u32),
    NCType(u32),
    HDF5NotSupportetYet,
    UnknownOffsetVersion,
}

/// Views of a sequence of attributes, element by element.
pub open spec fn atts_view(v: Seq<NetCDFAttribute>) -> Seq<AttView> {
    v.map_values(|a: NetCDFAttribute| a@)
}

/// Views of a sequence of dimensions, element by element.
pub open spec fn dims_view(v: Seq<NetCDFDimension>) -> Seq<DimView> {
    v.map_values(|d: NetCDFDimension| d@)
}

/// Views of a sequence of variables, element by element.
pub open spec fn vars_view(v: Seq<NetCDFVariable>) -> Seq<VarView> {
    v.map_values(|x: NetCDFVariable| x@)
}

/// Views of a sequence of value-run holders, element by element.
pub open spec fn var_data_view(v: Seq<NetCDFVarData>) -> Seq<Seq<NetCDFValue>> {
    v.map_values(|x: NetCDFVarData| x.values@)
}

/// Views of a sequence of slabs, element by element.
pub open spec fn slabs_view(v: Seq<NetCDFVarSlab>) -> Seq<Seq<NetCDFValue>> {
    v.map_values(|x: NetCDFVarSlab| x.varslab@)
}

/// Views of a sequence of records, element by element.
pub open spec fn recs_view(v: Seq<NetCDFRecord>) -> Seq<Seq<Seq<NetCDFValue>>> {
    v.map_values(|x: NetCDFRecord| slabs_view(x.record@))
}

impl View for NetCDFDimension {
    type V = DimView;

    open spec fn view(&self) -> DimView {
        DimView { name: self.name@, dim_length: self.dim_length }
    }
}

impl View for NetCDFAttribute {
    type V = AttView;

    open spec fn view(&self) -> AttView {
        AttView { name: self.name@, nc_type: self.nc_type, values: self.values@ }
    }
}

impl View for NetCDFVariable {
    type V = VarView;

    open spec fn view(&self) -> VarView {
        VarView {
            name: self.name@,
            dimid: self.dimid@,
            att_list: atts_view(self.att_list@),
            nc_type: self.nc_type,
            vsize: self.vsize,
            offset: self.offset,
        }
    }
}

impl View for NetCDFHeader {
    type V = HeaderView;

    open spec fn view(&self) -> HeaderView {
        HeaderView {
            version: self.version,
            numrecs: self.numrecs,
            dim_list: dims_view(self.dim_list@),
            att_list: atts_view(self.att_list@),
            var_list: vars_view(self.var_list@),
        }
    }
}

impl View for NetCDFData {
    type V = DataView;

    open spec fn view(&self) -> DataView {
        DataView {
            non_recs: var_data_view(self.non_recs@),
            recs: recs_view(self.recs@),
        }
    }
}

impl View for NetCDF {
    type V = NetCDFView;

    open spec fn view(&self) -> NetCDFView {
        NetCDFView { header: self.header@, data: self.data@ }
    }
}

impl View for NetCDFError {
    type V = ErrView;

    open spec fn view(&self) -> ErrView {
        match self {
            NetCDFError::IOError => ErrView::IOError,
            NetCDFError::UnknownVersion(t) => ErrView::UnknownVersion(*t),
            NetCDFError::FromUtf8(b) => ErrView::FromUtf8(b@),
            NetCDFError::DimListTag(t1, t2) => ErrView::DimListTag(*t1, *t2),
            NetCDFError::AttrListTag(t1, t2) => ErrView::AttrListTag(*t1, *t2),
            NetCDFError::VarListTag(t1, t2) => ErrView::VarListTag(*t1, *t2),
            NetCDFError::NCType(t) => ErrView::NCType(*t),
            NetCDFError::HDF5NotSupportetYet => ErrView::HDF5NotSupportetYet,
            NetCDFError::UnknownOffsetVersion => ErrView::UnknownOffsetVersion,
        }
    }
}

impl NetCDF {
    /// The record count as read from the header; a streaming file
    /// reports 0 here (the resolved count is the length of `recs`).
    pub fn num_of_records(&self) -> (r: u32)
        ensures
            r == (match self@.header.numrecs {
                NetCDFStreaming::Streaming => 0u32,
                NetCDFStreaming::Normal(n) => n,
            }),
    {
        match self.header.numrecs {
            NetCDFStreaming::Streaming => 0,
            NetCDFStreaming::Normal(n) => n,
        }
    }

    /// How many dimensions the header declares.
    pub fn num_of_dimensions(&self) -> (r: u32)
        ensures
            r == self@.header.dim_list.len() as u32,
    {
        self.header.dim_list.len() as u32
    }

    /// How many global attributes the header declares.
    pub fn num_of_attributes(&self) -> (r: u32)
        ensures
            r == self@.header.att_list.len() as u32,
    {
        self.header.att_list.len() as u32
    }

    /// How many variables the header declares.
    pub fn num_of_variables(&self) -> (r: u32)
        ensures
            r == self@.header.var_list.len() as u32,
    {
        self.header.var_list.len() as u32
    }
}

} // verus!
