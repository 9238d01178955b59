//! A read-only decoder for the classic netCDF binary container format
//! (the CDF-1 32-bit-offset and CDF-2 64-bit-offset variants).

pub mod cursor;
pub mod grammar;
pub mod netcdf;
pub mod props;
pub mod reader;
